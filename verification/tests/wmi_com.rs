use std::cell::Cell;

use hp_thermal::calls::Firmware;
use hp_thermal::protocol::STATUS_WMI_ERROR;
use hp_thermal::wmi_com::{
    bios_call_method, event_line, first_four, indicate, read_acpi_temp, read_brightness,
    read_coolsense, read_esif_temp, read_temp, read_thermal, set_coolsense, set_thermal,
    should_signal_fn_key, BiosRequest, EsifRow, BIOS_STEPS, FIRST_STEP_ERROR,
};

#[test]
fn only_event_29_signals_fn_key() {
    assert!(should_signal_fn_key(29));
    for id in [0u32, 3, 26, 28, 30, 100, u32::MAX] {
        assert!(!should_signal_fn_key(id), "id {id} must not signal");
    }
}

#[test]
fn indicate_tolerates_empty_batch() {
    assert!(!indicate(&[]));
}

#[test]
fn one_key_event_in_a_batch_signals() {
    assert!(indicate(&[Some(3), None, Some(29)]));
    assert!(!indicate(&[Some(3), None, Some(28)]));
}

#[test]
fn failed_calls_name_their_step() {
    assert_eq!(bios_call_method(0, true), Ok(1));
    assert_eq!(bios_call_method(0, false), Err(FIRST_STEP_ERROR));
    assert_eq!(bios_call_method(3, false), Err(FIRST_STEP_ERROR + 3));
    assert_eq!(bios_call_method(BIOS_STEPS - 1, true), Ok(BIOS_STEPS));
}

#[test]
fn short_data_is_filled_with_zeros() {
    assert_eq!(first_four(&[1, 2]), [1, 2, 0, 0]);
    assert_eq!(first_four(&[1, 2, 3, 4, 5]), [1, 2, 3, 4]);
}

#[test]
fn esif_temperature_is_that_of_the_package() {
    let row = |name: &str, temp: u32| EsifRow { name: Some(name.to_string()), temp: Some(temp) };
    let rows = vec![
        EsifRow { name: None, temp: Some(99) },
        row("TPCH_1", 50),
        row("TCPU_3", 0),
        row("TCPU_3", 61),
        row("TCPU_3", 70),
    ];
    assert_eq!(read_esif_temp(&rows), Ok(61));
    assert_eq!(read_esif_temp(&[row("TCPU_3", 300)]), Ok(255));
    assert!(read_esif_temp(&[row("TPCH_1", 50)]).is_err());
    assert_eq!(read_temp(Some(&rows), Some(&[Some(3032)])), Ok(61));
    assert_eq!(read_temp(None, Some(&[Some(3032)])), Ok(30));
    assert_eq!(read_temp(None, None), Err(STATUS_WMI_ERROR));
}

#[test]
fn acpi_temperatures_are_tenths_of_kelvin() {
    // 3032 tenths of a kelvin are 30 degrees.
    assert_eq!(read_acpi_temp(&[Some(3032)]), 30);
    assert_eq!(read_acpi_temp(&[Some(3032), Some(3332), None]), 60);
    assert_eq!(read_acpi_temp(&[]), 0);
}

#[test]
fn brightness_is_passed_on() {
    assert_eq!(read_brightness(Some(80)), Ok(80));
    assert!(read_brightness(None).is_err());
}

#[test]
fn events_are_logged() {
    assert!(event_line(29, 8613).text.contains("29"));
}

#[test]
fn thermal_mode_is_the_first_byte() {
    let asked: Cell<(u32, u32, u8)> = Cell::new((0, 0, 0));
    let bios = |r: BiosRequest| -> Result<(u32, Vec<u8>), u8> {
        asked.set((r.command, r.command_type, r.first));
        Ok((0, vec![2, 1]))
    };
    assert_eq!(read_thermal(&mut Firmware::new(&bios)), Ok(2));
    assert_eq!(asked.get(), (1, 76, 0));
    assert_eq!(set_thermal(&mut Firmware::new(&bios), 3), Ok(()));
    assert_eq!(asked.get(), (2, 76, 3));
    assert_eq!(read_coolsense(&mut Firmware::new(&bios)), Ok(1));
    assert_eq!(asked.get(), (1, 44, 0));
}

#[test]
fn coolsense_keeps_the_flags() {
    let written: Cell<(u8, u8)> = Cell::new((0, 0));
    let bios = |r: BiosRequest| -> Result<(u32, Vec<u8>), u8> {
        if r.command == 2 {
            written.set((r.first, r.second));
        }
        Ok((0, vec![0x40, 0]))
    };
    assert_eq!(set_coolsense(&mut Firmware::new(&bios), 1), Ok(()));
    assert_eq!(written.get(), (0x40, 1));
}

#[test]
fn nothing_is_written_where_the_flags_are_not_known() {
    let calls = Cell::new(0u32);
    let bios = |_r: BiosRequest| -> Result<(u32, Vec<u8>), u8> {
        calls.set(calls.get() + 1);
        Ok((5, vec![0x40, 0]))
    };
    assert_eq!(set_coolsense(&mut Firmware::new(&bios), 1), Err(STATUS_WMI_ERROR));
    assert_eq!(calls.get(), 1);
}

#[test]
fn firmware_errors_are_passed_on() {
    let failing = |_r: BiosRequest| -> Result<(u32, Vec<u8>), u8> { Err(0x17) };
    assert_eq!(read_thermal(&mut Firmware::new(&failing)), Err(0x17));
    assert_eq!(set_coolsense(&mut Firmware::new(&failing), 1), Err(0x17));
    let refusing = |_r: BiosRequest| -> Result<(u32, Vec<u8>), u8> { Ok((5, vec![])) };
    assert_eq!(read_thermal(&mut Firmware::new(&refusing)), Err(STATUS_WMI_ERROR));
    assert_eq!(set_thermal(&mut Firmware::new(&refusing), 0), Err(STATUS_WMI_ERROR));
}

#[test]
fn only_writes_carry_data() {
    let write = BiosRequest { command: 2, command_type: 76, first: 3, second: 0 };
    assert_eq!(write.data(), [3, 0, 0, 0]);
    assert_eq!(write.size(), 4);
    let read = BiosRequest { command: 1, command_type: 76, first: 0, second: 0 };
    assert_eq!(read.size(), 0);
}
