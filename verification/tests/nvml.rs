use hp_thermal::nvml::{
    gpu_from, gpu_info, is_loaded, name_bytes, prepare, unload_if_idle, Nvml, IDLE_TIMEOUT,
    PSTATE_UNKNOWN,
};

#[test]
fn an_idle_library_is_unloaded() {
    let mut n = Nvml { last_use: None };
    assert!(!prepare(&mut n, false, 5));
    assert!(!is_loaded(&n));
    assert!(prepare(&mut n, true, 1000));
    assert!(prepare(&mut n, false, 2000), "it stays loaded");
    let early = unload_if_idle(&mut n, 2000 + IDLE_TIMEOUT - 1);
    assert!(!early.unload && !early.gone);
    let late = unload_if_idle(&mut n, 2000 + IDLE_TIMEOUT);
    assert!(late.unload && late.gone);
    assert!(!is_loaded(&n));
}

#[test]
fn names_end_with_their_zero() {
    assert_eq!(name_bytes(b"RTX\0junk"), b"RTX".to_vec());
    assert_eq!(name_bytes(b"RTX"), b"RTX".to_vec());
}

#[test]
fn the_card_needs_temperature_and_power() {
    assert!(gpu_from(None, Some(1), Some(2), "x".to_string()).is_none());
    assert!(gpu_from(Some(1), None, Some(2), "x".to_string()).is_none());
    let g = gpu_info(Some(55), Some(20_000), None, b"RTX 4060\0").unwrap();
    assert_eq!(g.name, "RTX 4060");
    assert_eq!(g.temp_c, 55);
    assert_eq!(g.power_mw, 20_000);
    assert_eq!(g.pstate, PSTATE_UNKNOWN);
}

#[test]
fn names_that_are_no_utf8_are_read_with_loss() {
    let g = gpu_info(Some(1), Some(15_000), Some(3), &[0x41, 0xFF, 0x42, 0]).unwrap();
    assert_eq!(g.name, "A\u{FFFD}B");
    assert_eq!((g.power_mw, g.pstate), (15_000, 3));
}
