use hp_thermal::mode::ThermalMode;
use hp_thermal::mode::ThermalMode::{Balanced, Cool, Performance, PowerSaver};

#[test]
fn wire_round_trips() {
    for (v, m) in [(0u8, Performance), (1, Balanced), (2, Cool), (3, PowerSaver)] {
        assert_eq!(ThermalMode::from_u8(v), m);
        assert_eq!(m.as_u8(), v);
    }
}

#[test]
fn from_u8_masks_stray_high_bits() {
    assert_eq!(ThermalMode::from_u8(0xFC), Performance);
    assert_eq!(ThermalMode::from_u8(0xFF), PowerSaver);
}

#[test]
fn same_band_partner_stays_in_band_and_differs() {
    for m in [Performance, Balanced, Cool, PowerSaver] {
        let p = m.same_band_partner();
        assert_ne!(p, m, "partner must differ from the original mode");
        assert_eq!(p.is_loud(), m.is_loud(), "partner must share the fan-noise band");
    }
    assert_eq!(Performance.same_band_partner(), Cool);
    assert_eq!(Cool.same_band_partner(), Performance);
    assert_eq!(Balanced.same_band_partner(), PowerSaver);
    assert_eq!(PowerSaver.same_band_partner(), Balanced);
}

#[test]
fn ux_name_has_space_internal_debug_does_not() {
    assert_eq!(PowerSaver.name(), "Power Saver");
    assert_eq!(format!("{PowerSaver:?}"), "PowerSaver");
}
