use hp_thermal::hwinfo::{accepted_text, cpu_name, is_hp_name, registry_text, HwInfo, REG_SZ};

/// The machine that the thermal control was worked out on.
fn envy_16() -> HwInfo {
    HwInfo {
        manufacturer: "HP".into(),
        product: "HP ENVY Laptop 16-h1xxx".into(),
        board: "8BE5".into(),
        family: "103C_5335M8 HP ENVY".into(),
        bios_version: "F.25".into(),
        board_version: "72.35".into(),
    }
}

#[test]
fn is_hp_matches_hp_and_hewlett() {
    let mut hw = envy_16();
    assert!(hw.is_hp());
    hw.manufacturer = "Hewlett-Packard".into();
    assert!(hw.is_hp());
    hw.manufacturer = "Dell Inc.".into();
    assert!(!hw.is_hp());
}

#[test]
fn fingerprint_is_deterministic_and_covers_every_field() {
    let hw = envy_16();
    assert_eq!(hw.fingerprint(), hw.fingerprint(), "must be deterministic");
    for field in [
        "HP",
        "HP ENVY Laptop 16-h1xxx",
        "103C_5335M8 HP ENVY",
        "8BE5",
        "F.25",
        "72.35",
    ] {
        assert!(hw.fingerprint().contains(field), "fingerprint must include {field}");
    }
}

#[test]
fn fingerprint_changes_on_bios_or_ec_update() {
    let base = envy_16().fingerprint();

    let mut bios_update = envy_16();
    bios_update.bios_version = "F.30".into();
    assert_ne!(base, bios_update.fingerprint(), "BIOS update must re-prompt");

    let mut ec_update = envy_16();
    ec_update.board_version = "72.40".into();
    assert_ne!(base, ec_update.fingerprint(), "EC update must re-prompt");
}

#[test]
fn fingerprint_changes_on_different_board() {
    let a = envy_16().fingerprint();
    let mut other = envy_16();
    other.board = "8XYZ".into();
    assert_ne!(a, other.fingerprint(), "a different board must re-prompt");
}

#[test]
fn fingerprint_is_the_fields_with_bars() {
    assert_eq!(
        envy_16().fingerprint(),
        "HP|HP ENVY Laptop 16-h1xxx|103C_5335M8 HP ENVY|8BE5|F.25|72.35"
    );
}

#[test]
fn the_case_of_the_maker_does_not_matter() {
    let mut hw = envy_16();
    hw.manufacturer = "HEWLETT-PACKARD COMPANY".into();
    assert!(hw.is_hp());
    hw.manufacturer = "hp".into();
    assert!(hw.is_hp());
    assert!(is_hp_name("hp"));
    assert!(is_hp_name("hewlett-packard"));
    assert!(!is_hp_name("lenovo"));
}

#[test]
fn registry_values_are_texts_without_the_zero() {
    let mut buf: Vec<u16> = "HP\0".encode_utf16().collect();
    buf.resize(64, 0);
    assert_eq!(registry_text(true, REG_SZ, 6, &buf), "HP");
    assert_eq!(registry_text(true, REG_SZ, 0, &buf), "");
    assert_eq!(registry_text(false, REG_SZ, 6, &buf), "");
    // Where the query failed, its size means nothing.
    assert_eq!(registry_text(false, REG_SZ, u32::MAX, &buf), "");
    assert_eq!(registry_text(true, 4, 6, &buf), "");
}

#[test]
fn processor_names_are_trimmed() {
    let mut buf: Vec<u16> = " Intel Core  ".encode_utf16().collect();
    buf.push(0);
    assert_eq!(cpu_name(true, REG_SZ, 28, &buf), "Intel Core");
    assert_eq!(cpu_name(false, REG_SZ, 28, &buf), "");
}

#[test]
fn acceptance_is_a_text_or_nothing() {
    let buf: Vec<u16> = " HP|x \0".encode_utf16().collect();
    assert_eq!(accepted_text(true, 14, &buf), Some("HP|x".to_string()));
    assert_eq!(accepted_text(false, 14, &buf), None);
    assert_eq!(accepted_text(true, 0, &buf), None);
}
