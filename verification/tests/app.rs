use hp_thermal::app::{
    build_identity, data_dir, exe_dir, file_digest, fnv1a_64, install_dir, installed_exe,
    service_sddl, Build, ACE_ADMINS, ACE_SYSTEM, ACE_USER,
};

#[test]
fn sddl_is_a_dacl_with_three_allow_aces() {
    let sddl = service_sddl();
    assert!(sddl.starts_with("D:"), "must be a DACL: {sddl}");
    assert_eq!(sddl.matches("(A;;").count(), 3, "expected 3 allow ACEs: {sddl}");
    assert_eq!(sddl.matches(')').count(), 3, "unbalanced ACEs: {sddl}");
}

#[test]
fn sddl_grants_all_three_trustees() {
    let sddl = service_sddl();
    for trustee in [";;SY)", ";;BA)", ";;IU)"] {
        assert!(sddl.contains(trustee), "missing trustee {trustee} in {sddl}");
    }
}

#[test]
fn interactive_user_can_start_and_stop_without_elevation() {
    assert!(ACE_USER.ends_with(";;IU)"), "IU ACE malformed: {ACE_USER}");
    assert!(ACE_USER.contains("RP"), "IU must have SERVICE_START (RP)");
    assert!(ACE_USER.contains("WP"), "IU must have SERVICE_STOP (WP)");
}

#[test]
fn sddl_is_the_aces_in_order() {
    assert_eq!(service_sddl(), format!("D:{ACE_SYSTEM}{ACE_ADMINS}{ACE_USER}"));
}

#[test]
fn fnv_has_its_known_values() {
    assert_eq!(fnv1a_64(b""), 0xcbf29ce484222325);
    assert_eq!(fnv1a_64(b"a"), 0xaf63dc4c8601ec8c);
    assert_eq!(fnv1a_64(b"foobar"), 0x85944171f73967e8);
}

#[test]
fn digest_is_sixteen_digits() {
    assert_eq!(file_digest(Some(b"a".as_slice())), "af63dc4c8601ec8c");
    assert_ne!(file_digest(None), file_digest(Some(b"".as_slice())));
}

#[test]
fn identity_names_build_and_path() {
    let build = Build {
        version: "0.3.1".to_string(),
        id: "140.abc".to_string(),
        date: "20260101_120000".to_string(),
    };
    assert_eq!(
        build_identity(&build, "C:\\x\\hp-thermal.exe", Some(b"a".as_slice())),
        "hp-thermal 0.3.1+140.abc (20260101_120000) fnv=af63dc4c8601ec8c path=C:\\x\\hp-thermal.exe"
    );
}

#[test]
fn directories_are_under_their_roots() {
    assert_eq!(install_dir("C:\\Program Files"), "C:\\Program Files\\HpThermal");
    assert_eq!(data_dir("C:\\ProgramData"), "C:\\ProgramData\\HpThermal");
    assert_eq!(
        installed_exe("C:\\Program Files"),
        "C:\\Program Files\\HpThermal\\hp-thermal.exe"
    );
    assert_eq!(exe_dir("C:\\a\\b\\c.exe"), "C:\\a\\b");
}

#[test]
fn one_byte_changes_the_digest() {
    let file: Vec<u8> = (0..64).collect();
    for i in 0..file.len() {
        let mut other = file.clone();
        other[i] ^= 1;
        assert_ne!(fnv1a_64(&file), fnv1a_64(&other));
    }
}
