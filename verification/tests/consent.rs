use hp_thermal::consent::{
    check, classify, is_known_good, record_acceptance, same_machine, Consent, KNOWN_GOOD_F25,
};
use hp_thermal::hwinfo::{accepted_text, HwInfo};

const DEV: &str = "HP|HP ENVY Laptop 16-h1xxx|103C_5335M8 HP ENVY|8BE5|F.25|72.35";
const OTHER: &str = "HP|HP Pavilion 15-eh|103C_ABCD HP Pavilion|8XYZ|A.01|10.20";

#[test]
fn known_good_is_trusted_without_any_acceptance() {
    assert_eq!(classify(DEV, None), Consent::Trusted);
}

#[test]
fn unknown_board_with_no_acceptance_prompts_as_new() {
    assert_eq!(classify(OTHER, None), Consent::NeedsPrompt { firmware_changed: false });
}

#[test]
fn matching_prior_acceptance_is_trusted() {
    assert_eq!(classify(OTHER, Some(OTHER)), Consent::Trusted);
}

#[test]
fn firmware_update_on_accepted_machine_reprompts_softly() {
    // Same board and product, BIOS bumped A.01 -> A.02.
    let after_bios = "HP|HP Pavilion 15-eh|103C_ABCD HP Pavilion|8XYZ|A.02|10.20";
    assert_eq!(
        classify(after_bios, Some(OTHER)),
        Consent::NeedsPrompt { firmware_changed: true }
    );
}

#[test]
fn a_different_machine_prompts_as_new_even_with_prior_acceptance() {
    let different = "HP|HP Omen 17|103C_ZZZZ HP OMEN|9ABC|B.05|20.30";
    assert_eq!(
        classify(different, Some(OTHER)),
        Consent::NeedsPrompt { firmware_changed: false }
    );
}

#[test]
fn known_good_wins_even_over_a_stale_acceptance_file() {
    assert_eq!(classify(DEV, Some(OTHER)), Consent::Trusted);
}

#[test]
fn f26_bios_only_bump_is_known_good() {
    const DEV_F26: &str = "HP|HP ENVY Laptop 16-h1xxx|103C_5335M8 HP ENVY|8BE5|F.26|72.35";
    assert_eq!(classify(DEV_F26, None), Consent::Trusted);
}

fn pavilion() -> HwInfo {
    HwInfo {
        manufacturer: "HP".to_string(),
        product: "HP Pavilion 15-eh".to_string(),
        board: "8XYZ".to_string(),
        family: "103C_ABCD HP Pavilion".to_string(),
        bios_version: "A.01".to_string(),
        board_version: "10.20".to_string(),
    }
}

#[test]
fn recorded_acceptance_is_the_fingerprint() {
    let units = record_acceptance(&pavilion());
    let mut expected: Vec<u16> = OTHER.encode_utf16().collect();
    expected.push(0);
    assert_eq!(units, expected);
}

#[test]
fn acceptance_is_read_back() {
    let units = record_acceptance(&pavilion());
    let mut buf = [0xffffu16; 256];
    buf[..units.len()].copy_from_slice(&units);
    let accepted = accepted_text(true, 2 * units.len() as u32, &buf);
    assert_eq!(accepted.as_deref(), Some(OTHER));
    assert_eq!(check(&pavilion(), accepted.as_deref()), Consent::Trusted);
}

#[test]
fn check_goes_by_the_fingerprint() {
    assert_eq!(check(&pavilion(), Some(OTHER)), Consent::Trusted);
    assert_eq!(check(&pavilion(), None), Consent::NeedsPrompt { firmware_changed: false });
}

#[test]
fn known_good_is_an_exact_match() {
    assert!(is_known_good(KNOWN_GOOD_F25));
    assert!(!is_known_good("HP|HP ENVY Laptop 16-h1xxx|103C_5335M8 HP ENVY|8BE5|F.27|72.35"));
    assert!(!is_known_good(""));
}

#[test]
fn machines_are_the_same_by_all_but_the_firmware() {
    assert!(same_machine(
        "HP|HP Pavilion 15-eh|103C_ABCD HP Pavilion|8XYZ|A.02|11.00",
        OTHER
    ));
    assert!(!same_machine(DEV, OTHER));
    // Nothing has changed.
    assert!(!same_machine(OTHER, OTHER));
}
