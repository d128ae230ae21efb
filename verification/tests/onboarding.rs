use hp_thermal::app::Build;
use hp_thermal::onboarding::{
    checked_at_start, dialog_command, is_checked, prompt, version_text, Choices, DialogCommand,
    BST_CHECKED, IDCANCEL, IDC_DESKTOP, IDC_PROGRAMS, IDC_STARTUP, IDOK,
};

fn choices(run_at_startup: bool, start_menu: bool, desktop: bool) -> Choices {
    Choices { run_at_startup, start_menu, desktop }
}

#[test]
fn args_roundtrip_every_combination() {
    for run_at_startup in [false, true] {
        for start_menu in [false, true] {
            for desktop in [false, true] {
                let c = choices(run_at_startup, start_menu, desktop);
                let argv: Vec<String> = c.to_args().split_whitespace().map(String::from).collect();
                assert_eq!(Choices::from_args(&argv), c);
            }
        }
    }
}

#[test]
fn flag_names_are_stable() {
    assert_eq!(choices(true, false, false).to_args(), "--startup");
    assert_eq!(choices(false, true, false).to_args(), "--start-menu");
    assert_eq!(choices(false, false, true).to_args(), "--desktop");
    assert_eq!(choices(false, false, false).to_args(), "");
}

#[test]
fn from_args_ignores_unknown_flags() {
    let argv = vec!["--startup".to_string(), "--bogus".to_string(), "--desktop".to_string()];
    assert_eq!(Choices::from_args(&argv), choices(true, false, true));
}

#[test]
fn buttons_accept_or_cancel() {
    assert_eq!(dialog_command(IDOK as usize), DialogCommand::Accept);
    assert_eq!(dialog_command(IDCANCEL as usize), DialogCommand::Cancel);
    assert_eq!(dialog_command(777), DialogCommand::Ignore);
}

#[test]
fn boxes_are_read_by_their_state() {
    assert!(is_checked(Some(BST_CHECKED)));
    assert!(!is_checked(Some(0)));
    assert!(!is_checked(None));
    assert_eq!(
        [IDC_STARTUP, IDC_PROGRAMS, IDC_DESKTOP].map(checked_at_start),
        [true, true, false]
    );
}

#[test]
fn a_cancelled_dialog_chooses_nothing() {
    let c = choices(true, true, false);
    assert_eq!(prompt(IDOK as isize, Some(c)), Some(c));
    assert_eq!(prompt(IDCANCEL as isize, Some(c)), None);
    assert_eq!(prompt(IDOK as isize, None), None);
}

#[test]
fn version_is_shown() {
    let build = Build {
        version: "0.3.1".to_string(),
        id: "140.abc".to_string(),
        date: "20260101_120000".to_string(),
    };
    assert_eq!(version_text(&build), "hp-thermal v0.3.1+140.abc");
}
