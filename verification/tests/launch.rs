use hp_thermal::app::Build;
use hp_thermal::consent::Consent;
use hp_thermal::hwinfo::HwInfo;
use hp_thermal::launch::{
    action_chosen, choices_text, command, consent_answer, consent_text, default_run,
    guarded_setup, help_text, install_next, not_running_text, role, unsupported_text,
    up_to_date_text, update_text, version_line, Answer, Command, GuardedStep, InstallStep,
    RunStep,
};
use hp_thermal::onboarding::Choices;
use hp_thermal::win_harden::Role;

#[test]
fn arguments_name_their_command() {
    for (arg, c) in [
        ("--service", Command::Service),
        ("install", Command::Install),
        ("--install", Command::Install),
        ("--install-svc", Command::InstallService),
        ("--update-svc", Command::UpdateService),
        ("--stop-svc", Command::StopService),
        ("--start-svc", Command::StartService),
        ("stop", Command::Stop),
        ("--start", Command::Start),
        ("uninstall", Command::Uninstall),
        ("--preview-onboarding", Command::PreviewOnboarding),
        ("-h", Command::Help),
        ("-V", Command::Version),
        ("--HELP", Command::Unknown),
        ("", Command::Unknown),
    ] {
        assert_eq!(command(Some(arg), false), c, "{arg}");
        assert_eq!(command(Some(arg), true), c, "{arg}");
    }
}

#[test]
fn the_tray_refuses_to_run_elevated() {
    assert_eq!(command(None, false), Command::Run);
    assert_eq!(command(None, true), Command::Refuse);
    assert_eq!(role(Command::Refuse), None);
    assert_eq!(role(Command::Run), Some(Role::Tray));
    assert_eq!(role(Command::Service), Some(Role::Service));
    assert_eq!(role(Command::InstallService), Some(Role::ElevatedSetup));
    assert_eq!(role(Command::Install), Some(Role::Launcher));
}

#[test]
fn consent_comes_before_the_tray() {
    assert_eq!(default_run(RunStep::CheckHardware, Answer::No), RunStep::ShowUnsupported);
    assert_eq!(default_run(RunStep::CheckHardware, Answer::Yes), RunStep::CheckConsent);
    assert_eq!(default_run(RunStep::CheckConsent, Answer::No), RunStep::AskConsent);
    assert_eq!(
        default_run(RunStep::CheckConsent, Answer::FirmwareChanged),
        RunStep::AskConsentAgain
    );
    assert_eq!(default_run(RunStep::AskConsent, Answer::No), RunStep::Done);
    assert_eq!(default_run(RunStep::AskConsent, Answer::Yes), RunStep::RecordAcceptance);
}

#[test]
fn consent_has_three_answers() {
    assert_eq!(consent_answer(Consent::Trusted), Answer::Yes);
    assert_eq!(
        consent_answer(Consent::NeedsPrompt { firmware_changed: false }),
        Answer::No
    );
    assert_eq!(
        consent_answer(Consent::NeedsPrompt { firmware_changed: true }),
        Answer::FirmwareChanged
    );
}

#[test]
fn installs_check_the_hardware_first() {
    assert_eq!(install_next(InstallStep::CheckHardware, false), InstallStep::ShowUnsupported);
    assert_eq!(install_next(InstallStep::CheckHardware, true), InstallStep::CheckService);
    assert_eq!(guarded_setup(GuardedStep::CheckHardware, false), GuardedStep::ShowUnsupported);
    assert_eq!(guarded_setup(GuardedStep::CheckHardware, true), GuardedStep::Lock);
    assert_eq!(guarded_setup(GuardedStep::Lock, false), GuardedStep::WarnBusy);
    assert_eq!(guarded_setup(GuardedStep::Lock, true), GuardedStep::Operate);
}

fn build() -> Build {
    Build {
        version: "0.3.1".to_string(),
        id: "140.abc".to_string(),
        date: "20260101_120000".to_string(),
    }
}

fn dell() -> HwInfo {
    HwInfo {
        manufacturer: "Dell Inc.".to_string(),
        product: "XPS".to_string(),
        board: "B".to_string(),
        family: "F".to_string(),
        bios_version: "1".to_string(),
        board_version: "2".to_string(),
    }
}

#[test]
fn unsupported_hardware_is_named() {
    assert_eq!(
        unsupported_text(&dell()),
        "This app requires an HP laptop.\n\nDetected hardware:\n  Manufacturer: Dell Inc.\n  Model: XPS\n\nYour hardware is not supported."
    );
}

#[test]
fn texts_name_what_they_are_about() {
    assert!(consent_text(&dell(), false).contains("(board B, BIOS 1)"));
    assert_ne!(consent_text(&dell(), false), consent_text(&dell(), true));
    assert!(update_text(Some("0.2.0"), &build()).starts_with("Update from v0.2.0 to v0.3.1?"));
    assert!(update_text(None, &build()).starts_with("Reinstall HP Thermal Control v0.3.1?"));
    assert!(!not_running_text().is_empty());
    assert!(!up_to_date_text().is_empty());
}

#[test]
fn help_begins_with_the_version() {
    assert_eq!(version_line(&build()), "hp-thermal 0.3.1+140.abc (20260101_120000)");
    let help = help_text(&build());
    assert!(help.starts_with("hp-thermal 0.3.1+140.abc (20260101_120000)\nHP laptop"));
    assert!(help.contains("\n  hp-thermal install      Install and start the background service\n"));
    assert!(help.ends_with("  hp-thermal --version    Show version\n"));
}

#[test]
fn chosen_options_are_spelled_out() {
    let c = Choices { run_at_startup: true, start_menu: false, desktop: true };
    assert_eq!(
        choices_text(c),
        "Install clicked.\n\nRun at startup: true\nStart Menu shortcut: false\nDesktop shortcut: true"
    );
}

#[test]
fn only_the_action_button_acts() {
    assert!(action_chosen(true, 100));
    assert!(!action_chosen(true, 2));
    assert!(!action_chosen(false, 100));
}

#[test]
fn untrusted_hardware_needs_acceptance() {
    let run = |answers: &[Answer]| {
        answers.iter().fold(RunStep::CheckHardware, |s, a| default_run(s, *a))
    };
    // Not trusted, and not accepted either: over.
    assert_eq!(run(&[Answer::Yes, Answer::No]), RunStep::AskConsent);
    assert_eq!(run(&[Answer::Yes, Answer::No, Answer::No]), RunStep::Done);
    assert_eq!(run(&[Answer::Yes, Answer::FirmwareChanged, Answer::No]), RunStep::Done);
    assert_eq!(run(&[Answer::Yes, Answer::No, Answer::No, Answer::Yes]), RunStep::Done);
    // Accepted: recorded, and on it goes.
    assert_eq!(run(&[Answer::Yes, Answer::No, Answer::Yes]), RunStep::RecordAcceptance);
    // Not one of HP's: a message and nothing else.
    assert_eq!(run(&[Answer::No]), RunStep::ShowUnsupported);
    assert_eq!(run(&[Answer::No, Answer::Yes]), RunStep::Done);
}
