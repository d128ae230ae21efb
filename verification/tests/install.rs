use hp_thermal::app::Build;
use hp_thermal::install::{
    acquire_setup_lock, copy_exe_to_install_dir, create_args, describe_args, ensure_tray, goes_on,
    image_write_restricted, install_args, install_service, installed_line, installed_version,
    is_elevated,
    is_installed_copy, is_service_current, is_service_down, is_service_installed,
    is_service_running, locker_line, multi_sz, native_start, native_stop, relocated_name, relocates,
    running_from_install_dir, shortcut_path, start, start_service, still_there, stop,
    stop_service, system32_path, uninstall, update, update_note, update_service, wait_for_service_running,
    wait_for_service_stopped, wait_or_kill_other_instances, write_uninstall_entry, Ace, Control,
    ControlOutcome, CopyStep, Poll, Process, RegValue, SetupStep, UpdateStep, DELETE,
    FILE_APPEND_DATA, FILE_WRITE_DATA, GENERIC_ALL, GENERIC_WRITE, INHERIT_ONLY, WRITE_DAC,
    WRITE_OWNER,
};
use hp_thermal::onboarding::Choices;

const FILES: &str = "C:\\Program Files";
const INSTALLED: &str = "C:\\Program Files\\HpThermal\\hp-thermal.exe";

fn allow(mask: u32, privileged: bool) -> Ace {
    Ace { readable: true, kind: 0, flags: 0, mask, privileged }
}

#[test]
fn image_write_restricted_detects_users_write() {
    // Full control for SYSTEM and the administrators only.
    let full = 0x001F_01FF;
    let mut aces = vec![allow(full, true), allow(full, true)];
    assert!(
        image_write_restricted(Some(&aces)),
        "SYSTEM+Administrators-only ACL must read as restricted"
    );

    // Modify for the users.
    aces.push(allow(0x0013_01BF, false));
    assert!(!image_write_restricted(Some(&aces)), "a Users:write ACE must be detected");
}

#[test]
fn every_right_to_write_is_detected() {
    for right in [
        FILE_WRITE_DATA,
        FILE_APPEND_DATA,
        DELETE,
        WRITE_DAC,
        WRITE_OWNER,
        GENERIC_WRITE,
        GENERIC_ALL,
    ] {
        assert!(!image_write_restricted(Some(&[allow(right, false)])), "{right:#x}");
        assert!(image_write_restricted(Some(&[allow(right, true)])), "{right:#x}");
    }
    // Reading and running is for everybody.
    assert!(image_write_restricted(Some(&[allow(0x0012_00A9, false)])));
}

#[test]
fn lists_that_say_nothing_are_not_restricted() {
    assert!(!image_write_restricted(None));
    let mut unreadable = allow(0, true);
    unreadable.readable = false;
    assert!(!image_write_restricted(Some(&[unreadable])));
    let mut inherited = allow(GENERIC_ALL, false);
    inherited.flags = INHERIT_ONLY;
    assert!(image_write_restricted(Some(&[inherited])));
    let mut denied = allow(GENERIC_ALL, false);
    denied.kind = 1;
    assert!(image_write_restricted(Some(&[denied])));
}

#[test]
fn an_abandoned_lock_is_taken() {
    assert!(acquire_setup_lock(Some(0)));
    assert!(acquire_setup_lock(Some(0x80)));
    assert!(!acquire_setup_lock(Some(0x102)));
    assert!(!acquire_setup_lock(None));
}

#[test]
fn service_states_are_told_apart() {
    assert!(is_service_installed(Some(1)) && !is_service_installed(None));
    assert!(is_service_running(Some(4)) && !is_service_running(Some(2)));
    assert!(is_service_down(Some(1)) && is_service_down(None) && !is_service_down(Some(3)));
}

#[test]
fn paths_are_compared_without_case() {
    assert!(is_installed_copy("c:\\program files\\hpthermal\\HP-Thermal.exe", FILES));
    assert!(!is_installed_copy("C:\\Temp\\hp-thermal.exe", FILES));
    assert!(running_from_install_dir(Some(INSTALLED), Some(INSTALLED)));
    assert!(!running_from_install_dir(None, Some(INSTALLED)));
    assert!(running_from_install_dir(
        Some("\\\\?\\c:\\x\\hp-thermal.exe"),
        Some("\\\\?\\C:\\x\\hp-thermal.exe")
    ));
    assert!(!running_from_install_dir(
        Some("\\\\?\\C:\\y\\hp-thermal.exe"),
        Some("\\\\?\\C:\\x\\hp-thermal.exe")
    ));
}

#[test]
fn a_silent_service_is_not_current() {
    assert!(is_service_current(INSTALLED, FILES, None, [1, 2]));
    assert!(is_service_current("C:\\x.exe", FILES, Some([1, 2]), [1, 2]));
    assert!(!is_service_current("C:\\x.exe", FILES, Some([1, 3]), [1, 2]));
    assert!(!is_service_current("C:\\x.exe", FILES, None, [1, 2]));
}

#[test]
fn versions_are_read_from_the_registry() {
    let buf: Vec<u16> = "0.3.1\0".encode_utf16().collect();
    assert_eq!(installed_version(true, 12, &buf), Some("0.3.1".to_string()));
    assert_eq!(installed_version(false, 12, &buf), None);
}

fn build() -> Build {
    Build {
        version: "0.3.1".to_string(),
        id: "140.abc".to_string(),
        date: "20260101_120000".to_string(),
    }
}

#[test]
fn the_uninstall_entry_points_at_the_program() {
    let values = write_uninstall_entry(FILES, &build(), "bgonz808", Some(2048));
    assert_eq!(values.len(), 9);
    let text = |name: &str| -> String {
        for (n, v) in &values {
            if *n == name {
                return match v {
                    RegValue::Text(t) => t.clone(),
                    RegValue::Number(n) => format!("{n}"),
                };
            }
        }
        panic!("no {name}")
    };
    assert_eq!(text("DisplayVersion"), "0.3.1");
    assert_eq!(text("UninstallString"), format!("\"{INSTALLED}\" uninstall"));
    assert_eq!(text("EstimatedSize"), "2");
    assert_eq!(text("NoModify"), "1");
}

#[test]
fn the_old_program_is_moved_before_the_copy() {
    assert_eq!(
        copy_exe_to_install_dir(CopyStep::CreateDirectory, true),
        CopyStep::CheckExisting
    );
    assert_eq!(copy_exe_to_install_dir(CopyStep::CheckExisting, true), CopyStep::RemoveStale);
    assert_eq!(copy_exe_to_install_dir(CopyStep::CheckExisting, false), CopyStep::CopyNew);
    assert_eq!(copy_exe_to_install_dir(CopyStep::RenameOld, false), CopyStep::Failed);
    assert_eq!(copy_exe_to_install_dir(CopyStep::CopyNew, true), CopyStep::RemoveOld);
}

#[test]
fn only_processes_of_the_installed_program_are_ended() {
    let p = |pid: u32, name: &str, path: Option<&str>| Process {
        pid,
        name: name.to_string(),
        path: path.map(|s| s.to_string()),
    };
    let ps = vec![
        p(1, "hp-thermal.exe", Some(INSTALLED)),
        p(2, "HP-THERMAL.EXE", Some("c:\\program files\\HpThermal\\hp-thermal.exe")),
        p(3, "hp-thermal.exe", Some("C:\\Temp\\hp-thermal.exe")),
        p(4, "hp-thermal.exe", None),
        p(5, "explorer.exe", Some(INSTALLED)),
    ];
    assert_eq!(wait_or_kill_other_instances(&ps, 1, INSTALLED), vec![1]);
    assert_eq!(wait_or_kill_other_instances(&ps, 9, INSTALLED), vec![0, 1]);
    assert!(still_there(0x102));
    assert!(!still_there(0));
}

#[test]
fn waiting_for_the_service_ends() {
    assert_eq!(wait_for_service_running(0, Some(2)), Poll::Again);
    assert_eq!(wait_for_service_running(19, Some(4)), Poll::Reached);
    assert_eq!(wait_for_service_running(20, Some(4)), Poll::GaveUp);
    assert_eq!(wait_for_service_stopped(39, None), Poll::Reached);
    assert_eq!(wait_for_service_stopped(40, None), Poll::GaveUp);
    assert_eq!(wait_for_service_stopped(0, Some(3)), Poll::Again);
}

#[test]
fn nothing_is_sent_for_nothing() {
    assert_eq!(native_start(Some(4)), Control::Nothing);
    assert_eq!(native_start(Some(1)), Control::Send);
    assert_eq!(native_stop(None), Control::Nothing);
    assert_eq!(native_stop(Some(4)), Control::Send);
}

#[test]
fn arguments_are_spelled_out() {
    let none = Choices { run_at_startup: false, start_menu: false, desktop: false };
    let some = Choices { run_at_startup: true, start_menu: false, desktop: true };
    assert_eq!(install_args(none), "--install-svc");
    assert_eq!(install_args(some), "--install-svc --startup --desktop");
    assert_eq!(create_args(FILES)[2], format!("binPath=\"{INSTALLED}\" --service"));
    assert_eq!(describe_args()[0], "description");
    assert_eq!(shortcut_path("C:\\Menu"), "C:\\Menu\\HP Thermal Control.lnk");
    assert_eq!(relocated_name(77), "hp-thermal-old-77.exe");
    assert!(relocates("C:\\PF\\HpThermal\\hp-thermal.exe", "C:\\PF\\HpThermal"));
    assert!(!relocates("C:\\Users\\me\\hp-thermal.exe", "C:\\PF\\HpThermal"));
    assert_eq!(locker_line(12, "x", -1), "PID 12: x (type=-1)");
}

#[test]
fn installs_do_what_was_chosen() {
    let c = Choices { run_at_startup: true, start_menu: false, desktop: false };
    let steps = install_service(c);
    assert_eq!(steps[0], SetupStep::CheckHardware);
    assert!(steps.contains(&SetupStep::SetRunKey));
    assert!(!steps.contains(&SetupStep::CreateDesktopShortcut));
    assert!(!update_service().contains(&SetupStep::SetRunKey));
    assert!(uninstall(false).is_none());
    assert!(uninstall(true).unwrap().contains(&SetupStep::DeleteService));
    assert!(!goes_on(SetupStep::CopyProgram, false));
    assert!(goes_on(SetupStep::SetRunKey, false));
}

#[test]
fn updates_note_their_steps() {
    let note = |step, failure| update_note(step, failure);
    assert_eq!(note(SetupStep::CloseTrays, None).unwrap(), "posted WM_CLOSE to tray windows");
    assert_eq!(note(SetupStep::StopService, Some("no")).unwrap(), "stop issued");
    assert_eq!(note(SetupStep::WaitStopped, Some("no")).unwrap(), "service stopped");
    assert_eq!(note(SetupStep::EndOtherInstances, None).unwrap(), "all other instances exited");
    assert_eq!(note(SetupStep::CopyProgram, None).unwrap(), "copy succeeded");
    assert_eq!(note(SetupStep::CopyProgram, Some("in use")).unwrap(), "COPY FAILED: in use");
    assert_eq!(note(SetupStep::EnsureDataDirectory, None), None);
    assert_eq!(
        note(SetupStep::EnsureDataDirectory, Some("no")).unwrap(),
        "data dir setup failed: no"
    );
    assert_eq!(
        note(SetupStep::SetServiceSid, Some("no")).unwrap(),
        "required privileges + service SID set"
    );
    assert_eq!(note(SetupStep::StartService, None).unwrap(), "service start requested");
    assert_eq!(note(SetupStep::StartService, Some("no")).unwrap(), "service start FAILED");
    assert_eq!(note(SetupStep::LogLockers, None), None);
    assert_eq!(installed_line(Some(b"a")), "installed exe-fnv=af63dc4c8601ec8c");
    assert_eq!(installed_line(None), "installed exe-fnv=");
}

#[test]
fn updates_do_not_start_an_elevated_tray() {
    assert_eq!(update(UpdateStep::CheckElevated, true), UpdateStep::UpdateHere);
    assert_eq!(update(UpdateStep::UpdateHere, true), UpdateStep::Done);
    assert_eq!(update(UpdateStep::CheckElevated, false), UpdateStep::RunElevated);
    assert!(ensure_tray(false, false));
    assert!(!ensure_tray(true, false));
    assert!(!ensure_tray(false, true));
}

#[test]
fn controls_that_fail_are_elevated() {
    assert_eq!(stop(true), ControlOutcome::Say("Service stopped."));
    assert_eq!(stop(false), ControlOutcome::Elevate("--stop-svc"));
    assert_eq!(start(true), ControlOutcome::Say("Service started."));
    assert_eq!(start(false), ControlOutcome::Elevate("--start-svc"));
    assert_eq!(stop_service(false), "Service stop failed.");
    assert_eq!(start_service(true), "Service started.");
    assert!(is_elevated(true, true, 1));
    assert!(!is_elevated(true, true, 0));
    assert!(!is_elevated(false, true, 1));
}

#[test]
fn names_are_listed_with_zeros() {
    assert_eq!(multi_sz(&["a", "bc"]), vec![97, 0, 98, 99, 0, 0]);
    assert_eq!(multi_sz(&[]), vec![0]);
}

#[test]
fn the_system_directory_is_never_guessed() {
    let mut buf: Vec<u16> = "C:\\Windows\\System32".encode_utf16().collect();
    let len = buf.len();
    buf.push(0);
    assert_eq!(
        system32_path(&buf, len, "sc.exe"),
        Some("C:\\Windows\\System32\\sc.exe".to_string())
    );
    assert_eq!(system32_path(&buf, 0, "sc.exe"), None);
    assert_eq!(system32_path(&buf, len + 1, "sc.exe"), None);
}
