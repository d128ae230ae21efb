use hp_thermal::win_harden::{
    apply, harden_for_role, policy_flags, privileges_to_remove, profile_for,
    strip_token_privileges_except, tray_late_locks, Lock, Luid, Profile, Role,
    SERVICE_KEEP_PRIVILEGES, TRAY_KEEP_PRIVILEGES,
};

#[test]
fn service_keep_set_is_exactly_minimal() {
    assert_eq!(
        SERVICE_KEEP_PRIVILEGES,
        ["SeChangeNotifyPrivilege", "SeCreateGlobalPrivilege", "SeImpersonatePrivilege"]
    );
}

#[test]
fn tray_keep_set_is_exactly_change_notify_and_shutdown() {
    assert_eq!(TRAY_KEEP_PRIVILEGES, ["SeChangeNotifyPrivilege", "SeShutdownPrivilege"]);
}

#[test]
fn every_role_takes_the_baseline() {
    assert_eq!(
        apply(),
        vec![
            Lock::SuppressWer,
            Lock::RestrictDllSearch,
            Lock::RestrictImageLoads,
            Lock::DisableExtensionPoints,
        ]
    );
}

#[test]
fn the_service_takes_every_lock() {
    let locks = harden_for_role(Role::Service);
    for lock in [Lock::MsSignedOnly, Lock::NoChildProcess, Lock::NoWin32k, Lock::NoDynamicCode] {
        assert!(locks.contains(&lock), "{lock:?}");
    }
}

#[test]
fn the_tray_may_load_the_graphics_library() {
    assert!(!harden_for_role(Role::Tray).contains(&Lock::MsSignedOnly));
    assert!(!profile_for(Role::Tray).ms_signed_only);
    assert!(!tray_late_locks().contains(&Lock::NoWin32k));
}

#[test]
fn exceptions_lift_one_lock_each() {
    let p = Profile::max().allow_win32k("it has windows");
    assert!(!p.no_win32k);
    assert!(p.ms_signed_only && p.no_child && p.no_dynamic_code);
}

#[test]
fn policies_have_their_bits() {
    assert_eq!(policy_flags(Lock::RestrictImageLoads), Some(7));
    assert_eq!(policy_flags(Lock::MsSignedOnly), Some(1));
    assert_eq!(policy_flags(Lock::SuppressWer), None);
}

#[test]
fn what_is_not_kept_is_removed() {
    let a = Luid { low: 1, high: 0 };
    let b = Luid { low: 2, high: 0 };
    let c = Luid { low: 2, high: 1 };
    assert_eq!(privileges_to_remove(&[a, b, c], &[b]), vec![a, c]);
    assert_eq!(strip_token_privileges_except(true, &[true, false], &[b, c], &[b]), (1, 1));
    assert_eq!(strip_token_privileges_except(true, &[true, true], &[b], &[b]), (2, 0));
}
