//! What each role of the program locks down.

use vstd::prelude::*;

verus! {

/// A lock on the process, or a setting that makes it harder to misuse.
#[derive(Clone, Copy, PartialEq, Eq, Structural, Debug)]
pub enum Lock {
    /// A crash ends the process without a report that leaves the machine.
    SuppressWer,
    /// Libraries are searched in the system directory only.
    RestrictDllSearch,
    /// No images from remote paths or with a low label; system images first.
    RestrictImageLoads,
    /// No legacy extension points.
    DisableExtensionPoints,
    /// Only images that Microsoft signed.
    MsSignedOnly,
    /// No child processes.
    NoChildProcess,
    /// No system calls of the graphical subsystem.
    NoWin32k,
    /// No code made at run time.
    NoDynamicCode,
}

/// Only images that Microsoft signed.
pub const MICROSOFT_SIGNED_ONLY: u32 = 0x1;
/// No remote images, no images with a low label, system images first.
pub const IMAGE_LOAD_HARDENING: u32 = 0b111;
pub const NO_CHILD_PROCESS: u32 = 0x1;
pub const DISALLOW_WIN32K: u32 = 0x1;
pub const PROHIBIT_DYNAMIC_CODE: u32 = 0x1;
pub const DISABLE_EXTENSION_POINTS: u32 = 0x1;

/// The flags of the process policy behind a lock; none where there is no policy.
pub open spec fn policy_flags_of(lock: Lock) -> Option<u32> {
    match lock {
        Lock::SuppressWer => None,
        Lock::RestrictDllSearch => None,
        Lock::RestrictImageLoads => Some(IMAGE_LOAD_HARDENING),
        Lock::DisableExtensionPoints => Some(DISABLE_EXTENSION_POINTS),
        Lock::MsSignedOnly => Some(MICROSOFT_SIGNED_ONLY),
        Lock::NoChildProcess => Some(NO_CHILD_PROCESS),
        Lock::NoWin32k => Some(DISALLOW_WIN32K),
        Lock::NoDynamicCode => Some(PROHIBIT_DYNAMIC_CODE),
    }
}

/// The flags of the process policy behind a lock.
pub fn policy_flags(lock: Lock) -> (f: Option<u32>)
    ensures
        f == policy_flags_of(lock),
{
    match lock {
        Lock::SuppressWer | Lock::RestrictDllSearch => None,
        Lock::RestrictImageLoads => Some(IMAGE_LOAD_HARDENING),
        Lock::DisableExtensionPoints => Some(DISABLE_EXTENSION_POINTS),
        Lock::MsSignedOnly => Some(MICROSOFT_SIGNED_ONLY),
        Lock::NoChildProcess => Some(NO_CHILD_PROCESS),
        Lock::NoWin32k => Some(DISALLOW_WIN32K),
        Lock::NoDynamicCode => Some(PROHIBIT_DYNAMIC_CODE),
    }
}

/// The locks that every role takes, in the order in which they are set.
pub open spec fn baseline() -> Seq<Lock> {
    seq![
        Lock::SuppressWer,
        Lock::RestrictDllSearch,
        Lock::RestrictImageLoads,
        Lock::DisableExtensionPoints,
    ]
}

/// The locks that every role takes. Each is set if the system can; one that it
/// cannot set is passed over.
pub fn apply() -> (locks: Vec<Lock>)
    ensures
        locks@ == baseline(),
{
    let mut locks: Vec<Lock> = Vec::new();
    locks.push(Lock::SuppressWer);
    locks.push(Lock::RestrictDllSearch);
    locks.push(Lock::RestrictImageLoads);
    locks.push(Lock::DisableExtensionPoints);
    assert(locks@ =~= baseline());
    locks
}

/// The roles of the program.
#[derive(Clone, Copy, PartialEq, Eq, Structural, Debug)]
pub enum Role {
    /// The service, without a user interface.
    Service,
    /// The tray, in the session of the user.
    Tray,
    /// The elevated process that installs or updates the service.
    ElevatedSetup,
    /// Processes that start the elevated one or show dialogs of the setup.
    Launcher,
    /// Processes that only print text.
    TextOnly,
}

/// Which of the strong locks a role takes.
#[derive(Clone, Copy, PartialEq, Eq, Structural, Debug)]
pub struct Profile {
    /// Only images that Microsoft signed.
    pub ms_signed_only: bool,
    /// No child processes.
    pub no_child: bool,
    /// No system calls of the graphical subsystem.
    pub no_win32k: bool,
    /// No code made at run time.
    pub no_dynamic_code: bool,
}

impl Profile {
    /// Every lock: where each role starts from.
    pub fn max() -> (p: Profile)
        ensures
            p == (Profile {
                ms_signed_only: true,
                no_child: true,
                no_win32k: true,
                no_dynamic_code: true,
            }),
    {
        Profile { ms_signed_only: true, no_child: true, no_win32k: true, no_dynamic_code: true }
    }

    /// Images signed by others may be loaded, for the reason given.
    pub fn allow_unsigned_dlls(self, _why: &'static str) -> (p: Profile)
        ensures
            p == (Profile { ms_signed_only: false, ..self }),
    {
        Profile { ms_signed_only: false, ..self }
    }

    /// Child processes may be started, for the reason given.
    pub fn allow_child_processes(self, _why: &'static str) -> (p: Profile)
        ensures
            p == (Profile { no_child: false, ..self }),
    {
        Profile { no_child: false, ..self }
    }

    /// The graphical subsystem may be called, for the reason given.
    pub fn allow_win32k(self, _why: &'static str) -> (p: Profile)
        ensures
            p == (Profile { no_win32k: false, ..self }),
    {
        Profile { no_win32k: false, ..self }
    }

    /// Code may be made at run time, for the reason given.
    pub fn allow_dynamic_code(self, _why: &'static str) -> (p: Profile)
        ensures
            p == (Profile { no_dynamic_code: false, ..self }),
    {
        Profile { no_dynamic_code: false, ..self }
    }
}

/// The locks of each role: the service takes all of them.
pub open spec fn profile_of(role: Role) -> Profile {
    match role {
        Role::Service => Profile {
            ms_signed_only: true,
            no_child: true,
            no_win32k: true,
            no_dynamic_code: true,
        },
        Role::Tray => Profile {
            ms_signed_only: false,
            no_child: true,
            no_win32k: false,
            no_dynamic_code: false,
        },
        Role::ElevatedSetup => Profile {
            ms_signed_only: true,
            no_child: false,
            no_win32k: false,
            no_dynamic_code: false,
        },
        Role::Launcher => Profile {
            ms_signed_only: false,
            no_child: false,
            no_win32k: false,
            no_dynamic_code: false,
        },
        Role::TextOnly => Profile {
            ms_signed_only: false,
            no_child: true,
            no_win32k: true,
            no_dynamic_code: true,
        },
    }
}

/// The locks of a role. A role starts from all of them, and each that it does
/// without has its reason here.
pub fn profile_for(role: Role) -> (p: Profile)
    ensures
        p == profile_of(role),
{
    match role {
        Role::Service => Profile::max(),
        Role::Tray => Profile::max().allow_unsigned_dlls(
            "nvml is NVIDIA-signed; IME/a11y/EDR inject into GUI procs",
        ).allow_win32k("interactive GUI needs win32k").allow_dynamic_code(
            "nvml + GUI components may generate code",
        ),
        Role::ElevatedSetup => Profile::max().allow_child_processes(
            "runs sc / service-control helpers",
        ).allow_win32k("COM/shell shortcut creation touches win32k").allow_dynamic_code(
            "elevated setup path not yet ACG-validated",
        ),
        Role::Launcher => Profile::max().allow_unsigned_dlls(
            "ShellExecute may load non-MS shell extensions",
        ).allow_child_processes("spawns the elevated UAC helper").allow_win32k(
            "shows onboarding / error dialogs",
        ).allow_dynamic_code("shell/COM path not yet ACG-validated"),
        Role::TextOnly => Profile::max().allow_unsigned_dlls(
            "interactive EDR/IME injection compat",
        ),
    }
}

/// `lock` where it is taken, else nothing.
pub open spec fn taken(lock: Lock, on: bool) -> Seq<Lock> {
    if on {
        seq![lock]
    } else {
        Seq::empty()
    }
}

/// The locks that are set when a role starts. The tray may still have to start the
/// elevated process at that point, so its lock on child processes is set later.
pub open spec fn locks_at_start(role: Role) -> Seq<Lock> {
    let p = profile_of(role);
    baseline() + taken(Lock::MsSignedOnly, p.ms_signed_only) + taken(
        Lock::NoChildProcess,
        p.no_child && !(role is Tray),
    ) + taken(Lock::NoWin32k, p.no_win32k) + taken(Lock::NoDynamicCode, p.no_dynamic_code)
}

/// The locks that are set when a role starts, in their order.
pub fn harden_for_role(role: Role) -> (locks: Vec<Lock>)
    ensures
        locks@ == locks_at_start(role),
{
    let mut locks = apply();
    let p = profile_for(role);
    if p.ms_signed_only {
        locks.push(Lock::MsSignedOnly);
    }
    if p.no_child && !matches!(role, Role::Tray) {
        locks.push(Lock::NoChildProcess);
    }
    if p.no_win32k {
        locks.push(Lock::NoWin32k);
    }
    if p.no_dynamic_code {
        locks.push(Lock::NoDynamicCode);
    }
    assert(locks@ =~= locks_at_start(role));
    locks
}

/// The locks that the tray sets once it will start no process any more.
pub fn tray_late_locks() -> (locks: Vec<Lock>)
    ensures
        locks@ == taken(Lock::NoChildProcess, profile_of(Role::Tray).no_child),
{
    let mut locks: Vec<Lock> = Vec::new();
    if profile_for(Role::Tray).no_child {
        locks.push(Lock::NoChildProcess);
    }
    assert(locks@ =~= taken(Lock::NoChildProcess, profile_of(Role::Tray).no_child));
    locks
}

/// Every role takes the baseline, and first; only the service takes every lock at
/// its start; the tray can still start the elevated process then.
pub proof fn roles_are_hardened(role: Role)
    ensures
        locks_at_start(role).take(4) == baseline(),
        locks_at_start(role).len() == 8 <==> role is Service,
        role is Service ==> locks_at_start(role) == baseline() + seq![
            Lock::MsSignedOnly,
            Lock::NoChildProcess,
            Lock::NoWin32k,
            Lock::NoDynamicCode,
        ],
        !locks_at_start(Role::Tray).contains(Lock::NoChildProcess),
{
    assert(locks_at_start(role).take(4) =~= baseline());
    assert(role is Service ==> locks_at_start(role) =~= baseline() + seq![
        Lock::MsSignedOnly,
        Lock::NoChildProcess,
        Lock::NoWin32k,
        Lock::NoDynamicCode,
    ]);
    assert(locks_at_start(Role::Tray) =~= baseline());
}

/// The privileges that the service keeps: traversal, and the two that the path to
/// the firmware needs.
pub const SERVICE_KEEP_PRIVILEGES: [&'static str; 3] = [
    "SeChangeNotifyPrivilege",
    "SeCreateGlobalPrivilege",
    "SeImpersonatePrivilege",
];

/// The privileges that the tray keeps: traversal, and what puts the machine to
/// sleep.
pub const TRAY_KEEP_PRIVILEGES: [&'static str; 2] = [
    "SeChangeNotifyPrivilege",
    "SeShutdownPrivilege",
];

/// A privilege, as the system numbers it.
#[derive(Clone, Copy, PartialEq, Eq, Structural, Debug)]
pub struct Luid {
    pub low: u32,
    pub high: i32,
}

/// Those privileges that are not to be kept, in their order.
pub open spec fn beyond(present: Seq<Luid>, keep: Seq<Luid>) -> Seq<Luid>
    decreases present.len(),
{
    if present.len() == 0 {
        Seq::empty()
    } else {
        let before = beyond(present.drop_last(), keep);
        if keep.contains(present.last()) {
            before
        } else {
            before.push(present.last())
        }
    }
}

fn is_kept(keep: &[Luid], l: Luid) -> (r: bool)
    ensures
        r == keep@.contains(l),
{
    let mut i: usize = 0;
    while i < keep.len()
        invariant
            i <= keep@.len(),
            forall|k: int| 0 <= k < i ==> keep@[k] != l,
        decreases keep@.len() - i,
    {
        if keep[i].low == l.low && keep[i].high == l.high {
            assert(keep@[i as int] == l);
            return true;
        }
        i = i + 1;
    }
    false
}

/// The privileges of a token that are to be removed.
pub fn privileges_to_remove(present: &[Luid], keep: &[Luid]) -> (out: Vec<Luid>)
    ensures
        out@ == beyond(present@, keep@),
{
    let mut out: Vec<Luid> = Vec::new();
    let mut i: usize = 0;
    while i < present.len()
        invariant
            i <= present@.len(),
            out@ == beyond(present@.take(i as int), keep@),
        decreases present@.len() - i,
    {
        proof {
            assert(present@.take(i + 1).drop_last() =~= present@.take(i as int));
        }
        if !is_kept(keep, present[i]) {
            out.push(present[i]);
        }
        i = i + 1;
    }
    assert(present@.take(i as int) =~= present@);
    out
}

/// How many of the results are successes.
pub open spec fn successes(results: Seq<bool>) -> int
    decreases results.len(),
{
    if results.len() == 0 {
        0
    } else {
        successes(results.drop_last()) + if results.last() {
            1int
        } else {
            0
        }
    }
}

proof fn successes_at_most(results: Seq<bool>)
    ensures
        0 <= successes(results) <= results.len(),
    decreases results.len(),
{
    if results.len() > 0 {
        successes_at_most(results.drop_last());
    }
}

proof fn beyond_at_most(present: Seq<Luid>, keep: Seq<Luid>)
    ensures
        beyond(present, keep).len() <= present.len(),
    decreases present.len(),
{
    if present.len() > 0 {
        beyond_at_most(present.drop_last(), keep);
    }
}

/// What the reduction of a token came to: how many privileges were removed, and how
/// many beyond the kept ones are still there by a second count. `results` says of
/// each removal whether it succeeded, and `left` is what the token holds after it.
/// Both are zero where the token could not be opened.
pub open spec fn stripped(
    opened: bool,
    results: Seq<bool>,
    left: Seq<Luid>,
    keep: Seq<Luid>,
) -> (int, int) {
    if opened {
        (successes(results), beyond(left, keep).len() as int)
    } else {
        (0, 0)
    }
}

/// What the reduction of a token came to: how many privileges were removed, and how
/// many beyond the kept ones are still there.
pub fn strip_token_privileges_except(
    opened: bool,
    results: &[bool],
    left: &[Luid],
    keep: &[Luid],
) -> (r: (u32, u32))
    requires
        results@.len() <= u32::MAX,
        left@.len() <= u32::MAX,
    ensures
        (r.0 as int, r.1 as int) == stripped(opened, results@, left@, keep@),
{
    if !opened {
        return (0, 0);
    }
    let mut removed: u32 = 0;
    let mut i: usize = 0;
    while i < results.len()
        invariant
            i <= results@.len() <= u32::MAX,
            removed == successes(results@.take(i as int)),
        decreases results@.len() - i,
    {
        proof {
            assert(results@.take(i + 1).drop_last() =~= results@.take(i as int));
            successes_at_most(results@.take(i as int));
        }
        if results[i] {
            removed = removed + 1;
        }
        i = i + 1;
    }
    assert(results@.take(i as int) =~= results@);
    proof {
        beyond_at_most(left@, keep@);
    }
    let extras = privileges_to_remove(left, keep);
    (removed, extras.len() as u32)
}

/// Nothing is left beyond the kept privileges exactly when every privilege that is
/// left is a kept one.
pub proof fn nothing_beyond_means_all_kept(left: Seq<Luid>, keep: Seq<Luid>)
    ensures
        beyond(left, keep).len() == 0 <==> forall|i: int|
            0 <= i < left.len() ==> keep.contains(#[trigger] left[i]),
    decreases left.len(),
{
    if left.len() > 0 {
        let before = left.drop_last();
        nothing_beyond_means_all_kept(before, keep);
        assert(forall|i: int| 0 <= i < before.len() ==> before[i] == left[i]);
        if beyond(left, keep).len() == 0 {
            assert forall|i: int| 0 <= i < left.len() implies keep.contains(
                #[trigger] left[i],
            ) by {
                if i < before.len() {
                    assert(keep.contains(before[i]));
                }
            }
        }
        if forall|i: int| 0 <= i < left.len() ==> keep.contains(#[trigger] left[i]) {
            assert forall|i: int| 0 <= i < before.len() implies keep.contains(
                #[trigger] before[i],
            ) by {
                assert(keep.contains(left[i]));
            }
            assert(keep.contains(left[left.len() - 1]));
        }
    }
}

/// Images that others signed are refused by the service and by the elevated process;
/// child processes by all but those that have to start one; the graphical subsystem and
/// code made at run time by those that show nothing.
pub proof fn roles_take_their_locks(role: Role)
    ensures
        ({
            let locks = locks_at_start(role);
            &&& locks.contains(Lock::MsSignedOnly) <==> role is Service || role is ElevatedSetup
            &&& locks.contains(Lock::NoChildProcess) <==> role is Service || role is TextOnly
            &&& locks.contains(Lock::NoWin32k) <==> role is Service || role is TextOnly
            &&& locks.contains(Lock::NoDynamicCode) <==> role is Service || role is TextOnly
            &&& locks.contains(Lock::SuppressWer)
            &&& locks.contains(Lock::RestrictDllSearch)
            &&& locks.contains(Lock::RestrictImageLoads)
            &&& locks.contains(Lock::DisableExtensionPoints)
        }),
{
    let locks = locks_at_start(role);
    assert(locks[0] == Lock::SuppressWer);
    assert(locks[1] == Lock::RestrictDllSearch);
    assert(locks[2] == Lock::RestrictImageLoads);
    assert(locks[3] == Lock::DisableExtensionPoints);
    match role {
        Role::Service => {
            assert(locks[4] == Lock::MsSignedOnly);
            assert(locks[5] == Lock::NoChildProcess);
            assert(locks[6] == Lock::NoWin32k);
            assert(locks[7] == Lock::NoDynamicCode);
        },
        Role::ElevatedSetup => {
            assert(locks[4] == Lock::MsSignedOnly);
        },
        Role::TextOnly => {
            assert(locks[4] == Lock::NoChildProcess);
            assert(locks[5] == Lock::NoWin32k);
            assert(locks[6] == Lock::NoDynamicCode);
        },
        _ => {},
    }
}

/// The tray gives up child processes after all, only later; the role that starts the
/// elevated process never does.
pub proof fn the_tray_gives_up_children_later(role: Role)
    ensures
        taken(Lock::NoChildProcess, profile_of(Role::Tray).no_child) == seq![Lock::NoChildProcess],
        profile_of(role).no_child <==> !(role is Launcher) && !(role is ElevatedSetup),
        role is Launcher ==> locks_at_start(role).len() == 4,
{
}

/// Every lock on images, children, the graphical subsystem, code and extension points is
/// a policy of the process. The one on image loads sets three bits, the others one.
pub proof fn policies_set_their_bits(lock: Lock)
    ensures
        policy_flags_of(lock) is None <==> lock is SuppressWer || lock is RestrictDllSearch,
        policy_flags_of(lock) is Some ==> policy_flags_of(lock) == Some(
            if lock is RestrictImageLoads {
                7u32
            } else {
                1u32
            },
        ),
{
    assert(0b111u32 == 7) by (bit_vector);
}

/// A privilege is removed exactly where the token holds it and it is not to be kept.
pub proof fn all_but_the_kept_are_removed(present: Seq<Luid>, keep: Seq<Luid>, l: Luid)
    ensures
        beyond(present, keep).contains(l) <==> present.contains(l) && !keep.contains(l),
    decreases present.len(),
{
    if present.len() > 0 {
        let before = present.drop_last();
        let last = present.last();
        all_but_the_kept_are_removed(before, keep, l);
        assert(present =~= before.push(last));
        if present.contains(l) {
            let i = choose|i: int| 0 <= i < present.len() && present[i] == l;
            if i < before.len() {
                assert(before[i] == l);
            }
        }
        if before.contains(l) {
            let i = choose|i: int| 0 <= i < before.len() && before[i] == l;
            assert(present[i] == l);
        }
        if l == last {
            assert(present[present.len() - 1] == l);
        }
        let kept = beyond(before, keep);
        if !keep.contains(last) {
            let after = kept.push(last);
            if after.contains(l) {
                let i = choose|i: int| 0 <= i < after.len() && after[i] == l;
                if i < kept.len() {
                    assert(kept[i] == l);
                }
            }
            if kept.contains(l) {
                let i = choose|i: int| 0 <= i < kept.len() && kept[i] == l;
                assert(after[i] == l);
            }
            assert(after[kept.len() as int] == last);
        }
    }
}

/// Every removal either counts or failed, and what a token still holds beyond the kept
/// privileges is told; a token that could not be opened tells nothing.
pub proof fn reductions_are_told(
    opened: bool,
    results: Seq<bool>,
    left: Seq<Luid>,
    keep: Seq<Luid>,
)
    ensures
        ({
            let r = stripped(opened, results, left, keep);
            let failed = successes(Seq::new(results.len(), |i: int| !results[i]));
            &&& !opened ==> r == (0int, 0int)
            &&& opened ==> r.0 + failed == results.len()
            &&& opened && (forall|i: int| 0 <= i < results.len() ==> #[trigger] results[i])
                ==> r.0 == results.len()
            &&& opened ==> (r.1 == 0 <==> forall|i: int|
                0 <= i < left.len() ==> keep.contains(#[trigger] left[i]))
        }),
    decreases results.len(),
{
    nothing_beyond_means_all_kept(left, keep);
    let failures = Seq::new(results.len(), |i: int| !results[i]);
    if results.len() > 0 {
        let before = results.drop_last();
        reductions_are_told(opened, before, left, keep);
        assert(failures.drop_last() =~= Seq::new(before.len(), |i: int| !before[i]));
        assert(results[results.len() - 1] == results.last());
        if forall|i: int| 0 <= i < results.len() ==> #[trigger] results[i] {
            assert forall|i: int| 0 <= i < before.len() implies #[trigger] before[i] by {
                assert(results[i]);
            }
        }
    }
}

} // verus!
