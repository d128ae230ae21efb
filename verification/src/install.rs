//! Installing, updating and removing the service, and who may touch its image.

use vstd::prelude::*;
use vstd::string::*;

use crate::app::{
    file_digest, install_dir, installed_exe, Build, EXE_NAME, NAME, SERVICE_DESC, SERVICE_NAME,
};
use crate::onboarding::Choices;
use crate::path::{same_components, within};
use crate::text::{
    chars_of, eq_ignore_ascii_case, push_decimal, same_ignoring_ascii_case, text_of, trim,
};
use crate::wide::{from_utf16_lossy, wide_null};

verus! {

/// A wait that took the lock, and one that took it over from a process that died.
pub const WAIT_OBJECT_0: u32 = 0;
pub const WAIT_ABANDONED: u32 = 0x80;

/// Whether the wait for the lock ended with it.
pub open spec fn lock_taken(waited: Option<u32>) -> bool {
    waited == Some(WAIT_OBJECT_0) || waited == Some(WAIT_ABANDONED)
}

/// Whether the lock of the setup was taken: the lock could be made, and the wait
/// for it ended with it.
pub fn acquire_setup_lock(waited: Option<u32>) -> (r: bool)
    ensures
        r == lock_taken(waited),
{
    match waited {
        Some(w) => w == WAIT_OBJECT_0 || w == WAIT_ABANDONED,
        None => false,
    }
}

pub const SETUP_BUSY_TEXT: &'static str =
    "Another HP Thermal setup or update is already in progress.\n\nPlease wait for it to finish, then try again.";

/// States of a service.
pub const SERVICE_STOPPED: u32 = 1;
pub const SERVICE_RUNNING: u32 = 4;

/// Whether the service runs.
pub open spec fn is_up(state: Option<u32>) -> bool {
    state == Some(SERVICE_RUNNING)
}

/// Whether the service is installed: its state can be read.
pub fn is_service_installed(state: Option<u32>) -> (r: bool)
    ensures
        r == (state is Some),
{
    state.is_some()
}

/// Whether the service runs.
pub fn is_service_running(state: Option<u32>) -> (r: bool)
    ensures
        r == is_up(state),
{
    match state {
        Some(s) => s == SERVICE_RUNNING,
        None => false,
    }
}

/// Whether the service is stopped, or not there at all.
pub open spec fn is_down(state: Option<u32>) -> bool {
    state is None || state == Some(SERVICE_STOPPED)
}

/// Whether the service is stopped, or not there at all. A service that is about to
/// stop may still hold its files.
pub fn is_service_down(state: Option<u32>) -> (r: bool)
    ensures
        r == is_down(state),
{
    match state {
        Some(s) => s == SERVICE_STOPPED,
        None => true,
    }
}

/// Whether two paths are the same but for the case of ASCII letters.
pub fn same_path(a: &str, b: &str) -> (r: bool)
    ensures
        r == same_ignoring_ascii_case(a@, b@),
{
    let a_chars = chars_of(a);
    let b_chars = chars_of(b);
    eq_ignore_ascii_case(a_chars.as_slice(), b_chars.as_slice())
}

/// Whether the program runs from where it is installed.
pub fn is_installed_copy(exe: &str, program_files: &str) -> (r: bool)
    ensures
        r == same_ignoring_ascii_case(exe@, crate::app::installed_exe_path(program_files@)),
{
    let installed = installed_exe(program_files);
    same_path(exe, installed.as_str())
}

/// Whether the service that runs is of this build.
pub open spec fn service_is_current(
    exe: Seq<char>,
    program_files: Seq<char>,
    answer: Option<[u8; 2]>,
    own: [u8; 2],
) -> bool {
    same_ignoring_ascii_case(exe, crate::app::installed_exe_path(program_files)) || (answer is Some
        && answer->0[0] == own[0] && answer->0[1] == own[1])
}

/// Whether the service that runs is of this build: this is the installed program,
/// or the service answers with this build's fingerprint. A service that does not
/// answer is not, whatever lies on the disk.
pub fn is_service_current(
    exe: &str,
    program_files: &str,
    answer: Option<[u8; 2]>,
    own: [u8; 2],
) -> (r: bool)
    ensures
        r == service_is_current(exe@, program_files@, answer, own),
{
    if is_installed_copy(exe, program_files) {
        return true;
    }
    match answer {
        Some(a) => a[0] == own[0] && a[1] == own[1],
        None => false,
    }
}

/// Whether the service runs from where it is installed, given both paths as the
/// system resolves them; it does not where one cannot be resolved.
pub open spec fn runs_as_installed(exe: Option<Seq<char>>, installed: Option<Seq<char>>) -> bool {
    exe is Some && installed is Some && crate::path::is_same_path(exe->0, installed->0)
}

/// Whether the service runs from where it is installed.
pub fn running_from_install_dir(exe: Option<&str>, installed: Option<&str>) -> (r: bool)
    ensures
        r == runs_as_installed(
            match exe {
                Some(e) => Some(e@),
                None => None,
            },
            match installed {
                Some(i) => Some(i@),
                None => None,
            },
        ),
{
    match (exe, installed) {
        (Some(a), Some(b)) => {
            let a_chars = chars_of(a);
            let b_chars = chars_of(b);
            same_components(a_chars.as_slice(), b_chars.as_slice())
        },
        _ => false,
    }
}

/// Rights that let their holder change a file, or let itself do so.
pub const FILE_WRITE_DATA: u32 = 0x0002;
pub const FILE_APPEND_DATA: u32 = 0x0004;
pub const DELETE: u32 = 0x0001_0000;
pub const WRITE_DAC: u32 = 0x0004_0000;
pub const WRITE_OWNER: u32 = 0x0008_0000;
pub const GENERIC_WRITE: u32 = 0x4000_0000;
pub const GENERIC_ALL: u32 = 0x1000_0000;
/// All of them.
pub const WRITE_MASK: u32 = 0x500D_0006;

/// An entry that allows something.
pub const ACCESS_ALLOWED: u8 = 0;
/// An entry that only the files below a directory take over.
pub const INHERIT_ONLY: u8 = 0x08;

/// An entry of an access control list, as far as it could be read.
#[derive(Clone, Copy, PartialEq, Eq, Structural, Debug)]
pub struct Ace {
    pub readable: bool,
    pub kind: u8,
    pub flags: u8,
    pub mask: u32,
    /// It is about SYSTEM or the administrators.
    pub privileged: bool,
}

/// Whether an entry lets whom it is about change the file.
pub open spec fn grants_write(a: Ace) -> bool {
    a.kind == ACCESS_ALLOWED && a.flags & INHERIT_ONLY == 0 && a.mask & WRITE_MASK != 0
}

/// Whether only SYSTEM and the administrators can change the file. A list that
/// cannot be read in whole, or is not there, says nothing of the kind.
pub open spec fn is_restricted(aces: Option<Seq<Ace>>) -> bool {
    aces is Some && forall|i: int|
        0 <= i < aces->0.len() ==> (#[trigger] aces->0[i]).readable && (grants_write(aces->0[i])
            ==> aces->0[i].privileged)
}

/// Whether only SYSTEM and the administrators can change the image of the service.
/// `None` stands for a list that could not be read, and for no list at all, which
/// lets everybody do everything.
pub fn image_write_restricted(aces: Option<&[Ace]>) -> (r: bool)
    ensures
        r == is_restricted(
            match aces {
                Some(a) => Some(a@),
                None => None,
            },
        ),
{
    match aces {
        Some(list) => {
            let ghost whole: Option<Seq<Ace>> = Some(list@);
            let mut i: usize = 0;
            while i < list.len()
                invariant
                    i <= list@.len(),
                    whole == Some(list@),
                    aces == Some(list),
                    forall|k: int|
                        0 <= k < i ==> (#[trigger] list@[k]).readable && (grants_write(list@[k])
                            ==> list@[k].privileged),
                decreases list@.len() - i,
            {
                let a = list[i];
                let writes: bool = a.kind == ACCESS_ALLOWED && a.flags & INHERIT_ONLY == 0 && a.mask
                    & WRITE_MASK != 0;
                if !a.readable || (writes && !a.privileged) {
                    assert(!(whole->0[i as int].readable && (grants_write(whole->0[i as int])
                        ==> whole->0[i as int].privileged)));
                    return false;
                }
                i = i + 1;
            }
            true
        },
        None => false,
    }
}

/// Any single right to change the file is enough to count.
pub proof fn every_write_right_counts(a: Ace, right: u32)
    requires
        a.kind == ACCESS_ALLOWED,
        a.flags & INHERIT_ONLY == 0,
        a.mask & right != 0,
        right == FILE_WRITE_DATA || right == FILE_APPEND_DATA || right == DELETE || right
            == WRITE_DAC || right == WRITE_OWNER || right == GENERIC_WRITE || right == GENERIC_ALL,
    ensures
        grants_write(a),
{
    let m = a.mask;
    assert(m & 0x500D_0006u32 != 0) by (bit_vector)
        requires
            m & right != 0,
            right == 0x0002u32 || right == 0x0004u32 || right == 0x0001_0000u32 || right
                == 0x0004_0000u32 || right == 0x0008_0000u32 || right == 0x4000_0000u32 || right
                == 0x1000_0000u32,
    ;
}

/// One entry that lets anybody else change the file, wherever it stands, is found.
pub proof fn loosened_lists_are_found(aces: Seq<Ace>, i: int)
    requires
        0 <= i < aces.len(),
        grants_write(aces[i]),
        !aces[i].privileged,
    ensures
        !is_restricted(Some(aces)),
{
    let whole: Option<Seq<Ace>> = Some(aces);
    assert(!(whole->0[i].readable && (grants_write(whole->0[i]) ==> whole->0[i].privileged)));
}

/// `s` without the zeros at its end.
pub open spec fn without_zeros(s: Seq<char>) -> Seq<char>
    decreases s.len(),
{
    if s.len() > 0 && s.last() == '\0' {
        without_zeros(s.drop_last())
    } else {
        s
    }
}

/// The version in a registry value.
pub open spec fn version_of(units: Seq<u16>) -> Seq<char> {
    crate::text::trimmed(without_zeros(crate::wide::decoded(units)))
}

/// The version of the installed program, from what the query of the registry
/// brought: none where it failed or brought nothing but zeros and white space.
pub open spec fn version_read(ok: bool, size: u32, buf: Seq<u16>) -> Option<Seq<char>> {
    let n = if size / 2 <= buf.len() {
        (size / 2) as int
    } else {
        buf.len() as int
    };
    let version = version_of(buf.take(n));
    if ok && version.len() > 0 {
        Some(version)
    } else {
        None
    }
}

/// The version of the installed program, from what the query of the registry brought.
pub fn installed_version(ok: bool, size: u32, buf: &[u16]) -> (r: Option<String>)
    ensures
        version_read(ok, size, buf@) == (match r {
            Some(v) => Some(v@),
            None => None,
        }),
{
    if !ok {
        return None;
    }
    let units: usize = (size / 2) as usize;
    let n: usize = if units <= buf.len() {
        units
    } else {
        buf.len()
    };
    let mut part: Vec<u16> = Vec::new();
    let mut i: usize = 0;
    while i < n
        invariant
            i <= n <= buf@.len(),
            part@ == buf@.take(i as int),
        decreases n - i,
    {
        part.push(buf[i]);
        i = i + 1;
        assert(part@ =~= buf@.take(i as int));
    }
    let text = from_utf16_lossy(part.as_slice());
    let mut chars = chars_of(text.as_str());
    let ghost all = chars@;
    while chars.len() > 0 && chars[chars.len() - 1] == '\0'
        invariant
            without_zeros(chars@) == without_zeros(all),
        decreases chars@.len(),
    {
        let ghost before = chars@;
        chars.pop();
        assert(chars@ =~= before.drop_last());
    }
    let kept = trim(chars.as_slice());
    if kept.len() == 0 {
        return None;
    }
    Some(text_of(kept.as_slice()))
}

/// A value in the registry.
pub enum RegValue {
    Text(String),
    Number(u32),
}

/// A value with its text as characters.
pub enum RegValueView {
    Text(Seq<char>),
    Number(u32),
}

/// The view of a named value.
pub open spec fn reg_view(v: (&'static str, RegValue)) -> (Seq<char>, RegValueView) {
    (
        v.0@,
        match v.1 {
            RegValue::Text(t) => RegValueView::Text(t@),
            RegValue::Number(n) => RegValueView::Number(n),
        },
    )
}

/// The command that removes the program.
pub open spec fn uninstall_command_of(program_files: Seq<char>) -> Seq<char> {
    "\""@ + crate::app::installed_exe_path(program_files) + "\" uninstall"@
}

/// The size of a file in KB, modulo the width of the value; zero where it could not
/// be read.
pub open spec fn size_kb(bytes: Option<u64>) -> u32 {
    match bytes {
        Some(n) => (n / 1024 % 0x1_0000_0000) as u32,
        None => 0,
    }
}

/// The values of the entry among the installed apps.
pub open spec fn uninstall_entry_of(
    program_files: Seq<char>,
    version: Seq<char>,
    publisher: Seq<char>,
    bytes: Option<u64>,
) -> Seq<(Seq<char>, RegValueView)> {
    seq![
        ("DisplayName"@, RegValueView::Text(NAME@)),
        ("DisplayVersion"@, RegValueView::Text(version)),
        ("Publisher"@, RegValueView::Text(publisher)),
        ("InstallLocation"@, RegValueView::Text(crate::app::app_dir(program_files))),
        ("DisplayIcon"@, RegValueView::Text(crate::app::installed_exe_path(program_files))),
        ("UninstallString"@, RegValueView::Text(uninstall_command_of(program_files))),
        ("EstimatedSize"@, RegValueView::Number(size_kb(bytes))),
        ("NoModify"@, RegValueView::Number(1)),
        ("NoRepair"@, RegValueView::Number(1)),
    ]
}

/// The values of the entry among the installed apps. They carry the version, but
/// their place does not, so that an update refreshes the entry.
pub fn write_uninstall_entry(
    program_files: &str,
    build: &Build,
    publisher: &str,
    bytes: Option<u64>,
) -> (values: Vec<(&'static str, RegValue)>)
    ensures
        Seq::new(values@.len(), |i: int| reg_view(values@[i])) == uninstall_entry_of(
            program_files@,
            build.version@,
            publisher@,
            bytes,
        ),
{
    let installed = installed_exe(program_files);
    let mut command: String = "\"".to_owned();
    command.append(installed.as_str());
    command.append("\" uninstall");
    let kb: u32 = match bytes {
        Some(n) => {
            let k: u64 = n / 1024 % 0x1_0000_0000;
            k as u32
        },
        None => 0,
    };
    let mut values: Vec<(&'static str, RegValue)> = Vec::new();
    values.push(("DisplayName", RegValue::Text(NAME.to_owned())));
    values.push(("DisplayVersion", RegValue::Text(build.version.clone())));
    values.push(("Publisher", RegValue::Text(publisher.to_owned())));
    values.push(("InstallLocation", RegValue::Text(install_dir(program_files))));
    values.push(("DisplayIcon", RegValue::Text(installed)));
    values.push(("UninstallString", RegValue::Text(command)));
    values.push(("EstimatedSize", RegValue::Number(kb)));
    values.push(("NoModify", RegValue::Number(1)));
    values.push(("NoRepair", RegValue::Number(1)));
    assert(Seq::new(values@.len(), |i: int| reg_view(values@[i])) =~= uninstall_entry_of(
        program_files@,
        build.version@,
        publisher@,
        bytes,
    ));
    values
}

/// A step of putting the program in its place.
#[derive(Clone, Copy, PartialEq, Eq, Structural, Debug)]
pub enum CopyStep {
    CreateDirectory,
    /// Is there a program already?
    CheckExisting,
    /// Remove what an earlier run left behind.
    RemoveStale,
    /// Move the old program out of the way: it may be open.
    RenameOld,
    CopyNew,
    RemoveOld,
    Done,
    Failed,
}

/// The step that follows.
pub open spec fn copy_step(s: CopyStep, ok: bool) -> CopyStep {
    match s {
        CopyStep::CreateDirectory => if ok {
            CopyStep::CheckExisting
        } else {
            CopyStep::Failed
        },
        CopyStep::CheckExisting => if ok {
            CopyStep::RemoveStale
        } else {
            CopyStep::CopyNew
        },
        CopyStep::RemoveStale => CopyStep::RenameOld,
        CopyStep::RenameOld => if ok {
            CopyStep::CopyNew
        } else {
            CopyStep::Failed
        },
        CopyStep::CopyNew => if ok {
            CopyStep::RemoveOld
        } else {
            CopyStep::Failed
        },
        CopyStep::RemoveOld => CopyStep::Done,
        CopyStep::Done => CopyStep::Done,
        CopyStep::Failed => CopyStep::Failed,
    }
}

/// The step of putting the program in its place that follows.
pub fn copy_exe_to_install_dir(s: CopyStep, ok: bool) -> (n: CopyStep)
    ensures
        n == copy_step(s, ok),
{
    match s {
        CopyStep::CreateDirectory => if ok {
            CopyStep::CheckExisting
        } else {
            CopyStep::Failed
        },
        CopyStep::CheckExisting => if ok {
            CopyStep::RemoveStale
        } else {
            CopyStep::CopyNew
        },
        CopyStep::RemoveStale => CopyStep::RenameOld,
        CopyStep::RenameOld => if ok {
            CopyStep::CopyNew
        } else {
            CopyStep::Failed
        },
        CopyStep::CopyNew => if ok {
            CopyStep::RemoveOld
        } else {
            CopyStep::Failed
        },
        CopyStep::RemoveOld => CopyStep::Done,
        CopyStep::Done => CopyStep::Done,
        CopyStep::Failed => CopyStep::Failed,
    }
}

/// A program that is there is moved away before another is put in its place, and
/// the copy is done only where the new one is there.
pub proof fn old_program_is_moved_away_first(s: CopyStep, ok: bool)
    ensures
        copy_step(s, ok) is CopyNew ==> (s is CheckExisting && !ok) || (s is RenameOld && ok),
        copy_step(s, ok) is RemoveOld ==> s is CopyNew && ok,
        copy_step(s, ok) is Done ==> s is RemoveOld || s is Done,
{
}

/// A process of the system.
pub struct Process {
    pub pid: u32,
    /// Name of its image.
    pub name: String,
    /// Path of its image, where it could be read from the process itself.
    pub path: Option<String>,
}

/// Whether a process is another instance of the installed program: its path says
/// so. A name alone says nothing.
pub open spec fn is_other_instance(p: Process, own_pid: u32, installed: Seq<char>) -> bool {
    &&& p.pid != own_pid
    &&& same_ignoring_ascii_case(p.name@, EXE_NAME@)
    &&& p.path is Some && same_ignoring_ascii_case(p.path->0@, installed)
}

/// The places of the other instances among the first `n` processes.
pub open spec fn other_instances(
    ps: Seq<Process>,
    own_pid: u32,
    installed: Seq<char>,
    n: int,
) -> Seq<int>
    decreases n,
{
    if n <= 0 {
        Seq::empty()
    } else if is_other_instance(ps[n - 1], own_pid, installed) {
        other_instances(ps, own_pid, installed, n - 1).push(n - 1)
    } else {
        other_instances(ps, own_pid, installed, n - 1)
    }
}

/// The places of the processes to wait for, and to end if they do not end by
/// themselves.
pub fn wait_or_kill_other_instances(ps: &[Process], own_pid: u32, installed: &str) -> (out: Vec<
    usize,
>)
    ensures
        out@.map_values(|i: usize| i as int) == other_instances(
            ps@,
            own_pid,
            installed@,
            ps@.len() as int,
        ),
{
    let mut out: Vec<usize> = Vec::new();
    let mut i: usize = 0;
    assert(out@.map_values(|i: usize| i as int) =~= Seq::empty());
    while i < ps.len()
        invariant
            i <= ps@.len(),
            out@.map_values(|i: usize| i as int) == other_instances(
                ps@,
                own_pid,
                installed@,
                i as int,
            ),
        decreases ps@.len() - i,
    {
        let p = &ps[i];
        let ours: bool = if p.pid != own_pid && same_path(p.name.as_str(), EXE_NAME) {
            match &p.path {
                Some(path) => same_path(path.as_str(), installed),
                None => false,
            }
        } else {
            false
        };
        let ghost before = out@;
        if ours {
            out.push(i);
            assert(out@.map_values(|i: usize| i as int) =~= before.map_values(
                |i: usize| i as int,
            ).push(i as int));
        }
        i = i + 1;
    }
    out
}

/// Only other processes are ended, and only those whose image is the installed
/// program.
pub proof fn only_own_instances_are_ended(
    ps: Seq<Process>,
    own_pid: u32,
    installed: Seq<char>,
    n: int,
    k: int,
)
    requires
        0 <= n <= ps.len(),
        0 <= k < other_instances(ps, own_pid, installed, n).len(),
    ensures
        0 <= other_instances(ps, own_pid, installed, n)[k] < n,
        is_other_instance(ps[other_instances(ps, own_pid, installed, n)[k]], own_pid, installed),
    decreases n,
{
    if n > 0 {
        let before = other_instances(ps, own_pid, installed, n - 1);
        if k < before.len() {
            only_own_instances_are_ended(ps, own_pid, installed, n - 1, k);
        }
    }
}

/// Whether a process that was waited for is ended: it is still there.
pub open spec fn lingers(waited: u32) -> bool {
    waited != WAIT_OBJECT_0
}

/// Whether a process that was waited for is ended: it is still there.
pub fn still_there(waited: u32) -> (r: bool)
    ensures
        r == lingers(waited),
{
    waited != WAIT_OBJECT_0
}

/// How often, and how long between two looks, the service is waited for.
pub const RUNNING_CHECKS: u32 = 20;
pub const RUNNING_WAIT_MS: u64 = 500;
pub const STOPPED_CHECKS: u32 = 40;
pub const STOPPED_WAIT_MS: u64 = 250;

/// What follows a look at the service.
#[derive(Clone, Copy, PartialEq, Eq, Structural, Debug)]
pub enum Poll {
    /// Wait and look again.
    Again,
    /// It is as it should be.
    Reached,
    /// It was looked at often enough.
    GaveUp,
}

/// What follows look number `looks` at a service that should come to run.
pub open spec fn poll_running(looks: u32, state: Option<u32>) -> Poll {
    if looks >= RUNNING_CHECKS {
        Poll::GaveUp
    } else if state == Some(SERVICE_RUNNING) {
        Poll::Reached
    } else {
        Poll::Again
    }
}

/// What follows look number `looks` at a service that should come to run.
pub fn wait_for_service_running(looks: u32, state: Option<u32>) -> (p: Poll)
    ensures
        p == poll_running(looks, state),
{
    if looks >= RUNNING_CHECKS {
        Poll::GaveUp
    } else if is_service_running(state) {
        Poll::Reached
    } else {
        Poll::Again
    }
}

/// What follows look number `looks` at a service that should stop.
pub open spec fn poll_stopped(looks: u32, state: Option<u32>) -> Poll {
    if looks >= STOPPED_CHECKS {
        Poll::GaveUp
    } else if is_down(state) {
        Poll::Reached
    } else {
        Poll::Again
    }
}

/// What follows look number `looks` at a service that should stop.
pub fn wait_for_service_stopped(looks: u32, state: Option<u32>) -> (p: Poll)
    ensures
        p == poll_stopped(looks, state),
{
    if looks >= STOPPED_CHECKS {
        Poll::GaveUp
    } else if is_service_down(state) {
        Poll::Reached
    } else {
        Poll::Again
    }
}

/// What a start or a stop needs.
#[derive(Clone, Copy, PartialEq, Eq, Structural, Debug)]
pub enum Control {
    /// Nothing: it is so already.
    Nothing,
    /// Tell the service control manager.
    Send,
}

/// What a start needs.
pub open spec fn start_needs(state: Option<u32>) -> Control {
    if state == Some(SERVICE_RUNNING) {
        Control::Nothing
    } else {
        Control::Send
    }
}

/// What a stop needs.
pub open spec fn stop_needs(state: Option<u32>) -> Control {
    if is_down(state) {
        Control::Nothing
    } else {
        Control::Send
    }
}

/// What a start needs.
pub fn native_start(state: Option<u32>) -> (c: Control)
    ensures
        c == start_needs(state),
{
    if is_service_running(state) {
        Control::Nothing
    } else {
        Control::Send
    }
}

/// What a stop needs.
pub fn native_stop(state: Option<u32>) -> (c: Control)
    ensures
        c == stop_needs(state),
{
    if is_service_down(state) {
        Control::Nothing
    } else {
        Control::Send
    }
}

/// The path of a shortcut in a folder.
pub open spec fn shortcut_in(folder: Seq<char>) -> Seq<char> {
    folder + "\\"@ + NAME@ + ".lnk"@
}

/// The path of a shortcut in a folder.
pub fn shortcut_path(folder: &str) -> (out: String)
    ensures
        out@ == shortcut_in(folder@),
{
    let mut out: String = folder.to_owned();
    out.append("\\");
    out.append(NAME);
    out.append(".lnk");
    out
}

/// The arguments of the elevated process that installs.
pub open spec fn install_args_of(c: Choices) -> Seq<char> {
    let flags = crate::onboarding::spaced(crate::onboarding::flags_of(c));
    if flags.len() == 0 {
        "--install-svc"@
    } else {
        "--install-svc "@ + flags
    }
}

/// The arguments of the elevated process that installs.
pub fn install_args(choices: Choices) -> (out: String)
    ensures
        out@ == install_args_of(choices),
{
    let flags = choices.to_args();
    if flags.as_str().is_empty() {
        return "--install-svc".to_owned();
    }
    let mut out: String = "--install-svc ".to_owned();
    out.append(flags.as_str());
    out
}

/// What is told to the service control tool to make the service.
pub open spec fn create_args_of(program_files: Seq<char>) -> Seq<Seq<char>> {
    seq![
        "create"@,
        SERVICE_NAME@,
        "binPath=\""@ + crate::app::installed_exe_path(program_files) + "\" --service"@,
        "start=auto"@,
        "DisplayName="@ + NAME@,
    ]
}

/// What is told to the service control tool to make the service.
pub fn create_args(program_files: &str) -> (args: Vec<String>)
    ensures
        crate::onboarding::texts(args@) == create_args_of(program_files@),
{
    let installed = installed_exe(program_files);
    let mut bin: String = "binPath=\"".to_owned();
    bin.append(installed.as_str());
    bin.append("\" --service");
    let mut display: String = "DisplayName=".to_owned();
    display.append(NAME);
    let mut args: Vec<String> = Vec::new();
    args.push("create".to_owned());
    args.push(SERVICE_NAME.to_owned());
    args.push(bin);
    args.push("start=auto".to_owned());
    args.push(display);
    assert(crate::onboarding::texts(args@) =~= create_args_of(program_files@));
    args
}

/// A step of the elevated process.
#[derive(Clone, Copy, PartialEq, Eq, Structural, Debug)]
pub enum SetupStep {
    CheckHardware,
    CloseTrays,
    StopService,
    WaitStopped,
    EndOtherInstances,
    LogLockers,
    CopyProgram,
    EnsureDataDirectory,
    CreateService,
    DescribeService,
    SecureService,
    SetPrivileges,
    SetServiceSid,
    ExcludeFromReports,
    StartService,
    WriteUninstallEntry,
    SetRunKey,
    CreateStartMenuShortcut,
    CreateDesktopShortcut,
    RemoveRunKey,
    RemoveUninstallEntry,
    RemoveStartMenuShortcut,
    RemoveDesktopShortcut,
    IncludeInReports,
    DeleteService,
    RemoveInstallDirectory,
    RemoveDataDirectory,
}

/// `step` where it is chosen, else nothing.
pub open spec fn chosen_step(step: SetupStep, chosen: bool) -> Seq<SetupStep> {
    if chosen {
        seq![step]
    } else {
        Seq::empty()
    }
}

/// What the elevated process does to install, in its order.
pub open spec fn install_steps(c: Choices) -> Seq<SetupStep> {
    seq![
        SetupStep::CheckHardware,
        SetupStep::CopyProgram,
        SetupStep::EnsureDataDirectory,
        SetupStep::CreateService,
        SetupStep::DescribeService,
        SetupStep::SecureService,
        SetupStep::SetPrivileges,
        SetupStep::SetServiceSid,
        SetupStep::ExcludeFromReports,
        SetupStep::StartService,
        SetupStep::WriteUninstallEntry,
    ] + chosen_step(SetupStep::SetRunKey, c.run_at_startup) + chosen_step(
        SetupStep::CreateStartMenuShortcut,
        c.start_menu,
    ) + chosen_step(SetupStep::CreateDesktopShortcut, c.desktop)
}

/// What the elevated process does to install.
pub fn install_service(choices: Choices) -> (steps: Vec<SetupStep>)
    ensures
        steps@ == install_steps(choices),
{
    let mut steps: Vec<SetupStep> = Vec::new();
    steps.push(SetupStep::CheckHardware);
    steps.push(SetupStep::CopyProgram);
    steps.push(SetupStep::EnsureDataDirectory);
    steps.push(SetupStep::CreateService);
    steps.push(SetupStep::DescribeService);
    steps.push(SetupStep::SecureService);
    steps.push(SetupStep::SetPrivileges);
    steps.push(SetupStep::SetServiceSid);
    steps.push(SetupStep::ExcludeFromReports);
    steps.push(SetupStep::StartService);
    steps.push(SetupStep::WriteUninstallEntry);
    if choices.run_at_startup {
        steps.push(SetupStep::SetRunKey);
    }
    if choices.start_menu {
        steps.push(SetupStep::CreateStartMenuShortcut);
    }
    if choices.desktop {
        steps.push(SetupStep::CreateDesktopShortcut);
    }
    assert(steps@ =~= install_steps(choices));
    steps
}

/// What the elevated process does to update, in its order.
pub open spec fn update_steps() -> Seq<SetupStep> {
    seq![
        SetupStep::CloseTrays,
        SetupStep::StopService,
        SetupStep::WaitStopped,
        SetupStep::EndOtherInstances,
        SetupStep::LogLockers,
        SetupStep::CopyProgram,
        SetupStep::EnsureDataDirectory,
        SetupStep::WriteUninstallEntry,
        SetupStep::SetPrivileges,
        SetupStep::SetServiceSid,
        SetupStep::ExcludeFromReports,
        SetupStep::StartService,
    ]
}

/// What the elevated process does to update. The shortcuts and the entry that
/// starts the tray stay as the user chose them.
pub fn update_service() -> (steps: Vec<SetupStep>)
    ensures
        steps@ == update_steps(),
{
    let mut steps: Vec<SetupStep> = Vec::new();
    steps.push(SetupStep::CloseTrays);
    steps.push(SetupStep::StopService);
    steps.push(SetupStep::WaitStopped);
    steps.push(SetupStep::EndOtherInstances);
    steps.push(SetupStep::LogLockers);
    steps.push(SetupStep::CopyProgram);
    steps.push(SetupStep::EnsureDataDirectory);
    steps.push(SetupStep::WriteUninstallEntry);
    steps.push(SetupStep::SetPrivileges);
    steps.push(SetupStep::SetServiceSid);
    steps.push(SetupStep::ExcludeFromReports);
    steps.push(SetupStep::StartService);
    assert(steps@ =~= update_steps());
    steps
}

/// What the elevated process does to uninstall, in its order.
pub open spec fn uninstall_steps() -> Seq<SetupStep> {
    seq![
        SetupStep::RemoveRunKey,
        SetupStep::RemoveUninstallEntry,
        SetupStep::RemoveStartMenuShortcut,
        SetupStep::RemoveDesktopShortcut,
        SetupStep::IncludeInReports,
        SetupStep::CloseTrays,
        SetupStep::EndOtherInstances,
        SetupStep::StopService,
        SetupStep::WaitStopped,
        SetupStep::DeleteService,
        SetupStep::RemoveInstallDirectory,
        SetupStep::RemoveDataDirectory,
    ]
}

/// What the elevated process does to uninstall; none where the process is not
/// elevated, and starts one that is.
pub fn uninstall(elevated: bool) -> (steps: Option<Vec<SetupStep>>)
    ensures
        steps is Some <==> elevated,
        steps matches Some(s) ==> s@ == uninstall_steps(),
{
    if !elevated {
        return None;
    }
    let mut steps: Vec<SetupStep> = Vec::new();
    steps.push(SetupStep::RemoveRunKey);
    steps.push(SetupStep::RemoveUninstallEntry);
    steps.push(SetupStep::RemoveStartMenuShortcut);
    steps.push(SetupStep::RemoveDesktopShortcut);
    steps.push(SetupStep::IncludeInReports);
    steps.push(SetupStep::CloseTrays);
    steps.push(SetupStep::EndOtherInstances);
    steps.push(SetupStep::StopService);
    steps.push(SetupStep::WaitStopped);
    steps.push(SetupStep::DeleteService);
    steps.push(SetupStep::RemoveInstallDirectory);
    steps.push(SetupStep::RemoveDataDirectory);
    assert(steps@ =~= uninstall_steps());
    Some(steps)
}

/// Whether the steps go on after one.
pub open spec fn setup_goes_on(step: SetupStep, ok: bool) -> bool {
    ok || !(step is CheckHardware || step is CopyProgram)
}

/// Whether the steps go on after one: only other hardware and a program that could
/// not be put in its place end them.
pub fn goes_on(step: SetupStep, ok: bool) -> (r: bool)
    ensures
        r == setup_goes_on(step, ok),
{
    ok || !matches!(step, SetupStep::CheckHardware | SetupStep::CopyProgram)
}

/// What an update notes after a step, given why it failed if it did.
pub open spec fn note_of(step: SetupStep, failure: Option<Seq<char>>) -> Option<Seq<char>> {
    match step {
        SetupStep::CloseTrays => Some("posted WM_CLOSE to tray windows"@),
        SetupStep::StopService => Some("stop issued"@),
        SetupStep::WaitStopped => Some("service stopped"@),
        SetupStep::EndOtherInstances => Some("all other instances exited"@),
        SetupStep::CopyProgram => match failure {
            None => Some("copy succeeded"@),
            Some(why) => Some("COPY FAILED: "@ + why),
        },
        SetupStep::EnsureDataDirectory => match failure {
            None => None,
            Some(why) => Some("data dir setup failed: "@ + why),
        },
        SetupStep::SetServiceSid => Some("required privileges + service SID set"@),
        SetupStep::StartService => match failure {
            None => Some("service start requested"@),
            Some(_) => Some("service start FAILED"@),
        },
        _ => None,
    }
}

/// What an update notes after a step. Most steps are noted however they ended.
pub fn update_note(step: SetupStep, failure: Option<&str>) -> (note: Option<String>)
    ensures
        match note {
            Some(text) => Some(text@),
            None => None,
        } == note_of(
            step,
            match failure {
                Some(why) => Some(why@),
                None => None,
            },
        ),
{
    let mut note: String = match (step, failure) {
        (SetupStep::CloseTrays, _) => "posted WM_CLOSE to tray windows".to_owned(),
        (SetupStep::StopService, _) => "stop issued".to_owned(),
        (SetupStep::WaitStopped, _) => "service stopped".to_owned(),
        (SetupStep::EndOtherInstances, _) => "all other instances exited".to_owned(),
        (SetupStep::CopyProgram, None) => "copy succeeded".to_owned(),
        (SetupStep::CopyProgram, Some(_)) => "COPY FAILED: ".to_owned(),
        (SetupStep::EnsureDataDirectory, Some(_)) => "data dir setup failed: ".to_owned(),
        (SetupStep::SetServiceSid, _) => "required privileges + service SID set".to_owned(),
        (SetupStep::StartService, None) => "service start requested".to_owned(),
        (SetupStep::StartService, Some(_)) => "service start FAILED".to_owned(),
        _ => return None,
    };
    if matches!(step, SetupStep::CopyProgram | SetupStep::EnsureDataDirectory) {
        if let Some(why) = failure {
            note.append(why);
        }
    }
    Some(note)
}

/// The line that tells the installed program by its digest, given what reading it
/// brought.
pub fn installed_line(contents: Option<&[u8]>) -> (out: String)
    ensures
        out@ == "installed exe-fnv="@ + crate::app::digest_text(
            match contents {
                Some(bytes) => Some(bytes@),
                None => None,
            },
        ),
{
    let mut out: String = "installed exe-fnv=".to_owned();
    let digest = file_digest(contents);
    out.append(digest.as_str());
    out
}

/// Steps that carry out what the user may choose.
pub open spec fn is_optional(s: SetupStep) -> bool {
    s is SetRunKey || s is CreateStartMenuShortcut || s is CreateDesktopShortcut
}

/// An install does what was chosen, and no more of it; the hardware is looked at
/// before anything else. An update does nothing that may be chosen, and the service
/// is stopped and its program put in place before it is started.
pub proof fn choices_are_kept(c: Choices, i: int)
    ensures
        install_steps(c)[0] is CheckHardware,
        install_steps(c).contains(SetupStep::SetRunKey) == c.run_at_startup,
        install_steps(c).contains(SetupStep::CreateStartMenuShortcut) == c.start_menu,
        install_steps(c).contains(SetupStep::CreateDesktopShortcut) == c.desktop,
        0 <= i < update_steps().len() ==> !is_optional(update_steps()[i]),
        update_steps()[1] is StopService && update_steps()[2] is WaitStopped && update_steps()[5]
            is CopyProgram && update_steps().last() is StartService,
{
    let s = install_steps(c);
    let a = 11 + if c.run_at_startup {
        1int
    } else {
        0
    };
    let b = a + if c.start_menu {
        1int
    } else {
        0
    };
    if c.run_at_startup {
        assert(s[11] is SetRunKey);
    }
    if c.start_menu {
        assert(s[a] is CreateStartMenuShortcut);
    }
    if c.desktop {
        assert(s[b] is CreateDesktopShortcut);
    }
}

/// The step that undoes one of an install; none where it leaves nothing behind
/// that would outlive the service and the two directories.
pub open spec fn undone_by(s: SetupStep) -> Option<SetupStep> {
    match s {
        SetupStep::CopyProgram => Some(SetupStep::RemoveInstallDirectory),
        SetupStep::EnsureDataDirectory => Some(SetupStep::RemoveDataDirectory),
        SetupStep::CreateService => Some(SetupStep::DeleteService),
        SetupStep::ExcludeFromReports => Some(SetupStep::IncludeInReports),
        SetupStep::StartService => Some(SetupStep::StopService),
        SetupStep::WriteUninstallEntry => Some(SetupStep::RemoveUninstallEntry),
        SetupStep::SetRunKey => Some(SetupStep::RemoveRunKey),
        SetupStep::CreateStartMenuShortcut => Some(SetupStep::RemoveStartMenuShortcut),
        SetupStep::CreateDesktopShortcut => Some(SetupStep::RemoveDesktopShortcut),
        _ => None,
    }
}

/// Every step of an install or an update that leaves something behind is undone by
/// the uninstall, whatever was chosen.
pub proof fn uninstall_undoes_install(c: Choices, step: SetupStep)
    requires
        install_steps(c).contains(step) || update_steps().contains(step),
    ensures
        undone_by(step) matches Some(undo) ==> uninstall_steps().contains(undo),
{
    let s = uninstall_steps();
    assert(s[0] is RemoveRunKey && s[1] is RemoveUninstallEntry && s[2] is RemoveStartMenuShortcut
        && s[3] is RemoveDesktopShortcut && s[4] is IncludeInReports && s[7] is StopService
        && s[9] is DeleteService && s[10] is RemoveInstallDirectory && s[11]
        is RemoveDataDirectory);
}

/// A step of an update from the user's process.
#[derive(Clone, Copy, PartialEq, Eq, Structural, Debug)]
pub enum UpdateStep {
    CheckElevated,
    /// Update in this process. The tray is not started: it must not run elevated.
    UpdateHere,
    /// Start the elevated process and wait until it ends.
    RunElevated,
    WaitForService,
    EnsureTray,
    Done,
}

/// The step of an update that follows.
pub open spec fn update_after(s: UpdateStep, ok: bool) -> UpdateStep {
    match s {
        UpdateStep::CheckElevated => if ok {
            UpdateStep::UpdateHere
        } else {
            UpdateStep::RunElevated
        },
        UpdateStep::RunElevated => if ok {
            UpdateStep::WaitForService
        } else {
            UpdateStep::Done
        },
        UpdateStep::WaitForService => UpdateStep::EnsureTray,
        _ => UpdateStep::Done,
    }
}

/// The step of an update that follows.
pub fn update(s: UpdateStep, ok: bool) -> (n: UpdateStep)
    ensures
        n == update_after(s, ok),
{
    match s {
        UpdateStep::CheckElevated => if ok {
            UpdateStep::UpdateHere
        } else {
            UpdateStep::RunElevated
        },
        UpdateStep::RunElevated => if ok {
            UpdateStep::WaitForService
        } else {
            UpdateStep::Done
        },
        UpdateStep::WaitForService => UpdateStep::EnsureTray,
        _ => UpdateStep::Done,
    }
}

/// Whether the installed tray is to be started.
pub open spec fn starts_tray(elevated: bool, running: bool) -> bool {
    !elevated && !running
}

/// Whether the installed tray is to be started: not from an elevated process, and
/// not where one runs.
pub fn ensure_tray(elevated: bool, running: bool) -> (start: bool)
    ensures
        start == starts_tray(elevated, running),
{
    !elevated && !running
}

/// What a start or a stop by the user comes to.
#[derive(Clone, Copy, PartialEq, Eq, Debug)]
pub enum ControlOutcome {
    /// It is done; this is what to say.
    Say(&'static str),
    /// Do it in an elevated process with this argument.
    Elevate(&'static str),
}

/// The argument with which the elevated process stops the service.
pub open spec fn stop_argument() -> Seq<char> {
    "--stop-svc"@
}

/// The argument with which the elevated process starts the service.
pub open spec fn start_argument() -> Seq<char> {
    "--start-svc"@
}

/// What a stop by the user comes to.
pub fn stop(done: bool) -> (o: ControlOutcome)
    ensures
        done ==> (o matches ControlOutcome::Say(s) && s@ == "Service stopped."@),
        !done ==> (o matches ControlOutcome::Elevate(a) && a@ == stop_argument()),
{
    if done {
        ControlOutcome::Say("Service stopped.")
    } else {
        ControlOutcome::Elevate("--stop-svc")
    }
}

/// What a start by the user comes to.
pub fn start(done: bool) -> (o: ControlOutcome)
    ensures
        done ==> (o matches ControlOutcome::Say(s) && s@ == "Service started."@),
        !done ==> (o matches ControlOutcome::Elevate(a) && a@ == start_argument()),
{
    if done {
        ControlOutcome::Say("Service started.")
    } else {
        ControlOutcome::Elevate("--start-svc")
    }
}

/// What a stop by the elevated process says.
pub fn stop_service(done: bool) -> (s: &'static str)
    ensures
        s@ == if done {
            "Service stopped."@
        } else {
            "Service stop failed."@
        },
{
    if done {
        "Service stopped."
    } else {
        "Service stop failed."
    }
}

/// What a start by the elevated process says.
pub fn start_service(done: bool) -> (s: &'static str)
    ensures
        s@ == if done {
            "Service started."@
        } else {
            "Service start failed."@
        },
{
    if done {
        "Service started."
    } else {
        "Service start failed."
    }
}

/// Whether a token says that its process is elevated.
pub open spec fn token_elevated(opened: bool, queried: bool, elevated: u32) -> bool {
    opened && queried && elevated != 0
}

/// Whether this process is elevated, from what its token says.
pub fn is_elevated(opened: bool, queried: bool, elevated: u32) -> (r: bool)
    ensures
        r == token_elevated(opened, queried, elevated),
{
    opened && queried && elevated != 0
}

/// Texts one after the other in UTF-16, each with a zero at its end, and one more
/// zero.
pub open spec fn multi_units(names: Seq<&'static str>) -> Seq<u16>
    decreases names.len(),
{
    if names.len() == 0 {
        Seq::empty()
    } else {
        multi_units(names.drop_last()) + crate::wide::utf16(names.last()@).push(0)
    }
}

/// A list of texts for the registry.
pub fn multi_sz(names: &[&'static str]) -> (out: Vec<u16>)
    ensures
        out@ == multi_units(names@).push(0),
{
    let mut out: Vec<u16> = Vec::new();
    let mut i: usize = 0;
    while i < names.len()
        invariant
            i <= names@.len(),
            out@ == multi_units(names@.take(i as int)),
        decreases names@.len() - i,
    {
        let mut units = wide_null(names[i]);
        out.append(&mut units);
        proof {
            assert(names@.take(i + 1).drop_last() =~= names@.take(i as int));
        }
        i = i + 1;
    }
    assert(names@.take(i as int) =~= names@);
    out.push(0);
    out
}

/// A path in the system directory, where that is known: what the system gave must
/// be there and must have fitted the buffer. Nothing is guessed for an elevated
/// process.
pub open spec fn in_system_directory(buf: Seq<u16>, len: int, name: Seq<char>) -> Option<Seq<char>> {
    if 0 < len < buf.len() {
        Some(crate::wide::decoded(buf.take(len)) + "\\"@ + name)
    } else {
        None
    }
}

/// A path in the system directory, where that is known.
pub fn system32_path(buf: &[u16], len: usize, name: &str) -> (r: Option<String>)
    ensures
        in_system_directory(buf@, len as int, name@) == (match r {
            Some(p) => Some(p@),
            None => None,
        }),
{
    if len == 0 || len >= buf.len() {
        return None;
    }
    let mut part: Vec<u16> = Vec::new();
    let mut i: usize = 0;
    while i < len
        invariant
            i <= len < buf@.len(),
            part@ == buf@.take(i as int),
        decreases len - i,
    {
        part.push(buf[i]);
        i = i + 1;
        assert(part@ =~= buf@.take(i as int));
    }
    let mut out = from_utf16_lossy(part.as_slice());
    out.append("\\");
    out.append(name);
    Some(out)
}

/// The line that says who holds a file.
pub open spec fn locker_of(pid: u32, name: Seq<char>, kind: i32) -> Seq<char> {
    "PID "@ + crate::text::decimal(pid as int) + ": "@ + name + " (type="@ + (if kind < 0 {
        "-"@ + crate::text::decimal(-(kind as int))
    } else {
        crate::text::decimal(kind as int)
    }) + ")"@
}

/// The line that says who holds a file.
pub fn locker_line(pid: u32, name: &str, kind: i32) -> (out: String)
    ensures
        out@ == locker_of(pid, name@, kind),
{
    let mut out: String = "PID ".to_owned();
    push_decimal(&mut out, pid as u64);
    out.append(": ");
    out.append(name);
    out.append(" (type=");
    let ghost head = out@;
    if kind < 0 {
        out.append("-");
        push_decimal(&mut out, (-(kind as i64)) as u64);
    } else {
        push_decimal(&mut out, kind as u64);
    }
    assert(out@ =~= head + (if kind < 0 {
        "-"@ + crate::text::decimal(-(kind as int))
    } else {
        crate::text::decimal(kind as int)
    }));
    out.append(")");
    out
}

/// Whether the running program must be moved away before the install directory can be
/// removed: it lies there.
pub fn relocates(exe: &str, install_dir: &str) -> (r: bool)
    ensures
        r == crate::path::is_within(exe@, install_dir@),
{
    let exe_chars = chars_of(exe);
    let dir_chars = chars_of(install_dir);
    within(exe_chars.as_slice(), dir_chars.as_slice())
}

/// What the running program is called once it was moved away to be deleted.
pub fn relocated_name(pid: u32) -> (out: String)
    ensures
        out@ == "hp-thermal-old-"@ + crate::text::decimal(pid as int) + ".exe"@,
{
    let mut out: String = "hp-thermal-old-".to_owned();
    push_decimal(&mut out, pid as u64);
    out.append(".exe");
    out
}

/// What is told to the service control tool to describe the service.
pub fn describe_args() -> (args: Vec<String>)
    ensures
        crate::onboarding::texts(args@) == seq!["description"@, SERVICE_NAME@, SERVICE_DESC@],
{
    let mut args: Vec<String> = Vec::new();
    args.push("description".to_owned());
    args.push(SERVICE_NAME.to_owned());
    args.push(SERVICE_DESC.to_owned());
    assert(crate::onboarding::texts(args@) =~= seq!["description"@, SERVICE_NAME@, SERVICE_DESC@]);
    args
}

/// The step is taken, and wherever it is, `after` comes later; `after` is taken too.
pub open spec fn comes_first(steps: Seq<SetupStep>, step: SetupStep, after: SetupStep) -> bool {
    &&& steps.contains(step)
    &&& steps.contains(after)
    &&& forall|i: int, j: int|
        0 <= i < steps.len() && 0 <= j < steps.len() && #[trigger] steps[i] == step
            && #[trigger] steps[j] == after ==> i < j
}

/// Steps that set up a service that is there.
pub open spec fn configures(s: SetupStep) -> bool {
    s is DescribeService || s is SecureService || s is SetPrivileges || s is SetServiceSid
}

/// Steps that take something away.
pub open spec fn takes_away(s: SetupStep) -> bool {
    ||| s is RemoveRunKey
    ||| s is RemoveUninstallEntry
    ||| s is RemoveStartMenuShortcut
    ||| s is RemoveDesktopShortcut
    ||| s is IncludeInReports
    ||| s is DeleteService
    ||| s is RemoveInstallDirectory
    ||| s is RemoveDataDirectory
}

/// An install, whatever was chosen: the hardware is looked at first; the program is put in
/// its place before the service is created, the service is created before it is
/// configured, and started after all of that. No step is taken twice, and none takes
/// anything away.
pub proof fn installs_create_before_they_start(c: Choices, s: SetupStep, i: int, j: int)
    ensures
        ({
            let steps = install_steps(c);
            &&& steps[0] is CheckHardware
            &&& comes_first(steps, SetupStep::CopyProgram, SetupStep::CreateService)
            &&& comes_first(steps, SetupStep::EnsureDataDirectory, SetupStep::StartService)
            &&& comes_first(steps, SetupStep::ExcludeFromReports, SetupStep::StartService)
            &&& comes_first(steps, SetupStep::CreateService, SetupStep::StartService)
            &&& configures(s) ==> comes_first(steps, SetupStep::CreateService, s) && comes_first(
                steps,
                s,
                SetupStep::StartService,
            )
            &&& steps.contains(SetupStep::WriteUninstallEntry)
            &&& 0 <= i < j < steps.len() ==> steps[i] != steps[j]
            &&& 0 <= i < steps.len() ==> !takes_away(steps[i])
        }),
{
    let steps = install_steps(c);
    assert(steps[0] is CheckHardware && steps[1] is CopyProgram && steps[2] is EnsureDataDirectory
        && steps[3] is CreateService && steps[4] is DescribeService && steps[5] is SecureService
        && steps[6] is SetPrivileges && steps[7] is SetServiceSid && steps[8] is ExcludeFromReports
        && steps[9] is StartService && steps[10] is WriteUninstallEntry);
    assert forall|k: int| 11 <= k < steps.len() implies is_optional(#[trigger] steps[k]) by {}
    if 11 <= i < j < steps.len() {
        let a = 11 + if c.run_at_startup {
            1int
        } else {
            0
        };
        let b = a + if c.start_menu {
            1int
        } else {
            0
        };
        assert(steps[i] is SetRunKey <==> i < a);
        assert(steps[j] is CreateDesktopShortcut <==> j >= b);
    }
}

/// An update: the trays are closed and the service is stopped, and both are seen to have
/// ended, before the program is replaced; the service is started after everything else.
/// Nothing is taken away, and the service is not created anew.
pub proof fn updates_stop_before_they_copy(i: int, j: int)
    ensures
        ({
            let steps = update_steps();
            &&& comes_first(steps, SetupStep::CloseTrays, SetupStep::EndOtherInstances)
            &&& comes_first(steps, SetupStep::StopService, SetupStep::WaitStopped)
            &&& comes_first(steps, SetupStep::WaitStopped, SetupStep::CopyProgram)
            &&& comes_first(steps, SetupStep::EndOtherInstances, SetupStep::CopyProgram)
            &&& comes_first(steps, SetupStep::LogLockers, SetupStep::CopyProgram)
            &&& comes_first(steps, SetupStep::CopyProgram, SetupStep::WriteUninstallEntry)
            &&& steps.contains(SetupStep::EnsureDataDirectory)
            &&& steps.contains(SetupStep::SetPrivileges)
            &&& steps.contains(SetupStep::SetServiceSid)
            &&& steps.contains(SetupStep::ExcludeFromReports)
            &&& steps.contains(SetupStep::StartService)
            &&& 0 <= i < steps.len() ==> (steps[i] is StartService <==> i == steps.len() - 1)
            &&& 0 <= i < j < steps.len() ==> steps[i] != steps[j]
            &&& 0 <= i < steps.len() ==> !takes_away(steps[i]) && !(steps[i] is CreateService)
        }),
{
    let steps = update_steps();
    assert(steps[0] is CloseTrays && steps[1] is StopService && steps[2] is WaitStopped && steps[3]
        is EndOtherInstances && steps[4] is LogLockers && steps[5] is CopyProgram && steps[6]
        is EnsureDataDirectory && steps[7] is WriteUninstallEntry && steps[8] is SetPrivileges
        && steps[9] is SetServiceSid && steps[10] is ExcludeFromReports && steps[11]
        is StartService);
}

/// An uninstall: the service is stopped, and seen to have stopped, before it is deleted,
/// and it is deleted before its files are; the trays are closed before, too. It makes
/// nothing.
pub proof fn uninstalls_stop_before_they_delete(i: int, j: int)
    ensures
        ({
            let steps = uninstall_steps();
            &&& comes_first(steps, SetupStep::StopService, SetupStep::WaitStopped)
            &&& comes_first(steps, SetupStep::WaitStopped, SetupStep::DeleteService)
            &&& comes_first(steps, SetupStep::DeleteService, SetupStep::RemoveInstallDirectory)
            &&& comes_first(steps, SetupStep::CloseTrays, SetupStep::EndOtherInstances)
            &&& comes_first(steps, SetupStep::EndOtherInstances, SetupStep::RemoveInstallDirectory)
            &&& comes_first(steps, SetupStep::RemoveInstallDirectory, SetupStep::RemoveDataDirectory)
            &&& comes_first(steps, SetupStep::RemoveRunKey, SetupStep::RemoveInstallDirectory)
            &&& 0 <= i < j < steps.len() ==> steps[i] != steps[j]
            &&& 0 <= i < steps.len() ==> takes_away(steps[i]) || steps[i] is CloseTrays || steps[i]
                is EndOtherInstances || steps[i] is StopService || steps[i] is WaitStopped
        }),
{
    let steps = uninstall_steps();
    assert(steps[0] is RemoveRunKey && steps[1] is RemoveUninstallEntry && steps[2]
        is RemoveStartMenuShortcut && steps[3] is RemoveDesktopShortcut && steps[4]
        is IncludeInReports && steps[5] is CloseTrays && steps[6] is EndOtherInstances && steps[7]
        is StopService && steps[8] is WaitStopped && steps[9] is DeleteService && steps[10]
        is RemoveInstallDirectory && steps[11] is RemoveDataDirectory);
}

/// A step that failed ends the setup only where nothing was changed yet, or where the
/// program is not in its place: a service is never started without its program.
pub proof fn a_failed_copy_ends_the_setup(step: SetupStep, ok: bool)
    ensures
        setup_goes_on(step, true),
        !setup_goes_on(SetupStep::CheckHardware, false),
        !setup_goes_on(SetupStep::CopyProgram, false),
        !setup_goes_on(step, ok) ==> !ok && (step == update_steps()[5] || step == install_steps(
            Choices { run_at_startup: false, start_menu: false, desktop: false },
        )[0]),
{
}

/// Putting the program in its place, step by step: the old program is moved away only
/// after what an earlier run left is gone, the copy is made only into a directory that is
/// there, and it fails where the directory, the move or the copy does, and only there.
pub proof fn copies_fail_where_a_step_does(s: CopyStep, ok: bool)
    ensures
        copy_step(s, ok) is CheckExisting <==> s is CreateDirectory && ok,
        copy_step(s, ok) is RemoveStale <==> s is CheckExisting && ok,
        copy_step(s, ok) is RenameOld <==> s is RemoveStale,
        copy_step(s, ok) is CopyNew <==> (s is CheckExisting && !ok) || (s is RenameOld && ok),
        copy_step(s, ok) is RemoveOld <==> s is CopyNew && ok,
        copy_step(s, ok) is Done <==> s is RemoveOld || s is Done,
        copy_step(s, ok) is Failed <==> s is Failed || (!ok && (s is CreateDirectory || s
            is RenameOld || s is CopyNew)),
{
}

/// The waits for the service last ten seconds at most: they end as soon as it is as it
/// should be, and are given up only after that time.
pub proof fn waits_last_ten_seconds(looks: u32, state: Option<u32>)
    ensures
        RUNNING_CHECKS * RUNNING_WAIT_MS == 10_000,
        STOPPED_CHECKS * STOPPED_WAIT_MS == 10_000,
        poll_running(looks, state) is GaveUp <==> looks * RUNNING_WAIT_MS >= 10_000,
        poll_stopped(looks, state) is GaveUp <==> looks * STOPPED_WAIT_MS >= 10_000,
        poll_running(looks, state) is Reached ==> state == Some(4u32),
        poll_running(looks, Some(4)) is Again ==> false,
        poll_stopped(looks, state) is Reached ==> state is None || state == Some(1u32),
        poll_stopped(looks, Some(1)) is Again || poll_stopped(looks, None) is Again ==> false,
{
}

/// A service that runs is not started, and one that does not run is not stopped: what was
/// reached needs nothing more.
pub proof fn controls_are_sent_only_if_needed(state: Option<u32>)
    ensures
        start_needs(state) is Nothing <==> poll_running(0, state) is Reached,
        stop_needs(state) is Nothing <==> poll_stopped(0, state) is Reached,
        start_needs(state) is Send || stop_needs(state) is Send,
{
}

/// The tray is started only by a process that is not elevated: an update that runs
/// elevated ends without it, and one that is not waits for the elevated process and the
/// service first.
pub proof fn elevated_updates_start_no_tray(s: UpdateStep, ok: bool, running: bool)
    ensures
        update_after(s, ok) is EnsureTray <==> s is WaitForService,
        update_after(s, ok) is WaitForService <==> s is RunElevated && ok,
        update_after(s, ok) is RunElevated <==> s is CheckElevated && !ok,
        update_after(s, ok) is UpdateHere <==> s is CheckElevated && ok,
        !(update_after(s, ok) is CheckElevated),
        !starts_tray(true, running),
        starts_tray(false, running) != running,
{
}

/// A token that could not be read elevates nothing; the lock is taken only by a wait that
/// ended with it, and not by one that ended because the time was up or failed.
pub proof fn doubts_grant_nothing(opened: bool, queried: bool, elevated: u32, waited: u32)
    ensures
        token_elevated(opened, queried, elevated) ==> opened && queried && elevated != 0,
        elevated != 0 ==> token_elevated(true, true, elevated),
        !lock_taken(None),
        lock_taken(Some(waited)) <==> waited == 0 || waited == 0x80,
{
}

/// Which processes are ended: every one but this that is named like the program and whose
/// image is the installed one, and no other.
pub proof fn all_other_instances_are_ended(
    ps: Seq<Process>,
    own_pid: u32,
    installed: Seq<char>,
    n: int,
    k: int,
)
    requires
        0 <= k < n <= ps.len(),
    ensures
        other_instances(ps, own_pid, installed, n).contains(k) <==> {
            &&& ps[k].pid != own_pid
            &&& crate::text::same_ignoring_ascii_case(ps[k].name@, "hp-thermal.exe"@)
            &&& ps[k].path matches Some(path) && crate::text::same_ignoring_ascii_case(
                path@,
                installed,
            )
        },
    decreases n,
{
    let now = other_instances(ps, own_pid, installed, n);
    let before = other_instances(ps, own_pid, installed, n - 1);
    assert forall|x: int| now.contains(x) implies before.contains(x) || x == n - 1 by {
        let at = now.index_of(x);
        if at < before.len() {
            assert(before[at] == x);
        }
    }
    assert forall|x: int| before.contains(x) implies now.contains(x) by {
        assert(now[before.index_of(x)] == x);
    }
    if k < n - 1 {
        all_other_instances_are_ended(ps, own_pid, installed, n - 1, k);
    } else {
        if before.contains(k) {
            only_own_instances_are_ended(ps, own_pid, installed, n - 1, before.index_of(k));
        }
        if is_other_instance(ps[k], own_pid, installed) {
            assert(now.last() == k);
        }
    }
}

/// Whether the image is safe: a list that could not be read is not; one in which every
/// entry could be read, and each that allows anything to others is inherited only or
/// without a right to change, is; and a list stays safe or not whatever the administrators
/// may do.
pub proof fn others_must_not_change_the_image(aces: Seq<Ace>, i: int, mask: u32)
    requires
        0 <= i < aces.len(),
    ensures
        !is_restricted(None),
        !aces[i].readable ==> !is_restricted(Some(aces)),
        aces[i].privileged ==> (is_restricted(Some(aces)) <==> is_restricted(
            Some(aces.update(i, Ace { mask, ..aces[i] })),
        )),
        (forall|k: int|
            0 <= k < aces.len() ==> (#[trigger] aces[k]).readable && (aces[k].privileged || aces[k].kind
                != 0 || aces[k].flags & 0x08 != 0 || aces[k].mask & 0x500D_0006 == 0))
            ==> is_restricted(Some(aces)),
{
    let whole: Option<Seq<Ace>> = Some(aces);
    let changed = aces.update(i, Ace { mask, ..aces[i] });
    let other: Option<Seq<Ace>> = Some(changed);
    assert(whole->0[i] == aces[i]);
    if aces[i].privileged {
        if is_restricted(whole) {
            assert forall|k: int| 0 <= k < other->0.len() implies (#[trigger] other->0[k]).readable
                && (grants_write(other->0[k]) ==> other->0[k].privileged) by {
                assert(whole->0[k].readable);
            }
        }
        if is_restricted(other) {
            assert forall|k: int| 0 <= k < whole->0.len() implies (#[trigger] whole->0[k]).readable
                && (grants_write(whole->0[k]) ==> whole->0[k].privileged) by {
                assert(other->0[k].readable);
            }
        }
    }
}

/// A service is of this build where it answers with both bytes of this build; one that
/// does not answer is not, unless this is the installed program itself.
pub proof fn services_are_told_by_both_bytes(
    exe: Seq<char>,
    program_files: Seq<char>,
    answer: [u8; 2],
    own: [u8; 2],
)
    ensures
        ({
            let here = crate::text::same_ignoring_ascii_case(
                exe,
                crate::app::installed_exe_path(program_files),
            );
            &&& here ==> service_is_current(exe, program_files, None, own)
            &&& !here ==> !service_is_current(exe, program_files, None, own)
            &&& service_is_current(exe, program_files, Some(own), own)
            &&& !here && (answer[0] != own[0] || answer[1] != own[1]) ==> !service_is_current(
                exe,
                program_files,
                Some(answer),
                own,
            )
        }),
{
}

/// The elevated process that installs is given the command to install the service, and
/// then the choices, which arrive there as they were made.
pub proof fn elevated_installs_get_the_choices(c: Choices)
    ensures
        ({
            let args = crate::text::split(install_args_of(c), ' ');
            &&& crate::launch::command_of(args[0]) is InstallService
            &&& crate::onboarding::chosen(args.skip(1)) == c
        }),
{
    let flags = crate::onboarding::flags_of(c);
    let word = "--install-svc"@;
    let parts = seq![word] + flags;
    reveal_strlit("--install-svc");
    reveal_strlit("--install-svc ");
    reveal_strlit(" ");
    reveal_strlit("--startup");
    reveal_strlit("--start-menu");
    reveal_strlit("--desktop");
    crate::onboarding::flags_differ();
    crate::onboarding::args_round_trip(c);
    crate::launch::commands_have_their_words(word);
    assert(!word.contains(' '));
    assert forall|i: int| 0 <= i < parts.len() implies !(#[trigger] parts[i]).contains(' ') by {}
    crate::onboarding::spaced_splits(parts);
    assert(parts.skip(1) =~= flags);
    if flags.len() == 0 {
        reveal_with_fuel(crate::onboarding::spaced, 2);
        assert(crate::onboarding::spaced(flags) =~= Seq::empty());
        assert(parts =~= seq![word]);
        assert(crate::onboarding::spaced(parts) == word);
    } else {
        crate::onboarding::parts_stand_in_their_order(word, flags);
        flags_are_not_blank(flags);
        assert("--install-svc "@ =~= word + " "@);
        assert(install_args_of(c) =~= crate::onboarding::spaced(parts));
    }
}

proof fn flags_are_not_blank(flags: Seq<Seq<char>>)
    requires
        flags.len() > 0,
        forall|i: int| 0 <= i < flags.len() ==> (#[trigger] flags[i]).len() > 0,
    ensures
        crate::onboarding::spaced(flags).len() > 0,
    decreases flags.len(),
{
    if flags.len() > 1 {
        reveal_strlit(" ");
    } else {
        assert(flags[0].len() > 0);
    }
}

/// What the user starts or stops without the right to do so is done by the elevated
/// process: the argument it gets asks for the same.
pub proof fn elevated_controls_do_what_was_asked()
    ensures
        crate::launch::command_of(stop_argument()) is StopService,
        crate::launch::command_of(start_argument()) is StartService,
{
    crate::launch::commands_have_their_words(stop_argument());
    crate::launch::commands_have_their_words(start_argument());
}

/// The service is made under its name, starts by itself, and runs the installed program
/// with the argument that makes it the service.
pub proof fn services_run_the_installed_program(program_files: Seq<char>)
    ensures
        ({
            let args = create_args_of(program_files);
            let program = crate::app::installed_exe_path(program_files);
            let word = "--service"@;
            &&& args.len() == 5
            &&& args[0] == "create"@
            &&& args[1] == "HpThermalService"@
            &&& args[2] == "binPath=\""@ + program + "\" "@ + word
            &&& crate::launch::command_of(word) is Service
            &&& args[3] == "start=auto"@
        }),
{
    reveal_strlit("\" --service");
    reveal_strlit("\" ");
    reveal_strlit("--service");
    let program = crate::app::installed_exe_path(program_files);
    assert("\" --service"@ =~= "\" "@ + "--service"@);
    assert("binPath=\""@ + program + "\" --service"@ =~= "binPath=\""@ + program + "\" "@
        + "--service"@);
    crate::launch::commands_have_their_words("--service"@);
}

/// The command in the list of installed apps runs the installed program, in quotes, with
/// the argument that uninstalls.
pub proof fn apps_are_uninstalled_by_their_own_program(program_files: Seq<char>)
    ensures
        uninstall_command_of(program_files) == "\""@ + crate::app::installed_exe_path(program_files)
            + "\" "@ + "uninstall"@,
        crate::launch::command_of("uninstall"@) is Uninstall,
{
    reveal_strlit("\" uninstall");
    reveal_strlit("\" ");
    reveal_strlit("uninstall");
    let program = crate::app::installed_exe_path(program_files);
    assert("\" uninstall"@ =~= "\" "@ + "uninstall"@);
    assert(uninstall_command_of(program_files) =~= "\""@ + program + "\" "@ + "uninstall"@);
    crate::launch::commands_have_their_words("uninstall"@);
}

/// The entry among the installed apps carries the version, the publisher, where the
/// program is and how it is removed, and its size in whole KB.
pub proof fn entries_tell_what_is_installed(
    program_files: Seq<char>,
    version: Seq<char>,
    publisher: Seq<char>,
    bytes: u64,
    name: Seq<char>,
    value: RegValueView,
)
    requires
        bytes < 0x400_0000_0000,
        uninstall_entry_of(program_files, version, publisher, Some(bytes)).contains((name, value)),
    ensures
        name == "DisplayVersion"@ ==> value == RegValueView::Text(version),
        name == "Publisher"@ ==> value == RegValueView::Text(publisher),
        name == "InstallLocation"@ ==> value == RegValueView::Text(
            crate::app::app_dir(program_files),
        ),
        name == "UninstallString"@ ==> value == RegValueView::Text(
            uninstall_command_of(program_files),
        ),
        name == "EstimatedSize"@ ==> (value matches RegValueView::Number(kb) && kb * 1024 <= bytes
            < (kb + 1) * 1024),
        name == "NoModify"@ || name == "NoRepair"@ ==> value == RegValueView::Number(1),
{
    reveal_strlit("DisplayName");
    reveal_strlit("DisplayVersion");
    reveal_strlit("Publisher");
    reveal_strlit("InstallLocation");
    reveal_strlit("DisplayIcon");
    reveal_strlit("UninstallString");
    reveal_strlit("EstimatedSize");
    reveal_strlit("NoModify");
    reveal_strlit("NoRepair");
    assert("DisplayName"@.len() == 11);
    assert("DisplayVersion"@.len() == 14);
    assert("Publisher"@.len() == 9);
    assert("InstallLocation"@.len() == 15);
    assert("InstallLocation"@[0] == 'I');
    assert("DisplayIcon"@.len() == 11);
    assert("UninstallString"@.len() == 15);
    assert("UninstallString"@[0] == 'U');
    assert("EstimatedSize"@.len() == 13);
    assert("NoModify"@.len() == 8);
    assert("NoRepair"@.len() == 8);
    let entry = uninstall_entry_of(program_files, version, publisher, Some(bytes));
    let i = choose|i: int| 0 <= i < entry.len() && entry[i] == (name, value);
    assert(bytes / 1024 < 0x1_0000_0000);
}

/// A version that was stored with a zero at its end is read back as it was; where the
/// query failed there is none. Versions with white space or zeros at an end are left out.
pub proof fn stored_versions_are_read_back(version: Seq<char>, ok: bool, size: u32, buf: Seq<u16>)
    requires
        version.len() > 0,
        version.last() != '\0',
        !crate::text::is_space(version[0]),
        !crate::text::is_space(version.last()),
        ({
            let stored = crate::wide::utf16(version).push(0);
            &&& stored.len() <= buf.len()
            &&& buf.take(stored.len() as int) == stored
            &&& size == 2 * stored.len()
        }),
    ensures
        version_read(ok, size, buf) == if ok {
            Some(version)
        } else {
            None
        },
{
    let stored = crate::wide::utf16(version).push(0);
    let zero = seq!['\0'];
    crate::wide::texts_are_encoded_in_their_order(version, zero);
    assert(zero.drop_last() =~= Seq::<char>::empty());
    reveal_with_fuel(crate::wide::utf16, 2);
    assert(crate::wide::utf16(zero) =~= seq![0u16]);
    assert(stored =~= crate::wide::utf16(version + zero));
    crate::wide::utf16_round_trips(version + zero);
    assert((version + zero).drop_last() =~= version);
    reveal_with_fuel(without_zeros, 3);
    assert(without_zeros(version + zero) == version);
    let none = Seq::<char>::empty();
    crate::text::trimming_cuts_white_space(none, version, none);
    assert(none + version + none =~= version);
}

/// A service that is stopped, or not there, is down; one that runs is up; in any other
/// state it is neither. A process is gone only where the wait for it says so.
pub proof fn states_are_told_apart(state: Option<u32>, waited: u32)
    ensures
        is_down(state) <==> state is None || state == Some(1u32),
        is_up(state) <==> state == Some(4u32),
        !(is_up(state) && is_down(state)),
        lingers(waited) <==> waited != 0,
{
}

/// What lies in the system directory is named in full, and only where the directory is
/// known whole: one that is empty, or did not fit, names nothing.
pub proof fn system_files_are_named_in_full(dir: Seq<char>, rest: Seq<u16>, name: Seq<char>)
    requires
        dir.len() > 0,
        rest.len() > 0,
    ensures
        ({
            let units = crate::wide::utf16(dir);
            &&& in_system_directory(units + rest, units.len() as int, name) == Some(
                dir + "\\"@ + name,
            )
            &&& in_system_directory(units, units.len() as int, name) is None
            &&& in_system_directory(units + rest, 0, name) is None
        }),
{
    let units = crate::wide::utf16(dir);
    assert((units + rest).take(units.len() as int) =~= units);
    crate::wide::utf16_round_trips(dir);
    assert(units.len() > 0);
}

/// An update never notes a failure as a success: where the copy or the start failed it
/// says so, and where they did not it says nothing of the kind.
pub proof fn failures_are_noted(why: Seq<char>)
    ensures
        note_of(SetupStep::CopyProgram, None) == Some("copy succeeded"@),
        note_of(SetupStep::CopyProgram, Some(why)) == Some("COPY FAILED: "@ + why),
        note_of(SetupStep::StartService, None) == Some("service start requested"@),
        note_of(SetupStep::StartService, Some(why)) == Some("service start FAILED"@),
        note_of(SetupStep::EnsureDataDirectory, None) is None,
        note_of(SetupStep::EnsureDataDirectory, Some(why)) is Some,
        note_of(SetupStep::CopyProgram, None) != note_of(SetupStep::CopyProgram, Some(why)),
        note_of(SetupStep::StartService, None) != note_of(SetupStep::StartService, Some(why)),
{
    reveal_strlit("copy succeeded");
    reveal_strlit("COPY FAILED: ");
    reveal_strlit("service start requested");
    reveal_strlit("service start FAILED");
    assert("copy succeeded"@[0] == 'c');
    assert(("COPY FAILED: "@ + why)[0] == 'C');
    assert("service start requested"@.len() == 23);
    assert("service start FAILED"@.len() == 20);
}

/// A program of the same name in another place does not run as installed, nor does one of
/// another name in the same place, nor one that cannot be resolved.
pub proof fn only_the_installed_program_runs_as_installed(
    dir: Seq<char>,
    name: Seq<char>,
    other: Seq<char>,
)
    requires
        crate::path::is_on_drive(dir),
        crate::path::is_plain_name(name),
        crate::path::is_plain_name(other),
    ensures
        ({
            let installed = dir + seq!['\\'] + name;
            let elsewhere = dir + seq!['\\'] + other;
            &&& runs_as_installed(Some(installed), Some(installed))
            &&& runs_as_installed(Some(elsewhere), Some(installed)) <==> other == name
            &&& !runs_as_installed(Some(elsewhere + seq!['\\'] + name), Some(installed))
            &&& !runs_as_installed(None, Some(installed))
            &&& !runs_as_installed(Some(installed), None)
        }),
{
    let elsewhere = dir + seq!['\\'] + other;
    crate::path::siblings_are_told_by_their_names(dir, other, name, name);
    crate::path::names_stand_below_their_directory(dir, name);
    crate::path::names_stand_below_their_directory(dir, other);
    assert(crate::path::is_on_drive(elsewhere)) by {
        assert(elsewhere[0] == dir[0] && elsewhere[1] == dir[1] && elsewhere[2] == dir[2]);
    }
    crate::path::names_stand_below_their_directory(elsewhere, name);
}

/// A shortcut lies in its folder and is called after the application.
pub proof fn shortcuts_lie_in_their_folder(folder: Seq<char>)
    requires
        crate::path::is_on_drive(folder),
    ensures
        crate::path::components(shortcut_in(folder)) == crate::path::components(folder).push(
            crate::path::Component::Name("HP Thermal Control.lnk"@),
        ),
{
    reveal_strlit("\\");
    reveal_strlit("HP Thermal Control");
    reveal_strlit(".lnk");
    reveal_strlit("HP Thermal Control.lnk");
    let name = "HP Thermal Control.lnk"@;
    assert(name.len() == 22);
    assert(seq!['.'].len() == 1);
    assert("HP Thermal Control"@ + ".lnk"@ =~= name);
    assert(shortcut_in(folder) =~= folder + seq!['\\'] + name);
    crate::path::names_stand_below_their_directory(folder, name);
}

/// Who holds a file is told by the number of the process, its name and its kind, with the
/// sign of the latter.
pub proof fn lockers_are_told(pid: u32, name: Seq<char>, kind: i32)
    ensures
        kind >= 0 ==> locker_of(pid, name, kind) == "PID "@ + crate::text::decimal(pid as int)
            + ": "@ + name + " (type="@ + crate::text::decimal(kind as int) + ")"@,
        kind < 0 ==> locker_of(pid, name, kind) == "PID "@ + crate::text::decimal(pid as int)
            + ": "@ + name + " (type="@ + ("-"@ + crate::text::decimal(-(kind as int))) + ")"@,
{
}

/// A list for the registry grows by a text in UTF-16 and a zero at a time.
pub proof fn lists_grow_text_by_text(names: Seq<&'static str>, next: &'static str)
    ensures
        multi_units(names.push(next)) == multi_units(names) + crate::wide::utf16(next@) + seq![0u16],
        multi_units(Seq::empty()).len() == 0,
{
    assert(names.push(next).drop_last() =~= names);
    assert(multi_units(names.push(next)) =~= multi_units(names) + crate::wide::utf16(next@) + seq![
        0u16,
    ]);
}

} // verus!
