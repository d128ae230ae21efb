//! What the command line asks for, and the course of a start.

use vstd::prelude::*;
use vstd::string::*;

use crate::app::{Build, BIN_NAME, NAME};
use crate::consent::Consent;
use crate::hwinfo::HwInfo;
use crate::onboarding::Choices;
use crate::text::{chars_of, same_chars};
use crate::win_harden::Role;

verus! {

/// What the program is asked to do.
#[derive(Clone, Copy, PartialEq, Eq, Structural, Debug)]
pub enum Command {
    /// Run as the service.
    Service,
    Install,
    /// Install the service, as the elevated process.
    InstallService,
    /// Update the service, as the elevated process.
    UpdateService,
    StopService,
    StartService,
    Stop,
    Start,
    Uninstall,
    PreviewOnboarding,
    Help,
    Version,
    /// Run as the tray, or set things up for it.
    Run,
    /// Leave at once: the tray must not run elevated.
    Refuse,
    /// Not understood.
    Unknown,
}

/// The command that an argument stands for.
pub open spec fn command_of(arg: Seq<char>) -> Command {
    if arg == "--service"@ {
        Command::Service
    } else if arg == "install"@ || arg == "--install"@ {
        Command::Install
    } else if arg == "--install-svc"@ {
        Command::InstallService
    } else if arg == "--update-svc"@ {
        Command::UpdateService
    } else if arg == "--stop-svc"@ {
        Command::StopService
    } else if arg == "--start-svc"@ {
        Command::StartService
    } else if arg == "stop"@ || arg == "--stop"@ {
        Command::Stop
    } else if arg == "start"@ || arg == "--start"@ {
        Command::Start
    } else if arg == "uninstall"@ || arg == "--uninstall"@ {
        Command::Uninstall
    } else if arg == "--preview-onboarding"@ {
        Command::PreviewOnboarding
    } else if arg == "--help"@ || arg == "-h"@ || arg == "help"@ {
        Command::Help
    } else if arg == "--version"@ || arg == "-v"@ || arg == "-V"@ {
        Command::Version
    } else {
        Command::Unknown
    }
}

fn is(arg: &[char], name: &str) -> (r: bool)
    ensures
        r == (arg@ == name@),
{
    let chars = chars_of(name);
    same_chars(arg, chars.as_slice())
}

fn parse(arg: &str) -> (c: Command)
    ensures
        c == command_of(arg@),
{
    let chars = chars_of(arg);
    let a = chars.as_slice();
    if is(a, "--service") {
        Command::Service
    } else if is(a, "install") || is(a, "--install") {
        Command::Install
    } else if is(a, "--install-svc") {
        Command::InstallService
    } else if is(a, "--update-svc") {
        Command::UpdateService
    } else if is(a, "--stop-svc") {
        Command::StopService
    } else if is(a, "--start-svc") {
        Command::StartService
    } else if is(a, "stop") || is(a, "--stop") {
        Command::Stop
    } else if is(a, "start") || is(a, "--start") {
        Command::Start
    } else if is(a, "uninstall") || is(a, "--uninstall") {
        Command::Uninstall
    } else if is(a, "--preview-onboarding") {
        Command::PreviewOnboarding
    } else if is(a, "--help") || is(a, "-h") || is(a, "help") {
        Command::Help
    } else if is(a, "--version") || is(a, "-v") || is(a, "-V") {
        Command::Version
    } else {
        Command::Unknown
    }
}

/// What the first argument asks for. Without one the program is the tray, which
/// refuses to run elevated.
pub open spec fn asked_for(arg: Option<Seq<char>>, elevated: bool) -> Command {
    match arg {
        Some(a) => command_of(a),
        None => if elevated {
            Command::Refuse
        } else {
            Command::Run
        },
    }
}

/// What the first argument asks for.
pub fn command(arg: Option<&str>, elevated: bool) -> (c: Command)
    ensures
        c == asked_for(
            match arg {
                Some(a) => Some(a@),
                None => None,
            },
            elevated,
        ),
{
    match arg {
        Some(a) => parse(a),
        None => if elevated {
            Command::Refuse
        } else {
            Command::Run
        },
    }
}

/// The role that a command runs in; none for one that is refused.
pub open spec fn role_of(c: Command) -> Option<Role> {
    match c {
        Command::Service => Some(Role::Service),
        Command::Run => Some(Role::Tray),
        Command::InstallService => Some(Role::ElevatedSetup),
        Command::UpdateService => Some(Role::ElevatedSetup),
        Command::Help => Some(Role::TextOnly),
        Command::Version => Some(Role::TextOnly),
        Command::Unknown => Some(Role::TextOnly),
        Command::Refuse => None,
        _ => Some(Role::Launcher),
    }
}

/// The role that a command runs in.
pub fn role(c: Command) -> (r: Option<Role>)
    ensures
        r == role_of(c),
{
    match c {
        Command::Service => Some(Role::Service),
        Command::Run => Some(Role::Tray),
        Command::InstallService | Command::UpdateService => Some(Role::ElevatedSetup),
        Command::Help | Command::Version | Command::Unknown => Some(Role::TextOnly),
        Command::Refuse => None,
        _ => Some(Role::Launcher),
    }
}

/// The answer to a step of a start: what was asked holds or succeeded, or not.
/// A prompt that asks again because of new firmware is a third answer.
#[derive(Clone, Copy, PartialEq, Eq, Structural, Debug)]
pub enum Answer {
    Yes,
    No,
    FirmwareChanged,
}

/// The answer that a decision on the hardware amounts to.
pub open spec fn answer_by(c: Consent) -> Answer {
    match c {
        Consent::Trusted => Answer::Yes,
        Consent::NeedsPrompt { firmware_changed } => if firmware_changed {
            Answer::FirmwareChanged
        } else {
            Answer::No
        },
    }
}

/// The answer that a decision on the hardware amounts to.
pub fn consent_answer(c: Consent) -> (a: Answer)
    ensures
        a == answer_by(c),
{
    match c {
        Consent::Trusted => Answer::Yes,
        Consent::NeedsPrompt { firmware_changed } => if firmware_changed {
            Answer::FirmwareChanged
        } else {
            Answer::No
        },
    }
}

/// A step of a start without arguments.
#[derive(Clone, Copy, PartialEq, Eq, Structural, Debug)]
pub enum RunStep {
    /// Is the machine one of HP's?
    CheckHardware,
    ShowUnsupported,
    /// Is the hardware trusted?
    CheckConsent,
    /// Ask whether to enable the tool on hardware that was never accepted.
    AskConsent,
    /// Ask whether to keep it enabled on new firmware.
    AskConsentAgain,
    RecordAcceptance,
    /// Does the program run from its install directory?
    CheckInstalledCopy,
    /// From the install directory: is the service installed?
    CheckService,
    /// Is the service running?
    CheckRunning,
    AskStart,
    LockForStart,
    StartService,
    AskRepair,
    LockForRepair,
    Repair,
    WaitForService,
    ShowServiceFailed,
    /// Become the tray.
    RunTray,
    /// From elsewhere: is the service installed?
    SetupCheckService,
    SetupAskInstall,
    SetupLockForInstall,
    SetupInstall,
    SetupWaitForService,
    SetupShowServiceFailed,
    /// Is the installed program the same as this one?
    SetupCheckCurrent,
    SetupAskUpdate,
    SetupLockForUpdate,
    SetupUpdate,
    SetupShowUpToDate,
    /// Start the installed tray.
    SetupEnsureTray,
    /// Another setup holds the lock.
    WarnBusy,
    Done,
}

/// The step that follows where the answer is yes, or where the step asks nothing.
pub open spec fn after_yes(s: RunStep) -> RunStep {
    match s {
        RunStep::CheckHardware => RunStep::CheckConsent,
        RunStep::CheckConsent => RunStep::CheckInstalledCopy,
        RunStep::AskConsent => RunStep::RecordAcceptance,
        RunStep::AskConsentAgain => RunStep::RecordAcceptance,
        RunStep::RecordAcceptance => RunStep::CheckInstalledCopy,
        RunStep::CheckInstalledCopy => RunStep::CheckService,
        RunStep::CheckService => RunStep::CheckRunning,
        RunStep::CheckRunning => RunStep::RunTray,
        RunStep::AskStart => RunStep::LockForStart,
        RunStep::LockForStart => RunStep::StartService,
        RunStep::StartService => RunStep::WaitForService,
        RunStep::AskRepair => RunStep::LockForRepair,
        RunStep::LockForRepair => RunStep::Repair,
        RunStep::Repair => RunStep::WaitForService,
        RunStep::WaitForService => RunStep::RunTray,
        RunStep::SetupCheckService => RunStep::SetupCheckCurrent,
        RunStep::SetupAskInstall => RunStep::SetupLockForInstall,
        RunStep::SetupLockForInstall => RunStep::SetupInstall,
        RunStep::SetupInstall => RunStep::SetupWaitForService,
        RunStep::SetupWaitForService => RunStep::SetupEnsureTray,
        RunStep::SetupCheckCurrent => RunStep::SetupShowUpToDate,
        RunStep::SetupAskUpdate => RunStep::SetupLockForUpdate,
        RunStep::SetupLockForUpdate => RunStep::SetupUpdate,
        RunStep::SetupShowUpToDate => RunStep::SetupEnsureTray,
        _ => RunStep::Done,
    }
}

/// The step that follows where the answer is no.
pub open spec fn after_no(s: RunStep) -> RunStep {
    match s {
        RunStep::CheckHardware => RunStep::ShowUnsupported,
        RunStep::CheckConsent => RunStep::AskConsent,
        RunStep::CheckInstalledCopy => RunStep::SetupCheckService,
        RunStep::CheckService => RunStep::AskRepair,
        RunStep::CheckRunning => RunStep::AskStart,
        RunStep::LockForStart => RunStep::WarnBusy,
        RunStep::LockForRepair => RunStep::WarnBusy,
        RunStep::WaitForService => RunStep::ShowServiceFailed,
        RunStep::SetupCheckService => RunStep::SetupAskInstall,
        RunStep::SetupLockForInstall => RunStep::WarnBusy,
        RunStep::SetupWaitForService => RunStep::SetupShowServiceFailed,
        RunStep::SetupCheckCurrent => RunStep::SetupAskUpdate,
        RunStep::SetupLockForUpdate => RunStep::WarnBusy,
        RunStep::RecordAcceptance => after_yes(s),
        RunStep::StartService => after_yes(s),
        RunStep::Repair => after_yes(s),
        RunStep::SetupInstall => after_yes(s),
        RunStep::SetupShowUpToDate => after_yes(s),
        _ => RunStep::Done,
    }
}

/// The step that follows.
pub open spec fn run_step(s: RunStep, a: Answer) -> RunStep {
    match a {
        Answer::Yes => after_yes(s),
        Answer::No => after_no(s),
        Answer::FirmwareChanged => if s is CheckConsent {
            RunStep::AskConsentAgain
        } else {
            after_no(s)
        },
    }
}

fn next_after_yes(s: RunStep) -> (n: RunStep)
    ensures
        n == after_yes(s),
{
    match s {
        RunStep::CheckHardware => RunStep::CheckConsent,
        RunStep::CheckConsent | RunStep::RecordAcceptance => RunStep::CheckInstalledCopy,
        RunStep::AskConsent | RunStep::AskConsentAgain => RunStep::RecordAcceptance,
        RunStep::CheckInstalledCopy => RunStep::CheckService,
        RunStep::CheckService => RunStep::CheckRunning,
        RunStep::CheckRunning | RunStep::WaitForService => RunStep::RunTray,
        RunStep::AskStart => RunStep::LockForStart,
        RunStep::LockForStart => RunStep::StartService,
        RunStep::StartService | RunStep::Repair => RunStep::WaitForService,
        RunStep::AskRepair => RunStep::LockForRepair,
        RunStep::LockForRepair => RunStep::Repair,
        RunStep::SetupCheckService => RunStep::SetupCheckCurrent,
        RunStep::SetupAskInstall => RunStep::SetupLockForInstall,
        RunStep::SetupLockForInstall => RunStep::SetupInstall,
        RunStep::SetupInstall => RunStep::SetupWaitForService,
        RunStep::SetupWaitForService | RunStep::SetupShowUpToDate => RunStep::SetupEnsureTray,
        RunStep::SetupCheckCurrent => RunStep::SetupShowUpToDate,
        RunStep::SetupAskUpdate => RunStep::SetupLockForUpdate,
        RunStep::SetupLockForUpdate => RunStep::SetupUpdate,
        _ => RunStep::Done,
    }
}

/// The step that follows, by the answer to this one.
pub fn default_run(s: RunStep, a: Answer) -> (n: RunStep)
    ensures
        n == run_step(s, a),
{
    if a == Answer::Yes {
        return next_after_yes(s);
    }
    match s {
        RunStep::CheckHardware => RunStep::ShowUnsupported,
        RunStep::CheckConsent => if a == Answer::FirmwareChanged {
            RunStep::AskConsentAgain
        } else {
            RunStep::AskConsent
        },
        RunStep::CheckInstalledCopy => RunStep::SetupCheckService,
        RunStep::CheckService => RunStep::AskRepair,
        RunStep::CheckRunning => RunStep::AskStart,
        RunStep::LockForStart | RunStep::LockForRepair | RunStep::SetupLockForInstall
        | RunStep::SetupLockForUpdate => RunStep::WarnBusy,
        RunStep::WaitForService => RunStep::ShowServiceFailed,
        RunStep::SetupCheckService => RunStep::SetupAskInstall,
        RunStep::SetupWaitForService => RunStep::SetupShowServiceFailed,
        RunStep::SetupCheckCurrent => RunStep::SetupAskUpdate,
        RunStep::RecordAcceptance | RunStep::StartService | RunStep::Repair
        | RunStep::SetupInstall | RunStep::SetupShowUpToDate => next_after_yes(s),
        _ => RunStep::Done,
    }
}

/// Where a start stands after a sequence of answers.
pub open spec fn came_to(answers: Seq<Answer>) -> RunStep
    decreases answers.len(),
{
    if answers.len() == 0 {
        RunStep::CheckHardware
    } else {
        run_step(came_to(answers.drop_last()), answers.last())
    }
}

/// Steps of a program that does not run from its install directory.
pub open spec fn is_setup(s: RunStep) -> bool {
    match s {
        RunStep::SetupCheckService => true,
        RunStep::SetupAskInstall => true,
        RunStep::SetupLockForInstall => true,
        RunStep::SetupInstall => true,
        RunStep::SetupWaitForService => true,
        RunStep::SetupShowServiceFailed => true,
        RunStep::SetupCheckCurrent => true,
        RunStep::SetupAskUpdate => true,
        RunStep::SetupLockForUpdate => true,
        RunStep::SetupUpdate => true,
        RunStep::SetupShowUpToDate => true,
        RunStep::SetupEnsureTray => true,
        _ => false,
    }
}

/// Steps that change the system.
pub open spec fn changes_system(s: RunStep) -> bool {
    s is StartService || s is Repair || s is SetupInstall || s is SetupUpdate
}

/// Steps that take the lock of the setup.
pub open spec fn takes_lock(s: RunStep) -> bool {
    s is LockForStart || s is LockForRepair || s is SetupLockForInstall || s is SetupLockForUpdate
}

/// Nothing is changed without the lock, and the lock is taken only after the user
/// has agreed.
pub proof fn changes_need_the_lock(s: RunStep, a: Answer)
    ensures
        changes_system(run_step(s, a)) ==> takes_lock(s) && a is Yes,
        takes_lock(run_step(s, a)) ==> (s is AskStart || s is AskRepair || s is SetupAskInstall
            || s is SetupAskUpdate) && a is Yes,
{
}

/// On hardware that is not HP's nothing happens but a message.
pub proof fn other_hardware_is_turned_away(answers: Seq<Answer>)
    requires
        answers.len() > 0,
        !(answers[0] is Yes),
    ensures
        came_to(answers) is ShowUnsupported || came_to(answers) is Done,
    decreases answers.len(),
{
    let before = answers.drop_last();
    if before.len() == 0 {
        assert(came_to(before) is CheckHardware);
    } else {
        assert(before[0] == answers[0]);
        other_hardware_is_turned_away(before);
    }
}

/// Hardware that is neither trusted nor accepted gets no further than the question:
/// where the check of the hardware did not say yes, and the user did not either,
/// nothing is recorded, set up or run.
pub proof fn untrusted_hardware_needs_acceptance(answers: Seq<Answer>)
    requires
        answers.len() >= 2 ==> !(answers[1] is Yes),
        answers.len() >= 3 ==> !(answers[2] is Yes),
    ensures
        match came_to(answers) {
            RunStep::CheckHardware => answers.len() == 0,
            RunStep::ShowUnsupported => answers.len() == 1,
            RunStep::CheckConsent => answers.len() == 1,
            RunStep::AskConsent => answers.len() == 2,
            RunStep::AskConsentAgain => answers.len() == 2,
            RunStep::Done => answers.len() >= 2,
            _ => false,
        },
    decreases answers.len(),
{
    if answers.len() > 0 {
        untrusted_hardware_needs_acceptance(answers.drop_last());
    }
}

/// A program that does not run from its install directory never becomes the tray.
pub proof fn setup_never_runs_the_tray(s: RunStep, a: Answer)
    requires
        is_setup(s) || s is WarnBusy || s is Done,
    ensures
        is_setup(run_step(s, a)) || run_step(s, a) is WarnBusy || run_step(s, a) is Done,
        !(run_step(s, a) is RunTray),
{
}

/// A question to the user that is not answered with yes ends the start.
pub proof fn declining_ends_the_start(s: RunStep, a: Answer)
    requires
        s is AskConsent || s is AskConsentAgain || s is AskStart || s is AskRepair
            || s is SetupAskInstall || s is SetupAskUpdate,
        !(a is Yes),
    ensures
        run_step(s, a) is Done,
{
}

/// A step of the command that installs.
#[derive(Clone, Copy, PartialEq, Eq, Structural, Debug)]
pub enum InstallStep {
    CheckHardware,
    ShowUnsupported,
    /// Is the service installed already?
    CheckService,
    LockForUpdate,
    Update,
    AskInstall,
    LockForInstall,
    Install,
    /// Is this process elevated? Nothing is left to wait for if it is.
    CheckElevated,
    WaitForService,
    EnsureTray,
    WarnBusy,
    Done,
}

/// The step that follows.
pub open spec fn install_step(s: InstallStep, ok: bool) -> InstallStep {
    match s {
        InstallStep::CheckHardware => if ok {
            InstallStep::CheckService
        } else {
            InstallStep::ShowUnsupported
        },
        InstallStep::CheckService => if ok {
            InstallStep::LockForUpdate
        } else {
            InstallStep::AskInstall
        },
        InstallStep::LockForUpdate => if ok {
            InstallStep::Update
        } else {
            InstallStep::WarnBusy
        },
        InstallStep::AskInstall => if ok {
            InstallStep::LockForInstall
        } else {
            InstallStep::Done
        },
        InstallStep::LockForInstall => if ok {
            InstallStep::Install
        } else {
            InstallStep::WarnBusy
        },
        InstallStep::Install => InstallStep::CheckElevated,
        InstallStep::CheckElevated => if ok {
            InstallStep::EnsureTray
        } else {
            InstallStep::WaitForService
        },
        InstallStep::WaitForService => if ok {
            InstallStep::EnsureTray
        } else {
            InstallStep::Done
        },
        _ => InstallStep::Done,
    }
}

/// The step of the command that installs that follows.
pub fn install_next(s: InstallStep, ok: bool) -> (n: InstallStep)
    ensures
        n == install_step(s, ok),
{
    match s {
        InstallStep::CheckHardware => if ok {
            InstallStep::CheckService
        } else {
            InstallStep::ShowUnsupported
        },
        InstallStep::CheckService => if ok {
            InstallStep::LockForUpdate
        } else {
            InstallStep::AskInstall
        },
        InstallStep::LockForUpdate => if ok {
            InstallStep::Update
        } else {
            InstallStep::WarnBusy
        },
        InstallStep::AskInstall => if ok {
            InstallStep::LockForInstall
        } else {
            InstallStep::Done
        },
        InstallStep::LockForInstall => if ok {
            InstallStep::Install
        } else {
            InstallStep::WarnBusy
        },
        InstallStep::Install => InstallStep::CheckElevated,
        InstallStep::CheckElevated => if ok {
            InstallStep::EnsureTray
        } else {
            InstallStep::WaitForService
        },
        InstallStep::WaitForService => if ok {
            InstallStep::EnsureTray
        } else {
            InstallStep::Done
        },
        _ => InstallStep::Done,
    }
}

/// A step of a command that changes the service: start, stop, uninstall.
#[derive(Clone, Copy, PartialEq, Eq, Structural, Debug)]
pub enum GuardedStep {
    CheckHardware,
    ShowUnsupported,
    Lock,
    Operate,
    WarnBusy,
    Done,
}

/// The step that follows.
pub open spec fn guarded_step(s: GuardedStep, ok: bool) -> GuardedStep {
    match s {
        GuardedStep::CheckHardware => if ok {
            GuardedStep::Lock
        } else {
            GuardedStep::ShowUnsupported
        },
        GuardedStep::Lock => if ok {
            GuardedStep::Operate
        } else {
            GuardedStep::WarnBusy
        },
        _ => GuardedStep::Done,
    }
}

/// The step that follows in a command that changes the service: the hardware comes
/// first, the lock second, and the change last.
pub fn guarded_setup(s: GuardedStep, ok: bool) -> (n: GuardedStep)
    ensures
        n == guarded_step(s, ok),
{
    match s {
        GuardedStep::CheckHardware => if ok {
            GuardedStep::Lock
        } else {
            GuardedStep::ShowUnsupported
        },
        GuardedStep::Lock => if ok {
            GuardedStep::Operate
        } else {
            GuardedStep::WarnBusy
        },
        _ => GuardedStep::Done,
    }
}

/// Commands that install, update, start, stop or uninstall go ahead only on HP's
/// hardware and with the lock.
pub proof fn guarded_changes_need_hardware_and_lock(
    s: GuardedStep,
    a: bool,
    b: bool,
    t: InstallStep,
)
    ensures
        guarded_step(guarded_step(s, a), b) is Operate ==> s is CheckHardware && a && b,
        install_step(t, a) is Install ==> t is LockForInstall && a,
        install_step(t, a) is Update ==> t is LockForUpdate && a,
        install_step(t, a) is CheckService ==> t is CheckHardware && a,
{
}

/// What is said where the machine is not one of HP's.
pub open spec fn unsupported_text_of(hw: HwInfo) -> Seq<char> {
    "This app requires an HP laptop.\n\nDetected hardware:\n  Manufacturer: "@ + hw.manufacturer@
        + "\n  Model: "@ + hw.product@ + "\n\nYour hardware is not supported."@
}

/// What is said where the machine is not one of HP's.
pub fn unsupported_text(hw: &HwInfo) -> (out: String)
    ensures
        out@ == unsupported_text_of(*hw),
{
    let mut out: String =
        "This app requires an HP laptop.\n\nDetected hardware:\n  Manufacturer: ".to_owned();
    out.append(hw.manufacturer.as_str());
    out.append("\n  Model: ");
    out.append(hw.product.as_str());
    out.append("\n\nYour hardware is not supported.");
    out
}

/// What the user is asked where the hardware is not trusted.
pub open spec fn consent_text_of(hw: HwInfo, firmware_changed: bool) -> Seq<char> {
    if firmware_changed {
        "The system firmware has changed since you enabled "@ + NAME@
            + " on this machine (board "@ + hw.board@ + ", BIOS "@ + hw.bios_version@
            + ").\n\nThermal control uses an undocumented HP interface that firmware updates can change without notice. Re-confirm that you want to keep it enabled?"@
    } else {
        NAME@
            + " was validated by its developers only on the HP ENVY 16 (board 8BE5).\n\nYour hardware (board "@
            + hw.board@ + ", BIOS "@ + hw.bios_version@
            + ") is community-untested. Thermal control uses an undocumented HP interface and may not work, or may behave differently, on your model.\n\nEnable thermal control on this machine anyway?"@
    }
}

/// What the user is asked where the hardware is not trusted.
pub fn consent_text(hw: &HwInfo, firmware_changed: bool) -> (out: String)
    ensures
        out@ == consent_text_of(*hw, firmware_changed),
{
    if firmware_changed {
        let mut out: String = "The system firmware has changed since you enabled ".to_owned();
        out.append(NAME);
        out.append(" on this machine (board ");
        out.append(hw.board.as_str());
        out.append(", BIOS ");
        out.append(hw.bios_version.as_str());
        out.append(
            ").\n\nThermal control uses an undocumented HP interface that firmware updates can change without notice. Re-confirm that you want to keep it enabled?",
        );
        out
    } else {
        let mut out: String = NAME.to_owned();
        out.append(
            " was validated by its developers only on the HP ENVY 16 (board 8BE5).\n\nYour hardware (board ",
        );
        out.append(hw.board.as_str());
        out.append(", BIOS ");
        out.append(hw.bios_version.as_str());
        out.append(
            ") is community-untested. Thermal control uses an undocumented HP interface and may not work, or may behave differently, on your model.\n\nEnable thermal control on this machine anyway?",
        );
        out
    }
}

/// What the user is asked before an update: from which version to which, where the
/// installed one is known and another.
pub open spec fn update_text_of(installed: Option<Seq<char>>, version: Seq<char>) -> Seq<char> {
    (if installed is Some && installed->0 != version {
        "Update from v"@ + installed->0 + " to v"@ + version + "?"@
    } else {
        "Reinstall "@ + NAME@ + " v"@ + version + "?"@
    })
        + "\n\nThis replaces the background service.\nYour settings and shortcuts are kept."@
}

/// What the user is asked before an update.
pub fn update_text(installed: Option<&str>, build: &Build) -> (out: String)
    ensures
        out@ == update_text_of(
            match installed {
                Some(v) => Some(v@),
                None => None,
            },
            build.version@,
        ),
{
    let new_chars = chars_of(build.version.as_str());
    let mut out: String = String::new();
    let mut delta: bool = false;
    if let Some(v) = installed {
        let old_chars = chars_of(v);
        if !same_chars(old_chars.as_slice(), new_chars.as_slice()) {
            delta = true;
            out = "Update from v".to_owned();
            out.append(v);
            out.append(" to v");
            out.append(build.version.as_str());
            out.append("?");
        }
    }
    if !delta {
        out = "Reinstall ".to_owned();
        out.append(NAME);
        out.append(" v");
        out.append(build.version.as_str());
        out.append("?");
    }
    out.append("\n\nThis replaces the background service.\nYour settings and shortcuts are kept.");
    out
}

/// What the user is asked where the service does not run.
pub fn not_running_text() -> (out: String)
    ensures
        out@ == "The "@ + NAME@ + " service is installed but not running."@,
{
    let mut out: String = "The ".to_owned();
    out.append(NAME);
    out.append(" service is installed but not running.");
    out
}

/// What is said where nothing is left to do.
pub fn up_to_date_text() -> (out: String)
    ensures
        out@ == NAME@ + " is already installed and up to date."@,
{
    let mut out: String = NAME.to_owned();
    out.append(" is already installed and up to date.");
    out
}

pub const SERVICE_FAILED_TEXT: &'static str = "Service failed to start.";
pub const INSTALL_FAILED_TEXT: &'static str =
    "Service failed to start. Try running install from an admin prompt.";

/// The line that says which build this is.
pub fn version_line(build: &Build) -> (out: String)
    ensures
        out@ == BIN_NAME@ + " "@ + build.version@ + "+"@ + build.id@ + " ("@ + build.date@ + ")"@,
{
    let mut out: String = BIN_NAME.to_owned();
    out.append(" ");
    out.append(build.version.as_str());
    out.append("+");
    out.append(build.id.as_str());
    out.append(" (");
    out.append(build.date.as_str());
    out.append(")");
    out
}

/// A line of the help: the program, and what follows it.
pub open spec fn usage_line(rest: Seq<char>) -> Seq<char> {
    "  "@ + BIN_NAME@ + rest
}

/// The help, on its lines.
pub open spec fn help_of(version: Seq<char>) -> Seq<char> {
    version + "\nHP laptop thermal mode control \u{2014} without the bloat.\n\nUSAGE:\n"@
        + usage_line("              Launch tray app (installs service if needed)\n"@) + usage_line(
        " install      Install and start the background service\n"@,
    ) + usage_line(" uninstall    Stop and remove the background service\n"@) + usage_line(
        " start        Start the service\n"@,
    ) + usage_line(" stop         Stop the service\n"@) + usage_line(
        " --help       Show this help\n"@,
    ) + usage_line(" --version    Show version\n"@)
}

/// Appends a line of the help.
fn push_usage(out: &mut String, rest: &str)
    ensures
        final(out)@ == old(out)@ + usage_line(rest@),
{
    let ghost before = out@;
    out.append("  ");
    out.append(BIN_NAME);
    out.append(rest);
    assert(out@ =~= before + usage_line(rest@));
}

/// The help: the version line, and how the program is called.
pub fn help_text(build: &Build) -> (out: String)
    ensures
        out@ == help_of(
            BIN_NAME@ + " "@ + build.version@ + "+"@ + build.id@ + " ("@ + build.date@ + ")"@,
        ),
{
    let mut out: String = version_line(build);
    out.append("\nHP laptop thermal mode control \u{2014} without the bloat.\n\nUSAGE:\n");
    push_usage(&mut out, "              Launch tray app (installs service if needed)\n");
    push_usage(&mut out, " install      Install and start the background service\n");
    push_usage(&mut out, " uninstall    Stop and remove the background service\n");
    push_usage(&mut out, " start        Start the service\n");
    push_usage(&mut out, " stop         Stop the service\n");
    push_usage(&mut out, " --help       Show this help\n");
    push_usage(&mut out, " --version    Show version\n");
    out
}

/// The choices of a previewed dialog, spelled out.
pub open spec fn choices_text_of(c: Choices) -> Seq<char> {
    "Install clicked.\n\nRun at startup: "@ + truth(c.run_at_startup) + "\nStart Menu shortcut: "@
        + truth(c.start_menu) + "\nDesktop shortcut: "@ + truth(c.desktop)
}

/// The choices of a previewed dialog, spelled out.
pub fn choices_text(c: Choices) -> (out: String)
    ensures
        out@ == choices_text_of(c),
{
    let mut out: String = "Install clicked.\n\nRun at startup: ".to_owned();
    out.append(truth_text(c.run_at_startup));
    out.append("\nStart Menu shortcut: ");
    out.append(truth_text(c.start_menu));
    out.append("\nDesktop shortcut: ");
    out.append(truth_text(c.desktop));
    out
}

/// A truth value as a word.
pub open spec fn truth(b: bool) -> Seq<char> {
    if b {
        "true"@
    } else {
        "false"@
    }
}

fn truth_text(b: bool) -> (s: &'static str)
    ensures
        s@ == truth(b),
{
    if b {
        "true"
    } else {
        "false"
    }
}

/// The buttons of a dialog that asks for an action.
pub const BTN_ACTION: i32 = 100;
pub const BTN_CANCEL: i32 = 2;

/// Whether the user chose the action: the dialog was shown, and its button pressed.
pub open spec fn chose_action(shown: bool, pressed: i32) -> bool {
    shown && pressed == BTN_ACTION
}

/// Whether the user chose the action.
pub fn action_chosen(shown: bool, pressed: i32) -> (r: bool)
    ensures
        r == chose_action(shown, pressed),
{
    shown && pressed == BTN_ACTION
}

/// Each command is asked for by its words and by no others. Every other argument is not
/// understood, and none makes the program the tray.
pub proof fn commands_have_their_words(arg: Seq<char>)
    ensures
        command_of(arg) is Service <==> arg == "--service"@,
        command_of(arg) is Install <==> arg == "install"@ || arg == "--install"@,
        command_of(arg) is InstallService <==> arg == "--install-svc"@,
        command_of(arg) is UpdateService <==> arg == "--update-svc"@,
        command_of(arg) is StopService <==> arg == "--stop-svc"@,
        command_of(arg) is StartService <==> arg == "--start-svc"@,
        command_of(arg) is Stop <==> arg == "stop"@ || arg == "--stop"@,
        command_of(arg) is Start <==> arg == "start"@ || arg == "--start"@,
        command_of(arg) is Uninstall <==> arg == "uninstall"@ || arg == "--uninstall"@,
        command_of(arg) is PreviewOnboarding <==> arg == "--preview-onboarding"@,
        command_of(arg) is Help <==> arg == "help"@ || arg == "--help"@ || arg == "-h"@,
        command_of(arg) is Version <==> arg == "--version"@ || arg == "-v"@ || arg == "-V"@,
        !(command_of(arg) is Run) && !(command_of(arg) is Refuse),
{
    reveal_strlit("--service");
    reveal_strlit("install");
    reveal_strlit("--install");
    reveal_strlit("--install-svc");
    reveal_strlit("--update-svc");
    reveal_strlit("--stop-svc");
    reveal_strlit("--start-svc");
    reveal_strlit("stop");
    reveal_strlit("--stop");
    reveal_strlit("start");
    reveal_strlit("--start");
    reveal_strlit("uninstall");
    reveal_strlit("--uninstall");
    reveal_strlit("--preview-onboarding");
    reveal_strlit("--help");
    reveal_strlit("-h");
    reveal_strlit("help");
    reveal_strlit("--version");
    reveal_strlit("-v");
    reveal_strlit("-V");
    assert(arg == "--service"@ ==> arg.len() == 9 && arg[0] == '-' && arg[2] == 's');
    assert(arg == "install"@ ==> arg.len() == 7 && arg[0] == 'i');
    assert(arg == "--install"@ ==> arg.len() == 9 && arg[0] == '-' && arg[2] == 'i');
    assert(arg == "--install-svc"@ ==> arg.len() == 13);
    assert(arg == "--update-svc"@ ==> arg.len() == 12);
    assert(arg == "--stop-svc"@ ==> arg.len() == 10);
    assert(arg == "--start-svc"@ ==> arg.len() == 11 && arg[2] == 's');
    assert(arg == "stop"@ ==> arg.len() == 4 && arg[0] == 's');
    assert(arg == "--stop"@ ==> arg.len() == 6 && arg[2] == 's');
    assert(arg == "start"@ ==> arg.len() == 5);
    assert(arg == "--start"@ ==> arg.len() == 7 && arg[0] == '-');
    assert(arg == "uninstall"@ ==> arg.len() == 9 && arg[0] == 'u');
    assert(arg == "--uninstall"@ ==> arg.len() == 11 && arg[2] == 'u');
    assert(arg == "--preview-onboarding"@ ==> arg.len() == 20);
    assert(arg == "--help"@ ==> arg.len() == 6 && arg[2] == 'h');
    assert(arg == "-h"@ ==> arg.len() == 2 && arg[1] == 'h');
    assert(arg == "help"@ ==> arg.len() == 4 && arg[0] == 'h');
    assert(arg == "--version"@ ==> arg.len() == 9 && arg[0] == '-' && arg[2] == 'v');
    assert(arg == "-v"@ ==> arg.len() == 2 && arg[1] == 'v');
    assert(arg == "-V"@ ==> arg.len() == 2 && arg[1] == 'V');
}

/// Without an argument the program is the tray, unless it is elevated: then it does
/// nothing. An argument means the same whether it is elevated or not.
pub proof fn the_tray_does_not_run_elevated(arg: Option<Seq<char>>, elevated: bool)
    ensures
        asked_for(arg, elevated) is Run <==> arg is None && !elevated,
        asked_for(arg, elevated) is Refuse <==> arg is None && elevated,
        arg is Some ==> asked_for(arg, elevated) == asked_for(arg, !elevated),
        arg is Some ==> asked_for(arg, elevated) == command_of(arg->0),
{
}

/// The service runs in its own role and only it does; the elevated process is the one
/// that installs or updates the service; what prints text runs as such; the tray is what
/// runs without an argument.
pub proof fn roles_follow_the_arguments(arg: Option<Seq<char>>, elevated: bool)
    ensures
        ({
            let r = role_of(asked_for(arg, elevated));
            &&& r == Some(Role::Service) <==> arg == Some("--service"@)
            &&& r == Some(Role::Tray) <==> arg is None && !elevated
            &&& r == Some(Role::ElevatedSetup) <==> arg == Some("--install-svc"@) || arg == Some(
                "--update-svc"@,
            )
            &&& r is None <==> arg is None && elevated
            &&& r == Some(Role::Launcher) <==> {
                let c = asked_for(arg, elevated);
                c is Install || c is StopService || c is StartService || c is Stop || c is Start
                    || c is Uninstall || c is PreviewOnboarding
            }
        }),
{
    if arg is Some {
        commands_have_their_words(arg->0);
    }
}

/// Trusted hardware is the only one that is not asked about, and new firmware is told
/// from new hardware.
pub proof fn only_trusted_hardware_is_not_asked_about(c: Consent)
    ensures
        answer_by(c) is Yes <==> c is Trusted,
        answer_by(c) is FirmwareChanged <==> c == (Consent::NeedsPrompt { firmware_changed: true }),
        answer_by(c) is No <==> c == (Consent::NeedsPrompt { firmware_changed: false }),
{
}

/// Each step up to the tray is reached from where it has to be, and from nowhere else:
/// the hardware is checked before the consent, a consent is recorded only where it was
/// given, and the tray runs only where the service was seen to run.
pub proof fn starts_take_their_course(s: RunStep, a: Answer)
    ensures
        ({
            let n = run_step(s, a);
            &&& n is ShowUnsupported <==> s is CheckHardware && !(a is Yes)
            &&& n is CheckConsent <==> s is CheckHardware && a is Yes
            &&& n is AskConsent <==> s is CheckConsent && a is No
            &&& n is AskConsentAgain <==> s is CheckConsent && a is FirmwareChanged
            &&& n is RecordAcceptance <==> (s is AskConsent || s is AskConsentAgain) && a is Yes
            &&& n is CheckInstalledCopy <==> (s is CheckConsent && a is Yes) || s
                is RecordAcceptance
            &&& n is CheckService <==> s is CheckInstalledCopy && a is Yes
            &&& n is CheckRunning <==> s is CheckService && a is Yes
            &&& n is AskRepair <==> s is CheckService && !(a is Yes)
            &&& n is LockForRepair <==> s is AskRepair && a is Yes
            &&& n is Repair <==> s is LockForRepair && a is Yes
            &&& n is AskStart <==> s is CheckRunning && !(a is Yes)
            &&& n is LockForStart <==> s is AskStart && a is Yes
            &&& n is StartService <==> s is LockForStart && a is Yes
            &&& n is WaitForService <==> s is StartService || s is Repair
            &&& n is ShowServiceFailed <==> s is WaitForService && !(a is Yes)
            &&& n is RunTray <==> (s is CheckRunning || s is WaitForService) && a is Yes
            &&& n is WarnBusy <==> (s is LockForStart || s is LockForRepair || s
                is SetupLockForInstall || s is SetupLockForUpdate) && !(a is Yes)
            &&& !(n is CheckHardware)
        }),
{
}

/// A program that does not run from its install directory installs where there is no
/// service, updates where it is another, and starts the installed tray where it is the
/// same or was just installed.
pub proof fn setups_take_their_course(s: RunStep, a: Answer)
    ensures
        ({
            let n = run_step(s, a);
            &&& n is SetupCheckService <==> s is CheckInstalledCopy && !(a is Yes)
            &&& n is SetupAskInstall <==> s is SetupCheckService && !(a is Yes)
            &&& n is SetupLockForInstall <==> s is SetupAskInstall && a is Yes
            &&& n is SetupInstall <==> s is SetupLockForInstall && a is Yes
            &&& n is SetupWaitForService <==> s is SetupInstall
            &&& n is SetupShowServiceFailed <==> s is SetupWaitForService && !(a is Yes)
            &&& n is SetupCheckCurrent <==> s is SetupCheckService && a is Yes
            &&& n is SetupShowUpToDate <==> s is SetupCheckCurrent && a is Yes
            &&& n is SetupAskUpdate <==> s is SetupCheckCurrent && !(a is Yes)
            &&& n is SetupLockForUpdate <==> s is SetupAskUpdate && a is Yes
            &&& n is SetupUpdate <==> s is SetupLockForUpdate && a is Yes
            &&& n is SetupEnsureTray <==> (s is SetupWaitForService && a is Yes) || s
                is SetupShowUpToDate
        }),
{
}

/// The command that installs updates where the service is there and asks where it is
/// not; it waits for the service only where it is not elevated itself.
pub proof fn installs_take_their_course(s: InstallStep, ok: bool)
    ensures
        ({
            let n = install_step(s, ok);
            &&& n is ShowUnsupported <==> s is CheckHardware && !ok
            &&& n is CheckService <==> s is CheckHardware && ok
            &&& n is LockForUpdate <==> s is CheckService && ok
            &&& n is Update <==> s is LockForUpdate && ok
            &&& n is AskInstall <==> s is CheckService && !ok
            &&& n is LockForInstall <==> s is AskInstall && ok
            &&& n is Install <==> s is LockForInstall && ok
            &&& n is CheckElevated <==> s is Install
            &&& n is WaitForService <==> s is CheckElevated && !ok
            &&& n is EnsureTray <==> (s is CheckElevated || s is WaitForService) && ok
            &&& n is WarnBusy <==> (s is LockForUpdate || s is LockForInstall) && !ok
            &&& !(n is CheckHardware)
        }),
{
}

/// A command that changes the service checks the hardware, takes the lock and operates,
/// in this order; each that fails is told and ends the command.
pub proof fn changes_take_their_course(s: GuardedStep, ok: bool)
    ensures
        ({
            let n = guarded_step(s, ok);
            &&& n is ShowUnsupported <==> s is CheckHardware && !ok
            &&& n is Lock <==> s is CheckHardware && ok
            &&& n is Operate <==> s is Lock && ok
            &&& n is WarnBusy <==> s is Lock && !ok
            &&& !(n is CheckHardware)
        }),
{
}

/// Nothing but the button of the action chooses it: not the one that cancels, not a
/// window that was closed, and not a dialog that could not be shown.
pub proof fn only_the_button_chooses_the_action(shown: bool, pressed: i32)
    ensures
        chose_action(shown, pressed) ==> shown && pressed == 100,
        chose_action(true, 100),
        BTN_CANCEL == 2,
        !chose_action(shown, 2),
{
}

/// An update is called one exactly where the installed version is known and another
/// than this one; it then names the installed version first.
pub proof fn updates_name_both_versions(installed: Option<Seq<char>>, version: Seq<char>)
    ensures
        ({
            let text = update_text_of(installed, version);
            let moves = installed is Some && installed->0 != version;
            let named = "Update from v"@ + installed->0 + " to v"@ + version + "?"@;
            &&& moves ==> text.take(named.len() as int) == named
            &&& !moves ==> text == update_text_of(None, version)
        }),
{
    let text = update_text_of(installed, version);
    let named = "Update from v"@ + installed->0 + " to v"@ + version + "?"@;
    if installed is Some && installed->0 != version {
        assert(text.take(named.len() as int) =~= named);
    }
}

/// The question on untrusted hardware names the board and the BIOS of the machine, in
/// this order, and is another one where only the firmware has changed.
pub proof fn questions_name_board_and_bios(hw: HwInfo, firmware_changed: bool)
    ensures
        crate::text::occurs_in(
            hw.board@ + ", BIOS "@ + hw.bios_version@,
            consent_text_of(hw, firmware_changed),
        ),
        consent_text_of(hw, true)[0] == 'T',
        consent_text_of(hw, false)[0] == 'H',
{
    let part = hw.board@ + ", BIOS "@ + hw.bios_version@;
    reveal_strlit("The system firmware has changed since you enabled ");
    reveal_strlit("HP Thermal Control");
    let first = "The system firmware has changed since you enabled "@ + NAME@
        + " on this machine (board "@;
    let first_end =
        ").\n\nThermal control uses an undocumented HP interface that firmware updates can change without notice. Re-confirm that you want to keep it enabled?"@;
    let second = NAME@
        + " was validated by its developers only on the HP ENVY 16 (board 8BE5).\n\nYour hardware (board "@;
    let second_end =
        ") is community-untested. Thermal control uses an undocumented HP interface and may not work, or may behave differently, on your model.\n\nEnable thermal control on this machine anyway?"@;
    assert(consent_text_of(hw, true) =~= first + part + first_end);
    assert(consent_text_of(hw, false) =~= second + part + second_end);
    crate::text::what_stands_between_occurs(first, part, first_end);
    crate::text::what_stands_between_occurs(second, part, second_end);
}

/// A machine that is not supported is named by its manufacturer and its model, each where
/// it is said to be.
pub proof fn unsupported_machines_are_named(hw: HwInfo)
    ensures
        crate::text::occurs_in(
            hw.manufacturer@ + "\n  Model: "@ + hw.product@,
            unsupported_text_of(hw),
        ),
{
    let part = hw.manufacturer@ + "\n  Model: "@ + hw.product@;
    let head = "This app requires an HP laptop.\n\nDetected hardware:\n  Manufacturer: "@;
    let tail = "\n\nYour hardware is not supported."@;
    assert(unsupported_text_of(hw) =~= head + part + tail);
    crate::text::what_stands_between_occurs(head, part, tail);
}

/// Each choice of a previewed dialog is spelled out under its own name.
pub proof fn choices_are_spelled_out(c: Choices)
    ensures
        crate::text::occurs_in(
            truth(c.run_at_startup) + "\nStart Menu shortcut: "@ + truth(c.start_menu)
                + "\nDesktop shortcut: "@ + truth(c.desktop),
            choices_text_of(c),
        ),
        truth(true) == "true"@ && truth(false) == "false"@,
{
    let part = truth(c.run_at_startup) + "\nStart Menu shortcut: "@ + truth(c.start_menu)
        + "\nDesktop shortcut: "@ + truth(c.desktop);
    let head = "Install clicked.\n\nRun at startup: "@;
    assert(choices_text_of(c) =~= head + part + Seq::empty());
    crate::text::what_stands_between_occurs(head, part, Seq::empty());
}

} // verus!
