//! The course of a measurement: what is done in which order, and what a failure
//! on the way leads to.

use vstd::prelude::*;
use vstd::string::*;

use crate::audio::{
    DecisionOutput, Path, SmartResult, StressCal, AB_STRESS_THREADS, MAX_SETTLE_MS, MIN_SETTLE_MS,
    SLOW_CAPTURE_MS,
};
use crate::calibration::{cal_for, has_fan_powers, set_fan_powers, CalPoint, NoiseCal};
use crate::protocol::status_ok;
use crate::text::push_decimal;

verus! {

/// How a measurement ended.
#[derive(Clone, Copy, PartialEq, Eq, Structural, Debug)]
pub enum Outcome {
    Done,
    ComInitFailed,
    NoEnumerator,
    NoDevice,
    RunFailed,
}

/// What is done next in a measurement.
#[derive(Clone, Copy, PartialEq, Eq, Structural, Debug)]
pub enum MeasureStep {
    InitCom,
    Enumerate,
    SelectDevice,
    ReadCache,
    /// Listen shortly, and decide by the table.
    Fast,
    SetMode(u8),
    /// Compare the two modes.
    Slow,
    UninitCom(Outcome),
    End(Outcome),
}

/// What came of a step.
#[derive(Clone, Copy, PartialEq, Eq, Structural, Debug)]
pub enum MeasureEvent {
    Succeeded,
    Failed,
    /// The calibration was read; this way it goes.
    Cache(Path),
    /// The table was asked, and may have answered.
    Asked(Option<u8>),
}

/// What follows a step of a measurement.
pub open spec fn measure_after(step: MeasureStep, event: MeasureEvent) -> MeasureStep {
    match step {
        MeasureStep::InitCom => if event == MeasureEvent::Failed {
            MeasureStep::End(Outcome::ComInitFailed)
        } else {
            MeasureStep::Enumerate
        },
        MeasureStep::Enumerate => if event == MeasureEvent::Failed {
            MeasureStep::UninitCom(Outcome::NoEnumerator)
        } else {
            MeasureStep::SelectDevice
        },
        MeasureStep::SelectDevice => if event == MeasureEvent::Failed {
            MeasureStep::UninitCom(Outcome::NoDevice)
        } else {
            MeasureStep::ReadCache
        },
        MeasureStep::ReadCache => if event == MeasureEvent::Cache(Path::Fast) {
            MeasureStep::Fast
        } else {
            MeasureStep::Slow
        },
        MeasureStep::Fast => match event {
            MeasureEvent::Asked(Some(mode)) => MeasureStep::SetMode(mode),
            _ => MeasureStep::Slow,
        },
        MeasureStep::SetMode(_) => MeasureStep::UninitCom(Outcome::Done),
        MeasureStep::Slow => if event == MeasureEvent::Failed {
            MeasureStep::UninitCom(Outcome::RunFailed)
        } else {
            MeasureStep::UninitCom(Outcome::Done)
        },
        MeasureStep::UninitCom(o) => MeasureStep::End(o),
        MeasureStep::End(o) => MeasureStep::End(o),
    }
}

/// What follows a step of a measurement: the table is asked where the calibration
/// allows it, and the two modes are compared where it has no answer or cannot be
/// asked.
pub fn smart_measure(step: MeasureStep, event: MeasureEvent) -> (r: MeasureStep)
    ensures
        r == measure_after(step, event),
{
    let failed: bool = event == MeasureEvent::Failed;
    match step {
        MeasureStep::InitCom => if failed {
            MeasureStep::End(Outcome::ComInitFailed)
        } else {
            MeasureStep::Enumerate
        },
        MeasureStep::Enumerate => if failed {
            MeasureStep::UninitCom(Outcome::NoEnumerator)
        } else {
            MeasureStep::SelectDevice
        },
        MeasureStep::SelectDevice => if failed {
            MeasureStep::UninitCom(Outcome::NoDevice)
        } else {
            MeasureStep::ReadCache
        },
        MeasureStep::ReadCache => if event == MeasureEvent::Cache(Path::Fast) {
            MeasureStep::Fast
        } else {
            MeasureStep::Slow
        },
        MeasureStep::Fast => match event {
            MeasureEvent::Asked(Some(mode)) => MeasureStep::SetMode(mode),
            _ => MeasureStep::Slow,
        },
        MeasureStep::SetMode(_) => MeasureStep::UninitCom(Outcome::Done),
        MeasureStep::Slow => if failed {
            MeasureStep::UninitCom(Outcome::RunFailed)
        } else {
            MeasureStep::UninitCom(Outcome::Done)
        },
        MeasureStep::UninitCom(o) => MeasureStep::End(o),
        MeasureStep::End(o) => MeasureStep::End(o),
    }
}

/// What is done next in the calibration under load.
#[derive(Clone, Copy, PartialEq, Eq, Structural, Debug)]
pub enum CalibrateStep {
    InitCom,
    Enumerate,
    SelectDevice,
    /// Carry out the plan, and save what it measured.
    Run,
    UninitCom(Outcome),
    End(Outcome),
}

/// What follows a step of the calibration under load.
pub open spec fn calibrate_after(step: CalibrateStep, ok: bool) -> CalibrateStep {
    match step {
        CalibrateStep::InitCom => if ok {
            CalibrateStep::Enumerate
        } else {
            CalibrateStep::End(Outcome::ComInitFailed)
        },
        CalibrateStep::Enumerate => if ok {
            CalibrateStep::SelectDevice
        } else {
            CalibrateStep::UninitCom(Outcome::NoEnumerator)
        },
        CalibrateStep::SelectDevice => if ok {
            CalibrateStep::Run
        } else {
            CalibrateStep::UninitCom(Outcome::NoDevice)
        },
        CalibrateStep::Run => if ok {
            CalibrateStep::UninitCom(Outcome::Done)
        } else {
            CalibrateStep::UninitCom(Outcome::RunFailed)
        },
        CalibrateStep::UninitCom(o) => CalibrateStep::End(o),
        CalibrateStep::End(o) => CalibrateStep::End(o),
    }
}

/// What follows a step of the calibration under load.
pub fn stress_calibrate(step: CalibrateStep, ok: bool) -> (r: CalibrateStep)
    ensures
        r == calibrate_after(step, ok),
{
    match step {
        CalibrateStep::InitCom => if ok {
            CalibrateStep::Enumerate
        } else {
            CalibrateStep::End(Outcome::ComInitFailed)
        },
        CalibrateStep::Enumerate => if ok {
            CalibrateStep::SelectDevice
        } else {
            CalibrateStep::UninitCom(Outcome::NoEnumerator)
        },
        CalibrateStep::SelectDevice => if ok {
            CalibrateStep::Run
        } else {
            CalibrateStep::UninitCom(Outcome::NoDevice)
        },
        CalibrateStep::Run => if ok {
            CalibrateStep::UninitCom(Outcome::Done)
        } else {
            CalibrateStep::UninitCom(Outcome::RunFailed)
        },
        CalibrateStep::UninitCom(o) => CalibrateStep::End(o),
        CalibrateStep::End(o) => CalibrateStep::End(o),
    }
}

/// COM is left as it was found: a measurement or a calibration ends either because
/// COM could not be initialised, or right after it was uninitialised.
pub proof fn com_is_balanced(m: MeasureStep, event: MeasureEvent, c: CalibrateStep, ok: bool)
    ensures
        measure_after(m, event) is End ==> m is End || m is UninitCom || (m is InitCom
            && measure_after(m, event) == MeasureStep::End(Outcome::ComInitFailed)),
        calibrate_after(c, ok) is End ==> c is End || c is UninitCom || (c is InitCom && calibrate_after(
            c,
            ok,
        ) == CalibrateStep::End(Outcome::ComInitFailed)),
{
}

/// The modes are compared wherever the table does not answer: after the calibration
/// was read, only an answer of the table avoids it.
pub proof fn comparison_is_the_fallback(event: MeasureEvent)
    ensures
        event != MeasureEvent::Cache(Path::Fast) ==> measure_after(MeasureStep::ReadCache, event)
            == MeasureStep::Slow,
        !(event matches MeasureEvent::Asked(Some(_))) ==> measure_after(MeasureStep::Fast, event)
            == MeasureStep::Slow,
{
}

/// What an outcome is reported as, where the run itself has no text of its own.
pub fn outcome_text(o: Outcome) -> (r: Option<&'static str>)
    ensures
        match o {
            Outcome::ComInitFailed => r matches Some(t) && t@ == "COM init failed"@,
            Outcome::NoEnumerator => r matches Some(t) && t@ == "no audio enumerator"@,
            _ => r is None,
        },
{
    match o {
        Outcome::ComInitFailed => Some("COM init failed"),
        Outcome::NoEnumerator => Some("no audio enumerator"),
        _ => None,
    }
}

/// A stretch of a recording.
#[derive(Clone, Copy, PartialEq, Eq, Structural, Debug)]
pub enum Phase {
    Init,
    SettlePerf,
    LoadPerf,
    SteadyPerf,
    FalloffPerf,
    CapturePerf,
    Cooldown,
    SettleBal,
    LoadBal,
    SteadyBal,
    FalloffBal,
    CaptureBal,
    End,
}

/// The name of a phase.
pub open spec fn phase_name(p: Phase) -> Seq<char> {
    match p {
        Phase::Init => "init"@,
        Phase::SettlePerf => "settle_perf"@,
        Phase::LoadPerf => "load_perf"@,
        Phase::SteadyPerf => "steady_perf"@,
        Phase::FalloffPerf => "falloff_perf"@,
        Phase::CapturePerf => "capture_perf"@,
        Phase::Cooldown => "cooldown"@,
        Phase::SettleBal => "settle_bal"@,
        Phase::LoadBal => "load_bal"@,
        Phase::SteadyBal => "steady_bal"@,
        Phase::FalloffBal => "falloff_bal"@,
        Phase::CaptureBal => "capture_bal"@,
        Phase::End => "end"@,
    }
}

/// The name of a phase.
pub fn phase_label(p: Phase) -> (r: &'static str)
    ensures
        r@ == phase_name(p),
{
    match p {
        Phase::Init => "init",
        Phase::SettlePerf => "settle_perf",
        Phase::LoadPerf => "load_perf",
        Phase::SteadyPerf => "steady_perf",
        Phase::FalloffPerf => "falloff_perf",
        Phase::CapturePerf => "capture_perf",
        Phase::Cooldown => "cooldown",
        Phase::SettleBal => "settle_bal",
        Phase::LoadBal => "load_bal",
        Phase::SteadyBal => "steady_bal",
        Phase::FalloffBal => "falloff_bal",
        Phase::CaptureBal => "capture_bal",
        Phase::End => "end",
    }
}

/// Something that is done while a recording runs.
#[derive(Clone, Copy, PartialEq, Eq, Structural, Debug)]
pub enum Action {
    /// Make the directory for the debug output.
    CreateDebugDir,
    /// Begin to read temperature and mode every two seconds.
    StartTelemetry,
    /// Open the recording, keeping the samples or not.
    OpenStream { keep: bool },
    /// Note that a phase begins.
    Mark(Phase),
    /// Switch the thermal mode.
    SetMode(u8),
    /// Load the processor.
    StartLoad { threads: usize, max_secs: u64 },
    /// Let the processor rest, and wait for the threads to end.
    StopLoad,
    /// Record for so many milliseconds.
    Record(u64),
    /// Record until the fans settle, within these limits in milliseconds.
    Settle { min_ms: u64, max_ms: u64 },
    /// Note that the windows of a mode begin here.
    Begin(u8),
    /// Note that the windows of a mode end here.
    Finish(u8),
    /// Read the mode back, for the log.
    VerifyMode,
    /// Stop reading temperature and mode.
    StopTelemetry,
    /// Write the table of windows.
    WriteTable,
    /// Write the table, the recording and the readings, and show the directory.
    WriteDebugFiles,
    /// Close the recording.
    CloseStream,
    /// Save what was measured.
    Save,
}

/// Whether a failure of the action ends the run.
pub open spec fn is_vital(a: Action) -> bool {
    a is CreateDebugDir || a is OpenStream || a is Record || a is Settle
}

/// Whether a failure of the action ends the run.
pub fn ends_the_run(a: Action) -> (r: bool)
    ensures
        r == is_vital(a),
{
    match a {
        Action::CreateDebugDir | Action::OpenStream { .. } | Action::Record(_) | Action::Settle {
            ..
        } => true,
        _ => false,
    }
}

/// How many threads load the processor during the comparison: a quarter of the
/// processors, at least four, and no more than there are.
pub open spec fn comparison_threads(processors: int) -> int {
    let quarter = processors / 4;
    let wanted = if quarter < AB_STRESS_THREADS {
        AB_STRESS_THREADS as int
    } else {
        quarter
    };
    if processors < wanted {
        processors
    } else {
        wanted
    }
}

/// How many threads load the processor during the comparison.
pub fn stress_threads(processors: usize) -> (r: usize)
    ensures
        r == comparison_threads(processors as int),
{
    let quarter: usize = processors / 4;
    let wanted: usize = if quarter < AB_STRESS_THREADS {
        AB_STRESS_THREADS
    } else {
        quarter
    };
    if processors < wanted {
        processors
    } else {
        wanted
    }
}

/// The comparison of the two modes, up to the decision.
pub open spec fn comparison(threads: usize, debug: bool) -> Seq<Action> {
    (if debug {
        seq![Action::CreateDebugDir, Action::StartTelemetry]
    } else {
        Seq::empty()
    }) + seq![
        Action::OpenStream { keep: debug },
        Action::Mark(Phase::Init),
        Action::StartLoad { threads, max_secs: 120 },
        Action::SetMode(0),
        Action::Mark(Phase::SettlePerf),
        Action::Settle { min_ms: MIN_SETTLE_MS, max_ms: MAX_SETTLE_MS },
        Action::Mark(Phase::CapturePerf),
        Action::Begin(0),
        Action::Record(SLOW_CAPTURE_MS as u64),
        Action::Finish(0),
        Action::SetMode(1),
        Action::VerifyMode,
        Action::Mark(Phase::SettleBal),
        Action::Settle { min_ms: MIN_SETTLE_MS, max_ms: MAX_SETTLE_MS },
        Action::Mark(Phase::CaptureBal),
        Action::Begin(1),
        Action::Record(SLOW_CAPTURE_MS as u64),
        Action::Finish(1),
        Action::Mark(Phase::End),
        Action::StopLoad,
    ]
}

/// Plans the comparison of the two modes, up to the decision.
pub fn slow_path(threads: usize, debug: bool) -> (plan: Vec<Action>)
    ensures
        plan@ == comparison(threads, debug),
{
    let mut plan: Vec<Action> = Vec::new();
    if debug {
        plan.push(Action::CreateDebugDir);
        plan.push(Action::StartTelemetry);
    }
    plan.push(Action::OpenStream { keep: debug });
    plan.push(Action::Mark(Phase::Init));
    plan.push(Action::StartLoad { threads, max_secs: 120 });
    plan.push(Action::SetMode(0));
    plan.push(Action::Mark(Phase::SettlePerf));
    plan.push(Action::Settle { min_ms: MIN_SETTLE_MS, max_ms: MAX_SETTLE_MS });
    plan.push(Action::Mark(Phase::CapturePerf));
    plan.push(Action::Begin(0));
    plan.push(Action::Record(SLOW_CAPTURE_MS as u64));
    plan.push(Action::Finish(0));
    plan.push(Action::SetMode(1));
    plan.push(Action::VerifyMode);
    plan.push(Action::Mark(Phase::SettleBal));
    plan.push(Action::Settle { min_ms: MIN_SETTLE_MS, max_ms: MAX_SETTLE_MS });
    plan.push(Action::Mark(Phase::CaptureBal));
    plan.push(Action::Begin(1));
    plan.push(Action::Record(SLOW_CAPTURE_MS as u64));
    plan.push(Action::Finish(1));
    plan.push(Action::Mark(Phase::End));
    plan.push(Action::StopLoad);
    assert(plan@ =~= comparison(threads, debug));
    plan
}

/// What follows the decision of a comparison.
pub open spec fn comparison_end(chosen: u8, debug: bool) -> Seq<Action> {
    seq![
        Action::SetMode(chosen),
        Action::StopTelemetry,
        if debug {
            Action::WriteDebugFiles
        } else {
            Action::WriteTable
        },
        Action::CloseStream,
        Action::Save,
    ]
}

/// Plans what follows the decision of a comparison.
pub fn slow_path_end(chosen: u8, debug: bool) -> (plan: Vec<Action>)
    ensures
        plan@ == comparison_end(chosen, debug),
{
    let mut plan: Vec<Action> = Vec::new();
    plan.push(Action::SetMode(chosen));
    plan.push(Action::StopTelemetry);
    if debug {
        plan.push(Action::WriteDebugFiles);
    } else {
        plan.push(Action::WriteTable);
    }
    plan.push(Action::CloseStream);
    plan.push(Action::Save);
    assert(plan@ =~= comparison_end(chosen, debug));
    plan
}

/// The calibration under load: each mode settles, is loaded, is recorded once the
/// fans run steadily, and falls off.
pub open spec fn calibration_run(threads: usize) -> Seq<Action> {
    seq![
        Action::OpenStream { keep: false },
        Action::Mark(Phase::Init),
        Action::SetMode(0),
        Action::Mark(Phase::SettlePerf),
        Action::Record(15_000),
        Action::StartLoad { threads, max_secs: 35 },
        Action::Mark(Phase::LoadPerf),
        Action::Record(15_000),
        Action::Mark(Phase::SteadyPerf),
        Action::Begin(0),
        Action::Record(15_000),
        Action::Finish(0),
        Action::StopLoad,
        Action::Mark(Phase::FalloffPerf),
        Action::Record(15_000),
        Action::Mark(Phase::Cooldown),
        Action::Record(15_000),
        Action::SetMode(1),
        Action::Mark(Phase::SettleBal),
        Action::Record(15_000),
        Action::StartLoad { threads, max_secs: 35 },
        Action::Mark(Phase::LoadBal),
        Action::Record(15_000),
        Action::Mark(Phase::SteadyBal),
        Action::Begin(1),
        Action::Record(15_000),
        Action::Finish(1),
        Action::StopLoad,
        Action::Mark(Phase::FalloffBal),
        Action::Record(15_000),
        Action::Mark(Phase::End),
        Action::WriteTable,
        Action::CloseStream,
        Action::Save,
    ]
}

/// Plans the calibration under load.
pub fn stress_calibrate_inner(threads: usize) -> (plan: Vec<Action>)
    ensures
        plan@ == calibration_run(threads),
{
    let mut plan: Vec<Action> = Vec::new();
    plan.push(Action::OpenStream { keep: false });
    plan.push(Action::Mark(Phase::Init));
    plan.push(Action::SetMode(0));
    plan.push(Action::Mark(Phase::SettlePerf));
    plan.push(Action::Record(15_000));
    plan.push(Action::StartLoad { threads, max_secs: 35 });
    plan.push(Action::Mark(Phase::LoadPerf));
    plan.push(Action::Record(15_000));
    plan.push(Action::Mark(Phase::SteadyPerf));
    plan.push(Action::Begin(0));
    plan.push(Action::Record(15_000));
    plan.push(Action::Finish(0));
    plan.push(Action::StopLoad);
    plan.push(Action::Mark(Phase::FalloffPerf));
    plan.push(Action::Record(15_000));
    plan.push(Action::Mark(Phase::Cooldown));
    plan.push(Action::Record(15_000));
    plan.push(Action::SetMode(1));
    plan.push(Action::Mark(Phase::SettleBal));
    plan.push(Action::Record(15_000));
    plan.push(Action::StartLoad { threads, max_secs: 35 });
    plan.push(Action::Mark(Phase::LoadBal));
    plan.push(Action::Record(15_000));
    plan.push(Action::Mark(Phase::SteadyBal));
    plan.push(Action::Begin(1));
    plan.push(Action::Record(15_000));
    plan.push(Action::Finish(1));
    plan.push(Action::StopLoad);
    plan.push(Action::Mark(Phase::FalloffBal));
    plan.push(Action::Record(15_000));
    plan.push(Action::Mark(Phase::End));
    plan.push(Action::WriteTable);
    plan.push(Action::CloseStream);
    plan.push(Action::Save);
    assert(plan@ =~= calibration_run(threads));
    plan
}

/// How long the first `i` actions record, in milliseconds, not counting the wait
/// for the fans.
pub open spec fn recorded_ms(plan: Seq<Action>, i: int) -> int
    decreases i,
{
    if i <= 0 {
        0
    } else {
        recorded_ms(plan, i - 1) + match plan[i - 1] {
            Action::Record(ms) => ms as int,
            _ => 0,
        }
    }
}

/// The mode before action `i`: the last that was set, or `start`.
pub open spec fn mode_before(plan: Seq<Action>, i: int, start: u8) -> u8
    decreases i,
{
    if i <= 0 {
        start
    } else {
        match plan[i - 1] {
            Action::SetMode(m) => m,
            _ => mode_before(plan, i - 1, start),
        }
    }
}

/// Whether the processor is loaded before action `i`.
pub open spec fn loaded_before(plan: Seq<Action>, i: int) -> bool
    decreases i,
{
    if i <= 0 {
        false
    } else {
        match plan[i - 1] {
            Action::StartLoad { .. } => true,
            Action::StopLoad => false,
            _ => loaded_before(plan, i - 1),
        }
    }
}

/// Whether the windows of a mode are only noted in that mode and under load, and
/// the load ends.
pub open spec fn measures_under_load(plan: Seq<Action>) -> bool {
    &&& forall|i: int|
        0 <= i < plan.len() ==> match #[trigger] plan[i] {
            Action::Begin(m) => mode_before(plan, i, 255) == m && loaded_before(plan, i),
            Action::Finish(m) => mode_before(plan, i, 255) == m && loaded_before(plan, i),
            _ => true,
        }
    &&& !loaded_before(plan, plan.len() as int)
}

/// In the comparison each mode is measured in that mode and under load, and the
/// load does not outlast it.
pub proof fn comparison_measures_under_load(threads: usize, debug: bool)
    ensures
        measures_under_load(comparison(threads, debug)),
{
    let plan = comparison(threads, debug);
    reveal_with_fuel(mode_before, 24);
    reveal_with_fuel(loaded_before, 24);
    assert(plan.len() == if debug {
        22int
    } else {
        20
    });
}

/// The modes that the first `n` actions set, in their order.
pub open spec fn modes_set(plan: Seq<Action>, n: int) -> Seq<u8>
    decreases n,
{
    if n <= 0 {
        Seq::empty()
    } else {
        match plan[n - 1] {
            Action::SetMode(m) => modes_set(plan, n - 1).push(m),
            _ => modes_set(plan, n - 1),
        }
    }
}

/// A comparison sets Performance, then Balanced, whatever the mode was before, and
/// then what was decided, and no other.
pub proof fn comparison_sets_three_modes(threads: usize, debug: bool, chosen: u8)
    ensures
        ({
            let plan = comparison(threads, debug);
            let end = comparison_end(chosen, debug);
            &&& modes_set(plan, plan.len() as int) == seq![0u8, 1u8]
            &&& modes_set(end, end.len() as int) == seq![chosen]
        }),
{
    let plan = comparison(threads, debug);
    reveal_with_fuel(modes_set, 24);
    assert(plan.len() == if debug {
        22int
    } else {
        20
    });
    assert(modes_set(plan, plan.len() as int) =~= seq![0u8, 1u8]);
    let end = comparison_end(chosen, debug);
    assert(modes_set(end, end.len() as int) =~= seq![chosen]);
}

/// In the calibration each mode is measured in that mode and under load, and the
/// load does not outlast it.
pub proof fn calibration_measures_under_load(threads: usize)
    ensures
        measures_under_load(calibration_run(threads)),
{
    reveal_with_fuel(mode_before, 36);
    reveal_with_fuel(loaded_before, 36);
}

/// The calibration under load records for 135 seconds.
pub proof fn calibration_takes_135_seconds(threads: usize)
    ensures
        recorded_ms(calibration_run(threads), calibration_run(threads).len() as int) == 135_000,
{
    reveal_with_fuel(recorded_ms, 36);
}

/// What the wait for the fans does next.
#[derive(Clone, Copy, PartialEq, Eq, Structural, Debug)]
pub enum SettleStep {
    /// Take in what was recorded, and sleep five milliseconds.
    Wait,
    /// The shortest wait is over: take in what was recorded, and look from now on.
    Look,
    /// Take in what was recorded, and sleep fifty milliseconds.
    KeepLooking,
    /// The fans have settled.
    Detected,
    /// The longest wait is over.
    TimedOut,
}

/// What the wait for the fans does next.
pub open spec fn settle_next(
    looking: bool,
    elapsed: u64,
    min_ms: u64,
    max_ms: u64,
    settled: bool,
) -> SettleStep {
    if !looking {
        if elapsed < min_ms {
            SettleStep::Wait
        } else {
            SettleStep::Look
        }
    } else if elapsed >= max_ms {
        SettleStep::TimedOut
    } else if settled {
        SettleStep::Detected
    } else {
        SettleStep::KeepLooking
    }
}

/// What the wait for the fans does next, `elapsed` milliseconds after it began.
/// `looking` says whether the shortest wait is over.
pub fn adaptive_settle(looking: bool, elapsed: u64, min_ms: u64, max_ms: u64, settled: bool) -> (r:
    SettleStep)
    ensures
        r == settle_next(looking, elapsed, min_ms, max_ms, settled),
{
    if !looking {
        if elapsed < min_ms {
            SettleStep::Wait
        } else {
            SettleStep::Look
        }
    } else if elapsed >= max_ms {
        SettleStep::TimedOut
    } else if settled {
        SettleStep::Detected
    } else {
        SettleStep::KeepLooking
    }
}

/// Whether a thread that loads the processor goes on after its `batch`-th batch.
pub open spec fn keeps_loading(batch: u32, stop: bool, past_deadline: bool) -> bool {
    !stop && !(batch % 64 == 0 && past_deadline)
}

/// Whether a thread that loads the processor goes on after its `batch`-th batch: not
/// once it was told to stop, and not past its deadline, which it looks at every 64
/// batches.
pub fn stress_goes_on(batch: u32, stop: bool, past_deadline: bool) -> (r: bool)
    ensures
        r == keeps_loading(batch, stop, past_deadline),
{
    !stop && !(batch % 64 == 0 && past_deadline)
}

/// How the ambient power of a comparison is found.
#[derive(Clone, Copy, PartialEq, Eq, Structural, Debug)]
pub enum Ambient {
    /// The mean of both powers, less the mean of the powers of the fans alone.
    OverFans,
    /// What Performance has more than Balanced.
    Difference,
}

/// How the ambient power is found with a calibration.
pub open spec fn ambient_by(cal: NoiseCal) -> Ambient {
    if crate::calibration::fans_known(cal) {
        Ambient::OverFans
    } else {
        Ambient::Difference
    }
}

/// The calibration after a comparison that measured these powers.
pub open spec fn noted(cal: NoiseCal, perf: u32, bal: u32, now: u64, gain: u32) -> NoiseCal {
    if !crate::calibration::fans_known(cal) && cal.cal_timestamp == 0 {
        crate::calibration::with_fan_powers(cal, perf, bal, now, gain)
    } else {
        cal
    }
}

/// Notes the powers of a comparison, adjusted for the gain: where the fans were
/// never measured alone they stand in for them, once.
pub fn note_comparison(cal: &mut NoiseCal, perf: u32, bal: u32, now: u64, gain: u32) -> (r: Ambient)
    ensures
        r == ambient_by(*old(cal)),
        *final(cal) == noted(*old(cal), perf, bal, now, gain),
{
    if has_fan_powers(cal) {
        return Ambient::OverFans;
    }
    if cal.cal_timestamp == 0 {
        set_fan_powers(cal, perf, bal, now, gain);
    }
    Ambient::Difference
}

/// Whether a calibration is what is kept after the fans were measured alone: the points
/// of the same microphone are kept.
pub open spec fn is_recalibrated(
    kept: Option<NoiseCal>,
    mic_hash: u64,
    gain: u32,
    perf: u32,
    bal: u32,
    now: u64,
    cal: NoiseCal,
) -> bool {
    &&& cal.fits()
    &&& cal.mic_hash == mic_hash
    &&& cal.ref_gain == gain
    &&& cal.fan_perf_power == perf
    &&& cal.fan_bal_power == bal
    &&& cal.cal_timestamp == now
    &&& match kept {
        Some(c) if c.mic_hash == mic_hash => cal.points@ == c.points@ && cal.num_points
            == c.num_points,
        _ => cal.num_points == 0,
    }
}

/// The calibration after the fans were measured alone.
pub fn after_calibration(
    kept: Option<NoiseCal>,
    mic_hash: u64,
    gain: u32,
    perf: u32,
    bal: u32,
    now: u64,
) -> (cal: NoiseCal)
    requires
        kept matches Some(c) ==> c.fits(),
    ensures
        is_recalibrated(kept, mic_hash, gain, perf, bal, now, cal),
{
    let mut cal: NoiseCal = cal_for(kept, mic_hash, gain);
    set_fan_powers(&mut cal, perf, bal, now, gain);
    cal
}

/// Once the fans were measured with a signal in both modes, the next measurement on
/// the same microphone asks the table, for thirty days.
pub proof fn calibration_enables_the_table(cal: NoiseCal, mic_hash: u64, now: u64, later: u64)
    requires
        cal.mic_hash == mic_hash,
        cal.cal_timestamp == now,
        crate::calibration::fans_known(cal),
        later < now + crate::calibration::MAX_CAL_AGE,
    ensures
        crate::audio::path_for(Some(cal), mic_hash, later) == Path::Fast,
{
}

/// The temperature of the service's answer: 0 where it is not known.
pub open spec fn temp_in(answer: Option<[u8; 2]>) -> u8 {
    match answer {
        Some(a) => if crate::protocol::ok_status(a@[0]) {
            a@[1]
        } else {
            0
        },
        None => 0,
    }
}

/// The temperature that goes with a measured point, of the service's answer: 0 where
/// it is not known.
pub fn point_temp(answer: Option<[u8; 2]>) -> (r: u8)
    ensures
        r == temp_in(answer),
{
    match answer {
        Some(a) => if status_ok(a[0]) {
            a[1]
        } else {
            0
        },
        None => 0,
    }
}

/// The point that a comparison adds to the table: the ambient level it was made at,
/// what it decided, and the temperature of the service's answer.
pub open spec fn point_of(
    decision: DecisionOutput,
    ambient_dbfs: u32,
    temp: Option<[u8; 2]>,
) -> CalPoint {
    CalPoint {
        ambient_dbfs,
        delta_db: decision.delta_db,
        chosen: decision.chosen,
        temp_c: temp_in(temp),
    }
}

/// The point that a comparison adds to the table.
pub fn comparison_point(
    decision: &DecisionOutput,
    ambient_dbfs: u32,
    temp: Option<[u8; 2]>,
) -> (pt: CalPoint)
    ensures
        pt == point_of(*decision, ambient_dbfs, temp),
{
    CalPoint {
        ambient_dbfs,
        delta_db: decision.delta_db,
        chosen: decision.chosen,
        temp_c: point_temp(temp),
    }
}

/// Whether a result is what a measurement led to: what was chosen and by how much, by the
/// table or not, the levels of the two modes, and the microphone.
pub open spec fn tells(
    r: SmartResult,
    chosen: u8,
    delta_db: u32,
    by_table: bool,
    level_balanced: u32,
    level_performance: u32,
    mic_name: Seq<char>,
    gain: u32,
) -> bool {
    &&& r.chosen_mode == chosen
    &&& r.delta_db == delta_db
    &&& r.fast_path == by_table
    &&& r.level_balanced == level_balanced
    &&& r.level_performance == level_performance
    &&& r.mic_name@ == mic_name
    &&& r.mic_gain == gain
}

/// What a comparison led to: what was decided, and with which microphone. The levels
/// of the two modes are those that were measured.
pub fn comparison_result(
    decision: &DecisionOutput,
    level_balanced: u32,
    level_performance: u32,
    mic_name: String,
    gain: u32,
) -> (r: SmartResult)
    ensures
        tells(
            r,
            decision.chosen,
            decision.delta_db,
            false,
            level_balanced,
            level_performance,
            mic_name@,
            gain,
        ),
{
    SmartResult {
        chosen_mode: decision.chosen,
        level_balanced,
        level_performance,
        delta_db: decision.delta_db,
        fast_path: false,
        mic_name,
        mic_gain: gain,
    }
}

/// What a quick measurement led to: what the table answered, and with which
/// microphone. The levels of the two modes are those of the fans alone.
pub fn fast_result(
    answer: (u8, u32),
    level_balanced: u32,
    level_performance: u32,
    mic_name: String,
    gain: u32,
) -> (r: SmartResult)
    ensures
        tells(
            r,
            answer.0,
            answer.1,
            true,
            level_balanced,
            level_performance,
            mic_name@,
            gain,
        ),
{
    SmartResult {
        chosen_mode: answer.0,
        level_balanced,
        level_performance,
        delta_db: answer.1,
        fast_path: true,
        mic_name,
        mic_gain: gain,
    }
}

/// What a calibration led to: the powers that were measured, and with which microphone.
pub fn calibration_result(perf: u32, bal: u32, mic_name: String, gain: u32) -> (r: StressCal)
    ensures
        r.fan_perf_power == perf,
        r.fan_bal_power == bal,
        r.mic_name@ == mic_name@,
        r.mic_gain == gain,
{
    StressCal { fan_perf_power: perf, fan_bal_power: bal, mic_name, mic_gain: gain }
}

/// A reading of temperature and mode.
#[derive(Clone, Copy, PartialEq, Eq, Structural, Debug)]
pub struct TelemetryReading {
    pub elapsed_ms: u64,
    pub temp_c: u8,
    pub mode: u8,
}

/// The reading that the service's answers make: temperature 0 and mode 255 where
/// they are not known.
pub open spec fn reading_of(
    elapsed_ms: u64,
    temp: Option<[u8; 2]>,
    mode: Option<[u8; 2]>,
) -> TelemetryReading {
    TelemetryReading {
        elapsed_ms,
        temp_c: temp_in(temp),
        mode: match mode {
            Some(a) => if crate::protocol::ok_status(a@[0]) {
                a@[1]
            } else {
                255
            },
            None => 255,
        },
    }
}

/// The reading that the service's answers make.
pub fn telemetry_reading(elapsed_ms: u64, temp: Option<[u8; 2]>, mode: Option<[u8; 2]>) -> (r:
    TelemetryReading)
    ensures
        r == reading_of(elapsed_ms, temp, mode),
{
    let mode_now: u8 = match mode {
        Some(a) => if status_ok(a[0]) {
            a[1]
        } else {
            255
        },
        None => 255,
    };
    TelemetryReading { elapsed_ms, temp_c: point_temp(temp), mode: mode_now }
}

/// The name of a thermal mode in a table.
pub open spec fn name_of_mode(mode: u8) -> Seq<char> {
    match mode {
        0 => "Performance"@,
        1 => "Balanced"@,
        2 => "Cool"@,
        3 => "PowerSaver"@,
        255 => "Unknown"@,
        _ => "Other"@,
    }
}

/// The name of a thermal mode in a table.
pub fn mode_name(mode: u8) -> (r: &'static str)
    ensures
        r@ == name_of_mode(mode),
{
    match mode {
        0 => "Performance",
        1 => "Balanced",
        2 => "Cool",
        3 => "PowerSaver",
        255 => "Unknown",
        _ => "Other",
    }
}

/// A reading as a line of a table.
pub open spec fn reading_line(r: TelemetryReading) -> Seq<char> {
    crate::text::decimal(r.elapsed_ms as int) + "\t"@ + crate::text::decimal(r.temp_c as int)
        + "\t"@ + crate::text::decimal(r.mode as int) + "\t"@ + name_of_mode(r.mode) + "\n"@
}

/// The readings as lines of a table.
pub open spec fn reading_lines(s: Seq<TelemetryReading>) -> Seq<char>
    decreases s.len(),
{
    if s.len() == 0 {
        Seq::empty()
    } else {
        reading_lines(s.drop_last()) + reading_line(s.last())
    }
}

/// The table of the readings.
pub fn write_telemetry_tsv(readings: &[TelemetryReading]) -> (out: String)
    ensures
        out@ == "elapsed_ms\ttemp_c\tmode\tmode_name\n"@ + reading_lines(readings@),
{
    let mut out: String = "elapsed_ms\ttemp_c\tmode\tmode_name\n".to_owned();
    let ghost head = out@;
    let mut i: usize = 0;
    proof {
        assert(readings@.take(0) =~= Seq::<TelemetryReading>::empty());
    }
    while i < readings.len()
        invariant
            i <= readings@.len(),
            out@ == head + reading_lines(readings@.take(i as int)),
        decreases readings@.len() - i,
    {
        let r: TelemetryReading = readings[i];
        let ghost before = out@;
        push_decimal(&mut out, r.elapsed_ms);
        out.append("\t");
        push_decimal(&mut out, r.temp_c as u64);
        out.append("\t");
        push_decimal(&mut out, r.mode as u64);
        out.append("\t");
        out.append(mode_name(r.mode));
        out.append("\n");
        proof {
            assert(out@ =~= before + reading_line(r));
            let t = readings@.take(i + 1);
            assert(t.drop_last() =~= readings@.take(i as int));
            assert(t.last() == r);
        }
        i = i + 1;
    }
    proof {
        assert(readings@.take(readings@.len() as int) =~= readings@);
    }
    out
}

/// The path of the calibration file.
pub open spec fn cal_path_of(data_dir: Seq<char>) -> Seq<char> {
    data_dir + "\\smart-cal.bin"@
}

/// The directory of the debug output, by the time it began.
pub open spec fn debug_dir_of(data_dir: Seq<char>, stamp: Seq<char>) -> Seq<char> {
    data_dir + "\\debug-cal-"@ + stamp
}

/// The path of the calibration file.
pub fn cal_path(data_dir: &str) -> (out: String)
    ensures
        out@ == cal_path_of(data_dir@),
{
    let mut out: String = data_dir.to_owned();
    out.append("\\smart-cal.bin");
    out
}

/// The directory of the debug output, by the time it began.
pub fn debug_dir(data_dir: &str, stamp: &str) -> (out: String)
    ensures
        out@ == debug_dir_of(data_dir@, stamp@),
{
    let mut out: String = data_dir.to_owned();
    out.append("\\debug-cal-");
    out.append(stamp);
    out
}

/// What the table answered is set: a mode is set only after the table was asked, and it
/// is exactly the one that it named.
pub proof fn the_answer_of_the_table_is_set(step: MeasureStep, event: MeasureEvent, mode: u8)
    ensures
        measure_after(step, event) == MeasureStep::SetMode(mode) <==> step is Fast && event
            == MeasureEvent::Asked(Some(mode)),
{
}

/// Where each step of a measurement comes from: the table is asked only where the
/// calibration allows it, and the modes are compared only where it does not, or where
/// the table did not answer.
pub proof fn measurements_take_their_course(step: MeasureStep, event: MeasureEvent)
    ensures
        measure_after(step, event) is Enumerate <==> step is InitCom && event
            != MeasureEvent::Failed,
        measure_after(step, event) is SelectDevice <==> step is Enumerate && event
            != MeasureEvent::Failed,
        measure_after(step, event) is ReadCache <==> step is SelectDevice && event
            != MeasureEvent::Failed,
        measure_after(step, event) is Fast <==> step is ReadCache && event == MeasureEvent::Cache(
            Path::Fast,
        ),
        measure_after(step, event) is Slow <==> (step is ReadCache && event != MeasureEvent::Cache(
            Path::Fast,
        )) || (step is Fast && !(event matches MeasureEvent::Asked(Some(_)))),
        !(measure_after(step, event) is InitCom),
{
}

/// How a measurement ends says what went wrong first: each outcome comes of the one step
/// that failed, and only of it, and what was measured counts as done only where the
/// table answered or the comparison succeeded.
pub proof fn measurements_tell_what_failed(step: MeasureStep, event: MeasureEvent, o: Outcome)
    ensures
        measure_after(step, event) == MeasureStep::UninitCom(o) <==> match o {
            Outcome::Done => step is SetMode || (step is Slow && event != MeasureEvent::Failed),
            Outcome::NoEnumerator => step is Enumerate && event == MeasureEvent::Failed,
            Outcome::NoDevice => step is SelectDevice && event == MeasureEvent::Failed,
            Outcome::RunFailed => step is Slow && event == MeasureEvent::Failed,
            Outcome::ComInitFailed => false,
        },
        measure_after(step, event) == MeasureStep::End(o) <==> step == MeasureStep::UninitCom(o)
            || step == MeasureStep::End(o) || (o is ComInitFailed && step is InitCom && event
            == MeasureEvent::Failed),
{
}

/// The same of the calibration: the plan is carried out only once a device was found, and
/// each outcome comes of the one step that failed.
pub proof fn calibrations_tell_what_failed(step: CalibrateStep, ok: bool, o: Outcome)
    ensures
        calibrate_after(step, ok) is Enumerate <==> step is InitCom && ok,
        calibrate_after(step, ok) is SelectDevice <==> step is Enumerate && ok,
        calibrate_after(step, ok) is Run <==> step is SelectDevice && ok,
        calibrate_after(step, ok) == CalibrateStep::UninitCom(o) <==> match o {
            Outcome::Done => step is Run && ok,
            Outcome::NoEnumerator => step is Enumerate && !ok,
            Outcome::NoDevice => step is SelectDevice && !ok,
            Outcome::RunFailed => step is Run && !ok,
            Outcome::ComInitFailed => false,
        },
        calibrate_after(step, ok) == CalibrateStep::End(o) <==> step == CalibrateStep::UninitCom(o)
            || step == CalibrateStep::End(o) || (o is ComInitFailed && step is InitCom && !ok),
{
}

/// How long was recorded before action `i` since the mode was set and the load began,
/// whichever was later, counting the shortest wait for the fans; zero without a load.
pub open spec fn steady_ms(plan: Seq<Action>, i: int) -> int
    decreases i,
{
    if i <= 0 {
        0
    } else {
        match plan[i - 1] {
            Action::SetMode(_) | Action::StartLoad { .. } | Action::StopLoad => 0,
            Action::Record(ms) => if loaded_before(plan, i - 1) {
                steady_ms(plan, i - 1) + ms
            } else {
                0
            },
            Action::Settle { min_ms, .. } => if loaded_before(plan, i - 1) {
                steady_ms(plan, i - 1) + min_ms
            } else {
                0
            },
            _ => steady_ms(plan, i - 1),
        }
    }
}

/// How long was recorded before action `i` since the windows of `mode` began; none where
/// they did not, or ended since.
pub open spec fn window_ms(plan: Seq<Action>, mode: u8, i: int) -> Option<int>
    decreases i,
{
    if i <= 0 {
        None
    } else {
        match plan[i - 1] {
            Action::Begin(m) => if m == mode {
                Some(0)
            } else {
                window_ms(plan, mode, i - 1)
            },
            Action::Finish(m) => if m == mode {
                None
            } else {
                window_ms(plan, mode, i - 1)
            },
            Action::Record(ms) => match window_ms(plan, mode, i - 1) {
                Some(w) => Some(w + ms),
                None => None,
            },
            Action::SetMode(_) | Action::StartLoad { .. } | Action::StopLoad | Action::Settle {
                ..
            } => None,
            _ => window_ms(plan, mode, i - 1),
        }
    }
}

/// How often the plan ends the windows of a mode, in its first `i` actions.
pub open spec fn finishes(plan: Seq<Action>, mode: u8, i: int) -> int
    decreases i,
{
    if i <= 0 {
        0
    } else {
        finishes(plan, mode, i - 1) + if plan[i - 1] == Action::Finish(mode) {
            1int
        } else {
            0
        }
    }
}

/// Whether a plan measures both modes, and each just once: its windows are those of
/// `ms` milliseconds without a break, in that mode and under load, and the fans had
/// `steady` milliseconds of the same mode and load before them.
pub open spec fn measures_both_modes(plan: Seq<Action>, ms: int, steady: int) -> bool {
    &&& finishes(plan, 0, plan.len() as int) == 1
    &&& finishes(plan, 1, plan.len() as int) == 1
    &&& forall|i: int|
        0 <= i < plan.len() ==> match #[trigger] plan[i] {
            Action::Begin(m) => m <= 1 && mode_before(plan, i, 255) == m && steady_ms(plan, i)
                >= steady,
            Action::Finish(m) => m <= 1 && window_ms(plan, m, i) == Some(ms),
            _ => true,
        }
}

/// In the calibration the windows of each mode are fifteen seconds of recording, after
/// at least fifteen seconds of recording under load in that mode.
pub proof fn calibration_measures_steady_fans(threads: usize)
    ensures
        measures_both_modes(calibration_run(threads), 15_000, 15_000),
{
    reveal_with_fuel(mode_before, 36);
    reveal_with_fuel(loaded_before, 36);
    reveal_with_fuel(steady_ms, 36);
    reveal_with_fuel(window_ms, 36);
    reveal_with_fuel(finishes, 36);
}

/// In the comparison the windows of each mode are three seconds of recording, after the
/// fans had at least eight seconds, and at most twenty, to settle under load in that mode.
pub proof fn comparison_measures_settled_fans(threads: usize, debug: bool)
    ensures
        measures_both_modes(comparison(threads, debug), 3_000, 8_000),
        forall|i: int|
            0 <= i < comparison(threads, debug).len() ==> match #[trigger] comparison(
                threads,
                debug,
            )[i] {
                Action::Settle { min_ms, max_ms } => min_ms == 8_000 && max_ms == 20_000,
                _ => true,
            },
{
    let plan = comparison(threads, debug);
    reveal_with_fuel(mode_before, 24);
    reveal_with_fuel(loaded_before, 24);
    reveal_with_fuel(steady_ms, 24);
    reveal_with_fuel(window_ms, 24);
    reveal_with_fuel(finishes, 24);
    assert(plan.len() == if debug {
        22int
    } else {
        20
    });
}

/// Whether the recording is open before action `i`.
pub open spec fn open_before(plan: Seq<Action>, i: int) -> bool
    decreases i,
{
    if i <= 0 {
        false
    } else {
        match plan[i - 1] {
            Action::OpenStream { .. } => true,
            Action::CloseStream => false,
            _ => open_before(plan, i - 1),
        }
    }
}

/// Whether nothing is recorded, written or closed but while the recording is open, it is
/// opened and closed once, and saving comes last.
pub open spec fn records_while_open(plan: Seq<Action>) -> bool {
    &&& !open_before(plan, plan.len() as int)
    &&& plan.last() is Save
    &&& forall|i: int|
        0 <= i < plan.len() ==> match #[trigger] plan[i] {
            Action::Record(_) | Action::Settle { .. } | Action::Begin(_) | Action::Finish(_) => {
                open_before(plan, i)
            },
            Action::WriteTable | Action::WriteDebugFiles | Action::CloseStream => open_before(
                plan,
                i,
            ),
            Action::OpenStream { .. } => !open_before(plan, i),
            Action::Save => i == plan.len() - 1,
            _ => true,
        }
}

/// The calibration, and the comparison with its end, record only while the recording is
/// open, close it, and save at the very end, after everything was measured.
pub proof fn recordings_are_closed_and_saved(threads: usize, debug: bool, chosen: u8)
    ensures
        records_while_open(calibration_run(threads)),
        records_while_open(comparison(threads, debug) + comparison_end(chosen, debug)),
{
    let plan = comparison(threads, debug) + comparison_end(chosen, debug);
    reveal_with_fuel(open_before, 36);
    assert(plan.len() == if debug {
        27int
    } else {
        25
    });
}

/// The mode of which a phase tells, and whether it tells of a load.
pub open spec fn told_by_phase(p: Phase) -> (Option<u8>, Option<bool>) {
    match p {
        Phase::SettlePerf | Phase::FalloffPerf => (Some(0), None),
        Phase::LoadPerf | Phase::SteadyPerf | Phase::CapturePerf => (Some(0), Some(true)),
        Phase::SettleBal | Phase::FalloffBal => (Some(1), None),
        Phase::LoadBal | Phase::SteadyBal | Phase::CaptureBal => (Some(1), Some(true)),
        Phase::Cooldown => (None, Some(false)),
        Phase::Init | Phase::End => (None, None),
    }
}

/// Whether each phase that a plan marks is true of the mode and the load at that point.
pub open spec fn phases_are_true(plan: Seq<Action>) -> bool {
    forall|i: int|
        0 <= i < plan.len() ==> match #[trigger] plan[i] {
            Action::Mark(p) => {
                &&& told_by_phase(p).0 matches Some(m) ==> mode_before(plan, i, 255) == m
                &&& told_by_phase(p).1 matches Some(l) ==> loaded_before(plan, i) == l
            },
            _ => true,
        }
}

/// The phases that are marked in a recording tell the truth about it.
pub proof fn marks_tell_the_truth(threads: usize, debug: bool)
    ensures
        phases_are_true(calibration_run(threads)),
        phases_are_true(comparison(threads, debug)),
{
    let plan = comparison(threads, debug);
    reveal_with_fuel(mode_before, 36);
    reveal_with_fuel(loaded_before, 36);
    assert(plan.len() == if debug {
        22int
    } else {
        20
    });
}

/// The longest that the first `i` actions take since the load began, in milliseconds, and
/// the limit that it began with.
pub open spec fn under_load(plan: Seq<Action>, i: int) -> (int, int)
    decreases i,
{
    if i <= 0 {
        (0, 0)
    } else {
        let (ms, limit) = under_load(plan, i - 1);
        match plan[i - 1] {
            Action::StartLoad { max_secs, .. } => (0, 1000 * max_secs),
            Action::Record(d) => (ms + d, limit),
            Action::Settle { max_ms, .. } => (ms + max_ms, limit),
            _ => (ms, limit),
        }
    }
}

/// Whether the load, once begun, lasts until it is ended, with all the threads given.
pub open spec fn load_lasts(plan: Seq<Action>, threads: usize) -> bool {
    forall|i: int|
        0 <= i < plan.len() ==> match #[trigger] plan[i] {
            Action::StopLoad => loaded_before(plan, i) && under_load(plan, i).0 < under_load(
                plan,
                i,
            ).1,
            Action::StartLoad { threads: n, .. } => n == threads && !loaded_before(plan, i),
            _ => true,
        }
}

/// The load does not end by itself before the plan ends it, however long the fans take.
pub proof fn the_load_lasts(threads: usize, debug: bool)
    ensures
        load_lasts(calibration_run(threads), threads),
        load_lasts(comparison(threads, debug), threads),
{
    let plan = comparison(threads, debug);
    reveal_with_fuel(under_load, 36);
    reveal_with_fuel(loaded_before, 36);
    assert(plan.len() == if debug {
        22int
    } else {
        20
    });
}

/// Debug output is made just for a debug run: the samples are kept, the readings begin
/// before the recording and stop before they are written, and the files are written in
/// place of the table.
pub proof fn debug_runs_keep_everything(threads: usize, debug: bool, chosen: u8)
    ensures
        ({
            let plan = comparison(threads, debug);
            let end = comparison_end(chosen, debug);
            &&& plan.contains(Action::OpenStream { keep: debug })
            &&& !plan.contains(Action::OpenStream { keep: !debug })
            &&& plan.contains(Action::StartTelemetry) == debug
            &&& plan.contains(Action::CreateDebugDir) == debug
            &&& end.contains(Action::WriteDebugFiles) == debug
            &&& end.contains(Action::WriteTable) == !debug
            &&& end[0] == Action::SetMode(chosen)
            &&& end.index_of(Action::StopTelemetry) < end.index_of(
                if debug {
                    Action::WriteDebugFiles
                } else {
                    Action::WriteTable
                },
            )
        }),
{
    let plan = comparison(threads, debug);
    let end = comparison_end(chosen, debug);
    if debug {
        assert(plan[0] is CreateDebugDir && plan[1] is StartTelemetry);
        assert(plan[2] == Action::OpenStream { keep: debug });
        assert(end[2] is WriteDebugFiles);
    } else {
        assert(plan[0] == Action::OpenStream { keep: debug });
        assert(end[2] is WriteTable);
    }
    assert(end[1] is StopTelemetry);
    assert(end.contains(Action::StopTelemetry));
}

/// As many threads load the processor as there are processors, up to four; beyond
/// sixteen processors, a quarter as many. More processors never mean fewer threads.
pub proof fn threads_grow_with_the_processors(processors: int, more: int)
    requires
        0 <= processors <= more,
    ensures
        comparison_threads(processors) <= comparison_threads(more),
        comparison_threads(processors) <= processors,
        processors <= 4 ==> comparison_threads(processors) == processors,
        4 <= processors <= 19 ==> comparison_threads(processors) == 4,
        processors >= 16 ==> 4 * comparison_threads(processors) <= processors < 4
            * comparison_threads(processors) + 4,
{
}

/// The wait for the fans: it does not end before the shortest wait is over, nor go on
/// once the longest is; in between it ends as soon as the fans have settled.
pub proof fn the_wait_keeps_to_its_limits(
    looking: bool,
    elapsed: u64,
    min_ms: u64,
    max_ms: u64,
    settled: bool,
)
    ensures
        ({
            let next = settle_next(looking, elapsed, min_ms, max_ms, settled);
            &&& next is Look <==> !looking && elapsed >= min_ms
            &&& next is Wait <==> !looking && elapsed < min_ms
            &&& next is TimedOut <==> looking && elapsed >= max_ms
            &&& next is Detected <==> looking && elapsed < max_ms && settled
            &&& next is KeepLooking <==> looking && elapsed < max_ms && !settled
        }),
{
}

/// A thread that was told to stop ends after its batch, and one that was not ends within
/// 64 batches of its deadline; before the deadline only the word ends it.
pub proof fn threads_end(batch: u32, later: u32, past_deadline: bool)
    requires
        batch <= later,
        later % 64 == 0,
    ensures
        !keeps_loading(batch, true, past_deadline),
        keeps_loading(batch, false, false),
        !keeps_loading(later, false, true),
{
}

/// What the fans measured alone is not overwritten by a comparison. Where nothing was
/// measured, the powers of the comparison stand in, each for its mode, from now on.
pub proof fn comparisons_only_stand_in(cal: NoiseCal, perf: u32, bal: u32, now: u64, gain: u32)
    ensures
        ({
            let after = noted(cal, perf, bal, now, gain);
            &&& cal.cal_timestamp != 0 || crate::calibration::fans_known(cal) ==> after == cal
            &&& cal.cal_timestamp == 0 && !crate::calibration::fans_known(cal) ==> {
                &&& crate::audio::fans_in(after, 0) == perf
                &&& crate::audio::fans_in(after, 1) == bal
                &&& after.cal_timestamp == now
                &&& after.ref_gain == gain
            }
            &&& after.points@ == cal.points@ && after.num_points == cal.num_points
                && after.mic_hash == cal.mic_hash
            &&& ambient_by(cal) is OverFans <==> crate::single::below(0, crate::audio::fans_in(cal, 0))
                && crate::single::below(0, crate::audio::fans_in(cal, 1))
        }),
{
}

/// A calibration keeps what was measured, Performance as Performance and Balanced as
/// Balanced, and is good from then on; the points of the same microphone stay, those of
/// another go.
pub proof fn calibrations_keep_what_was_measured(
    kept: Option<NoiseCal>,
    mic_hash: u64,
    gain: u32,
    perf: u32,
    bal: u32,
    now: u64,
    cal: NoiseCal,
)
    requires
        is_recalibrated(kept, mic_hash, gain, perf, bal, now, cal),
    ensures
        cal.fan_perf_power == perf,
        cal.fan_bal_power == bal,
        cal.ref_gain == gain,
        kept is Some && kept->0.mic_hash == mic_hash ==> cal.table() == kept->0.table(),
        !(kept is Some && kept->0.mic_hash == mic_hash) ==> cal.table().len() == 0,
        crate::single::below(0, perf) && crate::single::below(0, bal) && now < u64::MAX - 2_592_000
            ==> crate::audio::path_for(Some(cal), mic_hash, now) == Path::Fast,
{
}

/// A comparison is remembered as it went: at the level it was made at, with the mode it
/// chose and by how much. The temperature counts only where the service gave it.
pub proof fn comparisons_are_remembered(
    decision: DecisionOutput,
    ambient_dbfs: u32,
    status: u8,
    temp: u8,
)
    ensures
        ({
            let pt = point_of(decision, ambient_dbfs, Some([status, temp]));
            let blind = point_of(decision, ambient_dbfs, None);
            &&& pt.ambient_dbfs == ambient_dbfs && blind.ambient_dbfs == ambient_dbfs
            &&& pt.chosen == decision.chosen && blind.chosen == decision.chosen
            &&& pt.delta_db == decision.delta_db && blind.delta_db == decision.delta_db
            &&& pt.temp_c == if status == 0 || status == 128 {
                temp
            } else {
                0
            }
            &&& blind.temp_c == 0
        }),
{
}

/// A result says what was chosen and by how much, which level is of which mode, and what
/// it was heard with.
pub proof fn results_tell_what_was_measured(
    r: SmartResult,
    chosen: u8,
    delta_db: u32,
    by_table: bool,
    level_balanced: u32,
    level_performance: u32,
    mic_name: Seq<char>,
    gain: u32,
)
    requires
        tells(r, chosen, delta_db, by_table, level_balanced, level_performance, mic_name, gain),
    ensures
        r.chosen_mode == chosen && r.delta_db == delta_db,
        r.fast_path <==> by_table,
        r.level_balanced == level_balanced && r.level_performance == level_performance,
        r.mic_name@ == mic_name && r.mic_gain == gain,
{
}

/// A reading holds what the service said, and no value of one that failed: temperature
/// and mode each stand for themselves.
pub proof fn readings_hold_what_was_said(
    elapsed_ms: u64,
    status: u8,
    value: u8,
    other: Option<[u8; 2]>,
)
    ensures
        ({
            let good = status == 0 || status == 128;
            let answer: Option<[u8; 2]> = Some([status, value]);
            &&& reading_of(elapsed_ms, answer, other).temp_c == if good {
                value
            } else {
                0
            }
            &&& reading_of(elapsed_ms, other, answer).mode == if good {
                value
            } else {
                255
            }
            &&& reading_of(elapsed_ms, None, other).temp_c == 0
            &&& reading_of(elapsed_ms, other, None).mode == 255
            &&& reading_of(elapsed_ms, answer, other).elapsed_ms == elapsed_ms
        }),
{
}

/// A reading is a line of four columns: when, how warm, the number of the mode and its
/// name. The names are those of the modes by their numbers.
pub proof fn readings_are_lines_of_four(r: TelemetryReading)
    ensures
        ({
            let columns = crate::text::split(reading_line(r).drop_last(), '\t');
            &&& reading_line(r).last() == '\n'
            &&& columns.len() == 4
            &&& crate::text::number_in(columns[0], 10) == r.elapsed_ms
            &&& crate::text::number_in(columns[1], 10) == r.temp_c
            &&& crate::text::number_in(columns[2], 10) == r.mode
            &&& columns[3] == name_of_mode(r.mode)
        }),
        r.mode == 0 <==> name_of_mode(r.mode) == "Performance"@,
        r.mode == 1 <==> name_of_mode(r.mode) == "Balanced"@,
        r.mode == 2 <==> name_of_mode(r.mode) == "Cool"@,
        r.mode == 3 <==> name_of_mode(r.mode) == "PowerSaver"@,
        r.mode == 255 <==> name_of_mode(r.mode) == "Unknown"@,
{
    reveal_strlit("\t");
    reveal_strlit("\n");
    reveal_strlit("Performance");
    reveal_strlit("Balanced");
    reveal_strlit("Cool");
    reveal_strlit("PowerSaver");
    reveal_strlit("Unknown");
    reveal_strlit("Other");
    assert("Performance"@.len() == 11);
    assert("Balanced"@.len() == 8);
    assert("Cool"@.len() == 4);
    assert("PowerSaver"@.len() == 10);
    assert("Unknown"@.len() == 7);
    assert("Other"@.len() == 5);
    let a = crate::text::decimal(r.elapsed_ms as int);
    let b = crate::text::decimal(r.temp_c as int);
    let c = crate::text::decimal(r.mode as int);
    let d = name_of_mode(r.mode);
    crate::text::decimals_are_read_back(r.elapsed_ms as int);
    crate::text::decimals_are_read_back(r.temp_c as int);
    crate::text::decimals_are_read_back(r.mode as int);
    assert(!a.contains('\t'));
    assert(!b.contains('\t'));
    assert(!c.contains('\t'));
    assert(!d.contains('\t'));
    let ab = a.push('\t') + b;
    let abc = ab.push('\t') + c;
    let abcd = abc.push('\t') + d;
    crate::text::separators_part_the_pieces(a, a, '\t');
    crate::text::separators_part_the_pieces(a, b, '\t');
    crate::text::separators_part_the_pieces(ab, c, '\t');
    crate::text::separators_part_the_pieces(abc, d, '\t');
    assert(reading_line(r) =~= abcd.push('\n'));
    assert(reading_line(r).drop_last() =~= abcd);
}

/// A phase is known by its name, and those of Performance and of Balanced by its end.
pub proof fn phases_are_told_by_their_names(a: Phase, b: Phase)
    ensures
        phase_name(a) == phase_name(b) ==> a == b,
        crate::text::finishes_with(phase_name(a), "_perf"@) <==> a is SettlePerf || a is LoadPerf
            || a is SteadyPerf || a is FalloffPerf || a is CapturePerf,
        crate::text::finishes_with(phase_name(a), "_bal"@) <==> a is SettleBal || a is LoadBal || a
            is SteadyBal || a is FalloffBal || a is CaptureBal,
        a is SettlePerf || a is SettleBal <==> crate::text::begins_with(
            phase_name(a),
            "settle_"@,
        ),
        a is SteadyPerf || a is SteadyBal <==> crate::text::begins_with(
            phase_name(a),
            "steady_"@,
        ),
{
    reveal_strlit("init");
    reveal_strlit("settle_perf");
    reveal_strlit("load_perf");
    reveal_strlit("steady_perf");
    reveal_strlit("falloff_perf");
    reveal_strlit("capture_perf");
    reveal_strlit("cooldown");
    reveal_strlit("settle_bal");
    reveal_strlit("load_bal");
    reveal_strlit("steady_bal");
    reveal_strlit("falloff_bal");
    reveal_strlit("capture_bal");
    reveal_strlit("end");
    reveal_strlit("_perf");
    reveal_strlit("_bal");
    reveal_strlit("settle_");
    reveal_strlit("steady_");
    assert("init"@.len() == 4 && "init"@[0] == 'i' && "init"@[1] == 'n');
    assert("settle_perf"@.len() == 11 && "settle_perf"@[0] == 's' && "settle_perf"@[1] == 'e');
    assert("load_perf"@.len() == 9 && "load_perf"@[0] == 'l' && "load_perf"@[1] == 'o');
    assert("steady_perf"@.len() == 11 && "steady_perf"@[0] == 's' && "steady_perf"@[1] == 't');
    assert("falloff_perf"@.len() == 12 && "falloff_perf"@[0] == 'f' && "falloff_perf"@[1] == 'a');
    assert("capture_perf"@.len() == 12 && "capture_perf"@[0] == 'c' && "capture_perf"@[1] == 'a');
    assert("cooldown"@.len() == 8 && "cooldown"@[0] == 'c' && "cooldown"@[1] == 'o');
    assert("settle_bal"@.len() == 10 && "settle_bal"@[0] == 's' && "settle_bal"@[1] == 'e');
    assert("load_bal"@.len() == 8 && "load_bal"@[0] == 'l' && "load_bal"@[1] == 'o');
    assert("steady_bal"@.len() == 10 && "steady_bal"@[0] == 's' && "steady_bal"@[1] == 't');
    assert("falloff_bal"@.len() == 11 && "falloff_bal"@[0] == 'f' && "falloff_bal"@[1] == 'a');
    assert("capture_bal"@.len() == 11 && "capture_bal"@[0] == 'c' && "capture_bal"@[1] == 'a');
    assert("end"@.len() == 3 && "end"@[0] == 'e' && "end"@[1] == 'n');
    let n = phase_name(a);
    let four = n.skip(n.len() - 4);
    let five = n.skip(n.len() - 5);
    if n.len() >= 5 {
        assert(five[4] == n.last());
        assert(five[0] == n[n.len() - 5]);
    }
    if n.len() >= 4 {
        assert(four[3] == n.last());
        assert(four[0] == n[n.len() - 4]);
    }
    if n.len() >= 7 {
        assert(n.take(7)[0] == n[0]);
        assert(n.take(7)[1] == n[1]);
        assert(n.take(7)[3] == n[3]);
        assert(n.take(7)[2] == n[2]);
    }
    if a is SettlePerf || a is LoadPerf || a is SteadyPerf || a is FalloffPerf || a is CapturePerf {
        assert(five =~= "_perf"@);
    }
    if a is SettleBal || a is LoadBal || a is SteadyBal || a is FalloffBal || a is CaptureBal {
        assert(four =~= "_bal"@);
    }
    if a is SettlePerf || a is SettleBal {
        assert(n.take(7) =~= "settle_"@);
    }
    if a is SteadyPerf || a is SteadyBal {
        assert(n.take(7) =~= "steady_"@);
    }
    assert("_perf"@[4] == 'f' && "_bal"@[3] == 'l' && "_perf"@[0] == '_' && "_bal"@[0] == '_');
    assert("settle_"@[1] == 'e' && "steady_"@[1] == 't' && "settle_"@[0] == 's' && "steady_"@[0] == 's');
}

/// A run ends where there is nothing to record to or to record with, or nothing more is
/// recorded. What only notes, switches, loads, writes or saves does not end it.
pub proof fn only_a_lost_recording_ends_the_run(a: Action)
    ensures
        a is OpenStream || a is Record || a is Settle || a is CreateDebugDir ==> is_vital(a),
        a is SetMode || a is StartLoad || a is StopLoad || a is VerifyMode ==> !is_vital(a),
        a is Mark || a is Begin || a is Finish || a is StartTelemetry || a is StopTelemetry
            ==> !is_vital(a),
        a is WriteTable || a is WriteDebugFiles || a is CloseStream || a is Save ==> !is_vital(a),
{
}

/// The calibration is kept in the data directory, under its own name, and every debug
/// output in a directory of its own beside it. Stamps that hold a separator are left out.
pub proof fn calibrations_are_kept_in_the_data_directory(data_dir: Seq<char>, stamp: Seq<char>)
    requires
        crate::path::is_on_drive(data_dir),
        !stamp.contains('\\'),
        !stamp.contains('/'),
    ensures
        crate::path::components(cal_path_of(data_dir)) == crate::path::components(data_dir).push(
            crate::path::Component::Name("smart-cal.bin"@),
        ),
        crate::path::components(debug_dir_of(data_dir, stamp)) == crate::path::components(
            data_dir,
        ).push(crate::path::Component::Name("debug-cal-"@ + stamp)),
{
    reveal_strlit("\\smart-cal.bin");
    reveal_strlit("smart-cal.bin");
    reveal_strlit("\\debug-cal-");
    reveal_strlit("debug-cal-");
    let name = "smart-cal.bin"@;
    let dir = "debug-cal-"@ + stamp;
    assert("smart-cal.bin"@.len() == 13);
    assert("debug-cal-"@.len() == 10);
    assert(seq!['.'].len() == 1);
    assert forall|i: int| 0 <= i < dir.len() implies dir[i] != '\\' && dir[i] != '/' by {
        if i >= 10 {
            assert(dir[i] == stamp[i - 10]);
            assert(stamp.contains(stamp[i - 10]));
        }
    }
    assert(cal_path_of(data_dir) =~= data_dir + seq!['\\'] + name);
    assert(debug_dir_of(data_dir, stamp) =~= data_dir + seq!['\\'] + dir);
    crate::path::names_stand_below_their_directory(data_dir, name);
    crate::path::names_stand_below_their_directory(data_dir, dir);
}

} // verus!
