//! Choosing between Performance and Balanced by how much louder the fans get.
//!
//! Powers, levels and gains are bit patterns of single-precision numbers (see
//! `single`): the program around this library measures and computes them, and
//! the functions here decide what they mean.

use vstd::prelude::*;

use crate::calibration::{has_fan_powers, CalPoint, NoiseCal, MAX_CAL_AGE};
use crate::single::{abs, less, not_less, ZERO};

verus! {

/// The fans count as audible from this difference on: 3 dB.
pub const THRESHOLD_DB: u32 = 0x4040_0000;

/// The pattern of 1.
pub const ONE: u32 = 0x3F80_0000;

/// The pattern of 20, the difference in dB where Balanced is silent.
pub const TWENTY: u32 = 0x41A0_0000;

/// The pattern of 200, the shift of the centroid in Hz that means something.
pub const CENTROID_SHIFT_HZ: u32 = 0x4348_0000;

/// The pattern of 1e-4, the tonal power from which tones count.
pub const TONAL_FLOOR: u32 = 0x38D1_B717;

/// The pattern of 1e-10, the power from which there is a signal.
pub const POWER_FLOOR: u32 = 0x2EDB_E6FF;

/// The pattern of 1.5: below the threshold by the width of the uncertain band.
pub const BAND_LOW_DB: u32 = 0x3FC0_0000;

/// The pattern of 4.5: above the threshold by the width of the uncertain band.
pub const BAND_HIGH_DB: u32 = 0x4090_0000;

/// The pattern of 0.01, the reference gain from which it is used.
pub const GAIN_FLOOR: u32 = 0x3C23_D70A;

/// The pattern of 0.001, the span in dB over which can be interpolated.
pub const SPAN_FLOOR: u32 = 0x3A83_126F;

/// How long the quick measurement listens, in milliseconds.
pub const FAST_CAPTURE_MS: u32 = 1500;

/// How long the comparison listens in each mode, in milliseconds.
pub const SLOW_CAPTURE_MS: u32 = 3000;

/// The least number of threads that load the processor during the comparison.
pub const AB_STRESS_THREADS: usize = 4;

/// How many windows without a moving tone mean that the fans have settled.
pub const SETTLE_STABLE_FRAMES: usize = 48;

/// The longest wait for the fans to settle, in milliseconds.
pub const MAX_SETTLE_MS: u64 = 20_000;

/// The shortest wait for the fans to settle, in milliseconds.
pub const MIN_SETTLE_MS: u64 = 8_000;

/// What a measurement led to.
pub struct SmartResult {
    pub chosen_mode: u8,
    pub level_balanced: u32,
    pub level_performance: u32,
    pub delta_db: u32,
    pub fast_path: bool,
    pub mic_name: String,
    pub mic_gain: u32,
}

/// What the calibration under load measured.
pub struct StressCal {
    pub fan_perf_power: u32,
    pub fan_bal_power: u32,
    pub mic_name: String,
    pub mic_gain: u32,
}

/// What the menu shows of the calibration.
#[derive(Clone, Copy, PartialEq, Eq, Structural, Debug)]
pub struct NoiseDebugInfo {
    pub fan_perf_power: u32,
    pub fan_bal_power: u32,
    pub num_points: u32,
    pub crossover_dbfs: Option<u32>,
    pub cal_age_secs: u64,
}

/// What the comparison of the two modes measured.
#[derive(Clone, Copy, PartialEq, Eq, Structural, Debug)]
pub struct DecisionInput {
    pub perf_power: u32,
    pub bal_power: u32,
    pub perf_tonal: u32,
    pub bal_tonal: u32,
    /// The moving tones per window, on average.
    pub avg_moving_perf: u32,
    pub avg_moving_bal: u32,
    pub current_mode: u8,
    /// How much higher the spectral centroid is in Performance, in Hz.
    pub centroid_shift_hz: u32,
}

/// What the comparison of the two modes leads to.
#[derive(Clone, Copy, PartialEq, Eq, Structural, Debug)]
pub struct DecisionOutput {
    pub chosen: u8,
    pub delta_db: u32,
    pub used_tonal: bool,
    pub low_confidence: bool,
}

/// Whether there are tones of a fan in either mode.
pub open spec fn has_tones(i: DecisionInput) -> bool {
    crate::single::below(TONAL_FLOOR, i.perf_tonal) || crate::single::below(
        TONAL_FLOOR,
        i.bal_tonal,
    )
}

/// The powers that are compared, Performance first: those of the tones where there
/// are any, else all of it.
pub open spec fn compared(i: DecisionInput) -> (u32, u32) {
    if has_tones(i) {
        (i.perf_tonal, i.bal_tonal)
    } else {
        (i.perf_power, i.bal_power)
    }
}

/// The difference in dB. `ratio_db` is that of the compared powers, which counts
/// where Balanced has a signal.
pub open spec fn difference(i: DecisionInput, ratio_db: u32) -> u32 {
    let (perf, bal) = compared(i);
    if crate::single::below(POWER_FLOOR, bal) {
        ratio_db
    } else if crate::single::below(POWER_FLOOR, perf) {
        TWENTY
    } else {
        ZERO
    }
}

/// Whether the measurement says nothing: less than 1 dB apart, and no fan moved.
pub open spec fn is_unsure(i: DecisionInput, delta_db: u32) -> bool {
    &&& crate::single::below(crate::single::absolute(delta_db), ONE)
    &&& crate::single::below(i.avg_moving_perf, ONE)
    &&& crate::single::below(i.avg_moving_bal, ONE)
}

/// Whether the centroid moved the same way as the power, and far enough to settle
/// a difference between 1 dB and the threshold.
pub open spec fn is_boosted(i: DecisionInput, delta_db: u32) -> bool {
    let size = crate::single::absolute(delta_db);
    &&& crate::single::at_least(size, ONE)
    &&& crate::single::below(size, THRESHOLD_DB)
    &&& crate::single::below(CENTROID_SHIFT_HZ, crate::single::absolute(i.centroid_shift_hz))
    &&& {
        ||| crate::single::below(ZERO, delta_db) && crate::single::below(ZERO, i.centroid_shift_hz)
        ||| crate::single::below(delta_db, ZERO) && crate::single::below(i.centroid_shift_hz, ZERO)
    }
}

/// The decision: the mode stays where the measurement says nothing; else Balanced
/// where Performance is louder by the threshold, or by less and the centroid
/// agrees; else Performance.
pub open spec fn decided(i: DecisionInput, delta_db: u32) -> u8 {
    if is_unsure(i, delta_db) {
        i.current_mode
    } else if crate::single::at_least(delta_db, THRESHOLD_DB) || (is_boosted(i, delta_db)
        && crate::single::below(ZERO, delta_db)) {
        1
    } else {
        0
    }
}

/// The powers that are compared, Performance first.
pub fn compared_powers(input: &DecisionInput) -> (r: (u32, u32))
    ensures
        r == compared(*input),
{
    if less(TONAL_FLOOR, input.perf_tonal) || less(TONAL_FLOOR, input.bal_tonal) {
        (input.perf_tonal, input.bal_tonal)
    } else {
        (input.perf_power, input.bal_power)
    }
}

/// Decides which mode to use. `ratio_db` is ten times the logarithm of the ratio of
/// the compared powers.
pub fn compute_decision(input: &DecisionInput, ratio_db: u32) -> (r: DecisionOutput)
    ensures
        r.used_tonal == has_tones(*input),
        r.delta_db == difference(*input, ratio_db),
        r.low_confidence == is_unsure(*input, r.delta_db),
        r.chosen == decided(*input, r.delta_db),
{
    let (perf, bal) = compared_powers(input);
    let used_tonal: bool = less(TONAL_FLOOR, input.perf_tonal) || less(
        TONAL_FLOOR,
        input.bal_tonal,
    );
    let delta_db: u32 = if less(POWER_FLOOR, bal) {
        ratio_db
    } else if less(POWER_FLOOR, perf) {
        TWENTY
    } else {
        ZERO
    };
    let size: u32 = abs(delta_db);
    let low_confidence: bool = less(size, ONE) && less(input.avg_moving_perf, ONE) && less(
        input.avg_moving_bal,
        ONE,
    );
    let shift: u32 = input.centroid_shift_hz;
    let same_way: bool = (less(ZERO, delta_db) && less(ZERO, shift)) || (less(delta_db, ZERO)
        && less(shift, ZERO));
    let boosted: bool = not_less(size, ONE) && less(size, THRESHOLD_DB) && less(
        CENTROID_SHIFT_HZ,
        abs(shift),
    ) && same_way;
    let chosen: u8 = if low_confidence {
        input.current_mode
    } else if not_less(delta_db, THRESHOLD_DB) || (boosted && less(ZERO, delta_db)) {
        1
    } else {
        0
    };
    DecisionOutput { chosen, delta_db, used_tonal, low_confidence }
}

/// A difference of the threshold or more chooses Balanced, whatever else was
/// measured.
pub proof fn audible_fans_choose_balanced(i: DecisionInput, delta_db: u32)
    requires
        crate::single::at_least(delta_db, THRESHOLD_DB),
    ensures
        decided(i, delta_db) == 1,
{
}

/// A decision is for Performance, for Balanced, or for the mode that the machine is in.
pub proof fn decisions_name_a_mode(i: DecisionInput, delta_db: u32)
    ensures
        decided(i, delta_db) == 0 || decided(i, delta_db) == 1 || decided(i, delta_db)
            == i.current_mode,
{
}

/// Where Performance is not the louder mode, Balanced is only kept, never chosen.
pub proof fn quiet_fans_do_not_choose_balanced(i: DecisionInput, delta_db: u32)
    requires
        !crate::single::below(ZERO, delta_db),
    ensures
        decided(i, delta_db) == 1 ==> i.current_mode == 1,
{
}

/// Silence in both modes keeps the mode, provided that no fan was seen to move.
pub proof fn silence_keeps_the_mode(i: DecisionInput, ratio_db: u32)
    requires
        !crate::single::below(POWER_FLOOR, compared(i).0),
        !crate::single::below(POWER_FLOOR, compared(i).1),
        crate::single::below(i.avg_moving_perf, ONE),
        crate::single::below(i.avg_moving_bal, ONE),
    ensures
        decided(i, difference(i, ratio_db)) == i.current_mode,
{
}

/// Where a measured level lies in the table.
#[derive(Clone, Copy, PartialEq, Eq, Structural, Debug)]
pub enum Lookup {
    /// The table is empty.
    NoPoints,
    /// Below every point, and the lowest did not choose Balanced.
    BelowAll,
    /// Above every point, and the highest did not choose Performance.
    AboveAll,
    /// Beyond the table, where it goes on as it ended.
    Beyond { chosen: u8, delta_db: u32 },
    /// Between this point and the next.
    Between { low: usize },
}

/// Where a level lies in the table.
pub open spec fn found(t: Seq<CalPoint>, level: u32) -> Lookup {
    let at = crate::calibration::slot_for(t, level);
    if t.len() == 0 {
        Lookup::NoPoints
    } else if at == 0 {
        if t[0].chosen == 1 {
            Lookup::Beyond { chosen: 1, delta_db: t[0].delta_db }
        } else {
            Lookup::BelowAll
        }
    } else if at == t.len() {
        if t.last().chosen == 0 {
            Lookup::Beyond { chosen: 0, delta_db: t.last().delta_db }
        } else {
            Lookup::AboveAll
        }
    } else {
        Lookup::Between { low: (at - 1) as usize }
    }
}

/// Looks a level up in the table.
pub fn look_up(cal: &NoiseCal, level: u32) -> (r: Lookup)
    requires
        cal.wf(),
    ensures
        r == found(cal.table(), level),
        r matches Lookup::Between { low } ==> low + 1 < cal.num_points,
{
    let n: usize = cal.num_points as usize;
    let ghost t = cal.table();
    let mut at: usize = 0;
    while at < n && less(cal.points[at].ambient_dbfs, level)
        invariant
            at <= n,
            cal.wf(),
            n == cal.num_points,
            t == cal.table(),
            forall|k: int|
                0 <= k < at ==> crate::single::below((#[trigger] t[k]).ambient_dbfs, level),
        decreases n - at,
    {
        assert(t[at as int] == cal.points@[at as int]);
        at = at + 1;
    }
    proof {
        if at < n {
            assert(t[at as int] == cal.points@[at as int]);
        }
        crate::calibration::slot_is_the_first(t, level, at as int);
    }
    if n == 0 {
        return Lookup::NoPoints;
    }
    if at == 0 {
        let p: CalPoint = cal.points[0];
        assert(t[0] == p);
        if p.chosen == 1 {
            Lookup::Beyond { chosen: 1, delta_db: p.delta_db }
        } else {
            Lookup::BelowAll
        }
    } else if at == n {
        let p: CalPoint = cal.points[n - 1];
        assert(t.last() == p);
        if p.chosen == 0 {
            Lookup::Beyond { chosen: 0, delta_db: p.delta_db }
        } else {
            Lookup::AboveAll
        }
    } else {
        Lookup::Between { low: at - 1 }
    }
}

/// Whether an interpolated difference is too near the threshold to be trusted.
pub open spec fn in_band(delta_db: u32) -> bool {
    crate::single::below(BAND_LOW_DB, delta_db) && crate::single::below(delta_db, BAND_HIGH_DB)
}

/// What the table says of a level: the mode and the difference, or nothing where a
/// comparison of the two modes is due. `interpolated_db` counts between two points.
pub open spec fn quick_choice(t: Seq<CalPoint>, level: u32, interpolated_db: u32) -> Option<
    (u8, u32),
> {
    match found(t, level) {
        Lookup::Beyond { chosen, delta_db } => Some((chosen, delta_db)),
        Lookup::Between { .. } => if in_band(interpolated_db) {
            None
        } else if crate::single::at_least(interpolated_db, THRESHOLD_DB) {
            Some((1, interpolated_db))
        } else {
            Some((0, interpolated_db))
        },
        _ => None,
    }
}

/// Decides by the table alone. `None` asks for the comparison of the two modes.
pub fn fast_path(cal: &NoiseCal, ambient_dbfs: u32, interpolated_db: u32) -> (r: Option<(u8, u32)>)
    requires
        cal.wf(),
    ensures
        r == quick_choice(cal.table(), ambient_dbfs, interpolated_db),
{
    match look_up(cal, ambient_dbfs) {
        Lookup::Beyond { chosen, delta_db } => Some((chosen, delta_db)),
        Lookup::Between { low: _ } => if less(BAND_LOW_DB, interpolated_db) && less(
            interpolated_db,
            BAND_HIGH_DB,
        ) {
            None
        } else if not_less(interpolated_db, THRESHOLD_DB) {
            Some((1, interpolated_db))
        } else {
            Some((0, interpolated_db))
        },
        Lookup::NoPoints | Lookup::BelowAll | Lookup::AboveAll => None,
    }
}

/// Whether there is a reference for the gain.
pub open spec fn has_reference(cal: NoiseCal) -> bool {
    crate::single::below(GAIN_FLOOR, cal.ref_gain)
}

/// Whether the measured power is adjusted for the gain: there is a reference.
pub fn adjusts_gain(cal: &NoiseCal) -> (r: bool)
    ensures
        r == has_reference(*cal),
{
    less(GAIN_FLOOR, cal.ref_gain)
}

/// The power of the fans in a mode, as the calibration has it.
pub open spec fn fans_in(cal: NoiseCal, mode: u8) -> u32 {
    if mode == 0 {
        cal.fan_perf_power
    } else {
        cal.fan_bal_power
    }
}

/// The power of the fans in a mode: what is subtracted from the measured one.
pub fn fan_power(cal: &NoiseCal, mode: u8) -> (r: u32)
    ensures
        r == fans_in(*cal, mode),
{
    if mode == 0 {
        cal.fan_perf_power
    } else {
        cal.fan_bal_power
    }
}

/// Whether two points lie apart.
pub open spec fn are_apart(span: u32) -> bool {
    crate::single::below(SPAN_FLOOR, crate::single::absolute(span))
}

/// Whether two points are far enough apart to interpolate along the level; else
/// the mean of the two differences is taken.
pub fn interpolates(span: u32) -> (r: bool)
    ensures
        r == are_apart(span),
{
    less(SPAN_FLOOR, abs(span))
}

/// What the menu shows of a calibration at `now`, where the decision changes at
/// `crossover_dbfs`.
pub open spec fn info_of(c: NoiseCal, now: u64, crossover_dbfs: Option<u32>) -> NoiseDebugInfo {
    NoiseDebugInfo {
        fan_perf_power: c.fan_perf_power,
        fan_bal_power: c.fan_bal_power,
        num_points: c.num_points,
        crossover_dbfs,
        cal_age_secs: if now >= c.cal_timestamp {
            (now - c.cal_timestamp) as u64
        } else {
            0
        },
    }
}

/// What the menu shows of a calibration at `now`.
pub fn debug_info(cal: Option<&NoiseCal>, now: u64, crossover_dbfs: Option<u32>) -> (r: Option<
    NoiseDebugInfo,
>)
    ensures
        r == match cal {
            None => None,
            Some(c) => Some(info_of(*c, now, crossover_dbfs)),
        },
{
    match cal {
        None => None,
        Some(c) => Some(
            NoiseDebugInfo {
                fan_perf_power: c.fan_perf_power,
                fan_bal_power: c.fan_bal_power,
                num_points: c.num_points,
                crossover_dbfs,
                cal_age_secs: now.saturating_sub(c.cal_timestamp),
            },
        ),
    }
}

/// Which way a measurement goes.
#[derive(Clone, Copy, PartialEq, Eq, Structural, Debug)]
pub enum Path {
    /// By the table.
    Fast,
    /// By comparison: nothing was measured before.
    NoCache,
    /// By comparison: the calibration is too old, or of another microphone.
    Stale,
    /// By comparison: the fans were never measured alone.
    NoFanPowers,
}

/// Whether the calibration is of the microphone, and not too old at `now`.
pub open spec fn is_fresh(cal: NoiseCal, mic_hash: u64, now: u64) -> bool {
    cal.mic_hash == mic_hash && now - cal.cal_timestamp < MAX_CAL_AGE
}

/// Which way a measurement at `now` goes.
pub open spec fn path_for(cal: Option<NoiseCal>, mic_hash: u64, now: u64) -> Path {
    match cal {
        None => Path::NoCache,
        Some(c) => if !is_fresh(c, mic_hash, now) {
            Path::Stale
        } else if crate::calibration::fans_known(c) {
            Path::Fast
        } else {
            Path::NoFanPowers
        },
    }
}

/// Chooses the way a measurement goes.
pub fn choose_path(cal: Option<&NoiseCal>, mic_hash: u64, now: u64) -> (r: Path)
    ensures
        r == path_for(
            match cal {
                Some(c) => Some(*c),
                None => None,
            },
            mic_hash,
            now,
        ),
{
    match cal {
        None => Path::NoCache,
        Some(c) => if c.mic_hash != mic_hash || now.saturating_sub(c.cal_timestamp) >= MAX_CAL_AGE {
            Path::Stale
        } else if has_fan_powers(c) {
            Path::Fast
        } else {
            Path::NoFanPowers
        },
    }
}

/// The patterns are those of the numbers that the decisions speak of: 3 dB, 1 dB, 20 dB,
/// 200 Hz, the powers 1e-4 and 1e-10, the band from 1.5 to 4.5 dB, the gain 0.01 and the
/// span 0.001.
pub proof fn limits_are_as_stated()
    ensures
        crate::single::stands_for(THRESHOLD_DB, 3, 1),
        crate::single::stands_for(ONE, 1, 1),
        crate::single::stands_for(TWENTY, 20, 1),
        crate::single::stands_for(CENTROID_SHIFT_HZ, 200, 1),
        crate::single::stands_for(TONAL_FLOOR, 1, 10_000),
        crate::single::stands_for(POWER_FLOOR, 1, 10_000_000_000),
        crate::single::stands_for(BAND_LOW_DB, 3, 2),
        crate::single::stands_for(BAND_HIGH_DB, 9, 2),
        crate::single::stands_for(GAIN_FLOOR, 1, 100),
        crate::single::stands_for(SPAN_FLOOR, 1, 1000),
{
    vstd::arithmetic::power2::lemma2_to64();
    vstd::arithmetic::power2::lemma2_to64_rest();
}

/// The same measurement with the two modes exchanged.
pub open spec fn exchanged(i: DecisionInput) -> DecisionInput {
    DecisionInput {
        perf_power: i.bal_power,
        bal_power: i.perf_power,
        perf_tonal: i.bal_tonal,
        bal_tonal: i.perf_tonal,
        ..i
    }
}

/// Tones outweigh the rest: where the tonal power of either mode is above 1e-4, the
/// tonal power of Performance is compared with that of Balanced, whatever the total
/// powers are; else the total powers are compared, whatever the tonal ones are. What is
/// compared with what does not depend on which mode is which.
pub proof fn tones_outweigh_the_rest(i: DecisionInput, perf: u32, bal: u32)
    ensures
        ({
            let tonal = crate::single::below(TONAL_FLOOR, i.perf_tonal) || crate::single::below(
                TONAL_FLOOR,
                i.bal_tonal,
            );
            &&& tonal ==> {
                &&& compared(i) == (i.perf_tonal, i.bal_tonal)
                &&& compared(DecisionInput { perf_power: perf, bal_power: bal, ..i }) == compared(i)
            }
            &&& !tonal ==> {
                &&& compared(i) == (i.perf_power, i.bal_power)
                &&& compared(DecisionInput { perf_power: perf, bal_power: bal, ..i }) == (perf, bal)
            }
            &&& has_tones(i) == tonal
        }),
        compared(exchanged(i)) == (compared(i).1, compared(i).0),
{
}

/// Tones in Performance that are louder than those in Balanced by the threshold choose
/// Balanced, whatever the total powers, the centroid or the mode; so do tones in
/// Performance where Balanced has no power at all. The ratio counts only where Balanced
/// has some.
pub proof fn loud_tones_choose_balanced(i: DecisionInput, ratio_db: u32)
    requires
        crate::single::below(TONAL_FLOOR, i.perf_tonal),
    ensures
        crate::single::below(POWER_FLOOR, i.bal_tonal) && crate::single::at_least(
            ratio_db,
            THRESHOLD_DB,
        ) ==> decided(i, difference(i, ratio_db)) == 1,
        !crate::single::below(POWER_FLOOR, i.bal_tonal) ==> decided(i, difference(i, ratio_db))
            == 1,
{
}

/// The difference is the ratio where Balanced has a signal, else 20 dB where Performance
/// has one, else none. A signal is a power above 1e-10.
pub proof fn differences_need_a_signal(i: DecisionInput, ratio_db: u32, other_db: u32)
    ensures
        crate::single::place(compared(i).1) <= crate::single::place(POWER_FLOOR) ==> difference(
            i,
            ratio_db,
        ) == difference(i, other_db),
        crate::single::below(POWER_FLOOR, compared(i).1) ==> difference(i, ratio_db) == ratio_db,
        !crate::single::below(POWER_FLOOR, compared(i).1) && crate::single::below(
            POWER_FLOOR,
            compared(i).0,
        ) ==> difference(i, ratio_db) == 0x41A0_0000,
        !crate::single::below(POWER_FLOOR, compared(i).1) && !crate::single::below(
            POWER_FLOOR,
            compared(i).0,
        ) ==> difference(i, ratio_db) == 0,
{
}

/// What a difference decides. From 3 dB on, Balanced. Below 1 dB either way the mode
/// stays where no fan moved, and is Performance where one did. From 1 dB on it is
/// Balanced where the centroid is more than 200 Hz higher in Performance, else
/// Performance. Where Balanced is the louder by 1 dB or more, Performance.
pub proof fn differences_decide(i: DecisionInput, delta_db: u32)
    requires
        crate::single::is_number(delta_db),
    ensures
        ({
            let one = crate::single::place(ONE);
            let delta = crate::single::place(delta_db);
            let still = crate::single::below(i.avg_moving_perf, ONE) && crate::single::below(
                i.avg_moving_bal,
                ONE,
            );
            &&& delta >= crate::single::place(THRESHOLD_DB) ==> decided(i, delta_db) == 1
            &&& one <= delta < crate::single::place(THRESHOLD_DB) ==> (decided(i, delta_db) == 1
                <==> crate::single::below(CENTROID_SHIFT_HZ, i.centroid_shift_hz))
            &&& one <= delta < crate::single::place(THRESHOLD_DB) ==> decided(i, delta_db) <= 1
            &&& -one < delta < one && still ==> decided(i, delta_db) == i.current_mode
            &&& -one < delta < one && still <==> is_unsure(i, delta_db)
            &&& -one < delta < one && !still ==> decided(i, delta_db) == 0
            &&& delta <= -one ==> decided(i, delta_db) == 0
        }),
{
}

/// The louder Performance is, the more there is for Balanced: where a difference that
/// says something chose it, a larger one does.
pub proof fn decisions_are_monotonic(i: DecisionInput, smaller_db: u32, larger_db: u32)
    requires
        !is_unsure(i, smaller_db),
        decided(i, smaller_db) == 1,
        crate::single::at_least(larger_db, smaller_db),
    ensures
        decided(i, larger_db) == 1,
{
}

/// What the table says of a level, in terms of the level. At or below the lowest point it
/// goes on with Balanced, above the highest with Performance, if that point chose so; the
/// difference is the one measured there. Between two points an interpolated difference of
/// 4.5 dB or more chooses Balanced, one of 1.5 dB or less Performance, and one in between
/// nothing. An empty table says nothing.
pub proof fn tables_answer_by_the_level(t: Seq<CalPoint>, level: u32, interpolated_db: u32)
    requires
        t.len() <= crate::calibration::MAX_POINTS,
        crate::calibration::is_ordered(t),
        crate::single::is_number(level),
        crate::single::is_number(interpolated_db),
    ensures
        t.len() == 0 ==> quick_choice(t, level, interpolated_db) is None,
        t.len() > 0 && crate::single::at_least(t[0].ambient_dbfs, level) ==> quick_choice(
            t,
            level,
            interpolated_db,
        ) == if t[0].chosen == 1 {
            Some((1u8, t[0].delta_db))
        } else {
            None
        },
        t.len() > 0 && crate::single::below(t.last().ambient_dbfs, level) ==> quick_choice(
            t,
            level,
            interpolated_db,
        ) == if t.last().chosen == 0 {
            Some((0u8, t.last().delta_db))
        } else {
            None
        },
        t.len() > 0 && crate::single::below(t[0].ambient_dbfs, level) && crate::single::at_least(
            t.last().ambient_dbfs,
            level,
        ) ==> {
            let db = crate::single::place(interpolated_db);
            &&& db >= crate::single::place(BAND_HIGH_DB) ==> quick_choice(t, level, interpolated_db)
                == Some((1u8, interpolated_db))
            &&& db <= crate::single::place(BAND_LOW_DB) ==> quick_choice(t, level, interpolated_db)
                == Some((0u8, interpolated_db))
            &&& crate::single::place(BAND_LOW_DB) < db < crate::single::place(BAND_HIGH_DB)
                ==> quick_choice(t, level, interpolated_db) is None
            &&& found(t, level) matches Lookup::Between { low } && {
                &&& low + 1 < t.len()
                &&& crate::single::below(t[low as int].ambient_dbfs, level)
                &&& crate::single::at_least(t[low + 1].ambient_dbfs, level)
            }
        },
{
    levels_are_numbers(t);
    if t.len() > 0 {
        let last = t.len() - 1;
        crate::calibration::slot_parts(t, level);
        let at = crate::calibration::slot_for(t, level);
        if at > 0 {
            assert(crate::single::below(t[at - 1].ambient_dbfs, level));
        }
        if at < last {
            assert(crate::calibration::levels(t)[at] == t[at].ambient_dbfs);
            assert(crate::calibration::levels(t)[last] == t[last].ambient_dbfs);
            assert(!crate::single::below(t[last].ambient_dbfs, t[at].ambient_dbfs));
        }
    }
}

proof fn levels_are_numbers(t: Seq<CalPoint>)
    requires
        crate::calibration::is_ordered(t),
    ensures
        forall|k: int| 0 <= k < t.len() ==> crate::single::is_number((#[trigger] t[k]).ambient_dbfs),
{
    assert forall|k: int| 0 <= k < t.len() implies crate::single::is_number(
        (#[trigger] t[k]).ambient_dbfs,
    ) by {
        assert(crate::single::is_number(crate::calibration::levels(t)[k]));
    }
}

/// The table is asked just where there is a calibration of the same microphone that is
/// less than thirty days old and holds the power of the fans in both modes.
pub proof fn the_table_is_asked_only_if_it_can_be(cal: NoiseCal, mic_hash: u64, now: u64)
    ensures
        path_for(None, mic_hash, now) == Path::NoCache,
        path_for(Some(cal), mic_hash, now) == Path::Fast <==> {
            &&& cal.mic_hash == mic_hash
            &&& now < cal.cal_timestamp + 30 * 24 * 60 * 60
            &&& crate::single::below(0, cal.fan_perf_power)
            &&& crate::single::below(0, cal.fan_bal_power)
        },
        path_for(Some(cal), mic_hash, now) == Path::Stale <==> cal.mic_hash != mic_hash || now
            >= cal.cal_timestamp + 30 * 24 * 60 * 60,
        path_for(Some(cal), mic_hash, now) != Path::NoCache,
{
}

/// What the menu shows of a calibration is what is subtracted in either mode, the points
/// in use, and the seconds since the fans were measured, which a clock that was set back
/// does not make negative.
pub proof fn the_menu_shows_the_calibration(c: NoiseCal, now: u64, crossover: Option<u32>)
    ensures
        info_of(c, now, crossover).fan_perf_power == fans_in(c, 0),
        info_of(c, now, crossover).fan_bal_power == fans_in(c, 1),
        info_of(c, now, crossover).num_points == c.num_points,
        info_of(c, now, crossover).crossover_dbfs == crossover,
        now >= c.cal_timestamp ==> c.cal_timestamp + info_of(c, now, crossover).cal_age_secs == now,
        now <= c.cal_timestamp ==> info_of(c, now, crossover).cal_age_secs == 0,
{
}

/// The two points lie apart whichever is taken first, and a wider span lies apart where a
/// narrower one does; a larger reference gain is used where a smaller one is.
pub proof fn spans_have_no_direction(span: u32, wider: u32, smaller: NoiseCal, larger: NoiseCal)
    requires
        span < crate::single::SIGN,
        crate::single::at_least(crate::single::absolute(wider), crate::single::absolute(span)),
        crate::single::at_least(larger.ref_gain, smaller.ref_gain),
    ensures
        are_apart(span) == are_apart((span + crate::single::SIGN) as u32),
        are_apart(span) ==> are_apart(wider),
        !are_apart(0),
        has_reference(smaller) ==> has_reference(larger),
        crate::single::place(larger.ref_gain) <= 0 ==> !has_reference(larger),
{
}

/// A comparison waits for the fans from eight seconds up to twenty, until 48 frames in a
/// row stood still, and then listens for three seconds; the table needs a second and a
/// half. Four threads are the least that load the processor.
pub proof fn times_are_as_stated()
    ensures
        FAST_CAPTURE_MS == 1500,
        SLOW_CAPTURE_MS == 2 * FAST_CAPTURE_MS,
        MIN_SETTLE_MS == 8 * 1000,
        MAX_SETTLE_MS == 20 * 1000,
        SETTLE_STABLE_FRAMES == 48,
        AB_STRESS_THREADS == 4,
{
}

} // verus!
