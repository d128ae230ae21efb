//! The calibration of the noise measurement: the table of measured points, and
//! the file that keeps it.
//!
//! Levels are bit patterns of single-precision numbers (see `single`).

use vstd::prelude::*;

use crate::bytes::{push_le, read_le};
use crate::single::{is_positive, less, ZERO};

verus! {

/// How many points the table holds.
pub const MAX_POINTS: usize = 8;

/// How many of them may have chosen the same mode: as many for either.
pub const SLOTS_PER_SIDE: usize = 4;

/// The length of the calibration file.
pub const CAL_BYTES: usize = 136;

/// The length of a point in the file.
pub const POINT_BYTES: usize = 12;

/// Where the points begin in the file.
pub const POINTS_AT: usize = 40;

/// How long a calibration is good for, in seconds: thirty days.
pub const MAX_CAL_AGE: u64 = 2_592_000;

/// The pattern of the largest finite number.
pub const LARGEST: u32 = 0x7F7F_FFFF;

/// One measured comparison of the two modes.
#[derive(Clone, Copy, PartialEq, Eq, Structural, Debug)]
pub struct CalPoint {
    /// The ambient level, adjusted for the gain, in dBFS.
    pub ambient_dbfs: u32,
    /// How much louder Performance was than Balanced, in dB.
    pub delta_db: u32,
    /// 0 for Performance, 1 for Balanced.
    pub chosen: u8,
    /// The temperature of the processor at the time.
    pub temp_c: u8,
}

/// What is known of one microphone.
pub struct NoiseCal {
    /// The hash of the microphone's endpoint identifier.
    pub mic_hash: u64,
    /// The gain at the first calibration.
    pub ref_gain: u32,
    /// The power of the fans alone, in Performance mode.
    pub fan_perf_power: u32,
    /// The power of the fans alone, in Balanced mode.
    pub fan_bal_power: u32,
    /// When the fans were last measured, in seconds since 1970; 0 for never.
    pub cal_timestamp: u64,
    /// How many of the slots are in use.
    pub num_points: u32,
    /// The slots.
    pub points: Vec<CalPoint>,
}

impl NoiseCal {
    /// All slots are there.
    pub open spec fn fits(&self) -> bool {
        self.points@.len() == MAX_POINTS
    }

    /// All slots are there, and no more are in use.
    pub open spec fn wf(&self) -> bool {
        self.fits() && self.num_points <= MAX_POINTS
    }

    /// The points in use.
    pub open spec fn table(&self) -> Seq<CalPoint> {
        self.points@.take(self.num_points as int)
    }
}

/// Whether the table can be worked with. A file may claim more points than there
/// are slots.
pub fn is_usable(cal: &NoiseCal) -> (r: bool)
    ensures
        r == cal.wf(),
{
    cal.points.len() == MAX_POINTS && cal.num_points as usize <= MAX_POINTS
}

/// A slot that was never used.
pub open spec fn empty_point() -> CalPoint {
    CalPoint { ambient_dbfs: 0, delta_db: 0, chosen: 0, temp_c: 0 }
}

/// Whether nothing was measured yet for the calibration of a microphone.
pub open spec fn is_new(cal: NoiseCal, mic_hash: u64, ref_gain: u32) -> bool {
    &&& cal.wf()
    &&& cal.mic_hash == mic_hash
    &&& cal.ref_gain == ref_gain
    &&& cal.fan_perf_power == 0
    &&& cal.fan_bal_power == 0
    &&& cal.cal_timestamp == 0
    &&& cal.num_points == 0
    &&& forall|i: int| 0 <= i < MAX_POINTS ==> #[trigger] cal.points@[i] == empty_point()
}

/// A calibration with nothing measured.
pub fn new_cal(mic_hash: u64, ref_gain: u32) -> (cal: NoiseCal)
    ensures
        is_new(cal, mic_hash, ref_gain),
{
    let mut points: Vec<CalPoint> = Vec::new();
    let mut i: usize = 0;
    while i < MAX_POINTS
        invariant
            i <= MAX_POINTS,
            points@.len() == i,
            forall|k: int| 0 <= k < i ==> #[trigger] points@[k] == empty_point(),
        decreases MAX_POINTS - i,
    {
        points.push(CalPoint { ambient_dbfs: 0, delta_db: 0, chosen: 0, temp_c: 0 });
        i = i + 1;
    }
    NoiseCal {
        mic_hash,
        ref_gain,
        fan_perf_power: 0,
        fan_bal_power: 0,
        cal_timestamp: 0,
        num_points: 0,
        points,
    }
}

/// The calibration that a new measurement on a microphone goes into: the kept one
/// where it is of the same microphone, else a new one.
pub open spec fn goes_into(
    kept: Option<NoiseCal>,
    mic_hash: u64,
    gain: u32,
    cal: NoiseCal,
) -> bool {
    if kept matches Some(c) && c.mic_hash == mic_hash {
        kept == Some(cal)
    } else {
        is_new(cal, mic_hash, gain)
    }
}

/// The calibration that a new measurement on a microphone goes into.
pub fn cal_for(kept: Option<NoiseCal>, mic_hash: u64, gain: u32) -> (cal: NoiseCal)
    requires
        kept matches Some(c) ==> c.fits(),
    ensures
        cal.fits(),
        goes_into(kept, mic_hash, gain, cal),
{
    match kept {
        Some(c) => if c.mic_hash == mic_hash {
            c
        } else {
            new_cal(mic_hash, gain)
        },
        None => new_cal(mic_hash, gain),
    }
}

/// Whether the fans were measured alone: both powers are more than zero.
pub open spec fn fans_known(cal: NoiseCal) -> bool {
    crate::single::below(ZERO, cal.fan_perf_power) && crate::single::below(ZERO, cal.fan_bal_power)
}

/// Whether the fans were measured alone.
pub fn has_fan_powers(cal: &NoiseCal) -> (r: bool)
    ensures
        r == fans_known(*cal),
{
    is_positive(cal.fan_perf_power) && is_positive(cal.fan_bal_power)
}

/// The calibration with what the fans alone measured.
pub open spec fn with_fan_powers(
    cal: NoiseCal,
    perf: u32,
    bal: u32,
    now: u64,
    gain: u32,
) -> NoiseCal {
    NoiseCal {
        fan_perf_power: perf,
        fan_bal_power: bal,
        cal_timestamp: now,
        ref_gain: gain,
        ..cal
    }
}

/// Notes what the fans alone measured.
pub fn set_fan_powers(cal: &mut NoiseCal, perf: u32, bal: u32, now: u64, gain: u32)
    ensures
        *final(cal) == with_fan_powers(*old(cal), perf, bal, now, gain),
{
    cal.fan_perf_power = perf;
    cal.fan_bal_power = bal;
    cal.cal_timestamp = now;
    cal.ref_gain = gain;
}

/// The levels of the points.
pub open spec fn levels(t: Seq<CalPoint>) -> Seq<u32> {
    t.map_values(|p: CalPoint| p.ambient_dbfs)
}

/// Whether the two modes were decided differently at `i` and at the next point,
/// with a gap between them that is less than the largest number.
pub open spec fn crosses(t: Seq<CalPoint>, gaps: Seq<u32>, i: int) -> bool {
    &&& 0 <= i < t.len() - 1
    &&& t[i].chosen != t[i + 1].chosen
    &&& crate::single::below(gaps[i], LARGEST)
}

/// Whether the crossover lies behind point `i`: the gap there is the smallest of
/// those between differing neighbours, and the first such.
pub open spec fn is_crossover(t: Seq<CalPoint>, gaps: Seq<u32>, i: int) -> bool {
    &&& crosses(t, gaps, i)
    &&& forall|j: int| #[trigger] crosses(t, gaps, j) && j < i ==> crate::single::below(gaps[i], gaps[j])
    &&& forall|j: int| #[trigger] crosses(t, gaps, j) && j > i ==> !crate::single::below(gaps[j], gaps[i])
}

/// Between which neighbours the decision changes: the index of the first of them.
/// The crossover is the midpoint of the two. `gaps` are the distances between the
/// neighbours.
pub fn estimate_crossover(cal: &NoiseCal, gaps: &[u32]) -> (r: Option<usize>)
    requires
        cal.wf(),
        cal.num_points <= gaps@.len() + 1,
    ensures
        match r {
            Some(i) => is_crossover(cal.table(), gaps@, i as int),
            None => forall|i: int| !crosses(cal.table(), gaps@, i),
        },
{
    let n: usize = cal.num_points as usize;
    let ghost t = cal.table();
    let mut best: Option<usize> = None;
    let mut best_gap: u32 = LARGEST;
    if n < 2 {
        return None;
    }
    let mut i: usize = 0;
    while i < n - 1
        invariant
            2 <= n <= MAX_POINTS,
            n == cal.num_points,
            cal.wf(),
            n <= gaps@.len() + 1,
            i <= n - 1,
            t == cal.table(),
            best is None ==> best_gap == LARGEST,
            best is None ==> forall|j: int| #[trigger] crosses(t, gaps@, j) ==> j >= i,
            best matches Some(b) ==> {
                &&& b < i
                &&& crosses(t, gaps@, b as int)
                &&& best_gap == gaps@[b as int]
                &&& forall|j: int|
                    #[trigger] crosses(t, gaps@, j) && j < b ==> crate::single::below(gaps@[b as int], gaps@[j])
                &&& forall|j: int|
                    #[trigger] crosses(t, gaps@, j) && b < j < i ==> !crate::single::below(
                        gaps@[j],
                        gaps@[b as int],
                    )
            },
        decreases n - i,
    {
        let ghost i_int = i as int;
        assert(t[i as int] == cal.points@[i as int]);
        assert(t[i + 1] == cal.points@[i + 1]);
        if cal.points[i].chosen != cal.points[i + 1].chosen && less(gaps[i], best_gap) {
            assert(crosses(t, gaps@, i_int));
            best = Some(i);
            best_gap = gaps[i];
        }
        i = i + 1;
    }
    best
}

/// Whether a point counts as a candidate: it lies on the given side, or any side
/// will do.
pub open spec fn on_side(p: CalPoint, side: Option<u8>) -> bool {
    match side {
        Some(c) => p.chosen == c,
        None => true,
    }
}

/// Of the first `n` points on the side, the one farthest away; the last of these
/// where several are.
pub open spec fn farthest_of(t: Seq<CalPoint>, d: Seq<u32>, side: Option<u8>, n: nat) -> Option<
    int,
>
    decreases n,
{
    if n == 0 {
        None
    } else {
        let last = n - 1;
        let before = farthest_of(t, d, side, (n - 1) as nat);
        if !on_side(t[last], side) {
            before
        } else {
            match before {
                None => Some(last),
                Some(b) => if crate::single::below(d[last], d[b]) {
                    Some(b)
                } else {
                    Some(last)
                },
            }
        }
    }
}

/// Where a level goes in: behind the points that lie below it from the start.
pub open spec fn slot_for(t: Seq<CalPoint>, level: u32) -> int
    decreases t.len(),
{
    if t.len() == 0 || !crate::single::below(t[0].ambient_dbfs, level) {
        0
    } else {
        1 + slot_for(t.skip(1), level)
    }
}

/// `p` put into `t` behind everything at the end of `t` that is not above it.
pub open spec fn placed(t: Seq<CalPoint>, p: CalPoint) -> Seq<CalPoint>
    decreases t.len(),
{
    if t.len() == 0 || !crate::single::below(p.ambient_dbfs, t.last().ambient_dbfs) {
        t.push(p)
    } else {
        placed(t.drop_last(), p).push(t.last())
    }
}

/// The points in ascending order of their level; equal ones stay in their order.
pub open spec fn in_order(t: Seq<CalPoint>) -> Seq<CalPoint>
    decreases t.len(),
{
    if t.len() == 0 {
        t
    } else {
        placed(in_order(t.drop_last()), t.last())
    }
}

/// Whether the point contradicts what the crossover says of its level: Balanced
/// above it, or Performance below it.
pub open spec fn flips(pt: CalPoint, crossover: Option<u32>) -> bool {
    match crossover {
        Some(c) => if pt.chosen == 1 {
            crate::single::below(c, pt.ambient_dbfs)
        } else {
            crate::single::below(pt.ambient_dbfs, c)
        },
        None => false,
    }
}

/// How many of the points chose as `side` did.
pub open spec fn count_of(t: Seq<CalPoint>, side: u8) -> nat
    decreases t.len(),
{
    if t.len() == 0 {
        0
    } else {
        count_of(t.drop_last(), side) + if t.last().chosen == side {
            1nat
        } else {
            0
        }
    }
}

/// Whether a point goes in without another leaving: there is room in the table, and
/// among the slots of its side.
pub open spec fn has_room(t: Seq<CalPoint>, side: u8) -> bool {
    t.len() < MAX_POINTS && count_of(t, side) < SLOTS_PER_SIDE
}

/// The table after a measurement. While there is room, the point goes in at its
/// place. Else it takes the place of the point on its side that is farthest from the
/// crossover, where it contradicts the crossover or is nearer; of any point that is
/// farthest, where the table is full and none is on its side.
pub open spec fn with_point(
    t: Seq<CalPoint>,
    pt: CalPoint,
    crossover: Option<u32>,
    d: Seq<u32>,
    new_d: u32,
) -> Seq<CalPoint> {
    if has_room(t, pt.chosen) {
        t.insert(slot_for(t, pt.ambient_dbfs), pt)
    } else {
        match farthest_of(t, d, Some(pt.chosen), t.len()) {
            None => match farthest_of(t, d, None, t.len()) {
                Some(f) => in_order(t.update(f, pt)),
                None => t,
            },
            Some(f) => if flips(pt, crossover) || crate::single::below(new_d, d[f]) {
                in_order(t.update(f, pt))
            } else {
                t
            },
        }
    }
}

proof fn slot_is_inside(t: Seq<CalPoint>, level: u32)
    ensures
        0 <= slot_for(t, level) <= t.len(),
    decreases t.len(),
{
    if t.len() > 0 && crate::single::below(t[0].ambient_dbfs, level) {
        slot_is_inside(t.skip(1), level);
    }
}

/// The slot is the first that does not lie below the level.
pub proof fn slot_is_the_first(t: Seq<CalPoint>, level: u32, at: int)
    requires
        0 <= at <= t.len(),
        forall|k: int| 0 <= k < at ==> crate::single::below((#[trigger] t[k]).ambient_dbfs, level),
        at < t.len() ==> !crate::single::below(t[at].ambient_dbfs, level),
    ensures
        slot_for(t, level) == at,
    decreases t.len(),
{
    if at > 0 {
        let rest = t.skip(1);
        assert forall|k: int| 0 <= k < at - 1 implies crate::single::below(
            (#[trigger] rest[k]).ambient_dbfs,
            level,
        ) by {
            assert(rest[k] == t[k + 1]);
        }
        if at < t.len() {
            assert(rest[at - 1] == t[at]);
        }
        slot_is_the_first(rest, level, at - 1);
        assert(crate::single::below(t[0].ambient_dbfs, level));
    }
}

/// The farthest point is one of those asked for; where all distances are numbers,
/// none of the others is farther away.
pub proof fn farthest_is_farthest(t: Seq<CalPoint>, d: Seq<u32>, side: Option<u8>, n: nat)
    requires
        n <= t.len(),
        n <= d.len(),
    ensures
        match farthest_of(t, d, side, n) {
            Some(f) => {
                &&& 0 <= f < n
                &&& on_side(t[f], side)
                &&& crate::single::all_numbers(d.take(n as int)) ==> forall|j: int|
                    0 <= j < n && on_side(#[trigger] t[j], side) ==> !crate::single::below(d[f], d[j])
            },
            None => forall|j: int| 0 <= j < n ==> !on_side(#[trigger] t[j], side),
        },
    decreases n,
{
    if n > 0 {
        farthest_is_farthest(t, d, side, (n - 1) as nat);
        if crate::single::all_numbers(d.take(n as int)) {
            assert forall|i: int| 0 <= i < n - 1 implies #[trigger] crate::single::is_number(
                d.take(n - 1)[i],
            ) by {
                assert(crate::single::is_number(d.take(n as int)[i]));
            }
            assert forall|i: int| 0 <= i < n implies crate::single::is_number(#[trigger] d[i]) by {
                assert(crate::single::is_number(d.take(n as int)[i]));
            }
            assert(crate::single::is_number(d[n - 1]));
        }
    }
}

/// Finds the farthest point on a side.
fn find_farthest(points: &Vec<CalPoint>, n: usize, d: &[u32], side: Option<u8>) -> (r: Option<
    usize,
>)
    requires
        n <= points@.len(),
        n <= d@.len(),
    ensures
        match r {
            Some(f) => f < n && farthest_of(points@.take(n as int), d@, side, n as nat) == Some(
                f as int,
            ),
            None => farthest_of(points@.take(n as int), d@, side, n as nat) is None,
        },
{
    let ghost t = points@.take(n as int);
    let mut best: Option<usize> = None;
    let mut i: usize = 0;
    while i < n
        invariant
            i <= n,
            n <= points@.len(),
            n <= d@.len(),
            t == points@.take(n as int),
            match best {
                Some(b) => b < i && farthest_of(t, d@, side, i as nat) == Some(b as int),
                None => farthest_of(t, d@, side, i as nat) is None,
            },
        decreases n - i,
    {
        assert(t[i as int] == points@[i as int]);
        let wanted: bool = match side {
            Some(c) => points[i].chosen == c,
            None => true,
        };
        if wanted {
            let keep: bool = match best {
                Some(b) => less(d[i], d[b]),
                None => false,
            };
            if !keep {
                best = Some(i);
            }
        }
        i = i + 1;
    }
    best
}

proof fn placing_passes_over(t: Seq<CalPoint>, p: CalPoint, at: int)
    requires
        0 <= at <= t.len(),
        forall|k: int| at <= k < t.len() ==> crate::single::below(p.ambient_dbfs, (#[trigger] t[k]).ambient_dbfs),
        at > 0 ==> !crate::single::below(p.ambient_dbfs, t[at - 1].ambient_dbfs),
    ensures
        placed(t, p) == t.insert(at, p),
    decreases t.len(),
{
    if at < t.len() {
        let rest = t.drop_last();
        assert(crate::single::below(p.ambient_dbfs, t[t.len() - 1].ambient_dbfs));
        placing_passes_over(rest, p, at);
        assert(rest.insert(at, p).push(t.last()) =~= t.insert(at, p));
    } else {
        assert(t.push(p) =~= t.insert(at, p));
    }
}

proof fn placing_adds_one(t: Seq<CalPoint>, p: CalPoint)
    ensures
        placed(t, p).len() == t.len() + 1,
        placed(t, p).to_multiset() == t.to_multiset().insert(p),
        levels(placed(t, p)) == crate::single::inserted(levels(t), p.ambient_dbfs),
    decreases t.len(),
{
    broadcast use vstd::seq_lib::group_to_multiset_ensures;

    if t.len() > 0 {
        assert(levels(t).last() == t.last().ambient_dbfs);
    }
    if t.len() > 0 && crate::single::below(p.ambient_dbfs, t.last().ambient_dbfs) {
        let rest = t.drop_last();
        placing_adds_one(rest, p);
        assert(t == rest.push(t.last()));
        assert(levels(t).drop_last() =~= levels(rest));
        assert(levels(placed(t, p)) =~= levels(placed(rest, p)).push(t.last().ambient_dbfs));
    } else {
        assert(levels(t.push(p)) =~= levels(t).push(p.ambient_dbfs));
    }
}

/// Ordering keeps every point, and sorts the levels.
pub proof fn ordering_sorts(t: Seq<CalPoint>)
    ensures
        in_order(t).len() == t.len(),
        in_order(t).to_multiset() == t.to_multiset(),
        levels(in_order(t)) == crate::single::sorted(levels(t)),
    decreases t.len(),
{
    broadcast use vstd::seq_lib::group_to_multiset_ensures;

    if t.len() > 0 {
        let rest = t.drop_last();
        ordering_sorts(rest);
        placing_adds_one(in_order(rest), t.last());
        assert(t == rest.push(t.last()));
        assert(levels(t).drop_last() =~= levels(rest));
        assert(levels(t).last() == t.last().ambient_dbfs);
    } else {
        assert(levels(t) =~= Seq::<u32>::empty());
    }
}

/// Puts the points in use into ascending order of their level.
pub fn sort_points(cal: &mut NoiseCal)
    requires
        old(cal).wf(),
    ensures
        final(cal).wf(),
        final(cal).table() == in_order(old(cal).table()),
        final(cal).points@.skip(old(cal).num_points as int) == old(cal).points@.skip(
            old(cal).num_points as int,
        ),
        *final(cal) == (NoiseCal { points: final(cal).points, ..*old(cal) }),
{
    let n: usize = cal.num_points as usize;
    let ghost before = cal.points@;
    let mut i: usize = 0;
    proof {
        assert(before.take(0) =~= Seq::<CalPoint>::empty());
    }
    while i < n
        invariant
            i <= n <= MAX_POINTS,
            before.len() == MAX_POINTS,
            cal.points@.len() == MAX_POINTS,
            n == cal.num_points,
            cal.points@.take(i as int) == in_order(before.take(i as int)),
            cal.points@.skip(i as int) == before.skip(i as int),
            *cal == (NoiseCal { points: cal.points, ..*old(cal) }),
        decreases n - i,
    {
        let ghost now = cal.points@;
        assert(now[i as int] == now.skip(i as int)[0]);
        assert(before[i as int] == before.skip(i as int)[0]);
        let key: CalPoint = cal.points[i];
        let mut j: usize = i;
        while j > 0 && less(key.ambient_dbfs, cal.points[j - 1].ambient_dbfs)
            invariant
                j <= i < MAX_POINTS,
                cal.points@ == now,
                now.len() == MAX_POINTS,
                forall|k: int|
                    j <= k < i ==> crate::single::below(key.ambient_dbfs, (#[trigger] now[k]).ambient_dbfs),
                *cal == (NoiseCal { points: cal.points, ..*old(cal) }),
            decreases j,
        {
            j = j - 1;
        }
        proof {
            placing_passes_over(now.take(i as int), key, j as int);
        }
        let moved: CalPoint = cal.points.remove(i);
        cal.points.insert(j, moved);
        proof {
            let after = cal.points@;
            assert(after.take(i + 1) =~= now.take(i as int).insert(j as int, key));
            assert(before.take(i + 1).drop_last() =~= before.take(i as int));
            assert(before.take(i + 1).last() == key);
            assert(after.skip(i + 1) =~= before.skip(i + 1)) by {
                assert forall|k: int| 0 <= k < MAX_POINTS - i - 1 implies #[trigger] after.skip(
                    i + 1,
                )[k] == before.skip(i + 1)[k] by {
                    assert(after[i + 1 + k] == now[i + 1 + k]);
                    assert(now.skip(i as int)[1 + k] == before.skip(i as int)[1 + k]);
                }
            }
        }
        i = i + 1;
    }
}

proof fn none_are_counted(t: Seq<CalPoint>, side: u8)
    requires
        forall|i: int| 0 <= i < t.len() ==> (#[trigger] t[i]).chosen != side,
    ensures
        count_of(t, side) == 0,
    decreases t.len(),
{
    if t.len() > 0 {
        assert(t[t.len() - 1].chosen != side);
        assert forall|i: int| 0 <= i < t.drop_last().len() implies (
        #[trigger] t.drop_last()[i]).chosen != side by {
            assert(t.drop_last()[i] == t[i]);
        }
        none_are_counted(t.drop_last(), side);
    }
}

/// Counts the points that chose as `side` did.
fn count_side(points: &Vec<CalPoint>, n: usize, side: u8) -> (count: usize)
    requires
        n <= points@.len(),
    ensures
        count == count_of(points@.take(n as int), side),
{
    let mut count: usize = 0;
    let mut i: usize = 0;
    while i < n
        invariant
            i <= n <= points@.len(),
            count <= i,
            count == count_of(points@.take(i as int), side),
        decreases n - i,
    {
        assert(points@.take(i + 1).drop_last() =~= points@.take(i as int));
        if points[i].chosen == side {
            count = count + 1;
        }
        i = i + 1;
    }
    count
}

/// Takes a measured point into the table. `crossover` is the level where the
/// decision changes, where it is known; `distances` and `new_distance` are how far
/// the points and the new one are from it, or from the new one where it is not
/// known.
pub fn insert_point(
    cal: &mut NoiseCal,
    pt: CalPoint,
    crossover: Option<u32>,
    distances: &[u32],
    new_distance: u32,
)
    requires
        old(cal).wf(),
        old(cal).num_points <= distances@.len(),
    ensures
        final(cal).wf(),
        final(cal).table() == with_point(
            old(cal).table(),
            pt,
            crossover,
            distances@,
            new_distance,
        ),
        forall|side: u8|
            #[trigger] count_of(old(cal).table(), side) <= SLOTS_PER_SIDE ==> count_of(
                final(cal).table(),
                side,
            ) <= SLOTS_PER_SIDE,
        final(cal).points@.skip(final(cal).num_points as int) == old(cal).points@.skip(
            final(cal).num_points as int,
        ),
        *final(cal) == (NoiseCal {
            points: final(cal).points,
            num_points: final(cal).num_points,
            ..*old(cal)
        }),
{
    let n: usize = cal.num_points as usize;
    let ghost t = cal.table();
    let ghost before = cal.points@;
    proof {
        assert forall|side: u8| #[trigger] count_of(t, side) <= SLOTS_PER_SIDE implies count_of(
            with_point(t, pt, crossover, distances@, new_distance),
            side,
        ) <= SLOTS_PER_SIDE by {
            sides_keep_to_their_slots(t, pt, crossover, distances@, new_distance, side);
        }
    }
    if n < MAX_POINTS && count_side(&cal.points, n, pt.chosen) < SLOTS_PER_SIDE {
        let mut at: usize = 0;
        while at < n && less(cal.points[at].ambient_dbfs, pt.ambient_dbfs)
            invariant
                at <= n < MAX_POINTS,
                cal.points@.len() == MAX_POINTS,
                t == cal.points@.take(n as int),
                forall|k: int|
                    0 <= k < at ==> crate::single::below((#[trigger] t[k]).ambient_dbfs, pt.ambient_dbfs),
                *cal == *old(cal),
            decreases n - at,
        {
            assert(t[at as int] == cal.points@[at as int]);
            at = at + 1;
        }
        proof {
            if at < n {
                assert(t[at as int] == cal.points@[at as int]);
            }
            slot_is_the_first(t, pt.ambient_dbfs, at as int);
        }
        let unused: CalPoint = cal.points.remove(n);
        cal.points.insert(at, pt);
        cal.num_points = (n + 1) as u32;
        assert(cal.table() =~= t.insert(at as int, pt));
        assert(cal.points@.skip(n + 1) =~= before.skip(n + 1));
        return ;
    }
    proof {
        farthest_is_farthest(t, distances@, Some(pt.chosen), t.len());
        farthest_is_farthest(t, distances@, None, t.len());
    }
    let same_side: Option<usize> = find_farthest(&cal.points, n, distances, Some(pt.chosen));
    match same_side {
        None => {
            proof {
                none_are_counted(t, pt.chosen);
            }
            let any: Option<usize> = find_farthest(&cal.points, n, distances, None);
            match any {
                Some(f) => {
                    cal.points.set(f, pt);
                    assert(cal.table() =~= t.update(f as int, pt));
                    sort_points(cal);
                },
                None => {
                    assert(on_side(t[0], None));
                },
            }
        },
        Some(f) => {
            let flip: bool = match crossover {
                Some(c) => if pt.chosen == 1 {
                    less(c, pt.ambient_dbfs)
                } else {
                    less(pt.ambient_dbfs, c)
                },
                None => false,
            };
            if flip || less(new_distance, distances[f]) {
                cal.points.set(f, pt);
                assert(cal.table() =~= t.update(f as int, pt));
                sort_points(cal);
            }
        },
    }
}

/// Whether the levels are numbers in ascending order.
pub open spec fn is_ordered(t: Seq<CalPoint>) -> bool {
    crate::single::all_numbers(levels(t)) && crate::single::ascending(levels(t))
}

/// A table in ascending order stays so, whatever point is measured.
pub proof fn tables_stay_ordered(
    t: Seq<CalPoint>,
    pt: CalPoint,
    crossover: Option<u32>,
    d: Seq<u32>,
    new_d: u32,
)
    requires
        t.len() <= MAX_POINTS,
        t.len() <= d.len(),
        is_ordered(t),
        crate::single::is_number(pt.ambient_dbfs),
    ensures
        is_ordered(with_point(t, pt, crossover, d, new_d)),
{
    let out = with_point(t, pt, crossover, d, new_d);
    assert forall|i: int| 0 <= i < t.len() implies crate::single::is_number(
        (#[trigger] t[i]).ambient_dbfs,
    ) by {
        assert(crate::single::is_number(levels(t)[i]));
    }
    if has_room(t, pt.chosen) {
        slot_is_inside(t, pt.ambient_dbfs);
        slot_parts(t, pt.ambient_dbfs);
        let at = slot_for(t, pt.ambient_dbfs);
        assert forall|i: int| 0 <= i < out.len() implies #[trigger] crate::single::is_number(
            levels(out)[i],
        ) by {
            if i < at {
                assert(out[i] == t[i]);
            } else if i > at {
                assert(out[i] == t[i - 1]);
            }
        }
        assert forall|i: int, j: int| 0 <= i < j < out.len() implies !crate::single::below(
            #[trigger] levels(out)[j],
            #[trigger] levels(out)[i],
        ) by {
            let a = if i < at {
                i
            } else {
                i - 1
            };
            let b = if j < at {
                j
            } else {
                j - 1
            };
            if i != at {
                assert(out[i] == t[a]);
            }
            if j != at {
                assert(out[j] == t[b]);
            }
            if i != at && j != at {
                assert(!crate::single::below(levels(t)[b], levels(t)[a]));
            } else if j == at {
                assert(crate::single::below(t[a].ambient_dbfs, pt.ambient_dbfs));
            } else {
                assert(b >= at);
                assert(!crate::single::below(t[at].ambient_dbfs, pt.ambient_dbfs));
                if b > at {
                    assert(!crate::single::below(levels(t)[b], levels(t)[at]));
                }
            }
        }
    } else {
        farthest_is_farthest(t, d, Some(pt.chosen), t.len());
        farthest_is_farthest(t, d, None, t.len());
        if out != t {
            let f = match farthest_of(t, d, Some(pt.chosen), t.len()) {
                Some(f) => f,
                None => farthest_of(t, d, None, t.len())->0,
            };
            let u = t.update(f, pt);
            ordering_sorts(u);
            assert(crate::single::all_numbers(levels(u))) by {
                assert forall|i: int| 0 <= i < u.len() implies #[trigger] crate::single::is_number(
                    levels(u)[i],
                ) by {
                    if i != f {
                        assert(u[i] == t[i]);
                    }
                }
            }
            crate::single::sorting_orders(levels(u));
        }
    }
}

/// What stands before the slot lies below the level, and what stands at it does not.
pub proof fn slot_parts(t: Seq<CalPoint>, level: u32)
    ensures
        0 <= slot_for(t, level) <= t.len(),
        forall|k: int|
            0 <= k < slot_for(t, level) ==> crate::single::below(
                (#[trigger] t[k]).ambient_dbfs,
                level,
            ),
        slot_for(t, level) < t.len() ==> !crate::single::below(
            t[slot_for(t, level)].ambient_dbfs,
            level,
        ),
    decreases t.len(),
{
    if t.len() > 0 && crate::single::below(t[0].ambient_dbfs, level) {
        let rest = t.skip(1);
        slot_parts(rest, level);
        assert forall|k: int| 0 <= k < slot_for(t, level) implies crate::single::below(
            (#[trigger] t[k]).ambient_dbfs,
            level,
        ) by {
            if k > 0 {
                assert(rest[k - 1] == t[k]);
            }
        }
    }
}

/// The table never outgrows its slots, and never shrinks: a measurement adds a
/// point while there is room for it, and else keeps the number.
pub proof fn tables_fill_up(
    t: Seq<CalPoint>,
    pt: CalPoint,
    crossover: Option<u32>,
    d: Seq<u32>,
    new_d: u32,
)
    requires
        t.len() <= MAX_POINTS,
        t.len() <= d.len(),
    ensures
        with_point(t, pt, crossover, d, new_d).len() == if has_room(t, pt.chosen) {
            t.len() + 1
        } else {
            t.len()
        },
        with_point(t, pt, crossover, d, new_d).len() <= MAX_POINTS,
{
    slot_is_inside(t, pt.ambient_dbfs);
    farthest_is_farthest(t, d, Some(pt.chosen), t.len());
    farthest_is_farthest(t, d, None, t.len());
    if !has_room(t, pt.chosen) {
        match farthest_of(t, d, Some(pt.chosen), t.len()) {
            Some(f) => ordering_sorts(t.update(f, pt)),
            None => ordering_sorts(t.update(farthest_of(t, d, None, t.len())->0, pt)),
        }
    }
}

/// A point that contradicts the crossover is always kept, and so is the first one
/// of its side.
pub proof fn contradicting_points_are_kept(
    t: Seq<CalPoint>,
    pt: CalPoint,
    crossover: Option<u32>,
    d: Seq<u32>,
    new_d: u32,
)
    requires
        t.len() <= MAX_POINTS,
        t.len() <= d.len(),
        flips(pt, crossover) || has_room(t, pt.chosen) || forall|i: int|
            0 <= i < t.len() ==> (#[trigger] t[i]).chosen != pt.chosen,
    ensures
        with_point(t, pt, crossover, d, new_d).contains(pt),
{
    broadcast use vstd::seq_lib::group_to_multiset_ensures;

    let out = with_point(t, pt, crossover, d, new_d);
    slot_is_inside(t, pt.ambient_dbfs);
    if has_room(t, pt.chosen) {
        assert(out[slot_for(t, pt.ambient_dbfs)] == pt);
    } else {
        farthest_is_farthest(t, d, Some(pt.chosen), t.len());
        farthest_is_farthest(t, d, None, t.len());
        if farthest_of(t, d, Some(pt.chosen), t.len()) is None {
            none_are_counted(t, pt.chosen);
        }
        assert(on_side(t[0], None));
        let f = match farthest_of(t, d, Some(pt.chosen), t.len()) {
            Some(f) => f,
            None => farthest_of(t, d, None, t.len())->0,
        };
        let u = t.update(f, pt);
        ordering_sorts(u);
        assert(u[f] == pt);
        assert(u.contains(pt));
        assert(u.to_multiset().count(pt) > 0);
        assert(out.to_multiset().count(pt) > 0);
    }
}

proof fn counts_after_update(t: Seq<CalPoint>, f: int, pt: CalPoint, side: u8)
    requires
        0 <= f < t.len(),
    ensures
        count_of(t.update(f, pt), side) == count_of(t, side) - (if t[f].chosen == side {
            1int
        } else {
            0
        }) + (if pt.chosen == side {
            1int
        } else {
            0
        }),
    decreases t.len(),
{
    if f < t.len() - 1 {
        counts_after_update(t.drop_last(), f, pt, side);
        assert(t.update(f, pt).drop_last() =~= t.drop_last().update(f, pt));
    } else {
        assert(t.update(f, pt).drop_last() =~= t.drop_last());
    }
}

proof fn counts_after_placing(t: Seq<CalPoint>, p: CalPoint, side: u8)
    ensures
        count_of(placed(t, p), side) == count_of(t, side) + (if p.chosen == side {
            1nat
        } else {
            0
        }),
    decreases t.len(),
{
    if t.len() > 0 && crate::single::below(p.ambient_dbfs, t.last().ambient_dbfs) {
        counts_after_placing(t.drop_last(), p, side);
        assert(placed(t, p).drop_last() =~= placed(t.drop_last(), p));
    } else {
        assert(t.push(p).drop_last() =~= t);
    }
}

proof fn counts_after_ordering(t: Seq<CalPoint>, side: u8)
    ensures
        count_of(in_order(t), side) == count_of(t, side),
    decreases t.len(),
{
    if t.len() > 0 {
        counts_after_ordering(t.drop_last(), side);
        counts_after_placing(in_order(t.drop_last()), t.last(), side);
    }
}

proof fn counts_after_inserting(t: Seq<CalPoint>, at: int, pt: CalPoint, side: u8)
    requires
        0 <= at <= t.len(),
    ensures
        count_of(t.insert(at, pt), side) == count_of(t, side) + (if pt.chosen == side {
            1int
        } else {
            0
        }),
    decreases t.len(),
{
    if at == t.len() {
        assert(t.insert(at, pt).drop_last() =~= t);
    } else {
        counts_after_inserting(t.drop_last(), at, pt, side);
        assert(t.insert(at, pt).drop_last() =~= t.drop_last().insert(at, pt));
    }
}

/// Where there is no room for the new point but another of its side, the sides keep
/// their numbers: it only ever takes the place of one that chose as it did.
pub proof fn full_tables_keep_their_sides(
    t: Seq<CalPoint>,
    pt: CalPoint,
    crossover: Option<u32>,
    d: Seq<u32>,
    new_d: u32,
    side: u8,
)
    requires
        t.len() <= d.len(),
        !has_room(t, pt.chosen),
        exists|i: int| 0 <= i < t.len() && (#[trigger] t[i]).chosen == pt.chosen,
    ensures
        count_of(with_point(t, pt, crossover, d, new_d), side) == count_of(t, side),
{
    farthest_is_farthest(t, d, Some(pt.chosen), t.len());
    let i = choose|i: int| 0 <= i < t.len() && (#[trigger] t[i]).chosen == pt.chosen;
    assert(on_side(t[i], Some(pt.chosen)));
    let f = farthest_of(t, d, Some(pt.chosen), t.len())->0;
    counts_after_update(t, f, pt, side);
    counts_after_ordering(t.update(f, pt), side);
}

/// A side that holds no more points than it has slots never does.
pub proof fn sides_keep_to_their_slots(
    t: Seq<CalPoint>,
    pt: CalPoint,
    crossover: Option<u32>,
    d: Seq<u32>,
    new_d: u32,
    side: u8,
)
    requires
        t.len() <= MAX_POINTS,
        t.len() <= d.len(),
        count_of(t, side) <= SLOTS_PER_SIDE,
    ensures
        count_of(with_point(t, pt, crossover, d, new_d), side) <= SLOTS_PER_SIDE,
{
    if has_room(t, pt.chosen) {
        slot_is_inside(t, pt.ambient_dbfs);
        counts_after_inserting(t, slot_for(t, pt.ambient_dbfs), pt, side);
    } else if exists|i: int| 0 <= i < t.len() && (#[trigger] t[i]).chosen == pt.chosen {
        full_tables_keep_their_sides(t, pt, crossover, d, new_d, side);
    } else {
        farthest_is_farthest(t, d, Some(pt.chosen), t.len());
        farthest_is_farthest(t, d, None, t.len());
        none_are_counted(t, pt.chosen);
        if let Some(f) = farthest_of(t, d, None, t.len()) {
            counts_after_update(t, f, pt, side);
            counts_after_ordering(t.update(f, pt), side);
        }
    }
}

/// Of the points of a side and a new one for which there is no room, the nearest to the
/// crossover are kept: the one that is left out is as far away as any of them. A point
/// that contradicts the crossover is kept in any case, and so left aside here, and so
/// are distances that are no numbers.
pub proof fn nearest_points_are_kept(
    t: Seq<CalPoint>,
    pt: CalPoint,
    crossover: Option<u32>,
    d: Seq<u32>,
    new_d: u32,
    j: int,
)
    requires
        t.len() == d.len(),
        !has_room(t, pt.chosen),
        !flips(pt, crossover),
        crate::single::all_numbers(d),
        crate::single::is_number(new_d),
        0 <= j < t.len(),
        t[j].chosen == pt.chosen,
    ensures
        ({
            let out = with_point(t, pt, crossover, d, new_d);
            ||| out == t && !crate::single::below(new_d, d[j])
            ||| exists|f: int|
                0 <= f < t.len() && t[f].chosen == pt.chosen && out == in_order(
                    #[trigger] t.update(f, pt),
                ) && crate::single::below(new_d, d[f]) && !crate::single::below(d[f], d[j])
        }),
{
    farthest_is_farthest(t, d, Some(pt.chosen), t.len());
    assert(d.take(d.len() as int) =~= d);
    assert(on_side(t[j], Some(pt.chosen)));
    let f = farthest_of(t, d, Some(pt.chosen), t.len())->0;
    assert(crate::single::is_number(d[f]));
    assert(crate::single::is_number(d[j]));
    if crate::single::below(new_d, d[f]) {
        assert(with_point(t, pt, crossover, d, new_d) == in_order(t.update(f, pt)));
    }
}

/// The first bytes of the file: "NAC2".
pub open spec fn magic() -> Seq<u8> {
    seq![0x4E, 0x41, 0x43, 0x32]
}

/// A point in the file.
pub open spec fn point_bytes(p: CalPoint) -> Seq<u8> {
    crate::bytes::le(p.ambient_dbfs as int, 4) + crate::bytes::le(p.delta_db as int, 4) + seq![
        p.chosen,
        p.temp_c,
        0u8,
        0u8,
    ]
}

/// The points in the file.
pub open spec fn points_bytes(s: Seq<CalPoint>) -> Seq<u8>
    decreases s.len(),
{
    if s.len() == 0 {
        Seq::empty()
    } else {
        points_bytes(s.drop_last()) + point_bytes(s.last())
    }
}

/// What stands in the file before the points.
pub open spec fn header_bytes(cal: NoiseCal) -> Seq<u8> {
    magic() + crate::bytes::le(2, 4) + crate::bytes::le(cal.mic_hash as int, 8) + crate::bytes::le(
        cal.ref_gain as int,
        4,
    ) + crate::bytes::le(cal.fan_perf_power as int, 4) + crate::bytes::le(
        cal.fan_bal_power as int,
        4,
    ) + crate::bytes::le(cal.cal_timestamp as int, 8) + crate::bytes::le(cal.num_points as int, 4)
}

/// The file of a calibration.
pub open spec fn file_of(cal: NoiseCal) -> Seq<u8> {
    header_bytes(cal) + points_bytes(cal.points@)
}

/// Whether the bytes are a file of this kind.
pub open spec fn is_cal_file(bytes: Seq<u8>) -> bool {
    &&& bytes.len() == CAL_BYTES
    &&& bytes.subrange(0, 4) == magic()
    &&& crate::bytes::from_le(bytes.subrange(4, 8)) == 2
}

/// Whether the bytes hold the point at `at`.
pub open spec fn holds_point(bytes: Seq<u8>, at: int, p: CalPoint) -> bool {
    &&& crate::bytes::from_le(bytes.subrange(at, at + 4)) == p.ambient_dbfs
    &&& crate::bytes::from_le(bytes.subrange(at + 4, at + 8)) == p.delta_db
    &&& bytes[at + 8] == p.chosen
    &&& bytes[at + 9] == p.temp_c
}

/// Whether the file holds the calibration.
pub open spec fn holds(bytes: Seq<u8>, cal: NoiseCal) -> bool {
    &&& cal.fits()
    &&& crate::bytes::from_le(bytes.subrange(8, 16)) == cal.mic_hash
    &&& crate::bytes::from_le(bytes.subrange(16, 20)) == cal.ref_gain
    &&& crate::bytes::from_le(bytes.subrange(20, 24)) == cal.fan_perf_power
    &&& crate::bytes::from_le(bytes.subrange(24, 28)) == cal.fan_bal_power
    &&& crate::bytes::from_le(bytes.subrange(28, 36)) == cal.cal_timestamp
    &&& crate::bytes::from_le(bytes.subrange(36, 40)) == cal.num_points
    &&& forall|i: int|
        0 <= i < MAX_POINTS ==> holds_point(
            bytes,
            POINTS_AT + POINT_BYTES * i,
            #[trigger] cal.points@[i],
        )
}

/// Reads four bytes.
fn read_u32(bytes: &[u8], at: usize) -> (n: u32)
    requires
        at + 4 <= bytes@.len(),
    ensures
        n == crate::bytes::from_le(bytes@.subrange(at as int, at + 4)),
{
    let n: u64 = read_le(bytes, at, 4);
    proof {
        crate::bytes::common_ranges();
    }
    n as u32
}

/// Reads a calibration file. `None` where there is none: a length, a beginning or
/// a version that is not its own.
pub fn load_cal(data: Option<&[u8]>) -> (r: Option<NoiseCal>)
    ensures
        r is Some <==> (data matches Some(d) && is_cal_file(d@)),
        r matches Some(cal) ==> holds(data->0@, cal),
{
    let bytes: &[u8] = match data {
        Some(d) => d,
        None => return None,
    };
    if bytes.len() != CAL_BYTES {
        return None;
    }
    if bytes[0] != 0x4E || bytes[1] != 0x41 || bytes[2] != 0x43 || bytes[3] != 0x32 {
        assert(bytes@.subrange(0, 4)[0] == bytes@[0]);
        assert(bytes@.subrange(0, 4)[1] == bytes@[1]);
        assert(bytes@.subrange(0, 4)[2] == bytes@[2]);
        assert(bytes@.subrange(0, 4)[3] == bytes@[3]);
        return None;
    }
    assert(bytes@.subrange(0, 4) =~= magic());
    if read_u32(bytes, 4) != 2 {
        return None;
    }
    let mut points: Vec<CalPoint> = Vec::new();
    let mut i: usize = 0;
    while i < MAX_POINTS
        invariant
            i <= MAX_POINTS,
            bytes@.len() == CAL_BYTES,
            points@.len() == i,
            forall|k: int|
                0 <= k < i ==> holds_point(
                    bytes@,
                    POINTS_AT + POINT_BYTES * k,
                    #[trigger] points@[k],
                ),
        decreases MAX_POINTS - i,
    {
        let at: usize = POINTS_AT + POINT_BYTES * i;
        points.push(
            CalPoint {
                ambient_dbfs: read_u32(bytes, at),
                delta_db: read_u32(bytes, at + 4),
                chosen: bytes[at + 8],
                temp_c: bytes[at + 9],
            },
        );
        i = i + 1;
    }
    Some(
        NoiseCal {
            mic_hash: read_le(bytes, 8, 8),
            ref_gain: read_u32(bytes, 16),
            fan_perf_power: read_u32(bytes, 20),
            fan_bal_power: read_u32(bytes, 24),
            cal_timestamp: read_le(bytes, 28, 8),
            num_points: read_u32(bytes, 36),
            points,
        },
    )
}

/// Writes a calibration file.
pub fn save_cal(cal: &NoiseCal) -> (out: Vec<u8>)
    ensures
        out@ == file_of(*cal),
{
    let mut out: Vec<u8> = Vec::new();
    out.push(0x4E);
    out.push(0x41);
    out.push(0x43);
    out.push(0x32);
    assert(out@ =~= magic());
    push_le(&mut out, 2, 4);
    push_le(&mut out, cal.mic_hash, 8);
    push_le(&mut out, cal.ref_gain as u64, 4);
    push_le(&mut out, cal.fan_perf_power as u64, 4);
    push_le(&mut out, cal.fan_bal_power as u64, 4);
    push_le(&mut out, cal.cal_timestamp, 8);
    push_le(&mut out, cal.num_points as u64, 4);
    let ghost header = out@;
    let mut i: usize = 0;
    proof {
        assert(cal.points@.take(0) =~= Seq::<CalPoint>::empty());
    }
    while i < cal.points.len()
        invariant
            i <= cal.points@.len(),
            header == header_bytes(*cal),
            out@ == header + points_bytes(cal.points@.take(i as int)),
        decreases cal.points@.len() - i,
    {
        let p: CalPoint = cal.points[i];
        let ghost before = out@;
        push_le(&mut out, p.ambient_dbfs as u64, 4);
        push_le(&mut out, p.delta_db as u64, 4);
        out.push(p.chosen);
        out.push(p.temp_c);
        out.push(0);
        out.push(0);
        proof {
            assert(out@ =~= before + point_bytes(p));
            let t = cal.points@.take(i + 1);
            assert(t.drop_last() =~= cal.points@.take(i as int));
            assert(t.last() == p);
        }
        i = i + 1;
    }
    proof {
        assert(cal.points@.take(cal.points@.len() as int) =~= cal.points@);
    }
    out
}

proof fn point_bytes_hold(p: CalPoint, bytes: Seq<u8>, at: int)
    requires
        0 <= at,
        at + POINT_BYTES <= bytes.len(),
        bytes.subrange(at, at + POINT_BYTES) == point_bytes(p),
    ensures
        holds_point(bytes, at, p),
{
    let s = point_bytes(p);
    crate::bytes::common_ranges();
    crate::bytes::le_round_trips(p.ambient_dbfs as int, 4);
    crate::bytes::le_round_trips(p.delta_db as int, 4);
    assert(bytes.subrange(at, at + 4) =~= s.subrange(0, 4));
    assert(s.subrange(0, 4) =~= crate::bytes::le(p.ambient_dbfs as int, 4));
    assert(bytes.subrange(at + 4, at + 8) =~= s.subrange(4, 8));
    assert(s.subrange(4, 8) =~= crate::bytes::le(p.delta_db as int, 4));
    assert(bytes[at + 8] == s[8]);
    assert(bytes[at + 9] == s[9]);
}

proof fn points_bytes_len(s: Seq<CalPoint>)
    ensures
        points_bytes(s).len() == POINT_BYTES * s.len(),
    decreases s.len(),
{
    if s.len() > 0 {
        points_bytes_len(s.drop_last());
        crate::bytes::le_has_its_width(s.last().ambient_dbfs as int, 4);
        crate::bytes::le_has_its_width(s.last().delta_db as int, 4);
    }
}

proof fn points_bytes_parts(s: Seq<CalPoint>, i: int)
    requires
        0 <= i < s.len(),
    ensures
        points_bytes(s).subrange(POINT_BYTES * i, POINT_BYTES * i + POINT_BYTES) == point_bytes(
            s[i],
        ),
    decreases s.len(),
{
    let rest = s.drop_last();
    points_bytes_len(s);
    points_bytes_len(rest);
    if i < rest.len() {
        points_bytes_parts(rest, i);
    }
    if i < rest.len() {
        assert(points_bytes(s).subrange(POINT_BYTES * i, POINT_BYTES * i + POINT_BYTES)
            =~= points_bytes(rest).subrange(POINT_BYTES * i, POINT_BYTES * i + POINT_BYTES));
    } else {
        assert(points_bytes(s).subrange(POINT_BYTES * i, POINT_BYTES * i + POINT_BYTES)
            =~= point_bytes(s[i]));
    }
}

/// A calibration that was written is read back: the file is of its kind, and
/// whatever it is said to hold is the calibration.
pub proof fn saved_calibrations_are_read_back(cal: NoiseCal, loaded: NoiseCal)
    requires
        cal.fits(),
    ensures
        is_cal_file(file_of(cal)),
        holds(file_of(cal), cal),
        holds(file_of(cal), loaded) ==> {
            &&& loaded.points@ == cal.points@
            &&& loaded == (NoiseCal { points: loaded.points, ..cal })
        },
{
    let f = file_of(cal);
    crate::bytes::common_ranges();
    crate::bytes::le_round_trips(2, 4);
    crate::bytes::le_round_trips(cal.mic_hash as int, 8);
    crate::bytes::le_round_trips(cal.ref_gain as int, 4);
    crate::bytes::le_round_trips(cal.fan_perf_power as int, 4);
    crate::bytes::le_round_trips(cal.fan_bal_power as int, 4);
    crate::bytes::le_round_trips(cal.cal_timestamp as int, 8);
    crate::bytes::le_round_trips(cal.num_points as int, 4);
    points_bytes_len(cal.points@);
    assert(f.subrange(0, 4) =~= magic());
    assert(f.subrange(4, 8) =~= crate::bytes::le(2, 4));
    assert(f.subrange(8, 16) =~= crate::bytes::le(cal.mic_hash as int, 8));
    assert(f.subrange(16, 20) =~= crate::bytes::le(cal.ref_gain as int, 4));
    assert(f.subrange(20, 24) =~= crate::bytes::le(cal.fan_perf_power as int, 4));
    assert(f.subrange(24, 28) =~= crate::bytes::le(cal.fan_bal_power as int, 4));
    assert(f.subrange(28, 36) =~= crate::bytes::le(cal.cal_timestamp as int, 8));
    assert(f.subrange(36, 40) =~= crate::bytes::le(cal.num_points as int, 4));
    assert forall|i: int| 0 <= i < MAX_POINTS implies holds_point(
        f,
        POINTS_AT + POINT_BYTES * i,
        #[trigger] cal.points@[i],
    ) by {
        points_bytes_parts(cal.points@, i);
        let at = POINTS_AT + POINT_BYTES * i;
        assert(f.subrange(at, at + POINT_BYTES) =~= points_bytes(cal.points@).subrange(
            POINT_BYTES * i,
            POINT_BYTES * i + POINT_BYTES,
        ));
        point_bytes_hold(cal.points@[i], f, at);
    }
    if holds(f, loaded) {
        assert forall|i: int| 0 <= i < MAX_POINTS implies loaded.points@[i] == cal.points@[i] by {
            assert(holds_point(f, POINTS_AT + POINT_BYTES * i, cal.points@[i]));
            assert(holds_point(f, POINTS_AT + POINT_BYTES * i, loaded.points@[i]));
        }
        assert(loaded.points@ =~= cal.points@);
    }
}

/// A measurement goes into what is kept of its microphone, all of it; another microphone
/// begins with nothing, under its own hash and gain. Whatever it goes into is of the
/// microphone that was measured.
pub proof fn microphones_are_kept_apart(
    kept: Option<NoiseCal>,
    mic_hash: u64,
    gain: u32,
    cal: NoiseCal,
)
    requires
        goes_into(kept, mic_hash, gain, cal),
    ensures
        cal.mic_hash == mic_hash,
        kept is Some && kept->0.mic_hash == mic_hash ==> cal == kept->0,
        !(kept is Some && kept->0.mic_hash == mic_hash) ==> {
            &&& cal.ref_gain == gain
            &&& cal.num_points == 0
            &&& cal.points@.len() == 8
            &&& cal.cal_timestamp == 0
            &&& !fans_known(cal)
        },
{
}

/// The fans count as measured only where both powers are numbers above zero, and what
/// was measured last is what is kept, each power under its mode, with when and at which
/// gain. The points and the microphone stay.
pub proof fn measured_fans_are_kept(cal: NoiseCal, perf: u32, bal: u32, now: u64, gain: u32)
    ensures
        ({
            let after = with_fan_powers(cal, perf, bal, now, gain);
            &&& after.fan_perf_power == perf
            &&& after.fan_bal_power == bal
            &&& after.cal_timestamp == now
            &&& after.ref_gain == gain
            &&& after.mic_hash == cal.mic_hash
            &&& after.table() == cal.table()
            &&& fans_known(after) <==> crate::single::below(0, perf) && crate::single::below(0, bal)
        }),
{
}

/// The crossover lies between two neighbours that were decided differently, and no two
/// others that were lie closer together; of several such pairs it is the first.
pub proof fn crossovers_lie_where_the_choice_changes(
    t: Seq<CalPoint>,
    gaps: Seq<u32>,
    i: int,
    j: int,
)
    requires
        is_crossover(t, gaps, i),
        0 <= j < t.len() - 1,
        t[j].chosen != t[j + 1].chosen,
    ensures
        0 <= i < t.len() - 1,
        t[i].chosen != t[i + 1].chosen,
        !crate::single::below(gaps[j], gaps[i]),
        j < i && crate::single::is_number(gaps[j]) ==> crate::single::below(gaps[i], gaps[j]),
{
    if crosses(t, gaps, j) {
    }
}

/// A point contradicts the crossover where it chose the louder mode below it or the
/// quieter one above it; on the crossover, or without one, nothing contradicts it.
pub proof fn contradictions_are_on_the_wrong_side(pt: CalPoint, crossover: u32)
    ensures
        flips(pt, Some(crossover)) && pt.chosen == 1 ==> crate::single::below(
            crossover,
            pt.ambient_dbfs,
        ),
        flips(pt, Some(crossover)) && pt.chosen == 0 ==> crate::single::below(
            pt.ambient_dbfs,
            crossover,
        ),
        crate::single::below(crossover, pt.ambient_dbfs) ==> (flips(pt, Some(crossover))
            <==> pt.chosen == 1),
        crate::single::below(pt.ambient_dbfs, crossover) ==> (flips(pt, Some(crossover))
            <==> pt.chosen != 1),
        !flips(pt, None),
        pt.ambient_dbfs == crossover ==> !flips(pt, Some(crossover)),
{
}

/// A table takes eight points, four of a side. While there is room, a measurement loses
/// none: the table is what it was and the new point.
pub proof fn nothing_leaves_while_there_is_room(
    t: Seq<CalPoint>,
    pt: CalPoint,
    crossover: Option<u32>,
    d: Seq<u32>,
    new_d: u32,
)
    requires
        t.len() < 8,
        count_of(t, pt.chosen) < 4,
    ensures
        with_point(t, pt, crossover, d, new_d).to_multiset() == t.to_multiset().insert(pt),
{
    broadcast use vstd::seq_lib::group_to_multiset_ensures;

    slot_is_inside(t, pt.ambient_dbfs);
}

/// The points of a side are those that chose it.
pub proof fn sides_are_counted(t: Seq<CalPoint>, p: CalPoint, side: u8)
    ensures
        count_of(t.push(p), side) == count_of(t, side) + if p.chosen == side {
            1nat
        } else {
            0
        },
        count_of(Seq::empty(), side) == 0,
{
    assert(t.push(p).drop_last() =~= t);
}

/// Where there is no room, a point that contradicts the crossover takes the place of the
/// farthest of its side, and the first of its side that of the farthest of all. All other
/// points stay. Distances that are no numbers are left out.
pub proof fn the_farthest_makes_room(
    t: Seq<CalPoint>,
    pt: CalPoint,
    crossover: Option<u32>,
    d: Seq<u32>,
    new_d: u32,
    j: int,
)
    requires
        t.len() == d.len(),
        t.len() == 8 || count_of(t, pt.chosen) >= 4,
        crate::single::all_numbers(d),
        0 <= j < t.len(),
        flips(pt, crossover) && t[j].chosen == pt.chosen || forall|i: int|
            0 <= i < t.len() ==> (#[trigger] t[i]).chosen != pt.chosen,
    ensures
        exists|f: int|
            0 <= f < t.len() && with_point(t, pt, crossover, d, new_d).to_multiset()
                == #[trigger] t.update(f, pt).to_multiset() && !crate::single::below(d[f], d[j])
                && (t[f].chosen == pt.chosen || count_of(t, pt.chosen) == 0),
{
    farthest_is_farthest(t, d, Some(pt.chosen), t.len());
    farthest_is_farthest(t, d, None, t.len());
    assert(d.take(d.len() as int) =~= d);
    assert(on_side(t[j], None));
    if t[j].chosen == pt.chosen {
        assert(on_side(t[j], Some(pt.chosen)));
        let f = farthest_of(t, d, Some(pt.chosen), t.len())->0;
        ordering_sorts(t.update(f, pt));
        assert(with_point(t, pt, crossover, d, new_d).to_multiset() == t.update(
            f,
            pt,
        ).to_multiset());
    } else {
        none_are_counted(t, pt.chosen);
        let f = farthest_of(t, d, None, t.len())->0;
        ordering_sorts(t.update(f, pt));
        assert(with_point(t, pt, crossover, d, new_d).to_multiset() == t.update(
            f,
            pt,
        ).to_multiset());
    }
}

/// The file is 136 bytes: "NAC2", its version, the microphone, the gain, both powers with
/// Performance first, the time, the number of points, and eight points of twelve bytes.
pub proof fn calibration_files_are_laid_out(cal: NoiseCal, i: int)
    requires
        cal.fits(),
        0 <= i < 8,
    ensures
        ({
            let f = file_of(cal);
            let at = 40 + 12 * i;
            &&& f.len() == 136
            &&& f.take(4) == seq![0x4Eu8, 0x41u8, 0x43u8, 0x32u8]
            &&& crate::bytes::from_le(f.subrange(4, 8)) == 2
            &&& crate::bytes::from_le(f.subrange(8, 16)) == cal.mic_hash
            &&& crate::bytes::from_le(f.subrange(16, 20)) == cal.ref_gain
            &&& crate::bytes::from_le(f.subrange(20, 24)) == cal.fan_perf_power
            &&& crate::bytes::from_le(f.subrange(24, 28)) == cal.fan_bal_power
            &&& crate::bytes::from_le(f.subrange(28, 36)) == cal.cal_timestamp
            &&& crate::bytes::from_le(f.subrange(36, 40)) == cal.num_points
            &&& crate::bytes::from_le(f.subrange(at, at + 4)) == cal.points@[i].ambient_dbfs
            &&& crate::bytes::from_le(f.subrange(at + 4, at + 8)) == cal.points@[i].delta_db
            &&& f[at + 8] == cal.points@[i].chosen
            &&& f[at + 9] == cal.points@[i].temp_c
        }),
{
    let f = file_of(cal);
    saved_calibrations_are_read_back(cal, cal);
    assert(f.take(4) =~= f.subrange(0, 4));
    assert(holds_point(f, 40 + 12 * i, cal.points@[i]));
}

/// A file of another length, with another beginning or of another version is not read.
pub proof fn other_files_are_not_read(bytes: Seq<u8>)
    ensures
        is_cal_file(bytes) ==> bytes.len() == 136 && bytes[0] == 78 && bytes[1] == 65 && bytes[2]
            == 67 && bytes[3] == 50 && bytes[4] == 2 && bytes[5] == 0 && bytes[6] == 0 && bytes[7]
            == 0,
{
    if is_cal_file(bytes) {
        let v = bytes.subrange(4, 8);
        let head = bytes.subrange(0, 4);
        assert(head[0] == bytes[0] && head[1] == bytes[1] && head[2] == bytes[2] && head[3]
            == bytes[3]);
        reveal_with_fuel(crate::bytes::from_le, 5);
        crate::bytes::from_le_is_in_range(v.skip(1));
        assert(v[0] == bytes[4]);
        assert(v.skip(1)[0] == bytes[5]);
        crate::bytes::from_le_is_in_range(v.skip(1).skip(1));
        assert(v.skip(1).skip(1)[0] == bytes[6]);
        crate::bytes::from_le_is_in_range(v.skip(1).skip(1).skip(1));
        assert(v.skip(1).skip(1).skip(1)[0] == bytes[7]);
        crate::bytes::from_le_is_in_range(v.skip(1).skip(1).skip(1).skip(1));
    }
}

/// The gap that any crossover undercuts is the largest finite number: nothing but the
/// infinite is above it.
pub proof fn no_finite_gap_is_larger(gap: u32)
    ensures
        crate::single::below(LARGEST, gap) <==> gap == 0x7F80_0000,
{
}

} // verus!
