//! Tracks: which tone of a frame goes on from which tone of the frame before.

use vstd::prelude::*;

use crate::meter::{
    LOWEST_FUNDAMENTAL, MAX_PEAKS, MAX_TRACKS, MOVING_SLOPE, STATIONARY_SLOPE, TRACK_MAX_JUMP_HZ,
    TRACK_MAX_MISSED,
};
use crate::single::{abs, less, ZERO};

verus! {

/// The life of a track.
#[derive(Clone, Copy, PartialEq, Eq, Structural, Debug)]
pub struct Track {
    pub alive: bool,
    /// How many frames in a row had no tone for it.
    pub missed: u8,
    /// In how many frames it had a tone.
    pub frames_alive: u16,
}

/// What a frame did to a track.
#[derive(Clone, Copy, PartialEq, Eq, Structural, Debug)]
pub enum Fate {
    /// It was dead, and is.
    Idle,
    /// It goes on with this tone.
    Linked(usize),
    /// No tone was near enough.
    Missed,
    /// It begins with this tone.
    Born(usize),
}

/// A track that begins.
pub open spec fn born() -> Track {
    Track { alive: true, missed: 0, frames_alive: 1 }
}

/// A track after a frame with a tone for it.
pub open spec fn linked(t: Track) -> Track {
    Track {
        missed: 0,
        frames_alive: if t.frames_alive < u16::MAX {
            (t.frames_alive + 1) as u16
        } else {
            u16::MAX
        },
        ..t
    }
}

/// A track after a frame without a tone for it.
pub open spec fn unlinked(t: Track) -> Track {
    Track { missed: (t.missed + 1) as u8, alive: t.missed + 1 < TRACK_MAX_MISSED, ..t }
}

/// Of the first `n` tones that are free, the nearest within reach; the first of
/// these where several are.
pub open spec fn nearest(row: Seq<u32>, used: Seq<bool>, n: int) -> Option<int>
    decreases n,
{
    if n <= 0 {
        None
    } else {
        let before = nearest(row, used, n - 1);
        let limit = match before {
            Some(b) => row[b],
            None => TRACK_MAX_JUMP_HZ,
        };
        if !used[n - 1] && crate::single::below(row[n - 1], limit) {
            Some(n - 1)
        } else {
            before
        }
    }
}

/// Whether a tone is free and within reach.
pub open spec fn in_reach(row: Seq<u32>, used: Seq<bool>, i: int) -> bool {
    !used[i] && crate::single::below(row[i], TRACK_MAX_JUMP_HZ)
}

/// The nearest tone is free and within reach, and none that is so is nearer; there
/// is none only where none is so.
pub proof fn nearest_is_nearest(row: Seq<u32>, used: Seq<bool>, n: int)
    ensures
        match nearest(row, used, n) {
            Some(b) => {
                &&& 0 <= b < n
                &&& in_reach(row, used, b)
                &&& forall|i: int|
                    0 <= i < n && #[trigger] in_reach(row, used, i) ==> !crate::single::below(
                        row[i],
                        row[b],
                    )
            },
            None => forall|i: int| 0 <= i < n ==> !#[trigger] in_reach(row, used, i),
        },
    decreases n,
{
    if n > 0 {
        nearest_is_nearest(row, used, n - 1);
        if nearest(row, used, n) == Some(n - 1) {
            assert(in_reach(row, used, n - 1));
        }
    }
}

/// The tracks, what became of them, and which tones are taken.
pub struct Linking {
    pub tracks: Seq<Track>,
    pub fates: Seq<Fate>,
    pub used: Seq<bool>,
}

/// After the first `k` tracks have looked for their tones. `dist` holds for each
/// track how far each tone is from it.
pub open spec fn linking(tracks: Seq<Track>, dist: Seq<Seq<u32>>, peaks: int, k: int) -> Linking
    decreases k,
{
    if k <= 0 {
        Linking {
            tracks,
            fates: Seq::empty(),
            used: Seq::new(peaks as nat, |i: int| false),
        }
    } else {
        let l = linking(tracks, dist, peaks, k - 1);
        let t = tracks[k - 1];
        if !t.alive {
            Linking { fates: l.fates.push(Fate::Idle), ..l }
        } else {
            match nearest(dist[k - 1], l.used, peaks) {
                Some(i) => Linking {
                    tracks: l.tracks.update(k - 1, linked(t)),
                    fates: l.fates.push(Fate::Linked(i as usize)),
                    used: l.used.update(i, true),
                },
                None => Linking {
                    tracks: l.tracks.update(k - 1, unlinked(t)),
                    fates: l.fates.push(Fate::Missed),
                    ..l
                },
            }
        }
    }
}

/// The first dead track from `i` on.
pub open spec fn first_dead(tracks: Seq<Track>, i: int) -> Option<int>
    decreases tracks.len() - i,
{
    if i >= tracks.len() {
        None
    } else if !tracks[i].alive {
        Some(i)
    } else {
        first_dead(tracks, i + 1)
    }
}

/// After the first `n` tones have begun tracks of their own, where they are free: in
/// a new place while there is room, else in the place of the first dead track.
pub open spec fn births(l: Linking, n: int) -> Linking
    decreases n,
{
    if n <= 0 {
        l
    } else {
        let b = births(l, n - 1);
        let i = (n - 1) as usize;
        if b.used[n - 1] {
            b
        } else if b.tracks.len() < MAX_TRACKS {
            Linking {
                tracks: b.tracks.push(born()),
                fates: b.fates.push(Fate::Born(i)),
                ..b
            }
        } else {
            match first_dead(b.tracks, 0) {
                Some(d) => Linking {
                    tracks: b.tracks.update(d, born()),
                    fates: b.fates.update(d, Fate::Born(i)),
                    ..b
                },
                None => b,
            }
        }
    }
}

/// What a frame does to the tracks.
pub open spec fn frame_of(tracks: Seq<Track>, dist: Seq<Seq<u32>>, peaks: int) -> Linking {
    births(linking(tracks, dist, peaks, tracks.len() as int), peaks)
}

/// No more tracks than there is room for, and none alive that has missed too many.
pub open spec fn are_tracks(tracks: Seq<Track>) -> bool {
    &&& tracks.len() <= MAX_TRACKS
    &&& forall|i: int|
        0 <= i < tracks.len() && (#[trigger] tracks[i]).alive ==> tracks[i].missed
            < TRACK_MAX_MISSED
}

/// The distances, as sequences.
pub open spec fn rows(dist: Seq<Vec<u32>>) -> Seq<Seq<u32>> {
    dist.map_values(|r: Vec<u32>| r@)
}

proof fn linking_keeps_shape(tracks: Seq<Track>, dist: Seq<Seq<u32>>, peaks: int, k: int)
    requires
        0 <= k <= tracks.len(),
        0 <= peaks,
        are_tracks(tracks),
    ensures
        linking(tracks, dist, peaks, k).tracks.len() == tracks.len(),
        linking(tracks, dist, peaks, k).fates.len() == k,
        linking(tracks, dist, peaks, k).used.len() == peaks,
        are_tracks(linking(tracks, dist, peaks, k).tracks),
        forall|j: int|
            k <= j < tracks.len() ==> #[trigger] linking(tracks, dist, peaks, k).tracks[j]
                == tracks[j],
    decreases k,
{
    if k > 0 {
        linking_keeps_shape(tracks, dist, peaks, k - 1);
        let l = linking(tracks, dist, peaks, k - 1);
        let t = tracks[k - 1];
        if t.alive {
            nearest_is_nearest(dist[k - 1], l.used, peaks);
            assert(l.tracks[k - 1] == t);
        }
    }
}

/// Finds the nearest free tone within reach.
fn find_nearest(row: &Vec<u32>, used: &Vec<bool>, peaks: usize) -> (r: Option<usize>)
    requires
        row@.len() == peaks,
        used@.len() == peaks,
    ensures
        match r {
            Some(i) => i < peaks && nearest(row@, used@, peaks as int) == Some(i as int),
            None => nearest(row@, used@, peaks as int) is None,
        },
{
    let mut best: Option<usize> = None;
    let mut limit: u32 = TRACK_MAX_JUMP_HZ;
    let mut i: usize = 0;
    while i < peaks
        invariant
            i <= peaks,
            row@.len() == peaks,
            used@.len() == peaks,
            match best {
                Some(b) => b < i && nearest(row@, used@, i as int) == Some(b as int) && limit
                    == row@[b as int],
                None => nearest(row@, used@, i as int) is None && limit == TRACK_MAX_JUMP_HZ,
            },
        decreases peaks - i,
    {
        if !used[i] && less(row[i], limit) {
            best = Some(i);
            limit = row[i];
        }
        i = i + 1;
    }
    best
}

/// Finds the first dead track.
fn find_dead(tracks: &Vec<Track>) -> (r: Option<usize>)
    ensures
        match r {
            Some(i) => i < tracks@.len() && first_dead(tracks@, 0) == Some(i as int),
            None => first_dead(tracks@, 0) is None,
        },
{
    let mut i: usize = 0;
    while i < tracks.len()
        invariant
            i <= tracks@.len(),
            first_dead(tracks@, 0) == first_dead(tracks@, i as int),
        decreases tracks@.len() - i,
    {
        if !tracks[i].alive {
            return Some(i);
        }
        i = i + 1;
    }
    None
}

/// Takes a frame with `peaks` tones in. Each track that is alive goes on with the
/// nearest tone that no track before it took, or misses the frame. A tone that none
/// took begins a track. Gives what became of each track.
pub fn process_frame(tracks: &mut Vec<Track>, dist: &Vec<Vec<u32>>, peaks: usize) -> (fates: Vec<
    Fate,
>)
    requires
        are_tracks(old(tracks)@),
        peaks <= MAX_PEAKS,
        dist@.len() == old(tracks)@.len(),
        forall|k: int| 0 <= k < dist@.len() ==> (#[trigger] dist@[k])@.len() == peaks,
    ensures
        final(tracks)@ == frame_of(old(tracks)@, rows(dist@), peaks as int).tracks,
        fates@ == frame_of(old(tracks)@, rows(dist@), peaks as int).fates,
        are_tracks(final(tracks)@),
        fates@.len() == final(tracks)@.len(),
{
    let ghost start = tracks@;
    let ghost d = rows(dist@);
    let mut fates: Vec<Fate> = Vec::new();
    let mut used: Vec<bool> = Vec::new();
    let mut i: usize = 0;
    while i < peaks
        invariant
            i <= peaks,
            used@.len() == i,
            forall|j: int| 0 <= j < i ==> !#[trigger] used@[j],
        decreases peaks - i,
    {
        used.push(false);
        i = i + 1;
    }
    assert(used@ =~= Seq::new(peaks as nat, |j: int| false));
    let n: usize = tracks.len();
    let mut k: usize = 0;
    while k < n
        invariant
            k <= n,
            n == start.len(),
            n == tracks@.len(),
            n == dist@.len(),
            are_tracks(start),
            d == rows(dist@),
            forall|j: int| 0 <= j < dist@.len() ==> (#[trigger] dist@[j])@.len() == peaks,
            used@.len() == peaks,
            tracks@ == linking(start, d, peaks as int, k as int).tracks,
            fates@ == linking(start, d, peaks as int, k as int).fates,
            used@ == linking(start, d, peaks as int, k as int).used,
        decreases n - k,
    {
        proof {
            linking_keeps_shape(start, d, peaks as int, k as int);
            assert(linking(start, d, peaks as int, k as int).tracks[k as int] == start[k as int]);
            assert(d[k as int] == dist@[k as int]@);
        }
        let t: Track = tracks[k];
        if !t.alive {
            fates.push(Fate::Idle);
        } else {
            match find_nearest(&dist[k], &used, peaks) {
                Some(p) => {
                    tracks.set(
                        k,
                        Track {
                            alive: t.alive,
                            missed: 0,
                            frames_alive: t.frames_alive.saturating_add(1),
                        },
                    );
                    fates.push(Fate::Linked(p));
                    used.set(p, true);
                },
                None => {
                    tracks.set(
                        k,
                        Track {
                            alive: t.missed + 1 < TRACK_MAX_MISSED,
                            missed: t.missed + 1,
                            frames_alive: t.frames_alive,
                        },
                    );
                    fates.push(Fate::Missed);
                },
            }
        }
        k = k + 1;
    }
    let ghost l = linking(start, d, peaks as int, n as int);
    proof {
        linking_keeps_shape(start, d, peaks as int, n as int);
    }
    let mut p: usize = 0;
    while p < peaks
        invariant
            p <= peaks,
            used@ == l.used,
            used@.len() == peaks,
            births(l, p as int).used == l.used,
            tracks@ == births(l, p as int).tracks,
            fates@ == births(l, p as int).fates,
            fates@.len() == tracks@.len(),
            are_tracks(tracks@),
        decreases peaks - p,
    {
        if !used[p] {
            if tracks.len() < MAX_TRACKS {
                tracks.push(Track { alive: true, missed: 0, frames_alive: 1 });
                fates.push(Fate::Born(p));
            } else {
                match find_dead(tracks) {
                    Some(dead) => {
                        tracks.set(dead, Track { alive: true, missed: 0, frames_alive: 1 });
                        fates.set(dead, Fate::Born(p));
                    },
                    None => {},
                }
            }
        }
        p = p + 1;
    }
    fates
}

/// The tone of a track in a frame.
pub open spec fn tone_of(f: Fate) -> Option<usize> {
    match f {
        Fate::Linked(i) => Some(i),
        Fate::Born(i) => Some(i),
        _ => None,
    }
}

/// Whether no two tracks have the same tone, each is one of the tones, and those that
/// tracks go on with are taken; `n` tones have begun tracks so far.
pub open spec fn shares_no_tone(l: Linking, n: int) -> bool {
    &&& forall|a: int, b: int|
        0 <= a < b < l.fates.len() && tone_of(#[trigger] l.fates[a]) is Some ==> tone_of(
            l.fates[a],
        ) != tone_of(#[trigger] l.fates[b])
    &&& forall|a: int|
        0 <= a < l.fates.len() ==> match #[trigger] l.fates[a] {
            Fate::Linked(i) => i < l.used.len() && l.used[i as int],
            Fate::Born(i) => i < n && !l.used[i as int],
            _ => true,
        }
}

proof fn linking_shares_no_tone(tracks: Seq<Track>, dist: Seq<Seq<u32>>, peaks: int, k: int)
    requires
        0 <= k <= tracks.len(),
        0 <= peaks <= MAX_PEAKS,
        are_tracks(tracks),
    ensures
        shares_no_tone(linking(tracks, dist, peaks, k), 0),
    decreases k,
{
    if k > 0 {
        let l = linking(tracks, dist, peaks, k - 1);
        linking_shares_no_tone(tracks, dist, peaks, k - 1);
        linking_keeps_shape(tracks, dist, peaks, k - 1);
        nearest_is_nearest(dist[k - 1], l.used, peaks);
    }
}

proof fn births_share_no_tone(l: Linking, n: int)
    requires
        0 <= n <= l.used.len() <= MAX_PEAKS,
        l.fates.len() == l.tracks.len(),
        shares_no_tone(l, 0),
    ensures
        shares_no_tone(births(l, n), n),
        births(l, n).used == l.used,
        births(l, n).fates.len() == births(l, n).tracks.len(),
    decreases n,
{
    if n > 0 {
        births_share_no_tone(l, n - 1);
        let b = births(l, n - 1);
        first_dead_is_there(b.tracks, 0);
    }
}

proof fn first_dead_is_there(tracks: Seq<Track>, i: int)
    requires
        0 <= i <= tracks.len(),
    ensures
        first_dead(tracks, i) matches Some(d) ==> i <= d < tracks.len() && !tracks[d].alive,
    decreases tracks.len() - i,
{
    if i < tracks.len() {
        first_dead_is_there(tracks, i + 1);
    }
}

/// No tone of a frame belongs to two tracks, whether they go on with it or begin with
/// it.
pub proof fn tones_belong_to_one_track(
    tracks: Seq<Track>,
    dist: Seq<Seq<u32>>,
    peaks: int,
    a: int,
    b: int,
)
    requires
        are_tracks(tracks),
        0 <= peaks <= MAX_PEAKS,
        0 <= a < b < frame_of(tracks, dist, peaks).fates.len(),
        tone_of(frame_of(tracks, dist, peaks).fates[a]) is Some,
    ensures
        tone_of(frame_of(tracks, dist, peaks).fates[a]) != tone_of(
            frame_of(tracks, dist, peaks).fates[b],
        ),
{
    let n = tracks.len() as int;
    linking_keeps_shape(tracks, dist, peaks, n);
    linking_shares_no_tone(tracks, dist, peaks, n);
    births_share_no_tone(linking(tracks, dist, peaks, n), peaks);
}

/// A track outlives seven frames without a tone, and dies with the eighth; a tone
/// in between starts the count anew.
pub proof fn tracks_outlive_short_gaps(t: Track)
    requires
        t.alive,
        t.missed < TRACK_MAX_MISSED,
    ensures
        unlinked(t).alive <==> t.missed < 7,
        unlinked(t).missed == t.missed + 1,
        linked(t).alive,
        linked(t).missed == 0,
{
}

/// Whether a track counts in the statistics of a frame.
pub open spec fn is_counted(t: Track) -> bool {
    t.alive && t.frames_alive >= 3
}

/// Whether a track counts in the statistics of a frame.
pub fn counts(t: &Track) -> (r: bool)
    ensures
        r == is_counted(*t),
{
    t.alive && t.frames_alive >= 3
}

/// Whether a track ramps: it is older than eight frames, and its tone moves.
pub open spec fn ramps(t: Track, slope: u32) -> bool {
    t.frames_alive > 8 && crate::single::below(MOVING_SLOPE, crate::single::absolute(slope))
}

/// Whether a track ramps.
pub fn is_moving(t: &Track, slope: u32) -> (r: bool)
    ensures
        r == ramps(*t, slope),
{
    t.frames_alive > 8 && less(MOVING_SLOPE, abs(slope))
}

/// Whether a track stands.
pub open spec fn stands(t: Track, slope: u32) -> bool {
    t.frames_alive > 12 && crate::single::below(crate::single::absolute(slope), STATIONARY_SLOPE)
}

/// Whether a track stands: it is older than twelve frames, and its tone hardly moves.
pub fn is_stationary(t: &Track, slope: u32) -> (r: bool)
    ensures
        r == stands(*t, slope),
{
    t.frames_alive > 12 && less(abs(slope), STATIONARY_SLOPE)
}

/// How many of the first `n` tracks count and ramp.
pub open spec fn ramping(tracks: Seq<Track>, slopes: Seq<u32>, n: int) -> int
    decreases n,
{
    if n <= 0 {
        0
    } else {
        ramping(tracks, slopes, n - 1) + if is_counted(tracks[n - 1]) && ramps(
            tracks[n - 1],
            slopes[n - 1],
        ) {
            1int
        } else {
            0
        }
    }
}

/// Of the first `n` tracks that count, the loudest; the first of these where several
/// are. None where all are silent.
pub open spec fn loudest_of(tracks: Seq<Track>, mags: Seq<u32>, n: int) -> Option<int>
    decreases n,
{
    if n <= 0 {
        None
    } else {
        let before = loudest_of(tracks, mags, n - 1);
        let level = match before {
            Some(b) => mags[b],
            None => ZERO,
        };
        if is_counted(tracks[n - 1]) && crate::single::below(level, mags[n - 1]) {
            Some(n - 1)
        } else {
            before
        }
    }
}

proof fn ramping_is_bounded(tracks: Seq<Track>, slopes: Seq<u32>, n: int)
    requires
        0 <= n,
    ensures
        0 <= ramping(tracks, slopes, n) <= n,
    decreases n,
{
    if n > 0 {
        ramping_is_bounded(tracks, slopes, n - 1);
    }
}

/// The statistics of a frame: how many tracks ramp, and which is the loudest.
pub fn frame_stats(tracks: &Vec<Track>, slopes: &[u32], mags: &[u32]) -> (r: (u8, Option<usize>))
    requires
        tracks@.len() <= MAX_TRACKS,
        slopes@.len() == tracks@.len(),
        mags@.len() == tracks@.len(),
    ensures
        r.0 == ramping(tracks@, slopes@, tracks@.len() as int),
        match r.1 {
            Some(i) => i < tracks@.len() && loudest_of(tracks@, mags@, tracks@.len() as int) == Some(
                i as int,
            ),
            None => loudest_of(tracks@, mags@, tracks@.len() as int) is None,
        },
{
    let n: usize = tracks.len();
    let mut moving: u8 = 0;
    let mut best: Option<usize> = None;
    let mut level: u32 = ZERO;
    let mut i: usize = 0;
    while i < n
        invariant
            i <= n <= MAX_TRACKS,
            n == tracks@.len(),
            n == slopes@.len(),
            n == mags@.len(),
            moving == ramping(tracks@, slopes@, i as int),
            match best {
                Some(b) => b < i && loudest_of(tracks@, mags@, i as int) == Some(b as int) && level
                    == mags@[b as int],
                None => loudest_of(tracks@, mags@, i as int) is None && level == ZERO,
            },
        decreases n - i,
    {
        proof {
            ramping_is_bounded(tracks@, slopes@, i as int);
        }
        if counts(&tracks[i]) {
            if is_moving(&tracks[i], slopes[i]) {
                moving = moving + 1;
            }
            if less(level, mags[i]) {
                best = Some(i);
                level = mags[i];
            }
        }
        i = i + 1;
    }
    (moving, best)
}

/// Whether a frequency is high enough for a fundamental.
pub open spec fn is_high_enough(freq: u32) -> bool {
    !crate::single::below(freq, LOWEST_FUNDAMENTAL)
}

/// Whether a frequency can be the fundamental of a series.
pub fn can_be_fundamental(freq: u32) -> (r: bool)
    ensures
        r == is_high_enough(freq),
{
    !less(freq, LOWEST_FUNDAMENTAL)
}

/// How many of the first `n` tones are free overtones of tone `i`.
pub open spec fn free_overtones(row: Seq<bool>, used: Seq<bool>, i: int, n: int) -> int
    decreases n,
{
    if n <= 0 {
        0
    } else {
        free_overtones(row, used, i, n - 1) + if n - 1 > i && !used[n - 1] && row[n - 1] {
            1int
        } else {
            0
        }
    }
}

/// The tones that are taken once the overtones of tone `i` are.
pub open spec fn with_overtones(row: Seq<bool>, used: Seq<bool>, i: int) -> Seq<bool> {
    Seq::new(used.len(), |j: int| used[j] || (j > i && row[j]))
}

/// The series among the tones, and which tones are taken.
pub struct Grouping {
    pub groups: Seq<(usize, u8)>,
    pub used: Seq<bool>,
}

/// After the first `k` tones were tried as fundamentals: each that is free and high
/// enough takes its free overtones, and makes a series where it has any.
/// `overtone[i][j]` says whether tone `j` is a multiple of tone `i`.
pub open spec fn grouping(useful: Seq<bool>, overtone: Seq<Seq<bool>>, k: int) -> Grouping
    decreases k,
{
    if k <= 0 {
        Grouping { groups: Seq::empty(), used: Seq::new(useful.len(), |j: int| false) }
    } else {
        let g = grouping(useful, overtone, k - 1);
        let i = k - 1;
        let n = useful.len() as int;
        let more = free_overtones(overtone[i], g.used, i, n);
        if g.used[i] || !useful[i] || more == 0 {
            g
        } else {
            Grouping {
                groups: g.groups.push((i as usize, (1 + more) as u8)),
                used: with_overtones(overtone[i], g.used, i).update(i, true),
            }
        }
    }
}

/// The overtones, as sequences.
pub open spec fn overtone_rows(overtone: Seq<Vec<bool>>) -> Seq<Seq<bool>> {
    overtone.map_values(|r: Vec<bool>| r@)
}

proof fn overtones_are_bounded(row: Seq<bool>, used: Seq<bool>, i: int, n: int)
    requires
        0 <= n,
        0 <= i,
    ensures
        0 <= free_overtones(row, used, i, n) <= n,
        n <= i + 1 ==> free_overtones(row, used, i, n) == 0,
        n > i ==> free_overtones(row, used, i, n) <= n - i - 1,
    decreases n,
{
    if n > 0 {
        overtones_are_bounded(row, used, i, n - 1);
    }
}

proof fn no_overtones_take_nothing(row: Seq<bool>, used: Seq<bool>, i: int, n: int, j: int)
    requires
        0 <= j < n,
        0 <= i,
        free_overtones(row, used, i, n) == 0,
    ensures
        !(j > i && !used[j] && row[j]),
    decreases n,
{
    overtones_are_bounded(row, used, i, n - 1);
    if j < n - 1 {
        no_overtones_take_nothing(row, used, i, n - 1, j);
    }
}

/// Finds the series among the tones: the index of the fundamental, and how many
/// tones it has.
pub fn find_harmonic_groups(useful: &[bool], overtone: &Vec<Vec<bool>>) -> (out: Vec<(usize, u8)>)
    requires
        useful@.len() <= 255,
        overtone@.len() == useful@.len(),
        forall|i: int|
            0 <= i < overtone@.len() ==> (#[trigger] overtone@[i])@.len() == useful@.len(),
    ensures
        out@ == grouping(useful@, overtone_rows(overtone@), useful@.len() as int).groups,
{
    let n: usize = useful.len();
    let ghost rows = overtone_rows(overtone@);
    let mut out: Vec<(usize, u8)> = Vec::new();
    let mut used: Vec<bool> = Vec::new();
    let mut i: usize = 0;
    while i < n
        invariant
            i <= n,
            used@.len() == i,
            forall|j: int| 0 <= j < i ==> !#[trigger] used@[j],
        decreases n - i,
    {
        used.push(false);
        i = i + 1;
    }
    assert(used@ =~= Seq::new(useful@.len(), |j: int| false));
    let mut k: usize = 0;
    while k < n
        invariant
            k <= n <= 255,
            n == useful@.len(),
            n == overtone@.len(),
            rows == overtone_rows(overtone@),
            forall|j: int| 0 <= j < overtone@.len() ==> (#[trigger] overtone@[j])@.len() == n,
            used@.len() == n,
            used@ == grouping(useful@, rows, k as int).used,
            out@ == grouping(useful@, rows, k as int).groups,
        decreases n - k,
    {
        let ghost before = used@;
        if !used[k] && useful[k] {
            let ghost row = rows[k as int];
            assert(row == overtone@[k as int]@);
            let mut count: u8 = 1;
            let mut j: usize = 0;
            while j < n
                invariant
                    j <= n <= 255,
                    k < n,
                    n == overtone@.len(),
                    row == overtone@[k as int]@,
                    row.len() == n,
                    before.len() == n,
                    used@.len() == n,
                    !before[k as int],
                    count == 1 + free_overtones(row, before, k as int, j as int),
                    forall|m: int|
                        0 <= m < j ==> #[trigger] used@[m] == (before[m] || (m > k && row[m])),
                    forall|m: int| j <= m < n ==> #[trigger] used@[m] == before[m],
                decreases n - j,
            {
                proof {
                    overtones_are_bounded(row, before, k as int, j as int);
                }
                if j > k && !used[j] && overtone[k][j] {
                    count = count + 1;
                    used.set(j, true);
                }
                j = j + 1;
            }
            proof {
                overtones_are_bounded(row, before, k as int, n as int);
            }
            if count >= 2 {
                used.set(k, true);
                out.push((k, count));
                assert(used@ =~= with_overtones(row, before, k as int).update(k as int, true));
            } else {
                assert(used@ =~= before) by {
                    assert forall|m: int| 0 <= m < n implies used@[m] == before[m] by {
                        no_overtones_take_nothing(row, before, k as int, n as int, m);
                    }
                }
            }
        }
        k = k + 1;
    }
    out
}

/// The lags at which a pitch is confirmed: two samples around the one that fits it,
/// as far as they lie in the first half of the frame. None where that one does not.
pub open spec fn lags_around(center: int, len: int) -> Seq<usize> {
    let half = len / 2;
    if center < 2 || center >= half {
        Seq::empty()
    } else {
        let last = if center + 2 < half {
            center + 2
        } else {
            half - 1
        };
        Seq::new((last - (center - 2) + 1) as nat, |k: int| (center - 2 + k) as usize)
    }
}

/// The lags at which a pitch is confirmed.
pub fn lags(center: usize, len: usize) -> (out: Vec<usize>)
    ensures
        out@ == lags_around(center as int, len as int),
{
    let mut out: Vec<usize> = Vec::new();
    let half: usize = len / 2;
    if center < 2 || center >= half {
        return out;
    }
    let mut lag: usize = center - 2;
    while lag < half && lag <= center + 2
        invariant
            2 <= center < half,
            half <= len,
            half == len / 2,
            center - 2 <= lag <= center + 3,
            lag <= half,
            out@.len() == lag - (center - 2),
            forall|k: int| 0 <= k < out@.len() ==> #[trigger] out@[k] == center - 2 + k,
        decreases center + 3 - lag,
    {
        out.push(lag);
        lag = lag + 1;
    }
    assert(out@ =~= lags_around(center as int, len as int));
    out
}

/// 2 to the power of `n`.
pub open spec fn two_to(n: nat) -> nat
    decreases n,
{
    if n == 0 {
        1
    } else {
        2 * two_to((n - 1) as nat)
    }
}

/// The lowest `bits` bits of `x` in reverse.
pub open spec fn reversed(x: nat, bits: nat) -> nat
    decreases bits,
{
    if bits == 0 {
        0
    } else {
        (x % 2) * two_to((bits - 1) as nat) + reversed(x / 2, (bits - 1) as nat)
    }
}

proof fn reversed_is_in_range(x: nat, bits: nat)
    ensures
        reversed(x, bits) < two_to(bits),
    decreases bits,
{
    if bits > 0 {
        reversed_is_in_range(x / 2, (bits - 1) as nat);
        let half = two_to((bits - 1) as nat);
        assert((x % 2) * half <= half) by (nonlinear_arith)
            requires
                x % 2 <= 1,
        ;
    }
}

/// The highest bit becomes the lowest.
pub proof fn reversing_from_the_top(d: nat, y: nat, bits: nat)
    requires
        d <= 1,
        y < two_to(bits),
    ensures
        reversed(d * two_to(bits) + y, bits + 1) == 2 * reversed(y, bits) + d,
    decreases bits,
{
    let x = d * two_to(bits) + y;
    if bits == 0 {
        assert(d * two_to(bits) == d) by (nonlinear_arith)
            requires
                two_to(bits) == 1,
        ;
        assert(reversed(x / 2, 0) == 0);
        assert((x % 2) * two_to(0) == d) by (nonlinear_arith)
            requires
                x % 2 == d,
                two_to(0) == 1,
        ;
    } else {
        let b = (bits - 1) as nat;
        let half = two_to(b);
        let e = y % 2;
        assert(d * two_to(bits) == 2 * (d * half)) by (nonlinear_arith)
            requires
                two_to(bits) == 2 * half,
        ;
        assert(x % 2 == e);
        assert(x / 2 == d * half + y / 2);
        reversing_from_the_top(d, y / 2, b);
        assert(reversed(x, bits + 1) == e * two_to(bits) + reversed(x / 2, bits));
        assert(reversed(y, bits) == e * half + reversed(y / 2, b));
        assert(e * two_to(bits) == 2 * (e * half)) by (nonlinear_arith)
            requires
                two_to(bits) == 2 * half,
        ;
    }
}

/// Reversing the bits twice gives the number back: the permutation of the transform
/// is a set of swaps.
pub proof fn reversing_twice_is_nothing(x: nat, bits: nat)
    requires
        x < two_to(bits),
    ensures
        reversed(x, bits) < two_to(bits),
        reversed(reversed(x, bits), bits) == x,
    decreases bits,
{
    reversed_is_in_range(x, bits);
    if bits > 0 {
        let b = (bits - 1) as nat;
        reversing_twice_is_nothing(x / 2, b);
        reversed_is_in_range(x / 2, b);
        reversing_from_the_top(x % 2, reversed(x / 2, b), b);
    }
}

proof fn two_to_32()
    ensures
        two_to(32) == 0x1_0000_0000,
{
    reveal_with_fuel(two_to, 33);
}

proof fn two_to_grows(a: nat, b: nat)
    requires
        a <= b,
    ensures
        two_to(a) <= two_to(b),
    decreases b,
{
    if a < b {
        two_to_grows(a, (b - 1) as nat);
    }
}

/// The lowest `bits` bits of `x` in reverse.
pub fn bit_reverse(x: usize, bits: u32) -> (r: usize)
    requires
        bits <= 32,
    ensures
        r == reversed(x as nat, bits as nat),
{
    let mut r: usize = 0;
    let mut rest: usize = x;
    let mut i: u32 = 0;
    assert(0 * two_to(bits as nat) == 0) by (nonlinear_arith);
    while i < bits
        invariant
            i <= bits <= 32,
            r < two_to(i as nat),
            reversed(x as nat, bits as nat) == r * two_to((bits - i) as nat) + reversed(
                rest as nat,
                (bits - i) as nat,
            ),
        decreases bits - i,
    {
        proof {
            two_to_grows((i + 1) as nat, 32);
            two_to_32();
            let low = (rest % 2) as nat;
            let p = two_to((bits - i - 1) as nat);
            assert((2 * r + low) * p == r * (2 * p) + low * p) by (nonlinear_arith);
        }
        r = 2 * r + rest % 2;
        rest = rest / 2;
        i = i + 1;
    }
    proof {
        assert(r * two_to(0) == r) by (nonlinear_arith)
            requires
                two_to(0) == 1,
        ;
    }
    r
}

/// The lowest bit becomes the highest, and the rest is reversed below it.
pub proof fn the_lowest_bit_becomes_the_highest(d: nat, y: nat, bits: nat)
    requires
        d <= 1,
    ensures
        reversed(2 * y + d, bits + 1) == d * two_to(bits) + reversed(y, bits),
        reversed(y, 0) == 0,
        two_to(bits + 1) == 2 * two_to(bits),
{
    assert((2 * y + d) % 2 == d && (2 * y + d) / 2 == y);
}

/// When a track counts, ramps and stands: from its third frame on while it is alive, after
/// eight frames with a slope beyond 2 Hz, and after twelve with one below 0.4 Hz. The
/// direction makes no difference, and no track does both.
pub proof fn tracks_ramp_or_stand(t: Track, slope: u32)
    requires
        slope < crate::single::SIGN,
        crate::single::is_number(slope),
    ensures
        is_counted(t) <==> t.alive && t.frames_alive >= 3,
        ramps(t, slope) <==> t.frames_alive >= 9 && crate::single::place(slope)
            > crate::single::place(MOVING_SLOPE),
        stands(t, slope) <==> t.frames_alive >= 13 && crate::single::place(slope)
            < crate::single::place(STATIONARY_SLOPE),
        ramps(t, (slope + crate::single::SIGN) as u32) == ramps(t, slope),
        stands(t, (slope + crate::single::SIGN) as u32) == stands(t, slope),
        !(ramps(t, slope) && stands(t, slope)),
{
}

/// A track begins with its first frame, and each frame with a tone adds one; a gap adds none.
pub proof fn tracks_grow_frame_by_frame(t: Track)
    requires
        t.alive,
        t.missed < 8,
    ensures
        born().alive && born().frames_alive == 1 && born().missed == 0,
        t.frames_alive < u16::MAX ==> linked(t).frames_alive == t.frames_alive + 1,
        t.frames_alive == u16::MAX ==> linked(t).frames_alive == u16::MAX,
        unlinked(t).frames_alive == t.frames_alive,
        unlinked(t).alive <==> t.missed + 1 < 8,
{
}

/// What a frame does to a track in its turn: a dead one stays as it is, one with a free tone
/// within 400 Hz goes on with the nearest, and one without misses the frame. The tone is then
/// taken.
pub proof fn tracks_take_the_nearest_tone(
    tracks: Seq<Track>,
    dist: Seq<Seq<u32>>,
    peaks: int,
    k: int,
    i: int,
)
    requires
        are_tracks(tracks),
        0 <= k < tracks.len(),
        0 <= i < peaks <= MAX_PEAKS,
    ensures
        ({
            let before = linking(tracks, dist, peaks, k);
            let after = linking(tracks, dist, peaks, k + 1);
            let free = !before.used[i] && crate::single::below(dist[k][i], TRACK_MAX_JUMP_HZ);
            &&& after.fates.last() is Idle <==> !tracks[k].alive
            &&& !tracks[k].alive ==> after.tracks == before.tracks && after.used == before.used
            &&& tracks[k].alive && free ==> (after.fates.last() matches Fate::Linked(j) && {
                &&& j < peaks && !before.used[j as int] && after.used[j as int]
                &&& crate::single::below(dist[k][j as int], TRACK_MAX_JUMP_HZ)
                &&& !crate::single::below(dist[k][i], dist[k][j as int])
                &&& after.tracks[k].missed == 0 && after.tracks[k].alive
            })
            &&& after.fates.last() is Missed ==> !free && after.used == before.used
                && after.tracks[k].missed == tracks[k].missed + 1
            &&& before.used[i] ==> after.used[i]
        }),
{
    let before = linking(tracks, dist, peaks, k);
    linking_keeps_shape(tracks, dist, peaks, k);
    nearest_is_nearest(dist[k], before.used, peaks);
    assert(in_reach(dist[k], before.used, i) == (!before.used[i] && crate::single::below(
        dist[k][i],
        TRACK_MAX_JUMP_HZ,
    )));
    assert(before.tracks[k] == tracks[k]);
}

/// A tone that no track took begins one of its own: in a new place while there is room, else
/// in that of a dead track, and not at all where all sixteen are alive. No track that is
/// alive gives way.
pub proof fn free_tones_begin_tracks(l: Linking, n: int, j: int)
    requires
        0 <= n < l.used.len() <= MAX_PEAKS,
        l.fates.len() == l.tracks.len(),
        shares_no_tone(l, 0),
    ensures
        ({
            let before = births(l, n);
            let after = births(l, n + 1);
            &&& l.used[n] ==> after == before
            &&& !l.used[n] && before.tracks.len() < 16 ==> after.tracks == before.tracks.push(born())
                && after.fates == before.fates.push(Fate::Born(n as usize))
            &&& !l.used[n] && before.tracks.len() >= 16 && 0 <= j < before.tracks.len()
                && !before.tracks[j].alive ==> after.fates.contains(Fate::Born(n as usize))
            &&& 0 <= j < before.tracks.len() && before.tracks[j].alive ==> after.tracks[j]
                == before.tracks[j]
        }),
{
    births_share_no_tone(l, n);
    let before = births(l, n);
    first_dead_is_there(before.tracks, 0);
    if 0 <= j < before.tracks.len() && !before.tracks[j].alive {
        a_dead_track_is_found(before.tracks, 0, j);
        if !l.used[n] && before.tracks.len() >= 16 {
            let d = first_dead(before.tracks, 0)->0;
            assert(births(l, n + 1).fates[d] == Fate::Born(n as usize));
        }
    }
}

proof fn a_dead_track_is_found(tracks: Seq<Track>, i: int, j: int)
    requires
        0 <= i <= j < tracks.len(),
        !tracks[j].alive,
    ensures
        first_dead(tracks, i) is Some,
    decreases tracks.len() - i,
{
    if tracks[i].alive {
        a_dead_track_is_found(tracks, i + 1, j);
    }
}

/// The loudest track is one that counts and is not silent, and none that counts is louder.
pub proof fn the_loudest_track_is_loudest(tracks: Seq<Track>, mags: Seq<u32>, n: int, i: int)
    requires
        0 <= i < n <= tracks.len(),
        mags.len() == tracks.len(),
    ensures
        match loudest_of(tracks, mags, n) {
            Some(b) => {
                &&& 0 <= b < n
                &&& tracks[b].alive && tracks[b].frames_alive >= 3
                &&& crate::single::below(ZERO, mags[b])
                &&& is_counted(tracks[i]) ==> !crate::single::below(mags[b], mags[i])
            },
            None => is_counted(tracks[i]) ==> !crate::single::below(ZERO, mags[i]),
        },
    decreases n,
{
    assert(loudest_of(tracks, mags, 0) is None);
    if n > 1 {
        the_loudest_track_is_loudest(
            tracks,
            mags,
            n - 1,
            if i < n - 1 {
                i
            } else {
                0
            },
        );
    }
}

/// How many tracks ramp: each that counts and ramps adds one, and no other does.
pub proof fn each_ramping_track_counts_once(tracks: Seq<Track>, slopes: Seq<u32>, n: int)
    requires
        0 <= n,
    ensures
        0 <= ramping(tracks, slopes, n) <= n,
        ramping(tracks, slopes, n + 1) == ramping(tracks, slopes, n) + if tracks[n].alive && ramps(
            tracks[n],
            slopes[n],
        ) {
            1int
        } else {
            0
        },
{
    ramping_is_bounded(tracks, slopes, n);
}

/// The series that were found: each has a useful fundamental that no series before it took,
/// and at least one overtone above it; a tone belongs to one series at most, as fundamentals
/// and overtones are taken with it.
pub proof fn series_have_overtones(useful: Seq<bool>, overtone: Seq<Seq<bool>>, k: int, i: int)
    requires
        0 <= k <= useful.len() <= 255,
        0 <= i < grouping(useful, overtone, k).groups.len(),
    ensures
        ({
            let g = grouping(useful, overtone, k);
            &&& g.groups[i].0 < k && useful[g.groups[i].0 as int]
            &&& 2 <= g.groups[i].1 <= useful.len()
            &&& g.used[g.groups[i].0 as int]
            &&& forall|j: int|
                0 <= j < useful.len() && j > g.groups[i].0 && overtone[g.groups[i].0 as int][j]
                    ==> #[trigger] g.used[j]
            &&& i > 0 ==> g.groups[i - 1].0 < g.groups[i].0
        }),
    decreases k,
{
    assert(grouping(useful, overtone, 0).groups.len() == 0);
    let before = grouping(useful, overtone, k - 1);
    grouping_keeps_shape(useful, overtone, k - 1);
    overtones_are_bounded(overtone[k - 1], before.used, k - 1, useful.len() as int);
    if i < before.groups.len() {
        series_have_overtones(useful, overtone, k - 1, i);
    } else if i > 0 {
        series_have_overtones(useful, overtone, k - 1, i - 1);
    }
}

proof fn grouping_keeps_shape(useful: Seq<bool>, overtone: Seq<Seq<bool>>, k: int)
    requires
        0 <= k <= useful.len(),
    ensures
        grouping(useful, overtone, k).used.len() == useful.len(),
        grouping(useful, overtone, k).groups.len() <= k,
    decreases k,
{
    if k > 0 {
        grouping_keeps_shape(useful, overtone, k - 1);
    }
}

/// A pitch is confirmed at the lag that fits it and at most two samples around it, all in the
/// first half of the frame.
pub proof fn pitches_are_confirmed_nearby(center: int, len: int, k: int)
    requires
        0 <= center < 0x1000_0000,
        0 <= len < 0x1000_0000,
    ensures
        ({
            let lags = lags_around(center, len);
            &&& lags.len() <= 5
            &&& lags.len() == 0 <==> center < 2 || 2 * center + 2 > len
            &&& 0 <= k < lags.len() ==> center - 2 <= lags[k] <= center + 2 && 2 * lags[k] + 2
                <= len && lags[k] == center - 2 + k
            &&& 2 <= center && 2 * center + 2 <= len ==> lags.contains(center as usize)
        }),
{
    let lags = lags_around(center, len);
    if 2 <= center && 2 * center + 2 <= len {
        assert(lags[2] == center as usize);
    }
}

/// A fundamental is 50 Hz or more.
pub proof fn fundamentals_are_high_enough(freq: u32, higher: u32)
    requires
        crate::single::is_number(freq),
        crate::single::at_least(higher, freq),
    ensures
        is_high_enough(freq) <==> crate::single::place(freq) >= crate::single::place(
            LOWEST_FUNDAMENTAL,
        ),
        is_high_enough(freq) ==> is_high_enough(higher),
{
}

} // verus!
