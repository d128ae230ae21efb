//! The noise meter: windows of samples, the tones in them, and what of the
//! measured windows counts.
//!
//! Samples, magnitudes and powers are bit patterns of single-precision numbers
//! (see `single`). The transform and the sums are computed around this library.

use vstd::prelude::*;

use crate::single::{less, sort};

verus! {

/// The length of a frame, in samples.
pub const FFT_N: usize = 32768;

/// How far a frame is from the next, in samples.
pub const HOP: usize = 2048;

/// The band that is listened to, in Hz.
pub const BAND_LO_HZ: u32 = 300;

pub const BAND_HI_HZ: u32 = 14000;

/// How many tones of a frame are looked at.
pub const MAX_PEAKS: usize = 8;

/// How many tracks there are.
pub const MAX_TRACKS: usize = 16;

/// After so many frames without a tone a track is dead.
pub const TRACK_MAX_MISSED: u8 = 8;

/// The pattern of 400, the farthest a tone moves between frames, in Hz.
pub const TRACK_MAX_JUMP_HZ: u32 = 0x43C8_0000;

/// The pattern of 1e-12, the power from which a bin can hold a tone.
pub const PEAK_FLOOR: u32 = 0x2B8C_BCCC;

/// The pattern of 2, the slope in Hz per frame from which a tone moves.
pub const MOVING_SLOPE: u32 = 0x4000_0000;

/// The pattern of 0.4, the slope in Hz per frame below which a tone stands.
pub const STATIONARY_SLOPE: u32 = 0x3ECC_CCCD;

/// The pattern of 50, the lowest useful fundamental in Hz.
pub const LOWEST_FUNDAMENTAL: u32 = 0x4248_0000;

/// The samples that wait for a frame.
pub struct SampleBuffer {
    waiting: Vec<u32>,
}

impl SampleBuffer {
    /// The samples that wait for a frame.
    pub closed spec fn view(&self) -> Seq<u32> {
        self.waiting@
    }

    /// There is never a whole frame waiting.
    pub closed spec fn wf(&self) -> bool {
        self.waiting@.len() < FFT_N
    }

    /// No samples yet.
    pub fn new() -> (b: SampleBuffer)
        ensures
            b.wf(),
            b@.len() == 0,
    {
        SampleBuffer { waiting: Vec::new() }
    }

    /// Takes a sample in. Gives the frame that it completes; the part that the next
    /// frame shares goes on waiting.
    pub fn feed(&mut self, sample: u32) -> (frame: Option<Vec<u32>>)
        requires
            old(self).wf(),
        ensures
            final(self).wf(),
            frame is Some <==> old(self)@.len() + 1 == FFT_N,
            match frame {
                Some(f) => f@ == old(self)@.push(sample) && final(self)@ == f@.skip(HOP as int),
                None => final(self)@ == old(self)@.push(sample),
            },
    {
        self.waiting.push(sample);
        if self.waiting.len() < FFT_N {
            return None;
        }
        let mut rest: Vec<u32> = Vec::new();
        let mut i: usize = HOP;
        while i < FFT_N
            invariant
                HOP <= i <= FFT_N,
                self.waiting@.len() == FFT_N,
                self.waiting@ == old(self)@.push(sample),
                rest@ == self.waiting@.subrange(HOP as int, i as int),
            decreases FFT_N - i,
        {
            rest.push(self.waiting[i]);
            assert(self.waiting@.subrange(HOP as int, i + 1) =~= self.waiting@.subrange(
                HOP as int,
                i as int,
            ).push(self.waiting@[i as int]));
            i = i + 1;
        }
        let ghost whole = self.waiting@;
        assert(whole.subrange(HOP as int, FFT_N as int) =~= whole.skip(HOP as int));
        std::mem::swap(&mut self.waiting, &mut rest);
        Some(rest)
    }
}

/// Whether `part` is how `whole` ends.
pub open spec fn is_end_of(part: Seq<u32>, whole: Seq<u32>) -> bool {
    part.len() <= whole.len() && part == whole.skip(whole.len() - part.len())
}

/// What waits is always how the samples fed so far end, and so is a frame: if it
/// holds before a sample, it holds after it.
pub proof fn frames_are_the_latest_samples(
    waiting: Seq<u32>,
    history: Seq<u32>,
    sample: u32,
    frame: Seq<u32>,
)
    requires
        is_end_of(waiting, history),
        frame == waiting.push(sample),
        frame.len() >= HOP,
    ensures
        is_end_of(frame, history.push(sample)),
        is_end_of(frame.skip(HOP as int), history.push(sample)),
{
    let all = history.push(sample);
    assert(frame =~= all.skip(all.len() - frame.len()));
    assert(frame.skip(HOP as int) =~= all.skip(all.len() - (frame.len() - HOP)));
}

/// The lowest bin of the band at a sample rate.
pub open spec fn low_bin(rate: int) -> int {
    let bin = (BAND_LO_HZ * FFT_N + rate - 1) / rate;
    if bin < 1 {
        1
    } else {
        bin
    }
}

/// The highest bin of the band at a sample rate.
pub open spec fn high_bin(rate: int) -> int {
    let bin = (BAND_HI_HZ * FFT_N) / rate;
    if bin < FFT_N / 2 - 1 {
        bin
    } else {
        FFT_N / 2 - 1
    }
}

/// The band holds a bin at a sample rate.
pub open spec fn band_has_a_bin(rate: int) -> bool {
    rate > 0 && low_bin(rate) <= high_bin(rate)
}

/// Whether the band holds a bin at a sample rate.
pub fn has_band(sample_rate: u32) -> (r: bool)
    ensures
        r == band_has_a_bin(sample_rate as int),
{
    if sample_rate == 0 {
        return false;
    }
    let rate: u64 = sample_rate as u64;
    let low: u64 = (9_830_400 + rate - 1) / rate;
    let high: u64 = 458_752_000 / rate;
    low <= high && low <= 16383 && high >= 1
}

/// The bins of the band at a sample rate, the lowest and the highest.
pub fn band_bins(sample_rate: u32) -> (r: (usize, usize))
    requires
        band_has_a_bin(sample_rate as int),
    ensures
        r.0 == low_bin(sample_rate as int),
        r.1 == high_bin(sample_rate as int),
        1 <= r.0 <= r.1 < FFT_N / 2,
{
    let rate: u64 = sample_rate as u64;
    let lowest: u64 = 9_830_400;
    let highest: u64 = 458_752_000;
    let low: u64 = (lowest + rate - 1) / rate;
    let high: u64 = highest / rate;
    let high_in: u64 = if high < 16383 {
        high
    } else {
        16383
    };
    let low_in: u64 = if low < 1 {
        1
    } else {
        low
    };
    (low_in as usize, high_in as usize)
}

/// Whether bin `i` holds a tone: it is louder than both neighbours, and not silent.
pub open spec fn is_peak(mags: Seq<u32>, i: int) -> bool {
    &&& 1 <= i < mags.len() - 1
    &&& crate::single::below(mags[i - 1], mags[i])
    &&& crate::single::below(mags[i + 1], mags[i])
    &&& crate::single::below(PEAK_FLOOR, mags[i])
}

/// The bins before `n` that hold a tone, in order.
pub open spec fn peaks_before(mags: Seq<u32>, n: int) -> Seq<usize>
    decreases n,
{
    if n <= 0 {
        Seq::empty()
    } else if is_peak(mags, n - 1) {
        peaks_before(mags, n - 1).push((n - 1) as usize)
    } else {
        peaks_before(mags, n - 1)
    }
}

/// The bins that hold a tone, in order.
pub fn local_peaks(mags: &[u32]) -> (out: Vec<usize>)
    ensures
        out@ == peaks_before(mags@, mags@.len() as int),
        forall|i: int| is_peak(mags@, i) <==> out@.contains(i as usize) && 0 <= i < mags@.len(),
{
    let mut out: Vec<usize> = Vec::new();
    let n: usize = mags.len();
    let mut i: usize = 0;
    while i < n
        invariant
            i <= n,
            n == mags@.len(),
            out@ == peaks_before(mags@, i as int),
        decreases n - i,
    {
        if i >= 1 && i < n - 1 && less(mags[i - 1], mags[i]) && less(mags[i + 1], mags[i]) && less(
            PEAK_FLOOR,
            mags[i],
        ) {
            out.push(i);
        }
        i = i + 1;
    }
    proof {
        assert forall|i: int| is_peak(mags@, i) <==> out@.contains(i as usize) && 0 <= i
            < mags@.len() by {
            if 0 <= i < mags@.len() {
                peaks_are_listed(mags@, mags@.len() as int, i);
            }
        }
    }
    out
}

/// A bin is listed if and only if it holds a tone.
proof fn peaks_are_listed(mags: Seq<u32>, n: int, i: int)
    requires
        0 <= n <= mags.len() <= usize::MAX,
        0 <= i < mags.len(),
    ensures
        peaks_before(mags, n).contains(i as usize) <==> i < n && is_peak(mags, i),
    decreases n,
{
    if n > 0 {
        let before = peaks_before(mags, n - 1);
        peaks_are_listed(mags, n - 1, i);
        if is_peak(mags, n - 1) {
            let all = before.push((n - 1) as usize);
            if before.contains(i as usize) {
                let k = before.index_of(i as usize);
                assert(all[k] == i as usize);
            }
            if i == n - 1 {
                assert(all[all.len() - 1] == i as usize);
            }
            if all.contains(i as usize) && i != n - 1 {
                let k = all.index_of(i as usize);
                assert(before[k] == i as usize);
            }
        }
    }
}

/// `i` put into the ranking behind everything at its end that is not below it.
pub open spec fn ranked_in(r: Seq<usize>, mags: Seq<u32>, i: usize) -> Seq<usize>
    decreases r.len(),
{
    if r.len() == 0 || !crate::single::below(mags[r.last() as int], mags[i as int]) {
        r.push(i)
    } else {
        ranked_in(r.drop_last(), mags, i).push(r.last())
    }
}

/// The first `n`, the loudest first; equal ones stay in their order.
pub open spec fn ranking(mags: Seq<u32>, n: nat) -> Seq<usize>
    decreases n,
{
    if n == 0 {
        Seq::empty()
    } else {
        ranked_in(ranking(mags, (n - 1) as nat), mags, (n - 1) as usize)
    }
}

proof fn ranking_in_passes_over(r: Seq<usize>, mags: Seq<u32>, i: usize, at: int)
    requires
        0 <= at <= r.len(),
        forall|k: int|
            at <= k < r.len() ==> crate::single::below(
                mags[#[trigger] r[k] as int],
                mags[i as int],
            ),
        at > 0 ==> !crate::single::below(mags[r[at - 1] as int], mags[i as int]),
    ensures
        ranked_in(r, mags, i) == r.insert(at, i),
    decreases r.len(),
{
    if at < r.len() {
        let rest = r.drop_last();
        assert(crate::single::below(mags[r[r.len() - 1] as int], mags[i as int]));
        ranking_in_passes_over(rest, mags, i, at);
        assert(rest.insert(at, i).push(r.last()) =~= r.insert(at, i));
    } else {
        assert(r.push(i) =~= r.insert(at, i));
    }
}

/// The places in a ranking: each of the first `n` once.
pub open spec fn ranks_all(r: Seq<usize>, n: nat) -> bool {
    &&& r.len() == n
    &&& r.no_duplicates()
    &&& forall|k: int| 0 <= k < n ==> #[trigger] r[k] < n
}

/// A ranking of numbers has each once, the loudest first.
pub proof fn ranking_ranks(mags: Seq<u32>, n: nat)
    requires
        n <= mags.len(),
        n <= usize::MAX,
        crate::single::all_numbers(mags),
    ensures
        ranks_all(ranking(mags, n), n),
        forall|i: int, j: int|
            0 <= i < j < n ==> !crate::single::below(
                mags[#[trigger] ranking(mags, n)[i] as int],
                mags[#[trigger] ranking(mags, n)[j] as int],
            ),
    decreases n,
{
    if n > 0 {
        let before = ranking(mags, (n - 1) as nat);
        let i = (n - 1) as usize;
        ranking_ranks(mags, (n - 1) as nat);
        let at = place_in(before, mags, i);
        place_in_splits(before, mags, i);
        ranking_in_passes_over(before, mags, i, at);
        let all = before.insert(at, i);
        assert forall|a: int, b: int| 0 <= a < b < n implies !crate::single::below(
            mags[#[trigger] all[a] as int],
            mags[#[trigger] all[b] as int],
        ) by {
            let x = if a < at {
                a
            } else {
                a - 1
            };
            let y = if b < at {
                b
            } else {
                b - 1
            };
            if a != at {
                assert(all[a] == before[x]);
                assert(crate::single::is_number(mags[before[x] as int]));
            }
            if b != at {
                assert(all[b] == before[y]);
                assert(crate::single::is_number(mags[before[y] as int]));
            }
            assert(crate::single::is_number(mags[i as int]));
            if a == at {
                assert(crate::single::below(mags[before[y] as int], mags[i as int]));
            } else if b == at {
                assert(!crate::single::below(mags[before[at - 1] as int], mags[i as int]));
                assert(crate::single::is_number(mags[before[at - 1] as int]));
                if x < at - 1 {
                    assert(!crate::single::below(
                        mags[before[x] as int],
                        mags[before[at - 1] as int],
                    ));
                }
            }
        }
        assert forall|k: int| 0 <= k < n implies #[trigger] all[k] < n by {
            if k < at {
                assert(all[k] == before[k]);
            } else if k > at {
                assert(all[k] == before[k - 1]);
            }
        }
        assert forall|a: int, b: int| 0 <= a < n && 0 <= b < n && a != b implies all[a]
            != all[b] by {
            let x = if a < at {
                a
            } else {
                a - 1
            };
            let y = if b < at {
                b
            } else {
                b - 1
            };
            if a != at {
                assert(all[a] == before[x]);
            }
            if b != at {
                assert(all[b] == before[y]);
            }
        }
    }
}

/// Where `ranked_in` puts `i`.
spec fn place_in(r: Seq<usize>, mags: Seq<u32>, i: usize) -> int
    decreases r.len(),
{
    if r.len() == 0 || !crate::single::below(mags[r.last() as int], mags[i as int]) {
        r.len() as int
    } else {
        place_in(r.drop_last(), mags, i)
    }
}

proof fn place_in_splits(r: Seq<usize>, mags: Seq<u32>, i: usize)
    ensures
        0 <= place_in(r, mags, i) <= r.len(),
        forall|k: int|
            place_in(r, mags, i) <= k < r.len() ==> crate::single::below(
                mags[#[trigger] r[k] as int],
                mags[i as int],
            ),
        place_in(r, mags, i) > 0 ==> !crate::single::below(
            mags[r[place_in(r, mags, i) - 1] as int],
            mags[i as int],
        ),
    decreases r.len(),
{
    if r.len() > 0 && crate::single::below(mags[r.last() as int], mags[i as int]) {
        let rest = r.drop_last();
        place_in_splits(rest, mags, i);
        assert forall|k: int| place_in(r, mags, i) <= k < r.len() implies crate::single::below(
            mags[#[trigger] r[k] as int],
            mags[i as int],
        ) by {
            if k < rest.len() {
                assert(rest[k] == r[k]);
            }
        }
    }
}

/// The loudest tones, the loudest first, as many as are looked at.
pub fn strongest(mags: &[u32]) -> (out: Vec<usize>)
    ensures
        out@ == ranking(mags@, mags@.len()).take(
            if mags@.len() < MAX_PEAKS {
                mags@.len() as int
            } else {
                MAX_PEAKS as int
            },
        ),
{
    let n: usize = mags.len();
    let mut out: Vec<usize> = Vec::new();
    let mut i: usize = 0;
    while i < n
        invariant
            i <= n,
            n == mags@.len(),
            out@ == ranking(mags@, i as nat),
            out@.len() == i,
            forall|k: int| 0 <= k < i ==> #[trigger] out@[k] < n,
        decreases n - i,
    {
        let ghost before = out@;
        let mut at: usize = out.len();
        while at > 0 && less(mags[out[at - 1]], mags[i])
            invariant
                at <= i < n,
                n == mags@.len(),
                out@ == before,
                out@.len() == i,
                forall|k: int| 0 <= k < i ==> #[trigger] out@[k] < n,
                forall|k: int|
                    at <= k < i ==> crate::single::below(
                        mags@[#[trigger] out@[k] as int],
                        mags@[i as int],
                    ),
            decreases at,
        {
            at = at - 1;
        }
        proof {
            ranking_in_passes_over(before, mags@, i, at as int);
        }
        out.insert(at, i);
        proof {
            assert forall|k: int| 0 <= k < i + 1 implies #[trigger] out@[k] < n by {
                if k < at {
                    assert(out@[k] == before[k]);
                } else if k > at {
                    assert(out@[k] == before[k - 1]);
                }
            }
        }
        i = i + 1;
    }
    if out.len() > MAX_PEAKS {
        out.truncate(MAX_PEAKS);
    }
    assert(out@ =~= ranking(mags@, mags@.len()).take(out@.len() as int));
    out
}

/// How many of `n` sorted windows are left out at either end: 15 of 100.
pub open spec fn trim_of(n: int) -> int {
    n * 15 / 100
}

/// The windows that count of those measured: in ascending order, without the 15 of
/// 100 at either end.
pub open spec fn trimmed(s: Seq<u32>) -> Seq<u32> {
    let n = s.len() as int;
    crate::single::sorted(s).subrange(trim_of(n), n - trim_of(n))
}

/// The windows of a phase: from `start` to `end`, as far as there are any.
pub open spec fn phase_windows(s: Seq<u32>, start: int, end: int) -> Seq<u32> {
    let stop = if end < s.len() {
        end
    } else {
        s.len() as int
    };
    if start < stop {
        s.subrange(start, stop)
    } else {
        Seq::empty()
    }
}

/// Of a phase with windows, some always count.
pub proof fn some_windows_count(s: Seq<u32>)
    requires
        s.len() > 0,
    ensures
        trimmed(s).len() > 0,
        trimmed(s).len() == s.len() - 2 * trim_of(s.len() as int),
{
    crate::single::sorting_keeps_the_length(s);
}

/// The windows of a phase that count, in ascending order: their mean is the power
/// of the phase. None where the phase has none.
pub fn phase_power(windows: &[u32], start: u32, end: u32) -> (out: Vec<u32>)
    ensures
        out@ == trimmed(phase_windows(windows@, start as int, end as int)),
{
    let len: usize = windows.len();
    let stop: usize = if (end as usize) < len {
        end as usize
    } else {
        len
    };
    let mut part: Vec<u32> = Vec::new();
    let mut i: usize = start as usize;
    while i < stop
        invariant
            stop <= windows@.len(),
            start <= i,
            start < stop ==> i <= stop && part@ == windows@.subrange(start as int, i as int),
            start >= stop ==> part@.len() == 0,
        decreases stop - i,
    {
        part.push(windows[i]);
        assert(windows@.subrange(start as int, i + 1) =~= windows@.subrange(
            start as int,
            i as int,
        ).push(windows@[i as int]));
        i = i + 1;
    }
    assert(part@ =~= phase_windows(windows@, start as int, end as int));
    trimmed_power(part.as_slice())
}

/// The windows that count of all that were measured, in ascending order.
pub fn trimmed_power(windows: &[u32]) -> (out: Vec<u32>)
    ensures
        out@ == trimmed(windows@),
{
    let n: usize = windows.len();
    let trim: usize = n / 100 * 15 + n % 100 * 15 / 100;
    assert(trim == trim_of(n as int));
    let ordered: Vec<u32> = sort(windows);
    proof {
        crate::single::sorting_keeps_the_length(windows@);
    }
    let mut out: Vec<u32> = Vec::new();
    let mut i: usize = trim;
    while i < n - trim
        invariant
            n == ordered@.len(),
            trim <= i <= n - trim,
            out@ == ordered@.subrange(trim as int, i as int),
        decreases n - i,
    {
        out.push(ordered[i]);
        assert(ordered@.subrange(trim as int, i + 1) =~= ordered@.subrange(
            trim as int,
            i as int,
        ).push(ordered@[i as int]));
        i = i + 1;
    }
    out
}

/// Whether no tone moved in the last windows.
pub open spec fn have_settled(moving: Seq<u8>, stable_frames: int) -> bool {
    stable_frames <= moving.len() && forall|i: int|
        moving.len() - stable_frames <= i < moving.len() ==> #[trigger] moving[i] == 0
}

/// Whether the fans have settled: no tone moved in the last `stable_frames` windows.
pub fn fans_settled(moving: &[u8], stable_frames: usize) -> (r: bool)
    ensures
        r == have_settled(moving@, stable_frames as int),
{
    let n: usize = moving.len();
    if n < stable_frames {
        return false;
    }
    let mut i: usize = n - stable_frames;
    while i < n
        invariant
            n - stable_frames <= i <= n,
            n == moving@.len(),
            stable_frames <= n,
            forall|k: int| n - stable_frames <= k < i ==> #[trigger] moving@[k] == 0,
        decreases n - i,
    {
        if moving[i] != 0 {
            return false;
        }
        i = i + 1;
    }
    true
}

/// A window in which a tone moves starts the wait anew: the fans have not settled
/// until as many windows as asked for have followed it.
pub proof fn movement_starts_the_wait_anew(moving: Seq<u8>, quiet: Seq<u8>, stable_frames: int)
    requires
        moving.len() > 0,
        moving.last() != 0,
        0 <= quiet.len() < stable_frames <= moving.len() + quiet.len(),
    ensures
        exists|i: int|
            (moving + quiet).len() - stable_frames <= i < (moving + quiet).len()
                && #[trigger] (moving + quiet)[i] != 0,
{
    assert((moving + quiet)[moving.len() - 1] == moving.last());
}

/// The patterns are those of the numbers that the tones are held against: 400 Hz, a power of
/// 1e-12, slopes of 2 and 0.4 Hz per frame, and 50 Hz.
pub proof fn tones_are_held_against_numbers()
    ensures
        crate::single::stands_for(TRACK_MAX_JUMP_HZ, 400, 1),
        crate::single::stands_for(PEAK_FLOOR, 1, 1_000_000_000_000),
        crate::single::stands_for(MOVING_SLOPE, 2, 1),
        crate::single::stands_for(STATIONARY_SLOPE, 4, 10),
        crate::single::stands_for(LOWEST_FUNDAMENTAL, 50, 1),
{
    vstd::arithmetic::power2::lemma2_to64();
    vstd::arithmetic::power2::lemma2_to64_rest();
}

/// The bins of the band are those from 300 Hz to 14 kHz, as far as the first half of the
/// frame goes, without the constant part: bin `i` is at `i * rate / 32768` Hz.
pub proof fn the_band_is_from_300_hz_to_14_khz(rate: int, bin: int)
    requires
        rate > 0,
        0 <= bin < 16384,
    ensures
        low_bin(rate) <= bin <= high_bin(rate) <==> 1 <= bin < 16383 + 1 && 300 * 32768 <= bin * rate
            && bin * rate <= 14_000 * 32768,
{
    let lo: int = 9_830_400;
    let hi: int = 458_752_000;
    let a = (lo + rate - 1) / rate;
    let b = hi / rate;
    assert(a * rate >= lo && (a - 1) * rate < lo) by (nonlinear_arith)
        requires
            a == (lo + rate - 1) / rate,
            rate > 0,
    ;
    assert(b * rate <= hi && (b + 1) * rate > hi) by (nonlinear_arith)
        requires
            b == hi / rate,
            rate > 0,
    ;
    if bin >= a {
        assert(bin * rate >= a * rate) by (nonlinear_arith)
            requires
                bin >= a,
                rate > 0,
        ;
    } else {
        assert(bin * rate <= (a - 1) * rate) by (nonlinear_arith)
            requires
                bin <= a - 1,
                rate > 0,
        ;
    }
    if bin <= b {
        assert(bin * rate <= b * rate) by (nonlinear_arith)
            requires
                bin <= b,
                rate > 0,
        ;
    } else {
        assert(bin * rate >= (b + 1) * rate) by (nonlinear_arith)
            requires
                bin >= b + 1,
                rate > 0,
        ;
    }
}

/// A tone is louder than both bins beside it, and not silent; two bins side by side never
/// both hold one, and neither end of the frame does.
pub proof fn tones_stand_out(mags: Seq<u32>, i: int)
    ensures
        is_peak(mags, i) ==> !is_peak(mags, i + 1) && !is_peak(mags, i - 1),
        !is_peak(mags, 0) && !is_peak(mags, mags.len() - 1),
        0 < i < mags.len() - 1 && crate::single::all_numbers(mags) ==> (is_peak(mags, i) <==> {
            &&& crate::single::place(mags[i]) > crate::single::place(mags[i - 1])
            &&& crate::single::place(mags[i]) > crate::single::place(mags[i + 1])
            &&& crate::single::place(mags[i]) > crate::single::place(PEAK_FLOOR)
        }),
{
    if 0 < i < mags.len() - 1 && crate::single::all_numbers(mags) {
        assert(crate::single::is_number(mags[i - 1]));
        assert(crate::single::is_number(mags[i]));
        assert(crate::single::is_number(mags[i + 1]));
    }
}

/// Of the measured windows the lowest and the highest 15 of 100 do not count, rounded down:
/// whatever is left out at the one end is no higher, and at the other no lower, than what
/// counts.
pub proof fn extremes_do_not_count(s: Seq<u32>, i: int, j: int)
    requires
        crate::single::all_numbers(s),
        0 <= j < trimmed(s).len(),
    ensures
        ({
            let t = trim_of(s.len() as int);
            let n = s.len() as int;
            &&& 100 * t <= 15 * n < 100 * t + 100
            &&& trimmed(s).len() == n - 2 * t
            &&& 0 <= i < t ==> !crate::single::below(trimmed(s)[j], crate::single::sorted(s)[i])
            &&& n - t <= i < n ==> !crate::single::below(crate::single::sorted(s)[i], trimmed(s)[j])
            &&& j > 0 ==> !crate::single::below(trimmed(s)[j], trimmed(s)[j - 1])
        }),
{
    crate::single::sorting_keeps_the_length(s);
    crate::single::sorting_orders(s);
    let t = trim_of(s.len() as int);
    let all = crate::single::sorted(s);
    assert(trimmed(s)[j] == all[t + j]);
}

/// The windows of a phase are those from its start to its end that were recorded, each in its
/// place.
pub proof fn phases_have_their_windows(s: Seq<u32>, start: int, end: int, i: int)
    requires
        0 <= start,
    ensures
        ({
            let w = phase_windows(s, start, end);
            &&& start <= end <= s.len() ==> w.len() == end - start
            &&& end > s.len() && start <= s.len() ==> w.len() == s.len() - start
            &&& start >= end || start >= s.len() ==> w.len() == 0
            &&& 0 <= i < w.len() ==> w[i] == s[start + i]
        }),
{
}

/// The fans have settled once as many windows as asked for passed without a tone that moves,
/// and not before; one that moves within them means that they have not.
pub proof fn fans_settle_after_enough_windows(before: Seq<u8>, quiet: Seq<u8>, stable_frames: int)
    requires
        stable_frames > 0,
        forall|i: int| 0 <= i < quiet.len() ==> #[trigger] quiet[i] == 0,
    ensures
        quiet.len() >= stable_frames ==> have_settled(before + quiet, stable_frames),
        before.len() > 0 && before.last() != 0 && quiet.len() < stable_frames ==> !have_settled(
            before + quiet,
            stable_frames,
        ),
        before.len() + quiet.len() < stable_frames ==> !have_settled(before + quiet, stable_frames),
{
    let all = before + quiet;
    if quiet.len() >= stable_frames {
        assert forall|i: int| all.len() - stable_frames <= i < all.len() implies #[trigger] all[i]
            == 0 by {
            assert(all[i] == quiet[i - before.len()]);
        }
    }
    if before.len() > 0 && before.last() != 0 && quiet.len() < stable_frames {
        assert(all[before.len() - 1] != 0);
    }
}

/// Frames of 32768 samples overlap by fifteen sixteenths. Eight tones of a frame are
/// followed on sixteen tracks, and a track is given up after eight frames without one.
pub proof fn frames_overlap_by_fifteen_sixteenths()
    ensures
        FFT_N == 32768,
        FFT_N == 16 * HOP,
        MAX_PEAKS == 8,
        MAX_TRACKS == 16,
        TRACK_MAX_MISSED == 8,
{
}

} // verus!
