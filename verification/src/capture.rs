//! Recording: which microphone, in which format, and what is noted on the way.

use vstd::prelude::*;
use vstd::string::*;

use crate::app::fnv1a_64;
use crate::measure::{phase_label, Phase};
use crate::single::less;
use crate::text::{chars_of, contains, push_decimal, to_lowercase};

verus! {

/// The pattern of 0.0001, the peak from which a microphone shows a signal.
pub const SIGNAL_FLOOR: u32 = 0x38D1_B717;

/// The tag of integer samples.
pub const FMT_PCM: u16 = 1;

/// The tag of single-precision samples.
pub const FMT_FLOAT: u16 = 3;

/// The tag of a format that is told by its subformat.
pub const FMT_EXTENSIBLE: u16 = 0xFFFE;

/// What a word in a name counts: the points, where it occurs.
pub open spec fn points_if(lower: Seq<char>, word: Seq<char>, points: int) -> int {
    if crate::text::occurs_in(word, lower) {
        points
    } else {
        0
    }
}

/// How likely a name, in lower case, is that of the built-in microphone.
pub open spec fn score_of(lower: Seq<char>) -> int {
    points_if(lower, "microphone array"@, 20) + (if crate::text::occurs_in("intel"@, lower)
        && crate::text::occurs_in("smart sound"@, lower) {
        15int
    } else {
        0
    }) + points_if(lower, "realtek"@, 10) + points_if(lower, "internal"@, 10) + points_if(
        lower,
        "motu"@,
        -20,
    ) + points_if(lower, "focusrite"@, -20) + points_if(lower, "scarlett"@, -20) + points_if(
        lower,
        "behringer"@,
        -20,
    ) + points_if(lower, "presonus"@, -20) + points_if(lower, "audient"@, -20) + points_if(
        lower,
        "loopback"@,
        -15,
    ) + points_if(lower, "usb audio"@, -10)
}

/// The points of a word, where it occurs.
fn points(lower: &[char], word: &str, worth: i32) -> (r: i32)
    ensures
        r == points_if(lower@, word@, worth as int),
{
    let chars = chars_of(word);
    if contains(lower, chars.as_slice()) {
        worth
    } else {
        0
    }
}

/// Scores a name in lower case.
pub fn score_name(lower: &[char]) -> (r: i32)
    ensures
        r == score_of(lower@),
{
    let intel = chars_of("intel");
    let sound = chars_of("smart sound");
    let smart: i32 = if contains(lower, intel.as_slice()) && contains(lower, sound.as_slice()) {
        15
    } else {
        0
    };
    points(lower, "microphone array", 20) + smart + points(lower, "realtek", 10) + points(
        lower,
        "internal",
        10,
    ) + points(lower, "motu", -20) + points(lower, "focusrite", -20) + points(
        lower,
        "scarlett",
        -20,
    ) + points(lower, "behringer", -20) + points(lower, "presonus", -20) + points(
        lower,
        "audient",
        -20,
    ) + points(lower, "loopback", -15) + points(lower, "usb audio", -10)
}

/// How likely a name is that of the built-in microphone, whatever its case.
pub fn device_score(name: &str) -> (r: i32)
    ensures
        r == score_of(crate::text::lowercase(name@)),
        crate::text::is_ascii_text(name@) ==> r == score_of(crate::text::ascii_lowered(name@)),
{
    let lower: String = to_lowercase(name);
    let chars = chars_of(lower.as_str());
    score_name(chars.as_slice())
}

/// The name of a microphone: its own, or one by its number.
pub open spec fn name_of_device(friendly: Option<Seq<char>>, i: int) -> Seq<char> {
    match friendly {
        Some(n) => n,
        None => "Unknown Device "@ + crate::text::decimal(i),
    }
}

/// The name of a microphone: its own, or one by its number.
pub fn device_name(friendly: Option<String>, i: u32) -> (out: String)
    ensures
        out@ == name_of_device(
            match friendly {
                Some(n) => Some(n@),
                None => None,
            },
            i as int,
        ),
{
    match friendly {
        Some(n) => n,
        None => {
            let mut out: String = "Unknown Device ".to_owned();
            push_decimal(&mut out, i as u64);
            out
        },
    }
}

/// A microphone that could be used.
#[derive(Clone, Copy, PartialEq, Eq, Structural, Debug)]
pub struct Candidate {
    pub score: i32,
    /// The highest level its meter showed.
    pub peak: u32,
}

/// The highest level after one more reading.
pub open spec fn peak_after(peak: u32, reading: Option<u32>) -> u32 {
    match reading {
        Some(p) => if crate::single::below(peak, p) {
            p
        } else {
            peak
        },
        None => peak,
    }
}

/// The highest level so far, after one more reading of the meter. A reading that
/// failed changes nothing.
pub fn highest(peak: u32, reading: Option<u32>) -> (r: u32)
    ensures
        r == peak_after(peak, reading),
        crate::single::is_number(peak) ==> crate::single::is_number(r),
{
    match reading {
        Some(p) => if less(peak, p) {
            p
        } else {
            peak
        },
        None => peak,
    }
}

/// Whether one microphone is to be preferred to another: it scores higher, or the
/// same with a higher level.
pub open spec fn is_better(a: Candidate, b: Candidate) -> bool {
    a.score > b.score || (a.score == b.score && crate::single::below(b.peak, a.peak))
}

/// The best of the first `n`; the first of these where several are.
pub open spec fn best_of(c: Seq<Candidate>, n: int) -> int
    decreases n,
{
    if n <= 1 {
        0
    } else {
        let b = best_of(c, n - 1);
        if is_better(c[n - 1], c[b]) {
            n - 1
        } else {
            b
        }
    }
}

/// No microphone is preferred to the best, and it is preferred to all before it.
pub proof fn best_is_best(c: Seq<Candidate>, n: int)
    requires
        1 <= n <= c.len(),
        forall|i: int| 0 <= i < n ==> crate::single::is_number((#[trigger] c[i]).peak),
    ensures
        0 <= best_of(c, n) < n,
        forall|i: int| 0 <= i < n ==> !is_better(#[trigger] c[i], c[best_of(c, n)]),
        forall|i: int| 0 <= i < best_of(c, n) ==> is_better(c[best_of(c, n)], #[trigger] c[i]),
    decreases n,
{
    if n > 1 {
        best_is_best(c, n - 1);
    }
}

/// Why there is no microphone.
#[derive(Clone, Copy, PartialEq, Eq, Structural, Debug)]
pub enum SelectError {
    CannotEnumerate,
    CannotCount,
    NoneActive,
    NoneUsable,
}

/// How the lack of a microphone is reported.
pub open spec fn selection_failed(e: SelectError) -> Seq<char> {
    match e {
        SelectError::CannotEnumerate => "cannot enumerate capture devices"@,
        SelectError::CannotCount => "cannot count capture devices"@,
        SelectError::NoneActive => "no active capture devices"@,
        SelectError::NoneUsable => "no usable capture device"@,
    }
}

/// What is said where no microphone could be selected.
pub fn select_error_text(e: SelectError) -> (r: &'static str)
    ensures
        r@ == selection_failed(e),
{
    match e {
        SelectError::CannotEnumerate => "cannot enumerate capture devices",
        SelectError::CannotCount => "cannot count capture devices",
        SelectError::NoneActive => "no active capture devices",
        SelectError::NoneUsable => "no usable capture device",
    }
}

/// Selects a microphone, by its index among the candidates. `listed` says whether
/// the microphones could be listed, `count` how many there are.
pub fn select_capture_device(listed: bool, count: Option<u32>, candidates: &[Candidate]) -> (r:
    Result<usize, SelectError>)
    ensures
        match r {
            Ok(i) => listed && (count matches Some(n) && n != 0) && i < candidates@.len() && i
                == best_of(candidates@, candidates@.len() as int),
            Err(SelectError::CannotEnumerate) => !listed,
            Err(SelectError::CannotCount) => listed && count is None,
            Err(SelectError::NoneActive) => listed && count == Some(0u32),
            Err(SelectError::NoneUsable) => listed && (count matches Some(n) && n != 0)
                && candidates@.len() == 0,
        },
{
    if !listed {
        return Err(SelectError::CannotEnumerate);
    }
    match count {
        None => return Err(SelectError::CannotCount),
        Some(n) => {
            if n == 0 {
                return Err(SelectError::NoneActive);
            }
        },
    }
    if candidates.len() == 0 {
        return Err(SelectError::NoneUsable);
    }
    let mut best: usize = 0;
    let mut i: usize = 1;
    while i < candidates.len()
        invariant
            1 <= i <= candidates@.len(),
            best < i,
            best == best_of(candidates@, i as int),
        decreases candidates@.len() - i,
    {
        let a: Candidate = candidates[i];
        let b: Candidate = candidates[best];
        if a.score > b.score || (a.score == b.score && less(b.peak, a.peak)) {
            best = i;
        }
        i = i + 1;
    }
    Ok(best)
}

/// Whether a microphone shows no signal and is not likely to be built in.
pub open spec fn deserves_warning(c: Candidate) -> bool {
    crate::single::below(c.peak, SIGNAL_FLOOR) && c.score <= 0
}

/// Whether the selected microphone deserves a warning: it shows no signal, and is
/// not likely to be built in.
pub fn is_doubtful(c: &Candidate) -> (r: bool)
    ensures
        r == deserves_warning(*c),
{
    less(c.peak, SIGNAL_FLOOR) && c.score <= 0
}

/// The part of an identifier before the zero that ends it.
pub open spec fn before_zero(s: Seq<u16>) -> Seq<u16>
    decreases s.len(),
{
    if s.len() == 0 || s[0] == 0 {
        Seq::empty()
    } else {
        seq![s[0]] + before_zero(s.skip(1))
    }
}

/// The bytes of an identifier, the low byte of each unit first.
pub open spec fn unit_bytes(s: Seq<u16>) -> Seq<u8>
    decreases s.len(),
{
    if s.len() == 0 {
        Seq::empty()
    } else {
        unit_bytes(s.drop_last()) + crate::bytes::le(s.last() as int, 2)
    }
}

proof fn before_zero_is_a_prefix(s: Seq<u16>, k: int)
    requires
        0 <= k <= s.len(),
        forall|i: int| 0 <= i < k ==> #[trigger] s[i] != 0,
        k < s.len() ==> s[k] == 0,
    ensures
        before_zero(s) == s.take(k),
    decreases s.len(),
{
    if k > 0 {
        let rest = s.skip(1);
        assert(s[0] != 0);
        assert forall|i: int| 0 <= i < k - 1 implies #[trigger] rest[i] != 0 by {
            assert(rest[i] == s[i + 1]);
        }
        before_zero_is_a_prefix(rest, k - 1);
        assert(seq![s[0]] + rest.take(k - 1) =~= s.take(k));
    } else {
        assert(s.take(0) =~= Seq::<u16>::empty());
    }
}

/// The hash of an identifier.
pub open spec fn hash_of_id(id: Option<Seq<u16>>) -> u64 {
    match id {
        Some(units) => crate::app::fnv1a_64_of(unit_bytes(before_zero(units))),
        None => 0,
    }
}

/// The hash by which a microphone is known again: that of its identifier, or 0 where
/// it has none.
pub fn mic_device_hash(id: Option<&[u16]>) -> (r: u64)
    ensures
        r == hash_of_id(
            match id {
                Some(units) => Some(units@),
                None => None,
            },
        ),
{
    let units: &[u16] = match id {
        Some(u) => u,
        None => return 0,
    };
    let mut bytes: Vec<u8> = Vec::new();
    let mut i: usize = 0;
    assert(units@.take(0) =~= Seq::<u16>::empty());
    while i < units.len() && units[i] != 0
        invariant
            i <= units@.len(),
            forall|k: int| 0 <= k < i ==> #[trigger] units@[k] != 0,
            bytes@ == unit_bytes(units@.take(i as int)),
        decreases units@.len() - i,
    {
        crate::bytes::push_le(&mut bytes, units[i] as u64, 2);
        proof {
            let t = units@.take(i + 1);
            assert(t.drop_last() =~= units@.take(i as int));
            assert(t.last() == units@[i as int]);
        }
        i = i + 1;
    }
    proof {
        before_zero_is_a_prefix(units@, i as int);
    }
    fnv1a_64(bytes.as_slice())
}

/// Whether the samples of a format are single-precision numbers.
pub open spec fn float_samples(tag: u16, extra: u16, sub_is_float: bool) -> Option<bool> {
    if tag == FMT_FLOAT {
        Some(true)
    } else if tag == FMT_PCM {
        Some(false)
    } else if tag == FMT_EXTENSIBLE {
        Some(extra >= 22 && sub_is_float)
    } else {
        None
    }
}

/// Whether the samples are single-precision numbers; nothing where the format is of
/// another kind. A format told by its subformat needs room for it.
pub fn sample_format(tag: u16, extra: u16, sub_is_float: bool) -> (r: Option<bool>)
    ensures
        r == float_samples(tag, extra, sub_is_float),
{
    if tag == FMT_FLOAT {
        Some(true)
    } else if tag == FMT_PCM {
        Some(false)
    } else if tag == FMT_EXTENSIBLE {
        Some(extra >= 22 && sub_is_float)
    } else {
        None
    }
}

/// What went wrong with a recording.
#[derive(Clone, Copy, PartialEq, Eq, Structural, Debug)]
pub enum CaptureError {
    Activate,
    MixFormat,
    Format,
    Initialize,
    Service,
    Start,
    NextPacket,
    GetBuffer,
}

/// How a failed recording is reported.
pub open spec fn recording_failed(e: CaptureError) -> Seq<char> {
    match e {
        CaptureError::Activate => "audio client activate failed"@,
        CaptureError::MixFormat => "GetMixFormat failed"@,
        CaptureError::Format => "unsupported audio format"@,
        CaptureError::Initialize => "audio init failed"@,
        CaptureError::Service => "no capture service"@,
        CaptureError::Start => "capture start failed"@,
        CaptureError::NextPacket => "GetNextPacketSize failed"@,
        CaptureError::GetBuffer => "GetBuffer failed"@,
    }
}

/// What is said where a recording failed.
pub fn capture_error_text(e: CaptureError) -> (r: &'static str)
    ensures
        r@ == recording_failed(e),
{
    match e {
        CaptureError::Activate => "audio client activate failed",
        CaptureError::MixFormat => "GetMixFormat failed",
        CaptureError::Format => "unsupported audio format",
        CaptureError::Initialize => "audio init failed",
        CaptureError::Service => "no capture service",
        CaptureError::Start => "capture start failed",
        CaptureError::NextPacket => "GetNextPacketSize failed",
        CaptureError::GetBuffer => "GetBuffer failed",
    }
}

/// What is done next in a recording.
#[derive(Clone, Copy, PartialEq, Eq, Structural, Debug)]
pub enum CaptureStep {
    /// Get a client, raw where that can be had.
    Activate,
    MixFormat,
    /// Look at the format.
    Format,
    Initialize,
    /// Name the session for the volume mixer.
    Label,
    Service,
    Start,
    /// Ask for the size of the next packet.
    NextPacket,
    /// Sleep five milliseconds.
    Sleep,
    /// Get the packet, and take its samples in.
    GetBuffer,
    /// Give the packet back.
    ReleaseBuffer,
    /// Stop, and free the format.
    Stop,
    Done,
    Failed(CaptureError),
}

/// What came of a step.
#[derive(Clone, Copy, PartialEq, Eq, Structural, Debug)]
pub enum CaptureEvent {
    Succeeded,
    Failed,
    /// The next packet has so many frames.
    Packet(u32),
    /// The time is over.
    TimeUp,
}

/// What follows a step of opening a recording. `last` is what follows the start.
pub open spec fn opened(step: CaptureStep, ok: bool, last: CaptureStep) -> CaptureStep {
    match step {
        CaptureStep::Activate => if ok {
            CaptureStep::MixFormat
        } else {
            CaptureStep::Failed(CaptureError::Activate)
        },
        CaptureStep::MixFormat => if ok {
            CaptureStep::Format
        } else {
            CaptureStep::Failed(CaptureError::MixFormat)
        },
        CaptureStep::Format => if ok {
            CaptureStep::Initialize
        } else {
            CaptureStep::Failed(CaptureError::Format)
        },
        CaptureStep::Initialize => if ok {
            CaptureStep::Label
        } else {
            CaptureStep::Failed(CaptureError::Initialize)
        },
        CaptureStep::Label => CaptureStep::Service,
        CaptureStep::Service => if ok {
            CaptureStep::Start
        } else {
            CaptureStep::Failed(CaptureError::Service)
        },
        CaptureStep::Start => if ok {
            last
        } else {
            CaptureStep::Failed(CaptureError::Start)
        },
        _ => step,
    }
}

/// What follows a step of opening a recording; it is done once it runs.
pub fn open(step: CaptureStep, ok: bool) -> (r: CaptureStep)
    ensures
        r == opened(step, ok, CaptureStep::Done),
{
    match step {
        CaptureStep::Activate => if ok {
            CaptureStep::MixFormat
        } else {
            CaptureStep::Failed(CaptureError::Activate)
        },
        CaptureStep::MixFormat => if ok {
            CaptureStep::Format
        } else {
            CaptureStep::Failed(CaptureError::MixFormat)
        },
        CaptureStep::Format => if ok {
            CaptureStep::Initialize
        } else {
            CaptureStep::Failed(CaptureError::Format)
        },
        CaptureStep::Initialize => if ok {
            CaptureStep::Label
        } else {
            CaptureStep::Failed(CaptureError::Initialize)
        },
        CaptureStep::Label => CaptureStep::Service,
        CaptureStep::Service => if ok {
            CaptureStep::Start
        } else {
            CaptureStep::Failed(CaptureError::Service)
        },
        CaptureStep::Start => if ok {
            CaptureStep::Done
        } else {
            CaptureStep::Failed(CaptureError::Start)
        },
        _ => step,
    }
}

/// What follows a step of taking packets in.
pub open spec fn drained(step: CaptureStep, event: CaptureEvent) -> CaptureStep {
    match step {
        CaptureStep::NextPacket => match event {
            CaptureEvent::Packet(0) => CaptureStep::Done,
            CaptureEvent::Packet(_) => CaptureStep::GetBuffer,
            _ => CaptureStep::Failed(CaptureError::NextPacket),
        },
        CaptureStep::GetBuffer => if event == CaptureEvent::Failed {
            CaptureStep::Failed(CaptureError::GetBuffer)
        } else {
            CaptureStep::ReleaseBuffer
        },
        CaptureStep::ReleaseBuffer => CaptureStep::NextPacket,
        _ => step,
    }
}

/// What follows a step of taking packets in: it is done once none is left.
pub fn poll(step: CaptureStep, event: CaptureEvent) -> (r: CaptureStep)
    ensures
        r == drained(step, event),
{
    match step {
        CaptureStep::NextPacket => match event {
            CaptureEvent::Packet(n) => if n == 0 {
                CaptureStep::Done
            } else {
                CaptureStep::GetBuffer
            },
            _ => CaptureStep::Failed(CaptureError::NextPacket),
        },
        CaptureStep::GetBuffer => if event == CaptureEvent::Failed {
            CaptureStep::Failed(CaptureError::GetBuffer)
        } else {
            CaptureStep::ReleaseBuffer
        },
        CaptureStep::ReleaseBuffer => CaptureStep::NextPacket,
        _ => step,
    }
}

/// What follows a step of a recording of fixed length.
pub open spec fn captured(step: CaptureStep, event: CaptureEvent) -> CaptureStep {
    match step {
        CaptureStep::NextPacket => match event {
            CaptureEvent::TimeUp => CaptureStep::Stop,
            CaptureEvent::Packet(0) => CaptureStep::Sleep,
            _ => drained(step, event),
        },
        CaptureStep::Sleep => CaptureStep::NextPacket,
        CaptureStep::GetBuffer => drained(step, event),
        CaptureStep::ReleaseBuffer => drained(step, event),
        CaptureStep::Stop => CaptureStep::Done,
        _ => opened(step, event != CaptureEvent::Failed, CaptureStep::NextPacket),
    }
}

/// What follows a step of a recording of fixed length: it is opened, takes packets in
/// until the time is over, and is stopped.
pub fn capture_with_device(step: CaptureStep, event: CaptureEvent) -> (r: CaptureStep)
    ensures
        r == captured(step, event),
{
    match step {
        CaptureStep::NextPacket => match event {
            CaptureEvent::TimeUp => CaptureStep::Stop,
            CaptureEvent::Packet(n) => if n == 0 {
                CaptureStep::Sleep
            } else {
                CaptureStep::GetBuffer
            },
            _ => CaptureStep::Failed(CaptureError::NextPacket),
        },
        CaptureStep::Sleep => CaptureStep::NextPacket,
        CaptureStep::GetBuffer => poll(step, event),
        CaptureStep::ReleaseBuffer => poll(step, event),
        CaptureStep::Stop => CaptureStep::Done,
        CaptureStep::Start => if event != CaptureEvent::Failed {
            CaptureStep::NextPacket
        } else {
            CaptureStep::Failed(CaptureError::Start)
        },
        _ => open(step, event != CaptureEvent::Failed),
    }
}

/// A packet that was got is always given back, and a recording that ran out its time
/// is always stopped.
pub proof fn packets_are_given_back(step: CaptureStep, event: CaptureEvent)
    ensures
        step == CaptureStep::GetBuffer && event != CaptureEvent::Failed ==> captured(step, event)
            == CaptureStep::ReleaseBuffer && drained(step, event) == CaptureStep::ReleaseBuffer,
        captured(step, event) == CaptureStep::Done ==> step == CaptureStep::Stop || step
            == CaptureStep::Done,
{
}

/// How many packets were silent, and how many were not.
#[derive(Clone, Copy, PartialEq, Eq, Structural, Debug)]
pub struct PacketCounts {
    pub silent: u32,
    pub active: u32,
}

/// Whether the flags of a packet say that it is silent: their second bit.
pub open spec fn says_silent(flags: u32) -> bool {
    flags / 2 % 2 == 1
}

/// Whether the samples of a packet are taken in.
pub open spec fn takes_samples(flags: u32, has_data: bool) -> bool {
    !says_silent(flags) && has_data
}

/// The counts after one more packet.
pub open spec fn counted(c: PacketCounts, flags: u32) -> PacketCounts {
    if says_silent(flags) {
        PacketCounts { silent: (c.silent + 1) as u32, ..c }
    } else {
        PacketCounts { active: (c.active + 1) as u32, ..c }
    }
}

/// Counts a packet, and says whether its samples are taken in: it is not silent, and
/// there are any.
pub fn count_packet(counts: &mut PacketCounts, flags: u32, has_data: bool) -> (r: bool)
    requires
        old(counts).silent < u32::MAX,
        old(counts).active < u32::MAX,
    ensures
        r == takes_samples(flags, has_data),
        *final(counts) == counted(*old(counts), flags),
{
    assert((flags & 2 != 0) == (flags / 2 % 2 == 1)) by (bit_vector);
    if flags & 2 != 0 {
        counts.silent = counts.silent + 1;
        false
    } else {
        counts.active = counts.active + 1;
        has_data
    }
}

/// How many of the markers, from the start, stand at the window or before it.
pub open spec fn markers_begun(markers: Seq<(u32, Phase)>, window: u32) -> int
    decreases markers.len(),
{
    if markers.len() == 0 || window < markers[0].0 {
        0
    } else {
        1 + markers_begun(markers.skip(1), window)
    }
}

/// The phase of a window: that of the last marker that stands at it or before it.
pub open spec fn phase_of(markers: Seq<(u32, Phase)>, window: u32) -> Phase {
    let n = markers_begun(markers, window);
    if n == 0 {
        Phase::Init
    } else {
        markers[n - 1].1
    }
}

proof fn markers_begun_are(markers: Seq<(u32, Phase)>, window: u32, k: int)
    requires
        0 <= k <= markers.len(),
        forall|i: int| 0 <= i < k ==> (#[trigger] markers[i]).0 <= window,
        k < markers.len() ==> window < markers[k].0,
    ensures
        markers_begun(markers, window) == k,
    decreases markers.len(),
{
    if k > 0 {
        let rest = markers.skip(1);
        assert(markers[0].0 <= window);
        assert forall|i: int| 0 <= i < k - 1 implies (#[trigger] rest[i]).0 <= window by {
            assert(rest[i] == markers[i + 1]);
        }
        markers_begun_are(rest, window, k - 1);
    }
}

/// The phase of a window.
pub fn phase_at(markers: &[(u32, Phase)], window: u32) -> (r: Phase)
    ensures
        r == phase_of(markers@, window),
{
    let mut phase: Phase = Phase::Init;
    let mut i: usize = 0;
    while i < markers.len() && window >= markers[i].0
        invariant
            i <= markers@.len(),
            forall|k: int| 0 <= k < i ==> (#[trigger] markers@[k]).0 <= window,
            phase == if i == 0 {
                Phase::Init
            } else {
                markers@[i - 1].1
            },
        decreases markers@.len() - i,
    {
        phase = markers[i].1;
        i = i + 1;
    }
    proof {
        markers_begun_are(markers@, window, i as int);
    }
    phase
}

/// Notes that a phase begins at the next window.
pub fn mark(markers: &mut Vec<(u32, Phase)>, windows: u32, phase: Phase)
    ensures
        final(markers)@ == old(markers)@.push((windows, phase)),
{
    markers.push((windows, phase));
}

/// Whether the markers stand in order, and none behind `windows`.
pub open spec fn in_order_up_to(markers: Seq<(u32, Phase)>, windows: u32) -> bool {
    &&& forall|i: int, j: int|
        0 <= i < j < markers.len() ==> (#[trigger] markers[i]).0 <= (#[trigger] markers[j]).0
    &&& forall|i: int| 0 <= i < markers.len() ==> (#[trigger] markers[i]).0 <= windows
}

/// A phase lasts from its marker on until the next one is set: the windows from the
/// marker on belong to it.
pub proof fn phases_begin_at_their_marker(
    markers: Seq<(u32, Phase)>,
    windows: u32,
    phase: Phase,
    window: u32,
)
    requires
        in_order_up_to(markers, windows),
        window >= windows,
    ensures
        phase_of(markers.push((windows, phase)), window) == phase,
        in_order_up_to(markers.push((windows, phase)), windows),
{
    let all = markers.push((windows, phase));
    markers_begun_are(all, window, all.len() as int);
}

/// A marker as text: a space, the window, and the name.
pub open spec fn marker_text(m: (u32, Phase)) -> Seq<char> {
    " "@ + crate::text::decimal(m.0 as int) + "="@ + crate::measure::phase_name(m.1)
}

/// The markers as text.
pub open spec fn marker_texts(markers: Seq<(u32, Phase)>) -> Seq<char>
    decreases markers.len(),
{
    if markers.len() == 0 {
        Seq::empty()
    } else {
        marker_texts(markers.drop_last()) + marker_text(markers.last())
    }
}

/// The head of the table of a recording.
pub open spec fn table_head_of(
    stamp: Seq<char>,
    raw: bool,
    gain: Seq<char>,
    markers: Seq<(u32, Phase)>,
) -> Seq<char> {
    "# stress-cal continuous "@ + stamp + "\n# raw="@ + (if raw {
        "true"@
    } else {
        "false"@
    }) + " mic_gain="@ + gain + "\n# markers:"@ + marker_texts(markers)
        + "\nwindow\ttime_s\tphase\tpower\tpower_dbfs\tcentroid_hz\tpeak_freq_hz\tpeak_mag\tmoving\ttonal_power\tnoise_power\n"@
}

/// The head of the table of a recording: when it was made, how, with which markers,
/// and what its columns are.
pub fn table_head(stamp: &str, raw: bool, gain: &str, markers: &[(u32, Phase)]) -> (out: String)
    ensures
        out@ == table_head_of(stamp@, raw, gain@, markers@),
{
    let mut out: String = "# stress-cal continuous ".to_owned();
    out.append(stamp);
    out.append("\n# raw=");
    if raw {
        out.append("true");
    } else {
        out.append("false");
    }
    out.append(" mic_gain=");
    out.append(gain);
    out.append("\n# markers:");
    let ghost head = out@;
    let mut i: usize = 0;
    assert(markers@.take(0) =~= Seq::<(u32, Phase)>::empty());
    while i < markers.len()
        invariant
            i <= markers@.len(),
            out@ == head + marker_texts(markers@.take(i as int)),
        decreases markers@.len() - i,
    {
        let ghost before = out@;
        out.append(" ");
        push_decimal(&mut out, markers[i].0 as u64);
        out.append("=");
        out.append(phase_label(markers[i].1));
        proof {
            assert(out@ =~= before + marker_text(markers@[i as int]));
            let t = markers@.take(i + 1);
            assert(t.drop_last() =~= markers@.take(i as int));
            assert(t.last() == markers@[i as int]);
        }
        i = i + 1;
    }
    assert(markers@.take(markers@.len() as int) =~= markers@);
    out.append(
        "\nwindow\ttime_s\tphase\tpower\tpower_dbfs\tcentroid_hz\tpeak_freq_hz\tpeak_mag\tmoving\ttonal_power\tnoise_power\n",
    );
    out
}

/// Texts with a tab between each and the next, and a new line at the end.
pub open spec fn row_of(fields: Seq<Seq<char>>) -> Seq<char>
    decreases fields.len(),
{
    if fields.len() == 0 {
        Seq::empty()
    } else if fields.len() == 1 {
        fields[0] + "\n"@
    } else {
        fields[0] + "\t"@ + row_of(fields.skip(1))
    }
}

/// The texts, as sequences.
pub open spec fn texts(fields: Seq<String>) -> Seq<Seq<char>> {
    fields.map_values(|f: String| f@)
}

/// A row of a table.
pub fn table_row(fields: &[String]) -> (out: String)
    ensures
        out@ == row_of(texts(fields@)),
{
    let n: usize = fields.len();
    let mut out: String = String::new();
    let mut i: usize = 0;
    let ghost all = texts(fields@);
    assert(all.skip(0) =~= all);
    while i < n
        invariant
            i <= n,
            n == fields@.len(),
            all == texts(fields@),
            out@ + row_of(all.skip(i as int)) == row_of(all),
        decreases n - i,
    {
        let ghost before = out@;
        let ghost rest = all.skip(i as int);
        out.append(fields[i].as_str());
        if i + 1 < n {
            out.append("\t");
        } else {
            out.append("\n");
        }
        proof {
            assert(rest[0] == fields@[i as int]@);
            assert(rest.skip(1) =~= all.skip(i + 1));
            if i + 1 < n {
                assert(row_of(rest) =~= rest[0] + "\t"@ + row_of(all.skip(i + 1)));
                assert(out@ + row_of(all.skip(i + 1)) =~= before + row_of(rest));
            } else {
                assert(all.skip(i + 1) =~= Seq::<Seq<char>>::empty());
                assert(row_of(rest) =~= rest[0] + "\n"@);
                assert(out@ + row_of(all.skip(i + 1)) =~= before + row_of(rest));
            }
        }
        i = i + 1;
    }
    proof {
        assert(all.skip(n as int) =~= Seq::<Seq<char>>::empty());
        assert(out@ =~= out@ + row_of(all.skip(n as int)));
    }
    out
}

/// The number of the first row that is added to a log: the next after the last.
pub open spec fn row_after(last: Option<u32>) -> int {
    match last {
        Some(n) => n + 1,
        None => 0,
    }
}

/// The number of the first row that is added to a log.
pub fn first_row(last: Option<u32>) -> (r: u32)
    requires
        last matches Some(n) ==> n < u32::MAX,
    ensures
        r == row_after(last),
{
    match last {
        Some(n) => n + 1,
        None => 0,
    }
}

/// Words of a built-in microphone raise the score, and words of other devices lower it: a
/// name with none of the latter scores above zero just where it has one of the former, and
/// a name with none of the former below zero just where it has one of the latter.
pub proof fn names_tell_the_built_in_microphone(lower: Seq<char>)
    ensures
        ({
            let built_in = crate::text::occurs_in("microphone array"@, lower) || (
            crate::text::occurs_in("intel"@, lower) && crate::text::occurs_in("smart sound"@, lower))
                || crate::text::occurs_in("realtek"@, lower) || crate::text::occurs_in(
                "internal"@,
                lower,
            );
            let other = crate::text::occurs_in("motu"@, lower) || crate::text::occurs_in(
                "focusrite"@,
                lower,
            ) || crate::text::occurs_in("scarlett"@, lower) || crate::text::occurs_in(
                "behringer"@,
                lower,
            ) || crate::text::occurs_in("presonus"@, lower) || crate::text::occurs_in(
                "audient"@,
                lower,
            ) || crate::text::occurs_in("loopback"@, lower) || crate::text::occurs_in(
                "usb audio"@,
                lower,
            );
            &&& !other ==> score_of(lower) >= 0 && (score_of(lower) > 0 <==> built_in)
            &&& !built_in ==> score_of(lower) <= 0 && (score_of(lower) < 0 <==> other)
        }),
{
}

/// The microphone that is selected scores no lower than any other; of those that score the
/// same it shows the highest level, and of those it comes first.
pub proof fn the_likeliest_microphone_is_selected(c: Seq<Candidate>, n: int, i: int)
    requires
        0 <= i < n <= c.len(),
        forall|k: int| 0 <= k < n ==> crate::single::is_number((#[trigger] c[k]).peak),
    ensures
        ({
            let b = c[best_of(c, n)];
            &&& 0 <= best_of(c, n) < n
            &&& b.score >= c[i].score
            &&& b.score == c[i].score ==> crate::single::place(b.peak) >= crate::single::place(
                c[i].peak,
            )
            &&& b.score == c[i].score && crate::single::place(b.peak) == crate::single::place(
                c[i].peak,
            ) ==> best_of(c, n) <= i
        }),
{
    best_is_best(c, n);
    assert(!is_better(c[i], c[best_of(c, n)]));
    assert(crate::single::is_number(c[best_of(c, n)].peak));
    if i < best_of(c, n) {
        assert(is_better(c[best_of(c, n)], c[i]));
    }
}

/// The highest level is none lower than before nor than what was read, and one of the two; a
/// warning is due only without a signal, which is a level of 1e-4.
pub proof fn levels_only_rise(peak: u32, reading: u32, c: Candidate)
    requires
        crate::single::is_number(peak),
        crate::single::is_number(reading),
    ensures
        crate::single::at_least(peak_after(peak, Some(reading)), peak),
        crate::single::at_least(peak_after(peak, Some(reading)), reading),
        peak_after(peak, Some(reading)) == peak || peak_after(peak, Some(reading)) == reading,
        peak_after(peak, None) == peak,
        crate::single::stands_for(SIGNAL_FLOOR, 1, 10_000),
        c.score > 0 || crate::single::at_least(c.peak, SIGNAL_FLOOR) ==> !deserves_warning(c),
        c.score <= 0 && crate::single::below(c.peak, SIGNAL_FLOOR) ==> deserves_warning(c),
{
    vstd::arithmetic::power2::lemma2_to64();
    vstd::arithmetic::power2::lemma2_to64_rest();
}

/// A microphone is known by its identifier up to the zero, whatever stands behind it; the
/// bytes of each unit go into the hash low one first. One without an identifier is known by
/// zero.
pub proof fn identifiers_end_at_the_zero(id: Seq<u16>, rest: Seq<u16>, unit: u16)
    requires
        forall|i: int| 0 <= i < id.len() ==> #[trigger] id[i] != 0,
    ensures
        before_zero(id) == id,
        before_zero(id + seq![0u16] + rest) == id,
        hash_of_id(Some(id + seq![0u16] + rest)) == hash_of_id(Some(id)),
        hash_of_id(None) == 0,
        unit_bytes(id.push(unit)) == unit_bytes(id) + seq![(unit % 256) as u8, (unit / 256) as u8],
{
    before_zero_is_a_prefix(id, id.len() as int);
    assert(id.take(id.len() as int) =~= id);
    let all = id + seq![0u16] + rest;
    assert forall|i: int| 0 <= i < id.len() implies #[trigger] all[i] != 0 by {
        assert(all[i] == id[i]);
    }
    assert(all[id.len() as int] == 0);
    before_zero_is_a_prefix(all, id.len() as int);
    assert(all.take(id.len() as int) =~= id);
    assert(id.push(unit).drop_last() =~= id);
    reveal_with_fuel(crate::bytes::le, 3);
    assert(crate::bytes::le(unit as int, 2) =~= seq![(unit % 256) as u8, (unit / 256) as u8]);
}

/// Which formats are taken: integers, numbers, and either told by the subformat; a format
/// with no room for one has integers.
pub proof fn formats_are_told(tag: u16, extra: u16, sub: bool)
    ensures
        float_samples(3, extra, sub) == Some(true),
        float_samples(1, extra, sub) == Some(false),
        float_samples(0xFFFE, extra, sub) == Some(true) <==> sub && extra >= 22,
        float_samples(0xFFFE, extra, sub) is Some,
        tag != 1 && tag != 3 && tag != 0xFFFE ==> float_samples(tag, extra, sub) is None,
{
}

/// How a recording of fixed length goes: it is opened step by step, asks for packets until
/// the time is up, sleeps where there is none, and takes in and gives back each that there
/// is. It is stopped once the time is up, and only then.
pub proof fn recordings_take_their_course(step: CaptureStep, event: CaptureEvent)
    ensures
        captured(step, event) is MixFormat <==> step is Activate && event
            != CaptureEvent::Failed,
        captured(step, event) is Initialize <==> step is Format && event != CaptureEvent::Failed,
        captured(step, event) is Start <==> step is Service && event != CaptureEvent::Failed,
        captured(step, event) is NextPacket <==> step is Sleep || step is ReleaseBuffer || (step
            is Start && event != CaptureEvent::Failed),
        captured(step, event) is Sleep <==> step is NextPacket && event == CaptureEvent::Packet(0),
        captured(step, event) is GetBuffer <==> step is NextPacket && (event matches
            CaptureEvent::Packet(n) && n > 0),
        captured(step, event) is ReleaseBuffer <==> step is GetBuffer && event
            != CaptureEvent::Failed,
        captured(step, event) is Stop <==> step is NextPacket && event == CaptureEvent::TimeUp,
        captured(step, event) is Done <==> step is Stop || step is Done,
{
}

/// Taking packets in ends where none is left, and each that is there is taken.
pub proof fn packets_are_drained(step: CaptureStep, event: CaptureEvent)
    ensures
        drained(CaptureStep::NextPacket, event) is Done <==> event == CaptureEvent::Packet(0),
        drained(CaptureStep::NextPacket, event) is GetBuffer <==> (event matches
            CaptureEvent::Packet(n) && n > 0),
        drained(step, event) is ReleaseBuffer <==> step is GetBuffer && event
            != CaptureEvent::Failed,
        drained(CaptureStep::ReleaseBuffer, event) is NextPacket,
{
}

/// A failure on the way is told by the step that failed; naming the session may fail.
pub proof fn recordings_tell_what_failed(e: CaptureError, last: CaptureStep)
    requires
        last is Done || last is NextPacket,
    ensures
        opened(CaptureStep::Activate, false, last) == CaptureStep::Failed(CaptureError::Activate),
        opened(CaptureStep::MixFormat, false, last) == CaptureStep::Failed(CaptureError::MixFormat),
        opened(CaptureStep::Format, false, last) == CaptureStep::Failed(CaptureError::Format),
        opened(CaptureStep::Initialize, false, last) == CaptureStep::Failed(
            CaptureError::Initialize,
        ),
        opened(CaptureStep::Label, false, last) is Service && opened(CaptureStep::Label, true, last)
            is Service,
        opened(CaptureStep::Service, false, last) == CaptureStep::Failed(CaptureError::Service),
        opened(CaptureStep::Start, false, last) == CaptureStep::Failed(CaptureError::Start),
        opened(CaptureStep::Start, true, last) == last,
        opened(CaptureStep::Initialize, true, last) is Label,
        captured(CaptureStep::Failed(e), CaptureEvent::Succeeded) == CaptureStep::Failed(e),
{
}

/// A packet is silent where the second bit of its flags is set; it is counted as one or the
/// other, once, and its samples are taken in only where it is not.
pub proof fn packets_are_counted_once(c: PacketCounts, flags: u32, has_data: bool)
    requires
        c.silent < u32::MAX,
        c.active < u32::MAX,
    ensures
        says_silent(flags) <==> flags & 2 != 0,
        counted(c, flags).silent + counted(c, flags).active == c.silent + c.active + 1,
        counted(c, flags).silent == c.silent + 1 <==> flags & 2 != 0,
        takes_samples(flags, has_data) ==> has_data && counted(c, flags).active == c.active + 1,
        has_data && flags & 2 == 0 ==> takes_samples(flags, has_data),
{
    assert((flags & 2 != 0) == (flags / 2 % 2 == 1)) by (bit_vector);
}

/// A marker changes nothing before it: windows that were recorded before it keep their
/// phase, and before the first marker the phase is the initial one.
pub proof fn earlier_windows_keep_their_phase(
    markers: Seq<(u32, Phase)>,
    windows: u32,
    phase: Phase,
    window: u32,
)
    requires
        window < windows,
        in_order_up_to(markers, windows),
    ensures
        phase_of(markers.push((windows, phase)), window) == phase_of(markers, window),
        phase_of(Seq::empty(), window) is Init,
{
    let all = markers.push((windows, phase));
    let k = markers_begun(markers, window);
    markers_begun_splits(markers, window);
    assert forall|i: int| 0 <= i < k implies (#[trigger] all[i]).0 <= window by {
        assert(all[i] == markers[i]);
    }
    if k < markers.len() {
        assert(all[k] == markers[k]);
    }
    markers_begun_are(all, window, k);
    if k > 0 {
        assert(all[k - 1] == markers[k - 1]);
    }
}

proof fn markers_begun_splits(markers: Seq<(u32, Phase)>, window: u32)
    ensures
        0 <= markers_begun(markers, window) <= markers.len(),
        forall|i: int|
            0 <= i < markers_begun(markers, window) ==> (#[trigger] markers[i]).0 <= window,
        markers_begun(markers, window) < markers.len() ==> window < markers[markers_begun(
            markers,
            window,
        )].0,
    decreases markers.len(),
{
    if markers.len() > 0 && window >= markers[0].0 {
        let rest = markers.skip(1);
        markers_begun_splits(rest, window);
        assert forall|i: int| 0 <= i < markers_begun(markers, window) implies (
        #[trigger] markers[i]).0 <= window by {
            if i > 0 {
                assert(rest[i - 1] == markers[i]);
            }
        }
    }
}

/// The columns of a row can be read back from it, at the tabs between them; the row ends
/// with a new line. Columns that hold a tab are left out.
pub proof fn rows_are_taken_apart_at_the_tabs(fields: Seq<Seq<char>>)
    requires
        fields.len() > 0,
        forall|i: int| 0 <= i < fields.len() ==> !(#[trigger] fields[i]).contains('\t'),
    ensures
        row_of(fields).len() > 0,
        row_of(fields).last() == '\n',
        crate::text::split(row_of(fields).drop_last(), '\t') == fields,
    decreases fields.len(),
{
    reveal_strlit("\t");
    reveal_strlit("\n");
    let first = fields[0];
    crate::text::separators_part_the_pieces(first, first, '\t');
    if fields.len() == 1 {
        assert(row_of(fields).drop_last() =~= first);
        assert(fields =~= seq![first]);
    } else {
        let rest = fields.skip(1);
        assert forall|i: int| 0 <= i < rest.len() implies !(#[trigger] rest[i]).contains('\t') by {
            assert(rest[i] == fields[i + 1]);
        }
        rows_are_taken_apart_at_the_tabs(rest);
        let tail = row_of(rest);
        assert(row_of(fields).drop_last() =~= first + seq!['\t'] + tail.drop_last());
        pieces_follow_the_first(first, tail.drop_last());
        assert(seq![first] + rest =~= fields);
    }
}

proof fn pieces_follow_the_first(first: Seq<char>, rest: Seq<char>)
    requires
        !first.contains('\t'),
    ensures
        crate::text::split(first + seq!['\t'] + rest, '\t') == seq![first] + crate::text::split(
            rest,
            '\t',
        ),
    decreases rest.len(),
{
    let all = first + seq!['\t'] + rest;
    let none = Seq::<char>::empty();
    if rest.len() == 0 {
        crate::text::separators_part_the_pieces(first, none, '\t');
        assert(all =~= first.push('\t') + none);
        crate::text::separators_part_the_pieces(first, first, '\t');
        assert(rest =~= none);
        assert(crate::text::split(all, '\t') =~= seq![first] + seq![none]);
    } else {
        let shorter = rest.drop_last();
        pieces_follow_the_first(first, shorter);
        assert(all.drop_last() =~= first + seq!['\t'] + shorter);
        assert(all.last() == rest.last());
        crate::text::split_is_not_empty(shorter, '\t');
        let pieces = crate::text::split(shorter, '\t');
        let whole = seq![first] + pieces;
        if rest.last() == '\t' {
            assert(whole.push(none) =~= seq![first] + pieces.push(none));
        } else {
            assert(whole.drop_last() =~= seq![first] + pieces.drop_last());
            assert(whole.last() == pieces.last());
            assert(whole.drop_last().push(whole.last().push(rest.last())) =~= seq![first]
                + pieces.drop_last().push(pieces.last().push(rest.last())));
        }
    }
}

/// Each reason for which no microphone is selected, or a recording fails, is told in its
/// own words.
pub proof fn failures_are_told_in_their_own_words(s: SelectError, c: CaptureError)
    ensures
        selection_failed(s) == "cannot enumerate capture devices"@ <==> s is CannotEnumerate,
        selection_failed(s) == "cannot count capture devices"@ <==> s is CannotCount,
        selection_failed(s) == "no active capture devices"@ <==> s is NoneActive,
        selection_failed(s) == "no usable capture device"@ <==> s is NoneUsable,
        recording_failed(c) == "audio client activate failed"@ <==> c is Activate,
        recording_failed(c) == "GetMixFormat failed"@ <==> c is MixFormat,
        recording_failed(c) == "unsupported audio format"@ <==> c is Format,
        recording_failed(c) == "audio init failed"@ <==> c is Initialize,
        recording_failed(c) == "no capture service"@ <==> c is Service,
        recording_failed(c) == "capture start failed"@ <==> c is Start,
        recording_failed(c) == "GetNextPacketSize failed"@ <==> c is NextPacket,
        recording_failed(c) == "GetBuffer failed"@ <==> c is GetBuffer,
{
    reveal_strlit("cannot enumerate capture devices");
    reveal_strlit("cannot count capture devices");
    reveal_strlit("no active capture devices");
    reveal_strlit("no usable capture device");
    assert("cannot enumerate capture devices"@.len() == 32 && "cannot enumerate capture devices"@[0] == 'c');
    assert("cannot count capture devices"@.len() == 28 && "cannot count capture devices"@[0] == 'c');
    assert("no active capture devices"@.len() == 25 && "no active capture devices"@[0] == 'n');
    assert("no usable capture device"@.len() == 24 && "no usable capture device"@[0] == 'n');
    reveal_strlit("audio client activate failed");
    reveal_strlit("GetMixFormat failed");
    reveal_strlit("unsupported audio format");
    reveal_strlit("audio init failed");
    reveal_strlit("no capture service");
    reveal_strlit("capture start failed");
    reveal_strlit("GetNextPacketSize failed");
    reveal_strlit("GetBuffer failed");
    assert("audio client activate failed"@.len() == 28 && "audio client activate failed"@[0] == 'a');
    assert("GetMixFormat failed"@.len() == 19 && "GetMixFormat failed"@[0] == 'G');
    assert("unsupported audio format"@.len() == 24 && "unsupported audio format"@[0] == 'u');
    assert("audio init failed"@.len() == 17 && "audio init failed"@[0] == 'a');
    assert("no capture service"@.len() == 18 && "no capture service"@[0] == 'n');
    assert("capture start failed"@.len() == 20 && "capture start failed"@[0] == 'c');
    assert("GetNextPacketSize failed"@.len() == 24 && "GetNextPacketSize failed"@[0] == 'G');
    assert("GetBuffer failed"@.len() == 16 && "GetBuffer failed"@[0] == 'G');
}

/// A microphone without a name is called by its number, and so told from the others; one
/// with a name by that. Rows are numbered without a gap, from zero.
pub proof fn nameless_microphones_are_numbered(name: Seq<char>, i: int, j: int, last: u32)
    requires
        0 <= i,
        0 <= j,
    ensures
        name_of_device(Some(name), i) == name,
        name_of_device(None, i) == name_of_device(None, j) ==> i == j,
        row_after(None) == 0,
        row_after(Some(last)) == last + 1,
{
    if name_of_device(None, i) == name_of_device(None, j) {
        let n = "Unknown Device "@.len() as int;
        let a = crate::text::decimal(i);
        let b = crate::text::decimal(j);
        assert(name_of_device(None, i).skip(n) =~= a);
        assert(name_of_device(None, j).skip(n) =~= b);
        crate::text::decimals_are_read_back(i);
        crate::text::decimals_are_read_back(j);
    }
}

/// A marker is told by its window and the name of its phase, and the markers in their
/// order. The head of a table tells when it was made, how, and with which gain.
pub proof fn markers_are_told_in_their_order(
    markers: Seq<(u32, Phase)>,
    next: (u32, Phase),
    stamp: Seq<char>,
    raw: bool,
    gain: Seq<char>,
)
    ensures
        marker_texts(markers.push(next)) == marker_texts(markers) + (" "@ + crate::text::decimal(
            next.0 as int,
        ) + "="@ + crate::measure::phase_name(next.1)),
        marker_texts(Seq::empty()).len() == 0,
        crate::text::occurs_in(
            stamp + "\n# raw="@ + (if raw {
                "true"@
            } else {
                "false"@
            }) + " mic_gain="@ + gain + "\n# markers:"@ + marker_texts(markers),
            table_head_of(stamp, raw, gain, markers),
        ),
{
    assert(markers.push(next).drop_last() =~= markers);
    let part = stamp + "\n# raw="@ + (if raw {
        "true"@
    } else {
        "false"@
    }) + " mic_gain="@ + gain + "\n# markers:"@ + marker_texts(markers);
    let head = "# stress-cal continuous "@;
    let tail =
        "\nwindow\ttime_s\tphase\tpower\tpower_dbfs\tcentroid_hz\tpeak_freq_hz\tpeak_mag\tmoving\ttonal_power\tnoise_power\n"@;
    assert(table_head_of(stamp, raw, gain, markers) =~= head + part + tail);
    crate::text::what_stands_between_occurs(head, part, tail);
}

} // verus!
