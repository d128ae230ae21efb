//! The recording of a debug run: a WAV file of single-precision samples, with a cue
//! and a label for each phase.

use vstd::prelude::*;

use crate::bytes::{push_all, push_le};
use crate::meter::HOP;

verus! {

/// Where a phase begins, and what it is called.
pub struct Marker {
    pub window: u32,
    pub label: Vec<u8>,
}

/// A chunk of a RIFF file: its name, its length, and what it holds, padded to an even
/// length.
#[verifier::opaque]
pub open spec fn chunk(id: Seq<u8>, payload: Seq<u8>) -> Seq<u8> {
    id + crate::bytes::le(payload.len() as int, 4) + payload + if payload.len() % 2 == 1 {
        seq![0u8]
    } else {
        Seq::empty()
    }
}

pub open spec fn riff_id() -> Seq<u8> {
    seq![0x52, 0x49, 0x46, 0x46]
}

pub open spec fn wave_id() -> Seq<u8> {
    seq![0x57, 0x41, 0x56, 0x45]
}

pub open spec fn fmt_id() -> Seq<u8> {
    seq![0x66, 0x6D, 0x74, 0x20]
}

pub open spec fn data_id() -> Seq<u8> {
    seq![0x64, 0x61, 0x74, 0x61]
}

pub open spec fn cue_id() -> Seq<u8> {
    seq![0x63, 0x75, 0x65, 0x20]
}

pub open spec fn list_id() -> Seq<u8> {
    seq![0x4C, 0x49, 0x53, 0x54]
}

pub open spec fn adtl_id() -> Seq<u8> {
    seq![0x61, 0x64, 0x74, 0x6C]
}

pub open spec fn labl_id() -> Seq<u8> {
    seq![0x6C, 0x61, 0x62, 0x6C]
}

/// The format: single-precision numbers, one channel.
pub open spec fn fmt_payload(rate: int) -> Seq<u8> {
    crate::bytes::le(3, 2) + crate::bytes::le(1, 2) + crate::bytes::le(rate, 4) + crate::bytes::le(
        rate * 4,
        4,
    ) + crate::bytes::le(4, 2) + crate::bytes::le(32, 2)
}

/// The samples.
pub open spec fn data_payload(samples: Seq<u32>) -> Seq<u8>
    decreases samples.len(),
{
    if samples.len() == 0 {
        Seq::empty()
    } else {
        data_payload(samples.drop_last()) + crate::bytes::le(samples.last() as int, 4)
    }
}

/// A cue: its number, and twice the sample at which it stands.
pub open spec fn cue_entry(id: int, window: int) -> Seq<u8> {
    crate::bytes::le(id, 4) + crate::bytes::le(window * HOP, 4) + data_id() + crate::bytes::le(0, 4)
        + crate::bytes::le(0, 4) + crate::bytes::le(window * HOP, 4)
}

/// The cues of the first markers, numbered from 1.
pub open spec fn cue_entries(markers: Seq<Marker>) -> Seq<u8>
    decreases markers.len(),
{
    if markers.len() == 0 {
        Seq::empty()
    } else {
        cue_entries(markers.drop_last()) + cue_entry(
            markers.len() as int,
            markers.last().window as int,
        )
    }
}

/// What a label holds: the number of its cue, and its text up to a zero.
pub open spec fn label_payload(id: int, label: Seq<u8>) -> Seq<u8> {
    crate::bytes::le(id, 4) + label + seq![0u8]
}

/// The labels of the first markers, numbered from 1.
pub open spec fn label_entries(markers: Seq<Marker>) -> Seq<u8>
    decreases markers.len(),
{
    if markers.len() == 0 {
        Seq::empty()
    } else {
        label_entries(markers.drop_last()) + chunk(
            labl_id(),
            label_payload(markers.len() as int, markers.last().label@),
        )
    }
}

/// What the cue chunk holds.
pub open spec fn cue_payload(markers: Seq<Marker>) -> Seq<u8> {
    crate::bytes::le(markers.len() as int, 4) + cue_entries(markers)
}

/// What the list of labels holds.
pub open spec fn list_payload(markers: Seq<Marker>) -> Seq<u8> {
    adtl_id() + label_entries(markers)
}

/// What stands in the file behind its kind.
pub open spec fn wave_chunks(samples: Seq<u32>, rate: int, markers: Seq<Marker>) -> Seq<u8> {
    chunk(fmt_id(), fmt_payload(rate)) + chunk(data_id(), data_payload(samples)) + if markers.len()
        == 0 {
        Seq::empty()
    } else {
        chunk(cue_id(), cue_payload(markers)) + chunk(list_id(), list_payload(markers))
    }
}

/// The file.
pub open spec fn wav_file(samples: Seq<u32>, rate: int, markers: Seq<Marker>) -> Seq<u8> {
    chunk(riff_id(), wave_id() + wave_chunks(samples, rate, markers))
}

/// Whether all lengths and positions fit their fields.
pub open spec fn wav_fits(samples: Seq<u32>, rate: int, markers: Seq<Marker>) -> bool {
    &&& rate * 4 <= u32::MAX
    &&& wav_file(samples, rate, markers).len() <= u32::MAX
    &&& forall|i: int|
        0 <= i < markers.len() ==> (#[trigger] markers[i]).window * HOP <= u32::MAX
}

proof fn le_width_4(n: int)
    ensures
        crate::bytes::le(n, 4).len() == 4,
{
    crate::bytes::le_has_its_width(n, 4);
}

proof fn data_len(samples: Seq<u32>)
    ensures
        data_payload(samples).len() == 4 * samples.len(),
    decreases samples.len(),
{
    if samples.len() > 0 {
        data_len(samples.drop_last());
        le_width_4(samples.last() as int);
    }
}

proof fn cue_entry_len(id: int, window: int)
    ensures
        cue_entry(id, window).len() == 24,
{
    le_width_4(id);
    le_width_4(window * HOP);
    le_width_4(0);
}

proof fn cues_len(markers: Seq<Marker>)
    ensures
        cue_entries(markers).len() == 24 * markers.len(),
    decreases markers.len(),
{
    if markers.len() > 0 {
        cues_len(markers.drop_last());
        cue_entry_len(markers.len() as int, markers.last().window as int);
    }
}

proof fn chunk_len(id: Seq<u8>, payload: Seq<u8>)
    requires
        id.len() == 4,
    ensures
        chunk(id, payload).len() == 8 + payload.len() + payload.len() % 2,
        chunk(id, payload).len() % 2 == 0,
{
    reveal(chunk);
    le_width_4(payload.len() as int);
}

proof fn labels_are_even(markers: Seq<Marker>)
    ensures
        label_entries(markers).len() % 2 == 0,
    decreases markers.len(),
{
    if markers.len() > 0 {
        labels_are_even(markers.drop_last());
        chunk_len(
            labl_id(),
            label_payload(markers.len() as int, markers.last().label@),
        );
    }
}

proof fn label_len(id: int, label: Seq<u8>)
    ensures
        label_payload(id, label).len() == label.len() + 5,
{
    le_width_4(id);
}

proof fn fmt_len(rate: int)
    ensures
        fmt_payload(rate).len() == 16,
{
    crate::bytes::le_has_its_width(3, 2);
    crate::bytes::le_has_its_width(1, 2);
    crate::bytes::le_has_its_width(4, 2);
    crate::bytes::le_has_its_width(32, 2);
    le_width_4(rate);
    le_width_4(rate * 4);
}

proof fn first_labels_are_shorter(markers: Seq<Marker>, k: int)
    requires
        0 <= k <= markers.len(),
    ensures
        label_entries(markers.take(k)).len() <= label_entries(markers).len(),
    decreases markers.len() - k,
{
    if k < markers.len() {
        first_labels_are_shorter(markers, k + 1);
        let t = markers.take(k + 1);
        assert(t.drop_last() =~= markers.take(k));
    } else {
        assert(markers.take(k) =~= markers);
    }
}

/// The lengths of the parts of the file.
proof fn file_lengths(samples: Seq<u32>, rate: int, markers: Seq<Marker>)
    ensures
        wav_file(samples, rate, markers).len() == 44 + 4 * samples.len() + if markers.len() == 0 {
            0
        } else {
            24 + 24 * markers.len() + label_entries(markers).len()
        },
        (wave_id() + wave_chunks(samples, rate, markers)).len() == wav_file(
            samples,
            rate,
            markers,
        ).len() - 8,
        (wave_id() + wave_chunks(samples, rate, markers)).len() % 2 == 0,
{
    let f = chunk(fmt_id(), fmt_payload(rate));
    let d = chunk(data_id(), data_payload(samples));
    let c = chunk(cue_id(), cue_payload(markers));
    let l = chunk(list_id(), list_payload(markers));
    assert(f.len() == 24) by {
        fmt_len(rate);
        chunk_len(fmt_id(), fmt_payload(rate));
    }
    assert(d.len() == 8 + 4 * samples.len()) by {
        data_len(samples);
        chunk_len(data_id(), data_payload(samples));
    }
    assert(c.len() == 12 + 24 * markers.len()) by {
        cues_len(markers);
        le_width_4(markers.len() as int);
        chunk_len(cue_id(), cue_payload(markers));
    }
    assert(l.len() == 12 + label_entries(markers).len()) by {
        labels_are_even(markers);
        chunk_len(list_id(), list_payload(markers));
    }
    labels_are_even(markers);
    let body = wave_id() + wave_chunks(samples, rate, markers);
    assert(body.len() == 36 + 4 * samples.len() + if markers.len() == 0 {
        0
    } else {
        24 + 24 * markers.len() + label_entries(markers).len()
    });
    chunk_len(riff_id(), body);
}

/// Appends the name of a chunk and the length of what it holds.
fn push_head(out: &mut Vec<u8>, a: u8, b: u8, c: u8, d: u8, len: u32)
    ensures
        final(out)@ == old(out)@ + (seq![a, b, c, d] + crate::bytes::le(len as int, 4)),
{
    let ghost before = out@;
    out.push(a);
    out.push(b);
    out.push(c);
    out.push(d);
    push_le(out, len as u64, 4);
    assert(out@ =~= before + (seq![a, b, c, d] + crate::bytes::le(len as int, 4)));
}

/// The labels of the markers.
fn labels(markers: &Vec<Marker>) -> (out: Vec<u8>)
    requires
        label_entries(markers@).len() <= u32::MAX,
        markers@.len() <= u32::MAX,
    ensures
        out@ == label_entries(markers@),
{
    let mut out: Vec<u8> = Vec::new();
    let mut i: usize = 0;
    assert(markers@.take(0) =~= Seq::<Marker>::empty());
    while i < markers.len()
        invariant
            i <= markers@.len() <= u32::MAX,
            label_entries(markers@).len() <= u32::MAX,
            out@ == label_entries(markers@.take(i as int)),
        decreases markers@.len() - i,
    {
        let ghost before = out@;
        let ghost id = i + 1;
        let ghost text = markers@[i as int].label@;
        let ghost payload = label_payload(id, text);
        proof {
            first_labels_are_shorter(markers@, i + 1);
            let t = markers@.take(i + 1);
            assert(t.drop_last() =~= markers@.take(i as int));
            assert(t.last() == markers@[i as int]);
            chunk_len(labl_id(), payload);
            label_len(id, text);
        }
        let size: u32 = (markers[i].label.len() + 5) as u32;
        push_head(&mut out, 0x6C, 0x61, 0x62, 0x6C, size);
        push_le(&mut out, (i + 1) as u64, 4);
        push_all(&mut out, markers[i].label.as_slice());
        out.push(0);
        if size % 2 != 0 {
            out.push(0);
        }
        assert(out@ =~= before + chunk(labl_id(), payload)) by {
            reveal(chunk);
        }
        i = i + 1;
    }
    assert(markers@.take(markers@.len() as int) =~= markers@);
    out
}

/// Appends the cues of the markers.
fn push_cues(out: &mut Vec<u8>, markers: &Vec<Marker>)
    requires
        markers@.len() <= u32::MAX,
        forall|i: int|
            0 <= i < markers@.len() ==> (#[trigger] markers@[i]).window * HOP <= u32::MAX,
    ensures
        final(out)@ == old(out)@ + cue_entries(markers@),
{
    let ghost start = out@;
    let mut i: usize = 0;
    assert(markers@.take(0) =~= Seq::<Marker>::empty());
    while i < markers.len()
        invariant
            i <= markers@.len() <= u32::MAX,
            forall|k: int|
                0 <= k < markers@.len() ==> (#[trigger] markers@[k]).window * HOP <= u32::MAX,
            out@ == start + cue_entries(markers@.take(i as int)),
        decreases markers@.len() - i,
    {
        let ghost before = out@;
        proof {
            let t = markers@.take(i + 1);
            assert(t.drop_last() =~= markers@.take(i as int));
            assert(t.last() == markers@[i as int]);
        }
        let pos: u64 = markers[i].window as u64 * HOP as u64;
        push_le(out, (i + 1) as u64, 4);
        push_le(out, pos, 4);
        out.push(0x64);
        out.push(0x61);
        out.push(0x74);
        out.push(0x61);
        push_le(out, 0, 4);
        push_le(out, 0, 4);
        push_le(out, pos, 4);
        assert(out@ =~= before + cue_entry(i + 1, markers@[i as int].window as int));
        i = i + 1;
    }
    assert(markers@.take(markers@.len() as int) =~= markers@);
}

/// Appends the samples.
fn push_samples(out: &mut Vec<u8>, samples: &[u32])
    ensures
        final(out)@ == old(out)@ + data_payload(samples@),
{
    let ghost start = out@;
    let mut i: usize = 0;
    assert(samples@.take(0) =~= Seq::<u32>::empty());
    while i < samples.len()
        invariant
            i <= samples@.len(),
            out@ == start + data_payload(samples@.take(i as int)),
        decreases samples@.len() - i,
    {
        let ghost before = out@;
        push_le(out, samples[i] as u64, 4);
        proof {
            let t = samples@.take(i + 1);
            assert(t.drop_last() =~= samples@.take(i as int));
            assert(t.last() == samples@[i as int]);
            assert(out@ =~= start + data_payload(t));
        }
        i = i + 1;
    }
    assert(samples@.take(samples@.len() as int) =~= samples@);
}

/// The file of a recording, or nothing where there are no samples.
#[verifier::rlimit(50)]
pub fn write_debug_wav(samples: &[u32], sample_rate: u32, markers: &Vec<Marker>) -> (r: Option<
    Vec<u8>,
>)
    requires
        wav_fits(samples@, sample_rate as int, markers@),
    ensures
        match r {
            Some(out) => samples@.len() > 0 && out@ == wav_file(
                samples@,
                sample_rate as int,
                markers@,
            ),
            None => samples@.len() == 0,
        },
{
    if samples.len() == 0 {
        return None;
    }
    let ghost rate = sample_rate as int;
    proof {
        file_lengths(samples@, rate, markers@);
        fmt_len(rate);
        data_len(samples@);
        cues_len(markers@);
        labels_are_even(markers@);
        le_width_4(markers@.len() as int);
        first_labels_are_shorter(markers@, 0);
        chunk_len(fmt_id(), fmt_payload(rate));
        chunk_len(data_id(), data_payload(samples@));
        chunk_len(cue_id(), cue_payload(markers@));
        chunk_len(list_id(), list_payload(markers@));
    }
    let data_size: u32 = (samples.len() * 4) as u32;
    let label_data: Vec<u8> = if markers.len() > 0 {
        labels(markers)
    } else {
        Vec::new()
    };
    let marker_size: u32 = if markers.len() > 0 {
        (24 + 24 * markers.len() + label_data.len()) as u32
    } else {
        0
    };
    let mut out: Vec<u8> = Vec::new();
    push_head(&mut out, 0x52, 0x49, 0x46, 0x46, 36 + data_size + marker_size);
    out.push(0x57);
    out.push(0x41);
    out.push(0x56);
    out.push(0x45);
    let ghost head = out@;
    assert(head =~= riff_id() + crate::bytes::le(36 + data_size + marker_size, 4) + wave_id());
    push_head(&mut out, 0x66, 0x6D, 0x74, 0x20, 16);
    push_le(&mut out, 3, 2);
    push_le(&mut out, 1, 2);
    push_le(&mut out, sample_rate as u64, 4);
    push_le(&mut out, sample_rate as u64 * 4, 4);
    push_le(&mut out, 4, 2);
    push_le(&mut out, 32, 2);
    assert(out@ =~= head + chunk(fmt_id(), fmt_payload(rate))) by {
        reveal(chunk);
    }
    let ghost with_fmt = out@;
    push_head(&mut out, 0x64, 0x61, 0x74, 0x61, data_size);
    push_samples(&mut out, samples);
    assert(out@ =~= with_fmt + chunk(data_id(), data_payload(samples@))) by {
        reveal(chunk);
    }
    let ghost with_data = out@;
    if markers.len() > 0 {
        push_head(&mut out, 0x63, 0x75, 0x65, 0x20, (4 + 24 * markers.len()) as u32);
        push_le(&mut out, markers.len() as u64, 4);
        push_cues(&mut out, markers);
        assert(out@ =~= with_data + chunk(cue_id(), cue_payload(markers@))) by {
            reveal(chunk);
        }
        let ghost with_cues = out@;
        push_head(&mut out, 0x4C, 0x49, 0x53, 0x54, (4 + label_data.len()) as u32);
        out.push(0x61);
        out.push(0x64);
        out.push(0x74);
        out.push(0x6C);
        push_all(&mut out, label_data.as_slice());
        assert(out@ =~= with_cues + chunk(list_id(), list_payload(markers@))) by {
            reveal(chunk);
        }
    }
    assert(out@ =~= wav_file(samples@, rate, markers@)) by {
        reveal(chunk);
    }
    Some(out)
}

/// The format of integer samples: sixteen bits, one channel.
pub open spec fn pcm_payload(rate: int) -> Seq<u8> {
    crate::bytes::le(1, 2) + crate::bytes::le(1, 2) + crate::bytes::le(rate, 4) + crate::bytes::le(
        rate * 2,
        4,
    ) + crate::bytes::le(2, 2) + crate::bytes::le(16, 2)
}

/// Integer samples.
pub open spec fn pcm_data(samples: Seq<i16>) -> Seq<u8>
    decreases samples.len(),
{
    if samples.len() == 0 {
        Seq::empty()
    } else {
        pcm_data(samples.drop_last()) + crate::bytes::le(samples.last() as int, 2)
    }
}

/// A file of integer samples.
pub open spec fn pcm_file(samples: Seq<i16>, rate: int) -> Seq<u8> {
    chunk(
        riff_id(),
        wave_id() + chunk(fmt_id(), pcm_payload(rate)) + chunk(data_id(), pcm_data(samples)),
    )
}

proof fn pcm_len(samples: Seq<i16>)
    ensures
        pcm_data(samples).len() == 2 * samples.len(),
    decreases samples.len(),
{
    if samples.len() > 0 {
        pcm_len(samples.drop_last());
        crate::bytes::le_has_its_width(samples.last() as int, 2);
    }
}

proof fn pcm_fmt_len(rate: int)
    ensures
        pcm_payload(rate).len() == 16,
{
    crate::bytes::le_has_its_width(1, 2);
    crate::bytes::le_has_its_width(2, 2);
    crate::bytes::le_has_its_width(16, 2);
    le_width_4(rate);
    le_width_4(rate * 2);
}

/// The file of a recording with integer samples.
#[verifier::rlimit(30)]
pub fn write_wav(samples: &[i16], sample_rate: u32) -> (out: Vec<u8>)
    requires
        sample_rate * 2 <= u32::MAX,
        44 + 2 * samples@.len() <= u32::MAX,
    ensures
        out@ == pcm_file(samples@, sample_rate as int),
{
    let ghost rate = sample_rate as int;
    proof {
        pcm_len(samples@);
        pcm_fmt_len(rate);
        chunk_len(fmt_id(), pcm_payload(rate));
        chunk_len(data_id(), pcm_data(samples@));
    }
    let data_size: u32 = (samples.len() * 2) as u32;
    let mut out: Vec<u8> = Vec::new();
    push_head(&mut out, 0x52, 0x49, 0x46, 0x46, 36 + data_size);
    out.push(0x57);
    out.push(0x41);
    out.push(0x56);
    out.push(0x45);
    let ghost head = out@;
    assert(head =~= riff_id() + crate::bytes::le(36 + data_size, 4) + wave_id());
    push_head(&mut out, 0x66, 0x6D, 0x74, 0x20, 16);
    push_le(&mut out, 1, 2);
    push_le(&mut out, 1, 2);
    push_le(&mut out, sample_rate as u64, 4);
    push_le(&mut out, sample_rate as u64 * 2, 4);
    push_le(&mut out, 2, 2);
    push_le(&mut out, 16, 2);
    assert(out@ =~= head + chunk(fmt_id(), pcm_payload(rate))) by {
        reveal(chunk);
    }
    let ghost with_fmt = out@;
    push_head(&mut out, 0x64, 0x61, 0x74, 0x61, data_size);
    let ghost with_head = out@;
    let mut i: usize = 0;
    assert(samples@.take(0) =~= Seq::<i16>::empty());
    while i < samples.len()
        invariant
            i <= samples@.len(),
            out@ == with_head + pcm_data(samples@.take(i as int)),
        decreases samples@.len() - i,
    {
        let s: i16 = samples[i];
        let unsigned: u64 = if s < 0 {
            (s as i32 + 65536) as u64
        } else {
            s as u64
        };
        push_le(&mut out, unsigned, 2);
        proof {
            reveal_with_fuel(crate::bytes::le, 3);
            assert(crate::bytes::le(unsigned as int, 2) =~= crate::bytes::le(s as int, 2));
            let t = samples@.take(i + 1);
            assert(t.drop_last() =~= samples@.take(i as int));
            assert(t.last() == s);
            assert(out@ =~= with_head + pcm_data(t));
        }
        i = i + 1;
    }
    assert(samples@.take(samples@.len() as int) =~= samples@);
    assert(out@ =~= with_fmt + chunk(data_id(), pcm_data(samples@))) by {
        reveal(chunk);
    }
    assert(out@ =~= pcm_file(samples@, rate)) by {
        reveal(chunk);
    }
    out
}

/// The chunks that bytes hold, each with its name and what it holds.
pub open spec fn chunks(b: Seq<u8>) -> Seq<(Seq<u8>, Seq<u8>)>
    decreases b.len(),
{
    if b.len() < 8 {
        Seq::empty()
    } else {
        let size = crate::bytes::from_le(b.subrange(4, 8));
        let end = if 8 + size < b.len() {
            8 + size
        } else {
            b.len() as int
        };
        let next = if 8 + size + size % 2 < b.len() {
            8 + size + size % 2
        } else {
            b.len() as int
        };
        proof {
            crate::bytes::from_le_is_in_range(b.subrange(4, 8));
        }
        seq![(b.take(4), b.subrange(8, end))] + chunks(b.skip(next))
    }
}

/// A chunk is read as what was written, and so is what follows it.
proof fn chunks_are_read(id: Seq<u8>, payload: Seq<u8>, rest: Seq<u8>)
    requires
        id.len() == 4,
        payload.len() <= u32::MAX,
    ensures
        chunks(chunk(id, payload) + rest) == seq![(id, payload)] + chunks(rest),
{
    let b = chunk(id, payload) + rest;
    let n = payload.len() as int;
    crate::bytes::common_ranges();
    crate::bytes::le_round_trips(n, 4);
    chunk_len(id, payload);
    assert(b.take(4) =~= id && b.subrange(4, 8) =~= crate::bytes::le(n, 4) && b.subrange(8, 8 + n)
        =~= payload) by {
        reveal(chunk);
    }
    assert(b.skip(8 + n + n % 2) =~= rest);
    let next = if 8 + n + n % 2 < b.len() {
        8 + n + n % 2
    } else {
        b.len() as int
    };
    assert(next == 8 + n + n % 2);
}

/// The samples are read back.
proof fn samples_are_read(samples: Seq<u32>, i: int)
    requires
        0 <= i < samples.len(),
    ensures
        crate::bytes::from_le(data_payload(samples).subrange(4 * i, 4 * i + 4)) == samples[i],
    decreases samples.len(),
{
    let rest = samples.drop_last();
    let all = data_payload(samples);
    data_len(rest);
    data_len(samples);
    if i < rest.len() {
        samples_are_read(rest, i);
        assert(all.subrange(4 * i, 4 * i + 4) =~= data_payload(rest).subrange(4 * i, 4 * i + 4));
    } else {
        crate::bytes::common_ranges();
        crate::bytes::le_round_trips(samples.last() as int, 4);
        assert(all.subrange(4 * i, 4 * i + 4) =~= crate::bytes::le(samples.last() as int, 4));
    }
}

/// The cues are read back: the number, and the sample.
proof fn cues_are_read(markers: Seq<Marker>, i: int)
    requires
        0 <= i < markers.len() <= u32::MAX,
        markers[i].window * HOP <= u32::MAX,
    ensures
        crate::bytes::from_le(cue_entries(markers).subrange(24 * i, 24 * i + 4)) == i + 1,
        crate::bytes::from_le(cue_entries(markers).subrange(24 * i + 20, 24 * i + 24))
            == markers[i].window * HOP,
    decreases markers.len(),
{
    let rest = markers.drop_last();
    let all = cue_entries(markers);
    cues_len(rest);
    cues_len(markers);
    if i < rest.len() {
        cues_are_read(rest, i);
        assert(all.subrange(24 * i, 24 * i + 4) =~= cue_entries(rest).subrange(
            24 * i,
            24 * i + 4,
        ));
        assert(all.subrange(24 * i + 20, 24 * i + 24) =~= cue_entries(rest).subrange(
            24 * i + 20,
            24 * i + 24,
        ));
    } else {
        let pos = markers.last().window * HOP;
        let entry = cue_entry(i + 1, markers.last().window as int);
        crate::bytes::common_ranges();
        crate::bytes::le_round_trips(i + 1, 4);
        crate::bytes::le_round_trips(pos, 4);
        le_width_4(0);
        cue_entry_len(i + 1, markers.last().window as int);
        assert(entry.subrange(0, 4) =~= crate::bytes::le(i + 1, 4));
        assert(entry.subrange(20, 24) =~= crate::bytes::le(pos, 4));
        assert(all.subrange(24 * i, 24 * i + 4) =~= entry.subrange(0, 4));
        assert(all.subrange(24 * i + 20, 24 * i + 24) =~= entry.subrange(20, 24));
    }
}

/// The labels, each with its name and what it holds.
pub open spec fn label_chunks(markers: Seq<Marker>) -> Seq<(Seq<u8>, Seq<u8>)> {
    Seq::new(
        markers.len(),
        |k: int| (labl_id(), label_payload(k + 1, markers[k].label@)),
    )
}

proof fn labels_are_read(markers: Seq<Marker>, rest: Seq<u8>)
    requires
        label_entries(markers).len() <= u32::MAX,
    ensures
        chunks(label_entries(markers) + rest) == label_chunks(markers) + chunks(rest),
    decreases markers.len(),
{
    if markers.len() == 0 {
        assert(label_entries(markers) + rest =~= rest);
        assert(label_chunks(markers) + chunks(rest) =~= chunks(rest));
    } else {
        let before = markers.drop_last();
        let payload = label_payload(markers.len() as int, markers.last().label@);
        let one = chunk(labl_id(), payload);
        chunk_len(labl_id(), payload);
        labels_are_read(before, one + rest);
        chunks_are_read(labl_id(), payload, rest);
        assert(label_entries(markers) + rest =~= label_entries(before) + (one + rest));
        assert(label_chunks(markers) + chunks(rest) =~= label_chunks(before) + (seq![
            (labl_id(), payload),
        ] + chunks(rest)));
    }
}

/// The file is read as what was written: one chunk, whose length is that of the file,
/// with the format and the samples, and where there are markers the cues and the
/// labels.
pub proof fn recordings_are_read_back(samples: Seq<u32>, rate: int, markers: Seq<Marker>)
    requires
        0 <= rate,
        wav_fits(samples, rate, markers),
    ensures
        chunks(wav_file(samples, rate, markers)) == seq![
            (riff_id(), wave_id() + wave_chunks(samples, rate, markers)),
        ],
        chunks(wave_chunks(samples, rate, markers)) == seq![
            (fmt_id(), fmt_payload(rate)),
            (data_id(), data_payload(samples)),
        ] + if markers.len() == 0 {
            Seq::empty()
        } else {
            seq![(cue_id(), cue_payload(markers)), (list_id(), list_payload(markers))]
        },
        chunks(label_entries(markers)) == label_chunks(markers),
{
    let none = Seq::<u8>::empty();
    let body = wave_id() + wave_chunks(samples, rate, markers);
    file_lengths(samples, rate, markers);
    assert(chunks(none) =~= Seq::<(Seq<u8>, Seq<u8>)>::empty());
    assert(wav_file(samples, rate, markers) + none =~= wav_file(samples, rate, markers));
    chunks_are_read(riff_id(), body, none);
    let f = chunk(fmt_id(), fmt_payload(rate));
    let d = chunk(data_id(), data_payload(samples));
    let c = chunk(cue_id(), cue_payload(markers));
    let l = chunk(list_id(), list_payload(markers));
    fmt_len(rate);
    data_len(samples);
    cues_len(markers);
    le_width_4(markers.len() as int);
    if markers.len() == 0 {
        assert(wave_chunks(samples, rate, markers) =~= f + (d + none));
        chunks_are_read(data_id(), data_payload(samples), none);
        chunks_are_read(fmt_id(), fmt_payload(rate), d + none);
        assert(label_entries(markers) =~= none);
        assert(label_chunks(markers) =~= chunks(none));
    } else {
        assert(wave_chunks(samples, rate, markers) =~= f + (d + (c + (l + none))));
        chunks_are_read(list_id(), list_payload(markers), none);
        chunks_are_read(cue_id(), cue_payload(markers), l + none);
        chunks_are_read(data_id(), data_payload(samples), c + (l + none));
        chunks_are_read(fmt_id(), fmt_payload(rate), d + (c + (l + none)));
        labels_are_read(markers, none);
        assert(label_entries(markers) + none =~= label_entries(markers));
        assert(label_chunks(markers) + chunks(none) =~= label_chunks(markers));
    }
}

/// Whether cue `i` is read as that of the marker.
pub open spec fn reads_cue(markers: Seq<Marker>, i: int, m: Marker) -> bool {
    &&& crate::bytes::from_le(cue_entries(markers).subrange(24 * i, 24 * i + 4)) == i + 1
    &&& crate::bytes::from_le(cue_entries(markers).subrange(24 * i + 20, 24 * i + 24)) == m.window
        * HOP
}

/// The values are read back: the rate, each sample, and each cue with its number and
/// its sample.
pub proof fn recorded_values_are_read_back(samples: Seq<u32>, rate: int, markers: Seq<Marker>)
    requires
        0 <= rate,
        wav_fits(samples, rate, markers),
    ensures
        crate::bytes::from_le(fmt_payload(rate).subrange(4, 8)) == rate,
        forall|i: int|
            0 <= i < samples.len() ==> crate::bytes::from_le(
                data_payload(samples).subrange(4 * i, 4 * i + 4),
            ) == #[trigger] samples[i],
        forall|i: int|
            0 <= i < markers.len() ==> reads_cue(markers, i, #[trigger] markers[i]),
{
    file_lengths(samples, rate, markers);
    crate::bytes::common_ranges();
    crate::bytes::le_round_trips(rate, 4);
    crate::bytes::le_has_its_width(3, 2);
    crate::bytes::le_has_its_width(1, 2);
    assert(fmt_payload(rate).subrange(4, 8) =~= crate::bytes::le(rate, 4));
    assert forall|i: int| 0 <= i < samples.len() implies crate::bytes::from_le(
        data_payload(samples).subrange(4 * i, 4 * i + 4),
    ) == #[trigger] samples[i] by {
        samples_are_read(samples, i);
    }
    assert forall|i: int| 0 <= i < markers.len() implies reads_cue(
        markers,
        i,
        #[trigger] markers[i],
    ) by {
        cues_are_read(markers, i);
    }
}

/// The names of the chunks are those of the format.
pub proof fn chunks_have_their_names()
    ensures
        riff_id() == seq!['R' as u8, 'I' as u8, 'F' as u8, 'F' as u8],
        wave_id() == seq!['W' as u8, 'A' as u8, 'V' as u8, 'E' as u8],
        fmt_id() == seq!['f' as u8, 'm' as u8, 't' as u8, ' ' as u8],
        data_id() == seq!['d' as u8, 'a' as u8, 't' as u8, 'a' as u8],
        cue_id() == seq!['c' as u8, 'u' as u8, 'e' as u8, ' ' as u8],
        list_id() == seq!['L' as u8, 'I' as u8, 'S' as u8, 'T' as u8],
        adtl_id() == seq!['a' as u8, 'd' as u8, 't' as u8, 'l' as u8],
        labl_id() == seq!['l' as u8, 'a' as u8, 'b' as u8, 'l' as u8],
{
}

/// A field of a format: `n` bytes at `at`, low byte first.
pub open spec fn field(payload: Seq<u8>, at: int, n: int) -> int {
    crate::bytes::from_le(payload.subrange(at, at + n))
}

/// Whether a format says so: its tag, one channel, the rate, and the width of a sample in
/// bits, with a frame of as many bytes and as many bytes a second.
pub open spec fn says_format(payload: Seq<u8>, tag: int, rate: int, bits: int) -> bool {
    &&& payload.len() == 16
    &&& field(payload, 0, 2) == tag
    &&& field(payload, 2, 2) == 1
    &&& field(payload, 4, 4) == rate
    &&& 8 * field(payload, 8, 4) == rate * bits
    &&& 8 * field(payload, 12, 2) == bits
    &&& field(payload, 14, 2) == bits
}

/// The formats say what the samples are: single-precision numbers of 32 bits, or integers of
/// 16.
pub proof fn formats_say_what_the_samples_are(rate: int)
    requires
        0 <= rate,
        rate * 4 <= u32::MAX,
    ensures
        says_format(fmt_payload(rate), 3, rate, 32),
        says_format(pcm_payload(rate), 1, rate, 16),
{
    crate::bytes::common_ranges();
    fmt_len(rate);
    pcm_fmt_len(rate);
    crate::bytes::le_round_trips(3, 2);
    crate::bytes::le_round_trips(1, 2);
    crate::bytes::le_round_trips(2, 2);
    crate::bytes::le_round_trips(4, 2);
    crate::bytes::le_round_trips(16, 2);
    crate::bytes::le_round_trips(32, 2);
    crate::bytes::le_round_trips(rate, 4);
    crate::bytes::le_round_trips(rate * 4, 4);
    crate::bytes::le_round_trips(rate * 2, 4);
    crate::bytes::le_has_its_width(3, 2);
    crate::bytes::le_has_its_width(1, 2);
    crate::bytes::le_has_its_width(2, 2);
    crate::bytes::le_has_its_width(4, 2);
    crate::bytes::le_has_its_width(16, 2);
    crate::bytes::le_has_its_width(32, 2);
    le_width_4(rate);
    le_width_4(rate * 4);
    le_width_4(rate * 2);
    let f = fmt_payload(rate);
    assert(f.subrange(0, 2) =~= crate::bytes::le(3, 2));
    assert(f.subrange(2, 4) =~= crate::bytes::le(1, 2));
    assert(f.subrange(4, 8) =~= crate::bytes::le(rate, 4));
    assert(f.subrange(8, 12) =~= crate::bytes::le(rate * 4, 4));
    assert(f.subrange(12, 14) =~= crate::bytes::le(4, 2));
    assert(f.subrange(14, 16) =~= crate::bytes::le(32, 2));
    let p = pcm_payload(rate);
    assert(p.subrange(0, 2) =~= crate::bytes::le(1, 2));
    assert(p.subrange(2, 4) =~= crate::bytes::le(1, 2));
    assert(p.subrange(4, 8) =~= crate::bytes::le(rate, 4));
    assert(p.subrange(8, 12) =~= crate::bytes::le(rate * 2, 4));
    assert(p.subrange(12, 14) =~= crate::bytes::le(2, 2));
    assert(p.subrange(14, 16) =~= crate::bytes::le(16, 2));
}

/// Integer samples are read back, with their sign, and the file holds the format and the
/// samples.
pub proof fn integer_samples_are_read_back(samples: Seq<i16>, rate: int, i: int)
    requires
        0 <= rate,
        0 <= i < samples.len(),
        44 + 2 * samples.len() <= u32::MAX,
    ensures
        field(pcm_data(samples), 2 * i, 2) == if samples[i] < 0 {
            samples[i] + 0x10000
        } else {
            samples[i] as int
        },
        chunks(pcm_file(samples, rate)) == seq![
            (
                riff_id(),
                wave_id() + chunk(fmt_id(), pcm_payload(rate)) + chunk(
                    data_id(),
                    pcm_data(samples),
                ),
            ),
        ],
        chunks(chunk(fmt_id(), pcm_payload(rate)) + chunk(data_id(), pcm_data(samples))) == seq![
            (fmt_id(), pcm_payload(rate)),
            (data_id(), pcm_data(samples)),
        ],
{
    integers_are_read(samples, i);
    let none = Seq::<u8>::empty();
    let d = chunk(data_id(), pcm_data(samples));
    let f = chunk(fmt_id(), pcm_payload(rate));
    pcm_len(samples);
    pcm_fmt_len(rate);
    chunk_len(fmt_id(), pcm_payload(rate));
    chunk_len(data_id(), pcm_data(samples));
    assert(chunks(none) =~= Seq::<(Seq<u8>, Seq<u8>)>::empty());
    assert(d + none =~= d);
    chunks_are_read(data_id(), pcm_data(samples), none);
    chunks_are_read(fmt_id(), pcm_payload(rate), d);
    let body = wave_id() + f + d;
    assert(chunk(riff_id(), body) + none =~= chunk(riff_id(), body));
    chunks_are_read(riff_id(), body, none);
}

proof fn integers_are_read(samples: Seq<i16>, i: int)
    requires
        0 <= i < samples.len(),
    ensures
        field(pcm_data(samples), 2 * i, 2) == if samples[i] < 0 {
            samples[i] + 0x10000
        } else {
            samples[i] as int
        },
    decreases samples.len(),
{
    let rest = samples.drop_last();
    let all = pcm_data(samples);
    pcm_len(rest);
    pcm_len(samples);
    if i < rest.len() {
        integers_are_read(rest, i);
        assert(all.subrange(2 * i, 2 * i + 2) =~= pcm_data(rest).subrange(2 * i, 2 * i + 2));
    } else {
        let s = samples.last() as int;
        let n = if s < 0 {
            s + 0x10000
        } else {
            s
        };
        crate::bytes::common_ranges();
        crate::bytes::le_round_trips(n, 2);
        reveal_with_fuel(crate::bytes::le, 3);
        assert(crate::bytes::le(n, 2) =~= crate::bytes::le(s, 2));
        assert(all.subrange(2 * i, 2 * i + 2) =~= crate::bytes::le(s, 2));
    }
}

/// A cue stands at the first sample of its window, which is as many hops into the recording;
/// and its label has the same number.
pub proof fn cues_stand_at_their_window(markers: Seq<Marker>, i: int)
    requires
        0 <= i < markers.len() <= u32::MAX,
        markers[i].window * HOP <= u32::MAX,
    ensures
        field(cue_entries(markers), 24 * i, 4) == i + 1,
        field(cue_entries(markers), 24 * i + 20, 4) == markers[i].window * 2048,
        label_chunks(markers)[i].1.take(4) == crate::bytes::le(i + 1, 4),
        label_chunks(markers)[i].1.skip(4) == markers[i].label@ + seq![0u8],
{
    cues_are_read(markers, i);
    le_width_4(i + 1);
    let label = label_chunks(markers)[i].1;
    assert(label.take(4) =~= crate::bytes::le(i + 1, 4));
    assert(label.skip(4) =~= markers[i].label@ + seq![0u8]);
}

} // verus!
