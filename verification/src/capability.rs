//! Proof that the tool controls this hardware, and the report on it.
//!
//! There are two rungs. A read that succeeds shows that the interface answers. A
//! write that takes effect and is undone again shows control.

use vstd::prelude::*;
use vstd::string::*;

use crate::app::BIN_NAME;
use crate::calls::{carried, goes_on, since, Exchange, Line};
use crate::hwinfo::HwInfo;
use crate::mode::ThermalMode;
use crate::protocol::{status_ok, CMD_READ_THERMAL, CMD_SET_THERMAL};
use crate::text::{chars_of, push_hex};

verus! {

/// What has been shown so far. A read that failed is tried again, so only success
/// is kept; a write that failed is not, so that the fan is left alone.
#[derive(Clone, Copy, PartialEq, Eq, Structural, Debug)]
pub struct Proofs {
    pub read: bool,
    pub write: Option<bool>,
}

impl Proofs {
    /// Nothing has been shown yet.
    pub fn new() -> (p: Proofs)
        ensures
            p == (Proofs { read: false, write: None }),
    {
        Proofs { read: false, write: None }
    }
}

/// A response that says that the request succeeded.
pub open spec fn succeeded(resp: Option<[u8; 2]>) -> bool {
    resp matches Some(r) && crate::protocol::ok_status(r[0])
}

/// A response that says that the mode is `mode`.
pub open spec fn reports_mode(resp: Option<[u8; 2]>, mode: u8) -> bool {
    succeeded(resp) && resp->0[1] % 4 == mode
}

/// The mode that a response carries. Only the low two bits count, so that a stray
/// high bit cannot lead to a write out of range.
pub fn mode_of(resp: [u8; 2]) -> (m: u8)
    ensures
        m == resp[1] % 4,
{
    let v: u8 = resp[1];
    assert(v & 0x03 == v % 4) by (bit_vector);
    v & 0x03
}

fn is_success(resp: Option<[u8; 2]>) -> (r: bool)
    ensures
        r == succeeded(resp),
{
    match resp {
        Some(r) => status_ok(r[0]),
        None => false,
    }
}

fn is_mode(resp: Option<[u8; 2]>, mode: u8) -> (r: bool)
    ensures
        r == reports_mode(resp, mode),
{
    match resp {
        Some(r) => status_ok(r[0]) && mode_of(r) == mode,
        None => false,
    }
}

/// What the first rung does to the proofs, and what goes over the line for it: where
/// no read has succeeded yet, one is made, and `after` says whether it did; else
/// nothing is asked.
pub open spec fn read_rung(before: Proofs, after: Proofs, course: Seq<Exchange>) -> bool {
    if before.read {
        course.len() == 0 && after == before
    } else {
        &&& course.len() == 1
        &&& course[0].asks(CMD_READ_THERMAL, 0)
        &&& after == (Proofs { read: succeeded(course[0].answer), ..before })
    }
}

/// First rung: a read of the mode succeeds. Once it did, it is not repeated.
pub fn read_ok<F: Fn(u8, u8) -> Option<[u8; 2]>>(proofs: &mut Proofs, line: &mut Line<F>) -> (ok:
    bool)
    requires
        !old(proofs).read ==> old(line).transact().requires((CMD_READ_THERMAL, 0u8)),
    ensures
        final(line).transact() == old(line).transact(),
        goes_on(old(line).log(), final(line).log()),
        carried(old(line).transact(), since(old(line).log(), final(line).log())),
        read_rung(*old(proofs), *final(proofs), since(old(line).log(), final(line).log())),
        ok == final(proofs).read,
{
    let ghost start = line.log();
    if proofs.read {
        assert(start =~= start + since(start, start));
        return true;
    }
    let answer = line.ask(CMD_READ_THERMAL, 0);
    let ok = is_success(answer);
    if ok {
        proofs.read = true;
    }
    proof {
        let asked = Exchange { command: CMD_READ_THERMAL, payload: 0, answer };
        assert(since(start, line.log()) =~= seq![asked]);
        assert(line.log() =~= start + since(start, line.log()));
    }
    ok
}

/// The mode that the probe found.
pub open spec fn probed_mode(before: Option<[u8; 2]>) -> u8 {
    before->0[1] % 4
}

/// The other mode of the same band.
pub open spec fn partner_of(mode: u8) -> u8 {
    if mode == 0 {
        2
    } else if mode == 1 {
        3
    } else if mode == 2 {
        0
    } else {
        1
    }
}

/// The mode that the probe switches to: the other one of the same band, so that
/// the switch is not heard.
pub open spec fn probe_mode(before: Option<[u8; 2]>) -> u8 {
    partner_of(probed_mode(before))
}

fn other_mode(orig: u8) -> (other: u8)
    requires
        orig < 4,
    ensures
        other == partner_of(orig),
{
    ThermalMode::from_u8(orig).same_band_partner().as_u8()
}

/// Where a probe stands. `found` is the mode that it found, and `good` says whether
/// every step so far went well.
#[derive(Clone, Copy, PartialEq, Eq, Structural, Debug)]
pub enum ProbeStep {
    /// Read the mode.
    Find,
    /// Set the other mode of the band.
    Switch { found: u8 },
    /// Read it back.
    Confirm { found: u8, good: bool },
    /// Set the mode that was found.
    Restore { found: u8, good: bool },
    /// Read it back.
    Check { found: u8, good: bool },
    /// The probe is over, and has shown control or not.
    Done(bool),
}

impl ProbeStep {
    /// The modes in it are modes.
    pub open spec fn wf(self) -> bool {
        match self {
            ProbeStep::Switch { found } => found < 4,
            ProbeStep::Confirm { found, .. } => found < 4,
            ProbeStep::Restore { found, .. } => found < 4,
            ProbeStep::Check { found, .. } => found < 4,
            _ => true,
        }
    }
}

/// The request of a step.
pub open spec fn request_of(step: ProbeStep) -> Option<(u8, u8)> {
    match step {
        ProbeStep::Switch { found } => Some((CMD_SET_THERMAL, partner_of(found))),
        ProbeStep::Restore { found, .. } => Some((CMD_SET_THERMAL, found)),
        ProbeStep::Done(_) => None,
        _ => Some((CMD_READ_THERMAL, 0)),
    }
}

/// The step that follows, by the answer to the request of this one. A probe that
/// cannot find the mode ends there; any other goes on to the end, so that the mode it
/// found is set again whatever went wrong.
pub open spec fn probe_step(step: ProbeStep, answer: Option<[u8; 2]>) -> ProbeStep {
    match step {
        ProbeStep::Find => if succeeded(answer) {
            ProbeStep::Switch { found: probed_mode(answer) }
        } else {
            ProbeStep::Done(false)
        },
        ProbeStep::Switch { found } => ProbeStep::Confirm { found, good: succeeded(answer) },
        ProbeStep::Confirm { found, good } => ProbeStep::Restore {
            found,
            good: good && reports_mode(answer, partner_of(found)),
        },
        ProbeStep::Restore { found, good } => ProbeStep::Check {
            found,
            good: good && succeeded(answer),
        },
        ProbeStep::Check { found, good } => ProbeStep::Done(good && reports_mode(answer, found)),
        ended => ended,
    }
}

/// The request of a step.
pub fn probe_request(step: ProbeStep) -> (r: Option<(u8, u8)>)
    requires
        step.wf(),
    ensures
        r == request_of(step),
{
    match step {
        ProbeStep::Switch { found } => Some((CMD_SET_THERMAL, other_mode(found))),
        ProbeStep::Restore { found, .. } => Some((CMD_SET_THERMAL, found)),
        ProbeStep::Done(_) => None,
        _ => Some((CMD_READ_THERMAL, 0)),
    }
}

/// The step that follows, by the answer to the request of this one.
pub fn probe_next(step: ProbeStep, answer: Option<[u8; 2]>) -> (n: ProbeStep)
    requires
        step.wf(),
    ensures
        n == probe_step(step, answer),
        n.wf(),
{
    match step {
        ProbeStep::Find => match answer {
            Some(a) => if status_ok(a[0]) {
                ProbeStep::Switch { found: mode_of(a) }
            } else {
                ProbeStep::Done(false)
            },
            None => ProbeStep::Done(false),
        },
        ProbeStep::Switch { found } => ProbeStep::Confirm { found, good: is_success(answer) },
        ProbeStep::Confirm { found, good } => ProbeStep::Restore {
            found,
            good: good && is_mode(answer, other_mode(found)),
        },
        ProbeStep::Restore { found, good } => ProbeStep::Check {
            found,
            good: good && is_success(answer),
        },
        ProbeStep::Check { found, good } => ProbeStep::Done(good && is_mode(answer, found)),
        ProbeStep::Done(good) => ProbeStep::Done(good),
    }
}

/// Whether a probe went over the line, from its first request to its last: read the
/// mode; where that succeeds, set the other mode, read it back, set the first one
/// again, read it back.
pub open spec fn is_probe(course: Seq<Exchange>) -> bool {
    &&& course.len() >= 1
    &&& course[0].asks(CMD_READ_THERMAL, 0)
    &&& !succeeded(course[0].answer) ==> course.len() == 1
    &&& succeeded(course[0].answer) ==> {
        &&& course.len() == 5
        &&& course[1].asks(CMD_SET_THERMAL, probe_mode(course[0].answer))
        &&& course[2].asks(CMD_READ_THERMAL, 0)
        &&& course[3].asks(CMD_SET_THERMAL, probed_mode(course[0].answer))
        &&& course[4].asks(CMD_READ_THERMAL, 0)
    }
}

/// Whether a probe shows control: every step succeeded, the other mode was read
/// back, and so was the first one after it was set again.
pub open spec fn shows_control(course: Seq<Exchange>) -> bool {
    &&& succeeded(course[0].answer)
    &&& succeeded(course[1].answer)
    &&& reports_mode(course[2].answer, probe_mode(course[0].answer))
    &&& succeeded(course[3].answer)
    &&& reports_mode(course[4].answer, probed_mode(course[0].answer))
}

/// A probe can be sent: the mode can be read, and whatever it is found to be, it and
/// its partner can be set.
pub open spec fn can_probe<F: Fn(u8, u8) -> Option<[u8; 2]>>(transact: F) -> bool {
    &&& transact.requires((CMD_READ_THERMAL, 0u8))
    &&& forall|a: Option<[u8; 2]>|
        #[trigger] transact.ensures((CMD_READ_THERMAL, 0u8), a) && succeeded(a) ==> {
            &&& transact.requires((CMD_SET_THERMAL, probe_mode(a)))
            &&& transact.requires((CMD_SET_THERMAL, probed_mode(a)))
        }
}

/// Where a probe stands after what went over the line so far.
pub open spec fn probe_after(course: Seq<Exchange>) -> ProbeStep
    decreases course.len(),
{
    if course.len() == 0 {
        ProbeStep::Find
    } else {
        probe_step(probe_after(course.drop_last()), course.last().answer)
    }
}

/// Each request that went over the line is that of the step that was due.
pub open spec fn follows_probe(course: Seq<Exchange>) -> bool
    decreases course.len(),
{
    course.len() > 0 ==> {
        &&& follows_probe(course.drop_last())
        &&& request_of(probe_after(course.drop_last())) == Some(
            (course.last().command, course.last().payload),
        )
    }
}

/// A course that follows the steps to the end is a probe, and the last step says
/// whether it shows control.
proof fn steps_make_a_probe(course: Seq<Exchange>)
    requires
        follows_probe(course),
    ensures
        course.len() <= 5,
        course.len() == 0 ==> probe_after(course) is Find,
        course.len() >= 1 ==> course[0].asks(CMD_READ_THERMAL, 0),
        course.len() >= 1 && !succeeded(course[0].answer) ==> course.len() == 1 && probe_after(
            course,
        ) == ProbeStep::Done(false),
        course.len() >= 1 && succeeded(course[0].answer) ==> {
            let found = probed_mode(course[0].answer);
            let other = probe_mode(course[0].answer);
            let a1 = course.len() >= 2 && succeeded(course[1].answer);
            let a2 = a1 && reports_mode(course[2].answer, other);
            let a3 = a2 && succeeded(course[3].answer);
            &&& course.len() >= 2 ==> course[1].asks(CMD_SET_THERMAL, other)
            &&& course.len() >= 3 ==> course[2].asks(CMD_READ_THERMAL, 0)
            &&& course.len() >= 4 ==> course[3].asks(CMD_SET_THERMAL, found)
            &&& course.len() >= 5 ==> course[4].asks(CMD_READ_THERMAL, 0)
            &&& course.len() == 1 ==> probe_after(course) == (ProbeStep::Switch { found })
            &&& course.len() == 2 ==> probe_after(course) == (ProbeStep::Confirm { found, good: a1 })
            &&& course.len() == 3 ==> probe_after(course) == (ProbeStep::Restore { found, good: a2 })
            &&& course.len() == 4 ==> probe_after(course) == (ProbeStep::Check { found, good: a3 })
            &&& course.len() == 5 ==> probe_after(course) == ProbeStep::Done(shows_control(course))
        },
    decreases course.len(),
{
    if course.len() > 0 {
        let before = course.drop_last();
        steps_make_a_probe(before);
        assert(forall|i: int| 0 <= i < before.len() ==> before[i] == course[i]);
    }
}

/// Switches the mode, reads it back, and switches it back.
pub fn probe_write<F: Fn(u8, u8) -> Option<[u8; 2]>>(line: &mut Line<F>) -> (proven: bool)
    requires
        can_probe(old(line).transact()),
    ensures
        final(line).transact() == old(line).transact(),
        goes_on(old(line).log(), final(line).log()),
        carried(old(line).transact(), since(old(line).log(), final(line).log())),
        is_probe(since(old(line).log(), final(line).log())),
        proven == shows_control(since(old(line).log(), final(line).log())),
{
    let ghost start = line.log();
    let mut step = ProbeStep::Find;
    assert(since(start, start) =~= Seq::<Exchange>::empty());
    assert(start =~= start + since(start, start));
    loop
        invariant
            line.transact() == old(line).transact(),
            start == old(line).log(),
            can_probe(line.transact()),
            goes_on(start, line.log()),
            carried(line.transact(), since(start, line.log())),
            follows_probe(since(start, line.log())),
            step == probe_after(since(start, line.log())),
            step.wf(),
        decreases 6 - since(start, line.log()).len(),
    {
        let ghost so_far = since(start, line.log());
        proof {
            steps_make_a_probe(so_far);
            if so_far.len() > 0 {
                assert(so_far[0].asks(CMD_READ_THERMAL, 0));
                assert(line.transact().ensures((CMD_READ_THERMAL, 0u8), so_far[0].answer));
            }
        }
        match probe_request(step) {
            Some((command, payload)) => {
                let answer = line.ask(command, payload);
                proof {
                    let now = since(start, line.log());
                    assert(now =~= so_far.push(Exchange { command, payload, answer }));
                    assert(now.drop_last() =~= so_far);
                    assert(line.log() =~= start + now);
                    steps_make_a_probe(now);
                }
                step = probe_next(step, answer);
            },
            None => {
                return matches!(step, ProbeStep::Done(true));
            },
        }
    }
}

/// Whatever mode a probe sets, the last one that it sets is the one that it found, and
/// it sets that one whenever it has set the other.
pub proof fn probes_restore_the_mode(course: Seq<Exchange>, i: int)
    requires
        is_probe(course),
        0 <= i < course.len(),
        course[i].command == CMD_SET_THERMAL,
    ensures
        course.len() == 5,
        i <= 3,
        course[3].asks(CMD_SET_THERMAL, probed_mode(course[0].answer)),
        i < 3 ==> course[i].payload != probed_mode(course[0].answer),
{
}

/// The mode of a machine on which the requests that succeed take effect.
pub open spec fn mode_after(mode: u8, course: Seq<Exchange>) -> u8
    decreases course.len(),
{
    if course.len() == 0 {
        mode
    } else if course.last().command == CMD_SET_THERMAL && succeeded(course.last().answer) {
        course.last().payload
    } else {
        mode_after(mode, course.drop_last())
    }
}

/// A machine on which the requests that succeed take effect is in the mode that the
/// probe found when the probe is over, unless setting that mode again failed.
pub proof fn probes_leave_the_machine_as_it_was(mode: u8, course: Seq<Exchange>)
    requires
        is_probe(course),
        succeeded(course[0].answer) ==> probed_mode(course[0].answer) == mode,
        course.len() == 5 && succeeded(course[1].answer) ==> succeeded(course[3].answer),
    ensures
        mode_after(mode, course) == mode,
{
    reveal_with_fuel(mode_after, 6);
    if course.len() == 5 {
        let c4 = course.drop_last();
        let c3 = c4.drop_last();
        let c2 = c3.drop_last();
        let c1 = c2.drop_last();
        assert(c4.last() == course[3] && c3.last() == course[2] && c2.last() == course[1]
            && c1.last() == course[0]);
        assert(c1.drop_last() =~= Seq::<Exchange>::empty());
    } else {
        assert(course.drop_last() =~= Seq::<Exchange>::empty());
    }
}

/// How many requests the first rung takes.
pub open spec fn reads_of(before: Proofs) -> int {
    if before.read {
        0
    } else {
        1
    }
}

/// What the second rung does to the proofs, and what goes over the line for it: where
/// no write was tried yet, the first rung is climbed, and if it holds a write is
/// probed; else nothing is asked.
pub open spec fn write_rung(before: Proofs, after: Proofs, course: Seq<Exchange>) -> bool {
    if before.write is Some {
        course.len() == 0 && after == before
    } else {
        let n = reads_of(before);
        &&& course.len() >= n
        &&& read_rung(before, Proofs { read: after.read, write: None }, course.take(n))
        &&& !after.read ==> course.len() == n && after.write == Some(false)
        &&& after.read ==> is_probe(course.skip(n)) && after.write == Some(
            shows_control(course.skip(n)),
        )
    }
}

/// Second rung: a write takes effect and is undone. It is tried only where a read
/// succeeds, and only once, however it ends.
pub fn write_ok<F: Fn(u8, u8) -> Option<[u8; 2]>>(proofs: &mut Proofs, line: &mut Line<F>) -> (ok:
    bool)
    requires
        old(proofs).write is None ==> can_probe(old(line).transact()),
    ensures
        final(line).transact() == old(line).transact(),
        goes_on(old(line).log(), final(line).log()),
        carried(old(line).transact(), since(old(line).log(), final(line).log())),
        write_rung(*old(proofs), *final(proofs), since(old(line).log(), final(line).log())),
        final(proofs).write == Some(ok),
{
    let ghost start = line.log();
    let ghost before = *proofs;
    match proofs.write {
        Some(w) => {
            assert(start =~= start + since(start, start));
            w
        },
        None => {
            let read = read_ok(proofs, line);
            let ghost middle = line.log();
            let ghost first = since(start, middle);
            let proven = if read {
                probe_write(line)
            } else {
                false
            };
            proofs.write = Some(proven);
            proof {
                if !read {
                    assert(line.log() == middle);
                    assert(first.take(reads_of(before)) =~= first);
                } else {
                    let second = since(middle, line.log());
                    let course = since(start, line.log());
                    assert(line.log() =~= start + (first + second));
                    assert(course =~= first + second);
                    assert(course.take(reads_of(before)) =~= first);
                    assert(course.skip(reads_of(before)) =~= second);
                    assert(carried(old(line).transact(), course)) by {
                        assert forall|i: int| 0 <= i < course.len() implies line.transact().ensures(
                            ((#[trigger] course[i]).command, course[i].payload),
                            course[i].answer,
                        ) by {
                            if i < first.len() {
                                assert(course[i] == first[i]);
                            } else {
                                assert(course[i] == second[i - first.len()]);
                            }
                        }
                    }
                }
            }
            proven
        },
    }
}

/// How far the hardware was shown to be under control. Only [`Tier::Verified`] is
/// good for the list of validated hardware.
#[derive(Clone, Copy, PartialEq, Eq, Structural, Debug)]
pub enum Tier {
    /// A write took effect and was undone.
    Verified,
    /// The interface answers a read; control was not shown.
    ReadOnly,
    /// No read succeeded.
    Unverified,
}

/// The tier that the two rungs amount to.
pub open spec fn tier_of(write: bool, read: bool) -> Tier {
    if write {
        Tier::Verified
    } else if read {
        Tier::ReadOnly
    } else {
        Tier::Unverified
    }
}

/// The tier that the two rungs amount to.
pub fn tier_from(write: bool, read: bool) -> (t: Tier)
    ensures
        t == tier_of(write, read),
{
    if write {
        Tier::Verified
    } else if read {
        Tier::ReadOnly
    } else {
        Tier::Unverified
    }
}

/// What climbing the rungs does to the proofs, and what goes over the line for it: the
/// second rung comes first, and where it fails the first one has another try. The
/// second rung takes the first `k` requests and comes to `mid`.
pub open spec fn climbed_by(
    before: Proofs,
    mid: Proofs,
    after: Proofs,
    t: Tier,
    course: Seq<Exchange>,
    k: int,
) -> bool {
    &&& 0 <= k <= course.len()
    &&& write_rung(before, mid, course.take(k))
    &&& mid.write->0 ==> after == mid && k == course.len()
    &&& !mid.write->0 ==> read_rung(mid, after, course.skip(k))
    &&& t == tier_of(mid.write->0, after.read)
}

/// What climbing the rungs does to the proofs, and what goes over the line for it.
pub open spec fn climbed(before: Proofs, after: Proofs, t: Tier, course: Seq<Exchange>) -> bool {
    exists|mid: Proofs, k: int| climbed_by(before, mid, after, t, course, k)
}

/// Climbs the rungs and says how far it came.
pub fn tier<F: Fn(u8, u8) -> Option<[u8; 2]>>(proofs: &mut Proofs, line: &mut Line<F>) -> (t: Tier)
    requires
        old(proofs).write is None ==> can_probe(old(line).transact()),
        !old(proofs).read ==> old(line).transact().requires((CMD_READ_THERMAL, 0u8)),
    ensures
        final(line).transact() == old(line).transact(),
        goes_on(old(line).log(), final(line).log()),
        carried(old(line).transact(), since(old(line).log(), final(line).log())),
        climbed(*old(proofs), *final(proofs), t, since(old(line).log(), final(line).log())),
{
    let ghost start = line.log();
    let ghost before = *proofs;
    let write = write_ok(proofs, line);
    let ghost mid = *proofs;
    let ghost middle = line.log();
    let ghost first = since(start, middle);
    if write {
        assert(first.take(first.len() as int) =~= first);
        assert(climbed_by(before, mid, mid, Tier::Verified, first, first.len() as int));
        return Tier::Verified;
    }
    let read = read_ok(proofs, line);
    let t = tier_from(false, read);
    proof {
        let second = since(middle, line.log());
        let course = since(start, line.log());
        assert(line.log() =~= start + (first + second));
        assert(course =~= first + second);
        let k = first.len() as int;
        assert(course.take(k) =~= first);
        assert(course.skip(k) =~= second);
        assert forall|i: int| 0 <= i < course.len() implies line.transact().ensures(
            ((#[trigger] course[i]).command, course[i].payload),
            course[i].answer,
        ) by {
            if i < first.len() {
                assert(course[i] == first[i]);
            } else {
                assert(course[i] == second[i - first.len()]);
            }
        }
        assert(climbed_by(before, mid, *proofs, t, course, k));
    }
    t
}

/// A verified tier that was not known before rests on a probe, the last thing that went
/// over the line, in which another mode was read back, and then the first one again.
pub proof fn verified_rests_on_a_restored_write(
    before: Proofs,
    after: Proofs,
    course: Seq<Exchange>,
)
    requires
        before.write is None,
        climbed(before, after, Tier::Verified, course),
    ensures
        ({
            let p = course.skip(reads_of(before));
            &&& is_probe(p)
            &&& shows_control(p)
            &&& p[2].answer->0[1] % 4 != p[0].answer->0[1] % 4
            &&& p[4].answer->0[1] % 4 == p[0].answer->0[1] % 4
        }),
{
    let (mid, k) = choose|mid: Proofs, k: int|
        climbed_by(before, mid, after, Tier::Verified, course, k);
    assert(course.take(k) =~= course);
}

/// A write is tried once: whatever came of it, climbing again sets nothing, leaves the
/// outcome at that, and gives a verified tier exactly where the first try did.
pub proof fn writes_are_tried_once(
    before: Proofs,
    between: Proofs,
    after: Proofs,
    first: Tier,
    second: Tier,
    course: Seq<Exchange>,
    later: Seq<Exchange>,
)
    requires
        climbed(before, between, first, course),
        climbed(between, after, second, later),
    ensures
        between.write is Some,
        after.write == between.write,
        second is Verified <==> first is Verified,
        forall|i: int| 0 <= i < later.len() ==> (#[trigger] later[i]).command == CMD_READ_THERMAL,
        first is Verified ==> later.len() == 0,
{
    let (mid, k) = choose|mid: Proofs, k: int|
        climbed_by(between, mid, after, second, later, k);
    assert(later.skip(k) =~= later);
}

/// Whether reads tell the truth on a machine that starts in `mode` and on which the
/// requests that succeed take effect.
pub open spec fn is_honest(mode: u8, course: Seq<Exchange>) -> bool {
    forall|i: int|
        0 <= i < course.len() && (#[trigger] course[i]).command == CMD_READ_THERMAL && succeeded(
            course[i].answer,
        ) ==> course[i].answer->0[1] % 4 == mode_after(mode, course.take(i))
}

/// Where one mode can be set, any can.
pub open spec fn is_settable(course: Seq<Exchange>) -> bool {
    forall|i: int, j: int|
        0 <= i < course.len() && 0 <= j < course.len() && (#[trigger] course[i]).command
            == CMD_SET_THERMAL && (#[trigger] course[j]).command == CMD_SET_THERMAL && succeeded(
            course[i].answer,
        ) ==> succeeded(course[j].answer)
}

proof fn mode_after_both(mode: u8, first: Seq<Exchange>, second: Seq<Exchange>)
    ensures
        mode_after(mode, first + second) == mode_after(mode_after(mode, first), second),
    decreases second.len(),
{
    if second.len() == 0 {
        assert(first + second =~= first);
    } else {
        mode_after_both(mode, first, second.drop_last());
        assert((first + second).drop_last() =~= first + second.drop_last());
    }
}

proof fn reads_keep_the_mode(mode: u8, course: Seq<Exchange>)
    requires
        forall|i: int| 0 <= i < course.len() ==> (#[trigger] course[i]).command == CMD_READ_THERMAL,
    ensures
        mode_after(mode, course) == mode,
    decreases course.len(),
{
    if course.len() > 0 {
        assert(course[course.len() - 1].command == CMD_READ_THERMAL);
        assert forall|i: int| 0 <= i < course.drop_last().len() implies (
        #[trigger] course.drop_last()[i]).command == CMD_READ_THERMAL by {
            assert(course.drop_last()[i] == course[i]);
        }
        reads_keep_the_mode(mode, course.drop_last());
    }
}

/// Finding the tier leaves the mode of the machine as it was: on a machine whose reads
/// tell the truth, and where any mode can be set if one can.
pub proof fn climbing_leaves_the_machine_as_it_was(
    mode: u8,
    before: Proofs,
    after: Proofs,
    t: Tier,
    course: Seq<Exchange>,
)
    requires
        climbed(before, after, t, course),
        is_honest(mode, course),
        is_settable(course),
    ensures
        mode_after(mode, course) == mode,
{
    let (mid, k) = choose|mid: Proofs, k: int| climbed_by(before, mid, after, t, course, k);
    let up = course.take(k);
    let rest = course.skip(k);
    assert(course =~= up + rest);
    mode_after_both(mode, up, rest);
    if mid.write->0 {
        assert(rest =~= Seq::<Exchange>::empty());
    }
    if before.write is Some {
        assert(up =~= Seq::<Exchange>::empty());
        reads_keep_the_mode(mode, rest);
    } else {
        let n = reads_of(before);
        let reads = up.take(n);
        let probe = up.skip(n);
        assert(up =~= reads + probe);
        mode_after_both(mode, reads, probe);
        reads_keep_the_mode(mode, reads);
        if mid.read {
            assert(course.take(n) =~= reads);
            assert(probe[0] == course[n]);
            if probe.len() == 5 {
                assert(probe[1] == course[n + 1]);
                assert(probe[3] == course[n + 3]);
            }
            probes_leave_the_machine_as_it_was(mode, probe);
        } else {
            assert(probe =~= Seq::<Exchange>::empty());
        }
        reads_keep_the_mode(mode, rest);
    }
}

/// A read that succeeded is not repeated, and one that failed is: a second try asks
/// nothing after success, and once after failure.
pub proof fn proven_reads_are_not_repeated(
    before: Proofs,
    between: Proofs,
    after: Proofs,
    first: Seq<Exchange>,
    second: Seq<Exchange>,
)
    requires
        read_rung(before, between, first),
        read_rung(between, after, second),
    ensures
        between.read ==> second.len() == 0 && after == between,
        !between.read ==> second.len() == 1 && second[0].asks(CMD_READ_THERMAL, 0) && after.read
            == succeeded(second[0].answer),
{
}

/// What the report says of a tier.
pub open spec fn status_text_of(t: Tier) -> Seq<char> {
    match t {
        Tier::Verified => "VERIFIED — read + write/restore OK (control proven)"@,
        Tier::ReadOnly => "READ-ONLY — interface answers; write-control NOT proven"@,
        Tier::Unverified => "UNVERIFIED — no thermal read (service down or unsupported)"@,
    }
}

/// What the report says about contributing the fingerprint: only verified hardware
/// is wanted.
pub open spec fn footer_of(t: Tier) -> Seq<char> {
    if t is Verified {
        "To contribute: open an issue `hardware: <model>`, paste the KNOWN_GOOD line above, and\ninclude the 'Verified by' line so it chains to this build."@
    } else {
        "Not submittable: write-control could not be proven on this hardware (see status above),\nso it isn't confirmed working. Please don't submit it to KNOWN_GOOD."@
    }
}

/// Whether the machine is HP's, as the report says it.
pub open spec fn is_hp_machine(hw: HwInfo) -> bool {
    crate::hwinfo::names_hp(crate::text::lowercase(hw.manufacturer@))
}

/// The report on a machine, from its parts.
pub open spec fn report_text(hw: HwInfo, t: Tier, build: Seq<char>) -> Seq<char> {
    BIN_NAME@ + " "@ + build + "\n\nManufacturer:  "@ + hw.manufacturer@ + "\nProduct:       "@
        + hw.product@ + "\nFamily:        "@ + hw.family@ + "\nBoard:         "@ + hw.board@
        + "\nBIOS:          "@ + hw.bios_version@ + "\nBoard version: "@ + hw.board_version@
        + "\n\nKNOWN_GOOD line:\n  "@ + crate::hwinfo::fingerprint_of(hw)
        + "\n\nHP hardware:      "@ + (if is_hp_machine(hw) {
        "yes"@
    } else {
        "no"@
    }) + "\nThermal control:  "@ + status_text_of(t) + "\nVerified by:      "@ + BIN_NAME@ + " "@
        + build + "\n\n"@ + footer_of(t) + "\n"@
}

fn status_text(t: Tier) -> (s: &'static str)
    ensures
        s@ == status_text_of(t),
{
    match t {
        Tier::Verified => "VERIFIED — read + write/restore OK (control proven)",
        Tier::ReadOnly => "READ-ONLY — interface answers; write-control NOT proven",
        Tier::Unverified => "UNVERIFIED — no thermal read (service down or unsupported)",
    }
}

fn footer(t: Tier) -> (s: &'static str)
    ensures
        s@ == footer_of(t),
{
    match t {
        Tier::Verified =>
            "To contribute: open an issue `hardware: <model>`, paste the KNOWN_GOOD line above, and\ninclude the 'Verified by' line so it chains to this build.",
        _ =>
            "Not submittable: write-control could not be proven on this hardware (see status above),\nso it isn't confirmed working. Please don't submit it to KNOWN_GOOD.",
    }
}

/// The report on a machine, for people. `build` ties it to the build that made it.
pub fn report(hw: &HwInfo, tier: Tier, build: &str) -> (out: String)
    ensures
        out@ == report_text(*hw, tier, build@),
{
    let fingerprint = hw.fingerprint();
    let mut out: String = BIN_NAME.to_owned();
    out.append(" ");
    out.append(build);
    out.append("\n\nManufacturer:  ");
    out.append(hw.manufacturer.as_str());
    out.append("\nProduct:       ");
    out.append(hw.product.as_str());
    out.append("\nFamily:        ");
    out.append(hw.family.as_str());
    out.append("\nBoard:         ");
    out.append(hw.board.as_str());
    out.append("\nBIOS:          ");
    out.append(hw.bios_version.as_str());
    out.append("\nBoard version: ");
    out.append(hw.board_version.as_str());
    out.append("\n\nKNOWN_GOOD line:\n  ");
    out.append(fingerprint.as_str());
    out.append("\n\nHP hardware:      ");
    out.append(
        if hw.is_hp() {
            "yes"
        } else {
            "no"
        },
    );
    out.append("\nThermal control:  ");
    out.append(status_text(tier));
    out.append("\nVerified by:      ");
    out.append(BIN_NAME);
    out.append(" ");
    out.append(build);
    out.append("\n\n");
    out.append(footer(tier));
    out.append("\n");
    out
}

/// How a character is written inside a JSON string.
pub open spec fn escaped_char(c: char) -> Seq<char> {
    if c == '"' {
        seq!['\\', '"']
    } else if c == '\\' {
        seq!['\\', '\\']
    } else if c == '\n' {
        seq!['\\', 'n']
    } else if c == '\r' {
        seq!['\\', 'r']
    } else if c == '\t' {
        seq!['\\', 't']
    } else if (c as int) < 0x20 {
        seq!['\\', 'u'] + crate::text::hex(c as int, 4)
    } else {
        seq![c]
    }
}

/// How a text is written inside a JSON string.
pub open spec fn escaped(s: Seq<char>) -> Seq<char>
    decreases s.len(),
{
    if s.len() == 0 {
        Seq::empty()
    } else {
        escaped(s.drop_last()) + escaped_char(s.last())
    }
}

fn push_escaped(out: &mut String, c: char)
    ensures
        final(out)@ == old(out)@ + escaped_char(c),
{
    let ghost start = out@;
    let code: u32 = c as u32;
    if c == '"' {
        out.push('\\');
        out.push('"');
    } else if c == '\\' {
        out.push('\\');
        out.push('\\');
    } else if c == '\n' {
        out.push('\\');
        out.push('n');
    } else if c == '\r' {
        out.push('\\');
        out.push('r');
    } else if c == '\t' {
        out.push('\\');
        out.push('t');
    } else if code < 0x20 {
        out.push('\\');
        out.push('u');
        push_hex(out, code as u64, 4);
    } else {
        out.push(c);
    }
    assert(out@ =~= start + escaped_char(c));
}

/// Writes a text as the inside of a JSON string.
pub fn json_escape(s: &str) -> (out: String)
    ensures
        out@ == escaped(s@),
{
    let chars = chars_of(s);
    let mut out: String = String::new();
    let mut i: usize = 0;
    while i < chars.len()
        invariant
            chars@ == s@,
            i <= chars@.len(),
            out@ == escaped(s@.take(i as int)),
        decreases chars@.len() - i,
    {
        push_escaped(&mut out, chars[i]);
        proof {
            assert(s@.take(i + 1).drop_last() =~= s@.take(i as int));
        }
        i = i + 1;
    }
    assert(s@.take(i as int) =~= s@);
    out
}

/// How a tier is called in the report for programs.
pub open spec fn tier_name_of(t: Tier) -> Seq<char> {
    match t {
        Tier::Verified => "verified"@,
        Tier::ReadOnly => "read-only"@,
        Tier::Unverified => "unverified"@,
    }
}

fn tier_name(t: Tier) -> (s: &'static str)
    ensures
        s@ == tier_name_of(t),
{
    match t {
        Tier::Verified => "verified",
        Tier::ReadOnly => "read-only",
        Tier::Unverified => "unverified",
    }
}

/// A truth value in JSON.
pub open spec fn bool_text_of(b: bool) -> Seq<char> {
    if b {
        "true"@
    } else {
        "false"@
    }
}

fn bool_text(b: bool) -> (s: &'static str)
    ensures
        s@ == bool_text_of(b),
{
    if b {
        "true"
    } else {
        "false"
    }
}

/// The report for programs: one JSON object on one line.
pub open spec fn report_json_text(hw: HwInfo, t: Tier, build: Seq<char>) -> Seq<char> {
    "{\"fingerprint\":\""@ + escaped(crate::hwinfo::fingerprint_of(hw))
        + "\",\"manufacturer\":\""@ + escaped(hw.manufacturer@) + "\",\"product\":\""@ + escaped(
        hw.product@,
    ) + "\",\"family\":\""@ + escaped(hw.family@) + "\",\"board\":\""@ + escaped(hw.board@)
        + "\",\"bios\":\""@ + escaped(hw.bios_version@) + "\",\"board_version\":\""@ + escaped(
        hw.board_version@,
    ) + "\",\"is_hp\":"@ + bool_text_of(is_hp_machine(hw)) + ",\"capability\":\""@ + tier_name_of(t)
        + "\",\"submittable\":"@ + bool_text_of(t is Verified) + ",\"verified_by\":\""@ + escaped(
        BIN_NAME@,
    ) + " "@ + escaped(build) + "\"}\n"@
}

/// The report for programs.
pub fn report_json(hw: &HwInfo, tier: Tier, build: &str) -> (out: String)
    ensures
        out@ == report_json_text(*hw, tier, build@),
{
    let fingerprint = hw.fingerprint();
    let mut out: String = "{\"fingerprint\":\"".to_owned();
    out.append(json_escape(fingerprint.as_str()).as_str());
    out.append("\",\"manufacturer\":\"");
    out.append(json_escape(hw.manufacturer.as_str()).as_str());
    out.append("\",\"product\":\"");
    out.append(json_escape(hw.product.as_str()).as_str());
    out.append("\",\"family\":\"");
    out.append(json_escape(hw.family.as_str()).as_str());
    out.append("\",\"board\":\"");
    out.append(json_escape(hw.board.as_str()).as_str());
    out.append("\",\"bios\":\"");
    out.append(json_escape(hw.bios_version.as_str()).as_str());
    out.append("\",\"board_version\":\"");
    out.append(json_escape(hw.board_version.as_str()).as_str());
    out.append("\",\"is_hp\":");
    out.append(bool_text(hw.is_hp()));
    out.append(",\"capability\":\"");
    out.append(tier_name(tier));
    out.append("\",\"submittable\":");
    out.append(bool_text(matches!(tier, Tier::Verified)));
    out.append(",\"verified_by\":\"");
    out.append(json_escape(BIN_NAME).as_str());
    out.append(" ");
    out.append(json_escape(build).as_str());
    out.append("\"}\n");
    out
}

/// The value of a hexadecimal digit, lower case; none for any other character.
pub open spec fn hex_value(c: char) -> Option<int> {
    if '0' <= c && c <= '9' {
        Some(c as int - 48)
    } else if 'a' <= c && c <= 'f' {
        Some(c as int - 87)
    } else {
        None
    }
}

/// The text that the inside of a JSON string stands for, where it uses no other
/// escapes than the ones written here: none where an escape is broken, or where a
/// quote or a control character stands by itself.
pub open spec fn unescaped(t: Seq<char>) -> Option<Seq<char>>
    decreases t.len(),
{
    if t.len() == 0 {
        Some(Seq::empty())
    } else if t[0] == '"' || (t[0] as int) < 0x20 {
        None
    } else if t[0] != '\\' {
        match unescaped(t.skip(1)) {
            Some(rest) => Some(seq![t[0]] + rest),
            None => None,
        }
    } else if t.len() < 2 {
        None
    } else if t[1] == 'u' {
        if t.len() < 6 || hex_value(t[2]) is None || hex_value(t[3]) is None || hex_value(
            t[4],
        ) is None || hex_value(t[5]) is None {
            None
        } else {
            let code = hex_value(t[2])->0 * 0x1000 + hex_value(t[3])->0 * 0x100 + hex_value(
                t[4],
            )->0 * 0x10 + hex_value(t[5])->0;
            match unescaped(t.skip(6)) {
                Some(rest) => Some(seq![code as char] + rest),
                None => None,
            }
        }
    } else {
        let plain = if t[1] == '"' || t[1] == '\\' {
            Some(t[1])
        } else if t[1] == 'n' {
            Some('\n')
        } else if t[1] == 'r' {
            Some('\r')
        } else if t[1] == 't' {
            Some('\t')
        } else {
            None
        };
        match (plain, unescaped(t.skip(2))) {
            (Some(c), Some(rest)) => Some(seq![c] + rest),
            _ => None,
        }
    }
}

proof fn escaped_from_the_front(s: Seq<char>)
    requires
        s.len() > 0,
    ensures
        escaped(s) == escaped_char(s[0]) + escaped(s.drop_first()),
    decreases s.len(),
{
    if s.len() == 1 {
        assert(s.drop_last() =~= Seq::empty());
        assert(s.drop_first() =~= Seq::empty());
        assert(escaped(s) =~= escaped_char(s[0]) + escaped(s.drop_first()));
    } else {
        escaped_from_the_front(s.drop_last());
        assert(s.drop_last().drop_first() =~= s.drop_first().drop_last());
        assert(escaped(s) =~= escaped_char(s[0]) + escaped(s.drop_first()));
    }
}

proof fn one_char_unescapes(c: char, rest: Seq<char>)
    requires
        unescaped(rest) is Some,
    ensures
        unescaped(escaped_char(c) + rest) == Some(seq![c] + unescaped(rest)->0),
{
    let t = escaped_char(c) + rest;
    let n = c as int;
    assert(t.skip(escaped_char(c).len() as int) =~= rest);
    if n < 0x20 && c != '\n' && c != '\r' && c != '\t' {
        reveal_with_fuel(crate::text::hex, 5);
        let h = crate::text::hex(n, 4);
        assert(h =~= seq![
            crate::text::digit_char(n / 16 / 16 / 16 % 16),
            crate::text::digit_char(n / 16 / 16 % 16),
            crate::text::digit_char(n / 16 % 16),
            crate::text::digit_char(n % 16),
        ]);
        assert(t[0] == '\\' && t[1] == 'u' && t[2] == h[0] && t[3] == h[1] && t[4] == h[2] && t[5]
            == h[3]);
    } else if c == '"' || c == '\\' || c == '\n' || c == '\r' || c == '\t' {
        assert(t[0] == '\\');
        assert(t[1] == escaped_char(c)[1]);
    } else {
        assert(t[0] == c);
    }
}

/// What is written inside a JSON string reads back as the text it was made from.
pub proof fn escaping_round_trips(s: Seq<char>)
    ensures
        unescaped(escaped(s)) == Some(s),
    decreases s.len(),
{
    if s.len() > 0 {
        let rest = s.drop_first();
        escaped_from_the_front(s);
        escaping_round_trips(rest);
        one_char_unescapes(s[0], escaped(rest));
        assert(seq![s[0]] + rest =~= s);
    }
}

/// The probe switches within the band: to another mode, as loud as the one that it found.
pub proof fn probes_stay_in_the_band(m: ThermalMode, status: u8, stray: u8)
    requires
        stray < 64,
    ensures
        partner_of(m.wire()) == m.partner().wire(),
        partner_of(m.wire()) != m.wire(),
        m.partner().loud() == m.loud(),
        probed_mode(Some([status, (m.wire() + 4 * stray) as u8])) == m.wire(),
        probe_mode(Some([status, (m.wire() + 4 * stray) as u8])) == m.partner().wire(),
{
    let answer: Option<[u8; 2]> = Some([status, (m.wire() + 4 * stray) as u8]);
    assert(answer->0[1] == m.wire() + 4 * stray);
}

/// Control is shown just where each of the five requests was answered with success, the
/// other mode was read back, and the first one was after it was set again.
pub proof fn control_needs_every_step(course: Seq<Exchange>, i: int)
    requires
        is_probe(course),
        0 <= i < course.len(),
    ensures
        shows_control(course) ==> course.len() == 5 && (course[i].answer matches Some(r) && r[0]
            % 128 == 0),
        shows_control(course) ==> course[2].answer->0[1] % 4 == course[1].payload
            && course[4].answer->0[1] % 4 == course[3].payload && course[3].payload
            == course[0].answer->0[1] % 4 && course[1].payload != course[3].payload,
        course.len() == 5 && (forall|k: int|
            0 <= k < 5 ==> ((#[trigger] course[k]).answer matches Some(r) && r[0] % 128 == 0))
            && course[2].answer->0[1] % 4 == course[1].payload && course[4].answer->0[1] % 4
            == course[3].payload ==> shows_control(course),
{
    if course.len() == 5 {
        assert(course[0].answer == course[0].answer && course[1].answer == course[1].answer);
        if forall|k: int|
            0 <= k < 5 ==> ((#[trigger] course[k]).answer matches Some(r) && r[0] % 128 == 0) {
            assert(course[0].answer is Some);
            assert(course[1].answer is Some);
            assert(course[2].answer is Some);
            assert(course[3].answer is Some);
            assert(course[4].answer is Some);
        }
    }
}

/// A tier says what was shown, and no more: verified where a write was, else read-only where
/// a read was, else nothing.
pub proof fn tiers_tell_what_was_shown(write: bool, read: bool)
    ensures
        tier_of(write, read) is Verified <==> write,
        tier_of(write, read) is Unverified <==> !write && !read,
        tier_of(write, read) is ReadOnly <==> read && !write,
{
}

/// The reports tell the tiers apart, each by its own word.
pub proof fn reports_tell_the_tiers_apart(a: Tier, b: Tier)
    requires
        a != b,
    ensures
        status_text_of(a) != status_text_of(b),
        tier_name_of(a) != tier_name_of(b),
        a is Verified ==> footer_of(a) != footer_of(b),
        a is Verified ==> status_text_of(a)[0] == 'V' && tier_name_of(a)[0] == 'v',
        a is ReadOnly ==> status_text_of(a)[0] == 'R' && tier_name_of(a)[0] == 'r',
        a is Unverified ==> status_text_of(a)[0] == 'U' && tier_name_of(a)[0] == 'u',
        a is Verified ==> footer_of(a)[0] == 'T' && footer_of(b)[0] == 'N',
{
    reveal_strlit("VERIFIED — read + write/restore OK (control proven)");
    reveal_strlit("READ-ONLY — interface answers; write-control NOT proven");
    reveal_strlit("UNVERIFIED — no thermal read (service down or unsupported)");
    reveal_strlit("verified");
    reveal_strlit("read-only");
    reveal_strlit("unverified");
    reveal_strlit(
        "To contribute: open an issue `hardware: <model>`, paste the KNOWN_GOOD line above, and\ninclude the 'Verified by' line so it chains to this build.",
    );
    reveal_strlit(
        "Not submittable: write-control could not be proven on this hardware (see status above),\nso it isn't confirmed working. Please don't submit it to KNOWN_GOOD.",
    );
    assert(status_text_of(a)[0] != status_text_of(b)[0]);
    assert(tier_name_of(a)[0] != tier_name_of(b)[0]);
    if a is Verified {
        assert(footer_of(a)[0] != footer_of(b)[0]);
    }
}

/// The report for programs names each field of the machine under its own key, its
/// fingerprint, whether it is HP's, how far it came, and that only a verified one may be
/// handed in.
pub proof fn json_reports_name_every_field(hw: HwInfo, t: Tier, build: Seq<char>)
    ensures
        ({
            let text = report_json_text(hw, t, build);
            &&& crate::text::occurs_in("{\"fingerprint\":\""@ + escaped(crate::hwinfo::fingerprint_of(hw)), text)
            &&& crate::text::occurs_in("\",\"manufacturer\":\""@ + escaped(hw.manufacturer@), text)
            &&& crate::text::occurs_in("\",\"product\":\""@ + escaped(hw.product@), text)
            &&& crate::text::occurs_in("\",\"family\":\""@ + escaped(hw.family@), text)
            &&& crate::text::occurs_in("\",\"board\":\""@ + escaped(hw.board@), text)
            &&& crate::text::occurs_in("\",\"bios\":\""@ + escaped(hw.bios_version@), text)
            &&& crate::text::occurs_in("\",\"board_version\":\""@ + escaped(hw.board_version@), text)
            &&& crate::text::occurs_in("\",\"is_hp\":"@ + bool_text_of(is_hp_machine(hw)), text)
            &&& crate::text::occurs_in(",\"capability\":\""@ + tier_name_of(t), text)
            &&& crate::text::occurs_in("\",\"submittable\":"@ + bool_text_of(t is Verified), text)
        }),
        bool_text_of(true) == "true"@ && bool_text_of(false) == "false"@,
{
    let text = report_json_text(hw, t, build);
    let p0 = seq!["{\"fingerprint\":\""@];
    assert(crate::text::strung(p0) == "{\"fingerprint\":\""@);
    let p1 = p0.push(escaped(crate::hwinfo::fingerprint_of(hw)));
    crate::text::one_more_is_strung(p0, escaped(crate::hwinfo::fingerprint_of(hw)));
    let p2 = p1.push("\",\"manufacturer\":\""@);
    crate::text::one_more_is_strung(p1, "\",\"manufacturer\":\""@);
    let p3 = p2.push(escaped(hw.manufacturer@));
    crate::text::one_more_is_strung(p2, escaped(hw.manufacturer@));
    let p4 = p3.push("\",\"product\":\""@);
    crate::text::one_more_is_strung(p3, "\",\"product\":\""@);
    let p5 = p4.push(escaped(hw.product@));
    crate::text::one_more_is_strung(p4, escaped(hw.product@));
    let p6 = p5.push("\",\"family\":\""@);
    crate::text::one_more_is_strung(p5, "\",\"family\":\""@);
    let p7 = p6.push(escaped(hw.family@));
    crate::text::one_more_is_strung(p6, escaped(hw.family@));
    let p8 = p7.push("\",\"board\":\""@);
    crate::text::one_more_is_strung(p7, "\",\"board\":\""@);
    let p9 = p8.push(escaped(hw.board@));
    crate::text::one_more_is_strung(p8, escaped(hw.board@));
    let p10 = p9.push("\",\"bios\":\""@);
    crate::text::one_more_is_strung(p9, "\",\"bios\":\""@);
    let p11 = p10.push(escaped(hw.bios_version@));
    crate::text::one_more_is_strung(p10, escaped(hw.bios_version@));
    let p12 = p11.push("\",\"board_version\":\""@);
    crate::text::one_more_is_strung(p11, "\",\"board_version\":\""@);
    let p13 = p12.push(escaped(hw.board_version@));
    crate::text::one_more_is_strung(p12, escaped(hw.board_version@));
    let p14 = p13.push("\",\"is_hp\":"@);
    crate::text::one_more_is_strung(p13, "\",\"is_hp\":"@);
    let p15 = p14.push(bool_text_of(is_hp_machine(hw)));
    crate::text::one_more_is_strung(p14, bool_text_of(is_hp_machine(hw)));
    let p16 = p15.push(",\"capability\":\""@);
    crate::text::one_more_is_strung(p15, ",\"capability\":\""@);
    let p17 = p16.push(tier_name_of(t));
    crate::text::one_more_is_strung(p16, tier_name_of(t));
    let p18 = p17.push("\",\"submittable\":"@);
    crate::text::one_more_is_strung(p17, "\",\"submittable\":"@);
    let p19 = p18.push(bool_text_of(t is Verified));
    crate::text::one_more_is_strung(p18, bool_text_of(t is Verified));
    let p20 = p19.push(",\"verified_by\":\""@);
    crate::text::one_more_is_strung(p19, ",\"verified_by\":\""@);
    let p21 = p20.push(escaped(BIN_NAME@));
    crate::text::one_more_is_strung(p20, escaped(BIN_NAME@));
    let p22 = p21.push(" "@);
    crate::text::one_more_is_strung(p21, " "@);
    let p23 = p22.push(escaped(build));
    crate::text::one_more_is_strung(p22, escaped(build));
    let p24 = p23.push("\"}\n"@);
    crate::text::one_more_is_strung(p23, "\"}\n"@);
    let all = p24;
    assert(text == crate::text::strung(all));
    assert(all[0] == "{\"fingerprint\":\""@ && all[1] == escaped(crate::hwinfo::fingerprint_of(hw)));
    assert(all[2] == "\",\"manufacturer\":\""@ && all[3] == escaped(hw.manufacturer@));
    assert(all[4] == "\",\"product\":\""@ && all[5] == escaped(hw.product@));
    assert(all[6] == "\",\"family\":\""@ && all[7] == escaped(hw.family@));
    assert(all[8] == "\",\"board\":\""@ && all[9] == escaped(hw.board@));
    assert(all[10] == "\",\"bios\":\""@ && all[11] == escaped(hw.bios_version@));
    assert(all[12] == "\",\"board_version\":\""@ && all[13] == escaped(hw.board_version@));
    assert(all[14] == "\",\"is_hp\":"@ && all[15] == bool_text_of(is_hp_machine(hw)));
    assert(all[16] == ",\"capability\":\""@ && all[17] == tier_name_of(t));
    assert(all[18] == "\",\"submittable\":"@ && all[19] == bool_text_of(t is Verified));
    crate::text::neighbours_occur(all, 0);
    crate::text::neighbours_occur(all, 2);
    crate::text::neighbours_occur(all, 4);
    crate::text::neighbours_occur(all, 6);
    crate::text::neighbours_occur(all, 8);
    crate::text::neighbours_occur(all, 10);
    crate::text::neighbours_occur(all, 12);
    crate::text::neighbours_occur(all, 14);
    crate::text::neighbours_occur(all, 16);
    crate::text::neighbours_occur(all, 18);
}

/// The report for people names each field of the machine on its own line, the line by
/// which it could be trusted, whether it is HP's, and how far it came.
pub proof fn reports_name_every_field(hw: HwInfo, t: Tier, build: Seq<char>)
    ensures
        ({
            let text = report_text(hw, t, build);
            let yes = if is_hp_machine(hw) {
                "yes"@
            } else {
                "no"@
            };
            &&& crate::text::occurs_in("\n\nManufacturer:  "@ + hw.manufacturer@, text)
            &&& crate::text::occurs_in("\nProduct:       "@ + hw.product@, text)
            &&& crate::text::occurs_in("\nFamily:        "@ + hw.family@, text)
            &&& crate::text::occurs_in("\nBoard:         "@ + hw.board@, text)
            &&& crate::text::occurs_in("\nBIOS:          "@ + hw.bios_version@, text)
            &&& crate::text::occurs_in("\nBoard version: "@ + hw.board_version@, text)
            &&& crate::text::occurs_in("\n\nKNOWN_GOOD line:\n  "@ + crate::hwinfo::fingerprint_of(hw), text)
            &&& crate::text::occurs_in("\n\nHP hardware:      "@ + yes, text)
            &&& crate::text::occurs_in("\nThermal control:  "@ + status_text_of(t), text)
        }),
{
    let text = report_text(hw, t, build);
    let yes = if is_hp_machine(hw) {
        "yes"@
    } else {
        "no"@
    };
    let p0 = seq![BIN_NAME@];
    assert(crate::text::strung(p0) == BIN_NAME@);
    let p1 = p0.push(" "@);
    crate::text::one_more_is_strung(p0, " "@);
    let p2 = p1.push(build);
    crate::text::one_more_is_strung(p1, build);
    let p3 = p2.push("\n\nManufacturer:  "@);
    crate::text::one_more_is_strung(p2, "\n\nManufacturer:  "@);
    let p4 = p3.push(hw.manufacturer@);
    crate::text::one_more_is_strung(p3, hw.manufacturer@);
    let p5 = p4.push("\nProduct:       "@);
    crate::text::one_more_is_strung(p4, "\nProduct:       "@);
    let p6 = p5.push(hw.product@);
    crate::text::one_more_is_strung(p5, hw.product@);
    let p7 = p6.push("\nFamily:        "@);
    crate::text::one_more_is_strung(p6, "\nFamily:        "@);
    let p8 = p7.push(hw.family@);
    crate::text::one_more_is_strung(p7, hw.family@);
    let p9 = p8.push("\nBoard:         "@);
    crate::text::one_more_is_strung(p8, "\nBoard:         "@);
    let p10 = p9.push(hw.board@);
    crate::text::one_more_is_strung(p9, hw.board@);
    let p11 = p10.push("\nBIOS:          "@);
    crate::text::one_more_is_strung(p10, "\nBIOS:          "@);
    let p12 = p11.push(hw.bios_version@);
    crate::text::one_more_is_strung(p11, hw.bios_version@);
    let p13 = p12.push("\nBoard version: "@);
    crate::text::one_more_is_strung(p12, "\nBoard version: "@);
    let p14 = p13.push(hw.board_version@);
    crate::text::one_more_is_strung(p13, hw.board_version@);
    let p15 = p14.push("\n\nKNOWN_GOOD line:\n  "@);
    crate::text::one_more_is_strung(p14, "\n\nKNOWN_GOOD line:\n  "@);
    let p16 = p15.push(crate::hwinfo::fingerprint_of(hw));
    crate::text::one_more_is_strung(p15, crate::hwinfo::fingerprint_of(hw));
    let p17 = p16.push("\n\nHP hardware:      "@);
    crate::text::one_more_is_strung(p16, "\n\nHP hardware:      "@);
    let p18 = p17.push(yes);
    crate::text::one_more_is_strung(p17, yes);
    let p19 = p18.push("\nThermal control:  "@);
    crate::text::one_more_is_strung(p18, "\nThermal control:  "@);
    let p20 = p19.push(status_text_of(t));
    crate::text::one_more_is_strung(p19, status_text_of(t));
    let p21 = p20.push("\nVerified by:      "@);
    crate::text::one_more_is_strung(p20, "\nVerified by:      "@);
    let p22 = p21.push(BIN_NAME@);
    crate::text::one_more_is_strung(p21, BIN_NAME@);
    let p23 = p22.push(" "@);
    crate::text::one_more_is_strung(p22, " "@);
    let p24 = p23.push(build);
    crate::text::one_more_is_strung(p23, build);
    let p25 = p24.push("\n\n"@);
    crate::text::one_more_is_strung(p24, "\n\n"@);
    let p26 = p25.push(footer_of(t));
    crate::text::one_more_is_strung(p25, footer_of(t));
    let p27 = p26.push("\n"@);
    crate::text::one_more_is_strung(p26, "\n"@);
    let all = p27;
    assert(text == crate::text::strung(all));
    assert(all[3] == "\n\nManufacturer:  "@ && all[4] == hw.manufacturer@);
    assert(all[5] == "\nProduct:       "@ && all[6] == hw.product@);
    assert(all[7] == "\nFamily:        "@ && all[8] == hw.family@);
    assert(all[9] == "\nBoard:         "@ && all[10] == hw.board@);
    assert(all[11] == "\nBIOS:          "@ && all[12] == hw.bios_version@);
    assert(all[13] == "\nBoard version: "@ && all[14] == hw.board_version@);
    assert(all[15] == "\n\nKNOWN_GOOD line:\n  "@ && all[16] == crate::hwinfo::fingerprint_of(hw));
    assert(all[17] == "\n\nHP hardware:      "@ && all[18] == yes);
    assert(all[19] == "\nThermal control:  "@ && all[20] == status_text_of(t));
    crate::text::neighbours_occur(all, 3);
    crate::text::neighbours_occur(all, 5);
    crate::text::neighbours_occur(all, 7);
    crate::text::neighbours_occur(all, 9);
    crate::text::neighbours_occur(all, 11);
    crate::text::neighbours_occur(all, 13);
    crate::text::neighbours_occur(all, 15);
    crate::text::neighbours_occur(all, 17);
    crate::text::neighbours_occur(all, 19);
}

} // verus!
