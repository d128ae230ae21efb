//! The privileged service: routing of requests, read cache, start-up and status.

use vstd::prelude::*;
use vstd::string::*;

use crate::calls::{carried_out, goes_on, is_answer, since, Machine, Operation, Reading, Setting};
use crate::log::{set_stack_monitor, Level, Line, StackMonitor};
use crate::protocol::{
    pack_state, packed_state, status_ok, Request, CMD_READ_BRIGHTNESS, CMD_READ_BUILD_ID,
    CMD_READ_COOLSENSE, CMD_READ_STATE, CMD_READ_TEMP, CMD_READ_THERMAL, CMD_SET_BRIGHTNESS,
    CMD_SET_COOLSENSE, CMD_SET_STACK_MONITOR, CMD_SET_THERMAL, STATUS_CACHED, STATUS_INVALID_CMD,
    STATUS_OK,
};
use crate::text::{push_decimal, push_hex_upper};

verus! {

/// The operations of the BIOS that requests are routed to. An error is the status
/// byte to answer with.
pub trait ThermalOps {
    fn read_thermal(&self) -> Result<u8, u8>;

    fn set_thermal(&self, mode: u8) -> Result<(), u8>;

    fn read_coolsense(&self) -> Result<u8, u8>;

    fn set_coolsense(&self, on: u8) -> Result<(), u8>;

    fn read_temp(&self) -> Result<u8, u8>;

    fn read_brightness(&self) -> Result<u8, u8>;

    fn set_brightness(&self, level: u8) -> Result<(), u8>;
}

/// A value that was read, and when, in milliseconds.
#[derive(Clone, Copy, PartialEq, Eq, Structural, Debug)]
pub struct ReadCache {
    pub value: u8,
    pub when: u64,
}

/// The last good reads. Only reads that succeeded are kept.
#[derive(Clone, Copy, PartialEq, Eq, Structural, Debug)]
pub struct CacheSet {
    pub thermal: Option<ReadCache>,
    pub coolsense: Option<ReadCache>,
    pub temp: Option<ReadCache>,
}

/// How long a read is good for, in milliseconds.
pub const COOLDOWN_THERMAL_MS: u64 = 100;
pub const COOLDOWN_COOLSENSE_MS: u64 = 100;
pub const COOLDOWN_TEMP_MS: u64 = 500;

/// Milliseconds from `when` to `now`; zero where the clock seems to have gone back.
pub open spec fn elapsed(when: u64, now: u64) -> int {
    if when <= now {
        now - when
    } else {
        0
    }
}

/// Whether a slot holds a value that is still good at `now`.
pub open spec fn fresh(slot: Option<ReadCache>, cooldown: u64, now: u64) -> bool {
    slot matches Some(c) && elapsed(c.when, now) < cooldown
}

/// When a read was asked for, and when its answer was stored.
#[derive(Clone, Copy)]
pub struct ReadTimes {
    pub asked: u64,
    pub stored: u64,
}

/// Both times are times that `clock` gave.
pub open spec fn timed<C: Fn() -> u64>(clock: &C, times: ReadTimes) -> bool {
    clock.ensures((), times.asked) && clock.ensures((), times.stored)
}

/// The two bytes that answer a read.
pub open spec fn read_reply(r: Result<u8, u8>) -> (u8, u8) {
    match r {
        Ok(v) => (STATUS_OK, v),
        Err(e) => (e, 0),
    }
}

/// The two bytes that answer a write.
pub open spec fn set_reply(r: Result<(), u8>) -> (u8, u8) {
    match r {
        Ok(_) => (STATUS_OK, 0),
        Err(e) => (e, 0),
    }
}

/// What a read leaves in its slot, and the two bytes that answer it: the stored
/// value, marked as cached, while it is fresh; else the answer of the machine,
/// which is stored if its status is that of success.
pub open spec fn read_step(
    slot: Option<ReadCache>,
    cooldown: u64,
    answer: Result<u8, u8>,
    times: ReadTimes,
) -> (Option<ReadCache>, (u8, u8)) {
    if fresh(slot, cooldown, times.asked) {
        (slot, (STATUS_CACHED, slot->0.value))
    } else {
        let reply = read_reply(answer);
        (
            if reply.0 == STATUS_OK {
                Some(ReadCache { value: reply.1, when: times.stored })
            } else {
                slot
            },
            reply,
        )
    }
}

/// What a read asks of the machine: nothing while the slot is fresh, else the value,
/// once.
pub open spec fn read_asks(
    slot: Option<ReadCache>,
    cooldown: u64,
    what: Reading,
    answer: Result<u8, u8>,
    times: ReadTimes,
) -> Seq<Operation> {
    if fresh(slot, cooldown, times.asked) {
        Seq::empty()
    } else {
        seq![Operation::Read(what, answer)]
    }
}

/// What a read does, on the whole: to its slot, in its reply, and of the machine.
pub open spec fn read_cached(
    before: Option<ReadCache>,
    after: Option<ReadCache>,
    cooldown: u64,
    what: Reading,
    answer: Result<u8, u8>,
    times: ReadTimes,
    reply: (u8, u8),
    ops: Seq<Operation>,
) -> bool {
    &&& (after, reply) == read_step(before, cooldown, answer, times)
    &&& ops == read_asks(before, cooldown, what, answer, times)
}

/// What the machine answered to each operation, where it was asked.
#[derive(Clone, Copy)]
pub struct Answers {
    pub thermal: Result<u8, u8>,
    pub coolsense: Result<u8, u8>,
    pub temp: Result<u8, u8>,
    pub brightness: Result<u8, u8>,
    pub set: Result<(), u8>,
}

/// The reply to a combined read, from the replies to its two halves: both values
/// in one byte, marked as cached where both came from the cache; the first status
/// of failure where one of them failed.
pub open spec fn state_reply(t: (u8, u8), c: (u8, u8)) -> (u8, u8) {
    if !crate::protocol::ok_status(t.0) {
        (t.0, 0)
    } else if !crate::protocol::ok_status(c.0) {
        (c.0, 0)
    } else {
        (
            if t.0 == STATUS_CACHED && c.0 == STATUS_CACHED {
                STATUS_CACHED
            } else {
                STATUS_OK
            },
            packed_state(t.1, c.1),
        )
    }
}

/// What a request makes of the cache, and the two bytes that answer it.
pub open spec fn outcome(
    cache: CacheSet,
    fingerprint: (u8, u8),
    req: Request,
    a: Answers,
    first: ReadTimes,
    second: ReadTimes,
) -> (CacheSet, (u8, u8)) {
    let t = read_step(cache.thermal, COOLDOWN_THERMAL_MS, a.thermal, first);
    if req.command == CMD_READ_THERMAL {
        (CacheSet { thermal: t.0, ..cache }, t.1)
    } else if req.command == CMD_SET_THERMAL {
        (CacheSet { thermal: None, ..cache }, set_reply(a.set))
    } else if req.command == CMD_READ_COOLSENSE {
        let c = read_step(cache.coolsense, COOLDOWN_COOLSENSE_MS, a.coolsense, first);
        (CacheSet { coolsense: c.0, ..cache }, c.1)
    } else if req.command == CMD_SET_COOLSENSE {
        (CacheSet { coolsense: None, ..cache }, set_reply(a.set))
    } else if req.command == CMD_READ_STATE {
        let c = read_step(cache.coolsense, COOLDOWN_COOLSENSE_MS, a.coolsense, second);
        (CacheSet { thermal: t.0, coolsense: c.0, ..cache }, state_reply(t.1, c.1))
    } else if req.command == CMD_READ_TEMP {
        let r = read_step(cache.temp, COOLDOWN_TEMP_MS, a.temp, first);
        (CacheSet { temp: r.0, ..cache }, r.1)
    } else if req.command == CMD_SET_STACK_MONITOR {
        (cache, (STATUS_OK, 0))
    } else if req.command == CMD_READ_BUILD_ID {
        (cache, fingerprint)
    } else if req.command == CMD_READ_BRIGHTNESS {
        (cache, read_reply(a.brightness))
    } else if req.command == CMD_SET_BRIGHTNESS {
        (cache, set_reply(a.set))
    } else {
        (cache, (STATUS_INVALID_CMD, 0))
    }
}

/// The monitor after a request: only the request that switches it does anything.
pub open spec fn monitor_after(m: StackMonitor, req: Request) -> StackMonitor {
    if req.command == CMD_SET_STACK_MONITOR {
        StackMonitor { on: req.payload != 0, ..m }
    } else {
        m
    }
}

/// The two bytes of a reply.
pub open spec fn pair(r: [u8; 2]) -> (u8, u8) {
    (r[0], r[1])
}

fn elapsed_ms(when: u64, now: u64) -> (ms: u64)
    ensures
        ms == elapsed(when, now),
{
    now.saturating_sub(when)
}

fn read_result(r: Result<u8, u8>) -> (reply: [u8; 2])
    ensures
        pair(reply) == read_reply(r),
{
    match r {
        Ok(v) => [STATUS_OK, v],
        Err(e) => [e, 0],
    }
}

fn set_result(r: Result<(), u8>) -> (reply: [u8; 2])
    ensures
        pair(reply) == set_reply(r),
{
    match r {
        Ok(_) => [STATUS_OK, 0],
        Err(e) => [e, 0],
    }
}

fn state_result(t: [u8; 2], c: [u8; 2]) -> (reply: [u8; 2])
    ensures
        pair(reply) == state_reply(pair(t), pair(c)),
{
    if !status_ok(t[0]) {
        [t[0], 0]
    } else if !status_ok(c[0]) {
        [c[0], 0]
    } else {
        let cached: bool = t[0] == STATUS_CACHED && c[0] == STATUS_CACHED;
        let status: u8 = if cached {
            STATUS_CACHED
        } else {
            STATUS_OK
        };
        [status, pack_state(t[1], c[1])]
    }
}

impl CacheSet {
    /// A cache that holds nothing.
    pub fn new() -> (c: CacheSet)
        ensures
            c == (CacheSet { thermal: None, coolsense: None, temp: None }),
    {
        CacheSet { thermal: None, coolsense: None, temp: None }
    }

    /// The cached reply of a slot, where it is still fresh.
    pub fn cached_reply(slot: &Option<ReadCache>, cooldown_ms: u64, now: u64) -> (r: Option<
        [u8; 2],
    >)
        ensures
            r is Some <==> fresh(*slot, cooldown_ms, now),
            r matches Some(reply) ==> pair(reply) == (STATUS_CACHED, slot->0.value),
    {
        match slot {
            Some(c) => if elapsed_ms(c.when, now) < cooldown_ms {
                Some([STATUS_CACHED, c.value])
            } else {
                None
            },
            None => None,
        }
    }

    /// Takes the answer of the machine into a slot that was not fresh.
    pub fn store(slot: &mut Option<ReadCache>, answer: Result<u8, u8>, now: u64) -> (reply: [u8; 2])
        ensures
            pair(reply) == read_reply(answer),
            *final(slot) == (if read_reply(answer).0 == STATUS_OK {
                Some(ReadCache { value: read_reply(answer).1, when: now })
            } else {
                *old(slot)
            }),
    {
        let reply = read_result(answer);
        if reply[0] == STATUS_OK {
            *slot = Some(ReadCache { value: reply[1], when: now });
        }
        reply
    }

    /// Answers a read from the slot while it is fresh, and asks the machine nothing
    /// then; else asks it, once.
    pub fn cached_read<W: ThermalOps, C: Fn() -> u64>(
        slot: &mut Option<ReadCache>,
        cooldown_ms: u64,
        clock: &C,
        machine: &mut Machine<W>,
        what: Reading,
    ) -> (reply: [u8; 2])
        requires
            clock.requires(()),
        ensures
            final(machine).wmi() == old(machine).wmi(),
            exists|answer: Result<u8, u8>, times: ReadTimes|
                read_cached(
                    *old(slot),
                    *final(slot),
                    cooldown_ms,
                    what,
                    answer,
                    times,
                    pair(reply),
                    since(old(machine).log(), final(machine).log()),
                ) && timed(clock, times),
            goes_on(old(machine).log(), final(machine).log()),
            carried_out(old(machine).wmi(), since(old(machine).log(), final(machine).log())),
    {
        let asked: u64 = clock();
        let ghost before = *slot;
        let ghost start = machine.log();
        match CacheSet::cached_reply(slot, cooldown_ms, asked) {
            Some(reply) => {
                proof {
                    let times = ReadTimes { asked, stored: asked };
                    assert(since(start, start) =~= Seq::<Operation>::empty());
                    assert(start =~= start + since(start, start));
                    assert(read_cached(
                        before,
                        *slot,
                        cooldown_ms,
                        what,
                        Err(0),
                        times,
                        pair(reply),
                        since(start, start),
                    ));
                }
                reply
            },
            None => {
                let answer = machine.read(what);
                let stored: u64 = clock();
                let reply = CacheSet::store(slot, answer, stored);
                proof {
                    let times = ReadTimes { asked, stored };
                    let course = since(start, machine.log());
                    assert(course =~= seq![Operation::Read(what, answer)]);
                    assert(machine.log() =~= start + course);
                    assert(read_cached(
                        before,
                        *slot,
                        cooldown_ms,
                        what,
                        answer,
                        times,
                        pair(reply),
                        course,
                    ));
                }
                reply
            },
        }
    }
}

/// Answers a request from what the machine answered and when, without asking it.
pub fn dispatch_with(
    cache: &mut CacheSet,
    fingerprint: [u8; 2],
    req: &Request,
    a: &Answers,
    first: ReadTimes,
    second: ReadTimes,
) -> (reply: [u8; 2])
    ensures
        (*final(cache), pair(reply)) == outcome(
            *old(cache),
            pair(fingerprint),
            *req,
            *a,
            first,
            second,
        ),
{
    match req.command {
        CMD_READ_THERMAL => read_with(&mut cache.thermal, COOLDOWN_THERMAL_MS, a.thermal, first),
        CMD_SET_THERMAL => {
            cache.thermal = None;
            set_result(a.set)
        },
        CMD_READ_COOLSENSE => read_with(
            &mut cache.coolsense,
            COOLDOWN_COOLSENSE_MS,
            a.coolsense,
            first,
        ),
        CMD_SET_COOLSENSE => {
            cache.coolsense = None;
            set_result(a.set)
        },
        CMD_READ_STATE => {
            let t = read_with(&mut cache.thermal, COOLDOWN_THERMAL_MS, a.thermal, first);
            let c = read_with(&mut cache.coolsense, COOLDOWN_COOLSENSE_MS, a.coolsense, second);
            state_result(t, c)
        },
        CMD_READ_TEMP => read_with(&mut cache.temp, COOLDOWN_TEMP_MS, a.temp, first),
        CMD_SET_STACK_MONITOR => [STATUS_OK, 0],
        CMD_READ_BUILD_ID => fingerprint,
        CMD_READ_BRIGHTNESS => read_result(a.brightness),
        CMD_SET_BRIGHTNESS => set_result(a.set),
        _ => [STATUS_INVALID_CMD, 0],
    }
}

fn read_with(
    slot: &mut Option<ReadCache>,
    cooldown_ms: u64,
    answer: Result<u8, u8>,
    times: ReadTimes,
) -> (reply: [u8; 2])
    ensures
        (*final(slot), pair(reply)) == read_step(*old(slot), cooldown_ms, answer, times),
{
    match CacheSet::cached_reply(slot, cooldown_ms, times.asked) {
        Some(reply) => reply,
        None => CacheSet::store(slot, answer, times.stored),
    }
}

/// What a request asks of the machine, in its order, given what the machine answers.
/// A read that the cache can answer is not asked; nothing is asked twice, and nothing
/// that the request is not about.
pub open spec fn operations(
    cache: CacheSet,
    req: Request,
    a: Answers,
    first: ReadTimes,
    second: ReadTimes,
) -> Seq<Operation> {
    let t = read_asks(cache.thermal, COOLDOWN_THERMAL_MS, Reading::Thermal, a.thermal, first);
    if req.command == CMD_READ_THERMAL {
        t
    } else if req.command == CMD_SET_THERMAL {
        seq![Operation::Write(Setting::Thermal, req.payload, a.set)]
    } else if req.command == CMD_READ_COOLSENSE {
        read_asks(cache.coolsense, COOLDOWN_COOLSENSE_MS, Reading::Coolsense, a.coolsense, first)
    } else if req.command == CMD_SET_COOLSENSE {
        seq![Operation::Write(Setting::Coolsense, req.payload, a.set)]
    } else if req.command == CMD_READ_STATE {
        t + read_asks(
            cache.coolsense,
            COOLDOWN_COOLSENSE_MS,
            Reading::Coolsense,
            a.coolsense,
            second,
        )
    } else if req.command == CMD_READ_TEMP {
        read_asks(cache.temp, COOLDOWN_TEMP_MS, Reading::Temp, a.temp, first)
    } else if req.command == CMD_READ_BRIGHTNESS {
        seq![Operation::Read(Reading::Brightness, a.brightness)]
    } else if req.command == CMD_SET_BRIGHTNESS {
        seq![Operation::Write(Setting::Brightness, req.payload, a.set)]
    } else {
        Seq::empty()
    }
}

/// The requests that look at the clock, once for each slot that they read.
pub open spec fn is_timed<C: Fn() -> u64>(
    clock: &C,
    req: Request,
    first: ReadTimes,
    second: ReadTimes,
) -> bool {
    &&& req.command == CMD_READ_THERMAL || req.command == CMD_READ_COOLSENSE || req.command
        == CMD_READ_STATE || req.command == CMD_READ_TEMP ==> timed(clock, first)
    &&& req.command == CMD_READ_STATE ==> timed(clock, second)
}

/// The line that a request leaves for the log: one where the stack monitor is
/// switched, else none.
pub open spec fn logged(req: Request, line: Option<Line>) -> bool {
    match line {
        Some(l) => req.command == CMD_SET_STACK_MONITOR && crate::log::line_view(l) == (
            Level::Info,
            "stack monitor "@ + if req.payload != 0 {
                "ON"@
            } else {
                "OFF"@
            },
        ),
        None => req.command != CMD_SET_STACK_MONITOR,
    }
}

/// Answers a request: from the cache where a read is fresh there, else by asking
/// the machine. `clock` gives the time in milliseconds.
pub fn dispatch<W: ThermalOps, C: Fn() -> u64>(
    machine: &mut Machine<W>,
    cache: &mut CacheSet,
    monitor: &mut StackMonitor,
    fingerprint: [u8; 2],
    clock: &C,
    req: &Request,
) -> (r: ([u8; 2], Option<Line>))
    requires
        clock.requires(()),
    ensures
        final(machine).wmi() == old(machine).wmi(),
        goes_on(old(machine).log(), final(machine).log()),
        carried_out(old(machine).wmi(), since(old(machine).log(), final(machine).log())),
        exists|a: Answers, first: ReadTimes, second: ReadTimes|
            {
                &&& since(old(machine).log(), final(machine).log()) == #[trigger] operations(
                    *old(cache),
                    *req,
                    a,
                    first,
                    second,
                )
                &&& (*final(cache), pair(r.0)) == outcome(
                    *old(cache),
                    pair(fingerprint),
                    *req,
                    a,
                    first,
                    second,
                )
                &&& is_timed(clock, *req, first, second)
            },
        *final(monitor) == monitor_after(*old(monitor), *req),
        logged(*req, r.1),
{
    let ghost before = *cache;
    let ghost start = machine.log();
    let ghost mut a = Answers {
        thermal: Err(0),
        coolsense: Err(0),
        temp: Err(0),
        brightness: Err(0),
        set: Err(0),
    };
    let ghost mut first = ReadTimes { asked: 0, stored: 0 };
    let ghost mut second = ReadTimes { asked: 0, stored: 0 };
    let mut line: Option<Line> = None;
    assert(since(start, start) =~= Seq::<Operation>::empty());
    assert(start =~= start + since(start, start));
    let reply: [u8; 2] = match req.command {
        CMD_READ_THERMAL => {
            let reply = CacheSet::cached_read(
                &mut cache.thermal,
                COOLDOWN_THERMAL_MS,
                clock,
                machine,
                Reading::Thermal,
            );
            proof {
                let (answer, times) = choose|answer: Result<u8, u8>, times: ReadTimes|
                    #[trigger] read_cached(
                        before.thermal,
                        cache.thermal,
                        COOLDOWN_THERMAL_MS,
                        Reading::Thermal,
                        answer,
                        times,
                        pair(reply),
                        since(start, machine.log()),
                    ) && timed(clock, times);
                a = Answers { thermal: answer, ..a };
                first = times;
            }
            reply
        },
        CMD_SET_THERMAL => {
            cache.thermal = None;
            let done = machine.write(Setting::Thermal, req.payload);
            proof {
                a = Answers { set: done, ..a };
                one_more(start, Operation::Write(Setting::Thermal, req.payload, done));
            }
            set_result(done)
        },
        CMD_READ_COOLSENSE => {
            let reply = CacheSet::cached_read(
                &mut cache.coolsense,
                COOLDOWN_COOLSENSE_MS,
                clock,
                machine,
                Reading::Coolsense,
            );
            proof {
                let (answer, times) = choose|answer: Result<u8, u8>, times: ReadTimes|
                    #[trigger] read_cached(
                        before.coolsense,
                        cache.coolsense,
                        COOLDOWN_COOLSENSE_MS,
                        Reading::Coolsense,
                        answer,
                        times,
                        pair(reply),
                        since(start, machine.log()),
                    ) && timed(clock, times);
                a = Answers { coolsense: answer, ..a };
                first = times;
            }
            reply
        },
        CMD_SET_COOLSENSE => {
            cache.coolsense = None;
            let done = machine.write(Setting::Coolsense, req.payload);
            proof {
                a = Answers { set: done, ..a };
                one_more(start, Operation::Write(Setting::Coolsense, req.payload, done));
            }
            set_result(done)
        },
        CMD_READ_STATE => {
            let t = CacheSet::cached_read(
                &mut cache.thermal,
                COOLDOWN_THERMAL_MS,
                clock,
                machine,
                Reading::Thermal,
            );
            let ghost middle = machine.log();
            let c = CacheSet::cached_read(
                &mut cache.coolsense,
                COOLDOWN_COOLSENSE_MS,
                clock,
                machine,
                Reading::Coolsense,
            );
            proof {
                let (answer, times) = choose|answer: Result<u8, u8>, times: ReadTimes|
                    #[trigger] read_cached(
                        before.thermal,
                        cache.thermal,
                        COOLDOWN_THERMAL_MS,
                        Reading::Thermal,
                        answer,
                        times,
                        pair(t),
                        since(start, middle),
                    ) && timed(clock, times);
                let (answer2, times2) = choose|answer: Result<u8, u8>, times: ReadTimes|
                    #[trigger] read_cached(
                        before.coolsense,
                        cache.coolsense,
                        COOLDOWN_COOLSENSE_MS,
                        Reading::Coolsense,
                        answer,
                        times,
                        pair(c),
                        since(middle, machine.log()),
                    ) && timed(clock, times);
                a = Answers { thermal: answer, coolsense: answer2, ..a };
                first = times;
                second = times2;
                both_parts(machine.wmi(), start, middle, machine.log());
            }
            state_result(t, c)
        },
        CMD_READ_TEMP => {
            let reply = CacheSet::cached_read(
                &mut cache.temp,
                COOLDOWN_TEMP_MS,
                clock,
                machine,
                Reading::Temp,
            );
            proof {
                let (answer, times) = choose|answer: Result<u8, u8>, times: ReadTimes|
                    #[trigger] read_cached(
                        before.temp,
                        cache.temp,
                        COOLDOWN_TEMP_MS,
                        Reading::Temp,
                        answer,
                        times,
                        pair(reply),
                        since(start, machine.log()),
                    ) && timed(clock, times);
                a = Answers { temp: answer, ..a };
                first = times;
            }
            reply
        },
        CMD_SET_STACK_MONITOR => {
            line = Some(set_stack_monitor(monitor, req.payload != 0));
            [STATUS_OK, 0]
        },
        CMD_READ_BUILD_ID => fingerprint,
        CMD_READ_BRIGHTNESS => {
            let answer = machine.read(Reading::Brightness);
            proof {
                a = Answers { brightness: answer, ..a };
                one_more(start, Operation::Read(Reading::Brightness, answer));
            }
            read_result(answer)
        },
        CMD_SET_BRIGHTNESS => {
            let done = machine.write(Setting::Brightness, req.payload);
            proof {
                a = Answers { set: done, ..a };
                one_more(start, Operation::Write(Setting::Brightness, req.payload, done));
            }
            set_result(done)
        },
        _ => [STATUS_INVALID_CMD, 0],
    };
    assert(since(start, machine.log()) == operations(before, *req, a, first, second));
    (reply, line)
}

proof fn one_more(start: Seq<Operation>, op: Operation)
    ensures
        goes_on(start, start.push(op)),
        since(start, start.push(op)) == seq![op],
{
    let now = start.push(op);
    assert(since(start, now) =~= seq![op]);
    assert(now =~= start + since(start, now));
}

proof fn both_parts<W: ThermalOps>(
    wmi: W,
    start: Seq<Operation>,
    middle: Seq<Operation>,
    now: Seq<Operation>,
)
    requires
        goes_on(start, middle),
        goes_on(middle, now),
        carried_out(wmi, since(start, middle)),
        carried_out(wmi, since(middle, now)),
    ensures
        goes_on(start, now),
        since(start, now) == since(start, middle) + since(middle, now),
        carried_out(wmi, since(start, now)),
{
    let a = since(start, middle);
    let b = since(middle, now);
    let all = since(start, now);
    assert(now =~= start + (a + b));
    assert(all =~= a + b);
    assert forall|i: int| 0 <= i < all.len() implies is_answer(wmi, #[trigger] all[i]) by {
        if i < a.len() {
            assert(all[i] == a[i]);
        } else {
            assert(all[i] == b[i - a.len()]);
        }
    }
}

/// Answers the two bytes of a request frame: a request that does not parse is
/// answered with the status that says why, and nothing else happens.
pub fn respond<W: ThermalOps, C: Fn() -> u64>(
    machine: &mut Machine<W>,
    cache: &mut CacheSet,
    monitor: &mut StackMonitor,
    fingerprint: [u8; 2],
    clock: &C,
    buf: [u8; 2],
) -> (r: ([u8; 2], Option<Line>))
    requires
        clock.requires(()),
    ensures
        final(machine).wmi() == old(machine).wmi(),
        goes_on(old(machine).log(), final(machine).log()),
        carried_out(old(machine).wmi(), since(old(machine).log(), final(machine).log())),
        crate::protocol::parsed(buf[0], buf[1]) matches Err(status) ==> pair(r.0) == (status, 0u8)
            && r.1 is None && *final(cache) == *old(cache) && *final(monitor) == *old(monitor)
            && final(machine).log() == old(machine).log(),
        crate::protocol::parsed(buf[0], buf[1]) matches Ok(req) ==> (exists|
            a: Answers,
            first: ReadTimes,
            second: ReadTimes,
        |
            {
                &&& since(old(machine).log(), final(machine).log()) == #[trigger] operations(
                    *old(cache),
                    req,
                    a,
                    first,
                    second,
                )
                &&& (*final(cache), pair(r.0)) == outcome(
                    *old(cache),
                    pair(fingerprint),
                    req,
                    a,
                    first,
                    second,
                )
                &&& is_timed(clock, req, first, second)
            }) && *final(monitor) == monitor_after(
            *old(monitor),
            req,
        ) && logged(req, r.1),
{
    match Request::try_from(buf) {
        Ok(req) => dispatch(machine, cache, monitor, fingerprint, clock, &req),
        Err(status) => {
            assert(machine.log() =~= machine.log() + since(machine.log(), machine.log()));
            ([status, 0], None)
        },
    }
}

/// What the log says of a request before it is answered: which value is written,
/// where one is.
pub open spec fn write_text_of(req: Request) -> Option<Seq<char>> {
    if req.command == CMD_SET_THERMAL {
        Some("set thermal mode="@ + crate::text::decimal(req.payload as int))
    } else if req.command == CMD_SET_COOLSENSE {
        Some("set coolsense="@ + crate::text::decimal(req.payload as int))
    } else if req.command == CMD_SET_BRIGHTNESS {
        Some("set brightness="@ + crate::text::decimal(req.payload as int))
    } else {
        None
    }
}

/// What the log says of a request before it is answered. A request that does not
/// parse is not mentioned.
pub fn write_line(buf: [u8; 2]) -> (line: Option<Line>)
    ensures
        match line {
            Some(l) => crate::protocol::parsed(buf[0], buf[1]) is Ok && crate::log::line_view(l).0
                is Info && Some(crate::log::line_view(l).1) == write_text_of(
                crate::protocol::parsed(buf[0], buf[1])->Ok_0,
            ),
            None => crate::protocol::parsed(buf[0], buf[1]) matches Ok(req) ==> write_text_of(
                req,
            ) is None,
        },
{
    let req = match Request::try_from(buf) {
        Ok(req) => req,
        Err(_) => return None,
    };
    let what: &'static str = match req.command {
        CMD_SET_THERMAL => "set thermal mode=",
        CMD_SET_COOLSENSE => "set coolsense=",
        CMD_SET_BRIGHTNESS => "set brightness=",
        _ => return None,
    };
    let mut text: String = what.to_owned();
    push_decimal(&mut text, req.payload as u64);
    Some(Line { level: Level::Info, text })
}

/// The label under which the stack is sampled after a request.
pub open spec fn sample_label_of(command: u8) -> Seq<char> {
    if command == CMD_READ_THERMAL {
        "svc:read_thermal"@
    } else if command == CMD_SET_THERMAL {
        "svc:set_thermal"@
    } else if command == CMD_READ_COOLSENSE {
        "svc:read_coolsense"@
    } else if command == CMD_SET_COOLSENSE {
        "svc:set_coolsense"@
    } else if command == CMD_READ_STATE {
        "svc:read_state"@
    } else {
        "svc:other"@
    }
}

/// The label under which the stack is sampled after a request.
pub fn sample_label(command: u8) -> (s: &'static str)
    ensures
        s@ == sample_label_of(command),
{
    match command {
        CMD_READ_THERMAL => "svc:read_thermal",
        CMD_SET_THERMAL => "svc:set_thermal",
        CMD_READ_COOLSENSE => "svc:read_coolsense",
        CMD_SET_COOLSENSE => "svc:set_coolsense",
        CMD_READ_STATE => "svc:read_state",
        _ => "svc:other",
    }
}

/// A read within the cooldown of a good read gives the same value again, marked
/// as cached, whatever the machine would answer, and leaves the cache alone. The
/// machine is asked for the first read, and not for the second.
pub proof fn reads_within_the_cooldown_are_cached(
    slot: Option<ReadCache>,
    cooldown: u64,
    what: Reading,
    answer: Result<u8, u8>,
    times: ReadTimes,
    later_answer: Result<u8, u8>,
    later: ReadTimes,
)
    requires
        !fresh(slot, cooldown, times.asked),
        answer is Ok,
        times.stored <= later.asked < times.stored + cooldown,
    ensures
        ({
            let first = read_step(slot, cooldown, answer, times);
            &&& read_step(first.0, cooldown, later_answer, later) == (
                first.0,
                (STATUS_CACHED, answer->Ok_0),
            )
            &&& read_asks(slot, cooldown, what, answer, times).len() == 1
            &&& read_asks(first.0, cooldown, what, later_answer, later).len() == 0
        }),
{
}

/// A read that failed is not stored: where the slot is not fresh for either of two
/// reads, each asks the machine once, and the second gives what it is answered then.
pub proof fn errors_are_not_cached(
    slot: Option<ReadCache>,
    cooldown: u64,
    what: Reading,
    answer: Result<u8, u8>,
    times: ReadTimes,
    later_answer: Result<u8, u8>,
    later: ReadTimes,
)
    requires
        answer matches Err(e) && e != STATUS_OK,
        !fresh(slot, cooldown, times.asked),
        !fresh(slot, cooldown, later.asked),
    ensures
        ({
            let after = read_step(slot, cooldown, answer, times).0;
            &&& after == slot
            &&& read_asks(slot, cooldown, what, answer, times) == seq![
                Operation::Read(what, answer),
            ]
            &&& read_asks(after, cooldown, what, later_answer, later) == seq![
                Operation::Read(what, later_answer),
            ]
            &&& read_step(after, cooldown, later_answer, later).1 == read_reply(later_answer)
        }),
{
}

/// A request asks of the machine nothing but what it is about: one that sets a value
/// sets that value, once, and reads nothing; one that reads sets nothing.
pub proof fn requests_ask_their_own(
    cache: CacheSet,
    req: Request,
    a: Answers,
    first: ReadTimes,
    second: ReadTimes,
)
    ensures
        ({
            let ops = operations(cache, req, a, first, second);
            &&& ops.len() <= if req.command == CMD_READ_STATE {
                2int
            } else {
                1
            }
            &&& req.command == CMD_SET_THERMAL ==> ops == seq![
                Operation::Write(Setting::Thermal, req.payload, a.set),
            ]
            &&& req.command == CMD_SET_COOLSENSE ==> ops == seq![
                Operation::Write(Setting::Coolsense, req.payload, a.set),
            ]
            &&& req.command == CMD_SET_BRIGHTNESS ==> ops == seq![
                Operation::Write(Setting::Brightness, req.payload, a.set),
            ]
            &&& crate::protocol::is_read_command(req.command) ==> forall|i: int|
                0 <= i < ops.len() ==> #[trigger] ops[i] is Read
        }),
{
}

/// A write empties its slot, whether it succeeded or not, so that the next read
/// of that value asks the machine.
pub proof fn writes_invalidate_the_cache(
    cache: CacheSet,
    fingerprint: (u8, u8),
    payload: u8,
    a: Answers,
    first: ReadTimes,
    second: ReadTimes,
    later_answer: Result<u8, u8>,
    later: ReadTimes,
)
    ensures
        ({
            let thermal = outcome(
                cache,
                fingerprint,
                Request { command: CMD_SET_THERMAL, payload },
                a,
                first,
                second,
            ).0.thermal;
            let coolsense = outcome(
                cache,
                fingerprint,
                Request { command: CMD_SET_COOLSENSE, payload },
                a,
                first,
                second,
            ).0.coolsense;
            &&& read_step(thermal, COOLDOWN_THERMAL_MS, later_answer, later).1 == read_reply(
                later_answer,
            )
            &&& read_step(coolsense, COOLDOWN_COOLSENSE_MS, later_answer, later).1 == read_reply(
                later_answer,
            )
        }),
{
}

/// A request touches no slot but its own: requests for one value leave what is
/// cached of the others.
pub proof fn requests_leave_other_slots(
    cache: CacheSet,
    fingerprint: (u8, u8),
    req: Request,
    a: Answers,
    first: ReadTimes,
    second: ReadTimes,
)
    ensures
        ({
            let after = outcome(cache, fingerprint, req, a, first, second).0;
            &&& req.command != CMD_READ_THERMAL && req.command != CMD_SET_THERMAL && req.command
                != CMD_READ_STATE ==> after.thermal == cache.thermal
            &&& req.command != CMD_READ_COOLSENSE && req.command != CMD_SET_COOLSENSE
                && req.command != CMD_READ_STATE ==> after.coolsense == cache.coolsense
            &&& req.command != CMD_READ_TEMP ==> after.temp == cache.temp
        }),
{
}

/// A combined read succeeds exactly when both of its halves do, and its byte
/// unpacks to the two values, for every mode and setting below 16.
pub proof fn combined_read_carries_both_values(t: (u8, u8), c: (u8, u8))
    requires
        t.1 < 16,
        c.1 < 16,
    ensures
        crate::protocol::ok_status(state_reply(t, c).0) <==> crate::protocol::ok_status(t.0)
            && crate::protocol::ok_status(c.0),
        crate::protocol::ok_status(state_reply(t, c).0) ==> state_reply(t, c).1 % 16 == t.1
            && state_reply(t, c).1 / 16 == c.1,
        !crate::protocol::ok_status(state_reply(t, c).0) ==> state_reply(t, c).1 == 0,
{
    crate::protocol::packed_state_unpacks(t.1, c.1);
}

/// Where the start of the service stands: the check or the action that comes
/// next, or how it ended.
#[derive(Clone, Copy, PartialEq, Eq, Structural, Debug)]
pub enum StartStep {
    /// Register the control handler.
    Register,
    /// Check that the program runs from the install directory.
    CheckDirectory,
    /// Check that only privileged principals can write the image.
    CheckImage,
    /// Check that the process runs at high or system integrity.
    CheckIntegrity,
    /// Remove every privilege but the needed ones from the token.
    ReduceToken,
    /// Create the event that stops the service.
    CreateEvent,
    /// Connect to WMI.
    ConnectWmi,
    /// Create the pipe.
    CreatePipe,
    /// Subscribe to the hotkey. The service runs without it too.
    SubscribeHotkey,
    /// Everything is set up.
    Running,
    /// Ended with this exit code.
    Stopped(u32),
    /// Ended without a word: there is nobody to tell.
    Unregistered,
}

/// The exit code with which the service ends where a step fails; none where
/// the step may fail, or has no way to say so.
pub open spec fn exit_code_of(step: StartStep) -> Option<u32> {
    match step {
        StartStep::CheckDirectory => Some(4u32),
        StartStep::CheckImage => Some(5u32),
        StartStep::CheckIntegrity => Some(6u32),
        StartStep::ReduceToken => Some(7u32),
        StartStep::CreateEvent => Some(1u32),
        StartStep::ConnectWmi => Some(2u32),
        StartStep::CreatePipe => Some(3u32),
        _ => None,
    }
}

/// The step after one that succeeded.
pub open spec fn step_after(step: StartStep) -> StartStep {
    match step {
        StartStep::Register => StartStep::CheckDirectory,
        StartStep::CheckDirectory => StartStep::CheckImage,
        StartStep::CheckImage => StartStep::CheckIntegrity,
        StartStep::CheckIntegrity => StartStep::ReduceToken,
        StartStep::ReduceToken => StartStep::CreateEvent,
        StartStep::CreateEvent => StartStep::ConnectWmi,
        StartStep::ConnectWmi => StartStep::CreatePipe,
        StartStep::CreatePipe => StartStep::SubscribeHotkey,
        StartStep::SubscribeHotkey => StartStep::Running,
        ended => ended,
    }
}

/// The step that follows, by whether this one succeeded.
pub open spec fn start_step(step: StartStep, ok: bool) -> StartStep {
    if ok || step is SubscribeHotkey {
        step_after(step)
    } else if step is Register {
        StartStep::Unregistered
    } else {
        match exit_code_of(step) {
            Some(code) => StartStep::Stopped(code),
            None => step,
        }
    }
}

/// The step that follows, by whether this one succeeded. Every check that fails
/// ends the start: the service does no privileged work on a footing that it could
/// not confirm.
pub fn start_next(step: StartStep, ok: bool) -> (next: StartStep)
    ensures
        next == start_step(step, ok),
{
    match step {
        StartStep::Register => if ok {
            StartStep::CheckDirectory
        } else {
            StartStep::Unregistered
        },
        StartStep::CheckDirectory => if ok {
            StartStep::CheckImage
        } else {
            StartStep::Stopped(4)
        },
        StartStep::CheckImage => if ok {
            StartStep::CheckIntegrity
        } else {
            StartStep::Stopped(5)
        },
        StartStep::CheckIntegrity => if ok {
            StartStep::ReduceToken
        } else {
            StartStep::Stopped(6)
        },
        StartStep::ReduceToken => if ok {
            StartStep::CreateEvent
        } else {
            StartStep::Stopped(7)
        },
        StartStep::CreateEvent => if ok {
            StartStep::ConnectWmi
        } else {
            StartStep::Stopped(1)
        },
        StartStep::ConnectWmi => if ok {
            StartStep::CreatePipe
        } else {
            StartStep::Stopped(2)
        },
        StartStep::CreatePipe => if ok {
            StartStep::SubscribeHotkey
        } else {
            StartStep::Stopped(3)
        },
        StartStep::SubscribeHotkey => StartStep::Running,
        ended => ended,
    }
}

/// Whether a token has no privilege too many.
pub open spec fn is_reduced(extras: u32) -> bool {
    extras == 0
}

/// Whether the token is reduced: no privilege beyond the needed ones is left.
pub fn token_reduced(extras: u32) -> (r: bool)
    ensures
        r == is_reduced(extras),
{
    extras == 0
}

/// What the log says where a step fails.
pub open spec fn refusal_text_of(step: StartStep) -> Seq<char> {
    match step {
        StartStep::CheckDirectory => "REFUSING: not running from the install directory"@,
        StartStep::CheckImage =>
            "REFUSING: install image is writable by a non-privileged principal"@,
        StartStep::CheckIntegrity => "REFUSING: not at System/High integrity"@,
        StartStep::ReduceToken =>
            "REFUSING: token retains privileges beyond the least-privilege set"@,
        StartStep::CreateEvent => "FAIL: CreateEventW"@,
        StartStep::ConnectWmi => "FAIL: WMI connect error=0x"@,
        StartStep::CreatePipe => "FAIL: pipe create "@,
        _ => ""@,
    }
}

/// What the log says where a step fails; for the last two, the error follows.
pub fn refusal_text(step: StartStep) -> (s: &'static str)
    ensures
        s@ == refusal_text_of(step),
{
    match step {
        StartStep::CheckDirectory => "REFUSING: not running from the install directory",
        StartStep::CheckImage =>
            "REFUSING: install image is writable by a non-privileged principal",
        StartStep::CheckIntegrity => "REFUSING: not at System/High integrity",
        StartStep::ReduceToken =>
            "REFUSING: token retains privileges beyond the least-privilege set",
        StartStep::CreateEvent => "FAIL: CreateEventW",
        StartStep::ConnectWmi => "FAIL: WMI connect error=0x",
        StartStep::CreatePipe => "FAIL: pipe create ",
        _ => "",
    }
}

/// The line that says how far the token was reduced.
pub fn token_line(removed: u32, extras: u32) -> (line: Line)
    ensures
        crate::log::line_view(line) == (
            Level::Info,
            "token self-assert: removed "@ + crate::text::decimal(removed as int)
                + " extra privilege(s), "@ + crate::text::decimal(extras as int)
                + " beyond-set remain"@,
        ),
{
    let mut text: String = "token self-assert: removed ".to_owned();
    push_decimal(&mut text, removed as u64);
    text.append(" extra privilege(s), ");
    push_decimal(&mut text, extras as u64);
    text.append(" beyond-set remain");
    Line { level: Level::Info, text }
}

/// The line that says why WMI could not be reached.
pub fn wmi_error_line(code: u8) -> (line: Line)
    ensures
        crate::log::line_view(line) == (
            Level::Error,
            refusal_text_of(StartStep::ConnectWmi) + crate::text::hex_upper(code as int, 2),
        ),
{
    let mut text: String = refusal_text(StartStep::ConnectWmi).to_owned();
    push_hex_upper(&mut text, code as u64, 2);
    Line { level: Level::Error, text }
}

/// Where the start stands after a sequence of results, each of the step that was
/// due.
pub open spec fn started(results: Seq<bool>) -> StartStep
    decreases results.len(),
{
    if results.len() == 0 {
        StartStep::Register
    } else {
        start_step(started(results.drop_last()), results.last())
    }
}

/// The service runs only where each of the eight steps that must succeed did, in
/// their order, whatever became of the hotkey.
pub proof fn service_runs_only_on_confirmed_footing(results: Seq<bool>)
    requires
        started(results) is Running,
    ensures
        results.len() >= 9,
        forall|i: int| 0 <= i < 8 ==> results[i],
{
    reach(results);
}

/// How many results it takes to come to a step.
spec fn depth(step: StartStep) -> int {
    match step {
        StartStep::Register => 0,
        StartStep::CheckDirectory => 1,
        StartStep::CheckImage => 2,
        StartStep::CheckIntegrity => 3,
        StartStep::ReduceToken => 4,
        StartStep::CreateEvent => 5,
        StartStep::ConnectWmi => 6,
        StartStep::CreatePipe => 7,
        StartStep::SubscribeHotkey => 8,
        StartStep::Running => 9,
        StartStep::Stopped(_) => -1,
        StartStep::Unregistered => -1,
    }
}

proof fn reach(results: Seq<bool>)
    ensures
        depth(started(results)) >= 0 ==> {
            &&& results.len() >= depth(started(results))
            &&& depth(started(results)) < 9 ==> results.len() == depth(started(results))
            &&& forall|i: int| 0 <= i < depth(started(results)) && i < 8 ==> results[i]
        },
    decreases results.len(),
{
    if results.len() > 0 {
        let before = results.drop_last();
        reach(before);
        assert(forall|i: int| 0 <= i < before.len() ==> before[i] == results[i]);
    }
}

/// Each step that must succeed has an exit code of its own, and none is zero.
pub proof fn exit_codes_tell_steps_apart(a: StartStep, b: StartStep)
    requires
        exit_code_of(a) is Some,
        exit_code_of(a) == exit_code_of(b),
    ensures
        a == b,
        exit_code_of(a)->0 != 0,
{
}

/// Where the service stands with the client at the pipe.
#[derive(Clone, Copy, PartialEq, Eq, Structural, Debug)]
pub enum ServeStep {
    /// Wait for a client or for the end.
    Wait,
    /// Find out who the client is.
    Validate,
    /// Read the request.
    Read,
    /// Answer the request.
    Answer,
    /// Disconnect the client.
    Disconnect,
    /// The service was told to end.
    End,
}

/// The step that follows, by whether this one succeeded.
pub open spec fn serve_step(step: ServeStep, ok: bool) -> ServeStep {
    match step {
        ServeStep::Wait => if ok {
            ServeStep::Validate
        } else {
            ServeStep::End
        },
        ServeStep::Validate => if ok {
            ServeStep::Read
        } else {
            ServeStep::Disconnect
        },
        ServeStep::Read => if ok {
            ServeStep::Answer
        } else {
            ServeStep::Disconnect
        },
        ServeStep::Answer => ServeStep::Disconnect,
        ServeStep::Disconnect => ServeStep::Wait,
        ServeStep::End => ServeStep::End,
    }
}

/// The step that follows, by whether this one succeeded.
pub fn serve_next(step: ServeStep, ok: bool) -> (next: ServeStep)
    ensures
        next == serve_step(step, ok),
{
    match step {
        ServeStep::Wait => if ok {
            ServeStep::Validate
        } else {
            ServeStep::End
        },
        ServeStep::Validate => if ok {
            ServeStep::Read
        } else {
            ServeStep::Disconnect
        },
        ServeStep::Read => if ok {
            ServeStep::Answer
        } else {
            ServeStep::Disconnect
        },
        ServeStep::Answer => ServeStep::Disconnect,
        ServeStep::Disconnect => ServeStep::Wait,
        ServeStep::End => ServeStep::End,
    }
}

/// Nobody is answered who was not validated and did not send a whole request, and
/// a client is disconnected before the next one is waited for.
pub proof fn only_validated_clients_are_answered(step: ServeStep, ok: bool, ok2: bool)
    ensures
        serve_step(serve_step(step, ok), ok2) is Answer ==> step is Validate && ok && ok2,
        serve_step(step, ok) is Wait ==> step is Disconnect,
        serve_step(step, ok) is Validate ==> step is Wait && ok,
{
}

/// States of a service, as the service control manager numbers them.
pub const SERVICE_STOPPED: u32 = 1;
pub const SERVICE_START_PENDING: u32 = 2;
pub const SERVICE_STOP_PENDING: u32 = 3;
pub const SERVICE_RUNNING: u32 = 4;
/// Controls that a service accepts.
pub const SERVICE_ACCEPT_STOP: u32 = 1;
pub const SERVICE_ACCEPT_SHUTDOWN: u32 = 4;
/// Controls that a service is sent.
pub const SERVICE_CONTROL_STOP: u32 = 1;
pub const SERVICE_CONTROL_SHUTDOWN: u32 = 5;
/// Says that the exit code is the service's own.
pub const ERROR_SERVICE_SPECIFIC_ERROR: u32 = 1066;

/// What is reported to the service control manager.
#[derive(Clone, Copy, PartialEq, Eq, Structural, Debug)]
pub struct ServiceStatus {
    pub state: u32,
    pub accepts: u32,
    pub win32_exit_code: u32,
    pub specific_exit_code: u32,
}

/// The report for a state and an exit code.
pub open spec fn status_of(state: u32, exit_code: u32) -> ServiceStatus {
    ServiceStatus {
        state,
        accepts: if state == SERVICE_RUNNING {
            5u32
        } else {
            SERVICE_ACCEPT_STOP
        },
        win32_exit_code: if exit_code != 0 {
            ERROR_SERVICE_SPECIFIC_ERROR
        } else {
            0
        },
        specific_exit_code: exit_code,
    }
}

/// The report for a state and an exit code. A running service also accepts a
/// shutdown; an exit code other than zero is marked as the service's own.
pub fn service_status(state: u32, exit_code: u32) -> (s: ServiceStatus)
    ensures
        s == status_of(state, exit_code),
{
    assert(1u32 | 4u32 == 5u32) by (bit_vector);
    ServiceStatus {
        state,
        accepts: if state == SERVICE_RUNNING {
            SERVICE_ACCEPT_STOP | SERVICE_ACCEPT_SHUTDOWN
        } else {
            SERVICE_ACCEPT_STOP
        },
        win32_exit_code: if exit_code != 0 {
            ERROR_SERVICE_SPECIFIC_ERROR
        } else {
            0
        },
        specific_exit_code: exit_code,
    }
}

/// Whether a control is one of those that end the service.
pub open spec fn ends_service(control: u32) -> bool {
    control == SERVICE_CONTROL_STOP || control == SERVICE_CONTROL_SHUTDOWN
}

/// Whether a control tells the service to end.
pub fn is_stop_control(control: u32) -> (r: bool)
    ensures
        r == ends_service(control),
{
    control == SERVICE_CONTROL_STOP || control == SERVICE_CONTROL_SHUTDOWN
}

/// Security descriptor of the named events: users may wait, and only SYSTEM and
/// the administrators may signal.
pub const EVENT_SDDL: &'static str =
    "D:(A;;0x00120000;;;BU)(A;;0x001F0003;;;SY)(A;;0x001F0003;;;BA)";

/// What is read of which value.
pub open spec fn read_by(command: u8) -> Option<Reading> {
    match command {
        0x01 => Some(Reading::Thermal),
        0x03 => Some(Reading::Coolsense),
        0x08 => Some(Reading::Temp),
        0x09 => Some(Reading::Brightness),
        _ => None,
    }
}

/// A read of one value asks the machine for that value, at most once, and answers what the
/// machine answered: the value with a status of zero, or the status of the failure with
/// none. Where it asks nothing, the value is one that was read before, and is marked.
pub proof fn reads_answer_what_they_ask(
    cache: CacheSet,
    fingerprint: (u8, u8),
    req: Request,
    a: Answers,
    first: ReadTimes,
    second: ReadTimes,
)
    requires
        read_by(req.command) is Some,
    ensures
        ({
            let ops = operations(cache, req, a, first, second);
            let reply = outcome(cache, fingerprint, req, a, first, second).1;
            ||| ops.len() == 1 && (ops[0] matches Operation::Read(what, r) && what == read_by(
                req.command,
            )->0 && match r {
                Ok(v) => reply == (0u8, v),
                Err(e) => reply == (e, 0u8),
            })
            ||| ops.len() == 0 && reply.0 == 0x80 && match req.command {
                0x01 => cache.thermal matches Some(c) && c.value == reply.1,
                0x03 => cache.coolsense matches Some(c) && c.value == reply.1,
                0x08 => cache.temp matches Some(c) && c.value == reply.1,
                _ => false,
            }
        }),
{
}

/// How long a value that was read answers for the machine: a tenth of a second for the mode
/// and for Smart Sense, half a second for the temperature, from when it was stored. The
/// brightness is read each time.
pub proof fn values_are_good_for_a_while(
    cache: CacheSet,
    value: u8,
    at: u64,
    req: Request,
    a: Answers,
    first: ReadTimes,
    second: ReadTimes,
)
    requires
        at <= first.asked,
    ensures
        ({
            let kept: Option<ReadCache> = Some(ReadCache { value, when: at });
            let full = CacheSet { thermal: kept, coolsense: kept, temp: kept };
            let asks = operations(full, req, a, first, second).len();
            &&& req.command == 0x01 || req.command == 0x03 ==> (asks == 0 <==> first.asked - at
                < 100)
            &&& req.command == 0x08 ==> (asks == 0 <==> first.asked - at < 500)
            &&& req.command == 0x09 ==> asks == 1
        }),
{
}

/// A request that sets a value writes it as it was asked, once, and says how that went; the
/// value is then read anew. The build, monitoring and what is not known ask nothing.
pub proof fn writes_say_how_they_went(
    cache: CacheSet,
    fingerprint: (u8, u8),
    req: Request,
    a: Answers,
    first: ReadTimes,
    second: ReadTimes,
)
    ensures
        ({
            let ops = operations(cache, req, a, first, second);
            let (after, reply) = outcome(cache, fingerprint, req, a, first, second);
            &&& req.command == 0x02 || req.command == 0x04 || req.command == 0x0A ==> {
                &&& ops.len() == 1
                &&& ops[0] matches Operation::Write(what, v, r) && {
                    &&& v == req.payload
                    &&& what is Thermal <==> req.command == 0x02
                    &&& what is Coolsense <==> req.command == 0x04
                    &&& what is Brightness <==> req.command == 0x0A
                    &&& r is Ok ==> reply == (0u8, 0u8)
                    &&& r matches Err(e) ==> reply == (e, 0u8)
                }
            }
            &&& req.command == 0x02 ==> after.thermal is None
            &&& req.command == 0x04 ==> after.coolsense is None
            &&& req.command == 0x06 ==> ops.len() == 0 && reply == fingerprint && after == cache
            &&& req.command == 0x07 ==> ops.len() == 0 && reply == (0u8, 0u8) && after == cache
            &&& req.command == 0 || req.command == 0x05 || req.command > 0x0C ==> ops.len() == 0
                && reply == (1u8, 0u8) && after == cache
        }),
{
}

/// A combined read asks for the mode and then for Smart Sense, each as a read of its own
/// would, and answers with both: marked where both were cached, and with the first failure
/// where there is one.
pub proof fn combined_reads_are_two_reads(
    cache: CacheSet,
    fingerprint: (u8, u8),
    a: Answers,
    first: ReadTimes,
    second: ReadTimes,
)
    ensures
        ({
            let both = Request { command: 0x0C, payload: 0 };
            let one = Request { command: 0x01, payload: 0 };
            let two = Request { command: 0x03, payload: 0 };
            let t = outcome(cache, fingerprint, one, a, first, first);
            let c = outcome(t.0, fingerprint, two, a, second, second);
            let reply = outcome(cache, fingerprint, both, a, first, second);
            &&& operations(cache, both, a, first, second) == operations(cache, one, a, first, first)
                + operations(t.0, two, a, second, second)
            &&& reply.0 == c.0
            &&& !crate::protocol::ok_status(t.1.0) ==> reply.1 == (t.1.0, 0u8)
            &&& crate::protocol::ok_status(t.1.0) && !crate::protocol::ok_status(c.1.0) ==> reply.1
                == (c.1.0, 0u8)
            &&& crate::protocol::ok_status(t.1.0) && crate::protocol::ok_status(c.1.0) ==> {
                &&& reply.1.1 == t.1.1 % 16 + 16 * (c.1.1 % 16)
                &&& reply.1.0 == 0x80 <==> t.1.0 == 0x80 && c.1.0 == 0x80
                &&& reply.1.0 == 0 || reply.1.0 == 0x80
            }
        }),
{
}

/// Monitoring is as it was last asked for, and no other request changes it.
pub proof fn monitoring_is_as_asked(m: StackMonitor, req: Request)
    ensures
        req.command == 0x07 ==> (monitor_after(m, req).on <==> req.payload != 0),
        req.command != 0x07 ==> monitor_after(m, req) == m,
{
}

/// The log mentions a request before it is answered just where it sets a value of the
/// machine: which one, and to what.
pub proof fn writes_are_logged(req: Request)
    ensures
        write_text_of(req) is Some <==> req.command == 0x02 || req.command == 0x04 || req.command
            == 0x0A,
        req.command == 0x02 ==> write_text_of(req) == Some(
            "set thermal mode="@ + crate::text::decimal(req.payload as int),
        ),
        req.command == 0x04 ==> write_text_of(req) == Some(
            "set coolsense="@ + crate::text::decimal(req.payload as int),
        ),
        req.command == 0x0A ==> write_text_of(req) == Some(
            "set brightness="@ + crate::text::decimal(req.payload as int),
        ),
{
}

/// Whether `step` was due after some of the results, and the next one said that it
/// succeeded.
pub open spec fn passed(results: Seq<bool>, step: StartStep) -> bool {
    exists|k: int|
        0 <= k < results.len() && started(#[trigger] results.take(k)) == step && results[k]
}

/// The steps that must have succeeded before the machine is touched: the place of the
/// program, its image, its integrity and its token.
pub proof fn the_machine_is_touched_after_the_checks(results: Seq<bool>)
    requires
        started(results) is CreateEvent || started(results) is ConnectWmi || started(results)
            is CreatePipe || started(results) is SubscribeHotkey || started(results) is Running,
    ensures
        passed(results, StartStep::CheckDirectory),
        passed(results, StartStep::CheckImage),
        passed(results, StartStep::CheckIntegrity),
        passed(results, StartStep::ReduceToken),
        started(results) is CreatePipe || started(results) is Running ==> passed(
            results,
            StartStep::ConnectWmi,
        ),
        started(results) is Running ==> passed(results, StartStep::CreatePipe),
    decreases results.len(),
{
    let before = results.drop_last();
    assert(results.take(results.len() - 1) =~= before);
    if results.len() > 0 {
        passed_before(results);
        match started(before) {
            StartStep::ReduceToken => {
                came_by(before);
            },
            StartStep::CreateEvent => the_machine_is_touched_after_the_checks(before),
            StartStep::ConnectWmi => the_machine_is_touched_after_the_checks(before),
            StartStep::CreatePipe => the_machine_is_touched_after_the_checks(before),
            StartStep::SubscribeHotkey => {
                the_machine_is_touched_after_the_checks(before);
                came_by(before);
            },
            StartStep::Running => the_machine_is_touched_after_the_checks(before),
            _ => {},
        }
    }
}

/// What was passed stays passed.
proof fn passed_before(results: Seq<bool>)
    requires
        results.len() > 0,
    ensures
        forall|step: StartStep| passed(results.drop_last(), step) ==> passed(results, step),
{
    let before = results.drop_last();
    assert forall|step: StartStep| passed(before, step) implies passed(results, step) by {
        let k = choose|k: int|
            0 <= k < before.len() && started(#[trigger] before.take(k)) == step && before[k];
        assert(before.take(k) =~= results.take(k));
        assert(started(results.take(k)) == step && results[k]);
    }
}

/// By which steps the start came to the ones in the middle.
proof fn came_by(results: Seq<bool>)
    ensures
        started(results) is CheckImage || started(results) is CheckIntegrity || started(results)
            is ReduceToken ==> passed(results, StartStep::CheckDirectory),
        started(results) is CheckIntegrity || started(results) is ReduceToken ==> passed(
            results,
            StartStep::CheckImage,
        ),
        started(results) is ReduceToken ==> passed(results, StartStep::CheckIntegrity),
        started(results) is SubscribeHotkey ==> passed(results, StartStep::CreatePipe) && passed(
            results,
            StartStep::ConnectWmi,
        ),
        started(results) is CreatePipe ==> passed(results, StartStep::ConnectWmi),
    decreases results.len(),
{
    if results.len() > 0 {
        let before = results.drop_last();
        assert(results.take(results.len() - 1) =~= before);
        came_by(before);
        passed_before(results);
    }
}

/// A check that fails ends the start with the code of that check; the hotkey alone may
/// fail. Where nothing fails, the service comes to run.
pub proof fn failed_checks_end_the_start(step: StartStep)
    ensures
        start_step(StartStep::Register, false) is Unregistered,
        start_step(StartStep::CheckDirectory, false) == StartStep::Stopped(4),
        start_step(StartStep::CheckImage, false) == StartStep::Stopped(5),
        start_step(StartStep::CheckIntegrity, false) == StartStep::Stopped(6),
        start_step(StartStep::ReduceToken, false) == StartStep::Stopped(7),
        start_step(StartStep::CreateEvent, false) == StartStep::Stopped(1),
        start_step(StartStep::ConnectWmi, false) == StartStep::Stopped(2),
        start_step(StartStep::CreatePipe, false) == StartStep::Stopped(3),
        start_step(StartStep::SubscribeHotkey, false) is Running,
        step is Running || step is Stopped || step is Unregistered ==> start_step(step, true)
            == step && start_step(step, false) == step,
        started(seq![true, true, true, true, true, true, true, true, true]) is Running,
        is_reduced(0) && (forall|extras: u32| extras > 0 ==> !is_reduced(extras)),
{
    reveal_with_fuel(started, 10);
    let all = seq![true, true, true, true, true, true, true, true, true];
    let s8 = all.drop_last();
    let s7 = s8.drop_last();
    let s6 = s7.drop_last();
    let s5 = s6.drop_last();
    let s4 = s5.drop_last();
    let s3 = s4.drop_last();
    let s2 = s3.drop_last();
    let s1 = s2.drop_last();
    assert(s1.drop_last().len() == 0);
    assert(started(s1) is CheckDirectory);
    assert(started(s2) is CheckImage);
    assert(started(s3) is CheckIntegrity);
    assert(started(s4) is ReduceToken);
    assert(started(s5) is CreateEvent);
    assert(started(s6) is ConnectWmi);
    assert(started(s7) is CreatePipe);
    assert(started(s8) is SubscribeHotkey);
}

/// How a client is served: it is validated, then read, then answered, and disconnected
/// whatever came of it; the service ends only where a wait ends without a client.
pub proof fn clients_are_served_in_turn(step: ServeStep, ok: bool)
    ensures
        serve_step(step, ok) is Read <==> step is Validate && ok,
        serve_step(step, ok) is Answer <==> step is Read && ok,
        serve_step(step, ok) is Disconnect <==> step is Answer || (!ok && (step is Validate || step
            is Read)),
        serve_step(step, ok) is Wait <==> step is Disconnect,
        serve_step(step, ok) is Validate <==> step is Wait && ok,
        serve_step(step, ok) is End <==> step is End || (step is Wait && !ok),
{
}

/// What is reported: a service that runs can be stopped and shut down, and any other only
/// stopped; an end without a failure reports none, and a failure is reported as the
/// service's own. Both controls end it.
pub proof fn reports_tell_failures(state: u32, exit_code: u32, control: u32)
    ensures
        status_of(state, exit_code).state == state,
        status_of(state, exit_code).specific_exit_code == exit_code,
        status_of(state, exit_code).win32_exit_code == 0 <==> exit_code == 0,
        exit_code != 0 ==> status_of(state, exit_code).win32_exit_code == 1066,
        status_of(state, exit_code).accepts == if state == 4 {
            1u32 + 4
        } else {
            1
        },
        ends_service(control) <==> control == 1 || control == 5,
{
}

/// The stack is sampled under the name of the request where it reads or sets the mode or
/// Smart Sense, and under one name for all others.
pub proof fn samples_are_named_after_the_request(command: u8)
    ensures
        sample_label_of(command) == "svc:other"@ <==> !(command == CMD_READ_THERMAL || command
            == CMD_SET_THERMAL || command == CMD_READ_COOLSENSE || command == CMD_SET_COOLSENSE
            || command == CMD_READ_STATE),
        sample_label_of(command) == "svc:read_thermal"@ <==> command == CMD_READ_THERMAL,
        sample_label_of(command) == "svc:set_thermal"@ <==> command == CMD_SET_THERMAL,
        sample_label_of(command) == "svc:read_coolsense"@ <==> command == CMD_READ_COOLSENSE,
        sample_label_of(command) == "svc:set_coolsense"@ <==> command == CMD_SET_COOLSENSE,
        sample_label_of(command) == "svc:read_state"@ <==> command == CMD_READ_STATE,
{
    reveal_strlit("svc:read_thermal");
    reveal_strlit("svc:set_thermal");
    reveal_strlit("svc:read_coolsense");
    reveal_strlit("svc:set_coolsense");
    reveal_strlit("svc:read_state");
    reveal_strlit("svc:other");
    assert("svc:read_thermal"@.len() == 16);
    assert("svc:set_thermal"@.len() == 15);
    assert("svc:read_coolsense"@.len() == 18);
    assert("svc:set_coolsense"@.len() == 17);
    assert("svc:read_state"@.len() == 14);
    assert("svc:other"@.len() == 9);
}

/// A start that is refused says that it is, and one that fails for another reason says
/// that; what goes on says nothing.
pub proof fn refusals_are_told_from_failures(step: StartStep)
    ensures
        crate::text::begins_with(refusal_text_of(step), "REFUSING: "@) <==> step is CheckDirectory
            || step is CheckImage || step is CheckIntegrity || step is ReduceToken,
        crate::text::begins_with(refusal_text_of(step), "FAIL: "@) <==> step is CreateEvent || step
            is ConnectWmi || step is CreatePipe,
{
    reveal_strlit("REFUSING: ");
    reveal_strlit("FAIL: ");
    reveal_strlit("REFUSING: not running from the install directory");
    reveal_strlit("REFUSING: install image is writable by a non-privileged principal");
    reveal_strlit("REFUSING: not at System/High integrity");
    reveal_strlit("REFUSING: token retains privileges beyond the least-privilege set");
    reveal_strlit("FAIL: CreateEventW");
    reveal_strlit("FAIL: WMI connect error=0x");
    reveal_strlit("FAIL: pipe create ");
    reveal_strlit("");
    let t = refusal_text_of(step);
    assert("REFUSING: "@[0] == 'R');
    assert("FAIL: "@[0] == 'F');
    if t.len() >= 10 {
        assert(t.take(10)[0] == t[0]);
        assert(t.take(6)[0] == t[0]);
    }
    match step {
        StartStep::CheckDirectory => assert(t.take(10) =~= "REFUSING: "@),
        StartStep::CheckImage => assert(t.take(10) =~= "REFUSING: "@),
        StartStep::CheckIntegrity => assert(t.take(10) =~= "REFUSING: "@),
        StartStep::ReduceToken => assert(t.take(10) =~= "REFUSING: "@),
        StartStep::CreateEvent => assert(t.take(6) =~= "FAIL: "@),
        StartStep::ConnectWmi => assert(t.take(6) =~= "FAIL: "@),
        StartStep::CreatePipe => assert(t.take(6) =~= "FAIL: "@),
        _ => assert(t.len() == 0),
    }
}

} // verus!
