//! What is asked of the world outside, in its order.
//!
//! A function that may ask holds one of the types below, and nothing else to ask with:
//! what they ask through is private to this module, and whatever is asked goes on
//! record. So its contract can say which questions it asks, how often, and in which
//! order.

use vstd::prelude::*;

use crate::service::ThermalOps;
use crate::wmi_com::{BiosAnswer, BiosRequest};

verus! {

/// What came on record since.
pub open spec fn since<T>(before: Seq<T>, after: Seq<T>) -> Seq<T> {
    after.skip(before.len() as int)
}

/// Nothing of the record is lost.
pub open spec fn goes_on<T>(before: Seq<T>, after: Seq<T>) -> bool {
    after == before + since(before, after)
}

/// A request to the service, and the response to it, if there was one.
pub struct Exchange {
    pub command: u8,
    pub payload: u8,
    pub answer: Option<[u8; 2]>,
}

impl Exchange {
    /// The request is this one.
    pub open spec fn asks(self, command: u8, payload: u8) -> bool {
        self.command == command && self.payload == payload
    }
}

/// The responses are ones that `transact` gives to the requests.
pub open spec fn carried<F: Fn(u8, u8) -> Option<[u8; 2]>>(
    transact: F,
    course: Seq<Exchange>,
) -> bool {
    forall|i: int|
        0 <= i < course.len() ==> transact.ensures(
            ((#[trigger] course[i]).command, course[i].payload),
            course[i].answer,
        )
}

/// A line to the service.
pub struct Line<'a, F: Fn(u8, u8) -> Option<[u8; 2]>> {
    transact: &'a F,
    log: Ghost<Seq<Exchange>>,
}

impl<'a, F: Fn(u8, u8) -> Option<[u8; 2]>> Line<'a, F> {
    /// What went over the line so far.
    pub closed spec fn log(&self) -> Seq<Exchange> {
        self.log@
    }

    /// What carries the requests.
    pub closed spec fn transact(&self) -> F {
        *self.transact
    }

    /// A line over which nothing went yet.
    pub fn new(transact: &'a F) -> (line: Line<'a, F>)
        ensures
            line.log() == Seq::<Exchange>::empty(),
            line.transact() == *transact,
    {
        Line { transact, log: Ghost(Seq::empty()) }
    }

    /// Sends one request.
    pub fn ask(&mut self, command: u8, payload: u8) -> (answer: Option<[u8; 2]>)
        requires
            old(self).transact().requires((command, payload)),
        ensures
            final(self).transact() == old(self).transact(),
            final(self).log() == old(self).log().push(Exchange { command, payload, answer }),
            old(self).transact().ensures((command, payload), answer),
    {
        let answer = (self.transact)(command, payload);
        self.log = Ghost(self.log@.push(Exchange { command, payload, answer }));
        answer
    }
}

/// The answers are ones that `bios` gives to the calls.
pub open spec fn made<B: Fn(BiosRequest) -> BiosAnswer>(
    bios: B,
    calls: Seq<(BiosRequest, BiosAnswer)>,
) -> bool {
    forall|i: int|
        0 <= i < calls.len() ==> bios.ensures(((#[trigger] calls[i]).0,), calls[i].1)
}

/// The firmware, by the calls into it.
pub struct Firmware<'a, B: Fn(BiosRequest) -> BiosAnswer> {
    bios: &'a B,
    log: Ghost<Seq<(BiosRequest, BiosAnswer)>>,
}

impl<'a, B: Fn(BiosRequest) -> BiosAnswer> Firmware<'a, B> {
    /// The calls so far, with their answers.
    pub closed spec fn log(&self) -> Seq<(BiosRequest, BiosAnswer)> {
        self.log@
    }

    /// What makes the calls.
    pub closed spec fn bios(&self) -> B {
        *self.bios
    }

    /// The firmware, before any call.
    pub fn new(bios: &'a B) -> (firmware: Firmware<'a, B>)
        ensures
            firmware.log() == Seq::<(BiosRequest, BiosAnswer)>::empty(),
            firmware.bios() == *bios,
    {
        Firmware { bios, log: Ghost(Seq::empty()) }
    }

    /// Makes one call.
    pub fn call(&mut self, request: BiosRequest) -> (answer: BiosAnswer)
        requires
            old(self).bios().requires((request,)),
        ensures
            final(self).bios() == old(self).bios(),
            final(self).log() == old(self).log().push((request, answer)),
            old(self).bios().ensures((request,), answer),
    {
        let answer = (self.bios)(request);
        self.log = Ghost(self.log@.push((request, answer)));
        answer
    }
}

/// What can be read of the machine.
#[derive(Clone, Copy, PartialEq, Eq, Structural, Debug)]
pub enum Reading {
    Thermal,
    Coolsense,
    Temp,
    Brightness,
}

/// What can be set on the machine.
#[derive(Clone, Copy, PartialEq, Eq, Structural, Debug)]
pub enum Setting {
    Thermal,
    Coolsense,
    Brightness,
}

/// An operation of the machine, and what came of it.
pub enum Operation {
    Read(Reading, Result<u8, u8>),
    Write(Setting, u8, Result<(), u8>),
}

/// The answer is one that the machine gives to an operation.
pub open spec fn is_answer<W: ThermalOps>(wmi: W, op: Operation) -> bool {
    match op {
        Operation::Read(Reading::Thermal, r) => call_ensures(W::read_thermal, (&wmi,), r),
        Operation::Read(Reading::Coolsense, r) => call_ensures(W::read_coolsense, (&wmi,), r),
        Operation::Read(Reading::Temp, r) => call_ensures(W::read_temp, (&wmi,), r),
        Operation::Read(Reading::Brightness, r) => call_ensures(W::read_brightness, (&wmi,), r),
        Operation::Write(Setting::Thermal, v, r) => call_ensures(W::set_thermal, (&wmi, v), r),
        Operation::Write(Setting::Coolsense, v, r) => call_ensures(W::set_coolsense, (&wmi, v), r),
        Operation::Write(Setting::Brightness, v, r) => call_ensures(W::set_brightness, (&wmi, v), r),
    }
}

/// The answers are ones that the machine gives to the operations.
pub open spec fn carried_out<W: ThermalOps>(wmi: W, ops: Seq<Operation>) -> bool {
    forall|i: int| 0 <= i < ops.len() ==> is_answer(wmi, #[trigger] ops[i])
}

/// The machine, by its operations.
pub struct Machine<'a, W: ThermalOps> {
    wmi: &'a W,
    log: Ghost<Seq<Operation>>,
}

impl<'a, W: ThermalOps> Machine<'a, W> {
    /// The operations so far.
    pub closed spec fn log(&self) -> Seq<Operation> {
        self.log@
    }

    /// What carries the operations out.
    pub closed spec fn wmi(&self) -> W {
        *self.wmi
    }

    /// The machine, before any operation.
    pub fn new(wmi: &'a W) -> (machine: Machine<'a, W>)
        ensures
            machine.log() == Seq::<Operation>::empty(),
            machine.wmi() == *wmi,
    {
        Machine { wmi, log: Ghost(Seq::empty()) }
    }

    /// Reads one value.
    pub fn read(&mut self, what: Reading) -> (r: Result<u8, u8>)
        ensures
            final(self).wmi() == old(self).wmi(),
            final(self).log() == old(self).log().push(Operation::Read(what, r)),
            is_answer(old(self).wmi(), Operation::Read(what, r)),
    {
        let r = match what {
            Reading::Thermal => self.wmi.read_thermal(),
            Reading::Coolsense => self.wmi.read_coolsense(),
            Reading::Temp => self.wmi.read_temp(),
            Reading::Brightness => self.wmi.read_brightness(),
        };
        self.log = Ghost(self.log@.push(Operation::Read(what, r)));
        r
    }

    /// Sets one value.
    pub fn write(&mut self, what: Setting, value: u8) -> (r: Result<(), u8>)
        ensures
            final(self).wmi() == old(self).wmi(),
            final(self).log() == old(self).log().push(Operation::Write(what, value, r)),
            is_answer(old(self).wmi(), Operation::Write(what, value, r)),
    {
        let r = match what {
            Setting::Thermal => self.wmi.set_thermal(value),
            Setting::Coolsense => self.wmi.set_coolsense(value),
            Setting::Brightness => self.wmi.set_brightness(value),
        };
        self.log = Ghost(self.log@.push(Operation::Write(what, value, r)));
        r
    }
}

} // verus!
