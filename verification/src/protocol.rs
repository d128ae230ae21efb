//! The wire protocol between the tray and the service.
//!
//! A request is four bytes: two magic bytes, a command, a payload. A response is
//! two bytes: a status, a result.

use vstd::prelude::*;
use vstd::string::*;

verus! {

/// Magic bytes in front of every request: "HT". They turn away a connection that
/// is not meant for this service.
pub const PIPE_MAGIC: [u8; 2] = [0x48, 0x54];

pub const CMD_READ_THERMAL: u8 = 0x01;
pub const CMD_SET_THERMAL: u8 = 0x02;
pub const CMD_READ_COOLSENSE: u8 = 0x03;
pub const CMD_SET_COOLSENSE: u8 = 0x04;
pub const CMD_SET_LOGGING: u8 = 0x05;
pub const CMD_READ_BUILD_ID: u8 = 0x06;
pub const CMD_SET_STACK_MONITOR: u8 = 0x07;
pub const CMD_READ_TEMP: u8 = 0x08;
pub const CMD_READ_BRIGHTNESS: u8 = 0x09;
pub const CMD_SET_BRIGHTNESS: u8 = 0x0A;
/// Thermal mode and CoolSense in one response, as [`pack_state`] packs them.
pub const CMD_READ_STATE: u8 = 0x0C;

pub const STATUS_OK: u8 = 0x00;
pub const STATUS_INVALID_CMD: u8 = 0x01;
pub const STATUS_INVALID_PAYLOAD: u8 = 0x02;
pub const STATUS_WMI_ERROR: u8 = 0x03;

/// Bit set in the status when the result comes from a cache and not from a fresh
/// read. The result is valid all the same.
pub const STATUS_CACHED: u8 = 0x80;

/// Success, whether the cached bit is set or not.
pub open spec fn ok_status(s: u8) -> bool {
    s == STATUS_OK || s == STATUS_CACHED
}

/// Whether a status says that the request succeeded, fresh or cached.
pub fn status_ok(s: u8) -> (r: bool)
    ensures
        r == ok_status(s),
{
    assert((s & !0x80u8 == 0u8) == (s == 0u8 || s == 0x80u8)) by (bit_vector);
    s & !STATUS_CACHED == STATUS_OK
}

/// A request that passed the check of its command and payload.
#[derive(Clone, Copy, Debug)]
pub struct Request {
    pub command: u8,
    pub payload: u8,
}

/// The commands that only read. They carry no payload.
pub open spec fn is_read_command(command: u8) -> bool {
    ||| command == CMD_READ_THERMAL
    ||| command == CMD_READ_COOLSENSE
    ||| command == CMD_READ_BUILD_ID
    ||| command == CMD_READ_TEMP
    ||| command == CMD_READ_BRIGHTNESS
    ||| command == CMD_READ_STATE
}

/// The largest payload that a command which sets something takes.
pub open spec fn payload_limit(command: u8) -> Option<u8> {
    if command == CMD_SET_THERMAL {
        Some(3u8)
    } else if command == CMD_SET_COOLSENSE || command == CMD_SET_LOGGING || command
        == CMD_SET_STACK_MONITOR {
        Some(1u8)
    } else if command == CMD_SET_BRIGHTNESS {
        Some(100u8)
    } else {
        None
    }
}

/// What a command byte and a payload byte ask for, or the status with which they
/// are turned away.
pub open spec fn parsed(command: u8, payload: u8) -> Result<Request, u8> {
    if is_read_command(command) {
        Ok(Request { command, payload: 0 })
    } else {
        match payload_limit(command) {
            Some(limit) => if payload <= limit {
                Ok(Request { command, payload })
            } else {
                Err(STATUS_INVALID_PAYLOAD)
            },
            None => Err(STATUS_INVALID_CMD),
        }
    }
}

impl vstd::std_specs::convert::TryFromSpecImpl<[u8; 2]> for Request {
    open spec fn obeys_try_from_spec() -> bool {
        true
    }

    open spec fn try_from_spec(buf: [u8; 2]) -> Result<Request, u8> {
        parsed(buf[0], buf[1])
    }
}

impl TryFrom<[u8; 2]> for Request {
    type Error = u8;

    fn try_from(buf: [u8; 2]) -> (r: Result<Request, u8>) {
        let command: u8 = buf[0];
        let payload: u8 = buf[1];
        match command {
            CMD_READ_THERMAL | CMD_READ_COOLSENSE | CMD_READ_BUILD_ID | CMD_READ_TEMP
            | CMD_READ_BRIGHTNESS | CMD_READ_STATE => Ok(Request { command, payload: 0 }),
            CMD_SET_THERMAL => within(command, payload, 3),
            CMD_SET_COOLSENSE | CMD_SET_LOGGING | CMD_SET_STACK_MONITOR => within(
                command,
                payload,
                1,
            ),
            CMD_SET_BRIGHTNESS => within(command, payload, 100),
            _ => Err(STATUS_INVALID_CMD),
        }
    }
}

fn within(command: u8, payload: u8, limit: u8) -> (r: Result<Request, u8>)
    ensures
        r == (if payload <= limit {
            Ok::<Request, u8>(Request { command, payload })
        } else {
            Err::<Request, u8>(STATUS_INVALID_PAYLOAD)
        }),
{
    if payload > limit {
        return Err(STATUS_INVALID_PAYLOAD);
    }
    Ok(Request { command, payload })
}

/// One byte for a thermal mode and a CoolSense setting, each below 16.
pub open spec fn packed_state(thermal: u8, coolsense: u8) -> u8 {
    (thermal % 16 + 16 * (coolsense % 16)) as u8
}

/// Packs a thermal mode and a CoolSense setting into one byte.
pub fn pack_state(thermal: u8, coolsense: u8) -> (v: u8)
    ensures
        v == packed_state(thermal, coolsense),
{
    thermal % 16 + 16 * (coolsense % 16)
}

/// The two values in a packed byte: thermal mode, CoolSense.
pub fn unpack_state(v: u8) -> (r: (u8, u8))
    ensures
        r == (v % 16, v / 16),
{
    (v % 16, v / 16)
}

/// Unpacking gives back what was packed, for every pair of values below 16.
pub proof fn packed_state_unpacks(thermal: u8, coolsense: u8)
    requires
        thermal < 16,
        coolsense < 16,
    ensures
        packed_state(thermal, coolsense) % 16 == thermal,
        packed_state(thermal, coolsense) / 16 == coolsense,
{
}

/// FNV-1a, 32 bits wide, going on from `h`.
pub open spec fn fnv1a_32_from(h: u32, bytes: Seq<u8>) -> u32
    decreases bytes.len(),
{
    if bytes.len() == 0 {
        h
    } else {
        (((fnv1a_32_from(h, bytes.drop_last()) ^ (bytes.last() as u32)) * 0x0100_0193)
            % 0x1_0000_0000) as u32
    }
}

/// The hash of a build's id followed by its date.
pub open spec fn build_hash(id: Seq<u8>, date: Seq<u8>) -> u32 {
    fnv1a_32_from(fnv1a_32_from(0x811c_9dc5, id), date)
}

fn fnv1a_32(start: u32, bytes: &[u8]) -> (h: u32)
    ensures
        h == fnv1a_32_from(start, bytes@),
{
    let mut h: u32 = start;
    let mut i: usize = 0;
    while i < bytes.len()
        invariant
            i <= bytes@.len(),
            h == fnv1a_32_from(start, bytes@.take(i as int)),
        decreases bytes@.len() - i,
    {
        proof {
            assert(bytes@.take(i + 1).drop_last() =~= bytes@.take(i as int));
        }
        h = (h ^ bytes[i] as u32).wrapping_mul(0x0100_0193);
        i = i + 1;
    }
    assert(bytes@.take(i as int) =~= bytes@);
    h
}

/// The two low bytes of a hash, high byte first.
pub open spec fn low_bytes(h: u32) -> (u8, u8) {
    ((h / 256 % 256) as u8, (h % 256) as u8)
}

/// The fingerprint of a build: the two low bytes of its hash, high byte first.
/// Tray and service come from one build exactly when they agree on it, but for
/// a collision of the hash.
pub fn build_fingerprint(id: &str, date: &str) -> (f: [u8; 2])
    ensures
        (f[0], f[1]) == low_bytes(build_hash(id.spec_bytes(), date.spec_bytes())),
{
    let h: u32 = fnv1a_32(fnv1a_32(0x811c_9dc5, id.as_bytes()), date.as_bytes());
    assert((h >> 8) as u8 == h / 256 % 256) by (bit_vector);
    assert(h as u8 == h % 256) by (bit_vector);
    [(h >> 8) as u8, h as u8]
}

/// Every request that gets through asks for a command of the table, with a
/// payload that the command takes; a read carries none.
pub proof fn accepted_requests_are_in_the_table(command: u8, payload: u8)
    ensures
        parsed(command, payload) matches Ok(r) ==> r.command == command && (
        if is_read_command(command) {
            r.payload == 0
        } else {
            payload_limit(command) matches Some(limit) && r.payload == payload && payload
                <= limit
        }),
        parsed(command, payload) is Ok <==> is_read_command(command) || (payload_limit(
            command,
        ) matches Some(limit) && payload <= limit),
{
}

/// A request that got through gets through again, unchanged.
pub proof fn parsing_is_idempotent(command: u8, payload: u8)
    ensures
        parsed(command, payload) matches Ok(r) ==> parsed(r.command, r.payload) == Ok::<
            Request,
            u8,
        >(r),
{
}

/// Success is a status without any bit but the one that says cached.
pub proof fn success_may_be_cached(s: u8)
    ensures
        ok_status(s) <==> s % 128 == 0,
        ok_status(s) <==> s & 0x7F == 0,
{
    assert(s & 0x7F == s % 128) by (bit_vector);
}

/// What the service takes: a mode below four, Smart Sense, logging and monitoring on or
/// off, and a brightness up to one hundred. A read takes any payload and minds none. What
/// it knows with a payload beyond is turned away as such, and what it does not know is
/// turned away as unknown.
pub proof fn commands_take_their_payloads(command: u8, payload: u8, other: u8)
    ensures
        parsed(0x02, payload) is Ok <==> payload < 4,
        parsed(0x04, payload) is Ok <==> payload < 2,
        parsed(0x05, payload) is Ok <==> payload < 2,
        parsed(0x07, payload) is Ok <==> payload < 2,
        parsed(0x0A, payload) is Ok <==> payload <= 100,
        command == 0x01 || command == 0x03 || command == 0x06 || command == 0x08 || command == 0x09
            || command == 0x0C ==> parsed(command, payload) is Ok && parsed(command, payload)
            == parsed(command, other),
        command == 0 || command == 0x0B || command > 0x0C ==> parsed(command, payload) == Err::<
            Request,
            u8,
        >(1),
        0 < command <= 0x0C && command != 0x0B && parsed(command, payload) is Err ==> parsed(
            command,
            payload,
        ) == Err::<Request, u8>(2),
        parsed(command, payload) matches Ok(r) ==> r.command == command && (r.payload == payload
            || r.payload == 0),
        parsed(command, payload) matches Ok(r) ==> command == 2 || command == 4 || command == 5
            || command == 7 || command == 10 ==> r.payload == payload,
{
}

/// Two values in one byte stay apart: the mode is the low half, and Smart Sense the high
/// one.
pub proof fn packed_states_tell_their_values(thermal: u8, coolsense: u8, thermal2: u8, coolsense2: u8)
    requires
        thermal < 16,
        coolsense < 16,
        thermal2 < 16,
        coolsense2 < 16,
    ensures
        packed_state(thermal, coolsense) == packed_state(thermal2, coolsense2) ==> thermal
            == thermal2 && coolsense == coolsense2,
        packed_state(thermal, coolsense) == thermal + 16 * coolsense,
{
}

/// The hash of a text in two parts is that of the whole; a byte goes into it by an
/// exclusive or and a product, and nothing else does.
pub proof fn hashes_go_on(h: u32, a: Seq<u8>, b: Seq<u8>, byte: u8)
    ensures
        fnv1a_32_from(fnv1a_32_from(h, a), b) == fnv1a_32_from(h, a + b),
        fnv1a_32_from(h, seq![byte]) == ((h ^ (byte as u32)) * 16_777_619) % 0x1_0000_0000,
        build_hash(a, b) == fnv1a_32_from(2_166_136_261, a + b),
        low_bytes(h).0 * 256 + low_bytes(h).1 == h % 0x1_0000,
    decreases b.len(),
{
    let one = seq![byte];
    assert(one.drop_last() =~= Seq::<u8>::empty());
    assert(fnv1a_32_from(h, Seq::<u8>::empty()) == h);
    if b.len() == 0 {
        assert(a + b =~= a);
    } else {
        hashes_go_on(h, a, b.drop_last(), byte);
        hashes_go_on(2_166_136_261, a, b.drop_last(), byte);
        assert((a + b).drop_last() =~= a + b.drop_last());
        assert((a + b).last() == b.last());
    }
}

} // verus!
