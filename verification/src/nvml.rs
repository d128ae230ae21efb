//! The graphics card's own library: when it is loaded, and what it says.

use vstd::prelude::*;

use crate::text::from_utf8_lossy;

verus! {

/// How long the library may lie unused before it is unloaded, in milliseconds.
pub const IDLE_TIMEOUT: u64 = 10_000;

/// A performance state that is not known.
pub const PSTATE_UNKNOWN: u32 = 32;

/// What is known of the card.
pub struct GpuInfo {
    pub name: String,
    pub temp_c: u32,
    pub power_mw: u32,
    /// 0 to 15, or 32 where it is not known.
    pub pstate: u32,
}

/// Whether the library is loaded, and since when it has not been used, in
/// milliseconds.
#[derive(Clone, Copy, PartialEq, Eq, Structural, Debug)]
pub struct Nvml {
    pub last_use: Option<u64>,
}

/// Whether the library is loaded.
pub fn is_loaded(n: &Nvml) -> (r: bool)
    ensures
        r == (n.last_use is Some),
{
    n.last_use.is_some()
}

/// The library once a query at `now` was prepared: it counts as loaded if it was, or if
/// loading it succeeded just now.
pub open spec fn prepared(n: Nvml, load_ok: bool, now: u64) -> Nvml {
    Nvml {
        last_use: if n.last_use is Some || load_ok {
            Some(now)
        } else {
            None
        },
    }
}

/// Prepares a query at `now`. Says whether the card can be asked.
pub fn prepare(n: &mut Nvml, load_ok: bool, now: u64) -> (r: bool)
    ensures
        *final(n) == prepared(*old(n), load_ok, now),
        r == (final(n).last_use is Some),
{
    if n.last_use.is_some() || load_ok {
        n.last_use = Some(now);
        true
    } else {
        false
    }
}

/// What an idle sweep does.
#[derive(Clone, Copy, PartialEq, Eq, Structural, Debug)]
pub struct Sweep {
    /// Unload the library now.
    pub unload: bool,
    /// The library is not loaded any more: the sweep can stop.
    pub gone: bool,
}

/// Whether the library has been idle for the timeout.
pub open spec fn is_idle(n: Nvml, now: u64) -> bool {
    n.last_use matches Some(t) && now - t >= IDLE_TIMEOUT
}

/// The library after an idle sweep.
pub open spec fn swept(n: Nvml, now: u64) -> Nvml {
    Nvml {
        last_use: if is_idle(n, now) {
            None
        } else {
            n.last_use
        },
    }
}

/// Unloads the library where it has been idle for the timeout.
pub fn unload_if_idle(n: &mut Nvml, now: u64) -> (s: Sweep)
    ensures
        s.unload == is_idle(*old(n), now),
        *final(n) == swept(*old(n), now),
        s.gone == (final(n).last_use is None),
{
    let unload: bool = match n.last_use {
        Some(t) => now.saturating_sub(t) >= IDLE_TIMEOUT,
        None => false,
    };
    if unload {
        n.last_use = None;
    }
    Sweep { unload, gone: n.last_use.is_none() }
}

/// The bytes before the first zero; all of them where there is none.
pub open spec fn up_to_zero(bytes: Seq<u8>) -> Seq<u8>
    decreases bytes.len(),
{
    if bytes.len() == 0 || bytes[0] == 0 {
        Seq::empty()
    } else {
        seq![bytes[0]] + up_to_zero(bytes.drop_first())
    }
}

proof fn up_to_zero_at(bytes: Seq<u8>, n: int)
    requires
        0 <= n <= bytes.len(),
        forall|i: int| 0 <= i < n ==> bytes[i] != 0,
        n < bytes.len() ==> bytes[n] == 0,
    ensures
        up_to_zero(bytes) == bytes.take(n),
    decreases n,
{
    if n == 0 {
        assert(bytes.take(0) =~= Seq::empty());
    } else {
        let rest = bytes.drop_first();
        assert forall|i: int| 0 <= i < n - 1 implies rest[i] != 0 by {
            assert(bytes[i + 1] != 0);
        }
        up_to_zero_at(rest, n - 1);
        assert(seq![bytes[0]] + rest.take(n - 1) =~= bytes.take(n));
    }
}

/// The name in a buffer that a zero ends.
pub fn name_bytes(buf: &[u8]) -> (out: Vec<u8>)
    ensures
        out@ == up_to_zero(buf@),
{
    let mut out: Vec<u8> = Vec::new();
    let mut i: usize = 0;
    while i < buf.len() && buf[i] != 0
        invariant
            i <= buf@.len(),
            out@ == buf@.take(i as int),
            forall|k: int| 0 <= k < i ==> buf@[k] != 0,
        decreases buf@.len() - i,
    {
        out.push(buf[i]);
        i = i + 1;
        assert(out@ =~= buf@.take(i as int));
    }
    proof {
        up_to_zero_at(buf@, i as int);
    }
    out
}

/// Temperature, power and state as far as the queries tell them: the first two must
/// have been read; a state that was not read is unknown.
pub open spec fn readings(
    temp: Option<u32>,
    power: Option<u32>,
    pstate: Option<u32>,
) -> Option<(u32, u32, u32)> {
    match (temp, power) {
        (Some(t), Some(p)) => Some(
            (
                t,
                p,
                match pstate {
                    Some(s) => s,
                    None => PSTATE_UNKNOWN,
                },
            ),
        ),
        _ => None,
    }
}

/// What the queries amount to, from the name as text.
pub fn gpu_from(
    temp: Option<u32>,
    power: Option<u32>,
    pstate: Option<u32>,
    name: String,
) -> (r: Option<GpuInfo>)
    ensures
        r is Some <==> readings(temp, power, pstate) is Some,
        r matches Some(g) ==> g.name@ == name@ && Some((g.temp_c, g.power_mw, g.pstate))
            == readings(temp, power, pstate),
{
    match (temp, power) {
        (Some(temp_c), Some(power_mw)) => Some(
            GpuInfo {
                name,
                temp_c,
                power_mw,
                pstate: match pstate {
                    Some(p) => p,
                    None => PSTATE_UNKNOWN,
                },
            },
        ),
        _ => None,
    }
}

/// What is known of the card, from what the queries brought.
pub fn gpu_info(
    temp: Option<u32>,
    power: Option<u32>,
    pstate: Option<u32>,
    name_buf: &[u8],
) -> (r: Option<GpuInfo>)
    ensures
        r is Some <==> readings(temp, power, pstate) is Some,
        r matches Some(g) ==> g.name@ == crate::text::utf8_text(up_to_zero(name_buf@)) && Some(
            (g.temp_c, g.power_mw, g.pstate),
        ) == readings(temp, power, pstate),
        r matches Some(g) ==> vstd::utf8::valid_utf8(up_to_zero(name_buf@))
            ==> vstd::utf8::encode_utf8(g.name@) == up_to_zero(name_buf@),
{
    let bytes = name_bytes(name_buf);
    let name = from_utf8_lossy(bytes.as_slice());
    gpu_from(temp, power, pstate, name)
}

/// The library stays loaded for ten seconds after it was last used, and no longer. Using
/// it counts from the latest use, and what is gone stays gone until it is loaded again.
pub proof fn the_library_is_kept_for_ten_seconds(n: Nvml, load_ok: bool, used: u64, now: u64)
    ensures
        ({
            let after = prepared(n, load_ok, used);
            &&& after.last_use is Some <==> n.last_use is Some || load_ok
            &&& after.last_use is Some ==> (swept(after, now).last_use is None <==> now >= used
                + 10_000)
            &&& after.last_use is Some ==> prepared(after, false, now) == (Nvml {
                last_use: Some(now),
            })
            &&& is_idle(n, now) <==> n.last_use is Some && swept(n, now).last_use is None
            &&& swept(n, now).last_use is Some ==> swept(n, now) == n
            &&& n.last_use is None ==> swept(n, now).last_use is None
        }),
{
}

/// A card is known by its temperature and its power together; its state alone may be
/// missing, and then counts as unknown.
pub proof fn cards_need_temperature_and_power(
    temp: Option<u32>,
    power: Option<u32>,
    pstate: Option<u32>,
)
    ensures
        readings(temp, power, pstate) is Some <==> temp is Some && power is Some,
        readings(temp, power, pstate) matches Some(r) ==> {
            &&& temp == Some(r.0)
            &&& power == Some(r.1)
            &&& pstate is Some ==> pstate == Some(r.2)
            &&& pstate is None ==> r.2 == 32
        },
{
}

/// A name ends at the first zero: it holds none, and what follows the zero makes no
/// difference.
pub proof fn names_end_at_the_first_zero(name: Seq<u8>, rest: Seq<u8>)
    requires
        !name.contains(0),
    ensures
        up_to_zero(name) == name,
        up_to_zero(name + seq![0u8] + rest) == name,
{
    let buf = name + seq![0u8] + rest;
    assert forall|i: int| 0 <= i < name.len() implies name[i] != 0 by {
        assert(name.contains(name[i]));
    }
    up_to_zero_at(name, name.len() as int);
    up_to_zero_at(buf, name.len() as int);
    assert(name.take(name.len() as int) =~= name);
    assert(buf.take(name.len() as int) =~= name);
}

} // verus!
