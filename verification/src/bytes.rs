//! Numbers as bytes, the lowest byte first.

use vstd::prelude::*;

verus! {

/// The `width` lowest bytes of `n`, the lowest first.
pub open spec fn le(n: int, width: nat) -> Seq<u8>
    decreases width,
{
    if width == 0 {
        Seq::empty()
    } else {
        seq![(n % 256) as u8] + le(n / 256, (width - 1) as nat)
    }
}

/// The number that the bytes write, the lowest first.
pub open spec fn from_le(s: Seq<u8>) -> int
    decreases s.len(),
{
    if s.len() == 0 {
        0
    } else {
        s[0] + 256 * from_le(s.skip(1))
    }
}

/// 256 to the power of `width`.
pub open spec fn byte_range(width: nat) -> int
    decreases width,
{
    if width == 0 {
        1
    } else {
        256 * byte_range((width - 1) as nat)
    }
}

/// A number has as many bytes as asked for.
pub proof fn le_has_its_width(n: int, width: nat)
    ensures
        le(n, width).len() == width,
    decreases width,
{
    if width > 0 {
        le_has_its_width(n / 256, (width - 1) as nat);
    }
}

/// Reading what was written gives the number back.
pub proof fn le_round_trips(n: int, width: nat)
    requires
        0 <= n < byte_range(width),
    ensures
        from_le(le(n, width)) == n,
        le(n, width).len() == width,
    decreases width,
{
    if width > 0 {
        let rest = le(n / 256, (width - 1) as nat);
        assert(n / 256 < byte_range((width - 1) as nat));
        le_round_trips(n / 256, (width - 1) as nat);
        assert(le(n, width).skip(1) =~= rest);
        assert(le(n, width)[0] == (n % 256) as u8);
    }
}

/// The sizes of the common widths.
pub proof fn common_ranges()
    ensures
        byte_range(2) == 0x1_0000,
        byte_range(4) == 0x1_0000_0000,
        byte_range(8) == 0x1_0000_0000_0000_0000,
{
    reveal_with_fuel(byte_range, 9);
}

/// What bytes write lies below the range of their width.
pub proof fn from_le_is_in_range(s: Seq<u8>)
    ensures
        0 <= from_le(s) < byte_range(s.len()),
    decreases s.len(),
{
    if s.len() > 0 {
        from_le_is_in_range(s.skip(1));
    }
}

/// Appends the `width` lowest bytes of `n`, the lowest first.
pub fn push_le(out: &mut Vec<u8>, n: u64, width: usize)
    ensures
        final(out)@ == old(out)@ + le(n as int, width as nat),
    decreases width,
{
    if width > 0 {
        let ghost before = out@;
        let low: u8 = (n % 256) as u8;
        out.push(low);
        push_le(out, n / 256, width - 1);
        proof {
            assert(before.push(low) + le(n as int / 256, (width - 1) as nat) =~= before + (
            seq![low] + le(n as int / 256, (width - 1) as nat)));
        }
    }
}

/// The number in the `width` bytes at `at`, the lowest first.
pub fn read_le(bytes: &[u8], at: usize, width: usize) -> (n: u64)
    requires
        at + width <= bytes@.len(),
        width <= 8,
    ensures
        n == from_le(bytes@.subrange(at as int, at + width)),
        n < byte_range(width as nat),
    decreases width,
{
    let ghost s = bytes@.subrange(at as int, at + width);
    proof {
        from_le_is_in_range(s);
    }
    if width == 0 {
        0
    } else {
        let len: usize = bytes.len();
        assert(at < len);
        let rest: u64 = read_le(bytes, at + 1, width - 1);
        proof {
            assert(s.skip(1) =~= bytes@.subrange(at + 1, at + width));
            reveal_with_fuel(byte_range, 9);
        }
        bytes[at] as u64 + 256 * rest
    }
}

/// Appends all of `part`.
pub fn push_all(out: &mut Vec<u8>, part: &[u8])
    ensures
        final(out)@ == old(out)@ + part@,
{
    let ghost before = out@;
    let mut i: usize = 0;
    while i < part.len()
        invariant
            i <= part.len(),
            out@ == before + part@.take(i as int),
        decreases part.len() - i,
    {
        out.push(part[i]);
        proof {
            assert(part@.take(i + 1) =~= part@.take(i as int).push(part@[i as int]));
        }
        i = i + 1;
    }
    proof {
        assert(part@.take(part@.len() as int) =~= part@);
    }
}

/// Byte `i` is the one that weighs 256 to the power of `i`.
pub proof fn bytes_stand_low_to_high(n: int, width: nat, i: nat)
    requires
        0 <= n,
        i < width,
    ensures
        le(n, width).len() == width,
        le(n, width)[i as int] == n / byte_range(i) % 256,
        byte_range(i) > 0,
    decreases width,
{
    le_has_its_width(n, width);
    let rest = le(n / 256, (width - 1) as nat);
    if i == 0 {
        assert(le(n, width)[0] == (n % 256) as u8);
        assert(n / 1 == n);
    } else {
        bytes_stand_low_to_high(n / 256, (width - 1) as nat, (i - 1) as nat);
        assert(le(n, width)[i as int] == rest[i - 1]);
        vstd::arithmetic::div_mod::lemma_div_denominator(n, 256, byte_range((i - 1) as nat));
    }
}

} // verus!
