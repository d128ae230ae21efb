//! The order of single-precision numbers, on their bit patterns.
//!
//! Measured levels are computed in floating point by the program around this
//! library. Here they are only compared, and a comparison needs nothing but
//! the pattern: a sign bit above a magnitude that grows with the number.

use vstd::prelude::*;

verus! {

/// The sign bit.
pub const SIGN: u32 = 0x8000_0000;

/// The pattern of infinity. Larger magnitudes are no numbers.
pub const INFINITY: u32 = 0x7F80_0000;

/// The pattern of zero.
pub const ZERO: u32 = 0;

/// The magnitude of a pattern: the pattern without its sign.
pub open spec fn size(x: u32) -> int {
    if x >= SIGN {
        x - SIGN
    } else {
        x as int
    }
}

/// Whether the pattern is that of a number.
pub open spec fn is_number(x: u32) -> bool {
    size(x) <= INFINITY
}

/// The place of a pattern in the order of the numbers. Both zeros have place 0.
pub open spec fn place(x: u32) -> int {
    if x >= SIGN {
        -size(x)
    } else {
        size(x)
    }
}

/// Whether `x` is less than `y`. Nothing is less than what is no number, nor
/// the other way round.
pub open spec fn below(x: u32, y: u32) -> bool {
    is_number(x) && is_number(y) && place(x) < place(y)
}

/// Whether `x` is `y` or more. Nothing is so of what is no number.
pub open spec fn at_least(x: u32, y: u32) -> bool {
    is_number(x) && is_number(y) && place(x) >= place(y)
}

/// The pattern of the absolute value.
pub open spec fn absolute(x: u32) -> u32 {
    size(x) as u32
}

/// Whether `x` is less than `y`.
pub fn less(x: u32, y: u32) -> (r: bool)
    ensures
        r == below(x, y),
{
    let x_size: u32 = abs(x);
    let y_size: u32 = abs(y);
    if x_size > INFINITY || y_size > INFINITY {
        return false;
    }
    if x >= SIGN {
        if y >= SIGN {
            y_size < x_size
        } else {
            x_size > 0 || y_size > 0
        }
    } else if y >= SIGN {
        false
    } else {
        x_size < y_size
    }
}

/// Whether `x` is `y` or more.
pub fn not_less(x: u32, y: u32) -> (r: bool)
    ensures
        r == at_least(x, y),
{
    abs(x) <= INFINITY && abs(y) <= INFINITY && !less(x, y)
}

/// The absolute value.
pub fn abs(x: u32) -> (r: u32)
    ensures
        r == absolute(x),
        r == size(x),
{
    if x >= SIGN {
        x - SIGN
    } else {
        x
    }
}

/// Whether `x` is more than zero.
pub fn is_positive(x: u32) -> (r: bool)
    ensures
        r == below(ZERO, x),
{
    less(ZERO, x)
}

/// Whether each pattern is that of a number.
pub open spec fn all_numbers(s: Seq<u32>) -> bool {
    forall|i: int| 0 <= i < s.len() ==> #[trigger] is_number(s[i])
}

/// Whether no pattern is less than one before it.
pub open spec fn ascending(s: Seq<u32>) -> bool {
    forall|i: int, j: int| 0 <= i < j < s.len() ==> !below(#[trigger] s[j], #[trigger] s[i])
}

/// `x` put into `s` behind everything at the end of `s` that it is not less than.
pub open spec fn inserted(s: Seq<u32>, x: u32) -> Seq<u32>
    decreases s.len(),
{
    if s.len() == 0 || !below(x, s.last()) {
        s.push(x)
    } else {
        inserted(s.drop_last(), x).push(s.last())
    }
}

/// `s` in ascending order; what is equal stays in its order.
pub open spec fn sorted(s: Seq<u32>) -> Seq<u32>
    decreases s.len(),
{
    if s.len() == 0 {
        s
    } else {
        inserted(sorted(s.drop_last()), s.last())
    }
}

/// Putting one more into an ascending sequence of numbers leaves it ascending.
proof fn inserting_keeps_the_order(s: Seq<u32>, x: u32)
    requires
        all_numbers(s),
        is_number(x),
        ascending(s),
    ensures
        ascending(inserted(s, x)),
        all_numbers(inserted(s, x)),
        inserted(s, x).len() == s.len() + 1,
        inserted(s, x).to_multiset() == s.to_multiset().insert(x),
    decreases s.len(),
{
    broadcast use vstd::seq_lib::group_to_multiset_ensures;

    if s.len() == 0 || !below(x, s.last()) {
        let t = s.push(x);
        assert forall|i: int, j: int| 0 <= i < j < t.len() implies !below(
            #[trigger] t[j],
            #[trigger] t[i],
        ) by {
            if j == s.len() {
                assert(is_number(s[i]));
                assert(is_number(s.last()));
                if i < s.len() - 1 {
                    assert(!below(s[s.len() - 1], s[i]));
                }
            }
        }
        assert forall|i: int| 0 <= i < t.len() implies #[trigger] is_number(t[i]) by {
            if i < s.len() {
                assert(is_number(s[i]));
            }
        }
    } else {
        let rest = s.drop_last();
        assert(all_numbers(rest)) by {
            assert forall|i: int| 0 <= i < rest.len() implies #[trigger] is_number(rest[i]) by {
                assert(is_number(s[i]));
            }
        }
        inserting_keeps_the_order(rest, x);
        let t = inserted(rest, x);
        let u = t.push(s.last());
        assert(s == rest.push(s.last()));
        assert(is_number(s[s.len() - 1]));
        assert forall|i: int, j: int| 0 <= i < j < u.len() implies !below(
            #[trigger] u[j],
            #[trigger] u[i],
        ) by {
            if j == t.len() {
                assert(t.to_multiset().count(t[i]) > 0);
                if t[i] != x {
                    assert(rest.to_multiset().count(t[i]) > 0);
                    assert(rest.contains(t[i]));
                    let k = rest.index_of(t[i]);
                    assert(s[k] == t[i]);
                    assert(!below(s[s.len() - 1], s[k]));
                }
            }
        }
        assert forall|i: int| 0 <= i < u.len() implies #[trigger] is_number(u[i]) by {
            if i < t.len() {
                assert(is_number(t[i]));
            }
        }
    }
}

/// Sorting numbers keeps each of them and puts them into ascending order.
pub proof fn sorting_orders(s: Seq<u32>)
    requires
        all_numbers(s),
    ensures
        ascending(sorted(s)),
        all_numbers(sorted(s)),
        sorted(s).to_multiset() == s.to_multiset(),
    decreases s.len(),
{
    broadcast use vstd::seq_lib::group_to_multiset_ensures;

    if s.len() > 0 {
        let rest = s.drop_last();
        assert(all_numbers(rest)) by {
            assert forall|i: int| 0 <= i < rest.len() implies #[trigger] is_number(rest[i]) by {
                assert(is_number(s[i]));
            }
        }
        sorting_orders(rest);
        assert(is_number(s[s.len() - 1]));
        inserting_keeps_the_order(sorted(rest), s.last());
        assert(s == rest.push(s.last()));
    }
}

proof fn inserting_adds_one(s: Seq<u32>, x: u32)
    ensures
        inserted(s, x).len() == s.len() + 1,
    decreases s.len(),
{
    if s.len() > 0 && below(x, s.last()) {
        inserting_adds_one(s.drop_last(), x);
    }
}

/// Sorting keeps the length.
pub proof fn sorting_keeps_the_length(s: Seq<u32>)
    ensures
        sorted(s).len() == s.len(),
    decreases s.len(),
{
    if s.len() > 0 {
        sorting_keeps_the_length(s.drop_last());
        inserting_adds_one(sorted(s.drop_last()), s.last());
    }
}

/// What stands after what `inserted` passes over is kept where it is.
proof fn inserting_passes_over(s: Seq<u32>, x: u32, at: int)
    requires
        0 <= at <= s.len(),
        forall|k: int| at <= k < s.len() ==> below(x, #[trigger] s[k]),
        at > 0 ==> !below(x, s[at - 1]),
    ensures
        inserted(s, x) == s.insert(at, x),
    decreases s.len(),
{
    if at < s.len() {
        let rest = s.drop_last();
        assert(below(x, s[s.len() - 1]));
        inserting_passes_over(rest, x, at);
        assert(rest.insert(at, x).push(s.last()) =~= s.insert(at, x));
    } else {
        assert(s.push(x) =~= s.insert(at, x));
    }
}

/// Puts `x` into `out` behind everything at the end of `out` that it is not less
/// than.
fn insert(out: &mut Vec<u32>, x: u32)
    ensures
        final(out)@ == inserted(old(out)@, x),
{
    let ghost before = out@;
    let mut at: usize = out.len();
    while at > 0 && less(x, out[at - 1])
        invariant
            at <= out.len(),
            out@ == before,
            forall|k: int| at <= k < out.len() ==> below(x, #[trigger] out@[k]),
        decreases at,
    {
        at = at - 1;
    }
    proof {
        inserting_passes_over(before, x, at as int);
    }
    out.insert(at, x);
}

/// The patterns in ascending order.
pub fn sort(levels: &[u32]) -> (out: Vec<u32>)
    ensures
        out@ == sorted(levels@),
{
    let mut out: Vec<u32> = Vec::new();
    let mut i: usize = 0;
    proof {
        assert(levels@.take(0) =~= Seq::<u32>::empty());
        assert(sorted(levels@.take(0)) =~= Seq::<u32>::empty());
    }
    while i < levels.len()
        invariant
            i <= levels.len(),
            out@ == sorted(levels@.take(i as int)),
        decreases levels.len() - i,
    {
        insert(&mut out, levels[i]);
        proof {
            let t = levels@.take(i + 1);
            assert(t.drop_last() =~= levels@.take(i as int));
            assert(t.last() == levels@[i as int]);
        }
        i = i + 1;
    }
    proof {
        assert(levels@.take(levels@.len() as int) =~= levels@);
    }
    out
}

/// The exponent of a pattern, above that of the smallest numbers.
pub open spec fn exponent(x: u32) -> int {
    size(x) / 0x80_0000
}

/// The digits of a pattern, with the one before the point.
pub open spec fn digits(x: u32) -> int {
    size(x) % 0x80_0000 + 0x80_0000
}

/// Whether the pattern is that of the number nearest to `num / den`: its digits times
/// the power of two that the exponent says are off by no more than half the last digit.
pub open spec fn stands_for(x: u32, num: int, den: int) -> bool {
    let power = vstd::arithmetic::power2::pow2((150 - exponent(x)) as nat);
    &&& x < SIGN
    &&& 1 <= exponent(x) <= 150
    &&& -den <= 2 * (digits(x) * den - num * power) <= den
}

/// Comparing goes by the numbers: each pattern is less than, equal to or more than
/// another, and what is less than the one is less than what the one is less than.
pub proof fn numbers_are_ordered(x: u32, y: u32, z: u32)
    requires
        is_number(x),
        is_number(y),
        is_number(z),
    ensures
        below(x, y) != at_least(x, y),
        below(x, y) && below(y, z) ==> below(x, z),
        !below(x, x),
        x < SIGN && y < SIGN ==> (below(x, y) <==> x < y),
        x > SIGN && y > SIGN ==> (below(x, y) <==> x > y),
        x > SIGN && y < SIGN ==> below(x, y) && !below(y, x),
        !below(absolute(x), ZERO),
        x < SIGN ==> absolute(x) == x,
        x >= SIGN ==> absolute(x) == x - SIGN,
{
}

/// What is no number is neither less nor more than anything.
pub proof fn what_is_no_number_is_not_compared(x: u32, y: u32)
    requires
        !is_number(x),
    ensures
        !below(x, y) && !below(y, x) && !at_least(x, y) && !at_least(y, x),
        x & 0x7FFF_FFFF > 0x7F80_0000,
{
    assert(x >= 0x8000_0000u32 ==> x & 0x7FFF_FFFF == x - 0x8000_0000u32) by (bit_vector);
    assert(x < 0x8000_0000u32 ==> x & 0x7FFF_FFFF == x) by (bit_vector);
}

} // verus!
