//! UTF-16, as the Windows interfaces take it.

use vstd::prelude::*;

use crate::text::chars_of;

verus! {

/// The UTF-16 code units of one character: the character itself below U+10000,
/// a surrogate pair from there on.
pub open spec fn units_of(c: char) -> Seq<u16> {
    let n = c as int;
    if n < 0x10000 {
        seq![n as u16]
    } else {
        seq![(0xd800 + (n - 0x10000) / 0x400) as u16, (0xdc00 + (n - 0x10000) % 0x400) as u16]
    }
}

/// The UTF-16 code units of a text.
pub open spec fn utf16(s: Seq<char>) -> Seq<u16>
    decreases s.len(),
{
    if s.len() == 0 {
        Seq::empty()
    } else {
        utf16(s.drop_last()) + units_of(s.last())
    }
}

fn push_units(out: &mut Vec<u16>, c: char)
    ensures
        final(out)@ == old(out)@ + units_of(c),
{
    let code: u32 = c as u32;
    let ghost before = out@;
    if code < 0x10000 {
        out.push(code as u16);
    } else {
        let rest: u32 = code - 0x10000;
        out.push((0xd800 + rest / 0x400) as u16);
        out.push((0xdc00 + rest % 0x400) as u16);
    }
    assert(out@ =~= before + units_of(c));
}

/// `s` in UTF-16, with a zero unit at the end.
pub fn wide_null(s: &str) -> (out: Vec<u16>)
    ensures
        out@ == utf16(s@).push(0),
{
    let chars = chars_of(s);
    let mut out: Vec<u16> = Vec::new();
    let mut i: usize = 0;
    while i < chars.len()
        invariant
            chars@ == s@,
            i <= chars@.len(),
            out@ == utf16(s@.take(i as int)),
        decreases chars@.len() - i,
    {
        push_units(&mut out, chars[i]);
        proof {
            let next = s@.take(i + 1);
            assert(next.drop_last() =~= s@.take(i as int));
            assert(next.last() == s@[i as int]);
        }
        i = i + 1;
    }
    assert(s@.take(i as int) =~= s@);
    out.push(0);
    out
}

/// `char::from_u32`: the character with this code, and none where the code is a
/// surrogate or above U+10FFFF.
pub assume_specification[ char::from_u32 ](i: u32) -> (r: Option<char>)
    ensures
        r is Some <==> (i < 0xd800 || 0xe000 <= i <= 0x10ffff),
        r matches Some(c) ==> c == i as char,
;

/// First half of a surrogate pair.
pub open spec fn is_high_surrogate(u: u16) -> bool {
    0xd800 <= u < 0xdc00
}

/// Second half of a surrogate pair.
pub open spec fn is_low_surrogate(u: u16) -> bool {
    0xdc00 <= u < 0xe000
}

/// The text that UTF-16 code units stand for. A surrogate without its other half
/// stands for the replacement character.
pub open spec fn decoded(units: Seq<u16>) -> Seq<char>
    decreases units.len(),
{
    if units.len() == 0 {
        Seq::empty()
    } else if is_high_surrogate(units[0]) && units.len() > 1 && is_low_surrogate(units[1]) {
        seq![(0x10000 + (units[0] - 0xd800) * 0x400 + (units[1] - 0xdc00)) as char] + decoded(
            units.skip(2),
        )
    } else if is_high_surrogate(units[0]) || is_low_surrogate(units[0]) {
        seq![0xfffd as char] + decoded(units.skip(1))
    } else {
        seq![units[0] as char] + decoded(units.skip(1))
    }
}

/// The text that UTF-16 code units stand for.
pub fn from_utf16_lossy(units: &[u16]) -> (out: String)
    ensures
        out@ == decoded(units@),
{
    let mut out: String = String::new();
    let mut i: usize = 0;
    assert(units@.skip(0) =~= units@);
    while i < units.len()
        invariant
            i <= units@.len(),
            out@ + decoded(units@.skip(i as int)) == decoded(units@),
        decreases units@.len() - i,
    {
        let u: u16 = units[i];
        let rest: usize = units.len() - i;
        let pair: bool = 0xd800 <= u && u < 0xdc00 && rest > 1 && 0xdc00 <= units[i + 1] && units[i
            + 1] < 0xe000;
        let ghost before = out@;
        let ghost tail = units@.skip(i as int);
        let code: u32 = if pair {
            0x10000 + (u as u32 - 0xd800) * 0x400 + (units[i + 1] as u32 - 0xdc00)
        } else if 0xd800 <= u && u < 0xe000 {
            0xfffd
        } else {
            u as u32
        };
        match char::from_u32(code) {
            Some(c) => {
                out.push(c);
            },
            None => {},
        }
        let step: usize = if pair {
            2
        } else {
            1
        };
        proof {
            assert(tail.skip(step as int) =~= units@.skip(i + step));
            assert(decoded(tail) =~= seq![code as char] + decoded(tail.skip(step as int)));
            assert(out@ + decoded(units@.skip(i + step)) =~= before + decoded(tail));
        }
        i = i + step;
    }
    assert(decoded(units@.skip(i as int)) =~= Seq::empty());
    assert(out@ =~= decoded(units@));
    out
}

proof fn utf16_from_the_front(s: Seq<char>)
    requires
        s.len() > 0,
    ensures
        utf16(s) == units_of(s[0]) + utf16(s.drop_first()),
    decreases s.len(),
{
    if s.len() == 1 {
        assert(s.drop_last() =~= Seq::empty());
        assert(s.drop_first() =~= Seq::empty());
        assert(utf16(s.drop_last()) =~= Seq::empty());
        assert(utf16(s) =~= units_of(s[0]) + utf16(s.drop_first()));
    } else {
        utf16_from_the_front(s.drop_last());
        assert(s.drop_last().drop_first() =~= s.drop_first().drop_last());
        assert(utf16(s) =~= units_of(s[0]) + utf16(s.drop_first()));
    }
}

proof fn one_char_decodes(c: char, rest: Seq<u16>)
    ensures
        decoded(units_of(c) + rest) == seq![c] + decoded(rest),
{
    let all = units_of(c) + rest;
    let n = c as int;
    assert(all.skip(units_of(c).len() as int) =~= rest);
    if n < 0x10000 {
        assert(all[0] == n as u16);
    } else {
        assert(all[0] == (0xd800 + (n - 0x10000) / 0x400) as u16);
        assert(all[1] == (0xdc00 + (n - 0x10000) % 0x400) as u16);
    }
}

/// Encoding a text and decoding the units gives the text.
pub proof fn utf16_round_trips(s: Seq<char>)
    ensures
        decoded(utf16(s)) == s,
    decreases s.len(),
{
    if s.len() > 0 {
        let rest = s.drop_first();
        utf16_from_the_front(s);
        utf16_round_trips(rest);
        one_char_decodes(s[0], utf16(rest));
        assert(seq![s[0]] + rest =~= s);
    }
}

/// A character below U+10000 is one unit, its own number. One above is two: the first
/// from the high surrogates, the second from the low ones, and together they count from
/// U+10000 on.
pub proof fn characters_are_one_or_two_units(c: char)
    ensures
        units_of(c).len() == 1 <==> (c as int) < 65536,
        units_of(c).len() == 2 <==> (c as int) >= 65536,
        (c as int) < 65536 ==> units_of(c)[0] as int == c as int,
        (c as int) >= 65536 ==> {
            let high = units_of(c)[0];
            let low = units_of(c)[1];
            &&& 0xd800 <= high <= 0xdbff
            &&& 0xdc00 <= low <= 0xdfff
            &&& (high - 0xd800) * 1024 + (low - 0xdc00) + 65536 == c as int
        },
{
}

/// Texts one after the other are encoded one after the other.
pub proof fn texts_are_encoded_in_their_order(a: Seq<char>, b: Seq<char>)
    ensures
        utf16(a + b) == utf16(a) + utf16(b),
    decreases b.len(),
{
    if b.len() == 0 {
        assert(a + b =~= a);
        assert(utf16(a) + utf16(b) =~= utf16(a));
    } else {
        texts_are_encoded_in_their_order(a, b.drop_last());
        assert((a + b).drop_last() =~= a + b.drop_last());
        assert(utf16(a) + utf16(b.drop_last()) + units_of(b.last()) =~= utf16(a) + utf16(b));
    }
}

/// A surrogate without its other half reads as the replacement character, and what
/// follows it reads as if it stood alone.
pub proof fn lone_surrogates_are_replaced(unit: u16, rest: Seq<u16>)
    requires
        0xd800 <= unit <= 0xdfff,
        rest.len() > 0 ==> unit >= 0xdc00 || !(0xdc00 <= rest[0] <= 0xdfff),
    ensures
        decoded(seq![unit] + rest) == seq!['\u{fffd}'] + decoded(rest),
{
    let all = seq![unit] + rest;
    assert(all.skip(1) =~= rest);
    assert(all[0] == unit);
    if rest.len() > 0 {
        assert(all[1] == rest[0]);
    }
}

} // verus!
