//! Text built and taken apart character by character.

use vstd::prelude::*;
use vstd::string::*;

verus! {

/// `String::push` adds one character at the end and leaves the rest as it was.
pub assume_specification[ String::push ](s: &mut String, c: char)
    ensures
        final(s)@ == old(s)@.push(c),
;

/// The characters of `s`, in order.
pub fn chars_of(s: &str) -> (out: Vec<char>)
    ensures
        out@ == s@,
{
    let mut out: Vec<char> = Vec::new();
    let n: usize = s.unicode_len();
    let mut it = s.chars();
    let mut i: usize = 0;
    while i < n
        invariant
            n == s@.len(),
            i <= n,
            out@ == s@.take(i as int),
            vstd::std_specs::iter::IteratorSpec::remaining(&it) == s@.skip(i as int),
            vstd::std_specs::iter::IteratorSpec::obeys_prophetic_iter_laws(&it),
        decreases n - i,
    {
        let next = it.next();
        match next {
            Some(c) => {
                out.push(c);
            },
            None => {},
        }
        proof {
            assert(s@.skip(i as int).drop_first() =~= s@.skip(i + 1));
            assert(s@.take(i as int).push(s@[i as int]) =~= s@.take(i + 1));
        }
        i = i + 1;
    }
    assert(s@.take(n as int) =~= s@);
    out
}

/// The text made of `chars`.
pub fn text_of(chars: &[char]) -> (out: String)
    ensures
        out@ == chars@,
{
    let mut out: String = String::new();
    let mut i: usize = 0;
    while i < chars.len()
        invariant
            i <= chars@.len(),
            out@ == chars@.take(i as int),
        decreases chars@.len() - i,
    {
        out.push(chars[i]);
        proof {
            assert(chars@.take(i as int).push(chars@[i as int]) =~= chars@.take(i + 1));
        }
        i = i + 1;
    }
    assert(chars@.take(i as int) =~= chars@);
    out
}

/// The character that stands for the digit `d`, lower case above nine.
pub open spec fn digit_char(d: int) -> char {
    if d < 10 {
        (d + 48) as char
    } else {
        (d + 87) as char
    }
}

/// `n` in decimal, with no leading zero (and "0" for zero), as `{}` prints it.
pub open spec fn decimal(n: int) -> Seq<char>
    decreases n,
{
    if n < 10 {
        seq![digit_char(n)]
    } else {
        decimal(n / 10).push(digit_char(n % 10))
    }
}

/// `n` in decimal, padded with zeros to at least `width` digits.
pub open spec fn padded_decimal(n: int, width: nat) -> Seq<char>
    decreases width,
{
    if width <= 1 {
        decimal(n)
    } else {
        padded_decimal(n / 10, (width - 1) as nat).push(digit_char(n % 10))
    }
}

/// The low `width` hexadecimal digits of `n`, lower case, padded with zeros.
pub open spec fn hex(n: int, width: nat) -> Seq<char>
    decreases width,
{
    if width == 0 {
        Seq::empty()
    } else {
        hex(n / 16, (width - 1) as nat).push(digit_char(n % 16))
    }
}

/// The character that stands for the digit `d`, upper case above nine.
pub open spec fn digit_char_upper(d: int) -> char {
    if d < 10 {
        (d + 48) as char
    } else {
        (d + 55) as char
    }
}

/// The low `width` hexadecimal digits of `n`, upper case, padded with zeros.
pub open spec fn hex_upper(n: int, width: nat) -> Seq<char>
    decreases width,
{
    if width == 0 {
        Seq::empty()
    } else {
        hex_upper(n / 16, (width - 1) as nat).push(digit_char_upper(n % 16))
    }
}

fn digit_to_char_upper(d: u64) -> (c: char)
    requires
        d < 16,
    ensures
        c == digit_char_upper(d as int),
{
    if d < 10 {
        (48 + d as u8) as char
    } else {
        (55 + d as u8) as char
    }
}

/// Appends the low `width` hexadecimal digits of `n`, upper case.
pub fn push_hex_upper(out: &mut String, n: u64, width: usize)
    ensures
        final(out)@ == old(out)@ + hex_upper(n as int, width as nat),
    decreases width,
{
    let ghost start = out@;
    if width > 0 {
        push_hex_upper(out, n / 16, width - 1);
        out.push(digit_to_char_upper(n % 16));
    }
    assert(out@ =~= start + hex_upper(n as int, width as nat));
}

/// How many hexadecimal digits `n` has.
pub open spec fn hex_len(n: int) -> nat
    decreases n,
{
    if n < 16 {
        1
    } else {
        hex_len(n / 16) + 1
    }
}

/// `n` in upper-case hexadecimal with at least `width` digits, as a zero-padded
/// width prints it.
pub open spec fn padded_hex_upper(n: int, width: nat) -> Seq<char> {
    hex_upper(
        n,
        if hex_len(n) > width {
            hex_len(n)
        } else {
            width
        },
    )
}

fn count_hex(n: u64) -> (len: usize)
    ensures
        len == hex_len(n as int),
        len <= 16,
{
    let mut rest: u64 = n;
    let mut len: usize = 1;
    let ghost mut bound: int = 0x1_0000_0000_0000_0000;
    while rest >= 16
        invariant
            1 <= len <= 16,
            len - 1 + hex_len(rest as int) == hex_len(n as int),
            rest < bound,
            len == 1 ==> bound == 0x1_0000_0000_0000_0000,
            len == 2 ==> bound == 0x1000_0000_0000_0000,
            len == 3 ==> bound == 0x100_0000_0000_0000,
            len == 4 ==> bound == 0x10_0000_0000_0000,
            len == 5 ==> bound == 0x1_0000_0000_0000,
            len == 6 ==> bound == 0x1000_0000_0000,
            len == 7 ==> bound == 0x100_0000_0000,
            len == 8 ==> bound == 0x10_0000_0000,
            len == 9 ==> bound == 0x1_0000_0000,
            len == 10 ==> bound == 0x1000_0000,
            len == 11 ==> bound == 0x100_0000,
            len == 12 ==> bound == 0x10_0000,
            len == 13 ==> bound == 0x1_0000,
            len == 14 ==> bound == 0x1000,
            len == 15 ==> bound == 0x100,
            len == 16 ==> bound == 0x10,
        decreases rest,
    {
        rest = rest / 16;
        len = len + 1;
        proof {
            bound = bound / 16;
        }
    }
    len
}

/// Appends `n` in upper-case hexadecimal with at least `width` digits.
pub fn push_padded_hex_upper(out: &mut String, n: u64, width: usize)
    ensures
        final(out)@ == old(out)@ + padded_hex_upper(n as int, width as nat),
{
    let len: usize = count_hex(n);
    push_hex_upper(
        out,
        n,
        if len > width {
            len
        } else {
            width
        },
    );
}

fn digit_to_char(d: u64) -> (c: char)
    requires
        d < 16,
    ensures
        c == digit_char(d as int),
{
    if d < 10 {
        (48 + d as u8) as char
    } else {
        (87 + d as u8) as char
    }
}

/// Appends `n` in decimal.
pub fn push_decimal(out: &mut String, n: u64)
    ensures
        final(out)@ == old(out)@ + decimal(n as int),
    decreases n,
{
    let ghost start = out@;
    if n < 10 {
        out.push(digit_to_char(n));
        assert(out@ =~= start + decimal(n as int));
    } else {
        push_decimal(out, n / 10);
        out.push(digit_to_char(n % 10));
        assert(out@ =~= start + decimal(n as int));
    }
}

/// Appends `n` in decimal, padded with zeros to at least `width` digits.
pub fn push_padded_decimal(out: &mut String, n: u64, width: usize)
    ensures
        final(out)@ == old(out)@ + padded_decimal(n as int, width as nat),
    decreases width,
{
    let ghost start = out@;
    if width <= 1 {
        push_decimal(out, n);
    } else {
        push_padded_decimal(out, n / 10, width - 1);
        out.push(digit_to_char(n % 10));
        assert(out@ =~= start + padded_decimal(n as int, width as nat));
    }
}

/// Appends the low `width` hexadecimal digits of `n`.
pub fn push_hex(out: &mut String, n: u64, width: usize)
    ensures
        final(out)@ == old(out)@ + hex(n as int, width as nat),
    decreases width,
{
    let ghost start = out@;
    if width > 0 {
        push_hex(out, n / 16, width - 1);
        out.push(digit_to_char(n % 16));
    }
    assert(out@ =~= start + hex(n as int, width as nat));
}

/// The upper-case form of an ASCII letter; every other character unchanged.
pub open spec fn ascii_upper(c: char) -> char {
    if 'a' <= c && c <= 'z' {
        (c as int - 32) as char
    } else {
        c
    }
}

/// Equal but for the case of ASCII letters.
pub open spec fn same_ignoring_ascii_case(a: Seq<char>, b: Seq<char>) -> bool {
    &&& a.len() == b.len()
    &&& forall|i: int| 0 <= i < a.len() ==> ascii_upper(#[trigger] a[i]) == ascii_upper(b[i])
}

/// The upper-case form of an ASCII letter.
pub fn to_ascii_upper(c: char) -> (r: char)
    ensures
        r == ascii_upper(c),
{
    if 'a' <= c && c <= 'z' {
        let code: u32 = c as u32;
        (code as u8 - 32) as char
    } else {
        c
    }
}

/// Whether `a` and `b` are equal but for the case of ASCII letters.
pub fn eq_ignore_ascii_case(a: &[char], b: &[char]) -> (r: bool)
    ensures
        r == same_ignoring_ascii_case(a@, b@),
{
    if a.len() != b.len() {
        return false;
    }
    let mut i: usize = 0;
    while i < a.len()
        invariant
            i <= a@.len(),
            a@.len() == b@.len(),
            forall|k: int| 0 <= k < i ==> ascii_upper(#[trigger] a@[k]) == ascii_upper(b@[k]),
        decreases a@.len() - i,
    {
        if to_ascii_upper(a[i]) != to_ascii_upper(b[i]) {
            return false;
        }
        i = i + 1;
    }
    true
}

/// Whether the sequences hold the same characters.
pub fn same_chars(a: &[char], b: &[char]) -> (r: bool)
    ensures
        r == (a@ == b@),
{
    if a.len() != b.len() {
        return false;
    }
    let mut i: usize = 0;
    while i < a.len()
        invariant
            i <= a@.len(),
            a@.len() == b@.len(),
            forall|k: int| 0 <= k < i ==> a@[k] == b@[k],
        decreases a@.len() - i,
    {
        if a[i] != b[i] {
            return false;
        }
        i = i + 1;
    }
    assert(a@ =~= b@);
    true
}

/// The pieces of `s` between separators; there is one more piece than there are
/// separators.
pub open spec fn split(s: Seq<char>, separator: char) -> Seq<Seq<char>>
    decreases s.len(),
{
    if s.len() == 0 {
        seq![Seq::empty()]
    } else {
        let before = split(s.drop_last(), separator);
        if s.last() == separator {
            before.push(Seq::empty())
        } else {
            before.drop_last().push(before.last().push(s.last()))
        }
    }
}

/// There is always a piece.
pub proof fn split_is_not_empty(s: Seq<char>, separator: char)
    ensures
        split(s, separator).len() > 0,
    decreases s.len(),
{
    if s.len() > 0 {
        split_is_not_empty(s.drop_last(), separator);
    }
}

/// Text without a separator goes on with the last piece.
pub proof fn split_extends_the_last_piece(s: Seq<char>, t: Seq<char>, separator: char)
    requires
        !t.contains(separator),
    ensures
        split(s + t, separator) == split(s, separator).drop_last().push(
            split(s, separator).last() + t,
        ),
    decreases t.len(),
{
    split_is_not_empty(s, separator);
    if t.len() == 0 {
        assert(s + t =~= s);
        assert(split(s, separator).last() + t =~= split(s, separator).last());
        assert(split(s, separator).drop_last().push(split(s, separator).last()) =~= split(
            s,
            separator,
        ));
    } else {
        let head = t.drop_last();
        assert(t.contains(t.last()));
        assert(!head.contains(separator)) by {
            if head.contains(separator) {
                let i = choose|i: int| 0 <= i < head.len() && head[i] == separator;
                assert(t[i] == separator);
            }
        }
        split_extends_the_last_piece(s, head, separator);
        assert((s + t).drop_last() =~= s + head);
        let before = split(s + head, separator);
        assert(before.drop_last() =~= split(s, separator).drop_last());
        assert(before.last().push(t.last()) =~= split(s, separator).last() + t);
    }
}

/// The pieces of `s` between separators.
pub fn split_on(s: &[char], separator: char) -> (out: Vec<Vec<char>>)
    ensures
        out@.len() == split(s@, separator).len(),
        forall|i: int| 0 <= i < out@.len() ==> (#[trigger] out@[i])@ == split(s@, separator)[i],
{
    let mut out: Vec<Vec<char>> = Vec::new();
    let mut piece: Vec<char> = Vec::new();
    let mut i: usize = 0;
    while i < s.len()
        invariant
            i <= s@.len(),
            split(s@.take(i as int), separator).len() == out@.len() + 1,
            forall|k: int|
                0 <= k < out@.len() ==> (#[trigger] out@[k])@ == split(
                    s@.take(i as int),
                    separator,
                )[k],
            piece@ == split(s@.take(i as int), separator).last(),
        decreases s@.len() - i,
    {
        let c: char = s[i];
        proof {
            assert(s@.take(i + 1).drop_last() =~= s@.take(i as int));
        }
        if c == separator {
            out.push(piece);
            piece = Vec::new();
        } else {
            piece.push(c);
        }
        i = i + 1;
    }
    assert(s@.take(i as int) =~= s@);
    out.push(piece);
    out
}

/// The characters that Unicode counts as white space.
pub open spec fn is_space(c: char) -> bool {
    let n = c as int;
    ||| 0x09 <= n <= 0x0d
    ||| n == 0x20
    ||| n == 0x85
    ||| n == 0xa0
    ||| n == 0x1680
    ||| 0x2000 <= n <= 0x200a
    ||| n == 0x2028
    ||| n == 0x2029
    ||| n == 0x202f
    ||| n == 0x205f
    ||| n == 0x3000
}

/// `s` without the white space at its end.
pub open spec fn trim_end(s: Seq<char>) -> Seq<char>
    decreases s.len(),
{
    if s.len() > 0 && is_space(s.last()) {
        trim_end(s.drop_last())
    } else {
        s
    }
}

/// `s` without the white space at its start.
pub open spec fn trim_start(s: Seq<char>) -> Seq<char>
    decreases s.len(),
{
    if s.len() > 0 && is_space(s[0]) {
        trim_start(s.drop_first())
    } else {
        s
    }
}

/// `s` without the white space at its ends.
pub open spec fn trimmed(s: Seq<char>) -> Seq<char> {
    trim_start(trim_end(s))
}

fn space(c: char) -> (r: bool)
    ensures
        r == is_space(c),
{
    let n: u32 = c as u32;
    (0x09 <= n && n <= 0x0d) || n == 0x20 || n == 0x85 || n == 0xa0 || n == 0x1680 || (0x2000 <= n
        && n <= 0x200a) || n == 0x2028 || n == 0x2029 || n == 0x202f || n == 0x205f || n == 0x3000
}

/// `s` without the white space at its ends.
pub fn trim(s: &[char]) -> (out: Vec<char>)
    ensures
        out@ == trimmed(s@),
{
    let mut end: usize = s.len();
    assert(s@.take(end as int) =~= s@);
    while end > 0 && space(s[end - 1])
        invariant
            end <= s@.len(),
            trim_end(s@.take(end as int)) == trim_end(s@),
        decreases end,
    {
        assert(s@.take(end as int).drop_last() =~= s@.take(end - 1));
        end = end - 1;
    }
    let ghost kept = s@.take(end as int);
    let mut start: usize = 0;
    assert(kept.skip(0) =~= kept);
    while start < end && space(s[start])
        invariant
            start <= end <= s@.len(),
            kept == s@.take(end as int),
            trim_start(kept.skip(start as int)) == trim_start(kept),
        decreases end - start,
    {
        assert(kept.skip(start as int).drop_first() =~= kept.skip(start + 1));
        start = start + 1;
    }
    let mut out: Vec<char> = Vec::new();
    let mut i: usize = start;
    while i < end
        invariant
            start <= i <= end <= s@.len(),
            out@ == s@.subrange(start as int, i as int),
        decreases end - i,
    {
        out.push(s[i]);
        i = i + 1;
        assert(out@ =~= s@.subrange(start as int, i as int));
    }
    assert(out@ =~= kept.skip(start as int));
    out
}

/// Every character is one of ASCII.
pub open spec fn is_ascii_text(s: Seq<char>) -> bool {
    forall|i: int| 0 <= i < s.len() ==> (#[trigger] s[i] as int) < 128
}

/// The letter in lower case, where it is one of ASCII.
pub open spec fn ascii_lower(c: char) -> char {
    if 'A' <= c && c <= 'Z' {
        (c as int + 32) as char
    } else {
        c
    }
}

/// `s` with its ASCII letters in lower case.
pub open spec fn ascii_lowered(s: Seq<char>) -> Seq<char> {
    Seq::new(s.len(), |i: int| ascii_lower(s[i]))
}

/// What `str::to_lowercase` makes of a text.
pub uninterp spec fn lowercase(s: Seq<char>) -> Seq<char>;

/// `str::to_lowercase`: the lower-case form of the text under the rules of
/// Unicode, a function of the text alone. In a text of ASCII only its letters
/// change; what becomes of other texts is not said.
#[verifier::external_body]
pub(crate) fn to_lowercase(s: &str) -> (out: String)
    ensures
        out@ == lowercase(s@),
        is_ascii_text(s@) ==> out@ == ascii_lowered(s@),
{
    s.to_lowercase()
}

/// What `String::from_utf8_lossy` makes of a sequence of bytes.
pub uninterp spec fn utf8_text(bytes: Seq<u8>) -> Seq<char>;

/// `String::from_utf8_lossy`: the text that the bytes encode, a function of the
/// bytes alone. Bytes that are valid UTF-8 give the text that encodes to them;
/// what becomes of others is not said.
#[verifier::external_body]
pub(crate) fn from_utf8_lossy(bytes: &[u8]) -> (out: String)
    ensures
        out@ == utf8_text(bytes@),
        vstd::utf8::valid_utf8(bytes@) ==> vstd::utf8::encode_utf8(out@) == bytes@,
{
    String::from_utf8_lossy(bytes).into_owned()
}

/// `s` begins with `prefix`.
pub open spec fn begins_with(s: Seq<char>, prefix: Seq<char>) -> bool {
    s.len() >= prefix.len() && s.take(prefix.len() as int) == prefix
}

/// `s` ends with `suffix`.
pub open spec fn finishes_with(s: Seq<char>, suffix: Seq<char>) -> bool {
    s.len() >= suffix.len() && s.skip(s.len() - suffix.len()) == suffix
}

/// `part` occurs in `s`.
pub open spec fn occurs_in(part: Seq<char>, s: Seq<char>) -> bool {
    exists|i: int| 0 <= i <= s.len() - part.len() && #[trigger] s.subrange(i, i + part.len()) == part
}

fn occurs_at(part: &[char], s: &[char], at: usize) -> (r: bool)
    requires
        at + part@.len() <= s@.len(),
    ensures
        r == (s@.subrange(at as int, at + part@.len()) == part@),
{
    let len: usize = s.len();
    let mut i: usize = 0;
    while i < part.len()
        invariant
            i <= part@.len(),
            at + part@.len() <= s@.len() == len,
            forall|k: int| 0 <= k < i ==> s@[at + k] == part@[k],
        decreases part@.len() - i,
    {
        if s[at + i] != part[i] {
            assert(s@.subrange(at as int, at + part@.len())[i as int] == s@[at + i]);
            return false;
        }
        i = i + 1;
    }
    assert(s@.subrange(at as int, at + part@.len()) =~= part@);
    true
}

/// Whether `s` begins with `prefix`.
pub fn starts_with(s: &[char], prefix: &[char]) -> (r: bool)
    ensures
        r == begins_with(s@, prefix@),
{
    if s.len() < prefix.len() {
        return false;
    }
    assert(s@.subrange(0, prefix@.len() as int) =~= s@.take(prefix@.len() as int));
    occurs_at(prefix, s, 0)
}

/// Whether `s` ends with `suffix`.
pub fn ends_with(s: &[char], suffix: &[char]) -> (r: bool)
    ensures
        r == finishes_with(s@, suffix@),
{
    if s.len() < suffix.len() {
        return false;
    }
    assert(s@.subrange(s@.len() - suffix@.len(), s@.len() as int) =~= s@.skip(
        s@.len() - suffix@.len(),
    ));
    occurs_at(suffix, s, s.len() - suffix.len())
}

/// Whether `part` occurs in `s`.
pub fn contains(s: &[char], part: &[char]) -> (r: bool)
    ensures
        r == occurs_in(part@, s@),
{
    if s.len() < part.len() {
        return false;
    }
    let last: usize = s.len() - part.len();
    let mut at: usize = 0;
    loop
        invariant
            at <= last,
            last + part@.len() == s@.len(),
            forall|i: int| 0 <= i < at ==> #[trigger] s@.subrange(i, i + part@.len()) != part@,
        decreases last - at,
    {
        if occurs_at(part, s, at) {
            return true;
        }
        if at == last {
            return false;
        }
        at = at + 1;
    }
}

/// What a digit is worth, in any base up to sixteen.
pub open spec fn digit_value(c: char) -> int {
    if 'a' <= c && c <= 'f' {
        c as int - 'a' as int + 10
    } else if 'A' <= c && c <= 'F' {
        c as int - 'A' as int + 10
    } else {
        c as int - '0' as int
    }
}

/// The number that digits stand for.
pub open spec fn number_in(s: Seq<char>, base: int) -> int
    decreases s.len(),
{
    if s.len() == 0 {
        0
    } else {
        number_in(s.drop_last(), base) * base + digit_value(s.last())
    }
}

proof fn next_digit(s: Seq<char>, c: char, base: int)
    ensures
        number_in(s.push(c), base) == number_in(s, base) * base + digit_value(c),
{
    assert(s.push(c).drop_last() =~= s);
}

/// A number written in decimal reads as the number, and begins with no zero but its own.
pub proof fn decimals_are_read_back(n: int)
    requires
        0 <= n,
    ensures
        number_in(decimal(n), 10) == n,
        decimal(n).len() > 0,
        n > 0 ==> decimal(n)[0] != '0',
        forall|i: int| 0 <= i < decimal(n).len() ==> '0' <= #[trigger] decimal(n)[i] <= '9',
    decreases n,
{
    if n >= 10 {
        decimals_are_read_back(n / 10);
        next_digit(decimal(n / 10), digit_char(n % 10), 10);
    } else {
        let one = seq![digit_char(n)];
        assert(one =~= Seq::<char>::empty().push(digit_char(n)));
        next_digit(Seq::empty(), digit_char(n), 10);
    }
}

/// Zeros in front of a number change nothing but its length, which is at least the width
/// and no more than it where the number fits.
pub proof fn padding_changes_no_number(n: int, width: nat)
    requires
        0 <= n,
        width > 0,
    ensures
        number_in(padded_decimal(n, width), 10) == n,
        padded_decimal(n, width).len() >= width,
        n < vstd::arithmetic::power::pow(10, width) ==> padded_decimal(n, width).len() == width,
    decreases width,
{
    reveal(vstd::arithmetic::power::pow);
    if width == 1 {
        decimals_are_read_back(n);
        assert(vstd::arithmetic::power::pow(10, 0) == 1);
    } else {
        padding_changes_no_number(n / 10, (width - 1) as nat);
        next_digit(padded_decimal(n / 10, (width - 1) as nat), digit_char(n % 10), 10);
        assert(vstd::arithmetic::power::pow(10, width) == 10 * vstd::arithmetic::power::pow(
            10,
            (width - 1) as nat,
        ));
    }
}

/// A number that fits into so many hexadecimal digits is read back from them, in lower
/// and in upper case, and there are just so many.
pub proof fn hexadecimals_are_read_back(n: int, width: nat)
    requires
        0 <= n < vstd::arithmetic::power::pow(16, width),
    ensures
        number_in(hex(n, width), 16) == n,
        number_in(hex_upper(n, width), 16) == n,
        hex(n, width).len() == width,
        hex_upper(n, width).len() == width,
        forall|i: int|
            0 <= i < width ==> {
                let c = #[trigger] hex(n, width)[i];
                '0' <= c <= '9' || 'a' <= c <= 'f'
            },
        forall|i: int|
            0 <= i < width ==> {
                let c = #[trigger] hex_upper(n, width)[i];
                '0' <= c <= '9' || 'A' <= c <= 'F'
            },
    decreases width,
{
    reveal(vstd::arithmetic::power::pow);
    if width > 0 {
        assert(vstd::arithmetic::power::pow(16, width) == 16 * vstd::arithmetic::power::pow(
            16,
            (width - 1) as nat,
        ));
        hexadecimals_are_read_back(n / 16, (width - 1) as nat);
        next_digit(hex(n / 16, (width - 1) as nat), digit_char(n % 16), 16);
        next_digit(hex_upper(n / 16, (width - 1) as nat), digit_char_upper(n % 16), 16);
    }
}

proof fn digits_suffice(n: int)
    requires
        0 <= n,
    ensures
        n < vstd::arithmetic::power::pow(16, hex_len(n)),
        n >= 16 ==> n >= vstd::arithmetic::power::pow(16, (hex_len(n) - 1) as nat),
        hex_len(n) >= 1,
        n < 16 ==> hex_len(n) == 1,
    decreases n,
{
    reveal(vstd::arithmetic::power::pow);
    if n >= 16 {
        digits_suffice(n / 16);
        let len = hex_len(n / 16);
        assert(vstd::arithmetic::power::pow(16, len + 1) == 16 * vstd::arithmetic::power::pow(
            16,
            len,
        ));
        if n / 16 >= 16 {
            assert(vstd::arithmetic::power::pow(16, len) == 16 * vstd::arithmetic::power::pow(
                16,
                (len - 1) as nat,
            ));
        } else {
            assert(vstd::arithmetic::power::pow(16, 1) == 16) by {
                assert(vstd::arithmetic::power::pow(16, 0) == 1);
            }
        }
    } else {
        assert(vstd::arithmetic::power::pow(16, 0) == 1);
        assert(vstd::arithmetic::power::pow(16, 1) == 16);
    }
}

/// A number in upper-case hexadecimal with at least so many digits reads as the number:
/// no digit is lost, and none is added beyond the width and what the number needs.
pub proof fn padded_hexadecimals_are_read_back(n: int, width: nat)
    requires
        0 <= n,
    ensures
        number_in(padded_hex_upper(n, width), 16) == n,
        padded_hex_upper(n, width).len() >= width,
        padded_hex_upper(n, width).len() > width ==> width == 0 || n
            >= vstd::arithmetic::power::pow(16, width),
{
    digits_suffice(n);
    let len = if hex_len(n) > width {
        hex_len(n)
    } else {
        width
    };
    vstd::arithmetic::power::lemma_pow_increases(16, hex_len(n), len);
    hexadecimals_are_read_back(n, len);
    if hex_len(n) > width && width > 0 {
        vstd::arithmetic::power::lemma_pow_increases(16, width, (hex_len(n) - 1) as nat);
    }
}

/// White space alone.
pub open spec fn is_blank(s: Seq<char>) -> bool {
    forall|i: int| 0 <= i < s.len() ==> is_space(#[trigger] s[i])
}

proof fn blanks_go_from_the_end(s: Seq<char>, blank: Seq<char>)
    requires
        is_blank(blank),
    ensures
        trim_end(s + blank) == trim_end(s),
    decreases blank.len(),
{
    if blank.len() > 0 {
        assert((s + blank).drop_last() =~= s + blank.drop_last());
        assert(is_space(blank[blank.len() - 1]));
        blanks_go_from_the_end(s, blank.drop_last());
    } else {
        assert(s + blank =~= s);
    }
}

proof fn blanks_go_from_the_start(blank: Seq<char>, s: Seq<char>)
    requires
        is_blank(blank),
    ensures
        trim_start(blank + s) == trim_start(s),
    decreases blank.len(),
{
    if blank.len() > 0 {
        assert((blank + s).drop_first() =~= blank.drop_first() + s);
        assert(is_space(blank[0]));
        assert forall|i: int| 0 <= i < blank.drop_first().len() implies is_space(
            #[trigger] blank.drop_first()[i],
        ) by {
            assert(is_space(blank[i + 1]));
        }
        blanks_go_from_the_start(blank.drop_first(), s);
    } else {
        assert(blank + s =~= s);
    }
}

/// White space goes from both ends of a text, and nothing else goes: what stands between
/// its first and its last other character stays as it is.
pub proof fn trimming_cuts_white_space(before: Seq<char>, kept: Seq<char>, after: Seq<char>)
    requires
        is_blank(before),
        is_blank(after),
        kept.len() > 0 ==> !is_space(kept[0]) && !is_space(kept.last()),
    ensures
        trimmed(before + kept + after) == kept,
{
    blanks_go_from_the_end(before + kept, after);
    if kept.len() > 0 {
        blanks_go_from_the_start(before, kept);
    } else {
        let none = Seq::<char>::empty();
        assert(before + kept =~= none + before);
        blanks_go_from_the_end(none, before);
        assert(kept =~= none);
    }
}

/// Of the characters of ASCII, the space and those from the tab to the carriage return
/// are white space.
pub proof fn ascii_has_six_spaces(c: char)
    requires
        (c as int) < 128,
    ensures
        is_space(c) <==> c == ' ' || c == '\t' || c == '\n' || c == '\r' || c as int == 11 || c as int
            == 12,
{
}

/// A text without the separator is one piece; a separator ends a piece, and what follows
/// it, up to the next, is a piece of its own.
pub proof fn separators_part_the_pieces(s: Seq<char>, piece: Seq<char>, separator: char)
    requires
        !piece.contains(separator),
    ensures
        split(piece, separator) == seq![piece],
        split(s.push(separator) + piece, separator) == split(s, separator).push(piece),
{
    let none = Seq::<char>::empty();
    assert(split(none, separator) =~= seq![none]);
    split_extends_the_last_piece(none, piece, separator);
    assert(none + piece =~= piece);
    assert(seq![none].drop_last().push(piece) =~= seq![piece]);
    assert(s.push(separator).drop_last() =~= s);
    split_extends_the_last_piece(s.push(separator), piece, separator);
    assert(split(s, separator).push(none).drop_last() =~= split(s, separator));
}

/// The case of a letter of ASCII makes no difference, and nothing else is ignored: two
/// texts are alike exactly where their lower-case forms are the same.
pub proof fn only_the_case_is_ignored(a: Seq<char>, b: Seq<char>)
    ensures
        same_ignoring_ascii_case(a, b) <==> ascii_lowered(a) == ascii_lowered(b),
        same_ignoring_ascii_case(a, b) == same_ignoring_ascii_case(b, a),
{
    if ascii_lowered(a) == ascii_lowered(b) {
        assert(ascii_lowered(a).len() == a.len());
        assert(ascii_lowered(b).len() == b.len());
        assert forall|i: int| 0 <= i < a.len() implies ascii_upper(#[trigger] a[i]) == ascii_upper(
            b[i],
        ) by {
            assert(ascii_lowered(a)[i] == ascii_lowered(b)[i]);
        }
    }
    if same_ignoring_ascii_case(a, b) {
        assert forall|i: int| 0 <= i < a.len() implies ascii_lowered(a)[i] == ascii_lowered(b)[i]
            by {
            assert(ascii_upper(a[i]) == ascii_upper(b[i]));
        }
        assert(ascii_lowered(a) =~= ascii_lowered(b));
        assert forall|i: int| 0 <= i < b.len() implies ascii_upper(#[trigger] b[i]) == ascii_upper(
            a[i],
        ) by {
            assert(ascii_upper(a[i]) == ascii_upper(b[i]));
        }
    }
    if same_ignoring_ascii_case(b, a) {
        assert forall|i: int| 0 <= i < a.len() implies ascii_upper(#[trigger] a[i]) == ascii_upper(
            b[i],
        ) by {
            assert(ascii_upper(b[i]) == ascii_upper(a[i]));
        }
    }
}

/// A letter and the other case of it lie 32 apart; every other character is its own lower
/// and upper case.
pub proof fn cases_lie_32_apart(c: char)
    ensures
        'a' <= c <= 'z' ==> ascii_upper(c) as int == c as int - 32 && ascii_lower(c) == c,
        'A' <= c <= 'Z' ==> ascii_lower(c) as int == c as int + 32 && ascii_upper(c) == c,
        !('a' <= c <= 'z') && !('A' <= c <= 'Z') ==> ascii_upper(c) == c && ascii_lower(c) == c,
{
}

/// What stands between two texts occurs in the whole.
pub proof fn what_stands_between_occurs(before: Seq<char>, part: Seq<char>, after: Seq<char>)
    ensures
        occurs_in(part, before + part + after),
{
    let i = before.len() as int;
    assert((before + part + after).subrange(i, i + part.len()) =~= part);
}

/// Texts one after the other.
pub open spec fn strung(pieces: Seq<Seq<char>>) -> Seq<char>
    decreases pieces.len(),
{
    if pieces.len() == 0 {
        Seq::empty()
    } else if pieces.len() == 1 {
        pieces[0]
    } else {
        strung(pieces.drop_last()) + pieces.last()
    }
}

/// Neighbours among texts that stand one after the other occur in the whole.
pub proof fn neighbours_occur(pieces: Seq<Seq<char>>, i: int)
    requires
        0 <= i < pieces.len() - 1,
    ensures
        occurs_in(pieces[i] + pieces[i + 1], strung(pieces)),
    decreases pieces.len(),
{
    let rest = pieces.drop_last();
    let part = pieces[i] + pieces[i + 1];
    let none = Seq::<char>::empty();
    if i + 2 < pieces.len() {
        neighbours_occur(rest, i);
        assert(rest[i] == pieces[i] && rest[i + 1] == pieces[i + 1]);
        let at = choose|k: int|
            0 <= k <= strung(rest).len() - part.len() && #[trigger] strung(rest).subrange(
                k,
                k + part.len(),
            ) == part;
        assert(strung(pieces).subrange(at, at + part.len()) =~= strung(rest).subrange(
            at,
            at + part.len(),
        ));
    } else if i == 0 {
        assert(rest =~= seq![pieces[0]]);
        assert(strung(rest) == pieces[0]);
        assert(strung(pieces) =~= none + part + none);
        what_stands_between_occurs(none, part, none);
    } else {
        let before = strung(rest.drop_last());
        assert(rest.last() == pieces[i]);
        assert(strung(rest) == before + pieces[i]);
        assert(strung(pieces) =~= before + part + none);
        what_stands_between_occurs(before, part, none);
    }
}

/// One more text behind others stands at their end.
pub proof fn one_more_is_strung(pieces: Seq<Seq<char>>, last: Seq<char>)
    requires
        pieces.len() > 0,
    ensures
        strung(pieces.push(last)) == strung(pieces) + last,
{
    assert(pieces.push(last).drop_last() =~= pieces);
}

/// A text is of ASCII exactly where every character is one of the first 128; then its
/// lower-case form is too.
pub proof fn ascii_has_128_characters(s: Seq<char>, c: char)
    ensures
        is_ascii_text(Seq::empty()),
        is_ascii_text(s.push(c)) <==> is_ascii_text(s) && c as int <= 127,
        is_ascii_text(s) ==> is_ascii_text(ascii_lowered(s)),
{
    let t = s.push(c);
    assert(t[s.len() as int] == c);
    if is_ascii_text(t) {
        assert forall|i: int| 0 <= i < s.len() implies (#[trigger] s[i] as int) < 128 by {
            assert(t[i] == s[i]);
        }
    }
    if is_ascii_text(s) {
        assert forall|i: int| 0 <= i < s.len() implies (
        #[trigger] ascii_lowered(s)[i] as int) < 128 by {
            assert((s[i] as int) < 128);
        }
    }
}

} // verus!
