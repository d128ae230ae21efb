//! What the machine is: read from the registry, told apart by a fingerprint.

use vstd::prelude::*;
use vstd::string::*;

use crate::text::{chars_of, same_chars, starts_with, text_of, to_lowercase, trim};
use crate::wide::from_utf16_lossy;

verus! {

/// Identity of a machine, as its firmware gives it.
pub struct HwInfo {
    pub manufacturer: String,
    pub product: String,
    /// The board, on which the thermal behaviour depends most.
    pub board: String,
    pub family: String,
    pub bios_version: String,
    /// Version of the board, which goes with the firmware of its controller.
    pub board_version: String,
}

/// The six fields, in the order of the fingerprint.
pub open spec fn fields_of(hw: HwInfo) -> Seq<Seq<char>> {
    seq![
        hw.manufacturer@,
        hw.product@,
        hw.family@,
        hw.board@,
        hw.bios_version@,
        hw.board_version@,
    ]
}

/// Six fields in one text, with a bar between any two.
pub open spec fn joined(f: Seq<Seq<char>>) -> Seq<char> {
    f[0] + "|"@ + f[1] + "|"@ + f[2] + "|"@ + f[3] + "|"@ + f[4] + "|"@ + f[5]
}

/// The fingerprint of a machine.
pub open spec fn fingerprint_of(hw: HwInfo) -> Seq<char> {
    joined(fields_of(hw))
}

/// Whether a manufacturer's name, in lower case, is that of HP.
pub open spec fn names_hp(lower: Seq<char>) -> bool {
    lower == "hp"@ || crate::text::begins_with(lower, "hewlett"@)
}

/// Whether a manufacturer's name, in lower case, is that of HP.
pub fn is_hp_name(lower: &str) -> (r: bool)
    ensures
        r == names_hp(lower@),
{
    let chars = chars_of(lower);
    let hp = chars_of("hp");
    let hewlett = chars_of("hewlett");
    same_chars(chars.as_slice(), hp.as_slice()) || starts_with(
        chars.as_slice(),
        hewlett.as_slice(),
    )
}

impl HwInfo {
    /// Whether the machine is one of HP's.
    pub fn is_hp(&self) -> (r: bool)
        ensures
            r == names_hp(crate::text::lowercase(self.manufacturer@)),
            crate::text::is_ascii_text(self.manufacturer@) ==> r == names_hp(
                crate::text::ascii_lowered(self.manufacturer@),
            ),
    {
        let lower = to_lowercase(self.manufacturer.as_str());
        is_hp_name(lower.as_str())
    }

    /// A text that identifies the machine and its firmware: an update of the BIOS or
    /// of the controller changes it.
    pub fn fingerprint(&self) -> (out: String)
        ensures
            out@ == fingerprint_of(*self),
    {
        let mut out: String = self.manufacturer.clone();
        out.append("|");
        out.append(self.product.as_str());
        out.append("|");
        out.append(self.family.as_str());
        out.append("|");
        out.append(self.board.as_str());
        out.append("|");
        out.append(self.bios_version.as_str());
        out.append("|");
        out.append(self.board_version.as_str());
        out
    }
}

/// A text in the registry.
pub const REG_SZ: u32 = 1;

/// The code units of a registry value of `size` bytes that ends with a zero unit.
pub open spec fn value_units(size: u32) -> int {
    if size / 2 > 0 {
        size / 2 - 1
    } else {
        0
    }
}

fn units_in(size: u32) -> (n: usize)
    ensures
        n == value_units(size),
{
    let units: usize = (size / 2) as usize;
    units.saturating_sub(1)
}

fn leading_text(buf: &[u16], n: usize) -> (out: String)
    requires
        n <= buf@.len(),
    ensures
        out@ == crate::wide::decoded(buf@.take(n as int)),
{
    let mut units: Vec<u16> = Vec::new();
    let mut i: usize = 0;
    while i < n
        invariant
            i <= n <= buf@.len(),
            units@ == buf@.take(i as int),
        decreases n - i,
    {
        units.push(buf[i]);
        i = i + 1;
        assert(units@ =~= buf@.take(i as int));
    }
    from_utf16_lossy(units.as_slice())
}

/// The text of a registry value, from what the query brought: empty where it
/// failed or where the value is no text.
pub open spec fn registry_text_of(ok: bool, kind: u32, size: u32, buf: Seq<u16>) -> Seq<char> {
    if ok && kind == REG_SZ {
        crate::wide::decoded(buf.take(value_units(size)))
    } else {
        Seq::empty()
    }
}

/// The text of a registry value, from what the query brought.
pub fn registry_text(ok: bool, kind: u32, size: u32, buf: &[u16]) -> (out: String)
    requires
        ok && kind == REG_SZ ==> value_units(size) <= buf@.len(),
    ensures
        out@ == registry_text_of(ok, kind, size, buf@),
{
    if !ok || kind != REG_SZ {
        return String::new();
    }
    leading_text(buf, units_in(size))
}

/// The model of the processor, from what the query of the registry brought: its
/// text without the white space around it.
pub fn cpu_name(ok: bool, kind: u32, size: u32, buf: &[u16]) -> (out: String)
    requires
        ok && kind == REG_SZ ==> value_units(size) <= buf@.len(),
    ensures
        out@ == crate::text::trimmed(registry_text_of(ok, kind, size, buf@)),
{
    if !ok || kind != REG_SZ {
        assert(crate::text::trimmed(Seq::empty()) =~= Seq::empty());
        return String::new();
    }
    let text = leading_text(buf, units_in(size));
    let chars = chars_of(text.as_str());
    let kept = trim(chars.as_slice());
    text_of(kept.as_slice())
}

/// The fingerprint that was accepted before, from what the query of the registry
/// brought: none where the query failed or brought nothing but white space. The
/// text never reaches beyond the buffer.
pub open spec fn accepted_of(ok: bool, size: u32, buf: Seq<u16>) -> Option<Seq<char>> {
    let n = value_units(size);
    let m = if n <= buf.len() {
        n
    } else {
        buf.len() as int
    };
    let text = crate::text::trimmed(crate::wide::decoded(buf.take(m)));
    if ok && text.len() > 0 {
        Some(text)
    } else {
        None
    }
}

/// The fingerprint that was accepted before, from what the query of the registry
/// brought.
pub fn accepted_text(ok: bool, size: u32, buf: &[u16]) -> (out: Option<String>)
    ensures
        accepted_of(ok, size, buf@) == (match out {
            Some(t) => Some(t@),
            None => None,
        }),
{
    if !ok {
        return None;
    }
    let n: usize = units_in(size);
    let m: usize = if n <= buf.len() {
        n
    } else {
        buf.len()
    };
    let text = leading_text(buf, m);
    let chars = chars_of(text.as_str());
    let kept = trim(chars.as_slice());
    if kept.len() == 0 {
        return None;
    }
    Some(text_of(kept.as_slice()))
}

/// No field holds the bar that separates the fields.
pub open spec fn no_bar(f: Seq<Seq<char>>) -> bool {
    f.len() == 6 && forall|i: int| 0 <= i < 6 ==> !(#[trigger] f[i]).contains('|')
}

/// The fields of a fingerprint can be read back from it.
pub proof fn fingerprint_splits_into_its_fields(f: Seq<Seq<char>>)
    requires
        no_bar(f),
    ensures
        crate::text::split(joined(f), '|') == f,
{
    reveal_strlit("|");
    let bar = seq!['|'];
    assert("|"@ =~= bar);
    let s0 = f[0];
    assert(crate::text::split(Seq::<char>::empty(), '|') == seq![Seq::<char>::empty()]);
    field_added(Seq::empty(), Seq::empty(), f[0]);
    assert(Seq::<char>::empty() + f[0] =~= f[0]);
    assert(crate::text::split(s0, '|') =~= seq![f[0]]);
    let s1 = s0 + bar + f[1];
    bar_added(s0);
    field_added(s0 + bar, seq![f[0]], f[1]);
    assert(crate::text::split(s1, '|') =~= seq![f[0], f[1]]);
    let s2 = s1 + bar + f[2];
    bar_added(s1);
    field_added(s1 + bar, seq![f[0], f[1]], f[2]);
    assert(crate::text::split(s2, '|') =~= seq![f[0], f[1], f[2]]);
    let s3 = s2 + bar + f[3];
    bar_added(s2);
    field_added(s2 + bar, seq![f[0], f[1], f[2]], f[3]);
    assert(crate::text::split(s3, '|') =~= seq![f[0], f[1], f[2], f[3]]);
    let s4 = s3 + bar + f[4];
    bar_added(s3);
    field_added(s3 + bar, seq![f[0], f[1], f[2], f[3]], f[4]);
    assert(crate::text::split(s4, '|') =~= seq![f[0], f[1], f[2], f[3], f[4]]);
    let s5 = s4 + bar + f[5];
    bar_added(s4);
    field_added(s4 + bar, seq![f[0], f[1], f[2], f[3], f[4]], f[5]);
    assert(crate::text::split(s5, '|') =~= seq![f[0], f[1], f[2], f[3], f[4], f[5]]);
    assert(f =~= seq![f[0], f[1], f[2], f[3], f[4], f[5]]);
}

proof fn bar_added(s: Seq<char>)
    ensures
        crate::text::split(s + seq!['|'], '|') == crate::text::split(s, '|').push(Seq::empty()),
{
    assert((s + seq!['|']).drop_last() =~= s);
}

proof fn field_added(s: Seq<char>, pieces: Seq<Seq<char>>, field: Seq<char>)
    requires
        crate::text::split(s, '|') == pieces.push(Seq::empty()),
        !field.contains('|'),
    ensures
        crate::text::split(s + field, '|') == pieces.push(field),
{
    crate::text::split_extends_the_last_piece(s, field, '|');
    assert(pieces.push(Seq::<char>::empty()).drop_last() =~= pieces);
    assert(Seq::<char>::empty() + field =~= field);
}

/// Machines that differ in any field have different fingerprints, as long as no
/// field holds a bar.
pub proof fn any_field_change_changes_the_fingerprint(a: HwInfo, b: HwInfo)
    requires
        no_bar(fields_of(a)),
        no_bar(fields_of(b)),
    ensures
        fingerprint_of(a) == fingerprint_of(b) <==> fields_of(a) == fields_of(b),
{
    fingerprint_splits_into_its_fields(fields_of(a));
    fingerprint_splits_into_its_fields(fields_of(b));
}

/// A change of one field alone changes the fingerprint, whatever the fields hold.
pub proof fn one_field_change_changes_the_fingerprint(a: HwInfo, b: HwInfo, i: int)
    requires
        0 <= i < 6,
        forall|j: int| 0 <= j < 6 && j != i ==> fields_of(a)[j] == fields_of(b)[j],
        fields_of(a)[i] != fields_of(b)[i],
    ensures
        fingerprint_of(a) != fingerprint_of(b),
{
    let fa = fields_of(a);
    let fb = fields_of(b);
    joined_around_a_field(fa, i);
    joined_around_a_field(fb, i);
    around_is_alike(fa, fb, i, i, i);
    if joined(fa) == joined(fb) {
        let h = before_field(fa, i).len() as int;
        let t = after_field(fa, i).len() as int;
        assert(fa[i] =~= joined(fa).subrange(h, joined(fa).len() - t));
        assert(fb[i] =~= joined(fb).subrange(h, joined(fb).len() - t));
    }
}

spec fn before_field(f: Seq<Seq<char>>, i: int) -> Seq<char>
    decreases i,
{
    if i <= 0 {
        Seq::empty()
    } else {
        before_field(f, i - 1) + f[i - 1] + "|"@
    }
}

spec fn after_field(f: Seq<Seq<char>>, i: int) -> Seq<char>
    decreases 5 - i,
{
    if i >= 5 {
        Seq::empty()
    } else {
        "|"@ + f[i + 1] + after_field(f, i + 1)
    }
}

proof fn joined_around_a_field(f: Seq<Seq<char>>, i: int)
    requires
        0 <= i < 6,
        f.len() == 6,
    ensures
        joined(f) == before_field(f, i) + f[i] + after_field(f, i),
    decreases i,
{
    if i == 0 {
        reveal_with_fuel(after_field, 6);
        assert(joined(f) =~= before_field(f, 0) + f[0] + after_field(f, 0));
    } else {
        joined_around_a_field(f, i - 1);
        assert(before_field(f, i - 1) + f[i - 1] + ("|"@ + f[i] + after_field(f, i))
            =~= before_field(f, i) + f[i] + after_field(f, i));
    }
}

proof fn around_is_alike(a: Seq<Seq<char>>, b: Seq<Seq<char>>, i: int, lo: int, hi: int)
    requires
        0 <= lo <= i <= hi < 6,
        forall|j: int| 0 <= j < 6 && j != i ==> a[j] == b[j],
    ensures
        before_field(a, lo) == before_field(b, lo),
        after_field(a, hi) == after_field(b, hi),
    decreases lo + (6 - hi),
{
    if lo > 0 {
        around_is_alike(a, b, i, lo - 1, hi);
    } else if hi < 5 {
        around_is_alike(a, b, i, lo, hi + 1);
    }
}

/// A text that was stored with a zero at its end is read back without it. What is no
/// text, or could not be queried, reads as nothing.
pub proof fn stored_texts_are_read_back(
    text: Seq<char>,
    ok: bool,
    kind: u32,
    size: u32,
    buf: Seq<u16>,
)
    requires
        ({
            let stored = crate::wide::utf16(text).push(0);
            &&& stored.len() <= buf.len()
            &&& buf.take(stored.len() as int) == stored
            &&& size == 2 * stored.len()
        }),
    ensures
        registry_text_of(ok, kind, size, buf) == if ok && kind == 1 {
            text
        } else {
            Seq::empty()
        },
{
    let units = crate::wide::utf16(text);
    assert(buf.take(units.len() as int) =~= buf.take(units.len() as int + 1).drop_last());
    assert(units.push(0).drop_last() =~= units);
    crate::wide::utf16_round_trips(text);
}

/// The fields can be told by their place in the fingerprint: the product is the second,
/// the board the fourth, the BIOS the fifth.
pub proof fn fields_have_their_places(hw: HwInfo)
    requires
        no_bar(fields_of(hw)),
    ensures
        ({
            let pieces = crate::text::split(fingerprint_of(hw), '|');
            &&& pieces.len() == 6
            &&& pieces[0] == hw.manufacturer@
            &&& pieces[1] == hw.product@
            &&& pieces[2] == hw.family@
            &&& pieces[3] == hw.board@
            &&& pieces[4] == hw.bios_version@
            &&& pieces[5] == hw.board_version@
        }),
{
    fingerprint_splits_into_its_fields(fields_of(hw));
}

/// A manufacturer is HP exactly where its name is "hp", or begins with "hewlett",
/// whatever follows.
pub proof fn hp_has_two_names(lower: Seq<char>)
    ensures
        names_hp(lower) <==> lower == seq!['h', 'p'] || (lower.len() >= 7 && lower.take(7) == seq![
            'h',
            'e',
            'w',
            'l',
            'e',
            't',
            't',
        ]),
{
    reveal_strlit("hp");
    reveal_strlit("hewlett");
    assert("hp"@ =~= seq!['h', 'p']);
    assert("hewlett"@ =~= seq!['h', 'e', 'w', 'l', 'e', 't', 't']);
}

} // verus!
