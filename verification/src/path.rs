//! Windows file paths: their components, and which paths lie in one place.

use vstd::prelude::*;

use crate::text::{eq_ignore_ascii_case, same_chars, split_on, to_ascii_upper};

verus! {

/// Whether Windows takes the path as it stands: it begins with `\\?\`.
pub open spec fn is_literal(p: Seq<char>) -> bool {
    p.len() >= 4 && p[0] == '\\' && p[1] == '\\' && p[2] == '?' && p[3] == '\\'
}

/// Both slashes separate, but in a path that is taken as it stands.
pub open spec fn is_separator(c: char, literal: bool) -> bool {
    c == '\\' || (c == '/' && !literal)
}

/// The first separator from `from` on; the end where there is none.
pub open spec fn next_separator(p: Seq<char>, from: int, literal: bool) -> int
    decreases p.len() - from,
{
    if from >= p.len() {
        p.len() as int
    } else if is_separator(p[from], literal) {
        from
    } else {
        next_separator(p, from + 1, literal)
    }
}

/// A letter that can name a drive.
pub open spec fn is_drive_letter(c: char) -> bool {
    'a' <= c && c <= 'z' || 'A' <= c && c <= 'Z'
}

/// What a path begins with.
#[derive(Clone, Copy, PartialEq, Eq, Structural, Debug)]
pub enum Lead {
    /// Nothing but the path itself.
    Plain,
    /// A drive: `C:`.
    Drive,
    /// A server and a share: `\\server\share`.
    Share,
    /// A device: `\\.\name`.
    Device,
    /// A name, taken as it stands: `\\?\name`.
    Literal,
    /// A drive, taken as it stands: `\\?\C:`.
    LiteralDrive,
    /// A server and a share, taken as they stand: `\\?\UNC\server\share`.
    LiteralShare,
}

/// What a path begins with, what is named there, and where that ends. A drive is named
/// by its letter in upper case.
pub struct Head {
    pub lead: Lead,
    pub first: Seq<char>,
    pub second: Seq<char>,
    pub end: int,
}

/// The head of a path that is taken as it stands.
pub open spec fn literal_head(p: Seq<char>) -> Head {
    let none = Seq::<char>::empty();
    if p.len() >= 8 && p[4] == 'U' && p[5] == 'N' && p[6] == 'C' && is_separator(p[7], false) {
        let e1 = next_separator(p, 8, true);
        let server = p.subrange(8, e1);
        if e1 + 1 < p.len() && p[e1 + 1] != '\\' {
            let e2 = next_separator(p, e1 + 1, true);
            Head { lead: Lead::LiteralShare, first: server, second: p.subrange(e1 + 1, e2), end: e2 }
        } else {
            Head { lead: Lead::LiteralShare, first: server, second: none, end: e1 }
        }
    } else if p.len() >= 6 && is_drive_letter(p[4]) && p[5] == ':' && (p.len() == 6 || is_separator(
        p[6],
        false,
    )) {
        Head {
            lead: Lead::LiteralDrive,
            first: seq![crate::text::ascii_upper(p[4])],
            second: none,
            end: 6,
        }
    } else {
        let e = next_separator(p, 4, true);
        Head { lead: Lead::Literal, first: p.subrange(4, e), second: none, end: e }
    }
}

/// The head of a path that begins with two separators and is not taken as it stands.
pub open spec fn network_head(p: Seq<char>) -> Head {
    let none = Seq::<char>::empty();
    let e1 = next_separator(p, 2, false);
    let e2 = next_separator(p, e1 + 1, false);
    if p.len() >= 4 && p[2] == '.' && is_separator(p[3], false) {
        let e = next_separator(p, 4, false);
        Head { lead: Lead::Device, first: p.subrange(4, e), second: none, end: e }
    } else if 2 < e1 && e1 + 1 < e2 {
        Head {
            lead: Lead::Share,
            first: p.subrange(2, e1),
            second: p.subrange(e1 + 1, e2),
            end: e2,
        }
    } else {
        Head { lead: Lead::Plain, first: none, second: none, end: 0 }
    }
}

/// What a path begins with.
pub open spec fn head_of(p: Seq<char>) -> Head {
    let none = Seq::<char>::empty();
    if is_literal(p) {
        literal_head(p)
    } else if p.len() >= 2 && is_separator(p[0], false) && is_separator(p[1], false) {
        network_head(p)
    } else if p.len() >= 2 && p[1] == ':' && is_drive_letter(p[0]) {
        Head {
            lead: Lead::Drive,
            first: seq![crate::text::ascii_upper(p[0])],
            second: none,
            end: 2,
        }
    } else {
        Head { lead: Lead::Plain, first: none, second: none, end: 0 }
    }
}

/// A separator stands behind what the path begins with.
pub open spec fn has_separator(p: Seq<char>) -> bool {
    let end = head_of(p).end;
    end < p.len() && is_separator(p[end], false)
}

/// The path begins at a root. That of a share or a device does so without a word.
pub open spec fn is_rooted(p: Seq<char>) -> bool {
    has_separator(p) || head_of(p).lead is Share || head_of(p).lead is Device
}

/// Where the names of a path begin.
pub open spec fn names_start(p: Seq<char>) -> int {
    if has_separator(p) {
        head_of(p).end + 1
    } else {
        head_of(p).end
    }
}

/// `p` with one kind of separator.
pub open spec fn one_kind(p: Seq<char>, literal: bool) -> Seq<char> {
    Seq::new(
        p.len(),
        |i: int|
            if is_separator(p[i], literal) {
                '\\'
            } else {
                p[i]
            },
    )
}

/// What stands between the separators, from where the names begin.
pub open spec fn pieces_of(p: Seq<char>) -> Seq<Seq<char>> {
    crate::text::split(one_kind(p.skip(names_start(p)), is_literal(p)), '\\')
}

/// Whether a piece says nothing: it is empty, or a dot that does not count.
pub open spec fn is_void(piece: Seq<char>, dots: bool) -> bool {
    piece.len() == 0 || (piece == seq!['.'] && !dots)
}

/// A component of a path.
pub enum Component {
    Prefix { lead: Lead, first: Seq<char>, second: Seq<char> },
    Root,
    Name(Seq<char>),
}

/// A dot at the beginning counts: nothing stands before the names.
pub open spec fn is_bare(p: Seq<char>) -> bool {
    head_of(p).lead is Plain && !is_rooted(p)
}

/// The names among the first `n` pieces. A dot counts only in a path that is taken as
/// it stands, or where the path begins with it.
pub open spec fn names_among(
    pieces: Seq<Seq<char>>,
    literal: bool,
    bare: bool,
    n: int,
) -> Seq<Component>
    decreases n,
{
    if n <= 0 {
        Seq::empty()
    } else if is_void(pieces[n - 1], literal || (n == 1 && bare)) {
        names_among(pieces, literal, bare, n - 1)
    } else {
        names_among(pieces, literal, bare, n - 1).push(Component::Name(pieces[n - 1]))
    }
}

/// What comes before the names.
pub open spec fn lead_components(p: Seq<char>) -> Seq<Component> {
    let h = head_of(p);
    (if h.lead is Plain {
        Seq::empty()
    } else {
        seq![Component::Prefix { lead: h.lead, first: h.first, second: h.second }]
    }) + (if is_rooted(p) {
        seq![Component::Root]
    } else {
        Seq::empty()
    })
}

/// The components of a path. How many separators stand between them makes no
/// difference, nor does the case of a drive; in a path that is not taken as it stands,
/// neither does the kind of separator, nor a dot.
pub open spec fn components(p: Seq<char>) -> Seq<Component> {
    lead_components(p) + names_among(
        pieces_of(p),
        is_literal(p),
        is_bare(p),
        pieces_of(p).len() as int,
    )
}

/// The two paths have the same components.
pub open spec fn is_same_path(a: Seq<char>, b: Seq<char>) -> bool {
    components(a) == components(b)
}

/// The path names something: its last component is a name.
pub open spec fn has_name(p: Seq<char>) -> bool {
    components(p).len() > 0 && components(p).last() is Name
}

/// The two paths name something in the same directory.
pub open spec fn same_directory(a: Seq<char>, b: Seq<char>) -> bool {
    &&& has_name(a)
    &&& has_name(b)
    &&& components(a).drop_last() == components(b).drop_last()
}

/// `path` is `dir` or lies somewhere below it.
pub open spec fn is_within(path: Seq<char>, dir: Seq<char>) -> bool {
    &&& components(dir).len() <= components(path).len()
    &&& components(path).take(components(dir).len() as int) == components(dir)
}

/// `other` lies in the directory of `own` and is called `name`, whatever the case.
pub open spec fn is_sibling(other: Seq<char>, own: Seq<char>, name: Seq<char>) -> bool {
    &&& same_directory(other, own)
    &&& crate::text::same_ignoring_ascii_case(components(other).last()->Name_0, name)
}

/// A component.
enum Part {
    Prefix { lead: Lead, first: Vec<char>, second: Vec<char> },
    Root,
    Name(Vec<char>),
}

impl Part {
    spec fn component(self) -> Component {
        match self {
            Part::Prefix { lead, first, second } => Component::Prefix {
                lead,
                first: first@,
                second: second@,
            },
            Part::Root => Component::Root,
            Part::Name(name) => Component::Name(name@),
        }
    }
}

spec fn as_components(parts: Seq<Part>) -> Seq<Component> {
    Seq::new(parts.len(), |i: int| parts[i].component())
}

struct Beginning {
    lead: Lead,
    first: Vec<char>,
    second: Vec<char>,
    end: usize,
}

impl Beginning {
    spec fn is(self, h: Head) -> bool {
        &&& self.lead == h.lead
        &&& self.first@ == h.first
        &&& self.second@ == h.second
        &&& self.end == h.end
    }
}

fn separator(c: char, literal: bool) -> (r: bool)
    ensures
        r == is_separator(c, literal),
{
    c == '\\' || (c == '/' && !literal)
}

fn drive_letter(c: char) -> (r: bool)
    ensures
        r == is_drive_letter(c),
{
    'a' <= c && c <= 'z' || 'A' <= c && c <= 'Z'
}

proof fn next_is_in_range(p: Seq<char>, from: int, literal: bool)
    requires
        0 <= from,
    ensures
        from <= p.len() ==> from <= next_separator(p, from, literal) <= p.len(),
        from > p.len() ==> next_separator(p, from, literal) == p.len(),
        next_separator(p, from, literal) < p.len() ==> is_separator(
            p[next_separator(p, from, literal)],
            literal,
        ),
        forall|k: int|
            from <= k < next_separator(p, from, literal) ==> !is_separator(
                #[trigger] p[k],
                literal,
            ),
    decreases p.len() - from,
{
    if from < p.len() && !is_separator(p[from], literal) {
        next_is_in_range(p, from + 1, literal);
    }
}

fn find_separator(p: &[char], from: usize, literal: bool) -> (n: usize)
    requires
        from <= p@.len(),
    ensures
        n == next_separator(p@, from as int, literal),
        from <= n <= p@.len(),
{
    let mut n: usize = from;
    while n < p.len() && !separator(p[n], literal)
        invariant
            from <= n <= p@.len(),
            next_separator(p@, n as int, literal) == next_separator(p@, from as int, literal),
        decreases p@.len() - n,
    {
        n = n + 1;
    }
    n
}

fn copied(p: &[char], from: usize, to: usize) -> (out: Vec<char>)
    requires
        from <= to <= p@.len(),
    ensures
        out@ == p@.subrange(from as int, to as int),
{
    let mut out: Vec<char> = Vec::new();
    let mut i: usize = from;
    while i < to
        invariant
            from <= i <= to <= p@.len(),
            out@ == p@.subrange(from as int, i as int),
        decreases to - i,
    {
        out.push(p[i]);
        i = i + 1;
        assert(out@ =~= p@.subrange(from as int, i as int));
    }
    out
}

fn letter(c: char) -> (out: Vec<char>)
    ensures
        out@ == seq![crate::text::ascii_upper(c)],
{
    let mut out: Vec<char> = Vec::new();
    out.push(to_ascii_upper(c));
    assert(out@ =~= seq![crate::text::ascii_upper(c)]);
    out
}

fn begin_literal(p: &[char]) -> (b: Beginning)
    requires
        p@.len() >= 4,
    ensures
        b.is(literal_head(p@)),
        b.end <= p@.len(),
{
    if p.len() >= 8 && p[4] == 'U' && p[5] == 'N' && p[6] == 'C' && separator(p[7], false) {
        let e1: usize = find_separator(p, 8, true);
        let first = copied(p, 8, e1);
        if p.len() - e1 > 1 && p[e1 + 1] != '\\' {
            let e2: usize = find_separator(p, e1 + 1, true);
            let second = copied(p, e1 + 1, e2);
            return Beginning { lead: Lead::LiteralShare, first, second, end: e2 };
        }
        return Beginning { lead: Lead::LiteralShare, first, second: Vec::new(), end: e1 };
    }
    if p.len() >= 6 && drive_letter(p[4]) && p[5] == ':' && (p.len() == 6 || separator(
        p[6],
        false,
    )) {
        let first = letter(p[4]);
        return Beginning { lead: Lead::LiteralDrive, first, second: Vec::new(), end: 6 };
    }
    let e: usize = find_separator(p, 4, true);
    let first = copied(p, 4, e);
    Beginning { lead: Lead::Literal, first, second: Vec::new(), end: e }
}

fn begin_network(p: &[char]) -> (b: Beginning)
    requires
        p@.len() >= 2,
    ensures
        b.is(network_head(p@)),
        b.end <= p@.len(),
{
    if p.len() >= 4 && p[2] == '.' && separator(p[3], false) {
        let e: usize = find_separator(p, 4, false);
        let first = copied(p, 4, e);
        return Beginning { lead: Lead::Device, first, second: Vec::new(), end: e };
    }
    let e1: usize = find_separator(p, 2, false);
    if 2 < e1 && e1 < p.len() {
        let e2: usize = find_separator(p, e1 + 1, false);
        if e2 - e1 > 1 {
            let first = copied(p, 2, e1);
            let second = copied(p, e1 + 1, e2);
            return Beginning { lead: Lead::Share, first, second, end: e2 };
        }
    }
    proof {
        next_is_in_range(p@, e1 + 1, false);
    }
    Beginning { lead: Lead::Plain, first: Vec::new(), second: Vec::new(), end: 0 }
}

fn literal_path(p: &[char]) -> (r: bool)
    ensures
        r == is_literal(p@),
{
    p.len() >= 4 && p[0] == '\\' && p[1] == '\\' && p[2] == '?' && p[3] == '\\'
}

fn begin(p: &[char]) -> (b: Beginning)
    ensures
        b.is(head_of(p@)),
        b.end <= p@.len(),
{
    if literal_path(p) {
        return begin_literal(p);
    }
    if p.len() >= 2 && separator(p[0], false) && separator(p[1], false) {
        return begin_network(p);
    }
    if p.len() >= 2 && p[1] == ':' && drive_letter(p[0]) {
        let first = letter(p[0]);
        return Beginning { lead: Lead::Drive, first, second: Vec::new(), end: 2 };
    }
    Beginning { lead: Lead::Plain, first: Vec::new(), second: Vec::new(), end: 0 }
}

fn void(piece: &[char], dots: bool) -> (r: bool)
    ensures
        r == is_void(piece@, dots),
{
    if piece.len() == 1 && piece[0] == '.' {
        assert(piece@ =~= seq!['.']);
        return !dots;
    }
    piece.len() == 0
}

fn split_names(p: &[char], start: usize, literal: bool) -> (out: Vec<Vec<char>>)
    requires
        start <= p@.len(),
    ensures
        out@.len() == crate::text::split(one_kind(p@.skip(start as int), literal), '\\').len(),
        forall|i: int|
            0 <= i < out@.len() ==> (#[trigger] out@[i])@ == crate::text::split(
                one_kind(p@.skip(start as int), literal),
                '\\',
            )[i],
{
    let ghost rest = p@.skip(start as int);
    let mut kind: Vec<char> = Vec::new();
    let mut i: usize = start;
    while i < p.len()
        invariant
            start <= i <= p@.len(),
            rest == p@.skip(start as int),
            kind@ == one_kind(rest, literal).take(i - start),
        decreases p@.len() - i,
    {
        let c: char = if separator(p[i], literal) {
            '\\'
        } else {
            p[i]
        };
        kind.push(c);
        i = i + 1;
        assert(kind@ =~= one_kind(rest, literal).take(i - start));
    }
    assert(one_kind(rest, literal).take(i - start) =~= one_kind(rest, literal));
    split_on(kind.as_slice(), '\\')
}

/// Takes a path apart.
fn parts_of(p: &[char]) -> (parts: Vec<Part>)
    ensures
        as_components(parts@) == components(p@),
{
    let literal: bool = literal_path(p);
    let b = begin(p);
    let behind: bool = b.end < p.len() && separator(p[b.end], false);
    let rooted: bool = behind || matches!(b.lead, Lead::Share) || matches!(b.lead, Lead::Device);
    let start: usize = if behind {
        b.end + 1
    } else {
        b.end
    };
    let pieces = split_names(p, start, literal);
    let ghost q = pieces_of(p@);
    let plain: bool = matches!(b.lead, Lead::Plain);
    let bare: bool = plain && !rooted;
    let mut parts: Vec<Part> = Vec::new();
    if !plain {
        parts.push(Part::Prefix { lead: b.lead, first: b.first, second: b.second });
    }
    if rooted {
        parts.push(Part::Root);
    }
    let ghost front = lead_components(p@);
    assert(as_components(parts@) =~= front);
    let mut n: usize = 0;
    assert(front =~= front + names_among(q, literal, bare, 0));
    while n < pieces.len()
        invariant
            n <= pieces@.len() == q.len(),
            forall|k: int| 0 <= k < q.len() ==> (#[trigger] pieces@[k])@ == q[k],
            as_components(parts@) == front + names_among(q, literal, bare, n as int),
        decreases pieces@.len() - n,
    {
        assert(pieces@[n as int]@ == q[n as int]);
        if !void(pieces[n].as_slice(), literal || (n == 0 && bare)) {
            let ghost before = parts@;
            let name = copied(pieces[n].as_slice(), 0, pieces[n].len());
            assert(name@ =~= q[n as int]);
            parts.push(Part::Name(name));
            assert(as_components(parts@) =~= as_components(before).push(
                Component::Name(q[n as int]),
            ));
            assert(as_components(parts@) =~= front + names_among(q, literal, bare, n + 1));
        }
        n = n + 1;
    }
    parts
}

fn same_part(a: &Part, b: &Part) -> (r: bool)
    ensures
        r == (a.component() == b.component()),
{
    match (a, b) {
        (
            Part::Prefix { lead: l1, first: f1, second: s1 },
            Part::Prefix { lead: l2, first: f2, second: s2 },
        ) => *l1 == *l2 && same_chars(f1.as_slice(), f2.as_slice()) && same_chars(
            s1.as_slice(),
            s2.as_slice(),
        ),
        (Part::Root, Part::Root) => true,
        (Part::Name(n1), Part::Name(n2)) => same_chars(n1.as_slice(), n2.as_slice()),
        _ => false,
    }
}

/// Whether the first `n` parts are the same.
fn same_parts(a: &Vec<Part>, b: &Vec<Part>, n: usize) -> (r: bool)
    requires
        n <= a@.len(),
        n <= b@.len(),
    ensures
        r == (as_components(a@).take(n as int) == as_components(b@).take(n as int)),
{
    let mut i: usize = 0;
    while i < n
        invariant
            i <= n <= a@.len(),
            n <= b@.len(),
            forall|k: int| 0 <= k < i ==> (#[trigger] a@[k]).component() == b@[k].component(),
        decreases n - i,
    {
        if !same_part(&a[i], &b[i]) {
            assert(as_components(a@).take(n as int)[i as int] != as_components(b@).take(
                n as int,
            )[i as int]);
            return false;
        }
        i = i + 1;
    }
    assert(as_components(a@).take(n as int) =~= as_components(b@).take(n as int));
    true
}

/// Whether two paths have the same components.
pub fn same_components(a: &[char], b: &[char]) -> (r: bool)
    ensures
        r == is_same_path(a@, b@),
{
    let pa = parts_of(a);
    let pb = parts_of(b);
    assert(as_components(pa@).len() == pa@.len() && as_components(pb@).len() == pb@.len());
    if pa.len() != pb.len() {
        return false;
    }
    assert(as_components(pa@).take(pa@.len() as int) =~= as_components(pa@));
    assert(as_components(pb@).take(pb@.len() as int) =~= as_components(pb@));
    same_parts(&pa, &pb, pa.len())
}

/// Whether `path` is `dir` or lies somewhere below it.
pub fn within(path: &[char], dir: &[char]) -> (r: bool)
    ensures
        r == is_within(path@, dir@),
{
    let inner = parts_of(path);
    let outer = parts_of(dir);
    assert(as_components(inner@).len() == inner@.len() && as_components(outer@).len()
        == outer@.len());
    if inner.len() < outer.len() {
        return false;
    }
    assert(as_components(outer@).take(outer@.len() as int) =~= as_components(outer@));
    same_parts(&inner, &outer, outer.len())
}

/// Whether `other` lies in the directory of `own` and is called `name`.
pub fn sibling_named(other: &[char], own: &[char], name: &[char]) -> (r: bool)
    ensures
        r == is_sibling(other@, own@, name@),
{
    let a = parts_of(other);
    let b = parts_of(own);
    assert(as_components(a@).len() == a@.len() && as_components(b@).len() == b@.len());
    if a.len() == 0 || b.len() == 0 {
        return false;
    }
    let last: usize = a.len() - 1;
    assert(as_components(a@).last() == a@[last as int].component());
    assert(as_components(b@).last() == b@[b@.len() - 1].component());
    let named: bool = matches!(b[b.len() - 1], Part::Name(_));
    match &a[last] {
        Part::Name(n) => {
            assert(as_components(a@).drop_last() =~= as_components(a@).take(last as int));
            if a.len() != b.len() {
                assert(components(other@).drop_last().len() != components(own@).drop_last().len());
                return false;
            }
            assert(as_components(b@).drop_last() =~= as_components(b@).take(last as int));
            named && same_parts(&a, &b, last) && eq_ignore_ascii_case(n.as_slice(), name)
        },
        _ => false,
    }
}

/// Where the names of a path may be cut off at the earliest: behind its root, or behind
/// a dot that begins the names of a path without one.
pub open spec fn body_start(p: Seq<char>) -> int {
    let start = names_start(p);
    if !is_literal(p) && !is_rooted(p) && start < p.len() && p[start] == '.' && (start + 1
        == p.len() || is_separator(p[start + 1], false)) {
        start + 1
    } else {
        start
    }
}

/// `p` without the separators, and the dots that do not count, at its end; nothing
/// before `floor` goes.
pub open spec fn without_voids(p: Seq<char>, floor: int, literal: bool) -> Seq<char>
    decreases p.len(),
{
    if p.len() <= floor || p.len() == 0 {
        p
    } else if is_separator(p.last(), literal) {
        without_voids(p.drop_last(), floor, literal)
    } else if !literal && p.last() == '.' && (p.len() - 1 == floor || is_separator(
        p[p.len() - 2],
        literal,
    )) {
        without_voids(p.drop_last(), floor, literal)
    } else {
        p
    }
}

/// `p` without the name at its end; nothing before `floor` goes.
pub open spec fn without_name(p: Seq<char>, floor: int, literal: bool) -> Seq<char>
    decreases p.len(),
{
    if p.len() <= floor || p.len() == 0 || is_separator(p.last(), literal) {
        p
    } else {
        without_name(p.drop_last(), floor, literal)
    }
}

/// The directory that holds what a path names, as it is written there; empty where the
/// path names nothing.
pub open spec fn dir_of(p: Seq<char>) -> Seq<char> {
    let literal = is_literal(p);
    let floor = body_start(p);
    let named = without_voids(p, floor, literal);
    if named.len() <= floor {
        Seq::empty()
    } else {
        without_voids(without_name(named, floor, literal), floor, literal)
    }
}

fn voids_end(p: &[char], from: usize, floor: usize, literal: bool) -> (n: usize)
    requires
        from <= p@.len(),
    ensures
        n <= from,
        p@.take(n as int) == without_voids(p@.take(from as int), floor as int, literal),
{
    let mut n: usize = from;
    while n > floor && n > 0 && (separator(p[n - 1], literal) || (!literal && p[n - 1] == '.' && (n
        - 1 == floor || (n > 1 && separator(p[n - 2], literal)))))
        invariant
            n <= from <= p@.len(),
            without_voids(p@.take(n as int), floor as int, literal) == without_voids(
                p@.take(from as int),
                floor as int,
                literal,
            ),
        decreases n,
    {
        assert(p@.take(n as int).drop_last() =~= p@.take(n - 1));
        n = n - 1;
    }
    n
}

fn name_end(p: &[char], from: usize, floor: usize, literal: bool) -> (n: usize)
    requires
        from <= p@.len(),
    ensures
        n <= from,
        p@.take(n as int) == without_name(p@.take(from as int), floor as int, literal),
{
    let mut n: usize = from;
    while n > floor && n > 0 && !separator(p[n - 1], literal)
        invariant
            n <= from <= p@.len(),
            without_name(p@.take(n as int), floor as int, literal) == without_name(
                p@.take(from as int),
                floor as int,
                literal,
            ),
        decreases n,
    {
        assert(p@.take(n as int).drop_last() =~= p@.take(n - 1));
        n = n - 1;
    }
    n
}

/// The directory that holds what `path` names.
pub fn parent(path: &[char]) -> (out: Vec<char>)
    ensures
        out@ == dir_of(path@),
{
    let literal: bool = literal_path(path);
    let b = begin(path);
    let behind: bool = b.end < path.len() && separator(path[b.end], false);
    let rooted: bool = behind || matches!(b.lead, Lead::Share) || matches!(b.lead, Lead::Device);
    let start: usize = if behind {
        b.end + 1
    } else {
        b.end
    };
    let dot: bool = !literal && !rooted && start < path.len() && path[start] == '.' && (path.len()
        - start == 1 || separator(path[start + 1], false));
    let floor: usize = if dot {
        start + 1
    } else {
        start
    };
    assert(path@.take(path@.len() as int) =~= path@);
    let named: usize = voids_end(path, path.len(), floor, literal);
    assert(path@.take(named as int).len() == named);
    if named <= floor {
        return Vec::new();
    }
    let head: usize = name_end(path, named, floor, literal);
    let dir: usize = voids_end(path, head, floor, literal);
    let out = copied(path, 0, dir);
    assert(out@ =~= path@.take(dir as int));
    out
}

proof fn next_is_alike(p: Seq<char>, from: int)
    requires
        0 <= from,
    ensures
        next_separator(one_kind(p, false), from, false) == next_separator(p, from, false),
    decreases p.len() - from,
{
    if from < p.len() {
        next_is_alike(p, from + 1);
    }
}

proof fn between_separators(p: Seq<char>, from: int)
    requires
        0 <= from <= p.len(),
    ensures
        one_kind(p, false).subrange(from, next_separator(p, from, false)) == p.subrange(
            from,
            next_separator(p, from, false),
        ),
{
    let to = next_separator(p, from, false);
    next_is_in_range(p, from, false);
    assert(one_kind(p, false).subrange(from, to) =~= p.subrange(from, to)) by {
        assert forall|k: int| 0 <= k < to - from implies one_kind(p, false).subrange(from, to)[k]
            == p.subrange(from, to)[k] by {
            assert(!is_separator(p[from + k], false));
        }
    }
}

/// Which of the two separators a path is written with makes no difference, unless it is
/// taken as it stands.
pub proof fn separators_are_alike(p: Seq<char>)
    requires
        !is_literal(p),
        !is_literal(one_kind(p, false)),
    ensures
        components(one_kind(p, false)) == components(p),
{
    let q = one_kind(p, false);
    next_is_alike(p, 2);
    next_is_in_range(p, 2, false);
    let e1 = next_separator(p, 2, false);
    next_is_alike(p, e1 + 1);
    next_is_in_range(p, e1 + 1, false);
    next_is_alike(p, 4);
    next_is_in_range(p, 4, false);
    if p.len() >= 4 {
        between_separators(p, 4);
    }
    if p.len() >= 2 {
        between_separators(p, 2);
        if e1 + 1 <= p.len() {
            between_separators(p, e1 + 1);
        }
        assert(is_separator(q[0], false) == is_separator(p[0], false));
        assert(is_separator(q[1], false) == is_separator(p[1], false));
        assert((q[1] == ':') == (p[1] == ':'));
        assert(is_drive_letter(q[0]) == is_drive_letter(p[0]));
        assert(is_drive_letter(p[0]) ==> q[0] == p[0]);
    }
    if p.len() >= 4 {
        assert((q[2] == '.') == (p[2] == '.'));
        assert(is_separator(q[3], false) == is_separator(p[3], false));
    }
    assert(head_of(q) == head_of(p));
    let end = head_of(p).end;
    assert(0 <= end <= p.len());
    if end < p.len() {
        assert(is_separator(q[end], false) == is_separator(p[end], false));
    }
    assert(one_kind(q.skip(names_start(q)), false) =~= one_kind(p.skip(names_start(p)), false));
}

/// The case of a drive makes no difference, whether or not the path is taken as it
/// stands.
pub proof fn drives_are_alike(p: Seq<char>, letter: char)
    requires
        head_of(p).lead is Drive || head_of(p).lead is LiteralDrive,
        is_drive_letter(letter),
        crate::text::ascii_upper(letter) == head_of(p).first[0],
    ensures
        components(p.update(
            if head_of(p).lead is Drive {
                0
            } else {
                4
            },
            letter,
        )) == components(p),
{
    let at: int = if head_of(p).lead is Drive {
        0
    } else {
        4
    };
    let q = p.update(at, letter);
    assert(is_literal(q) == is_literal(p));
    assert(head_of(q).first =~= head_of(p).first);
    assert(head_of(q) == head_of(p));
    assert(q.skip(names_start(q)) =~= p.skip(names_start(p)));
}

/// A directory lies within itself, and what lies within a directory that lies within
/// another lies within that one too.
pub proof fn directories_nest(a: Seq<char>, b: Seq<char>, c: Seq<char>)
    requires
        is_within(a, b),
        is_within(b, c),
    ensures
        is_within(a, a),
        is_within(a, c),
{
    assert(components(a).take(components(a).len() as int) =~= components(a));
    assert(components(a).take(components(c).len() as int) =~= components(a).take(
        components(b).len() as int,
    ).take(components(c).len() as int));
}

/// A name that is no dot, and holds no separator.
pub open spec fn is_plain_name(name: Seq<char>) -> bool {
    &&& name.len() > 0
    &&& name != seq!['.']
    &&& !name.contains('\\')
    &&& !name.contains('/')
}

/// A path that begins at the root of a drive.
pub open spec fn is_on_drive(p: Seq<char>) -> bool {
    p.len() >= 3 && is_drive_letter(p[0]) && p[1] == ':' && is_separator(p[2], false)
}

proof fn names_go_on(a: Seq<Seq<char>>, b: Seq<Seq<char>>, literal: bool, bare: bool, n: int)
    requires
        forall|i: int| 0 <= i < n ==> a[i] == b[i],
    ensures
        names_among(a, literal, bare, n) == names_among(b, literal, bare, n),
    decreases n,
{
    if n > 0 {
        names_go_on(a, b, literal, bare, n - 1);
    }
}

/// A name behind a directory on a drive is one component more: it lies within the
/// directory and not the other way round.
pub proof fn names_stand_below_their_directory(dir: Seq<char>, name: Seq<char>)
    requires
        is_on_drive(dir),
        is_plain_name(name),
    ensures
        components(dir + seq!['\\'] + name) == components(dir).push(Component::Name(name)),
        is_within(dir + seq!['\\'] + name, dir),
        !is_within(dir, dir + seq!['\\'] + name),
{
    let p = dir + seq!['\\'] + name;
    let rest = one_kind(dir.skip(3), false);
    assert forall|i: int| 0 <= i < name.len() implies !is_separator(#[trigger] name[i], false) by {
        assert(name.contains(name[i]));
    }
    assert(names_start(p) == 3);
    assert(names_start(dir) == 3);
    assert(one_kind(p.skip(3), false) =~= rest.push('\\') + name);
    crate::text::separators_part_the_pieces(rest, name, '\\');
    let pieces = pieces_of(dir);
    assert(pieces_of(p) == pieces.push(name));
    let n = pieces.len() as int;
    names_go_on(pieces.push(name), pieces, false, false, n);
    assert(lead_components(p) == lead_components(dir)) by {
        assert(p[0] == dir[0]);
    }
    assert(!is_void(name, false));
    assert(names_among(pieces_of(p), false, false, n + 1) =~= names_among(pieces, false, false, n)
        .push(Component::Name(name)));
    assert(components(p) =~= components(dir).push(Component::Name(name)));
    assert(components(p).take(components(dir).len() as int) =~= components(dir));
}

/// What stands in one directory of a drive are siblings, told apart by their names, but
/// for the case of letters.
pub proof fn siblings_are_told_by_their_names(
    dir: Seq<char>,
    other: Seq<char>,
    own: Seq<char>,
    name: Seq<char>,
)
    requires
        is_on_drive(dir),
        is_plain_name(other),
        is_plain_name(own),
    ensures
        is_sibling(dir + seq!['\\'] + other, dir + seq!['\\'] + own, name)
            <==> crate::text::same_ignoring_ascii_case(other, name),
        is_same_path(dir + seq!['\\'] + other, dir + seq!['\\'] + own) <==> other == own,
{
    names_stand_below_their_directory(dir, other);
    names_stand_below_their_directory(dir, own);
    let a = components(dir).push(Component::Name(other));
    let b = components(dir).push(Component::Name(own));
    assert(a.drop_last() =~= components(dir));
    assert(b.drop_last() =~= components(dir));
    assert(a.last() == Component::Name(other));
    if a == b {
        assert(a.last() == b.last());
    }
}

proof fn names_are_cut_off(dir: Seq<char>, name: Seq<char>, floor: int)
    requires
        floor <= dir.len(),
        dir.len() > 0,
        is_separator(dir.last(), false),
        forall|i: int| 0 <= i < name.len() ==> !is_separator(#[trigger] name[i], false),
    ensures
        without_name(dir + name, floor, false) == dir,
    decreases name.len(),
{
    if name.len() == 0 {
        assert(dir + name =~= dir);
    } else {
        assert((dir + name).last() == name[name.len() - 1]);
        assert((dir + name).drop_last() =~= dir + name.drop_last());
        names_are_cut_off(dir, name.drop_last(), floor);
    }
}

/// The directory of a name on a drive is what stands before it, without the separator
/// between them. Directories that end in a separator, or in a dot of their own, are left
/// out: those ends are cut off too.
pub proof fn directories_stand_before_their_names(dir: Seq<char>, name: Seq<char>)
    requires
        is_on_drive(dir),
        dir.len() > 3,
        !is_separator(dir.last(), false),
        dir.last() == '.' ==> dir.len() > 4 && !is_separator(dir[dir.len() - 2], false),
        is_plain_name(name),
    ensures
        dir_of(dir + seq!['\\'] + name) == dir,
{
    let p = dir + seq!['\\'] + name;
    let open = dir.push('\\');
    assert(p =~= open + name);
    assert forall|i: int| 0 <= i < name.len() implies !is_separator(#[trigger] name[i], false) by {
        assert(name.contains(name[i]));
    }
    assert(body_start(p) == 3);
    assert(p.last() == name[name.len() - 1]);
    if name.len() > 1 {
        assert(p[p.len() - 2] == name[name.len() - 2]);
    } else {
        assert(name =~= seq![name[0]]);
    }
    assert(without_voids(p, 3, false) == p);
    names_are_cut_off(open, name, 3);
    assert(open.drop_last() =~= dir);
    assert(without_voids(dir, 3, false) == dir);
    assert(without_voids(open, 3, false) == dir);
}

/// A path to a share begins with the server and the share, and is rooted there; one to a
/// device, with its name.
pub proof fn shares_and_devices_are_named(server: Seq<char>, share: Seq<char>)
    requires
        is_plain_name(server),
        is_plain_name(share),
        server != seq!['?'],
    ensures
        components(seq!['\\', '\\'] + server + seq!['\\'] + share) == seq![
            Component::Prefix { lead: Lead::Share, first: server, second: share },
            Component::Root,
        ],
        components(seq!['\\', '\\', '.', '\\'] + share) == seq![
            Component::Prefix { lead: Lead::Device, first: share, second: Seq::empty() },
            Component::Root,
        ],
{
    let none = Seq::<char>::empty();
    assert forall|i: int| 0 <= i < server.len() implies !is_separator(
        #[trigger] server[i],
        false,
    ) by {
        assert(server.contains(server[i]));
    }
    assert forall|i: int| 0 <= i < share.len() implies !is_separator(#[trigger] share[i], false) by {
        assert(share.contains(share[i]));
    }
    crate::text::separators_part_the_pieces(none, none, '\\');
    let p = seq!['\\', '\\'] + server + seq!['\\'] + share;
    let n = server.len() as int;
    next_is_in_range(p, 2, false);
    let e1 = next_separator(p, 2, false);
    if e1 < 2 + n {
        assert(p[e1] == server[e1 - 2]);
    }
    assert(p[2 + n] == '\\');
    assert(e1 == 2 + n);
    next_is_in_range(p, e1 + 1, false);
    let e2 = next_separator(p, e1 + 1, false);
    if e2 < p.len() {
        assert(p[e2] == share[e2 - n - 3]);
    }
    assert(e2 == p.len());
    assert(p[2] == server[0]);
    if n == 1 {
        assert(server =~= seq![server[0]]);
    } else {
        assert(p[3] == server[1]);
    }
    assert(p.subrange(2, e1) =~= server);
    assert(p.subrange(e1 + 1, e2) =~= share);
    assert(one_kind(p.skip(p.len() as int), false) =~= none);
    assert(pieces_of(p) =~= seq![none]);
    assert(names_among(pieces_of(p), false, false, 1) =~= Seq::<Component>::empty()) by {
        reveal_with_fuel(names_among, 2);
    }
    assert(components(p) =~= seq![
        Component::Prefix { lead: Lead::Share, first: server, second: share },
        Component::Root,
    ]);
    let d = seq!['\\', '\\', '.', '\\'] + share;
    next_is_in_range(d, 4, false);
    let e = next_separator(d, 4, false);
    if e < d.len() {
        assert(d[e] == share[e - 4]);
    }
    assert(d[2] == '.' && d[3] == '\\');
    assert(d.subrange(4, e) =~= share);
    assert(one_kind(d.skip(d.len() as int), false) =~= none);
    assert(pieces_of(d) =~= seq![none]);
    assert(names_among(pieces_of(d), false, false, 1) =~= Seq::<Component>::empty()) by {
        reveal_with_fuel(names_among, 2);
    }
    assert(components(d) =~= seq![
        Component::Prefix { lead: Lead::Device, first: share, second: none },
        Component::Root,
    ]);
}

/// A path with a drive begins with it, in upper case, and is rooted by the separator; one
/// that begins with a name has nothing but it.
pub proof fn drives_come_before_names(letter: char, name: Seq<char>)
    requires
        is_drive_letter(letter),
        is_plain_name(name),
        name.len() >= 2 ==> name[1] != ':',
    ensures
        components(seq![letter, ':', '\\'] + name) == seq![
            Component::Prefix {
                lead: Lead::Drive,
                first: seq![crate::text::ascii_upper(letter)],
                second: Seq::empty(),
            },
            Component::Root,
            Component::Name(name),
        ],
        components(name) == seq![Component::Name(name)],
        !is_rooted(name),
{
    assert forall|i: int| 0 <= i < name.len() implies !is_separator(#[trigger] name[i], false) by {
        assert(name.contains(name[i]));
    }
    crate::text::separators_part_the_pieces(name, name, '\\');
    let p = seq![letter, ':', '\\'] + name;
    assert(p[0] == letter && p[1] == ':' && p[2] == '\\');
    assert(p.skip(3) =~= name);
    assert(one_kind(name, false) =~= name);
    reveal_with_fuel(names_among, 2);
    assert(pieces_of(p) == seq![name]);
    assert(names_among(seq![name], false, false, 1) =~= seq![Component::Name(name)]);
    assert(components(p) =~= seq![
        Component::Prefix {
            lead: Lead::Drive,
            first: seq![crate::text::ascii_upper(letter)],
            second: Seq::empty(),
        },
        Component::Root,
        Component::Name(name),
    ]);
    assert(name.skip(0) =~= name);
    assert(!is_separator(name[0], false));
    assert(pieces_of(name) == seq![name]);
    assert(names_among(seq![name], false, true, 1) =~= seq![Component::Name(name)]);
    assert(components(name) =~= seq![Component::Name(name)]);
}

/// In a path that is taken as it stands, too, a drive comes first, and a server with its
/// share; anything else is a name of its own.
pub proof fn literal_paths_have_heads(
    letter: char,
    name: Seq<char>,
    server: Seq<char>,
    share: Seq<char>,
)
    requires
        is_drive_letter(letter),
        is_plain_name(name),
        is_plain_name(server),
        is_plain_name(share),
        name.len() >= 2 ==> name[1] != ':',
    ensures
        components(seq!['\\', '\\', '?', '\\', letter, ':', '\\'] + name) == seq![
            Component::Prefix {
                lead: Lead::LiteralDrive,
                first: seq![crate::text::ascii_upper(letter)],
                second: Seq::empty(),
            },
            Component::Root,
            Component::Name(name),
        ],
        components(
            seq!['\\', '\\', '?', '\\', 'U', 'N', 'C', '\\'] + server + seq!['\\'] + share,
        ) == seq![Component::Prefix { lead: Lead::LiteralShare, first: server, second: share }],
        components(seq!['\\', '\\', '?', '\\'] + name) == seq![
            Component::Prefix { lead: Lead::Literal, first: name, second: Seq::empty() },
        ],
{
    let none = Seq::<char>::empty();
    assert forall|i: int| 0 <= i < name.len() implies #[trigger] name[i] != '\\' && name[i]
        != '/' by {
        assert(name.contains(name[i]));
    }
    assert forall|i: int| 0 <= i < server.len() implies #[trigger] server[i] != '\\' by {
        assert(server.contains(server[i]));
    }
    assert forall|i: int| 0 <= i < share.len() implies #[trigger] share[i] != '\\' by {
        assert(share.contains(share[i]));
    }
    crate::text::separators_part_the_pieces(name, name, '\\');
    crate::text::separators_part_the_pieces(none, none, '\\');
    reveal_with_fuel(names_among, 2);
    let d = seq!['\\', '\\', '?', '\\', letter, ':', '\\'] + name;
    assert(d[0] == '\\' && d[1] == '\\' && d[2] == '?' && d[3] == '\\');
    assert(d[4] == letter && d[5] == ':' && d[6] == '\\');
    assert(d.skip(7) =~= name);
    assert(one_kind(name, true) =~= name);
    assert(pieces_of(d) == seq![name]);
    assert(names_among(seq![name], true, false, 1) =~= seq![Component::Name(name)]);
    assert(components(d) =~= seq![
        Component::Prefix {
            lead: Lead::LiteralDrive,
            first: seq![crate::text::ascii_upper(letter)],
            second: none,
        },
        Component::Root,
        Component::Name(name),
    ]);
    let u = seq!['\\', '\\', '?', '\\', 'U', 'N', 'C', '\\'] + server + seq!['\\'] + share;
    let n = server.len() as int;
    assert(u[0] == '\\' && u[1] == '\\' && u[2] == '?' && u[3] == '\\');
    assert(u[4] == 'U' && u[5] == 'N' && u[6] == 'C' && u[7] == '\\');
    next_is_in_range(u, 8, true);
    let e1 = next_separator(u, 8, true);
    if e1 < 8 + n {
        assert(u[e1] == server[e1 - 8]);
    }
    assert(u[8 + n] == '\\');
    assert(e1 == 8 + n);
    assert(u[e1 + 1] == share[0]);
    next_is_in_range(u, e1 + 1, true);
    let e2 = next_separator(u, e1 + 1, true);
    if e2 < u.len() {
        assert(u[e2] == share[e2 - n - 9]);
    }
    assert(e2 == u.len());
    assert(u.subrange(8, e1) =~= server);
    assert(u.subrange(e1 + 1, e2) =~= share);
    assert(one_kind(u.skip(u.len() as int), true) =~= none);
    assert(pieces_of(u) == seq![none]);
    assert(names_among(seq![none], true, false, 1) =~= Seq::<Component>::empty());
    assert(components(u) =~= seq![
        Component::Prefix { lead: Lead::LiteralShare, first: server, second: share },
    ]);
    let l = seq!['\\', '\\', '?', '\\'] + name;
    assert(l[0] == '\\' && l[1] == '\\' && l[2] == '?' && l[3] == '\\');
    if name.len() >= 2 {
        assert(l[5] == name[1]);
    }
    if name.len() >= 4 {
        assert(l[7] == name[3]);
    }
    next_is_in_range(l, 4, true);
    let e = next_separator(l, 4, true);
    if e < l.len() {
        assert(l[e] == name[e - 4]);
    }
    assert(l.subrange(4, e) =~= name);
    assert(one_kind(l.skip(l.len() as int), true) =~= none);
    assert(pieces_of(l) == seq![none]);
    assert(components(l) =~= seq![
        Component::Prefix { lead: Lead::Literal, first: name, second: none },
    ]);
}

} // verus!
