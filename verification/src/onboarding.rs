//! The dialog of a fresh install, and the choices made in it.

use vstd::prelude::*;
use vstd::string::*;

use crate::app::{Build, BIN_NAME};

verus! {

/// What the user may choose. What always happens (the service, the copy under
/// Program Files, the uninstall entry) is no choice.
#[derive(Clone, Copy, PartialEq, Eq, Structural, Debug)]
pub struct Choices {
    pub run_at_startup: bool,
    pub start_menu: bool,
    pub desktop: bool,
}

/// The flags of the chosen options, in their order.
pub open spec fn flags_of(c: Choices) -> Seq<Seq<char>> {
    (if c.run_at_startup {
        seq!["--startup"@]
    } else {
        Seq::empty()
    }) + (if c.start_menu {
        seq!["--start-menu"@]
    } else {
        Seq::empty()
    }) + (if c.desktop {
        seq!["--desktop"@]
    } else {
        Seq::empty()
    })
}

/// Texts in one, with a space between any two.
pub open spec fn spaced(parts: Seq<Seq<char>>) -> Seq<char>
    decreases parts.len(),
{
    if parts.len() == 0 {
        Seq::empty()
    } else if parts.len() == 1 {
        parts[0]
    } else {
        spaced(parts.drop_last()) + " "@ + parts.last()
    }
}

/// The choices that a list of arguments stands for: each flag that is there is
/// chosen, and whatever else is there is ignored.
pub open spec fn chosen(args: Seq<Seq<char>>) -> Choices {
    Choices {
        run_at_startup: args.contains("--startup"@),
        start_menu: args.contains("--start-menu"@),
        desktop: args.contains("--desktop"@),
    }
}

/// The texts of a list of strings.
pub open spec fn texts(args: Seq<String>) -> Seq<Seq<char>> {
    Seq::new(args.len(), |i: int| args[i]@)
}

fn has_flag(args: &[String], flag: &str) -> (r: bool)
    ensures
        r == texts(args@).contains(flag@),
{
    let wanted: String = flag.to_owned();
    let mut i: usize = 0;
    while i < args.len()
        invariant
            i <= args@.len(),
            wanted@ == flag@,
            forall|k: int| 0 <= k < i ==> (#[trigger] args@[k])@ != flag@,
        decreases args@.len() - i,
    {
        if args[i] == wanted {
            assert(texts(args@)[i as int] == flag@);
            return true;
        }
        i = i + 1;
    }
    assert forall|k: int| 0 <= k < texts(args@).len() implies texts(args@)[k] != flag@ by {
        assert(args@[k]@ != flag@);
    }
    false
}

fn push_part(out: &mut String, part: &str)
    ensures
        final(out)@ == if old(out)@.len() == 0 {
            part@
        } else {
            old(out)@ + " "@ + part@
        },
{
    if !out.as_str().is_empty() {
        out.append(" ");
    }
    let ghost before = out@;
    out.append(part);
    assert(before.len() == 0 ==> out@ =~= part@);
}

impl Choices {
    /// The choices as arguments for the elevated process, with a space between any
    /// two: a flag that is there is on, one that is not is off.
    pub fn to_args(self) -> (out: String)
        ensures
            out@ == spaced(flags_of(self)),
    {
        proof {
            reveal_strlit("--startup");
            reveal_strlit("--start-menu");
            reveal_with_fuel(spaced, 4);
        }
        let mut out: String = String::new();
        let ghost mut parts = Seq::<Seq<char>>::empty();
        if self.run_at_startup {
            push_part(&mut out, "--startup");
            proof {
                parts = parts.push("--startup"@);
            }
        }
        if self.start_menu {
            push_part(&mut out, "--start-menu");
            proof {
                assert(parts.push("--start-menu"@).drop_last() =~= parts);
                parts = parts.push("--start-menu"@);
            }
        }
        if self.desktop {
            push_part(&mut out, "--desktop");
            proof {
                assert(parts.push("--desktop"@).drop_last() =~= parts);
                parts = parts.push("--desktop"@);
            }
        }
        assert(parts =~= flags_of(self));
        out
    }

    /// The choices in the arguments of the elevated process. Flags that are not
    /// known are ignored, so that no argument can do more than choose.
    pub fn from_args(args: &[String]) -> (c: Choices)
        ensures
            c == chosen(texts(args@)),
    {
        Choices {
            run_at_startup: has_flag(args, "--startup"),
            start_menu: has_flag(args, "--start-menu"),
            desktop: has_flag(args, "--desktop"),
        }
    }
}

/// The flags are three words, each of them another.
pub proof fn flags_differ()
    ensures
        "--startup"@ != "--start-menu"@,
        "--startup"@ != "--desktop"@,
        "--start-menu"@ != "--desktop"@,
        "--startup"@ != Seq::<char>::empty(),
        "--start-menu"@ != Seq::<char>::empty(),
        "--desktop"@ != Seq::<char>::empty(),
        !"--startup"@.contains(' '),
        !"--start-menu"@.contains(' '),
        !"--desktop"@.contains(' '),
{
    reveal_strlit("--startup");
    reveal_strlit("--start-menu");
    reveal_strlit("--desktop");
    assert("--startup"@.len() == 9);
    assert("--start-menu"@.len() == 12);
    assert("--desktop"@.len() == 9);
    assert("--desktop"@[2] == 'd');
    assert("--startup"@[2] == 's');
}

/// Parts without a space in them can be taken apart again at the spaces between them.
pub proof fn spaced_splits(parts: Seq<Seq<char>>)
    requires
        parts.len() > 0,
        forall|i: int| 0 <= i < parts.len() ==> !(#[trigger] parts[i]).contains(' '),
    ensures
        crate::text::split(spaced(parts), ' ') == parts,
    decreases parts.len(),
{
    reveal_strlit(" ");
    let last = parts.last();
    assert(!last.contains(' '));
    if parts.len() == 1 {
        let none = Seq::<char>::empty();
        assert(crate::text::split(none, ' ') =~= seq![none]);
        crate::text::split_extends_the_last_piece(none, last, ' ');
        assert(none + last =~= last);
        assert(crate::text::split(last, ' ') =~= parts);
    } else {
        let head = spaced(parts.drop_last());
        assert forall|i: int| 0 <= i < parts.drop_last().len() implies !(
        #[trigger] parts.drop_last()[i]).contains(' ') by {
            assert(!parts[i].contains(' '));
        }
        spaced_splits(parts.drop_last());
        let open = head + " "@;
        assert(open.drop_last() =~= head);
        assert(open.last() == ' ');
        let none = Seq::<char>::empty();
        assert(crate::text::split(open, ' ') == parts.drop_last().push(none));
        crate::text::split_extends_the_last_piece(open, last, ' ');
        assert(parts.drop_last().push(none).drop_last() =~= parts.drop_last());
        assert(none + last =~= last);
        assert(crate::text::split(spaced(parts), ' ') =~= parts);
    }
}

/// The choices that are handed over are the choices that arrive, whatever they
/// are: taking the arguments apart at the spaces and reading the flags gives the
/// choices they were made from.
pub proof fn args_round_trip(c: Choices)
    ensures
        chosen(flags_of(c)) == c,
        chosen(crate::text::split(spaced(flags_of(c)), ' ')) == c,
{
    flags_differ();
    let f = flags_of(c);
    let a = if c.run_at_startup {
        1int
    } else {
        0
    };
    let b = if c.start_menu {
        a + 1
    } else {
        a
    };
    if c.run_at_startup {
        assert(f[0] == "--startup"@);
    }
    if c.start_menu {
        assert(f[a] == "--start-menu"@);
    }
    if c.desktop {
        assert(f[b] == "--desktop"@);
    }
    if f.len() > 0 {
        spaced_splits(f);
    } else {
        assert(crate::text::split(spaced(f), ' ') =~= seq![Seq::<char>::empty()]);
        assert(!seq![Seq::<char>::empty()].contains("--startup"@));
    }
}

/// Arguments that are no flags change nothing.
pub proof fn unknown_args_are_ignored(args: Seq<Seq<char>>, extra: Seq<char>)
    requires
        extra != "--startup"@,
        extra != "--start-menu"@,
        extra != "--desktop"@,
    ensures
        chosen(args.push(extra)) == chosen(args),
{
    pushed_contains(args, extra, "--startup"@);
    pushed_contains(args, extra, "--start-menu"@);
    pushed_contains(args, extra, "--desktop"@);
}

proof fn pushed_contains(args: Seq<Seq<char>>, extra: Seq<char>, flag: Seq<char>)
    requires
        extra != flag,
    ensures
        args.push(extra).contains(flag) == args.contains(flag),
{
    if args.contains(flag) {
        let i = choose|i: int| 0 <= i < args.len() && args[i] == flag;
        assert(args.push(extra)[i] == flag);
    }
    if args.push(extra).contains(flag) {
        let i = choose|i: int| 0 <= i < args.len() + 1 && args.push(extra)[i] == flag;
        assert(args[i] == flag);
    }
}

/// The dialog and its controls.
pub const IDD: u16 = 100;
pub const IDOK: i32 = 1;
pub const IDCANCEL: i32 = 2;
pub const IDC_STARTUP: i32 = 1001;
pub const IDC_PROGRAMS: i32 = 1002;
pub const IDC_DESKTOP: i32 = 1003;
pub const IDC_R1: i32 = 1011;
pub const IDC_R2: i32 = 1012;
pub const IDC_R3: i32 = 1013;
pub const IDC_VERSION: i32 = 1020;
pub const BST_CHECKED: usize = 1;

/// Whether a control is checked when the dialog opens: the rows of what always
/// happens, start-up and start menu are; the desktop is not.
pub open spec fn opens_checked(id: i32) -> bool {
    id == IDC_R1 || id == IDC_R2 || id == IDC_R3 || id == IDC_STARTUP || id == IDC_PROGRAMS
}

/// Whether a control is checked when the dialog opens.
pub fn checked_at_start(id: i32) -> (r: bool)
    ensures
        r == opens_checked(id),
{
    id == IDC_R1 || id == IDC_R2 || id == IDC_R3 || id == IDC_STARTUP || id == IDC_PROGRAMS
}

/// What a command does to the dialog.
#[derive(Clone, Copy, PartialEq, Eq, Structural, Debug)]
pub enum DialogCommand {
    /// Take the choices and close.
    Accept,
    /// Close without choices.
    Cancel,
    /// Nothing.
    Ignore,
}

/// What a command message does: its low sixteen bits are the control.
pub open spec fn command_in(wparam: usize) -> DialogCommand {
    if wparam % 0x10000 == IDOK {
        DialogCommand::Accept
    } else if wparam % 0x10000 == IDCANCEL {
        DialogCommand::Cancel
    } else {
        DialogCommand::Ignore
    }
}

/// What a command message does.
pub fn dialog_command(wparam: usize) -> (c: DialogCommand)
    ensures
        c == command_in(wparam),
{
    let id: i32 = (wparam % 0x10000) as i32;
    if id == IDOK {
        DialogCommand::Accept
    } else if id == IDCANCEL {
        DialogCommand::Cancel
    } else {
        DialogCommand::Ignore
    }
}

/// Whether a control is checked, given its state, if it could be found.
pub open spec fn checked(state: Option<usize>) -> bool {
    state == Some(BST_CHECKED)
}

/// Whether a control is checked, given its state, if it could be found.
pub fn is_checked(state: Option<usize>) -> (r: bool)
    ensures
        r == checked(state),
{
    match state {
        Some(s) => s == BST_CHECKED,
        None => false,
    }
}

/// What the dialog brought: choices only where it was accepted.
pub open spec fn brought(ended_with: isize, result: Option<Choices>) -> Option<Choices> {
    if ended_with == 1 {
        result
    } else {
        None
    }
}

/// What the dialog brought.
pub fn prompt(ended_with: isize, result: Option<Choices>) -> (r: Option<Choices>)
    ensures
        r == brought(ended_with, result),
{
    if ended_with == 1 {
        result
    } else {
        None
    }
}

/// The line that says which build the dialog is of.
pub fn version_text(build: &Build) -> (out: String)
    ensures
        out@ == BIN_NAME@ + " v"@ + build.version@ + "+"@ + build.id@,
{
    let mut out: String = BIN_NAME.to_owned();
    out.append(" v");
    out.append(build.version.as_str());
    out.append("+");
    out.append(build.id.as_str());
    out
}

/// The shortcut on the desktop is off until it is chosen; starting with the session and
/// the start menu are on until they are taken out.
pub proof fn the_desktop_is_left_alone(id: i32)
    ensures
        IDC_STARTUP == 1001 && IDC_PROGRAMS == 1002 && IDC_DESKTOP == 1003,
        opens_checked(id) <==> id == 1001 || id == 1002 || 1011 <= id <= 1013,
        !opens_checked(IDC_DESKTOP),
{
}

/// The low sixteen bits of a command say which button it is: the first accepts, the
/// second cancels, and what stands above them makes no difference.
pub proof fn buttons_close_the_dialog(wparam: usize, other: usize)
    ensures
        command_in(wparam) is Accept <==> wparam % 65536 == 1,
        command_in(wparam) is Cancel <==> wparam % 65536 == 2,
        wparam % 65536 == other % 65536 ==> command_in(wparam) == command_in(other),
{
}

/// Choices come only out of a dialog that was accepted, and are those made in it. A
/// control that cannot be found, or is neither on nor off, is not chosen.
pub proof fn only_accepted_choices_count(
    ended_with: isize,
    result: Option<Choices>,
    state: Option<usize>,
)
    ensures
        brought(ended_with, result) is Some <==> ended_with == 1 && result is Some,
        brought(ended_with, result) is Some ==> brought(ended_with, result) == result,
        checked(state) <==> state == Some(1usize),
        !checked(None),
{
}

/// Each flag chooses its own option and leaves the other two as they were.
pub proof fn flags_choose_their_own_option(args: Seq<Seq<char>>)
    ensures
        chosen(args.push("--startup"@)) == (Choices { run_at_startup: true, ..chosen(args) }),
        chosen(args.push("--start-menu"@)) == (Choices { start_menu: true, ..chosen(args) }),
        chosen(args.push("--desktop"@)) == (Choices { desktop: true, ..chosen(args) }),
        chosen(Seq::empty()) == (Choices {
            run_at_startup: false,
            start_menu: false,
            desktop: false,
        }),
{
    flags_differ();
    assert(args.push("--startup"@)[args.len() as int] == "--startup"@);
    assert(args.push("--start-menu"@)[args.len() as int] == "--start-menu"@);
    assert(args.push("--desktop"@)[args.len() as int] == "--desktop"@);
    pushed_contains(args, "--startup"@, "--start-menu"@);
    pushed_contains(args, "--startup"@, "--desktop"@);
    pushed_contains(args, "--start-menu"@, "--startup"@);
    pushed_contains(args, "--start-menu"@, "--desktop"@);
    pushed_contains(args, "--desktop"@, "--startup"@);
    pushed_contains(args, "--desktop"@, "--start-menu"@);
}

/// A part in front of others stands before them with a space between.
pub proof fn parts_stand_in_their_order(first: Seq<char>, parts: Seq<Seq<char>>)
    requires
        parts.len() > 0,
    ensures
        spaced(seq![first] + parts) == first + " "@ + spaced(parts),
    decreases parts.len(),
{
    let all = seq![first] + parts;
    assert(all.last() == parts.last());
    if parts.len() == 1 {
        assert(all.drop_last() =~= seq![first]);
        assert(spaced(seq![first]) == first);
    } else {
        let rest = parts.drop_last();
        parts_stand_in_their_order(first, rest);
        assert(all.drop_last() =~= seq![first] + rest);
        assert(first + " "@ + spaced(rest) + " "@ + parts.last() =~= first + " "@ + spaced(parts));
    }
}

} // verus!
