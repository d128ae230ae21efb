//! Whether the machine is one on which the tool may run without asking.
//!
//! The thermal interface is internal to the firmware and may change with it. So
//! the tool runs silently only on hardware that was validated, or on which the
//! user has accepted the risk; a firmware update asks again.

use vstd::prelude::*;
use vstd::string::*;

use crate::hwinfo::HwInfo;
use crate::text::{chars_of, same_chars, split_on};

verus! {

/// Fingerprints of hardware that was validated.
pub const KNOWN_GOOD_F25: &'static str =
    "HP|HP ENVY Laptop 16-h1xxx|103C_5335M8 HP ENVY|8BE5|F.25|72.35";
pub const KNOWN_GOOD_F26: &'static str =
    "HP|HP ENVY Laptop 16-h1xxx|103C_5335M8 HP ENVY|8BE5|F.26|72.35";

/// Outcome of the check.
#[derive(Clone, Copy, PartialEq, Eq, Structural, Debug)]
pub enum Consent {
    /// Validated or accepted before: go on silently.
    Trusted,
    /// Ask the user. The firmware has changed where the user accepted the same
    /// board and product before.
    NeedsPrompt { firmware_changed: bool },
}

/// Whether a fingerprint is of validated hardware.
pub open spec fn known_good(fingerprint: Seq<char>) -> bool {
    fingerprint == KNOWN_GOOD_F25@ || fingerprint == KNOWN_GOOD_F26@
}

/// Two fingerprints of six fields each that agree on product and board but differ
/// elsewhere: the same machine with other firmware.
pub open spec fn is_same_machine(a: Seq<char>, b: Seq<char>) -> bool {
    let fa = crate::text::split(a, '|');
    let fb = crate::text::split(b, '|');
    a != b && fa.len() == 6 && fb.len() == 6 && fa[3] == fb[3] && fa[1] == fb[1]
}

/// The decision for a fingerprint, given the one that was accepted before.
pub open spec fn decision(current: Seq<char>, accepted: Option<Seq<char>>) -> Consent {
    if known_good(current) || accepted == Some(current) {
        Consent::Trusted
    } else {
        Consent::NeedsPrompt {
            firmware_changed: accepted matches Some(a) && is_same_machine(a, current),
        }
    }
}

/// Whether a fingerprint is of validated hardware, so that there is nothing to
/// contribute.
pub fn is_known_good(fingerprint: &str) -> (r: bool)
    ensures
        r == known_good(fingerprint@),
{
    let chars = chars_of(fingerprint);
    let f25 = chars_of(KNOWN_GOOD_F25);
    let f26 = chars_of(KNOWN_GOOD_F26);
    same_chars(chars.as_slice(), f25.as_slice()) || same_chars(chars.as_slice(), f26.as_slice())
}

/// Whether two fingerprints are of the same machine, with other firmware.
pub fn same_machine(a: &str, b: &str) -> (r: bool)
    ensures
        r == is_same_machine(a@, b@),
{
    let a_chars = chars_of(a);
    let b_chars = chars_of(b);
    let fa = split_on(a_chars.as_slice(), '|');
    let fb = split_on(b_chars.as_slice(), '|');
    !same_chars(a_chars.as_slice(), b_chars.as_slice()) && fa.len() == 6 && fb.len() == 6
        && same_chars(fa[3].as_slice(), fb[3].as_slice()) && same_chars(
        fa[1].as_slice(),
        fb[1].as_slice(),
    )
}

/// Decides for a fingerprint, given the one that was accepted before.
pub fn classify(current: &str, accepted: Option<&str>) -> (c: Consent)
    ensures
        c == decision(
            current@,
            match accepted {
                Some(a) => Some(a@),
                None => None,
            },
        ),
{
    if is_known_good(current) {
        return Consent::Trusted;
    }
    match accepted {
        Some(a) => {
            let a_chars = chars_of(a);
            let current_chars = chars_of(current);
            if same_chars(a_chars.as_slice(), current_chars.as_slice()) {
                Consent::Trusted
            } else {
                Consent::NeedsPrompt { firmware_changed: same_machine(a, current) }
            }
        },
        None => Consent::NeedsPrompt { firmware_changed: false },
    }
}

/// Decides for a machine, given the fingerprint that was accepted before.
pub fn check(hw: &HwInfo, accepted: Option<&str>) -> (c: Consent)
    ensures
        c == decision(
            crate::hwinfo::fingerprint_of(*hw),
            match accepted {
                Some(a) => Some(a@),
                None => None,
            },
        ),
{
    let fingerprint = hw.fingerprint();
    classify(fingerprint.as_str(), accepted)
}

/// What is stored to accept a machine: its fingerprint in UTF-16, with a zero unit
/// at the end.
pub open spec fn acceptance_of(hw: HwInfo) -> Seq<u16> {
    crate::wide::utf16(crate::hwinfo::fingerprint_of(hw)).push(0)
}

/// What is stored to accept a machine.
pub fn record_acceptance(hw: &HwInfo) -> (units: Vec<u16>)
    ensures
        units@ == acceptance_of(*hw),
{
    let fingerprint = hw.fingerprint();
    crate::wide::wide_null(fingerprint.as_str())
}

/// Validated hardware needs no acceptance, and none can take its trust away.
pub proof fn known_good_is_always_trusted(current: Seq<char>, accepted: Option<Seq<char>>)
    requires
        known_good(current),
    ensures
        decision(current, accepted) is Trusted,
{
}

/// Accepting a machine makes it trusted.
pub proof fn accepted_machine_is_trusted(current: Seq<char>)
    ensures
        decision(current, Some(current)) is Trusted,
{
}

/// A machine that was accepted is trusted at the next start: what was stored is read
/// back as its fingerprint, where it fits into the buffer. A fingerprint with white
/// space at an end is left out, since that is not read back.
pub proof fn acceptance_is_read_back(hw: HwInfo, size: u32, buf: Seq<u16>)
    requires
        ({
            let fingerprint = crate::hwinfo::fingerprint_of(hw);
            let stored = acceptance_of(hw);
            &&& crate::text::trimmed(fingerprint) == fingerprint
            &&& stored.len() <= buf.len()
            &&& buf.take(stored.len() as int) == stored
            &&& size == 2 * stored.len()
        }),
    ensures
        ({
            let fingerprint = crate::hwinfo::fingerprint_of(hw);
            let accepted = crate::hwinfo::accepted_of(true, size, buf);
            &&& accepted == Some(fingerprint)
            &&& decision(fingerprint, accepted) is Trusted
        }),
{
    let fingerprint = crate::hwinfo::fingerprint_of(hw);
    let units = crate::wide::utf16(fingerprint);
    assert(buf.take(units.len() as int) =~= buf.take(units.len() as int + 1).drop_last());
    assert(units.push(0).drop_last() =~= units);
    crate::wide::utf16_round_trips(fingerprint);
    reveal_strlit("|");
    assert(fingerprint.len() > 0);
}

/// Once a machine was accepted, any change of its fields asks again, and is told
/// from a new machine exactly by board and product. Fields that hold a bar are left
/// out, and so is validated hardware, which is never asked about.
pub proof fn firmware_update_asks_again(accepted: HwInfo, current: HwInfo)
    requires
        crate::hwinfo::no_bar(crate::hwinfo::fields_of(accepted)),
        crate::hwinfo::no_bar(crate::hwinfo::fields_of(current)),
        !known_good(crate::hwinfo::fingerprint_of(current)),
    ensures
        decision(
            crate::hwinfo::fingerprint_of(current),
            Some(crate::hwinfo::fingerprint_of(accepted)),
        ) == if crate::hwinfo::fields_of(accepted) == crate::hwinfo::fields_of(current) {
            Consent::Trusted
        } else {
            Consent::NeedsPrompt {
                firmware_changed: accepted.board@ == current.board@ && accepted.product@
                    == current.product@,
            }
        },
{
    crate::hwinfo::fingerprint_splits_into_its_fields(crate::hwinfo::fields_of(accepted));
    crate::hwinfo::fingerprint_splits_into_its_fields(crate::hwinfo::fields_of(current));
}

/// The hardware that was validated is the ENVY 16 with board 8BE5, with its BIOS at F.25
/// or F.26, and no other: every field counts. Fields that hold a bar are left out.
pub proof fn only_the_envy_16_is_validated(hw: HwInfo)
    requires
        crate::hwinfo::no_bar(crate::hwinfo::fields_of(hw)),
    ensures
        known_good(crate::hwinfo::fingerprint_of(hw)) <==> {
            &&& hw.manufacturer@ == "HP"@
            &&& hw.product@ == "HP ENVY Laptop 16-h1xxx"@
            &&& hw.family@ == "103C_5335M8 HP ENVY"@
            &&& hw.board@ == "8BE5"@
            &&& hw.bios_version@ == "F.25"@ || hw.bios_version@ == "F.26"@
            &&& hw.board_version@ == "72.35"@
        },
{
    reveal_strlit("HP");
    reveal_strlit("HP ENVY Laptop 16-h1xxx");
    reveal_strlit("103C_5335M8 HP ENVY");
    reveal_strlit("8BE5");
    reveal_strlit("F.25");
    reveal_strlit("F.26");
    reveal_strlit("72.35");
    reveal_strlit("|");
    reveal_strlit("HP|HP ENVY Laptop 16-h1xxx|103C_5335M8 HP ENVY|8BE5|F.25|72.35");
    reveal_strlit("HP|HP ENVY Laptop 16-h1xxx|103C_5335M8 HP ENVY|8BE5|F.26|72.35");
    let f = crate::hwinfo::fields_of(hw);
    let older = seq![
        "HP"@,
        "HP ENVY Laptop 16-h1xxx"@,
        "103C_5335M8 HP ENVY"@,
        "8BE5"@,
        "F.25"@,
        "72.35"@,
    ];
    let newer = older.update(4, "F.26"@);
    assert(crate::hwinfo::joined(older) =~= KNOWN_GOOD_F25@);
    assert(crate::hwinfo::joined(newer) =~= KNOWN_GOOD_F26@);
    assert(crate::hwinfo::no_bar(older));
    assert(crate::hwinfo::no_bar(newer));
    crate::hwinfo::fingerprint_splits_into_its_fields(f);
    crate::hwinfo::fingerprint_splits_into_its_fields(older);
    crate::hwinfo::fingerprint_splits_into_its_fields(newer);
    if known_good(crate::hwinfo::fingerprint_of(hw)) {
        assert(f == older || f == newer);
        assert(f[0] == "HP"@);
        assert(f[1] == "HP ENVY Laptop 16-h1xxx"@);
        assert(f[2] == "103C_5335M8 HP ENVY"@);
        assert(f[3] == "8BE5"@);
        assert(f[4] == "F.25"@ || f[4] == "F.26"@);
        assert(f[5] == "72.35"@);
    }
    if hw.manufacturer@ == "HP"@ && hw.product@ == "HP ENVY Laptop 16-h1xxx"@ && hw.family@
        == "103C_5335M8 HP ENVY"@ && hw.board@ == "8BE5"@ && hw.board_version@ == "72.35"@ {
        if hw.bios_version@ == "F.25"@ {
            assert(f =~= older);
        }
        if hw.bios_version@ == "F.26"@ {
            assert(f =~= newer);
        }
    }
}

/// Without an acceptance only validated hardware is trusted, and nothing counts as new
/// firmware.
pub proof fn without_acceptance_a_machine_is_new(current: Seq<char>)
    ensures
        decision(current, None) is Trusted <==> known_good(current),
        !(decision(current, None) is Trusted) ==> decision(current, None)
            == (Consent::NeedsPrompt { firmware_changed: false }),
{
}

} // verus!
