//! The four thermal modes and the byte that stands for each on the wire.

use vstd::prelude::*;

verus! {

/// A thermal mode of the machine.
#[derive(Clone, Copy, PartialEq, Eq, Structural, Debug)]
pub enum ThermalMode {
    Performance,
    Balanced,
    Cool,
    PowerSaver,
}

impl ThermalMode {
    /// The byte that stands for the mode, over WMI and over the pipe.
    pub open spec fn wire(self) -> u8 {
        match self {
            ThermalMode::Performance => 0,
            ThermalMode::Balanced => 1,
            ThermalMode::Cool => 2,
            ThermalMode::PowerSaver => 3,
        }
    }

    /// Performance and Cool drive the fan harder than the other two.
    pub open spec fn loud(self) -> bool {
        self is Performance || self is Cool
    }

    /// The label shown to the user.
    pub open spec fn label(self) -> Seq<char> {
        match self {
            ThermalMode::Performance => "Performance"@,
            ThermalMode::Balanced => "Balanced"@,
            ThermalMode::Cool => "Cool"@,
            ThermalMode::PowerSaver => "Power Saver"@,
        }
    }

    /// The other mode of the same fan-noise band.
    pub open spec fn partner(self) -> ThermalMode {
        match self {
            ThermalMode::Performance => ThermalMode::Cool,
            ThermalMode::Cool => ThermalMode::Performance,
            ThermalMode::Balanced => ThermalMode::PowerSaver,
            ThermalMode::PowerSaver => ThermalMode::Balanced,
        }
    }

    /// Parses a wire byte. Only the low two bits count, so that a stray high bit
    /// cannot bring in a mode that does not exist.
    pub fn from_u8(v: u8) -> (m: ThermalMode)
        ensures
            m.wire() == v % 4,
    {
        assert(v & 0x03 == v % 4) by (bit_vector);
        match v & 0x03 {
            0 => ThermalMode::Performance,
            1 => ThermalMode::Balanced,
            2 => ThermalMode::Cool,
            _ => ThermalMode::PowerSaver,
        }
    }

    /// The wire byte of this mode.
    pub fn as_u8(self) -> (v: u8)
        ensures
            v == self.wire(),
    {
        match self {
            ThermalMode::Performance => 0,
            ThermalMode::Balanced => 1,
            ThermalMode::Cool => 2,
            ThermalMode::PowerSaver => 3,
        }
    }

    /// The label shown to the user; "Power Saver" has a space, unlike the
    /// identifier that `{:?}` prints.
    pub fn name(self) -> (s: &'static str)
        ensures
            s@ == self.label(),
    {
        match self {
            ThermalMode::Performance => "Performance",
            ThermalMode::Balanced => "Balanced",
            ThermalMode::Cool => "Cool",
            ThermalMode::PowerSaver => "Power Saver",
        }
    }

    /// Whether the mode is of the band in which the fan runs harder.
    pub fn is_loud(self) -> (r: bool)
        ensures
            r == self.loud(),
    {
        matches!(self, ThermalMode::Performance | ThermalMode::Cool)
    }

    /// A different mode at about the same fan noise: a switch to it can be read
    /// back without an audible change.
    pub fn same_band_partner(self) -> (p: ThermalMode)
        ensures
            p == self.partner(),
    {
        match self {
            ThermalMode::Performance => ThermalMode::Cool,
            ThermalMode::Cool => ThermalMode::Performance,
            ThermalMode::Balanced => ThermalMode::PowerSaver,
            ThermalMode::PowerSaver => ThermalMode::Balanced,
        }
    }
}

/// The wire byte determines the mode, and it is always one of 0 to 3: writing a
/// mode out and parsing it back gives the mode.
pub proof fn wire_round_trips(a: ThermalMode, b: ThermalMode)
    ensures
        a.wire() <= 3,
        a.wire() % 4 == a.wire(),
        a.wire() == b.wire() ==> a == b,
{
}

/// The partner is another mode, of the same band, and its own partner is the
/// mode one started from.
pub proof fn partner_stays_in_band_and_differs(m: ThermalMode)
    ensures
        m.partner() != m,
        m.partner().loud() == m.loud(),
        m.partner().partner() == m,
{
}

/// Performance is 0, Balanced 1, Cool 2 and Power Saver 3; the even ones are the loud
/// ones, and the partner is the one with the other second bit.
pub proof fn modes_have_their_numbers(m: ThermalMode)
    ensures
        m.wire() == 0 <==> m is Performance,
        m.wire() == 1 <==> m is Balanced,
        m.wire() == 2 <==> m is Cool,
        m.wire() == 3 <==> m is PowerSaver,
        m.loud() <==> m.wire() % 2 == 0,
        m.partner().wire() == (m.wire() + 2) % 4,
{
}

/// The label tells the mode: no two modes share one, and only the label of Power Saver
/// is made of two words.
pub proof fn labels_tell_the_modes_apart(a: ThermalMode, b: ThermalMode)
    ensures
        a.label() == b.label() ==> a == b,
        a.label().contains(' ') <==> a is PowerSaver,
        a.label() == "Performance"@ <==> a is Performance,
        a.label() == "Balanced"@ <==> a is Balanced,
        a.label() == "Cool"@ <==> a is Cool,
        a.label() == "Power Saver"@ <==> a is PowerSaver,
{
    reveal_strlit("Performance");
    reveal_strlit("Balanced");
    reveal_strlit("Cool");
    reveal_strlit("Power Saver");
    assert("Performance"@.len() == 11);
    assert("Balanced"@.len() == 8);
    assert("Cool"@.len() == 4);
    assert("Power Saver"@.len() == 11);
    assert("Power Saver"@[5] == ' ');
    assert("Performance"@[5] == 'r');
    assert("Power Saver"@.contains(' '));
}

} // verus!
