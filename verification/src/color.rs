//! Colours as four 8-bit channels.

use vstd::prelude::*;

verus! {

/// A colour: red, green, blue and alpha, each from 0 to 255.
#[derive(Clone, Copy, Debug, Eq)]
pub struct Color(pub [u8; 4]);

impl Color {
    /// The four channels as a sequence: red, green, blue, alpha.
    pub open spec fn channels(self) -> Seq<u8> {
        self.0@
    }

    /// The channels as an array, in the order red, green, blue, alpha.
    pub fn into_rgba(self) -> (rgba: [u8; 4])
        ensures
            rgba@ == self.channels(),
    {
        self.0
    }
}

impl PartialEq for Color {
    fn eq(&self, other: &Self) -> (equal: bool)
    {
        self.0[0] == other.0[0] && self.0[1] == other.0[1] && self.0[2] == other.0[2]
            && self.0[3] == other.0[3]
    }
}

impl vstd::std_specs::cmp::PartialEqSpecImpl for Color {
    open spec fn obeys_eq_spec() -> bool {
        true
    }

    open spec fn eq_spec(&self, other: &Self) -> bool {
        self.0[0] == other.0[0] && self.0[1] == other.0[1] && self.0[2] == other.0[2]
            && self.0[3] == other.0[3]
    }
}

impl Default for Color {
    fn default() -> (c: Color)
        ensures
            c.channels() == seq![0u8, 0u8, 0u8, 0u8],
    {
        Color([0u8, 0u8, 0u8, 0u8])
    }
}

impl From<[u8; 3]> for Color {
    fn from(rgb: [u8; 3]) -> (c: Color)
    {
        Color([rgb[0], rgb[1], rgb[2], 255u8])
    }
}

impl vstd::std_specs::convert::FromSpecImpl<[u8; 3]> for Color {
    open spec fn obeys_from_spec() -> bool {
        true
    }

    open spec fn from_spec(rgb: [u8; 3]) -> Color {
        Color([rgb[0], rgb[1], rgb[2], 255u8])
    }
}

} // verus!
