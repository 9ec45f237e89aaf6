//! Four-channel colors and the integer key that identifies each of them.

use vstd::prelude::*;

verus! {

/// A color with red, green, blue and alpha channels. Two colors are equal
/// when all four channels are equal; alpha takes part in the comparison.
#[derive(Clone, Copy, Debug, PartialEq, Eq, Structural, Hash)]
pub struct Color {
    pub r: u8,
    pub g: u8,
    pub b: u8,
    pub a: u8,
}

/// A three-channel color, as the deprecated palette tables store it.
#[derive(Clone, Copy, Debug, PartialEq, Eq, Structural, Hash)]
pub struct Rgb {
    pub r: u8,
    pub g: u8,
    pub b: u8,
}

/// A two-channel pixel: a gray value and its alpha.
#[derive(Clone, Copy, Debug, PartialEq, Eq, Structural, Hash)]
pub struct Gray {
    pub v: u8,
    pub a: u8,
}

/// The pixel formats a sprite document can declare.
#[derive(Clone, Copy, Debug, PartialEq, Eq, Structural, Hash)]
pub enum ColorDepth {
    Indexed,
    Grayscale,
    Rgba,
}

impl Color {
    /// The integer that stands for this color: the four channels laid out
    /// in base 256, red in the lowest place.
    pub open spec fn key(self) -> int {
        self.r + 256 * self.g + 65536 * self.b + 16777216 * self.a
    }

    /// The color with the given channels.
    pub fn new(r: u8, g: u8, b: u8, a: u8) -> (c: Color)
        ensures
            c == (Color { r, g, b, a }),
    {
        Color { r, g, b, a }
    }

    /// Computes [`Color::key`] as a machine integer.
    pub fn pack(self) -> (k: u32)
        ensures
            k == self.key(),
    {
        let r: u32 = self.r as u32;
        let g: u32 = self.g as u32;
        let b: u32 = self.b as u32;
        let a: u32 = self.a as u32;
        r + 256 * g + 65536 * b + 16777216 * a
    }

    /// Distinct colors have distinct keys.
    pub proof fn lemma_key_injective(self, other: Color)
        ensures
            self.key() == other.key() <==> self == other,
    {
    }
}

} // verus!
