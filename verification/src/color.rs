//! Colours, as red, green and blue parts.

use vstd::prelude::*;

verus! {

/// An opaque colour: its red, green and blue parts.
#[derive(Clone, Copy, Debug, PartialEq, Eq, Structural)]
pub struct Color {
    pub r: u8,
    pub g: u8,
    pub b: u8,
}

impl Color {
    /// The colour with the given parts.
    pub fn rgb(r: u8, g: u8, b: u8) -> (color: Color)
        ensures
            color == (Color { r, g, b }),
    {
        Color { r, g, b }
    }

    /// Black: no light in any part.
    pub open spec fn black() -> Color {
        Color { r: 0, g: 0, b: 0 }
    }

    /// White: every part at its brightest.
    pub open spec fn white() -> Color {
        Color { r: 255, g: 255, b: 255 }
    }
}

} // verus!
