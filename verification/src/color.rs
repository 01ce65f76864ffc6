//! Colors as plain 8-bit RGBA channel values.

use vstd::prelude::*;

verus! {

/// An RGBA color with 8-bit channels.
#[derive(Clone, Copy, Debug, PartialEq, Eq, Structural)]
pub struct Color {
    pub red: u8,
    pub green: u8,
    pub blue: u8,
    pub alpha: u8,
}

impl Color {
    /// Build a color from its four channels.
    pub fn rgba(red: u8, green: u8, blue: u8, alpha: u8) -> (r: Color)
        ensures
            r == (Color { red, green, blue, alpha }),
    {
        Color { red, green, blue, alpha }
    }

    /// Build a fully opaque color.
    pub fn rgb(red: u8, green: u8, blue: u8) -> (r: Color)
        ensures
            r == (Color { red, green, blue, alpha: 255u8 }),
    {
        Color { red, green, blue, alpha: 255 }
    }
}

} // verus!
