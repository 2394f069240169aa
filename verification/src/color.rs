//! Colors as the element layer names them: a handful of system palette
//! entries that each backend maps to its native theme, plus custom RGBA
//! values with one byte per channel.

use vstd::prelude::*;

verus! {

/// A color an element can ask for.  Channel values of `Custom` run from 0
/// (none) to 255 (full), alpha included.
#[derive(Debug, Clone, Copy, PartialEq, Eq, Hash, Structural)]
pub enum Color {
    /// The platform's default text color.
    Text,
    SystemRed,
    SystemOrange,
    SystemYellow,
    SystemGreen,
    SystemBlue,
    SystemIndigo,
    SystemPurple,
    SystemPink,
    Custom { r: u8, g: u8, b: u8, a: u8 },
}

impl Color {
    /// A fully opaque custom color.
    pub fn new(r: u8, g: u8, b: u8) -> (c: Self)
        ensures
            c == (Color::Custom { r, g, b, a: 255u8 }),
    {
        Self::new_with_alpha(r, g, b, 255)
    }

    /// A custom color with an explicit alpha channel.
    pub fn new_with_alpha(r: u8, g: u8, b: u8, a: u8) -> (c: Self)
        ensures
            c == (Color::Custom { r, g, b, a }),
    {
        Color::Custom { r, g, b, a }
    }
}

} // verus!
