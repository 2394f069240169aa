//! Text styling: alignment, decoration lines, and the modifier section a
//! `Text` element reads its font, color and decoration from.

use crate::color::Color;
use crate::font::Font;
use crate::font::FontWeight;
use vstd::prelude::*;

verus! {

/// Horizontal alignment of text inside its line box.
#[derive(Debug, Default, Clone, Copy, PartialEq, Eq, Structural)]
pub enum TextAlign {
    #[default]
    Leading,
    Center,
    Trailing,
}

/// The stroke style of an underline or strike-through line.
#[derive(Debug, Default, Clone, Copy, PartialEq, Eq, Hash, Structural)]
pub enum TextLineStyle {
    #[default]
    NoLine,
    Single,
    Thick,
    Double,
    Dotted,
    Dashed,
}

/// One decoration line: its stroke style and its color.
#[derive(Debug, Clone, Copy, PartialEq, Eq, Hash, Structural)]
pub struct TextDecorationLine {
    pub style: TextLineStyle,
    pub color: Color,
}

impl Default for TextDecorationLine {
    /// No line, drawn in the text color if ever enabled.
    fn default() -> (d: Self)
        ensures
            d.style == TextLineStyle::NoLine,
            d.color == Color::Text,
    {
        TextDecorationLine { style: TextLineStyle::NoLine, color: Color::Text }
    }
}

/// The decoration of a run of text: an underline and a strike-through.
#[derive(Debug, Clone, Copy, PartialEq, Eq, Hash, Structural)]
pub struct TextDecoration {
    pub underline: TextDecorationLine,
    pub strike_through: TextDecorationLine,
}

impl Default for TextDecoration {
    /// No decoration at all.
    fn default() -> (d: Self)
        ensures
            d.underline.style == TextLineStyle::NoLine,
            d.underline.color == Color::Text,
            d.strike_through.style == TextLineStyle::NoLine,
            d.strike_through.color == Color::Text,
    {
        TextDecoration {
            underline: TextDecorationLine { style: TextLineStyle::NoLine, color: Color::Text },
            strike_through: TextDecorationLine { style: TextLineStyle::NoLine, color: Color::Text },
        }
    }
}

/// The modifier section text elements read.
#[derive(Debug, PartialEq)]
pub struct TextModifiers {
    pub font: Font,
    pub color: Color,
    pub decoration: TextDecoration,
}

impl Default for TextModifiers {
    /// Default font, platform text color, no decoration.
    fn default() -> (m: Self)
        ensures
            m.font.inner.size == 12,
            m.font.inner.weight == FontWeight::Regular,
            !m.font.inner.italicized,
            !m.font.inner.underlined,
            m.color == Color::Text,
            m.decoration.underline.style == TextLineStyle::NoLine,
            m.decoration.strike_through.style == TextLineStyle::NoLine,
    {
        TextModifiers {
            font: Font::default(),
            color: Color::Text,
            decoration: TextDecoration::default(),
        }
    }
}

} // verus!
