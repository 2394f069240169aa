//! Conversions from element-layer styling values to what the solver and the
//! style backends consume: alignment enums to cross-axis alignment, and
//! decoration line styles to their CSS keywords.

use crate::composition::HorizontalAlignment;
use crate::composition::VerticalAlignment;
use crate::style::AlignItems;
use crate::text::TextLineStyle;
use vstd::prelude::*;

verus! {

/// The cross-axis alignment a horizontal stack's vertical alignment maps to.
pub open spec fn spec_v_alignment(a: VerticalAlignment) -> AlignItems {
    match a {
        VerticalAlignment::Top => AlignItems::Start,
        VerticalAlignment::Center => AlignItems::Center,
        VerticalAlignment::Bottom => AlignItems::End,
    }
}

/// Convert a horizontal stack's vertical alignment for the solver.
pub fn conv_v_alignment(a: VerticalAlignment) -> (r: AlignItems)
    ensures
        r == spec_v_alignment(a),
{
    match a {
        VerticalAlignment::Top => AlignItems::Start,
        VerticalAlignment::Center => AlignItems::Center,
        VerticalAlignment::Bottom => AlignItems::End,
    }
}

/// The cross-axis alignment a vertical stack's horizontal alignment maps to.
pub open spec fn spec_h_alignment(a: HorizontalAlignment) -> AlignItems {
    match a {
        HorizontalAlignment::Leading => AlignItems::Start,
        HorizontalAlignment::Center => AlignItems::Center,
        HorizontalAlignment::Trailing => AlignItems::End,
    }
}

/// Convert a vertical stack's horizontal alignment for the solver.
pub fn conv_h_alignment(a: HorizontalAlignment) -> (r: AlignItems)
    ensures
        r == spec_h_alignment(a),
{
    match a {
        HorizontalAlignment::Leading => AlignItems::Start,
        HorizontalAlignment::Center => AlignItems::Center,
        HorizontalAlignment::Trailing => AlignItems::End,
    }
}

/// The CSS `text-decoration` keyword for an underline of the given style.
pub open spec fn spec_underline_style(style: TextLineStyle) -> Seq<char> {
    match style {
        TextLineStyle::NoLine => "none"@,
        TextLineStyle::Single => "underline"@,
        TextLineStyle::Double => "underline double"@,
        TextLineStyle::Thick => "underline"@,
        TextLineStyle::Dotted => "underline dotted"@,
        TextLineStyle::Dashed => "underline dashed"@,
    }
}

/// The CSS keyword an underline of the given style renders as.
pub fn conv_underline_style(style: &TextLineStyle) -> (r: &'static str)
    ensures
        r@ == spec_underline_style(*style),
{
    match style {
        TextLineStyle::NoLine => "none",
        TextLineStyle::Single => "underline",
        TextLineStyle::Double => "underline double",
        TextLineStyle::Thick => "underline",
        TextLineStyle::Dotted => "underline dotted",
        TextLineStyle::Dashed => "underline dashed",
    }
}

/// The CSS `text-decoration` keyword for a strike-through of the given style.
pub open spec fn spec_strike_through_style(style: TextLineStyle) -> Seq<char> {
    match style {
        TextLineStyle::NoLine => "none"@,
        TextLineStyle::Single => "line-through"@,
        TextLineStyle::Double => "line-through double"@,
        TextLineStyle::Thick => "line-through"@,
        TextLineStyle::Dotted => "line-through dotted"@,
        TextLineStyle::Dashed => "line-through dashed"@,
    }
}

/// The CSS keyword a strike-through of the given style renders as.
pub fn conv_strike_through_style(style: &TextLineStyle) -> (r: &'static str)
    ensures
        r@ == spec_strike_through_style(*style),
{
    match style {
        TextLineStyle::NoLine => "none",
        TextLineStyle::Single => "line-through",
        TextLineStyle::Double => "line-through double",
        TextLineStyle::Thick => "line-through",
        TextLineStyle::Dotted => "line-through dotted",
        TextLineStyle::Dashed => "line-through dashed",
    }
}

} // verus!
