//! The style descriptors the constraint solver consumes: a flex direction,
//! a cross-axis alignment, per-axis gaps, padding, explicit sizing intents
//! and the grow flag a spacer uses to absorb leftover space.

use crate::units::cap;
use crate::units::cap_length;
use crate::units::mul_capped;
use crate::units::FONT_UNIT_LENGTH;
use crate::units::Unit;
use vstd::prelude::*;

verus! {

/// The main axis of a container.
#[derive(Debug, Clone, Copy, PartialEq, Eq, Structural)]
pub enum FlexDirection {
    /// Children run left to right; the cross axis is vertical.
    Row,
    /// Children run top to bottom; the cross axis is horizontal.
    Column,
}

/// Cross-axis alignment of a container's children.
#[derive(Debug, Clone, Copy, PartialEq, Eq, Structural)]
pub enum AlignItems {
    Start,
    Center,
    End,
    /// Children with an automatic cross size are stretched to the
    /// container's cross size.  This is also the behaviour when a style
    /// leaves the alignment unset.
    Stretch,
}

/// The solver's own length-or-percent-or-auto sizing type.
#[derive(Debug, Clone, Copy, PartialEq, Eq, Structural)]
pub enum Dimension {
    /// Sized by content (or stretched, for a cross axis under `Stretch`).
    Auto,
    /// A fixed length.
    Length(u64),
    /// A share of the containing size, in percent points.
    Percent(u64),
}

/// Padding, one absolute length per edge.
#[derive(Debug, Clone, Copy, PartialEq, Eq, Structural)]
pub struct Rect {
    pub top: u64,
    pub left: u64,
    pub bottom: u64,
    pub right: u64,
}

impl Rect {
    /// No padding on any edge.
    pub fn zero() -> (r: Self)
        ensures
            r == (Rect { top: 0u64, left: 0u64, bottom: 0u64, right: 0u64 }),
    {
        Rect { top: 0, left: 0, bottom: 0, right: 0 }
    }
}

/// The layout style of one solver node.
#[derive(Debug, Clone, Copy, PartialEq, Eq, Structural)]
pub struct Style {
    pub flex_direction: FlexDirection,
    /// Cross-axis alignment of the children; `None` behaves as `Stretch`.
    pub align_items: Option<AlignItems>,
    /// Gap between adjacent children of a `Row` container.
    pub gap_width: Dimension,
    /// Gap between adjacent children of a `Column` container.
    pub gap_height: Dimension,
    pub padding: Rect,
    /// Explicit sizing intent for the width; `Auto` leaves it to content.
    pub size_width: Dimension,
    /// Explicit sizing intent for the height; `Auto` leaves it to content.
    pub size_height: Dimension,
    /// Whether the node absorbs leftover space on the parent's main axis.
    pub flex_grow: bool,
}

/// The style every descriptor starts from: a row that sizes to content.
pub open spec fn spec_default_style() -> Style {
    Style {
        flex_direction: FlexDirection::Row,
        align_items: None,
        gap_width: Dimension::Length(0u64),
        gap_height: Dimension::Length(0u64),
        padding: Rect { top: 0u64, left: 0u64, bottom: 0u64, right: 0u64 },
        size_width: Dimension::Auto,
        size_height: Dimension::Auto,
        flex_grow: false,
    }
}

impl Default for Style {
    /// The style every descriptor starts from: a row that sizes to content.
    fn default() -> (s: Self)
        ensures
            s == spec_default_style(),
    {
        Style {
            flex_direction: FlexDirection::Row,
            align_items: None,
            gap_width: Dimension::Length(0),
            gap_height: Dimension::Length(0),
            padding: Rect::zero(),
            size_width: Dimension::Auto,
            size_height: Dimension::Auto,
            flex_grow: false,
        }
    }
}

/// The sizing intent a [`Unit`] converts to: fixed flavours become fixed
/// lengths (font-relative ones at [`FONT_UNIT_LENGTH`] per unit), percent
/// stays percent, and `Auto` stays automatic.
pub open spec fn spec_unit_dimension(u: Unit) -> Dimension {
    match u {
        Unit::Auto => Dimension::Auto,
        Unit::Absolute(v) => Dimension::Length(cap(v as int) as u64),
        Unit::FontRelative(v) => Dimension::Length(cap(v as int * FONT_UNIT_LENGTH as int) as u64),
        Unit::Percent(p) => Dimension::Percent(p),
    }
}

impl Unit {
    /// Convert this unit into the solver's sizing type.
    pub fn to_dimension(&self) -> (d: Dimension)
        ensures
            d == spec_unit_dimension(*self),
    {
        match *self {
            Unit::Auto => Dimension::Auto,
            Unit::Absolute(v) => Dimension::Length(cap_length(v)),
            Unit::FontRelative(v) => Dimension::Length(mul_capped(v, FONT_UNIT_LENGTH)),
            Unit::Percent(p) => Dimension::Percent(p),
        }
    }
}

} // verus!
