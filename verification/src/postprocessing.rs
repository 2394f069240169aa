//! Wrapper elements applied after a subtree is described: a background
//! fill, and padding around a single child.

use crate::color::Color;
use crate::elements::Element;
use crate::units::Unit;
use vstd::prelude::*;

verus! {

/// Paints a background color behind exactly one child.
#[derive(Debug)]
pub struct BackgroundColor {
    pub color: Color,
    pub child: Box<Element>,
}

impl BackgroundColor {
    /// Wrap `child` in a background fill of `color`.
    pub fn new(color: &Color, child: Box<Element>) -> (b: Self)
        ensures
            b.color == *color,
            b.child == child,
    {
        BackgroundColor { color: *color, child }
    }
}

/// Convenience form of [`BackgroundColor::new`].
pub fn background_color(color: Color, child: Box<Element>) -> (b: BackgroundColor)
    ensures
        b.color == color,
        b.child == child,
{
    BackgroundColor::new(&color, child)
}

/// Pads exactly one child, one unit per edge.
#[derive(Debug)]
pub struct Padding {
    pub top: Unit,
    pub bottom: Unit,
    pub left: Unit,
    pub right: Unit,
    pub child: Box<Element>,
}

impl Padding {
    /// Padding with an explicit unit per edge.
    pub fn new(top: Unit, bottom: Unit, left: Unit, right: Unit, child: Box<Element>) -> (p: Self)
        ensures
            p.top == top,
            p.bottom == bottom,
            p.left == left,
            p.right == right,
            p.child == child,
    {
        Padding { top, bottom, left, right, child }
    }

    /// One font unit of padding on every edge.
    pub fn new_0(child: Box<Element>) -> (p: Self)
        ensures
            p.top == Unit::FontRelative(1u64),
            p.bottom == Unit::FontRelative(1u64),
            p.left == Unit::FontRelative(1u64),
            p.right == Unit::FontRelative(1u64),
            p.child == child,
    {
        Padding {
            top: Unit::FontRelative(1),
            bottom: Unit::FontRelative(1),
            left: Unit::FontRelative(1),
            right: Unit::FontRelative(1),
            child,
        }
    }

    /// The same unit of padding on every edge.
    pub fn new_1(units: Unit, child: Box<Element>) -> (p: Self)
        ensures
            p.top == units,
            p.bottom == units,
            p.left == units,
            p.right == units,
            p.child == child,
    {
        Padding { top: units, bottom: units, left: units, right: units, child }
    }

    /// One unit for top and bottom, another for left and right.
    pub fn new_2(top_bottom: Unit, left_right: Unit, child: Box<Element>) -> (p: Self)
        ensures
            p.top == top_bottom,
            p.bottom == top_bottom,
            p.left == left_right,
            p.right == left_right,
            p.child == child,
    {
        Padding { top: top_bottom, bottom: top_bottom, left: left_right, right: left_right, child }
    }
}

} // verus!
