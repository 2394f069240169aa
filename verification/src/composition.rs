//! Stack composition: the two stack directions, the spacer that absorbs
//! leftover space, the cross-axis alignment choices and the modifier
//! sections the stacks read.

use crate::elements::Element;
use crate::elements::Modifiers;
use crate::units::Unit;
use vstd::prelude::*;

verus! {

/// Cross-axis alignment of a vertical stack's children.
#[derive(Debug, Default, Clone, Copy, PartialEq, Eq, Structural)]
pub enum HorizontalAlignment {
    #[default]
    Leading,
    Center,
    Trailing,
}

/// Cross-axis alignment of a horizontal stack's children.
#[derive(Debug, Default, Clone, Copy, PartialEq, Eq, Structural)]
pub enum VerticalAlignment {
    #[default]
    Top,
    Center,
    Bottom,
}

/// The modifier section vertical stacks read.
#[derive(Debug, Clone, Copy, PartialEq, Eq, Structural)]
pub struct VStackModifiers {
    pub spacing: Unit,
    pub alignment: HorizontalAlignment,
}

impl Default for VStackModifiers {
    /// No spacing, children leading-aligned.
    fn default() -> (m: Self)
        ensures
            m.spacing == Unit::Absolute(0u64),
            m.alignment == HorizontalAlignment::Leading,
    {
        VStackModifiers { spacing: Unit::Absolute(0), alignment: HorizontalAlignment::Leading }
    }
}

/// The modifier section horizontal stacks read.
#[derive(Debug, Clone, Copy, PartialEq, Eq, Structural)]
pub struct HStackModifiers {
    pub spacing: Unit,
    pub alignment: VerticalAlignment,
}

impl Default for HStackModifiers {
    /// No spacing, children top-aligned.
    fn default() -> (m: Self)
        ensures
            m.spacing == Unit::Absolute(0u64),
            m.alignment == VerticalAlignment::Top,
    {
        HStackModifiers { spacing: Unit::Absolute(0), alignment: VerticalAlignment::Top }
    }
}

/// A horizontal stack: children run left to right, spaced and aligned by
/// the horizontal stack modifier section.
#[derive(Debug)]
pub struct HStack {
    pub modifiers: Modifiers,
    pub children: Vec<Element>,
}

impl HStack {
    /// A horizontal stack of the given children.
    pub fn new(modifiers: Modifiers, children: Vec<Element>) -> (s: Self)
        ensures
            s.modifiers == modifiers,
            s.children == children,
    {
        HStack { modifiers, children }
    }
}

/// A vertical stack: children run top to bottom, spaced and aligned by the
/// vertical stack modifier section.
#[derive(Debug)]
pub struct VStack {
    pub modifiers: Modifiers,
    pub children: Vec<Element>,
}

impl VStack {
    /// A vertical stack of the given children.
    pub fn new(modifiers: Modifiers, children: Vec<Element>) -> (s: Self)
        ensures
            s.modifiers == modifiers,
            s.children == children,
    {
        VStack { modifiers, children }
    }
}

/// A node with no content of its own that absorbs the leftover space along
/// its parent's main axis.
#[derive(Debug)]
pub struct Spacer {
}

impl Spacer {
    /// A spacer.
    pub fn new() -> (s: Self) {
        Spacer {  }
    }
}

} // verus!
