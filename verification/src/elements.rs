//! The element layer: the declarative tree an application builds, and the
//! forkable modifier state threaded through its construction.  A subtree
//! forks the modifiers, mutates its own copy, and leaves the ancestors'
//! configuration untouched.

use crate::color::Color;
use crate::composition::HStack;
use crate::composition::HStackModifiers;
use crate::composition::HorizontalAlignment;
use crate::composition::VStack;
use crate::composition::VStackModifiers;
use crate::composition::VerticalAlignment;
use crate::font::Font;
use crate::font::FontInner;
use crate::postprocessing::BackgroundColor;
use crate::postprocessing::Padding;
use crate::runtime::WindowModifiers;
use crate::runtime::WindowTemplate;
use crate::composition::Spacer;
use crate::text::TextDecoration;
use crate::text::TextLineStyle;
use crate::text::TextModifiers;
use crate::units::Unit;
use vstd::prelude::*;

verus! {

impl Clone for FontInner {
    /// An equal copy.
    fn clone(&self) -> (r: Self)
        ensures
            r == *self,
    {
        FontInner {
            name: self.name.clone(),
            size: self.size,
            weight: self.weight,
            italicized: self.italicized,
            underlined: self.underlined,
        }
    }
}

impl Clone for Font {
    /// An equal copy.
    fn clone(&self) -> (r: Self)
        ensures
            r == *self,
    {
        Font { inner: self.inner.clone() }
    }
}

impl Clone for TextModifiers {
    /// An equal copy.
    fn clone(&self) -> (r: Self)
        ensures
            r == *self,
    {
        TextModifiers {
            font: self.font.clone(),
            color: self.color,
            decoration: self.decoration,
        }
    }
}

/// The named modifier sections, one per element category.
#[derive(Debug, PartialEq)]
pub struct ModifiersInner {
    pub text: TextModifiers,
    pub v_stack: VStackModifiers,
    pub h_stack: HStackModifiers,
    pub window_template: WindowModifiers,
}

impl Clone for ModifiersInner {
    /// An equal copy.
    fn clone(&self) -> (r: Self)
        ensures
            r == *self,
    {
        ModifiersInner {
            text: self.text.clone(),
            v_stack: self.v_stack,
            h_stack: self.h_stack,
            window_template: self.window_template.clone(),
        }
    }
}

impl Default for ModifiersInner {
    /// Every section at its own default.
    fn default() -> (m: Self)
        ensures
            m.v_stack.spacing == Unit::Absolute(0u64),
            m.v_stack.alignment == HorizontalAlignment::Leading,
            m.h_stack.spacing == Unit::Absolute(0u64),
            m.h_stack.alignment == VerticalAlignment::Top,
            m.window_template.title@ == Seq::<char>::empty(),
            m.text.color == Color::Text,
            m.text.decoration.underline.style == TextLineStyle::NoLine,
            m.text.decoration.strike_through.style == TextLineStyle::NoLine,
    {
        ModifiersInner {
            text: TextModifiers::default(),
            v_stack: VStackModifiers::default(),
            h_stack: HStackModifiers::default(),
            window_template: WindowModifiers::default(),
        }
    }
}

/// The forkable configuration value passed down a build.  Forking yields an
/// independent deep copy, so a subtree can restyle itself without touching
/// its ancestors or siblings.
#[derive(Debug, PartialEq)]
pub struct Modifiers {
    pub inner: ModifiersInner,
}

impl Modifiers {
    /// An independent copy equal to this one.
    pub fn fork(&self) -> (r: Self)
        ensures
            r == *self,
    {
        Modifiers { inner: self.inner.clone() }
    }
}

impl Clone for Modifiers {
    /// An equal copy.
    fn clone(&self) -> (r: Self)
        ensures
            r == *self,
    {
        self.fork()
    }
}

impl Default for Modifiers {
    /// Every section at its own default.
    fn default() -> (m: Self)
        ensures
            m.inner.v_stack.spacing == Unit::Absolute(0u64),
            m.inner.v_stack.alignment == HorizontalAlignment::Leading,
            m.inner.h_stack.spacing == Unit::Absolute(0u64),
            m.inner.h_stack.alignment == VerticalAlignment::Top,
            m.inner.window_template.title@ == Seq::<char>::empty(),
            m.inner.text.color == Color::Text,
            m.inner.text.decoration.underline.style == TextLineStyle::NoLine,
            m.inner.text.decoration.strike_through.style == TextLineStyle::NoLine,
    {
        Modifiers { inner: ModifiersInner::default() }
    }
}

/// A text leaf: its contents, styled by the text modifier section.
#[derive(Debug)]
pub struct Text {
    pub contents: String,
    pub modifiers: Modifiers,
}

impl Text {
    /// A text element with the given contents.
    pub fn new(contents: &str, modifiers: Modifiers) -> (t: Self)
        ensures
            t.contents@ == contents@,
            t.modifiers == modifiers,
    {
        Text { contents: contents.to_string(), modifiers }
    }

    /// The resolved font of this element.
    pub fn font(&self) -> (f: Font)
        ensures
            f == self.modifiers.inner.text.font,
    {
        self.modifiers.inner.text.font.clone()
    }
}

/// A generic container view with no styling of its own.
#[derive(Debug)]
pub struct ViewContainer {
    pub children: Vec<Element>,
}

impl ViewContainer {
    /// A plain container around the given children.
    pub fn new(children: Vec<Element>) -> (v: Self)
        ensures
            v.children == children,
    {
        ViewContainer { children }
    }
}

/// One node of the declarative tree.  Each variant owns its children
/// exclusively: the tree is a tree, not a graph.
#[derive(Debug)]
pub enum Element {
    Text(Text),
    HStack(HStack),
    VStack(VStack),
    Spacer(Spacer),
    BackgroundColor(BackgroundColor),
    Padding(Padding),
    Window(WindowTemplate),
    View(ViewContainer),
}

impl Element {
    /// The element's markup tag.
    pub fn name(&self) -> (r: &'static str)
        ensures
            r@ == match self {
                Element::Text(_) => "text"@,
                Element::HStack(_) => "h_stack"@,
                Element::VStack(_) => "v_stack"@,
                Element::Spacer(_) => "spacer"@,
                Element::BackgroundColor(_) => "background_color"@,
                Element::Padding(_) => "padding"@,
                Element::Window(_) => "window"@,
                Element::View(_) => "view"@,
            },
    {
        match self {
            Element::Text(_) => "text",
            Element::HStack(_) => "h_stack",
            Element::VStack(_) => "v_stack",
            Element::Spacer(_) => "spacer",
            Element::BackgroundColor(_) => "background_color",
            Element::Padding(_) => "padding",
            Element::Window(_) => "window",
            Element::View(_) => "view",
        }
    }

    /// The element's human-readable name.
    pub fn display_name(&self) -> (r: &'static str)
        ensures
            r@ == match self {
                Element::Text(_) => "Text"@,
                Element::HStack(_) => "HStack"@,
                Element::VStack(_) => "VStack"@,
                Element::Spacer(_) => "Spacer"@,
                Element::BackgroundColor(_) => "Background Color"@,
                Element::Padding(_) => "Padding"@,
                Element::Window(_) => "Window"@,
                Element::View(_) => "View"@,
            },
    {
        match self {
            Element::Text(_) => "Text",
            Element::HStack(_) => "HStack",
            Element::VStack(_) => "VStack",
            Element::Spacer(_) => "Spacer",
            Element::BackgroundColor(_) => "Background Color",
            Element::Padding(_) => "Padding",
            Element::Window(_) => "Window",
            Element::View(_) => "View",
        }
    }

    /// How many children the element hands to the shadow tree builder.
    pub fn child_count(&self) -> (n: usize)
        ensures
            n == match self {
                Element::Text(_) => 0int,
                Element::HStack(s) => s.children@.len() as int,
                Element::VStack(s) => s.children@.len() as int,
                Element::Spacer(_) => 0int,
                Element::BackgroundColor(_) => 1int,
                Element::Padding(_) => 1int,
                Element::Window(w) => if w.child is Some {
                    1int
                } else {
                    0int
                },
                Element::View(v) => v.children@.len() as int,
            },
    {
        match self {
            Element::Text(_) => 0,
            Element::HStack(s) => s.children.len(),
            Element::VStack(s) => s.children.len(),
            Element::Spacer(_) => 0,
            Element::BackgroundColor(_) => 1,
            Element::Padding(_) => 1,
            Element::Window(w) => if w.child.is_some() {
                1
            } else {
                0
            },
            Element::View(v) => v.children.len(),
        }
    }
}

} // verus!
