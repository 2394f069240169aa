//! The window root of an element tree, and the modifier section it reads
//! its title from.

use crate::elements::Element;
use crate::elements::Modifiers;
use vstd::prelude::*;

verus! {

/// The modifier section window templates read.
#[derive(Debug, PartialEq)]
pub struct WindowModifiers {
    pub title: String,
}

impl Clone for WindowModifiers {
    /// An equal copy.
    fn clone(&self) -> (r: Self)
        ensures
            r == *self,
    {
        WindowModifiers { title: self.title.clone() }
    }
}

impl Default for WindowModifiers {
    /// An empty title.
    fn default() -> (m: Self)
        ensures
            m.title@ == Seq::<char>::empty(),
    {
        WindowModifiers { title: String::new() }
    }
}

/// The root element: one window with a title, an identifier, and at most
/// one content child.
#[derive(Debug)]
pub struct WindowTemplate {
    pub id: String,
    pub title: String,
    pub modifiers: Modifiers,
    pub child: Option<Box<Element>>,
}

impl WindowTemplate {
    /// A window under the default identifier.
    pub fn new_0(modifiers: Modifiers, child: Option<Box<Element>>) -> (w: Self)
        ensures
            w.id@ == "default"@,
            w.title@ == modifiers.inner.window_template.title@,
            w.modifiers == modifiers,
            w.child == child,
    {
        Self::new_1("default", modifiers, child)
    }

    /// A window under an explicit identifier.  The title is read from the
    /// window section of the modifiers.
    pub fn new_1(id: &str, modifiers: Modifiers, child: Option<Box<Element>>) -> (w: Self)
        ensures
            w.id@ == id@,
            w.title@ == modifiers.inner.window_template.title@,
            w.modifiers == modifiers,
            w.child == child,
    {
        let title = modifiers.inner.window_template.title.clone();
        WindowTemplate { id: id.to_string(), title, modifiers, child }
    }

    /// The window's current title.
    pub fn title(&self) -> (t: String)
        ensures
            t@ == self.title@,
    {
        self.title.clone()
    }

    /// Replace the window's title.
    pub fn set_title(&mut self, title: &str)
        ensures
            final(self).title@ == title@,
            final(self).id == old(self).id,
            final(self).modifiers == old(self).modifiers,
            final(self).child == old(self).child,
    {
        self.title = title.to_string();
    }
}

} // verus!
