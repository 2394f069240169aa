//! A declarative UI toolkit core: an element tree is lowered into a shadow
//! tree, per-node preferred and minimum dimensions are resolved from a small
//! unit model together with platform text metrics, and a flexbox-style
//! constraint solve turns the result into a position and a size for every
//! node.  The same shadow tree is re-solved on every resize without being
//! rebuilt.

pub mod color;
pub mod composition;
pub mod conv;
pub mod elements;
pub mod font;
pub mod laws;
pub mod measure;
pub mod pal;
pub mod postprocessing;
pub mod runtime;
pub mod shadow;
pub mod solve;
pub mod style;
pub mod tree;
pub mod text;
pub mod units;

use vstd::prelude::*;

verus! {

/// The native platform a build of the toolkit targets.
#[derive(Debug, Clone, Copy, PartialEq, Eq, Structural)]
pub enum Backend {
    WinUI,
    Apple,
    Android,
    Wayland,
    X11,
}

} // verus!
