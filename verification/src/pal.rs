//! The platform abstraction the core consumes: intrinsic text measurement.
//! A backend supplies the measurement from its native text system; the
//! bundled monospace measurer is a deterministic stand-in for headless use
//! and for driving the layout passes in tests.

use crate::font::Font;
use crate::units::cap;
use crate::units::mul_capped;
use crate::units::Size;
use crate::units::MAX_LENGTH;
use vstd::prelude::*;

verus! {

/// The platform text-measurement collaborator.  An implementation returns
/// the intrinsic size of a run of text in the given font: always
/// synchronous, always a finite size no larger than [`MAX_LENGTH`] per
/// axis.  A backend that cannot honour the font is expected to substitute
/// a fallback and still return a valid size.
pub trait TextMeasurer {
    /// Measure the intrinsic content size of `content` set in `font`.
    fn measure_text(&mut self, content: &str, font: &Font) -> (r: Size)
        ensures
            r.width <= MAX_LENGTH,
            r.height <= MAX_LENGTH,
    ;
}

/// A deterministic measurer that sizes text on a monospaced grid: every
/// character advances by half the font size, rounded up, and a line is two
/// length units taller than the font size.
pub struct MonospaceMeasurer {
}

/// The width [`MonospaceMeasurer`] reports: characters times half the
/// font size rounded up, capped.
pub open spec fn spec_monospace_width(content: Seq<char>, font_size: u32) -> int {
    cap(content.len() as int * ((font_size as int + 1) / 2))
}

/// The height [`MonospaceMeasurer`] reports: the font size plus two,
/// capped.
pub open spec fn spec_monospace_height(font_size: u32) -> int {
    cap(font_size as int + 2)
}

impl TextMeasurer for MonospaceMeasurer {
    /// The grid measure of the text: exactly the two formulas above.
    fn measure_text(&mut self, content: &str, font: &Font) -> (r: Size)
        ensures
            r.width <= MAX_LENGTH,
            r.height <= MAX_LENGTH,
            r.width == spec_monospace_width(content@, font.inner.size),
            r.height == spec_monospace_height(font.inner.size),
    {
        let advance: u64 = ((font.size() as u64) + 1) / 2;
        let chars: usize = content.unicode_len();
        let width = mul_capped(chars as u64, advance);
        let height = crate::units::add_capped(font.size() as u64, 2);
        Size { width, height }
    }
}

} // verus!
