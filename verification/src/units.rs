//! The unit model: a length is absolute, a fraction of the available space,
//! font-relative, or automatic.  Resolution turns a unit into an absolute
//! length when it can, and into an explicit sentinel when it cannot, so that
//! misuse is detectable instead of silently propagating as zero.
//!
//! All lengths are integers capped at [`MAX_LENGTH`]; every sum and product
//! in the toolkit saturates there, so no arithmetic ever wraps.

use vstd::prelude::*;

verus! {

/// The largest absolute length the toolkit computes with.  Every resolved
/// length, size and position is capped at this value.
pub const MAX_LENGTH: u64 = 0xFFFF_FFFF;

/// Number of percent points that stand for the whole of the available
/// space: `Unit::Percent(PERCENT_WHOLE)` requests all of it.
pub const PERCENT_WHOLE: u64 = 100;

/// Absolute length of one font-relative unit.
pub const FONT_UNIT_LENGTH: u64 = 16;

/// `x` capped at [`MAX_LENGTH`].
pub open spec fn cap(x: int) -> int {
    if x > MAX_LENGTH as int {
        MAX_LENGTH as int
    } else {
        x
    }
}

/// `a - b`, saturating at zero.
pub open spec fn sat_sub(a: int, b: int) -> int {
    if a >= b {
        a - b
    } else {
        0
    }
}

/// The capped share `p` percent points of `a`.
pub open spec fn pct(a: int, p: int) -> int {
    cap((a * p) / (PERCENT_WHOLE as int))
}

/// A length in one of the four unit flavours.  `Percent` and `FontRelative`
/// carry their factor as an integer: `Percent(50)` is half of the available
/// space, `FontRelative(2)` is two font units.
#[derive(Debug, Clone, Copy, PartialEq, Eq, Structural)]
pub enum Unit {
    /// Let the constraint solver decide.
    Auto,
    /// A fixed absolute length.
    Absolute(u64),
    /// A share of the available space, in percent points.
    Percent(u64),
    /// A multiple of [`FONT_UNIT_LENGTH`].
    FontRelative(u64),
}

/// What resolving a [`Unit`] yields.  The two sentinels replace the
/// floating-point infinity and NaN a pixel-typed engine would use: a
/// `Percent` asked to resolve without a reference is `Unbounded`, and
/// `Auto` never resolves to a number at all.
#[derive(Debug, Clone, Copy, PartialEq, Eq, Structural)]
pub enum Resolved {
    /// A concrete absolute length, at most [`MAX_LENGTH`].
    Finite(u64),
    /// No bound: a fraction of an absent reference.
    Unbounded,
    /// Not a length: automatic sizing is the solver's decision.
    Undefined,
}

/// What [`Unit::to_pixels`] returns, for every unit and every reference.
pub open spec fn spec_to_pixels(u: Unit, available: Option<u64>) -> Resolved {
    match u {
        Unit::Auto => Resolved::Undefined,
        Unit::Absolute(v) => Resolved::Finite(cap(v as int) as u64),
        Unit::FontRelative(v) => Resolved::Finite(cap(v as int * FONT_UNIT_LENGTH as int) as u64),
        Unit::Percent(p) => match available {
            Option::None => Resolved::Unbounded,
            Option::Some(a) => Resolved::Finite(pct(a as int, p as int) as u64),
        },
    }
}

impl Resolved {
    /// The finite length, or the given stand-in for either sentinel:
    /// `unbounded` for `Unbounded` and `undefined` for `Undefined`.
    pub fn finite_or(self, unbounded: u64, undefined: u64) -> (r: u64)
        ensures
            r == match self {
                Resolved::Finite(v) => v,
                Resolved::Unbounded => unbounded,
                Resolved::Undefined => undefined,
            },
    {
        match self {
            Resolved::Finite(v) => v,
            Resolved::Unbounded => unbounded,
            Resolved::Undefined => undefined,
        }
    }
}

impl Unit {
    /// An absolute length.
    pub fn px(x: u64) -> (r: Self)
        ensures
            r == Unit::Absolute(x),
    {
        Unit::Absolute(x)
    }

    /// A font-relative length.
    pub fn em(x: u64) -> (r: Self)
        ensures
            r == Unit::FontRelative(x),
    {
        Unit::FontRelative(x)
    }

    /// A share of the available space, in percent points.
    pub fn percent(x: u64) -> (r: Self)
        ensures
            r == Unit::Percent(x),
    {
        Unit::Percent(x)
    }

    /// Resolve this unit against an optional reference length.  Total: the
    /// sentinels of [`Resolved`] stand in for the lengths that do not exist.
    pub fn to_pixels(&self, available: Option<u64>) -> (r: Resolved)
        ensures
            r == spec_to_pixels(*self, available),
    {
        match *self {
            Unit::Auto => Resolved::Undefined,
            Unit::Absolute(v) => Resolved::Finite(cap_length(v)),
            Unit::FontRelative(v) => Resolved::Finite(mul_capped(v, FONT_UNIT_LENGTH)),
            Unit::Percent(p) => match available {
                Option::None => Resolved::Unbounded,
                Option::Some(a) => Resolved::Finite(percent_of(a, p)),
            },
        }
    }
}

/// A width and a height in absolute length units.
#[derive(Debug, Clone, Copy, PartialEq, Eq, Structural)]
pub struct Size {
    pub width: u64,
    pub height: u64,
}

/// Capped sums may be taken in any order: capping an intermediate sum of
/// nonnegative terms never changes the capped total.
pub proof fn lemma_cap_add_assoc(a: int, b: int, c: int)
    requires
        a >= 0,
        b >= 0,
        c >= 0,
    ensures
        cap(cap(a + b) + c) == cap(a + b + c),
        cap(a + cap(b + c)) == cap(a + b + c),
{
}

/// `x` capped at [`MAX_LENGTH`].
pub fn cap_length(x: u64) -> (r: u64)
    ensures
        r == cap(x as int),
{
    if x > MAX_LENGTH {
        MAX_LENGTH
    } else {
        x
    }
}

/// The capped sum of two lengths.
pub fn add_capped(a: u64, b: u64) -> (r: u64)
    ensures
        r == cap(a as int + b as int),
{
    if a > MAX_LENGTH {
        MAX_LENGTH
    } else if b > MAX_LENGTH - a {
        MAX_LENGTH
    } else {
        a + b
    }
}

/// The capped product of two lengths.
pub fn mul_capped(a: u64, b: u64) -> (r: u64)
    ensures
        r == cap(a as int * b as int),
{
    proof {
        assert((a as int) * (b as int) <= (u64::MAX as int) * (u64::MAX as int))
            by (nonlinear_arith)
            requires
                0 <= a as int <= u64::MAX as int,
                0 <= b as int <= u64::MAX as int,
        ;
    }
    let wide: u128 = (a as u128) * (b as u128);
    if wide > MAX_LENGTH as u128 {
        MAX_LENGTH
    } else {
        wide as u64
    }
}

/// `a - b`, saturating at zero.
pub fn sub_saturating(a: u64, b: u64) -> (r: u64)
    ensures
        r == sat_sub(a as int, b as int),
{
    if a >= b {
        a - b
    } else {
        0
    }
}

/// The capped share `p` percent points of `a`.
pub fn percent_of(a: u64, p: u64) -> (r: u64)
    ensures
        r == pct(a as int, p as int),
{
    proof {
        assert((a as int) * (p as int) <= (u64::MAX as int) * (u64::MAX as int))
            by (nonlinear_arith)
            requires
                0 <= a as int <= u64::MAX as int,
                0 <= p as int <= u64::MAX as int,
        ;
    }
    let wide: u128 = ((a as u128) * (p as u128)) / (PERCENT_WHOLE as u128);
    if wide > MAX_LENGTH as u128 {
        MAX_LENGTH
    } else {
        wide as u64
    }
}

} // verus!
