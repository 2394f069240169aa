//! The measurement protocol: per node kind, how large a subtree wants to
//! be, and how small it can get.
//!
//! `request_dimensions` answers "what do you want when space is generous":
//! text reports its measured intrinsic size, a spacer asks for all of the
//! available space on both axes, a stack sums its non-spacer children
//! along the main axis (handing each child the space the ones before it
//! left over) and takes the cross-axis maximum, and a stack holding any
//! spacer asks for the full main axis instead of the sum.
//!
//! `request_minimum_dimensions` answers "how small can you get": the same
//! recursion, but a spacer contributes zero.  The two questions cannot be
//! one query because spacers behave oppositely under them.

use crate::shadow::lemma_forest_child;
use crate::shadow::lemma_forest_singleton;
use crate::shadow::lemma_forest_prefix_monotone;
use crate::shadow::lemma_tree_size_pos;
use crate::shadow::forest_size;
use crate::shadow::low_id;
use crate::shadow::tree_size;
use crate::shadow::well_formed;
use crate::shadow::spec_resolved_edge;
use crate::shadow::NodeKind;
use crate::shadow::ShadowNode;
use crate::style::Dimension;
use crate::style::Style;
use crate::tree::ShadowTree;
use crate::tree::SolverNode;
use crate::units::add_capped;
use crate::units::cap;
use crate::units::cap_length;
use crate::units::lemma_cap_add_assoc;
use crate::units::mul_capped;
use crate::units::pct;
use crate::units::percent_of;
use crate::units::sat_sub;
use crate::units::sub_saturating;
use crate::units::Unit;
use crate::units::FONT_UNIT_LENGTH;
use crate::units::MAX_LENGTH;
use crate::units::PERCENT_WHOLE;
use vstd::prelude::*;

verus! {

/// The absolute length a unit yields against a definite reference, as the
/// sizing passes use it: fixed flavours resolve on their own, percent takes
/// its share of the reference, and `Auto` contributes nothing.
pub open spec fn spec_px(u: Unit, avail: int) -> int {
    match u {
        Unit::Auto => 0,
        Unit::Absolute(v) => cap(v as int),
        Unit::FontRelative(v) => cap(v as int * FONT_UNIT_LENGTH as int),
        Unit::Percent(p) => pct(avail, p as int),
    }
}

/// Resolve a unit against a definite reference length.
fn resolve_px(u: &Unit, avail: u64) -> (r: u64)
    ensures
        r as int == spec_px(*u, avail as int),
        r <= MAX_LENGTH,
    {
    match *u {
        Unit::Auto => 0,
        Unit::Absolute(v) => cap_length(v),
        Unit::FontRelative(v) => mul_capped(v, FONT_UNIT_LENGTH),
        Unit::Percent(p) => percent_of(avail, p),
    }
}

/// Against a nonnegative reference, a unit resolves within bounds.
pub proof fn lemma_spec_px_bounds(u: Unit, avail: int)
    requires
        avail >= 0,
    ensures
        0 <= spec_px(u, avail) <= MAX_LENGTH as int,
{
    match u {
        Unit::Percent(p) => {
            assert(avail * (p as int) >= 0) by (nonlinear_arith)
                requires
                    avail >= 0,
                    p as int >= 0,
            ;
        },
        _ => {},
    }
}

/// What the measurement protocol can visit: no generic views, and every
/// window, background and padding wrapper has the child it recurses into.
pub open spec fn measurable(n: ShadowNode) -> bool
    decreases n,
{
    match n.kind {
        NodeKind::View => false,
        NodeKind::Window { .. } => n.children@.len() >= 1 && measurable(n.children@[0]),
        NodeKind::BackgroundColor { .. } => n.children@.len() >= 1 && measurable(n.children@[0]),
        NodeKind::Padding { .. } => n.children@.len() >= 1 && measurable(n.children@[0]),
        NodeKind::HStack { .. } => forall|k: int|
            0 <= k < n.children@.len() ==> measurable(#[trigger] n.children@[k]),
        NodeKind::VStack { .. } => forall|k: int|
            0 <= k < n.children@.len() ==> measurable(#[trigger] n.children@[k]),
        NodeKind::Text { .. } => true,
        NodeKind::Spacer => true,
    }
}

/// Walk a horizontal stack's children left to right: the capped sum of the
/// non-spacer children's resolved widths, the maximum of their resolved
/// heights, and whether a spacer was seen.  Each child is measured against
/// what the children before it left of the width, less one spacing each.
pub open spec fn spec_hstack_children(cs: Seq<ShadowNode>, remaining: int, ah: int, gap: int) -> (
    int,
    int,
    bool,
)
    decreases cs, 0int,
{
    if cs.len() == 0 {
        (0, 0, false)
    } else {
        let rest_seq = cs.subrange(1, cs.len() as int);
        if cs[0].kind is Spacer {
            let rest = spec_hstack_children(rest_seq, remaining, ah, gap);
            (rest.0, rest.1, true)
        } else {
            let d = spec_request_dimensions(cs[0], remaining, ah);
            let cw = spec_px(d.0, remaining);
            let ch = spec_px(d.1, ah);
            let rest = spec_hstack_children(rest_seq, sat_sub(remaining, cw + gap), ah, gap);
            (cap(cw + rest.0), if ch > rest.1 {
                ch
            } else {
                rest.1
            }, rest.2)
        }
    }
}

/// Walk a vertical stack's children top to bottom, symmetrically: widths
/// take the maximum, heights are summed with the remaining height shrinking.
pub open spec fn spec_vstack_children(cs: Seq<ShadowNode>, aw: int, remaining: int, gap: int) -> (
    int,
    int,
    bool,
)
    decreases cs, 0int,
{
    if cs.len() == 0 {
        (0, 0, false)
    } else {
        let rest_seq = cs.subrange(1, cs.len() as int);
        if cs[0].kind is Spacer {
            let rest = spec_vstack_children(rest_seq, aw, remaining, gap);
            (rest.0, rest.1, true)
        } else {
            let d = spec_request_dimensions(cs[0], aw, remaining);
            let cw = spec_px(d.0, aw);
            let ch = spec_px(d.1, remaining);
            let rest = spec_vstack_children(rest_seq, aw, sat_sub(remaining, ch + gap), gap);
            (if cw > rest.0 {
                cw
            } else {
                rest.0
            }, cap(ch + rest.1), rest.2)
        }
    }
}

/// The spacing added along a stack's main axis: one gap between each pair
/// of adjacent children, spacers included.
pub open spec fn spec_total_gap(gap: int, count: int) -> int {
    if count > 1 {
        cap(gap * (count - 1))
    } else {
        0
    }
}

/// Assemble a horizontal stack's request from the walk of its children: a
/// stack holding a spacer requests the full available width, any other the
/// capped sum plus spacing.
pub open spec fn spec_hstack_request(cs: Seq<ShadowNode>, aw: int, ah: int, gap: int) -> (
    Unit,
    Unit,
)
    decreases cs, 1int,
{
    let walk = spec_hstack_children(cs, aw, ah, gap);
    let h = Unit::Absolute(walk.1 as u64);
    if walk.2 {
        (Unit::Percent(PERCENT_WHOLE), h)
    } else {
        (Unit::Absolute(cap(walk.0 + spec_total_gap(gap, cs.len() as int)) as u64), h)
    }
}

/// Assemble a vertical stack's request, symmetrically on the height.
pub open spec fn spec_vstack_request(cs: Seq<ShadowNode>, aw: int, ah: int, gap: int) -> (
    Unit,
    Unit,
)
    decreases cs, 1int,
{
    let walk = spec_vstack_children(cs, aw, ah, gap);
    let w = Unit::Absolute(walk.0 as u64);
    if walk.2 {
        (w, Unit::Percent(PERCENT_WHOLE))
    } else {
        (w, Unit::Absolute(cap(walk.1 + spec_total_gap(gap, cs.len() as int)) as u64))
    }
}

/// What a subtree answers when asked how large it wants to be in the given
/// available space.
pub open spec fn spec_request_dimensions(n: ShadowNode, aw: int, ah: int) -> (Unit, Unit)
    decreases n, 2int,
{
    match n.kind {
        NodeKind::Text { .. } => (
            Unit::Absolute(n.intrinsic.width),
            Unit::Absolute(n.intrinsic.height),
        ),
        NodeKind::Spacer => (Unit::Percent(PERCENT_WHOLE), Unit::Percent(PERCENT_WHOLE)),
        NodeKind::HStack { spacing, .. } => spec_hstack_request(
            n.children@,
            aw,
            ah,
            spec_resolved_edge(spacing) as int,
        ),
        NodeKind::VStack { spacing, .. } => spec_vstack_request(
            n.children@,
            aw,
            ah,
            spec_resolved_edge(spacing) as int,
        ),
        NodeKind::Padding { top, left, bottom, right } => {
            if n.children@.len() >= 1 {
                let iw = sat_sub(aw, left as int + right as int);
                let ih = sat_sub(ah, top as int + bottom as int);
                let d = spec_request_dimensions(n.children@[0], iw, ih);
                let w = spec_px(d.0, iw);
                let h = spec_px(d.1, ih);
                (
                    Unit::Absolute(cap(w + left as int + right as int) as u64),
                    Unit::Absolute(cap(h + top as int + bottom as int) as u64),
                )
            } else {
                (Unit::Absolute(0u64), Unit::Absolute(0u64))
            }
        },
        NodeKind::Window { .. } => {
            if n.children@.len() >= 1 {
                spec_request_dimensions(n.children@[0], aw, ah)
            } else {
                (Unit::Absolute(0u64), Unit::Absolute(0u64))
            }
        },
        NodeKind::BackgroundColor { .. } => {
            if n.children@.len() >= 1 {
                spec_request_dimensions(n.children@[0], aw, ah)
            } else {
                (Unit::Absolute(0u64), Unit::Absolute(0u64))
            }
        },
        NodeKind::View => (Unit::Absolute(0u64), Unit::Absolute(0u64)),
    }
}

/// The request of a measurable subtree is an `Absolute` or `Percent` unit
/// per axis, with any `Absolute` payload within bounds.
pub open spec fn spec_dim_ok(u: Unit) -> bool {
    match u {
        Unit::Absolute(v) => v <= MAX_LENGTH,
        Unit::Percent(p) => p == PERCENT_WHOLE,
        _ => false,
    }
}

/// The walk of a stack's children stays within bounds on both axes.
pub proof fn lemma_hstack_children_bounds(cs: Seq<ShadowNode>, remaining: int, ah: int, gap: int)
    requires
        remaining >= 0,
        ah >= 0,
        gap >= 0,
    ensures
        0 <= spec_hstack_children(cs, remaining, ah, gap).0 <= MAX_LENGTH as int,
        0 <= spec_hstack_children(cs, remaining, ah, gap).1 <= MAX_LENGTH as int,
    decreases cs,
{
    if cs.len() > 0 {
        let rest_seq = cs.subrange(1, cs.len() as int);
        if cs[0].kind is Spacer {
            lemma_hstack_children_bounds(rest_seq, remaining, ah, gap);
        } else {
            let d = spec_request_dimensions(cs[0], remaining, ah);
            let cw = spec_px(d.0, remaining);
            let ch = spec_px(d.1, ah);
            lemma_spec_px_bounds(d.0, remaining);
            lemma_spec_px_bounds(d.1, ah);
            lemma_hstack_children_bounds(rest_seq, sat_sub(remaining, cw + gap), ah, gap);
        }
    }
}

/// The walk of a vertical stack's children stays within bounds.
pub proof fn lemma_vstack_children_bounds(cs: Seq<ShadowNode>, aw: int, remaining: int, gap: int)
    requires
        aw >= 0,
        remaining >= 0,
        gap >= 0,
    ensures
        0 <= spec_vstack_children(cs, aw, remaining, gap).0 <= MAX_LENGTH as int,
        0 <= spec_vstack_children(cs, aw, remaining, gap).1 <= MAX_LENGTH as int,
    decreases cs,
{
    if cs.len() > 0 {
        let rest_seq = cs.subrange(1, cs.len() as int);
        if cs[0].kind is Spacer {
            lemma_vstack_children_bounds(rest_seq, aw, remaining, gap);
        } else {
            let d = spec_request_dimensions(cs[0], aw, remaining);
            let cw = spec_px(d.0, aw);
            let ch = spec_px(d.1, remaining);
            lemma_spec_px_bounds(d.0, aw);
            lemma_spec_px_bounds(d.1, remaining);
            lemma_vstack_children_bounds(rest_seq, aw, sat_sub(remaining, ch + gap), gap);
        }
    }
}

/// Ask a subtree how large it wants to be in the given available space.
pub fn request_dimensions(node: &ShadowNode, available_width: u64, available_height: u64) -> (r: (
    Unit,
    Unit,
))
    requires
        measurable(*node),
    ensures
        r == spec_request_dimensions(*node, available_width as int, available_height as int),
    decreases *node, 1int,
{
    match &node.kind {
        NodeKind::Text { .. } => (
            Unit::Absolute(node.intrinsic.width),
            Unit::Absolute(node.intrinsic.height),
        ),
        NodeKind::Spacer => (Unit::Percent(PERCENT_WHOLE), Unit::Percent(PERCENT_WHOLE)),
        NodeKind::HStack { spacing, .. } => {
            let gap = spacing.to_pixels(None).finite_or(MAX_LENGTH, 0);
            h_stack_request_dimensions(node, available_width, available_height, gap)
        },
        NodeKind::VStack { spacing, .. } => {
            let gap = spacing.to_pixels(None).finite_or(MAX_LENGTH, 0);
            v_stack_request_dimensions(node, available_width, available_height, gap)
        },
        NodeKind::Padding { top, left, bottom, right } => {
            let t = *top;
            let l = *left;
            let b = *bottom;
            let rr = *right;
            let iw = sub_saturating(sub_saturating(available_width, l), rr);
            let ih = sub_saturating(sub_saturating(available_height, t), b);
            proof {
                assert(iw as int == sat_sub(available_width as int, l as int + rr as int));
                assert(ih as int == sat_sub(available_height as int, t as int + b as int));
            }
            let d = request_dimensions(&node.children[0], iw, ih);
            let w = resolve_px(&d.0, iw);
            let h = resolve_px(&d.1, ih);
            let rw = add_capped(add_capped(w, l), rr);
            let rh = add_capped(add_capped(h, t), b);
            proof {
                lemma_cap_add_assoc(w as int, l as int, rr as int);
                lemma_cap_add_assoc(h as int, t as int, b as int);
            }
            (Unit::Absolute(rw), Unit::Absolute(rh))
        },
        NodeKind::Window { .. } => request_dimensions(
            &node.children[0],
            available_width,
            available_height,
        ),
        NodeKind::BackgroundColor { .. } => request_dimensions(
            &node.children[0],
            available_width,
            available_height,
        ),
        NodeKind::View => (Unit::Absolute(0), Unit::Absolute(0)),
    }
}

/// Measure a horizontal stack's children and assemble its request: the
/// capped sum of non-spacer widths plus spacing, the tallest child, and
/// the full width instead of the sum when any child is a spacer.
pub fn h_stack_request_dimensions(
    node: &ShadowNode,
    available_width: u64,
    available_height: u64,
    spacing: u64,
) -> (r: (Unit, Unit))
    requires
        measurable(*node),
        node.kind is HStack,
    ensures
        r == spec_hstack_request(
            node.children@,
            available_width as int,
            available_height as int,
            spacing as int,
        ),
    decreases *node, 0int,
{
    let ghost cs = node.children@;
    let ghost goal = spec_hstack_children(
        cs,
        available_width as int,
        available_height as int,
        spacing as int,
    );
    let mut width: u64 = 0;
    let mut max_height: u64 = 0;
    let mut remaining: u64 = available_width;
    let mut spacer_count: usize = 0;
    let mut i: usize = 0;
    proof {
        lemma_hstack_children_bounds(cs, available_width as int, available_height as int,
            spacing as int);
        assert(cs.subrange(0, cs.len() as int) =~= cs);
    }
    while i < node.children.len()
        invariant
            measurable(*node),
            node.kind is HStack,
            cs == node.children@,
            i <= cs.len(),
            spacer_count <= i,
            width <= MAX_LENGTH,
            max_height <= MAX_LENGTH,
            goal == spec_hstack_children(
                cs,
                available_width as int,
                available_height as int,
                spacing as int,
            ),
            ({
                let rest = spec_hstack_children(
                    cs.subrange(i as int, cs.len() as int),
                    remaining as int,
                    available_height as int,
                    spacing as int,
                );
                &&& goal.0 == cap(width as int + rest.0)
                &&& goal.1 == if max_height as int > rest.1 {
                    max_height as int
                } else {
                    rest.1
                }
                &&& goal.2 == (spacer_count > 0 || rest.2)
            }),
        decreases cs.len() - i,
    {
        let ghost rest_pre = spec_hstack_children(
            cs.subrange(i as int, cs.len() as int),
            remaining as int,
            available_height as int,
            spacing as int,
        );
        proof {
            assert(cs.subrange(i as int, cs.len() as int)[0] == cs[i as int]);
            assert(cs.subrange(i as int, cs.len() as int).subrange(
                1,
                cs.len() - i,
            ) =~= cs.subrange(i as int + 1, cs.len() as int));
        }
        let child = &node.children[i];
        if matches!(&child.kind, NodeKind::Spacer) {
            spacer_count = spacer_count + 1;
        } else {
            let d = request_dimensions(child, remaining, available_height);
            let cw = resolve_px(&d.0, remaining);
            let ch = resolve_px(&d.1, available_height);
            if ch > max_height {
                max_height = ch;
            }
            proof {
                let rest_next = spec_hstack_children(
                    cs.subrange(i as int + 1, cs.len() as int),
                    sat_sub(remaining as int, cw as int + spacing as int),
                    available_height as int,
                    spacing as int,
                );
                lemma_hstack_children_bounds(
                    cs.subrange(i as int + 1, cs.len() as int),
                    sat_sub(remaining as int, cw as int + spacing as int),
                    available_height as int,
                    spacing as int,
                );
                lemma_cap_add_assoc(width as int, cw as int, rest_next.0);
            }
            let new_width = add_capped(width, cw);
            width = new_width;
            remaining = sub_saturating(sub_saturating(remaining, cw), spacing);
        }
        i = i + 1;
    }
    proof {
        assert(cs.subrange(cs.len() as int, cs.len() as int) =~= Seq::<ShadowNode>::empty());
        assert(goal.0 == width as int);
        assert(goal.1 == max_height as int);
        assert(goal.2 == (spacer_count > 0));
    }
    if spacer_count > 0 {
        (Unit::Percent(PERCENT_WHOLE), Unit::Absolute(max_height))
    } else {
        let mut total = width;
        if node.children.len() > 1 {
            let extra = mul_capped(spacing, (node.children.len() - 1) as u64);
            total = add_capped(total, extra);
        }
        (Unit::Absolute(total), Unit::Absolute(max_height))
    }
}

/// Measure a vertical stack's children and assemble its request,
/// symmetrically on the height.
pub fn v_stack_request_dimensions(
    node: &ShadowNode,
    available_width: u64,
    available_height: u64,
    spacing: u64,
) -> (r: (Unit, Unit))
    requires
        measurable(*node),
        node.kind is VStack,
    ensures
        r == spec_vstack_request(
            node.children@,
            available_width as int,
            available_height as int,
            spacing as int,
        ),
    decreases *node, 0int,
{
    let ghost cs = node.children@;
    let ghost goal = spec_vstack_children(
        cs,
        available_width as int,
        available_height as int,
        spacing as int,
    );
    let mut max_width: u64 = 0;
    let mut height: u64 = 0;
    let mut remaining: u64 = available_height;
    let mut spacer_count: usize = 0;
    let mut i: usize = 0;
    proof {
        lemma_vstack_children_bounds(cs, available_width as int, available_height as int,
            spacing as int);
        assert(cs.subrange(0, cs.len() as int) =~= cs);
    }
    while i < node.children.len()
        invariant
            measurable(*node),
            node.kind is VStack,
            cs == node.children@,
            i <= cs.len(),
            spacer_count <= i,
            max_width <= MAX_LENGTH,
            height <= MAX_LENGTH,
            goal == spec_vstack_children(
                cs,
                available_width as int,
                available_height as int,
                spacing as int,
            ),
            ({
                let rest = spec_vstack_children(
                    cs.subrange(i as int, cs.len() as int),
                    available_width as int,
                    remaining as int,
                    spacing as int,
                );
                &&& goal.0 == if max_width as int > rest.0 {
                    max_width as int
                } else {
                    rest.0
                }
                &&& goal.1 == cap(height as int + rest.1)
                &&& goal.2 == (spacer_count > 0 || rest.2)
            }),
        decreases cs.len() - i,
    {
        proof {
            assert(cs.subrange(i as int, cs.len() as int)[0] == cs[i as int]);
            assert(cs.subrange(i as int, cs.len() as int).subrange(
                1,
                cs.len() - i,
            ) =~= cs.subrange(i as int + 1, cs.len() as int));
        }
        let child = &node.children[i];
        if matches!(&child.kind, NodeKind::Spacer) {
            spacer_count = spacer_count + 1;
        } else {
            let d = request_dimensions(child, available_width, remaining);
            let cw = resolve_px(&d.0, available_width);
            let ch = resolve_px(&d.1, remaining);
            if cw > max_width {
                max_width = cw;
            }
            proof {
                let rest_next = spec_vstack_children(
                    cs.subrange(i as int + 1, cs.len() as int),
                    available_width as int,
                    sat_sub(remaining as int, ch as int + spacing as int),
                    spacing as int,
                );
                lemma_vstack_children_bounds(
                    cs.subrange(i as int + 1, cs.len() as int),
                    available_width as int,
                    sat_sub(remaining as int, ch as int + spacing as int),
                    spacing as int,
                );
                lemma_cap_add_assoc(height as int, ch as int, rest_next.1);
            }
            let new_height = add_capped(height, ch);
            height = new_height;
            remaining = sub_saturating(sub_saturating(remaining, ch), spacing);
        }
        i = i + 1;
    }
    proof {
        assert(cs.subrange(cs.len() as int, cs.len() as int) =~= Seq::<ShadowNode>::empty());
    }
    if spacer_count > 0 {
        (Unit::Absolute(max_width), Unit::Percent(PERCENT_WHOLE))
    } else {
        let mut total = height;
        if node.children.len() > 1 {
            let extra = mul_capped(spacing, (node.children.len() - 1) as u64);
            total = add_capped(total, extra);
        }
        (Unit::Absolute(max_width), Unit::Absolute(total))
    }
}

/// Walk a horizontal stack's children for the minimum query: spacers
/// contribute nothing, the rest add their minimum widths and the heights
/// take the maximum.  The reference width does not shrink here.
pub open spec fn spec_hstack_min_children(cs: Seq<ShadowNode>, aw: int) -> (int, int)
    decreases cs, 0int,
{
    if cs.len() == 0 {
        (0, 0)
    } else {
        let rest = spec_hstack_min_children(cs.subrange(1, cs.len() as int), aw);
        if cs[0].kind is Spacer {
            rest
        } else {
            let m = spec_request_minimum(cs[0], aw);
            (cap(m.0 + rest.0), if m.1 > rest.1 {
                m.1
            } else {
                rest.1
            })
        }
    }
}

/// Walk a vertical stack's children for the minimum query, symmetrically.
pub open spec fn spec_vstack_min_children(cs: Seq<ShadowNode>, aw: int) -> (int, int)
    decreases cs, 0int,
{
    if cs.len() == 0 {
        (0, 0)
    } else {
        let rest = spec_vstack_min_children(cs.subrange(1, cs.len() as int), aw);
        if cs[0].kind is Spacer {
            rest
        } else {
            let m = spec_request_minimum(cs[0], aw);
            (if m.0 > rest.0 {
                m.0
            } else {
                rest.0
            }, cap(m.1 + rest.1))
        }
    }
}

/// How small a subtree can get without clipping content: text keeps its
/// intrinsic size, a spacer shrinks to nothing, stacks aggregate their
/// non-spacer children plus spacing, and padding comes off the reference
/// and back onto the result.
pub open spec fn spec_request_minimum(n: ShadowNode, aw: int) -> (int, int)
    decreases n, 1int,
{
    match n.kind {
        NodeKind::Text { .. } => (cap(n.intrinsic.width as int), cap(n.intrinsic.height as int)),
        NodeKind::Spacer => (0, 0),
        NodeKind::HStack { spacing, .. } => {
            let gap = spec_resolved_edge(spacing) as int;
            let walk = spec_hstack_min_children(n.children@, aw);
            (cap(walk.0 + spec_total_gap(gap, n.children@.len() as int)), walk.1)
        },
        NodeKind::VStack { spacing, .. } => {
            let gap = spec_resolved_edge(spacing) as int;
            let walk = spec_vstack_min_children(n.children@, aw);
            (walk.0, cap(walk.1 + spec_total_gap(gap, n.children@.len() as int)))
        },
        NodeKind::Padding { top, left, bottom, right } => {
            if n.children@.len() >= 1 {
                let m = spec_request_minimum(
                    n.children@[0],
                    sat_sub(aw, left as int + right as int),
                );
                (cap(m.0 + left as int + right as int), cap(m.1 + top as int + bottom as int))
            } else {
                (0, 0)
            }
        },
        NodeKind::Window { .. } => {
            if n.children@.len() >= 1 {
                spec_request_minimum(n.children@[0], aw)
            } else {
                (0, 0)
            }
        },
        NodeKind::BackgroundColor { .. } => {
            if n.children@.len() >= 1 {
                spec_request_minimum(n.children@[0], aw)
            } else {
                (0, 0)
            }
        },
        NodeKind::View => (0, 0),
    }
}

/// The minimum of a subtree stays within bounds on both axes.
pub proof fn lemma_request_minimum_bounds(n: ShadowNode, aw: int)
    ensures
        0 <= spec_request_minimum(n, aw).0 <= MAX_LENGTH as int,
        0 <= spec_request_minimum(n, aw).1 <= MAX_LENGTH as int,
    decreases n, 1int,
{
    match n.kind {
        NodeKind::HStack { .. } => {
            lemma_hstack_min_children_bounds(n.children@, aw);
        },
        NodeKind::VStack { .. } => {
            lemma_vstack_min_children_bounds(n.children@, aw);
        },
        NodeKind::Padding { top, left, bottom, right } => {
            if n.children@.len() >= 1 {
                lemma_request_minimum_bounds(
                    n.children@[0],
                    sat_sub(aw, left as int + right as int),
                );
            }
        },
        NodeKind::Window { .. } => {
            if n.children@.len() >= 1 {
                lemma_request_minimum_bounds(n.children@[0], aw);
            }
        },
        NodeKind::BackgroundColor { .. } => {
            if n.children@.len() >= 1 {
                lemma_request_minimum_bounds(n.children@[0], aw);
            }
        },
        _ => {},
    }
}

/// The minimum walk of a horizontal stack's children stays within bounds.
pub proof fn lemma_hstack_min_children_bounds(cs: Seq<ShadowNode>, aw: int)
    ensures
        0 <= spec_hstack_min_children(cs, aw).0 <= MAX_LENGTH as int,
        0 <= spec_hstack_min_children(cs, aw).1 <= MAX_LENGTH as int,
    decreases cs, 0int,
{
    if cs.len() > 0 {
        lemma_hstack_min_children_bounds(cs.subrange(1, cs.len() as int), aw);
        if !(cs[0].kind is Spacer) {
            lemma_request_minimum_bounds(cs[0], aw);
        }
    }
}

/// The minimum walk of a vertical stack's children stays within bounds.
pub proof fn lemma_vstack_min_children_bounds(cs: Seq<ShadowNode>, aw: int)
    ensures
        0 <= spec_vstack_min_children(cs, aw).0 <= MAX_LENGTH as int,
        0 <= spec_vstack_min_children(cs, aw).1 <= MAX_LENGTH as int,
    decreases cs, 0int,
{
    if cs.len() > 0 {
        lemma_vstack_min_children_bounds(cs.subrange(1, cs.len() as int), aw);
        if !(cs[0].kind is Spacer) {
            lemma_request_minimum_bounds(cs[0], aw);
        }
    }
}

/// Ask a subtree how small it can get: the minimum viable content size,
/// with every spacer collapsed to nothing.
pub fn request_minimum_dimensions(node: &ShadowNode, available_width: u64) -> (r: (u64, u64))
    requires
        measurable(*node),
    ensures
        r.0 as int == spec_request_minimum(*node, available_width as int).0,
        r.1 as int == spec_request_minimum(*node, available_width as int).1,
    decreases *node, 1int,
{
    match &node.kind {
        NodeKind::Text { .. } => (cap_length(node.intrinsic.width), cap_length(
            node.intrinsic.height,
        )),
        NodeKind::Spacer => (0, 0),
        NodeKind::HStack { spacing, .. } => {
            let gap = spacing.to_pixels(None).finite_or(MAX_LENGTH, 0);
            h_stack_minimum_dimensions(node, available_width, gap)
        },
        NodeKind::VStack { spacing, .. } => {
            let gap = spacing.to_pixels(None).finite_or(MAX_LENGTH, 0);
            v_stack_minimum_dimensions(node, available_width, gap)
        },
        NodeKind::Padding { top, left, bottom, right } => {
            let t = *top;
            let l = *left;
            let b = *bottom;
            let rr = *right;
            let iw = sub_saturating(sub_saturating(available_width, l), rr);
            proof {
                assert(iw as int == sat_sub(available_width as int, l as int + rr as int));
                lemma_request_minimum_bounds(node.children@[0], iw as int);
            }
            let m = request_minimum_dimensions(&node.children[0], iw);
            let rw = add_capped(add_capped(m.0, l), rr);
            let rh = add_capped(add_capped(m.1, t), b);
            proof {
                lemma_cap_add_assoc(m.0 as int, l as int, rr as int);
                lemma_cap_add_assoc(m.1 as int, t as int, b as int);
            }
            (rw, rh)
        },
        NodeKind::Window { .. } => request_minimum_dimensions(&node.children[0], available_width),
        NodeKind::BackgroundColor { .. } => request_minimum_dimensions(
            &node.children[0],
            available_width,
        ),
        NodeKind::View => (0, 0),
    }
}

/// Minimum of a horizontal stack: the capped sum of non-spacer minimum
/// widths plus spacing, and the tallest minimum height.
pub fn h_stack_minimum_dimensions(node: &ShadowNode, available_width: u64, spacing: u64) -> (r: (
    u64,
    u64,
))
    requires
        measurable(*node),
        node.kind is HStack,
    ensures
        r.0 as int == cap(
            spec_hstack_min_children(node.children@, available_width as int).0 + spec_total_gap(
                spacing as int,
                node.children@.len() as int,
            ),
        ),
        r.1 as int == spec_hstack_min_children(node.children@, available_width as int).1,
    decreases *node, 0int,
{
    let ghost cs = node.children@;
    let ghost goal = spec_hstack_min_children(cs, available_width as int);
    let mut width: u64 = 0;
    let mut max_height: u64 = 0;
    let mut i: usize = 0;
    proof {
        lemma_hstack_min_children_bounds(cs, available_width as int);
        assert(cs.subrange(0, cs.len() as int) =~= cs);
    }
    while i < node.children.len()
        invariant
            measurable(*node),
            node.kind is HStack,
            cs == node.children@,
            i <= cs.len(),
            width <= MAX_LENGTH,
            max_height <= MAX_LENGTH,
            goal == spec_hstack_min_children(cs, available_width as int),
            ({
                let rest = spec_hstack_min_children(
                    cs.subrange(i as int, cs.len() as int),
                    available_width as int,
                );
                &&& goal.0 == cap(width as int + rest.0)
                &&& goal.1 == if max_height as int > rest.1 {
                    max_height as int
                } else {
                    rest.1
                }
            }),
        decreases cs.len() - i,
    {
        proof {
            assert(cs.subrange(i as int, cs.len() as int)[0] == cs[i as int]);
            assert(cs.subrange(i as int, cs.len() as int).subrange(
                1,
                cs.len() - i,
            ) =~= cs.subrange(i as int + 1, cs.len() as int));
            lemma_hstack_min_children_bounds(
                cs.subrange(i as int + 1, cs.len() as int),
                available_width as int,
            );
        }
        let child = &node.children[i];
        if !matches!(&child.kind, NodeKind::Spacer) {
            proof {
                lemma_request_minimum_bounds(cs[i as int], available_width as int);
            }
            let m = request_minimum_dimensions(child, available_width);
            if m.1 > max_height {
                max_height = m.1;
            }
            proof {
                let rest_next = spec_hstack_min_children(
                    cs.subrange(i as int + 1, cs.len() as int),
                    available_width as int,
                );
                lemma_cap_add_assoc(width as int, m.0 as int, rest_next.0);
            }
            width = add_capped(width, m.0);
        }
        i = i + 1;
    }
    proof {
        assert(cs.subrange(cs.len() as int, cs.len() as int) =~= Seq::<ShadowNode>::empty());
    }
    let mut total = width;
    if node.children.len() > 1 {
        total = add_capped(total, mul_capped(spacing, (node.children.len() - 1) as u64));
    }
    (total, max_height)
}

/// Minimum of a vertical stack, symmetrically on the height.
pub fn v_stack_minimum_dimensions(node: &ShadowNode, available_width: u64, spacing: u64) -> (r: (
    u64,
    u64,
))
    requires
        measurable(*node),
        node.kind is VStack,
    ensures
        r.0 as int == spec_vstack_min_children(node.children@, available_width as int).0,
        r.1 as int == cap(
            spec_vstack_min_children(node.children@, available_width as int).1 + spec_total_gap(
                spacing as int,
                node.children@.len() as int,
            ),
        ),
    decreases *node, 0int,
{
    let ghost cs = node.children@;
    let ghost goal = spec_vstack_min_children(cs, available_width as int);
    let mut max_width: u64 = 0;
    let mut height: u64 = 0;
    let mut i: usize = 0;
    proof {
        lemma_vstack_min_children_bounds(cs, available_width as int);
        assert(cs.subrange(0, cs.len() as int) =~= cs);
    }
    while i < node.children.len()
        invariant
            measurable(*node),
            node.kind is VStack,
            cs == node.children@,
            i <= cs.len(),
            max_width <= MAX_LENGTH,
            height <= MAX_LENGTH,
            goal == spec_vstack_min_children(cs, available_width as int),
            ({
                let rest = spec_vstack_min_children(
                    cs.subrange(i as int, cs.len() as int),
                    available_width as int,
                );
                &&& goal.0 == if max_width as int > rest.0 {
                    max_width as int
                } else {
                    rest.0
                }
                &&& goal.1 == cap(height as int + rest.1)
            }),
        decreases cs.len() - i,
    {
        proof {
            assert(cs.subrange(i as int, cs.len() as int)[0] == cs[i as int]);
            assert(cs.subrange(i as int, cs.len() as int).subrange(
                1,
                cs.len() - i,
            ) =~= cs.subrange(i as int + 1, cs.len() as int));
            lemma_vstack_min_children_bounds(
                cs.subrange(i as int + 1, cs.len() as int),
                available_width as int,
            );
        }
        let child = &node.children[i];
        if !matches!(&child.kind, NodeKind::Spacer) {
            proof {
                lemma_request_minimum_bounds(cs[i as int], available_width as int);
            }
            let m = request_minimum_dimensions(child, available_width);
            if m.0 > max_width {
                max_width = m.0;
            }
            proof {
                let rest_next = spec_vstack_min_children(
                    cs.subrange(i as int + 1, cs.len() as int),
                    available_width as int,
                );
                lemma_cap_add_assoc(height as int, m.1 as int, rest_next.1);
            }
            height = add_capped(height, m.1);
        }
        i = i + 1;
    }
    proof {
        assert(cs.subrange(cs.len() as int, cs.len() as int) =~= Seq::<ShadowNode>::empty());
    }
    let mut total = height;
    if node.children.len() > 1 {
        total = add_capped(total, mul_capped(spacing, (node.children.len() - 1) as u64));
    }
    (max_width, total)
}


/// Whether a subtree needs the full available width and height: a spacer
/// always does, text never does, stacks and generic views inherit from any
/// child, and wrappers inherit from the one child they forward to.
pub open spec fn spec_needs_full(n: ShadowNode) -> (bool, bool)
    decreases n, 1int,
{
    match n.kind {
        NodeKind::Text { .. } => (false, false),
        NodeKind::Spacer => (true, true),
        NodeKind::HStack { .. } => spec_children_need(n.children@),
        NodeKind::VStack { .. } => spec_children_need(n.children@),
        NodeKind::View => spec_children_need(n.children@),
        NodeKind::Window { .. } => if n.children@.len() >= 1 {
            spec_needs_full(n.children@[0])
        } else {
            (false, false)
        },
        NodeKind::BackgroundColor { .. } => if n.children@.len() >= 1 {
            spec_needs_full(n.children@[0])
        } else {
            (false, false)
        },
        NodeKind::Padding { .. } => if n.children@.len() >= 1 {
            spec_needs_full(n.children@[0])
        } else {
            (false, false)
        },
    }
}

/// The per-axis disjunction of the children's needs.
pub open spec fn spec_children_need(cs: Seq<ShadowNode>) -> (bool, bool)
    decreases cs, 0int,
{
    if cs.len() == 0 {
        (false, false)
    } else {
        let head = spec_needs_full(cs[0]);
        let rest = spec_children_need(cs.subrange(1, cs.len() as int));
        (head.0 || rest.0, head.1 || rest.1)
    }
}

/// The sizing intent an axis gets once its need is known: the full
/// containing size when needed, otherwise automatic.
pub open spec fn spec_fill_dimension(need: bool) -> Dimension {
    if need {
        Dimension::Percent(PERCENT_WHOLE)
    } else {
        Dimension::Auto
    }
}

/// The style a node's solver entry carries after the sizing pass: text is
/// pinned to its intrinsic size, a container that must fill an axis is
/// pinned to the full size there and automatic elsewhere, and everything
/// else keeps its style.
pub open spec fn spec_sized_style(n: ShadowNode, old_style: Style) -> Style {
    match n.kind {
        NodeKind::Text { .. } => Style {
            size_width: Dimension::Length(cap(n.intrinsic.width as int) as u64),
            size_height: Dimension::Length(cap(n.intrinsic.height as int) as u64),
            ..old_style
        },
        NodeKind::HStack { .. } | NodeKind::VStack { .. } | NodeKind::BackgroundColor { .. }
            | NodeKind::Padding { .. } => {
            let f = spec_needs_full(n);
            if f.0 || f.1 {
                Style {
                    size_width: spec_fill_dimension(f.0),
                    size_height: spec_fill_dimension(f.1),
                    ..old_style
                }
            } else {
                old_style
            }
        },
        _ => old_style,
    }
}

/// The subtree's solver entries are exactly as they were.
pub open spec fn spec_untouched(n: ShadowNode, olds: Seq<SolverNode>, news: Seq<SolverNode>) -> bool
    decreases n,
{
    &&& news[n.node_id as int] == olds[n.node_id as int]
    &&& forall|k: int|
        0 <= k < n.children@.len() ==> spec_untouched(#[trigger] n.children@[k], olds, news)
}

/// What the sizing pass did to a subtree's solver entries: every visited
/// node's style was rewritten by [`spec_sized_style`], wrappers visited
/// only their first child, and nothing else in the subtree moved.
pub open spec fn spec_sized(n: ShadowNode, olds: Seq<SolverNode>, news: Seq<SolverNode>) -> bool
    decreases n,
{
    &&& news[n.node_id as int].style == spec_sized_style(n, olds[n.node_id as int].style)
    &&& news[n.node_id as int].children == olds[n.node_id as int].children
    &&& match n.kind {
        NodeKind::HStack { .. } | NodeKind::VStack { .. } => forall|k: int|
            0 <= k < n.children@.len() ==> spec_sized(#[trigger] n.children@[k], olds, news),
        NodeKind::Window { .. } | NodeKind::BackgroundColor { .. } | NodeKind::Padding { .. } => (
        if n.children@.len() >= 1 {
            spec_sized(n.children@[0], olds, news)
        } else {
            true
        }) && (forall|k: int|
            1 <= k < n.children@.len() ==> spec_untouched(#[trigger] n.children@[k], olds, news)),
        _ => true,
    }
}

/// A subtree whose handle range the pass never wrote is untouched.
pub proof fn lemma_untouched_from_agreement(
    n: ShadowNode,
    olds: Seq<SolverNode>,
    news: Seq<SolverNode>,
)
    requires
        well_formed(n),
        forall|j: int| low_id(n) <= j <= n.node_id ==> news[j] == olds[j],
    ensures
        spec_untouched(n, olds, news),
    decreases n,
{
    lemma_tree_size_pos(n);
    assert forall|k: int| 0 <= k < n.children@.len() implies spec_untouched(
        #[trigger] n.children@[k],
        olds,
        news,
    ) by {
        lemma_forest_child(n.children@, low_id(n), k);
        lemma_untouched_from_agreement(n.children@[k], olds, news);
    }
}

/// Being untouched only depends on the subtree's own handle range.
pub proof fn lemma_untouched_agree(
    n: ShadowNode,
    olds1: Seq<SolverNode>,
    news1: Seq<SolverNode>,
    olds2: Seq<SolverNode>,
    news2: Seq<SolverNode>,
)
    requires
        well_formed(n),
        spec_untouched(n, olds1, news1),
        forall|j: int| low_id(n) <= j <= n.node_id ==> olds2[j] == olds1[j],
        forall|j: int| low_id(n) <= j <= n.node_id ==> news2[j] == news1[j],
    ensures
        spec_untouched(n, olds2, news2),
    decreases n,
{
    lemma_tree_size_pos(n);
    assert forall|k: int| 0 <= k < n.children@.len() implies spec_untouched(
        #[trigger] n.children@[k],
        olds2,
        news2,
    ) by {
        lemma_forest_child(n.children@, low_id(n), k);
        lemma_untouched_agree(n.children@[k], olds1, news1, olds2, news2);
    }
}

/// The effect of the sizing pass only depends on the subtree's own handle
/// range, on either side.
pub proof fn lemma_sized_agree(
    n: ShadowNode,
    olds1: Seq<SolverNode>,
    news1: Seq<SolverNode>,
    olds2: Seq<SolverNode>,
    news2: Seq<SolverNode>,
)
    requires
        well_formed(n),
        spec_sized(n, olds1, news1),
        forall|j: int| low_id(n) <= j <= n.node_id ==> olds2[j] == olds1[j],
        forall|j: int| low_id(n) <= j <= n.node_id ==> news2[j] == news1[j],
    ensures
        spec_sized(n, olds2, news2),
    decreases n,
{
    lemma_tree_size_pos(n);
    match n.kind {
        NodeKind::HStack { .. } | NodeKind::VStack { .. } => {
            assert forall|k: int| 0 <= k < n.children@.len() implies spec_sized(
                #[trigger] n.children@[k],
                olds2,
                news2,
            ) by {
                lemma_forest_child(n.children@, low_id(n), k);
                lemma_sized_agree(n.children@[k], olds1, news1, olds2, news2);
            }
        },
        NodeKind::Window { .. } | NodeKind::BackgroundColor { .. } | NodeKind::Padding { .. } => {
            if n.children@.len() >= 1 {
                lemma_forest_child(n.children@, low_id(n), 0);
                lemma_sized_agree(n.children@[0], olds1, news1, olds2, news2);
            }
            assert forall|k: int| 1 <= k < n.children@.len() implies spec_untouched(
                #[trigger] n.children@[k],
                olds2,
                news2,
            ) by {
                lemma_forest_child(n.children@, low_id(n), k);
                lemma_untouched_agree(n.children@[k], olds1, news1, olds2, news2);
            }
        },
        _ => {},
    }
}

/// The sizing pass: walk the shadow tree bottom-up, pin text nodes to
/// their intrinsic sizes, and report per axis whether the subtree needs
/// the full available space; a container with a needy child is pinned to
/// the full size on that axis (and automatic on the other), all through
/// [`ShadowTree::set_size`].  Only the subtree's own solver entries move.
pub fn update_node_sizes(
    node: &ShadowNode,
    tree: &mut ShadowTree,
    available_width: u64,
    available_height: u64,
) -> (r: (bool, bool))
    requires
        old(tree).inv(),
        measurable(*node),
        well_formed(*node),
        0 <= low_id(*node),
        node.node_id < old(tree).nodes@.len(),
    ensures
        final(tree).inv(),
        final(tree).nodes@.len() == old(tree).nodes@.len(),
        final(tree).layouts == old(tree).layouts,
        final(tree).root == old(tree).root,
        r == spec_needs_full(*node),
        spec_sized(*node, old(tree).nodes@, final(tree).nodes@),
        forall|j: int|
            0 <= j < final(tree).nodes@.len() && !(low_id(*node) <= j <= node.node_id as int)
                ==> final(tree).nodes@[j] == old(tree).nodes@[j],
    decreases *node, 2int,
{
    let ghost olds = old(tree).nodes@;
    let ghost lo = low_id(*node);
    proof {
        lemma_tree_size_pos(*node);
    }
    match &node.kind {
        NodeKind::Text { .. } => {
            let d = request_dimensions(node, available_width, available_height);
            let w = resolve_px(&d.0, available_width);
            let h = resolve_px(&d.1, available_height);
            tree.set_size(node.node_id, Dimension::Length(w), Dimension::Length(h));
            (false, false)
        },
        NodeKind::Spacer => (true, true),
        NodeKind::HStack { .. } | NodeKind::VStack { .. } => {
            let ghost cs = node.children@;
            let ghost goal = spec_children_need(cs);
            let mut full_width = false;
            let mut full_height = false;
            let mut i: usize = 0;
            proof {
                assert(cs.subrange(0, cs.len() as int) =~= cs);
                assert(cs.subrange(0, 0) =~= Seq::<ShadowNode>::empty());
            }
            while i < node.children.len()
                invariant
                    tree.inv(),
                    tree.nodes@.len() == olds.len(),
                    tree.layouts == old(tree).layouts,
                    tree.root == old(tree).root,
                    measurable(*node),
                    well_formed(*node),
                    node.kind is HStack || node.kind is VStack,
                    0 <= lo,
                    lo == low_id(*node),
                    node.node_id < olds.len(),
                    cs == node.children@,
                    i <= cs.len(),
                    olds == old(tree).nodes@,
                    goal == spec_children_need(cs),
                    ({
                        let rest = spec_children_need(cs.subrange(i as int, cs.len() as int));
                        &&& goal.0 == (full_width || rest.0)
                        &&& goal.1 == (full_height || rest.1)
                    }),
                    forall|k: int| 0 <= k < i ==> spec_sized(#[trigger] cs[k], olds, tree.nodes@),
                    forall|j: int|
                        0 <= j < tree.nodes@.len() && !(lo <= j < lo + forest_size(
                            cs.subrange(0, i as int),
                        )) ==> tree.nodes@[j] == olds[j],
                decreases cs.len() - i,
            {
                let ghost pre_nodes = tree.nodes@;
                proof {
                    assert(cs.subrange(i as int, cs.len() as int)[0] == cs[i as int]);
                    assert(cs.subrange(i as int, cs.len() as int).subrange(
                        1,
                        cs.len() - i,
                    ) =~= cs.subrange(i as int + 1, cs.len() as int));
                    lemma_forest_child(cs, lo, i as int);
                    lemma_forest_prefix_monotone(cs, i as int, i as int + 1);
                    lemma_forest_singleton(cs, i as int);
                    lemma_tree_size_pos(cs[i as int]);
                }
                let f = update_node_sizes(
                    &node.children[i],
                    tree,
                    available_width,
                    available_height,
                );
                if f.0 {
                    full_width = true;
                }
                if f.1 {
                    full_height = true;
                }
                proof {
                    assert forall|k: int| 0 <= k < i as int + 1 implies spec_sized(
                        #[trigger] cs[k],
                        olds,
                        tree.nodes@,
                    ) by {
                        lemma_forest_child(cs, lo, k);
                        if k < i as int {
                            lemma_forest_prefix_monotone(cs, k + 1, i as int);
                            lemma_forest_prefix_monotone(cs, k, k + 1);
                            lemma_forest_singleton(cs, k);
                            lemma_tree_size_pos(cs[k]);
                            lemma_sized_agree(cs[k], olds, pre_nodes, olds, tree.nodes@);
                        } else {
                            lemma_sized_agree(cs[k], pre_nodes, tree.nodes@, olds, tree.nodes@);
                        }
                    }
                    assert forall|j: int|
                        0 <= j < tree.nodes@.len() && !(lo <= j < lo + forest_size(
                            cs.subrange(0, i as int + 1),
                        )) implies tree.nodes@[j] == olds[j] by {
                        assert(forest_size(cs.subrange(0, i as int + 1)) == forest_size(
                            cs.subrange(0, i as int),
                        ) + tree_size(cs[i as int]));
                    }
                }
                i = i + 1;
            }
            proof {
                assert(cs.subrange(cs.len() as int, cs.len() as int) =~= Seq::<
                    ShadowNode,
                >::empty());
            }
            let ghost before_set = tree.nodes@;
            if full_width || full_height {
                let width_dim = if full_width {
                    Dimension::Percent(PERCENT_WHOLE)
                } else {
                    Dimension::Auto
                };
                let height_dim = if full_height {
                    Dimension::Percent(PERCENT_WHOLE)
                } else {
                    Dimension::Auto
                };
                tree.set_size(node.node_id, width_dim, height_dim);
            }
            proof {
                assert forall|k: int| 0 <= k < cs.len() implies spec_sized(
                    #[trigger] cs[k],
                    olds,
                    tree.nodes@,
                ) by {
                    lemma_forest_child(cs, lo, k);
                    lemma_sized_agree(cs[k], olds, before_set, olds, tree.nodes@);
                }
                assert(spec_sized(*node, olds, tree.nodes@));
            }
            (full_width, full_height)
        },
        NodeKind::Window { .. } => {
            let ghost cs = node.children@;
            proof {
                lemma_forest_child(cs, lo, 0);
            }
            let f = update_node_sizes(&node.children[0], tree, available_width, available_height);
            proof {
                lemma_forest_child(cs, lo, 0);
                assert forall|k: int| 1 <= k < cs.len() implies spec_untouched(
                    #[trigger] cs[k],
                    olds,
                    tree.nodes@,
                ) by {
                    lemma_forest_child(cs, lo, k);
                    lemma_forest_prefix_monotone(cs, 1, k);
                    lemma_forest_singleton(cs, 0);
                    lemma_tree_size_pos(cs[k]);
                    lemma_untouched_from_agreement(cs[k], olds, tree.nodes@);
                }
                assert(spec_sized(*node, olds, tree.nodes@));
            }
            f
        },
        NodeKind::BackgroundColor { .. } | NodeKind::Padding { .. } => {
            let ghost cs = node.children@;
            proof {
                lemma_forest_child(cs, lo, 0);
            }
            let f = update_node_sizes(&node.children[0], tree, available_width, available_height);
            let ghost before_set = tree.nodes@;
            if f.0 || f.1 {
                let width_dim = if f.0 {
                    Dimension::Percent(PERCENT_WHOLE)
                } else {
                    Dimension::Auto
                };
                let height_dim = if f.1 {
                    Dimension::Percent(PERCENT_WHOLE)
                } else {
                    Dimension::Auto
                };
                tree.set_size(node.node_id, width_dim, height_dim);
            }
            proof {
                lemma_forest_child(cs, lo, 0);
                lemma_sized_agree(cs[0], olds, before_set, olds, tree.nodes@);
                assert forall|k: int| 1 <= k < cs.len() implies spec_untouched(
                    #[trigger] cs[k],
                    olds,
                    tree.nodes@,
                ) by {
                    lemma_forest_child(cs, lo, k);
                    lemma_forest_prefix_monotone(cs, 1, k);
                    lemma_forest_singleton(cs, 0);
                    lemma_tree_size_pos(cs[k]);
                    lemma_untouched_from_agreement(cs[k], olds, tree.nodes@);
                }
                assert(spec_sized(*node, olds, tree.nodes@));
            }
            f
        },
        NodeKind::View => {
            proof {
                assert(false);
            }
            (false, false)
        },
    }
}

} // verus!
