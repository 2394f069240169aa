//! The load-bearing guarantees of the layout engine, stated once, in one
//! place, as proved facts about the specification functions the public
//! contracts use.

use crate::measure::spec_children_need;
use crate::measure::spec_hstack_children;
use crate::measure::spec_needs_full;
use crate::measure::spec_request_dimensions;
use crate::measure::spec_request_minimum;
use crate::measure::spec_total_gap;
use crate::shadow::NodeKind;
use crate::shadow::ShadowNode;
use crate::solve::placed;
use crate::solve::spec_dim_px;
use crate::style::Dimension;
use crate::style::FlexDirection;
use crate::style::Rect;
use crate::style::Style;
use crate::style::spec_default_style;
use crate::solve::spec_child_geometry;
use crate::tree::Layout;
use crate::tree::SolverNode;
use crate::units::cap;
use crate::units::pct;
use crate::units::sat_sub;
use crate::units::spec_to_pixels;
use crate::units::Resolved;
use crate::units::Unit;
use crate::units::MAX_LENGTH;
use crate::units::PERCENT_WHOLE;
use vstd::prelude::*;

verus! {

/// Resolution of a percent unit is total and two-sided: without a
/// reference it is unbounded, and against any reference `a` it is exactly
/// the capped share `a * p / PERCENT_WHOLE` — one case holds if and only
/// if the other does not.
pub proof fn law_unit_resolution_totality(p: u64, available: Option<u64>)
    ensures
        (spec_to_pixels(Unit::Percent(p), available) == Resolved::Unbounded) <==> (available
            is None),
        available matches Some(a) ==> spec_to_pixels(Unit::Percent(p), available)
            == Resolved::Finite(pct(a as int, p as int) as u64),
{
}

/// A lone spacer wants all of the available space on both axes, and can
/// shrink to nothing: the two sizing questions answer oppositely on it.
pub proof fn law_spacer_duality(n: ShadowNode, aw: int, ah: int)
    requires
        n.kind is Spacer,
    ensures
        spec_request_dimensions(n, aw, ah) == (
            Unit::Percent(PERCENT_WHOLE),
            Unit::Percent(PERCENT_WHOLE),
        ),
        spec_request_minimum(n, aw) == (0int, 0int),
{
}

/// Fill propagation: a vertical stack of exactly one spacer and one text
/// child needs the full height, whichever order the two children come in.
/// A spacer asks for the full space on both axes, so the stack reports a
/// full-width need as well; only the height half is a law of this engine.
pub proof fn law_fill_propagation(n: ShadowNode)
    requires
        n.kind is VStack,
        n.children@.len() == 2,
        (n.children@[0].kind is Spacer && n.children@[1].kind is Text) || (n.children@[0].kind
            is Text && n.children@[1].kind is Spacer),
    ensures
        spec_needs_full(n).1 == true,
{
    let cs = n.children@;
    assert(cs.subrange(1, 2)[0] == cs[1]);
    assert(cs.subrange(1, 2).subrange(1, 1) =~= Seq::<ShadowNode>::empty());
    assert(spec_children_need(cs.subrange(1, 2).subrange(1, 1)) == (false, false));
    if cs[0].kind is Spacer {
        assert(spec_needs_full(cs[0]) == (true, true));
        assert(spec_children_need(cs).1);
    } else {
        assert(spec_needs_full(cs[1]) == (true, true));
        assert(spec_children_need(cs.subrange(1, 2)).1);
        assert(spec_children_need(cs).1);
    }
    assert(spec_needs_full(n) == spec_children_need(n.children@));
}

/// Padding round-trip: wrapping a child whose request resolves to a fixed
/// size adds exactly the padding back onto both axes.
pub proof fn law_padding_round_trip(
    n: ShadowNode,
    aw: int,
    ah: int,
    child_w: u64,
    child_h: u64,
)
    requires
        n.kind matches NodeKind::Padding { top, left, bottom, right } && {
            let iw = sat_sub(aw, left as int + right as int);
            let ih = sat_sub(ah, top as int + bottom as int);
            spec_request_dimensions(n.children@[0], iw, ih) == (
                Unit::Absolute(child_w),
                Unit::Absolute(child_h),
            )
        },
        n.children@.len() >= 1,
    ensures
        n.kind matches NodeKind::Padding { top, left, bottom, right } ==> spec_request_dimensions(
            n,
            aw,
            ah,
        ) == (
            Unit::Absolute(cap(cap(child_w as int) + left as int + right as int) as u64),
            Unit::Absolute(cap(cap(child_h as int) + top as int + bottom as int) as u64),
        ),
{
}

/// Layout generation consistency: the cache a solve leaves behind is a
/// function of the solver graph and the latest frame alone.  Two caches
/// that both hold a solve of the same subtree at the same frame agree on
/// every node of that subtree.
pub open spec fn cache_agrees(
    n: ShadowNode,
    l1: Seq<Option<Layout>>,
    l2: Seq<Option<Layout>>,
) -> bool
    decreases n,
{
    &&& l1[n.node_id as int] == l2[n.node_id as int]
    &&& forall|k: int| 0 <= k < n.children@.len() ==> cache_agrees(#[trigger] n.children@[k], l1, l2)
}

/// See [`cache_agrees`]: a placed subtree's cache entries are determined
/// by the graph and the frame, so no stale generation can remain readable
/// anywhere under a freshly solved root.
pub proof fn law_layout_generation_consistency(
    nodes: Seq<SolverNode>,
    l1: Seq<Option<Layout>>,
    l2: Seq<Option<Layout>>,
    n: ShadowNode,
    x: int,
    y: int,
    w: int,
    h: int,
)
    requires
        placed(nodes, l1, n, x, y, w, h),
        placed(nodes, l2, n, x, y, w, h),
    ensures
        cache_agrees(n, l1, l2),
    decreases n,
{
    assert forall|k: int| 0 <= k < n.children@.len() implies cache_agrees(
        #[trigger] n.children@[k],
        l1,
        l2,
    ) by {
        law_layout_generation_consistency(
            nodes,
            l1,
            l2,
            n.children@[k],
            spec_child_geometry(nodes, n, k, w, h).0,
            spec_child_geometry(nodes, n, k, w, h).1,
            spec_child_geometry(nodes, n, k, w, h).2,
            spec_child_geometry(nodes, n, k, w, h).3,
        );
    }
}

/// Stack additivity over text children: a horizontal stack of text leaves
/// requests exactly the capped sum of their intrinsic widths plus one
/// spacing per adjacent pair, and the tallest of their heights.
pub proof fn law_stack_additivity(n: ShadowNode, aw: int, ah: int, gap: int)
    requires
        n.kind matches NodeKind::HStack { spacing, .. } && crate::shadow::spec_resolved_edge(
            spacing,
        ) as int == gap,
        forall|k: int| 0 <= k < n.children@.len() ==> (#[trigger] n.children@[k].kind) is Text,
    ensures
        spec_request_dimensions(n, aw, ah) == (
            Unit::Absolute(
                cap(
                    spec_text_width_sum(n.children@) + spec_total_gap(
                        gap,
                        n.children@.len() as int,
                    ),
                ) as u64,
            ),
            Unit::Absolute(spec_text_height_max(n.children@) as u64),
        ),
        n.children@.len() == 0 ==> spec_request_dimensions(n, aw, ah).0 == Unit::Absolute(0u64),
{
    let cs = n.children@;
    lemma_text_walk(cs, aw, ah, gap);
    lemma_text_sum_bounds(cs);
    let walk = spec_hstack_children(cs, aw, ah, gap);
    match n.kind {
        NodeKind::HStack { spacing, .. } => {
            assert(crate::shadow::spec_resolved_edge(spacing) as int == gap);
            assert(spec_request_dimensions(n, aw, ah) == crate::measure::spec_hstack_request(
                cs,
                aw,
                ah,
                gap,
            ));
            assert(!walk.2);
            assert(crate::measure::spec_hstack_request(cs, aw, ah, gap) == (
                Unit::Absolute(cap(walk.0 + spec_total_gap(gap, cs.len() as int)) as u64),
                Unit::Absolute(walk.1 as u64),
            ));
        },
        _ => {},
    }
    if cs.len() == 0 {
        assert(spec_total_gap(gap, 0) == 0);
        assert(spec_text_width_sum(cs) == 0);
    }
}

/// The text sums and maxima stay within bounds.
proof fn lemma_text_sum_bounds(cs: Seq<ShadowNode>)
    ensures
        0 <= spec_text_width_sum(cs) <= MAX_LENGTH as int,
        0 <= spec_text_height_max(cs) <= MAX_LENGTH as int,
    decreases cs,
{
    if cs.len() > 0 {
        lemma_text_sum_bounds(cs.subrange(1, cs.len() as int));
    }
}

/// The capped sum of the intrinsic widths of a run of text leaves.
pub open spec fn spec_text_width_sum(cs: Seq<ShadowNode>) -> int
    decreases cs,
{
    if cs.len() == 0 {
        0
    } else {
        cap(cap(cs[0].intrinsic.width as int) + spec_text_width_sum(cs.subrange(1, cs.len() as int)))
    }
}

/// The largest capped intrinsic height of a run of text leaves.
pub open spec fn spec_text_height_max(cs: Seq<ShadowNode>) -> int
    decreases cs,
{
    if cs.len() == 0 {
        0
    } else {
        let h = cap(cs[0].intrinsic.height as int);
        let rest = spec_text_height_max(cs.subrange(1, cs.len() as int));
        if h > rest {
            h
        } else {
            rest
        }
    }
}

/// On text-only children the stack walk is the plain sum and maximum of
/// the intrinsic sizes: text never consults the available space, so the
/// shrinking width hand-off is invisible.
proof fn lemma_text_walk(cs: Seq<ShadowNode>, remaining: int, ah: int, gap: int)
    requires
        forall|k: int| 0 <= k < cs.len() ==> (#[trigger] cs[k].kind) is Text,
    ensures
        spec_hstack_children(cs, remaining, ah, gap) == (
            spec_text_width_sum(cs),
            spec_text_height_max(cs),
            false,
        ),
    decreases cs,
{
    if cs.len() > 0 {
        let rest_seq = cs.subrange(1, cs.len() as int);
        assert(forall|k: int|
            0 <= k < rest_seq.len() ==> (#[trigger] rest_seq[k].kind) is Text) by {
            assert(forall|k: int|
                0 <= k < rest_seq.len() ==> rest_seq[k] == cs[k + 1]);
        }
        let d = spec_request_dimensions(cs[0], remaining, ah);
        lemma_text_walk(
            rest_seq,
            sat_sub(remaining, crate::measure::spec_px(d.0, remaining) + gap),
            ah,
            gap,
        );
    }
}


/// End-to-end scenario: a vertical stack of a text, a spacer and a second
/// text, solved at some height `vh`, puts the first text flush with the
/// top, the second flush with the bottom, and the spacer spans exactly
/// the distance between them — for any text metrics whose heights fit in
/// the stack.  The styles are the ones the sizing pass leaves behind:
/// text pinned to its measured size, the spacer growing, the stack a
/// plain column.
pub proof fn law_end_to_end_scenario(
    nodes: Seq<SolverNode>,
    layouts: Seq<Option<Layout>>,
    v: ShadowNode,
    x: int,
    y: int,
    vw: int,
    vh: int,
)
    requires
        placed(nodes, layouts, v, x, y, vw, vh),
        v.children@.len() == 3,
        0 <= v.node_id < nodes.len(),
        0 <= v.children@[0].node_id < nodes.len(),
        0 <= v.children@[1].node_id < nodes.len(),
        0 <= v.children@[2].node_id < nodes.len(),
        0 <= vw <= MAX_LENGTH as int,
        0 <= vh <= MAX_LENGTH as int,
        // the stack: a plain column without gaps or padding
        nodes[v.node_id as int].style == (Style {
            flex_direction: FlexDirection::Column,
            ..spec_default_style()
        }),
        // both texts: leaves pinned to fixed sizes by the sizing pass
        v.children@[0].children@.len() == 0,
        v.children@[2].children@.len() == 0,
        nodes[v.children@[0].node_id as int].style matches Style {
            size_width: Dimension::Length(_),
            size_height: Dimension::Length(_),
            flex_grow: false,
            ..
        },
        nodes[v.children@[0].node_id as int].style == (Style {
            size_width: nodes[v.children@[0].node_id as int].style.size_width,
            size_height: nodes[v.children@[0].node_id as int].style.size_height,
            ..spec_default_style()
        }),
        nodes[v.children@[2].node_id as int].style matches Style {
            size_width: Dimension::Length(_),
            size_height: Dimension::Length(_),
            flex_grow: false,
            ..
        },
        nodes[v.children@[2].node_id as int].style == (Style {
            size_width: nodes[v.children@[2].node_id as int].style.size_width,
            size_height: nodes[v.children@[2].node_id as int].style.size_height,
            ..spec_default_style()
        }),
        // the spacer: no content of its own, absorbing leftover space
        v.children@[1].children@.len() == 0,
        nodes[v.children@[1].node_id as int].style == (Style {
            flex_grow: true,
            ..spec_default_style()
        }),
        // the texts fit in the stack
        ({
            let ha = spec_dim_px(nodes[v.children@[0].node_id as int].style.size_height, vh);
            let hb = spec_dim_px(nodes[v.children@[2].node_id as int].style.size_height, vh);
            ha + hb <= vh
        }),
    ensures
        ({
            let ha = spec_dim_px(nodes[v.children@[0].node_id as int].style.size_height, vh);
            let hb = spec_dim_px(nodes[v.children@[2].node_id as int].style.size_height, vh);
            &&& layouts[v.children@[0].node_id as int] matches Some(la) && la.y == 0 && la.height
                == ha
            &&& layouts[v.children@[1].node_id as int] matches Some(ls) && ls.y == ha
                && ls.height == vh - ha - hb
            &&& layouts[v.children@[2].node_id as int] matches Some(lb) && lb.y == vh - hb
                && lb.height == hb
        }),
{
    reveal(crate::solve::spec_child_geometry);
    let cs = v.children@;
    let a = cs[0];
    let s = cs[1];
    let b = cs[2];
    let ha = spec_dim_px(nodes[a.node_id as int].style.size_height, vh);
    let hb = spec_dim_px(nodes[b.node_id as int].style.size_height, vh);
    let ctx = crate::solve::spec_solve_ctx(nodes, v, vw, vh);
    // the content box is the whole frame: no padding on the stack
    assert(ctx.content_w == vw);
    assert(ctx.content_h == vh);
    assert(!ctx.row);
    assert(ctx.gap == 0);
    // each child measures to its pinned size; the spacer to nothing
    assert(a.children@.subrange(0, 0) =~= Seq::<ShadowNode>::empty());
    lemma_empty_measure(nodes, a, vw, vh);
    lemma_empty_measure(nodes, s, vw, vh);
    lemma_empty_measure(nodes, b, vw, vh);
    let ma = crate::solve::spec_measure(nodes, a, vw, vh);
    let ms = crate::solve::spec_measure(nodes, s, vw, vh);
    let mb = crate::solve::spec_measure(nodes, b, vw, vh);
    assert(ma.1 == ha);
    assert(ms == (0int, 0int));
    assert(mb.1 == hb);
    lemma_dim_px_bounds_pub(nodes[a.node_id as int].style.size_height, vh);
    lemma_dim_px_bounds_pub(nodes[b.node_id as int].style.size_height, vh);
    // the base fold of the three children is ha + 0 + hb
    assert(cs.subrange(0, 3).drop_last() =~= cs.subrange(0, 2));
    assert(cs.subrange(0, 2).drop_last() =~= cs.subrange(0, 1));
    assert(cs.subrange(0, 1).drop_last() =~= cs.subrange(0, 0));
    assert(cs.subrange(0, 0) =~= Seq::<ShadowNode>::empty());
    assert(cs.subrange(0, 3) =~= cs);
    assert(cs.drop_last() =~= cs.subrange(0, 2));
    assert(cs.last() == b);
    assert(cs.subrange(0, 1).last() == a);
    assert(cs.subrange(0, 2).last() == s);
    assert(cs.subrange(0, 3).last() == b);
    assert(crate::solve::spec_base_fold(nodes, cs.subrange(0, 0), vw, vh, false) == 0);
    assert(crate::solve::spec_base_fold(nodes, cs.subrange(0, 1), vw, vh, false) == cap(ha));
    assert(crate::solve::spec_base_fold(nodes, cs.subrange(0, 2), vw, vh, false) == cap(
        cap(ha) + 0,
    ));
    assert(crate::solve::spec_base_fold(nodes, cs, vw, vh, false) == cap(cap(cap(ha) + 0) + hb));
    assert(ctx.base_total == cap(ha + hb));
    assert(ctx.leftover == vh - ha - hb);
    // exactly one grower, the spacer
    assert(crate::solve::spec_grow_count(nodes, cs.subrange(0, 0)) == 0);
    assert(crate::solve::spec_grow_count(nodes, cs.subrange(0, 1)) == 0);
    assert(crate::solve::spec_grow_count(nodes, cs.subrange(0, 2)) == 1);
    assert(crate::solve::spec_grow_count(nodes, cs) == 1);
    // the spacer takes the whole leftover
    assert(crate::solve::spec_quota(ctx.leftover, 0, 1) == 0) by {
        assert(ctx.leftover * 0 == 0) by (nonlinear_arith);
    }
    assert(crate::solve::spec_quota(ctx.leftover, 1, 1) == ctx.leftover) by {
        assert(ctx.leftover * 1 == ctx.leftover) by (nonlinear_arith);
        vstd::arithmetic::div_mod::lemma_div_multiples_vanish(ctx.leftover, 1);
        assert(1 * ctx.leftover == ctx.leftover) by (nonlinear_arith);
    }
    let sz_a = crate::solve::spec_child_main_size(nodes, v, 0, vw, vh);
    let sz_s = crate::solve::spec_child_main_size(nodes, v, 1, vw, vh);
    let sz_b = crate::solve::spec_child_main_size(nodes, v, 2, vw, vh);
    assert(sz_a == ha);
    assert(sz_s == vh - ha - hb);
    assert(sz_b == hb);
    // offsets: top, then past the first text, then past the spacer
    assert(crate::solve::spec_main_offset(nodes, v, 0, vw, vh) == 0);
    assert(crate::solve::spec_main_offset(nodes, v, 1, vw, vh) == ha);
    assert(crate::solve::spec_main_offset(nodes, v, 2, vw, vh) == vh - hb);
    // read the placed frames back
    assert(placed(
        nodes,
        layouts,
        a,
        crate::solve::spec_child_geometry(nodes, v, 0, vw, vh).0,
        crate::solve::spec_child_geometry(nodes, v, 0, vw, vh).1,
        crate::solve::spec_child_geometry(nodes, v, 0, vw, vh).2,
        crate::solve::spec_child_geometry(nodes, v, 0, vw, vh).3,
    ));
    assert(placed(
        nodes,
        layouts,
        s,
        crate::solve::spec_child_geometry(nodes, v, 1, vw, vh).0,
        crate::solve::spec_child_geometry(nodes, v, 1, vw, vh).1,
        crate::solve::spec_child_geometry(nodes, v, 1, vw, vh).2,
        crate::solve::spec_child_geometry(nodes, v, 1, vw, vh).3,
    ));
    assert(placed(
        nodes,
        layouts,
        b,
        crate::solve::spec_child_geometry(nodes, v, 2, vw, vh).0,
        crate::solve::spec_child_geometry(nodes, v, 2, vw, vh).1,
        crate::solve::spec_child_geometry(nodes, v, 2, vw, vh).2,
        crate::solve::spec_child_geometry(nodes, v, 2, vw, vh).3,
    ));
}

/// A childless node measures to exactly its explicit sizing intents, with
/// automatic axes collapsing to nothing.
proof fn lemma_empty_measure(nodes: Seq<SolverNode>, n: ShadowNode, aw: int, ah: int)
    requires
        n.children@.len() == 0,
        0 <= n.node_id < nodes.len(),
        nodes[n.node_id as int].style.padding == (Rect {
            top: 0u64,
            left: 0u64,
            bottom: 0u64,
            right: 0u64,
        }),
    ensures
        crate::solve::spec_measure(nodes, n, aw, ah).0 == spec_dim_px(
            nodes[n.node_id as int].style.size_width,
            aw,
        ),
        crate::solve::spec_measure(nodes, n, aw, ah).1 == spec_dim_px(
            nodes[n.node_id as int].style.size_height,
            ah,
        ),
{
    assert(crate::solve::spec_row_fold(nodes, n.children@, sat_sub(aw, 0), sat_sub(ah, 0)) == (
        0int,
        0int,
    ));
    assert(crate::solve::spec_col_fold(nodes, n.children@, sat_sub(aw, 0), sat_sub(ah, 0)) == (
        0int,
        0int,
    ));
    assert(spec_total_gap(spec_dim_px(nodes[n.node_id as int].style.gap_width, sat_sub(aw, 0)), 0)
        == 0);
}

/// See [`lemma_dim_px_bounds`] in the solver, restated here for the laws.
proof fn lemma_dim_px_bounds_pub(d: Dimension, avail: int)
    requires
        avail >= 0,
    ensures
        0 <= spec_dim_px(d, avail) <= MAX_LENGTH as int,
{
    crate::solve::lemma_dim_px_bounds(d, avail);
}


} // verus!
