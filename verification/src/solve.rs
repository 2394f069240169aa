//! The constraint solve: turn the solver graph's styles into a position
//! and a size for every node of a shadow subtree.
//!
//! Sizing follows the flexbox model the styles describe.  A node with an
//! explicit length or percent intent resolves it against the space it is
//! given; a node left automatic takes its content size — children summed
//! along the main axis, gaps between them, the maximum across the cross
//! axis, padding around everything.  Placement walks the main axis,
//! dealing leftover space out to the children that grow, and aligns each
//! child on the cross axis per the container's alignment.

use crate::measure::spec_total_gap;
use crate::shadow::forest_size;
use crate::shadow::lemma_forest_child;
use crate::shadow::lemma_forest_prefix_monotone;
use crate::shadow::lemma_forest_singleton;
use crate::shadow::lemma_tree_size_pos;
use crate::shadow::low_id;
use crate::shadow::tree_size;
use crate::shadow::well_formed;
use crate::shadow::ShadowNode;
use crate::style::AlignItems;
use crate::style::Dimension;
use crate::style::FlexDirection;
use crate::style::Style;
use crate::tree::Layout;
use crate::tree::ShadowTree;
use crate::tree::SolverNode;
use crate::units::add_capped;
use crate::units::cap;
use crate::units::cap_length;
use crate::units::lemma_cap_add_assoc;
use crate::units::mul_capped;
use crate::units::pct;
use crate::units::percent_of;
use crate::units::sat_sub;
use crate::units::sub_saturating;
use crate::units::MAX_LENGTH;
use vstd::prelude::*;

verus! {

/// The absolute length a sizing intent yields against a reference, during
/// the solve: automatic intents contribute nothing here.
pub open spec fn spec_dim_px(d: Dimension, avail: int) -> int {
    match d {
        Dimension::Auto => 0,
        Dimension::Length(v) => cap(v as int),
        Dimension::Percent(p) => pct(avail, p as int),
    }
}

/// Resolve a sizing intent against a reference length.
fn dim_px(d: &Dimension, avail: u64) -> (r: u64)
    ensures
        r as int == spec_dim_px(*d, avail as int),
        r <= MAX_LENGTH,
{
    match *d {
        Dimension::Auto => 0,
        Dimension::Length(v) => cap_length(v),
        Dimension::Percent(p) => percent_of(avail, p),
    }
}

/// Against a nonnegative reference, an intent resolves within bounds.
pub proof fn lemma_dim_px_bounds(d: Dimension, avail: int)
    requires
        avail >= 0,
    ensures
        0 <= spec_dim_px(d, avail) <= MAX_LENGTH as int,
{
    match d {
        Dimension::Percent(p) => {
            assert(avail * (p as int) >= 0) by (nonlinear_arith)
                requires
                    avail >= 0,
                    p as int >= 0,
            ;
        },
        _ => {},
    }
}

/// The style the solver graph holds for a shadow node.
pub open spec fn style_of(nodes: Seq<SolverNode>, n: ShadowNode) -> Style {
    nodes[n.node_id as int].style
}

/// Sum of the children's hypothetical widths and maximum of their
/// hypothetical heights, as a row container's content.
pub open spec fn spec_row_fold(nodes: Seq<SolverNode>, cs: Seq<ShadowNode>, aw: int, ah: int) -> (
    int,
    int,
)
    decreases cs, 0int,
{
    if cs.len() == 0 {
        (0, 0)
    } else {
        let m = spec_measure(nodes, cs[0], aw, ah);
        let rest = spec_row_fold(nodes, cs.subrange(1, cs.len() as int), aw, ah);
        (cap(m.0 + rest.0), if m.1 > rest.1 {
            m.1
        } else {
            rest.1
        })
    }
}

/// Maximum of the children's hypothetical widths and sum of their
/// hypothetical heights, as a column container's content.
pub open spec fn spec_col_fold(nodes: Seq<SolverNode>, cs: Seq<ShadowNode>, aw: int, ah: int) -> (
    int,
    int,
)
    decreases cs, 0int,
{
    if cs.len() == 0 {
        (0, 0)
    } else {
        let m = spec_measure(nodes, cs[0], aw, ah);
        let rest = spec_col_fold(nodes, cs.subrange(1, cs.len() as int), aw, ah);
        (if m.0 > rest.0 {
            m.0
        } else {
            rest.0
        }, cap(m.1 + rest.1))
    }
}

/// The size a node takes when offered `aw` by `ah`: explicit intents
/// resolve against the offer, and an automatic axis takes the content —
/// children folded along the style's direction, gaps between them, the
/// node's padding back around the result.
pub open spec fn spec_measure(nodes: Seq<SolverNode>, n: ShadowNode, aw: int, ah: int) -> (int, int)
    decreases n, 1int,
{
    let st = style_of(nodes, n);
    let pad_w = st.padding.left as int + st.padding.right as int;
    let pad_h = st.padding.top as int + st.padding.bottom as int;
    let cw = sat_sub(aw, pad_w);
    let ch = sat_sub(ah, pad_h);
    let content = if st.flex_direction is Row {
        let f = spec_row_fold(nodes, n.children@, cw, ch);
        let gap = spec_dim_px(st.gap_width, cw);
        (cap(f.0 + spec_total_gap(gap, n.children@.len() as int)), f.1)
    } else {
        let f = spec_col_fold(nodes, n.children@, cw, ch);
        let gap = spec_dim_px(st.gap_height, ch);
        (f.0, cap(f.1 + spec_total_gap(gap, n.children@.len() as int)))
    };
    let w = match st.size_width {
        Dimension::Length(v) => cap(v as int),
        Dimension::Percent(p) => pct(aw, p as int),
        Dimension::Auto => cap(content.0 + pad_w),
    };
    let h = match st.size_height {
        Dimension::Length(v) => cap(v as int),
        Dimension::Percent(p) => pct(ah, p as int),
        Dimension::Auto => cap(content.1 + pad_h),
    };
    (w, h)
}

/// A node measures within bounds when offered nonnegative space.
pub proof fn lemma_measure_bounds(nodes: Seq<SolverNode>, n: ShadowNode, aw: int, ah: int)
    requires
        aw >= 0,
        ah >= 0,
    ensures
        0 <= spec_measure(nodes, n, aw, ah).0 <= MAX_LENGTH as int,
        0 <= spec_measure(nodes, n, aw, ah).1 <= MAX_LENGTH as int,
    decreases n, 1int,
{
    let st = style_of(nodes, n);
    let pad_w = st.padding.left as int + st.padding.right as int;
    let pad_h = st.padding.top as int + st.padding.bottom as int;
    let cw = sat_sub(aw, pad_w);
    let ch = sat_sub(ah, pad_h);
    if st.flex_direction is Row {
        lemma_fold_bounds(nodes, n.children@, cw, ch);
    } else {
        lemma_fold_bounds(nodes, n.children@, cw, ch);
    }
    lemma_dim_px_bounds(st.size_width, aw);
    lemma_dim_px_bounds(st.size_height, ah);
    match st.size_width {
        Dimension::Percent(p) => {
            assert(aw * (p as int) >= 0) by (nonlinear_arith)
                requires
                    aw >= 0,
                    p as int >= 0,
            ;
        },
        _ => {},
    }
    match st.size_height {
        Dimension::Percent(p) => {
            assert(ah * (p as int) >= 0) by (nonlinear_arith)
                requires
                    ah >= 0,
                    p as int >= 0,
            ;
        },
        _ => {},
    }
}

/// Both content folds stay within bounds for nonnegative offers.
pub proof fn lemma_fold_bounds(nodes: Seq<SolverNode>, cs: Seq<ShadowNode>, aw: int, ah: int)
    requires
        aw >= 0,
        ah >= 0,
    ensures
        0 <= spec_row_fold(nodes, cs, aw, ah).0 <= MAX_LENGTH as int,
        0 <= spec_row_fold(nodes, cs, aw, ah).1 <= MAX_LENGTH as int,
        0 <= spec_col_fold(nodes, cs, aw, ah).0 <= MAX_LENGTH as int,
        0 <= spec_col_fold(nodes, cs, aw, ah).1 <= MAX_LENGTH as int,
    decreases cs, 0int,
{
    if cs.len() > 0 {
        lemma_measure_bounds(nodes, cs[0], aw, ah);
        lemma_fold_bounds(nodes, cs.subrange(1, cs.len() as int), aw, ah);
    }
}

impl ShadowTree {
    /// The size a subtree takes when offered the given space, from its
    /// styles alone.
    pub fn measure_node(&self, node: &ShadowNode, available_width: u64, available_height: u64) -> (
    r: (u64, u64))
        requires
            self.inv(),
            well_formed(*node),
            0 <= low_id(*node),
            node.node_id < self.nodes@.len(),
        ensures
            r.0 as int == spec_measure(
                self.nodes@,
                *node,
                available_width as int,
                available_height as int,
            ).0,
            r.1 as int == spec_measure(
                self.nodes@,
                *node,
                available_width as int,
                available_height as int,
            ).1,
            r.0 <= MAX_LENGTH,
            r.1 <= MAX_LENGTH,
        decreases *node, 1int,
    {
        let ghost nodes = self.nodes@;
        let st = self.nodes[node.node_id].style;
        let pad_w = add_capped(st.padding.left, st.padding.right);
        let cw = sub_saturating(sub_saturating(available_width, st.padding.left),
            st.padding.right);
        let ch = sub_saturating(sub_saturating(available_height, st.padding.top),
            st.padding.bottom);
        proof {
            assert(cw as int == sat_sub(
                available_width as int,
                st.padding.left as int + st.padding.right as int,
            ));
            assert(ch as int == sat_sub(
                available_height as int,
                st.padding.top as int + st.padding.bottom as int,
            ));
            lemma_fold_bounds(nodes, node.children@, cw as int, ch as int);
        }
        let ghost cs = node.children@;
        let row = matches!(st.flex_direction, FlexDirection::Row);
        let ghost row_goal = spec_row_fold(nodes, cs, cw as int, ch as int);
        let ghost col_goal = spec_col_fold(nodes, cs, cw as int, ch as int);
        let mut sum: u64 = 0;
        let mut largest: u64 = 0;
        let mut i: usize = 0;
        proof {
            assert(cs.subrange(0, cs.len() as int) =~= cs);
        }
        while i < node.children.len()
            invariant
                self.inv(),
                well_formed(*node),
                0 <= low_id(*node),
                node.node_id < self.nodes@.len(),
                nodes == self.nodes@,
                cs == node.children@,
                cw as int == sat_sub(
                    available_width as int,
                    style_of(nodes, *node).padding.left as int + style_of(
                        nodes,
                        *node,
                    ).padding.right as int,
                ),
                i <= cs.len(),
                sum <= MAX_LENGTH,
                largest <= MAX_LENGTH,
                row_goal == spec_row_fold(nodes, cs, cw as int, ch as int),
                col_goal == spec_col_fold(nodes, cs, cw as int, ch as int),
                row ==> ({
                    let rest = spec_row_fold(
                        nodes,
                        cs.subrange(i as int, cs.len() as int),
                        cw as int,
                        ch as int,
                    );
                    &&& row_goal.0 == cap(sum as int + rest.0)
                    &&& row_goal.1 == if largest as int > rest.1 {
                        largest as int
                    } else {
                        rest.1
                    }
                }),
                !row ==> ({
                    let rest = spec_col_fold(
                        nodes,
                        cs.subrange(i as int, cs.len() as int),
                        cw as int,
                        ch as int,
                    );
                    &&& col_goal.0 == if largest as int > rest.0 {
                        largest as int
                    } else {
                        rest.0
                    }
                    &&& col_goal.1 == cap(sum as int + rest.1)
                }),
            decreases cs.len() - i,
        {
            proof {
                assert(cs.subrange(i as int, cs.len() as int)[0] == cs[i as int]);
                assert(cs.subrange(i as int, cs.len() as int).subrange(
                    1,
                    cs.len() - i,
                ) =~= cs.subrange(i as int + 1, cs.len() as int));
                lemma_forest_child(cs, low_id(*node), i as int);
                lemma_fold_bounds(
                    nodes,
                    cs.subrange(i as int + 1, cs.len() as int),
                    cw as int,
                    ch as int,
                );
                lemma_measure_bounds(nodes, cs[i as int], cw as int, ch as int);
            }
            let m = self.measure_node(&node.children[i], cw, ch);
            if row {
                proof {
                    let rest_next = spec_row_fold(
                        nodes,
                        cs.subrange(i as int + 1, cs.len() as int),
                        cw as int,
                        ch as int,
                    );
                    lemma_cap_add_assoc(sum as int, m.0 as int, rest_next.0);
                }
                sum = add_capped(sum, m.0);
                if m.1 > largest {
                    largest = m.1;
                }
            } else {
                proof {
                    let rest_next = spec_col_fold(
                        nodes,
                        cs.subrange(i as int + 1, cs.len() as int),
                        cw as int,
                        ch as int,
                    );
                    lemma_cap_add_assoc(sum as int, m.1 as int, rest_next.1);
                }
                sum = add_capped(sum, m.1);
                if m.0 > largest {
                    largest = m.0;
                }
            }
            i = i + 1;
        }
        proof {
            assert(cs.subrange(cs.len() as int, cs.len() as int) =~= Seq::<ShadowNode>::empty());
        }
        let gap = if row {
            dim_px(&st.gap_width, cw)
        } else {
            dim_px(&st.gap_height, ch)
        };
        let mut main = sum;
        if node.children.len() > 1 {
            main = add_capped(main, mul_capped(gap, (node.children.len() - 1) as u64));
        }
        let content_w = if row {
            main
        } else {
            largest
        };
        let content_h = if row {
            largest
        } else {
            main
        };
        let width = match st.size_width {
            Dimension::Length(v) => cap_length(v),
            Dimension::Percent(p) => percent_of(available_width, p),
            Dimension::Auto => {
                proof {
                    lemma_cap_add_assoc(
                        content_w as int,
                        st.padding.left as int,
                        st.padding.right as int,
                    );
                }
                add_capped(add_capped(content_w, st.padding.left), st.padding.right)
            },
        };
        let height = match st.size_height {
            Dimension::Length(v) => cap_length(v),
            Dimension::Percent(p) => percent_of(available_height, p),
            Dimension::Auto => {
                proof {
                    lemma_cap_add_assoc(
                        content_h as int,
                        st.padding.top as int,
                        st.padding.bottom as int,
                    );
                }
                add_capped(add_capped(content_h, st.padding.top), st.padding.bottom)
            },
        };
        proof {
            lemma_measure_bounds(nodes, *node, available_width as int, available_height as int);
        }
        (width, height)
    }
}


/// Leftover space is dealt out through cumulative integer quotas: the
/// `r`-th quota of `leftover` among `g` growing children.  Successive
/// quota differences hand each grower its share, and they sum to exactly
/// the leftover.
pub open spec fn spec_quota(leftover: int, r: int, g: int) -> int {
    if g > 0 {
        (leftover * r) / g
    } else {
        0
    }
}

/// Quotas are nonnegative, ordered, and never exceed the leftover.
pub proof fn lemma_quota_bounds(leftover: int, r: int, g: int)
    requires
        0 <= leftover,
        0 <= r <= g,
    ensures
        0 <= spec_quota(leftover, r, g) <= leftover,
        r < g ==> spec_quota(leftover, r, g) <= spec_quota(leftover, r + 1, g),
{
    if g > 0 {
        vstd::arithmetic::mul::lemma_mul_inequality(0, leftover, r);
        assert(leftover * 0 == 0) by (nonlinear_arith);
        assert(0 * r == 0) by (nonlinear_arith);
        assert(leftover * r >= 0) by (nonlinear_arith)
            requires
                leftover >= 0,
                r >= 0,
        ;
        vstd::arithmetic::div_mod::lemma_div_pos_is_pos(leftover * r, g);
        assert(leftover * r <= leftover * g) by (nonlinear_arith)
            requires
                leftover >= 0,
                r <= g,
        ;
        vstd::arithmetic::div_mod::lemma_div_is_ordered(leftover * r, leftover * g, g);
        assert(leftover * g == g * leftover) by (nonlinear_arith);
        vstd::arithmetic::div_mod::lemma_div_multiples_vanish(leftover, g);
        if r < g {
            assert(leftover * r <= leftover * (r + 1)) by (nonlinear_arith)
                requires
                    leftover >= 0,
            ;
            vstd::arithmetic::div_mod::lemma_div_is_ordered(
                leftover * r,
                leftover * (r + 1),
                g,
            );
        }
    }
}

/// The `r`-th quota of `leftover` among `g` growers.
fn quota(leftover: u64, r: u64, g: u64) -> (q: u64)
    requires
        leftover <= MAX_LENGTH,
        r <= g,
    ensures
        q as int == spec_quota(leftover as int, r as int, g as int),
        q <= leftover,
{
    proof {
        lemma_quota_bounds(leftover as int, r as int, g as int);
        assert((leftover as int) * (r as int) <= (u64::MAX as int) * (u64::MAX as int))
            by (nonlinear_arith)
            requires
                0 <= leftover as int <= u64::MAX as int,
                0 <= r as int <= u64::MAX as int,
        ;
    }
    if g == 0 {
        0
    } else {
        let wide = ((leftover as u128) * (r as u128)) / (g as u128);
        wide as u64
    }
}

/// Whether the solver entry of a node absorbs leftover main-axis space.
pub open spec fn spec_grows(nodes: Seq<SolverNode>, c: ShadowNode) -> bool {
    nodes[c.node_id as int].style.flex_grow
}

/// How many of the subtrees grow.
pub open spec fn spec_grow_count(nodes: Seq<SolverNode>, cs: Seq<ShadowNode>) -> int
    decreases cs,
{
    if cs.len() == 0 {
        0
    } else {
        spec_grow_count(nodes, cs.drop_last()) + if spec_grows(nodes, cs.last()) {
            1int
        } else {
            0int
        }
    }
}

/// Grow counts are nonnegative and grow with the prefix.
pub proof fn lemma_grow_count_bounds(nodes: Seq<SolverNode>, cs: Seq<ShadowNode>)
    ensures
        0 <= spec_grow_count(nodes, cs) <= cs.len(),
    decreases cs,
{
    if cs.len() > 0 {
        lemma_grow_count_bounds(nodes, cs.drop_last());
    }
}

/// A prefix never counts more growers than the whole.
pub proof fn lemma_grow_count_prefix_le(nodes: Seq<SolverNode>, cs: Seq<ShadowNode>, i: int)
    requires
        0 <= i <= cs.len(),
    ensures
        spec_grow_count(nodes, cs.subrange(0, i)) <= spec_grow_count(nodes, cs),
    decreases cs.len(),
{
    if i < cs.len() {
        assert(cs.drop_last().subrange(0, i) =~= cs.subrange(0, i));
        lemma_grow_count_prefix_le(nodes, cs.drop_last(), i);
    } else {
        assert(cs.subrange(0, i) =~= cs);
    }
}

/// The hypothetical main-axis size of a child inside a container's
/// content box.
pub open spec fn spec_child_base(
    nodes: Seq<SolverNode>,
    c: ShadowNode,
    content_w: int,
    content_h: int,
    row: bool,
) -> int {
    if row {
        spec_measure(nodes, c, content_w, content_h).0
    } else {
        spec_measure(nodes, c, content_w, content_h).1
    }
}

/// The capped sum of the children's base main sizes, accumulated left to
/// right.
pub open spec fn spec_base_fold(
    nodes: Seq<SolverNode>,
    cs: Seq<ShadowNode>,
    content_w: int,
    content_h: int,
    row: bool,
) -> int
    decreases cs,
{
    if cs.len() == 0 {
        0
    } else {
        cap(
            spec_base_fold(nodes, cs.drop_last(), content_w, content_h, row) + spec_child_base(
                nodes,
                cs.last(),
                content_w,
                content_h,
                row,
            ),
        )
    }
}

/// Base sums stay within bounds for nonnegative content boxes.
pub proof fn lemma_base_fold_bounds(
    nodes: Seq<SolverNode>,
    cs: Seq<ShadowNode>,
    content_w: int,
    content_h: int,
    row: bool,
)
    requires
        content_w >= 0,
        content_h >= 0,
    ensures
        0 <= spec_base_fold(nodes, cs, content_w, content_h, row) <= MAX_LENGTH as int,
    decreases cs,
{
    if cs.len() > 0 {
        lemma_base_fold_bounds(nodes, cs.drop_last(), content_w, content_h, row);
        lemma_measure_bounds(nodes, cs.last(), content_w, content_h);
    }
}

/// Everything the placement of one container's children depends on.
pub struct SolveContext {
    /// Whether the main axis is horizontal.
    pub row: bool,
    /// The content box, the size less the padding.
    pub content_w: int,
    pub content_h: int,
    /// Content box extent along the main and the cross axis.
    pub main_content: int,
    pub cross_content: int,
    /// The resolved gap between adjacent children.
    pub gap: int,
    /// Cross-axis alignment, with the unset default already applied.
    pub align: AlignItems,
    /// How many children grow.
    pub grow_total: int,
    /// The children's base sizes plus gaps, and what is left after them.
    pub base_total: int,
    pub leftover: int,
}

/// The placement context of a container laid out at the given size.
pub open spec fn spec_solve_ctx(nodes: Seq<SolverNode>, n: ShadowNode, w: int, h: int) -> SolveContext {
    let st = style_of(nodes, n);
    let content_w = sat_sub(w, st.padding.left as int + st.padding.right as int);
    let content_h = sat_sub(h, st.padding.top as int + st.padding.bottom as int);
    let row = st.flex_direction is Row;
    let main_content = if row {
        content_w
    } else {
        content_h
    };
    let cross_content = if row {
        content_h
    } else {
        content_w
    };
    let gap = if row {
        spec_dim_px(st.gap_width, content_w)
    } else {
        spec_dim_px(st.gap_height, content_h)
    };
    let base_total = cap(
        spec_base_fold(nodes, n.children@, content_w, content_h, row) + spec_total_gap(
            gap,
            n.children@.len() as int,
        ),
    );
    SolveContext {
        row,
        content_w,
        content_h,
        main_content,
        cross_content,
        gap,
        align: match st.align_items {
            Some(a) => a,
            None => AlignItems::Stretch,
        },
        grow_total: spec_grow_count(nodes, n.children@),
        base_total,
        leftover: sat_sub(main_content, base_total),
    }
}

/// The main-axis size child `k` ends with: its base size plus its share
/// of the leftover when it grows.
pub open spec fn spec_child_main_size(
    nodes: Seq<SolverNode>,
    n: ShadowNode,
    k: int,
    w: int,
    h: int,
) -> int {
    let ctx = spec_solve_ctx(nodes, n, w, h);
    let c = n.children@[k];
    let base = spec_child_base(nodes, c, ctx.content_w, ctx.content_h, ctx.row);
    let extra = if spec_grows(nodes, c) && ctx.grow_total > 0 {
        let r = spec_grow_count(nodes, n.children@.subrange(0, k));
        spec_quota(ctx.leftover, r + 1, ctx.grow_total) - spec_quota(
            ctx.leftover,
            r,
            ctx.grow_total,
        )
    } else {
        0
    };
    cap(base + extra)
}

/// The cross-axis size child `k` ends with: stretched to the container's
/// cross content when its own cross intent is automatic under `Stretch`
/// alignment, otherwise its hypothetical cross size.
pub open spec fn spec_child_cross_size(
    nodes: Seq<SolverNode>,
    n: ShadowNode,
    k: int,
    w: int,
    h: int,
) -> int {
    let ctx = spec_solve_ctx(nodes, n, w, h);
    let c = n.children@[k];
    let cross_dim = if ctx.row {
        style_of(nodes, c).size_height
    } else {
        style_of(nodes, c).size_width
    };
    if cross_dim is Auto && ctx.align is Stretch {
        ctx.cross_content
    } else {
        if ctx.row {
            spec_measure(nodes, c, ctx.content_w, ctx.content_h).1
        } else {
            spec_measure(nodes, c, ctx.content_w, ctx.content_h).0
        }
    }
}

/// Where the container's children start along each axis.
pub open spec fn spec_main_start(nodes: Seq<SolverNode>, n: ShadowNode) -> int {
    let st = style_of(nodes, n);
    if st.flex_direction is Row {
        cap(st.padding.left as int)
    } else {
        cap(st.padding.top as int)
    }
}

/// The cross-axis inset of the container's content box.
pub open spec fn spec_cross_start(nodes: Seq<SolverNode>, n: ShadowNode) -> int {
    let st = style_of(nodes, n);
    if st.flex_direction is Row {
        cap(st.padding.top as int)
    } else {
        cap(st.padding.left as int)
    }
}

/// The main-axis offset of child `k`: the padding inset, advanced past
/// every earlier child and one gap each.
pub open spec fn spec_main_offset(nodes: Seq<SolverNode>, n: ShadowNode, k: int, w: int, h: int) -> int
    decreases k,
{
    if k <= 0 {
        spec_main_start(nodes, n)
    } else {
        let ctx = spec_solve_ctx(nodes, n, w, h);
        cap(
            spec_main_offset(nodes, n, k - 1, w, h) + spec_child_main_size(nodes, n, k - 1, w, h)
                + ctx.gap,
        )
    }
}

/// The cross-axis offset of child `k`, per the container's alignment.
pub open spec fn spec_cross_offset(nodes: Seq<SolverNode>, n: ShadowNode, k: int, w: int, h: int) -> int {
    let ctx = spec_solve_ctx(nodes, n, w, h);
    let csize = spec_child_cross_size(nodes, n, k, w, h);
    let start = spec_cross_start(nodes, n);
    match ctx.align {
        AlignItems::Start => start,
        AlignItems::Stretch => start,
        AlignItems::Center => cap(start + sat_sub(ctx.cross_content, csize) / 2),
        AlignItems::End => cap(start + sat_sub(ctx.cross_content, csize)),
    }
}

/// The frame of child `k` relative to its container: position and size on
/// both axes, mapped back from main/cross to x/y.
#[verifier::opaque]
pub open spec fn spec_child_geometry(
    nodes: Seq<SolverNode>,
    n: ShadowNode,
    k: int,
    w: int,
    h: int,
) -> (int, int, int, int) {
    let ctx = spec_solve_ctx(nodes, n, w, h);
    let main_pos = spec_main_offset(nodes, n, k, w, h);
    let cross_pos = spec_cross_offset(nodes, n, k, w, h);
    let main_size = spec_child_main_size(nodes, n, k, w, h);
    let cross_size = spec_child_cross_size(nodes, n, k, w, h);
    if ctx.row {
        (main_pos, cross_pos, main_size, cross_size)
    } else {
        (cross_pos, main_pos, cross_size, main_size)
    }
}

/// Every frame the geometry yields is within bounds when the container's
/// own frame is.
pub proof fn lemma_geometry_bounds(nodes: Seq<SolverNode>, n: ShadowNode, k: int, w: int, h: int)
    requires
        0 <= w <= MAX_LENGTH as int,
        0 <= h <= MAX_LENGTH as int,
        0 <= k < n.children@.len(),
    ensures
        ({
            let geo = spec_child_geometry(nodes, n, k, w, h);
            &&& 0 <= geo.0 <= MAX_LENGTH as int
            &&& 0 <= geo.1 <= MAX_LENGTH as int
            &&& 0 <= geo.2 <= MAX_LENGTH as int
            &&& 0 <= geo.3 <= MAX_LENGTH as int
        }),
    decreases k,
{
    reveal(spec_child_geometry);
    let ctx = spec_solve_ctx(nodes, n, w, h);
    let c = n.children@[k];
    lemma_measure_bounds(nodes, c, ctx.content_w, ctx.content_h);
    lemma_grow_count_bounds(nodes, n.children@);
    lemma_grow_count_bounds(nodes, n.children@.subrange(0, k));
    lemma_grow_count_prefix_le(nodes, n.children@, k);
    if spec_grows(nodes, c) && ctx.grow_total > 0 {
        let r = spec_grow_count(nodes, n.children@.subrange(0, k));
        assert(cs_grow_step(nodes, n.children@, k) == r + 1) by {
            lemma_grow_count_snoc(nodes, n.children@, k);
        }
        lemma_grow_count_prefix_le(nodes, n.children@, k + 1);
        lemma_quota_bounds(ctx.leftover, r, ctx.grow_total);
        lemma_quota_bounds(ctx.leftover, r + 1, ctx.grow_total);
    }
    if k > 0 {
        lemma_geometry_bounds(nodes, n, k - 1, w, h);
    }
}

/// The grow count of a prefix one longer: the shorter prefix plus the
/// stepped child's own contribution.
pub open spec fn cs_grow_step(nodes: Seq<SolverNode>, cs: Seq<ShadowNode>, k: int) -> int {
    spec_grow_count(nodes, cs.subrange(0, k + 1))
}

/// Extending a prefix by one child adds exactly that child's grow flag.
pub proof fn lemma_grow_count_snoc(nodes: Seq<SolverNode>, cs: Seq<ShadowNode>, k: int)
    requires
        0 <= k < cs.len(),
    ensures
        spec_grow_count(nodes, cs.subrange(0, k + 1)) == spec_grow_count(nodes, cs.subrange(0, k))
            + if spec_grows(nodes, cs[k]) {
            1int
        } else {
            0int
        },
{
    let pre = cs.subrange(0, k + 1);
    assert(pre.last() == cs[k]);
    assert(pre.drop_last() =~= cs.subrange(0, k));
}


/// One step of the placement walk, ghost side: once child `j`'s subtree is
/// placed and its writes stayed inside its own handle range, the children
/// before it are still placed, the container's own slot is untouched, and
/// the written region grows by exactly the child's subtree.
pub proof fn lemma_place_step(
    nodes: Seq<SolverNode>,
    n: ShadowNode,
    old_l: Seq<Option<Layout>>,
    pre_l: Seq<Option<Layout>>,
    now_l: Seq<Option<Layout>>,
    j: int,
    w: int,
    h: int,
)
    requires
        well_formed(n),
        0 <= low_id(n),
        0 <= j < n.children@.len(),
        pre_l.len() == old_l.len(),
        now_l.len() == pre_l.len(),
        forall|k: int|
            0 <= k < j ==> placed(
                nodes,
                pre_l,
                #[trigger] n.children@[k],
                spec_child_geometry(nodes, n, k, w, h).0,
                spec_child_geometry(nodes, n, k, w, h).1,
                spec_child_geometry(nodes, n, k, w, h).2,
                spec_child_geometry(nodes, n, k, w, h).3,
            ),
        forall|i: int|
            0 <= i < pre_l.len() && !(low_id(n) <= i < low_id(n) + forest_size(
                n.children@.subrange(0, j),
            )) && i != n.node_id as int ==> pre_l[i] == old_l[i],
        placed(
            nodes,
            now_l,
            n.children@[j],
            spec_child_geometry(nodes, n, j, w, h).0,
            spec_child_geometry(nodes, n, j, w, h).1,
            spec_child_geometry(nodes, n, j, w, h).2,
            spec_child_geometry(nodes, n, j, w, h).3,
        ),
        forall|i: int|
            0 <= i < now_l.len() && !(low_id(n.children@[j]) <= i <= n.children@[j].node_id as int)
                ==> now_l[i] == pre_l[i],
    ensures
        forall|k: int|
            0 <= k < j + 1 ==> placed(
                nodes,
                now_l,
                #[trigger] n.children@[k],
                spec_child_geometry(nodes, n, k, w, h).0,
                spec_child_geometry(nodes, n, k, w, h).1,
                spec_child_geometry(nodes, n, k, w, h).2,
                spec_child_geometry(nodes, n, k, w, h).3,
            ),
        forall|i: int|
            0 <= i < now_l.len() && !(low_id(n) <= i < low_id(n) + forest_size(
                n.children@.subrange(0, j + 1),
            )) && i != n.node_id as int ==> now_l[i] == old_l[i],
        n.node_id as int != n.children@[j].node_id as int && !(low_id(n.children@[j])
            <= n.node_id as int <= n.children@[j].node_id as int),
{
    let cs = n.children@;
    let lo = low_id(n);
    lemma_tree_size_pos(n);
    lemma_forest_child(cs, lo, j);
    lemma_forest_singleton(cs, j);
    lemma_forest_prefix_monotone(cs, j, j + 1);
    lemma_tree_size_pos(cs[j]);
    assert forall|k: int| 0 <= k < j + 1 implies placed(
        nodes,
        now_l,
        #[trigger] cs[k],
        spec_child_geometry(nodes, n, k, w, h).0,
        spec_child_geometry(nodes, n, k, w, h).1,
        spec_child_geometry(nodes, n, k, w, h).2,
        spec_child_geometry(nodes, n, k, w, h).3,
    ) by {
        lemma_forest_child(cs, lo, k);
        if k < j {
            lemma_forest_prefix_monotone(cs, k + 1, j);
            lemma_forest_prefix_monotone(cs, k, k + 1);
            lemma_forest_singleton(cs, k);
            lemma_tree_size_pos(cs[k]);
            lemma_placed_agree(
                nodes,
                pre_l,
                now_l,
                cs[k],
                spec_child_geometry(nodes, n, k, w, h).0,
                spec_child_geometry(nodes, n, k, w, h).1,
                spec_child_geometry(nodes, n, k, w, h).2,
                spec_child_geometry(nodes, n, k, w, h).3,
            );
        }
    }
    assert forall|i: int|
        0 <= i < now_l.len() && !(lo <= i < lo + forest_size(cs.subrange(0, j + 1))) && i
            != n.node_id as int implies now_l[i] == old_l[i] by {
        assert(forest_size(cs.subrange(0, j + 1)) == forest_size(cs.subrange(0, j)) + tree_size(
            cs[j],
        ));
    }
}

/// The frame values the walk computes for child `j` are exactly its
/// geometry, main size and cross placement included.
pub proof fn lemma_frame_values(
    nodes: Seq<SolverNode>,
    n: ShadowNode,
    j: int,
    w: int,
    h: int,
    base: int,
    csize: int,
    extra: int,
    msize: int,
    cpos: int,
    cross_start: int,
    cross_content: int,
)
    requires
        well_formed(n),
        0 <= low_id(n),
        0 <= j < n.children@.len(),
        0 <= n.node_id < nodes.len(),
        ({
            let ctx = spec_solve_ctx(nodes, n, w, h);
            &&& base == spec_child_base(nodes, n.children@[j], ctx.content_w, ctx.content_h,
                ctx.row)
            &&& csize == spec_child_cross_size(nodes, n, j, w, h)
            &&& cross_content == ctx.cross_content
            &&& cross_start == spec_cross_start(nodes, n)
            &&& extra == if spec_grows(nodes, n.children@[j]) && ctx.grow_total > 0 {
                let r = spec_grow_count(nodes, n.children@.subrange(0, j));
                spec_quota(ctx.leftover, r + 1, ctx.grow_total) - spec_quota(
                    ctx.leftover,
                    r,
                    ctx.grow_total,
                )
            } else {
                0
            }
            &&& msize == cap(base + extra)
            &&& cpos == match ctx.align {
                AlignItems::Start => cross_start,
                AlignItems::Stretch => cross_start,
                AlignItems::Center => cap(cross_start + sat_sub(cross_content, csize) / 2),
                AlignItems::End => cap(cross_start + sat_sub(cross_content, csize)),
            }
        }),
    ensures
        msize == spec_child_main_size(nodes, n, j, w, h),
        cpos == spec_cross_offset(nodes, n, j, w, h),
        ({
            let ctx = spec_solve_ctx(nodes, n, w, h);
            let mpos = spec_main_offset(nodes, n, j, w, h);
            spec_child_geometry(nodes, n, j, w, h) == if ctx.row {
                (mpos, cpos, msize, csize)
            } else {
                (cpos, mpos, csize, msize)
            }
        }),
{
    reveal(spec_child_geometry);
}

/// The subtree's layout cache holds exactly the frames of this solve
/// generation: the node itself at the given frame, and every child at
/// the frame its container's geometry assigns it, recursively.
pub open spec fn placed(
    nodes: Seq<SolverNode>,
    layouts: Seq<Option<Layout>>,
    n: ShadowNode,
    x: int,
    y: int,
    w: int,
    h: int,
) -> bool
    decreases n,
{
    &&& 0 <= n.node_id < layouts.len()
    &&& layouts[n.node_id as int] == Some(
        Layout { x: x as u64, y: y as u64, width: w as u64, height: h as u64 },
    )
    &&& forall|k: int|
        0 <= k < n.children@.len() ==> placed(
            nodes,
            layouts,
            #[trigger] n.children@[k],
            spec_child_geometry(nodes, n, k, w, h).0,
            spec_child_geometry(nodes, n, k, w, h).1,
            spec_child_geometry(nodes, n, k, w, h).2,
            spec_child_geometry(nodes, n, k, w, h).3,
        )
}


/// A container whose own slot holds its frame and whose children are each
/// placed at their geometry is placed.
pub proof fn lemma_assemble_placed(
    nodes: Seq<SolverNode>,
    layouts: Seq<Option<Layout>>,
    n: ShadowNode,
    x: int,
    y: int,
    w: int,
    h: int,
)
    requires
        0 <= n.node_id < layouts.len(),
        layouts[n.node_id as int] == Some(
            Layout { x: x as u64, y: y as u64, width: w as u64, height: h as u64 },
        ),
        forall|k: int|
            0 <= k < n.children@.len() ==> placed(
                nodes,
                layouts,
                #[trigger] n.children@[k],
                spec_child_geometry(nodes, n, k, w, h).0,
                spec_child_geometry(nodes, n, k, w, h).1,
                spec_child_geometry(nodes, n, k, w, h).2,
                spec_child_geometry(nodes, n, k, w, h).3,
            ),
    ensures
        placed(nodes, layouts, n, x, y, w, h),
{
}

/// Being placed only depends on the subtree's own layout slots.
pub proof fn lemma_placed_agree(
    nodes: Seq<SolverNode>,
    layouts1: Seq<Option<Layout>>,
    layouts2: Seq<Option<Layout>>,
    n: ShadowNode,
    x: int,
    y: int,
    w: int,
    h: int,
)
    requires
        well_formed(n),
        placed(nodes, layouts1, n, x, y, w, h),
        layouts2.len() == layouts1.len(),
        forall|j: int| low_id(n) <= j <= n.node_id ==> layouts2[j] == layouts1[j],
    ensures
        placed(nodes, layouts2, n, x, y, w, h),
    decreases n,
{
    lemma_tree_size_pos(n);
    assert forall|k: int| 0 <= k < n.children@.len() implies placed(
        nodes,
        layouts2,
        #[trigger] n.children@[k],
        spec_child_geometry(nodes, n, k, w, h).0,
        spec_child_geometry(nodes, n, k, w, h).1,
        spec_child_geometry(nodes, n, k, w, h).2,
        spec_child_geometry(nodes, n, k, w, h).3,
    ) by {
        lemma_forest_child(n.children@, low_id(n), k);
        lemma_placed_agree(
            nodes,
            layouts1,
            layouts2,
            n.children@[k],
            spec_child_geometry(nodes, n, k, w, h).0,
            spec_child_geometry(nodes, n, k, w, h).1,
            spec_child_geometry(nodes, n, k, w, h).2,
            spec_child_geometry(nodes, n, k, w, h).3,
        );
    }
}


impl ShadowTree {
    /// Run the flexbox-style solve over the subtree reachable from `root`:
    /// the root is sized against the given available space and placed at
    /// the origin, and every node below it gets its frame written into the
    /// layout cache, overwriting whatever generation was there before.
    /// Layout slots outside the subtree's handle range are untouched.
    pub fn compute_layout(&mut self, root: &ShadowNode, available_width: u64, available_height: u64)
        requires
            old(self).inv(),
            well_formed(*root),
            0 <= low_id(*root),
            root.node_id < old(self).nodes@.len(),
        ensures
            final(self).inv(),
            final(self).nodes == old(self).nodes,
            final(self).root == old(self).root,
            final(self).layouts@.len() == old(self).layouts@.len(),
            forall|j: int|
                0 <= j < final(self).layouts@.len() && !(low_id(*root) <= j <= root.node_id as int)
                    ==> final(self).layouts@[j] == old(self).layouts@[j],
            placed(
                final(self).nodes@,
                final(self).layouts@,
                *root,
                0,
                0,
                spec_measure(
                    final(self).nodes@,
                    *root,
                    available_width as int,
                    available_height as int,
                ).0,
                spec_measure(
                    final(self).nodes@,
                    *root,
                    available_width as int,
                    available_height as int,
                ).1,
            ),
    {
        let r = self.measure_node(root, available_width, available_height);
        self.solve_node(root, 0, 0, r.0, r.1);
    }


    /// Measure every child of a container laid out at the given size:
    /// base main sizes, final cross sizes, grow flags, the base total
    /// including gaps, and the number of growing children.
    #[verifier::rlimit(100)]
    fn measure_pass(&self, node: &ShadowNode, w: u64, h: u64) -> (r: (
        Vec<u64>,
        Vec<u64>,
        Vec<bool>,
        u64,
        u64,
    ))
        requires
            self.inv(),
            well_formed(*node),
            0 <= low_id(*node),
            node.node_id < self.nodes@.len(),
            w <= MAX_LENGTH,
            h <= MAX_LENGTH,
        ensures
            ({
                let nodes = self.nodes@;
                let cs = node.children@;
                let ctx = spec_solve_ctx(nodes, *node, w as int, h as int);
                &&& r.0@.len() == cs.len()
                &&& r.1@.len() == cs.len()
                &&& r.2@.len() == cs.len()
                &&& forall|k: int|
                    0 <= k < cs.len() ==> r.0@[k] as int == spec_child_base(
                        nodes,
                        #[trigger] cs[k],
                        ctx.content_w,
                        ctx.content_h,
                        ctx.row,
                    )
                &&& forall|k: int|
                    0 <= k < cs.len() ==> #[trigger] r.1@[k] as int == spec_child_cross_size(
                        nodes,
                        *node,
                        k,
                        w as int,
                        h as int,
                    )
                &&& forall|k: int|
                    0 <= k < cs.len() ==> #[trigger] r.2@[k] == spec_grows(nodes, cs[k])
                &&& forall|k: int| 0 <= k < cs.len() ==> #[trigger] r.0@[k] <= MAX_LENGTH
                &&& forall|k: int| 0 <= k < cs.len() ==> #[trigger] r.1@[k] <= MAX_LENGTH
                &&& r.3 as int == ctx.base_total
                &&& r.3 <= MAX_LENGTH
                &&& r.4 as int == ctx.grow_total
                &&& r.4 <= cs.len()
            }),
        decreases *node, 0int,
    {
        let ghost nodes = self.nodes@;
        let ghost lo = low_id(*node);
        let ghost cs = node.children@;
        let ghost ctx = spec_solve_ctx(nodes, *node, w as int, h as int);
        proof {
            lemma_tree_size_pos(*node);
        }
        let st = self.nodes[node.node_id].style;
        let content_w = sub_saturating(sub_saturating(w, st.padding.left), st.padding.right);
        let content_h = sub_saturating(sub_saturating(h, st.padding.top), st.padding.bottom);
        let row = matches!(st.flex_direction, FlexDirection::Row);
        let cross_content = if row {
            content_h
        } else {
            content_w
        };
        let gap = if row {
            dim_px(&st.gap_width, content_w)
        } else {
            dim_px(&st.gap_height, content_h)
        };
        let align_stretch = match st.align_items {
            Option::None => true,
            Option::Some(AlignItems::Stretch) => true,
            _ => false,
        };
        proof {
            assert(ctx.content_w == content_w as int);
            assert(ctx.content_h == content_h as int);
            assert(ctx.row == row);
            assert(ctx.cross_content == cross_content as int);
            assert(ctx.gap == gap as int);
            assert((ctx.align is Stretch) == align_stretch);
            assert(cs.subrange(0, 0) =~= Seq::<ShadowNode>::empty());
        }
        let mut bases: Vec<u64> = Vec::new();
        let mut crosses: Vec<u64> = Vec::new();
        let mut growflags: Vec<bool> = Vec::new();
        let mut total: u64 = 0;
        let mut grow_total: u64 = 0;
        let mut i: usize = 0;
        while i < node.children.len()
            invariant
                self.inv(),
                nodes == self.nodes@,
                well_formed(*node),
                0 <= lo,
                lo == low_id(*node),
                node.node_id < nodes.len(),
                cs == node.children@,
                ctx == spec_solve_ctx(nodes, *node, w as int, h as int),
                w <= MAX_LENGTH,
                h <= MAX_LENGTH,
                ctx.content_w == content_w as int,
                ctx.content_h == content_h as int,
                ctx.row == row,
                ctx.cross_content == cross_content as int,
                (ctx.align is Stretch) == align_stretch,
                i <= cs.len(),
                bases@.len() == i,
                crosses@.len() == i,
                growflags@.len() == i,
                forall|k: int|
                    0 <= k < i ==> bases@[k] as int == spec_child_base(
                        nodes,
                        #[trigger] cs[k],
                        ctx.content_w,
                        ctx.content_h,
                        ctx.row,
                    ),
                forall|k: int|
                    0 <= k < i ==> #[trigger] crosses@[k] as int == spec_child_cross_size(
                        nodes,
                        *node,
                        k,
                        w as int,
                        h as int,
                    ),
                forall|k: int|
                    0 <= k < i ==> #[trigger] growflags@[k] == spec_grows(nodes, cs[k]),
                total as int == spec_base_fold(
                    nodes,
                    cs.subrange(0, i as int),
                    ctx.content_w,
                    ctx.content_h,
                    ctx.row,
                ),
                grow_total as int == spec_grow_count(nodes, cs.subrange(0, i as int)),
                total <= MAX_LENGTH,
                grow_total <= i,
                forall|k: int|
                    0 <= k < i ==> #[trigger] crosses@[k] <= MAX_LENGTH,
                forall|k: int|
                    0 <= k < i ==> #[trigger] bases@[k] <= MAX_LENGTH,
            decreases cs.len() - i,
        {
            proof {
                lemma_forest_child(cs, lo, i as int);
                lemma_measure_bounds(nodes, cs[i as int], ctx.content_w, ctx.content_h);
                lemma_base_fold_bounds(
                    nodes,
                    cs.subrange(0, i as int),
                    ctx.content_w,
                    ctx.content_h,
                    ctx.row,
                );
            }
            let child = &node.children[i];
            let m = self.measure_node(child, content_w, content_h);
            let base = if row {
                m.0
            } else {
                m.1
            };
            let cdim = if row {
                self.nodes[child.node_id].style.size_height
            } else {
                self.nodes[child.node_id].style.size_width
            };
            let cr = if matches!(cdim, Dimension::Auto) && align_stretch {
                cross_content
            } else {
                if row {
                    m.1
                } else {
                    m.0
                }
            };
            let gf = self.nodes[child.node_id].style.flex_grow;
            proof {
                let c = cs[i as int];
                assert(style_of(nodes, c) == nodes[c.node_id as int].style);
                assert(base as int == spec_child_base(nodes, c, ctx.content_w, ctx.content_h,
                    ctx.row));
                assert(cr as int == spec_child_cross_size(nodes, *node, i as int, w as int,
                    h as int));
                assert(gf == spec_grows(nodes, c));
            }
            bases.push(base);
            crosses.push(cr);
            growflags.push(gf);
            proof {
                assert(cs.subrange(0, i as int + 1).drop_last() =~= cs.subrange(0, i as int));
                assert(cs.subrange(0, i as int + 1).last() == cs[i as int]);
            }
            total = add_capped(total, base);
            if gf {
                grow_total = grow_total + 1;
            }
            i = i + 1;
        }
        proof {
            assert(cs.subrange(0, cs.len() as int) =~= cs);
            lemma_base_fold_bounds(nodes, cs, ctx.content_w, ctx.content_h, ctx.row);
        }
        let mut base_total = total;
        if node.children.len() > 1 {
            base_total = add_capped(base_total, mul_capped(gap, (node.children.len() - 1) as u64));
        }
        let mut base_total = total;
        if node.children.len() > 1 {
            base_total = add_capped(base_total, mul_capped(gap, (node.children.len() - 1) as u64));
        }
        proof {
            assert(base_total as int == ctx.base_total);
        }
        (bases, crosses, growflags, base_total, grow_total)
    }

    /// Place one subtree at the given frame and lay out everything below
    /// it.  Only layout slots in the subtree's own handle range change.
    #[verifier::rlimit(100)]
    fn solve_node(&mut self, node: &ShadowNode, x: u64, y: u64, w: u64, h: u64)
        requires
            old(self).inv(),
            well_formed(*node),
            0 <= low_id(*node),
            node.node_id < old(self).nodes@.len(),
            x <= MAX_LENGTH,
            y <= MAX_LENGTH,
            w <= MAX_LENGTH,
            h <= MAX_LENGTH,
        ensures
            final(self).inv(),
            final(self).nodes == old(self).nodes,
            final(self).root == old(self).root,
            final(self).layouts@.len() == old(self).layouts@.len(),
            forall|j: int|
                0 <= j < final(self).layouts@.len() && !(low_id(*node) <= j <= node.node_id as int)
                    ==> final(self).layouts@[j] == old(self).layouts@[j],
            placed(
                final(self).nodes@,
                final(self).layouts@,
                *node,
                x as int,
                y as int,
                w as int,
                h as int,
            ),
        decreases *node, 2int,
    {
        let ghost nodes = self.nodes@;
        proof {
            lemma_tree_size_pos(*node);
        }
        self.layouts[node.node_id] = Some(Layout { x, y, width: w, height: h });
        let pass = self.measure_pass(node, w, h);
        let st = self.nodes[node.node_id].style;
        let content_w = sub_saturating(sub_saturating(w, st.padding.left), st.padding.right);
        let content_h = sub_saturating(sub_saturating(h, st.padding.top), st.padding.bottom);
        let row = matches!(st.flex_direction, FlexDirection::Row);
        let main_content = if row {
            content_w
        } else {
            content_h
        };
        let leftover = sub_saturating(main_content, pass.3);
        proof {
            let ctx = spec_solve_ctx(nodes, *node, w as int, h as int);
            assert(ctx.main_content == main_content as int);
            assert(ctx.leftover == leftover as int);
        }
        self.place_children(node, x, y, w, h, &pass.0, &pass.1, &pass.2, leftover, pass.4);
        }


    /// The main-axis walk itself: place every child and lay out its
    /// subtree.  Factored out of [`ShadowTree::place_children`] so each
    /// piece of the solve stays small.
    #[verifier::rlimit(100)]
    #[verifier::spinoff_prover]
    #[verifier::loop_isolation(true)]
    fn place_loop(
        &mut self,
        node: &ShadowNode,
        x: u64,
        y: u64,
        w: u64,
        h: u64,
        bases: &Vec<u64>,
        crosses: &Vec<u64>,
        growflags: &Vec<bool>,
        leftover: u64,
        grow_total: u64,
        gap: u64,
        cross_content: u64,
        row: bool,
        st: Style,
    )
        requires
            old(self).inv(),
            well_formed(*node),
            0 <= low_id(*node),
            node.node_id < old(self).nodes@.len(),
            x <= MAX_LENGTH,
            y <= MAX_LENGTH,
            w <= MAX_LENGTH,
            h <= MAX_LENGTH,
            ({
                let nodes = old(self).nodes@;
                let cs = node.children@;
                let ctx = spec_solve_ctx(nodes, *node, w as int, h as int);
                &&& bases@.len() == cs.len()
                &&& crosses@.len() == cs.len()
                &&& growflags@.len() == cs.len()
                &&& forall|k: int|
                    0 <= k < cs.len() ==> bases@[k] as int == spec_child_base(
                        nodes,
                        #[trigger] cs[k],
                        ctx.content_w,
                        ctx.content_h,
                        ctx.row,
                    )
                &&& forall|k: int|
                    0 <= k < cs.len() ==> #[trigger] crosses@[k] as int == spec_child_cross_size(
                        nodes,
                        *node,
                        k,
                        w as int,
                        h as int,
                    )
                &&& forall|k: int|
                    0 <= k < cs.len() ==> #[trigger] growflags@[k] == spec_grows(nodes, cs[k])
                &&& forall|k: int| 0 <= k < cs.len() ==> #[trigger] bases@[k] <= MAX_LENGTH
                &&& forall|k: int| 0 <= k < cs.len() ==> #[trigger] crosses@[k] <= MAX_LENGTH
                &&& leftover as int == ctx.leftover
                &&& leftover <= MAX_LENGTH
                &&& grow_total as int == ctx.grow_total
                &&& gap as int == ctx.gap
                &&& cross_content as int == ctx.cross_content
                &&& row == ctx.row
                &&& st == style_of(nodes, *node)
                &&& old(self).layouts@[node.node_id as int] == Some(
                    Layout { x, y, width: w, height: h },
                )
            }),
        ensures
            final(self).inv(),
            final(self).nodes == old(self).nodes,
            final(self).root == old(self).root,
            final(self).layouts@.len() == old(self).layouts@.len(),
            final(self).layouts@[node.node_id as int] == Some(
                Layout { x, y, width: w, height: h },
            ),
            forall|j: int|
                0 <= j < final(self).layouts@.len() && !(low_id(*node) <= j
                    < node.node_id as int) ==> final(self).layouts@[j] == old(self).layouts@[j],
            forall|k: int|
                0 <= k < node.children@.len() ==> placed(
                    final(self).nodes@,
                    final(self).layouts@,
                    #[trigger] node.children@[k],
                    spec_child_geometry(
                        final(self).nodes@,
                        *node,
                        k,
                        w as int,
                        h as int,
                    ).0,
                    spec_child_geometry(
                        final(self).nodes@,
                        *node,
                        k,
                        w as int,
                        h as int,
                    ).1,
                    spec_child_geometry(
                        final(self).nodes@,
                        *node,
                        k,
                        w as int,
                        h as int,
                    ).2,
                    spec_child_geometry(
                        final(self).nodes@,
                        *node,
                        k,
                        w as int,
                        h as int,
                    ).3,
                ),
        decreases *node, 0int,
    {
        let ghost nodes = self.nodes@;
        let ghost lo = low_id(*node);
        let ghost cs = node.children@;
        let ghost ctx = spec_solve_ctx(nodes, *node, w as int, h as int);
        proof {
            lemma_tree_size_pos(*node);
            assert(cs.subrange(0, 0) =~= Seq::<ShadowNode>::empty());
        }
        let align_stretch = match st.align_items {
            Option::None => true,
            Option::Some(AlignItems::Stretch) => true,
            _ => false,
        };
        let cross_start: u64 = if row {
            cap_length(st.padding.top)
        } else {
            cap_length(st.padding.left)
        };
        let mut cursor: u64 = if row {
            cap_length(st.padding.left)
        } else {
            cap_length(st.padding.top)
        };
        proof {
            assert((ctx.align is Stretch) == align_stretch);
            assert(cursor as int == spec_main_offset(nodes, *node, 0, w as int, h as int));
            assert(cross_start as int == spec_cross_start(nodes, *node));
        }
        let mut rank: u64 = 0;
        let mut j: usize = 0;
        proof {
            assert(cursor as int == spec_main_offset(nodes, *node, 0, w as int, h as int));
            assert(cross_start as int == spec_cross_start(nodes, *node));
        }
        while j < node.children.len()
            invariant
                self.inv(),
                nodes == self.nodes@,
                self.nodes == old(self).nodes,
                self.root == old(self).root,
                self.layouts@.len() == old(self).layouts@.len(),
                well_formed(*node),
                0 <= lo,
                lo == low_id(*node),
                node.node_id < nodes.len(),
                cs == node.children@,
                ctx == spec_solve_ctx(nodes, *node, w as int, h as int),
                w <= MAX_LENGTH,
                h <= MAX_LENGTH,
                x <= MAX_LENGTH,
                y <= MAX_LENGTH,
                ctx.row == row,
                ctx.cross_content == cross_content as int,
                (ctx.align is Stretch) == align_stretch,
                st == style_of(nodes, *node),
                ctx.gap == gap as int,
                ctx.leftover == leftover as int,
                ctx.grow_total == grow_total as int,
                leftover <= MAX_LENGTH,
                cross_start as int == spec_cross_start(nodes, *node),
                j <= cs.len(),
                bases@.len() == cs.len(),
                crosses@.len() == cs.len(),
                growflags@.len() == cs.len(),
                forall|k: int|
                    0 <= k < cs.len() ==> bases@[k] as int == spec_child_base(
                        nodes,
                        #[trigger] cs[k],
                        ctx.content_w,
                        ctx.content_h,
                        ctx.row,
                    ),
                forall|k: int|
                    0 <= k < cs.len() ==> #[trigger] crosses@[k] as int == spec_child_cross_size(
                        nodes,
                        *node,
                        k,
                        w as int,
                        h as int,
                    ),
                forall|k: int|
                    0 <= k < cs.len() ==> #[trigger] growflags@[k] == spec_grows(nodes, cs[k]),
                forall|k: int| 0 <= k < cs.len() ==> #[trigger] crosses@[k] <= MAX_LENGTH,
                forall|k: int| 0 <= k < cs.len() ==> #[trigger] bases@[k] <= MAX_LENGTH,
                cursor as int == spec_main_offset(nodes, *node, j as int, w as int, h as int),
                cursor <= MAX_LENGTH,
                rank as int == spec_grow_count(nodes, cs.subrange(0, j as int)),
                rank <= j,
                self.layouts@[node.node_id as int] == Some(
                    Layout { x, y, width: w, height: h },
                ),
                forall|k: int|
                    0 <= k < j ==> placed(
                        nodes,
                        self.layouts@,
                        #[trigger] cs[k],
                        spec_child_geometry(nodes, *node, k, w as int, h as int).0,
                        spec_child_geometry(nodes, *node, k, w as int, h as int).1,
                        spec_child_geometry(nodes, *node, k, w as int, h as int).2,
                        spec_child_geometry(nodes, *node, k, w as int, h as int).3,
                    ),
                forall|k: int|
                    0 <= k < self.layouts@.len() && !(lo <= k < lo + forest_size(
                        cs.subrange(0, j as int),
                    )) && k != node.node_id as int ==> self.layouts@[k] == old(self).layouts@[k],
            decreases cs.len() - j,
        {
            proof {
                lemma_forest_child(cs, lo, j as int);
                lemma_forest_singleton(cs, j as int);
                lemma_forest_prefix_monotone(cs, j as int, j as int + 1);
                lemma_tree_size_pos(cs[j as int]);
                lemma_geometry_bounds(nodes, *node, j as int, w as int, h as int);
                lemma_grow_count_snoc(nodes, cs, j as int);
                lemma_grow_count_prefix_le(nodes, cs, j as int + 1);
                lemma_grow_count_bounds(nodes, cs.subrange(0, j as int));
                if growflags@[j as int] {
                    lemma_quota_bounds(ctx.leftover, rank as int, ctx.grow_total);
                    lemma_quota_bounds(ctx.leftover, rank as int + 1, ctx.grow_total);
                }
            }
            let base = bases[j];
            let csize = crosses[j];
            let ghost r0 = spec_grow_count(nodes, cs.subrange(0, j as int));
            let extra: u64 = if growflags[j] {
                proof {
                    assert(spec_grows(nodes, cs[j as int]));
                    assert(spec_grow_count(nodes, cs.subrange(0, j as int + 1)) == r0 + 1);
                    assert(r0 + 1 <= ctx.grow_total);
                }
                let q1 = quota(leftover, rank + 1, grow_total);
                let q0 = quota(leftover, rank, grow_total);
                proof {
                    assert(q1 as int == spec_quota(ctx.leftover, r0 + 1, ctx.grow_total));
                    assert(q0 as int == spec_quota(ctx.leftover, r0, ctx.grow_total));
                    assert(q0 <= q1);
                }
                q1 - q0
            } else {
                0
            };
            let msize = add_capped(base, extra);
            let cpos: u64 = if align_stretch {
                cross_start
            } else {
                match st.align_items {
                    Option::Some(AlignItems::Center) => add_capped(
                        cross_start,
                        sub_saturating(cross_content, csize) / 2,
                    ),
                    Option::Some(AlignItems::End) => add_capped(
                        cross_start,
                        sub_saturating(cross_content, csize),
                    ),
                    _ => cross_start,
                }
            };
            proof {
                if growflags@[j as int] {
                    assert(extra as int == spec_quota(ctx.leftover, r0 + 1, ctx.grow_total)
                        - spec_quota(ctx.leftover, r0, ctx.grow_total));
                } else {
                    assert(extra == 0);
                }
                lemma_frame_values(
                    nodes,
                    *node,
                    j as int,
                    w as int,
                    h as int,
                    base as int,
                    csize as int,
                    extra as int,
                    msize as int,
                    cpos as int,
                    cross_start as int,
                    cross_content as int,
                );
            }
            let cx = if row {
                cursor
            } else {
                cpos
            };
            let cy = if row {
                cpos
            } else {
                cursor
            };
            let cw2 = if row {
                msize
            } else {
                csize
            };
            let ch2 = if row {
                csize
            } else {
                msize
            };
            proof {
                assert(spec_child_geometry(nodes, *node, j as int, w as int, h as int) == (
                    cx as int,
                    cy as int,
                    cw2 as int,
                    ch2 as int,
                ));
            }
            let ghost layouts_pre = self.layouts@;
            self.solve_node(&node.children[j], cx, cy, cw2, ch2);
            proof {
                lemma_place_step(
                    nodes,
                    *node,
                    old(self).layouts@,
                    layouts_pre,
                    self.layouts@,
                    j as int,
                    w as int,
                    h as int,
                );
            }
            if growflags[j] {
                rank = rank + 1;
            }
            proof {
                lemma_cap_add_assoc(cursor as int, msize as int, gap as int);
            }
            cursor = add_capped(add_capped(cursor, msize), gap);
            j = j + 1;
        }
        proof {
            assert(cs.subrange(0, cs.len() as int) =~= cs);
        }
    }

    /// Walk a container's children along the main axis, dealing out the
    /// leftover to the growers, aligning on the cross axis, and laying
    /// out each child's subtree at its frame.  Writes stay strictly below
    /// the container's own handle.
    #[verifier::rlimit(100)]
    fn place_children(
        &mut self,
        node: &ShadowNode,
        x: u64,
        y: u64,
        w: u64,
        h: u64,
        bases: &Vec<u64>,
        crosses: &Vec<u64>,
        growflags: &Vec<bool>,
        leftover: u64,
        grow_total: u64,
    )
        requires
            old(self).inv(),
            well_formed(*node),
            0 <= low_id(*node),
            node.node_id < old(self).nodes@.len(),
            x <= MAX_LENGTH,
            y <= MAX_LENGTH,
            w <= MAX_LENGTH,
            h <= MAX_LENGTH,
            ({
                let nodes = old(self).nodes@;
                let cs = node.children@;
                let ctx = spec_solve_ctx(nodes, *node, w as int, h as int);
                &&& bases@.len() == cs.len()
                &&& crosses@.len() == cs.len()
                &&& growflags@.len() == cs.len()
                &&& forall|k: int|
                    0 <= k < cs.len() ==> bases@[k] as int == spec_child_base(
                        nodes,
                        #[trigger] cs[k],
                        ctx.content_w,
                        ctx.content_h,
                        ctx.row,
                    )
                &&& forall|k: int|
                    0 <= k < cs.len() ==> #[trigger] crosses@[k] as int == spec_child_cross_size(
                        nodes,
                        *node,
                        k,
                        w as int,
                        h as int,
                    )
                &&& forall|k: int|
                    0 <= k < cs.len() ==> #[trigger] growflags@[k] == spec_grows(nodes, cs[k])
                &&& forall|k: int| 0 <= k < cs.len() ==> #[trigger] bases@[k] <= MAX_LENGTH
                &&& forall|k: int| 0 <= k < cs.len() ==> #[trigger] crosses@[k] <= MAX_LENGTH
                &&& leftover as int == ctx.leftover
                &&& leftover <= MAX_LENGTH
                &&& grow_total as int == ctx.grow_total
                &&& old(self).layouts@[node.node_id as int] == Some(
                    Layout { x, y, width: w, height: h },
                )
            }),
        ensures
            final(self).inv(),
            final(self).nodes == old(self).nodes,
            final(self).root == old(self).root,
            final(self).layouts@.len() == old(self).layouts@.len(),
            forall|j: int|
                0 <= j < final(self).layouts@.len() && !(low_id(*node) <= j
                    < node.node_id as int) ==> final(self).layouts@[j] == old(self).layouts@[j],
            placed(
                final(self).nodes@,
                final(self).layouts@,
                *node,
                x as int,
                y as int,
                w as int,
                h as int,
            ),
        decreases *node, 1int,
    {
        let ghost nodes = self.nodes@;
        let ghost lo = low_id(*node);
        let ghost cs = node.children@;
        let ghost ctx = spec_solve_ctx(nodes, *node, w as int, h as int);
        proof {
            lemma_tree_size_pos(*node);
            assert(cs.subrange(0, 0) =~= Seq::<ShadowNode>::empty());
        }
        let st = self.nodes[node.node_id].style;
        let content_w = sub_saturating(sub_saturating(w, st.padding.left), st.padding.right);
        let content_h = sub_saturating(sub_saturating(h, st.padding.top), st.padding.bottom);
        let row = matches!(st.flex_direction, FlexDirection::Row);
        let cross_content = if row {
            content_h
        } else {
            content_w
        };
        let gap = if row {
            dim_px(&st.gap_width, content_w)
        } else {
            dim_px(&st.gap_height, content_h)
        };
        let align_stretch = match st.align_items {
            Option::None => true,
            Option::Some(AlignItems::Stretch) => true,
            _ => false,
        };
        proof {
            assert(ctx.row == row);
            assert(ctx.cross_content == cross_content as int);
            assert(ctx.gap == gap as int);
            assert((ctx.align is Stretch) == align_stretch);
        }
        self.place_loop(
            node,
            x,
            y,
            w,
            h,
            bases,
            crosses,
            growflags,
            leftover,
            grow_total,
            gap,
            cross_content,
            row,
            st,
        );
        proof {
            assert(cs.subrange(0, cs.len() as int) =~= cs);
            assert(tree_size(*node) == 1 + forest_size(cs));
            assert(lo + forest_size(cs) == node.node_id as int);
            lemma_assemble_placed(
                nodes,
                self.layouts@,
                *node,
                x as int,
                y as int,
                w as int,
                h as int,
            );
        }
    }
}

} // verus!
