//! The shadow tree: the platform-agnostic intermediate form of the UI.  A
//! shadow node carries a solver-node handle, the resolved kind data of its
//! element, the measured intrinsic size for text leaves, and its children.
//!
//! Handles are assigned in post order — every child is registered before
//! its parent — so a well-formed subtree owns exactly the contiguous handle
//! range ending at its own handle.  The layout passes rely on that: what a
//! pass writes for one subtree can never alias a sibling's entries.

use crate::color::Color;
use crate::composition::HStack;
use crate::composition::HorizontalAlignment;
use crate::composition::Spacer;
use crate::composition::VStack;
use crate::composition::VerticalAlignment;
use crate::conv::conv_h_alignment;
use crate::conv::conv_v_alignment;
use crate::conv::spec_h_alignment;
use crate::conv::spec_v_alignment;
use crate::elements::Element;
use crate::elements::Text;
use crate::elements::ViewContainer;
use crate::font::Font;
use crate::postprocessing::BackgroundColor;
use crate::postprocessing::Padding;
use crate::runtime::WindowTemplate;
use crate::style::AlignItems;
use crate::style::Dimension;
use crate::style::FlexDirection;
use crate::style::Rect;
use crate::style::Style;
use crate::style::spec_default_style;
use crate::style::spec_unit_dimension;
use crate::text::TextDecoration;
use crate::units::spec_to_pixels;
use crate::units::Resolved;
use crate::units::Size;
use crate::units::Unit;
use crate::units::MAX_LENGTH;
use crate::units::PERCENT_WHOLE;
use vstd::prelude::*;

verus! {

/// What kind of UI node a shadow node stands for, with the node's resolved
/// parameters.
#[derive(Debug)]
#[allow(inconsistent_fields)]
pub enum NodeKind {
    /// A window container.
    Window { title: String },
    /// A text label.
    Text { content: String, font: Font, color: Color, decoration: TextDecoration },
    /// A horizontal stack.
    HStack { spacing: Unit, alignment: VerticalAlignment },
    /// A vertical stack.
    VStack { spacing: Unit, alignment: HorizontalAlignment },
    /// Flexible empty space.
    Spacer,
    /// A background fill behind one child.
    BackgroundColor { color: Color },
    /// Padding around one child, resolved to absolute lengths per edge.
    Padding { top: u64, left: u64, bottom: u64, right: u64 },
    /// A generic container view.
    View,
}

/// A node in the shadow tree.
#[derive(Debug)]
pub struct ShadowNode {
    /// The solver-node handle this node was registered under.
    pub node_id: usize,
    /// What the node is.
    pub kind: NodeKind,
    /// The measured intrinsic content size.  Meaningful for `Text` nodes,
    /// where it is what the platform text measurement returned; zero for
    /// every other kind.
    pub intrinsic: Size,
    /// The child shadow nodes, mirroring the element tree one to one.
    pub children: Vec<ShadowNode>,
}

/// Number of nodes in the subtree rooted at `n`, this node included.
pub open spec fn tree_size(n: ShadowNode) -> int
    decreases n,
{
    1 + forest_size(n.children@)
}

/// Total number of nodes of a sequence of subtrees.
pub open spec fn forest_size(cs: Seq<ShadowNode>) -> int
    decreases cs,
{
    if cs.len() == 0 {
        0
    } else {
        tree_size(cs[0]) + forest_size(cs.subrange(1, cs.len() as int))
    }
}

/// The lowest solver-node handle in the subtree of `n`, assuming the
/// subtree is well formed: its handles are exactly `low_id(n) ..= n.node_id`.
pub open spec fn low_id(n: ShadowNode) -> int {
    n.node_id - tree_size(n) + 1
}

/// Well-formedness of a shadow subtree: handles were assigned in post
/// order, so the children's handle ranges pack the range right below the
/// parent's own handle, each child in turn.
pub open spec fn well_formed(n: ShadowNode) -> bool
    decreases n,
{
    forest_well_formed(n.children@, low_id(n))
}

/// The subtrees of `cs` are well formed and occupy consecutive handle
/// ranges starting at `at`.
pub open spec fn forest_well_formed(cs: Seq<ShadowNode>, at: int) -> bool
    decreases cs,
{
    if cs.len() == 0 {
        true
    } else {
        &&& well_formed(cs[0])
        &&& low_id(cs[0]) == at
        &&& forest_well_formed(cs.subrange(1, cs.len() as int), at + tree_size(cs[0]))
    }
}

/// Every subtree holds at least its own root.
pub proof fn lemma_tree_size_pos(n: ShadowNode)
    ensures
        tree_size(n) >= 1,
    decreases n,
{
    lemma_forest_size_nonneg(n.children@);
}

/// A forest never has negatively many nodes.
pub proof fn lemma_forest_size_nonneg(cs: Seq<ShadowNode>)
    ensures
        forest_size(cs) >= 0,
    decreases cs,
{
    if cs.len() > 0 {
        lemma_tree_size_pos(cs[0]);
        lemma_forest_size_nonneg(cs.subrange(1, cs.len() as int));
    }
}

/// In a well-formed forest starting at `at`, the subtree of child `k`
/// starts at `at` plus the sizes of the children before it, is itself well
/// formed, and ends before `at + forest_size(cs)`.
pub proof fn lemma_forest_child(cs: Seq<ShadowNode>, at: int, k: int)
    requires
        forest_well_formed(cs, at),
        0 <= k < cs.len(),
    ensures
        well_formed(cs[k]),
        low_id(cs[k]) == at + forest_size(cs.subrange(0, k)),
        cs[k].node_id < at + forest_size(cs),
        at <= low_id(cs[k]),
    decreases cs,
{
    lemma_tree_size_pos(cs[0]);
    lemma_tree_size_pos(cs[k]);
    if k == 0 {
        assert(cs.subrange(0, 0) =~= Seq::<ShadowNode>::empty());
        lemma_forest_size_nonneg(cs.subrange(1, cs.len() as int));
        assert(forest_size(cs) == tree_size(cs[0]) + forest_size(cs.subrange(1, cs.len() as int)));
    } else {
        let rest = cs.subrange(1, cs.len() as int);
        lemma_forest_child(rest, at + tree_size(cs[0]), k - 1);
        assert(rest[k - 1] == cs[k]);
        assert(rest.subrange(0, k - 1) =~= cs.subrange(1, k));
        lemma_forest_prefix_split(cs, k);
    }
}

/// A forest prefix of length `k` and the single tree at `k` together are
/// the prefix of length `k + 1`.
pub proof fn lemma_forest_prefix_split(cs: Seq<ShadowNode>, k: int)
    requires
        0 < k <= cs.len(),
    ensures
        forest_size(cs.subrange(0, k)) == tree_size(cs[0]) + forest_size(
            cs.subrange(1, cs.len() as int).subrange(0, k - 1),
        ),
    decreases k,
{
    let pre = cs.subrange(0, k);
    assert(pre[0] == cs[0]);
    assert(pre.subrange(1, k) =~= cs.subrange(1, cs.len() as int).subrange(0, k - 1));
}

/// Splitting a forest at `k` splits its size.
pub proof fn lemma_forest_split(cs: Seq<ShadowNode>, k: int)
    requires
        0 <= k <= cs.len(),
    ensures
        forest_size(cs) == forest_size(cs.subrange(0, k)) + forest_size(
            cs.subrange(k, cs.len() as int),
        ),
    decreases k,
{
    if k == 0 {
        assert(cs.subrange(0, 0) =~= Seq::<ShadowNode>::empty());
        assert(cs.subrange(0, cs.len() as int) =~= cs);
    } else {
        let rest = cs.subrange(1, cs.len() as int);
        lemma_forest_split(rest, k - 1);
        assert(rest.subrange(0, k - 1) =~= cs.subrange(1, k));
        assert(rest.subrange(k - 1, rest.len() as int) =~= cs.subrange(k, cs.len() as int));
        lemma_forest_prefix_split(cs, k);
        assert(cs.subrange(0, cs.len() as int) =~= cs);
    }
}


/// Forest sizes add up over a split prefix.
pub proof fn lemma_forest_prefix_monotone(cs: Seq<ShadowNode>, a: int, b: int)
    requires
        0 <= a <= b <= cs.len(),
    ensures
        forest_size(cs.subrange(0, a)) + forest_size(cs.subrange(a, b)) == forest_size(
            cs.subrange(0, b),
        ),
        forest_size(cs.subrange(0, a)) <= forest_size(cs.subrange(0, b)),
{
    let pre = cs.subrange(0, b);
    lemma_forest_split(pre, a);
    assert(pre.subrange(0, a) =~= cs.subrange(0, a));
    assert(pre.subrange(a, pre.len() as int) =~= cs.subrange(a, b));
    lemma_forest_size_nonneg(cs.subrange(a, b));
}


/// A one-subtree slice of a forest has that subtree's size.
pub proof fn lemma_forest_singleton(cs: Seq<ShadowNode>, i: int)
    requires
        0 <= i < cs.len(),
    ensures
        forest_size(cs.subrange(i, i + 1)) == tree_size(cs[i]),
{
    let s = cs.subrange(i, i + 1);
    assert(s[0] == cs[i]);
    assert(s.subrange(1, 1) =~= Seq::<ShadowNode>::empty());
    assert(forest_size(s.subrange(1, 1)) == 0);
}

/// Descriptor an element yields to the shadow tree builder: the node kind
/// plus the initial layout style of its solver node.
pub struct ShadowDescriptor {
    pub kind: NodeKind,
    pub style: Style,
}

impl ShadowDescriptor {
    /// A text label: default style, sized later from measurement.
    pub fn text(content: String, font: Font, color: Color, decoration: TextDecoration) -> (d: Self)
        ensures
            d.kind matches NodeKind::Text { content: c, font: f, color: col, decoration: dec }
                && c == content && f == font && col == color && dec == decoration,
            d.style == spec_default_style(),
    {
        ShadowDescriptor {
            kind: NodeKind::Text { content, font, color, decoration },
            style: Style::default(),
        }
    }

    /// A horizontal stack: a row with the spacing as the column gap and the
    /// vertical alignment on the cross axis.
    pub fn hstack(spacing: Unit, alignment: VerticalAlignment) -> (d: Self)
        ensures
            d.kind matches NodeKind::HStack { spacing: s, alignment: a } && s == spacing && a
                == alignment,
            d.style == (Style {
                flex_direction: FlexDirection::Row,
                align_items: Some(spec_v_alignment(alignment)),
                gap_width: spec_unit_dimension(spacing),
                ..spec_default_style()
            }),
    {
        let style = Style {
            flex_direction: FlexDirection::Row,
            align_items: Some(conv_v_alignment(alignment)),
            gap_width: spacing.to_dimension(),
            ..Style::default()
        };
        ShadowDescriptor { kind: NodeKind::HStack { spacing, alignment }, style }
    }

    /// A vertical stack: a column with the spacing as the row gap and the
    /// horizontal alignment on the cross axis.
    pub fn vstack(spacing: Unit, alignment: HorizontalAlignment) -> (d: Self)
        ensures
            d.kind matches NodeKind::VStack { spacing: s, alignment: a } && s == spacing && a
                == alignment,
            d.style == (Style {
                flex_direction: FlexDirection::Column,
                align_items: Some(spec_h_alignment(alignment)),
                gap_height: spec_unit_dimension(spacing),
                ..spec_default_style()
            }),
    {
        let style = Style {
            flex_direction: FlexDirection::Column,
            align_items: Some(conv_h_alignment(alignment)),
            gap_height: spacing.to_dimension(),
            ..Style::default()
        };
        ShadowDescriptor { kind: NodeKind::VStack { spacing, alignment }, style }
    }

    /// A spacer: an otherwise default node that grows to absorb leftover
    /// space on the parent's main axis.
    pub fn spacer() -> (d: Self)
        ensures
            d.kind is Spacer,
            d.style == (Style { flex_grow: true, ..spec_default_style() }),
    {
        ShadowDescriptor {
            kind: NodeKind::Spacer,
            style: Style { flex_grow: true, ..Style::default() },
        }
    }

    /// A background fill: a column that stretches its child across the
    /// cross axis so the fill covers it.
    pub fn background_color(color: Color) -> (d: Self)
        ensures
            d.kind matches NodeKind::BackgroundColor { color: c } && c == color,
            d.style == (Style {
                flex_direction: FlexDirection::Column,
                align_items: Some(AlignItems::Stretch),
                ..spec_default_style()
            }),
    {
        let style = Style {
            flex_direction: FlexDirection::Column,
            align_items: Some(AlignItems::Stretch),
            ..Style::default()
        };
        ShadowDescriptor { kind: NodeKind::BackgroundColor { color }, style }
    }

    /// Padding: a stretching column with the given absolute padding per
    /// edge.
    pub fn padding(top: u64, left: u64, bottom: u64, right: u64) -> (d: Self)
        ensures
            d.kind matches NodeKind::Padding { top: t, left: l, bottom: b, right: r } && t == top
                && l == left && b == bottom && r == right,
            d.style == (Style {
                flex_direction: FlexDirection::Column,
                align_items: Some(AlignItems::Stretch),
                padding: Rect { top, left, bottom, right },
                ..spec_default_style()
            }),
    {
        let style = Style {
            flex_direction: FlexDirection::Column,
            align_items: Some(AlignItems::Stretch),
            padding: Rect { top, left, bottom, right },
            ..Style::default()
        };
        ShadowDescriptor { kind: NodeKind::Padding { top, left, bottom, right }, style }
    }

    /// A window: a row pinned to the full available size on both axes.
    pub fn window(title: String) -> (d: Self)
        ensures
            d.kind matches NodeKind::Window { title: t } && t == title,
            d.style == (Style {
                size_width: Dimension::Percent(PERCENT_WHOLE),
                size_height: Dimension::Percent(PERCENT_WHOLE),
                ..spec_default_style()
            }),
    {
        let style = Style {
            size_width: Dimension::Percent(PERCENT_WHOLE),
            size_height: Dimension::Percent(PERCENT_WHOLE),
            ..Style::default()
        };
        ShadowDescriptor { kind: NodeKind::Window { title }, style }
    }

    /// A generic container view with the default style.
    pub fn view() -> (d: Self)
        ensures
            d.kind is View,
            d.style == spec_default_style(),
    {
        ShadowDescriptor { kind: NodeKind::View, style: Style::default() }
    }

    /// The same descriptor under a replacement style.
    pub fn with_style(self, style: Style) -> (d: Self)
        ensures
            d.kind == self.kind,
            d.style == style,
    {
        ShadowDescriptor { kind: self.kind, style }
    }
}

/// The absolute length a padding edge resolves to outside any sizing pass:
/// fixed flavours resolve normally, an unbounded percent is clamped to the
/// largest length, and `Auto` padding means none.
pub open spec fn spec_resolved_edge(u: Unit) -> u64 {
    match spec_to_pixels(u, Option::<u64>::None) {
        Resolved::Finite(v) => v,
        Resolved::Unbounded => MAX_LENGTH,
        Resolved::Undefined => 0u64,
    }
}

/// The node kind each element describes itself as.
pub open spec fn spec_element_kind(e: Element) -> NodeKind {
    match e {
        Element::Text(t) => NodeKind::Text {
            content: t.contents,
            font: t.modifiers.inner.text.font,
            color: t.modifiers.inner.text.color,
            decoration: t.modifiers.inner.text.decoration,
        },
        Element::HStack(s) => NodeKind::HStack {
            spacing: s.modifiers.inner.h_stack.spacing,
            alignment: s.modifiers.inner.h_stack.alignment,
        },
        Element::VStack(s) => NodeKind::VStack {
            spacing: s.modifiers.inner.v_stack.spacing,
            alignment: s.modifiers.inner.v_stack.alignment,
        },
        Element::Spacer(_) => NodeKind::Spacer,
        Element::BackgroundColor(b) => NodeKind::BackgroundColor { color: b.color },
        Element::Padding(p) => NodeKind::Padding {
            top: spec_resolved_edge(p.top),
            left: spec_resolved_edge(p.left),
            bottom: spec_resolved_edge(p.bottom),
            right: spec_resolved_edge(p.right),
        },
        Element::Window(w) => NodeKind::Window { title: w.title },
        Element::View(_) => NodeKind::View,
    }
}

/// The initial solver style each node kind carries, exactly as the
/// descriptor constructors build it.
pub open spec fn spec_kind_style(k: NodeKind) -> Style {
    match k {
        NodeKind::Window { .. } => Style {
            size_width: Dimension::Percent(PERCENT_WHOLE),
            size_height: Dimension::Percent(PERCENT_WHOLE),
            ..spec_default_style()
        },
        NodeKind::Text { .. } => spec_default_style(),
        NodeKind::HStack { spacing, alignment } => Style {
            flex_direction: FlexDirection::Row,
            align_items: Some(spec_v_alignment(alignment)),
            gap_width: spec_unit_dimension(spacing),
            ..spec_default_style()
        },
        NodeKind::VStack { spacing, alignment } => Style {
            flex_direction: FlexDirection::Column,
            align_items: Some(spec_h_alignment(alignment)),
            gap_height: spec_unit_dimension(spacing),
            ..spec_default_style()
        },
        NodeKind::Spacer => Style { flex_grow: true, ..spec_default_style() },
        NodeKind::BackgroundColor { .. } => Style {
            flex_direction: FlexDirection::Column,
            align_items: Some(AlignItems::Stretch),
            ..spec_default_style()
        },
        NodeKind::Padding { top, left, bottom, right } => Style {
            flex_direction: FlexDirection::Column,
            align_items: Some(AlignItems::Stretch),
            padding: Rect { top, left, bottom, right },
            ..spec_default_style()
        },
        NodeKind::View => spec_default_style(),
    }
}

impl Text {
    /// Describe this text element: contents and the text modifier section.
    pub fn shadow_descriptor(&self) -> (d: ShadowDescriptor)
        ensures
            d.kind == spec_element_kind(Element::Text(*self)),
            d.style == spec_kind_style(d.kind),
    {
        ShadowDescriptor::text(
            self.contents.clone(),
            self.modifiers.inner.text.font.clone(),
            self.modifiers.inner.text.color,
            self.modifiers.inner.text.decoration,
        )
    }
}

impl HStack {
    /// Describe this stack: spacing and alignment from its section.
    pub fn shadow_descriptor(&self) -> (d: ShadowDescriptor)
        ensures
            d.kind == spec_element_kind(Element::HStack(*self)),
            d.style == spec_kind_style(d.kind),
    {
        ShadowDescriptor::hstack(
            self.modifiers.inner.h_stack.spacing,
            self.modifiers.inner.h_stack.alignment,
        )
    }
}

impl VStack {
    /// Describe this stack: spacing and alignment from its section.
    pub fn shadow_descriptor(&self) -> (d: ShadowDescriptor)
        ensures
            d.kind == spec_element_kind(Element::VStack(*self)),
            d.style == spec_kind_style(d.kind),
    {
        ShadowDescriptor::vstack(
            self.modifiers.inner.v_stack.spacing,
            self.modifiers.inner.v_stack.alignment,
        )
    }
}

impl Spacer {
    /// Describe this spacer.
    pub fn shadow_descriptor(&self) -> (d: ShadowDescriptor)
        ensures
            d.kind is Spacer,
            d.style == spec_kind_style(d.kind),
    {
        ShadowDescriptor::spacer()
    }
}

impl BackgroundColor {
    /// Describe this background fill.
    pub fn shadow_descriptor(&self) -> (d: ShadowDescriptor)
        ensures
            d.kind == spec_element_kind(Element::BackgroundColor(*self)),
            d.style == spec_kind_style(d.kind),
    {
        ShadowDescriptor::background_color(self.color)
    }
}

impl Padding {
    /// Describe this padding, each edge resolved to an absolute length.
    pub fn shadow_descriptor(&self) -> (d: ShadowDescriptor)
        ensures
            d.kind == spec_element_kind(Element::Padding(*self)),
            d.style == spec_kind_style(d.kind),
    {
        let top = self.top.to_pixels(None).finite_or(MAX_LENGTH, 0);
        let left = self.left.to_pixels(None).finite_or(MAX_LENGTH, 0);
        let bottom = self.bottom.to_pixels(None).finite_or(MAX_LENGTH, 0);
        let right = self.right.to_pixels(None).finite_or(MAX_LENGTH, 0);
        ShadowDescriptor::padding(top, left, bottom, right)
    }
}

impl WindowTemplate {
    /// Describe this window root.
    pub fn shadow_descriptor(&self) -> (d: ShadowDescriptor)
        ensures
            d.kind == spec_element_kind(Element::Window(*self)),
            d.style == spec_kind_style(d.kind),
    {
        ShadowDescriptor::window(self.title.clone())
    }
}

impl ViewContainer {
    /// Describe this generic view.
    pub fn shadow_descriptor(&self) -> (d: ShadowDescriptor)
        ensures
            d.kind is View,
            d.style == spec_kind_style(d.kind),
    {
        ShadowDescriptor::view()
    }
}

impl Element {
    /// The descriptor the shadow tree builder registers this element with.
    pub fn shadow_descriptor(&self) -> (d: ShadowDescriptor)
        ensures
            d.kind == spec_element_kind(*self),
            d.style == spec_kind_style(d.kind),
    {
        match self {
            Element::Text(t) => t.shadow_descriptor(),
            Element::HStack(s) => s.shadow_descriptor(),
            Element::VStack(s) => s.shadow_descriptor(),
            Element::Spacer(s) => s.shadow_descriptor(),
            Element::BackgroundColor(b) => b.shadow_descriptor(),
            Element::Padding(p) => p.shadow_descriptor(),
            Element::Window(w) => w.shadow_descriptor(),
            Element::View(v) => v.shadow_descriptor(),
        }
    }
}

} // verus!

