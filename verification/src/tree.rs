//! The shadow tree container: it owns the solver-node graph (one style and
//! child-handle list per node), the per-node layout cache the solve fills,
//! and optionally the root shadow node.
//!
//! Building registers every child before its parent, so a freshly built
//! subtree owns exactly the handle range `low_id(n) ..= n.node_id` — the
//! property the mutating passes use to stay inside their own subtree.

use crate::elements::Element;
use crate::pal::TextMeasurer;
use crate::shadow::forest_size;
use crate::shadow::forest_well_formed;
use crate::shadow::lemma_forest_size_nonneg;
use crate::shadow::lemma_tree_size_pos;
use crate::shadow::low_id;
use crate::shadow::spec_element_kind;
use crate::shadow::spec_kind_style;
use crate::shadow::tree_size;
use crate::shadow::well_formed;
use crate::shadow::ShadowNode;
use crate::style::Dimension;
use crate::style::Style;
use crate::units::Size;
use vstd::prelude::*;

verus! {

/// The solver's output for one node: position relative to the parent, and
/// size, all in absolute length units.
#[derive(Debug, Clone, Copy, PartialEq, Eq, Structural)]
pub struct Layout {
    pub x: u64,
    pub y: u64,
    pub width: u64,
    pub height: u64,
}

/// One node of the solver graph: its current layout style and the handles
/// of its children, registered before it.
#[derive(Debug)]
pub struct SolverNode {
    pub style: Style,
    pub children: Vec<usize>,
}

/// The shadow tree: solver nodes, the layout cache, and the root.
pub struct ShadowTree {
    /// The solver-node graph, indexed by handle.
    pub nodes: Vec<SolverNode>,
    /// The cached layout per handle; `None` until a solve has reached the
    /// node.
    pub layouts: Vec<Option<Layout>>,
    /// The root shadow node, when one was built into the tree.
    pub root: Option<ShadowNode>,
}

/// `s2` begins with all of `s1`.
pub open spec fn seq_extends<T>(s2: Seq<T>, s1: Seq<T>) -> bool {
    s2.len() >= s1.len() && forall|j: int| 0 <= j < s1.len() ==> s2[j] == s1[j]
}

/// The shadow node is registered in the solver graph: its handle is in
/// range and carries the style of its kind, its child handles are its
/// children's, and the same holds below.
pub open spec fn registered(n: ShadowNode, nodes: Seq<SolverNode>) -> bool
    decreases n,
{
    &&& 0 <= n.node_id < nodes.len()
    &&& nodes[n.node_id as int].style == spec_kind_style(n.kind)
    &&& nodes[n.node_id as int].children@.len() == n.children@.len()
    &&& forall|k: int|
        0 <= k < n.children@.len() ==> nodes[n.node_id as int].children@[k] == (
        #[trigger] n.children@[k]).node_id
    &&& forall|k: int|
        0 <= k < n.children@.len() ==> registered(#[trigger] n.children@[k], nodes)
}

/// Registration survives appending nodes to the graph.
pub proof fn lemma_registered_extend(n: ShadowNode, nodes1: Seq<SolverNode>, nodes2: Seq<
    SolverNode>)
    requires
        registered(n, nodes1),
        seq_extends(nodes2, nodes1),
    ensures
        registered(n, nodes2),
    decreases n,
{
    assert(0 <= n.node_id < nodes2.len());
    assert(nodes2[n.node_id as int] == nodes1[n.node_id as int]);
    assert forall|k: int| 0 <= k < n.children@.len() implies registered(
        #[trigger] n.children@[k],
        nodes2,
    ) by {
        assert(registered(n.children@[k], nodes1));
        lemma_registered_extend(n.children@[k], nodes1, nodes2);
    }
    assert(registered(n, nodes2));
}

/// Appending a subtree that starts right after a packed forest keeps the
/// forest packed.
pub proof fn lemma_forest_push(cs: Seq<ShadowNode>, at: int, n: ShadowNode)
    requires
        forest_well_formed(cs, at),
        well_formed(n),
        low_id(n) == at + forest_size(cs),
    ensures
        forest_well_formed(cs.push(n), at),
        forest_size(cs.push(n)) == forest_size(cs) + tree_size(n),
    decreases cs,
{
    let p = cs.push(n);
    if cs.len() == 0 {
        assert(p[0] == n);
        assert(p.subrange(1, p.len() as int) =~= Seq::<ShadowNode>::empty());
        assert(forest_size(p.subrange(1, p.len() as int)) == 0);
        assert(forest_size(p) == tree_size(n));
        assert(forest_size(cs) == 0);
        assert(forest_well_formed(p.subrange(1, p.len() as int), at + tree_size(p[0])));
        assert(forest_well_formed(p, at));
    } else {
        let rest = cs.subrange(1, cs.len() as int);
        lemma_forest_push(rest, at + tree_size(cs[0]), n);
        assert(p[0] == cs[0]);
        assert(p.subrange(1, p.len() as int) =~= rest.push(n));
        assert(forest_size(p) == tree_size(cs[0]) + forest_size(rest.push(n)));
        assert(forest_size(p) == forest_size(cs) + tree_size(n));
        assert(forest_well_formed(p, at));
    }
}

/// The shadow tree builder mirrors the element tree one to one: the same
/// kinds in the same places, wrappers with their one child, text leaves
/// without children and with zero intrinsic size everywhere but on text.
pub open spec fn mirrors(n: ShadowNode, e: Element) -> bool
    decreases n,
{
    &&& n.kind == spec_element_kind(e)
    &&& !(n.kind is Text) ==> n.intrinsic == (Size { width: 0u64, height: 0u64 })
    &&& match e {
        Element::Text(_) => n.children@.len() == 0,
        Element::Spacer(_) => n.children@.len() == 0,
        Element::HStack(s) => n.children@.len() == s.children@.len() && (forall|k: int|
            0 <= k < n.children@.len() ==> mirrors(#[trigger] n.children@[k], s.children@[k])),
        Element::VStack(s) => n.children@.len() == s.children@.len() && (forall|k: int|
            0 <= k < n.children@.len() ==> mirrors(#[trigger] n.children@[k], s.children@[k])),
        Element::View(v) => n.children@.len() == v.children@.len() && (forall|k: int|
            0 <= k < n.children@.len() ==> mirrors(#[trigger] n.children@[k], v.children@[k])),
        Element::BackgroundColor(b) => n.children@.len() == 1 && mirrors(n.children@[0], *b.child),
        Element::Padding(p) => n.children@.len() == 1 && mirrors(n.children@[0], *p.child),
        Element::Window(w) => match w.child {
            Some(c) => n.children@.len() == 1 && mirrors(n.children@[0], *c),
            None => n.children@.len() == 0,
        },
    }
}

impl ShadowTree {
    /// The one internal consistency condition: the layout cache always has
    /// one slot per solver node.
    pub open spec fn inv(&self) -> bool {
        self.nodes@.len() == self.layouts@.len()
    }

    /// An empty tree.
    pub fn new() -> (t: Self)
        ensures
            t.inv(),
            t.nodes@.len() == 0,
            t.layouts@.len() == 0,
            t.root is None,
    {
        ShadowTree { nodes: Vec::new(), layouts: Vec::new(), root: None }
    }

    /// The root shadow node, when one was built.
    pub fn root(&self) -> (r: Option<&ShadowNode>)
        ensures
            match r {
                Some(n) => self.root matches Some(m) && *n == m,
                None => self.root is None,
            },
    {
        match &self.root {
            Some(n) => Some(n),
            None => None,
        }
    }

    /// The current style of a solver node, or `None` for an unknown handle.
    pub fn style(&self, id: usize) -> (s: Option<Style>)
        ensures
            s == if id < self.nodes@.len() {
                Some(self.nodes@[id as int].style)
            } else {
                Option::<Style>::None
            },
    {
        if id < self.nodes.len() {
            Some(self.nodes[id].style)
        } else {
            None
        }
    }

    /// The cached layout of a solver node: `None` for an unknown handle or
    /// for a node no solve has reached yet.
    pub fn get_layout(&self, id: usize) -> (l: Option<Layout>)
        ensures
            l == if id < self.layouts@.len() {
                self.layouts@[id as int]
            } else {
                Option::<Layout>::None
            },
    {
        if id < self.layouts.len() {
            self.layouts[id]
        } else {
            None
        }
    }

    /// Set an explicit sizing intent on a solver node.  Only the node's
    /// size fields change; every other node and the layout cache stay as
    /// they are.
    pub fn set_size(&mut self, id: usize, width: Dimension, height: Dimension)
        requires
            old(self).inv(),
            id < old(self).nodes@.len(),
        ensures
            final(self).inv(),
            final(self).nodes@.len() == old(self).nodes@.len(),
            final(self).nodes@[id as int].style == (Style {
                size_width: width,
                size_height: height,
                ..old(self).nodes@[id as int].style
            }),
            final(self).nodes@[id as int].children == old(self).nodes@[id as int].children,
            forall|j: int|
                0 <= j < final(self).nodes@.len() && j != id ==> final(self).nodes@[j] == old(self).nodes@[j],
            final(self).layouts == old(self).layouts,
            final(self).root == old(self).root,
    {
        self.nodes[id].style.size_width = width;
        self.nodes[id].style.size_height = height;
    }

    /// Build the shadow tree for an element tree and store it as the root.
    /// Text leaves are measured once, here, through the platform measurer.
    pub fn build_from_element<M: TextMeasurer>(&mut self, element: &Element, measurer: &mut M)
        requires
            old(self).inv(),
        ensures
            final(self).inv(),
            final(self).root matches Some(n) && {
                &&& well_formed(n)
                &&& low_id(n) == old(self).nodes@.len()
                &&& n.node_id == final(self).nodes@.len() - 1
                &&& mirrors(n, *element)
                &&& registered(n, final(self).nodes@)
            },
            seq_extends(final(self).nodes@, old(self).nodes@),
    {
        let node = self.create_node_from_element(element, measurer);
        proof {
            lemma_tree_size_pos(node);
        }
        self.root = Some(node);
    }

    /// Create a shadow node for an element, registering its children and
    /// then the node itself in the solver graph.  The new subtree owns
    /// exactly the handles from the old graph length up to its own handle;
    /// everything already registered is untouched, and the new layout
    /// slots start out empty.
    pub fn create_node_from_element<M: TextMeasurer>(
        &mut self,
        element: &Element,
        measurer: &mut M,
    ) -> (n: ShadowNode)
        requires
            old(self).inv(),
        ensures
            final(self).inv(),
            final(self).root == old(self).root,
            final(self).nodes@.len() == old(self).nodes@.len() + tree_size(n),
            seq_extends(final(self).nodes@, old(self).nodes@),
            seq_extends(final(self).layouts@, old(self).layouts@),
            forall|j: int|
                old(self).nodes@.len() <= j < final(self).nodes@.len() ==> final(self).layouts@[j] is None,
            well_formed(n),
            low_id(n) == old(self).nodes@.len(),
            n.node_id == final(self).nodes@.len() - 1,
            mirrors(n, *element),
            registered(n, final(self).nodes@),
        decreases *element,
    {
        let ghost start: int = self.nodes@.len() as int;
        let descriptor = element.shadow_descriptor();
        let mut children: Vec<ShadowNode> = Vec::new();
        proof {
            assert(children@ =~= Seq::<ShadowNode>::empty());
        }
        match element {
            Element::HStack(s) => {
                self.build_children(&s.children, measurer, &mut children);
            },
            Element::VStack(s) => {
                self.build_children(&s.children, measurer, &mut children);
            },
            Element::View(v) => {
                self.build_children(&v.children, measurer, &mut children);
            },
            Element::BackgroundColor(b) => {
                let child = self.create_node_from_element(&b.child, measurer);
                children.push(child);
                proof {
                    lemma_forest_push(Seq::<ShadowNode>::empty(), start, children@[0]);
                }
            },
            Element::Padding(p) => {
                let child = self.create_node_from_element(&p.child, measurer);
                children.push(child);
                proof {
                    lemma_forest_push(Seq::<ShadowNode>::empty(), start, children@[0]);
                }
            },
            Element::Window(w) => {
                match &w.child {
                    Some(c) => {
                        let child = self.create_node_from_element(c, measurer);
                        children.push(child);
                        proof {
                            lemma_forest_push(Seq::<ShadowNode>::empty(), start, children@[0]);
                        }
                    },
                    None => {},
                }
            },
            _ => {},
        }
        let intrinsic = match element {
            Element::Text(t) => measurer.measure_text(
                t.contents.as_str(),
                &t.modifiers.inner.text.font,
            ),
            _ => Size { width: 0, height: 0 },
        };
        let mut ids: Vec<usize> = Vec::new();
        let mut i: usize = 0;
        while i < children.len()
            invariant
                i <= children@.len(),
                ids@.len() == i,
                forall|k: int| 0 <= k < i ==> ids@[k] == children@[k].node_id,
            decreases children@.len() - i,
        {
            ids.push(children[i].node_id);
            i = i + 1;
        }
        let node_id = self.nodes.len();
        let ghost nodes_before = self.nodes@;
        self.nodes.push(SolverNode { style: descriptor.style, children: ids });
        self.layouts.push(None);
        let result = ShadowNode { node_id, kind: descriptor.kind, intrinsic, children };
        proof {
            lemma_forest_size_nonneg(result.children@);
            assert(self.nodes@.subrange(0, self.nodes@.len() - 1) =~= nodes_before);
            assert forall|k: int| 0 <= k < result.children@.len() implies registered(
                #[trigger] result.children@[k],
                self.nodes@,
            ) by {
                assert(registered(result.children@[k], nodes_before));
                lemma_registered_extend(result.children@[k], nodes_before, self.nodes@);
            }
            assert(registered(result, self.nodes@));
            assert(mirrors(result, *element));
            assert(well_formed(result));
        }
        result
    }

    /// Build shadow nodes for a run of sibling elements, appending them to
    /// `out`.  The siblings occupy consecutive handle ranges starting at
    /// the old graph length.
    fn build_children<M: TextMeasurer>(
        &mut self,
        elements: &Vec<Element>,
        measurer: &mut M,
        out: &mut Vec<ShadowNode>,
    )
        requires
            old(self).inv(),
            old(out)@.len() == 0,
        ensures
            final(self).inv(),
            final(self).root == old(self).root,
            final(out)@.len() == elements@.len(),
            final(self).nodes@.len() == old(self).nodes@.len() + forest_size(final(out)@),
            seq_extends(final(self).nodes@, old(self).nodes@),
            seq_extends(final(self).layouts@, old(self).layouts@),
            forall|j: int|
                old(self).nodes@.len() <= j < final(self).nodes@.len() ==> final(self).layouts@[j] is None,
            forest_well_formed(final(out)@, old(self).nodes@.len() as int),
            forall|k: int|
                0 <= k < final(out)@.len() ==> mirrors(#[trigger] final(out)@[k], elements@[k]),
            forall|k: int|
                0 <= k < final(out)@.len() ==> registered(
                    #[trigger] final(out)@[k],
                    final(self).nodes@,
                ),
        decreases *elements,
    {
        let ghost start: int = self.nodes@.len() as int;
        let mut i: usize = 0;
        proof {
            assert(out@ =~= Seq::<ShadowNode>::empty());
        }
        while i < elements.len()
            invariant
                self.inv(),
                self.root == old(self).root,
                i <= elements@.len(),
                out@.len() == i,
                self.nodes@.len() == start + forest_size(out@),
                start == old(self).nodes@.len(),
                seq_extends(self.nodes@, old(self).nodes@),
                seq_extends(self.layouts@, old(self).layouts@),
                forall|j: int| start <= j < self.nodes@.len() ==> self.layouts@[j] is None,
                forest_well_formed(out@, start),
                forall|k: int| 0 <= k < out@.len() ==> mirrors(#[trigger] out@[k], elements@[k]),
                forall|k: int|
                    0 <= k < out@.len() ==> registered(#[trigger] out@[k], self.nodes@),
            decreases elements@.len() - i,
        {
            let ghost nodes_before = self.nodes@;
            let ghost out_before = out@;
            let child = self.create_node_from_element(&elements[i], measurer);
            proof {
                lemma_forest_push(out_before, start, child);
            }
            out.push(child);
            i = i + 1;
            proof {
                assert forall|k: int| 0 <= k < out@.len() implies registered(
                    #[trigger] out@[k],
                    self.nodes@,
                ) by {
                    if k < out@.len() - 1 {
                        assert(registered(out_before[k], nodes_before));
                        assert(out@[k] == out_before[k]);
                        lemma_registered_extend(out@[k], nodes_before, self.nodes@);
                    }
                }
            }
        }
    }
}

impl Default for ShadowTree {
    /// An empty tree.
    fn default() -> (t: Self)
        ensures
            t.inv(),
            t.nodes@.len() == 0,
            t.layouts@.len() == 0,
            t.root is None,
    {
        ShadowTree::new()
    }
}

} // verus!
