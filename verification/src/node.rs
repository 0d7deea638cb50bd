//! The node tree: typed elements held in an arena, addressed by index.
//!
//! A node is created with its parent already fixed and children are only
//! ever appended, so every parent index is smaller than its node's index
//! and the tree is acyclic by construction. Each node carries its own
//! specified property state and the result of validating its attributes;
//! a node whose attributes failed to validate is "in error" and is skipped
//! when drawing.

use vstd::prelude::*;

use vstd::string::StringExecFns;

use crate::attributes::Attribute;
use crate::error::NodeError;
use crate::property_bag::PropertyBag;
use crate::state::{congruent, spec_apply_style, style_pair_ok, State};

verus! {

/// The closed set of element kinds, the filter-primitive sub-kinds
/// included. The two `FilterPrimitive` bracket values only delimit that
/// range and are not kinds of their own.
#[derive(Clone, Copy, Debug, PartialEq, Eq, Structural)]
pub enum NodeType {
    Invalid,
    Chars,
    Circle,
    ClipPath,
    ComponentTransferFunction,
    Defs,
    Ellipse,
    Filter,
    Group,
    Image,
    LightSource,
    Line,
    LinearGradient,
    Link,
    Marker,
    Mask,
    Path,
    Pattern,
    Polygon,
    Polyline,
    RadialGradient,
    Rect,
    Stop,
    Svg,
    Switch,
    Symbol,
    Text,
    TRef,
    TSpan,
    Use,
    FilterPrimitiveFirst,
    FilterPrimitiveBlend,
    FilterPrimitiveColorMatrix,
    FilterPrimitiveComponentTransfer,
    FilterPrimitiveComposite,
    FilterPrimitiveConvolveMatrix,
    FilterPrimitiveDiffuseLighting,
    FilterPrimitiveDisplacementMap,
    FilterPrimitiveErode,
    FilterPrimitiveFlood,
    FilterPrimitiveGaussianBlur,
    FilterPrimitiveImage,
    FilterPrimitiveMerge,
    FilterPrimitiveMergeNode,
    FilterPrimitiveOffset,
    FilterPrimitiveSpecularLighting,
    FilterPrimitiveTile,
    FilterPrimitiveTurbulence,
    FilterPrimitiveLast,
}

/// The outcome of validating a node's attributes.
pub type NodeResult = Result<(), NodeError>;

/// One element of the document: its kind, its place in the tree, its own
/// specified properties, and its validation result.
#[derive(Debug)]
pub struct Node {
    pub node_type: NodeType,
    pub parent: Option<usize>,
    pub children: Vec<usize>,
    pub state: State,
    pub result: NodeResult,
}

/// The document tree: an arena of nodes, and the index of registered
/// fragment identifiers.
#[derive(Debug)]
pub struct Tree {
    pub nodes: Vec<Node>,
    pub ids: Vec<(String, usize)>,
}

impl Tree {
    /// Every parent points strictly backwards, every child entry points
    /// strictly forwards to a node whose parent is the entry's owner,
    /// every state is well-formed, and every registered id names a node.
    pub open spec fn wf(self) -> bool {
        &&& forall|i: int|
            0 <= i < self.nodes.len() ==> match (#[trigger] self.nodes[i]).parent {
                Option::Some(p) => p < i,
                Option::None => true,
            }
        &&& forall|i: int, j: int|
            0 <= i < self.nodes.len() && 0 <= j < self.nodes[i].children.len() ==> {
                let c = #[trigger] self.nodes[i].children[j];
                &&& i < c < self.nodes.len()
                &&& self.nodes[c as int].parent == Option::Some(i as usize)
            }
        &&& forall|i: int| 0 <= i < self.nodes.len() ==> (#[trigger] self.nodes[i]).state.wf()
        &&& forall|k: int| 0 <= k < self.ids.len() ==> (#[trigger] self.ids[k]).1 < self.nodes.len()
    }

    /// An empty tree.
    pub fn new() -> (t: Tree)
        ensures
            t.wf(),
            t.nodes@.len() == 0,
            t.ids@.len() == 0,
    {
        Tree { nodes: Vec::new(), ids: Vec::new() }
    }

    /// The number of nodes.
    pub fn len(&self) -> (n: usize)
        ensures
            n == self.nodes@.len(),
    {
        self.nodes.len()
    }

    /// Creates a node with its parent fixed, in a success state and with
    /// no children yet, and returns its index. The new node is not yet
    /// listed among its parent's children; `add_child` does that.
    pub fn new_node(&mut self, node_type: NodeType, parent: Option<usize>, state: State) -> (id:
        usize)
        requires
            old(self).wf(),
            state.wf(),
            parent matches Some(p) ==> p < old(self).nodes.len(),
        ensures
            final(self).wf(),
            id == old(self).nodes@.len(),
            final(self).nodes@.len() == old(self).nodes@.len() + 1,
            forall|i: int|
                0 <= i < old(self).nodes@.len() ==> final(self).nodes@[i] == old(self).nodes@[i],
            final(self).nodes@[id as int].node_type == node_type,
            final(self).nodes@[id as int].parent == parent,
            final(self).nodes@[id as int].children@ == Seq::<usize>::empty(),
            final(self).nodes@[id as int].state == state,
            final(self).nodes@[id as int].result is Ok,
            final(self).ids@ == old(self).ids@,
    {
        let id = self.nodes.len();
        self.nodes.push(
            Node { node_type, parent, children: Vec::new(), state, result: Ok(()) },
        );
        id
    }

    /// The kind of a node.
    pub fn get_type(&self, node: usize) -> (r: NodeType)
        requires
            node < self.nodes@.len(),
        ensures
            r == self.nodes@[node as int].node_type,
    {
        self.nodes[node].node_type
    }

    /// A node's own specified state.
    pub fn get_state(&self, node: usize) -> (r: &State)
        requires
            node < self.nodes@.len(),
        ensures
            *r == self.nodes@[node as int].state,
    {
        &self.nodes[node].state
    }

    /// The parent of a node, absent at a root.
    pub fn get_parent(&self, node: usize) -> (r: Option<usize>)
        requires
            node < self.nodes@.len(),
        ensures
            r == self.nodes@[node as int].parent,
    {
        self.nodes[node].parent
    }

    /// The validation result of a node.
    pub fn get_result(&self, node: usize) -> (r: NodeResult)
        requires
            node < self.nodes@.len(),
        ensures
            r == self.nodes@[node as int].result,
    {
        match &self.nodes[node].result {
            Ok(u) => Ok(*u),
            Err(e) => Err(e.clone()),
        }
    }

    /// Marks a node as being in error.
    pub fn set_error(&mut self, node: usize, error: NodeError)
        requires
            old(self).wf(),
            node < old(self).nodes@.len(),
        ensures
            final(self).wf(),
            final(self).nodes@ == old(self).nodes@.update(
                node as int,
                Node { result: Err(error), ..old(self).nodes@[node as int] },
            ),
            final(self).ids@ == old(self).ids@,
    {
        let n = node_mut(&mut self.nodes, node);
        n.result = Err(error);
        proof {
            assert(final(self).nodes@[node as int] == Node {
                result: final(self).nodes@[node as int].result,
                ..old(self).nodes@[node as int]
            });
        }
    }

    /// Whether a node has children.
    pub fn has_children(&self, node: usize) -> (r: bool)
        requires
            node < self.nodes@.len(),
        ensures
            r == (self.nodes@[node as int].children@.len() > 0),
    {
        self.nodes[node].children.len() > 0
    }

    /// Appends a child to a node's ordered child list. The child must have
    /// been created with this node as its parent; there is no cycle check,
    /// because none is needed on this path.
    pub fn add_child(&mut self, node: usize, child: usize)
        requires
            old(self).wf(),
            node < old(self).nodes@.len(),
            child < old(self).nodes@.len(),
            old(self).nodes@[child as int].parent == Some(node),
        ensures
            final(self).wf(),
            final(self).nodes@ == old(self).nodes@.update(
                node as int,
                Node {
                    children: final(self).nodes@[node as int].children,
                    ..old(self).nodes@[node as int]
                },
            ),
            final(self).nodes@[node as int].children@ == old(self).nodes@[node as
                int].children@.push(child),
            final(self).ids@ == old(self).ids@,
    {
        proof {
            assert(old(self).nodes@[child as int].parent is Some);
            assert(node < child);
        }
        let n = node_mut(&mut self.nodes, node);
        n.children.push(child);
    }

    /// Registers a fragment identifier for a node. The first registration
    /// of an identifier wins on lookup.
    pub fn register_id(&mut self, name: &str, node: usize)
        requires
            old(self).wf(),
            node < old(self).nodes@.len(),
        ensures
            final(self).wf(),
            final(self).nodes@ == old(self).nodes@,
            final(self).ids@.len() == old(self).ids@.len() + 1,
            forall|k: int| 0 <= k < old(self).ids@.len() ==> final(self).ids@[k] == old(self).ids@[k],
            final(self).ids@.last().0@ == name@,
            final(self).ids@.last().1 == node,
    {
        self.ids.push((String::from_str(name), node));
    }
}

/// A mutable borrow of one arena entry.
fn node_mut(nodes: &mut Vec<Node>, i: usize) -> (element: &mut Node)
    requires
        i < old(nodes).len(),
    ensures
        *element == old(nodes)@[i as int],
        final(nodes)@ == old(nodes)@.update(i as int, *final(element)),
{
    &mut nodes[i]
}

/// Whether node `a` lies on the parent chain of node `d`; every node is
/// an ancestor of itself.
pub open spec fn is_ancestor_of(t: Tree, a: int, d: int) -> bool
    decreases d,
{
    if a == d {
        true
    } else {
        match t.nodes[d].parent {
            Option::Some(p) => 0 <= p < d && is_ancestor_of(t, a, p as int),
            Option::None => false,
        }
    }
}

/// An ancestor's index never exceeds the descendant's: the parent chain
/// walks strictly backwards.
pub proof fn lemma_ancestor_index_le(t: Tree, a: int, d: int)
    requires
        is_ancestor_of(t, a, d),
    ensures
        a <= d,
    decreases d,
{
    if a != d {
        let p = t.nodes[d].parent->Some_0;
        lemma_ancestor_index_le(t, a, p as int);
    }
}

/// A directly added child witnesses ancestry one way and never the other:
/// the parent is an ancestor of the child, and the child is no ancestor of
/// its parent.
pub proof fn lemma_parent_child_ancestry(t: Tree, c: int)
    requires
        t.wf(),
        0 <= c < t.nodes.len(),
        t.nodes[c].parent is Some,
    ensures
        is_ancestor_of(t, t.nodes[c].parent->Some_0 as int, c),
        !is_ancestor_of(t, c, t.nodes[c].parent->Some_0 as int),
{
    let p = t.nodes[c].parent->Some_0 as int;
    assert(p < c);
    assert(is_ancestor_of(t, p, p));
    if is_ancestor_of(t, c, p) {
        lemma_ancestor_index_le(t, c, p);
    }
}

impl Tree {
    /// Walks the parent chain of `descendant` and reports whether
    /// `ancestor` occurs on it; a node is its own ancestor.
    pub fn is_ancestor(&self, ancestor: usize, descendant: usize) -> (r: bool)
        requires
            self.wf(),
            ancestor < self.nodes@.len(),
            descendant < self.nodes@.len(),
        ensures
            r == is_ancestor_of(*self, ancestor as int, descendant as int),
    {
        let mut d = descendant;
        loop
            invariant
                self.wf(),
                ancestor < self.nodes@.len(),
                d < self.nodes@.len(),
                is_ancestor_of(*self, ancestor as int, descendant as int) == is_ancestor_of(
                    *self,
                    ancestor as int,
                    d as int,
                ),
            decreases d,
        {
            if ancestor == d {
                return true;
            }
            match self.nodes[d].parent {
                Option::Some(p) => {
                    d = p;
                },
                Option::None => {
                    return false;
                },
            }
        }
    }
}

/// A finite, restartable, bidirectional walk over a node's children, by
/// index. The two cursors consume from the front and the back
/// independently and meet in the middle without revisiting an element.
#[derive(Clone, Debug)]
pub struct Children {
    pub items: Vec<usize>,
    pub index: usize,
    pub reverse_index: usize,
}

impl Children {
    /// The front cursor never passes the back cursor, and both stay in
    /// range.
    pub open spec fn wf(self) -> bool {
        self.index <= self.reverse_index <= self.items.len()
    }

    /// A walk over the given child ids, with nothing consumed yet.
    pub fn new(items: Vec<usize>) -> (c: Children)
        ensures
            c.wf(),
            c.items@ == items@,
            c.index == 0,
            c.reverse_index == items@.len(),
    {
        let len = items.len();
        Children { items, index: 0, reverse_index: len }
    }

    /// How many children remain to be consumed.
    pub fn remaining(&self) -> (n: usize)
        requires
            self.wf(),
        ensures
            n == self.reverse_index - self.index,
    {
        self.reverse_index - self.index
    }

    /// Takes the next child from the front; `None` exactly when the two
    /// cursors have met, and then nothing changes.
    pub fn next(&mut self) -> (r: Option<usize>)
        requires
            old(self).wf(),
        ensures
            final(self).wf(),
            final(self).items == old(self).items,
            old(self).index == old(self).reverse_index ==> r is None && *final(self) == *old(
                self,
            ),
            old(self).index < old(self).reverse_index ==> r == Some(
                old(self).items@[old(self).index as int],
            ) && final(self).index == old(self).index + 1 && final(self).reverse_index == old(
                self,
            ).reverse_index,
    {
        if self.index == self.reverse_index {
            return Option::None;
        }
        let item = self.items[self.index];
        self.index = self.index + 1;
        Some(item)
    }

    /// Takes the next child from the back; `None` exactly when the two
    /// cursors have met, and then nothing changes.
    pub fn next_back(&mut self) -> (r: Option<usize>)
        requires
            old(self).wf(),
        ensures
            final(self).wf(),
            final(self).items == old(self).items,
            old(self).index == old(self).reverse_index ==> r is None && *final(self) == *old(
                self,
            ),
            old(self).index < old(self).reverse_index ==> r == Some(
                old(self).items@[old(self).reverse_index - 1],
            ) && final(self).reverse_index == old(self).reverse_index - 1 && final(self).index
                == old(self).index,
    {
        if self.index == self.reverse_index {
            return Option::None;
        }
        self.reverse_index = self.reverse_index - 1;
        Some(self.items[self.reverse_index])
    }
}

/// Once the cursors have met, the children taken from the front and those
/// taken from the back together are exactly the child list, each child
/// once: the front part and the back part partition it.
pub proof fn lemma_children_exhaustive(c: Children)
    requires
        c.wf(),
        c.index == c.reverse_index,
    ensures
        c.items@.subrange(0, c.index as int) + c.items@.subrange(
            c.reverse_index as int,
            c.items@.len() as int,
        ) == c.items@,
{
    assert(c.items@.subrange(0, c.index as int) + c.items@.subrange(
        c.reverse_index as int,
        c.items@.len() as int,
    ) =~= c.items@);
}

impl Tree {
    /// A fresh walk over a node's children, in document order.
    pub fn children(&self, node: usize) -> (c: Children)
        requires
            node < self.nodes@.len(),
        ensures
            c.wf(),
            c.items@ == self.nodes@[node as int].children@,
            c.index == 0,
            c.reverse_index == c.items@.len(),
    {
        Children::new(self.nodes[node].children.clone())
    }
}

/// The index of the first attribute in the bag whose value is rejected, or
/// the bag's length when every value is accepted.
pub open spec fn first_bad_att(atts: Seq<(Attribute, String)>) -> int
    decreases atts.len(),
{
    if atts.len() == 0 {
        0
    } else if !style_pair_ok(atts[0].0, atts[0].1@) {
        0
    } else {
        1 + first_bad_att(atts.drop_first())
    }
}

/// The state after applying the first `n` attributes of the bag in order.
pub open spec fn spec_apply_prefix(st: State, atts: Seq<(Attribute, String)>, n: int) -> State
    decreases n,
{
    if n <= 0 {
        st
    } else {
        spec_apply_style(spec_apply_prefix(st, atts, n - 1), atts[n - 1].0, atts[n - 1].1)
    }
}

/// A scan that stops at the first rejected attribute lands on
/// `first_bad_att`.
proof fn lemma_first_bad_att(atts: Seq<(Attribute, String)>, i: int)
    requires
        0 <= i <= atts.len(),
        forall|j: int| 0 <= j < i ==> #[trigger] style_pair_ok(atts[j].0, atts[j].1@),
        i < atts.len() ==> !style_pair_ok(atts[i].0, atts[i].1@),
    ensures
        first_bad_att(atts) == i,
    decreases i,
{
    if i == 0 {
    } else {
        assert(style_pair_ok(atts[0].0, atts[0].1@));
        assert(forall|j: int|
            0 <= j < i - 1 ==> #[trigger] style_pair_ok(
                atts.drop_first()[j].0,
                atts.drop_first()[j].1@,
            ) == style_pair_ok(atts[j + 1].0, atts[j + 1].1@));
        lemma_first_bad_att(atts.drop_first(), i - 1);
    }
}

impl Tree {
    /// Parses each attribute of the bag into the node's specified state, in
    /// order, stopping at the first rejected value; the node is then marked
    /// in error with that attribute and the reason, and is otherwise marked
    /// valid. The attributes before the failing one keep their effect.
    pub fn set_atts(&mut self, node: usize, pbag: &PropertyBag)
        requires
            old(self).wf(),
            node < old(self).nodes@.len(),
        ensures
            final(self).wf(),
            final(self).ids@ == old(self).ids@,
            final(self).nodes@.len() == old(self).nodes@.len(),
            forall|i: int|
                0 <= i < old(self).nodes@.len() && i != node ==> final(self).nodes@[i] == old(
                    self,
                ).nodes@[i],
            final(self).nodes@[node as int].node_type == old(self).nodes@[node as int].node_type,
            final(self).nodes@[node as int].parent == old(self).nodes@[node as int].parent,
            final(self).nodes@[node as int].children == old(self).nodes@[node as int].children,
            congruent(
                final(self).nodes@[node as int].state,
                spec_apply_prefix(
                    old(self).nodes@[node as int].state,
                    pbag.atts@,
                    first_bad_att(pbag.atts@),
                ),
            ),
            first_bad_att(pbag.atts@) == pbag.atts@.len() ==> final(self).nodes@[node as
                int].result is Ok,
            first_bad_att(pbag.atts@) < pbag.atts@.len() ==> ({
                let k = first_bad_att(pbag.atts@);
                &&& final(self).nodes@[node as int].result is Err
                &&& final(self).nodes@[node as int].result->Err_0.attribute == pbag.atts@[k].0
                &&& final(self).nodes@[node as int].result->Err_0.error.is_invalid_value()
            }),
    {
        let ghost orig = self.nodes@[node as int].state;
        let mut st = self.get_state(node).clone();
        let n = pbag.atts.len();
        let mut i: usize = 0;
        let mut err: Option<NodeError> = Option::None;
        loop
            invariant_except_break
                i <= n,
                n == pbag.atts@.len(),
                err is None,
                st.wf(),
                congruent(st, spec_apply_prefix(orig, pbag.atts@, i as int)),
                forall|j: int|
                    0 <= j < i ==> #[trigger] style_pair_ok(pbag.atts@[j].0, pbag.atts@[j].1@),
            ensures
                st.wf(),
                match err {
                    Option::None => first_bad_att(pbag.atts@) == pbag.atts@.len() && congruent(
                        st,
                        spec_apply_prefix(orig, pbag.atts@, pbag.atts@.len() as int),
                    ),
                    Option::Some(e) => ({
                        let k = first_bad_att(pbag.atts@);
                        &&& k < pbag.atts@.len()
                        &&& congruent(st, spec_apply_prefix(orig, pbag.atts@, k))
                        &&& e.attribute == pbag.atts@[k].0
                        &&& e.error.is_invalid_value()
                    }),
                },
            decreases n - i,
        {
            if i == n {
                proof {
                    lemma_first_bad_att(pbag.atts@, n as int);
                }
                break;
            }
            let pair = &pbag.atts[i];
            let attr = pair.0;
            let ghost prev = spec_apply_prefix(orig, pbag.atts@, i as int);
            match st.parse_style_pair(attr, pair.1.as_str()) {
                Ok(_) => {
                    proof {
                        assert(style_pair_ok(attr, pbag.atts@[i as int].1@));
                        match attr {
                            Attribute::ClipRule => {
                                assert(congruent(
                                    st,
                                    spec_apply_style(prev, attr, pbag.atts@[i as int].1),
                                ));
                            },
                            Attribute::CompOp => {
                                assert(congruent(
                                    st,
                                    spec_apply_style(prev, attr, pbag.atts@[i as int].1),
                                ));
                            },
                            Attribute::FillRule => {
                                assert(congruent(
                                    st,
                                    spec_apply_style(prev, attr, pbag.atts@[i as int].1),
                                ));
                            },
                            Attribute::FontStretch => {
                                assert(congruent(
                                    st,
                                    spec_apply_style(prev, attr, pbag.atts@[i as int].1),
                                ));
                            },
                            Attribute::FontStyle => {
                                assert(congruent(
                                    st,
                                    spec_apply_style(prev, attr, pbag.atts@[i as int].1),
                                ));
                            },
                            Attribute::FontVariant => {
                                assert(congruent(
                                    st,
                                    spec_apply_style(prev, attr, pbag.atts@[i as int].1),
                                ));
                            },
                            Attribute::FontWeight => {
                                assert(congruent(
                                    st,
                                    spec_apply_style(prev, attr, pbag.atts@[i as int].1),
                                ));
                            },
                            Attribute::Display => {
                                assert(congruent(
                                    st,
                                    spec_apply_style(prev, attr, pbag.atts@[i as int].1),
                                ));
                            },
                            Attribute::EnableBackground => {
                                assert(congruent(
                                    st,
                                    spec_apply_style(prev, attr, pbag.atts@[i as int].1),
                                ));
                            },
                            Attribute::Overflow => {
                                assert(congruent(
                                    st,
                                    spec_apply_style(prev, attr, pbag.atts@[i as int].1),
                                ));
                            },
                            Attribute::ShapeRendering => {
                                assert(congruent(
                                    st,
                                    spec_apply_style(prev, attr, pbag.atts@[i as int].1),
                                ));
                            },
                            Attribute::StrokeLinecap => {
                                assert(congruent(
                                    st,
                                    spec_apply_style(prev, attr, pbag.atts@[i as int].1),
                                ));
                            },
                            Attribute::StrokeLinejoin => {
                                assert(congruent(
                                    st,
                                    spec_apply_style(prev, attr, pbag.atts@[i as int].1),
                                ));
                            },
                            Attribute::TextAnchor => {
                                assert(congruent(
                                    st,
                                    spec_apply_style(prev, attr, pbag.atts@[i as int].1),
                                ));
                            },
                            Attribute::TextRendering => {
                                assert(congruent(
                                    st,
                                    spec_apply_style(prev, attr, pbag.atts@[i as int].1),
                                ));
                            },
                            Attribute::UnicodeBidi => {
                                assert(congruent(
                                    st,
                                    spec_apply_style(prev, attr, pbag.atts@[i as int].1),
                                ));
                            },
                            Attribute::Visibility => {
                                assert(congruent(
                                    st,
                                    spec_apply_style(prev, attr, pbag.atts@[i as int].1),
                                ));
                            },
                            Attribute::FontSize => {
                                assert(congruent(
                                    st,
                                    spec_apply_style(prev, attr, pbag.atts@[i as int].1),
                                ));
                            },
                            Attribute::LetterSpacing => {
                                assert(congruent(
                                    st,
                                    spec_apply_style(prev, attr, pbag.atts@[i as int].1),
                                ));
                            },
                            Attribute::StrokeWidth => {
                                assert(congruent(
                                    st,
                                    spec_apply_style(prev, attr, pbag.atts@[i as int].1),
                                ));
                            },
                            Attribute::BaselineShift => {
                                assert(congruent(
                                    st,
                                    spec_apply_style(prev, attr, pbag.atts@[i as int].1),
                                ));
                            },
                            Attribute::StrokeMiterlimit => {
                                assert(congruent(
                                    st,
                                    spec_apply_style(prev, attr, pbag.atts@[i as int].1),
                                ));
                            },
                            Attribute::TextDecoration => {
                                assert(congruent(
                                    st,
                                    spec_apply_style(prev, attr, pbag.atts@[i as int].1),
                                ));
                            },
                            Attribute::FontFamily => {
                                assert(congruent(
                                    st,
                                    spec_apply_style(prev, attr, pbag.atts@[i as int].1),
                                ));
                            },
                            Attribute::XmlLang => {
                                assert(congruent(
                                    st,
                                    spec_apply_style(prev, attr, pbag.atts@[i as int].1),
                                ));
                            },
                            Attribute::XmlSpace => {
                                assert(congruent(
                                    st,
                                    spec_apply_style(prev, attr, pbag.atts@[i as int].1),
                                ));
                            },
                            _ => {
                                assert(congruent(
                                    st,
                                    spec_apply_style(prev, attr, pbag.atts@[i as int].1),
                                ));
                            },
                        }
                    }
                    i = i + 1;
                },
                Err(e) => {
                    proof {
                        assert(!style_pair_ok(attr, pbag.atts@[i as int].1@));
                        lemma_first_bad_att(pbag.atts@, i as int);
                    }
                    err = Option::Some(NodeError { attribute: attr, error: e });
                    break;
                },
            }
        }
        let entry = node_mut(&mut self.nodes, node);
        entry.state = st;
        match err {
            Option::None => {
                entry.result = Ok(());
            },
            Option::Some(e) => {
                entry.result = Err(e);
            },
        }
    }
}

/// Law: a node is always its own ancestor.
pub proof fn lemma_ancestor_reflexive(t: Tree, x: int)
    ensures
        is_ancestor_of(t, x, x),
{
}

} // verus!

