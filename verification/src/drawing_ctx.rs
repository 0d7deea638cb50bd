//! The drawing context: the traversal-scoped orchestrator of a render
//! pass. It owns the cascade-frame stack, the nested view-box extents, the
//! device resolution, the bounding-box accumulator, and the set of ids
//! acquired by reference during the current resolution. Mark-making itself
//! belongs to the drawing and text backends; within this core, drawing an
//! element cascades its state and draws its children.

use vstd::prelude::*;

use crate::bbox::{union_spec, BBox};
use crate::error::RenderError;
use crate::node::Tree;
use crate::length::{Length, LengthDir, LengthUnit};
use crate::matrix::{mul_matrix, Matrix};
use crate::property::FontSize;
use crate::ratio::{add_ok, mul_ok, radd, rat, rmul, Ratio};
use crate::state::{self, run_inherit, InheritControl, State};

verus! {

/// Per-traversal render state. Every independent render pass uses its own
/// context; nothing here is shared.
#[derive(Debug)]
pub struct DrawingCtx {
    /// The cascade frames, bottom to top; the last one is the state of the
    /// element being visited.
    pub state_stack: Vec<State>,
    /// The nested view-box extents (width, height), innermost last.
    pub view_box_stack: Vec<(Ratio, Ratio)>,
    /// Device resolution along each axis, in dots per inch.
    pub dpi_x: Ratio,
    pub dpi_y: Ratio,
    /// The extent of everything drawn so far in this pass.
    pub bbox: BBox,
    /// The nodes currently acquired by id in this traversal, in
    /// acquisition order; never holds a node twice.
    pub acquired: Vec<usize>,
    /// How many isolated compositing groups are open.
    pub layer_depth: usize,
}

/// A scoped handle to a node resolved by id. While the handle is out, the
/// node counts as active and cannot be acquired again; `release_node`
/// gives it back.
#[derive(Clone, Copy, Debug, PartialEq, Eq, Structural)]
pub struct AcquiredNode {
    pub node: usize,
}

impl AcquiredNode {
    /// The node this handle resolved to.
    pub fn get(&self) -> (r: usize)
        ensures
            r == self.node,
    {
        self.node
    }
}

/// Whether two contexts agree on everything an id acquisition never
/// touches.
pub open spec fn same_but_acquired(a: DrawingCtx, b: DrawingCtx) -> bool {
    &&& a.state_stack@ == b.state_stack@
    &&& a.view_box_stack@ == b.view_box_stack@
    &&& a.dpi_x == b.dpi_x
    &&& a.dpi_y == b.dpi_y
    &&& a.bbox == b.bbox
    &&& a.layer_depth == b.layer_depth
}

/// No node occurs twice.
pub open spec fn distinct(s: Seq<usize>) -> bool {
    forall|i: int, j: int| 0 <= i < j < s.len() ==> s[i] != s[j]
}

impl DrawingCtx {
    /// Every frame and every stored rational is well-formed, and no node
    /// is acquired twice.
    pub open spec fn wf(self) -> bool {
        &&& forall|i: int| 0 <= i < self.state_stack.len() ==> (#[trigger] self.state_stack[i]).wf()
        &&& forall|i: int|
            0 <= i < self.view_box_stack.len() ==> (#[trigger] self.view_box_stack[i]).0.wf()
                && self.view_box_stack[i].1.wf()
        &&& self.dpi_x.wf()
        &&& self.dpi_y.wf()
        &&& self.bbox.wf()
        &&& distinct(self.acquired@)
    }

    /// A fresh context for one render pass: an empty frame stack, the
    /// initial view box, an empty accumulator, and nothing acquired.
    pub fn new(dpi_x: Ratio, dpi_y: Ratio, view_box_width: Ratio, view_box_height: Ratio) -> (r:
        DrawingCtx)
        requires
            dpi_x.wf(),
            dpi_y.wf(),
            view_box_width.wf(),
            view_box_height.wf(),
        ensures
            r.wf(),
            r.state_stack@.len() == 0,
            r.view_box_stack@ == Seq::<(Ratio, Ratio)>::empty().push(
                (view_box_width, view_box_height),
            ),
            r.dpi_x == dpi_x,
            r.dpi_y == dpi_y,
            !r.bbox.active,
            r.acquired@.len() == 0,
            r.layer_depth == 0,
    {
        let mut view_box_stack: Vec<(Ratio, Ratio)> = Vec::new();
        view_box_stack.push((view_box_width, view_box_height));
        DrawingCtx {
            state_stack: Vec::new(),
            view_box_stack,
            dpi_x,
            dpi_y,
            bbox: BBox::new(),
            acquired: Vec::new(),
            layer_depth: 0,
        }
    }

    /// The device resolution, horizontal then vertical.
    pub fn get_dpi(&self) -> (r: (Ratio, Ratio))
        ensures
            r == (self.dpi_x, self.dpi_y),
    {
        (self.dpi_x, self.dpi_y)
    }

    /// Opens a fresh cascade frame on top of the stack.
    pub fn state_push(&mut self)
        requires
            old(self).wf(),
        ensures
            final(self).wf(),
            final(self).state_stack@.len() == old(self).state_stack@.len() + 1,
            forall|i: int|
                0 <= i < old(self).state_stack@.len() ==> final(self).state_stack@[i] == old(
                    self,
                ).state_stack@[i],
            final(self).state_stack@.last().is_initial(),
            final(self).state_stack@.last() == crate::state::initial_frame(),
            *final(self) == (DrawingCtx { state_stack: final(self).state_stack, ..*old(self) }),
    {
        self.state_stack.push(state::new());
    }

    /// Releases the top cascade frame, restoring the previous one.
    pub fn state_pop(&mut self)
        requires
            old(self).wf(),
            old(self).state_stack@.len() >= 1,
        ensures
            final(self).wf(),
            final(self).state_stack@ == old(self).state_stack@.drop_last(),
            *final(self) == (DrawingCtx { state_stack: final(self).state_stack, ..*old(self) }),
    {
        self.state_stack.pop();
    }

    /// The cascade frame of the element currently being visited.
    pub fn get_current_state(&self) -> (r: &State)
        requires
            self.state_stack@.len() >= 1,
        ensures
            *r == self.state_stack@.last(),
    {
        &self.state_stack[self.state_stack.len() - 1]
    }

    /// Enters a nested view box for percentage resolution.
    pub fn push_view_box(&mut self, width: Ratio, height: Ratio)
        requires
            old(self).wf(),
            width.wf(),
            height.wf(),
        ensures
            final(self).wf(),
            final(self).view_box_stack@ == old(self).view_box_stack@.push((width, height)),
            *final(self) == (DrawingCtx {
                view_box_stack: final(self).view_box_stack,
                ..*old(self)
            }),
    {
        self.view_box_stack.push((width, height));
    }

    /// Leaves the innermost view box.
    pub fn pop_view_box(&mut self)
        requires
            old(self).wf(),
            old(self).view_box_stack@.len() >= 1,
        ensures
            final(self).wf(),
            final(self).view_box_stack@ == old(self).view_box_stack@.drop_last(),
            *final(self) == (DrawingCtx {
                view_box_stack: final(self).view_box_stack,
                ..*old(self)
            }),
    {
        self.view_box_stack.pop();
    }

    /// The innermost view-box extent, width then height.
    pub fn get_view_box_size(&self) -> (r: (Ratio, Ratio))
        requires
            self.view_box_stack@.len() >= 1,
        ensures
            r == self.view_box_stack@.last(),
    {
        self.view_box_stack[self.view_box_stack.len() - 1]
    }

    /// Opens an isolated compositing group. The group itself is the
    /// drawing backend's affair; the context tracks only the nesting.
    pub fn push_discrete_layer(&mut self, clipping: bool)
        requires
            old(self).wf(),
            old(self).layer_depth < usize::MAX,
        ensures
            final(self).wf(),
            final(self).layer_depth == old(self).layer_depth + 1,
            *final(self) == (DrawingCtx { layer_depth: final(self).layer_depth, ..*old(self) }),
    {
        self.layer_depth = self.layer_depth + 1;
    }

    /// Closes the innermost compositing group.
    pub fn pop_discrete_layer(&mut self, clipping: bool)
        requires
            old(self).wf(),
            old(self).layer_depth >= 1,
        ensures
            final(self).wf(),
            final(self).layer_depth == old(self).layer_depth - 1,
            *final(self) == (DrawingCtx { layer_depth: final(self).layer_depth, ..*old(self) }),
    {
        self.layer_depth = self.layer_depth - 1;
    }

    /// Merges an extent, already in the current coordinate space, into the
    /// accumulator.
    pub fn insert_bbox(&mut self, src: &BBox)
        requires
            old(self).wf(),
            src.wf(),
        ensures
            final(self).wf(),
            final(self).bbox == union_spec(old(self).bbox, *src),
            *final(self) == (DrawingCtx { bbox: final(self).bbox, ..*old(self) }),
    {
        self.bbox.insert(src);
    }
}

/// The node a fragment identifier resolves to: the first registration of
/// the identifier wins.
pub open spec fn lookup_id(ids: Seq<(String, usize)>, name: Seq<char>) -> Option<usize>
    decreases ids.len(),
{
    if ids.len() == 0 {
        Option::None
    } else if ids[0].0@ == name {
        Option::Some(ids[0].1)
    } else {
        lookup_id(ids.drop_first(), name)
    }
}

/// A scan that stops at the first matching registration lands on
/// `lookup_id`.
proof fn lemma_lookup_id(ids: Seq<(String, usize)>, name: Seq<char>, i: int)
    requires
        0 <= i <= ids.len(),
        forall|j: int| 0 <= j < i ==> (#[trigger] ids[j]).0@ != name,
        i < ids.len() ==> ids[i].0@ == name,
    ensures
        lookup_id(ids, name) == if i < ids.len() {
            Option::Some(ids[i].1)
        } else {
            Option::<usize>::None
        },
    decreases i,
{
    if i == 0 {
    } else {
        assert(forall|j: int|
            0 <= j < i - 1 ==> (#[trigger] ids.drop_first()[j]).0@ == ids[j + 1].0@);
        lemma_lookup_id(ids.drop_first(), name, i - 1);
    }
}

impl DrawingCtx {
    /// Whether a node is on the active-acquisition set.
    #[verifier::loop_isolation(false)]
    fn is_acquired(&self, node: usize) -> (r: bool)
        ensures
            r == self.acquired@.contains(node),
    {
        let n = self.acquired.len();
        let mut i: usize = 0;
        while i < n
            invariant
                i <= n,
                n == self.acquired@.len(),
                forall|j: int| 0 <= j < i ==> self.acquired@[j] != node,
            decreases n - i,
        {
            if self.acquired[i] == node {
                return true;
            }
            i = i + 1;
        }
        proof {
            assert(forall|j: int| 0 <= j < n ==> self.acquired@[j] != node);
        }
        false
    }

    /// Resolves a fragment identifier against the document's id index and
    /// acquires the node: `None` when the id is not registered, or when
    /// that node is already active in this traversal — the cycle guard.
    /// On success the node joins the active set until it is released.
    #[verifier::loop_isolation(false)]
    pub fn acquire_node(&mut self, tree: &Tree, id: &str) -> (r: Option<AcquiredNode>)
        requires
            old(self).wf(),
            tree.wf(),
        ensures
            final(self).wf(),
            same_but_acquired(*old(self), *final(self)),
            match lookup_id(tree.ids@, id@) {
                Option::Some(node) => if old(self).acquired@.contains(node) {
                    r is None && final(self).acquired@ == old(self).acquired@
                } else {
                    &&& r == Some(AcquiredNode { node })
                    &&& final(self).acquired@ == old(self).acquired@.push(node)
                },
                Option::None => r is None && final(self).acquired@ == old(self).acquired@,
            },
    {
        let n = tree.ids.len();
        let mut i: usize = 0;
        while i < n
            invariant
                i <= n,
                n == tree.ids@.len(),
                *self == *old(self),
                forall|j: int| 0 <= j < i ==> (#[trigger] tree.ids@[j]).0@ != id@,
            decreases n - i,
        {
            let pair = &tree.ids[i];
            if crate::text::str_eq(pair.0.as_str(), id) {
                proof {
                    lemma_lookup_id(tree.ids@, id@, i as int);
                }
                let node = pair.1;
                if self.is_acquired(node) {
                    return Option::None;
                }
                proof {
                    lemma_distinct_push(self.acquired@, node);
                }
                self.acquired.push(node);
                return Some(AcquiredNode { node });
            }
            i = i + 1;
        }
        proof {
            lemma_lookup_id(tree.ids@, id@, n as int);
        }
        Option::None
    }

    /// Gives an acquired node back: its id leaves the active set, and a
    /// later acquisition may resolve it again. Releasing a handle that is
    /// not active changes nothing.
    #[verifier::loop_isolation(false)]
    pub fn release_node(&mut self, handle: AcquiredNode)
        requires
            old(self).wf(),
        ensures
            final(self).wf(),
            same_but_acquired(*old(self), *final(self)),
            old(self).acquired@.contains(handle.node) ==> final(self).acquired@ == old(
                self,
            ).acquired@.remove(index_of_node(old(self).acquired@, handle.node)),
            !old(self).acquired@.contains(handle.node) ==> final(self).acquired@ == old(
                self,
            ).acquired@,
    {
        let n = self.acquired.len();
        let mut i: usize = 0;
        while i < n
            invariant
                i <= n,
                n == self.acquired@.len(),
                *self == *old(self),
                forall|j: int| 0 <= j < i ==> self.acquired@[j] != handle.node,
            decreases n - i,
        {
            if self.acquired[i] == handle.node {
                proof {
                    lemma_index_of_node(self.acquired@, handle.node, i as int);
                }
                self.acquired.remove(i);
                proof {
                    lemma_distinct_remove(old(self).acquired@, i as int);
                }
                return ;
            }
            i = i + 1;
        }
        proof {
            assert(forall|j: int| 0 <= j < n ==> self.acquired@[j] != handle.node);
        }
    }

    /// Resolves a fragment identifier and acquires the node only when it
    /// has the required kind; a node of another kind is released at once
    /// and the acquisition fails.
    pub fn acquire_node_of_type(&mut self, tree: &Tree, id: &str, node_type: crate::node::NodeType)
        -> (r: Option<AcquiredNode>)
        requires
            old(self).wf(),
            tree.wf(),
        ensures
            final(self).wf(),
            same_but_acquired(*old(self), *final(self)),
            match lookup_id(tree.ids@, id@) {
                Option::Some(node) => if !old(self).acquired@.contains(node)
                    && tree.nodes@[node as int].node_type == node_type {
                    &&& r == Some(AcquiredNode { node })
                    &&& final(self).acquired@ == old(self).acquired@.push(node)
                } else {
                    r is None && final(self).acquired@ == old(self).acquired@
                },
                Option::None => r is None && final(self).acquired@ == old(self).acquired@,
            },
    {
        let handle = match self.acquire_node(tree, id) {
            Option::Some(h) => h,
            Option::None => {
                return Option::None;
            },
        };
        proof {
            lemma_lookup_in_range(tree.ids@, id@, tree.nodes@.len() as int);
        }
        let found_type = tree.get_type(handle.node);
        if !(found_type == node_type) {
            proof {
                let s = old(self).acquired@;
                let p = s.push(handle.node);
                assert(p[s.len() as int] == handle.node);
                assert(p.contains(handle.node));
                lemma_index_of_push(s, handle.node);
                assert(p.remove(s.len() as int) =~= s);
            }
            self.release_node(handle);
            return Option::None;
        }
        Some(handle)
    }
}

/// The position of a node on the active-acquisition set.
pub open spec fn index_of_node(s: Seq<usize>, v: usize) -> int
    decreases s.len(),
{
    if s.len() == 0 {
        0
    } else if s[0] == v {
        0
    } else {
        1 + index_of_node(s.drop_first(), v)
    }
}

/// A scan that stops at the first occurrence lands on `index_of_node`.
proof fn lemma_index_of_node(s: Seq<usize>, v: usize, i: int)
    requires
        0 <= i < s.len(),
        forall|j: int| 0 <= j < i ==> s[j] != v,
        s[i] == v,
    ensures
        index_of_node(s, v) == i,
    decreases i,
{
    if i > 0 {
        lemma_index_of_node(s.drop_first(), v, i - 1);
    }
}

/// Pushing a node not yet on the set puts it at the end.
proof fn lemma_index_of_push(s: Seq<usize>, v: usize)
    requires
        !s.contains(v),
    ensures
        index_of_node(s.push(v), v) == s.len(),
{
    assert(forall|j: int| 0 <= j < s.len() ==> s.push(v)[j] != v);
    lemma_index_of_node(s.push(v), v, s.len() as int);
}

/// A registered identifier always names a node of the document.
proof fn lemma_lookup_in_range(ids: Seq<(String, usize)>, name: Seq<char>, n: int)
    requires
        forall|k: int| 0 <= k < ids.len() ==> (#[trigger] ids[k]).1 < n,
    ensures
        lookup_id(ids, name) matches Some(v) ==> v < n,
    decreases ids.len(),
{
    if ids.len() > 0 && ids[0].0@ != name {
        assert(forall|k: int|
            0 <= k < ids.drop_first().len() ==> (#[trigger] ids.drop_first()[k]) == ids[k + 1]);
        lemma_lookup_in_range(ids.drop_first(), name, n);
    }
}

/// A new element keeps the set free of repetitions.
proof fn lemma_distinct_push(s: Seq<usize>, v: usize)
    requires
        distinct(s),
        !s.contains(v),
    ensures
        distinct(s.push(v)),
{
    assert forall|i: int, j: int| 0 <= i < j < s.push(v).len() implies s.push(v)[i] != s.push(v)[j]
    by {
        if j == s.len() {
            assert(s.push(v)[i] == s[i]);
            assert(!s.contains(v));
            assert(s[i] != v);
        }
    }
}

/// Removing an element keeps the set free of repetitions.
proof fn lemma_distinct_remove(s: Seq<usize>, k: int)
    requires
        distinct(s),
        0 <= k < s.len(),
    ensures
        distinct(s.remove(k)),
{
    assert forall|i: int, j: int| 0 <= i < j < s.remove(k).len() implies s.remove(k)[i] != s.remove(
        k,
    )[j] by {
        let si = if i < k {
            i
        } else {
            i + 1
        };
        let sj = if j < k {
            j
        } else {
            j + 1
        };
        assert(s.remove(k)[i] == s[si]);
        assert(s.remove(k)[j] == s[sj]);
    }
}

/// Whether two contexts agree on everything the cascade of the top frame
/// never touches.
pub open spec fn same_but_frames(a: DrawingCtx, b: DrawingCtx) -> bool {
    &&& a.view_box_stack@ == b.view_box_stack@
    &&& a.dpi_x == b.dpi_x
    &&& a.dpi_y == b.dpi_y
    &&& a.bbox == b.bbox
    &&& a.acquired@ == b.acquired@
    &&& a.layer_depth == b.layer_depth
}

/// Whether cascading `src` onto the top frame stays representable: only
/// the composition of the transform with the parent frame's can overflow,
/// and only in the two modes that compose it.
pub open spec fn cascade_ok(stack: Seq<State>, src: State, dominate: int) -> bool {
    dominate == 2 || stack.len() == 1 || Matrix::mul_in_range(
        src.affine,
        stack[stack.len() - 2].affine,
    )
}

/// The top frame the cascade leaves behind. Mode 2 replaces every style
/// property from the source and keeps the frame's transform. The other
/// modes start from the source outright; with no parent frame that is all,
/// and otherwise the parent frame's styles are merged in — an unset slot
/// inherits, and in mode 1 an explicitly set parent slot wins outright —
/// and the transform becomes the source's composed onto the parent's.
pub open spec fn cascade_result(stack: Seq<State>, src: State, dominate: int) -> State {
    if dominate == 2 {
        run_inherit(stack.last(), src, InheritControl::Force, true)
    } else if stack.len() == 1 {
        src
    } else {
        let parent = stack[stack.len() - 2];
        let ctl = if dominate == 0 {
            InheritControl::Reinherit
        } else {
            InheritControl::Dominate
        };
        let combined = run_inherit(src, parent, ctl, false);
        State { affine: mul_matrix(src.affine, parent.affine), ..combined }
    }
}

/// A mutable borrow of one cascade frame.
fn frame_mut(frames: &mut Vec<State>, i: usize) -> (element: &mut State)
    requires
        i < old(frames).len(),
    ensures
        *element == old(frames)@[i as int],
        final(frames)@ == old(frames)@.update(i as int, *final(element)),
{
    &mut frames[i]
}

impl DrawingCtx {
    /// Cascades a node's specified state onto the top frame, in the mode
    /// the `dominate` selector names: 0 inherits normally, 1 lets the
    /// parent's explicit values win, 2 replaces the styles wholesale and
    /// leaves the transform untouched. Mode 3 is reserved and refused.
    /// Errs exactly when the transform composition overflows, and then
    /// changes nothing.
    pub fn state_reinherit_top(&mut self, src: &State, dominate: i32) -> (r: Result<
        (),
        RenderError,
    >)
        requires
            old(self).wf(),
            src.wf(),
            dominate != 3,
            old(self).state_stack@.len() >= 1,
        ensures
            final(self).wf(),
            same_but_frames(*old(self), *final(self)),
            final(self).state_stack@.len() == old(self).state_stack@.len(),
            forall|i: int|
                0 <= i < old(self).state_stack@.len() - 1 ==> final(self).state_stack@[i] == old(
                    self,
                ).state_stack@[i],
            r is Ok <==> cascade_ok(old(self).state_stack@, *src, dominate as int),
            r is Ok ==> final(self).state_stack@.last() == cascade_result(
                old(self).state_stack@,
                *src,
                dominate as int,
            ),
            r is Err ==> final(self).state_stack@ == old(self).state_stack@,
    {
        let len = self.state_stack.len();
        if dominate == 2 {
            let top = frame_mut(&mut self.state_stack, len - 1);
            crate::state::force(top, src);
            Ok(())
        } else if len >= 2 {
            let parent_affine = self.state_stack[len - 2].affine;
            match Matrix::multiply(&src.affine, &parent_affine) {
                Option::None => Err(RenderError::Overflow),
                Option::Some(m) => {
                    let parent = self.state_stack[len - 2].clone();
                    let mut fresh = src.clone();
                    if dominate == 0 {
                        crate::state::reinherit(&mut fresh, &parent);
                    } else {
                        crate::state::dominate(&mut fresh, &parent);
                    }
                    fresh.affine = m;
                    let top = frame_mut(&mut self.state_stack, len - 1);
                    *top = fresh;
                    Ok(())
                },
            }
        } else {
            let top = frame_mut(&mut self.state_stack, len - 1);
            *top = src.clone();
            Ok(())
        }
    }
}

/// The font size a frame specifies, or the default of twelve user units
/// where the slot is unset.
pub open spec fn frame_font_size(st: State) -> Length {
    match st.font_size {
        Option::Some(f) => f.0,
        Option::None => Length {
            length: Ratio { num: 12, den: 1 },
            unit: LengthUnit::Default,
            dir: LengthDir::Both,
        },
    }
}

/// The average of the two device resolutions, the exact rational stand-in
/// for resolving a mixed-axis absolute length.
pub open spec fn dpi_both(dpi_x: Ratio, dpi_y: Ratio) -> (int, int) {
    rmul(radd(rat(dpi_x), rat(dpi_y)), (1int, 2int))
}

/// The absolute font size of the frame at depth `i`, resolved recursively:
/// a percentage or font-relative factor scales the parent frame's resolved
/// size, the `larger` and `smaller` keywords scale it by six fifths either
/// way, and an absolute unit resolves against the device resolution alone.
/// Below the root the size is twelve user units.
pub open spec fn spec_font_size(stack: Seq<State>, i: int, dpi_x: Ratio, dpi_y: Ratio) -> (
    int,
    int,
)
    decreases i,
{
    let fs = frame_font_size(stack[i]);
    let parent = if i <= 0 {
        (12int, 1int)
    } else {
        spec_font_size(stack, i - 1, dpi_x, dpi_y)
    };
    match fs.unit {
        LengthUnit::Percent => rmul(parent, rat(fs.length)),
        LengthUnit::FontEm => rmul(parent, rat(fs.length)),
        LengthUnit::FontEx => rmul(parent, rat(fs.length)),
        LengthUnit::RelativeLarger => rmul(parent, (6int, 5int)),
        LengthUnit::RelativeSmaller => rmul(parent, (5int, 6int)),
        LengthUnit::Default => rat(fs.length),
        LengthUnit::Inch => match fs.dir {
            LengthDir::Horizontal => rmul(rat(fs.length), rat(dpi_x)),
            LengthDir::Vertical => rmul(rat(fs.length), rat(dpi_y)),
            LengthDir::Both => rmul(rat(fs.length), dpi_both(dpi_x, dpi_y)),
        },
    }
}

/// Whether resolving the font size at depth `i` stays representable at
/// every step.
pub open spec fn spec_font_size_ok(stack: Seq<State>, i: int, dpi_x: Ratio, dpi_y: Ratio) -> bool
    decreases i,
{
    let fs = frame_font_size(stack[i]);
    let parent_ok = i <= 0 || spec_font_size_ok(stack, i - 1, dpi_x, dpi_y);
    let parent = if i <= 0 {
        (12int, 1int)
    } else {
        spec_font_size(stack, i - 1, dpi_x, dpi_y)
    };
    match fs.unit {
        LengthUnit::Percent => parent_ok && mul_ok(parent, rat(fs.length)),
        LengthUnit::FontEm => parent_ok && mul_ok(parent, rat(fs.length)),
        LengthUnit::FontEx => parent_ok && mul_ok(parent, rat(fs.length)),
        LengthUnit::RelativeLarger => parent_ok && mul_ok(parent, (6int, 5int)),
        LengthUnit::RelativeSmaller => parent_ok && mul_ok(parent, (5int, 6int)),
        LengthUnit::Default => true,
        LengthUnit::Inch => match fs.dir {
            LengthDir::Horizontal => mul_ok(rat(fs.length), rat(dpi_x)),
            LengthDir::Vertical => mul_ok(rat(fs.length), rat(dpi_y)),
            LengthDir::Both => add_ok(rat(dpi_x), rat(dpi_y)) && mul_ok(
                radd(rat(dpi_x), rat(dpi_y)),
                (1int, 2int),
            ) && mul_ok(rat(fs.length), dpi_both(dpi_x, dpi_y)),
        },
    }
}

/// Resolves the absolute font size of the frame at depth `i`. `None`
/// exactly when a step overflows.
fn normalize_font_size(stack: &Vec<State>, i: usize, dpi_x: Ratio, dpi_y: Ratio) -> (r: Option<
    Ratio,
>)
    requires
        i < stack@.len(),
        forall|j: int| 0 <= j < stack@.len() ==> (#[trigger] stack@[j]).wf(),
        dpi_x.wf(),
        dpi_y.wf(),
    ensures
        r is Some <==> spec_font_size_ok(stack@, i as int, dpi_x, dpi_y),
        r is Some ==> r->Some_0.wf() && rat(r->Some_0) == spec_font_size(
            stack@,
            i as int,
            dpi_x,
            dpi_y,
        ),
    decreases i, 1int,
{
    let fs: Length = match &stack[i].font_size {
        Option::Some(f) => f.0,
        Option::None => FontSize::default().0,
    };
    match fs.unit {
        LengthUnit::Percent => {
            let p = parent_font_size(stack, i, dpi_x, dpi_y)?;
            p.checked_mul(fs.length)
        },
        LengthUnit::FontEm => {
            let p = parent_font_size(stack, i, dpi_x, dpi_y)?;
            p.checked_mul(fs.length)
        },
        LengthUnit::FontEx => {
            let p = parent_font_size(stack, i, dpi_x, dpi_y)?;
            p.checked_mul(fs.length)
        },
        LengthUnit::RelativeLarger => {
            let p = parent_font_size(stack, i, dpi_x, dpi_y)?;
            p.checked_mul(Ratio::new(6, 5))
        },
        LengthUnit::RelativeSmaller => {
            let p = parent_font_size(stack, i, dpi_x, dpi_y)?;
            p.checked_mul(Ratio::new(5, 6))
        },
        LengthUnit::Default => Some(fs.length),
        LengthUnit::Inch => match fs.dir {
            LengthDir::Horizontal => fs.length.checked_mul(dpi_x),
            LengthDir::Vertical => fs.length.checked_mul(dpi_y),
            LengthDir::Both => {
                let sum = dpi_x.checked_add(dpi_y)?;
                let avg = sum.checked_mul(Ratio::new(1, 2))?;
                fs.length.checked_mul(avg)
            },
        },
    }
}

/// The resolved font size of the frame below `i`: twelve user units at the
/// root.
fn parent_font_size(stack: &Vec<State>, i: usize, dpi_x: Ratio, dpi_y: Ratio) -> (r: Option<
    Ratio,
>)
    requires
        i < stack@.len(),
        forall|j: int| 0 <= j < stack@.len() ==> (#[trigger] stack@[j]).wf(),
        dpi_x.wf(),
        dpi_y.wf(),
    ensures
        r is Some <==> (i == 0 || spec_font_size_ok(stack@, i - 1, dpi_x, dpi_y)),
        r is Some ==> r->Some_0.wf() && rat(r->Some_0) == if i == 0 {
            (12int, 1int)
        } else {
            spec_font_size(stack@, i - 1, dpi_x, dpi_y)
        },
    decreases i, 0int,
{
    if i == 0 {
        Some(Ratio::new(12, 1))
    } else {
        normalize_font_size(stack, i - 1, dpi_x, dpi_y)
    }
}

/// The accumulated baseline shift at depth `i`: every frame from depth one
/// upwards that explicitly sets a baseline shift contributes its ratio
/// times the resolved font size of the frame below it.
pub open spec fn spec_baseline_shift(stack: Seq<State>, i: int, dpi_x: Ratio, dpi_y: Ratio) -> (
    int,
    int,
)
    decreases i,
{
    if i <= 0 {
        (0int, 1int)
    } else {
        let rest = spec_baseline_shift(stack, i - 1, dpi_x, dpi_y);
        match stack[i].baseline_shift {
            Option::Some(b) => radd(
                rest,
                rmul(rat(b.0), spec_font_size(stack, i - 1, dpi_x, dpi_y)),
            ),
            Option::None => rest,
        }
    }
}

/// Whether accumulating the baseline shift at depth `i` stays
/// representable at every step.
pub open spec fn spec_baseline_shift_ok(
    stack: Seq<State>,
    i: int,
    dpi_x: Ratio,
    dpi_y: Ratio,
) -> bool
    decreases i,
{
    if i <= 0 {
        true
    } else {
        let rest_ok = spec_baseline_shift_ok(stack, i - 1, dpi_x, dpi_y);
        let rest = spec_baseline_shift(stack, i - 1, dpi_x, dpi_y);
        match stack[i].baseline_shift {
            Option::Some(b) => {
                &&& rest_ok
                &&& spec_font_size_ok(stack, i - 1, dpi_x, dpi_y)
                &&& mul_ok(rat(b.0), spec_font_size(stack, i - 1, dpi_x, dpi_y))
                &&& add_ok(rest, rmul(rat(b.0), spec_font_size(stack, i - 1, dpi_x, dpi_y)))
            },
            Option::None => rest_ok,
        }
    }
}

/// Accumulates the baseline shift over the frames up to depth `i`.
fn accumulated_shift(stack: &Vec<State>, i: usize, dpi_x: Ratio, dpi_y: Ratio) -> (r: Option<
    Ratio,
>)
    requires
        i < stack@.len(),
        forall|j: int| 0 <= j < stack@.len() ==> (#[trigger] stack@[j]).wf(),
        dpi_x.wf(),
        dpi_y.wf(),
    ensures
        r is Some <==> spec_baseline_shift_ok(stack@, i as int, dpi_x, dpi_y),
        r is Some ==> r->Some_0.wf() && rat(r->Some_0) == spec_baseline_shift(
            stack@,
            i as int,
            dpi_x,
            dpi_y,
        ),
    decreases i,
{
    if i == 0 {
        return Some(Ratio::new(0, 1));
    }
    let rest = accumulated_shift(stack, i - 1, dpi_x, dpi_y)?;
    match &stack[i].baseline_shift {
        Option::Some(b) => {
            let parent_size = normalize_font_size(stack, i - 1, dpi_x, dpi_y)?;
            let term = b.0.checked_mul(parent_size)?;
            rest.checked_add(term)
        },
        Option::None => Some(rest),
    }
}

impl DrawingCtx {
    /// The absolute font size of the element currently being visited,
    /// resolved recursively through the frame stack. `None` exactly when
    /// a resolution step overflows.
    pub fn get_normalized_font_size(&self) -> (r: Option<Ratio>)
        requires
            self.wf(),
            self.state_stack@.len() >= 1,
        ensures
            r is Some <==> spec_font_size_ok(
                self.state_stack@,
                self.state_stack@.len() - 1,
                self.dpi_x,
                self.dpi_y,
            ),
            r is Some ==> r->Some_0.wf() && rat(r->Some_0) == spec_font_size(
                self.state_stack@,
                self.state_stack@.len() - 1,
                self.dpi_x,
                self.dpi_y,
            ),
    {
        normalize_font_size(&self.state_stack, self.state_stack.len() - 1, self.dpi_x, self.dpi_y)
    }

    /// The sum of the baseline shifts every open frame contributes: each
    /// frame that explicitly sets a baseline shift adds its ratio times
    /// the resolved font size of the frame below it. `None` exactly when
    /// a step overflows.
    pub fn get_accumulated_baseline_shift(&self) -> (r: Option<Ratio>)
        requires
            self.wf(),
            self.state_stack@.len() >= 1,
        ensures
            r is Some <==> spec_baseline_shift_ok(
                self.state_stack@,
                self.state_stack@.len() - 1,
                self.dpi_x,
                self.dpi_y,
            ),
            r is Some ==> r->Some_0.wf() && rat(r->Some_0) == spec_baseline_shift(
                self.state_stack@,
                self.state_stack@.len() - 1,
                self.dpi_x,
                self.dpi_y,
            ),
    {
        accumulated_shift(&self.state_stack, self.state_stack.len() - 1, self.dpi_x, self.dpi_y)
    }
}

/// Whether dispatching a node from the stack succeeds: an in-error node is
/// skipped and always succeeds; otherwise its content is drawn on a fresh
/// frame pushed above the given stack.
pub open spec fn spec_draw_ok(tree: Tree, node: int, stack: Seq<State>, dominate: int) -> bool
    decreases tree.nodes.len() - node, 2int, 0int,
{
    tree.nodes[node].result is Ok ==> spec_draw_content_ok(
        tree,
        node,
        stack.push(crate::state::initial_frame()),
        dominate,
    )
}

/// Whether drawing a node's content succeeds: unless no new cascade was
/// asked for, the node's state must cascade onto the top frame without
/// overflowing, and every child must then draw on the cascaded stack.
pub open spec fn spec_draw_content_ok(
    tree: Tree,
    node: int,
    stack: Seq<State>,
    dominate: int,
) -> bool
    decreases tree.nodes.len() - node, 1int, 0int,
{
    if dominate == -1 {
        spec_children_ok(tree, node, stack, 0)
    } else {
        cascade_ok(stack, tree.nodes[node].state, dominate) && spec_children_ok(
            tree,
            node,
            stack.update(
                stack.len() - 1,
                cascade_result(stack, tree.nodes[node].state, dominate),
            ),
            0,
        )
    }
}

/// Whether every child from position `j` onwards draws successfully on the
/// given stack; each child's own drawing restores the stack, so they all
/// see the same one. A child entry pointing outside the tree cannot occur
/// in a well-formed tree and is ignored here only so that the recursion
/// visibly descends.
pub open spec fn spec_children_ok(tree: Tree, node: int, stack: Seq<State>, j: int) -> bool
    decreases tree.nodes.len() - node, 0int, tree.nodes[node].children.len() - j,
{
    j >= tree.nodes[node].children.len() || {
        let c = tree.nodes[node].children[j];
        &&& (node < c < tree.nodes.len() ==> spec_draw_ok(tree, c as int, stack, 0))
        &&& spec_children_ok(tree, node, stack, j + 1)
    }
}

/// The re-entrant dispatch point for drawing one node: opens a fresh
/// cascade frame, draws the node unless it is in error, and releases the
/// frame. The whole frame stack, the view boxes, the acquired set, the
/// layer nesting and the accumulator are exactly as before when it
/// returns; an `Err` reports a transform composition that left the
/// representable range somewhere in the subtree.
pub fn draw_node_from_stack(
    tree: &Tree,
    node: usize,
    ctx: &mut DrawingCtx,
    dominate: i32,
    clipping: bool,
) -> (r: Result<(), RenderError>)
    requires
        tree.wf(),
        node < tree.nodes@.len(),
        old(ctx).wf(),
        dominate != 3,
        old(ctx).layer_depth + (tree.nodes@.len() - node) <= usize::MAX,
    ensures
        final(ctx).wf(),
        same_but_frames(*old(ctx), *final(ctx)),
        final(ctx).state_stack@ == old(ctx).state_stack@,
        r is Ok <==> spec_draw_ok(*tree, node as int, old(ctx).state_stack@, dominate as int),
    decreases tree.nodes@.len() - node, 2int,
{
    ctx.state_push();
    proof {
        assert(ctx.state_stack@ =~= old(ctx).state_stack@.push(crate::state::initial_frame()));
    }
    let res = match &tree.nodes[node].result {
        Ok(_) => tree.draw(node, ctx, dominate, clipping),
        Err(_) => Ok(()),
    };
    let ghost pushed = ctx.state_stack@;
    ctx.state_pop();
    proof {
        assert(pushed.drop_last() =~= old(ctx).state_stack@);
    }
    res
}

impl Tree {
    /// Draws one node: a no-op when the node is in error — its children
    /// are then not traversed — and otherwise the node's content. The
    /// marks themselves belong to the drawing and text backends; within
    /// this core, drawing an element cascades its state onto the current
    /// frame and draws its children.
    pub fn draw(&self, node: usize, ctx: &mut DrawingCtx, dominate: i32, clipping: bool) -> (r:
        Result<(), RenderError>)
        requires
            self.wf(),
            node < self.nodes@.len(),
            old(ctx).wf(),
            dominate != 3,
            dominate != -1 ==> old(ctx).state_stack@.len() >= 1,
            old(ctx).layer_depth + (self.nodes@.len() - node) <= usize::MAX,
        ensures
            final(ctx).wf(),
            same_but_frames(*old(ctx), *final(ctx)),
            final(ctx).state_stack@.len() == old(ctx).state_stack@.len(),
            forall|i: int|
                0 <= i < old(ctx).state_stack@.len() - 1 ==> final(ctx).state_stack@[i] == old(ctx).state_stack@[i],
            self.nodes@[node as int].result is Err ==> r is Ok && final(ctx).state_stack@ == old(ctx).state_stack@,
            dominate == -1 ==> final(ctx).state_stack@ == old(ctx).state_stack@,
            self.nodes@[node as int].result is Ok && dominate != -1 && r is Ok ==> final(ctx).state_stack@.last() == cascade_result(
                old(ctx).state_stack@,
                self.nodes@[node as int].state,
                dominate as int,
            ),
            r is Ok <==> (self.nodes@[node as int].result is Err || spec_draw_content_ok(
                *self,
                node as int,
                old(ctx).state_stack@,
                dominate as int,
            )),
        decreases self.nodes@.len() - node, 1int,
    {
        match &self.nodes[node].result {
            Ok(_) => self.draw_children(node, ctx, dominate, clipping),
            Err(_) => Ok(()),
        }
    }

    /// Draws a node's children in document order. Unless the caller asked
    /// for no new cascade (`dominate` of -1, the top-level re-entrant
    /// case), the node's specified state is first cascaded onto the
    /// current frame and the children are drawn inside their own isolated
    /// compositing group.
    pub fn draw_children(&self, node: usize, ctx: &mut DrawingCtx, dominate: i32, clipping: bool)
        -> (r: Result<(), RenderError>)
        requires
            self.wf(),
            node < self.nodes@.len(),
            old(ctx).wf(),
            dominate != 3,
            dominate != -1 ==> old(ctx).state_stack@.len() >= 1,
            old(ctx).layer_depth + (self.nodes@.len() - node) <= usize::MAX,
        ensures
            final(ctx).wf(),
            same_but_frames(*old(ctx), *final(ctx)),
            final(ctx).state_stack@.len() == old(ctx).state_stack@.len(),
            forall|i: int|
                0 <= i < old(ctx).state_stack@.len() - 1 ==> final(ctx).state_stack@[i] == old(ctx).state_stack@[i],
            dominate == -1 ==> final(ctx).state_stack@ == old(ctx).state_stack@,
            dominate != -1 && r is Ok ==> final(ctx).state_stack@.last() == cascade_result(
                old(ctx).state_stack@,
                self.nodes@[node as int].state,
                dominate as int,
            ),
            r is Ok <==> spec_draw_content_ok(
                *self,
                node as int,
                old(ctx).state_stack@,
                dominate as int,
            ),
        decreases self.nodes@.len() - node, 0int,
    {
        if dominate != -1 {
            match ctx.state_reinherit_top(self.get_state(node), dominate) {
                Ok(_) => {},
                Err(e) => {
                    return Err(e);
                },
            }
            proof {
                assert(ctx.state_stack@ =~= old(ctx).state_stack@.update(
                    old(ctx).state_stack@.len() - 1,
                    cascade_result(
                        old(ctx).state_stack@,
                        self.nodes@[node as int].state,
                        dominate as int,
                    ),
                ));
            }
            ctx.push_discrete_layer(clipping);
        }
        let ghost mid = *ctx;
        let n = self.nodes[node].children.len();
        let mut i: usize = 0;
        let mut res: Result<(), RenderError> = Ok(());
        loop
            invariant_except_break
                i <= n,
                n == self.nodes@[node as int].children@.len(),
                self.wf(),
                node < self.nodes@.len(),
                ctx.wf(),
                res is Ok,
                ctx.state_stack@ == mid.state_stack@,
                same_but_frames(mid, *ctx),
                mid.layer_depth + (self.nodes@.len() - node) - 1 <= usize::MAX,
                spec_children_ok(*self, node as int, mid.state_stack@, 0) <==> spec_children_ok(
                    *self,
                    node as int,
                    mid.state_stack@,
                    i as int,
                ),
            ensures
                ctx.wf(),
                ctx.state_stack@ == mid.state_stack@,
                same_but_frames(mid, *ctx),
                res is Ok <==> spec_children_ok(*self, node as int, mid.state_stack@, 0),
            decreases n - i,
        {
            if i == n {
                proof {
                    assert(spec_children_ok(*self, node as int, mid.state_stack@, n as int));
                }
                break;
            }
            let child = self.nodes[node].children[i];
            proof {
                assert(node < child < self.nodes@.len());
            }
            match draw_node_from_stack(self, child, ctx, 0, clipping) {
                Ok(_) => {
                    proof {
                        assert(spec_children_ok(*self, node as int, mid.state_stack@, i as int)
                            == (spec_draw_ok(*self, child as int, mid.state_stack@, 0)
                            && spec_children_ok(
                            *self,
                            node as int,
                            mid.state_stack@,
                            i + 1,
                        )));
                    }
                },
                Err(e) => {
                    proof {
                        assert(!spec_draw_ok(*self, child as int, mid.state_stack@, 0));
                        assert(!spec_children_ok(*self, node as int, mid.state_stack@, i as int));
                    }
                    res = Err(e);
                    break;
                },
            }
            i = i + 1;
        }
        if dominate != -1 {
            ctx.pop_discrete_layer(clipping);
        }
        res
    }
}

/// Law: opening a cascade frame and then releasing it restores the frame
/// stack exactly, whatever the traversal depth and whatever the fresh
/// frame held.
pub proof fn lemma_push_pop_restores(stack: Seq<State>, fresh: State)
    ensures
        stack.push(fresh).drop_last() == stack,
{
    assert(stack.push(fresh).drop_last() =~= stack);
}

/// Two to the power `n`.
pub open spec fn pow2(n: nat) -> int
    decreases n,
{
    if n == 0 {
        1
    } else {
        2 * pow2((n - 1) as nat)
    }
}

/// Law: with the root frame at an absolute font size and every deeper
/// frame down to depth `k` specifying half of its parent's, the resolved
/// size at depth `k` is the root's divided by two to the `k`.
pub proof fn lemma_font_size_halving(stack: Seq<State>, k: int, dpi_x: Ratio, dpi_y: Ratio)
    requires
        0 <= k < stack.len(),
        frame_font_size(stack[0]).unit == LengthUnit::Default,
        forall|i: int|
            1 <= i <= k ==> (#[trigger] frame_font_size(stack[i])).unit == LengthUnit::Percent
                && rat(frame_font_size(stack[i]).length) == (1int, 2int),
    ensures
        spec_font_size(stack, k, dpi_x, dpi_y) == (
            rat(frame_font_size(stack[0]).length).0,
            rat(frame_font_size(stack[0]).length).1 * pow2(k as nat),
        ),
    decreases k,
{
    if k == 0 {
    } else {
        lemma_font_size_halving(stack, k - 1, dpi_x, dpi_y);
        let n0 = rat(frame_font_size(stack[0]).length).0;
        let d0 = rat(frame_font_size(stack[0]).length).1;
        let p = pow2((k - 1) as nat);
        assert(frame_font_size(stack[k]).unit == LengthUnit::Percent);
        assert(spec_font_size(stack, k, dpi_x, dpi_y) == rmul(
            (n0, d0 * p),
            rat(frame_font_size(stack[k]).length),
        ));
        assert(rmul((n0, d0 * p), (1int, 2int)) == (n0 * 1, (d0 * p) * 2));
        assert(n0 * 1 == n0);
        assert((d0 * p) * 2 == d0 * (2 * p)) by (nonlinear_arith);
    }
}

} // verus!

