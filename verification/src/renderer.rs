use vstd::prelude::*;
use bidimap::BiHashMap;
use std::collections::HashMap;
use crate::arena::{Arena, Kind, LayoutOp, NodeKey, NodeView, RealNode};
use crate::arena::{attach_ops, attached, count_laid_out, detach_op, detached, insert_position, live, node, rekinded, removed_subtree, root_path, under, slot_view};
use crate::geometry::{LayoutRect, Point};
use crate::paint::grid_runs;
use crate::props::{Border, Overflow, XYProps};
use crate::props::effective_overflow;
use crate::render::{Frame, Screen, StepView};
use crate::render::{depth_fuel, frame_plan, hit_node, reachable, recorded_cache, recorded_changes, steps_cell};
use crate::style::{Color, Style};
use crate::text::TextWrap;

verus! {

broadcast use vstd::std_specs::hash::group_hash_axioms;

#[verifier::external_type_specification]
#[verifier::external_body]
#[verifier::reject_recursive_types(L)]
#[verifier::reject_recursive_types(R)]
#[verifier::reject_recursive_types(LS)]
#[verifier::reject_recursive_types(RS)]
pub struct ExBiHashMap<L, R, LS, RS>(BiHashMap<L, R, LS, RS>);

/// The bimap from element ids (left) to node keys (right).
pub type IdMap = BiHashMap<usize, usize>;

/// The pairs a bimap from element ids to node keys holds, as a map from the left values to
/// the right ones.
pub uninterp spec fn bimap_pairs(m: IdMap) -> Map<usize, usize>;

/// The pairs after inserting `(left, right)`: any pair with the same left value or the same
/// right value is dropped first.
pub open spec fn bimap_inserted(m: Map<usize, usize>, left: usize, right: usize) -> Map<usize, usize> {
    Map::new(|k: usize| k == left || (m.contains_key(k) && m[k] != right), |k: usize| if k == left { right } else { m[k] })
}

/// `BiHashMap::new`: an empty bimap.
#[verifier::external_body]
fn bimap_new() -> (fresh: IdMap)
    ensures
        bimap_pairs(fresh).dom() == Set::<usize>::empty(),
{
    BiHashMap::new()
}

/// `BiHashMap::insert`: stores `(left, right)`, first dropping the pair holding `left` and
/// the pair holding `right`, if any (what it reports about them is not used).
#[verifier::external_body]
fn bimap_insert(m: &mut IdMap, left: usize, right: usize)
    ensures
        bimap_pairs(*final(m)) == bimap_inserted(bimap_pairs(*old(m)), left, right),
{
    m.insert(left, right);
}

/// `BiHashMap::get_by_left`: the right value paired with `left`.
#[verifier::external_body]
fn bimap_get_by_left(m: &IdMap, left: usize) -> (r: Option<usize>)
    ensures
        r == if bimap_pairs(*m).contains_key(left) { Some(bimap_pairs(*m)[left]) } else { None },
{
    m.get_by_left(&left).copied()
}

/// `BiHashMap::get_by_right`: the left value paired with `right`.
#[verifier::external_body]
fn bimap_get_by_right(m: &IdMap, right: usize) -> (r: Option<usize>)
    ensures
        match r {
            Some(l) => bimap_pairs(*m).contains_key(l) && bimap_pairs(*m)[l] == right,
            None => forall|l: usize| #[trigger] bimap_pairs(*m).contains_key(l) ==> bimap_pairs(*m)[l] != right,
        },
{
    m.get_by_right(&right).copied()
}

/// `BiHashMap::remove_by_left`: drops and returns the pair holding `left`.
#[verifier::external_body]
fn bimap_remove_by_left(m: &mut IdMap, left: usize) -> (r: Option<(usize, usize)>)
    ensures
        bimap_pairs(*final(m)) == bimap_pairs(*old(m)).remove(left),
        r == if bimap_pairs(*old(m)).contains_key(left) { Some((left, bimap_pairs(*old(m))[left])) } else { None },
{
    m.remove_by_left(&left)
}

/// Opaque handle to a node, handed out when its element mounts; pass it back to ask for the
/// node's last painted rect.
#[derive(PartialEq, Eq, Structural, Clone, Copy, Debug, Hash)]
pub struct NodeId(pub NodeKey);

/// A change the layout tree has to mirror, in the order the renderer made it: a node was
/// created, a layout edge changed, or a node was dropped.
#[derive(PartialEq, Eq, Structural, Clone, Copy, Debug)]
pub enum LayoutEffect {
    Create(NodeKey),
    Apply(LayoutOp),
    Free(NodeKey),
}

/// A typed attribute value set on an element.
#[derive(Clone, Copy, Debug)]
pub enum Attr {
    Border(Border),
    BgColor(Color),
    Overflow(XYProps<Overflow>),
    TextStyle(Style),
    Wrap(TextWrap),
    /// An attribute only the layout engine reads (margin, padding, sizes, flex, ...).
    Layout,
}

/// The nodes after applying attribute `attr` to the node at `key`: a block takes a border,
/// a background color or an overflow; a text node takes a style or a wrap mode; anything
/// else leaves it as it is.
pub open spec fn with_attr(ns: Seq<Option<NodeView>>, key: NodeKey, attr: Attr) -> Seq<Option<NodeView>> {
    match (node(ns, key as int).kind, attr) {
        (Kind::Block { border, bg_color, overflow }, Attr::Border(b)) => rekinded(ns, key, Kind::Block { border: b, bg_color, overflow }),
        (Kind::Block { border, bg_color, overflow }, Attr::BgColor(c)) => rekinded(ns, key, Kind::Block { border, bg_color: c, overflow }),
        (Kind::Block { border, bg_color, overflow }, Attr::Overflow(o)) => rekinded(
            ns,
            key,
            Kind::Block { border, bg_color, overflow: effective_overflow(o) },
        ),
        (Kind::Text { style, wrap }, Attr::TextStyle(s)) => rekinded(ns, key, Kind::Text { style: s, wrap }),
        (Kind::Text { style, wrap }, Attr::Wrap(w)) => rekinded(ns, key, Kind::Text { style, wrap: w }),
        _ => ns,
    }
}

/// The elements with a mount listener that still have a node, each with its node, in order.
pub open spec fn mounted_pairs(pending: Seq<usize>, ids: Map<usize, usize>) -> Seq<(usize, NodeId)>
    decreases pending.len(),
{
    if pending.len() == 0 {
        Seq::empty()
    } else {
        let rest = mounted_pairs(pending.drop_last(), ids);
        let id = pending.last();
        if ids.contains_key(id) {
            rest.push((id, NodeId(ids[id])))
        } else {
            rest
        }
    }
}

/// The node reached from `from` by following child indices `path`, when every step exists.
pub open spec fn walk(ns: Seq<Option<NodeView>>, from: NodeKey, path: Seq<u8>) -> Option<NodeKey>
    decreases path.len(),
{
    if path.len() == 0 {
        Some(from)
    } else {
        match walk(ns, from, path.drop_last()) {
            Some(k) => if live(ns, k as int) && (path.last() as int) < node(ns, k as int).children.len() {
                Some(node(ns, k as int).children[path.last() as int])
            } else {
                None
            },
            None => None,
        }
    }
}

/// Turns the stream of tree mutations a virtual DOM emits into a tree of nodes, keeping the
/// element-id to node-key map, the stack of nodes being assembled, the last painted frame
/// and each node's last painted rect. Every change the layout tree has to mirror is queued
/// in `effects`.
pub struct TerminalRenderer {
    pub arena: Arena,
    pub ids: IdMap,
    pub stack: Vec<NodeKey>,
    pub root: NodeKey,
    pub dirty: bool,
    pub layouts: HashMap<NodeKey, LayoutRect>,
    pub pending_mounted: Vec<usize>,
    pub screen: Screen,
    pub effects: Vec<LayoutEffect>,
}

impl TerminalRenderer {
    /// The element ids with a node, each with its node key.
    pub open spec fn ids(&self) -> Map<usize, usize> {
        bimap_pairs(self.ids)
    }

    pub open spec fn wf(&self) -> bool {
        self.arena.wf() && self.screen.inv()
    }

    /// A renderer holding only the root: a fresh block with element id 0.
    pub fn new() -> (r: TerminalRenderer)
        ensures
            r.wf(),
            r.root == 0,
            r.arena.nodes() == seq![Some(RealNode::block_view())],
            r.ids().dom() == set![0usize],
            r.ids()[0] == 0,
            r.stack@ == Seq::<NodeKey>::empty(),
            r.dirty,
            r.layouts@.dom() == Set::<NodeKey>::empty(),
            r.pending_mounted@ == Seq::<usize>::empty(),
            r.screen.buffer is None,
            r.effects@ == seq![LayoutEffect::Create(0)],
    {
        let mut arena = Arena::new();
        let root = arena.insert(RealNode::block());
        let mut ids = bimap_new();
        bimap_insert(&mut ids, 0, root);
        let mut effects: Vec<LayoutEffect> = Vec::new();
        effects.push(LayoutEffect::Create(root));
        let r = TerminalRenderer {
            arena,
            ids,
            stack: Vec::new(),
            root,
            dirty: true,
            layouts: HashMap::new(),
            pending_mounted: Vec::new(),
            screen: Screen::new(),
            effects,
        };
        assert(r.ids().dom() =~= set![0usize]);
        assert(r.arena.nodes() =~= seq![Some(RealNode::block_view())]);
        r
    }

    /// Whether anything changed since the last call; clears the flag.
    pub fn take_dirty(&mut self) -> (d: bool)
        ensures
            d == old(self).dirty,
            *final(self) == (TerminalRenderer { dirty: false, ..*old(self) }),
    {
        let d = self.dirty;
        self.dirty = false;
        d
    }

    /// Whether [`TerminalRenderer::paint`] can go ahead with layout rects `rel`: one rect per
    /// slot, a live root with no parent, and a frame plan that stays inside `i32` (see
    /// [`crate::render::frame_plan`]).
    pub fn paint_ready(&self, rel: &Vec<LayoutRect>) -> (b: bool)
        requires
            self.wf(),
        ensures
            b == (rel@.len() == self.arena.nodes().len() && live(self.arena.nodes(), self.root as int) && node(
                self.arena.nodes(),
                self.root as int,
            ).parent is None && frame_plan(self.arena.nodes(), rel@, self.root) is Some),
    {
        let ghost ns = self.arena.nodes();
        if rel.len() != self.arena.slots.len() || self.root >= self.arena.slots.len() {
            return false;
        }
        let parentless = match &self.arena.slots[self.root] {
            Some(n) => n.parent().is_none(),
            None => false,
        };
        if !parentless {
            return false;
        }
        proof {
            assert(root_path(ns, seq![self.root]));
        }
        crate::render::paintable(&self.arena, self.root, rel)
    }

    /// Paints the current tree (each node at its layout `rel[k]`, relative to its parent) and
    /// works out what the terminal needs; see [`crate::render::paint`].
    pub fn paint(&mut self, rel: &Vec<LayoutRect>, width: u32, height: u32) -> (frame: Frame)
        requires
            old(self).wf(),
            rel@.len() == old(self).arena.nodes().len(),
            live(old(self).arena.nodes(), old(self).root as int),
            reachable(old(self).arena.nodes(), old(self).root),
            frame_plan(old(self).arena.nodes(), rel@, old(self).root) is Some,
        ensures
            final(self).wf(),
            final(self).arena == old(self).arena,
            final(self).ids() == old(self).ids(),
            final(self).stack == old(self).stack,
            final(self).root == old(self).root,
            final(self).dirty == old(self).dirty,
            final(self).pending_mounted == old(self).pending_mounted,
            final(self).effects == old(self).effects,
            final(self).screen.buffer is Some,
            final(self).screen.buffer.unwrap().width == width,
            final(self).screen.buffer.unwrap().height == height,
            forall|x: int, y: int| #![trigger final(self).screen.buffer.unwrap().at(x, y)]
                final(self).screen.buffer.unwrap().in_bounds(x, y) ==> final(self).screen.buffer.unwrap().at(x, y)
                    == steps_cell(crate::style::blank_cell(), frame_plan(old(self).arena.nodes(), rel@, old(self).root).unwrap(), x, y),
            frame.clear == !crate::render::reusable(old(self).screen, width, height),
            frame.runs@.map_values(|r: crate::paint::Run| r.view()) == grid_runs(
                if frame.clear { crate::render::blank_grid(width as nat, height as nat) } else { old(self).screen.buffer.unwrap().grid() },
                final(self).screen.buffer.unwrap().grid(),
                height as int,
            ),
            final(self).layouts@ == recorded_cache(old(self).layouts@, frame_plan(old(self).arena.nodes(), rel@, old(self).root).unwrap()),
            frame.changed@ == recorded_changes(old(self).layouts@, frame_plan(old(self).arena.nodes(), rel@, old(self).root).unwrap()),
    {
        crate::render::paint(&mut self.screen, &self.arena, self.root, rel, width, height, &mut self.layouts)
    }

    /// Drains the elements that registered a mount listener, pairing each that still has a
    /// node with it.
    pub fn take_pending_mounted(&mut self) -> (r: Vec<(usize, NodeId)>)
        ensures
            r@ == mounted_pairs(old(self).pending_mounted@, old(self).ids()),
            *final(self) == (TerminalRenderer { pending_mounted: final(self).pending_mounted, ..*old(self) }),
            final(self).pending_mounted@ == Seq::<usize>::empty(),
    {
        let mut pending: Vec<usize> = Vec::new();
        std::mem::swap(&mut pending, &mut self.pending_mounted);
        let mut r: Vec<(usize, NodeId)> = Vec::new();
        let mut i: usize = 0;
        while i < pending.len()
            invariant
                i <= pending.len(),
                pending@ == old(self).pending_mounted@,
                bimap_pairs(self.ids) == old(self).ids(),
                r@ == mounted_pairs(pending@.take(i as int), old(self).ids()),
            decreases pending.len() - i,
        {
            let id = pending[i];
            assert(pending@.take(i + 1).drop_last() =~= pending@.take(i as int));
            if let Some(key) = bimap_get_by_left(&self.ids, id) {
                r.push((id, NodeId(key)));
            }
            i += 1;
        }
        assert(pending@.take(pending.len() as int) =~= pending@);
        r
    }

    /// The node's position and size as of the most recently painted frame; `None` until a
    /// frame has been painted since it mounted.
    pub fn layout_of(&self, id: NodeId) -> (r: Option<LayoutRect>)
        ensures
            r == if self.layouts@.contains_key(id.0) { Some(self.layouts@[id.0]) } else { None },
    {
        match self.layouts.get(&id.0) {
            Some(r) => Some(*r),
            None => None,
        }
    }

    /// Whether the layout rects `rel` can be placed from the root down: one rect per slot, a
    /// live root with no parent, and the hit test for `(column, row)` staying inside `i32`.
    pub open spec fn hit_testable(&self, rel: Seq<LayoutRect>, column: u16, row: u16) -> bool {
        &&& rel.len() == self.arena.nodes().len()
        &&& live(self.arena.nodes(), self.root as int)
        &&& node(self.arena.nodes(), self.root as int).parent is None
        &&& hit_node(
            self.arena.nodes(),
            rel,
            self.root,
            rel[self.root as int].first,
            Point { x: column as i32, y: row as i32 },
            None,
            depth_fuel(self.arena.nodes(), self.root),
        ) is Some
    }

    /// [`TerminalRenderer::hit_test`] with its conditions tested first: `None` when the rects
    /// cannot be placed (see [`TerminalRenderer::hit_testable`]), else what `hit_test` answers.
    pub fn checked_hit_test(&self, rel: &Vec<LayoutRect>, column: u16, row: u16) -> (r: Option<Option<usize>>)
        requires
            self.wf(),
        ensures
            r is Some <==> self.hit_testable(rel@, column, row),
            r matches Some(found) ==> match hit_node(
                self.arena.nodes(),
                rel@,
                self.root,
                rel@[self.root as int].first,
                Point { x: column as i32, y: row as i32 },
                None,
                depth_fuel(self.arena.nodes(), self.root),
            ).unwrap() {
                None => found is None,
                Some(key) => match found {
                    Some(id) => self.ids().contains_key(id) && self.ids()[id] == key,
                    None => forall|id: usize| #[trigger] self.ids().contains_key(id) ==> self.ids()[id] != key,
                },
            },
    {
        let ghost ns = self.arena.nodes();
        if rel.len() != self.arena.slots.len() || self.root >= self.arena.slots.len() {
            return None;
        }
        let parentless = match &self.arena.slots[self.root] {
            Some(n) => n.parent().is_none(),
            None => false,
        };
        if !parentless {
            return None;
        }
        proof {
            assert(root_path(ns, seq![self.root]));
        }
        match crate::render::checked_hit_test(&self.arena, self.root, rel, Point::new(column as i32, row as i32)) {
            None => None,
            Some(None) => Some(None),
            Some(Some(k)) => Some(bimap_get_by_right(&self.ids, k)),
        }
    }

    /// The element id of the topmost block under cell `(column, row)`, if it has one.
    pub fn hit_test(&self, rel: &Vec<LayoutRect>, column: u16, row: u16) -> (r: Option<usize>)
        requires
            self.wf(),
            rel@.len() == self.arena.nodes().len(),
            live(self.arena.nodes(), self.root as int),
            reachable(self.arena.nodes(), self.root),
            hit_node(
                self.arena.nodes(),
                rel@,
                self.root,
                rel@[self.root as int].first,
                Point { x: column as i32, y: row as i32 },
                None,
                depth_fuel(self.arena.nodes(), self.root),
            ) is Some,
        ensures
            match hit_node(
                self.arena.nodes(),
                rel@,
                self.root,
                rel@[self.root as int].first,
                Point { x: column as i32, y: row as i32 },
                None,
                depth_fuel(self.arena.nodes(), self.root),
            ).unwrap() {
                None => r is None,
                Some(key) => match r {
                    Some(id) => self.ids().contains_key(id) && self.ids()[id] == key,
                    None => forall|id: usize| #[trigger] self.ids().contains_key(id) ==> self.ids()[id] != key,
                },
            },
    {
        let key = crate::render::hit_test(&self.arena, self.root, rel, Point::new(column as i32, row as i32));
        match key {
            Some(k) => bimap_get_by_right(&self.ids, k),
            None => None,
        }
    }
}

} // verus!

verus! {

/// The nodes after attaching each of `nodes` in turn to `parent`, the `i`-th at position
/// `index + i`.
pub open spec fn attach_all(ns: Seq<Option<NodeView>>, parent: NodeKey, nodes: Seq<NodeKey>, index: int) -> Seq<Option<NodeView>>
    decreases nodes.len(),
{
    if nodes.len() == 0 {
        ns
    } else {
        attached(attach_all(ns, parent, nodes.drop_last(), index), parent, nodes.last(), index + nodes.len() - 1)
    }
}

/// The layout changes those attachments need, in order.
pub open spec fn attach_all_ops(ns: Seq<Option<NodeView>>, parent: NodeKey, nodes: Seq<NodeKey>, index: int) -> Seq<LayoutOp>
    decreases nodes.len(),
{
    if nodes.len() == 0 {
        Seq::empty()
    } else {
        attach_all_ops(ns, parent, nodes.drop_last(), index) + attach_ops(
            attach_all(ns, parent, nodes.drop_last(), index),
            parent,
            nodes.last(),
            index + nodes.len() - 1,
        )
    }
}

/// Whether those attachments can be made: the parent is live and can hold children, and each
/// node is live and not the parent.
pub open spec fn can_attach(ns: Seq<Option<NodeView>>, parent: NodeKey, nodes: Seq<NodeKey>) -> bool {
    &&& live(ns, parent as int)
    &&& !(node(ns, parent as int).kind is RawText)
    &&& forall|i: int| 0 <= i < nodes.len() ==> live(ns, #[trigger] nodes[i] as int) && nodes[i] != parent
}

/// The effects recording layout operations `ops`, in order.
pub open spec fn applied(ops: Seq<LayoutOp>) -> Seq<LayoutEffect> {
    ops.map_values(|op: LayoutOp| LayoutEffect::Apply(op))
}

/// The effects of removing a subtree: the detaching change, if any, then every dropped node.
pub open spec fn removal_effects(op: Option<LayoutOp>, dropped: Seq<NodeKey>) -> Seq<LayoutEffect> {
    let head = match op {
        Some(o) => seq![LayoutEffect::Apply(o)],
        None => Seq::empty(),
    };
    head + dropped.map_values(|k: NodeKey| LayoutEffect::Free(k))
}

proof fn lemma_attached_keeps(ns: Seq<Option<NodeView>>, parent: NodeKey, child: NodeKey, index: int)
    requires
        crate::arena::tree_wf(ns),
        live(ns, parent as int),
        live(ns, child as int),
    ensures
        attached(ns, parent, child, index).len() == ns.len(),
        forall|k: int| #[trigger] live(attached(ns, parent, child, index), k) == live(ns, k),
        forall|k: int| live(ns, k) ==> #[trigger] node(attached(ns, parent, child, index), k).kind == node(ns, k).kind,
{
    let d = detached(ns, child);
    assert(live(ns, child as int));
    match node(ns, child as int).parent {
        Some(p) => {
            assert(live(ns, p as int));
        },
        None => {},
    }
    assert forall|k: int| #[trigger] live(d, k) == live(ns, k) by {}
    assert forall|k: int| live(ns, k) implies #[trigger] node(d, k).kind == node(ns, k).kind by {}
}

proof fn lemma_attach_all_keeps(ns: Seq<Option<NodeView>>, parent: NodeKey, nodes: Seq<NodeKey>, index: int)
    requires
        crate::arena::tree_wf(ns),
        can_attach(ns, parent, nodes),
        0 <= index,
    ensures
        attach_all(ns, parent, nodes, index).len() == ns.len(),
        crate::arena::tree_wf(attach_all(ns, parent, nodes, index)),
        forall|k: int| #[trigger] live(attach_all(ns, parent, nodes, index), k) == live(ns, k),
        forall|k: int| live(ns, k) ==> #[trigger] node(attach_all(ns, parent, nodes, index), k).kind == node(ns, k).kind,
    decreases nodes.len(),
{
    if nodes.len() > 0 {
        let prev = nodes.drop_last();
        assert forall|i: int| 0 <= i < prev.len() implies live(ns, #[trigger] prev[i] as int) && prev[i] != parent by {
            assert(prev[i] == nodes[i]);
        }
        lemma_attach_all_keeps(ns, parent, prev, index);
        let a = attach_all(ns, parent, prev, index);
        assert(live(ns, nodes[nodes.len() - 1] as int));
        lemma_attached_keeps(a, parent, nodes.last(), index + nodes.len() - 1);
        crate::arena::lemma_attached_wf_pub(a, parent, nodes.last(), index + nodes.len() - 1);
    }
}

fn push_ops(effects: &mut Vec<LayoutEffect>, ops: &Vec<LayoutOp>)
    ensures
        final(effects)@ == old(effects)@ + applied(ops@),
{
    let mut j: usize = 0;
    while j < ops.len()
        invariant
            j <= ops.len(),
            effects@ == old(effects)@ + applied(ops@.take(j as int)),
        decreases ops.len() - j,
    {
        effects.push(LayoutEffect::Apply(ops[j]));
        assert(applied(ops@.take(j + 1)) =~= applied(ops@.take(j as int)).push(LayoutEffect::Apply(ops@[j as int])));
        j += 1;
    }
    assert(ops@.take(ops.len() as int) =~= ops@);
}

/// The nodes ... a fresh node `v` is stored at `k`: the most recently freed slot, or a new
/// one at the end.
pub open spec fn inserted_at(a0: Arena, a1: Arena, k: NodeKey, v: NodeView) -> bool {
    &&& !live(a0.nodes(), k as int)
    &&& a0.free@.len() > 0 ==> k == a0.free@.last() && a1.free@ == a0.free@.drop_last() && a1.nodes()
        == a0.nodes().update(k as int, Some(v))
    &&& a0.free@.len() == 0 ==> k == a0.nodes().len() && a1.free@ == a0.free@ && a1.nodes() == a0.nodes().push(Some(v))
}

impl TerminalRenderer {
    /// Attaches `nodes` to `parent` in order, the `i`-th at position `index + i`, queueing the
    /// layout changes.
    fn attach_nodes(&mut self, parent: NodeKey, nodes: Vec<NodeKey>, index: usize)
        requires
            old(self).wf(),
            can_attach(old(self).arena.nodes(), parent, nodes@),
            index + nodes.len() <= usize::MAX,
        ensures
            final(self).wf(),
            final(self).arena.nodes() == attach_all(old(self).arena.nodes(), parent, nodes@, index as int),
            final(self).arena.free@ == old(self).arena.free@,
            final(self).effects@ == old(self).effects@ + applied(attach_all_ops(old(self).arena.nodes(), parent, nodes@, index as int)),
            final(self).ids() == old(self).ids(),
            final(self).stack == old(self).stack,
            final(self).root == old(self).root,
            final(self).dirty == old(self).dirty,
            final(self).layouts == old(self).layouts,
            final(self).pending_mounted == old(self).pending_mounted,
            final(self).screen == old(self).screen,
    {
        let ghost ns0 = self.arena.nodes();
        let ghost e0 = self.effects@;
        let mut i: usize = 0;
        assert(nodes@.take(0) =~= Seq::<NodeKey>::empty());
        assert(e0 + applied(Seq::<LayoutOp>::empty()) =~= e0);
        while i < nodes.len()
            invariant
                self.wf(),
                crate::arena::tree_wf(ns0),
                can_attach(ns0, parent, nodes@),
                index + nodes.len() <= usize::MAX,
                i <= nodes.len(),
                self.arena.nodes() == attach_all(ns0, parent, nodes@.take(i as int), index as int),
                self.arena.free@ == old(self).arena.free@,
                self.effects@ == e0 + applied(attach_all_ops(ns0, parent, nodes@.take(i as int), index as int)),
                self.ids() == old(self).ids(),
                self.stack == old(self).stack,
                self.root == old(self).root,
                self.dirty == old(self).dirty,
                self.layouts == old(self).layouts,
                self.pending_mounted == old(self).pending_mounted,
                self.screen == old(self).screen,
            decreases nodes.len() - i,
        {
            let c = nodes[i];
            let ghost pre = nodes@.take(i as int);
            let ghost cur = self.arena.nodes();
            proof {
                assert forall|j: int| 0 <= j < pre.len() implies live(ns0, #[trigger] pre[j] as int) && pre[j] != parent by {
                    assert(pre[j] == nodes@[j]);
                }
                lemma_attach_all_keeps(ns0, parent, pre, index as int);
                assert(live(ns0, nodes@[i as int] as int));
                assert(nodes@.take(i + 1).drop_last() =~= pre);
                assert(nodes@.take(i + 1).last() == c);
            }
            let ops = self.arena.attach(parent, c, index + i);
            push_ops(&mut self.effects, &ops);
            proof {
                let all = attach_all_ops(ns0, parent, pre, index as int);
                assert(applied(all + ops@) =~= applied(all) + applied(ops@));
            }
            i += 1;
        }
        assert(nodes@.take(nodes.len() as int) =~= nodes@);
    }
}

} // verus!

verus! {

/// The last `m` entries of `stack` (the nodes a mutation takes off it), in order.
pub open spec fn popped(stack: Seq<NodeKey>, m: nat) -> Seq<NodeKey> {
    stack.skip(stack.len() - m)
}

/// What stays on `stack` once its last `m` entries are taken.
pub open spec fn kept(stack: Seq<NodeKey>, m: nat) -> Seq<NodeKey> {
    stack.take(stack.len() - m)
}

/// The position of `x` in `s` (the first one, when `s` holds it).
pub open spec fn index_in(s: Seq<NodeKey>, x: NodeKey) -> int {
    choose|i: int| 0 <= i < s.len() && s[i] == x && forall|j: int| 0 <= j < i ==> s[j] != x
}

fn position(v: &Vec<NodeKey>, x: NodeKey) -> (r: usize)
    requires
        v@.contains(x),
    ensures
        r < v.len(),
        r == index_in(v@, x),
{
    let mut i: usize = 0;
    while i < v.len()
        invariant
            i <= v.len(),
            v@.contains(x),
            forall|j: int| 0 <= j < i ==> v@[j] != x,
        decreases v.len() - i,
    {
        if v[i] == x {
            assert(0 <= i < v@.len() && v@[i as int] == x && forall|j: int| 0 <= j < i ==> v@[j] != x);
            let ghost c = index_in(v@, x);
            assert(c == i) by {
                if c < i {
                    assert(v@[c] != x);
                } else if c > i {
                    assert(v@[i as int] != x);
                }
            }
            return i;
        }
        i += 1;
    }
    assert(false);
    0
}

impl TerminalRenderer {
    /// Takes the last `m` nodes off the stack, in order.
    fn pop_n(&mut self, m: usize) -> (r: Vec<NodeKey>)
        requires
            m <= old(self).stack.len(),
        ensures
            r@ == popped(old(self).stack@, m as nat),
            final(self).stack@ == kept(old(self).stack@, m as nat),
            *final(self) == (TerminalRenderer { stack: final(self).stack, ..*old(self) }),
    {
        let start = self.stack.len() - m;
        self.stack.split_off(start)
    }

    /// The node reached from the top of the stack by following the child indices `path`.
    fn resolve_path(&self, path: &[u8]) -> (key: NodeKey)
        requires
            self.wf(),
            self.stack.len() > 0,
            walk(self.arena.nodes(), self.stack@.last(), path@) is Some,
        ensures
            Some(key) == walk(self.arena.nodes(), self.stack@.last(), path@),
    {
        let ghost ns = self.arena.nodes();
        let mut current = self.stack[self.stack.len() - 1];
        let mut i: usize = 0;
        assert(path@.take(0) =~= Seq::<u8>::empty());
        while i < path.len()
            invariant
                self.wf(),
                ns == self.arena.nodes(),
                self.stack.len() > 0,
                walk(ns, self.stack@.last(), path@) is Some,
                i <= path.len(),
                walk(ns, self.stack@.last(), path@.take(i as int)) == Some(current),
            decreases path.len() - i,
        {
            proof {
                lemma_walk_prefix(ns, self.stack@.last(), path@, (i + 1) as int);
                assert(path@.take(i + 1).drop_last() =~= path@.take(i as int));
                assert(path@.take(i + 1).last() == path@[i as int]);
            }
            let index = path[i];
            let kids = self.arena.get(current).children().unwrap();
            current = kids[index as usize];
            i += 1;
        }
        assert(path@.take(path.len() as int) =~= path@);
        current
    }

    /// Gives element `id` the node reached by `path` from the top of the stack.
    pub fn assign_node_id(&mut self, path: &[u8], id: usize)
        requires
            old(self).wf(),
            old(self).stack.len() > 0,
            walk(old(self).arena.nodes(), old(self).stack@.last(), path@) is Some,
        ensures
            final(self).ids() == bimap_inserted(
                old(self).ids(),
                id,
                walk(old(self).arena.nodes(), old(self).stack@.last(), path@).unwrap(),
            ),
            *final(self) == (TerminalRenderer { ids: final(self).ids, ..*old(self) }),
    {
        let key = self.resolve_path(path);
        bimap_insert(&mut self.ids, id, key);
    }

    /// Creates an empty placeholder for element `id` (with no recorded rect until a paint) and
    /// pushes it on the stack.
    pub fn create_placeholder(&mut self, id: usize)
        requires
            old(self).wf(),
        ensures
            final(self).wf(),
            final(self).stack@.len() == old(self).stack@.len() + 1,
            final(self).stack@ == old(self).stack@.push(final(self).stack@.last()),
            inserted_at(old(self).arena, final(self).arena, final(self).stack@.last(), RealNode::placeholder_view()),
            final(self).ids() == bimap_inserted(old(self).ids(), id, final(self).stack@.last()),
            final(self).effects@ == old(self).effects@.push(LayoutEffect::Create(final(self).stack@.last())),
            final(self).dirty,
            final(self).root == old(self).root,
            final(self).layouts@ == old(self).layouts@.remove(final(self).stack@.last()),
            final(self).pending_mounted == old(self).pending_mounted,
            final(self).screen == old(self).screen,
    {
        self.dirty = true;
        let key = self.arena.insert(RealNode::placeholder());
        self.layouts.remove(&key);
        bimap_insert(&mut self.ids, id, key);
        self.stack.push(key);
        self.effects.push(LayoutEffect::Create(key));
    }

    /// Creates bare text `value` for element `id` (with no recorded rect until a paint) and
    /// pushes it on the stack.
    pub fn create_text_node(&mut self, value: String, id: usize)
        requires
            old(self).wf(),
        ensures
            final(self).wf(),
            final(self).stack@.len() == old(self).stack@.len() + 1,
            final(self).stack@ == old(self).stack@.push(final(self).stack@.last()),
            inserted_at(old(self).arena, final(self).arena, final(self).stack@.last(), RealNode::raw_text_view(value@)),
            final(self).ids() == bimap_inserted(old(self).ids(), id, final(self).stack@.last()),
            final(self).effects@ == old(self).effects@.push(LayoutEffect::Create(final(self).stack@.last())),
            final(self).dirty,
            final(self).root == old(self).root,
            final(self).layouts@ == old(self).layouts@.remove(final(self).stack@.last()),
            final(self).pending_mounted == old(self).pending_mounted,
            final(self).screen == old(self).screen,
    {
        self.dirty = true;
        let key = self.arena.insert(RealNode::raw_text(value));
        self.layouts.remove(&key);
        bimap_insert(&mut self.ids, id, key);
        self.stack.push(key);
        self.effects.push(LayoutEffect::Create(key));
    }

    /// Pushes the node of element `id` on the stack.
    pub fn push_root(&mut self, id: usize)
        requires
            old(self).ids().contains_key(id),
        ensures
            final(self).stack@ == old(self).stack@.push(old(self).ids()[id]),
            *final(self) == (TerminalRenderer { stack: final(self).stack, ..*old(self) }),
    {
        let key = bimap_get_by_left(&self.ids, id).unwrap();
        self.stack.push(key);
    }

    /// Notes a new event listener: one for `mounted` queues element `id` to be told its node.
    pub fn create_event_listener(&mut self, is_mounted: bool, id: usize)
        ensures
            final(self).pending_mounted@ == if is_mounted {
                old(self).pending_mounted@.push(id)
            } else {
                old(self).pending_mounted@
            },
            *final(self) == (TerminalRenderer { pending_mounted: final(self).pending_mounted, ..*old(self) }),
    {
        if is_mounted {
            self.pending_mounted.push(id);
        }
    }

    /// Replaces the content of element `id`'s node when it is bare text; an element without a
    /// node is ignored.
    pub fn set_node_text(&mut self, value: String, id: usize)
        requires
            old(self).wf(),
            old(self).ids().contains_key(id) ==> live(old(self).arena.nodes(), old(self).ids()[id] as int),
        ensures
            final(self).wf(),
            final(self).dirty,
            final(self).arena.nodes() == if old(self).ids().contains_key(id) {
                let key = old(self).ids()[id];
                match node(old(self).arena.nodes(), key as int).kind {
                    Kind::RawText { .. } => rekinded(old(self).arena.nodes(), key, Kind::RawText { content: value@ }),
                    _ => old(self).arena.nodes(),
                }
            } else {
                old(self).arena.nodes()
            },
            final(self).arena.free@ == old(self).arena.free@,
            *final(self) == (TerminalRenderer { arena: final(self).arena, dirty: true, ..*old(self) }),
    {
        self.dirty = true;
        if let Some(key) = bimap_get_by_left(&self.ids, id) {
            self.arena.set_raw_text(key, value);
        }
    }

    /// Applies attribute `attr` to element `id`'s node (see [`with_attr`]); an element without
    /// a node is ignored. Returns the node when it is a block, whose layout node then has to
    /// take the attribute too.
    pub fn set_attribute(&mut self, attr: Attr, id: usize) -> (r: Option<NodeKey>)
        requires
            old(self).wf(),
            old(self).ids().contains_key(id) ==> live(old(self).arena.nodes(), old(self).ids()[id] as int) && (node(
                old(self).arena.nodes(),
                old(self).ids()[id] as int,
            ).kind is Block || node(old(self).arena.nodes(), old(self).ids()[id] as int).kind is Text),
        ensures
            final(self).wf(),
            final(self).arena.nodes() == if old(self).ids().contains_key(id) {
                with_attr(old(self).arena.nodes(), old(self).ids()[id], attr)
            } else {
                old(self).arena.nodes()
            },
            final(self).arena.free@ == old(self).arena.free@,
            r == if old(self).ids().contains_key(id) && node(old(self).arena.nodes(), old(self).ids()[id] as int).kind is Block {
                Some(old(self).ids()[id])
            } else {
                None
            },
            *final(self) == (TerminalRenderer { arena: final(self).arena, dirty: true, ..*old(self) }),
    {
        self.dirty = true;
        let key = match bimap_get_by_left(&self.ids, id) {
            Some(k) => k,
            None => {
                return None;
            },
        };
        let is_block = match self.arena.get(key) {
            RealNode::Block { .. } => true,
            _ => false,
        };
        match attr {
            Attr::Border(b) => self.arena.set_border(key, b),
            Attr::BgColor(c) => self.arena.set_bg_color(key, c),
            Attr::Overflow(o) => self.arena.set_overflow(key, o),
            Attr::TextStyle(s) => self.arena.set_text_style(key, s),
            Attr::Wrap(w) => self.arena.set_text_wrap(key, w),
            Attr::Layout => {},
        }
        if is_block {
            Some(key)
        } else {
            None
        }
    }
}

proof fn lemma_walk_prefix(ns: Seq<Option<NodeView>>, from: NodeKey, path: Seq<u8>, n: int)
    requires
        walk(ns, from, path) is Some,
        0 <= n <= path.len(),
    ensures
        walk(ns, from, path.take(n)) is Some,
    decreases path.len() - n,
{
    if n < path.len() {
        lemma_walk_prefix(ns, from, path, n + 1);
        assert(path.take(n + 1).drop_last() =~= path.take(n));
    } else {
        assert(path.take(n) =~= path);
    }
}

} // verus!

verus! {

impl TerminalRenderer {
    /// Takes the last `m` nodes off the stack and appends them, in order, to element `id`'s
    /// node.
    pub fn append_children(&mut self, id: usize, m: usize)
        requires
            old(self).wf(),
            m <= old(self).stack.len(),
            old(self).ids().contains_key(id),
            can_attach(old(self).arena.nodes(), old(self).ids()[id], popped(old(self).stack@, m as nat)),
            node(old(self).arena.nodes(), old(self).ids()[id] as int).children.len() + m <= usize::MAX,
        ensures
            final(self).wf(),
            final(self).dirty,
            final(self).stack@ == kept(old(self).stack@, m as nat),
            final(self).arena.nodes() == attach_all(
                old(self).arena.nodes(),
                old(self).ids()[id],
                popped(old(self).stack@, m as nat),
                node(old(self).arena.nodes(), old(self).ids()[id] as int).children.len() as int,
            ),
            final(self).arena.free@ == old(self).arena.free@,
            final(self).effects@ == old(self).effects@ + applied(
                attach_all_ops(
                    old(self).arena.nodes(),
                    old(self).ids()[id],
                    popped(old(self).stack@, m as nat),
                    node(old(self).arena.nodes(), old(self).ids()[id] as int).children.len() as int,
                ),
            ),
            final(self).ids() == old(self).ids(),
            final(self).root == old(self).root,
            final(self).layouts == old(self).layouts,
            final(self).pending_mounted == old(self).pending_mounted,
            final(self).screen == old(self).screen,
    {
        self.dirty = true;
        let parent = bimap_get_by_left(&self.ids, id).unwrap();
        let nodes = self.pop_n(m);
        let start = match self.arena.get(parent).children() {
            Some(ch) => ch.len(),
            None => 0,
        };
        self.attach_nodes(parent, nodes, start);
    }

    /// Takes the last `m` nodes off the stack and inserts them, in order, right after element
    /// `id`'s node among its parent's children.
    pub fn insert_nodes_after(&mut self, id: usize, m: usize)
        requires
            old(self).wf(),
            m <= old(self).stack.len(),
            old(self).ids().contains_key(id),
            live(old(self).arena.nodes(), old(self).ids()[id] as int),
            node(old(self).arena.nodes(), old(self).ids()[id] as int).parent is Some,
            can_attach(
                old(self).arena.nodes(),
                node(old(self).arena.nodes(), old(self).ids()[id] as int).parent.unwrap(),
                popped(old(self).stack@, m as nat),
            ),
            node(old(self).arena.nodes(), node(old(self).arena.nodes(), old(self).ids()[id] as int).parent.unwrap() as int).children.len() + m < usize::MAX,
        ensures
            final(self).wf(),
            final(self).dirty,
            final(self).stack@ == kept(old(self).stack@, m as nat),
            ({
                let ns = old(self).arena.nodes();
                let anchor = old(self).ids()[id];
                let p = node(ns, anchor as int).parent.unwrap();
                let at = index_in(node(ns, p as int).children, anchor) + 1;
                &&& final(self).arena.nodes() == attach_all(ns, p, popped(old(self).stack@, m as nat), at)
                &&& final(self).effects@ == old(self).effects@ + applied(attach_all_ops(ns, p, popped(old(self).stack@, m as nat), at))
            }),
            final(self).arena.free@ == old(self).arena.free@,
            final(self).ids() == old(self).ids(),
            final(self).root == old(self).root,
            final(self).layouts == old(self).layouts,
            final(self).pending_mounted == old(self).pending_mounted,
            final(self).screen == old(self).screen,
    {
        self.insert_nodes_near(id, m, true);
    }

    /// Takes the last `m` nodes off the stack and inserts them, in order, right before element
    /// `id`'s node among its parent's children.
    pub fn insert_nodes_before(&mut self, id: usize, m: usize)
        requires
            old(self).wf(),
            m <= old(self).stack.len(),
            old(self).ids().contains_key(id),
            live(old(self).arena.nodes(), old(self).ids()[id] as int),
            node(old(self).arena.nodes(), old(self).ids()[id] as int).parent is Some,
            can_attach(
                old(self).arena.nodes(),
                node(old(self).arena.nodes(), old(self).ids()[id] as int).parent.unwrap(),
                popped(old(self).stack@, m as nat),
            ),
            node(old(self).arena.nodes(), node(old(self).arena.nodes(), old(self).ids()[id] as int).parent.unwrap() as int).children.len() + m < usize::MAX,
        ensures
            final(self).wf(),
            final(self).dirty,
            final(self).stack@ == kept(old(self).stack@, m as nat),
            ({
                let ns = old(self).arena.nodes();
                let anchor = old(self).ids()[id];
                let p = node(ns, anchor as int).parent.unwrap();
                let at = index_in(node(ns, p as int).children, anchor);
                &&& final(self).arena.nodes() == attach_all(ns, p, popped(old(self).stack@, m as nat), at)
                &&& final(self).effects@ == old(self).effects@ + applied(attach_all_ops(ns, p, popped(old(self).stack@, m as nat), at))
            }),
            final(self).arena.free@ == old(self).arena.free@,
            final(self).ids() == old(self).ids(),
            final(self).root == old(self).root,
            final(self).layouts == old(self).layouts,
            final(self).pending_mounted == old(self).pending_mounted,
            final(self).screen == old(self).screen,
    {
        self.insert_nodes_near(id, m, false);
    }

    fn insert_nodes_near(&mut self, id: usize, m: usize, after: bool)
        requires
            old(self).wf(),
            m <= old(self).stack.len(),
            old(self).ids().contains_key(id),
            live(old(self).arena.nodes(), old(self).ids()[id] as int),
            node(old(self).arena.nodes(), old(self).ids()[id] as int).parent is Some,
            can_attach(
                old(self).arena.nodes(),
                node(old(self).arena.nodes(), old(self).ids()[id] as int).parent.unwrap(),
                popped(old(self).stack@, m as nat),
            ),
            node(old(self).arena.nodes(), node(old(self).arena.nodes(), old(self).ids()[id] as int).parent.unwrap() as int).children.len() + m < usize::MAX,
        ensures
            final(self).wf(),
            final(self).dirty,
            final(self).stack@ == kept(old(self).stack@, m as nat),
            ({
                let ns = old(self).arena.nodes();
                let anchor = old(self).ids()[id];
                let p = node(ns, anchor as int).parent.unwrap();
                let at = index_in(node(ns, p as int).children, anchor) + if after { 1int } else { 0int };
                &&& final(self).arena.nodes() == attach_all(ns, p, popped(old(self).stack@, m as nat), at)
                &&& final(self).effects@ == old(self).effects@ + applied(attach_all_ops(ns, p, popped(old(self).stack@, m as nat), at))
            }),
            final(self).arena.free@ == old(self).arena.free@,
            final(self).ids() == old(self).ids(),
            final(self).root == old(self).root,
            final(self).layouts == old(self).layouts,
            final(self).pending_mounted == old(self).pending_mounted,
            final(self).screen == old(self).screen,
    {
        let ghost ns = self.arena.nodes();
        self.dirty = true;
        let nodes = self.pop_n(m);
        let anchor = bimap_get_by_left(&self.ids, id).unwrap();
        let parent = self.arena.get(anchor).parent().unwrap();
        proof {
            assert(live(ns, anchor as int));
            assert(node(ns, parent as int).children.contains(anchor));
        }
        let kids = self.arena.get(parent).children().unwrap();
        let pos = position(kids, anchor);
        let index = if after { pos + 1 } else { pos };
        self.attach_nodes(parent, nodes, index);
    }
}

} // verus!

verus! {

/// The nodes after the subtree at `key` is detached and its nodes `dropped` are gone.
pub open spec fn pruned(ns: Seq<Option<NodeView>>, key: NodeKey, dropped: Seq<NodeKey>) -> Seq<Option<NodeView>> {
    Seq::new(ns.len(), |k: int| if dropped.contains(k as NodeKey) { None } else { detached(ns, key)[k] })
}

/// Whether the subtree at `target` can be replaced by `new`: the target is live and, when it
/// has a parent, neither the parent nor any of `new` lies in the target's subtree, and each of
/// `new` is live and not the parent.
pub open spec fn can_splice(ns: Seq<Option<NodeView>>, target: NodeKey, new: Seq<NodeKey>) -> bool {
    &&& live(ns, target as int)
    &&& match node(ns, target as int).parent {
        Some(p) => {
            &&& !under(detached(ns, target), p, target)
            &&& forall|i: int| 0 <= i < new.len() ==> live(ns, #[trigger] new[i] as int) && new[i] != p && !under(detached(ns, target), new[i], target)
            &&& node(ns, p as int).children.len() + new.len() <= usize::MAX
        },
        None => true,
    }
}

/// The nodes after the subtree at `target` (whose nodes are `dropped`) is replaced by `new`
/// at its old position among its parent's children (or just removed, without a parent).
pub open spec fn spliced_nodes(ns: Seq<Option<NodeView>>, target: NodeKey, new: Seq<NodeKey>, dropped: Seq<NodeKey>) -> Seq<Option<NodeView>> {
    match node(ns, target as int).parent {
        Some(p) => attach_all(pruned(ns, target, dropped), p, new, index_in(node(ns, p as int).children, target)),
        None => pruned(ns, target, dropped),
    }
}

/// The layout effects of that replacement, in order.
pub open spec fn splice_effects(ns: Seq<Option<NodeView>>, target: NodeKey, new: Seq<NodeKey>, dropped: Seq<NodeKey>) -> Seq<LayoutEffect> {
    removal_effects(detach_op(ns, target), dropped) + match node(ns, target as int).parent {
        Some(p) => applied(attach_all_ops(pruned(ns, target, dropped), p, new, index_in(node(ns, p as int).children, target))),
        None => Seq::empty(),
    }
}

fn push_removal(effects: &mut Vec<LayoutEffect>, op: Option<LayoutOp>, dropped: &Vec<NodeKey>)
    ensures
        final(effects)@ == old(effects)@ + removal_effects(op, dropped@),
{
    if let Some(o) = op {
        effects.push(LayoutEffect::Apply(o));
    }
    let ghost base = effects@;
    let mut j: usize = 0;
    while j < dropped.len()
        invariant
            j <= dropped.len(),
            effects@ == base + dropped@.take(j as int).map_values(|k: NodeKey| LayoutEffect::Free(k)),
        decreases dropped.len() - j,
    {
        effects.push(LayoutEffect::Free(dropped[j]));
        assert(dropped@.take(j + 1).map_values(|k: NodeKey| LayoutEffect::Free(k)) =~= dropped@.take(j as int).map_values(
            |k: NodeKey| LayoutEffect::Free(k),
        ).push(LayoutEffect::Free(dropped@[j as int])));
        j += 1;
    }
    assert(dropped@.take(dropped.len() as int) =~= dropped@);
    let ghost head = match op {
        Some(o) => seq![LayoutEffect::Apply(o)],
        None => Seq::<LayoutEffect>::empty(),
    };
    assert(effects@ =~= old(effects)@ + removal_effects(op, dropped@));
}

/// Forgets the recorded rect of every key of `keys`.
fn forget_layouts(layouts: &mut HashMap<NodeKey, LayoutRect>, keys: &Vec<NodeKey>)
    ensures
        final(layouts)@ == old(layouts)@.remove_keys(keys@.to_set()),
{
    let mut j: usize = 0;
    while j < keys.len()
        invariant
            j <= keys.len(),
            layouts@ == old(layouts)@.remove_keys(keys@.take(j as int).to_set()),
        decreases keys.len() - j,
    {
        let ghost before = layouts@;
        layouts.remove(&keys[j]);
        assert(keys@.take(j + 1).to_set() =~= keys@.take(j as int).to_set().insert(keys@[j as int])) by {
            assert forall|k: NodeKey| #[trigger] keys@.take(j + 1).to_set().contains(k) <==> keys@.take(j as int).to_set().insert(keys@[j as int]).contains(k) by {
                if keys@.take(j + 1).contains(k) {
                    let i = choose|i: int| 0 <= i < j + 1 && #[trigger] keys@.take(j + 1)[i] == k;
                    if i < j {
                        assert(keys@.take(j as int)[i] == k);
                    }
                }
                if keys@.take(j as int).contains(k) {
                    let i = choose|i: int| 0 <= i < j && #[trigger] keys@.take(j as int)[i] == k;
                    assert(keys@.take(j + 1)[i] == k);
                }
                if k == keys@[j as int] {
                    assert(keys@.take(j + 1)[j as int] == k);
                }
            }
        }
        assert(layouts@ =~= old(layouts)@.remove_keys(keys@.take(j + 1).to_set()));
        j += 1;
    }
    assert(keys@.take(keys.len() as int) =~= keys@);
}

impl TerminalRenderer {
    /// Detaches the node at `key` and drops its whole subtree, queueing the layout changes and
    /// forgetting the dropped nodes' recorded rects; returns the dropped keys.
    fn remove_tree(&mut self, key: NodeKey) -> (dropped: Vec<NodeKey>)
        requires
            old(self).wf(),
            live(old(self).arena.nodes(), key as int),
        ensures
            final(self).wf(),
            removed_subtree(detached(old(self).arena.nodes(), key), key, dropped@),
            final(self).arena.nodes() == pruned(old(self).arena.nodes(), key, dropped@),
            final(self).arena.free@ == old(self).arena.free@ + dropped@,
            final(self).effects@ == old(self).effects@ + removal_effects(detach_op(old(self).arena.nodes(), key), dropped@),
            final(self).layouts@ == old(self).layouts@.remove_keys(dropped@.to_set()),
            final(self).ids() == old(self).ids(),
            final(self).stack == old(self).stack,
            final(self).root == old(self).root,
            final(self).dirty == old(self).dirty,
            final(self).pending_mounted == old(self).pending_mounted,
            final(self).screen == old(self).screen,
    {
        let ghost ns = self.arena.nodes();
        let n = self.arena.slots.len();
        assert(ns.len() == n);
        let (op, dropped) = self.arena.remove_subtree(key);
        assert(self.arena.nodes() =~= pruned(ns, key, dropped@)) by {
            assert forall|k: int| 0 <= k < ns.len() implies self.arena.nodes()[k] == pruned(ns, key, dropped@)[k] by {
                assert(self.arena.nodes()[(k as NodeKey) as int] == if dropped@.contains(k as NodeKey) {
                    None
                } else {
                    detached(ns, key)[(k as NodeKey) as int]
                });
            }
        }
        push_removal(&mut self.effects, op, &dropped);
        forget_layouts(&mut self.layouts, &dropped);
        dropped
    }

    /// Drops element `id`: forgets its id and, when it has a node, removes that node's whole
    /// subtree and forgets the removed nodes' recorded rects. Returns the node it had.
    pub fn remove_node(&mut self, id: usize) -> (r: Option<NodeKey>)
        requires
            old(self).wf(),
            old(self).ids().contains_key(id) ==> live(old(self).arena.nodes(), old(self).ids()[id] as int),
        ensures
            final(self).wf(),
            final(self).dirty,
            final(self).ids() == old(self).ids().remove(id),
            r == if old(self).ids().contains_key(id) { Some(old(self).ids()[id]) } else { None },
            !old(self).ids().contains_key(id) ==> final(self).arena == old(self).arena && final(self).effects == old(self).effects
                && final(self).layouts == old(self).layouts,
            old(self).ids().contains_key(id) ==> exists|dropped: Seq<NodeKey>| {
                &&& removed_subtree(detached(old(self).arena.nodes(), old(self).ids()[id]), old(self).ids()[id], dropped)
                &&& #[trigger] pruned(old(self).arena.nodes(), old(self).ids()[id], dropped) == final(self).arena.nodes()
                &&& final(self).arena.free@ == old(self).arena.free@ + dropped
                &&& final(self).effects@ == old(self).effects@ + removal_effects(
                    detach_op(old(self).arena.nodes(), old(self).ids()[id]),
                    dropped,
                )
                &&& final(self).layouts@ == old(self).layouts@.remove_keys(dropped.to_set())
            },
            final(self).stack == old(self).stack,
            final(self).root == old(self).root,
            final(self).pending_mounted == old(self).pending_mounted,
            final(self).screen == old(self).screen,
    {
        self.dirty = true;
        match bimap_remove_by_left(&mut self.ids, id) {
            Some((_, key)) => {
                let dropped = self.remove_tree(key);
                Some(key)
            },
            None => None,
        }
    }

    /// Replaces the subtree at `target` by `new_nodes`, at its old position among its parent's
    /// children; without a parent the subtree is only removed.
    fn splice(&mut self, target: NodeKey, new_nodes: Vec<NodeKey>)
        requires
            old(self).wf(),
            can_splice(old(self).arena.nodes(), target, new_nodes@),
        ensures
            final(self).wf(),
            exists|dropped: Seq<NodeKey>| {
                &&& removed_subtree(detached(old(self).arena.nodes(), target), target, dropped)
                &&& #[trigger] spliced_nodes(old(self).arena.nodes(), target, new_nodes@, dropped) == final(self).arena.nodes()
                &&& final(self).arena.free@ == old(self).arena.free@ + dropped
                &&& final(self).effects@ == old(self).effects@ + splice_effects(old(self).arena.nodes(), target, new_nodes@, dropped)
                &&& final(self).layouts@ == old(self).layouts@.remove_keys(dropped.to_set())
            },
            final(self).ids() == old(self).ids(),
            final(self).stack == old(self).stack,
            final(self).root == old(self).root,
            final(self).dirty == old(self).dirty,
            final(self).pending_mounted == old(self).pending_mounted,
            final(self).screen == old(self).screen,
    {
        let ghost ns = self.arena.nodes();
        let ghost e0 = self.effects@;
        match self.arena.get(target).parent() {
            Some(parent) => {
                proof {
                    assert(live(ns, parent as int));
                    assert(node(ns, parent as int).children.contains(target));
                    assert(ns[parent as int] == slot_view(self.arena.slots@[parent as int]));
                }
                let kids = self.arena.get(parent).children().unwrap();
                let index = position(kids, target);
                let dropped = self.remove_tree(target);
                let ghost pr = pruned(ns, target, dropped@);
                proof {
                    let d = detached(ns, target);
                    assert forall|k: int| #[trigger] live(d, k) == live(ns, k) && (live(ns, k) ==> node(d, k).kind == node(ns, k).kind) by {}
                    assert(!dropped@.contains(parent));
                    assert(live(pr, parent as int));
                    assert forall|i: int| 0 <= i < new_nodes@.len() implies live(pr, #[trigger] new_nodes@[i] as int) && new_nodes@[i] != parent by {
                        assert(!dropped@.contains(new_nodes@[i]));
                        assert(live(ns, new_nodes@[i] as int));
                    }
                    assert(node(pr, parent as int).kind == node(ns, parent as int).kind);
                }
                let ghost e1 = self.effects@;
                self.attach_nodes(parent, new_nodes, index);
                proof {
                    let dr = dropped@;
                    assert(self.arena.nodes() == spliced_nodes(ns, target, new_nodes@, dr));
                    assert(self.effects@ =~= e0 + splice_effects(ns, target, new_nodes@, dr));
                }
            },
            None => {
                let dropped = self.remove_tree(target);
                proof {
                    let dr = dropped@;
                    assert(self.arena.nodes() == spliced_nodes(ns, target, new_nodes@, dr));
                    assert(self.effects@ =~= e0 + splice_effects(ns, target, new_nodes@, dr));
                }
            },
        }
    }
}

} // verus!

verus! {

impl TerminalRenderer {
    /// Takes the last `m` nodes off the stack and puts them where element `id`'s node was,
    /// dropping that node's subtree and the element's id.
    pub fn replace_node_with(&mut self, id: usize, m: usize)
        requires
            old(self).wf(),
            m <= old(self).stack.len(),
            old(self).ids().contains_key(id),
            can_splice(old(self).arena.nodes(), old(self).ids()[id], popped(old(self).stack@, m as nat)),
        ensures
            final(self).wf(),
            final(self).dirty,
            final(self).stack@ == kept(old(self).stack@, m as nat),
            final(self).ids() == old(self).ids().remove(id),
            exists|dropped: Seq<NodeKey>| {
                &&& removed_subtree(detached(old(self).arena.nodes(), old(self).ids()[id]), old(self).ids()[id], dropped)
                &&& #[trigger] spliced_nodes(old(self).arena.nodes(), old(self).ids()[id], popped(old(self).stack@, m as nat), dropped)
                    == final(self).arena.nodes()
                &&& final(self).arena.free@ == old(self).arena.free@ + dropped
                &&& final(self).effects@ == old(self).effects@ + splice_effects(
                    old(self).arena.nodes(),
                    old(self).ids()[id],
                    popped(old(self).stack@, m as nat),
                    dropped,
                )
                &&& final(self).layouts@ == old(self).layouts@.remove_keys(dropped.to_set())
            },
            final(self).root == old(self).root,
            final(self).pending_mounted == old(self).pending_mounted,
            final(self).screen == old(self).screen,
    {
        self.dirty = true;
        let nodes = self.pop_n(m);
        let target = bimap_remove_by_left(&mut self.ids, id).unwrap().1;
        self.splice(target, nodes);
    }

    /// Takes the last `m` nodes off the stack and puts them where the node reached by `path`
    /// from the (new) top of the stack was, dropping that node's subtree.
    pub fn replace_placeholder_with_nodes(&mut self, path: &[u8], m: usize)
        requires
            old(self).wf(),
            m < old(self).stack.len(),
            walk(old(self).arena.nodes(), kept(old(self).stack@, m as nat).last(), path@) is Some,
            can_splice(
                old(self).arena.nodes(),
                walk(old(self).arena.nodes(), kept(old(self).stack@, m as nat).last(), path@).unwrap(),
                popped(old(self).stack@, m as nat),
            ),
        ensures
            final(self).wf(),
            final(self).dirty,
            final(self).stack@ == kept(old(self).stack@, m as nat),
            final(self).ids() == old(self).ids(),
            exists|dropped: Seq<NodeKey>| {
                &&& removed_subtree(
                    detached(old(self).arena.nodes(), walk(old(self).arena.nodes(), kept(old(self).stack@, m as nat).last(), path@).unwrap()),
                    walk(old(self).arena.nodes(), kept(old(self).stack@, m as nat).last(), path@).unwrap(),
                    dropped,
                )
                &&& #[trigger] spliced_nodes(
                    old(self).arena.nodes(),
                    walk(old(self).arena.nodes(), kept(old(self).stack@, m as nat).last(), path@).unwrap(),
                    popped(old(self).stack@, m as nat),
                    dropped,
                ) == final(self).arena.nodes()
                &&& final(self).arena.free@ == old(self).arena.free@ + dropped
                &&& final(self).effects@ == old(self).effects@ + splice_effects(
                    old(self).arena.nodes(),
                    walk(old(self).arena.nodes(), kept(old(self).stack@, m as nat).last(), path@).unwrap(),
                    popped(old(self).stack@, m as nat),
                    dropped,
                )
                &&& final(self).layouts@ == old(self).layouts@.remove_keys(dropped.to_set())
            },
            final(self).root == old(self).root,
            final(self).pending_mounted == old(self).pending_mounted,
            final(self).screen == old(self).screen,
    {
        self.dirty = true;
        let nodes = self.pop_n(m);
        let target = self.resolve_path(path);
        self.splice(target, nodes);
    }
}

/// The node a template node becomes when built, before its children are attached.
pub open spec fn template_view(t: TemplateNode) -> NodeView {
    match t {
        TemplateNode::Element { tag, .. } => match tag {
            ElementTag::Block => RealNode::block_view(),
            ElementTag::Text => RealNode::text_view(),
            ElementTag::Other => RealNode::placeholder_view(),
        },
        TemplateNode::Text { text } => RealNode::raw_text_view(text@),
        TemplateNode::Dynamic => RealNode::placeholder_view(),
    }
}

/// How many children a template node has.
pub open spec fn template_arity(t: TemplateNode) -> nat {
    match t {
        TemplateNode::Element { children, .. } => children@.len(),
        _ => 0,
    }
}

/// A node of a template: an element (by tag) with its children, static text, or a dynamic
/// slot filled in later.
#[derive(Debug)]
pub enum TemplateNode {
    Element { tag: ElementTag, children: Vec<TemplateNode> },
    Text { text: String },
    Dynamic,
}

/// What an element of a template becomes: a block, a text node, or (any other tag) a
/// placeholder.
#[derive(PartialEq, Eq, Structural, Clone, Copy, Debug)]
pub enum ElementTag {
    Block,
    Text,
    Other,
}

impl TerminalRenderer {
    /// Builds a fresh subtree for template node `t`: its node, then each child built in turn
    /// and attached in order.
    fn build_template_node(&mut self, t: &TemplateNode) -> (key: NodeKey)
        requires
            old(self).wf(),
        ensures
            final(self).wf(),
            !live(old(self).arena.nodes(), key as int),
            live(final(self).arena.nodes(), key as int),
            node(final(self).arena.nodes(), key as int).parent is None,
            node(final(self).arena.nodes(), key as int).kind == template_view(*t).kind,
            node(final(self).arena.nodes(), key as int).children.len() == template_arity(*t),
            forall|k: int| 0 <= k < node(final(self).arena.nodes(), key as int).children.len() ==> !live(
                old(self).arena.nodes(),
                #[trigger] node(final(self).arena.nodes(), key as int).children[k] as int,
            ),
            final(self).arena.nodes().len() >= old(self).arena.nodes().len(),
            forall|k: int| #[trigger] live(old(self).arena.nodes(), k) ==> final(self).arena.nodes()[k] == old(self).arena.nodes()[k],
            exists|s: Set<NodeKey>| #[trigger] built_in(final(self).arena.nodes(), key, *t, s) && fresh_nodes(old(self).arena.nodes(), final(self).arena.nodes(), s)
                && final(self).layouts@ == old(self).layouts@.remove_keys(s),
            final(self).effects@ == old(self).effects@ + built_effects(final(self).arena.nodes(), key, *t),
            final(self).ids() == old(self).ids(),
            final(self).stack == old(self).stack,
            final(self).root == old(self).root,
            final(self).dirty == old(self).dirty,
            final(self).pending_mounted == old(self).pending_mounted,
            final(self).screen == old(self).screen,
        decreases t,
    {
        match t {
            TemplateNode::Element { tag, children } => {
                let n = match tag {
                    ElementTag::Block => RealNode::block(),
                    ElementTag::Text => RealNode::text(),
                    ElementTag::Other => RealNode::placeholder(),
                };
                let key = self.arena.insert(n);
                self.layouts.remove(&key);
                self.effects.push(LayoutEffect::Create(key));
                let ghost mut cs: Set<NodeKey> = Set::empty();
                assert(self.layouts@ =~= old(self).layouts@.remove_keys(cs.insert(key)));
                proof {
                    let ns = self.arena.nodes();
                    assert(children_effects(ns, key, node(ns, key as int).children, children@.take(0)) == Seq::<LayoutEffect>::empty());
                    assert(self.effects@ =~= old(self).effects@ + seq![LayoutEffect::Create(key)] + Seq::<LayoutEffect>::empty());
                }
                let mut i: usize = 0;
                while i < children.len()
                    invariant
                        i <= children.len(),
                        forall|x: NodeKey| #[trigger] cs.contains(x) ==> live(self.arena.nodes(), x as int) && !live(old(self).arena.nodes(), x as int) && x != key,
                        built_all(self.arena.nodes(), node(self.arena.nodes(), key as int).children, children@.take(i as int), cs),
                        self.effects@ == old(self).effects@ + seq![LayoutEffect::Create(key)] + children_effects(
                            self.arena.nodes(),
                            key,
                            node(self.arena.nodes(), key as int).children,
                            children@.take(i as int),
                        ),
                        *t == (TemplateNode::Element { tag: *tag, children: *children }),
                        self.wf(),
                        !(node(self.arena.nodes(), key as int).kind is RawText),
                        !live(old(self).arena.nodes(), key as int),
                        live(self.arena.nodes(), key as int),
                        node(self.arena.nodes(), key as int).parent is None,
                        node(self.arena.nodes(), key as int).kind == template_view(*t).kind,
                        node(self.arena.nodes(), key as int).children.len() == i,
                        forall|k: int| 0 <= k < i ==> !live(
                            old(self).arena.nodes(),
                            #[trigger] node(self.arena.nodes(), key as int).children[k] as int,
                        ),
                        self.arena.nodes().len() >= old(self).arena.nodes().len(),
                        forall|k: int| #[trigger] live(old(self).arena.nodes(), k) ==> self.arena.nodes()[k] == old(self).arena.nodes()[k],
                        self.ids() == old(self).ids(),
                        self.stack == old(self).stack,
                        self.root == old(self).root,
                        self.dirty == old(self).dirty,
                        self.layouts@ == old(self).layouts@.remove_keys(cs.insert(key)),
                        self.pending_mounted == old(self).pending_mounted,
                        self.screen == old(self).screen,
                    decreases children.len() - i,
                {
                    let ghost before = self.arena.nodes();
                    let ghost eff0 = self.effects@;
                    let ghost lb = self.layouts@;
                    assert(decreases_to!(*t => (*t)->children));
                    assert((*t)->children == *children);
                    assert(decreases_to!(*children => children@));
                    assert(decreases_to!(children@ => children@[i as int]));
                    let child_key = self.build_template_node(&children[i]);
                    let ghost mid = self.arena.nodes();
                    let ghost si = choose|s: Set<NodeKey>| #[trigger] built_in(mid, child_key, children@[i as int], s) && fresh_nodes(before, mid, s)
                        && self.layouts@ == lb.remove_keys(s);
                    proof {
                        assert(live(before, key as int));
                        assert(key != child_key);
                        assert(node(mid, key as int) == node(before, key as int));
                    }
                    let ops = self.arena.attach(key, child_key, i);
                    push_ops(&mut self.effects, &ops);
                    proof {
                        let ns = self.arena.nodes();
                        let d = detached(mid, child_key);
                        assert(d == mid);
                        assert(node(ns, key as int).children == node(mid, key as int).children.push(child_key));
                        assert(keeps_shape(before, ns, cs)) by {
                            assert forall|x: NodeKey| #[trigger] cs.contains(x) implies live(ns, x as int) && node(ns, x as int).kind == node(before, x as int).kind
                                && node(ns, x as int).children == node(before, x as int).children by {
                                assert(live(before, x as int));
                                assert(mid[x as int] == before[x as int]);
                                assert(x != child_key);
                            }
                        }
                        assert(keeps_shape(mid, ns, si)) by {
                            assert forall|x: NodeKey| #[trigger] si.contains(x) implies live(ns, x as int) && node(ns, x as int).kind == node(mid, x as int).kind
                                && node(ns, x as int).children == node(mid, x as int).children by {
                                assert(live(mid, x as int) && !live(before, x as int));
                                assert(x != key);
                            }
                        }
                        assert(keeps_shape(before, mid, cs)) by {
                            assert forall|x: NodeKey| #[trigger] cs.contains(x) implies live(mid, x as int) && node(mid, x as int).kind == node(before, x as int).kind
                                && node(mid, x as int).children == node(before, x as int).children by {
                                assert(live(before, x as int));
                                assert(mid[x as int] == before[x as int]);
                            }
                        }
                        lemma_built_step(before, mid, ns, key, child_key, cs, si, children@.take(i as int), children@[i as int]);
                        assert(children@.take(i as int).push(children@[i as int]) == children@.take(i + 1));
                        assert(self.effects@ =~= old(self).effects@ + seq![LayoutEffect::Create(key)] + children_effects(
                            ns,
                            key,
                            node(ns, key as int).children,
                            children@.take(i + 1),
                        ));
                        assert forall|x: NodeKey| #[trigger] (cs + si).contains(x) implies live(ns, x as int) && !live(old(self).arena.nodes(), x as int) && x != key by {
                            if si.contains(x) {
                                assert(live(mid, x as int) && !live(before, x as int));
                                if live(old(self).arena.nodes(), x as int) {
                                    assert(live(before, x as int));
                                }
                                if x != child_key {
                                    assert(ns[x as int] == mid[x as int]);
                                }
                            } else {
                                assert(live(before, x as int));
                                assert(x != child_key);
                                assert(ns[x as int] == mid[x as int]);
                            }
                        }
                        assert(self.layouts@ =~= old(self).layouts@.remove_keys((cs + si).insert(key)));
                        cs = cs + si;
                    }
                    proof {
                        let ns = self.arena.nodes();
                        assert forall|k: int| #[trigger] live(old(self).arena.nodes(), k) implies ns[k] == old(self).arena.nodes()[k] by {
                            assert(live(before, k));
                            assert(mid[k] == before[k]);
                        }
                        assert forall|k: int| 0 <= k < i + 1 implies !live(
                            old(self).arena.nodes(),
                            #[trigger] node(ns, key as int).children[k] as int,
                        ) by {
                            if k < i {
                                assert(node(ns, key as int).children[k] == node(before, key as int).children[k]);
                            } else {
                                if live(old(self).arena.nodes(), child_key as int) {
                                    assert(live(before, child_key as int));
                                }
                            }
                        }
                    }
                    i += 1;
                }
                proof {
                    let ns = self.arena.nodes();
                    assert(children@.take(children@.len() as int) == children@);
                    lemma_built_all_mono(ns, node(ns, key as int).children, children@, cs, cs.insert(key));
                    assert(built_in(ns, key, *t, cs.insert(key)));
                    assert(fresh_nodes(old(self).arena.nodes(), ns, cs.insert(key)));
                    assert(self.effects@ =~= old(self).effects@ + built_effects(ns, key, *t));
                }
                key
            },
            TemplateNode::Text { text } => {
                let key = self.arena.insert(RealNode::raw_text(text.clone()));
                self.layouts.remove(&key);
                self.effects.push(LayoutEffect::Create(key));
                assert(self.layouts@ =~= old(self).layouts@.remove_keys(set![key]));
                proof {
                    assert(built_in(self.arena.nodes(), key, *t, set![key]));
                    assert(fresh_nodes(old(self).arena.nodes(), self.arena.nodes(), set![key]));
                    assert(self.effects@ =~= old(self).effects@ + built_effects(self.arena.nodes(), key, *t));
                }
                key
            },
            TemplateNode::Dynamic => {
                let key = self.arena.insert(RealNode::placeholder());
                self.layouts.remove(&key);
                self.effects.push(LayoutEffect::Create(key));
                assert(self.layouts@ =~= old(self).layouts@.remove_keys(set![key]));
                proof {
                    assert(built_in(self.arena.nodes(), key, *t, set![key]));
                    assert(fresh_nodes(old(self).arena.nodes(), self.arena.nodes(), set![key]));
                    assert(self.effects@ =~= old(self).effects@ + built_effects(self.arena.nodes(), key, *t));
                }
                key
            },
        }
    }
}

} // verus!

verus! {

impl TerminalRenderer {
    /// Builds a fresh subtree for template root `t` (every node of it new, with the kinds and
    /// child counts of the template all the way down, its layout changes queued in build
    /// order, none of them with a recorded rect), gives element `id` its root and pushes that
    /// root on the stack.
    pub fn load_template(&mut self, t: &TemplateNode, id: usize)
        requires
            old(self).wf(),
        ensures
            final(self).wf(),
            final(self).dirty,
            final(self).stack@.len() == old(self).stack@.len() + 1,
            final(self).stack@ == old(self).stack@.push(final(self).stack@.last()),
            !live(old(self).arena.nodes(), final(self).stack@.last() as int),
            live(final(self).arena.nodes(), final(self).stack@.last() as int),
            node(final(self).arena.nodes(), final(self).stack@.last() as int).parent is None,
            node(final(self).arena.nodes(), final(self).stack@.last() as int).kind == template_view(*t).kind,
            node(final(self).arena.nodes(), final(self).stack@.last() as int).children.len() == template_arity(*t),
            forall|k: int| #[trigger] live(old(self).arena.nodes(), k) ==> final(self).arena.nodes()[k] == old(self).arena.nodes()[k],
            exists|s: Set<NodeKey>| #[trigger] built_in(final(self).arena.nodes(), final(self).stack@.last(), *t, s) && fresh_nodes(old(self).arena.nodes(), final(self).arena.nodes(), s)
                && final(self).layouts@ == old(self).layouts@.remove_keys(s),
            !final(self).layouts@.contains_key(final(self).stack@.last()),
            final(self).effects@ == old(self).effects@ + built_effects(final(self).arena.nodes(), final(self).stack@.last(), *t),
            final(self).ids() == bimap_inserted(old(self).ids(), id, final(self).stack@.last()),
            final(self).root == old(self).root,
            final(self).pending_mounted == old(self).pending_mounted,
            final(self).screen == old(self).screen,
    {
        self.dirty = true;
        let key = self.build_template_node(t);
        bimap_insert(&mut self.ids, id, key);
        self.stack.push(key);
    }
}

} // verus!

verus! {

/// The subtree at `key` is what building template node `t` gives: matching kinds and child
/// counts all the way down, every node of it in `s`.
pub open spec fn built_in(ns: Seq<Option<NodeView>>, key: NodeKey, t: TemplateNode, s: Set<NodeKey>) -> bool
    decreases t,
{
    &&& s.contains(key)
    &&& live(ns, key as int)
    &&& node(ns, key as int).kind == template_view(t).kind
    &&& node(ns, key as int).children.len() == template_arity(t)
    &&& match t {
        TemplateNode::Element { children, .. } => built_all(ns, node(ns, key as int).children, children@, s),
        _ => true,
    }
}

/// Each of `keys` is what building the matching template node of `ts` gives.
pub open spec fn built_all(ns: Seq<Option<NodeView>>, keys: Seq<NodeKey>, ts: Seq<TemplateNode>, s: Set<NodeKey>) -> bool
    decreases ts,
{
    &&& keys.len() == ts.len()
    &&& ts.len() > 0 ==> {
        &&& built_all(ns, keys.drop_last(), ts.drop_last(), s)
        &&& built_in(ns, keys.last(), ts.last(), s)
    }
}


/// The layout changes building template node `t` at `key` makes, read off the finished
/// tree `ns`: the node's creation, then for each child in turn its own changes and its
/// insertion under `key`.
pub open spec fn built_effects(ns: Seq<Option<NodeView>>, key: NodeKey, t: TemplateNode) -> Seq<LayoutEffect>
    decreases t,
{
    seq![LayoutEffect::Create(key)] + match t {
        TemplateNode::Element { children, .. } => children_effects(ns, key, node(ns, key as int).children, children@),
        _ => Seq::empty(),
    }
}

/// The layout changes of building the children `ts` of `parent` as `keys` and attaching
/// each in turn.
pub open spec fn children_effects(
    ns: Seq<Option<NodeView>>,
    parent: NodeKey,
    keys: Seq<NodeKey>,
    ts: Seq<TemplateNode>,
) -> Seq<LayoutEffect>
    decreases ts,
{
    if ts.len() == 0 {
        Seq::empty()
    } else {
        children_effects(ns, parent, keys.drop_last(), ts.drop_last()) + built_effects(ns, keys.last(), ts.last())
            + built_insert(ns, parent, keys.drop_last(), keys.last())
    }
}

/// Attaching fresh `child` after the children `before` of `parent`: its insertion at the
/// number of laid-out nodes among `before`, unless `parent` is a `Text` or `child` is bare
/// text.
pub open spec fn built_insert(ns: Seq<Option<NodeView>>, parent: NodeKey, before: Seq<NodeKey>, child: NodeKey) -> Seq<LayoutEffect> {
    if node(ns, parent as int).kind is Text || node(ns, child as int).kind is RawText {
        Seq::empty()
    } else {
        seq![LayoutEffect::Apply(LayoutOp::Insert { parent, child, index: count_laid_out(ns, before) as usize })]
    }
}

} // verus!

verus! {

/// Every node of `s` is live in `after` and was not live in `before`.
pub open spec fn fresh_nodes(before: Seq<Option<NodeView>>, after: Seq<Option<NodeView>>, s: Set<NodeKey>) -> bool {
    forall|x: NodeKey| #[trigger] s.contains(x) ==> live(after, x as int) && !live(before, x as int)
}

/// One more built child: the children built so far and the new one, each kept in shape by
/// the steps since, make up the longer prefix.
proof fn lemma_built_step(
    before: Seq<Option<NodeView>>,
    mid: Seq<Option<NodeView>>,
    ns: Seq<Option<NodeView>>,
    key: NodeKey,
    child: NodeKey,
    cs: Set<NodeKey>,
    si: Set<NodeKey>,
    ts: Seq<TemplateNode>,
    t: TemplateNode,
)
    requires
        built_all(before, node(before, key as int).children, ts, cs),
        built_in(mid, child, t, si),
        keeps_shape(before, mid, cs),
        keeps_shape(before, ns, cs),
        keeps_shape(mid, ns, si),
        node(mid, key as int) == node(before, key as int),
        node(ns, key as int).kind == node(before, key as int).kind,
        node(mid, child as int).parent is None,
        node(ns, key as int).children == node(before, key as int).children.push(child),
    ensures
        built_all(ns, node(ns, key as int).children, ts.push(t), cs + si),
        children_effects(ns, key, node(ns, key as int).children, ts.push(t)) == children_effects(
            before,
            key,
            node(before, key as int).children,
            ts,
        ) + built_effects(mid, child, t) + applied(attach_ops(mid, key, child, node(before, key as int).children.len() as int)),
{
    let pc = node(before, key as int).children;
    lemma_built_all_frame(before, ns, key, pc, ts, cs);
    lemma_built_all_mono(ns, pc, ts, cs, cs + si);
    lemma_built_frame(mid, ns, child, t, si);
    lemma_built_mono(ns, child, t, si, cs + si);
    let keys = node(ns, key as int).children;
    assert(keys.drop_last() == pc);
    assert(ts.push(t).drop_last() == ts);
    assert(keys.last() == child);
    assert(ts.push(t).last() == t);
    assert(si.contains(child));
    lemma_built_all_members(before, pc, ts, cs);
    lemma_count_frame(before, ns, pc, cs);
    lemma_count_frame(before, mid, pc, cs);
    assert(detached(mid, child) == mid);
    assert(pc.take(insert_position(pc.len(), pc.len() as int)) == pc);
    assert(built_insert(ns, key, pc, child) == applied(attach_ops(mid, key, child, pc.len() as int)));
}

/// Every node of `s` is still live in `ns2`, with the kind and children it had in `ns`.
pub open spec fn keeps_shape(ns: Seq<Option<NodeView>>, ns2: Seq<Option<NodeView>>, s: Set<NodeKey>) -> bool {
    forall|x: NodeKey| #[trigger] s.contains(x) ==> live(ns2, x as int) && node(ns2, x as int).kind == node(ns, x as int).kind
        && node(ns2, x as int).children == node(ns, x as int).children
}

proof fn lemma_built_frame(ns: Seq<Option<NodeView>>, ns2: Seq<Option<NodeView>>, key: NodeKey, t: TemplateNode, s: Set<NodeKey>)
    requires
        built_in(ns, key, t, s),
        keeps_shape(ns, ns2, s),
    ensures
        built_in(ns2, key, t, s),
        built_effects(ns2, key, t) == built_effects(ns, key, t),
    decreases t,
{
    assert(s.contains(key));
    match t {
        TemplateNode::Element { children, .. } => {
            assert(decreases_to!(t => t->children));
            assert(decreases_to!(t->children => t->children@));
            lemma_built_all_frame(ns, ns2, key, node(ns, key as int).children, children@, s);
        },
        _ => {},
    }
}

proof fn lemma_built_all_frame(
    ns: Seq<Option<NodeView>>,
    ns2: Seq<Option<NodeView>>,
    parent: NodeKey,
    keys: Seq<NodeKey>,
    ts: Seq<TemplateNode>,
    s: Set<NodeKey>,
)
    requires
        built_all(ns, keys, ts, s),
        keeps_shape(ns, ns2, s),
        node(ns2, parent as int).kind == node(ns, parent as int).kind,
    ensures
        built_all(ns2, keys, ts, s),
        children_effects(ns2, parent, keys, ts) == children_effects(ns, parent, keys, ts),
    decreases ts,
{
    if ts.len() > 0 {
        assert(decreases_to!(ts => ts.drop_last()));
        assert(decreases_to!(ts => ts[ts.len() - 1]));
        lemma_built_all_frame(ns, ns2, parent, keys.drop_last(), ts.drop_last(), s);
        lemma_built_frame(ns, ns2, keys.last(), ts.last(), s);
        lemma_built_all_members(ns, keys.drop_last(), ts.drop_last(), s);
        lemma_count_frame(ns, ns2, keys.drop_last(), s);
        assert(s.contains(keys.last()));
    }
}

/// Every key of a built prefix belongs to its set.
proof fn lemma_built_all_members(ns: Seq<Option<NodeView>>, keys: Seq<NodeKey>, ts: Seq<TemplateNode>, s: Set<NodeKey>)
    requires
        built_all(ns, keys, ts, s),
    ensures
        forall|i: int| 0 <= i < keys.len() ==> s.contains(#[trigger] keys[i]),
    decreases ts,
{
    if ts.len() > 0 {
        assert(decreases_to!(ts => ts.drop_last()));
        lemma_built_all_members(ns, keys.drop_last(), ts.drop_last(), s);
        assert forall|i: int| 0 <= i < keys.len() implies s.contains(#[trigger] keys[i]) by {
            if i < keys.len() - 1 {
                assert(keys[i] == keys.drop_last()[i]);
            } else {
                assert(keys[i] == keys.last());
                assert(built_in(ns, keys.last(), ts.last(), s));
            }
        }
    }
}

/// Counting laid-out nodes reads only the kinds of the nodes counted.
proof fn lemma_count_frame(ns: Seq<Option<NodeView>>, ns2: Seq<Option<NodeView>>, keys: Seq<NodeKey>, s: Set<NodeKey>)
    requires
        forall|i: int| 0 <= i < keys.len() ==> s.contains(#[trigger] keys[i]),
        keeps_shape(ns, ns2, s),
    ensures
        count_laid_out(ns2, keys) == count_laid_out(ns, keys),
    decreases keys.len(),
{
    if keys.len() > 0 {
        assert forall|i: int| 0 <= i < keys.drop_last().len() implies s.contains(#[trigger] keys.drop_last()[i]) by {
            assert(keys.drop_last()[i] == keys[i]);
        }
        lemma_count_frame(ns, ns2, keys.drop_last(), s);
        assert(s.contains(keys[keys.len() - 1]));
    }
}

proof fn lemma_built_mono(ns: Seq<Option<NodeView>>, key: NodeKey, t: TemplateNode, s: Set<NodeKey>, s2: Set<NodeKey>)
    requires
        built_in(ns, key, t, s),
        s.subset_of(s2),
    ensures
        built_in(ns, key, t, s2),
    decreases t,
{
    match t {
        TemplateNode::Element { children, .. } => {
            assert(decreases_to!(t => t->children));
            assert(decreases_to!(t->children => t->children@));
            lemma_built_all_mono(ns, node(ns, key as int).children, children@, s, s2);
        },
        _ => {},
    }
}

proof fn lemma_built_all_mono(ns: Seq<Option<NodeView>>, keys: Seq<NodeKey>, ts: Seq<TemplateNode>, s: Set<NodeKey>, s2: Set<NodeKey>)
    requires
        built_all(ns, keys, ts, s),
        s.subset_of(s2),
    ensures
        built_all(ns, keys, ts, s2),
    decreases ts,
{
    if ts.len() > 0 {
        assert(decreases_to!(ts => ts.drop_last()));
        assert(decreases_to!(ts => ts[ts.len() - 1]));
        lemma_built_all_mono(ns, keys.drop_last(), ts.drop_last(), s, s2);
        lemma_built_mono(ns, keys.last(), ts.last(), s, s2);
    }
}

} // verus!
