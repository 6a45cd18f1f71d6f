use vstd::prelude::*;
use crate::props::{Border, Overflow, XYProps};
use crate::props::effective_overflow;
use crate::style::{Color, Style};
use crate::text::TextWrap;

verus! {

/// The index of a node's slot in the arena.
pub type NodeKey = usize;

/// What a node is, as plain values.
pub enum Kind {
    Block { border: Border, bg_color: Color, overflow: Overflow },
    Text { style: Style, wrap: TextWrap },
    RawText { content: Seq<char> },
    Placeholder,
}

/// A node as plain values: what it is, its parent and its children in order.
pub struct NodeView {
    pub kind: Kind,
    pub parent: Option<NodeKey>,
    pub children: Seq<NodeKey>,
}

/// A node of the rendered tree.
#[derive(Clone, Debug, PartialEq, Eq)]
pub enum RealNode {
    /// A box with optional border and background; `overflow` says whether it clips its
    /// children when painting.
    Block {
        parent: Option<NodeKey>,
        children: Vec<NodeKey>,
        border: Border,
        bg_color: Color,
        overflow: Overflow,
    },
    /// A paragraph; its children (bare text or nested `Text` spans) are inline content.
    Text { parent: Option<NodeKey>, children: Vec<NodeKey>, style: Style, wrap: TextWrap },
    /// Bare text content, folded into the nearest ancestor `Text` when painting.
    RawText { parent: Option<NodeKey>, content: String },
    /// An empty dynamic slot.
    Placeholder { parent: Option<NodeKey>, children: Vec<NodeKey> },
}

impl RealNode {
    pub open spec fn view(&self) -> NodeView {
        match self {
            RealNode::Block { parent, children, border, bg_color, overflow } => NodeView {
                kind: Kind::Block { border: *border, bg_color: *bg_color, overflow: *overflow },
                parent: *parent,
                children: children@,
            },
            RealNode::Text { parent, children, style, wrap } => NodeView {
                kind: Kind::Text { style: *style, wrap: *wrap },
                parent: *parent,
                children: children@,
            },
            RealNode::RawText { parent, content } => NodeView {
                kind: Kind::RawText { content: content@ },
                parent: *parent,
                children: Seq::empty(),
            },
            RealNode::Placeholder { parent, children } => NodeView {
                kind: Kind::Placeholder,
                parent: *parent,
                children: children@,
            },
        }
    }

    /// A fresh block as plain values.
    pub open spec fn block_view() -> NodeView {
        NodeView {
            kind: Kind::Block { border: Border { style: None }, bg_color: Color::Reset, overflow: Overflow::Visible },
            parent: None,
            children: Seq::empty(),
        }
    }

    /// A fresh text node as plain values.
    pub open spec fn text_view() -> NodeView {
        NodeView { kind: Kind::Text { style: crate::style::plain_style(), wrap: TextWrap::Wrap }, parent: None, children: Seq::empty() }
    }

    /// A fresh placeholder as plain values.
    pub open spec fn placeholder_view() -> NodeView {
        NodeView { kind: Kind::Placeholder, parent: None, children: Seq::empty() }
    }

    /// Fresh bare text with `content`, as plain values.
    pub open spec fn raw_text_view(content: Seq<char>) -> NodeView {
        NodeView { kind: Kind::RawText { content }, parent: None, children: Seq::empty() }
    }

    /// A fresh block: no parent, no children, no border, the default background, visible
    /// overflow.
    pub fn block() -> (n: RealNode)
        ensures
            n.view() == RealNode::block_view(),
    {
        RealNode::Block {
            parent: None,
            children: Vec::new(),
            border: Border::new(None),
            bg_color: Color::Reset,
            overflow: Overflow::Visible,
        }
    }

    /// A fresh text node: no parent, no children, plain style, word wrap.
    pub fn text() -> (n: RealNode)
        ensures
            n.view() == RealNode::text_view(),
    {
        RealNode::Text { parent: None, children: Vec::new(), style: Style::new(), wrap: TextWrap::Wrap }
    }

    /// A fresh placeholder: no parent, no children.
    pub fn placeholder() -> (n: RealNode)
        ensures
            n.view() == RealNode::placeholder_view(),
    {
        RealNode::Placeholder { parent: None, children: Vec::new() }
    }

    /// Fresh bare text with `content`, no parent.
    pub fn raw_text(content: String) -> (n: RealNode)
        ensures
            n.view() == RealNode::raw_text_view(content@),
    {
        RealNode::RawText { parent: None, content }
    }

    pub fn parent(&self) -> (p: Option<NodeKey>)
        ensures
            p == self.view().parent,
    {
        match self {
            RealNode::Block { parent, .. } => *parent,
            RealNode::Text { parent, .. } => *parent,
            RealNode::RawText { parent, .. } => *parent,
            RealNode::Placeholder { parent, .. } => *parent,
        }
    }

    pub fn set_parent(&mut self, new_parent: Option<NodeKey>)
        ensures
            final(self).view() == (NodeView { parent: new_parent, ..old(self).view() }),
    {
        match self {
            RealNode::Block { parent, .. } => *parent = new_parent,
            RealNode::Text { parent, .. } => *parent = new_parent,
            RealNode::RawText { parent, .. } => *parent = new_parent,
            RealNode::Placeholder { parent, .. } => *parent = new_parent,
        }
    }

    /// The children, for every kind but bare text (which has none and no list to hold them).
    pub fn children(&self) -> (c: Option<&Vec<NodeKey>>)
        ensures
            match c {
                Some(v) => !(self.view().kind is RawText) && v@ == self.view().children,
                None => self.view().kind is RawText,
            },
    {
        match self {
            RealNode::Block { children, .. } => Some(children),
            RealNode::Text { children, .. } => Some(children),
            RealNode::RawText { .. } => None,
            RealNode::Placeholder { children, .. } => Some(children),
        }
    }

    /// Whether the node takes part in layout (everything but bare text).
    pub fn has_layout(&self) -> (b: bool)
        ensures
            b == !(self.view().kind is RawText),
    {
        match self {
            RealNode::RawText { .. } => false,
            _ => true,
        }
    }

    /// Whether the node is a `Text` paragraph.
    pub fn is_text(&self) -> (b: bool)
        ensures
            b == (self.view().kind is Text),
    {
        match self {
            RealNode::Text { .. } => true,
            _ => false,
        }
    }

    /// Replaces the children list (no effect on bare text).
    fn set_children(&mut self, new_children: Vec<NodeKey>)
        ensures
            final(self).view() == if old(self).view().kind is RawText {
                old(self).view()
            } else {
                NodeView { children: new_children@, ..old(self).view() }
            },
    {
        match self {
            RealNode::Block { children, .. } => *children = new_children,
            RealNode::Text { children, .. } => *children = new_children,
            RealNode::RawText { .. } => {},
            RealNode::Placeholder { children, .. } => *children = new_children,
        }
    }
}

/// `s` with every occurrence of `x` dropped.
pub open spec fn without(s: Seq<NodeKey>, x: NodeKey) -> Seq<NodeKey>
    decreases s.len(),
{
    if s.len() == 0 {
        s
    } else if s.last() == x {
        without(s.drop_last(), x)
    } else {
        without(s.drop_last(), x).push(s.last())
    }
}

pub proof fn lemma_without(s: Seq<NodeKey>, x: NodeKey)
    ensures
        forall|y: NodeKey| without(s, x).contains(y) <==> (s.contains(y) && y != x),
        s.no_duplicates() ==> without(s, x).no_duplicates(),
        !s.contains(x) ==> without(s, x) == s,
    decreases s.len(),
{
    if s.len() > 0 {
        let p = s.drop_last();
        lemma_without(p, x);
        assert forall|y: NodeKey| without(s, x).contains(y) <==> (s.contains(y) && y != x) by {
            let w = without(p, x);
            if s.contains(y) && y != x {
                let i = choose|i: int| 0 <= i < s.len() && s[i] == y;
                if i < s.len() - 1 {
                    assert(p[i] == y);
                    assert(p.contains(y));
                    assert(w.contains(y));
                    if s.last() != x {
                        let j = choose|j: int| 0 <= j < w.len() && w[j] == y;
                        assert(w.push(s.last())[j] == y);
                    }
                } else {
                    assert(s.last() == y);
                    assert(w.push(s.last())[w.len() as int] == y);
                }
            }
            if without(s, x).contains(y) {
                if s.last() == x {
                    assert(w.contains(y));
                } else {
                    let j = choose|j: int| 0 <= j < w.push(s.last()).len() && w.push(s.last())[j] == y;
                    if j < w.len() {
                        assert(w[j] == y);
                        assert(w.contains(y));
                    } else {
                        assert(s[s.len() - 1] == y);
                    }
                }
                if w.contains(y) {
                    assert(p.contains(y));
                    let i = choose|i: int| 0 <= i < p.len() && p[i] == y;
                    assert(s[i] == y);
                }
            }
        }
        if s.no_duplicates() {
            assert(p.no_duplicates()) by {
                assert forall|i: int, j: int| 0 <= i < p.len() && 0 <= j < p.len() && i != j implies p[i] != p[j] by {
                    assert(p[i] == s[i] && p[j] == s[j]);
                }
            }
            if s.last() != x {
                assert(!p.contains(s.last())) by {
                    if p.contains(s.last()) {
                        let i = choose|i: int| 0 <= i < p.len() && p[i] == s.last();
                        assert(s[i] == s[s.len() - 1]);
                    }
                }
                assert(!without(p, x).contains(s.last()));
                let w = without(p, x);
                assert forall|i: int, j: int| 0 <= i < w.push(s.last()).len() && 0 <= j < w.push(s.last()).len() && i != j
                    implies w.push(s.last())[i] != w.push(s.last())[j] by {
                    if i == w.len() {
                        assert(w.contains(w.push(s.last())[j]) || j == w.len());
                    } else if j == w.len() {
                        assert(w.contains(w.push(s.last())[i]));
                    }
                }
            }
        }
        if !s.contains(x) {
            assert(!p.contains(x)) by {
                if p.contains(x) {
                    let i = choose|i: int| 0 <= i < p.len() && p[i] == x;
                    assert(s[i] == x);
                }
            }
            assert(s.last() != x);
            assert(without(s, x) =~= s);
        }
    }
}

/// `without`, computed.
fn vec_without(v: &Vec<NodeKey>, x: NodeKey) -> (out: Vec<NodeKey>)
    ensures
        out@ == without(v@, x),
{
    let mut out: Vec<NodeKey> = Vec::new();
    let mut i: usize = 0;
    while i < v.len()
        invariant
            i <= v.len(),
            out@ == without(v@.take(i as int), x),
        decreases v.len() - i,
    {
        assert(v@.take(i + 1).drop_last() =~= v@.take(i as int));
        if v[i] != x {
            out.push(v[i]);
        }
        i += 1;
    }
    assert(v@.take(v.len() as int) =~= v@);
    out
}

} // verus!

verus! {

/// A change the layout tree has to mirror: a child inserted at a position among its parent's
/// laid-out children, or removed from its parent.
#[derive(PartialEq, Eq, Structural, Clone, Copy, Debug)]
pub enum LayoutOp {
    Insert { parent: NodeKey, child: NodeKey, index: usize },
    Remove { parent: NodeKey, child: NodeKey },
}

pub open spec fn slot_view(o: Option<RealNode>) -> Option<NodeView> {
    match o {
        Some(n) => Some(n.view()),
        None => None,
    }
}

/// Whether slot `k` holds a node.
pub open spec fn live(ns: Seq<Option<NodeView>>, k: int) -> bool {
    0 <= k < ns.len() && ns[k] is Some
}

/// The node in slot `k`.
pub open spec fn node(ns: Seq<Option<NodeView>>, k: int) -> NodeView {
    ns[k].unwrap()
}

/// Parent and child links agree: a node's parent is a different live node listing it as a
/// child, every listed child is live and names that node as its parent, and no child is listed
/// twice.
pub open spec fn tree_wf(ns: Seq<Option<NodeView>>) -> bool {
    &&& forall|k: NodeKey| #[trigger] live(ns, k as int) ==> match node(ns, k as int).parent {
        Some(p) => p != k && live(ns, p as int) && node(ns, p as int).children.contains(k),
        None => true,
    }
    &&& forall|p: NodeKey, i: int|
        live(ns, p as int) && 0 <= i < node(ns, p as int).children.len() ==> live(ns, #[trigger] node(ns, p as int).children[i] as int)
            && node(ns, node(ns, p as int).children[i] as int).parent == Some(p)
    &&& forall|p: NodeKey| #[trigger] live(ns, p as int) ==> node(ns, p as int).children.no_duplicates()
}

/// The free list names distinct empty slots.
pub open spec fn free_wf(ns: Seq<Option<NodeView>>, free: Seq<NodeKey>) -> bool {
    &&& free.no_duplicates()
    &&& forall|i: int| 0 <= i < free.len() ==> #[trigger] free[i] < ns.len() && ns[free[i] as int] is None
}

/// The nodes after `child` is detached from its parent: the parent no longer lists it and it
/// has no parent.
pub open spec fn detached(ns: Seq<Option<NodeView>>, child: NodeKey) -> Seq<Option<NodeView>> {
    match node(ns, child as int).parent {
        None => ns,
        Some(p) => ns.update(
            p as int,
            Some(NodeView { children: without(node(ns, p as int).children, child), ..node(ns, p as int) }),
        ).update(child as int, Some(NodeView { parent: None, ..node(ns, child as int) })),
    }
}

/// The layout change detaching `child` needs: a removal, unless the parent is a `Text` (whose
/// children never enter the layout tree) or the child is bare text (which has no layout node).
pub open spec fn detach_op(ns: Seq<Option<NodeView>>, child: NodeKey) -> Option<LayoutOp> {
    match node(ns, child as int).parent {
        None => None,
        Some(p) => if node(ns, p as int).kind is Text || node(ns, child as int).kind is RawText {
            None
        } else {
            Some(LayoutOp::Remove { parent: p, child })
        },
    }
}

/// How many of `keys` name nodes that take part in layout.
pub open spec fn count_laid_out(ns: Seq<Option<NodeView>>, keys: Seq<NodeKey>) -> nat
    decreases keys.len(),
{
    if keys.len() == 0 {
        0
    } else {
        count_laid_out(ns, keys.drop_last()) + if node(ns, keys.last() as int).kind is RawText { 0nat } else { 1nat }
    }
}

/// The tree of nodes, stored in slots that are reused once freed.
pub struct Arena {
    pub slots: Vec<Option<RealNode>>,
    pub free: Vec<NodeKey>,
}

impl Arena {
    pub open spec fn nodes(&self) -> Seq<Option<NodeView>> {
        self.slots@.map_values(|o: Option<RealNode>| slot_view(o))
    }

    pub open spec fn wf(&self) -> bool {
        tree_wf(self.nodes()) && free_wf(self.nodes(), self.free@)
    }

    /// An empty arena.
    pub fn new() -> (a: Arena)
        ensures
            a.wf(),
            a.nodes() == Seq::<Option<NodeView>>::empty(),
            a.free@ == Seq::<NodeKey>::empty(),
    {
        let a = Arena { slots: Vec::new(), free: Vec::new() };
        assert(a.nodes() =~= Seq::<Option<NodeView>>::empty());
        a
    }

    /// Stores a fresh node (no parent, no children), reusing the most recently freed slot if
    /// there is one, and returns its key.
    pub fn insert(&mut self, n: RealNode) -> (key: NodeKey)
        requires
            old(self).wf(),
            n.view().parent is None,
            n.view().children.len() == 0,
        ensures
            final(self).wf(),
            !live(old(self).nodes(), key as int),
            old(self).free@.len() > 0 ==> key == old(self).free@.last() && final(self).free@ == old(self).free@.drop_last()
                && final(self).nodes() == old(self).nodes().update(key as int, Some(n.view())),
            old(self).free@.len() == 0 ==> key == old(self).nodes().len() && final(self).free@ == old(self).free@
                && final(self).nodes() == old(self).nodes().push(Some(n.view())),
    {
        let ghost v = n.view();
        let ghost ns0 = self.nodes();
        if self.free.len() > 0 {
            let key = self.free.pop().unwrap();
            assert(old(self).free@[old(self).free@.len() - 1] == key);
            self.slots[key] = Some(n);
            assert(self.nodes() =~= ns0.update(key as int, Some(v)));
            proof {
                let ns = self.nodes();
                assert forall|k: NodeKey| #[trigger] live(ns, k as int) implies match node(ns, k as int).parent {
                    Some(p) => p != k && live(ns, p as int) && node(ns, p as int).children.contains(k),
                    None => true,
                } by {
                    if k != key {
                        assert(live(ns0, k as int));
                    }
                }
                assert forall|p: NodeKey, i: int|
                    live(ns, p as int) && 0 <= i < node(ns, p as int).children.len() implies live(ns, #[trigger] node(ns, p as int).children[i] as int)
                        && node(ns, node(ns, p as int).children[i] as int).parent == Some(p) by {
                    assert(p != key);
                    assert(live(ns0, p as int));
                    assert(node(ns0, p as int).children[i] == node(ns, p as int).children[i]);
                }
                assert forall|p: NodeKey| #[trigger] live(ns, p as int) implies node(ns, p as int).children.no_duplicates() by {
                    if p != key {
                        assert(live(ns0, p as int));
                    }
                }
                let f = self.free@;
                assert forall|i: int| 0 <= i < f.len() implies #[trigger] f[i] < ns.len() && ns[f[i] as int] is None by {
                    assert(f[i] == old(self).free@[i]);
                    assert(f[i] != key);
                }
            }
            key
        } else {
            self.slots.push(Some(n));
            let key = self.slots.len() - 1;
            assert(self.nodes() =~= ns0.push(Some(v)));
            proof {
                let ns = self.nodes();
                assert forall|k: NodeKey| #[trigger] live(ns, k as int) implies match node(ns, k as int).parent {
                    Some(p) => p != k && live(ns, p as int) && node(ns, p as int).children.contains(k),
                    None => true,
                } by {
                    if k != key {
                        assert(live(ns0, k as int));
                    }
                }
                assert forall|p: NodeKey, i: int|
                    live(ns, p as int) && 0 <= i < node(ns, p as int).children.len() implies live(ns, #[trigger] node(ns, p as int).children[i] as int)
                        && node(ns, node(ns, p as int).children[i] as int).parent == Some(p) by {
                    assert(p != key);
                    assert(live(ns0, p as int));
                    assert(node(ns0, p as int).children[i] == node(ns, p as int).children[i]);
                }
                assert forall|p: NodeKey| #[trigger] live(ns, p as int) implies node(ns, p as int).children.no_duplicates() by {
                    if p != key {
                        assert(live(ns0, p as int));
                    }
                }
            }
            key
        }
    }

    /// The node at `key`.
    pub fn get(&self, key: NodeKey) -> (n: &RealNode)
        requires
            live(self.nodes(), key as int),
        ensures
            n.view() == node(self.nodes(), key as int),
    {
        self.slots[key].as_ref().unwrap()
    }

    /// Takes the node out of its slot, leaving it empty.
    fn take(&mut self, key: NodeKey) -> (n: RealNode)
        requires
            live(old(self).nodes(), key as int),
        ensures
            n.view() == node(old(self).nodes(), key as int),
            final(self).nodes() == old(self).nodes().update(key as int, None),
            final(self).free@ == old(self).free@,
    {
        let n = self.slots[key].take().unwrap();
        assert(self.nodes() =~= old(self).nodes().update(key as int, None));
        n
    }

    /// Puts a node into slot `key`.
    fn put_back(&mut self, key: NodeKey, n: RealNode)
        requires
            key < old(self).nodes().len(),
        ensures
            final(self).nodes() == old(self).nodes().update(key as int, Some(n.view())),
            final(self).free@ == old(self).free@,
    {
        self.slots[key] = Some(n);
        assert(self.nodes() =~= old(self).nodes().update(key as int, Some(n.view())));
    }
}

} // verus!

verus! {

proof fn lemma_detached_wf(ns: Seq<Option<NodeView>>, free: Seq<NodeKey>, c: NodeKey)
    requires
        tree_wf(ns),
        free_wf(ns, free),
        live(ns, c as int),
    ensures
        tree_wf(detached(ns, c)),
        free_wf(detached(ns, c), free),
        detached(ns, c).len() == ns.len(),
        forall|k: int| #![trigger live(detached(ns, c), k)] live(detached(ns, c), k) <==> live(ns, k),
        node(detached(ns, c), c as int).parent is None,
        forall|k: int| live(ns, k) ==> (#[trigger] node(detached(ns, c), k)).kind == node(ns, k).kind,
{
    let child = c as int;
    assert(live(ns, child));
    match node(ns, child).parent {
        None => {},
        Some(p) => {
            let d = detached(ns, c);
            let pi = p as int;
            assert(live(ns, pi));
            lemma_without(node(ns, pi).children, c);
            assert forall|k: NodeKey| #[trigger] live(d, k as int) implies match node(d, k as int).parent {
                Some(q) => q != k && live(d, q as int) && node(d, q as int).children.contains(k),
                None => true,
            } by {
                assert(live(ns, k as int));
                if k != c {
                    assert(node(d, k as int).parent == node(ns, k as int).parent);
                    match node(ns, k as int).parent {
                        Some(q) => {
                            assert(live(ns, q as int));
                            if q == p {
                                assert(node(ns, pi).children.contains(k));
                                assert(without(node(ns, pi).children, c).contains(k));
                            } else {
                                assert(node(d, q as int).children == node(ns, q as int).children);
                            }
                        },
                        None => {},
                    }
                }
            }
            assert forall|q: NodeKey, i: int|
                live(d, q as int) && 0 <= i < node(d, q as int).children.len() implies live(d, #[trigger] node(d, q as int).children[i] as int)
                    && node(d, node(d, q as int).children[i] as int).parent == Some(q) by {
                assert(live(ns, q as int));
                let x = node(d, q as int).children[i];
                if q == p {
                    assert(node(d, q as int).children == without(node(ns, pi).children, c));
                    assert(node(d, q as int).children.contains(x));
                    assert(node(ns, pi).children.contains(x) && x != c);
                    let j = choose|j: int| 0 <= j < node(ns, pi).children.len() && node(ns, pi).children[j] == x;
                    assert(node(ns, node(ns, p as int).children[j] as int).parent == Some(p));
                } else {
                    assert(node(d, q as int).children == node(ns, q as int).children);
                    assert(node(ns, node(ns, q as int).children[i] as int).parent == Some(q));
                    assert(x != c) by {
                        if x == c {
                            assert(node(ns, child).parent == Some(q));
                        }
                    }
                }
            }
            assert forall|q: NodeKey| #[trigger] live(d, q as int) implies node(d, q as int).children.no_duplicates() by {
                assert(live(ns, q as int));
            }
            assert forall|i: int| 0 <= i < free.len() implies #[trigger] free[i] < d.len() && d[free[i] as int] is None by {
                assert(ns[free[i] as int] is None);
            }
            assert forall|k: int| live(ns, k) implies (#[trigger] node(d, k)).kind == node(ns, k).kind by {}
        },
    }
}

impl Arena {
    /// Detaches `child` from its parent, if it has one: the parent no longer lists it and it has
    /// no parent. Returns the change the layout tree has to mirror, if any.
    pub fn detach(&mut self, child: NodeKey) -> (op: Option<LayoutOp>)
        requires
            old(self).wf(),
            live(old(self).nodes(), child as int),
        ensures
            final(self).wf(),
            final(self).nodes() == detached(old(self).nodes(), child),
            final(self).free@ == old(self).free@,
            op == detach_op(old(self).nodes(), child),
    {
        let ghost ns = self.nodes();
        proof {
            lemma_detached_wf(ns, self.free@, child);
        }
        let parent = match self.get(child).parent() {
            None => {
                return None;
            },
            Some(p) => p,
        };
        assert(live(ns, parent as int));
        let mut c = self.take(child);
        let parent_is_text = self.get(parent).is_text();
        let mut pnode = self.take(parent);
        let remaining = match pnode.children() {
            Some(ch) => Some(vec_without(ch, child)),
            None => None,
        };
        assert(!(pnode.view().kind is RawText)) by {
            assert(node(ns, parent as int).children.contains(child));
        }
        if let Some(nc) = remaining {
            pnode.set_children(nc);
        }
        let op = if !parent_is_text && c.has_layout() {
            Some(LayoutOp::Remove { parent, child })
        } else {
            None
        };
        self.put_back(parent, pnode);
        c.set_parent(None);
        self.put_back(child, c);
        assert(self.nodes() =~= detached(ns, child));
        op
    }
}

/// The position `child` is inserted at among `parent`'s children: `index`, or the end when
/// `index` is past it.
pub open spec fn insert_position(len: nat, index: int) -> int {
    if index < len { index } else { len as int }
}

/// The nodes after `child` is attached as a child of `parent` at `index`.
pub open spec fn attached(ns: Seq<Option<NodeView>>, parent: NodeKey, child: NodeKey, index: int) -> Seq<Option<NodeView>> {
    let d = detached(ns, child);
    let pc = node(d, parent as int).children;
    d.update(
        parent as int,
        Some(NodeView { children: pc.insert(insert_position(pc.len(), index), child), ..node(d, parent as int) }),
    ).update(child as int, Some(NodeView { parent: Some(parent), ..node(d, child as int) }))
}

/// The layout changes attaching `child` needs: the removal from its old parent, if any, then
/// the insertion among the parent's laid-out children (unless the parent is a `Text`, whose
/// children stay out of the layout tree, or the child is bare text). The layout position
/// counts only the laid-out children before `index`.
pub open spec fn attach_ops(ns: Seq<Option<NodeView>>, parent: NodeKey, child: NodeKey, index: int) -> Seq<LayoutOp> {
    let d = detached(ns, child);
    let pc = node(d, parent as int).children;
    let removal = match detach_op(ns, child) {
        Some(op) => seq![op],
        None => Seq::empty(),
    };
    if node(ns, parent as int).kind is Text || node(ns, child as int).kind is RawText {
        removal
    } else {
        removal.push(
            LayoutOp::Insert {
                parent,
                child,
                index: count_laid_out(d, pc.take(insert_position(pc.len(), index))) as usize,
            },
        )
    }
}

} // verus!

verus! {

/// Attaching a live node to another live node keeps parent and child links in agreement.
pub proof fn lemma_attached_wf_pub(ns: Seq<Option<NodeView>>, parent: NodeKey, child: NodeKey, index: int)
    requires
        0 <= index,
        tree_wf(ns),
        live(ns, parent as int),
        live(ns, child as int),
        parent != child,
    ensures
        tree_wf(attached(ns, parent, child, index)),
{
    lemma_attached_wf(ns, Seq::empty(), parent, child, index);
}

proof fn lemma_attached_wf(ns: Seq<Option<NodeView>>, free: Seq<NodeKey>, parent: NodeKey, child: NodeKey, index: int)
    requires
        0 <= index,
        tree_wf(ns),
        free_wf(ns, free),
        live(ns, parent as int),
        live(ns, child as int),
        parent != child,
    ensures
        tree_wf(attached(ns, parent, child, index)),
        free_wf(attached(ns, parent, child, index), free),
{
    lemma_detached_wf(ns, free, child);
    let d = detached(ns, child);
    let pc = node(d, parent as int).children;
    let pos = insert_position(pc.len(), index);
    let nc = pc.insert(pos, child);
    pc.insert_ensures(pos, child);
    let a = attached(ns, parent, child, index);
    assert(live(d, parent as int) && live(d, child as int));
    assert(!pc.contains(child)) by {
        if pc.contains(child) {
            let i = choose|i: int| 0 <= i < pc.len() && pc[i] == child;
            assert(node(d, node(d, parent as int).children[i] as int).parent == Some(parent));
        }
    }
    assert forall|x: NodeKey| nc.contains(x) <==> (pc.contains(x) || x == child) by {
        if nc.contains(x) {
            let i = choose|i: int| 0 <= i < nc.len() && nc[i] == x;
            if i < pos {
                assert(pc[i] == x);
            } else if i > pos {
                assert(pc[i - 1] == x);
            }
        }
        if pc.contains(x) {
            let i = choose|i: int| 0 <= i < pc.len() && pc[i] == x;
            if i < pos {
                assert(nc[i] == x);
            } else {
                assert(nc[i + 1] == x);
            }
        }
        if x == child {
            assert(nc[pos] == x);
        }
    }
    assert forall|k: NodeKey| #[trigger] live(a, k as int) implies match node(a, k as int).parent {
        Some(p) => p != k && live(a, p as int) && node(a, p as int).children.contains(k),
        None => true,
    } by {
        assert(live(d, k as int));
        if k != child {
            match node(d, k as int).parent {
                Some(q) => {
                    assert(live(d, q as int));
                    assert(node(d, q as int).children.contains(k));
                    if q == parent {
                        assert(nc.contains(k));
                    }
                },
                None => {},
            }
        } else {
            assert(nc.contains(child));
        }
    }
    assert forall|q: NodeKey, i: int|
        live(a, q as int) && 0 <= i < node(a, q as int).children.len() implies live(a, #[trigger] node(a, q as int).children[i] as int)
            && node(a, node(a, q as int).children[i] as int).parent == Some(q) by {
        assert(live(d, q as int));
        let x = node(a, q as int).children[i];
        if q == parent {
            assert(nc.contains(x));
            if x != child {
                assert(pc.contains(x));
                let j = choose|j: int| 0 <= j < pc.len() && pc[j] == x;
                assert(node(d, node(d, parent as int).children[j] as int).parent == Some(parent));
            }
        } else {
            assert(node(a, q as int).children == node(d, q as int).children);
            assert(node(d, node(d, q as int).children[i] as int).parent == Some(q));
            assert(x != child);
        }
    }
    assert forall|q: NodeKey| #[trigger] live(a, q as int) implies node(a, q as int).children.no_duplicates() by {
        assert(live(d, q as int));
        if q == parent {
            assert forall|i: int, j: int| 0 <= i < nc.len() && 0 <= j < nc.len() && i != j implies nc[i] != nc[j] by {
                if nc[i] == nc[j] {
                    if i == pos {
                        assert(pc.contains(nc[j])) by {
                            if j < pos { assert(pc[j] == nc[j]); } else { assert(pc[j - 1] == nc[j]); }
                        }
                    } else if j == pos {
                        assert(pc.contains(nc[i])) by {
                            if i < pos { assert(pc[i] == nc[i]); } else { assert(pc[i - 1] == nc[i]); }
                        }
                    } else {
                        let ii = if i < pos { i } else { i - 1 };
                        let jj = if j < pos { j } else { j - 1 };
                        assert(pc[ii] == nc[i] && pc[jj] == nc[j]);
                    }
                }
            }
        }
    }
    assert forall|i: int| 0 <= i < free.len() implies #[trigger] free[i] < a.len() && a[free[i] as int] is None by {
        assert(d[free[i] as int] is None);
    }
}

fn copy_keys(v: &Vec<NodeKey>) -> (out: Vec<NodeKey>)
    ensures
        out@ == v@,
{
    let mut out: Vec<NodeKey> = Vec::new();
    let mut i: usize = 0;
    while i < v.len()
        invariant
            i <= v.len(),
            out@ == v@.take(i as int),
        decreases v.len() - i,
    {
        out.push(v[i]);
        i += 1;
        assert(out@ =~= v@.take(i as int));
    }
    assert(v@.take(v.len() as int) =~= v@);
    out
}

impl Arena {
    /// Makes `child` the `index`-th child of `parent` (the last one when `index` is past the
    /// end), first detaching it from wherever it was. Returns the changes the layout tree has
    /// to mirror, in order.
    pub fn attach(&mut self, parent: NodeKey, child: NodeKey, index: usize) -> (ops: Vec<LayoutOp>)
        requires
            old(self).wf(),
            live(old(self).nodes(), parent as int),
            live(old(self).nodes(), child as int),
            parent != child,
            !(node(old(self).nodes(), parent as int).kind is RawText),
        ensures
            final(self).wf(),
            final(self).nodes() == attached(old(self).nodes(), parent, child, index as int),
            final(self).free@ == old(self).free@,
            ops@ == attach_ops(old(self).nodes(), parent, child, index as int),
            node(final(self).nodes(), child as int).parent == Some(parent),
            forall|q: NodeKey| #[trigger] live(final(self).nodes(), q as int) && q != parent ==> !node(
                final(self).nodes(),
                q as int,
            ).children.contains(child),
            node(old(self).nodes(), parent as int).children.len() < usize::MAX ==> forall|lt: Map<NodeKey, Seq<NodeKey>>|
                #[trigger] layout_mirrors(old(self).nodes(), lt) ==> layout_mirrors(final(self).nodes(), applied_layout_ops(lt, ops@)),
    {
        let ghost ns = self.nodes();
        proof {
            lemma_detached_wf(ns, self.free@, child);
            lemma_attached_wf(ns, self.free@, parent, child, index as int);
        }
        let mut ops: Vec<LayoutOp> = Vec::new();
        if let Some(op) = self.detach(child) {
            ops.push(op);
        }
        let ghost d = self.nodes();
        assert(live(d, parent as int) && live(d, child as int));
        let parent_is_text = self.get(parent).is_text();
        let pc = match self.get(parent).children() {
            Some(ch) => copy_keys(ch),
            None => Vec::new(),
        };
        assert(pc@ == node(d, parent as int).children);
        let at = if index < pc.len() { index } else { pc.len() };
        let mut yoga_index: usize = 0;
        if !parent_is_text {
            let mut i: usize = 0;
            while i < at
                invariant
                    self.wf(),
                    self.nodes() == d,
                    pc@ == node(d, parent as int).children,
                    live(d, parent as int),
                    at <= pc.len(),
                    i <= at,
                    yoga_index == count_laid_out(d, pc@.take(i as int)),
                    yoga_index <= i,
                decreases at - i,
            {
                assert(pc@.take(i + 1).drop_last() =~= pc@.take(i as int));
                assert(live(d, pc@[i as int] as int)) by {
                    assert(live(d, node(d, parent as int).children[i as int] as int));
                }
                if self.get(pc[i]).has_layout() {
                    yoga_index += 1;
                }
                i += 1;
            }
        }
        let mut c = self.take(child);
        c.set_parent(Some(parent));
        let mut pnode = self.take(parent);
        let mut nc = pc;
        nc.insert(at, child);
        pnode.set_children(nc);
        if !parent_is_text && c.has_layout() {
            ops.push(LayoutOp::Insert { parent, child, index: yoga_index });
        }
        self.put_back(parent, pnode);
        self.put_back(child, c);
        assert(self.nodes() =~= attached(ns, parent, child, index as int));
        assert(ops@ =~= attach_ops(ns, parent, child, index as int));
        proof {
            let a = self.nodes();
            assert forall|q: NodeKey| #[trigger] live(a, q as int) && q != parent implies !node(a, q as int).children.contains(child) by {
                if node(a, q as int).children.contains(child) {
                    let i = choose|i: int| 0 <= i < node(a, q as int).children.len() && #[trigger] node(a, q as int).children[i] == child;
                    assert(node(a, node(a, q as int).children[i] as int).parent == Some(q));
                }
            }
            if node(ns, parent as int).children.len() < usize::MAX {
                assert forall|lt: Map<NodeKey, Seq<NodeKey>>| #[trigger] layout_mirrors(ns, lt) implies layout_mirrors(a, applied_layout_ops(lt, ops@)) by {
                    lemma_attach_keeps_layout_mirror(ns, lt, parent, child, index as int);
                }
            }
        }
        ops
    }

    /// Detaches `key` from its parent, then drops it and every node below it, freeing their
    /// slots. Returns the layout change the detaching needs (if any) and the keys dropped, in
    /// the order their slots were freed (each node after the nodes below it).
    pub fn remove_subtree(&mut self, key: NodeKey) -> (res: (Option<LayoutOp>, Vec<NodeKey>))
        requires
            old(self).wf(),
            live(old(self).nodes(), key as int),
        ensures
            final(self).wf(),
            res.0 == detach_op(old(self).nodes(), key),
            removed_subtree(detached(old(self).nodes(), key), key, res.1@),
            final(self).nodes().len() == old(self).nodes().len(),
            forall|k: NodeKey| (k as int) < old(self).nodes().len() ==> #[trigger] final(self).nodes()[k as int] == if res.1@.contains(k) {
                None
            } else {
                detached(old(self).nodes(), key)[k as int]
            },
            final(self).free@ == old(self).free@ + res.1@,
    {
        let op = self.detach(key);
        let ghost d = self.nodes();
        let mut removed: Vec<NodeKey> = Vec::new();
        let ghost start: Seq<NodeKey> = seq![key];
        let ghost base = self.free@;
        proof {
            lemma_root_path_bound(d, start);
        }
        assert(start.drop_last() =~= Seq::<NodeKey>::empty());
        assert forall|k: NodeKey| (k as int) < d.len() implies #[trigger] self.nodes()[k as int] == if removed@.contains(k)
            || start.drop_last().contains(k) {
            None
        } else {
            d[k as int]
        } by {}
        self.remove_subtree_inner(key, Ghost(d), Ghost(start), Ghost(base), &mut removed);
        proof {
            assert(removed@.skip(0) =~= removed@);
            assert(removed@.take(0) =~= Seq::<NodeKey>::empty());
            lemma_detached_wf(old(self).nodes(), base, key);
            lemma_remove_subtree_wf(d, base, key, removed@, self.nodes());
        }
        (op, removed)
    }
}

} // verus!

verus! {

/// `q` is the chain of nodes from a parentless node down to `q.last()`, each the parent of the
/// next.
pub open spec fn root_path(ns: Seq<Option<NodeView>>, q: Seq<NodeKey>) -> bool {
    &&& q.len() >= 1
    &&& forall|i: int| 0 <= i < q.len() ==> live(ns, #[trigger] q[i] as int)
    &&& node(ns, q[0] as int).parent is None
    &&& forall|i: int| 1 <= i < q.len() ==> node(ns, #[trigger] q[i] as int).parent == Some(q[i - 1])
}

/// `x` lies in the subtree below `key` (or is `key`): the chain from its root passes `key`.
pub open spec fn under(ns: Seq<Option<NodeView>>, x: NodeKey, key: NodeKey) -> bool {
    exists|q: Seq<NodeKey>| #[trigger] root_path(ns, q) && q.last() == x && q.contains(key)
}

/// `list` names each node of the subtree below `key` (`key` included) exactly once.
pub open spec fn removed_subtree(ns: Seq<Option<NodeView>>, key: NodeKey, list: Seq<NodeKey>) -> bool {
    &&& list.no_duplicates()
    &&& forall|x: NodeKey| list.contains(x) <==> under(ns, x, key)
}

proof fn lemma_root_path_distinct_from(ns: Seq<Option<NodeView>>, q: Seq<NodeKey>, i: int, j: int)
    requires
        root_path(ns, q),
        0 <= i < j < q.len(),
    ensures
        q[i] != q[j],
    decreases i,
{
    if q[i] == q[j] {
        assert(node(ns, q[j] as int).parent == Some(q[j - 1]));
        if i == 0 {
        } else {
            assert(node(ns, q[i] as int).parent == Some(q[i - 1]));
            lemma_root_path_distinct_from(ns, q, i - 1, j - 1);
        }
    }
}

proof fn lemma_root_path_distinct(ns: Seq<Option<NodeView>>, q: Seq<NodeKey>)
    requires
        root_path(ns, q),
    ensures
        q.no_duplicates(),
{
    assert forall|i: int, j: int| 0 <= i < q.len() && 0 <= j < q.len() && i != j implies q[i] != q[j] by {
        if i < j {
            lemma_root_path_distinct_from(ns, q, i, j);
        } else {
            lemma_root_path_distinct_from(ns, q, j, i);
        }
    }
}

/// A chain of distinct nodes is no longer than the number of slots.
pub proof fn lemma_root_path_bound(ns: Seq<Option<NodeView>>, q: Seq<NodeKey>)
    requires
        root_path(ns, q),
    ensures
        q.len() <= ns.len(),
{
    lemma_root_path_distinct(ns, q);
    let t = q.map_values(|x: NodeKey| x as int);
    assert(t.no_duplicates()) by {
        assert forall|i: int, j: int| 0 <= i < t.len() && 0 <= j < t.len() && i != j implies t[i] != t[j] by {
            assert(t[i] == q[i] as int && t[j] == q[j] as int);
            assert(q[i] != q[j]);
        }
    }
    let range = vstd::set_lib::set_int_range(0, ns.len() as int);
    assert forall|v: int| t.to_set().contains(v) implies range.contains(v) by {
        assert(t.contains(v));
        let i = choose|i: int| 0 <= i < t.len() && t[i] == v;
        assert(live(ns, q[i] as int));
    }
    vstd::set_lib::lemma_int_range(0, ns.len() as int);
    vstd::set_lib::lemma_len_subset(t.to_set(), range);
    t.unique_seq_to_set();
}

proof fn lemma_root_path_unique(ns: Seq<Option<NodeView>>, q1: Seq<NodeKey>, q2: Seq<NodeKey>)
    requires
        root_path(ns, q1),
        root_path(ns, q2),
        q1.last() == q2.last(),
    ensures
        q1 == q2,
    decreases q1.len(),
{
    if q1.len() == 1 {
        if q2.len() > 1 {
            assert(node(ns, q2[q2.len() - 1] as int).parent == Some(q2[q2.len() - 2]));
        }
        assert(q1 =~= q2);
    } else {
        assert(node(ns, q1[q1.len() - 1] as int).parent == Some(q1[q1.len() - 2]));
        if q2.len() == 1 {
        } else {
            assert(node(ns, q2[q2.len() - 1] as int).parent == Some(q2[q2.len() - 2]));
            lemma_root_path_prefix(ns, q1);
            lemma_root_path_prefix(ns, q2);
            lemma_root_path_unique(ns, q1.drop_last(), q2.drop_last());
            assert(q1 =~= q1.drop_last().push(q1.last()));
            assert(q2 =~= q2.drop_last().push(q2.last()));
        }
    }
}

proof fn lemma_root_path_prefix(ns: Seq<Option<NodeView>>, q: Seq<NodeKey>)
    requires
        root_path(ns, q),
        q.len() > 1,
    ensures
        root_path(ns, q.drop_last()),
{
    let p = q.drop_last();
    assert forall|i: int| 0 <= i < p.len() implies live(ns, #[trigger] p[i] as int) by {
        assert(p[i] == q[i]);
    }
    assert forall|i: int| 1 <= i < p.len() implies node(ns, #[trigger] p[i] as int).parent == Some(p[i - 1]) by {
        assert(p[i] == q[i] && p[i - 1] == q[i - 1]);
    }
}

pub proof fn lemma_root_path_extend(ns: Seq<Option<NodeView>>, q: Seq<NodeKey>, c: NodeKey)
    requires
        tree_wf(ns),
        root_path(ns, q),
        node(ns, q.last() as int).children.contains(c),
    ensures
        root_path(ns, q.push(c)),
{
    let last = q.last();
    assert(live(ns, q[q.len() - 1] as int));
    let i = choose|i: int| 0 <= i < node(ns, last as int).children.len() && node(ns, last as int).children[i] == c;
    assert(live(ns, node(ns, last as int).children[i] as int));
    let e = q.push(c);
    assert forall|j: int| 0 <= j < e.len() implies live(ns, #[trigger] e[j] as int) by {
        if j < q.len() {
            assert(e[j] == q[j]);
        }
    }
    assert forall|j: int| 1 <= j < e.len() implies node(ns, #[trigger] e[j] as int).parent == Some(e[j - 1]) by {
        if j < q.len() {
            assert(e[j] == q[j] && e[j - 1] == q[j - 1]);
        }
    }
}

/// Nodes on a root path are live.
proof fn lemma_under_live(ns: Seq<Option<NodeView>>, x: NodeKey, key: NodeKey)
    requires
        under(ns, x, key),
    ensures
        live(ns, x as int),
{
    let q = choose|q: Seq<NodeKey>| #[trigger] root_path(ns, q) && q.last() == x && q.contains(key);
    assert(live(ns, q[q.len() - 1] as int));
}

/// The parent of a node lying strictly under `key` lies under `key` too.
proof fn lemma_under_parent(ns: Seq<Option<NodeView>>, c: NodeKey, k: NodeKey, key: NodeKey)
    requires
        under(ns, c, key),
        c != key,
        node(ns, c as int).parent == Some(k),
    ensures
        under(ns, k, key),
{
    let q = choose|q: Seq<NodeKey>| #[trigger] root_path(ns, q) && q.last() == c && q.contains(key);
    if q.len() == 1 {
        assert(q[0] == c);
    } else {
        assert(node(ns, q[q.len() - 1] as int).parent == Some(q[q.len() - 2]));
        lemma_root_path_prefix(ns, q);
        let j = choose|j: int| 0 <= j < q.len() && q[j] == key;
        assert(j != q.len() - 1);
        assert(q.drop_last()[j] == key);
        assert(root_path(ns, q.drop_last()) && q.drop_last().last() == k && q.drop_last().contains(key));
    }
}

/// Dropping a whole subtree (with its root already detached) keeps the arena well formed,
/// the dropped slots joining the free list.
proof fn lemma_remove_subtree_wf(
    d: Seq<Option<NodeView>>,
    free: Seq<NodeKey>,
    key: NodeKey,
    list: Seq<NodeKey>,
    after: Seq<Option<NodeView>>,
)
    requires
        tree_wf(d),
        free_wf(d, free),
        live(d, key as int),
        node(d, key as int).parent is None,
        removed_subtree(d, key, list),
        after.len() == d.len(),
        forall|k: NodeKey| (k as int) < d.len() ==> #[trigger] after[k as int] == if list.contains(k) {
            None
        } else {
            d[k as int]
        },
    ensures
        tree_wf(after),
        free_wf(after, free + list),
{
    assert forall|k: NodeKey| #[trigger] live(after, k as int) implies match node(after, k as int).parent {
        Some(p) => p != k && live(after, p as int) && node(after, p as int).children.contains(k),
        None => true,
    } by {
        assert(!list.contains(k));
        assert(live(d, k as int));
        match node(d, k as int).parent {
            Some(p) => {
                assert(live(d, p as int));
                if list.contains(p) {
                    assert(under(d, p, key));
                    let q = choose|q: Seq<NodeKey>| #[trigger] root_path(d, q) && q.last() == p && q.contains(key);
                    lemma_root_path_extend(d, q, k);
                    let j = choose|j: int| 0 <= j < q.len() && q[j] == key;
                    assert(q.push(k)[j] == key);
                    assert(root_path(d, q.push(k)) && q.push(k).last() == k && q.push(k).contains(key));
                    assert(under(d, k, key));
                }
            },
            None => {},
        }
    }
    assert forall|p: NodeKey, i: int|
        live(after, p as int) && 0 <= i < node(after, p as int).children.len() implies live(after, #[trigger] node(after, p as int).children[i] as int)
            && node(after, node(after, p as int).children[i] as int).parent == Some(p) by {
        assert(!list.contains(p));
        assert(live(d, p as int));
        let c = node(d, p as int).children[i];
        assert(live(d, c as int) && node(d, c as int).parent == Some(p));
        if list.contains(c) {
            assert(under(d, c, key));
            assert(c != key);
            lemma_under_parent(d, c, p, key);
        }
    }
    assert forall|p: NodeKey| #[trigger] live(after, p as int) implies node(after, p as int).children.no_duplicates() by {
        assert(live(d, p as int));
    }
    let f = free + list;
    assert forall|i: int| 0 <= i < f.len() implies #[trigger] f[i] < after.len() && after[f[i] as int] is None by {
        if i < free.len() {
            assert(f[i] == free[i]);
            assert(d[free[i] as int] is None);
        } else {
            assert(f[i] == list[i - free.len()]);
            assert(list.contains(list[i - free.len()]));
            lemma_under_live(d, list[i - free.len()], key);
        }
    }
    assert(f.no_duplicates()) by {
        assert forall|a: int, b: int| 0 <= a < f.len() && 0 <= b < f.len() && a != b implies f[a] != f[b] by {
            if a < free.len() && b >= free.len() {
                assert(list.contains(f[b]));
                lemma_under_live(d, f[b], key);
                assert(d[free[a] as int] is None);
            } else if b < free.len() && a >= free.len() {
                assert(list.contains(f[a]));
                lemma_under_live(d, f[a], key);
                assert(d[free[b] as int] is None);
            } else if a < free.len() {
                assert(f[a] == free[a] && f[b] == free[b]);
            } else {
                assert(f[a] == list[a - free.len()] && f[b] == list[b - free.len()]);
            }
        }
    }
}

/// Lying under a child of `key` means lying under `key`.
proof fn lemma_under_via_parent(ns: Seq<Option<NodeView>>, x: NodeKey, c: NodeKey, key: NodeKey)
    requires
        under(ns, x, c),
        node(ns, c as int).parent == Some(key),
    ensures
        under(ns, x, key),
{
    let q = choose|q: Seq<NodeKey>| #[trigger] root_path(ns, q) && q.last() == x && q.contains(c);
    let a = choose|a: int| 0 <= a < q.len() && q[a] == c;
    if a == 0 {
        assert(node(ns, q[0] as int).parent is None);
    }
    assert(node(ns, q[a] as int).parent == Some(q[a - 1]));
    assert(q.contains(key)) by { assert(q[a - 1] == key); }
}

/// No node lies under two different children of the same node.
proof fn lemma_under_sibling(ns: Seq<Option<NodeView>>, x: NodeKey, c1: NodeKey, c2: NodeKey, key: NodeKey)
    requires
        under(ns, x, c1),
        under(ns, x, c2),
        node(ns, c1 as int).parent == Some(key),
        node(ns, c2 as int).parent == Some(key),
    ensures
        c1 == c2,
{
    let q1 = choose|q: Seq<NodeKey>| #[trigger] root_path(ns, q) && q.last() == x && q.contains(c1);
    let q2 = choose|q: Seq<NodeKey>| #[trigger] root_path(ns, q) && q.last() == x && q.contains(c2);
    lemma_root_path_unique(ns, q1, q2);
    lemma_root_path_distinct(ns, q1);
    let a = choose|a: int| 0 <= a < q1.len() && q1[a] == c1;
    let b = choose|b: int| 0 <= b < q1.len() && q1[b] == c2;
    if a == 0 {
        assert(node(ns, q1[0] as int).parent is None);
    }
    if b == 0 {
        assert(node(ns, q1[0] as int).parent is None);
    }
    assert(node(ns, q1[a] as int).parent == Some(q1[a - 1]));
    assert(node(ns, q1[b] as int).parent == Some(q1[b - 1]));
    if a != b {
        assert(q1[a - 1] != q1[b - 1]);
    }
}

/// A node's own root path never passes one of its children.
proof fn lemma_not_under_child(ns: Seq<Option<NodeView>>, path: Seq<NodeKey>, c: NodeKey)
    requires
        root_path(ns, path),
        node(ns, c as int).parent == Some(path.last()),
    ensures
        !under(ns, path.last(), c),
{
    if under(ns, path.last(), c) {
        let q = choose|q: Seq<NodeKey>| #[trigger] root_path(ns, q) && q.last() == path.last() && q.contains(c);
        lemma_root_path_unique(ns, q, path);
        lemma_root_path_distinct(ns, path);
        let a = choose|a: int| 0 <= a < path.len() && path[a] == c;
        if a == 0 {
            assert(node(ns, path[0] as int).parent is None);
        }
        assert(node(ns, path[a] as int).parent == Some(path[a - 1]));
        assert(path[a - 1] == path[path.len() - 1]);
    }
}

/// A node strictly under `key` lies under one of `key`'s children.
proof fn lemma_under_below(ns: Seq<Option<NodeView>>, x: NodeKey, key: NodeKey) -> (c: NodeKey)
    requires
        tree_wf(ns),
        under(ns, x, key),
        x != key,
    ensures
        node(ns, key as int).children.contains(c),
        under(ns, x, c),
{
    let q = choose|q: Seq<NodeKey>| #[trigger] root_path(ns, q) && q.last() == x && q.contains(key);
    let a = choose|a: int| 0 <= a < q.len() && q[a] == key;
    assert(a < q.len() - 1) by {
        if a == q.len() - 1 {
            assert(q[a] == x);
        }
    }
    let c = q[a + 1];
    assert(node(ns, q[a + 1] as int).parent == Some(q[a]));
    assert(live(ns, q[a + 1] as int));
    assert(q.contains(c));
    c
}

impl Arena {
    fn remove_subtree_inner(
        &mut self,
        key: NodeKey,
        Ghost(orig): Ghost<Seq<Option<NodeView>>>,
        Ghost(path): Ghost<Seq<NodeKey>>,
        Ghost(base): Ghost<Seq<NodeKey>>,
        removed: &mut Vec<NodeKey>,
    )
        requires
            tree_wf(orig),
            root_path(orig, path),
            path.last() == key,
            old(self).nodes().len() == orig.len(),
            forall|k: NodeKey| (k as int) < orig.len() ==> #[trigger] old(self).nodes()[k as int] == if old(removed)@.contains(k)
                || path.drop_last().contains(k) {
                None
            } else {
                orig[k as int]
            },
            forall|r: NodeKey| old(removed)@.contains(r) ==> !under(orig, r, key),
            old(removed)@.no_duplicates(),
            old(self).free@ == base + old(removed)@,
        ensures
            final(self).nodes().len() == orig.len(),
            final(removed)@.len() >= old(removed)@.len(),
            final(removed)@.take(old(removed)@.len() as int) == old(removed)@,
            removed_subtree(orig, key, final(removed)@.skip(old(removed)@.len() as int)),
            final(removed)@.no_duplicates(),
            forall|k: NodeKey| (k as int) < orig.len() ==> #[trigger] final(self).nodes()[k as int] == if final(removed)@.contains(k)
                || path.drop_last().contains(k) {
                None
            } else {
                orig[k as int]
            },
            final(self).free@ == base + final(removed)@,
        decreases orig.len() - path.len(),
    {
        let ghost r0 = removed@;
        proof {
            lemma_root_path_bound(orig, path);
            lemma_root_path_distinct(orig, path);
            assert(live(orig, path[path.len() - 1] as int));
            assert(path[path.len() - 1] == key);
            assert(path.contains(key));
            assert(under(orig, key, key));
            assert(!path.drop_last().contains(key)) by {
                if path.drop_last().contains(key) {
                    let i = choose|i: int| 0 <= i < path.drop_last().len() && path.drop_last()[i] == key;
                    assert(path[i] == path[path.len() - 1]);
                }
            }
        }
        let ghost kids = node(orig, key as int).children;
        let n = self.take(key);
        proof {
            assert forall|k: NodeKey| (k as int) < orig.len() implies #[trigger] self.nodes()[k as int] == if removed@.contains(k)
                || path.contains(k) {
                None
            } else {
                orig[k as int]
            } by {
                assert(path.contains(k) <==> (path.drop_last().contains(k) || k == key)) by {
                    if path.contains(k) {
                        let t = choose|t: int| 0 <= t < path.len() && path[t] == k;
                        if t < path.len() - 1 {
                            assert(path.drop_last()[t] == k);
                        }
                    }
                    if path.drop_last().contains(k) {
                        let t = choose|t: int| 0 <= t < path.drop_last().len() && path.drop_last()[t] == k;
                        assert(path[t] == k);
                    }
                }
            }
            assert(removed@.skip(r0.len() as int) =~= Seq::<NodeKey>::empty());
        }
        let children = match n.children() {
            Some(ch) => copy_keys(ch),
            None => Vec::new(),
        };
        assert(children@ == kids);
        let mut j: usize = 0;
        while j < children.len()
            invariant
                tree_wf(orig),
                root_path(orig, path),
                path.last() == key,
                live(orig, key as int),
                children@ == kids,
                kids == node(orig, key as int).children,
                j <= children.len(),
                self.nodes().len() == orig.len(),
                removed@.len() >= r0.len(),
                removed@.take(r0.len() as int) == r0,
                removed@.no_duplicates(),
                self.free@ == base + removed@,
                forall|r: NodeKey| r0.contains(r) ==> !under(orig, r, key),
                forall|k: NodeKey| (k as int) < orig.len() ==> #[trigger] self.nodes()[k as int] == if removed@.contains(k)
                    || path.contains(k) {
                    None
                } else {
                    orig[k as int]
                },
                forall|x: NodeKey| #[trigger] removed@.skip(r0.len() as int).contains(x) ==> under(orig, x, key) && x != key,
                forall|x: NodeKey| removed@.skip(r0.len() as int).contains(x) <==> exists|i: int|
                    0 <= i < j && #[trigger] under(orig, x, kids[i]),
            decreases children.len() - j,
        {
            let c = children[j];
            let ghost prev = removed@;
            proof {
                assert(kids.contains(c)) by { assert(kids[j as int] == c); }
                lemma_root_path_extend(orig, path, c);
                lemma_root_path_bound(orig, path.push(c));
                assert(path.push(c).drop_last() =~= path);
                assert(live(orig, kids[j as int] as int));
                assert(node(orig, c as int).parent == Some(key));
                assert forall|r: NodeKey| prev.contains(r) implies !under(orig, r, c) by {
                    if under(orig, r, c) {
                        lemma_under_via_parent(orig, r, c, key);
                        if r0.contains(r) {
                        } else {
                            let pos = choose|pos: int| 0 <= pos < prev.len() && prev[pos] == r;
                            assert(prev.skip(r0.len() as int)[pos - r0.len()] == r) by {
                                if pos < r0.len() {
                                    assert(prev.take(r0.len() as int)[pos] == r);
                                    assert(r0.contains(r));
                                }
                            }
                            assert(prev.skip(r0.len() as int).contains(r));
                            let i = choose|i: int| 0 <= i < j && #[trigger] under(orig, r, kids[i]);
                            assert(live(orig, kids[i] as int));
                            assert(node(orig, kids[i] as int).parent == Some(key));
                            lemma_under_sibling(orig, r, c, kids[i], key);
                            assert(kids[i] == kids[j as int]);
                        }
                    }
                }
            }
            self.remove_subtree_inner(c, Ghost(orig), Ghost(path.push(c)), Ghost(base), removed);
            proof {
                let seg = removed@.skip(prev.len() as int);
                assert(removed@.skip(r0.len() as int) =~= prev.skip(r0.len() as int) + seg) by {
                    assert(removed@.take(prev.len() as int) == prev);
                }
                assert(removed@.take(r0.len() as int) =~= r0) by {
                    assert(removed@.take(prev.len() as int) == prev);
                    assert(prev.take(r0.len() as int) == r0);
                }
                assert forall|x: NodeKey| #[trigger] removed@.skip(r0.len() as int).contains(x) implies under(orig, x, key) && x != key by {
                    if !prev.skip(r0.len() as int).contains(x) {
                        assert(seg.contains(x)) by {
                            let i = choose|i: int| 0 <= i < removed@.skip(r0.len() as int).len() && removed@.skip(r0.len() as int)[i] == x;
                            let pl = prev.skip(r0.len() as int).len();
                            assert(seg[i - pl] == x);
                        }
                        assert(under(orig, x, c));
                        lemma_under_via_parent(orig, x, c, key);
                        if x == key {
                            lemma_not_under_child(orig, path, c);
                        }
                    }
                }
                assert forall|x: NodeKey| removed@.skip(r0.len() as int).contains(x) <==> exists|i: int|
                    0 <= i < j + 1 && #[trigger] under(orig, x, kids[i]) by {
                    let ps = prev.skip(r0.len() as int);
                    if removed@.skip(r0.len() as int).contains(x) {
                        if ps.contains(x) {
                        } else {
                            assert(seg.contains(x)) by {
                                let i = choose|i: int| 0 <= i < removed@.skip(r0.len() as int).len() && removed@.skip(r0.len() as int)[i] == x;
                                assert(seg[i - ps.len()] == x);
                            }
                            assert(under(orig, x, kids[j as int]));
                        }
                    }
                    if exists|i: int| 0 <= i < j + 1 && #[trigger] under(orig, x, kids[i]) {
                        let i = choose|i: int| 0 <= i < j + 1 && #[trigger] under(orig, x, kids[i]);
                        if i < j {
                            assert(ps.contains(x));
                            let t = choose|t: int| 0 <= t < ps.len() && ps[t] == x;
                            assert(removed@.skip(r0.len() as int)[t] == x);
                        } else {
                            assert(seg.contains(x));
                            let t = choose|t: int| 0 <= t < seg.len() && seg[t] == x;
                            assert(removed@.skip(r0.len() as int)[ps.len() + t] == x);
                        }
                    }
                }
            }
            j += 1;
        }
        let ghost before_push = removed@;
        removed.push(key);
        self.free.push(key);
        proof {
            assert(self.free@ =~= base + removed@);
            assert(removed@.take(r0.len() as int) =~= r0) by {
                assert(before_push.take(r0.len() as int) == r0);
            }
            let news = removed@.skip(r0.len() as int);
            assert(news =~= before_push.skip(r0.len() as int).push(key));
            assert(!before_push.contains(key)) by {
                if before_push.contains(key) {
                    let i = choose|i: int| 0 <= i < before_push.len() && before_push[i] == key;
                    if i < r0.len() {
                        assert(before_push.take(r0.len() as int)[i] == key);
                        assert(r0.contains(key));
                    } else {
                        assert(before_push.skip(r0.len() as int)[i - r0.len()] == key);
                        assert(before_push.skip(r0.len() as int).contains(key));
                    }
                }
            }
            assert(removed@.no_duplicates()) by {
                assert forall|a: int, b: int| 0 <= a < removed@.len() && 0 <= b < removed@.len() && a != b implies removed@[a] != removed@[b] by {
                    if a == before_push.len() as int {
                        assert(before_push.contains(removed@[b]) || b == a);
                    } else if b == before_push.len() as int {
                        assert(before_push.contains(removed@[a]));
                    } else {
                        assert(removed@[a] == before_push[a] && removed@[b] == before_push[b]);
                    }
                }
            }
            assert(news.no_duplicates()) by {
                assert forall|a: int, b: int| 0 <= a < news.len() && 0 <= b < news.len() && a != b implies news[a] != news[b] by {
                    assert(news[a] == removed@[a + r0.len()] && news[b] == removed@[b + r0.len()]);
                }
            }
            assert forall|x: NodeKey| news.contains(x) <==> under(orig, x, key) by {
                if news.contains(x) {
                    let t = choose|t: int| 0 <= t < news.len() && news[t] == x;
                    if t < news.len() - 1 {
                        assert(before_push.skip(r0.len() as int)[t] == x);
                        assert(before_push.skip(r0.len() as int).contains(x));
                    }
                }
                if under(orig, x, key) {
                    if x == key {
                        assert(news[news.len() - 1] == key);
                    } else {
                        let c = lemma_under_below(orig, x, key);
                        let i = choose|i: int| 0 <= i < kids.len() && kids[i] == c;
                        assert(under(orig, x, kids[i]));
                        assert(before_push.skip(r0.len() as int).contains(x));
                        let t = choose|t: int| 0 <= t < before_push.skip(r0.len() as int).len() && before_push.skip(r0.len() as int)[t] == x;
                        assert(news[t] == x);
                    }
                }
            }
            assert forall|k: NodeKey| (k as int) < orig.len() implies #[trigger] self.nodes()[k as int] == if removed@.contains(k)
                || path.drop_last().contains(k) {
                None
            } else {
                orig[k as int]
            } by {
                assert(removed@.contains(k) <==> (before_push.contains(k) || k == key)) by {
                    if removed@.contains(k) {
                        let t = choose|t: int| 0 <= t < removed@.len() && removed@[t] == k;
                        if t < before_push.len() {
                            assert(before_push[t] == k);
                        }
                    }
                    if before_push.contains(k) {
                        let t = choose|t: int| 0 <= t < before_push.len() && before_push[t] == k;
                        assert(removed@[t] == k);
                    }
                    if k == key {
                        assert(removed@[before_push.len() as int] == key);
                    }
                }
                assert(path.contains(k) <==> (path.drop_last().contains(k) || k == key)) by {
                    if path.contains(k) {
                        let t = choose|t: int| 0 <= t < path.len() && path[t] == k;
                        if t < path.len() - 1 {
                            assert(path.drop_last()[t] == k);
                        }
                    }
                    if path.drop_last().contains(k) {
                        let t = choose|t: int| 0 <= t < path.drop_last().len() && path.drop_last()[t] == k;
                        assert(path[t] == k);
                    }
                    if k == key {
                        assert(path[path.len() - 1] == key);
                    }
                }
            }
        }
    }
}

} // verus!

verus! {

/// The nodes with the node at `key` changed to be of kind `kind`.
pub open spec fn rekinded(ns: Seq<Option<NodeView>>, key: NodeKey, kind: Kind) -> Seq<Option<NodeView>> {
    ns.update(key as int, Some(NodeView { kind, ..node(ns, key as int) }))
}

proof fn lemma_rekinded_wf(ns: Seq<Option<NodeView>>, free: Seq<NodeKey>, key: NodeKey, kind: Kind)
    requires
        tree_wf(ns),
        free_wf(ns, free),
        live(ns, key as int),
        (node(ns, key as int).kind is RawText) == (kind is RawText),
    ensures
        tree_wf(rekinded(ns, key, kind)),
        free_wf(rekinded(ns, key, kind), free),
{
    let r = rekinded(ns, key, kind);
    assert forall|k: NodeKey| #[trigger] live(r, k as int) implies match node(r, k as int).parent {
        Some(p) => p != k && live(r, p as int) && node(r, p as int).children.contains(k),
        None => true,
    } by {
        assert(live(ns, k as int));
    }
    assert forall|p: NodeKey, i: int|
        live(r, p as int) && 0 <= i < node(r, p as int).children.len() implies live(r, #[trigger] node(r, p as int).children[i] as int)
            && node(r, node(r, p as int).children[i] as int).parent == Some(p) by {
        assert(live(ns, p as int));
        assert(node(ns, node(ns, p as int).children[i] as int).parent == Some(p));
    }
    assert forall|p: NodeKey| #[trigger] live(r, p as int) implies node(r, p as int).children.no_duplicates() by {
        assert(live(ns, p as int));
    }
    assert forall|i: int| 0 <= i < free.len() implies #[trigger] free[i] < r.len() && r[free[i] as int] is None by {
        assert(ns[free[i] as int] is None);
    }
}

impl Arena {
    /// Sets the border of the block at `key`; other kinds of node are left as they are.
    pub fn set_border(&mut self, key: NodeKey, value: Border)
        requires
            old(self).wf(),
            live(old(self).nodes(), key as int),
        ensures
            final(self).wf(),
            final(self).free@ == old(self).free@,
            final(self).nodes() == match node(old(self).nodes(), key as int).kind {
                Kind::Block { border, bg_color, overflow } => rekinded(
                    old(self).nodes(),
                    key,
                    Kind::Block { border: value, bg_color, overflow },
                ),
                _ => old(self).nodes(),
            },
    {
        let ghost ns = self.nodes();
        let mut n = self.take(key);
        if let RealNode::Block { border, .. } = &mut n {
            *border = value;
        }
        self.put_back(key, n);
        proof {
            match node(ns, key as int).kind {
                Kind::Block { border, bg_color, overflow } => {
                    lemma_rekinded_wf(ns, self.free@, key, Kind::Block { border: value, bg_color, overflow });
                    assert(self.nodes() =~= rekinded(ns, key, Kind::Block { border: value, bg_color, overflow }));
                },
                _ => {
                    assert(self.nodes() =~= ns);
                },
            }
        }
    }

    /// Sets the background color of the block at `key`; other kinds of node are left as they
    /// are.
    pub fn set_bg_color(&mut self, key: NodeKey, value: Color)
        requires
            old(self).wf(),
            live(old(self).nodes(), key as int),
        ensures
            final(self).wf(),
            final(self).free@ == old(self).free@,
            final(self).nodes() == match node(old(self).nodes(), key as int).kind {
                Kind::Block { border, bg_color, overflow } => rekinded(
                    old(self).nodes(),
                    key,
                    Kind::Block { border, bg_color: value, overflow },
                ),
                _ => old(self).nodes(),
            },
    {
        let ghost ns = self.nodes();
        let mut n = self.take(key);
        if let RealNode::Block { bg_color, .. } = &mut n {
            *bg_color = value;
        }
        self.put_back(key, n);
        proof {
            match node(ns, key as int).kind {
                Kind::Block { border, bg_color, overflow } => {
                    lemma_rekinded_wf(ns, self.free@, key, Kind::Block { border, bg_color: value, overflow });
                    assert(self.nodes() =~= rekinded(ns, key, Kind::Block { border, bg_color: value, overflow }));
                },
                _ => {
                    assert(self.nodes() =~= ns);
                },
            }
        }
    }

    /// Records the overflow of the block at `key` (the single effective value of the pair);
    /// other kinds of node are left as they are.
    pub fn set_overflow(&mut self, key: NodeKey, value: XYProps<Overflow>)
        requires
            old(self).wf(),
            live(old(self).nodes(), key as int),
        ensures
            final(self).wf(),
            final(self).free@ == old(self).free@,
            final(self).nodes() == match node(old(self).nodes(), key as int).kind {
                Kind::Block { border, bg_color, overflow } => rekinded(
                    old(self).nodes(),
                    key,
                    Kind::Block { border, bg_color, overflow: effective_overflow(value) },
                ),
                _ => old(self).nodes(),
            },
    {
        let ghost ns = self.nodes();
        let eff = value.effective();
        let mut n = self.take(key);
        if let RealNode::Block { overflow, .. } = &mut n {
            *overflow = eff;
        }
        self.put_back(key, n);
        proof {
            match node(ns, key as int).kind {
                Kind::Block { border, bg_color, overflow } => {
                    lemma_rekinded_wf(ns, self.free@, key, Kind::Block { border, bg_color, overflow: eff });
                    assert(self.nodes() =~= rekinded(ns, key, Kind::Block { border, bg_color, overflow: eff }));
                },
                _ => {
                    assert(self.nodes() =~= ns);
                },
            }
        }
    }

    /// Sets the style of the text node at `key`; other kinds of node are left as they are.
    pub fn set_text_style(&mut self, key: NodeKey, value: Style)
        requires
            old(self).wf(),
            live(old(self).nodes(), key as int),
        ensures
            final(self).wf(),
            final(self).free@ == old(self).free@,
            final(self).nodes() == match node(old(self).nodes(), key as int).kind {
                Kind::Text { style, wrap } => rekinded(old(self).nodes(), key, Kind::Text { style: value, wrap }),
                _ => old(self).nodes(),
            },
    {
        let ghost ns = self.nodes();
        let mut n = self.take(key);
        if let RealNode::Text { style, .. } = &mut n {
            *style = value;
        }
        self.put_back(key, n);
        proof {
            match node(ns, key as int).kind {
                Kind::Text { style, wrap } => {
                    lemma_rekinded_wf(ns, self.free@, key, Kind::Text { style: value, wrap });
                    assert(self.nodes() =~= rekinded(ns, key, Kind::Text { style: value, wrap }));
                },
                _ => {
                    assert(self.nodes() =~= ns);
                },
            }
        }
    }

    /// Sets how the text node at `key` wraps; other kinds of node are left as they are.
    pub fn set_text_wrap(&mut self, key: NodeKey, value: TextWrap)
        requires
            old(self).wf(),
            live(old(self).nodes(), key as int),
        ensures
            final(self).wf(),
            final(self).free@ == old(self).free@,
            final(self).nodes() == match node(old(self).nodes(), key as int).kind {
                Kind::Text { style, wrap } => rekinded(old(self).nodes(), key, Kind::Text { style, wrap: value }),
                _ => old(self).nodes(),
            },
    {
        let ghost ns = self.nodes();
        let mut n = self.take(key);
        if let RealNode::Text { wrap, .. } = &mut n {
            *wrap = value;
        }
        self.put_back(key, n);
        proof {
            match node(ns, key as int).kind {
                Kind::Text { style, wrap } => {
                    lemma_rekinded_wf(ns, self.free@, key, Kind::Text { style, wrap: value });
                    assert(self.nodes() =~= rekinded(ns, key, Kind::Text { style, wrap: value }));
                },
                _ => {
                    assert(self.nodes() =~= ns);
                },
            }
        }
    }

    /// Replaces the content of the bare text at `key`; other kinds of node are left as they
    /// are.
    pub fn set_raw_text(&mut self, key: NodeKey, value: String)
        requires
            old(self).wf(),
            live(old(self).nodes(), key as int),
        ensures
            final(self).wf(),
            final(self).free@ == old(self).free@,
            final(self).nodes() == match node(old(self).nodes(), key as int).kind {
                Kind::RawText { .. } => rekinded(old(self).nodes(), key, Kind::RawText { content: value@ }),
                _ => old(self).nodes(),
            },
    {
        let ghost ns = self.nodes();
        let ghost v = value@;
        let mut n = self.take(key);
        if let RealNode::RawText { content, .. } = &mut n {
            *content = value;
        }
        self.put_back(key, n);
        proof {
            match node(ns, key as int).kind {
                Kind::RawText { .. } => {
                    lemma_rekinded_wf(ns, self.free@, key, Kind::RawText { content: v });
                    assert(self.nodes() =~= rekinded(ns, key, Kind::RawText { content: v }));
                },
                _ => {
                    assert(self.nodes() =~= ns);
                },
            }
        }
    }
}

} // verus!

verus! {

proof fn lemma_without_insert(s: Seq<NodeKey>, i: int, x: NodeKey)
    requires
        0 <= i <= s.len(),
    ensures
        without(s.insert(i, x), x) == without(s, x),
    decreases s.len(),
{
    let t = s.insert(i, x);
    if i == s.len() {
        assert(t.drop_last() =~= s);
    } else {
        assert(t.last() == s.last());
        assert(t.drop_last() =~= s.drop_last().insert(i, x));
        lemma_without_insert(s.drop_last(), i, x);
    }
}

/// Detaching a node right after attaching it (it had no parent before) gives back the tree
/// as it was.
pub proof fn lemma_detach_undoes_attach(ns: Seq<Option<NodeView>>, parent: NodeKey, child: NodeKey, index: int)
    requires
        tree_wf(ns),
        live(ns, parent as int),
        live(ns, child as int),
        parent != child,
        node(ns, child as int).parent is None,
        0 <= index,
    ensures
        detached(attached(ns, parent, child, index), child) == ns,
{
    let pc = node(ns, parent as int).children;
    let at = insert_position(pc.len(), index);
    assert(!pc.contains(child)) by {
        if pc.contains(child) {
            let i = choose|i: int| 0 <= i < pc.len() && pc[i] == child;
            assert(node(ns, node(ns, parent as int).children[i] as int).parent == Some(parent));
        }
    }
    lemma_without_insert(pc, at, child);
    lemma_without(pc, child);
    let a = attached(ns, parent, child, index);
    assert(detached(a, child) =~= ns);
}

} // verus!

verus! {

/// The nodes among `keys` that take part in layout (all but bare text), in order: what the
/// layout engine lists as children for a parent whose children are `keys`.
pub open spec fn laid_out(ns: Seq<Option<NodeView>>, keys: Seq<NodeKey>) -> Seq<NodeKey>
    decreases keys.len(),
{
    if keys.len() == 0 {
        Seq::empty()
    } else if node(ns, keys.last() as int).kind is RawText {
        laid_out(ns, keys.drop_last())
    } else {
        laid_out(ns, keys.drop_last()).push(keys.last())
    }
}

/// The layout engine's child lists after one change: an insertion puts `child` at `index`
/// among `parent`'s laid-out children, a removal takes it out.
pub open spec fn applied_layout_op(lt: Map<NodeKey, Seq<NodeKey>>, op: LayoutOp) -> Map<NodeKey, Seq<NodeKey>> {
    match op {
        LayoutOp::Insert { parent, child, index } => lt.insert(parent, lt[parent].insert(index as int, child)),
        LayoutOp::Remove { parent, child } => lt.insert(parent, without(lt[parent], child)),
    }
}

/// The layout engine's child lists after the changes `ops`, in order.
pub open spec fn applied_layout_ops(lt: Map<NodeKey, Seq<NodeKey>>, ops: Seq<LayoutOp>) -> Map<NodeKey, Seq<NodeKey>>
    decreases ops.len(),
{
    if ops.len() == 0 {
        lt
    } else {
        applied_layout_op(applied_layout_ops(lt, ops.drop_last()), ops.last())
    }
}

/// The layout engine's child lists `lt` mirror the tree: every live node that lays out its
/// children (neither a `Text` nor bare text) lists exactly its laid-out children, in order.
pub open spec fn layout_mirrors(ns: Seq<Option<NodeView>>, lt: Map<NodeKey, Seq<NodeKey>>) -> bool {
    forall|p: NodeKey|
        #[trigger] live(ns, p as int) && !(node(ns, p as int).kind is Text) && !(node(ns, p as int).kind is RawText)
            ==> lt.contains_key(p) && lt[p] == laid_out(ns, node(ns, p as int).children)
}

proof fn lemma_laid_out_count(ns: Seq<Option<NodeView>>, keys: Seq<NodeKey>)
    ensures
        count_laid_out(ns, keys) == laid_out(ns, keys).len(),
        laid_out(ns, keys).len() <= keys.len(),
    decreases keys.len(),
{
    if keys.len() > 0 {
        lemma_laid_out_count(ns, keys.drop_last());
    }
}

proof fn lemma_laid_out_concat(ns: Seq<Option<NodeView>>, a: Seq<NodeKey>, b: Seq<NodeKey>)
    ensures
        laid_out(ns, a + b) == laid_out(ns, a) + laid_out(ns, b),
    decreases b.len(),
{
    if b.len() == 0 {
        assert(a + b =~= a);
        assert(laid_out(ns, a) + laid_out(ns, b) =~= laid_out(ns, a));
    } else {
        lemma_laid_out_concat(ns, a, b.drop_last());
        assert((a + b).drop_last() =~= a + b.drop_last());
        assert((a + b).last() == b.last());
        if !(node(ns, b.last() as int).kind is RawText) {
            assert(laid_out(ns, a) + laid_out(ns, b.drop_last()).push(b.last()) =~= (laid_out(ns, a) + laid_out(
                ns,
                b.drop_last(),
            )).push(b.last()));
        }
    }
}

proof fn lemma_laid_out_frame(ns: Seq<Option<NodeView>>, ns2: Seq<Option<NodeView>>, keys: Seq<NodeKey>)
    requires
        forall|i: int| 0 <= i < keys.len() ==> node(ns2, #[trigger] keys[i] as int).kind == node(ns, keys[i] as int).kind,
    ensures
        laid_out(ns2, keys) == laid_out(ns, keys),
    decreases keys.len(),
{
    if keys.len() > 0 {
        assert forall|i: int| 0 <= i < keys.drop_last().len() implies node(ns2, #[trigger] keys.drop_last()[i] as int).kind
            == node(ns, keys.drop_last()[i] as int).kind by {
            assert(keys.drop_last()[i] == keys[i]);
        }
        lemma_laid_out_frame(ns, ns2, keys.drop_last());
        assert(keys[keys.len() - 1] == keys.last());
    }
}

proof fn lemma_laid_out_without(ns: Seq<Option<NodeView>>, s: Seq<NodeKey>, x: NodeKey)
    ensures
        laid_out(ns, without(s, x)) == without(laid_out(ns, s), x),
        node(ns, x as int).kind is RawText ==> without(laid_out(ns, s), x) == laid_out(ns, s),
    decreases s.len(),
{
    if s.len() > 0 {
        let p = s.drop_last();
        let y = s.last();
        lemma_laid_out_without(ns, p, x);
        let lp = laid_out(ns, p);
        assert(lp.push(y).drop_last() =~= lp);
        assert(without(p, x).push(y).drop_last() =~= without(p, x));
    }
}

/// Detaching a node keeps the layout engine's child lists mirroring the tree, once the
/// detaching change (if any) is applied to them.
pub proof fn lemma_detach_keeps_layout_mirror(ns: Seq<Option<NodeView>>, lt: Map<NodeKey, Seq<NodeKey>>, child: NodeKey)
    requires
        tree_wf(ns),
        live(ns, child as int),
        layout_mirrors(ns, lt),
    ensures
        layout_mirrors(
            detached(ns, child),
            applied_layout_ops(
                lt,
                match detach_op(ns, child) {
                    Some(op) => seq![op],
                    None => Seq::empty(),
                },
            ),
        ),
{
    let d = detached(ns, child);
    let removal = match detach_op(ns, child) {
        Some(op) => seq![op],
        None => Seq::<LayoutOp>::empty(),
    };
    let lt1 = applied_layout_ops(lt, removal);
    match node(ns, child as int).parent {
        None => {},
        Some(p) => {
            lemma_detached_wf(ns, Seq::empty(), child);
            assert(applied_layout_ops(lt, Seq::<LayoutOp>::empty()) == lt);
            match detach_op(ns, child) {
                Some(op) => {
                    assert(removal.drop_last() =~= Seq::<LayoutOp>::empty());
                    assert(lt1 == applied_layout_op(lt, op));
                },
                None => {
                    assert(lt1 == lt);
                },
            }
            assert forall|q: NodeKey|
                #[trigger] live(d, q as int) && !(node(d, q as int).kind is Text) && !(node(d, q as int).kind is RawText)
                    implies lt1.contains_key(q) && lt1[q] == laid_out(d, node(d, q as int).children) by {
                assert(live(ns, q as int));
                let ch = node(d, q as int).children;
                assert forall|i: int| 0 <= i < ch.len() implies node(d, #[trigger] ch[i] as int).kind == node(ns, ch[i] as int).kind by {
                    if q == p {
                        lemma_without(node(ns, p as int).children, child);
                        assert(ch.contains(ch[i]));
                        assert(node(ns, p as int).children.contains(ch[i]));
                        let j = choose|j: int| 0 <= j < node(ns, p as int).children.len() && node(ns, p as int).children[j] == ch[i];
                        assert(live(ns, node(ns, p as int).children[j] as int));
                    } else {
                        assert(ch == node(ns, q as int).children);
                        assert(live(ns, ch[i] as int));
                    }
                }
                lemma_laid_out_frame(ns, d, ch);
                if q == p {
                    lemma_laid_out_without(ns, node(ns, p as int).children, child);
                }
            }
        },
    }
}

/// Attaching a node keeps the layout engine's child lists mirroring the tree, once the
/// changes `attach_ops` names are applied to them: the parent's list gains the child at the
/// position among its laid-out children, and any old parent's list loses it.
pub proof fn lemma_attach_keeps_layout_mirror(
    ns: Seq<Option<NodeView>>,
    lt: Map<NodeKey, Seq<NodeKey>>,
    parent: NodeKey,
    child: NodeKey,
    index: int,
)
    requires
        tree_wf(ns),
        live(ns, parent as int),
        live(ns, child as int),
        parent != child,
        !(node(ns, parent as int).kind is RawText),
        0 <= index,
        node(ns, parent as int).children.len() < usize::MAX,
        layout_mirrors(ns, lt),
    ensures
        layout_mirrors(attached(ns, parent, child, index), applied_layout_ops(lt, attach_ops(ns, parent, child, index))),
{
    let d = detached(ns, child);
    let removal = match detach_op(ns, child) {
        Some(op) => seq![op],
        None => Seq::<LayoutOp>::empty(),
    };
    lemma_detach_keeps_layout_mirror(ns, lt, child);
    lemma_detached_wf(ns, Seq::empty(), child);
    let lt1 = applied_layout_ops(lt, removal);
    let pc = node(d, parent as int).children;
    let pos = insert_position(pc.len(), index);
    let a = attached(ns, parent, child, index);
    let ops = attach_ops(ns, parent, child, index);
    let lt2 = applied_layout_ops(lt, ops);
    assert(node(d, parent as int).kind == node(ns, parent as int).kind);
    assert(node(d, child as int).kind == node(ns, child as int).kind);
    assert(live(d, parent as int) && live(d, child as int));
    assert(pc.len() <= node(ns, parent as int).children.len()) by {
        if node(ns, child as int).parent == Some(parent) {
            lemma_without_len(node(ns, parent as int).children, child);
        }
    }
    let npc = pc.insert(pos, child);
    assert(npc =~= pc.take(pos) + seq![child] + pc.skip(pos));
    assert(pc =~= pc.take(pos) + pc.skip(pos));
    lemma_laid_out_concat(d, pc.take(pos) + seq![child], pc.skip(pos));
    lemma_laid_out_concat(d, pc.take(pos), seq![child]);
    lemma_laid_out_concat(d, pc.take(pos), pc.skip(pos));
    assert(seq![child].drop_last() =~= Seq::<NodeKey>::empty());
    lemma_laid_out_count(d, pc.take(pos));
    lemma_laid_out_count(d, pc);
    assert(laid_out(d, Seq::<NodeKey>::empty()) == Seq::<NodeKey>::empty());
    let is_ins = !(node(ns, parent as int).kind is Text || node(ns, child as int).kind is RawText);
    if !(node(ns, child as int).kind is RawText) {
        assert(laid_out(d, seq![child]) == seq![child]);
    } else {
        assert(laid_out(d, seq![child]) == Seq::<NodeKey>::empty());
    }
    if is_ins {
        assert(ops.drop_last() =~= removal);
        assert(lt2 == applied_layout_op(lt1, ops.last()));
    } else {
        assert(ops == removal);
    }
    assert forall|q: NodeKey|
        #[trigger] live(a, q as int) && !(node(a, q as int).kind is Text) && !(node(a, q as int).kind is RawText)
            implies lt2.contains_key(q) && lt2[q] == laid_out(a, node(a, q as int).children) by {
        if q != parent && q != child {
            assert(a[q as int] == d[q as int]);
        }
        assert(live(d, q as int));
        assert(node(a, q as int).kind == node(d, q as int).kind);
        let ch = node(a, q as int).children;
        assert forall|i: int| 0 <= i < ch.len() implies node(a, #[trigger] ch[i] as int).kind == node(d, ch[i] as int).kind by {
            if q == parent {
                if i == pos {
                    assert(ch[i] == child);
                } else if i < pos {
                    assert(ch[i] == pc[i]);
                    assert(live(d, pc[i] as int));
                } else {
                    assert(ch[i] == pc[i - 1]);
                    assert(live(d, pc[i - 1] as int));
                }
            } else {
                assert(ch == node(d, q as int).children);
                assert(live(d, ch[i] as int));
            }
        }
        lemma_laid_out_frame(d, a, ch);
        if q == parent {
            assert(ch == npc);
            let la = laid_out(d, pc.take(pos));
            let lb = laid_out(d, pc.skip(pos));
            if is_ins {
                assert(lt1[parent] == la + lb);
                assert((la + lb).insert(la.len() as int, child) =~= la + seq![child] + lb);
            } else {
                assert(la + Seq::<NodeKey>::empty() =~= la);
            }
        } else {
            assert(ch == node(d, q as int).children);
        }
    }
}

proof fn lemma_without_len(s: Seq<NodeKey>, x: NodeKey)
    ensures
        without(s, x).len() <= s.len(),
    decreases s.len(),
{
    if s.len() > 0 {
        lemma_without_len(s.drop_last(), x);
    }
}

} // verus!
