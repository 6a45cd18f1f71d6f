use vstd::prelude::*;
use crate::arena::{Arena, Kind, NodeKey, NodeView, RealNode};
use crate::arena::{live, node, root_path, tree_wf};
use crate::geometry::{LayoutRect, Point};
use std::collections::HashMap;
use crate::geometry::{rect_contains, rect_inset, rect_intersection, rect_translated, translate_fits, inset_fits};
use crate::paint::{Buffer, Run, draw_block, draw_text, diff_runs};
use crate::paint::{RunView, grid_runs};
use crate::paint::{block_write, background_cell, painted, rows_text_write, text_rows, text_fits, visible};
use crate::props::{Border, Overflow};
use crate::props::{border_inset, overflow_clips};
use crate::style::{Cell, Color, Style, merge_style};
use crate::style::blank_cell;
use crate::style::merged;
use crate::text::{StyledChar, TextWrap, measure_wrapped};

verus! {

/// One character in one style.
pub open spec fn styled_char(ch: char, style: Style) -> StyledChar {
    StyledChar { ch, style }
}

/// The characters of `content`, each in `style`.
pub open spec fn styled_content(content: Seq<char>, style: Style) -> Seq<StyledChar> {
    Seq::new(content.len(), |i: int| styled_char(content[i], style))
}

/// The inline content of the nodes `kids` (children of a `Text`), flattened into one run of
/// styled characters: bare text contributes its characters in `style`, a nested `Text` span its
/// own content in `style` merged with the span's. `budget` bounds the nesting depth followed.
pub open spec fn styled_list(ns: Seq<Option<NodeView>>, kids: Seq<NodeKey>, style: Style, budget: nat) -> Seq<StyledChar>
    decreases budget, kids.len(),
{
    if kids.len() == 0 {
        Seq::empty()
    } else {
        let c = kids.last();
        let piece = match node(ns, c as int).kind {
            Kind::RawText { content } => styled_content(content, style),
            Kind::Text { style: span, .. } => if budget == 0 {
                Seq::empty()
            } else {
                styled_list(ns, node(ns, c as int).children, merged(style, span), (budget - 1) as nat)
            },
            _ => Seq::empty(),
        };
        styled_list(ns, kids.drop_last(), style, budget) + piece
    }
}

/// Every node among `kids`, and below any nested `Text` among them, is bare text or a `Text`
/// (a `Text` holds inline content only, never boxes).
pub open spec fn inline_only(ns: Seq<Option<NodeView>>, kids: Seq<NodeKey>, budget: nat) -> bool
    decreases budget, kids.len(),
{
    if kids.len() == 0 {
        true
    } else {
        let c = kids.last();
        &&& inline_only(ns, kids.drop_last(), budget)
        &&& match node(ns, c as int).kind {
            Kind::RawText { .. } => true,
            Kind::Text { .. } => budget == 0 || inline_only(ns, node(ns, c as int).children, (budget - 1) as nat),
            _ => false,
        }
    }
}

fn push_styled(out: &mut Vec<StyledChar>, content: &String, style: Style)
    ensures
        final(out)@ == old(out)@ + styled_content(content@, style),
{
    let n = content.as_str().unicode_len();
    let mut i: usize = 0;
    assert(styled_content(content@.take(0), style) =~= Seq::<StyledChar>::empty());
    assert(out@ =~= old(out)@ + styled_content(content@.take(0), style));
    while i < n
        invariant
            n == content@.len(),
            i <= n,
            out@ == old(out)@ + styled_content(content@.take(i as int), style),
        decreases n - i,
    {
        let ch = content.as_str().get_char(i);
        let ghost before = out@;
        out.push(StyledChar { ch, style });
        assert(styled_content(content@.take(i + 1), style) =~= styled_content(content@.take(i as int), style).push(styled_char(ch, style)));
        i += 1;
        assert(out@ =~= old(out)@ + styled_content(content@.take(i as int), style));
    }
    assert(content@.take(n as int) =~= content@);
}

proof fn lemma_root_path_child(ns: Seq<Option<NodeView>>, path: Seq<NodeKey>, kids: Seq<NodeKey>, i: int)
    requires
        tree_wf(ns),
        root_path(ns, path),
        kids == node(ns, path.last() as int).children,
        0 <= i < kids.len(),
    ensures
        root_path(ns, path.push(kids[i])),
        path.len() + 1 <= ns.len(),
        live(ns, kids[i] as int),
        node(ns, kids[i] as int).parent == Some(path.last()),
{
    assert(kids.contains(kids[i]));
    crate::arena::lemma_root_path_extend(ns, path, kids[i]);
    crate::arena::lemma_root_path_bound(ns, path.push(kids[i]));
    assert(live(ns, path[path.len() - 1] as int));
    assert(live(ns, node(ns, path.last() as int).children[i] as int));
}

/// Appends the inline content of the node at `path.last()` (a `Text`, normally) to `out`.
fn collect_styled(arena: &Arena, key: NodeKey, style: Style, out: &mut Vec<StyledChar>, Ghost(path): Ghost<Seq<NodeKey>>)
    requires
        arena.wf(),
        root_path(arena.nodes(), path),
        path.last() == key,
        inline_only(arena.nodes(), node(arena.nodes(), key as int).children, (arena.nodes().len() - path.len()) as nat),
    ensures
        final(out)@ == old(out)@ + styled_list(
            arena.nodes(),
            node(arena.nodes(), key as int).children,
            style,
            (arena.nodes().len() - path.len()) as nat,
        ),
    decreases arena.nodes().len() - path.len(),
{
    let ghost ns = arena.nodes();
    proof {
        crate::arena::lemma_root_path_bound(ns, path);
        assert(live(ns, path[path.len() - 1] as int));
    }
    let ghost budget = (ns.len() - path.len()) as nat;
    let kids = match arena.get(key).children() {
        Some(ch) => ch,
        None => {
            assert(styled_list(ns, Seq::<NodeKey>::empty(), style, budget) == Seq::<StyledChar>::empty());
            assert(out@ =~= old(out)@ + Seq::<StyledChar>::empty());
            return;
        },
    };
    let ghost ks = kids@;
    let mut i: usize = 0;
    while i < kids.len()
        invariant
            arena.wf(),
            ns == arena.nodes(),
            ks == kids@,
            ks == node(ns, key as int).children,
            root_path(ns, path),
            path.last() == key,
            budget == ns.len() - path.len(),
            inline_only(ns, ks, budget),
            i <= kids.len(),
            out@ == old(out)@ + styled_list(ns, ks.take(i as int), style, budget),
        decreases kids.len() - i,
    {
        let c = kids[i];
        proof {
            lemma_root_path_child(ns, path, ks, i as int);
            assert(ks.take(i + 1).drop_last() =~= ks.take(i as int));
            assert(ks.take(i + 1).last() == c);
            lemma_inline_prefix(ns, ks, (i + 1) as int, budget);
        }
        match arena.get(c) {
            RealNode::RawText { content, .. } => {
                push_styled(out, content, style);
            },
            RealNode::Text { style: span, .. } => {
                let inner = merge_style(style, *span);
                proof {
                    assert(budget >= 1);
                }
                collect_styled(arena, c, inner, out, Ghost(path.push(c)));
            },
            _ => {
                proof {
                    assert(false);
                }
            },
        }
        i += 1;
    }
    assert(ks.take(kids.len() as int) =~= ks);
}

proof fn lemma_inline_prefix(ns: Seq<Option<NodeView>>, kids: Seq<NodeKey>, n: int, budget: nat)
    requires
        inline_only(ns, kids, budget),
        0 <= n <= kids.len(),
    ensures
        inline_only(ns, kids.take(n), budget),
    decreases kids.len() - n,
{
    if n < kids.len() {
        assert(kids.take(n + 1).drop_last() =~= kids.take(n));
        if n + 1 == kids.len() {
            assert(kids.take(n + 1) =~= kids);
        } else {
            lemma_inline_prefix(ns, kids, n + 1, budget);
        }
    } else {
        assert(kids.take(n) =~= kids);
    }
}

} // verus!

verus! {

/// What a visited node drew.
pub enum DrawView {
    Nothing,
    Block { border: Border, bg_color: Color },
    Text { chars: Seq<StyledChar>, wrap: TextWrap, style: Style },
}

/// One node visited by a paint pass: its key, where it landed on screen, the clip rect in
/// force for it, and what it drew.
pub struct StepView {
    pub key: NodeKey,
    pub rect: LayoutRect,
    pub clip: Option<LayoutRect>,
    pub draw: DrawView,
}

/// A `Text` whose parent is a `Text`: an inline span, painted as part of its ancestor.
pub open spec fn nested_text(ns: Seq<Option<NodeView>>, key: NodeKey) -> bool {
    &&& node(ns, key as int).kind is Text
    &&& match node(ns, key as int).parent {
        Some(p) => node(ns, p as int).kind is Text,
        None => false,
    }
}

/// `inner`, narrowed to the enclosing clip rect if there is one.
pub open spec fn clip_within(clip: Option<LayoutRect>, inner: LayoutRect) -> LayoutRect {
    match clip {
        Some(outer) => rect_intersection(outer, inner),
        None => inner,
    }
}

/// The clip rect a block hands its children: its own inside (within its border), narrowed to
/// the clip in force, when its overflow clips; the clip in force otherwise.
pub open spec fn block_child_clip(rect: LayoutRect, border: Border, overflow: Overflow, clip: Option<LayoutRect>) -> Option<LayoutRect> {
    if overflow_clips(overflow) {
        Some(clip_within(clip, rect_inset(rect, border_inset(border) as int)))
    } else {
        clip
    }
}

/// Whether the clip rect (if any) lets `p` through.
pub open spec fn clip_allows(clip: Option<LayoutRect>, p: Point) -> bool {
    match clip {
        Some(c) => rect_contains(c, p),
        None => true,
    }
}

/// The steps of painting the subtree at `key`, placed relative to `origin`, in the order the
/// painter visits them (a node before its children, children in order), or `None` when some
/// coordinate of it leaves `i32` (or a `Text` holds a box). `rel[k]` is where the layout
/// engine put node `k` relative to its parent. Bare text and nested `Text` spans are not
/// visited (their content is painted by the enclosing `Text`).
pub open spec fn node_plan(
    ns: Seq<Option<NodeView>>,
    rel: Seq<LayoutRect>,
    key: NodeKey,
    origin: Point,
    clip: Option<LayoutRect>,
    fuel: nat,
) -> Option<Seq<StepView>>
    decreases fuel, 0nat,
{
    let n = node(ns, key as int);
    if n.kind is RawText || nested_text(ns, key) {
        Some(Seq::empty())
    } else if !translate_fits(rel[key as int], origin) {
        None
    } else {
        let rect = rect_translated(rel[key as int], origin);
        match n.kind {
            Kind::Block { border, bg_color, overflow } => {
                if rect.first != rect.second && (rect.second.x == i32::MIN || rect.second.y == i32::MIN) {
                    None
                } else if overflow_clips(overflow) && !inset_fits(rect, border_inset(border) as int) {
                    None
                } else {
                    let step = StepView { key, rect, clip, draw: DrawView::Block { border, bg_color } };
                    let rest = if fuel == 0 {
                        Some(Seq::empty())
                    } else {
                        children_plan(ns, rel, n.children, rect.first, block_child_clip(rect, border, overflow, clip), (fuel - 1) as nat)
                    };
                    match rest {
                        Some(r) => Some(seq![step] + r),
                        None => None,
                    }
                }
            },
            Kind::Text { style, wrap } => {
                let chars = styled_list(ns, n.children, style, fuel);
                if !inline_only(ns, n.children, fuel) || !(i32::MIN <= rect.second.x - rect.first.x <= i32::MAX)
                    || !text_fits(text_rows(rect, chars, wrap, style), rect.first) {
                    None
                } else {
                    Some(seq![StepView { key, rect, clip, draw: DrawView::Text { chars, wrap, style } }])
                }
            },
            _ => {
                let step = StepView { key, rect, clip, draw: DrawView::Nothing };
                let rest = if fuel == 0 {
                    Some(Seq::empty())
                } else {
                    children_plan(ns, rel, n.children, rect.first, clip, (fuel - 1) as nat)
                };
                match rest {
                    Some(r) => Some(seq![step] + r),
                    None => None,
                }
            },
        }
    }
}

/// The steps of painting the subtrees at `kids`, one after the other.
pub open spec fn children_plan(
    ns: Seq<Option<NodeView>>,
    rel: Seq<LayoutRect>,
    kids: Seq<NodeKey>,
    origin: Point,
    clip: Option<LayoutRect>,
    fuel: nat,
) -> Option<Seq<StepView>>
    decreases fuel, kids.len() + 1,
{
    if kids.len() == 0 {
        Some(Seq::empty())
    } else {
        match children_plan(ns, rel, kids.drop_last(), origin, clip, fuel) {
            Some(a) => match node_plan(ns, rel, kids.last(), origin, clip, fuel) {
                Some(b) => Some(a + b),
                None => None,
            },
            None => None,
        }
    }
}

/// The cell at `(x, y)` after step `s` drew over `before`.
pub open spec fn step_cell(before: Cell, s: StepView, x: int, y: int) -> Cell {
    match s.draw {
        DrawView::Nothing => before,
        DrawView::Block { border, bg_color } => if s.rect.first == s.rect.second {
            before
        } else {
            painted(before, block_write(s.rect, border, background_cell(bg_color), x, y), s.clip, x, y)
        },
        DrawView::Text { chars, wrap, style } => painted(
            before,
            rows_text_write(text_rows(s.rect, chars, wrap, style), s.rect.first, x, y),
            s.clip,
            x,
            y,
        ),
    }
}

/// The cell at `(x, y)` after the steps `ss` drew over `before`, in order.
pub open spec fn steps_cell(before: Cell, ss: Seq<StepView>, x: int, y: int) -> Cell
    decreases ss.len(),
{
    if ss.len() == 0 {
        before
    } else {
        step_cell(steps_cell(before, ss.drop_last(), x, y), ss.last(), x, y)
    }
}

/// The layout cache after recording each visited node's rect, in order.
pub open spec fn recorded_cache(cache: Map<NodeKey, LayoutRect>, ss: Seq<StepView>) -> Map<NodeKey, LayoutRect>
    decreases ss.len(),
{
    if ss.len() == 0 {
        cache
    } else {
        recorded_cache(cache, ss.drop_last()).insert(ss.last().key, ss.last().rect)
    }
}

/// The nodes whose recorded rect differs from what the cache held (or that it did not hold),
/// in visiting order, each with its new rect.
pub open spec fn recorded_changes(cache: Map<NodeKey, LayoutRect>, ss: Seq<StepView>) -> Seq<(NodeKey, LayoutRect)>
    decreases ss.len(),
{
    if ss.len() == 0 {
        Seq::empty()
    } else {
        let c = recorded_cache(cache, ss.drop_last());
        let prev = recorded_changes(cache, ss.drop_last());
        let (k, r) = (ss.last().key, ss.last().rect);
        if c.contains_key(k) && c[k] == r {
            prev
        } else {
            prev.push((k, r))
        }
    }
}

proof fn lemma_single_step(cache: Map<NodeKey, LayoutRect>, s: StepView, before: Cell, x: int, y: int)
    ensures
        recorded_cache(cache, seq![s]) == cache.insert(s.key, s.rect),
        recorded_changes(cache, seq![s]) == if cache.contains_key(s.key) && cache[s.key] == s.rect {
            Seq::<(NodeKey, LayoutRect)>::empty()
        } else {
            seq![(s.key, s.rect)]
        },
        steps_cell(before, seq![s], x, y) == step_cell(before, s, x, y),
{
    let one = seq![s];
    assert(one.drop_last() =~= Seq::<StepView>::empty());
    assert(recorded_cache(cache, one.drop_last()) == cache);
    assert(recorded_changes(cache, one.drop_last()) == Seq::<(NodeKey, LayoutRect)>::empty());
    assert(steps_cell(before, one.drop_last(), x, y) == before);
    assert(Seq::<(NodeKey, LayoutRect)>::empty().push((s.key, s.rect)) =~= seq![(s.key, s.rect)]);
}

proof fn lemma_steps_cell_concat(before: Cell, a: Seq<StepView>, b: Seq<StepView>, x: int, y: int)
    ensures
        steps_cell(before, a + b, x, y) == steps_cell(steps_cell(before, a, x, y), b, x, y),
    decreases b.len(),
{
    if b.len() == 0 {
        assert(a + b =~= a);
    } else {
        lemma_steps_cell_concat(before, a, b.drop_last(), x, y);
        assert((a + b).drop_last() =~= a + b.drop_last());
    }
}

proof fn lemma_recorded_concat(cache: Map<NodeKey, LayoutRect>, a: Seq<StepView>, b: Seq<StepView>)
    ensures
        recorded_cache(cache, a + b) == recorded_cache(recorded_cache(cache, a), b),
        recorded_changes(cache, a + b) == recorded_changes(cache, a) + recorded_changes(recorded_cache(cache, a), b),
    decreases b.len(),
{
    if b.len() == 0 {
        assert(a + b =~= a);
        assert(recorded_changes(cache, a) + Seq::<(NodeKey, LayoutRect)>::empty() =~= recorded_changes(cache, a));
    } else {
        lemma_recorded_concat(cache, a, b.drop_last());
        assert((a + b).drop_last() =~= a + b.drop_last());
        let c = recorded_cache(cache, a);
        let (k, r) = (b.last().key, b.last().rect);
        let lhs_prev = recorded_changes(cache, a + b.drop_last());
        assert(lhs_prev.push((k, r)) =~= recorded_changes(cache, a) + recorded_changes(c, b.drop_last()).push((k, r)));
    }
}

} // verus!

verus! {

broadcast use vstd::std_specs::hash::group_hash_axioms;

proof fn lemma_children_plan_take(
    ns: Seq<Option<NodeView>>,
    rel: Seq<LayoutRect>,
    kids: Seq<NodeKey>,
    origin: Point,
    clip: Option<LayoutRect>,
    fuel: nat,
    k: int,
)
    requires
        0 <= k < kids.len(),
        children_plan(ns, rel, kids, origin, clip, fuel) is Some,
    ensures
        children_plan(ns, rel, kids.take(k), origin, clip, fuel) is Some,
        node_plan(ns, rel, kids[k], origin, clip, fuel) is Some,
        children_plan(ns, rel, kids.take(k + 1), origin, clip, fuel) == Some(
            children_plan(ns, rel, kids.take(k), origin, clip, fuel).unwrap() + node_plan(ns, rel, kids[k], origin, clip, fuel).unwrap(),
        ),
    decreases kids.len() - k,
{
    if k + 1 < kids.len() {
        lemma_children_plan_take(ns, rel, kids, origin, clip, fuel, k + 1);
    } else {
        assert(kids.take(k + 1) =~= kids);
    }
    assert(kids.take(k + 1).drop_last() =~= kids.take(k));
    assert(kids.take(k + 1).last() == kids[k]);
}

/// Stores `rect` as `key`'s layout and, when that differs from what was stored before (or
/// nothing was), appends `(key, rect)` to `changed`.
pub fn record_layout(
    layouts: &mut HashMap<NodeKey, LayoutRect>,
    changed: &mut Vec<(NodeKey, LayoutRect)>,
    key: NodeKey,
    rect: LayoutRect,
)
    ensures
        final(layouts)@ == old(layouts)@.insert(key, rect),
        final(changed)@ == if old(layouts)@.contains_key(key) && old(layouts)@[key] == rect {
            old(changed)@
        } else {
            old(changed)@.push((key, rect))
        },
{
    let prev = layouts.insert(key, rect);
    let same = match prev {
        Some(p) => p == rect,
        None => false,
    };
    if !same {
        changed.push((key, rect));
    }
}

/// Paints the subtree at `key` (whose chain from its root is `path`) into `buffer`, placing
/// each node at its layout rect `rel[k]` translated by the top-left of its parent's painted
/// rect (`origin` for `key` itself), and records every visited node's rect.
#[verifier::rlimit(40)]
fn paint_node(
    arena: &Arena,
    rel: &Vec<LayoutRect>,
    key: NodeKey,
    origin: Point,
    clip: Option<LayoutRect>,
    buffer: &mut Buffer,
    layouts: &mut HashMap<NodeKey, LayoutRect>,
    changed: &mut Vec<(NodeKey, LayoutRect)>,
    draw_self: bool,
    Ghost(path): Ghost<Seq<NodeKey>>,
)
    requires
        arena.wf(),
        rel@.len() == arena.nodes().len(),
        old(buffer).wf(),
        root_path(arena.nodes(), path),
        path.last() == key,
        node_plan(arena.nodes(), rel@, key, origin, clip, (arena.nodes().len() - path.len()) as nat) is Some,
    ensures
        final(buffer).wf(),
        final(buffer).width == old(buffer).width,
        final(buffer).height == old(buffer).height,
        forall|i: int, j: int| #![trigger final(buffer).at(i, j)] final(buffer).in_bounds(i, j) ==> final(buffer).at(i, j) == steps_cell(
            old(buffer).at(i, j),
            own_plan(node_plan(arena.nodes(), rel@, key, origin, clip, (arena.nodes().len() - path.len()) as nat).unwrap(), draw_self),
            i,
            j,
        ),
        final(layouts)@ == recorded_cache(
            old(layouts)@,
            own_plan(node_plan(arena.nodes(), rel@, key, origin, clip, (arena.nodes().len() - path.len()) as nat).unwrap(), draw_self),
        ),
        final(changed)@ == old(changed)@ + recorded_changes(
            old(layouts)@,
            own_plan(node_plan(arena.nodes(), rel@, key, origin, clip, (arena.nodes().len() - path.len()) as nat).unwrap(), draw_self),
        ),
    decreases arena.nodes().len() - path.len(),
{
    let ghost ns = arena.nodes();
    let ghost fuel = (ns.len() - path.len()) as nat;
    let ghost plan0 = node_plan(ns, rel@, key, origin, clip, fuel).unwrap();
    let ghost plan = own_plan(plan0, draw_self);
    proof {
        crate::arena::lemma_root_path_bound(ns, path);
        assert(live(ns, path[path.len() - 1] as int));
    }
    let n = arena.get(key);
    let skip = match n {
        RealNode::RawText { .. } => true,
        RealNode::Text { parent, .. } => match parent {
            Some(p) => {
                proof {
                    assert(live(ns, key as int));
                }
                arena.get(*p).is_text()
            },
            None => false,
        },
        _ => false,
    };
    if skip {
        proof {
            assert(plan0 =~= Seq::<StepView>::empty());
            assert(plan =~= Seq::<StepView>::empty());
        }
        assert(old(changed)@ + Seq::<(NodeKey, LayoutRect)>::empty() =~= old(changed)@);
        return;
    }
    let rect = rel[key].translate(origin);
    let ghost b0 = *buffer;
    let ghost l0 = layouts@;
    let ghost c0 = changed@;
    record_layout(layouts, changed, key, rect);
    let (child_clip, kids) = match n {
        RealNode::Block { border, bg_color, overflow, children, .. } => {
            assert(plan0[0] == StepView { key, rect, clip, draw: DrawView::Block { border: *border, bg_color: *bg_color } });
            if draw_self {
                draw_block(buffer, clip, rect, border, *bg_color);
            } else {
                assert(plan[0] == StepView { key, rect, clip, draw: DrawView::Nothing });
            }
            let cc = if overflow.clips() {
                let inner = rect.inset(border.get_inset());
                Some(match clip {
                    Some(outer) => outer.intersect(inner),
                    None => inner,
                })
            } else {
                clip
            };
            (cc, children)
        },
        RealNode::Text { style, wrap, .. } => {
            let mut chars: Vec<StyledChar> = Vec::new();
            collect_styled(arena, key, *style, &mut chars, Ghost(path));
            assert(chars@ =~= styled_list(ns, node(ns, key as int).children, *style, fuel));
            draw_text(buffer, clip, &rect, &chars, *wrap, *style);
            proof {
                let st = StepView { key, rect, clip, draw: DrawView::Text { chars: chars@, wrap: *wrap, style: *style } };
                assert(plan0 == seq![st]);
                assert(plan == plan0);
                assert forall|i: int, j: int| #![trigger buffer.at(i, j)] buffer.in_bounds(i, j) implies buffer.at(i, j) == steps_cell(b0.at(i, j), plan, i, j) by {
                    lemma_single_step(l0, st, b0.at(i, j), i, j);
                }
                lemma_single_step(l0, st, b0.at(0, 0), 0, 0);
                assert(changed@ =~= c0 + recorded_changes(l0, plan));
            }
            return;
        },
        RealNode::Placeholder { children, .. } => {
            assert(plan0[0] == StepView { key, rect, clip, draw: DrawView::Nothing });
            assert(plan == plan0);
            (clip, children)
        },
        RealNode::RawText { .. } => {
            proof {
                assert(false);
            }
            return;
        },
    };
    let ghost step = plan[0];
    let ghost head = seq![step];
    let ghost ks = kids@;
    let ghost b1 = *buffer;
    let ghost l1 = layouts@;
    let ghost c1 = changed@;
    let ghost cf = (fuel - 1) as nat;
    proof {
        assert(ks == node(ns, key as int).children);
        if ks.len() > 0 {
            lemma_root_path_child(ns, path, ks, 0);
        }
        lemma_single_step(l0, step, b0.at(0, 0), 0, 0);
        assert(c1 =~= c0 + recorded_changes(l0, head));
        assert forall|x: int, y: int| #![trigger b1.at(x, y)] b1.in_bounds(x, y) implies b1.at(x, y) == steps_cell(b0.at(x, y), head, x, y) by {
            lemma_single_step(l0, step, b0.at(x, y), x, y);
        }
        assert(ks.take(0) =~= Seq::<NodeKey>::empty());
        assert(c1 + Seq::<(NodeKey, LayoutRect)>::empty() =~= c1);
    }
    let mut i: usize = 0;
    while i < kids.len()
        invariant
            arena.wf(),
            ns == arena.nodes(),
            rel@.len() == ns.len(),
            ks == kids@,
            ks == node(ns, key as int).children,
            root_path(ns, path),
            path.last() == key,
            fuel == ns.len() - path.len(),
            fuel >= 1 ==> cf == fuel - 1,
            ks.len() > 0 ==> fuel >= 1,
            ks.len() > 0 ==> children_plan(ns, rel@, ks, rect.first, child_clip, cf) is Some,
            i <= kids.len(),
            buffer.wf(),
            buffer.width == b0.width,
            buffer.height == b0.height,
            forall|x: int, y: int| #![trigger buffer.at(x, y)] buffer.in_bounds(x, y) ==> buffer.at(x, y) == steps_cell(
                b1.at(x, y),
                children_plan(ns, rel@, ks.take(i as int), rect.first, child_clip, cf).unwrap(),
                x,
                y,
            ),
            layouts@ == recorded_cache(l1, children_plan(ns, rel@, ks.take(i as int), rect.first, child_clip, cf).unwrap()),
            changed@ == c1 + recorded_changes(l1, children_plan(ns, rel@, ks.take(i as int), rect.first, child_clip, cf).unwrap()),
        decreases kids.len() - i,
    {
        let c = kids[i];
        let ghost bi = *buffer;
        let ghost li = layouts@;
        let ghost ci = changed@;
        proof {
            lemma_root_path_child(ns, path, ks, i as int);
            lemma_children_plan_take(ns, rel@, ks, rect.first, child_clip, cf, i as int);
            assert(path.push(c).len() == path.len() + 1);
            assert(ns.len() - path.push(c).len() == cf);
        }
        paint_node(arena, rel, c, rect.first, child_clip, buffer, layouts, changed, true, Ghost(path.push(c)));
        proof {
            let a = children_plan(ns, rel@, ks.take(i as int), rect.first, child_clip, cf).unwrap();
            let b = node_plan(ns, rel@, c, rect.first, child_clip, cf).unwrap();
            assert(children_plan(ns, rel@, ks.take(i + 1), rect.first, child_clip, cf).unwrap() == a + b);
            assert forall|x: int, y: int| #![trigger buffer.at(x, y)] buffer.in_bounds(x, y) implies buffer.at(x, y) == steps_cell(b1.at(x, y), a + b, x, y) by {
                lemma_steps_cell_concat(b1.at(x, y), a, b, x, y);
                assert(bi.in_bounds(x, y));
            }
            lemma_recorded_concat(l1, a, b);
            assert(changed@ =~= c1 + recorded_changes(l1, a + b));
        }
        i += 1;
    }
    proof {
        assert(ks.take(kids.len() as int) =~= ks);
        let cp = children_plan(ns, rel@, ks, rect.first, child_clip, cf).unwrap();
        if ks.len() == 0 {
            assert(cp =~= Seq::<StepView>::empty());
        }
        assert(plan0 =~= seq![plan0[0]] + cp);
        assert(plan =~= head + cp);
        assert forall|x: int, y: int| #![trigger buffer.at(x, y)] buffer.in_bounds(x, y) implies buffer.at(x, y) == steps_cell(b0.at(x, y), plan, x, y) by {
            lemma_steps_cell_concat(b0.at(x, y), head, cp, x, y);
            assert(b1.in_bounds(x, y));
        }
        lemma_recorded_concat(l0, head, cp);
        assert(changed@ =~= c0 + recorded_changes(l0, plan));
    }
}

} // verus!

verus! {

/// Whether the children of `key` are all inline: bare text, or text spans whose own
/// children are inline in turn.
fn check_inline(arena: &Arena, key: NodeKey, Ghost(path): Ghost<Seq<NodeKey>>) -> (b: bool)
    requires
        arena.wf(),
        root_path(arena.nodes(), path),
        path.last() == key,
    ensures
        b == inline_only(arena.nodes(), node(arena.nodes(), key as int).children, (arena.nodes().len() - path.len()) as nat),
    decreases arena.nodes().len() - path.len(),
{
    let ghost ns = arena.nodes();
    proof {
        crate::arena::lemma_root_path_bound(ns, path);
        assert(live(ns, path[path.len() - 1] as int));
    }
    let ghost budget = (ns.len() - path.len()) as nat;
    let kids = match arena.get(key).children() {
        Some(ch) => ch,
        None => {
            return true;
        },
    };
    let ghost ks = kids@;
    let mut i: usize = 0;
    while i < kids.len()
        invariant
            arena.wf(),
            ns == arena.nodes(),
            ks == kids@,
            ks == node(ns, key as int).children,
            root_path(ns, path),
            path.last() == key,
            budget == ns.len() - path.len(),
            i <= kids.len(),
            inline_only(ns, ks.take(i as int), budget),
        decreases kids.len() - i,
    {
        let c = kids[i];
        proof {
            lemma_root_path_child(ns, path, ks, i as int);
            assert(ks.take(i + 1).drop_last() =~= ks.take(i as int));
            assert(ks.take(i + 1).last() == c);
        }
        let ok = match arena.get(c) {
            RealNode::RawText { .. } => true,
            RealNode::Text { .. } => check_inline(arena, c, Ghost(path.push(c))),
            _ => false,
        };
        if !ok {
            proof {
                if inline_only(ns, ks, budget) {
                    lemma_inline_prefix(ns, ks, i + 1, budget);
                }
            }
            return false;
        }
        i += 1;
    }
    assert(ks.take(kids.len() as int) =~= ks);
    true
}

/// Whether planning the subtree at `key` stays inside `i32` and finds only inline content
/// under text: exactly when [`node_plan`] gives a plan.
fn check_plan(
    arena: &Arena,
    rel: &Vec<LayoutRect>,
    key: NodeKey,
    origin: Point,
    clip: Option<LayoutRect>,
    Ghost(path): Ghost<Seq<NodeKey>>,
) -> (b: bool)
    requires
        arena.wf(),
        rel@.len() == arena.nodes().len(),
        root_path(arena.nodes(), path),
        path.last() == key,
    ensures
        b == node_plan(arena.nodes(), rel@, key, origin, clip, (arena.nodes().len() - path.len()) as nat) is Some,
    decreases arena.nodes().len() - path.len(),
{
    let ghost ns = arena.nodes();
    let ghost fuel = (ns.len() - path.len()) as nat;
    proof {
        crate::arena::lemma_root_path_bound(ns, path);
        assert(live(ns, path[path.len() - 1] as int));
    }
    let n = arena.get(key);
    let skip = match n {
        RealNode::RawText { .. } => true,
        RealNode::Text { parent, .. } => match parent {
            Some(p) => arena.get(*p).is_text(),
            None => false,
        },
        _ => false,
    };
    if skip {
        return true;
    }
    if !rel[key].translate_fits(origin) {
        return false;
    }
    let rect = rel[key].translate(origin);
    let (child_clip, kids) = match n {
        RealNode::Block { border, overflow, children, .. } => {
            if rect.first != rect.second && (rect.second.x == i32::MIN || rect.second.y == i32::MIN) {
                return false;
            }
            let cc = if overflow.clips() {
                if !rect.inset_fits(border.get_inset()) {
                    return false;
                }
                let inner = rect.inset(border.get_inset());
                Some(match clip {
                    Some(outer) => outer.intersect(inner),
                    None => inner,
                })
            } else {
                clip
            };
            proof {
                assert(node(ns, key as int).children == children@);
                assert(cc == block_child_clip(rect, *border, *overflow, clip));
                if children@.len() == 0 {
                    assert(children_plan(ns, rel@, children@, rect.first, cc, (fuel - 1) as nat) is Some);
                }
            }
            (cc, children)
        },
        RealNode::Text { style, wrap, .. } => {
            if !check_inline(arena, key, Ghost(path)) {
                return false;
            }
            if rect.second.x.checked_sub(rect.first.x).is_none() {
                return false;
            }
            let mut chars: Vec<StyledChar> = Vec::new();
            collect_styled(arena, key, *style, &mut chars, Ghost(path));
            assert(chars@ =~= styled_list(ns, node(ns, key as int).children, *style, fuel));
            let available = (rect.second.x - rect.first.x) as usize;
            let (widest, rows) = measure_wrapped(*wrap, &chars, available, *style);
            let max: usize = 2147483647;
            if widest > max || rows > max {
                return false;
            }
            let fits = (rect.first.x as i64) + (widest as i64) <= 2147483647i64 && (rect.first.y as i64) + (rows as i64)
                <= 2147483647i64;
            proof {
                let tr = text_rows(rect, chars@, *wrap, *style);
                assert(available == (rect.second.x - rect.first.x) as usize);
                assert(widest == crate::text::widest(tr));
                assert(rows == tr.len());
                assert(fits == text_fits(tr, rect.first));
                assert(!nested_text(ns, key));
            }
            return fits;
        },
        RealNode::Placeholder { children, .. } => {
            proof {
                assert(node(ns, key as int).children == children@);
                if children@.len() == 0 {
                    assert(children_plan(ns, rel@, children@, rect.first, clip, (fuel - 1) as nat) is Some);
                }
            }
            (clip, children)
        },
        RealNode::RawText { .. } => {
            return true;
        },
    };
    let ghost ks = kids@;
    let ghost cf = (fuel - 1) as nat;
    proof {
        assert(ks == node(ns, key as int).children);
        if ks.len() > 0 {
            lemma_root_path_child(ns, path, ks, 0);
        }
        assert(ks.take(0) =~= Seq::<NodeKey>::empty());
    }
    let mut i: usize = 0;
    while i < kids.len()
        invariant
            arena.wf(),
            ns == arena.nodes(),
            rel@.len() == ns.len(),
            ks == kids@,
            ks == node(ns, key as int).children,
            root_path(ns, path),
            path.last() == key,
            fuel == ns.len() - path.len(),
            fuel >= 1 ==> cf == fuel - 1,
            ks.len() > 0 ==> fuel >= 1,
            i <= kids.len(),
            children_plan(ns, rel@, ks.take(i as int), rect.first, child_clip, cf) is Some,
            fuel >= 1 ==> (node_plan(ns, rel@, key, origin, clip, fuel) is Some <==> children_plan(
                ns,
                rel@,
                ks,
                rect.first,
                child_clip,
                cf,
            ) is Some),
            ks.len() == 0 ==> node_plan(ns, rel@, key, origin, clip, fuel) is Some,
        decreases kids.len() - i,
    {
        let c = kids[i];
        proof {
            lemma_root_path_child(ns, path, ks, i as int);
            assert(ks.take(i + 1).drop_last() =~= ks.take(i as int));
            assert(ks.take(i + 1).last() == c);
            assert(path.push(c).len() == path.len() + 1);
            assert(ns.len() - path.push(c).len() == cf);
        }
        if !check_plan(arena, rel, c, rect.first, child_clip, Ghost(path.push(c))) {
            proof {
                if children_plan(ns, rel@, ks, rect.first, child_clip, cf) is Some {
                    lemma_children_plan_take(ns, rel@, ks, rect.first, child_clip, cf, i as int);
                }
            }
            return false;
        }
        i += 1;
    }
    assert(ks.take(kids.len() as int) =~= ks);
    proof {
        if ks.len() > 0 {
            assert(children_plan(ns, rel@, ks, rect.first, child_clip, cf) is Some);
        }
    }
    true
}

/// Whether painting the tree under `root` with layout rects `rel` can go ahead: exactly when
/// [`frame_plan`] gives a plan (every placement stays inside `i32`, and text holds only
/// inline content).
pub fn paintable(arena: &Arena, root: NodeKey, rel: &Vec<LayoutRect>) -> (b: bool)
    requires
        arena.wf(),
        rel@.len() == arena.nodes().len(),
        live(arena.nodes(), root as int),
        reachable(arena.nodes(), root),
    ensures
        b == frame_plan(arena.nodes(), rel@, root) is Some,
{
    let ghost ns = arena.nodes();
    let ghost path = path_to(ns, root);
    proof {
        lemma_path_to(ns, root);
    }
    let origin = rel[root].first;
    check_plan(arena, rel, root, origin, None, Ghost(path))
}

/// The clip a node hands its children in a hit test: as when painting, a clipping block
/// narrows it to its inside.
pub open spec fn hit_child_clip(kind: Kind, rect: LayoutRect, clip: Option<LayoutRect>) -> Option<LayoutRect> {
    match kind {
        Kind::Block { border, overflow, .. } => block_child_clip(rect, border, overflow, clip),
        _ => clip,
    }
}

/// Whether computing `kind`'s child clip at `rect` stays inside `i32`.
pub open spec fn child_clip_fits(kind: Kind, rect: LayoutRect) -> bool {
    match kind {
        Kind::Block { border, overflow, .. } => !overflow_clips(overflow) || inset_fits(rect, border_inset(border) as int),
        _ => true,
    }
}

/// The topmost block under `point` in the subtree at `key`: its children are searched first,
/// the later ones before the earlier (they paint over them), and the node itself is a hit
/// when it is a block whose rect holds the point and the clip in force lets it through.
/// The outer `None` means some coordinate on the way left `i32`.
pub open spec fn hit_node(
    ns: Seq<Option<NodeView>>,
    rel: Seq<LayoutRect>,
    key: NodeKey,
    origin: Point,
    point: Point,
    clip: Option<LayoutRect>,
    fuel: nat,
) -> Option<Option<NodeKey>>
    decreases fuel, 0nat,
{
    let n = node(ns, key as int);
    if n.kind is RawText {
        Some(None)
    } else if !translate_fits(rel[key as int], origin) {
        None
    } else {
        let rect = rect_translated(rel[key as int], origin);
        if !child_clip_fits(n.kind, rect) {
            None
        } else {
            let below = if fuel == 0 {
                Some(None)
            } else {
                hit_children(ns, rel, n.children, rect.first, point, hit_child_clip(n.kind, rect, clip), (fuel - 1) as nat)
            };
            match below {
                Some(None) => Some(
                    if rect_contains(rect, point) && clip_allows(clip, point) && n.kind is Block {
                        Some(key)
                    } else {
                        None
                    },
                ),
                other => other,
            }
        }
    }
}

/// The first hit among the subtrees at `kids`, searched from the last to the first.
pub open spec fn hit_children(
    ns: Seq<Option<NodeView>>,
    rel: Seq<LayoutRect>,
    kids: Seq<NodeKey>,
    origin: Point,
    point: Point,
    clip: Option<LayoutRect>,
    fuel: nat,
) -> Option<Option<NodeKey>>
    decreases fuel, kids.len() + 1,
{
    if kids.len() == 0 {
        Some(None)
    } else {
        match hit_node(ns, rel, kids.last(), origin, point, clip, fuel) {
            Some(None) => hit_children(ns, rel, kids.drop_last(), origin, point, clip, fuel),
            other => other,
        }
    }
}

/// Depth-first search for the topmost block under `point` in the subtree at `key` (whose
/// chain from its root is `path`), each node placed at `rel[k]` translated by its parent's
/// top-left (`origin` for `key`).
fn hit_test_node(
    arena: &Arena,
    rel: &Vec<LayoutRect>,
    key: NodeKey,
    origin: Point,
    point: Point,
    clip: Option<LayoutRect>,
    Ghost(path): Ghost<Seq<NodeKey>>,
) -> (hit: Option<Option<NodeKey>>)
    requires
        arena.wf(),
        rel@.len() == arena.nodes().len(),
        root_path(arena.nodes(), path),
        path.last() == key,
    ensures
        hit == hit_node(arena.nodes(), rel@, key, origin, point, clip, (arena.nodes().len() - path.len()) as nat),
    decreases arena.nodes().len() - path.len(),
{
    let ghost ns = arena.nodes();
    let ghost fuel = (ns.len() - path.len()) as nat;
    proof {
        crate::arena::lemma_root_path_bound(ns, path);
        assert(live(ns, path[path.len() - 1] as int));
    }
    let n = arena.get(key);
    let kids = match n.children() {
        Some(ch) if n.has_layout() => ch,
        _ => {
            return Some(None);
        },
    };
    if !rel[key].translate_fits(origin) {
        return None;
    }
    let rect = rel[key].translate(origin);
    let child_clip = match n {
        RealNode::Block { border, overflow, .. } => if overflow.clips() {
            if !rect.inset_fits(border.get_inset()) {
                return None;
            }
            let inner = rect.inset(border.get_inset());
            Some(match clip {
                Some(outer) => outer.intersect(inner),
                None => inner,
            })
        } else {
            clip
        },
        _ => clip,
    };
    let ghost ks = kids@;
    let ghost cf = (fuel - 1) as nat;
    proof {
        assert(child_clip == hit_child_clip(node(ns, key as int).kind, rect, clip));
        if ks.len() > 0 {
            lemma_root_path_child(ns, path, ks, 0);
        }
        assert(ks.take(ks.len() as int) =~= ks);
    }
    let mut i: usize = kids.len();
    while i > 0
        invariant
            arena.wf(),
            ns == arena.nodes(),
            rel@.len() == ns.len(),
            ks == kids@,
            ks == node(ns, key as int).children,
            root_path(ns, path),
            path.last() == key,
            fuel == ns.len() - path.len(),
            fuel >= 1 ==> cf == fuel - 1,
            ks.len() > 0 ==> fuel >= 1,
            !(node(ns, key as int).kind is RawText),
            translate_fits(rel@[key as int], origin),
            rect == rect_translated(rel@[key as int], origin),
            child_clip_fits(node(ns, key as int).kind, rect),
            child_clip == hit_child_clip(node(ns, key as int).kind, rect, clip),
            i <= kids.len(),
            ks.len() > 0 ==> hit_children(ns, rel@, ks, rect.first, point, child_clip, cf) == hit_children(
                ns,
                rel@,
                ks.take(i as int),
                rect.first,
                point,
                child_clip,
                cf,
            ),
        decreases i,
    {
        let c = kids[i - 1];
        proof {
            lemma_root_path_child(ns, path, ks, i - 1);
            assert(ks.take(i as int).drop_last() =~= ks.take(i - 1));
            assert(ks.take(i as int).last() == c);
            assert(path.push(c).len() == path.len() + 1);
        }
        let found = hit_test_node(arena, rel, c, rect.first, point, child_clip, Ghost(path.push(c)));
        if !(found matches Some(None)) {
            proof {
                assert(hit_children(ns, rel@, ks.take(i as int), rect.first, point, child_clip, cf) == found);
                assert(hit_children(ns, rel@, ks, rect.first, point, child_clip, cf) == found);
                assert(fuel != 0);
                assert(!(node(ns, key as int).kind is RawText));
                assert(translate_fits(rel@[key as int], origin));
                assert(rect == rect_translated(rel@[key as int], origin));
                assert(child_clip_fits(node(ns, key as int).kind, rect));
                assert(hit_node(ns, rel@, key, origin, point, clip, fuel) == found);
            }
            return found;
        }
        i -= 1;
    }
    proof {
        if ks.len() > 0 {
            assert(ks.take(0) =~= Seq::<NodeKey>::empty());
        }
    }
    let inside = rect.contains(point) && match clip {
        Some(c) => c.contains(point),
        None => true,
    };
    let is_block = match n {
        RealNode::Block { .. } => true,
        _ => false,
    };
    if inside && is_block {
        Some(Some(key))
    } else {
        Some(None)
    }
}

} // verus!

verus! {

/// Whether some chain from a parentless node leads down to `key` (no cycle lies above it).
pub open spec fn reachable(ns: Seq<Option<NodeView>>, key: NodeKey) -> bool {
    exists|q: Seq<NodeKey>| #[trigger] root_path(ns, q) && q.last() == key
}

/// How much deeper than `key` the tree can reach: the slots left beyond its chain from the
/// root.
pub open spec fn depth_fuel(ns: Seq<Option<NodeView>>, key: NodeKey) -> nat {
    (ns.len() - path_to(ns, key).len()) as nat
}

/// The chain from a parentless node down to `key`, when there is one.
pub open spec fn path_to(ns: Seq<Option<NodeView>>, key: NodeKey) -> Seq<NodeKey> {
    choose|q: Seq<NodeKey>| #[trigger] root_path(ns, q) && q.last() == key
}

proof fn lemma_path_to(ns: Seq<Option<NodeView>>, key: NodeKey)
    requires
        reachable(ns, key),
    ensures
        root_path(ns, path_to(ns, key)),
        path_to(ns, key).last() == key,
{
}

/// A `width` by `height` grid of blank cells.
pub open spec fn blank_grid(width: nat, height: nat) -> Seq<Seq<Cell>> {
    Seq::new(height, |y: int| Seq::new(width, |x: int| blank_cell()))
}

/// `p` with its first step drawing nothing when that step would draw a block: the rect is
/// still recorded, but no box is painted.
pub open spec fn without_own_box(p: Seq<StepView>) -> Seq<StepView> {
    if p.len() > 0 && p[0].draw is Block {
        p.update(0, StepView { draw: DrawView::Nothing, ..p[0] })
    } else {
        p
    }
}

/// The plan `p` of a subtree, or, unless `draw_self`, that plan without its top block's box.
pub open spec fn own_plan(p: Seq<StepView>, draw_self: bool) -> Seq<StepView> {
    if draw_self {
        p
    } else {
        without_own_box(p)
    }
}

/// The steps of painting the whole tree under `root`: the root placed at its own layout
/// offset, nothing clipped. The root is a bare mount point: its rect is recorded and its
/// children are painted, but it never paints a border or background of its own.
pub open spec fn frame_plan(ns: Seq<Option<NodeView>>, rel: Seq<LayoutRect>, root: NodeKey) -> Option<Seq<StepView>> {
    match node_plan(ns, rel, root, rel[root as int].first, None, depth_fuel(ns, root)) {
        Some(p) => Some(without_own_box(p)),
        None => None,
    }
}

/// The previous frame kept between paints, if one was painted yet.
pub struct Screen {
    pub buffer: Option<Buffer>,
}

impl Screen {
    /// A kept frame is a well-formed grid.
    pub open spec fn inv(&self) -> bool {
        match self.buffer {
            Some(b) => b.wf(),
            None => true,
        }
    }

    /// A screen with nothing painted yet.
    pub fn new() -> (s: Screen)
        ensures
            s.buffer is None,
            s.inv(),
    {
        Screen { buffer: None }
    }
}

impl Default for Screen {
    fn default() -> (s: Screen)
        ensures
            s.buffer is None,
    {
        Screen::new()
    }
}

/// What one paint hands to the terminal: whether to clear it first, the writes that bring it
/// up to date, and the nodes whose layout changed.
#[derive(Clone, Debug)]
pub struct Frame {
    pub clear: bool,
    pub runs: Vec<Run>,
    pub changed: Vec<(NodeKey, LayoutRect)>,
}

/// Whether the kept frame can be diffed against a new `width` by `height` one.
pub open spec fn reusable(screen: Screen, width: u32, height: u32) -> bool {
    match screen.buffer {
        Some(b) => b.width == width && b.height == height,
        None => false,
    }
}

/// Finds the topmost block under `point`, using each node's layout `rel[k]` (relative to its
/// parent); the root is placed at its own offset.
pub fn hit_test(arena: &Arena, root: NodeKey, rel: &Vec<LayoutRect>, point: Point) -> (hit: Option<NodeKey>)
    requires
        arena.wf(),
        rel@.len() == arena.nodes().len(),
        live(arena.nodes(), root as int),
        reachable(arena.nodes(), root),
        hit_node(arena.nodes(), rel@, root, rel@[root as int].first, point, None, depth_fuel(arena.nodes(), root)) is Some,
    ensures
        Some(hit) == hit_node(arena.nodes(), rel@, root, rel@[root as int].first, point, None, depth_fuel(arena.nodes(), root)),
{
    let ghost ns = arena.nodes();
    let ghost path = path_to(ns, root);
    proof {
        lemma_path_to(ns, root);
    }
    let origin = rel[root].first;
    hit_test_node(arena, rel, root, origin, point, None, Ghost(path)).unwrap()
}

/// The hit test where a placement may leave `i32`: `None` when some coordinate on the way
/// does (where `hit_test` would overflow), else the topmost block under `point`, if any.
pub fn checked_hit_test(arena: &Arena, root: NodeKey, rel: &Vec<LayoutRect>, point: Point) -> (hit: Option<Option<NodeKey>>)
    requires
        arena.wf(),
        rel@.len() == arena.nodes().len(),
        live(arena.nodes(), root as int),
        reachable(arena.nodes(), root),
    ensures
        hit == hit_node(arena.nodes(), rel@, root, rel@[root as int].first, point, None, depth_fuel(arena.nodes(), root)),
{
    let ghost ns = arena.nodes();
    let ghost path = path_to(ns, root);
    proof {
        lemma_path_to(ns, root);
    }
    let origin = rel[root].first;
    hit_test_node(arena, rel, root, origin, point, None, Ghost(path))
}

/// Paints the tree under `root` into a fresh frame (the root itself draws no box, only its
/// descendants paint), records every visited node's rect in
/// `layouts`, and works out what the terminal needs: a clear and a full repaint when the kept
/// frame is missing or of another size, else only the cells that changed. The new frame is
/// kept in `screen` for the next call.
#[verifier::rlimit(30)]
pub fn paint(
    screen: &mut Screen,
    arena: &Arena,
    root: NodeKey,
    rel: &Vec<LayoutRect>,
    width: u32,
    height: u32,
    layouts: &mut HashMap<NodeKey, LayoutRect>,
) -> (frame: Frame)
    requires
        old(screen).inv(),
        arena.wf(),
        rel@.len() == arena.nodes().len(),
        live(arena.nodes(), root as int),
        reachable(arena.nodes(), root),
        frame_plan(arena.nodes(), rel@, root) is Some,
    ensures
        final(screen).inv(),
        final(screen).buffer is Some,
        final(screen).buffer.unwrap().width == width,
        final(screen).buffer.unwrap().height == height,
        forall|x: int, y: int| #![trigger final(screen).buffer.unwrap().at(x, y)]
            final(screen).buffer.unwrap().in_bounds(x, y) ==> final(screen).buffer.unwrap().at(x, y) == steps_cell(
                blank_cell(),
                frame_plan(arena.nodes(), rel@, root).unwrap(),
                x,
                y,
            ),
        frame.clear == !reusable(*old(screen), width, height),
        frame.runs@.map_values(|r: Run| r.view()) == grid_runs(
            if frame.clear { blank_grid(width as nat, height as nat) } else { old(screen).buffer.unwrap().grid() },
            final(screen).buffer.unwrap().grid(),
            height as int,
        ),
        final(layouts)@ == recorded_cache(old(layouts)@, frame_plan(arena.nodes(), rel@, root).unwrap()),
        frame.changed@ == recorded_changes(old(layouts)@, frame_plan(arena.nodes(), rel@, root).unwrap()),
{
    let ghost ns = arena.nodes();
    let ghost path = path_to(ns, root);
    proof {
        lemma_path_to(ns, root);
    }
    let mut buffer = Buffer::blank(width, height);
    let ghost b0 = buffer;
    let mut changed: Vec<(NodeKey, LayoutRect)> = Vec::new();
    let origin = rel[root].first;
    paint_node(arena, rel, root, origin, None, &mut buffer, layouts, &mut changed, false, Ghost(path));
    assert(Seq::<(NodeKey, LayoutRect)>::empty() + recorded_changes(old(layouts)@, frame_plan(ns, rel@, root).unwrap())
        =~= recorded_changes(old(layouts)@, frame_plan(ns, rel@, root).unwrap()));
    let reuse = match &screen.buffer {
        Some(p) => p.width == width && p.height == height,
        None => false,
    };
    let clear = !reuse;
    let mut kept: Option<Buffer> = None;
    std::mem::swap(&mut kept, &mut screen.buffer);
    let prev = if reuse {
        kept.unwrap()
    } else {
        let b = Buffer::blank(width, height);
        proof {
            assert forall|y: int| 0 <= y < height implies b.grid()[y] =~= blank_grid(width as nat, height as nat)[y] by {
                assert(b.grid()[y] == b.cells@[y]@);
                assert forall|x: int| 0 <= x < width implies b.grid()[y][x] == blank_cell() by {
                    assert(b.in_bounds(x, y));
                    assert(b.at(x, y) == blank_cell());
                }
            }
            assert(b.grid() =~= blank_grid(width as nat, height as nat));
        }
        b
    };
    let runs = diff_runs(&prev, &buffer);
    screen.buffer = Some(buffer);
    Frame { clear, runs, changed }
}

} // verus!

verus! {

/// A hit test only ever answers with a live block.
pub proof fn lemma_hit_is_block(
    ns: Seq<Option<NodeView>>,
    rel: Seq<LayoutRect>,
    key: NodeKey,
    origin: Point,
    point: Point,
    clip: Option<LayoutRect>,
    fuel: nat,
    h: NodeKey,
)
    requires
        crate::arena::tree_wf(ns),
        live(ns, key as int),
        hit_node(ns, rel, key, origin, point, clip, fuel) == Some(Some(h)),
    ensures
        live(ns, h as int),
        node(ns, h as int).kind is Block,
    decreases fuel, 0nat,
{
    let n = node(ns, key as int);
    let rect = rect_translated(rel[key as int], origin);
    if fuel > 0 {
        let below = hit_children(ns, rel, n.children, rect.first, point, hit_child_clip(n.kind, rect, clip), (fuel - 1) as nat);
        if below == Some(Some(h)) {
            assert(n.children.take(n.children.len() as int) =~= n.children);
            lemma_hit_children_block(ns, rel, n.children, rect.first, point, hit_child_clip(n.kind, rect, clip), (fuel - 1) as nat, h, key);
        }
    }
}

proof fn lemma_hit_children_block(
    ns: Seq<Option<NodeView>>,
    rel: Seq<LayoutRect>,
    kids: Seq<NodeKey>,
    origin: Point,
    point: Point,
    clip: Option<LayoutRect>,
    fuel: nat,
    h: NodeKey,
    parent: NodeKey,
)
    requires
        crate::arena::tree_wf(ns),
        live(ns, parent as int),
        kids == node(ns, parent as int).children.take(kids.len() as int),
        kids.len() <= node(ns, parent as int).children.len(),
        hit_children(ns, rel, kids, origin, point, clip, fuel) == Some(Some(h)),
    ensures
        live(ns, h as int),
        node(ns, h as int).kind is Block,
    decreases fuel, kids.len() + 1,
{
    if kids.len() > 0 {
        let last = kids.last();
        let all = node(ns, parent as int).children;
        assert(last == all[kids.len() - 1]);
        assert(live(ns, all[kids.len() - 1] as int));
        if hit_node(ns, rel, last, origin, point, clip, fuel) == Some(Some(h)) {
            lemma_hit_is_block(ns, rel, last, origin, point, clip, fuel, h);
        } else {
            assert(kids.drop_last() == all.take(kids.len() - 1));
            lemma_hit_children_block(ns, rel, kids.drop_last(), origin, point, clip, fuel, h, parent);
        }
    }
}

} // verus!

verus! {

/// The `Text` nodes of the subtree at `key` that are laid out on their own (every `Text`
/// reached without passing through another `Text`), in tree order.
pub open spec fn measured_in(ns: Seq<Option<NodeView>>, key: NodeKey, fuel: nat) -> Seq<NodeKey>
    decreases fuel, 0nat,
{
    if node(ns, key as int).kind is Text {
        seq![key]
    } else if fuel == 0 {
        Seq::empty()
    } else {
        measured_among(ns, node(ns, key as int).children, (fuel - 1) as nat)
    }
}

/// The same for each subtree at `kids`, one after the other.
pub open spec fn measured_among(ns: Seq<Option<NodeView>>, kids: Seq<NodeKey>, fuel: nat) -> Seq<NodeKey>
    decreases fuel, kids.len() + 1,
{
    if kids.len() == 0 {
        Seq::empty()
    } else {
        measured_among(ns, kids.drop_last(), fuel) + measured_in(ns, kids.last(), fuel)
    }
}

fn collect_measured(arena: &Arena, key: NodeKey, out: &mut Vec<NodeKey>, Ghost(path): Ghost<Seq<NodeKey>>)
    requires
        arena.wf(),
        root_path(arena.nodes(), path),
        path.last() == key,
    ensures
        final(out)@ == old(out)@ + measured_in(arena.nodes(), key, (arena.nodes().len() - path.len()) as nat),
    decreases arena.nodes().len() - path.len(),
{
    let ghost ns = arena.nodes();
    let ghost fuel = (ns.len() - path.len()) as nat;
    proof {
        crate::arena::lemma_root_path_bound(ns, path);
        assert(live(ns, path[path.len() - 1] as int));
    }
    let n = arena.get(key);
    if n.is_text() {
        out.push(key);
        return;
    }
    let kids = match n.children() {
        Some(ch) => ch,
        None => {
            assert(old(out)@ + Seq::<NodeKey>::empty() =~= old(out)@);
            return;
        },
    };
    let ghost ks = kids@;
    let ghost cf = (fuel - 1) as nat;
    proof {
        if ks.len() > 0 {
            lemma_root_path_child(ns, path, ks, 0);
        }
        assert(ks.take(0) =~= Seq::<NodeKey>::empty());
        assert(old(out)@ + Seq::<NodeKey>::empty() =~= old(out)@);
    }
    let mut i: usize = 0;
    while i < kids.len()
        invariant
            arena.wf(),
            ns == arena.nodes(),
            ks == kids@,
            ks == node(ns, key as int).children,
            root_path(ns, path),
            path.last() == key,
            fuel == ns.len() - path.len(),
            fuel >= 1 ==> cf == fuel - 1,
            ks.len() > 0 ==> fuel >= 1,
            i <= kids.len(),
            out@ == old(out)@ + measured_among(ns, ks.take(i as int), cf),
        decreases kids.len() - i,
    {
        let c = kids[i];
        proof {
            lemma_root_path_child(ns, path, ks, i as int);
            assert(ks.take(i + 1).drop_last() =~= ks.take(i as int));
            assert(ks.take(i + 1).last() == c);
            assert(path.push(c).len() == path.len() + 1);
        }
        let ghost before = out@;
        collect_measured(arena, c, out, Ghost(path.push(c)));
        assert(out@ =~= old(out)@ + measured_among(ns, ks.take(i + 1), cf));
        i += 1;
    }
    proof {
        assert(ks.take(kids.len() as int) =~= ks);
        if ks.len() == 0 {
            assert(measured_in(ns, key, fuel) =~= Seq::<NodeKey>::empty());
        }
    }
}

/// The `Text` nodes under `root` that the layout engine measures: each one reached without
/// passing through another `Text` (nested ones are inline spans of their ancestor).
pub fn measured_texts(arena: &Arena, root: NodeKey) -> (texts: Vec<NodeKey>)
    requires
        arena.wf(),
        live(arena.nodes(), root as int),
        reachable(arena.nodes(), root),
    ensures
        texts@ == measured_in(arena.nodes(), root, depth_fuel(arena.nodes(), root)),
{
    let ghost ns = arena.nodes();
    let ghost path = path_to(ns, root);
    proof {
        lemma_path_to(ns, root);
    }
    let mut out: Vec<NodeKey> = Vec::new();
    collect_measured(arena, root, &mut out, Ghost(path));
    assert(Seq::<NodeKey>::empty() + measured_in(ns, root, depth_fuel(ns, root)) =~= measured_in(ns, root, depth_fuel(ns, root)));
    out
}

/// The inline content of the `Text` node at `key`: its bare text and nested spans flattened
/// into styled characters, starting from the node's own style.
pub fn text_chars(arena: &Arena, key: NodeKey) -> (chars: Vec<StyledChar>)
    requires
        arena.wf(),
        live(arena.nodes(), key as int),
        reachable(arena.nodes(), key),
        node(arena.nodes(), key as int).kind is Text,
        inline_only(arena.nodes(), node(arena.nodes(), key as int).children, depth_fuel(arena.nodes(), key)),
    ensures
        chars@ == styled_list(
            arena.nodes(),
            node(arena.nodes(), key as int).children,
            node(arena.nodes(), key as int).kind->style,
            depth_fuel(arena.nodes(), key),
        ),
{
    let ghost ns = arena.nodes();
    let ghost path = path_to(ns, key);
    proof {
        lemma_path_to(ns, key);
    }
    let style = match arena.get(key) {
        RealNode::Text { style, .. } => *style,
        _ => Style::new(),
    };
    let mut chars: Vec<StyledChar> = Vec::new();
    collect_styled(arena, key, style, &mut chars, Ghost(path));
    assert(chars@ =~= styled_list(ns, node(ns, key as int).children, style, depth_fuel(ns, key)));
    chars
}

} // verus!

verus! {

/// A hit test answers a block only where every clip in force lets the point through: if the
/// subtree at `key`, searched under clip `clip`, answers `Some(h)`, the point lies inside
/// `clip` (and, the clip narrowing at each clipping block on the way down, inside the inner
/// rect of every clipping ancestor of `h`), and inside `h`'s own rect is checked at `h`.
pub proof fn lemma_hit_within_clip(
    ns: Seq<Option<NodeView>>,
    rel: Seq<LayoutRect>,
    key: NodeKey,
    origin: Point,
    point: Point,
    clip: Option<LayoutRect>,
    fuel: nat,
)
    ensures
        hit_node(ns, rel, key, origin, point, clip, fuel) matches Some(Some(h)) ==> clip_allows(clip, point),
    decreases fuel, 0nat,
{
    let n = node(ns, key as int);
    if !(n.kind is RawText) && translate_fits(rel[key as int], origin) {
        let rect = rect_translated(rel[key as int], origin);
        if child_clip_fits(n.kind, rect) && fuel > 0 {
            let cc = hit_child_clip(n.kind, rect, clip);
            lemma_hit_children_within_clip(ns, rel, n.children, rect.first, point, cc, (fuel - 1) as nat);
            lemma_child_clip_narrows(n.kind, rect, clip, point);
        }
    }
}

proof fn lemma_hit_children_within_clip(
    ns: Seq<Option<NodeView>>,
    rel: Seq<LayoutRect>,
    kids: Seq<NodeKey>,
    origin: Point,
    point: Point,
    clip: Option<LayoutRect>,
    fuel: nat,
)
    ensures
        hit_children(ns, rel, kids, origin, point, clip, fuel) matches Some(Some(h)) ==> clip_allows(clip, point),
    decreases fuel, kids.len() + 1,
{
    if kids.len() > 0 {
        lemma_hit_within_clip(ns, rel, kids.last(), origin, point, clip, fuel);
        lemma_hit_children_within_clip(ns, rel, kids.drop_last(), origin, point, clip, fuel);
    }
}

/// The clip a node hands its children lets through only points its own clip lets through.
proof fn lemma_child_clip_narrows(kind: Kind, rect: LayoutRect, clip: Option<LayoutRect>, p: Point)
    ensures
        clip_allows(hit_child_clip(kind, rect, clip), p) ==> clip_allows(clip, p),
{
    match clip {
        Some(c) => {
            crate::geometry::lemma_intersect_contains(c, rect_inset(rect, 1), p);
            crate::geometry::lemma_intersect_contains(c, rect_inset(rect, 0), p);
        },
        None => {},
    }
}

/// Painting never writes outside the clip in force: every cell the clip `clip` leaves out
/// keeps, after all the steps of painting the subtree at `key`, whatever it held before. A
/// block whose overflow clips narrows the clip for everything below it, so a `Text` (or any
/// node) inside it leaves every cell outside the block's inner rect alone.
pub proof fn lemma_paint_within_clip(
    ns: Seq<Option<NodeView>>,
    rel: Seq<LayoutRect>,
    key: NodeKey,
    origin: Point,
    clip: Option<LayoutRect>,
    fuel: nat,
    before: Cell,
    x: int,
    y: int,
)
    requires
        node_plan(ns, rel, key, origin, clip, fuel) is Some,
        !visible(clip, x, y),
    ensures
        steps_cell(before, node_plan(ns, rel, key, origin, clip, fuel).unwrap(), x, y) == before,
    decreases fuel, 0nat,
{
    let n = node(ns, key as int);
    let plan = node_plan(ns, rel, key, origin, clip, fuel).unwrap();
    if n.kind is RawText || nested_text(ns, key) {
        assert(plan =~= Seq::<StepView>::empty());
    } else {
        let rect = rect_translated(rel[key as int], origin);
        match n.kind {
            Kind::Text { .. } => {
                lemma_single_step(Map::empty(), plan[0], before, x, y);
                assert(plan =~= seq![plan[0]]);
            },
            Kind::Block { border, bg_color, overflow } => {
                let step = StepView { key, rect, clip, draw: DrawView::Block { border, bg_color } };
                let cc = block_child_clip(rect, border, overflow, clip);
                let head = seq![step];
                lemma_single_step(Map::empty(), step, before, x, y);
                assert(step_cell(before, step, x, y) == before);
                if fuel > 0 {
                    let cp = children_plan(ns, rel, n.children, rect.first, cc, (fuel - 1) as nat).unwrap();
                    assert(plan =~= head + cp);
                    crate::geometry::lemma_intersect_contains(
                        clip.unwrap(),
                        rect_inset(rect, border_inset(border) as int),
                        Point { x: x as i32, y: y as i32 },
                    );
                    assert(!visible(cc, x, y));
                    lemma_children_paint_within_clip(ns, rel, n.children, rect.first, cc, (fuel - 1) as nat, before, x, y);
                    lemma_steps_cell_concat(before, head, cp, x, y);
                } else {
                    assert(plan =~= head + Seq::<StepView>::empty());
                    assert(plan =~= head);
                }
            },
            _ => {
                let step = StepView { key, rect, clip, draw: DrawView::Nothing };
                let head = seq![step];
                lemma_single_step(Map::empty(), step, before, x, y);
                if fuel > 0 {
                    let cp = children_plan(ns, rel, n.children, rect.first, clip, (fuel - 1) as nat).unwrap();
                    assert(plan =~= head + cp);
                    lemma_children_paint_within_clip(ns, rel, n.children, rect.first, clip, (fuel - 1) as nat, before, x, y);
                    lemma_steps_cell_concat(before, head, cp, x, y);
                } else {
                    assert(plan =~= head + Seq::<StepView>::empty());
                    assert(plan =~= head);
                }
            },
        }
    }
}

proof fn lemma_children_paint_within_clip(
    ns: Seq<Option<NodeView>>,
    rel: Seq<LayoutRect>,
    kids: Seq<NodeKey>,
    origin: Point,
    clip: Option<LayoutRect>,
    fuel: nat,
    before: Cell,
    x: int,
    y: int,
)
    requires
        children_plan(ns, rel, kids, origin, clip, fuel) is Some,
        !visible(clip, x, y),
    ensures
        steps_cell(before, children_plan(ns, rel, kids, origin, clip, fuel).unwrap(), x, y) == before,
    decreases fuel, kids.len() + 1,
{
    if kids.len() == 0 {
        assert(children_plan(ns, rel, kids, origin, clip, fuel).unwrap() =~= Seq::<StepView>::empty());
    } else {
        let a = children_plan(ns, rel, kids.drop_last(), origin, clip, fuel).unwrap();
        let b = node_plan(ns, rel, kids.last(), origin, clip, fuel).unwrap();
        lemma_children_paint_within_clip(ns, rel, kids.drop_last(), origin, clip, fuel, before, x, y);
        lemma_paint_within_clip(ns, rel, kids.last(), origin, clip, fuel, before, x, y);
        lemma_steps_cell_concat(before, a, b, x, y);
    }
}

} // verus!
