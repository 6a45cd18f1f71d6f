use sharp_tui::arena::{Arena, LayoutOp, RealNode};
use sharp_tui::geometry::{LayoutRect, Point};
use sharp_tui::props::{Border, BorderCharset, Overflow};
use sharp_tui::render::{hit_test, paint, record_layout, Screen};
use sharp_tui::style::{Cell, Color, Style};
use std::collections::HashMap;

fn rect(x0: i32, y0: i32, x1: i32, y1: i32) -> LayoutRect {
    LayoutRect { first: Point::new(x0, y0), second: Point::new(x1, y1) }
}

fn kids(a: &Arena, k: usize) -> Vec<usize> {
    a.get(k).children().cloned().unwrap_or_default()
}

#[test]
fn attach_detach_and_layout_ops() {
    let mut a = Arena::new();
    let root = a.insert(RealNode::block());
    let t = a.insert(RealNode::raw_text("x".to_string()));
    let b = a.insert(RealNode::block());
    assert_eq!(a.attach(root, t, 0), vec![]);
    assert_eq!(a.attach(root, b, 5), vec![LayoutOp::Insert { parent: root, child: b, index: 0 }]);
    assert_eq!(kids(&a, root), vec![t, b]);
    assert_eq!(a.get(b).parent(), Some(root));
    assert_eq!(a.detach(b), Some(LayoutOp::Remove { parent: root, child: b }));
    assert_eq!(kids(&a, root), vec![t]);
    assert_eq!(a.get(b).parent(), None);
}

#[test]
fn text_children_stay_out_of_layout() {
    let mut a = Arena::new();
    let text = a.insert(RealNode::text());
    let span = a.insert(RealNode::text());
    assert_eq!(a.attach(text, span, 0), vec![]);
    assert_eq!(a.detach(span), None);
}

#[test]
fn remove_subtree_frees_every_node_and_reuses_slots() {
    let mut a = Arena::new();
    let root = a.insert(RealNode::block());
    let b = a.insert(RealNode::block());
    let c = a.insert(RealNode::placeholder());
    a.attach(root, b, 0);
    a.attach(b, c, 0);
    let (op, dropped) = a.remove_subtree(b);
    assert_eq!(op, Some(LayoutOp::Remove { parent: root, child: b }));
    assert_eq!(dropped, vec![c, b]);
    assert!(kids(&a, root).is_empty());
    let d = a.insert(RealNode::block());
    assert_eq!(d, b);
}

#[test]
fn record_layout_reports_only_changes() {
    let mut layouts = HashMap::new();
    let mut changed = Vec::new();
    record_layout(&mut layouts, &mut changed, 3, rect(0, 0, 1, 1));
    record_layout(&mut layouts, &mut changed, 3, rect(0, 0, 1, 1));
    record_layout(&mut layouts, &mut changed, 3, rect(0, 0, 2, 1));
    assert_eq!(changed, vec![(3, rect(0, 0, 1, 1)), (3, rect(0, 0, 2, 1))]);
    assert_eq!(layouts.get(&3), Some(&rect(0, 0, 2, 1)));
}

/// root block (8x6) > bordered block at (1,1) 4x3 > text "hi" at (1,1) inside it.
fn sample() -> (Arena, usize, usize, usize, Vec<LayoutRect>) {
    let mut a = Arena::new();
    let root = a.insert(RealNode::block());
    let boxed = a.insert(RealNode::block());
    let text = a.insert(RealNode::text());
    let raw = a.insert(RealNode::raw_text("hi".to_string()));
    a.attach(root, boxed, 0);
    a.attach(boxed, text, 0);
    a.attach(text, raw, 0);
    a.set_border(boxed, Border::new(Some(BorderCharset::single())));
    a.set_bg_color(boxed, Color::Blue);
    let rel = vec![rect(0, 0, 8, 6), rect(1, 1, 5, 4), rect(1, 1, 3, 2), LayoutRect::default()];
    (a, root, boxed, text, rel)
}

#[test]
fn paint_frame_cells_changes_and_diff() {
    let (a, root, boxed, text, rel) = sample();
    let mut screen = Screen::new();
    let mut layouts = HashMap::new();
    let f = paint(&mut screen, &a, root, &rel, 8, 6, &mut layouts);
    assert!(f.clear);
    assert_eq!(f.changed, vec![(root, rect(0, 0, 8, 6)), (boxed, rect(1, 1, 5, 4)), (text, rect(2, 2, 4, 3))]);
    let buf = screen.buffer.as_ref().unwrap();
    let row = |y: u32| -> String { (0..8).map(|x| buf.get(x, y).content()).collect() };
    assert_eq!(row(1), " ┌──┐   ");
    assert_eq!(row(2), " │hi│   ");
    assert_eq!(row(3), " └──┘   ");
    assert_eq!(buf.get(2, 2).style(), Style::new());
    assert_eq!(buf.get(0, 0), Cell::default());
    assert_eq!(buf.get(7, 5), Cell::default());
    assert!(!f.runs.is_empty());
    let again = paint(&mut screen, &a, root, &rel, 8, 6, &mut layouts);
    assert!(!again.clear);
    assert!(again.runs.is_empty());
    assert!(again.changed.is_empty());
    let resized = paint(&mut screen, &a, root, &rel, 9, 6, &mut layouts);
    assert!(resized.clear);
}

#[test]
fn clipping_block_keeps_children_inside_its_border() {
    let mut a = Arena::new();
    let root = a.insert(RealNode::block());
    let outer = a.insert(RealNode::block());
    let inner = a.insert(RealNode::block());
    a.attach(root, outer, 0);
    a.attach(outer, inner, 0);
    a.set_border(outer, Border::new(Some(BorderCharset::single())));
    a.set_overflow(outer, sharp_tui::props::XYProps::new(Overflow::Hidden, Overflow::Hidden));
    a.set_border(inner, Border::new(Some(BorderCharset::double())));
    let rel = vec![rect(0, 0, 6, 4), rect(0, 0, 4, 3), rect(1, 1, 6, 6)];
    let mut screen = Screen::new();
    let mut layouts = HashMap::new();
    paint(&mut screen, &a, root, &rel, 6, 4, &mut layouts);
    let buf = screen.buffer.as_ref().unwrap();
    let row = |y: u32| -> String { (0..6).map(|x| buf.get(x, y).content()).collect() };
    assert_eq!(row(0), "┌──┐  ");
    assert_eq!(row(1), "│╔═│  ");
    assert_eq!(row(2), "└──┘  ");
}

#[test]
fn hit_test_finds_topmost_block() {
    let (a, root, boxed, _text, rel) = sample();
    assert_eq!(hit_test(&a, root, &rel, Point::new(2, 2)), Some(boxed));
    assert_eq!(hit_test(&a, root, &rel, Point::new(0, 0)), Some(root));
    assert_eq!(hit_test(&a, root, &rel, Point::new(10, 10)), None);
}

#[test]
fn hit_test_prefers_later_siblings() {
    let mut a = Arena::new();
    let root = a.insert(RealNode::block());
    let first = a.insert(RealNode::block());
    let second = a.insert(RealNode::block());
    a.attach(root, first, 0);
    a.attach(root, second, 1);
    let rel = vec![rect(0, 0, 5, 5), rect(0, 0, 3, 3), rect(1, 1, 4, 4)];
    assert_eq!(hit_test(&a, root, &rel, Point::new(2, 2)), Some(second));
    assert_eq!(hit_test(&a, root, &rel, Point::new(0, 0)), Some(first));
}

#[test]
fn detach_undoes_attach_of_parentless_node() {
    let mut a = Arena::new();
    let root = a.insert(RealNode::block());
    let x = a.insert(RealNode::block());
    let y = a.insert(RealNode::text());
    a.attach(root, x, 0);
    let before: Vec<RealNode> = (0..3).map(|k| a.get(k).clone()).collect();
    a.attach(root, y, 0);
    a.detach(y);
    let after: Vec<RealNode> = (0..3).map(|k| a.get(k).clone()).collect();
    assert_eq!(before, after);
}

#[test]
fn unchanged_tree_repaints_nothing() {
    let (a, root, _boxed, _text, rel) = sample();
    let mut screen = Screen::new();
    let mut layouts = HashMap::new();
    paint(&mut screen, &a, root, &rel, 8, 6, &mut layouts);
    for _ in 0..3 {
        let f = paint(&mut screen, &a, root, &rel, 8, 6, &mut layouts);
        assert!(f.runs.is_empty());
        assert!(!f.clear);
    }
}

#[test]
fn empty_root_paints_no_box() {
    let mut a = Arena::new();
    let root = a.insert(RealNode::block());
    let rel = vec![rect(0, 0, 1, 1)];
    let mut screen = Screen::new();
    let mut layouts = HashMap::new();
    let f = paint(&mut screen, &a, root, &rel, 1, 1, &mut layouts);
    assert_eq!(screen.buffer.as_ref().unwrap().get(0, 0), Cell::default());
    assert!(f.runs.is_empty());
    assert_eq!(f.changed, vec![(root, rect(0, 0, 1, 1))]);
}

#[test]
fn attach_ops_keep_layout_children_in_step() {
    let mut a = Arena::new();
    let root = a.insert(RealNode::block());
    let x = a.insert(RealNode::block());
    let raw = a.insert(RealNode::raw_text("r".to_string()));
    let y = a.insert(RealNode::text());
    let other = a.insert(RealNode::block());
    let mut model: HashMap<usize, Vec<usize>> = HashMap::new();
    for k in [root, x, other] {
        model.insert(k, Vec::new());
    }
    let apply = |model: &mut HashMap<usize, Vec<usize>>, ops: Vec<LayoutOp>| {
        for op in ops {
            match op {
                LayoutOp::Insert { parent, child, index } => model.get_mut(&parent).unwrap().insert(index, child),
                LayoutOp::Remove { parent, child } => model.get_mut(&parent).unwrap().retain(|&c| c != child),
            }
        }
    };
    let ops = a.attach(root, x, 0);
    apply(&mut model, ops);
    let ops = a.attach(root, raw, 0);
    apply(&mut model, ops);
    let ops = a.attach(root, y, 1);
    apply(&mut model, ops);
    assert_eq!(kids(&a, root), vec![raw, y, x]);
    assert_eq!(model[&root], vec![y, x]);
    let ops = a.attach(other, x, 0);
    apply(&mut model, ops);
    assert_eq!(model[&root], vec![y]);
    assert_eq!(model[&other], vec![x]);
}

#[test]
fn paintable_rejects_overflowing_placements() {
    let (a, root, _boxed, _text, rel) = sample();
    assert!(sharp_tui::render::paintable(&a, root, &rel));
    let mut far = rel.clone();
    far[1] = rect(i32::MAX - 1, 0, i32::MAX, 1);
    assert!(!sharp_tui::render::paintable(&a, root, &far));
}
