use sharp_tui::arena::{LayoutOp, RealNode};
use sharp_tui::geometry::{LayoutRect, Point};
use sharp_tui::props::{Border, BorderCharset};
use sharp_tui::renderer::{Attr, ElementTag, LayoutEffect, NodeId, TemplateNode, TerminalRenderer};
use sharp_tui::style::{Color, Style};
use sharp_tui::text::TextWrap;

fn kids(r: &TerminalRenderer, k: usize) -> Vec<usize> {
    r.arena.get(k).children().cloned().unwrap_or_default()
}

fn rect(x0: i32, y0: i32, x1: i32, y1: i32) -> LayoutRect {
    LayoutRect { first: Point::new(x0, y0), second: Point::new(x1, y1) }
}

#[test]
fn new_renderer_holds_root_block() {
    let r = TerminalRenderer::new();
    assert_eq!(r.root, 0);
    assert_eq!(r.arena.get(0), &RealNode::block());
    assert!(r.dirty);
    assert!(r.stack.is_empty());
    assert_eq!(r.effects, vec![LayoutEffect::Create(0)]);
}

#[test]
fn take_dirty_clears_flag() {
    let mut r = TerminalRenderer::new();
    assert!(r.take_dirty());
    assert!(!r.take_dirty());
}

#[test]
fn create_and_append_children() {
    let mut r = TerminalRenderer::new();
    r.create_placeholder(1);
    r.create_text_node("hey".to_string(), 2);
    assert_eq!(r.stack, vec![1, 2]);
    r.append_children(0, 2);
    assert!(r.stack.is_empty());
    assert_eq!(kids(&r, 0), vec![1, 2]);
    assert_eq!(r.arena.get(2).parent(), Some(0));
    assert_eq!(
        r.effects,
        vec![
            LayoutEffect::Create(0),
            LayoutEffect::Create(1),
            LayoutEffect::Create(2),
            LayoutEffect::Apply(LayoutOp::Insert { parent: 0, child: 1, index: 0 }),
        ]
    );
}

#[test]
fn insert_nodes_after_and_before_anchor() {
    let mut r = TerminalRenderer::new();
    r.create_placeholder(1);
    r.append_children(0, 1);
    r.create_placeholder(2);
    r.insert_nodes_after(1, 1);
    r.create_placeholder(3);
    r.insert_nodes_before(1, 1);
    assert_eq!(kids(&r, 0), vec![3, 1, 2]);
}

#[test]
fn replace_node_with_splices_at_old_position() {
    let mut r = TerminalRenderer::new();
    r.create_placeholder(1);
    r.create_placeholder(2);
    r.append_children(0, 2);
    r.create_text_node("a".to_string(), 3);
    r.create_text_node("b".to_string(), 4);
    r.replace_node_with(1, 2);
    assert_eq!(kids(&r, 0), vec![3, 4, 2]);
    r.push_root(3);
    assert_eq!(r.stack, vec![3]);
}

#[test]
fn remove_node_drops_subtree_and_id() {
    let mut r = TerminalRenderer::new();
    r.create_placeholder(1);
    r.create_placeholder(2);
    r.append_children(1, 1);
    r.push_root(1);
    r.append_children(0, 1);
    assert_eq!(r.remove_node(1), Some(1));
    assert!(kids(&r, 0).is_empty());
    assert_eq!(r.remove_node(1), None);
    assert!(r.effects.contains(&LayoutEffect::Free(1)));
    assert!(r.effects.contains(&LayoutEffect::Free(2)));
}

#[test]
fn load_template_builds_subtree_and_assigns_ids() {
    let mut r = TerminalRenderer::new();
    let t = TemplateNode::Element {
        tag: ElementTag::Block,
        children: vec![
            TemplateNode::Element { tag: ElementTag::Text, children: vec![TemplateNode::Text { text: "hi".to_string() }] },
            TemplateNode::Dynamic,
        ],
    };
    r.load_template(&t, 7);
    let top = *r.stack.last().unwrap();
    let c = kids(&r, top);
    assert_eq!(c.len(), 2);
    assert!(r.arena.get(c[0]).is_text());
    assert!(matches!(r.arena.get(c[1]), RealNode::Placeholder { parent: Some(_), .. }));
    r.assign_node_id(&[0, 0], 8);
    r.set_node_text("yo".to_string(), 8);
    let raw = kids(&r, c[0])[0];
    assert_eq!(r.arena.get(raw), &RealNode::RawText { parent: Some(c[0]), content: "yo".to_string() });
    r.append_children(0, 1);
    assert_eq!(kids(&r, 0), vec![top]);
}

#[test]
fn replace_placeholder_with_nodes_uses_path() {
    let mut r = TerminalRenderer::new();
    let t = TemplateNode::Element { tag: ElementTag::Block, children: vec![TemplateNode::Dynamic] };
    r.load_template(&t, 5);
    let top = *r.stack.last().unwrap();
    r.create_text_node("x".to_string(), 6);
    r.replace_placeholder_with_nodes(&[0], 1);
    let c = kids(&r, top);
    assert_eq!(c.len(), 1);
    assert_eq!(r.arena.get(c[0]), &RealNode::RawText { parent: Some(top), content: "x".to_string() });
}

#[test]
fn set_attribute_updates_blocks_and_texts() {
    let mut r = TerminalRenderer::new();
    assert_eq!(r.set_attribute(Attr::BgColor(Color::Red), 0), Some(0));
    assert_eq!(r.set_attribute(Attr::Border(Border::new(Some(BorderCharset::single()))), 0), Some(0));
    match r.arena.get(0) {
        RealNode::Block { bg_color, border, .. } => {
            assert_eq!(*bg_color, Color::Red);
            assert_eq!(*border, Border::new(Some(BorderCharset::single())));
        }
        _ => panic!("root is a block"),
    }
    let t = TemplateNode::Element { tag: ElementTag::Text, children: vec![] };
    r.load_template(&t, 3);
    let key = *r.stack.last().unwrap();
    assert_eq!(r.set_attribute(Attr::Wrap(TextWrap::Cut), 3), None);
    let red = Style::new().with_foreground(Color::Red);
    r.set_attribute(Attr::TextStyle(red), 3);
    assert_eq!(r.arena.get(key), &RealNode::Text { parent: None, children: vec![], style: red, wrap: TextWrap::Cut });
    assert_eq!(r.set_attribute(Attr::Layout, 99), None);
}

#[test]
fn mounted_listeners_fire_once() {
    let mut r = TerminalRenderer::new();
    r.create_placeholder(4);
    r.create_event_listener(true, 4);
    r.create_event_listener(false, 4);
    r.create_event_listener(true, 9);
    assert_eq!(r.take_pending_mounted(), vec![(4, NodeId(1))]);
    assert!(r.take_pending_mounted().is_empty());
}

#[test]
fn paint_and_hit_test_through_renderer() {
    let mut r = TerminalRenderer::new();
    r.create_placeholder(1);
    r.append_children(0, 1);
    let rel = vec![rect(0, 0, 4, 2), rect(0, 0, 2, 2)];
    let f = r.paint(&rel, 4, 2);
    assert!(f.clear);
    assert_eq!(r.layout_of(NodeId(1)), Some(rect(0, 0, 2, 2)));
    assert_eq!(r.layout_of(NodeId(7)), None);
    assert_eq!(r.hit_test(&rel, 1, 1), Some(0));
}

#[test]
fn load_template_queues_layout_changes_in_build_order() {
    let mut r = TerminalRenderer::new();
    let t = TemplateNode::Element {
        tag: ElementTag::Block,
        children: vec![
            TemplateNode::Element { tag: ElementTag::Text, children: vec![TemplateNode::Text { text: "hi".to_string() }] },
            TemplateNode::Dynamic,
        ],
    };
    r.load_template(&t, 1);
    assert_eq!(
        r.effects,
        vec![
            LayoutEffect::Create(0),
            LayoutEffect::Create(1),
            LayoutEffect::Create(2),
            LayoutEffect::Create(3),
            LayoutEffect::Apply(LayoutOp::Insert { parent: 1, child: 2, index: 0 }),
            LayoutEffect::Create(4),
            LayoutEffect::Apply(LayoutOp::Insert { parent: 1, child: 4, index: 1 }),
        ]
    );
}

#[test]
fn checked_entry_points_test_their_conditions() {
    let mut r = TerminalRenderer::new();
    r.create_placeholder(1);
    r.append_children(0, 1);
    let rel = vec![rect(0, 0, 4, 2), rect(0, 0, 2, 2)];
    assert!(r.paint_ready(&rel));
    assert!(!r.paint_ready(&vec![rect(0, 0, 4, 2)]));
    assert_eq!(r.checked_hit_test(&rel, 1, 1), Some(Some(0)));
    assert_eq!(r.checked_hit_test(&rel, 9, 9), Some(None));
    let far = vec![rect(i32::MAX - 1, 0, i32::MAX, 2), rect(5, 0, 6, 2)];
    assert!(!r.paint_ready(&far));
    assert_eq!(r.checked_hit_test(&far, 1, 1), None);
}

#[test]
fn reused_key_has_no_layout_until_painted() {
    let mut r = TerminalRenderer::new();
    r.create_placeholder(1);
    r.append_children(0, 1);
    let rel = vec![rect(0, 0, 4, 2), rect(0, 0, 2, 2)];
    r.paint(&rel, 4, 2);
    assert_eq!(r.layout_of(NodeId(1)), Some(rect(0, 0, 2, 2)));
    assert_eq!(r.remove_node(1), Some(1));
    assert_eq!(r.layout_of(NodeId(1)), None);
    r.create_placeholder(2);
    assert_eq!(*r.stack.last().unwrap(), 1);
    assert_eq!(r.layout_of(NodeId(1)), None);
    r.append_children(0, 1);
    r.paint(&rel, 4, 2);
    assert_eq!(r.layout_of(NodeId(1)), Some(rect(0, 0, 2, 2)));
}
