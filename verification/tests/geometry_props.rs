use sharp_tui::geometry::{LayoutRect, Point};
use sharp_tui::props::{
    recolor_border, AlignItem, Border, BorderCharset, Edge, Flex, FlexDirection, FlexWrap, Overflow, Position,
    Sides, SizeClamp, SizeUnit, XYProps,
};
use sharp_tui::style::{merge_style, Cell, Color, Style, StyledContent};

fn rect(x0: i32, y0: i32, x1: i32, y1: i32) -> LayoutRect {
    LayoutRect { first: Point::new(x0, y0), second: Point::new(x1, y1) }
}

#[test]
fn rect_width_height_translate_inset() {
    let r = rect(2, 3, 10, 7);
    assert_eq!(r.width(), 8);
    assert_eq!(r.height(), 4);
    assert_eq!(r.translate(Point::new(1, -2)), rect(3, 1, 11, 5));
    assert_eq!(r.inset(1), rect(3, 4, 9, 6));
    assert_eq!(r.inset(-1), rect(1, 2, 11, 8));
}

#[test]
fn rect_contains_is_half_open() {
    let r = rect(0, 0, 3, 2);
    assert!(r.contains(Point::new(0, 0)));
    assert!(r.contains(Point::new(2, 1)));
    assert!(!r.contains(Point::new(3, 1)));
    assert!(!r.contains(Point::new(2, 2)));
    assert!(!r.contains(Point::new(-1, 0)));
}

#[test]
fn rect_intersect_narrows_and_commutes() {
    let a = rect(0, 0, 5, 5);
    let b = rect(2, 3, 8, 9);
    assert_eq!(a.intersect(b), rect(2, 3, 5, 5));
    assert_eq!(b.intersect(a), a.intersect(b));
    assert_eq!(a.intersect(a), a);
    let p = Point::new(3, 4);
    assert_eq!(a.intersect(b).contains(p), a.contains(p) && b.contains(p));
}

#[test]
fn translate_round_trip() {
    let r = rect(-4, 1, 6, 9);
    let d = Point::new(7, -3);
    assert_eq!(r.translate(d).translate(Point::new(-7, 3)), r);
    assert_eq!(r.inset(2).inset(-2), r);
}

#[test]
fn point_plus_minus() {
    let a = Point::new(3, 4);
    let b = Point::new(1, 7);
    assert_eq!(a.plus(b), Point::new(4, 11));
    assert_eq!(a.minus(b), Point::new(2, -3));
}

#[test]
fn sides_builders_and_edges() {
    let s = Sides::all(1).top(5).left(-2);
    assert_eq!(s, Sides::new(-2, 1, 5, 1));
    assert_eq!(s.get_edge(Edge::Top), Some(5));
    assert_eq!(s.get_edge(Edge::Left), Some(-2));
    assert_eq!(s.get_edge(Edge::All), None);
    assert_eq!(s.get_pair(Edge::Right), Some((Edge::Right, 1)));
    let it = s.iterate();
    assert_eq!(it.len(), 4);
    assert!(it.contains(&(Edge::Top, 5)));
}

#[test]
fn sides_rotations() {
    let s = Sides::new(1, 2, 3, 4);
    let q = s.rotate_90();
    assert_eq!(q.top, 1);
    assert_eq!(s.rotate_90().rotate_90().rotate_90().rotate_90(), s);
    assert_eq!(s.rotate_180().rotate_180(), s);
    assert_eq!(s.rotate_90().rotate_270(), s);
}

#[test]
fn xy_props_builders() {
    assert_eq!(XYProps::new(1u16, 2u16), XYProps { x: 1, y: 2 });
    assert_eq!(XYProps::x(4u16), XYProps { x: 4, y: 0 });
    assert_eq!(XYProps::y(4u16), XYProps { x: 0, y: 4 });
    assert_eq!(XYProps::both(9u16), XYProps { x: 9, y: 9 });
}

#[test]
fn overflow_effective_prefers_x_unless_visible() {
    assert_eq!(XYProps::new(Overflow::Hidden, Overflow::Scroll).effective(), Overflow::Hidden);
    assert_eq!(XYProps::new(Overflow::Visible, Overflow::Scroll).effective(), Overflow::Scroll);
    assert!(Overflow::Scroll.clips());
    assert!(!Overflow::Visible.clips());
}

#[test]
fn defaults_of_props() {
    assert_eq!(Flex::default(), Flex::new(0, 0, SizeUnit::UndefinedValue, FlexWrap::NoWrap, FlexDirection::Column));
    assert_eq!(AlignItem::default(), AlignItem::Stretch);
    assert_eq!(SizeClamp::default(), SizeClamp::new(SizeUnit::UndefinedValue, SizeUnit::UndefinedValue, SizeUnit::UndefinedValue));
    assert_eq!(Position::default(), Position::Relative(Sides::all(SizeUnit::UndefinedValue)));
}

#[test]
fn border_charsets_and_inset() {
    let s = BorderCharset::single();
    assert_eq!(s.top_left.content(), '┌');
    assert_eq!(s.bottom_right.content(), '┘');
    assert_eq!(BorderCharset::double().top.content(), '═');
    assert_eq!(BorderCharset::round().top_left.content(), '╭');
    assert_eq!(BorderCharset::classic().top_left.content(), '+');
    assert_eq!(Border::new(Some(s)).get_inset(), 1);
    assert_eq!(Border::new(None).get_inset(), 0);
}

#[test]
fn recolor_border_restyles_every_glyph() {
    let red = Style::new().with_foreground(Color::Red);
    let r = recolor_border(BorderCharset::single(), Some(red));
    assert_eq!(r.top.content(), '─');
    assert_eq!(r.top.style(), red);
    assert_eq!(r.bottom_left.style(), red);
    assert_eq!(recolor_border(BorderCharset::single(), None), BorderCharset::single());
}

#[test]
fn merge_style_child_wins_and_attributes_join() {
    let parent = Style { foreground_color: Some(Color::Red), background_color: Some(Color::Blue), underline_color: None, attributes: 2 };
    let child = Style { foreground_color: Some(Color::Green), background_color: None, underline_color: None, attributes: 4 };
    let m = merge_style(parent, child);
    assert_eq!(m.foreground_color, Some(Color::Green));
    assert_eq!(m.background_color, Some(Color::Blue));
    assert_eq!(m.attributes, 6);
    assert_eq!(merge_style(parent, Style::new()), parent);
}

#[test]
fn cell_constructors() {
    let c = Cell::new(StyledContent::new(Style::new().reverse(), 'x'));
    assert_eq!(c.content(), 'x');
    assert_eq!(c.style().attributes, 256);
    assert_eq!(Cell::unstyled('y').style(), Style::new());
    assert_eq!(Cell::default(), Cell::unstyled(' '));
}
