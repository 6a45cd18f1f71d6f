use sharp_tui::geometry::{LayoutRect, Point};
use sharp_tui::input::{
    build_runs, input_key, input_runs, next_word_boundary, prev_word_boundary, selection_range, InputState,
};
use sharp_tui::keys::{is_ctrl_c, is_key, contains_modifier, KeyCode, KeyEvent, KeyEventKind, KeyModifiers, MouseButton, MouseEventKind};
use sharp_tui::props::{BorderCharset, XYProps};
use sharp_tui::style::{Color, Style};
use sharp_tui::widgets::{
    button_border, button_click, button_key, button_text_style, next_frame, option_style, progress_text, render_bar,
    scroll_into_view, scroll_limits, scroll_offsets, select_key, select_option_click, separator_text, wheel_scroll, ProgressBarCharset,
    SeparatorCharset, SeparatorDirection,
};

fn v(s: &str) -> Vec<char> {
    s.chars().collect()
}

fn key(code: KeyCode) -> KeyEvent {
    KeyEvent::new(code, KeyModifiers::none())
}

fn with(code: KeyCode, m: KeyModifiers) -> KeyEvent {
    KeyEvent::new(code, m)
}

fn st(cursor: usize, anchor: Option<usize>) -> InputState {
    InputState { cursor, anchor }
}

fn rect(x0: i32, y0: i32, x1: i32, y1: i32) -> LayoutRect {
    LayoutRect { first: Point::new(x0, y0), second: Point::new(x1, y1) }
}

#[test]
fn word_boundaries() {
    let s = v("foo  bar baz");
    assert_eq!(prev_word_boundary(&s, 12), 9);
    assert_eq!(prev_word_boundary(&s, 9), 5);
    assert_eq!(prev_word_boundary(&s, 5), 0);
    assert_eq!(prev_word_boundary(&s, 0), 0);
    assert_eq!(next_word_boundary(&s, 0), 3);
    assert_eq!(next_word_boundary(&s, 3), 8);
    assert_eq!(next_word_boundary(&s, 12), 12);
}

#[test]
fn selection_range_orders_ends() {
    assert_eq!(selection_range(3, None), None);
    assert_eq!(selection_range(3, Some(3)), None);
    assert_eq!(selection_range(3, Some(1)), Some((1, 3)));
    assert_eq!(selection_range(1, Some(4)), Some((1, 4)));
}

#[test]
fn typing_inserts_at_cursor() {
    let (s, out) = input_key(&v("ac"), st(1, None), key(KeyCode::Char('b')));
    assert_eq!(s, st(2, None));
    assert_eq!(out, Some(v("abc")));
}

#[test]
fn typing_replaces_selection() {
    let (s, out) = input_key(&v("hello"), st(4, Some(1)), key(KeyCode::Char('X')));
    assert_eq!(s, st(2, None));
    assert_eq!(out, Some(v("hXo")));
}

#[test]
fn ctrl_letters_and_alt_do_not_type() {
    assert_eq!(input_key(&v("ab"), st(1, None), with(KeyCode::Char('x'), KeyModifiers::alt())).1, None);
    let (s, out) = input_key(&v("abc"), st(1, None), with(KeyCode::Char('a'), KeyModifiers::control()));
    assert_eq!(s, st(3, Some(0)));
    assert_eq!(out, None);
}

#[test]
fn backspace_and_delete() {
    assert_eq!(input_key(&v("abc"), st(2, None), key(KeyCode::Backspace)), (st(1, None), Some(v("ac"))));
    assert_eq!(input_key(&v("abc"), st(0, None), key(KeyCode::Backspace)), (st(0, None), None));
    assert_eq!(input_key(&v("foo bar"), st(7, None), with(KeyCode::Backspace, KeyModifiers::control())), (st(4, None), Some(v("foo "))));
    assert_eq!(input_key(&v("abc"), st(1, None), key(KeyCode::Delete)), (st(1, None), Some(v("ac"))));
    assert_eq!(input_key(&v("abc"), st(3, None), key(KeyCode::Delete)), (st(3, None), None));
    assert_eq!(input_key(&v("abcdef"), st(1, Some(4)), key(KeyCode::Delete)), (st(1, None), Some(v("aef"))));
}

#[test]
fn movement_and_shift_selection() {
    assert_eq!(input_key(&v("abc"), st(1, None), key(KeyCode::Left)).0, st(0, None));
    assert_eq!(input_key(&v("abc"), st(0, None), key(KeyCode::Left)).0, st(0, None));
    assert_eq!(input_key(&v("abc"), st(3, None), key(KeyCode::Right)).0, st(3, None));
    assert_eq!(input_key(&v("abc"), st(9, None), key(KeyCode::Home)).0, st(0, None));
    assert_eq!(input_key(&v("abc"), st(1, None), with(KeyCode::End, KeyModifiers::shift())).0, st(3, Some(1)));
    assert_eq!(input_key(&v("abc"), st(3, Some(1)), with(KeyCode::Left, KeyModifiers::shift())).0, st(2, Some(1)));
    assert_eq!(input_key(&v("foo bar"), st(0, Some(2)), with(KeyCode::Right, KeyModifiers::control())).0, st(3, None));
}

#[test]
fn releases_are_ignored() {
    let mut e = key(KeyCode::Char('x'));
    e.kind = KeyEventKind::Release;
    assert_eq!(input_key(&v("ab"), st(1, None), e), (st(1, None), None));
}

#[test]
fn type_then_backspace_restores_text() {
    let start = v("hello");
    let (s1, t1) = input_key(&start, st(2, None), key(KeyCode::Char('z')));
    let (s2, t2) = input_key(&t1.unwrap(), s1, key(KeyCode::Backspace));
    assert_eq!(s2, st(2, None));
    assert_eq!(t2, Some(start));
}

#[test]
fn runs_split_cursor_and_selection() {
    let n = Style::new();
    let sel = n.with_background(Color::DarkGrey);
    let cur = n.reverse();
    let runs = build_runs(&v("abcd"), 3, Some((1, 3)), n, sel, cur);
    assert_eq!(runs, vec![(n, "a".to_string()), (sel, "bc".to_string()), (cur, "d".to_string())]);
    let past = build_runs(&v("ab"), 2, None, n, sel, cur);
    assert_eq!(past, vec![(n, "ab".to_string()), (cur, " ".to_string())]);
}

#[test]
fn input_runs_show_placeholder_when_empty() {
    let n = Style::new();
    let runs = input_runs(&v(""), &v("type"), 5, None, n);
    assert_eq!(runs, vec![(n.reverse(), "t".to_string()), (Style::new().with_foreground(Color::DarkGrey), "ype".to_string())]);
    let text = input_runs(&v("ab"), &v("type"), 9, Some(0), n);
    assert_eq!(text, vec![(n.with_background(Color::DarkGrey), "ab".to_string()), (n.reverse(), " ".to_string())]);
}

#[test]
fn key_predicates() {
    let e = with(KeyCode::Char('c'), KeyModifiers { bits: 2 | 1 });
    assert!(is_ctrl_c(&e));
    assert!(!is_ctrl_c(&key(KeyCode::Char('c'))));
    assert!(contains_modifier(e, KeyModifiers::shift()));
    assert!(!contains_modifier(e, KeyModifiers::alt()));
    assert!(is_key(e, KeyCode::Char('c')));
    assert!(!is_key(e, KeyCode::Enter));
}

#[test]
fn select_wraps_around() {
    assert_eq!(select_key(true, 0, 3, key(KeyCode::Up)), (2, None));
    assert_eq!(select_key(true, 2, 3, key(KeyCode::Down)), (0, None));
    assert_eq!(select_key(true, 1, 3, key(KeyCode::Enter)), (1, Some(1)));
    assert_eq!(select_key(false, 1, 3, key(KeyCode::Down)), (1, None));
    assert_eq!(select_key(true, 0, 0, key(KeyCode::Down)), (0, None));
    let (down, _) = select_key(true, 1, 4, key(KeyCode::Down));
    assert_eq!(select_key(true, down, 4, key(KeyCode::Up)).0, 1);
}

#[test]
fn select_scrolls_option_into_view() {
    let vp = rect(0, 10, 10, 20);
    assert_eq!(scroll_into_view(XYProps::new(0, 5), vp, rect(0, 7, 10, 8)), XYProps::new(0, 2));
    assert_eq!(scroll_into_view(XYProps::new(0, 1), vp, rect(0, 7, 10, 8)), XYProps::new(0, 0));
    assert_eq!(scroll_into_view(XYProps::new(0, 1), vp, rect(0, 19, 10, 22)), XYProps::new(0, 3));
    assert_eq!(scroll_into_view(XYProps::new(4, 1), vp, rect(0, 12, 10, 13)), XYProps::new(4, 1));
    assert_eq!(option_style(2, 2, Style::new()), Style::new().reverse());
    assert_eq!(option_style(1, 2, Style::new()), Style::new());
}

#[test]
fn button_border_choice() {
    assert_eq!(button_border(None, true, false, None, false, false, false).style, Some(BorderCharset::single_double()));
    assert_eq!(button_border(None, true, false, None, true, false, false).style, Some(BorderCharset::double()));
    assert_eq!(button_border(None, true, false, Some(false), true, true, true).style, Some(BorderCharset::single_double()));
    assert_eq!(button_border(None, true, true, None, true, false, false).style, Some(BorderCharset::single()));
    assert_eq!(button_border(None, false, false, None, true, false, false).style, Some(BorderCharset::single()));
    assert_eq!(button_border(Some(BorderCharset::round()), true, false, None, true, false, false).style, Some(BorderCharset::round()));
    assert_eq!(button_text_style(true), Style::new().with_foreground(Color::DarkGrey));
    assert_eq!(button_text_style(false), Style::new());
}

#[test]
fn button_keys_and_clicks() {
    let mut up = key(KeyCode::Char(' '));
    assert_eq!(button_key(up, false, false), (true, false));
    up.kind = KeyEventKind::Release;
    assert_eq!(button_key(up, true, false), (false, false));
    assert_eq!(button_key(key(KeyCode::Enter), false, false), (false, true));
    assert_eq!(button_key(key(KeyCode::Tab), true, true), (true, true));
    assert_eq!(button_click(MouseEventKind::Down(MouseButton::Left), false, false), (true, false));
    assert_eq!(button_click(MouseEventKind::Up(MouseButton::Left), true, false), (false, true));
    assert_eq!(button_click(MouseEventKind::Up(MouseButton::Left), true, true), (false, false));
    assert_eq!(button_click(MouseEventKind::Up(MouseButton::Left), false, false), (false, false));
    assert_eq!(button_click(MouseEventKind::Down(MouseButton::Right), true, false), (true, false));
}

#[test]
fn scrolling_limits_offsets_and_wheel() {
    assert_eq!(scroll_limits(Some(rect(0, 0, 10, 5)), Some(rect(0, 0, 14, 3))), (4, 0));
    assert_eq!(scroll_limits(None, Some(rect(0, 0, 14, 3))), (0, 0));
    assert_eq!(scroll_offsets(XYProps::new(false, true), XYProps::new(9, 2), (4, 7)), (4, 0));
    assert_eq!(wheel_scroll(XYProps::new(0, 0), MouseEventKind::ScrollDown), Some(XYProps::new(0, 1)));
    assert_eq!(wheel_scroll(XYProps::new(0, 0), MouseEventKind::ScrollUp), Some(XYProps::new(0, 0)));
    assert_eq!(wheel_scroll(XYProps::new(3, 0), MouseEventKind::ScrollLeft), Some(XYProps::new(2, 0)));
    assert_eq!(wheel_scroll(XYProps::new(u16::MAX, 0), MouseEventKind::ScrollRight), Some(XYProps::new(u16::MAX, 0)));
    assert_eq!(wheel_scroll(XYProps::new(0, 0), MouseEventKind::Moved), None);
}

#[test]
fn progress_bar_text() {
    assert_eq!(render_bar(ProgressBarCharset::classic(), 5, 2), "##...");
    assert_eq!(render_bar(ProgressBarCharset::diamond(), 6, 4), "<##>--");
    assert_eq!(render_bar(ProgressBarCharset::diamond(), 3, 9), "<#>");
    assert_eq!(render_bar(ProgressBarCharset::diamond(), 3, 1), "<--");
    assert_eq!(render_bar(ProgressBarCharset::default(), 0, 0), "");
    assert_eq!(progress_text(ProgressBarCharset::classic(), 14, 50, true), "#####..... 50%");
    assert_eq!(progress_text(ProgressBarCharset::classic(), 4, 100, false), "####");
    assert_eq!(progress_text(ProgressBarCharset::classic(), 3, 7, true), " 7%");
    assert_eq!(progress_text(ProgressBarCharset::classic(), 15, 100, true), "########## 100%");
}

#[test]
fn separator_fills_its_rect() {
    assert_eq!(separator_text(SeparatorDirection::Horizontal, &SeparatorCharset::classic(), rect(0, 0, 4, 1)), "----");
    assert_eq!(separator_text(SeparatorDirection::Vertical, &SeparatorCharset::box_char(), rect(0, 0, 1, 3)), "│\n│\n│");
    assert_eq!(SeparatorCharset::classic().get(SeparatorDirection::Vertical).content(), '|');
}

#[test]
fn spinner_frames_cycle() {
    assert_eq!(next_frame(0, 3), 1);
    assert_eq!(next_frame(2, 3), 0);
}

#[test]
fn select_option_click_selects_on_press_unless_disabled() {
    assert_eq!(select_option_click(MouseEventKind::Down(MouseButton::Left), false, 3, 1), 3);
    assert_eq!(select_option_click(MouseEventKind::Down(MouseButton::Right), false, 3, 1), 3);
    assert_eq!(select_option_click(MouseEventKind::Down(MouseButton::Left), true, 3, 1), 1);
    assert_eq!(select_option_click(MouseEventKind::Up(MouseButton::Left), false, 3, 1), 1);
    assert_eq!(select_option_click(MouseEventKind::Moved, false, 3, 1), 1);
}
