use sharp_tui::geometry::{LayoutRect, Point};
use sharp_tui::paint::{diff_runs, draw_block, draw_text, set_clipped, Buffer};
use sharp_tui::props::{Border, BorderCharset};
use sharp_tui::style::{Cell, Color, Style, StyledContent};
use sharp_tui::text::{measure_wrapped, split_on_newline, wrap_paragraph, wrap_styled, StyledChar, TextWrap};

fn chars(s: &str) -> Vec<StyledChar> {
    s.chars().map(|ch| StyledChar { ch, style: Style::new() }).collect()
}

fn rows_text(rows: &[Vec<StyledChar>]) -> Vec<String> {
    rows.iter().map(|r| r.iter().map(|c| c.ch).collect()).collect()
}

fn rect(x0: i32, y0: i32, x1: i32, y1: i32) -> LayoutRect {
    LayoutRect { first: Point::new(x0, y0), second: Point::new(x1, y1) }
}

fn row_string(b: &Buffer, y: u32) -> String {
    (0..b.width).map(|x| b.get(x, y).content()).collect()
}

#[test]
fn process_leaves_short_text_and_zero_width_alone() {
    assert_eq!(TextWrap::Truncate.process("abc", 3), "abc");
    assert_eq!(TextWrap::Hard.process("abcdef", 0), "abcdef");
}

#[test]
fn process_wrap_uses_word_wrapping() {
    assert_eq!(TextWrap::Wrap.process("hello world foo", 11), "hello world\nfoo");
}

#[test]
fn process_hard_breaks_every_width_chars() {
    assert_eq!(TextWrap::Hard.process("abcdefgh", 3), "abc\ndef\ngh");
}

#[test]
fn process_truncations() {
    assert_eq!(TextWrap::TruncateStart.process("abcdefgh", 6), "...fgh");
    assert_eq!(TextWrap::TruncateStart.process("abcdefgh", 2), "gh");
    assert_eq!(TextWrap::TruncateMiddle.process("abcdefgh", 6), "ab...h");
    assert_eq!(TextWrap::TruncateMiddle.process("abcdefgh", 3), "abc");
    assert_eq!(TextWrap::Truncate.process("abcdefgh", 6), "abc...");
    assert_eq!(TextWrap::Cut.process("abcdefgh", 5), "abcde");
}

#[test]
fn wrap_styled_word_wrap_and_newlines() {
    let rows = wrap_styled(TextWrap::Wrap, &chars("aa bb  cc\ndd"), 5, Style::new());
    assert_eq!(rows_text(&rows), vec!["aa bb", "cc", "dd"]);
    let blank = wrap_styled(TextWrap::Wrap, &chars("a\n\nb\n"), 5, Style::new());
    assert_eq!(rows_text(&blank), vec!["a", "", "b"]);
}

#[test]
fn wrap_styled_modes_on_long_paragraph() {
    let p = chars("abcdefg");
    assert_eq!(rows_text(&wrap_styled(TextWrap::Hard, &p, 3, Style::new())), vec!["abc", "def", "g"]);
    assert_eq!(rows_text(&wrap_styled(TextWrap::Truncate, &p, 5, Style::new())), vec!["ab..."]);
    assert_eq!(rows_text(&wrap_styled(TextWrap::TruncateStart, &p, 5, Style::new())), vec!["...fg"]);
    assert_eq!(rows_text(&wrap_styled(TextWrap::TruncateMiddle, &p, 6, Style::new())), vec!["ab...g"]);
    assert_eq!(rows_text(&wrap_styled(TextWrap::Cut, &p, 4, Style::new())), vec!["abcd"]);
    assert_eq!(rows_text(&wrap_styled(TextWrap::Cut, &p, 0, Style::new())), vec!["abcdefg"]);
}

#[test]
fn ellipsis_takes_fallback_style() {
    let red = Style::new().with_foreground(Color::Red);
    let rows = wrap_styled(TextWrap::Truncate, &chars("abcdefg"), 5, red);
    assert_eq!(rows[0][0].style, Style::new());
    assert_eq!(rows[0][2].style, red);
}

#[test]
fn measure_matches_wrapping() {
    assert_eq!(measure_wrapped(TextWrap::Wrap, &chars("aa bb cc"), 5, Style::new()), (5, 2));
    assert_eq!(measure_wrapped(TextWrap::Wrap, &chars(""), 5, Style::new()), (0, 0));
    assert_eq!(measure_wrapped(TextWrap::Hard, &chars("abcdefg"), usize::MAX, Style::new()), (7, 1));
}

#[test]
fn buffer_blank_set_and_bounds() {
    let mut b = Buffer::blank(3, 2);
    assert_eq!(b.get(2, 1), Cell::default());
    b.set(1, 1, Cell::unstyled('x'));
    b.set(5, 5, Cell::unstyled('y'));
    assert_eq!(row_string(&b, 1), " x ");
    set_clipped(&mut b, Some(rect(0, 0, 1, 1)), 2, 0, Cell::unstyled('z'));
    assert_eq!(row_string(&b, 0), "   ");
}

#[test]
fn draw_block_with_border_and_clip() {
    let mut b = Buffer::blank(6, 4);
    draw_block(&mut b, None, rect(0, 0, 4, 3), &Border::new(Some(BorderCharset::single())), Color::Blue);
    assert_eq!(row_string(&b, 0), "┌──┐  ");
    assert_eq!(row_string(&b, 1), "│  │  ");
    assert_eq!(row_string(&b, 2), "└──┘  ");
    assert_eq!(b.get(1, 1).style().background_color, Some(Color::Blue));
    let mut c = Buffer::blank(6, 4);
    draw_block(&mut c, Some(rect(0, 0, 2, 2)), rect(0, 0, 4, 3), &Border::new(Some(BorderCharset::single())), Color::Blue);
    assert_eq!(row_string(&c, 0), "┌─    ");
    assert_eq!(row_string(&c, 2), "      ");
}

#[test]
fn draw_block_empty_rect_paints_nothing() {
    let mut b = Buffer::blank(3, 3);
    draw_block(&mut b, None, rect(1, 1, 1, 1), &Border::new(Some(BorderCharset::single())), Color::Blue);
    assert_eq!(b.get(1, 1), Cell::default());
}

#[test]
fn draw_text_wraps_to_rect_width() {
    let mut b = Buffer::blank(6, 3);
    draw_text(&mut b, None, &rect(1, 0, 4, 3), &chars("ab cd"), TextWrap::Wrap, Style::new());
    assert_eq!(row_string(&b, 0), " ab   ");
    assert_eq!(row_string(&b, 1), " cd   ");
}

#[test]
fn diff_runs_group_changed_cells_by_style() {
    let old = Buffer::blank(5, 2);
    let mut new = Buffer::blank(5, 2);
    let red = Style::new().with_foreground(Color::Red);
    new.set(1, 0, Cell::unstyled('a'));
    new.set(2, 0, Cell::unstyled('b'));
    new.set(3, 0, Cell::new(StyledContent::new(red, 'c')));
    new.set(0, 1, Cell::unstyled('d'));
    let runs = diff_runs(&old, &new);
    assert_eq!(runs.len(), 3);
    assert_eq!((runs[0].x, runs[0].y, runs[0].text.as_str()), (1, 0, "ab"));
    assert_eq!((runs[1].x, runs[1].y, runs[1].text.as_str(), runs[1].style), (3, 0, "c", red));
    assert_eq!((runs[2].x, runs[2].y, runs[2].text.as_str()), (0, 1, "d"));
    assert!(diff_runs(&new, &new).is_empty());
}

#[test]
fn printing_runs_over_old_frame_gives_new_frame() {
    let mut old = Buffer::blank(4, 2);
    old.set(0, 0, Cell::unstyled('q'));
    let mut new = Buffer::blank(4, 2);
    new.set(2, 1, Cell::unstyled('w'));
    new.set(3, 1, Cell::unstyled('e'));
    let mut screen: Vec<Vec<Cell>> = (0..2).map(|y| (0..4).map(|x| old.get(x, y)).collect()).collect();
    for r in diff_runs(&old, &new) {
        for (i, ch) in r.text.chars().enumerate() {
            screen[r.y][r.x + i] = Cell::new(StyledContent::new(r.style, ch));
        }
    }
    for y in 0..2u32 {
        for x in 0..4u32 {
            assert_eq!(screen[y as usize][x as usize], new.get(x, y));
        }
    }
}

#[test]
fn word_wrap_breaks_words_longer_than_the_width() {
    let rows = wrap_styled(TextWrap::Wrap, &chars("ab"), 1, Style::new());
    assert_eq!(rows_text(&rows), vec!["a", "b"]);
    let text = "hello abcdefgh x";
    let rows = wrap_styled(TextWrap::Wrap, &chars(text), 4, Style::new());
    assert_eq!(rows_text(&rows), vec!["hell", "o", "abcd", "efgh", "x"]);
    assert!(rows.iter().all(|r| r.len() <= 4));
    assert_eq!(rows_text(&rows).join("\n"), TextWrap::Wrap.process(text, 4));
}

#[test]
fn painted_rows_match_process_on_ascii() {
    let text = "abcdefghij";
    for mode in [TextWrap::Hard, TextWrap::TruncateStart, TextWrap::TruncateMiddle, TextWrap::Truncate, TextWrap::Cut] {
        for width in 1..12 {
            let rows = wrap_styled(mode, &chars(text), width, Style::new());
            assert_eq!(rows_text(&rows).join("\n"), mode.process(text, width), "{:?} at {}", mode, width);
        }
    }
}

#[test]
fn word_wrap_splits_on_unicode_whitespace() {
    let rows = wrap_styled(TextWrap::Wrap, &chars("a\u{2003}b\u{00A0}c\u{3000}\u{200B}d"), 7, Style::new());
    assert_eq!(rows_text(&rows), vec!["a b c", "\u{200B}d"]);
    let rows = wrap_styled(TextWrap::Wrap, &chars("a\u{2003}b\u{00A0}c\u{3000}\u{200B}d"), 3, Style::new());
    assert_eq!(rows_text(&rows), vec!["a b", "c", "\u{200B}d"]);
}

#[test]
fn split_on_newline_matches_lines() {
    for text in ["a\n\nb\n", "", "x", "\n", "ab\ncd"] {
        let parts = split_on_newline(&chars(text));
        let expected: Vec<String> = text.lines().map(|l| l.to_string()).collect();
        assert_eq!(rows_text(&parts), expected, "{:?}", text);
    }
}

#[test]
fn wrap_paragraph_rows_join_to_process() {
    let text = "abcdefgh";
    for mode in [TextWrap::Hard, TextWrap::TruncateStart, TextWrap::TruncateMiddle, TextWrap::Truncate, TextWrap::Cut] {
        for width in 1..10 {
            let rows = wrap_paragraph(mode, &chars(text), width, Style::new());
            assert_eq!(rows_text(&rows).join("\n"), mode.process(text, width));
        }
    }
}
