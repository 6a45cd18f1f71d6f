use vstd::prelude::*;
use crate::keys::{KeyCode, KeyEvent, KeyModifiers, contains_modifier};
use crate::style::{Color, Style};
use crate::text::{char_is_whitespace, is_white_space, string_push};

verus! {

/// Where a backward word jump from `i` stops after skipping whitespace: the start of the run of
/// whitespace that ends at `i`.
pub open spec fn skip_space_back(s: Seq<char>, i: int) -> int
    decreases i,
{
    if i > 0 && is_white_space(s[i - 1]) {
        skip_space_back(s, i - 1)
    } else {
        i
    }
}

/// The start of the run of non-whitespace that ends at `i`.
pub open spec fn skip_word_back(s: Seq<char>, i: int) -> int
    decreases i,
{
    if i > 0 && !is_white_space(s[i - 1]) {
        skip_word_back(s, i - 1)
    } else {
        i
    }
}

/// The end of the run of whitespace that starts at `i`.
pub open spec fn skip_space_fwd(s: Seq<char>, i: int) -> int
    decreases s.len() - i,
{
    if 0 <= i < s.len() && is_white_space(s[i]) {
        skip_space_fwd(s, i + 1)
    } else {
        i
    }
}

/// The end of the run of non-whitespace that starts at `i`.
pub open spec fn skip_word_fwd(s: Seq<char>, i: int) -> int
    decreases s.len() - i,
{
    if 0 <= i < s.len() && !is_white_space(s[i]) {
        skip_word_fwd(s, i + 1)
    } else {
        i
    }
}

/// The start of the word before `pos` (whitespace right before `pos` skipped first).
pub open spec fn prev_boundary(s: Seq<char>, pos: int) -> int {
    skip_word_back(s, skip_space_back(s, pos))
}

/// The end of the word after `pos` (whitespace right after `pos` skipped first).
pub open spec fn next_boundary(s: Seq<char>, pos: int) -> int {
    skip_word_fwd(s, skip_space_fwd(s, pos))
}

/// The position a Ctrl+Left jump from `pos` lands on.
pub fn prev_word_boundary(chars: &Vec<char>, pos: usize) -> (r: usize)
    requires
        pos <= chars.len(),
    ensures
        r == prev_boundary(chars@, pos as int),
        r <= pos,
{
    let mut i = pos;
    while i > 0 && char_is_whitespace(chars[i - 1])
        invariant
            i <= pos <= chars.len(),
            skip_space_back(chars@, i as int) == skip_space_back(chars@, pos as int),
        decreases i,
    {
        i -= 1;
    }
    let ghost mid = i;
    while i > 0 && !char_is_whitespace(chars[i - 1])
        invariant
            i <= mid <= pos <= chars.len(),
            mid == skip_space_back(chars@, pos as int),
            skip_word_back(chars@, i as int) == skip_word_back(chars@, mid as int),
        decreases i,
    {
        i -= 1;
    }
    i
}

/// The position a Ctrl+Right jump from `pos` lands on.
pub fn next_word_boundary(chars: &Vec<char>, pos: usize) -> (r: usize)
    requires
        pos <= chars.len(),
    ensures
        r == next_boundary(chars@, pos as int),
        pos <= r <= chars.len(),
{
    let len = chars.len();
    let mut i = pos;
    while i < len && char_is_whitespace(chars[i])
        invariant
            len == chars.len(),
            pos <= i <= len,
            skip_space_fwd(chars@, i as int) == skip_space_fwd(chars@, pos as int),
        decreases len - i,
    {
        i += 1;
    }
    let ghost mid = i;
    while i < len && !char_is_whitespace(chars[i])
        invariant
            len == chars.len(),
            pos <= mid <= i <= len,
            mid == skip_space_fwd(chars@, pos as int),
            skip_word_fwd(chars@, i as int) == skip_word_fwd(chars@, mid as int),
        decreases len - i,
    {
        i += 1;
    }
    i
}

/// The selected span `(start, end)` between the anchor and the cursor, in order; `None` when
/// there is no anchor or it sits on the cursor.
pub open spec fn selection(cursor: usize, anchor: Option<usize>) -> Option<(usize, usize)> {
    match anchor {
        None => None,
        Some(a) => if a == cursor {
            None
        } else if a < cursor {
            Some((a, cursor))
        } else {
            Some((cursor, a))
        },
    }
}

/// Ordered `(start, end)` span of the current selection, or `None` when the anchor coincides
/// with the cursor (nothing actually selected).
pub fn selection_range(cursor: usize, anchor: Option<usize>) -> (r: Option<(usize, usize)>)
    ensures
        r == selection(cursor, anchor),
{
    let a = match anchor {
        Some(a) => a,
        None => {
            return None;
        },
    };
    if a == cursor {
        return None;
    }
    let lo = if a <= cursor { a } else { cursor };
    let hi = if a >= cursor { a } else { cursor };
    Some((lo, hi))
}

} // verus!

verus! {

/// The editing state of a text input: the cursor position (in characters) and, while a
/// selection is being made, the position it started from.
#[derive(PartialEq, Eq, Structural, Clone, Copy, Debug)]
pub struct InputState {
    pub cursor: usize,
    pub anchor: Option<usize>,
}

/// Whether the modifier bit `bit` is held in `e`.
pub open spec fn held(e: KeyEvent, bit: u8) -> bool {
    e.modifiers.bits & bit == bit
}

/// `s` with the characters `start..end` replaced by `ins`.
pub open spec fn spliced(s: Seq<char>, start: int, end: int, ins: Seq<char>) -> Seq<char> {
    s.take(start) + ins + s.skip(end)
}

/// The state after moving the cursor from `pos` to `to`: with Shift held the selection
/// starts (or keeps extending) from where it was; without, it is dropped.
pub open spec fn moved(st: InputState, pos: usize, shift: bool, to: usize) -> InputState {
    InputState {
        cursor: to,
        anchor: if shift {
            if st.anchor is None { Some(pos) } else { st.anchor }
        } else {
            None
        },
    }
}

/// Whether `e` is a press or repeat that edits the text through the selection: Backspace,
/// Delete, or a character typed without Ctrl or Alt.
pub open spec fn edits(e: KeyEvent) -> bool {
    &&& (e.kind is Press || e.kind is Repeat)
    &&& match e.code {
        KeyCode::Backspace => true,
        KeyCode::Delete => true,
        KeyCode::Char(c) => !held(e, 2) && !held(e, 4),
        _ => false,
    }
}

/// Whether key event `e` edits the text through the selection (see [`edits`]); an editing
/// event needs the selection anchor to lie within the text.
pub fn key_edits(e: KeyEvent) -> (b: bool)
    ensures
        b == edits(e),
{
    if !e.is_press() && !e.is_repeat() {
        return false;
    }
    match e.code {
        KeyCode::Backspace => true,
        KeyCode::Delete => true,
        KeyCode::Char(_) => e.modifiers.bits & 2 != 2 && e.modifiers.bits & 4 != 4,
        _ => false,
    }
}

/// What the input does with key event `e` over the text `s`: the new editing state and,
/// when the text changes, the new text. Only presses and repeats act. Ctrl+A selects
/// everything; Left/Right (by word with Ctrl), Home and End move the cursor (Shift extends
/// the selection); Backspace and Delete remove the selection, or else the character (word,
/// with Ctrl) before/after the cursor; a character typed without Ctrl or Alt replaces the
/// selection (or is inserted at the cursor). The cursor is taken as at most the text's length.
pub open spec fn input_step(s: Seq<char>, st: InputState, e: KeyEvent) -> (InputState, Option<Seq<char>>) {
    let len = s.len() as usize;
    let pos = if st.cursor <= len { st.cursor } else { len };
    let (shift, ctrl, alt) = (held(e, 1), held(e, 2), held(e, 4));
    let sel = selection(pos, st.anchor);
    let unchanged = (st, None::<Seq<char>>);
    if !(e.kind is Press || e.kind is Repeat) {
        unchanged
    } else {
        match e.code {
            KeyCode::Char(c) => if c == 'a' && ctrl {
                (InputState { cursor: len, anchor: Some(0) }, None)
            } else if !ctrl && !alt {
                let (a, b) = match sel {
                    Some(r) => r,
                    None => (pos, pos),
                };
                (InputState { cursor: (a + 1) as usize, anchor: None }, Some(spliced(s, a as int, b as int, seq![c])))
            } else {
                unchanged
            },
            KeyCode::Left => (
                moved(st, pos, shift, if ctrl { prev_boundary(s, pos as int) as usize } else if pos > 0 { (pos - 1) as usize } else { 0 }),
                None,
            ),
            KeyCode::Right => (
                moved(st, pos, shift, if ctrl { next_boundary(s, pos as int) as usize } else if pos < len { (pos + 1) as usize } else { len }),
                None,
            ),
            KeyCode::Home => (moved(st, pos, shift, 0), None),
            KeyCode::End => (moved(st, pos, shift, len), None),
            KeyCode::Backspace => match sel {
                Some((a, b)) => (InputState { cursor: a, anchor: None }, Some(spliced(s, a as int, b as int, Seq::empty()))),
                None => if pos > 0 {
                    let start = if ctrl { prev_boundary(s, pos as int) as usize } else { (pos - 1) as usize };
                    (InputState { cursor: start, anchor: None }, Some(spliced(s, start as int, pos as int, Seq::empty())))
                } else {
                    unchanged
                },
            },
            KeyCode::Delete => match sel {
                Some((a, b)) => (InputState { cursor: a, anchor: None }, Some(spliced(s, a as int, b as int, Seq::empty()))),
                None => if pos < len {
                    let end = if ctrl { next_boundary(s, pos as int) as usize } else { (pos + 1) as usize };
                    (st, Some(spliced(s, pos as int, end as int, Seq::empty())))
                } else {
                    unchanged
                },
            },
            _ => unchanged,
        }
    }
}

/// `s[..start]`, then `ins` if any, then `s[end..]`.
fn splice_vec(s: &Vec<char>, start: usize, end: usize, ins: Option<char>) -> (r: Vec<char>)
    requires
        start <= end <= s.len(),
    ensures
        r@ == spliced(s@, start as int, end as int, match ins {
            Some(c) => seq![c],
            None => Seq::empty(),
        }),
{
    let mut r: Vec<char> = Vec::new();
    let mut i: usize = 0;
    while i < start
        invariant
            i <= start <= end <= s.len(),
            r@ == s@.take(i as int),
        decreases start - i,
    {
        r.push(s[i]);
        i += 1;
        assert(r@ =~= s@.take(i as int));
    }
    let ghost mid = r@;
    match ins {
        Some(c) => r.push(c),
        None => {},
    }
    let ghost with_ins = r@;
    let mut j: usize = end;
    while j < s.len()
        invariant
            start <= end <= j <= s.len(),
            r@ == with_ins + s@.subrange(end as int, j as int),
        decreases s.len() - j,
    {
        r.push(s[j]);
        j += 1;
        assert(r@ =~= with_ins + s@.subrange(end as int, j as int));
    }
    assert(s@.subrange(end as int, s.len() as int) =~= s@.skip(end as int));
    let ghost insq = match ins {
        Some(c) => seq![c],
        None => Seq::<char>::empty(),
    };
    assert(with_ins =~= s@.take(start as int) + insq);
    r
}

/// Applies key event `e` to an input showing `chars` in state `st`; returns the new state
/// and, when the text changed, the new text to report.
pub fn input_key(chars: &Vec<char>, st: InputState, e: KeyEvent) -> (r: (InputState, Option<Vec<char>>))
    requires
        chars.len() < usize::MAX,
        edits(e) && st.anchor is Some ==> st.anchor.unwrap() <= chars.len(),
    ensures
        r.0 == input_step(chars@, st, e).0,
        match r.1 {
            Some(v) => input_step(chars@, st, e).1 == Some(v@),
            None => input_step(chars@, st, e).1 is None,
        },
{
    if !e.is_press() && !e.is_repeat() {
        return (st, None);
    }
    let len = chars.len();
    let pos = if st.cursor <= len { st.cursor } else { len };
    let shift = contains_modifier(e, KeyModifiers::shift());
    let ctrl = contains_modifier(e, KeyModifiers::control());
    let alt = contains_modifier(e, KeyModifiers::alt());
    let sel = selection_range(pos, st.anchor);
    match e.code {
        KeyCode::Char(c) => {
            if c == 'a' && ctrl {
                (InputState { cursor: len, anchor: Some(0) }, None)
            } else if !ctrl && !alt {
                let (a, b) = match sel {
                    Some(r) => r,
                    None => (pos, pos),
                };
                let v = splice_vec(chars, a, b, Some(c));
                (InputState { cursor: a + 1, anchor: None }, Some(v))
            } else {
                (st, None)
            }
        },
        KeyCode::Left => {
            let to = if ctrl { prev_word_boundary(chars, pos) } else if pos > 0 { pos - 1 } else { 0 };
            (move_to(st, pos, shift, to), None)
        },
        KeyCode::Right => {
            let to = if ctrl { next_word_boundary(chars, pos) } else if pos < len { pos + 1 } else { len };
            (move_to(st, pos, shift, to), None)
        },
        KeyCode::Home => (move_to(st, pos, shift, 0), None),
        KeyCode::End => (move_to(st, pos, shift, len), None),
        KeyCode::Backspace => match sel {
            Some((a, b)) => (InputState { cursor: a, anchor: None }, Some(splice_vec(chars, a, b, None))),
            None => if pos > 0 {
                let start = if ctrl { prev_word_boundary(chars, pos) } else { pos - 1 };
                (InputState { cursor: start, anchor: None }, Some(splice_vec(chars, start, pos, None)))
            } else {
                (st, None)
            },
        },
        KeyCode::Delete => match sel {
            Some((a, b)) => (InputState { cursor: a, anchor: None }, Some(splice_vec(chars, a, b, None))),
            None => if pos < len {
                let end = if ctrl { next_word_boundary(chars, pos) } else { pos + 1 };
                (st, Some(splice_vec(chars, pos, end, None)))
            } else {
                (st, None)
            },
        },
        _ => (st, None),
    }
}

fn move_to(st: InputState, pos: usize, shift: bool, to: usize) -> (r: InputState)
    ensures
        r == moved(st, pos, shift, to),
{
    let anchor = if shift {
        if st.anchor.is_none() { Some(pos) } else { st.anchor }
    } else {
        None
    };
    InputState { cursor: to, anchor }
}

} // verus!

verus! {

/// The style and character of cell `i` of an input: the cursor cell in `cursor_style`, a
/// selected cell in `selection_style`, any other in `normal`; past the text, a blank.
pub open spec fn run_cell(
    chars: Seq<char>,
    cursor: int,
    sel: Option<(usize, usize)>,
    normal: Style,
    selection_style: Style,
    cursor_style: Style,
    i: int,
) -> (Style, char) {
    let ch = if i < chars.len() { chars[i] } else { ' ' };
    let style = if i == cursor {
        cursor_style
    } else if sel matches Some((a, b)) && a <= i < b {
        selection_style
    } else {
        normal
    };
    (style, ch)
}

/// `cells` grouped into maximal runs of one style, in order.
pub open spec fn style_runs(cells: Seq<(Style, char)>) -> Seq<(Style, Seq<char>)>
    decreases cells.len(),
{
    if cells.len() == 0 {
        Seq::empty()
    } else {
        let r = style_runs(cells.drop_last());
        let (st, ch) = cells.last();
        if r.len() > 0 && r.last().0 == st {
            r.update(r.len() - 1, (st, r.last().1.push(ch)))
        } else {
            r.push((st, seq![ch]))
        }
    }
}

/// The cells an input paints: every character, and one more blank when the cursor sits past
/// the end.
pub open spec fn input_cells(
    chars: Seq<char>,
    cursor: int,
    sel: Option<(usize, usize)>,
    normal: Style,
    selection_style: Style,
    cursor_style: Style,
) -> Seq<(Style, char)> {
    let total = if chars.len() >= cursor + 1 { chars.len() as int } else { cursor + 1 };
    Seq::new(total as nat, |i: int| run_cell(chars, cursor, sel, normal, selection_style, cursor_style, i))
}

/// Splits the input's cells into contiguous same-style runs (the cursor cell, any selected
/// span, and everything else), each to be painted as its own `Text`.
pub fn build_runs(
    chars: &Vec<char>,
    cursor: usize,
    sel: Option<(usize, usize)>,
    normal_style: Style,
    selection_style: Style,
    cursor_style: Style,
) -> (runs: Vec<(Style, String)>)
    requires
        cursor < usize::MAX,
    ensures
        runs@.map_values(|r: (Style, String)| (r.0, r.1@)) == style_runs(
            input_cells(chars@, cursor as int, sel, normal_style, selection_style, cursor_style),
        ),
{
    let ghost cells = input_cells(chars@, cursor as int, sel, normal_style, selection_style, cursor_style);
    let total = if chars.len() >= cursor + 1 { chars.len() } else { cursor + 1 };
    let mut runs: Vec<(Style, String)> = Vec::new();
    let mut cur_style = normal_style;
    let mut cur_text = String::new();
    let mut i: usize = 0;
    while i < total
        invariant
            cells == input_cells(chars@, cursor as int, sel, normal_style, selection_style, cursor_style),
            total == cells.len(),
            i <= total,
            i == 0 ==> runs@.len() == 0,
            i > 0 ==> runs@.map_values(|r: (Style, String)| (r.0, r.1@)).push((cur_style, cur_text@)) == style_runs(cells.take(i as int)),
        decreases total - i,
    {
        let ch = if i < chars.len() { chars[i] } else { ' ' };
        let in_sel = match sel {
            Some((a, b)) => a <= i && i < b,
            None => false,
        };
        let style = if i == cursor {
            cursor_style
        } else if in_sel {
            selection_style
        } else {
            normal_style
        };
        let ghost before = runs@.map_values(|r: (Style, String)| (r.0, r.1@));
        let ghost old_text = cur_text@;
        let ghost old_style = cur_style;
        proof {
            assert(cells[i as int] == (style, ch));
            assert(cells.take(i + 1).drop_last() =~= cells.take(i as int));
            assert(cells.take(i + 1).last() == (style, ch));
        }
        if i > 0 && cur_style == style {
            string_push(&mut cur_text, ch);
            proof {
                let r = style_runs(cells.take(i as int));
                assert(r == before.push((old_style, old_text)));
                assert(r.update(r.len() - 1, (style, r.last().1.push(ch))) =~= before.push((cur_style, cur_text@)));
            }
        } else {
            if i > 0 {
                let done = (cur_style, cur_text);
                runs.push(done);
                proof {
                    assert(runs@.map_values(|r: (Style, String)| (r.0, r.1@)) =~= before.push((old_style, old_text)));
                }
            } else {
                assert(cells.take(0) =~= Seq::<(Style, char)>::empty());
            }
            cur_style = style;
            cur_text = String::new();
            string_push(&mut cur_text, ch);
            proof {
                let rv = runs@.map_values(|r: (Style, String)| (r.0, r.1@));
                assert(rv.push((cur_style, cur_text@)) =~= style_runs(cells.take(i as int)).push((style, seq![ch])));
            }
        }
        i += 1;
    }
    let ghost before = runs@.map_values(|r: (Style, String)| (r.0, r.1@));
    runs.push((cur_style, cur_text));
    assert(runs@.map_values(|r: (Style, String)| (r.0, r.1@)) =~= before.push((cur_style, cur_text@)));
    assert(cells.take(total as int) =~= cells);
    runs
}

} // verus!

verus! {

/// `a`, but no more than `len`.
pub open spec fn clamped(a: usize, len: usize) -> usize {
    if a <= len { a } else { len }
}

/// The style the placeholder text is shown in: dark grey.
pub open spec fn placeholder_style() -> Style {
    Style { foreground_color: Some(Color::DarkGrey), background_color: None, underline_color: None, attributes: 0 }
}

/// The style of the cursor cell: the input's style in reverse video.
pub open spec fn cursor_style_of(style: Style) -> Style {
    Style { attributes: style.attributes | 256, ..style }
}

/// The style of selected cells: the input's style on a dark grey background.
pub open spec fn selection_style_of(style: Style) -> Style {
    Style { background_color: Some(Color::DarkGrey), ..style }
}

/// The runs an input shows for text `chars` in state `(cursor, anchor)`: the text with the
/// cursor and selection marked (both taken as at most the text's length), or, for an empty
/// text, the placeholder in dark grey with the cursor on its first cell.
pub fn input_runs(chars: &Vec<char>, placeholder: &Vec<char>, cursor: usize, anchor: Option<usize>, style: Style) -> (runs: Vec<(Style, String)>)
    requires
        chars.len() < usize::MAX,
    ensures
        runs@.map_values(|r: (Style, String)| (r.0, r.1@)) == if chars.len() == 0 {
            style_runs(input_cells(placeholder@, 0, None, placeholder_style(), selection_style_of(style), cursor_style_of(style)))
        } else {
            let len = chars.len() as usize;
            let c = clamped(cursor, len);
            let a = match anchor {
                Some(a) => Some(clamped(a, len)),
                None => None,
            };
            style_runs(input_cells(chars@, c as int, selection(c, a), style, selection_style_of(style), cursor_style_of(style)))
        },
{
    let len = chars.len();
    let c = if cursor <= len { cursor } else { len };
    let a = match anchor {
        Some(a) => Some(if a <= len { a } else { len }),
        None => None,
    };
    let sel = selection_range(c, a);
    let cursor_style = style.reverse();
    let selection_style = style.with_background(Color::DarkGrey);
    if len == 0 {
        build_runs(placeholder, 0, None, Style::new().with_foreground(Color::DarkGrey), selection_style, cursor_style)
    } else {
        build_runs(chars, c, sel, style, selection_style, cursor_style)
    }
}

/// Typing a character (no modifier held, nothing selected) and then pressing Backspace gives
/// back the text and the cursor position there were before.
pub proof fn lemma_type_then_backspace(s: Seq<char>, cursor: usize, c: char, typed: KeyEvent, back: KeyEvent)
    requires
        cursor <= s.len(),
        s.len() < usize::MAX,
        typed.code == KeyCode::Char(c),
        typed.modifiers.bits == 0,
        typed.kind == crate::keys::KeyEventKind::Press,
        back.code == KeyCode::Backspace,
        back.modifiers.bits == 0,
        back.kind == crate::keys::KeyEventKind::Press,
    ensures
        input_step(s, InputState { cursor, anchor: None }, typed).1 is Some,
        input_step(
            input_step(s, InputState { cursor, anchor: None }, typed).1.unwrap(),
            input_step(s, InputState { cursor, anchor: None }, typed).0,
            back,
        ) == (InputState { cursor, anchor: None }, Some(s)),
{
    assert(0u8 & 1u8 != 1u8 && 0u8 & 2u8 != 2u8 && 0u8 & 4u8 != 4u8) by (bit_vector);
    let t = spliced(s, cursor as int, cursor as int, seq![c]);
    assert(spliced(t, cursor as int, cursor + 1, Seq::empty()) =~= s);
}

} // verus!

verus! {

proof fn lemma_skip_space_fwd(s: Seq<char>, i: int)
    requires
        0 <= i <= s.len(),
    ensures
        i <= skip_space_fwd(s, i) <= s.len(),
        forall|k: int| i <= k < skip_space_fwd(s, i) ==> is_white_space(#[trigger] s[k]),
        skip_space_fwd(s, i) == s.len() || !is_white_space(s[skip_space_fwd(s, i)]),
    decreases s.len() - i,
{
    if i < s.len() && is_white_space(s[i]) {
        lemma_skip_space_fwd(s, i + 1);
    }
}

proof fn lemma_skip_word_fwd(s: Seq<char>, i: int)
    requires
        0 <= i <= s.len(),
    ensures
        i <= skip_word_fwd(s, i) <= s.len(),
        forall|k: int| i <= k < skip_word_fwd(s, i) ==> !is_white_space(#[trigger] s[k]),
        skip_word_fwd(s, i) == s.len() || is_white_space(s[skip_word_fwd(s, i)]),
    decreases s.len() - i,
{
    if i < s.len() && !is_white_space(s[i]) {
        lemma_skip_word_fwd(s, i + 1);
    }
}

proof fn lemma_skip_space_back(s: Seq<char>, i: int)
    requires
        0 <= i <= s.len(),
    ensures
        0 <= skip_space_back(s, i) <= i,
        forall|k: int| skip_space_back(s, i) <= k < i ==> is_white_space(#[trigger] s[k]),
        skip_space_back(s, i) == 0 || !is_white_space(s[skip_space_back(s, i) - 1]),
    decreases i,
{
    if i > 0 && is_white_space(s[i - 1]) {
        lemma_skip_space_back(s, i - 1);
    }
}

proof fn lemma_skip_word_back(s: Seq<char>, i: int)
    requires
        0 <= i <= s.len(),
    ensures
        0 <= skip_word_back(s, i) <= i,
        forall|k: int| skip_word_back(s, i) <= k < i ==> !is_white_space(#[trigger] s[k]),
        skip_word_back(s, i) == 0 || is_white_space(s[skip_word_back(s, i) - 1]),
    decreases i,
{
    if i > 0 && !is_white_space(s[i - 1]) {
        lemma_skip_word_back(s, i - 1);
    }
}

/// Ctrl+Delete with nothing selected deletes forward to the end of the next word: the cursor
/// stays, and the text loses exactly the span from the cursor to some `end`, where the span
/// is whitespace followed by non-whitespace (never whitespace after a word character), and
/// `end` is the end of the text or the first whitespace after a word character. So
/// `"foo bar"` at 0 becomes `" bar"`.
pub proof fn lemma_ctrl_delete_removes_next_word(s: Seq<char>, st: InputState, e: KeyEvent)
    requires
        s.len() < usize::MAX,
        st.cursor < s.len(),
        st.anchor is None || st.anchor == Some(st.cursor),
        e.code == KeyCode::Delete,
        e.kind is Press || e.kind is Repeat,
        e.modifiers.bits & 2 == 2,
    ensures
        input_step(s, st, e).0 == st,
        input_step(s, st, e).1 is Some,
        ({
            let pos = st.cursor as int;
            let r = input_step(s, st, e).1.unwrap();
            let end = pos + s.len() - r.len();
            &&& pos < end <= s.len()
            &&& r == s.take(pos) + s.skip(end)
            &&& forall|a: int, b: int| pos <= a < b < end && !is_white_space(#[trigger] s[a]) ==> !is_white_space(#[trigger] s[b])
            &&& end < s.len() ==> is_white_space(s[end]) && !is_white_space(s[end - 1])
        }),
{
    let pos = st.cursor as int;
    lemma_skip_space_fwd(s, pos);
    let j = skip_space_fwd(s, pos);
    lemma_skip_word_fwd(s, j);
    let end = skip_word_fwd(s, j);
    if j < s.len() {
        assert(!is_white_space(s[j]));
        assert(end > j);
    }
    let r = spliced(s, pos, end, Seq::empty());
    assert(r.len() == s.len() - (end - pos));
    assert(input_step(s, st, e).1 == Some(r));
    assert(r =~= s.take(pos) + s.skip(end));
    assert forall|a: int, b: int| pos <= a < b < end && !is_white_space(#[trigger] s[a]) implies !is_white_space(#[trigger] s[b]) by {
        if b < j {
            assert(is_white_space(s[a]));
        }
    }
}

/// Ctrl+Backspace with nothing selected deletes back to the start of the previous word: the
/// cursor lands on that start, and the text loses exactly the span from it to the cursor,
/// made of non-whitespace followed by whitespace, starting at the text's start or right after
/// whitespace.
pub proof fn lemma_ctrl_backspace_removes_previous_word(s: Seq<char>, st: InputState, e: KeyEvent)
    requires
        s.len() < usize::MAX,
        0 < st.cursor <= s.len(),
        st.anchor is None || st.anchor == Some(st.cursor),
        e.code == KeyCode::Backspace,
        e.kind is Press || e.kind is Repeat,
        e.modifiers.bits & 2 == 2,
    ensures
        input_step(s, st, e).1 is Some,
        input_step(s, st, e).0.anchor is None,
        ({
            let pos = st.cursor as int;
            let start = input_step(s, st, e).0.cursor as int;
            let r = input_step(s, st, e).1.unwrap();
            &&& 0 <= start < pos
            &&& r == s.take(start) + s.skip(pos)
            &&& forall|a: int, b: int| start <= a < b < pos && !is_white_space(#[trigger] s[b]) ==> !is_white_space(#[trigger] s[a])
            &&& start > 0 ==> is_white_space(s[start - 1]) && !is_white_space(s[start])
        }),
{
    let pos = st.cursor as int;
    lemma_skip_space_back(s, pos);
    let j = skip_space_back(s, pos);
    lemma_skip_word_back(s, j);
    let start = skip_word_back(s, j);
    if j > 0 {
        assert(!is_white_space(s[j - 1]));
        assert(start < j);
    }
    assert(spliced(s, start, pos, Seq::empty()) =~= s.take(start) + s.skip(pos));
    assert forall|a: int, b: int| start <= a < b < pos && !is_white_space(#[trigger] s[b]) implies !is_white_space(#[trigger] s[a]) by {
        if a >= j {
            assert(is_white_space(s[b]));
        }
    }
}

/// Delete and Backspace without Ctrl, with nothing selected, remove exactly one character:
/// the one after the cursor (which stays) or the one before it (which moves back onto it).
pub proof fn lemma_plain_delete_backspace_remove_one(s: Seq<char>, st: InputState, e: KeyEvent)
    requires
        s.len() < usize::MAX,
        st.cursor <= s.len(),
        st.anchor is None || st.anchor == Some(st.cursor),
        e.kind is Press || e.kind is Repeat,
        e.modifiers.bits & 2 != 2,
    ensures
        e.code == KeyCode::Delete && st.cursor < s.len() ==> input_step(s, st, e) == (st, Some(s.remove(st.cursor as int))),
        e.code == KeyCode::Backspace && st.cursor > 0 ==> input_step(s, st, e) == (
            InputState { cursor: (st.cursor - 1) as usize, anchor: None },
            Some(s.remove(st.cursor - 1)),
        ),
        e.code == KeyCode::Delete && st.cursor == s.len() ==> input_step(s, st, e) == (st, None::<Seq<char>>),
        e.code == KeyCode::Backspace && st.cursor == 0 ==> input_step(s, st, e) == (st, None::<Seq<char>>),
{
    let pos = st.cursor as int;
    if pos < s.len() {
        assert(spliced(s, pos, pos + 1, Seq::empty()) =~= s.remove(pos));
    }
    if pos > 0 {
        assert(spliced(s, pos - 1, pos, Seq::empty()) =~= s.remove(pos - 1));
    }
}

/// Typing a character without Ctrl or Alt replaces the selection (or, with none, inserts at
/// the cursor) by that character and puts the cursor right after it, with no selection left.
pub proof fn lemma_typing_replaces_selection(s: Seq<char>, st: InputState, e: KeyEvent, c: char)
    requires
        st.cursor <= s.len(),
        s.len() < usize::MAX,
        match st.anchor {
            Some(a) => a <= s.len(),
            None => true,
        },
        e.code == KeyCode::Char(c),
        e.kind is Press || e.kind is Repeat,
        e.modifiers.bits & 2 != 2,
        e.modifiers.bits & 4 != 4,
    ensures
        ({
            let lo = match st.anchor {
                Some(a) => if a < st.cursor { a } else { st.cursor },
                None => st.cursor,
            };
            let hi = match st.anchor {
                Some(a) => if a > st.cursor { a } else { st.cursor },
                None => st.cursor,
            };
            input_step(s, st, e) == (
                InputState { cursor: (lo + 1) as usize, anchor: None },
                Some(s.take(lo as int).push(c) + s.skip(hi as int)),
            )
        }),
{
    let lo = match st.anchor {
        Some(a) => if a < st.cursor { a } else { st.cursor },
        None => st.cursor,
    };
    let hi = match st.anchor {
        Some(a) => if a > st.cursor { a } else { st.cursor },
        None => st.cursor,
    };
    assert(spliced(s, lo as int, hi as int, seq![c]) =~= s.take(lo as int).push(c) + s.skip(hi as int));
}

} // verus!

verus! {

/// The cells that runs `runs` paint, in order: each run's characters in the run's style.
pub open spec fn run_cells(runs: Seq<(Style, Seq<char>)>) -> Seq<(Style, char)>
    decreases runs.len(),
{
    if runs.len() == 0 {
        Seq::empty()
    } else {
        run_cells(runs.drop_last()) + runs.last().1.map_values(|c: char| (runs.last().0, c))
    }
}

/// Grouping cells into runs loses and reorders nothing.
proof fn lemma_style_runs_cells(cells: Seq<(Style, char)>)
    ensures
        run_cells(style_runs(cells)) == cells,
    decreases cells.len(),
{
    if cells.len() > 0 {
        lemma_style_runs_cells(cells.drop_last());
        let r = style_runs(cells.drop_last());
        let (st, ch) = cells.last();
        if r.len() > 0 && r.last().0 == st {
            let u = r.update(r.len() - 1, (st, r.last().1.push(ch)));
            assert(u.drop_last() =~= r.drop_last());
            assert(r.last().1.push(ch).map_values(|c: char| (st, c)) =~= r.last().1.map_values(|c: char| (st, c)).push((st, ch)));
            assert(run_cells(r) == run_cells(r.drop_last()) + r.last().1.map_values(|c: char| (r.last().0, c)));
            assert(run_cells(u) =~= run_cells(r).push((st, ch)));
        } else {
            let u = r.push((st, seq![ch]));
            assert(u.drop_last() =~= r);
            assert(seq![ch].map_values(|c: char| (st, c)) =~= seq![(st, ch)]);
        }
        assert(cells.drop_last().push(cells.last()) =~= cells);
    }
}

/// What an input draws, cell by cell: every character of the text (plus one blank when the
/// cursor sits past the end); the cell under the cursor always in the cursor style (the
/// input's style reversed), whatever the selection; the other cells between the cursor and
/// the selection anchor in the selection style; every other cell in the input's style. An
/// empty text shows the placeholder in dark grey, its first cell in the cursor style.
pub proof fn lemma_input_runs_cells(chars: Seq<char>, placeholder: Seq<char>, cursor: usize, anchor: Option<usize>, style: Style)
    requires
        chars.len() < usize::MAX,
    ensures
        ({
            let cells = run_cells(style_runs(input_cells(
                placeholder,
                0,
                None,
                placeholder_style(),
                selection_style_of(style),
                cursor_style_of(style),
            )));
            &&& cells.len() == (if placeholder.len() > 0 { placeholder.len() as int } else { 1 })
            &&& cells[0] == (cursor_style_of(style), if placeholder.len() > 0 { placeholder[0] } else { ' ' })
            &&& forall|i: int| 0 < i < cells.len() ==> #[trigger] cells[i] == (placeholder_style(), placeholder[i])
        }),
        chars.len() > 0 ==> ({
            let len = chars.len() as usize;
            let c = if cursor <= len { cursor } else { len };
            let a = match anchor {
                Some(x) => Some(if x <= len { x } else { len }),
                None => None,
            };
            let cells = run_cells(style_runs(input_cells(
                chars,
                c as int,
                selection(c, a),
                style,
                selection_style_of(style),
                cursor_style_of(style),
            )));
            &&& cells.len() == (if c < chars.len() { chars.len() as int } else { c + 1 })
            &&& cells[c as int] == (cursor_style_of(style), if c < chars.len() { chars[c as int] } else { ' ' })
            &&& forall|i: int|
                0 <= i < cells.len() && i != c ==> #[trigger] cells[i] == (
                    if a matches Some(x) && ((x <= i < c) || (c < i < x)) {
                        selection_style_of(style)
                    } else {
                        style
                    },
                    chars[i],
                )
        }),
{
    lemma_style_runs_cells(input_cells(placeholder, 0, None, placeholder_style(), selection_style_of(style), cursor_style_of(style)));
    if chars.len() > 0 {
        let len = chars.len() as usize;
        let c = if cursor <= len { cursor } else { len };
        let a = match anchor {
            Some(x) => Some(if x <= len { x } else { len }),
            None => None,
        };
        lemma_style_runs_cells(input_cells(chars, c as int, selection(c, a), style, selection_style_of(style), cursor_style_of(style)));
    }
}

} // verus!

verus! {

/// Only presses and repeats act: a release changes nothing and reports no text.
pub proof fn lemma_input_ignores_releases(s: Seq<char>, st: InputState, e: KeyEvent)
    requires
        !(e.kind is Press || e.kind is Repeat),
    ensures
        input_step(s, st, e) == (st, None::<Seq<char>>),
{
}

/// Cursor moves never change the text. Home goes to the start, End to the end, Left and
/// Right one character (stopping at the ends), Ctrl+Left to the start of the word before the
/// cursor and Ctrl+Right to the end of the word after it (whitespace next to the cursor
/// skipped). With Shift the selection starts from where the cursor was (or keeps its anchor);
/// without, it is dropped. Ctrl+A selects the whole text, cursor at the end.
pub proof fn lemma_input_moves(s: Seq<char>, st: InputState, e: KeyEvent)
    requires
        s.len() < usize::MAX,
        st.cursor <= s.len(),
        e.kind is Press || e.kind is Repeat,
        e.code == KeyCode::Home || e.code == KeyCode::End || e.code == KeyCode::Left || e.code == KeyCode::Right,
    ensures
        input_step(s, st, e).1 is None,
        e.modifiers.bits & 1 == 1 ==> input_step(s, st, e).0.anchor == if st.anchor is None {
            Some(st.cursor)
        } else {
            st.anchor
        },
        e.modifiers.bits & 1 != 1 ==> input_step(s, st, e).0.anchor is None,
        e.code == KeyCode::Home ==> input_step(s, st, e).0.cursor == 0,
        e.code == KeyCode::End ==> input_step(s, st, e).0.cursor == s.len(),
        e.code == KeyCode::Left && e.modifiers.bits & 2 != 2 ==> input_step(s, st, e).0.cursor == if st.cursor > 0 {
            st.cursor - 1
        } else {
            0
        },
        e.code == KeyCode::Right && e.modifiers.bits & 2 != 2 ==> input_step(s, st, e).0.cursor == if st.cursor < s.len() {
            st.cursor + 1
        } else {
            s.len() as int
        },
        e.code == KeyCode::Left && e.modifiers.bits & 2 == 2 ==> ({
            let t = input_step(s, st, e).0.cursor as int;
            &&& 0 <= t <= st.cursor
            &&& forall|a: int, b: int| t <= a < b < st.cursor && !is_white_space(#[trigger] s[b]) ==> !is_white_space(#[trigger] s[a])
            &&& t > 0 ==> is_white_space(s[t - 1]) && (t == st.cursor || !is_white_space(s[t]))
            &&& t == st.cursor ==> t == 0
        }),
        e.code == KeyCode::Right && e.modifiers.bits & 2 == 2 ==> ({
            let t = input_step(s, st, e).0.cursor as int;
            &&& st.cursor <= t <= s.len()
            &&& forall|a: int, b: int| st.cursor <= a < b < t && !is_white_space(#[trigger] s[a]) ==> !is_white_space(#[trigger] s[b])
            &&& t < s.len() ==> is_white_space(s[t]) && (t == st.cursor || !is_white_space(s[t - 1]))
            &&& t == st.cursor ==> t == s.len()
        }),
{
    let pos = st.cursor as int;
    lemma_skip_space_fwd(s, pos);
    lemma_skip_word_fwd(s, skip_space_fwd(s, pos));
    lemma_skip_space_back(s, pos);
    lemma_skip_word_back(s, skip_space_back(s, pos));
    let jf = skip_space_fwd(s, pos);
    let ef = skip_word_fwd(s, jf);
    if jf < s.len() {
        assert(!is_white_space(s[jf]));
        assert(ef > jf);
    }
    let jb = skip_space_back(s, pos);
    let sb = skip_word_back(s, jb);
    if jb > 0 {
        assert(!is_white_space(s[jb - 1]));
        assert(sb < jb);
    }
    assert forall|a: int, b: int| pos <= a < b < ef && !is_white_space(#[trigger] s[a]) implies !is_white_space(#[trigger] s[b]) by {
        if b < jf {
            assert(is_white_space(s[a]));
        }
    }
    assert forall|a: int, b: int| sb <= a < b < pos && !is_white_space(#[trigger] s[b]) implies !is_white_space(#[trigger] s[a]) by {
        if a >= jb {
            assert(is_white_space(s[b]));
        }
    }
}

/// Ctrl+A selects the whole text: the cursor goes to the end, the anchor to the start, and
/// the text is not changed.
pub proof fn lemma_ctrl_a_selects_all(s: Seq<char>, st: InputState, e: KeyEvent)
    requires
        s.len() < usize::MAX,
        e.kind is Press || e.kind is Repeat,
        e.code == KeyCode::Char('a'),
        e.modifiers.bits & 2 == 2,
    ensures
        input_step(s, st, e) == (InputState { cursor: s.len() as usize, anchor: Some(0usize) }, None::<Seq<char>>),
{
}

} // verus!
