use vstd::prelude::*;
use crate::geometry::LayoutRect;
use crate::keys::{KeyCode, KeyEvent, MouseButton, MouseEventKind};
use crate::props::{Border, BorderCharset, XYProps};
use crate::props::charset_of;
use crate::style::{Cell, Color, Style};
use crate::style::{plain_style, unstyled_cell};
use crate::text::string_push;

verus! {

/// `a - b`, or 0 when `b` is larger.
pub open spec fn sat_sub(a: u16, b: u16) -> u16 {
    if a >= b { (a - b) as u16 } else { 0 }
}

/// `a + b`, or `u16::MAX` when that is larger.
pub open spec fn sat_add(a: u16, b: u16) -> u16 {
    if a + b <= u16::MAX { (a + b) as u16 } else { u16::MAX }
}

fn saturating_sub_u16(a: u16, b: u16) -> (r: u16)
    ensures
        r == sat_sub(a, b),
{
    if a >= b { a - b } else { 0 }
}

fn saturating_add_u16(a: u16, b: u16) -> (r: u16)
    ensures
        r == sat_add(a, b),
{
    if a <= u16::MAX - b { a + b } else { u16::MAX }
}

/// What a select list does with key event `e`: the new highlighted index, and the index to
/// report as chosen, if any. Only an active list with options reacts, and only to presses
/// and repeats: Up and Down move the highlight with wraparound, Enter chooses it.
pub open spec fn select_step(active: bool, selected: u32, total: u32, e: KeyEvent) -> (u32, Option<u32>) {
    if !active || !(e.kind is Press || e.kind is Repeat) || total == 0 {
        (selected, None)
    } else {
        match e.code {
            KeyCode::Up => (((selected + total - 1) % (total as int)) as u32, None),
            KeyCode::Down => (((selected + 1) % (total as int)) as u32, None),
            KeyCode::Enter => (selected, Some(selected)),
            _ => (selected, None),
        }
    }
}

/// Applies key event `e` to a select list of `total` options with `selected` highlighted.
pub fn select_key(active: bool, selected: u32, total: u32, e: KeyEvent) -> (r: (u32, Option<u32>))
    requires
        active && (e.kind is Press || e.kind is Repeat) && total > 0 && e.code == KeyCode::Up ==> selected + total <= u32::MAX,
        active && (e.kind is Press || e.kind is Repeat) && total > 0 && e.code == KeyCode::Down ==> selected + 1 <= u32::MAX,
    ensures
        r == select_step(active, selected, total, e),
{
    if !active || (!e.is_press() && !e.is_repeat()) {
        return (selected, None);
    }
    if total == 0 {
        return (selected, None);
    }
    match e.code {
        KeyCode::Up => ((selected + total - 1) % total, None),
        KeyCode::Down => ((selected + 1) % total, None),
        KeyCode::Enter => (selected, Some(selected)),
        _ => (selected, None),
    }
}

/// An inactive (unfocused) select never reacts to a key: whatever the event, the highlight
/// stays and nothing is reported.
pub proof fn lemma_inactive_select_ignores_keys(selected: u32, total: u32, e: KeyEvent)
    ensures
        select_step(false, selected, total, e) == (selected, None::<u32>),
{
}

/// A select reports a choice only for an Enter press (or repeat) while active, and what it
/// reports is the highlighted option, which stays highlighted; every other key reports
/// nothing. A highlight inside the list stays inside it.
pub proof fn lemma_select_reports_only_enter(active: bool, selected: u32, total: u32, e: KeyEvent)
    ensures
        select_step(active, selected, total, e).1 is Some ==> active && e.code == KeyCode::Enter && (e.kind is Press
            || e.kind is Repeat) && select_step(active, selected, total, e) == (selected, Some(selected)),
        active && e.code == KeyCode::Enter && (e.kind is Press || e.kind is Repeat) && total > 0 ==> select_step(
            active,
            selected,
            total,
            e,
        ).1 == Some(selected),
        selected < total ==> select_step(active, selected, total, e).0 < total,
{
    let (sv, t) = (selected as int, total as int);
    if active && (e.kind is Press || e.kind is Repeat) && total > 0 {
        assert((sv + t - 1) % t < t) by (nonlinear_arith)
            requires
                t > 0,
        ;
        assert((sv + 1) % t < t) by (nonlinear_arith)
            requires
                t > 0,
        ;
        assert((sv + t - 1) % t >= 0) by (nonlinear_arith)
            requires
                t > 0,
        ;
        assert((sv + 1) % t >= 0) by (nonlinear_arith)
            requires
                t > 0,
        ;
    }
}

/// Moving the highlight down and then up (or up and then down) lands back where it started.
pub proof fn lemma_select_up_down_inverse(selected: u32, total: u32, e_up: KeyEvent, e_down: KeyEvent)
    requires
        selected < total,
        total < u32::MAX,
        e_up.code == KeyCode::Up,
        e_down.code == KeyCode::Down,
        e_up.kind is Press || e_up.kind is Repeat,
        e_down.kind is Press || e_down.kind is Repeat,
    ensures
        select_step(true, select_step(true, selected, total, e_down).0, total, e_up).0 == selected,
        select_step(true, select_step(true, selected, total, e_up).0, total, e_down).0 == selected,
{
    let (s, t) = (selected as int, total as int);
    if s + 1 < t {
        assert((s + 1) % t == s + 1) by (nonlinear_arith)
            requires
                0 <= s + 1 < t,
        ;
        assert((s + 1 + t - 1) % t == s) by (nonlinear_arith)
            requires
                0 <= s < t,
        ;
    } else {
        assert((s + 1) % t == 0) by (nonlinear_arith)
            requires
                s + 1 == t,
                t > 0,
        ;
        assert((0 + t - 1) % t == s) by (nonlinear_arith)
            requires
                s + 1 == t,
                t > 0,
        ;
    }
    if s >= 1 {
        assert((s + t - 1) % t == s - 1) by (nonlinear_arith)
            requires
                1 <= s < t,
        ;
        assert((s - 1 + 1) % t == s) by (nonlinear_arith)
            requires
                0 <= s < t,
        ;
    } else {
        assert((s + t - 1) % t == t - 1) by (nonlinear_arith)
            requires
                s == 0,
                t > 0,
        ;
        assert((t - 1 + 1) % t == 0) by (nonlinear_arith)
            requires
                t > 0,
        ;
    }
}

/// The vertical scroll offset that brings the highlighted option into the viewport: scrolled
/// up by how far the option sticks out above it, or down by how far it sticks out below.
pub open spec fn scrolled_into_view(offset: XYProps<u16>, viewport: LayoutRect, option: LayoutRect) -> XYProps<u16> {
    if option.first.y < viewport.first.y {
        XYProps { y: sat_sub(offset.y, (viewport.first.y - option.first.y) as u16), ..offset }
    } else if option.second.y > viewport.second.y {
        XYProps { y: sat_add(offset.y, (option.second.y - viewport.second.y) as u16), ..offset }
    } else {
        offset
    }
}

/// Adjusts `offset` so that `option` is scrolled into `viewport`.
pub fn scroll_into_view(offset: XYProps<u16>, viewport: LayoutRect, option: LayoutRect) -> (r: XYProps<u16>)
    requires
        option.first.y < viewport.first.y ==> viewport.first.y - option.first.y <= i32::MAX,
        option.first.y >= viewport.first.y && option.second.y > viewport.second.y ==> option.second.y
            - viewport.second.y <= i32::MAX,
    ensures
        r == scrolled_into_view(offset, viewport, option),
{
    if option.first.y < viewport.first.y {
        let d = (viewport.first.y - option.first.y) as u16;
        XYProps { x: offset.x, y: saturating_sub_u16(offset.y, d) }
    } else if option.second.y > viewport.second.y {
        let d = (option.second.y - viewport.second.y) as u16;
        XYProps { x: offset.x, y: saturating_add_u16(offset.y, d) }
    } else {
        offset
    }
}

/// The style a select option is shown in: reversed when it is the highlighted one.
pub fn option_style(selected: u32, index: u32, style: Style) -> (s: Style)
    ensures
        s == if selected == index { Style { attributes: style.attributes | 256, ..style } } else { style },
{
    if selected == index {
        style.reverse()
    } else {
        style
    }
}

/// The border charset a button draws: the one given, else a double border while it is
/// active, enabled and pressed (by `pressed_override` when set, else by Enter, Space or a
/// click held down), a single-double one while active and enabled, a single one otherwise.
pub open spec fn button_charset(
    border: Option<BorderCharset>,
    active: bool,
    disabled: bool,
    pressed_override: Option<bool>,
    enter: bool,
    space: bool,
    click: bool,
) -> BorderCharset {
    match border {
        Some(b) => b,
        None => if active && !disabled {
            let pressed = match pressed_override {
                Some(p) => p,
                None => enter || space || click,
            };
            if pressed {
                charset_of('╔', '═', '╗', '║', '╝', '═', '╚', '║')
            } else {
                charset_of('╓', '─', '╖', '║', '╜', '─', '╙', '║')
            }
        } else {
            charset_of('┌', '─', '┐', '│', '┘', '─', '└', '│')
        },
    }
}

/// The border a button is drawn with.
pub fn button_border(
    border: Option<BorderCharset>,
    active: bool,
    disabled: bool,
    pressed_override: Option<bool>,
    enter: bool,
    space: bool,
    click: bool,
) -> (b: Border)
    ensures
        b.style == Some(button_charset(border, active, disabled, pressed_override, enter, space, click)),
{
    let cs = match border {
        Some(b) => b,
        None => if active && !disabled {
            let pressed = match pressed_override {
                Some(p) => p,
                None => enter || space || click,
            };
            if pressed {
                BorderCharset::double()
            } else {
                BorderCharset::single_double()
            }
        } else {
            BorderCharset::single()
        },
    };
    Border::new(Some(cs))
}

/// The style of a button's label: dark grey when disabled, plain otherwise.
pub fn button_text_style(disabled: bool) -> (s: Style)
    ensures
        s == if disabled { Style { foreground_color: Some(Color::DarkGrey), ..plain_style() } } else { plain_style() },
{
    if disabled {
        Style::new().with_foreground(Color::DarkGrey)
    } else {
        Style::new()
    }
}

/// The button's `(space, enter)` held flags after key event `e`: the key's flag becomes
/// whether the key is now down (anything but a release); other keys change nothing.
pub fn button_key(e: KeyEvent, space: bool, enter: bool) -> (r: (bool, bool))
    ensures
        r == if e.code == KeyCode::Char(' ') {
            (!(e.kind is Release), enter)
        } else if e.code == KeyCode::Enter {
            (space, !(e.kind is Release))
        } else {
            (space, enter)
        },
{
    let value = !e.is_release();
    if e.code == KeyCode::Char(' ') {
        (value, enter)
    } else if e.code == KeyCode::Enter {
        (space, value)
    } else {
        (space, enter)
    }
}

/// The button's click-held flag after mouse event `kind`, and whether that event completes a
/// click: a left press sets the flag; a left release clears it and, when the press was held
/// and the button is enabled, fires the click handler; anything else changes nothing.
pub fn button_click(kind: MouseEventKind, click: bool, disabled: bool) -> (r: (bool, bool))
    ensures
        r.0 == match kind {
            MouseEventKind::Down(MouseButton::Left) => true,
            MouseEventKind::Up(MouseButton::Left) => false,
            _ => click,
        },
        r.1 == (kind matches MouseEventKind::Up(MouseButton::Left) && click && !disabled),
{
    match kind {
        MouseEventKind::Down(MouseButton::Left) => (true, false),
        MouseEventKind::Up(MouseButton::Left) => (false, click && !disabled),
        _ => (click, false),
    }
}

/// The highlighted option of a select after mouse event `kind` reaches option `index`: a
/// press of any button selects it, unless clicking is disabled; otherwise `selected` stays.
pub fn select_option_click(kind: MouseEventKind, clicking_disabled: bool, index: u32, selected: u32) -> (r: u32)
    ensures
        r == if !clicking_disabled && kind is Down { index } else { selected },
{
    if clicking_disabled || !kind.is_down() {
        selected
    } else {
        index
    }
}

/// A rect's width as a cell count.
pub open spec fn rect_width(r: LayoutRect) -> u16 {
    (r.second.x - r.first.x) as u16
}

/// A rect's height as a cell count.
pub open spec fn rect_height(r: LayoutRect) -> u16 {
    (r.second.y - r.first.y) as u16
}

/// Whether a rect's extents are representable.
pub open spec fn extents_fit(r: LayoutRect) -> bool {
    &&& i32::MIN <= r.second.x - r.first.x <= i32::MAX
    &&& i32::MIN <= r.second.y - r.first.y <= i32::MAX
}

/// How far a scrolling viewport can scroll on each axis: how much the content is wider and
/// taller than the viewport (0 until both have been measured, or where the content fits).
pub fn scroll_limits(viewport: Option<LayoutRect>, content: Option<LayoutRect>) -> (r: (u16, u16))
    requires
        viewport matches Some(v) ==> extents_fit(v),
        content matches Some(c) ==> extents_fit(c),
    ensures
        r == match (viewport, content) {
            (Some(v), Some(c)) => (sat_sub(rect_width(c), rect_width(v)), sat_sub(rect_height(c), rect_height(v))),
            _ => (0u16, 0u16),
        },
{
    match (viewport, content) {
        (Some(v), Some(c)) => (
            saturating_sub_u16(c.width(), v.width()),
            saturating_sub_u16(c.height(), v.height()),
        ),
        _ => (0, 0),
    }
}

/// The offsets the content is actually shifted by: the requested ones, capped at the limits,
/// and 0 on a locked axis.
pub fn scroll_offsets(lock: XYProps<bool>, scroll: XYProps<u16>, max: (u16, u16)) -> (r: (u16, u16))
    ensures
        r.0 == if lock.x { 0 } else if scroll.x <= max.0 { scroll.x } else { max.0 },
        r.1 == if lock.y { 0 } else if scroll.y <= max.1 { scroll.y } else { max.1 },
{
    let x = if lock.x { 0 } else if scroll.x <= max.0 { scroll.x } else { max.0 };
    let y = if lock.y { 0 } else if scroll.y <= max.1 { scroll.y } else { max.1 };
    (x, y)
}

/// The offset the mouse wheel asks for: one cell down, up, left or right (saturating), or
/// `None` for any other mouse event.
pub fn wheel_scroll(scroll: XYProps<u16>, kind: MouseEventKind) -> (r: Option<XYProps<u16>>)
    ensures
        r == match kind {
            MouseEventKind::ScrollDown => Some(XYProps { y: sat_add(scroll.y, 1), ..scroll }),
            MouseEventKind::ScrollUp => Some(XYProps { y: sat_sub(scroll.y, 1), ..scroll }),
            MouseEventKind::ScrollLeft => Some(XYProps { x: sat_sub(scroll.x, 1), ..scroll }),
            MouseEventKind::ScrollRight => Some(XYProps { x: sat_add(scroll.x, 1), ..scroll }),
            _ => None,
        },
{
    match kind {
        MouseEventKind::ScrollDown => Some(XYProps { x: scroll.x, y: saturating_add_u16(scroll.y, 1) }),
        MouseEventKind::ScrollUp => Some(XYProps { x: scroll.x, y: saturating_sub_u16(scroll.y, 1) }),
        MouseEventKind::ScrollLeft => Some(XYProps { x: saturating_sub_u16(scroll.x, 1), y: scroll.y }),
        MouseEventKind::ScrollRight => Some(XYProps { x: saturating_add_u16(scroll.x, 1), y: scroll.y }),
        _ => None,
    }
}

/// A wheel step down followed by one up leaves the offset as it was, short of the limit.
pub proof fn lemma_wheel_down_up(scroll: XYProps<u16>)
    requires
        scroll.y < u16::MAX,
    ensures
        sat_sub(sat_add(scroll.y, 1), 1) == scroll.y,
{
}

/// The next frame of a spinner with `frame_count` frames, after frame `index`.
pub fn next_frame(index: u32, frame_count: u32) -> (r: u32)
    requires
        frame_count > 0,
        index < u32::MAX,
    ensures
        r == (index + 1) % (frame_count as int),
        r < frame_count,
{
    (index + 1) % frame_count
}

} // verus!

verus! {

/// The glyphs of a progress bar: the first, middle and last filled cells, and the rest.
#[derive(PartialEq, Eq, Structural, Clone, Copy, Debug)]
pub struct ProgressBarCharset {
    pub start_filled: Cell,
    pub center_filled: Cell,
    pub end_filled: Cell,
    pub remaining: Cell,
}

impl ProgressBarCharset {
    /// `###...`
    pub fn classic() -> (c: ProgressBarCharset)
        ensures
            c == (ProgressBarCharset {
                start_filled: unstyled_cell('#'),
                center_filled: unstyled_cell('#'),
                end_filled: unstyled_cell('#'),
                remaining: unstyled_cell('.'),
            }),
    {
        ProgressBarCharset {
            start_filled: Cell::from_char('#'),
            center_filled: Cell::from_char('#'),
            end_filled: Cell::from_char('#'),
            remaining: Cell::from_char('.'),
        }
    }

    /// `<##>---`
    pub fn diamond() -> (c: ProgressBarCharset)
        ensures
            c == (ProgressBarCharset {
                start_filled: unstyled_cell('<'),
                center_filled: unstyled_cell('#'),
                end_filled: unstyled_cell('>'),
                remaining: unstyled_cell('-'),
            }),
    {
        ProgressBarCharset {
            start_filled: Cell::from_char('<'),
            center_filled: Cell::from_char('#'),
            end_filled: Cell::from_char('>'),
            remaining: Cell::from_char('-'),
        }
    }
}

impl Default for ProgressBarCharset {
    fn default() -> (c: ProgressBarCharset)
        ensures
            c == (ProgressBarCharset {
                start_filled: unstyled_cell('#'),
                center_filled: unstyled_cell('#'),
                end_filled: unstyled_cell('#'),
                remaining: unstyled_cell('.'),
            }),
    {
        ProgressBarCharset::classic()
    }
}

/// The glyph at position `i` of a bar with `filled` filled cells: the start glyph first, the
/// end glyph last, the center glyph between them, the remaining glyph after them.
pub open spec fn bar_glyph(cs: ProgressBarCharset, filled: int, i: int) -> char {
    if i < filled {
        if i == 0 {
            cs.start_filled.0.content
        } else if i == filled - 1 {
            cs.end_filled.0.content
        } else {
            cs.center_filled.0.content
        }
    } else {
        cs.remaining.0.content
    }
}

/// The characters of a bar `width` cells wide with `filled` of them filled (at most all).
pub open spec fn bar_text(cs: ProgressBarCharset, width: u16, filled: u16) -> Seq<char> {
    let f = if filled <= width { filled } else { width };
    Seq::new(width as nat, |i: int| bar_glyph(cs, f as int, i))
}

/// Renders exactly `width` characters: `filled` glyphs (start/center/end), then `remaining`
/// glyphs for the rest.
pub fn render_bar(charset: ProgressBarCharset, width: u16, filled: u16) -> (bar: String)
    ensures
        bar@ == bar_text(charset, width, filled),
{
    let filled = if filled <= width { filled } else { width };
    let mut bar = String::new();
    let mut i: u16 = 0;
    while i < width
        invariant
            filled <= width,
            i <= width,
            bar@ == bar_text(charset, width, filled).take(i as int),
        decreases width - i,
    {
        let cell = if i < filled {
            if i == 0 {
                charset.start_filled
            } else if i == filled - 1 {
                charset.end_filled
            } else {
                charset.center_filled
            }
        } else {
            charset.remaining
        };
        string_push(&mut bar, cell.content());
        assert(bar_text(charset, width, filled).take(i + 1) =~= bar_text(charset, width, filled).take(i as int).push(
            cell.0.content,
        ));
        i += 1;
    }
    assert(bar_text(charset, width, filled).take(width as int) =~= bar_text(charset, width, filled));
    bar
}

/// The character of decimal digit `d`.
pub open spec fn digit_char(d: int) -> char {
    if d == 0 { '0' } else if d == 1 { '1' } else if d == 2 { '2' } else if d == 3 { '3' } else if d == 4 {
        '4'
    } else if d == 5 { '5' } else if d == 6 { '6' } else if d == 7 { '7' } else if d == 8 { '8' } else { '9' }
}

/// `n` written in decimal.
pub open spec fn decimal(n: nat) -> Seq<char>
    decreases n,
{
    if n < 10 {
        seq![digit_char(n as int)]
    } else {
        decimal(n / 10).push(digit_char((n % 10) as int))
    }
}

fn digit(d: u8) -> (c: char)
    requires
        d < 10,
    ensures
        c == digit_char(d as int),
{
    if d == 0 { '0' } else if d == 1 { '1' } else if d == 2 { '2' } else if d == 3 { '3' } else if d == 4 {
        '4'
    } else if d == 5 { '5' } else if d == 6 { '6' } else if d == 7 { '7' } else if d == 8 { '8' } else { '9' }
}

/// The text after a progress bar: a space, the percentage and `%`, when it is shown.
pub open spec fn progress_label(percent: u8, show: bool) -> Seq<char> {
    if show {
        seq![' '] + decimal(percent as nat) + seq!['%']
    } else {
        Seq::empty()
    }
}

/// How wide the bar itself is: what the label leaves of `width`.
pub open spec fn bar_width(width: u16, percent: u8, show: bool) -> u16 {
    sat_sub(width, progress_label(percent, show).len() as u16)
}

fn push_label(out: &mut String, percent: u8)
    ensures
        final(out)@ == old(out)@ + seq![' '] + decimal(percent as nat) + seq!['%'],
        decimal(percent as nat).len() <= 3,
{
    proof {
        reveal_with_fuel(decimal, 3);
    }
    string_push(out, ' ');
    let ghost d = decimal(percent as nat);
    if percent >= 100 {
        string_push(out, digit(percent / 100));
    }
    if percent >= 10 {
        string_push(out, digit((percent / 10) % 10));
    }
    string_push(out, digit(percent % 10));
    string_push(out, '%');
    proof {
        if percent >= 100 {
            assert(decimal((percent / 10) as nat) == decimal((percent / 100) as nat).push(digit_char(((percent / 10) % 10) as int)));
        }
        assert(final(out)@ =~= old(out)@ + seq![' '] + d + seq!['%']) by {
        }
    }
}

/// The text of a progress bar `width` cells wide at `percent`: the bar (filled in proportion,
/// rounded down) and the label when shown.
pub fn progress_text(charset: ProgressBarCharset, width: u16, percent: u8, show_percentage_text: bool) -> (s: String)
    requires
        percent <= 100,
        bar_width(width, percent, show_percentage_text) * percent <= u16::MAX,
    ensures
        s@ == bar_text(
            charset,
            bar_width(width, percent, show_percentage_text),
            (bar_width(width, percent, show_percentage_text) * percent / 100) as u16,
        ) + progress_label(percent, show_percentage_text),
{
    let mut label = String::new();
    let mut label_len: u16 = 0;
    if show_percentage_text {
        push_label(&mut label, percent);
        label_len = if percent >= 100 { 5 } else if percent >= 10 { 4 } else { 3 };
        proof {
            reveal_with_fuel(decimal, 3);
            assert(label@ =~= progress_label(percent, show_percentage_text));
        }
    } else {
        assert(label@ =~= progress_label(percent, show_percentage_text));
    }
    assert(label_len == progress_label(percent, show_percentage_text).len()) by {
        reveal_with_fuel(decimal, 3);
    }
    let bw = saturating_sub_u16(width, label_len);
    let filled = bw * (percent as u16) / 100;
    let mut bar = render_bar(charset, bw, filled);
    let ghost bar0 = bar@;
    let n = label.as_str().unicode_len();
    let mut i: usize = 0;
    while i < n
        invariant
            n == label@.len(),
            i <= n,
            bar@ == bar0 + label@.take(i as int),
        decreases n - i,
    {
        let c = label.as_str().get_char(i);
        string_push(&mut bar, c);
        assert(label@.take(i + 1) =~= label@.take(i as int).push(c));
        i += 1;
    }
    assert(label@.take(n as int) =~= label@);
    bar
}

/// Which way a separator runs.
#[derive(PartialEq, Eq, Structural, Clone, Copy, Debug)]
pub enum SeparatorDirection {
    Horizontal,
    Vertical,
}

/// The glyphs a separator is drawn with, one per direction.
#[derive(PartialEq, Eq, Structural, Clone, Copy, Debug)]
pub struct SeparatorCharset {
    pub horizontal: Cell,
    pub vertical: Cell,
}

impl SeparatorCharset {
    /// The glyph for direction `dir`.
    pub fn get(&self, dir: SeparatorDirection) -> (c: Cell)
        ensures
            c == if dir == SeparatorDirection::Horizontal { self.horizontal } else { self.vertical },
    {
        if dir == SeparatorDirection::Horizontal {
            self.horizontal
        } else {
            self.vertical
        }
    }

    /// `-` and `|`.
    pub fn classic() -> (c: SeparatorCharset)
        ensures
            c == (SeparatorCharset { horizontal: unstyled_cell('-'), vertical: unstyled_cell('|') }),
    {
        SeparatorCharset { horizontal: Cell::from_char('-'), vertical: Cell::from_char('|') }
    }

    /// Box-drawing lines.
    pub fn box_char() -> (c: SeparatorCharset)
        ensures
            c == (SeparatorCharset { horizontal: unstyled_cell('─'), vertical: unstyled_cell('│') }),
    {
        SeparatorCharset { horizontal: Cell::from_char('─'), vertical: Cell::from_char('│') }
    }
}

/// A rule of `n` glyphs `g`: in one row when horizontal; when vertical, one glyph per line
/// (the glyphs separated by line breaks), so that it lays out as a column.
pub open spec fn rule_text(dir: SeparatorDirection, g: char, n: nat) -> Seq<char> {
    if dir == SeparatorDirection::Horizontal {
        Seq::new(n, |i: int| g)
    } else {
        Seq::new(if n == 0 { 0 } else { (2 * n - 1) as nat }, |i: int| if i % 2 == 0 { g } else { '\n' })
    }
}

/// The text of a separator laid out at `rect`: its glyph repeated across the rect's width
/// (horizontal), or down its height one glyph per line (vertical).
pub fn separator_text(dir: SeparatorDirection, charset: &SeparatorCharset, rect: LayoutRect) -> (s: String)
    requires
        extents_fit(rect),
    ensures
        s@ == rule_text(
            dir,
            charset.get_spec(dir).0.content,
            (if dir == SeparatorDirection::Horizontal { rect_width(rect) } else { rect_height(rect) }) as nat,
        ),
{
    let w = if dir == SeparatorDirection::Horizontal { rect.width() } else { rect.height() };
    let ch = charset.get(dir).content();
    let vertical = dir == SeparatorDirection::Vertical;
    let mut s = String::new();
    let mut i: u16 = 0;
    while i < w
        invariant
            i <= w,
            ch == charset.get_spec(dir).0.content,
            vertical == (dir == SeparatorDirection::Vertical),
            s@ == rule_text(dir, ch, i as nat),
        decreases w - i,
    {
        if vertical && i > 0 {
            string_push(&mut s, '\n');
        }
        string_push(&mut s, ch);
        i += 1;
        assert(s@ =~= rule_text(dir, ch, i as nat));
    }
    s
}

impl SeparatorCharset {
    /// The glyph for direction `dir`.
    pub open spec fn get_spec(&self, dir: SeparatorDirection) -> Cell {
        if dir == SeparatorDirection::Horizontal { self.horizontal } else { self.vertical }
    }
}

} // verus!
