use vstd::prelude::*;
use crate::geometry::{LayoutRect, Point};
use crate::geometry::rect_contains;
use crate::props::{Border, BorderCharset};
use crate::style::{Cell, Color, Style, StyledContent};
use crate::style::blank_cell;
use crate::text::{StyledChar, TextWrap, wrap_styled, string_push};
use crate::text::{widest, wrapped_text};

verus! {

/// An in-memory grid mirroring the terminal's contents, `height` rows of `width` cells.
#[derive(Clone, Debug)]
pub struct Buffer {
    pub width: u32,
    pub height: u32,
    pub cells: Vec<Vec<Cell>>,
}

impl Buffer {
    /// The rows of cells.
    pub open spec fn grid(&self) -> Seq<Seq<Cell>> {
        self.cells@.map_values(|r: Vec<Cell>| r@)
    }

    /// `height` rows of exactly `width` cells each.
    pub open spec fn wf(&self) -> bool {
        &&& self.cells@.len() == self.height
        &&& forall|y: int| 0 <= y < self.height ==> (#[trigger] self.cells@[y])@.len() == self.width
    }

    /// Whether `(x, y)` is a cell of this buffer.
    pub open spec fn in_bounds(&self, x: int, y: int) -> bool {
        0 <= x < self.width && 0 <= y < self.height
    }

    /// The cell at column `x`, row `y`.
    pub open spec fn at(&self, x: int, y: int) -> Cell {
        self.cells@[y]@[x]
    }

    /// A buffer of `width` by `height` blank cells.
    pub fn blank(width: u32, height: u32) -> (b: Buffer)
        ensures
            b.wf(),
            b.width == width,
            b.height == height,
            forall|x: int, y: int| b.in_bounds(x, y) ==> #[trigger] b.at(x, y) == blank_cell(),
    {
        let mut cells: Vec<Vec<Cell>> = Vec::new();
        let mut y: u32 = 0;
        while y < height
            invariant
                y <= height,
                cells@.len() == y,
                forall|j: int| 0 <= j < y ==> (#[trigger] cells@[j])@.len() == width,
                forall|j: int, i: int| 0 <= j < y && 0 <= i < width ==> #[trigger] cells@[j]@[i] == blank_cell(),
            decreases height - y,
        {
            let mut row: Vec<Cell> = Vec::new();
            let mut x: u32 = 0;
            while x < width
                invariant
                    x <= width,
                    row@.len() == x,
                    forall|i: int| 0 <= i < x ==> #[trigger] row@[i] == blank_cell(),
                decreases width - x,
            {
                row.push(Cell::unstyled(' '));
                x += 1;
            }
            cells.push(row);
            y += 1;
        }
        Buffer { width, height, cells }
    }

    /// The cell at column `x`, row `y`.
    pub fn get(&self, x: u32, y: u32) -> (c: Cell)
        requires
            self.wf(),
            self.in_bounds(x as int, y as int),
        ensures
            c == self.at(x as int, y as int),
    {
        self.cells[y as usize][x as usize]
    }

    /// Writes `cell` at `(x, y)`; does nothing when that is outside the buffer (layout may
    /// legally overflow the terminal).
    pub fn set(&mut self, x: u32, y: u32, cell: Cell)
        requires
            old(self).wf(),
        ensures
            final(self).wf(),
            final(self).width == old(self).width,
            final(self).height == old(self).height,
            forall|i: int, j: int| #![trigger final(self).at(i, j)] final(self).in_bounds(i, j) ==> final(self).at(i, j) == if i == x && j == y {
                cell
            } else {
                old(self).at(i, j)
            },
    {
        if x >= self.width || y >= self.height {
            return;
        }
        self.cells[y as usize][x as usize] = cell;
    }
}

/// Whether painting at `(x, y)` is allowed by the clip rect, if there is one.
pub open spec fn visible(clip: Option<LayoutRect>, x: int, y: int) -> bool {
    match clip {
        None => true,
        Some(c) => rect_contains(c, Point { x: x as i32, y: y as i32 }),
    }
}

/// The cell a paint operation leaves at `(x, y)`: what it writes there, if it writes
/// anything and the clip lets it through, else what was there before.
pub open spec fn painted(before: Cell, write: Option<Cell>, clip: Option<LayoutRect>, x: int, y: int) -> Cell {
    match write {
        Some(c) => if visible(clip, x, y) { c } else { before },
        None => before,
    }
}

/// `top` painted over `under`: the later write wins where there is one.
pub open spec fn over(under: Option<Cell>, top: Option<Cell>) -> Option<Cell> {
    match top {
        Some(c) => Some(c),
        None => under,
    }
}

/// Writes `cell` at `(x, y)` unless the clip rect (if any) excludes that point.
pub fn set_clipped(buffer: &mut Buffer, clip: Option<LayoutRect>, x: u32, y: u32, cell: Cell)
    requires
        old(buffer).wf(),
    ensures
        final(buffer).wf(),
        final(buffer).width == old(buffer).width,
        final(buffer).height == old(buffer).height,
        forall|i: int, j: int| #![trigger final(buffer).at(i, j)] final(buffer).in_bounds(i, j) ==> final(buffer).at(i, j) == if i == x && j == y
            && visible(clip, i, j) {
            cell
        } else {
            old(buffer).at(i, j)
        },
{
    let allowed = match clip {
        None => true,
        Some(c) => c.contains(Point::new(x as i32, y as i32)),
    };
    if allowed {
        buffer.set(x, y, cell);
    }
}

/// Like [`set_clipped`], for a point that may lie left of or above the grid (then nothing is
/// written).
pub fn set_clipped_unsure(buffer: &mut Buffer, clip: Option<LayoutRect>, point: Point, cell: Cell)
    requires
        old(buffer).wf(),
    ensures
        final(buffer).wf(),
        final(buffer).width == old(buffer).width,
        final(buffer).height == old(buffer).height,
        forall|i: int, j: int| #![trigger final(buffer).at(i, j)] final(buffer).in_bounds(i, j) ==> final(buffer).at(i, j) == if i == point.x && j
            == point.y && visible(clip, i, j) {
            cell
        } else {
            old(buffer).at(i, j)
        },
{
    if point.x >= 0 && point.y >= 0 {
        set_clipped(buffer, clip, point.x as u32, point.y as u32, cell);
    }
}

} // verus!

verus! {

pub open spec fn in_rect(r: LayoutRect, x: int, y: int) -> bool {
    r.first.x <= x < r.second.x && r.first.y <= y < r.second.y
}

/// The background write of a block: every cell of the rect.
pub open spec fn fill_write(r: LayoutRect, bg: Cell, x: int, y: int) -> Option<Cell> {
    if in_rect(r, x, y) { Some(bg) } else { None }
}

/// The top and bottom border rows (the bottom one drawn last).
pub open spec fn rows_write(r: LayoutRect, cs: BorderCharset, x: int, y: int) -> Option<Cell> {
    if r.first.x <= x < r.second.x {
        if y == r.second.y - 1 {
            Some(cs.bottom)
        } else if y == r.first.y {
            Some(cs.top)
        } else {
            None
        }
    } else {
        None
    }
}

/// The left and right border columns (the right one drawn last).
pub open spec fn columns_write(r: LayoutRect, cs: BorderCharset, x: int, y: int) -> Option<Cell> {
    if r.first.y <= y < r.second.y {
        if x == r.second.x - 1 {
            Some(cs.right)
        } else if x == r.first.x {
            Some(cs.left)
        } else {
            None
        }
    } else {
        None
    }
}

/// The four corners, drawn top-left, top-right, bottom-left, bottom-right.
pub open spec fn corners_write(r: LayoutRect, cs: BorderCharset, x: int, y: int) -> Option<Cell> {
    let (l, t, rt, b) = (r.first.x as int, r.first.y as int, r.second.x - 1, r.second.y - 1);
    if x == rt && y == b {
        Some(cs.bottom_right)
    } else if x == l && y == b {
        Some(cs.bottom_left)
    } else if x == rt && y == t {
        Some(cs.top_right)
    } else if x == l && y == t {
        Some(cs.top_left)
    } else {
        None
    }
}

/// What drawing a block writes at `(x, y)`: its background, overdrawn by the border rows,
/// then the border columns, then the corners.
pub open spec fn block_write(r: LayoutRect, border: Border, bg: Cell, x: int, y: int) -> Option<Cell> {
    match border.style {
        None => fill_write(r, bg, x, y),
        Some(cs) => over(
            over(over(fill_write(r, bg, x, y), rows_write(r, cs, x, y)), columns_write(r, cs, x, y)),
            corners_write(r, cs, x, y),
        ),
    }
}

/// The background cell of a block: a space on `bg`.
pub open spec fn background_cell(bg: Color) -> Cell {
    Cell(StyledContent {
        style: Style { foreground_color: None, background_color: Some(bg), underline_color: None, attributes: 0 },
        content: ' ',
    })
}

/// Paints a block: its background over the whole rect, then its border, if any. An empty rect
/// (both corners equal) paints nothing.
#[verifier::rlimit(40)]
pub fn draw_block(buffer: &mut Buffer, clip: Option<LayoutRect>, rect: LayoutRect, border: &Border, bg_color: Color)
    requires
        old(buffer).wf(),
        rect.first != rect.second ==> rect.second.x > i32::MIN && rect.second.y > i32::MIN,
    ensures
        final(buffer).wf(),
        final(buffer).width == old(buffer).width,
        final(buffer).height == old(buffer).height,
        forall|i: int, j: int| #![trigger final(buffer).at(i, j)] final(buffer).in_bounds(i, j) ==> final(buffer).at(i, j) == if rect.first == rect.second {
            old(buffer).at(i, j)
        } else {
            painted(old(buffer).at(i, j), block_write(rect, *border, background_cell(bg_color), i, j), clip, i, j)
        },
{
    if rect.first == rect.second {
        return;
    }
    let ghost b0 = *buffer;
    let bg = Cell::new(StyledContent::new(Style::new().with_background(bg_color), ' '));
    assert(bg == background_cell(bg_color));
    let mut x = rect.first.x;
    while x < rect.second.x
        invariant
            buffer.wf(),
            buffer.width == b0.width,
            buffer.height == b0.height,
            rect.first.x <= x,
            x <= rect.second.x || x == rect.first.x,
            forall|i: int, j: int| #![trigger buffer.at(i, j)] buffer.in_bounds(i, j) ==> buffer.at(i, j) == painted(
                b0.at(i, j),
                if rect.first.x <= i < x && rect.first.y <= j < rect.second.y { Some(bg) } else { None },
                clip,
                i,
                j,
            ),
        decreases rect.second.x - x,
    {
        let mut y = rect.first.y;
        while y < rect.second.y
            invariant
                buffer.wf(),
                buffer.width == b0.width,
                buffer.height == b0.height,
                rect.first.x <= x < rect.second.x,
                rect.first.y <= y,
                y <= rect.second.y || y == rect.first.y,
                forall|i: int, j: int| #![trigger buffer.at(i, j)] buffer.in_bounds(i, j) ==> buffer.at(i, j) == painted(
                    b0.at(i, j),
                    if (rect.first.x <= i < x && rect.first.y <= j < rect.second.y) || (i == x
                        && rect.first.y <= j < y) {
                        Some(bg)
                    } else {
                        None
                    },
                    clip,
                    i,
                    j,
                ),
            decreases rect.second.y - y,
        {
            set_clipped_unsure(buffer, clip, Point::new(x, y), bg);
            y += 1;
        }
        x += 1;
    }
    let charset = match border.style {
        None => {
            return;
        },
        Some(cs) => cs,
    };
    let left_x = rect.first.x;
    let top_y = rect.first.y;
    let right_x = rect.second.x - 1;
    let bottom_y = rect.second.y - 1;

    let mut x = rect.first.x;
    while x < rect.second.x
        invariant
            buffer.wf(),
            buffer.width == b0.width,
            buffer.height == b0.height,
            border.style == Some(charset),
            top_y == rect.first.y,
            bottom_y == rect.second.y - 1,
            rect.first.x <= x,
            x <= rect.second.x || x == rect.first.x,
            forall|i: int, j: int| #![trigger buffer.at(i, j)] buffer.in_bounds(i, j) ==> buffer.at(i, j) == painted(
                b0.at(i, j),
                over(
                    fill_write(rect, bg, i, j),
                    if i < x { rows_write(rect, charset, i, j) } else { None },
                ),
                clip,
                i,
                j,
            ),
        decreases rect.second.x - x,
    {
        set_clipped_unsure(buffer, clip, Point::new(x, top_y), charset.top);
        set_clipped_unsure(buffer, clip, Point::new(x, bottom_y), charset.bottom);
        x += 1;
    }

    let mut y = rect.first.y;
    while y < rect.second.y
        invariant
            buffer.wf(),
            buffer.width == b0.width,
            buffer.height == b0.height,
            border.style == Some(charset),
            left_x == rect.first.x,
            right_x == rect.second.x - 1,
            rect.first.y <= y,
            y <= rect.second.y || y == rect.first.y,
            forall|i: int, j: int| #![trigger buffer.at(i, j)] buffer.in_bounds(i, j) ==> buffer.at(i, j) == painted(
                b0.at(i, j),
                over(
                    over(fill_write(rect, bg, i, j), rows_write(rect, charset, i, j)),
                    if j < y { columns_write(rect, charset, i, j) } else { None },
                ),
                clip,
                i,
                j,
            ),
        decreases rect.second.y - y,
    {
        set_clipped_unsure(buffer, clip, Point::new(left_x, y), charset.left);
        set_clipped_unsure(buffer, clip, Point::new(right_x, y), charset.right);
        y += 1;
    }

    set_clipped_unsure(buffer, clip, rect.first, charset.top_left);
    set_clipped_unsure(buffer, clip, Point::new(right_x, rect.first.y), charset.top_right);
    set_clipped_unsure(buffer, clip, Point::new(rect.first.x, bottom_y), charset.bottom_left);
    set_clipped_unsure(buffer, clip, Point::new(right_x, bottom_y), charset.bottom_right);
}

} // verus!

verus! {

/// The cell a styled character is painted as.
pub open spec fn char_cell(sc: StyledChar) -> Cell {
    Cell(StyledContent { style: sc.style, content: sc.ch })
}

/// What painting the rows `rows` with their top-left at `origin` writes at `(x, y)`.
pub open spec fn rows_text_write(rows: Seq<Seq<StyledChar>>, origin: Point, x: int, y: int) -> Option<Cell> {
    let (r, c) = (y - origin.y, x - origin.x);
    if 0 <= r < rows.len() && 0 <= c < rows[r].len() {
        Some(char_cell(rows[r][c]))
    } else {
        None
    }
}

/// Every row is at most as long as the widest one.
pub proof fn lemma_widest_bounds(rows: Seq<Seq<StyledChar>>)
    ensures
        forall|i: int| 0 <= i < rows.len() ==> (#[trigger] rows[i]).len() <= widest(rows),
    decreases rows.len(),
{
    if rows.len() > 0 {
        lemma_widest_bounds(rows.drop_last());
        assert forall|i: int| 0 <= i < rows.len() implies (#[trigger] rows[i]).len() <= widest(rows) by {
            if i < rows.len() - 1 {
                assert(rows[i] == rows.drop_last()[i]);
            }
        }
    }
}

/// The rows a text node's content is painted as, in a rect of the given width.
pub open spec fn text_rows(rect: LayoutRect, chars: Seq<StyledChar>, wrap: TextWrap, fallback: Style) -> Seq<Seq<StyledChar>> {
    wrapped_text(wrap, chars, ((rect.second.x - rect.first.x) as usize) as nat, fallback)
}

/// Whether every painted position of `rows` at `origin` is representable.
pub open spec fn text_fits(rows: Seq<Seq<StyledChar>>, origin: Point) -> bool {
    &&& widest(rows) <= i32::MAX
    &&& rows.len() <= i32::MAX
    &&& origin.x + widest(rows) <= i32::MAX
    &&& origin.y + rows.len() <= i32::MAX
}

/// Paints a text node's content, wrapped to the width of `rect`, with its first row at the
/// rect's top-left.
pub fn draw_text(
    buffer: &mut Buffer,
    clip: Option<LayoutRect>,
    rect: &LayoutRect,
    chars: &Vec<StyledChar>,
    wrap: TextWrap,
    fallback_style: Style,
)
    requires
        old(buffer).wf(),
        i32::MIN <= rect.second.x - rect.first.x <= i32::MAX,
        text_fits(text_rows(*rect, chars@, wrap, fallback_style), rect.first),
    ensures
        final(buffer).wf(),
        final(buffer).width == old(buffer).width,
        final(buffer).height == old(buffer).height,
        forall|i: int, j: int| #![trigger final(buffer).at(i, j)] final(buffer).in_bounds(i, j) ==> final(buffer).at(i, j) == painted(
            old(buffer).at(i, j),
            rows_text_write(text_rows(*rect, chars@, wrap, fallback_style), rect.first, i, j),
            clip,
            i,
            j,
        ),
{
    let rows = wrap_styled(wrap, chars, (rect.second.x - rect.first.x) as usize, fallback_style);
    let ghost rs = rows@.map_values(|v: Vec<StyledChar>| v@);
    proof {
        lemma_widest_bounds(rs);
    }
    let ghost b0 = *buffer;
    let mut row: usize = 0;
    while row < rows.len()
        invariant
            buffer.wf(),
            buffer.width == b0.width,
            buffer.height == b0.height,
            rs == rows@.map_values(|v: Vec<StyledChar>| v@),
            rs == text_rows(*rect, chars@, wrap, fallback_style),
            text_fits(rs, rect.first),
            forall|k: int| 0 <= k < rs.len() ==> (#[trigger] rs[k]).len() <= widest(rs),
            row <= rows.len(),
            forall|i: int, j: int| #![trigger buffer.at(i, j)] buffer.in_bounds(i, j) ==> buffer.at(i, j) == painted(
                b0.at(i, j),
                if j - rect.first.y < row { rows_text_write(rs, rect.first, i, j) } else { None },
                clip,
                i,
                j,
            ),
        decreases rows.len() - row,
    {
        let line = &rows[row];
        assert(line@ == rs[row as int]);
        let mut col: usize = 0;
        while col < line.len()
            invariant
                buffer.wf(),
                buffer.width == b0.width,
                buffer.height == b0.height,
                rs == rows@.map_values(|v: Vec<StyledChar>| v@),
                line@ == rs[row as int],
                text_fits(rs, rect.first),
                line@.len() <= widest(rs),
                row < rows.len(),
                col <= line.len(),
                forall|i: int, j: int| #![trigger buffer.at(i, j)] buffer.in_bounds(i, j) ==> buffer.at(i, j) == painted(
                    b0.at(i, j),
                    if j - rect.first.y < row || (j - rect.first.y == row && i - rect.first.x < col) {
                        rows_text_write(rs, rect.first, i, j)
                    } else {
                        None
                    },
                    clip,
                    i,
                    j,
                ),
            decreases line.len() - col,
        {
            let sc = line[col];
            let p = Point::new(rect.first.x + col as i32, rect.first.y + row as i32);
            set_clipped_unsure(buffer, clip, p, Cell::new(StyledContent::new(sc.style, sc.ch)));
            col += 1;
        }
        row += 1;
    }
}

} // verus!

verus! {

/// A write to the terminal: `text` printed in `style`, starting at column `x` of row `y`.
#[derive(Clone, Debug, PartialEq, Eq)]
pub struct Run {
    pub x: usize,
    pub y: usize,
    pub style: Style,
    pub text: String,
}

/// A run as plain values.
pub struct RunView {
    pub x: int,
    pub y: int,
    pub style: Style,
    pub text: Seq<char>,
}

impl Run {
    pub open spec fn view(&self) -> RunView {
        RunView { x: self.x as int, y: self.y as int, style: self.style, text: self.text@ }
    }
}

/// Where a run that starts at `x` with `style` ends: the first later column whose cell is
/// unchanged or has another style (or the end of the row).
pub open spec fn run_end(o: Seq<Cell>, n: Seq<Cell>, x: int, style: Style) -> int
    decreases n.len() - x,
{
    if 0 <= x < n.len() && n[x] != o[x] && n[x].0.style == style {
        run_end(o, n, x + 1, style)
    } else {
        x
    }
}

/// The characters of cells `from..to` of `n`.
pub open spec fn contents(n: Seq<Cell>, from: int, to: int) -> Seq<char> {
    n.subrange(from, to).map_values(|c: Cell| c.0.content)
}

/// The runs that turn row `o` into row `n`, scanning from column `x`: unchanged cells are
/// skipped, and each maximal stretch of changed cells sharing one style becomes one run.
pub open spec fn row_runs(o: Seq<Cell>, n: Seq<Cell>, x: int, y: int) -> Seq<RunView>
    decreases n.len() - x,
{
    if x < 0 || x >= n.len() {
        Seq::empty()
    } else if n[x] == o[x] {
        row_runs(o, n, x + 1, y)
    } else {
        let style = n[x].0.style;
        let e = run_end(o, n, x, style);
        if e <= x || e > n.len() {
            Seq::empty()
        } else {
            seq![RunView { x, y, style, text: contents(n, x, e) }] + row_runs(o, n, e, y)
        }
    }
}

/// The runs for the first `rows` rows, row by row.
pub open spec fn grid_runs(o: Seq<Seq<Cell>>, n: Seq<Seq<Cell>>, rows: int) -> Seq<RunView>
    decreases rows,
{
    if rows <= 0 {
        Seq::empty()
    } else {
        grid_runs(o, n, rows - 1) + row_runs(o[rows - 1], n[rows - 1], 0, rows - 1)
    }
}

proof fn lemma_run_end_bounds(o: Seq<Cell>, n: Seq<Cell>, x: int, style: Style)
    requires
        0 <= x <= n.len(),
    ensures
        x <= run_end(o, n, x, style) <= n.len(),
        x < n.len() && n[x] != o[x] && n[x].0.style == style ==> run_end(o, n, x, style) > x,
    decreases n.len() - x,
{
    if 0 <= x < n.len() && n[x] != o[x] && n[x].0.style == style {
        lemma_run_end_bounds(o, n, x + 1, style);
    }
}

/// The writes that bring the terminal from frame `old` to frame `new`: only the cells that
/// differ, consecutive changed cells of one style in a row grouped into a single write.
pub fn diff_runs(old: &Buffer, new: &Buffer) -> (runs: Vec<Run>)
    requires
        old.wf(),
        new.wf(),
        old.width == new.width,
        old.height == new.height,
    ensures
        runs@.map_values(|r: Run| r.view()) == grid_runs(old.grid(), new.grid(), new.height as int),
{
    let mut runs: Vec<Run> = Vec::new();
    let h = new.cells.len();
    let mut y: usize = 0;
    while y < h
        invariant
            old.wf(),
            new.wf(),
            old.width == new.width,
            old.height == new.height,
            h == new.height,
            y <= h,
            runs@.map_values(|r: Run| r.view()) == grid_runs(old.grid(), new.grid(), y as int),
        decreases h - y,
    {
        let old_row = &old.cells[y];
        let new_row = &new.cells[y];
        let ghost (o, n) = (old_row@, new_row@);
        assert(o == old.grid()[y as int] && n == new.grid()[y as int]);
        let ghost before = runs@.map_values(|r: Run| r.view());
        let len = new_row.len();
        let mut x: usize = 0;
        while x < len
            invariant
                o == old_row@,
                n == new_row@,
                len == n.len(),
                o.len() == n.len(),
                x <= len,
                runs@.map_values(|r: Run| r.view()) + row_runs(o, n, x as int, y as int) == before
                    + row_runs(o, n, 0, y as int),
            decreases len - x,
        {
            if new_row[x] == old_row[x] {
                x += 1;
                continue;
            }
            let style = new_row[x].style();
            let start = x;
            let mut text = String::new();
            proof {
                lemma_run_end_bounds(o, n, start as int, style);
            }
            while x < len && new_row[x] != old_row[x] && new_row[x].style() == style
                invariant
                    o == old_row@,
                    n == new_row@,
                    len == n.len(),
                    o.len() == n.len(),
                    start <= x <= len,
                    run_end(o, n, x as int, style) == run_end(o, n, start as int, style),
                    text@ == contents(n, start as int, x as int),
                decreases len - x,
            {
                string_push(&mut text, new_row[x].content());
                assert(contents(n, start as int, x + 1) =~= contents(n, start as int, x as int).push(n[x as int].0.content));
                x += 1;
            }
            let ghost r = Run { x: start, y, style, text };
            runs.push(Run { x: start, y, style, text });
            assert(runs@.map_values(|r: Run| r.view()) =~= runs@.drop_last().map_values(|r: Run| r.view()).push(r.view()));
        }
        y += 1;
        assert(grid_runs(old.grid(), new.grid(), y as int) == before + row_runs(o, n, 0, (y - 1) as int));
    }
    runs
}

} // verus!

verus! {

/// Row `row` after the terminal prints run `r` on it (cells past the row's end are dropped).
pub open spec fn apply_run_row(row: Seq<Cell>, r: RunView) -> Seq<Cell> {
    Seq::new(
        row.len(),
        |x: int|
            if r.x <= x < r.x + r.text.len() {
                Cell(StyledContent { style: r.style, content: r.text[x - r.x] })
            } else {
                row[x]
            },
    )
}

/// Row `row` after the terminal prints the runs `rs`, in order.
pub open spec fn apply_row_runs(row: Seq<Cell>, rs: Seq<RunView>) -> Seq<Cell>
    decreases rs.len(),
{
    if rs.len() == 0 {
        row
    } else {
        apply_row_runs(apply_run_row(row, rs[0]), rs.drop_first())
    }
}

/// The grid after the terminal prints run `r`.
pub open spec fn apply_run(g: Seq<Seq<Cell>>, r: RunView) -> Seq<Seq<Cell>> {
    if 0 <= r.y < g.len() {
        g.update(r.y, apply_run_row(g[r.y], r))
    } else {
        g
    }
}

/// The grid after the terminal prints the runs `rs`, in order.
pub open spec fn apply_runs(g: Seq<Seq<Cell>>, rs: Seq<RunView>) -> Seq<Seq<Cell>>
    decreases rs.len(),
{
    if rs.len() == 0 {
        g
    } else {
        apply_runs(apply_run(g, rs[0]), rs.drop_first())
    }
}

proof fn lemma_run_end_cells(o: Seq<Cell>, n: Seq<Cell>, x: int, style: Style)
    requires
        0 <= x <= n.len(),
    ensures
        forall|k: int| x <= k < run_end(o, n, x, style) ==> n[k].0.style == style && #[trigger] n[k] != o[k],
    decreases n.len() - x,
{
    if 0 <= x < n.len() && n[x] != o[x] && n[x].0.style == style {
        lemma_run_end_cells(o, n, x + 1, style);
    }
}

proof fn lemma_row_runs_apply(o: Seq<Cell>, n: Seq<Cell>, cur: Seq<Cell>, x: int, y: int)
    requires
        o.len() == n.len(),
        cur.len() == n.len(),
        0 <= x <= n.len(),
        forall|k: int| 0 <= k < x ==> cur[k] == n[k],
        forall|k: int| x <= k < n.len() ==> cur[k] == o[k],
    ensures
        apply_row_runs(cur, row_runs(o, n, x, y)) == n,
        forall|i: int| 0 <= i < row_runs(o, n, x, y).len() ==> (#[trigger] row_runs(o, n, x, y)[i]).y == y,
    decreases n.len() - x,
{
    if x >= n.len() {
        assert(cur =~= n);
    } else if n[x] == o[x] {
        lemma_row_runs_apply(o, n, cur, x + 1, y);
    } else {
        let style = n[x].0.style;
        let e = run_end(o, n, x, style);
        lemma_run_end_bounds(o, n, x, style);
        lemma_run_end_cells(o, n, x, style);
        let r = RunView { x, y, style, text: contents(n, x, e) };
        let rs = row_runs(o, n, x, y);
        assert(rs == seq![r] + row_runs(o, n, e, y));
        assert(rs[0] == r);
        assert(rs.drop_first() =~= row_runs(o, n, e, y));
        let next = apply_run_row(cur, r);
        assert forall|k: int| 0 <= k < e implies next[k] == n[k] by {
            if x <= k {
                assert(n[k].0.style == style && n[k] != o[k]);
            }
        }
        lemma_row_runs_apply(o, n, next, e, y);
        let rest = row_runs(o, n, e, y);
        assert forall|i: int| 0 <= i < rs.len() implies (#[trigger] rs[i]).y == y by {
            if i > 0 {
                assert(rs[i] == rest[i - 1]);
            }
        }
    }
}

proof fn lemma_apply_runs_one_row(g: Seq<Seq<Cell>>, rs: Seq<RunView>, y: int)
    requires
        0 <= y < g.len(),
        forall|i: int| 0 <= i < rs.len() ==> (#[trigger] rs[i]).y == y,
    ensures
        apply_runs(g, rs) == g.update(y, apply_row_runs(g[y], rs)),
    decreases rs.len(),
{
    if rs.len() == 0 {
        assert(g.update(y, g[y]) =~= g);
    } else {
        let g1 = apply_run(g, rs[0]);
        assert forall|i: int| 0 <= i < rs.drop_first().len() implies (#[trigger] rs.drop_first()[i]).y == y by {
            assert(rs.drop_first()[i] == rs[i + 1]);
        }
        lemma_apply_runs_one_row(g1, rs.drop_first(), y);
        assert(g1.update(y, apply_row_runs(g1[y], rs.drop_first())) =~= g.update(y, apply_row_runs(g[y], rs)));
    }
}

proof fn lemma_apply_runs_concat(g: Seq<Seq<Cell>>, a: Seq<RunView>, b: Seq<RunView>)
    ensures
        apply_runs(g, a + b) == apply_runs(apply_runs(g, a), b),
    decreases a.len(),
{
    if a.len() == 0 {
        assert(a + b =~= b);
    } else {
        assert((a + b)[0] == a[0]);
        assert((a + b).drop_first() =~= a.drop_first() + b);
        lemma_apply_runs_concat(apply_run(g, a[0]), a.drop_first(), b);
    }
}

/// Printing the runs for the first `rows` rows, in order, over the old frame makes those rows
/// equal to the new frame and leaves the other rows as they were.
pub proof fn lemma_diff_runs_repaint(o: Seq<Seq<Cell>>, n: Seq<Seq<Cell>>, rows: int)
    requires
        0 <= rows <= n.len(),
        o.len() == n.len(),
        forall|y: int| 0 <= y < n.len() ==> (#[trigger] o[y]).len() == n[y].len(),
    ensures
        apply_runs(o, grid_runs(o, n, rows)) == n.take(rows) + o.skip(rows),
    decreases rows,
{
    if rows == 0 {
        assert(o.skip(0) =~= o);
        assert(n.take(0) + o =~= o);
    } else {
        lemma_diff_runs_repaint(o, n, rows - 1);
        let y = rows - 1;
        let g = n.take(y) + o.skip(y);
        let rr = row_runs(o[y], n[y], 0, y);
        lemma_apply_runs_concat(o, grid_runs(o, n, y), rr);
        lemma_row_runs_apply(o[y], n[y], g[y], 0, y);
        lemma_apply_runs_one_row(g, rr, y);
        assert(g.update(y, n[y]) =~= n.take(rows) + o.skip(rows));
    }
}

/// The whole-frame form: printing the runs turns the old frame into the new one.
pub proof fn lemma_diff_runs_full(old: Buffer, new: Buffer)
    requires
        old.wf(),
        new.wf(),
        old.width == new.width,
        old.height == new.height,
    ensures
        apply_runs(old.grid(), grid_runs(old.grid(), new.grid(), new.height as int)) == new.grid(),
{
    let (o, n) = (old.grid(), new.grid());
    assert forall|y: int| 0 <= y < n.len() implies (#[trigger] o[y]).len() == n[y].len() by {
        assert(o[y] == old.cells@[y]@);
        assert(n[y] == new.cells@[y]@);
    }
    lemma_diff_runs_repaint(o, n, n.len() as int);
    assert(n.take(n.len() as int) + o.skip(n.len() as int) =~= n);
}

} // verus!

verus! {

/// Every run of a row covers only cells that changed, all of them in the run's style, and
/// spells out exactly the new characters there.
pub proof fn lemma_row_runs_only_changed(o: Seq<Cell>, n: Seq<Cell>, x: int, y: int)
    requires
        o.len() == n.len(),
        0 <= x <= n.len(),
    ensures
        forall|i: int, k: int|
            #![trigger row_runs(o, n, x, y)[i], n[k]]
            0 <= i < row_runs(o, n, x, y).len() && row_runs(o, n, x, y)[i].x <= k < row_runs(o, n, x, y)[i].x
                + row_runs(o, n, x, y)[i].text.len() ==> {
                &&& 0 <= k < n.len()
                &&& n[k] != o[k]
                &&& n[k].0.style == row_runs(o, n, x, y)[i].style
                &&& n[k].0.content == row_runs(o, n, x, y)[i].text[k - row_runs(o, n, x, y)[i].x]
            },
    decreases n.len() - x,
{
    if x >= n.len() {
    } else if n[x] == o[x] {
        lemma_row_runs_only_changed(o, n, x + 1, y);
    } else {
        let style = n[x].0.style;
        let e = run_end(o, n, x, style);
        lemma_run_end_bounds(o, n, x, style);
        lemma_run_end_cells(o, n, x, style);
        lemma_row_runs_only_changed(o, n, e, y);
        let rs = row_runs(o, n, x, y);
        let rest = row_runs(o, n, e, y);
        assert forall|i: int, k: int|
            #![trigger rs[i], n[k]]
            0 <= i < rs.len() && rs[i].x <= k < rs[i].x + rs[i].text.len() implies {
                &&& 0 <= k < n.len()
                &&& n[k] != o[k]
                &&& n[k].0.style == rs[i].style
                &&& n[k].0.content == rs[i].text[k - rs[i].x]
            } by {
            if i > 0 {
                assert(rs[i] == rest[i - 1]);
            } else {
                assert(n[k] != o[k]);
            }
        }
    }
}

} // verus!

verus! {

proof fn lemma_row_runs_same(r: Seq<Cell>, x: int, y: int)
    ensures
        row_runs(r, r, x, y) == Seq::<RunView>::empty(),
    decreases r.len() - x,
{
    if 0 <= x < r.len() {
        lemma_row_runs_same(r, x + 1, y);
    }
}

/// A frame identical to the last one needs no writes at all.
pub proof fn lemma_no_runs_for_same_frame(g: Seq<Seq<Cell>>, rows: int)
    ensures
        grid_runs(g, g, rows) == Seq::<RunView>::empty(),
    decreases rows,
{
    if rows > 0 {
        lemma_no_runs_for_same_frame(g, rows - 1);
        lemma_row_runs_same(g[rows - 1], 0, rows - 1);
        assert(Seq::<RunView>::empty() + Seq::<RunView>::empty() =~= Seq::<RunView>::empty());
    }
}

} // verus!
