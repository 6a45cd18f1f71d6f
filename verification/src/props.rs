use vstd::prelude::*;
use crate::style::{Cell, Style, StyledContent};
use crate::style::unstyled_cell;

verus! {

/// A box edge, with the same variants as the layout engine's edge type.
#[derive(PartialEq, Eq, Structural, Clone, Copy, Debug)]
pub enum Edge {
    Left,
    Top,
    Right,
    Bottom,
    Start,
    End,
    Horizontal,
    Vertical,
    All,
}

/// One value for each of the four sides of a box.
#[derive(PartialEq, Eq, Structural, Clone, Copy, Debug)]
pub struct Sides<T> {
    pub left: T,
    pub right: T,
    pub top: T,
    pub bottom: T,
}

/// The sides turned a quarter turn clockwise: what was on the left is now on top.
pub open spec fn rotated_90<T>(s: Sides<T>) -> Sides<T> {
    Sides { left: s.bottom, top: s.left, right: s.top, bottom: s.right }
}

/// The value for `edge`, for the four physical edges; `None` for the others.
pub open spec fn edge_value<T>(s: Sides<T>, edge: Edge) -> Option<T> {
    match edge {
        Edge::Left => Some(s.left),
        Edge::Right => Some(s.right),
        Edge::Top => Some(s.top),
        Edge::Bottom => Some(s.bottom),
        _ => None,
    }
}

impl<T: Copy> Sides<T> {
    pub fn new(left: T, right: T, top: T, bottom: T) -> (s: Sides<T>)
        ensures
            s == (Sides { left, right, top, bottom }),
    {
        Sides { left, right, top, bottom }
    }

    /// These sides with `top` replaced.
    pub fn top(self, top: T) -> (s: Sides<T>)
        ensures
            s == (Sides { top, ..self }),
    {
        Sides { top, ..self }
    }

    /// These sides with `bottom` replaced.
    pub fn bottom(self, bottom: T) -> (s: Sides<T>)
        ensures
            s == (Sides { bottom, ..self }),
    {
        Sides { bottom, ..self }
    }

    /// These sides with `left` replaced.
    pub fn left(self, left: T) -> (s: Sides<T>)
        ensures
            s == (Sides { left, ..self }),
    {
        Sides { left, ..self }
    }

    /// These sides with `right` replaced.
    pub fn right(self, right: T) -> (s: Sides<T>)
        ensures
            s == (Sides { right, ..self }),
    {
        Sides { right, ..self }
    }

    /// The same value on all four sides.
    pub fn all(all: T) -> (s: Sides<T>)
        ensures
            s == (Sides { left: all, right: all, top: all, bottom: all }),
    {
        Self::new(all, all, all, all)
    }

    /// The value for a physical edge (`Left`, `Right`, `Top`, `Bottom`); `None` for the others.
    pub fn get_edge(&self, edge: Edge) -> (v: Option<T>)
        ensures
            v == edge_value(*self, edge),
    {
        match edge {
            Edge::Left => Some(self.left),
            Edge::Right => Some(self.right),
            Edge::Top => Some(self.top),
            Edge::Bottom => Some(self.bottom),
            _ => None,
        }
    }

    /// The edge paired with its value, for a physical edge; `None` for the others.
    pub fn get_pair(&self, edge: Edge) -> (p: Option<(Edge, T)>)
        ensures
            p == (match edge_value(*self, edge) {
                Some(v) => Some((edge, v)),
                None => None,
            }),
    {
        match self.get_edge(edge) {
            Some(value) => Some((edge, value)),
            None => None,
        }
    }

    /// The four physical edges with their values, in the order left, right, top, bottom.
    pub fn iterate(&self) -> (a: [(Edge, T); 4])
        ensures
            a@ == seq![
                (Edge::Left, self.left),
                (Edge::Right, self.right),
                (Edge::Top, self.top),
                (Edge::Bottom, self.bottom),
            ],
    {
        let a = [
            (Edge::Left, self.left),
            (Edge::Right, self.right),
            (Edge::Top, self.top),
            (Edge::Bottom, self.bottom),
        ];
        assert(a@ =~= seq![
            (Edge::Left, self.left),
            (Edge::Right, self.right),
            (Edge::Top, self.top),
            (Edge::Bottom, self.bottom),
        ]);
        a
    }

    /// A quarter turn clockwise.
    pub fn rotate_90(&self) -> (s: Sides<T>)
        ensures
            s == rotated_90(*self),
    {
        Sides { left: self.bottom, top: self.left, right: self.top, bottom: self.right }
    }

    /// A half turn.
    pub fn rotate_180(&self) -> (s: Sides<T>)
        ensures
            s == rotated_90(rotated_90(*self)),
    {
        self.rotate_90().rotate_90()
    }

    /// Three quarter turns clockwise.
    pub fn rotate_270(&self) -> (s: Sides<T>)
        ensures
            s == rotated_90(rotated_90(rotated_90(*self))),
    {
        self.rotate_180().rotate_90()
    }
}

/// Four quarter turns bring the sides back to where they started.
pub proof fn lemma_rotate_full_turn<T>(s: Sides<T>)
    ensures
        rotated_90(rotated_90(rotated_90(rotated_90(s)))) == s,
{
}

/// A half turn swaps opposite sides.
pub proof fn lemma_rotate_half_turn<T>(s: Sides<T>)
    ensures
        rotated_90(rotated_90(s)) == (Sides { left: s.right, right: s.left, top: s.bottom, bottom: s.top }),
{
}

/// A three-quarter turn undoes a quarter turn, in either order.
pub proof fn lemma_rotate_270_inverts_90<T>(s: Sides<T>)
    ensures
        rotated_90(rotated_90(rotated_90(rotated_90(s)))) == s,
        rotated_90(rotated_90(rotated_90(s))) == (Sides { left: s.top, top: s.right, right: s.bottom, bottom: s.left }),
{
}

/// A pair of values, one per axis.
#[derive(PartialEq, Eq, Structural, Clone, Copy, Debug)]
pub struct XYProps<T> {
    pub x: T,
    pub y: T,
}

impl<T: Default + Clone> XYProps<T> {
    pub fn new(row: T, column: T) -> (p: XYProps<T>)
        ensures
            p == (XYProps { x: row, y: column }),
    {
        XYProps { x: row, y: column }
    }

    /// `row` on the x axis, the type's default on the y axis.
    pub fn x(row: T) -> (p: XYProps<T>)
        ensures
            p.x == row,
            call_ensures(T::default, (), p.y),
    {
        Self::new(row, T::default())
    }

    /// `col` on the y axis, the type's default on the x axis.
    pub fn y(col: T) -> (p: XYProps<T>)
        ensures
            p.y == col,
            call_ensures(T::default, (), p.x),
    {
        Self::new(T::default(), col)
    }

    /// The same value on both axes (the x value is a clone of it).
    pub fn both(both: T) -> (p: XYProps<T>)
        ensures
            p.y == both,
            cloned(both, p.x),
    {
        Self::new(both.clone(), both)
    }
}

/// How content that overflows a box is treated, with the layout engine's variants.
#[derive(PartialEq, Eq, Structural, Clone, Copy, Debug)]
pub enum Overflow {
    Visible,
    Hidden,
    Scroll,
}

/// Whether content outside a box with this overflow is clipped when painting.
pub open spec fn overflow_clips(o: Overflow) -> bool {
    o != Overflow::Visible
}

impl Overflow {
    pub fn new(value: Overflow) -> (o: Overflow)
        ensures
            o == value,
    {
        value
    }

    /// Whether content outside this box should be clipped at paint time rather than left
    /// visible.
    pub fn clips(&self) -> (b: bool)
        ensures
            b == overflow_clips(*self),
    {
        match self {
            Overflow::Visible => false,
            _ => true,
        }
    }
}

impl Default for Overflow {
    fn default() -> (o: Overflow)
        ensures
            o == Overflow::Visible,
    {
        Overflow::Visible
    }
}

/// The single overflow the layout engine gets: the x value wins unless it leaves content
/// visible.
pub open spec fn effective_overflow(p: XYProps<Overflow>) -> Overflow {
    if overflow_clips(p.x) { p.x } else { p.y }
}

impl XYProps<Overflow> {
    /// The layout engine has a single overflow axis; the `x` value wins unless it's left at the
    /// default.
    pub fn effective(&self) -> (o: Overflow)
        ensures
            o == effective_overflow(*self),
    {
        if self.x.clips() { self.x } else { self.y }
    }
}

/// A length in the layout engine's units. The number in `Point` and `Percent` is carried as the
/// bit pattern of a 32-bit float; nothing here computes with it.
#[derive(PartialEq, Eq, Structural, Clone, Copy, Debug)]
pub enum SizeUnit {
    UndefinedValue,
    Point(u32),
    Percent(u32),
    Auto,
}

impl Default for SizeUnit {
    fn default() -> (s: SizeUnit)
        ensures
            s == SizeUnit::UndefinedValue,
    {
        SizeUnit::UndefinedValue
    }
}

/// A size with a lower and an upper bound.
#[derive(PartialEq, Eq, Structural, Clone, Copy, Debug)]
pub struct SizeClamp {
    pub min: SizeUnit,
    pub value: SizeUnit,
    pub max: SizeUnit,
}

impl SizeClamp {
    pub fn new(min: SizeUnit, value: SizeUnit, max: SizeUnit) -> (c: SizeClamp)
        ensures
            c == (SizeClamp { min, value, max }),
    {
        SizeClamp { min, value, max }
    }
}

impl Default for SizeClamp {
    fn default() -> (c: SizeClamp)
        ensures
            c == (SizeClamp {
                min: SizeUnit::UndefinedValue,
                value: SizeUnit::UndefinedValue,
                max: SizeUnit::UndefinedValue,
            }),
    {
        SizeClamp::new(SizeUnit::UndefinedValue, SizeUnit::UndefinedValue, SizeUnit::UndefinedValue)
    }
}

/// The main axis of a flex container, with the layout engine's variants.
#[derive(PartialEq, Eq, Structural, Clone, Copy, Debug)]
pub enum FlexDirection {
    Column,
    ColumnReverse,
    Row,
    RowReverse,
}

/// Whether flex items wrap onto more lines, with the layout engine's variants.
#[derive(PartialEq, Eq, Structural, Clone, Copy, Debug)]
pub enum FlexWrap {
    NoWrap,
    Wrap,
    WrapReverse,
}

/// The flex properties of a box.
#[derive(PartialEq, Eq, Structural, Clone, Copy, Debug)]
pub struct Flex {
    pub grow: usize,
    pub shrink: usize,
    pub basis: SizeUnit,
    pub wrap: FlexWrap,
    pub direction: FlexDirection,
}

impl Flex {
    pub fn new(
        grow: usize,
        shrink: usize,
        basis: SizeUnit,
        wrap: FlexWrap,
        direction: FlexDirection,
    ) -> (f: Flex)
        ensures
            f == (Flex { grow, shrink, basis, wrap, direction }),
    {
        Flex { grow, shrink, basis, wrap, direction }
    }
}

impl Default for Flex {
    fn default() -> (f: Flex)
        ensures
            f == (Flex {
                grow: 0,
                shrink: 0,
                basis: SizeUnit::UndefinedValue,
                wrap: FlexWrap::NoWrap,
                direction: FlexDirection::Column,
            }),
    {
        Flex::new(0, 0, SizeUnit::UndefinedValue, FlexWrap::NoWrap, FlexDirection::Column)
    }
}

/// How a box is positioned, with the offsets of each side for the relative and absolute cases.
#[derive(PartialEq, Eq, Structural, Clone, Copy, Debug)]
pub enum Position {
    Relative(Sides<SizeUnit>),
    Absolute(Sides<SizeUnit>),
    Static,
}

impl Default for Position {
    fn default() -> (p: Position)
        ensures
            p == Position::Relative(Sides {
                left: SizeUnit::UndefinedValue,
                right: SizeUnit::UndefinedValue,
                top: SizeUnit::UndefinedValue,
                bottom: SizeUnit::UndefinedValue,
            }),
    {
        Position::Relative(Sides::all(SizeUnit::UndefinedValue))
    }
}

/// Cross-axis alignment of flex items.
#[derive(PartialEq, Eq, Structural, Clone, Copy, Debug)]
pub enum AlignItem {
    FlexStart,
    Center,
    FlexEnd,
    Stretch,
    Baseline,
}

impl Default for AlignItem {
    fn default() -> (a: AlignItem)
        ensures
            a == AlignItem::Stretch,
    {
        AlignItem::Stretch
    }
}

/// The box-drawing glyphs of a border, one cell per position.
#[derive(PartialEq, Eq, Structural, Clone, Copy, Debug)]
pub struct BorderCharset {
    pub top_left: Cell,
    pub top: Cell,
    pub top_right: Cell,
    pub left: Cell,
    pub right: Cell,
    pub bottom_left: Cell,
    pub bottom: Cell,
    pub bottom_right: Cell,
}

/// The charset made of these eight unstyled glyphs.
pub open spec fn charset_of(
    top_left: char,
    top: char,
    top_right: char,
    right: char,
    bottom_right: char,
    bottom: char,
    bottom_left: char,
    left: char,
) -> BorderCharset {
    BorderCharset {
        top_left: unstyled_cell(top_left),
        top: unstyled_cell(top),
        top_right: unstyled_cell(top_right),
        right: unstyled_cell(right),
        bottom_right: unstyled_cell(bottom_right),
        bottom: unstyled_cell(bottom),
        bottom_left: unstyled_cell(bottom_left),
        left: unstyled_cell(left),
    }
}

fn make_charset(
    top_left: char,
    top: char,
    top_right: char,
    right: char,
    bottom_right: char,
    bottom: char,
    bottom_left: char,
    left: char,
) -> (c: BorderCharset)
    ensures
        c == charset_of(top_left, top, top_right, right, bottom_right, bottom, bottom_left, left),
{
    BorderCharset {
        top_left: Cell::from_char(top_left),
        top: Cell::from_char(top),
        top_right: Cell::from_char(top_right),
        right: Cell::from_char(right),
        bottom_right: Cell::from_char(bottom_right),
        bottom: Cell::from_char(bottom),
        bottom_left: Cell::from_char(bottom_left),
        left: Cell::from_char(left),
    }
}

impl BorderCharset {
    pub fn single() -> (c: BorderCharset)
        ensures
            c == charset_of('┌', '─', '┐', '│', '┘', '─', '└', '│'),
    {
        make_charset('┌', '─', '┐', '│', '┘', '─', '└', '│')
    }

    pub fn double() -> (c: BorderCharset)
        ensures
            c == charset_of('╔', '═', '╗', '║', '╝', '═', '╚', '║'),
    {
        make_charset('╔', '═', '╗', '║', '╝', '═', '╚', '║')
    }

    pub fn round() -> (c: BorderCharset)
        ensures
            c == charset_of('╭', '─', '╮', '│', '╯', '─', '╰', '│'),
    {
        make_charset('╭', '─', '╮', '│', '╯', '─', '╰', '│')
    }

    pub fn bold() -> (c: BorderCharset)
        ensures
            c == charset_of('┏', '━', '┓', '┃', '┛', '━', '┗', '┃'),
    {
        make_charset('┏', '━', '┓', '┃', '┛', '━', '┗', '┃')
    }

    pub fn single_double() -> (c: BorderCharset)
        ensures
            c == charset_of('╓', '─', '╖', '║', '╜', '─', '╙', '║'),
    {
        make_charset('╓', '─', '╖', '║', '╜', '─', '╙', '║')
    }

    pub fn double_single() -> (c: BorderCharset)
        ensures
            c == charset_of('╒', '═', '╕', '│', '╛', '═', '╘', '│'),
    {
        make_charset('╒', '═', '╕', '│', '╛', '═', '╘', '│')
    }

    pub fn classic() -> (c: BorderCharset)
        ensures
            c == charset_of('+', '-', '+', '|', '+', '-', '+', '|'),
    {
        make_charset('+', '-', '+', '|', '+', '-', '+', '|')
    }
}

impl Default for BorderCharset {
    fn default() -> (c: BorderCharset)
        ensures
            c == charset_of(' ', ' ', ' ', ' ', ' ', ' ', ' ', ' '),
    {
        make_charset(' ', ' ', ' ', ' ', ' ', ' ', ' ', ' ')
    }
}

/// A border around a box; `None` draws no border and reserves no space.
#[derive(PartialEq, Eq, Structural, Clone, Copy, Debug)]
pub struct Border {
    pub style: Option<BorderCharset>,
}

/// The number of cells a border takes on each side.
pub open spec fn border_inset(b: Border) -> i32 {
    if b.style is None { 0 } else { 1 }
}

impl Border {
    pub fn new(style: Option<BorderCharset>) -> (b: Border)
        ensures
            b.style == style,
    {
        Border { style }
    }

    /// The number of cells the border takes on each side: 0 without a border, 1 with one.
    pub fn get_inset(&self) -> (i: i32)
        ensures
            i == border_inset(*self),
    {
        if self.style.is_none() { 0 } else { 1 }
    }
}

impl Default for Border {
    fn default() -> (b: Border)
        ensures
            b.style is None,
    {
        Border { style: None }
    }
}

/// `c` painted in `style`.
pub open spec fn restyled(c: Cell, style: Style) -> Cell {
    Cell(StyledContent { style, content: c.0.content })
}

/// Every glyph of `c` painted in `style`.
pub open spec fn recolored(c: BorderCharset, style: Style) -> BorderCharset {
    BorderCharset {
        top_left: restyled(c.top_left, style),
        top: restyled(c.top, style),
        top_right: restyled(c.top_right, style),
        left: restyled(c.left, style),
        right: restyled(c.right, style),
        bottom_left: restyled(c.bottom_left, style),
        bottom: restyled(c.bottom, style),
        bottom_right: restyled(c.bottom_right, style),
    }
}

fn restyle(c: Cell, style: Style) -> (r: Cell)
    ensures
        r == restyled(c, style),
{
    Cell::new(StyledContent::new(style, c.content()))
}

/// The charset with every glyph painted in `style`; unchanged when there is no style.
pub fn recolor_border(charset: BorderCharset, style: Option<Style>) -> (r: BorderCharset)
    ensures
        r == (match style {
            None => charset,
            Some(s) => recolored(charset, s),
        }),
{
    match style {
        None => charset,
        Some(style) => BorderCharset {
            top_left: restyle(charset.top_left, style),
            top: restyle(charset.top, style),
            top_right: restyle(charset.top_right, style),
            left: restyle(charset.left, style),
            right: restyle(charset.right, style),
            bottom_left: restyle(charset.bottom_left, style),
            bottom: restyle(charset.bottom, style),
            bottom_right: restyle(charset.bottom_right, style),
        },
    }
}

/// Recoloring keeps every glyph and changes only the style; recoloring twice keeps the last
/// style.
pub proof fn lemma_recolor_keeps_glyphs(c: BorderCharset, s1: Style, s2: Style)
    ensures
        recolored(c, s1).top_left.0.content == c.top_left.0.content,
        recolored(c, s1).top.0.content == c.top.0.content,
        recolored(c, s1).top_right.0.content == c.top_right.0.content,
        recolored(c, s1).left.0.content == c.left.0.content,
        recolored(c, s1).right.0.content == c.right.0.content,
        recolored(c, s1).bottom_left.0.content == c.bottom_left.0.content,
        recolored(c, s1).bottom.0.content == c.bottom.0.content,
        recolored(c, s1).bottom_right.0.content == c.bottom_right.0.content,
        recolored(recolored(c, s1), s2) == recolored(c, s2),
{
}

} // verus!
