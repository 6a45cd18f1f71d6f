use vstd::prelude::*;

verus! {

/// A terminal color, with the same variants as the terminal backend's color type.
#[derive(PartialEq, Eq, Structural, Clone, Copy, Debug)]
pub enum Color {
    Reset,
    Black,
    DarkGrey,
    Red,
    DarkRed,
    Green,
    DarkGreen,
    Yellow,
    DarkYellow,
    Blue,
    DarkBlue,
    Magenta,
    DarkMagenta,
    Cyan,
    DarkCyan,
    White,
    Grey,
    Rgb { r: u8, g: u8, b: u8 },
    AnsiValue(u8),
}

/// The style of a run of text: optional colors and a bit set of attributes (bold, italic, ...).
/// `attributes` holds one bit per attribute, in the terminal backend's own bit order.
#[derive(PartialEq, Eq, Structural, Clone, Copy, Debug)]
pub struct Style {
    pub foreground_color: Option<Color>,
    pub background_color: Option<Color>,
    pub underline_color: Option<Color>,
    pub attributes: u32,
}

/// The style with no colors and no attributes.
pub open spec fn plain_style() -> Style {
    Style { foreground_color: None, background_color: None, underline_color: None, attributes: 0 }
}

pub open spec fn or_color(child: Option<Color>, parent: Option<Color>) -> Option<Color> {
    match child {
        Some(c) => Some(c),
        None => parent,
    }
}

/// A nested span's style merged onto its ancestor's: colors set on the span win, unset ones
/// fall back to the ancestor's, and the attributes of both apply together.
pub open spec fn merged(parent: Style, child: Style) -> Style {
    Style {
        foreground_color: or_color(child.foreground_color, parent.foreground_color),
        background_color: or_color(child.background_color, parent.background_color),
        underline_color: or_color(child.underline_color, parent.underline_color),
        attributes: parent.attributes | child.attributes,
    }
}

impl Style {
    /// The plain style: no colors, no attributes.
    pub fn new() -> (s: Style)
        ensures
            s == plain_style(),
    {
        Style { foreground_color: None, background_color: None, underline_color: None, attributes: 0 }
    }

    /// This style with `color` as its background.
    pub fn with_background(self, color: Color) -> (s: Style)
        ensures
            s == (Style { background_color: Some(color), ..self }),
    {
        Style { background_color: Some(color), ..self }
    }

    /// This style with `color` as its foreground.
    pub fn with_foreground(self, color: Color) -> (s: Style)
        ensures
            s == (Style { foreground_color: Some(color), ..self }),
    {
        Style { foreground_color: Some(color), ..self }
    }

    /// This style with the reverse-video attribute added (bit 8 of the attribute set).
    pub fn reverse(self) -> (s: Style)
        ensures
            s == (Style { attributes: self.attributes | 256, ..self }),
    {
        Style { attributes: self.attributes | 256, ..self }
    }
}

impl Default for Style {
    fn default() -> (s: Style)
        ensures
            s == plain_style(),
    {
        Style::new()
    }
}

fn or_color_exec(child: Option<Color>, parent: Option<Color>) -> (c: Option<Color>)
    ensures
        c == or_color(child, parent),
{
    match child {
        Some(c) => Some(c),
        None => parent,
    }
}

/// Merges a nested span's own `style` onto its ancestor's.
pub fn merge_style(parent: Style, child: Style) -> (s: Style)
    ensures
        s == merged(parent, child),
{
    Style {
        foreground_color: or_color_exec(child.foreground_color, parent.foreground_color),
        background_color: or_color_exec(child.background_color, parent.background_color),
        underline_color: or_color_exec(child.underline_color, parent.underline_color),
        attributes: parent.attributes | child.attributes,
    }
}

/// Merging a span that sets nothing leaves the ancestor's style as it is.
pub proof fn lemma_merge_plain_right(s: Style)
    ensures
        merged(s, plain_style()) == s,
{
    let a = s.attributes;
    assert(a | 0u32 == a) by (bit_vector);
}

/// Merging onto a plain ancestor gives the span's own style.
pub proof fn lemma_merge_plain_left(s: Style)
    ensures
        merged(plain_style(), s) == s,
{
    let a = s.attributes;
    assert(0u32 | a == a) by (bit_vector);
}

/// Nesting spans three deep merges the same way however the merges are grouped.
pub proof fn lemma_merge_associative(a: Style, b: Style, c: Style)
    ensures
        merged(merged(a, b), c) == merged(a, merged(b, c)),
{
    let (x, y, z) = (a.attributes, b.attributes, c.attributes);
    assert((x | y) | z == x | (y | z)) by (bit_vector);
}

/// A character together with the style it is painted in.
#[derive(PartialEq, Eq, Structural, Clone, Copy, Debug)]
pub struct StyledContent {
    pub style: Style,
    pub content: char,
}

impl StyledContent {
    pub fn new(style: Style, content: char) -> (s: StyledContent)
        ensures
            s.style == style,
            s.content == content,
    {
        StyledContent { style, content }
    }
}

/// One terminal cell's intended contents. Frames are compared cell by cell so that painting
/// only writes the cells that changed.
#[derive(PartialEq, Eq, Structural, Clone, Copy, Debug)]
pub struct Cell(pub StyledContent);

/// The blank cell: a space in the plain style.
pub open spec fn blank_cell() -> Cell {
    Cell(StyledContent { style: plain_style(), content: ' ' })
}

/// An unstyled cell showing `ch`.
pub open spec fn unstyled_cell(ch: char) -> Cell {
    Cell(StyledContent { style: plain_style(), content: ch })
}

impl Cell {
    pub fn new(content: StyledContent) -> (c: Cell)
        ensures
            c.0 == content,
    {
        Cell(content)
    }

    /// `ch` in the plain style.
    pub fn unstyled(ch: char) -> (c: Cell)
        ensures
            c == unstyled_cell(ch),
    {
        Cell::new(StyledContent::new(Style::new(), ch))
    }

    /// The character shown in this cell.
    pub fn content(&self) -> (ch: char)
        ensures
            ch == self.0.content,
    {
        self.0.content
    }

    /// The style this cell is painted in.
    pub fn style(&self) -> (s: Style)
        ensures
            s == self.0.style,
    {
        self.0.style
    }

    /// The same conversion as `From<char>`: an unstyled cell showing `ch`.
    pub fn from_char(ch: char) -> (c: Cell)
        ensures
            c == unstyled_cell(ch),
    {
        Cell::unstyled(ch)
    }
}

impl Default for Cell {
    fn default() -> (c: Cell)
        ensures
            c == blank_cell(),
    {
        Cell::unstyled(' ')
    }
}

} // verus!
