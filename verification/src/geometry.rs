use vstd::prelude::*;

verus! {

/// A position on the terminal grid, in cells.
#[derive(PartialEq, Eq, Structural, Clone, Copy, Debug, Default)]
pub struct Point {
    pub x: i32,
    pub y: i32,
}

/// Whether `a + b` stays inside `i32` on both axes.
pub open spec fn point_add_fits(a: Point, b: Point) -> bool {
    &&& i32::MIN <= a.x + b.x <= i32::MAX
    &&& i32::MIN <= a.y + b.y <= i32::MAX
}

/// Whether `a - b` stays inside `i32` on both axes.
pub open spec fn point_sub_fits(a: Point, b: Point) -> bool {
    &&& i32::MIN <= a.x - b.x <= i32::MAX
    &&& i32::MIN <= a.y - b.y <= i32::MAX
}

impl Point {
    pub fn new(x: i32, y: i32) -> (p: Point)
        ensures
            p.x == x,
            p.y == y,
    {
        Point { x, y }
    }

    /// Component-wise sum.
    pub fn plus(self, rhs: Point) -> (p: Point)
        requires
            point_add_fits(self, rhs),
        ensures
            p.x == self.x + rhs.x,
            p.y == self.y + rhs.y,
    {
        Point { x: self.x + rhs.x, y: self.y + rhs.y }
    }

    /// Component-wise difference.
    pub fn minus(self, rhs: Point) -> (p: Point)
        requires
            point_sub_fits(self, rhs),
        ensures
            p.x == self.x - rhs.x,
            p.y == self.y - rhs.y,
    {
        Point { x: self.x - rhs.x, y: self.y - rhs.y }
    }
}

/// A node's position and size, in terminal cells. `first` is the top-left cell; `second` is
/// exclusive (`first + (width, height)`), so both clipping and hit-testing work on half-open
/// ranges.
#[derive(PartialEq, Eq, Structural, Clone, Copy, Debug, Default)]
pub struct LayoutRect {
    pub first: Point,
    pub second: Point,
}

/// Whether `p` lies in the half-open rectangle `r`.
pub open spec fn rect_contains(r: LayoutRect, p: Point) -> bool {
    &&& r.first.x <= p.x < r.second.x
    &&& r.first.y <= p.y < r.second.y
}

/// `r` shifted by `d`.
pub open spec fn rect_translated(r: LayoutRect, d: Point) -> LayoutRect {
    LayoutRect {
        first: Point { x: (r.first.x + d.x) as i32, y: (r.first.y + d.y) as i32 },
        second: Point { x: (r.second.x + d.x) as i32, y: (r.second.y + d.y) as i32 },
    }
}

/// `r` shrunk by `amount` on every side (grown when `amount` is negative).
pub open spec fn rect_inset(r: LayoutRect, amount: int) -> LayoutRect {
    LayoutRect {
        first: Point { x: (r.first.x + amount) as i32, y: (r.first.y + amount) as i32 },
        second: Point { x: (r.second.x - amount) as i32, y: (r.second.y - amount) as i32 },
    }
}

pub open spec fn imax(a: i32, b: i32) -> i32 {
    if a >= b { a } else { b }
}

pub open spec fn imin(a: i32, b: i32) -> i32 {
    if a <= b { a } else { b }
}

/// The part of `a` that also lies inside `b`.
pub open spec fn rect_intersection(a: LayoutRect, b: LayoutRect) -> LayoutRect {
    LayoutRect {
        first: Point { x: imax(a.first.x, b.first.x), y: imax(a.first.y, b.first.y) },
        second: Point { x: imin(a.second.x, b.second.x), y: imin(a.second.y, b.second.y) },
    }
}

/// Whether translating `r` by `d` stays inside `i32`.
pub open spec fn translate_fits(r: LayoutRect, d: Point) -> bool {
    point_add_fits(r.first, d) && point_add_fits(r.second, d)
}

/// Whether insetting `r` by `amount` stays inside `i32`.
pub open spec fn inset_fits(r: LayoutRect, amount: int) -> bool {
    &&& i32::MIN <= r.first.x + amount <= i32::MAX
    &&& i32::MIN <= r.first.y + amount <= i32::MAX
    &&& i32::MIN <= r.second.x - amount <= i32::MAX
    &&& i32::MIN <= r.second.y - amount <= i32::MAX
}

impl LayoutRect {
    /// The horizontal extent, truncated to `u16` as a cell count.
    pub fn width(&self) -> (w: u16)
        requires
            i32::MIN <= self.second.x - self.first.x <= i32::MAX,
        ensures
            w == (self.second.x - self.first.x) as u16,
    {
        (self.second.x - self.first.x) as u16
    }

    /// The vertical extent, truncated to `u16` as a cell count.
    pub fn height(&self) -> (h: u16)
        requires
            i32::MIN <= self.second.y - self.first.y <= i32::MAX,
        ensures
            h == (self.second.y - self.first.y) as u16,
    {
        (self.second.y - self.first.y) as u16
    }

    /// Both corners moved by `rhs`.
    pub fn translate(&self, rhs: Point) -> (r: LayoutRect)
        requires
            translate_fits(*self, rhs),
        ensures
            r == rect_translated(*self, rhs),
    {
        LayoutRect { first: self.first.plus(rhs), second: self.second.plus(rhs) }
    }

    /// Whether moving both corners by `rhs` stays inside `i32`.
    pub fn translate_fits(&self, rhs: Point) -> (b: bool)
        ensures
            b == translate_fits(*self, rhs),
    {
        self.first.x.checked_add(rhs.x).is_some() && self.first.y.checked_add(rhs.y).is_some()
            && self.second.x.checked_add(rhs.x).is_some() && self.second.y.checked_add(rhs.y).is_some()
    }

    /// Whether shrinking the rect by `amount` on every side stays inside `i32`.
    pub fn inset_fits(&self, amount: i32) -> (b: bool)
        ensures
            b == inset_fits(*self, amount as int),
    {
        self.first.x.checked_add(amount).is_some() && self.first.y.checked_add(amount).is_some()
            && self.second.x.checked_sub(amount).is_some() && self.second.y.checked_sub(amount).is_some()
    }

    /// Shrinks the rect by `amount` cells on every side.
    pub fn inset(&self, amount: i32) -> (r: LayoutRect)
        requires
            inset_fits(*self, amount as int),
        ensures
            r == rect_inset(*self, amount as int),
    {
        LayoutRect {
            first: self.first.plus(Point::new(amount, amount)),
            second: self.second.minus(Point::new(amount, amount)),
        }
    }

    /// Whether `point` falls inside this rect, treating `second` as exclusive.
    pub fn contains(&self, point: Point) -> (b: bool)
        ensures
            b == rect_contains(*self, point),
    {
        point.x >= self.first.x && point.x < self.second.x && point.y >= self.first.y && point.y
            < self.second.y
    }

    /// Narrows this rect to also stay inside `other`.
    pub fn intersect(&self, other: LayoutRect) -> (r: LayoutRect)
        ensures
            r == rect_intersection(*self, other),
    {
        let fx = if self.first.x >= other.first.x { self.first.x } else { other.first.x };
        let fy = if self.first.y >= other.first.y { self.first.y } else { other.first.y };
        let sx = if self.second.x <= other.second.x { self.second.x } else { other.second.x };
        let sy = if self.second.y <= other.second.y { self.second.y } else { other.second.y };
        LayoutRect { first: Point::new(fx, fy), second: Point::new(sx, sy) }
    }
}

/// A point lies in the intersection of two rects exactly when it lies in both.
pub proof fn lemma_intersect_contains(a: LayoutRect, b: LayoutRect, p: Point)
    ensures
        rect_contains(rect_intersection(a, b), p) <==> (rect_contains(a, p) && rect_contains(b, p)),
{
}

/// Intersection does not depend on the order of its operands.
pub proof fn lemma_intersect_commutative(a: LayoutRect, b: LayoutRect)
    ensures
        rect_intersection(a, b) == rect_intersection(b, a),
{
}

/// Intersecting a rect with itself leaves it unchanged.
pub proof fn lemma_intersect_idempotent(a: LayoutRect)
    ensures
        rect_intersection(a, a) == a,
{
}

/// Translating by `d` and then by `-d` gives back the same rect.
pub proof fn lemma_translate_round_trip(r: LayoutRect, d: Point)
    requires
        translate_fits(r, d),
        d.x > i32::MIN,
        d.y > i32::MIN,
    ensures
        rect_translated(rect_translated(r, d), Point { x: -d.x as i32, y: -d.y as i32 }) == r,
{
}

/// Insetting by `k` and then by `-k` gives back the same rect.
pub proof fn lemma_inset_round_trip(r: LayoutRect, k: i32)
    requires
        inset_fits(r, k as int),
    ensures
        rect_inset(rect_inset(r, k as int), -k) == r,
{
}

/// A translated rect contains exactly the translated points.
pub proof fn lemma_translate_contains(r: LayoutRect, d: Point, p: Point)
    requires
        translate_fits(r, d),
        point_add_fits(p, d),
    ensures
        rect_contains(rect_translated(r, d), Point { x: (p.x + d.x) as i32, y: (p.y + d.y) as i32 })
            <==> rect_contains(r, p),
{
}

} // verus!
