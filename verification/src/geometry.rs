//! Integer geometry in the output's logical coordinate space.

use vstd::prelude::*;

verus! {

/// A point in logical coordinates.
#[derive(Clone, Copy, PartialEq, Eq, Structural, Debug)]
pub struct Point {
    pub x: i32,
    pub y: i32,
}

/// A size in logical coordinates.
#[derive(Clone, Copy, PartialEq, Eq, Structural, Debug)]
pub struct Size {
    pub w: i32,
    pub h: i32,
}

/// An axis-aligned rectangle: a location and a size.
#[derive(Clone, Copy, PartialEq, Eq, Structural, Debug)]
pub struct Rect {
    pub loc: Point,
    pub size: Size,
}

impl Point {
    pub fn new(x: i32, y: i32) -> (r: Point)
        ensures
            r == (Point { x, y }),
    {
        Point { x, y }
    }
}

impl Size {
    pub fn new(w: i32, h: i32) -> (r: Size)
        ensures
            r == (Size { w, h }),
    {
        Size { w, h }
    }
}

impl Rect {
    pub fn new(x: i32, y: i32, w: i32, h: i32) -> (r: Rect)
        ensures
            r == (Rect { loc: Point { x, y }, size: Size { w, h } }),
    {
        Rect { loc: Point { x, y }, size: Size { w, h } }
    }

    /// Whether `p` lies within the rectangle (right and bottom edges excluded).
    pub open spec fn spec_contains(self, p: Point) -> bool {
        &&& self.loc.x <= p.x < self.loc.x + self.size.w
        &&& self.loc.y <= p.y < self.loc.y + self.size.h
    }

    pub fn contains(&self, p: Point) -> (r: bool)
        ensures
            r == self.spec_contains(p),
    {
        p.x >= self.loc.x && (p.x as i64) < (self.loc.x as i64) + (self.size.w as i64)
            && p.y >= self.loc.y && (p.y as i64) < (self.loc.y as i64) + (self.size.h as i64)
    }
}

/// Bound on a single coordinate, so that sums and differences of up to three
/// coordinates stay representable in `i32`.
pub open spec fn coord_bounded(c: int) -> bool {
    -0x2000_0000 <= c <= 0x2000_0000
}

pub open spec fn point_bounded(p: Point) -> bool {
    coord_bounded(p.x as int) && coord_bounded(p.y as int)
}

pub open spec fn size_bounded(s: Size) -> bool {
    coord_bounded(s.w as int) && coord_bounded(s.h as int)
}

pub open spec fn rect_bounded(r: Rect) -> bool {
    point_bounded(r.loc) && size_bounded(r.size)
}

} // verus!
