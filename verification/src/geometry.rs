//! 2D value types: points, line segments and axis-aligned quads.
//!
//! Coordinates are integers in fixed-point world units. Quads keep even
//! widths and heights so that their corner and edge-midpoint coordinates are
//! themselves exact integers.

use vstd::prelude::*;

use crate::POS_LIMIT;

verus! {

/// A 2D point (or vector) with integer coordinates.
#[derive(Clone, Copy, Debug, PartialEq, Eq, Structural)]
pub struct Point2d {
    pub x: i64,
    pub y: i64,
}

/// The point's coordinates lie inside the world bounds.
pub open spec fn point_in_bounds(p: Point2d) -> bool {
    -POS_LIMIT <= p.x <= POS_LIMIT && -POS_LIMIT <= p.y <= POS_LIMIT
}

impl Point2d {
    /// Builds the point `(x, y)`.
    pub fn new(x: i64, y: i64) -> (r: Point2d)
        ensures
            r.x == x,
            r.y == y,
    {
        Point2d { x, y }
    }
}

impl Default for Point2d {
    /// The origin.
    fn default() -> (r: Point2d)
        ensures
            r == (Point2d { x: 0, y: 0 }),
    {
        Point2d { x: 0, y: 0 }
    }
}

/// A line segment between two points.
#[derive(Clone, Copy, Debug, PartialEq, Eq, Structural)]
pub struct Line2d {
    pub p1: Point2d,
    pub p2: Point2d,
}

impl Line2d {
    /// Builds the segment from `(x1, y1)` to `(x2, y2)`.
    pub fn new(x1: i64, y1: i64, x2: i64, y2: i64) -> (r: Line2d)
        ensures
            r.p1 == (Point2d { x: x1, y: y1 }),
            r.p2 == (Point2d { x: x2, y: y2 }),
    {
        Line2d { p1: Point2d { x: x1, y: y1 }, p2: Point2d { x: x2, y: y2 } }
    }

    /// Builds the segment from `p1` to `p2`.
    pub fn from_points(p1: Point2d, p2: Point2d) -> (r: Line2d)
        ensures
            r.p1 == p1,
            r.p2 == p2,
    {
        Line2d { p1, p2 }
    }
}

/// An axis-aligned rectangle given by its center position and extents.
#[derive(Clone, Copy, Debug, PartialEq, Eq, Structural)]
pub struct Quad2d {
    pub position: Point2d,
    pub width: i64,
    pub height: i64,
}

/// A well-formed quad sits inside the world bounds and has nonnegative,
/// even extents, so its corners have exact integer coordinates.
pub open spec fn quad_wf(q: Quad2d) -> bool {
    &&& point_in_bounds(q.position)
    &&& 0 <= q.width <= POS_LIMIT
    &&& 0 <= q.height <= POS_LIMIT
    &&& q.width % 2 == 0
    &&& q.height % 2 == 0
}

impl Quad2d {
    /// Builds a quad centered at `(x, y)`.
    pub fn new(x: i64, y: i64, width: i64, height: i64) -> (r: Quad2d)
        ensures
            r.position == (Point2d { x, y }),
            r.width == width,
            r.height == height,
    {
        Quad2d { position: Point2d { x, y }, width, height }
    }

    /// The corner above and to the left of the center.
    pub fn top_left(&self) -> (r: Point2d)
        requires
            quad_wf(*self),
        ensures
            r.x == self.position.x - self.width / 2,
            r.y == self.position.y + self.height / 2,
    {
        Point2d { x: self.position.x - self.width / 2, y: self.position.y + self.height / 2 }
    }

    /// The corner below and to the left of the center.
    pub fn bottom_left(&self) -> (r: Point2d)
        requires
            quad_wf(*self),
        ensures
            r.x == self.position.x - self.width / 2,
            r.y == self.position.y - self.height / 2,
    {
        Point2d { x: self.position.x - self.width / 2, y: self.position.y - self.height / 2 }
    }

    /// The corner above and to the right of the center.
    pub fn top_right(&self) -> (r: Point2d)
        requires
            quad_wf(*self),
        ensures
            r.x == self.position.x + self.width / 2,
            r.y == self.position.y + self.height / 2,
    {
        Point2d { x: self.position.x + self.width / 2, y: self.position.y + self.height / 2 }
    }

    /// The corner below and to the right of the center.
    pub fn bottom_right(&self) -> (r: Point2d)
        requires
            quad_wf(*self),
        ensures
            r.x == self.position.x + self.width / 2,
            r.y == self.position.y - self.height / 2,
    {
        Point2d { x: self.position.x + self.width / 2, y: self.position.y - self.height / 2 }
    }

    /// The midpoint of the top edge.
    pub fn mid_top(&self) -> (r: Point2d)
        requires
            quad_wf(*self),
        ensures
            r.x == self.position.x,
            r.y == self.position.y + self.height / 2,
    {
        Point2d { x: self.position.x, y: self.position.y + self.height / 2 }
    }

    /// The midpoint of the bottom edge: the body's anchor point for all
    /// ground-height comparisons.
    pub fn mid_bottom(&self) -> (r: Point2d)
        requires
            quad_wf(*self),
        ensures
            r.x == self.position.x,
            r.y == self.position.y - self.height / 2,
    {
        Point2d { x: self.position.x, y: self.position.y - self.height / 2 }
    }

    /// The midpoint of the left edge.
    pub fn mid_left(&self) -> (r: Point2d)
        requires
            quad_wf(*self),
        ensures
            r.x == self.position.x - self.width / 2,
            r.y == self.position.y,
    {
        Point2d { x: self.position.x - self.width / 2, y: self.position.y }
    }

    /// The midpoint of the right edge.
    pub fn mid_right(&self) -> (r: Point2d)
        requires
            quad_wf(*self),
        ensures
            r.x == self.position.x + self.width / 2,
            r.y == self.position.y,
    {
        Point2d { x: self.position.x + self.width / 2, y: self.position.y }
    }
}

} // verus!
