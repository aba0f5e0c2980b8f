//! Exact segment–segment, segment–point and quad–segment intersection tests.
//!
//! The classic parametric intersection test computes two parameters as
//! ratios; here numerators and denominator stay exact integers, so the
//! inclusive range test `0 <= u <= 1` and the intersection point itself are
//! exact. Parallel or degenerate pairs have a zero denominator and yield no
//! intersection.

use vstd::prelude::*;

use crate::POS_LIMIT;
use crate::foothold::Foothold;
use crate::foothold::fh_wf;
use crate::frac::lemma_mul_range;
use crate::frac::Frac;
use crate::frac::frac_wf;
use crate::geometry::Line2d;
use crate::geometry::Point2d;
use crate::geometry::Quad2d;
use crate::geometry::point_in_bounds;
use crate::geometry::quad_wf;

verus! {

/// Which edge of a quad an intersection was found on.
#[derive(Clone, Copy, Debug, PartialEq, Eq, Structural)]
pub enum Collision {
    Top,
    Bottom,
    Left,
    Right,
}

/// A 2D point with exact rational coordinates.
#[derive(Clone, Copy, Debug, PartialEq, Eq, Structural)]
pub struct FracPoint {
    pub x: Frac,
    pub y: Frac,
}

/// Numerator of the parameter `u_a` along segment A, for segments
/// `A = (x1, y1)-(x2, y2)` and `B = (x3, y3)-(x4, y4)`.
pub open spec fn seg_num_a(
    x1: int,
    y1: int,
    x2: int,
    y2: int,
    x3: int,
    y3: int,
    x4: int,
    y4: int,
) -> int {
    (x4 - x3) * (y1 - y3) - (y4 - y3) * (x1 - x3)
}

/// Numerator of the parameter `u_b` along segment B.
pub open spec fn seg_num_b(
    x1: int,
    y1: int,
    x2: int,
    y2: int,
    x3: int,
    y3: int,
    x4: int,
    y4: int,
) -> int {
    (x2 - x1) * (y1 - y3) - (y2 - y1) * (x1 - x3)
}

/// Common denominator of both parameters; zero exactly for parallel or
/// degenerate segment pairs.
pub open spec fn seg_den(
    x1: int,
    y1: int,
    x2: int,
    y2: int,
    x3: int,
    y3: int,
    x4: int,
    y4: int,
) -> int {
    (y4 - y3) * (x2 - x1) - (x4 - x3) * (y2 - y1)
}

/// The segments intersect: the pair is not parallel and both exact
/// parameters `u_a = num_a / den` and `u_b = num_b / den` lie in `[0, 1]`.
pub open spec fn segments_intersect(
    x1: int,
    y1: int,
    x2: int,
    y2: int,
    x3: int,
    y3: int,
    x4: int,
    y4: int,
) -> bool {
    let den = seg_den(x1, y1, x2, y2, x3, y3, x4, y4);
    let na = seg_num_a(x1, y1, x2, y2, x3, y3, x4, y4);
    let nb = seg_num_b(x1, y1, x2, y2, x3, y3, x4, y4);
    if den > 0 {
        0 <= na <= den && 0 <= nb <= den
    } else if den < 0 {
        den <= na <= 0 && den <= nb <= 0
    } else {
        false
    }
}

/// Positive denominator of the exact intersection point.
pub open spec fn intersect_den(
    x1: int,
    y1: int,
    x2: int,
    y2: int,
    x3: int,
    y3: int,
    x4: int,
    y4: int,
) -> int {
    let den = seg_den(x1, y1, x2, y2, x3, y3, x4, y4);
    if den >= 0 {
        den
    } else {
        -den
    }
}

/// Numerator of the intersection point's x coordinate, over
/// [`intersect_den`]: the point is `x1 + u_a * (x2 - x1)`.
pub open spec fn intersect_x_num(
    x1: int,
    y1: int,
    x2: int,
    y2: int,
    x3: int,
    y3: int,
    x4: int,
    y4: int,
) -> int {
    let den = seg_den(x1, y1, x2, y2, x3, y3, x4, y4);
    let na = seg_num_a(x1, y1, x2, y2, x3, y3, x4, y4);
    if den >= 0 {
        den * x1 + na * (x2 - x1)
    } else {
        -(den * x1 + na * (x2 - x1))
    }
}

/// Numerator of the intersection point's y coordinate, over
/// [`intersect_den`]: the point is `y1 + u_a * (y2 - y1)`.
pub open spec fn intersect_y_num(
    x1: int,
    y1: int,
    x2: int,
    y2: int,
    x3: int,
    y3: int,
    x4: int,
    y4: int,
) -> int {
    let den = seg_den(x1, y1, x2, y2, x3, y3, x4, y4);
    let na = seg_num_a(x1, y1, x2, y2, x3, y3, x4, y4);
    if den >= 0 {
        den * y1 + na * (y2 - y1)
    } else {
        -(den * y1 + na * (y2 - y1))
    }
}

/// The exact intersection of two segments as an optional rational point.
pub open spec fn intersection_spec(
    x1: int,
    y1: int,
    x2: int,
    y2: int,
    x3: int,
    y3: int,
    x4: int,
    y4: int,
) -> Option<FracPoint> {
    if segments_intersect(x1, y1, x2, y2, x3, y3, x4, y4) {
        Some(
            FracPoint {
                x: Frac {
                    num: intersect_x_num(x1, y1, x2, y2, x3, y3, x4, y4) as i128,
                    den: intersect_den(x1, y1, x2, y2, x3, y3, x4, y4) as i128,
                },
                y: Frac {
                    num: intersect_y_num(x1, y1, x2, y2, x3, y3, x4, y4) as i128,
                    den: intersect_den(x1, y1, x2, y2, x3, y3, x4, y4) as i128,
                },
            },
        )
    } else {
        None
    }
}

/// Calculates the exact intersection point of two segments given by their
/// endpoint coordinates, or `None` when they do not intersect (parallel and
/// degenerate pairs included).
pub fn collide_segment_segment(
    x1: i64,
    y1: i64,
    x2: i64,
    y2: i64,
    x3: i64,
    y3: i64,
    x4: i64,
    y4: i64,
) -> (r: Option<FracPoint>)
    requires
        -POS_LIMIT <= x1 <= POS_LIMIT,
        -POS_LIMIT <= y1 <= POS_LIMIT,
        -POS_LIMIT <= x2 <= POS_LIMIT,
        -POS_LIMIT <= y2 <= POS_LIMIT,
        -POS_LIMIT <= x3 <= POS_LIMIT,
        -POS_LIMIT <= y3 <= POS_LIMIT,
        -POS_LIMIT <= x4 <= POS_LIMIT,
        -POS_LIMIT <= y4 <= POS_LIMIT,
    ensures
        r is Some <==> segments_intersect(
            x1 as int,
            y1 as int,
            x2 as int,
            y2 as int,
            x3 as int,
            y3 as int,
            x4 as int,
            y4 as int,
        ),
        match r {
            Some(p) => {
                &&& p.x.num == intersect_x_num(
                    x1 as int,
                    y1 as int,
                    x2 as int,
                    y2 as int,
                    x3 as int,
                    y3 as int,
                    x4 as int,
                    y4 as int,
                )
                &&& p.y.num == intersect_y_num(
                    x1 as int,
                    y1 as int,
                    x2 as int,
                    y2 as int,
                    x3 as int,
                    y3 as int,
                    x4 as int,
                    y4 as int,
                )
                &&& p.x.den == intersect_den(
                    x1 as int,
                    y1 as int,
                    x2 as int,
                    y2 as int,
                    x3 as int,
                    y3 as int,
                    x4 as int,
                    y4 as int,
                )
                &&& p.y.den == p.x.den
                &&& frac_wf(p.x)
                &&& frac_wf(p.y)
            },
            None => true,
        },
        r == intersection_spec(
            x1 as int,
            y1 as int,
            x2 as int,
            y2 as int,
            x3 as int,
            y3 as int,
            x4 as int,
            y4 as int,
        ),
{
    let xa = x1 as i128;
    let ya = y1 as i128;
    let xb = x2 as i128;
    let yb = y2 as i128;
    let xc = x3 as i128;
    let yc = y3 as i128;
    let xd = x4 as i128;
    let yd = y4 as i128;
    proof {
        lemma_mul_range(
            (yd as int) - (yc as int),
            (xb as int) - (xa as int),
            2_000_000_000_000,
            2_000_000_000_000,
        );
        lemma_mul_range(
            (xd as int) - (xc as int),
            (yb as int) - (ya as int),
            2_000_000_000_000,
            2_000_000_000_000,
        );
        lemma_mul_range(
            (xd as int) - (xc as int),
            (ya as int) - (yc as int),
            2_000_000_000_000,
            2_000_000_000_000,
        );
        lemma_mul_range(
            (yd as int) - (yc as int),
            (xa as int) - (xc as int),
            2_000_000_000_000,
            2_000_000_000_000,
        );
        lemma_mul_range(
            (xb as int) - (xa as int),
            (ya as int) - (yc as int),
            2_000_000_000_000,
            2_000_000_000_000,
        );
        lemma_mul_range(
            (yb as int) - (ya as int),
            (xa as int) - (xc as int),
            2_000_000_000_000,
            2_000_000_000_000,
        );
    }
    let den = (yd - yc) * (xb - xa) - (xd - xc) * (yb - ya);
    let num_a = (xd - xc) * (ya - yc) - (yd - yc) * (xa - xc);
    let num_b = (xb - xa) * (ya - yc) - (yb - ya) * (xa - xc);
    let hit = if den > 0 {
        0 <= num_a && num_a <= den && 0 <= num_b && num_b <= den
    } else if den < 0 {
        den <= num_a && num_a <= 0 && den <= num_b && num_b <= 0
    } else {
        false
    };
    if hit {
        proof {
            lemma_mul_range(
                den as int,
                xa as int,
                8_000_000_000_000_000_000_000_000,
                1_000_000_000_000,
            );
            lemma_mul_range(
                den as int,
                ya as int,
                8_000_000_000_000_000_000_000_000,
                1_000_000_000_000,
            );
            lemma_mul_range(
                num_a as int,
                (xb as int) - (xa as int),
                8_000_000_000_000_000_000_000_000,
                2_000_000_000_000,
            );
            lemma_mul_range(
                num_a as int,
                (yb as int) - (ya as int),
                8_000_000_000_000_000_000_000_000,
                2_000_000_000_000,
            );
        }
        let xn = den * xa + num_a * (xb - xa);
        let yn = den * ya + num_a * (yb - ya);
        if den > 0 {
            Some(FracPoint { x: Frac { num: xn, den }, y: Frac { num: yn, den } })
        } else {
            Some(FracPoint { x: Frac { num: -xn, den: -den }, y: Frac { num: -yn, den: -den } })
        }
    } else {
        None
    }
}

/// Segment intersection is symmetric: swapping the two segments yields the
/// same decision and, on intersection, the same exact point in the same
/// canonical representation.
pub proof fn lemma_segment_intersect_symmetric(
    x1: int,
    y1: int,
    x2: int,
    y2: int,
    x3: int,
    y3: int,
    x4: int,
    y4: int,
)
    ensures
        intersection_spec(x1, y1, x2, y2, x3, y3, x4, y4) == intersection_spec(
            x3,
            y3,
            x4,
            y4,
            x1,
            y1,
            x2,
            y2,
        ),
{
    let den = seg_den(x1, y1, x2, y2, x3, y3, x4, y4);
    let na = seg_num_a(x1, y1, x2, y2, x3, y3, x4, y4);
    let nb = seg_num_b(x1, y1, x2, y2, x3, y3, x4, y4);
    let den2 = seg_den(x3, y3, x4, y4, x1, y1, x2, y2);
    let na2 = seg_num_a(x3, y3, x4, y4, x1, y1, x2, y2);
    let nb2 = seg_num_b(x3, y3, x4, y4, x1, y1, x2, y2);
    assert(den2 == -den && na2 == -nb && nb2 == -na) by (nonlinear_arith)
        requires
            den == (y4 - y3) * (x2 - x1) - (x4 - x3) * (y2 - y1),
            na == (x4 - x3) * (y1 - y3) - (y4 - y3) * (x1 - x3),
            nb == (x2 - x1) * (y1 - y3) - (y2 - y1) * (x1 - x3),
            den2 == (y2 - y1) * (x4 - x3) - (x2 - x1) * (y4 - y3),
            na2 == (x2 - x1) * (y3 - y1) - (y2 - y1) * (x3 - x1),
            nb2 == (x4 - x3) * (y3 - y1) - (y4 - y3) * (x3 - x1);
    if segments_intersect(x1, y1, x2, y2, x3, y3, x4, y4) {
        let a = x2 - x1;
        let b = y2 - y1;
        let c = x4 - x3;
        let d = y4 - y3;
        let e = x1 - x3;
        let f = y1 - y3;
        assert(den == d * a - c * b && na == c * f - d * e && nb == a * f - b * e);
        assert((d * a - c * b) * e + (c * f - d * e) * a - (a * f - b * e) * c == 0)
            by (nonlinear_arith);
        assert((d * a - c * b) * f + (c * f - d * e) * b - (a * f - b * e) * d == 0)
            by (nonlinear_arith);
        assert(den * e + na * a - nb * c == 0);
        assert(den * f + na * b - nb * d == 0);
        assert(den * e == den * x1 - den * x3 && den * f == den * y1 - den * y3)
            by (nonlinear_arith)
            requires
                e == x1 - x3,
                f == y1 - y3;
        assert(den * x1 + na * (x2 - x1) == den * x3 + nb * (x4 - x3));
        assert(den * y1 + na * (y2 - y1) == den * y3 + nb * (y4 - y3));
        assert((-den) * x3 + (-nb) * (x4 - x3) == -(den * x3 + nb * (x4 - x3)) && (-den) * y3 + (
        -nb) * (y4 - y3) == -(den * y3 + nb * (y4 - y3))) by (nonlinear_arith);
    }
}

/// Exact incidence of a point on a segment: the point is collinear with the
/// endpoints and lies inside the segment's bounding box. With exact integer
/// coordinates no tolerance band is needed: incidence itself is decidable.
pub open spec fn point_on_segment(x1: int, y1: int, x2: int, y2: int, x: int, y: int) -> bool {
    &&& (x2 - x1) * (y - y1) == (y2 - y1) * (x - x1)
    &&& (x1 <= x <= x2 || x2 <= x <= x1)
    &&& (y1 <= y <= y2 || y2 <= y <= y1)
}

/// Tests whether the point `(x, y)` lies exactly on the segment
/// `(x1, y1)-(x2, y2)`.
pub fn collide_segment_point(x1: i64, y1: i64, x2: i64, y2: i64, x: i64, y: i64) -> (r: bool)
    requires
        -POS_LIMIT <= x1 <= POS_LIMIT,
        -POS_LIMIT <= y1 <= POS_LIMIT,
        -POS_LIMIT <= x2 <= POS_LIMIT,
        -POS_LIMIT <= y2 <= POS_LIMIT,
        -POS_LIMIT <= x <= POS_LIMIT,
        -POS_LIMIT <= y <= POS_LIMIT,
    ensures
        r == point_on_segment(x1 as int, y1 as int, x2 as int, y2 as int, x as int, y as int),
{
    proof {
        lemma_mul_range(
            (x2 as int) - (x1 as int),
            (y as int) - (y1 as int),
            2_000_000_000_000,
            2_000_000_000_000,
        );
        lemma_mul_range(
            (y2 as int) - (y1 as int),
            (x as int) - (x1 as int),
            2_000_000_000_000,
            2_000_000_000_000,
        );
    }
    let cross_ok = ((x2 as i128) - (x1 as i128)) * ((y as i128) - (y1 as i128)) == ((y2 as i128)
        - (y1 as i128)) * ((x as i128) - (x1 as i128));
    let x_ok = (x1 <= x && x <= x2) || (x2 <= x && x <= x1);
    let y_ok = (y1 <= y && y <= y2) || (y2 <= y && y <= y1);
    cross_ok && x_ok && y_ok
}

/// A point with integer coordinates as a rational point.
pub open spec fn frac_point_of(x: int, y: int) -> FracPoint {
    FracPoint { x: Frac { num: x as i128, den: 1 }, y: Frac { num: y as i128, den: 1 } }
}

/// The intersection points found on the edges of a quad, keyed by edge.
#[derive(Clone, Copy, Debug, PartialEq, Eq, Structural)]
pub struct CollisionPoints {
    pub top: Option<FracPoint>,
    pub bottom: Option<FracPoint>,
    pub left: Option<FracPoint>,
    pub right: Option<FracPoint>,
}

impl CollisionPoints {
    /// The entry for one edge.
    pub open spec fn spec_get(self, edge: Collision) -> Option<FracPoint> {
        match edge {
            Collision::Top => self.top,
            Collision::Bottom => self.bottom,
            Collision::Left => self.left,
            Collision::Right => self.right,
        }
    }

    /// The entry for one edge.
    pub fn get(&self, edge: Collision) -> (r: Option<FracPoint>)
        ensures
            r == self.spec_get(edge),
    {
        match edge {
            Collision::Top => self.top,
            Collision::Bottom => self.bottom,
            Collision::Left => self.left,
            Collision::Right => self.right,
        }
    }

    /// No edge intersects.
    pub fn is_empty(&self) -> (r: bool)
        ensures
            r == (self.top is None && self.bottom is None && self.left is None
                && self.right is None),
    {
        self.top.is_none() && self.bottom.is_none() && self.left.is_none() && self.right.is_none()
    }
}

/// Calculates the intersection point of two segments.
pub fn collide_line_line(line_a: &Line2d, line_b: &Line2d) -> (r: Option<FracPoint>)
    requires
        point_in_bounds(line_a.p1),
        point_in_bounds(line_a.p2),
        point_in_bounds(line_b.p1),
        point_in_bounds(line_b.p2),
    ensures
        r == intersection_spec(
            line_a.p1.x as int,
            line_a.p1.y as int,
            line_a.p2.x as int,
            line_a.p2.y as int,
            line_b.p1.x as int,
            line_b.p1.y as int,
            line_b.p2.x as int,
            line_b.p2.y as int,
        ),
{
    collide_segment_segment(
        line_a.p1.x,
        line_a.p1.y,
        line_a.p2.x,
        line_a.p2.y,
        line_b.p1.x,
        line_b.p1.y,
        line_b.p2.x,
        line_b.p2.y,
    )
}

/// Calculates the intersection points of a quad's four edges against a
/// segment, each edge tested independently.
pub fn collide_quad_line(quad: &Quad2d, line: &Line2d) -> (r: CollisionPoints)
    requires
        quad_wf(*quad),
        point_in_bounds(line.p1),
        point_in_bounds(line.p2),
        -POS_LIMIT <= quad.position.x - quad.width / 2,
        quad.position.x + quad.width / 2 <= POS_LIMIT,
        -POS_LIMIT <= quad.position.y - quad.height / 2,
        quad.position.y + quad.height / 2 <= POS_LIMIT,
    ensures
        ({
            let lx = quad.position.x - quad.width / 2;
            let rx = quad.position.x + quad.width / 2;
            let ty = quad.position.y + quad.height / 2;
            let by = quad.position.y - quad.height / 2;
            let x3 = line.p1.x as int;
            let y3 = line.p1.y as int;
            let x4 = line.p2.x as int;
            let y4 = line.p2.y as int;
            &&& r.top == intersection_spec(lx as int, ty as int, rx as int, ty as int, x3, y3, x4, y4)
            &&& r.bottom == intersection_spec(
                lx as int,
                by as int,
                rx as int,
                by as int,
                x3,
                y3,
                x4,
                y4,
            )
            &&& r.left == intersection_spec(lx as int, ty as int, lx as int, by as int, x3, y3, x4, y4)
            &&& r.right == intersection_spec(
                rx as int,
                ty as int,
                rx as int,
                by as int,
                x3,
                y3,
                x4,
                y4,
            )
        }),
{
    let top_left = quad.top_left();
    let top_right = quad.top_right();
    let bottom_left = quad.bottom_left();
    let bottom_right = quad.bottom_right();
    let top = collide_line_line(&Line2d { p1: top_left, p2: top_right }, line);
    let bottom = collide_line_line(&Line2d { p1: bottom_left, p2: bottom_right }, line);
    let left = collide_line_line(&Line2d { p1: top_left, p2: bottom_left }, line);
    let right = collide_line_line(&Line2d { p1: top_right, p2: bottom_right }, line);
    CollisionPoints { top, bottom, left, right }
}

/// Classifies how a body's bounding box meets one ground segment: the left,
/// right and bottom edges are each intersected with the segment, and the
/// three bottom corner/midpoint probes override the bottom entry when they
/// lie exactly on the segment (the anchor probe strongest).
pub fn collide_sprite_foothold(
    position: &Point2d,
    width: i64,
    height: i64,
    foothold: &Foothold,
) -> (r: CollisionPoints)
    requires
        fh_wf(*foothold),
        point_in_bounds(*position),
        0 <= width <= POS_LIMIT,
        0 <= height <= POS_LIMIT,
        width % 2 == 0,
        height % 2 == 0,
        -POS_LIMIT <= position.x - width / 2,
        position.x + width / 2 <= POS_LIMIT,
        -POS_LIMIT <= position.y - height / 2,
        position.y + height / 2 <= POS_LIMIT,
    ensures
        ({
            let lx = position.x - width / 2;
            let rx = position.x + width / 2;
            let ty = position.y + height / 2;
            let by = position.y - height / 2;
            let f1 = foothold.x1 as int;
            let g1 = foothold.y1 as int;
            let f2 = foothold.x2 as int;
            let g2 = foothold.y2 as int;
            &&& r.top is None
            &&& r.left == intersection_spec(
                f1,
                g1,
                f2,
                g2,
                lx as int,
                ty as int,
                lx as int,
                by as int,
            )
            &&& r.right == intersection_spec(
                f1,
                g1,
                f2,
                g2,
                rx as int,
                ty as int,
                rx as int,
                by as int,
            )
            &&& r.bottom == (if point_on_segment(f1, g1, f2, g2, position.x as int, by as int) {
                Some(frac_point_of(position.x as int, by as int))
            } else if point_on_segment(f1, g1, f2, g2, rx as int, by as int) {
                Some(frac_point_of(rx as int, by as int))
            } else if point_on_segment(f1, g1, f2, g2, lx as int, by as int) {
                Some(frac_point_of(lx as int, by as int))
            } else {
                intersection_spec(f1, g1, f2, g2, lx as int, by as int, rx as int, by as int)
            })
        }),
{
    let hw = width / 2;
    let hh = height / 2;
    let lx = position.x - hw;
    let rx = position.x + hw;
    let ty = position.y + hh;
    let by = position.y - hh;
    let left = collide_segment_segment(
        foothold.x1,
        foothold.y1,
        foothold.x2,
        foothold.y2,
        lx,
        ty,
        lx,
        by,
    );
    let right = collide_segment_segment(
        foothold.x1,
        foothold.y1,
        foothold.x2,
        foothold.y2,
        rx,
        ty,
        rx,
        by,
    );
    let mut bottom = collide_segment_segment(
        foothold.x1,
        foothold.y1,
        foothold.x2,
        foothold.y2,
        lx,
        by,
        rx,
        by,
    );
    if collide_segment_point(foothold.x1, foothold.y1, foothold.x2, foothold.y2, lx, by) {
        bottom = Some(FracPoint { x: Frac::from_int(lx), y: Frac::from_int(by) });
    }
    if collide_segment_point(foothold.x1, foothold.y1, foothold.x2, foothold.y2, rx, by) {
        bottom = Some(FracPoint { x: Frac::from_int(rx), y: Frac::from_int(by) });
    }
    if collide_segment_point(foothold.x1, foothold.y1, foothold.x2, foothold.y2, position.x, by) {
        bottom = Some(FracPoint { x: Frac::from_int(position.x), y: Frac::from_int(by) });
    }
    CollisionPoints { top: None, bottom, left, right }
}

} // verus!
