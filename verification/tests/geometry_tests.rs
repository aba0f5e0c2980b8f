use foothold::chain::FootholdChain;
use foothold::collider::Collision;
use foothold::collider::collide_line_line;
use foothold::collider::collide_quad_line;
use foothold::collider::collide_segment_point;
use foothold::collider::collide_segment_segment;
use foothold::collider::collide_sprite_foothold;
use foothold::foothold::Foothold;
use foothold::frac::Frac;
use foothold::geometry::Line2d;
use foothold::geometry::Point2d;
use foothold::geometry::Quad2d;

fn fh(x1: i64, y1: i64, x2: i64, y2: i64) -> Foothold {
    Foothold { id: 1, x1, y1, x2, y2, prev: 0, next: 0 }
}

#[test]
fn height_interpolation_midpoint() {
    // A segment from (0, 0) to (10, 10): the height at 5 is exactly 5.
    let f = fh(0, 0, 10, 10);
    let h = f.get_y_at_x(5).unwrap();
    assert!(h.eq_int(5));
}

#[test]
fn height_interpolation_outside_span_undefined() {
    let f = fh(0, 0, 10, 10);
    assert!(f.get_y_at_x(-1).is_none());
    assert!(f.get_y_at_x(11).is_none());
}

#[test]
fn height_interpolation_endpoints_inclusive() {
    let f = fh(0, 0, 10, 10);
    assert!(f.get_y_at_x(0).unwrap().eq_int(0));
    assert!(f.get_y_at_x(10).unwrap().eq_int(10));
}

#[test]
fn height_interpolation_fractional_value() {
    // From (0, 0) to (3, 1): the height at 1 is the exact rational 1/3.
    let f = fh(0, 0, 3, 1);
    let h = f.get_y_at_x(1).unwrap();
    assert!(h.num * 3 == h.den);
    assert!(!h.eq_int(0));
    assert!(h.gt_int(0));
    assert!(h.lt_int(1));
}

#[test]
fn degenerate_vertical_segment_has_no_height() {
    let f = fh(5, 0, 5, 10);
    assert!(f.get_y_at_x(5).is_none());
}

#[test]
fn slope_of_segment() {
    let f = fh(0, 0, 10, 5);
    let s = f.get_slope_at_x(4).unwrap();
    assert!(s.num * 2 == s.den);
    assert!(f.get_slope_at_x(11).is_none());
}

#[test]
fn segment_intersection_crossing() {
    // Diagonals of a square cross at (5, 5).
    let p = collide_segment_segment(0, 0, 10, 10, 0, 10, 10, 0).unwrap();
    assert!(p.x.eq_int(5));
    assert!(p.y.eq_int(5));
}

#[test]
fn segment_intersection_parallel_is_none() {
    assert!(collide_segment_segment(0, 0, 10, 0, 0, 5, 10, 5).is_none());
    // Coincident segments are parallel too (zero denominator).
    assert!(collide_segment_segment(0, 0, 10, 0, 0, 0, 10, 0).is_none());
}

#[test]
fn segment_intersection_outside_range_is_none() {
    // The infinite lines cross, the segments do not.
    assert!(collide_segment_segment(0, 0, 10, 10, 20, 30, 30, 20).is_none());
}

#[test]
fn segment_intersection_symmetry() {
    let cases: [(i64, i64, i64, i64, i64, i64, i64, i64); 4] = [
        (0, 0, 10, 10, 0, 10, 10, 0),
        (0, 0, 10, 0, 5, -5, 5, 5),
        (-7, 3, 12, 9, 4, -11, 2, 13),
        (0, 0, 10, 0, 0, 5, 10, 5),
    ];
    for (x1, y1, x2, y2, x3, y3, x4, y4) in cases {
        let ab = collide_segment_segment(x1, y1, x2, y2, x3, y3, x4, y4);
        let ba = collide_segment_segment(x3, y3, x4, y4, x1, y1, x2, y2);
        assert_eq!(ab, ba);
    }
}

#[test]
fn segment_point_incidence() {
    assert!(collide_segment_point(0, 0, 10, 10, 5, 5));
    assert!(collide_segment_point(0, 0, 10, 10, 0, 0));
    assert!(collide_segment_point(0, 0, 10, 10, 10, 10));
    assert!(!collide_segment_point(0, 0, 10, 10, 5, 6));
    assert!(!collide_segment_point(0, 0, 10, 10, 11, 11));
}

#[test]
fn line_line_delegates_to_segments() {
    let a = Line2d::new(0, 0, 10, 10);
    let b = Line2d::from_points(Point2d::new(0, 10), Point2d::new(10, 0));
    let p = collide_line_line(&a, &b).unwrap();
    assert!(p.x.eq_int(5));
    assert!(p.y.eq_int(5));
}

#[test]
fn quad_corners() {
    let q = Quad2d::new(10, 20, 4, 6);
    assert_eq!(q.top_left(), Point2d::new(8, 23));
    assert_eq!(q.top_right(), Point2d::new(12, 23));
    assert_eq!(q.bottom_left(), Point2d::new(8, 17));
    assert_eq!(q.bottom_right(), Point2d::new(12, 17));
    assert_eq!(q.mid_top(), Point2d::new(10, 23));
    assert_eq!(q.mid_bottom(), Point2d::new(10, 17));
    assert_eq!(q.mid_left(), Point2d::new(8, 20));
    assert_eq!(q.mid_right(), Point2d::new(12, 20));
}

#[test]
fn quad_line_edges() {
    // A vertical segment through the quad's center crosses top and bottom.
    let q = Quad2d::new(0, 0, 10, 10);
    let line = Line2d::new(0, -20, 0, 20);
    let r = collide_quad_line(&q, &line);
    let top = r.get(Collision::Top).unwrap();
    assert!(top.x.eq_int(0) && top.y.eq_int(5));
    let bottom = r.get(Collision::Bottom).unwrap();
    assert!(bottom.x.eq_int(0) && bottom.y.eq_int(-5));
    assert!(r.get(Collision::Left).is_none());
    assert!(r.get(Collision::Right).is_none());
    assert!(!r.is_empty());
}

#[test]
fn quad_line_miss_is_empty() {
    let q = Quad2d::new(0, 0, 10, 10);
    let line = Line2d::new(100, 100, 200, 100);
    assert!(collide_quad_line(&q, &line).is_empty());
}

#[test]
fn sprite_foothold_bottom_anchor_override() {
    // The body rests with its whole bottom edge on flat ground: the bottom
    // entry reports the anchor probe, not the edge intersection.
    let f = fh(-50, 0, 50, 0);
    let r = collide_sprite_foothold(&Point2d::new(0, 5), 10, 10, &f);
    let bottom = r.bottom.unwrap();
    assert!(bottom.x.eq_int(0));
    assert!(bottom.y.eq_int(0));
    assert!(r.top.is_none());
}

#[test]
fn sprite_foothold_side_edge_intersection() {
    // A steep slope cuts through the quad's left edge.
    let f = fh(-10, -20, 10, 20);
    let r = collide_sprite_foothold(&Point2d::new(0, 0), 8, 40, &f);
    let left = r.left.unwrap();
    assert!(left.x.eq_int(-4));
    assert!(left.y.eq_int(-8));
}

#[test]
fn frac_ceil_rounds_up() {
    assert_eq!(Frac { num: 7, den: 2 }.ceil(), 4);
    assert_eq!(Frac { num: -7, den: 2 }.ceil(), -3);
    assert_eq!(Frac { num: 6, den: 2 }.ceil(), 3);
    assert_eq!(Frac { num: 0, den: 5 }.ceil(), 0);
}

#[test]
fn frac_comparisons() {
    let f = Frac { num: 7, den: 2 };
    assert!(f.gt_int(3));
    assert!(f.lt_int(4));
    assert!(f.ge_int(3) && f.le_int(4));
    assert!(!f.eq_int(3));
    assert!(Frac::from_int(3).eq_int(3));
}

#[test]
fn chain_height_first_pair_and_walls() {
    // A strip with a vertical wall: the wall pair is excluded from height
    // queries and the next pair answers at the shared x.
    let points = vec![
        Point2d::new(0, 0),
        Point2d::new(10, 0),
        Point2d::new(10, 50),
        Point2d::new(20, 50),
    ];
    let c = FootholdChain::from_points(&points);
    assert!(c.get_y_at_x(5).unwrap().eq_int(0));
    // At the wall's x the first covering pair is the flat one before it.
    assert!(c.get_y_at_x(10).unwrap().eq_int(0));
    assert!(c.get_y_at_x(15).unwrap().eq_int(50));
    assert!(c.get_y_at_x(25).is_none());
    assert!(c.get_x_in_range(15));
    assert!(!c.get_x_in_range(25));
}
