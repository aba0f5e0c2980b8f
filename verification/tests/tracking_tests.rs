use foothold::chain::FootholdChain;
use foothold::chain::FootholdLayer;
use foothold::foothold::Foothold;
use foothold::foothold::FootholdContainer;
use foothold::foothold::FootholdId;
use foothold::foothold::add_new_footholds;
use foothold::foothold::container_get_y_at_x;
use foothold::frac::Frac;
use foothold::geometry::Point2d;
use foothold::geometry::Quad2d;
use foothold::layer::player_collider_system;
use foothold::layer::quad_anchor_point;
use foothold::layer::quad_set_pos_from_anchor_point;
use foothold::player::Attachment;
use foothold::player::calculate_fh_collision;
use foothold::player::next_position;
use foothold::player::player_movement_system;
use foothold::player::position_limit_ground_y;
use foothold::player::resolve_ground;
use foothold::player::simulate_tick;
use foothold::rigid_body::GRAVITY;
use foothold::rigid_body::JUMP_FORCE;
use foothold::rigid_body::MAX_VELOCITY_DOWN;
use foothold::rigid_body::MOVEMENT_SPEED;
use foothold::rigid_body::RigidBody;
use foothold::rigid_body::rigid_body_step;
use foothold::rigid_body::rigid_body_system;

const HEIGHT: i64 = 100;
const HALF: i64 = 50;

fn seg(id: u32, x1: i64, y1: i64, x2: i64, y2: i64, prev: u32, next: u32) -> Foothold {
    Foothold { id, x1, y1, x2, y2, prev, next }
}

fn body_at_rest() -> RigidBody {
    RigidBody { velocity: Point2d::new(0, 0), acceleration: Point2d::new(0, 0) }
}

fn flat_ground() -> FootholdContainer {
    let mut c = FootholdContainer::new();
    c.insert(seg(1, -500, 0, 500, 0, 0, 0));
    c
}

#[test]
fn registry_insert_get_replace() {
    let mut c = FootholdContainer::new();
    c.insert(seg(1, 0, 0, 10, 0, 0, 0));
    c.insert(seg(2, 10, 0, 20, 5, 1, 0));
    assert_eq!(c.get(1).unwrap().x2, 10);
    assert_eq!(c.get(2).unwrap().y2, 5);
    assert!(c.get(3).is_none());
    // Registering the same id again replaces the entry.
    c.insert(seg(1, 0, 0, 10, 7, 0, 2));
    assert_eq!(c.get(1).unwrap().y2, 7);
    assert_eq!(c.data.len(), 2);
}

#[test]
fn registry_bulk_load_skips_reserved_id() {
    let mut c = FootholdContainer::new();
    let batch = vec![
        seg(1, 0, 0, 10, 0, 0, 2),
        seg(0, 99, 99, 100, 99, 0, 0),
        seg(2, 10, 0, 20, 0, 1, 0),
    ];
    add_new_footholds(&mut c, &batch);
    assert_eq!(c.data.len(), 2);
    assert!(c.get(0).is_none());
    assert!(c.get(1).is_some());
    assert!(c.get(2).is_some());
}

#[test]
fn container_height_by_id() {
    let c = flat_ground();
    assert!(container_get_y_at_x(&c, 1, 0).unwrap().eq_int(0));
    assert!(container_get_y_at_x(&c, 1, 501).is_none());
    // A stale id yields no height rather than a failure.
    assert!(container_get_y_at_x(&c, 7, 0).is_none());
}

#[test]
fn default_values_are_zeroed() {
    let b = RigidBody::default();
    assert_eq!(b.velocity, Point2d::default());
    assert_eq!(b.acceleration, Point2d::new(0, 0));
    let c = FootholdContainer::default();
    assert!(c.data.is_empty());
}

#[test]
fn integrator_single_tick_values() {
    let mut bodies = vec![body_at_rest()];
    rigid_body_system(&mut bodies);
    let b = &bodies[0];
    assert_eq!(b.acceleration.y, GRAVITY);
    assert_eq!(b.velocity.y, GRAVITY);
    assert_eq!(b.acceleration.x, 0);
    assert_eq!(b.velocity.x, 0);
}

#[test]
fn integrator_clamps_fall_speed() {
    let mut bodies = vec![body_at_rest()];
    for _ in 0..100 {
        rigid_body_system(&mut bodies);
    }
    assert_eq!(bodies[0].velocity.y, MAX_VELOCITY_DOWN);
}

#[test]
fn friction_stops_slow_glide() {
    // With no key held the mapper zeroes the input force each tick, and
    // friction must bring even a slow glide to a complete stop: the
    // magnitude strictly shrinks, the sign never flips.
    for start in [4i64, -4, 1, -1, 20, -20] {
        let mut b = RigidBody {
            velocity: Point2d::new(start, 0),
            acceleration: Point2d::new(0, 0),
        };
        let mut att = Attachment::Airborne;
        let mut ticks = 0;
        while b.velocity.x != 0 {
            let before = b.velocity.x;
            player_movement_system(false, false, false, &mut b, &mut att);
            rigid_body_step(&mut b);
            assert!(b.velocity.x.abs() < before.abs());
            assert!(b.velocity.x.signum() == before.signum() || b.velocity.x == 0);
            ticks += 1;
            assert!(ticks <= start.abs());
        }
    }
}

#[test]
fn friction_exact_decay_sequence() {
    // From 4 units the braking term is one unit per tick: 4, 3, 2, 1, 0.
    let mut b = RigidBody {
        velocity: Point2d::new(4, 0),
        acceleration: Point2d::new(0, 0),
    };
    let mut att = Attachment::Airborne;
    for expected in [3i64, 2, 1, 0, 0] {
        player_movement_system(false, false, false, &mut b, &mut att);
        rigid_body_step(&mut b);
        assert_eq!(b.velocity.x, expected);
    }
}

#[test]
fn movement_mapper_directions() {
    let mut b = body_at_rest();
    let mut att = Attachment::Airborne;
    player_movement_system(true, false, false, &mut b, &mut att);
    assert_eq!(b.acceleration.x, -MOVEMENT_SPEED);
    player_movement_system(false, true, false, &mut b, &mut att);
    assert_eq!(b.acceleration.x, MOVEMENT_SPEED);
    player_movement_system(true, true, false, &mut b, &mut att);
    assert_eq!(b.acceleration.x, MOVEMENT_SPEED);
    player_movement_system(false, false, false, &mut b, &mut att);
    assert_eq!(b.acceleration.x, 0);
}

#[test]
fn movement_mapper_jump_detaches() {
    let mut b = body_at_rest();
    let mut att = Attachment::Grounded(FootholdId(1));
    player_movement_system(false, false, true, &mut b, &mut att);
    assert_eq!(att, Attachment::Airborne);
    assert_eq!(b.acceleration.y, JUMP_FORCE);
}

#[test]
fn ground_clamp_only_on_downward_penetration() {
    let ground = Frac::from_int(0);
    // Anchor would sink below the ground while the center is above: clamp.
    let mut p = Point2d::new(0, HALF - 10);
    position_limit_ground_y(&mut p, HEIGHT, &ground);
    assert_eq!(p, Point2d::new(0, HALF));
    // Anchor above the ground: untouched.
    let mut p2 = Point2d::new(0, HALF + 10);
    position_limit_ground_y(&mut p2, HEIGHT, &ground);
    assert_eq!(p2, Point2d::new(0, HALF + 10));
    // Center already below the ground: untouched (no snap from underneath).
    let mut p3 = Point2d::new(0, -HALF);
    position_limit_ground_y(&mut p3, HEIGHT, &ground);
    assert_eq!(p3, Point2d::new(0, -HALF));
}

#[test]
fn collision_threshold_rejects_distant_heights() {
    // Steep segment: heights under the two anchors differ by 60 > threshold.
    let f = seg(1, 0, 0, 20, 600, 0, 0);
    let cur = Point2d::new(0, 700);
    let nxt = Point2d::new(2, 0);
    assert!(calculate_fh_collision(&f, cur, nxt).is_none());
    // Gentle segment: accepted.
    let g = seg(1, 0, 0, 20, 20, 0, 0);
    let cur2 = Point2d::new(0, 10);
    let nxt2 = Point2d::new(2, 0);
    assert!(calculate_fh_collision(&g, cur2, nxt2).is_some());
}

#[test]
fn resting_equilibrium_under_repeated_ticks() {
    // A body standing on flat ground with no input keeps its exact position.
    let c = flat_ground();
    let mut body = body_at_rest();
    let mut att = Attachment::Grounded(FootholdId(1));
    let mut pos = Point2d::new(0, HALF);
    for _ in 0..50 {
        simulate_tick(&c, false, false, false, &mut body, &mut att, &mut pos, HEIGHT);
        assert_eq!(pos, Point2d::new(0, HALF));
        assert_eq!(att, Attachment::Grounded(FootholdId(1)));
    }
}

#[test]
fn fallback_reattachment_lands_exactly_on_ground() {
    // A body falling from anchor height 1000 straight down attaches on the
    // exact tick its candidate anchor first reaches the ground, and its
    // resolved anchor is exactly 0, never below.
    let c = flat_ground();
    let mut body = body_at_rest();
    let mut att = Attachment::Airborne;
    let mut pos = Point2d::new(0, 1000 + HALF);
    let mut ticks = 0;
    while att == Attachment::Airborne {
        assert!(pos.y - HALF > 0);
        simulate_tick(&c, false, false, false, &mut body, &mut att, &mut pos, HEIGHT);
        ticks += 1;
        assert!(ticks < 1000);
    }
    assert_eq!(att, Attachment::Grounded(FootholdId(1)));
    assert_eq!(pos.y - HALF, 0);
}

#[test]
fn jump_detaches_and_rises_same_tick() {
    // Jumping while grounded clears the attachment before the ground clamp
    // runs, so the body rises on the very tick the jump starts.
    let c = flat_ground();
    let mut body = body_at_rest();
    let mut att = Attachment::Grounded(FootholdId(1));
    let mut pos = Point2d::new(0, HALF);
    simulate_tick(&c, false, false, true, &mut body, &mut att, &mut pos, HEIGHT);
    assert_eq!(att, Attachment::Airborne);
    // Jump impulse clamps to the acceleration limit 80: velocity becomes 8
    // and the candidate rises by 8 + 80 / 2 = 48.
    assert_eq!(pos, Point2d::new(0, HALF + 48));
}

#[test]
fn no_reattachment_from_below() {
    // A body that has tunneled under the ground and keeps moving down must
    // not snap back up onto the segment above it.
    let c = flat_ground();
    let current = Point2d::new(0, -50 + HALF);
    let next = Point2d::new(0, -60 + HALF);
    let r = resolve_ground(&c, Attachment::Airborne, current, next, HEIGHT);
    assert_eq!(r.0, Attachment::Airborne);
    assert_eq!(r.1, next);
}

#[test]
fn handoff_to_linked_neighbor_keeps_grounded() {
    // Two linked segments share the endpoint (100, 0) with different slopes.
    let mut c = FootholdContainer::new();
    c.insert(seg(1, 0, 0, 100, 0, 0, 2));
    c.insert(seg(2, 100, 0, 200, 100, 1, 0));
    // Grounded on 1, moving right past the shared endpoint.
    let current = Point2d::new(95, HALF);
    let next = Point2d::new(105, HALF);
    let r = resolve_ground(&c, Attachment::Grounded(FootholdId(1)), current, next, HEIGHT);
    assert_eq!(r.0, Attachment::Grounded(FootholdId(2)));
    // Ground height on segment 2 at x = 105 is 5: the anchor is clamped
    // there, one small step above the old height, with no airborne frame.
    assert_eq!(r.1, Point2d::new(105, 5 + HALF));
}

#[test]
fn stale_attachment_falls_back_to_scan() {
    let c = flat_ground();
    // Attachment to an id that was never registered: the body is standing on
    // the ground, so the scan reattaches it to the real segment.
    let current = Point2d::new(0, HALF);
    let next = Point2d::new(0, HALF - 6);
    let r = resolve_ground(&c, Attachment::Grounded(FootholdId(42)), current, next, HEIGHT);
    assert_eq!(r.0, Attachment::Grounded(FootholdId(1)));
    assert_eq!(r.1, Point2d::new(0, HALF));
}

#[test]
fn staircase_landing_and_walk() {
    // Three chained footholds forming a shallow staircase going down to the
    // right; the body spawns airborne above the middle one, lands on it, then
    // walks right and hands off from 2 to 3 exactly at the shared boundary.
    let mut c = FootholdContainer::new();
    c.insert(seg(1, -300, 200, -100, 150, 0, 2));
    c.insert(seg(2, -100, 150, 100, 100, 1, 3));
    c.insert(seg(3, 100, 100, 300, 50, 2, 0));
    let mut body = body_at_rest();
    let mut att = Attachment::Airborne;
    let mut pos = Point2d::new(0, 600 + HALF);
    // Fall straight down with no input.
    let mut ticks = 0;
    while att == Attachment::Airborne {
        simulate_tick(&c, false, false, false, &mut body, &mut att, &mut pos, HEIGHT);
        ticks += 1;
        assert!(ticks < 1000);
    }
    assert_eq!(att, Attachment::Grounded(FootholdId(2)));
    // Ground height of segment 2 at x = 0 is 125.
    assert_eq!(pos.y - HALF, 125);
    // Walk right: the body stays grounded on 2 until the boundary at x =
    // 100, hands off to 3 there, and its height never increases downhill.
    let mut last_y = pos.y;
    let mut last_att = att;
    let mut walk_ticks = 0;
    while att != Attachment::Grounded(FootholdId(3)) {
        simulate_tick(&c, false, true, false, &mut body, &mut att, &mut pos, HEIGHT);
        assert!(pos.y <= last_y);
        match (last_att, att) {
            (Attachment::Grounded(FootholdId(2)), Attachment::Grounded(FootholdId(2))) => {
                assert!(pos.x <= 100);
            },
            (Attachment::Grounded(FootholdId(2)), Attachment::Grounded(FootholdId(3))) => {
                assert!(pos.x > 100);
            },
            _ => panic!("unexpected attachment transition"),
        }
        last_y = pos.y;
        last_att = att;
        walk_ticks += 1;
        assert!(walk_ticks < 20);
    }
    // A few more steps stay on segment 3, still descending.
    for _ in 0..3 {
        simulate_tick(&c, false, true, false, &mut body, &mut att, &mut pos, HEIGHT);
        assert_eq!(att, Attachment::Grounded(FootholdId(3)));
        assert!(pos.y <= last_y);
        assert!(pos.x > 100);
        last_y = pos.y;
    }
}

#[test]
fn layer_tracking_prefers_own_layer_then_adopts() {
    // Two overlapping flat strips on different layers: an upper strip on
    // layer 0 and a lower one on layer 1, both spanning the body's x.
    let upper = FootholdChain::from_points(&vec![Point2d::new(-100, 100), Point2d::new(100, 100)]);
    let lower = FootholdChain::from_points(&vec![Point2d::new(-100, 0), Point2d::new(100, 0)]);
    let strips = vec![(lower, FootholdLayer(1)), (upper, FootholdLayer(0))];
    // A body standing on the upper strip and sinking slightly stays in its
    // own layer even though the lower strip is scanned first overall.
    let mut quad = Quad2d::new(0, 100 + HALF, 20, HEIGHT);
    let falling = RigidBody {
        velocity: Point2d::new(0, -6),
        acceleration: Point2d::new(0, 0),
    };
    let r = player_collider_system(&strips, &mut quad, &falling, Some(FootholdLayer(0)));
    assert_eq!(r, Some(FootholdLayer(0)));
    assert_eq!(quad.position, Point2d::new(0, 100 + HALF));
    // A body falling from above the upper strip with no layer adopts the
    // layer of the strip it lands on.
    let mut quad2 = Quad2d::new(0, 104 + HALF, 20, HEIGHT);
    let r2 = player_collider_system(&strips, &mut quad2, &falling, None);
    assert_eq!(r2, Some(FootholdLayer(0)));
    assert_eq!(quad2.position, Point2d::new(0, 100 + HALF));
    // A body far from every strip loses its layer.
    let mut quad3 = Quad2d::new(500, 500, 20, HEIGHT);
    let r3 = player_collider_system(&strips, &mut quad3, &falling, Some(FootholdLayer(0)));
    assert_eq!(r3, None);
    assert_eq!(quad3.position, Point2d::new(500, 494));
}

#[test]
fn quad_anchor_roundtrip() {
    let mut q = Quad2d::new(10, 60, 20, HEIGHT);
    assert_eq!(quad_anchor_point(&q), Point2d::new(10, 10));
    quad_set_pos_from_anchor_point(&mut q, Some(30), Some(Frac { num: 5, den: 2 }));
    // The anchor height 5/2 rounds up to 3.
    assert_eq!(q.position, Point2d::new(30, 3 + HALF));
    assert_eq!(quad_anchor_point(&q), Point2d::new(30, 3));
}

#[test]
fn candidate_position_uses_half_acceleration() {
    let body = RigidBody {
        velocity: Point2d::new(10, -3),
        acceleration: Point2d::new(5, -7),
    };
    let p = next_position(Point2d::new(100, 200), &body);
    // Halves round toward zero: 5 / 2 = 2 and -7 / 2 = -3.
    assert_eq!(p, Point2d::new(112, 194));
}
