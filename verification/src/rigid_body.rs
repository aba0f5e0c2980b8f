//! Rigid body state and its per-tick integration.
//!
//! Each tick, gravity and friction are folded into the acceleration, the
//! velocity is advanced and clamped to closed speed limits, and the caller
//! derives a candidate next position from the result. All tuning constants
//! are integers in fixed-point world units (scaled by ten, so that
//! fractional tuning values stay exact); friction applies the ratio
//! `MOVEMENT_FRICTION_NUM / MOVEMENT_FRICTION_DEN`, which lies in `(-1, 0)`,
//! with its magnitude rounded up to a whole unit, so that any nonzero
//! horizontal velocity feels at least one unit of braking and a free body
//! always comes to a stop.

use vstd::prelude::*;

use crate::POS_LIMIT;
use crate::geometry::Point2d;

verus! {

/// Horizontal acceleration applied while a movement key is held.
pub const MOVEMENT_SPEED: i64 = 15;

/// Vertical acceleration impulse applied on the tick a jump starts.
pub const JUMP_FORCE: i64 = 200;

/// Closed horizontal speed limit.
pub const MAX_MOVEMENT_SPEED: i64 = 20;

/// Friction numerator: friction opposes the current horizontal velocity.
/// The ratio `MOVEMENT_FRICTION_NUM / MOVEMENT_FRICTION_DEN` lies strictly
/// between -1 and 0, so friction never reverses a velocity.
pub const MOVEMENT_FRICTION_NUM: i64 = -2;

/// Friction denominator.
pub const MOVEMENT_FRICTION_DEN: i64 = 10;

/// Gravity folded into the vertical acceleration each tick.
pub const GRAVITY: i64 = -4;

/// Closed vertical acceleration limit.
pub const MAX_ACCELERATION: i64 = 80;

/// Fastest downward velocity (negative: downward).
pub const MAX_VELOCITY_DOWN: i64 = -8;

/// Fastest upward velocity.
pub const MAX_VELOCITY_UP: i64 = 8;

/// Velocity and acceleration of a moving body, in world units per tick
/// (and per tick squared).
#[derive(Clone, Copy, Debug, PartialEq, Eq, Structural)]
pub struct RigidBody {
    pub velocity: Point2d,
    pub acceleration: Point2d,
}

impl Default for RigidBody {
    /// A body at rest: zero velocity and zero acceleration.
    fn default() -> (r: RigidBody)
        ensures
            r == (RigidBody {
                velocity: Point2d { x: 0, y: 0 },
                acceleration: Point2d { x: 0, y: 0 },
            }),
    {
        RigidBody {
            velocity: Point2d { x: 0, y: 0 },
            acceleration: Point2d { x: 0, y: 0 },
        }
    }
}

/// All rigid-body fields lie inside the world bounds.
pub open spec fn rb_wf(b: RigidBody) -> bool {
    &&& -POS_LIMIT <= b.velocity.x <= POS_LIMIT
    &&& -POS_LIMIT <= b.velocity.y <= POS_LIMIT
    &&& -POS_LIMIT <= b.acceleration.x <= POS_LIMIT
    &&& -POS_LIMIT <= b.acceleration.y <= POS_LIMIT
}

/// `v` clamped to the closed interval `[lo, hi]`.
pub open spec fn clamp_spec(v: int, lo: int, hi: int) -> int {
    if v < lo {
        lo
    } else if v > hi {
        hi
    } else {
        v
    }
}

/// Division rounding toward zero, for a positive divisor.
pub open spec fn div_trunc(n: int, d: int) -> int {
    if n >= 0 {
        n / d
    } else {
        -((-n) / d)
    }
}

/// The vertical acceleration after one tick.
pub open spec fn step_accel_y(a: int) -> int {
    clamp_spec(a + GRAVITY, -MAX_ACCELERATION as int, MAX_ACCELERATION as int)
}

/// The vertical velocity after one tick.
pub open spec fn step_vel_y(v: int, a: int) -> int {
    clamp_spec(v + step_accel_y(a), MAX_VELOCITY_DOWN as int, MAX_VELOCITY_UP as int)
}

/// The friction term for one tick: the velocity times the friction ratio,
/// its magnitude rounded up to the next whole unit. Rounding up keeps the
/// term nonzero for every nonzero velocity (so friction always brakes) and,
/// because the ratio's magnitude is below one, it still never exceeds the
/// velocity's own magnitude (so friction never reverses it).
pub open spec fn friction_term(v: int) -> int {
    let mag = if v >= 0 {
        v
    } else {
        -v
    };
    let shrink = (mag * -MOVEMENT_FRICTION_NUM + MOVEMENT_FRICTION_DEN - 1) / (
    MOVEMENT_FRICTION_DEN as int);
    if v >= 0 {
        -shrink
    } else {
        shrink
    }
}

/// The horizontal acceleration after one tick: friction opposes the current
/// velocity, driving it toward zero.
pub open spec fn step_accel_x(a: int, v: int) -> int {
    a + friction_term(v)
}

/// The horizontal velocity after one tick.
pub open spec fn step_vel_x(v: int, a: int) -> int {
    clamp_spec(v + step_accel_x(a, v), -MAX_MOVEMENT_SPEED as int, MAX_MOVEMENT_SPEED as int)
}

/// Truncating division shrinks magnitude and keeps sign.
pub proof fn lemma_div_trunc_bound(n: int, d: int)
    requires
        d > 0,
    ensures
        n >= 0 ==> 0 <= div_trunc(n, d) <= n,
        n < 0 ==> n <= div_trunc(n, d) <= 0,
{
    if n >= 0 {
        vstd::arithmetic::div_mod::lemma_div_pos_is_pos(n, d);
        vstd::arithmetic::div_mod::lemma_div_nonincreasing(n, d);
    } else {
        vstd::arithmetic::div_mod::lemma_div_pos_is_pos(-n, d);
        vstd::arithmetic::div_mod::lemma_div_nonincreasing(-n, d);
    }
}

/// Friction stops a free body: with no input force, a zero horizontal
/// velocity stays zero, and a nonzero one keeps its sign and strictly
/// shrinks every tick — so it reaches zero after at most its own magnitude
/// in ticks.
pub proof fn lemma_friction_stops_free_body(v: int)
    requires
        -POS_LIMIT <= v <= POS_LIMIT,
    ensures
        v == 0 ==> step_vel_x(v, 0) == 0,
        v > 0 ==> 0 <= step_vel_x(v, 0) < v,
        v < 0 ==> v < step_vel_x(v, 0) <= 0,
{
    let mag = if v >= 0 {
        v
    } else {
        -v
    };
    let shrink = (mag * 2 + 9) / 10;
    if v == 0 {
        assert(shrink == 0) by {
            vstd::arithmetic::div_mod::lemma_fundamental_div_mod_converse(9, 10, 0, 9);
        }
    } else {
        assert(1 <= shrink <= mag) by {
            vstd::arithmetic::div_mod::lemma_div_is_ordered(10, mag * 2 + 9, 10);
            vstd::arithmetic::div_mod::lemma_fundamental_div_mod_converse(10, 10, 1, 0);
            vstd::arithmetic::div_mod::lemma_div_is_ordered(mag * 2 + 9, mag * 10 + 9, 10);
            vstd::arithmetic::div_mod::lemma_fundamental_div_mod_converse(
                mag * 10 + 9,
                10,
                mag,
                9,
            );
        }
    }
}

/// `v` clamped to the closed interval `[lo, hi]`.
pub fn clamp_i64(v: i64, lo: i64, hi: i64) -> (r: i64)
    requires
        lo <= hi,
    ensures
        r == clamp_spec(v as int, lo as int, hi as int),
{
    if v < lo {
        lo
    } else if v > hi {
        hi
    } else {
        v
    }
}

/// Division rounding toward zero, for a positive divisor.
pub fn div_trunc_i64(n: i64, d: i64) -> (r: i64)
    requires
        d > 0,
        n > i64::MIN,
    ensures
        r == div_trunc(n as int, d as int),
{
    if n >= 0 {
        n / d
    } else {
        proof {
            vstd::arithmetic::div_mod::lemma_div_pos_is_pos(-n as int, d as int);
            vstd::arithmetic::div_mod::lemma_div_nonincreasing(-n as int, d as int);
        }
        -((-n) / d)
    }
}

/// Advances one body by one tick: gravity and friction fold into the
/// acceleration, then the velocity advances under its closed limits.
pub fn rigid_body_step(body: &mut RigidBody)
    requires
        rb_wf(*old(body)),
    ensures
        final(body).acceleration.y == step_accel_y(old(body).acceleration.y as int),
        final(body).velocity.y == step_vel_y(
            old(body).velocity.y as int,
            old(body).acceleration.y as int,
        ),
        final(body).acceleration.x == step_accel_x(
            old(body).acceleration.x as int,
            old(body).velocity.x as int,
        ),
        final(body).velocity.x == step_vel_x(
            old(body).velocity.x as int,
            old(body).acceleration.x as int,
        ),
        -MAX_ACCELERATION <= final(body).acceleration.y <= MAX_ACCELERATION,
        MAX_VELOCITY_DOWN <= final(body).velocity.y <= MAX_VELOCITY_UP,
        -MAX_MOVEMENT_SPEED <= final(body).velocity.x <= MAX_MOVEMENT_SPEED,
        -2 * POS_LIMIT <= final(body).acceleration.x <= 2 * POS_LIMIT,
{
    body.acceleration.y = clamp_i64(
        body.acceleration.y + GRAVITY,
        -MAX_ACCELERATION,
        MAX_ACCELERATION,
    );
    body.velocity.y = clamp_i64(
        body.velocity.y + body.acceleration.y,
        MAX_VELOCITY_DOWN,
        MAX_VELOCITY_UP,
    );
    let mag = if body.velocity.x >= 0 {
        body.velocity.x
    } else {
        -body.velocity.x
    };
    let shrink = (mag * (-MOVEMENT_FRICTION_NUM) + (MOVEMENT_FRICTION_DEN - 1))
        / MOVEMENT_FRICTION_DEN;
    proof {
        vstd::arithmetic::div_mod::lemma_div_pos_is_pos(
            mag * (-MOVEMENT_FRICTION_NUM) + (MOVEMENT_FRICTION_DEN - 1),
            MOVEMENT_FRICTION_DEN as int,
        );
        vstd::arithmetic::div_mod::lemma_div_is_ordered(
            mag * (-MOVEMENT_FRICTION_NUM) + (MOVEMENT_FRICTION_DEN - 1),
            2 * POS_LIMIT + 9,
            MOVEMENT_FRICTION_DEN as int,
        );
    }
    let friction = if body.velocity.x >= 0 {
        -shrink
    } else {
        shrink
    };
    body.acceleration.x = body.acceleration.x + friction;
    body.velocity.x = clamp_i64(
        body.velocity.x + body.acceleration.x,
        -MAX_MOVEMENT_SPEED,
        MAX_MOVEMENT_SPEED,
    );
}

/// Advances every body in the collection by one tick.
pub fn rigid_body_system(bodies: &mut Vec<RigidBody>)
    requires
        forall|i: int| 0 <= i < old(bodies)@.len() ==> rb_wf(#[trigger] old(bodies)@[i]),
    ensures
        final(bodies)@.len() == old(bodies)@.len(),
        forall|i: int|
            0 <= i < old(bodies)@.len() ==> {
                let b0 = #[trigger] old(bodies)@[i];
                let b1 = final(bodies)@[i];
                &&& b1.acceleration.y == step_accel_y(b0.acceleration.y as int)
                &&& b1.velocity.y == step_vel_y(b0.velocity.y as int, b0.acceleration.y as int)
                &&& b1.acceleration.x == step_accel_x(
                    b0.acceleration.x as int,
                    b0.velocity.x as int,
                )
                &&& b1.velocity.x == step_vel_x(b0.velocity.x as int, b0.acceleration.x as int)
            },
{
    let n = bodies.len();
    let mut i: usize = 0;
    while i < n
        invariant
            n == bodies@.len(),
            0 <= i <= n,
            forall|k: int| i <= k < n ==> bodies@[k] == old(bodies)@[k],
            forall|k: int| 0 <= k < n ==> rb_wf(#[trigger] old(bodies)@[k]),
            forall|k: int|
                0 <= k < i ==> {
                    let b0 = #[trigger] old(bodies)@[k];
                    let b1 = bodies@[k];
                    &&& b1.acceleration.y == step_accel_y(b0.acceleration.y as int)
                    &&& b1.velocity.y == step_vel_y(b0.velocity.y as int, b0.acceleration.y as int)
                    &&& b1.acceleration.x == step_accel_x(
                        b0.acceleration.x as int,
                        b0.velocity.x as int,
                    )
                    &&& b1.velocity.x == step_vel_x(b0.velocity.x as int, b0.acceleration.x as int)
                },
        decreases n - i,
    {
        let mut b = bodies[i];
        rigid_body_step(&mut b);
        bodies[i] = b;
        i = i + 1;
    }
}

} // verus!
