//! The per-tick ground-tracking state machine.
//!
//! Given a body's current center position and the candidate next center
//! position produced by the integrator, the state machine decides whether
//! the body stays attached to its current foothold, hands off to a linked
//! neighbor, detaches, or reattaches through a fallback scan over the whole
//! registry — and clamps the position so the body's anchor (bottom-center
//! point) never sinks below the ground it stands on.

use vstd::prelude::*;

use crate::COORD_LIMIT;
use crate::POS_LIMIT;
use crate::foothold::FootholdContainer;
use crate::foothold::FootholdId;
use crate::foothold::Foothold;
use crate::foothold::container_get_y_at_x;
use crate::foothold::container_wf;
use crate::foothold::fh_covers;
use crate::foothold::fh_den;
use crate::foothold::fh_height_num;
use crate::foothold::fh_lookup;
use crate::foothold::fh_wf;
use crate::foothold::lemma_height_bounds;
use crate::frac::DEN_CMP_LIMIT;
use crate::frac::Frac;
use crate::frac::frac_ceil;
use crate::frac::frac_ge_int;
use crate::frac::frac_le_int;
use crate::frac::frac_wf;
use crate::geometry::Point2d;
use crate::geometry::point_in_bounds;
use crate::rigid_body::JUMP_FORCE;
use crate::rigid_body::MOVEMENT_SPEED;
use crate::rigid_body::RigidBody;
use crate::rigid_body::div_trunc;
use crate::rigid_body::div_trunc_i64;
use crate::rigid_body::lemma_div_trunc_bound;
use crate::rigid_body::rb_wf;
use crate::rigid_body::rigid_body_step;
use crate::rigid_body::step_accel_x;
use crate::rigid_body::step_accel_y;
use crate::rigid_body::step_vel_x;
use crate::rigid_body::step_vel_y;

verus! {

/// Ground-tracking state: standing on one specific foothold, or airborne.
#[derive(Clone, Copy, Debug, PartialEq, Eq, Structural)]
pub enum Attachment {
    Grounded(FootholdId),
    Airborne,
}

/// Largest difference between the ground heights under the current and next
/// anchor below which the fallback scan accepts a segment. Guards against
/// absurd interpolation jumps across unrelated distant segments that happen
/// to share an x span.
pub const COLLISION_THRESHOLD: i64 = 40;

/// The ground clamp on a body's center height `cy` with half-height `half`,
/// against the ground height `num / den`: when the anchor `cy - half` would
/// end up below the ground while the center is still above it, the anchor is
/// snapped to the ground height rounded up; otherwise `cy` is unchanged.
pub open spec fn ground_clamp(cy: int, half: int, num: int, den: int) -> int {
    if (cy - half) * den < num && cy * den > num {
        (num + den - 1) / den + half
    } else {
        cy
    }
}

/// The fallback-scan predicate on anchor points: the segment covers both
/// anchor xs, the two ground heights differ by less than the threshold, and
/// the move crosses the ground from above (anchor at or above the ground
/// before the move, at or below it after).
pub open spec fn fh_collides(fh: Foothold, cx: int, cy: int, nx: int, ny: int) -> bool {
    let d = fh_den(fh);
    let hc = fh_height_num(fh, cx);
    let hn = fh_height_num(fh, nx);
    &&& fh_covers(fh, cx)
    &&& fh_covers(fh, nx)
    &&& -(COLLISION_THRESHOLD * d) < hc - hn < COLLISION_THRESHOLD * d
    &&& cy * d >= hc
    &&& ny * d <= hn
}

/// Index of the first foothold in registry order that the move collides
/// with, if any.
pub open spec fn scan_first(s: Seq<Foothold>, cx: int, cy: int, nx: int, ny: int) -> Option<int>
    decreases s.len(),
{
    if s.len() == 0 {
        None
    } else if fh_collides(s[0], cx, cy, nx, ny) {
        Some(0)
    } else {
        match scan_first(s.drop_first(), cx, cy, nx, ny) {
            Some(i) => Some(i + 1),
            None => None,
        }
    }
}

/// [`scan_first`] returns the index of the first colliding foothold: the
/// entry at the index collides and no earlier entry does; `None` means no
/// entry collides.
pub proof fn lemma_scan_first_char(s: Seq<Foothold>, cx: int, cy: int, nx: int, ny: int)
    ensures
        match scan_first(s, cx, cy, nx, ny) {
            Some(i) => 0 <= i < s.len() && fh_collides(s[i], cx, cy, nx, ny) && forall|j: int|
                0 <= j < i ==> !fh_collides(s[j], cx, cy, nx, ny),
            None => forall|j: int| 0 <= j < s.len() ==> !fh_collides(s[j], cx, cy, nx, ny),
        },
    decreases s.len(),
{
    if s.len() > 0 && !fh_collides(s[0], cx, cy, nx, ny) {
        let t = s.drop_first();
        lemma_scan_first_char(t, cx, cy, nx, ny);
        assert(forall|j: int| 0 <= j < t.len() ==> t[j] == s[j + 1]);
        match scan_first(t, cx, cy, nx, ny) {
            Some(i) => {
                assert forall|j: int| 0 <= j < i + 1 implies !fh_collides(
                    s[j],
                    cx,
                    cy,
                    nx,
                    ny,
                ) by {
                    if j > 0 {
                        assert(s[j] == t[j - 1]);
                    }
                }
            },
            None => {
                assert forall|j: int| 0 <= j < s.len() implies !fh_collides(
                    s[j],
                    cx,
                    cy,
                    nx,
                    ny,
                ) by {
                    if j > 0 {
                        assert(s[j] == t[j - 1]);
                    }
                }
            },
        }
    }
}

/// Applies the ground clamp to a body's center position, in place.
///
/// `y` is the ground height under the candidate position; `height` is the
/// body's (even) height. The x coordinate is never touched.
pub fn position_limit_ground_y(position: &mut Point2d, height: i64, y: &Frac)
    requires
        point_in_bounds(*old(position)),
        0 <= height <= POS_LIMIT,
        height % 2 == 0,
        frac_wf(*y),
        y.den <= DEN_CMP_LIMIT,
        frac_ge_int(*y, -COORD_LIMIT as int),
        frac_le_int(*y, COORD_LIMIT as int),
    ensures
        final(position).x == old(position).x,
        final(position).y as int == ground_clamp(
            old(position).y as int,
            (height / 2) as int,
            y.num as int,
            y.den as int,
        ),
        point_in_bounds(*final(position)),
{
    let half = height / 2;
    let bottom_y = position.y - half;
    if y.gt_int(bottom_y) && y.lt_int(position.y) {
        proof {
            lemma_ceil_coord_bounds(*y);
        }
        let c = y.ceil();
        position.y = c + half;
    }
}

/// A ground height bounded by the coordinate limits has its ceiling inside
/// them too, so it is far inside the `i64` range.
pub proof fn lemma_ceil_coord_bounds(f: Frac)
    requires
        frac_wf(f),
        frac_ge_int(f, -COORD_LIMIT as int),
        frac_le_int(f, COORD_LIMIT as int),
    ensures
        -COORD_LIMIT <= frac_ceil(f) <= COORD_LIMIT,
        frac_ge_int(f, i64::MIN as int),
        frac_le_int(f, i64::MAX as int),
{
    let n = f.num as int;
    let d = f.den as int;
    let c = frac_ceil(f);
    assert(d * (c - 1) < n && n <= d * c) by {
        crate::frac::lemma_frac_ceil_between(f);
    }
    assert(c <= COORD_LIMIT) by (nonlinear_arith)
        requires
            d > 0,
            n <= COORD_LIMIT * d,
            d * (c - 1) < n;
    assert(c >= -COORD_LIMIT) by (nonlinear_arith)
        requires
            d > 0,
            n >= -COORD_LIMIT * d,
            n <= d * c;
    assert(n >= (i64::MIN as int) * d && n <= (i64::MAX as int) * d) by (nonlinear_arith)
        requires
            d > 0,
            -COORD_LIMIT * d <= n <= COORD_LIMIT * d;
}

/// Tests one foothold against a falling move given by the current and next
/// anchor points, and returns the ground height under the next anchor on
/// collision.
pub fn calculate_fh_collision(foothold: &Foothold, current: Point2d, next: Point2d) -> (r: Option<
    Frac,
>)
    requires
        fh_wf(*foothold),
        -2 * POS_LIMIT <= current.x <= 2 * POS_LIMIT,
        -2 * POS_LIMIT <= current.y <= 2 * POS_LIMIT,
        -2 * POS_LIMIT <= next.x <= 2 * POS_LIMIT,
        -2 * POS_LIMIT <= next.y <= 2 * POS_LIMIT,
    ensures
        r is Some <==> fh_collides(
            *foothold,
            current.x as int,
            current.y as int,
            next.x as int,
            next.y as int,
        ),
        match r {
            Some(f) => {
                &&& f.num == fh_height_num(*foothold, next.x as int)
                &&& f.den == fh_den(*foothold)
                &&& frac_wf(f)
                &&& f.den <= DEN_CMP_LIMIT
            },
            None => true,
        },
{
    let current_fh_y = foothold.get_y_at_x(current.x);
    let next_fh_y = foothold.get_y_at_x(next.x);
    if let (Some(hc), Some(hn)) = (current_fh_y, next_fh_y) {
        proof {
            lemma_height_bounds(*foothold, current.x as int);
            lemma_height_bounds(*foothold, next.x as int);
            crate::frac::lemma_mul_range(
                COORD_LIMIT as int,
                fh_den(*foothold),
                COORD_LIMIT as int,
                2 * COORD_LIMIT as int,
            );
            crate::frac::lemma_mul_range(
                COLLISION_THRESHOLD as int,
                fh_den(*foothold),
                COLLISION_THRESHOLD as int,
                2 * COORD_LIMIT as int,
            );
        }
        let t = (COLLISION_THRESHOLD as i128) * hc.den;
        let diff = hc.num - hn.num;
        if -t < diff && diff < t {
            if hc.le_int(current.y) && hn.ge_int(next.y) {
                return Some(hn);
            }
        }
        None
    } else {
        None
    }
}

/// Outcome of the fallback scan, given the body's current and candidate
/// center coordinates and half-height: the first colliding foothold in
/// registry order and the clamped center height, or airborne with the
/// candidate height unchanged.
pub open spec fn scan_result(
    s: Seq<Foothold>,
    cx: int,
    cy: int,
    nx: int,
    ny: int,
    half: int,
) -> (Attachment, int) {
    match scan_first(s, cx, cy - half, nx, ny - half) {
        Some(i) => (
            Attachment::Grounded(FootholdId(s[i].id)),
            ground_clamp(ny, half, fh_height_num(s[i], nx), fh_den(s[i])),
        ),
        None => (Attachment::Airborne, ny),
    }
}

/// The whole per-tick transition on (attachment, center height), given the
/// current and candidate center coordinates.
///
/// From `Grounded(id)`: if the tracked segment covers the candidate x, stay
/// and clamp; else hand off to the `prev`, then the `next` neighbor when one
/// covers it; else (including a stale id that is no longer registered) fall
/// through to the scan. From `Airborne`: scan.
pub open spec fn resolve_spec(
    s: Seq<Foothold>,
    att: Attachment,
    cx: int,
    cy: int,
    nx: int,
    ny: int,
    height: int,
) -> (Attachment, int) {
    let half = height / 2;
    match att {
        Attachment::Grounded(fid) => match fh_lookup(s, fid.0) {
            Some(fh) => {
                if fh_covers(fh, nx) {
                    (att, ground_clamp(ny, half, fh_height_num(fh, nx), fh_den(fh)))
                } else if fh_lookup(s, fh.prev) is Some && fh_covers(
                    fh_lookup(s, fh.prev).unwrap(),
                    nx,
                ) {
                    let p = fh_lookup(s, fh.prev).unwrap();
                    (
                        Attachment::Grounded(FootholdId(fh.prev)),
                        ground_clamp(ny, half, fh_height_num(p, nx), fh_den(p)),
                    )
                } else if fh_lookup(s, fh.next) is Some && fh_covers(
                    fh_lookup(s, fh.next).unwrap(),
                    nx,
                ) {
                    let q = fh_lookup(s, fh.next).unwrap();
                    (
                        Attachment::Grounded(FootholdId(fh.next)),
                        ground_clamp(ny, half, fh_height_num(q, nx), fh_den(q)),
                    )
                } else {
                    scan_result(s, cx, cy, nx, ny, half)
                }
            },
            None => scan_result(s, cx, cy, nx, ny, half),
        },
        Attachment::Airborne => scan_result(s, cx, cy, nx, ny, half),
    }
}

/// The fallback full scan: attaches to the first colliding foothold in
/// registry order and clamps the candidate position to its ground height;
/// with no collision the body stays airborne on the unmodified candidate.
fn scan_footholds(container: &FootholdContainer, current: Point2d, next: Point2d, height: i64) -> (r:
    (Attachment, Point2d))
    requires
        container_wf(*container),
        point_in_bounds(current),
        point_in_bounds(next),
        0 <= height <= POS_LIMIT,
        height % 2 == 0,
    ensures
        ({
            let sr = scan_result(
                container.data@,
                current.x as int,
                current.y as int,
                next.x as int,
                next.y as int,
                (height / 2) as int,
            );
            &&& r.0 == sr.0
            &&& r.1.x == next.x
            &&& r.1.y as int == sr.1
            &&& point_in_bounds(r.1)
        }),
{
    let half = height / 2;
    let current_anchor = Point2d { x: current.x, y: current.y - half };
    let next_anchor = Point2d { x: next.x, y: next.y - half };
    let ghost s = container.data@;
    let n = container.data.len();
    let mut i: usize = 0;
    while i < n
        invariant
            container_wf(*container),
            s == container.data@,
            n == s.len(),
            point_in_bounds(current),
            point_in_bounds(next),
            0 <= height <= POS_LIMIT,
            height % 2 == 0,
            half == height / 2,
            current_anchor.x == current.x,
            current_anchor.y == current.y - half,
            next_anchor.x == next.x,
            next_anchor.y == next.y - half,
            0 <= i <= n,
            forall|j: int|
                0 <= j < i ==> !fh_collides(
                    s[j],
                    current_anchor.x as int,
                    current_anchor.y as int,
                    next_anchor.x as int,
                    next_anchor.y as int,
                ),
        decreases n - i,
    {
        let fh = container.data[i];
        match calculate_fh_collision(&fh, current_anchor, next_anchor) {
            Some(y) => {
                proof {
                    lemma_height_bounds(fh, next_anchor.x as int);
                    lemma_scan_first_char(
                        s,
                        current_anchor.x as int,
                        current_anchor.y as int,
                        next_anchor.x as int,
                        next_anchor.y as int,
                    );
                }
                let mut pos = next;
                position_limit_ground_y(&mut pos, height, &y);
                return (Attachment::Grounded(FootholdId(fh.id)), pos);
            },
            None => {},
        }
        i = i + 1;
    }
    proof {
        lemma_scan_first_char(
            s,
            current_anchor.x as int,
            current_anchor.y as int,
            next_anchor.x as int,
            next_anchor.y as int,
        );
    }
    (Attachment::Airborne, next)
}

/// Resolves one tick of ground tracking: from the current attachment, the
/// current center position and the candidate next center position, returns
/// the new attachment and the resolved (possibly clamped) next position.
///
/// The resolution is total: a stale attachment id degrades to the fallback
/// scan, never to a failure.
pub fn resolve_ground(
    container: &FootholdContainer,
    attachment: Attachment,
    current: Point2d,
    next: Point2d,
    height: i64,
) -> (r: (Attachment, Point2d))
    requires
        container_wf(*container),
        point_in_bounds(current),
        point_in_bounds(next),
        0 <= height <= POS_LIMIT,
        height % 2 == 0,
    ensures
        ({
            let rs = resolve_spec(
                container.data@,
                attachment,
                current.x as int,
                current.y as int,
                next.x as int,
                next.y as int,
                height as int,
            );
            &&& r.0 == rs.0
            &&& r.1.x == next.x
            &&& r.1.y as int == rs.1
            &&& point_in_bounds(r.1)
        }),
{
    let ghost s = container.data@;
    match attachment {
        Attachment::Grounded(fid) => {
            match container.get(fid.0) {
                Some(fh_ref) => {
                    let fh = *fh_ref;
                    proof {
                        crate::foothold::lemma_lookup_found(s, fid.0);
                    }
                    if let Some(y) = fh.get_y_at_x(next.x) {
                        proof {
                            lemma_height_bounds(fh, next.x as int);
                        }
                        let mut pos = next;
                        position_limit_ground_y(&mut pos, height, &y);
                        (attachment, pos)
                    } else if let Some(y) = container_get_y_at_x(container, fh.prev, next.x) {
                        proof {
                            crate::foothold::lemma_lookup_found(s, fh.prev);
                            lemma_height_bounds(fh_lookup(s, fh.prev).unwrap(), next.x as int);
                        }
                        let mut pos = next;
                        position_limit_ground_y(&mut pos, height, &y);
                        (Attachment::Grounded(FootholdId(fh.prev)), pos)
                    } else if let Some(y) = container_get_y_at_x(container, fh.next, next.x) {
                        proof {
                            crate::foothold::lemma_lookup_found(s, fh.next);
                            lemma_height_bounds(fh_lookup(s, fh.next).unwrap(), next.x as int);
                        }
                        let mut pos = next;
                        position_limit_ground_y(&mut pos, height, &y);
                        (Attachment::Grounded(FootholdId(fh.next)), pos)
                    } else {
                        scan_footholds(container, current, next, height)
                    }
                },
                None => scan_footholds(container, current, next, height),
            }
        },
        Attachment::Airborne => scan_footholds(container, current, next, height),
    }
}

/// Maps the tick's pressed movement keys onto the body: horizontal
/// acceleration follows the held direction (right wins when both are held,
/// none means zero), and a jump detaches the body immediately — so the body
/// is not re-clamped to the ground on the very tick the jump starts — and
/// applies the upward impulse.
pub fn player_movement_system(
    left: bool,
    right: bool,
    jump: bool,
    body: &mut RigidBody,
    attachment: &mut Attachment,
)
    ensures
        final(body).velocity == old(body).velocity,
        final(body).acceleration.x as int == (
        if right {
            MOVEMENT_SPEED as int
        } else if left {
            -(MOVEMENT_SPEED as int)
        } else {
            0int
        }),
        final(body).acceleration.y == (
        if jump {
            JUMP_FORCE
        } else {
            old(body).acceleration.y
        }),
        *final(attachment) == (
        if jump {
            Attachment::Airborne
        } else {
            *old(attachment)
        }),
{
    if left {
        body.acceleration.x = -MOVEMENT_SPEED;
    }
    if right {
        body.acceleration.x = MOVEMENT_SPEED;
    }
    if !left && !right {
        body.acceleration.x = 0;
    }
    if jump {
        *attachment = Attachment::Airborne;
        body.acceleration.y = JUMP_FORCE;
    }
}

/// x coordinate of the candidate next center: current plus velocity plus
/// half the acceleration (the semi-implicit cross term), the half rounded
/// toward zero.
pub open spec fn candidate_x(p: Point2d, b: RigidBody) -> int {
    p.x + b.velocity.x + div_trunc(b.acceleration.x as int, 2)
}

/// y coordinate of the candidate next center.
pub open spec fn candidate_y(p: Point2d, b: RigidBody) -> int {
    p.y + b.velocity.y + div_trunc(b.acceleration.y as int, 2)
}

/// Computes the candidate next center position from the integrated body.
pub fn next_position(position: Point2d, body: &RigidBody) -> (r: Point2d)
    requires
        point_in_bounds(position),
        -2 * POS_LIMIT <= body.velocity.x <= 2 * POS_LIMIT,
        -2 * POS_LIMIT <= body.velocity.y <= 2 * POS_LIMIT,
        -2 * POS_LIMIT <= body.acceleration.x <= 2 * POS_LIMIT,
        -2 * POS_LIMIT <= body.acceleration.y <= 2 * POS_LIMIT,
        -POS_LIMIT <= candidate_x(position, *body) <= POS_LIMIT,
        -POS_LIMIT <= candidate_y(position, *body) <= POS_LIMIT,
    ensures
        r.x as int == candidate_x(position, *body),
        r.y as int == candidate_y(position, *body),
        point_in_bounds(r),
{
    proof {
        lemma_div_trunc_bound(body.acceleration.x as int, 2);
        lemma_div_trunc_bound(body.acceleration.y as int, 2);
    }
    let dx = div_trunc_i64(body.acceleration.x, 2);
    let dy = div_trunc_i64(body.acceleration.y, 2);
    Point2d { x: position.x + body.velocity.x + dx, y: position.y + body.velocity.y + dy }
}

/// One full ground-tracking pass: computes the candidate next position from
/// the integrated body, resolves attachment, hand-off, detachment or
/// fallback reattachment, and commits the resolved position — all within the
/// same tick, so the attachment is never left stale across a tick boundary.
pub fn player_foothold_collision_system(
    container: &FootholdContainer,
    attachment: &mut Attachment,
    position: &mut Point2d,
    body: &RigidBody,
    height: i64,
)
    requires
        container_wf(*container),
        point_in_bounds(*old(position)),
        -2 * POS_LIMIT <= body.velocity.x <= 2 * POS_LIMIT,
        -2 * POS_LIMIT <= body.velocity.y <= 2 * POS_LIMIT,
        -2 * POS_LIMIT <= body.acceleration.x <= 2 * POS_LIMIT,
        -2 * POS_LIMIT <= body.acceleration.y <= 2 * POS_LIMIT,
        -POS_LIMIT <= candidate_x(*old(position), *body) <= POS_LIMIT,
        -POS_LIMIT <= candidate_y(*old(position), *body) <= POS_LIMIT,
        0 <= height <= POS_LIMIT,
        height % 2 == 0,
    ensures
        ({
            let nx = candidate_x(*old(position), *body);
            let ny = candidate_y(*old(position), *body);
            let rs = resolve_spec(
                container.data@,
                *old(attachment),
                old(position).x as int,
                old(position).y as int,
                nx,
                ny,
                height as int,
            );
            &&& *final(attachment) == rs.0
            &&& final(position).x as int == nx
            &&& final(position).y as int == rs.1
            &&& point_in_bounds(*final(position))
        }),
{
    let next = next_position(*position, body);
    let resolved = resolve_ground(container, *attachment, *position, next, height);
    *attachment = resolved.0;
    *position = resolved.1;
}

/// Advances the whole simulation by one tick, in the per-frame order: input
/// mapping, integration, ground tracking, position commit.
pub fn simulate_tick(
    container: &FootholdContainer,
    left: bool,
    right: bool,
    jump: bool,
    body: &mut RigidBody,
    attachment: &mut Attachment,
    position: &mut Point2d,
    height: i64,
)
    requires
        container_wf(*container),
        -POS_LIMIT / 2 <= old(position).x <= POS_LIMIT / 2,
        -POS_LIMIT / 2 <= old(position).y <= POS_LIMIT / 2,
        rb_wf(*old(body)),
        0 <= height <= POS_LIMIT,
        height % 2 == 0,
    ensures
        ({
            let ax0: int = if right {
                MOVEMENT_SPEED as int
            } else if left {
                -MOVEMENT_SPEED as int
            } else {
                0
            };
            let ay0: int = if jump {
                JUMP_FORCE as int
            } else {
                old(body).acceleration.y as int
            };
            let att0 = if jump {
                Attachment::Airborne
            } else {
                *old(attachment)
            };
            let vx0 = old(body).velocity.x as int;
            let vy0 = old(body).velocity.y as int;
            let ax1 = step_accel_x(ax0, vx0);
            let ay1 = step_accel_y(ay0);
            let vx1 = step_vel_x(vx0, ax0);
            let vy1 = step_vel_y(vy0, ay0);
            let nx = old(position).x + vx1 + div_trunc(ax1, 2);
            let ny = old(position).y + vy1 + div_trunc(ay1, 2);
            let rs = resolve_spec(
                container.data@,
                att0,
                old(position).x as int,
                old(position).y as int,
                nx,
                ny,
                height as int,
            );
            &&& final(body).acceleration.x == ax1
            &&& final(body).acceleration.y == ay1
            &&& final(body).velocity.x == vx1
            &&& final(body).velocity.y == vy1
            &&& *final(attachment) == rs.0
            &&& final(position).x as int == nx
            &&& final(position).y as int == rs.1
            &&& point_in_bounds(*final(position))
        }),
{
    player_movement_system(left, right, jump, body, attachment);
    rigid_body_step(body);
    proof {
        lemma_div_trunc_bound(body.acceleration.x as int, 2);
        lemma_div_trunc_bound(body.acceleration.y as int, 2);
    }
    player_foothold_collision_system(container, attachment, position, body, height);
}

/// The ground clamp resolves vertical penetration and nothing else: either
/// it leaves the candidate center untouched, or it lifts the body (never
/// pushes it down) until its anchor sits at or above the ground height.
pub proof fn lemma_ground_clamp_no_penetration(cy: int, half: int, num: int, den: int)
    requires
        den > 0,
    ensures
        ({
            let r = ground_clamp(cy, half, num, den);
            r == cy || ((r - half) * den >= num && r > cy)
        }),
{
    if (cy - half) * den < num && cy * den > num {
        let c = (num + den - 1) / den;
        crate::frac::lemma_ceil_quotient_props(num, den);
        assert((c + half - half) * den >= num) by (nonlinear_arith)
            requires
                den > 0,
                num <= den * c;
        assert(cy - half < c) by (nonlinear_arith)
            requires
                den > 0,
                (cy - half) * den < num,
                num <= den * c;
    }
}

/// The attachment is never left stale: whenever a tick's resolution reports
/// the body grounded, the reported id is registered and its segment covers
/// the resolved x coordinate. An attachment that would no longer be valid is
/// always replaced or cleared within the same tick.
pub proof fn lemma_resolve_attachment_valid(
    s: Seq<Foothold>,
    att: Attachment,
    cx: int,
    cy: int,
    nx: int,
    ny: int,
    height: int,
)
    requires
        forall|i: int| 0 <= i < s.len() ==> fh_wf(#[trigger] s[i]) && s[i].id != 0,
        crate::foothold::unique_ids(s),
    ensures
        match resolve_spec(s, att, cx, cy, nx, ny, height).0 {
            Attachment::Grounded(fid) => fh_lookup(s, fid.0) is Some && fh_covers(
                fh_lookup(s, fid.0).unwrap(),
                nx,
            ),
            Attachment::Airborne => true,
        },
{
    let half = height / 2;
    lemma_scan_first_char(s, cx, cy - half, nx, ny - half);
    match scan_first(s, cx, cy - half, nx, ny - half) {
        Some(i) => {
            crate::foothold::lemma_lookup_char(s, s[i].id);
        },
        None => {},
    }
}

/// Resting equilibrium: a body standing on its tracked segment, with its
/// anchor exactly at the (integer-valued) ground height, no horizontal
/// motion and no upward motion, is returned to exactly the same position by
/// the next tick's integration and ground clamp, and stays grounded on the
/// same segment. The body must be tall enough that one tick's fall cannot
/// carry its center below the ground line.
///
/// The final clauses re-establish every assumption about the body for the
/// post-tick state, so by induction the equilibrium persists over every
/// further tick with the same (absent) input.
pub proof fn lemma_resting_equilibrium(
    s: Seq<Foothold>,
    id: u32,
    px: int,
    py: int,
    height: int,
    vy0: int,
    ay0: int,
)
    requires
        98 <= height <= POS_LIMIT,
        height % 2 == 0,
        -POS_LIMIT <= py <= POS_LIMIT,
        fh_lookup(s, id) is Some,
        fh_covers(fh_lookup(s, id).unwrap(), px),
        (py - height / 2) * fh_den(fh_lookup(s, id).unwrap()) == fh_height_num(
            fh_lookup(s, id).unwrap(),
            px,
        ),
        fh_den(fh_lookup(s, id).unwrap()) > 0,
        vy0 <= 0,
        ay0 <= 0,
        -POS_LIMIT <= ay0,
    ensures
        ({
            let ay1 = step_accel_y(ay0);
            let vy1 = step_vel_y(vy0, ay0);
            let ny = py + vy1 + div_trunc(ay1, 2);
            let rs = resolve_spec(s, Attachment::Grounded(FootholdId(id)), px, py, px, ny, height);
            &&& rs.0 == Attachment::Grounded(FootholdId(id))
            &&& rs.1 == py
            &&& step_vel_y(vy0, ay0) <= 0
            &&& -POS_LIMIT <= step_accel_y(ay0) <= 0
        }),
{
    let fh = fh_lookup(s, id).unwrap();
    let half = height / 2;
    let den = fh_den(fh);
    let num = fh_height_num(fh, px);
    let ay1 = step_accel_y(ay0);
    let vy1 = step_vel_y(vy0, ay0);
    assert(-80 <= ay1 <= -4);
    assert(-8 <= vy1 <= -4);
    let dt = div_trunc(ay1, 2);
    assert(dt == -((-ay1) / 2));
    assert(2 <= (-ay1) / 2 <= 40) by {
        vstd::arithmetic::div_mod::lemma_div_is_ordered(4, -ay1, 2);
        vstd::arithmetic::div_mod::lemma_div_is_ordered(-ay1, 80, 2);
    }
    let ny = py + vy1 + dt;
    assert(py - 48 <= ny <= py - 6);
    let rs = resolve_spec(s, Attachment::Grounded(FootholdId(id)), px, py, px, ny, height);
    assert(rs == (
        Attachment::Grounded(FootholdId(id)),
        ground_clamp(ny, half, num, den),
    ));
    assert((ny - half) * den < num && ny * den > num) by (nonlinear_arith)
        requires
            den > 0,
            num == (py - half) * den,
            py - 48 <= ny <= py - 6,
            half >= 49;
    assert((num + den - 1) / den == py - half) by {
        vstd::arithmetic::div_mod::lemma_fundamental_div_mod_converse(
            num + den - 1,
            den,
            py - half,
            den - 1,
        );
        assert((py - half) * den + (den - 1) == num + den - 1) by (nonlinear_arith)
            requires
                num == (py - half) * den;
    }
    assert(ground_clamp(ny, half, num, den) == py);
}

/// The body's vertical state `(acceleration.y, velocity.y)` after `n` ticks
/// with no input: gravity folds in and the closed limits clamp, while the
/// resting clamp keeps the position itself fixed.
pub open spec fn resting_vertical_state(ay0: int, vy0: int, n: nat) -> (int, int)
    decreases n,
{
    if n == 0 {
        (ay0, vy0)
    } else {
        let prev = resting_vertical_state(ay0, vy0, (n - 1) as nat);
        (step_accel_y(prev.0), step_vel_y(prev.1, prev.0))
    }
}

/// A resting body's vertical state stays in the gravity regime: with no
/// upward motion to begin with, the clamped acceleration and velocity never
/// point upward on any later tick.
proof fn lemma_resting_state_bounds(ay0: int, vy0: int, n: nat)
    requires
        -POS_LIMIT <= ay0 <= 0,
        vy0 <= 0,
    ensures
        ({
            let st = resting_vertical_state(ay0, vy0, n);
            &&& -POS_LIMIT <= st.0 <= 0
            &&& st.1 <= 0
        }),
    decreases n,
{
    if n > 0 {
        lemma_resting_state_bounds(ay0, vy0, (n - 1) as nat);
    }
}

/// Resting equilibrium over every later tick: under the conditions of
/// [`lemma_resting_equilibrium`], each of the following ticks — with the
/// body's vertical state evolved by gravity under its clamps, and still no
/// horizontal motion — again resolves to exactly the same position, still
/// grounded on the same segment.
pub proof fn lemma_resting_equilibrium_forever(
    s: Seq<Foothold>,
    id: u32,
    px: int,
    py: int,
    height: int,
    vy0: int,
    ay0: int,
    n: nat,
)
    requires
        98 <= height <= POS_LIMIT,
        height % 2 == 0,
        -POS_LIMIT <= py <= POS_LIMIT,
        fh_lookup(s, id) is Some,
        fh_covers(fh_lookup(s, id).unwrap(), px),
        (py - height / 2) * fh_den(fh_lookup(s, id).unwrap()) == fh_height_num(
            fh_lookup(s, id).unwrap(),
            px,
        ),
        fh_den(fh_lookup(s, id).unwrap()) > 0,
        vy0 <= 0,
        -POS_LIMIT <= ay0 <= 0,
    ensures
        ({
            let st = resting_vertical_state(ay0, vy0, n);
            let ay1 = step_accel_y(st.0);
            let vy1 = step_vel_y(st.1, st.0);
            let ny = py + vy1 + div_trunc(ay1, 2);
            let rs = resolve_spec(s, Attachment::Grounded(FootholdId(id)), px, py, px, ny, height);
            &&& rs.0 == Attachment::Grounded(FootholdId(id))
            &&& rs.1 == py
        }),
{
    lemma_resting_state_bounds(ay0, vy0, n);
    let st = resting_vertical_state(ay0, vy0, n);
    lemma_resting_equilibrium(s, id, px, py, height, st.1, st.0);
}

/// Hand-off keeps the body grounded: while the body is attached to a
/// registered segment and either that segment or one of its linked
/// neighbors covers the candidate x, the tick's resolution never reports
/// the body airborne — it stays on its segment or hands off to the covering
/// neighbor.
pub proof fn lemma_handoff_keeps_grounded(
    s: Seq<Foothold>,
    id: u32,
    cx: int,
    cy: int,
    nx: int,
    ny: int,
    height: int,
)
    requires
        fh_lookup(s, id) is Some,
        ({
            let fh = fh_lookup(s, id).unwrap();
            ||| fh_covers(fh, nx)
            ||| (fh_lookup(s, fh.prev) is Some && fh_covers(fh_lookup(s, fh.prev).unwrap(), nx))
            ||| (fh_lookup(s, fh.next) is Some && fh_covers(fh_lookup(s, fh.next).unwrap(), nx))
        }),
    ensures
        resolve_spec(s, Attachment::Grounded(FootholdId(id)), cx, cy, nx, ny, height).0 is Grounded,
        ({
            let fh = fh_lookup(s, id).unwrap();
            let att = resolve_spec(s, Attachment::Grounded(FootholdId(id)), cx, cy, nx, ny, height).0;
            ||| att == Attachment::Grounded(FootholdId(id))
            ||| att == Attachment::Grounded(FootholdId(fh.prev))
            ||| att == Attachment::Grounded(FootholdId(fh.next))
        }),
        // While the tracked segment still covers the candidate x, the
        // attachment is exactly unchanged; the hand-off to a neighbor occurs
        // exactly on the first tick the candidate x leaves the span, the
        // `prev` neighbor taking precedence.
        ({
            let fh = fh_lookup(s, id).unwrap();
            let att = resolve_spec(s, Attachment::Grounded(FootholdId(id)), cx, cy, nx, ny, height).0;
            &&& fh_covers(fh, nx) ==> att == Attachment::Grounded(FootholdId(id))
            &&& (!fh_covers(fh, nx) && fh_lookup(s, fh.prev) is Some && fh_covers(
                fh_lookup(s, fh.prev).unwrap(),
                nx,
            )) ==> att == Attachment::Grounded(FootholdId(fh.prev))
            &&& (!fh_covers(fh, nx) && !(fh_lookup(s, fh.prev) is Some && fh_covers(
                fh_lookup(s, fh.prev).unwrap(),
                nx,
            )) && fh_lookup(s, fh.next) is Some && fh_covers(fh_lookup(s, fh.next).unwrap(), nx))
                ==> att == Attachment::Grounded(FootholdId(fh.next))
        }),
{
}

/// Two linked segments that share an endpoint have exactly the same ground
/// height at the shared x: a grounded hand-off at the boundary moves the
/// body's clamped height continuously.
pub proof fn lemma_linked_heights_agree(a: Foothold, b: Foothold)
    requires
        fh_wf(a),
        fh_wf(b),
        a.x1 < a.x2,
        b.x1 < b.x2,
        a.x2 == b.x1,
        a.y2 == b.y1,
    ensures
        fh_height_num(a, a.x2 as int) * fh_den(b) == fh_height_num(b, a.x2 as int) * fh_den(a),
{
    crate::foothold::lemma_height_at_endpoints(a);
    crate::foothold::lemma_height_at_endpoints(b);
    assert((a.y2 as int) * fh_den(a) * fh_den(b) == (b.y1 as int) * fh_den(b) * fh_den(a))
        by (nonlinear_arith)
        requires
            a.y2 == b.y1;
    assert(fh_height_num(a, a.x2 as int) * fh_den(b) == ((a.y2 as int) * fh_den(a)) * fh_den(b))
        by (nonlinear_arith)
        requires
            fh_height_num(a, a.x2 as int) == (a.y2 as int) * fh_den(a);
    assert(fh_height_num(b, b.x1 as int) * fh_den(a) == ((b.y1 as int) * fh_den(b)) * fh_den(a))
        by (nonlinear_arith)
        requires
            fh_height_num(b, b.x1 as int) == (b.y1 as int) * fh_den(b);
}

/// No reattachment from below: when the body's current anchor is strictly
/// below the ground height of every registered segment that covers its x,
/// the fallback scan attaches to nothing and leaves the candidate position
/// unmodified, whatever the move.
pub proof fn lemma_no_reattach_from_below(
    s: Seq<Foothold>,
    cx: int,
    cy: int,
    nx: int,
    ny: int,
    half: int,
)
    requires
        forall|i: int|
            0 <= i < s.len() && fh_covers(#[trigger] s[i], cx) ==> (cy - half) * fh_den(s[i])
                < fh_height_num(s[i], cx),
    ensures
        scan_result(s, cx, cy, nx, ny, half) == (Attachment::Airborne, ny),
{
    lemma_scan_first_char(s, cx, cy - half, nx, ny - half);
    match scan_first(s, cx, cy - half, nx, ny - half) {
        Some(i) => {
            assert(fh_collides(s[i], cx, cy - half, nx, ny - half));
            assert(fh_covers(s[i], cx));
            assert(false);
        },
        None => {},
    }
}

} // verus!
