//! Layer-based ground tracking over chain footholds.
//!
//! A body carries the layer tag of the ground group it last stood on. Each
//! tick, the chains of that layer are tested first; only when none of them
//! collides is every chain tested, and the body adopts the layer of the last
//! colliding chain (chains are visited in collection order, a later hit
//! overriding an earlier one). The resolved position snaps the body's anchor
//! to the colliding chain's ground height, rounded up.

use vstd::prelude::*;

use crate::COORD_LIMIT;
use crate::POS_LIMIT;
use crate::chain::FootholdChain;
use crate::chain::FootholdLayer;
use crate::chain::chain_height;
use crate::chain::chain_wf;
use crate::chain::lemma_chain_pair_at_char;
use crate::chain::lemma_pair_height_bounds;
use crate::frac::DEN_CMP_LIMIT;
use crate::frac::Frac;
use crate::frac::frac_ceil;
use crate::frac::frac_ge_int;
use crate::frac::frac_le_int;
use crate::frac::frac_wf;
use crate::geometry::Point2d;
use crate::geometry::Quad2d;
use crate::geometry::quad_wf;
use crate::player::COLLISION_THRESHOLD;
use crate::player::candidate_x;
use crate::player::candidate_y;
use crate::player::lemma_ceil_coord_bounds;
use crate::player::next_position;
use crate::rigid_body::RigidBody;

verus! {

/// The collision predicate on one chain, over anchor points: the chain has a
/// ground height under both anchors, the two heights differ by less than the
/// threshold, and the move crosses the ground from above.
pub open spec fn chain_collides(s: Seq<Point2d>, cx: int, cy: int, nx: int, ny: int) -> bool {
    match (chain_height(s, cx), chain_height(s, nx)) {
        (Some(hc), Some(hn)) => {
            &&& -(COLLISION_THRESHOLD * hc.1 * hn.1) < hc.0 * hn.1 - hn.0 * hc.1
                < COLLISION_THRESHOLD * hc.1 * hn.1
            &&& cy * hc.1 >= hc.0
            &&& ny * hn.1 <= hn.0
        },
        _ => false,
    }
}

/// A chain height defined at `x` lies inside the coordinate bounds.
pub proof fn lemma_chain_height_bounds(s: Seq<Point2d>, x: int)
    requires
        forall|i: int|
            0 <= i < s.len() ==> -COORD_LIMIT <= (#[trigger] s[i]).x <= COORD_LIMIT && -COORD_LIMIT
                <= s[i].y <= COORD_LIMIT,
        chain_height(s, x) is Some,
    ensures
        ({
            let h = chain_height(s, x).unwrap();
            &&& 0 < h.1 <= 2 * COORD_LIMIT
            &&& -COORD_LIMIT * h.1 <= h.0 <= COORD_LIMIT * h.1
        }),
{
    lemma_chain_pair_at_char(s, x);
    let i = chain_pair_index(s, x);
    lemma_pair_height_bounds(s[i], s[i + 1], x);
}

/// The index behind a defined chain height.
pub open spec fn chain_pair_index(s: Seq<Point2d>, x: int) -> int {
    crate::chain::chain_pair_at(s, x).unwrap()
}

/// Index of the last chain in the collection that collides with the move
/// and carries the wanted layer (`None` accepts every layer).
pub open spec fn last_hit(
    s: Seq<(FootholdChain, FootholdLayer)>,
    filter: Option<u32>,
    cx: int,
    cy: int,
    nx: int,
    ny: int,
) -> Option<int>
    decreases s.len(),
{
    if s.len() == 0 {
        None
    } else {
        let k = s.len() - 1;
        let in_layer = match filter {
            Some(l) => s[k].1.0 == l,
            None => true,
        };
        if in_layer && chain_collides(s[k].0.points@, cx, cy, nx, ny) {
            Some(k)
        } else {
            last_hit(s.drop_last(), filter, cx, cy, nx, ny)
        }
    }
}

/// A found [`last_hit`] index is in range, its chain collides with the move,
/// and it matches the layer filter.
pub proof fn lemma_last_hit_char(
    s: Seq<(FootholdChain, FootholdLayer)>,
    filter: Option<u32>,
    cx: int,
    cy: int,
    nx: int,
    ny: int,
)
    ensures
        match last_hit(s, filter, cx, cy, nx, ny) {
            Some(k) => 0 <= k < s.len() && chain_collides(s[k].0.points@, cx, cy, nx, ny)
                && (match filter {
                Some(l) => s[k].1.0 == l,
                None => true,
            }),
            None => true,
        },
    decreases s.len(),
{
    if s.len() > 0 {
        let k = s.len() - 1;
        let in_layer = match filter {
            Some(l) => s[k].1.0 == l,
            None => true,
        };
        if !(in_layer && chain_collides(s[k].0.points@, cx, cy, nx, ny)) {
            lemma_last_hit_char(s.drop_last(), filter, cx, cy, nx, ny);
            assert(forall|j: int| 0 <= j < s.len() - 1 ==> s.drop_last()[j] == s[j]);
        }
    }
}

/// The anchor snapped to a ground height `num / den`, as a center height
/// with half-height `half`: the height's ceiling plus `half`.
pub open spec fn anchor_snap(num: int, den: int, half: int) -> int {
    (num + den - 1) / den + half
}

/// Tests one chain against a falling move given by the current and next
/// anchor points, and returns the ground height under the next anchor on
/// collision.
pub fn calculate_fh_collision(foothold: &FootholdChain, current: Point2d, next: Point2d) -> (r:
    Option<Frac>)
    requires
        chain_wf(*foothold),
        -2 * POS_LIMIT <= current.x <= 2 * POS_LIMIT,
        -2 * POS_LIMIT <= current.y <= 2 * POS_LIMIT,
        -2 * POS_LIMIT <= next.x <= 2 * POS_LIMIT,
        -2 * POS_LIMIT <= next.y <= 2 * POS_LIMIT,
    ensures
        r is Some <==> chain_collides(
            foothold.points@,
            current.x as int,
            current.y as int,
            next.x as int,
            next.y as int,
        ),
        match r {
            Some(f) => {
                &&& Some((f.num as int, f.den as int)) == chain_height(
                    foothold.points@,
                    next.x as int,
                )
                &&& frac_wf(f)
                &&& f.den <= DEN_CMP_LIMIT
            },
            None => true,
        },
{
    let current_fh_y = foothold.get_y_at_x(current.x);
    let next_fh_y = foothold.get_y_at_x(next.x);
    if let (Some(hc), Some(hn)) = (current_fh_y, next_fh_y) {
        proof {
            lemma_chain_height_bounds(foothold.points@, current.x as int);
            lemma_chain_height_bounds(foothold.points@, next.x as int);
            crate::frac::lemma_mul_range(
                COORD_LIMIT as int,
                hc.den as int,
                1_000_000_000,
                2_000_000_000,
            );
            crate::frac::lemma_mul_range(
                COORD_LIMIT as int,
                hn.den as int,
                1_000_000_000,
                2_000_000_000,
            );
            crate::frac::lemma_mul_range(
                hc.num as int,
                hn.den as int,
                2_000_000_000_000_000_000,
                2_000_000_000,
            );
            crate::frac::lemma_mul_range(
                hn.num as int,
                hc.den as int,
                2_000_000_000_000_000_000,
                2_000_000_000,
            );
            crate::frac::lemma_mul_range(
                COLLISION_THRESHOLD * (hc.den as i64 as int),
                hn.den as int,
                80_000_000_000,
                2_000_000_000,
            );
            crate::frac::lemma_mul_range(
                COLLISION_THRESHOLD as int,
                hc.den as int,
                40,
                2_000_000_000,
            );
        }
        let t = (COLLISION_THRESHOLD as i128) * hc.den * hn.den;
        let diff = hc.num * hn.den - hn.num * hc.den;
        if -t < diff && diff < t {
            if hc.le_int(current.y) && hn.ge_int(next.y) {
                return Some(hn);
            }
        }
        None
    } else {
        None
    }
}

/// The body's anchor point: the midpoint of its bottom edge.
pub fn quad_anchor_point(quad: &Quad2d) -> (r: Point2d)
    requires
        quad_wf(*quad),
    ensures
        r.x == quad.position.x,
        r.y == quad.position.y - quad.height / 2,
{
    quad.mid_bottom()
}

/// Moves the quad so that its anchor sits at the given coordinates: the x
/// coordinate is taken as is, the y coordinate is a ground height whose
/// ceiling becomes the anchor height (rounding up avoids sub-unit sinking).
pub fn quad_set_pos_from_anchor_point(quad: &mut Quad2d, x: Option<i64>, y: Option<Frac>)
    requires
        quad_wf(*old(quad)),
        match x {
            Some(v) => -POS_LIMIT <= v <= POS_LIMIT,
            None => true,
        },
        match y {
            Some(f) => frac_wf(f) && f.den <= DEN_CMP_LIMIT && frac_ge_int(f, -COORD_LIMIT as int)
                && frac_le_int(f, COORD_LIMIT as int),
            None => true,
        },
    ensures
        final(quad).width == old(quad).width,
        final(quad).height == old(quad).height,
        final(quad).position.x == (match x {
            Some(v) => v,
            None => old(quad).position.x,
        }),
        final(quad).position.y as int == (match y {
            Some(f) => frac_ceil(f) + old(quad).height / 2,
            None => old(quad).position.y as int,
        }),
        quad_wf(*final(quad)),
{
    if let Some(v) = x {
        quad.position.x = v;
    }
    if let Some(f) = y {
        proof {
            lemma_ceil_coord_bounds(f);
        }
        let c = f.ceil();
        quad.position.y = c + quad.height / 2;
    }
}

/// Finds the last chain in collection order that collides with the move and
/// matches the layer filter, returning its index and the ground height under
/// the next anchor.
fn scan_chains(
    footholds: &Vec<(FootholdChain, FootholdLayer)>,
    filter: Option<u32>,
    current: Point2d,
    next: Point2d,
) -> (r: Option<(usize, Frac)>)
    requires
        forall|i: int| 0 <= i < footholds@.len() ==> chain_wf((#[trigger] footholds@[i]).0),
        -2 * POS_LIMIT <= current.x <= 2 * POS_LIMIT,
        -2 * POS_LIMIT <= current.y <= 2 * POS_LIMIT,
        -2 * POS_LIMIT <= next.x <= 2 * POS_LIMIT,
        -2 * POS_LIMIT <= next.y <= 2 * POS_LIMIT,
    ensures
        match last_hit(footholds@, filter, current.x as int, current.y as int, next.x as int, next.y as int) {
            Some(k) => match r {
                Some(p) => {
                    &&& p.0 == k
                    &&& Some((p.1.num as int, p.1.den as int)) == chain_height(
                        footholds@[k].0.points@,
                        next.x as int,
                    )
                    &&& frac_wf(p.1)
                    &&& p.1.den <= DEN_CMP_LIMIT
                },
                None => false,
            },
            None => r is None,
        },
{
    let ghost s = footholds@;
    let n = footholds.len();
    let mut best: Option<(usize, Frac)> = None;
    let mut i: usize = 0;
    while i < n
        invariant
            s == footholds@,
            n == s.len(),
            forall|k: int| 0 <= k < s.len() ==> chain_wf((#[trigger] s[k]).0),
            -2 * POS_LIMIT <= current.x <= 2 * POS_LIMIT,
            -2 * POS_LIMIT <= current.y <= 2 * POS_LIMIT,
            -2 * POS_LIMIT <= next.x <= 2 * POS_LIMIT,
            -2 * POS_LIMIT <= next.y <= 2 * POS_LIMIT,
            0 <= i <= n,
            match last_hit(
                s.take(i as int),
                filter,
                current.x as int,
                current.y as int,
                next.x as int,
                next.y as int,
            ) {
                Some(k) => match best {
                    Some(p) => {
                        &&& p.0 == k
                        &&& Some((p.1.num as int, p.1.den as int)) == chain_height(
                            s[k].0.points@,
                            next.x as int,
                        )
                        &&& frac_wf(p.1)
                        &&& p.1.den <= DEN_CMP_LIMIT
                    },
                    None => false,
                },
                None => best is None,
            },
        decreases n - i,
    {
        let in_layer = match filter {
            Some(l) => footholds[i].1.0 == l,
            None => true,
        };
        if in_layer {
            match calculate_fh_collision(&footholds[i].0, current, next) {
                Some(h) => {
                    best = Some((i, h));
                },
                None => {},
            }
        }
        proof {
            assert(s.take(i + 1).drop_last() =~= s.take(i as int));
            assert(s.take(i + 1).last() == s[i as int]);
        }
        i = i + 1;
    }
    proof {
        assert(s.take(n as int) =~= s);
    }
    best
}

/// One tick of layer-based ground tracking: advances the body's quad to the
/// candidate position, tests the chains of the tracked layer first, then all
/// chains when the layer yields nothing, snapping the anchor onto the last
/// colliding chain; returns the body's new layer tag, `None` when airborne.
pub fn player_collider_system(
    footholds: &Vec<(FootholdChain, FootholdLayer)>,
    current: &mut Quad2d,
    body: &RigidBody,
    layer: Option<FootholdLayer>,
) -> (r: Option<FootholdLayer>)
    requires
        quad_wf(*old(current)),
        forall|i: int| 0 <= i < footholds@.len() ==> chain_wf((#[trigger] footholds@[i]).0),
        -2 * POS_LIMIT <= body.velocity.x <= 2 * POS_LIMIT,
        -2 * POS_LIMIT <= body.velocity.y <= 2 * POS_LIMIT,
        -2 * POS_LIMIT <= body.acceleration.x <= 2 * POS_LIMIT,
        -2 * POS_LIMIT <= body.acceleration.y <= 2 * POS_LIMIT,
        -POS_LIMIT <= candidate_x(old(current).position, *body) <= POS_LIMIT,
        -POS_LIMIT <= candidate_y(old(current).position, *body) <= POS_LIMIT,
    ensures
        ({
            let nx = candidate_x(old(current).position, *body);
            let ny = candidate_y(old(current).position, *body);
            let half = old(current).height / 2;
            let cx = old(current).position.x as int;
            let cy = old(current).position.y as int;
            let all = last_hit(footholds@, None, cx, cy - half, nx, ny - half);
            &&& final(current).width == old(current).width
            &&& final(current).height == old(current).height
            &&& final(current).position.x as int == nx
            &&& match layer {
                Some(l) => match last_hit(footholds@, Some(l.0), cx, cy - half, nx, ny - half) {
                    Some(k) => {
                        let h = chain_height(footholds@[k].0.points@, nx).unwrap();
                        &&& r == Some(l)
                        &&& final(current).position.y as int == anchor_snap(h.0, h.1, half)
                    },
                    None => match all {
                        Some(k) => {
                            let h = chain_height(footholds@[k].0.points@, nx).unwrap();
                            &&& r == Some(footholds@[k].1)
                            &&& final(current).position.y as int == anchor_snap(h.0, h.1, half)
                        },
                        None => r is None && final(current).position.y as int == ny,
                    },
                },
                None => match all {
                    Some(k) => {
                        let h = chain_height(footholds@[k].0.points@, nx).unwrap();
                        &&& r == Some(footholds@[k].1)
                        &&& final(current).position.y as int == anchor_snap(h.0, h.1, half)
                    },
                    None => r is None && final(current).position.y as int == ny,
                },
            }
        }),
{
    let ghost s = footholds@;
    let mut next = Quad2d {
        position: next_position(current.position, body),
        width: current.width,
        height: current.height,
    };
    let current_anchor = quad_anchor_point(current);
    let next_anchor = quad_anchor_point(&next);
    let mut result: Option<FootholdLayer> = None;
    let mut done = false;
    if let Some(l) = layer {
        match scan_chains(footholds, Some(l.0), current_anchor, next_anchor) {
            Some(p) => {
                proof {
                    lemma_last_hit_char(
                        s,
                        Some(l.0),
                        current_anchor.x as int,
                        current_anchor.y as int,
                        next_anchor.x as int,
                        next_anchor.y as int,
                    );
                    lemma_chain_height_bounds(s[p.0 as int].0.points@, next_anchor.x as int);
                }
                quad_set_pos_from_anchor_point(&mut next, None, Some(p.1));
                result = Some(l);
                done = true;
            },
            None => {},
        }
    }
    if !done {
        match scan_chains(footholds, None, current_anchor, next_anchor) {
            Some(p) => {
                proof {
                    lemma_last_hit_char(
                        s,
                        None,
                        current_anchor.x as int,
                        current_anchor.y as int,
                        next_anchor.x as int,
                        next_anchor.y as int,
                    );
                    lemma_chain_height_bounds(s[p.0 as int].0.points@, next_anchor.x as int);
                }
                quad_set_pos_from_anchor_point(&mut next, None, Some(p.1));
                result = Some(footholds[p.0].1);
            },
            None => {},
        }
    }
    current.position = next.position;
    result
}

} // verus!
