//! Footholds: linked ground segments, and the registry that stores them.
//!
//! A foothold is one walkable line segment. Its `prev` and `next` fields name
//! the neighboring segments of the same ground strip (0 means none), which
//! lets the ground-tracking state machine hand a body off to a neighbor
//! without scanning every segment.

use vstd::prelude::*;

use crate::COORD_LIMIT;
use crate::POS_LIMIT;
use crate::frac::DEN_CMP_LIMIT;
use crate::frac::Frac;
use crate::frac::frac_wf;

verus! {

/// A ground segment from `(x1, y1)` to `(x2, y2)`, with a unique positive id
/// and optional neighbor ids (`0` = no neighbor).
#[derive(Clone, Copy, Debug, PartialEq, Eq, Structural)]
pub struct Foothold {
    pub id: u32,
    pub x1: i64,
    pub y1: i64,
    pub x2: i64,
    pub y2: i64,
    pub prev: u32,
    pub next: u32,
}

/// A foothold id attached to a moving body while it stands on that segment.
#[derive(Clone, Copy, Debug, PartialEq, Eq, Structural)]
pub struct FootholdId(pub u32);

/// Foothold coordinates lie inside the world bounds and run left to right.
pub open spec fn fh_wf(fh: Foothold) -> bool {
    &&& -COORD_LIMIT <= fh.x1 <= COORD_LIMIT
    &&& -COORD_LIMIT <= fh.y1 <= COORD_LIMIT
    &&& -COORD_LIMIT <= fh.x2 <= COORD_LIMIT
    &&& -COORD_LIMIT <= fh.y2 <= COORD_LIMIT
    &&& fh.x1 <= fh.x2
}

/// `x` lies inside the segment's horizontal span (endpoints included), and
/// the span is not degenerate. A vertical segment (`x1 == x2`) supports no
/// height query, so it covers nothing.
pub open spec fn fh_covers(fh: Foothold, x: int) -> bool {
    fh.x1 < fh.x2 && fh.x1 <= x <= fh.x2
}

/// Denominator of the interpolated height at any covered `x`: the span.
pub open spec fn fh_den(fh: Foothold) -> int {
    fh.x2 - fh.x1
}

/// Numerator of the interpolated height at `x` over denominator [`fh_den`]:
/// `y2 + (x - x2) * slope` with `slope = (y2 - y1) / (x2 - x1)`.
pub open spec fn fh_height_num(fh: Foothold, x: int) -> int {
    fh.y2 * (fh.x2 - fh.x1) + (x - fh.x2) * (fh.y2 - fh.y1)
}

/// The interpolated height stays between the segment's endpoint heights:
/// `y1 <= height <= y2` or `y2 <= height <= y1`, as cross-multiplied bounds.
pub proof fn lemma_height_bounds(fh: Foothold, x: int)
    requires
        fh_wf(fh),
        fh_covers(fh, x),
    ensures
        fh_height_num(fh, x) >= -COORD_LIMIT * fh_den(fh),
        fh_height_num(fh, x) <= COORD_LIMIT * fh_den(fh),
{
    let d = fh_den(fh);
    let n = fh_height_num(fh, x);
    assert(n == fh.y1 * d + (x - fh.x1) * (fh.y2 - fh.y1)) by (nonlinear_arith)
        requires
            n == fh.y2 * (fh.x2 - fh.x1) + (x - fh.x2) * (fh.y2 - fh.y1),
            d == fh.x2 - fh.x1;
    if fh.y2 >= fh.y1 {
        assert(fh.y1 * d <= n <= fh.y2 * d) by (nonlinear_arith)
            requires
                n == fh.y1 * d + (x - fh.x1) * (fh.y2 - fh.y1),
                n == fh.y2 * d + (x - fh.x2) * (fh.y2 - fh.y1),
                fh.y2 >= fh.y1,
                0 < d,
                fh.x1 <= x <= fh.x2,
                d == fh.x2 - fh.x1;
    } else {
        assert(fh.y2 * d <= n <= fh.y1 * d) by (nonlinear_arith)
            requires
                n == fh.y1 * d + (x - fh.x1) * (fh.y2 - fh.y1),
                n == fh.y2 * d + (x - fh.x2) * (fh.y2 - fh.y1),
                fh.y2 < fh.y1,
                0 < d,
                fh.x1 <= x <= fh.x2,
                d == fh.x2 - fh.x1;
    }
    assert(-COORD_LIMIT * d <= fh.y1 * d <= COORD_LIMIT * d && -COORD_LIMIT * d <= fh.y2 * d
        <= COORD_LIMIT * d) by (nonlinear_arith)
        requires
            0 < d,
            -COORD_LIMIT <= fh.y1 <= COORD_LIMIT,
            -COORD_LIMIT <= fh.y2 <= COORD_LIMIT;
}

/// Interpolated heights vary linearly with x: over the segment's common
/// denominator, the height difference between two positions is exactly
/// `(xa - xb) * (y2 - y1)`. Together with the equal heights of linked
/// segments at a shared endpoint this bounds every grounded hand-off's
/// height step by the segments' slopes times the horizontal motion: the
/// resolved height varies continuously, with no jump at the boundary.
pub proof fn lemma_height_is_linear(fh: Foothold, xa: int, xb: int)
    ensures
        fh_height_num(fh, xa) - fh_height_num(fh, xb) == (xa - xb) * (fh.y2 - fh.y1),
{
    assert(fh_height_num(fh, xa) - fh_height_num(fh, xb) == (xa - xb) * (fh.y2 - fh.y1))
        by (nonlinear_arith)
        requires
            fh_height_num(fh, xa) == fh.y2 * (fh.x2 - fh.x1) + (xa - fh.x2) * (fh.y2 - fh.y1),
            fh_height_num(fh, xb) == fh.y2 * (fh.x2 - fh.x1) + (xb - fh.x2) * (fh.y2 - fh.y1);
}

/// At the segment's endpoints the interpolated height is exactly `y1`
/// resp. `y2`.
pub proof fn lemma_height_at_endpoints(fh: Foothold)
    requires
        fh_wf(fh),
        fh.x1 < fh.x2,
    ensures
        fh_height_num(fh, fh.x1 as int) == fh.y1 * fh_den(fh),
        fh_height_num(fh, fh.x2 as int) == fh.y2 * fh_den(fh),
{
    let d = fh_den(fh);
    assert(fh.y2 * d + (fh.x1 - fh.x2) * (fh.y2 - fh.y1) == fh.y1 * d) by (nonlinear_arith)
        requires
            d == fh.x2 - fh.x1;
}

impl Foothold {
    /// Interpolated ground height at `x`, defined exactly when the segment
    /// covers `x`. The result is the exact rational
    /// `y2 + (x - x2) * (y2 - y1) / (x2 - x1)`.
    pub fn get_y_at_x(&self, x: i64) -> (r: Option<Frac>)
        requires
            fh_wf(*self),
            -2 * POS_LIMIT <= x <= 2 * POS_LIMIT,
        ensures
            r is Some <==> fh_covers(*self, x as int),
            match r {
                Some(f) => {
                    &&& f.num == fh_height_num(*self, x as int)
                    &&& f.den == fh_den(*self)
                    &&& frac_wf(f)
                    &&& f.den <= DEN_CMP_LIMIT
                },
                None => true,
            },
    {
        if x >= self.x1 && x <= self.x2 && self.x1 < self.x2 {
            let den = (self.x2 as i128) - (self.x1 as i128);
            proof {
                crate::frac::lemma_mul_range(
                    self.y2 as int,
                    den as int,
                    COORD_LIMIT as int,
                    2 * COORD_LIMIT as int,
                );
                crate::frac::lemma_mul_range(
                    (x as int) - (self.x2 as int),
                    (self.y2 as int) - (self.y1 as int),
                    2 * COORD_LIMIT as int,
                    2 * COORD_LIMIT as int,
                );
            }
            let num = (self.y2 as i128) * den + ((x as i128) - (self.x2 as i128)) * ((self.y2
                as i128) - (self.y1 as i128));
            Some(Frac { num, den })
        } else {
            None
        }
    }

    /// Slope of the segment, defined exactly when the segment covers `x`.
    /// The slope angle is the arc tangent of this exact ratio; the arc
    /// tangent itself is irrational and is left to the caller's numeric
    /// layer.
    pub fn get_slope_at_x(&self, x: i64) -> (r: Option<Frac>)
        requires
            fh_wf(*self),
            -2 * POS_LIMIT <= x <= 2 * POS_LIMIT,
        ensures
            r is Some <==> fh_covers(*self, x as int),
            match r {
                Some(f) => {
                    &&& f.num == self.y2 - self.y1
                    &&& f.den == fh_den(*self)
                    &&& frac_wf(f)
                },
                None => true,
            },
    {
        if x >= self.x1 && x <= self.x2 && self.x1 < self.x2 {
            Some(
                Frac {
                    num: (self.y2 as i128) - (self.y1 as i128),
                    den: (self.x2 as i128) - (self.x1 as i128),
                },
            )
        } else {
            None
        }
    }
}

/// First foothold with the given id, scanning front to back. Under the
/// registry's unique-id invariant this is the only one.
pub open spec fn fh_lookup(s: Seq<Foothold>, id: u32) -> Option<Foothold>
    decreases s.len(),
{
    if s.len() == 0 {
        None
    } else if s[0].id == id {
        Some(s[0])
    } else {
        fh_lookup(s.drop_first(), id)
    }
}

/// No two footholds in the sequence share an id.
pub open spec fn unique_ids(s: Seq<Foothold>) -> bool {
    forall|i: int, j: int| 0 <= i < j < s.len() ==> s[i].id != s[j].id
}

/// With unique ids, [`fh_lookup`] finds an id exactly when some entry
/// carries it, and then returns that entry.
pub proof fn lemma_lookup_char(s: Seq<Foothold>, id: u32)
    requires
        unique_ids(s),
    ensures
        forall|i: int| 0 <= i < s.len() && s[i].id == id ==> fh_lookup(s, id) == Some(s[i]),
        fh_lookup(s, id) is Some ==> exists|i: int|
            0 <= i < s.len() && s[i] == fh_lookup(s, id).unwrap() && s[i].id == id,
    decreases s.len(),
{
    if s.len() > 0 {
        if s[0].id == id {
            assert forall|i: int| 0 <= i < s.len() && s[i].id == id implies fh_lookup(s, id)
                == Some(s[i]) by {
                if i != 0 {
                    assert(s[0].id != s[i].id);
                }
            }
            assert(s[0] == fh_lookup(s, id).unwrap() && s[0].id == id);
        } else {
            let t = s.drop_first();
            assert(unique_ids(t)) by {
                assert forall|i: int, j: int| 0 <= i < j < t.len() implies t[i].id != t[j].id by {
                    assert(t[i] == s[i + 1] && t[j] == s[j + 1]);
                }
            }
            lemma_lookup_char(t, id);
            assert forall|i: int| 0 <= i < s.len() && s[i].id == id implies fh_lookup(s, id)
                == Some(s[i]) by {
                assert(i != 0);
                assert(t[i - 1] == s[i]);
            }
            if fh_lookup(s, id) is Some {
                let k = choose|k: int|
                    0 <= k < t.len() && t[k] == fh_lookup(t, id).unwrap() && t[k].id == id;
                assert(s[k + 1] == t[k]);
            }
        }
    }
}

/// A successful lookup in a well-formed registry yields a well-formed
/// foothold carrying the id it was found under.
pub proof fn lemma_lookup_found(s: Seq<Foothold>, id: u32)
    requires
        forall|i: int| 0 <= i < s.len() ==> fh_wf(#[trigger] s[i]) && s[i].id != 0,
        unique_ids(s),
        fh_lookup(s, id) is Some,
    ensures
        fh_wf(fh_lookup(s, id).unwrap()),
        fh_lookup(s, id).unwrap().id == id,
        id != 0,
{
    lemma_lookup_char(s, id);
    let k = choose|k: int|
        0 <= k < s.len() && s[k] == fh_lookup(s, id).unwrap() && s[k].id == id;
    assert(fh_wf(s[k]));
}

/// The registry: every foothold of the scene, looked up by id. Populated at
/// scene-setup time and read-only during simulation.
#[derive(Clone, Debug)]
pub struct FootholdContainer {
    pub data: Vec<Foothold>,
}

/// Registry invariant: all entries well formed with nonzero, unique ids.
pub open spec fn container_wf(c: FootholdContainer) -> bool {
    &&& forall|i: int|
        0 <= i < c.data@.len() ==> fh_wf(#[trigger] c.data@[i]) && c.data@[i].id != 0
    &&& unique_ids(c.data@)
}

impl Default for FootholdContainer {
    /// An empty registry.
    fn default() -> (r: FootholdContainer)
        ensures
            r.data@ == Seq::<Foothold>::empty(),
            container_wf(r),
    {
        FootholdContainer { data: Vec::new() }
    }
}

impl FootholdContainer {
    /// An empty registry.
    pub fn new() -> (r: FootholdContainer)
        ensures
            r.data@ == Seq::<Foothold>::empty(),
            container_wf(r),
    {
        FootholdContainer { data: Vec::new() }
    }

    /// The foothold registered under `id`, if any.
    pub fn get(&self, id: u32) -> (r: Option<&Foothold>)
        requires
            container_wf(*self),
        ensures
            match r {
                Some(fh) => fh_lookup(self.data@, id) == Some(*fh),
                None => fh_lookup(self.data@, id) is None,
            },
    {
        proof {
            lemma_lookup_char(self.data@, id);
        }
        let n = self.data.len();
        let mut i: usize = 0;
        while i < n
            invariant
                container_wf(*self),
                n == self.data@.len(),
                0 <= i <= n,
                forall|j: int| 0 <= j < i ==> self.data@[j].id != id,
            decreases n - i,
        {
            if self.data[i].id == id {
                proof {
                    lemma_lookup_char(self.data@, id);
                }
                return Some(&self.data[i]);
            }
            i = i + 1;
        }
        proof {
            if fh_lookup(self.data@, id) is Some {
                lemma_lookup_char(self.data@, id);
            }
        }
        None
    }

    /// Registers a foothold, replacing any existing entry with the same id.
    pub fn insert(&mut self, fh: Foothold)
        requires
            container_wf(*old(self)),
            fh_wf(fh),
            fh.id != 0,
            old(self).data@.len() < usize::MAX,
        ensures
            container_wf(*final(self)),
            fh_lookup(final(self).data@, fh.id) == Some(fh),
            forall|other: u32|
                other != fh.id ==> fh_lookup(final(self).data@, other) == fh_lookup(
                    old(self).data@,
                    other,
                ),
            final(self).data@.len() <= old(self).data@.len() + 1,
    {
        let ghost s0 = self.data@;
        let n = self.data.len();
        let mut i: usize = 0;
        while i < n
            invariant
                n == self.data@.len(),
                s0 == self.data@,
                s0 == old(self).data@,
                forall|k: int| 0 <= k < s0.len() ==> fh_wf(#[trigger] s0[k]) && s0[k].id != 0,
                unique_ids(s0),
                fh_wf(fh),
                fh.id != 0,
                n < usize::MAX,
                0 <= i <= n,
                forall|j: int| 0 <= j < i ==> self.data@[j].id != fh.id,
            decreases n - i,
        {
            if self.data[i].id == fh.id {
                self.data[i] = fh;
                proof {
                    lemma_insert_replace_props(s0, self.data@, fh, i as int);
                }
                return ;
            }
            i = i + 1;
        }
        self.data.push(fh);
        proof {
            lemma_insert_push_props(s0, self.data@, fh);
        }
    }
}

/// Replacing the unique entry that carries `fh.id` keeps the registry
/// invariant and changes no other id's lookup.
proof fn lemma_insert_replace_props(s0: Seq<Foothold>, s1: Seq<Foothold>, fh: Foothold, i: int)
    requires
        forall|k: int| 0 <= k < s0.len() ==> fh_wf(#[trigger] s0[k]) && s0[k].id != 0,
        unique_ids(s0),
        fh_wf(fh),
        fh.id != 0,
        0 <= i < s0.len(),
        s0[i].id == fh.id,
        s1 == s0.update(i, fh),
    ensures
        forall|k: int| 0 <= k < s1.len() ==> fh_wf(#[trigger] s1[k]) && s1[k].id != 0,
        unique_ids(s1),
        fh_lookup(s1, fh.id) == Some(fh),
        forall|other: u32| other != fh.id ==> fh_lookup(s1, other) == fh_lookup(s0, other),
{
    assert(unique_ids(s1)) by {
        assert forall|p: int, q: int| 0 <= p < q < s1.len() implies s1[p].id != s1[q].id by {
            assert(s0[p].id != s0[q].id);
        }
    }
    lemma_lookup_char(s1, fh.id);
    assert(s1[i] == fh);
    assert forall|other: u32| other != fh.id implies fh_lookup(s1, other) == fh_lookup(
        s0,
        other,
    ) by {
        lemma_lookup_char(s0, other);
        lemma_lookup_char(s1, other);
        if fh_lookup(s0, other) is Some {
            let k = choose|k: int| 0 <= k < s0.len() && s0[k] == fh_lookup(s0, other).unwrap()
                && s0[k].id == other;
            assert(k != i);
            assert(s1[k] == s0[k]);
        } else {
            if fh_lookup(s1, other) is Some {
                let k = choose|k: int| 0 <= k < s1.len() && s1[k] == fh_lookup(s1, other).unwrap()
                    && s1[k].id == other;
                assert(k != i);
                assert(s0[k] == s1[k]);
                assert(fh_lookup(s0, other) == Some(s0[k]));
            }
        }
    }
}

/// Appending a foothold whose id is new keeps the registry invariant and
/// changes no other id's lookup.
proof fn lemma_insert_push_props(s0: Seq<Foothold>, s1: Seq<Foothold>, fh: Foothold)
    requires
        forall|k: int| 0 <= k < s0.len() ==> fh_wf(#[trigger] s0[k]) && s0[k].id != 0,
        unique_ids(s0),
        fh_wf(fh),
        fh.id != 0,
        forall|k: int| 0 <= k < s0.len() ==> s0[k].id != fh.id,
        s1 == s0.push(fh),
    ensures
        forall|k: int| 0 <= k < s1.len() ==> fh_wf(#[trigger] s1[k]) && s1[k].id != 0,
        unique_ids(s1),
        fh_lookup(s1, fh.id) == Some(fh),
        forall|other: u32| other != fh.id ==> fh_lookup(s1, other) == fh_lookup(s0, other),
{
    assert(unique_ids(s1)) by {
        assert forall|p: int, q: int| 0 <= p < q < s1.len() implies s1[p].id != s1[q].id by {
            if q < s0.len() {
                assert(s0[p].id != s0[q].id);
            } else {
                assert(s1[q] == fh && s1[p] == s0[p]);
            }
        }
    }
    lemma_lookup_char(s1, fh.id);
    assert(s1[s0.len() as int] == fh);
    assert forall|other: u32| other != fh.id implies fh_lookup(s1, other) == fh_lookup(
        s0,
        other,
    ) by {
        lemma_lookup_char(s0, other);
        lemma_lookup_char(s1, other);
        if fh_lookup(s0, other) is Some {
            let k = choose|k: int| 0 <= k < s0.len() && s0[k] == fh_lookup(s0, other).unwrap()
                && s0[k].id == other;
            assert(s1[k] == s0[k]);
        } else {
            if fh_lookup(s1, other) is Some {
                let k = choose|k: int| 0 <= k < s1.len() && s1[k] == fh_lookup(s1, other).unwrap()
                    && s1[k].id == other;
                assert(k < s0.len());
                assert(s0[k] == s1[k]);
                assert(fh_lookup(s0, other) == Some(s0[k]));
            }
        }
    }
}

/// The registry contents as a map from id to foothold.
pub open spec fn container_map(s: Seq<Foothold>) -> Map<u32, Foothold> {
    Map::new(|id: u32| fh_lookup(s, id) is Some, |id: u32| fh_lookup(s, id).unwrap())
}

/// The registry map after registering a batch of footholds in order,
/// skipping entries with the reserved id 0; a later entry with the same id
/// replaces an earlier one.
pub open spec fn insert_all_map(m: Map<u32, Foothold>, new: Seq<Foothold>) -> Map<u32, Foothold>
    decreases new.len(),
{
    if new.len() == 0 {
        m
    } else {
        let prev = insert_all_map(m, new.drop_last());
        let fh = new.last();
        if fh.id != 0 {
            prev.insert(fh.id, fh)
        } else {
            prev
        }
    }
}

/// A single registration updates the registry map at exactly one id.
proof fn lemma_container_map_insert(s0: Seq<Foothold>, s1: Seq<Foothold>, fh: Foothold)
    requires
        fh_lookup(s1, fh.id) == Some(fh),
        forall|other: u32| other != fh.id ==> fh_lookup(s1, other) == fh_lookup(s0, other),
    ensures
        container_map(s1) == container_map(s0).insert(fh.id, fh),
{
    assert(container_map(s1) =~= container_map(s0).insert(fh.id, fh));
}

/// Registers every foothold of a batch whose id is not 0, in order.
pub fn add_new_footholds(container: &mut FootholdContainer, footholds: &Vec<Foothold>)
    requires
        container_wf(*old(container)),
        forall|i: int| 0 <= i < footholds@.len() ==> fh_wf(#[trigger] footholds@[i]),
        old(container).data@.len() + footholds@.len() <= usize::MAX,
    ensures
        container_wf(*final(container)),
        container_map(final(container).data@) == insert_all_map(
            container_map(old(container).data@),
            footholds@,
        ),
{
    let n = footholds.len();
    let mut i: usize = 0;
    while i < n
        invariant
            container_wf(*container),
            n == footholds@.len(),
            forall|k: int| 0 <= k < footholds@.len() ==> fh_wf(#[trigger] footholds@[k]),
            0 <= i <= n,
            container_map(container.data@) == insert_all_map(
                container_map(old(container).data@),
                footholds@.take(i as int),
            ),
            container.data@.len() <= old(container).data@.len() + i,
            old(container).data@.len() + n <= usize::MAX,
        decreases n - i,
    {
        let fh = footholds[i];
        let ghost before = container.data@;
        if fh.id != 0 {
            container.insert(fh);
            proof {
                lemma_container_map_insert(before, container.data@, fh);
            }
        }
        proof {
            assert(footholds@.take(i + 1).drop_last() =~= footholds@.take(i as int));
            assert(footholds@.take(i + 1).last() == footholds@[i as int]);
        }
        i = i + 1;
    }
    proof {
        assert(footholds@.take(n as int) =~= footholds@);
    }
}

/// Ground height of the foothold registered under `id` at `x`: absent when
/// no such foothold is registered (a stale id never fails hard) or when it
/// does not cover `x`.
pub fn container_get_y_at_x(container: &FootholdContainer, id: u32, x: i64) -> (r: Option<Frac>)
    requires
        container_wf(*container),
        -2 * POS_LIMIT <= x <= 2 * POS_LIMIT,
    ensures
        match fh_lookup(container.data@, id) {
            Some(fh) => {
                &&& r is Some <==> fh_covers(fh, x as int)
                &&& match r {
                    Some(f) => {
                        &&& f.num == fh_height_num(fh, x as int)
                        &&& f.den == fh_den(fh)
                        &&& frac_wf(f)
                        &&& f.den <= DEN_CMP_LIMIT
                    },
                    None => true,
                }
            },
            None => r is None,
        },
{
    match container.get(id) {
        Some(fh) => {
            proof {
                lemma_lookup_char(container.data@, id);
            }
            fh.get_y_at_x(x)
        },
        None => None,
    }
}

} // verus!
