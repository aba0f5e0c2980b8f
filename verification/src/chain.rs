//! Footholds as point chains: one continuous piecewise-linear ground strip.
//!
//! Where the linked-segment representation gives every segment its own id,
//! a chain's identity is the whole strip. Chains carry a layer tag used to
//! prefer hand-off within the same visually-overlapping ground group before
//! scanning every strip.

use vstd::prelude::*;

use crate::COORD_LIMIT;
use crate::POS_LIMIT;
use crate::frac::DEN_CMP_LIMIT;
use crate::frac::Frac;
use crate::frac::frac_wf;
use crate::geometry::Point2d;

verus! {

/// A grouping tag: chains with the same layer can hand off to one another.
#[derive(Clone, Copy, Debug, PartialEq, Eq, Structural)]
pub struct FootholdLayer(pub u32);

/// A ground strip described by a chain of points, walked left to right.
#[derive(Clone, Debug)]
pub struct FootholdChain {
    pub points: Vec<Point2d>,
}

/// Every point of the chain lies inside the coordinate bounds.
pub open spec fn chain_wf(c: FootholdChain) -> bool {
    forall|i: int|
        0 <= i < c.points@.len() ==> -COORD_LIMIT <= (#[trigger] c.points@[i]).x <= COORD_LIMIT
            && -COORD_LIMIT <= c.points@[i].y <= COORD_LIMIT
}

/// `x` lies in the pair's horizontal span, and the pair is not degenerate.
/// A vertical pair (a wall) supports no height query and is skipped.
pub open spec fn pair_covers(p: Point2d, q: Point2d, x: int) -> bool {
    p.x < q.x && p.x <= x <= q.x
}

/// Denominator of the pair's interpolated height: the pair's span.
pub open spec fn pair_den(p: Point2d, q: Point2d) -> int {
    q.x - p.x
}

/// Numerator of the pair's interpolated height at `x` over [`pair_den`].
pub open spec fn pair_height_num(p: Point2d, q: Point2d, x: int) -> int {
    q.y * (q.x - p.x) + (x - q.x) * (q.y - p.y)
}

/// Index of the first consecutive point pair whose span covers `x`.
pub open spec fn chain_pair_at(s: Seq<Point2d>, x: int) -> Option<int>
    decreases s.len(),
{
    if s.len() < 2 {
        None
    } else if pair_covers(s[0], s[1], x) {
        Some(0)
    } else {
        match chain_pair_at(s.drop_first(), x) {
            Some(i) => Some(i + 1),
            None => None,
        }
    }
}

/// [`chain_pair_at`] finds the first covering pair: the pair at the index
/// covers `x` and no earlier pair does; `None` means no pair covers `x`.
pub proof fn lemma_chain_pair_at_char(s: Seq<Point2d>, x: int)
    ensures
        match chain_pair_at(s, x) {
            Some(i) => 0 <= i < s.len() - 1 && pair_covers(s[i], s[i + 1], x) && forall|j: int|
                0 <= j < i ==> !pair_covers(#[trigger] s[j], s[j + 1], x),
            None => forall|j: int|
                0 <= j < s.len() - 1 ==> !pair_covers(#[trigger] s[j], s[j + 1], x),
        },
    decreases s.len(),
{
    if s.len() >= 2 && !pair_covers(s[0], s[1], x) {
        let t = s.drop_first();
        lemma_chain_pair_at_char(t, x);
        assert(forall|j: int| 0 <= j < t.len() ==> t[j] == s[j + 1]);
        match chain_pair_at(t, x) {
            Some(i) => {
                assert forall|j: int| 0 <= j < i + 1 implies !pair_covers(
                    #[trigger] s[j],
                    s[j + 1],
                    x,
                ) by {
                    if j > 0 {
                        assert(s[j] == t[j - 1] && s[j + 1] == t[j]);
                    }
                }
            },
            None => {
                assert forall|j: int| 0 <= j < s.len() - 1 implies !pair_covers(
                    #[trigger] s[j],
                    s[j + 1],
                    x,
                ) by {
                    if j > 0 {
                        assert(s[j] == t[j - 1] && s[j + 1] == t[j]);
                    }
                }
            },
        }
    }
}

/// The chain's exact ground height at `x`: the first covering pair's
/// interpolation.
pub open spec fn chain_height(s: Seq<Point2d>, x: int) -> Option<(int, int)> {
    match chain_pair_at(s, x) {
        Some(i) => Some((pair_height_num(s[i], s[i + 1], x), pair_den(s[i], s[i + 1]))),
        None => None,
    }
}

/// An interpolated chain height stays between its pair's endpoint heights,
/// so inside the coordinate bounds.
pub proof fn lemma_pair_height_bounds(p: Point2d, q: Point2d, x: int)
    requires
        -COORD_LIMIT <= p.x <= COORD_LIMIT,
        -COORD_LIMIT <= p.y <= COORD_LIMIT,
        -COORD_LIMIT <= q.x <= COORD_LIMIT,
        -COORD_LIMIT <= q.y <= COORD_LIMIT,
        pair_covers(p, q, x),
    ensures
        -COORD_LIMIT * pair_den(p, q) <= pair_height_num(p, q, x),
        pair_height_num(p, q, x) <= COORD_LIMIT * pair_den(p, q),
{
    let fh = crate::foothold::Foothold {
        id: 1,
        x1: p.x,
        y1: p.y,
        x2: q.x,
        y2: q.y,
        prev: 0,
        next: 0,
    };
    crate::foothold::lemma_height_bounds(fh, x);
}

impl FootholdChain {
    /// Builds a chain from its points.
    pub fn from_points(points: &Vec<Point2d>) -> (r: FootholdChain)
        ensures
            r.points@ == points@,
    {
        FootholdChain { points: points.clone() }
    }

    /// Whether `x` falls inside the horizontal range of any consecutive
    /// point pair (degenerate pairs included: this is a pure range test).
    pub fn get_x_in_range(&self, x: i64) -> (r: bool)
        ensures
            r == exists|i: int|
                0 <= i < self.points@.len() - 1 && (#[trigger] self.points@[i]).x <= x
                    <= self.points@[i + 1].x,
    {
        let n = self.points.len();
        let mut it: usize = 1;
        while it < n
            invariant
                n == self.points@.len(),
                1 <= it <= n || n == 0,
                forall|j: int|
                    0 <= j < it - 1 ==> !((#[trigger] self.points@[j]).x <= x <= self.points@[j
                        + 1].x),
            decreases n - it,
        {
            if x >= self.points[it - 1].x && x <= self.points[it].x {
                return true;
            }
            it = it + 1;
        }
        false
    }

    /// The chain's exact ground height at `x`: scans consecutive point pairs
    /// and interpolates inside the first pair whose span covers `x`;
    /// undefined when no pair covers `x` (vertical pairs cover nothing).
    pub fn get_y_at_x(&self, x: i64) -> (r: Option<Frac>)
        requires
            chain_wf(*self),
            -2 * POS_LIMIT <= x <= 2 * POS_LIMIT,
        ensures
            r is Some <==> chain_height(self.points@, x as int) is Some,
            match r {
                Some(f) => {
                    &&& Some((f.num as int, f.den as int)) == chain_height(
                        self.points@,
                        x as int,
                    )
                    &&& frac_wf(f)
                    &&& f.den <= DEN_CMP_LIMIT
                    &&& f.den <= 2 * COORD_LIMIT
                },
                None => true,
            },
    {
        proof {
            lemma_chain_pair_at_char(self.points@, x as int);
        }
        let n = self.points.len();
        let mut it: usize = 1;
        while it < n
            invariant
                chain_wf(*self),
                -2 * POS_LIMIT <= x <= 2 * POS_LIMIT,
                n == self.points@.len(),
                1 <= it <= n || n == 0,
                forall|j: int| 0 <= j < it - 1 ==> !pair_covers(
                    #[trigger] self.points@[j],
                    self.points@[j + 1],
                    x as int,
                ),
            decreases n - it,
        {
            let p1 = self.points[it - 1];
            let p2 = self.points[it];
            if x >= p1.x && x <= p2.x && p1.x < p2.x {
                proof {
                    lemma_chain_pair_at_char(self.points@, x as int);
                    crate::frac::lemma_mul_range(
                        p2.y as int,
                        (p2.x as int) - (p1.x as int),
                        1_000_000_000,
                        2_000_000_000,
                    );
                    crate::frac::lemma_mul_range(
                        (x as int) - (p2.x as int),
                        (p2.y as int) - (p1.y as int),
                        2_000_000_000,
                        2_000_000_000,
                    );
                }
                let den = (p2.x as i128) - (p1.x as i128);
                let num = (p2.y as i128) * den + ((x as i128) - (p2.x as i128)) * ((p2.y as i128)
                    - (p1.y as i128));
                return Some(Frac { num, den });
            }
            it = it + 1;
        }
        proof {
            lemma_chain_pair_at_char(self.points@, x as int);
        }
        None
    }
}

/// The two foothold representations agree: a two-point chain defines a
/// ground height exactly where the equivalent single segment covers, and the
/// heights are the same exact rational.
pub proof fn lemma_representations_agree(fh: crate::foothold::Foothold, x: int)
    ensures
        ({
            let s = seq![
                Point2d { x: fh.x1, y: fh.y1 },
                Point2d { x: fh.x2, y: fh.y2 },
            ];
            &&& chain_height(s, x) is Some <==> crate::foothold::fh_covers(fh, x)
            &&& crate::foothold::fh_covers(fh, x) ==> chain_height(s, x) == Some(
                (crate::foothold::fh_height_num(fh, x), crate::foothold::fh_den(fh)),
            )
        }),
{
    let s = seq![Point2d { x: fh.x1, y: fh.y1 }, Point2d { x: fh.x2, y: fh.y2 }];
    assert(s.drop_first() =~= seq![Point2d { x: fh.x2, y: fh.y2 }]);
    assert(chain_pair_at(s.drop_first(), x) is None);
}

} // verus!
