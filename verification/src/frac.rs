//! Exact rational numbers with a positive denominator.
//!
//! Interpolated ground heights and segment intersection points are ratios of
//! integer coordinates. Carrying them as `Frac` values keeps every comparison
//! in the collision logic exact: there is no rounding until a position is
//! committed, and committing rounds up explicitly through [`Frac::ceil`].

use vstd::prelude::*;

verus! {

/// An exact rational number `num / den`. Well-formed values have `den > 0`.
///
/// Equality derived on `Frac` is equality of representations; equality of
/// values is [`frac_eq`].
#[derive(Clone, Copy, Debug, PartialEq, Eq, Structural)]
pub struct Frac {
    pub num: i128,
    pub den: i128,
}

/// A well-formed rational has a positive denominator.
pub open spec fn frac_wf(f: Frac) -> bool {
    f.den > 0
}

/// `f <= k`, by cross multiplication with the positive denominator.
pub open spec fn frac_le_int(f: Frac, k: int) -> bool {
    f.num <= k * f.den
}

/// `f < k`.
pub open spec fn frac_lt_int(f: Frac, k: int) -> bool {
    f.num < k * f.den
}

/// `f >= k`.
pub open spec fn frac_ge_int(f: Frac, k: int) -> bool {
    f.num >= k * f.den
}

/// `f > k`.
pub open spec fn frac_gt_int(f: Frac, k: int) -> bool {
    f.num > k * f.den
}

/// `f == k`.
pub open spec fn frac_is_int(f: Frac, k: int) -> bool {
    f.num == k * f.den
}

/// The two rationals denote the same value.
pub open spec fn frac_eq(a: Frac, b: Frac) -> bool {
    a.num * b.den == b.num * a.den
}

/// Smallest integer at or above `f`. For `den > 0` this is the Euclidean
/// quotient of `num + den - 1` by `den`.
pub open spec fn frac_ceil(f: Frac) -> int {
    (f.num + f.den - 1) / (f.den as int)
}

/// Denominator bound under which comparisons against an `i64` cannot
/// overflow an `i128` product.
pub const DEN_CMP_LIMIT: i128 = 0x7fff_ffff_ffff_ffff;

/// `|a| <= m1` and `|b| <= m2` bound the product `a * b` by `m1 * m2`.
pub proof fn lemma_mul_range(a: int, b: int, m1: int, m2: int)
    requires
        0 <= m1,
        0 <= m2,
        -m1 <= a <= m1,
        -m2 <= b <= m2,
    ensures
        -(m1 * m2) <= a * b <= m1 * m2,
{
    assert(-(m1 * m2) <= a * b <= m1 * m2) by (nonlinear_arith)
        requires
            0 <= m1,
            0 <= m2,
            -m1 <= a <= m1,
            -m2 <= b <= m2;
}

/// The product of an `i64`-range factor and a denominator at most
/// `DEN_CMP_LIMIT` stays inside `i128`.
proof fn lemma_cmp_mul_in_range(k: int, d: int)
    requires
        -0x8000_0000_0000_0000 <= k <= 0x7fff_ffff_ffff_ffff,
        0 < d <= 0x7fff_ffff_ffff_ffff,
    ensures
        -0x4000_0000_0000_0000_0000_0000_0000_0000 <= k * d
            <= 0x4000_0000_0000_0000_0000_0000_0000_0000,
{
    assert(-0x4000_0000_0000_0000_0000_0000_0000_0000 <= k * d
        <= 0x4000_0000_0000_0000_0000_0000_0000_0000) by (nonlinear_arith)
        requires
            -0x8000_0000_0000_0000 <= k <= 0x7fff_ffff_ffff_ffff,
            0 < d <= 0x7fff_ffff_ffff_ffff;
}

impl Frac {
    /// Builds the rational `num / den`.
    pub fn new(num: i128, den: i128) -> (r: Frac)
        requires
            den > 0,
        ensures
            r.num == num,
            r.den == den,
            frac_wf(r),
    {
        Frac { num, den }
    }

    /// Builds the rational with value `k`.
    pub fn from_int(k: i64) -> (r: Frac)
        ensures
            frac_wf(r),
            frac_is_int(r, k as int),
            r.num == k as int,
            r.den == 1,
    {
        Frac { num: k as i128, den: 1 }
    }

    /// `self <= k`.
    pub fn le_int(&self, k: i64) -> (r: bool)
        requires
            frac_wf(*self),
            self.den <= DEN_CMP_LIMIT,
        ensures
            r == frac_le_int(*self, k as int),
    {
        proof {
            lemma_cmp_mul_in_range(k as int, self.den as int);
        }
        self.num <= (k as i128) * self.den
    }

    /// `self < k`.
    pub fn lt_int(&self, k: i64) -> (r: bool)
        requires
            frac_wf(*self),
            self.den <= DEN_CMP_LIMIT,
        ensures
            r == frac_lt_int(*self, k as int),
    {
        proof {
            lemma_cmp_mul_in_range(k as int, self.den as int);
        }
        self.num < (k as i128) * self.den
    }

    /// `self >= k`.
    pub fn ge_int(&self, k: i64) -> (r: bool)
        requires
            frac_wf(*self),
            self.den <= DEN_CMP_LIMIT,
        ensures
            r == frac_ge_int(*self, k as int),
    {
        proof {
            lemma_cmp_mul_in_range(k as int, self.den as int);
        }
        self.num >= (k as i128) * self.den
    }

    /// `self > k`.
    pub fn gt_int(&self, k: i64) -> (r: bool)
        requires
            frac_wf(*self),
            self.den <= DEN_CMP_LIMIT,
        ensures
            r == frac_gt_int(*self, k as int),
    {
        proof {
            lemma_cmp_mul_in_range(k as int, self.den as int);
        }
        self.num > (k as i128) * self.den
    }

    /// `self == k`.
    pub fn eq_int(&self, k: i64) -> (r: bool)
        requires
            frac_wf(*self),
            self.den <= DEN_CMP_LIMIT,
        ensures
            r == frac_is_int(*self, k as int),
    {
        proof {
            lemma_cmp_mul_in_range(k as int, self.den as int);
        }
        self.num == (k as i128) * self.den
    }

    /// Smallest integer at or above `self`.
    pub fn ceil(&self) -> (r: i64)
        requires
            frac_wf(*self),
            self.den <= DEN_CMP_LIMIT,
            frac_ge_int(*self, i64::MIN as int),
            frac_le_int(*self, i64::MAX as int),
        ensures
            r == frac_ceil(*self),
    {
        let n = self.num;
        let d = self.den;
        proof {
            lemma_frac_ceil_props(n as int, d as int);
            let c = frac_ceil(*self);
            assert(c <= i64::MAX) by (nonlinear_arith)
                requires
                    d > 0,
                    n <= (i64::MAX as int) * d,
                    d * (c - 1) < n;
            assert(c >= i64::MIN) by (nonlinear_arith)
                requires
                    d > 0,
                    n >= (i64::MIN as int) * d,
                    n <= d * c;
            assert(n >= (i64::MIN as int) * DEN_CMP_LIMIT) by (nonlinear_arith)
                requires
                    0 < d <= DEN_CMP_LIMIT,
                    n >= (i64::MIN as int) * d;
            assert(n <= (i64::MAX as int) * DEN_CMP_LIMIT) by (nonlinear_arith)
                requires
                    0 < d <= DEN_CMP_LIMIT,
                    n <= (i64::MAX as int) * d;
        }
        if n >= 0 {
            let q = (n + d - 1) / d;
            q as i64
        } else {
            let q = (-n) / d;
            proof {
                lemma_neg_div_is_ceil(n as int, d as int);
            }
            (-q) as i64
        }
    }
}

/// The ceiling of a well-formed rational `f` satisfies
/// `den * (ceil - 1) < num <= den * ceil`.
pub proof fn lemma_frac_ceil_between(f: Frac)
    requires
        frac_wf(f),
    ensures
        f.den * (frac_ceil(f) - 1) < f.num,
        f.num <= f.den * frac_ceil(f),
{
    lemma_frac_ceil_props(f.num as int, f.den as int);
}

/// For `d > 0`, the Euclidean quotient `c = (n + d - 1) / d` is the ceiling
/// of `n / d`: `d * (c - 1) < n <= d * c`.
pub proof fn lemma_ceil_quotient_props(n: int, d: int)
    requires
        d > 0,
    ensures
        d * (((n + d - 1) / d) - 1) < n,
        n <= d * ((n + d - 1) / d),
{
    lemma_frac_ceil_props(n, d);
}

/// For `d > 0`, `c = (n + d - 1) / d` is characterized as the ceiling of
/// `n / d` by `d * (c - 1) < n <= d * c`.
proof fn lemma_frac_ceil_props(n: int, d: int)
    requires
        d > 0,
    ensures
        d * (((n + d - 1) / d) - 1) < n,
        n <= d * ((n + d - 1) / d),
{
    vstd::arithmetic::div_mod::lemma_fundamental_div_mod(n + d - 1, d);
    let q = (n + d - 1) / d;
    let r = (n + d - 1) % d;
    assert(n + d - 1 == d * q + r);
    assert(0 <= r < d) by {
        vstd::arithmetic::div_mod::lemma_mod_bound(n + d - 1, d);
    }
    assert(d * (q - 1) == d * q - d) by (nonlinear_arith);
}

/// For `n < 0 < d`, the quotient of nonnegative operands `-((-n) / d)`
/// equals the Euclidean ceiling quotient `(n + d - 1) / d`.
proof fn lemma_neg_div_is_ceil(n: int, d: int)
    requires
        n < 0,
        d > 0,
    ensures
        -((-n) / d) == (n + d - 1) / d,
{
    vstd::arithmetic::div_mod::lemma_fundamental_div_mod(-n, d);
    let q = (-n) / d;
    let r = (-n) % d;
    assert(0 <= r < d) by {
        vstd::arithmetic::div_mod::lemma_mod_bound(-n, d);
    }
    assert(-n == d * q + r);
    if r == 0 {
        assert((-q) * d + (d - 1) == n + d - 1) by (nonlinear_arith)
            requires
                -n == d * q + r,
                r == 0;
        vstd::arithmetic::div_mod::lemma_fundamental_div_mod_converse(n + d - 1, d, -q, d - 1);
    } else {
        assert((-q) * d + (d - r - 1) == n + d - 1) by (nonlinear_arith)
            requires
                -n == d * q + r;
        vstd::arithmetic::div_mod::lemma_fundamental_div_mod_converse(
            n + d - 1,
            d,
            -q,
            d - r - 1,
        );
    }
}

} // verus!
