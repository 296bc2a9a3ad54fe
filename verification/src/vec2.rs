//! Fixed-point 2D vectors and the integer arithmetic helpers (truncating
//! division, floor square root) that the geometry is built on.

use vstd::prelude::*;
use vstd::arithmetic::div_mod::*;
use vstd::arithmetic::mul::*;

verus! {

/// Magnitude cap under which the componentwise products used by `dot` and
/// `len_squared` cannot overflow an `i128`.
pub const MAG_LIMIT: i64 = 3_000_000_000_000_000_000;

/// Truncating (round-toward-zero) integer division, the semantics of Rust's
/// `/` on signed integers, expressed over mathematical integers.
pub open spec fn tdiv(a: int, b: int) -> int {
    if a >= 0 && b >= 0 {
        a / b
    } else if a < 0 && b < 0 {
        (-a) / (-b)
    } else if a < 0 {
        -((-a) / b)
    } else {
        -(a / (-b))
    }
}

/// Saturation of `x` into the band `[-lim, lim]`.
pub open spec fn clamp_s(x: int, lim: int) -> int {
    if x < -lim {
        -lim
    } else if x > lim {
        lim
    } else {
        x
    }
}

/// The floor of the real square root of `n`.
pub open spec fn sqrt_s(n: int) -> int {
    choose|r: int| #![trigger r * r] r >= 0 && r * r <= n && n < (r + 1) * (r + 1)
}

/// |a|, |b| <= m forces |a * b| <= m * m.
pub proof fn lemma_mul_mag_bound(a: int, b: int, m: int)
    requires
        -m <= a <= m,
        -m <= b <= m,
        m >= 0,
    ensures
        -(m * m) <= a * b <= m * m,
{
    assert(-(m * m) <= a * b <= m * m) by (nonlinear_arith)
        requires
            -m <= a <= m,
            -m <= b <= m,
            m >= 0,
    ;
}

/// A square is never negative.
pub proof fn lemma_square_nonneg(a: int)
    ensures
        a * a >= 0,
{
    assert(a * a >= 0) by (nonlinear_arith);
}

/// The square of a nonzero integer is at least one.
pub proof fn lemma_square_pos(a: int)
    requires
        a != 0,
    ensures
        a * a >= 1,
{
    assert(a * a >= 1) by (nonlinear_arith)
        requires
            a != 0,
    ;
}

/// |a| <= p and |b| <= q force |a * b| <= p * q.
pub proof fn lemma_mul_mag_bound2(a: int, b: int, p: int, q: int)
    requires
        -p <= a <= p,
        -q <= b <= q,
        p >= 0,
        q >= 0,
    ensures
        -(p * q) <= a * b <= p * q,
{
    assert(-(p * q) <= a * b <= p * q) by (nonlinear_arith)
        requires
            -p <= a <= p,
            -q <= b <= q,
            p >= 0,
            q >= 0,
    ;
}

/// A quotient of a bounded dividend is bounded: |a| <= m * b forces
/// |tdiv(a, b)| <= m.
pub proof fn lemma_tdiv_bound(a: int, b: int, m: int)
    requires
        b >= 1,
        m >= 0,
        -(m * b) <= a <= m * b,
    ensures
        -m <= tdiv(a, b) <= m,
{
    lemma_mul_is_commutative(m, b);
    if a >= 0 {
        lemma_div_is_ordered(a, b * m, b);
        lemma_div_multiples_vanish(m, b);
        lemma_div_pos_is_pos(a, b);
    } else {
        lemma_div_is_ordered(-a, b * m, b);
        lemma_div_multiples_vanish(m, b);
        lemma_div_pos_is_pos(-a, b);
    }
}

/// Truncating division by a positive divisor never grows the magnitude.
pub proof fn lemma_tdiv_le(a: int, b: int)
    requires
        b >= 1,
    ensures
        a >= 0 ==> 0 <= tdiv(a, b) <= a,
        a < 0 ==> a <= tdiv(a, b) <= 0,
{
    if a >= 0 {
        lemma_div_nonincreasing(a, b);
        lemma_div_pos_is_pos(a, b);
    } else {
        lemma_div_nonincreasing(-a, b);
        lemma_div_pos_is_pos(-a, b);
    }
}

/// Halving an even number is exact: 2 * tdiv(a, 2) == a.
pub proof fn lemma_tdiv_even_half(a: int)
    requires
        a % 2 == 0,
    ensures
        2 * tdiv(a, 2) == a,
        tdiv(a, 2) == a / 2,
{
    let q = a / 2;
    lemma_fundamental_div_mod(a, 2);
    if a >= 0 {
    } else {
        assert(-a == 2 * (-q));
        lemma_div_multiples_vanish(-q, 2);
    }
}

/// The floor square root is unique, so `sqrt_s` is pinned by its bounds.
pub proof fn lemma_sqrt_unique(n: int, r: int)
    requires
        r >= 0,
        r * r <= n,
        n < (r + 1) * (r + 1),
    ensures
        sqrt_s(n) == r,
{
    assert(r >= 0 && r * r <= n && n < (r + 1) * (r + 1));
    let c = sqrt_s(n);
    assert(c >= 0 && c * c <= n && n < (c + 1) * (c + 1));
    if c < r {
        lemma_mul_inequality(c + 1, r, c + 1);
        lemma_mul_inequality(c + 1, r, r);
        lemma_mul_is_commutative(c + 1, r);
        assert(false);
    }
    if r < c {
        lemma_mul_inequality(r + 1, c, r + 1);
        lemma_mul_inequality(r + 1, c, c);
        lemma_mul_is_commutative(r + 1, c);
        assert(false);
    }
}

/// Truncating division of an `i64` by a positive divisor.
pub fn div_i64(a: i64, b: i64) -> (q: i64)
    requires
        b > 0,
        a > i64::MIN,
    ensures
        q == tdiv(a as int, b as int),
{
    let ub: u64 = b as u64;
    if a >= 0 {
        let q0: u64 = (a as u64) / ub;
        proof {
            lemma_div_nonincreasing(a as int, b as int);
            lemma_div_pos_is_pos(a as int, b as int);
        }
        q0 as i64
    } else {
        let q0: u64 = ((-a) as u64) / ub;
        proof {
            lemma_div_nonincreasing(-a as int, b as int);
            lemma_div_pos_is_pos(-a as int, b as int);
        }
        -(q0 as i64)
    }
}

/// Truncating division of an `i128` by a positive divisor.
pub fn div_i128(a: i128, b: i128) -> (q: i128)
    requires
        b > 0,
        a > i128::MIN,
    ensures
        q == tdiv(a as int, b as int),
{
    let ub: u128 = b as u128;
    if a >= 0 {
        let q0: u128 = (a as u128) / ub;
        proof {
            lemma_div_nonincreasing(a as int, b as int);
            lemma_div_pos_is_pos(a as int, b as int);
        }
        q0 as i128
    } else {
        let q0: u128 = ((-a) as u128) / ub;
        proof {
            lemma_div_nonincreasing(-a as int, b as int);
            lemma_div_pos_is_pos(-a as int, b as int);
        }
        -(q0 as i128)
    }
}

/// Saturate an `i128` into the `i64` band `[-lim, lim]`.
pub fn clamp_i128(x: i128, lim: i64) -> (r: i64)
    requires
        lim >= 0,
    ensures
        r == clamp_s(x as int, lim as int),
{
    let wide: i128 = lim as i128;
    if x < -wide {
        -lim
    } else if x > wide {
        lim
    } else {
        x as i64
    }
}

/// Saturate `x` into `[-lim, lim]`.
pub fn clamp_i64(x: i64, lim: i64) -> (r: i64)
    requires
        lim >= 0,
    ensures
        r == clamp_s(x as int, lim as int),
{
    if x < -lim {
        -lim
    } else if x > lim {
        lim
    } else {
        x
    }
}

/// Floor square root of a `u128`, by bisection.
pub fn isqrt_u128(n: u128) -> (r: u128)
    ensures
        r * r <= n < (r + 1) * (r + 1),
        r == sqrt_s(n as int),
{
    let mut lo: u128 = 0;
    let mut hi: u128 = 18446744073709551616;
    while lo + 1 < hi
        invariant
            lo < hi <= 18446744073709551616,
            (lo as int) * (lo as int) <= n as int,
            (n as int) < (hi as int) * (hi as int),
        decreases hi - lo,
    {
        let mid: u128 = lo + (hi - lo) / 2;
        proof {
            lemma_div_pos_is_pos(hi - lo, 2);
            lemma_div_is_strictly_smaller(hi - lo, 2);
            lemma_div_is_ordered(2, hi - lo, 2);
            assert(lo < mid < hi);
            lemma_mul_mag_bound(mid as int, mid as int, 18446744073709551615int);
        }
        if mid * mid <= n {
            lo = mid;
        } else {
            hi = mid;
        }
    }
    proof {
        lemma_sqrt_unique(n as int, lo as int);
    }
    lo
}

/// A 2D vector in fixed-point subunits. Two vectors are equal exactly when
/// their coordinates are: at this resolution the surrounding application's
/// 10^-6-unit tolerance collapses to exact integer equality.
#[derive(Clone, Copy, Debug, PartialEq, Eq, Structural)]
pub struct Vec2 {
    pub x: i64,
    pub y: i64,
}

/// Dot product over mathematical integers.
pub open spec fn dot_s(a: Vec2, b: Vec2) -> int {
    a.x * b.x + a.y * b.y
}

/// Squared length over mathematical integers.
pub open spec fn len2_s(a: Vec2) -> int {
    dot_s(a, a)
}

/// Componentwise magnitude bound.
pub open spec fn in_mag(a: Vec2, lim: int) -> bool {
    -lim <= a.x <= lim && -lim <= a.y <= lim
}

impl Vec2 {
    pub fn new(x: i64, y: i64) -> (v: Vec2)
        ensures
            v == (Vec2 { x, y }),
    {
        Vec2 { x, y }
    }

    pub fn zero() -> (v: Vec2)
        ensures
            v == (Vec2 { x: 0, y: 0 }),
    {
        Vec2 { x: 0, y: 0 }
    }

    pub fn x(&self) -> (r: i64)
        ensures
            r == self.x,
    {
        self.x
    }

    pub fn y(&self) -> (r: i64)
        ensures
            r == self.y,
    {
        self.y
    }

    pub fn add(&self, other: &Vec2) -> (r: Vec2)
        requires
            i64::MIN <= self.x + other.x <= i64::MAX,
            i64::MIN <= self.y + other.y <= i64::MAX,
        ensures
            r.x == self.x + other.x,
            r.y == self.y + other.y,
    {
        Vec2 { x: self.x + other.x, y: self.y + other.y }
    }

    pub fn sub(&self, other: &Vec2) -> (r: Vec2)
        requires
            i64::MIN <= self.x - other.x <= i64::MAX,
            i64::MIN <= self.y - other.y <= i64::MAX,
        ensures
            r.x == self.x - other.x,
            r.y == self.y - other.y,
    {
        Vec2 { x: self.x - other.x, y: self.y - other.y }
    }

    /// Componentwise scaling by an integer factor.
    pub fn scale(&self, k: i64) -> (r: Vec2)
        requires
            i64::MIN <= self.x * k <= i64::MAX,
            i64::MIN <= self.y * k <= i64::MAX,
        ensures
            r.x == self.x * k,
            r.y == self.y * k,
    {
        Vec2 { x: self.x * k, y: self.y * k }
    }

    /// Componentwise truncating division by a positive integer factor.
    pub fn scale_div(&self, k: i64) -> (r: Vec2)
        requires
            k > 0,
            self.x > i64::MIN,
            self.y > i64::MIN,
        ensures
            r.x == tdiv(self.x as int, k as int),
            r.y == tdiv(self.y as int, k as int),
    {
        Vec2 { x: div_i64(self.x, k), y: div_i64(self.y, k) }
    }

    /// The left-hand perpendicular (a quarter turn counterclockwise).
    pub fn perpendicular(&self) -> (r: Vec2)
        requires
            self.y > i64::MIN,
        ensures
            r.x == -self.y,
            r.y == self.x,
    {
        Vec2 { x: -self.y, y: self.x }
    }

    pub fn dot(fst: &Vec2, snd: &Vec2) -> (r: i128)
        requires
            in_mag(*fst, MAG_LIMIT as int),
            in_mag(*snd, MAG_LIMIT as int),
        ensures
            r == dot_s(*fst, *snd),
    {
        proof {
            lemma_mul_mag_bound(fst.x as int, snd.x as int, MAG_LIMIT as int);
            lemma_mul_mag_bound(fst.y as int, snd.y as int, MAG_LIMIT as int);
        }
        (fst.x as i128) * (snd.x as i128) + (fst.y as i128) * (snd.y as i128)
    }

    pub fn len_squared(&self) -> (r: i128)
        requires
            in_mag(*self, MAG_LIMIT as int),
        ensures
            r == len2_s(*self),
            r >= 0,
    {
        proof {
            lemma_square_nonneg(self.x as int);
            lemma_square_nonneg(self.y as int);
        }
        Vec2::dot(self, self)
    }

    /// Fixed-point length: the floor of the real length in subunits.
    pub fn len(&self) -> (r: i64)
        requires
            in_mag(*self, MAG_LIMIT as int),
        ensures
            r == sqrt_s(len2_s(*self)),
            r >= 0,
            r * r <= len2_s(*self) < (r + 1) * (r + 1),
    {
        let n: i128 = self.len_squared();
        let r: u128 = isqrt_u128(n as u128);
        proof {
            lemma_mul_mag_bound(self.x as int, self.x as int, MAG_LIMIT as int);
            lemma_mul_mag_bound(self.y as int, self.y as int, MAG_LIMIT as int);
            assert((r as int) * (r as int) <= 18000000000000000000000000000000000000int);
            assert((r as int) <= 9223372036854775807int) by (nonlinear_arith)
                requires
                    r as int >= 0,
                    (r as int) * (r as int) <= 18000000000000000000000000000000000000int,
            ;
        }
        r as i64
    }
}

} // verus!
