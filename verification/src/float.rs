//! The scalar that every other module computes with.
//!
//! A `MyFloat` is a signed decimal fixed-point number with nine fractional
//! digits, held as a whole count of billionths in an `i64`. Sums and
//! differences are exact, products and quotients are rounded to the nearest
//! billionth (ties away from zero), and every result that would leave the
//! representable range is pinned to the nearest bound, so no operation can
//! overflow or trap. For computations of several steps that round only
//! once, the module also has a square root and a rounded quotient on wide
//! integers.
use core::cmp::Ordering;
use vstd::prelude::*;

verus! {

/// How many billionths make one unit.
pub const SCALE: i64 = 1_000_000_000;

/// The largest count of billionths a result can hold; the smallest is `-LIMIT`.
pub const LIMIT: i64 = 9_223_372_036_854_775_807;

/// Two scalars closer than this many billionths compare as equal.
pub const EPSILON: i64 = 10_000;

/// The absolute value of `v`.
pub open spec fn magnitude_of(v: int) -> int {
    if v < 0 {
        -v
    } else {
        v
    }
}

/// `v` pinned to the range from `-LIMIT` to `LIMIT`.
pub open spec fn clamp(v: int) -> int {
    if v > LIMIT {
        LIMIT as int
    } else if v < -LIMIT {
        -LIMIT
    } else {
        v
    }
}

/// The integer nearest to `n / d`, ties rounded away from zero.
pub open spec fn round_div(n: int, d: int) -> int
    recommends
        d != 0,
{
    let q = (2 * magnitude_of(n) + magnitude_of(d)) / (2 * magnitude_of(d));
    if (n < 0) == (d < 0) {
        q
    } else {
        -q
    }
}

/// Whether `v` lies within the representable range.
pub open spec fn fits(v: int) -> bool {
    -LIMIT <= v <= LIMIT
}

/// `r` is the square root of `n`, rounded down.
pub open spec fn is_floor_sqrt(n: int, r: int) -> bool {
    0 <= r && r * r <= n < (r + 1) * (r + 1)
}

/// The square root of `n`, rounded down (for `n >= 0`).
pub open spec fn floor_sqrt(n: int) -> int
    recommends
        n >= 0,
{
    choose|r: int| is_floor_sqrt(n, r)
}

/// Only one integer is the rounded-down square root of `n`.
pub proof fn lemma_floor_sqrt_unique(n: int, r: int)
    requires
        is_floor_sqrt(n, r),
    ensures
        floor_sqrt(n) == r,
{
    let c = floor_sqrt(n);
    assert(is_floor_sqrt(n, c));
    assert(c == r) by (nonlinear_arith)
        requires
            0 <= r,
            r * r <= n < (r + 1) * (r + 1),
            0 <= c,
            c * c <= n < (c + 1) * (c + 1),
    {
        if c < r {
            assert((c + 1) * (c + 1) <= r * r);
        } else if r < c {
            assert((r + 1) * (r + 1) <= c * c);
        }
    }
}

/// `round_div` is within half a divisor of the exact quotient.
pub proof fn lemma_round_div_error(n: int, d: int)
    requires
        d != 0,
    ensures
        2 * magnitude_of(n - round_div(n, d) * d) <= magnitude_of(d),
{
    let an = magnitude_of(n);
    let ad = magnitude_of(d);
    let q = (2 * an + ad) / (2 * ad);
    let r = (2 * an + ad) % (2 * ad);
    vstd::arithmetic::div_mod::lemma_fundamental_div_mod(2 * an + ad, 2 * ad);
    vstd::arithmetic::div_mod::lemma_mod_bound(2 * an + ad, 2 * ad);
    assert(2 * an + ad == (2 * ad) * q + r);
    assert(2 * (an - q * ad) == r - ad) by (nonlinear_arith)
        requires
            2 * an + ad == (2 * ad) * q + r,
    ;
    assert(-ad <= 2 * (an - q * ad) < ad);
    let rd = round_div(n, d);
    assert(magnitude_of(n - rd * d) == magnitude_of(an - q * ad)) by (nonlinear_arith)
        requires
            an == magnitude_of(n),
            ad == magnitude_of(d),
            d != 0,
            rd == (if (n < 0) == (d < 0) {
                q
            } else {
                -q
            }),
    {
        if n < 0 {
            if d < 0 {
                assert(n - q * d == -(an - q * ad));
            } else {
                assert(n - (-q) * d == -(an - q * ad));
            }
        } else {
            if d < 0 {
                assert(n - (-q) * d == an - q * ad);
            } else {
                assert(n - q * d == an - q * ad);
            }
        }
    }
}

/// A whole multiple of the divisor is divided without rounding.
pub proof fn lemma_round_div_exact(k: int, d: int)
    requires
        d != 0,
    ensures
        round_div(k * d, d) == k,
{
    let n = k * d;
    let an = magnitude_of(n);
    let ad = magnitude_of(d);
    let ak = magnitude_of(k);
    assert(an == ak * ad) by (nonlinear_arith)
        requires
            n == k * d,
            an == magnitude_of(n),
            ad == magnitude_of(d),
            ak == magnitude_of(k),
    ;
    assert(2 * an + ad == (2 * ad) * ak + ad) by (nonlinear_arith)
        requires
            an == ak * ad,
    ;
    vstd::arithmetic::div_mod::lemma_fundamental_div_mod_converse(2 * an + ad, 2 * ad, ak, ad);
    assert((n < 0) == (d < 0) || k <= 0) by (nonlinear_arith)
        requires
            n == k * d,
            d != 0,
    ;
    assert(!((n < 0) == (d < 0)) || k >= 0) by (nonlinear_arith)
        requires
            n == k * d,
            d != 0,
    ;
}

/// With a positive divisor, a larger dividend never gives a smaller rounded
/// quotient.
pub proof fn lemma_round_div_monotone(n1: int, n2: int, d: int)
    requires
        d > 0,
        n1 <= n2,
    ensures
        round_div(n1, d) <= round_div(n2, d),
{
    let q1 = (2 * magnitude_of(n1) + d) / (2 * d);
    let q2 = (2 * magnitude_of(n2) + d) / (2 * d);
    vstd::arithmetic::div_mod::lemma_div_pos_is_pos(2 * magnitude_of(n1) + d, 2 * d);
    vstd::arithmetic::div_mod::lemma_div_pos_is_pos(2 * magnitude_of(n2) + d, 2 * d);
    if n1 >= 0 {
        vstd::arithmetic::div_mod::lemma_div_is_ordered(2 * n1 + d, 2 * n2 + d, 2 * d);
    } else if n2 < 0 {
        vstd::arithmetic::div_mod::lemma_div_is_ordered(2 * (-n2) + d, 2 * (-n1) + d, 2 * d);
    }
}

/// A signed decimal with nine fractional digits, stored as its count of
/// billionths. `raw == 1_500_000_000` is one and a half.
#[derive(Clone, Copy, Debug)]
pub struct MyFloat {
    pub raw: i64,
}

impl View for MyFloat {
    type V = int;

    /// The number as its count of billionths.
    open spec fn view(&self) -> int {
        self.raw as int
    }
}

/// The scalar whose count of billionths is `v` pinned to the representable range.
pub open spec fn saturated(v: int) -> MyFloat {
    MyFloat { raw: clamp(v) as i64 }
}

impl MyFloat {
    /// The count of billionths the number stands for in wide computations:
    /// the count itself, except that the one count below `-LIMIT` stands for
    /// `-LIMIT`.
    pub open spec fn held(self) -> int {
        clamp(self@)
    }

    /// The sum, pinned to the representable range. In specifications `a + b`.
    pub open spec fn spec_add(self, rhs: MyFloat) -> MyFloat {
        saturated(self@ + rhs@)
    }

    /// The difference, pinned to the representable range. In specifications `a - b`.
    pub open spec fn spec_sub(self, rhs: MyFloat) -> MyFloat {
        saturated(self@ - rhs@)
    }

    /// The negation, pinned to the representable range. In specifications `-a`.
    pub open spec fn spec_neg(self) -> MyFloat {
        saturated(-self@)
    }

    /// The product, rounded to the nearest billionth and pinned to the
    /// representable range. In specifications `a * b`.
    #[verifier::opaque]
    pub open spec fn spec_mul(self, rhs: MyFloat) -> MyFloat {
        saturated(round_div(self@ * rhs@, SCALE as int))
    }

    /// The quotient, rounded to the nearest billionth and pinned to the
    /// representable range. Dividing a non-zero number by zero gives the
    /// bound of its sign; zero divided by zero is zero.
    #[verifier::opaque]
    pub open spec fn spec_div(self, rhs: MyFloat) -> MyFloat {
        if rhs@ == 0 {
            if self@ > 0 {
                saturated(LIMIT as int)
            } else if self@ < 0 {
                saturated(-LIMIT)
            } else {
                saturated(0)
            }
        } else {
            saturated(round_div(self@ * SCALE, rhs@))
        }
    }

    /// The square root, rounded down to a billionth (for a number that is not
    /// negative).
    #[verifier::opaque]
    pub open spec fn spec_sqrt(self) -> MyFloat
        recommends
            self@ >= 0,
    {
        saturated(floor_sqrt(self@ * SCALE))
    }

    /// The whole number `n`.
    pub open spec fn whole(n: int) -> MyFloat {
        saturated(n * SCALE)
    }

    /// Whether the two numbers differ by less than `EPSILON` billionths.
    pub open spec fn approx_eq(self, other: MyFloat) -> bool {
        magnitude_of(self@ - other@) < EPSILON
    }

    /// The scalar with the given count of billionths.
    pub fn new(raw: i64) -> (r: MyFloat)
        ensures
            r@ == raw,
    {
        MyFloat { raw }
    }

    /// The whole number `n`, which is always representable.
    pub fn from_int(n: i32) -> (r: MyFloat)
        ensures
            r == Self::whole(n as int),
            r@ == n * SCALE,
    {
        let wide: i64 = n as i64;
        MyFloat { raw: wide * SCALE }
    }

    /// The count of billionths.
    pub fn raw(&self) -> (r: i64)
        ensures
            r == self@,
    {
        self.raw
    }

    pub fn add(self, rhs: MyFloat) -> (r: MyFloat)
        ensures
            r == self + rhs,
    {
        saturate(self.raw as i128 + rhs.raw as i128)
    }

    pub fn sub(self, rhs: MyFloat) -> (r: MyFloat)
        ensures
            r == self - rhs,
    {
        saturate(self.raw as i128 - rhs.raw as i128)
    }

    pub fn neg(self) -> (r: MyFloat)
        ensures
            r == -self,
    {
        saturate(-(self.raw as i128))
    }

    pub fn mul(self, rhs: MyFloat) -> (r: MyFloat)
        ensures
            r == self * rhs,
    {
        reveal(MyFloat::spec_mul);
        let a: i128 = self.raw as i128;
        let b: i128 = rhs.raw as i128;
        assert(-0x4000_0000_0000_0000_0000_0000_0000_0000 <= a * b
            <= 0x4000_0000_0000_0000_0000_0000_0000_0000) by (nonlinear_arith)
            requires
                -0x8000_0000_0000_0000 <= a <= 0x8000_0000_0000_0000,
                -0x8000_0000_0000_0000 <= b <= 0x8000_0000_0000_0000,
        ;
        saturate(rounded_quotient(a * b, SCALE as i128))
    }

    pub fn div(self, rhs: MyFloat) -> (r: MyFloat)
        ensures
            r == self.spec_div(rhs),
    {
        reveal(MyFloat::spec_div);
        if rhs.raw == 0 {
            if self.raw > 0 {
                MyFloat { raw: LIMIT }
            } else if self.raw < 0 {
                MyFloat { raw: -LIMIT }
            } else {
                MyFloat { raw: 0 }
            }
        } else {
            let n: i128 = self.raw as i128 * 1_000_000_000;
            saturate(rounded_quotient(n, rhs.raw as i128))
        }
    }

    /// The square root of a number that is not negative, rounded down to a
    /// billionth.
    pub fn sqrt(&self) -> (r: MyFloat)
        requires
            self@ >= 0,
        ensures
            r == self.spec_sqrt(),
            is_floor_sqrt(self@ * SCALE, r@),
    {
        reveal(MyFloat::spec_sqrt);
        let n: u128 = (self.raw as u128) * 1_000_000_000;
        let root = root_floor(n);
        proof {
            lemma_floor_sqrt_unique(n as int, root as int);
        }
        MyFloat { raw: root as i64 }
    }

    /// Whether the two numbers are equal within the tolerance.
    pub fn equals(&self, other: MyFloat) -> (r: bool)
        ensures
            r == self.approx_eq(other),
    {
        let d: i128 = self.raw as i128 - other.raw as i128;
        -(EPSILON as i128) < d && d < EPSILON as i128
    }

    /// How the number compares to `other` when numbers within the tolerance
    /// of each other count as equal.
    pub open spec fn compared_to(self, other: MyFloat) -> Ordering {
        if self.approx_eq(other) {
            Ordering::Equal
        } else if self@ < other@ {
            Ordering::Less
        } else {
            Ordering::Greater
        }
    }

    /// The comparison with tolerance. It always gives an answer.
    pub fn partial_cmp(&self, other: &MyFloat) -> (r: Option<Ordering>)
        ensures
            r == Some(self.compared_to(*other)),
    {
        if self.equals(*other) {
            Some(Ordering::Equal)
        } else if self.raw < other.raw {
            Some(Ordering::Less)
        } else {
            Some(Ordering::Greater)
        }
    }

    /// Less than `other`, and not equal to it within the tolerance.
    pub fn lt(&self, other: MyFloat) -> (r: bool)
        ensures
            r == (!self.approx_eq(other) && self@ < other@),
    {
        !self.equals(other) && self.raw < other.raw
    }

    /// Less than `other`, or equal to it within the tolerance.
    pub fn le(&self, other: MyFloat) -> (r: bool)
        ensures
            r == (self.approx_eq(other) || self@ < other@),
    {
        self.equals(other) || self.raw < other.raw
    }

    /// Greater than `other`, and not equal to it within the tolerance.
    pub fn gt(&self, other: MyFloat) -> (r: bool)
        ensures
            r == (!self.approx_eq(other) && self@ > other@),
    {
        !self.equals(other) && self.raw > other.raw
    }

    /// Greater than `other`, or equal to it within the tolerance.
    pub fn ge(&self, other: MyFloat) -> (r: bool)
        ensures
            r == (self.approx_eq(other) || self@ > other@),
    {
        self.equals(other) || self.raw > other.raw
    }
}

/// A product does not depend on the order of its factors.
pub proof fn lemma_mul_commutes(a: MyFloat, b: MyFloat)
    ensures
        a * b == b * a,
{
    reveal(MyFloat::spec_mul);
    assert(a@ * b@ == b@ * a@) by (nonlinear_arith);
}

/// Multiplying by one changes nothing.
pub proof fn lemma_mul_one(a: MyFloat)
    requires
        fits(a@),
    ensures
        MyFloat::whole(1) * a == a,
        a * MyFloat::whole(1) == a,
{
    reveal(MyFloat::spec_mul);
    lemma_round_div_exact(a@, SCALE as int);
    assert(a@ * SCALE == SCALE * a@) by (nonlinear_arith);
}

/// Multiplying by zero gives zero.
pub proof fn lemma_mul_zero(a: MyFloat)
    ensures
        MyFloat::whole(0) * a == MyFloat::whole(0),
        a * MyFloat::whole(0) == MyFloat::whole(0),
{
    reveal(MyFloat::spec_mul);
    lemma_round_div_exact(0, SCALE as int);
    assert(a@ * 0 == 0 && 0 * a@ == 0) by (nonlinear_arith);
}

/// Multiplying by a whole number is exact: nothing is rounded.
pub proof fn lemma_mul_whole(n: int, a: MyFloat)
    requires
        fits(n * SCALE),
    ensures
        MyFloat::whole(n) * a == saturated(n * a@),
        a * MyFloat::whole(n) == saturated(n * a@),
{
    reveal(MyFloat::spec_mul);
    lemma_round_div_exact(n * a@, SCALE as int);
    assert((n * SCALE) * a@ == (n * a@) * SCALE && a@ * (n * SCALE) == (n * a@) * SCALE)
        by (nonlinear_arith);
}

/// Every number that is not negative has a rounded-down square root.
pub proof fn lemma_floor_sqrt_exists(n: int) -> (r: int)
    requires
        n >= 0,
    ensures
        is_floor_sqrt(n, r),
    decreases n,
{
    if n == 0 {
        assert(is_floor_sqrt(0, 0)) by (nonlinear_arith);
        0
    } else {
        let p = lemma_floor_sqrt_exists(n - 1);
        if (p + 1) * (p + 1) <= n {
            assert(0 <= p + 1 && n < (p + 1 + 1) * (p + 1 + 1)) by (nonlinear_arith)
                requires
                    n - 1 < (p + 1) * (p + 1),
                    p >= 0,
            ;
            p + 1
        } else {
            p
        }
    }
}

/// Dividing by one changes nothing.
pub proof fn lemma_div_one(a: MyFloat)
    requires
        fits(a@),
    ensures
        a.spec_div(MyFloat::whole(1)) == a,
{
    reveal(MyFloat::spec_div);
    lemma_round_div_exact(a@, SCALE as int);
}

/// Halving the double of a number returns the number.
pub proof fn lemma_half_of_double(a: MyFloat)
    requires
        fits(2 * a@),
    ensures
        saturated(500_000_000) * (MyFloat::whole(2) * a) == a,
{
    lemma_mul_whole(2, a);
    reveal(MyFloat::spec_mul);
    lemma_round_div_exact(a@, SCALE as int);
    assert(500_000_000 * (2 * a@) == a@ * SCALE) by (nonlinear_arith);
}

/// Pins a wide intermediate result to the representable range.
pub fn saturate(v: i128) -> (r: MyFloat)
    ensures
        r == saturated(v as int),
{
    if v > LIMIT as i128 {
        MyFloat { raw: LIMIT }
    } else if v < -(LIMIT as i128) {
        MyFloat { raw: -LIMIT }
    } else {
        MyFloat { raw: v as i64 }
    }
}

/// Divides with rounding to nearest, ties away from zero.
fn rounded_quotient(n: i128, d: i128) -> (q: i128)
    requires
        d != 0,
        -0x4000_0000_0000_0000_0000_0000_0000_0000 <= n,
        n <= 0x4000_0000_0000_0000_0000_0000_0000_0000,
        -0x8000_0000_0000_0000 <= d <= 0x8000_0000_0000_0000,
    ensures
        q == round_div(n as int, d as int),
{
    let an: u128 = if n < 0 {
        (-n) as u128
    } else {
        n as u128
    };
    let ad: u128 = if d < 0 {
        (-d) as u128
    } else {
        d as u128
    };
    let q: u128 = (2 * an + ad) / (2 * ad);
    assert(q <= an + ad) by (nonlinear_arith)
        requires
            q == (2 * an + ad) / (2 * ad),
            ad >= 1,
    {
        assert((2 * an + ad) / (2 * ad) <= 2 * an + ad);
    }
    if (n < 0) == (d < 0) {
        q as i128
    } else {
        -(q as i128)
    }
}

/// The count `held`, as a wide integer.
pub fn held_wide(v: MyFloat) -> (c: i128)
    ensures
        c == v.held(),
        -LIMIT <= c <= LIMIT,
{
    if v.raw < -LIMIT {
        -(LIMIT as i128)
    } else {
        v.raw as i128
    }
}

/// The quotient of two wide integers, rounded to the nearest whole number
/// (ties away from zero) and pinned to the representable range.
pub fn ratio(n: i128, d: u128) -> (r: MyFloat)
    requires
        1 <= d <= 0x1_0000_0000_0000_0000,
        -0x10_0000_0000_0000_0000_0000_0000 <= n <= 0x10_0000_0000_0000_0000_0000_0000,
    ensures
        r == saturated(round_div(n as int, d as int)),
{
    let an: u128 = if n < 0 {
        (-n) as u128
    } else {
        n as u128
    };
    let q: u128 = (2 * an + d) / (2 * d);
    assert(q <= 2 * an + d) by (nonlinear_arith)
        requires
            q == (2 * an + d) / (2 * d),
            d >= 1,
    ;
    if n < 0 {
        saturate(-(q as i128))
    } else {
        saturate(q as i128)
    }
}

/// The square root of any `n`, rounded down, by bisection.
pub fn wide_root(n: u128) -> (r: u128)
    ensures
        is_floor_sqrt(n as int, r as int),
        r < 0x1_0000_0000_0000_0000,
{
    let mut lo: u128 = 0;
    let mut hi: u128 = 0x1_0000_0000_0000_0000;
    assert(0x1_0000_0000_0000_0000int * 0x1_0000_0000_0000_0000int
        == 0x1_0000_0000_0000_0000_0000_0000_0000_0000int) by (nonlinear_arith);
    while hi - lo > 1
        invariant
            lo < hi <= 0x1_0000_0000_0000_0000,
            lo * lo <= n < hi * hi,
        decreases hi - lo,
    {
        let mid: u128 = lo + (hi - lo) / 2;
        assert(mid * mid <= 0xFFFF_FFFF_FFFF_FFFF * 0xFFFF_FFFF_FFFF_FFFF) by (nonlinear_arith)
            requires
                mid <= 0xFFFF_FFFF_FFFF_FFFF,
        ;
        if mid * mid <= n {
            lo = mid;
        } else {
            hi = mid;
        }
    }
    lo
}

/// The square root of `n`, rounded down, by bisection.
fn root_floor(n: u128) -> (r: u128)
    requires
        n < 0x2000_0000_0000_0000_0000_0000,
    ensures
        is_floor_sqrt(n as int, r as int),
        r < 0x8000_0000_0000,
{
    let mut lo: u128 = 0;
    let mut hi: u128 = 0x8000_0000_0000;
    assert(0x8000_0000_0000u128 * 0x8000_0000_0000u128 == 0x4000_0000_0000_0000_0000_0000)
        by (nonlinear_arith);
    while hi - lo > 1
        invariant
            lo < hi <= 0x8000_0000_0000,
            lo * lo <= n < hi * hi,
        decreases hi - lo,
    {
        let mid: u128 = lo + (hi - lo) / 2;
        assert(mid * mid < 0x4000_0000_0000_0000_0000_0000) by (nonlinear_arith)
            requires
                mid < 0x8000_0000_0000,
        ;
        if mid * mid <= n {
            lo = mid;
        } else {
            hi = mid;
        }
    }
    lo
}

} // verus!
