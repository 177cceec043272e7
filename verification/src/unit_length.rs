//! Why a normalized tuple has length one.
//!
//! `Tuple::normalize` divides each component by the length with a single
//! rounding, and takes the length of a short tuple to eighteen digits. This
//! module shows that the length of the result then differs from one by at
//! most three billionths, for every tuple but the zero tuple.
use crate::float::{
    floor_sqrt, is_floor_sqrt, lemma_floor_sqrt_exists, lemma_floor_sqrt_unique,
    lemma_round_div_error, magnitude_of, round_div, MyFloat, SCALE,
};
use crate::tuple::{lemma_square_bound, Tuple};
use vstd::prelude::*;

verus! {

/// The divisor `d` of a tuple that is not zero: it is at least a unit, and
/// its square is the magnified sum of the squares, rounded down.
proof fn lemma_divisor(v: Tuple)
    requires
        !v.is_zero(),
    ensures
        v.divisor() >= 1_000_000_000,
        is_floor_sqrt(
            v.square_sum() * Tuple::magnifier(v.square_sum()) * Tuple::magnifier(v.square_sum()),
            v.divisor(),
        ),
{
    let n = v.square_sum();
    let k = Tuple::magnifier(n);
    lemma_square_bound(v.x.held());
    lemma_square_bound(v.y.held());
    lemma_square_bound(v.z.held());
    lemma_square_bound(v.w.held());
    assert(n >= 1);
    let wide = n * k * k;
    assert(wide >= 1_000_000_000_000_000_000) by (nonlinear_arith)
        requires
            wide == n * k * k,
            n >= 1,
            k == 1_000_000_000 || (k == 1 && n >= 0x1_0000_0000_0000_0000),
    ;
    let d = lemma_floor_sqrt_exists(wide);
    lemma_floor_sqrt_unique(wide, d);
    assert(d >= 1_000_000_000) by (nonlinear_arith)
        requires
            wide >= 1_000_000_000_000_000_000,
            wide < (d + 1) * (d + 1),
            d >= 0,
    {
        if d < 1_000_000_000 {
            assert((d + 1) * (d + 1) <= 1_000_000_000 * 1_000_000_000);
        }
    }
}

/// A magnified component `a` divided by the divisor `d`: the quotient `q`
/// is at most one unit, and its square times `d * d` is near the square of
/// `a` times a unit squared.
proof fn lemma_quotient_square(a: int, q: int, d: int)
    requires
        d >= 1_000_000_000,
        a * a < (d + 1) * (d + 1),
        2 * magnitude_of(a * 1_000_000_000 - q * d) <= d,
    ensures
        magnitude_of(q) <= 1_000_000_000,
        (d * d) * (q * q) <= 1_000_000_000_000_000_000 * (a * a) + 1_000_000_000 * (d * d) + d * d,
        (d * d) * (q * q) >= 1_000_000_000_000_000_000 * (a * a) - 1_000_000_000 * (d * d),
{
    let s: int = 1_000_000_000;
    let e = a * s - q * d;
    assert(magnitude_of(a) <= d) by (nonlinear_arith)
        requires
            a * a < (d + 1) * (d + 1),
            d >= 0,
    {
        if a >= d + 1 {
            assert(a * a >= (d + 1) * (d + 1));
        }
        if a <= -(d + 1) {
            assert(a * a >= (d + 1) * (d + 1));
        }
    }
    assert(magnitude_of(q) <= 1_000_000_000) by (nonlinear_arith)
        requires
            e == a * 1_000_000_000 - q * d,
            2 * magnitude_of(e) <= d,
            magnitude_of(a) <= d,
            d >= 1_000_000_000,
    {
        if q >= 1_000_000_001 {
            assert(q * d >= 1_000_000_001 * d);
            assert(a * 1_000_000_000 <= d * 1_000_000_000);
        }
        if q <= -1_000_000_001 {
            assert(q * d <= -1_000_000_001 * d);
            assert(a * 1_000_000_000 >= -d * 1_000_000_000);
        }
    }
    assert((q * d) * (q * d) == (a * s) * (a * s) - 2 * ((a * s) * e) + e * e) by (nonlinear_arith)
        requires
            e == a * s - q * d,
    ;
    assert((q * d) * (q * d) == (d * d) * (q * q)) by (nonlinear_arith);
    assert((a * s) * (a * s) == 1_000_000_000_000_000_000 * (a * a)) by (nonlinear_arith)
        requires
            s == 1_000_000_000,
    ;
    assert((a * s) * e == s * (a * e)) by (nonlinear_arith);
    assert(-(d * d) <= 2 * (a * e) <= d * d) by (nonlinear_arith)
        requires
            magnitude_of(a) <= d,
            2 * magnitude_of(e) <= d,
            d >= 0,
    {
        let aa = magnitude_of(a);
        let ae = magnitude_of(e);
        assert(aa * (2 * ae) <= d * d);
        assert(magnitude_of(a * e) == aa * ae);
    }
    assert(0 <= e * e <= d * d) by (nonlinear_arith)
        requires
            2 * magnitude_of(e) <= d,
    {
        let ae = magnitude_of(e);
        assert(ae * ae <= d * d);
        assert(e * e == ae * ae);
    }
}

/// From the roundings of the four quotients to the sum of their squares: it
/// is a unit squared, up to a few units.
proof fn lemma_quotients_square_sum(d: int, wide: int, big: int)
    requires
        d >= 1_000_000_000,
        d * d <= wide < (d + 1) * (d + 1),
        (d * d) * big <= 1_000_000_000_000_000_000 * wide + 4_000_000_000 * (d * d) + 4 * (d * d),
        (d * d) * big >= 1_000_000_000_000_000_000 * wide - 4_000_000_000 * (d * d),
    ensures
        999_999_996_000_000_000 <= big <= 1_000_000_007_000_000_000,
{
    let dd = d * d;
    assert(dd >= 1_000_000_000 * d && dd >= 1_000_000_000_000_000_000 && (d + 1) * (d + 1) == dd
        + 2 * d + 1) by (nonlinear_arith)
        requires
            d >= 1_000_000_000,
            dd == d * d,
    ;
    assert(dd * big <= dd * 1_000_000_007_000_000_000);
    assert(dd * big >= dd * 999_999_996_000_000_000);
    assert(big <= 1_000_000_007_000_000_000) by (nonlinear_arith)
        requires
            dd > 0,
            dd * big <= dd * 1_000_000_007_000_000_000,
    ;
    assert(big >= 999_999_996_000_000_000) by (nonlinear_arith)
        requires
            dd > 0,
            dd * big >= dd * 999_999_996_000_000_000,
    ;
}

/// What one component `c` of a tuple that is not zero becomes when the
/// tuple is normalized.
proof fn lemma_component(v: Tuple, c: MyFloat)
    requires
        !v.is_zero(),
        c.held() * c.held() <= v.square_sum(),
    ensures
        magnitude_of(v.normalized(c)@) <= 1_000_000_000,
        ({
            let k = Tuple::magnifier(v.square_sum());
            let d = v.divisor();
            let q = v.normalized(c)@;
            let a = c.held() * k;
            &&& (d * d) * (q * q) <= 1_000_000_000_000_000_000 * (a * a) + 1_000_000_000 * (d * d)
                + d * d
            &&& (d * d) * (q * q) >= 1_000_000_000_000_000_000 * (a * a) - 1_000_000_000 * (d
                * d)
        }),
{
    let n = v.square_sum();
    let k = Tuple::magnifier(n);
    let d = v.divisor();
    lemma_divisor(v);
    let h = c.held();
    let a = h * k;
    let top = h * SCALE * k;
    assert(top == a * 1_000_000_000) by (nonlinear_arith)
        requires
            top == h * SCALE * k,
            a == h * k,
            SCALE == 1_000_000_000,
    ;
    let q = round_div(top, d);
    lemma_round_div_error(top, d);
    assert(a * a < (d + 1) * (d + 1)) by (nonlinear_arith)
        requires
            a == h * k,
            h * h <= n,
            n * k * k < (d + 1) * (d + 1),
            k >= 1,
    {
        assert(a * a == (h * h) * (k * k));
        assert((h * h) * (k * k) <= n * (k * k));
        assert(n * (k * k) == n * k * k);
    }
    lemma_quotient_square(a, q, d);
}

/// The square of a magnified count is the magnified square of the count.
proof fn lemma_magnified_square(h: int, k: int)
    ensures
        (h * k) * (h * k) == (h * h) * (k * k),
{
    assert((h * k) * (h * k) == (h * h) * (k * k)) by (nonlinear_arith);
}

/// A component that is zero stays zero when the tuple is normalized.
pub proof fn lemma_normalized_keeps_zero(v: Tuple, c: MyFloat)
    requires
        !v.is_zero(),
    ensures
        c@ == 0 ==> v.normalized(c)@ == 0,
{
    lemma_divisor(v);
    if c@ == 0 {
        let k = Tuple::magnifier(v.square_sum());
        let d = v.divisor();
        assert(c.held() * SCALE * k == 0) by (nonlinear_arith)
            requires
                c.held() == 0,
        ;
        vstd::arithmetic::div_mod::lemma_fundamental_div_mod_converse(d, 2 * d, 0, d);
    }
}

/// Every tuple but the zero tuple has length one once it is normalized:
/// the length differs from one by at most three billionths, which is well
/// within the tolerance.
pub proof fn lemma_normalized_has_unit_length(v: Tuple)
    requires
        !v.is_zero(),
    ensures
        v.spec_normalize().spec_magnitude().approx_eq(MyFloat::whole(1)),
        magnitude_of(v.spec_normalize().spec_magnitude()@ - SCALE) <= 3,
{
    reveal(Tuple::spec_normalize);
    reveal(Tuple::spec_magnitude);
    let n = v.square_sum();
    let k = Tuple::magnifier(n);
    let d = v.divisor();
    let u = v.spec_normalize();
    lemma_divisor(v);
    lemma_square_bound(v.x.held());
    lemma_square_bound(v.y.held());
    lemma_square_bound(v.z.held());
    lemma_square_bound(v.w.held());
    lemma_component(v, v.x);
    lemma_component(v, v.y);
    lemma_component(v, v.z);
    lemma_component(v, v.w);
    let (ax, ay, az, aw) = (v.x.held() * k, v.y.held() * k, v.z.held() * k, v.w.held() * k);
    let wide = n * k * k;
    let kk = k * k;
    let (hx, hy, hz, hw) = (
        v.x.held() * v.x.held(),
        v.y.held() * v.y.held(),
        v.z.held() * v.z.held(),
        v.w.held() * v.w.held(),
    );
    lemma_magnified_square(v.x.held(), k);
    lemma_magnified_square(v.y.held(), k);
    lemma_magnified_square(v.z.held(), k);
    lemma_magnified_square(v.w.held(), k);
    assert(wide == n * kk) by (nonlinear_arith)
        requires
            wide == n * k * k,
            kk == k * k,
    ;
    assert(n * kk == hx * kk + hy * kk + hz * kk + hw * kk) by (nonlinear_arith)
        requires
            n == hx + hy + hz + hw,
    ;
    let big = u.square_sum();
    let dd = d * d;
    let (a, b, c, e) = (u.x@ * u.x@, u.y@ * u.y@, u.z@ * u.z@, u.w@ * u.w@);
    assert(big == a + b + c + e);
    assert(dd * big == dd * a + dd * b + dd * c + dd * e) by (nonlinear_arith)
        requires
            big == a + b + c + e,
    ;
    assert(1_000_000_000_000_000_000 * wide == 1_000_000_000_000_000_000 * (ax * ax)
        + 1_000_000_000_000_000_000 * (ay * ay) + 1_000_000_000_000_000_000 * (az * az)
        + 1_000_000_000_000_000_000 * (aw * aw));
    lemma_quotients_square_sum(d, wide, big);
    let r = lemma_floor_sqrt_exists(big);
    lemma_floor_sqrt_unique(big, r);
    assert(magnitude_of(r - 1_000_000_000) <= 3) by (nonlinear_arith)
        requires
            0 <= r,
            r * r <= big,
            big < (r + 1) * (r + 1),
            999_999_996_000_000_000 <= big <= 1_000_000_007_000_000_000,
    {
        if r >= 1_000_000_004 {
            assert(r * r >= 1_000_000_004 * 1_000_000_004);
        }
        if r <= 999_999_996 {
            assert((r + 1) * (r + 1) <= 999_999_997 * 999_999_997);
        }
    }
}

} // verus!
