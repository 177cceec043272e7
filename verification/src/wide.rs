//! Whole numbers of up to 256 bits, for intermediate results that must not
//! be rounded.
use crate::float::{is_floor_sqrt, round_div, saturate, saturated, MyFloat, LIMIT};
use vstd::prelude::*;

verus! {

/// Two to the power 64.
pub const HALF_BASE: u128 = 0x1_0000_0000_0000_0000;

/// Two to the power 128.
pub open spec fn base() -> int {
    0x1_0000_0000_0000_0000_0000_0000_0000_0000int
}

/// A whole number that is not negative, in two halves of 128 bits.
#[derive(Clone, Copy, Debug)]
pub struct Wide {
    pub hi: u128,
    pub lo: u128,
}

impl View for Wide {
    type V = int;

    /// The number: `hi` times two to the power 128, plus `lo`.
    open spec fn view(&self) -> int {
        self.hi * base() + self.lo
    }
}

/// The product of two numbers of 128 bits, in full.
pub fn mul_wide(a: u128, b: u128) -> (r: Wide)
    ensures
        r@ == a * b,
{
    let a1 = a / HALF_BASE;
    let a0 = a % HALF_BASE;
    let b1 = b / HALF_BASE;
    let b0 = b % HALF_BASE;
    proof {
        lemma_limb_product(a0 as int, b0 as int);
        lemma_limb_product(a0 as int, b1 as int);
        lemma_limb_product(a1 as int, b0 as int);
        lemma_limb_product(a1 as int, b1 as int);
    }
    let p00 = a0 * b0;
    let p01 = a0 * b1;
    let p10 = a1 * b0;
    let p11 = a1 * b1;
    let mid_lo = p01 % HALF_BASE + p10 % HALF_BASE;
    let mid_hi = p01 / HALF_BASE + p10 / HALF_BASE;
    let ml1 = mid_lo / HALF_BASE;
    let ml0 = mid_lo % HALF_BASE;
    let shifted = ml0 * HALF_BASE;
    let room = u128::MAX - p00;
    let (lo, carry): (u128, u128) = if shifted > room {
        (shifted - room - 1, 1)
    } else {
        (shifted + p00, 0)
    };
    let ghost total: int = a * b;
    proof {
        let h: int = 0x1_0000_0000_0000_0000;
        assert(total == (p11 * h) * h + (p01 + p10) * h + p00) by (nonlinear_arith)
            requires
                total == a * b,
                a == a1 * h + a0,
                b == b1 * h + b0,
                p00 == a0 * b0,
                p01 == a0 * b1,
                p10 == a1 * b0,
                p11 == a1 * b1,
        ;
        assert(p01 + p10 == mid_hi * h + mid_lo);
        assert((mid_hi * h + mid_lo) * h == (mid_hi * h) * h + mid_lo * h) by (nonlinear_arith);
        assert(mid_lo * h == (ml1 * h) * h + ml0 * h) by (nonlinear_arith)
            requires
                mid_lo == ml1 * h + ml0,
        ;
        assert((p11 * h) * h + (mid_hi * h) * h + (ml1 * h) * h == (p11 + mid_hi + ml1) * base())
            by (nonlinear_arith)
            requires
                h * h == base(),
        ;
        assert(total == (p11 + mid_hi + ml1 + carry) * base() + lo) by (nonlinear_arith)
            requires
                total == (p11 + mid_hi + ml1) * base() + ml0 * h + p00,
                ml0 * h + p00 == carry * base() + lo,
        ;
        assert(total < base() * base()) by (nonlinear_arith)
            requires
                total == a * b,
                0 <= a < base(),
                0 <= b < base(),
        ;
        assert(p11 + mid_hi + ml1 + carry < base()) by (nonlinear_arith)
            requires
                total == (p11 + mid_hi + ml1 + carry) * base() + lo,
                total < base() * base(),
                lo >= 0,
                base() > 0,
        ;
    }
    Wide { hi: p11 + mid_hi + ml1 + carry, lo }
}

/// The product of two numbers below two to the power 64 fits 128 bits.
proof fn lemma_limb_product(x: int, y: int)
    requires
        0 <= x < 0x1_0000_0000_0000_0000,
        0 <= y < 0x1_0000_0000_0000_0000,
    ensures
        0 <= x * y <= 0xFFFF_FFFF_FFFF_FFFE_0000_0000_0000_0001,
{
    assert(0 <= x * y <= 0xFFFF_FFFF_FFFF_FFFF * 0xFFFF_FFFF_FFFF_FFFF) by (nonlinear_arith)
        requires
            0 <= x <= 0xFFFF_FFFF_FFFF_FFFF,
            0 <= y <= 0xFFFF_FFFF_FFFF_FFFF,
    ;
}

/// The sum of two wide numbers, which has to fit.
pub fn wide_add(a: Wide, b: Wide) -> (r: Wide)
    requires
        a@ + b@ < base() * base(),
    ensures
        r@ == a@ + b@,
{
    let room = u128::MAX - a.lo;
    let (lo, carry): (u128, u128) = if b.lo > room {
        (b.lo - room - 1, 1)
    } else {
        (a.lo + b.lo, 0)
    };
    proof {
        assert(a.hi + b.hi + carry < base()) by (nonlinear_arith)
            requires
                a.hi * base() + a.lo + b.hi * base() + b.lo < base() * base(),
                a.lo + b.lo == carry * base() + lo,
                lo >= 0,
                base() > 0,
        ;
        assert((a.hi + b.hi + carry) * base() == a.hi * base() + b.hi * base() + carry * base())
            by (nonlinear_arith);
    }
    Wide { hi: a.hi + b.hi + carry, lo }
}

/// The difference of two wide numbers, the larger first.
pub fn wide_sub(a: Wide, b: Wide) -> (r: Wide)
    requires
        a@ >= b@,
    ensures
        r@ == a@ - b@,
{
    proof {
        assert(a.hi >= b.hi && (a.hi == b.hi ==> a.lo >= b.lo)) by (nonlinear_arith)
            requires
                a.hi * base() + a.lo >= b.hi * base() + b.lo,
                a.lo < base(),
                b.lo < base(),
                a.lo >= 0,
                b.lo >= 0,
                base() > 0,
        ;
    }
    if a.lo >= b.lo {
        proof {
            assert((a.hi - b.hi) * base() == a.hi * base() - b.hi * base()) by (nonlinear_arith);
        }
        Wide { hi: a.hi - b.hi, lo: a.lo - b.lo }
    } else {
        proof {
            assert((a.hi - b.hi - 1) * base() == a.hi * base() - b.hi * base() - base())
                by (nonlinear_arith);
        }
        Wide { hi: a.hi - b.hi - 1, lo: u128::MAX - b.lo + a.lo + 1 }
    }
}

/// Whether the first wide number is at most the second.
pub fn wide_le(a: Wide, b: Wide) -> (r: bool)
    ensures
        r == (a@ <= b@),
{
    proof {
        assert(a.hi < b.hi ==> a.hi * base() + a.lo < b.hi * base() + b.lo) by (nonlinear_arith)
            requires
                a.lo < base(),
                b.lo >= 0,
                base() > 0,
        ;
        assert(a.hi > b.hi ==> a.hi * base() + a.lo > b.hi * base() + b.lo) by (nonlinear_arith)
            requires
                b.lo < base(),
                a.lo >= 0,
                base() > 0,
        ;
    }
    a.hi < b.hi || (a.hi == b.hi && a.lo <= b.lo)
}

/// The square root of a wide number below two to the power 254, rounded
/// down, by bisection.
pub fn wide_sqrt(q: Wide) -> (r: u128)
    requires
        q.hi < 0x4000_0000_0000_0000_0000_0000_0000_0000,
    ensures
        is_floor_sqrt(q@, r as int),
        r < 0x8000_0000_0000_0000_0000_0000_0000_0000,
{
    let mut lo: u128 = 0;
    let mut hi: u128 = 0x8000_0000_0000_0000_0000_0000_0000_0000;
    proof {
        assert(0x8000_0000_0000_0000_0000_0000_0000_0000int
            * 0x8000_0000_0000_0000_0000_0000_0000_0000int
            == 0x4000_0000_0000_0000_0000_0000_0000_0000int * base()) by (nonlinear_arith)
            requires
                base() == 0x1_0000_0000_0000_0000_0000_0000_0000_0000int,
        ;
        assert(q.hi * base() + q.lo < 0x4000_0000_0000_0000_0000_0000_0000_0000int * base())
            by (nonlinear_arith)
            requires
                q.hi < 0x4000_0000_0000_0000_0000_0000_0000_0000,
                q.lo < base(),
                base() > 0,
        ;
    }
    while hi - lo > 1
        invariant
            lo < hi <= 0x8000_0000_0000_0000_0000_0000_0000_0000,
            lo * lo <= q@ < hi * hi,
        decreases hi - lo,
    {
        let mid: u128 = lo + (hi - lo) / 2;
        let square = mul_wide(mid, mid);
        if wide_le(square, q) {
            lo = mid;
        } else {
            hi = mid;
        }
    }
    lo
}

/// The quotient of a wide number, taken as negative where `negative` is
/// set, by a divisor: rounded to the nearest whole number (ties away from
/// zero) and pinned to the representable range.
pub fn wide_ratio(n: Wide, negative: bool, d: u128) -> (r: MyFloat)
    requires
        1 <= d < 0x4000_0000_0000_0000_0000_0000_0000_0000,
        n.hi < 0x4000_0000_0000_0000,
    ensures
        r == saturated(
            round_div(
                if negative {
                    -n@
                } else {
                    n@
                },
                d as int,
            ),
        ),
{
    let ghost num = n@;
    proof {
        assert(n.hi * base() + n.lo < 0x4000_0000_0000_0000 * base()) by (nonlinear_arith)
            requires
                n.hi < 0x4000_0000_0000_0000,
                n.lo < base(),
                base() > 0,
        ;
        assert(base() * base() == 0x1_0000_0000_0000_0000_0000_0000_0000_0000int * base());
    }
    let twice = wide_add(n, n);
    let t = wide_add(twice, Wide { hi: 0, lo: d });
    let two_d: u128 = 2 * d;
    let cap: u128 = 0x8000_0000_0000_0000;
    let ghost top: int = 2 * num + d;
    assert(t@ == top);
    let ceiling = mul_wide(cap, two_d);
    if wide_le(ceiling, t) {
        proof {
            vstd::arithmetic::div_mod::lemma_div_is_ordered(cap * two_d, top, two_d as int);
            vstd::arithmetic::div_mod::lemma_div_by_multiple(cap as int, two_d as int);
        }
        return if negative {
            MyFloat { raw: -LIMIT }
        } else {
            MyFloat { raw: LIMIT }
        };
    }
    let mut lo: u128 = 0;
    let mut hi: u128 = cap;
    while hi - lo > 1
        invariant
            lo < hi <= 0x8000_0000_0000_0000,
            two_d == 2 * d,
            1 <= d < 0x4000_0000_0000_0000_0000_0000_0000_0000,
            t@ == top,
            lo * two_d <= top < hi * two_d,
        decreases hi - lo,
    {
        let mid: u128 = lo + (hi - lo) / 2;
        let product = mul_wide(mid, two_d);
        if wide_le(product, t) {
            lo = mid;
        } else {
            hi = mid;
        }
    }
    proof {
        let rest = top - lo * two_d;
        assert(rest < two_d) by (nonlinear_arith)
            requires
                rest == top - lo * two_d,
                top < hi * two_d,
                hi == lo + 1,
        ;
        assert(top == two_d * lo + rest) by (nonlinear_arith)
            requires
                rest == top - lo * two_d,
        ;
        vstd::arithmetic::div_mod::lemma_fundamental_div_mod_converse(
            top,
            two_d as int,
            lo as int,
            rest,
        );
        assert(top / (2 * (d as int)) == lo);
        assert(crate::float::magnitude_of(num) == num);
        assert(crate::float::magnitude_of(-num) == num);
        assert(crate::float::magnitude_of(d as int) == d);
        assert(round_div(num, d as int) == lo);
        if num == 0 {
            assert(lo == 0) by (nonlinear_arith)
                requires
                    lo * two_d <= top,
                    top == d,
                    two_d == 2 * d,
                    d >= 1,
                    lo >= 0,
            ;
        }
        assert(round_div(-num, d as int) == -lo);
    }
    if negative {
        saturate(-(lo as i128))
    } else {
        saturate(lo as i128)
    }
}

} // verus!
