//! Points and directions in space as four-component tuples.
//!
//! The fourth component tells the two apart: `w` is one for a point and zero
//! for a vector. Arithmetic is componentwise and never checks `w`, so adding
//! two points is allowed and gives a tuple that is neither.
use crate::float::{
    floor_sqrt, held_wide, lemma_floor_sqrt_unique, ratio, round_div, saturated, wide_root, MyFloat,
    LIMIT, SCALE,
};
use vstd::prelude::*;

verus! {

#[derive(Clone, Copy, Debug)]
pub struct Tuple {
    pub x: MyFloat,
    pub y: MyFloat,
    pub z: MyFloat,
    pub w: MyFloat,
}

impl Tuple {
    pub open spec fn spec_sum(self, peer: Tuple) -> Tuple {
        Tuple { x: self.x + peer.x, y: self.y + peer.y, z: self.z + peer.z, w: self.w + peer.w }
    }

    pub open spec fn spec_subtract(self, peer: Tuple) -> Tuple {
        Tuple { x: self.x - peer.x, y: self.y - peer.y, z: self.z - peer.z, w: self.w - peer.w }
    }

    pub open spec fn spec_multiply(self, scalar: MyFloat) -> Tuple {
        Tuple { x: self.x * scalar, y: self.y * scalar, z: self.z * scalar, w: self.w * scalar }
    }

    pub open spec fn spec_divide(self, scalar: MyFloat) -> Tuple {
        Tuple {
            x: self.x.spec_div(scalar),
            y: self.y.spec_div(scalar),
            z: self.z.spec_div(scalar),
            w: self.w.spec_div(scalar),
        }
    }

    pub open spec fn spec_negate(self) -> Tuple {
        Tuple { x: -self.x, y: -self.y, z: -self.z, w: -self.w }
    }

    /// The dot product over all four components, summed from `x` to `w`.
    pub open spec fn spec_dot(self, peer: Tuple) -> MyFloat {
        self.x * peer.x + self.y * peer.y + self.z * peer.z + self.w * peer.w
    }

    /// The cross product of the spatial parts; the result is a vector.
    pub open spec fn spec_cross(self, peer: Tuple) -> Tuple {
        Tuple {
            x: self.y * peer.z - self.z * peer.y,
            y: self.z * peer.x - self.x * peer.z,
            z: self.x * peer.y - self.y * peer.x,
            w: MyFloat::whole(0),
        }
    }

    /// Whether all four components are zero.
    pub open spec fn is_zero(self) -> bool {
        self.x@ == 0 && self.y@ == 0 && self.z@ == 0 && self.w@ == 0
    }

    /// The sum of the squares of the four counts of billionths. Nothing is
    /// rounded.
    pub open spec fn square_sum(self) -> int {
        self.x.held() * self.x.held() + self.y.held() * self.y.held() + self.z.held()
            * self.z.held() + self.w.held() * self.w.held()
    }

    /// The Euclidean length over all four components: the square root of the
    /// unrounded sum of the squares, rounded down to a billionth.
    #[verifier::opaque]
    pub open spec fn spec_magnitude(self) -> MyFloat {
        saturated(floor_sqrt(self.square_sum()))
    }

    /// By how much a sum of squares is scaled up before its square root is
    /// taken as a divisor: short tuples are magnified so that their length
    /// is known to eighteen digits.
    pub open spec fn magnifier(square_sum: int) -> int {
        if square_sum < 0x1_0000_0000_0000_0000 {
            SCALE as int
        } else {
            1
        }
    }

    /// The divisor of `normalize`: the length of the tuple in billionths,
    /// times the magnifier, rounded down.
    pub open spec fn divisor(self) -> int {
        let k = Self::magnifier(self.square_sum());
        floor_sqrt(self.square_sum() * k * k)
    }

    /// A component of the normalized tuple: the component over the length,
    /// rounded once, to the nearest billionth.
    pub open spec fn normalized(self, component: MyFloat) -> MyFloat {
        let k = Self::magnifier(self.square_sum());
        saturated(round_div(component.held() * SCALE * k, self.divisor()))
    }

    /// The tuple divided by its own length.
    #[verifier::opaque]
    pub open spec fn spec_normalize(self) -> Tuple {
        Tuple {
            x: self.normalized(self.x),
            y: self.normalized(self.y),
            z: self.normalized(self.z),
            w: self.normalized(self.w),
        }
    }

    /// The mirror image of `self` about the direction `normal`.
    pub open spec fn spec_reflect(self, normal: Tuple) -> Tuple {
        self.spec_subtract(normal.spec_multiply(MyFloat::whole(2) * self.spec_dot(normal)))
    }

    pub open spec fn spec_is_point(self) -> bool {
        self.w.approx_eq(MyFloat::whole(1))
    }

    pub open spec fn spec_is_vector(self) -> bool {
        self.w.approx_eq(MyFloat::whole(0))
    }

    /// Whether every pair of components is equal within the tolerance.
    pub open spec fn approx_eq(self, peer: Tuple) -> bool {
        &&& self.x.approx_eq(peer.x)
        &&& self.y.approx_eq(peer.y)
        &&& self.z.approx_eq(peer.z)
        &&& self.w.approx_eq(peer.w)
    }

    pub fn sum(&self, peer: &Tuple) -> (r: Tuple)
        ensures
            r == self.spec_sum(*peer),
    {
        Tuple {
            x: self.x.add(peer.x),
            y: self.y.add(peer.y),
            z: self.z.add(peer.z),
            w: self.w.add(peer.w),
        }
    }

    pub fn subtract(&self, peer: &Tuple) -> (r: Tuple)
        ensures
            r == self.spec_subtract(*peer),
    {
        Tuple {
            x: self.x.sub(peer.x),
            y: self.y.sub(peer.y),
            z: self.z.sub(peer.z),
            w: self.w.sub(peer.w),
        }
    }

    pub fn multiply(&self, scalar: MyFloat) -> (r: Tuple)
        ensures
            r == self.spec_multiply(scalar),
    {
        Tuple {
            x: self.x.mul(scalar),
            y: self.y.mul(scalar),
            z: self.z.mul(scalar),
            w: self.w.mul(scalar),
        }
    }

    pub fn divide(&self, scalar: MyFloat) -> (r: Tuple)
        ensures
            r == self.spec_divide(scalar),
    {
        Tuple {
            x: self.x.div(scalar),
            y: self.y.div(scalar),
            z: self.z.div(scalar),
            w: self.w.div(scalar),
        }
    }

    pub fn negate(&self) -> (r: Tuple)
        ensures
            r == self.spec_negate(),
    {
        Tuple { x: self.x.neg(), y: self.y.neg(), z: self.z.neg(), w: self.w.neg() }
    }

    pub fn dot(&self, peer: &Tuple) -> (r: MyFloat)
        ensures
            r == self.spec_dot(*peer),
    {
        self.x.mul(peer.x).add(self.y.mul(peer.y)).add(self.z.mul(peer.z)).add(self.w.mul(peer.w))
    }

    pub fn cross(&self, peer: &Tuple) -> (r: Tuple)
        ensures
            r == self.spec_cross(*peer),
    {
        Tuple {
            x: self.y.mul(peer.z).sub(self.z.mul(peer.y)),
            y: self.z.mul(peer.x).sub(self.x.mul(peer.z)),
            z: self.x.mul(peer.y).sub(self.y.mul(peer.x)),
            w: MyFloat::from_int(0),
        }
    }

    /// The unrounded sum of the squares of the four counts of billionths.
    pub fn wide_square_sum(&self) -> (n: u128)
        ensures
            n == self.square_sum(),
            n == 0 <==> self.is_zero(),
    {
        let x = held_wide(self.x);
        let y = held_wide(self.y);
        let z = held_wide(self.z);
        let w = held_wide(self.w);
        proof {
            lemma_square_bound(x as int);
            lemma_square_bound(y as int);
            lemma_square_bound(z as int);
            lemma_square_bound(w as int);
        }
        let n = (x * x) as u128 + (y * y) as u128 + (z * z) as u128 + (w * w) as u128;
        n
    }

    pub fn magnitude(&self) -> (r: MyFloat)
        ensures
            r == self.spec_magnitude(),
            r@ >= 0,
            r@ == 0 <==> self.is_zero(),
    {
        reveal(Tuple::spec_magnitude);
        let n = self.wide_square_sum();
        let root = wide_root(n);
        proof {
            lemma_floor_sqrt_unique(n as int, root as int);
            if root == 0 {
                assert(n < 1) by (nonlinear_arith)
                    requires
                        n < (root + 1) * (root + 1),
                        root == 0,
                ;
            } else {
                assert(n >= 1) by (nonlinear_arith)
                    requires
                        root * root <= n,
                        root >= 1,
                ;
            }
        }
        if root > LIMIT as u128 {
            MyFloat { raw: LIMIT }
        } else {
            MyFloat { raw: root as i64 }
        }
    }

    /// The tuple scaled to length one. The zero tuple has no direction and
    /// cannot be normalized. Each component is divided by the length with a
    /// single rounding, so that the result has length one within the
    /// tolerance however short or long the tuple is.
    pub fn normalize(&self) -> (r: Tuple)
        requires
            !self.is_zero(),
        ensures
            r == self.spec_normalize(),
            r.spec_magnitude().approx_eq(MyFloat::whole(1)),
            self.w@ == 0 ==> r.w@ == 0,
    {
        reveal(Tuple::spec_normalize);
        let n = self.wide_square_sum();
        let k: u128 = if n < 0x1_0000_0000_0000_0000 {
            1_000_000_000
        } else {
            1
        };
        assert(n * k * k <= u128::MAX && n * k * k >= 1 && n * k <= u128::MAX) by (nonlinear_arith)
            requires
                n >= 1,
                k == 1 || (k == 1_000_000_000 && n < 0x1_0000_0000_0000_0000),
        ;
        let d = wide_root(n * k * k);
        proof {
            lemma_floor_sqrt_unique((n * k * k) as int, d as int);
            assert(d >= 1) by (nonlinear_arith)
                requires
                    n * k * k >= 1,
                    n * k * k < (d + 1) * (d + 1),
                    d >= 0,
            ;
            crate::unit_length::lemma_normalized_has_unit_length(*self);
            crate::unit_length::lemma_normalized_keeps_zero(*self, self.w);
        }
        Tuple {
            x: self.scaled(self.x, n, k, d),
            y: self.scaled(self.y, n, k, d),
            z: self.scaled(self.z, n, k, d),
            w: self.scaled(self.w, n, k, d),
        }
    }

    /// One component of the normalized tuple.
    fn scaled(&self, component: MyFloat, n: u128, k: u128, d: u128) -> (r: MyFloat)
        requires
            n == self.square_sum(),
            k == Self::magnifier(n as int),
            d == self.divisor(),
            1 <= d < 0x1_0000_0000_0000_0000,
            component == self.x || component == self.y || component == self.z || component
                == self.w,
        ensures
            r == self.normalized(component),
    {
        let c = held_wide(component);
        proof {
            lemma_square_bound(self.x.held());
            lemma_square_bound(self.y.held());
            lemma_square_bound(self.z.held());
            lemma_square_bound(self.w.held());
            if k != 1 {
                assert(-0x1_0000_0000 < c < 0x1_0000_0000) by (nonlinear_arith)
                    requires
                        c * c < 0x1_0000_0000_0000_0000,
                {
                    if c >= 0x1_0000_0000 {
                        assert(c * c >= 0x1_0000_0000 * 0x1_0000_0000);
                    }
                    if c <= -0x1_0000_0000 {
                        assert(c * c >= 0x1_0000_0000 * 0x1_0000_0000);
                    }
                }
            }
        }
        let scaled: i128 = c * 1_000_000_000;
        let numerator: i128 = if k == 1 {
            scaled
        } else {
            scaled * 1_000_000_000
        };
        assert(numerator == c * SCALE * k) by (nonlinear_arith)
            requires
                scaled == c * 1_000_000_000,
                SCALE == 1_000_000_000,
                (k == 1 && numerator == scaled) || (k == 1_000_000_000 && numerator == scaled
                    * 1_000_000_000),
        ;
        ratio(numerator, d)
    }

    pub fn reflect(&self, normal: &Tuple) -> (r: Tuple)
        ensures
            r == self.spec_reflect(*normal),
    {
        let twice = MyFloat::from_int(2).mul(self.dot(normal));
        self.subtract(&normal.multiply(twice))
    }

    pub fn is_point(&self) -> (r: bool)
        ensures
            r == self.spec_is_point(),
    {
        self.w.equals(MyFloat::from_int(1))
    }

    pub fn is_vector(&self) -> (r: bool)
        ensures
            r == self.spec_is_vector(),
    {
        self.w.equals(MyFloat::from_int(0))
    }

    pub fn equals(&self, peer: &Tuple) -> (r: bool)
        ensures
            r == self.approx_eq(*peer),
    {
        self.x.equals(peer.x) && self.y.equals(peer.y) && self.z.equals(peer.z) && self.w.equals(
            peer.w,
        )
    }
}

pub open spec fn spec_tuple(x: MyFloat, y: MyFloat, z: MyFloat, w: MyFloat) -> Tuple {
    Tuple { x, y, z, w }
}

pub open spec fn spec_point(x: MyFloat, y: MyFloat, z: MyFloat) -> Tuple {
    Tuple { x, y, z, w: MyFloat::whole(1) }
}

pub open spec fn spec_vector(x: MyFloat, y: MyFloat, z: MyFloat) -> Tuple {
    Tuple { x, y, z, w: MyFloat::whole(0) }
}

pub fn tuple(x: MyFloat, y: MyFloat, z: MyFloat, w: MyFloat) -> (r: Tuple)
    ensures
        r == spec_tuple(x, y, z, w),
{
    Tuple { x, y, z, w }
}

pub fn point(x: MyFloat, y: MyFloat, z: MyFloat) -> (r: Tuple)
    ensures
        r == spec_point(x, y, z),
        r.spec_is_point(),
{
    tuple(x, y, z, MyFloat::from_int(1))
}

pub fn vector(x: MyFloat, y: MyFloat, z: MyFloat) -> (r: Tuple)
    ensures
        r == spec_vector(x, y, z),
        r.spec_is_vector(),
{
    tuple(x, y, z, MyFloat::from_int(0))
}

/// The square of a count of billionths fits a wide integer four times over.
pub proof fn lemma_square_bound(c: int)
    requires
        -LIMIT <= c <= LIMIT,
    ensures
        0 <= c * c <= 0x3FFF_FFFF_FFFF_FFFF_0000_0000_0000_0001,
        c * c == 0 <==> c == 0,
{
    assert(0 <= c * c <= 0x3FFF_FFFF_FFFF_FFFF_0000_0000_0000_0001 && (c * c == 0 <==> c == 0))
        by (nonlinear_arith)
        requires
            -0x7FFF_FFFF_FFFF_FFFF <= c <= 0x7FFF_FFFF_FFFF_FFFF,
    {
        if c >= 0 {
            assert(c * c <= 0x7FFF_FFFF_FFFF_FFFF * 0x7FFF_FFFF_FFFF_FFFF);
        } else {
            assert((-c) * (-c) <= 0x7FFF_FFFF_FFFF_FFFF * 0x7FFF_FFFF_FFFF_FFFF);
            assert(c * c == (-c) * (-c));
        }
    }
}

/// Swapping the operands of a cross product negates it.
pub proof fn lemma_cross_anticommutes(a: Tuple, b: Tuple)
    ensures
        a.spec_cross(b) == b.spec_cross(a).spec_negate(),
{
    crate::float::lemma_mul_commutes(a.y, b.z);
    crate::float::lemma_mul_commutes(a.z, b.y);
    crate::float::lemma_mul_commutes(a.z, b.x);
    crate::float::lemma_mul_commutes(a.x, b.z);
    crate::float::lemma_mul_commutes(a.x, b.y);
    crate::float::lemma_mul_commutes(a.y, b.x);
}

} // verus!
