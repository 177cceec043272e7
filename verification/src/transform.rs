//! The matrices of the affine transforms.
//!
//! Transforms compose by matrix multiplication and apply from right to
//! left: in `a.multiply(&b)`, `b` acts on the tuple first.
use crate::float::{
    fits, lemma_div_one, lemma_half_of_double, lemma_mul_one, lemma_mul_whole, lemma_mul_zero,
    saturated, MyFloat,
};
use crate::matrix3::Matrix3;
use crate::matrix4::Matrix4;
use crate::tuple::Tuple;
use vstd::prelude::*;

verus! {

pub struct Transform {}

impl Transform {
    pub open spec fn spec_translation(x: MyFloat, y: MyFloat, z: MyFloat) -> Matrix4 {
        let o = MyFloat::whole(0);
        let l = MyFloat::whole(1);
        Matrix4([[l, o, o, x], [o, l, o, y], [o, o, l, z], [o, o, o, l]])
    }

    pub open spec fn spec_scaling(x: MyFloat, y: MyFloat, z: MyFloat) -> Matrix4 {
        let o = MyFloat::whole(0);
        let l = MyFloat::whole(1);
        Matrix4([[x, o, o, o], [o, y, o, o], [o, o, z, o], [o, o, o, l]])
    }

    pub open spec fn spec_rotation_x(cos: MyFloat, sin: MyFloat) -> Matrix4 {
        let o = MyFloat::whole(0);
        let l = MyFloat::whole(1);
        Matrix4([[l, o, o, o], [o, cos, -sin, o], [o, sin, cos, o], [o, o, o, l]])
    }

    pub open spec fn spec_rotation_y(cos: MyFloat, sin: MyFloat) -> Matrix4 {
        let o = MyFloat::whole(0);
        let l = MyFloat::whole(1);
        Matrix4([[cos, o, sin, o], [o, l, o, o], [-sin, o, cos, o], [o, o, o, l]])
    }

    pub open spec fn spec_rotation_z(cos: MyFloat, sin: MyFloat) -> Matrix4 {
        let o = MyFloat::whole(0);
        let l = MyFloat::whole(1);
        Matrix4([[cos, -sin, o, o], [sin, cos, o, o], [o, o, l, o], [o, o, o, l]])
    }

    pub open spec fn spec_shearing(
        xmy: MyFloat,
        xmz: MyFloat,
        ymx: MyFloat,
        ymz: MyFloat,
        zmx: MyFloat,
        zmy: MyFloat,
    ) -> Matrix4 {
        let o = MyFloat::whole(0);
        let l = MyFloat::whole(1);
        Matrix4([[l, xmy, xmz, o], [ymx, l, ymz, o], [zmx, zmy, l, o], [o, o, o, l]])
    }

    /// The matrix that moves a point by `x`, `y` and `z` and leaves a vector
    /// as it is.
    pub fn translation(x: MyFloat, y: MyFloat, z: MyFloat) -> (m: Matrix4)
        ensures
            m == Self::spec_translation(x, y, z),
    {
        let o = MyFloat::from_int(0);
        let l = MyFloat::from_int(1);
        Matrix4::from([[l, o, o, x], [o, l, o, y], [o, o, l, z], [o, o, o, l]])
    }

    /// The matrix that multiplies the three coordinates by `x`, `y` and `z`.
    pub fn scaling(x: MyFloat, y: MyFloat, z: MyFloat) -> (m: Matrix4)
        ensures
            m == Self::spec_scaling(x, y, z),
    {
        let o = MyFloat::from_int(0);
        let l = MyFloat::from_int(1);
        Matrix4::from([[x, o, o, o], [o, y, o, o], [o, o, z, o], [o, o, o, l]])
    }

    /// The right-handed rotation about the x axis by the angle whose cosine
    /// and sine are given.
    pub fn rotation_x(cos: MyFloat, sin: MyFloat) -> (m: Matrix4)
        ensures
            m == Self::spec_rotation_x(cos, sin),
    {
        let o = MyFloat::from_int(0);
        let l = MyFloat::from_int(1);
        Matrix4::from([[l, o, o, o], [o, cos, sin.neg(), o], [o, sin, cos, o], [o, o, o, l]])
    }

    /// The right-handed rotation about the y axis by the angle whose cosine
    /// and sine are given.
    pub fn rotation_y(cos: MyFloat, sin: MyFloat) -> (m: Matrix4)
        ensures
            m == Self::spec_rotation_y(cos, sin),
    {
        let o = MyFloat::from_int(0);
        let l = MyFloat::from_int(1);
        Matrix4::from([[cos, o, sin, o], [o, l, o, o], [sin.neg(), o, cos, o], [o, o, o, l]])
    }

    /// The right-handed rotation about the z axis by the angle whose cosine
    /// and sine are given.
    pub fn rotation_z(cos: MyFloat, sin: MyFloat) -> (m: Matrix4)
        ensures
            m == Self::spec_rotation_z(cos, sin),
    {
        let o = MyFloat::from_int(0);
        let l = MyFloat::from_int(1);
        Matrix4::from([[cos, sin.neg(), o, o], [sin, cos, o, o], [o, o, l, o], [o, o, o, l]])
    }

    /// The matrix that moves each coordinate in proportion to the other two:
    /// `xmy` is how far `x` moves per unit of `y`, and so on.
    pub fn shearing(
        xmy: MyFloat,
        xmz: MyFloat,
        ymx: MyFloat,
        ymz: MyFloat,
        zmx: MyFloat,
        zmy: MyFloat,
    ) -> (m: Matrix4)
        ensures
            m == Self::spec_shearing(xmy, xmz, ymx, ymz, zmx, zmy),
    {
        let o = MyFloat::from_int(0);
        let l = MyFloat::from_int(1);
        Matrix4::from([[l, xmy, xmz, o], [ymx, l, ymz, o], [zmx, zmy, l, o], [o, o, o, l]])
    }

    pub fn identity() -> (m: Matrix4)
        ensures
            m == Matrix4::spec_identity(),
    {
        Matrix4::identity()
    }
}

/// Moving a point adds the three amounts to its coordinates.
pub proof fn lemma_translation_moves_points(x: MyFloat, y: MyFloat, z: MyFloat, p: Tuple)
    requires
        p.w == MyFloat::whole(1),
        fits(x@) && fits(y@) && fits(z@),
        fits(p.x@) && fits(p.y@) && fits(p.z@),
    ensures
        Transform::spec_translation(x, y, z).spec_times_tuple(p) == (Tuple {
            x: p.x + x,
            y: p.y + y,
            z: p.z + z,
            w: MyFloat::whole(1),
        }),
{
    lemma_mul_zero(p.x);
    lemma_mul_zero(p.y);
    lemma_mul_zero(p.z);
    lemma_mul_one(p.x);
    lemma_mul_one(p.y);
    lemma_mul_one(p.z);
    lemma_mul_one(x);
    lemma_mul_one(y);
    lemma_mul_one(z);
    lemma_mul_one(MyFloat::whole(1));
}

/// Moving a point and then moving it back by the same amounts returns the
/// point, as long as the moved point is within the representable range.
pub proof fn lemma_translation_round_trip(x: MyFloat, y: MyFloat, z: MyFloat, p: Tuple)
    requires
        p.w == MyFloat::whole(1),
        fits(x@) && fits(y@) && fits(z@),
        fits(p.x@) && fits(p.y@) && fits(p.z@),
        fits(p.x@ + x@) && fits(p.y@ + y@) && fits(p.z@ + z@),
    ensures
        Transform::spec_translation(-x, -y, -z).spec_times_tuple(
            Transform::spec_translation(x, y, z).spec_times_tuple(p),
        ) == p,
{
    lemma_translation_moves_points(x, y, z, p);
    let moved = Transform::spec_translation(x, y, z).spec_times_tuple(p);
    lemma_translation_moves_points(-x, -y, -z, moved);
}

/// Moving does not change a vector.
pub proof fn lemma_translation_keeps_vectors(x: MyFloat, y: MyFloat, z: MyFloat, v: Tuple)
    requires
        v.w == MyFloat::whole(0),
        fits(v.x@) && fits(v.y@) && fits(v.z@),
    ensures
        Transform::spec_translation(x, y, z).spec_times_tuple(v) == v,
{
    let m = Transform::spec_translation(x, y, z);
    lemma_mul_zero(v.x);
    lemma_mul_zero(v.y);
    lemma_mul_zero(v.z);
    lemma_mul_zero(x);
    lemma_mul_zero(y);
    lemma_mul_zero(z);
    lemma_mul_zero(MyFloat::whole(1));
    lemma_mul_one(v.x);
    lemma_mul_one(v.y);
    lemma_mul_one(v.z);
}

/// Scaling a point to twice its size and then to half returns the point, as
/// long as the doubled point is within the representable range.
pub proof fn lemma_double_then_halve(p: Tuple)
    requires
        p.w == MyFloat::whole(1),
        fits(2 * p.x@) && fits(2 * p.y@) && fits(2 * p.z@),
    ensures
        Transform::spec_scaling(
            saturated(500_000_000),
            saturated(500_000_000),
            saturated(500_000_000),
        ).spec_times_tuple(
            Transform::spec_scaling(
                MyFloat::whole(2),
                MyFloat::whole(2),
                MyFloat::whole(2),
            ).spec_times_tuple(p),
        ) == p,
{
    let two = MyFloat::whole(2);
    let up = Transform::spec_scaling(two, two, two);
    let doubled = up.spec_times_tuple(p);
    lemma_mul_whole(2, p.x);
    lemma_mul_whole(2, p.y);
    lemma_mul_whole(2, p.z);
    lemma_mul_zero(p.x);
    lemma_mul_zero(p.y);
    lemma_mul_zero(p.z);
    lemma_mul_zero(p.w);
    lemma_mul_one(p.w);
    assert(doubled == (Tuple { x: two * p.x, y: two * p.y, z: two * p.z, w: MyFloat::whole(1) }));
    lemma_half_of_double(p.x);
    lemma_half_of_double(p.y);
    lemma_half_of_double(p.z);
    lemma_mul_zero(doubled.x);
    lemma_mul_zero(doubled.y);
    lemma_mul_zero(doubled.z);
}

/// The inverse of the matrix that moves by `x`, `y` and `z` is the matrix
/// that moves back by them.
#[verifier::rlimit(100)]
pub proof fn lemma_translation_inverse(x: MyFloat, y: MyFloat, z: MyFloat)
    requires
        fits(x@) && fits(y@) && fits(z@),
    ensures
        Transform::spec_translation(x, y, z).spec_is_invertible(),
        Transform::spec_translation(x, y, z).spec_inverse() == Transform::spec_translation(
            -x,
            -y,
            -z,
        ),
{
    let m = Transform::spec_translation(x, y, z);
    let o = MyFloat::whole(0);
    let l = MyFloat::whole(1);
    reveal(Matrix4::spec_determinant);
    reveal(Matrix3::spec_determinant);
    assert forall|a: MyFloat| #[trigger] (o * a) == o by {
        lemma_mul_zero(a);
    }
    assert forall|a: MyFloat| #[trigger] (a * o) == o by {
        lemma_mul_zero(a);
    }
    assert forall|a: MyFloat| fits(a@) implies #[trigger] (l * a) == a by {
        lemma_mul_one(a);
    }
    assert forall|a: MyFloat| fits(a@) implies #[trigger] (a * l) == a by {
        lemma_mul_one(a);
    }
    assert forall|a: MyFloat| fits(a@) implies #[trigger] a.spec_div(l) == a by {
        lemma_div_one(a);
    }
    assert(m.spec_determinant() == l);
    crate::matrix4::lemma_entries_determine(
        m.spec_inverse(),
        Transform::spec_translation(-x, -y, -z),
    );
}

/// A matrix that moves, times its inverse, is the identity; and moving a
/// point and then applying the inverse returns the point, as long as the
/// moved point is within the representable range.
pub proof fn lemma_translation_inverse_round_trip(x: MyFloat, y: MyFloat, z: MyFloat, p: Tuple)
    requires
        fits(x@) && fits(y@) && fits(z@),
    ensures
        Transform::spec_translation(x, y, z).spec_multiply(
            Transform::spec_translation(x, y, z).spec_inverse(),
        ) == Matrix4::spec_identity(),
        p.w == MyFloat::whole(1) && fits(p.x@) && fits(p.y@) && fits(p.z@) && fits(p.x@ + x@)
            && fits(p.y@ + y@) && fits(p.z@ + z@) ==> Transform::spec_translation(
            x,
            y,
            z,
        ).spec_inverse().spec_times_tuple(Transform::spec_translation(x, y, z).spec_times_tuple(p))
            == p,
{
    let m = Transform::spec_translation(x, y, z);
    lemma_translation_inverse(x, y, z);
    if p.w == MyFloat::whole(1) && fits(p.x@) && fits(p.y@) && fits(p.z@) && fits(p.x@ + x@)
        && fits(p.y@ + y@) && fits(p.z@ + z@) {
        lemma_translation_round_trip(x, y, z, p);
    }
    let o = MyFloat::whole(0);
    let l = MyFloat::whole(1);
    let back = Transform::spec_translation(-x, -y, -z);
    assert forall|a: MyFloat| #[trigger] (o * a) == o by {
        lemma_mul_zero(a);
    }
    assert forall|a: MyFloat| #[trigger] (a * o) == o by {
        lemma_mul_zero(a);
    }
    assert forall|a: MyFloat| fits(a@) implies #[trigger] (l * a) == a by {
        lemma_mul_one(a);
    }
    assert forall|a: MyFloat| fits(a@) implies #[trigger] (a * l) == a by {
        lemma_mul_one(a);
    }
    crate::matrix4::lemma_entries_determine(m.spec_multiply(back), Matrix4::spec_identity());
}

} // verus!
