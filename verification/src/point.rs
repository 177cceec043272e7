//! Points and vectors with checked arithmetic.
//!
//! A `PointOrVector` is a point where `w` is one and a vector where `w` is
//! zero. Unlike the arithmetic of `tuple::Tuple`, sums and differences here
//! are only defined where the result is again a point or a vector: two
//! points cannot be added, and a point cannot be subtracted from a vector.
use crate::float::MyFloat;
use vstd::prelude::*;

verus! {

#[derive(Clone, Copy, Debug)]
pub struct PointOrVector {
    pub x: MyFloat,
    pub y: MyFloat,
    pub z: MyFloat,
    pub w: MyFloat,
}

impl PointOrVector {
    /// Whether `w` is one within the tolerance.
    pub open spec fn spec_is_point(self) -> bool {
        self.w.approx_eq(MyFloat::whole(1))
    }

    /// Whether `w` is zero within the tolerance.
    pub open spec fn spec_is_vector(self) -> bool {
        self.w.approx_eq(MyFloat::whole(0))
    }

    /// Whether every pair of components is equal within the tolerance.
    pub open spec fn approx_eq(self, other: PointOrVector) -> bool {
        &&& self.x.approx_eq(other.x)
        &&& self.y.approx_eq(other.y)
        &&& self.z.approx_eq(other.z)
        &&& self.w.approx_eq(other.w)
    }
}

/// The four components in the order `x`, `y`, `z`, `w`.
pub fn tuple(value: &PointOrVector) -> (t: (MyFloat, MyFloat, MyFloat, MyFloat))
    ensures
        t == (value.x, value.y, value.z, value.w),
{
    (value.x, value.y, value.z, value.w)
}

pub fn from_tuple(value: (MyFloat, MyFloat, MyFloat, MyFloat)) -> (r: PointOrVector)
    ensures
        r == (PointOrVector { x: value.0, y: value.1, z: value.2, w: value.3 }),
{
    PointOrVector { x: value.0, y: value.1, z: value.2, w: value.3 }
}

/// The componentwise sum. At least one of the two has to be a vector.
pub fn add(a: &PointOrVector, b: &PointOrVector) -> (r: PointOrVector)
    requires
        a.spec_is_vector() || b.spec_is_vector(),
    ensures
        r == (PointOrVector { x: a.x + b.x, y: a.y + b.y, z: a.z + b.z, w: a.w + b.w }),
{
    PointOrVector { x: a.x.add(b.x), y: a.y.add(b.y), z: a.z.add(b.z), w: a.w.add(b.w) }
}

/// The componentwise difference. A point cannot be subtracted from a vector.
pub fn subtract(a: &PointOrVector, b: &PointOrVector) -> (r: PointOrVector)
    requires
        !(a.spec_is_vector() && b.spec_is_point()),
    ensures
        r == (PointOrVector { x: a.x - b.x, y: a.y - b.y, z: a.z - b.z, w: a.w - b.w }),
{
    PointOrVector { x: a.x.sub(b.x), y: a.y.sub(b.y), z: a.z.sub(b.z), w: a.w.sub(b.w) }
}

pub fn point(x: MyFloat, y: MyFloat, z: MyFloat) -> (r: PointOrVector)
    ensures
        r == (PointOrVector { x, y, z, w: MyFloat::whole(1) }),
        r.spec_is_point(),
{
    PointOrVector { x, y, z, w: MyFloat::from_int(1) }
}

pub fn vector(x: MyFloat, y: MyFloat, z: MyFloat) -> (r: PointOrVector)
    ensures
        r == (PointOrVector { x, y, z, w: MyFloat::whole(0) }),
        r.spec_is_vector(),
{
    PointOrVector { x, y, z, w: MyFloat::from_int(0) }
}

pub fn is_point(value: &PointOrVector) -> (r: bool)
    ensures
        r == value.spec_is_point(),
{
    f64_equals(value.w, MyFloat::from_int(1))
}

pub fn is_vector(value: &PointOrVector) -> (r: bool)
    ensures
        r == value.spec_is_vector(),
{
    f64_equals(value.w, MyFloat::from_int(0))
}

/// Whether two scalars are equal within the tolerance.
pub fn f64_equals(a: MyFloat, b: MyFloat) -> (r: bool)
    ensures
        r == a.approx_eq(b),
{
    a.equals(b)
}

pub fn equals(a: &PointOrVector, b: &PointOrVector) -> (r: bool)
    ensures
        r == a.approx_eq(*b),
{
    f64_equals(a.x, b.x) && f64_equals(a.y, b.y) && f64_equals(a.z, b.z) && f64_equals(a.w, b.w)
}

} // verus!
