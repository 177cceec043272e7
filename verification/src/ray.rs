//! Rays: a starting point and a direction.
use crate::float::MyFloat;
use crate::matrix4::Matrix4;
use crate::tuple::Tuple;
use vstd::prelude::*;

verus! {

#[derive(Clone, Copy, Debug)]
pub struct Ray {
    pub origin: Tuple,
    pub direction: Tuple,
}

impl Ray {
    /// The point reached after travelling `t` times the direction.
    pub open spec fn spec_position(self, t: MyFloat) -> Tuple {
        self.origin.spec_sum(self.direction.spec_multiply(t))
    }

    /// The ray with origin and direction both multiplied by `m`.
    pub open spec fn spec_transform(self, m: Matrix4) -> Ray {
        Ray {
            origin: m.spec_times_tuple(self.origin),
            direction: m.spec_times_tuple(self.direction),
        }
    }

    pub fn new(origin: &Tuple, direction: &Tuple) -> (r: Ray)
        ensures
            r == (Ray { origin: *origin, direction: *direction }),
    {
        Ray { origin: *origin, direction: *direction }
    }

    pub fn position(&self, t: MyFloat) -> (p: Tuple)
        ensures
            p == self.spec_position(t),
    {
        self.origin.sum(&self.direction.multiply(t))
    }

    pub fn transform(&self, matrix: &Matrix4) -> (r: Ray)
        ensures
            r == self.spec_transform(*matrix),
    {
        Ray::new(&matrix.times_tuple(&self.origin), &matrix.times_tuple(&self.direction))
    }
}

} // verus!
