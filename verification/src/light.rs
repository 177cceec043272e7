//! Light sources.
use crate::color::Color;
use crate::tuple::Tuple;
use vstd::prelude::*;

verus! {

#[derive(Clone, Copy, Debug, PartialEq, Eq, Structural)]
pub enum LightKind {
    Point,
}

/// A light at a position, shining with an intensity in all directions.
#[derive(Clone, Copy, Debug)]
pub struct Light {
    pub position: Tuple,
    pub intensity: Color,
    pub kind: LightKind,
}

impl Light {
    /// Whether position and intensity are equal within the tolerance and the
    /// kinds are the same.
    pub open spec fn approx_eq(self, rhs: Light) -> bool {
        &&& self.position.approx_eq(rhs.position)
        &&& self.intensity.approx_eq(rhs.intensity)
        &&& self.kind == rhs.kind
    }

    /// A point light.
    pub fn point(position: &Tuple, intensity: &Color) -> (l: Light)
        ensures
            l == (Light { position: *position, intensity: *intensity, kind: LightKind::Point }),
    {
        Light { position: *position, intensity: *intensity, kind: LightKind::Point }
    }

    pub fn equals(&self, rhs: &Light) -> (r: bool)
        ensures
            r == self.approx_eq(*rhs),
    {
        self.position.equals(&rhs.position) && self.intensity.equals(&rhs.intensity) && self.kind
            == rhs.kind
    }
}

} // verus!
