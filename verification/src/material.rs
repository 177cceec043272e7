//! Surface materials and the Phong lighting model.
//!
//! The colour of a surface point is the sum of an ambient, a diffuse and a
//! specular part. The specular part grows with a power of the cosine between
//! the reflected light and the eye, with the material's shininess as the
//! exponent. Raising to that power is left to the caller: `specular_base`
//! hands out the base where there is a highlight, and `lighting` takes the
//! power back as `factor`.
use crate::color::Color;
use crate::float::MyFloat;
use crate::light::Light;
use crate::tuple::Tuple;
use vstd::prelude::*;

verus! {

#[derive(Clone, Copy, Debug)]
pub struct Material {
    pub color: Color,
    pub ambient: MyFloat,
    pub diffuse: MyFloat,
    pub shininess: MyFloat,
    pub specular: MyFloat,
}

impl Material {
    /// The default material: white, ambient 0.1, diffuse 0.9, specular 0.9,
    /// shininess 200.
    pub open spec fn spec_new() -> Material {
        Material {
            color: Color::spec_white(),
            ambient: MyFloat { raw: 100_000_000 },
            diffuse: MyFloat { raw: 900_000_000 },
            shininess: MyFloat::whole(200),
            specular: MyFloat { raw: 900_000_000 },
        }
    }

    /// Whether colour and all four parameters are equal within the tolerance.
    pub open spec fn approx_eq(self, other: Material) -> bool {
        &&& self.color.approx_eq(other.color)
        &&& self.ambient.approx_eq(other.ambient)
        &&& self.diffuse.approx_eq(other.diffuse)
        &&& self.shininess.approx_eq(other.shininess)
        &&& self.specular.approx_eq(other.specular)
    }

    /// Whether the light is away from the surface point, so that there is a
    /// direction towards it.
    pub open spec fn light_is_apart(light: Light, position: Tuple) -> bool {
        !light.position.spec_subtract(position).is_zero()
    }

    /// The direction from the surface point to the light.
    pub open spec fn light_vector(light: Light, position: Tuple) -> Tuple {
        light.position.spec_subtract(position).spec_normalize()
    }

    /// The cosine of the angle between the direction to the light and the
    /// surface normal. It is negative where the light is behind the surface.
    pub open spec fn light_dot_normal(light: Light, position: Tuple, normalv: Tuple) -> MyFloat {
        Self::light_vector(light, position).spec_dot(normalv)
    }

    /// The cosine of the angle between the reflected light and the direction
    /// to the eye.
    pub open spec fn reflect_dot_eye(
        light: Light,
        position: Tuple,
        eyev: Tuple,
        normalv: Tuple,
    ) -> MyFloat {
        Self::light_vector(light, position).spec_negate().spec_reflect(normalv).spec_dot(eyev)
    }

    /// Whether the surface point shows a highlight: the light is not behind
    /// the surface and its reflection leans towards the eye.
    pub open spec fn has_highlight(
        light: Light,
        position: Tuple,
        eyev: Tuple,
        normalv: Tuple,
    ) -> bool {
        &&& Self::light_dot_normal(light, position, normalv)@ >= 0
        &&& Self::reflect_dot_eye(light, position, eyev, normalv)@ > 0
    }

    /// The surface colour as the light tints it.
    pub open spec fn effective_color(self, light: Light) -> Color {
        self.color * light.intensity
    }

    pub open spec fn spec_ambient(self, light: Light) -> Color {
        self.effective_color(light).spec_scale(self.ambient)
    }

    pub open spec fn spec_diffuse(self, light: Light, position: Tuple, normalv: Tuple) -> Color {
        if Self::light_dot_normal(light, position, normalv)@ < 0 {
            Color::spec_black()
        } else {
            self.effective_color(light).spec_scale(self.diffuse).spec_scale(
                Self::light_dot_normal(light, position, normalv),
            )
        }
    }

    /// The specular part, where `factor` is the highlight's base raised to
    /// the shininess.
    pub open spec fn spec_specular(
        self,
        light: Light,
        position: Tuple,
        eyev: Tuple,
        normalv: Tuple,
        factor: MyFloat,
    ) -> Color {
        if Self::has_highlight(light, position, eyev, normalv) {
            light.intensity.spec_scale(self.specular).spec_scale(factor)
        } else {
            Color::spec_black()
        }
    }

    /// Ambient plus diffuse plus specular, not clamped.
    pub open spec fn spec_lighting(
        self,
        light: Light,
        position: Tuple,
        eyev: Tuple,
        normalv: Tuple,
        factor: MyFloat,
    ) -> Color {
        self.spec_ambient(light) + self.spec_diffuse(light, position, normalv) + self.spec_specular(
            light,
            position,
            eyev,
            normalv,
            factor,
        )
    }

    pub fn new() -> (m: Material)
        ensures
            m == Material::spec_new(),
    {
        Material {
            color: Color::white(),
            ambient: MyFloat::new(100_000_000),
            diffuse: MyFloat::new(900_000_000),
            shininess: MyFloat::from_int(200),
            specular: MyFloat::new(900_000_000),
        }
    }

    pub fn equals(&self, other: &Material) -> (r: bool)
        ensures
            r == self.approx_eq(*other),
    {
        self.color.equals(&other.color) && self.ambient.equals(other.ambient)
            && self.diffuse.equals(other.diffuse) && self.shininess.equals(other.shininess)
            && self.specular.equals(other.specular)
    }

    /// The base of the highlight at a surface point: the cosine between the
    /// reflected light and the eye where the point shows a highlight, and
    /// nothing where it shows none.
    pub fn specular_base(light: &Light, position: &Tuple, eyev: &Tuple, normalv: &Tuple) -> (base:
        Option<MyFloat>)
        requires
            Self::light_is_apart(*light, *position),
        ensures
            base == (if Self::has_highlight(*light, *position, *eyev, *normalv) {
                Some(Self::reflect_dot_eye(*light, *position, *eyev, *normalv))
            } else {
                None
            }),
    {
        let lightv = light.position.subtract(position).normalize();
        let light_dot_normal = lightv.dot(normalv);
        if light_dot_normal.raw < 0 {
            None
        } else {
            let reflectv = lightv.negate().reflect(normalv);
            let reflect_dot_eye = reflectv.dot(eyev);
            if reflect_dot_eye.raw <= 0 {
                None
            } else {
                Some(reflect_dot_eye)
            }
        }
    }

    /// The colour of a surface point of this material under `light`, seen
    /// along `eyev`, where the surface normal is `normalv`. `factor` is the
    /// value of `specular_base` raised to the shininess; it is not looked at
    /// where the point shows no highlight.
    pub fn lighting(
        self,
        light: &Light,
        position: &Tuple,
        eyev: &Tuple,
        normalv: &Tuple,
        factor: MyFloat,
    ) -> (c: Color)
        requires
            Self::light_is_apart(*light, *position),
        ensures
            c == self.spec_lighting(*light, *position, *eyev, *normalv, factor),
    {
        let effective_color = self.color.mul(&light.intensity);
        let lightv = light.position.subtract(position).normalize();
        let ambient = effective_color.scale(self.ambient);
        let light_dot_normal = lightv.dot(normalv);
        let mut diffuse = Color::black();
        let mut specular = Color::black();
        if light_dot_normal.raw >= 0 {
            diffuse = effective_color.scale(self.diffuse).scale(light_dot_normal);
            let reflectv = lightv.negate().reflect(normalv);
            let reflect_dot_eye = reflectv.dot(eyev);
            if reflect_dot_eye.raw > 0 {
                specular = light.intensity.scale(self.specular).scale(factor);
            }
        }
        ambient.add(&diffuse).add(&specular)
    }
}

} // verus!
