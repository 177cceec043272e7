//! A scene: any number of shapes under at most one light.
use crate::color::Color;
use crate::float::MyFloat;
use crate::intersection::{is_stable_sort_of, Intersection, Intersections};
use crate::light::{Light, LightKind};
use crate::material::Material;
use crate::matrix4::Matrix4;
use crate::ray::Ray;
use crate::shape::{Shape, ShapeIds, ShapeKind};
use crate::transform::Transform;
use crate::tuple::spec_point;
use vstd::prelude::*;

verus! {

pub struct World {
    pub light: Option<Light>,
    pub objects: Vec<Shape>,
}

/// The intersections of the ray with each of the shapes, shape after shape
/// in the order of the list.
pub open spec fn all_intersections(objects: Seq<Shape>, ray: Ray) -> Seq<Intersection>
    decreases objects.len(),
{
    if objects.len() == 0 {
        Seq::empty()
    } else {
        all_intersections(objects.drop_last(), ray) + objects.last().spec_intersect(ray)
    }
}

impl World {
    /// Whether every shape of the world has an invertible transform.
    pub open spec fn is_placed(&self) -> bool {
        forall|i: int|
            0 <= i < self.objects.len() ==> (#[trigger] self.objects[i])
                .transform.spec_is_invertible()
    }

    /// The light of the default world: white, at `(-10, 10, -10)`.
    pub open spec fn default_light() -> Light {
        Light {
            position: spec_point(MyFloat::whole(-10), MyFloat::whole(10), MyFloat::whole(-10)),
            intensity: Color::spec_white(),
            kind: LightKind::Point,
        }
    }

    /// The outer sphere of the default world: a unit sphere of colour
    /// `(0.6, 1.0, 0.6)` with diffuse 0.7 and specular 0.2.
    pub open spec fn default_outer(id: i32) -> Shape {
        Shape {
            transform: Matrix4::spec_identity(),
            material: Material {
                color: Color {
                    red: MyFloat { raw: 600_000_000 },
                    green: MyFloat::whole(1),
                    blue: MyFloat { raw: 600_000_000 },
                },
                ambient: MyFloat { raw: 100_000_000 },
                diffuse: MyFloat { raw: 700_000_000 },
                shininess: MyFloat::whole(200),
                specular: MyFloat { raw: 200_000_000 },
            },
            kind: ShapeKind::Sphere { id },
        }
    }

    /// The inner sphere of the default world: a sphere of the default
    /// material scaled to half the size.
    pub open spec fn default_inner(id: i32) -> Shape {
        Shape {
            transform: Transform::spec_scaling(
                MyFloat { raw: 500_000_000 },
                MyFloat { raw: 500_000_000 },
                MyFloat { raw: 500_000_000 },
            ),
            material: Material::spec_new(),
            kind: ShapeKind::Sphere { id },
        }
    }

    /// A world without light and without shapes.
    pub fn new() -> (w: World)
        ensures
            w.light is None,
            w.objects@ == Seq::<Shape>::empty(),
    {
        World { light: None, objects: Vec::new() }
    }

    /// The default world: two concentric spheres under one light. The
    /// spheres take the counter's next two identifiers.
    pub fn default(ids: &mut ShapeIds) -> (w: World)
        ensures
            w.light == Some(Self::default_light()),
            w.objects@ == seq![
                Self::default_outer(old(ids).next),
                Self::default_inner(ShapeIds::following(old(ids).next)),
            ],
            final(ids).next == ShapeIds::following(ShapeIds::following(old(ids).next)),
    {
        let mut m1 = Material::new();
        m1.color = Color::new(
            MyFloat::new(600_000_000),
            MyFloat::from_int(1),
            MyFloat::new(600_000_000),
        );
        m1.diffuse = MyFloat::new(700_000_000);
        m1.specular = MyFloat::new(200_000_000);
        let mut s1 = Shape::sphere(ids);
        s1.material = m1;
        let mut s2 = Shape::sphere(ids);
        s2.transform = Transform::scaling(
            MyFloat::new(500_000_000),
            MyFloat::new(500_000_000),
            MyFloat::new(500_000_000),
        );
        let light = Light::point(
            &crate::tuple::point(
                MyFloat::from_int(-10),
                MyFloat::from_int(10),
                MyFloat::from_int(-10),
            ),
            &Color::white(),
        );
        let mut w = World::new();
        w.light = Some(light);
        w.objects.push(s1);
        w.objects.push(s2);
        assert(w.objects@ =~= seq![
            Self::default_outer(old(ids).next),
            Self::default_inner(ShapeIds::following(old(ids).next)),
        ]);
        w
    }

    /// Every intersection of the ray with a shape of the world, sorted by
    /// distance; intersections at the same distance stay in the order of
    /// their shapes.
    pub fn intersect(&self, opray: &Ray) -> (xs: Intersections)
        requires
            self.is_placed(),
        ensures
            is_stable_sort_of(xs@, all_intersections(self.objects@, *opray)),
            xs@.to_multiset() == all_intersections(self.objects@, *opray).to_multiset(),
    {
        let mut int_list = Intersections::new();
        let mut n: usize = 0;
        while n < self.objects.len()
            invariant
                n <= self.objects.len(),
                self.is_placed(),
                int_list@ == all_intersections(self.objects@.take(n as int), *opray),
            decreases self.objects.len() - n,
        {
            let o = &self.objects[n];
            let temp_list = o.intersect(opray);
            let ghost before = int_list@;
            let mut k: usize = 0;
            while k < temp_list.len()
                invariant
                    k <= temp_list@.len(),
                    int_list@ == before + temp_list@.take(k as int),
                decreases temp_list@.len() - k,
            {
                int_list.push(temp_list.get(k));
                assert(temp_list@.take(k + 1) =~= temp_list@.take(k as int).push(
                    temp_list@[k as int],
                ));
                assert(int_list@ =~= before + temp_list@.take(k + 1));
                k += 1;
            }
            proof {
                assert(temp_list@.take(k as int) =~= temp_list@);
                assert(self.objects@.take(n + 1).drop_last() =~= self.objects@.take(n as int));
            }
            n += 1;
        }
        assert(self.objects@.take(n as int) =~= self.objects@);
        int_list.sort();
        int_list
    }
}

} // verus!
