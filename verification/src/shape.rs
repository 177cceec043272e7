//! Shapes, the ray-sphere intersection and the surface normal.
//!
//! Every shape is the unit sphere at the origin of its own object space;
//! `transform` places it in the world. A shape is told from another by the
//! identifier in its kind, which a `ShapeIds` counter hands out.
use crate::float::{
    fits, floor_sqrt, lemma_floor_sqrt_unique, round_div, saturated, MyFloat, SCALE,
};
use crate::wide::{base, mul_wide, wide_add, wide_le, wide_ratio, wide_sqrt, wide_sub, Wide};
use crate::intersection::{Intersection, Intersections};
use crate::material::Material;
use crate::matrix4::Matrix4;
use crate::ray::Ray;
use crate::tuple::{spec_point, Tuple};
use vstd::prelude::*;

verus! {

/// The source of shape identifiers: it counts up from one.
pub struct ShapeIds {
    pub next: i32,
}

#[derive(Clone, Copy, Debug, PartialEq, Eq, Structural)]
pub enum ShapeKind {
    Sphere { id: i32 },
}

#[derive(Clone, Copy, Debug)]
pub struct Shape {
    pub transform: Matrix4,
    pub material: Material,
    pub kind: ShapeKind,
}

impl ShapeIds {
    /// The identifier that follows `id`. After the largest number the count
    /// starts over at the smallest.
    pub open spec fn following(id: i32) -> i32 {
        if id == i32::MAX {
            i32::MIN
        } else {
            (id + 1) as i32
        }
    }

    /// A counter whose first identifier is one.
    pub fn new() -> (ids: ShapeIds)
        ensures
            ids.next == 1,
    {
        ShapeIds { next: 1 }
    }

    /// Hands out the next identifier.
    pub fn fresh(&mut self) -> (id: i32)
        ensures
            id == old(self).next,
            final(self).next == Self::following(old(self).next),
    {
        let id = self.next;
        self.next = if id == i32::MAX {
            i32::MIN
        } else {
            id + 1
        };
        id
    }
}

impl ShapeKind {
    pub fn equals(&self, peer: &ShapeKind) -> (r: bool)
        ensures
            r == (*self == *peer),
    {
        match (self, peer) {
            (ShapeKind::Sphere { id }, ShapeKind::Sphere { id: peer_id }) => *id == *peer_id,
        }
    }
}

impl Shape {
    /// Whether the shapes have the same identifier and their materials and
    /// transforms are equal within the tolerance.
    pub open spec fn alike(self, peer: Shape) -> bool {
        &&& self.kind == peer.kind
        &&& self.material.approx_eq(peer.material)
        &&& self.transform.approx_eq(peer.transform)
    }

    /// The ray as the shape sees it in its own object space.
    pub open spec fn object_ray(self, ray: Ray) -> Ray {
        ray.spec_transform(self.transform.spec_inverse())
    }

    /// The vector from the centre of the sphere to the origin of the ray, in
    /// object space.
    pub open spec fn sphere_to_ray(self, ray: Ray) -> Tuple {
        self.object_ray(ray).origin.spec_subtract(
            spec_point(MyFloat::whole(0), MyFloat::whole(0), MyFloat::whole(0)),
        )
    }

    /// The coefficient `a` of the quadratic `a t^2 + b t + c = 0` whose roots
    /// are the places where the ray meets the sphere: the direction's dot
    /// product with itself, in billionths squared. Nothing is rounded.
    pub open spec fn wide_a(self, ray: Ray) -> int {
        let d = self.object_ray(ray).direction;
        near(d.x) * near(d.x) + near(d.y) * near(d.y) + near(d.z) * near(d.z) + near(d.w) * near(
            d.w,
        )
    }

    /// Half the coefficient `b`: the direction's dot product with the
    /// vector from the centre, in billionths squared.
    pub open spec fn wide_b(self, ray: Ray) -> int {
        let d = self.object_ray(ray).direction;
        let s = self.sphere_to_ray(ray);
        near(d.x) * near(s.x) + near(d.y) * near(s.y) + near(d.z) * near(s.z) + near(d.w) * near(
            s.w,
        )
    }

    /// The coefficient `c`: the dot product of the vector from the centre
    /// with itself, less the square of the radius, in billionths squared.
    pub open spec fn wide_c(self, ray: Ray) -> int {
        let s = self.sphere_to_ray(ray);
        near(s.x) * near(s.x) + near(s.y) * near(s.y) + near(s.z) * near(s.z) + near(s.w) * near(
            s.w,
        ) - SCALE * SCALE
    }

    /// A quarter of `b^2 - 4ac`, not rounded. It is negative where the ray
    /// misses the sphere.
    pub open spec fn discriminant(self, ray: Ray) -> int {
        self.wide_b(ray) * self.wide_b(ray) - self.wide_a(ray) * self.wide_c(ray)
    }

    /// The smaller root of the quadratic, `(-b - sqrt(b^2 - 4ac)) / 2a`,
    /// rounded once. A ray without direction has its roots at zero.
    pub open spec fn first_root(self, ray: Ray) -> MyFloat {
        if self.wide_a(ray) == 0 {
            MyFloat::whole(0)
        } else {
            saturated(
                round_div(
                    SCALE * (-self.wide_b(ray) - floor_sqrt(self.discriminant(ray))),
                    self.wide_a(ray),
                ),
            )
        }
    }

    /// The larger root of the quadratic, rounded once.
    pub open spec fn second_root(self, ray: Ray) -> MyFloat {
        if self.wide_a(ray) == 0 {
            MyFloat::whole(0)
        } else {
            saturated(
                round_div(
                    SCALE * (-self.wide_b(ray) + floor_sqrt(self.discriminant(ray))),
                    self.wide_a(ray),
                ),
            )
        }
    }

    /// Where the ray meets the shape: nowhere if the discriminant is
    /// negative, else at the two roots, the smaller first.
    pub open spec fn spec_intersect(self, ray: Ray) -> Seq<Intersection> {
        if self.discriminant(ray) < 0 {
            Seq::empty()
        } else {
            seq![
                Intersection { t: self.first_root(ray), s: self },
                Intersection { t: self.second_root(ray), s: self },
            ]
        }
    }

    /// The direction of the surface normal at a point of the world, before
    /// it is scaled to length one: the point is taken to object space, the
    /// centre of the sphere is subtracted, the result is taken back by the
    /// transposed inverse, and `w` is set to zero.
    pub open spec fn normal_direction(self, world_point: Tuple) -> Tuple {
        let inverse = self.transform.spec_inverse();
        let object_point = inverse.spec_times_tuple(world_point);
        let object_normal = object_point.spec_subtract(
            spec_point(MyFloat::whole(0), MyFloat::whole(0), MyFloat::whole(0)),
        );
        let world_normal = inverse.spec_transpose().spec_times_tuple(object_normal);
        Tuple { x: world_normal.x, y: world_normal.y, z: world_normal.z, w: MyFloat::whole(0) }
    }

    pub open spec fn spec_normal_at(self, world_point: Tuple) -> Tuple {
        self.normal_direction(world_point).spec_normalize()
    }

    /// Whether the two are the same shape. A shape is known by its
    /// identifier alone: moving it or giving it another material does not
    /// make it another shape, and two shapes with the same transform and
    /// material are still two.
    pub fn equals(&self, peer: &Shape) -> (r: bool)
        ensures
            r == (self.kind == peer.kind),
    {
        self.kind.equals(&peer.kind)
    }

    /// Whether the two are the same shape and are placed and painted alike
    /// within the tolerance.
    pub fn equals_in_all(&self, peer: &Shape) -> (r: bool)
        ensures
            r == self.alike(*peer),
    {
        self.kind.equals(&peer.kind) && self.material.equals(&peer.material)
            && self.transform.equals(&peer.transform)
    }

    /// Where the ray meets the shape. The quadratic is solved in whole
    /// numbers wide enough that nothing is rounded before the two roots are,
    /// so a ray is never missed for the shortness of its direction.
    pub fn intersect(&self, opray: &Ray) -> (xs: Intersections)
        requires
            self.transform.spec_is_invertible(),
        ensures
            xs@ == self.spec_intersect(*opray),
    {
        let transform = self.transform.inverse();
        let ray = opray.transform(&transform);
        match self.kind {
            ShapeKind::Sphere { .. } => {
                let zero = MyFloat::from_int(0);
                let s = ray.origin.subtract(&crate::tuple::point(zero, zero, zero));
                let d = ray.direction;
                let a = wide_dot(&d, &d);
                let b = wide_dot(&d, &s);
                let c = wide_dot(&s, &s) - 1_000_000_000_000_000_000;
                proof {
                    lemma_near_squares(d);
                }
                let b_size: u128 = if b < 0 {
                    (-b) as u128
                } else {
                    b as u128
                };
                let c_size: u128 = if c < 0 {
                    (-c) as u128
                } else {
                    c as u128
                };
                let bb = mul_wide(b_size, b_size);
                let ac = mul_wide(a as u128, c_size);
                proof {
                    lemma_product_bound(b_size as int, b_size as int);
                    lemma_product_bound(a as int, c_size as int);
                    lemma_wide_top(bb);
                    lemma_wide_top(ac);
                    assert(b_size * b_size == b * b) by (nonlinear_arith)
                        requires
                            b_size == b || b_size == -b,
                    ;
                    assert(c < 0 ==> a * c_size == -(a * c)) by (nonlinear_arith)
                        requires
                            c < 0 ==> c_size == -c,
                    ;
                }
                let mut vec = Intersections::new();
                let q = if c < 0 {
                    wide_add(bb, ac)
                } else {
                    if !wide_le(ac, bb) {
                        return vec;
                    }
                    wide_sub(bb, ac)
                };
                assert(q@ == self.discriminant(*opray));
                proof {
                    lemma_wide_top(q);
                }
                let r = wide_sqrt(q);
                proof {
                    lemma_floor_sqrt_unique(q@, r as int);
                    assert(r <= 0x2000_0000_0000_0000_0000_0000_0000_0000) by (nonlinear_arith)
                        requires
                            r * r <= q@,
                            q@ <= 2 * 0x1000_0000_0000_0000_0000_0000_0000_0000int
                                * 0x2000_0000_0000_0000_0000_0000_0000_0000int,
                            r >= 0,
                    {
                        if r >= 0x2000_0000_0000_0000_0000_0000_0000_0001 {
                            assert(r * r >= 0x2000_0000_0000_0000_0000_0000_0000_0001int
                                * 0x2000_0000_0000_0000_0000_0000_0000_0001int);
                        }
                    }
                }
                let t1 = if a == 0 {
                    zero
                } else {
                    scaled_ratio(-b - r as i128, a as u128)
                };
                let t2 = if a == 0 {
                    zero
                } else {
                    scaled_ratio(-b + r as i128, a as u128)
                };
                vec.push(&Intersection::new(t1, self));
                vec.push(&Intersection::new(t2, self));
                assert(vec@ =~= self.spec_intersect(*opray));
                vec
            },
        }
    }

    /// The direction of the surface normal at a point of the world, not yet
    /// scaled to length one.
    pub fn normal_direction_at(&self, at: &Tuple) -> (n: Tuple)
        requires
            self.transform.spec_is_invertible(),
        ensures
            n == self.normal_direction(*at),
    {
        match self.kind {
            ShapeKind::Sphere { .. } => {
                let zero = MyFloat::from_int(0);
                let inverse = self.transform.inverse();
                let object_point = inverse.times_tuple(at);
                let object_normal = object_point.subtract(&crate::tuple::point(zero, zero, zero));
                let mut world_normal = inverse.transpose().times_tuple(&object_normal);
                world_normal.w = zero;
                world_normal
            },
        }
    }

    /// The surface normal at a point of the world.
    pub fn normal_at(&self, at: &Tuple) -> (n: Tuple)
        requires
            self.transform.spec_is_invertible(),
            !self.normal_direction(*at).is_zero(),
        ensures
            n == self.spec_normal_at(*at),
            n.w@ == 0,
            n.spec_magnitude().approx_eq(MyFloat::whole(1)),
    {
        self.normal_direction_at(at).normalize()
    }

    /// A unit sphere at the origin with the default material and the
    /// counter's next identifier.
    pub fn sphere(ids: &mut ShapeIds) -> (s: Shape)
        ensures
            s == (Shape {
                transform: Matrix4::spec_identity(),
                material: Material::spec_new(),
                kind: ShapeKind::Sphere { id: old(ids).next },
            }),
            final(ids).next == ShapeIds::following(old(ids).next),
    {
        Shape {
            material: Material::new(),
            transform: crate::transform::Transform::identity(),
            kind: ShapeKind::Sphere { id: ids.fresh() },
        }
    }
}

/// How far from zero a count of billionths may be to enter the wide
/// computation of an intersection as it is: two to the power 61, which is
/// some two thousand million units. Counts beyond it enter as this bound.
pub const NEAR: i64 = 0x2000_0000_0000_0000;

/// The count of billionths of `v`, pinned to the range from `-NEAR` to
/// `NEAR`.
pub open spec fn near(v: MyFloat) -> int {
    if v@ > NEAR {
        NEAR as int
    } else if v@ < -NEAR {
        -NEAR
    } else {
        v@
    }
}

/// The count `near`, as a wide integer.
fn near_wide(v: MyFloat) -> (c: i128)
    ensures
        c == near(v),
        -NEAR <= c <= NEAR,
{
    if v.raw > NEAR {
        NEAR as i128
    } else if v.raw < -NEAR {
        -(NEAR as i128)
    } else {
        v.raw as i128
    }
}

/// The dot product of the pinned counts of two tuples. Nothing is rounded.
fn wide_dot(a: &Tuple, b: &Tuple) -> (r: i128)
    ensures
        r == near(a.x) * near(b.x) + near(a.y) * near(b.y) + near(a.z) * near(b.z) + near(a.w)
            * near(b.w),
        -0x1000_0000_0000_0000_0000_0000_0000_0000 <= r
            <= 0x1000_0000_0000_0000_0000_0000_0000_0000,
{
    let (ax, ay, az, aw) = (near_wide(a.x), near_wide(a.y), near_wide(a.z), near_wide(a.w));
    let (bx, by, bz, bw) = (near_wide(b.x), near_wide(b.y), near_wide(b.z), near_wide(b.w));
    proof {
        lemma_near_product(ax as int, bx as int);
        lemma_near_product(ay as int, by as int);
        lemma_near_product(az as int, bz as int);
        lemma_near_product(aw as int, bw as int);
    }
    ax * bx + ay * by + az * bz + aw * bw
}

/// The quotient of a numerator in billionths squared by a divisor in
/// billionths squared, in billionths: rounded once and pinned.
fn scaled_ratio(n: i128, d: u128) -> (r: MyFloat)
    requires
        1 <= d <= 0x1000_0000_0000_0000_0000_0000_0000_0000,
        -0x4000_0000_0000_0000_0000_0000_0000_0000 <= n
            <= 0x4000_0000_0000_0000_0000_0000_0000_0000,
    ensures
        r == saturated(round_div(SCALE * n, d as int)),
{
    let size: u128 = if n < 0 {
        (-n) as u128
    } else {
        n as u128
    };
    let top = mul_wide(size, 1_000_000_000);
    proof {
        assert(size * 1_000_000_000 <= 0x4000_0000_0000_0000_0000_0000_0000_0000int
            * 1_000_000_000) by (nonlinear_arith)
            requires
                size <= 0x4000_0000_0000_0000_0000_0000_0000_0000,
        ;
        assert(top.hi < 0x4000_0000_0000_0000) by (nonlinear_arith)
            requires
                top.hi * base() + top.lo <= 0x4000_0000_0000_0000_0000_0000_0000_0000int
                    * 1_000_000_000,
                top.lo >= 0,
                base() == 0x1_0000_0000_0000_0000_0000_0000_0000_0000int,
                top.hi >= 0,
        ;
        assert(SCALE * n == (if n < 0 {
            -(size * 1_000_000_000)
        } else {
            size * 1_000_000_000
        })) by (nonlinear_arith)
            requires
                SCALE == 1_000_000_000,
                size == (if n < 0 {
                    -n
                } else {
                    n as int
                }),
        ;
    }
    wide_ratio(top, n < 0, d)
}

/// The product of two pinned counts.
proof fn lemma_near_product(x: int, y: int)
    requires
        -NEAR <= x <= NEAR,
        -NEAR <= y <= NEAR,
    ensures
        -0x400_0000_0000_0000_0000_0000_0000_0000 <= x * y
            <= 0x400_0000_0000_0000_0000_0000_0000_0000,
{
    assert(-0x400_0000_0000_0000_0000_0000_0000_0000 <= x * y
        <= 0x400_0000_0000_0000_0000_0000_0000_0000) by (nonlinear_arith)
        requires
            -0x2000_0000_0000_0000 <= x <= 0x2000_0000_0000_0000,
            -0x2000_0000_0000_0000 <= y <= 0x2000_0000_0000_0000,
    {
        let ax = if x < 0 {
            -x
        } else {
            x
        };
        let ay = if y < 0 {
            -y
        } else {
            y
        };
        assert(ax * ay <= 0x2000_0000_0000_0000 * 0x2000_0000_0000_0000);
        assert(x * y == ax * ay || x * y == -(ax * ay));
    }
}

/// The pinned squares of a tuple are not negative.
proof fn lemma_near_squares(t: Tuple)
    ensures
        0 <= near(t.x) * near(t.x),
        0 <= near(t.y) * near(t.y),
        0 <= near(t.z) * near(t.z),
        0 <= near(t.w) * near(t.w),
{
    assert(forall|v: int| 0 <= #[trigger] (v * v)) by (nonlinear_arith);
}

/// The product of two sizes that a wide dot product can have.
proof fn lemma_product_bound(x: int, y: int)
    requires
        0 <= x <= 0x1000_0000_0000_0000_0000_0000_0000_0000 + 1_000_000_000_000_000_000,
        0 <= y <= 0x1000_0000_0000_0000_0000_0000_0000_0000 + 1_000_000_000_000_000_000,
    ensures
        0 <= x * y <= 0x1000_0000_0000_0000_0000_0000_0000_0000int
            * 0x2000_0000_0000_0000_0000_0000_0000_0000int,
{
    let top: int = 0x1000_0000_0000_0000_0000_0000_0000_0000int + 1_000_000_000_000_000_000int;
    assert(0 <= x * y <= top * top) by (nonlinear_arith)
        requires
            0 <= x <= top,
            0 <= y <= top,
    ;
    assert(top * top <= 0x1000_0000_0000_0000_0000_0000_0000_0000int
        * 0x2000_0000_0000_0000_0000_0000_0000_0000int) by (nonlinear_arith)
        requires
            top == 0x1000_0000_0000_0000_0000_0000_0000_0000 + 1_000_000_000_000_000_000,
    ;
}

/// A wide number that is small has a small upper half.
proof fn lemma_wide_top(w: Wide)
    requires
        w@ <= 2 * 0x1000_0000_0000_0000_0000_0000_0000_0000int
            * 0x2000_0000_0000_0000_0000_0000_0000_0000int,
    ensures
        w.hi < 0x4000_0000_0000_0000_0000_0000_0000_0000,
        w@ < base() * base(),
{
    assert(w.hi < 0x4000_0000_0000_0000_0000_0000_0000_0000 && w.hi * base() + w.lo < base()
        * base()) by (nonlinear_arith)
        requires
            w.hi * base() + w.lo <= 2 * 0x1000_0000_0000_0000_0000_0000_0000_0000int
                * 0x2000_0000_0000_0000_0000_0000_0000_0000int,
            w.lo >= 0,
            w.hi >= 0,
            base() == 0x1_0000_0000_0000_0000_0000_0000_0000_0000int,
    ;
}

/// A ray meets a shape either nowhere or at two places, the nearer first;
/// it meets it nowhere exactly if the discriminant is negative.
pub proof fn lemma_intersect_count(shape: Shape, ray: Ray)
    ensures
        shape.discriminant(ray) < 0 <==> shape.spec_intersect(ray).len() == 0,
        shape.discriminant(ray) >= 0 <==> shape.spec_intersect(ray).len() == 2,
        shape.discriminant(ray) >= 0 ==> shape.spec_intersect(ray)[0].t@ <= shape.spec_intersect(
            ray,
        )[1].t@,
{
    if shape.discriminant(ray) >= 0 {
        lemma_roots_ordered(shape, ray);
    }
}

/// The first root is never the larger one.
pub proof fn lemma_roots_ordered(shape: Shape, ray: Ray)
    requires
        shape.discriminant(ray) >= 0,
    ensures
        shape.first_root(ray)@ <= shape.second_root(ray)@,
{
    let a = shape.wide_a(ray);
    let b = shape.wide_b(ray);
    lemma_near_squares(shape.object_ray(ray).direction);
    if a != 0 {
        let r = crate::float::lemma_floor_sqrt_exists(shape.discriminant(ray));
        lemma_floor_sqrt_unique(shape.discriminant(ray), r);
        assert(SCALE * (-b - r) <= SCALE * (-b + r)) by (nonlinear_arith)
            requires
                r >= 0,
                SCALE == 1_000_000_000,
        ;
        crate::float::lemma_round_div_monotone(SCALE * (-b - r), SCALE * (-b + r), a);
    }
}

/// A ray that touches the shape meets it twice at the same place.
pub proof fn lemma_tangent_roots_equal(shape: Shape, ray: Ray)
    requires
        shape.discriminant(ray) == 0,
    ensures
        shape.spec_intersect(ray).len() == 2,
        shape.first_root(ray) == shape.second_root(ray),
{
    lemma_floor_sqrt_unique(0, 0);
}

/// A ray on a line through the centre of a sphere that has not been
/// transformed meets the sphere twice, however short its direction and
/// wherever on the line it starts. The premises on size are those of the
/// wide computation: no coordinate beyond `NEAR`.
pub proof fn lemma_line_through_centre(shape: Shape, ray: Ray)
    requires
        shape.transform == Matrix4::spec_identity(),
        ray.origin.w == MyFloat::whole(1),
        ray.direction.w == MyFloat::whole(0),
        -NEAR <= ray.origin.x@ <= NEAR && -NEAR <= ray.origin.y@ <= NEAR && -NEAR
            <= ray.origin.z@ <= NEAR,
        -NEAR <= ray.direction.x@ <= NEAR && -NEAR <= ray.direction.y@ <= NEAR && -NEAR
            <= ray.direction.z@ <= NEAR,
        ray.direction.x@ != 0 || ray.direction.y@ != 0 || ray.direction.z@ != 0,
        ray.origin.y@ * ray.direction.z@ == ray.origin.z@ * ray.direction.y@,
        ray.origin.z@ * ray.direction.x@ == ray.origin.x@ * ray.direction.z@,
        ray.origin.x@ * ray.direction.y@ == ray.origin.y@ * ray.direction.x@,
    ensures
        shape.discriminant(ray) > 0,
        shape.spec_intersect(ray).len() == 2,
{
    let o = MyFloat::whole(0);
    crate::transform::lemma_translation_inverse(o, o, o);
    crate::matrix4::lemma_entries_determine(
        Matrix4::spec_identity(),
        crate::transform::Transform::spec_translation(o, o, o),
    );
    crate::matrix4::lemma_entries_determine(
        Matrix4::spec_identity(),
        crate::transform::Transform::spec_translation(-o, -o, -o),
    );
    assert(shape.transform.spec_inverse() == Matrix4::spec_identity());
    crate::transform::lemma_translation_moves_points(o, o, o, ray.origin);
    crate::transform::lemma_translation_keeps_vectors(o, o, o, ray.direction);
    assert(shape.object_ray(ray) == ray);
    let s = shape.sphere_to_ray(ray);
    assert(s == (Tuple { x: ray.origin.x, y: ray.origin.y, z: ray.origin.z, w: o }));
    let (dx, dy, dz) = (ray.direction.x@, ray.direction.y@, ray.direction.z@);
    let (ox, oy, oz) = (ray.origin.x@, ray.origin.y@, ray.origin.z@);
    let a = dx * dx + dy * dy + dz * dz;
    let b = dx * ox + dy * oy + dz * oz;
    let far = ox * ox + oy * oy + oz * oz;
    assert(near(ray.direction.w) == 0 && near(s.w) == 0);
    assert(near(ray.direction.x) == dx && near(ray.direction.y) == dy && near(ray.direction.z)
        == dz);
    assert(near(s.x) == ox && near(s.y) == oy && near(s.z) == oz);
    assert(near(ray.direction.w) * near(ray.direction.w) == 0 && near(ray.direction.w) * near(s.w)
        == 0 && near(s.w) * near(s.w) == 0) by (nonlinear_arith)
        requires
            near(ray.direction.w) == 0,
            near(s.w) == 0,
    ;
    assert(shape.wide_a(ray) == a);
    assert(shape.wide_b(ray) == b);
    assert(shape.wide_c(ray) == far - SCALE * SCALE);
    lemma_lagrange(dx, dy, dz, ox, oy, oz);
    assert(a >= 1) by (nonlinear_arith)
        requires
            a == dx * dx + dy * dy + dz * dz,
            dx != 0 || dy != 0 || dz != 0,
    ;
    assert(b * b - a * (far - SCALE * SCALE) > 0) by (nonlinear_arith)
        requires
            b * b == a * far,
            a >= 1,
            SCALE == 1_000_000_000,
    ;
}

/// Two directions that are parallel have a dot product whose square is the
/// product of their squared lengths.
proof fn lemma_lagrange(dx: int, dy: int, dz: int, ox: int, oy: int, oz: int)
    requires
        oy * dz == oz * dy,
        oz * dx == ox * dz,
        ox * dy == oy * dx,
    ensures
        (dx * ox + dy * oy + dz * oz) * (dx * ox + dy * oy + dz * oz) == (dx * dx + dy * dy + dz
            * dz) * (ox * ox + oy * oy + oz * oz),
{
    lemma_parallel_pair(dx, ox, dx, ox);
    lemma_parallel_pair(dy, oy, dy, oy);
    lemma_parallel_pair(dz, oz, dz, oz);
    lemma_parallel_pair(dx, ox, dy, oy);
    lemma_parallel_pair(dy, oy, dx, ox);
    lemma_parallel_pair(dx, ox, dz, oz);
    lemma_parallel_pair(dz, oz, dx, ox);
    lemma_parallel_pair(dy, oy, dz, oz);
    lemma_parallel_pair(dz, oz, dy, oy);
    let (a1, a2, a3) = (dx * dx, dy * dy, dz * dz);
    let (b1, b2, b3) = (ox * ox, oy * oy, oz * oz);
    let (p1, p2, p3) = (dx * ox, dy * oy, dz * oz);
    assert((a1 + a2 + a3) * (b1 + b2 + b3) == a1 * b1 + a1 * b2 + a1 * b3 + a2 * b1 + a2 * b2 + a2
        * b3 + a3 * b1 + a3 * b2 + a3 * b3) by (nonlinear_arith);
    assert((p1 + p2 + p3) * (p1 + p2 + p3) == p1 * p1 + p1 * p2 + p1 * p3 + p2 * p1 + p2 * p2 + p2
        * p3 + p3 * p1 + p3 * p2 + p3 * p3) by (nonlinear_arith);
}

/// For two pairs in proportion, the product of the squares of the outer
/// terms is the product of the two pairs' products.
proof fn lemma_parallel_pair(di: int, oi: int, dj: int, oj: int)
    requires
        di * oj == dj * oi,
    ensures
        (di * di) * (oj * oj) == (di * oi) * (dj * oj),
{
    assert((di * di) * (oj * oj) == (di * oj) * (di * oj)) by (nonlinear_arith);
    assert((di * oj) * (dj * oi) == (di * oi) * (dj * oj)) by (nonlinear_arith);
}

/// On a sphere that has not been transformed, every point but the centre
/// has a normal: the direction from the centre to the point, scaled to
/// length one.
pub proof fn lemma_normal_of_untransformed(shape: Shape, at: Tuple)
    requires
        shape.transform == Matrix4::spec_identity(),
        at.w == MyFloat::whole(1),
        fits(at.x@) && fits(at.y@) && fits(at.z@),
        at.x@ != 0 || at.y@ != 0 || at.z@ != 0,
    ensures
        !shape.normal_direction(at).is_zero(),
        shape.spec_normal_at(at) == at.spec_subtract(
            spec_point(MyFloat::whole(0), MyFloat::whole(0), MyFloat::whole(0)),
        ).spec_normalize(),
{
    let o = MyFloat::whole(0);
    crate::transform::lemma_translation_inverse(o, o, o);
    crate::matrix4::lemma_entries_determine(
        Matrix4::spec_identity(),
        crate::transform::Transform::spec_translation(o, o, o),
    );
    crate::matrix4::lemma_entries_determine(
        Matrix4::spec_identity(),
        crate::transform::Transform::spec_translation(-o, -o, -o),
    );
    assert(shape.transform.spec_inverse() == Matrix4::spec_identity());
    crate::matrix4::lemma_entries_determine(
        Matrix4::spec_identity().spec_transpose(),
        Matrix4::spec_identity(),
    );
    crate::transform::lemma_translation_moves_points(o, o, o, at);
    let from_centre = at.spec_subtract(spec_point(o, o, o));
    assert(from_centre == (Tuple { x: at.x, y: at.y, z: at.z, w: o }));
    crate::transform::lemma_translation_keeps_vectors(o, o, o, from_centre);
    assert(shape.normal_direction(at) == from_centre);
}

} // verus!
