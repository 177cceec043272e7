use raytracer::float::MyFloat;
use raytracer::intersection::{Intersection, Intersections};
use raytracer::ray::Ray;
use raytracer::shape::{Shape, ShapeIds};
use raytracer::transform::Transform;
use raytracer::tuple::{point, vector, Tuple};

fn fl(x: f64) -> MyFloat {
    MyFloat::new((x * 1e9).round() as i64)
}

fn pt(x: f64, y: f64, z: f64) -> Tuple {
    point(fl(x), fl(y), fl(z))
}

fn vc(x: f64, y: f64, z: f64) -> Tuple {
    vector(fl(x), fl(y), fl(z))
}

fn sphere() -> Shape {
    let mut ids = ShapeIds::new();
    Shape::sphere(&mut ids)
}

#[test]
fn should_create_a_ray() {
    let origin = pt(1.0, 2.0, 3.0);
    let direction = vc(4.0, 5.0, 6.0);
    let r = Ray::new(&origin, &direction);
    assert!(r.origin.equals(&origin));
    assert!(r.direction.equals(&direction));
}

#[test]
fn should_calculate_position() {
    let origin = pt(2.0, 3.0, 4.0);
    let direction = vc(1.0, 0.0, 0.0);
    let r = Ray::new(&origin, &direction);
    let r1 = r.position(fl(0.0));
    assert!(r1.equals(&origin));
    let r2 = r.position(fl(1.0));
    let e2 = pt(3.0, 3.0, 4.0);
    assert!(r2.equals(&e2));
    let r3 = r.position(fl(-1.0));
    let e3 = pt(1.0, 3.0, 4.0);
    assert!(r3.equals(&e3));
    let r4 = r.position(fl(2.5));
    let e4 = pt(4.5, 3.0, 4.0);
    assert!(r4.equals(&e4));
}

#[test]
fn should_intersect_a_sphere_at_two_points() {
    let r = Ray::new(&pt(0.0, 0.0, -5.0), &vc(0.0, 0.0, 1.0));
    let s = sphere();
    let xs = s.intersect(&r);
    assert!(xs.len() == 2);
    assert!(xs.get(0).t.equals(fl(4.0)));
    assert!(xs.get(1).t.equals(fl(6.0)));
}

#[test]
fn should_intersect_a_sphere_at_tangent_twice() {
    let r = Ray::new(&pt(0.0, 1.0, -5.0), &vc(0.0, 0.0, 1.0));
    let s = sphere();
    let xs = s.intersect(&r);
    assert!(xs.len() == 2);
    assert!(xs.get(0).t.equals(fl(5.0)));
    assert!(xs.get(1).t.equals(fl(5.0)));
}

#[test]
fn should_miss_a_sphere() {
    let r = Ray::new(&pt(0.0, 2.0, -5.0), &vc(0.0, 0.0, 1.0));
    let s = sphere();
    let xs = s.intersect(&r);
    assert!(xs.len() == 0);
}

#[test]
fn should_intersect_inside_a_sphere() {
    let r = Ray::new(&pt(0.0, 0.0, 0.0), &vc(0.0, 0.0, 1.0));
    let s = sphere();
    let xs = s.intersect(&r);
    assert!(xs.len() == 2);
    assert!(xs.get(0).t.equals(fl(-1.0)));
    assert!(xs.get(1).t.equals(fl(1.0)));
}

#[test]
fn should_intersect_behind_a_sphere() {
    let r = Ray::new(&pt(0.0, 0.0, 5.0), &vc(0.0, 0.0, 1.0));
    let s = sphere();
    let xs = s.intersect(&r);
    assert!(xs.len() == 2);
    assert!(xs.get(0).t.equals(fl(-6.0)));
    assert!(xs.get(1).t.equals(fl(-4.0)));
}

#[test]
fn should_return_intersections() {
    let s = sphere();
    let i = Intersection::new(fl(3.5), &s);
    assert!(i.t.equals(fl(3.5)));
    assert!(i.s.equals(&s));
}

#[test]
fn should_agregate_intersections() {
    let s = sphere();
    let i1 = Intersection::new(fl(1.0), &s);
    let i2 = Intersection::new(fl(2.0), &s);
    let xs = [i1, i2];
    assert!(xs.len() == 2);
    assert!(xs[0].t.equals(fl(1.0)));
    assert!(xs[1].t.equals(fl(2.0)));
}

#[test]
fn should_set_object_on_intersection() {
    let r = Ray::new(&pt(0.0, 0.0, -5.0), &vc(0.0, 0.0, 1.0));
    let s = sphere();
    let xs = s.intersect(&r);
    assert!(xs.len() == 2);
    assert!(s.equals(&xs.get(0).s));
    assert!(s.equals(&xs.get(1).s));
}

#[test]
fn should_hit_when_all_t_positive() {
    let s = sphere();
    let i1 = Intersection::new(fl(1.0), &s);
    let i2 = Intersection::new(fl(2.0), &s);
    let mut xs = Intersections::new();
    xs.push(&i1);
    xs.push(&i2);
    let option = xs.hit();
    match option {
        None => assert!(false),
        Some(i) => {
            assert!(i.equals(&i1));
        }
    }
}

#[test]
fn should_hit_with_some_negative() {
    let s = sphere();
    let i1 = Intersection::new(fl(-1.0), &s);
    let i2 = Intersection::new(fl(1.0), &s);
    let xs = Intersections::from(&[i2, i1]);
    let option = xs.hit();
    match option {
        None => assert!(false),
        Some(i) => {
            assert!(i.equals(&i2));
        }
    }
}

#[test]
fn no_hit_when_all_negative() {
    let s = sphere();
    let i1 = Intersection::new(fl(-2.0), &s);
    let i2 = Intersection::new(fl(-1.0), &s);
    let xs = Intersections::from(&[i2, i1]);
    let i = xs.hit();
    match i {
        None => assert!(true),
        Some(_i) => {
            assert!(false);
        }
    }
}

#[test]
fn hit_always_smallest_nonnegative() {
    let s = sphere();
    let i1 = Intersection::new(fl(5.0), &s);
    let i2 = Intersection::new(fl(7.0), &s);
    let i3 = Intersection::new(fl(-3.0), &s);
    let i4 = Intersection::new(fl(2.0), &s);
    let xs = Intersections::from(&[i1, i2, i3, i4]);
    let option = xs.hit();
    match option {
        None => assert!(false),
        Some(i) => {
            assert!(i.equals(&i4));
        }
    }
}

#[test]
fn translating_a_ray() {
    let r = Ray::new(&pt(1.0, 2.0, 3.0), &vc(0.0, 1.0, 0.0));
    let m = Transform::translation(fl(3.0), fl(4.0), fl(5.0));
    let r2 = r.transform(&m);
    assert!(r2.origin.equals(&pt(4.0, 6.0, 8.0)));
    assert!(r2.direction.equals(&vc(0.0, 1.0, 0.0)));
}

#[test]
fn scaling_a_ray() {
    let r = Ray::new(&pt(1.0, 2.0, 3.0), &vc(0.0, 1.0, 0.0));
    let m = Transform::scaling(fl(2.0), fl(3.0), fl(4.0));
    let r2 = r.transform(&m);
    assert!(r2.origin.equals(&pt(2.0, 6.0, 12.0)));
    assert!(r2.direction.equals(&vc(0.0, 3.0, 0.0)));
}

#[test]
fn hit_of_an_empty_list_is_none() {
    assert!(Intersections::new().hit().is_none());
}

#[test]
fn hit_counts_zero_as_not_behind() {
    let s = sphere();
    let xs = Intersections::from(&[
        Intersection::new(fl(1.0), &s),
        Intersection::new(fl(0.0), &s),
        Intersection::new(fl(-1.0), &s),
    ]);
    assert_eq!(xs.hit().map(|i| i.t.raw()), Some(0));
}

#[test]
fn hit_does_not_depend_on_the_order() {
    let s = sphere();
    let ts = [5.0, 7.0, -3.0, 2.0];
    let orders = [[0, 1, 2, 3], [3, 2, 1, 0], [2, 3, 0, 1], [1, 3, 2, 0]];
    for order in orders.iter() {
        let mut xs = Intersections::new();
        for k in order.iter() {
            xs.push(&Intersection::new(fl(ts[*k]), &s));
        }
        assert_eq!(xs.hit().map(|i| i.t.raw()), Some(2_000_000_000));
    }
}

#[test]
fn hit_takes_the_first_of_equally_near_intersections() {
    let mut ids = ShapeIds::new();
    let a = Shape::sphere(&mut ids);
    let b = Shape::sphere(&mut ids);
    let xs = Intersections::from(&[
        Intersection::new(fl(3.0), &a),
        Intersection::new(fl(1.0), &b),
        Intersection::new(fl(1.0), &a),
    ]);
    let hit = xs.hit().unwrap();
    assert!(hit.s.equals(&b));
    assert!(!hit.s.equals(&a));
}

#[test]
fn sorting_is_stable() {
    let mut ids = ShapeIds::new();
    let a = Shape::sphere(&mut ids);
    let b = Shape::sphere(&mut ids);
    let c = Shape::sphere(&mut ids);
    let mut xs = Intersections::from(&[
        Intersection::new(fl(2.0), &a),
        Intersection::new(fl(-1.0), &b),
        Intersection::new(fl(2.0), &b),
        Intersection::new(fl(0.5), &c),
        Intersection::new(fl(2.0), &c),
        Intersection::new(fl(-1.0), &a),
    ]);
    xs.sort();
    assert_eq!(xs.len(), 6);
    let expected = [(-1.0, &b), (-1.0, &a), (0.5, &c), (2.0, &a), (2.0, &b), (2.0, &c)];
    for (k, (t, s)) in expected.iter().enumerate() {
        assert_eq!(xs.get(k).t.raw(), fl(*t).raw());
        assert!(xs.get(k).s.equals(s));
    }
}

#[test]
fn intersections_from_keeps_the_order() {
    let s = sphere();
    let xs = Intersections::from(&[
        Intersection::new(fl(3.0), &s),
        Intersection::new(fl(1.0), &s),
        Intersection::new(fl(2.0), &s),
    ]);
    assert_eq!(xs.len(), 3);
    assert_eq!(xs.get(0).t.raw(), 3_000_000_000);
    assert_eq!(xs.get(1).t.raw(), 1_000_000_000);
    assert_eq!(xs.get(2).t.raw(), 2_000_000_000);
}

#[test]
fn position_is_origin_plus_direction_times_t() {
    let r = Ray::new(&pt(2.0, 3.0, 4.0), &vc(1.0, -0.5, 0.25));
    let p = r.position(fl(2.5));
    assert_eq!(
        (p.x.raw(), p.y.raw(), p.z.raw(), p.w.raw()),
        (4_500_000_000, 1_750_000_000, 4_625_000_000, 1_000_000_000)
    );
}
