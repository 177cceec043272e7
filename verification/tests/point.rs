use raytracer::float::MyFloat;
use raytracer::point;
use raytracer::point::PointOrVector;

fn fl(x: f64) -> MyFloat {
    MyFloat::new((x * 1e9).round() as i64)
}

fn from_tuple(value: (f64, f64, f64, f64)) -> PointOrVector {
    point::from_tuple((fl(value.0), fl(value.1), fl(value.2), fl(value.3)))
}

fn pt(x: f64, y: f64, z: f64) -> PointOrVector {
    point::point(fl(x), fl(y), fl(z))
}

fn vc(x: f64, y: f64, z: f64) -> PointOrVector {
    point::vector(fl(x), fl(y), fl(z))
}

#[test]
fn point_should_create_valid_point() {
    let x = 4.3;
    let y = -4.2;
    let z = 3.1;
    let w: f64 = 1.0;
    let point = from_tuple((x, y, z, w));
    assert!(point::f64_equals(point.x, fl(x)));
    assert!(point::f64_equals(point.y, fl(y)));
    assert!(point::f64_equals(point.z, fl(z)));
    assert!(point::f64_equals(point.w, fl(w)));
    assert!(point::is_point(&point));
    assert!(!point::is_vector(&point));
}

#[test]
fn point_should_create_valid_vector() {
    let x = 4.3;
    let y = -4.2;
    let z = 3.1;
    let w: f64 = 0.0;
    let vector = from_tuple((x, y, z, w));
    assert!(point::f64_equals(vector.x, fl(x)));
    assert!(point::f64_equals(vector.y, fl(y)));
    assert!(point::f64_equals(vector.z, fl(z)));
    assert!(point::f64_equals(vector.w, fl(w)));
    assert!(!point::is_point(&vector));
    assert!(point::is_vector(&vector));
}

#[test]
fn point_should_convert_point_to_tuple() {
    let x = 4.3;
    let y = -4.2;
    let z = 3.1;
    let w: f64 = 1.0;
    let point = pt(x, y, z);
    let tuple = point::tuple(&point);
    assert!(point::f64_equals(tuple.0, point.x));
    assert!(point::f64_equals(tuple.1, point.y));
    assert!(point::f64_equals(tuple.2, point.z));
    assert!(point::f64_equals(tuple.3, point.w));
    assert!(point::f64_equals(tuple.3, fl(w)));
}

#[test]
fn point_should_convert_vector_to_tuple() {
    let x = 4.3;
    let y = -4.2;
    let z = 3.1;
    let w: f64 = 0.0;
    let vector = vc(x, y, z);
    let tuple = point::tuple(&vector);
    assert!(point::f64_equals(tuple.0, vector.x));
    assert!(point::f64_equals(tuple.1, vector.y));
    assert!(point::f64_equals(tuple.2, vector.z));
    assert!(point::f64_equals(tuple.3, vector.w));
    assert!(point::f64_equals(tuple.3, fl(w)));
}

#[test]
fn point_should_add_tuples_correctly() {
    let p = pt(3.0, -2.0, 5.0);
    let v = vc(-2.0, 3.0, 1.0);

    let pv = point::add(&p, &v);
    assert!(point::f64_equals(pv.x, fl(1.0)));
    assert!(point::f64_equals(pv.y, fl(1.0)));
    assert!(point::f64_equals(pv.z, fl(6.0)));
    assert!(point::f64_equals(pv.w, fl(1.0)));
}

#[test]
fn point_should_compare_point_or_vectors() {
    let expected = from_tuple((0.0, 0.0, 0.0, 0.0));
    for x in 0..1 {
        for y in 0..1 {
            for z in 0..1 {
                for w in 0..1 {
                    let value =
                        from_tuple((f64::from(x), f64::from(y), f64::from(z), f64::from(w)));
                    if x + y + z + w > 0 {
                        assert!(!point::equals(&expected, &value));
                    } else {
                        assert!(point::equals(&expected, &value));
                    }
                }
            }
        }
    }
}

#[test]
fn point_should_subtract_point_from_point() {
    let expected = vc(-2.0, -4.0, -6.0);
    let p1 = pt(3.0, 2.0, 1.0);
    let p2 = pt(5.0, 6.0, 7.0);
    let result = point::subtract(&p1, &p2);
    assert!(point::equals(&result, &expected));
}

#[test]
fn point_should_subtract_vector_from_point() {
    let expected = pt(-2.0, -4.0, -6.0);
    let p = pt(3.0, 2.0, 1.0);
    let v = vc(5.0, 6.0, 7.0);
    let result = point::subtract(&p, &v);
    assert!(point::equals(&result, &expected));
}

#[test]
fn point_should_subtract_vector_from_vector() {
    let expected = vc(-2.0, -4.0, -6.0);
    let v1 = vc(3.0, 2.0, 1.0);
    let v2 = vc(5.0, 6.0, 7.0);
    let result = point::subtract(&v1, &v2);
    assert!(point::equals(&result, &expected));
}

#[test]
fn point_sums_of_vectors_are_vectors() {
    let sum = point::add(&vc(1.0, 2.0, 3.0), &vc(0.5, 0.5, 0.5));
    assert!(point::is_vector(&sum));
    assert_eq!(
        (sum.x.raw(), sum.y.raw(), sum.z.raw()),
        (1_500_000_000, 2_500_000_000, 3_500_000_000)
    );
    let moved = point::add(&vc(1.0, 2.0, 3.0), &pt(0.5, 0.5, 0.5));
    assert!(point::is_point(&moved));
}

#[test]
fn point_compares_within_the_tolerance() {
    assert!(point::equals(&pt(1.0, 2.0, 3.0), &pt(1.000001, 2.0, 3.0)));
    assert!(!point::equals(&pt(1.0, 2.0, 3.0), &pt(1.0001, 2.0, 3.0)));
    assert!(!point::equals(&pt(1.0, 2.0, 3.0), &vc(1.0, 2.0, 3.0)));
}
