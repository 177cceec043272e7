use raytracer::float::MyFloat;
use raytracer::matrix3::Matrix3;
use raytracer::matrix4::{matrix4, Matrix4};
use raytracer::tuple::{tuple, Tuple};

fn fl(x: f64) -> MyFloat {
    MyFloat::new((x * 1e9).round() as i64)
}

fn tp(x: f64, y: f64, z: f64, w: f64) -> Tuple {
    tuple(fl(x), fl(y), fl(z), fl(w))
}

fn m3(v: [[f64; 3]; 3]) -> Matrix3 {
    Matrix3::from([
        [fl(v[0][0]), fl(v[0][1]), fl(v[0][2])],
        [fl(v[1][0]), fl(v[1][1]), fl(v[1][2])],
        [fl(v[2][0]), fl(v[2][1]), fl(v[2][2])],
    ])
}

fn m4(v: [[f64; 4]; 4]) -> Matrix4 {
    Matrix4::from([
        [fl(v[0][0]), fl(v[0][1]), fl(v[0][2]), fl(v[0][3])],
        [fl(v[1][0]), fl(v[1][1]), fl(v[1][2]), fl(v[1][3])],
        [fl(v[2][0]), fl(v[2][1]), fl(v[2][2]), fl(v[2][3])],
        [fl(v[3][0]), fl(v[3][1]), fl(v[3][2]), fl(v[3][3])],
    ])
}

#[test]
fn matrix4_should_create() {
    let m = m4([
        [1.0, 2.0, 3.0, 4.0],
        [5.5, 6.5, 7.5, 8.5],
        [9.0, 10.0, 11.0, 12.0],
        [13.5, 14.5, 15.5, 16.5],
    ]);
    assert!(m.0[0][0].equals(fl(1.0)));
    assert!(m.0[0][3].equals(fl(4.0)));
    assert!(m.0[1][0].equals(fl(5.5)));
    assert!(m.0[1][2].equals(fl(7.5)));
    assert!(m.0[2][2].equals(fl(11.0)));
    assert!(m.0[3][0].equals(fl(13.5)));
    assert!(m.0[3][2].equals(fl(15.5)));
}

#[test]
fn should_create_4x4() {
    let m = m4([
        [1.0, 2.0, 3.0, 4.0],
        [5.5, 6.5, 7.5, 8.5],
        [9.0, 10.0, 11.0, 12.0],
        [13.5, 14.5, 15.5, 16.5],
    ]);
    assert!(m.get(0, 0).equals(fl(1.0)));
    assert!(m.get(0, 3).equals(fl(4.0)));
    assert!(m.get(1, 0).equals(fl(5.5)));
    assert!(m.get(1, 2).equals(fl(7.5)));
    assert!(m.get(2, 2).equals(fl(11.0)));
    assert!(m.get(3, 0).equals(fl(13.5)));
    assert!(m.get(3, 2).equals(fl(15.5)));
}

#[test]
fn should_check_equality() {
    let a = m4([
        [1.0, 2.0, 3.0, 4.0],
        [5.0, 6.0, 7.0, 8.0],
        [9.0, 8.0, 7.0, 6.0],
        [5.0, 4.0, 3.0, 2.0],
    ]);
    let b = m4([
        [1.0, 2.0, 3.0, 4.0],
        [5.0, 6.0, 7.0, 8.0],
        [9.0, 8.0, 7.0, 6.0],
        [5.0, 4.0, 3.0, 2.0],
    ]);
    assert!(a.equals(&b));
    let c = matrix4();
    let d = matrix4();
    assert!(c.equals(&d));
}

#[test]
fn should_check_inequality() {
    let a = m4([
        [1.0, 2.0, 3.0, 4.0],
        [5.0, 6.0, 7.0, 8.0],
        [9.0, 8.0, 7.0, 6.0],
        [5.0, 4.0, 3.0, 2.0],
    ]);
    let b = m4([
        [2.0, 3.0, 4.0, 5.0],
        [6.0, 7.0, 8.0, 9.0],
        [8.0, 7.0, 6.0, 5.0],
        [4.0, 3.0, 2.0, 1.0],
    ]);
    assert!(!a.equals(&b));
    let c = matrix4();
    let mut d = matrix4();
    d.0[0][0] = fl(1.0);
    assert!(!c.equals(&d));
}

#[test]
fn should_multiply() {
    let a = m4([
        [1.0, 2.0, 3.0, 4.0],
        [5.0, 6.0, 7.0, 8.0],
        [9.0, 8.0, 7.0, 6.0],
        [5.0, 4.0, 3.0, 2.0],
    ]);
    let b = m4([
        [-2.0, 1.0, 2.0, 3.0],
        [3.0, 2.0, 1.0, -1.0],
        [4.0, 3.0, 6.0, 5.0],
        [1.0, 2.0, 7.0, 8.0],
    ]);
    let expected = m4([
        [20.0, 22.0, 50.0, 48.0],
        [44.0, 54.0, 114.0, 108.0],
        [40.0, 58.0, 110.0, 102.0],
        [16.0, 26.0, 46.0, 42.0],
    ]);
    let result = a.multiply(&b);
    assert!(result.equals(&expected));
}

#[test]
fn should_multiply_tuple() {
    let m = m4([
        [1.0, 2.0, 3.0, 4.0],
        [2.0, 4.0, 4.0, 2.0],
        [8.0, 6.0, 4.0, 1.0],
        [0.0, 0.0, 0.0, 1.0],
    ]);
    let t = tp(1.0, 2.0, 3.0, 1.0);
    let expected = tp(18.0, 24.0, 33.0, 1.0);
    let result = m.times_tuple(&t);
    assert!(expected.equals(&result));
}

#[test]
fn should_multiply_identity_matrix() {
    let a = m4([
        [0.0, 1.0, 2.0, 4.0],
        [1.0, 2.0, 4.0, 8.0],
        [2.0, 4.0, 8.0, 16.0],
        [4.0, 8.0, 16.0, 32.0],
    ]);
    let result = a.multiply(&Matrix4::identity());
    assert!(result.equals(&a));

    let t: Tuple = tp(1.0, 2.0, 3.0, 4.0);
    let tresult = Matrix4::identity().times_tuple(&t);
    assert!(t.equals(&tresult));
}

#[test]
fn should_transpose() {
    let a = m4([
        [0.0, 9.0, 3.0, 0.0],
        [9.0, 8.0, 0.0, 8.0],
        [1.0, 8.0, 5.0, 3.0],
        [0.0, 0.0, 5.0, 8.0],
    ]);
    let expected = m4([
        [0.0, 9.0, 1.0, 0.0],
        [9.0, 8.0, 8.0, 0.0],
        [3.0, 0.0, 5.0, 5.0],
        [0.0, 8.0, 3.0, 8.0],
    ]);
    let result = a.transpose();
    assert!(result.equals(&expected));

    let iresult = Matrix4::identity().transpose();
    assert!(iresult.equals(&Matrix4::identity()));
}

#[test]
fn matrix4_should_calculate_submatrix() {
    let a = m4([
        [-6.0, 1.0, 1.0, 6.0],
        [-8.0, 5.0, 8.0, 6.0],
        [-1.0, 0.0, 8.0, 2.0],
        [-7.0, 1.0, -1.0, 1.0],
    ]);
    let result = a.submatrix(2, 1);
    let expected: Matrix3 = m3([[-6.0, 1.0, 6.0], [-8.0, 8.0, 6.0], [-7.0, -1.0, 1.0]]);
    assert!(result.equals(&expected));
}

#[test]
fn matrix4_should_calculate_determinant() {
    let a = m4([
        [-2.0, -8.0, 3.0, 5.0],
        [-3.0, 1.0, 7.0, 3.0],
        [1.0, 2.0, -9.0, 6.0],
        [-6.0, 7.0, 7.0, -9.0],
    ]);
    assert!(a.cofactor(0, 0).equals(fl(690.0)));
    assert!(a.cofactor(0, 1).equals(fl(447.0)));
    assert!(a.cofactor(0, 2).equals(fl(210.0)));
    assert!(a.cofactor(0, 3).equals(fl(51.0)));
    assert!(a.determinant().equals(fl(-4071.0)));
}

#[test]
fn should_calculate_invertibility() {
    let a = m4([
        [6.0, 4.0, 4.0, 4.0],
        [5.0, 5.0, 7.0, 6.0],
        [4.0, -9.0, 3.0, -7.0],
        [9.0, 1.0, 7.0, -6.0],
    ]);
    assert!(a.determinant().equals(fl(-2120.0)));
    assert!(a.is_invertible());

    let a = m4([
        [-4.0, 2.0, -2.0, -3.0],
        [9.0, 6.0, 2.0, 6.0],
        [0.0, -5.0, 1.0, -5.0],
        [0.0, 0.0, 0.0, 0.0],
    ]);
    assert!(a.determinant().equals(fl(0.0)));
    assert!(!a.is_invertible());
}

#[test]
fn should_invert() {
    let a = m4([
        [-5.0, 2.0, 6.0, -8.0],
        [1.0, -5.0, 1.0, 8.0],
        [7.0, 7.0, -6.0, -7.0],
        [1.0, -3.0, 7.0, 4.0],
    ]);
    let b = a.inverse();
    let expected = m4([
        [0.21805, 0.45113, 0.24060, -0.04511],
        [-0.80827, -1.45677, -0.44361, 0.52068],
        [-0.07895, -0.22368, -0.05263, 0.19737],
        [-0.52256, -0.81391, -0.30075, 0.30639],
    ]);

    assert!(a.determinant().equals(fl(532.0)));
    assert!(a.cofactor(2, 3).equals(fl(-160.0)));
    assert!(b.0[3][2].equals(fl(-160.0 / 532.0)));
    assert!(a.cofactor(3, 2).equals(fl(105.0)));
    assert!(b.0[2][3].equals(fl(105.0 / 532.0)));
    println!("{:?}", &b);
    println!("{:?}", &expected);
    assert!(b.equals(&expected));
}

#[test]
fn should_invert_more() {
    let a = m4([
        [8.0, -5.0, 9.0, 2.0],
        [7.0, 5.0, 6.0, 1.0],
        [-6.0, 0.0, 9.0, 6.0],
        [-3.0, 0.0, -9.0, -4.0],
    ]);
    let result = a.inverse();
    let expected = m4([
        [-0.15385, -0.15385, -0.28205, -0.53846],
        [-0.07692, 0.12308, 0.02564, 0.03077],
        [0.35897, 0.35897, 0.43590, 0.92308],
        [-0.69231, -0.69231, -0.76923, -1.92308],
    ]);
    assert!(result.equals(&expected));
}

#[test]
fn should_invert_even_more() {
    let a = m4([
        [9.0, 3.0, 0.0, 9.0],
        [-5.0, -2.0, -6.0, -3.0],
        [-4.0, 9.0, 6.0, 4.0],
        [-7.0, 6.0, 6.0, 2.0],
    ]);
    let result = a.inverse();
    let expected = m4([
        [-0.04074, -0.07778, 0.14444, -0.22222],
        [-0.07778, 0.03333, 0.36667, -0.33333],
        [-0.02901, -0.14630, -0.10926, 0.12963],
        [0.17778, 0.06667, -0.26667, 0.33333],
    ]);
    assert!(result.equals(&expected));
}

#[test]
fn should_can_reverse() {
    let a = m4([
        [3.0, -9.0, 7.0, 3.0],
        [3.0, -8.0, 2.0, -9.0],
        [-4.0, 4.0, 4.0, 1.0],
        [-6.0, 5.0, -1.0, 1.0],
    ]);
    let b = m4([
        [8.0, 2.0, 2.0, 2.0],
        [3.0, -1.0, 7.0, 0.0],
        [7.0, 0.0, 5.0, 4.0],
        [6.0, -2.0, 0.0, 5.0],
    ]);
    let c = a.multiply(&b);
    let result = c.multiply(&b.inverse());
    assert!(result.equals(&a));
}

#[test]
fn matrix_times_its_inverse_is_the_identity() {
    let a = m4([
        [-5.0, 2.0, 6.0, -8.0],
        [1.0, -5.0, 1.0, 8.0],
        [7.0, 7.0, -6.0, -7.0],
        [1.0, -3.0, 7.0, 4.0],
    ]);
    assert!(a.is_invertible());
    let inverse = a.inverse();
    assert!(a.multiply(&inverse).equals(&Matrix4::identity()));
    assert!(inverse.multiply(&a).equals(&Matrix4::identity()));
    let t = tp(1.5, -2.0, 3.25, 1.0);
    assert!(inverse.times_tuple(&a.times_tuple(&t)).equals(&t));
}

#[test]
fn inverse_of_the_identity_is_the_identity() {
    let i = Matrix4::identity();
    assert_eq!(i.determinant().raw(), 1_000_000_000);
    let inverse = i.inverse();
    for r in 0..4 {
        for c in 0..4 {
            assert_eq!(inverse.get(r, c).raw(), i.get(r, c).raw());
        }
    }
}

#[test]
fn matrix4_zero_and_set() {
    let mut m = matrix4();
    for r in 0..4 {
        for c in 0..4 {
            assert_eq!(m.get(r, c).raw(), 0);
        }
    }
    m.set(2, 3, fl(4.5));
    assert_eq!(m.get(2, 3).raw(), 4_500_000_000);
    assert_eq!(m.get(3, 2).raw(), 0);
}

#[test]
fn matrix4_minor_and_cofactor_signs() {
    let a = m4([
        [-5.0, 2.0, 6.0, -8.0],
        [1.0, -5.0, 1.0, 8.0],
        [7.0, 7.0, -6.0, -7.0],
        [1.0, -3.0, 7.0, 4.0],
    ]);
    assert!(a.minor(2, 3).equals(fl(160.0)));
    assert!(a.cofactor(2, 3).equals(fl(-160.0)));
    assert!(a.minor(3, 2).equals(fl(-105.0)));
    assert!(a.cofactor(3, 2).equals(fl(105.0)));
    assert!(a.minor(0, 0).equals(a.cofactor(0, 0)));
}

#[test]
fn product_is_not_commutative() {
    let a = m4([
        [1.0, 2.0, 3.0, 4.0],
        [5.0, 6.0, 7.0, 8.0],
        [9.0, 8.0, 7.0, 6.0],
        [5.0, 4.0, 3.0, 2.0],
    ]);
    let b = m4([
        [-2.0, 1.0, 2.0, 3.0],
        [3.0, 2.0, 1.0, -1.0],
        [4.0, 3.0, 6.0, 5.0],
        [1.0, 2.0, 7.0, 8.0],
    ]);
    assert!(!a.multiply(&b).equals(&b.multiply(&a)));
}

#[test]
fn a_nearly_singular_matrix_is_not_undone_by_its_inverse() {
    // the determinant is 0.000010022 and is rounded in its last digits, so
    // the inverse is off by more than the tolerance
    let a = m4([
        [0.05, 0.0, 0.0, 0.0],
        [0.0, 0.062, 0.0, 0.0],
        [0.0, 0.0, 0.061, 0.0],
        [0.0, 0.0, 0.0, 0.053],
    ]);
    assert_eq!(a.determinant().raw(), 10_022);
    assert!(a.is_invertible());
    let product = a.multiply(&a.inverse());
    assert_eq!(product.get(0, 0).raw(), 1_000_029_934);
    assert!(!product.equals(&Matrix4::identity()));
}

#[test]
fn a_matrix_with_a_determinant_within_the_tolerance_is_not_invertible() {
    let a = m4([
        [0.05, 0.0, 0.0, 0.0],
        [0.0, 0.05, 0.0, 0.0],
        [0.0, 0.0, 0.05, 0.0],
        [0.0, 0.0, 0.0, 0.0799],
    ]);
    assert_eq!(a.determinant().raw(), 9_988);
    assert!(!a.is_invertible());
}
