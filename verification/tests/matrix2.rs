use raytracer::float::MyFloat;
use raytracer::matrix2::Matrix2;

fn fl(x: f64) -> MyFloat {
    MyFloat::new((x * 1e9).round() as i64)
}

fn m2(v: [[f64; 2]; 2]) -> Matrix2 {
    Matrix2::from([[fl(v[0][0]), fl(v[0][1])], [fl(v[1][0]), fl(v[1][1])]])
}

#[test]
fn matrix2_should_create() {
    let m = m2([[-3.0, 5.0], [1.0, -2.0]]);
    assert!(m.get(0, 0).equals(fl(-3.0)));
    assert!(m.get(0, 1).equals(fl(5.0)));
    assert!(m.get(1, 0).equals(fl(1.0)));
    assert!(m.get(1, 1).equals(fl(-2.0)));
}

#[test]
fn matrix2_should_calculate_determinant() {
    let a = m2([[1.0, 5.0], [-3.0, 2.0]]);
    assert!(a.determinant().equals(fl(17.0)));
}

#[test]
fn should_create_2x2() {
    let m = m2([[-3.0, 5.0], [1.0, -2.0]]);
    assert!(m.get(0, 0).equals(fl(-3.0)));
    assert!(m.get(0, 1).equals(fl(5.0)));
    assert!(m.get(1, 0).equals(fl(1.0)));
    assert!(m.get(1, 1).equals(fl(-2.0)));
}

#[test]
fn matrix2_new_is_zero() {
    let m = Matrix2::new();
    for i in 0..2 {
        for j in 0..2 {
            assert_eq!(m.get(i, j).raw(), 0);
        }
    }
}

#[test]
fn matrix2_set_replaces_one_entry() {
    let mut m = m2([[1.0, 2.0], [3.0, 4.0]]);
    m.set(1, 0, fl(9.5));
    assert!(m.equals(&m2([[1.0, 2.0], [9.5, 4.0]])));
    assert!(!m.equals(&m2([[1.0, 2.0], [3.0, 4.0]])));
}

#[test]
fn matrix2_determinant_is_exact_on_fractions() {
    // 0.5 * 0.25 - 1.5 * 0.75 = -1
    let a = m2([[0.5, 0.75], [1.5, 0.25]]);
    assert_eq!(a.determinant().raw(), -1_000_000_000);
}
