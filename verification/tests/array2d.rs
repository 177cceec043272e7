use raytracer::array2d::Array2D;

#[test]
fn array_is_filled_with_the_initial_value() {
    let a = Array2D::new(3, 4, 7u8);
    assert_eq!(a.width(), 3);
    assert_eq!(a.height(), 4);
    for x in 0..3 {
        assert_eq!(a.row(x), &[7u8, 7, 7, 7]);
        for y in 0..4 {
            assert_eq!(*a.get(x, y), 7);
        }
    }
}

#[test]
fn array_set_changes_one_cell() {
    let mut a = Array2D::new(2, 3, String::from("-"));
    a.set(1, 2, String::from("x"));
    a.set(0, 1, String::from("y"));
    assert_eq!(a.row(0), &["-", "y", "-"]);
    assert_eq!(a.row(1), &["-", "-", "x"]);
    assert_eq!(a.get(1, 2), "x");
}

#[test]
fn array_may_be_empty() {
    let a = Array2D::new(0, 5, 1i32);
    assert_eq!(a.width(), 0);
    assert_eq!(a.height(), 5);
    let b = Array2D::new(2, 0, 1i32);
    assert_eq!(b.row(1).len(), 0);
}
