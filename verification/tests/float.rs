use raytracer::float::{MyFloat, EPSILON, LIMIT, SCALE};
use std::cmp::Ordering;

fn fl(x: f64) -> MyFloat {
    MyFloat::new((x * 1e9).round() as i64)
}

#[test]
fn whole_numbers_are_exact() {
    assert_eq!(MyFloat::from_int(3).raw(), 3_000_000_000);
    assert_eq!(MyFloat::from_int(-7).raw(), -7_000_000_000);
    assert_eq!(MyFloat::from_int(0).raw(), 0);
    assert_eq!(MyFloat::from_int(i32::MAX).raw(), 2_147_483_647_000_000_000);
    assert_eq!(MyFloat::from_int(i32::MIN).raw(), -2_147_483_648_000_000_000);
    assert_eq!(SCALE, 1_000_000_000);
}

#[test]
fn sums_and_differences_are_exact() {
    assert_eq!(fl(0.1).add(fl(0.2)).raw(), 300_000_000);
    assert_eq!(fl(0.1).sub(fl(0.2)).raw(), -100_000_000);
    assert_eq!(fl(1.5).neg().raw(), -1_500_000_000);
}

#[test]
fn sums_stop_at_the_bounds() {
    let top = MyFloat::new(LIMIT);
    assert_eq!(top.add(fl(1.0)).raw(), LIMIT);
    assert_eq!(top.neg().sub(fl(1.0)).raw(), -LIMIT);
    assert_eq!(MyFloat::new(i64::MIN).neg().raw(), LIMIT);
    assert_eq!(MyFloat::new(i64::MIN).add(fl(0.0)).raw(), -LIMIT);
}

#[test]
fn products_round_to_the_nearest_billionth() {
    assert_eq!(fl(1.5).mul(fl(2.5)).raw(), 3_750_000_000);
    assert_eq!(fl(-1.5).mul(fl(2.5)).raw(), -3_750_000_000);
    // 0.000000001 * 0.5 is half a billionth: the tie goes away from zero
    assert_eq!(MyFloat::new(1).mul(fl(0.5)).raw(), 1);
    assert_eq!(MyFloat::new(-1).mul(fl(0.5)).raw(), -1);
    assert_eq!(MyFloat::new(1).mul(fl(0.4)).raw(), 0);
    assert_eq!(MyFloat::new(3).mul(fl(0.5)).raw(), 2);
}

#[test]
fn products_stop_at_the_bounds() {
    let big = MyFloat::from_int(2_000_000_000);
    assert_eq!(big.mul(big).raw(), LIMIT);
    assert_eq!(big.mul(big.neg()).raw(), -LIMIT);
    assert_eq!(MyFloat::new(i64::MIN).mul(MyFloat::new(i64::MIN)).raw(), LIMIT);
}

#[test]
fn quotients_round_to_the_nearest_billionth() {
    assert_eq!(fl(1.0).div(fl(3.0)).raw(), 333_333_333);
    assert_eq!(fl(2.0).div(fl(3.0)).raw(), 666_666_667);
    assert_eq!(fl(-2.0).div(fl(3.0)).raw(), -666_666_667);
    assert_eq!(fl(2.0).div(fl(-3.0)).raw(), -666_666_667);
    assert_eq!(fl(-160.0).div(fl(532.0)).raw(), -300_751_880);
    assert_eq!(fl(1.0).div(fl(25.0)).raw(), 40_000_000);
}

#[test]
fn division_by_zero_gives_the_bound_of_the_sign() {
    let zero = MyFloat::from_int(0);
    assert_eq!(fl(1.0).div(zero).raw(), LIMIT);
    assert_eq!(fl(-1.0).div(zero).raw(), -LIMIT);
    assert_eq!(zero.div(zero).raw(), 0);
}

#[test]
fn quotients_stop_at_the_bounds() {
    assert_eq!(MyFloat::from_int(2_000_000_000).div(fl(0.001)).raw(), LIMIT);
    assert_eq!(MyFloat::from_int(-2_000_000_000).div(fl(0.001)).raw(), -LIMIT);
}

#[test]
fn square_roots_round_down() {
    assert_eq!(fl(4.0).sqrt().raw(), 2_000_000_000);
    assert_eq!(fl(2.0).sqrt().raw(), 1_414_213_562);
    assert_eq!(fl(14.0).sqrt().raw(), 3_741_657_386);
    assert_eq!(fl(0.0).sqrt().raw(), 0);
    assert_eq!(MyFloat::new(1).sqrt().raw(), 31_622);
    assert_eq!(MyFloat::new(LIMIT).sqrt().raw(), 96_038_388_349_944);
}

#[test]
fn equality_is_within_the_tolerance() {
    assert_eq!(EPSILON, 10_000);
    assert!(fl(1.0).equals(fl(1.0)));
    assert!(fl(1.0).equals(MyFloat::new(1_000_009_999)));
    assert!(!fl(1.0).equals(MyFloat::new(1_000_010_000)));
    assert!(fl(1.0).equals(MyFloat::new(999_990_001)));
    assert!(!fl(1.0).equals(MyFloat::new(999_990_000)));
    assert!(!MyFloat::new(LIMIT).equals(MyFloat::new(-LIMIT)));
}

#[test]
fn ordering_counts_numbers_within_the_tolerance_as_equal() {
    let one = fl(1.0);
    let near = MyFloat::new(1_000_000_001);
    let far = MyFloat::new(1_000_010_000);
    assert!(!one.lt(near));
    assert!(one.le(near));
    assert!(one.ge(near));
    assert!(!one.gt(near));
    assert!(near.le(one));
    assert!(near.ge(one));
    assert!(one.lt(far));
    assert!(one.le(far));
    assert!(!one.ge(far));
    assert!(!one.gt(far));
    assert!(far.gt(one));
    assert!(far.ge(one));
    assert!(!far.le(one));
    assert!(fl(-0.5).lt(fl(0.0)));
    assert!(fl(0.5).gt(fl(0.0)));
    assert_eq!(one.partial_cmp(&near), Some(Ordering::Equal));
    assert_eq!(near.partial_cmp(&one), Some(Ordering::Equal));
    assert_eq!(one.partial_cmp(&far), Some(Ordering::Less));
    assert_eq!(far.partial_cmp(&one), Some(Ordering::Greater));
    assert_eq!(one.partial_cmp(&one), Some(Ordering::Equal));
}
