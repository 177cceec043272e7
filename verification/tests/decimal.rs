use raytracer::decimal::push_decimal;

fn written(n: u64) -> String {
    let mut text = String::new();
    push_decimal(&mut text, n);
    text
}

#[test]
fn digits_of_small_and_large_numbers() {
    assert_eq!(written(0), "0");
    assert_eq!(written(7), "7");
    assert_eq!(written(10), "10");
    assert_eq!(written(255), "255");
    assert_eq!(written(1_000_000), "1000000");
    assert_eq!(written(9_876_543_210), "9876543210");
    assert_eq!(written(u64::MAX), "18446744073709551615");
}

#[test]
fn digits_are_appended_to_what_is_there() {
    let mut text = String::from("width ");
    push_decimal(&mut text, 120);
    text.push(' ');
    push_decimal(&mut text, 0);
    assert_eq!(text, "width 120 0");
}
