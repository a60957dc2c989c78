use exercises::temperature::fahrenheit_to_celsius;

#[test]
fn freezing_point_is_zero() {
    assert_eq!(fahrenheit_to_celsius(32), 0);
}

#[test]
fn boiling_point_is_one_hundred() {
    assert_eq!(fahrenheit_to_celsius(212), 100);
}

#[test]
fn division_truncates_toward_zero() {
    assert_eq!(fahrenheit_to_celsius(100), 37);
    assert_eq!(fahrenheit_to_celsius(99), 37);
    assert_eq!(fahrenheit_to_celsius(-50), -45);
}

#[test]
fn minus_forty_is_the_fixed_point() {
    assert_eq!(fahrenheit_to_celsius(-40), -40);
}

#[test]
fn extreme_inputs_convert_without_panicking() {
    assert_eq!(fahrenheit_to_celsius(i32::MAX), ((i32::MAX as i64 - 32) * 5 / 9) as i32);
    assert_eq!(fahrenheit_to_celsius(i32::MIN), ((i32::MIN as i64 - 32) * 5 / 9) as i32);
}
