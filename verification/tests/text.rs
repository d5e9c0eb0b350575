use bytecode_compiler::text::{
    push_decimal, push_decimal_of_width_four, push_signed_decimal, signed_decimal_text,
};

#[test]
fn integers_in_decimal() {
    for value in [0i64, 1, 9, 10, 11, 99, 100, 12345, -1, -9, -10, -12345, i64::MAX, i64::MIN] {
        assert_eq!(signed_decimal_text(value), value.to_string());
    }
    assert_eq!(signed_decimal_text(i64::MIN), "-9223372036854775808");
    assert_eq!(signed_decimal_text(i64::MAX), "9223372036854775807");
}

#[test]
fn natural_numbers_in_decimal() {
    for value in [0u64, 7, 10, 70, 101, 1000, 65535, u64::MAX] {
        let mut text = String::from("n=");
        push_decimal(&mut text, value);
        assert_eq!(text, format!("n={}", value));
    }
}

#[test]
fn numbers_at_least_four_digits_wide() {
    for value in [0u64, 9, 10, 99, 100, 999, 1000, 9999, 10000, 123456] {
        let mut text = String::from("@");
        push_decimal_of_width_four(&mut text, value);
        assert_eq!(text, format!("@{:04}", value));
    }
}

#[test]
fn appending_keeps_what_was_there() {
    let mut text = String::from("a");
    push_signed_decimal(&mut text, -5);
    push_signed_decimal(&mut text, 60);
    assert_eq!(text, "a-560");
}
