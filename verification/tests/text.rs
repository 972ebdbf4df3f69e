use world_graph::text::{push_decimal, push_signed};

fn decimal_of(n: u64) -> String {
    let mut s = String::new();
    push_decimal(&mut s, n);
    s
}

fn signed_of(n: i64) -> String {
    let mut s = String::new();
    push_signed(&mut s, n);
    s
}

#[test]
fn decimal_of_single_digits() {
    assert_eq!(decimal_of(0), "0");
    assert_eq!(decimal_of(7), "7");
    assert_eq!(decimal_of(9), "9");
}

#[test]
fn decimal_of_longer_numbers() {
    assert_eq!(decimal_of(10), "10");
    assert_eq!(decimal_of(1234567890), "1234567890");
    assert_eq!(decimal_of(u64::MAX), "18446744073709551615");
}

#[test]
fn decimal_is_appended_to_what_is_there() {
    let mut s = String::from("warp_");
    push_decimal(&mut s, 42);
    assert_eq!(s, "warp_42");
}

#[test]
fn signed_decimal_carries_a_minus_sign() {
    assert_eq!(signed_of(0), "0");
    assert_eq!(signed_of(15), "15");
    assert_eq!(signed_of(-5), "-5");
    assert_eq!(signed_of(i64::MAX), "9223372036854775807");
    assert_eq!(signed_of(i64::MIN), "-9223372036854775808");
}
