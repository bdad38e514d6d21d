//! Breakpoint tokens.

use deet::target::{classify_target, digit, parse_address, parse_number, BreakTarget};

#[test]
fn digits_have_their_value_in_the_base() {
    assert_eq!(digit('0', 10), Some(0));
    assert_eq!(digit('9', 10), Some(9));
    assert_eq!(digit('a', 10), None);
    assert_eq!(digit('a', 16), Some(10));
    assert_eq!(digit('F', 16), Some(15));
    assert_eq!(digit('f', 16), Some(15));
    assert_eq!(digit('g', 16), None);
    assert_eq!(digit('7', 8), Some(7));
    assert_eq!(digit('8', 8), None);
    assert_eq!(digit(' ', 16), None);
    assert_eq!(digit('-', 10), None);
}

#[test]
fn numbers_are_read_in_their_base() {
    assert_eq!(parse_number("0", 0, 10), Some(0));
    assert_eq!(parse_number("42", 0, 10), Some(42));
    assert_eq!(parse_number("0042", 0, 10), Some(42));
    assert_eq!(parse_number("+42", 0, 10), Some(42));
    assert_eq!(parse_number("ff", 0, 16), Some(255));
    assert_eq!(parse_number("Ff", 0, 16), Some(255));
    assert_eq!(parse_number("x42", 1, 10), Some(42));
    assert_eq!(parse_number("101", 0, 2), Some(5));
}

#[test]
fn what_is_no_number_is_refused() {
    assert_eq!(parse_number("", 0, 10), None);
    assert_eq!(parse_number("+", 0, 10), None);
    assert_eq!(parse_number("++1", 0, 10), None);
    assert_eq!(parse_number("-1", 0, 10), None);
    assert_eq!(parse_number("12a", 0, 10), None);
    assert_eq!(parse_number("1 2", 0, 10), None);
    assert_eq!(parse_number("1_000", 0, 10), None);
    assert_eq!(parse_number("abc", 3, 16), None);
    assert_eq!(parse_number("١٢", 0, 10), None);
}

#[test]
fn numbers_must_fit() {
    let max = format!("{}", usize::MAX);
    assert_eq!(parse_number(&max, 0, 10), Some(usize::MAX));
    let hex = format!("{:x}", usize::MAX);
    assert_eq!(parse_number(&hex, 0, 16), Some(usize::MAX));
    assert_eq!(parse_number("18446744073709551616", 0, 10), None);
    assert_eq!(parse_number("10000000000000000", 0, 16), None);
    assert_eq!(parse_number("99999999999999999999999999", 0, 10), None);
    assert_eq!(parse_number("18446744073709551616x", 0, 10), None);
}

#[test]
fn addresses_are_hexadecimal() {
    assert_eq!(parse_address("0x4005b8", 0), Some(0x4005b8));
    assert_eq!(parse_address("0X4005B8", 0), Some(0x4005b8));
    assert_eq!(parse_address("4005b8", 0), Some(0x4005b8));
    assert_eq!(parse_address("*0x10", 1), Some(16));
    assert_eq!(parse_address("10", 0), Some(16));
    assert_eq!(parse_address("0", 0), Some(0));
    assert_eq!(parse_address("0x", 0), None);
    assert_eq!(parse_address("x10", 0), None);
    assert_eq!(parse_address("0x0x10", 0), None);
    assert_eq!(parse_address("", 0), None);
    assert_eq!(parse_address("0xg", 0), None);
}

#[test]
fn tokens_name_addresses_lines_and_functions() {
    assert_eq!(classify_target("*0x4005b8"), BreakTarget::Address(0x4005b8));
    assert_eq!(classify_target("*4005b8"), BreakTarget::Address(0x4005b8));
    assert_eq!(classify_target("*"), BreakTarget::Invalid);
    assert_eq!(classify_target("*main"), BreakTarget::Invalid);
    assert_eq!(classify_target("*0x"), BreakTarget::Invalid);
    assert_eq!(classify_target("15"), BreakTarget::Line(15));
    assert_eq!(classify_target("+15"), BreakTarget::Line(15));
    assert_eq!(classify_target("0"), BreakTarget::Line(0));
    assert_eq!(classify_target("main"), BreakTarget::Function);
    assert_eq!(classify_target("0x10"), BreakTarget::Function);
    assert_eq!(classify_target("15a"), BreakTarget::Function);
    assert_eq!(classify_target("-3"), BreakTarget::Function);
    assert_eq!(classify_target(""), BreakTarget::Function);
    assert_eq!(classify_target("99999999999999999999999999"), BreakTarget::Function);
}
