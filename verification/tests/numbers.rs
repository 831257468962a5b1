use sel4_rs::text::{append_decimal, append_hex_literal, literal_at, parse_decimal_at};

fn decimal(n: u64) -> String {
    let mut out = String::new();
    append_decimal(&mut out, n);
    out
}

fn hex(n: u64) -> String {
    let mut out = String::new();
    append_hex_literal(&mut out, n);
    out
}

#[test]
fn decimal_matches_the_standard_formatter() {
    for n in [0u64, 1, 9, 10, 11, 99, 100, 12345, 4294967295, 4294967296, u64::MAX - 1, u64::MAX] {
        assert_eq!(decimal(n), format!("{}", n));
    }
}

#[test]
fn decimal_of_the_largest_number() {
    assert_eq!(decimal(u64::MAX), "18446744073709551615");
}

#[test]
fn hex_literal_matches_the_standard_formatter() {
    for n in [0u64, 1, 9, 10, 15, 16, 255, 256, 0xABCDEF, 0x1000_0000, 0xDEAD_BEEF, u64::MAX] {
        assert_eq!(hex(n), format!("{:#X}", n));
    }
}

#[test]
fn hex_literal_has_upper_case_digits_and_a_lower_case_prefix() {
    assert_eq!(hex(0), "0x0");
    assert_eq!(hex(0xabcdef), "0xABCDEF");
    assert_eq!(hex(u64::MAX), "0xFFFFFFFFFFFFFFFF");
}

#[test]
fn appending_keeps_what_is_there() {
    let mut out = String::from("len = ");
    append_decimal(&mut out, 42);
    out.push_str(", at ");
    append_hex_literal(&mut out, 0x2A);
    assert_eq!(out, "len = 42, at 0x2A");
}

#[test]
fn literal_is_found_only_where_it_stands() {
    assert!(literal_at("abcdef", 0, "abc"));
    assert!(literal_at("abcdef", 2, "cdef"));
    assert!(literal_at("abcdef", 6, ""));
    assert!(!literal_at("abcdef", 1, "abc"));
    assert!(!literal_at("abcdef", 4, "efg"));
    assert!(!literal_at("abcdef", 7, ""));
    assert!(!literal_at("abc", 0, "abd"));
}

#[test]
fn number_is_read_up_to_the_first_other_character() {
    assert_eq!(parse_decimal_at("123u64", 0), Some((123, 3)));
    assert_eq!(parse_decimal_at("x = 42;", 4), Some((42, 6)));
    assert_eq!(parse_decimal_at("007", 0), Some((7, 3)));
    assert_eq!(parse_decimal_at("0", 0), Some((0, 1)));
}

#[test]
fn number_needs_a_digit() {
    assert_eq!(parse_decimal_at("", 0), None);
    assert_eq!(parse_decimal_at("u64", 0), None);
    assert_eq!(parse_decimal_at("12", 2), None);
    assert_eq!(parse_decimal_at("12", 3), None);
    assert_eq!(parse_decimal_at("-1", 0), None);
}

#[test]
fn number_must_fit_64_bits() {
    assert_eq!(parse_decimal_at("18446744073709551615", 0), Some((u64::MAX, 20)));
    assert_eq!(parse_decimal_at("18446744073709551616", 0), None);
    assert_eq!(parse_decimal_at("99999999999999999999999", 0), None);
    assert_eq!(parse_decimal_at("000018446744073709551615;", 0), Some((u64::MAX, 24)));
}

#[test]
fn written_numbers_read_back() {
    for n in [0u64, 5, 10, 1234567890, u64::MAX] {
        let text = format!("{}u64", decimal(n));
        assert_eq!(parse_decimal_at(&text, 0), Some((n, text.len() - 3)));
    }
}
