use kzero::text::{parse_unsigned_from, push_decimal, starts_with, str_eq};

#[test]
fn texts_are_equal_character_by_character() {
    assert!(str_eq("", ""));
    assert!(str_eq("abc", "abc"));
    assert!(!str_eq("abc", "abd"));
    assert!(!str_eq("abc", "ab"));
    assert!(!str_eq("ab", "abc"));
    assert!(str_eq("é\u{1F600}", "é\u{1F600}"));
    assert!(!str_eq("é", "e"));
}

#[test]
fn prefixes() {
    assert!(starts_with("ataxx-7", "ataxx-"));
    assert!(starts_with("ataxx-", "ataxx-"));
    assert!(starts_with("anything", ""));
    assert!(starts_with("", ""));
    assert!(!starts_with("ataxx", "ataxx-"));
    assert!(!starts_with("btaxx-7", "ataxx-"));
    assert!(!starts_with("", "a"));
}

#[test]
fn numbers_are_read_from_a_position_on() {
    assert_eq!(parse_unsigned_from("go-19", 3, 255), Some(19));
    assert_eq!(parse_unsigned_from("19", 0, 255), Some(19));
    assert_eq!(parse_unsigned_from("+19", 0, 255), Some(19));
    assert_eq!(parse_unsigned_from("0", 0, 0), Some(0));
    assert_eq!(parse_unsigned_from("000", 0, 0), Some(0));
    assert_eq!(parse_unsigned_from("255", 0, 255), Some(255));
    assert_eq!(parse_unsigned_from("0255", 0, 255), Some(255));
    assert_eq!(parse_unsigned_from("18446744073709551615", 0, u64::MAX), Some(u64::MAX));
}

#[test]
fn what_is_no_number_is_refused() {
    assert_eq!(parse_unsigned_from("", 0, 255), None);
    assert_eq!(parse_unsigned_from("go-", 3, 255), None);
    assert_eq!(parse_unsigned_from("+", 0, 255), None);
    assert_eq!(parse_unsigned_from("++1", 0, 255), None);
    assert_eq!(parse_unsigned_from("-1", 0, 255), None);
    assert_eq!(parse_unsigned_from("1+", 0, 255), None);
    assert_eq!(parse_unsigned_from("12a", 0, 255), None);
    assert_eq!(parse_unsigned_from(" 12", 0, 255), None);
    assert_eq!(parse_unsigned_from("256", 0, 255), None);
    assert_eq!(parse_unsigned_from("1", 0, 0), None);
    assert_eq!(parse_unsigned_from("18446744073709551616", 0, u64::MAX), None);
    assert_eq!(parse_unsigned_from("99999999999999999999999", 0, u64::MAX), None);
}

#[test]
fn decimals_are_appended() {
    let mut out = String::from("n=");
    push_decimal(&mut out, 0);
    assert_eq!(out, "n=0");
    push_decimal(&mut out, 907);
    assert_eq!(out, "n=0907");
    let mut max = String::new();
    push_decimal(&mut max, u64::MAX);
    assert_eq!(max, "18446744073709551615");
    for n in [1u64, 9, 10, 11, 99, 100, 101, 12345678901234567890] {
        let mut s = String::new();
        push_decimal(&mut s, n);
        assert_eq!(s, n.to_string());
        assert_eq!(parse_unsigned_from(&s, 0, u64::MAX), Some(n));
    }
}
