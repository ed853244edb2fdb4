use imagefx::numerals::digits_to_u32;
use imagefx::numerals::parse_i32;
use imagefx::numerals::u32_to_string;

#[test]
fn parse_i32_plain_digits() {
    assert_eq!(parse_i32("0"), Some(0));
    assert_eq!(parse_i32("42"), Some(42));
    assert_eq!(parse_i32("007"), Some(7));
}

#[test]
fn parse_i32_signs() {
    assert_eq!(parse_i32("+5"), Some(5));
    assert_eq!(parse_i32("-3"), Some(-3));
    assert_eq!(parse_i32("-0"), Some(0));
}

#[test]
fn parse_i32_range_edges() {
    assert_eq!(parse_i32("2147483647"), Some(i32::MAX));
    assert_eq!(parse_i32("2147483648"), None);
    assert_eq!(parse_i32("-2147483648"), Some(i32::MIN));
    assert_eq!(parse_i32("-2147483649"), None);
    assert_eq!(parse_i32("99999999999999999999"), None);
}

#[test]
fn parse_i32_rejects_malformed() {
    assert_eq!(parse_i32(""), None);
    assert_eq!(parse_i32("+"), None);
    assert_eq!(parse_i32("-"), None);
    assert_eq!(parse_i32("12a"), None);
    assert_eq!(parse_i32("1.5"), None);
    assert_eq!(parse_i32(" 1"), None);
    assert_eq!(parse_i32("--1"), None);
}

#[test]
fn parse_i32_agrees_with_std() {
    let cases = [
        "0", "42", "007", "+5", "-3", "-0", "2147483647", "2147483648", "-2147483648",
        "-2147483649", "", "+", "-", "12a", "1.5", " 1", "--1", "1000000",
    ];
    for s in cases {
        assert_eq!(parse_i32(s), s.parse::<i32>().ok(), "input {:?}", s);
    }
}

#[test]
fn digits_to_u32_whole_string() {
    assert_eq!(digits_to_u32("1234", 0, 4), Some(1234));
    assert_eq!(digits_to_u32("4294967295", 0, 10), Some(u32::MAX));
    assert_eq!(digits_to_u32("4294967296", 0, 10), None);
}

#[test]
fn u32_renders_in_decimal() {
    assert_eq!(u32_to_string(0), "0");
    assert_eq!(u32_to_string(7), "7");
    assert_eq!(u32_to_string(10), "10");
    assert_eq!(u32_to_string(305), "305");
    assert_eq!(u32_to_string(u32::MAX), "4294967295");
}

#[test]
fn rendering_then_reading_gives_the_value_back() {
    let cases: [u32; 7] = [0, 1, 9, 10, 99, 12345, u32::MAX];
    for v in cases {
        let s = u32_to_string(v);
        assert_eq!(digits_to_u32(&s, 0, s.len()), Some(v));
    }
}

#[test]
fn digits_to_u32_subrange() {
    assert_eq!(digits_to_u32("12345", 1, 3), Some(23));
    assert_eq!(digits_to_u32("12345", 2, 2), Some(0));
}
