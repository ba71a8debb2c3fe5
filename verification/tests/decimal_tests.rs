use fileid_store::decimal::{i32_to_string, parse_i32, parse_u64, parse_usize, u64_to_string};

fn chars(s: &str) -> Vec<char> {
    s.chars().collect()
}

#[test]
fn parse_u64_accepts_what_from_str_accepts() {
    assert_eq!(parse_u64(&chars("0")), Some(0));
    assert_eq!(parse_u64(&chars("12")), Some(12));
    assert_eq!(parse_u64(&chars("+7")), Some(7));
    assert_eq!(parse_u64(&chars("007")), Some(7));
    assert_eq!(parse_u64(&chars("18446744073709551615")), Some(u64::MAX));
}

#[test]
fn parse_u64_refuses_what_from_str_refuses() {
    for s in ["", "+", "-", "-1", "1a", " 1", "1 ", "18446744073709551616", "99999999999999999999999", "１"] {
        assert_eq!(parse_u64(&chars(s)), None, "{:?}", s);
        assert!(s.parse::<u64>().is_err());
    }
}

#[test]
fn parse_i32_signs_and_range() {
    assert_eq!(parse_i32(&chars("-5")), Some(-5));
    assert_eq!(parse_i32(&chars("+5")), Some(5));
    assert_eq!(parse_i32(&chars("-2147483648")), Some(i32::MIN));
    assert_eq!(parse_i32(&chars("2147483647")), Some(i32::MAX));
    assert_eq!(parse_i32(&chars("2147483648")), None);
    assert_eq!(parse_i32(&chars("-2147483649")), None);
    assert_eq!(parse_i32(&chars("-")), None);
    assert_eq!(parse_i32(&chars("--1")), None);
    assert_eq!(parse_i32(&chars("+-1")), None);
}

#[test]
fn parse_usize_refuses_negative() {
    assert_eq!(parse_usize(&chars("42")), Some(42));
    assert_eq!(parse_usize(&chars("-42")), None);
}

#[test]
fn parsers_agree_with_from_str() {
    let samples = [
        "0", "1", "-1", "+1", "", "+", "-", "12x", "4294967295", "4294967296", "-2147483648",
        "2147483648", "000123", "18446744073709551615", "18446744073709551616", "9", "-0",
    ];
    for s in samples {
        let c = chars(s);
        assert_eq!(parse_u64(&c), s.parse::<u64>().ok(), "{:?}", s);
        assert_eq!(parse_usize(&c), s.parse::<usize>().ok(), "{:?}", s);
        assert_eq!(parse_i32(&c), s.parse::<i32>().ok(), "{:?}", s);
    }
}

#[test]
fn formatting_matches_to_string() {
    for n in [0u64, 7, 10, 99, 100, 12345, u64::MAX] {
        assert_eq!(u64_to_string(n), n.to_string());
    }
    for v in [0i32, -1, 9, -10, 2024, i32::MIN, i32::MAX] {
        assert_eq!(i32_to_string(v), v.to_string());
    }
}

#[test]
fn formatting_round_trips() {
    for n in [0u64, 5, 1000, u64::MAX] {
        assert_eq!(parse_u64(&chars(&u64_to_string(n))), Some(n));
    }
    for v in [0i32, -7, 31337, i32::MIN, i32::MAX] {
        assert_eq!(parse_i32(&chars(&i32_to_string(v))), Some(v));
    }
}
