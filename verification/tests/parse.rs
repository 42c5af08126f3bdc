use cgroup_bandwidth_limit::parse::{digit_of, parse_bool, parse_i32, parse_usize, same_text, IntError};
use std::num::IntErrorKind;

fn kind(e: &IntErrorKind) -> IntError {
    match e {
        IntErrorKind::Empty => IntError::Empty,
        IntErrorKind::InvalidDigit => IntError::InvalidDigit,
        IntErrorKind::PosOverflow => IntError::PosOverflow,
        IntErrorKind::NegOverflow => IntError::NegOverflow,
        other => panic!("unexpected kind {:?}", other),
    }
}

fn std_usize(s: &str) -> Result<usize, IntError> {
    s.parse::<usize>().map_err(|e| kind(e.kind()))
}

fn std_i32(s: &str) -> Result<i32, IntError> {
    s.parse::<i32>().map_err(|e| kind(e.kind()))
}

fn samples() -> Vec<String> {
    let mut v: Vec<String> = Vec::new();
    for s in [
        "", "0", "7", "42", "007", "+", "-", "+5", "-5", "+-5", "--5", "++5", "5+", "5-", " 5",
        "5 ", "1x", "x1", "12a34", "0x10", "1_000", "१२", "٣", "1e3", "1.0", "-0", "+0", "-00",
        "2147483647", "2147483648", "-2147483648", "-2147483649", "+2147483647", "+2147483648",
        "4294967295", "4294967296", "18446744073709551615", "18446744073709551616",
        "+18446744073709551615", "-18446744073709551615", "99999999999999999999",
        "99999999999999999999x", "x99999999999999999999", "9999999999x", "-9999999999x",
        "-99999999999999999999", "00000000000000000000000000000001",
        "000000000000000000000000000000018446744073709551616", "184467440737095516150",
        "18446744073709551615a", "1844674407370955161a", "-2147483648a", "-214748364a8",
        "21474836470", "2147483647a", "\n", "1\n", "true", "é", "1é",
    ] {
        v.push(String::from(s));
    }
    for n in 0..300i64 {
        v.push(format!("{}", n * 7919 - 1000));
        v.push(format!("+{}", n * 104729));
        v.push(format!("{}", i32::MAX as i64 - 150 + n));
        v.push(format!("{}", i32::MIN as i64 - 150 + n));
        v.push(format!("{}", u64::MAX as i128 - 150 + n as i128));
    }
    v
}

#[test]
fn parse_usize_agrees_with_the_standard_library() {
    for s in samples() {
        assert_eq!(parse_usize(&s), std_usize(&s), "for {:?}", s);
    }
}

#[test]
fn parse_i32_agrees_with_the_standard_library() {
    for s in samples() {
        assert_eq!(parse_i32(&s), std_i32(&s), "for {:?}", s);
    }
}

#[test]
fn numbers_are_read() {
    assert_eq!(parse_usize("9000"), Ok(9000));
    assert_eq!(parse_usize("+12"), Ok(12));
    assert_eq!(parse_i32("-17"), Ok(-17));
    assert_eq!(parse_i32("-2147483648"), Ok(i32::MIN));
    assert_eq!(parse_i32("2147483647"), Ok(i32::MAX));
}

#[test]
fn each_error_has_an_input() {
    assert_eq!(parse_usize(""), Err(IntError::Empty));
    assert_eq!(parse_usize("12x"), Err(IntError::InvalidDigit));
    assert_eq!(parse_usize("-1"), Err(IntError::InvalidDigit));
    assert_eq!(parse_usize("+"), Err(IntError::InvalidDigit));
    assert_eq!(parse_usize("99999999999999999999999"), Err(IntError::PosOverflow));
    assert_eq!(parse_i32("2147483648"), Err(IntError::PosOverflow));
    assert_eq!(parse_i32("-2147483649"), Err(IntError::NegOverflow));
    assert_eq!(parse_i32("-"), Err(IntError::InvalidDigit));
}

#[test]
fn error_messages_are_those_of_the_standard_library() {
    for s in ["", "x", "99999999999999999999999", "-99999999999999999999999"] {
        let ours = parse_i32(s).unwrap_err();
        let theirs = s.parse::<i32>().unwrap_err();
        assert_eq!(ours.message(), format!("{}", theirs));
    }
}

#[test]
fn digits() {
    assert_eq!(digit_of('0'), Some(0));
    assert_eq!(digit_of('9'), Some(9));
    assert_eq!(digit_of('5'), Some(5));
    assert_eq!(digit_of('/'), None);
    assert_eq!(digit_of(':'), None);
    assert_eq!(digit_of('a'), None);
    assert_eq!(digit_of('٣'), None);
}

#[test]
fn truth_values() {
    assert_eq!(parse_bool("true"), Some(true));
    assert_eq!(parse_bool("false"), Some(false));
    for s in ["", "True", "TRUE", "1", "0", "yes", "true ", " true", "truefalse", "tru", "fals"] {
        assert_eq!(parse_bool(s), None, "for {:?}", s);
        assert_eq!(parse_bool(s), s.parse::<bool>().ok());
    }
}

#[test]
fn texts_are_compared_by_character() {
    assert!(same_text("", ""));
    assert!(same_text("quit", "quit"));
    assert!(!same_text("quit", "quiT"));
    assert!(!same_text("quit", "qui"));
    assert!(!same_text("qui", "quit"));
    assert!(same_text("héllo", "héllo"));
    assert!(!same_text("héllo", "hello"));
}
