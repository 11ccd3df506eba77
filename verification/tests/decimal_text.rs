use zkmr::decimal::{decimal_string, parse_u64, push_decimal};

#[test]
fn decimal_string_matches_display() {
    for n in [0u64, 1, 9, 10, 42, 99, 100, 385, 4096, 1_000_000, u32::MAX as u64, u64::MAX - 1, u64::MAX] {
        assert_eq!(decimal_string(n), n.to_string());
    }
}

#[test]
fn push_decimal_appends() {
    let mut s = String::from("x=");
    push_decimal(&mut s, 305);
    assert_eq!(s, "x=305");
}

#[test]
fn parse_u64_agrees_with_std() {
    let cases = [
        "", "0", "7", "42", "+42", "+", "-", "-1", "-0", "007", "+007", "12a", "a12", " 1", "1 ",
        "++1", "18446744073709551615", "18446744073709551616", "99999999999999999999",
        "+18446744073709551615", "1844674407370955161", "18446744073709551610", "١٢",
    ];
    for c in cases {
        assert_eq!(parse_u64(c), c.parse::<u64>().ok(), "input {c:?}");
    }
}

#[test]
fn parse_reads_back_decimal() {
    for n in [0u64, 5, 10, 123456789, u64::MAX] {
        assert_eq!(parse_u64(&decimal_string(n)), Some(n));
    }
}

#[test]
fn parse_rejects_overflow() {
    assert_eq!(parse_u64("18446744073709551616"), None);
    assert_eq!(parse_u64("18446744073709551615"), Some(u64::MAX));
}
