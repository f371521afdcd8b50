use soban::number::{parse_unsigned, push_decimal, push_integer};

fn decimal(n: u128) -> String {
    let mut out = String::new();
    push_decimal(&mut out, n);
    out
}

fn integer(n: i128) -> String {
    let mut out = String::new();
    push_integer(&mut out, n);
    out
}

#[test]
fn reads_digits() {
    assert_eq!(parse_unsigned(b"0"), Some(0));
    assert_eq!(parse_unsigned(b"7"), Some(7));
    assert_eq!(parse_unsigned(b"123"), Some(123));
    assert_eq!(parse_unsigned(b"0000000000000000000042"), Some(42));
    assert_eq!(parse_unsigned(b"4294967295"), Some(4294967295));
}

#[test]
fn reads_a_plus_sign_in_front() {
    assert_eq!(parse_unsigned(b"+0"), Some(0));
    assert_eq!(parse_unsigned(b"+15"), Some(15));
    assert_eq!(parse_unsigned(b"+4294967295"), Some(u32::MAX));
}

#[test]
fn reads_nothing_from_what_is_no_number() {
    assert_eq!(parse_unsigned(b""), None);
    assert_eq!(parse_unsigned(b"+"), None);
    assert_eq!(parse_unsigned(b"-"), None);
    assert_eq!(parse_unsigned(b"-1"), None);
    assert_eq!(parse_unsigned(b"++1"), None);
    assert_eq!(parse_unsigned(b"1+"), None);
    assert_eq!(parse_unsigned(b" 1"), None);
    assert_eq!(parse_unsigned(b"1 "), None);
    assert_eq!(parse_unsigned(b"12a"), None);
    assert_eq!(parse_unsigned(b"a12"), None);
    assert_eq!(parse_unsigned(b"1_000"), None);
    assert_eq!(parse_unsigned(b"0x10"), None);
    assert_eq!(parse_unsigned("\u{661}".as_bytes()), None);
    assert_eq!(parse_unsigned(&[0x2f]), None);
    assert_eq!(parse_unsigned(&[0x3a]), None);
}

#[test]
fn reads_nothing_from_what_does_not_fit() {
    assert_eq!(parse_unsigned(b"4294967296"), None);
    assert_eq!(parse_unsigned(b"42949672950"), None);
    assert_eq!(parse_unsigned(b"99999999999999999999999999999999"), None);
    assert_eq!(parse_unsigned(b"+4294967296"), None);
}

#[test]
fn reading_agrees_with_the_standard_library() {
    let samples = [
        "", "0", "1", "+1", "-1", "+", "-", "10", "4294967295", "4294967296", "004", "1a", "a1",
        " 1", "1 ", "+-1", "++1", "18446744073709551616", "123456789",
    ];
    for sample in samples {
        assert_eq!(parse_unsigned(sample.as_bytes()), sample.parse::<u32>().ok(), "{sample:?}");
    }
}

#[test]
fn writes_digits() {
    assert_eq!(decimal(0), "0");
    assert_eq!(decimal(9), "9");
    assert_eq!(decimal(10), "10");
    assert_eq!(decimal(1234567890), "1234567890");
    assert_eq!(decimal(u128::MAX), "340282366920938463463374607431768211455");
}

#[test]
fn writes_after_what_is_there() {
    let mut out = String::from("n=");
    push_decimal(&mut out, 42);
    assert_eq!(out, "n=42");
    push_integer(&mut out, -7);
    assert_eq!(out, "n=42-7");
}

#[test]
fn writes_signed_numbers() {
    assert_eq!(integer(0), "0");
    assert_eq!(integer(1), "1");
    assert_eq!(integer(-1), "-1");
    assert_eq!(integer(-120), "-120");
    assert_eq!(integer(i128::MAX), "170141183460469231731687303715884105727");
    assert_eq!(integer(i128::MIN), "-170141183460469231731687303715884105728");
}

#[test]
fn writing_agrees_with_the_standard_library() {
    for n in [0i128, 5, -5, 99, 100, -1000, 86400, i64::MAX as i128, i64::MIN as i128] {
        assert_eq!(integer(n), n.to_string());
    }
}
