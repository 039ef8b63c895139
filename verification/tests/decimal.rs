use frame_extract::decimal::{decimal_string, parse_number, push_decimal, push_signed};

#[test]
fn decimal_of_small_and_large_numbers() {
    assert_eq!(decimal_string(0), "0");
    assert_eq!(decimal_string(7), "7");
    assert_eq!(decimal_string(10), "10");
    assert_eq!(decimal_string(1001), "1001");
    assert_eq!(decimal_string(24000), "24000");
    assert_eq!(decimal_string(usize::MAX), format!("{}", usize::MAX));
}

#[test]
fn push_decimal_appends() {
    let mut s = String::from("W");
    push_decimal(&mut s, 1920);
    assert_eq!(s, "W1920");
}

#[test]
fn push_signed_writes_a_minus_sign() {
    let mut s = String::new();
    push_signed(&mut s, -1);
    assert_eq!(s, "-1");
    let mut s = String::new();
    push_signed(&mut s, i32::MIN);
    assert_eq!(s, "-2147483648");
    let mut s = String::new();
    push_signed(&mut s, i32::MAX);
    assert_eq!(s, "2147483647");
    let mut s = String::new();
    push_signed(&mut s, 0);
    assert_eq!(s, "0");
}

#[test]
fn parse_number_reads_digits() {
    assert_eq!(parse_number(b"0"), Some(0));
    assert_eq!(parse_number(b"50"), Some(50));
    assert_eq!(parse_number(b"007"), Some(7));
    assert_eq!(parse_number(b"+12"), Some(12));
    assert_eq!(parse_number(format!("{}", usize::MAX).as_bytes()), Some(usize::MAX));
}

#[test]
fn parse_number_refuses_what_is_no_number() {
    assert_eq!(parse_number(b""), None);
    assert_eq!(parse_number(b"+"), None);
    assert_eq!(parse_number(b"-1"), None);
    assert_eq!(parse_number(b"1a"), None);
    assert_eq!(parse_number(b"++1"), None);
    assert_eq!(parse_number(b"1 "), None);
    assert_eq!(parse_number(b"1.5"), None);
}

#[test]
fn parse_number_refuses_what_does_not_fit() {
    let too_large = format!("{}0", usize::MAX);
    assert_eq!(parse_number(too_large.as_bytes()), None);
    let one_more = format!("{}", usize::MAX as u128 + 1);
    assert_eq!(parse_number(one_more.as_bytes()), None);
}

#[test]
fn parsing_what_was_written_gives_the_number_back() {
    for n in [0usize, 1, 9, 10, 99, 100, 12345, usize::MAX - 1, usize::MAX] {
        assert_eq!(parse_number(decimal_string(n).as_bytes()), Some(n));
    }
}
