use frame_extract::request::{parse_request, parse_request_bytes, RangeRequest, RequestError};

#[test]
fn request_of_two_numbers() {
    assert_eq!(parse_request("0 100"), Ok(RangeRequest { start: 0, end: 100 }));
    assert_eq!(parse_request("50 200\n"), Ok(RangeRequest { start: 50, end: 200 }));
    assert_eq!(parse_request_bytes(b"7 8"), Ok(RangeRequest { start: 7, end: 8 }));
}

#[test]
fn request_with_any_whitespace_between_and_around() {
    assert_eq!(parse_request("  3   9  \r\n"), Ok(RangeRequest { start: 3, end: 9 }));
    assert_eq!(parse_request("\t3\t9"), Ok(RangeRequest { start: 3, end: 9 }));
    assert_eq!(parse_request("3\x0b9\x0c"), Ok(RangeRequest { start: 3, end: 9 }));
}

#[test]
fn request_ignores_what_follows_the_end() {
    assert_eq!(parse_request("1 2 3"), Ok(RangeRequest { start: 1, end: 2 }));
    assert_eq!(parse_request("1 2 x"), Ok(RangeRequest { start: 1, end: 2 }));
}

#[test]
fn request_keeps_a_start_above_its_end() {
    assert_eq!(parse_request("9 3"), Ok(RangeRequest { start: 9, end: 3 }));
}

#[test]
fn empty_line_is_the_end_of_input() {
    assert_eq!(parse_request(""), Err(RequestError::EndOfInput));
    assert_eq!(parse_request_bytes(b""), Err(RequestError::EndOfInput));
}

#[test]
fn line_with_less_than_two_fields_is_refused() {
    assert_eq!(parse_request("\n"), Err(RequestError::MissingField));
    assert_eq!(parse_request("   "), Err(RequestError::MissingField));
    assert_eq!(parse_request("5"), Err(RequestError::MissingField));
    assert_eq!(parse_request("5 \n"), Err(RequestError::MissingField));
}

#[test]
fn line_with_a_field_that_is_no_number_is_refused() {
    assert_eq!(parse_request("a 5"), Err(RequestError::InvalidNumber));
    assert_eq!(parse_request("5 b"), Err(RequestError::InvalidNumber));
    assert_eq!(parse_request("-1 5"), Err(RequestError::InvalidNumber));
    assert_eq!(parse_request("1,5"), Err(RequestError::InvalidNumber));
    assert_eq!(parse_request("1\u{a0}5 6"), Err(RequestError::InvalidNumber));
    let too_large = format!("0 {}0", usize::MAX);
    assert_eq!(parse_request(&too_large), Err(RequestError::InvalidNumber));
}

#[test]
fn start_is_looked_at_before_the_end() {
    assert_eq!(parse_request("x"), Err(RequestError::InvalidNumber));
    assert_eq!(parse_request("x y"), Err(RequestError::InvalidNumber));
}
