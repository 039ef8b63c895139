//! Range requests as they arrive on the control input: one line for each,
//! holding a start and an end frame number.

use vstd::prelude::*;
use vstd::slice::slice_subrange;
use vstd::string::*;
use crate::decimal::{
    ascii,
    decimal_text,
    lemma_decimal_round_trip,
    parse_number,
    parsed_number,
};

verus! {

/// A request for the frames from `start` up to but without `end`.
#[derive(Clone, Copy, Debug, PartialEq, Eq, Structural)]
pub struct RangeRequest {
    pub start: usize,
    pub end: usize,
}

/// Why a line gave no request.
#[derive(Clone, Copy, Debug, PartialEq, Eq, Structural)]
pub enum RequestError {
    /// The line holds nothing at all, not even a line break: the input is at
    /// its end.
    EndOfInput,
    /// The line holds less than two fields.
    MissingField,
    /// A field is not a number, or not one that fits.
    InvalidNumber,
}

/// Whether `b` separates fields: a space, a tab, a line break, or another of
/// the ASCII control characters that move the cursor.
pub open spec fn is_space(b: u8) -> bool {
    b == 32 || 9 <= b <= 13
}

/// The first position at or after `from` that holds no separator, or the end
/// of the line.
pub open spec fn skip_spaces(s: Seq<u8>, from: int) -> int
    decreases s.len() - from,
{
    if 0 <= from < s.len() && is_space(s[from]) {
        skip_spaces(s, from + 1)
    } else {
        from
    }
}

/// The first position at or after `from` that holds a separator, or the end of
/// the line.
pub open spec fn skip_field(s: Seq<u8>, from: int) -> int
    decreases s.len() - from,
{
    if 0 <= from < s.len() && !is_space(s[from]) {
        skip_field(s, from + 1)
    } else {
        from
    }
}

/// Where the field that follows position `from` ends.
pub open spec fn field_end(s: Seq<u8>, from: int) -> int {
    skip_field(s, skip_spaces(s, from))
}

/// The field that follows position `from`: the longest run of bytes that are
/// no separators, after any separators. It is empty where the line ends first.
pub open spec fn field_after(s: Seq<u8>, from: int) -> Seq<u8> {
    s.subrange(skip_spaces(s, from), field_end(s, from))
}

/// What a line asks for. Its first two fields are the start and the end; what
/// follows them is not read. The start is looked at first.
pub open spec fn requested(s: Seq<u8>) -> Result<RangeRequest, RequestError> {
    let first = field_after(s, 0);
    let second = field_after(s, field_end(s, 0));
    if s.len() == 0 {
        Err(RequestError::EndOfInput)
    } else if first.len() == 0 {
        Err(RequestError::MissingField)
    } else if parsed_number(first) is None {
        Err(RequestError::InvalidNumber)
    } else if second.len() == 0 {
        Err(RequestError::MissingField)
    } else if parsed_number(second) is None {
        Err(RequestError::InvalidNumber)
    } else {
        Ok(RangeRequest { start: parsed_number(first)->0, end: parsed_number(second)->0 })
    }
}

/// Between `from` and `skip_spaces` lie separators only, and a byte that
/// stops the skipping is none.
pub proof fn lemma_skip_spaces(s: Seq<u8>, from: int)
    requires
        0 <= from <= s.len(),
    ensures
        from <= skip_spaces(s, from) <= s.len(),
        forall|k: int| from <= k < skip_spaces(s, from) ==> is_space(#[trigger] s[k]),
        skip_spaces(s, from) < s.len() ==> !is_space(s[skip_spaces(s, from)]),
    decreases s.len() - from,
{
    if from < s.len() && is_space(s[from]) {
        lemma_skip_spaces(s, from + 1);
    }
}

/// Between `from` and `skip_field` lies no separator, and a byte that stops
/// the skipping is one.
pub proof fn lemma_skip_field(s: Seq<u8>, from: int)
    requires
        0 <= from <= s.len(),
    ensures
        from <= skip_field(s, from) <= s.len(),
        forall|k: int| from <= k < skip_field(s, from) ==> !is_space(#[trigger] s[k]),
        skip_field(s, from) < s.len() ==> is_space(s[skip_field(s, from)]),
    decreases s.len() - from,
{
    if from < s.len() && !is_space(s[from]) {
        lemma_skip_field(s, from + 1);
    }
}

/// Skipping separators from `from` stops at `to` when separators lie between
/// the two and none lies at `to`.
pub proof fn lemma_skip_spaces_to(s: Seq<u8>, from: int, to: int)
    requires
        0 <= from <= to <= s.len(),
        forall|k: int| from <= k < to ==> is_space(#[trigger] s[k]),
        to < s.len() ==> !is_space(s[to]),
    ensures
        skip_spaces(s, from) == to,
    decreases to - from,
{
    if from < to {
        lemma_skip_spaces_to(s, from + 1, to);
    }
}

/// Skipping a field from `from` stops at `to` when no separator lies between
/// the two and one lies at `to`.
pub proof fn lemma_skip_field_to(s: Seq<u8>, from: int, to: int)
    requires
        0 <= from <= to <= s.len(),
        forall|k: int| from <= k < to ==> !is_space(#[trigger] s[k]),
        to < s.len() ==> is_space(s[to]),
    ensures
        skip_field(s, from) == to,
    decreases to - from,
{
    if from < to {
        lemma_skip_field_to(s, from + 1, to);
    }
}

/// The line that asks for the frames from `start` up to `end`: the two
/// numbers in decimal, a space between them and a line feed behind them.
pub open spec fn request_line(start: nat, end: nat) -> Seq<u8> {
    ascii(decimal_text(start)) + seq![32u8] + ascii(decimal_text(end)) + seq![10u8]
}

/// A request that is written as a line is read back as it was.
pub proof fn lemma_request_round_trip(start: usize, end: usize)
    ensures
        requested(request_line(start as nat, end as nat)) == Ok::<RangeRequest, RequestError>(
            RangeRequest { start, end },
        ),
{
    let first = ascii(decimal_text(start as nat));
    let second = ascii(decimal_text(end as nat));
    let line = request_line(start as nat, end as nat);
    lemma_decimal_round_trip(start as nat);
    lemma_decimal_round_trip(end as nat);
    let a = first.len() as int;
    let b = a + 1 + second.len();
    assert(line.len() == b + 1);
    assert forall|k: int| 0 <= k < a implies !is_space(#[trigger] line[k]) by {
        assert(line[k] == first[k]);
    }
    assert forall|k: int| a + 1 <= k < b implies !is_space(#[trigger] line[k]) by {
        assert(line[k] == second[k - a - 1]);
    }
    assert(line[a] == 32u8);
    assert(line[b] == 10u8);
    lemma_skip_spaces_to(line, 0, 0);
    lemma_skip_field_to(line, 0, a);
    lemma_skip_spaces_to(line, a, a + 1);
    lemma_skip_field_to(line, a + 1, b);
    assert(field_after(line, 0) =~= first);
    assert(field_after(line, a) =~= second);
}

fn separates(b: u8) -> (r: bool)
    ensures
        r == is_space(b),
{
    b == 32 || (9 <= b && b <= 13)
}

fn scan_spaces(line: &[u8], from: usize) -> (to: usize)
    requires
        from <= line@.len(),
    ensures
        to == skip_spaces(line@, from as int),
        from <= to <= line@.len(),
{
    let mut to: usize = from;
    while to < line.len() && separates(line[to])
        invariant
            from <= to <= line@.len(),
            skip_spaces(line@, from as int) == skip_spaces(line@, to as int),
        decreases line@.len() - to,
    {
        to = to + 1;
    }
    to
}

fn scan_field(line: &[u8], from: usize) -> (to: usize)
    requires
        from <= line@.len(),
    ensures
        to == skip_field(line@, from as int),
        from <= to <= line@.len(),
{
    let mut to: usize = from;
    while to < line.len() && !separates(line[to])
        invariant
            from <= to <= line@.len(),
            skip_field(line@, from as int) == skip_field(line@, to as int),
        decreases line@.len() - to,
    {
        to = to + 1;
    }
    to
}

/// Reads a request from the bytes of one line.
pub fn parse_request_bytes(line: &[u8]) -> (r: Result<RangeRequest, RequestError>)
    ensures
        r == requested(line@),
{
    if line.len() == 0 {
        return Err(RequestError::EndOfInput);
    }
    let first_start = scan_spaces(line, 0);
    let first_end = scan_field(line, first_start);
    if first_start == first_end {
        return Err(RequestError::MissingField);
    }
    let start = match parse_number(slice_subrange(line, first_start, first_end)) {
        Some(n) => n,
        None => {
            return Err(RequestError::InvalidNumber);
        },
    };
    let second_start = scan_spaces(line, first_end);
    let second_end = scan_field(line, second_start);
    if second_start == second_end {
        return Err(RequestError::MissingField);
    }
    match parse_number(slice_subrange(line, second_start, second_end)) {
        Some(end) => Ok(RangeRequest { start, end }),
        None => Err(RequestError::InvalidNumber),
    }
}

/// Reads a request from one line of text, as it was read from the input, with
/// or without its line break.
pub fn parse_request(line: &str) -> (r: Result<RangeRequest, RequestError>)
    ensures
        r == requested(line.spec_bytes()),
{
    parse_request_bytes(line.as_bytes())
}

} // verus!
