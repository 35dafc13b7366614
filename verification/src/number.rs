//! The reader of whitespace-delimited decimal integers.

use vstd::prelude::*;
use vstd::slice::slice_subrange;
use vstd::utf8::{decode_utf8, valid_utf8};
use crate::error::{outcome, within, Outcome, ParseErr, ParseResult};
use crate::outside::{
    decimal_i32, fields_first, first_field, int_error, parse_i32, to_str, utf8_error,
};

verus! {

/// How many bytes a number takes from the input: its field, and the one
/// separator after it unless the field runs to the end of the input.
pub open spec fn spec_consumed_len(field_len: nat, input_len: nat) -> nat {
    if field_len == input_len {
        field_len
    } else {
        field_len + 1
    }
}

/// The text of a field: its characters, or the decoder's error.
pub open spec fn field_text(field: Seq<u8>) -> Result<Seq<char>, bstr::Utf8Error> {
    if valid_utf8(field) {
        Ok(decode_utf8(field))
    } else {
        Err(utf8_error(field))
    }
}

/// The number a text writes, or the number parser's error.
pub open spec fn text_number(text: Seq<char>) -> Result<i32, std::num::ParseIntError> {
    match decimal_i32(text) {
        Some(number) => Ok(number),
        None => Err(int_error(text)),
    }
}

/// The result of reading a number whose field was `field_len` bytes long and
/// was parsed to `number`.
pub open spec fn spec_num_of_parsed(
    input: Seq<u8>,
    field_len: nat,
    number: Result<i32, std::num::ParseIntError>,
) -> Outcome<i32> {
    match number {
        Ok(value) => Ok((value, input.skip(spec_consumed_len(field_len, input.len()) as int))),
        Err(e) => Err((ParseErr::InvalidNumber(e), input)),
    }
}

/// The result of reading a number whose field was `field_len` bytes long and
/// was decoded to `text`.
pub open spec fn spec_num_of_text(
    input: Seq<u8>,
    field_len: nat,
    text: Result<Seq<char>, bstr::Utf8Error>,
) -> Outcome<i32> {
    match text {
        Ok(chars) => spec_num_of_parsed(input, field_len, text_number(chars)),
        Err(e) => Err((ParseErr::TextDecodeError(e), input)),
    }
}

/// The result of reading a number from `input` whose first field is `field`.
pub open spec fn spec_num_of_field(input: Seq<u8>, field: Option<Seq<u8>>) -> Outcome<i32> {
    match field {
        Some(bytes) => spec_num_of_text(input, bytes.len(), field_text(bytes)),
        None => Err((ParseErr::NoFieldLeft, input)),
    }
}

/// What the integer reader makes of `input`.
pub open spec fn spec_get_num(input: Seq<u8>) -> Outcome<i32> {
    spec_num_of_field(input, first_field(input))
}

/// The number of bytes to drop from an input of `input_len` bytes after a
/// field of `field_len` bytes.
pub fn consumed_len(field_len: usize, input_len: usize) -> (n: usize)
    requires
        field_len <= input_len,
    ensures
        n == spec_consumed_len(field_len as nat, input_len as nat),
        n <= input_len,
{
    if field_len == input_len {
        field_len
    } else {
        field_len + 1
    }
}

/// Finishes reading a number once its field has been parsed: the number and
/// the input after the field, or the parser's error and the whole input.
pub fn num_of_parsed<'a>(
    input: &'a [u8],
    field_len: usize,
    number: Result<i32, std::num::ParseIntError>,
) -> (r: ParseResult<'a, i32>)
    requires
        field_len <= input@.len(),
    ensures
        outcome(r) == spec_num_of_parsed(input@, field_len as nat, number),
        within(r, input@),
{
    match number {
        Ok(value) => {
            let start = consumed_len(field_len, input.len());
            let rest = slice_subrange(input, start, input.len());
            Ok((value, rest))
        },
        Err(e) => Err((ParseErr::InvalidNumber(e), input)),
    }
}

/// Finishes reading a number once its field has been decoded: parses the
/// text, or hands on the decoder's error with the whole input.
pub fn num_of_text<'a>(
    input: &'a [u8],
    field_len: usize,
    text: Result<&str, bstr::Utf8Error>,
) -> (r: ParseResult<'a, i32>)
    requires
        field_len <= input@.len(),
    ensures
        outcome(r) == spec_num_of_text(
            input@,
            field_len as nat,
            match text {
                Ok(s) => Ok(s@),
                Err(e) => Err(e),
            },
        ),
        within(r, input@),
{
    match text {
        Ok(s) => num_of_parsed(input, field_len, parse_i32(s)),
        Err(e) => Err((ParseErr::TextDecodeError(e), input)),
    }
}

/// Reads a number from `input` given its first field, if it has one.
pub fn num_of_field<'a>(input: &'a [u8], field: Option<&[u8]>) -> (r: ParseResult<'a, i32>)
    requires
        field matches Some(bytes) ==> bytes@.len() <= input@.len(),
    ensures
        outcome(r) == spec_num_of_field(
            input@,
            match field {
                Some(bytes) => Some(bytes@),
                None => None,
            },
        ),
        within(r, input@),
{
    match field {
        Some(bytes) => num_of_text(input, bytes.len(), to_str(bytes)),
        None => Err((ParseErr::NoFieldLeft, input)),
    }
}

/// Reads one whitespace-delimited decimal integer from the front of `input`.
pub fn get_num<'a>(input: &'a [u8]) -> (r: ParseResult<'a, i32>)
    ensures
        outcome(r) == spec_get_num(input@),
        within(r, input@),
        r matches Ok((_, rest)) ==> rest@.len() < input@.len(),
{
    num_of_field(input, fields_first(input))
}

/// A failure of the integer reader hands back its input, so reading again
/// at the point of failure fails in the same way.
pub proof fn lemma_get_num_failure_repeats(input: Seq<u8>)
    requires
        spec_get_num(input) is Err,
    ensures
        spec_get_num(input)->Err_0.1 == input,
        spec_get_num(spec_get_num(input)->Err_0.1) == spec_get_num(input),
{
}

} // verus!
