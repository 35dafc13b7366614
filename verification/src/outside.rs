//! The calls this library makes into `bstr` and into `std`'s number parsing.
//!
//! Nothing in this file is proved. Each contract restates what the called
//! function's documentation and source promise; the rest of the library is
//! verified against these contracts.

use vstd::prelude::*;
use vstd::utf8::{decode_utf8, valid_utf8};
use bstr::ByteSlice;

verus! {

/// `bstr::Utf8Error`, the error of `bstr`'s UTF-8 validation. The library
/// carries it and never looks inside.
#[verifier::external_type_specification]
#[verifier::external_body]
pub struct ExUtf8Error(bstr::Utf8Error);

/// `std::num::ParseIntError`, the error of `std`'s integer parsing. The
/// library carries it and never looks inside.
#[verifier::external_type_specification]
#[verifier::external_body]
pub struct ExParseIntError(std::num::ParseIntError);

/// The first field that `bstr` finds in `input`: the first maximal run of
/// code points that are not Unicode white space, where bytes that are not
/// UTF-8 count as the replacement character. `None` when there is no such
/// run.
pub uninterp spec fn first_field(input: Seq<u8>) -> Option<Seq<u8>>;

/// The error `bstr` reports for bytes that are not valid UTF-8.
pub uninterp spec fn utf8_error(bytes: Seq<u8>) -> bstr::Utf8Error;

/// The error `std` reports for text that is not a decimal `i32`.
pub uninterp spec fn int_error(text: Seq<char>) -> std::num::ParseIntError;

/// Whether `c` is one of the ASCII digits `0` to `9`.
pub open spec fn is_digit(c: char) -> bool {
    '0' as int <= c as int <= '9' as int
}

/// Whether every character of `digits` is an ASCII digit.
pub open spec fn all_digits(digits: Seq<char>) -> bool {
    forall|i: int| 0 <= i < digits.len() ==> is_digit(#[trigger] digits[i])
}

/// The number that a run of ASCII digits writes in base ten.
pub open spec fn digits_value(digits: Seq<char>) -> int
    decreases digits.len(),
{
    if digits.len() == 0 {
        0
    } else {
        10 * digits_value(digits.drop_last()) + (digits.last() as int - '0' as int)
    }
}

/// The integer that `text` writes in decimal notation: an optional `+` or
/// `-`, then one or more ASCII digits and nothing else.
pub open spec fn decimal_value(text: Seq<char>) -> Option<int> {
    let signed = text.len() > 0 && (text[0] == '-' || text[0] == '+');
    let digits = if signed { text.skip(1) } else { text };
    if digits.len() > 0 && all_digits(digits) {
        Some(if text[0] == '-' { -digits_value(digits) } else { digits_value(digits) })
    } else {
        None
    }
}

/// The `i32` that `text` writes in decimal notation, if it writes one.
pub open spec fn decimal_i32(text: Seq<char>) -> Option<i32> {
    match decimal_value(text) {
        Some(value) => if i32::MIN <= value <= i32::MAX { Some(value as i32) } else { None },
        None => None,
    }
}

/// `bstr::ByteSlice::starts_with_str`: true exactly when `prefix` is a prefix
/// of `input`.
#[verifier::external_body]
pub(crate) fn starts_with_str(input: &[u8], prefix: &[u8]) -> (found: bool)
    ensures
        found == prefix@.is_prefix_of(input@),
{
    input.starts_with_str(prefix)
}

/// The first item of `bstr::ByteSlice::fields`. The field it yields is a
/// non-empty piece of `input`; which piece is left to `first_field`.
#[verifier::external_body]
pub(crate) fn fields_first<'a>(input: &'a [u8]) -> (field: Option<&'a [u8]>)
    ensures
        match field {
            Some(bytes) => first_field(input@) == Some(bytes@) && 0 < bytes@.len() <= input@.len(),
            None => first_field(input@) is None,
        },
{
    input.fields().next()
}

/// `bstr::ByteSlice::to_str`: the bytes as text when they are valid UTF-8,
/// and `bstr`'s error when they are not.
#[verifier::external_body]
pub(crate) fn to_str<'a>(bytes: &'a [u8]) -> (text: Result<&'a str, bstr::Utf8Error>)
    ensures
        match text {
            Ok(s) => valid_utf8(bytes@) && s@ == decode_utf8(bytes@),
            Err(e) => !valid_utf8(bytes@) && e == utf8_error(bytes@),
        },
{
    bytes.to_str()
}

/// `str::parse::<i32>`: the number when `text` is a decimal integer that
/// fits in an `i32`, and `std`'s error when it is not.
#[verifier::external_body]
pub(crate) fn parse_i32(text: &str) -> (number: Result<i32, std::num::ParseIntError>)
    ensures
        match number {
            Ok(n) => decimal_i32(text@) == Some(n),
            Err(e) => decimal_i32(text@) is None && e == int_error(text@),
        },
{
    text.parse::<i32>()
}

} // verus!
