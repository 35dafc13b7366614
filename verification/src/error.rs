//! The errors a parser can report, and the shape of a parser's result.

use vstd::prelude::*;

verus! {

/// Why a parser gave up.
#[derive(Debug, PartialEq, Eq)]
pub enum ParseErr {
    /// The input does not begin with the format tag.
    HeaderMismatch,
    /// A whitespace-delimited field was expected and none is left.
    NoFieldLeft,
    /// A field is not valid UTF-8.
    TextDecodeError(bstr::Utf8Error),
    /// A field is text, but not a decimal integer that fits in 32 bits.
    InvalidNumber(std::num::ParseIntError),
    /// Fewer bytes are left than the pixel block needs.
    InsufficientBytes,
}

/// What a parser returns: the value and the rest of the input, or the error
/// and the input at which parsing failed.
pub type ParseResult<'a, T> = Result<(T, &'a [u8]), (ParseErr, &'a [u8])>;

/// A parser's result as contracts speak of it: over the view of the value
/// and with byte sequences in place of slices.
pub type Outcome<V> = Result<(V, Seq<u8>), (ParseErr, Seq<u8>)>;

/// The view of a parser's result.
pub open spec fn outcome<T: View>(r: ParseResult<'_, T>) -> Outcome<T::V> {
    match r {
        Ok((value, rest)) => Ok((value@, rest@)),
        Err((err, at)) => Err((err, at@)),
    }
}

/// Whether the slice that comes with a result is an end of `input`: the rest
/// after a success, or the point of a failure. A parser that keeps within
/// its input only ever moves forward in it, and the length of the slice
/// tells how far it came.
pub open spec fn within<T>(r: ParseResult<'_, T>, input: Seq<u8>) -> bool {
    match r {
        Ok((_, rest)) => rest@.is_suffix_of(input),
        Err((_, at)) => at@.is_suffix_of(input),
    }
}

/// An end of an end of a sequence is an end of that sequence.
pub proof fn lemma_suffix_of_suffix(inner: Seq<u8>, middle: Seq<u8>, outer: Seq<u8>)
    requires
        inner.is_suffix_of(middle),
        middle.is_suffix_of(outer),
    ensures
        inner.is_suffix_of(outer),
{
}

} // verus!
