//! The format tag that opens every raw PGM file.

use vstd::prelude::*;
use vstd::slice::slice_subrange;
use crate::error::{outcome, within, Outcome, ParseErr, ParseResult};
use crate::outside::starts_with_str;

verus! {

/// The tag of the raw greyscale format, the ASCII text `P5`.
pub open spec fn version_tag() -> Seq<u8> {
    seq![0x50u8, 0x35u8]
}

/// What the header matcher makes of `input`.
///
/// An input that begins with the tag and has at least one more byte loses
/// the tag and that byte, whatever the byte is. Every other input is a
/// mismatch and is handed back whole.
pub open spec fn spec_match_header_version(input: Seq<u8>) -> Outcome<()> {
    if version_tag().is_prefix_of(input) && input.len() > version_tag().len() {
        Ok(((), input.skip(version_tag().len() as int + 1)))
    } else {
        Err((ParseErr::HeaderMismatch, input))
    }
}

/// Matches the format tag and the one byte that follows it.
pub fn match_header_version<'a>(input: &'a [u8]) -> (r: ParseResult<'a, ()>)
    ensures
        outcome(r) == spec_match_header_version(input@),
        within(r, input@),
{
    let tag: [u8; 2] = [0x50, 0x35];
    if input.len() > 2 && starts_with_str(input, tag.as_slice()) {
        let rest = slice_subrange(input, 3, input.len());
        Ok(((), rest))
    } else {
        Err((ParseErr::HeaderMismatch, input))
    }
}

/// An input made of the tag, one more byte and `rest` is matched, and what
/// is left is exactly `rest`. In a well-formed file the byte is a newline;
/// the matcher takes any byte.
pub proof fn lemma_header_match(separator: u8, rest: Seq<u8>)
    ensures
        spec_match_header_version(version_tag().push(separator) + rest) == Ok::<
            ((), Seq<u8>),
            (ParseErr, Seq<u8>),
        >(((), rest)),
{
    let input = version_tag().push(separator) + rest;
    assert(input.skip(3) =~= rest);
}

/// An input that does not begin with the tag is a mismatch, and is handed
/// back unchanged.
pub proof fn lemma_header_mismatch(input: Seq<u8>)
    requires
        !version_tag().is_prefix_of(input),
    ensures
        spec_match_header_version(input) == Err::<((), Seq<u8>), (ParseErr, Seq<u8>)>(
            (ParseErr::HeaderMismatch, input),
        ),
{
}

/// A failure of the header matcher hands back its input, so matching again
/// at the point of failure fails in the same way.
pub proof fn lemma_header_failure_repeats(input: Seq<u8>)
    requires
        spec_match_header_version(input) is Err,
    ensures
        spec_match_header_version(input)->Err_0.1 == input,
        spec_match_header_version(spec_match_header_version(input)->Err_0.1)
            == spec_match_header_version(input),
{
}

} // verus!
