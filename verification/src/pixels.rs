//! The reader of the pixel block: a run of raw bytes of known length.

use vstd::prelude::*;
use vstd::slice::slice_subrange;
use crate::error::{outcome, within, Outcome, ParseErr, ParseResult};

verus! {

/// What the block reader makes of `input` when asked for `amount` bytes.
pub open spec fn spec_get_bytes(input: Seq<u8>, amount: nat) -> Outcome<Seq<u8>> {
    if amount <= input.len() {
        Ok((input.take(amount as int), input.skip(amount as int)))
    } else {
        Err((ParseErr::InsufficientBytes, input))
    }
}

/// The number of pixels of an image of the given width and height. An image
/// with a negative dimension has none.
pub open spec fn pixel_count(width: i32, height: i32) -> Option<nat> {
    if width >= 0 && height >= 0 {
        Some((width * height) as nat)
    } else {
        None
    }
}

/// What the pixel reader makes of `input` for an image of the given width
/// and height: the block reader's result for one byte per pixel, and a
/// failure for dimensions that have no pixel count.
pub open spec fn spec_get_pixels(input: Seq<u8>, width: i32, height: i32) -> Outcome<Seq<u8>> {
    match pixel_count(width, height) {
        Some(amount) => spec_get_bytes(input, amount),
        None => Err((ParseErr::InsufficientBytes, input)),
    }
}

/// Copies exactly `amount` bytes off the front of `input`.
pub fn get_bytes<'a>(input: &'a [u8], amount: usize) -> (r: ParseResult<'a, Vec<u8>>)
    ensures
        outcome(r) == spec_get_bytes(input@, amount as nat),
        within(r, input@),
{
    if amount > input.len() {
        return Err((ParseErr::InsufficientBytes, input));
    }
    let mut block: Vec<u8> = Vec::new();
    let mut i: usize = 0;
    while i < amount
        invariant
            i <= amount <= input@.len(),
            block@ == input@.take(i as int),
        decreases amount - i,
    {
        block.push(input[i]);
        i += 1;
    }
    let rest = slice_subrange(input, amount, input.len());
    Ok((block, rest))
}

/// Copies the pixel block of an image of the given width and height off the
/// front of `input`, one byte per pixel.
pub fn get_pixels<'a>(input: &'a [u8], width: i32, height: i32) -> (r: ParseResult<'a, Vec<u8>>)
    ensures
        outcome(r) == spec_get_pixels(input@, width, height),
        within(r, input@),
{
    if width < 0 || height < 0 {
        return Err((ParseErr::InsufficientBytes, input));
    }
    assert(0 <= width * height <= 0x7fff_ffff * 0x7fff_ffff) by (nonlinear_arith)
        requires
            0 <= width <= 0x7fff_ffff,
            0 <= height <= 0x7fff_ffff,
    ;
    let amount: u64 = (width as u64) * (height as u64);
    if amount > input.len() as u64 {
        return Err((ParseErr::InsufficientBytes, input));
    }
    get_bytes(input, amount as usize)
}

/// A failure of the block reader hands back its input, so reading the same
/// amount again at the point of failure fails in the same way.
pub proof fn lemma_get_bytes_failure_repeats(input: Seq<u8>, amount: nat)
    requires
        spec_get_bytes(input, amount) is Err,
    ensures
        spec_get_bytes(input, amount)->Err_0.1 == input,
        spec_get_bytes(spec_get_bytes(input, amount)->Err_0.1, amount) == spec_get_bytes(
            input,
            amount,
        ),
{
}

/// The block that the block reader copies and the rest that it leaves make
/// up the input, and the block has the length asked for.
pub proof fn lemma_get_bytes_splits_input(input: Seq<u8>, amount: nat)
    requires
        spec_get_bytes(input, amount) is Ok,
    ensures
        spec_get_bytes(input, amount)->Ok_0.0.len() == amount,
        spec_get_bytes(input, amount)->Ok_0.0 + spec_get_bytes(input, amount)->Ok_0.1 == input,
{
}

} // verus!
