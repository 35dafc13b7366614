//! The decoder of a whole raw PGM file: the format tag, the width, the
//! height and the maximum grey value as decimal numbers, then one byte for
//! each pixel.
//!
//! The decoder is a chain of parsers. Each link reads one part of the file
//! and hands what it has read to the next, which is a parser of the rest.

use vstd::prelude::*;
use crate::combinator::{
    and_then, lemma_and_then_within, lemma_fn_parser, lemma_map_within, map_value, sequence,
    Parser,
};
use crate::error::{outcome, within, Outcome, ParseErr, ParseResult};
use crate::header::{match_header_version, spec_match_header_version};
use crate::image::{PgmView, PGM};
use crate::number::{get_num, spec_get_num};
use crate::pixels::{get_pixels, spec_get_pixels};

verus! {

/// What the decoder makes of the pixel block of an image whose width, height
/// and maximum grey value have been read: the image, if its pixels are
/// there. Of the maximum grey value the image keeps the low eight bits.
pub open spec fn spec_pixels_stage(input: Seq<u8>, width: i32, height: i32, grey: i32) -> Outcome<
    PgmView,
> {
    map_value(
        spec_get_pixels(input, width, height),
        |contents: Seq<u8>|
            PgmView {
                width: width as nat,
                height: height as nat,
                max_grey_val: grey as u8,
                contents,
            },
    )
}

/// What the decoder makes of the input after the height: the maximum grey
/// value, then the pixels.
pub open spec fn spec_grey_stage(input: Seq<u8>, width: i32, height: i32) -> Outcome<PgmView> {
    sequence(
        spec_get_num(input),
        |grey: i32, rest: Seq<u8>| spec_pixels_stage(rest, width, height, grey),
    )
}

/// What the decoder makes of the input after the width: the height, then
/// the rest.
pub open spec fn spec_height_stage(input: Seq<u8>, width: i32) -> Outcome<PgmView> {
    sequence(
        spec_get_num(input),
        |height: i32, rest: Seq<u8>| spec_grey_stage(rest, width, height),
    )
}

/// What the decoder makes of the input after the format tag: the width,
/// then the rest.
pub open spec fn spec_width_stage(input: Seq<u8>) -> Outcome<PgmView> {
    sequence(spec_get_num(input), |width: i32, rest: Seq<u8>| spec_height_stage(rest, width))
}

/// What the decoder makes of a whole file: the tag, the width, the height,
/// the maximum grey value and the pixels, in this order. The first part
/// that cannot be read ends the decoding with its error and the input at
/// which it stood.
pub open spec fn spec_parse_pgm(input: Seq<u8>) -> Outcome<PgmView> {
    sequence(spec_match_header_version(input), |_tag: (), rest: Seq<u8>| spec_width_stage(rest))
}

/// The parser of the pixel block, for an image whose width, height and
/// maximum grey value have been read.
pub struct PixelsStage {
    pub width: i32,
    pub height: i32,
    pub max_grey_val: i32,
}

impl<'a> Parser<'a, PGM> for PixelsStage {
    open spec fn accepts(&self, input: &'a [u8]) -> bool {
        true
    }

    open spec fn yields(&self, input: &'a [u8], r: ParseResult<'a, PGM>) -> bool {
        &&& outcome(r) == spec_pixels_stage(input@, self.width, self.height, self.max_grey_val)
        &&& within(r, input@)
    }

    fn parse(&self, input: &'a [u8]) -> (r: ParseResult<'a, PGM>) {
        let width = self.width;
        let height = self.height;
        let max_grey_val = self.max_grey_val;
        let pixels = move |i: &'a [u8]| -> (r: ParseResult<'a, Vec<u8>>)
            ensures
                outcome(r) == spec_get_pixels(i@, width, height),
            { get_pixels(i, width, height) };
        let image = move |contents: Vec<u8>| -> (pgm: PGM)
            requires
                width >= 0,
                height >= 0,
                contents@.len() == width * height,
            ensures
                pgm@ == (PgmView {
                    width: width as nat,
                    height: height as nat,
                    max_grey_val: max_grey_val as u8,
                    contents: contents@,
                }),
            {
                PGM::assemble(
                    width as usize,
                    height as usize,
                    #[verifier::truncate]
                    (max_grey_val as u8),
                    contents,
                )
            };
        proof {
            lemma_fn_parser(pixels);
        }
        let r = crate::combinator::map(pixels, image).parse(input);
        proof {
            lemma_map_within(pixels, image, input, r);
        }
        r
    }
}

/// The parser of the maximum grey value and what follows it.
pub struct GreyStage {
    pub width: i32,
    pub height: i32,
}

impl<'a> Parser<'a, PGM> for GreyStage {
    open spec fn accepts(&self, input: &'a [u8]) -> bool {
        true
    }

    open spec fn yields(&self, input: &'a [u8], r: ParseResult<'a, PGM>) -> bool {
        &&& outcome(r) == spec_grey_stage(input@, self.width, self.height)
        &&& within(r, input@)
    }

    fn parse(&self, input: &'a [u8]) -> (r: ParseResult<'a, PGM>) {
        let width = self.width;
        let height = self.height;
        let next = move |max_grey_val: i32| -> (stage: PixelsStage)
            ensures
                stage == (PixelsStage { width, height, max_grey_val }),
            { PixelsStage { width, height, max_grey_val } };
        proof {
            lemma_fn_parser(get_num);
        }
        let r = and_then(get_num, next).parse(input);
        proof {
            lemma_and_then_within(get_num, next, input, r);
        }
        r
    }
}

/// The parser of the height and what follows it.
pub struct HeightStage {
    pub width: i32,
}

impl<'a> Parser<'a, PGM> for HeightStage {
    open spec fn accepts(&self, input: &'a [u8]) -> bool {
        true
    }

    open spec fn yields(&self, input: &'a [u8], r: ParseResult<'a, PGM>) -> bool {
        &&& outcome(r) == spec_height_stage(input@, self.width)
        &&& within(r, input@)
    }

    fn parse(&self, input: &'a [u8]) -> (r: ParseResult<'a, PGM>) {
        let width = self.width;
        let next = move |height: i32| -> (stage: GreyStage)
            ensures
                stage == (GreyStage { width, height }),
            { GreyStage { width, height } };
        proof {
            lemma_fn_parser(get_num);
        }
        let r = and_then(get_num, next).parse(input);
        proof {
            lemma_and_then_within(get_num, next, input, r);
        }
        r
    }
}

/// The parser of the width and what follows it.
pub struct WidthStage;

impl<'a> Parser<'a, PGM> for WidthStage {
    open spec fn accepts(&self, input: &'a [u8]) -> bool {
        true
    }

    open spec fn yields(&self, input: &'a [u8], r: ParseResult<'a, PGM>) -> bool {
        &&& outcome(r) == spec_width_stage(input@)
        &&& within(r, input@)
    }

    fn parse(&self, input: &'a [u8]) -> (r: ParseResult<'a, PGM>) {
        let next = |width: i32| -> (stage: HeightStage)
            ensures
                stage == (HeightStage { width }),
            { HeightStage { width } };
        proof {
            lemma_fn_parser(get_num);
        }
        let r = and_then(get_num, next).parse(input);
        proof {
            lemma_and_then_within(get_num, next, input, r);
        }
        r
    }
}

/// Decodes a raw PGM file: the format tag and the byte after it, then the
/// width, the height and the maximum grey value, each a decimal number with
/// one separator byte after it, then one byte for each pixel.
///
/// Returns the image and what follows its pixels, or the first failure with
/// the input at which it happened. A width or height below zero fails for
/// want of bytes, at the pixel block.
pub fn parse_pgm<'a>(input: &'a [u8]) -> (r: ParseResult<'a, PGM>)
    ensures
        outcome(r) == spec_parse_pgm(input@),
        within(r, input@),
{
    let next = |_tag: ()| -> (stage: WidthStage) { WidthStage };
    proof {
        lemma_fn_parser(match_header_version);
    }
    let r = and_then(match_header_version, next).parse(input);
    proof {
        lemma_and_then_within(match_header_version, next, input, r);
    }
    r
}

/// An image that the decoder produces holds exactly one byte for each of
/// its pixels.
pub proof fn lemma_decoded_image_is_whole(input: Seq<u8>)
    requires
        spec_parse_pgm(input) is Ok,
    ensures
        spec_parse_pgm(input)->Ok_0.0.wf(),
{
    let after_tag = spec_match_header_version(input)->Ok_0.1;
    let (width, after_width) = spec_get_num(after_tag)->Ok_0;
    let (height, after_height) = spec_get_num(after_width)->Ok_0;
    let (grey, pixels) = spec_get_num(after_height)->Ok_0;
    assert(spec_get_pixels(pixels, width, height) is Ok);
}

/// A file whose tag and three numbers can be read, whose width and height
/// are not negative, whose maximum grey value fits in a byte, and which then
/// holds exactly one byte for each pixel decodes to the image with that
/// width, height and maximum grey value and with those bytes as its
/// contents. Nothing is left over.
pub proof fn lemma_exact_pixels_decode(
    input: Seq<u8>,
    after_tag: Seq<u8>,
    after_width: Seq<u8>,
    after_height: Seq<u8>,
    pixels: Seq<u8>,
    width: i32,
    height: i32,
    grey: i32,
)
    requires
        spec_match_header_version(input) == Ok::<_, (ParseErr, Seq<u8>)>(((), after_tag)),
        spec_get_num(after_tag) == Ok::<_, (ParseErr, Seq<u8>)>((width, after_width)),
        spec_get_num(after_width) == Ok::<_, (ParseErr, Seq<u8>)>((height, after_height)),
        spec_get_num(after_height) == Ok::<_, (ParseErr, Seq<u8>)>((grey, pixels)),
        0 <= width,
        0 <= height,
        0 <= grey <= 255,
        pixels.len() == width * height,
    ensures
        spec_parse_pgm(input) == Ok::<_, (ParseErr, Seq<u8>)>(
            (
                PgmView {
                    width: width as nat,
                    height: height as nat,
                    max_grey_val: grey as u8,
                    contents: pixels,
                },
                Seq::<u8>::empty(),
            ),
        ),
        grey as u8 == grey,
{
    assert(pixels.take(pixels.len() as int) =~= pixels);
    assert(pixels.skip(pixels.len() as int) =~= Seq::<u8>::empty());
}

/// A file whose tag and three numbers can be read, whose width and height
/// are not negative, and which then holds fewer bytes than it has pixels
/// does not decode: the failure is for want of bytes, at the pixel block.
pub proof fn lemma_short_pixels_fail(
    input: Seq<u8>,
    after_tag: Seq<u8>,
    after_width: Seq<u8>,
    after_height: Seq<u8>,
    pixels: Seq<u8>,
    width: i32,
    height: i32,
    grey: i32,
)
    requires
        spec_match_header_version(input) == Ok::<_, (ParseErr, Seq<u8>)>(((), after_tag)),
        spec_get_num(after_tag) == Ok::<_, (ParseErr, Seq<u8>)>((width, after_width)),
        spec_get_num(after_width) == Ok::<_, (ParseErr, Seq<u8>)>((height, after_height)),
        spec_get_num(after_height) == Ok::<_, (ParseErr, Seq<u8>)>((grey, pixels)),
        0 <= width,
        0 <= height,
        pixels.len() < width * height,
    ensures
        spec_parse_pgm(input) == Err::<(PgmView, Seq<u8>), _>(
            (ParseErr::InsufficientBytes, pixels),
        ),
{
}

} // verus!
