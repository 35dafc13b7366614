//! A decoder for raw greyscale PGM images (the format tagged `P5`), built
//! from a small set of parser combinators over byte slices.
//!
//! A parser takes the unconsumed input and returns either a value and the
//! rest of the input, or an error and the input at which it failed. The
//! slice that comes back is always an end of the slice that went in.
//!
//! * [`error`]: the errors, the shape of a parser's result and its view.
//! * [`combinator`]: parsers as values, `map` and `and_then`.
//! * [`header`], [`number`], [`pixels`]: the three primitive parsers.
//! * [`image`]: the decoded image.
//! * [`decoder`]: the decoder of a whole file, chained from the primitives.
//! * [`outside`]: the calls into `bstr` and `std` whose contracts are taken
//!   on trust.

pub mod error;
pub mod outside;
pub mod combinator;
pub mod header;
pub mod number;
pub mod pixels;
pub mod image;
pub mod decoder;
