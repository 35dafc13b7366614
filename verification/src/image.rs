//! The decoded image.

use vstd::prelude::*;
use vstd::std_specs::convert::FromSpecImpl;

verus! {

/// The pixel bytes of an image: one byte per pixel, rows from top to bottom,
/// each row from left to right.
#[derive(Debug, PartialEq, Eq)]
pub struct Contents(pub Vec<u8>);

impl View for Contents {
    type V = Seq<u8>;

    open spec fn view(&self) -> Seq<u8> {
        self.0@
    }
}

impl From<Vec<u8>> for Contents {
    fn from(bytes: Vec<u8>) -> (contents: Contents) {
        Contents(bytes)
    }
}

impl FromSpecImpl<Vec<u8>> for Contents {
    open spec fn obeys_from_spec() -> bool {
        true
    }

    open spec fn from_spec(bytes: Vec<u8>) -> Contents {
        Contents(bytes)
    }
}

impl core::ops::Deref for Contents {
    type Target = Vec<u8>;

    fn deref(&self) -> (bytes: &Vec<u8>)
        ensures
            bytes@ == self@,
    {
        &self.0
    }
}

impl Contents {
    /// Gives up the bytes.
    pub fn into_inner(self) -> (bytes: Vec<u8>)
        ensures
            bytes@ == self@,
    {
        self.0
    }
}

/// A decoded image as contracts speak of it.
pub struct PgmView {
    /// The number of pixel columns.
    pub width: nat,
    /// The number of pixel rows.
    pub height: nat,
    /// The declared maximum sample value.
    pub max_grey_val: u8,
    /// The samples, row by row.
    pub contents: Seq<u8>,
}

impl PgmView {
    /// Whether there is exactly one sample for each pixel.
    pub open spec fn wf(self) -> bool {
        self.contents.len() == self.width * self.height
    }
}

/// A decoded image. It always holds exactly one sample for each pixel.
#[derive(Debug, PartialEq, Eq)]
pub struct PGM {
    width: usize,
    height: usize,
    max_grey_val: u8,
    contents: Contents,
}

impl View for PGM {
    type V = PgmView;

    closed spec fn view(&self) -> PgmView {
        PgmView {
            width: self.width as nat,
            height: self.height as nat,
            max_grey_val: self.max_grey_val,
            contents: self.contents@,
        }
    }
}

impl PGM {
    #[verifier::type_invariant]
    spec fn inv(self) -> bool {
        self@.wf()
    }

    /// Puts an image together from its parts.
    pub(crate) fn assemble(
        width: usize,
        height: usize,
        max_grey_val: u8,
        contents: Vec<u8>,
    ) -> (pgm: PGM)
        requires
            contents@.len() == width * height,
        ensures
            pgm@ == (PgmView {
                width: width as nat,
                height: height as nat,
                max_grey_val,
                contents: contents@,
            }),
    {
        PGM { width, height, max_grey_val, contents: Contents::from(contents) }
    }

    /// The number of pixel columns.
    pub fn width(&self) -> (width: usize)
        ensures
            width == self@.width,
    {
        self.width
    }

    /// The number of pixel rows.
    pub fn height(&self) -> (height: usize)
        ensures
            height == self@.height,
    {
        self.height
    }

    /// The declared maximum sample value.
    pub fn max_grey_val(&self) -> (max_grey_val: u8)
        ensures
            max_grey_val == self@.max_grey_val,
    {
        self.max_grey_val
    }

    /// The samples, one for each pixel.
    pub fn contents(&self) -> (contents: &Contents)
        ensures
            contents@ == self@.contents,
            self@.wf(),
    {
        proof {
            use_type_invariant(self);
        }
        &self.contents
    }

    /// Gives up the samples.
    pub fn into_contents(self) -> (contents: Contents)
        ensures
            contents@ == self@.contents,
            self@.wf(),
    {
        proof {
            use_type_invariant(&self);
        }
        self.contents
    }
}

} // verus!
