//! Decoder for an indexed-colour bitmap format: a little-endian header with two
//! embedded byte strings, a 256-entry colour table stored in a tiled order, and
//! a plane of one palette index per pixel.
use vstd::prelude::*;

pub mod file;
pub mod header;
pub mod palette;
pub mod reader;

pub use file::{compose, SagasFile};
pub use header::SagasHeader;
pub use palette::{remap_alpha, swizzle, SagasColor, SagasColorLUT};
pub use reader::{ByteReader, ErrorKind};

verus! {

/// The part of the decode in which a failure came.
#[derive(Debug, Clone, Copy, PartialEq, Eq, Structural)]
pub enum Stage {
    Header,
    Palette,
    Pixels,
    Compose,
}

/// A failed decode: where it failed and why.
#[derive(Debug, Clone, Copy, PartialEq, Eq, Structural)]
pub struct DecodeError {
    pub stage: Stage,
    pub kind: ErrorKind,
}

/// A record that can be decoded from the current position of a `ByteReader`.
pub trait FromReader: Sized {
    /// Decoding at `pos` of `data` succeeds.
    spec fn readable(data: Seq<u8>, pos: int) -> bool;

    /// Where the reader stands after a successful decode at `pos`.
    spec fn read_end(data: Seq<u8>, pos: int) -> int;

    /// `v` is the record that `data` holds at `pos`.
    spec fn decoded_as(data: Seq<u8>, pos: int, v: Self) -> bool;

    /// The error reported when decoding at `pos` fails.
    spec fn error_at(data: Seq<u8>, pos: int) -> DecodeError;

    fn from_reader(r: &mut ByteReader) -> (res: Result<Self, DecodeError>)
        ensures
            final(r).bytes() == old(r).bytes(),
            match res {
                Ok(v) => Self::readable(old(r).bytes(), old(r).at())
                    && Self::decoded_as(old(r).bytes(), old(r).at(), v)
                    && final(r).at() == Self::read_end(old(r).bytes(), old(r).at()),
                Err(e) => !Self::readable(old(r).bytes(), old(r).at())
                    && e == Self::error_at(old(r).bytes(), old(r).at()),
            },
    ;
}

} // verus!
