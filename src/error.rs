use vstd::prelude::*;

verus! {

/// Everything that can go wrong while reading or editing a PNG file.
#[derive(Debug, PartialEq, Eq)]
pub enum Error {
    /// A chunk-type byte is not an ASCII letter; holds that byte.
    InvalidByte(u8),
    /// A chunk type was given as text whose UTF-8 form is not four bytes; holds its length.
    LengthMismatch(usize),
    /// The file is shorter than the signature; holds the number of bytes given.
    TooShort(usize),
    /// A chunk needs more bytes than are left.
    Truncated { needed: u64, available: usize },
    /// The first eight bytes are not the PNG signature; holds them.
    BadSignature([u8; 8]),
    /// The data of a chunk is not valid UTF-8.
    InvalidUtf8,
    /// No chunk has the requested type; holds the type text that was asked for.
    NotFound(String),
}

} // verus!
