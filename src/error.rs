use vstd::prelude::*;

verus! {

/// Every way in which an operation of this library can fail.
#[derive(Debug, Clone, Copy, PartialEq, Eq, Structural)]
pub enum PngError {
    /// A type code holds a byte that is not an ASCII letter, or is too short.
    InvalidTypeCode,
    /// The checksum stored in a chunk differs from the one computed over it.
    ChecksumMismatch,
    /// The input ends before the chunk that it declares.
    TruncatedInput,
    /// The first eight bytes are not the PNG signature.
    BadSignature,
    /// No chunk has the requested type code.
    NotFound,
    /// A payload read as text is not valid UTF-8.
    NotUtf8,
    /// A header view was asked of a chunk of another type.
    WrongTypeCode,
    /// A header view was asked of a chunk whose payload is not 13 bytes long.
    WrongLength,
    /// The header's bit depth is not allowed for its color type.
    InvalidColorBitDepthCombination,
}

} // verus!
