use vstd::prelude::*;

verus! {

/// The ways in which building, decoding or reading a chunk can fail.
#[derive(Debug, Clone, Copy, PartialEq, Eq)]
pub enum ChunkError {
    /// A type code byte is not an ASCII letter, or the reserved bit is set.
    InvalidChunkType,
    /// A textual type code is not four bytes long.
    InvalidLength,
    /// A buffer holds fewer than twelve bytes.
    TooShort,
    /// The declared payload length runs past the end of the buffer.
    TruncatedPayload,
    /// The stored checksum differs from the computed one.
    CrcMismatch,
    /// The payload is not valid UTF-8.
    InvalidEncoding,
}

} // verus!
