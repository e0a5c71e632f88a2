//! The ways in which opening an index or inserting into it can fail.

use vstd::prelude::*;

verus! {

/// Why the codec could not decode a value from bytes.
#[derive(Clone, Copy, Debug, PartialEq, Eq, Structural)]
pub enum DecodeFailure {
    /// The bytes ended before the value was complete.
    Io,
    /// The bytes do not encode a value of the expected type.
    InvalidEncoding,
    /// The value is larger than the decoder was allowed to read.
    SizeLimit,
}

/// Why the codec could not encode a value.
#[derive(Clone, Copy, Debug, PartialEq, Eq, Structural)]
pub enum EncodeFailure {
    /// Writing the encoded bytes failed.
    Io,
    /// The encoded value would not fit within the size bound.
    SizeLimit,
}

/// An error from opening an index or inserting into it.
#[derive(Clone, Copy, Debug, PartialEq, Eq, Structural)]
pub enum Error {
    /// A read ran past the end of a file: the data file is too short to hold
    /// its header, or the log ends in the middle of a record.
    UnexpectedEof,
    /// The data file does not start with the header and the current version.
    InvalidFile,
    /// The key and value are too large for one log record.
    Oversized,
    /// The codec failed to encode a record for a reason other than its size.
    Encode,
    /// A log record or the root node could not be decoded.
    Decode(DecodeFailure),
}

} // verus!
