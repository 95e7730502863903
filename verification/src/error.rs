//! The error taxonomy of the decoder.

use vstd::prelude::*;

verus! {

/// The ways a decode can fail. Every error aborts the whole decode
/// immediately: no partial value is ever produced, and no error is
/// downgraded to a default value.
#[derive(Clone, Copy, Debug, PartialEq, Eq, Structural)]
pub enum DecodeError {
    /// The request version byte is not the supported version.
    VersionMismatch,
    /// The response version byte is not the supported version.
    InvalidResponseVersion,
    /// A request declared zero per-chain queries.
    ZeroQueries,
    /// A per-chain query tag byte is outside the supported set.
    UnsupportedQueryType,
    /// A per-chain response tag byte is outside the supported set.
    UnsupportedResponseType,
    /// A length-prefixed string field is not valid UTF-8.
    InvalidText,
    /// Fewer bytes remain than a fixed-size field requires.
    TruncatedInput,
    /// A declared length exceeds the number of bytes remaining in the
    /// buffer. Rejected before any allocation is sized from it.
    LengthOverflow,
    /// A response buffer was not consumed exactly: bytes were left over
    /// after the final field.
    InvalidPayloadLength,
}

} // verus!
