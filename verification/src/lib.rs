//! Decoder for the binary wire format of a cross-chain query protocol.
//!
//! A requester asks one or more blockchains for on-chain facts, and a
//! responder returns the answers with provenance data. Both message kinds
//! arrive as raw bytes from untrusted peers; this crate converts them into
//! structured values or rejects them with a typed error, and never panics.
//!
//! The ground truth for every decoder is a specification-level parser over
//! `Seq<u8>`: each executable `deserialize` function is proved to return
//! exactly what the specification parser says the bytes mean, including
//! which error is reported for malformed input.

pub mod error;
pub mod laws;
pub mod query_request;
pub mod query_response;
pub mod reader;

pub use error::DecodeError;
pub use reader::Reader;
