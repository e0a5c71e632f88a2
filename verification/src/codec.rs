//! The boundary to the binary codec.
//!
//! Keys and values are encoded and decoded by `bincode` through the
//! `rustc_serialize` traits. How a type is laid out in bytes is decided by its
//! own `Encodable` and `Decodable` impls, which this library never sees, so the
//! functions here promise nothing about the bytes or the values they return:
//! the callers are verified for every outcome.

use vstd::prelude::*;
use bincode::rustc_serialize::{DecodingError, EncodingError};
use bincode::SizeLimit;
use rustc_serialize::{Decodable, Encodable};
use crate::error::{DecodeFailure, EncodeFailure};

verus! {

/// `bincode::rustc_serialize::EncodingError`, carried through unread.
#[verifier::external_type_specification]
#[verifier::external_body]
pub struct ExEncodingError(EncodingError);

/// `bincode::rustc_serialize::DecodingError`, carried through unread.
#[verifier::external_type_specification]
#[verifier::external_body]
pub struct ExDecodingError(DecodingError);

/// Calls `bincode::rustc_serialize::encode` on the pair `(key, value)` with
/// the size bound `limit`. Nothing is claimed of the outcome: whether the
/// bytes respect the bound rests on the `Encodable` impls of `K` and `V`.
#[verifier::external_body]
pub(crate) fn encode_pair<K: Encodable, V: Encodable>(key: &K, value: &V, limit: u64) -> (encoded:
    Result<Vec<u8>, EncodingError>) {
    bincode::rustc_serialize::encode(&(key, value), SizeLimit::Bounded(limit))
}

/// Calls `bincode::rustc_serialize::decode` for a value of type `T` on
/// `bytes`. Nothing is claimed of the outcome.
#[verifier::external_body]
pub(crate) fn decode_as<T: Decodable>(bytes: &[u8]) -> (decoded: Result<T, DecodingError>) {
    bincode::rustc_serialize::decode(bytes)
}

/// Tells the variants of `bincode::rustc_serialize::EncodingError` apart.
/// Nothing is claimed of the outcome.
#[verifier::external_body]
pub(crate) fn encode_failure(error: &EncodingError) -> (failure: EncodeFailure) {
    match error {
        EncodingError::IoError(_) => EncodeFailure::Io,
        EncodingError::SizeLimit => EncodeFailure::SizeLimit,
    }
}

/// Tells the variants of `bincode::rustc_serialize::DecodingError` apart.
/// Nothing is claimed of the outcome.
#[verifier::external_body]
pub(crate) fn decode_failure(error: &DecodingError) -> (failure: DecodeFailure) {
    match error {
        DecodingError::IoError(_) => DecodeFailure::Io,
        DecodingError::InvalidEncoding(_) => DecodeFailure::InvalidEncoding,
        DecodingError::SizeLimit => DecodeFailure::SizeLimit,
    }
}

} // verus!
