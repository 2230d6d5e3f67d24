//! The ways in which decoding a rule table can fail.

use vstd::prelude::*;

verus! {

/// Why a blob could not be decoded. Every one of these aborts the whole build.
#[derive(Debug, Clone, Copy, PartialEq, Eq, Structural)]
pub enum DecodeError {
    /// A read ran past the end of the blob.
    TruncatedData,
    /// A value lies outside its domain: an unknown shape, a varint wider than
    /// 32 bits, or a table reference out of range.
    MalformedData,
    /// A byte that encodes a boolean was neither 0 nor 1.
    InvalidBooleanField,
    /// A reuse record came before any original record.
    InvalidBackReference,
    /// Bytes were left unread after the last slot.
    TrailingData,
}

} // verus!
