//! Error taxonomy for the chest library.
//!
//! Every fallible operation returns a typed error. Errors carry no payload:
//! each variant stands for one failure class, and `describe` yields the
//! human-readable text the surrounding application prints.

use vstd::prelude::*;

verus! {

/// A failure of a chest operation.
#[derive(Clone, Copy, Debug, PartialEq, Eq, Structural)]
pub enum ChestError {
    /// Malformed or truncated archive bytes.
    Serialization,
    /// Malformed compressed stream found while decompressing.
    Compression,
    /// The cryptographic provider failed (random source exhausted, or a
    /// payload too large to seal).
    Crypto,
    /// An authentication tag did not verify: wrong password, or the
    /// ciphertext was tampered with.
    Authentication,
}

pub type ChestResult<T> = Result<T, ChestError>;

impl ChestError {
    /// A short description of the failure, for display by callers.
    pub fn describe(&self) -> (msg: &'static str)
    {
        match self {
            ChestError::Serialization => "could not serialize or deserialize the chest",
            ChestError::Compression => "could not compress or decompress",
            ChestError::Crypto => "the cryptographic provider failed",
            ChestError::Authentication => "authentication failed: wrong password or corrupted data",
        }
    }
}

} // verus!
