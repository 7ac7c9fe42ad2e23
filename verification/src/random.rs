//! Secure random byte source.
//!
//! Salts and nonces are drawn from the operating system's cryptographically
//! secure generator. Nothing can be promised about the values that come
//! back — only their length — so callers state what holds of every outcome.

use vstd::prelude::*;

use crate::error::ChestError;

verus! {

/// Draws `length` cryptographically secure random bytes.
///
/// Relies on `ring::rand::SystemRandom::fill`: on success the buffer is
/// filled entirely, so the result holds exactly `length` bytes. The values
/// are random; no two calls are related by any contract.
#[verifier::external_body]
pub fn generate_random_bytes(length: usize) -> (r: Result<Vec<u8>, ChestError>)
    ensures
        r is Ok ==> r->Ok_0@.len() == length,
        r is Err ==> r->Err_0 == ChestError::Crypto,
{
    let rng = ring::rand::SystemRandom::new();
    let mut bytes = vec![0u8; length];
    match ring::rand::SecureRandom::fill(&rng, &mut bytes) {
        Ok(()) => Ok(bytes),
        Err(_) => Err(ChestError::Crypto),
    }
}

} // verus!
