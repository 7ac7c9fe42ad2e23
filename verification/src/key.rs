//! Key derivation: a password and a salt yield a fixed-length symmetric key
//! through a slow, iterated hash (PBKDF2-HMAC-SHA256 at a fixed iteration
//! count). Derivation is deterministic: the same password and salt always
//! yield the same key, which `derived_key` captures as a mathematical
//! function of the two inputs.

use vstd::prelude::*;

use crate::chest::KeyDerivationAlgorithm;
use crate::crypto::KEY_LEN;

verus! {

/// Byte-length cap on key-derivation inputs. The iterated hash counts its
/// input in a 64-bit bit register, so it stops accepting input near
/// 2^61 bytes; this bound stays a safe factor inside that limit while
/// admitting any input a machine could hold.
pub const MAX_SECRET_LEN: u64 = 0x1000_0000_0000_0000;

/// The 32-byte key that the fixed PBKDF2-HMAC-SHA256 schedule derives from
/// this password and salt. The result depends on the two arguments alone.
pub uninterp spec fn derived_key(password: Seq<char>, salt: Seq<u8>) -> Seq<u8>;

/// Holds when a password is short enough (in UTF-8 bytes) to derive from.
pub open spec fn password_fits(password: Seq<char>) -> bool {
    vstd::utf8::encode_utf8(password).len() <= MAX_SECRET_LEN
}

/// Relies on `ring::pbkdf2::derive` with `PBKDF2_HMAC_SHA256` and a fixed
/// iteration count: it fills the whole output buffer, and the output is a
/// deterministic function of the password bytes and the salt.
#[verifier::external_body]
fn pbkdf2_derive(password: &str, salt: &[u8]) -> (key: Vec<u8>)
    requires
        password_fits(password@),
        salt@.len() <= MAX_SECRET_LEN,
    ensures
        key@ == derived_key(password@, salt@),
        key@.len() == KEY_LEN,
{
    let mut key = [0u8; 32];
    ring::pbkdf2::derive(
        ring::pbkdf2::PBKDF2_HMAC_SHA256,
        core::num::NonZeroU32::new(100_000).unwrap(),
        salt,
        password.as_bytes(),
        &mut key,
    );
    key.to_vec()
}

/// A key-derivation strategy: password and salt in, symmetric key out.
pub trait Derive {
    fn derive(&self, password: &str, salt: &[u8]) -> (key: Vec<u8>)
        requires
            password_fits(password@),
            salt@.len() <= MAX_SECRET_LEN,
        ensures
            key@ == derived_key(password@, salt@),
            key@.len() == KEY_LEN,
    ;
}

/// The one key-derivation strategy currently offered.
pub struct Pbkdf2HmacSha256Deriver;

impl Derive for Pbkdf2HmacSha256Deriver {
    fn derive(&self, password: &str, salt: &[u8]) -> (key: Vec<u8>) {
        pbkdf2_derive(password, salt)
    }
}

/// Maps a key-derivation tag to the strategy that implements it.
pub fn get_deriver(algorithm: &KeyDerivationAlgorithm) -> (d: Pbkdf2HmacSha256Deriver) {
    match algorithm {
        KeyDerivationAlgorithm::Pbkdf2HmacSha256 => Pbkdf2HmacSha256Deriver,
    }
}

} // verus!
