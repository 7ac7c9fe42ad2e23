//! Authenticated encryption: seals and opens byte payloads under a 256-bit
//! symmetric key with AES-256-GCM. Sealing appends a 16-byte integrity tag
//! to the ciphertext; opening verifies the tag and fails closed on a wrong
//! key or tampered bytes.
//!
//! For a fixed key and nonce the cipher is a deterministic bijection, which
//! the names `sealed` and `opened` capture: whatever a successful `decrypt`
//! returns is the unique payload whose seal is exactly the stored
//! ciphertext.

use vstd::prelude::*;

use crate::chest::EncryptionAlgorithm;
use crate::error::{ChestError, ChestResult};
use crate::random::generate_random_bytes;

verus! {

/// Length in bytes of a derived symmetric key (256 bits).
pub const KEY_LEN: usize = 32;

/// Length in bytes of a per-blob salt (64 bits).
pub const SALT_LEN: usize = 8;

/// Length in bytes of an AES-GCM nonce (96 bits).
pub const NONCE_LEN: usize = 12;

/// Length in bytes of the authentication tag appended to the ciphertext.
pub const TAG_LEN: usize = 16;

/// Payloads up to this long always seal: the bound sits comfortably below
/// the cipher's own input limit.
pub const SEAL_MAX_LEN: u64 = 0x8_0000_0000;

/// The ciphertext-with-tag that AES-256-GCM produces for this key, nonce
/// and payload. The result depends on the three arguments alone.
pub uninterp spec fn sealed(key: Seq<u8>, nonce: Seq<u8>, payload: Seq<u8>) -> Seq<u8>;

/// What opening these bytes under this key and nonce yields: the payload
/// when the authentication tag verifies, nothing otherwise. The result
/// depends on the three arguments alone.
pub uninterp spec fn opened(key: Seq<u8>, nonce: Seq<u8>, cipher: Seq<u8>) -> Option<Seq<u8>>;

/// A ciphertext bundle: the sealed bytes together with the salt and nonce
/// that were drawn fresh for this one encryption. Salt and nonce are
/// required, but not secret, inputs to decryption and are stored in the
/// clear.
#[derive(Debug)]
pub struct EncryptedBlob {
    pub cipher: Vec<u8>,
    pub salt: Vec<u8>,
    pub nonce: Vec<u8>,
}

/// The mathematical shape of an [`EncryptedBlob`].
pub ghost struct EncryptedBlobView {
    pub cipher: Seq<u8>,
    pub salt: Seq<u8>,
    pub nonce: Seq<u8>,
}

impl EncryptedBlobView {
    /// Salt and nonce have the sizes the cipher suite fixes.
    pub open spec fn wf(self) -> bool {
        self.salt.len() == SALT_LEN && self.nonce.len() == NONCE_LEN
    }

    /// The ciphertext is short enough for a 64-bit length prefix.
    pub open spec fn fits(self) -> bool {
        self.cipher.len() <= u64::MAX
    }
}

impl View for EncryptedBlob {
    type V = EncryptedBlobView;

    open spec fn view(&self) -> EncryptedBlobView {
        EncryptedBlobView { cipher: self.cipher@, salt: self.salt@, nonce: self.nonce@ }
    }
}

impl EncryptedBlob {
    /// An owned copy of the blob.
    pub fn duplicate(&self) -> (r: EncryptedBlob)
        ensures
            r@ == self@,
    {
        EncryptedBlob {
            cipher: vstd::slice::slice_to_vec(self.cipher.as_slice()),
            salt: vstd::slice::slice_to_vec(self.salt.as_slice()),
            nonce: vstd::slice::slice_to_vec(self.nonce.as_slice()),
        }
    }
}

/// Relies on `ring::aead::LessSafeKey::seal_in_place_append_tag` with
/// `AES_256_GCM`: on success the buffer holds the ciphertext of the payload
/// with the 16-byte tag appended, a deterministic function of key, nonce
/// and payload that opening inverts. Sealing fails only on inputs beyond
/// the cipher's length limit, so bounded payloads always seal.
#[verifier::external_body]
fn aes_gcm_seal(key: &[u8], nonce: &[u8], payload: Vec<u8>) -> (r: ChestResult<Vec<u8>>)
    requires
        key@.len() == KEY_LEN,
        nonce@.len() == NONCE_LEN,
    ensures
        r is Ok ==> r->Ok_0@ == sealed(key@, nonce@, payload@),
        r is Ok ==> r->Ok_0@.len() == payload@.len() + TAG_LEN,
        r is Ok ==> opened(key@, nonce@, sealed(key@, nonce@, payload@)) == Some(payload@),
        payload@.len() <= SEAL_MAX_LEN ==> r is Ok,
        r is Err ==> r->Err_0 == ChestError::Crypto,
{
    let unbound = match ring::aead::UnboundKey::new(&ring::aead::AES_256_GCM, key) {
        Ok(k) => k,
        Err(_) => return Err(ChestError::Crypto),
    };
    let sealing_key = ring::aead::LessSafeKey::new(unbound);
    let raw_nonce: [u8; 12] = match nonce.try_into() {
        Ok(n) => n,
        Err(_) => return Err(ChestError::Crypto),
    };
    let n = ring::aead::Nonce::assume_unique_for_key(raw_nonce);
    let mut buffer = payload;
    match sealing_key.seal_in_place_append_tag(n, ring::aead::Aad::empty(), &mut buffer) {
        Ok(()) => Ok(buffer),
        Err(_) => Err(ChestError::Crypto),
    }
}

/// Relies on `ring::aead::LessSafeKey::open_in_place` with `AES_256_GCM`:
/// it verifies the appended tag and returns the plaintext exactly when the
/// input is the seal of that plaintext under this key and nonce, failing
/// closed otherwise — deterministically in key, nonce and input bytes. An
/// input too short to hold a tag always fails.
#[verifier::external_body]
fn aes_gcm_open(key: &[u8], nonce: &[u8], cipher: &[u8]) -> (r: ChestResult<Vec<u8>>)
    requires
        key@.len() == KEY_LEN,
        nonce@.len() == NONCE_LEN,
    ensures
        r is Ok <==> opened(key@, nonce@, cipher@) is Some,
        r is Ok ==> Some(r->Ok_0@) == opened(key@, nonce@, cipher@),
        r is Ok ==> cipher@ == sealed(key@, nonce@, r->Ok_0@),
        cipher@.len() < TAG_LEN ==> r is Err,
        r is Err ==> r->Err_0 == ChestError::Authentication,
{
    let unbound = match ring::aead::UnboundKey::new(&ring::aead::AES_256_GCM, key) {
        Ok(k) => k,
        Err(_) => return Err(ChestError::Authentication),
    };
    let opening_key = ring::aead::LessSafeKey::new(unbound);
    let raw_nonce: [u8; 12] = match nonce.try_into() {
        Ok(n) => n,
        Err(_) => return Err(ChestError::Authentication),
    };
    let n = ring::aead::Nonce::assume_unique_for_key(raw_nonce);
    let mut buffer = cipher.to_vec();
    match opening_key.open_in_place(n, ring::aead::Aad::empty(), &mut buffer) {
        Ok(plain) => Ok(plain.to_vec()),
        Err(_) => Err(ChestError::Authentication),
    }
}

/// An altered ciphertext can never open back to the original payload:
/// opening succeeds only on the exact seal of whatever it returns — which
/// is what `decrypt` ensures of every success — so a changed ciphertext
/// yields, at best, a different payload, never the original one under a
/// wrong ciphertext.
pub proof fn lemma_tamper_never_original(
    key: Seq<u8>,
    nonce: Seq<u8>,
    payload: Seq<u8>,
    altered: Seq<u8>,
    recovered: Seq<u8>,
)
    requires
        altered != sealed(key, nonce, payload),
        altered == sealed(key, nonce, recovered),
    ensures
        recovered != payload,
{
}

/// An authenticated-encryption strategy: payloads sealed under a symmetric
/// key into [`EncryptedBlob`]s, and opened again.
pub trait Encrypt {
    fn encrypt(&self, payload: Vec<u8>, key: &[u8]) -> (r: ChestResult<EncryptedBlob>)
        requires
            key@.len() == KEY_LEN,
        ensures
            r is Ok ==> r->Ok_0@.wf(),
            r is Ok ==> r->Ok_0@.cipher == sealed(key@, r->Ok_0@.nonce, payload@),
            r is Ok ==> r->Ok_0@.cipher.len() == payload@.len() + TAG_LEN,
            r is Ok ==> opened(key@, r->Ok_0@.nonce, r->Ok_0@.cipher) == Some(payload@),
            r is Err ==> r->Err_0 == ChestError::Crypto,
    ;

    fn decrypt(&self, blob: &EncryptedBlob, key: &[u8]) -> (r: ChestResult<Vec<u8>>)
        requires
            key@.len() == KEY_LEN,
            blob@.wf(),
        ensures
            r is Ok <==> opened(key@, blob@.nonce, blob@.cipher) is Some,
            r is Ok ==> Some(r->Ok_0@) == opened(key@, blob@.nonce, blob@.cipher),
            r is Ok ==> blob@.cipher == sealed(key@, blob@.nonce, r->Ok_0@),
            blob@.cipher.len() < TAG_LEN ==> r is Err,
            r is Err ==> r->Err_0 == ChestError::Authentication,
    ;
}

/// The one authenticated-encryption strategy currently offered.
pub struct Aes256Encryptor;

impl Encrypt for Aes256Encryptor {
    fn encrypt(&self, payload: Vec<u8>, key: &[u8]) -> (r: ChestResult<EncryptedBlob>) {
        let salt = generate_random_bytes(SALT_LEN)?;
        let nonce = generate_random_bytes(NONCE_LEN)?;
        let cipher = aes_gcm_seal(key, nonce.as_slice(), payload)?;
        Ok(EncryptedBlob { cipher, salt, nonce })
    }

    fn decrypt(&self, blob: &EncryptedBlob, key: &[u8]) -> (r: ChestResult<Vec<u8>>) {
        aes_gcm_open(key, blob.nonce.as_slice(), blob.cipher.as_slice())
    }
}

/// Maps an encryption tag to the strategy that implements it.
pub fn get_encryptor(algorithm: &EncryptionAlgorithm) -> (e: Aes256Encryptor) {
    match algorithm {
        EncryptionAlgorithm::Aes256 => Aes256Encryptor,
    }
}

} // verus!
