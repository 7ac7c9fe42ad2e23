use chest::crypto::{Aes256Encryptor, Encrypt};
use chest::error::ChestError;
use chest::key::{Derive, Pbkdf2HmacSha256Deriver};

const PASSWORD: &str = "this is a password";
const ENCRYPTOR: Aes256Encryptor = Aes256Encryptor;
const PAYLOAD: &[u8; 9] = b"some data";
const SALT: &[u8; 8] = &[1, 2, 3, 4, 5, 6, 7, 8];

fn key_for(password: &str) -> Vec<u8> {
    Pbkdf2HmacSha256Deriver.derive(password, SALT)
}

#[test]
fn encrypted_then_decrypted_should_match() {
    let key = key_for(PASSWORD);
    let encrypted = ENCRYPTOR.encrypt(PAYLOAD.to_vec(), key.as_slice()).unwrap();
    let decrypted = ENCRYPTOR.decrypt(&encrypted, key.as_slice()).unwrap();
    assert_eq!(PAYLOAD, decrypted.as_slice());
}

#[test]
fn encrypted_should_be_different_than_decrypted() {
    let key = key_for(PASSWORD);
    let encrypted = ENCRYPTOR.encrypt(PAYLOAD.to_vec(), key.as_slice()).unwrap();
    assert_ne!(PAYLOAD, encrypted.cipher.as_slice());
}

#[test]
fn encrypted_should_be_different_with_different_password() {
    let key_one = key_for(PASSWORD);
    let key_two = key_for("abcd");
    let encrypted_one = ENCRYPTOR.encrypt(PAYLOAD.to_vec(), key_one.as_slice()).unwrap();
    let encrypted_two = ENCRYPTOR.encrypt(PAYLOAD.to_vec(), key_two.as_slice()).unwrap();
    assert_ne!(encrypted_one.cipher, encrypted_two.cipher);
}

#[test]
fn salt_should_be_random() {
    let key = key_for(PASSWORD);
    let encrypted_one = ENCRYPTOR.encrypt(PAYLOAD.to_vec(), key.as_slice()).unwrap();
    let encrypted_two = ENCRYPTOR.encrypt(PAYLOAD.to_vec(), key.as_slice()).unwrap();
    assert_ne!(encrypted_one.salt, encrypted_two.salt);
}

#[test]
fn nonce_should_be_random() {
    let key = key_for(PASSWORD);
    let encrypted_one = ENCRYPTOR.encrypt(PAYLOAD.to_vec(), key.as_slice()).unwrap();
    let encrypted_two = ENCRYPTOR.encrypt(PAYLOAD.to_vec(), key.as_slice()).unwrap();
    assert_ne!(encrypted_one.nonce, encrypted_two.nonce);
}

#[test]
fn repeated_encryption_gives_different_cipher() {
    let key = key_for(PASSWORD);
    let encrypted_one = ENCRYPTOR.encrypt(PAYLOAD.to_vec(), key.as_slice()).unwrap();
    let encrypted_two = ENCRYPTOR.encrypt(PAYLOAD.to_vec(), key.as_slice()).unwrap();
    assert_ne!(encrypted_one.cipher, encrypted_two.cipher);
}

#[test]
fn derivation_is_deterministic() {
    let key_one = key_for(PASSWORD);
    let key_two = key_for(PASSWORD);
    assert_eq!(key_one, key_two);
    assert_eq!(key_one.len(), 32);
    assert_ne!(key_one.as_slice(), PASSWORD.as_bytes());
}

#[test]
fn derivation_depends_on_password_and_salt() {
    let base = key_for(PASSWORD);
    let other_password = key_for("this is a passworD");
    assert_ne!(base, other_password);
    let other_salt = Pbkdf2HmacSha256Deriver.derive(PASSWORD, &[8, 7, 6, 5, 4, 3, 2, 1]);
    assert_ne!(base, other_salt);
}

#[test]
fn flipping_any_cipher_bit_fails_authentication() {
    let key = key_for(PASSWORD);
    let encrypted = ENCRYPTOR.encrypt(PAYLOAD.to_vec(), key.as_slice()).unwrap();
    for byte_index in 0..encrypted.cipher.len() {
        for bit in 0..8 {
            let mut tampered = chest::crypto::EncryptedBlob {
                cipher: encrypted.cipher.clone(),
                salt: encrypted.salt.clone(),
                nonce: encrypted.nonce.clone(),
            };
            tampered.cipher[byte_index] ^= 1u8 << bit;
            let err = ENCRYPTOR.decrypt(&tampered, key.as_slice()).unwrap_err();
            assert_eq!(err, ChestError::Authentication);
        }
    }
}
