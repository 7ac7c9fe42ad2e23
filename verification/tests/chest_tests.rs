use chest::chest::{LockedChest, Metadata, UnlockedChest};
use chest::error::ChestError;
use chest::format_path;

fn chest_with(payloads: &[(&str, &[u8])], password: &str, compress: bool) -> UnlockedChest {
    let mut unlocked = UnlockedChest::new(password, compress).unwrap();
    for (name, payload) in payloads {
        let metadata = Metadata { filename: name.to_string(), size_bytes: payload.len() as u64 };
        unlocked.add_file_from_cipher(payload.to_vec(), metadata).unwrap();
    }
    unlocked
}

#[test]
fn single_file_survives_lock_serialize_unlock() {
    let unlocked = chest_with(&[("a.txt", b"some data")], "hunter2", true);
    let locked = unlocked.lock("hunter2").unwrap();
    let bytes = locked.to_bytes();
    let restored = LockedChest::from_bytes(&bytes).unwrap();
    let reopened = restored.unlock("hunter2").unwrap();
    assert_eq!(reopened.files.len(), 1);
    assert_eq!(reopened.files[0].metadata.filename, "a.txt");
    assert_eq!(reopened.files[0].metadata.size_bytes, 9);
    let content = reopened.decrypt_file(0).unwrap();
    assert_eq!(content, b"some data".to_vec());
}

#[test]
fn wrong_password_fails_to_unlock() {
    let unlocked = chest_with(&[("a.txt", b"some data")], "hunter2", true);
    let locked = unlocked.lock("hunter2").unwrap();
    let bytes = locked.to_bytes();
    let restored = LockedChest::from_bytes(&bytes).unwrap();
    let err = restored.unlock("wrong").unwrap_err();
    assert_eq!(err, ChestError::Authentication);
}

fn incompressible_bytes(n: usize) -> Vec<u8> {
    let mut state: u64 = 0x1234_5678_9abc_def0;
    let mut out = Vec::with_capacity(n);
    for _ in 0..n {
        state = state.wrapping_mul(6364136223846793005).wrapping_add(1442695040888963407);
        out.push((state >> 33) as u8);
    }
    out
}

fn stored_cipher_len_and_content(payload: &[u8], compress: bool) -> (usize, Vec<u8>) {
    let unlocked = chest_with(&[("f.bin", payload)], "pw", compress);
    let locked = unlocked.lock("pw").unwrap();
    let bytes = locked.to_bytes();
    let reopened = LockedChest::from_bytes(&bytes).unwrap().unlock("pw").unwrap();
    let cipher_len = reopened.files[0].cipher.cipher.len();
    let content = reopened.decrypt_file(0).unwrap();
    (cipher_len, content)
}

#[test]
fn compression_shrinks_compressible_payloads_only() {
    let compressible = vec![7u8; 1000];
    let (plain_len, plain_content) = stored_cipher_len_and_content(&compressible, false);
    let (packed_len, packed_content) = stored_cipher_len_and_content(&compressible, true);
    assert_eq!(plain_content, compressible);
    assert_eq!(packed_content, compressible);
    assert!(packed_len < plain_len);

    let noise = incompressible_bytes(1000);
    let (plain_len, plain_content) = stored_cipher_len_and_content(&noise, false);
    let (packed_len, packed_content) = stored_cipher_len_and_content(&noise, true);
    assert_eq!(plain_content, noise);
    assert_eq!(packed_content, noise);
    assert!(packed_len + 64 >= plain_len);
}

#[test]
fn three_files_keep_their_order_and_content() {
    let files: [(&str, &[u8]); 3] =
        [("a.txt", b"alpha"), ("b.txt", b"bravo contents"), ("c.txt", b"charlie!")];
    let unlocked = chest_with(&files, "hunter2", true);
    let locked = unlocked.lock("hunter2").unwrap();
    let bytes = locked.to_bytes();
    let reopened = LockedChest::from_bytes(&bytes).unwrap().unlock("hunter2").unwrap();
    assert_eq!(reopened.files.len(), 3);
    for (i, (name, payload)) in files.iter().enumerate() {
        assert_eq!(reopened.files[i].metadata.filename, *name);
        assert_eq!(reopened.files[i].metadata.size_bytes, payload.len() as u64);
        assert_eq!(reopened.decrypt_file(i).unwrap(), payload.to_vec());
    }
    let extracted = reopened.decrypt_all_files().unwrap();
    assert_eq!(extracted.len(), 3);
    for (i, (name, payload)) in files.iter().enumerate() {
        assert_eq!(extracted[i].filename, *name);
        assert_eq!(extracted[i].content, payload.to_vec());
    }
}

#[test]
fn uncompressed_chest_round_trips() {
    let unlocked = chest_with(&[("raw.bin", b"plain bytes")], "pw", false);
    let locked = unlocked.lock("pw").unwrap();
    let reopened = LockedChest::from_bytes(&locked.to_bytes()).unwrap().unlock("pw").unwrap();
    assert_eq!(reopened.decrypt_file(0).unwrap(), b"plain bytes".to_vec());
}

#[test]
fn empty_chest_round_trips() {
    let unlocked = chest_with(&[], "pw", true);
    let locked = unlocked.lock("pw").unwrap();
    let reopened = LockedChest::from_bytes(&locked.to_bytes()).unwrap().unlock("pw").unwrap();
    assert_eq!(reopened.files.len(), 0);
}

#[test]
fn truncated_archive_is_rejected() {
    let unlocked = chest_with(&[("a.txt", b"some data")], "pw", true);
    let bytes = unlocked.lock("pw").unwrap().to_bytes();
    let err = LockedChest::from_bytes(&bytes[..bytes.len() - 1]).unwrap_err();
    assert_eq!(err, ChestError::Serialization);
    let err = LockedChest::from_bytes(&[]).unwrap_err();
    assert_eq!(err, ChestError::Serialization);
}

#[test]
fn wrong_magic_is_rejected() {
    let unlocked = chest_with(&[("a.txt", b"some data")], "pw", true);
    let mut bytes = unlocked.lock("pw").unwrap().to_bytes();
    bytes[0] ^= 0xFF;
    let err = LockedChest::from_bytes(&bytes).unwrap_err();
    assert_eq!(err, ChestError::Serialization);
}

#[test]
fn trailing_garbage_is_rejected() {
    let unlocked = chest_with(&[("a.txt", b"some data")], "pw", true);
    let mut bytes = unlocked.lock("pw").unwrap().to_bytes();
    bytes.push(0);
    let err = LockedChest::from_bytes(&bytes).unwrap_err();
    assert_eq!(err, ChestError::Serialization);
}

#[test]
fn tampered_archive_fails_authentication() {
    let unlocked = chest_with(&[("a.txt", b"some data")], "pw", true);
    let locked = unlocked.lock("pw").unwrap();
    let mut restored = LockedChest::from_bytes(&locked.to_bytes()).unwrap();
    let last = restored.files[0].metadata.cipher.len() - 1;
    restored.files[0].metadata.cipher[last] ^= 0x01;
    let err = restored.unlock("pw").unwrap_err();
    assert_eq!(err, ChestError::Authentication);
}

#[test]
fn fresh_chests_use_fresh_salts() {
    let one = UnlockedChest::new("pw", true).unwrap();
    let two = UnlockedChest::new("pw", true).unwrap();
    assert_ne!(one.public.key_derivation_salt, two.public.key_derivation_salt);
    assert_eq!(one.public.key_derivation_salt.len(), 8);
}

#[test]
fn format_path_keeps_absolute_and_prefixes_relative() {
    assert_eq!(format_path("/etc/motd"), "/etc/motd");
    assert_eq!(format_path("notes/today.txt"), "./notes/today.txt");
    assert_eq!(format_path(""), "./");
}
