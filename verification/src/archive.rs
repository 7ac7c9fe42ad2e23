//! The archive serializer: a deterministic, self-describing binary layout
//! for the locked chest, and the small encoding that file metadata passes
//! through before it is sealed.
//!
//! Layout of an archive, in order: a four-byte magic, a one-byte format
//! version, the public parameters, a file count, then per file the content
//! blob and the metadata blob. Every variable-length byte string is
//! length-prefixed with a little-endian 64-bit length; nothing of the outer
//! container is compressed or encrypted. Decoding accepts exactly the
//! encodings this module produces — trailing bytes, unknown tags or
//! mis-sized salts and nonces are rejected — so encoding followed by
//! decoding is the identity, which `lemma_chest_round_trip` proves.

use vstd::bytes::{
    lemma_auto_spec_u64_to_from_le_bytes, spec_u64_from_le_bytes, spec_u64_to_le_bytes,
    u64_from_le_bytes, u64_to_le_bytes,
};
use vstd::prelude::*;
use vstd::slice::{slice_index_get, slice_subrange, slice_to_vec};

use crate::chest::{
    CompressionAlgorithm, EncryptionAlgorithm, KeyDerivationAlgorithm, LockedChest,
    LockedChestView, LockedFile, LockedFileView, Metadata, MetadataView, Public, PublicView,
};
use crate::crypto::{EncryptedBlob, EncryptedBlobView, NONCE_LEN, SALT_LEN};
use crate::error::{ChestError, ChestResult};

verus! {

/// The format version this module reads and writes.
pub const FORMAT_VERSION: u8 = 1;

/// The magic bytes opening every archive: "CHST" in ASCII.
pub open spec fn spec_magic() -> Seq<u8> {
    seq![67u8, 72u8, 83u8, 84u8]
}

/// A byte string as stored: a little-endian 64-bit length, then the bytes.
pub open spec fn spec_lp(bytes: Seq<u8>) -> Seq<u8> {
    spec_u64_to_le_bytes(bytes.len() as u64) + bytes
}

/// The stored tag of the optional compression algorithm.
pub open spec fn spec_compression_tag(c: Option<CompressionAlgorithm>) -> u8 {
    match c {
        None => 0,
        Some(CompressionAlgorithm::Deflate) => 1,
    }
}

/// The stored tag of the key-derivation algorithm.
pub open spec fn spec_kdf_tag(k: KeyDerivationAlgorithm) -> u8 {
    match k {
        KeyDerivationAlgorithm::Pbkdf2HmacSha256 => 0,
    }
}

/// The stored tag of the encryption algorithm.
pub open spec fn spec_enc_tag(e: EncryptionAlgorithm) -> u8 {
    match e {
        EncryptionAlgorithm::Aes256 => 0,
    }
}

/// The public parameters as stored.
pub open spec fn spec_ser_public(p: PublicView) -> Seq<u8> {
    seq![spec_compression_tag(p.compression_algorithm)] + seq![spec_kdf_tag(
        p.key_derivation_algorithm,
    )] + spec_lp(p.key_derivation_salt) + seq![spec_enc_tag(p.encryption_algorithm)]
}

/// An encrypted blob as stored: cipher, salt, nonce, each length-prefixed.
pub open spec fn spec_ser_blob(b: EncryptedBlobView) -> Seq<u8> {
    spec_lp(b.cipher) + spec_lp(b.salt) + spec_lp(b.nonce)
}

/// A locked file entry as stored: content blob, then metadata blob.
pub open spec fn spec_ser_file(f: LockedFileView) -> Seq<u8> {
    spec_ser_blob(f.cipher) + spec_ser_blob(f.metadata)
}

/// The file entries as stored, in order.
pub open spec fn spec_ser_files(files: Seq<LockedFileView>) -> Seq<u8>
    decreases files.len(),
{
    if files.len() == 0 {
        Seq::empty()
    } else {
        spec_ser_file(files.first()) + spec_ser_files(files.drop_first())
    }
}

/// A whole locked chest as stored.
pub open spec fn spec_serialize_chest(c: LockedChestView) -> Seq<u8> {
    spec_magic() + seq![FORMAT_VERSION] + spec_ser_public(c.public) + spec_u64_to_le_bytes(
        c.files.len() as u64,
    ) + spec_ser_files(c.files)
}

/// File metadata as sealed inside a locked file: the length-prefixed UTF-8
/// bytes of the filename, then the size as a little-endian 64-bit value.
pub open spec fn spec_encode_metadata(m: MetadataView) -> Seq<u8> {
    spec_lp(vstd::utf8::encode_utf8(m.filename)) + spec_u64_to_le_bytes(m.size_bytes)
}

/// Reads one byte at `pos`.
pub open spec fn spec_read_u8(b: Seq<u8>, pos: int) -> Option<(u8, int)> {
    if 0 <= pos && pos + 1 <= b.len() {
        Some((b[pos], pos + 1))
    } else {
        None
    }
}

/// Reads a little-endian 64-bit value at `pos`.
pub open spec fn spec_read_u64(b: Seq<u8>, pos: int) -> Option<(u64, int)> {
    if 0 <= pos && pos + 8 <= b.len() {
        Some((spec_u64_from_le_bytes(b.subrange(pos, pos + 8)), pos + 8))
    } else {
        None
    }
}

/// Reads a length-prefixed byte string at `pos`.
pub open spec fn spec_read_lp(b: Seq<u8>, pos: int) -> Option<(Seq<u8>, int)> {
    match spec_read_u64(b, pos) {
        None => None,
        Some((len, p)) => {
            if p + len <= b.len() {
                Some((b.subrange(p, p + len), p + len))
            } else {
                None
            }
        },
    }
}

/// Reads an encrypted blob at `pos`, rejecting mis-sized salts and nonces.
pub open spec fn spec_read_blob(b: Seq<u8>, pos: int) -> Option<(EncryptedBlobView, int)> {
    match spec_read_lp(b, pos) {
        None => None,
        Some((cipher, p1)) => match spec_read_lp(b, p1) {
            None => None,
            Some((salt, p2)) => match spec_read_lp(b, p2) {
                None => None,
                Some((nonce, p3)) => {
                    if salt.len() == SALT_LEN && nonce.len() == NONCE_LEN {
                        Some((EncryptedBlobView { cipher, salt, nonce }, p3))
                    } else {
                        None
                    }
                },
            },
        },
    }
}

/// Reads the public parameters at `pos`, rejecting unknown tags.
pub open spec fn spec_read_public(b: Seq<u8>, pos: int) -> Option<(PublicView, int)> {
    match spec_read_u8(b, pos) {
        None => None,
        Some((ct, p1)) => {
            if ct != 0 && ct != 1 {
                None
            } else {
                match spec_read_u8(b, p1) {
                    None => None,
                    Some((kt, p2)) => {
                        if kt != 0 {
                            None
                        } else {
                            match spec_read_lp(b, p2) {
                                None => None,
                                Some((salt, p3)) => {
                                    if salt.len() != SALT_LEN {
                                        None
                                    } else {
                                        match spec_read_u8(b, p3) {
                                            None => None,
                                            Some((et, p4)) => {
                                                if et != 0 {
                                                    None
                                                } else {
                                                    Some(
                                                        (
                                                            PublicView {
                                                                compression_algorithm: if ct == 1 {
                                                                    Some(
                                                                        CompressionAlgorithm::Deflate,
                                                                    )
                                                                } else {
                                                                    None
                                                                },
                                                                key_derivation_algorithm:
                                                                    KeyDerivationAlgorithm::Pbkdf2HmacSha256,
                                                                key_derivation_salt: salt,
                                                                encryption_algorithm:
                                                                    EncryptionAlgorithm::Aes256,
                                                            },
                                                            p4,
                                                        ),
                                                    )
                                                }
                                            },
                                        }
                                    }
                                },
                            }
                        }
                    },
                }
            }
        },
    }
}

/// Reads one locked file entry at `pos`.
pub open spec fn spec_read_file(b: Seq<u8>, pos: int) -> Option<(LockedFileView, int)> {
    match spec_read_blob(b, pos) {
        None => None,
        Some((cipher, p1)) => match spec_read_blob(b, p1) {
            None => None,
            Some((metadata, p2)) => Some((LockedFileView { cipher, metadata }, p2)),
        },
    }
}

/// Reads `n` locked file entries at `pos`, in order.
pub open spec fn spec_read_files(b: Seq<u8>, pos: int, n: nat) -> Option<
    (Seq<LockedFileView>, int),
>
    decreases n,
{
    if n == 0 {
        Some((Seq::empty(), pos))
    } else {
        match spec_read_file(b, pos) {
            None => None,
            Some((f, p1)) => match spec_read_files(b, p1, (n - 1) as nat) {
                None => None,
                Some((fs, p2)) => Some((seq![f] + fs, p2)),
            },
        }
    }
}

/// What these bytes decode to: a locked chest when they are exactly one
/// well-formed archive, nothing otherwise.
pub open spec fn spec_deserialize_chest(b: Seq<u8>) -> Option<LockedChestView> {
    if b.len() < 5 || b.subrange(0, 4) != spec_magic() || b[4] != FORMAT_VERSION {
        None
    } else {
        match spec_read_public(b, 5) {
            None => None,
            Some((public, p1)) => match spec_read_u64(b, p1) {
                None => None,
                Some((n, p2)) => match spec_read_files(b, p2, n as nat) {
                    None => None,
                    Some((files, p3)) => {
                        if p3 == b.len() {
                            Some(LockedChestView { public, files })
                        } else {
                            None
                        }
                    },
                },
            },
        }
    }
}

/// What these bytes decode to as metadata: a filename and a size when they
/// are exactly one well-formed metadata record, nothing otherwise.
pub open spec fn spec_decode_metadata(b: Seq<u8>) -> Option<MetadataView> {
    match spec_read_lp(b, 0) {
        None => None,
        Some((name_bytes, p1)) => {
            if !vstd::utf8::valid_utf8(name_bytes) {
                None
            } else {
                match spec_read_u64(b, p1) {
                    None => None,
                    Some((size, p2)) => {
                        if p2 == b.len() {
                            Some(
                                MetadataView {
                                    filename: vstd::utf8::decode_utf8(name_bytes),
                                    size_bytes: size,
                                },
                            )
                        } else {
                            None
                        }
                    },
                }
            }
        },
    }
}

fn read_u8(bytes: &[u8], pos: usize) -> (r: Option<(u8, usize)>)
    requires
        pos <= bytes@.len(),
    ensures
        r is Some <==> spec_read_u8(bytes@, pos as int) is Some,
        r is Some ==> spec_read_u8(bytes@, pos as int) == Some(((r->0).0, (r->0).1 as int)),
        r is Some ==> pos < (r->0).1 <= bytes@.len(),
{
    if bytes.len() - pos >= 1 {
        let v = *slice_index_get(bytes, pos);
        Some((v, pos + 1))
    } else {
        None
    }
}

fn read_u64(bytes: &[u8], pos: usize) -> (r: Option<(u64, usize)>)
    requires
        pos <= bytes@.len(),
    ensures
        r is Some <==> spec_read_u64(bytes@, pos as int) is Some,
        r is Some ==> spec_read_u64(bytes@, pos as int) == Some(((r->0).0, (r->0).1 as int)),
        r is Some ==> pos < (r->0).1 <= bytes@.len(),
{
    if bytes.len() - pos >= 8 {
        let s = slice_subrange(bytes, pos, pos + 8);
        let v = u64_from_le_bytes(s);
        Some((v, pos + 8))
    } else {
        None
    }
}

fn read_lp(bytes: &[u8], pos: usize) -> (r: Option<(Vec<u8>, usize)>)
    requires
        pos <= bytes@.len(),
    ensures
        r is Some <==> spec_read_lp(bytes@, pos as int) is Some,
        r is Some ==> spec_read_lp(bytes@, pos as int) == Some(((r->0).0@, (r->0).1 as int)),
        r is Some ==> pos < (r->0).1 <= bytes@.len(),
{
    match read_u64(bytes, pos) {
        None => None,
        Some((len, p)) => {
            let remaining = bytes.len() - p;
            if len <= remaining as u64 {
                let end = p + (len as usize);
                let s = slice_subrange(bytes, p, end);
                Some((slice_to_vec(s), end))
            } else {
                None
            }
        },
    }
}

/// Appends a little-endian 64-bit value.
fn push_u64(out: &mut Vec<u8>, x: u64)
    ensures
        final(out)@ == old(out)@ + spec_u64_to_le_bytes(x),
{
    let mut lenb = u64_to_le_bytes(x);
    out.append(&mut lenb);
}

/// Appends a length-prefixed byte string.
fn push_lp(out: &mut Vec<u8>, bytes: &[u8])
    ensures
        final(out)@ == old(out)@ + spec_lp(bytes@),
{
    push_u64(out, bytes.len() as u64);
    out.extend_from_slice(bytes);
    proof {
        assert(out@ =~= old(out)@ + spec_lp(bytes@));
    }
}

/// Appends an encrypted blob.
fn push_blob(out: &mut Vec<u8>, blob: &EncryptedBlob)
    ensures
        final(out)@ == old(out)@ + spec_ser_blob(blob@),
{
    push_lp(out, blob.cipher.as_slice());
    push_lp(out, blob.salt.as_slice());
    push_lp(out, blob.nonce.as_slice());
    proof {
        assert(out@ =~= old(out)@ + spec_ser_blob(blob@));
    }
}

fn read_blob(bytes: &[u8], pos: usize) -> (r: Option<(EncryptedBlob, usize)>)
    requires
        pos <= bytes@.len(),
    ensures
        r is Some <==> spec_read_blob(bytes@, pos as int) is Some,
        r is Some ==> spec_read_blob(bytes@, pos as int) == Some(((r->0).0@, (r->0).1 as int)),
        r is Some ==> (r->0).0@.wf(),
        r is Some ==> pos < (r->0).1 <= bytes@.len(),
{
    match read_lp(bytes, pos) {
        None => None,
        Some((cipher, p1)) => match read_lp(bytes, p1) {
            None => None,
            Some((salt, p2)) => match read_lp(bytes, p2) {
                None => None,
                Some((nonce, p3)) => {
                    if salt.len() == SALT_LEN && nonce.len() == NONCE_LEN {
                        Some((EncryptedBlob { cipher, salt, nonce }, p3))
                    } else {
                        None
                    }
                },
            },
        },
    }
}

fn read_public(bytes: &[u8], pos: usize) -> (r: Option<(Public, usize)>)
    requires
        pos <= bytes@.len(),
    ensures
        r is Some <==> spec_read_public(bytes@, pos as int) is Some,
        r is Some ==> spec_read_public(bytes@, pos as int) == Some(((r->0).0@, (r->0).1 as int)),
        r is Some ==> (r->0).0@.wf(),
        r is Some ==> pos < (r->0).1 <= bytes@.len(),
{
    match read_u8(bytes, pos) {
        None => None,
        Some((ct, p1)) => {
            if ct != 0 && ct != 1 {
                None
            } else {
                let compression_algorithm = if ct == 1 {
                    Some(CompressionAlgorithm::Deflate)
                } else {
                    None
                };
                match read_u8(bytes, p1) {
                    None => None,
                    Some((kt, p2)) => {
                        if kt != 0 {
                            None
                        } else {
                            match read_lp(bytes, p2) {
                                None => None,
                                Some((salt, p3)) => {
                                    if salt.len() != SALT_LEN {
                                        None
                                    } else {
                                        match read_u8(bytes, p3) {
                                            None => None,
                                            Some((et, p4)) => {
                                                if et != 0 {
                                                    None
                                                } else {
                                                    Some(
                                                        (
                                                            Public {
                                                                compression_algorithm,
                                                                key_derivation_algorithm:
                                                                    KeyDerivationAlgorithm::Pbkdf2HmacSha256,
                                                                key_derivation_salt: salt,
                                                                encryption_algorithm:
                                                                    EncryptionAlgorithm::Aes256,
                                                            },
                                                            p4,
                                                        ),
                                                    )
                                                }
                                            },
                                        }
                                    }
                                },
                            }
                        }
                    },
                }
            }
        },
    }
}

fn read_file(bytes: &[u8], pos: usize) -> (r: Option<(LockedFile, usize)>)
    requires
        pos <= bytes@.len(),
    ensures
        r is Some <==> spec_read_file(bytes@, pos as int) is Some,
        r is Some ==> spec_read_file(bytes@, pos as int) == Some(((r->0).0@, (r->0).1 as int)),
        r is Some ==> (r->0).0@.wf(),
        r is Some ==> pos < (r->0).1 <= bytes@.len(),
{
    match read_blob(bytes, pos) {
        None => None,
        Some((cipher, p1)) => match read_blob(bytes, p1) {
            None => None,
            Some((metadata, p2)) => Some((LockedFile { cipher, metadata }, p2)),
        },
    }
}

/// Serializes a locked chest into its archive bytes.
pub fn serialize_chest(chest: &LockedChest) -> (r: Vec<u8>)
    ensures
        r@ == spec_serialize_chest(chest@),
{
    let mut out: Vec<u8> = Vec::new();
    out.push(67);
    out.push(72);
    out.push(83);
    out.push(84);
    out.push(FORMAT_VERSION);
    match chest.public.compression_algorithm {
        None => out.push(0),
        Some(CompressionAlgorithm::Deflate) => out.push(1),
    }
    match chest.public.key_derivation_algorithm {
        KeyDerivationAlgorithm::Pbkdf2HmacSha256 => out.push(0),
    }
    push_lp(&mut out, chest.public.key_derivation_salt.as_slice());
    match chest.public.encryption_algorithm {
        EncryptionAlgorithm::Aes256 => out.push(0),
    }
    push_u64(&mut out, chest.files.len() as u64);
    proof {
        assert(out@ =~= spec_magic() + seq![FORMAT_VERSION] + spec_ser_public(chest@.public)
            + spec_u64_to_le_bytes(chest@.files.len() as u64));
    }
    let ghost prefix: Seq<u8> = out@;
    let n = chest.files.len();
    let mut i: usize = 0;
    while i < n
        invariant
            i <= n,
            n == chest.files@.len(),
            out@ == prefix + spec_ser_files(chest@.files.take(i as int)),
        decreases n - i,
    {
        let f = &chest.files[i];
        push_blob(&mut out, &f.cipher);
        push_blob(&mut out, &f.metadata);
        proof {
            lemma_ser_files_append(chest@.files.take(i as int), seq![chest@.files[i as int]]);
            lemma_ser_files_one(chest@.files[i as int]);
            assert(chest@.files.take(i as int + 1) =~= chest@.files.take(i as int) + seq![
                chest@.files[i as int],
            ]);
            assert(out@ =~= prefix + spec_ser_files(chest@.files.take(i as int + 1)));
        }
        i += 1;
    }
    proof {
        assert(chest@.files.take(n as int) =~= chest@.files);
        assert(out@ =~= spec_serialize_chest(chest@));
    }
    out
}

/// Deserializes archive bytes into a locked chest, failing on anything but
/// exactly one well-formed archive.
pub fn deserialize_chest(bytes: &[u8]) -> (r: ChestResult<LockedChest>)
    ensures
        r is Ok <==> spec_deserialize_chest(bytes@) is Some,
        r is Ok ==> spec_deserialize_chest(bytes@) == Some(r->Ok_0@),
        r is Ok ==> r->Ok_0@.wf(),
        r is Err ==> r->Err_0 == ChestError::Serialization,
{
    if bytes.len() < 5 {
        return Err(ChestError::Serialization);
    }
    let m0 = *slice_index_get(bytes, 0);
    let m1 = *slice_index_get(bytes, 1);
    let m2 = *slice_index_get(bytes, 2);
    let m3 = *slice_index_get(bytes, 3);
    let v = *slice_index_get(bytes, 4);
    if m0 != 67 || m1 != 72 || m2 != 83 || m3 != 84 || v != FORMAT_VERSION {
        proof {
            assert(spec_magic()[0] == 67 && spec_magic()[1] == 72 && spec_magic()[2] == 83
                && spec_magic()[3] == 84);
            if bytes@.subrange(0, 4) == spec_magic() {
                assert(bytes@.subrange(0, 4)[0] == bytes@[0]);
                assert(bytes@.subrange(0, 4)[1] == bytes@[1]);
                assert(bytes@.subrange(0, 4)[2] == bytes@[2]);
                assert(bytes@.subrange(0, 4)[3] == bytes@[3]);
            }
            assert(spec_deserialize_chest(bytes@) is None);
        }
        return Err(ChestError::Serialization);
    }
    proof {
        assert(bytes@.subrange(0, 4) =~= spec_magic());
    }
    let (public, p1) = match read_public(bytes, 5) {
        None => return Err(ChestError::Serialization),
        Some(x) => x,
    };
    let (n, p2) = match read_u64(bytes, p1) {
        None => return Err(ChestError::Serialization),
        Some(x) => x,
    };
    let mut files: Vec<LockedFile> = Vec::new();
    let mut pos = p2;
    let mut i: u64 = 0;
    while i < n
        invariant
            i <= n,
            pos <= bytes@.len(),
            bytes@.len() >= 5,
            bytes@.subrange(0, 4) == spec_magic(),
            bytes@[4] == FORMAT_VERSION,
            spec_read_public(bytes@, 5) == Some((public@, p1 as int)),
            spec_read_u64(bytes@, p1 as int) == Some((n, p2 as int)),
            spec_read_files(bytes@, p2 as int, n as nat) == (match spec_read_files(
                bytes@,
                pos as int,
                (n - i) as nat,
            ) {
                None => None::<(Seq<LockedFileView>, int)>,
                Some((fs, p)) => Some((crate::chest::spec_locked_file_views(files@) + fs, p)),
            }),
            forall|j: int| 0 <= j < files@.len() ==> (#[trigger] files@[j])@.wf(),
        decreases n - i,
    {
        let ghost old_files = files@;
        let ghost old_pos = pos as int;
        let (f, p_new) = match read_file(bytes, pos) {
            None => {
                proof {
                    assert(spec_read_files(bytes@, old_pos, (n - i) as nat) is None);
                    assert(spec_read_files(bytes@, p2 as int, n as nat) is None);
                    assert(bytes@.len() >= 5);
                    assert(bytes@.subrange(0, 4) == spec_magic());
                    assert(bytes@[4] == FORMAT_VERSION);
                    assert(spec_read_public(bytes@, 5) == Some((public@, p1 as int)));
                    assert(spec_read_u64(bytes@, p1 as int) == Some((n, p2 as int)));
                    assert(spec_deserialize_chest(bytes@) is None);
                }
                return Err(ChestError::Serialization);
            },
            Some(x) => x,
        };
        files.push(f);
        pos = p_new;
        i = i + 1;
        proof {
            let k = (n - i) as nat;
            assert(spec_read_files(bytes@, old_pos, (k + 1) as nat) == (match spec_read_files(
                bytes@,
                pos as int,
                k,
            ) {
                None => None::<(Seq<LockedFileView>, int)>,
                Some((fs, p)) => Some((seq![f@] + fs, p)),
            }));
            assert(crate::chest::spec_locked_file_views(files@) =~= crate::chest::spec_locked_file_views(old_files) + seq![f@]);
            if spec_read_files(bytes@, pos as int, k) is Some {
                let (fs, p) = spec_read_files(bytes@, pos as int, k)->0;
                assert(crate::chest::spec_locked_file_views(old_files) + (seq![f@] + fs)
                    =~= (crate::chest::spec_locked_file_views(old_files) + seq![f@]) + fs);
            }
        }
    }
    proof {
        assert(spec_read_files(bytes@, p2 as int, n as nat) == Some((
            crate::chest::spec_locked_file_views(files@) + Seq::<LockedFileView>::empty(),
            pos as int,
        )));
        assert(crate::chest::spec_locked_file_views(files@) + Seq::<LockedFileView>::empty()
            =~= crate::chest::spec_locked_file_views(files@));
    }
    if pos != bytes.len() {
        return Err(ChestError::Serialization);
    }
    Ok(LockedChest { public, files })
}

/// Relies on `String::from_utf8`: it succeeds exactly on valid UTF-8 input
/// and returns the string those bytes encode.
#[verifier::external_body]
fn bytes_to_string(bytes: Vec<u8>) -> (r: Option<String>)
    ensures
        r is Some <==> vstd::utf8::valid_utf8(bytes@),
        r is Some ==> vstd::utf8::encode_utf8((r->0)@) == bytes@,
{
    match String::from_utf8(bytes) {
        Ok(s) => Some(s),
        Err(_) => None,
    }
}

/// Encodes file metadata into the bytes that are sealed into a locked file.
pub fn encode_metadata(m: &Metadata) -> (r: Vec<u8>)
    ensures
        r@ == spec_encode_metadata(m@),
{
    let mut out: Vec<u8> = Vec::new();
    let name_bytes = m.filename.as_str().as_bytes_vec();
    push_lp(&mut out, name_bytes.as_slice());
    push_u64(&mut out, m.size_bytes);
    proof {
        assert(out@ =~= spec_encode_metadata(m@));
    }
    out
}

/// Decodes sealed metadata bytes, failing on anything but exactly one
/// well-formed metadata record.
pub fn decode_metadata(bytes: &[u8]) -> (r: Option<Metadata>)
    ensures
        r is Some <==> spec_decode_metadata(bytes@) is Some,
        r is Some ==> spec_decode_metadata(bytes@) == Some((r->0)@),
{
    match read_lp(bytes, 0) {
        None => None,
        Some((name_bytes, p1)) => {
            let ghost name_seq = name_bytes@;
            match bytes_to_string(name_bytes) {
                None => None,
                Some(filename) => {
                    proof {
                        vstd::utf8::encode_utf8_decode_utf8(filename@);
                    }
                    match read_u64(bytes, p1) {
                        None => None,
                        Some((size, p2)) => {
                            if p2 == bytes.len() {
                                Some(Metadata { filename, size_bytes: size })
                            } else {
                                None
                            }
                        },
                    }
                },
            }
        },
    }
}

proof fn lemma_read_u64_at(b: Seq<u8>, pos: int, x: u64)
    requires
        0 <= pos,
        pos + 8 <= b.len(),
        b.subrange(pos, pos + 8) == spec_u64_to_le_bytes(x),
    ensures
        spec_read_u64(b, pos) == Some((x, pos + 8)),
{
    lemma_auto_spec_u64_to_from_le_bytes();
}

proof fn lemma_read_lp_at(b: Seq<u8>, pos: int, s: Seq<u8>)
    requires
        0 <= pos,
        s.len() <= u64::MAX,
        pos + 8 + s.len() <= b.len(),
        b.subrange(pos, pos + 8 + s.len()) == spec_lp(s),
    ensures
        spec_read_lp(b, pos) == Some((s, pos + 8 + s.len())),
{
    lemma_auto_spec_u64_to_from_le_bytes();
    let w = b.subrange(pos, pos + 8 + s.len());
    assert(spec_u64_to_le_bytes(s.len() as u64).len() == 8);
    assert(b.subrange(pos, pos + 8) =~= w.subrange(0, 8));
    assert(w.subrange(0, 8) =~= spec_u64_to_le_bytes(s.len() as u64));
    lemma_read_u64_at(b, pos, s.len() as u64);
    assert(b.subrange(pos + 8, pos + 8 + s.len()) =~= w.subrange(8, 8 + s.len() as int));
    assert(w.subrange(8, 8 + s.len() as int) =~= s);
}

proof fn lemma_read_blob_at(b: Seq<u8>, pos: int, blob: EncryptedBlobView)
    requires
        0 <= pos,
        blob.wf(),
        blob.fits(),
        pos + spec_ser_blob(blob).len() <= b.len(),
        b.subrange(pos, pos + spec_ser_blob(blob).len()) == spec_ser_blob(blob),
    ensures
        spec_read_blob(b, pos) == Some((blob, pos + spec_ser_blob(blob).len())),
{
    lemma_auto_spec_u64_to_from_le_bytes();
    let c = blob.cipher;
    let s = blob.salt;
    let n = blob.nonce;
    let total = spec_ser_blob(blob).len() as int;
    assert(total == 24 + c.len() + s.len() + n.len());
    let w = b.subrange(pos, pos + total);
    let p1 = pos + 8 + c.len();
    let p2 = p1 + 8 + s.len();
    let p3 = p2 + 8 + n.len();
    assert(b.subrange(pos, p1) =~= w.subrange(0, p1 - pos));
    assert(w.subrange(0, p1 - pos) =~= spec_lp(c));
    lemma_read_lp_at(b, pos, c);
    assert(b.subrange(p1, p2) =~= w.subrange(p1 - pos, p2 - pos));
    assert(w.subrange(p1 - pos, p2 - pos) =~= spec_lp(s));
    lemma_read_lp_at(b, p1, s);
    assert(b.subrange(p2, p3) =~= w.subrange(p2 - pos, p3 - pos));
    assert(w.subrange(p2 - pos, p3 - pos) =~= spec_lp(n));
    lemma_read_lp_at(b, p2, n);
    assert(spec_read_blob(b, pos) == Some((blob, p3)));
}

proof fn lemma_read_public_at(b: Seq<u8>, pos: int, p: PublicView)
    requires
        0 <= pos,
        p.wf(),
        pos + spec_ser_public(p).len() <= b.len(),
        b.subrange(pos, pos + spec_ser_public(p).len()) == spec_ser_public(p),
    ensures
        spec_read_public(b, pos) == Some((p, pos + spec_ser_public(p).len())),
{
    lemma_auto_spec_u64_to_from_le_bytes();
    let salt = p.key_derivation_salt;
    let total = spec_ser_public(p).len() as int;
    assert(total == 11 + salt.len());
    let w = b.subrange(pos, pos + total);
    assert(b[pos] == w[0] && w[0] == spec_compression_tag(p.compression_algorithm));
    assert(b[pos + 1] == w[1] && w[1] == spec_kdf_tag(p.key_derivation_algorithm));
    assert(b.subrange(pos + 2, pos + 10 + salt.len()) =~= w.subrange(2, 10 + salt.len() as int));
    assert(w.subrange(2, 10 + salt.len() as int) =~= spec_lp(salt));
    lemma_read_lp_at(b, pos + 2, salt);
    assert(b[pos + 10 + salt.len()] == w[10 + salt.len() as int] && w[10 + salt.len() as int]
        == spec_enc_tag(p.encryption_algorithm));
    assert(p.key_derivation_algorithm == KeyDerivationAlgorithm::Pbkdf2HmacSha256);
    assert(p.encryption_algorithm == EncryptionAlgorithm::Aes256);
    match p.compression_algorithm {
        None => {
            assert(spec_compression_tag(p.compression_algorithm) == 0);
        },
        Some(CompressionAlgorithm::Deflate) => {
            assert(spec_compression_tag(p.compression_algorithm) == 1);
        },
    }
    assert(spec_kdf_tag(p.key_derivation_algorithm) == 0);
    assert(spec_enc_tag(p.encryption_algorithm) == 0);
    assert(spec_read_u8(b, pos) == Some((spec_compression_tag(p.compression_algorithm), pos + 1)));
    assert(spec_read_u8(b, pos + 1) == Some((0u8, pos + 2)));
    assert(spec_read_lp(b, pos + 2) == Some((salt, pos + 10 + salt.len())));
    assert(spec_read_u8(b, pos + 10 + salt.len()) == Some((0u8, pos + 11 + salt.len())));
    let parsed = spec_read_public(b, pos);
    assert(parsed is Some);
    let q = (parsed->0).0;
    let p4 = (parsed->0).1;
    assert(q.compression_algorithm == p.compression_algorithm);
    assert(q.key_derivation_algorithm == p.key_derivation_algorithm);
    assert(q.key_derivation_salt == p.key_derivation_salt);
    assert(q.encryption_algorithm == p.encryption_algorithm);
    assert(q == p);
    assert(p4 == pos + total);
    assert(spec_read_public(b, pos) == Some((p, pos + total)));
}

proof fn lemma_read_file_at(b: Seq<u8>, pos: int, f: LockedFileView)
    requires
        0 <= pos,
        f.wf(),
        f.fits(),
        pos + spec_ser_file(f).len() <= b.len(),
        b.subrange(pos, pos + spec_ser_file(f).len()) == spec_ser_file(f),
    ensures
        spec_read_file(b, pos) == Some((f, pos + spec_ser_file(f).len())),
{
    let p1 = pos + spec_ser_blob(f.cipher).len();
    let p2 = p1 + spec_ser_blob(f.metadata).len();
    let w = b.subrange(pos, p2);
    assert(b.subrange(pos, p1) =~= w.subrange(0, p1 - pos));
    assert(w.subrange(0, p1 - pos) =~= spec_ser_blob(f.cipher));
    lemma_read_blob_at(b, pos, f.cipher);
    assert(b.subrange(p1, p2) =~= w.subrange(p1 - pos, p2 - pos));
    assert(w.subrange(p1 - pos, p2 - pos) =~= spec_ser_blob(f.metadata));
    lemma_read_blob_at(b, p1, f.metadata);
    assert(spec_read_file(b, pos) == Some((f, p2)));
}

proof fn lemma_read_files_at(b: Seq<u8>, pos: int, files: Seq<LockedFileView>)
    requires
        0 <= pos,
        forall|i: int|
            0 <= i < files.len() ==> (#[trigger] files[i]).wf() && (#[trigger] files[i]).fits(),
        pos + spec_ser_files(files).len() <= b.len(),
        b.subrange(pos, pos + spec_ser_files(files).len()) == spec_ser_files(files),
    ensures
        spec_read_files(b, pos, files.len()) == Some((files, pos + spec_ser_files(files).len())),
    decreases files.len(),
{
    if files.len() == 0 {
        assert(files =~= Seq::<LockedFileView>::empty());
    } else {
        let f = files.first();
        let rest = files.drop_first();
        let p1 = pos + spec_ser_file(f).len();
        let p2 = p1 + spec_ser_files(rest).len();
        let w = b.subrange(pos, p2);
        assert(b.subrange(pos, p1) =~= w.subrange(0, p1 - pos));
        assert(w.subrange(0, p1 - pos) =~= spec_ser_file(f));
        lemma_read_file_at(b, pos, f);
        assert(b.subrange(p1, p2) =~= w.subrange(p1 - pos, p2 - pos));
        assert(w.subrange(p1 - pos, p2 - pos) =~= spec_ser_files(rest));
        lemma_read_files_at(b, p1, rest);
        assert(seq![f] + rest =~= files);
        assert(spec_read_files(b, pos, files.len()) == Some(
            (files, pos + spec_ser_files(files).len()),
        ));
    }
}

/// Serializing a well-formed locked chest and deserializing the bytes
/// yields the chest again: the archive layout loses nothing.
pub proof fn lemma_chest_round_trip(c: LockedChestView)
    requires
        c.wf(),
        c.fits(),
    ensures
        spec_deserialize_chest(spec_serialize_chest(c)) == Some(c),
{
    lemma_auto_spec_u64_to_from_le_bytes();
    let b = spec_serialize_chest(c);
    let pub_len = spec_ser_public(c.public).len() as int;
    assert(b.len() == 5 + pub_len + 8 + spec_ser_files(c.files).len());
    assert(b.subrange(0, 4) =~= spec_magic());
    assert(b[4] == FORMAT_VERSION);
    assert(b.subrange(5, 5 + pub_len) =~= spec_ser_public(c.public));
    lemma_read_public_at(b, 5, c.public);
    let p1 = 5 + pub_len;
    assert(b.subrange(p1, p1 + 8) =~= spec_u64_to_le_bytes(c.files.len() as u64));
    lemma_read_u64_at(b, p1, c.files.len() as u64);
    let p2 = p1 + 8;
    assert(b.subrange(p2, p2 + spec_ser_files(c.files).len()) =~= spec_ser_files(c.files));
    lemma_read_files_at(b, p2, c.files);
    assert((c.files.len() as u64) as nat == c.files.len());
    assert(spec_deserialize_chest(b) == Some(c));
}

/// Encoding file metadata and decoding the bytes yields the metadata
/// again: the record sealed into a locked file loses nothing.
pub proof fn lemma_metadata_round_trip(m: MetadataView)
    requires
        vstd::utf8::encode_utf8(m.filename).len() <= u64::MAX,
    ensures
        spec_decode_metadata(spec_encode_metadata(m)) == Some(m),
{
    lemma_auto_spec_u64_to_from_le_bytes();
    let nb = vstd::utf8::encode_utf8(m.filename);
    let nbl = nb.len() as int;
    let b = spec_encode_metadata(m);
    assert(b.len() == 8 + nbl + 8);
    assert(b.subrange(0, 8 + nbl) =~= spec_lp(nb));
    lemma_read_lp_at(b, 0, nb);
    vstd::utf8::encode_utf8_valid_utf8(m.filename);
    vstd::utf8::encode_utf8_decode_utf8(m.filename);
    assert(b.subrange(8 + nbl, 8 + nbl + 8) =~= spec_u64_to_le_bytes(m.size_bytes));
    lemma_read_u64_at(b, 8 + nbl, m.size_bytes);
    assert(spec_decode_metadata(b) == Some(m));
}

/// One file entry alone is stored as exactly its own encoding.
proof fn lemma_ser_files_one(f: LockedFileView)
    ensures
        spec_ser_files(seq![f]) == spec_ser_file(f),
{
    let s = seq![f];
    assert(s.len() == 1);
    assert(s.first() == f);
    assert(s.drop_first() =~= Seq::<LockedFileView>::empty());
    assert(spec_ser_files(s.drop_first()).len() == 0);
    assert(spec_ser_files(s) =~= spec_ser_file(f));
}

/// Appending two runs of file entries stores the first run, then the
/// second.
proof fn lemma_ser_files_append(a: Seq<LockedFileView>, b: Seq<LockedFileView>)
    ensures
        spec_ser_files(a + b) == spec_ser_files(a) + spec_ser_files(b),
    decreases a.len(),
{
    if a.len() == 0 {
        assert(a + b =~= b);
        assert(spec_ser_files(a) + spec_ser_files(b) =~= spec_ser_files(b));
    } else {
        assert((a + b).first() == a.first());
        assert((a + b).drop_first() =~= a.drop_first() + b);
        lemma_ser_files_append(a.drop_first(), b);
        assert(spec_ser_files(a + b) =~= spec_ser_files(a) + spec_ser_files(b));
    }
}

} // verus!
