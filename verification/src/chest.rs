//! The chest itself: public parameters, file entries, and the two states of
//! the archive. An [`UnlockedChest`] holds the derived key in memory and
//! plaintext metadata; a [`LockedChest`] holds only ciphertext and public
//! parameters and is the only form that is ever serialized. The states are
//! separate types, and `lock` / `unlock` consume their input, so "add a
//! file" is only possible before locking and serialization only after — a
//! structural guarantee, not a runtime check.

use vstd::prelude::*;

use crate::archive::{encode_metadata, spec_decode_metadata, spec_encode_metadata};
use crate::compression::{deflate_of, get_compressor, inflated, Compress};
use crate::crypto::{
    get_encryptor, opened, sealed, Encrypt, EncryptedBlob, EncryptedBlobView, KEY_LEN, SALT_LEN,
    TAG_LEN,
};
use crate::error::{ChestError, ChestResult};
use crate::key::{derived_key, get_deriver, password_fits, Derive};
use crate::random::generate_random_bytes;

verus! {

/// Compression applied to file content before encryption.
#[derive(Clone, Copy, Debug, PartialEq, Eq, Structural)]
pub enum CompressionAlgorithm {
    Deflate,
}

/// The cipher suite sealing file content and metadata.
#[derive(Clone, Copy, Debug, PartialEq, Eq, Structural)]
pub enum EncryptionAlgorithm {
    Aes256,
}

/// The schedule deriving a symmetric key from the password.
#[derive(Clone, Copy, Debug, PartialEq, Eq, Structural)]
pub enum KeyDerivationAlgorithm {
    Pbkdf2HmacSha256,
}

/// The chest's public parameters: never encrypted, visible to anyone who
/// holds the archive file. The key-derivation salt is fixed at chest
/// creation and reused for every derive call against this chest.
#[derive(Debug)]
pub struct Public {
    pub compression_algorithm: Option<CompressionAlgorithm>,
    pub key_derivation_algorithm: KeyDerivationAlgorithm,
    pub key_derivation_salt: Vec<u8>,
    pub encryption_algorithm: EncryptionAlgorithm,
}

/// The mathematical shape of [`Public`].
pub ghost struct PublicView {
    pub compression_algorithm: Option<CompressionAlgorithm>,
    pub key_derivation_algorithm: KeyDerivationAlgorithm,
    pub key_derivation_salt: Seq<u8>,
    pub encryption_algorithm: EncryptionAlgorithm,
}

impl PublicView {
    /// The key-derivation salt has the size fixed at creation.
    pub open spec fn wf(self) -> bool {
        self.key_derivation_salt.len() == SALT_LEN
    }
}

impl View for Public {
    type V = PublicView;

    open spec fn view(&self) -> PublicView {
        PublicView {
            compression_algorithm: self.compression_algorithm,
            key_derivation_algorithm: self.key_derivation_algorithm,
            key_derivation_salt: self.key_derivation_salt@,
            encryption_algorithm: self.encryption_algorithm,
        }
    }
}

/// What a chest records about one file: its name and its original size.
#[derive(Debug)]
pub struct Metadata {
    pub filename: String,
    pub size_bytes: u64,
}

/// The mathematical shape of [`Metadata`].
pub ghost struct MetadataView {
    pub filename: Seq<char>,
    pub size_bytes: u64,
}

impl View for Metadata {
    type V = MetadataView;

    open spec fn view(&self) -> MetadataView {
        MetadataView { filename: self.filename@, size_bytes: self.size_bytes }
    }
}

/// A file entry while the chest is unlocked: sealed content, plaintext
/// metadata in memory.
#[derive(Debug)]
pub struct UnlockedFile {
    pub cipher: EncryptedBlob,
    pub metadata: Metadata,
}

/// The mathematical shape of an [`UnlockedFile`].
pub ghost struct UnlockedFileView {
    pub cipher: EncryptedBlobView,
    pub metadata: MetadataView,
}

impl View for UnlockedFile {
    type V = UnlockedFileView;

    open spec fn view(&self) -> UnlockedFileView {
        UnlockedFileView { cipher: self.cipher@, metadata: self.metadata@ }
    }
}

/// A file entry while the chest is locked: both the content and the
/// serialized metadata are sealed, independently, under the derived key.
#[derive(Debug)]
pub struct LockedFile {
    pub cipher: EncryptedBlob,
    pub metadata: EncryptedBlob,
}

/// The mathematical shape of a [`LockedFile`].
pub ghost struct LockedFileView {
    pub cipher: EncryptedBlobView,
    pub metadata: EncryptedBlobView,
}

impl LockedFileView {
    pub open spec fn wf(self) -> bool {
        self.cipher.wf() && self.metadata.wf()
    }

    /// Both ciphertexts are short enough for 64-bit length prefixes.
    pub open spec fn fits(self) -> bool {
        self.cipher.fits() && self.metadata.fits()
    }
}

impl View for LockedFile {
    type V = LockedFileView;

    open spec fn view(&self) -> LockedFileView {
        LockedFileView { cipher: self.cipher@, metadata: self.metadata@ }
    }
}

/// The views of a sequence of unlocked file entries, in order.
pub open spec fn spec_unlocked_file_views(files: Seq<UnlockedFile>) -> Seq<UnlockedFileView> {
    Seq::new(files.len(), |i: int| files[i]@)
}

/// The views of a sequence of locked file entries, in order.
pub open spec fn spec_locked_file_views(files: Seq<LockedFile>) -> Seq<LockedFileView> {
    Seq::new(files.len(), |i: int| files[i]@)
}

/// A chest holding its derived key in memory. Never serialized: the key is
/// re-derived from the password on demand and exists only in this state.
#[derive(Debug)]
pub struct UnlockedChest {
    key: Vec<u8>,
    pub public: Public,
    pub files: Vec<UnlockedFile>,
}

/// The mathematical shape of an [`UnlockedChest`].
pub ghost struct UnlockedChestView {
    pub key: Seq<u8>,
    pub public: PublicView,
    pub files: Seq<UnlockedFileView>,
}

impl UnlockedChestView {
    pub open spec fn wf(self) -> bool {
        &&& self.key.len() == KEY_LEN
        &&& self.public.wf()
        &&& forall|i: int| 0 <= i < self.files.len() ==> (#[trigger] self.files[i]).cipher.wf()
    }
}

impl View for UnlockedChest {
    type V = UnlockedChestView;

    closed spec fn view(&self) -> UnlockedChestView {
        UnlockedChestView {
            key: self.key@,
            public: self.public@,
            files: spec_unlocked_file_views(self.files@),
        }
    }
}

/// A chest holding only ciphertext and public parameters: the only form
/// ever written to or read from storage.
#[derive(Debug)]
pub struct LockedChest {
    pub public: Public,
    pub files: Vec<LockedFile>,
}

/// The mathematical shape of a [`LockedChest`].
pub ghost struct LockedChestView {
    pub public: PublicView,
    pub files: Seq<LockedFileView>,
}

impl LockedChestView {
    pub open spec fn wf(self) -> bool {
        &&& self.public.wf()
        &&& forall|i: int| 0 <= i < self.files.len() ==> (#[trigger] self.files[i]).wf()
    }

    /// Every length stored in the archive fits a 64-bit prefix. A chest
    /// built in memory always does; the bound only matters for the
    /// serializer's mathematical round trip.
    pub open spec fn fits(self) -> bool {
        &&& self.public.key_derivation_salt.len() <= u64::MAX
        &&& self.files.len() <= u64::MAX
        &&& forall|i: int| 0 <= i < self.files.len() ==> (#[trigger] self.files[i]).fits()
    }
}

impl View for LockedChest {
    type V = LockedChestView;

    open spec fn view(&self) -> LockedChestView {
        LockedChestView {
            public: self.public@,
            files: spec_locked_file_views(self.files@),
        }
    }
}

/// One file restored from a chest: its recorded name and its plaintext.
#[derive(Debug)]
pub struct ExtractedFile {
    pub filename: String,
    pub content: Vec<u8>,
}

/// The mathematical shape of an [`ExtractedFile`].
pub ghost struct ExtractedFileView {
    pub filename: Seq<char>,
    pub content: Seq<u8>,
}

impl View for ExtractedFile {
    type V = ExtractedFileView;

    open spec fn view(&self) -> ExtractedFileView {
        ExtractedFileView { filename: self.filename@, content: self.content@ }
    }
}

/// What a payload looks like in storage: deflated when this chest
/// compresses, the payload itself when it does not.
pub open spec fn spec_stored_payload(public: PublicView, payload: Seq<u8>) -> Seq<u8> {
    if public.compression_algorithm is Some {
        deflate_of(payload)
    } else {
        payload
    }
}

/// What unlocking a run of locked files under this key yields: every entry
/// restored in order, or the failure of the first entry that does not
/// unlock — authentication first, then decoding.
pub open spec fn spec_unlock_files(key: Seq<u8>, files: Seq<LockedFileView>) -> Result<
    Seq<UnlockedFileView>,
    ChestError,
>
    decreases files.len(),
{
    if files.len() == 0 {
        Ok(Seq::empty())
    } else {
        match opened(key, files.first().metadata.nonce, files.first().metadata.cipher) {
            None => Err(ChestError::Authentication),
            Some(meta_bytes) => match spec_decode_metadata(meta_bytes) {
                None => Err(ChestError::Serialization),
                Some(m) => match spec_unlock_files(key, files.drop_first()) {
                    Err(e) => Err(e),
                    Ok(rest) => Ok(
                        seq![
                            UnlockedFileView { cipher: files.first().cipher, metadata: m },
                        ] + rest,
                    ),
                },
            },
        }
    }
}

/// What extracting one unlocked file yields: its plaintext when the
/// content blob authenticates (and, where the chest compresses, the stored
/// stream inflates), or the matching failure.
pub open spec fn spec_extract_file(
    key: Seq<u8>,
    public: PublicView,
    f: UnlockedFileView,
) -> Result<Seq<u8>, ChestError> {
    match opened(key, f.cipher.nonce, f.cipher.cipher) {
        None => Err(ChestError::Authentication),
        Some(stored) => {
            if public.compression_algorithm is Some {
                match inflated(stored) {
                    None => Err(ChestError::Compression),
                    Some(payload) => Ok(payload),
                }
            } else {
                Ok(stored)
            }
        },
    }
}

/// What extracting a run of unlocked files yields: every plaintext with
/// its filename in order, or the failure of the first file that does not
/// extract.
pub open spec fn spec_extract_all(
    key: Seq<u8>,
    public: PublicView,
    files: Seq<UnlockedFileView>,
) -> Result<Seq<ExtractedFileView>, ChestError>
    decreases files.len(),
{
    if files.len() == 0 {
        Ok(Seq::empty())
    } else {
        match spec_extract_file(key, public, files.first()) {
            Err(e) => Err(e),
            Ok(content) => match spec_extract_all(key, public, files.drop_first()) {
                Err(e) => Err(e),
                Ok(rest) => Ok(
                    seq![
                        ExtractedFileView { filename: files.first().metadata.filename, content },
                    ] + rest,
                ),
            },
        }
    }
}

/// Locking and then unlocking with the same password restores every file
/// exactly, in order. The premises are precisely what `lock` ensures of
/// its result under the derived key: each content blob carried over
/// unchanged and each metadata blob opening back to the entry's encoded
/// metadata. Unlocking under that same key then yields the original
/// entries.
pub proof fn lemma_lock_unlock_round_trip(
    dk: Seq<u8>,
    files: Seq<UnlockedFileView>,
    locked: Seq<LockedFileView>,
)
    requires
        locked.len() == files.len(),
        forall|i: int|
            0 <= i < files.len() ==> (#[trigger] locked[i]).cipher == files[i].cipher,
        forall|i: int|
            0 <= i < files.len() ==> opened(
                dk,
                (#[trigger] locked[i]).metadata.nonce,
                locked[i].metadata.cipher,
            ) == Some(spec_encode_metadata(files[i].metadata)),
        forall|i: int|
            0 <= i < files.len() ==> vstd::utf8::encode_utf8(
                (#[trigger] files[i]).metadata.filename,
            ).len() <= u64::MAX,
    ensures
        spec_unlock_files(dk, locked) == Ok::<Seq<UnlockedFileView>, ChestError>(files),
    decreases files.len(),
{
    if files.len() == 0 {
        assert(locked =~= Seq::<LockedFileView>::empty());
        assert(files =~= Seq::<UnlockedFileView>::empty());
    } else {
        assert(locked.first() == locked[0]);
        crate::archive::lemma_metadata_round_trip(files[0].metadata);
        let locked_rest = locked.drop_first();
        let files_rest = files.drop_first();
        assert forall|i: int| 0 <= i < files_rest.len() implies (#[trigger] locked_rest[i]).cipher
            == files_rest[i].cipher by {
            assert(locked[i + 1].cipher == files[i + 1].cipher);
        }
        assert forall|i: int| 0 <= i < files_rest.len() implies opened(
            dk,
            (#[trigger] locked_rest[i]).metadata.nonce,
            locked_rest[i].metadata.cipher,
        ) == Some(spec_encode_metadata(files_rest[i].metadata)) by {
            assert(opened(dk, locked[i + 1].metadata.nonce, locked[i + 1].metadata.cipher) == Some(
                spec_encode_metadata(files[i + 1].metadata),
            ));
        }
        assert forall|i: int| 0 <= i < files_rest.len() implies vstd::utf8::encode_utf8(
            (#[trigger] files_rest[i]).metadata.filename,
        ).len() <= u64::MAX by {
            assert(vstd::utf8::encode_utf8(files[i + 1].metadata.filename).len() <= u64::MAX);
        }
        lemma_lock_unlock_round_trip(dk, files_rest, locked_rest);
        assert(UnlockedFileView { cipher: locked[0].cipher, metadata: files[0].metadata }
            == files[0]);
        assert(seq![files[0]] + files_rest =~= files);
    }
}

/// A locked chest whose first metadata blob does not authenticate under a
/// key never unlocks under that key: the unlock reports the distinct
/// authentication failure and produces no entries — no unlocked chest and
/// no filenames. That a key derived from a wrong password fails to
/// authenticate is the cipher's own guarantee and stands here as the
/// hypothesis.
pub proof fn lemma_unlock_wrong_key_fails(key: Seq<u8>, files: Seq<LockedFileView>)
    requires
        files.len() >= 1,
        opened(key, files[0].metadata.nonce, files[0].metadata.cipher) is None,
    ensures
        spec_unlock_files(key, files) == Err::<Seq<UnlockedFileView>, ChestError>(
            ChestError::Authentication,
        ),
{
    assert(files.first() == files[0]);
}

impl UnlockedChest {
    /// Creates a fresh chest: default public parameters with compression
    /// set exactly when asked for, a key-derivation salt drawn fresh for
    /// this chest — so equal passwords on different chests derive
    /// different keys — and the key derived from the password against that
    /// salt. The file list starts empty.
    pub fn new(password: &str, compress: bool) -> (r: ChestResult<UnlockedChest>)
        requires
            password_fits(password@),
        ensures
            r is Ok ==> (r->Ok_0)@.wf(),
            r is Ok ==> (r->Ok_0)@.files.len() == 0,
            r is Ok ==> (r->Ok_0)@.public.compression_algorithm == (if compress {
                Some(CompressionAlgorithm::Deflate)
            } else {
                None::<CompressionAlgorithm>
            }),
            r is Ok ==> (r->Ok_0)@.public.key_derivation_algorithm
                == KeyDerivationAlgorithm::Pbkdf2HmacSha256,
            r is Ok ==> (r->Ok_0)@.public.encryption_algorithm == EncryptionAlgorithm::Aes256,
            r is Ok ==> (r->Ok_0)@.key == derived_key(
                password@,
                (r->Ok_0)@.public.key_derivation_salt,
            ),
            r is Err ==> r->Err_0 == ChestError::Crypto,
    {
        let key_derivation_salt = generate_random_bytes(SALT_LEN)?;
        let public = Public {
            compression_algorithm: if compress {
                Some(CompressionAlgorithm::Deflate)
            } else {
                None
            },
            key_derivation_algorithm: KeyDerivationAlgorithm::Pbkdf2HmacSha256,
            key_derivation_salt,
            encryption_algorithm: EncryptionAlgorithm::Aes256,
        };
        let deriver = get_deriver(&public.key_derivation_algorithm);
        let key = deriver.derive(password, public.key_derivation_salt.as_slice());
        Ok(UnlockedChest { key, public, files: Vec::new() })
    }

    /// Stores one payload in the chest: compresses it when the chest's
    /// parameters say so, seals the stored form under the chest's key with
    /// a fresh salt and nonce, and appends the entry. Earlier entries, the
    /// parameters and the key are untouched; on failure the chest is
    /// unchanged.
    pub fn add_file_from_cipher(&mut self, payload: Vec<u8>, metadata: Metadata) -> (r: ChestResult<
        (),
    >)
        requires
            old(self)@.wf(),
        ensures
            final(self)@.wf(),
            final(self)@.public == old(self)@.public,
            final(self)@.key == old(self)@.key,
            r is Ok ==> final(self)@.files.len() == old(self)@.files.len() + 1,
            r is Ok ==> final(self)@.files.take(old(self)@.files.len() as int) == old(
                self,
            )@.files,
            r is Ok ==> {
                let f = final(self)@.files.last();
                let stored = spec_stored_payload(old(self)@.public, payload@);
                &&& f.metadata == metadata@
                &&& f.cipher.wf()
                &&& f.cipher.cipher == sealed(old(self)@.key, f.cipher.nonce, stored)
                &&& f.cipher.cipher.len() == stored.len() + TAG_LEN
                &&& opened(old(self)@.key, f.cipher.nonce, f.cipher.cipher) == Some(stored)
                &&& (old(self)@.public.compression_algorithm is Some ==> inflated(stored)
                    == Some(payload@))
            },
            r is Err ==> final(self)@ == old(self)@,
            r is Err ==> r->Err_0 == ChestError::Crypto,
    {
        let encryptor = get_encryptor(&self.public.encryption_algorithm);
        let stored = match &self.public.compression_algorithm {
            Some(compression_algorithm) => {
                let compressor = get_compressor(compression_algorithm);
                compressor.compress(payload)?
            },
            None => payload,
        };
        let blob = encryptor.encrypt(stored, self.key.as_slice())?;
        let file = UnlockedFile { cipher: blob, metadata };
        let ghost old_files = self.files@;
        let ghost fv = file@;
        self.files.push(file);
        proof {
            assert(spec_unlocked_file_views(self.files@) =~= spec_unlocked_file_views(
                old_files,
            ).push(fv));
            assert(spec_unlocked_file_views(self.files@).take(old_files.len() as int)
                =~= spec_unlocked_file_views(old_files));
            assert forall|j: int| 0 <= j < self@.files.len() implies (#[trigger] self@.files[j])
                .cipher.wf() by {
                if j < old_files.len() {
                    assert(self@.files[j] == old(self)@.files[j]);
                } else {
                    assert(self@.files[j] == fv);
                }
            }
        }
        Ok(())
    }

    /// Locks the chest: re-derives the key from the password, seals each
    /// entry's encoded metadata under it — fresh salt and nonce per entry
    /// — and keeps every content blob unchanged, in order. Consumes the
    /// chest; on failure nothing is produced.
    pub fn lock(self, password: &str) -> (r: ChestResult<LockedChest>)
        requires
            self@.wf(),
            password_fits(password@),
        ensures
            r is Ok ==> (r->Ok_0)@.wf(),
            r is Ok ==> (r->Ok_0)@.public == self@.public,
            r is Ok ==> (r->Ok_0)@.files.len() == self@.files.len(),
            r is Ok ==> forall|i: int|
                0 <= i < self@.files.len() ==> (#[trigger] (r->Ok_0)@.files[i]).cipher
                    == self@.files[i].cipher,
            r is Ok ==> forall|i: int|
                0 <= i < self@.files.len() ==> {
                    let dk = derived_key(password@, self@.public.key_derivation_salt);
                    let meta = (#[trigger] (r->Ok_0)@.files[i]).metadata;
                    &&& meta.cipher == sealed(
                        dk,
                        meta.nonce,
                        spec_encode_metadata(self@.files[i].metadata),
                    )
                    &&& meta.cipher.len() == spec_encode_metadata(self@.files[i].metadata).len()
                        + TAG_LEN
                    &&& opened(dk, meta.nonce, meta.cipher) == Some(
                        spec_encode_metadata(self@.files[i].metadata),
                    )
                },
            r is Err ==> r->Err_0 == ChestError::Crypto,
    {
        let deriver = get_deriver(&self.public.key_derivation_algorithm);
        let encryptor = get_encryptor(&self.public.encryption_algorithm);
        let key = deriver.derive(password, self.public.key_derivation_salt.as_slice());
        let ghost dk = derived_key(password@, self@.public.key_derivation_salt);
        let mut locked: Vec<LockedFile> = Vec::new();
        let n = self.files.len();
        let mut i: usize = 0;
        while i < n
            invariant
                i <= n,
                n == self@.files.len(),
                self@.wf(),
                key@ == dk,
                key@.len() == KEY_LEN,
                locked@.len() == i,
                forall|j: int|
                    0 <= j < i as int ==> (#[trigger] locked@[j])@.cipher == self@.files[j].cipher,
                forall|j: int| 0 <= j < i as int ==> (#[trigger] locked@[j])@.metadata.wf(),
                forall|j: int|
                    0 <= j < i as int ==> {
                        let meta = (#[trigger] locked@[j])@.metadata;
                        &&& meta.cipher == sealed(
                            dk,
                            meta.nonce,
                            spec_encode_metadata(self@.files[j].metadata),
                        )
                        &&& meta.cipher.len() == spec_encode_metadata(self@.files[j].metadata).len()
                            + TAG_LEN
                        &&& opened(dk, meta.nonce, meta.cipher) == Some(
                            spec_encode_metadata(self@.files[j].metadata),
                        )
                    },
            decreases n - i,
        {
            let f = &self.files[i];
            proof {
                assert(f@ == self@.files[i as int]);
            }
            let meta_bytes = encode_metadata(&f.metadata);
            let meta_blob = encryptor.encrypt(meta_bytes, key.as_slice())?;
            locked.push(LockedFile { cipher: f.cipher.duplicate(), metadata: meta_blob });
            i += 1;
        }
        Ok(LockedChest { public: self.public, files: locked })
    }

    /// Restores the plaintext of the file at `index`: opens the content
    /// blob under the chest's key and, when the chest compresses, inflates
    /// the stored stream. Fails closed on a tampered blob or a malformed
    /// stream.
    pub fn decrypt_file(&self, index: usize) -> (r: ChestResult<Vec<u8>>)
        requires
            self@.wf(),
            index < self@.files.len(),
        ensures
            ({
                let expected = spec_extract_file(self@.key, self@.public, self@.files[index as int]);
                match r {
                    Ok(payload) => expected == Ok::<Seq<u8>, ChestError>(payload@),
                    Err(e) => expected == Err::<Seq<u8>, ChestError>(e),
                }
            }),
    {
        let encryptor = get_encryptor(&self.public.encryption_algorithm);
        let f = &self.files[index];
        let stored = encryptor.decrypt(&f.cipher, self.key.as_slice())?;
        match &self.public.compression_algorithm {
            Some(compression_algorithm) => {
                let compressor = get_compressor(compression_algorithm);
                let payload = compressor.decompress(stored)?;
                Ok(payload)
            },
            None => Ok(stored),
        }
    }

    /// Restores every file in order, stopping at the first entry that
    /// fails to authenticate or inflate: a partial extraction is reported,
    /// never silently completed.
    pub fn decrypt_all_files(&self) -> (r: ChestResult<Vec<ExtractedFile>>)
        requires
            self@.wf(),
        ensures
            ({
                let expected = spec_extract_all(self@.key, self@.public, self@.files);
                match r {
                    Ok(out) => expected == Ok::<Seq<ExtractedFileView>, ChestError>(
                        Seq::new(out@.len(), |i: int| out@[i]@),
                    ),
                    Err(e) => expected == Err::<Seq<ExtractedFileView>, ChestError>(e),
                }
            }),
    {
        let mut out: Vec<ExtractedFile> = Vec::new();
        let n = self.files.len();
        let mut i: usize = 0;
        proof {
            assert(self@.files.skip(0) =~= self@.files);
            let r0 = spec_extract_all(self@.key, self@.public, self@.files);
            if r0 is Ok {
                assert(Seq::new(out@.len(), |j: int| out@[j]@) + r0->Ok_0 =~= r0->Ok_0);
            }
        }
        while i < n
            invariant
                i <= n,
                self@.wf(),
                n == self@.files.len(),
                out@.len() == i,
                spec_extract_all(self@.key, self@.public, self@.files) == (match spec_extract_all(
                    self@.key,
                    self@.public,
                    self@.files.skip(i as int),
                ) {
                    Err(e) => Err::<Seq<ExtractedFileView>, ChestError>(e),
                    Ok(rest) => Ok(Seq::new(out@.len(), |j: int| out@[j]@) + rest),
                }),
            decreases n - i,
        {
            let ghost old_out = out@;
            let content = match self.decrypt_file(i) {
                Ok(content) => content,
                Err(e) => {
                    proof {
                        assert(self@.files.skip(i as int).first() == self@.files[i as int]);
                        assert(spec_extract_all(
                            self@.key,
                            self@.public,
                            self@.files.skip(i as int),
                        ) == Err::<Seq<ExtractedFileView>, ChestError>(e));
                    }
                    return Err(e);
                },
            };
            let filename = self.files[i].metadata.filename.clone();
            out.push(ExtractedFile { filename, content });
            i += 1;
            proof {
                let files = self@.files;
                let k = i as int - 1;
                assert(files.skip(k).first() == files[k]);
                assert(files.skip(k).drop_first() =~= files.skip(k + 1));
                let rest_result = spec_extract_all(self@.key, self@.public, files.skip(k + 1));
                if rest_result is Ok {
                    assert(Seq::new(old_out.len(), |j: int| old_out[j]@) + (seq![
                        ExtractedFileView {
                            filename: files[k].metadata.filename,
                            content: content@,
                        },
                    ] + rest_result->Ok_0) =~= Seq::new(out@.len(), |j: int| out@[j]@)
                        + rest_result->Ok_0);
                }
            }
        }
        proof {
            assert(self@.files.skip(n as int) =~= Seq::<UnlockedFileView>::empty());
            assert(Seq::new(out@.len(), |j: int| out@[j]@) + Seq::<ExtractedFileView>::empty()
                =~= Seq::new(out@.len(), |j: int| out@[j]@));
        }
        Ok(out)
    }
}

impl LockedChest {
    /// Unlocks the chest: re-derives the key from the password and opens
    /// every entry's metadata blob under it, in order. The first entry
    /// that fails to authenticate or decode aborts the whole unlock — a
    /// chest is never partially unlocked, and this is the password check:
    /// a wrong password fails here. Content blobs carry over unchanged.
    pub fn unlock(self, password: &str) -> (r: ChestResult<UnlockedChest>)
        requires
            self@.wf(),
            password_fits(password@),
        ensures
            ({
                let dk = derived_key(password@, self@.public.key_derivation_salt);
                let expected = spec_unlock_files(dk, self@.files);
                match r {
                    Ok(unlocked) => {
                        &&& expected == Ok::<Seq<UnlockedFileView>, ChestError>(unlocked@.files)
                        &&& unlocked@.wf()
                        &&& unlocked@.key == dk
                        &&& unlocked@.public == self@.public
                    },
                    Err(e) => expected == Err::<Seq<UnlockedFileView>, ChestError>(e),
                }
            }),
    {
        let deriver = get_deriver(&self.public.key_derivation_algorithm);
        let encryptor = get_encryptor(&self.public.encryption_algorithm);
        let key = deriver.derive(password, self.public.key_derivation_salt.as_slice());
        let ghost dk = derived_key(password@, self@.public.key_derivation_salt);
        let mut unlocked: Vec<UnlockedFile> = Vec::new();
        let n = self.files.len();
        let mut i: usize = 0;
        proof {
            assert(self@.files.skip(0) =~= self@.files);
            let r0 = spec_unlock_files(dk, self@.files);
            if r0 is Ok {
                assert(spec_unlocked_file_views(unlocked@) + r0->Ok_0 =~= r0->Ok_0);
            }
        }
        while i < n
            invariant
                i <= n,
                n == self@.files.len(),
                self@.wf(),
                key@ == dk,
                key@.len() == KEY_LEN,
                dk == derived_key(password@, self@.public.key_derivation_salt),
                unlocked@.len() == i,
                forall|j: int| 0 <= j < i as int ==> (#[trigger] unlocked@[j])@.cipher.wf(),
                spec_unlock_files(dk, self@.files) == (match spec_unlock_files(
                    dk,
                    self@.files.skip(i as int),
                ) {
                    Err(e) => Err::<Seq<UnlockedFileView>, ChestError>(e),
                    Ok(rest) => Ok(spec_unlocked_file_views(unlocked@) + rest),
                }),
            decreases n - i,
        {
            let ghost old_unlocked = unlocked@;
            let f = &self.files[i];
            proof {
                assert(f@ == self@.files[i as int]);
                assert(self@.files.skip(i as int).first() == self@.files[i as int]);
                assert(self@.files.skip(i as int).drop_first() =~= self@.files.skip(i as int + 1));
            }
            let meta_bytes = match encryptor.decrypt(&f.metadata, key.as_slice()) {
                Ok(meta_bytes) => meta_bytes,
                Err(_) => {
                    proof {
                        assert(spec_unlock_files(dk, self@.files.skip(i as int)) == Err::<
                            Seq<UnlockedFileView>,
                            ChestError,
                        >(ChestError::Authentication));
                    }
                    return Err(ChestError::Authentication);
                },
            };
            let metadata = match crate::archive::decode_metadata(meta_bytes.as_slice()) {
                Some(metadata) => metadata,
                None => {
                    proof {
                        assert(spec_unlock_files(dk, self@.files.skip(i as int)) == Err::<
                            Seq<UnlockedFileView>,
                            ChestError,
                        >(ChestError::Serialization));
                    }
                    return Err(ChestError::Serialization);
                },
            };
            unlocked.push(UnlockedFile { cipher: f.cipher.duplicate(), metadata });
            i += 1;
            proof {
                let rest_result = spec_unlock_files(dk, self@.files.skip(i as int));
                if rest_result is Ok {
                    assert(spec_unlocked_file_views(old_unlocked) + (seq![
                        UnlockedFileView {
                            cipher: self@.files[i as int - 1].cipher,
                            metadata: metadata@,
                        },
                    ] + rest_result->Ok_0) =~= spec_unlocked_file_views(unlocked@)
                        + rest_result->Ok_0);
                }
            }
        }
        proof {
            assert(self@.files.skip(n as int) =~= Seq::<LockedFileView>::empty());
            assert(spec_unlocked_file_views(unlocked@) + Seq::<UnlockedFileView>::empty()
                =~= spec_unlocked_file_views(unlocked@));
        }
        Ok(UnlockedChest { key, public: self.public, files: unlocked })
    }

    /// Serializes the chest into its archive bytes; the exact layout is
    /// the serializer's, and deserializing them yields this chest again.
    pub fn to_bytes(&self) -> (r: Vec<u8>)
        ensures
            r@ == crate::archive::spec_serialize_chest(self@),
    {
        crate::archive::serialize_chest(self)
    }

    /// Deserializes archive bytes into a chest, failing on anything but
    /// exactly one well-formed archive.
    pub fn from_bytes(bytes: &[u8]) -> (r: ChestResult<LockedChest>)
        ensures
            r is Ok <==> crate::archive::spec_deserialize_chest(bytes@) is Some,
            r is Ok ==> crate::archive::spec_deserialize_chest(bytes@) == Some((r->Ok_0)@),
            r is Ok ==> (r->Ok_0)@.wf(),
            r is Err ==> r->Err_0 == ChestError::Serialization,
    {
        crate::archive::deserialize_chest(bytes)
    }
}

} // verus!
