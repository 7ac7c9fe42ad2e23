//! Reversible byte-stream compression (deflate family), applied to file
//! content before encryption. Compression is deterministic for a fixed
//! library version, which `deflate_of` captures; `inflated` names the
//! partial inverse that decompression computes, so the round trip
//! `inflated(deflate_of(p)) == Some(p)` is available wherever a payload was
//! compressed.

use vstd::prelude::*;

use crate::chest::CompressionAlgorithm;
use crate::error::{ChestError, ChestResult};

verus! {

/// The deflate stream produced for this payload with the default settings.
/// The result depends on the payload bytes alone.
pub uninterp spec fn deflate_of(payload: Seq<u8>) -> Seq<u8>;

/// What inflating these bytes yields: the decompressed payload for a
/// well-formed deflate stream, nothing for a malformed one. The result
/// depends on the input bytes alone.
pub uninterp spec fn inflated(payload: Seq<u8>) -> Option<Seq<u8>>;

/// Relies on `flate2::write::DeflateEncoder` writing into an in-memory
/// buffer at the default compression level: the output is a deterministic
/// function of the input bytes, and deflate is lossless, so inflating the
/// output yields the input again. With a fixed, valid configuration and an
/// in-memory sink the encoder reports no errors, so compressing arbitrary
/// bytes always succeeds.
#[verifier::external_body]
fn deflate_raw(payload: &[u8]) -> (r: ChestResult<Vec<u8>>)
    ensures
        r is Ok,
        r is Ok ==> r->Ok_0@ == deflate_of(payload@),
        r is Ok ==> inflated(deflate_of(payload@)) == Some(payload@),
{
    let mut encoder =
        flate2::write::DeflateEncoder::new(Vec::new(), flate2::Compression::default());
    if std::io::Write::write_all(&mut encoder, payload).is_err() {
        return Err(ChestError::Compression);
    }
    match encoder.finish() {
        Ok(out) => Ok(out),
        Err(_) => Err(ChestError::Compression),
    }
}

/// Relies on `flate2::read::DeflateDecoder`: reading it to the end inflates
/// a well-formed deflate stream and reports an error on a malformed one,
/// deterministically in the input bytes.
#[verifier::external_body]
fn inflate_raw(payload: &[u8]) -> (r: ChestResult<Vec<u8>>)
    ensures
        r is Ok <==> inflated(payload@) is Some,
        r is Ok ==> Some(r->Ok_0@) == inflated(payload@),
        r is Err ==> r->Err_0 == ChestError::Compression,
{
    let mut decoder = flate2::read::DeflateDecoder::new(payload);
    let mut buffer = Vec::new();
    match std::io::Read::read_to_end(&mut decoder, &mut buffer) {
        Ok(_) => Ok(buffer),
        Err(_) => Err(ChestError::Compression),
    }
}

/// A compression strategy: payload in, compressed bytes out, and back.
pub trait Compress {
    fn compress(&self, payload: Vec<u8>) -> (r: ChestResult<Vec<u8>>)
        ensures
            r is Ok,
            r->Ok_0@ == deflate_of(payload@),
            inflated(deflate_of(payload@)) == Some(payload@),
    ;

    fn decompress(&self, payload: Vec<u8>) -> (r: ChestResult<Vec<u8>>)
        ensures
            r is Ok <==> inflated(payload@) is Some,
            r is Ok ==> Some(r->Ok_0@) == inflated(payload@),
            r is Err ==> r->Err_0 == ChestError::Compression,
    ;
}

/// The one compression strategy currently offered.
pub struct DeflateCompressor;

impl Compress for DeflateCompressor {
    fn compress(&self, payload: Vec<u8>) -> (r: ChestResult<Vec<u8>>) {
        deflate_raw(payload.as_slice())
    }

    fn decompress(&self, payload: Vec<u8>) -> (r: ChestResult<Vec<u8>>) {
        inflate_raw(payload.as_slice())
    }
}

/// Maps a compression tag to the strategy that implements it.
pub fn get_compressor(algorithm: &CompressionAlgorithm) -> (c: DeflateCompressor) {
    match algorithm {
        CompressionAlgorithm::Deflate => DeflateCompressor,
    }
}

} // verus!
