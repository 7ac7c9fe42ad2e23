use chest::compression::{Compress, DeflateCompressor};
use chest::error::ChestError;

const PAYLOAD: &[u8; 9] = b"aaaaaaaaa";
const COMPRESSOR: DeflateCompressor = DeflateCompressor;

#[test]
fn compressed_then_decompressed_data_is_similar() {
    let compressed = COMPRESSOR.compress(PAYLOAD.to_vec()).unwrap();
    let decompressed = COMPRESSOR.decompress(compressed).unwrap();
    assert_eq!(PAYLOAD.to_vec(), decompressed);
}

#[test]
fn compressed_data_is_different() {
    let compressed = COMPRESSOR.compress(PAYLOAD.to_vec()).unwrap();
    assert_ne!(PAYLOAD.to_vec(), compressed);
}

#[test]
fn compressed_data_is_smaller() {
    let compressed = COMPRESSOR.compress(PAYLOAD.to_vec()).unwrap();
    assert!(PAYLOAD.to_vec().len() > compressed.len());
}

#[test]
fn empty_payload_round_trips() {
    let compressed = COMPRESSOR.compress(Vec::new()).unwrap();
    let decompressed = COMPRESSOR.decompress(compressed).unwrap();
    assert_eq!(decompressed, Vec::<u8>::new());
}

#[test]
fn malformed_stream_fails_to_decompress() {
    let err = COMPRESSOR
        .decompress(vec![0xDE, 0xAD, 0xBE, 0xEF, 0x00, 0x01, 0x02])
        .unwrap_err();
    assert_eq!(err, ChestError::Compression);
}
