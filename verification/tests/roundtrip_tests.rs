use std::collections::HashMap;
use std::io::{Read, Write};

use fastnbt::Value;
use scoreboard_merge::gzip::{compress_scoreboard, decompress_scoreboard};
use scoreboard_merge::ScoreboardError;

#[test]
fn compress_then_decompress_gives_payload_back() {
    let payload = b"one scoreboard payload".to_vec();
    let compressed = compress_scoreboard(&payload).unwrap();
    // A gzip stream, not the payload handed back unchanged.
    assert_eq!(&compressed[0..2], &[0x1f, 0x8b]);
    assert_ne!(compressed, payload);
    let back = decompress_scoreboard(&compressed).unwrap();
    assert_eq!(back, payload);
}

#[test]
fn library_compression_is_real_gzip() {
    let payload = b"independent decoder check".to_vec();
    let compressed = compress_scoreboard(&payload).unwrap();
    let mut decoder = flate2::read::GzDecoder::new(compressed.as_slice());
    let mut out = Vec::new();
    decoder.read_to_end(&mut out).unwrap();
    assert_eq!(out, payload);
}

#[test]
fn library_decompression_reads_real_gzip() {
    let payload = b"made by an independent encoder".to_vec();
    let mut encoder =
        flate2::write::GzEncoder::new(Vec::new(), flate2::Compression::best());
    encoder.write_all(&payload).unwrap();
    let compressed = encoder.finish().unwrap();
    let back = decompress_scoreboard(&compressed).unwrap();
    assert_eq!(back, payload);
}

#[test]
fn empty_payload_round_trips() {
    let empty: Vec<u8> = Vec::new();
    let compressed = compress_scoreboard(&empty).unwrap();
    let back = decompress_scoreboard(&compressed).unwrap();
    assert_eq!(back, Vec::<u8>::new());
}

#[test]
fn corrupt_stream_is_decode_error() {
    let r = decompress_scoreboard(&[0u8, 1, 2, 3]);
    assert_eq!(r, Err(ScoreboardError::DecodeError));
}

#[test]
fn truncated_stream_is_decode_error() {
    let payload = b"soon to be cut short".to_vec();
    let compressed = compress_scoreboard(&payload).unwrap();
    let truncated = &compressed[0..compressed.len() - 4];
    let r = decompress_scoreboard(truncated);
    assert_eq!(r, Err(ScoreboardError::DecodeError));
}

#[test]
fn decode_then_encode_keeps_tag_tree() {
    // A scoreboard-shaped tag tree: decode then encode, with no mutation in
    // between, reproduces a semantically equal tree.
    let mut entry = HashMap::new();
    entry.insert("Objective".to_string(), Value::String("kills".to_string()));
    entry.insert("Name".to_string(), Value::String("alice".to_string()));
    entry.insert("Score".to_string(), Value::Int(5));
    entry.insert("Locked".to_string(), Value::Byte(0));
    let mut data = HashMap::new();
    data.insert("PlayerScores".to_string(), Value::List(vec![Value::Compound(entry)]));
    let mut root = HashMap::new();
    root.insert("DataVersion".to_string(), Value::Int(3465));
    root.insert("data".to_string(), Value::Compound(data));
    let tree = Value::Compound(root);

    let encoded = fastnbt::to_bytes(&tree).unwrap();
    let file_bytes = compress_scoreboard(&encoded).unwrap();

    let payload = decompress_scoreboard(&file_bytes).unwrap();
    let decoded: Value = fastnbt::from_bytes(&payload).unwrap();
    assert_eq!(decoded, tree);

    let reencoded = fastnbt::to_bytes(&decoded).unwrap();
    let redecoded: Value = fastnbt::from_bytes(&reencoded).unwrap();
    assert_eq!(redecoded, tree);
}
