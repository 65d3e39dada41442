use std::collections::hash_map::DefaultHasher;
use std::hash::Hasher;

use ncp::checksum::{calculate_bytes_checksum, StreamingChecksum};

#[test]
fn test_bytes_checksum() {
    let checksum = calculate_bytes_checksum(b"hello world");
    assert!(!checksum.is_empty());
    assert_eq!(checksum.len(), 8);
}

#[test]
fn test_streaming_checksum() {
    let mut stream = StreamingChecksum::new();
    stream.update(b"hello ");
    stream.update(b"world");
    let checksum = stream.finalize();

    let direct_checksum = calculate_bytes_checksum(b"hello world");
    assert_eq!(checksum, direct_checksum);
}

#[test]
fn streaming_checksum_any_split() {
    let data: Vec<u8> = (0..1000u32).map(|i| (i * 7 % 251) as u8).collect();
    let whole = calculate_bytes_checksum(&data);
    for split in [1usize, 3, 8, 64, 999] {
        let mut stream = StreamingChecksum::new();
        for chunk in data.chunks(split) {
            stream.update(chunk);
        }
        assert_eq!(stream.finalize(), whole);
    }
    let mut with_empty = StreamingChecksum::new();
    with_empty.update(b"");
    with_empty.update(&data);
    with_empty.update(b"");
    assert_eq!(with_empty.finalize(), whole);
}

#[test]
fn checksum_matches_single_hasher_write() {
    let mut hasher = DefaultHasher::new();
    hasher.write(b"hello world");
    let expected = hasher.finish().to_be_bytes().to_vec();
    assert_eq!(calculate_bytes_checksum(b"hello world"), expected);
}

#[test]
fn checksum_distinguishes_inputs() {
    assert_ne!(calculate_bytes_checksum(b"hello world"), calculate_bytes_checksum(b"hello worle"));
    assert_eq!(calculate_bytes_checksum(b"").len(), 8);
}
