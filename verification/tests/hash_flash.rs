//! The streaming digest, its hex rendering, and the flash decisions.

use oxidisk::hashing::{finish_hex, to_hex, ByteHasher};
use oxidisk::ops::{validate_flash_size, validate_stream_size, verify_digests};

#[test]
fn hex_rendering() {
    assert_eq!(to_hex(&vec![]), "");
    assert_eq!(to_hex(&vec![0xbe, 0xef]), "beef");
    assert_eq!(to_hex(&vec![0x00, 0x0f, 0xf0]), "000ff0");
}

#[test]
fn sha256_known_vector() {
    // the digest must be of the bytes fed, not the bytes themselves
    let mut h = ByteHasher::new();
    h.update(b"abc");
    let hex = finish_hex(h);
    assert_eq!(hex, "ba7816bf8f01cfea414140de5dae2223b00361a396177a9cb410ff61f20015ad");
}

#[test]
fn sha256_empty_vector() {
    let h = ByteHasher::new();
    let hex = finish_hex(h);
    assert_eq!(hex, "e3b0c44298fc1c149afbf4c8996fb92427ae41e4649b934ca495991b7852b855");
}

#[test]
fn streaming_chunks_agree_with_one_shot() {
    let mut one = ByteHasher::new();
    one.update(b"hello world");
    let mut two = ByteHasher::new();
    two.update(b"hello ");
    two.update(b"world");
    assert_eq!(finish_hex(one), finish_hex(two));
}

#[test]
fn flash_roundtrip_verifies() {
    // the write pass and the read-back pass see the same bytes
    let image: Vec<u8> = (0..1024u32).map(|i| (i % 251) as u8).collect();
    let mut wrote = ByteHasher::new();
    wrote.update(&image);
    let source_hash = finish_hex(wrote);
    let mut readback = ByteHasher::new();
    readback.update(&image);
    let verified_hash = finish_hex(readback);
    assert_eq!(source_hash, verified_hash);
    assert!(verify_digests(&source_hash, &verified_hash).is_ok());
}

#[test]
fn flash_mismatch_is_a_hard_error() {
    // one flipped byte after the write
    let image: Vec<u8> = vec![1, 2, 3, 4, 5];
    let mut wrote = ByteHasher::new();
    wrote.update(&image);
    let source_hash = finish_hex(wrote);
    let mut flipped = image.clone();
    flipped[2] ^= 0x40;
    let mut readback = ByteHasher::new();
    readback.update(&flipped);
    let verified_hash = finish_hex(readback);
    assert_ne!(source_hash, verified_hash);
    assert_eq!(
        verify_digests(&source_hash, &verified_hash).err().unwrap(),
        "Verification failed: checksum mismatch"
    );
}

#[test]
fn flash_size_gate() {
    // a 512 MiB image fits a 1 GiB disk
    assert!(validate_flash_size(512 << 20, 1 << 30).is_ok());
    assert_eq!(
        validate_flash_size((1 << 30) + 1, 1 << 30).err().unwrap(),
        "Image is larger than target device"
    );
    // an unknown disk size is permitted
    assert!(validate_flash_size(u64::MAX, 0).is_ok());
}

#[test]
fn empty_stream_is_refused() {
    assert_eq!(validate_stream_size(0).err().unwrap(), "Image is empty");
    assert!(validate_stream_size(1).is_ok());
}
