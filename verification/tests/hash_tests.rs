use russh_core::hashing::{hash_data, hash_hex, verify_hash, ContentHash, IncrementalHasher, HASH_SIZE};

#[test]
fn hash_determinism() {
    let data = b"hello world";
    let hash1 = hash_data(data);
    let hash2 = hash_data(data);
    assert_eq!(hash1, hash2);
}

#[test]
fn different_data_different_hash() {
    let hash1 = hash_data(b"hello");
    let hash2 = hash_data(b"world");
    assert_ne!(hash1, hash2);
}

#[test]
fn hash_hex_roundtrip() {
    let data = b"test data for hashing";
    let hash = hash_data(data);
    let hex = hash.to_hex();
    let parsed = ContentHash::from_hex(&hex).unwrap();
    assert_eq!(hash, parsed);
}

#[test]
fn incremental_hasher_matches_direct() {
    let data = b"hello world this is a test";
    let direct_hash = hash_data(data);

    let mut incremental = IncrementalHasher::new();
    incremental.update(b"hello ");
    incremental.update(b"world ");
    incremental.update(b"this is a test");
    let incremental_hash = incremental.finalize();

    assert_eq!(direct_hash, incremental_hash);
}

#[test]
fn verify_hash_works() {
    let data = b"verify me";
    let hash = hash_data(data);
    assert!(verify_hash(data, &hash));
    assert!(!verify_hash(b"wrong data", &hash));
}

#[test]
fn empty_data_hash() {
    let hash1 = hash_data(b"");
    let hash2 = hash_data(b"");
    assert_eq!(hash1, hash2);
    assert_eq!(hash1.as_bytes().len(), HASH_SIZE);
}

#[test]
fn incremental_partition_invariance() {
    let data = b"partition me any way you like";
    let direct = hash_data(data);
    for cut in [0usize, 1, 7, 15, data.len()] {
        let mut inc = IncrementalHasher::new();
        inc.update(&data[..cut]);
        inc.update(&data[cut..]);
        assert_eq!(inc.finalize(), direct);
    }
}

#[test]
fn hash_hex_is_64_lowercase_chars() {
    let hex = hash_hex(b"some data");
    assert_eq!(hex.len(), 64);
    assert!(hex.chars().all(|c| c.is_ascii_hexdigit() && !c.is_ascii_uppercase()));
}

#[test]
fn from_hex_rejects_bad_input() {
    assert!(ContentHash::from_hex("abc").is_err());
    let wrong_char = "zz".repeat(32);
    assert!(ContentHash::from_hex(&wrong_char).is_err());
    let upper = hash_data(b"x").to_hex().to_uppercase();
    assert!(ContentHash::from_hex(&upper).is_ok());
}

#[test]
fn finalize_reset_clears() {
    let mut inc = IncrementalHasher::new();
    inc.update(b"abc");
    let first = inc.finalize_reset();
    assert_eq!(first, hash_data(b"abc"));
    assert_eq!(inc.bytes_processed(), 0);
    inc.update(b"def");
    assert_eq!(inc.finalize(), hash_data(b"def"));
}
