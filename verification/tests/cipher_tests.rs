use russh_core::cipher::{decrypt, encrypt, EncryptionKey};

#[test]
fn encrypt_decrypt_roundtrip() {
    let key = EncryptionKey::generate().unwrap();
    let plaintext = b"Hello, World!";

    let encrypted = encrypt(&key, plaintext).unwrap();
    let decrypted = decrypt(&key, &encrypted).unwrap();

    assert_eq!(plaintext.as_slice(), decrypted.as_slice());
}

#[test]
fn encrypt_decrypt_empty() {
    let key = EncryptionKey::generate().unwrap();
    let plaintext = b"";

    let encrypted = encrypt(&key, plaintext).unwrap();
    let decrypted = decrypt(&key, &encrypted).unwrap();

    assert_eq!(plaintext.as_slice(), decrypted.as_slice());
}

#[test]
fn wrong_key_fails() {
    let key1 = EncryptionKey::generate().unwrap();
    let key2 = EncryptionKey::generate().unwrap();
    let plaintext = b"Secret message";

    let encrypted = encrypt(&key1, plaintext).unwrap();
    let result = decrypt(&key2, &encrypted);

    assert!(result.is_err());
}

#[test]
fn tampered_ciphertext_fails() {
    let key = EncryptionKey::generate().unwrap();
    let plaintext = b"Secret message";

    let mut encrypted = encrypt(&key, plaintext).unwrap();
    if !encrypted.ciphertext.is_empty() {
        encrypted.ciphertext[0] ^= 0xFF;
    }

    let result = decrypt(&key, &encrypted);
    assert!(result.is_err());
}

#[test]
fn tampered_nonce_or_hash_fails() {
    let key = EncryptionKey::generate().unwrap();
    let plaintext = b"Secret message";

    let mut with_bad_nonce = encrypt(&key, plaintext).unwrap();
    with_bad_nonce.nonce[0] ^= 0x01;
    assert!(decrypt(&key, &with_bad_nonce).is_err());

    let good = encrypt(&key, plaintext).unwrap();
    let mut hash_bytes = good.plaintext_hash.as_bytes().clone();
    hash_bytes[0] ^= 0x01;
    let mut with_bad_hash = good.clone();
    with_bad_hash.plaintext_hash = russh_core::hashing::ContentHash::from_bytes(hash_bytes);
    assert!(decrypt(&key, &with_bad_hash).is_err());

    // A single-byte change in the tag region also fails.
    let mut with_bad_tag = encrypt(&key, plaintext).unwrap();
    let last = with_bad_tag.ciphertext.len() - 1;
    with_bad_tag.ciphertext[last] ^= 0x01;
    assert!(decrypt(&key, &with_bad_tag).is_err());
}

#[test]
fn two_encryptions_differ() {
    let key = EncryptionKey::generate().unwrap();
    let plaintext = b"Same plaintext";
    let a = encrypt(&key, plaintext).unwrap();
    let b = encrypt(&key, plaintext).unwrap();
    assert_ne!(a.nonce, b.nonce);
    assert_ne!(a.ciphertext, b.ciphertext);
}

#[test]
fn key_from_password() {
    let password = b"my secret password";
    let salt = b"random_salt_value_16";

    let key1 = EncryptionKey::from_password(password, salt);
    let key2 = EncryptionKey::from_password(password, salt);

    assert_eq!(key1.as_bytes(), key2.as_bytes());

    let key3 = EncryptionKey::from_password(b"different password", salt);
    assert_ne!(key1.as_bytes(), key3.as_bytes());

    let key4 = EncryptionKey::from_password(password, b"different_salt_16!!");
    assert_ne!(key1.as_bytes(), key4.as_bytes());
}

#[test]
fn generate_salt_produces_unique_values() {
    let salt1 = EncryptionKey::generate_salt().unwrap();
    let salt2 = EncryptionKey::generate_salt().unwrap();
    assert_ne!(salt1, salt2, "Generated salts should be unique");
    assert_eq!(salt1.len(), 32, "Salt should be 32 bytes");
}

#[test]
fn key_from_high_entropy_secret() {
    let secret = b"high entropy secret key material";
    let context = b"test context";

    let key1 = EncryptionKey::from_high_entropy_secret(secret, context);
    let key2 = EncryptionKey::from_high_entropy_secret(secret, context);

    assert_eq!(key1.as_bytes(), key2.as_bytes());

    let key3 = EncryptionKey::from_high_entropy_secret(secret, b"other context");
    assert_ne!(key1.as_bytes(), key3.as_bytes());
}
