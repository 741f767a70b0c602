//! Symmetric authenticated encryption: 256-bit keys, 96-bit nonces,
//! 128-bit tags, and an extra plaintext-digest check layered on top of the
//! AEAD. The AEAD itself (AES-256-GCM) and the key-derivation functions
//! run in the ring and BLAKE3 crates behind trusted wrappers; key
//! handling, nonce management and the digest check are verified.

use crate::errors::EncryptionError;
use crate::hashing::{blake3_of, hash_data, ContentHash};
use vstd::prelude::*;

verus! {

/// Size of an encryption key in bytes (256 bits).
pub const KEY_SIZE: usize = 32;

/// Size of a nonce in bytes (96 bits).
pub const NONCE_SIZE: usize = 12;

/// Size of the authentication tag in bytes.
pub const TAG_SIZE: usize = 16;

/// What AES-256-GCM sealing produces for a key, nonce and plaintext: the
/// ciphertext with the authentication tag appended. Named but not written
/// out; it is a function of its arguments alone.
pub uninterp spec fn aes_gcm_seal(key: Seq<u8>, nonce: Seq<u8>, plaintext: Seq<u8>) -> Seq<u8>;

/// What AES-256-GCM opening produces for a key, nonce and ciphertext:
/// the recovered plaintext, or nothing when the tag does not verify.
/// Named but not written out; it is a function of its arguments alone.
pub uninterp spec fn aes_gcm_open(key: Seq<u8>, nonce: Seq<u8>, ciphertext: Seq<u8>) -> Option<
    Seq<u8>,
>;

/// What PBKDF2-HMAC-SHA256 derives, at 600,000 iterations and 32 bytes of
/// output, from a password and salt. Named but not written out.
pub uninterp spec fn pbkdf2_sha256_key(password: Seq<u8>, salt: Seq<u8>) -> Seq<u8>;

/// What BLAKE3's derive-key mode, under this library's key-derivation
/// context string, derives from a high-entropy secret and a context.
/// Named but not written out.
pub uninterp spec fn blake3_derived_key(secret: Seq<u8>, context: Seq<u8>) -> Seq<u8>;

/// Relies on ring's AES_256_GCM sealing (UnboundKey::new, LessSafeKey::
/// seal_in_place_append_tag): appends a 16-byte tag, and what was sealed
/// opens again under the same key and nonce.
#[verifier::external_body]
fn aead_seal(key: &[u8], nonce: &[u8], plaintext: &[u8]) -> (r: Vec<u8>)
    requires
        key@.len() == 32,
        nonce@.len() == 12,
        plaintext@.len() <= 0xFFFF_FFFF,
    ensures
        r@ == aes_gcm_seal(key@, nonce@, plaintext@),
        r@.len() == plaintext@.len() + 16,
        aes_gcm_open(key@, nonce@, r@) == Some(plaintext@),
{
    let unbound = ring::aead::UnboundKey::new(&ring::aead::AES_256_GCM, key).unwrap();
    let sealing = ring::aead::LessSafeKey::new(unbound);
    let mut nonce_bytes = [0u8; 12];
    nonce_bytes.copy_from_slice(nonce);
    let mut buf = plaintext.to_vec();
    sealing
        .seal_in_place_append_tag(
            ring::aead::Nonce::assume_unique_for_key(nonce_bytes),
            ring::aead::Aad::empty(),
            &mut buf,
        )
        .unwrap();
    buf
}

/// Relies on ring's AES_256_GCM opening (UnboundKey::new, LessSafeKey::
/// open_in_place): recovers the sealed plaintext or fails on any
/// tag mismatch.
#[verifier::external_body]
fn aead_open(key: &[u8], nonce: &[u8], ciphertext: &[u8]) -> (r: Option<Vec<u8>>)
    requires
        key@.len() == 32,
        nonce@.len() == 12,
    ensures
        match r {
            Some(p) => aes_gcm_open(key@, nonce@, ciphertext@) == Some(p@),
            None => aes_gcm_open(key@, nonce@, ciphertext@) is None,
        },
{
    let unbound = ring::aead::UnboundKey::new(&ring::aead::AES_256_GCM, key).ok()?;
    let opening = ring::aead::LessSafeKey::new(unbound);
    let mut nonce_bytes = [0u8; 12];
    nonce_bytes.copy_from_slice(nonce);
    let mut buf = ciphertext.to_vec();
    let plaintext = opening
        .open_in_place(
            ring::aead::Nonce::assume_unique_for_key(nonce_bytes),
            ring::aead::Aad::empty(),
            &mut buf,
        )
        .ok()?;
    Some(plaintext.to_vec())
}

/// Relies on ring's SystemRandom::fill: on success the buffer holds `n`
/// bytes; nothing is assumed about their values.
#[verifier::external_body]
fn random_bytes(n: usize) -> (r: Option<Vec<u8>>)
    ensures
        r matches Some(v) ==> v@.len() == n,
{
    let rng = ring::rand::SystemRandom::new();
    let mut buf = vec![0u8; n];
    match ring::rand::SecureRandom::fill(&rng, &mut buf) {
        Ok(()) => Some(buf),
        Err(_) => None,
    }
}

/// Relies on ring::pbkdf2::derive with PBKDF2_HMAC_SHA256 at 600,000
/// iterations: fills 32 bytes determined by the password and salt alone.
#[verifier::external_body]
fn pbkdf2_derive(password: &[u8], salt: &[u8]) -> (r: Vec<u8>)
    requires
        salt@.len() >= 16,
    ensures
        r@ == pbkdf2_sha256_key(password@, salt@),
        r@.len() == 32,
{
    let mut key = vec![0u8; 32];
    ring::pbkdf2::derive(
        ring::pbkdf2::PBKDF2_HMAC_SHA256,
        core::num::NonZeroU32::new(600_000).unwrap(),
        salt,
        password,
        &mut key,
    );
    key
}

/// Relies on blake3::Hasher::new_derive_key (with this library's key
/// context), update and finalize_xof: fills 32 bytes determined by the
/// secret and context alone.
#[verifier::external_body]
fn blake3_derive(secret: &[u8], context: &[u8]) -> (r: Vec<u8>)
    ensures
        r@ == blake3_derived_key(secret@, context@),
        r@.len() == 32,
{
    let mut hasher = blake3::Hasher::new_derive_key("russh-ssh encryption key");
    hasher.update(secret);
    hasher.update(context);
    let mut key = vec![0u8; 32];
    hasher.finalize_xof().fill(&mut key);
    key
}

/// A 256-bit encryption key. Deliberately without a Debug form, so its
/// bytes cannot leak through diagnostic printing.
pub struct EncryptionKey {
    key_bytes: Vec<u8>,
}

impl View for EncryptionKey {
    type V = Seq<u8>;

    /// A key is its secret bytes.
    closed spec fn view(&self) -> Seq<u8> {
        self.key_bytes@
    }
}

impl EncryptionKey {
    /// A well-formed key holds exactly 32 bytes.
    pub open spec fn wf(&self) -> bool {
        self@.len() == 32
    }

    /// Generate a new random key.
    pub fn generate() -> (r: Result<Self, EncryptionError>)
        ensures
            r matches Ok(k) ==> k.wf(),
            r matches Err(e) ==> e is KeyGeneration,
    {
        match random_bytes(32) {
            Some(bytes) => Ok(Self { key_bytes: bytes }),
            None => Err(
                EncryptionError::KeyGeneration("Failed to generate random key".to_owned()),
            ),
        }
    }

    /// Create a key from raw bytes.
    pub fn from_bytes(bytes: Vec<u8>) -> (r: Self)
        requires
            bytes@.len() == 32,
        ensures
            r@ == bytes@,
            r.wf(),
    {
        Self { key_bytes: bytes }
    }

    /// The raw key bytes.
    pub fn as_bytes(&self) -> (r: &Vec<u8>)
        ensures
            r@ == self@,
    {
        &self.key_bytes
    }

    /// Derive a key from a password with a slow password hash
    /// (PBKDF2-HMAC-SHA256 at 600,000 iterations), deterministic in the
    /// password and salt. The salt must be at least 16 bytes.
    pub fn from_password(password: &[u8], salt: &[u8]) -> (r: Self)
        requires
            salt@.len() >= 16,
        ensures
            r@ == pbkdf2_sha256_key(password@, salt@),
            r.wf(),
    {
        let key_bytes = pbkdf2_derive(password, salt);
        Self { key_bytes }
    }

    /// Generate a cryptographically random 32-byte salt for
    /// password-based derivation.
    pub fn generate_salt() -> (r: Result<Vec<u8>, EncryptionError>)
        ensures
            r matches Ok(s) ==> s@.len() == 32,
            r matches Err(e) ==> e is KeyGeneration,
    {
        match random_bytes(32) {
            Some(salt) => Ok(salt),
            None => Err(
                EncryptionError::KeyGeneration("Failed to generate random salt".to_owned()),
            ),
        }
    }

    /// Derive a key from an already-uniform secret with a fast hash
    /// (BLAKE3 derive-key), deterministic in the secret and context. Not
    /// suitable for passwords; use `from_password` for those.
    pub fn from_high_entropy_secret(secret: &[u8], context: &[u8]) -> (r: Self)
        ensures
            r@ == blake3_derived_key(secret@, context@),
            r.wf(),
    {
        let key_bytes = blake3_derive(secret, context);
        Self { key_bytes }
    }
}

impl Clone for EncryptionKey {
    /// A copy with the same key bytes.
    fn clone(&self) -> (r: Self)
        ensures
            r@ == self@,
    {
        let mut bytes: Vec<u8> = Vec::new();
        let mut i: usize = 0;
        while i < self.key_bytes.len()
            invariant
                i <= self.key_bytes@.len(),
                bytes@ == self.key_bytes@.subrange(0, i as int),
            decreases self.key_bytes@.len() - i,
        {
            bytes.push(self.key_bytes[i]);
            proof {
                assert(bytes@ =~= self.key_bytes@.subrange(0, i + 1));
            }
            i = i + 1;
        }
        proof {
            assert(bytes@ =~= self.key_bytes@);
        }
        Self { key_bytes: bytes }
    }
}

/// An encrypted message: the sealed bytes (tag included), the nonce used,
/// and the digest of the plaintext for an extra integrity check.
#[derive(Debug, Clone)]
pub struct EncryptedMessage {
    /// The encrypted data, authentication tag appended
    pub ciphertext: Vec<u8>,
    /// The nonce used for encryption
    pub nonce: Vec<u8>,
    /// Digest of the original plaintext
    pub plaintext_hash: ContentHash,
}

impl EncryptedMessage {
    /// A well-formed message carries a 12-byte nonce and a 32-byte digest.
    pub open spec fn wf(&self) -> bool {
        self.nonce@.len() == 12 && self.plaintext_hash.wf()
    }

    /// The size of the encrypted payload in bytes.
    pub fn size(&self) -> (r: usize)
        ensures
            r == self.ciphertext@.len(),
    {
        self.ciphertext.len()
    }
}

/// What decrypting with a key yields from a nonce, ciphertext and claimed
/// plaintext digest: the plaintext that the AEAD recovers, provided its
/// digest matches the claim; nothing otherwise.
pub open spec fn decrypt_outcome(
    key: Seq<u8>,
    nonce: Seq<u8>,
    ciphertext: Seq<u8>,
    claimed_hash: Seq<u8>,
) -> Option<Seq<u8>> {
    match aes_gcm_open(key, nonce, ciphertext) {
        Some(p) => if blake3_of(p) == claimed_hash {
            Some(p)
        } else {
            None
        },
        None => None,
    }
}

/// Encrypt a plaintext: a fresh random nonce, the AEAD seal, and the
/// plaintext digest attached.
///
/// The resulting message decrypts, under the same key, back to exactly
/// the plaintext that was sealed.
pub fn encrypt(key: &EncryptionKey, plaintext: &[u8]) -> (r: Result<
    EncryptedMessage,
    EncryptionError,
>)
    requires
        key.wf(),
        plaintext@.len() <= 0xFFFF_FFFF,
    ensures
        match r {
            Ok(m) => {
                &&& m.wf()
                &&& m.ciphertext@ == aes_gcm_seal(key@, m.nonce@, plaintext@)
                &&& m.ciphertext@.len() == plaintext@.len() + 16
                &&& m.plaintext_hash@ == blake3_of(plaintext@)
                &&& decrypt_outcome(key@, m.nonce@, m.ciphertext@, m.plaintext_hash@) == Some(
                    plaintext@,
                )
            },
            Err(e) => e is Encryption,
        },
{
    let nonce = match random_bytes(12) {
        Some(n) => n,
        None => {
            return Err(EncryptionError::Encryption("Failed to generate nonce".to_owned()));
        },
    };

    let plaintext_hash = hash_data(plaintext);
    let ciphertext = aead_seal(key.as_bytes().as_slice(), nonce.as_slice(), plaintext);

    Ok(EncryptedMessage { ciphertext, nonce, plaintext_hash })
}

/// Decrypt a message: the AEAD open followed by the plaintext-digest
/// check.
///
/// Succeeds exactly when the AEAD accepts the ciphertext under this key
/// and nonce and the recovered plaintext matches the attached digest;
/// fails with the opaque decryption error when the AEAD rejects, and
/// with an authentication failure when only the digest check fails.
pub fn decrypt(key: &EncryptionKey, message: &EncryptedMessage) -> (r: Result<
    Vec<u8>,
    EncryptionError,
>)
    requires
        key.wf(),
        message.wf(),
    ensures
        match r {
            Ok(p) => decrypt_outcome(
                key@,
                message.nonce@,
                message.ciphertext@,
                message.plaintext_hash@,
            ) == Some(p@),
            Err(e) => {
                &&& decrypt_outcome(
                    key@,
                    message.nonce@,
                    message.ciphertext@,
                    message.plaintext_hash@,
                ) is None
                &&& (e is Decryption || e is AuthenticationFailed)
                &&& e is Decryption ==> aes_gcm_open(
                    key@,
                    message.nonce@,
                    message.ciphertext@,
                ) is None
                &&& e is AuthenticationFailed ==> aes_gcm_open(
                    key@,
                    message.nonce@,
                    message.ciphertext@,
                ) is Some
            },
        },
{
    let plaintext = match aead_open(
        key.as_bytes().as_slice(),
        message.nonce.as_slice(),
        message.ciphertext.as_slice(),
    ) {
        Some(p) => p,
        None => {
            return Err(EncryptionError::Decryption);
        },
    };

    if !crate::hashing::verify_hash(plaintext.as_slice(), &message.plaintext_hash) {
        return Err(EncryptionError::AuthenticationFailed);
    }

    Ok(plaintext)
}

/// Encrypt with a caller-supplied nonce, returning only the sealed bytes.
pub fn encrypt_raw(key: &EncryptionKey, nonce: &[u8], plaintext: &[u8]) -> (r: Vec<u8>)
    requires
        key.wf(),
        nonce@.len() == 12,
        plaintext@.len() <= 0xFFFF_FFFF,
    ensures
        r@ == aes_gcm_seal(key@, nonce@, plaintext@),
        r@.len() == plaintext@.len() + 16,
        aes_gcm_open(key@, nonce@, r@) == Some(plaintext@),
{
    aead_seal(key.as_bytes().as_slice(), nonce, plaintext)
}

/// Decrypt raw sealed bytes with a caller-supplied nonce.
pub fn decrypt_raw(key: &EncryptionKey, nonce: &[u8], ciphertext: &[u8]) -> (r: Result<
    Vec<u8>,
    EncryptionError,
>)
    requires
        key.wf(),
        nonce@.len() == 12,
    ensures
        match r {
            Ok(p) => aes_gcm_open(key@, nonce@, ciphertext@) == Some(p@),
            Err(e) => aes_gcm_open(key@, nonce@, ciphertext@) is None && e is Decryption,
        },
{
    match aead_open(key.as_bytes().as_slice(), nonce, ciphertext) {
        Some(p) => Ok(p),
        None => Err(EncryptionError::Decryption),
    }
}

} // verus!
