//! End-to-end secure channels: X25519 key agreement, key derivation from
//! the shared secret, record encryption with send counters, and a sliding
//! replay window. The Diffie-Hellman agreement and the key-derivation
//! hash run in outside crates behind trusted wrappers; identity handling,
//! the handshake bookkeeping, the counter discipline and the replay
//! window are verified.

use crate::cipher::{decrypt, decrypt_outcome, encrypt, EncryptedMessage, EncryptionKey};
use crate::errors::EncryptionError;
use crate::hashing::{blake3_of, hash_data, hex_of, ContentHash};
use crate::textutil::bytes_eq;
use vstd::prelude::*;
use vstd::string::StringExecFns;

verus! {

/// Size of an X25519 public key in bytes.
pub const PUBLIC_KEY_SIZE: usize = 32;

/// Width of the replay protection window.
pub const REPLAY_WINDOW_SIZE: u64 = 64;

/// A cryptographic identity: a public key and the digest-derived
/// identifier that names it.
#[derive(Debug)]
pub struct Identity {
    /// The public key for this identity
    pub public_key: Vec<u8>,
    /// Unique identifier derived from the public key
    pub identifier: ContentHash,
}

impl Identity {
    /// A well-formed identity holds a 32-byte key whose digest is its
    /// identifier.
    pub open spec fn wf(&self) -> bool {
        self.public_key@.len() == 32 && self.identifier@ == blake3_of(self.public_key@)
            && self.identifier.wf()
    }

    /// Create an identity from a public key; the identifier is the key's
    /// digest.
    pub fn from_public_key(public_key: Vec<u8>) -> (r: Self)
        requires
            public_key@.len() == 32,
        ensures
            r.wf(),
            r.public_key@ == public_key@,
    {
        let identifier = hash_data(public_key.as_slice());
        Self { public_key, identifier }
    }

    /// The identifier as a hex string.
    pub fn identifier_hex(&self) -> (r: String)
        requires
            self.wf(),
        ensures
            r@ == hex_of(self.identifier@),
    {
        self.identifier.to_hex()
    }
}

impl Clone for Identity {
    /// A copy with the same key and identifier.
    fn clone(&self) -> (r: Self)
        ensures
            r.public_key@ == self.public_key@,
            r.identifier@ == self.identifier@,
            self.wf() ==> r.wf(),
    {
        Self { public_key: clone_bytes(&self.public_key), identifier: self.identifier.clone() }
    }
}

/// Byte-for-byte copy of a vector.
fn clone_bytes(v: &Vec<u8>) -> (r: Vec<u8>)
    ensures
        r@ == v@,
{
    let mut out: Vec<u8> = Vec::new();
    let mut i: usize = 0;
    while i < v.len()
        invariant
            i <= v@.len(),
            out@ == v@.subrange(0, i as int),
        decreases v@.len() - i,
    {
        out.push(v[i]);
        proof {
            assert(out@ =~= v@.subrange(0, i + 1));
        }
        i = i + 1;
    }
    proof {
        assert(out@ =~= v@);
    }
    out
}

#[verifier::external_type_specification]
#[verifier::external_body]
pub struct ExEphemeralPrivateKey(ring::agreement::EphemeralPrivateKey);

/// The X25519 shared secret for a pair of public keys (each side computes
/// it from its own private key and the peer's public key; the secret is
/// determined by the two public keys). Named but not written out.
pub uninterp spec fn x25519_shared(own_public: Seq<u8>, peer_public: Seq<u8>) -> Seq<u8>;

/// Whether X25519 key agreement between the two public keys fails (the
/// peer point is small-order, so the shared secret would be all zero).
/// A function of the two keys alone. Named but not written out.
pub uninterp spec fn x25519_agree_fails(own_public: Seq<u8>, peer_public: Seq<u8>) -> bool;

/// What BLAKE3's derive-key mode, under this library's channel context
/// string, derives from a shared secret and a transcript context: 64
/// bytes, one 32-byte key per direction. Named but not written out.
pub uninterp spec fn channel_keys_of(shared: Seq<u8>, context: Seq<u8>) -> Seq<u8>;

/// An ephemeral X25519 key pair.
pub struct KeyPair {
    private_key: ring::agreement::EphemeralPrivateKey,
    public_key_bytes: Vec<u8>,
}

impl KeyPair {
    /// The public key bytes, for contracts.
    pub closed spec fn spec_public(&self) -> Seq<u8> {
        self.public_key_bytes@
    }

    /// A well-formed key pair has a 32-byte public key.
    pub open spec fn wf(&self) -> bool {
        self.spec_public().len() == 32
    }

    /// Relies on ring's EphemeralPrivateKey::generate and
    /// compute_public_key for X25519: a fresh key pair whose public key
    /// is 32 bytes.
    #[verifier::external_body]
    pub fn generate() -> (r: Result<Self, EncryptionError>)
        ensures
            r matches Ok(kp) ==> kp.wf(),
            r matches Err(e) ==> e is KeyGeneration,
    {
        let rng = ring::rand::SystemRandom::new();
        let private_key = ring::agreement::EphemeralPrivateKey::generate(
            &ring::agreement::X25519,
            &rng,
        ).map_err(|_| EncryptionError::KeyGeneration("Key pair generation failed".to_owned()))?;
        let public_key = private_key
            .compute_public_key()
            .map_err(|_| EncryptionError::KeyGeneration("Public key derivation failed".to_owned()))?;
        Ok(Self { private_key, public_key_bytes: public_key.as_ref().to_vec() })
    }

    /// The public key bytes.
    pub fn public_key(&self) -> (r: &Vec<u8>)
        ensures
            r@ == self.spec_public(),
    {
        &self.public_key_bytes
    }

    /// The identity of this key pair.
    pub fn identity(&self) -> (r: Identity)
        requires
            self.wf(),
        ensures
            r.wf(),
            r.public_key@ == self.spec_public(),
    {
        Identity::from_public_key(clone_bytes(&self.public_key_bytes))
    }

    /// Relies on ring::agreement::agree_ephemeral for X25519: computes
    /// the shared secret of this pair's private key and the peer's
    /// 32-byte public key, consuming the private key. The secret is
    /// symmetric in the two public keys (Diffie-Hellman), and the call
    /// fails exactly when the peer point is degenerate, which depends on
    /// the keys alone.
    #[verifier::external_body]
    pub fn agree(self, peer_public_key: &Vec<u8>) -> (r: Result<SharedSecret, EncryptionError>)
        requires
            peer_public_key@.len() == 32,
        ensures
            r matches Ok(s) ==> s@ == x25519_shared(self.spec_public(), peer_public_key@)
                && s@ == x25519_shared(peer_public_key@, self.spec_public()) && s.wf(),
            r is Err <==> x25519_agree_fails(self.spec_public(), peer_public_key@),
            r matches Err(e) ==> e is ChannelEstablishment,
    {
        let peer_public = ring::agreement::UnparsedPublicKey::new(
            &ring::agreement::X25519,
            peer_public_key.as_slice(),
        );
        ring::agreement::agree_ephemeral(self.private_key, &peer_public, |shared: &[u8]| {
            SharedSecret { bytes: shared.to_vec() }
        })
            .map_err(|_| EncryptionError::ChannelEstablishment("Key agreement failed".to_owned()))
    }
}

/// A shared secret from key agreement.
pub struct SharedSecret {
    bytes: Vec<u8>,
}

impl View for SharedSecret {
    type V = Seq<u8>;

    /// A shared secret is its bytes.
    closed spec fn view(&self) -> Seq<u8> {
        self.bytes@
    }
}

impl SharedSecret {
    /// A well-formed shared secret holds 32 bytes.
    pub open spec fn wf(&self) -> bool {
        self@.len() == 32
    }

    /// Derive the two directional channel keys from this secret and a
    /// transcript context: the first 32 derived bytes key the
    /// initiator-to-responder direction, the next 32 the other.
    pub fn derive_keys(&self, context: &[u8]) -> (r: DerivedKeys)
        ensures
            r.initiator_key@ == channel_keys_of(self@, context@).subrange(0, 32),
            r.responder_key@ == channel_keys_of(self@, context@).subrange(32, 64),
            r.initiator_key.wf(),
            r.responder_key.wf(),
    {
        let output = derive_channel_keys(self.bytes.as_slice(), context);
        let mut initiator = Vec::new();
        let mut responder = Vec::new();
        let mut i: usize = 0;
        while i < 32
            invariant
                i <= 32,
                output@.len() == 64,
                output@ == channel_keys_of(self@, context@),
                initiator@ == output@.subrange(0, i as int),
            decreases 32 - i,
        {
            initiator.push(output[i]);
            proof {
                assert(initiator@ =~= output@.subrange(0, i + 1));
            }
            i = i + 1;
        }
        let mut j: usize = 32;
        while j < 64
            invariant
                32 <= j <= 64,
                output@.len() == 64,
                output@ == channel_keys_of(self@, context@),
                responder@ == output@.subrange(32, j as int),
            decreases 64 - j,
        {
            responder.push(output[j]);
            proof {
                assert(responder@ =~= output@.subrange(32, j + 1));
            }
            j = j + 1;
        }
        DerivedKeys {
            initiator_key: EncryptionKey::from_bytes(initiator),
            responder_key: EncryptionKey::from_bytes(responder),
        }
    }
}

/// Relies on blake3::Hasher::new_derive_key (with this library's channel
/// context), update and finalize_xof: fills 64 bytes determined by the
/// shared secret and transcript context alone.
#[verifier::external_body]
fn derive_channel_keys(secret: &[u8], context: &[u8]) -> (r: Vec<u8>)
    ensures
        r@ == channel_keys_of(secret@, context@),
        r@.len() == 64,
{
    let mut hasher = blake3::Hasher::new_derive_key("russh-ssh secure channel keys");
    hasher.update(secret);
    hasher.update(context);
    let mut output = vec![0u8; 64];
    hasher.finalize_xof().fill(&mut output);
    output
}

/// Keys derived from a shared secret, one per direction.
pub struct DerivedKeys {
    /// Key for messages from initiator to responder
    pub initiator_key: EncryptionKey,
    /// Key for messages from responder to initiator
    pub responder_key: EncryptionKey,
}

/// Role in a secure channel.
#[derive(Debug, Clone, Copy, PartialEq, Eq, Structural)]
pub enum ChannelRole {
    /// The party that initiated the channel
    Initiator,
    /// The party that responded to the channel request
    Responder,
}

/// Whether a replay window with highest counter `h` and bitmap `b`
/// accepts counter `c`: any counter above the highest; within the window,
/// only one whose bit is still clear; nothing at or beyond the window
/// width below the highest.
pub open spec fn window_accepts(h: u64, b: u64, c: u64) -> bool {
    if c > h {
        true
    } else if h - c >= 64 {
        false
    } else {
        b & (1u64 << ((h - c) as u64)) == 0
    }
}

/// The highest counter after checking `c`.
pub open spec fn window_after_h(h: u64, b: u64, c: u64) -> u64 {
    if c > h {
        c
    } else {
        h
    }
}

/// The bitmap after checking `c`: shifted under a new highest (reset when
/// the jump spans the whole window), the counter's bit set on acceptance,
/// untouched on rejection.
pub open spec fn window_after_b(h: u64, b: u64, c: u64) -> u64 {
    if c > h {
        if c - h >= 64 {
            1u64
        } else {
            (b << ((c - h) as u64)) | 1u64
        }
    } else if h - c >= 64 {
        b
    } else if b & (1u64 << ((h - c) as u64)) != 0 {
        b
    } else {
        b | (1u64 << ((h - c) as u64))
    }
}

/// Sliding replay window: the highest counter seen and a bitmap of the
/// 64 counters at and below it, bit i recording counter highest - i.
pub struct ReplayWindow {
    highest_seen: u64,
    bitmap: u64,
}

impl ReplayWindow {
    /// The highest counter seen, for contracts.
    pub closed spec fn spec_highest(&self) -> u64 {
        self.highest_seen
    }

    /// The window bitmap, for contracts.
    pub closed spec fn spec_bitmap(&self) -> u64 {
        self.bitmap
    }

    /// A fresh window: nothing seen.
    pub fn new() -> (r: Self)
        ensures
            r.spec_highest() == 0,
            r.spec_bitmap() == 0,
    {
        Self { highest_seen: 0, bitmap: 0 }
    }

    /// Check a counter against the window and mark it as seen.
    ///
    /// Returns true exactly when the window accepts the counter; the
    /// window advances by the published transition (a rejected counter
    /// leaves it untouched).
    pub fn check_and_mark(&mut self, counter: u64) -> (r: bool)
        ensures
            r == window_accepts(
                old(self).spec_highest(),
                old(self).spec_bitmap(),
                counter,
            ),
            final(self).spec_highest() == window_after_h(
                old(self).spec_highest(),
                old(self).spec_bitmap(),
                counter,
            ),
            final(self).spec_bitmap() == window_after_b(
                old(self).spec_highest(),
                old(self).spec_bitmap(),
                counter,
            ),
            !r ==> *final(self) == *old(self),
    {
        if counter > self.highest_seen {
            let shift = counter - self.highest_seen;
            if shift >= 64 {
                self.bitmap = 1;
            } else {
                self.bitmap = (self.bitmap << shift) | 1;
            }
            self.highest_seen = counter;
            true
        } else if self.highest_seen - counter >= 64 {
            false
        } else {
            let bit_index = self.highest_seen - counter;
            let bit_mask = 1u64 << bit_index;
            if self.bitmap & bit_mask != 0 {
                false
            } else {
                self.bitmap = self.bitmap | bit_mask;
                true
            }
        }
    }
}

/// Replay rejection: immediately after a window accepts a counter, the
/// same counter is rejected.
pub proof fn lemma_replay_rejected(h: u64, b: u64, c: u64)
    requires
        window_accepts(h, b, c),
    ensures
        !window_accepts(window_after_h(h, b, c), window_after_b(h, b, c), c),
{
    if c > h {
        if c - h >= 64 {
            assert(1u64 & (1u64 << 0u64) != 0) by (bit_vector);
        } else {
            assert(c > h && c - h < 64 ==> ((b << ((c - h) as u64)) | 1u64) & (1u64 << 0u64)
                != 0) by (bit_vector);
        }
        assert(window_after_h(h, b, c) == c);
        assert(((c - c) as u64) == 0u64);
    } else {
        let i = (h - c) as u64;
        assert(i < 64 ==> (b | (1u64 << i)) & (1u64 << i) != 0) by (bit_vector);
    }
}

/// Out-of-order independence within the window: while every counter seen
/// stays below the window width, checking one counter does not change
/// whether the window accepts any other. With replay rejection this gives
/// exactly-once acceptance for up to 64 messages in any delivery order.
pub proof fn lemma_accept_preserves_others(h: u64, b: u64, c: u64, d: u64)
    requires
        h < 64,
        c < 64,
        d < 64,
        c != d,
    ensures
        window_accepts(window_after_h(h, b, c), window_after_b(h, b, c), d) == window_accepts(
            h,
            b,
            d,
        ),
{
    if c > h {
        // The highest moves up to c < 64; d stays within the window.
        if d > c {
        } else {
            assert(h < 64 && c < 64 && d < 64 && c != d && c > h && d <= c ==> ((((b << ((c
                - h) as u64)) | 1u64) & (1u64 << ((c - d) as u64)) == 0) == (if d > h {
                true
            } else {
                b & (1u64 << ((h - d) as u64)) == 0
            }))) by (bit_vector);
        }
    } else {
        if b & (1u64 << ((h - c) as u64)) != 0 {
            // Rejected: the window is unchanged.
        } else if d > h {
        } else {
            assert(h < 64 && c < 64 && d < 64 && c != d && c <= h && d <= h ==> (((b | (1u64 << ((h
                - c) as u64))) & (1u64 << ((h - d) as u64)) == 0) == (b & (1u64 << ((h
                - d) as u64)) == 0))) by (bit_vector);
        }
    }
}

/// A message sent through a secure channel.
#[derive(Debug, Clone)]
pub struct SecureMessage {
    /// The encrypted payload
    pub encrypted: EncryptedMessage,
    /// Message counter for replay protection
    pub counter: u64,
    /// Sender's identifier
    pub sender: ContentHash,
}

impl SecureMessage {
    /// A well-formed message has a well-formed payload and a 32-byte
    /// sender identifier.
    pub open spec fn wf(&self) -> bool {
        self.encrypted.wf() && self.sender.wf()
    }
}

/// Handshake message for establishing a secure channel.
#[derive(Debug)]
pub enum HandshakeMessage {
    /// Initial message from the initiator
    Init {
        /// Initiator's ephemeral public key
        public_key: Vec<u8>,
        /// Initiator's identity
        identity: Identity,
    },
    /// Response from the responder
    Response {
        /// Responder's ephemeral public key
        public_key: Vec<u8>,
        /// Responder's identity
        identity: Identity,
    },
}

/// An established secure channel.
pub struct SecureChannel {
    role: ChannelRole,
    encrypt_key: EncryptionKey,
    decrypt_key: EncryptionKey,
    local_identity: Identity,
    peer_identity: Identity,
    send_counter: u64,
    replay_window: ReplayWindow,
}

impl SecureChannel {
    /// The channel's role, for contracts.
    pub closed spec fn spec_role(&self) -> ChannelRole {
        self.role
    }

    /// The outgoing key's bytes, for contracts.
    pub closed spec fn spec_encrypt_key(&self) -> Seq<u8> {
        self.encrypt_key@
    }

    /// The incoming key's bytes, for contracts.
    pub closed spec fn spec_decrypt_key(&self) -> Seq<u8> {
        self.decrypt_key@
    }

    /// The local identity's identifier bytes, for contracts.
    pub closed spec fn spec_local_identifier(&self) -> Seq<u8> {
        self.local_identity.identifier@
    }

    /// The peer identity's identifier bytes, for contracts.
    pub closed spec fn spec_peer_identifier(&self) -> Seq<u8> {
        self.peer_identity.identifier@
    }

    /// The send counter, for contracts.
    pub closed spec fn spec_send_counter(&self) -> u64 {
        self.send_counter
    }

    /// The replay window's highest counter, for contracts.
    pub closed spec fn spec_window_highest(&self) -> u64 {
        self.replay_window.spec_highest()
    }

    /// The replay window's bitmap, for contracts.
    pub closed spec fn spec_window_bitmap(&self) -> u64 {
        self.replay_window.spec_bitmap()
    }

    /// A well-formed channel has 32-byte keys and well-formed identities.
    pub open spec fn wf(&self) -> bool {
        self.spec_encrypt_key().len() == 32 && self.spec_decrypt_key().len() == 32
            && self.spec_local().wf() && self.spec_peer().wf()
    }

    /// The local identity, for contracts.
    pub closed spec fn spec_local(&self) -> Identity {
        self.local_identity
    }

    /// The peer identity, for contracts.
    pub closed spec fn spec_peer(&self) -> Identity {
        self.peer_identity
    }

    /// Create a secure channel from derived keys: the initiator sends
    /// under the initiator key and receives under the responder key, and
    /// the responder the other way around.
    pub fn new(
        role: ChannelRole,
        keys: DerivedKeys,
        local_identity: Identity,
        peer_identity: Identity,
    ) -> (r: Self)
        requires
            local_identity.wf(),
            peer_identity.wf(),
            keys.initiator_key.wf(),
            keys.responder_key.wf(),
        ensures
            r.wf(),
            r.spec_role() == role,
            r.spec_local() == local_identity,
            r.spec_peer() == peer_identity,
            role is Initiator ==> r.spec_encrypt_key() == keys.initiator_key@
                && r.spec_decrypt_key() == keys.responder_key@,
            role is Responder ==> r.spec_encrypt_key() == keys.responder_key@
                && r.spec_decrypt_key() == keys.initiator_key@,
            r.spec_send_counter() == 0,
            r.spec_window_highest() == 0,
            r.spec_window_bitmap() == 0,
    {
        let (encrypt_key, decrypt_key) = match role {
            ChannelRole::Initiator => (keys.initiator_key, keys.responder_key),
            ChannelRole::Responder => (keys.responder_key, keys.initiator_key),
        };

        Self {
            role,
            encrypt_key,
            decrypt_key,
            local_identity,
            peer_identity,
            send_counter: 0,
            replay_window: ReplayWindow::new(),
        }
    }

    /// The channel's role.
    pub fn role(&self) -> (r: ChannelRole)
        ensures
            r == self.spec_role(),
    {
        self.role
    }

    /// The local identity.
    pub fn local_identity(&self) -> (r: &Identity)
        ensures
            r == self.spec_local(),
    {
        &self.local_identity
    }

    /// The peer's identity.
    pub fn peer_identity(&self) -> (r: &Identity)
        ensures
            r == self.spec_peer(),
    {
        &self.peer_identity
    }

    /// Encrypt a message for sending: take the next counter, seal the
    /// plaintext under the outgoing key, and stamp the local identifier.
    pub fn encrypt(&mut self, plaintext: &[u8]) -> (r: Result<SecureMessage, EncryptionError>)
        requires
            old(self).wf(),
            old(self).spec_send_counter() < u64::MAX,
            plaintext@.len() <= 0xFFFF_FFFF,
        ensures
            final(self).wf(),
            final(self).spec_role() == old(self).spec_role(),
            final(self).spec_encrypt_key() == old(self).spec_encrypt_key(),
            final(self).spec_decrypt_key() == old(self).spec_decrypt_key(),
            final(self).spec_local() == old(self).spec_local(),
            final(self).spec_peer() == old(self).spec_peer(),
            final(self).spec_window_highest() == old(self).spec_window_highest(),
            final(self).spec_window_bitmap() == old(self).spec_window_bitmap(),
            match r {
                Ok(m) => {
                    &&& final(self).spec_send_counter() == old(self).spec_send_counter() + 1
                    &&& m.wf()
                    &&& m.counter == old(self).spec_send_counter()
                    &&& m.sender@ == old(self).spec_local_identifier()
                    &&& m.encrypted.plaintext_hash@ == blake3_of(plaintext@)
                    &&& decrypt_outcome(
                        old(self).spec_encrypt_key(),
                        m.encrypted.nonce@,
                        m.encrypted.ciphertext@,
                        m.encrypted.plaintext_hash@,
                    ) == Some(plaintext@)
                },
                Err(e) => e is Encryption && final(self).spec_send_counter() == old(
                    self,
                ).spec_send_counter(),
            },
    {
        let counter = self.send_counter;
        let encrypted = match encrypt(&self.encrypt_key, plaintext) {
            Ok(m) => m,
            Err(e) => {
                return Err(e);
            },
        };
        self.send_counter = counter + 1;

        Ok(SecureMessage { encrypted, counter, sender: self.local_identity.identifier.clone() })
    }

    /// Decrypt a received message: check the sender, check and mark the
    /// counter against the replay window, then open the payload under
    /// the incoming key.
    ///
    /// A wrong sender or a counter the window rejects fails
    /// authentication without touching anything else; an accepted
    /// counter advances the window even if the payload then fails to
    /// open, so a replay of the same record is rejected either way.
    pub fn decrypt(&mut self, message: &SecureMessage) -> (r: Result<Vec<u8>, EncryptionError>)
        requires
            old(self).wf(),
            message.wf(),
        ensures
            final(self).wf(),
            final(self).spec_role() == old(self).spec_role(),
            final(self).spec_encrypt_key() == old(self).spec_encrypt_key(),
            final(self).spec_decrypt_key() == old(self).spec_decrypt_key(),
            final(self).spec_local() == old(self).spec_local(),
            final(self).spec_peer() == old(self).spec_peer(),
            final(self).spec_send_counter() == old(self).spec_send_counter(),
            message.sender@ != old(self).spec_peer_identifier() ==> {
                &&& r matches Err(e) && e is AuthenticationFailed
                &&& *final(self) == *old(self)
            },
            message.sender@ == old(self).spec_peer_identifier() && !window_accepts(
                old(self).spec_window_highest(),
                old(self).spec_window_bitmap(),
                message.counter,
            ) ==> {
                &&& r matches Err(e) && e is AuthenticationFailed
                &&& *final(self) == *old(self)
            },
            message.sender@ == old(self).spec_peer_identifier() && window_accepts(
                old(self).spec_window_highest(),
                old(self).spec_window_bitmap(),
                message.counter,
            ) ==> {
                &&& final(self).spec_window_highest() == window_after_h(
                    old(self).spec_window_highest(),
                    old(self).spec_window_bitmap(),
                    message.counter,
                )
                &&& final(self).spec_window_bitmap() == window_after_b(
                    old(self).spec_window_highest(),
                    old(self).spec_window_bitmap(),
                    message.counter,
                )
                &&& match r {
                    Ok(p) => decrypt_outcome(
                        old(self).spec_decrypt_key(),
                        message.encrypted.nonce@,
                        message.encrypted.ciphertext@,
                        message.encrypted.plaintext_hash@,
                    ) == Some(p@),
                    Err(e) => decrypt_outcome(
                        old(self).spec_decrypt_key(),
                        message.encrypted.nonce@,
                        message.encrypted.ciphertext@,
                        message.encrypted.plaintext_hash@,
                    ) is None && (e is Decryption || e is AuthenticationFailed),
                }
            },
    {
        if !bytes_eq(
            message.sender.as_bytes().as_slice(),
            self.peer_identity.identifier.as_bytes().as_slice(),
        ) {
            return Err(EncryptionError::AuthenticationFailed);
        }

        if !self.replay_window.check_and_mark(message.counter) {
            return Err(EncryptionError::AuthenticationFailed);
        }

        decrypt(&self.decrypt_key, &message.encrypted)
    }
}

/// Builder for establishing secure channels.
pub struct SecureChannelBuilder {
    local_keypair: KeyPair,
    local_identity: Identity,
}

impl SecureChannelBuilder {
    /// The local identity, for contracts.
    pub closed spec fn spec_local(&self) -> Identity {
        self.local_identity
    }

    /// The local public key bytes, for contracts.
    pub closed spec fn spec_public(&self) -> Seq<u8> {
        self.local_keypair.spec_public()
    }

    /// A well-formed builder has a well-formed key pair whose public key
    /// backs the local identity.
    pub open spec fn wf(&self) -> bool {
        self.spec_public().len() == 32 && self.spec_local().wf()
            && self.spec_local().public_key@ == self.spec_public()
    }

    /// Create a builder with a fresh ephemeral key pair.
    pub fn new() -> (r: Result<Self, EncryptionError>)
        ensures
            r matches Ok(b) ==> b.wf(),
            r matches Err(e) ==> e is KeyGeneration,
    {
        let local_keypair = match KeyPair::generate() {
            Ok(kp) => kp,
            Err(e) => {
                return Err(e);
            },
        };
        let local_identity = local_keypair.identity();

        Ok(Self { local_keypair, local_identity })
    }

    /// The local identity.
    pub fn local_identity(&self) -> (r: &Identity)
        ensures
            r == self.spec_local(),
    {
        &self.local_identity
    }

    /// The initial handshake message, for the initiator.
    pub fn create_init_message(&self) -> (r: HandshakeMessage)
        requires
            self.wf(),
        ensures
            r matches HandshakeMessage::Init { public_key, identity } && public_key@
                == self.spec_public() && identity.wf() && identity.public_key@ == self.spec_local().public_key@,
    {
        HandshakeMessage::Init {
            public_key: clone_bytes(self.local_keypair.public_key()),
            identity: self.local_identity.clone(),
        }
    }

    /// Process an init message and produce the channel and the response,
    /// for the responder.
    ///
    /// Only an Init message is accepted. The channel keys derive from the
    /// shared secret under the transcript context initiator-public ++
    /// responder-public, so both ends derive the same pair.
    pub fn process_init(self, init: HandshakeMessage) -> (r: Result<
        (SecureChannel, HandshakeMessage),
        EncryptionError,
    >)
        requires
            self.wf(),
        ensures
            init is Response ==> (r matches Err(e) && e is ChannelEstablishment),
            r is Ok <==> (init matches HandshakeMessage::Init { public_key, identity }
                && public_key@.len() == 32 && identity.public_key@ == public_key@
                && !x25519_agree_fails(self.spec_public(), public_key@)),
            match r {
                Ok((channel, response)) => {
                    &&& init matches HandshakeMessage::Init { public_key, identity }
                    &&& channel.wf()
                    &&& channel.spec_role() is Responder
                    &&& channel.spec_local() == self.spec_local()
                    &&& identity.public_key@ == public_key@
                    &&& channel.spec_peer().wf()
                    &&& channel.spec_peer().public_key@ == public_key@
                    &&& channel.spec_send_counter() == 0
                    &&& channel.spec_window_highest() == 0
                    &&& channel.spec_window_bitmap() == 0
                    &&& {
                        // Keys stated over the canonical orientation
                        // (initiator's key first), as the initiator
                        // states them, so both ends provably hold
                        // crossed keys.
                        let shared = x25519_shared(public_key@, self.spec_public());
                        let context = identity.public_key@ + self.spec_local().public_key@;
                        channel.spec_encrypt_key() == channel_keys_of(shared, context).subrange(
                            32,
                            64,
                        ) && channel.spec_decrypt_key() == channel_keys_of(
                            shared,
                            context,
                        ).subrange(0, 32)
                    }
                    &&& (response matches HandshakeMessage::Response { public_key: rp, identity: ri }
                        && rp@ == self.spec_public() && ri.public_key@
                        == self.spec_local().public_key@)
                },
                Err(e) => e is ChannelEstablishment,
            },
    {
        let (peer_public_key, peer_identity) = match init {
            HandshakeMessage::Init { public_key, identity } => (public_key, identity),
            _ => {
                return Err(
                    EncryptionError::ChannelEstablishment("Expected Init message".to_owned()),
                );
            },
        };

        if peer_public_key.len() != 32 || peer_identity.public_key.len() != 32 {
            return Err(
                EncryptionError::ChannelEstablishment("Malformed peer public key".to_owned()),
            );
        }
        // Re-derive the peer identity from its public key so the channel
        // only ever trusts an identifier that matches the key.
        let peer_identity = Identity::from_public_key(peer_identity.public_key);
        if !bytes_eq(peer_identity.public_key.as_slice(), peer_public_key.as_slice()) {
            return Err(
                EncryptionError::ChannelEstablishment(
                    "Identity does not match public key".to_owned(),
                ),
            );
        }

        let response = HandshakeMessage::Response {
            public_key: clone_bytes(self.local_keypair.public_key()),
            identity: self.local_identity.clone(),
        };

        let local_identity = self.local_identity;
        let shared_secret = match self.local_keypair.agree(&peer_public_key) {
            Ok(s) => s,
            Err(e) => {
                return Err(e);
            },
        };

        let mut context: Vec<u8> = clone_bytes(&peer_identity.public_key);
        let mut local_pub = clone_bytes(&local_identity.public_key);
        context.append(&mut local_pub);
        let keys = shared_secret.derive_keys(context.as_slice());

        let channel = SecureChannel::new(
            ChannelRole::Responder,
            keys,
            local_identity,
            peer_identity,
        );

        Ok((channel, response))
    }

    /// Process a response message and complete establishment, for the
    /// initiator.
    ///
    /// Only a Response message is accepted. The transcript context is
    /// again initiator-public ++ responder-public.
    pub fn process_response(self, response: HandshakeMessage) -> (r: Result<
        SecureChannel,
        EncryptionError,
    >)
        requires
            self.wf(),
        ensures
            response is Init ==> (r matches Err(e) && e is ChannelEstablishment),
            r is Ok <==> (response matches HandshakeMessage::Response { public_key, identity }
                && public_key@.len() == 32 && identity.public_key@ == public_key@
                && !x25519_agree_fails(self.spec_public(), public_key@)),
            match r {
                Ok(channel) => {
                    &&& response matches HandshakeMessage::Response { public_key, identity }
                    &&& channel.wf()
                    &&& channel.spec_role() is Initiator
                    &&& channel.spec_local() == self.spec_local()
                    &&& identity.public_key@ == public_key@
                    &&& channel.spec_peer().wf()
                    &&& channel.spec_peer().public_key@ == public_key@
                    &&& channel.spec_send_counter() == 0
                    &&& channel.spec_window_highest() == 0
                    &&& channel.spec_window_bitmap() == 0
                    &&& {
                        let shared = x25519_shared(self.spec_public(), public_key@);
                        let context = self.spec_local().public_key@ + identity.public_key@;
                        channel.spec_encrypt_key() == channel_keys_of(shared, context).subrange(
                            0,
                            32,
                        ) && channel.spec_decrypt_key() == channel_keys_of(
                            shared,
                            context,
                        ).subrange(32, 64)
                    }
                },
                Err(e) => e is ChannelEstablishment,
            },
    {
        let (peer_public_key, peer_identity) = match response {
            HandshakeMessage::Response { public_key, identity } => (public_key, identity),
            _ => {
                return Err(
                    EncryptionError::ChannelEstablishment("Expected Response message".to_owned()),
                );
            },
        };

        if peer_public_key.len() != 32 || peer_identity.public_key.len() != 32 {
            return Err(
                EncryptionError::ChannelEstablishment("Malformed peer public key".to_owned()),
            );
        }
        let peer_identity = Identity::from_public_key(peer_identity.public_key);
        if !bytes_eq(peer_identity.public_key.as_slice(), peer_public_key.as_slice()) {
            return Err(
                EncryptionError::ChannelEstablishment(
                    "Identity does not match public key".to_owned(),
                ),
            );
        }

        let local_identity = self.local_identity;
        let shared_secret = match self.local_keypair.agree(&peer_public_key) {
            Ok(s) => s,
            Err(e) => {
                return Err(e);
            },
        };

        let mut context: Vec<u8> = clone_bytes(&local_identity.public_key);
        let mut peer_pub = clone_bytes(&peer_identity.public_key);
        context.append(&mut peer_pub);
        let keys = shared_secret.derive_keys(context.as_slice());

        let channel = SecureChannel::new(
            ChannelRole::Initiator,
            keys,
            local_identity,
            peer_identity,
        );

        Ok(channel)
    }
}

} // verus!
