//! Content hashing: 32-byte digests with a canonical lowercase hex
//! encoding, an incremental hasher, and digest verification. The digest
//! itself comes from the BLAKE3 hash function through a trusted wrapper;
//! everything around it — the hash wrapper type, the hex codec, the
//! incremental accumulation — is verified.

use crate::textutil::{ascii_to_string, bytes_eq};
use vstd::prelude::*;
use vstd::string::StrSliceExecFns;

verus! {

/// The size of a content hash in bytes.
pub const HASH_SIZE: usize = 32;

/// The digest that the BLAKE3 hash function computes for a byte sequence.
/// Named but not written out: nothing is assumed of it beyond its 32-byte
/// length and that it is a function of the input alone.
pub uninterp spec fn blake3_of(data: Seq<u8>) -> Seq<u8>;

/// Relies on blake3::hash: the digest is 32 bytes and depends on the
/// input bytes alone.
#[verifier::external_body]
fn blake3_bytes(data: &[u8]) -> (r: Vec<u8>)
    ensures
        r@ == blake3_of(data@),
        r@.len() == 32,
{
    blake3::hash(data).as_bytes().to_vec()
}

/// A content hash: a 32-byte digest with byte-exact equality.
#[derive(Debug)]
pub struct ContentHash {
    bytes: Vec<u8>,
}

impl View for ContentHash {
    type V = Seq<u8>;

    /// A content hash is its digest bytes.
    closed spec fn view(&self) -> Seq<u8> {
        self.bytes@
    }
}

impl ContentHash {
    /// A well-formed hash holds exactly 32 bytes.
    pub open spec fn wf(&self) -> bool {
        self@.len() == 32
    }

    /// Create a content hash from raw digest bytes.
    pub fn from_bytes(bytes: Vec<u8>) -> (r: Self)
        requires
            bytes@.len() == 32,
        ensures
            r@ == bytes@,
            r.wf(),
    {
        Self { bytes }
    }

    /// The raw digest bytes.
    pub fn as_bytes(&self) -> (r: &Vec<u8>)
        ensures
            r@ == self@,
    {
        &self.bytes
    }

    /// The canonical lowercase hex encoding: two characters per digest
    /// byte (64 for a well-formed hash).
    pub fn to_hex(&self) -> (r: String)
        ensures
            r@ == hex_of(self@),
            r@.len() == 2 * self@.len(),
    {
        hex_string(&self.bytes)
    }

    /// Parse a content hash from its hex encoding.
    ///
    /// Fails with a length error unless the string has exactly 64
    /// characters, and with a character error unless every character is a
    /// hex digit (either case); on success the digest decodes the string.
    pub fn from_hex(hex: &str) -> (r: Result<Self, HashError>)
        ensures
            match r {
                Ok(h) => {
                    &&& hex@.len() == 64
                    &&& forall|i: int| 0 <= i < 64 ==> is_hex_char(#[trigger] hex@[i])
                    &&& h@ == hex_decode(hex@)
                    &&& h.wf()
                },
                Err(HashError::InvalidHexLength { expected, actual }) => {
                    &&& hex@.len() != 64
                    &&& expected == 64
                    &&& actual == hex@.len()
                },
                Err(HashError::InvalidHexCharacter) => {
                    &&& hex@.len() == 64
                    &&& exists|i: int| 0 <= i < 64 && !is_hex_char(#[trigger] hex@[i])
                },
                Err(_) => false,
            },
    {
        let n = hex.unicode_len();
        if n != 64 {
            return Err(HashError::InvalidHexLength { expected: 64, actual: n });
        }

        let mut bytes: Vec<u8> = Vec::new();
        let mut k: usize = 0;
        while k < 32
            invariant
                hex@.len() == 64,
                k <= 32,
                bytes@.len() == k,
                forall|i: int| 0 <= i < 2 * k ==> is_hex_char(#[trigger] hex@[i]),
                forall|j: int| 0 <= j < k ==> bytes@[j] == hex_decode(hex@)[j],
            decreases 32 - k,
        {
            let hi = hex.get_char(2 * k);
            let lo = hex.get_char(2 * k + 1);
            let hv = match hex_val(hi) {
                Some(v) => v,
                None => {
                    return Err(HashError::InvalidHexCharacter);
                },
            };
            let lv = match hex_val(lo) {
                Some(v) => v,
                None => {
                    return Err(HashError::InvalidHexCharacter);
                },
            };
            bytes.push(hv * 16 + lv);
            proof {
                assert(forall|i: int|
                    0 <= i < 2 * (k + 1) ==> is_hex_char(#[trigger] hex@[i]));
            }
            k = k + 1;
        }
        Ok(Self { bytes })
    }
}

impl Clone for ContentHash {
    /// A copy with the same digest bytes.
    fn clone(&self) -> (r: Self)
        ensures
            r@ == self@,
    {
        let mut bytes: Vec<u8> = Vec::new();
        let mut i: usize = 0;
        while i < self.bytes.len()
            invariant
                i <= self.bytes@.len(),
                bytes@ == self.bytes@.subrange(0, i as int),
            decreases self.bytes@.len() - i,
        {
            bytes.push(self.bytes[i]);
            proof {
                assert(bytes@ =~= self.bytes@.subrange(0, i + 1));
            }
            i = i + 1;
        }
        proof {
            assert(bytes@ =~= self.bytes@);
        }
        Self { bytes }
    }
}

impl PartialEq for ContentHash {
    /// Byte-exact equality.
    fn eq(&self, other: &Self) -> (r: bool) {
        bytes_eq(self.bytes.as_slice(), other.bytes.as_slice())
    }
}

impl Eq for ContentHash {

}

impl vstd::std_specs::cmp::PartialEqSpecImpl for ContentHash {
    open spec fn obeys_eq_spec() -> bool {
        true
    }

    open spec fn eq_spec(&self, other: &ContentHash) -> bool {
        self@ == other@
    }
}

/// Errors from hashing operations.
#[derive(Debug)]
pub enum HashError {
    /// A hex string of the wrong length
    InvalidHexLength {
        /// The required length
        expected: usize,
        /// The length found
        actual: usize,
    },
    /// A character that is no hex digit
    InvalidHexCharacter,
    /// An I/O error while feeding a hasher, by its rendered description
    Io(String),
}

/// The lowercase hex digit character for a value below sixteen.
pub open spec fn hex_digit(n: int) -> char {
    if n < 10 {
        ((0x30 + n) as u8) as char
    } else {
        ((0x61 + (n - 10)) as u8) as char
    }
}

/// The canonical lowercase hex encoding of a byte sequence: two digits
/// per byte, high nibble first.
pub open spec fn hex_of(s: Seq<u8>) -> Seq<char> {
    Seq::new(
        2 * s.len(),
        |i: int|
            if i % 2 == 0 {
                hex_digit(s[i / 2] as int / 16)
            } else {
                hex_digit(s[i / 2] as int % 16)
            },
    )
}

/// Whether a character is a hex digit (either case).
pub open spec fn is_hex_char(c: char) -> bool {
    (0x30 <= c as u32 <= 0x39) || (0x61 <= c as u32 <= 0x66) || (0x41 <= c as u32 <= 0x46)
}

/// The value of a hex digit character.
pub open spec fn hex_char_val(c: char) -> int {
    if 0x30 <= c as u32 <= 0x39 {
        c as u32 - 0x30
    } else if 0x61 <= c as u32 <= 0x66 {
        c as u32 - 0x61 + 10
    } else {
        c as u32 - 0x41 + 10
    }
}

/// The bytes encoded by a hex character sequence (whose length is even
/// and whose characters are hex digits).
pub open spec fn hex_decode(s: Seq<char>) -> Seq<u8> {
    Seq::new(
        s.len() / 2,
        |k: int| (hex_char_val(s[2 * k]) * 16 + hex_char_val(s[2 * k + 1])) as u8,
    )
}

/// The value of a hex digit character, or None for any other character.
fn hex_val(c: char) -> (r: Option<u8>)
    ensures
        match r {
            Some(v) => is_hex_char(c) && v == hex_char_val(c) && v < 16,
            None => !is_hex_char(c),
        },
{
    let u = c as u32;
    if 0x30 <= u && u <= 0x39 {
        Some((u - 0x30) as u8)
    } else if 0x61 <= u && u <= 0x66 {
        Some((u - 0x61 + 10) as u8)
    } else if 0x41 <= u && u <= 0x46 {
        Some((u - 0x41 + 10) as u8)
    } else {
        None
    }
}

/// Render bytes as lowercase hex.
fn hex_string(bytes: &Vec<u8>) -> (r: String)
    ensures
        r@ == hex_of(bytes@),
        r@.len() == 2 * bytes@.len(),
{
    let mut out: Vec<u8> = Vec::new();
    let mut i: usize = 0;
    while i < bytes.len()
        invariant
            i <= bytes@.len(),
            out@.len() == 2 * i,
            forall|k: int|
                0 <= k < out@.len() ==> #[trigger] out@[k] < 128 && out@[k] as char == hex_of(
                    bytes@,
                )[k],
        decreases bytes@.len() - i,
    {
        let b = bytes[i];
        let hi = b / 16;
        let lo = b % 16;
        let hi_c: u8 = if hi < 10 {
            0x30 + hi
        } else {
            0x61 + (hi - 10)
        };
        let lo_c: u8 = if lo < 10 {
            0x30 + lo
        } else {
            0x61 + (lo - 10)
        };
        out.push(hi_c);
        out.push(lo_c);
        i = i + 1;
    }
    let s = ascii_to_string(out);
    proof {
        assert(s@ =~= hex_of(bytes@));
    }
    s
}

/// Compute the content hash of a byte slice.
pub fn hash_data(data: &[u8]) -> (r: ContentHash)
    ensures
        r@ == blake3_of(data@),
        r.wf(),
{
    let bytes = blake3_bytes(data);
    ContentHash::from_bytes(bytes)
}

/// Compute the content hash and render it as hex.
pub fn hash_hex(data: &[u8]) -> (r: String)
    ensures
        r@ == hex_of(blake3_of(data@)),
{
    let h = hash_data(data);
    h.to_hex()
}

/// Verify that data matches an expected hash.
pub fn verify_hash(data: &[u8], expected: &ContentHash) -> (r: bool)
    ensures
        r == (blake3_of(data@) == expected@),
{
    let h = hash_data(data);
    bytes_eq(h.as_bytes().as_slice(), expected.as_bytes().as_slice())
}

#[verifier::external_type_specification]
#[verifier::external_body]
pub struct ExBlake3Hasher(blake3::Hasher);

/// The bytes a hasher has absorbed so far, in order. Named but not
/// written out: nothing is assumed of it beyond how the hasher's
/// operations extend it.
pub uninterp spec fn absorbed_of(h: blake3::Hasher) -> Seq<u8>;

/// Relies on blake3::Hasher::new: a fresh hasher with nothing absorbed.
#[verifier::external_body]
fn hasher_new() -> (r: blake3::Hasher)
    ensures
        absorbed_of(r) == Seq::<u8>::empty(),
{
    blake3::Hasher::new()
}

/// Relies on blake3::Hasher::update: absorbs the given bytes after
/// everything absorbed before.
#[verifier::external_body]
fn hasher_update(h: &mut blake3::Hasher, data: &[u8])
    ensures
        absorbed_of(*final(h)) == absorbed_of(*old(h)) + data@,
{
    h.update(data);
}

/// Relies on blake3::Hasher::finalize: the 32-byte digest of the
/// absorbed bytes, equal to hashing them in one call.
#[verifier::external_body]
fn hasher_finalize(h: &blake3::Hasher) -> (r: Vec<u8>)
    ensures
        r@ == blake3_of(absorbed_of(*h)),
        r@.len() == 32,
{
    h.finalize().as_bytes().to_vec()
}

/// Relies on blake3::Hasher::reset: nothing absorbed afterwards.
#[verifier::external_body]
fn hasher_reset(h: &mut blake3::Hasher)
    ensures
        absorbed_of(*final(h)) == Seq::<u8>::empty(),
{
    h.reset();
}

/// Incremental hasher: streams updates into the hash function and
/// finalizes to the digest of their concatenation, in constant memory.
pub struct IncrementalHasher {
    inner: blake3::Hasher,
    processed: u64,
}

impl IncrementalHasher {
    /// The bytes absorbed so far, for contracts.
    pub closed spec fn absorbed(&self) -> Seq<u8> {
        absorbed_of(self.inner)
    }

    /// The byte counter tracks the absorbed length.
    pub open spec fn wf(&self) -> bool {
        self.spec_processed() == self.absorbed().len()
    }

    /// The byte counter, for contracts.
    pub closed spec fn spec_processed(&self) -> u64 {
        self.processed
    }

    /// Create a fresh hasher with nothing absorbed.
    pub fn new() -> (r: Self)
        ensures
            r.wf(),
            r.absorbed().len() == 0,
    {
        Self { inner: hasher_new(), processed: 0 }
    }

    /// Absorb more data.
    pub fn update(&mut self, data: &[u8])
        requires
            old(self).wf(),
            old(self).absorbed().len() + data@.len() <= u64::MAX,
        ensures
            final(self).wf(),
            final(self).absorbed() == old(self).absorbed() + data@,
    {
        let n = data.len();
        proof {
            assert(data@.len() == n);
        }
        hasher_update(&mut self.inner, data);
        self.processed = self.processed + n as u64;
    }

    /// The number of bytes absorbed so far.
    pub fn bytes_processed(&self) -> (r: u64)
        requires
            self.wf(),
        ensures
            r == self.absorbed().len(),
    {
        self.processed
    }

    /// Finalize: the hash of the concatenation of all updates.
    pub fn finalize(self) -> (r: ContentHash)
        ensures
            r@ == blake3_of(self.absorbed()),
            r.wf(),
    {
        ContentHash::from_bytes(hasher_finalize(&self.inner))
    }

    /// Finalize but keep the hasher, cleared, for continued use.
    pub fn finalize_reset(&mut self) -> (r: ContentHash)
        ensures
            r@ == blake3_of(old(self).absorbed()),
            r.wf(),
            final(self).wf(),
            final(self).absorbed().len() == 0,
    {
        let h = ContentHash::from_bytes(hasher_finalize(&self.inner));
        hasher_reset(&mut self.inner);
        self.processed = 0;
        h
    }
}

impl Default for IncrementalHasher {
    /// A fresh hasher with nothing absorbed.
    fn default() -> (r: Self)
        ensures
            r.wf(),
            r.absorbed().len() == 0,
    {
        Self::new()
    }
}

/// Hashing is a function of the input bytes alone: equal inputs have
/// equal digests. (That distinct inputs collide only with negligible
/// probability is a property of the underlying hash function, checked by
/// tests, not provable here.)
pub proof fn lemma_hash_deterministic(a: Seq<u8>, b: Seq<u8>)
    requires
        a == b,
    ensures
        blake3_of(a) == blake3_of(b),
{
}

/// Hex round-trip: decoding the canonical hex encoding of a digest gives
/// back the digest, and the encoding is 64 hex characters for a 32-byte
/// digest.
pub proof fn lemma_hex_roundtrip(h: Seq<u8>)
    ensures
        hex_decode(hex_of(h)) =~= h,
        h.len() == 32 ==> hex_of(h).len() == 64,
        forall|i: int| 0 <= i < hex_of(h).len() ==> is_hex_char(#[trigger] hex_of(h)[i]),
{
    assert forall|i: int| 0 <= i < hex_of(h).len() implies is_hex_char(
        #[trigger] hex_of(h)[i],
    ) by {
        let b = h[i / 2] as int;
        assert(0 <= b < 256);
        if i % 2 == 0 {
            assert(0 <= b / 16 < 16);
        } else {
            assert(0 <= b % 16 < 16);
        }
    }
    assert forall|k: int| 0 <= k < h.len() implies hex_decode(hex_of(h))[k] == h[k] by {
        let b = h[k] as int;
        assert(hex_of(h)[2 * k] == hex_digit(b / 16));
        assert(hex_of(h)[2 * k + 1] == hex_digit(b % 16));
        assert(hex_char_val(hex_digit(b / 16)) == b / 16);
        assert(hex_char_val(hex_digit(b % 16)) == b % 16);
        assert(b / 16 * 16 + b % 16 == b);
    }
}

} // verus!
