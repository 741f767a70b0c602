//! Content-addressed chunk storage: fixed-size deterministic chunking,
//! a deduplicating in-memory store keyed by content hash, and garbage
//! collection against a live set.

use crate::errors::VdfsError;
use crate::hashing::{blake3_of, hash_data, hex_of, ContentHash};
use crate::textutil::bytes_eq;
use vstd::prelude::*;

verus! {

/// Default chunk size (64 KiB).
pub const DEFAULT_CHUNK_SIZE: usize = 64 * 1024;

/// A content-addressed chunk of data. Its id is the digest of its data.
#[derive(Debug)]
pub struct Chunk {
    /// The chunk's content hash, which is also its id
    pub id: ContentHash,
    /// The raw data
    pub data: Vec<u8>,
}

impl Chunk {
    /// A well-formed chunk's id is the digest of its data.
    pub open spec fn wf(&self) -> bool {
        self.id@ == blake3_of(self.data@) && self.id.wf()
    }

    /// Create a chunk from data; the id is the data's digest.
    pub fn new(data: Vec<u8>) -> (r: Self)
        ensures
            r.data@ == data@,
            r.wf(),
    {
        let id = hash_data(data.as_slice());
        Self { id, data }
    }

    /// Verify the chunk's integrity: its data still hashes to its id.
    pub fn verify(&self) -> (r: bool)
        ensures
            r == (blake3_of(self.data@) == self.id@),
    {
        let computed = hash_data(self.data.as_slice());
        bytes_eq(computed.as_bytes().as_slice(), self.id.as_bytes().as_slice())
    }

    /// The chunk size in bytes.
    pub fn size(&self) -> (r: usize)
        ensures
            r == self.data@.len(),
    {
        self.data.len()
    }
}

impl Clone for Chunk {
    /// A copy with the same id and data.
    fn clone(&self) -> (r: Self)
        ensures
            r.id@ == self.id@,
            r.data@ == self.data@,
            self.wf() ==> r.wf(),
    {
        let mut data: Vec<u8> = Vec::new();
        let mut i: usize = 0;
        while i < self.data.len()
            invariant
                i <= self.data@.len(),
                data@ == self.data@.subrange(0, i as int),
            decreases self.data@.len() - i,
        {
            data.push(self.data[i]);
            proof {
                assert(data@ =~= self.data@.subrange(0, i + 1));
            }
            i = i + 1;
        }
        proof {
            assert(data@ =~= self.data@);
        }
        Self { id: self.id.clone(), data }
    }
}

/// The concatenation of the data of a sequence of chunks, in order.
pub open spec fn concat_data(s: Seq<Chunk>) -> Seq<u8>
    decreases s.len(),
{
    if s.len() == 0 {
        Seq::empty()
    } else {
        concat_data(s.drop_last()) + s.last().data@
    }
}

proof fn lemma_concat_data_push(s: Seq<Chunk>, c: Chunk)
    ensures
        concat_data(s.push(c)) == concat_data(s) + c.data@,
{
    assert(s.push(c).drop_last() =~= s);
}

/// The concatenation also peels off the front: first chunk, then the
/// rest.
pub proof fn lemma_concat_data_first(s: Seq<Chunk>)
    requires
        s.len() > 0,
    ensures
        concat_data(s) == s[0].data@ + concat_data(s.drop_first()),
    decreases s.len(),
{
    if s.len() == 1 {
        assert(s.drop_last() =~= Seq::<Chunk>::empty());
        assert(s.drop_first() =~= Seq::<Chunk>::empty());
        assert(s.last() == s[0]);
        assert(concat_data(Seq::<Chunk>::empty()) =~= Seq::<u8>::empty());
        assert(Seq::<u8>::empty() + s[0].data@ =~= s[0].data@);
        assert(s[0].data@ + Seq::<u8>::empty() =~= s[0].data@);
    } else {
        lemma_concat_data_first(s.drop_last());
        assert(s.drop_last()[0] == s[0]);
        assert(s.drop_last().drop_first() =~= s.drop_first().drop_last());
        assert(s.drop_first().last() == s.last());
        assert((s[0].data@ + concat_data(s.drop_first().drop_last())) + s.last().data@
            =~= s[0].data@ + (concat_data(s.drop_first().drop_last()) + s.last().data@));
    }
}

/// Whether the chunk list holds a chunk with the given id.
pub open spec fn has_chunk(s: Seq<Chunk>, id: Seq<u8>) -> bool {
    exists|i: int| 0 <= i < s.len() && (#[trigger] s[i]).id@ == id
}

/// Split data into fixed-size chunks.
///
/// Produces ceiling(len / chunk_size) chunks whose data concatenates back
/// to the input; every chunk but the last has exactly chunk_size bytes,
/// and the last has between 1 and chunk_size.
pub fn chunk_data(data: &[u8], chunk_size: usize) -> (r: Vec<Chunk>)
    requires
        chunk_size > 0,
    ensures
        concat_data(r@) == data@,
        data@.len() == 0 ==> r@.len() == 0,
        data@.len() > 0 ==> r@.len() == (data@.len() + chunk_size - 1) / (chunk_size as int),
        forall|i: int| 0 <= i < r@.len() ==> (#[trigger] r@[i]).wf(),
        forall|i: int|
            0 <= i < r@.len() - 1 ==> (#[trigger] r@[i]).data@.len() == chunk_size,
        r@.len() > 0 ==> 0 < r@.last().data@.len() <= chunk_size,
{
    let mut out: Vec<Chunk> = Vec::new();
    let mut pos: usize = 0;
    let dlen = data.len();
    proof {
        assert(concat_data(out@) =~= data@.subrange(0, 0));
    }
    while pos < dlen
        invariant
            chunk_size > 0,
            dlen == data@.len(),
            pos <= dlen,
            concat_data(out@) == data@.subrange(0, pos as int),
            forall|i: int| 0 <= i < out@.len() ==> (#[trigger] out@[i]).wf(),
            forall|i: int|
                0 <= i < out@.len() - 1 ==> (#[trigger] out@[i]).data@.len() == chunk_size,
            (pos == out@.len() * chunk_size && (forall|i: int|
                0 <= i < out@.len() ==> (#[trigger] out@[i]).data@.len() == chunk_size)) || (pos
                == dlen && out@.len() >= 1 && dlen == (out@.len() - 1) * chunk_size
                + out@.last().data@.len() && 0 < out@.last().data@.len() < chunk_size),
        decreases dlen - pos,
    {
        let remaining = dlen - pos;
        let take = if remaining < chunk_size {
            remaining
        } else {
            chunk_size
        };
        let mut piece: Vec<u8> = Vec::new();
        let mut k: usize = 0;
        while k < take
            invariant
                dlen == data@.len(),
                pos + take <= dlen,
                k <= take,
                piece@ == data@.subrange(pos as int, pos + k),
            decreases take - k,
        {
            piece.push(data[pos + k]);
            proof {
                assert(piece@ =~= data@.subrange(pos as int, pos + k + 1));
            }
            k = k + 1;
        }
        let ghost prev_out = out@;
        let ghost prev_pos = pos as int;
        let chunk = Chunk::new(piece);
        out.push(chunk);
        proof {
            lemma_concat_data_push(prev_out, out@.last());
            assert(concat_data(out@) =~= data@.subrange(0, prev_pos + take));
            assert forall|i: int| 0 <= i < out@.len() - 1 implies (
            #[trigger] out@[i]).data@.len() == chunk_size by {
                assert(out@[i] == prev_out[i]);
            }
        }
        proof {
            if take == chunk_size {
                assert((prev_out.len() + 1) * chunk_size == prev_out.len() * chunk_size
                    + chunk_size) by (nonlinear_arith);
            } else {
                assert((prev_out.len() + 1 - 1) * chunk_size == prev_out.len() * chunk_size)
                    by (nonlinear_arith);
            }
        }
        pos = pos + take;
    }
    proof {
        assert(data@.subrange(0, data@.len() as int) =~= data@);
        if dlen > 0 {
            if pos == out@.len() * chunk_size && (forall|i: int|
                0 <= i < out@.len() ==> (#[trigger] out@[i]).data@.len() == chunk_size) {
                lemma_ceil_div_exact(out@.len() as int, chunk_size as int, dlen as int);
                assert(out@.len() >= 1) by (nonlinear_arith)
                    requires
                        out@.len() * chunk_size == dlen && dlen > 0 && chunk_size > 0,
                ;
                assert(out@.last().data@.len() == chunk_size);
            } else {
                lemma_ceil_div_short(
                    out@.len() as int - 1,
                    chunk_size as int,
                    out@.last().data@.len() as int,
                );
            }
        }
    }
    out
}

/// Ceiling-division arithmetic for a whole number of full chunks:
/// n * s bytes split into s-byte chunks is exactly n chunks.
proof fn lemma_ceil_div_exact(n: int, s: int, len: int)
    requires
        s > 0,
        n >= 1,
        len == n * s,
    ensures
        (len + s - 1) / s == n,
{
    assert((n * s + s - 1) / s == n) by (nonlinear_arith)
        requires
            s > 0 && n >= 1,
    ;
}

/// Ceiling-division arithmetic for a final short chunk: n full chunks
/// plus one of t bytes (0 < t < s) is n + 1 chunks.
proof fn lemma_ceil_div_short(n: int, s: int, t: int)
    requires
        s > 0,
        n >= 0,
        0 < t < s,
    ensures
        (n * s + t + s - 1) / s == n + 1,
{
    assert((n * s + t + s - 1) / s == n + 1) by (nonlinear_arith)
        requires
            s > 0 && n >= 0 && 0 < t < s,
    ;
}

/// Reassemble chunks into the original data by concatenating their data
/// in order.
pub fn reassemble_chunks(chunks: &[Chunk]) -> (r: Vec<u8>)
    ensures
        r@ == concat_data(chunks@),
{
    let mut out: Vec<u8> = Vec::new();
    let mut i: usize = 0;
    proof {
        assert(chunks@.subrange(0, 0) =~= Seq::<Chunk>::empty());
        assert(out@ =~= concat_data(chunks@.subrange(0, 0)));
    }
    while i < chunks.len()
        invariant
            i <= chunks@.len(),
            out@ == concat_data(chunks@.subrange(0, i as int)),
        decreases chunks@.len() - i,
    {
        let mut k: usize = 0;
        let ghost prev = out@;
        while k < chunks[i].data.len()
            invariant
                i < chunks@.len(),
                k <= chunks@[i as int].data@.len(),
                out@ == prev + chunks@[i as int].data@.subrange(0, k as int),
            decreases chunks@[i as int].data@.len() - k,
        {
            out.push(chunks[i].data[k]);
            proof {
                assert(out@ =~= prev + chunks@[i as int].data@.subrange(0, k + 1));
            }
            k = k + 1;
        }
        proof {
            assert(chunks@.subrange(0, i + 1).drop_last() =~= chunks@.subrange(0, i as int));
            assert(chunks@[i as int].data@.subrange(0, chunks@[i as int].data@.len() as int)
                =~= chunks@[i as int].data@);
            assert(out@ =~= concat_data(chunks@.subrange(0, i + 1)));
        }
        i = i + 1;
    }
    proof {
        assert(chunks@.subrange(0, chunks@.len() as int) =~= chunks@);
    }
    out
}

/// The sum of the data lengths of stored chunks.
pub open spec fn store_total(s: Seq<Chunk>) -> int
    decreases s.len(),
{
    if s.len() == 0 {
        0
    } else {
        store_total(s.drop_last()) + s.last().data@.len()
    }
}

proof fn lemma_store_total_nonneg(s: Seq<Chunk>)
    ensures
        store_total(s) >= 0,
    decreases s.len(),
{
    if s.len() > 0 {
        lemma_store_total_nonneg(s.drop_last());
    }
}

proof fn lemma_store_total_remove(s: Seq<Chunk>, i: int)
    requires
        0 <= i < s.len(),
    ensures
        store_total(s.remove(i)) == store_total(s) - s[i].data@.len(),
    decreases s.len(),
{
    if i == s.len() - 1 {
        assert(s.remove(i) =~= s.drop_last());
    } else {
        lemma_store_total_remove(s.drop_last(), i);
        assert(s.remove(i).drop_last() =~= s.drop_last().remove(i));
        assert(s.remove(i).last() == s.last());
    }
}

proof fn lemma_store_total_prefix_mono(s: Seq<Chunk>, i: int)
    requires
        0 <= i <= s.len(),
    ensures
        store_total(s.subrange(0, i)) <= store_total(s),
    decreases s.len() - i,
{
    if i == s.len() {
        assert(s.subrange(0, i) =~= s);
    } else {
        assert(s.subrange(0, i + 1).drop_last() =~= s.subrange(0, i));
        assert(s.subrange(0, i + 1).last() == s[i]);
        lemma_store_total_prefix_mono(s, i + 1);
    }
}

/// The index of the chunk with the given id (ids are unique).
pub open spec fn chunk_index(s: Seq<Chunk>, id: Seq<u8>) -> int {
    choose|i: int| 0 <= i < s.len() && (#[trigger] s[i]).id@ == id
}

/// The data stored under the given id.
pub open spec fn stored_data(s: Seq<Chunk>, id: Seq<u8>) -> Seq<u8> {
    s[chunk_index(s, id)].data@
}

/// When index `i` holds id `x` in a unique-id list, the stored data at
/// `x` is exactly that chunk's data.
proof fn lemma_stored_data_at(s: Seq<Chunk>, i: int, x: Seq<u8>)
    requires
        forall|a: int, b: int| 0 <= a < b < s.len() ==> s[a].id@ != s[b].id@,
        0 <= i < s.len(),
        s[i].id@ == x,
    ensures
        chunk_index(s, x) == i,
        stored_data(s, x) == s[i].data@,
{
    let j = chunk_index(s, x);
    assert(0 <= j < s.len() && s[j].id@ == x);
    if j != i {
        if j < i {
            assert(s[j].id@ != s[i].id@);
        } else {
            assert(s[i].id@ != s[j].id@);
        }
    }
}

/// In-memory chunk store with content-addressed deduplication.
///
/// Chunks are held with distinct ids; storing the same content twice
/// occupies one slot.
#[derive(Debug)]
pub struct ChunkStore {
    chunks: Vec<Chunk>,
    chunk_size: usize,
}

impl ChunkStore {
    /// The stored chunks, for contracts.
    pub closed spec fn spec_chunks(&self) -> Seq<Chunk> {
        self.chunks@
    }

    /// Whether some stored chunk has the given id.
    pub open spec fn contains_id(&self, id: Seq<u8>) -> bool {
        exists|i: int|
            0 <= i < self.spec_chunks().len() && (#[trigger] self.spec_chunks()[i]).id@ == id
    }

    /// Structural invariant: well-formed chunks with distinct ids, and a
    /// positive chunk size.
    pub open spec fn wf(&self) -> bool {
        &&& self.spec_chunk_size() > 0
        &&& forall|i: int|
            0 <= i < self.spec_chunks().len() ==> (#[trigger] self.spec_chunks()[i]).wf()
        &&& forall|i: int, j: int|
            0 <= i < j < self.spec_chunks().len() ==> self.spec_chunks()[i].id@
                != self.spec_chunks()[j].id@
    }

    /// The configured chunk size, for contracts.
    pub closed spec fn spec_chunk_size(&self) -> usize {
        self.chunk_size
    }

    /// Create a chunk store with the default chunk size.
    pub fn new() -> (r: Self)
        ensures
            r.wf(),
            r.spec_chunks().len() == 0,
            r.spec_chunk_size() == DEFAULT_CHUNK_SIZE,
    {
        Self { chunks: Vec::new(), chunk_size: DEFAULT_CHUNK_SIZE }
    }

    /// Create a chunk store with a custom chunk size.
    pub fn with_chunk_size(chunk_size: usize) -> (r: Self)
        requires
            chunk_size > 0,
        ensures
            r.wf(),
            r.spec_chunks().len() == 0,
            r.spec_chunk_size() == chunk_size,
    {
        Self { chunks: Vec::new(), chunk_size }
    }

    /// The configured chunk size.
    pub fn chunk_size(&self) -> (r: usize)
        ensures
            r == self.spec_chunk_size(),
    {
        self.chunk_size
    }

    /// Find the index of the chunk with the given id bytes.
    fn find_id(&self, id: &ContentHash) -> (r: Option<usize>)
        ensures
            match r {
                Some(i) => i < self.spec_chunks().len() && self.spec_chunks()[i as int].id@
                    == id@,
                None => !self.contains_id(id@),
            },
    {
        let mut i: usize = 0;
        while i < self.chunks.len()
            invariant
                i <= self.spec_chunks().len(),
                forall|k: int|
                    0 <= k < i ==> (#[trigger] self.spec_chunks()[k]).id@ != id@,
            decreases self.spec_chunks().len() - i,
        {
            if bytes_eq(self.chunks[i].id.as_bytes().as_slice(), id.as_bytes().as_slice()) {
                return Some(i);
            }
            i = i + 1;
        }
        None
    }

    /// Store a chunk, deduplicating by id: inserted only if its id is
    /// absent, so storing identical content twice leaves one entry.
    /// Returns the chunk's id.
    pub fn store(&mut self, chunk: Chunk) -> (r: ContentHash)
        requires
            old(self).wf(),
            chunk.wf(),
        ensures
            final(self).wf(),
            final(self).spec_chunk_size() == old(self).spec_chunk_size(),
            r@ == chunk.id@,
            r.wf(),
            old(self).contains_id(chunk.id@) ==> final(self).spec_chunks() == old(
                self,
            ).spec_chunks(),
            !old(self).contains_id(chunk.id@) ==> final(self).spec_chunks() == old(
                self,
            ).spec_chunks().push(chunk),
            final(self).contains_id(chunk.id@),
    {
        let id = chunk.id.clone();
        match self.find_id(&chunk.id) {
            Some(i) => {
                proof {
                    assert(self.spec_chunks()[i as int].id@ == chunk.id@);
                }
            },
            None => {
                let ghost prev = self.chunks@;
                self.chunks.push(chunk);
                proof {
                    assert(self.spec_chunks() =~= prev.push(chunk));
                    assert(self.spec_chunks()[prev.len() as int].id@ == chunk.id@);
                    assert forall|k: int|
                        0 <= k < self.spec_chunks().len() implies (
                    #[trigger] self.spec_chunks()[k]).wf() by {
                        if k < prev.len() {
                            assert(self.spec_chunks()[k] == prev[k]);
                            assert(old(self).spec_chunks()[k].wf());
                        }
                    }
                    assert forall|i: int, j: int|
                        0 <= i < j < self.spec_chunks().len() implies self.spec_chunks()[i].id@
                        != self.spec_chunks()[j].id@ by {
                        if j == prev.len() as int {
                            assert(self.spec_chunks()[i] == prev[i]);
                            assert(old(self).spec_chunks()[i].id@ != chunk.id@);
                        } else {
                            assert(self.spec_chunks()[i] == prev[i]);
                            assert(self.spec_chunks()[j] == prev[j]);
                            assert(old(self).spec_chunks()[i].id@ != old(self).spec_chunks()[
                                j
                            ].id@);
                        }
                    }
                }
            },
        }
        id
    }

    /// Store raw data as a chunk.
    pub fn store_data(&mut self, data: Vec<u8>) -> (r: ContentHash)
        requires
            old(self).wf(),
        ensures
            final(self).wf(),
            final(self).spec_chunk_size() == old(self).spec_chunk_size(),
            r@ == blake3_of(data@),
            r.wf(),
            final(self).contains_id(r@),
            old(self).contains_id(blake3_of(data@)) ==> final(self).spec_chunks() == old(
                self,
            ).spec_chunks(),
            !old(self).contains_id(blake3_of(data@)) ==> {
                &&& final(self).spec_chunks().len() == old(self).spec_chunks().len() + 1
                &&& final(self).spec_chunks().last().id@ == blake3_of(data@)
                &&& final(self).spec_chunks().last().data@ == data@
                &&& forall|i: int|
                    0 <= i < old(self).spec_chunks().len() ==> final(self).spec_chunks()[i]
                        == old(self).spec_chunks()[i]
            },
    {
        let chunk = Chunk::new(data);
        self.store(chunk)
    }

    /// Retrieve a copy of the chunk with the given id.
    pub fn get(&self, id: &ContentHash) -> (r: Result<Chunk, VdfsError>)
        requires
            self.wf(),
        ensures
            match r {
                Ok(c) => {
                    &&& self.contains_id(id@)
                    &&& c.id@ == id@
                    &&& c.data@ == stored_data(self.spec_chunks(), id@)
                },
                Err(e) => !self.contains_id(id@) && e is ChunkNotFound,
            },
    {
        match self.find_id(id) {
            Some(i) => {
                let c = self.chunks[i].clone();
                proof {
                    lemma_stored_data_at(self.spec_chunks(), i as int, id@);
                }
                Ok(c)
            },
            None => Err(VdfsError::ChunkNotFound(id.to_hex())),
        }
    }

    /// Whether a chunk with the given id is stored.
    pub fn contains(&self, id: &ContentHash) -> (r: bool)
        ensures
            r == self.contains_id(id@),
    {
        match self.find_id(id) {
            Some(i) => {
                proof {
                    assert(self.spec_chunks()[i as int].id@ == id@);
                }
                true
            },
            None => false,
        }
    }

    /// Remove and return the chunk with the given id, if present.
    pub fn remove(&mut self, id: &ContentHash) -> (r: Option<Chunk>)
        requires
            old(self).wf(),
        ensures
            final(self).wf(),
            final(self).spec_chunk_size() == old(self).spec_chunk_size(),
            match r {
                Some(c) => {
                    &&& old(self).contains_id(id@)
                    &&& c.id@ == id@
                    &&& !final(self).contains_id(id@)
                    &&& final(self).spec_chunks().len() + 1 == old(self).spec_chunks().len()
                    &&& forall|x: Seq<u8>|
                        x != id@ ==> (final(self).contains_id(x) == old(self).contains_id(x))
                },
                None => !old(self).contains_id(id@) && final(self).spec_chunks() == old(
                    self,
                ).spec_chunks(),
            },
    {
        match self.find_id(id) {
            Some(i) => {
                let ghost prev = self.chunks@;
                let c = self.chunks.remove(i);
                proof {
                    lemma_chunks_remove_keeps(prev, i as int);
                    assert(c.id@ == id@);
                    assert forall|k: int|
                        0 <= k < self.spec_chunks().len() implies (
                        #[trigger] self.spec_chunks()[k]).id@ != id@ by {
                        let k0 = if k < i { k } else { k + 1 };
                        assert(self.spec_chunks()[k] == prev[k0]);
                        if k0 < i {
                            assert(prev[k0].id@ != prev[i as int].id@);
                        } else {
                            assert(prev[i as int].id@ != prev[k0].id@);
                        }
                    }
                    assert forall|x: Seq<u8>| x != id@ implies (final(self).contains_id(x)
                        == old(self).contains_id(x)) by {
                        if old(self).contains_id(x) {
                            let w = choose|w: int|
                                0 <= w < prev.len() && (#[trigger] prev[w]).id@ == x;
                            let w2 = if w < i {
                                w
                            } else {
                                w - 1
                            };
                            assert(self.spec_chunks()[w2] == prev[w]);
                        }
                        if final(self).contains_id(x) {
                            let w = choose|w: int|
                                0 <= w < self.spec_chunks().len() && (
                                #[trigger] self.spec_chunks()[w]).id@ == x;
                            let w0 = if w < i {
                                w
                            } else {
                                w + 1
                            };
                            assert(prev[w0] == self.spec_chunks()[w]);
                        }
                    }
                }
                Some(c)
            },
            None => None,
        }
    }

    /// The number of stored chunks.
    pub fn len(&self) -> (r: usize)
        ensures
            r == self.spec_chunks().len(),
    {
        self.chunks.len()
    }

    /// Whether the store is empty.
    pub fn is_empty(&self) -> (r: bool)
        ensures
            r == (self.spec_chunks().len() == 0),
    {
        self.chunks.len() == 0
    }

    /// The ids of all stored chunks, in storage order.
    pub fn list_ids(&self) -> (r: Vec<ContentHash>)
        ensures
            r@.len() == self.spec_chunks().len(),
            forall|i: int|
                0 <= i < r@.len() ==> (#[trigger] r@[i])@ == self.spec_chunks()[i].id@,
    {
        let mut out: Vec<ContentHash> = Vec::new();
        let mut i: usize = 0;
        while i < self.chunks.len()
            invariant
                i <= self.spec_chunks().len(),
                out@.len() == i,
                forall|k: int|
                    0 <= k < i ==> (#[trigger] out@[k])@ == self.spec_chunks()[k].id@,
            decreases self.spec_chunks().len() - i,
        {
            out.push(self.chunks[i].id.clone());
            i = i + 1;
        }
        out
    }

    /// The total storage size in bytes (saturating at the top of usize).
    pub fn total_size(&self) -> (r: usize)
        ensures
            store_total(self.spec_chunks()) <= usize::MAX ==> r == store_total(
                self.spec_chunks(),
            ),
    {
        let mut total: usize = 0;
        let mut i: usize = 0;
        proof {
            assert(store_total(self.spec_chunks().subrange(0, 0)) == 0);
        }
        while i < self.chunks.len()
            invariant
                i <= self.spec_chunks().len(),
                store_total(self.spec_chunks().subrange(0, i as int)) <= usize::MAX ==> total
                    == store_total(self.spec_chunks().subrange(0, i as int)),
                total <= store_total(self.spec_chunks().subrange(0, i as int)),
            decreases self.spec_chunks().len() - i,
        {
            let sz = self.chunks[i].data.len();
            proof {
                assert(self.spec_chunks().subrange(0, i + 1).drop_last() =~= self.spec_chunks(
                ).subrange(0, i as int));
                assert(self.spec_chunks().subrange(0, i + 1).last() == self.spec_chunks()[
                    i as int
                ]);
                lemma_store_total_nonneg(self.spec_chunks().subrange(0, i as int));
            }
            total = if total <= usize::MAX - sz {
                total + sz
            } else {
                usize::MAX
            };
            i = i + 1;
        }
        proof {
            assert(self.spec_chunks().subrange(0, self.spec_chunks().len() as int)
                =~= self.spec_chunks());
        }
        total
    }

    /// Garbage collect: drop every chunk whose id is not in the live set.
    /// Returns how many chunks were removed and how many bytes were freed
    /// (saturating).
    ///
    /// Afterwards the store contains an id exactly when it contained it
    /// before and the live set names it.
    pub fn garbage_collect(&mut self, live: &Vec<ContentHash>) -> (r: (usize, usize))
        requires
            old(self).wf(),
        ensures
            final(self).wf(),
            final(self).spec_chunk_size() == old(self).spec_chunk_size(),
            forall|x: Seq<u8>|
                final(self).contains_id(x) == (old(self).contains_id(x) && exists|j: int|
                    0 <= j < live@.len() && (#[trigger] live@[j])@ == x),
            forall|x: Seq<u8>|
                final(self).contains_id(x) ==> stored_data(final(self).spec_chunks(), x)
                    == stored_data(old(self).spec_chunks(), x),
            r.0 == old(self).spec_chunks().len() - final(self).spec_chunks().len(),
            store_total(old(self).spec_chunks()) <= usize::MAX ==> r.1 == store_total(
                old(self).spec_chunks(),
            ) - store_total(final(self).spec_chunks()),
    {
        let ghost src = self.chunks@;
        let mut kept: Vec<Chunk> = Vec::new();
        let mut removed_count: usize = 0;
        let mut freed_bytes: usize = 0;
        let mut i: usize = 0;
        proof {
            assert(store_total(src.subrange(0, 0)) == 0) by {
                assert(src.subrange(0, 0) =~= Seq::<Chunk>::empty());
            }
            assert(store_total(kept@) == 0);
        }
        while i < self.chunks.len()
            invariant
                old(self).wf(),
                self.chunks@ == src,
                src == old(self).spec_chunks(),
                i <= src.len(),
                kept@.len() + removed_count == i,
                store_total(src) <= usize::MAX ==> freed_bytes + store_total(kept@)
                    == store_total(src.subrange(0, i as int)),
                forall|k: int| 0 <= k < kept@.len() ==> (#[trigger] kept@[k]).wf(),
                forall|k: int|
                    0 <= k < kept@.len() ==> exists|k0: int|
                        0 <= k0 < i && (#[trigger] kept@[k]).id@ == src[k0].id@ && kept@[
                            k
                        ].data@ == src[k0].data@ && (exists|j: int|
                            0 <= j < live@.len() && (#[trigger] live@[j])@ == src[k0].id@),
                forall|k0: int|
                    0 <= k0 < i && (exists|j: int|
                        0 <= j < live@.len() && (#[trigger] live@[j])@ == (
                        #[trigger] src[k0]).id@) ==> exists|k: int|
                        0 <= k < kept@.len() && (#[trigger] kept@[k]).id@ == src[k0].id@,
                forall|a: int, b: int|
                    0 <= a < b < kept@.len() ==> kept@[a].id@ != kept@[b].id@,
            decreases src.len() - i,
        {
            let mut in_live = false;
            let mut j: usize = 0;
            while j < live.len() && !in_live
                invariant
                    i < src.len(),
                    self.chunks@ == src,
                    j <= live@.len(),
                    in_live ==> exists|w: int|
                        0 <= w < live@.len() && (#[trigger] live@[w])@ == src[i as int].id@,
                    !in_live ==> forall|w: int|
                        0 <= w < j ==> (#[trigger] live@[w])@ != src[i as int].id@,
                decreases live@.len() - j, (if in_live { 0int } else { 1int }),
            {
                if bytes_eq(
                    live[j].as_bytes().as_slice(),
                    self.chunks[i].id.as_bytes().as_slice(),
                ) {
                    in_live = true;
                } else {
                    j = j + 1;
                }
            }
            if in_live {
                let ghost prev_kept = kept@;
                kept.push(self.chunks[i].clone());
                proof {
                    assert(kept@.last().id@ == src[i as int].id@ && kept@.last().data@ == src[
                        i as int
                    ].data@);
                    assert(kept@.drop_last() =~= prev_kept);
                    assert(src.subrange(0, i + 1).drop_last() =~= src.subrange(0, i as int));
                    assert(src.subrange(0, i + 1).last() == src[i as int]);
                    assert forall|a: int, b: int|
                        0 <= a < b < kept@.len() implies kept@[a].id@ != kept@[b].id@ by {
                        if b == kept@.len() - 1 {
                            assert(kept@[a] == prev_kept[a]);
                            let k0 = choose|k0: int|
                                0 <= k0 < i && (#[trigger] prev_kept[a]).id@ == src[k0].id@
                                    && prev_kept[a].data@ == src[k0].data@ && (exists|j: int|
                                    0 <= j < live@.len() && (#[trigger] live@[j])@ == src[
                                        k0
                                    ].id@);
                            assert(src[k0].id@ != src[i as int].id@);
                        } else {
                            assert(kept@[a] == prev_kept[a] && kept@[b] == prev_kept[b]);
                        }
                    }
                    assert forall|k0: int|
                        0 <= k0 <= i && (exists|j: int|
                            0 <= j < live@.len() && (#[trigger] live@[j])@ == (
                            #[trigger] src[k0]).id@) implies exists|k: int|
                        0 <= k < kept@.len() && (#[trigger] kept@[k]).id@ == src[k0].id@ by {
                        if k0 < i {
                            let k = choose|k: int|
                                0 <= k < prev_kept.len() && (#[trigger] prev_kept[k]).id@
                                    == src[k0].id@;
                            assert(kept@[k] == prev_kept[k]);
                        } else {
                            assert(kept@[kept@.len() - 1].id@ == src[i as int].id@);
                        }
                    }
                }
            } else {
                proof {
                    assert(src.subrange(0, i + 1).drop_last() =~= src.subrange(0, i as int));
                    assert(src.subrange(0, i + 1).last() == src[i as int]);
                    if store_total(src) <= usize::MAX {
                        lemma_store_total_prefix_mono(src, i + 1);
                        lemma_store_total_nonneg(kept@);
                    }
                    assert forall|k0: int|
                        0 <= k0 <= i && (exists|j: int|
                            0 <= j < live@.len() && (#[trigger] live@[j])@ == (
                            #[trigger] src[k0]).id@) implies exists|k: int|
                        0 <= k < kept@.len() && (#[trigger] kept@[k]).id@ == src[k0].id@ by {
                        if k0 == i {
                            let j = choose|j: int|
                                0 <= j < live@.len() && (#[trigger] live@[j])@ == src[
                                    k0
                                ].id@;
                            assert(live@[j]@ != src[i as int].id@);
                        }
                    }
                }
                removed_count = removed_count + 1;
                let sz = self.chunks[i].data.len();
                freed_bytes = if freed_bytes <= usize::MAX - sz {
                    freed_bytes + sz
                } else {
                    usize::MAX
                };
            }
            i = i + 1;
        }
        self.chunks = kept;
        proof {
            assert forall|x: Seq<u8>| self.contains_id(x) == (old(self).contains_id(x)
                && exists|j: int| 0 <= j < live@.len() && (#[trigger] live@[j])@ == x) by {
                if self.contains_id(x) {
                    let k = choose|k: int|
                        0 <= k < self.spec_chunks().len() && (#[trigger] self.spec_chunks()[
                            k
                        ]).id@ == x;
                    let k0 = choose|k0: int|
                        0 <= k0 < src.len() && (#[trigger] kept@[k]).id@ == src[k0].id@ && kept@[
                            k
                        ].data@ == src[k0].data@ && (exists|j: int|
                            0 <= j < live@.len() && (#[trigger] live@[j])@ == src[k0].id@);
                    assert(old(self).spec_chunks()[k0].id@ == x);
                }
                if old(self).contains_id(x) && (exists|j: int|
                    0 <= j < live@.len() && (#[trigger] live@[j])@ == x) {
                    let k0 = choose|k0: int|
                        0 <= k0 < src.len() && (#[trigger] src[k0]).id@ == x;
                    let k = choose|k: int|
                        0 <= k < kept@.len() && (#[trigger] kept@[k]).id@ == src[k0].id@;
                    assert(self.spec_chunks()[k].id@ == x);
                }
            }
        }
        proof {
            assert(src.subrange(0, src.len() as int) =~= src);
            assert forall|x: Seq<u8>| final(self).contains_id(x) implies stored_data(
                self.spec_chunks(),
                x,
            ) == stored_data(src, x) by {
                let k = choose|k: int|
                    0 <= k < kept@.len() && (#[trigger] kept@[k]).id@ == x;
                let k0 = choose|k0: int|
                    0 <= k0 < src.len() && (#[trigger] kept@[k]).id@ == src[k0].id@ && kept@[
                        k
                    ].data@ == src[k0].data@ && (exists|j: int|
                        0 <= j < live@.len() && (#[trigger] live@[j])@ == src[k0].id@);
                lemma_stored_data_at(self.spec_chunks(), k, x);
                lemma_stored_data_at(src, k0, x);
            }
        }
        (removed_count, freed_bytes)
    }

    /// Clear the store. Returns how many chunks were removed and how many
    /// bytes were freed (saturating).
    pub fn clear(&mut self) -> (r: (usize, usize))
        requires
            old(self).wf(),
        ensures
            final(self).wf(),
            final(self).spec_chunks().len() == 0,
            final(self).spec_chunk_size() == old(self).spec_chunk_size(),
            r.0 == old(self).spec_chunks().len(),
            store_total(old(self).spec_chunks()) <= usize::MAX ==> r.1 == store_total(
                old(self).spec_chunks(),
            ),
    {
        let count = self.chunks.len();
        let bytes = self.total_size();
        self.chunks.clear();
        (count, bytes)
    }
}

impl Default for ChunkStore {
    /// An empty store with the default chunk size.
    fn default() -> (r: Self)
        ensures
            r.wf(),
            r.spec_chunks().len() == 0,
            r.spec_chunk_size() == DEFAULT_CHUNK_SIZE,
    {
        Self::new()
    }
}

/// Removing a chunk keeps the remaining chunks well formed and distinct.
proof fn lemma_chunks_remove_keeps(s: Seq<Chunk>, i: int)
    requires
        0 <= i < s.len(),
        forall|k: int| 0 <= k < s.len() ==> (#[trigger] s[k]).wf(),
        forall|a: int, b: int| 0 <= a < b < s.len() ==> s[a].id@ != s[b].id@,
    ensures
        forall|k: int| 0 <= k < s.remove(i).len() ==> (#[trigger] s.remove(i)[k]).wf(),
        forall|a: int, b: int|
            0 <= a < b < s.remove(i).len() ==> s.remove(i)[a].id@ != s.remove(i)[b].id@,
{
    let t = s.remove(i);
    assert forall|k: int| 0 <= k < t.len() implies (#[trigger] t[k]).wf() by {
        let k0 = if k < i { k } else { k + 1 };
        assert(t[k] == s[k0]);
    }
    assert forall|a: int, b: int| 0 <= a < b < t.len() implies t[a].id@ != t[b].id@ by {
        let a0 = if a < i { a } else { a + 1 };
        let b0 = if b < i { b } else { b + 1 };
        assert(t[a] == s[a0]);
        assert(t[b] == s[b0]);
    }
}

} // verus!
