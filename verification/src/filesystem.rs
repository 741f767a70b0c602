//! Virtual filesystem facade over the chunk store and the CRDT sync
//! engine: write chunks and metadata, read back with integrity checking,
//! and query the synchronized file tree.

use crate::chunk::{chunk_data, has_chunk, reassemble_chunks, stored_data, Chunk, ChunkStore};
use crate::command::parent_of;
use crate::errors::VdfsError;
use crate::hashing::{blake3_of, hash_data, ContentHash};
use crate::metadata::{clone_hashes, metadata_eq, FileMetadata};
use crate::sync::{has_path, meta_at, SyncEngine, SyncState, SyncStatus};
use crate::textutil::str_eq;
use vstd::prelude::*;
use vstd::string::{StringExecFns, StrSliceExecFns};

verus! {

/// The virtual path a request resolves to: absolute paths are taken
/// verbatim, relative ones resolve under the mount point.
pub open spec fn resolved_path(mount: Seq<char>, p: Seq<char>) -> Seq<char> {
    if p.len() > 0 && p[0] == '/' {
        p
    } else {
        mount + seq!['/'] + p
    }
}

/// Whether every listed chunk id is present in the store.
pub open spec fn chunks_present(store: Seq<Chunk>, ids: Seq<ContentHash>) -> bool {
    forall|k: int| 0 <= k < ids.len() ==> has_chunk(store, (#[trigger] ids[k])@)
}

/// The bytes a chunk-id list reassembles to from the store, in order.
pub open spec fn reassembled(store: Seq<Chunk>, ids: Seq<ContentHash>) -> Seq<u8>
    decreases ids.len(),
{
    if ids.len() == 0 {
        Seq::empty()
    } else {
        stored_data(store, ids[0]@) + reassembled(store, ids.drop_first())
    }
}

/// Whether the path holds an entry a read can work on: a file with a
/// recorded content hash.
pub open spec fn readable_entry(files: Seq<FileMetadata>, p: Seq<char>) -> bool {
    has_path(files, p) && meta_at(files, p).file_type is File && meta_at(
        files,
        p,
    ).content_hash is Some
}

/// The recorded content hash's bytes (empty when none is recorded).
pub open spec fn content_hash_view(m: FileMetadata) -> Seq<u8> {
    match m.content_hash {
        Some(h) => h@,
        None => Seq::empty(),
    }
}

/// Chunks gathered one for one from the store concatenate to what the id
/// list reassembles to.
proof fn lemma_reassembled_gathered(store: Seq<Chunk>, ids: Seq<ContentHash>, g: Seq<Chunk>)
    requires
        g.len() == ids.len(),
        forall|k: int| 0 <= k < ids.len() ==> g[k].data@ == stored_data(store, (#[trigger] ids[k])@),
    ensures
        crate::chunk::concat_data(g) == reassembled(store, ids),
    decreases ids.len(),
{
    if ids.len() == 0 {
        assert(crate::chunk::concat_data(g) =~= Seq::<u8>::empty());
        assert(reassembled(store, ids) =~= Seq::<u8>::empty());
    } else {
        crate::chunk::lemma_concat_data_first(g);
        assert forall|k: int| 0 <= k < ids.drop_first().len() implies g.drop_first()[k].data@
            == stored_data(store, (#[trigger] ids.drop_first()[k])@) by {
            assert(ids.drop_first()[k] == ids[k + 1]);
            assert(g.drop_first()[k] == g[k + 1]);
        }
        lemma_reassembled_gathered(store, ids.drop_first(), g.drop_first());
    }
}

/// The number of regular files in a metadata list.
pub open spec fn count_files(s: Seq<FileMetadata>) -> int
    decreases s.len(),
{
    if s.len() == 0 {
        0
    } else {
        count_files(s.drop_last()) + (if s.last().file_type is File {
            1int
        } else {
            0int
        })
    }
}

/// The number of directories in a metadata list.
pub open spec fn count_dirs(s: Seq<FileMetadata>) -> int
    decreases s.len(),
{
    if s.len() == 0 {
        0
    } else {
        count_dirs(s.drop_last()) + (if s.last().file_type is Directory {
            1int
        } else {
            0int
        })
    }
}

/// The sum of the sizes of the regular files in a metadata list.
pub open spec fn sum_file_sizes(s: Seq<FileMetadata>) -> int
    decreases s.len(),
{
    if s.len() == 0 {
        0
    } else {
        sum_file_sizes(s.drop_last()) + (if s.last().file_type is File {
            s.last().size as int
        } else {
            0int
        })
    }
}

proof fn lemma_sum_file_sizes_nonneg(s: Seq<FileMetadata>)
    ensures
        sum_file_sizes(s) >= 0,
    decreases s.len(),
{
    if s.len() > 0 {
        lemma_sum_file_sizes_nonneg(s.drop_last());
    }
}

/// Filesystem statistics.
#[derive(Debug, Clone)]
pub struct FsStats {
    /// Number of files
    pub file_count: usize,
    /// Number of directories
    pub dir_count: usize,
    /// Total logical size of all files (saturating)
    pub total_size: u64,
    /// Number of unique chunks
    pub chunk_count: usize,
    /// Total chunk storage size (saturating; may be less than total_size
    /// because of deduplication)
    pub chunk_storage_size: usize,
}

/// Virtual distributed filesystem: content-addressed storage plus
/// CRDT-synchronized metadata.
pub struct VirtualFs {
    chunks: ChunkStore,
    engine: SyncEngine,
    mount_point: String,
}

impl VirtualFs {
    /// The chunk store, for contracts.
    pub closed spec fn spec_chunks(&self) -> ChunkStore {
        self.chunks
    }

    /// The sync state, for contracts.
    pub closed spec fn spec_sync(&self) -> SyncState {
        self.engine.spec_state()
    }

    /// The mount point, for contracts.
    pub closed spec fn spec_mount(&self) -> Seq<char> {
        self.mount_point@
    }

    /// Structural invariant: both halves are well formed.
    pub open spec fn wf(&self) -> bool {
        self.spec_chunks().wf() && self.spec_sync().wf()
    }

    /// Create a new virtual filesystem with the default chunk size.
    pub fn new(node_id: String, mount_point: String) -> (r: Self)
        ensures
            r.wf(),
            r.spec_mount() == mount_point@,
            r.spec_sync().spec_files().len() == 0,
            r.spec_chunks().spec_chunks().len() == 0,
    {
        Self {
            chunks: ChunkStore::new(),
            engine: SyncEngine::new(node_id),
            mount_point,
        }
    }

    /// Create with a custom chunk size.
    pub fn with_chunk_size(node_id: String, mount_point: String, chunk_size: usize) -> (r: Self)
        requires
            chunk_size > 0,
        ensures
            r.wf(),
            r.spec_mount() == mount_point@,
            r.spec_sync().spec_files().len() == 0,
            r.spec_chunks().spec_chunks().len() == 0,
            r.spec_chunks().spec_chunk_size() == chunk_size,
    {
        Self {
            chunks: ChunkStore::with_chunk_size(chunk_size),
            engine: SyncEngine::new(node_id),
            mount_point,
        }
    }

    /// The mount point.
    pub fn mount_point(&self) -> (r: &str)
        ensures
            r@ == self.spec_mount(),
    {
        self.mount_point.as_str()
    }

    /// Resolve a path against the mount point.
    fn normalize_path(&self, path: &str) -> (r: String)
        ensures
            r@ == resolved_path(self.spec_mount(), path@),
    {
        if path.unicode_len() > 0 {
            let c = path.get_char(0);
            if (c as u32) == 0x2F {
                proof {
                    assert(path@[0] == '/') by {
                        assert(('/') as u32 == 0x2F);
                    }
                }
                return path.to_owned();
            }
            proof {
                assert(path@[0] != '/') by {
                    assert(('/') as u32 == 0x2F);
                }
            }
        }
        let mut out = self.mount_point.clone();
        out.append("/");
        out.append(path);
        proof {
            reveal_strlit("/");
            assert(("/")@ =~= seq!['/']);
            assert(out@ =~= resolved_path(self.spec_mount(), path@));
        }
        out
    }

    /// Write a file: chunk the data, store the chunks, and record the
    /// metadata (a create under LWW) at the resolved path.
    pub fn write(&mut self, path: &str, data: &[u8]) -> (r: Result<FileMetadata, VdfsError>)
        requires
            old(self).wf(),
            old(self).spec_sync().spec_clock() < u64::MAX,
            data@.len() <= u64::MAX,
        ensures
            final(self).wf(),
            final(self).spec_mount() == old(self).spec_mount(),
            match r {
                Ok(m) => {
                    &&& m.path@ == resolved_path(old(self).spec_mount(), path@)
                    &&& m.file_type is File
                    &&& m.size == data@.len()
                    &&& m.content_hash matches Some(h) && h@ == blake3_of(data@)
                    &&& has_path(final(self).spec_sync().spec_files(), m.path@)
                    &&& (data@.len() == 0 ==> m.chunks@.len() == 0)
                    &&& (data@.len() > 0 ==> m.chunks@.len() == (data@.len() + old(
                        self,
                    ).spec_chunks().spec_chunk_size() - 1) / (old(
                        self,
                    ).spec_chunks().spec_chunk_size() as int))
                    &&& chunks_present(final(self).spec_chunks().spec_chunks(), m.chunks@)
                    &&& exists|pieces: Seq<Chunk>|
                        {
                            &&& crate::chunk::concat_data(pieces) == data@
                            &&& pieces.len() == m.chunks@.len()
                            &&& forall|k: int|
                                0 <= k < pieces.len() ==> (#[trigger] pieces[k]).wf()
                                    && m.chunks@[k]@ == pieces[k].id@
                        }
                },
                Err(_) => false,
            },
    {
        let normalized = self.normalize_path(path);

        let pieces = chunk_data(data, self.chunks.chunk_size());
        let mut chunk_ids: Vec<crate::hashing::ContentHash> = Vec::new();
        let mut i: usize = 0;
        while i < pieces.len()
            invariant
                old(self).wf(),
                self.chunks.wf(),
                self.engine == old(self).engine,
                self.mount_point == old(self).mount_point,
                self.chunks.spec_chunk_size() == old(self).chunks.spec_chunk_size(),
                i <= pieces@.len(),
                chunk_ids@.len() == i,
                forall|k: int| 0 <= k < pieces@.len() ==> (#[trigger] pieces@[k]).wf(),
                forall|k: int| 0 <= k < i ==> (#[trigger] chunk_ids@[k])@ == pieces@[k].id@,
                forall|k: int|
                    0 <= k < i ==> has_chunk(
                        self.spec_chunks().spec_chunks(),
                        (#[trigger] chunk_ids@[k])@,
                    ),
            decreases pieces@.len() - i,
        {
            let piece = pieces[i].clone();
            let ghost prev_chunks = self.spec_chunks().spec_chunks();
            let id = self.chunks.store(piece);
            chunk_ids.push(id);
            proof {
                assert(self.chunks.contains_id(id@));
                assert(has_chunk(self.spec_chunks().spec_chunks(), id@));
                assert forall|k: int|
                    0 <= k < i + 1 implies has_chunk(
                    self.spec_chunks().spec_chunks(),
                    (#[trigger] chunk_ids@[k])@,
                ) by {
                    if k < i {
                        let w = choose|w: int|
                            0 <= w < prev_chunks.len() && (#[trigger] prev_chunks[w]).id@
                                == chunk_ids@[k]@;
                        assert(self.spec_chunks().spec_chunks()[w] == prev_chunks[w]);
                    }
                }
            }
            i = i + 1;
        }

        let content_hash = hash_data(data);
        let metadata = FileMetadata::new_file(
            normalized,
            data.len() as u64,
            content_hash,
            chunk_ids,
        );
        let result = metadata.clone();
        let ghost final_chunks = self.spec_chunks().spec_chunks();
        self.engine.create_file(metadata);
        proof {
            assert(has_path(self.spec_sync().spec_files(), result.path@));
            assert(self.spec_chunks().spec_chunks() == final_chunks);
            assert forall|k: int|
                0 <= k < result.chunks@.len() implies has_chunk(
                final_chunks,
                (#[trigger] result.chunks@[k])@,
            ) by {
                assert(result.chunks@[k]@ == chunk_ids@[k]@);
                let w = choose|w: int|
                    0 <= w < final_chunks.len() && (#[trigger] final_chunks[w]).id@
                        == chunk_ids@[k]@;
                assert(final_chunks[w].id@ == result.chunks@[k]@);
            }
            assert(crate::chunk::concat_data(pieces@) == data@);
            assert(pieces@.len() == result.chunks@.len());
            assert forall|k: int|
                0 <= k < pieces@.len() implies (#[trigger] pieces@[k]).wf() && result.chunks@[
                k
            ]@ == pieces@[k].id@ by {
                assert(result.chunks@[k]@ == chunk_ids@[k]@);
            }
        }
        Ok(result)
    }

    /// Read a file: gather its chunks, reassemble, and check the content
    /// digest against the metadata.
    ///
    /// Fails with NotFound when the path is absent or not a file, with
    /// ChunkNotFound when a referenced chunk is missing, and with
    /// HashMismatch when the reassembled bytes do not hash to the
    /// recorded content hash; on success the returned bytes hash to it.
    pub fn read(&self, path: &str) -> (r: Result<Vec<u8>, VdfsError>)
        requires
            self.wf(),
        ensures
            ({
                let p = resolved_path(self.spec_mount(), path@);
                let files = self.spec_sync().spec_files();
                let st = self.spec_chunks().spec_chunks();
                let ids = meta_at(files, p).chunks@;
                let h = content_hash_view(meta_at(files, p));
                &&& (r is Ok <==> readable_entry(files, p) && chunks_present(st, ids)
                    && blake3_of(reassembled(st, ids)) == h)
                &&& (r matches Ok(data) ==> data@ == reassembled(st, ids))
                &&& ((r matches Err(e) && e is NotFound) <==> !readable_entry(files, p))
                &&& ((r matches Err(e) && e is ChunkNotFound) <==> readable_entry(files, p)
                    && !chunks_present(st, ids))
                &&& ((r matches Err(e) && e is HashMismatch) <==> readable_entry(files, p)
                    && chunks_present(st, ids) && blake3_of(reassembled(st, ids)) != h)
            }),
    {
        let ghost p = resolved_path(self.spec_mount(), path@);
        let ghost st = self.spec_chunks().spec_chunks();
        let normalized = self.normalize_path(path);

        let metadata = match self.engine.state().get(normalized.as_str()) {
            Some(m) => m,
            None => {
                return Err(VdfsError::NotFound(normalized));
            },
        };

        if !metadata.is_file() {
            return Err(VdfsError::NotFound(normalized));
        }
        let expected = match &metadata.content_hash {
            Some(h) => h.clone(),
            None => {
                return Err(VdfsError::NotFound(normalized));
            },
        };
        proof {
            assert(readable_entry(self.spec_sync().spec_files(), p));
            assert(expected@ == content_hash_view(meta_at(self.spec_sync().spec_files(), p)));
        }

        let mut gathered: Vec<Chunk> = Vec::new();
        let mut i: usize = 0;
        while i < metadata.chunks.len()
            invariant
                self.wf(),
                st == self.spec_chunks().spec_chunks(),
                p == resolved_path(self.spec_mount(), path@),
                readable_entry(self.spec_sync().spec_files(), p),
                metadata.chunks@ == meta_at(self.spec_sync().spec_files(), p).chunks@,
                i <= metadata.chunks@.len(),
                gathered@.len() == i,
                forall|k: int| 0 <= k < i ==> has_chunk(st, (#[trigger] metadata.chunks@[k])@),
                forall|k: int|
                    0 <= k < i ==> gathered@[k].data@ == stored_data(
                        st,
                        (#[trigger] metadata.chunks@[k])@,
                    ),
            decreases metadata.chunks@.len() - i,
        {
            match self.chunks.get(&metadata.chunks[i]) {
                Ok(c) => {
                    proof {
                        assert(has_chunk(st, metadata.chunks@[i as int]@));
                    }
                    gathered.push(c);
                },
                Err(e) => {
                    proof {
                        assert(!has_chunk(st, metadata.chunks@[i as int]@));
                        assert(!chunks_present(st, metadata.chunks@));
                    }
                    return Err(e);
                },
            }
            i = i + 1;
        }
        proof {
            assert(chunks_present(st, metadata.chunks@));
            lemma_reassembled_gathered(st, metadata.chunks@, gathered@);
        }
        let data = reassemble_chunks(gathered.as_slice());

        if !crate::hashing::verify_hash(data.as_slice(), &expected) {
            return Err(
                VdfsError::HashMismatch {
                    expected: expected.to_hex(),
                    actual: crate::hashing::hash_hex(data.as_slice()),
                },
            );
        }

        Ok(data)
    }

    /// Delete a file: drop its chunks from the store and record the
    /// deletion. (Chunks are dropped without reference counting; callers
    /// that share chunks between files should garbage-collect instead.)
    pub fn delete(&mut self, path: &str) -> (r: Result<(), VdfsError>)
        requires
            old(self).wf(),
            old(self).spec_sync().spec_clock() < u64::MAX,
        ensures
            final(self).wf(),
            final(self).spec_mount() == old(self).spec_mount(),
            match r {
                Ok(()) => {
                    &&& has_path(
                        old(self).spec_sync().spec_files(),
                        resolved_path(old(self).spec_mount(), path@),
                    )
                    &&& !has_path(
                        final(self).spec_sync().spec_files(),
                        resolved_path(old(self).spec_mount(), path@),
                    )
                },
                Err(e) => e is NotFound && !has_path(
                    old(self).spec_sync().spec_files(),
                    resolved_path(old(self).spec_mount(), path@),
                ) && *final(self) == *old(self),
            },
    {
        let normalized = self.normalize_path(path);

        let ids = match self.engine.state().get(normalized.as_str()) {
            Some(m) => clone_hashes(&m.chunks),
            None => {
                return Err(VdfsError::NotFound(normalized));
            },
        };

        let mut i: usize = 0;
        while i < ids.len()
            invariant
                self.chunks.wf(),
                self.engine == old(self).engine,
                self.mount_point == old(self).mount_point,
            decreases ids@.len() - i,
        {
            let _ = self.chunks.remove(&ids[i]);
            i = i + 1;
        }

        self.engine.delete_file(normalized);
        Ok(())
    }

    /// Create a directory entry at the resolved path.
    pub fn mkdir(&mut self, path: &str) -> (r: Result<FileMetadata, VdfsError>)
        requires
            old(self).wf(),
            old(self).spec_sync().spec_clock() < u64::MAX,
        ensures
            final(self).wf(),
            final(self).spec_mount() == old(self).spec_mount(),
            match r {
                Ok(m) => {
                    &&& m.path@ == resolved_path(old(self).spec_mount(), path@)
                    &&& m.file_type is Directory
                    &&& has_path(final(self).spec_sync().spec_files(), m.path@)
                },
                Err(_) => false,
            },
    {
        let normalized = self.normalize_path(path);
        let metadata = FileMetadata::new_directory(normalized);
        let result = metadata.clone();
        self.engine.create_file(metadata);
        proof {
            assert(has_path(self.spec_sync().spec_files(), result.path@));
        }
        Ok(result)
    }

    /// The entries whose parent is the resolved path.
    pub fn list(&self, path: &str) -> (r: Vec<FileMetadata>)
        requires
            self.wf(),
        ensures
            forall|i: int|
                0 <= i < r@.len() ==> parent_of((#[trigger] r@[i]).path@) == resolved_path(
                    self.spec_mount(),
                    path@,
                ),
            forall|j: int|
                0 <= j < self.spec_sync().spec_files().len() && parent_of(
                    (#[trigger] self.spec_sync().spec_files()[j]).path@,
                ) == resolved_path(self.spec_mount(), path@) ==> exists|k: int|
                    0 <= k < r@.len() && metadata_eq(
                        #[trigger] r@[k],
                        self.spec_sync().spec_files()[j],
                    ),
    {
        let ghost files = self.spec_sync().spec_files();
        let normalized = self.normalize_path(path);
        let entries = self.engine.state().list_files();
        let mut out: Vec<FileMetadata> = Vec::new();
        let mut i: usize = 0;
        while i < entries.len()
            invariant
                entries@.len() == files.len(),
                forall|k: int| 0 <= k < files.len() ==> metadata_eq(#[trigger] entries@[k], files[k]),
                normalized@ == resolved_path(self.spec_mount(), path@),
                files == self.spec_sync().spec_files(),
                i <= entries@.len(),
                forall|k: int|
                    0 <= k < out@.len() ==> parent_of((#[trigger] out@[k]).path@)
                        == normalized@,
                forall|j: int|
                    0 <= j < i && parent_of((#[trigger] files[j]).path@) == normalized@
                        ==> exists|k: int|
                        0 <= k < out@.len() && metadata_eq(#[trigger] out@[k], files[j]),
            decreases entries@.len() - i,
        {
            let parent = crate::command::get_parent_path(entries[i].path.as_str());
            let ghost prev_out = out@;
            if str_eq(parent.as_str(), normalized.as_str()) {
                out.push(entries[i].clone());
                proof {
                    crate::metadata::lemma_metadata_eq_transitive(
                        out@.last(),
                        entries@[i as int],
                        files[i as int],
                    );
                }
            }
            proof {
                assert(entries@[i as int].path@ == files[i as int].path@);
                assert forall|j: int|
                    0 <= j < i + 1 && parent_of((#[trigger] files[j]).path@) == normalized@
                    implies exists|k: int|
                    0 <= k < out@.len() && metadata_eq(#[trigger] out@[k], files[j]) by {
                    if j < i {
                        let k = choose|k: int|
                            0 <= k < prev_out.len() && metadata_eq(
                                #[trigger] prev_out[k],
                                files[j],
                            );
                        assert(out@[k] == prev_out[k]);
                    } else {
                        assert(metadata_eq(out@[out@.len() - 1], files[i as int]));
                    }
                }
            }
            i = i + 1;
        }
        out
    }

    /// The metadata at the resolved path.
    pub fn stat(&self, path: &str) -> (r: Result<FileMetadata, VdfsError>)
        requires
            self.wf(),
        ensures
            match r {
                Ok(m) => has_path(
                    self.spec_sync().spec_files(),
                    resolved_path(self.spec_mount(), path@),
                ) && crate::metadata::metadata_eq(
                    m,
                    meta_at(
                        self.spec_sync().spec_files(),
                        resolved_path(self.spec_mount(), path@),
                    ),
                ),
                Err(e) => e is NotFound && !has_path(
                    self.spec_sync().spec_files(),
                    resolved_path(self.spec_mount(), path@),
                ),
            },
    {
        let normalized = self.normalize_path(path);
        match self.engine.state().get(normalized.as_str()) {
            Some(m) => Ok(m.clone()),
            None => Err(VdfsError::NotFound(normalized)),
        }
    }

    /// Whether the resolved path exists.
    pub fn path_exists(&self, path: &str) -> (r: bool)
        requires
            self.wf(),
        ensures
            r == has_path(
                self.spec_sync().spec_files(),
                resolved_path(self.spec_mount(), path@),
            ),
    {
        let normalized = self.normalize_path(path);
        match self.engine.state().get(normalized.as_str()) {
            Some(_) => true,
            None => false,
        }
    }

    /// The sync status recorded for the resolved path (Synced when none
    /// is recorded).
    pub fn sync_status(&self, path: &str) -> (r: SyncStatus)
        requires
            self.wf(),
        ensures
            r == crate::sync::status_at(
                self.spec_sync().spec_status(),
                resolved_path(self.spec_mount(), path@),
            ),
    {
        let normalized = self.normalize_path(path);
        self.engine.state().get_status(normalized.as_str())
    }

    /// The chunk store.
    pub fn chunk_store(&self) -> (r: &ChunkStore)
        ensures
            r == self.spec_chunks(),
    {
        &self.chunks
    }

    /// The chunk store, mutably (for garbage collection).
    pub fn chunk_store_mut(&mut self) -> (r: &mut ChunkStore)
        ensures
            *r == old(self).spec_chunks(),
            final(self).spec_chunks() == *final(r),
            final(self).spec_sync() == old(self).spec_sync(),
            final(self).spec_mount() == old(self).spec_mount(),
    {
        &mut self.chunks
    }

    /// The sync engine, mutably (for merging with remote states).
    pub fn sync_engine_mut(&mut self) -> (r: &mut SyncEngine)
        ensures
            r.spec_state() == old(self).spec_sync(),
            final(self).spec_sync() == final(r).spec_state(),
            final(self).spec_chunks() == old(self).spec_chunks(),
            final(self).spec_mount() == old(self).spec_mount(),
    {
        &mut self.engine
    }

    /// The sync engine.
    pub fn sync_engine(&self) -> (r: &SyncEngine)
        ensures
            r.spec_state() == self.spec_sync(),
    {
        &self.engine
    }

    /// Storage statistics: the number of files and directories, the
    /// logical total size of the files (saturating), and the chunk
    /// store's entry count and byte total.
    pub fn stats(&self) -> (r: FsStats)
        requires
            self.wf(),
        ensures
            r.file_count == count_files(self.spec_sync().spec_files()),
            r.dir_count == count_dirs(self.spec_sync().spec_files()),
            sum_file_sizes(self.spec_sync().spec_files()) <= u64::MAX ==> r.total_size
                == sum_file_sizes(self.spec_sync().spec_files()),
            r.chunk_count == self.spec_chunks().spec_chunks().len(),
            crate::chunk::store_total(self.spec_chunks().spec_chunks()) <= usize::MAX
                ==> r.chunk_storage_size == crate::chunk::store_total(
                self.spec_chunks().spec_chunks(),
            ),
    {
        let ghost files = self.spec_sync().spec_files();
        let entries = self.engine.state().list_files();
        let mut file_count: usize = 0;
        let mut dir_count: usize = 0;
        let mut total_size: u64 = 0;
        let mut i: usize = 0;
        proof {
            assert(files.subrange(0, 0) =~= Seq::<FileMetadata>::empty());
        }
        while i < entries.len()
            invariant
                entries@.len() == files.len(),
                forall|k: int| 0 <= k < files.len() ==> metadata_eq(#[trigger] entries@[k], files[k]),
                i <= entries@.len(),
                file_count == count_files(files.subrange(0, i as int)),
                dir_count == count_dirs(files.subrange(0, i as int)),
                file_count + dir_count <= i,
                sum_file_sizes(files.subrange(0, i as int)) <= u64::MAX ==> total_size
                    == sum_file_sizes(files.subrange(0, i as int)),
                total_size <= sum_file_sizes(files.subrange(0, i as int)),
            decreases entries@.len() - i,
        {
            proof {
                assert(files.subrange(0, i + 1).drop_last() =~= files.subrange(0, i as int));
                assert(files.subrange(0, i + 1).last() == files[i as int]);
                lemma_sum_file_sizes_nonneg(files.subrange(0, i as int));
                assert(entries@[i as int].file_type == files[i as int].file_type);
                assert(entries@[i as int].size == files[i as int].size);
            }
            if entries[i].is_file() {
                file_count = file_count + 1;
                total_size = if total_size <= u64::MAX - entries[i].size {
                    total_size + entries[i].size
                } else {
                    u64::MAX
                };
            } else if entries[i].is_directory() {
                dir_count = dir_count + 1;
            }
            i = i + 1;
        }
        proof {
            assert(files.subrange(0, files.len() as int) =~= files);
        }
        FsStats {
            file_count,
            dir_count,
            total_size,
            chunk_count: self.chunks.len(),
            chunk_storage_size: self.chunks.total_size(),
        }
    }
}

} // verus!
