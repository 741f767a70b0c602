//! CRDT-based file synchronization: a per-node state of file metadata
//! under Last-Writer-Wins conflict resolution, an append-only operation
//! log ordered by logical clocks, and a merge that is commutative,
//! associative and idempotent on the files map.

use crate::metadata::{metadata_content_eq, metadata_eq, now_millis, FileMetadata};
use crate::textutil::str_eq;
use vstd::prelude::*;

verus! {

/// Sync status for a file.
#[derive(Debug, Clone, Copy, PartialEq, Eq, Structural)]
pub enum SyncStatus {
    /// In sync with all peers
    Synced,
    /// Local changes not yet synced
    LocalModified,
    /// Remote changes not yet applied
    RemoteModified,
    /// Conflicting changes
    Conflict,
    /// Being synced
    Syncing,
}

/// A file operation in the CRDT.
#[derive(Debug)]
pub enum FileOperation {
    /// Create a new file
    Create {
        /// The created path
        path: String,
        /// The created entry's metadata
        metadata: FileMetadata,
    },
    /// Update file content
    Update {
        /// The updated path
        path: String,
        /// The replacement metadata
        metadata: FileMetadata,
    },
    /// Delete a file
    Delete {
        /// The deleted path
        path: String,
    },
    /// Rename or move a file
    Move {
        /// The source path
        from: String,
        /// The destination path
        to: String,
    },
}

impl FileOperation {
    /// The primary path affected by this operation.
    pub fn path(&self) -> (r: &String)
        ensures
            match self {
                FileOperation::Create { path, .. } => r@ == path@,
                FileOperation::Update { path, .. } => r@ == path@,
                FileOperation::Delete { path } => r@ == path@,
                FileOperation::Move { from, .. } => r@ == from@,
            },
    {
        match self {
            FileOperation::Create { path, .. } => path,
            FileOperation::Update { path, .. } => path,
            FileOperation::Delete { path } => path,
            FileOperation::Move { from, .. } => from,
        }
    }
}

/// A timestamped operation for ordering.
#[derive(Debug)]
pub struct TimestampedOp {
    /// The operation
    pub op: FileOperation,
    /// Wallclock timestamp of the operation, milliseconds since the epoch
    pub timestamp: u64,
    /// The node that performed the operation
    pub node_id: String,
    /// Logical clock value for ordering
    pub clock: u64,
}

/// The Last-Writer-Wins predicate: a candidate replaces an existing entry
/// exactly when its version is greater, or equal with a later
/// modification time.
pub open spec fn lww_newer(candidate: FileMetadata, existing: FileMetadata) -> bool {
    candidate.version > existing.version || (candidate.version == existing.version
        && candidate.modified > existing.modified)
}

/// The winner of an LWW conflict between a local entry and a remote
/// candidate: the remote wins exactly when it is strictly newer.
pub open spec fn lww_pick(local: FileMetadata, remote: FileMetadata) -> FileMetadata {
    if lww_newer(remote, local) {
        remote
    } else {
        local
    }
}

/// Whether two metadata records agree on the LWW key (version and
/// modification time).
pub open spec fn lww_tied(a: FileMetadata, b: FileMetadata) -> bool {
    a.version == b.version && a.modified == b.modified
}

/// LWW resolution is commutative up to field equality, provided records
/// that tie on the whole LWW key are themselves equal (semantically equal
/// concurrent writes).
pub proof fn lemma_lww_pick_commutative(a: FileMetadata, b: FileMetadata)
    requires
        lww_tied(a, b) ==> metadata_eq(a, b),
    ensures
        metadata_eq(lww_pick(a, b), lww_pick(b, a)) || lww_pick(a, b) == lww_pick(b, a),
{
    if lww_newer(b, a) {
        assert(!lww_newer(a, b));
        assert(lww_pick(a, b) == b && lww_pick(b, a) == b);
    } else if lww_newer(a, b) {
        assert(lww_pick(a, b) == a && lww_pick(b, a) == a);
    } else {
        assert(lww_tied(a, b));
        assert(lww_pick(a, b) == a && lww_pick(b, a) == b);
        assert(metadata_eq(a, b));
        lemma_metadata_eq_symmetric(a, b);
    }
}

/// Field equality of metadata is symmetric.
pub proof fn lemma_metadata_eq_symmetric(a: FileMetadata, b: FileMetadata)
    requires
        metadata_eq(a, b),
    ensures
        metadata_eq(b, a),
{
}

/// LWW resolution is idempotent: a record merged with itself stays
/// itself.
pub proof fn lemma_lww_pick_idempotent(a: FileMetadata)
    ensures
        lww_pick(a, a) == a,
{
}

/// LWW resolution picks the record with the greater (version, modified)
/// key whenever the keys differ.
pub proof fn lemma_lww_resolves_by_key(a: FileMetadata, b: FileMetadata)
    requires
        !lww_tied(a, b),
    ensures
        b.version > a.version || (b.version == a.version && b.modified > a.modified)
            ==> lww_pick(a, b) == b,
        a.version > b.version || (a.version == b.version && a.modified > b.modified)
            ==> lww_pick(a, b) == a,
{
}

/// Whether the file list holds an entry at path `p`.
pub open spec fn has_path(s: Seq<FileMetadata>, p: Seq<char>) -> bool {
    exists|i: int| 0 <= i < s.len() && (#[trigger] s[i]).path@ == p
}

/// The index of the entry at path `p` (paths are unique).
pub open spec fn path_index(s: Seq<FileMetadata>, p: Seq<char>) -> int {
    choose|i: int| 0 <= i < s.len() && (#[trigger] s[i]).path@ == p
}

/// The entry at path `p`.
pub open spec fn meta_at(s: Seq<FileMetadata>, p: Seq<char>) -> FileMetadata {
    s[path_index(s, p)]
}

/// All paths in the file list are distinct.
pub open spec fn paths_unique(s: Seq<FileMetadata>) -> bool {
    forall|i: int, j: int| 0 <= i < j < s.len() ==> s[i].path@ != s[j].path@
}

/// Whether the status list holds an entry for path `p`.
pub open spec fn has_status(s: Seq<(String, SyncStatus)>, p: Seq<char>) -> bool {
    exists|i: int| 0 <= i < s.len() && (#[trigger] s[i]).0@ == p
}

/// All paths in the status list are distinct.
pub open spec fn status_paths_unique(s: Seq<(String, SyncStatus)>) -> bool {
    forall|i: int, j: int| 0 <= i < j < s.len() ==> s[i].0@ != s[j].0@
}

/// The index of the status entry for path `p` (keys are unique).
pub open spec fn status_index(s: Seq<(String, SyncStatus)>, p: Seq<char>) -> int {
    choose|i: int| 0 <= i < s.len() && (#[trigger] s[i]).0@ == p
}

/// The status recorded for a path: the stored value when one is, and
/// Synced when none is.
pub open spec fn status_at(s: Seq<(String, SyncStatus)>, p: Seq<char>) -> SyncStatus {
    if has_status(s, p) {
        s[status_index(s, p)].1
    } else {
        SyncStatus::Synced
    }
}

/// When index `i` holds path `p` in a unique-key status list, the status
/// at `p` is exactly that entry's value.
proof fn lemma_status_at_index(s: Seq<(String, SyncStatus)>, i: int, p: Seq<char>)
    requires
        status_paths_unique(s),
        0 <= i < s.len(),
        s[i].0@ == p,
    ensures
        has_status(s, p),
        status_index(s, p) == i,
        status_at(s, p) == s[i].1,
{
    let j = status_index(s, p);
    assert(0 <= j < s.len() && s[j].0@ == p);
    if j != i {
        if j < i {
            assert(s[j].0@ != s[i].0@);
        } else {
            assert(s[i].0@ != s[j].0@);
        }
    }
}

/// Whether the operation log holds an entry with the given timestamp and
/// node id (the deduplication key of the log).
pub open spec fn has_op_key(s: Seq<TimestampedOp>, timestamp: u64, node: Seq<char>) -> bool {
    exists|i: int|
        0 <= i < s.len() && (#[trigger] s[i]).timestamp == timestamp && s[i].node_id@ == node
}

/// The log is sorted by (clock, timestamp), ascending.
pub open spec fn ops_sorted(s: Seq<TimestampedOp>) -> bool {
    forall|i: int, j: int|
        0 <= i < j < s.len() ==> (s[i].clock < s[j].clock || (s[i].clock == s[j].clock && s[
            i
        ].timestamp <= s[j].timestamp))
}

/// CRDT state for file synchronization on one node.
pub struct SyncState {
    files: Vec<FileMetadata>,
    operations: Vec<TimestampedOp>,
    clock: u64,
    node_id: String,
    status: Vec<(String, SyncStatus)>,
}

impl SyncState {
    /// The file entries, for contracts.
    pub closed spec fn spec_files(&self) -> Seq<FileMetadata> {
        self.files@
    }

    /// The operation log, for contracts.
    pub closed spec fn spec_ops(&self) -> Seq<TimestampedOp> {
        self.operations@
    }

    /// The logical clock, for contracts.
    pub closed spec fn spec_clock(&self) -> u64 {
        self.clock
    }

    /// The node id, for contracts.
    pub closed spec fn spec_node_id(&self) -> Seq<char> {
        self.node_id@
    }

    /// The status entries, for contracts.
    pub closed spec fn spec_status(&self) -> Seq<(String, SyncStatus)> {
        self.status@
    }

    /// Structural invariant: unique file paths and unique status keys.
    pub open spec fn wf(&self) -> bool {
        paths_unique(self.spec_files()) && status_paths_unique(self.spec_status())
    }

    /// Create an empty state for a node.
    pub fn new(node_id: String) -> (r: Self)
        ensures
            r.wf(),
            r.spec_files().len() == 0,
            r.spec_ops().len() == 0,
            r.spec_clock() == 0,
            r.spec_node_id() == node_id@,
            r.spec_status().len() == 0,
    {
        Self {
            files: Vec::new(),
            operations: Vec::new(),
            clock: 0,
            node_id,
            status: Vec::new(),
        }
    }

    /// The current logical clock.
    pub fn clock(&self) -> (r: u64)
        ensures
            r == self.spec_clock(),
    {
        self.clock
    }

    /// This node's id.
    pub fn node_id(&self) -> (r: &str)
        ensures
            r@ == self.spec_node_id(),
    {
        self.node_id.as_str()
    }

    /// Find the index of the entry at `path`.
    fn find_file(&self, path: &str) -> (r: Option<usize>)
        ensures
            match r {
                Some(i) => i < self.spec_files().len() && self.spec_files()[i as int].path@
                    == path@,
                None => !has_path(self.spec_files(), path@),
            },
    {
        let mut i: usize = 0;
        while i < self.files.len()
            invariant
                i <= self.spec_files().len(),
                forall|k: int|
                    0 <= k < i ==> (#[trigger] self.spec_files()[k]).path@ != path@,
            decreases self.spec_files().len() - i,
        {
            if str_eq(self.files[i].path.as_str(), path) {
                return Some(i);
            }
            i = i + 1;
        }
        None
    }

    /// Get the metadata at a path.
    pub fn get(&self, path: &str) -> (r: Option<&FileMetadata>)
        requires
            self.wf(),
        ensures
            match r {
                Some(m) => has_path(self.spec_files(), path@) && *m == meta_at(
                    self.spec_files(),
                    path@,
                ),
                None => !has_path(self.spec_files(), path@),
            },
    {
        match self.find_file(path) {
            Some(i) => {
                proof {
                    lemma_meta_at_index(self.spec_files(), i as int, path@);
                }
                Some(&self.files[i])
            },
            None => None,
        }
    }

    /// Copies of all file entries, in storage order.
    pub fn list_files(&self) -> (r: Vec<FileMetadata>)
        ensures
            r@.len() == self.spec_files().len(),
            forall|i: int|
                0 <= i < r@.len() ==> metadata_eq(#[trigger] r@[i], self.spec_files()[i]),
    {
        let mut out: Vec<FileMetadata> = Vec::new();
        let mut i: usize = 0;
        while i < self.files.len()
            invariant
                i <= self.spec_files().len(),
                out@.len() == i,
                forall|k: int|
                    0 <= k < i ==> metadata_eq(#[trigger] out@[k], self.spec_files()[k]),
            decreases self.spec_files().len() - i,
        {
            out.push(self.files[i].clone());
            i = i + 1;
        }
        out
    }

    /// The sync status recorded for a path (Synced when none is).
    pub fn get_status(&self, path: &str) -> (r: SyncStatus)
        requires
            self.wf(),
        ensures
            r == status_at(self.spec_status(), path@),
    {
        let mut i: usize = 0;
        while i < self.status.len()
            invariant
                self.wf(),
                i <= self.status@.len(),
                forall|k: int| 0 <= k < i ==> (#[trigger] self.status@[k]).0@ != path@,
            decreases self.status@.len() - i,
        {
            if str_eq(self.status[i].0.as_str(), path) {
                proof {
                    lemma_status_at_index(self.spec_status(), i as int, path@);
                }
                return self.status[i].1;
            }
            i = i + 1;
        }
        proof {
            if has_status(self.spec_status(), path@) {
                let w = choose|w: int|
                    0 <= w < self.status@.len() && (#[trigger] self.status@[w]).0@ == path@;
                assert(self.status@[w].0@ != path@);
            }
        }
        SyncStatus::Synced
    }

    /// Record a sync status for a path.
    pub fn set_status(&mut self, path: String, status: SyncStatus)
        requires
            old(self).wf(),
        ensures
            final(self).wf(),
            final(self).spec_files() == old(self).spec_files(),
            final(self).spec_ops() == old(self).spec_ops(),
            final(self).spec_clock() == old(self).spec_clock(),
            final(self).spec_node_id() == old(self).spec_node_id(),
            has_status(final(self).spec_status(), path@),
            status_at(final(self).spec_status(), path@) == status,
            forall|q: Seq<char>|
                q != path@ ==> status_at(final(self).spec_status(), q) == status_at(
                    old(self).spec_status(),
                    q,
                ),
    {
        self.upsert_status(path, status);
    }

    /// Insert or replace the status entry for a path.
    fn upsert_status(&mut self, path: String, status: SyncStatus)
        requires
            status_paths_unique(old(self).spec_status()),
        ensures
            final(self).files == old(self).files,
            final(self).operations == old(self).operations,
            final(self).clock == old(self).clock,
            final(self).node_id == old(self).node_id,
            status_paths_unique(final(self).spec_status()),
            has_status(final(self).spec_status(), path@),
            status_at(final(self).spec_status(), path@) == status,
            forall|q: Seq<char>|
                q != path@ ==> has_status(final(self).spec_status(), q) == has_status(
                    old(self).spec_status(),
                    q,
                ),
            forall|q: Seq<char>|
                q != path@ ==> status_at(final(self).spec_status(), q) == status_at(
                    old(self).spec_status(),
                    q,
                ),
    {
        let ghost prev = self.status@;
        let mut i: usize = 0;
        while i < self.status.len()
            invariant
                self.status@ == prev,
                status_paths_unique(prev),
                self.files == old(self).files,
                self.operations == old(self).operations,
                self.clock == old(self).clock,
                self.node_id == old(self).node_id,
                prev == old(self).status@,
                i <= prev.len(),
                forall|k: int| 0 <= k < i ==> (#[trigger] prev[k]).0@ != path@,
            decreases prev.len() - i,
        {
            if str_eq(self.status[i].0.as_str(), path.as_str()) {
                self.status.set(i, (path, status));
                proof {
                    lemma_status_set_keeps(prev, i as int, self.status@);
                    lemma_status_at_index(self.status@, i as int, self.status@[i as int].0@);
                    assert forall|q: Seq<char>| q != self.status@[i as int].0@ implies
                        status_at(self.status@, q) == status_at(prev, q) by {
                        if has_status(prev, q) {
                            let w = choose|w: int|
                                0 <= w < prev.len() && (#[trigger] prev[w]).0@ == q;
                            assert(w != i);
                            assert(self.status@[w] == prev[w]);
                            lemma_status_at_index(prev, w, q);
                            lemma_status_at_index(self.status@, w, q);
                        }
                    }
                }
                return;
            }
            i = i + 1;
        }
        self.status.push((path, status));
        proof {
            assert forall|a: int, b: int|
                0 <= a < b < self.status@.len() implies self.status@[a].0@ != self.status@[
                b
            ].0@ by {
                if b == prev.len() as int {
                    assert(self.status@[a] == prev[a]);
                } else {
                    assert(self.status@[a] == prev[a] && self.status@[b] == prev[b]);
                }
            }
            assert(self.status@[prev.len() as int].0@ == path@);
            lemma_status_at_index(self.status@, prev.len() as int, path@);
            assert forall|q: Seq<char>| q != path@ implies has_status(self.status@, q)
                == has_status(prev, q) by {
                if has_status(self.status@, q) {
                    let k = choose|k: int|
                        0 <= k < self.status@.len() && (#[trigger] self.status@[k]).0@ == q;
                    assert(prev[k] == self.status@[k]);
                }
                if has_status(prev, q) {
                    let k = choose|k: int|
                        0 <= k < prev.len() && (#[trigger] prev[k]).0@ == q;
                    assert(self.status@[k] == prev[k]);
                }
            }
            assert forall|q: Seq<char>| q != path@ implies status_at(self.status@, q)
                == status_at(prev, q) by {
                if has_status(prev, q) {
                    let k = choose|k: int|
                        0 <= k < prev.len() && (#[trigger] prev[k]).0@ == q;
                    assert(self.status@[k] == prev[k]);
                    lemma_status_at_index(prev, k, q);
                    lemma_status_at_index(self.status@, k, q);
                }
            }
        }
    }

    /// Remove the status entry for a path, if any.
    fn remove_status(&mut self, path: &str)
        requires
            status_paths_unique(old(self).spec_status()),
        ensures
            final(self).files == old(self).files,
            final(self).operations == old(self).operations,
            final(self).clock == old(self).clock,
            final(self).node_id == old(self).node_id,
            status_paths_unique(final(self).spec_status()),
            !has_status(final(self).spec_status(), path@),
            forall|q: Seq<char>|
                q != path@ ==> has_status(final(self).spec_status(), q) == has_status(
                    old(self).spec_status(),
                    q,
                ),
            forall|q: Seq<char>|
                q != path@ ==> status_at(final(self).spec_status(), q) == status_at(
                    old(self).spec_status(),
                    q,
                ),
    {
        let ghost prev = self.status@;
        let mut i: usize = 0;
        while i < self.status.len()
            invariant
                self.status@ == prev,
                status_paths_unique(prev),
                self.files == old(self).files,
                self.operations == old(self).operations,
                self.clock == old(self).clock,
                self.node_id == old(self).node_id,
                prev == old(self).status@,
                i <= prev.len(),
                forall|k: int| 0 <= k < i ==> (#[trigger] prev[k]).0@ != path@,
            decreases prev.len() - i,
        {
            if str_eq(self.status[i].0.as_str(), path) {
                self.status.remove(i);
                proof {
                    lemma_status_remove_keeps(prev, i as int, self.status@, path@);
                    assert forall|q: Seq<char>| q != path@ implies status_at(self.status@, q)
                        == status_at(prev, q) by {
                        if has_status(prev, q) {
                            let w = choose|w: int|
                                0 <= w < prev.len() && (#[trigger] prev[w]).0@ == q;
                            assert(w != i);
                            let w2 = if w < i {
                                w
                            } else {
                                w - 1
                            };
                            assert(self.status@[w2] == prev[w]);
                            lemma_status_at_index(prev, w, q);
                            lemma_status_at_index(self.status@, w2, q);
                        }
                    }
                }
                return;
            }
            i = i + 1;
        }
        proof {
            if has_status(prev, path@) {
                let w = choose|w: int| 0 <= w < prev.len() && (#[trigger] prev[w]).0@ == path@;
                assert(prev[w].0@ != path@);
            }
        }
    }

    /// Insert or LWW-replace the file entry at `metadata.path`.
    ///
    /// When `unconditional` is set the new entry always replaces an
    /// existing one (create semantics); otherwise the existing entry is
    /// replaced only when the candidate wins the LWW comparison (update
    /// and merge semantics).
    fn upsert_file(&mut self, metadata: FileMetadata, unconditional: bool)
        requires
            paths_unique(old(self).spec_files()),
        ensures
            final(self).operations == old(self).operations,
            final(self).clock == old(self).clock,
            final(self).node_id == old(self).node_id,
            final(self).status == old(self).status,
            paths_unique(final(self).spec_files()),
            has_path(final(self).spec_files(), metadata.path@),
            forall|q: Seq<char>|
                q != metadata.path@ ==> has_path(final(self).spec_files(), q) == has_path(
                    old(self).spec_files(),
                    q,
                ),
            forall|q: Seq<char>|
                q != metadata.path@ && has_path(old(self).spec_files(), q) ==> meta_at(
                    final(self).spec_files(),
                    q,
                ) == meta_at(old(self).spec_files(), q),
            !has_path(old(self).spec_files(), metadata.path@) ==> meta_at(
                final(self).spec_files(),
                metadata.path@,
            ) == metadata,
            has_path(old(self).spec_files(), metadata.path@) && unconditional ==> meta_at(
                final(self).spec_files(),
                metadata.path@,
            ) == metadata,
            has_path(old(self).spec_files(), metadata.path@) && !unconditional ==> meta_at(
                final(self).spec_files(),
                metadata.path@,
            ) == lww_pick(meta_at(old(self).spec_files(), metadata.path@), metadata),
    {
        let ghost prev = self.files@;
        let ghost p = metadata.path@;
        let mut i: usize = 0;
        while i < self.files.len()
            invariant
                self.files@ == prev,
                paths_unique(prev),
                self.status == old(self).status,
                self.operations == old(self).operations,
                self.clock == old(self).clock,
                self.node_id == old(self).node_id,
                prev == old(self).files@,
                i <= prev.len(),
                forall|k: int| 0 <= k < i ==> (#[trigger] prev[k]).path@ != p,
                p == metadata.path@,
            decreases prev.len() - i,
        {
            if str_eq(self.files[i].path.as_str(), metadata.path.as_str()) {
                proof {
                    lemma_meta_at_index(prev, i as int, p);
                }
                let replace = if unconditional {
                    true
                } else {
                    let existing = &self.files[i];
                    metadata.version > existing.version || (metadata.version == existing.version
                        && metadata.modified > existing.modified)
                };
                if replace {
                    self.files.set(i, metadata);
                    proof {
                        lemma_files_set_keeps(prev, i as int, self.files@, p);
                        lemma_meta_at_index(self.files@, i as int, p);
                    }
                }
                return;
            }
            i = i + 1;
        }
        self.files.push(metadata);
        proof {
            assert forall|a: int, b: int|
                0 <= a < b < self.files@.len() implies self.files@[a].path@ != self.files@[
                b
            ].path@ by {
                if b == prev.len() as int {
                    assert(self.files@[a] == prev[a]);
                } else {
                    assert(self.files@[a] == prev[a] && self.files@[b] == prev[b]);
                }
            }
            lemma_meta_at_index(self.files@, prev.len() as int, p);
            assert forall|q: Seq<char>| q != p implies has_path(self.files@, q) == has_path(
                prev,
                q,
            ) by {
                if has_path(self.files@, q) {
                    let k = choose|k: int|
                        0 <= k < self.files@.len() && (#[trigger] self.files@[k]).path@ == q;
                    assert(prev[k] == self.files@[k]);
                }
                if has_path(prev, q) {
                    let k = choose|k: int|
                        0 <= k < prev.len() && (#[trigger] prev[k]).path@ == q;
                    assert(self.files@[k] == prev[k]);
                }
            }
            assert forall|q: Seq<char>| q != p && has_path(prev, q) implies meta_at(
                self.files@,
                q,
            ) == meta_at(prev, q) by {
                let k = choose|k: int|
                    0 <= k < prev.len() && (#[trigger] prev[k]).path@ == q;
                lemma_meta_at_index(prev, k, q);
                lemma_meta_at_index(self.files@, k, q);
            }
        }
    }

    /// Remove the file entry at a path, if any.
    fn remove_file(&mut self, path: &str) -> (r: Option<FileMetadata>)
        requires
            paths_unique(old(self).spec_files()),
        ensures
            final(self).operations == old(self).operations,
            final(self).clock == old(self).clock,
            final(self).node_id == old(self).node_id,
            final(self).status == old(self).status,
            paths_unique(final(self).spec_files()),
            !has_path(final(self).spec_files(), path@),
            forall|q: Seq<char>|
                q != path@ ==> has_path(final(self).spec_files(), q) == has_path(
                    old(self).spec_files(),
                    q,
                ),
            forall|q: Seq<char>|
                q != path@ && has_path(old(self).spec_files(), q) ==> meta_at(
                    final(self).spec_files(),
                    q,
                ) == meta_at(old(self).spec_files(), q),
            match r {
                Some(m) => has_path(old(self).spec_files(), path@) && m == meta_at(
                    old(self).spec_files(),
                    path@,
                ),
                None => !has_path(old(self).spec_files(), path@),
            },
    {
        let ghost prev = self.files@;
        let mut i: usize = 0;
        while i < self.files.len()
            invariant
                self.files@ == prev,
                paths_unique(prev),
                self.status == old(self).status,
                self.operations == old(self).operations,
                self.clock == old(self).clock,
                self.node_id == old(self).node_id,
                prev == old(self).files@,
                i <= prev.len(),
                forall|k: int| 0 <= k < i ==> (#[trigger] prev[k]).path@ != path@,
            decreases prev.len() - i,
        {
            if str_eq(self.files[i].path.as_str(), path) {
                proof {
                    lemma_meta_at_index(prev, i as int, path@);
                }
                let m = self.files.remove(i);
                proof {
                    lemma_files_remove_keeps(prev, i as int, self.files@, path@);
                }
                return Some(m);
            }
            i = i + 1;
        }
        None
    }
}

/// What one operation does to the files map at each path, stated as a
/// relation between the lists before and after.
pub open spec fn op_applied(
    pre: Seq<FileMetadata>,
    post: Seq<FileMetadata>,
    op: FileOperation,
) -> bool {
    match op {
        FileOperation::Create { path, metadata } => {
            &&& has_path(post, path@)
            &&& meta_at(post, path@).path@ == path@
            &&& metadata_content_eq(meta_at(post, path@), metadata)
            &&& forall|q: Seq<char>| q != path@ ==> has_path(post, q) == has_path(pre, q)
            &&& forall|q: Seq<char>|
                q != path@ && has_path(pre, q) ==> meta_at(post, q) == meta_at(pre, q)
        },
        FileOperation::Update { path, metadata } => {
            &&& has_path(post, path@)
            &&& meta_at(post, path@).path@ == path@
            &&& !has_path(pre, path@) ==> metadata_content_eq(meta_at(post, path@), metadata)
            &&& has_path(pre, path@) && lww_newer(metadata, meta_at(pre, path@))
                ==> metadata_content_eq(meta_at(post, path@), metadata)
            &&& has_path(pre, path@) && !lww_newer(metadata, meta_at(pre, path@)) ==> meta_at(
                post,
                path@,
            ) == meta_at(pre, path@)
            &&& forall|q: Seq<char>| q != path@ ==> has_path(post, q) == has_path(pre, q)
            &&& forall|q: Seq<char>|
                q != path@ && has_path(pre, q) ==> meta_at(post, q) == meta_at(pre, q)
        },
        FileOperation::Delete { path } => {
            &&& !has_path(post, path@)
            &&& forall|q: Seq<char>| q != path@ ==> has_path(post, q) == has_path(pre, q)
            &&& forall|q: Seq<char>|
                q != path@ && has_path(pre, q) ==> meta_at(post, q) == meta_at(pre, q)
        },
        FileOperation::Move { from, to } => {
            &&& !has_path(pre, from@) ==> (forall|q: Seq<char>|
                has_path(post, q) == has_path(pre, q)) && (forall|q: Seq<char>|
                has_path(pre, q) ==> meta_at(post, q) == meta_at(pre, q))
            &&& has_path(pre, from@) && from@ != to@ ==> {
                &&& !has_path(post, from@)
                &&& has_path(post, to@)
                &&& meta_at(post, to@).path@ == to@
                &&& metadata_content_eq(meta_at(post, to@), meta_at(pre, from@))
                &&& forall|q: Seq<char>|
                    q != from@ && q != to@ ==> has_path(post, q) == has_path(pre, q)
                &&& forall|q: Seq<char>|
                    q != from@ && q != to@ && has_path(pre, q) ==> meta_at(post, q) == meta_at(
                        pre,
                        q,
                    )
            }
            &&& has_path(pre, from@) && from@ == to@ ==> {
                &&& has_path(post, to@)
                &&& meta_at(post, to@).path@ == to@
                &&& metadata_content_eq(meta_at(post, to@), meta_at(pre, from@))
                &&& forall|q: Seq<char>| q != to@ ==> has_path(post, q) == has_path(pre, q)
                &&& forall|q: Seq<char>|
                    q != to@ && has_path(pre, q) ==> meta_at(post, q) == meta_at(pre, q)
            }
        },
    }
}

/// What one operation does to the status map at each path.
pub open spec fn op_status_applied(
    pre_files: Seq<FileMetadata>,
    pre: Seq<(String, SyncStatus)>,
    post: Seq<(String, SyncStatus)>,
    op: FileOperation,
) -> bool {
    match op {
        FileOperation::Create { path, .. } => {
            &&& status_at(post, path@) == SyncStatus::Synced
            &&& forall|q: Seq<char>| q != path@ ==> status_at(post, q) == status_at(pre, q)
        },
        FileOperation::Update { path, .. } => {
            &&& status_at(post, path@) == SyncStatus::Synced
            &&& forall|q: Seq<char>| q != path@ ==> status_at(post, q) == status_at(pre, q)
        },
        FileOperation::Delete { path } => {
            &&& !has_status(post, path@)
            &&& forall|q: Seq<char>| q != path@ ==> status_at(post, q) == status_at(pre, q)
        },
        FileOperation::Move { from, to } => {
            &&& !has_path(pre_files, from@) ==> post == pre
            &&& has_path(pre_files, from@) ==> {
                &&& status_at(post, to@) == SyncStatus::Synced
                &&& (from@ != to@ ==> !has_status(post, from@))
                &&& forall|q: Seq<char>|
                    q != from@ && q != to@ ==> status_at(post, q) == status_at(pre, q)
            }
        },
    }
}

/// Copy a metadata record onto a new path.
fn clone_with_path(m: &FileMetadata, path: String) -> (r: FileMetadata)
    ensures
        r.path@ == path@,
        metadata_content_eq(r, *m),
{
    let mut c = m.clone();
    c.path = path;
    c
}

impl Clone for FileOperation {
    /// A copy whose path strings and metadata match field for field.
    fn clone(&self) -> (r: Self)
        ensures
            match (self, &r) {
                (
                    FileOperation::Create { path: p1, metadata: m1 },
                    FileOperation::Create { path: p2, metadata: m2 },
                ) => p1@ == p2@ && metadata_eq(*m1, *m2),
                (
                    FileOperation::Update { path: p1, metadata: m1 },
                    FileOperation::Update { path: p2, metadata: m2 },
                ) => p1@ == p2@ && metadata_eq(*m1, *m2),
                (FileOperation::Delete { path: p1 }, FileOperation::Delete { path: p2 }) => p1@
                    == p2@,
                (
                    FileOperation::Move { from: f1, to: t1 },
                    FileOperation::Move { from: f2, to: t2 },
                ) => f1@ == f2@ && t1@ == t2@,
                _ => false,
            },
    {
        match self {
            FileOperation::Create { path, metadata } => FileOperation::Create {
                path: path.clone(),
                metadata: metadata.clone(),
            },
            FileOperation::Update { path, metadata } => FileOperation::Update {
                path: path.clone(),
                metadata: metadata.clone(),
            },
            FileOperation::Delete { path } => FileOperation::Delete { path: path.clone() },
            FileOperation::Move { from, to } => FileOperation::Move {
                from: from.clone(),
                to: to.clone(),
            },
        }
    }
}

impl Clone for TimestampedOp {
    /// A copy with the same ordering key and an equal operation.
    fn clone(&self) -> (r: Self)
        ensures
            r.timestamp == self.timestamp,
            r.node_id@ == self.node_id@,
            r.clock == self.clock,
    {
        Self {
            op: self.op.clone(),
            timestamp: self.timestamp,
            node_id: self.node_id.clone(),
            clock: self.clock,
        }
    }
}

impl SyncState {
    /// Apply one operation to the files and status maps (the log and the
    /// clock are untouched).
    pub fn apply_operation(&mut self, op: &TimestampedOp)
        requires
            old(self).wf(),
        ensures
            final(self).wf(),
            final(self).spec_ops() == old(self).spec_ops(),
            final(self).spec_clock() == old(self).spec_clock(),
            final(self).spec_node_id() == old(self).spec_node_id(),
            op_applied(old(self).spec_files(), final(self).spec_files(), op.op),
            op_status_applied(
                old(self).spec_files(),
                old(self).spec_status(),
                final(self).spec_status(),
                op.op,
            ),
    {
        match &op.op {
            FileOperation::Create { path, metadata } => {
                let m = clone_with_path(metadata, path.clone());
                self.upsert_file(m, true);
                self.upsert_status(path.clone(), SyncStatus::Synced);
            },
            FileOperation::Update { path, metadata } => {
                let m = clone_with_path(metadata, path.clone());
                proof {
                    if has_path(self.spec_files(), path@) {
                        lemma_lww_newer_respects_content(
                            m,
                            *metadata,
                            meta_at(self.spec_files(), path@),
                        );
                    }
                }
                self.upsert_file(m, false);
                self.upsert_status(path.clone(), SyncStatus::Synced);
            },
            FileOperation::Delete { path } => {
                let _ = self.remove_file(path.as_str());
                self.remove_status(path.as_str());
            },
            FileOperation::Move { from, to } => {
                let moved = self.remove_file(from.as_str());
                match moved {
                    Some(m) => {
                        let m2 = clone_with_path(&m, to.clone());
                        self.upsert_file(m2, true);
                        self.remove_status(from.as_str());
                        self.upsert_status(to.clone(), SyncStatus::Synced);
                    },
                    None => {},
                }
            },
        }
    }

    /// Apply a local operation: tick the clock, stamp the operation with
    /// this node's id and the new clock, apply it, and append it to the
    /// log.
    pub fn apply_local(&mut self, op: FileOperation)
        requires
            old(self).wf(),
            old(self).spec_clock() < u64::MAX,
        ensures
            final(self).wf(),
            final(self).spec_clock() == old(self).spec_clock() + 1,
            final(self).spec_node_id() == old(self).spec_node_id(),
            op_applied(old(self).spec_files(), final(self).spec_files(), op),
            op_status_applied(
                old(self).spec_files(),
                old(self).spec_status(),
                final(self).spec_status(),
                op,
            ),
            final(self).spec_ops().len() == old(self).spec_ops().len() + 1,
            final(self).spec_ops().last().op == op,
            final(self).spec_ops().last().clock == old(self).spec_clock() + 1,
            final(self).spec_ops().last().node_id@ == old(self).spec_node_id(),
            forall|i: int|
                0 <= i < old(self).spec_ops().len() ==> final(self).spec_ops()[i] == old(
                    self,
                ).spec_ops()[i],
    {
        self.clock = self.clock + 1;
        let stamped = TimestampedOp {
            op,
            timestamp: now_millis(),
            node_id: self.node_id.clone(),
            clock: self.clock,
        };
        self.apply_operation(&stamped);
        self.operations.push(stamped);
    }

    /// Apply a remote operation: advance the clock past the remote clock,
    /// apply it, and append it to the log.
    pub fn apply_remote(&mut self, op: TimestampedOp)
        requires
            old(self).wf(),
            old(self).spec_clock() < u64::MAX,
            op.clock < u64::MAX,
        ensures
            final(self).wf(),
            final(self).spec_clock() == (if old(self).spec_clock() >= op.clock {
                old(self).spec_clock() + 1
            } else {
                op.clock + 1
            }),
            final(self).spec_node_id() == old(self).spec_node_id(),
            op_applied(old(self).spec_files(), final(self).spec_files(), op.op),
            op_status_applied(
                old(self).spec_files(),
                old(self).spec_status(),
                final(self).spec_status(),
                op.op,
            ),
            final(self).spec_ops().len() == old(self).spec_ops().len() + 1,
            final(self).spec_ops().last() == op,
            forall|i: int|
                0 <= i < old(self).spec_ops().len() ==> final(self).spec_ops()[i] == old(
                    self,
                ).spec_ops()[i],
    {
        self.clock = if self.clock >= op.clock {
            self.clock + 1
        } else {
            op.clock + 1
        };
        self.apply_operation(&op);
        self.operations.push(op);
    }

    /// Merge another state into this one.
    ///
    /// The clock advances past both clocks; every file entry of the other
    /// state is taken where absent locally and resolved by LWW where
    /// present; the other log's entries join the log unless their
    /// (timestamp, node) key is already there; the log is re-sorted by
    /// (clock, timestamp). Commutative, associative and idempotent on the
    /// files map (see the LWW resolution laws).
    pub fn merge(&mut self, other: &SyncState)
        requires
            old(self).wf(),
            other.wf(),
            old(self).spec_clock() < u64::MAX,
            other.spec_clock() < u64::MAX,
        ensures
            final(self).wf(),
            final(self).spec_node_id() == old(self).spec_node_id(),
            final(self).spec_clock() == (if old(self).spec_clock() >= other.spec_clock() {
                old(self).spec_clock() + 1
            } else {
                other.spec_clock() + 1
            }),
            forall|q: Seq<char>| #![trigger has_path(final(self).spec_files(), q)]
                has_path(final(self).spec_files(), q) == (has_path(old(self).spec_files(), q)
                    || has_path(other.spec_files(), q)),
            forall|q: Seq<char>|
                has_path(old(self).spec_files(), q) && !has_path(other.spec_files(), q)
                    ==> meta_at(final(self).spec_files(), q) == meta_at(
                    old(self).spec_files(),
                    q,
                ),
            forall|q: Seq<char>|
                !has_path(old(self).spec_files(), q) && has_path(other.spec_files(), q)
                    ==> metadata_eq(
                    meta_at(final(self).spec_files(), q),
                    meta_at(other.spec_files(), q),
                ),
            forall|q: Seq<char>|
                has_path(old(self).spec_files(), q) && has_path(other.spec_files(), q)
                    ==> metadata_eq(
                    meta_at(final(self).spec_files(), q),
                    lww_pick(
                        meta_at(old(self).spec_files(), q),
                        meta_at(other.spec_files(), q),
                    ),
                ),
            forall|t: u64, n: Seq<char>|
                has_op_key(final(self).spec_ops(), t, n) == (has_op_key(
                    old(self).spec_ops(),
                    t,
                    n,
                ) || has_op_key(other.spec_ops(), t, n)),
            ops_sorted(final(self).spec_ops()),
            final(self).spec_status() == old(self).spec_status(),
    {
        self.clock = if self.clock >= other.clock {
            self.clock + 1
        } else {
            other.clock + 1
        };
        let ghost new_clock = self.clock;

        // Merge files under LWW.
        let ghost base = self.files@;
        let ghost theirs = other.files@;
        let mut j: usize = 0;
        while j < other.files.len()
            invariant
                paths_unique(self.files@),
                paths_unique(theirs),
                theirs == other.files@,
                base == old(self).files@,
                self.operations == old(self).operations,
                self.clock == new_clock,
                self.node_id == old(self).node_id,
                self.status == old(self).status,
                j <= theirs.len(),
                forall|q: Seq<char>| #![trigger has_path(self.files@, q)]
                    has_path(self.files@, q) == (has_path(base, q) || exists|jj: int|
                        0 <= jj < j && (#[trigger] theirs[jj]).path@ == q),
                forall|q: Seq<char>|
                    has_path(base, q) && !(exists|jj: int|
                        0 <= jj < j && (#[trigger] theirs[jj]).path@ == q) ==> meta_at(
                        self.files@,
                        q,
                    ) == meta_at(base, q),
                forall|q: Seq<char>|
                    !has_path(base, q) && (exists|jj: int|
                        0 <= jj < j && (#[trigger] theirs[jj]).path@ == q) ==> metadata_eq(
                        meta_at(self.files@, q),
                        meta_at(theirs, q),
                    ),
                forall|q: Seq<char>|
                    has_path(base, q) && (exists|jj: int|
                        0 <= jj < j && (#[trigger] theirs[jj]).path@ == q) ==> metadata_eq(
                        meta_at(self.files@, q),
                        lww_pick(meta_at(base, q), meta_at(theirs, q)),
                    ),
            decreases theirs.len() - j,
        {
            let candidate = other.files[j].clone();
            let ghost q = theirs[j as int].path@;
            let ghost pre = self.files@;
            proof {
                lemma_meta_at_index(theirs, j as int, q);
                if has_path(pre, q) {
                    lemma_lww_newer_respects_content(candidate, theirs[j as int], meta_at(pre, q));
                }
            }
            self.upsert_file(candidate, false);
            proof {
                assert(candidate.path@ == q);
                assert forall|q2: Seq<char>| #![trigger has_path(self.files@, q2)]
                    has_path(self.files@, q2) == (has_path(base, q2) || exists|jj: int|
                        0 <= jj < j + 1 && (#[trigger] theirs[jj]).path@ == q2) by {
                    if q2 == q {
                        assert(theirs[j as int].path@ == q2);
                        assert(has_path(self.files@, q2));
                    } else {
                        if has_path(self.files@, q2) {
                            assert(has_path(pre, q2));
                        }
                        if exists|jj: int|
                            0 <= jj < j + 1 && (#[trigger] theirs[jj]).path@ == q2 {
                            let jj = choose|jj: int|
                                0 <= jj < j + 1 && (#[trigger] theirs[jj]).path@ == q2;
                            assert(jj < j);
                        }
                    }
                }
                assert forall|q2: Seq<char>|
                    has_path(base, q2) && (exists|jj: int|
                        0 <= jj < j + 1 && (#[trigger] theirs[jj]).path@ == q2) implies
                    metadata_eq(
                    meta_at(self.files@, q2),
                    lww_pick(meta_at(base, q2), meta_at(theirs, q2)),
                ) by {
                    let jj = choose|jj: int|
                        0 <= jj < j + 1 && (#[trigger] theirs[jj]).path@ == q2;
                    if q2 == q {
                        assert(has_path(pre, q) == has_path(base, q));
                        assert(meta_at(pre, q) == meta_at(base, q)) by {
                            assert(!(exists|kk: int|
                                0 <= kk < j && (#[trigger] theirs[kk]).path@ == q)) by {
                                if exists|kk: int|
                                    0 <= kk < j && (#[trigger] theirs[kk]).path@ == q {
                                    let kk = choose|kk: int|
                                        0 <= kk < j && (#[trigger] theirs[kk]).path@ == q;
                                    assert(theirs[kk].path@ != theirs[j as int].path@);
                                }
                            }
                        }
                        assert(metadata_content_eq(candidate, meta_at(theirs, q)));
                        if lww_newer(candidate, meta_at(pre, q)) {
                            assert(metadata_eq(
                                meta_at(self.files@, q),
                                lww_pick(meta_at(base, q), meta_at(theirs, q)),
                            ));
                        } else {
                            assert(meta_at(self.files@, q) == meta_at(pre, q));
                            assert(lww_pick(meta_at(base, q), meta_at(theirs, q)) == meta_at(
                                base,
                                q,
                            ));
                            lemma_metadata_eq_reflexive_here(meta_at(base, q));
                        }
                    } else {
                        assert(jj < j);
                        assert(meta_at(self.files@, q2) == meta_at(pre, q2));
                    }
                }
                assert forall|q2: Seq<char>|
                    !has_path(base, q2) && (exists|jj: int|
                        0 <= jj < j + 1 && (#[trigger] theirs[jj]).path@ == q2) implies
                    metadata_eq(
                    meta_at(self.files@, q2),
                    meta_at(theirs, q2),
                ) by {
                    let jj = choose|jj: int|
                        0 <= jj < j + 1 && (#[trigger] theirs[jj]).path@ == q2;
                    if q2 == q {
                        if has_path(pre, q) {
                            assert(has_path(base, q) || exists|kk: int|
                                0 <= kk < j && (#[trigger] theirs[kk]).path@ == q);
                            if exists|kk: int|
                                0 <= kk < j && (#[trigger] theirs[kk]).path@ == q {
                                let kk = choose|kk: int|
                                    0 <= kk < j && (#[trigger] theirs[kk]).path@ == q;
                                assert(theirs[kk].path@ != theirs[j as int].path@);
                            }
                            assert(false);
                        }
                        assert(meta_at(self.files@, q) == candidate);
                    } else {
                        assert(jj < j);
                        assert(meta_at(self.files@, q2) == meta_at(pre, q2));
                    }
                }
                assert forall|q2: Seq<char>|
                    has_path(base, q2) && !(exists|jj: int|
                        0 <= jj < j + 1 && (#[trigger] theirs[jj]).path@ == q2) implies meta_at(
                    self.files@,
                    q2,
                ) == meta_at(base, q2) by {
                    assert(q2 != q);
                    assert(meta_at(self.files@, q2) == meta_at(pre, q2));
                }
            }
            j = j + 1;
        }

        // Merge the operation logs, deduplicating by (timestamp, node).
        let ghost ops_base = self.operations@;
        let ghost files_after = self.files@;
        let mut k: usize = 0;
        while k < other.operations.len()
            invariant
                self.node_id == old(self).node_id,
                self.clock == new_clock,
                self.files@ == files_after,
                self.status == old(self).status,
                paths_unique(self.files@),
                k <= other.operations@.len(),
                forall|t: u64, n: Seq<char>| #![trigger has_op_key(self.operations@, t, n)]
                    has_op_key(self.operations@, t, n) == (has_op_key(ops_base, t, n) || exists|
                    kk: int|
                        0 <= kk < k && (#[trigger] other.operations@[kk]).timestamp == t
                            && other.operations@[kk].node_id@ == n),
            decreases other.operations@.len() - k,
        {
            let ghost pre_ops = self.operations@;
            let present = self.log_has_key(
                other.operations[k].timestamp,
                &other.operations[k].node_id,
            );
            if !present {
                self.operations.push(other.operations[k].clone());
                proof {
                    assert(self.operations@.last().timestamp == other.operations@[
                        k as int
                    ].timestamp && self.operations@.last().node_id@ == other.operations@[
                        k as int
                    ].node_id@);
                    lemma_op_key_step(pre_ops, self.operations@, ops_base, other.operations@, k as int, true);
                }
            } else {
                proof {
                    lemma_op_key_step(pre_ops, self.operations@, ops_base, other.operations@, k as int, false);
                }
            }
            k = k + 1;
        }

        proof {
            assert(k == other.operations@.len());
            assert(ops_base == old(self).operations@);
            assert forall|t: u64, n: Seq<char>|
                has_op_key(self.operations@, t, n) == (has_op_key(old(self).spec_ops(), t, n)
                    || has_op_key(other.spec_ops(), t, n)) by {
                if has_op_key(other.spec_ops(), t, n) {
                    let w = choose|w: int|
                        0 <= w < other.operations@.len() && (#[trigger] other.operations@[
                            w
                        ]).timestamp == t && other.operations@[w].node_id@ == n;
                    assert(0 <= w < k && other.operations@[w].timestamp == t
                        && other.operations@[w].node_id@ == n);
                }
                if exists|kk: int|
                    0 <= kk < k && (#[trigger] other.operations@[kk]).timestamp == t
                        && other.operations@[kk].node_id@ == n {
                    let w = choose|w: int|
                        0 <= w < k && (#[trigger] other.operations@[w]).timestamp == t
                            && other.operations@[w].node_id@ == n;
                    assert(has_op_key(other.spec_ops(), t, n));
                }
            }
        }
        // Restore the log's (clock, timestamp) order.
        self.sort_ops();
    }

    /// Whether the log holds an entry with the given key.
    fn log_has_key(&self, timestamp: u64, node: &String) -> (r: bool)
        ensures
            r == has_op_key(self.spec_ops(), timestamp, node@),
    {
        let mut i: usize = 0;
        while i < self.operations.len()
            invariant
                i <= self.operations@.len(),
                forall|w: int|
                    0 <= w < i ==> !((#[trigger] self.operations@[w]).timestamp == timestamp
                        && self.operations@[w].node_id@ == node@),
            decreases self.operations@.len() - i,
        {
            if self.operations[i].timestamp == timestamp && str_eq(
                self.operations[i].node_id.as_str(),
                node.as_str(),
            ) {
                return true;
            }
            i = i + 1;
        }
        false
    }

    /// Selection-sort the log by (clock, timestamp), preserving its keys.
    fn sort_ops(&mut self)
        ensures
            final(self).files == old(self).files,
            final(self).clock == old(self).clock,
            final(self).node_id == old(self).node_id,
            final(self).status == old(self).status,
            ops_sorted(final(self).spec_ops()),
            final(self).spec_ops().len() == old(self).spec_ops().len(),
            forall|t: u64, n: Seq<char>|
                has_op_key(final(self).spec_ops(), t, n) == has_op_key(
                    old(self).spec_ops(),
                    t,
                    n,
                ),
    {
        let mut rest: Vec<TimestampedOp> = Vec::new();
        core::mem::swap(&mut rest, &mut self.operations);
        let ghost all = rest@;
        while rest.len() > 0
            invariant
                self.files == old(self).files,
                self.clock == old(self).clock,
                self.node_id == old(self).node_id,
                self.status == old(self).status,
                self.operations@.len() + rest@.len() == all.len(),
                ops_sorted(self.operations@),
                forall|a: int, b: int|
                    0 <= a < self.operations@.len() && 0 <= b < rest@.len()
                        ==> (self.operations@[a].clock < rest@[b].clock || (self.operations@[
                        a
                    ].clock == rest@[b].clock && self.operations@[a].timestamp <= rest@[
                        b
                    ].timestamp)),
                forall|t: u64, n: Seq<char>|
                    has_op_key(all, t, n) == (has_op_key(self.operations@, t, n) || has_op_key(
                        rest@,
                        t,
                        n,
                    )),
            decreases rest@.len(),
        {
            // Find the minimum of the remaining entries.
            let mut min: usize = 0;
            let mut i: usize = 1;
            while i < rest.len()
                invariant
                    rest@.len() > 0,
                    min < rest@.len(),
                    i <= rest@.len(),
                    forall|w: int|
                        0 <= w < i ==> (rest@[min as int].clock < rest@[w].clock || (rest@[
                            min as int
                        ].clock == rest@[w].clock && rest@[min as int].timestamp <= rest@[
                            w
                        ].timestamp) || w == min),
                decreases rest@.len() - i,
            {
                if rest[i].clock < rest[min].clock || (rest[i].clock == rest[min].clock
                    && rest[i].timestamp < rest[min].timestamp) {
                    min = i;
                }
                i = i + 1;
            }
            let ghost pre_sorted = self.operations@;
            let ghost pre_rest = rest@;
            let picked = rest.remove(min);
            self.operations.push(picked);
            proof {
                assert forall|a: int, b: int|
                    0 <= a < b < self.operations@.len() implies (self.operations@[a].clock
                    < self.operations@[b].clock || (self.operations@[a].clock
                    == self.operations@[b].clock && self.operations@[a].timestamp
                    <= self.operations@[b].timestamp)) by {
                    if b < pre_sorted.len() {
                        assert(self.operations@[a] == pre_sorted[a]);
                        assert(self.operations@[b] == pre_sorted[b]);
                    } else {
                        assert(self.operations@[a] == pre_sorted[a]);
                        assert(self.operations@[b] == pre_rest[min as int]);
                    }
                }
                assert forall|a: int, b: int|
                    0 <= a < self.operations@.len() && 0 <= b < rest@.len() implies (
                self.operations@[a].clock < rest@[b].clock || (self.operations@[a].clock
                    == rest@[b].clock && self.operations@[a].timestamp <= rest@[
                    b
                ].timestamp)) by {
                    let b0 = if b < min as int {
                        b
                    } else {
                        b + 1
                    };
                    assert(rest@[b] == pre_rest[b0]);
                    if a < pre_sorted.len() {
                        assert(self.operations@[a] == pre_sorted[a]);
                    } else {
                        assert(self.operations@[a] == pre_rest[min as int]);
                    }
                }
                assert forall|t: u64, n: Seq<char>|
                    has_op_key(all, t, n) == (has_op_key(self.operations@, t, n) || has_op_key(
                        rest@,
                        t,
                        n,
                    )) by {
                    if has_op_key(all, t, n) {
                        if has_op_key(pre_sorted, t, n) {
                            let w = choose|w: int|
                                0 <= w < pre_sorted.len() && (#[trigger] pre_sorted[
                                    w
                                ]).timestamp == t && pre_sorted[w].node_id@ == n;
                            assert(self.operations@[w] == pre_sorted[w]);
                        } else {
                            assert(has_op_key(pre_rest, t, n));
                            let w = choose|w: int|
                                0 <= w < pre_rest.len() && (#[trigger] pre_rest[w]).timestamp
                                    == t && pre_rest[w].node_id@ == n;
                            if w == min as int {
                                assert(self.operations@.last().timestamp == t
                                    && self.operations@.last().node_id@ == n);
                            } else {
                                let w2 = if w < min as int {
                                    w
                                } else {
                                    w - 1
                                };
                                assert(rest@[w2] == pre_rest[w]);
                            }
                        }
                    }
                    if has_op_key(self.operations@, t, n) {
                        let w = choose|w: int|
                            0 <= w < self.operations@.len() && (#[trigger] self.operations@[
                                w
                            ]).timestamp == t && self.operations@[w].node_id@ == n;
                        if w < pre_sorted.len() {
                            assert(pre_sorted[w] == self.operations@[w]);
                        } else {
                            assert(pre_rest[min as int].timestamp == t && pre_rest[
                                min as int
                            ].node_id@ == n);
                        }
                    }
                    if has_op_key(rest@, t, n) {
                        let w = choose|w: int|
                            0 <= w < rest@.len() && (#[trigger] rest@[w]).timestamp == t
                                && rest@[w].node_id@ == n;
                        let w0 = if w < min as int {
                            w
                        } else {
                            w + 1
                        };
                        assert(pre_rest[w0] == rest@[w]);
                    }
                }
            }
        }
    }

    /// A deep copy of this state: the same clock and node, and files
    /// equal entry for entry.
    pub fn clone_state(&self) -> (r: SyncState)
        requires
            self.wf(),
        ensures
            r.wf(),
            r.spec_clock() == self.spec_clock(),
            r.spec_node_id() == self.spec_node_id(),
            r.spec_files().len() == self.spec_files().len(),
            forall|i: int|
                0 <= i < r.spec_files().len() ==> metadata_eq(
                    #[trigger] r.spec_files()[i],
                    self.spec_files()[i],
                ),
    {
        let mut files: Vec<FileMetadata> = Vec::new();
        let mut i: usize = 0;
        while i < self.files.len()
            invariant
                self.wf(),
                i <= self.files@.len(),
                files@.len() == i,
                forall|k: int|
                    0 <= k < i ==> metadata_eq(#[trigger] files@[k], self.files@[k]),
            decreases self.files@.len() - i,
        {
            files.push(self.files[i].clone());
            i = i + 1;
        }
        let mut operations: Vec<TimestampedOp> = Vec::new();
        let mut j: usize = 0;
        while j < self.operations.len()
            invariant
                j <= self.operations@.len(),
            decreases self.operations@.len() - j,
        {
            operations.push(self.operations[j].clone());
            j = j + 1;
        }
        let mut status: Vec<(String, SyncStatus)> = Vec::new();
        let mut k: usize = 0;
        while k < self.status.len()
            invariant
                self.wf(),
                k <= self.status@.len(),
                status@.len() == k,
                forall|w: int| 0 <= w < k ==> (#[trigger] status@[w]).0@ == self.status@[w].0@,
            decreases self.status@.len() - k,
        {
            let entry = (self.status[k].0.clone(), self.status[k].1);
            status.push(entry);
            k = k + 1;
        }
        proof {
            assert forall|a: int, b: int|
                0 <= a < b < files@.len() implies files@[a].path@ != files@[b].path@ by {
                assert(metadata_eq(files@[a], self.files@[a]));
                assert(metadata_eq(files@[b], self.files@[b]));
            }
            assert forall|a: int, b: int|
                0 <= a < b < status@.len() implies status@[a].0@ != status@[b].0@ by {
                assert(status@[a].0@ == self.status@[a].0@);
                assert(status@[b].0@ == self.status@[b].0@);
            }
        }
        SyncState {
            files,
            operations,
            clock: self.clock,
            node_id: self.node_id.clone(),
            status,
        }
    }

    /// Copies of the log entries with clocks beyond the given value.
    pub fn operations_since(&self, clock: u64) -> (r: Vec<TimestampedOp>)
        ensures
            forall|i: int| 0 <= i < r@.len() ==> (#[trigger] r@[i]).clock > clock,
    {
        let mut out: Vec<TimestampedOp> = Vec::new();
        let mut i: usize = 0;
        while i < self.operations.len()
            invariant
                i <= self.operations@.len(),
                forall|w: int| 0 <= w < out@.len() ==> (#[trigger] out@[w]).clock > clock,
            decreases self.operations@.len() - i,
        {
            if self.operations[i].clock > clock {
                out.push(self.operations[i].clone());
            }
            i = i + 1;
        }
        out
    }
}

/// Sync engine: the per-node CRDT state behind the file operations the
/// filesystem facade issues.
pub struct SyncEngine {
    state: SyncState,
}

impl SyncEngine {
    /// The wrapped state, for contracts.
    pub closed spec fn spec_state(&self) -> SyncState {
        self.state
    }

    /// Create a new engine for a node.
    pub fn new(node_id: String) -> (r: Self)
        ensures
            r.spec_state().wf(),
            r.spec_state().spec_files().len() == 0,
            r.spec_state().spec_clock() == 0,
            r.spec_state().spec_node_id() == node_id@,
    {
        Self { state: SyncState::new(node_id) }
    }

    /// The current state.
    pub fn state(&self) -> (r: &SyncState)
        ensures
            r == self.spec_state(),
    {
        &self.state
    }

    /// The current state, mutably.
    pub fn state_mut(&mut self) -> (r: &mut SyncState)
        ensures
            *final(r) == final(self).spec_state(),
            *r == old(self).spec_state(),
    {
        &mut self.state
    }

    /// Record a local file creation.
    pub fn create_file(&mut self, metadata: FileMetadata)
        requires
            old(self).spec_state().wf(),
            old(self).spec_state().spec_clock() < u64::MAX,
        ensures
            final(self).spec_state().wf(),
            final(self).spec_state().spec_clock() == old(self).spec_state().spec_clock() + 1,
            has_path(final(self).spec_state().spec_files(), metadata.path@),
            metadata_content_eq(
                meta_at(final(self).spec_state().spec_files(), metadata.path@),
                metadata,
            ),
            forall|q: Seq<char>|
                q != metadata.path@ ==> has_path(final(self).spec_state().spec_files(), q)
                    == has_path(old(self).spec_state().spec_files(), q),
            forall|q: Seq<char>|
                q != metadata.path@ && has_path(old(self).spec_state().spec_files(), q)
                    ==> meta_at(final(self).spec_state().spec_files(), q) == meta_at(
                    old(self).spec_state().spec_files(),
                    q,
                ),
    {
        let path = metadata.path.clone();
        self.state.apply_local(FileOperation::Create { path, metadata });
    }

    /// Record a local file update (LWW against any existing entry).
    pub fn update_file(&mut self, metadata: FileMetadata)
        requires
            old(self).spec_state().wf(),
            old(self).spec_state().spec_clock() < u64::MAX,
        ensures
            final(self).spec_state().wf(),
            final(self).spec_state().spec_clock() == old(self).spec_state().spec_clock() + 1,
            has_path(final(self).spec_state().spec_files(), metadata.path@),
    {
        let path = metadata.path.clone();
        self.state.apply_local(FileOperation::Update { path, metadata });
    }

    /// Record a local file deletion.
    pub fn delete_file(&mut self, path: String)
        requires
            old(self).spec_state().wf(),
            old(self).spec_state().spec_clock() < u64::MAX,
        ensures
            final(self).spec_state().wf(),
            final(self).spec_state().spec_clock() == old(self).spec_state().spec_clock() + 1,
            !has_path(final(self).spec_state().spec_files(), path@),
            forall|q: Seq<char>|
                q != path@ ==> has_path(final(self).spec_state().spec_files(), q) == has_path(
                    old(self).spec_state().spec_files(),
                    q,
                ),
    {
        self.state.apply_local(FileOperation::Delete { path });
    }

    /// Record a local move.
    pub fn move_file(&mut self, from: String, to: String)
        requires
            old(self).spec_state().wf(),
            old(self).spec_state().spec_clock() < u64::MAX,
        ensures
            final(self).spec_state().wf(),
            final(self).spec_state().spec_clock() == old(self).spec_state().spec_clock() + 1,
            has_path(old(self).spec_state().spec_files(), from@) && from@ != to@
                ==> !has_path(final(self).spec_state().spec_files(), from@) && has_path(
                final(self).spec_state().spec_files(),
                to@,
            ),
    {
        self.state.apply_local(FileOperation::Move { from, to });
    }

    /// Merge a remote state into this one.
    pub fn sync_with(&mut self, remote: &SyncState)
        requires
            old(self).spec_state().wf(),
            remote.wf(),
            old(self).spec_state().spec_clock() < u64::MAX,
            remote.spec_clock() < u64::MAX,
        ensures
            final(self).spec_state().wf(),
            forall|q: Seq<char>|
                has_path(final(self).spec_state().spec_files(), q) == (has_path(
                    old(self).spec_state().spec_files(),
                    q,
                ) || has_path(remote.spec_files(), q)),
    {
        self.state.merge(remote);
        proof {
            assert forall|q: Seq<char>|
                has_path(self.state.spec_files(), q) == (has_path(
                    old(self).spec_state().spec_files(),
                    q,
                ) || has_path(remote.spec_files(), q)) by {
                assert(has_path(self.state.spec_files(), q) == (has_path(
                    old(self).spec_state().spec_files(),
                    q,
                ) || has_path(remote.spec_files(), q)));
            }
        }
    }
}

/// One step of the log-merge loop: pushing the k-th entry (or skipping a
/// duplicate) extends the key set by exactly that entry's key.
proof fn lemma_op_key_step(
    pre: Seq<TimestampedOp>,
    cur: Seq<TimestampedOp>,
    base: Seq<TimestampedOp>,
    theirs: Seq<TimestampedOp>,
    k: int,
    pushed: bool,
)
    requires
        0 <= k < theirs.len(),
        forall|t: u64, n: Seq<char>|
            has_op_key(pre, t, n) == (has_op_key(base, t, n) || exists|kk: int|
                0 <= kk < k && (#[trigger] theirs[kk]).timestamp == t && theirs[kk].node_id@
                    == n),
        pushed ==> cur.len() == pre.len() + 1 && cur.last().timestamp == theirs[k].timestamp
            && cur.last().node_id@ == theirs[k].node_id@ && (forall|i: int|
            0 <= i < pre.len() ==> cur[i] == pre[i]),
        !pushed ==> cur == pre && has_op_key(pre, theirs[k].timestamp, theirs[k].node_id@),
    ensures
        forall|t: u64, n: Seq<char>|
            has_op_key(cur, t, n) == (has_op_key(base, t, n) || exists|kk: int|
                0 <= kk < k + 1 && (#[trigger] theirs[kk]).timestamp == t && theirs[kk].node_id@
                    == n),
{
    assert forall|t: u64, n: Seq<char>|
        has_op_key(cur, t, n) == (has_op_key(base, t, n) || exists|kk: int|
            0 <= kk < k + 1 && (#[trigger] theirs[kk]).timestamp == t && theirs[kk].node_id@
                == n) by {
        if has_op_key(cur, t, n) {
            let w = choose|w: int|
                0 <= w < cur.len() && (#[trigger] cur[w]).timestamp == t && cur[w].node_id@
                    == n;
            if w < pre.len() {
                assert(pre[w].timestamp == t && pre[w].node_id@ == n);
            } else {
                assert(pushed);
                assert(theirs[k].timestamp == t && theirs[k].node_id@ == n);
            }
        }
        if has_op_key(base, t, n) || exists|kk: int|
            0 <= kk < k + 1 && (#[trigger] theirs[kk]).timestamp == t && theirs[kk].node_id@
                == n {
            let found = if has_op_key(base, t, n) {
                true
            } else {
                false
            };
            if found || exists|kk: int|
                0 <= kk < k && (#[trigger] theirs[kk]).timestamp == t && theirs[kk].node_id@
                    == n {
                assert(has_op_key(pre, t, n));
                let w = choose|w: int|
                    0 <= w < pre.len() && (#[trigger] pre[w]).timestamp == t && pre[
                        w
                    ].node_id@ == n;
                if pushed {
                    assert(cur[w] == pre[w]);
                } else {
                    assert(cur[w] == pre[w]);
                }
                assert(has_op_key(cur, t, n));
            } else {
                let kk = choose|kk: int|
                    0 <= kk < k + 1 && (#[trigger] theirs[kk]).timestamp == t && theirs[
                        kk
                    ].node_id@ == n;
                assert(kk == k);
                if pushed {
                    assert(cur.last().timestamp == t && cur.last().node_id@ == n);
                    assert(has_op_key(cur, t, n));
                } else {
                    assert(has_op_key(pre, t, n));
                    let w = choose|w: int|
                        0 <= w < pre.len() && (#[trigger] pre[w]).timestamp == t && pre[
                            w
                        ].node_id@ == n;
                    assert(cur[w] == pre[w]);
                    assert(has_op_key(cur, t, n));
                }
            }
        }
    }
}

/// The LWW predicate only reads the version and modification time, so it
/// respects field equality of its arguments.
proof fn lemma_lww_newer_respects_content(a1: FileMetadata, a2: FileMetadata, b: FileMetadata)
    requires
        crate::metadata::metadata_content_eq(a1, a2),
    ensures
        lww_newer(a1, b) == lww_newer(a2, b),
        lww_newer(b, a1) == lww_newer(b, a2),
{
}

proof fn lemma_metadata_eq_reflexive_here(a: FileMetadata)
    ensures
        metadata_eq(a, a),
{
}

/// When index `i` holds path `p` in a unique-path list, `meta_at(s, p)`
/// is exactly `s[i]`.
proof fn lemma_meta_at_index(s: Seq<FileMetadata>, i: int, p: Seq<char>)
    requires
        paths_unique(s),
        0 <= i < s.len(),
        s[i].path@ == p,
    ensures
        has_path(s, p),
        path_index(s, p) == i,
        meta_at(s, p) == s[i],
{
    assert(has_path(s, p));
    let j = path_index(s, p);
    if j != i {
        if j < i {
            assert(s[j].path@ != s[i].path@);
        } else {
            assert(s[i].path@ != s[j].path@);
        }
    }
}

/// Replacing the entry at index `i` with one of the same path keeps the
/// other entries, their uniqueness, and their lookups.
proof fn lemma_files_set_keeps(prev: Seq<FileMetadata>, i: int, cur: Seq<FileMetadata>, p: Seq<char>)
    requires
        paths_unique(prev),
        0 <= i < prev.len(),
        prev[i].path@ == p,
        cur == prev.update(i, cur[i]),
        cur.len() == prev.len(),
        cur[i].path@ == p,
    ensures
        paths_unique(cur),
        forall|q: Seq<char>| q != p ==> has_path(cur, q) == has_path(prev, q),
        forall|q: Seq<char>|
            q != p && has_path(prev, q) ==> meta_at(cur, q) == meta_at(prev, q),
        has_path(cur, p),
{
    assert forall|a: int, b: int| 0 <= a < b < cur.len() implies cur[a].path@ != cur[b].path@ by {
        if a != i && b != i {
            assert(cur[a] == prev[a] && cur[b] == prev[b]);
        } else if a == i {
            assert(cur[b] == prev[b]);
            assert(prev[i].path@ != prev[b].path@);
        } else {
            assert(cur[a] == prev[a]);
            assert(prev[a].path@ != prev[i].path@);
        }
    }
    assert(has_path(cur, p)) by {
        assert(cur[i].path@ == p);
    }
    assert forall|q: Seq<char>| q != p implies has_path(cur, q) == has_path(prev, q) by {
        if has_path(cur, q) {
            let k = choose|k: int| 0 <= k < cur.len() && (#[trigger] cur[k]).path@ == q;
            assert(k != i);
            assert(prev[k] == cur[k]);
        }
        if has_path(prev, q) {
            let k = choose|k: int| 0 <= k < prev.len() && (#[trigger] prev[k]).path@ == q;
            assert(k != i);
            assert(cur[k] == prev[k]);
        }
    }
    assert forall|q: Seq<char>| q != p && has_path(prev, q) implies meta_at(cur, q) == meta_at(
        prev,
        q,
    ) by {
        let k = choose|k: int| 0 <= k < prev.len() && (#[trigger] prev[k]).path@ == q;
        assert(k != i);
        assert(cur[k] == prev[k]);
        lemma_meta_at_index(prev, k, q);
        lemma_meta_at_index(cur, k, q);
    }
}

/// Removing the entry at index `i` keeps the other entries, their
/// uniqueness, and their lookups.
proof fn lemma_files_remove_keeps(
    prev: Seq<FileMetadata>,
    i: int,
    cur: Seq<FileMetadata>,
    p: Seq<char>,
)
    requires
        paths_unique(prev),
        0 <= i < prev.len(),
        prev[i].path@ == p,
        cur == prev.remove(i),
    ensures
        paths_unique(cur),
        !has_path(cur, p),
        forall|q: Seq<char>| q != p ==> has_path(cur, q) == has_path(prev, q),
        forall|q: Seq<char>|
            q != p && has_path(prev, q) ==> meta_at(cur, q) == meta_at(prev, q),
{
    assert forall|a: int, b: int| 0 <= a < b < cur.len() implies cur[a].path@ != cur[b].path@ by {
        let a0 = if a < i { a } else { a + 1 };
        let b0 = if b < i { b } else { b + 1 };
        assert(cur[a] == prev[a0]);
        assert(cur[b] == prev[b0]);
    }
    assert forall|k: int| 0 <= k < cur.len() implies (#[trigger] cur[k]).path@ != p by {
        let k0 = if k < i { k } else { k + 1 };
        assert(cur[k] == prev[k0]);
        if k0 < i {
            assert(prev[k0].path@ != prev[i].path@);
        } else {
            assert(prev[i].path@ != prev[k0].path@);
        }
    }
    assert forall|q: Seq<char>| q != p implies has_path(cur, q) == has_path(prev, q) by {
        if has_path(cur, q) {
            let k = choose|k: int| 0 <= k < cur.len() && (#[trigger] cur[k]).path@ == q;
            let k0 = if k < i { k } else { k + 1 };
            assert(prev[k0] == cur[k]);
        }
        if has_path(prev, q) {
            let k0 = choose|k0: int| 0 <= k0 < prev.len() && (#[trigger] prev[k0]).path@ == q;
            let k = if k0 < i { k0 } else { k0 - 1 };
            assert(cur[k] == prev[k0]);
        }
    }
    assert forall|q: Seq<char>| q != p && has_path(prev, q) implies meta_at(cur, q) == meta_at(
        prev,
        q,
    ) by {
        let k0 = choose|k0: int| 0 <= k0 < prev.len() && (#[trigger] prev[k0]).path@ == q;
        let k = if k0 < i { k0 } else { k0 - 1 };
        assert(cur[k] == prev[k0]);
        lemma_meta_at_index(prev, k0, q);
        lemma_meta_at_index(cur, k, q);
    }
}

/// Replacing the tuple at index `i` with one of the same key keeps the
/// status keys unique.
proof fn lemma_status_set_keeps(
    prev: Seq<(String, SyncStatus)>,
    i: int,
    cur: Seq<(String, SyncStatus)>,
)
    requires
        status_paths_unique(prev),
        0 <= i < prev.len(),
        cur == prev.update(i, cur[i]),
        cur.len() == prev.len(),
        cur[i].0@ == prev[i].0@,
    ensures
        status_paths_unique(cur),
        has_status(cur, cur[i].0@),
        forall|q: Seq<char>| q != prev[i].0@ ==> has_status(cur, q) == has_status(prev, q),
{
    assert forall|a: int, b: int| 0 <= a < b < cur.len() implies cur[a].0@ != cur[b].0@ by {
        if a != i && b != i {
            assert(cur[a] == prev[a] && cur[b] == prev[b]);
        } else if a == i {
            assert(cur[b] == prev[b]);
            assert(prev[i].0@ != prev[b].0@);
        } else {
            assert(cur[a] == prev[a]);
            assert(prev[a].0@ != prev[i].0@);
        }
    }
    assert(has_status(cur, cur[i].0@)) by {
        assert(cur[i].0@ == cur[i].0@);
    }
    assert forall|q: Seq<char>| q != prev[i].0@ implies has_status(cur, q) == has_status(
        prev,
        q,
    ) by {
        if has_status(cur, q) {
            let k = choose|k: int| 0 <= k < cur.len() && (#[trigger] cur[k]).0@ == q;
            assert(k != i);
            assert(prev[k] == cur[k]);
        }
        if has_status(prev, q) {
            let k = choose|k: int| 0 <= k < prev.len() && (#[trigger] prev[k]).0@ == q;
            assert(k != i);
            assert(cur[k] == prev[k]);
        }
    }
}

/// Removing the tuple at index `i` keeps the status keys unique and the
/// other keys present.
proof fn lemma_status_remove_keeps(
    prev: Seq<(String, SyncStatus)>,
    i: int,
    cur: Seq<(String, SyncStatus)>,
    p: Seq<char>,
)
    requires
        status_paths_unique(prev),
        0 <= i < prev.len(),
        prev[i].0@ == p,
        cur == prev.remove(i),
    ensures
        status_paths_unique(cur),
        !has_status(cur, p),
        forall|q: Seq<char>| q != p ==> has_status(cur, q) == has_status(prev, q),
{
    assert forall|a: int, b: int| 0 <= a < b < cur.len() implies cur[a].0@ != cur[b].0@ by {
        let a0 = if a < i { a } else { a + 1 };
        let b0 = if b < i { b } else { b + 1 };
        assert(cur[a] == prev[a0]);
        assert(cur[b] == prev[b0]);
    }
    assert forall|k: int| 0 <= k < cur.len() implies (#[trigger] cur[k]).0@ != p by {
        let k0 = if k < i { k } else { k + 1 };
        assert(cur[k] == prev[k0]);
        if k0 < i {
            assert(prev[k0].0@ != prev[i].0@);
        } else {
            assert(prev[i].0@ != prev[k0].0@);
        }
    }
    assert forall|q: Seq<char>| q != p implies has_status(cur, q) == has_status(prev, q) by {
        if has_status(cur, q) {
            let k = choose|k: int| 0 <= k < cur.len() && (#[trigger] cur[k]).0@ == q;
            let k0 = if k < i { k } else { k + 1 };
            assert(prev[k0] == cur[k]);
        }
        if has_status(prev, q) {
            let k0 = choose|k0: int| 0 <= k0 < prev.len() && (#[trigger] prev[k0]).0@ == q;
            let k = if k0 < i { k0 } else { k0 - 1 };
            assert(cur[k] == prev[k0]);
        }
    }
}

} // verus!
