//! File metadata for the virtual filesystem: file kinds, Unix-style
//! permission bits that round-trip losslessly through a 9-bit mode, and
//! the metadata record itself with its versioning rules. Virtual paths
//! are strings and timestamps integral milliseconds since the epoch.

use crate::hashing::ContentHash;
use vstd::prelude::*;

verus! {

/// File type in the virtual filesystem.
#[derive(Debug, Clone, Copy, PartialEq, Eq, Structural)]
pub enum FileType {
    /// Regular file
    File,
    /// Directory
    Directory,
    /// Symbolic link
    Symlink,
}

/// Unix-style permissions: nine independent flags, one per mode bit.
#[derive(Debug, Clone, Copy, PartialEq, Eq, Structural)]
pub struct Permissions {
    /// Owner can read
    pub owner_read: bool,
    /// Owner can write
    pub owner_write: bool,
    /// Owner can execute
    pub owner_execute: bool,
    /// Group can read
    pub group_read: bool,
    /// Group can write
    pub group_write: bool,
    /// Group can execute
    pub group_execute: bool,
    /// Others can read
    pub other_read: bool,
    /// Others can write
    pub other_write: bool,
    /// Others can execute
    pub other_execute: bool,
}

/// The 9-bit Unix mode encoding a set of permission flags.
pub open spec fn mode_of(p: Permissions) -> u32 {
    (if p.owner_read { 0x100u32 } else { 0u32 })
    | (if p.owner_write { 0x80u32 } else { 0u32 })
    | (if p.owner_execute { 0x40u32 } else { 0u32 })
    | (if p.group_read { 0x20u32 } else { 0u32 })
    | (if p.group_write { 0x10u32 } else { 0u32 })
    | (if p.group_execute { 0x8u32 } else { 0u32 })
    | (if p.other_read { 0x4u32 } else { 0u32 })
    | (if p.other_write { 0x2u32 } else { 0u32 })
    | (if p.other_execute { 0x1u32 } else { 0u32 })
}

/// The permission flags encoded by a Unix mode.
pub open spec fn permissions_of_mode(mode: u32) -> Permissions {
    Permissions {
        owner_read: mode & 0x100 != 0,
        owner_write: mode & 0x80 != 0,
        owner_execute: mode & 0x40 != 0,
        group_read: mode & 0x20 != 0,
        group_write: mode & 0x10 != 0,
        group_execute: mode & 0x8 != 0,
        other_read: mode & 0x4 != 0,
        other_write: mode & 0x2 != 0,
        other_execute: mode & 0x1 != 0,
    }
}

proof fn lemma_mode_bits(
    a: bool, b: bool, c: bool, d: bool, e: bool, f: bool, g: bool, h: bool, i: bool, m: u32,
)
    requires
        m == (if a { 0x100u32 } else { 0u32 })
            | (if b { 0x80u32 } else { 0u32 })
            | (if c { 0x40u32 } else { 0u32 })
            | (if d { 0x20u32 } else { 0u32 })
            | (if e { 0x10u32 } else { 0u32 })
            | (if f { 0x8u32 } else { 0u32 })
            | (if g { 0x4u32 } else { 0u32 })
            | (if h { 0x2u32 } else { 0u32 })
            | (if i { 0x1u32 } else { 0u32 }),
    ensures
        (m & 0x100 != 0) == a,
        (m & 0x80 != 0) == b,
        (m & 0x40 != 0) == c,
        (m & 0x20 != 0) == d,
        (m & 0x10 != 0) == e,
        (m & 0x8 != 0) == f,
        (m & 0x4 != 0) == g,
        (m & 0x2 != 0) == h,
        (m & 0x1 != 0) == i,
{
    assert({
        &&& (m & 0x100 != 0) == a
        &&& (m & 0x80 != 0) == b
        &&& (m & 0x40 != 0) == c
        &&& (m & 0x20 != 0) == d
        &&& (m & 0x10 != 0) == e
        &&& (m & 0x8 != 0) == f
        &&& (m & 0x4 != 0) == g
        &&& (m & 0x2 != 0) == h
        &&& (m & 0x1 != 0) == i
    }) by (bit_vector)
        requires
            m == (if a { 0x100u32 } else { 0u32 })
                | (if b { 0x80u32 } else { 0u32 })
                | (if c { 0x40u32 } else { 0u32 })
                | (if d { 0x20u32 } else { 0u32 })
                | (if e { 0x10u32 } else { 0u32 })
                | (if f { 0x8u32 } else { 0u32 })
                | (if g { 0x4u32 } else { 0u32 })
                | (if h { 0x2u32 } else { 0u32 })
                | (if i { 0x1u32 } else { 0u32 }),
    ;
}

impl Permissions {
    /// Create permissions from Unix mode bits.
    pub fn from_mode(mode: u32) -> (r: Self)
        ensures
            r == permissions_of_mode(mode),
    {
        Self {
            owner_read: mode & 0x100 != 0,
            owner_write: mode & 0x80 != 0,
            owner_execute: mode & 0x40 != 0,
            group_read: mode & 0x20 != 0,
            group_write: mode & 0x10 != 0,
            group_execute: mode & 0x8 != 0,
            other_read: mode & 0x4 != 0,
            other_write: mode & 0x2 != 0,
            other_execute: mode & 0x1 != 0,
        }
    }

    /// Convert to Unix mode bits.
    pub fn to_mode(&self) -> (r: u32)
        ensures
            r == mode_of(*self),
    {
        (if self.owner_read { 0x100u32 } else { 0u32 })
            | (if self.owner_write { 0x80u32 } else { 0u32 })
            | (if self.owner_execute { 0x40u32 } else { 0u32 })
            | (if self.group_read { 0x20u32 } else { 0u32 })
            | (if self.group_write { 0x10u32 } else { 0u32 })
            | (if self.group_execute { 0x8u32 } else { 0u32 })
            | (if self.other_read { 0x4u32 } else { 0u32 })
            | (if self.other_write { 0x2u32 } else { 0u32 })
            | (if self.other_execute { 0x1u32 } else { 0u32 })
    }
}

impl Default for Permissions {
    /// The default mode for a regular file: owner read/write, group and
    /// others read.
    fn default() -> (r: Self)
        ensures
            r == permissions_of_mode(0x1A4),
    {
        let r = Self {
            owner_read: true,
            owner_write: true,
            owner_execute: false,
            group_read: true,
            group_write: false,
            group_execute: false,
            other_read: true,
            other_write: false,
            other_execute: false,
        };
        proof {
            assert(0x1A4u32 & 0x100 != 0 && 0x1A4u32 & 0x80 != 0 && 0x1A4u32 & 0x40 == 0
                && 0x1A4u32 & 0x20 != 0 && 0x1A4u32 & 0x10 == 0 && 0x1A4u32 & 0x8 == 0
                && 0x1A4u32 & 0x4 != 0 && 0x1A4u32 & 0x2 == 0 && 0x1A4u32 & 0x1 == 0)
                by (bit_vector);
        }
        r
    }
}

/// A permission mode never exceeds nine bits.
pub proof fn lemma_mode_of_bound(p: Permissions)
    ensures
        mode_of(p) <= 0x1FF,
{
    let a = p.owner_read;
    let b = p.owner_write;
    let c = p.owner_execute;
    let d = p.group_read;
    let e = p.group_write;
    let f = p.group_execute;
    let g = p.other_read;
    let h = p.other_write;
    let i = p.other_execute;
    assert(((if a { 0x100u32 } else { 0u32 }) | (if b { 0x80u32 } else { 0u32 }) | (if c {
        0x40u32
    } else {
        0u32
    }) | (if d { 0x20u32 } else { 0u32 }) | (if e { 0x10u32 } else { 0u32 }) | (if f {
        0x8u32
    } else {
        0u32
    }) | (if g { 0x4u32 } else { 0u32 }) | (if h { 0x2u32 } else { 0u32 }) | (if i {
        0x1u32
    } else {
        0u32
    })) <= 0x1FF) by (bit_vector);
}

/// Permission flags survive the trip through a Unix mode: decoding the
/// mode that a set of flags encodes gives back exactly those flags.
pub proof fn lemma_permissions_mode_roundtrip(p: Permissions)
    ensures
        permissions_of_mode(mode_of(p)) == p,
{
    lemma_mode_bits(
        p.owner_read,
        p.owner_write,
        p.owner_execute,
        p.group_read,
        p.group_write,
        p.group_execute,
        p.other_read,
        p.other_write,
        p.other_execute,
        mode_of(p),
    );
}

/// Relies on chrono::Utc::now().timestamp_millis(): the current wallclock
/// time in milliseconds since the Unix epoch; nothing is assumed of the
/// value (the clock is outside the library).
#[verifier::external_body]
pub fn now_millis() -> u64 {
    chrono::Utc::now().timestamp_millis() as u64
}

/// Metadata for one entry of the virtual filesystem.
#[derive(Debug)]
pub struct FileMetadata {
    /// Virtual path in the filesystem
    pub path: String,
    /// File type
    pub file_type: FileType,
    /// File size in bytes
    pub size: u64,
    /// Content hash (for files)
    pub content_hash: Option<ContentHash>,
    /// The chunk ids that make up the file, in order
    pub chunks: Vec<ContentHash>,
    /// File permissions
    pub permissions: Permissions,
    /// Creation time, milliseconds since the epoch
    pub created: u64,
    /// Last modification time, milliseconds since the epoch
    pub modified: u64,
    /// Last access time, milliseconds since the epoch
    pub accessed: u64,
    /// Symlink target (for symlinks)
    pub symlink_target: Option<String>,
    /// Version number for conflict resolution
    pub version: u64,
    /// Node id that last modified this entry
    pub modified_by: Option<String>,
}

/// Field-for-field equality of two metadata records, hashes and strings
/// comparing by their contents.
pub open spec fn metadata_eq(a: FileMetadata, b: FileMetadata) -> bool {
    a.path@ == b.path@ && metadata_content_eq(a, b)
}

/// Field-for-field equality of everything but the path.
pub open spec fn metadata_content_eq(a: FileMetadata, b: FileMetadata) -> bool {
    &&& a.file_type == b.file_type
    &&& a.size == b.size
    &&& match (a.content_hash, b.content_hash) {
        (Some(x), Some(y)) => x@ == y@,
        (None, None) => true,
        _ => false,
    }
    &&& a.chunks@.len() == b.chunks@.len()
    &&& forall|i: int| 0 <= i < a.chunks@.len() ==> (#[trigger] a.chunks@[i])@ == b.chunks@[i]@
    &&& a.permissions == b.permissions
    &&& a.created == b.created
    &&& a.modified == b.modified
    &&& a.accessed == b.accessed
    &&& match (a.symlink_target, b.symlink_target) {
        (Some(x), Some(y)) => x@ == y@,
        (None, None) => true,
        _ => false,
    }
    &&& a.version == b.version
    &&& match (a.modified_by, b.modified_by) {
        (Some(x), Some(y)) => x@ == y@,
        (None, None) => true,
        _ => false,
    }
}

impl FileMetadata {
    /// Create metadata for a new regular file: version 1, default file
    /// permissions, all three timestamps set to now.
    pub fn new_file(path: String, size: u64, content_hash: ContentHash, chunks: Vec<ContentHash>)
        -> (r: Self)
        ensures
            r.path@ == path@,
            r.file_type is File,
            r.size == size,
            r.content_hash matches Some(h) && h@ == content_hash@,
            r.chunks@ == chunks@,
            r.permissions == permissions_of_mode(0x1A4),
            r.symlink_target is None,
            r.version == 1,
            r.modified_by is None,
            r.created == r.modified == r.accessed,
    {
        let now = now_millis();
        Self {
            path,
            file_type: FileType::File,
            size,
            content_hash: Some(content_hash),
            chunks,
            permissions: Permissions::default(),
            created: now,
            modified: now,
            accessed: now,
            symlink_target: None,
            version: 1,
            modified_by: None,
        }
    }

    /// Create metadata for a new directory: no content, mode 755,
    /// version 1.
    pub fn new_directory(path: String) -> (r: Self)
        ensures
            r.path@ == path@,
            r.file_type is Directory,
            r.size == 0,
            r.content_hash is None,
            r.chunks@.len() == 0,
            r.permissions == permissions_of_mode(0x1ED),
            r.symlink_target is None,
            r.version == 1,
            r.modified_by is None,
    {
        let now = now_millis();
        Self {
            path,
            file_type: FileType::Directory,
            size: 0,
            content_hash: None,
            chunks: Vec::new(),
            permissions: Permissions::from_mode(0x1ED),
            created: now,
            modified: now,
            accessed: now,
            symlink_target: None,
            version: 1,
            modified_by: None,
        }
    }

    /// Create metadata for a new symlink: no content, mode 777,
    /// version 1, the target recorded.
    pub fn new_symlink(path: String, target: String) -> (r: Self)
        ensures
            r.path@ == path@,
            r.file_type is Symlink,
            r.size == 0,
            r.content_hash is None,
            r.chunks@.len() == 0,
            r.permissions == permissions_of_mode(0x1FF),
            r.symlink_target matches Some(t) && t@ == target@,
            r.version == 1,
            r.modified_by is None,
    {
        let now = now_millis();
        Self {
            path,
            file_type: FileType::Symlink,
            size: 0,
            content_hash: None,
            chunks: Vec::new(),
            permissions: Permissions::from_mode(0x1FF),
            created: now,
            modified: now,
            accessed: now,
            symlink_target: Some(target),
            version: 1,
            modified_by: None,
        }
    }

    /// Whether this entry is a regular file.
    pub fn is_file(&self) -> (r: bool)
        ensures
            r == (self.file_type is File),
    {
        matches!(self.file_type, FileType::File)
    }

    /// Whether this entry is a directory.
    pub fn is_directory(&self) -> (r: bool)
        ensures
            r == (self.file_type is Directory),
    {
        matches!(self.file_type, FileType::Directory)
    }

    /// Whether this entry is a symlink.
    pub fn is_symlink(&self) -> (r: bool)
        ensures
            r == (self.file_type is Symlink),
    {
        matches!(self.file_type, FileType::Symlink)
    }

    /// Bump the modification time to now and increment the version.
    pub fn touch(&mut self)
        requires
            old(self).version < u64::MAX,
        ensures
            final(self).version == old(self).version + 1,
            final(self).path@ == old(self).path@,
            final(self).file_type == old(self).file_type,
            final(self).size == old(self).size,
            final(self).content_hash == old(self).content_hash,
            final(self).chunks@ == old(self).chunks@,
            final(self).permissions == old(self).permissions,
            final(self).created == old(self).created,
            final(self).accessed == old(self).accessed,
            final(self).symlink_target == old(self).symlink_target,
            final(self).modified_by == old(self).modified_by,
    {
        self.modified = now_millis();
        self.version = self.version + 1;
    }
}

impl Clone for FileMetadata {
    /// A copy equal to the original field for field.
    fn clone(&self) -> (r: Self)
        ensures
            metadata_eq(r, *self),
    {
        Self {
            path: self.path.clone(),
            file_type: self.file_type,
            size: self.size,
            content_hash: match &self.content_hash {
                Some(h) => Some(h.clone()),
                None => None,
            },
            chunks: clone_hashes(&self.chunks),
            permissions: self.permissions,
            created: self.created,
            modified: self.modified,
            accessed: self.accessed,
            symlink_target: match &self.symlink_target {
                Some(t) => Some(t.clone()),
                None => None,
            },
            version: self.version,
            modified_by: match &self.modified_by {
                Some(n) => Some(n.clone()),
                None => None,
            },
        }
    }
}

/// Metadata field equality is transitive.
pub proof fn lemma_metadata_eq_transitive(a: FileMetadata, b: FileMetadata, c: FileMetadata)
    requires
        metadata_eq(a, b),
        metadata_eq(b, c),
    ensures
        metadata_eq(a, c),
{
}

/// Metadata field equality is reflexive.
pub proof fn lemma_metadata_eq_reflexive(a: FileMetadata)
    ensures
        metadata_eq(a, a),
        metadata_content_eq(a, a),
{
}

/// Copy a list of content hashes.
pub fn clone_hashes(v: &Vec<ContentHash>) -> (r: Vec<ContentHash>)
    ensures
        r@.len() == v@.len(),
        forall|i: int| 0 <= i < v@.len() ==> (#[trigger] r@[i])@ == v@[i]@,
{
    let mut out: Vec<ContentHash> = Vec::new();
    let mut i: usize = 0;
    while i < v.len()
        invariant
            i <= v@.len(),
            out@.len() == i,
            forall|k: int| 0 <= k < i ==> (#[trigger] out@[k])@ == v@[k]@,
        decreases v@.len() - i,
    {
        out.push(v[i].clone());
        i = i + 1;
    }
    out
}

/// A 9-bit mode survives the trip through permission flags: encoding the
/// flags that a mode decodes to gives back the mode's low nine bits.
pub proof fn lemma_mode_permissions_roundtrip(mode: u32)
    requires
        mode <= 0x1FF,
    ensures
        mode_of(permissions_of_mode(mode)) == mode,
{
    let m2 = mode_of(permissions_of_mode(mode));
    assert({
        let r = (if mode & 0x100 != 0 { 0x100u32 } else { 0u32 })
            | (if mode & 0x80 != 0 { 0x80u32 } else { 0u32 })
            | (if mode & 0x40 != 0 { 0x40u32 } else { 0u32 })
            | (if mode & 0x20 != 0 { 0x20u32 } else { 0u32 })
            | (if mode & 0x10 != 0 { 0x10u32 } else { 0u32 })
            | (if mode & 0x8 != 0 { 0x8u32 } else { 0u32 })
            | (if mode & 0x4 != 0 { 0x4u32 } else { 0u32 })
            | (if mode & 0x2 != 0 { 0x2u32 } else { 0u32 })
            | (if mode & 0x1 != 0 { 0x1u32 } else { 0u32 });
        mode <= 0x1FF ==> r == mode
    }) by (bit_vector);
}

} // verus!
