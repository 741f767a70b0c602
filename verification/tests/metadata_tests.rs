use russh_core::hashing::hash_data;
use russh_core::metadata::{FileMetadata, Permissions};

#[test]
fn permissions_mode_roundtrip() {
    let modes = [0o644, 0o755, 0o777, 0o600, 0o400];
    for mode in modes {
        let perms = Permissions::from_mode(mode);
        assert_eq!(perms.to_mode(), mode);
    }
}

#[test]
fn directory_metadata() {
    let metadata = FileMetadata::new_directory("/test/dir".to_string());

    assert!(metadata.is_directory());
    assert!(!metadata.is_file());
    assert_eq!(metadata.permissions.to_mode(), 0o755);
}

#[test]
fn symlink_metadata() {
    let metadata =
        FileMetadata::new_symlink("/test/link".to_string(), "/test/target".to_string());

    assert!(metadata.is_symlink());
    assert_eq!(metadata.symlink_target, Some("/test/target".to_string()));
    assert_eq!(metadata.permissions.to_mode(), 0o777);
}

#[test]
fn touch_bumps_version_and_modified() {
    let hash = hash_data(b"c");
    let mut metadata =
        FileMetadata::new_file("/f".to_string(), 1, hash.clone(), vec![hash]);
    assert_eq!(metadata.version, 1);
    let before = metadata.modified;
    metadata.touch();
    assert_eq!(metadata.version, 2);
    assert!(metadata.modified >= before);
}

#[test]
fn file_metadata_fields() {
    let content = hash_data(b"test content");
    let chunk = hash_data(b"chunk data");

    let metadata = FileMetadata::new_file(
        "/test/file.txt".to_string(),
        100,
        content.clone(),
        vec![chunk.clone()],
    );

    assert_eq!(metadata.path, "/test/file.txt");
    assert_eq!(metadata.size, 100);
    assert_eq!(metadata.content_hash, Some(content));
    assert_eq!(metadata.chunks.len(), 1);
    assert_eq!(metadata.chunks[0], chunk);
    assert_eq!(metadata.permissions.to_mode(), 0o644);
    assert_eq!(metadata.version, 1);
    assert!(metadata.modified_by.is_none());
}

#[test]
fn file_metadata_serialization_roundtrip() {
    let content_hash = hash_data(b"test content");
    let chunk_hash = hash_data(b"chunk data");

    let metadata = FileMetadata::new_file(
        "/test/file.txt".to_string(),
        100,
        content_hash,
        vec![chunk_hash],
    );

    let bytes = metadata.to_bytes();
    let restored = FileMetadata::from_bytes(&bytes).unwrap();

    assert_eq!(restored.path, metadata.path);
    assert_eq!(restored.file_type, metadata.file_type);
    assert_eq!(restored.size, metadata.size);
    assert_eq!(restored.content_hash, metadata.content_hash);
    assert_eq!(restored.chunks.len(), metadata.chunks.len());
    assert_eq!(restored.chunks[0], metadata.chunks[0]);
    assert_eq!(restored.permissions, metadata.permissions);
    assert_eq!(restored.created, metadata.created);
    assert_eq!(restored.modified, metadata.modified);
    assert_eq!(restored.accessed, metadata.accessed);
    assert_eq!(restored.symlink_target, metadata.symlink_target);
    assert_eq!(restored.version, metadata.version);
    assert_eq!(restored.modified_by, metadata.modified_by);
}

#[test]
fn symlink_metadata_serialization_roundtrip() {
    let mut metadata =
        FileMetadata::new_symlink("/l".to_string(), "/target".to_string());
    metadata.modified_by = Some("node-7".to_string());
    metadata.version = 42;

    let bytes = metadata.to_bytes();
    let restored = FileMetadata::from_bytes(&bytes).unwrap();
    assert_eq!(restored.symlink_target, Some("/target".to_string()));
    assert_eq!(restored.modified_by, Some("node-7".to_string()));
    assert_eq!(restored.version, 42);
    assert!(restored.is_symlink());
}

#[test]
fn metadata_deserialize_rejects_garbage() {
    assert!(FileMetadata::from_bytes(b"not a metadata record").is_err());
    assert!(FileMetadata::from_bytes(b"").is_err());
    let mut bytes = FileMetadata::new_directory("/d".to_string()).to_bytes();
    bytes.push(0);
    assert!(FileMetadata::from_bytes(&bytes).is_err());
}
