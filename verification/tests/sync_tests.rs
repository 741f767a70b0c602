use russh_core::hashing::hash_data;
use russh_core::metadata::FileMetadata;
use russh_core::sync::{FileOperation, SyncEngine, SyncState};

fn create_test_metadata(path: &str) -> FileMetadata {
    let hash = hash_data(path.as_bytes());
    FileMetadata::new_file(path.to_string(), 100, hash.clone(), vec![hash])
}

#[test]
fn sync_state_basic_operations() {
    let mut state = SyncState::new("node1".to_string());

    let metadata = create_test_metadata("/test.txt");
    state.apply_local(FileOperation::Create {
        path: "/test.txt".to_string(),
        metadata,
    });

    assert!(state.get("/test.txt").is_some());
    assert_eq!(state.clock(), 1);
}

#[test]
fn sync_state_merge_commutative() {
    let mut state1 = SyncState::new("node1".to_string());
    let mut state2 = SyncState::new("node2".to_string());

    let meta1 = create_test_metadata("/file1.txt");
    let meta2 = create_test_metadata("/file2.txt");

    state1.apply_local(FileOperation::Create {
        path: "/file1.txt".to_string(),
        metadata: meta1.clone(),
    });

    state2.apply_local(FileOperation::Create {
        path: "/file2.txt".to_string(),
        metadata: meta2.clone(),
    });

    let mut merged1 = state1.clone_state();
    merged1.merge(&state2);

    let mut merged2 = state2.clone_state();
    merged2.merge(&state1);

    assert!(merged1.get("/file1.txt").is_some());
    assert!(merged1.get("/file2.txt").is_some());
    assert!(merged2.get("/file1.txt").is_some());
    assert!(merged2.get("/file2.txt").is_some());

    // The resulting files agree in both merge orders.
    for path in ["/file1.txt", "/file2.txt"] {
        let a = merged1.get(path).unwrap();
        let b = merged2.get(path).unwrap();
        assert_eq!(a.version, b.version);
        assert_eq!(a.size, b.size);
        assert_eq!(a.modified, b.modified);
    }
}

#[test]
fn sync_state_merge_idempotent() {
    let mut state = SyncState::new("node1".to_string());

    let metadata = create_test_metadata("/test.txt");
    state.apply_local(FileOperation::Create {
        path: "/test.txt".to_string(),
        metadata,
    });

    let original = state.clone_state();
    state.merge(&original);

    assert_eq!(state.list_files().len(), 1);
}

#[test]
fn sync_engine_workflow() {
    let mut engine = SyncEngine::new("node1".to_string());

    let metadata = create_test_metadata("/doc.txt");
    engine.create_file(metadata);

    assert!(engine.state().get("/doc.txt").is_some());

    engine.delete_file("/doc.txt".to_string());
    assert!(engine.state().get("/doc.txt").is_none());
}

#[test]
fn crdt_merge_scenario() {
    // Two nodes create different files; after merging either way both
    // files are present with matching version and size.
    let mut n1 = SyncState::new("n1".to_string());
    let mut n2 = SyncState::new("n2".to_string());

    let mut a = create_test_metadata("/a.txt");
    a.size = 10;
    let mut b = create_test_metadata("/b.txt");
    b.size = 20;

    n1.apply_local(FileOperation::Create { path: "/a.txt".to_string(), metadata: a });
    n2.apply_local(FileOperation::Create { path: "/b.txt".to_string(), metadata: b });

    let mut m12 = n1.clone_state();
    m12.merge(&n2);
    let mut m21 = n2.clone_state();
    m21.merge(&n1);

    for merged in [&m12, &m21] {
        let a = merged.get("/a.txt").unwrap();
        assert_eq!(a.version, 1);
        assert_eq!(a.size, 10);
        let b = merged.get("/b.txt").unwrap();
        assert_eq!(b.version, 1);
        assert_eq!(b.size, 20);
    }
}

#[test]
fn lww_conflict_scenario() {
    // Both nodes create the same path; the higher version wins in either
    // merge order.
    let mut n1 = SyncState::new("n1".to_string());
    let mut n2 = SyncState::new("n2".to_string());

    let mut c1 = create_test_metadata("/c.txt");
    c1.version = 1;
    let mut c2 = create_test_metadata("/c.txt");
    c2.version = 2;

    n1.apply_local(FileOperation::Create { path: "/c.txt".to_string(), metadata: c1 });
    n2.apply_local(FileOperation::Create { path: "/c.txt".to_string(), metadata: c2 });

    let mut m12 = n1.clone_state();
    m12.merge(&n2);
    let mut m21 = n2.clone_state();
    m21.merge(&n1);

    assert_eq!(m12.get("/c.txt").unwrap().version, 2);
    assert_eq!(m21.get("/c.txt").unwrap().version, 2);
}

#[test]
fn update_applies_lww() {
    let mut state = SyncState::new("node1".to_string());
    let mut v2 = create_test_metadata("/f");
    v2.version = 2;
    state.apply_local(FileOperation::Create { path: "/f".to_string(), metadata: v2 });

    // An update with a lower version does not replace.
    let mut v1 = create_test_metadata("/f");
    v1.version = 1;
    v1.size = 5;
    state.apply_local(FileOperation::Update { path: "/f".to_string(), metadata: v1 });
    assert_eq!(state.get("/f").unwrap().version, 2);

    // An update with a higher version replaces.
    let mut v3 = create_test_metadata("/f");
    v3.version = 3;
    v3.size = 7;
    state.apply_local(FileOperation::Update { path: "/f".to_string(), metadata: v3 });
    let m = state.get("/f").unwrap();
    assert_eq!(m.version, 3);
    assert_eq!(m.size, 7);
}

#[test]
fn move_and_delete_operations() {
    let mut state = SyncState::new("node1".to_string());
    state.apply_local(FileOperation::Create {
        path: "/old".to_string(),
        metadata: create_test_metadata("/old"),
    });
    state.apply_local(FileOperation::Move {
        from: "/old".to_string(),
        to: "/new".to_string(),
    });
    assert!(state.get("/old").is_none());
    let moved = state.get("/new").unwrap();
    assert_eq!(moved.path, "/new");

    state.apply_local(FileOperation::Delete { path: "/new".to_string() });
    assert!(state.get("/new").is_none());
}
