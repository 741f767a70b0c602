use russh_core::chunk::{chunk_data, reassemble_chunks, Chunk, ChunkStore};

#[test]
fn chunk_creation_and_verification() {
    let data = b"Hello, World!".to_vec();
    let chunk = Chunk::new(data.clone());

    assert!(chunk.verify());
    assert_eq!(chunk.data, data);
    assert_eq!(chunk.size(), data.len());
}

#[test]
fn chunk_deterministic_id() {
    let data = b"Same data".to_vec();
    let chunk1 = Chunk::new(data.clone());
    let chunk2 = Chunk::new(data);

    assert_eq!(chunk1.id, chunk2.id);
}

#[test]
fn chunk_store_basic_operations() {
    let mut store = ChunkStore::new();

    let data = b"Test data".to_vec();
    let id = store.store_data(data.clone());

    assert!(store.contains(&id));

    let retrieved = store.get(&id).unwrap();
    assert_eq!(retrieved.data, data);
}

#[test]
fn chunk_store_deduplication() {
    let mut store = ChunkStore::new();

    let data = b"Duplicate data".to_vec();
    let id1 = store.store_data(data.clone());
    let id2 = store.store_data(data);

    assert_eq!(id1, id2);
    assert_eq!(store.len(), 1);
}

#[test]
fn chunking_and_reassembly() {
    let data = b"This is some test data that will be chunked".to_vec();
    let chunks = chunk_data(&data, 10);

    assert_eq!(chunks.len(), 5);

    let reassembled = reassemble_chunks(&chunks);
    assert_eq!(reassembled, data);
}

#[test]
fn chunk_boundaries() {
    let data = vec![42u8; 25];
    let chunks = chunk_data(&data, 10);
    assert_eq!(chunks.len(), 3);
    assert_eq!(chunks[0].size(), 10);
    assert_eq!(chunks[1].size(), 10);
    assert_eq!(chunks[2].size(), 5);
    for c in &chunks {
        assert!(c.verify());
    }

    let exact = vec![1u8; 30];
    let chunks = chunk_data(&exact, 10);
    assert_eq!(chunks.len(), 3);
    assert!(chunks.iter().all(|c| c.size() == 10));

    assert!(chunk_data(b"", 10).is_empty());
}

#[test]
fn chunk_store_garbage_collection() {
    let mut store = ChunkStore::new();

    let id1 = store.store_data(b"chunk 1".to_vec());
    let id2 = store.store_data(b"chunk 2".to_vec());
    let id3 = store.store_data(b"chunk 3".to_vec());

    assert_eq!(store.len(), 3);

    let referenced = vec![id1.clone(), id3.clone()];

    let (removed, freed) = store.garbage_collect(&referenced);

    assert_eq!(removed, 1);
    assert!(freed > 0);
    assert_eq!(store.len(), 2);
    assert!(store.contains(&id1));
    assert!(!store.contains(&id2));
    assert!(store.contains(&id3));
}

#[test]
fn chunk_store_clear() {
    let mut store = ChunkStore::new();

    store.store_data(b"chunk 1".to_vec());
    store.store_data(b"chunk 2".to_vec());

    assert_eq!(store.len(), 2);

    let (count, bytes) = store.clear();

    assert_eq!(count, 2);
    assert!(bytes > 0);
    assert!(store.is_empty());
}

#[test]
fn dedup_and_gc_scenario() {
    let mut store = ChunkStore::new();
    let alpha1 = store.store_data(b"alpha".to_vec());
    let alpha2 = store.store_data(b"alpha".to_vec());
    let beta = store.store_data(b"beta".to_vec());
    assert_eq!(alpha1, alpha2);
    assert_eq!(store.len(), 2);

    let live = vec![alpha1.clone()];
    store.garbage_collect(&live);
    assert_eq!(store.len(), 1);
    assert!(store.contains(&alpha1));
    assert!(!store.contains(&beta));
}

#[test]
fn chunk_store_remove_and_sizes() {
    let mut store = ChunkStore::with_chunk_size(8);
    assert_eq!(store.chunk_size(), 8);
    let id = store.store_data(b"12345".to_vec());
    assert_eq!(store.total_size(), 5);
    assert_eq!(store.list_ids().len(), 1);
    let removed = store.remove(&id).unwrap();
    assert_eq!(removed.data, b"12345".to_vec());
    assert!(store.remove(&id).is_none());
    assert!(store.is_empty());
}

#[test]
fn get_missing_chunk_fails() {
    let mut store = ChunkStore::new();
    let id = store.store_data(b"present".to_vec());
    store.remove(&id);
    assert!(store.get(&id).is_err());
    assert!(!store.contains(&id));
}
