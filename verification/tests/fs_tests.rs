use russh_core::filesystem::VirtualFs;
use russh_core::metadata::Permissions;

#[test]
fn write_and_read_file() {
    let mut fs = VirtualFs::new("test-node".to_string(), "/vfs".to_string());

    let data = b"Hello, Virtual Filesystem!";
    let metadata = fs.write("test.txt", data).unwrap();

    assert_eq!(metadata.size, data.len() as u64);
    assert!(metadata.is_file());

    let read_data = fs.read("test.txt").unwrap();
    assert_eq!(read_data, data);
}

#[test]
fn delete_file() {
    let mut fs = VirtualFs::new("test-node".to_string(), "/vfs".to_string());

    fs.write("to_delete.txt", b"delete me").unwrap();
    assert!(fs.path_exists("to_delete.txt"));

    fs.delete("to_delete.txt").unwrap();
    assert!(!fs.path_exists("to_delete.txt"));
}

#[test]
fn create_directory() {
    let mut fs = VirtualFs::new("test-node".to_string(), "/vfs".to_string());

    let metadata = fs.mkdir("mydir").unwrap();
    assert!(metadata.is_directory());
    assert!(fs.path_exists("mydir"));
}

#[test]
fn file_stats() {
    let mut fs = VirtualFs::new("test-node".to_string(), "/vfs".to_string());

    fs.write("file1.txt", b"content1").unwrap();
    fs.write("file2.txt", b"content2").unwrap();
    fs.mkdir("dir1").unwrap();

    let stats = fs.stats();
    assert_eq!(stats.file_count, 2);
    assert_eq!(stats.dir_count, 1);
}

#[test]
fn multi_chunk_roundtrip() {
    let mut fs = VirtualFs::with_chunk_size("n".to_string(), "/vfs".to_string(), 8);
    let data: Vec<u8> = (0..100u32).map(|x| (x * 7 % 251) as u8).collect();
    fs.write("big.bin", &data).unwrap();
    let back = fs.read("big.bin").unwrap();
    assert_eq!(back, data);
}

#[test]
fn stat_list_and_status() {
    let mut fs = VirtualFs::new("n".to_string(), "/vfs".to_string());
    fs.write("a.txt", b"aaa").unwrap();
    fs.mkdir("sub").unwrap();
    fs.write("/vfs/sub/inner.txt", b"bbb").unwrap();

    let st = fs.stat("a.txt").unwrap();
    assert_eq!(st.path, "/vfs/a.txt");
    assert_eq!(st.size, 3);

    let listed = fs.list("/vfs/sub");
    assert_eq!(listed.len(), 1);
    assert_eq!(listed[0].path, "/vfs/sub/inner.txt");

    assert!(fs.read("missing.txt").is_err());
}

#[test]
fn default_permission_modes() {
    let mut fs = VirtualFs::new("n".to_string(), "/vfs".to_string());
    let f = fs.write("f".to_string().as_str(), b"x").unwrap();
    assert_eq!(f.permissions.to_mode(), 0o644);
    let d = fs.mkdir("d").unwrap();
    assert_eq!(d.permissions.to_mode(), 0o755);
    assert_eq!(Permissions::from_mode(0o777).to_mode(), 0o777);
}

#[test]
fn read_reports_missing_chunk() {
    let mut fs = VirtualFs::with_chunk_size("n".to_string(), "/vfs".to_string(), 4);
    fs.write("gone.bin", b"0123456789abcdef").unwrap();
    let meta = fs.stat("gone.bin").unwrap();
    let victim = meta.chunks[1].clone();
    fs.chunk_store_mut().remove(&victim).unwrap();
    let err = fs.read("gone.bin").unwrap_err();
    assert!(matches!(err, russh_core::errors::VdfsError::ChunkNotFound(_)));
}

#[test]
fn list_returns_every_child() {
    let mut fs = VirtualFs::new("n".to_string(), "/vfs".to_string());
    fs.write("kid1", b"a").unwrap();
    fs.write("kid2", b"b").unwrap();
    fs.write("/other/kid3", b"c").unwrap();
    let listed = fs.list("/vfs");
    assert_eq!(listed.len(), 2);
    assert!(listed.iter().any(|m| m.path == "/vfs/kid1"));
    assert!(listed.iter().any(|m| m.path == "/vfs/kid2"));
}
