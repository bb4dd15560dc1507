use rusqlite_gpkg::vfs::{is_main_sqlite_file, HybridVfsBuilder, MemFile};

#[test]
fn identifies_main_sqlite_file_by_suffix() {
    assert!(is_main_sqlite_file("data.sqlite"));
    assert!(!is_main_sqlite_file("data.sqlite-wal"));
    assert!(!is_main_sqlite_file("data.gpkg"));
}

#[test]
fn mem_file_read_pads_with_zero_when_beyond_end() {
    let mut file = MemFile::default();
    file.write(&vec![1, 2, 3], 0);

    let mut buf: Vec<u8> = vec![9; 5];
    let complete = file.read(&mut buf, 1);

    assert!(!complete);
    assert_eq!(buf, vec![2, 3, 0, 0, 0]);
}

#[test]
fn mem_file_supports_offset_write_and_truncate() {
    let mut file = MemFile::default();
    file.write(&vec![10, 20], 2);
    assert_eq!(file.size(), 4);

    let mut buf: Vec<u8> = vec![0; 4];
    let complete = file.read(&mut buf, 0);
    assert!(complete);
    assert_eq!(buf, vec![0, 0, 10, 20]);

    file.truncate(3);
    assert_eq!(file.size(), 3);
}

#[test]
fn hybrid_handle_tracks_files_by_name() {
    let mut handle = HybridVfsBuilder::new().register("hybrid-test");
    assert_eq!(handle.vfs_name(), "hybrid-test");

    assert!(!handle.contains_file("demo.sqlite"));
    handle.add_file("demo.sqlite");
    handle.add_file("demo.sqlite-wal");
    assert!(handle.contains_file("demo.sqlite"));
    assert!(handle.contains_file("demo.sqlite-wal"));
    assert_eq!(handle.size("demo.sqlite"), Some(0));
    assert_eq!(handle.size("missing"), None);

    let found = handle.write("demo.sqlite", &vec![5, 6, 7], 1);
    assert!(found);
    assert_eq!(handle.size("demo.sqlite"), Some(4));

    let mut buf: Vec<u8> = vec![0; 4];
    let complete = handle.read("demo.sqlite", &mut buf, 0).expect("file should exist");
    assert!(complete);
    assert_eq!(buf, vec![0, 5, 6, 7]);

    let found = handle.truncate("demo.sqlite", 2);
    assert!(found);
    assert_eq!(handle.size("demo.sqlite"), Some(2));

    assert!(handle.delete_file("demo.sqlite"));
    assert!(!handle.contains_file("demo.sqlite"));
    assert!(!handle.delete_file("demo.sqlite"));
    assert!(handle.contains_file("demo.sqlite-wal"));
}

#[test]
fn hybrid_handle_write_to_missing_file_is_rejected() {
    let mut handle = HybridVfsBuilder::new().register("hybrid-missing");
    assert!(!handle.write("absent.sqlite", &vec![1], 0));
    assert!(!handle.truncate("absent.sqlite", 0));
    let mut buf: Vec<u8> = vec![7; 2];
    assert!(handle.read("absent.sqlite", &mut buf, 0).is_none());
    assert_eq!(buf, vec![7, 7]);
}
