use fs_core::device::MemDevice;
use fs_core::error::FsError;
use fs_core::layout::{
    encode_entries, DirectoryEntry, PersistedInode, SerializableFileAttr, SerializableFileType,
    Timestamp,
};
use fs_core::names::NameTable;
use fs_core::store::{FsCoreInner, ROOT_INO};
use fs_core::superblock::Superblock;

const NOW: Timestamp = Timestamp { secs: 100, nanos: 200 };

fn zeroed_and_formatted() -> MemDevice {
    let mut dev = MemDevice::zeroed(4096, 32).unwrap();
    assert_eq!(fs_core::fs::format(&mut dev), Ok(()));
    dev
}

fn pairs(entries: &[DirectoryEntry]) -> Vec<(String, u64)> {
    entries.iter().map(|e| (e.name.clone(), e.ino)).collect()
}

#[test]
fn name_table_enters_replaces_and_finds() {
    let mut t = NameTable::new();
    assert_eq!(t.len(), 0);
    assert_eq!(t.get("a"), None);
    assert_eq!(t.name_of(1), None);
    t.put("a", 1);
    t.put("b", 2);
    t.put("c", 1);
    assert_eq!(t.len(), 3);
    assert_eq!(t.get("a"), Some(1));
    assert_eq!(t.get("b"), Some(2));
    assert_eq!(t.get("c"), Some(1));
    assert_eq!(t.get(""), None);
    assert_eq!(t.name_of(1), Some("a".to_string()));
    assert_eq!(t.name_of(2), Some("b".to_string()));
    assert_eq!(t.name_of(3), None);
    t.put("a", 9);
    assert_eq!(t.len(), 3);
    assert_eq!(t.get("a"), Some(9));
    assert_eq!(t.name_of(1), Some("c".to_string()));
    assert_eq!(
        pairs(t.entries()),
        vec![("a".to_string(), 9), ("b".to_string(), 2), ("c".to_string(), 1)]
    );
}

#[test]
fn name_table_from_entries_lets_the_later_entry_win() {
    let entries = vec![
        DirectoryEntry { name: "x".to_string(), ino: 1 },
        DirectoryEntry { name: "y".to_string(), ino: 2 },
        DirectoryEntry { name: "x".to_string(), ino: 3 },
    ];
    let t = NameTable::from_entries(&entries);
    assert_eq!(pairs(t.entries()), vec![("x".to_string(), 3), ("y".to_string(), 2)]);
    assert_eq!(NameTable::from_entries(&Vec::new()).len(), 0);
}

#[test]
fn new_store_knows_no_inode() {
    let store = FsCoreInner::new(zeroed_and_formatted()).unwrap();
    assert_eq!(store.cached_attr(ROOT_INO), None);
    assert_eq!(store.cached_data(ROOT_INO), None);
    assert_eq!(store.cached_ino("/"), None);
    assert!(store.cached_children(ROOT_INO).is_empty());
    assert_eq!(store.inode_counter(), 1);
}

#[test]
fn made_root_is_entered_with_empty_content() {
    let mut store = FsCoreInner::new(zeroed_and_formatted()).unwrap();
    store.load_from_device(NOW).unwrap();
    assert_eq!(
        store.cached_attr(ROOT_INO),
        Some(SerializableFileAttr::new_directory(1, 0, 0, NOW))
    );
    assert_eq!(store.cached_data(ROOT_INO), Some(&Vec::new()));
    assert_eq!(store.cached_ino("/"), Some(1));
    assert!(store.cached_children(ROOT_INO).is_empty());
    assert_eq!(store.inode_counter(), 1);
}

#[test]
fn creation_enters_the_file_into_all_four_tables() {
    let mut store = FsCoreInner::new(zeroed_and_formatted()).unwrap();
    store.load_from_device(NOW).unwrap();
    assert_eq!(store.create_file_locked(ROOT_INO, "f", b"abc", NOW), Ok(2));
    assert_eq!(store.cached_attr(2), Some(SerializableFileAttr::new_file(2, 3, NOW)));
    assert_eq!(store.cached_data(2), Some(&b"abc".to_vec()));
    assert_eq!(store.cached_ino("/f"), Some(2));
    assert_eq!(pairs(&store.cached_children(ROOT_INO)), vec![("f".to_string(), 2)]);
    assert_eq!(store.inode_counter(), 2);
    let dir = store.mkdir(ROOT_INO, "d", 5, 6, NOW).unwrap();
    assert_eq!(store.cached_attr(3), Some(dir));
    assert_eq!(store.cached_data(3), Some(&Vec::new()));
    assert_eq!(store.cached_ino("/d"), Some(3));
    assert_eq!(
        pairs(&store.cached_children(ROOT_INO)),
        vec![("f".to_string(), 2), ("d".to_string(), 3)]
    );
    assert!(store.cached_children(3).is_empty());
}

#[test]
fn scan_populates_exactly_the_records_before_the_first_gap() {
    let mut store = FsCoreInner::new(zeroed_and_formatted()).unwrap();
    store.load_from_device(NOW).unwrap();
    for n in ["a", "b", "c", "d"] {
        store.create_file_locked(ROOT_INO, n, n.as_bytes(), NOW).unwrap();
    }
    let beyond = PersistedInode {
        attr: SerializableFileAttr::new_file(8, 0, NOW),
        data: Vec::new(),
        path: "/beyond".to_string(),
    };
    store.save_inode(8, &beyond).unwrap();
    let mut again = FsCoreInner::new(store.into_device()).unwrap();
    let summary = again.load_from_device(NOW).unwrap();
    assert_eq!(summary.loaded, 5);
    assert_eq!(summary.stopped_by, FsError::Corrupt);
    for ino in 1..=5u64 {
        assert!(again.cached_attr(ino).is_some());
        assert!(again.cached_data(ino).is_some());
    }
    for ino in [0u64, 6, 7, 8, 9] {
        assert_eq!(again.cached_attr(ino), None);
        assert_eq!(again.cached_data(ino), None);
    }
    assert_eq!(again.cached_ino("/"), Some(1));
    assert_eq!(again.cached_ino("/a"), Some(2));
    assert_eq!(again.cached_ino("/d"), Some(5));
    assert_eq!(again.cached_ino("/beyond"), None);
    assert_eq!(again.cached_attr(3), Some(SerializableFileAttr::new_file(3, 1, NOW)));
    assert_eq!(again.cached_data(3), Some(&b"b".to_vec()));
    assert_eq!(
        pairs(&again.cached_children(ROOT_INO)),
        vec![
            ("a".to_string(), 2),
            ("b".to_string(), 3),
            ("c".to_string(), 4),
            ("d".to_string(), 5),
        ]
    );
    assert_eq!(again.inode_counter(), 6);
}

#[test]
fn scan_raises_the_counter_above_what_it_found() {
    let mut store = FsCoreInner::new(zeroed_and_formatted()).unwrap();
    store.load_from_device(NOW).unwrap();
    for n in ["a", "b"] {
        store.create_file_locked(ROOT_INO, n, b"", NOW).unwrap();
    }
    let mut dev = store.into_device();
    let mut sb = Superblock::load(&mut dev).unwrap();
    sb.inode_count = 50;
    sb.save(&mut dev).unwrap();
    let mut again = FsCoreInner::new(dev).unwrap();
    assert_eq!(again.inode_counter(), 50);
    again.load_from_device(NOW).unwrap();
    assert_eq!(again.inode_counter(), 50);
}

#[test]
fn get_or_load_enters_attributes_content_and_path() {
    let mut store = FsCoreInner::new(zeroed_and_formatted()).unwrap();
    store.load_from_device(NOW).unwrap();
    let other = PersistedInode {
        attr: SerializableFileAttr { kind: SerializableFileType::Symlink, ..SerializableFileAttr::new_file(4, 2, NOW) },
        data: vec![1, 2],
        path: "/link".to_string(),
    };
    store.save_inode(4, &other).unwrap();
    assert_eq!(store.cached_attr(4), None);
    assert_eq!(store.load_inode(4).unwrap().path, "/link");
    assert_eq!(store.cached_attr(4), None);
    assert_eq!(store.get_or_load_inode(4).unwrap().data, vec![1, 2]);
    assert_eq!(store.cached_attr(4), Some(other.attr));
    assert_eq!(store.cached_data(4), Some(&vec![1, 2]));
    assert_eq!(store.cached_ino("/link"), Some(4));
    assert_eq!(store.get_or_load_inode(3).err(), Some(FsError::Corrupt));
    assert_eq!(store.cached_attr(3), None);
}

#[test]
fn writes_and_attribute_changes_do_not_touch_the_projection() {
    let mut store = FsCoreInner::new(zeroed_and_formatted()).unwrap();
    store.load_from_device(NOW).unwrap();
    store.create_file_locked(ROOT_INO, "f", b"abc", NOW).unwrap();
    store.write_range(2, 0, b"xyz!").unwrap();
    assert_eq!(store.cached_data(2), Some(&b"abc".to_vec()));
    assert_eq!(store.cached_attr(2).unwrap().size, 3);
    assert_eq!(store.get_attributes(2).unwrap().size, 4);
    assert_eq!(store.cached_attr(2).unwrap().size, 4);
    assert_eq!(store.cached_data(2), Some(&b"xyz!".to_vec()));
}

#[test]
fn creation_on_a_device_that_counts_no_inode_collides_with_the_root() {
    let mut dev = MemDevice::zeroed(4096, 32).unwrap();
    Superblock::new(4096, 0).save(&mut dev).unwrap();
    let mut store = FsCoreInner::new(dev).unwrap();
    store.load_from_device(NOW).unwrap();
    assert_eq!(store.create_file_locked(ROOT_INO, "f", b"abc", NOW), Ok(1));
    let record = store.load_inode(1).unwrap();
    assert_eq!(record.attr.kind, SerializableFileType::Directory);
    assert_eq!(record.path, "/");
    assert_eq!(
        record.data,
        encode_entries(&vec![DirectoryEntry { name: "f".to_string(), ino: 1 }])
    );
}

#[test]
fn listing_in_a_directory_loads_its_children_into_the_projection() {
    let mut store = FsCoreInner::new(zeroed_and_formatted()).unwrap();
    store.load_from_device(NOW).unwrap();
    store.create_file_locked(ROOT_INO, "f", b"abc", NOW).unwrap();
    let mut again = FsCoreInner::new(store.into_device()).unwrap();
    assert_eq!(again.cached_attr(2), None);
    assert_eq!(again.list_directory(ROOT_INO).unwrap().len(), 3);
    assert_eq!(again.cached_attr(1).unwrap().kind, SerializableFileType::Directory);
    assert_eq!(again.cached_attr(2).unwrap().kind, SerializableFileType::RegularFile);
    assert_eq!(again.cached_ino("/f"), Some(2));
}
