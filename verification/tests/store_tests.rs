use fs_core::device::{BlockDevice, DeviceError, MemDevice};
use fs_core::error::FsError;
use fs_core::fs::debug;
use fs_core::layout::{
    decode_entries, encode_entries, DirectoryEntry, PersistedInode, SerializableFileAttr,
    SerializableFileType, Timestamp,
};
use fs_core::store::{AttrChanges, FsCoreInner, ROOT_INO};
use fs_core::superblock::Superblock;

const NOW: Timestamp = Timestamp { secs: 1_700_000_000, nanos: 123 };
const LATER: Timestamp = Timestamp { secs: 1_800_000_000, nanos: 456 };

fn formatted() -> MemDevice {
    let mut dev = MemDevice::new(4096, 1 << 24);
    assert_eq!(fs_core::fs::format(&mut dev), Ok(()));
    dev
}

fn mounted() -> FsCoreInner<MemDevice> {
    let mut store = FsCoreInner::new(formatted()).unwrap();
    store.load_from_device(NOW).unwrap();
    store
}

fn remount(store: FsCoreInner<MemDevice>) -> FsCoreInner<MemDevice> {
    let dev = store.into_device();
    let mut again = FsCoreInner::new(dev).unwrap();
    again.load_from_device(LATER).unwrap();
    again
}

fn no_changes() -> AttrChanges {
    AttrChanges { uid: None, gid: None, size: None, atime: None, mtime: None, ctime: None }
}

#[test]
fn format_writes_a_fresh_superblock() {
    let mut dev = formatted();
    assert_eq!(dev.as_bytes().len(), 512);
    let sb = debug(&mut dev).unwrap();
    assert_eq!(sb.magic, 0xAABBCCDD11223344);
    assert_eq!(sb.version, 1);
    assert_eq!(sb.block_size, 4096);
    assert_eq!(sb.inode_count, 1);
    assert_eq!(sb.free_inode_count, 1);
}

#[test]
fn debug_rejects_unformatted_device() {
    let mut dev = MemDevice::zeroed(4096, 2).unwrap();
    assert_eq!(debug(&mut dev).err(), Some(FsError::Corrupt));
}

#[test]
fn new_store_needs_a_formatted_device() {
    let dev = MemDevice::zeroed(4096, 4).unwrap();
    assert_eq!(FsCoreInner::new(dev).err(), Some(FsError::Corrupt));
    let empty = MemDevice::new(4096, 1 << 20);
    assert_eq!(FsCoreInner::new(empty).err(), Some(FsError::Io(DeviceError::OutOfRange)));
}

#[test]
fn new_store_refuses_small_blocks() {
    let mut dev = MemDevice::new(511, 1 << 20);
    assert_eq!(fs_core::fs::format(&mut dev), Ok(()));
    assert_eq!(FsCoreInner::new(dev).err(), Some(FsError::Unsupported));
    let mut ok = MemDevice::new(512, 1 << 20);
    assert_eq!(fs_core::fs::format(&mut ok), Ok(()));
    assert!(FsCoreInner::new(ok).is_ok());
}

#[test]
fn new_store_takes_the_counter_from_the_superblock() {
    let mut dev = MemDevice::new(4096, 1 << 20);
    Superblock::new(4096, 41).save(&mut dev).unwrap();
    let store = FsCoreInner::new(dev).unwrap();
    assert_eq!(store.inode_counter(), 41);
    assert_eq!(store.block_size(), 4096);
}

#[test]
fn first_mount_makes_the_root_directory() {
    let mut store = FsCoreInner::new(formatted()).unwrap();
    let summary = store.load_from_device(NOW).unwrap();
    assert_eq!(summary.loaded, 0);
    assert!(summary.root_created);
    assert_eq!(summary.stopped_by, FsError::Io(DeviceError::OutOfRange));
    let root = store.load_inode(ROOT_INO).unwrap();
    assert_eq!(root.attr, SerializableFileAttr::new_directory(1, 0, 0, NOW));
    assert_eq!(root.path, "/");
    assert_eq!(root.data, vec![0u8; 8]);
    assert_eq!(store.get_attributes(ROOT_INO), Ok(root.attr));
}

#[test]
fn first_mount_of_a_zeroed_device_stops_at_the_empty_block() {
    let mut dev = MemDevice::zeroed(4096, 16).unwrap();
    assert_eq!(fs_core::fs::format(&mut dev), Ok(()));
    let mut store = FsCoreInner::new(dev).unwrap();
    let summary = store.load_from_device(NOW).unwrap();
    assert_eq!(summary.loaded, 0);
    assert_eq!(summary.stopped_by, FsError::Corrupt);
    assert!(summary.root_created);
}

#[test]
fn end_to_end_create_read_remount_lookup() {
    let mut store = mounted();
    let id = store.create_file_locked(ROOT_INO, "a.txt", b"hi", NOW).unwrap();
    assert_eq!(id, 2);
    assert_eq!(store.read(2, 0, 2).unwrap(), b"hi".to_vec());
    let before = store.load_inode(2).unwrap();
    let mut again = remount(store);
    let found = again.lookup(ROOT_INO, "a.txt").unwrap();
    assert_eq!(found.ino, 2);
    assert_eq!(found, before.attr);
    assert_eq!(found, SerializableFileAttr::new_file(2, 2, NOW));
    let after = again.load_inode(2).unwrap();
    assert_eq!(after.data, b"hi".to_vec());
    assert_eq!(after.path, "/a.txt");
    assert_eq!(again.read(2, 0, 2).unwrap(), b"hi".to_vec());
}

#[test]
fn created_ids_increase_one_by_one() {
    let mut store = mounted();
    let mut last = 1;
    for i in 0..20 {
        let id = store.create_file_locked(ROOT_INO, &format!("f{}", i), &[i as u8], NOW).unwrap();
        assert_eq!(id, last + 1);
        last = id;
    }
    let dir = store.mkdir(ROOT_INO, "d", 7, 8, NOW).unwrap();
    assert_eq!(dir.ino, last + 1);
    assert_eq!(store.inode_counter(), last + 1);
    let mut dev = store.into_device();
    assert_eq!(debug(&mut dev).unwrap().inode_count, last + 1);
}

#[test]
fn ids_follow_a_counter_advanced_by_another_holder() {
    let mut store = mounted();
    assert_eq!(store.create_file_locked(ROOT_INO, "a", b"", NOW), Ok(2));
    let mut dev = store.into_device();
    let mut sb = Superblock::load(&mut dev).unwrap();
    sb.inode_count = 10;
    sb.save(&mut dev).unwrap();
    let mut store = FsCoreInner::new(dev).unwrap();
    store.load_from_device(NOW).unwrap();
    assert_eq!(store.create_file_locked(ROOT_INO, "b", b"", NOW), Ok(11));
}

#[test]
fn parent_listing_has_one_entry_per_created_file() {
    let mut store = mounted();
    let names = ["one", "two", "three", "four"];
    let mut ids = Vec::new();
    for n in names {
        ids.push(store.create_file_locked(ROOT_INO, n, n.as_bytes(), NOW).unwrap());
    }
    let root = store.load_inode(ROOT_INO).unwrap();
    let entries = decode_entries(&root.data).unwrap();
    assert_eq!(entries.len(), names.len());
    for (i, n) in names.iter().enumerate() {
        assert_eq!(entries[i].name, *n);
        assert_eq!(entries[i].ino, ids[i]);
    }
    assert_eq!(root.attr, SerializableFileAttr::new_directory(1, 0, 0, NOW));
    assert_eq!(root.path, "/");
}

#[test]
fn creating_a_name_again_replaces_its_entry() {
    let mut store = mounted();
    assert_eq!(store.create_file_locked(ROOT_INO, "same", b"1", NOW), Ok(2));
    assert_eq!(store.create_file_locked(ROOT_INO, "other", b"2", NOW), Ok(3));
    assert_eq!(store.create_file_locked(ROOT_INO, "same", b"3", NOW), Ok(4));
    let root = store.load_inode(ROOT_INO).unwrap();
    let entries = decode_entries(&root.data).unwrap();
    assert_eq!(entries.len(), 2);
    assert_eq!((entries[0].name.as_str(), entries[0].ino), ("same", 4));
    assert_eq!((entries[1].name.as_str(), entries[1].ino), ("other", 3));
    assert_eq!(store.lookup(ROOT_INO, "same").unwrap().ino, 2);
}

#[test]
fn scan_stops_at_the_first_block_without_a_record() {
    let mut dev = MemDevice::zeroed(4096, 32).unwrap();
    assert_eq!(fs_core::fs::format(&mut dev), Ok(()));
    let mut store = FsCoreInner::new(dev).unwrap();
    store.load_from_device(NOW).unwrap();
    for n in ["a", "b", "c", "d"] {
        store.create_file_locked(ROOT_INO, n, n.as_bytes(), NOW).unwrap();
    }
    let hidden = PersistedInode {
        attr: SerializableFileAttr::new_file(7, 1, NOW),
        data: vec![1],
        path: "/hidden".to_string(),
    };
    assert_eq!(store.save_inode(7, &hidden), Ok(()));
    let dev = store.into_device();
    let mut again = FsCoreInner::new(dev).unwrap();
    let summary = again.load_from_device(LATER).unwrap();
    assert_eq!(summary.loaded, 5);
    assert_eq!(summary.stopped_by, FsError::Corrupt);
    assert!(!summary.root_created);
    assert_eq!(summary.unreadable_directories, 0);
    assert_eq!(again.inode_counter(), 6);
    assert_eq!(again.load_inode(6).err(), Some(FsError::Corrupt));
    assert_eq!(again.load_inode(7).unwrap().path, "/hidden");
    assert_eq!(again.lookup(ROOT_INO, "hidden").err(), Some(FsError::NotFound));
    assert_eq!(again.lookup(ROOT_INO, "d").unwrap().ino, 5);
}

#[test]
fn scan_treats_a_garbled_block_as_the_end() {
    let mut store = mounted();
    for n in ["a", "b", "c", "d", "e"] {
        store.create_file_locked(ROOT_INO, n, b"x", NOW).unwrap();
    }
    let mut dev = store.into_device();
    let mut garbage = vec![0xFFu8; 4096];
    garbage[0..4].copy_from_slice(&100u32.to_le_bytes());
    dev.write_block(1 + 6, &garbage).unwrap();
    let mut again = FsCoreInner::new(dev).unwrap();
    let summary = again.load_from_device(LATER).unwrap();
    assert_eq!(summary.loaded, 5);
    assert_eq!(summary.stopped_by, FsError::Corrupt);
    assert!(!summary.root_created);
}

#[test]
fn scan_enters_a_directory_with_undecodable_content_without_children() {
    let mut store = mounted();
    store.create_file_locked(ROOT_INO, "a", b"x", NOW).unwrap();
    let mut root = store.load_inode(ROOT_INO).unwrap();
    root.data = vec![9, 9, 9];
    assert_eq!(store.save_inode(ROOT_INO, &root), Ok(()));
    let dev = store.into_device();
    let mut again = FsCoreInner::new(dev).unwrap();
    let summary = again.load_from_device(LATER).unwrap();
    assert_eq!(summary.loaded, 2);
    assert_eq!(summary.unreadable_directories, 1);
    let listing = again.list_directory(ROOT_INO).unwrap();
    assert_eq!(listing.len(), 2);
    assert_eq!(again.create_file_locked(ROOT_INO, "b", b"y", LATER), Ok(3));
    let entries = decode_entries(&again.load_inode(ROOT_INO).unwrap().data).unwrap();
    assert_eq!(entries.len(), 1);
    assert_eq!(entries[0].name, "b");
}

#[test]
fn remount_rebuilds_children_from_the_stored_listing() {
    let mut store = mounted();
    store.create_file_locked(ROOT_INO, "a", b"x", NOW).unwrap();
    store.create_file_locked(ROOT_INO, "b", b"y", NOW).unwrap();
    let mut again = remount(store);
    assert_eq!(again.create_file_locked(ROOT_INO, "c", b"z", LATER), Ok(4));
    let entries = decode_entries(&again.load_inode(ROOT_INO).unwrap().data).unwrap();
    let got: Vec<(String, u64)> = entries.iter().map(|e| (e.name.clone(), e.ino)).collect();
    assert_eq!(
        got,
        vec![("a".to_string(), 2), ("b".to_string(), 3), ("c".to_string(), 4)]
    );
}

#[test]
fn create_rejects_a_parent_other_than_the_root() {
    let mut store = mounted();
    let dir = store.mkdir(ROOT_INO, "d", 1, 1, NOW).unwrap();
    let before = store.into_device();
    let bytes = before.as_bytes().clone();
    let mut store = FsCoreInner::new(before).unwrap();
    store.load_from_device(NOW).unwrap();
    assert_eq!(store.create_file_locked(dir.ino, "x", b"", NOW), Err(FsError::Unsupported));
    assert_eq!(store.mkdir(dir.ino, "x", 0, 0, NOW), Err(FsError::Unsupported));
    assert_eq!(store.create_file_locked(0, "x", b"", NOW), Err(FsError::Unsupported));
    assert_eq!(store.into_device().as_bytes(), &bytes);
}

#[test]
fn create_needs_a_known_root() {
    let mut store = FsCoreInner::new(formatted()).unwrap();
    assert_eq!(store.create_file_locked(ROOT_INO, "x", b"", NOW), Err(FsError::NotFound));
    assert_eq!(store.into_device().as_bytes().len(), 512);
}

#[test]
fn create_fails_when_inode_numbers_run_out() {
    for count in [u64::MAX, u64::MAX - 1] {
        let mut store = mounted();
        let mut dev = store.into_device();
        let mut sb = Superblock::load(&mut dev).unwrap();
        sb.inode_count = count;
        sb.save(&mut dev).unwrap();
        store = FsCoreInner::new(dev).unwrap();
        store.load_from_device(NOW).unwrap();
        assert_eq!(store.create_file_locked(ROOT_INO, "x", b"", NOW), Err(FsError::Exhausted));
    }
}

#[test]
fn create_refuses_content_that_does_not_fit_a_block() {
    let mut store = mounted();
    let big = vec![7u8; 4096];
    assert_eq!(store.create_file_locked(ROOT_INO, "big", &big, NOW), Err(FsError::TooLarge));
    assert_eq!(store.load_inode(2).err(), Some(FsError::Io(DeviceError::OutOfRange)));
    let overhead = 4 + 102 + 8 + 8 + "/fit".len();
    let fit = vec![7u8; 4096 - overhead];
    assert_eq!(store.create_file_locked(ROOT_INO, "fit", &fit, NOW), Ok(2));
    assert_eq!(store.load_inode(2).unwrap().data, fit);
}

#[test]
fn create_reports_a_full_device() {
    let mut dev = MemDevice::new(4096, 3 * 4096);
    assert_eq!(fs_core::fs::format(&mut dev), Ok(()));
    let mut store = FsCoreInner::new(dev).unwrap();
    store.load_from_device(NOW).unwrap();
    assert_eq!(
        store.create_file_locked(ROOT_INO, "x", b"", NOW),
        Err(FsError::Io(DeviceError::NoSpace))
    );
}

#[test]
fn create_reports_a_corrupt_superblock() {
    let mut store = mounted();
    let mut dev = store.into_device();
    dev.write_block(0, &[0u8; 8]).unwrap();
    let mut dev2 = MemDevice::new(4096, 1 << 24);
    assert_eq!(fs_core::fs::format(&mut dev2), Ok(()));
    store = FsCoreInner::new(dev2).unwrap();
    store.load_from_device(NOW).unwrap();
    let mut inner = store.into_device();
    inner.write_block(0, &[0u8; 8]).unwrap();
    assert_eq!(debug(&mut inner).err(), Some(FsError::Corrupt));
    assert_eq!(debug(&mut dev).err(), Some(FsError::Corrupt));
}

#[test]
fn mkdir_makes_an_empty_directory() {
    let mut store = mounted();
    let attr = store.mkdir(ROOT_INO, "docs", 1000, 1000, NOW).unwrap();
    assert_eq!(attr, SerializableFileAttr::new_directory(2, 1000, 1000, NOW));
    let record = store.load_inode(2).unwrap();
    assert_eq!(record.attr, attr);
    assert_eq!(record.path, "/docs");
    assert_eq!(record.data, encode_entries(&Vec::new()));
    let listing = store.list_directory(2).unwrap();
    assert_eq!(listing.len(), 2);
    assert_eq!((listing[0].ino, listing[0].name.as_str()), (2, "."));
    assert_eq!((listing[1].ino, listing[1].name.as_str()), (1, ".."));
}

#[test]
fn unlink_is_not_provided() {
    let mut store = mounted();
    store.create_file_locked(ROOT_INO, "a", b"x", NOW).unwrap();
    assert_eq!(store.unlink_locked(ROOT_INO, "a"), Err(FsError::Unsupported));
    assert_eq!(store.lookup(ROOT_INO, "a").unwrap().ino, 2);
}

#[test]
fn lookup_finds_nothing_for_an_unknown_name() {
    let mut store = mounted();
    store.create_file_locked(ROOT_INO, "a", b"x", NOW).unwrap();
    assert_eq!(store.lookup(ROOT_INO, "b").err(), Some(FsError::NotFound));
    assert_eq!(store.lookup(99, "a").err(), Some(FsError::NotFound));
}

#[test]
fn lookup_sees_what_another_holder_has_created() {
    let mut first = mounted();
    first.create_file_locked(ROOT_INO, "a", b"x", NOW).unwrap();
    let dev = first.into_device();
    let mut second = FsCoreInner::new(dev).unwrap();
    second.load_from_device(NOW).unwrap();
    second.create_file_locked(ROOT_INO, "b", b"y", NOW).unwrap();
    assert_eq!(second.lookup(ROOT_INO, "b").unwrap().ino, 3);
    assert_eq!(second.inode_counter(), 3);
}

#[test]
fn lookup_below_a_directory_uses_its_path() {
    let mut store = mounted();
    let dir = store.mkdir(ROOT_INO, "d", 0, 0, NOW).unwrap();
    let nested = PersistedInode {
        attr: SerializableFileAttr::new_file(3, 0, NOW),
        data: Vec::new(),
        path: "/d/x".to_string(),
    };
    store.save_inode(3, &nested).unwrap();
    let mut dev = store.into_device();
    let mut sb = Superblock::load(&mut dev).unwrap();
    sb.inode_count = 3;
    sb.save(&mut dev).unwrap();
    let mut store = FsCoreInner::new(dev).unwrap();
    store.load_from_device(NOW).unwrap();
    assert_eq!(store.lookup(dir.ino, "x").unwrap().ino, 3);
    assert_eq!(store.lookup(ROOT_INO, "x").err(), Some(FsError::NotFound));
}

#[test]
fn read_is_clipped_to_the_content() {
    let mut store = mounted();
    store.create_file_locked(ROOT_INO, "a", b"hello", NOW).unwrap();
    assert_eq!(store.read(2, 0, 5).unwrap(), b"hello".to_vec());
    assert_eq!(store.read(2, 0, 100).unwrap(), b"hello".to_vec());
    assert_eq!(store.read(2, 1, 3).unwrap(), b"ell".to_vec());
    assert_eq!(store.read(2, 4, 1).unwrap(), b"o".to_vec());
    assert_eq!(store.read(2, 4, u32::MAX).unwrap(), b"o".to_vec());
    assert_eq!(store.read(2, 5, 1).unwrap(), Vec::<u8>::new());
    assert_eq!(store.read(2, u64::MAX, 1).unwrap(), Vec::<u8>::new());
    assert_eq!(store.read(2, 2, 0).unwrap(), Vec::<u8>::new());
    assert_eq!(store.read(3, 0, 1).err(), Some(FsError::Io(DeviceError::OutOfRange)));
    assert_eq!(store.read(u64::MAX, 0, 1).err(), Some(FsError::Io(DeviceError::OutOfRange)));
}

#[test]
fn write_range_overwrites_grows_and_fills_gaps() {
    let mut store = mounted();
    store.create_file_locked(ROOT_INO, "a", b"hello", NOW).unwrap();
    assert_eq!(store.write_range(2, 1, b"EY"), Ok(2));
    let r = store.load_inode(2).unwrap();
    assert_eq!(r.data, b"hEYlo".to_vec());
    assert_eq!(r.attr.size, 5);
    assert_eq!(store.write_range(2, 4, b"!!!"), Ok(3));
    let r = store.load_inode(2).unwrap();
    assert_eq!(r.data, b"hEYl!!!".to_vec());
    assert_eq!(r.attr.size, 7);
    assert_eq!(store.write_range(2, 9, b"z"), Ok(1));
    let r = store.load_inode(2).unwrap();
    assert_eq!(r.data, b"hEYl!!!\0\0z".to_vec());
    assert_eq!(r.attr.size, 10);
    assert_eq!(store.write_range(2, 12, b""), Ok(0));
    let r = store.load_inode(2).unwrap();
    assert_eq!(r.data, b"hEYl!!!\0\0z\0\0".to_vec());
    assert_eq!(r.attr, SerializableFileAttr { size: 12, ..SerializableFileAttr::new_file(2, 5, NOW) });
    let again = remount(store).load_inode(2).unwrap();
    assert_eq!(again.data, b"hEYl!!!\0\0z\0\0".to_vec());
}

#[test]
fn write_range_errors() {
    let mut store = mounted();
    store.create_file_locked(ROOT_INO, "a", b"hello", NOW).unwrap();
    assert_eq!(store.write_range(2, 5000, b"x"), Err(FsError::TooLarge));
    assert_eq!(store.write_range(2, u64::MAX, b"x"), Err(FsError::TooLarge));
    assert_eq!(store.load_inode(2).unwrap().data, b"hello".to_vec());
    assert_eq!(store.write_range(3, 0, b"x"), Err(FsError::Io(DeviceError::OutOfRange)));
    let mut zeroed = MemDevice::zeroed(4096, 8).unwrap();
    assert_eq!(fs_core::fs::format(&mut zeroed), Ok(()));
    let mut store = FsCoreInner::new(zeroed).unwrap();
    store.load_from_device(NOW).unwrap();
    assert_eq!(store.write_range(5, 0, b"x"), Err(FsError::Corrupt));
}

#[test]
fn set_attributes_changes_what_is_given() {
    let mut store = mounted();
    store.create_file_locked(ROOT_INO, "a", b"hello", NOW).unwrap();
    let t1 = Timestamp { secs: 1, nanos: 2 };
    let t2 = Timestamp { secs: 3, nanos: 4 };
    let t3 = Timestamp { secs: 5, nanos: 6 };
    let changed = store
        .set_attributes(
            2,
            AttrChanges {
                uid: Some(11),
                gid: Some(12),
                size: Some(3),
                atime: Some(t1),
                mtime: Some(t2),
                ctime: Some(t3),
            },
        )
        .unwrap();
    let expected = SerializableFileAttr {
        uid: 11,
        gid: 12,
        size: 3,
        atime: t1,
        mtime: t2,
        ctime: t3,
        ..SerializableFileAttr::new_file(2, 5, NOW)
    };
    assert_eq!(changed, expected);
    let r = store.load_inode(2).unwrap();
    assert_eq!(r.attr, expected);
    assert_eq!(r.data, b"hel".to_vec());
    let grown = store.set_attributes(2, AttrChanges { size: Some(6), ..no_changes() }).unwrap();
    assert_eq!(grown, SerializableFileAttr { size: 6, ..expected });
    assert_eq!(store.load_inode(2).unwrap().data, b"hel\0\0\0".to_vec());
    assert_eq!(store.set_attributes(2, no_changes()), Ok(grown));
    assert_eq!(store.load_inode(2).unwrap().data, b"hel\0\0\0".to_vec());
}

#[test]
fn set_attributes_errors() {
    let mut store = mounted();
    store.create_file_locked(ROOT_INO, "a", b"hello", NOW).unwrap();
    assert_eq!(
        store.set_attributes(2, AttrChanges { size: Some(1 << 20), ..no_changes() }),
        Err(FsError::TooLarge)
    );
    assert_eq!(
        store.set_attributes(2, AttrChanges { size: Some(u64::MAX), ..no_changes() }),
        Err(FsError::TooLarge)
    );
    assert_eq!(store.load_inode(2).unwrap().data, b"hello".to_vec());
    assert_eq!(
        store.set_attributes(9, no_changes()),
        Err(FsError::Io(DeviceError::OutOfRange))
    );
}

#[test]
fn list_directory_gives_kinds_of_children() {
    let mut store = mounted();
    store.create_file_locked(ROOT_INO, "f", b"x", NOW).unwrap();
    store.mkdir(ROOT_INO, "d", 0, 0, NOW).unwrap();
    let listing = store.list_directory(ROOT_INO).unwrap();
    let got: Vec<(u64, SerializableFileType, String)> =
        listing.iter().map(|i| (i.ino, i.kind, i.name.clone())).collect();
    assert_eq!(
        got,
        vec![
            (1, SerializableFileType::Directory, ".".to_string()),
            (1, SerializableFileType::Directory, "..".to_string()),
            (2, SerializableFileType::RegularFile, "f".to_string()),
            (3, SerializableFileType::Directory, "d".to_string()),
        ]
    );
}

#[test]
fn list_directory_of_a_file_has_only_the_dots() {
    let mut store = mounted();
    store.create_file_locked(ROOT_INO, "f", &encode_entries(&vec![DirectoryEntry { name: "x".to_string(), ino: 1 }]), NOW).unwrap();
    let listing = store.list_directory(2).unwrap();
    assert_eq!(listing.len(), 2);
    assert_eq!(listing[0].ino, 2);
    assert_eq!(listing[1].ino, 1);
}

#[test]
fn list_directory_falls_back_to_regular_file_for_a_missing_child() {
    let mut dev = MemDevice::zeroed(4096, 16).unwrap();
    assert_eq!(fs_core::fs::format(&mut dev), Ok(()));
    let mut store = FsCoreInner::new(dev).unwrap();
    store.load_from_device(NOW).unwrap();
    let mut root = store.load_inode(ROOT_INO).unwrap();
    root.data = encode_entries(&vec![DirectoryEntry { name: "ghost".to_string(), ino: 9 }]);
    store.save_inode(ROOT_INO, &root).unwrap();
    let listing = store.list_directory(ROOT_INO).unwrap();
    assert_eq!(listing.len(), 3);
    assert_eq!(listing[2].ino, 9);
    assert_eq!(listing[2].kind, SerializableFileType::RegularFile);
    assert_eq!(listing[2].name, "ghost");
}

#[test]
fn save_and_load_inode_at_the_edges() {
    let mut store = mounted();
    let inode = PersistedInode {
        attr: SerializableFileAttr::new_file(0, 0, NOW),
        data: Vec::new(),
        path: String::new(),
    };
    assert_eq!(store.save_inode(u64::MAX, &inode), Err(FsError::Io(DeviceError::OutOfRange)));
    assert_eq!(store.load_inode(u64::MAX).err(), Some(FsError::Io(DeviceError::OutOfRange)));
    assert_eq!(store.save_inode(0, &inode), Ok(()));
    assert_eq!(store.load_inode(0).unwrap().attr, inode.attr);
    let mut dev = store.into_device();
    assert_eq!(debug(&mut dev).unwrap().inode_count, 1);
    let bytes = dev.as_bytes();
    assert_eq!(&bytes[4096..4100], &(102u32 + 8 + 8).to_le_bytes());
}

#[test]
fn get_or_load_returns_the_stored_record() {
    let mut store = mounted();
    store.create_file_locked(ROOT_INO, "a", b"abc", NOW).unwrap();
    let r = store.get_or_load_inode(2).unwrap();
    assert_eq!(r.attr, SerializableFileAttr::new_file(2, 3, NOW));
    assert_eq!(r.data, b"abc".to_vec());
    assert_eq!(r.path, "/a");
    assert_eq!(store.get_or_load_inode(5).err(), Some(FsError::Io(DeviceError::OutOfRange)));
}

#[test]
fn load_and_save_superblock_follow_the_device() {
    let mut store = mounted();
    let mut dev = store.into_device();
    let mut sb = Superblock::load(&mut dev).unwrap();
    let uuid = sb.uuid;
    sb.inode_count = 77;
    sb.free_inode_count = 5;
    sb.save(&mut dev).unwrap();
    store = FsCoreInner::new(dev).unwrap();
    assert_eq!(store.inode_counter(), 77);
    store.load_from_device(NOW).unwrap();
    assert_eq!(store.load_superblock(), Ok(()));
    assert_eq!(store.inode_counter(), 77);
    assert_eq!(store.create_file_locked(ROOT_INO, "a", b"", NOW), Ok(78));
    assert_eq!(store.save_superblock(), Ok(()));
    let mut dev = store.into_device();
    let after = Superblock::load(&mut dev).unwrap();
    assert_eq!(after.inode_count, 78);
    assert_eq!(after.free_inode_count, 5);
    assert_eq!(after.uuid, uuid);
}

#[test]
fn insert_root_dir_writes_block_two() {
    let mut store = FsCoreInner::new(formatted()).unwrap();
    assert_eq!(store.insert_root_dir(NOW), Ok(()));
    let dev = store.into_device();
    assert_eq!(dev.as_bytes().len(), 3 * 4096);
    let block = &dev.as_bytes()[2 * 4096..3 * 4096];
    let root = PersistedInode::decode(block).unwrap();
    assert_eq!(root.attr.ino, 1);
    assert_eq!(root.attr.kind, SerializableFileType::Directory);
    assert_eq!(root.attr.perm, 0o755);
    assert_eq!(root.attr.nlink, 2);
    assert_eq!(root.path, "/");
    assert!(dev.as_bytes()[512..2 * 4096].iter().all(|b| *b == 0));
}

#[test]
fn lookup_passes_over_inodes_beyond_the_end_of_the_device() {
    let mut store = mounted();
    store.create_file_locked(ROOT_INO, "a", b"x", NOW).unwrap();
    let mut dev = store.into_device();
    let mut sb = Superblock::load(&mut dev).unwrap();
    sb.inode_count = 10;
    sb.save(&mut dev).unwrap();
    let mut store = FsCoreInner::new(dev).unwrap();
    store.load_from_device(NOW).unwrap();
    assert_eq!(store.lookup(ROOT_INO, "a").unwrap().ino, 2);
    assert_eq!(store.lookup(ROOT_INO, "missing").err(), Some(FsError::NotFound));
    assert_eq!(store.inode_counter(), 10);
}

#[test]
fn lookup_with_a_count_of_zero_finds_nothing() {
    let store = mounted();
    let mut dev = store.into_device();
    let mut sb = Superblock::load(&mut dev).unwrap();
    sb.inode_count = 0;
    sb.save(&mut dev).unwrap();
    let mut store = FsCoreInner::new(dev).unwrap();
    store.load_from_device(NOW).unwrap();
    assert_eq!(store.lookup(ROOT_INO, "x").err(), Some(FsError::NotFound));
}

#[test]
fn list_directory_lists_an_entry_beyond_the_end_of_the_device_as_a_regular_file() {
    let mut store = mounted();
    let mut root = store.load_inode(ROOT_INO).unwrap();
    root.data = encode_entries(&vec![DirectoryEntry { name: "far".to_string(), ino: 500 }]);
    store.save_inode(ROOT_INO, &root).unwrap();
    let listing = store.list_directory(ROOT_INO).unwrap();
    assert_eq!(listing.len(), 3);
    assert_eq!(listing[2].ino, 500);
    assert_eq!(listing[2].kind, SerializableFileType::RegularFile);
}

#[test]
fn deleted_record_leaves_a_block_of_zeros() {
    let mut store = mounted();
    store.create_file_locked(ROOT_INO, "a", b"x", NOW).unwrap();
    store.create_file_locked(ROOT_INO, "b", b"y", NOW).unwrap();
    assert_eq!(store.delete_inode_from_disk(2), Ok(()));
    assert_eq!(store.load_inode(2).err(), Some(FsError::Corrupt));
    assert_eq!(store.load_inode(3).unwrap().path, "/b");
    assert_eq!(store.delete_inode_from_disk(u64::MAX), Err(FsError::Io(DeviceError::OutOfRange)));
    let mut dev = store.into_device();
    assert!(dev.as_bytes()[3 * 4096..4 * 4096].iter().all(|b| *b == 0));
    assert_eq!(debug(&mut dev).unwrap().inode_count, 3);
    let mut again = FsCoreInner::new(dev).unwrap();
    let summary = again.load_from_device(LATER).unwrap();
    assert_eq!(summary.loaded, 1);
    assert_eq!(summary.stopped_by, FsError::Corrupt);
}
