use fs_core::device::{resize_to, write_at, BlockDevice, DeviceError, MemDevice};
use fs_core::error::FsError;
use fs_core::layout::Timestamp;
use fs_core::store::{FsCoreInner, ROOT_INO};
use fs_core::superblock::Superblock;
use std::cell::{Cell, RefCell};
use std::rc::Rc;

const NOW: Timestamp = Timestamp { secs: 1, nanos: 2 };

/// A device that passes everything on to a device in memory until its
/// budget of calls is used up, and fails from then on. The budget and the
/// log of calls are shared with the test that made the device.
struct Flaky {
    inner: MemDevice,
    calls_left: Rc<Cell<usize>>,
    log: Rc<RefCell<Vec<(char, u64, usize)>>>,
}

struct Handle {
    calls_left: Rc<Cell<usize>>,
    log: Rc<RefCell<Vec<(char, u64, usize)>>>,
}

fn flaky(inner: MemDevice) -> (Flaky, Handle) {
    let calls_left = Rc::new(Cell::new(usize::MAX));
    let log = Rc::new(RefCell::new(Vec::new()));
    (
        Flaky { inner, calls_left: calls_left.clone(), log: log.clone() },
        Handle { calls_left, log },
    )
}

fn formatted() -> MemDevice {
    let mut inner = MemDevice::new(4096, 1 << 24);
    assert_eq!(fs_core::fs::format(&mut inner), Ok(()));
    inner
}

fn mounted() -> (FsCoreInner<Flaky>, Handle) {
    let (dev, handle) = flaky(formatted());
    let mut store = FsCoreInner::new(dev).unwrap();
    store.load_from_device(NOW).unwrap();
    handle.log.borrow_mut().clear();
    (store, handle)
}

impl Flaky {
    fn spend(&mut self) -> bool {
        let left = self.calls_left.get();
        if left == 0 {
            false
        } else {
            self.calls_left.set(left - 1);
            true
        }
    }
}

impl BlockDevice for Flaky {
    fn block_size(&self) -> usize {
        self.inner.block_size()
    }

    fn read_block(&mut self, block_id: u64, buf: &mut Vec<u8>) -> Result<(), DeviceError> {
        self.log.borrow_mut().push(('r', block_id, buf.len()));
        if self.spend() {
            self.inner.read_block(block_id, buf)
        } else {
            Err(DeviceError::Failed)
        }
    }

    fn write_block(&mut self, block_id: u64, buf: &[u8]) -> Result<(), DeviceError> {
        self.log.borrow_mut().push(('w', block_id, buf.len()));
        if self.spend() {
            self.inner.write_block(block_id, buf)
        } else {
            Err(DeviceError::Failed)
        }
    }
}

#[test]
fn write_at_overwrites_and_grows() {
    let mut data = vec![1u8, 2, 3];
    write_at(&mut data, 1, &[9]);
    assert_eq!(data, vec![1, 9, 3]);
    write_at(&mut data, 2, &[7, 8]);
    assert_eq!(data, vec![1, 9, 7, 8]);
    write_at(&mut data, 6, &[5]);
    assert_eq!(data, vec![1, 9, 7, 8, 0, 0, 5]);
    write_at(&mut data, 9, &[]);
    assert_eq!(data, vec![1, 9, 7, 8, 0, 0, 5, 0, 0]);
    write_at(&mut data, 0, &[]);
    assert_eq!(data.len(), 9);
}

#[test]
fn resize_to_cuts_and_fills() {
    let mut data = vec![1u8, 2, 3];
    resize_to(&mut data, 2);
    assert_eq!(data, vec![1, 2]);
    resize_to(&mut data, 4);
    assert_eq!(data, vec![1, 2, 0, 0]);
    resize_to(&mut data, 4);
    assert_eq!(data, vec![1, 2, 0, 0]);
    resize_to(&mut data, 0);
    assert!(data.is_empty());
}

#[test]
fn store_reads_and_writes_whole_blocks_at_one_plus_inode() {
    let (dev, handle) = flaky(formatted());
    let mut store = FsCoreInner::new(dev).unwrap();
    store.load_from_device(NOW).unwrap();
    store.create_file_locked(ROOT_INO, "a", b"x", NOW).unwrap();
    assert_eq!(
        *handle.log.borrow(),
        vec![
            ('r', 0, 512),
            ('r', 2, 4096),
            ('w', 2, 4096),
            ('r', 0, 512),
            ('w', 3, 4096),
            ('w', 2, 4096),
            ('r', 0, 512),
            ('w', 0, 512),
        ]
    );
}

#[test]
fn creation_reports_the_failure_of_the_device_at_each_of_its_steps() {
    for budget in 0..5usize {
        let (mut store, handle) = mounted();
        handle.calls_left.set(budget);
        assert_eq!(
            store.create_file_locked(ROOT_INO, "a", b"x", NOW),
            Err(FsError::Io(DeviceError::Failed))
        );
        assert_eq!(handle.log.borrow().len(), budget + 1);
    }
    let (mut store, handle) = mounted();
    handle.calls_left.set(5);
    assert_eq!(store.create_file_locked(ROOT_INO, "a", b"x", NOW), Ok(2));
    assert_eq!(store.read(2, 0, 1).err(), Some(FsError::Io(DeviceError::Failed)));
}

#[test]
fn creation_that_failed_before_the_superblock_was_written_does_not_use_up_a_number() {
    let (mut store, handle) = mounted();
    handle.calls_left.set(3);
    assert_eq!(
        store.create_file_locked(ROOT_INO, "a", b"x", NOW),
        Err(FsError::Io(DeviceError::Failed))
    );
    handle.calls_left.set(usize::MAX);
    assert_eq!(store.create_file_locked(ROOT_INO, "b", b"y", NOW), Ok(2));
    assert_eq!(store.load_inode(2).unwrap().path, "/b");
}

#[test]
fn mutations_that_are_refused_do_not_touch_the_device() {
    let (mut store, handle) = mounted();
    assert_eq!(store.create_file_locked(5, "a", b"x", NOW), Err(FsError::Unsupported));
    assert_eq!(store.mkdir(5, "a", 0, 0, NOW), Err(FsError::Unsupported));
    assert_eq!(store.unlink_locked(ROOT_INO, "a"), Err(FsError::Unsupported));
    assert!(handle.log.borrow().is_empty());
    let (dev, handle) = flaky(formatted());
    let mut store = FsCoreInner::new(dev).unwrap();
    handle.log.borrow_mut().clear();
    assert_eq!(store.create_file_locked(ROOT_INO, "a", b"x", NOW), Err(FsError::NotFound));
    assert!(handle.log.borrow().is_empty());
}

#[test]
fn record_that_does_not_fit_is_not_written() {
    let (mut store, handle) = mounted();
    let big = vec![0u8; 5000];
    assert_eq!(store.create_file_locked(ROOT_INO, "a", &big, NOW), Err(FsError::TooLarge));
    assert_eq!(*handle.log.borrow(), vec![('r', 0, 512)]);
}

#[test]
fn scan_ends_where_the_device_fails() {
    let mut store = FsCoreInner::new(formatted()).unwrap();
    store.load_from_device(NOW).unwrap();
    for n in ["a", "b", "c"] {
        store.create_file_locked(ROOT_INO, n, b"x", NOW).unwrap();
    }
    let (dev, handle) = flaky(store.into_device());
    handle.calls_left.set(3);
    let mut store = FsCoreInner::new(dev).unwrap();
    let summary = store.load_from_device(NOW).unwrap();
    assert_eq!(summary.loaded, 2);
    assert_eq!(summary.stopped_by, FsError::Io(DeviceError::Failed));
    assert!(!summary.root_created);
}

#[test]
fn scan_fails_where_the_root_cannot_be_made() {
    let (dev, handle) = flaky(formatted());
    handle.calls_left.set(2);
    let mut store = FsCoreInner::new(dev).unwrap();
    assert_eq!(store.load_from_device(NOW).err(), Some(FsError::Io(DeviceError::Failed)));
}

#[test]
fn superblock_load_and_save_report_the_failure() {
    let (mut dev, handle) = flaky(formatted());
    handle.calls_left.set(0);
    assert_eq!(Superblock::load(&mut dev).err(), Some(FsError::Io(DeviceError::Failed)));
    let sb = Superblock::new(4096, 1);
    assert_eq!(sb.save(&mut dev), Err(FsError::Io(DeviceError::Failed)));
    assert_eq!(fs_core::fs::format(&mut dev), Err(FsError::Io(DeviceError::Failed)));
    assert_eq!(fs_core::fs::debug(&mut dev).err(), Some(FsError::Io(DeviceError::Failed)));
    assert_eq!(FsCoreInner::new(dev).err(), Some(FsError::Io(DeviceError::Failed)));
}

#[test]
fn lookup_and_listing_report_the_failure() {
    let (mut store, handle) = mounted();
    for n in ["a", "b"] {
        store.create_file_locked(ROOT_INO, n, b"x", NOW).unwrap();
    }
    handle.calls_left.set(2);
    assert_eq!(store.lookup(ROOT_INO, "b").err(), Some(FsError::Io(DeviceError::Failed)));
    handle.calls_left.set(2);
    assert_eq!(
        store.list_directory(ROOT_INO).err(),
        Some(FsError::Io(DeviceError::Failed))
    );
    handle.calls_left.set(usize::MAX);
    assert_eq!(store.lookup(ROOT_INO, "b").unwrap().ino, 3);
    assert_eq!(store.list_directory(ROOT_INO).unwrap().len(), 4);
}
