use fs_core::device::{BlockDevice, DeviceError, MemDevice};
use fs_core::error::FsError;
use fs_core::superblock::{Superblock, SUPERBLOCK_MAGIC, SUPERBLOCK_SIZE, SUPERBLOCK_VERSION};

#[test]
fn new_superblock_sets_identity_and_counts() {
    let sb = Superblock::new(4096, 7);
    assert_eq!(sb.magic, 0xAABBCCDD11223344);
    assert_eq!(sb.magic, SUPERBLOCK_MAGIC);
    assert_eq!(sb.version, SUPERBLOCK_VERSION);
    assert_eq!(sb.block_size, 4096);
    assert_eq!(sb.inode_count, 7);
    assert_eq!(sb.free_inode_count, 7);
}

#[test]
fn new_superblocks_draw_distinct_instance_ids() {
    let a = Superblock::new(4096, 1);
    let b = Superblock::new(4096, 1);
    assert_ne!(a.uuid, b.uuid);
}

#[test]
fn superblock_encodes_to_the_documented_layout() {
    let uuid = [
        0x10, 0x11, 0x12, 0x13, 0x14, 0x15, 0x16, 0x17, 0x18, 0x19, 0x1a, 0x1b, 0x1c, 0x1d, 0x1e,
        0x1f,
    ];
    let mut sb = Superblock::with_instance_id(uuid, 4096, 3);
    sb.free_inode_count = 0x0102030405060708;
    let region = sb.encode();
    assert_eq!(region.len(), SUPERBLOCK_SIZE);
    let mut expected = vec![0x44, 0x33, 0x22, 0x11, 0xDD, 0xCC, 0xBB, 0xAA];
    expected.extend_from_slice(&[1, 0, 0, 0]);
    expected.extend_from_slice(&uuid);
    expected.extend_from_slice(&[0x00, 0x10, 0, 0]);
    expected.extend_from_slice(&[3, 0, 0, 0, 0, 0, 0, 0]);
    expected.extend_from_slice(&[8, 7, 6, 5, 4, 3, 2, 1]);
    assert_eq!(expected.len(), 48);
    assert_eq!(&region[..48], &expected[..]);
    assert!(region[48..].iter().all(|b| *b == 0));
}

#[test]
fn superblock_round_trip_through_device() {
    for k in [0u64, 1, 5, u64::MAX] {
        let mut dev = MemDevice::new(4096, 1 << 20);
        let sb = Superblock::new(4096, k);
        assert_eq!(sb.save(&mut dev), Ok(()));
        let loaded = Superblock::load(&mut dev).unwrap();
        assert_eq!(loaded.magic, sb.magic);
        assert_eq!(loaded.version, sb.version);
        assert_eq!(loaded.uuid, sb.uuid);
        assert_eq!(loaded.block_size, 4096);
        assert_eq!(loaded.inode_count, k);
        assert_eq!(loaded.free_inode_count, k);
    }
}

#[test]
fn load_rejects_wrong_magic() {
    let mut dev = MemDevice::new(4096, 1 << 20);
    let mut sb = Superblock::new(4096, 1);
    sb.magic = 0xDEADBEEF;
    assert_eq!(sb.save(&mut dev), Ok(()));
    assert_eq!(Superblock::load(&mut dev).err(), Some(FsError::Corrupt));
}

#[test]
fn load_rejects_unformatted_device() {
    let mut dev = MemDevice::zeroed(4096, 4).unwrap();
    assert_eq!(Superblock::load(&mut dev).err(), Some(FsError::Corrupt));
}

#[test]
fn load_reports_device_failure_on_empty_device() {
    let mut dev = MemDevice::new(4096, 1 << 20);
    assert_eq!(
        Superblock::load(&mut dev).err(),
        Some(FsError::Io(DeviceError::OutOfRange))
    );
}

#[test]
fn decode_rejects_short_input() {
    assert_eq!(Superblock::decode(&[0u8; 47]).err(), Some(FsError::Corrupt));
}

#[test]
fn decode_ignores_bytes_after_the_header() {
    let sb = Superblock::with_instance_id([9u8; 16], 512, 42);
    let mut bytes = sb.encode();
    bytes.truncate(48);
    bytes.extend_from_slice(&[0xFF; 20]);
    let got = Superblock::decode(&bytes).unwrap();
    assert_eq!(got.uuid, [9u8; 16]);
    assert_eq!(got.inode_count, 42);
    assert_eq!(got.block_size, 512);
}

#[test]
fn save_fails_when_device_has_no_room() {
    let mut dev = MemDevice::new(4096, 100);
    let sb = Superblock::new(4096, 1);
    assert_eq!(sb.save(&mut dev), Err(FsError::Io(DeviceError::NoSpace)));
    assert_eq!(dev.as_bytes().len(), 0);
}

#[test]
fn mem_device_reads_back_what_was_written() {
    let mut dev = MemDevice::new(8, 64);
    assert_eq!(dev.block_size(), 8);
    assert_eq!(dev.write_block(2, &[1, 2, 3]), Ok(()));
    assert_eq!(dev.as_bytes().as_slice(), &[0, 0, 0, 0, 0, 0, 0, 0, 0, 0, 0, 0, 0, 0, 0, 0, 1, 2, 3]);
    let mut buf = vec![0u8; 3];
    assert_eq!(dev.read_block(2, &mut buf), Ok(()));
    assert_eq!(buf, vec![1, 2, 3]);
    let mut long = vec![7u8; 4];
    assert_eq!(dev.read_block(2, &mut long), Err(DeviceError::OutOfRange));
    assert_eq!(long, vec![7u8; 4]);
    assert_eq!(dev.write_block(8, &[1]), Err(DeviceError::NoSpace));
    assert_eq!(dev.write_block(7, &[9; 8]), Ok(()));
    assert_eq!(dev.as_bytes().len(), 64);
    assert_eq!(dev.write_block(u64::MAX, &[]), Err(DeviceError::NoSpace));
}

#[test]
fn zeroed_device_is_full_of_zeros() {
    let dev = MemDevice::zeroed(16, 3).unwrap();
    assert_eq!(dev.as_bytes().len(), 48);
    assert!(dev.as_bytes().iter().all(|b| *b == 0));
    assert!(MemDevice::zeroed(usize::MAX, 2).is_none());
}

#[test]
fn device_never_grows_beyond_what_a_vector_can_hold() {
    let mut dev = MemDevice::new(4096, usize::MAX);
    assert_eq!(dev.write_block(u64::MAX / 2, &[1]), Err(DeviceError::NoSpace));
    let far = (isize::MAX as u64) / 4096;
    assert_eq!(dev.write_block(far, &[0u8; 4096]), Err(DeviceError::NoSpace));
    assert_eq!(dev.as_bytes().len(), 0);
    assert_eq!(dev.write_block(1, &[7]), Ok(()));
    assert_eq!(dev.as_bytes().len(), 4097);
    assert!(MemDevice::zeroed(1, (isize::MAX as usize) + 1).is_none());
    assert!(MemDevice::zeroed(0, usize::MAX).is_some());
}
