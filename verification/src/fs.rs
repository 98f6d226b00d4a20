//! Formatting a device and inspecting its superblock.

use crate::device::{written, BlockDevice, DeviceError};
use crate::error::FsError;
use crate::superblock::{
    disk_header, lemma_header_round_trip, load_header, Superblock, SUPERBLOCK_MAGIC,
    SUPERBLOCK_SIZE, SUPERBLOCK_VERSION,
};
use vstd::prelude::*;

verus! {

/// The block size that a formatted device is laid out for.
pub const DEFAULT_BLOCK_SIZE: u32 = 4096;

/// Whether `sb` is the superblock of a freshly formatted device: the format's
/// magic number and version, the default block size, and an inode count of
/// one, which leaves inode 1 for the root directory.
pub open spec fn fresh_superblock(sb: Superblock) -> bool {
    &&& sb.magic == SUPERBLOCK_MAGIC
    &&& sb.version == SUPERBLOCK_VERSION
    &&& sb.block_size == DEFAULT_BLOCK_SIZE
    &&& sb.inode_count == 1
    &&& sb.free_inode_count == 1
}

/// Formats the device: writes the superblock of a fresh filesystem, with a
/// newly drawn instance identifier, to its start. Whatever inode blocks the
/// device holds are left as they are.
pub fn format<D: BlockDevice>(device: &mut D) -> (r: Result<(), FsError>)
    requires
        old(device).inv(),
    ensures
        final(device).inv(),
        final(device).block_len() == old(device).block_len(),
        final(device).limit() == old(device).limit(),
        final(device).reliable() == old(device).reliable(),
        r matches Err(e) ==> e is Io,
        r is Ok ==> {
            &&& disk_header(final(device).contents()) matches Ok(sb)
            &&& fresh_superblock(sb)
            &&& final(device).contents() == written(old(device).contents(), 0, sb.region())
        },
        old(device).reliable() ==> (r is Ok <==> SUPERBLOCK_SIZE <= old(device).limit()),
        old(device).reliable() && r is Err ==> r == Err::<(), FsError>(
            FsError::Io(DeviceError::NoSpace),
        ) && final(device).contents() == old(device).contents(),
{
    let sb = Superblock::new(DEFAULT_BLOCK_SIZE, 1);
    proof {
        lemma_header_round_trip(sb, device.contents());
    }
    sb.save(device)
}

/// The superblock that the device holds, for display.
pub fn debug<D: BlockDevice>(device: &mut D) -> (r: Result<Superblock, FsError>)
    requires
        old(device).inv(),
    ensures
        final(device).inv(),
        final(device).contents() == old(device).contents(),
        final(device).block_len() == old(device).block_len(),
        final(device).limit() == old(device).limit(),
        final(device).reliable() == old(device).reliable(),
        r matches Err(FsError::Io(_)) && !old(device).reliable() || r == load_header(
            old(device).contents(),
        ),
{
    Superblock::load(device)
}

} // verus!
