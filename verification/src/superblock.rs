//! The superblock: the header at the start of the device that identifies the
//! format and carries the inode allocation counter.

use crate::codec::{
    bincode_header, bincode_parse_header, header_layout, lemma_header_unique,
    lemma_le_value_of_zeros, lemma_u64_unique, u64_le, HeaderFields, HEADER_LEN,
};
use crate::device::{block_offset, byte_at, span, written, BlockDevice, DeviceError};
use crate::error::FsError;
use vstd::prelude::*;

verus! {

/// The magic number of a formatted device.
pub const SUPERBLOCK_MAGIC: u64 = 0xAABBCCDD11223344;

/// The format version written by this library.
pub const SUPERBLOCK_VERSION: u32 = 1;

/// Size in bytes of the region at the start of the device that holds the
/// superblock.
pub const SUPERBLOCK_SIZE: usize = 512;

/// The device header.
#[derive(Clone, Copy, Debug)]
pub struct Superblock {
    /// Magic number for identification.
    pub magic: u64,
    /// Format version.
    pub version: u32,
    /// Identifier of this filesystem instance.
    pub uuid: [u8; 16],
    /// Block size in bytes.
    pub block_size: u32,
    /// Number of inodes handed out so far.
    pub inode_count: u64,
    /// Free inode count; kept, not used.
    pub free_inode_count: u64,
}

/// `uuid::Uuid::new_v4`, as its sixteen bytes. The identifier is random, so
/// nothing is claimed of it.
#[verifier::external_body]
fn fresh_instance_id() -> [u8; 16] {
    *uuid::Uuid::new_v4().as_bytes()
}

/// The header region that holds `layout` at its start and zeros after it.
pub open spec fn header_region(layout: Seq<u8>) -> Seq<u8> {
    Seq::new(SUPERBLOCK_SIZE as nat, |i: int| if i < layout.len() { layout[i] } else { 0u8 })
}

/// Whether `sb` is what the first bytes of `bytes` store.
pub open spec fn stores_header(bytes: Seq<u8>, sb: Superblock) -> bool {
    bytes.len() >= HEADER_LEN && sb.layout() == bytes.subrange(0, HEADER_LEN as int)
}

/// Whether `sb` is a superblock of this format that the first bytes of
/// `bytes` store.
pub open spec fn holds_header(bytes: Seq<u8>, sb: Superblock) -> bool {
    stores_header(bytes, sb) && sb.magic == SUPERBLOCK_MAGIC
}

/// What decoding `bytes` as a superblock gives: the superblock they store,
/// unless they are too few or the magic number is wrong.
pub open spec fn decode_header(bytes: Seq<u8>) -> Result<Superblock, FsError> {
    if exists|sb: Superblock| holds_header(bytes, sb) {
        Ok(choose|sb: Superblock| holds_header(bytes, sb))
    } else {
        Err(FsError::Corrupt)
    }
}

/// The superblock that a device with these contents holds.
pub open spec fn disk_header(contents: Seq<u8>) -> Result<Superblock, FsError> {
    decode_header(span(contents, 0, SUPERBLOCK_SIZE as nat))
}

/// What loading the superblock from a device with these contents gives: the
/// superblock that the device holds, or the corruption error where it holds
/// none; a device that is shorter than the header region cannot be read.
pub open spec fn load_header(contents: Seq<u8>) -> Result<Superblock, FsError> {
    if contents.len() < SUPERBLOCK_SIZE {
        Err(FsError::Io(DeviceError::OutOfRange))
    } else {
        disk_header(contents)
    }
}

/// What saving `sb` to a device with these contents and this limit does:
/// the header region is written at the start, unless the device has no room
/// for it.
pub open spec fn save_header(contents: Seq<u8>, limit: nat, sb: Superblock) -> (
    Seq<u8>,
    Result<(), FsError>,
) {
    if SUPERBLOCK_SIZE <= limit {
        (written(contents, 0, sb.region()), Ok(()))
    } else {
        (contents, Err(FsError::Io(DeviceError::NoSpace)))
    }
}

/// A superblock that a device holds carries the magic number and is what
/// the header region stores; a device whose header region stores anything
/// else is rejected as corrupt.
pub proof fn lemma_held_header_has_magic(contents: Seq<u8>)
    ensures
        disk_header(contents) matches Ok(sb) ==> holds_header(
            span(contents, 0, SUPERBLOCK_SIZE as nat),
            sb,
        ),
        disk_header(contents) matches Err(e) ==> e == FsError::Corrupt,
{
}

/// A device whose header region is all zeros holds no superblock: a device
/// that was never formatted is rejected.
pub proof fn lemma_zeroed_header_is_rejected(contents: Seq<u8>)
    requires
        forall|i: int| 0 <= i < SUPERBLOCK_SIZE ==> byte_at(contents, i) == 0u8,
    ensures
        disk_header(contents) == Err::<Superblock, FsError>(FsError::Corrupt),
{
    let bytes = span(contents, 0, SUPERBLOCK_SIZE as nat);
    assert forall|sb: Superblock| !holds_header(bytes, sb) by {
        if holds_header(bytes, sb) {
            let front = u64_le(sb.magic);
            lemma_u64_unique(sb.magic, sb.magic);
            let stored = bytes.subrange(0, HEADER_LEN as int);
            assert forall|i: int| 0 <= i < 8 implies front[i] == 0u8 by {
                assert(sb.layout()[i] == front[i]);
                assert(stored[i] == 0u8);
            }
            lemma_le_value_of_zeros(front);
        }
    }
}

/// At most one superblock is stored in the first bytes of `bytes`.
pub proof fn lemma_stored_header_unique(bytes: Seq<u8>, a: Superblock, b: Superblock)
    requires
        stores_header(bytes, a),
        stores_header(bytes, b),
    ensures
        a == b,
{
    lemma_header_unique(
        (a.magic, a.version, a.uuid@, a.block_size, a.inode_count, a.free_inode_count),
        (b.magic, b.version, b.uuid@, b.block_size, b.inode_count, b.free_inode_count),
    );
    assert(a.uuid =~= b.uuid);
}

/// Round trip: a superblock with the right magic number that is saved and
/// loaded again comes back with all its fields as they were: magic number,
/// version, instance identifier, block size and both counts. This holds
/// whatever the device held before and whatever follows the header region.
pub proof fn lemma_header_round_trip(sb: Superblock, contents: Seq<u8>)
    requires
        sb.magic == SUPERBLOCK_MAGIC,
    ensures
        decode_header(sb.region()) == Ok::<Superblock, FsError>(sb),
        disk_header(written(contents, 0, sb.region())) == Ok::<Superblock, FsError>(sb),
        load_header(written(contents, 0, sb.region())) == Ok::<Superblock, FsError>(sb),
{
    lemma_header_unique(
        (sb.magic, sb.version, sb.uuid@, sb.block_size, sb.inode_count, sb.free_inode_count),
        (sb.magic, sb.version, sb.uuid@, sb.block_size, sb.inode_count, sb.free_inode_count),
    );
    let region = sb.region();
    assert(sb.layout() =~= region.subrange(0, HEADER_LEN as int));
    assert(holds_header(region, sb));
    let got = choose|got: Superblock| holds_header(region, got);
    lemma_stored_header_unique(region, sb, got);
    assert(span(written(contents, 0, region), 0, SUPERBLOCK_SIZE as nat) =~= region);
}

impl Superblock {
    /// The stored form of the superblock: forty-eight bytes.
    pub open spec fn layout(self) -> Seq<u8> {
        header_layout(
            self.magic,
            self.version,
            self.uuid@,
            self.block_size,
            self.inode_count,
            self.free_inode_count,
        )
    }

    /// The header region as it is written: the stored form, then zeros up to
    /// the region's size.
    pub open spec fn region(self) -> Seq<u8> {
        header_region(self.layout())
    }

    /// A superblock for a fresh filesystem with the given instance
    /// identifier. Storage is not touched.
    pub fn with_instance_id(uuid: [u8; 16], block_size: u32, total_inodes: u64) -> (sb: Superblock)
        ensures
            sb == (Superblock {
                magic: SUPERBLOCK_MAGIC,
                version: SUPERBLOCK_VERSION,
                uuid,
                block_size,
                inode_count: total_inodes,
                free_inode_count: total_inodes,
            }),
    {
        Superblock {
            magic: SUPERBLOCK_MAGIC,
            version: SUPERBLOCK_VERSION,
            uuid,
            block_size,
            inode_count: total_inodes,
            free_inode_count: total_inodes,
        }
    }

    /// A superblock for a fresh filesystem, with a newly drawn instance
    /// identifier. Storage is not touched.
    pub fn new(block_size: u32, total_inodes: u64) -> (sb: Superblock)
        ensures
            sb.magic == SUPERBLOCK_MAGIC,
            sb.version == SUPERBLOCK_VERSION,
            sb.block_size == block_size,
            sb.inode_count == total_inodes,
            sb.free_inode_count == total_inodes,
    {
        Superblock::with_instance_id(fresh_instance_id(), block_size, total_inodes)
    }

    /// The header region for this superblock.
    pub fn encode(&self) -> (region: Vec<u8>)
        ensures
            region@ == self.region(),
    {
        let fields: HeaderFields = (
            self.magic,
            self.version,
            self.uuid,
            self.block_size,
            self.inode_count,
            self.free_inode_count,
        );
        proof {
            lemma_header_unique(
                (
                    self.magic,
                    self.version,
                    self.uuid@,
                    self.block_size,
                    self.inode_count,
                    self.free_inode_count,
                ),
                (
                    self.magic,
                    self.version,
                    self.uuid@,
                    self.block_size,
                    self.inode_count,
                    self.free_inode_count,
                ),
            );
        }
        let mut region = vec![0u8; SUPERBLOCK_SIZE];
        match bincode_header(&fields) {
            Ok(bytes) => {
                let mut i: usize = 0;
                while i < HEADER_LEN
                    invariant
                        i <= HEADER_LEN,
                        bytes@.len() == HEADER_LEN,
                        region@.len() == SUPERBLOCK_SIZE,
                        forall|j: int| 0 <= j < i ==> region@[j] == bytes@[j],
                        forall|j: int| i <= j < SUPERBLOCK_SIZE ==> region@[j] == 0u8,
                    decreases HEADER_LEN - i,
                {
                    region[i] = bytes[i];
                    i = i + 1;
                }
                assert(region@ =~= self.region());
            },
            // Not reached: writing a superblock into a vector does not fail.
            Err(_) => {},
        }
        region
    }

    /// Reads a superblock from the start of `bytes`.
    pub fn decode(bytes: &[u8]) -> (r: Result<Superblock, FsError>)
        ensures
            r == decode_header(bytes@),
    {
        match bincode_parse_header(bytes) {
            Err(_) => Err(FsError::Corrupt),
            Ok(f) => {
                let sb = Superblock {
                    magic: f.0,
                    version: f.1,
                    uuid: f.2,
                    block_size: f.3,
                    inode_count: f.4,
                    free_inode_count: f.5,
                };
                assert(stores_header(bytes@, sb));
                if sb.magic != SUPERBLOCK_MAGIC {
                    assert forall|other: Superblock| !holds_header(bytes@, other) by {
                        if holds_header(bytes@, other) {
                            lemma_stored_header_unique(bytes@, sb, other);
                        }
                    }
                    Err(FsError::Corrupt)
                } else {
                    proof {
                        assert(holds_header(bytes@, sb));
                        let got = choose|got: Superblock| holds_header(bytes@, got);
                        lemma_stored_header_unique(bytes@, sb, got);
                    }
                    Ok(sb)
                }
            },
        }
    }

    /// Reads the header region of the device and decodes it. On a reliable
    /// device the result is that of `load_header`; an unreliable device may
    /// fail instead.
    pub fn load<D: BlockDevice>(dev: &mut D) -> (r: Result<Superblock, FsError>)
        requires
            old(dev).inv(),
        ensures
            final(dev).inv(),
            final(dev).contents() == old(dev).contents(),
            final(dev).block_len() == old(dev).block_len(),
            final(dev).limit() == old(dev).limit(),
            final(dev).reliable() == old(dev).reliable(),
            r matches Err(FsError::Io(_)) && !old(dev).reliable() || r == load_header(
                old(dev).contents(),
            ),
            r matches Err(FsError::Io(_)) || r == disk_header(old(dev).contents()),
    {
        let mut buf = vec![0u8; SUPERBLOCK_SIZE];
        assert(block_offset(0, dev.block_len()) == 0) by (nonlinear_arith);
        match dev.read_block(0, &mut buf) {
            Err(e) => Err(FsError::Io(e)),
            Ok(()) => Superblock::decode(buf.as_slice()),
        }
    }

    /// Writes the header region to the start of the device. On a reliable
    /// device contents and result are those of `save_header`; an unreliable
    /// device may fail instead, and nothing is then known of its contents.
    pub fn save<D: BlockDevice>(&self, dev: &mut D) -> (r: Result<(), FsError>)
        requires
            old(dev).inv(),
        ensures
            final(dev).inv(),
            final(dev).block_len() == old(dev).block_len(),
            final(dev).limit() == old(dev).limit(),
            final(dev).reliable() == old(dev).reliable(),
            r matches Err(e) ==> e is Io,
            r is Ok ==> final(dev).contents() == written(old(dev).contents(), 0, self.region()),
            r matches Err(FsError::Io(_)) && !old(dev).reliable() || (final(dev).contents(), r)
                == save_header(old(dev).contents(), old(dev).limit(), *self),
    {
        let region = self.encode();
        assert(block_offset(0, dev.block_len()) == 0) by (nonlinear_arith);
        match dev.write_block(0, region.as_slice()) {
            Err(e) => Err(FsError::Io(e)),
            Ok(()) => Ok(()),
        }
    }
}

} // verus!
