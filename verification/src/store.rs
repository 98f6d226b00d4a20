//! The inode store: the records on the device, the in-memory projection of
//! them, and the algorithms that keep the two in step.
//!
//! The store does not cache: every operation that needs a record reads it
//! from the device, and every mutation reloads the superblock first, so that
//! what another holder of the device has written is seen. The projection is
//! filled as a by-product and serves the directory listings that are written
//! back.
//!
//! Each operation is described by a spec function from the state before it
//! to the state after it and the result. A device may fail at any moment;
//! the description then holds of every run in which it did not.

use crate::device::{
    block_offset, resize_to, write_at, DeviceError, lemma_blocks_apart, lemma_written_apart,
    lemma_written_same, span, written, BlockDevice,
};
use crate::error::FsError;
use crate::layout::{
    decode_block, decode_entries, decode_entry_list, encode_entries, entries_view, fits, frame,
    DirectoryEntry, InodeView, PersistedInode, SerializableFileAttr, SerializableFileType,
    Timestamp,
};
use crate::codec::entries_layout;
use crate::layout::{directory_attr, file_attr, lemma_layout_len, MAX_BLOCK_SIZE};
use crate::names::{ino_of, name_of, with_name, with_names, NameTable};
use crate::superblock::{load_header, save_header, Superblock, SUPERBLOCK_SIZE};
use std::collections::HashMap;
use vstd::prelude::*;
use vstd::slice::{slice_subrange, slice_to_vec};
use vstd::string::StringExecFns;
use vstd::std_specs::hash::*;

verus! {

broadcast use vstd::std_specs::hash::group_hash_axioms;

/// The inode number of the root directory.
pub const ROOT_INO: u64 = 1;

/// The smallest block size a device may have: the header region must lie
/// within block 0.
pub const MIN_BLOCK_SIZE: usize = 512;

/// The in-memory projection of the records on the device.
pub struct Projection {
    /// The allocation counter: the highest inode number handed out.
    pub counter: u64,
    /// Inode number to attributes.
    pub attrs: Map<u64, SerializableFileAttr>,
    /// Inode number to content.
    pub data: Map<u64, Seq<u8>>,
    /// Absolute path to inode number.
    pub paths: Seq<(Seq<char>, u64)>,
    /// Parent to the names and inode numbers of its children.
    pub children: Map<u64, Seq<(Seq<char>, u64)>>,
}

/// All that an operation of the store can read or change, and what it can
/// know of its device.
pub struct StoreState {
    pub projection: Projection,
    /// The bytes on the device.
    pub disk: Seq<u8>,
    /// The block size of the device.
    pub block_len: nat,
    /// The size beyond which the device does not grow.
    pub limit: nat,
    /// Whether the device fails only for want of range or space.
    pub reliable: bool,
}

/// Whether an operation that returned `r` may have been cut short by its
/// device: only an unreliable device does that, and the result is then a
/// failure of input or output.
pub open spec fn cut_short<T>(before: StoreState, r: Result<T, FsError>) -> bool {
    !before.reliable && r matches Err(FsError::Io(_))
}

impl StoreState {
    /// What holds of the state of every store: a block is large enough for
    /// the header region and small enough for a vector.
    pub open spec fn wf(self) -> bool {
        MIN_BLOCK_SIZE <= self.block_len <= MAX_BLOCK_SIZE
    }

    /// Whether `other` is a state of the same device.
    pub open spec fn same_device(self, other: StoreState) -> bool {
        &&& self.block_len == other.block_len
        &&& self.limit == other.limit
        &&& self.reliable == other.reliable
    }
}

impl Projection {
    /// The projection that knows no inode.
    pub open spec fn fresh(counter: u64) -> Projection {
        Projection {
            counter,
            attrs: Map::empty(),
            data: Map::empty(),
            paths: Seq::empty(),
            children: Map::empty(),
        }
    }

    /// The same projection with another counter.
    pub open spec fn with_counter(self, counter: u64) -> Projection {
        Projection { counter, ..self }
    }

    /// The projection after an inode with these attributes, content and
    /// path has been entered under `ino`.
    pub open spec fn with_inode(
        self,
        ino: u64,
        attr: SerializableFileAttr,
        data: Seq<u8>,
        path: Seq<char>,
    ) -> Projection {
        Projection {
            attrs: self.attrs.insert(ino, attr),
            data: self.data.insert(ino, data),
            paths: with_name(self.paths, path, ino),
            ..self
        }
    }

    /// The children known of `parent`.
    pub open spec fn children_of(self, parent: u64) -> Seq<(Seq<char>, u64)> {
        if self.children.contains_key(parent) {
            self.children[parent]
        } else {
            Seq::empty()
        }
    }

    /// The projection after `name` has been entered among the children of
    /// `parent`.
    pub open spec fn with_child(self, parent: u64, name: Seq<char>, ino: u64) -> Projection {
        Projection {
            children: self.children.insert(parent, with_name(self.children_of(parent), name, ino)),
            ..self
        }
    }
}

/// Byte offset of the block that holds inode `ino`: block 0 is the
/// superblock's, so inode `ino` lives in block `1 + ino`.
pub open spec fn inode_offset(ino: u64, block_len: nat) -> int {
    (1 + ino) * block_len
}

/// The block of inode `ino` on a device with these contents.
pub open spec fn disk_block(disk: Seq<u8>, block_len: nat, ino: u64) -> Seq<u8> {
    span(disk, inode_offset(ino, block_len), block_len)
}

/// The record of inode `ino` on a device with these contents, if its block
/// holds one.
pub open spec fn disk_record(disk: Seq<u8>, block_len: nat, ino: u64) -> Option<InodeView> {
    decode_block(disk_block(disk, block_len, ino))
}

/// What a result holds, with a record by its view.
pub open spec fn record_result(r: Result<PersistedInode, FsError>) -> Result<InodeView, FsError> {
    match r {
        Ok(inode) => Ok(inode@),
        Err(e) => Err(e),
    }
}

/// What loading inode `ino` gives: its record, or the corruption error
/// where its block holds none. A block that lies beyond the end of the
/// device cannot be read, and the last inode number has no block at all:
/// its block number cannot be represented.
pub open spec fn load_inode_model(s: StoreState, ino: u64) -> Result<InodeView, FsError> {
    if ino == u64::MAX || inode_offset(ino, s.block_len) + s.block_len > s.disk.len() {
        Err(FsError::Io(DeviceError::OutOfRange))
    } else {
        match disk_record(s.disk, s.block_len, ino) {
            Some(v) => Ok(v),
            None => Err(FsError::Corrupt),
        }
    }
}

/// What saving a record as inode `ino` does: a record that does not fit is
/// refused, an inode whose block number cannot be represented is out of the
/// device's range, a block beyond the device's limit finds no space, and
/// otherwise the block of the inode holds the framed record.
pub open spec fn save_inode_model(s: StoreState, ino: u64, v: InodeView) -> (
    StoreState,
    Result<(), FsError>,
) {
    if !fits(v.layout().len(), s.block_len) {
        (s, Err(FsError::TooLarge))
    } else if ino == u64::MAX {
        (s, Err(FsError::Io(DeviceError::OutOfRange)))
    } else if inode_offset(ino, s.block_len) + s.block_len > s.limit {
        (s, Err(FsError::Io(DeviceError::NoSpace)))
    } else {
        (
            StoreState {
                disk: written(s.disk, inode_offset(ino, s.block_len), frame(v.layout(), s.block_len)),
                ..s
            },
            Ok(()),
        )
    }
}

/// A block of zeros.
pub open spec fn zero_block(block_len: nat) -> Seq<u8> {
    Seq::new(block_len, |i: int| 0u8)
}

/// What removing the record of inode `ino` from the device does: its block
/// is filled with zeros, so that it holds no record.
pub open spec fn delete_inode_model(s: StoreState, ino: u64) -> (StoreState, Result<(), FsError>) {
    if ino == u64::MAX {
        (s, Err(FsError::Io(DeviceError::OutOfRange)))
    } else if inode_offset(ino, s.block_len) + s.block_len > s.limit {
        (s, Err(FsError::Io(DeviceError::NoSpace)))
    } else {
        (
            StoreState {
                disk: written(s.disk, inode_offset(ino, s.block_len), zero_block(s.block_len)),
                ..s
            },
            Ok(()),
        )
    }
}

/// What reloading the superblock does: the counter becomes the stored inode
/// count.
pub open spec fn load_superblock_model(s: StoreState) -> (StoreState, Result<(), FsError>) {
    match load_header(s.disk) {
        Ok(sb) => (
            StoreState { projection: s.projection.with_counter(sb.inode_count), ..s },
            Ok(()),
        ),
        Err(e) => (s, Err(e)),
    }
}

/// What saving the superblock does: the stored superblock is written back
/// with the counter as its inode count.
pub open spec fn save_superblock_model(s: StoreState) -> (StoreState, Result<(), FsError>) {
    match load_header(s.disk) {
        Ok(sb) => {
            let saved = save_header(
                s.disk,
                s.limit,
                Superblock { inode_count: s.projection.counter, ..sb },
            );
            (StoreState { disk: saved.0, ..s }, saved.1)
        },
        Err(e) => (s, Err(e)),
    }
}

/// What loading inode `ino` into the projection does.
pub open spec fn get_or_load_model(s: StoreState, ino: u64) -> (
    StoreState,
    Result<InodeView, FsError>,
) {
    match load_inode_model(s, ino) {
        Ok(v) => (
            StoreState { projection: s.projection.with_inode(ino, v.attr, v.data, v.path), ..s },
            Ok(v),
        ),
        Err(e) => (s, Err(e)),
    }
}

/// The path of the root directory.
pub open spec fn root_path() -> Seq<char> {
    seq!['/']
}

/// The record of a newly made root directory: no entries, owned by user and
/// group 0.
pub open spec fn root_record(now: Timestamp) -> InodeView {
    InodeView {
        attr: directory_attr(ROOT_INO, 0, 0, now),
        data: entries_layout(Seq::empty()),
        path: root_path(),
    }
}

/// What making the root directory does: its record is written to its block,
/// and its attributes, an empty content and its path are entered into the
/// projection.
pub open spec fn insert_root_dir_model(s: StoreState, now: Timestamp) -> (
    StoreState,
    Result<(), FsError>,
) {
    let saved = save_inode_model(s, ROOT_INO, root_record(now));
    match saved.1 {
        Err(e) => (s, Err(e)),
        Ok(()) => (
            StoreState {
                projection: s.projection.with_inode(
                    ROOT_INO,
                    root_record(now).attr,
                    Seq::empty(),
                    root_path(),
                ),
                ..saved.0
            },
            Ok(()),
        ),
    }
}

/// The projection after the record `v` of inode `ino` has been found by the
/// scan: its attributes, content and path are entered, the counter is
/// raised above `ino`, and the entries of a directory whose content decodes
/// become its children.
pub open spec fn scan_step(p: Projection, ino: u64, v: InodeView) -> Projection {
    let entered = p.with_inode(ino, v.attr, v.data, v.path).with_counter(
        if p.counter > ino {
            p.counter
        } else {
            (ino + 1) as u64
        },
    );
    if v.attr.kind == SerializableFileType::Directory {
        match decode_entry_list(v.data) {
            Some(es) => Projection {
                children: entered.children.insert(ino, with_names(Seq::empty(), es)),
                ..entered
            },
            None => entered,
        }
    } else {
        entered
    }
}

/// The projection after the records of inodes 1 to `n` have been found by
/// the scan.
pub open spec fn scanned(p: Projection, disk: Seq<u8>, block_len: nat, n: nat) -> Projection
    decreases n,
{
    if n == 0 {
        p
    } else {
        let before = scanned(p, disk, block_len, (n - 1) as nat);
        match disk_record(disk, block_len, n as u64) {
            Some(v) => scan_step(before, n as u64, v),
            None => before,
        }
    }
}

/// What the scan of a device found.
#[derive(Clone, Copy, Debug, PartialEq, Eq, Structural)]
pub struct ScanSummary {
    /// Number of inode records found: those of inodes 1 to `loaded`.
    pub loaded: u64,
    /// What ended the scan: the corruption error where the next block holds
    /// no record, which is how the end of the table shows, or the failure
    /// of the device.
    pub stopped_by: FsError,
    /// Whether no record of the root directory was found, so that one was
    /// made.
    pub root_created: bool,
    /// Number of directories among the records found whose content is no
    /// entry list: they were entered without children.
    pub unreadable_directories: u64,
}

/// Whether `v` is the record of a directory whose content is no entry list.
pub open spec fn unreadable_directory(v: InodeView) -> bool {
    v.attr.kind == SerializableFileType::Directory && decode_entry_list(v.data) is None
}

/// Number of directories among the records of inodes 1 to `n` whose content
/// is no entry list.
pub open spec fn unreadable_among(disk: Seq<u8>, block_len: nat, n: nat) -> nat
    decreases n,
{
    if n == 0 {
        0
    } else {
        let before = unreadable_among(disk, block_len, (n - 1) as nat);
        match disk_record(disk, block_len, n as u64) {
            Some(v) => if unreadable_directory(v) {
                before + 1
            } else {
                before
            },
            None => before,
        }
    }
}

/// What scanning the device does, where the scan found `summary`: the
/// records of inodes 1 to `summary.loaded` are all there and are entered
/// into the projection, and a root directory is made if none was among them.
pub open spec fn load_from_device_model(s: StoreState, now: Timestamp, summary: ScanSummary) -> (
    StoreState,
    Result<(), FsError>,
) {
    let found = StoreState {
        projection: scanned(s.projection, s.disk, s.block_len, summary.loaded as nat),
        ..s
    };
    if summary.root_created {
        insert_root_dir_model(found, now)
    } else {
        (found, Ok(()))
    }
}

/// Whether `summary` describes a scan of a device in state `s`: every inode
/// up to `summary.loaded` has a record, the scan did not stop at a block
/// that holds one unless it was the device that ended it, the root is made
/// exactly when it was not found, and the directories that were entered
/// without children are counted. On a reliable device that fixes the
/// summary: the scan ends at the first inode that cannot be loaded, for the
/// reason why it cannot.
pub open spec fn scan_found(s: StoreState, summary: ScanSummary) -> bool {
    &&& forall|i: u64| 1 <= i <= summary.loaded ==> load_inode_model(s, i) is Ok
    &&& summary.loaded < u64::MAX
    &&& s.reliable ==> load_inode_model(s, (summary.loaded + 1) as u64) == Err::<
        InodeView,
        FsError,
    >(summary.stopped_by)
    &&& summary.stopped_by == FsError::Corrupt ==> disk_record(
        s.disk,
        s.block_len,
        (summary.loaded + 1) as u64,
    ) is None
    &&& (summary.stopped_by == FsError::Corrupt || summary.stopped_by is Io)
    &&& summary.root_created == !scanned(
        s.projection,
        s.disk,
        s.block_len,
        summary.loaded as nat,
    ).attrs.contains_key(ROOT_INO)
    &&& summary.unreadable_directories == unreadable_among(
        s.disk,
        s.block_len,
        summary.loaded as nat,
    )
}

/// The absolute path of the child `name` of the root directory.
pub open spec fn child_path(name: Seq<char>) -> Seq<char> {
    root_path() + name
}

/// What adding a child to a directory does. `template` gives the child's
/// attributes but for its inode number, `disk_data` the content of its
/// record and `mem_data` the content entered into the projection.
///
/// Only the root can be the parent, and it must be known to the projection.
/// The superblock is reloaded and the next inode number taken. The child is
/// entered into the projection, under its path and among the children of
/// the parent. Then its record is written, then the parent's record with
/// the whole list of its children as content, then the superblock with the
/// new counter.
pub open spec fn add_child_model(
    s: StoreState,
    parent: u64,
    name: Seq<char>,
    template: SerializableFileAttr,
    disk_data: Seq<u8>,
    mem_data: Seq<u8>,
) -> (StoreState, Result<u64, FsError>) {
    if parent != ROOT_INO {
        (s, Err(FsError::Unsupported))
    } else if !s.projection.attrs.contains_key(parent) || name_of(s.projection.paths, parent)
        is None {
        (s, Err(FsError::NotFound))
    } else {
        match load_header(s.disk) {
            Err(e) => (s, Err(e)),
            Ok(sb) => if sb.inode_count >= u64::MAX - 1 {
                (
                    StoreState { projection: s.projection.with_counter(sb.inode_count), ..s },
                    Err(FsError::Exhausted),
                )
            } else {
                let ino = (sb.inode_count + 1) as u64;
                let attr = SerializableFileAttr { ino, ..template };
                let path = child_path(name);
                let entered = StoreState {
                    projection: s.projection.with_counter(ino).with_inode(
                        ino,
                        attr,
                        mem_data,
                        path,
                    ).with_child(parent, name, ino),
                    ..s
                };
                let child = InodeView { attr, data: disk_data, path };
                let listed = InodeView {
                    attr: s.projection.attrs[parent],
                    data: entries_layout(entered.projection.children_of(parent)),
                    path: name_of(s.projection.paths, parent)->Some_0,
                };
                let first = save_inode_model(entered, ino, child);
                match first.1 {
                    Err(e) => (first.0, Err(e)),
                    Ok(()) => {
                        let second = save_inode_model(first.0, parent, listed);
                        match second.1 {
                            Err(e) => (second.0, Err(e)),
                            Ok(()) => {
                                let third = save_superblock_model(second.0);
                                match third.1 {
                                    Err(e) => (third.0, Err(e)),
                                    Ok(()) => (third.0, Ok(ino)),
                                }
                            },
                        }
                    },
                }
            },
        }
    }
}

/// What creating a regular file with content `data` does.
pub open spec fn create_file_model(
    s: StoreState,
    parent: u64,
    name: Seq<char>,
    data: Seq<u8>,
    now: Timestamp,
) -> (StoreState, Result<u64, FsError>) {
    add_child_model(s, parent, name, file_attr(0, data.len() as u64, now), data, data)
}

/// What making a directory does: as creating a file, with a directory's
/// attributes, an empty entry list as the record's content and no content
/// in the projection. The result is the attributes of the new directory.
pub open spec fn mkdir_model(
    s: StoreState,
    parent: u64,
    name: Seq<char>,
    uid: u32,
    gid: u32,
    now: Timestamp,
) -> (StoreState, Result<SerializableFileAttr, FsError>) {
    let added = add_child_model(
        s,
        parent,
        name,
        directory_attr(0, uid, gid, now),
        entries_layout(Seq::empty()),
        Seq::empty(),
    );
    match added.1 {
        Ok(ino) => (added.0, Ok(directory_attr(ino, uid, gid, now))),
        Err(e) => (added.0, Err(e)),
    }
}

/// The path under which the child `name` of `parent` is looked up, if the
/// path of `parent` is known.
pub open spec fn lookup_target(paths: Seq<(Seq<char>, u64)>, parent: u64, name: Seq<char>) -> Option<
    Seq<char>,
> {
    match name_of(paths, parent) {
        None => None,
        Some(parent_path) => Some(
            if parent == ROOT_INO {
                child_path(name)
            } else {
                parent_path + root_path() + name
            },
        ),
    }
}

/// What looking for the path `target` among the inodes `ino` to `upto`
/// does: each inode whose block holds a record is entered into the
/// projection, and the first whose path is `target` is the one found. An
/// inode whose block lies beyond the end of the device or holds no record
/// is passed over.
pub open spec fn lookup_from(s: StoreState, target: Seq<char>, ino: u64, upto: u64) -> (
    StoreState,
    Result<SerializableFileAttr, FsError>,
)
    decreases upto - ino + 1,
{
    if ino > upto {
        (s, Err(FsError::NotFound))
    } else {
        let loaded = get_or_load_model(s, ino);
        if loaded.1 is Ok && loaded.1->Ok_0.path == target {
            (loaded.0, Ok(loaded.1->Ok_0.attr))
        } else if ino == upto {
            (loaded.0, Err(FsError::NotFound))
        } else {
            lookup_from(loaded.0, target, (ino + 1) as u64, upto)
        }
    }
}

/// What looking up the child `name` of `parent` does: the superblock is
/// reloaded, and the inodes from 1 to its inode count are searched for the
/// child's path.
pub open spec fn lookup_model(s: StoreState, parent: u64, name: Seq<char>) -> (
    StoreState,
    Result<SerializableFileAttr, FsError>,
) {
    let reloaded = load_superblock_model(s);
    match reloaded.1 {
        Err(e) => (s, Err(e)),
        Ok(()) => match lookup_target(reloaded.0.projection.paths, parent, name) {
            None => (reloaded.0, Err(FsError::NotFound)),
            Some(target) => lookup_from(reloaded.0, target, 1, reloaded.0.projection.counter),
        },
    }
}

/// What reading the attributes of inode `ino` does: its record is loaded
/// into the projection.
pub open spec fn get_attributes_model(s: StoreState, ino: u64) -> (
    StoreState,
    Result<SerializableFileAttr, FsError>,
) {
    let loaded = get_or_load_model(s, ino);
    match loaded.1 {
        Ok(v) => (loaded.0, Ok(v.attr)),
        Err(e) => (loaded.0, Err(e)),
    }
}

/// The part of `data` that a read of `size` bytes at `offset` gives:
/// nothing at or past the end, and no more than is there.
pub open spec fn read_range(data: Seq<u8>, offset: int, size: int) -> Seq<u8> {
    if offset >= data.len() {
        Seq::empty()
    } else if offset + size >= data.len() {
        data.subrange(offset, data.len() as int)
    } else {
        data.subrange(offset, offset + size)
    }
}

/// What reading from inode `ino` gives.
pub open spec fn read_model(s: StoreState, ino: u64, offset: u64, size: u32) -> Result<
    Seq<u8>,
    FsError,
> {
    match load_inode_model(s, ino) {
        Ok(v) => Ok(read_range(v.data, offset as int, size as int)),
        Err(e) => Err(e),
    }
}

/// What a result holds, with bytes by their view.
pub open spec fn bytes_result(r: Result<Vec<u8>, FsError>) -> Result<Seq<u8>, FsError> {
    match r {
        Ok(bytes) => Ok(bytes@),
        Err(e) => Err(e),
    }
}

/// The record of an inode after `bytes` have been written at `offset`: the
/// content grows to take them, a gap is filled with zeros, and the size
/// follows the content.
pub open spec fn record_written(v: InodeView, offset: u64, bytes: Seq<u8>) -> InodeView {
    let data = written(v.data, offset as int, bytes);
    InodeView {
        attr: SerializableFileAttr { size: data.len() as u64, ..v.attr },
        data,
        path: v.path,
    }
}

/// What writing `bytes` at `offset` into inode `ino` does: the record is
/// read, changed and written back; the result is the number of bytes
/// written.
pub open spec fn write_range_model(s: StoreState, ino: u64, offset: u64, bytes: Seq<u8>) -> (
    StoreState,
    Result<u32, FsError>,
) {
    match load_inode_model(s, ino) {
        Err(e) => (s, Err(e)),
        Ok(v) => {
            let saved = save_inode_model(s, ino, record_written(v, offset, bytes));
            match saved.1 {
                Err(e) => (saved.0, Err(e)),
                Ok(()) => (saved.0, Ok(bytes.len() as u32)),
            }
        },
    }
}

/// Changes to the attributes of an inode; `None` leaves a field as it is.
#[derive(Clone, Copy, Debug)]
pub struct AttrChanges {
    pub uid: Option<u32>,
    pub gid: Option<u32>,
    pub size: Option<u64>,
    pub atime: Option<Timestamp>,
    pub mtime: Option<Timestamp>,
    pub ctime: Option<Timestamp>,
}

/// The record of an inode after `changes`: a new size cuts the content or
/// fills it up with zeros.
pub open spec fn record_changed(v: InodeView, changes: AttrChanges) -> InodeView {
    InodeView {
        attr: SerializableFileAttr {
            size: match changes.size {
                Some(size) => size,
                None => v.attr.size,
            },
            uid: match changes.uid {
                Some(uid) => uid,
                None => v.attr.uid,
            },
            gid: match changes.gid {
                Some(gid) => gid,
                None => v.attr.gid,
            },
            atime: match changes.atime {
                Some(t) => t,
                None => v.attr.atime,
            },
            mtime: match changes.mtime {
                Some(t) => t,
                None => v.attr.mtime,
            },
            ctime: match changes.ctime {
                Some(t) => t,
                None => v.attr.ctime,
            },
            ..v.attr
        },
        data: match changes.size {
            Some(size) => span(v.data, 0, size as nat),
            None => v.data,
        },
        path: v.path,
    }
}

/// What changing the attributes of inode `ino` does: the record is read,
/// changed and written back; the result is the new attributes.
pub open spec fn set_attributes_model(s: StoreState, ino: u64, changes: AttrChanges) -> (
    StoreState,
    Result<SerializableFileAttr, FsError>,
) {
    match load_inode_model(s, ino) {
        Err(e) => (s, Err(e)),
        Ok(v) => {
            let changed = record_changed(v, changes);
            let saved = save_inode_model(s, ino, changed);
            match saved.1 {
                Err(e) => (saved.0, Err(e)),
                Ok(()) => (saved.0, Ok(changed.attr)),
            }
        },
    }
}

/// One line of a directory listing.
#[derive(Debug)]
pub struct DirItem {
    pub ino: u64,
    pub kind: SerializableFileType,
    pub name: String,
}

impl View for DirItem {
    type V = (u64, SerializableFileType, Seq<char>);

    open spec fn view(&self) -> (u64, SerializableFileType, Seq<char>) {
        (self.ino, self.kind, self.name@)
    }
}

/// What a listing holds: each line with its name by its characters.
pub open spec fn items_view(items: Seq<DirItem>) -> Seq<(u64, SerializableFileType, Seq<char>)> {
    Seq::new(items.len(), |i: int| items[i]@)
}

/// The entries that the record of a directory lists: none where the record
/// is no directory's or its content is empty or does not decode.
pub open spec fn listed_entries(v: InodeView) -> Seq<(Seq<char>, u64)> {
    if v.data.len() == 0 || v.attr.kind != SerializableFileType::Directory {
        Seq::empty()
    } else {
        match decode_entry_list(v.data) {
            Some(es) => es,
            None => Seq::empty(),
        }
    }
}

/// What listing the entries `es` does: the record of each is loaded into
/// the projection for its kind; an entry whose block lies beyond the end of
/// the device or holds no record is listed as a regular file.
pub open spec fn list_children(s: StoreState, es: Seq<(Seq<char>, u64)>) -> (
    StoreState,
    Seq<(u64, SerializableFileType, Seq<char>)>,
)
    decreases es.len(),
{
    if es.len() == 0 {
        (s, Seq::empty())
    } else {
        let before = list_children(s, es.drop_last());
        let loaded = get_or_load_model(before.0, es.last().1);
        let kind = match loaded.1 {
            Ok(v) => v.attr.kind,
            Err(_) => SerializableFileType::RegularFile,
        };
        (loaded.0, before.1.push((es.last().1, kind, es.last().0)))
    }
}

/// The two lines that start every listing: the directory itself as `.` and
/// the root as `..`.
pub open spec fn dot_items(ino: u64) -> Seq<(u64, SerializableFileType, Seq<char>)> {
    seq![
        (ino, SerializableFileType::Directory, seq!['.']),
        (ROOT_INO, SerializableFileType::Directory, seq!['.', '.']),
    ]
}

/// What listing the directory `ino` does: its record is loaded, and the
/// listing holds `.`, `..` and the entries that the record lists.
pub open spec fn list_directory_model(s: StoreState, ino: u64) -> (
    StoreState,
    Result<Seq<(u64, SerializableFileType, Seq<char>)>, FsError>,
) {
    let loaded = get_or_load_model(s, ino);
    match loaded.1 {
        Err(e) => (loaded.0, Err(e)),
        Ok(v) => {
            let listed = list_children(loaded.0, listed_entries(v));
            (listed.0, Ok(dot_items(ino) + listed.1))
        },
    }
}

/// What a result holds, with a listing by its view.
pub open spec fn items_result(r: Result<Vec<DirItem>, FsError>) -> Result<
    Seq<(u64, SerializableFileType, Seq<char>)>,
    FsError,
> {
    match r {
        Ok(items) => Ok(items_view(items@)),
        Err(e) => Err(e),
    }
}

/// What opening a store on a device gives: the device must have blocks
/// large enough for the header region, small enough for a vector, and hold
/// a superblock; the store then starts with the stored inode count as its
/// counter and knows no inode.
pub open spec fn new_store_model(disk: Seq<u8>, block_len: nat, limit: nat, reliable: bool) -> Result<
    StoreState,
    FsError,
> {
    if block_len < MIN_BLOCK_SIZE || block_len > MAX_BLOCK_SIZE {
        Err(FsError::Unsupported)
    } else {
        match load_header(disk) {
            Ok(sb) => Ok(
                StoreState {
                    projection: Projection::fresh(sb.inode_count),
                    disk,
                    block_len,
                    limit,
                    reliable,
                },
            ),
            Err(e) => Err(e),
        }
    }
}

/// Content by inode number, each content by its bytes.
pub open spec fn data_view(m: Map<u64, Vec<u8>>) -> Map<u64, Seq<u8>> {
    Map::new(|k: u64| m.contains_key(k), |k: u64| m[k]@)
}

/// Children by parent, each table by its entries.
pub open spec fn children_view(m: Map<u64, NameTable>) -> Map<u64, Seq<(Seq<char>, u64)>> {
    Map::new(|k: u64| m.contains_key(k), |k: u64| m[k]@)
}

/// A write to the block of one inode leaves the header and the blocks of
/// all other inodes as they were, and is read back from its own block.
pub proof fn lemma_inode_write(disk: Seq<u8>, block_len: nat, ino: u64, block: Seq<u8>)
    requires
        block.len() == block_len,
        block_len >= MIN_BLOCK_SIZE,
    ensures
        disk_block(written(disk, inode_offset(ino, block_len), block), block_len, ino) == block,
        forall|other: u64|
            other != ino ==> #[trigger] disk_block(
                written(disk, inode_offset(ino, block_len), block),
                block_len,
                other,
            ) == disk_block(disk, block_len, other),
        span(written(disk, inode_offset(ino, block_len), block), 0, SUPERBLOCK_SIZE as nat)
            == span(disk, 0, SUPERBLOCK_SIZE as nat),
{
    let off = inode_offset(ino, block_len);
    lemma_blocks_apart(0, 1 + ino, block_len);
    lemma_written_same(disk, off, block);
    lemma_written_apart(disk, off, block, 0, SUPERBLOCK_SIZE as nat);
    assert forall|other: u64| other != ino implies #[trigger] disk_block(
        written(disk, off, block),
        block_len,
        other,
    ) == disk_block(disk, block_len, other) by {
        if other < ino {
            lemma_blocks_apart(1 + other, 1 + ino, block_len);
        } else {
            lemma_blocks_apart(1 + ino, 1 + other, block_len);
        }
        lemma_written_apart(disk, off, block, inode_offset(other, block_len), block_len);
    }
}

/// A write of the header region leaves the blocks of all inodes as they
/// were.
pub proof fn lemma_header_write(disk: Seq<u8>, block_len: nat, region: Seq<u8>)
    requires
        region.len() == SUPERBLOCK_SIZE,
        block_len >= MIN_BLOCK_SIZE,
    ensures
        forall|ino: u64| #[trigger]
            disk_block(written(disk, 0, region), block_len, ino) == disk_block(
                disk,
                block_len,
                ino,
            ),
{
    assert forall|ino: u64| #[trigger]
        disk_block(written(disk, 0, region), block_len, ino) == disk_block(
            disk,
            block_len,
            ino,
        ) by {
        lemma_blocks_apart(0, 1 + ino, block_len);
        lemma_written_apart(disk, 0, region, inode_offset(ino, block_len), block_len);
    }
}

/// The store: the device and the projection of its records.
pub struct FsCoreInner<D: BlockDevice> {
    inode_counter: u64,
    inode_attrs: HashMap<u64, SerializableFileAttr>,
    inode_data: HashMap<u64, Vec<u8>>,
    path_to_ino: NameTable,
    block_device: D,
    parent_to_children: HashMap<u64, NameTable>,
}

impl<D: BlockDevice> FsCoreInner<D> {
    /// The projection as it stands.
    pub closed spec fn projection(&self) -> Projection {
        Projection {
            counter: self.inode_counter,
            attrs: self.inode_attrs@,
            data: data_view(self.inode_data@),
            paths: self.path_to_ino@,
            children: children_view(self.parent_to_children@),
        }
    }

    /// The bytes on the device.
    pub closed spec fn disk(&self) -> Seq<u8> {
        self.block_device.contents()
    }

    /// The block size of the device.
    pub closed spec fn block_len(&self) -> nat {
        self.block_device.block_len()
    }

    /// The size beyond which the device does not grow.
    pub closed spec fn limit(&self) -> nat {
        self.block_device.limit()
    }

    /// Whether the device fails only for want of range or space.
    pub closed spec fn reliable(&self) -> bool {
        self.block_device.reliable()
    }

    /// Projection and device together.
    pub open spec fn state(&self) -> StoreState {
        StoreState {
            projection: self.projection(),
            disk: self.disk(),
            block_len: self.block_len(),
            limit: self.limit(),
            reliable: self.reliable(),
        }
    }

    /// What holds of every store that this library hands out: its device is
    /// usable and its blocks are large enough for the header region.
    pub closed spec fn wf(&self) -> bool {
        &&& self.block_device.inv()
        &&& MIN_BLOCK_SIZE <= self.block_device.block_len() <= MAX_BLOCK_SIZE
    }

    /// The state of a store that this library handed out is well-formed.
    pub proof fn lemma_state_wf(&self)
        requires
            self.wf(),
        ensures
            self.state().wf(),
    {
    }

    /// A store on a formatted device. The counter is taken from the
    /// superblock; the projection is empty until the device is scanned. A
    /// device whose blocks are too small for the header region or too large
    /// for a vector is refused.
    pub fn new(block_device: D) -> (r: Result<FsCoreInner<D>, FsError>)
        requires
            block_device.inv(),
        ensures
            r matches Ok(store) ==> store.wf() && store.state() == new_store_model(
                block_device.contents(),
                block_device.block_len(),
                block_device.limit(),
                block_device.reliable(),
            )->Ok_0,
            !block_device.reliable() && r matches Err(FsError::Io(_)) || Self::store_result(r)
                == new_store_model(
                block_device.contents(),
                block_device.block_len(),
                block_device.limit(),
                block_device.reliable(),
            ),
    {
        let mut block_device = block_device;
        let block_size = block_device.block_size();
        if block_size < MIN_BLOCK_SIZE || block_size > MAX_BLOCK_SIZE {
            return Err(FsError::Unsupported);
        }
        let superblock = match Superblock::load(&mut block_device) {
            Ok(superblock) => superblock,
            Err(e) => { return Err(e); },
        };
        let store = FsCoreInner {
            inode_counter: superblock.inode_count,
            inode_attrs: HashMap::new(),
            inode_data: HashMap::new(),
            path_to_ino: NameTable::new(),
            block_device,
            parent_to_children: HashMap::new(),
        };
        assert(store.projection().data =~= Map::<u64, Seq<u8>>::empty());
        assert(store.projection().children =~= Map::<u64, Seq<(Seq<char>, u64)>>::empty());
        Ok(store)
    }

    /// What a result holds, with a store by its state.
    pub open spec fn store_result(r: Result<FsCoreInner<D>, FsError>) -> Result<StoreState, FsError> {
        match r {
            Ok(store) => Ok(store.state()),
            Err(e) => Err(e),
        }
    }

    /// Gives the device back, as when the filesystem is unmounted.
    pub fn into_device(self) -> (device: D)
        requires
            self.wf(),
        ensures
            device.inv(),
            device.contents() == self.disk(),
            device.block_len() == self.block_len(),
            device.limit() == self.limit(),
            device.reliable() == self.reliable(),
    {
        self.block_device
    }

    /// The allocation counter: the highest inode number handed out, as last
    /// read from the superblock or raised by this store.
    pub fn inode_counter(&self) -> (n: u64)
        ensures
            n == self.projection().counter,
    {
        self.inode_counter
    }

    /// The block size of the device.
    pub fn block_size(&self) -> (n: usize)
        requires
            self.wf(),
        ensures
            n == self.block_len(),
    {
        self.block_device.block_size()
    }

    /// The attributes that the projection holds for inode `ino`.
    pub fn cached_attr(&self, ino: u64) -> (r: Option<SerializableFileAttr>)
        ensures
            r == (if self.projection().attrs.contains_key(ino) {
                Some(self.projection().attrs[ino])
            } else {
                None
            }),
    {
        match self.inode_attrs.get(&ino) {
            Some(attr) => Some(*attr),
            None => None,
        }
    }

    /// The content that the projection holds for inode `ino`.
    pub fn cached_data(&self, ino: u64) -> (r: Option<&Vec<u8>>)
        ensures
            match r {
                Some(data) => self.projection().data.contains_key(ino) && self.projection().data[ino]
                    == data@,
                None => !self.projection().data.contains_key(ino),
            },
    {
        self.inode_data.get(&ino)
    }

    /// The inode that the projection holds for the absolute path `path`.
    pub fn cached_ino(&self, path: &str) -> (r: Option<u64>)
        ensures
            r == ino_of(self.projection().paths, path@),
    {
        self.path_to_ino.get(path)
    }

    /// The children that the projection holds for `parent`, in the order in
    /// which their names were first entered.
    pub fn cached_children(&self, parent: u64) -> (r: Vec<DirectoryEntry>)
        ensures
            entries_view(r@) == self.projection().children_of(parent),
    {
        match self.parent_to_children.get(&parent) {
            None => {
                let none: Vec<DirectoryEntry> = Vec::new();
                assert(entries_view(none@) =~= Seq::<(Seq<char>, u64)>::empty());
                none
            },
            Some(table) => {
                let entries = table.entries();
                let mut copy: Vec<DirectoryEntry> = Vec::new();
                let mut i: usize = 0;
                while i < entries.len()
                    invariant
                        i <= entries@.len(),
                        copy@.len() == i,
                        forall|j: int| 0 <= j < i ==> copy@[j]@ == entries@[j]@,
                    decreases entries@.len() - i,
                {
                    copy.push(entries[i].clone());
                    i = i + 1;
                }
                assert(entries_view(copy@) =~= entries_view(entries@));
                copy
            },
        }
    }

    /// Sets the counter to the inode count that the superblock on the device
    /// holds, so that inodes that another holder of the device has created
    /// are not handed out again.
    pub fn load_superblock(&mut self) -> (r: Result<(), FsError>)
        requires
            old(self).wf(),
        ensures
            final(self).wf(),
            final(self).disk() == old(self).disk(),
            final(self).state().same_device(old(self).state()),
            r matches Err(FsError::Io(_)) ==> final(self).state() == old(self).state(),
            cut_short(old(self).state(), r) || (final(self).state(), r) == load_superblock_model(
                old(self).state(),
            ),
    {
        match Superblock::load(&mut self.block_device) {
            Err(e) => Err(e),
            Ok(superblock) => {
                self.inode_counter = superblock.inode_count;
                Ok(())
            },
        }
    }

    /// Writes the counter into the superblock on the device, leaving the
    /// superblock's other fields as they are stored.
    pub fn save_superblock(&mut self) -> (r: Result<(), FsError>)
        requires
            old(self).wf(),
        ensures
            final(self).wf(),
            final(self).projection() == old(self).projection(),
            final(self).state().same_device(old(self).state()),
            cut_short(old(self).state(), r) || (final(self).state(), r) == save_superblock_model(
                old(self).state(),
            ),
    {
        let mut superblock = match Superblock::load(&mut self.block_device) {
            Ok(superblock) => superblock,
            Err(e) => { return Err(e); },
        };
        superblock.inode_count = self.inode_counter;
        match superblock.save(&mut self.block_device) {
            Ok(()) => Ok(()),
            Err(e) => Err(e),
        }
    }

    /// Reads the record of inode `ino` from its block. Nothing is changed.
    pub fn load_inode(&mut self, ino: u64) -> (r: Result<PersistedInode, FsError>)
        requires
            old(self).wf(),
        ensures
            final(self).wf(),
            final(self).state() == old(self).state(),
            cut_short(old(self).state(), r) || record_result(r) == load_inode_model(
                old(self).state(),
                ino,
            ),
            r matches Err(FsError::Io(DeviceError::OutOfRange)) ==> record_result(r)
                == load_inode_model(old(self).state(), ino),
    {
        if ino == u64::MAX {
            return Err(FsError::Io(DeviceError::OutOfRange));
        }
        let block = 1 + ino;
        let block_size = self.block_device.block_size();
        let mut buf = vec![0u8; block_size];
        match self.block_device.read_block(block, &mut buf) {
            Err(e) => Err(FsError::Io(e)),
            Ok(()) => {
                assert(block_offset(block, self.block_len()) == inode_offset(
                    ino,
                    self.block_len(),
                ));
                PersistedInode::decode(buf.as_slice())
            },
        }
    }

    /// Writes `inode` into the block of inode `ino`. The projection is not
    /// touched.
    pub fn save_inode(&mut self, ino: u64, inode: &PersistedInode) -> (r: Result<(), FsError>)
        requires
            old(self).wf(),
        ensures
            final(self).wf(),
            final(self).projection() == old(self).projection(),
            final(self).state().same_device(old(self).state()),
            cut_short(old(self).state(), r) && fits(inode@.layout().len(), old(self).block_len())
                || (final(self).state(), r) == save_inode_model(old(self).state(), ino, inode@),
    {
        let block_size = self.block_device.block_size();
        let padded = match inode.encode(block_size) {
            Ok(padded) => padded,
            Err(e) => { return Err(e); },
        };
        if ino == u64::MAX {
            return Err(FsError::Io(DeviceError::OutOfRange));
        }
        let block = 1 + ino;
        match self.block_device.write_block(block, padded.as_slice()) {
            Err(e) => Err(FsError::Io(e)),
            Ok(()) => {
                assert(block_offset(block, self.block_len()) == inode_offset(
                    ino,
                    self.block_len(),
                ));
                Ok(())
            },
        }
    }

    /// Fills the block of inode `ino` with zeros, so that it holds no
    /// record. The projection is not touched.
    pub fn delete_inode_from_disk(&mut self, ino: u64) -> (r: Result<(), FsError>)
        requires
            old(self).wf(),
        ensures
            final(self).wf(),
            final(self).projection() == old(self).projection(),
            final(self).state().same_device(old(self).state()),
            cut_short(old(self).state(), r) || (final(self).state(), r) == delete_inode_model(
                old(self).state(),
                ino,
            ),
    {
        if ino == u64::MAX {
            return Err(FsError::Io(DeviceError::OutOfRange));
        }
        let block = 1 + ino;
        let block_size = self.block_device.block_size();
        let buf = vec![0u8; block_size];
        assert(buf@ =~= zero_block(block_size as nat));
        assert(block_offset(block, self.block_len()) == inode_offset(ino, self.block_len()));
        match self.block_device.write_block(block, buf.as_slice()) {
            Err(e) => Err(FsError::Io(e)),
            Ok(()) => Ok(()),
        }
    }

    /// Reads the record of inode `ino` from its block and enters its
    /// attributes, content and path into the projection.
    pub fn get_or_load_inode(&mut self, ino: u64) -> (r: Result<PersistedInode, FsError>)
        requires
            old(self).wf(),
        ensures
            final(self).wf(),
            final(self).disk() == old(self).disk(),
            final(self).state().same_device(old(self).state()),
            r matches Err(FsError::Io(_)) ==> final(self).state() == old(self).state(),
            cut_short(old(self).state(), r) || (final(self).state(), record_result(r))
                == get_or_load_model(old(self).state(), ino),
            r matches Err(FsError::Io(DeviceError::OutOfRange)) ==> (
                final(self).state(),
                record_result(r),
            ) == get_or_load_model(old(self).state(), ino),
    {
        let inode = match self.load_inode(ino) {
            Ok(inode) => inode,
            Err(e) => { return Err(e); },
        };
        self.remember(ino, inode.attr, inode.data.clone(), inode.path.as_str());
        Ok(inode)
    }

    /// Enters attributes, content and path of inode `ino` into the
    /// projection.
    fn remember(&mut self, ino: u64, attr: SerializableFileAttr, data: Vec<u8>, path: &str)
        requires
            old(self).wf(),
        ensures
            final(self).wf(),
            final(self).disk() == old(self).disk(),
            final(self).state().same_device(old(self).state()),
            final(self).projection() == old(self).projection().with_inode(ino, attr, data@, path@),
    {
        let ghost before = self.inode_data@;
        self.inode_attrs.insert(ino, attr);
        self.inode_data.insert(ino, data);
        self.path_to_ino.put(path, ino);
        assert(data_view(self.inode_data@) =~= data_view(before).insert(ino, data@));
    }

    /// Makes the root directory: writes its record, with no entries, and
    /// enters it into the projection under the path `/`.
    pub fn insert_root_dir(&mut self, now: Timestamp) -> (r: Result<(), FsError>)
        requires
            old(self).wf(),
        ensures
            final(self).wf(),
            final(self).state().same_device(old(self).state()),
            cut_short(old(self).state(), r) || (final(self).state(), r) == insert_root_dir_model(
                old(self).state(),
                now,
            ),
    {
        let attr = SerializableFileAttr::new_directory(ROOT_INO, 0, 0, now);
        let entries: Vec<DirectoryEntry> = Vec::new();
        let serialized_entries = encode_entries(&entries);
        assert(entries_view(entries@) =~= Seq::<(Seq<char>, u64)>::empty());
        let root_inode = PersistedInode { attr, data: serialized_entries, path: "/".to_owned() };
        proof {
            reveal_strlit("/");
            assert("/"@ =~= root_path());
        }
        match self.save_inode(ROOT_INO, &root_inode) {
            Err(e) => { return Err(e); },
            Ok(()) => {},
        }
        self.remember(ROOT_INO, attr, Vec::new(), "/");
        Ok(())
    }

    /// Rebuilds the projection from the device: reads the blocks of inodes
    /// 1, 2, 3 and so on, enters each record found, and stops at the first
    /// block that holds none or cannot be read. That is how the end of the
    /// inode table is found, so a gap hides every inode behind it. A
    /// directory whose content does not decode is entered without children.
    /// If no root directory was found, one is made.
    pub fn load_from_device(&mut self, now: Timestamp) -> (r: Result<ScanSummary, FsError>)
        requires
            old(self).wf(),
        ensures
            final(self).wf(),
            final(self).state().same_device(old(self).state()),
            r matches Ok(summary) ==> scan_found(old(self).state(), summary) && (
                final(self).state(),
                Ok::<(), FsError>(()),
            ) == load_from_device_model(old(self).state(), now, summary),
            r matches Err(e) ==> cut_short(old(self).state(), r) || exists|summary: ScanSummary|
                scan_found(old(self).state(), summary) && #[trigger] load_from_device_model(
                    old(self).state(),
                    now,
                    summary,
                ) == (final(self).state(), Err::<(), FsError>(e)),
    {
        let ghost start = self.state();
        let mut loaded: u64 = 0;
        let mut unreadable_directories: u64 = 0;
        let mut stopped_by = FsError::Corrupt;
        let mut done = false;
        while !done
            invariant
                self.wf(),
                unreadable_directories == unreadable_among(
                    start.disk,
                    start.block_len,
                    loaded as nat,
                ),
                unreadable_directories <= loaded,
                self.disk() == start.disk,
                self.state().same_device(start),
                loaded < u64::MAX,
                self.projection() == scanned(
                    start.projection,
                    start.disk,
                    start.block_len,
                    loaded as nat,
                ),
                forall|i: u64| 1 <= i <= loaded ==> load_inode_model(start, i) is Ok,
                done ==> stopped_by == FsError::Corrupt || stopped_by is Io,
                done && start.reliable ==> load_inode_model(start, (loaded + 1) as u64) == Err::<
                    InodeView,
                    FsError,
                >(stopped_by),
                done && stopped_by == FsError::Corrupt ==> disk_record(
                    start.disk,
                    start.block_len,
                    (loaded + 1) as u64,
                ) is None,
            decreases u64::MAX - loaded + (if done { 0int } else { 1int }),
        {
            let ino = loaded + 1;
            match self.load_inode(ino) {
                Ok(inode) => {
                    self.remember(ino, inode.attr, inode.data.clone(), inode.path.as_str());
                    if self.inode_counter <= ino {
                        self.inode_counter = ino + 1;
                    }
                    if inode.attr.kind == SerializableFileType::Directory {
                        match decode_entries(inode.data.as_slice()) {
                            Some(entries) => {
                                let table = NameTable::from_entries(&entries);
                                let ghost before = self.parent_to_children@;
                                self.parent_to_children.insert(ino, table);
                                assert(children_view(self.parent_to_children@) =~= children_view(
                                    before,
                                ).insert(ino, table@));
                            },
                            None => {
                                unreadable_directories = unreadable_directories + 1;
                            },
                        }
                    }
                    loaded = ino;
                },
                Err(e) => {
                    stopped_by = e;
                    done = true;
                },
            }
        }
        let root_created = !self.inode_attrs.contains_key(&ROOT_INO);
        let summary = ScanSummary { loaded, stopped_by, root_created, unreadable_directories };
        if root_created {
            match self.insert_root_dir(now) {
                Err(e) => {
                    proof {
                        if start.reliable || !(e is Io) {
                            assert(scan_found(start, summary));
                            assert(load_from_device_model(start, now, summary) == (
                                self.state(),
                                Err::<(), FsError>(e),
                            ));
                        }
                    }
                    return Err(e);
                },
                Ok(()) => {},
            }
        }
        Ok(summary)
    }

    /// Enters `name` among the children of `parent`.
    fn remember_child(&mut self, parent: u64, name: &str, ino: u64)
        requires
            old(self).wf(),
        ensures
            final(self).wf(),
            final(self).disk() == old(self).disk(),
            final(self).state().same_device(old(self).state()),
            final(self).projection() == old(self).projection().with_child(parent, name@, ino),
    {
        let ghost before = self.parent_to_children@;
        let mut table = match self.parent_to_children.remove(&parent) {
            Some(table) => table,
            None => NameTable::new(),
        };
        assert(table@ == old(self).projection().children_of(parent));
        table.put(name, ino);
        self.parent_to_children.insert(parent, table);
        assert(children_view(self.parent_to_children@) =~= children_view(before).insert(
            parent,
            table@,
        ));
    }

    /// Adds a child to a directory; see `add_child_model`.
    fn add_child(
        &mut self,
        parent_ino: u64,
        name: &str,
        template: SerializableFileAttr,
        disk_data: Vec<u8>,
        mem_data: Vec<u8>,
    ) -> (r: Result<u64, FsError>)
        requires
            old(self).wf(),
        ensures
            final(self).wf(),
            final(self).state().same_device(old(self).state()),
            cut_short(old(self).state(), r) || (final(self).state(), r) == add_child_model(
                old(self).state(),
                parent_ino,
                name@,
                template,
                disk_data@,
                mem_data@,
            ),
    {
        if parent_ino != ROOT_INO {
            return Err(FsError::Unsupported);
        }
        let parent_attr = match self.inode_attrs.get(&parent_ino) {
            Some(attr) => *attr,
            None => { return Err(FsError::NotFound); },
        };
        let parent_path = match self.path_to_ino.name_of(parent_ino) {
            Some(path) => path,
            None => { return Err(FsError::NotFound); },
        };
        match self.load_superblock() {
            Err(e) => { return Err(e); },
            Ok(()) => {},
        }
        if self.inode_counter >= u64::MAX - 1 {
            return Err(FsError::Exhausted);
        }
        self.inode_counter = self.inode_counter + 1;
        let ino = self.inode_counter;
        let mut attr = template;
        attr.ino = ino;
        let mut path = "/".to_owned();
        path.append(name);
        proof {
            reveal_strlit("/");
            assert(path@ =~= child_path(name@));
        }
        self.remember(ino, attr, mem_data, path.as_str());
        self.remember_child(parent_ino, name, ino);
        let file_inode = PersistedInode { attr, data: disk_data, path };
        match self.save_inode(ino, &file_inode) {
            Err(e) => { return Err(e); },
            Ok(()) => {},
        }
        let serialized = match self.parent_to_children.get(&parent_ino) {
            Some(children) => encode_entries(children.entries()),
            None => encode_entries(&Vec::new()),
        };
        let parent_inode = PersistedInode { attr: parent_attr, data: serialized, path: parent_path };
        match self.save_inode(parent_ino, &parent_inode) {
            Err(e) => { return Err(e); },
            Ok(()) => {},
        }
        match self.save_superblock() {
            Err(e) => { return Err(e); },
            Ok(()) => {},
        }
        Ok(ino)
    }

    /// Creates a regular file named `name` with content `data` in the root
    /// directory and returns its inode number: one more than the inode count
    /// that the superblock on the device holds.
    pub fn create_file_locked(&mut self, parent_ino: u64, name: &str, data: &[u8], now: Timestamp) -> (r:
        Result<u64, FsError>)
        requires
            old(self).wf(),
        ensures
            final(self).wf(),
            final(self).state().same_device(old(self).state()),
            cut_short(old(self).state(), r) || (final(self).state(), r) == create_file_model(
                old(self).state(),
                parent_ino,
                name@,
                data@,
                now,
            ),
    {
        let template = SerializableFileAttr::new_file(0, data.len() as u64, now);
        self.add_child(parent_ino, name, template, slice_to_vec(data), slice_to_vec(data))
    }

    /// Makes a directory named `name` in the root directory and returns its
    /// attributes.
    pub fn mkdir(&mut self, parent_ino: u64, name: &str, uid: u32, gid: u32, now: Timestamp) -> (r:
        Result<SerializableFileAttr, FsError>)
        requires
            old(self).wf(),
        ensures
            final(self).wf(),
            final(self).state().same_device(old(self).state()),
            cut_short(old(self).state(), r) || (final(self).state(), r) == mkdir_model(
                old(self).state(),
                parent_ino,
                name@,
                uid,
                gid,
                now,
            ),
    {
        let template = SerializableFileAttr::new_directory(0, uid, gid, now);
        let entries: Vec<DirectoryEntry> = Vec::new();
        let serialized_entries = encode_entries(&entries);
        assert(entries_view(entries@) =~= Seq::<(Seq<char>, u64)>::empty());
        match self.add_child(parent_ino, name, template, serialized_entries, Vec::new()) {
            Ok(ino) => Ok(SerializableFileAttr::new_directory(ino, uid, gid, now)),
            Err(e) => Err(e),
        }
    }

    /// Removing an entry is defined but not provided: the call fails and
    /// changes nothing.
    pub fn unlink_locked(&mut self, parent_ino: u64, name: &str) -> (r: Result<(), FsError>)
        ensures
            r == Err::<(), FsError>(FsError::Unsupported),
            *final(self) == *old(self),
    {
        Err(FsError::Unsupported)
    }

    /// Looks up the child `name` of `parent` and returns its attributes.
    /// The superblock is reloaded and every inode up to its count is read
    /// again, so that what another holder of the device has created is
    /// found. Inodes without a record are passed over.
    pub fn lookup(&mut self, parent: u64, name: &str) -> (r: Result<SerializableFileAttr, FsError>)
        requires
            old(self).wf(),
        ensures
            final(self).wf(),
            final(self).disk() == old(self).disk(),
            final(self).state().same_device(old(self).state()),
            cut_short(old(self).state(), r) || (final(self).state(), r) == lookup_model(
                old(self).state(),
                parent,
                name@,
            ),
    {
        match self.load_superblock() {
            Err(e) => { return Err(e); },
            Ok(()) => {},
        }
        let parent_path = match self.path_to_ino.name_of(parent) {
            Some(path) => path,
            None => { return Err(FsError::NotFound); },
        };
        let mut path = if parent == ROOT_INO {
            "/".to_owned()
        } else {
            let mut path = parent_path;
            path.append("/");
            path
        };
        path.append(name);
        proof {
            reveal_strlit("/");
            assert("/"@ =~= root_path());
            assert(Some(path@) == lookup_target(self.projection().paths, parent, name@));
        }
        let upto = self.inode_counter;
        if upto == 0 {
            return Err(FsError::NotFound);
        }
        let ghost goal = lookup_model(old(self).state(), parent, name@);
        assert(goal == lookup_from(self.state(), path@, 1, upto));
        let mut ino: u64 = 1;
        loop
            invariant
                self.wf(),
                goal == lookup_model(old(self).state(), parent, name@),
                self.disk() == old(self).disk(),
                self.state().same_device(old(self).state()),
                1 <= ino <= upto,
                lookup_from(self.state(), path@, ino, upto) == goal,
            decreases upto - ino,
        {
            match self.get_or_load_inode(ino) {
                Ok(inode) => {
                    if inode.path == path {
                        return Ok(inode.attr);
                    }
                },
                Err(FsError::Io(DeviceError::OutOfRange)) => {},
                Err(FsError::Io(e)) => {
                    return Err(FsError::Io(e));
                },
                Err(_) => {},
            }
            if ino == upto {
                return Err(FsError::NotFound);
            }
            ino = ino + 1;
        }
    }

    /// The attributes of inode `ino`, read from the device.
    pub fn get_attributes(&mut self, ino: u64) -> (r: Result<SerializableFileAttr, FsError>)
        requires
            old(self).wf(),
        ensures
            final(self).wf(),
            final(self).disk() == old(self).disk(),
            final(self).state().same_device(old(self).state()),
            cut_short(old(self).state(), r) || (final(self).state(), r) == get_attributes_model(
                old(self).state(),
                ino,
            ),
    {
        match self.get_or_load_inode(ino) {
            Ok(inode) => Ok(inode.attr),
            Err(e) => Err(e),
        }
    }

    /// Up to `size` bytes of the content of inode `ino`, starting at
    /// `offset`. Nothing is changed.
    pub fn read(&mut self, ino: u64, offset: u64, size: u32) -> (r: Result<Vec<u8>, FsError>)
        requires
            old(self).wf(),
        ensures
            final(self).wf(),
            final(self).state() == old(self).state(),
            cut_short(old(self).state(), r) || bytes_result(r) == read_model(
                old(self).state(),
                ino,
                offset,
                size,
            ),
    {
        let inode = match self.load_inode(ino) {
            Ok(inode) => inode,
            Err(e) => { return Err(e); },
        };
        let len = inode.data.len();
        if offset >= len as u64 {
            let nothing: Vec<u8> = Vec::new();
            assert(nothing@ =~= read_range(inode.data@, offset as int, size as int));
            return Ok(nothing);
        }
        let start = offset as usize;
        let end = if size as u64 >= len as u64 - offset {
            len
        } else {
            start + size as usize
        };
        Ok(slice_to_vec(slice_subrange(inode.data.as_slice(), start, end)))
    }

    /// Writes `bytes` into the content of inode `ino` at `offset` and
    /// persists the record. The content grows to take the bytes, a gap is
    /// filled with zeros, and the size attribute follows. Returns the number
    /// of bytes written. The projection is not touched. A write that ends
    /// beyond the size of a block is refused before any memory is taken for
    /// it: its record could not fit.
    pub fn write_range(&mut self, ino: u64, offset: u64, bytes: &[u8]) -> (r: Result<u32, FsError>)
        requires
            old(self).wf(),
        ensures
            final(self).wf(),
            final(self).projection() == old(self).projection(),
            final(self).state().same_device(old(self).state()),
            cut_short(old(self).state(), r) || (final(self).state(), r) == write_range_model(
                old(self).state(),
                ino,
                offset,
                bytes@,
            ),
    {
        let mut inode = match self.load_inode(ino) {
            Ok(inode) => inode,
            Err(e) => { return Err(e); },
        };
        let block_size = self.block_device.block_size();
        proof {
            lemma_layout_len(record_written(inode@, offset, bytes@));
        }
        if offset > block_size as u64 || bytes.len() > block_size - offset as usize {
            return Err(FsError::TooLarge);
        }
        write_at(&mut inode.data, offset as usize, bytes);
        inode.attr.size = inode.data.len() as u64;
        match self.save_inode(ino, &inode) {
            Err(e) => Err(e),
            Ok(()) => Ok(bytes.len() as u32),
        }
    }

    /// Changes attributes of inode `ino` and persists the record. A new
    /// size cuts the content or fills it up with zeros. Returns the new
    /// attributes. The projection is not touched.
    pub fn set_attributes(&mut self, ino: u64, changes: AttrChanges) -> (r: Result<
        SerializableFileAttr,
        FsError,
    >)
        requires
            old(self).wf(),
        ensures
            final(self).wf(),
            final(self).projection() == old(self).projection(),
            final(self).state().same_device(old(self).state()),
            cut_short(old(self).state(), r) || (final(self).state(), r) == set_attributes_model(
                old(self).state(),
                ino,
                changes,
            ),
    {
        let mut inode = match self.load_inode(ino) {
            Ok(inode) => inode,
            Err(e) => { return Err(e); },
        };
        let block_size = self.block_device.block_size();
        proof {
            lemma_layout_len(record_changed(inode@, changes));
        }
        match changes.size {
            Some(new_size) => {
                if new_size > block_size as u64 {
                    return Err(FsError::TooLarge);
                }
                resize_to(&mut inode.data, new_size as usize);
                inode.attr.size = new_size;
            },
            None => {},
        }
        match changes.uid {
            Some(new_uid) => { inode.attr.uid = new_uid; },
            None => {},
        }
        match changes.gid {
            Some(new_gid) => { inode.attr.gid = new_gid; },
            None => {},
        }
        match changes.mtime {
            Some(new_mtime) => { inode.attr.mtime = new_mtime; },
            None => {},
        }
        match changes.atime {
            Some(new_atime) => { inode.attr.atime = new_atime; },
            None => {},
        }
        match changes.ctime {
            Some(new_ctime) => { inode.attr.ctime = new_ctime; },
            None => {},
        }
        match self.save_inode(ino, &inode) {
            Err(e) => Err(e),
            Ok(()) => Ok(inode.attr),
        }
    }

    /// Lists the directory `ino`: `.`, `..`, and the entries stored in its
    /// record, each with the kind that its own record gives, or as a regular
    /// file where it has no record.
    pub fn list_directory(&mut self, ino: u64) -> (r: Result<Vec<DirItem>, FsError>)
        requires
            old(self).wf(),
        ensures
            final(self).wf(),
            final(self).disk() == old(self).disk(),
            final(self).state().same_device(old(self).state()),
            cut_short(old(self).state(), r) || (final(self).state(), items_result(r))
                == list_directory_model(old(self).state(), ino),
    {
        let inode = match self.get_or_load_inode(ino) {
            Ok(inode) => inode,
            Err(e) => { return Err(e); },
        };
        let dir_entries: Vec<DirectoryEntry> = if inode.data.len() == 0 || inode.attr.kind
            != SerializableFileType::Directory {
            Vec::new()
        } else {
            match decode_entries(inode.data.as_slice()) {
                Some(entries) => entries,
                None => Vec::new(),
            }
        };
        let ghost es = entries_view(dir_entries@);
        assert(es =~= listed_entries(inode@));
        let ghost loaded = self.state();
        let mut entries: Vec<DirItem> = Vec::new();
        entries.push(DirItem { ino, kind: SerializableFileType::Directory, name: ".".to_owned() });
        entries.push(
            DirItem { ino: ROOT_INO, kind: SerializableFileType::Directory, name: "..".to_owned() },
        );
        proof {
            reveal_strlit(".");
            reveal_strlit("..");
            assert("."@ =~= seq!['.']);
            assert(".."@ =~= seq!['.', '.']);
            assert(items_view(entries@) =~= dot_items(ino) + list_children(loaded, es.take(0)).1);
        }
        let mut i: usize = 0;
        while i < dir_entries.len()
            invariant
                self.wf(),
                self.disk() == old(self).disk(),
                self.state().same_device(old(self).state()),
                loaded.same_device(old(self).state()),
                i <= dir_entries@.len(),
                es == entries_view(dir_entries@),
                self.state() == list_children(loaded, es.take(i as int)).0,
                items_view(entries@) == dot_items(ino) + list_children(loaded, es.take(i as int)).1,
            decreases dir_entries@.len() - i,
        {
            let child = dir_entries[i].ino;
            let file_type = match self.get_or_load_inode(child) {
                Ok(child_inode) => child_inode.attr.kind,
                Err(FsError::Io(DeviceError::OutOfRange)) => SerializableFileType::RegularFile,
                Err(FsError::Io(e)) => {
                    return Err(FsError::Io(e));
                },
                Err(_) => SerializableFileType::RegularFile,
            };
            let ghost listed = items_view(entries@);
            entries.push(DirItem { ino: child, kind: file_type, name: dir_entries[i].name.clone() });
            proof {
                let next = es.take(i + 1);
                assert(next.drop_last() =~= es.take(i as int));
                assert(next.last() == es[i as int]);
                assert(items_view(entries@) =~= listed.push((child, file_type, es[i as int].0)));
                assert(items_view(entries@) =~= dot_items(ino) + list_children(loaded, next).1);
            }
            i = i + 1;
        }
        assert(es.take(i as int) =~= es);
        Ok(entries)
    }
}

} // verus!
