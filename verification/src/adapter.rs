//! The requests of a filesystem adapter, answered from the facade. Each
//! request is answered with a value or with the error number that the
//! adapter hands to the operating system.

use crate::device::BlockDevice;
use crate::error::FsError;
use crate::facade::{guarded, FsCore};
use crate::layout::{SerializableFileAttr, SerializableFileType, Timestamp};
use crate::layout::InodeView;
use crate::metadata::{Asked, MetadataCoordinator};
use crate::store::{
    create_file_model, get_attributes_model, items_view, list_directory_model,
    load_from_device_model, load_inode_model, lookup_model, mkdir_model, read_model, scan_found,
    set_attributes_model, write_range_model, AttrChanges, ScanSummary, StoreState,
};
use vstd::prelude::*;

verus! {

/// The owner and the group that the adapter gives to a new directory.
pub const DEFAULT_OWNER: u32 = 1000;

/// The error numbers that the adapter answers with.
#[derive(Clone, Copy, Debug, PartialEq, Eq, Structural)]
pub enum Errno {
    /// No such entry.
    NoEntry,
    /// Input or output failed.
    Io,
}

impl Errno {
    /// The number of the error on the operating system.
    pub fn code(self) -> (c: i32)
        ensures
            c == (match self {
                Errno::NoEntry => 2i32,
                Errno::Io => 5i32,
            }),
    {
        match self {
            Errno::NoEntry => 2,
            Errno::Io => 5,
        }
    }
}

/// Whether `r` answers a request that `model` describes, where every
/// failure is answered with `errno`: an answer with a value is the model's,
/// with the state it leaves; on a reliable device the request fails exactly
/// when the model does, and leaves the model's state.
pub open spec fn answers<T>(
    before: StoreState,
    after: StoreState,
    r: Result<T, Errno>,
    model: (StoreState, Result<T, FsError>),
    errno: Errno,
) -> bool {
    match r {
        Ok(v) => (after, Ok::<T, FsError>(v)) == model,
        Err(e) => e == errno && (before.reliable ==> model.1 is Err && after == model.0),
    }
}

/// The answer that hands on a value and replaces every failure by `errno`.
pub open spec fn answer_of<T>(r: Result<T, FsError>, errno: Errno) -> Result<T, Errno> {
    match r {
        Ok(v) => Ok(v),
        Err(_) => Err(errno),
    }
}

/// Whether `r` answers a request to change the record of an inode, where
/// `loaded` is what loading the record gives and `model` describes the
/// change. An answer with a value is the model's, with the state it leaves.
/// The answer is no entry, and nothing has changed, where the record cannot
/// be loaded; it is a failure of input or output where the change itself
/// fails. On a reliable device those are the only failures, and the state
/// left is always the model's.
pub open spec fn answers_change<T>(
    before: StoreState,
    after: StoreState,
    r: Result<T, Errno>,
    model: (StoreState, Result<T, FsError>),
    loaded: Result<InodeView, FsError>,
) -> bool {
    match r {
        Ok(v) => (after, Ok::<T, FsError>(v)) == model,
        Err(e) => {
            &&& e == Errno::NoEntry ==> after == before
            &&& loaded is Err ==> e == Errno::NoEntry
            &&& before.reliable ==> {
                &&& after == model.0
                &&& model.1 is Err
                &&& e == Errno::NoEntry <==> loaded is Err
            }
        },
    }
}

/// What making the directory `name` under `parent` answers where the lock
/// is granted and released and the device is reliable.
pub open spec fn mkdir_answer(s: StoreState, parent: u64, name: Seq<char>, now: Timestamp) -> (
    StoreState,
    Result<SerializableFileAttr, Errno>,
) {
    let made = mkdir_model(s, parent, name, DEFAULT_OWNER, DEFAULT_OWNER, now);
    (made.0, answer_of(made.1, Errno::Io))
}

/// What creating the empty file `name` under `parent` answers where the
/// lock is granted and released and the device is reliable: the file is
/// created, and its attributes are read back from the device.
pub open spec fn create_answer(s: StoreState, parent: u64, name: Seq<char>, now: Timestamp) -> (
    StoreState,
    Result<SerializableFileAttr, Errno>,
) {
    let created = create_file_model(s, parent, name, Seq::empty(), now);
    match created.1 {
        Err(_) => (created.0, Err(Errno::Io)),
        Ok(ino) => {
            let read_back = get_attributes_model(created.0, ino);
            (read_back.0, answer_of(read_back.1, Errno::NoEntry))
        },
    }
}

/// Whether `r` answers the creation of a file under `parent`, where
/// `created` is what creating the file under the lock gave and `between` the
/// state it left: where the file was not created that is the end, and the
/// answer is a failure of input or output; where it was, its attributes are
/// read back and are the answer.
pub open spec fn created_and_read(
    before: StoreState,
    between: StoreState,
    after: StoreState,
    created: Result<u64, FsError>,
    r: Result<SerializableFileAttr, Errno>,
    model: (StoreState, Result<u64, FsError>),
    asked_before: Seq<Asked>,
    asked_after: Seq<Asked>,
    parent: u64,
) -> bool {
    &&& guarded(before, between, created, model, asked_before, asked_after, parent)
    &&& match created {
        Err(_) => r == Err::<SerializableFileAttr, Errno>(Errno::Io) && after == between,
        Ok(ino) => answers(between, after, r, get_attributes_model(between, ino), Errno::NoEntry),
    }
}

/// Whether a mutation under the lock on `parent` was answered as an
/// exclusive coordinator and a reliable device demand: the locked keys are
/// as before; where the key of the parent is locked the answer is a failure
/// of input or output and nothing has changed; where it is free, state and
/// answer are `expected`.
pub open spec fn answers_exactly<T>(
    before: StoreState,
    after: StoreState,
    r: Result<T, Errno>,
    expected: (StoreState, Result<T, Errno>),
    keys_before: Set<u64>,
    keys_after: Set<u64>,
    parent: u64,
) -> bool {
    &&& keys_after == keys_before
    &&& if keys_before.contains(parent) {
        r == Err::<T, Errno>(Errno::Io) && after == before
    } else {
        before.reliable ==> (after, r) == expected
    }
}

/// One line of a directory listing as the adapter hands it on: the inode,
/// the offset at which a later listing goes on, the kind and the name.
#[derive(Debug)]
pub struct ListedEntry {
    pub ino: u64,
    pub next_offset: i64,
    pub kind: SerializableFileType,
    pub name: String,
}

impl View for ListedEntry {
    type V = (u64, i64, SerializableFileType, Seq<char>);

    open spec fn view(&self) -> (u64, i64, SerializableFileType, Seq<char>) {
        (self.ino, self.next_offset, self.kind, self.name@)
    }
}

/// How listed entries appear: each with its name by its characters.
pub open spec fn listed_view(es: Seq<ListedEntry>) -> Seq<(u64, i64, SerializableFileType, Seq<char>)> {
    Seq::new(es.len(), |i: int| es[i]@)
}

/// The lines of `items` from `offset` on, each with the offset of the line
/// after it.
pub open spec fn listing_from(items: Seq<(u64, SerializableFileType, Seq<char>)>, offset: int) -> Seq<
    (u64, i64, SerializableFileType, Seq<char>),
> {
    if 0 <= offset < items.len() {
        Seq::new(
            (items.len() - offset) as nat,
            |i: int|
                (
                    items[offset + i].0,
                    (offset + i + 1) as i64,
                    items[offset + i].1,
                    items[offset + i].2,
                ),
        )
    } else {
        Seq::empty()
    }
}

/// The adapter's side of the filesystem.
pub struct AwsomeFs<D: BlockDevice, C: MetadataCoordinator> {
    core: FsCore<D, C>,
}

impl<D: BlockDevice, C: MetadataCoordinator> AwsomeFs<D, C> {
    /// Projection and device of the store.
    pub closed spec fn state(&self) -> StoreState {
        self.core.state()
    }

    /// What the coordinator has been asked so far.
    pub closed spec fn asked(&self) -> Seq<Asked> {
        self.core.spec_coordinator().asked()
    }

    /// The keys that the coordinator holds locked, as far as it knows.
    pub closed spec fn keys(&self) -> Set<u64> {
        self.core.spec_coordinator().keys()
    }

    /// Whether nobody but this adapter locks and unlocks at its
    /// coordinator.
    pub closed spec fn exclusive(&self) -> bool {
        self.core.spec_coordinator().exclusive()
    }

    /// What holds of every adapter that this library hands out.
    pub closed spec fn wf(&self) -> bool {
        self.core.wf()
    }

    /// An adapter on `core`. The device is scanned at once, so that the
    /// first request finds the projection filled.
    pub fn new(core: FsCore<D, C>, now: Timestamp) -> (r: Result<
        (AwsomeFs<D, C>, ScanSummary),
        FsError,
    >)
        requires
            core.wf(),
        ensures
            r matches Ok(made) ==> {
                &&& made.0.wf()
                &&& made.0.asked() == core.spec_coordinator().asked()
                &&& made.0.keys() == core.spec_coordinator().keys()
                &&& made.0.exclusive() == core.spec_coordinator().exclusive()
                &&& scan_found(core.state(), made.1)
                &&& (made.0.state(), Ok::<(), FsError>(())) == load_from_device_model(
                    core.state(),
                    now,
                    made.1,
                )
            },
            r matches Err(e) ==> !core.state().reliable && e is Io || exists|summary: ScanSummary|
                scan_found(core.state(), summary) && (#[trigger] load_from_device_model(
                    core.state(),
                    now,
                    summary,
                )).1 == Err::<(), FsError>(e),
    {
        let mut core = core;
        match core.load_from_device(now) {
            Err(e) => Err(e),
            Ok(summary) => Ok((AwsomeFs { core }, summary)),
        }
    }

    /// Gives the facade back.
    pub fn into_core(self) -> (core: FsCore<D, C>)
        requires
            self.wf(),
        ensures
            core.wf(),
            core.state() == self.state(),
            core.spec_coordinator().asked() == self.asked(),
            core.spec_coordinator().keys() == self.keys(),
            core.spec_coordinator().exclusive() == self.exclusive(),
    {
        self.core
    }

    /// The attributes of the child `name` of `parent`; no entry where the
    /// lookup fails for any reason.
    pub fn lookup(&mut self, parent: u64, name: &str) -> (r: Result<SerializableFileAttr, Errno>)
        requires
            old(self).wf(),
        ensures
            final(self).wf(),
            final(self).asked() == old(self).asked(),
            final(self).keys() == old(self).keys(),
            final(self).exclusive() == old(self).exclusive(),
            answers(
                old(self).state(),
                final(self).state(),
                r,
                lookup_model(old(self).state(), parent, name@),
                Errno::NoEntry,
            ),
    {
        match self.core.lookup(parent, name) {
            Ok(attr) => Ok(attr),
            Err(_) => Err(Errno::NoEntry),
        }
    }

    /// The attributes of inode `ino`; no entry where they cannot be had.
    pub fn getattr(&mut self, ino: u64) -> (r: Result<SerializableFileAttr, Errno>)
        requires
            old(self).wf(),
        ensures
            final(self).wf(),
            final(self).asked() == old(self).asked(),
            final(self).keys() == old(self).keys(),
            final(self).exclusive() == old(self).exclusive(),
            answers(
                old(self).state(),
                final(self).state(),
                r,
                get_attributes_model(old(self).state(), ino),
                Errno::NoEntry,
            ),
    {
        match self.core.get_attributes(ino) {
            Ok(attr) => Ok(attr),
            Err(_) => Err(Errno::NoEntry),
        }
    }

    /// Makes the directory `name` under `parent`, owned by the default
    /// owner, under the write lock on `parent`; a failure of input or output
    /// where that fails for any reason.
    pub fn mkdir(&mut self, parent: u64, name: &str, now: Timestamp) -> (r: Result<
        SerializableFileAttr,
        Errno,
    >)
        requires
            old(self).wf(),
        ensures
            final(self).wf(),
            exists|made: Result<SerializableFileAttr, FsError>|
                r == answer_of(made, Errno::Io) && #[trigger] guarded(
                    old(self).state(),
                    final(self).state(),
                    made,
                    mkdir_model(old(self).state(), parent, name@, DEFAULT_OWNER, DEFAULT_OWNER, now),
                    old(self).asked(),
                    final(self).asked(),
                    parent,
                ),
            final(self).exclusive() == old(self).exclusive(),
            old(self).exclusive() ==> answers_exactly(
                old(self).state(),
                final(self).state(),
                r,
                mkdir_answer(old(self).state(), parent, name@, now),
                old(self).keys(),
                final(self).keys(),
                parent,
            ),
    {
        let made = self.core.make_directory(parent, name, DEFAULT_OWNER, DEFAULT_OWNER, now);
        let r = match made {
            Ok(attr) => Ok(attr),
            Err(_) => Err(Errno::Io),
        };
        assert(r == answer_of(made, Errno::Io) && guarded(
            old(self).state(),
            self.state(),
            made,
            mkdir_model(old(self).state(), parent, name@, DEFAULT_OWNER, DEFAULT_OWNER, now),
            old(self).asked(),
            self.asked(),
            parent,
        ));
        r
    }

    /// Up to `size` bytes of inode `ino` from `offset`; no entry where the
    /// inode cannot be read.
    pub fn read(&mut self, ino: u64, offset: u64, size: u32) -> (r: Result<Vec<u8>, Errno>)
        requires
            old(self).wf(),
        ensures
            final(self).wf(),
            final(self).state() == old(self).state(),
            final(self).asked() == old(self).asked(),
            final(self).keys() == old(self).keys(),
            final(self).exclusive() == old(self).exclusive(),
            r matches Err(e) ==> e == Errno::NoEntry,
            r matches Ok(bytes) ==> Ok::<Seq<u8>, FsError>(bytes@) == read_model(
                old(self).state(),
                ino,
                offset,
                size,
            ),
            old(self).state().reliable ==> (r is Ok <==> read_model(
                old(self).state(),
                ino,
                offset,
                size,
            ) is Ok),
    {
        match self.core.read(ino, offset, size) {
            Ok(bytes) => Ok(bytes),
            Err(_) => Err(Errno::NoEntry),
        }
    }

    /// The listing of directory `ino` from line `offset` on; no entry where
    /// the directory cannot be read.
    pub fn readdir(&mut self, ino: u64, offset: i64) -> (r: Result<Vec<ListedEntry>, Errno>)
        requires
            old(self).wf(),
        ensures
            final(self).wf(),
            r matches Err(e) ==> e == Errno::NoEntry,
            r matches Ok(lines) ==> {
                let listed = list_directory_model(old(self).state(), ino);
                &&& final(self).state() == listed.0
                &&& listed.1 matches Ok(items)
                &&& items.len() <= i64::MAX ==> listed_view(lines@) == listing_from(
                    items,
                    offset as int,
                )
            },
            final(self).asked() == old(self).asked(),
            final(self).keys() == old(self).keys(),
            final(self).exclusive() == old(self).exclusive(),
            old(self).state().reliable ==> {
                &&& final(self).state() == list_directory_model(old(self).state(), ino).0
                &&& r is Ok <==> list_directory_model(old(self).state(), ino).1 is Ok
            },
    {
        let items = match self.core.list_directory(ino) {
            Ok(items) => items,
            Err(_) => { return Err(Errno::NoEntry); },
        };
        let ghost all = items_view(items@);
        let mut lines: Vec<ListedEntry> = Vec::new();
        if offset < 0 || items.len() as u64 > i64::MAX as u64 || offset as u64 >= items.len() as u64 {
            assert(all.len() <= i64::MAX ==> listed_view(lines@) =~= listing_from(all, offset as int));
            return Ok(lines);
        }
        let start = offset as usize;
        let mut i: usize = start;
        while i < items.len()
            invariant
                start <= i <= items@.len(),
                items@.len() <= i64::MAX,
                all == items_view(items@),
                lines@.len() == i - start,
                forall|j: int|
                    0 <= j < i - start ==> (#[trigger] lines@[j])@ == (
                        all[start + j].0,
                        (start + j + 1) as i64,
                        all[start + j].1,
                        all[start + j].2,
                    ),
            decreases items@.len() - i,
        {
            lines.push(
                ListedEntry {
                    ino: items[i].ino,
                    next_offset: (i + 1) as i64,
                    kind: items[i].kind,
                    name: items[i].name.clone(),
                },
            );
            i = i + 1;
        }
        assert(listed_view(lines@) =~= listing_from(all, offset as int));
        Ok(lines)
    }

    /// Removing an entry is not provided: the answer is always no entry.
    pub fn unlink(&mut self, parent: u64, name: &str) -> (r: Result<(), Errno>)
        ensures
            r == Err::<(), Errno>(Errno::NoEntry),
            *final(self) == *old(self),
    {
        match self.core.unlink(parent, name) {
            Ok(()) => Ok(()),
            Err(_) => Err(Errno::NoEntry),
        }
    }

    /// Opens inode `ino`: succeeds where its record can be read.
    pub fn open(&mut self, ino: u64) -> (r: Result<(), Errno>)
        requires
            old(self).wf(),
        ensures
            final(self).wf(),
            final(self).state() == old(self).state(),
            final(self).asked() == old(self).asked(),
            final(self).keys() == old(self).keys(),
            final(self).exclusive() == old(self).exclusive(),
            r matches Err(e) ==> e == Errno::NoEntry,
            r is Ok ==> load_inode_model(old(self).state(), ino) is Ok,
            old(self).state().reliable && load_inode_model(old(self).state(), ino) is Ok ==> r
                is Ok,
    {
        match self.core.read(ino, 0, 0) {
            Ok(_) => Ok(()),
            Err(_) => Err(Errno::NoEntry),
        }
    }

    /// Writes `data` into inode `ino` at `offset` and answers with the
    /// number of bytes written: no entry where the record of the inode
    /// cannot be read, a failure of input or output where the change cannot
    /// be made.
    pub fn write(&mut self, ino: u64, offset: u64, data: &[u8]) -> (r: Result<u32, Errno>)
        requires
            old(self).wf(),
        ensures
            final(self).wf(),
            final(self).asked() == old(self).asked(),
            final(self).keys() == old(self).keys(),
            final(self).exclusive() == old(self).exclusive(),
            answers_change(
                old(self).state(),
                final(self).state(),
                r,
                write_range_model(old(self).state(), ino, offset, data@),
                load_inode_model(old(self).state(), ino),
            ),
    {
        match self.core.read(ino, 0, 0) {
            Ok(_) => {},
            Err(_) => { return Err(Errno::NoEntry); },
        }
        match self.core.write_range(ino, offset, data) {
            Ok(n) => Ok(n),
            Err(_) => Err(Errno::Io),
        }
    }

    /// Creates the empty file `name` under `parent`, under the write lock
    /// on `parent`, and answers with its attributes as they stand on the
    /// device: a failure of input or output where the file cannot be
    /// created, no entry where its record cannot be read back.
    pub fn create(&mut self, parent: u64, name: &str, now: Timestamp) -> (r: Result<
        SerializableFileAttr,
        Errno,
    >)
        requires
            old(self).wf(),
        ensures
            final(self).wf(),
            exists|created: Result<u64, FsError>, between: StoreState|
                created_and_read(
                    old(self).state(),
                    between,
                    final(self).state(),
                    created,
                    r,
                    create_file_model(old(self).state(), parent, name@, Seq::empty(), now),
                    old(self).asked(),
                    final(self).asked(),
                    parent,
                ),
            final(self).exclusive() == old(self).exclusive(),
            old(self).exclusive() ==> answers_exactly(
                old(self).state(),
                final(self).state(),
                r,
                create_answer(old(self).state(), parent, name@, now),
                old(self).keys(),
                final(self).keys(),
                parent,
            ),
    {
        let nothing: Vec<u8> = Vec::new();
        assert(nothing@ =~= Seq::<u8>::empty());
        let created = self.core.create_file(parent, name, nothing.as_slice(), now);
        let ghost between = self.state();
        let ghost model = create_file_model(old(self).state(), parent, name@, Seq::empty(), now);
        let r = match created {
            Err(_) => Err(Errno::Io),
            Ok(ino) => match self.core.get_attributes(ino) {
                Ok(attr) => Ok(attr),
                Err(_) => Err(Errno::NoEntry),
            },
        };
        assert(created_and_read(
            old(self).state(),
            between,
            self.state(),
            created,
            r,
            model,
            old(self).asked(),
            self.asked(),
            parent,
        ));
        r
    }

    /// Changes attributes of inode `ino` and answers with the new ones: no
    /// entry where the record of the inode cannot be read, a failure of
    /// input or output where the change cannot be made.
    pub fn setattr(&mut self, ino: u64, changes: AttrChanges) -> (r: Result<
        SerializableFileAttr,
        Errno,
    >)
        requires
            old(self).wf(),
        ensures
            final(self).wf(),
            final(self).asked() == old(self).asked(),
            final(self).keys() == old(self).keys(),
            final(self).exclusive() == old(self).exclusive(),
            answers_change(
                old(self).state(),
                final(self).state(),
                r,
                set_attributes_model(old(self).state(), ino, changes),
                load_inode_model(old(self).state(), ino),
            ),
    {
        match self.core.read(ino, 0, 0) {
            Ok(_) => {},
            Err(_) => { return Err(Errno::NoEntry); },
        }
        match self.core.set_attributes(ino, changes) {
            Ok(attr) => Ok(attr),
            Err(_) => Err(Errno::Io),
        }
    }
}

} // verus!
