//! The mutation facade: the one entry point for callers from outside. A
//! mutation takes the lock on its parent from the coordinator, runs on the
//! store, and gives the lock back. Reading goes to the store directly.
//!
//! The facade is owned by one caller at a time; that ownership is the
//! exclusivity guard around the store.

use crate::device::BlockDevice;
use crate::error::{FsError, LockError};
use crate::layout::{SerializableFileAttr, Timestamp};
use crate::metadata::{
    Asked, LocalMetadataCoordinator, LockKey, LockType, MetadataCoordinator, LOCK_TIMEOUT_MS,
};
use crate::store::{
    bytes_result, create_file_model, get_attributes_model, items_result, list_directory_model,
    load_from_device_model, lookup_model, mkdir_model, read_model, scan_found,
    cut_short, new_store_model, set_attributes_model, write_range_model, AttrChanges, DirItem,
    FsCoreInner, ScanSummary, StoreState,
};
use vstd::prelude::*;

verus! {

/// The key that guards mutations under `parent_ino`: the parent's inode
/// number.
pub open spec fn lock_key_of(parent_ino: u64) -> LockKey {
    LockKey(parent_ino)
}

/// Whether `r` and the state `after` are what an operation described by
/// `model` left behind when it started in the state `before`: state and
/// result are the model's, unless an unreliable device cut the operation
/// short.
pub open spec fn ran<T>(before: StoreState, after: StoreState, r: Result<T, FsError>, model: (
    StoreState,
    Result<T, FsError>,
)) -> bool {
    cut_short(before, r) || (after, r) == model
}

/// What a caller gets back from a mutation that ran under a lock: if the
/// lock could not be released, that error, whatever the mutation returned;
/// otherwise what the mutation returned.
pub open spec fn mutation_outcome<T>(mutation: Result<T, FsError>, unlocked: Result<(), LockError>) -> Result<
    T,
    FsError,
> {
    match unlocked {
        Err(e) => Err(FsError::Unlock(e)),
        Ok(()) => mutation,
    }
}

/// Combines the result of a mutation with the result of releasing its lock.
pub fn finish_mutation<T>(mutation: Result<T, FsError>, unlocked: Result<(), LockError>) -> (r:
    Result<T, FsError>)
    ensures
        r == mutation_outcome(mutation, unlocked),
{
    match unlocked {
        Err(e) => Err(FsError::Unlock(e)),
        Ok(()) => mutation,
    }
}

/// What a mutation under the lock on `parent_ino` leaves behind, and what
/// the coordinator was asked.
///
/// The coordinator is first asked for the write lock on the parent, with
/// the timeout for mutations. Where it does not grant the lock, nothing
/// else happens: the state is as before and the result is the lock error.
/// Where it grants the lock, the mutation runs and the coordinator is asked
/// to release the lock. If it does not, the result is the unlock error,
/// though the mutation has run and, if it succeeded, is committed.
/// Otherwise state and result are those of the mutation.
pub open spec fn guarded<T>(
    before: StoreState,
    after: StoreState,
    r: Result<T, FsError>,
    model: (StoreState, Result<T, FsError>),
    asked_before: Seq<Asked>,
    asked_after: Seq<Asked>,
    parent_ino: u64,
) -> bool {
    let key = lock_key_of(parent_ino);
    let granted = asked_before.push(
        Asked::Lock(key, LockType::Write, LOCK_TIMEOUT_MS, Ok::<(), LockError>(())),
    );
    match r {
        Err(FsError::Lock(e)) => {
            &&& after == before
            &&& asked_after == asked_before.push(
                Asked::Lock(key, LockType::Write, LOCK_TIMEOUT_MS, Err::<(), LockError>(e)),
            )
        },
        Err(FsError::Unlock(e)) => {
            &&& asked_after == granted.push(Asked::Unlock(key, Err::<(), LockError>(e)))
            &&& exists|m: Result<T, FsError>| ran(before, after, m, model)
        },
        _ => {
            &&& asked_after == granted.push(Asked::Unlock(key, Ok::<(), LockError>(())))
            &&& ran(before, after, r, model)
        },
    }
}

/// What an exclusive coordinator adds to that: the lock is granted exactly
/// when the key of the parent is free, is then always released again, and
/// leaves the locked keys as they were; a key that is locked makes the
/// mutation time out.
pub open spec fn served<T>(r: Result<T, FsError>, keys_before: Set<u64>, keys_after: Set<u64>, parent_ino: u64) -> bool {
    &&& keys_after == keys_before
    &&& !(r matches Err(FsError::Unlock(_)))
    &&& if keys_before.contains(parent_ino) {
        r == Err::<T, FsError>(FsError::Lock(LockError::Timeout))
    } else {
        !(r matches Err(FsError::Lock(_)))
    }
}

/// The store behind its coordinator.
pub struct FsCore<D: BlockDevice, C: MetadataCoordinator> {
    inner: FsCoreInner<D>,
    coordinator: C,
}

/// What a result holds, with a facade by the state of its store.
pub open spec fn core_result<D: BlockDevice, C: MetadataCoordinator>(r: Result<FsCore<D, C>, FsError>) -> Result<
    StoreState,
    FsError,
> {
    match r {
        Ok(core) => Ok(core.state()),
        Err(e) => Err(e),
    }
}

impl<D: BlockDevice> FsCore<D, LocalMetadataCoordinator> {
    /// A facade on a formatted device, with the local coordinator and no
    /// key held.
    pub fn new(block_device: D) -> (r: Result<FsCore<D, LocalMetadataCoordinator>, FsError>)
        requires
            block_device.inv(),
        ensures
            r matches Ok(core) ==> {
                &&& core.wf()
                &&& core.spec_coordinator().held() == Set::<u64>::empty()
                &&& core.spec_coordinator().asked() == Seq::<Asked>::empty()
            },
            !block_device.reliable() && r matches Err(FsError::Io(_)) || core_result(r)
                == new_store_model(
                block_device.contents(),
                block_device.block_len(),
                block_device.limit(),
                block_device.reliable(),
            ),
    {
        FsCore::with_coordinator(block_device, LocalMetadataCoordinator::new())
    }
}

impl<D: BlockDevice, C: MetadataCoordinator> FsCore<D, C> {
    /// Projection and device of the store.
    pub closed spec fn state(&self) -> StoreState {
        self.inner.state()
    }

    /// The coordinator that guards mutations.
    pub closed spec fn spec_coordinator(&self) -> C {
        self.coordinator
    }

    /// The coordinator that guards mutations.
    pub fn coordinator(&self) -> (c: &C)
        ensures
            *c == self.spec_coordinator(),
    {
        &self.coordinator
    }

    /// What holds of every facade that this library hands out.
    pub closed spec fn wf(&self) -> bool {
        self.inner.wf()
    }

    /// A facade on a formatted device, with the given coordinator.
    pub fn with_coordinator(block_device: D, coordinator: C) -> (r: Result<FsCore<D, C>, FsError>)
        requires
            block_device.inv(),
        ensures
            r matches Ok(core) ==> core.wf() && core.spec_coordinator() == coordinator,
            !block_device.reliable() && r matches Err(FsError::Io(_)) || core_result(r)
                == new_store_model(
                block_device.contents(),
                block_device.block_len(),
                block_device.limit(),
                block_device.reliable(),
            ),
    {
        match FsCoreInner::new(block_device) {
            Ok(inner) => Ok(FsCore { inner, coordinator }),
            Err(e) => Err(e),
        }
    }

    /// Gives the device back, as when the filesystem is unmounted.
    pub fn into_device(self) -> (device: D)
        requires
            self.wf(),
        ensures
            device.inv(),
            device.contents() == self.state().disk,
            device.block_len() == self.state().block_len,
            device.limit() == self.state().limit,
            device.reliable() == self.state().reliable,
    {
        self.inner.into_device()
    }

    /// Rebuilds the projection from the device.
    pub fn load_from_device(&mut self, now: Timestamp) -> (r: Result<ScanSummary, FsError>)
        requires
            old(self).wf(),
        ensures
            final(self).wf(),
            final(self).state().same_device(old(self).state()),
            final(self).spec_coordinator() == old(self).spec_coordinator(),
            r matches Ok(summary) ==> scan_found(old(self).state(), summary) && (
                final(self).state(),
                Ok::<(), FsError>(()),
            ) == load_from_device_model(old(self).state(), now, summary),
            r matches Err(e) ==> cut_short(old(self).state(), r) || exists|summary: ScanSummary|
                scan_found(old(self).state(), summary) && #[trigger] load_from_device_model(
                    old(self).state(),
                    now,
                    summary,
                ) == (final(self).state(), Err::<(), FsError>(e)),
    {
        self.inner.load_from_device(now)
    }

    /// Creates a regular file under the write lock on its parent.
    pub fn create_file(&mut self, parent_ino: u64, name: &str, data: &[u8], now: Timestamp) -> (r:
        Result<u64, FsError>)
        requires
            old(self).wf(),
        ensures
            final(self).wf(),
            final(self).state().same_device(old(self).state()),
            guarded(
                old(self).state(),
                final(self).state(),
                r,
                create_file_model(old(self).state(), parent_ino, name@, data@, now),
                old(self).spec_coordinator().asked(),
                final(self).spec_coordinator().asked(),
                parent_ino,
            ),
            final(self).spec_coordinator().exclusive() == old(self).spec_coordinator().exclusive(),
            old(self).spec_coordinator().exclusive() ==> served(
                r,
                old(self).spec_coordinator().keys(),
                final(self).spec_coordinator().keys(),
                parent_ino,
            ),
    {
        let lock_key = LockKey(parent_ino);
        let ghost keys = self.coordinator.keys();
        match self.coordinator.lock(lock_key, LockType::Write, LOCK_TIMEOUT_MS) {
            Err(e) => { return Err(FsError::Lock(e)); },
            Ok(granted) => {
                assert(granted == ());
            },
        }
        let result = self.inner.create_file_locked(parent_ino, name, data, now);
        assert(ran(
            old(self).state(),
            self.state(),
            result,
            create_file_model(old(self).state(), parent_ino, name@, data@, now),
        ));
        let unlocked = match self.coordinator.unlock(lock_key) {
            Err(e) => Err(e),
            Ok(released) => {
                assert(released == ());
                Ok(())
            },
        };
        assert(self.coordinator.exclusive() ==> self.coordinator.keys() =~= keys);
        finish_mutation(result, unlocked)
    }

    /// Makes a directory under the write lock on its parent.
    pub fn make_directory(
        &mut self,
        parent_ino: u64,
        name: &str,
        uid: u32,
        gid: u32,
        now: Timestamp,
    ) -> (r: Result<SerializableFileAttr, FsError>)
        requires
            old(self).wf(),
        ensures
            final(self).wf(),
            final(self).state().same_device(old(self).state()),
            guarded(
                old(self).state(),
                final(self).state(),
                r,
                mkdir_model(old(self).state(), parent_ino, name@, uid, gid, now),
                old(self).spec_coordinator().asked(),
                final(self).spec_coordinator().asked(),
                parent_ino,
            ),
            final(self).spec_coordinator().exclusive() == old(self).spec_coordinator().exclusive(),
            old(self).spec_coordinator().exclusive() ==> served(
                r,
                old(self).spec_coordinator().keys(),
                final(self).spec_coordinator().keys(),
                parent_ino,
            ),
    {
        let lock_key = LockKey(parent_ino);
        let ghost keys = self.coordinator.keys();
        match self.coordinator.lock(lock_key, LockType::Write, LOCK_TIMEOUT_MS) {
            Err(e) => { return Err(FsError::Lock(e)); },
            Ok(granted) => {
                assert(granted == ());
            },
        }
        let result = self.inner.mkdir(parent_ino, name, uid, gid, now);
        assert(ran(
            old(self).state(),
            self.state(),
            result,
            mkdir_model(old(self).state(), parent_ino, name@, uid, gid, now),
        ));
        let unlocked = match self.coordinator.unlock(lock_key) {
            Err(e) => Err(e),
            Ok(released) => {
                assert(released == ());
                Ok(())
            },
        };
        assert(self.coordinator.exclusive() ==> self.coordinator.keys() =~= keys);
        finish_mutation(result, unlocked)
    }

    /// Removing an entry is not provided: the call fails and changes
    /// nothing.
    pub fn unlink(&mut self, parent_ino: u64, name: &str) -> (r: Result<(), FsError>)
        ensures
            r == Err::<(), FsError>(FsError::Unsupported),
            *final(self) == *old(self),
    {
        self.inner.unlink_locked(parent_ino, name)
    }

    /// Looks up the child `name` of `parent`.
    pub fn lookup(&mut self, parent: u64, name: &str) -> (r: Result<SerializableFileAttr, FsError>)
        requires
            old(self).wf(),
        ensures
            final(self).wf(),
            final(self).spec_coordinator() == old(self).spec_coordinator(),
            ran(old(self).state(), final(self).state(), r, lookup_model(old(self).state(), parent, name@)),
    {
        self.inner.lookup(parent, name)
    }

    /// The attributes of inode `ino`.
    pub fn get_attributes(&mut self, ino: u64) -> (r: Result<SerializableFileAttr, FsError>)
        requires
            old(self).wf(),
        ensures
            final(self).wf(),
            final(self).spec_coordinator() == old(self).spec_coordinator(),
            ran(old(self).state(), final(self).state(), r, get_attributes_model(old(self).state(), ino)),
    {
        self.inner.get_attributes(ino)
    }

    /// Up to `size` bytes of the content of inode `ino`, starting at
    /// `offset`.
    pub fn read(&mut self, ino: u64, offset: u64, size: u32) -> (r: Result<Vec<u8>, FsError>)
        requires
            old(self).wf(),
        ensures
            final(self).wf(),
            final(self).spec_coordinator() == old(self).spec_coordinator(),
            final(self).state() == old(self).state(),
            cut_short(old(self).state(), r) || bytes_result(r) == read_model(
                old(self).state(),
                ino,
                offset,
                size,
            ),
    {
        self.inner.read(ino, offset, size)
    }

    /// Lists the directory `ino`.
    pub fn list_directory(&mut self, ino: u64) -> (r: Result<Vec<DirItem>, FsError>)
        requires
            old(self).wf(),
        ensures
            final(self).wf(),
            final(self).spec_coordinator() == old(self).spec_coordinator(),
            cut_short(old(self).state(), r) || (final(self).state(), items_result(r))
                == list_directory_model(old(self).state(), ino),
    {
        self.inner.list_directory(ino)
    }

    /// Writes `bytes` into the content of inode `ino` at `offset`.
    pub fn write_range(&mut self, ino: u64, offset: u64, bytes: &[u8]) -> (r: Result<u32, FsError>)
        requires
            old(self).wf(),
        ensures
            final(self).wf(),
            final(self).spec_coordinator() == old(self).spec_coordinator(),
            ran(old(self).state(), final(self).state(), r, write_range_model(old(self).state(), ino, offset, bytes@)),
    {
        self.inner.write_range(ino, offset, bytes)
    }

    /// Changes attributes of inode `ino`.
    pub fn set_attributes(&mut self, ino: u64, changes: AttrChanges) -> (r: Result<
        SerializableFileAttr,
        FsError,
    >)
        requires
            old(self).wf(),
        ensures
            final(self).wf(),
            final(self).spec_coordinator() == old(self).spec_coordinator(),
            ran(old(self).state(), final(self).state(), r, set_attributes_model(old(self).state(), ino, changes)),
    {
        self.inner.set_attributes(ino, changes)
    }
}

} // verus!
