//! The ways in which an operation of the filesystem core can fail.

use crate::device::DeviceError;
use vstd::prelude::*;

verus! {

/// Why a lock was not obtained or not released.
#[derive(Clone, Copy, Debug, PartialEq, Eq, Structural)]
pub enum LockError {
    /// The key was still held by another when the deadline passed.
    Timeout,
    /// The key to be released was not held.
    NotHeld,
    /// The lock service answered that it did not grant or release the lock.
    Refused,
    /// The lock service could not be reached or did not answer.
    Transport,
}

/// Why an operation did not succeed.
#[derive(Clone, Copy, Debug, PartialEq, Eq, Structural)]
pub enum FsError {
    /// The device refused a read or a write. The operation in progress is
    /// lost; the device may hold part of what was being written.
    Io(DeviceError),
    /// What was read is no superblock or no inode record: a wrong magic
    /// number, a stored length of zero or beyond the block, garbled bytes.
    /// While the inode table is scanned this also marks its end.
    Corrupt,
    /// A record does not fit into one block. It was not written, not even in
    /// part.
    TooLarge,
    /// No inode with that number or name is known.
    NotFound,
    /// The operation is defined but not provided: a parent other than the
    /// root, or removal of an entry.
    Unsupported,
    /// Every inode number has been handed out.
    Exhausted,
    /// The lock that guards the mutation was not obtained. The mutation did
    /// not run and nothing was changed; the call may be tried again.
    Lock(LockError),
    /// The lock could not be released after the mutation had run. If the
    /// mutation succeeded it stays committed; only the state of the
    /// coordinator is in doubt.
    Unlock(LockError),
}

} // verus!
