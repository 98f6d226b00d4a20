//! A small on-disk filesystem core: a superblock and one fixed-size record
//! per inode on a block device, an in-memory projection of those records,
//! and the coordinator that arbitrates mutation.
//!
//! - `device`: the block device, and a device in memory.
//! - `codec`: the byte layout of what is stored.
//! - `superblock`, `layout`: the superblock and the inode record.
//! - `names`: the table from names to inode numbers.
//! - `store`: the inode store and its operations.
//! - `consistency`: what holds between the operations of the store.
//! - `metadata`: lock keys, the local coordinator and the lock service.
//! - `facade`: mutation under a lock.
//! - `adapter`: the requests of a filesystem adapter.
//! - `fs`: formatting and inspecting a device.
//! - `volume`: the volumes of a device.
//!
//! Every function is verified against a contract stated over the bytes of
//! the device and the views of the library's own types.

pub mod adapter;
pub mod codec;
pub mod consistency;
pub mod device;
pub mod error;
pub mod facade;
pub mod fs;
pub mod layout;
pub mod metadata;
pub mod names;
pub mod store;
pub mod superblock;
pub mod volume;

pub use crate::adapter::AwsomeFs;
pub use crate::device::BlockDevice;
pub use crate::error::FsError;
pub use crate::facade::FsCore;
pub use crate::layout::{DirectoryEntry, PersistedInode, SerializableFileAttr, SerializableFileType};
pub use crate::metadata::{LocalMetadataCoordinator, LockKey, LockType, MetadataCoordinator};
pub use crate::store::{FsCoreInner, ROOT_INO};
pub use crate::superblock::Superblock;
pub use crate::volume::{MetadataStore, Volume};
