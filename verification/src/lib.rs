//! Core of a user-space passthrough filesystem: the refcounted inode store
//! (indexed by guest id, by host identity tuple, and by file handle), the
//! handle table, open-flag sanitation, and the live-migration machinery that
//! serializes this state into a portable byte stream and rebuilds it on a
//! destination instance.
//!
//! Host I/O (syscalls, descriptors, directory walks) is performed by the
//! embedding program; this crate holds the decision logic and state, on plain
//! values, with verified contracts.

pub mod codec;
pub mod config;
pub mod error;
pub mod file_handle;
pub mod flags;
pub mod fs;
pub mod handles;
pub mod idmap;
pub mod migration;
pub mod restore;
pub mod serialize;
pub mod store;
pub mod wire;

pub use error::FsError;
pub use error::other_io_error;
