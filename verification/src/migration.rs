//! Per-inode and per-handle migration info: how an object can be re-found
//! or re-opened on another host.
//!
//! An inode's location is either the root (the shared directory itself,
//! which the destination finds from its own configuration) or a `(parent,
//! filename)` pair.  A location that names a parent owns one unit of the
//! parent's refcount; the inode store releases it when the info is dropped.

use vstd::prelude::*;

use crate::file_handle::SerializableFileHandle;
use crate::flags;

verus! {

/// Where an inode can be found, as prepared before serialization.
#[derive(Clone, Debug)]
pub enum InodeLocation {
    /// The root node; the destination locates it on its own.
    RootNode,
    /// A filename relative to a parent inode.  The parent id is backed by
    /// one unit of the parent's refcount, held by this info.
    Path {
        /// Id of the parent inode.
        parent: u64,
        /// Name of this inode within the parent directory.
        filename: Vec<u8>,
    },
}

/// Mathematical value of an `InodeLocation`.
pub ghost enum LocationModel {
    RootNode,
    Path { parent: u64, filename: Seq<u8> },
}

impl View for InodeLocation {
    type V = LocationModel;

    open spec fn view(&self) -> LocationModel {
        match self {
            InodeLocation::RootNode => LocationModel::RootNode,
            InodeLocation::Path { parent, filename } => LocationModel::Path {
                parent: *parent,
                filename: filename@,
            },
        }
    }
}

/// Migration info attached to a live inode: its location, plus (when the
/// stream is configured to carry them) the inode's file handle, which the
/// destination compares against the inode it opens.
#[derive(Clone, Debug)]
pub struct InodeMigrationInfo {
    /// Where the destination can find the inode.
    pub location: InodeLocation,
    /// Reference file handle for the destination to verify, if configured.
    pub file_handle: Option<SerializableFileHandle>,
}

/// Mathematical value of an `InodeMigrationInfo`.
pub ghost struct MigrationInfoModel {
    pub location: LocationModel,
    pub file_handle: Option<(u64, i32, Seq<u8>)>,
}

impl View for InodeMigrationInfo {
    type V = MigrationInfoModel;

    open spec fn view(&self) -> MigrationInfoModel {
        MigrationInfoModel {
            location: self.location@,
            file_handle: match &self.file_handle {
                Some(h) => Some((h.mnt_id, h.handle_type, h.handle@)),
                None => None,
            },
        }
    }
}

impl InodeMigrationInfo {
    /// Migration info for an inode found at `filename` under `parent`.
    ///
    /// The caller must already hold the refcount unit on `parent` that this
    /// info will own.  When the stream is configured to verify handles
    /// (`verify_handles`), a reference file handle is required; its absence
    /// is an error, as the destination could not check the inode.
    pub fn new(
        verify_handles: bool,
        parent: u64,
        filename: Vec<u8>,
        file_handle: Option<SerializableFileHandle>,
    ) -> (r: Result<InodeMigrationInfo, crate::error::FsError>)
        ensures
            verify_handles && file_handle is None ==> r is Err && r->Err_0.kind
                == crate::error::ErrorKind::Other,
            verify_handles && file_handle is Some ==> r is Ok && r->Ok_0@
                == (MigrationInfoModel {
                location: LocationModel::Path { parent, filename: filename@ },
                file_handle: Some(((file_handle->0).mnt_id, (file_handle->0).handle_type, (
                file_handle->0).handle@)),
            }),
            !verify_handles ==> r is Ok && r->Ok_0@ == (MigrationInfoModel {
                location: LocationModel::Path { parent, filename: filename@ },
                file_handle: None,
            }),
    {
        let fh = if verify_handles {
            match file_handle {
                None => {
                    return Err(crate::error::FsError::new(crate::error::ErrorKind::Other));
                },
                Some(h) => Some(h),
            }
        } else {
            None
        };
        Ok(InodeMigrationInfo { location: InodeLocation::Path { parent, filename }, file_handle: fh })
    }

    /// Migration info for the root node.  The destination gets no location:
    /// it opens its own configured shared directory.
    pub fn new_root(verify_handles: bool, file_handle: Option<SerializableFileHandle>) -> (r:
        Result<InodeMigrationInfo, crate::error::FsError>)
        ensures
            verify_handles && file_handle is None ==> r is Err && r->Err_0.kind
                == crate::error::ErrorKind::Other,
            verify_handles && file_handle is Some ==> r is Ok && r->Ok_0@
                == (MigrationInfoModel {
                location: LocationModel::RootNode,
                file_handle: Some(((file_handle->0).mnt_id, (file_handle->0).handle_type, (
                file_handle->0).handle@)),
            }),
            !verify_handles ==> r is Ok && r->Ok_0@ == (MigrationInfoModel {
                location: LocationModel::RootNode,
                file_handle: None,
            }),
    {
        let fh = if verify_handles {
            match file_handle {
                None => {
                    return Err(crate::error::FsError::new(crate::error::ErrorKind::Other));
                },
                Some(h) => Some(h),
            }
        } else {
            None
        };
        Ok(InodeMigrationInfo { location: InodeLocation::RootNode, file_handle: fh })
    }

    /// The parent inode referenced by this info, if its location is a
    /// `(parent, filename)` pair.
    pub open spec fn parent_ref(&self) -> Option<u64> {
        match self.location {
            InodeLocation::Path { parent, .. } => Some(parent),
            InodeLocation::RootNode => None,
        }
    }
}

/// How an open handle is re-derived from its inode on the destination.
#[derive(Clone, Copy, Debug, PartialEq, Eq, Structural)]
pub enum HandleMigrationInfo {
    /// Re-open the handle's inode with the recorded `open(2)`-style flags.
    OpenInode {
        /// Flags for the re-open; never contain `O_CREAT | O_EXCL |
        /// O_TRUNC`.
        flags: u32,
    },
}

impl HandleMigrationInfo {
    /// Record how to re-open a handle that the guest opened with `flags`:
    /// creation and truncation flags are stripped, so that the re-open on
    /// the destination neither creates nor truncates the file.
    pub fn new(flags: u32) -> (r: HandleMigrationInfo)
        ensures
            r == (HandleMigrationInfo::OpenInode {
                flags: flags & !(flags::O_CREAT | flags::O_EXCL | flags::O_TRUNC),
            }),
            r->flags & flags::O_CREAT == 0,
            r->flags & flags::O_EXCL == 0,
            r->flags & flags::O_TRUNC == 0,
            r->flags & flags::O_ACCMODE == flags & flags::O_ACCMODE,
    {
        HandleMigrationInfo::OpenInode { flags: flags::strip_handle_reopen_flags(flags) }
    }
}

} // verus!
