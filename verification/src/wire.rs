//! The records that constitute the migration stream: a versioned sum type
//! holding every looked-up inode, every open handle, the two id counters,
//! and the options negotiated with the guest.

use vstd::prelude::*;

use crate::file_handle::SerializableFileHandle;

verus! {

/// Options negotiated during `init` that the destination must re-apply.
#[derive(Clone, Copy, Debug, PartialEq, Eq, Structural)]
pub struct NegotiatedOpts {
    pub writeback: bool,
    pub announce_submounts: bool,
    pub posix_acl: bool,
    pub sup_group_extension: bool,
}

/// Where the destination can find a serialized inode.
#[derive(Clone, Debug)]
pub enum SerializedLocation {
    /// The root node; the destination opens its own configured shared
    /// directory.
    RootNode,
    /// A filename under a parent inode of the same stream.
    Path {
        /// Id of the parent inode.
        parent: u64,
        /// Filename relative to the parent.
        filename: Vec<u8>,
    },
    /// The source lost this inode; the destination decides (per its
    /// migration-on-error policy) whether to abort or to keep an invalid
    /// placeholder.
    Invalid,
    /// A path relative to the shared directory root.
    FullPath {
        /// Filename relative to the root.
        filename: Vec<u8>,
    },
}

/// Mathematical value of a `SerializedLocation`.
pub ghost enum SerLocModel {
    RootNode,
    Path { parent: u64, filename: Seq<u8> },
    Invalid,
    FullPath { filename: Seq<u8> },
}

impl View for SerializedLocation {
    type V = SerLocModel;

    open spec fn view(&self) -> SerLocModel {
        match self {
            SerializedLocation::RootNode => SerLocModel::RootNode,
            SerializedLocation::Path { parent, filename } => SerLocModel::Path {
                parent: *parent,
                filename: filename@,
            },
            SerializedLocation::Invalid => SerLocModel::Invalid,
            SerializedLocation::FullPath { filename } => SerLocModel::FullPath {
                filename: filename@,
            },
        }
    }
}

/// A serialized inode.
#[derive(Clone, Debug)]
pub struct SerializedInode {
    /// Guest-visible inode id.
    pub id: u64,
    /// Refcount at serialization time; adopted by the destination.
    pub refcount: u64,
    /// How the destination finds the inode.
    pub location: SerializedLocation,
    /// Reference file handle, for the destination to compare (never to
    /// open), if the stream was configured to carry them.
    pub file_handle: Option<SerializableFileHandle>,
}

/// Mathematical value of a `SerializedInode`.
pub ghost struct SerInodeModel {
    pub id: u64,
    pub refcount: u64,
    pub location: SerLocModel,
    pub file_handle: Option<(u64, i32, Seq<u8>)>,
}

impl View for SerializedInode {
    type V = SerInodeModel;

    open spec fn view(&self) -> SerInodeModel {
        SerInodeModel {
            id: self.id,
            refcount: self.refcount,
            location: self.location@,
            file_handle: match &self.file_handle {
                Some(h) => Some((h.mnt_id, h.handle_type, h.handle@)),
                None => None,
            },
        }
    }
}

/// A serialized open handle: its id, the inode it refers to, and the
/// `open(2)`-style flags with which the destination re-opens that inode.
#[derive(Clone, Copy, Debug, PartialEq, Eq, Structural)]
pub struct SerializedHandle {
    pub id: u64,
    pub inode: u64,
    pub flags: u32,
}

/// The whole serialized state, current version.
#[derive(Clone, Debug)]
pub struct SerializedFsV1 {
    /// Every looked-up inode.
    pub inodes: Vec<SerializedInode>,
    /// Next free inode id.
    pub next_inode: u64,
    /// Every open handle.
    pub handles: Vec<SerializedHandle>,
    /// Next free handle id.
    pub next_handle: u64,
    /// Options negotiated with the guest.
    pub negotiated_opts: NegotiatedOpts,
}

/// Mathematical value of a `SerializedFsV1`.
pub ghost struct SerFsModel {
    pub inodes: Seq<SerInodeModel>,
    pub next_inode: u64,
    pub handles: Seq<SerializedHandle>,
    pub next_handle: u64,
    pub negotiated_opts: NegotiatedOpts,
}

impl View for SerializedFsV1 {
    type V = SerFsModel;

    open spec fn view(&self) -> SerFsModel {
        SerFsModel {
            inodes: self.inodes@.map_values(|n: SerializedInode| n@),
            next_inode: self.next_inode,
            handles: self.handles@,
            next_handle: self.next_handle,
            negotiated_opts: self.negotiated_opts,
        }
    }
}

/// The versioned sum type at the root of the stream.  New incompatible
/// layouts become new variants, so older streams stay readable.
#[derive(Clone, Debug)]
pub enum SerializedFs {
    /// Initial version.
    V1(SerializedFsV1),
}

impl View for SerializedFs {
    type V = SerFsModel;

    open spec fn view(&self) -> SerFsModel {
        match self {
            SerializedFs::V1(v1) => v1@,
        }
    }
}

} // verus!
