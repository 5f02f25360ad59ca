//! The filesystem surface: the server's state (inode store, handle table,
//! negotiated options, id counters) and the decision logic of each guest
//! operation.  Host syscalls are performed by the embedding program, which
//! hands their results in as plain values.

use vstd::prelude::*;

use crate::config::{Config, InodeFileHandlesMode};
use crate::error::{ErrorKind, FsError};
use crate::flags;
use crate::handles::{contains_handle, HandleData, HandleDataFile, HandleTable};
use crate::migration::HandleMigrationInfo;
use crate::store::{
    bump_rc, contains_id, entry_of, forget_spec, forget_many_spec, InodeStore, ROOT_ID,
};

verus! {

/// Protocol option bits negotiated at `init` (the kernel FUSE INIT flags,
/// with the second flag word folded into the high half).
pub const OPT_DONT_MASK: u64 = 0x40;
pub const OPT_DO_READDIRPLUS: u64 = 0x2000;
pub const OPT_READDIRPLUS_AUTO: u64 = 0x4000;
pub const OPT_WRITEBACK_CACHE: u64 = 0x10000;
pub const OPT_POSIX_ACL: u64 = 0x100000;
pub const OPT_SUBMOUNTS: u64 = 0x8000000;
pub const OPT_HANDLE_KILLPRIV_V2: u64 = 0x10000000;
pub const OPT_SETXATTR_EXT: u64 = 0x20000000;
pub const OPT_SECURITY_CTX: u64 = 0x100000000;
pub const OPT_CREATE_SUPP_GROUP: u64 = 0x400000000;
pub const OPT_DIRECT_IO_ALLOW_MMAP: u64 = 0x1000000000;

/// The option bits POSIX ACL support requires together.
pub const OPT_ACL_REQUIRED: u64 = 0x20100040;

/// Attribute flag announcing a submount to the guest.
pub const ATTR_SUBMOUNT: u32 = 1;

/// The errno returned when the client cannot support a required feature.
pub const EPROTO: i32 = 71;

/// A passthrough filesystem instance.
#[derive(Debug)]
pub struct PassthroughFs {
    /// The refcounted inode store.
    pub inodes: InodeStore,
    /// Next free inode id (monotonic).
    pub next_inode: u64,
    /// The table of open handles.
    pub handles: HandleTable,
    /// Next free handle id (monotonic).
    pub next_handle: u64,
    /// Whether writeback caching was negotiated.
    pub writeback: bool,
    /// Whether submounts are announced.
    pub announce_submounts: bool,
    /// Whether POSIX ACLs were negotiated.
    pub posix_acl: bool,
    /// Whether the guest supports the supplementary-group extension.
    pub sup_group_extension: bool,
    /// Whether newly created inodes must get migration info immediately
    /// (set while migration is being prepared, so inodes created after the
    /// walker passed their parent are still covered).
    pub track_migration_info: bool,
    /// The configuration.
    pub cfg: Config,
}

impl PassthroughFs {
    /// Well-formedness: both tables are well-formed.
    pub open spec fn inv(&self) -> bool {
        &&& self.inodes.inv()
        &&& self.handles.inv()
    }

    /// A fresh, unmounted instance.
    pub fn new(cfg: Config) -> (r: PassthroughFs)
        ensures
            r.inv(),
            r.inodes@ == Seq::<crate::store::InodeModel>::empty(),
            r.handles@ == Seq::<crate::handles::HandleModel>::empty(),
            r.next_inode == ROOT_ID + 1,
            r.next_handle == 0,
            !r.writeback && !r.announce_submounts && !r.posix_acl && !r.sup_group_extension,
            !r.track_migration_info,
            r.cfg == cfg,
    {
        PassthroughFs {
            inodes: InodeStore::new(),
            next_inode: ROOT_ID + 1,
            handles: HandleTable::new(),
            next_handle: 0,
            writeback: false,
            announce_submounts: false,
            posix_acl: false,
            sup_group_extension: false,
            track_migration_info: false,
            cfg,
        }
    }

    /// Observable equality of two instance states: same tables, counters,
    /// negotiated options, tracking flag and configuration.
    pub open spec fn same_state(a: &PassthroughFs, b: &PassthroughFs) -> bool {
        &&& a.inodes@ == b.inodes@
        &&& a.handles@ == b.handles@
        &&& a.next_inode == b.next_inode
        &&& a.next_handle == b.next_handle
        &&& a.writeback == b.writeback
        &&& a.announce_submounts == b.announce_submounts
        &&& a.posix_acl == b.posix_acl
        &&& a.sup_group_extension == b.sup_group_extension
        &&& a.track_migration_info == b.track_migration_info
        &&& a.cfg == b.cfg
    }

    /// The negotiated options, the tracking flag and the configuration are
    /// untouched (the frame of operations that only move table entries).
    pub open spec fn same_options(a: &PassthroughFs, b: &PassthroughFs) -> bool {
        &&& b.writeback == a.writeback
        &&& b.announce_submounts == a.announce_submounts
        &&& b.posix_acl == a.posix_acl
        &&& b.sup_group_extension == a.sup_group_extension
        &&& b.track_migration_info == a.track_migration_info
        &&& b.cfg == a.cfg
    }

    /// What a destroyed instance looks like, relative to its prior state:
    /// both tables empty, all negotiated options reset, everything else
    /// untouched.
    pub open spec fn destroyed_from(pre: &PassthroughFs, post: &PassthroughFs) -> bool {
        &&& post.inodes@ == Seq::<crate::store::InodeModel>::empty()
        &&& post.handles@ == Seq::<crate::handles::HandleModel>::empty()
        &&& !post.writeback && !post.announce_submounts && !post.posix_acl
            && !post.sup_group_extension
        &&& post.next_inode == pre.next_inode
        &&& post.next_handle == pre.next_handle
        &&& post.track_migration_info == pre.track_migration_info
        &&& post.cfg == pre.cfg
    }

    /// Tear the filesystem down: close every handle, drop every inode, and
    /// reset every negotiated option.  No descriptor stays referenced by
    /// the state (the embedding program keeps only its pinned process-wide
    /// ones).
    pub fn destroy(&mut self)
        ensures
            final(self).inv(),
            PassthroughFs::destroyed_from(old(self), final(self)),
    {
        self.handles.clear();
        self.inodes.clear();
        self.writeback = false;
        self.announce_submounts = false;
        self.posix_acl = false;
        self.sup_group_extension = false;
    }

    /// The option bits echoed to the guest by a successful `init`.
    pub open spec fn init_opts_spec(cfg: Config, capable: u64) -> u64 {
        let o1: u64 = if cfg.readdirplus {
            OPT_DO_READDIRPLUS | OPT_READDIRPLUS_AUTO
        } else {
            0
        };
        let o2: u64 = if cfg.writeback && capable & OPT_WRITEBACK_CACHE != 0 {
            o1 | OPT_WRITEBACK_CACHE
        } else {
            o1
        };
        let o3: u64 = if cfg.killpriv_v2 && capable & OPT_HANDLE_KILLPRIV_V2 != 0 {
            o2 | OPT_HANDLE_KILLPRIV_V2
        } else {
            o2
        };
        let o4: u64 = if cfg.posix_acl {
            o3 | OPT_ACL_REQUIRED
        } else {
            o3
        };
        let o5: u64 = if cfg.security_label {
            o4 | OPT_SECURITY_CTX
        } else {
            o4
        };
        if cfg.allow_mmap {
            o5 | OPT_DIRECT_IO_ALLOW_MMAP
        } else {
            o5
        }
    }

    /// Negotiate protocol options against the guest's capabilities
    /// (`capable`), wiping any prior state first (a re-`init` without a
    /// preceding `destroy` is tolerated).  Succeeds with the echoed option
    /// bits, or fails with `EPROTO` when the configuration demands POSIX
    /// ACLs or security labels and the guest cannot provide them.  The
    /// embedding program mounts the root (`open_root_node`) afterwards.
    pub fn init(&mut self, capable: u64) -> (r: Result<u64, FsError>)
        requires
            old(self).inv(),
        ensures
            final(self).inv(),
            final(self).inodes@ == Seq::<crate::store::InodeModel>::empty(),
            final(self).handles@ == Seq::<crate::handles::HandleModel>::empty(),
            final(self).cfg == old(self).cfg,
            final(self).next_inode == old(self).next_inode,
            final(self).next_handle == old(self).next_handle,
            final(self).writeback == (old(self).cfg.writeback && capable & OPT_WRITEBACK_CACHE
                != 0),
            final(self).announce_submounts == (old(self).cfg.announce_submounts && capable
                & OPT_SUBMOUNTS != 0),
            r is Err <==> ((old(self).cfg.posix_acl && capable & OPT_ACL_REQUIRED
                != OPT_ACL_REQUIRED) || (old(self).cfg.security_label && capable
                & OPT_SECURITY_CTX == 0)),
            r is Err ==> r->Err_0.kind == ErrorKind::Os(EPROTO),
            r is Ok ==> r->Ok_0 == PassthroughFs::init_opts_spec(old(self).cfg, capable)
                && final(self).posix_acl == old(self).cfg.posix_acl
                && final(self).sup_group_extension == (capable & OPT_CREATE_SUPP_GROUP != 0),
            r is Err ==> !final(self).sup_group_extension,
    {
        self.destroy();
        let cfg_readdirplus = self.cfg.readdirplus;
        let mut opts: u64 = if cfg_readdirplus {
            OPT_DO_READDIRPLUS | OPT_READDIRPLUS_AUTO
        } else {
            0
        };
        if self.cfg.writeback && capable & OPT_WRITEBACK_CACHE != 0 {
            opts = opts | OPT_WRITEBACK_CACHE;
            self.writeback = true;
        }
        if self.cfg.announce_submounts && capable & OPT_SUBMOUNTS != 0 {
            self.announce_submounts = true;
        }
        if self.cfg.killpriv_v2 && capable & OPT_HANDLE_KILLPRIV_V2 != 0 {
            opts = opts | OPT_HANDLE_KILLPRIV_V2;
        }
        if self.cfg.posix_acl {
            if capable & OPT_ACL_REQUIRED == OPT_ACL_REQUIRED {
                opts = opts | OPT_ACL_REQUIRED;
                self.posix_acl = true;
            } else {
                return Err(FsError::new(ErrorKind::Os(EPROTO)));
            }
        }
        if self.cfg.security_label {
            if capable & OPT_SECURITY_CTX != 0 {
                opts = opts | OPT_SECURITY_CTX;
            } else {
                return Err(FsError::new(ErrorKind::Os(EPROTO)));
            }
        }
        if self.cfg.allow_mmap {
            opts = opts | OPT_DIRECT_IO_ALLOW_MMAP;
        }
        if capable & OPT_CREATE_SUPP_GROUP != 0 {
            self.sup_group_extension = true;
        }
        Ok(opts)
    }

    /// The flags the embedding program must give the host when opening an
    /// inode for the guest: the guest's flags, sanitized against the
    /// negotiated and configured state.
    pub fn host_open_flags(&self, guest_flags: u32) -> (r: u32)
        ensures
            r == flags::sanitized_flags_spec(
                guest_flags,
                self.writeback,
                self.cfg.clean_noatime,
                self.cfg.allow_direct_io,
            ),
            r & flags::O_APPEND == 0,
            self.writeback ==> r & flags::O_ACCMODE != flags::O_WRONLY,
    {
        flags::sanitize_open_flags(
            guest_flags,
            self.writeback,
            self.cfg.clean_noatime,
            self.cfg.allow_direct_io,
        )
    }

    /// The FUSE open-option bits for an `open`/`opendir` reply, per the
    /// configured cache policy.
    pub fn open_options(&self, guest_flags: u32) -> (r: u32)
        ensures
            r == ({
                let dir = guest_flags & flags::O_DIRECTORY != 0;
                match self.cfg.cache_policy {
                    crate::config::CachePolicy::Never => if dir {
                        0u32
                    } else {
                        flags::FOPEN_DIRECT_IO
                    },
                    crate::config::CachePolicy::Metadata => if dir {
                        flags::FOPEN_CACHE_DIR | flags::FOPEN_KEEP_CACHE
                    } else {
                        flags::FOPEN_DIRECT_IO
                    },
                    crate::config::CachePolicy::Always => if dir {
                        flags::FOPEN_KEEP_CACHE | flags::FOPEN_CACHE_DIR
                    } else {
                        flags::FOPEN_KEEP_CACHE
                    },
                    crate::config::CachePolicy::Auto => 0u32,
                }
            }),
    {
        let dir = guest_flags & flags::O_DIRECTORY != 0;
        match self.cfg.cache_policy {
            crate::config::CachePolicy::Never => if dir {
                0
            } else {
                flags::FOPEN_DIRECT_IO
            },
            crate::config::CachePolicy::Metadata => if dir {
                flags::FOPEN_CACHE_DIR | flags::FOPEN_KEEP_CACHE
            } else {
                flags::FOPEN_DIRECT_IO
            },
            crate::config::CachePolicy::Always => if dir {
                flags::FOPEN_KEEP_CACHE | flags::FOPEN_CACHE_DIR
            } else {
                flags::FOPEN_KEEP_CACHE
            },
            crate::config::CachePolicy::Auto => 0,
        }
    }

    /// The FUSE open-option bits for a `create` reply.
    pub fn create_options(&self) -> (r: u32)
        ensures
            r == (match self.cfg.cache_policy {
                crate::config::CachePolicy::Never => flags::FOPEN_DIRECT_IO,
                crate::config::CachePolicy::Metadata => flags::FOPEN_DIRECT_IO,
                crate::config::CachePolicy::Always => flags::FOPEN_KEEP_CACHE,
                crate::config::CachePolicy::Auto => 0u32,
            }),
    {
        match self.cfg.cache_policy {
            crate::config::CachePolicy::Never => flags::FOPEN_DIRECT_IO,
            crate::config::CachePolicy::Metadata => flags::FOPEN_DIRECT_IO,
            crate::config::CachePolicy::Always => flags::FOPEN_KEEP_CACHE,
            crate::config::CachePolicy::Auto => 0,
        }
    }

    /// What backs `inode`, for an operation that needs its file.  An
    /// unknown inode is `NotFound`; an invalid inode (left by a failed
    /// migration) yields its stored error, whatever the operation.
    pub fn get_file(&self, inode: u64) -> (r: Result<&crate::store::FileOrHandle, FsError>)
        requires
            self.inv(),
        ensures
            !contains_id(self.inodes@, inode) ==> r is Err && r->Err_0.kind
                == ErrorKind::NotFound,
            contains_id(self.inodes@, inode) ==> match entry_of(self.inodes@, inode).backing {
                crate::store::BackingModel::Invalid { kind } => r is Err && r->Err_0.kind
                    == kind,
                _ => r is Ok && r->Ok_0@ == entry_of(self.inodes@, inode).backing,
            },
    {
        match self.inodes.get(inode) {
            None => Err(FsError::new(ErrorKind::NotFound)),
            Some(e) => match &e.file_or_handle {
                crate::store::FileOrHandle::Invalid(err) => Err(err.clone_kind()),
                other => Ok(other),
            },
        }
    }

    /// The descriptor behind handle `handle` of `inode`, for an operation
    /// on an open file.  A missing or mismatched handle is `NotFound`; an
    /// invalid handle (left by a failed migration) yields its stored
    /// error.
    pub fn handle_fd(&self, inode: u64, handle: u64) -> (r: Result<i32, FsError>)
        requires
            self.inv(),
        ensures
            ({
                let hs = self.handles@;
                if contains_handle(hs, handle) && crate::handles::handle_of(hs, handle).inode
                    == inode {
                    match crate::handles::handle_of(hs, handle).file {
                        crate::handles::HandleFileModel::Fd { fd } => r is Ok && r->Ok_0 == fd,
                        crate::handles::HandleFileModel::Invalid { kind } => r is Err
                            && r->Err_0.kind == kind,
                    }
                } else {
                    r is Err && r->Err_0.kind == ErrorKind::NotFound
                }
            }),
    {
        match self.handles.find_if_inode_matches(handle, inode) {
            None => Err(FsError::new(ErrorKind::NotFound)),
            Some(d) => match &d.file {
                HandleDataFile::File(fd) => Ok(*fd),
                HandleDataFile::Invalid(err) => Err(err.clone_kind()),
            },
        }
    }

    /// Record a host file opened on behalf of the guest: takes a counted
    /// reference on the inode, stores the descriptor under a fresh handle
    /// id, and records the guest's flags (with creation and truncation
    /// bits stripped) as the handle's migration info.
    pub fn register_handle(&mut self, inode: u64, fd: i32, guest_flags: u32) -> (r: Result<
        u64, FsError>)
        requires
            old(self).inv(),
        ensures
            final(self).inv(),
            PassthroughFs::same_options(old(self), final(self)),
            final(self).next_inode == old(self).next_inode,
            !contains_id(old(self).inodes@, inode) ==> r is Err && r->Err_0.kind
                == ErrorKind::NotFound && final(self).inodes@ == old(self).inodes@
                && final(self).handles@ == old(self).handles@ && final(self).next_handle == old(
                self).next_handle,
            contains_id(old(self).inodes@, inode) && (entry_of(old(self).inodes@, inode).refcount
                == u64::MAX || old(self).next_handle == u64::MAX || contains_handle(
                old(self).handles@,
                old(self).next_handle,
            )) ==> r is Err && final(self).inodes@ == old(self).inodes@ && final(self).handles@
                == old(self).handles@ && final(self).next_handle == old(self).next_handle,
            contains_id(old(self).inodes@, inode) && entry_of(old(self).inodes@, inode).refcount
                < u64::MAX && old(self).next_handle < u64::MAX && !contains_handle(
                old(self).handles@,
                old(self).next_handle,
            ) ==> r == Ok::<u64, FsError>(old(self).next_handle) && final(self).inodes@
                == bump_rc(old(self).inodes@, inode) && final(self).next_handle == old(
            self).next_handle + 1 && final(self).handles@ == old(self).handles@.push(
                crate::handles::HandleModel {
                    id: old(self).next_handle,
                    inode,
                    file: crate::handles::HandleFileModel::Fd { fd },
                    flags: guest_flags & !(flags::O_CREAT | flags::O_EXCL | flags::O_TRUNC),
                },
            ),
    {
        let present = match self.inodes.get(inode) {
            Some(_) => true,
            None => false,
        };
        if !present {
            return Err(FsError::new(ErrorKind::NotFound));
        }
        if self.next_handle == u64::MAX {
            return Err(FsError::new(ErrorKind::Other));
        }
        let id = self.next_handle;
        if contains_handle_probe(&self.handles, id) {
            return Err(FsError::new(ErrorKind::Other));
        }
        match self.inodes.get_strong(inode) {
            Err(e) => Err(e),
            Ok(_) => {
                let data = HandleData {
                    inode,
                    file: HandleDataFile::File(fd),
                    migration_info: HandleMigrationInfo::new(guest_flags),
                };
                self.handles.insert(id, data);
                self.next_handle = id + 1;
                Ok(id)
            },
        }
    }

    /// Close handle `handle` of `inode`: remove it from the table and
    /// release the counted reference it held on the inode.  A missing or
    /// mismatched pair is `NotFound` and changes nothing.
    pub fn do_release(&mut self, inode: u64, handle: u64) -> (r: Result<(), FsError>)
        requires
            old(self).inv(),
        ensures
            final(self).inv(),
            PassthroughFs::same_options(old(self), final(self)),
            final(self).next_inode == old(self).next_inode,
            final(self).next_handle == old(self).next_handle,
            ({
                let hs = old(self).handles@;
                if contains_handle(hs, handle) && crate::handles::handle_of(hs, handle).inode
                    == inode {
                    r is Ok && final(self).handles@ == hs.remove(
                        crate::handles::handle_idx_of(hs, handle),
                    ) && final(self).inodes@ == forget_spec(old(self).inodes@, inode, 1)
                } else {
                    r is Err && r->Err_0.kind == ErrorKind::NotFound && final(self).handles@
                        == hs && final(self).inodes@ == old(self).inodes@
                }
            }),
    {
        match self.handles.remove_if_inode_matches(handle, inode) {
            Err(e) => Err(e),
            Ok(_) => {
                self.inodes.forget_one(inode, 1);
                Ok(())
            },
        }
    }

    /// Forget `count` guest references on `inode` (the balance of earlier
    /// lookups), removing the inode at zero.
    pub fn forget(&mut self, inode: u64, count: u64)
        requires
            old(self).inv(),
        ensures
            final(self).inv(),
            final(self).inodes@ == forget_spec(old(self).inodes@, inode, count),
            final(self).handles@ == old(self).handles@,
            PassthroughFs::same_options(old(self), final(self)),
            final(self).next_inode == old(self).next_inode,
            final(self).next_handle == old(self).next_handle,
    {
        self.inodes.forget_one(inode, count);
    }

    /// Forget a batch of `(inode, count)` pairs, in order.
    pub fn batch_forget(&mut self, pairs: &Vec<(u64, u64)>)
        requires
            old(self).inv(),
        ensures
            final(self).inv(),
            final(self).inodes@ == forget_many_spec(old(self).inodes@, pairs@),
            final(self).handles@ == old(self).handles@,
            PassthroughFs::same_options(old(self), final(self)),
            final(self).next_inode == old(self).next_inode,
            final(self).next_handle == old(self).next_handle,
    {
        self.inodes.forget_many(pairs);
    }
}

/// What the embedding program learned from the host about one path: the
/// `O_PATH` descriptor it opened, the stat identity and mode, the file
/// handle (when handles are configured), and its serializable form (when
/// the migration stream is configured to carry reference handles).
#[derive(Debug)]
pub struct LookupHost {
    /// The `O_PATH` descriptor opened on the path.
    pub fd: i32,
    /// Host identity from `statx`.
    pub ids: crate::store::InodeIds,
    /// File type and mode bits from `statx`.
    pub mode: u32,
    /// The file handle, if one was generated.
    pub handle: Option<crate::file_handle::OpenableFileHandle>,
    /// Its serializable form, when migration info must carry one.
    pub serializable_handle: Option<crate::file_handle::SerializableFileHandle>,
}

/// What a `lookup` returns to the guest: the inode id (ownership of one
/// refcount unit transfers to the guest, to be balanced by `forget`) and
/// the attribute flags.
#[derive(Clone, Copy, Debug, PartialEq, Eq, Structural)]
pub struct EntryOut {
    /// The looked-up inode, with one refcount unit owned by the guest.
    pub inode: u64,
    /// Attribute flags (`ATTR_SUBMOUNT` when a submount is announced).
    pub attr_flags: u32,
}

/// The file-handle key under which a path is claimed: handles are ignored
/// entirely when the configuration never uses them.
pub open spec fn eff_key(
    mode: InodeFileHandlesMode,
    h: Option<crate::file_handle::OpenableFileHandle>,
) -> Option<(u64, i32, Seq<u8>)> {
    if mode == InodeFileHandlesMode::Never {
        None
    } else {
        match h {
            Some(x) => Some(x.handle.key()),
            None => None,
        }
    }
}

/// What backs a newly inserted inode: the file handle when one is used,
/// else the `O_PATH` descriptor.
pub open spec fn lookup_backing(
    mode: InodeFileHandlesMode,
    h: Option<crate::file_handle::OpenableFileHandle>,
    fd: i32,
) -> crate::store::BackingModel {
    if mode != InodeFileHandlesMode::Never && h is Some {
        crate::store::BackingModel::Handle { key: (h->0).handle.key(), mount_fd: (h->0).mount_fd }
    } else {
        crate::store::BackingModel::Fd { fd }
    }
}

/// The attribute flags of a lookup: the submount bit when the child is a
/// directory on another device or mount and submounts are announced.
pub open spec fn submount_attr(
    announce: bool,
    mode: u32,
    ids: crate::store::InodeIds,
    parent_ids: crate::store::InodeIds,
) -> u32 {
    if mode & flags::S_IFMT == flags::S_IFDIR && announce && (ids.dev != parent_ids.dev
        || ids.mnt_id != parent_ids.mnt_id) {
        ATTR_SUBMOUNT
    } else {
        0
    }
}

/// The migration info a tracked lookup attaches to a new inode.
pub open spec fn lookup_mig_model(
    verify: bool,
    parent: u64,
    name: Seq<u8>,
    sfh: Option<(u64, i32, Seq<u8>)>,
) -> crate::migration::MigrationInfoModel {
    crate::migration::MigrationInfoModel {
        location: crate::migration::LocationModel::Path { parent, filename: name },
        file_handle: if verify {
            sfh
        } else {
            None
        },
    }
}

/// The migration info the root inode is created with: the permanent root
/// location, plus the reference handle when the stream is configured to
/// verify handles (without one, the info cannot be built and stays empty).
pub open spec fn root_mig_model(
    verify: bool,
    sfh: Option<crate::file_handle::SerializableFileHandle>,
) -> Option<crate::migration::MigrationInfoModel> {
    if verify && sfh is None {
        None
    } else {
        Some(
            crate::migration::MigrationInfoModel {
                location: crate::migration::LocationModel::RootNode,
                file_handle: if verify {
                    crate::codec::opt_fh_view(sfh)
                } else {
                    None
                },
            },
        )
    }
}

/// The root entry installed by mounting or by a migration restore: backing,
/// identity and mode from the opened root, the given refcount, and the
/// permanent root migration info.
pub open spec fn root_entry_model(
    mode: InodeFileHandlesMode,
    verify: bool,
    refcount: u64,
    host: LookupHost,
) -> crate::store::InodeModel {
    crate::store::InodeModel {
        inode: ROOT_ID,
        backing: lookup_backing(mode, host.handle, host.fd),
        refcount,
        ids: host.ids,
        mode: host.mode,
        migration_info: root_mig_model(verify, host.serializable_handle),
    }
}

impl PassthroughFs {
    /// Mount the shared directory: insert the root inode, with a refcount
    /// of two and its permanent root migration info (kept across
    /// `clear_migration_info`, so the root can always be migrated).  The
    /// embedding program opens the configured root and hands in what it
    /// found.
    pub fn open_root_node(&mut self, host: LookupHost) -> (r: Result<(), FsError>)
        requires
            old(self).inv(),
        ensures
            final(self).inv(),
            final(self).handles@ == old(self).handles@,
            PassthroughFs::same_options(old(self), final(self)),
            final(self).next_inode == old(self).next_inode,
            final(self).next_handle == old(self).next_handle,
            ({
                let mode = old(self).cfg.inode_file_handles;
                if mode == InodeFileHandlesMode::Mandatory && host.handle is None {
                    r is Err && r->Err_0.kind == ErrorKind::NotSupported && final(self).inodes@
                        == old(self).inodes@
                } else {
                    let em = root_entry_model(
                        mode,
                        old(self).cfg.migration_verify_handles,
                        2,
                        host,
                    );
                    let dup = contains_id(old(self).inodes@, ROOT_ID) || (em.fd_backed()
                        && crate::store::find_by_ids(old(self).inodes@, host.ids) is Some) || (
                    em.handle_key() is Some && crate::store::find_by_handle(
                        old(self).inodes@,
                        em.handle_key()->0,
                    ) is Some);
                    if dup {
                        r is Err && final(self).inodes@ == old(self).inodes@
                    } else {
                        r is Ok && final(self).inodes@ == old(self).inodes@.push(em)
                    }
                }
            }),
    {
        let use_handles = match self.cfg.inode_file_handles {
            InodeFileHandlesMode::Never => false,
            _ => true,
        };
        let mandatory = match self.cfg.inode_file_handles {
            InodeFileHandlesMode::Mandatory => true,
            _ => false,
        };
        if mandatory && match &host.handle {
            None => true,
            Some(_) => false,
        } {
            return Err(FsError::new(ErrorKind::NotSupported));
        }
        let file_or_handle = if use_handles {
            match host.handle {
                Some(h) => crate::store::FileOrHandle::Handle(h),
                None => crate::store::FileOrHandle::File(host.fd),
            }
        } else {
            crate::store::FileOrHandle::File(host.fd)
        };
        let migration_info = match crate::migration::InodeMigrationInfo::new_root(
            self.cfg.migration_verify_handles,
            host.serializable_handle,
        ) {
            Ok(mi) => Some(mi),
            Err(_) => None,
        };
        let entry = crate::store::InodeData {
            inode: ROOT_ID,
            file_or_handle,
            refcount: 2,
            ids: host.ids,
            mode: host.mode,
            migration_info,
        };
        self.inodes.new_inode(entry)
    }

    /// Look up `name` under `parent`, from what the host reported: claim
    /// the inode if it is already in the store (raising its refcount), or
    /// insert a fresh one under the next free id.  Either way, one
    /// refcount unit is handed to the guest, which balances it with
    /// `forget`.  While migration info is being tracked, a fresh inode
    /// immediately gets a `(parent, name)` location holding a counted
    /// reference on the parent.
    #[verifier::rlimit(100)]
    #[verifier::spinoff_prover]
    pub fn do_lookup(&mut self, parent: u64, name: Vec<u8>, host: LookupHost) -> (r: Result<
        EntryOut, FsError>)
        requires
            old(self).inv(),
        ensures
            final(self).inv(),
            final(self).handles@ == old(self).handles@,
            PassthroughFs::same_options(old(self), final(self)),
            final(self).next_handle == old(self).next_handle,
            ({
                let cfg = old(self).cfg;
                let s0 = old(self).inodes@;
                let track = old(self).track_migration_info;
                if !contains_id(s0, parent) {
                    r is Err && r->Err_0.kind == ErrorKind::NotFound && final(self).inodes@
                        == s0 && final(self).next_inode == old(self).next_inode
                } else if cfg.inode_file_handles == InodeFileHandlesMode::Mandatory
                    && host.handle is None {
                    r is Err && r->Err_0.kind == ErrorKind::NotSupported && final(self).inodes@
                        == s0 && final(self).next_inode == old(self).next_inode
                } else if old(self).next_inode == u64::MAX {
                    r is Err && r->Err_0.kind == ErrorKind::Other && final(self).inodes@ == s0
                        && final(self).next_inode == old(self).next_inode
                } else if track && entry_of(s0, parent).refcount == u64::MAX {
                    r is Err && r->Err_0.kind == ErrorKind::Other && final(self).inodes@ == s0
                        && final(self).next_inode == old(self).next_inode
                } else if track && cfg.migration_verify_handles && host.serializable_handle
                    is None {
                    r is Err && r->Err_0.kind == ErrorKind::Other && final(self).inodes@ == s0
                        && final(self).next_inode == old(self).next_inode
                } else {
                    let attr = submount_attr(
                        old(self).announce_submounts,
                        host.mode,
                        host.ids,
                        entry_of(s0, parent).ids,
                    );
                    let s1 = if track {
                        bump_rc(s0, parent)
                    } else {
                        s0
                    };
                    let em = crate::store::InodeModel {
                        inode: old(self).next_inode,
                        backing: lookup_backing(cfg.inode_file_handles, host.handle, host.fd),
                        refcount: 1,
                        ids: host.ids,
                        mode: host.mode,
                        migration_info: if track {
                            Some(
                                lookup_mig_model(
                                    cfg.migration_verify_handles,
                                    parent,
                                    name@,
                                    crate::codec::opt_fh_view(host.serializable_handle),
                                ),
                            )
                        } else {
                            None
                        },
                    };
                    final(self).next_inode == old(self).next_inode + 1 && match
                        crate::store::claim_target(s1, em.handle_key(), host.ids) {
                        Some(t) => {
                            if entry_of(s1, t).refcount < u64::MAX {
                                r == Ok::<EntryOut, FsError>(EntryOut { inode: t, attr_flags: attr })
                                    && final(self).inodes@ == crate::store::release_entry(
                                    bump_rc(s1, t),
                                    em,
                                )
                            } else {
                                r is Err && final(self).inodes@ == crate::store::release_entry(
                                    s1,
                                    em,
                                )
                            }
                        },
                        None => {
                            if contains_id(s1, old(self).next_inode) {
                                r is Err && r->Err_0.kind == ErrorKind::Other
                                    && final(self).inodes@ == crate::store::release_entry(s1, em)
                            } else {
                                r == Ok::<EntryOut, FsError>(
                                    EntryOut { inode: old(self).next_inode, attr_flags: attr },
                                ) && final(self).inodes@ == s1.push(em)
                            }
                        },
                    }
                }
            }),
    {
        let ghost s0 = self.inodes@;
        let parent_ids = match self.inodes.get(parent) {
            None => {
                return Err(FsError::new(ErrorKind::NotFound));
            },
            Some(p) => p.ids,
        };
        let mandatory = match self.cfg.inode_file_handles {
            InodeFileHandlesMode::Mandatory => true,
            _ => false,
        };
        let use_handles = match self.cfg.inode_file_handles {
            InodeFileHandlesMode::Never => false,
            _ => true,
        };
        if mandatory && match &host.handle {
            None => true,
            Some(_) => false,
        } {
            return Err(FsError::new(ErrorKind::NotSupported));
        }
        if self.next_inode == u64::MAX {
            return Err(FsError::new(ErrorKind::Other));
        }
        let dir = host.mode & flags::S_IFMT == flags::S_IFDIR;
        let attr_flags: u32 = if dir && self.announce_submounts && (host.ids.dev
            != parent_ids.dev || host.ids.mnt_id != parent_ids.mnt_id) {
            ATTR_SUBMOUNT
        } else {
            0
        };
        let track = self.track_migration_info;
        let migration_info = if track {
            match self.inodes.get_strong(parent) {
                Err(e) => {
                    return Err(e);
                },
                Ok(_) => {},
            }
            match crate::migration::InodeMigrationInfo::new(
                self.cfg.migration_verify_handles,
                parent,
                name,
                host.serializable_handle,
            ) {
                Err(e) => {
                    self.inodes.forget_one(parent, 1);
                    proof {
                        crate::store::lemma_bump_then_forget(s0, parent);
                    }
                    return Err(e);
                },
                Ok(mi) => Some(mi),
            }
        } else {
            None
        };
        let file_or_handle = if use_handles {
            match host.handle {
                Some(h) => crate::store::FileOrHandle::Handle(h),
                None => crate::store::FileOrHandle::File(host.fd),
            }
        } else {
            crate::store::FileOrHandle::File(host.fd)
        };
        let id = self.next_inode;
        self.next_inode = id + 1;
        let entry = crate::store::InodeData {
            inode: id,
            file_or_handle,
            refcount: 1,
            ids: host.ids,
            mode: host.mode,
            migration_info,
        };
        match self.inodes.get_or_insert(entry) {
            Ok(t) => Ok(EntryOut { inode: t, attr_flags }),
            Err(e) => Err(e),
        }
    }
}

/// Whether `name` is one of the self-referential directory entries `.` or
/// `..`, which the migration walker skips.
fn is_dot_name(name: &Vec<u8>) -> (r: bool)
    ensures
        r <==> (name@ == seq![46u8] || name@ == seq![46u8, 46u8]),
{
    if name.len() == 1 && name[0] == 46 {
        proof {
            assert(name@ =~= seq![46u8]);
        }
        true
    } else if name.len() == 2 && name[0] == 46 && name[1] == 46 {
        proof {
            assert(name@ =~= seq![46u8, 46u8]);
        }
        true
    } else {
        proof {
            assert(name@.len() == 1 ==> name@ != seq![46u8, 46u8]);
            assert(name@.len() == 2 ==> name@ != seq![46u8]);
        }
        false
    }
}

impl PassthroughFs {
    /// After a host rename, while migration info is being tracked, move
    /// the renamed inode's location to its new `(parent, name)`.  The
    /// embedding program looks the moved inode up under its new name and
    /// hands in what the host reported; an inode that is not in the store
    /// needs no update.
    #[verifier::rlimit(100)]
    #[verifier::spinoff_prover]
    pub fn note_renamed(&mut self, newparent: u64, newname: Vec<u8>, host: LookupHost) -> (r:
        Result<(), FsError>)
        requires
            old(self).inv(),
        ensures
            final(self).inv(),
            final(self).handles@ == old(self).handles@,
            PassthroughFs::same_options(old(self), final(self)),
            final(self).next_inode == old(self).next_inode,
            final(self).next_handle == old(self).next_handle,
            ({
                let cfg = old(self).cfg;
                let s0 = old(self).inodes@;
                let key = eff_key(cfg.inode_file_handles, host.handle);
                if !old(self).track_migration_info {
                    r is Ok && final(self).inodes@ == s0
                } else {
                    match crate::store::claim_target(s0, key, host.ids) {
                        None => r is Ok && final(self).inodes@ == s0,
                        Some(t) => {
                            if entry_of(s0, t).refcount == u64::MAX {
                                r is Err && final(self).inodes@ == s0
                            } else {
                                let s1 = bump_rc(s0, t);
                                if !contains_id(s1, newparent) {
                                    r is Err && r->Err_0.kind == ErrorKind::NotFound
                                        && final(self).inodes@ == s0
                                } else if entry_of(s1, newparent).refcount == u64::MAX {
                                    r is Err && final(self).inodes@ == s0
                                } else if cfg.migration_verify_handles
                                    && host.serializable_handle is None {
                                    r is Err && final(self).inodes@ == s0
                                } else {
                                    let s2 = bump_rc(s1, newparent);
                                    let mi = lookup_mig_model(
                                        cfg.migration_verify_handles,
                                        newparent,
                                        newname@,
                                        crate::codec::opt_fh_view(host.serializable_handle),
                                    );
                                    let s3 = crate::store::release_entry(
                                        crate::store::with_mig(s2, t, Some(mi)),
                                        entry_of(s2, t),
                                    );
                                    r is Ok && final(self).inodes@ == forget_spec(s3, t, 1)
                                }
                            }
                        },
                    }
                }
            }),
    {
        if !self.track_migration_info {
            return Ok(());
        }
        let ghost s0 = self.inodes@;
        let use_handles = match self.cfg.inode_file_handles {
            InodeFileHandlesMode::Never => false,
            _ => true,
        };
        let handle_ref: Option<&crate::file_handle::FileHandle> = if use_handles {
            match &host.handle {
                Some(h) => Some(&h.handle),
                None => None,
            }
        } else {
            None
        };
        proof {
            assert(crate::store::opt_key(handle_ref) == eff_key(
                self.cfg.inode_file_handles,
                host.handle,
            ));
        }
        let t = match self.inodes.claim_inode(handle_ref, &host.ids) {
            Err(e) => {
                if match e.kind {
                    ErrorKind::NotFound => true,
                    _ => false,
                } {
                    return Ok(());
                }
                return Err(e);
            },
            Ok(t) => t,
        };
        let ghost s1 = self.inodes@;
        match self.inodes.get_strong(newparent) {
            Err(e) => {
                self.inodes.forget_one(t, 1);
                proof {
                    crate::store::lemma_bump_then_forget(s0, t);
                }
                return Err(e);
            },
            Ok(_) => {},
        }
        let mi = match crate::migration::InodeMigrationInfo::new(
            self.cfg.migration_verify_handles,
            newparent,
            newname,
            host.serializable_handle,
        ) {
            Err(e) => {
                self.inodes.forget_one(newparent, 1);
                proof {
                    crate::store::lemma_bump_then_forget(s1, newparent);
                }
                self.inodes.forget_one(t, 1);
                proof {
                    crate::store::lemma_bump_then_forget(s0, t);
                }
                return Err(e);
            },
            Ok(mi) => mi,
        };
        proof {
            assert(contains_id(self.inodes@, t)) by {
                let i = crate::store::idx_of(s0, t);
                assert(self.inodes@[i].inode == t);
            }
        }
        self.inodes.set_migration_info(t, Some(mi));
        self.inodes.forget_one(t, 1);
        Ok(())
    }

    /// Begin preparing for migration: wipe stale per-inode migration info
    /// (the root keeps its permanent info) and start tracking, so inodes
    /// created while the walker runs still get correct info at lookup
    /// time.  The embedding program then walks the shared directory,
    /// feeding each entry to `walk_discover`.
    pub fn prepare_migration_begin(&mut self)
        requires
            old(self).inv(),
        ensures
            final(self).inv(),
            final(self).track_migration_info,
            final(self).handles@ == old(self).handles@,
            final(self).cfg == old(self).cfg,
            final(self).writeback == old(self).writeback,
            final(self).announce_submounts == old(self).announce_submounts,
            final(self).posix_acl == old(self).posix_acl,
            final(self).sup_group_extension == old(self).sup_group_extension,
            final(self).next_inode == old(self).next_inode,
            final(self).next_handle == old(self).next_handle,
            forall|x: u64| #[trigger]
                contains_id(final(self).inodes@, x) ==> contains_id(old(self).inodes@, x) && (x
                    != ROOT_ID ==> entry_of(final(self).inodes@, x).migration_info is None) && (
                x == ROOT_ID ==> entry_of(final(self).inodes@, x).migration_info == entry_of(
                    old(self).inodes@,
                    x,
                ).migration_info),
            (contains_id(old(self).inodes@, ROOT_ID) ==> entry_of(
                old(self).inodes@,
                ROOT_ID,
            ).mig_parent() is None) ==> (forall|x: u64| #[trigger]
                contains_id(old(self).inodes@, x) ==> ({
                    let rel = crate::store::released_on(old(self).inodes@, x);
                    let rc0 = entry_of(old(self).inodes@, x).refcount;
                    &&& (rc0 > rel ==> contains_id(final(self).inodes@, x) && entry_of(
                        final(self).inodes@,
                        x,
                    ).refcount == rc0 - rel)
                    &&& (rc0 <= rel ==> !contains_id(final(self).inodes@, x))
                })),
    {
        self.inodes.clear_migration_info();
        self.track_migration_info = true;
    }

    /// End migration tracking once the state has been serialized: stop
    /// attaching migration info to new inodes, and release the prepared
    /// info (the root keeps its permanent one).  The released parent
    /// references follow the same accounting as `prepare_migration_begin`:
    /// an inode kept alive only by its children's locations disappears.
    pub fn end_migration_tracking(&mut self)
        requires
            old(self).inv(),
        ensures
            final(self).inv(),
            !final(self).track_migration_info,
            final(self).handles@ == old(self).handles@,
            final(self).cfg == old(self).cfg,
            final(self).writeback == old(self).writeback,
            final(self).announce_submounts == old(self).announce_submounts,
            final(self).posix_acl == old(self).posix_acl,
            final(self).sup_group_extension == old(self).sup_group_extension,
            final(self).next_inode == old(self).next_inode,
            final(self).next_handle == old(self).next_handle,
            forall|x: u64| #[trigger]
                contains_id(final(self).inodes@, x) ==> contains_id(old(self).inodes@, x) && (x
                    != ROOT_ID ==> entry_of(final(self).inodes@, x).migration_info is None) && (
                x == ROOT_ID ==> entry_of(final(self).inodes@, x).migration_info == entry_of(
                    old(self).inodes@,
                    x,
                ).migration_info),
            (contains_id(old(self).inodes@, ROOT_ID) ==> entry_of(
                old(self).inodes@,
                ROOT_ID,
            ).mig_parent() is None) ==> (forall|x: u64| #[trigger]
                contains_id(old(self).inodes@, x) ==> ({
                    let rel = crate::store::released_on(old(self).inodes@, x);
                    let rc0 = entry_of(old(self).inodes@, x).refcount;
                    &&& (rc0 > rel ==> contains_id(final(self).inodes@, x) && entry_of(
                        final(self).inodes@,
                        x,
                    ).refcount == rc0 - rel)
                    &&& (rc0 <= rel ==> !contains_id(final(self).inodes@, x))
                })),
    {
        self.track_migration_info = false;
        self.inodes.clear_migration_info();
    }

    /// One walker step: match a directory entry the walker found against
    /// the store.  A hit gets its migration info set to `(parent, name)`;
    /// an unmatched directory is inserted anyway (rooted at its parent),
    /// so tracked descendants can be reached — if nothing ends up
    /// referencing it, its transient reference returns to zero when
    /// released and the entry disappears again.  Returns the inode to
    /// recurse into for directories (release it with `walk_release` when
    /// done), `None` otherwise.
    #[verifier::rlimit(100)]
    #[verifier::spinoff_prover]
    pub fn walk_discover(&mut self, parent: u64, name: Vec<u8>, host: LookupHost) -> (r: Result<
        Option<u64>, FsError>)
        requires
            old(self).inv(),
        ensures
            final(self).inv(),
            final(self).handles@ == old(self).handles@,
            PassthroughFs::same_options(old(self), final(self)),
            final(self).next_handle == old(self).next_handle,
            ({
                let cfg = old(self).cfg;
                let s0 = old(self).inodes@;
                let key = eff_key(cfg.inode_file_handles, host.handle);
                let dir = host.mode & flags::S_IFMT == flags::S_IFDIR;
                if name@ == seq![46u8] || name@ == seq![46u8, 46u8] {
                    r == Ok::<Option<u64>, FsError>(None) && final(self).inodes@ == s0
                        && final(self).next_inode == old(self).next_inode
                } else if cfg.inode_file_handles == InodeFileHandlesMode::Mandatory
                    && host.handle is None {
                    r is Err && r->Err_0.kind == ErrorKind::NotSupported && final(self).inodes@
                        == s0 && final(self).next_inode == old(self).next_inode
                } else {
                    match crate::store::claim_target(s0, key, host.ids) {
                        Some(t) => {
                            if entry_of(s0, t).refcount == u64::MAX {
                                r is Err && final(self).inodes@ == s0 && final(self).next_inode
                                    == old(self).next_inode
                            } else {
                                let s1 = bump_rc(s0, t);
                                if !contains_id(s1, parent) {
                                    r is Err && r->Err_0.kind == ErrorKind::NotFound
                                        && final(self).inodes@ == s0 && final(self).next_inode
                                        == old(self).next_inode
                                } else if entry_of(s1, parent).refcount == u64::MAX {
                                    r is Err && final(self).inodes@ == s0
                                        && final(self).next_inode == old(self).next_inode
                                } else if cfg.migration_verify_handles
                                    && host.serializable_handle is None {
                                    r is Err && final(self).inodes@ == s0
                                        && final(self).next_inode == old(self).next_inode
                                } else {
                                    let s2 = bump_rc(s1, parent);
                                    let mi = lookup_mig_model(
                                        cfg.migration_verify_handles,
                                        parent,
                                        name@,
                                        crate::codec::opt_fh_view(host.serializable_handle),
                                    );
                                    let s3 = crate::store::release_entry(
                                        crate::store::with_mig(s2, t, Some(mi)),
                                        entry_of(s2, t),
                                    );
                                    final(self).next_inode == old(self).next_inode && (if dir {
                                        r == Ok::<Option<u64>, FsError>(Some(t))
                                            && final(self).inodes@ == s3
                                    } else {
                                        r == Ok::<Option<u64>, FsError>(None)
                                            && final(self).inodes@ == forget_spec(s3, t, 1)
                                    })
                                }
                            }
                        },
                        None => {
                            if !dir {
                                r == Ok::<Option<u64>, FsError>(None) && final(self).inodes@
                                    == s0 && final(self).next_inode == old(self).next_inode
                            } else if old(self).next_inode == u64::MAX {
                                r is Err && r->Err_0.kind == ErrorKind::Other
                                    && final(self).inodes@ == s0 && final(self).next_inode
                                    == old(self).next_inode
                            } else if !contains_id(s0, parent) {
                                r is Err && r->Err_0.kind == ErrorKind::NotFound
                                    && final(self).inodes@ == s0 && final(self).next_inode
                                    == old(self).next_inode
                            } else if entry_of(s0, parent).refcount == u64::MAX {
                                r is Err && final(self).inodes@ == s0 && final(self).next_inode
                                    == old(self).next_inode
                            } else if cfg.migration_verify_handles && host.serializable_handle
                                is None {
                                r is Err && final(self).inodes@ == s0 && final(self).next_inode
                                    == old(self).next_inode
                            } else {
                                let s1 = bump_rc(s0, parent);
                                let em = crate::store::InodeModel {
                                    inode: old(self).next_inode,
                                    backing: lookup_backing(
                                        cfg.inode_file_handles,
                                        host.handle,
                                        host.fd,
                                    ),
                                    refcount: 1,
                                    ids: host.ids,
                                    mode: host.mode,
                                    migration_info: Some(
                                        lookup_mig_model(
                                            cfg.migration_verify_handles,
                                            parent,
                                            name@,
                                            crate::codec::opt_fh_view(host.serializable_handle),
                                        ),
                                    ),
                                };
                                final(self).next_inode == old(self).next_inode + 1 && (if
                                    contains_id(s1, old(self).next_inode) {
                                    r is Err && r->Err_0.kind == ErrorKind::Other
                                        && final(self).inodes@
                                        == crate::store::release_entry(s1, em)
                                } else {
                                    r == Ok::<Option<u64>, FsError>(Some(old(self).next_inode))
                                        && final(self).inodes@ == s1.push(em)
                                })
                            }
                        },
                    }
                }
            }),
    {
        if is_dot_name(&name) {
            return Ok(None);
        }
        let ghost s0 = self.inodes@;
        let mandatory = match self.cfg.inode_file_handles {
            InodeFileHandlesMode::Mandatory => true,
            _ => false,
        };
        let use_handles = match self.cfg.inode_file_handles {
            InodeFileHandlesMode::Never => false,
            _ => true,
        };
        if mandatory && match &host.handle {
            None => true,
            Some(_) => false,
        } {
            return Err(FsError::new(ErrorKind::NotSupported));
        }
        let dir = host.mode & flags::S_IFMT == flags::S_IFDIR;
        let handle_ref: Option<&crate::file_handle::FileHandle> = if use_handles {
            match &host.handle {
                Some(h) => Some(&h.handle),
                None => None,
            }
        } else {
            None
        };
        proof {
            assert(crate::store::opt_key(handle_ref) == eff_key(
                self.cfg.inode_file_handles,
                host.handle,
            ));
        }
        match self.inodes.claim_inode(handle_ref, &host.ids) {
            Ok(t) => {
                let ghost s1 = self.inodes@;
                match self.inodes.get_strong(parent) {
                    Err(e) => {
                        self.inodes.forget_one(t, 1);
                        proof {
                            crate::store::lemma_bump_then_forget(s0, t);
                        }
                        return Err(e);
                    },
                    Ok(_) => {},
                }
                let mi = match crate::migration::InodeMigrationInfo::new(
                    self.cfg.migration_verify_handles,
                    parent,
                    name,
                    host.serializable_handle,
                ) {
                    Err(e) => {
                        self.inodes.forget_one(parent, 1);
                        proof {
                            crate::store::lemma_bump_then_forget(s1, parent);
                        }
                        self.inodes.forget_one(t, 1);
                        proof {
                            crate::store::lemma_bump_then_forget(s0, t);
                        }
                        return Err(e);
                    },
                    Ok(mi) => mi,
                };
                proof {
                    assert(contains_id(self.inodes@, t)) by {
                        let i = crate::store::idx_of(s0, t);
                        assert(self.inodes@[i].inode == t);
                    }
                }
                self.inodes.set_migration_info(t, Some(mi));
                if dir {
                    Ok(Some(t))
                } else {
                    self.inodes.forget_one(t, 1);
                    Ok(None)
                }
            },
            Err(e) => {
                if match e.kind {
                    ErrorKind::NotFound => false,
                    _ => true,
                } {
                    return Err(e);
                }
                if !dir {
                    return Ok(None);
                }
                if self.next_inode == u64::MAX {
                    return Err(FsError::new(ErrorKind::Other));
                }
                match self.inodes.get_strong(parent) {
                    Err(e2) => {
                        return Err(e2);
                    },
                    Ok(_) => {},
                }
                let mi = match crate::migration::InodeMigrationInfo::new(
                    self.cfg.migration_verify_handles,
                    parent,
                    name,
                    host.serializable_handle,
                ) {
                    Err(e2) => {
                        self.inodes.forget_one(parent, 1);
                        proof {
                            crate::store::lemma_bump_then_forget(s0, parent);
                        }
                        return Err(e2);
                    },
                    Ok(mi) => mi,
                };
                let file_or_handle = if use_handles {
                    match host.handle {
                        Some(h) => crate::store::FileOrHandle::Handle(h),
                        None => crate::store::FileOrHandle::File(host.fd),
                    }
                } else {
                    crate::store::FileOrHandle::File(host.fd)
                };
                let id = self.next_inode;
                self.next_inode = id + 1;
                let entry = crate::store::InodeData {
                    inode: id,
                    file_or_handle,
                    refcount: 1,
                    ids: host.ids,
                    mode: host.mode,
                    migration_info: Some(mi),
                };
                proof {
                    crate::store::lemma_claim_target_bump(
                        s0,
                        parent,
                        entry@.handle_key(),
                        host.ids,
                    );
                }
                match self.inodes.get_or_insert(entry) {
                    Ok(t) => Ok(Some(t)),
                    Err(e2) => Err(e2),
                }
            },
        }
    }

    /// Decide the host actions of a guest `setattr` from its valid bits
    /// and whether the guest named an open handle.
    pub fn setattr_plan(&self, valid: u32, has_handle: bool) -> (r: SetattrPlan)
        ensures
            r.use_handle_fd == has_handle,
            r.reopen_rdwr == (!has_handle && valid & SETATTR_SIZE != 0),
            r.set_mode == (valid & SETATTR_MODE != 0),
            r.do_chown == (valid & (SETATTR_UID | SETATTR_GID) != 0),
            r.chown_uid_valid == (valid & SETATTR_UID != 0),
            r.chown_gid_valid == (valid & SETATTR_GID != 0),
            r.truncate == (valid & SETATTR_SIZE != 0),
            r.truncate_kill_priv == (self.cfg.killpriv_v2 && valid & SETATTR_KILL_SUIDGID
                != 0),
            r.atime == (if valid & SETATTR_ATIME_NOW != 0 {
                TimeChange::Now
            } else if valid & SETATTR_ATIME != 0 {
                TimeChange::Supplied
            } else {
                TimeChange::Omit
            }),
            r.mtime == (if valid & SETATTR_MTIME_NOW != 0 {
                TimeChange::Now
            } else if valid & SETATTR_MTIME != 0 {
                TimeChange::Supplied
            } else {
                TimeChange::Omit
            }),
    {
        proof {
            assert(valid & (SETATTR_UID | SETATTR_GID) != 0 <==> (valid & SETATTR_UID != 0
                || valid & SETATTR_GID != 0)) by (bit_vector)
                requires
                    SETATTR_UID == 0x2u32 && SETATTR_GID == 0x4u32,
            ;
        }
        SetattrPlan {
            use_handle_fd: has_handle,
            reopen_rdwr: !has_handle && valid & SETATTR_SIZE != 0,
            set_mode: valid & SETATTR_MODE != 0,
            do_chown: valid & SETATTR_UID != 0 || valid & SETATTR_GID != 0,
            chown_uid_valid: valid & SETATTR_UID != 0,
            chown_gid_valid: valid & SETATTR_GID != 0,
            truncate: valid & SETATTR_SIZE != 0,
            truncate_kill_priv: self.cfg.killpriv_v2 && valid & SETATTR_KILL_SUIDGID != 0,
            atime: if valid & SETATTR_ATIME_NOW != 0 {
                TimeChange::Now
            } else if valid & SETATTR_ATIME != 0 {
                TimeChange::Supplied
            } else {
                TimeChange::Omit
            },
            mtime: if valid & SETATTR_MTIME_NOW != 0 {
                TimeChange::Now
            } else if valid & SETATTR_MTIME != 0 {
                TimeChange::Supplied
            } else {
                TimeChange::Omit
            },
        }
    }

    /// Release the walker's transient reference on a directory it has
    /// finished with.
    pub fn walk_release(&mut self, inode: u64)
        requires
            old(self).inv(),
        ensures
            final(self).inv(),
            final(self).inodes@ == forget_spec(old(self).inodes@, inode, 1),
            final(self).handles@ == old(self).handles@,
            PassthroughFs::same_options(old(self), final(self)),
            final(self).next_inode == old(self).next_inode,
            final(self).next_handle == old(self).next_handle,
    {
        self.inodes.forget_one(inode, 1);
    }
}

/// Valid-attribute bits of a guest `setattr` request.
pub const SETATTR_MODE: u32 = 0x1;
pub const SETATTR_UID: u32 = 0x2;
pub const SETATTR_GID: u32 = 0x4;
pub const SETATTR_SIZE: u32 = 0x8;
pub const SETATTR_ATIME: u32 = 0x10;
pub const SETATTR_MTIME: u32 = 0x20;
pub const SETATTR_ATIME_NOW: u32 = 0x80;
pub const SETATTR_MTIME_NOW: u32 = 0x100;
pub const SETATTR_KILL_SUIDGID: u32 = 0x800;

/// How one timestamp of a `setattr` is to be set.
#[derive(Clone, Copy, Debug, PartialEq, Eq, Structural)]
pub enum TimeChange {
    /// Leave it untouched.
    Omit,
    /// Set it to the current time.
    Now,
    /// Set it to the value the guest supplied.
    Supplied,
}

/// The host actions a guest `setattr` requires, decided from the valid
/// bits and whether the guest named an open handle.  The embedding program
/// executes the actions in order: chmod, chown (with capabilities cleared
/// first), truncate (with the set-id guard when configured), then the
/// timestamps.
#[derive(Clone, Copy, Debug, PartialEq, Eq, Structural)]
pub struct SetattrPlan {
    /// Operate through the named handle's descriptor; otherwise go through
    /// the inode (by path through the proc filesystem for an `O_PATH`
    /// descriptor).
    pub use_handle_fd: bool,
    /// Without a handle, a size change needs a fresh read-write open of
    /// the inode first.
    pub reopen_rdwr: bool,
    /// Apply the supplied mode bits.
    pub set_mode: bool,
    /// Change ownership; `u32::MAX` in either field means "keep".
    pub do_chown: bool,
    pub chown_uid_valid: bool,
    pub chown_gid_valid: bool,
    /// Truncate to the supplied size, clearing file capabilities first.
    pub truncate: bool,
    /// Drop the set-id capability around the truncation (configured
    /// kill-priv handling for a kill-suidgid request).
    pub truncate_kill_priv: bool,
    /// What to do with the access timestamp.
    pub atime: TimeChange,
    /// What to do with the modification timestamp.
    pub mtime: TimeChange,
}

/// Destroying twice is the same as destroying once: whatever state the
/// first `destroy` left, a second one leaves it untouched.  A destroyed
/// instance holds no inode and no handle, so no host descriptor stays
/// referenced beyond the embedding program's pinned process-wide ones.
pub proof fn lemma_destroy_idempotent(a: &PassthroughFs, b: &PassthroughFs, c: &PassthroughFs)
    requires
        PassthroughFs::destroyed_from(a, b),
        PassthroughFs::destroyed_from(b, c),
    ensures
        PassthroughFs::same_state(b, c),
        b.inodes@.len() == 0,
        b.handles@.len() == 0,
{
}

/// Whether the table holds a handle with id `id` (probe used before
/// inserting under a fresh id).
fn contains_handle_probe(t: &HandleTable, id: u64) -> (r: bool)
    requires
        t.inv(),
    ensures
        r == contains_handle(t@, id),
{
    let mut i: usize = 0;
    let n = t.len();
    while i < n
        invariant
            t.inv(),
            n == t@.len(),
            i <= n,
            forall|j: int| 0 <= j < i ==> t@[j].id != id,
        decreases n - i,
    {
        let (hid, _) = t.entry_at(i);
        if hid == id {
            return true;
        }
        i = i + 1;
    }
    false
}

} // verus!
