//! The store's refcount discipline and three-way indexing, and the small
//! parsers.

use passthrough_fs::config::{CachePolicy, MigrationMode, MigrationOnError, SandboxMode};
use passthrough_fs::error::{ErrorContext, ErrorKind, FsError, ResultErrorContext};
use passthrough_fs::file_handle::{FileHandle, OpenableFileHandle, SerializableFileHandle};
use passthrough_fs::idmap::{GidMap, IdMapError, UidMap};
use passthrough_fs::migration::{InodeLocation, InodeMigrationInfo};
use passthrough_fs::serialize::{presence_matches, relative_path};
use passthrough_fs::store::{FileOrHandle, InodeData, InodeIds, InodeStore};

fn ids(ino: u64) -> InodeIds {
    InodeIds {
        ino,
        dev: 7,
        mnt_id: 1,
    }
}

fn fd_entry(inode: u64, ino: u64, refcount: u64) -> InodeData {
    InodeData {
        inode,
        file_or_handle: FileOrHandle::File(inode as i32),
        refcount,
        ids: ids(ino),
        mode: 0o100644,
        migration_info: None,
    }
}

fn handle_entry(inode: u64, ino: u64, bytes: Vec<u8>) -> InodeData {
    InodeData {
        inode,
        file_or_handle: FileOrHandle::Handle(OpenableFileHandle {
            handle: FileHandle {
                mnt_id: 1,
                handle_type: 1,
                handle: bytes,
            },
            mount_fd: 99,
        }),
        refcount: 1,
        ids: ids(ino),
        mode: 0o100644,
        migration_info: None,
    }
}

#[test]
fn claim_by_ids_needs_descriptor() {
    // A handle-backed entry does not answer identity claims: with no
    // descriptor open, the host may reuse the inode number, so only the
    // handle (which carries a generation) may find it.
    let mut store = InodeStore::new();
    store.new_inode(handle_entry(2, 50, vec![1, 2, 3])).unwrap();
    let miss = store.claim_inode(None, &ids(50));
    assert_eq!(miss.unwrap_err().kind, ErrorKind::NotFound);
    let fh = FileHandle {
        mnt_id: 1,
        handle_type: 1,
        handle: vec![1, 2, 3],
    };
    let hit = store.claim_inode(Some(&fh), &ids(50)).unwrap();
    assert_eq!(hit, 2);
    assert_eq!(store.get(2).unwrap().refcount, 2);
}

#[test]
fn claim_prefers_handle_over_ids() {
    let mut store = InodeStore::new();
    store.new_inode(fd_entry(2, 50, 1)).unwrap();
    store.new_inode(handle_entry(3, 60, vec![9])).unwrap();
    let fh = FileHandle {
        mnt_id: 1,
        handle_type: 1,
        handle: vec![9],
    };
    // Handle matches inode 3 even though the ids name inode 2.
    let got = store.claim_inode(Some(&fh), &ids(50)).unwrap();
    assert_eq!(got, 3);
}

#[test]
fn forget_saturates_and_removes() {
    let mut store = InodeStore::new();
    store.new_inode(fd_entry(2, 50, 3)).unwrap();
    store.forget_one(2, 1);
    assert_eq!(store.get(2).unwrap().refcount, 2);
    // Over-forgetting saturates at zero and removes.
    store.forget_one(2, 100);
    assert!(store.get(2).is_none());
    // Forgetting an absent inode is a no-op.
    store.forget_one(2, 1);
    assert!(store.is_empty());
}

#[test]
fn no_resurrection_after_forget_to_zero() {
    let mut store = InodeStore::new();
    store.new_inode(fd_entry(2, 50, 1)).unwrap();
    store.forget_one(2, 1);
    // The dying entry is gone; a claim cannot yield it.
    let err = store.claim_inode(None, &ids(50)).unwrap_err();
    assert_eq!(err.kind, ErrorKind::NotFound);
    assert!(store.get_strong(2).is_err());
}

#[test]
fn forget_cascades_through_parent_chain() {
    // c's migration info owns a reference on b, and b's owns one on a:
    // forgetting c's last guest reference releases the whole chain.
    let mut store = InodeStore::new();
    let mut a = fd_entry(10, 50, 1);
    a.migration_info = None;
    store.new_inode(a).unwrap();
    let mut b = fd_entry(11, 51, 2); // 1 guest + 1 from c's info
    b.migration_info = Some(
        InodeMigrationInfo::new(false, 10, b"b".to_vec(), None).unwrap(),
    );
    store.new_inode(b).unwrap();
    let mut c = fd_entry(12, 52, 1);
    c.migration_info = Some(
        InodeMigrationInfo::new(false, 11, b"c".to_vec(), None).unwrap(),
    );
    store.new_inode(c).unwrap();
    // a's single reference is the one b's info owns.  Forget the guest
    // references of c and then b; the releases cascade down the chain.
    store.forget_one(12, 1); // c removed; releases one unit of b (2 -> 1)
    assert!(store.get(12).is_none());
    assert_eq!(store.get(11).unwrap().refcount, 1);
    store.forget_one(11, 1); // b removed; cascade removes a as well
    assert!(store.get(11).is_none());
    assert!(store.get(10).is_none());
    assert!(store.is_empty());
}

#[test]
fn three_index_consistency_behaviour() {
    let mut store = InodeStore::new();
    store.new_inode(fd_entry(2, 50, 1)).unwrap();
    store.new_inode(handle_entry(3, 60, vec![9, 9])).unwrap();
    // by-ids maps a descriptor-backed entry's identity back to it.
    assert_eq!(store.inode_by_ids(&ids(50)), Some(2));
    // by-handle maps a handle-backed entry's handle back to it.
    let fh = FileHandle {
        mnt_id: 1,
        handle_type: 1,
        handle: vec![9, 9],
    };
    assert_eq!(store.inode_by_handle(&fh), Some(3));
    // Duplicate ids are refused outright, keeping the indexes exact.
    let dup = store.new_inode(fd_entry(4, 50, 1));
    assert!(dup.is_err());
    let dup_id = store.new_inode(fd_entry(2, 70, 1));
    assert!(dup_id.is_err());
}

#[test]
fn get_or_insert_dedupes() {
    let mut store = InodeStore::new();
    let first = store.get_or_insert(fd_entry(2, 50, 1)).unwrap();
    assert_eq!(first, 2);
    // An equivalent entry under a different id claims the existing one.
    let second = store.get_or_insert(fd_entry(3, 50, 1)).unwrap();
    assert_eq!(second, 2);
    assert_eq!(store.get(2).unwrap().refcount, 2);
    assert!(store.get(3).is_none());
}

#[test]
fn clear_migration_info_keeps_root() {
    let mut store = InodeStore::new();
    let mut root = fd_entry(1, 100, 3); // 2 guest-ish + 1 from x's info
    root.mode = 0o40755;
    root.migration_info = Some(InodeMigrationInfo::new_root(false, None).unwrap());
    store.new_inode(root).unwrap();
    let mut x = fd_entry(5, 101, 1);
    x.migration_info = Some(
        InodeMigrationInfo::new(false, 1, b"x".to_vec(), None).unwrap(),
    );
    store.new_inode(x).unwrap();
    store.clear_migration_info();
    assert!(store.get(5).unwrap().migration_info.is_none());
    match &store.get(1).unwrap().migration_info {
        Some(mi) => match mi.location {
            InodeLocation::RootNode => {}
            _ => panic!("root info must stay the root location"),
        },
        None => panic!("root keeps its migration info"),
    }
    // The unit x's info held on the root was released.
    assert_eq!(store.get(1).unwrap().refcount, 2);
}

#[test]
fn cache_policy_parse() {
    assert_eq!(CachePolicy::from_str("never"), Ok(CachePolicy::Never));
    assert_eq!(CachePolicy::from_str("NEVER"), Ok(CachePolicy::Never));
    assert_eq!(CachePolicy::from_str("Metadata"), Ok(CachePolicy::Metadata));
    assert_eq!(CachePolicy::from_str("auto"), Ok(CachePolicy::Auto));
    assert_eq!(CachePolicy::from_str("always"), Ok(CachePolicy::Always));
    assert!(CachePolicy::from_str("sometimes").is_err());
}

#[test]
fn migration_option_parses() {
    assert_eq!(MigrationOnError::from_str("abort"), Ok(MigrationOnError::Abort));
    assert_eq!(
        MigrationOnError::from_str("guest-error"),
        Ok(MigrationOnError::GuestError)
    );
    assert!(MigrationOnError::from_str("Abort").is_err(), "exact match only");
    assert_eq!(MigrationMode::from_str("find-paths"), Ok(MigrationMode::FindPaths));
    assert!(MigrationMode::from_str("other").is_err());
    assert_eq!(SandboxMode::from_str("Namespace"), Ok(SandboxMode::Namespace));
    assert_eq!(SandboxMode::from_str("chroot"), Ok(SandboxMode::Chroot));
    assert_eq!(SandboxMode::from_str("NONE"), Ok(SandboxMode::NoSandbox));
    assert!(SandboxMode::from_str("jail").is_err());
}

#[test]
fn uid_gid_map_parse() {
    let m = UidMap::from_str(":0:1000:1:").unwrap();
    assert_eq!(m.inside_uid, 0);
    assert_eq!(m.outside_uid, 1000);
    assert_eq!(m.count, 1);
    let g = GidMap::from_str(",5,6,7,").unwrap();
    assert_eq!(g.inside_gid, 5);
    assert_eq!(g.outside_gid, 6);
    assert_eq!(g.count, 7);
    assert_eq!(UidMap::from_str(""), Err(IdMapError::IncompleteMap));
    assert_eq!(UidMap::from_str("a0a1a2a"), Err(IdMapError::InvalidDelimiter));
    assert_eq!(UidMap::from_str("0:1000:1:"), Err(IdMapError::InvalidDelimiter));
    assert_eq!(UidMap::from_str(":0:1000:"), Err(IdMapError::IncompleteMap));
    assert_eq!(UidMap::from_str(":0:1000:1:2:"), Err(IdMapError::IncompleteMap));
    assert_eq!(UidMap::from_str(":0:x:1:"), Err(IdMapError::InvalidValue));
    assert_eq!(UidMap::from_str(":0:4294967296:1:"), Err(IdMapError::InvalidValue));
    let max = UidMap::from_str(":0:4294967295:1:").unwrap();
    assert_eq!(max.outside_uid, u32::MAX);
}

#[test]
fn serializable_handle_comparisons() {
    let a = SerializableFileHandle {
        mnt_id: 1,
        handle_type: 1,
        handle: vec![1, 2],
    };
    let b = SerializableFileHandle {
        mnt_id: 2,
        handle_type: 1,
        handle: vec![1, 2],
    };
    let c = SerializableFileHandle {
        mnt_id: 1,
        handle_type: 1,
        handle: vec![1, 3],
    };
    assert!(a.require_equal_without_mount_id(&b).is_ok());
    assert!(a.require_equal(&b).is_err());
    assert!(a.require_equal(&a.duplicate()).is_ok());
    assert!(a.require_equal_without_mount_id(&c).is_err());
    let fh = FileHandle {
        mnt_id: 1,
        handle_type: 1,
        handle: vec![1, 2],
    };
    assert!(fh.matches(&fh.duplicate()));
    assert!(fh.to_serializable().require_equal(&a).is_ok());
    let ofh = OpenableFileHandle {
        handle: fh.duplicate(),
        mount_fd: 4,
    };
    assert_eq!(ofh.inner().mnt_id, 1);
    assert_eq!(ofh.inner().handle, vec![1, 2]);
}

#[test]
fn error_context_keeps_kind() {
    let e = FsError::with_msg(ErrorKind::NotFound, b"inode 5".to_vec());
    let with_ctx = e.context(b"lookup".to_vec());
    assert_eq!(with_ctx.kind, ErrorKind::NotFound);
    assert_eq!(with_ctx.msg, b"lookup: inode 5".to_vec());
    let r: Result<u32, FsError> = Err(FsError::new(ErrorKind::NotSupported));
    let r2 = r.err_context(b"xattr".to_vec());
    assert_eq!(r2.unwrap_err().kind, ErrorKind::NotSupported);
    let ok: Result<u32, FsError> = Ok(7);
    assert_eq!(ok.err_context(b"ctx".to_vec()).unwrap(), 7);
    let other = passthrough_fs::other_io_error(b"boom".to_vec());
    assert_eq!(other.kind, ErrorKind::Other);
}

#[test]
fn presence_cross_check() {
    let fh = SerializableFileHandle {
        mnt_id: 1,
        handle_type: 1,
        handle: vec![1, 2],
    };
    let fh_other_mount = SerializableFileHandle {
        mnt_id: 9,
        handle_type: 1,
        handle: vec![1, 2],
    };
    let fh_diff = SerializableFileHandle {
        mnt_id: 1,
        handle_type: 1,
        handle: vec![3],
    };
    // Device mismatch always loses the inode.
    assert!(!presence_matches(7, 50, None, 8, 50, None));
    // With a reference handle, the handle decides (mount id masked out).
    assert!(presence_matches(7, 50, Some(&fh), 7, 99, Some(&fh_other_mount)));
    assert!(!presence_matches(7, 50, Some(&fh), 7, 50, Some(&fh_diff)));
    assert!(!presence_matches(7, 50, Some(&fh), 7, 50, None));
    // Without one, the inode number decides.
    assert!(presence_matches(7, 50, None, 7, 50, Some(&fh)));
    assert!(!presence_matches(7, 50, None, 7, 51, None));
}

#[test]
fn relative_path_strips_prefix() {
    let path = b"/srv/share/a/b".to_vec();
    let prefix = b"/srv/share".to_vec();
    assert_eq!(relative_path(&path, &prefix).unwrap(), b"a/b".to_vec());
    // Extra slashes after the prefix are swallowed.
    let doubled = b"/srv/share///a".to_vec();
    assert_eq!(relative_path(&doubled, &prefix).unwrap(), b"a".to_vec());
    // The prefix itself maps to the empty relative path.
    assert_eq!(relative_path(&prefix, &prefix).unwrap(), Vec::<u8>::new());
    // A path outside the shared directory cannot be made relative.
    assert!(relative_path(&b"/etc/passwd".to_vec(), &prefix).is_err());
    assert!(relative_path(&b"/srv".to_vec(), &prefix).is_err());
}
