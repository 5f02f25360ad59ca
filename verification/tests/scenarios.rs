//! End-to-end scenarios: lookup/forget balance, rename during migration
//! preparation, mid-walk creation, handle re-opening on a destination, and
//! the two lost-inode policies.

use passthrough_fs::config::{Config, MigrationOnError};
use passthrough_fs::error::ErrorKind;
use passthrough_fs::flags;
use passthrough_fs::fs::{LookupHost, PassthroughFs};
use passthrough_fs::restore::{Deserializer, RecordNeed};
use passthrough_fs::store::{InodeIds, ROOT_ID};
use passthrough_fs::wire::{SerializedFs, SerializedLocation};

fn host(fd: i32, ino: u64) -> LookupHost {
    LookupHost {
        fd,
        ids: InodeIds {
            ino,
            dev: 7,
            mnt_id: 1,
        },
        mode: 0o100644,
        handle: None,
        serializable_handle: None,
    }
}

fn dir_host(fd: i32, ino: u64) -> LookupHost {
    LookupHost {
        mode: 0o40755,
        ..host(fd, ino)
    }
}

fn mounted_fs(cfg: Config) -> PassthroughFs {
    let mut fs = PassthroughFs::new(cfg);
    fs.init(0).unwrap();
    fs.open_root_node(dir_host(3, 100)).unwrap();
    fs
}

#[test]
fn lookup_forget_balance() {
    // Guest looks up a/b/c; forgetting them one by one empties the store
    // back to just the root.
    let mut fs = mounted_fs(Config::default());
    let a = fs.do_lookup(ROOT_ID, b"a".to_vec(), dir_host(10, 101)).unwrap().inode;
    let b = fs.do_lookup(a, b"b".to_vec(), dir_host(11, 102)).unwrap().inode;
    let c = fs.do_lookup(b, b"c".to_vec(), host(12, 103)).unwrap().inode;
    assert_eq!(fs.inodes.len(), 4);
    assert_eq!(fs.inodes.get(a).unwrap().refcount, 1);
    assert_eq!(fs.inodes.get(b).unwrap().refcount, 1);
    assert_eq!(fs.inodes.get(c).unwrap().refcount, 1);

    fs.forget(c, 1);
    assert!(fs.inodes.get(c).is_none());
    assert_eq!(fs.inodes.get(a).unwrap().refcount, 1);
    assert_eq!(fs.inodes.get(b).unwrap().refcount, 1);

    fs.forget(b, 1);
    fs.forget(a, 1);
    assert_eq!(fs.inodes.len(), 1);
    assert!(fs.inodes.get(ROOT_ID).is_some());
}

#[test]
fn lookup_twice_needs_two_forgets() {
    // A second lookup of the same file raises the refcount instead of
    // duplicating the entry; the store is balanced only after both
    // references are forgotten.
    let mut fs = mounted_fs(Config::default());
    let x1 = fs.do_lookup(ROOT_ID, b"x".to_vec(), host(10, 101)).unwrap().inode;
    let x2 = fs.do_lookup(ROOT_ID, b"x".to_vec(), host(13, 101)).unwrap().inode;
    assert_eq!(x1, x2);
    assert_eq!(fs.inodes.get(x1).unwrap().refcount, 2);
    fs.forget(x1, 1);
    assert!(fs.inodes.get(x1).is_some());
    fs.forget(x1, 1);
    assert!(fs.inodes.get(x1).is_none());
}

#[test]
fn rename_updates_migration_info() {
    // With migration preparation active, create /x, rename to /y, and the
    // serialized location must read Path(root, "y").
    let mut fs = mounted_fs(Config::default());
    fs.prepare_migration_begin();
    let x = fs.do_lookup(ROOT_ID, b"x".to_vec(), host(10, 101)).unwrap().inode;
    fs.note_renamed(ROOT_ID, b"y".to_vec(), host(14, 101)).unwrap();
    let SerializedFs::V1(state) = fs.serialize_state().unwrap();
    let rec = state.inodes.iter().find(|r| r.id == x).unwrap();
    match &rec.location {
        SerializedLocation::Path { parent, filename } => {
            assert_eq!(*parent, ROOT_ID);
            assert_eq!(filename, b"y");
        }
        other => panic!("unexpected location {:?}", other),
    }
}

#[test]
fn mid_walk_create_is_serialized() {
    // Start migration preparation; a file created while the walker runs
    // still appears in the stream with a valid Path(root, "new") location.
    let mut fs = mounted_fs(Config::default());
    fs.prepare_migration_begin();
    // The walker is "running": it has visited the root but not finished.
    let newfile = fs.do_lookup(ROOT_ID, b"new".to_vec(), host(10, 101)).unwrap().inode;
    let SerializedFs::V1(state) = fs.serialize_state().unwrap();
    let rec = state.inodes.iter().find(|r| r.id == newfile).unwrap();
    match &rec.location {
        SerializedLocation::Path { parent, filename } => {
            assert_eq!(*parent, ROOT_ID);
            assert_eq!(filename, b"new");
        }
        other => panic!("unexpected location {:?}", other),
    }
}

#[test]
fn walker_discovers_and_releases() {
    // The walker matches a looked-up file against the store and attaches
    // its location; a directory it had to create transiently disappears
    // again once released.
    let mut fs = mounted_fs(Config::default());
    let f = fs.do_lookup(ROOT_ID, b"f".to_vec(), host(10, 101)).unwrap().inode;
    fs.prepare_migration_begin();
    // Walker sees an untracked subdirectory first.
    let sub = fs
        .walk_discover(ROOT_ID, b"sub".to_vec(), dir_host(11, 102))
        .unwrap()
        .expect("directories are returned for recursion");
    // Inside it, nothing matches; the walker then finds /f in the root.
    let none = fs.walk_discover(sub, b"junk".to_vec(), host(12, 103)).unwrap();
    assert!(none.is_none());
    let hit = fs.walk_discover(ROOT_ID, b"f".to_vec(), host(13, 101)).unwrap();
    assert!(hit.is_none(), "files are not returned for recursion");
    fs.walk_release(sub);
    // The transient subdirectory dropped back out of the store.
    assert!(fs.inodes.get(sub).is_none());
    let SerializedFs::V1(state) = fs.serialize_state().unwrap();
    let rec = state.inodes.iter().find(|r| r.id == f).unwrap();
    match &rec.location {
        SerializedLocation::Path { parent, filename } => {
            assert_eq!(*parent, ROOT_ID);
            assert_eq!(filename, b"f");
        }
        other => panic!("unexpected location {:?}", other),
    }
}

#[test]
fn handle_reopen_flags_on_destination() {
    // Open /f with O_RDWR | O_CREAT | O_EXCL | O_TRUNC on the source;
    // after migration the handle record holds O_RDWR alone, and the
    // destination reopens with exactly those (sanitized) flags.
    let mut fs = mounted_fs(Config::default());
    let f = fs.do_lookup(ROOT_ID, b"f".to_vec(), host(10, 101)).unwrap().inode;
    let guest_flags =
        flags::O_RDWR | flags::O_CREAT | flags::O_EXCL | flags::O_TRUNC;
    let handle = fs.register_handle(f, 20, guest_flags).unwrap();
    // Prepare for migration: the walker finds /f and attaches its location.
    fs.prepare_migration_begin();
    fs.walk_discover(ROOT_ID, b"f".to_vec(), host(15, 101)).unwrap();
    let SerializedFs::V1(state) = fs.serialize_state().unwrap();
    let hrec = state.handles.iter().find(|h| h.id == handle).unwrap();
    assert_eq!(hrec.flags, flags::O_RDWR);
    assert_eq!(hrec.inode, f);

    // Destination side.
    let bytes = passthrough_fs::codec::encode_fs(&SerializedFs::V1(state));
    let mut dst = PassthroughFs::new(Config::default());
    let mut d = Deserializer::begin(&mut dst, &bytes).unwrap();
    run_inode_passes(&mut d, &mut dst);
    let reopen = d.next_handle_flags(&dst);
    assert_eq!(reopen & flags::O_ACCMODE, flags::O_RDWR);
    assert_eq!(reopen & flags::O_CREAT, 0);
    assert_eq!(reopen & flags::O_EXCL, 0);
    assert_eq!(reopen & flags::O_TRUNC, 0);
    d.apply_handle(&mut dst, Ok(21)).unwrap();
    d.finish(&mut dst).unwrap();
    assert!(dst.handles.find_if_inode_matches(handle, f).is_some());
}

/// Drive the machine's inode passes with synthetic host outcomes: every
/// path opens successfully, under fresh host identities.
fn run_inode_passes(d: &mut Deserializer, dst: &mut PassthroughFs) {
    let mut next_fd = 100;
    let mut next_ino = 1000;
    loop {
        if d.pending.is_empty() {
            break;
        }
        let mut progress = false;
        let mut i = 0;
        while i < d.pending.len() {
            match d.classify(dst, i) {
                RecordNeed::Deferred => {
                    i += 1;
                }
                RecordNeed::NeedsRoot => {
                    d.apply_root(dst, i, dir_host(3, 100)).unwrap();
                    progress = true;
                }
                RecordNeed::NeedsOpen { parent: _ } => {
                    next_fd += 1;
                    next_ino += 1;
                    d.apply_path(dst, i, Ok(host(next_fd, next_ino))).unwrap();
                    progress = true;
                }
                RecordNeed::Lost => {
                    d.apply_lost(dst, i).unwrap();
                    progress = true;
                }
            }
        }
        assert!(progress, "unresolved references between serialized inodes");
    }
}

#[test]
fn migration_round_trip_preserves_ids_and_refcounts() {
    // Serialize a prepared state, decode it on a fresh instance, restore
    // with consistent host outcomes: every source inode is present with
    // the guest-visible refcount, and the counters and options carry over.
    let mut cfg = Config::default();
    cfg.writeback = true;
    let mut fs = mounted_fs(cfg.clone());
    fs.init(passthrough_fs::fs::OPT_WRITEBACK_CACHE).unwrap();
    fs.open_root_node(dir_host(3, 100)).unwrap();
    fs.prepare_migration_begin();
    let a = fs.do_lookup(ROOT_ID, b"a".to_vec(), dir_host(10, 101)).unwrap().inode;
    let b = fs.do_lookup(a, b"b".to_vec(), host(11, 102)).unwrap().inode;
    let _ = fs.do_lookup(ROOT_ID, b"a".to_vec(), dir_host(12, 101)).unwrap();
    // a now has two guest references (plus b's parent-chain reference).
    let h = fs.register_handle(b, 21, flags::O_RDONLY).unwrap();

    let state = fs.serialize_state().unwrap();
    let bytes = passthrough_fs::codec::encode_fs(&state);

    let mut dst = PassthroughFs::new(cfg);
    let mut d = Deserializer::begin(&mut dst, &bytes).unwrap();
    run_inode_passes(&mut d, &mut dst);
    d.apply_handle(&mut dst, Ok(50)).unwrap();
    d.finish(&mut dst).unwrap();

    assert!(dst.writeback);
    assert_eq!(dst.next_inode, fs.next_inode);
    assert_eq!(dst.next_handle, fs.next_handle);
    // Guest-visible refcounts: a was looked up twice, b once (the handle's
    // reference travels inside the serialized count and stays).
    assert_eq!(dst.inodes.get(a).unwrap().refcount, 2);
    assert_eq!(dst.inodes.get(b).unwrap().refcount, 2);
    assert!(dst.inodes.get(ROOT_ID).is_some());
    assert!(dst.handles.find_if_inode_matches(h, b).is_some());
}

#[test]
fn lost_inode_policy_guest_error() {
    // The source lost /g (no migration info was found for it); with the
    // guest-error policy the restore succeeds, operations on /g return the
    // stored error, and other files keep working.
    let mut fs = mounted_fs(Config::default());
    // No migration preparation ran for /g, so it is serialized as lost.
    let g = fs.do_lookup(ROOT_ID, b"g".to_vec(), host(10, 101)).unwrap().inode;
    let state = fs.serialize_state().unwrap();
    let bytes = passthrough_fs::codec::encode_fs(&state);

    let mut cfg = Config::default();
    cfg.migration_on_error = MigrationOnError::GuestError;
    let mut dst = PassthroughFs::new(cfg);
    let mut d = Deserializer::begin(&mut dst, &bytes).unwrap();
    run_inode_passes(&mut d, &mut dst);
    d.finish(&mut dst).unwrap();

    let err = dst.get_file(g).unwrap_err();
    assert_eq!(err.kind, ErrorKind::NotFound);
    assert!(dst.get_file(ROOT_ID).is_ok());
}

#[test]
fn lost_inode_policy_abort() {
    // Same stream under the abort policy: the restore fails with a
    // migration abort.
    let mut fs = mounted_fs(Config::default());
    let _g = fs.do_lookup(ROOT_ID, b"g".to_vec(), host(10, 101)).unwrap().inode;
    let state = fs.serialize_state().unwrap();
    let bytes = passthrough_fs::codec::encode_fs(&state);

    let mut dst = PassthroughFs::new(Config::default());
    assert_eq!(dst.cfg.migration_on_error, MigrationOnError::Abort);
    let mut d = Deserializer::begin(&mut dst, &bytes).unwrap();
    let mut aborted = false;
    let mut i = 0;
    while i < d.pending.len() {
        match d.classify(&dst, i) {
            RecordNeed::NeedsRoot => {
                d.apply_root(&mut dst, i, dir_host(3, 100)).unwrap();
            }
            RecordNeed::Lost => {
                let err = d.apply_lost(&mut dst, i).unwrap_err();
                assert_eq!(err.kind, ErrorKind::MigrationAbort);
                aborted = true;
                i += 1;
            }
            _ => {
                i += 1;
            }
        }
    }
    assert!(aborted);
}

#[test]
fn destroy_is_idempotent() {
    // destroy; destroy leaves the same state as one destroy, with no
    // descriptors referenced.
    let mut fs = mounted_fs(Config::default());
    let f = fs.do_lookup(ROOT_ID, b"f".to_vec(), host(10, 101)).unwrap().inode;
    fs.register_handle(f, 20, flags::O_RDONLY).unwrap();
    fs.destroy();
    let inodes_after_one = fs.inodes.len();
    let handles_after_one = fs.handles.len();
    let next_inode_after_one = fs.next_inode;
    fs.destroy();
    assert_eq!(fs.inodes.len(), inodes_after_one);
    assert_eq!(fs.handles.len(), handles_after_one);
    assert_eq!(fs.next_inode, next_inode_after_one);
    assert_eq!(fs.inodes.len(), 0);
    assert_eq!(fs.handles.len(), 0);
    // A later re-init force-wipes and mounts again.
    fs.init(0).unwrap();
    fs.open_root_node(dir_host(3, 100)).unwrap();
    assert!(fs.inodes.get(ROOT_ID).is_some());
}

#[test]
fn writeback_conflict_aborts_restore() {
    // The source negotiated writeback; a destination configured without
    // it cannot be forced on and aborts.
    let mut cfg = Config::default();
    cfg.writeback = true;
    let mut fs = PassthroughFs::new(cfg);
    fs.init(passthrough_fs::fs::OPT_WRITEBACK_CACHE).unwrap();
    fs.open_root_node(dir_host(3, 100)).unwrap();
    let state = fs.serialize_state().unwrap();
    let bytes = passthrough_fs::codec::encode_fs(&state);

    let mut dst = PassthroughFs::new(Config::default());
    let err = Deserializer::begin(&mut dst, &bytes).unwrap_err();
    assert_eq!(err.kind, ErrorKind::MigrationAbort);
}
