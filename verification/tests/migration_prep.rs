//! Path confirmation at serialization, the end of migration tracking, the
//! handle-generation disposition, and the mandatory-handle rule on the
//! restored root.

use passthrough_fs::config::Config;
use passthrough_fs::error::ErrorKind;
use passthrough_fs::file_handle::{handle_gen_outcome, FileHandle};
use passthrough_fs::fs::{LookupHost, PassthroughFs};
use passthrough_fs::restore::{Deserializer, RecordNeed};
use passthrough_fs::serialize::{confirm_outcome, PathConfirmOutcome};
use passthrough_fs::store::{InodeIds, ROOT_ID};
use passthrough_fs::wire::{SerializedFs, SerializedInode, SerializedLocation};

fn host(fd: i32, ino: u64) -> LookupHost {
    LookupHost {
        fd,
        ids: InodeIds {
            ino,
            dev: 7,
            mnt_id: 1,
        },
        mode: 0o100644,
        handle: None,
        serializable_handle: None,
    }
}

fn dir_host(fd: i32, ino: u64) -> LookupHost {
    LookupHost {
        mode: 0o40755,
        ..host(fd, ino)
    }
}

#[test]
fn confirm_paths_fallback_flow() {
    // With path confirmation configured, the plain serializer refuses and
    // the confirmed one applies the cross-check conclusions: a confirmed
    // inode keeps its Path record, a relocated one becomes a FullPath
    // record, a lost one is emitted Invalid.
    let mut cfg = Config::default();
    cfg.migration_confirm_paths = true;
    let mut fs = PassthroughFs::new(cfg);
    fs.init(0).unwrap();
    fs.open_root_node(dir_host(3, 100)).unwrap();
    fs.prepare_migration_begin();
    let kept = fs.do_lookup(ROOT_ID, b"kept".to_vec(), host(10, 101)).unwrap().inode;
    let moved = fs.do_lookup(ROOT_ID, b"moved".to_vec(), host(11, 102)).unwrap().inode;
    let gone = fs.do_lookup(ROOT_ID, b"gone".to_vec(), host(12, 103)).unwrap().inode;

    let refused = fs.serialize_state().unwrap_err();
    assert_eq!(refused.kind, ErrorKind::Other);

    // One conclusion per store position (root, kept, moved, gone).
    let mut outcomes: Vec<PathConfirmOutcome> = Vec::new();
    for i in 0..fs.inodes.len() {
        let id = fs.inodes.entry_at(i).inode;
        if id == kept || id == ROOT_ID {
            outcomes.push(confirm_outcome(true, None, false));
        } else if id == moved {
            outcomes.push(confirm_outcome(false, Some(b"attic/moved".to_vec()), true));
        } else {
            assert_eq!(id, gone);
            outcomes.push(confirm_outcome(false, None, false));
        }
    }
    let SerializedFs::V1(state) = fs.serialize_state_confirmed(&outcomes).unwrap();

    let kept_rec = state.inodes.iter().find(|r| r.id == kept).unwrap();
    match &kept_rec.location {
        SerializedLocation::Path { parent, filename } => {
            assert_eq!(*parent, ROOT_ID);
            assert_eq!(filename, b"kept");
        }
        other => panic!("unexpected location {:?}", other),
    }
    let moved_rec = state.inodes.iter().find(|r| r.id == moved).unwrap();
    match &moved_rec.location {
        SerializedLocation::FullPath { filename } => assert_eq!(filename, b"attic/moved"),
        other => panic!("unexpected location {:?}", other),
    }
    let gone_rec = state.inodes.iter().find(|r| r.id == gone).unwrap();
    assert!(matches!(gone_rec.location, SerializedLocation::Invalid));
    assert_eq!(gone_rec.refcount, 1);
    assert!(gone_rec.file_handle.is_none());

    // The relocated record restores under the root on the destination.
    let bytes = passthrough_fs::codec::encode_fs(&SerializedFs::V1(state));
    let mut dcfg = Config::default();
    dcfg.migration_on_error = passthrough_fs::config::MigrationOnError::GuestError;
    let mut dst = PassthroughFs::new(dcfg);
    let mut d = Deserializer::begin(&mut dst, &bytes).unwrap();
    let mut next_fd = 50;
    let mut next_ino = 500;
    let mut saw_full_path_under_root = false;
    while !d.pending.is_empty() {
        let mut progress = false;
        let mut i = 0;
        while i < d.pending.len() {
            match d.classify(&dst, i) {
                RecordNeed::Deferred => i += 1,
                RecordNeed::NeedsRoot => {
                    d.apply_root(&mut dst, i, dir_host(3, 100)).unwrap();
                    progress = true;
                }
                RecordNeed::NeedsOpen { parent } => {
                    if d.record_at(i).id == moved {
                        assert_eq!(parent, ROOT_ID);
                        saw_full_path_under_root = true;
                    }
                    next_fd += 1;
                    next_ino += 1;
                    d.apply_path(&mut dst, i, Ok(host(next_fd, next_ino))).unwrap();
                    progress = true;
                }
                RecordNeed::Lost => {
                    d.apply_lost(&mut dst, i).unwrap();
                    progress = true;
                }
            }
        }
        assert!(progress);
    }
    d.finish(&mut dst).unwrap();
    assert!(saw_full_path_under_root);
    assert!(dst.get_file(kept).is_ok());
    assert!(dst.get_file(moved).is_ok());
    assert_eq!(dst.get_file(gone).unwrap_err().kind, ErrorKind::NotFound);
}

#[test]
fn end_of_tracking_releases_prepared_info() {
    // After serialization, ending migration tracking clears every prepared
    // location (the root keeps its permanent one) and releases the parent
    // references those locations held.
    let mut fs = PassthroughFs::new(Config::default());
    fs.init(0).unwrap();
    fs.open_root_node(dir_host(3, 100)).unwrap();
    fs.prepare_migration_begin();
    let f = fs.do_lookup(ROOT_ID, b"f".to_vec(), host(10, 101)).unwrap().inode;
    // Root: 2 at mount + 1 held by f's location.
    assert_eq!(fs.inodes.get(ROOT_ID).unwrap().refcount, 3);
    fs.serialize_state().unwrap();
    fs.end_migration_tracking();
    assert!(!fs.track_migration_info);
    assert!(fs.inodes.get(f).unwrap().migration_info.is_none());
    assert!(fs.inodes.get(ROOT_ID).unwrap().migration_info.is_some());
    assert_eq!(fs.inodes.get(ROOT_ID).unwrap().refcount, 2);
    // A lookup after the end of tracking attaches no migration info.
    let g = fs.do_lookup(ROOT_ID, b"g".to_vec(), host(11, 102)).unwrap().inode;
    assert!(fs.inodes.get(g).unwrap().migration_info.is_none());
}

#[test]
fn transient_walker_parent_released_at_end() {
    // A directory the walker created only to reach descendants is kept
    // alive by its child's location; ending tracking releases the chain
    // and the transient entry disappears.
    let mut fs = PassthroughFs::new(Config::default());
    fs.init(0).unwrap();
    fs.open_root_node(dir_host(3, 100)).unwrap();
    let deep = fs.do_lookup(ROOT_ID, b"deep".to_vec(), host(10, 101)).unwrap().inode;
    fs.prepare_migration_begin();
    let sub = fs
        .walk_discover(ROOT_ID, b"sub".to_vec(), dir_host(11, 102))
        .unwrap()
        .unwrap();
    // The walker finds /deep inside the subdirectory and moves on.
    assert!(fs.walk_discover(sub, b"deep".to_vec(), host(12, 101)).unwrap().is_none());
    fs.walk_release(sub);
    // The subdirectory survives only through deep's location.
    assert_eq!(fs.inodes.get(sub).unwrap().refcount, 1);
    fs.serialize_state().unwrap();
    fs.end_migration_tracking();
    assert!(fs.inodes.get(sub).is_none(), "transient parent disappears");
    assert_eq!(fs.inodes.get(deep).unwrap().refcount, 1);
}

#[test]
fn handle_generation_disposition() {
    assert_eq!(passthrough_fs::file_handle::EOPNOTSUPP, libc::EOPNOTSUPP);
    assert_eq!(passthrough_fs::file_handle::EOVERFLOW, libc::EOVERFLOW);
    let fh = FileHandle {
        mnt_id: 1,
        handle_type: 1,
        handle: vec![1, 2],
    };
    let got = handle_gen_outcome(Ok(fh)).unwrap().unwrap();
    assert_eq!(got.handle, vec![1, 2]);
    // Permanent per-filesystem conditions mean "no handle", not failure.
    assert!(handle_gen_outcome(Err(libc::EOPNOTSUPP)).unwrap().is_none());
    assert!(handle_gen_outcome(Err(libc::EOVERFLOW)).unwrap().is_none());
    // Anything else propagates with its errno.
    let err = handle_gen_outcome(Err(libc::ENOENT)).unwrap_err();
    assert_eq!(err.kind, ErrorKind::Os(libc::ENOENT));
}

#[test]
fn restored_root_obeys_mandatory_handles() {
    // Under the mandatory file-handles mode, a destination cannot install
    // a descriptor-backed root.
    let mut cfg = Config::default();
    cfg.inode_file_handles = passthrough_fs::config::InodeFileHandlesMode::Mandatory;
    let mut dst = PassthroughFs::new(cfg);
    let mut d = Deserializer {
        pending: vec![SerializedInode {
            id: ROOT_ID,
            refcount: 2,
            location: SerializedLocation::RootNode,
            file_handle: None,
        }],
        handles: vec![],
        handle_cursor: 0,
        next_inode: 2,
        next_handle: 0,
    };
    let err = d.apply_root(&mut dst, 0, dir_host(3, 100)).unwrap_err();
    assert_eq!(err.kind, ErrorKind::MigrationAbort);
    assert!(dst.inodes.get(ROOT_ID).is_none());
}
