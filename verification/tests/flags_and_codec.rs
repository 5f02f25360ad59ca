//! Flag sanitation against the host's own constants, and byte-level codec
//! checks.

use passthrough_fs::codec;
use passthrough_fs::flags;
use passthrough_fs::wire::{
    NegotiatedOpts, SerializedFs, SerializedFsV1, SerializedHandle, SerializedInode,
    SerializedLocation,
};
use passthrough_fs::file_handle::SerializableFileHandle;

#[test]
fn flag_constants_match_host() {
    assert_eq!(flags::O_RDONLY, libc::O_RDONLY as u32);
    assert_eq!(flags::O_WRONLY, libc::O_WRONLY as u32);
    assert_eq!(flags::O_RDWR, libc::O_RDWR as u32);
    assert_eq!(flags::O_ACCMODE, libc::O_ACCMODE as u32);
    assert_eq!(flags::O_CREAT, libc::O_CREAT as u32);
    assert_eq!(flags::O_EXCL, libc::O_EXCL as u32);
    assert_eq!(flags::O_TRUNC, libc::O_TRUNC as u32);
    assert_eq!(flags::O_APPEND, libc::O_APPEND as u32);
    assert_eq!(flags::O_DIRECT, libc::O_DIRECT as u32);
    assert_eq!(flags::O_DIRECTORY, libc::O_DIRECTORY as u32);
    assert_eq!(flags::O_NOFOLLOW, libc::O_NOFOLLOW as u32);
    assert_eq!(flags::O_CLOEXEC, libc::O_CLOEXEC as u32);
    assert_eq!(flags::O_NOATIME, libc::O_NOATIME as u32);
    assert_eq!(flags::O_PATH, libc::O_PATH as u32);
    assert_eq!(flags::S_IFMT, libc::S_IFMT);
    assert_eq!(flags::S_IFREG, libc::S_IFREG);
    assert_eq!(flags::S_IFDIR, libc::S_IFDIR);
}

#[test]
fn sanitize_strips_append_always() {
    for &wb in &[false, true] {
        let r = flags::sanitize_open_flags(flags::O_WRONLY | flags::O_APPEND, wb, true, false);
        assert_eq!(r & flags::O_APPEND, 0);
    }
}

#[test]
fn sanitize_direct_io_iff_allowed() {
    let asked = flags::O_RDONLY | flags::O_DIRECT;
    let denied = flags::sanitize_open_flags(asked, false, true, false);
    assert_eq!(denied & flags::O_DIRECT, 0);
    let allowed = flags::sanitize_open_flags(asked, false, true, true);
    assert_ne!(allowed & flags::O_DIRECT, 0);
    let unasked = flags::sanitize_open_flags(flags::O_RDONLY, false, true, true);
    assert_eq!(unasked & flags::O_DIRECT, 0);
}

#[test]
fn sanitize_noatime_iff_preserved() {
    let asked = flags::O_RDONLY | flags::O_NOATIME;
    let cleaned = flags::sanitize_open_flags(asked, false, true, false);
    assert_eq!(cleaned & flags::O_NOATIME, 0);
    let kept = flags::sanitize_open_flags(asked, false, false, false);
    assert_ne!(kept & flags::O_NOATIME, 0);
}

#[test]
fn sanitize_promotes_wronly_under_writeback() {
    let r = flags::sanitize_open_flags(flags::O_WRONLY, true, true, false);
    assert_eq!(r & flags::O_ACCMODE, flags::O_RDWR);
    let untouched = flags::sanitize_open_flags(flags::O_WRONLY, false, true, false);
    assert_eq!(untouched & flags::O_ACCMODE, flags::O_WRONLY);
    let rd = flags::sanitize_open_flags(flags::O_RDONLY, true, true, false);
    assert_eq!(rd & flags::O_ACCMODE, flags::O_RDONLY);
}

#[test]
fn handle_reopen_strip() {
    let r = flags::strip_handle_reopen_flags(
        flags::O_RDWR | flags::O_CREAT | flags::O_EXCL | flags::O_TRUNC | flags::O_APPEND,
    );
    assert_eq!(r, flags::O_RDWR | flags::O_APPEND);
}

#[test]
fn write_append_mode() {
    assert!(flags::write_uses_append(false, flags::O_WRONLY | flags::O_APPEND));
    assert!(!flags::write_uses_append(true, flags::O_WRONLY | flags::O_APPEND));
    assert!(!flags::write_uses_append(false, flags::O_WRONLY));
}

#[test]
fn safe_inode_types() {
    assert!(flags::is_safe_inode(0o100644));
    assert!(flags::is_safe_inode(0o40755));
    assert!(!flags::is_safe_inode(0o120777)); // symlink
    assert!(!flags::is_safe_inode(0o10644)); // fifo
}

#[test]
fn access_checks() {
    // Owner read allowed, other-write denied, root passes.
    assert!(flags::check_access(1000, 1000, 1000, 1000, 0o100400, 4).is_ok());
    assert!(flags::check_access(1001, 1001, 1000, 1000, 0o100640, 2).is_err());
    assert!(flags::check_access(0, 0, 1000, 1000, 0o100640, 6).is_ok());
    // F_OK: existence only.
    assert!(flags::check_access(1001, 1001, 1000, 1000, 0o100000, 0).is_ok());
    // Execute for root still needs some x bit.
    assert!(flags::check_access(0, 0, 1000, 1000, 0o100644, 1).is_err());
    assert!(flags::check_access(0, 0, 1000, 1000, 0o100755, 1).is_ok());
    let e = flags::check_access(1001, 1001, 1000, 1000, 0o100600, 4).unwrap_err();
    assert_eq!(e.kind, passthrough_fs::error::ErrorKind::Os(libc::EACCES));
}

fn sample_state() -> SerializedFs {
    SerializedFs::V1(SerializedFsV1 {
        inodes: vec![
            SerializedInode {
                id: 1,
                refcount: 2,
                location: SerializedLocation::RootNode,
                file_handle: None,
            },
            SerializedInode {
                id: 5,
                refcount: 1,
                location: SerializedLocation::Path {
                    parent: 1,
                    filename: b"etc".to_vec(),
                },
                file_handle: Some(SerializableFileHandle {
                    mnt_id: 3,
                    handle_type: 1,
                    handle: vec![0xde, 0xad, 0xbe, 0xef],
                }),
            },
            SerializedInode {
                id: 9,
                refcount: 300,
                location: SerializedLocation::Invalid,
                file_handle: None,
            },
            SerializedInode {
                id: 12,
                refcount: 7,
                location: SerializedLocation::FullPath {
                    filename: b"a/b/c".to_vec(),
                },
                file_handle: None,
            },
        ],
        next_inode: 13,
        handles: vec![SerializedHandle {
            id: 0,
            inode: 5,
            flags: 2,
        }],
        next_handle: 1,
        negotiated_opts: NegotiatedOpts {
            writeback: true,
            announce_submounts: false,
            posix_acl: true,
            sup_group_extension: false,
        },
    })
}

#[test]
fn stream_round_trip() {
    let state = sample_state();
    let bytes = codec::encode_fs(&state);
    let back = codec::decode_fs(&bytes).expect("own encoding must decode");
    let SerializedFs::V1(orig) = state;
    let SerializedFs::V1(got) = back;
    assert_eq!(got.next_inode, orig.next_inode);
    assert_eq!(got.next_handle, orig.next_handle);
    assert_eq!(got.negotiated_opts, orig.negotiated_opts);
    assert_eq!(got.handles, orig.handles);
    assert_eq!(got.inodes.len(), orig.inodes.len());
    for (a, b) in got.inodes.iter().zip(orig.inodes.iter()) {
        assert_eq!(a.id, b.id);
        assert_eq!(a.refcount, b.refcount);
        match (&a.location, &b.location) {
            (SerializedLocation::RootNode, SerializedLocation::RootNode) => {}
            (SerializedLocation::Invalid, SerializedLocation::Invalid) => {}
            (
                SerializedLocation::Path { parent: p1, filename: f1 },
                SerializedLocation::Path { parent: p2, filename: f2 },
            ) => {
                assert_eq!(p1, p2);
                assert_eq!(f1, f2);
            }
            (
                SerializedLocation::FullPath { filename: f1 },
                SerializedLocation::FullPath { filename: f2 },
            ) => assert_eq!(f1, f2),
            other => panic!("location mismatch {:?}", other),
        }
        match (&a.file_handle, &b.file_handle) {
            (None, None) => {}
            (Some(x), Some(y)) => {
                assert_eq!(x.mnt_id, y.mnt_id);
                assert_eq!(x.handle_type, y.handle_type);
                assert_eq!(x.handle, y.handle);
            }
            other => panic!("file handle mismatch {:?}", other),
        }
    }
}

#[test]
fn varint_boundaries_round_trip() {
    for &x in &[0u64, 1, 127, 128, 129, 300, 16383, 16384, u64::MAX - 1, u64::MAX] {
        let mut buf: Vec<u8> = Vec::new();
        codec::encode_u64(&mut buf, x);
        let (v, used) = codec::decode_u64(&buf, 0).unwrap();
        assert_eq!(v, x);
        assert_eq!(used, buf.len());
    }
    let mut buf: Vec<u8> = Vec::new();
    codec::encode_u64(&mut buf, 300);
    assert_eq!(buf, vec![0xac, 0x02]);
}

#[test]
fn truncated_stream_is_rejected() {
    let state = sample_state();
    let bytes = codec::encode_fs(&state);
    let mut cut = bytes.clone();
    cut.truncate(bytes.len() - 1);
    assert!(codec::decode_fs(&cut).is_none());
}

#[test]
fn unknown_version_is_rejected() {
    let state = sample_state();
    let mut bytes = codec::encode_fs(&state);
    bytes[0] = 2; // future version tag
    assert!(codec::decode_fs(&bytes).is_none());
}

#[test]
fn trailing_bytes_are_tolerated() {
    let state = sample_state();
    let mut bytes = codec::encode_fs(&state);
    bytes.push(0xff);
    assert!(codec::decode_fs(&bytes).is_some());
}
