//! Open-flag sanitation and mode-bit logic.
//!
//! The server never hands the host an `O_APPEND` open (append is applied
//! per-write instead, because the guest may share the file across VMs),
//! drops `O_NOATIME` unless configured to preserve it, drops `O_DIRECT`
//! unless direct I/O is allowed, and promotes write-only opens to read-write
//! when writeback caching is negotiated (the kernel may read from a
//! write-only file to fill its cache).

use vstd::prelude::*;

verus! {

pub const O_RDONLY: u32 = 0;
pub const O_WRONLY: u32 = 1;
pub const O_RDWR: u32 = 2;
pub const O_ACCMODE: u32 = 3;
pub const O_CREAT: u32 = 0o100;
pub const O_EXCL: u32 = 0o200;
pub const O_TRUNC: u32 = 0o1000;
pub const O_APPEND: u32 = 0o2000;
pub const O_DIRECT: u32 = 0o40000;
pub const O_DIRECTORY: u32 = 0o200000;
pub const O_NOFOLLOW: u32 = 0o400000;
pub const O_CLOEXEC: u32 = 0o2000000;
pub const O_NOATIME: u32 = 0o1000000;
pub const O_PATH: u32 = 0o10000000;

pub const S_IFMT: u32 = 0o170000;
pub const S_IFREG: u32 = 0o100000;
pub const S_IFDIR: u32 = 0o40000;

/// FUSE open-reply option bits.
pub const FOPEN_DIRECT_IO: u32 = 1;
pub const FOPEN_KEEP_CACHE: u32 = 2;
pub const FOPEN_CACHE_DIR: u32 = 8;

/// The flags actually given to the host when opening an inode on behalf of
/// the guest, as a function of the guest's flags and the negotiated state.
pub open spec fn sanitized_flags_spec(
    flags: u32,
    writeback: bool,
    clean_noatime: bool,
    allow_direct_io: bool,
) -> u32 {
    let f1 = flags & !O_APPEND;
    let f2 = if clean_noatime { f1 & !O_NOATIME } else { f1 };
    let f3 = if !allow_direct_io { f2 & !O_DIRECT } else { f2 };
    let f4 = if writeback && f3 & O_ACCMODE == O_WRONLY {
        (f3 & !O_ACCMODE) | O_RDWR
    } else {
        f3
    };
    f4 | O_CLOEXEC
}

/// Sanitize the guest's open flags before they are given to the host.
///
/// Never passes `O_APPEND` through; passes `O_DIRECT` through only when
/// direct I/O is allowed; passes `O_NOATIME` through only when the
/// preserve-noatime switch is on; and, under writeback caching, promotes
/// `O_WRONLY` to `O_RDWR`.
pub fn sanitize_open_flags(
    flags: u32,
    writeback: bool,
    clean_noatime: bool,
    allow_direct_io: bool,
) -> (r: u32)
    ensures
        r == sanitized_flags_spec(flags, writeback, clean_noatime, allow_direct_io),
        r & O_APPEND == 0,
        (r & O_DIRECT != 0) <==> (allow_direct_io && flags & O_DIRECT != 0),
        (r & O_NOATIME != 0) <==> (!clean_noatime && flags & O_NOATIME != 0),
        writeback ==> r & O_ACCMODE != O_WRONLY,
        (writeback && flags & O_ACCMODE == O_WRONLY) ==> r & O_ACCMODE == O_RDWR,
        !(writeback && flags & O_ACCMODE == O_WRONLY) ==> r & O_ACCMODE == flags & O_ACCMODE,
        r & O_CLOEXEC != 0,
        r & O_TRUNC == flags & O_TRUNC,
        r & O_DIRECTORY == flags & O_DIRECTORY,
{
    let mut f = flags & !O_APPEND;
    if clean_noatime {
        f = f & !O_NOATIME;
    }
    if !allow_direct_io {
        f = f & !O_DIRECT;
    }
    if writeback && f & O_ACCMODE == O_WRONLY {
        f = (f & !O_ACCMODE) | O_RDWR;
    }
    let r = f | O_CLOEXEC;
    proof {
        let f1 = flags & !O_APPEND;
        let f2 = if clean_noatime { f1 & !O_NOATIME } else { f1 };
        let f3 = if !allow_direct_io { f2 & !O_DIRECT } else { f2 };
        let f4 = if writeback && f3 & O_ACCMODE == O_WRONLY {
            (f3 & !O_ACCMODE) | O_RDWR
        } else {
            f3
        };
        assert(f4 | O_CLOEXEC == r);
        lemma_sanitize_bits(flags, f1, f2, f3, f4, clean_noatime, allow_direct_io, writeback);
    }
    r
}

/// Bit-level facts behind `sanitize_open_flags`'s contract.
proof fn lemma_sanitize_bits(
    flags: u32,
    f1: u32,
    f2: u32,
    f3: u32,
    f4: u32,
    clean_noatime: bool,
    allow_direct_io: bool,
    writeback: bool,
)
    requires
        f1 == flags & !O_APPEND,
        f2 == if clean_noatime { f1 & !O_NOATIME } else { f1 },
        f3 == if !allow_direct_io { f2 & !O_DIRECT } else { f2 },
        f4 == if writeback && f3 & O_ACCMODE == O_WRONLY {
            (f3 & !O_ACCMODE) | O_RDWR
        } else {
            f3
        },
    ensures
        (f4 | O_CLOEXEC) & O_APPEND == 0,
        ((f4 | O_CLOEXEC) & O_DIRECT != 0) <==> (allow_direct_io && flags & O_DIRECT != 0),
        ((f4 | O_CLOEXEC) & O_NOATIME != 0) <==> (!clean_noatime && flags & O_NOATIME != 0),
        writeback ==> (f4 | O_CLOEXEC) & O_ACCMODE != O_WRONLY,
        (writeback && flags & O_ACCMODE == O_WRONLY) ==> (f4 | O_CLOEXEC) & O_ACCMODE
            == O_RDWR,
        !(writeback && flags & O_ACCMODE == O_WRONLY) ==> (f4 | O_CLOEXEC) & O_ACCMODE == flags
            & O_ACCMODE,
        (f4 | O_CLOEXEC) & O_CLOEXEC != 0,
        (f4 | O_CLOEXEC) & O_TRUNC == flags & O_TRUNC,
        (f4 | O_CLOEXEC) & O_DIRECTORY == flags & O_DIRECTORY,
{
    assert((f4 | 0o2000000u32) & 0o2000u32 == 0 && ((f4 | 0o2000000u32) & 0o40000u32 != 0
        <==> (allow_direct_io && flags & 0o40000u32 != 0)) && ((f4 | 0o2000000u32)
        & 0o1000000u32 != 0 <==> (!clean_noatime && flags & 0o1000000u32 != 0)) && (writeback
        ==> (f4 | 0o2000000u32) & 3u32 != 1u32) && ((writeback && flags & 3u32 == 1u32) ==> (f4
        | 0o2000000u32) & 3u32 == 2u32) && (!(writeback && flags & 3u32 == 1u32) ==> (f4
        | 0o2000000u32) & 3u32 == flags & 3u32) && (f4 | 0o2000000u32) & 0o2000000u32 != 0 && (
        f4 | 0o2000000u32) & 0o1000u32 == flags & 0o1000u32 && (f4 | 0o2000000u32) & 0o200000u32
        == flags & 0o200000u32) by (bit_vector)
        requires
            f1 == flags & !0o2000u32,
            f2 == if clean_noatime { f1 & !0o1000000u32 } else { f1 },
            f3 == if !allow_direct_io { f2 & !0o40000u32 } else { f2 },
            f4 == if writeback && f3 & 3u32 == 1u32 { (f3 & !3u32) | 2u32 } else { f3 },
    ;
}

/// The `open(2)`-style flags recorded in a handle's migration info: the
/// guest's flags with `O_CREAT | O_EXCL | O_TRUNC` stripped, so that
/// re-opening the handle on a migration destination neither creates nor
/// truncates the file.
pub fn strip_handle_reopen_flags(flags: u32) -> (r: u32)
    ensures
        r == flags & !(O_CREAT | O_EXCL | O_TRUNC),
        r & O_CREAT == 0,
        r & O_EXCL == 0,
        r & O_TRUNC == 0,
        r & O_ACCMODE == flags & O_ACCMODE,
        r & O_APPEND == flags & O_APPEND,
{
    let r = flags & !(O_CREAT | O_EXCL | O_TRUNC);
    proof {
        assert(flags & !(0o100u32 | 0o200u32 | 0o1000u32) & 0o100u32 == 0 && flags & !(0o100u32
            | 0o200u32 | 0o1000u32) & 0o200u32 == 0 && flags & !(0o100u32 | 0o200u32
            | 0o1000u32) & 0o1000u32 == 0 && flags & !(0o100u32 | 0o200u32 | 0o1000u32) & 3u32
            == flags & 3u32 && flags & !(0o100u32 | 0o200u32 | 0o1000u32) & 0o2000u32 == flags
            & 0o2000u32) by (bit_vector);
    }
    r
}

/// The flags handed to the host for a guest `create`: the guest's flags with
/// `O_APPEND` stripped, plus `O_CREAT | O_EXCL` (exclusive creation, so the
/// server never accidentally opens a file the guest could not have created).
pub fn create_host_flags(flags: u32) -> (r: u32)
    ensures
        r == (flags & !O_APPEND) | O_CREAT | O_EXCL,
        r & O_APPEND == 0,
        r & O_CREAT != 0,
        r & O_EXCL != 0,
{
    let r = (flags & !O_APPEND) | O_CREAT | O_EXCL;
    proof {
        assert(((flags & !0o2000u32) | 0o100u32 | 0o200u32) & 0o2000u32 == 0 && ((flags
            & !0o2000u32) | 0o100u32 | 0o200u32) & 0o100u32 != 0 && ((flags & !0o2000u32)
            | 0o100u32 | 0o200u32) & 0o200u32 != 0) by (bit_vector);
    }
    r
}

/// Flags for opening a path relative to a directory: the caller's flags plus
/// `O_NOFOLLOW | O_CLOEXEC` (no symlink at the final component, and never
/// leak the descriptor across exec).
pub fn relative_open_flags(flags: u32) -> (r: u32)
    ensures
        r == flags | O_NOFOLLOW | O_CLOEXEC,
{
    flags | O_NOFOLLOW | O_CLOEXEC
}

/// Whether a write must be performed in host append mode: only when the
/// guest opened the file with `O_APPEND` and this is not a delayed
/// (writeback) write, because for delayed writes the guest kernel supplies
/// the correct offset itself.
pub fn write_uses_append(delayed_write: bool, open_flags: u32) -> (r: bool)
    ensures
        r == (!delayed_write && open_flags & O_APPEND != 0),
{
    !delayed_write && open_flags & O_APPEND != 0
}

/// True if it is safe to open this inode without `O_PATH`: only regular
/// files and directories may be opened directly by the file server.
pub fn is_safe_inode(mode: u32) -> (r: bool)
    ensures
        r == (mode & S_IFMT == S_IFREG || mode & S_IFMT == S_IFDIR),
{
    mode & S_IFMT == S_IFREG || mode & S_IFMT == S_IFDIR
}

/// Unix permission check mirroring `access(2)` semantics, evaluated against
/// the caller's credentials and the file's stat fields.  `mask` holds the
/// requested `R_OK | W_OK | X_OK` bits (4, 2, 1); a zero mask is `F_OK`,
/// which succeeds because the file was already found.
pub fn check_access(uid: u32, gid: u32, st_uid: u32, st_gid: u32, st_mode: u32, mask: u32) -> (r:
    Result<(), crate::error::FsError>)
    ensures
        r is Err ==> r->Err_0.kind == crate::error::ErrorKind::Os(13),
        r is Ok <==> !(((mask & 7) & 4 != 0 && uid != 0 && (st_uid != uid || st_mode & 0o400
            == 0) && (st_gid != gid || st_mode & 0o040 == 0) && st_mode & 0o004 == 0) || ((mask
            & 7) & 2 != 0 && uid != 0 && (st_uid != uid || st_mode & 0o200 == 0) && (st_gid
            != gid || st_mode & 0o020 == 0) && st_mode & 0o002 == 0) || ((mask & 7) & 1 != 0 && (
            uid != 0 || st_mode & 0o111 == 0) && (st_uid != uid || st_mode & 0o100 == 0) && (
            st_gid != gid || st_mode & 0o010 == 0) && st_mode & 0o001 == 0)),
{
    let mode = mask & 7;  // R_OK | W_OK | X_OK
    if mode == 0 {
        // F_OK: the file exists, since the caller was able to stat it.
        proof {
            assert(mask & 7 == 0 ==> (mask & 7) & 4 == 0 && (mask & 7) & 2 == 0 && (mask & 7)
                & 1 == 0) by (bit_vector);
        }
        return Ok(());
    }
    if mode & 4 != 0 && uid != 0 && (st_uid != uid || st_mode & 0o400 == 0) && (st_gid != gid
        || st_mode & 0o040 == 0) && st_mode & 0o004 == 0 {
        return Err(crate::error::FsError::new(crate::error::ErrorKind::Os(13)));
    }
    if mode & 2 != 0 && uid != 0 && (st_uid != uid || st_mode & 0o200 == 0) && (st_gid != gid
        || st_mode & 0o020 == 0) && st_mode & 0o002 == 0 {
        return Err(crate::error::FsError::new(crate::error::ErrorKind::Os(13)));
    }
    if mode & 1 != 0 && (uid != 0 || st_mode & 0o111 == 0) && (st_uid != uid || st_mode & 0o100
        == 0) && (st_gid != gid || st_mode & 0o010 == 0) && st_mode & 0o001 == 0 {
        return Err(crate::error::FsError::new(crate::error::ErrorKind::Os(13)));
    }
    Ok(())
}

} // verus!
