//! The guest-operation surface: option negotiation, open/release flows,
//! invalid placeholders, access through the core, and the setattr plan.

use passthrough_fs::config::{CachePolicy, Config};
use passthrough_fs::error::ErrorKind;
use passthrough_fs::flags;
use passthrough_fs::fs::{
    LookupHost, PassthroughFs, TimeChange, ATTR_SUBMOUNT, OPT_ACL_REQUIRED,
    OPT_CREATE_SUPP_GROUP, OPT_DO_READDIRPLUS, OPT_READDIRPLUS_AUTO, OPT_SECURITY_CTX,
    OPT_WRITEBACK_CACHE, SETATTR_ATIME, SETATTR_KILL_SUIDGID, SETATTR_MODE, SETATTR_MTIME_NOW,
    SETATTR_SIZE, SETATTR_UID,
};
use passthrough_fs::store::{InodeIds, ROOT_ID};

fn host_at(fd: i32, ino: u64, dev: u64, mnt: u64, mode: u32) -> LookupHost {
    LookupHost {
        fd,
        ids: InodeIds {
            ino,
            dev,
            mnt_id: mnt,
        },
        mode,
        handle: None,
        serializable_handle: None,
    }
}

#[test]
fn init_negotiates_options() {
    let mut cfg = Config::default();
    cfg.writeback = true;
    let mut fs = PassthroughFs::new(cfg);
    // Guest cannot do writeback: stays off.
    let opts = fs.init(0).unwrap();
    assert_eq!(opts & OPT_WRITEBACK_CACHE, 0);
    assert!(!fs.writeback);
    assert_ne!(opts & OPT_DO_READDIRPLUS, 0);
    assert_ne!(opts & OPT_READDIRPLUS_AUTO, 0);
    // Guest can: negotiated and echoed.
    let opts = fs.init(OPT_WRITEBACK_CACHE | OPT_CREATE_SUPP_GROUP).unwrap();
    assert_ne!(opts & OPT_WRITEBACK_CACHE, 0);
    assert!(fs.writeback);
    assert!(fs.sup_group_extension);
}

#[test]
fn init_acl_demands_capability() {
    let mut cfg = Config::default();
    cfg.posix_acl = true;
    let mut fs = PassthroughFs::new(cfg);
    let err = fs.init(0).unwrap_err();
    assert_eq!(err.kind, ErrorKind::Os(libc::EPROTO));
    let opts = fs.init(OPT_ACL_REQUIRED).unwrap();
    assert_eq!(opts & OPT_ACL_REQUIRED, OPT_ACL_REQUIRED);
    assert!(fs.posix_acl);
}

#[test]
fn init_security_label_demands_capability() {
    let mut cfg = Config::default();
    cfg.security_label = true;
    let mut fs = PassthroughFs::new(cfg);
    assert_eq!(fs.init(0).unwrap_err().kind, ErrorKind::Os(libc::EPROTO));
    let opts = fs.init(OPT_SECURITY_CTX).unwrap();
    assert_ne!(opts & OPT_SECURITY_CTX, 0);
}

#[test]
fn submount_attr_flag() {
    let mut cfg = Config::default();
    cfg.announce_submounts = true;
    let mut fs = PassthroughFs::new(cfg);
    fs.init(passthrough_fs::fs::OPT_SUBMOUNTS).unwrap();
    fs.open_root_node(host_at(3, 100, 7, 1, 0o40755)).unwrap();
    // Same device and mount: no submount flag.
    let same = fs
        .do_lookup(ROOT_ID, b"plain".to_vec(), host_at(10, 101, 7, 1, 0o40755))
        .unwrap();
    assert_eq!(same.attr_flags, 0);
    // A directory on another device is announced as a submount.
    let cross = fs
        .do_lookup(ROOT_ID, b"mnt".to_vec(), host_at(11, 102, 8, 2, 0o40755))
        .unwrap();
    assert_eq!(cross.attr_flags, ATTR_SUBMOUNT);
    // Files never are.
    let file = fs
        .do_lookup(ROOT_ID, b"file".to_vec(), host_at(12, 103, 8, 2, 0o100644))
        .unwrap();
    assert_eq!(file.attr_flags, 0);
}

#[test]
fn open_release_lifecycle() {
    let mut fs = PassthroughFs::new(Config::default());
    fs.init(0).unwrap();
    fs.open_root_node(host_at(3, 100, 7, 1, 0o40755)).unwrap();
    let f = fs
        .do_lookup(ROOT_ID, b"f".to_vec(), host_at(10, 101, 7, 1, 0o100644))
        .unwrap()
        .inode;
    let open_flags = fs.host_open_flags(flags::O_WRONLY | flags::O_APPEND);
    assert_eq!(open_flags & flags::O_APPEND, 0);
    let h = fs.register_handle(f, 20, flags::O_WRONLY | flags::O_APPEND).unwrap();
    // The handle pins the inode: its refcount covers the open file.
    assert_eq!(fs.inodes.get(f).unwrap().refcount, 2);
    assert_eq!(fs.handle_fd(f, h).unwrap(), 20);
    // A mismatched pair is refused.
    assert_eq!(fs.handle_fd(ROOT_ID, h).unwrap_err().kind, ErrorKind::NotFound);
    assert_eq!(fs.do_release(ROOT_ID, h).unwrap_err().kind, ErrorKind::NotFound);
    fs.do_release(f, h).unwrap();
    assert_eq!(fs.inodes.get(f).unwrap().refcount, 1);
    assert_eq!(fs.handle_fd(f, h).unwrap_err().kind, ErrorKind::NotFound);
    // Unknown inodes are refused outright.
    assert_eq!(fs.register_handle(999, 30, 0).unwrap_err().kind, ErrorKind::NotFound);
    assert_eq!(fs.get_file(999).unwrap_err().kind, ErrorKind::NotFound);
}

#[test]
fn open_option_bits_per_cache_policy() {
    let mut cfg = Config::default();
    cfg.cache_policy = CachePolicy::Never;
    let fs = PassthroughFs::new(cfg);
    assert_eq!(fs.open_options(flags::O_RDONLY), flags::FOPEN_DIRECT_IO);
    assert_eq!(fs.open_options(flags::O_RDONLY | flags::O_DIRECTORY), 0);
    assert_eq!(fs.create_options(), flags::FOPEN_DIRECT_IO);

    let mut cfg = Config::default();
    cfg.cache_policy = CachePolicy::Always;
    let fs = PassthroughFs::new(cfg);
    assert_eq!(fs.open_options(flags::O_RDONLY), flags::FOPEN_KEEP_CACHE);
    assert_eq!(
        fs.open_options(flags::O_RDONLY | flags::O_DIRECTORY),
        flags::FOPEN_KEEP_CACHE | flags::FOPEN_CACHE_DIR
    );
    assert_eq!(fs.create_options(), flags::FOPEN_KEEP_CACHE);

    let fs = PassthroughFs::new(Config::default());
    assert_eq!(fs.open_options(flags::O_RDONLY), 0);
    assert_eq!(fs.create_options(), 0);
}

#[test]
fn create_flags_add_excl() {
    let r = flags::create_host_flags(flags::O_RDWR | flags::O_APPEND);
    assert_eq!(r & flags::O_APPEND, 0);
    assert_ne!(r & flags::O_CREAT, 0);
    assert_ne!(r & flags::O_EXCL, 0);
    assert_eq!(r & flags::O_ACCMODE, flags::O_RDWR);
}

#[test]
fn setattr_plan_decisions() {
    let mut cfg = Config::default();
    cfg.killpriv_v2 = true;
    let fs = PassthroughFs::new(cfg);
    let plan = fs.setattr_plan(
        SETATTR_MODE | SETATTR_SIZE | SETATTR_ATIME | SETATTR_MTIME_NOW | SETATTR_KILL_SUIDGID,
        false,
    );
    assert!(plan.set_mode);
    assert!(plan.truncate);
    assert!(plan.truncate_kill_priv);
    assert!(plan.reopen_rdwr, "sizing without a handle reopens read-write");
    assert!(!plan.use_handle_fd);
    assert!(!plan.do_chown);
    assert_eq!(plan.atime, TimeChange::Supplied);
    assert_eq!(plan.mtime, TimeChange::Now);

    let plan = fs.setattr_plan(SETATTR_UID | SETATTR_SIZE, true);
    assert!(plan.use_handle_fd);
    assert!(!plan.reopen_rdwr, "a named handle already has a writable file");
    assert!(plan.do_chown);
    assert!(plan.chown_uid_valid);
    assert!(!plan.chown_gid_valid);
    assert_eq!(plan.atime, TimeChange::Omit);
    assert_eq!(plan.mtime, TimeChange::Omit);

    let fs2 = PassthroughFs::new(Config::default());
    let plan = fs2.setattr_plan(SETATTR_SIZE | SETATTR_KILL_SUIDGID, true);
    assert!(!plan.truncate_kill_priv, "kill-priv handling is configured off");
}
