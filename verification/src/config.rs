//! Configuration of the filesystem: caching policy, file-handle mode,
//! migration behavior, and the option record that `init` negotiates against.

use vstd::prelude::*;
use vstd::string::StringSliceAdditionalSpecFns;

verus! {

/// Lower-case an ASCII byte; other bytes are unchanged.
pub open spec fn lower8(b: u8) -> u8 {
    if 65 <= b <= 90 {
        (b + 32) as u8
    } else {
        b
    }
}

/// Lower-case a byte sequence, ASCII-wise.
pub open spec fn lower_bytes(s: Seq<u8>) -> Seq<u8> {
    s.map_values(|b: u8| lower8(b))
}

/// Compare `s` against an (already lower-case) keyword, ignoring ASCII case.
fn matches_keyword_ci(s: &[u8], kw: &[u8]) -> (r: bool)
    ensures
        r <==> lower_bytes(s@) == kw@,
{
    if s.len() != kw.len() {
        assert(lower_bytes(s@).len() == s@.len());
        return false;
    }
    let mut i: usize = 0;
    while i < s.len()
        invariant
            i <= s.len(),
            s.len() == kw.len(),
            forall|j: int| 0 <= j < i ==> lower8(s@[j]) == kw@[j],
        decreases s.len() - i,
    {
        let b = s[i];
        let lb: u8 = if 65 <= b && b <= 90 {
            b + 32
        } else {
            b
        };
        if lb != kw[i] {
            assert(lower_bytes(s@)[i as int] != kw@[i as int]);
            return false;
        }
        i = i + 1;
    }
    assert(lower_bytes(s@) =~= kw@);
    true
}

/// The caching policy that the filesystem reports to the FUSE client.
#[derive(Clone, Copy, Debug, PartialEq, Eq, Structural)]
pub enum CachePolicy {
    /// The client must never cache file data; all I/O goes to the server.
    Never,
    /// Like `Never` for file contents, but directories, dentries and
    /// attributes may be cached.
    Metadata,
    /// The client chooses, with close-to-open consistency (the default).
    Auto,
    /// The client should always cache file data.
    Always,
}

impl CachePolicy {
    /// Parse a policy name, ASCII-case-insensitively.
    pub fn from_str(s: &str) -> (r: Result<CachePolicy, &'static str>)
        ensures
            r == Ok::<CachePolicy, &'static str>(CachePolicy::Never) <==> lower_bytes(
                s.spec_bytes()) =~= kw_never(),
            r == Ok::<CachePolicy, &'static str>(CachePolicy::Metadata) <==> lower_bytes(
                s.spec_bytes()) =~= kw_metadata(),
            r == Ok::<CachePolicy, &'static str>(CachePolicy::Auto) <==> lower_bytes(
                s.spec_bytes()) =~= kw_auto(),
            r == Ok::<CachePolicy, &'static str>(CachePolicy::Always) <==> lower_bytes(
                s.spec_bytes()) =~= kw_always(),
    {
        let b = s.as_bytes();
        let never: [u8; 5] = [110u8, 101u8, 118u8, 101u8, 114u8];
        let metadata: [u8; 8] = [109u8, 101u8, 116u8, 97u8, 100u8, 97u8, 116u8, 97u8];
        let auto: [u8; 4] = [97u8, 117u8, 116u8, 111u8];
        let always: [u8; 6] = [97u8, 108u8, 119u8, 97u8, 121u8, 115u8];
        assert(never@ =~= kw_never());
        assert(metadata@ =~= kw_metadata());
        assert(auto@ =~= kw_auto());
        assert(always@ =~= kw_always());
        if matches_keyword_ci(b, never.as_slice()) {
            Ok(CachePolicy::Never)
        } else if matches_keyword_ci(b, metadata.as_slice()) {
            Ok(CachePolicy::Metadata)
        } else if matches_keyword_ci(b, auto.as_slice()) {
            Ok(CachePolicy::Auto)
        } else if matches_keyword_ci(b, always.as_slice()) {
            Ok(CachePolicy::Always)
        } else {
            Err("invalid cache policy")
        }
    }
}

impl Default for CachePolicy {
    fn default() -> (r: Self)
        ensures
            r == CachePolicy::Auto,
    {
        CachePolicy::Auto
    }
}

/// The keyword `never` as bytes.
pub open spec fn kw_never() -> Seq<u8> {
    seq![110u8, 101u8, 118u8, 101u8, 114u8]
}

/// The keyword `metadata` as bytes.
pub open spec fn kw_metadata() -> Seq<u8> {
    seq![109u8, 101u8, 116u8, 97u8, 100u8, 97u8, 116u8, 97u8]
}

/// The keyword `auto` as bytes.
pub open spec fn kw_auto() -> Seq<u8> {
    seq![97u8, 117u8, 116u8, 111u8]
}

/// The keyword `always` as bytes.
pub open spec fn kw_always() -> Seq<u8> {
    seq![97u8, 108u8, 119u8, 97u8, 121u8, 115u8]
}

/// The keyword `abort` as bytes.
pub open spec fn kw_abort() -> Seq<u8> {
    seq![97u8, 98u8, 111u8, 114u8, 116u8]
}

/// The keyword `guest-error` as bytes.
pub open spec fn kw_guest_error() -> Seq<u8> {
    seq![103u8, 117u8, 101u8, 115u8, 116u8, 45u8, 101u8, 114u8, 114u8, 111u8, 114u8]
}

/// The keyword `find-paths` as bytes.
pub open spec fn kw_find_paths() -> Seq<u8> {
    seq![102u8, 105u8, 110u8, 100u8, 45u8, 112u8, 97u8, 116u8, 104u8, 115u8]
}

/// The keyword `namespace` as bytes.
pub open spec fn kw_namespace() -> Seq<u8> {
    seq![110u8, 97u8, 109u8, 101u8, 115u8, 112u8, 97u8, 99u8, 101u8]
}

/// The keyword `chroot` as bytes.
pub open spec fn kw_chroot() -> Seq<u8> {
    seq![99u8, 104u8, 114u8, 111u8, 111u8, 116u8]
}

/// The keyword `none` as bytes.
pub open spec fn kw_none() -> Seq<u8> {
    seq![110u8, 111u8, 110u8, 101u8]
}

/// When to reference inodes by file handle instead of an `O_PATH`
/// descriptor.
#[derive(Clone, Copy, Debug, PartialEq, Eq, Structural)]
pub enum InodeFileHandlesMode {
    /// Never use file handles; always keep an `O_PATH` descriptor.
    Never,
    /// Generate file handles where the filesystem supports them, falling
    /// back to `O_PATH` descriptors where it does not.
    Prefer,
    /// Always use file handles; never fall back.
    Mandatory,
}

impl Default for InodeFileHandlesMode {
    fn default() -> (r: Self)
        ensures
            r == InodeFileHandlesMode::Never,
    {
        InodeFileHandlesMode::Never
    }
}

/// What the migration destination does when restoring an inode or handle
/// fails.
#[derive(Clone, Copy, Debug, PartialEq, Eq, Structural)]
pub enum MigrationOnError {
    /// Return a hard error to the front-end, aborting migration.
    Abort,
    /// Finish migration; the guest receives the stored error whenever it
    /// touches the lost file, while other files keep working.
    GuestError,
}

impl MigrationOnError {
    /// Parse a policy name (exact match, as on the command line).
    pub fn from_str(s: &str) -> (r: Result<MigrationOnError, &'static str>)
        ensures
            r == Ok::<MigrationOnError, &'static str>(MigrationOnError::Abort) <==> s.spec_bytes()
                =~= kw_abort(),
            r == Ok::<MigrationOnError, &'static str>(MigrationOnError::GuestError)
                <==> s.spec_bytes() =~= kw_guest_error(),
    {
        let b = s.as_bytes();
        let abort: [u8; 5] = [97u8, 98u8, 111u8, 114u8, 116u8];
        let guest_error: [u8; 11] = [103u8, 117u8, 101u8, 115u8, 116u8, 45u8, 101u8, 114u8,
            114u8, 111u8, 114u8];
        assert(abort@ =~= kw_abort());
        assert(guest_error@ =~= kw_guest_error());
        if bytes_equal(b, abort.as_slice()) {
            Ok(MigrationOnError::Abort)
        } else if bytes_equal(b, guest_error.as_slice()) {
            Ok(MigrationOnError::GuestError)
        } else {
            Err("invalid migration-on-error value")
        }
    }
}

impl Default for MigrationOnError {
    fn default() -> (r: Self)
        ensures
            r == MigrationOnError::Abort,
    {
        MigrationOnError::Abort
    }
}

/// How the internal state is described to the migration destination.
#[derive(Clone, Copy, Debug, PartialEq, Eq, Structural)]
pub enum MigrationMode {
    /// Walk the shared directory to find a path for every indexed inode,
    /// and transfer those paths.
    FindPaths,
}

impl MigrationMode {
    /// Parse a mode name (exact match, as on the command line).
    pub fn from_str(s: &str) -> (r: Result<MigrationMode, &'static str>)
        ensures
            r == Ok::<MigrationMode, &'static str>(MigrationMode::FindPaths) <==> s.spec_bytes()
                =~= kw_find_paths(),
    {
        let b = s.as_bytes();
        let find_paths: [u8; 10] = [102u8, 105u8, 110u8, 100u8, 45u8, 112u8, 97u8, 116u8,
            104u8, 115u8];
        assert(find_paths@ =~= kw_find_paths());
        if bytes_equal(b, find_paths.as_slice()) {
            Ok(MigrationMode::FindPaths)
        } else {
            Err("invalid migration-mode value")
        }
    }
}

impl Default for MigrationMode {
    fn default() -> (r: Self)
        ensures
            r == MigrationMode::FindPaths,
    {
        MigrationMode::FindPaths
    }
}

/// Mechanism used for sandboxing the server process.
#[derive(Clone, Copy, Debug, PartialEq, Eq, Structural)]
pub enum SandboxMode {
    /// Use Linux namespaces.
    Namespace,
    /// Use chroot.
    Chroot,
    /// Do not sandbox.
    NoSandbox,
}

impl SandboxMode {
    /// Parse a mode name, ASCII-case-insensitively.
    pub fn from_str(s: &str) -> (r: Result<SandboxMode, &'static str>)
        ensures
            r == Ok::<SandboxMode, &'static str>(SandboxMode::Namespace) <==> lower_bytes(
                s.spec_bytes()) =~= kw_namespace(),
            r == Ok::<SandboxMode, &'static str>(SandboxMode::Chroot) <==> lower_bytes(
                s.spec_bytes()) =~= kw_chroot(),
            r == Ok::<SandboxMode, &'static str>(SandboxMode::NoSandbox) <==> lower_bytes(
                s.spec_bytes()) =~= kw_none(),
    {
        let b = s.as_bytes();
        let namespace: [u8; 9] = [110u8, 97u8, 109u8, 101u8, 115u8, 112u8, 97u8, 99u8, 101u8];
        let chroot: [u8; 6] = [99u8, 104u8, 114u8, 111u8, 111u8, 116u8];
        let none_kw: [u8; 4] = [110u8, 111u8, 110u8, 101u8];
        assert(namespace@ =~= kw_namespace());
        assert(chroot@ =~= kw_chroot());
        assert(none_kw@ =~= kw_none());
        if matches_keyword_ci(b, namespace.as_slice()) {
            Ok(SandboxMode::Namespace)
        } else if matches_keyword_ci(b, chroot.as_slice()) {
            Ok(SandboxMode::Chroot)
        } else if matches_keyword_ci(b, none_kw.as_slice()) {
            Ok(SandboxMode::NoSandbox)
        } else {
            Err("Unknown sandbox mode")
        }
    }
}

/// Exact byte-sequence equality of two slices.
fn bytes_equal(a: &[u8], b: &[u8]) -> (r: bool)
    ensures
        r <==> a@ == b@,
{
    if a.len() != b.len() {
        return false;
    }
    let mut i: usize = 0;
    while i < a.len()
        invariant
            i <= a.len(),
            a.len() == b.len(),
            forall|j: int| 0 <= j < i ==> a@[j] == b@[j],
        decreases a.len() - i,
    {
        if a[i] != b[i] {
            return false;
        }
        i = i + 1;
    }
    assert(a@ =~= b@);
    true
}

/// Basic facts about the host OS, probed once at startup by the embedding
/// program.
#[derive(Clone, Copy, Debug)]
pub struct OsFacts {
    /// Whether the host supports `openat2(2)` (Linux 5.6+), which allows
    /// opening relative paths with resolution confined to the shared
    /// directory.
    pub has_openat2: bool,
}

/// Options that configure the behavior of the filesystem.
#[derive(Clone, Debug)]
pub struct Config {
    /// How long (in seconds) the FUSE client should consider directory
    /// entries valid.
    pub entry_timeout: u64,
    /// How long (in seconds) the FUSE client should consider file and
    /// directory attributes valid.
    pub attr_timeout: u64,
    /// The caching policy reported to the client.
    pub cache_policy: CachePolicy,
    /// Whether writeback caching may be negotiated.
    pub writeback: bool,
    /// Whether submounts are announced to the guest.
    pub announce_submounts: bool,
    /// When to reference inodes by file handle.
    pub inode_file_handles: InodeFileHandlesMode,
    /// Whether READDIRPLUS is offered.
    pub readdirplus: bool,
    /// Whether the `O_DIRECT` guest flag is honored.
    pub allow_direct_io: bool,
    /// Whether the server clears setuid/setgid bits on write.
    pub killpriv_v2: bool,
    /// Whether POSIX ACLs are supported.
    pub posix_acl: bool,
    /// Whether security labels are supported.
    pub security_label: bool,
    /// Whether `O_NOATIME` is cleared from guest opens.
    pub clean_noatime: bool,
    /// Whether shared mappings of direct-I/O files are allowed.
    pub allow_mmap: bool,
    /// What the migration destination does on a per-item restore failure.
    pub migration_on_error: MigrationOnError,
    /// Whether a reference file handle travels with each inode in the
    /// migration stream, for the destination to verify against.
    pub migration_verify_handles: bool,
    /// Whether the source cross-checks each inode's path at serialization.
    pub migration_confirm_paths: bool,
    /// How the internal state is described to the destination.
    pub migration_mode: MigrationMode,
}

impl Default for Config {
    fn default() -> (r: Self)
        ensures
            r.entry_timeout == 5,
            r.attr_timeout == 5,
            r.cache_policy == CachePolicy::Auto,
            !r.writeback,
            !r.announce_submounts,
            r.inode_file_handles == InodeFileHandlesMode::Never,
            r.readdirplus,
            !r.allow_direct_io,
            !r.killpriv_v2,
            !r.posix_acl,
            !r.security_label,
            r.clean_noatime,
            !r.allow_mmap,
            r.migration_on_error == MigrationOnError::Abort,
            !r.migration_verify_handles,
            !r.migration_confirm_paths,
            r.migration_mode == MigrationMode::FindPaths,
    {
        Config {
            entry_timeout: 5,
            attr_timeout: 5,
            cache_policy: CachePolicy::Auto,
            writeback: false,
            announce_submounts: false,
            inode_file_handles: InodeFileHandlesMode::Never,
            readdirplus: true,
            allow_direct_io: false,
            killpriv_v2: false,
            posix_acl: false,
            security_label: false,
            clean_noatime: true,
            allow_mmap: false,
            migration_on_error: MigrationOnError::Abort,
            migration_verify_handles: false,
            migration_confirm_paths: false,
            migration_mode: MigrationMode::FindPaths,
        }
    }
}

} // verus!
