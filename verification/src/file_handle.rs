//! File handles: mount-scoped, kernel-provided opaque byte strings that
//! identify an inode and can be re-opened later given a descriptor on the
//! same mount.  They let the server drop per-inode descriptors (which are
//! bounded by process limits) while still being able to reopen the inode.
//!
//! The embedding program obtains the bytes from the host
//! (`name_to_handle_at(2)`) and opens them (`open_by_handle_at(2)`); this
//! module holds the data and the comparison logic.

use vstd::prelude::*;

verus! {

/// A file handle: the kernel's opaque bytes plus their type, scoped to a
/// mount.
#[derive(Clone, Debug)]
pub struct FileHandle {
    /// The mount id the handle was generated on.
    pub mnt_id: u64,
    /// The kernel's `handle_type` discriminator.
    pub handle_type: i32,
    /// The kernel's opaque handle bytes.
    pub handle: Vec<u8>,
}

impl FileHandle {
    /// The handle as a mathematical value: mount id, type, and bytes.
    pub open spec fn key(&self) -> (u64, i32, Seq<u8>) {
        (self.mnt_id, self.handle_type, self.handle@)
    }

    /// Exact equality of two handles (mount id, type, and bytes).
    pub fn matches(&self, other: &FileHandle) -> (r: bool)
        ensures
            r <==> self.key() == other.key(),
    {
        if self.mnt_id != other.mnt_id || self.handle_type != other.handle_type {
            return false;
        }
        let r = crate::file_handle::bytes_match(&self.handle, &other.handle);
        proof {
            if r {
                assert(self.key() == other.key());
            }
        }
        r
    }

    /// An identical copy of the handle.
    pub fn duplicate(&self) -> (r: FileHandle)
        ensures
            r.key() == self.key(),
    {
        let bytes = copy_bytes(&self.handle);
        FileHandle { mnt_id: self.mnt_id, handle_type: self.handle_type, handle: bytes }
    }

    /// The serializable form of this handle.
    pub fn to_serializable(&self) -> (r: SerializableFileHandle)
        ensures
            r.mnt_id == self.mnt_id,
            r.handle_type == self.handle_type,
            r.handle@ == self.handle@,
    {
        SerializableFileHandle {
            mnt_id: self.mnt_id,
            handle_type: self.handle_type,
            handle: copy_bytes(&self.handle),
        }
    }
}

/// Exact equality of two byte vectors.
pub fn bytes_match(a: &Vec<u8>, b: &Vec<u8>) -> (r: bool)
    ensures
        r <==> a@ == b@,
{
    if a.len() != b.len() {
        return false;
    }
    let mut i: usize = 0;
    while i < a.len()
        invariant
            i <= a.len(),
            a.len() == b.len(),
            forall|j: int| 0 <= j < i ==> a@[j] == b@[j],
        decreases a.len() - i,
    {
        if a[i] != b[i] {
            return false;
        }
        i = i + 1;
    }
    assert(a@ =~= b@);
    true
}

/// A fresh vector holding the same bytes.
pub fn copy_bytes(v: &Vec<u8>) -> (r: Vec<u8>)
    ensures
        r@ == v@,
{
    let mut r: Vec<u8> = Vec::new();
    let mut i: usize = 0;
    while i < v.len()
        invariant
            i <= v.len(),
            r@ == v@.subrange(0, i as int),
        decreases v.len() - i,
    {
        r.push(v[i]);
        i = i + 1;
        assert(r@ =~= v@.subrange(0, i as int));
    }
    assert(v@.subrange(0, v@.len() as int) == v@);
    r
}

/// The host errno for "operation not supported".
pub const EOPNOTSUPP: i32 = 95;

/// The host errno for "value too large" (a handle above the size cap).
pub const EOVERFLOW: i32 = 75;

/// Classify the host's attempt to generate a file handle
/// (`name_to_handle_at(2)`): "not supported" and "would not fit" are
/// permanent per-filesystem conditions, reported as absence so the caller
/// falls back to an `O_PATH` descriptor; any other errno propagates.
pub fn handle_gen_outcome(res: Result<FileHandle, i32>) -> (r: Result<
    Option<FileHandle>, crate::error::FsError>)
    ensures
        match res {
            Ok(fh) => r is Ok && r->Ok_0 is Some && (r->Ok_0->0).key() == fh.key(),
            Err(e) => if e == EOPNOTSUPP || e == EOVERFLOW {
                r is Ok && r->Ok_0 is None
            } else {
                r is Err && r->Err_0.kind == crate::error::ErrorKind::Os(e)
            },
        },
{
    match res {
        Ok(fh) => Ok(Some(fh)),
        Err(e) => {
            if e == EOPNOTSUPP || e == EOVERFLOW {
                Ok(None)
            } else {
                Err(crate::error::FsError::new(crate::error::ErrorKind::Os(e)))
            }
        },
    }
}

/// A file handle that can be opened: the handle plus a descriptor on its
/// mount (kept alive by the embedding program's mount-fd cache).
#[derive(Clone, Debug)]
pub struct OpenableFileHandle {
    /// The underlying handle.
    pub handle: FileHandle,
    /// The host descriptor on the handle's mount.
    pub mount_fd: i32,
}

impl OpenableFileHandle {
    /// The underlying file handle.
    pub fn inner(&self) -> (r: &FileHandle)
        ensures
            r == self.handle,
    {
        &self.handle
    }
}

/// The portable form of a file handle, as it travels in the migration
/// stream.  Compared byte-for-byte on the destination; the mount id is
/// masked out across hosts, because the same filesystem may carry a
/// different mount id there.
#[derive(Clone, Debug)]
pub struct SerializableFileHandle {
    /// The mount id the handle was generated on (not portable).
    pub mnt_id: u64,
    /// The kernel's `handle_type` discriminator.
    pub handle_type: i32,
    /// The kernel's opaque handle bytes.
    pub handle: Vec<u8>,
}

impl SerializableFileHandle {
    /// Compare against `other`, disregarding the mount id.  Handles from
    /// different hosts compare this way.
    pub fn require_equal_without_mount_id(&self, other: &Self) -> (r: Result<(), String>)
        ensures
            r is Ok <==> (self.handle_type == other.handle_type && self.handle@
                == other.handle@),
    {
        if self.handle_type != other.handle_type {
            Err(String::from_str("File handle type differs"))
        } else if !bytes_match(&self.handle, &other.handle) {
            Err(String::from_str("File handle differs"))
        } else {
            Ok(())
        }
    }

    /// Compare against `other`, mount id first.
    pub fn require_equal(&self, other: &Self) -> (r: Result<(), String>)
        ensures
            r is Ok <==> (self.mnt_id == other.mnt_id && self.handle_type == other.handle_type
                && self.handle@ == other.handle@),
    {
        if self.mnt_id != other.mnt_id {
            Err(String::from_str("File handle mount ID differs"))
        } else {
            self.require_equal_without_mount_id(other)
        }
    }

    /// An identical copy of the handle.
    pub fn duplicate(&self) -> (r: SerializableFileHandle)
        ensures
            r.mnt_id == self.mnt_id,
            r.handle_type == self.handle_type,
            r.handle@ == self.handle@,
    {
        SerializableFileHandle {
            mnt_id: self.mnt_id,
            handle_type: self.handle_type,
            handle: copy_bytes(&self.handle),
        }
    }
}

} // verus!
