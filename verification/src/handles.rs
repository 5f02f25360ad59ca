//! The handle table: guest-visible open-file ids, each referring to an
//! inode (weakly, by id — the handle's own strong reference on the inode is
//! taken at open time and released at close) and carrying an OS file plus
//! the flags needed to re-derive the handle after a migration.

use vstd::prelude::*;

use crate::error::{ErrorKind, FsError};
use crate::migration::HandleMigrationInfo;

verus! {

/// The file behind a handle: a host descriptor, or an invalid placeholder
/// carrying the error stored by a failed migration.
#[derive(Clone, Debug)]
pub enum HandleDataFile {
    /// An open host descriptor (owned by the embedding program).
    File(i32),
    /// Invalid: every operation on this handle fails with the stored error.
    Invalid(FsError),
}

/// An entry of the handle table.
#[derive(Clone, Debug)]
pub struct HandleData {
    /// The inode this handle refers to (weak reference by id).
    pub inode: u64,
    /// The open file, or an invalid placeholder.
    pub file: HandleDataFile,
    /// How to re-derive this handle from its inode on a migration
    /// destination.
    pub migration_info: HandleMigrationInfo,
}

/// Mathematical value of a `HandleDataFile`.
pub ghost enum HandleFileModel {
    Fd { fd: i32 },
    Invalid { kind: ErrorKind },
}

/// Mathematical value of a handle-table entry.
pub ghost struct HandleModel {
    pub id: u64,
    pub inode: u64,
    pub file: HandleFileModel,
    pub flags: u32,
}

impl View for HandleData {
    type V = (u64, HandleFileModel, u32);

    open spec fn view(&self) -> (u64, HandleFileModel, u32) {
        (
            self.inode,
            match &self.file {
                HandleDataFile::File(fd) => HandleFileModel::Fd { fd: *fd },
                HandleDataFile::Invalid(e) => HandleFileModel::Invalid { kind: e.kind },
            },
            self.migration_info->flags,
        )
    }
}

/// Whether `s` holds a handle with id `id`.
pub open spec fn contains_handle(s: Seq<HandleModel>, id: u64) -> bool {
    exists|i: int| 0 <= i < s.len() && s[i].id == id
}

/// The index of the handle with id `id` (meaningful when present).
pub open spec fn handle_idx_of(s: Seq<HandleModel>, id: u64) -> int {
    choose|i: int| 0 <= i < s.len() && s[i].id == id
}

/// The handle with id `id` (meaningful when present).
pub open spec fn handle_of(s: Seq<HandleModel>, id: u64) -> HandleModel {
    s[handle_idx_of(s, id)]
}

/// Well-formedness: handle ids are unique.
pub open spec fn handles_wf(s: Seq<HandleModel>) -> bool {
    forall|i: int, j: int| 0 <= i < s.len() && 0 <= j < s.len() && i != j ==> s[i].id != s[j].id
}

/// The table of open handles.
#[derive(Debug)]
pub struct HandleTable {
    data: Vec<(u64, HandleData)>,
}

impl View for HandleTable {
    type V = Seq<HandleModel>;

    closed spec fn view(&self) -> Seq<HandleModel> {
        self.data@.map_values(
            |p: (u64, HandleData)|
                HandleModel { id: p.0, inode: p.1@.0, file: p.1@.1, flags: p.1@.2 },
        )
    }
}

/// With unique ids, an index holding `id` is the index `handle_idx_of`
/// denotes.
pub proof fn lemma_handle_idx_unique(s: Seq<HandleModel>, id: u64, i: int)
    requires
        handles_wf(s),
        0 <= i < s.len(),
        s[i].id == id,
    ensures
        contains_handle(s, id),
        handle_idx_of(s, id) == i,
        handle_of(s, id) == s[i],
{
    let k = handle_idx_of(s, id);
    if k != i {
        assert(s[k].id != s[i].id);
        assert(false);
    }
}

impl HandleTable {
    /// Well-formedness of the table.
    pub open spec fn inv(&self) -> bool {
        handles_wf(self@)
    }

    /// An empty table.
    pub fn new() -> (r: HandleTable)
        ensures
            r.inv(),
            r@ == Seq::<HandleModel>::empty(),
    {
        let r = HandleTable { data: Vec::new() };
        proof {
            assert(r@ =~= Seq::<HandleModel>::empty());
        }
        r
    }

    /// Number of open handles.
    pub fn len(&self) -> (r: usize)
        ensures
            r == self@.len(),
    {
        self.data.len()
    }

    /// Borrow the entry at a position (for iteration by the serializer).
    pub fn entry_at(&self, i: usize) -> (r: (u64, &HandleData))
        requires
            i < self@.len(),
        ensures
            r.0 == self@[i as int].id,
            r.1@.0 == self@[i as int].inode,
            r.1@.1 == self@[i as int].file,
            r.1@.2 == self@[i as int].flags,
    {
        let p = &self.data[i];
        (p.0, &p.1)
    }

    /// The position of the handle with id `id`, if present.
    fn find_index(&self, id: u64) -> (r: Option<usize>)
        ensures
            match r {
                Some(i) => i < self@.len() && self@[i as int].id == id,
                None => !contains_handle(self@, id),
            },
    {
        let mut i: usize = 0;
        while i < self.data.len()
            invariant
                i <= self@.len(),
                self@.len() == self.data@.len(),
                forall|j: int| 0 <= j < i ==> self@[j].id != id,
            decreases self.data.len() - i,
        {
            if self.data[i].0 == id {
                return Some(i);
            }
            i = i + 1;
        }
        None
    }

    /// Insert a new handle under a fresh id.
    pub fn insert(&mut self, id: u64, data: HandleData)
        requires
            old(self).inv(),
            !contains_handle(old(self)@, id),
        ensures
            final(self).inv(),
            final(self)@ == old(self)@.push(
                HandleModel { id, inode: data@.0, file: data@.1, flags: data@.2 },
            ),
    {
        let ghost pre = self@;
        let ghost m = HandleModel { id, inode: data@.0, file: data@.1, flags: data@.2 };
        self.data.push((id, data));
        proof {
            assert(self@ =~= pre.push(m));
            let n = pre.len() as int;
            assert forall|i: int, j: int|
                0 <= i < self@.len() && 0 <= j < self@.len() && i != j implies self@[i].id
                != self@[j].id by {
                if i == n {
                    assert(!(0 <= j < pre.len() && pre[j].id == id));
                } else if j == n {
                    assert(!(0 <= i < pre.len() && pre[i].id == id));
                }
            }
        }
    }

    /// Look up handle `id`, requiring that it refers to `inode`; a handle
    /// that exists but names a different inode is not returned (the guest
    /// mismatched the pair).
    pub fn find_if_inode_matches(&self, id: u64, inode: u64) -> (r: Option<&HandleData>)
        requires
            self.inv(),
        ensures
            match r {
                Some(d) => contains_handle(self@, id) && handle_of(self@, id).inode == inode
                    && d@.0 == handle_of(self@, id).inode && d@.1 == handle_of(self@, id).file
                    && d@.2 == handle_of(self@, id).flags,
                None => !contains_handle(self@, id) || handle_of(self@, id).inode != inode,
            },
    {
        match self.find_index(id) {
            Some(i) => {
                proof {
                    lemma_handle_idx_unique(self@, id, i as int);
                }
                if self.data[i].1.inode == inode {
                    Some(&self.data[i].1)
                } else {
                    None
                }
            },
            None => None,
        }
    }

    /// Remove handle `id` if it refers to `inode`; error otherwise (the
    /// release of a mismatched pair must not close an unrelated file).
    pub fn remove_if_inode_matches(&mut self, id: u64, inode: u64) -> (r: Result<
        HandleData, FsError>)
        requires
            old(self).inv(),
        ensures
            final(self).inv(),
            contains_handle(old(self)@, id) && handle_of(old(self)@, id).inode == inode ==> r
                is Ok && final(self)@ == old(self)@.remove(handle_idx_of(old(self)@, id))
                && r->Ok_0@.0 == handle_of(old(self)@, id).inode,
            !(contains_handle(old(self)@, id) && handle_of(old(self)@, id).inode == inode)
                ==> r is Err && r->Err_0.kind == ErrorKind::NotFound && final(self)@ == old(
            self)@,
    {
        let ghost pre = self@;
        match self.find_index(id) {
            Some(i) => {
                proof {
                    lemma_handle_idx_unique(pre, id, i as int);
                }
                if self.data[i].1.inode == inode {
                    let (_, d) = self.data.remove(i);
                    proof {
                        assert(self@ =~= pre.remove(i as int));
                        assert forall|a: int, b: int|
                            0 <= a < self@.len() && 0 <= b < self@.len() && a
                                != b implies self@[a].id != self@[b].id by {
                            let a0 = if a < i as int { a } else { a + 1 };
                            let b0 = if b < i as int { b } else { b + 1 };
                            assert(self@[a] == pre[a0] && self@[b] == pre[b0]);
                        }
                    }
                    Ok(d)
                } else {
                    Err(FsError::new(ErrorKind::NotFound))
                }
            },
            None => Err(FsError::new(ErrorKind::NotFound)),
        }
    }

    /// Drop every handle at once.  Used by `destroy` and by migration
    /// restore.
    pub fn clear(&mut self)
        ensures
            final(self).inv(),
            final(self)@ == Seq::<HandleModel>::empty(),
    {
        self.data.clear();
        proof {
            assert(self@ =~= Seq::<HandleModel>::empty());
        }
    }
}

} // verus!
