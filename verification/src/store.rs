//! The refcounted inode store: the server's table of every filesystem
//! object the guest has been told about, addressable three ways — by guest
//! id, by host identity tuple `(ino, dev, mnt_id)`, and by file handle.
//!
//! Refcount discipline: a new reference never raises a zero refcount (an
//! inode being destroyed is not resurrected); `forget` decrements by a
//! saturating subtraction and removes the entry at zero, inside the same
//! exclusive access that decided the transition.  Because an inode's
//! migration info may own a refcount unit of its parent, removing one entry
//! can release the parent's last reference; such releases run through the
//! same removal path, as a cascade along the (cycle-free) parent chain.

use vstd::prelude::*;

use crate::error::{ErrorKind, FsError};
use crate::file_handle::OpenableFileHandle;
use crate::migration::{InodeLocation, InodeMigrationInfo, LocationModel, MigrationInfoModel};

verus! {

/// The guest-visible id of the shared directory root.
pub const ROOT_ID: u64 = 1;

/// Host identity tuple of an inode, used as an index key.
#[derive(Clone, Copy, Debug, PartialEq, Eq, Structural)]
pub struct InodeIds {
    /// Host inode number.
    pub ino: u64,
    /// Host device id.
    pub dev: u64,
    /// Host mount id.
    pub mnt_id: u64,
}

impl Default for InodeIds {
    fn default() -> (r: Self)
        ensures
            r.ino == 0 && r.dev == 0 && r.mnt_id == 0,
    {
        InodeIds { ino: 0, dev: 0, mnt_id: 0 }
    }
}

/// What backs an inode: an `O_PATH`-style host descriptor, an openable file
/// handle, or an invalid placeholder carrying the error stored by a failed
/// migration.
#[derive(Clone, Debug)]
pub enum FileOrHandle {
    /// An `O_PATH` host descriptor (owned by the embedding program).
    File(i32),
    /// An openable file handle.
    Handle(OpenableFileHandle),
    /// Invalid: every operation on this inode fails with the stored error.
    Invalid(FsError),
}

/// Mathematical value of a `FileOrHandle`.
pub ghost enum BackingModel {
    Fd { fd: i32 },
    Handle { key: (u64, i32, Seq<u8>), mount_fd: i32 },
    Invalid { kind: ErrorKind },
}

impl View for FileOrHandle {
    type V = BackingModel;

    open spec fn view(&self) -> BackingModel {
        match self {
            FileOrHandle::File(fd) => BackingModel::Fd { fd: *fd },
            FileOrHandle::Handle(h) => BackingModel::Handle {
                key: h.handle.key(),
                mount_fd: h.mount_fd,
            },
            FileOrHandle::Invalid(e) => BackingModel::Invalid { kind: e.kind },
        }
    }
}

/// An entry of the inode store.
#[derive(Clone, Debug)]
pub struct InodeData {
    /// The guest-visible inode id.
    pub inode: u64,
    /// What backs the inode on the host.
    pub file_or_handle: FileOrHandle,
    /// Number of outstanding references: the guest's lookups plus any
    /// migration info of a child naming this inode as parent.
    pub refcount: u64,
    /// Host identity tuple.
    pub ids: InodeIds,
    /// File type and mode bits.
    pub mode: u32,
    /// Where the migration destination can find this inode; set while
    /// migration is being prepared.
    pub migration_info: Option<InodeMigrationInfo>,
}

/// Mathematical value of an `InodeData`.
pub ghost struct InodeModel {
    pub inode: u64,
    pub backing: BackingModel,
    pub refcount: u64,
    pub ids: InodeIds,
    pub mode: u32,
    pub migration_info: Option<MigrationInfoModel>,
}

impl View for InodeData {
    type V = InodeModel;

    open spec fn view(&self) -> InodeModel {
        InodeModel {
            inode: self.inode,
            backing: self.file_or_handle@,
            refcount: self.refcount,
            ids: self.ids,
            mode: self.mode,
            migration_info: match &self.migration_info {
                Some(mi) => Some(mi@),
                None => None,
            },
        }
    }
}

impl InodeModel {
    /// Whether the inode is backed by a host descriptor.
    pub open spec fn fd_backed(self) -> bool {
        self.backing is Fd
    }

    /// The file-handle key, for handle-backed inodes.
    pub open spec fn handle_key(self) -> Option<(u64, i32, Seq<u8>)> {
        match self.backing {
            BackingModel::Handle { key, .. } => Some(key),
            _ => None,
        }
    }

    /// The parent inode that this entry's migration info holds a refcount
    /// unit of, if any.
    pub open spec fn mig_parent(self) -> Option<u64> {
        match self.migration_info {
            Some(mi) => match mi.location {
                LocationModel::Path { parent, .. } => Some(parent),
                LocationModel::RootNode => None,
            },
            None => None,
        }
    }
}

/// Whether `s` holds an entry with id `id`.
pub open spec fn contains_id(s: Seq<InodeModel>, id: u64) -> bool {
    exists|i: int| 0 <= i < s.len() && s[i].inode == id
}

/// The index of the entry with id `id` (meaningful when `contains_id`).
pub open spec fn idx_of(s: Seq<InodeModel>, id: u64) -> int {
    choose|i: int| 0 <= i < s.len() && s[i].inode == id
}

/// The entry with id `id` (meaningful when `contains_id`).
pub open spec fn entry_of(s: Seq<InodeModel>, id: u64) -> InodeModel {
    s[idx_of(s, id)]
}

/// The id of the descriptor-backed entry carrying identity `ids`, if one
/// exists.  Only descriptor-backed entries answer identity lookups: with no
/// descriptor open, the host may reuse the inode number for an unrelated
/// file, so handle-backed entries must be found by their handle instead.
pub open spec fn find_by_ids(s: Seq<InodeModel>, ids: InodeIds) -> Option<u64> {
    if exists|i: int| 0 <= i < s.len() && s[i].fd_backed() && s[i].ids == ids {
        let i = choose|i: int| 0 <= i < s.len() && s[i].fd_backed() && s[i].ids == ids;
        Some(s[i].inode)
    } else {
        None
    }
}

/// The id of the entry carrying the given file-handle key, if one exists.
pub open spec fn find_by_handle(s: Seq<InodeModel>, key: (u64, i32, Seq<u8>)) -> Option<u64> {
    if exists|i: int| 0 <= i < s.len() && s[i].handle_key() == Some(key) {
        let i = choose|i: int| 0 <= i < s.len() && s[i].handle_key() == Some(key);
        Some(s[i].inode)
    } else {
        None
    }
}

/// The entry a claim resolves to: the handle is tried first, then the
/// identity tuple.
pub open spec fn claim_target(
    s: Seq<InodeModel>,
    key: Option<(u64, i32, Seq<u8>)>,
    ids: InodeIds,
) -> Option<u64> {
    match key {
        Some(k) => match find_by_handle(s, k) {
            Some(id) => Some(id),
            None => find_by_ids(s, ids),
        },
        None => find_by_ids(s, ids),
    }
}

/// Sum of all refcounts in the store.
pub open spec fn total_rc(s: Seq<InodeModel>) -> nat
    decreases s.len(),
{
    if s.len() == 0 {
        0
    } else {
        (s[0].refcount + total_rc(s.drop_first())) as nat
    }
}

/// Well-formedness of the store's contents: ids are unique; every entry is
/// referenced (refcount at least one); descriptor-backed entries have
/// unique identity tuples; handle-backed entries have unique handle keys.
pub open spec fn store_wf(s: Seq<InodeModel>) -> bool {
    &&& forall|i: int, j: int|
        0 <= i < s.len() && 0 <= j < s.len() && i != j ==> s[i].inode != s[j].inode
    &&& forall|i: int| 0 <= i < s.len() ==> #[trigger] s[i].refcount >= 1
    &&& forall|i: int, j: int|
        0 <= i < s.len() && 0 <= j < s.len() && i != j && s[i].fd_backed() && s[j].fd_backed()
            ==> s[i].ids != s[j].ids
    &&& forall|i: int, j: int|
        0 <= i < s.len() && 0 <= j < s.len() && i != j && s[i].handle_key() is Some
            ==> s[i].handle_key() != s[j].handle_key()
}

/// The store itself.  The entry table is the authoritative state; the
/// identity and handle indexes are answered from it under the uniqueness
/// guarantees of `store_wf`.
#[derive(Debug)]
pub struct InodeStore {
    data: Vec<InodeData>,
}

impl View for InodeStore {
    type V = Seq<InodeModel>;

    closed spec fn view(&self) -> Seq<InodeModel> {
        self.data@.map_values(|e: InodeData| e@)
    }
}

impl InodeStore {
    /// Well-formedness of the store.
    pub open spec fn inv(&self) -> bool {
        store_wf(self@)
    }

    /// An empty store.
    pub fn new() -> (r: InodeStore)
        ensures
            r.inv(),
            r@ == Seq::<InodeModel>::empty(),
    {
        let r = InodeStore { data: Vec::new() };
        proof {
            assert(r@ =~= Seq::<InodeModel>::empty());
        }
        r
    }

    /// Whether the store holds no inode.
    pub fn is_empty(&self) -> (r: bool)
        ensures
            r <==> self@.len() == 0,
    {
        self.data.len() == 0
    }

    /// Number of inodes in the store.
    pub fn len(&self) -> (r: usize)
        ensures
            r == self@.len(),
    {
        self.data.len()
    }

    /// Borrow the entry at a position (for iteration by the serializer).
    pub fn entry_at(&self, i: usize) -> (r: &InodeData)
        requires
            i < self@.len(),
        ensures
            r@ == self@[i as int],
    {
        &self.data[i]
    }

    /// The position of the entry with id `inode`, if present.
    fn find_index(&self, inode: u64) -> (r: Option<usize>)
        ensures
            match r {
                Some(i) => i < self@.len() && self@[i as int].inode == inode,
                None => !contains_id(self@, inode),
            },
    {
        let mut i: usize = 0;
        while i < self.data.len()
            invariant
                i <= self@.len(),
                self@.len() == self.data@.len(),
                forall|j: int| 0 <= j < i ==> self@[j].inode != inode,
            decreases self.data.len() - i,
        {
            if self.data[i].inode == inode {
                return Some(i);
            }
            i = i + 1;
        }
        None
    }

    /// Look up an inode by id (weak: no refcount change).
    pub fn get(&self, inode: u64) -> (r: Option<&InodeData>)
        requires
            self.inv(),
        ensures
            match r {
                Some(e) => contains_id(self@, inode) && e@ == entry_of(self@, inode) && e@.inode
                    == inode,
                None => !contains_id(self@, inode),
            },
    {
        match self.find_index(inode) {
            Some(i) => {
                proof {
                    lemma_idx_of_unique(self@, inode, i as int);
                }
                Some(&self.data[i])
            },
            None => None,
        }
    }

    /// Look up an inode by host identity (weak).  Answers only from
    /// descriptor-backed entries, per `find_by_ids`.
    pub fn get_by_ids(&self, ids: &InodeIds) -> (r: Option<&InodeData>)
        requires
            self.inv(),
        ensures
            match r {
                Some(e) => find_by_ids(self@, *ids) == Some(e@.inode) && e@ == entry_of(
                    self@, e@.inode) && e@.ids == *ids && e@.fd_backed(),
                None => find_by_ids(self@, *ids) is None,
            },
    {
        let mut i: usize = 0;
        while i < self.data.len()
            invariant
                self.inv(),
                i <= self@.len(),
                self@.len() == self.data@.len(),
                forall|j: int| 0 <= j < i ==> !(self@[j].fd_backed() && self@[j].ids == *ids),
            decreases self.data.len() - i,
        {
            let fd_backed = match &self.data[i].file_or_handle {
                FileOrHandle::File(_) => true,
                _ => false,
            };
            if fd_backed && self.data[i].ids.ino == ids.ino && self.data[i].ids.dev == ids.dev
                && self.data[i].ids.mnt_id == ids.mnt_id {
                proof {
                    assert(self@[i as int].fd_backed() && self@[i as int].ids == *ids);
                    lemma_idx_of_unique(self@, self@[i as int].inode, i as int);
                }
                return Some(&self.data[i]);
            }
            i = i + 1;
        }
        None
    }

    /// Look up an inode by file handle (weak).
    pub fn get_by_handle(&self, handle: &crate::file_handle::FileHandle) -> (r: Option<
        &InodeData>)
        requires
            self.inv(),
        ensures
            match r {
                Some(e) => find_by_handle(self@, handle.key()) == Some(e@.inode) && e@
                    == entry_of(self@, e@.inode) && e@.handle_key() == Some(handle.key()),
                None => find_by_handle(self@, handle.key()) is None,
            },
    {
        let mut i: usize = 0;
        while i < self.data.len()
            invariant
                self.inv(),
                i <= self@.len(),
                self@.len() == self.data@.len(),
                forall|j: int| 0 <= j < i ==> self@[j].handle_key() != Some(handle.key()),
            decreases self.data.len() - i,
        {
            let matched = match &self.data[i].file_or_handle {
                FileOrHandle::Handle(h) => h.handle.matches(handle),
                _ => false,
            };
            if matched {
                proof {
                    assert(self@[i as int].handle_key() == Some(handle.key()));
                    lemma_idx_of_unique(self@, self@[i as int].inode, i as int);
                }
                return Some(&self.data[i]);
            }
            i = i + 1;
        }
        None
    }

    /// The id behind a host identity, if a descriptor-backed entry carries
    /// it (weak).
    pub fn inode_by_ids(&self, ids: &InodeIds) -> (r: Option<u64>)
        requires
            self.inv(),
        ensures
            r == find_by_ids(self@, *ids),
    {
        match self.get_by_ids(ids) {
            Some(e) => Some(e.inode),
            None => None,
        }
    }

    /// The id behind a file handle, if an entry carries it (weak).
    pub fn inode_by_handle(&self, handle: &crate::file_handle::FileHandle) -> (r: Option<u64>)
        requires
            self.inv(),
        ensures
            r == find_by_handle(self@, handle.key()),
    {
        match self.get_by_handle(handle) {
            Some(e) => Some(e.inode),
            None => None,
        }
    }
}

/// What `forget` leaves of the store: absent ids are ignored; a refcount
/// larger than the forgotten count is decremented; otherwise the entry is
/// removed, and the refcount unit its migration info held on a parent is
/// released the same way, cascading along the parent chain.
pub open spec fn forget_spec(s: Seq<InodeModel>, id: u64, count: u64) -> Seq<InodeModel>
    decreases total_rc(s), s.len(),
        via forget_spec_decreases
{
    if !contains_id(s, id) {
        s
    } else {
        let i = idx_of(s, id);
        let e = s[i];
        if e.refcount > count {
            s.update(i, InodeModel { refcount: (e.refcount - count) as u64, ..e })
        } else {
            let s2 = s.remove(i);
            match e.mig_parent() {
                None => s2,
                Some(p) => forget_spec(s2, p, 1),
            }
        }
    }
}

#[via_fn]
proof fn forget_spec_decreases(s: Seq<InodeModel>, id: u64, count: u64) {
    if contains_id(s, id) {
        let i = idx_of(s, id);
        if !(s[i].refcount > count) {
            lemma_total_rc_remove(s, i);
        }
    }
}

/// Repeated `forget_spec`, one pair at a time.
pub open spec fn forget_many_spec(s: Seq<InodeModel>, pairs: Seq<(u64, u64)>) -> Seq<InodeModel>
    decreases pairs.len(),
{
    if pairs.len() == 0 {
        s
    } else {
        forget_many_spec(forget_spec(s, pairs[0].0, pairs[0].1), pairs.drop_first())
    }
}

/// `b` is `a` after some references were dropped: the same entry, except
/// that the refcount may be lower.
pub open spec fn entry_frame(a: InodeModel, b: InodeModel) -> bool {
    &&& a.inode == b.inode
    &&& a.backing == b.backing
    &&& a.ids == b.ids
    &&& a.mode == b.mode
    &&& a.migration_info == b.migration_info
    &&& a.refcount <= b.refcount
}

/// Removing an entry removes exactly its refcount from the total.
pub proof fn lemma_total_rc_remove(s: Seq<InodeModel>, i: int)
    requires
        0 <= i < s.len(),
    ensures
        total_rc(s.remove(i)) + s[i].refcount == total_rc(s),
    decreases s.len(),
{
    if i == 0 {
        assert(s.remove(0) =~= s.drop_first());
    } else {
        assert(s.remove(i).drop_first() =~= s.drop_first().remove(i - 1));
        lemma_total_rc_remove(s.drop_first(), i - 1);
    }
}

/// Updating one entry shifts the total by the refcount difference.
pub proof fn lemma_total_rc_update(s: Seq<InodeModel>, i: int, e: InodeModel)
    requires
        0 <= i < s.len(),
    ensures
        total_rc(s.update(i, e)) + s[i].refcount == total_rc(s) + e.refcount,
    decreases s.len(),
{
    if i == 0 {
        assert(s.update(0, e).drop_first() =~= s.drop_first());
    } else {
        assert(s.update(i, e).drop_first() =~= s.drop_first().update(i - 1, e));
        lemma_total_rc_update(s.drop_first(), i - 1, e);
    }
}

/// Appending an entry adds its refcount to the total.
pub proof fn lemma_total_rc_push(s: Seq<InodeModel>, e: InodeModel)
    ensures
        total_rc(s.push(e)) == total_rc(s) + e.refcount,
    decreases s.len(),
{
    assert(s.push(e).len() == s.len() + 1);
    assert(total_rc(s.push(e)) == s.push(e)[0].refcount + total_rc(s.push(e).drop_first()));
    if s.len() == 0 {
        assert(s.push(e)[0] == e);
        assert(s.push(e).drop_first() =~= Seq::<InodeModel>::empty());
        assert(total_rc(Seq::<InodeModel>::empty()) == 0);
    } else {
        assert(s.push(e)[0] == s[0]);
        assert(s.push(e).drop_first() =~= s.drop_first().push(e));
        lemma_total_rc_push(s.drop_first(), e);
    }
}

/// A well-formed store with an entry removed is still well-formed.
pub proof fn lemma_wf_remove(s: Seq<InodeModel>, i: int)
    requires
        store_wf(s),
        0 <= i < s.len(),
    ensures
        store_wf(s.remove(i)),
{
    let s2 = s.remove(i);
    assert forall|a: int, b: int|
        0 <= a < s2.len() && 0 <= b < s2.len() && a != b implies s2[a].inode != s2[b].inode && (
    s2[a].fd_backed() && s2[b].fd_backed() ==> s2[a].ids != s2[b].ids) && (s2[a].handle_key()
        is Some ==> s2[a].handle_key() != s2[b].handle_key()) by {
        let a0 = if a < i { a } else { a + 1 };
        let b0 = if b < i { b } else { b + 1 };
        assert(s2[a] == s[a0] && s2[b] == s[b0]);
    }
    assert forall|a: int| 0 <= a < s2.len() implies #[trigger] s2[a].refcount >= 1 by {
        let a0 = if a < i { a } else { a + 1 };
        assert(s2[a] == s[a0]);
    }
}

/// A well-formed store with one entry's refcount changed (to a nonzero
/// value) is still well-formed.
pub proof fn lemma_wf_update_rc(s: Seq<InodeModel>, i: int, e: InodeModel)
    requires
        store_wf(s),
        0 <= i < s.len(),
        e.inode == s[i].inode,
        e.backing == s[i].backing,
        e.ids == s[i].ids,
        e.refcount >= 1,
    ensures
        store_wf(s.update(i, e)),
{
    let s2 = s.update(i, e);
    assert(forall|a: int| 0 <= a < s2.len() && a != i ==> s2[a] == s[a]);
}

/// `forget_spec` never adds entries, never touches surviving entries other
/// than lowering refcounts, and keeps the store well-formed.
pub proof fn lemma_forget_spec_props(s: Seq<InodeModel>, id: u64, count: u64)
    requires
        store_wf(s),
    ensures
        store_wf(forget_spec(s, id, count)),
        forall|x: u64|
            contains_id(#[trigger] forget_spec(s, id, count), x) ==> contains_id(s, x)
                && entry_frame(entry_of(forget_spec(s, id, count), x), entry_of(s, x)),
    decreases total_rc(s), s.len(),
{
    let res = forget_spec(s, id, count);
    if !contains_id(s, id) {
        assert forall|x: u64| contains_id(res, x) implies contains_id(s, x) && entry_frame(
            entry_of(res, x), entry_of(s, x)) by {
            assert(entry_of(res, x) == entry_of(s, x));
        }
    } else {
        let i = idx_of(s, id);
        let e = s[i];
        if e.refcount > count {
            let e2 = InodeModel { refcount: (e.refcount - count) as u64, ..e };
            lemma_wf_update_rc(s, i, e2);
            assert forall|x: u64| contains_id(res, x) implies contains_id(s, x) && entry_frame(
                entry_of(res, x), entry_of(s, x)) by {
                let k = idx_of(res, x);
                assert(0 <= k < res.len() && res[k].inode == x);
                assert(s[k].inode == x);
                assert(contains_id(s, x));
                lemma_idx_of_unique(s, x, k);
                if k == i {
                    assert(entry_of(res, x) == e2);
                } else {
                    assert(entry_of(res, x) == s[k]);
                }
            }
        } else {
            let s2 = s.remove(i);
            lemma_wf_remove(s, i);
            lemma_total_rc_remove(s, i);
            assert forall|x: u64| contains_id(s2, x) implies contains_id(s, x) && entry_frame(
                entry_of(s2, x), entry_of(s, x)) by {
                let k = idx_of(s2, x);
                assert(0 <= k < s2.len() && s2[k].inode == x);
                let k0 = if k < i { k } else { k + 1 };
                assert(s2[k] == s[k0]);
                lemma_idx_of_unique(s, x, k0);
                lemma_idx_of_unique(s2, x, k);
            }
            match e.mig_parent() {
                None => {
                },
                Some(p) => {
                    lemma_forget_spec_props(s2, p, 1);
                    assert forall|x: u64| contains_id(res, x) implies contains_id(s, x)
                        && entry_frame(entry_of(res, x), entry_of(s, x)) by {
                        assert(contains_id(s2, x));
                        assert(entry_frame(entry_of(res, x), entry_of(s2, x)));
                        assert(entry_frame(entry_of(s2, x), entry_of(s, x)));
                    }
                },
            }
        }
    }
}

/// Occurrences of `x` in a list of inode ids.
pub open spec fn count_in(ps: Seq<u64>, x: u64) -> nat
    decreases ps.len(),
{
    if ps.len() == 0 {
        0
    } else {
        ((if ps[0] == x {
            1nat
        } else {
            0nat
        }) + count_in(ps.drop_first(), x)) as nat
    }
}

/// How many of `s`'s entries hold a migration-info reference on `id` that
/// `clear_migration_info` releases: the non-root entries whose location
/// names `id` as parent (the root's permanent info is not cleared).
pub open spec fn released_on(s: Seq<InodeModel>, id: u64) -> nat
    decreases s.len(),
{
    if s.len() == 0 {
        0
    } else {
        ((if s[0].inode != ROOT_ID && s[0].mig_parent() == Some(id) {
            1nat
        } else {
            0nat
        }) + released_on(s.drop_first(), id)) as nat
    }
}

/// Appending an id adjusts the occurrence count by one where it matches.
pub proof fn lemma_count_in_push(ps: Seq<u64>, x: u64, id: u64)
    ensures
        count_in(ps.push(x), id) == count_in(ps, id) + (if x == id {
            1nat
        } else {
            0nat
        }),
    decreases ps.len(),
{
    if ps.len() == 0 {
        assert(ps.push(x)[0] == x);
        assert(ps.push(x).drop_first() =~= Seq::<u64>::empty());
        assert(count_in(Seq::<u64>::empty(), id) == 0);
        assert(ps =~= Seq::<u64>::empty());
    } else {
        assert(ps.push(x)[0] == ps[0]);
        assert(ps.push(x).drop_first() =~= ps.drop_first().push(x));
        lemma_count_in_push(ps.drop_first(), x, id);
    }
}

/// Appending an entry adjusts the release count by its own reference.
pub proof fn lemma_released_on_push(s: Seq<InodeModel>, e: InodeModel, id: u64)
    ensures
        released_on(s.push(e), id) == released_on(s, id) + (if e.inode != ROOT_ID
            && e.mig_parent() == Some(id) {
            1nat
        } else {
            0nat
        }),
    decreases s.len(),
{
    if s.len() == 0 {
        assert(s.push(e)[0] == e);
        assert(s.push(e).drop_first() =~= Seq::<InodeModel>::empty());
        assert(released_on(Seq::<InodeModel>::empty(), id) == 0);
        assert(s =~= Seq::<InodeModel>::empty());
    } else {
        assert(s.push(e)[0] == s[0]);
        assert(s.push(e).drop_first() =~= s.drop_first().push(e));
        lemma_released_on_push(s.drop_first(), e, id);
    }
}

impl InodeStore {
    /// Decrement the refcount of `inode` by `count` (saturating), removing
    /// the entry when it reaches zero and releasing any parent reference
    /// its migration info held.
    pub fn forget_one(&mut self, inode: u64, count: u64)
        requires
            old(self).inv(),
        ensures
            final(self).inv(),
            final(self)@ == forget_spec(old(self)@, inode, count),
    {
        let ghost orig = self@;
        let mut cur_id: u64 = inode;
        let mut cur_count: u64 = count;
        let mut done: bool = false;
        while !done
            invariant
                self.inv(),
                done ==> self@ == forget_spec(orig, inode, count),
                !done ==> forget_spec(orig, inode, count) == forget_spec(
                    self@, cur_id, cur_count),
            decreases total_rc(self@), (if done { 0int } else { 1int }),
        {
            let ghost pre = self@;
            match self.find_index(cur_id) {
                None => {
                    done = true;
                },
                Some(i) => {
                    proof {
                        lemma_idx_of_unique(pre, cur_id, i as int);
                    }
                    let rc = self.data[i].refcount;
                    if rc > cur_count {
                        let mut e = self.data.remove(i);
                        e.refcount = rc - cur_count;
                        self.data.insert(i, e);
                        proof {
                            assert(self@ =~= pre.update(
                                i as int,
                                InodeModel {
                                    refcount: (pre[i as int].refcount - cur_count) as u64,
                                    ..pre[i as int]
                                },
                            ));
                            lemma_wf_update_rc(pre, i as int, self@[i as int]);
                            lemma_total_rc_update(pre, i as int, self@[i as int]);
                        }
                        done = true;
                    } else {
                        let e = self.data.remove(i);
                        proof {
                            assert(self@ =~= pre.remove(i as int));
                            lemma_wf_remove(pre, i as int);
                            lemma_total_rc_remove(pre, i as int);
                        }
                        match e.migration_info {
                            Some(mi) => match mi.location {
                                InodeLocation::Path { parent, .. } => {
                                    proof {
                                        assert(pre[i as int].mig_parent() == Some(parent));
                                    }
                                    cur_id = parent;
                                    cur_count = 1;
                                },
                                InodeLocation::RootNode => {
                                    proof {
                                        assert(pre[i as int].mig_parent() is None);
                                    }
                                    done = true;
                                },
                            },
                            None => {
                                proof {
                                    assert(pre[i as int].mig_parent() is None);
                                }
                                done = true;
                            },
                        }
                    }
                },
            }
        }
    }

    /// Remove `inode` outright (whatever its refcount), releasing any
    /// parent reference its migration info held.
    pub fn remove(&mut self, inode: u64)
        requires
            old(self).inv(),
        ensures
            final(self).inv(),
            final(self)@ == forget_spec(old(self)@, inode, u64::MAX),
    {
        self.forget_one(inode, u64::MAX);
    }

    /// Forget a batch of `(inode, count)` pairs, in order.
    pub fn forget_many(&mut self, pairs: &Vec<(u64, u64)>)
        requires
            old(self).inv(),
        ensures
            final(self).inv(),
            final(self)@ == forget_many_spec(old(self)@, pairs@),
    {
        let ghost orig = self@;
        proof {
            assert(pairs@.skip(0) =~= pairs@);
        }
        let mut i: usize = 0;
        while i < pairs.len()
            invariant
                self.inv(),
                i <= pairs@.len(),
                forget_many_spec(orig, pairs@) == forget_many_spec(
                    self@, pairs@.skip(i as int)),
            decreases pairs@.len() - i,
        {
            let ghost pre = self@;
            let (id, count) = pairs[i];
            proof {
                assert(pairs@.skip(i as int).drop_first() =~= pairs@.skip(i + 1 as int));
                assert(pairs@.skip(i as int)[0] == pairs@[i as int]);
                assert(pairs@.skip(i as int).len() > 0);
            }
            self.forget_one(id, count);
            i = i + 1;
        }
        proof {
            assert(pairs@.skip(pairs@.len() as int) =~= Seq::<(u64, u64)>::empty());
        }
    }
}

/// With unique ids, an index holding `id` is the index `idx_of` denotes.
pub proof fn lemma_idx_of_unique(s: Seq<InodeModel>, id: u64, i: int)
    requires
        store_wf(s),
        0 <= i < s.len(),
        s[i].inode == id,
    ensures
        contains_id(s, id),
        idx_of(s, id) == i,
        entry_of(s, id) == s[i],
{
    assert(contains_id(s, id));
    let k = idx_of(s, id);
    assert(0 <= k < s.len() && s[k].inode == id);
    if k != i {
        assert(s[k].inode != s[i].inode);
        assert(false);
    }
}

/// The store with `id`'s refcount raised by one.
pub open spec fn bump_rc(s: Seq<InodeModel>, id: u64) -> Seq<InodeModel> {
    let i = idx_of(s, id);
    s.update(i, InodeModel { refcount: (s[i].refcount + 1) as u64, ..s[i] })
}

/// The store after the parent reference held by `e`'s migration info (if
/// any) has been released.  This is what dropping a discarded entry does.
pub open spec fn release_entry(s: Seq<InodeModel>, e: InodeModel) -> Seq<InodeModel> {
    match e.mig_parent() {
        Some(p) => forget_spec(s, p, 1),
        None => s,
    }
}

/// The store with `id`'s migration info replaced by `mi`.
pub open spec fn with_mig(s: Seq<InodeModel>, id: u64, mi: Option<MigrationInfoModel>) -> Seq<
    InodeModel> {
    s.update(idx_of(s, id), InodeModel { migration_info: mi, ..entry_of(s, id) })
}

/// The key of an optional file handle.
pub open spec fn opt_key(h: Option<&crate::file_handle::FileHandle>) -> Option<(u64, i32, Seq<
    u8>)> {
    match h {
        Some(fh) => Some(fh.key()),
        None => None,
    }
}

/// The model of an optional migration info.
pub open spec fn opt_mi_view(info: Option<InodeMigrationInfo>) -> Option<MigrationInfoModel> {
    match info {
        Some(mi) => Some(mi@),
        None => None,
    }
}

/// Appending an entry with a fresh id and fresh identity keys keeps the
/// store well-formed.
pub proof fn lemma_wf_push(s: Seq<InodeModel>, e: InodeModel)
    requires
        store_wf(s),
        !contains_id(s, e.inode),
        e.refcount >= 1,
        e.fd_backed() ==> find_by_ids(s, e.ids) is None,
        e.handle_key() is Some ==> find_by_handle(s, e.handle_key()->0) is None,
    ensures
        store_wf(s.push(e)),
{
    let s2 = s.push(e);
    let n = s.len() as int;
    assert(s2[n] == e);
    assert(forall|i: int| 0 <= i < n ==> s2[i] == s[i]);
    assert forall|i: int, j: int|
        0 <= i < s2.len() && 0 <= j < s2.len() && i != j implies s2[i].inode != s2[j].inode by {
        if i < n && j < n {
        } else if i == n {
            assert(!(0 <= j < s.len() && s[j].inode == e.inode));
        } else {
            assert(!(0 <= i < s.len() && s[i].inode == e.inode));
        }
    }
    assert forall|i: int, j: int|
        0 <= i < s2.len() && 0 <= j < s2.len() && i != j && s2[i].fd_backed()
            && s2[j].fd_backed() implies s2[i].ids != s2[j].ids by {
        if i == n {
            if s[j].ids == e.ids {
                assert(0 <= j < s.len() && s[j].fd_backed() && s[j].ids == e.ids);
                assert(find_by_ids(s, e.ids) is Some);
            }
        } else if j == n {
            if s[i].ids == e.ids {
                assert(0 <= i < s.len() && s[i].fd_backed() && s[i].ids == e.ids);
                assert(find_by_ids(s, e.ids) is Some);
            }
        }
    }
    assert forall|i: int, j: int|
        0 <= i < s2.len() && 0 <= j < s2.len() && i != j && s2[i].handle_key()
            is Some implies s2[i].handle_key() != s2[j].handle_key() by {
        if i == n {
            if s[j].handle_key() == e.handle_key() {
                assert(0 <= j < s.len() && s[j].handle_key() == Some(e.handle_key()->0));
                assert(find_by_handle(s, e.handle_key()->0) is Some);
            }
        } else if j == n && e.handle_key() is Some {
            if s[i].handle_key() == e.handle_key() {
                assert(0 <= i < s.len() && s[i].handle_key() == Some(e.handle_key()->0));
                assert(find_by_handle(s, e.handle_key()->0) is Some);
            }
        }
    }
}

impl InodeStore {
    /// Turn the weak id `inode` into a counted reference: raise its
    /// refcount by one.  Fails with `NotFound` when the inode is not in the
    /// store (so a zero refcount is never raised: such an entry was already
    /// removed), and refuses to overflow the refcount.
    pub fn get_strong(&mut self, inode: u64) -> (r: Result<u64, FsError>)
        requires
            old(self).inv(),
        ensures
            final(self).inv(),
            !contains_id(old(self)@, inode) ==> r is Err && r->Err_0.kind == ErrorKind::NotFound
                && final(self)@ == old(self)@,
            contains_id(old(self)@, inode) && entry_of(old(self)@, inode).refcount == u64::MAX
                ==> r is Err && r->Err_0.kind == ErrorKind::Other && final(self)@ == old(
            self)@,
            contains_id(old(self)@, inode) && entry_of(old(self)@, inode).refcount < u64::MAX
                ==> r == Ok::<u64, FsError>(inode) && final(self)@ == bump_rc(
                old(self)@, inode),
    {
        let ghost pre = self@;
        match self.find_index(inode) {
            None => Err(FsError::new(ErrorKind::NotFound)),
            Some(i) => {
                proof {
                    lemma_idx_of_unique(pre, inode, i as int);
                }
                let rc = self.data[i].refcount;
                if rc == u64::MAX {
                    Err(FsError::new(ErrorKind::Other))
                } else {
                    let mut e = self.data.remove(i);
                    e.refcount = rc + 1;
                    self.data.insert(i, e);
                    proof {
                        assert(self@ =~= bump_rc(pre, inode));
                        lemma_wf_update_rc(pre, i as int, self@[i as int]);
                    }
                    Ok(inode)
                }
            },
        }
    }

    /// Attempt to claim an inode: by its file handle first, then by its
    /// host identity tuple (which only descriptor-backed entries answer).
    /// On a hit the entry's refcount is raised by one and its id returned;
    /// the caller balances with `forget_one`.
    pub fn claim_inode(
        &mut self,
        handle: Option<&crate::file_handle::FileHandle>,
        ids: &InodeIds,
    ) -> (r: Result<u64, FsError>)
        requires
            old(self).inv(),
        ensures
            final(self).inv(),
            claim_target(old(self)@, opt_key(handle), *ids) is None ==> r is Err
                && r->Err_0.kind == ErrorKind::NotFound && final(self)@ == old(self)@,
            match claim_target(old(self)@, opt_key(handle), *ids) {
                Some(t) => {
                    &&& contains_id(old(self)@, t)
                    &&& entry_of(old(self)@, t).refcount < u64::MAX ==> r == Ok::<u64, FsError>(
                        t) && final(self)@ == bump_rc(old(self)@, t)
                    &&& entry_of(old(self)@, t).refcount == u64::MAX ==> r is Err
                        && r->Err_0.kind == ErrorKind::Other && final(self)@ == old(self)@
                },
                None => true,
            },
    {
        let ghost pre = self@;
        let found: Option<u64> = match handle {
            Some(h) => match self.inode_by_handle(h) {
                Some(id) => Some(id),
                None => self.inode_by_ids(ids),
            },
            None => self.inode_by_ids(ids),
        };
        proof {
            assert(found == claim_target(pre, opt_key(handle), *ids));
            match found {
                Some(t) => {
                    if find_by_handle(pre, opt_key(handle)->0) == Some(t) && opt_key(handle)
                        is Some {
                        let i = choose|i: int|
                            0 <= i < pre.len() && pre[i].handle_key() == Some(
                                opt_key(handle)->0);
                        assert(pre[i].inode == t);
                        assert(contains_id(pre, t));
                    }
                    if find_by_ids(pre, *ids) == Some(t) {
                        let i = choose|i: int|
                            0 <= i < pre.len() && pre[i].fd_backed() && pre[i].ids == *ids;
                        assert(pre[i].inode == t);
                        assert(contains_id(pre, t));
                    }
                },
                None => {},
            }
        }
        match found {
            None => Err(FsError::new(ErrorKind::NotFound)),
            Some(id) => self.get_strong(id),
        }
    }

    /// Insert an entry known to be fresh (private helper).
    fn insert_new(&mut self, entry: InodeData)
        requires
            old(self).inv(),
            !contains_id(old(self)@, entry@.inode),
            entry@.refcount >= 1,
            entry@.fd_backed() ==> find_by_ids(old(self)@, entry@.ids) is None,
            entry@.handle_key() is Some ==> find_by_handle(old(self)@, entry@.handle_key()->0)
                is None,
        ensures
            final(self).inv(),
            final(self)@ == old(self)@.push(entry@),
    {
        let ghost pre = self@;
        let ghost e = entry@;
        self.data.push(entry);
        proof {
            assert(self@ =~= pre.push(e));
            lemma_wf_push(pre, e);
        }
    }

    /// Release the parent reference that a discarded entry's migration info
    /// held (private helper for the paths that drop an entry).
    fn release_discarded(&mut self, entry: InodeData)
        requires
            old(self).inv(),
        ensures
            final(self).inv(),
            final(self)@ == release_entry(old(self)@, entry@),
    {
        match entry.migration_info {
            Some(mi) => match mi.location {
                InodeLocation::Path { parent, .. } => {
                    self.forget_one(parent, 1);
                },
                InodeLocation::RootNode => {},
            },
            None => {},
        }
    }

    /// Insert `entry` regardless of whether a matching inode exists, but
    /// refuse an id already in use, a second descriptor-backed entry with
    /// the same host identity, a second entry with the same file handle, or
    /// a zero refcount (such an entry is not live).  A refused entry is
    /// discarded, releasing any parent reference its migration info held.
    pub fn new_inode(&mut self, entry: InodeData) -> (r: Result<(), FsError>)
        requires
            old(self).inv(),
        ensures
            final(self).inv(),
            ({
                let dup = contains_id(old(self)@, entry@.inode) || (entry@.fd_backed()
                    && find_by_ids(old(self)@, entry@.ids) is Some) || (entry@.handle_key()
                    is Some && find_by_handle(old(self)@, entry@.handle_key()->0) is Some);
                &&& (dup || entry@.refcount == 0) ==> r is Err && final(self)@ == release_entry(
                    old(self)@, entry@)
                &&& (dup && entry@.refcount >= 1) ==> r->Err_0.kind == ErrorKind::Other
                &&& (!dup && entry@.refcount == 0) ==> r->Err_0.kind
                    == ErrorKind::InvalidArgument
                &&& (!dup && entry@.refcount >= 1) ==> r is Ok && final(self)@ == old(
                self)@.push(entry@)
            }),
    {
        let ghost pre = self@;
        let id_taken = match self.find_index(entry.inode) {
            Some(_) => true,
            None => false,
        };
        let ids_taken = match &entry.file_or_handle {
            FileOrHandle::File(_) => match self.inode_by_ids(&entry.ids) {
                Some(_) => true,
                None => false,
            },
            _ => false,
        };
        let handle_taken = match &entry.file_or_handle {
            FileOrHandle::Handle(h) => match self.inode_by_handle(&h.handle) {
                Some(_) => true,
                None => false,
            },
            _ => false,
        };
        if id_taken || ids_taken || handle_taken {
            self.release_discarded(entry);
            return Err(FsError::new(ErrorKind::Other));
        }
        if entry.refcount == 0 {
            self.release_discarded(entry);
            return Err(FsError::new(ErrorKind::InvalidArgument));
        }
        self.insert_new(entry);
        Ok(())
    }

    /// If a matching inode is already present (see `claim_inode`), claim
    /// and return it, discarding `entry` (and releasing any parent
    /// reference its migration info held).  Otherwise insert `entry` with
    /// its refcount hard-set to one — the returned reference is the only
    /// one that exists.
    pub fn get_or_insert(&mut self, entry: InodeData) -> (r: Result<u64, FsError>)
        requires
            old(self).inv(),
        ensures
            final(self).inv(),
            match claim_target(old(self)@, entry@.handle_key(), entry@.ids) {
                Some(t) => {
                    &&& contains_id(old(self)@, t)
                    &&& entry_of(old(self)@, t).refcount < u64::MAX ==> r == Ok::<u64, FsError>(
                        t) && final(self)@ == release_entry(bump_rc(old(self)@, t), entry@)
                    &&& entry_of(old(self)@, t).refcount == u64::MAX ==> r is Err
                        && final(self)@ == release_entry(old(self)@, entry@)
                },
                None => {
                    &&& contains_id(old(self)@, entry@.inode) ==> r is Err && r->Err_0.kind
                        == ErrorKind::Other && final(self)@ == release_entry(
                        old(self)@, entry@)
                    &&& !contains_id(old(self)@, entry@.inode) ==> r == Ok::<u64, FsError>(
                        entry@.inode) && final(self)@ == old(self)@.push(
                        InodeModel { refcount: 1u64, ..entry@ })
                },
            },
    {
        let ghost pre = self@;
        let claimed: Result<u64, FsError> = {
            let handle_ref: Option<&crate::file_handle::FileHandle> = match &entry.file_or_handle
                {
                FileOrHandle::Handle(h) => Some(&h.handle),
                _ => None,
            };
            proof {
                assert(opt_key(handle_ref) == entry@.handle_key());
            }
            self.claim_inode(handle_ref, &entry.ids)
        };
        match claimed {
            Ok(id) => {
                self.release_discarded(entry);
                Ok(id)
            },
            Err(e) => {
                if match e.kind {
                    ErrorKind::NotFound => false,
                    _ => true,
                } {
                    // Refcount overflow on the matching entry.
                    self.release_discarded(entry);
                    return Err(e);
                }
                // No matching inode: insert `entry` as the only reference.
                if match self.find_index(entry.inode) {
                    Some(_) => true,
                    None => false,
                } {
                    self.release_discarded(entry);
                    return Err(FsError::new(ErrorKind::Other));
                }
                let mut entry = entry;
                entry.refcount = 1;
                let new_id = entry.inode;
                self.insert_new(entry);
                Ok(new_id)
            },
        }
    }

    /// Replace `inode`'s migration info, releasing the parent reference the
    /// old info held (the new info's parent reference must already be
    /// counted by the caller).
    pub fn set_migration_info(&mut self, inode: u64, info: Option<InodeMigrationInfo>)
        requires
            old(self).inv(),
            contains_id(old(self)@, inode),
        ensures
            final(self).inv(),
            final(self)@ == release_entry(
                with_mig(old(self)@, inode, opt_mi_view(info)),
                entry_of(old(self)@, inode),
            ),
    {
        let ghost pre = self@;
        let i = match self.find_index(inode) {
            Some(i) => i,
            None => {
                proof {
                    assert(false);
                }
                0
            },
        };
        proof {
            lemma_idx_of_unique(pre, inode, i as int);
        }
        let mut e = self.data.remove(i);
        let old_info = e.migration_info;
        e.migration_info = info;
        self.data.insert(i, e);
        proof {
            assert(self@ =~= with_mig(pre, inode, opt_mi_view(info)));
            lemma_wf_update_rc(pre, i as int, self@[i as int]);
        }
        match old_info {
            Some(mi) => match mi.location {
                InodeLocation::Path { parent, .. } => {
                    self.forget_one(parent, 1);
                },
                InodeLocation::RootNode => {},
            },
            None => {},
        }
    }

    /// Clear every inode's migration info, except the root's, which is
    /// kept for the next migration.  Parent references held by the cleared
    /// infos are collected first and released afterwards, one by one,
    /// through the same removal path as `forget_one` (the drop-while-
    /// holding-the-store discipline).  Exactly the inodes whose refcount
    /// exceeds the references released on them survive, each with its
    /// refcount reduced by that number; an inode kept alive only by its
    /// children's migration info disappears here.  (The exact accounting
    /// is stated under the one assumption the crate's own constructors
    /// guarantee: the root's permanent info names no parent.)
    pub fn clear_migration_info(&mut self)
        requires
            old(self).inv(),
        ensures
            final(self).inv(),
            forall|x: u64| #[trigger]
                contains_id(final(self)@, x) ==> contains_id(old(self)@, x) && entry_of(
                    final(self)@, x).backing == entry_of(old(self)@, x).backing && entry_of(
                    final(self)@, x).ids == entry_of(old(self)@, x).ids && entry_of(
                    final(self)@, x).mode == entry_of(old(self)@, x).mode && entry_of(
                    final(self)@, x).refcount <= entry_of(old(self)@, x).refcount && (x
                    != ROOT_ID ==> entry_of(final(self)@, x).migration_info is None) && (x
                    == ROOT_ID ==> entry_of(final(self)@, x).migration_info == entry_of(
                    old(self)@, x).migration_info),
            (contains_id(old(self)@, ROOT_ID) ==> entry_of(old(self)@, ROOT_ID).mig_parent()
                is None) ==> (forall|x: u64| #[trigger]
                contains_id(old(self)@, x) ==> ({
                    let rel = released_on(old(self)@, x);
                    let rc0 = entry_of(old(self)@, x).refcount;
                    &&& (rc0 > rel ==> contains_id(final(self)@, x) && entry_of(
                        final(self)@,
                        x,
                    ).refcount == rc0 - rel)
                    &&& (rc0 <= rel ==> !contains_id(final(self)@, x))
                })),
    {
        let ghost orig = self@;
        let mut parents: Vec<u64> = Vec::new();
        proof {
            assert(orig.take(0) =~= Seq::<InodeModel>::empty());
            assert(parents@ =~= Seq::<u64>::empty());
            assert forall|x: u64| #[trigger] count_in(parents@, x) == released_on(
                orig.take(0),
                x,
            ) by {
                assert(count_in(Seq::<u64>::empty(), x) == 0);
                assert(released_on(Seq::<InodeModel>::empty(), x) == 0);
            }
        }
        let mut i: usize = 0;
        while i < self.data.len()
            invariant
                self.inv(),
                self@.len() == orig.len(),
                i <= self@.len(),
                self@.len() == self.data@.len(),
                forall|j: int|
                    0 <= j < orig.len() ==> #[trigger] self@[j].inode == orig[j].inode
                        && self@[j].backing == orig[j].backing && self@[j].ids == orig[j].ids
                        && self@[j].mode == orig[j].mode && self@[j].refcount
                        == orig[j].refcount,
                forall|j: int|
                    0 <= j < i && self@[j].inode != ROOT_ID ==> #[trigger] self@[j].migration_info
                        is None,
                forall|j: int|
                    0 <= j < orig.len() && (j >= i || self@[j].inode == ROOT_ID)
                        ==> #[trigger] self@[j].migration_info == orig[j].migration_info,
                forall|x: u64| #[trigger]
                    count_in(parents@, x) == released_on(orig.take(i as int), x),
            decreases self.data.len() - i,
        {
            let ghost pre = self@;
            let ghost old_parents = parents@;
            let is_root = self.data[i].inode == ROOT_ID;
            let has_info = match &self.data[i].migration_info {
                Some(_) => true,
                None => false,
            };
            let mut pushed: Option<u64> = None;
            if !is_root && has_info {
                let mut e = self.data.remove(i);
                let ghost e0 = e@;
                proof {
                    assert(e0 == pre[i as int]);
                }
                let parent_opt: Option<u64> = match &e.migration_info {
                    Some(mi) => match &mi.location {
                        InodeLocation::Path { parent, .. } => Some(*parent),
                        InodeLocation::RootNode => None,
                    },
                    None => None,
                };
                proof {
                    assert(e0.mig_parent() == parent_opt);
                }
                e.migration_info = None;
                self.data.insert(i, e);
                proof {
                    assert(self@ =~= pre.update(
                        i as int,
                        InodeModel { migration_info: None, ..pre[i as int] },
                    ));
                    lemma_wf_update_rc(pre, i as int, self@[i as int]);
                }
                pushed = parent_opt;
                match parent_opt {
                    Some(p) => {
                        parents.push(p);
                    },
                    None => {},
                }
            }
            proof {
                // The release count tracks the entries walked so far.
                assert(orig.take(i + 1 as int) =~= orig.take(i as int).push(orig[i as int]));
                assert(pre[i as int].inode == orig[i as int].inode);
                assert(pre[i as int].migration_info == orig[i as int].migration_info);
                if is_root {
                    assert(orig[i as int].inode == ROOT_ID);
                } else if !has_info {
                    assert(orig[i as int].migration_info is None);
                    assert(orig[i as int].mig_parent() is None);
                } else {
                    assert(orig[i as int].inode != ROOT_ID);
                    assert(orig[i as int].mig_parent() == pushed);
                }
                assert forall|x: u64| #[trigger] count_in(parents@, x) == released_on(
                    orig.take(i + 1 as int),
                    x,
                ) by {
                    lemma_released_on_push(orig.take(i as int), orig[i as int], x);
                    match pushed {
                        Some(p) => {
                            assert(parents@ =~= old_parents.push(p));
                            lemma_count_in_push(old_parents, p, x);
                        },
                        None => {
                            assert(parents@ =~= old_parents);
                        },
                    }
                }
            }
            i = i + 1;
        }
        let ghost mid = self@;
        let ghost guard = contains_id(orig, ROOT_ID) ==> entry_of(orig, ROOT_ID).mig_parent()
            is None;
        proof {
            assert(orig.take(orig.len() as int) =~= orig);
            assert forall|x: u64| #[trigger] contains_id(mid, x) implies contains_id(mid, x)
                && entry_frame(entry_of(mid, x), entry_of(mid, x)) by {}
            // Under the root assumption, no surviving info names a parent,
            // so the releases below can never cascade.
            if guard {
                assert forall|x: u64| #[trigger] contains_id(mid, x) implies entry_of(
                    mid,
                    x,
                ).mig_parent() is None by {
                    let j = idx_of(mid, x);
                    assert(0 <= j < mid.len() && mid[j].inode == x);
                    if mid[j].inode == ROOT_ID {
                        assert(orig[j].inode == ROOT_ID);
                        lemma_idx_of_unique(orig, ROOT_ID, j);
                        assert(mid[j].migration_info == orig[j].migration_info);
                    } else {
                        assert(mid[j].migration_info is None);
                    }
                }
            }
            assert(parents@.take(0) =~= Seq::<u64>::empty());
            assert forall|x: u64| #[trigger]
                contains_id(mid, x) implies count_in(parents@.take(0), x) == 0 by {
                assert(count_in(Seq::<u64>::empty(), x) == 0);
            }
        }
        let mut k: usize = 0;
        while k < parents.len()
            invariant
                self.inv(),
                store_wf(mid),
                k <= parents@.len(),
                guard == (contains_id(orig, ROOT_ID) ==> entry_of(orig, ROOT_ID).mig_parent()
                    is None),
                forall|x: u64| #[trigger]
                    contains_id(self@, x) ==> contains_id(mid, x) && entry_frame(
                        entry_of(self@, x), entry_of(mid, x)),
                guard ==> (forall|x: u64| #[trigger]
                    contains_id(mid, x) ==> entry_of(mid, x).mig_parent() is None),
                guard ==> (forall|x: u64| #[trigger]
                    contains_id(mid, x) ==> ({
                        let cdone = count_in(parents@.take(k as int), x);
                        let mrc = entry_of(mid, x).refcount;
                        &&& (mrc > cdone ==> contains_id(self@, x) && entry_of(
                            self@,
                            x,
                        ).refcount == mrc - cdone && entry_of(self@, x).migration_info
                            == entry_of(mid, x).migration_info)
                        &&& (mrc <= cdone ==> !contains_id(self@, x))
                    })),
            decreases parents@.len() - k,
        {
            let ghost pre = self@;
            let p = parents[k];
            self.forget_one(p, 1);
            proof {
                lemma_forget_spec_props(pre, p, 1);
                assert forall|x: u64| #[trigger] contains_id(self@, x) implies contains_id(
                    mid, x) && entry_frame(entry_of(self@, x), entry_of(mid, x)) by {
                    assert(contains_id(pre, x));
                    assert(entry_frame(entry_of(self@, x), entry_of(pre, x)));
                }
                assert(parents@.take(k + 1 as int) =~= parents@.take(k as int).push(p));
                if guard {
                    assert forall|x: u64| #[trigger] contains_id(mid, x) implies ({
                        let cdone = count_in(parents@.take(k + 1 as int), x);
                        let mrc = entry_of(mid, x).refcount;
                        &&& (mrc > cdone ==> contains_id(self@, x) && entry_of(
                            self@,
                            x,
                        ).refcount == mrc - cdone && entry_of(self@, x).migration_info
                            == entry_of(mid, x).migration_info)
                        &&& (mrc <= cdone ==> !contains_id(self@, x))
                    }) by {
                        lemma_count_in_push(parents@.take(k as int), p, x);
                        let cdone = count_in(parents@.take(k as int), x);
                        let mrc = entry_of(mid, x).refcount;
                        let rooted = contains_id(pre, p);
                        if !rooted {
                            assert(forget_spec(pre, p, 1) == pre);
                            if x == p {
                                assert(mrc <= cdone);
                            }
                        } else {
                            // The entry being released: present with a
                            // cleared info, so the release cannot cascade.
                            assert(contains_id(mid, p));
                            let cp = count_in(parents@.take(k as int), p);
                            let mrcp = entry_of(mid, p).refcount;
                            assert(mrcp > cp);
                            let ip = idx_of(pre, p);
                            assert(0 <= ip < pre.len() && pre[ip].inode == p);
                            assert(pre[ip] == entry_of(pre, p));
                            assert(pre[ip].refcount == mrcp - cp);
                            assert(pre[ip].migration_info == entry_of(mid, p).migration_info);
                            assert(pre[ip].mig_parent() is None);
                            if pre[ip].refcount > 1 {
                                let e2 = InodeModel {
                                    refcount: (pre[ip].refcount - 1) as u64,
                                    ..pre[ip]
                                };
                                assert(self@ == pre.update(ip, e2));
                                if x == p {
                                    assert(self@[ip].inode == p);
                                    lemma_idx_of_unique(self@, p, ip);
                                } else if contains_id(pre, x) {
                                    let jx = idx_of(pre, x);
                                    assert(0 <= jx < pre.len() && pre[jx].inode == x);
                                    assert(jx != ip);
                                    assert(self@[jx] == pre[jx]);
                                    lemma_idx_of_unique(self@, x, jx);
                                    lemma_idx_of_unique(pre, x, jx);
                                } else {
                                    if contains_id(self@, x) {
                                        let jx = idx_of(self@, x);
                                        assert(pre[jx].inode == x);
                                    }
                                    assert(!contains_id(self@, x));
                                    assert(mrc <= cdone);
                                }
                            } else {
                                assert(pre[ip].refcount == 1);
                                assert(self@ == pre.remove(ip));
                                lemma_wf_remove(pre, ip);
                                if x == p {
                                    if contains_id(self@, p) {
                                        let jx = idx_of(self@, p);
                                        let j0 = if jx < ip {
                                            jx
                                        } else {
                                            jx + 1
                                        };
                                        assert(self@[jx] == pre[j0]);
                                        assert(pre[j0].inode == p && j0 != ip);
                                        assert(false);
                                    }
                                    assert(mrcp == cp + 1);
                                } else if contains_id(pre, x) {
                                    let jx = idx_of(pre, x);
                                    assert(0 <= jx < pre.len() && pre[jx].inode == x);
                                    assert(jx != ip);
                                    let j2 = if jx < ip {
                                        jx
                                    } else {
                                        jx - 1
                                    };
                                    assert(self@[j2] == pre[jx]);
                                    lemma_idx_of_unique(self@, x, j2);
                                    lemma_idx_of_unique(pre, x, jx);
                                } else {
                                    if contains_id(self@, x) {
                                        let jx = idx_of(self@, x);
                                        let j0 = if jx < ip {
                                            jx
                                        } else {
                                            jx + 1
                                        };
                                        assert(pre[j0].inode == x);
                                    }
                                    assert(!contains_id(self@, x));
                                    assert(mrc <= cdone);
                                }
                            }
                        }
                    }
                }
            }
            k = k + 1;
        }
        proof {
            assert(parents@.take(parents@.len() as int) =~= parents@);
            assert forall|x: u64| #[trigger] contains_id(self@, x) implies contains_id(orig, x)
                && entry_of(self@, x).backing == entry_of(orig, x).backing && entry_of(
                self@, x).ids == entry_of(orig, x).ids && entry_of(self@, x).mode == entry_of(
                orig, x).mode && entry_of(self@, x).refcount <= entry_of(orig, x).refcount && (x
                != ROOT_ID ==> entry_of(self@, x).migration_info is None) && (x == ROOT_ID
                ==> entry_of(self@, x).migration_info == entry_of(orig, x).migration_info) by {
                assert(contains_id(mid, x));
                let j = idx_of(mid, x);
                assert(0 <= j < mid.len() && mid[j].inode == x);
                assert(orig[j].inode == x);
                lemma_idx_of_unique(orig, x, j);
                assert(entry_of(mid, x) == mid[j]);
                if x != ROOT_ID {
                    assert(mid[j].migration_info is None);
                }
            }
            if guard {
                assert forall|x: u64| #[trigger] contains_id(orig, x) implies ({
                    let rel = released_on(orig, x);
                    let rc0 = entry_of(orig, x).refcount;
                    &&& (rc0 > rel ==> contains_id(self@, x) && entry_of(self@, x).refcount
                        == rc0 - rel)
                    &&& (rc0 <= rel ==> !contains_id(self@, x))
                }) by {
                    let j = idx_of(orig, x);
                    assert(0 <= j < orig.len() && orig[j].inode == x);
                    assert(mid[j].inode == x);
                    lemma_idx_of_unique(mid, x, j);
                    assert(entry_of(mid, x).refcount == entry_of(orig, x).refcount);
                    assert(count_in(parents@, x) == released_on(orig, x));
                }
            }
        }
    }

    /// Drop every inode at once (handles, indexes and entries).  Used by
    /// `destroy` and by re-initialization.
    pub fn clear(&mut self)
        ensures
            final(self).inv(),
            final(self)@ == Seq::<InodeModel>::empty(),
    {
        self.data.clear();
        proof {
            assert(self@ =~= Seq::<InodeModel>::empty());
        }
    }
}

/// Raising a refcount and then forgetting once cancels out: the store is
/// exactly as it was.
pub proof fn lemma_bump_then_forget(s: Seq<InodeModel>, p: u64)
    requires
        store_wf(s),
        contains_id(s, p),
        entry_of(s, p).refcount < u64::MAX,
    ensures
        forget_spec(bump_rc(s, p), p, 1) == s,
{
    let i = idx_of(s, p);
    assert(0 <= i < s.len() && s[i].inode == p);
    let b = bump_rc(s, p);
    assert(b[i].inode == p && b[i].refcount == s[i].refcount + 1);
    lemma_wf_update_rc(s, i, b[i]);
    lemma_idx_of_unique(b, p, i);
    assert(b[i].refcount > 1);
    assert(b.update(
        i,
        InodeModel { refcount: (b[i].refcount - 1) as u64, ..b[i] },
    ) =~= s);
}

/// Raising a refcount moves no entry and changes no identity, so a claim
/// resolves exactly as before.
pub proof fn lemma_claim_target_bump(
    s: Seq<InodeModel>,
    p: u64,
    key: Option<(u64, i32, Seq<u8>)>,
    ids: InodeIds,
)
    requires
        store_wf(s),
        contains_id(s, p),
    ensures
        claim_target(bump_rc(s, p), key, ids) == claim_target(s, key, ids),
{
    let b = bump_rc(s, p);
    let i = idx_of(s, p);
    assert(0 <= i < s.len() && s[i].inode == p);
    assert(b =~= s.update(i, InodeModel { refcount: (s[i].refcount + 1) as u64, ..s[i] }));
    assert(forall|j: int|
        0 <= j < s.len() ==> #[trigger] b[j].inode == s[j].inode && b[j].backing
            == s[j].backing && b[j].ids == s[j].ids);
    assert(forall|j: int|
        0 <= j < s.len() ==> (b[j].fd_backed() == s[j].fd_backed() && #[trigger] b[j].handle_key()
            == s[j].handle_key()));
    if exists|k: int| 0 <= k < s.len() && s[k].fd_backed() && s[k].ids == ids {
        let ks = choose|k: int| 0 <= k < s.len() && s[k].fd_backed() && s[k].ids == ids;
        assert(b[ks].fd_backed() && b[ks].ids == ids);
        let kb = choose|k: int| 0 <= k < b.len() && b[k].fd_backed() && b[k].ids == ids;
        assert(s[kb].fd_backed() && s[kb].ids == ids);
        if kb != ks {
            assert(s[kb].ids != s[ks].ids);
        }
        assert(find_by_ids(b, ids) == find_by_ids(s, ids));
    } else {
        if exists|k: int| 0 <= k < b.len() && b[k].fd_backed() && b[k].ids == ids {
            let kb = choose|k: int| 0 <= k < b.len() && b[k].fd_backed() && b[k].ids == ids;
            assert(s[kb].fd_backed() && s[kb].ids == ids);
            assert(false);
        }
        assert(find_by_ids(b, ids) == find_by_ids(s, ids));
    }
    match key {
        None => {},
        Some(k0) => {
            if exists|k: int| 0 <= k < s.len() && s[k].handle_key() == Some(k0) {
                let ks = choose|k: int| 0 <= k < s.len() && s[k].handle_key() == Some(k0);
                assert(b[ks].handle_key() == Some(k0));
                let kb = choose|k: int| 0 <= k < b.len() && b[k].handle_key() == Some(k0);
                assert(s[kb].handle_key() == Some(k0));
                if kb != ks {
                    assert(s[ks].handle_key() != s[kb].handle_key());
                }
                assert(find_by_handle(b, k0) == find_by_handle(s, k0));
            } else {
                if exists|k: int| 0 <= k < b.len() && b[k].handle_key() == Some(k0) {
                    let kb = choose|k: int| 0 <= k < b.len() && b[k].handle_key() == Some(k0);
                    assert(s[kb].handle_key() == Some(k0));
                    assert(false);
                }
                assert(find_by_handle(b, k0) == find_by_handle(s, k0));
            }
        },
    }
}

// ---------------------------------------------------------------------
// Reference conservation over whole histories
// ---------------------------------------------------------------------
/// One guest-visible reference event, as balanced lookup/forget traffic
/// produces it while no migration info is in play: a lookup of
/// `entry.inode` claims the stored inode (one more reference) or inserts
/// `entry` (a fresh entry with one reference and no migration info); a
/// forget drops `count` references.
pub ghost enum RefOp {
    Lookup { entry: InodeModel },
    Forget { id: u64, count: u64 },
}

/// What one event does to the store.
pub open spec fn ref_op_step(s: Seq<InodeModel>, op: RefOp) -> Seq<InodeModel> {
    match op {
        RefOp::Lookup { entry } => if contains_id(s, entry.inode) {
            bump_rc(s, entry.inode)
        } else {
            s.push(entry)
        },
        RefOp::Forget { id, count } => forget_spec(s, id, count),
    }
}

/// A whole history of events, applied in order.
pub open spec fn ref_op_run(s: Seq<InodeModel>, ops: Seq<RefOp>) -> Seq<InodeModel>
    decreases ops.len(),
{
    if ops.len() == 0 {
        s
    } else {
        ref_op_run(ref_op_step(s, ops[0]), ops.drop_first())
    }
}

/// How often `id` was looked up.
pub open spec fn lookups_of(ops: Seq<RefOp>, id: u64) -> nat
    decreases ops.len(),
{
    if ops.len() == 0 {
        0
    } else {
        ((match ops[0] {
            RefOp::Lookup { entry } => if entry.inode == id {
                1nat
            } else {
                0nat
            },
            RefOp::Forget { .. } => 0nat,
        }) + lookups_of(ops.drop_first(), id)) as nat
    }
}

/// How many references on `id` were forgotten.
pub open spec fn forgets_of(ops: Seq<RefOp>, id: u64) -> nat
    decreases ops.len(),
{
    if ops.len() == 0 {
        0
    } else {
        ((match ops[0] {
            RefOp::Forget { id: fid, count } => if fid == id {
                count as nat
            } else {
                0nat
            },
            RefOp::Lookup { .. } => 0nat,
        }) + forgets_of(ops.drop_first(), id)) as nat
    }
}

/// Balanced traffic: every looked-up entry is fresh-shaped (one
/// reference, no migration info), and no prefix forgets an inode more
/// often than it was looked up.
pub open spec fn ref_ops_wf(ops: Seq<RefOp>) -> bool {
    &&& forall|k: int|
        0 <= k < ops.len() ==> match #[trigger] ops[k] {
            RefOp::Lookup { entry } => entry.refcount == 1 && entry.migration_info is None,
            RefOp::Forget { .. } => true,
        }
    &&& forall|k: int, id: u64|
        0 <= k <= ops.len() ==> #[trigger] forgets_of(ops.take(k), id) <= lookups_of(
            ops.take(k),
            id,
        )
}

/// Appending one event extends the run.
proof fn lemma_ref_op_run_push(s: Seq<InodeModel>, ops: Seq<RefOp>, x: RefOp)
    ensures
        ref_op_run(s, ops.push(x)) == ref_op_step(ref_op_run(s, ops), x),
    decreases ops.len(),
{
    let e = Seq::<RefOp>::empty();
    if ops.len() == 0 {
        assert(ops.push(x)[0] == x);
        assert(ops.push(x).drop_first() =~= e);
        assert(ref_op_run(s, ops.push(x)) == ref_op_run(ref_op_step(s, x), e));
        assert(ops =~= e);
    } else {
        assert(ops.push(x)[0] == ops[0]);
        assert(ops.push(x).drop_first() =~= ops.drop_first().push(x));
        lemma_ref_op_run_push(ref_op_step(s, ops[0]), ops.drop_first(), x);
    }
}

/// Appending one event adjusts the per-inode counts by its own effect.
proof fn lemma_ref_counts_push(ops: Seq<RefOp>, x: RefOp, id: u64)
    ensures
        lookups_of(ops.push(x), id) == lookups_of(ops, id) + (match x {
            RefOp::Lookup { entry } => if entry.inode == id {
                1nat
            } else {
                0nat
            },
            RefOp::Forget { .. } => 0nat,
        }),
        forgets_of(ops.push(x), id) == forgets_of(ops, id) + (match x {
            RefOp::Forget { id: fid, count } => if fid == id {
                count as nat
            } else {
                0nat
            },
            RefOp::Lookup { .. } => 0nat,
        }),
    decreases ops.len(),
{
    let e = Seq::<RefOp>::empty();
    if ops.len() == 0 {
        assert(ops.push(x)[0] == x);
        assert(ops.push(x).drop_first() =~= e);
        assert(lookups_of(e, id) == 0 && forgets_of(e, id) == 0);
        assert(ops =~= e);
    } else {
        assert(ops.push(x)[0] == ops[0]);
        assert(ops.push(x).drop_first() =~= ops.drop_first().push(x));
        lemma_ref_counts_push(ops.drop_first(), x, id);
    }
}

/// After the first `k` events of balanced traffic from an empty store:
/// exactly the inodes with more lookups than forgets are present, each
/// with the difference as its refcount and no migration info.
proof fn lemma_ref_run_prefix(ops: Seq<RefOp>, k: int)
    requires
        ref_ops_wf(ops),
        forall|id: u64| #[trigger] lookups_of(ops, id) <= u64::MAX,
        0 <= k <= ops.len(),
    ensures
        ({
            let s = ref_op_run(Seq::<InodeModel>::empty(), ops.take(k));
            &&& forall|a: int, b: int|
                0 <= a < s.len() && 0 <= b < s.len() && a != b ==> s[a].inode != s[b].inode
            &&& forall|id: u64| #[trigger]
                contains_id(s, id) ==> lookups_of(ops.take(k), id) > forgets_of(
                    ops.take(k),
                    id,
                ) && entry_of(s, id).refcount == lookups_of(ops.take(k), id) - forgets_of(
                    ops.take(k),
                    id,
                ) && entry_of(s, id).migration_info is None
            &&& forall|id: u64|
                lookups_of(ops.take(k), id) > #[trigger] forgets_of(ops.take(k), id)
                    ==> contains_id(s, id)
        }),
    decreases k,
{
    if k == 0 {
        assert(ops.take(0) =~= Seq::<RefOp>::empty());
    } else {
        lemma_ref_run_prefix(ops, k - 1);
        let prev = ref_op_run(Seq::<InodeModel>::empty(), ops.take(k - 1));
        let op = ops[k - 1];
        assert(ops.take(k) =~= ops.take(k - 1).push(op));
        lemma_ref_op_run_push(Seq::<InodeModel>::empty(), ops.take(k - 1), op);
        let s = ref_op_run(Seq::<InodeModel>::empty(), ops.take(k));
        assert(s == ref_op_step(prev, op));
        // Per-inode lookup counts only grow along prefixes.
        assert forall|id: u64| #[trigger] lookups_of(ops.take(k), id) <= lookups_of(
            ops,
            id,
        ) by {
            lemma_ref_counts_prefix(ops, k, id);
        }
        match op {
            RefOp::Lookup { entry } => {
                let id0 = entry.inode;
                assert(entry.refcount == 1 && entry.migration_info is None);
                assert forall|id: u64| true implies #[trigger] lookups_of(ops.take(k), id)
                    == lookups_of(ops.take(k - 1), id) + (if id == id0 {
                    1int
                } else {
                    0int
                }) && forgets_of(ops.take(k), id) == forgets_of(ops.take(k - 1), id) by {
                    lemma_ref_counts_push(ops.take(k - 1), op, id);
                }
                if contains_id(prev, id0) {
                    let i = idx_of(prev, id0);
                    assert(0 <= i < prev.len() && prev[i].inode == id0);
                    assert(prev[i] == entry_of(prev, id0));
                    let bal = lookups_of(ops.take(k - 1), id0) - forgets_of(
                        ops.take(k - 1),
                        id0,
                    );
                    assert(prev[i].refcount == bal);
                    assert(bal + 1 <= lookups_of(ops.take(k), id0) <= u64::MAX);
                    assert(s == bump_rc(prev, id0));
                    assert(s =~= prev.update(
                        i,
                        InodeModel { refcount: (prev[i].refcount + 1) as u64, ..prev[i] },
                    ));
                    assert forall|id: u64| #[trigger] contains_id(s, id) implies contains_id(
                        prev,
                        id,
                    ) by {
                        let j = idx_of(s, id);
                        assert(prev[j].inode == id);
                    }
                    assert forall|id: u64| #[trigger]
                        contains_id(s, id) implies lookups_of(ops.take(k), id) > forgets_of(
                        ops.take(k),
                        id,
                    ) && entry_of(s, id).refcount == lookups_of(ops.take(k), id) - forgets_of(
                        ops.take(k),
                        id,
                    ) && entry_of(s, id).migration_info is None by {
                        let j = idx_of(prev, id);
                        assert(0 <= j < prev.len() && prev[j].inode == id);
                        assert(s[j].inode == id);
                        lemma_store_idx_unique_ids(s, id, j);
                        lemma_store_idx_unique_ids(prev, id, j);
                    }
                    assert forall|id: u64|
                        lookups_of(ops.take(k), id) > #[trigger] forgets_of(
                            ops.take(k),
                            id,
                        ) implies contains_id(s, id) by {
                        if id == id0 {
                            assert(s[i].inode == id0);
                        } else {
                            assert(contains_id(prev, id));
                            let j = idx_of(prev, id);
                            assert(s[j].inode == id);
                        }
                    }
                } else {
                    // Fresh: its balance was zero, and becomes one.
                    assert(forgets_of(ops.take(k - 1), id0) <= lookups_of(
                        ops.take(k - 1),
                        id0,
                    ));
                    assert(lookups_of(ops.take(k - 1), id0) <= forgets_of(
                        ops.take(k - 1),
                        id0,
                    ));
                    assert(s == prev.push(entry));
                    let n = prev.len() as int;
                    assert(s[n] == entry);
                    assert(forall|j: int| 0 <= j < n ==> s[j] == prev[j]);
                    assert forall|a: int, b: int|
                        0 <= a < s.len() && 0 <= b < s.len() && a != b implies s[a].inode
                        != s[b].inode by {
                        if a == n {
                            assert(!(0 <= b < prev.len() && prev[b].inode == id0));
                        } else if b == n {
                            assert(!(0 <= a < prev.len() && prev[a].inode == id0));
                        }
                    }
                    assert forall|id: u64| #[trigger]
                        contains_id(s, id) implies lookups_of(ops.take(k), id) > forgets_of(
                        ops.take(k),
                        id,
                    ) && entry_of(s, id).refcount == lookups_of(ops.take(k), id) - forgets_of(
                        ops.take(k),
                        id,
                    ) && entry_of(s, id).migration_info is None by {
                        let j = idx_of(s, id);
                        if j == n {
                            assert(id == id0);
                            lemma_store_idx_unique_ids(s, id0, n);
                        } else {
                            assert(prev[j].inode == id);
                            lemma_store_idx_unique_ids(s, id, j);
                            lemma_store_idx_unique_ids(prev, id, j);
                        }
                    }
                    assert forall|id: u64|
                        lookups_of(ops.take(k), id) > #[trigger] forgets_of(
                            ops.take(k),
                            id,
                        ) implies contains_id(s, id) by {
                        if id == id0 {
                            assert(s[n].inode == id0);
                        } else {
                            assert(contains_id(prev, id));
                            let j = idx_of(prev, id);
                            assert(s[j].inode == id);
                        }
                    }
                }
            },
            RefOp::Forget { id: id0, count } => {
                assert forall|id: u64| true implies #[trigger] lookups_of(ops.take(k), id)
                    == lookups_of(ops.take(k - 1), id) && forgets_of(ops.take(k), id)
                    == forgets_of(ops.take(k - 1), id) + (if id == id0 {
                    count as int
                } else {
                    0int
                }) by {
                    lemma_ref_counts_push(ops.take(k - 1), op, id);
                }
                // Balanced traffic never over-forgets.
                assert(forgets_of(ops.take(k), id0) <= lookups_of(ops.take(k), id0));
                if contains_id(prev, id0) {
                    let i = idx_of(prev, id0);
                    assert(0 <= i < prev.len() && prev[i].inode == id0);
                    assert(prev[i] == entry_of(prev, id0));
                    let bal = lookups_of(ops.take(k - 1), id0) - forgets_of(
                        ops.take(k - 1),
                        id0,
                    );
                    assert(prev[i].refcount == bal);
                    assert(count <= bal);
                    assert(s == forget_spec(prev, id0, count));
                    if bal > count {
                        assert(s =~= prev.update(
                            i,
                            InodeModel {
                                refcount: (prev[i].refcount - count) as u64,
                                ..prev[i]
                            },
                        ));
                        assert forall|id: u64| #[trigger]
                            contains_id(s, id) implies lookups_of(ops.take(k), id)
                            > forgets_of(ops.take(k), id) && entry_of(s, id).refcount
                            == lookups_of(ops.take(k), id) - forgets_of(ops.take(k), id)
                            && entry_of(s, id).migration_info is None by {
                            let j = idx_of(s, id);
                            assert(prev[j].inode == id);
                            lemma_store_idx_unique_ids(s, id, j);
                            lemma_store_idx_unique_ids(prev, id, j);
                        }
                        assert forall|id: u64|
                            lookups_of(ops.take(k), id) > #[trigger] forgets_of(
                                ops.take(k),
                                id,
                            ) implies contains_id(s, id) by {
                            assert(contains_id(prev, id));
                            let j = idx_of(prev, id);
                            assert(s[j].inode == id);
                        }
                    } else {
                        // Exactly balanced: the entry is removed, and its
                        // cleared info cascades nowhere.
                        assert(count == bal);
                        assert(prev[i].migration_info is None);
                        assert(prev[i].mig_parent() is None);
                        assert(s == prev.remove(i));
                        assert forall|a: int, b: int|
                            0 <= a < s.len() && 0 <= b < s.len() && a != b implies s[a].inode
                            != s[b].inode by {
                            let a0 = if a < i {
                                a
                            } else {
                                a + 1
                            };
                            let b0 = if b < i {
                                b
                            } else {
                                b + 1
                            };
                            assert(s[a] == prev[a0] && s[b] == prev[b0]);
                        }
                        assert forall|id: u64| #[trigger]
                            contains_id(s, id) implies lookups_of(ops.take(k), id)
                            > forgets_of(ops.take(k), id) && entry_of(s, id).refcount
                            == lookups_of(ops.take(k), id) - forgets_of(ops.take(k), id)
                            && entry_of(s, id).migration_info is None by {
                            let j = idx_of(s, id);
                            let j0 = if j < i {
                                j
                            } else {
                                j + 1
                            };
                            assert(s[j] == prev[j0]);
                            assert(prev[j0].inode == id);
                            assert(j0 != i ==> id != id0);
                            lemma_store_idx_unique_ids(s, id, j);
                            lemma_store_idx_unique_ids(prev, id, j0);
                        }
                        assert forall|id: u64|
                            lookups_of(ops.take(k), id) > #[trigger] forgets_of(
                                ops.take(k),
                                id,
                            ) implies contains_id(s, id) by {
                            assert(id != id0);
                            assert(contains_id(prev, id));
                            let j = idx_of(prev, id);
                            assert(j != i);
                            let j2 = if j < i {
                                j
                            } else {
                                j - 1
                            };
                            assert(s[j2] == prev[j]);
                        }
                    }
                } else {
                    // Absent: its balance was zero, so this forget drops
                    // nothing.
                    assert(lookups_of(ops.take(k - 1), id0) <= forgets_of(
                        ops.take(k - 1),
                        id0,
                    ));
                    assert(count == 0);
                    assert(forget_spec(prev, id0, count) == prev);
                }
            },
        }
    }
}

/// Per-inode counts only grow along prefixes.
proof fn lemma_ref_counts_prefix(ops: Seq<RefOp>, k: int, id: u64)
    requires
        0 <= k <= ops.len(),
    ensures
        lookups_of(ops.take(k), id) <= lookups_of(ops, id),
        forgets_of(ops.take(k), id) <= forgets_of(ops, id),
    decreases ops.len() - k,
{
    if k == ops.len() {
        assert(ops.take(k) =~= ops);
    } else {
        assert(ops.take(k + 1) =~= ops.take(k).push(ops[k]));
        lemma_ref_counts_push(ops.take(k), ops[k], id);
        lemma_ref_counts_prefix(ops, k + 1, id);
    }
}

/// With distinct ids, an index holding `id` is the index `idx_of` denotes
/// (uniqueness alone, without the full store invariant).
proof fn lemma_store_idx_unique_ids(s: Seq<InodeModel>, id: u64, i: int)
    requires
        forall|a: int, b: int|
            0 <= a < s.len() && 0 <= b < s.len() && a != b ==> s[a].inode != s[b].inode,
        0 <= i < s.len(),
        s[i].inode == id,
    ensures
        contains_id(s, id),
        idx_of(s, id) == i,
        entry_of(s, id) == s[i],
{
    let k = idx_of(s, id);
    assert(0 <= k < s.len() && s[k].inode == id);
    if k != i {
        assert(s[k].inode != s[i].inode);
        assert(false);
    }
}

/// Refcount conservation: starting from an empty store, balanced
/// lookup/forget traffic (no inode ever forgotten more often than it was
/// looked up) leaves the store empty exactly when every looked-up inode
/// was forgotten the same number of times.
pub proof fn lemma_refcount_conservation(ops: Seq<RefOp>)
    requires
        ref_ops_wf(ops),
        forall|id: u64| #[trigger] lookups_of(ops, id) <= u64::MAX,
    ensures
        (ref_op_run(Seq::<InodeModel>::empty(), ops).len() == 0) <==> (forall|id: u64|
            #[trigger] lookups_of(ops, id) == forgets_of(ops, id)),
{
    lemma_ref_run_prefix(ops, ops.len() as int);
    assert(ops.take(ops.len() as int) =~= ops);
    let s = ref_op_run(Seq::<InodeModel>::empty(), ops);
    if s.len() == 0 {
        assert forall|id: u64| #[trigger] lookups_of(ops, id) == forgets_of(ops, id) by {
            assert(forgets_of(ops, id) <= lookups_of(ops, id));
            if lookups_of(ops, id) > forgets_of(ops, id) {
                assert(contains_id(s, id));
                let j = idx_of(s, id);
                assert(false);
            }
        }
    } else {
        assert(contains_id(s, s[0].inode));
        assert(lookups_of(ops, s[0].inode) > forgets_of(ops, s[0].inode));
        assert(!(forall|id: u64| #[trigger] lookups_of(ops, id) == forgets_of(ops, id))) by {
            assert(lookups_of(ops, s[0].inode) != forgets_of(ops, s[0].inode));
        }
    }
}

/// The store is empty exactly when no references are outstanding: every
/// stored entry carries at least one.
pub proof fn lemma_store_empty_iff_no_references(s: Seq<InodeModel>)
    requires
        store_wf(s),
    ensures
        (s.len() == 0) <==> (total_rc(s) == 0),
{
    if s.len() > 0 {
        assert(s[0].refcount >= 1);
        assert(total_rc(s) == s[0].refcount + total_rc(s.drop_first()));
    }
}

/// Looking up a fresh inode and forgetting it once restores the store:
/// references are conserved across balanced lookup/forget pairs.
pub proof fn lemma_lookup_forget_balance(s: Seq<InodeModel>, e: InodeModel)
    requires
        store_wf(s),
        !contains_id(s, e.inode),
        e.refcount == 1,
        e.mig_parent() is None,
    ensures
        forget_spec(s.push(e), e.inode, 1) == s,
{
    let s2 = s.push(e);
    let n = s.len() as int;
    assert(s2[n] == e);
    assert(contains_id(s2, e.inode));
    let k = idx_of(s2, e.inode);
    assert(0 <= k < s2.len() && s2[k].inode == e.inode);
    if k < n {
        assert(s2[k] == s[k]);
        assert(contains_id(s, e.inode));
        assert(false);
    }
    assert(k == n);
    assert(s2.remove(n) =~= s);
}

/// A forget that reaches zero removes the entry, and no later claim can
/// yield it: a dying inode is not resurrected.
pub proof fn lemma_no_refcount_resurrection(
    s: Seq<InodeModel>,
    id: u64,
    count: u64,
    key: Option<(u64, i32, Seq<u8>)>,
    ids: InodeIds,
)
    requires
        store_wf(s),
        contains_id(s, id),
        entry_of(s, id).refcount <= count,
    ensures
        !contains_id(forget_spec(s, id, count), id),
        claim_target(forget_spec(s, id, count), key, ids) != Some(id),
{
    let i = idx_of(s, id);
    let s2 = s.remove(i);
    lemma_wf_remove(s, i);
    assert forall|x: u64| contains_id(s2, x) implies contains_id(s, x) && idx_of(s, x) != i
        || x != id by {
        let k = idx_of(s2, x);
        let k0 = if k < i { k } else { k + 1 };
        assert(s2[k] == s[k0]);
    }
    if contains_id(s2, id) {
        let k = idx_of(s2, id);
        let k0 = if k < i { k } else { k + 1 };
        assert(s2[k] == s[k0]);
        assert(s[k0].inode == id && s[i].inode == id && k0 != i);
        assert(false);
    }
    let res = forget_spec(s, id, count);
    match entry_of(s, id).mig_parent() {
        None => {
            assert(res == s2);
        },
        Some(p) => {
            lemma_forget_spec_props(s2, p, 1);
            assert(res == forget_spec(s2, p, 1));
            if contains_id(res, id) {
                assert(contains_id(s2, id));
                assert(false);
            }
        },
    }
    if claim_target(res, key, ids) == Some(id) {
        lemma_claim_is_live(res, key, ids, id);
        assert(false);
    }
}

/// A claim yields only an inode that is present in the store with a
/// positive refcount.
pub proof fn lemma_claim_is_live(
    s: Seq<InodeModel>,
    key: Option<(u64, i32, Seq<u8>)>,
    ids: InodeIds,
    t: u64,
)
    requires
        store_wf(s),
        claim_target(s, key, ids) == Some(t),
    ensures
        contains_id(s, t),
        entry_of(s, t).refcount >= 1,
{
    if key is Some && find_by_handle(s, key->0) == Some(t) {
        let i = choose|i: int| 0 <= i < s.len() && s[i].handle_key() == Some(key->0);
        assert(s[i].inode == t);
        lemma_idx_of_unique(s, t, i);
    } else {
        assert(find_by_ids(s, ids) == Some(t));
        let i = choose|i: int| 0 <= i < s.len() && s[i].fd_backed() && s[i].ids == ids;
        assert(s[i].inode == t);
        lemma_idx_of_unique(s, t, i);
    }
}

/// Three-index consistency: for every stored inode, the identity index
/// (answered by descriptor-backed entries) maps its identity tuple back to
/// it, and the handle index maps its file handle back to it.
pub proof fn lemma_three_index_consistency(s: Seq<InodeModel>, x: u64)
    requires
        store_wf(s),
        contains_id(s, x),
    ensures
        entry_of(s, x).fd_backed() ==> find_by_ids(s, entry_of(s, x).ids) == Some(x),
        entry_of(s, x).handle_key() is Some ==> find_by_handle(s, entry_of(s, x).handle_key()->0)
            == Some(x),
{
    let i = idx_of(s, x);
    assert(0 <= i < s.len() && s[i].inode == x);
    if entry_of(s, x).fd_backed() {
        assert(s[i].fd_backed() && s[i].ids == entry_of(s, x).ids);
        let k = choose|k: int|
            0 <= k < s.len() && s[k].fd_backed() && s[k].ids == entry_of(s, x).ids;
        assert(k == i || s[k].ids != s[i].ids);
        assert(s[k].inode == x);
    }
    if entry_of(s, x).handle_key() is Some {
        let hk = entry_of(s, x).handle_key()->0;
        assert(s[i].handle_key() == Some(hk));
        let k = choose|k: int| 0 <= k < s.len() && s[k].handle_key() == Some(hk);
        assert(k == i || s[k].handle_key() != s[i].handle_key());
        assert(s[k].inode == x);
    }
}

} // verus!
