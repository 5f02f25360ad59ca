//! Serialization: turn the prepared state into the stream records.
//! Precondition of a useful stream is that the walker has run, so every
//! live inode carries migration info; an inode whose info is missing (or
//! incomplete, when reference handles are required) is emitted with an
//! `Invalid` location, and the destination decides what to do with it.

use vstd::prelude::*;

use crate::error::{ErrorKind, FsError};
use crate::fs::PassthroughFs;
use crate::handles::HandleModel;
use crate::migration::LocationModel;
use crate::store::{contains_id, InodeModel, ROOT_ID};
use crate::wire::{
    NegotiatedOpts, SerFsModel, SerInodeModel, SerLocModel, SerializedFs, SerializedFsV1,
    SerializedHandle, SerializedInode, SerializedLocation,
};

verus! {

/// The record an inode is serialized as.  Parent references use the raw
/// id, which is safe because the whole store is still held when the stream
/// is built.
pub open spec fn serialize_inode_model(e: InodeModel, verify: bool) -> SerInodeModel {
    match e.migration_info {
        None => SerInodeModel {
            id: e.inode,
            refcount: e.refcount,
            location: SerLocModel::Invalid,
            file_handle: None,
        },
        Some(mi) => if verify && mi.file_handle is None {
            SerInodeModel {
                id: e.inode,
                refcount: e.refcount,
                location: SerLocModel::Invalid,
                file_handle: None,
            }
        } else {
            SerInodeModel {
                id: e.inode,
                refcount: e.refcount,
                location: match mi.location {
                    LocationModel::RootNode => SerLocModel::RootNode,
                    LocationModel::Path { parent, filename } => SerLocModel::Path {
                        parent,
                        filename,
                    },
                },
                file_handle: if verify {
                    mi.file_handle
                } else {
                    None
                },
            }
        },
    }
}

/// The record a handle is serialized as: its id, its inode, and the
/// re-open flags prepared at open time.
pub open spec fn serialize_handle_model(h: HandleModel) -> SerializedHandle {
    SerializedHandle { id: h.id, inode: h.inode, flags: h.flags }
}

/// What the serialization-time cross-check concluded for one path-located
/// inode, under the confirm-paths configuration.  The embedding program
/// performs the stat, the handle generation and the proc-link read; the
/// conclusions themselves come from `presence_matches`, `relative_path`
/// and `confirm_outcome`.
#[derive(Clone, Debug)]
pub enum PathConfirmOutcome {
    /// The prepared `(parent, filename)` location still names this inode.
    Confirmed,
    /// The location no longer matches, but the inode was found again at
    /// this path relative to the shared directory.
    Relocated {
        /// Root-relative filename, cross-checked against the inode.
        filename: Vec<u8>,
    },
    /// The location no longer matches and no full path could be confirmed.
    Lost,
}

/// Mathematical value of a `PathConfirmOutcome`.
pub ghost enum ConfirmModel {
    Confirmed,
    Relocated { filename: Seq<u8> },
    Lost,
}

impl View for PathConfirmOutcome {
    type V = ConfirmModel;

    open spec fn view(&self) -> ConfirmModel {
        match self {
            PathConfirmOutcome::Confirmed => ConfirmModel::Confirmed,
            PathConfirmOutcome::Relocated { filename } => ConfirmModel::Relocated {
                filename: filename@,
            },
            PathConfirmOutcome::Lost => ConfirmModel::Lost,
        }
    }
}

/// Fold the two cross-checks into one conclusion: a location that still
/// matches is confirmed; a moved inode whose root-relative path was read
/// and re-checked is relocated there; anything else is lost.
pub fn confirm_outcome(
    matches_at_location: bool,
    fallback_path: Option<Vec<u8>>,
    matches_at_fallback: bool,
) -> (r: PathConfirmOutcome)
    ensures
        r@ == (if matches_at_location {
            ConfirmModel::Confirmed
        } else {
            match fallback_path {
                Some(f) => if matches_at_fallback {
                    ConfirmModel::Relocated { filename: f@ }
                } else {
                    ConfirmModel::Lost
                },
                None => ConfirmModel::Lost,
            }
        }),
{
    if matches_at_location {
        PathConfirmOutcome::Confirmed
    } else {
        match fallback_path {
            Some(f) => if matches_at_fallback {
                PathConfirmOutcome::Relocated { filename: f }
            } else {
                PathConfirmOutcome::Lost
            },
            None => PathConfirmOutcome::Lost,
        }
    }
}

/// The record an inode is serialized as when the path-confirmed mode
/// applies its cross-check conclusion: a confirmed location stays a
/// `Path`; a relocated inode becomes a `FullPath` under its root-relative
/// name; a lost one is emitted `Invalid` (refcount kept, no handle), for
/// the destination's policy to decide.  The root and inodes without
/// migration info are treated as in `serialize_inode_model`.
pub open spec fn serialize_inode_confirmed(
    e: InodeModel,
    o: ConfirmModel,
    verify: bool,
) -> SerInodeModel {
    match e.migration_info {
        None => SerInodeModel {
            id: e.inode,
            refcount: e.refcount,
            location: SerLocModel::Invalid,
            file_handle: None,
        },
        Some(mi) => if verify && mi.file_handle is None {
            SerInodeModel {
                id: e.inode,
                refcount: e.refcount,
                location: SerLocModel::Invalid,
                file_handle: None,
            }
        } else {
            match mi.location {
                LocationModel::RootNode => SerInodeModel {
                    id: e.inode,
                    refcount: e.refcount,
                    location: SerLocModel::RootNode,
                    file_handle: if verify {
                        mi.file_handle
                    } else {
                        None
                    },
                },
                LocationModel::Path { parent, filename } => match o {
                    ConfirmModel::Confirmed => SerInodeModel {
                        id: e.inode,
                        refcount: e.refcount,
                        location: SerLocModel::Path { parent, filename },
                        file_handle: if verify {
                            mi.file_handle
                        } else {
                            None
                        },
                    },
                    ConfirmModel::Relocated { filename: f } => SerInodeModel {
                        id: e.inode,
                        refcount: e.refcount,
                        location: SerLocModel::FullPath { filename: f },
                        file_handle: if verify {
                            mi.file_handle
                        } else {
                            None
                        },
                    },
                    ConfirmModel::Lost => SerInodeModel {
                        id: e.inode,
                        refcount: e.refcount,
                        location: SerLocModel::Invalid,
                        file_handle: None,
                    },
                },
            }
        },
    }
}

/// The whole stream a state is serialized as.
pub open spec fn serialize_state_model(
    inodes: Seq<InodeModel>,
    handles: Seq<HandleModel>,
    next_inode: u64,
    next_handle: u64,
    opts: NegotiatedOpts,
    verify: bool,
) -> SerFsModel {
    SerFsModel {
        inodes: inodes.map_values(|e: InodeModel| serialize_inode_model(e, verify)),
        next_inode,
        handles: handles.map_values(|h: HandleModel| serialize_handle_model(h)),
        next_handle,
        negotiated_opts: opts,
    }
}

/// Serialization is faithful record by record: the stream carries every
/// inode under its own id with its exact refcount, and every handle under
/// its own id against its inode.
pub proof fn lemma_serialized_records_exact(
    inodes: Seq<InodeModel>,
    handles: Seq<HandleModel>,
    next_inode: u64,
    next_handle: u64,
    opts: NegotiatedOpts,
    verify: bool,
)
    ensures
        ({
            let m = serialize_state_model(inodes, handles, next_inode, next_handle, opts, verify);
            &&& m.inodes.len() == inodes.len()
            &&& forall|i: int|
                0 <= i < inodes.len() ==> (#[trigger] m.inodes[i]).id == inodes[i].inode
                    && m.inodes[i].refcount == inodes[i].refcount
            &&& m.handles.len() == handles.len()
            &&& forall|i: int|
                0 <= i < handles.len() ==> (#[trigger] m.handles[i]).id == handles[i].id
                    && m.handles[i].inode == handles[i].inode && m.handles[i].flags
                    == handles[i].flags
        }),
{
}

/// The migration round trip at the stream level: what the source
/// serializes and encodes, a destination decodes back to exactly the same
/// records — same inode ids, refcounts, locations, handles and options —
/// with any trailing bytes untouched.  (The machine bounds only say that
/// every name and handle fits its length prefix, which anything that came
/// out of memory does.)
pub proof fn lemma_migration_stream_round_trip(
    inodes: Seq<InodeModel>,
    handles: Seq<HandleModel>,
    next_inode: u64,
    next_handle: u64,
    opts: NegotiatedOpts,
    verify: bool,
    rest: Seq<u8>,
)
    requires
        inodes.len() <= u64::MAX,
        handles.len() <= u64::MAX,
        forall|i: int|
            0 <= i < inodes.len() ==> (match (#[trigger] inodes[i]).migration_info {
                Some(mi) => (match mi.location {
                    LocationModel::Path { filename, .. } => filename.len() <= u64::MAX,
                    LocationModel::RootNode => true,
                }) && (match mi.file_handle {
                    Some((_, _, bytes)) => bytes.len() <= u64::MAX,
                    None => true,
                }),
                None => true,
            }),
    ensures
        ({
            let m = serialize_state_model(inodes, handles, next_inode, next_handle, opts, verify);
            crate::codec::dec_state(crate::codec::enc_state(m) + rest) == Some(
                (m, crate::codec::enc_state(m).len() as int),
            )
        }),
{
    let m = serialize_state_model(inodes, handles, next_inode, next_handle, opts, verify);
    assert forall|i: int| 0 <= i < m.inodes.len() implies crate::codec::inode_fits(
        #[trigger] m.inodes[i]) by {
        assert(m.inodes[i] == serialize_inode_model(inodes[i], verify));
    }
    assert(crate::codec::state_fits(m));
    crate::codec::lemma_dec_enc_state(m, rest);
}

impl PassthroughFs {
    /// The negotiated options as they travel in the stream.
    pub open spec fn negotiated_opts_spec(&self) -> NegotiatedOpts {
        NegotiatedOpts {
            writeback: self.writeback,
            announce_submounts: self.announce_submounts,
            posix_acl: self.posix_acl,
            sup_group_extension: self.sup_group_extension,
        }
    }

    /// Build the stream records for the whole state: every inode (with its
    /// exact refcount and its prepared location), every open handle, both
    /// id counters, and the negotiated options.  A non-empty store without
    /// a root node cannot be serialized; an unmounted (empty) store can.
    #[verifier::rlimit(100)]
    #[verifier::spinoff_prover]
    pub fn serialize_state(&self) -> (r: Result<SerializedFs, FsError>)
        requires
            self.inv(),
        ensures
            r is Err <==> ((self.inodes@.len() > 0 && !contains_id(self.inodes@, ROOT_ID))
                || self.cfg.migration_confirm_paths),
            r is Err ==> r->Err_0.kind == ErrorKind::Other,
            r is Ok ==> r->Ok_0@ == serialize_state_model(
                self.inodes@,
                self.handles@,
                self.next_inode,
                self.next_handle,
                self.negotiated_opts_spec(),
                self.cfg.migration_verify_handles,
            ),
    {
        if self.cfg.migration_confirm_paths {
            // This entry point emits every prepared location as it stands;
            // a configuration that demands the serialization-time
            // cross-check must go through `serialize_state_confirmed`.
            return Err(FsError::new(ErrorKind::Other));
        }
        let n = self.inodes.len();
        if n > 0 && match self.inodes.get(ROOT_ID) {
            None => true,
            Some(_) => false,
        } {
            return Err(FsError::new(ErrorKind::Other));
        }
        let verify = self.cfg.migration_verify_handles;
        let mut inodes: Vec<SerializedInode> = Vec::new();
        let mut i: usize = 0;
        proof {
            assert(inodes@.map_values(|x: SerializedInode| x@) =~= Seq::<
                SerInodeModel>::empty());
            assert(self.inodes@.take(0).map_values(
                |e: InodeModel| serialize_inode_model(e, verify),
            ) =~= Seq::<SerInodeModel>::empty());
        }
        while i < n
            invariant
                self.inv(),
                n == self.inodes@.len(),
                i <= n,
                verify == self.cfg.migration_verify_handles,
                inodes@.map_values(|x: SerializedInode| x@) == self.inodes@.take(
                    i as int,
                ).map_values(|e: InodeModel| serialize_inode_model(e, verify)),
            decreases n - i,
        {
            let ghost prev = inodes@.map_values(|x: SerializedInode| x@);
            let e = self.inodes.entry_at(i);
            let rec = serialize_inode(e, verify);
            inodes.push(rec);
            i = i + 1;
            proof {
                assert(inodes@.map_values(|x: SerializedInode| x@) =~= prev.push(rec@));
                assert(self.inodes@.take(i as int).map_values(
                    |e2: InodeModel| serialize_inode_model(e2, verify),
                ) =~= prev.push(serialize_inode_model(self.inodes@[i - 1], verify)));
            }
        }
        proof {
            assert(self.inodes@.take(n as int) =~= self.inodes@);
        }
        let hn = self.handles.len();
        let mut handles: Vec<SerializedHandle> = Vec::new();
        let mut k: usize = 0;
        proof {
            assert(handles@ =~= Seq::<SerializedHandle>::empty());
            assert(self.handles@.take(0).map_values(
                |h: HandleModel| serialize_handle_model(h),
            ) =~= Seq::<SerializedHandle>::empty());
        }
        while k < hn
            invariant
                self.inv(),
                hn == self.handles@.len(),
                k <= hn,
                handles@ == self.handles@.take(k as int).map_values(
                    |h: HandleModel| serialize_handle_model(h),
                ),
            decreases hn - k,
        {
            let ghost prevh = handles@;
            let (hid, d) = self.handles.entry_at(k);
            let fl = match d.migration_info {
                crate::migration::HandleMigrationInfo::OpenInode { flags } => flags,
            };
            handles.push(SerializedHandle { id: hid, inode: d.inode, flags: fl });
            k = k + 1;
            proof {
                assert(handles@ =~= prevh.push(
                    SerializedHandle {
                        id: self.handles@[k - 1].id,
                        inode: self.handles@[k - 1].inode,
                        flags: self.handles@[k - 1].flags,
                    },
                ));
                assert(self.handles@.take(k as int).map_values(
                    |h: HandleModel| serialize_handle_model(h),
                ) =~= prevh.push(serialize_handle_model(self.handles@[k - 1])));
            }
        }
        proof {
            assert(self.handles@.take(hn as int) =~= self.handles@);
        }
        let state = SerializedFsV1 {
            inodes,
            next_inode: self.next_inode,
            handles,
            next_handle: self.next_handle,
            negotiated_opts: NegotiatedOpts {
                writeback: self.writeback,
                announce_submounts: self.announce_submounts,
                posix_acl: self.posix_acl,
                sup_group_extension: self.sup_group_extension,
            },
        };
        Ok(SerializedFs::V1(state))
    }
}

/// Whether an inode still is what its prepared location says, for the
/// path-confirmed serialization mode: the device must match, and then the
/// file handle decides (mount ids masked out, since one filesystem can sit
/// under two mounts); with no handle to compare, the inode number decides.
/// The embedding program stats the location and generates the handle; a
/// mismatch makes it fall back to a full path read from the host's per-
/// descriptor link, emitted as a full-path record.
pub fn presence_matches(
    expected_dev: u64,
    expected_ino: u64,
    expected_fh: Option<&crate::file_handle::SerializableFileHandle>,
    actual_dev: u64,
    actual_ino: u64,
    actual_fh: Option<&crate::file_handle::SerializableFileHandle>,
) -> (r: bool)
    ensures
        r <==> (expected_dev == actual_dev && (match (expected_fh, actual_fh) {
            (Some(e), Some(a)) => e.handle_type == a.handle_type && e.handle@ == a.handle@,
            (Some(_), None) => false,
            (None, _) => expected_ino == actual_ino,
        })),
{
    if expected_dev != actual_dev {
        return false;
    }
    match expected_fh {
        Some(e) => match actual_fh {
            Some(a) => match e.require_equal_without_mount_id(a) {
                Ok(_) => true,
                Err(_) => false,
            },
            None => false,
        },
        None => expected_ino == actual_ino,
    }
}

/// A byte path with its leading `/` runs removed.
pub open spec fn drop_leading_slashes(s: Seq<u8>) -> Seq<u8>
    decreases s.len(),
{
    if s.len() > 0 && s[0] == 47 {
        drop_leading_slashes(s.drop_first())
    } else {
        s
    }
}

/// The part of `path` below `prefix` (the shared directory), with leading
/// slashes removed.  A path outside the prefix is an error: such an inode
/// cannot be described relative to the shared directory.
pub fn relative_path(path: &Vec<u8>, prefix: &Vec<u8>) -> (r: Result<Vec<u8>, FsError>)
    ensures
        r is Ok <==> (path@.len() >= prefix@.len() && path@.take(prefix@.len() as int)
            == prefix@),
        r is Err ==> r->Err_0.kind == ErrorKind::Other,
        r is Ok ==> r->Ok_0@ == drop_leading_slashes(path@.skip(prefix@.len() as int)),
{
    if path.len() < prefix.len() {
        return Err(FsError::new(ErrorKind::Other));
    }
    let mut i: usize = 0;
    while i < prefix.len()
        invariant
            i <= prefix@.len() <= path@.len(),
            forall|j: int| 0 <= j < i ==> path@[j] == prefix@[j],
        decreases prefix.len() - i,
    {
        if path[i] != prefix[i] {
            proof {
                assert(path@.take(prefix@.len() as int)[i as int] != prefix@[i as int]);
            }
            return Err(FsError::new(ErrorKind::Other));
        }
        i = i + 1;
    }
    proof {
        assert(path@.take(prefix@.len() as int) =~= prefix@);
    }
    let mut start: usize = prefix.len();
    while start < path.len() && path[start] == 47
        invariant
            prefix@.len() <= start <= path@.len(),
            drop_leading_slashes(path@.skip(prefix@.len() as int)) == drop_leading_slashes(
                path@.skip(start as int),
            ),
        decreases path.len() - start,
    {
        proof {
            assert(path@.skip(start as int)[0] == 47);
            assert(path@.skip(start as int).drop_first() =~= path@.skip(start + 1 as int));
        }
        start = start + 1;
    }
    let mut out: Vec<u8> = Vec::new();
    let mut k: usize = start;
    while k < path.len()
        invariant
            start <= k <= path@.len(),
            out@ == path@.subrange(start as int, k as int),
        decreases path.len() - k,
    {
        out.push(path[k]);
        k = k + 1;
        proof {
            assert(out@ =~= path@.subrange(start as int, k as int));
        }
    }
    proof {
        let tail = path@.skip(start as int);
        if start < path@.len() {
            assert(tail[0] != 47);
        }
        assert(drop_leading_slashes(tail) == tail);
        assert(out@ =~= tail);
    }
    Ok(out)
}

impl PassthroughFs {
    /// Build the stream records under the path-confirmed mode: one
    /// cross-check conclusion per store position decides whether each
    /// path-located inode is emitted under its prepared location, under a
    /// root-relative full path, or as lost.  With confirmation not
    /// configured, the conclusions are ignored and every prepared location
    /// is emitted as it stands.
    #[verifier::rlimit(100)]
    #[verifier::spinoff_prover]
    pub fn serialize_state_confirmed(&self, outcomes: &Vec<PathConfirmOutcome>) -> (r: Result<
        SerializedFs, FsError>)
        requires
            self.inv(),
        ensures
            r is Err <==> ((self.inodes@.len() > 0 && !contains_id(self.inodes@, ROOT_ID))
                || outcomes@.len() != self.inodes@.len()),
            r is Err ==> r->Err_0.kind == ErrorKind::Other,
            r is Ok ==> r->Ok_0@ == (SerFsModel {
                inodes: Seq::new(
                    self.inodes@.len(),
                    |i: int|
                        if self.cfg.migration_confirm_paths {
                            serialize_inode_confirmed(
                                self.inodes@[i],
                                outcomes@[i]@,
                                self.cfg.migration_verify_handles,
                            )
                        } else {
                            serialize_inode_model(
                                self.inodes@[i],
                                self.cfg.migration_verify_handles,
                            )
                        },
                ),
                next_inode: self.next_inode,
                handles: self.handles@.map_values(|h: HandleModel| serialize_handle_model(h)),
                next_handle: self.next_handle,
                negotiated_opts: self.negotiated_opts_spec(),
            }),
    {
        let n = self.inodes.len();
        if outcomes.len() != n {
            return Err(FsError::new(ErrorKind::Other));
        }
        if n > 0 && match self.inodes.get(ROOT_ID) {
            None => true,
            Some(_) => false,
        } {
            return Err(FsError::new(ErrorKind::Other));
        }
        let verify = self.cfg.migration_verify_handles;
        let confirm = self.cfg.migration_confirm_paths;
        let ghost goal = Seq::new(
            self.inodes@.len(),
            |i: int|
                if confirm {
                    serialize_inode_confirmed(self.inodes@[i], outcomes@[i]@, verify)
                } else {
                    serialize_inode_model(self.inodes@[i], verify)
                },
        );
        let mut inodes: Vec<SerializedInode> = Vec::new();
        let mut i: usize = 0;
        proof {
            assert(inodes@.map_values(|x: SerializedInode| x@) =~= goal.take(0));
        }
        while i < n
            invariant
                self.inv(),
                n == self.inodes@.len(),
                n == outcomes@.len(),
                i <= n,
                verify == self.cfg.migration_verify_handles,
                confirm == self.cfg.migration_confirm_paths,
                goal == Seq::new(
                    self.inodes@.len(),
                    |k: int|
                        if confirm {
                            serialize_inode_confirmed(self.inodes@[k], outcomes@[k]@, verify)
                        } else {
                            serialize_inode_model(self.inodes@[k], verify)
                        },
                ),
                inodes@.map_values(|x: SerializedInode| x@) == goal.take(i as int),
            decreases n - i,
        {
            let ghost prev = inodes@.map_values(|x: SerializedInode| x@);
            let e = self.inodes.entry_at(i);
            let rec = if confirm {
                serialize_inode_outcome(e, &outcomes[i], verify)
            } else {
                serialize_inode(e, verify)
            };
            inodes.push(rec);
            i = i + 1;
            proof {
                assert(inodes@.map_values(|x: SerializedInode| x@) =~= prev.push(rec@));
                assert(goal.take(i as int) =~= prev.push(goal[i - 1]));
            }
        }
        proof {
            assert(goal.take(n as int) =~= goal);
        }
        let hn = self.handles.len();
        let mut handles: Vec<SerializedHandle> = Vec::new();
        let mut k: usize = 0;
        proof {
            assert(handles@ =~= Seq::<SerializedHandle>::empty());
            assert(self.handles@.take(0).map_values(
                |h: HandleModel| serialize_handle_model(h),
            ) =~= Seq::<SerializedHandle>::empty());
        }
        while k < hn
            invariant
                self.inv(),
                hn == self.handles@.len(),
                k <= hn,
                handles@ == self.handles@.take(k as int).map_values(
                    |h: HandleModel| serialize_handle_model(h),
                ),
            decreases hn - k,
        {
            let ghost prevh = handles@;
            let (hid, d) = self.handles.entry_at(k);
            let fl = match d.migration_info {
                crate::migration::HandleMigrationInfo::OpenInode { flags } => flags,
            };
            handles.push(SerializedHandle { id: hid, inode: d.inode, flags: fl });
            k = k + 1;
            proof {
                assert(handles@ =~= prevh.push(
                    SerializedHandle {
                        id: self.handles@[k - 1].id,
                        inode: self.handles@[k - 1].inode,
                        flags: self.handles@[k - 1].flags,
                    },
                ));
                assert(self.handles@.take(k as int).map_values(
                    |h: HandleModel| serialize_handle_model(h),
                ) =~= prevh.push(serialize_handle_model(self.handles@[k - 1])));
            }
        }
        proof {
            assert(self.handles@.take(hn as int) =~= self.handles@);
        }
        let state = SerializedFsV1 {
            inodes,
            next_inode: self.next_inode,
            handles,
            next_handle: self.next_handle,
            negotiated_opts: NegotiatedOpts {
                writeback: self.writeback,
                announce_submounts: self.announce_submounts,
                posix_acl: self.posix_acl,
                sup_group_extension: self.sup_group_extension,
            },
        };
        Ok(SerializedFs::V1(state))
    }
}

/// Serialize one inode entry under its cross-check conclusion.
fn serialize_inode_outcome(
    e: &crate::store::InodeData,
    o: &PathConfirmOutcome,
    verify: bool,
) -> (r: SerializedInode)
    ensures
        r@ == serialize_inode_confirmed(e@, o@, verify),
{
    let invalid_needed = match &e.migration_info {
        None => true,
        Some(mi) => verify && match &mi.file_handle {
            None => true,
            Some(_) => false,
        },
    };
    if invalid_needed {
        return SerializedInode {
            id: e.inode,
            refcount: e.refcount,
            location: SerializedLocation::Invalid,
            file_handle: None,
        };
    }
    let mi = match &e.migration_info {
        Some(mi) => mi,
        None => {
            proof {
                assert(false);
            }
            return SerializedInode {
                id: e.inode,
                refcount: e.refcount,
                location: SerializedLocation::Invalid,
                file_handle: None,
            };
        },
    };
    let location = match &mi.location {
        crate::migration::InodeLocation::RootNode => SerializedLocation::RootNode,
        crate::migration::InodeLocation::Path { parent, filename } => match o {
            PathConfirmOutcome::Confirmed => SerializedLocation::Path {
                parent: *parent,
                filename: crate::file_handle::copy_bytes(filename),
            },
            PathConfirmOutcome::Relocated { filename: f } => SerializedLocation::FullPath {
                filename: crate::file_handle::copy_bytes(f),
            },
            PathConfirmOutcome::Lost => {
                return SerializedInode {
                    id: e.inode,
                    refcount: e.refcount,
                    location: SerializedLocation::Invalid,
                    file_handle: None,
                };
            },
        },
    };
    let file_handle = if verify {
        match &mi.file_handle {
            Some(h) => Some(h.duplicate()),
            None => None,
        }
    } else {
        None
    };
    SerializedInode { id: e.inode, refcount: e.refcount, location, file_handle }
}

/// Serialize one inode entry.
fn serialize_inode(e: &crate::store::InodeData, verify: bool) -> (r: SerializedInode)
    ensures
        r@ == serialize_inode_model(e@, verify),
{
    match &e.migration_info {
        None => SerializedInode {
            id: e.inode,
            refcount: e.refcount,
            location: SerializedLocation::Invalid,
            file_handle: None,
        },
        Some(mi) => {
            let missing = verify && match &mi.file_handle {
                None => true,
                Some(_) => false,
            };
            if missing {
                SerializedInode {
                    id: e.inode,
                    refcount: e.refcount,
                    location: SerializedLocation::Invalid,
                    file_handle: None,
                }
            } else {
                let location = match &mi.location {
                    crate::migration::InodeLocation::RootNode => SerializedLocation::RootNode,
                    crate::migration::InodeLocation::Path { parent, filename } =>
                        SerializedLocation::Path {
                        parent: *parent,
                        filename: crate::file_handle::copy_bytes(filename),
                    },
                };
                let file_handle = if verify {
                    match &mi.file_handle {
                        Some(h) => Some(h.duplicate()),
                        None => None,
                    }
                } else {
                    None
                };
                SerializedInode { id: e.inode, refcount: e.refcount, location, file_handle }
            }
        },
    }
}

} // verus!
