//! Restore: rebuild the state on a migration destination from the stream
//! records, with dependency-deferred ordering.
//!
//! The embedding program drives the machine: it repeatedly scans the
//! pending records, asks `classify` what each needs, performs the host
//! work (opening the root, or a filename under an already-restored
//! parent), and hands the outcome back to the matching `apply_*` method.
//! A full scan without progress means unresolved references and fails the
//! migration.  Handles are re-opened after all inodes; a per-item failure
//! is decided by the configured migration-on-error policy: abort the
//! migration, or store the error in an invalid placeholder that surfaces
//! it to the guest on every later operation.

use vstd::prelude::*;

use crate::config::{InodeFileHandlesMode, MigrationOnError};
use crate::error::{ErrorKind, FsError};
use crate::fs::{LookupHost, PassthroughFs};
use crate::handles::{contains_handle, HandleData, HandleDataFile};
use crate::migration::HandleMigrationInfo;
use crate::store::{contains_id, entry_of, InodeModel, ROOT_ID};
use crate::wire::{SerializedFs, SerializedHandle, SerializedInode, SerLocModel};

verus! {

/// What one pending inode record needs before it can be restored.
#[derive(Clone, Copy, Debug, PartialEq, Eq, Structural)]
pub enum RecordNeed {
    /// Its parent is not restored yet; try again in a later pass.
    Deferred,
    /// It is the root record: the destination opens its own configured
    /// shared directory.
    NeedsRoot,
    /// A host open of the record's filename under the given (restored)
    /// parent.
    NeedsOpen {
        /// The restored inode to open relative to.
        parent: u64,
    },
    /// The source lost this inode; no host work can recover it.
    Lost,
}

/// The restore machine: the decoded records not yet applied, and the
/// counters to install at the end.
#[derive(Debug)]
pub struct Deserializer {
    /// Inode records not yet restored.
    pub pending: Vec<SerializedInode>,
    /// Handle records, applied in order after all inodes.
    pub handles: Vec<SerializedHandle>,
    /// How many handle records have been applied.
    pub handle_cursor: usize,
    /// The source's next free inode id.
    pub next_inode: u64,
    /// The source's next free handle id.
    pub next_handle: u64,
}

/// The model of a record's parent dependency.
pub open spec fn record_parent(loc: SerLocModel) -> Option<u64> {
    match loc {
        SerLocModel::Path { parent, .. } => Some(parent),
        SerLocModel::FullPath { .. } => Some(ROOT_ID),
        _ => None,
    }
}

/// Whether the reference handle a record carries (if any) is matched by
/// the handle the destination generated for what it opened: same type and
/// bytes, mount ids masked out.  A record without a reference handle
/// passes; a record with one and nothing to compare against fails.
pub open spec fn ref_handle_ok(
    rec_fh: Option<(u64, i32, Seq<u8>)>,
    actual: Option<crate::file_handle::SerializableFileHandle>,
) -> bool {
    match rec_fh {
        None => true,
        Some(k) => match actual {
            None => false,
            Some(a) => a.handle_type == k.1 && a.handle@ == k.2,
        },
    }
}

/// Why a path record's host outcome is unusable, if it is: the host's own
/// error, a missing handle under the mandatory mode, or a reference-handle
/// mismatch.  `None` means the opened file stands for the record.
pub open spec fn resolved_err_kind(
    mode: InodeFileHandlesMode,
    rec_fh: Option<(u64, i32, Seq<u8>)>,
    outcome: Result<LookupHost, FsError>,
) -> Option<ErrorKind> {
    match outcome {
        Err(e) => Some(e.kind),
        Ok(host) => if mode == InodeFileHandlesMode::Mandatory && host.handle is None {
            Some(ErrorKind::NotSupported)
        } else if !ref_handle_ok(rec_fh, host.serializable_handle) {
            Some(ErrorKind::Other)
        } else {
            None
        },
    }
}

/// The entry a path record is restored as: the opened file's backing,
/// identity and mode when the outcome is usable, else an invalid
/// placeholder carrying the failure — either way under the record's id and
/// refcount, with no migration info.
pub open spec fn restored_path_model(
    mode: InodeFileHandlesMode,
    rec: crate::wire::SerInodeModel,
    outcome: Result<LookupHost, FsError>,
    rk: Option<ErrorKind>,
) -> InodeModel {
    match rk {
        None => InodeModel {
            inode: rec.id,
            backing: crate::fs::lookup_backing(mode, (outcome->Ok_0).handle, (outcome->Ok_0).fd),
            refcount: rec.refcount,
            ids: (outcome->Ok_0).ids,
            mode: (outcome->Ok_0).mode,
            migration_info: None,
        },
        Some(k) => InodeModel {
            inode: rec.id,
            backing: crate::store::BackingModel::Invalid { kind: k },
            refcount: rec.refcount,
            ids: crate::store::InodeIds { ino: 0, dev: 0, mnt_id: 0 },
            mode: 0,
            migration_info: None,
        },
    }
}

/// The placeholder a lost record is restored as under the guest-error
/// policy: its id and refcount, an invalid backing carrying `NotFound`.
pub open spec fn lost_entry_model(rec: crate::wire::SerInodeModel) -> InodeModel {
    InodeModel {
        inode: rec.id,
        backing: crate::store::BackingModel::Invalid { kind: ErrorKind::NotFound },
        refcount: rec.refcount,
        ids: crate::store::InodeIds { ino: 0, dev: 0, mnt_id: 0 },
        mode: 0,
        migration_info: None,
    }
}

impl Deserializer {
    /// Decode the stream, transfer the negotiated options, and wipe the
    /// destination's tables.  A malformed or unknown-version stream, or an
    /// option the source had on that the destination's configuration
    /// forbids, aborts the migration.  (An option the source had off stays
    /// off here, even if locally enabled: it cannot be renegotiated with
    /// the guest mid-flight.)
    pub fn begin(fs: &mut PassthroughFs, stream: &Vec<u8>) -> (r: Result<Deserializer, FsError>)
        requires
            old(fs).inv(),
        ensures
            final(fs).inv(),
            final(fs).cfg == old(fs).cfg,
            ({
                match crate::codec::dec_state(stream@) {
                    None => r is Err && r->Err_0.kind == ErrorKind::MigrationAbort
                        && PassthroughFs::same_state(old(fs), final(fs)),
                    Some((m, _)) => {
                        let conflict = (!old(fs).cfg.writeback && m.negotiated_opts.writeback)
                            || (!old(fs).cfg.announce_submounts
                            && m.negotiated_opts.announce_submounts) || (!old(fs).cfg.posix_acl
                            && m.negotiated_opts.posix_acl);
                        if conflict {
                            r is Err && r->Err_0.kind == ErrorKind::MigrationAbort
                                && PassthroughFs::same_state(old(fs), final(fs))
                        } else {
                            r is Ok && final(fs).inodes@ == Seq::<InodeModel>::empty()
                                && final(fs).handles@ == Seq::<
                                crate::handles::HandleModel>::empty() && final(fs).writeback
                                == m.negotiated_opts.writeback && final(fs).announce_submounts
                                == m.negotiated_opts.announce_submounts && final(fs).posix_acl
                                == m.negotiated_opts.posix_acl && final(fs).sup_group_extension
                                == m.negotiated_opts.sup_group_extension
                                && r->Ok_0.pending@.map_values(|x: SerializedInode| x@)
                                == m.inodes && r->Ok_0.handles@ == m.handles
                                && r->Ok_0.handle_cursor == 0 && r->Ok_0.next_inode
                                == m.next_inode && r->Ok_0.next_handle == m.next_handle
                        }
                    },
                }
            }),
    {
        let decoded = match crate::codec::decode_fs(stream) {
            None => {
                return Err(FsError::new(ErrorKind::MigrationAbort));
            },
            Some(d) => d,
        };
        let SerializedFs::V1(v1) = decoded;
        let o = v1.negotiated_opts;
        if (!fs.cfg.writeback && o.writeback) || (!fs.cfg.announce_submounts
            && o.announce_submounts) || (!fs.cfg.posix_acl && o.posix_acl) {
            return Err(FsError::new(ErrorKind::MigrationAbort));
        }
        fs.writeback = o.writeback;
        fs.announce_submounts = o.announce_submounts;
        fs.posix_acl = o.posix_acl;
        fs.sup_group_extension = o.sup_group_extension;
        fs.inodes.clear();
        fs.handles.clear();
        Ok(
            Deserializer {
                pending: v1.inodes,
                handles: v1.handles,
                handle_cursor: 0,
                next_inode: v1.next_inode,
                next_handle: v1.next_handle,
            },
        )
    }

    /// What pending record `i` needs, given what is already restored.
    pub fn classify(&self, fs: &PassthroughFs, i: usize) -> (r: RecordNeed)
        requires
            fs.inv(),
            i < self.pending@.len(),
        ensures
            r == (match self.pending@[i as int]@.location {
                SerLocModel::RootNode => RecordNeed::NeedsRoot,
                SerLocModel::Invalid => RecordNeed::Lost,
                SerLocModel::Path { parent, .. } => if contains_id(fs.inodes@, parent) {
                    RecordNeed::NeedsOpen { parent }
                } else {
                    RecordNeed::Deferred
                },
                SerLocModel::FullPath { .. } => if contains_id(fs.inodes@, ROOT_ID) {
                    RecordNeed::NeedsOpen { parent: ROOT_ID }
                } else {
                    RecordNeed::Deferred
                },
            }),
    {
        match &self.pending[i].location {
            crate::wire::SerializedLocation::RootNode => RecordNeed::NeedsRoot,
            crate::wire::SerializedLocation::Invalid => RecordNeed::Lost,
            crate::wire::SerializedLocation::Path { parent, .. } => {
                let p = *parent;
                match fs.inodes.get(p) {
                    Some(_) => RecordNeed::NeedsOpen { parent: p },
                    None => RecordNeed::Deferred,
                }
            },
            crate::wire::SerializedLocation::FullPath { .. } => {
                match fs.inodes.get(ROOT_ID) {
                    Some(_) => RecordNeed::NeedsOpen { parent: ROOT_ID },
                    None => RecordNeed::Deferred,
                }
            },
        }
    }

    /// Borrow pending record `i` (the embedding program reads the
    /// filename it must open).
    pub fn record_at(&self, i: usize) -> (r: &SerializedInode)
        requires
            i < self.pending@.len(),
        ensures
            r == self.pending@[i as int],
    {
        &self.pending[i]
    }

    /// Restore the root record: only accepted for `ROOT_ID`; the refcount
    /// is adopted from the source; a reference file handle, if the source
    /// sent one, must match the root the destination opened (compared with
    /// the mount id masked out — mount ids are not portable across hosts).
    /// A mismatch on the root is always a hard error.
    pub fn apply_root(&mut self, fs: &mut PassthroughFs, i: usize, host: LookupHost) -> (r:
        Result<(), FsError>)
        requires
            old(fs).inv(),
            i < old(self).pending@.len(),
            old(self).pending@[i as int]@.location is RootNode,
        ensures
            final(fs).inv(),
            final(fs).handles@ == old(fs).handles@,
            PassthroughFs::same_options(old(fs), final(fs)),
            final(fs).next_inode == old(fs).next_inode,
            final(fs).next_handle == old(fs).next_handle,
            final(self).handles@ == old(self).handles@,
            final(self).handle_cursor == old(self).handle_cursor,
            final(self).next_inode == old(self).next_inode,
            final(self).next_handle == old(self).next_handle,
            ({
                let rec = old(self).pending@[i as int]@;
                let mode = old(fs).cfg.inode_file_handles;
                let em = crate::fs::root_entry_model(
                    mode,
                    old(fs).cfg.migration_verify_handles,
                    rec.refcount,
                    host,
                );
                let bad = rec.id != ROOT_ID || rec.refcount == 0 || !ref_handle_ok(
                    rec.file_handle,
                    host.serializable_handle,
                ) || (mode == InodeFileHandlesMode::Mandatory && host.handle is None)
                    || contains_id(old(fs).inodes@, ROOT_ID) || (em.fd_backed()
                    && crate::store::find_by_ids(old(fs).inodes@, host.ids) is Some) || (
                em.handle_key() is Some && crate::store::find_by_handle(
                    old(fs).inodes@,
                    em.handle_key()->0,
                ) is Some);
                if bad {
                    r is Err && r->Err_0.kind == ErrorKind::MigrationAbort
                        && final(fs).inodes@ == old(fs).inodes@ && final(self).pending@ == old(
                    self).pending@
                } else {
                    r is Ok && final(fs).inodes@ == old(fs).inodes@.push(em)
                        && final(self).pending@ == old(self).pending@.remove(i as int)
                        && contains_id(final(fs).inodes@, ROOT_ID) && entry_of(
                        final(fs).inodes@,
                        ROOT_ID,
                    ).refcount == rec.refcount
                }
            }),
    {
        let rec_id = self.pending[i].id;
        let rec_rc = self.pending[i].refcount;
        if rec_id != ROOT_ID || rec_rc == 0 {
            return Err(FsError::new(ErrorKind::MigrationAbort));
        }
        // Compare the source's reference handle, if any, against the root
        // the destination opened.
        let fh_ok = match &self.pending[i].file_handle {
            None => true,
            Some(ref_fh) => match &host.serializable_handle {
                None => false,
                Some(is_fh) => match is_fh.require_equal_without_mount_id(ref_fh) {
                    Ok(_) => true,
                    Err(_) => false,
                },
            },
        };
        if !fh_ok {
            return Err(FsError::new(ErrorKind::MigrationAbort));
        }
        let mandatory = match fs.cfg.inode_file_handles {
            InodeFileHandlesMode::Mandatory => true,
            _ => false,
        };
        if mandatory && match &host.handle {
            None => true,
            Some(_) => false,
        } {
            return Err(FsError::new(ErrorKind::MigrationAbort));
        }
        let use_handles = match fs.cfg.inode_file_handles {
            InodeFileHandlesMode::Never => false,
            _ => true,
        };
        let file_or_handle = if use_handles {
            match host.handle {
                Some(h) => crate::store::FileOrHandle::Handle(h),
                None => crate::store::FileOrHandle::File(host.fd),
            }
        } else {
            crate::store::FileOrHandle::File(host.fd)
        };
        let migration_info = match crate::migration::InodeMigrationInfo::new_root(
            fs.cfg.migration_verify_handles,
            host.serializable_handle,
        ) {
            Ok(mi) => Some(mi),
            Err(_) => None,
        };
        let entry = crate::store::InodeData {
            inode: ROOT_ID,
            file_or_handle,
            refcount: rec_rc,
            ids: host.ids,
            mode: host.mode,
            migration_info,
        };
        let ghost pre = fs.inodes@;
        match fs.inodes.new_inode(entry) {
            Err(_) => {
                proof {
                    assert(crate::store::release_entry(pre, entry@) == pre);
                }
                Err(FsError::new(ErrorKind::MigrationAbort))
            },
            Ok(_) => {
                let _ = self.pending.remove(i);
                proof {
                    let s2 = fs.inodes@;
                    let n = pre.len() as int;
                    assert(s2[n].inode == ROOT_ID);
                    crate::store::lemma_idx_of_unique(s2, ROOT_ID, n);
                }
                Ok(())
            },
        }
    }

    /// Restore a path-located record, from the host's attempt to open its
    /// filename under its restored parent (or under the root, for a
    /// full-path record).  The parent reference the source counted for
    /// this record is released here.  A record that cannot be opened, or
    /// whose file handle does not match the source's, is decided by the
    /// migration-on-error policy: abort, or keep an invalid placeholder
    /// carrying the error.
    #[verifier::rlimit(100)]
    #[verifier::spinoff_prover]
    pub fn apply_path(
        &mut self,
        fs: &mut PassthroughFs,
        i: usize,
        outcome: Result<LookupHost, FsError>,
    ) -> (r: Result<(), FsError>)
        requires
            old(fs).inv(),
            i < old(self).pending@.len(),
            record_parent(old(self).pending@[i as int]@.location) is Some,
        ensures
            final(fs).inv(),
            final(fs).handles@ == old(fs).handles@,
            PassthroughFs::same_options(old(fs), final(fs)),
            final(fs).next_inode == old(fs).next_inode,
            final(fs).next_handle == old(fs).next_handle,
            final(self).handles@ == old(self).handles@,
            final(self).handle_cursor == old(self).handle_cursor,
            final(self).next_inode == old(self).next_inode,
            final(self).next_handle == old(self).next_handle,
            ({
                let rec = old(self).pending@[i as int]@;
                let p = record_parent(rec.location)->0;
                let cfg = old(fs).cfg;
                let rk = resolved_err_kind(cfg.inode_file_handles, rec.file_handle, outcome);
                if rec.id == ROOT_ID || rec.refcount == 0 || !contains_id(old(fs).inodes@, p) {
                    r is Err && r->Err_0.kind == ErrorKind::MigrationAbort && final(fs).inodes@
                        == old(fs).inodes@ && final(self).pending@ == old(self).pending@
                } else if rk is Some && cfg.migration_on_error == MigrationOnError::Abort {
                    r is Err && r->Err_0.kind == ErrorKind::MigrationAbort && final(fs).inodes@
                        == old(fs).inodes@ && final(self).pending@ == old(self).pending@
                } else {
                    let s1 = if rec.location is FullPath {
                        old(fs).inodes@
                    } else {
                        crate::store::forget_spec(old(fs).inodes@, p, 1)
                    };
                    let em = restored_path_model(cfg.inode_file_handles, rec, outcome, rk);
                    let dup = contains_id(s1, rec.id) || (em.fd_backed()
                        && crate::store::find_by_ids(s1, em.ids) is Some) || (em.handle_key()
                        is Some && crate::store::find_by_handle(
                        s1,
                        em.handle_key()->0,
                    ) is Some);
                    if dup {
                        r is Err && r->Err_0.kind == ErrorKind::MigrationAbort
                            && final(fs).inodes@ == s1 && final(self).pending@ == old(
                        self).pending@
                    } else {
                        r is Ok && final(fs).inodes@ == s1.push(em) && final(self).pending@
                            == old(self).pending@.remove(i as int) && contains_id(
                            final(fs).inodes@,
                            rec.id,
                        ) && entry_of(final(fs).inodes@, rec.id).refcount == rec.refcount
                    }
                }
            }),
    {
        let ghost out0 = outcome;
        let ghost rec0 = self.pending@[i as int]@;
        let ghost rk0 = resolved_err_kind(
            fs.cfg.inode_file_handles,
            rec0.file_handle,
            out0,
        );
        let rec_id = self.pending[i].id;
        let rec_rc = self.pending[i].refcount;
        let is_full_path = match &self.pending[i].location {
            crate::wire::SerializedLocation::FullPath { .. } => true,
            _ => false,
        };
        let p: u64 = match &self.pending[i].location {
            crate::wire::SerializedLocation::Path { parent, .. } => *parent,
            _ => ROOT_ID,
        };
        if rec_id == ROOT_ID || rec_rc == 0 {
            return Err(FsError::new(ErrorKind::MigrationAbort));
        }
        let parent_present = match fs.inodes.get(p) {
            Some(_) => true,
            None => false,
        };
        if !parent_present {
            return Err(FsError::new(ErrorKind::MigrationAbort));
        }
        // The host outcome, folded with the reference-handle comparison
        // and the mandatory-handle rule.
        let resolved: Result<LookupHost, FsError> = match outcome {
            Err(e) => Err(e),
            Ok(host) => {
                let mandatory = match fs.cfg.inode_file_handles {
                    InodeFileHandlesMode::Mandatory => true,
                    _ => false,
                };
                let no_handle = match &host.handle {
                    None => true,
                    Some(_) => false,
                };
                if mandatory && no_handle {
                    Err(FsError::new(ErrorKind::NotSupported))
                } else {
                    let fh_ok = match &self.pending[i].file_handle {
                        None => true,
                        Some(ref_fh) => match &host.serializable_handle {
                            None => false,
                            Some(is_fh) => match is_fh.require_equal_without_mount_id(ref_fh) {
                                Ok(_) => true,
                                Err(_) => false,
                            },
                        },
                    };
                    if fh_ok {
                        Ok(host)
                    } else {
                        Err(FsError::new(ErrorKind::Other))
                    }
                }
            },
        };
        let entry = match resolved {
            Ok(host) => {
                proof {
                    assert(rk0 is None);
                }
                let use_handles = match fs.cfg.inode_file_handles {
                    InodeFileHandlesMode::Never => false,
                    _ => true,
                };
                let file_or_handle = if use_handles {
                    match host.handle {
                        Some(h) => crate::store::FileOrHandle::Handle(h),
                        None => crate::store::FileOrHandle::File(host.fd),
                    }
                } else {
                    crate::store::FileOrHandle::File(host.fd)
                };
                crate::store::InodeData {
                    inode: rec_id,
                    file_or_handle,
                    refcount: rec_rc,
                    ids: host.ids,
                    mode: host.mode,
                    migration_info: None,
                }
            },
            Err(e) => {
                proof {
                    assert(rk0 == Some(e.kind));
                }
                let abort = match fs.cfg.migration_on_error {
                    MigrationOnError::Abort => true,
                    MigrationOnError::GuestError => false,
                };
                if abort {
                    return Err(
                        FsError::with_msg(ErrorKind::MigrationAbort, e.msg),
                    );
                }
                crate::store::InodeData {
                    inode: rec_id,
                    file_or_handle: crate::store::FileOrHandle::Invalid(e),
                    refcount: rec_rc,
                    ids: crate::store::InodeIds { ino: 0, dev: 0, mnt_id: 0 },
                    mode: 0,
                    migration_info: None,
                }
            },
        };
        proof {
            assert(entry@ == restored_path_model(
                fs.cfg.inode_file_handles,
                rec0,
                out0,
                rk0,
            ));
        }
        // Release the parent reference the source counted for this record
        // (full-path records hold no reference on the root).
        if !is_full_path {
            fs.inodes.forget_one(p, 1);
        }
        let still_ok = match fs.inodes.get(rec_id) {
            Some(_) => false,
            None => true,
        };
        if !still_ok {
            // Double-use of an inode id in the stream.
            return Err(FsError::new(ErrorKind::MigrationAbort));
        }
        let ghost pre = fs.inodes@;
        match fs.inodes.new_inode(entry) {
            Err(_) => Err(FsError::new(ErrorKind::MigrationAbort)),
            Ok(_) => {
                let _ = self.pending.remove(i);
                proof {
                    let s2 = fs.inodes@;
                    let n = pre.len() as int;
                    assert(s2[n].inode == rec_id);
                    crate::store::lemma_idx_of_unique(s2, rec_id, n);
                }
                Ok(())
            },
        }
    }

    /// Restore a record the source marked lost.  Under the abort policy
    /// the migration fails with the loss; under the guest-error policy an
    /// invalid placeholder keeps the inode's id and refcount, and every
    /// later operation on it returns the stored `NotFound`.
    pub fn apply_lost(&mut self, fs: &mut PassthroughFs, i: usize) -> (r: Result<(), FsError>)
        requires
            old(fs).inv(),
            i < old(self).pending@.len(),
            old(self).pending@[i as int]@.location is Invalid,
        ensures
            final(fs).inv(),
            final(fs).handles@ == old(fs).handles@,
            PassthroughFs::same_options(old(fs), final(fs)),
            final(fs).next_inode == old(fs).next_inode,
            final(fs).next_handle == old(fs).next_handle,
            final(self).handles@ == old(self).handles@,
            final(self).handle_cursor == old(self).handle_cursor,
            final(self).next_inode == old(self).next_inode,
            final(self).next_handle == old(self).next_handle,
            ({
                let rec = old(self).pending@[i as int]@;
                let bad = old(fs).cfg.migration_on_error == MigrationOnError::Abort
                    || rec.refcount == 0 || contains_id(old(fs).inodes@, rec.id);
                if bad {
                    r is Err && r->Err_0.kind == ErrorKind::MigrationAbort
                        && final(fs).inodes@ == old(fs).inodes@ && final(self).pending@ == old(
                    self).pending@
                } else {
                    r is Ok && final(fs).inodes@ == old(fs).inodes@.push(lost_entry_model(rec))
                        && final(self).pending@ == old(self).pending@.remove(i as int)
                        && contains_id(final(fs).inodes@, rec.id) && entry_of(
                        final(fs).inodes@,
                        rec.id,
                    ).refcount == rec.refcount && entry_of(final(fs).inodes@, rec.id).backing
                        == (crate::store::BackingModel::Invalid { kind: ErrorKind::NotFound })
                }
            }),
    {
        let abort = match fs.cfg.migration_on_error {
            MigrationOnError::Abort => true,
            MigrationOnError::GuestError => false,
        };
        if abort {
            return Err(FsError::new(ErrorKind::MigrationAbort));
        }
        let rec_id = self.pending[i].id;
        let rec_rc = self.pending[i].refcount;
        if rec_rc == 0 {
            return Err(FsError::new(ErrorKind::MigrationAbort));
        }
        let taken = match fs.inodes.get(rec_id) {
            Some(_) => true,
            None => false,
        };
        if taken {
            return Err(FsError::new(ErrorKind::MigrationAbort));
        }
        let entry = crate::store::InodeData {
            inode: rec_id,
            file_or_handle: crate::store::FileOrHandle::Invalid(
                FsError::new(ErrorKind::NotFound),
            ),
            refcount: rec_rc,
            ids: crate::store::InodeIds { ino: 0, dev: 0, mnt_id: 0 },
            mode: 0,
            migration_info: None,
        };
        let ghost pre = fs.inodes@;
        match fs.inodes.new_inode(entry) {
            Err(_) => Err(FsError::new(ErrorKind::MigrationAbort)),
            Ok(_) => {
                let _ = self.pending.remove(i);
                proof {
                    let s2 = fs.inodes@;
                    let n = pre.len() as int;
                    assert(s2[n].inode == rec_id);
                    crate::store::lemma_idx_of_unique(s2, rec_id, n);
                }
                Ok(())
            },
        }
    }

    /// The host re-open flags for the next handle record: the recorded
    /// guest flags, sanitized against the restored state (so a write-only
    /// handle re-opens read-write under writeback, and append never
    /// reaches the host).
    pub fn next_handle_flags(&self, fs: &PassthroughFs) -> (r: u32)
        requires
            self.handle_cursor < self.handles@.len(),
        ensures
            r == crate::flags::sanitized_flags_spec(
                self.handles@[self.handle_cursor as int].flags,
                fs.writeback,
                fs.cfg.clean_noatime,
                fs.cfg.allow_direct_io,
            ),
    {
        fs.host_open_flags(self.handles[self.handle_cursor].flags)
    }

    /// Restore the next handle record from the host's attempt to re-open
    /// its inode.  The re-opened file must belong to a restored inode; a
    /// failed open is decided by the migration-on-error policy.
    pub fn apply_handle(&mut self, fs: &mut PassthroughFs, outcome: Result<i32, FsError>) -> (r:
        Result<(), FsError>)
        requires
            old(fs).inv(),
            old(self).handle_cursor < old(self).handles@.len(),
        ensures
            final(fs).inv(),
            PassthroughFs::same_options(old(fs), final(fs)),
            final(fs).next_inode == old(fs).next_inode,
            final(fs).next_handle == old(fs).next_handle,
            final(fs).inodes@ == old(fs).inodes@,
            final(self).pending@ == old(self).pending@,
            final(self).handles@ == old(self).handles@,
            final(self).next_inode == old(self).next_inode,
            final(self).next_handle == old(self).next_handle,
            ({
                let rec = old(self).handles@[old(self).handle_cursor as int];
                if !contains_id(old(fs).inodes@, rec.inode) || contains_handle(
                    old(fs).handles@,
                    rec.id,
                ) {
                    r is Err && r->Err_0.kind == ErrorKind::MigrationAbort && final(fs).handles@
                        == old(fs).handles@ && final(self).handle_cursor == old(
                    self).handle_cursor
                } else if outcome is Err && old(fs).cfg.migration_on_error
                    == MigrationOnError::Abort {
                    r is Err && r->Err_0.kind == ErrorKind::MigrationAbort && final(fs).handles@
                        == old(fs).handles@ && final(self).handle_cursor == old(
                    self).handle_cursor
                } else {
                    r is Ok && final(self).handle_cursor == old(self).handle_cursor + 1
                        && final(fs).handles@ == old(fs).handles@.push(
                        crate::handles::HandleModel {
                            id: rec.id,
                            inode: rec.inode,
                            file: match outcome {
                                Ok(fd) => crate::handles::HandleFileModel::Fd { fd },
                                Err(e) => crate::handles::HandleFileModel::Invalid {
                                    kind: e.kind,
                                },
                            },
                            flags: rec.flags & !(crate::flags::O_CREAT | crate::flags::O_EXCL
                                | crate::flags::O_TRUNC),
                        },
                    )
                }
            }),
    {
        let rec = self.handles[self.handle_cursor];
        let inode_present = match fs.inodes.get(rec.inode) {
            Some(_) => true,
            None => false,
        };
        if !inode_present {
            return Err(FsError::new(ErrorKind::MigrationAbort));
        }
        if contains_handle_probe(&fs.handles, rec.id) {
            return Err(FsError::new(ErrorKind::MigrationAbort));
        }
        let file = match outcome {
            Ok(fd) => HandleDataFile::File(fd),
            Err(e) => {
                let abort = match fs.cfg.migration_on_error {
                    MigrationOnError::Abort => true,
                    MigrationOnError::GuestError => false,
                };
                if abort {
                    return Err(FsError::with_msg(ErrorKind::MigrationAbort, e.msg));
                }
                HandleDataFile::Invalid(e)
            },
        };
        let data = HandleData {
            inode: rec.inode,
            file,
            migration_info: HandleMigrationInfo::new(rec.flags),
        };
        fs.handles.insert(rec.id, data);
        let hl = self.handles.len();
        proof {
            assert(self.handle_cursor < hl);
        }
        self.handle_cursor = self.handle_cursor + 1;
        Ok(())
    }

    /// Install the source's id counters once every record has been
    /// applied.  Completing the restore requires every inode and every
    /// handle to have been processed.
    pub fn finish(&self, fs: &mut PassthroughFs) -> (r: Result<(), FsError>)
        requires
            old(fs).inv(),
        ensures
            final(fs).inv(),
            final(fs).inodes@ == old(fs).inodes@,
            final(fs).handles@ == old(fs).handles@,
            PassthroughFs::same_options(old(fs), final(fs)),
            (self.pending@.len() == 0 && self.handle_cursor == self.handles@.len()) <==> r is Ok,
            r is Ok ==> final(fs).next_inode == self.next_inode && final(fs).next_handle
                == self.next_handle,
            r is Err ==> r->Err_0.kind == ErrorKind::MigrationAbort && final(fs).next_inode
                == old(fs).next_inode && final(fs).next_handle == old(fs).next_handle,
    {
        if self.pending.len() != 0 || self.handle_cursor != self.handles.len() {
            return Err(FsError::new(ErrorKind::MigrationAbort));
        }
        fs.next_inode = self.next_inode;
        fs.next_handle = self.next_handle;
        Ok(())
    }
}

// ---------------------------------------------------------------------
// Restore completeness
// ---------------------------------------------------------------------
//
// Each `apply_*` contract pins one record's effect on the store: release
// the parent reference a path-located record carries, then add the
// restored entry under the record's id with the record's refcount (and no
// migration info of its own).  The following states what any full run of
// those steps adds up to.
/// The parent reference a record releases when it is restored (full-path
/// records hold no reference on the root).
pub open spec fn path_parent(loc: SerLocModel) -> Option<u64> {
    match loc {
        SerLocModel::Path { parent, .. } => Some(parent),
        _ => None,
    }
}

/// One record's effect on the destination store.
pub open spec fn restore_step(
    s: Seq<InodeModel>,
    rec: crate::wire::SerInodeModel,
    e: InodeModel,
) -> Seq<InodeModel> {
    match path_parent(rec.location) {
        Some(p) => crate::store::forget_spec(s, p, 1).push(e),
        None => s.push(e),
    }
}

/// A whole run of restore steps, in processing order.
pub open spec fn restore_run(
    s: Seq<InodeModel>,
    pairs: Seq<(crate::wire::SerInodeModel, InodeModel)>,
) -> Seq<InodeModel>
    decreases pairs.len(),
{
    if pairs.len() == 0 {
        s
    } else {
        restore_run(restore_step(s, pairs[0].0, pairs[0].1), pairs.drop_first())
    }
}

/// How many records of `pairs` release a reference on `id`.
pub open spec fn count_children(
    pairs: Seq<(crate::wire::SerInodeModel, InodeModel)>,
    id: u64,
) -> nat
    decreases pairs.len(),
{
    if pairs.len() == 0 {
        0
    } else {
        ((if path_parent(pairs[0].0.location) == Some(id) {
            1nat
        } else {
            0nat
        }) + count_children(pairs.drop_first(), id)) as nat
    }
}

/// A record sequence as a correct source produces it, in an order the
/// dependency-deferred passes can take: each restored entry carries its
/// record's id and refcount and no migration info; ids are distinct; every
/// released parent was restored earlier; and every record's refcount
/// exceeds the number of references later records release on it (the
/// source counted those references into it).
pub open spec fn restore_run_wf(pairs: Seq<(crate::wire::SerInodeModel, InodeModel)>) -> bool {
    &&& forall|k: int|
        0 <= k < pairs.len() ==> (#[trigger] pairs[k].1).inode == pairs[k].0.id
            && pairs[k].1.refcount == pairs[k].0.refcount && pairs[k].1.mig_parent() is None
    &&& forall|j: int, k: int|
        0 <= j < pairs.len() && 0 <= k < pairs.len() && j != k ==> (#[trigger] pairs[j].0).id
            != (#[trigger] pairs[k].0).id
    &&& forall|k: int|
        0 <= k < pairs.len() && path_parent((#[trigger] pairs[k].0).location) is Some
            ==> exists|j: int|
            0 <= j < k && (#[trigger] pairs[j].0).id == path_parent(pairs[k].0.location)->0
    &&& forall|k: int|
        0 <= k < pairs.len() ==> (#[trigger] pairs[k].0).refcount > count_children(
            pairs,
            pairs[k].0.id,
        )
}

/// Pairwise-distinct inode ids (all the run proof needs of the store).
pub open spec fn ids_unique(s: Seq<InodeModel>) -> bool {
    forall|a: int, b: int|
        0 <= a < s.len() && 0 <= b < s.len() && a != b ==> s[a].inode != s[b].inode
}

/// With distinct ids, an index holding `id` is the index `idx_of` denotes.
proof fn lemma_idx_unique_ids(s: Seq<InodeModel>, id: u64, i: int)
    requires
        ids_unique(s),
        0 <= i < s.len(),
        s[i].inode == id,
    ensures
        contains_id(s, id),
        crate::store::idx_of(s, id) == i,
        entry_of(s, id) == s[i],
{
    let k = crate::store::idx_of(s, id);
    assert(0 <= k < s.len() && s[k].inode == id);
    if k != i {
        assert(s[k].inode != s[i].inode);
        assert(false);
    }
}

/// Appending one step extends the run.
proof fn lemma_restore_run_push(
    s: Seq<InodeModel>,
    pairs: Seq<(crate::wire::SerInodeModel, InodeModel)>,
    x: (crate::wire::SerInodeModel, InodeModel),
)
    ensures
        restore_run(s, pairs.push(x)) == restore_step(restore_run(s, pairs), x.0, x.1),
    decreases pairs.len(),
{
    let e = Seq::<(crate::wire::SerInodeModel, InodeModel)>::empty();
    if pairs.len() == 0 {
        assert(pairs.push(x)[0] == x);
        assert(pairs.push(x).drop_first() =~= e);
        assert(restore_run(s, pairs.push(x)) == restore_run(restore_step(s, x.0, x.1), e));
        assert(restore_run(restore_step(s, x.0, x.1), e) == restore_step(s, x.0, x.1));
        assert(pairs =~= e);
        assert(restore_run(s, pairs) == s);
    } else {
        assert(pairs.push(x)[0] == pairs[0]);
        assert(pairs.push(x).drop_first() =~= pairs.drop_first().push(x));
        assert(restore_run(s, pairs.push(x)) == restore_run(
            restore_step(s, pairs[0].0, pairs[0].1),
            pairs.drop_first().push(x),
        ));
        lemma_restore_run_push(restore_step(s, pairs[0].0, pairs[0].1), pairs.drop_first(), x);
        assert(restore_run(s, pairs) == restore_run(
            restore_step(s, pairs[0].0, pairs[0].1),
            pairs.drop_first(),
        ));
    }
}

/// Appending one step adjusts the per-parent count by its own release.
proof fn lemma_count_children_push(
    pairs: Seq<(crate::wire::SerInodeModel, InodeModel)>,
    x: (crate::wire::SerInodeModel, InodeModel),
    id: u64,
)
    ensures
        count_children(pairs.push(x), id) == count_children(pairs, id) + (
        if path_parent(x.0.location) == Some(id) {
            1nat
        } else {
            0nat
        }),
    decreases pairs.len(),
{
    let e = Seq::<(crate::wire::SerInodeModel, InodeModel)>::empty();
    if pairs.len() == 0 {
        assert(pairs.push(x)[0] == x);
        assert(pairs.push(x).drop_first() =~= e);
        assert(count_children(e, id) == 0);
        assert(pairs =~= e);
        assert(count_children(pairs, id) == 0);
    } else {
        assert(pairs.push(x)[0] == pairs[0]);
        assert(pairs.push(x).drop_first() =~= pairs.drop_first().push(x));
        lemma_count_children_push(pairs.drop_first(), x, id);
    }
}

/// A prefix's count never exceeds the whole sequence's.
proof fn lemma_count_children_take(
    pairs: Seq<(crate::wire::SerInodeModel, InodeModel)>,
    k: int,
    id: u64,
)
    requires
        0 <= k <= pairs.len(),
    ensures
        count_children(pairs.take(k), id) <= count_children(pairs, id),
    decreases pairs.len() - k,
{
    if k == pairs.len() {
        assert(pairs.take(k) =~= pairs);
    } else {
        assert(pairs.take(k + 1) =~= pairs.take(k).push(pairs[k]));
        lemma_count_children_push(pairs.take(k), pairs[k], id);
        lemma_count_children_take(pairs, k + 1, id);
    }
}

/// After the first `k` steps of a well-formed run from an empty store:
/// exactly the first `k` ids are present, each with its record's refcount
/// less the references already released on it, and no entry carries
/// migration info that a later release could cascade through.
proof fn lemma_restore_run_prefix(pairs: Seq<(crate::wire::SerInodeModel, InodeModel)>, k: int)
    requires
        restore_run_wf(pairs),
        0 <= k <= pairs.len(),
    ensures
        ({
            let s = restore_run(Seq::<InodeModel>::empty(), pairs.take(k));
            &&& forall|j: int|
                0 <= j < k ==> contains_id(s, (#[trigger] pairs[j].0).id) && entry_of(
                    s,
                    pairs[j].0.id,
                ).refcount == pairs[j].0.refcount - count_children(
                    pairs.take(k),
                    pairs[j].0.id,
                ) && entry_of(s, pairs[j].0.id).mig_parent() is None
            &&& forall|x: u64|
                #[trigger] contains_id(s, x) ==> exists|j: int| 0 <= j < k && pairs[j].0.id == x
            &&& ids_unique(s)
        }),
    decreases k,
{
    if k == 0 {
        assert(pairs.take(0) =~= Seq::<(crate::wire::SerInodeModel, InodeModel)>::empty());
    } else {
        lemma_restore_run_prefix(pairs, k - 1);
        let prev = restore_run(Seq::<InodeModel>::empty(), pairs.take(k - 1));
        let rec = pairs[k - 1].0;
        let e = pairs[k - 1].1;
        assert(pairs.take(k) =~= pairs.take(k - 1).push(pairs[k - 1]));
        lemma_restore_run_push(Seq::<InodeModel>::empty(), pairs.take(k - 1), pairs[k - 1]);
        let s = restore_run(Seq::<InodeModel>::empty(), pairs.take(k));
        assert(s == restore_step(prev, rec, e));
        // The new id is fresh in `prev`.
        assert(!contains_id(prev, rec.id)) by {
            if contains_id(prev, rec.id) {
                let j = choose|j: int| 0 <= j < k - 1 && pairs[j].0.id == rec.id;
                assert(pairs[j].0.id != pairs[k - 1].0.id);
            }
        }
        let mid = match path_parent(rec.location) {
            Some(p) => crate::store::forget_spec(prev, p, 1),
            None => prev,
        };
        match path_parent(rec.location) {
            None => {
                assert(mid == prev);
                assert forall|j: int| 0 <= j < k - 1 implies count_children(
                    pairs.take(k),
                    (#[trigger] pairs[j].0).id,
                ) == count_children(pairs.take(k - 1), pairs[j].0.id) by {
                    lemma_count_children_push(pairs.take(k - 1), pairs[k - 1], pairs[j].0.id);
                }
            },
            Some(p) => {
                // The parent is present with at least two references: its
                // record's refcount exceeds all the releases, of which at
                // most all-but-this-one have happened.
                let pj = choose|j: int| 0 <= j < k - 1 && (#[trigger] pairs[j].0).id == p;
                assert(contains_id(prev, p));
                let c_prev = count_children(pairs.take(k - 1), p);
                assert(entry_of(prev, p).refcount == pairs[pj].0.refcount - c_prev);
                lemma_count_children_push(pairs.take(k - 1), pairs[k - 1], p);
                assert(count_children(pairs.take(k), p) == c_prev + 1);
                lemma_count_children_take(pairs, k, p);
                assert(pairs[pj].0.refcount > count_children(pairs, p));
                assert(entry_of(prev, p).refcount >= 2);
                // So the release decrements without removing, and no
                // cascade runs (restored entries carry no migration info).
                let i = crate::store::idx_of(prev, p);
                assert(prev[i] == entry_of(prev, p));
                assert(mid =~= prev.update(
                    i,
                    InodeModel { refcount: (prev[i].refcount - 1) as u64, ..prev[i] },
                ));
                assert(forall|a: int| 0 <= a < mid.len() ==> #[trigger] mid[a].inode
                    == prev[a].inode);
                assert(ids_unique(mid));
                assert forall|j: int| 0 <= j < k - 1 implies contains_id(
                    mid,
                    (#[trigger] pairs[j].0).id,
                ) && entry_of(mid, pairs[j].0.id) == (if pairs[j].0.id == p {
                    InodeModel { refcount: (entry_of(prev, p).refcount - 1) as u64, ..entry_of(
                        prev,
                        p,
                    ) }
                } else {
                    entry_of(prev, pairs[j].0.id)
                }) by {
                    let jj = crate::store::idx_of(prev, pairs[j].0.id);
                    assert(prev[jj].inode == pairs[j].0.id);
                    assert(mid[jj].inode == pairs[j].0.id);
                    lemma_idx_unique_ids(mid, pairs[j].0.id, jj);
                    if pairs[j].0.id == p {
                        lemma_idx_unique_ids(prev, p, jj);
                    }
                }
                assert forall|j: int| 0 <= j < k - 1 implies count_children(
                    pairs.take(k),
                    (#[trigger] pairs[j].0).id,
                ) == count_children(pairs.take(k - 1), pairs[j].0.id) + (if pairs[j].0.id == p {
                    1int
                } else {
                    0int
                }) by {
                    lemma_count_children_push(pairs.take(k - 1), pairs[k - 1], pairs[j].0.id);
                }
                assert forall|x: u64| #[trigger] contains_id(mid, x) implies contains_id(
                    prev,
                    x,
                ) by {
                    let ii = crate::store::idx_of(mid, x);
                    assert(prev[ii].inode == x);
                }
            },
        }
        // Add the restored entry.
        assert(s == mid.push(e));
        assert(!contains_id(mid, rec.id)) by {
            if contains_id(mid, rec.id) {
                let ii = crate::store::idx_of(mid, rec.id);
                assert(prev[ii].inode == rec.id);
                assert(contains_id(prev, rec.id));
            }
        }
        let n = mid.len() as int;
        assert(s[n] == e);
        assert(forall|ii: int| 0 <= ii < n ==> s[ii] == mid[ii]);
        assert forall|a: int, b: int|
            0 <= a < s.len() && 0 <= b < s.len() && a != b implies s[a].inode != s[b].inode by {
            if a == n {
                assert(!(0 <= b < mid.len() && mid[b].inode == e.inode));
            } else if b == n {
                assert(!(0 <= a < mid.len() && mid[a].inode == e.inode));
            }
        }
        assert forall|j: int| 0 <= j < k implies contains_id(s, (#[trigger] pairs[j].0).id)
            && entry_of(s, pairs[j].0.id).refcount == pairs[j].0.refcount - count_children(
            pairs.take(k),
            pairs[j].0.id,
        ) && entry_of(s, pairs[j].0.id).mig_parent() is None by {
            if j == k - 1 {
                lemma_idx_unique_ids(s, rec.id, n);
                lemma_count_children_push(pairs.take(k - 1), pairs[k - 1], rec.id);
                assert(count_children(pairs.take(k - 1), rec.id) == 0) by {
                    lemma_count_children_no_early_parent(pairs, k - 1);
                }
            } else {
                let jj = crate::store::idx_of(mid, pairs[j].0.id);
                assert(0 <= jj < mid.len() && mid[jj].inode == pairs[j].0.id);
                assert(s[jj] == mid[jj]);
                lemma_idx_unique_ids(s, pairs[j].0.id, jj);
            }
        }
        assert forall|x: u64| #[trigger] contains_id(s, x) implies exists|j: int|
            0 <= j < k && pairs[j].0.id == x by {
            let ii = crate::store::idx_of(s, x);
            if ii < n {
                assert(mid[ii].inode == x);
                assert(contains_id(mid, x));
                match path_parent(rec.location) {
                    None => {
                        assert(contains_id(prev, x));
                    },
                    Some(_) => {
                        assert(prev[ii].inode == x);
                        assert(contains_id(prev, x));
                    },
                }
            } else {
                assert(s[ii] == e);
                assert(pairs[k - 1].0.id == x);
            }
        }
    }
}

/// A record's own id cannot have been released by records before it: a
/// releasing record's parent appears strictly earlier, and ids are unique.
proof fn lemma_count_children_no_early_parent(
    pairs: Seq<(crate::wire::SerInodeModel, InodeModel)>,
    k: int,
)
    requires
        restore_run_wf(pairs),
        0 <= k < pairs.len(),
    ensures
        count_children(pairs.take(k), pairs[k].0.id) == 0,
    decreases k,
{
    if k > 0 {
        assert(pairs.take(k) =~= pairs.take(k - 1).push(pairs[k - 1]));
        lemma_count_children_push(pairs.take(k - 1), pairs[k - 1], pairs[k].0.id);
        if path_parent(pairs[k - 1].0.location) == Some(pairs[k].0.id) {
            let j = choose|j: int|
                0 <= j < k - 1 && (#[trigger] pairs[j].0).id == path_parent(
                    pairs[k - 1].0.location,
                )->0;
            assert(pairs[j].0.id != pairs[k].0.id);
            assert(false);
        }
        lemma_count_children_no_early_parent_aux(pairs, k);
    }
}

/// Helper: the prefix before `k - 1` also releases nothing on `k`'s id.
proof fn lemma_count_children_no_early_parent_aux(
    pairs: Seq<(crate::wire::SerInodeModel, InodeModel)>,
    k: int,
)
    requires
        restore_run_wf(pairs),
        1 <= k < pairs.len(),
    ensures
        count_children(pairs.take(k - 1), pairs[k].0.id) == 0,
    decreases k,
{
    lemma_count_children_zero_below(pairs, k, k - 1);
}

/// No record before position `m <= k` releases a reference on record `k`'s
/// id.
proof fn lemma_count_children_zero_below(
    pairs: Seq<(crate::wire::SerInodeModel, InodeModel)>,
    k: int,
    m: int,
)
    requires
        restore_run_wf(pairs),
        0 <= m <= k < pairs.len(),
    ensures
        count_children(pairs.take(m), pairs[k].0.id) == 0,
    decreases m,
{
    if m == 0 {
        assert(pairs.take(0) =~= Seq::<(crate::wire::SerInodeModel, InodeModel)>::empty());
    } else {
        assert(pairs.take(m) =~= pairs.take(m - 1).push(pairs[m - 1]));
        lemma_count_children_push(pairs.take(m - 1), pairs[m - 1], pairs[k].0.id);
        if path_parent(pairs[m - 1].0.location) == Some(pairs[k].0.id) {
            let j = choose|j: int|
                0 <= j < m - 1 && (#[trigger] pairs[j].0).id == path_parent(
                    pairs[m - 1].0.location,
                )->0;
            assert(pairs[j].0.id != pairs[k].0.id);
            assert(false);
        }
        lemma_count_children_zero_below(pairs, k, m - 1);
    }
}

/// Restore completeness: running a whole well-formed record sequence from
/// an empty store leaves every record's id present, with exactly the
/// record's refcount less the parent references the other records
/// released on it — the guest-visible refcount the source serialized.
pub proof fn lemma_restore_run_complete(pairs: Seq<(crate::wire::SerInodeModel, InodeModel)>)
    requires
        restore_run_wf(pairs),
    ensures
        ({
            let s = restore_run(Seq::<InodeModel>::empty(), pairs);
            forall|j: int|
                0 <= j < pairs.len() ==> contains_id(s, (#[trigger] pairs[j].0).id) && entry_of(
                    s,
                    pairs[j].0.id,
                ).refcount == pairs[j].0.refcount - count_children(pairs, pairs[j].0.id)
        }),
{
    lemma_restore_run_prefix(pairs, pairs.len() as int);
    assert(pairs.take(pairs.len() as int) =~= pairs);
}

/// Whether the table holds a handle with id `id`.
fn contains_handle_probe(t: &crate::handles::HandleTable, id: u64) -> (r: bool)
    requires
        t.inv(),
    ensures
        r == contains_handle(t@, id),
{
    let mut i: usize = 0;
    let n = t.len();
    while i < n
        invariant
            t.inv(),
            n == t@.len(),
            i <= n,
            forall|j: int| 0 <= j < i ==> t@[j].id != id,
        decreases n - i,
    {
        let (hid, _) = t.entry_at(i);
        if hid == id {
            return true;
        }
        i = i + 1;
    }
    false
}

} // verus!
