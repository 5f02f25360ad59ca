//! The byte format of the migration stream: little-endian base-128 varints
//! for integers, length-prefixed byte strings, tag-prefixed sum types.
//! Encoding and decoding are verified against spec-level definitions, and
//! decoding is proved to invert encoding on every value (with any trailing
//! bytes left alone) — the stream a source writes is exactly what a
//! destination reads back.

use vstd::prelude::*;

use crate::wire::{
    NegotiatedOpts, SerFsModel, SerInodeModel, SerLocModel, SerializedFs, SerializedFsV1,
    SerializedHandle, SerializedInode, SerializedLocation,
};
use crate::file_handle::SerializableFileHandle;

verus! {

// ---------------------------------------------------------------------
// Spec-level encoding
// ---------------------------------------------------------------------
/// A `u64` as a little-endian base-128 varint: seven value bits per byte,
/// high bit marking continuation.
pub open spec fn enc_u64(x: u64) -> Seq<u8>
    decreases x,
{
    if x < 128 {
        seq![x as u8]
    } else {
        seq![(x % 128 + 128) as u8] + enc_u64(x / 128)
    }
}

/// A `bool` as one byte.
pub open spec fn enc_bool(b: bool) -> Seq<u8> {
    if b {
        seq![1u8]
    } else {
        seq![0u8]
    }
}

/// A byte string, length-prefixed.
pub open spec fn enc_bytes(b: Seq<u8>) -> Seq<u8> {
    enc_u64(b.len() as u64) + b
}

/// An `i32` through its two's-complement `u32` image.
pub open spec fn enc_i32(x: i32) -> Seq<u8> {
    enc_u64((x as u32) as u64)
}

/// An optional file handle: presence tag, then mount id, type and bytes.
pub open spec fn enc_opt_fh(h: Option<(u64, i32, Seq<u8>)>) -> Seq<u8> {
    match h {
        None => seq![0u8],
        Some((mnt_id, handle_type, bytes)) => seq![1u8] + enc_u64(mnt_id) + enc_i32(handle_type)
            + enc_bytes(bytes),
    }
}

/// An inode location: variant tag, then its fields.
pub open spec fn enc_loc(l: SerLocModel) -> Seq<u8> {
    match l {
        SerLocModel::RootNode => enc_u64(0),
        SerLocModel::Path { parent, filename } => enc_u64(1) + enc_u64(parent) + enc_bytes(
            filename),
        SerLocModel::Invalid => enc_u64(2),
        SerLocModel::FullPath { filename } => enc_u64(3) + enc_bytes(filename),
    }
}

/// A serialized inode record.
pub open spec fn enc_inode(n: SerInodeModel) -> Seq<u8> {
    enc_u64(n.id) + enc_u64(n.refcount) + enc_loc(n.location) + enc_opt_fh(n.file_handle)
}

/// A run of inode records (count carried separately).
pub open spec fn enc_inode_seq(s: Seq<SerInodeModel>) -> Seq<u8>
    decreases s.len(),
{
    if s.len() == 0 {
        Seq::<u8>::empty()
    } else {
        enc_inode(s[0]) + enc_inode_seq(s.drop_first())
    }
}

/// A serialized handle record.
pub open spec fn enc_handle(h: SerializedHandle) -> Seq<u8> {
    enc_u64(h.id) + enc_u64(h.inode) + enc_u64(h.flags as u64)
}

/// A run of handle records (count carried separately).
pub open spec fn enc_handle_seq(s: Seq<SerializedHandle>) -> Seq<u8>
    decreases s.len(),
{
    if s.len() == 0 {
        Seq::<u8>::empty()
    } else {
        enc_handle(s[0]) + enc_handle_seq(s.drop_first())
    }
}

/// The negotiated options.
pub open spec fn enc_opts(o: NegotiatedOpts) -> Seq<u8> {
    enc_bool(o.writeback) + enc_bool(o.announce_submounts) + enc_bool(o.posix_acl) + enc_bool(
        o.sup_group_extension)
}

/// The whole stream: version tag, inodes, next inode id, handles, next
/// handle id, negotiated options.
pub open spec fn enc_state(m: SerFsModel) -> Seq<u8> {
    enc_u64(1) + enc_u64(m.inodes.len() as u64) + enc_inode_seq(m.inodes) + enc_u64(
        m.next_inode) + enc_u64(m.handles.len() as u64) + enc_handle_seq(m.handles) + enc_u64(
        m.next_handle) + enc_opts(m.negotiated_opts)
}

// ---------------------------------------------------------------------
// Spec-level decoding: `Some((value, consumed))` or `None`
// ---------------------------------------------------------------------
/// Decode a varint `u64`.
pub open spec fn dec_u64(s: Seq<u8>) -> Option<(u64, int)>
    decreases s.len(),
{
    if s.len() == 0 {
        None
    } else if s[0] < 128 {
        Some((s[0] as u64, 1))
    } else {
        match dec_u64(s.drop_first()) {
            None => None,
            Some((hi, c)) => {
                let v = (s[0] - 128) + 128 * hi;
                if v <= u64::MAX {
                    Some((v as u64, c + 1))
                } else {
                    None
                }
            },
        }
    }
}

/// Decode a `bool`.
pub open spec fn dec_bool(s: Seq<u8>) -> Option<(bool, int)> {
    if s.len() == 0 {
        None
    } else if s[0] == 0 {
        Some((false, 1))
    } else if s[0] == 1 {
        Some((true, 1))
    } else {
        None
    }
}

/// Decode a length-prefixed byte string.
pub open spec fn dec_bytes(s: Seq<u8>) -> Option<(Seq<u8>, int)> {
    match dec_u64(s) {
        None => None,
        Some((n, c)) => if c + n <= s.len() {
            Some((s.subrange(c, c + n), c + n))
        } else {
            None
        },
    }
}

/// Decode an `i32` through its `u32` image.
pub open spec fn dec_i32(s: Seq<u8>) -> Option<(i32, int)> {
    match dec_u64(s) {
        None => None,
        Some((v, c)) => if v <= u32::MAX as u64 {
            Some((((v as u32) as i32), c))
        } else {
            None
        },
    }
}

/// Decode an optional file handle.
pub open spec fn dec_opt_fh(s: Seq<u8>) -> Option<(Option<(u64, i32, Seq<u8>)>, int)> {
    if s.len() == 0 {
        None
    } else if s[0] == 0 {
        Some((None, 1))
    } else if s[0] == 1 {
        match dec_u64(s.skip(1)) {
            None => None,
            Some((mnt_id, c1)) => match dec_i32(s.skip(1 + c1)) {
                None => None,
                Some((handle_type, c2)) => match dec_bytes(s.skip(1 + c1 + c2)) {
                    None => None,
                    Some((bytes, c3)) => Some(
                        (Some((mnt_id, handle_type, bytes)), 1 + c1 + c2 + c3),
                    ),
                },
            },
        }
    } else {
        None
    }
}

/// Decode an inode location.
pub open spec fn dec_loc(s: Seq<u8>) -> Option<(SerLocModel, int)> {
    match dec_u64(s) {
        None => None,
        Some((tag, c)) => if tag == 0 {
            Some((SerLocModel::RootNode, c))
        } else if tag == 1 {
            match dec_u64(s.skip(c)) {
                None => None,
                Some((parent, c1)) => match dec_bytes(s.skip(c + c1)) {
                    None => None,
                    Some((filename, c2)) => Some(
                        (SerLocModel::Path { parent, filename }, c + c1 + c2),
                    ),
                },
            }
        } else if tag == 2 {
            Some((SerLocModel::Invalid, c))
        } else if tag == 3 {
            match dec_bytes(s.skip(c)) {
                None => None,
                Some((filename, c1)) => Some((SerLocModel::FullPath { filename }, c + c1)),
            }
        } else {
            None
        },
    }
}

/// Decode an inode record.
pub open spec fn dec_inode(s: Seq<u8>) -> Option<(SerInodeModel, int)> {
    match dec_u64(s) {
        None => None,
        Some((id, c1)) => match dec_u64(s.skip(c1)) {
            None => None,
            Some((refcount, c2)) => match dec_loc(s.skip(c1 + c2)) {
                None => None,
                Some((location, c3)) => match dec_opt_fh(s.skip(c1 + c2 + c3)) {
                    None => None,
                    Some((file_handle, c4)) => Some(
                        (
                            SerInodeModel { id, refcount, location, file_handle },
                            c1 + c2 + c3 + c4,
                        ),
                    ),
                },
            },
        },
    }
}

/// Decode `n` inode records.
pub open spec fn dec_inode_seq(s: Seq<u8>, n: nat) -> Option<(Seq<SerInodeModel>, int)>
    decreases n,
{
    if n == 0 {
        Some((Seq::<SerInodeModel>::empty(), 0))
    } else {
        match dec_inode(s) {
            None => None,
            Some((first, c)) => match dec_inode_seq(s.skip(c), (n - 1) as nat) {
                None => None,
                Some((rest, c1)) => Some((seq![first] + rest, c + c1)),
            },
        }
    }
}

/// Decode a handle record.
pub open spec fn dec_handle(s: Seq<u8>) -> Option<(SerializedHandle, int)> {
    match dec_u64(s) {
        None => None,
        Some((id, c1)) => match dec_u64(s.skip(c1)) {
            None => None,
            Some((inode, c2)) => match dec_u64(s.skip(c1 + c2)) {
                None => None,
                Some((flags, c3)) => if flags <= u32::MAX as u64 {
                    Some((SerializedHandle { id, inode, flags: flags as u32 }, c1 + c2 + c3))
                } else {
                    None
                },
            },
        },
    }
}

/// Decode `n` handle records.
pub open spec fn dec_handle_seq(s: Seq<u8>, n: nat) -> Option<(Seq<SerializedHandle>, int)>
    decreases n,
{
    if n == 0 {
        Some((Seq::<SerializedHandle>::empty(), 0))
    } else {
        match dec_handle(s) {
            None => None,
            Some((first, c)) => match dec_handle_seq(s.skip(c), (n - 1) as nat) {
                None => None,
                Some((rest, c1)) => Some((seq![first] + rest, c + c1)),
            },
        }
    }
}

/// Decode the negotiated options.
pub open spec fn dec_opts(s: Seq<u8>) -> Option<(NegotiatedOpts, int)> {
    match dec_bool(s) {
        None => None,
        Some((writeback, c1)) => match dec_bool(s.skip(c1)) {
            None => None,
            Some((announce_submounts, c2)) => match dec_bool(s.skip(c1 + c2)) {
                None => None,
                Some((posix_acl, c3)) => match dec_bool(s.skip(c1 + c2 + c3)) {
                    None => None,
                    Some((sup_group_extension, c4)) => Some(
                        (
                            NegotiatedOpts {
                                writeback,
                                announce_submounts,
                                posix_acl,
                                sup_group_extension,
                            },
                            c1 + c2 + c3 + c4,
                        ),
                    ),
                },
            },
        },
    }
}

/// Decode the whole stream (trailing bytes are left alone).  `None` covers
/// a short stream, a malformed varint, and an unknown version.
pub open spec fn dec_state(s: Seq<u8>) -> Option<(SerFsModel, int)> {
    match dec_u64(s) {
        None => None,
        Some((version, c0)) => if version != 1 {
            None
        } else {
            match dec_u64(s.skip(c0)) {
                None => None,
                Some((n_inodes, c1)) => match dec_inode_seq(s.skip(c0 + c1), n_inodes as nat) {
                    None => None,
                    Some((inodes, c2)) => match dec_u64(s.skip(c0 + c1 + c2)) {
                        None => None,
                        Some((next_inode, c3)) => match dec_u64(s.skip(c0 + c1 + c2 + c3)) {
                            None => None,
                            Some((n_handles, c4)) => match dec_handle_seq(
                                s.skip(c0 + c1 + c2 + c3 + c4),
                                n_handles as nat,
                            ) {
                                None => None,
                                Some((handles, c5)) => match dec_u64(
                                    s.skip(c0 + c1 + c2 + c3 + c4 + c5),
                                ) {
                                    None => None,
                                    Some((next_handle, c6)) => match dec_opts(
                                        s.skip(c0 + c1 + c2 + c3 + c4 + c5 + c6),
                                    ) {
                                        None => None,
                                        Some((negotiated_opts, c7)) => Some(
                                            (
                                                SerFsModel {
                                                    inodes,
                                                    next_inode,
                                                    handles,
                                                    next_handle,
                                                    negotiated_opts,
                                                },
                                                c0 + c1 + c2 + c3 + c4 + c5 + c6 + c7,
                                            ),
                                        ),
                                    },
                                },
                            },
                        },
                    },
                },
            }
        },
    }
}

// ---------------------------------------------------------------------
// Round trip: decoding inverts encoding
// ---------------------------------------------------------------------
/// Machine bound under which a byte string's length prefix is faithful.
pub open spec fn bytes_fit(b: Seq<u8>) -> bool {
    b.len() <= u64::MAX
}

/// Machine bounds for one inode record.
pub open spec fn inode_fits(n: SerInodeModel) -> bool {
    &&& match n.location {
        SerLocModel::Path { filename, .. } => bytes_fit(filename),
        SerLocModel::FullPath { filename } => bytes_fit(filename),
        _ => true,
    }
    &&& match n.file_handle {
        Some((_, _, bytes)) => bytes_fit(bytes),
        None => true,
    }
}

/// Machine bounds for a whole state record.
pub open spec fn state_fits(m: SerFsModel) -> bool {
    &&& m.inodes.len() <= u64::MAX
    &&& m.handles.len() <= u64::MAX
    &&& forall|i: int| 0 <= i < m.inodes.len() ==> inode_fits(#[trigger] m.inodes[i])
}

/// Appending after a sequence, then skipping it, yields the appendix.
proof fn lemma_cat_skip(a: Seq<u8>, t: Seq<u8>)
    ensures
        (a + t).skip(a.len() as int) =~= t,
        (a + t).len() == a.len() + t.len(),
{
}

/// Varint round trip.
pub proof fn lemma_dec_enc_u64(x: u64, rest: Seq<u8>)
    ensures
        dec_u64(enc_u64(x) + rest) == Some((x, enc_u64(x).len() as int)),
    decreases x,
{
    let e = enc_u64(x);
    let s = e + rest;
    if x < 128 {
        assert(s[0] == x as u8);
    } else {
        assert(x % 128 < 128 && x % 128 + 128 < 256);
        assert(s[0] == (x % 128 + 128) as u8);
        assert(s[0] >= 128);
        assert(s.drop_first() =~= enc_u64(x / 128) + rest);
        lemma_dec_enc_u64(x / 128, rest);
        assert(x == 128 * (x / 128) + x % 128) by {
            vstd::arithmetic::div_mod::lemma_fundamental_div_mod(x as int, 128);
        }
        assert((s[0] - 128) + 128 * (x / 128) == x);
        assert(e.len() == 1 + enc_u64(x / 128).len());
    }
}

/// Bool round trip.
pub proof fn lemma_dec_enc_bool(b: bool, rest: Seq<u8>)
    ensures
        dec_bool(enc_bool(b) + rest) == Some((b, 1int)),
{
    assert((enc_bool(b) + rest)[0] == (if b { 1u8 } else { 0u8 }));
}

/// Byte-string round trip.
pub proof fn lemma_dec_enc_bytes(b: Seq<u8>, rest: Seq<u8>)
    requires
        bytes_fit(b),
    ensures
        dec_bytes(enc_bytes(b) + rest) == Some((b, enc_bytes(b).len() as int)),
{
    let pre = enc_u64(b.len() as u64);
    let s = enc_bytes(b) + rest;
    assert(s =~= pre + (b + rest));
    lemma_dec_enc_u64(b.len() as u64, b + rest);
    let c = pre.len() as int;
    assert(dec_u64(s) == Some((b.len() as u64, c)));
    assert(s.len() == c + b.len() + rest.len());
    assert(s.subrange(c, c + b.len() as int) =~= b);
}

/// `i32` round trip, through the two's-complement `u32` image.
pub proof fn lemma_dec_enc_i32(x: i32, rest: Seq<u8>)
    ensures
        dec_i32(enc_i32(x) + rest) == Some((x, enc_i32(x).len() as int)),
{
    lemma_dec_enc_u64((x as u32) as u64, rest);
    assert(((x as u32) as u64) <= u32::MAX as u64);
    assert((((x as u32) as u64) as u32) as i32 == x) by (bit_vector);
}

/// Optional-file-handle round trip.
pub proof fn lemma_dec_enc_opt_fh(h: Option<(u64, i32, Seq<u8>)>, rest: Seq<u8>)
    requires
        match h {
            Some((_, _, bytes)) => bytes_fit(bytes),
            None => true,
        },
    ensures
        dec_opt_fh(enc_opt_fh(h) + rest) == Some((h, enc_opt_fh(h).len() as int)),
{
    let s = enc_opt_fh(h) + rest;
    match h {
        None => {
            assert(s[0] == 0);
        },
        Some((mnt_id, handle_type, bytes)) => {
            let t1 = enc_u64(mnt_id);
            let t2 = enc_i32(handle_type);
            let t3 = enc_bytes(bytes);
            assert(s =~= seq![1u8] + (t1 + (t2 + (t3 + rest))));
            assert(s[0] == 1);
            assert(s.skip(1) =~= t1 + (t2 + (t3 + rest)));
            lemma_dec_enc_u64(mnt_id, t2 + (t3 + rest));
            let c1 = t1.len() as int;
            assert(s.skip(1).skip(c1) =~= t2 + (t3 + rest)) by {
                lemma_cat_skip(t1, t2 + (t3 + rest));
            }
            assert(s.skip(1 + c1) =~= s.skip(1).skip(c1));
            lemma_dec_enc_i32(handle_type, t3 + rest);
            let c2 = t2.len() as int;
            assert(s.skip(1 + c1 + c2) =~= t3 + rest) by {
                lemma_cat_skip(t2, t3 + rest);
                assert(s.skip(1 + c1 + c2) =~= (t2 + (t3 + rest)).skip(c2));
            }
            lemma_dec_enc_bytes(bytes, rest);
            assert(enc_opt_fh(h).len() == 1 + c1 + c2 + t3.len());
        },
    }
}

/// Location round trip.
pub proof fn lemma_dec_enc_loc(l: SerLocModel, rest: Seq<u8>)
    requires
        match l {
            SerLocModel::Path { filename, .. } => bytes_fit(filename),
            SerLocModel::FullPath { filename } => bytes_fit(filename),
            _ => true,
        },
    ensures
        dec_loc(enc_loc(l) + rest) == Some((l, enc_loc(l).len() as int)),
{
    let s = enc_loc(l) + rest;
    match l {
        SerLocModel::RootNode => {
            lemma_dec_enc_u64(0, rest);
        },
        SerLocModel::Invalid => {
            lemma_dec_enc_u64(2, rest);
        },
        SerLocModel::Path { parent, filename } => {
            let t0 = enc_u64(1);
            let t1 = enc_u64(parent);
            let t2 = enc_bytes(filename);
            assert(s =~= t0 + (t1 + (t2 + rest)));
            lemma_dec_enc_u64(1, t1 + (t2 + rest));
            let c0 = t0.len() as int;
            assert(s.skip(c0) =~= t1 + (t2 + rest)) by {
                lemma_cat_skip(t0, t1 + (t2 + rest));
            }
            lemma_dec_enc_u64(parent, t2 + rest);
            let c1 = t1.len() as int;
            assert(s.skip(c0 + c1) =~= t2 + rest) by {
                lemma_cat_skip(t1, t2 + rest);
                assert(s.skip(c0 + c1) =~= (t1 + (t2 + rest)).skip(c1));
            }
            lemma_dec_enc_bytes(filename, rest);
            assert(enc_loc(l).len() == c0 + c1 + t2.len());
        },
        SerLocModel::FullPath { filename } => {
            let t0 = enc_u64(3);
            let t1 = enc_bytes(filename);
            assert(s =~= t0 + (t1 + rest));
            lemma_dec_enc_u64(3, t1 + rest);
            let c0 = t0.len() as int;
            assert(s.skip(c0) =~= t1 + rest) by {
                lemma_cat_skip(t0, t1 + rest);
            }
            lemma_dec_enc_bytes(filename, rest);
            assert(enc_loc(l).len() == c0 + t1.len());
        },
    }
}

/// Inode-record round trip.
pub proof fn lemma_dec_enc_inode(n: SerInodeModel, rest: Seq<u8>)
    requires
        inode_fits(n),
    ensures
        dec_inode(enc_inode(n) + rest) == Some((n, enc_inode(n).len() as int)),
{
    let s = enc_inode(n) + rest;
    let t1 = enc_u64(n.id);
    let t2 = enc_u64(n.refcount);
    let t3 = enc_loc(n.location);
    let t4 = enc_opt_fh(n.file_handle);
    assert(s =~= t1 + (t2 + (t3 + (t4 + rest))));
    lemma_dec_enc_u64(n.id, t2 + (t3 + (t4 + rest)));
    let c1 = t1.len() as int;
    assert(s.skip(c1) =~= t2 + (t3 + (t4 + rest))) by {
        lemma_cat_skip(t1, t2 + (t3 + (t4 + rest)));
    }
    lemma_dec_enc_u64(n.refcount, t3 + (t4 + rest));
    let c2 = t2.len() as int;
    assert(s.skip(c1 + c2) =~= t3 + (t4 + rest)) by {
        lemma_cat_skip(t2, t3 + (t4 + rest));
        assert(s.skip(c1 + c2) =~= (t2 + (t3 + (t4 + rest))).skip(c2));
    }
    lemma_dec_enc_loc(n.location, t4 + rest);
    let c3 = t3.len() as int;
    assert(s.skip(c1 + c2 + c3) =~= t4 + rest) by {
        lemma_cat_skip(t3, t4 + rest);
        assert(s.skip(c1 + c2 + c3) =~= (t3 + (t4 + rest)).skip(c3));
    }
    lemma_dec_enc_opt_fh(n.file_handle, rest);
    assert(enc_inode(n).len() == c1 + c2 + c3 + t4.len());
}

/// Round trip for a run of inode records.
pub proof fn lemma_dec_enc_inode_seq(s: Seq<SerInodeModel>, rest: Seq<u8>)
    requires
        forall|i: int| 0 <= i < s.len() ==> inode_fits(#[trigger] s[i]),
    ensures
        dec_inode_seq(enc_inode_seq(s) + rest, s.len()) == Some(
            (s, enc_inode_seq(s).len() as int),
        ),
    decreases s.len(),
{
    if s.len() == 0 {
        assert(s =~= Seq::<SerInodeModel>::empty());
    } else {
        let b = enc_inode_seq(s) + rest;
        let t1 = enc_inode(s[0]);
        let t2 = enc_inode_seq(s.drop_first());
        assert(b =~= t1 + (t2 + rest));
        lemma_dec_enc_inode(s[0], t2 + rest);
        let c = t1.len() as int;
        assert(b.skip(c) =~= t2 + rest) by {
            lemma_cat_skip(t1, t2 + rest);
        }
        lemma_dec_enc_inode_seq(s.drop_first(), rest);
        assert(seq![s[0]] + s.drop_first() =~= s);
        assert(enc_inode_seq(s).len() == c + t2.len());
    }
}

/// Handle-record round trip.
pub proof fn lemma_dec_enc_handle(h: SerializedHandle, rest: Seq<u8>)
    ensures
        dec_handle(enc_handle(h) + rest) == Some((h, enc_handle(h).len() as int)),
{
    let s = enc_handle(h) + rest;
    let t1 = enc_u64(h.id);
    let t2 = enc_u64(h.inode);
    let t3 = enc_u64(h.flags as u64);
    assert(s =~= t1 + (t2 + (t3 + rest)));
    lemma_dec_enc_u64(h.id, t2 + (t3 + rest));
    let c1 = t1.len() as int;
    assert(s.skip(c1) =~= t2 + (t3 + rest)) by {
        lemma_cat_skip(t1, t2 + (t3 + rest));
    }
    lemma_dec_enc_u64(h.inode, t3 + rest);
    let c2 = t2.len() as int;
    assert(s.skip(c1 + c2) =~= t3 + rest) by {
        lemma_cat_skip(t2, t3 + rest);
        assert(s.skip(c1 + c2) =~= (t2 + (t3 + rest)).skip(c2));
    }
    lemma_dec_enc_u64(h.flags as u64, rest);
    assert((h.flags as u64) <= u32::MAX as u64);
    assert(((h.flags as u64) as u32) == h.flags);
    assert(enc_handle(h).len() == c1 + c2 + t3.len());
}

/// Round trip for a run of handle records.
pub proof fn lemma_dec_enc_handle_seq(s: Seq<SerializedHandle>, rest: Seq<u8>)
    ensures
        dec_handle_seq(enc_handle_seq(s) + rest, s.len()) == Some(
            (s, enc_handle_seq(s).len() as int),
        ),
    decreases s.len(),
{
    if s.len() == 0 {
        assert(s =~= Seq::<SerializedHandle>::empty());
    } else {
        let b = enc_handle_seq(s) + rest;
        let t1 = enc_handle(s[0]);
        let t2 = enc_handle_seq(s.drop_first());
        assert(b =~= t1 + (t2 + rest));
        lemma_dec_enc_handle(s[0], t2 + rest);
        let c = t1.len() as int;
        assert(b.skip(c) =~= t2 + rest) by {
            lemma_cat_skip(t1, t2 + rest);
        }
        lemma_dec_enc_handle_seq(s.drop_first(), rest);
        assert(seq![s[0]] + s.drop_first() =~= s);
        assert(enc_handle_seq(s).len() == c + t2.len());
    }
}

/// Negotiated-options round trip.
pub proof fn lemma_dec_enc_opts(o: NegotiatedOpts, rest: Seq<u8>)
    ensures
        dec_opts(enc_opts(o) + rest) == Some((o, 4int)),
{
    let s = enc_opts(o) + rest;
    let t1 = enc_bool(o.writeback);
    let t2 = enc_bool(o.announce_submounts);
    let t3 = enc_bool(o.posix_acl);
    let t4 = enc_bool(o.sup_group_extension);
    assert(s =~= t1 + (t2 + (t3 + (t4 + rest))));
    lemma_dec_enc_bool(o.writeback, t2 + (t3 + (t4 + rest)));
    assert(s.skip(1) =~= t2 + (t3 + (t4 + rest))) by {
        lemma_cat_skip(t1, t2 + (t3 + (t4 + rest)));
    }
    lemma_dec_enc_bool(o.announce_submounts, t3 + (t4 + rest));
    assert(s.skip(2) =~= t3 + (t4 + rest)) by {
        lemma_cat_skip(t2, t3 + (t4 + rest));
        assert(s.skip(2) =~= (t2 + (t3 + (t4 + rest))).skip(1));
    }
    lemma_dec_enc_bool(o.posix_acl, t4 + rest);
    assert(s.skip(3) =~= t4 + rest) by {
        lemma_cat_skip(t3, t4 + rest);
        assert(s.skip(3) =~= (t3 + (t4 + rest)).skip(1));
    }
    lemma_dec_enc_bool(o.sup_group_extension, rest);
}

/// The stream round trip: the whole state is read back exactly, with any
/// trailing bytes untouched.
#[verifier::rlimit(100)]
#[verifier::spinoff_prover]
pub proof fn lemma_dec_enc_state(m: SerFsModel, rest: Seq<u8>)
    requires
        state_fits(m),
    ensures
        dec_state(enc_state(m) + rest) == Some((m, enc_state(m).len() as int)),
{
    let s = enc_state(m) + rest;
    let t0 = enc_u64(1);
    let t1 = enc_u64(m.inodes.len() as u64);
    let t2 = enc_inode_seq(m.inodes);
    let t3 = enc_u64(m.next_inode);
    let t4 = enc_u64(m.handles.len() as u64);
    let t5 = enc_handle_seq(m.handles);
    let t6 = enc_u64(m.next_handle);
    let t7 = enc_opts(m.negotiated_opts);
    assert(s =~= t0 + (t1 + (t2 + (t3 + (t4 + (t5 + (t6 + (t7 + rest))))))));
    lemma_dec_enc_u64(1, t1 + (t2 + (t3 + (t4 + (t5 + (t6 + (t7 + rest)))))));
    let c0 = t0.len() as int;
    assert(s.skip(c0) =~= t1 + (t2 + (t3 + (t4 + (t5 + (t6 + (t7 + rest))))))) by {
        lemma_cat_skip(t0, t1 + (t2 + (t3 + (t4 + (t5 + (t6 + (t7 + rest)))))));
    }
    lemma_dec_enc_u64(m.inodes.len() as u64, t2 + (t3 + (t4 + (t5 + (t6 + (t7 + rest))))));
    let c1 = t1.len() as int;
    assert(s.skip(c0 + c1) =~= t2 + (t3 + (t4 + (t5 + (t6 + (t7 + rest)))))) by {
        lemma_cat_skip(t1, t2 + (t3 + (t4 + (t5 + (t6 + (t7 + rest))))));
        assert(s.skip(c0 + c1) =~= (t1 + (t2 + (t3 + (t4 + (t5 + (t6 + (t7 + rest))))))).skip(
            c1));
    }
    lemma_dec_enc_inode_seq(m.inodes, t3 + (t4 + (t5 + (t6 + (t7 + rest)))));
    let c2 = t2.len() as int;
    assert(s.skip(c0 + c1 + c2) =~= t3 + (t4 + (t5 + (t6 + (t7 + rest))))) by {
        lemma_cat_skip(t2, t3 + (t4 + (t5 + (t6 + (t7 + rest)))));
        assert(s.skip(c0 + c1 + c2) =~= (t2 + (t3 + (t4 + (t5 + (t6 + (t7 + rest)))))).skip(
            c2));
    }
    lemma_dec_enc_u64(m.next_inode, t4 + (t5 + (t6 + (t7 + rest))));
    let c3 = t3.len() as int;
    assert(s.skip(c0 + c1 + c2 + c3) =~= t4 + (t5 + (t6 + (t7 + rest)))) by {
        lemma_cat_skip(t3, t4 + (t5 + (t6 + (t7 + rest))));
        assert(s.skip(c0 + c1 + c2 + c3) =~= (t3 + (t4 + (t5 + (t6 + (t7 + rest))))).skip(c3));
    }
    lemma_dec_enc_u64(m.handles.len() as u64, t5 + (t6 + (t7 + rest)));
    let c4 = t4.len() as int;
    assert(s.skip(c0 + c1 + c2 + c3 + c4) =~= t5 + (t6 + (t7 + rest))) by {
        lemma_cat_skip(t4, t5 + (t6 + (t7 + rest)));
        assert(s.skip(c0 + c1 + c2 + c3 + c4) =~= (t4 + (t5 + (t6 + (t7 + rest)))).skip(c4));
    }
    lemma_dec_enc_handle_seq(m.handles, t6 + (t7 + rest));
    let c5 = t5.len() as int;
    assert(s.skip(c0 + c1 + c2 + c3 + c4 + c5) =~= t6 + (t7 + rest)) by {
        lemma_cat_skip(t5, t6 + (t7 + rest));
        assert(s.skip(c0 + c1 + c2 + c3 + c4 + c5) =~= (t5 + (t6 + (t7 + rest))).skip(c5));
    }
    lemma_dec_enc_u64(m.next_handle, t7 + rest);
    let c6 = t6.len() as int;
    assert(s.skip(c0 + c1 + c2 + c3 + c4 + c5 + c6) =~= t7 + rest) by {
        lemma_cat_skip(t6, t7 + rest);
        assert(s.skip(c0 + c1 + c2 + c3 + c4 + c5 + c6) =~= (t6 + (t7 + rest)).skip(c6));
    }
    lemma_dec_enc_opts(m.negotiated_opts, rest);
    assert(enc_state(m).len() == c0 + c1 + c2 + c3 + c4 + c5 + c6 + t7.len());
}

// ---------------------------------------------------------------------
// Executable encoding
// ---------------------------------------------------------------------
/// Append a varint `u64`.
pub fn encode_u64(out: &mut Vec<u8>, x: u64)
    ensures
        final(out)@ == old(out)@ + enc_u64(x),
{
    let ghost orig = out@;
    let ghost x0 = x;
    let mut x = x;
    while x >= 128
        invariant
            orig + enc_u64(x0) == out@ + enc_u64(x),
        decreases x,
    {
        let b = (x % 128 + 128) as u8;
        let ghost pre = out@;
        let ghost xpre = x;
        out.push(b);
        x = x / 128;
        proof {
            assert(enc_u64(xpre) == seq![b] + enc_u64(x));
            assert(pre + (seq![b] + enc_u64(x)) =~= (pre + seq![b]) + enc_u64(x));
        }
    }
    let ghost pre = out@;
    out.push(x as u8);
    proof {
        assert(enc_u64(x) == seq![x as u8]);
        assert(pre + seq![x as u8] =~= out@);
    }
}

/// Append a `bool`.
pub fn encode_bool(out: &mut Vec<u8>, b: bool)
    ensures
        final(out)@ == old(out)@ + enc_bool(b),
{
    let ghost pre = out@;
    if b {
        out.push(1);
    } else {
        out.push(0);
    }
    proof {
        assert(out@ =~= pre + enc_bool(b));
    }
}

/// Append a length-prefixed byte string.
pub fn encode_bytes(out: &mut Vec<u8>, b: &Vec<u8>)
    ensures
        final(out)@ == old(out)@ + enc_bytes(b@),
{
    let ghost orig = out@;
    encode_u64(out, b.len() as u64);
    let ghost mid = out@;
    let mut i: usize = 0;
    while i < b.len()
        invariant
            i <= b@.len(),
            out@ == mid + b@.subrange(0, i as int),
        decreases b.len() - i,
    {
        out.push(b[i]);
        i = i + 1;
        proof {
            assert(out@ =~= mid + b@.subrange(0, i as int));
        }
    }
    proof {
        assert(b@.subrange(0, b@.len() as int) =~= b@);
        assert(out@ =~= orig + enc_bytes(b@));
    }
}

/// Append an `i32`.
pub fn encode_i32(out: &mut Vec<u8>, x: i32)
    ensures
        final(out)@ == old(out)@ + enc_i32(x),
{
    encode_u64(out, (x as u32) as u64);
}

/// The mathematical value of an optional serializable handle.
pub open spec fn opt_fh_view(h: Option<SerializableFileHandle>) -> Option<(u64, i32, Seq<u8>)> {
    match h {
        Some(fh) => Some((fh.mnt_id, fh.handle_type, fh.handle@)),
        None => None,
    }
}

/// Append an optional file handle.
pub fn encode_opt_fh(out: &mut Vec<u8>, h: &Option<SerializableFileHandle>)
    ensures
        final(out)@ == old(out)@ + enc_opt_fh(opt_fh_view(*h)),
{
    let ghost orig = out@;
    match h {
        None => {
            out.push(0);
            proof {
                assert(out@ =~= orig + enc_opt_fh(opt_fh_view(*h)));
            }
        },
        Some(fh) => {
            out.push(1);
            encode_u64(out, fh.mnt_id);
            encode_i32(out, fh.handle_type);
            encode_bytes(out, &fh.handle);
            proof {
                assert(out@ =~= orig + enc_opt_fh(opt_fh_view(*h)));
            }
        },
    }
}

/// Append an inode location.
pub fn encode_loc(out: &mut Vec<u8>, l: &SerializedLocation)
    ensures
        final(out)@ == old(out)@ + enc_loc(l@),
{
    let ghost orig = out@;
    match l {
        SerializedLocation::RootNode => {
            encode_u64(out, 0);
        },
        SerializedLocation::Path { parent, filename } => {
            encode_u64(out, 1);
            encode_u64(out, *parent);
            encode_bytes(out, filename);
            proof {
                assert(out@ =~= orig + enc_loc(l@));
            }
        },
        SerializedLocation::Invalid => {
            encode_u64(out, 2);
        },
        SerializedLocation::FullPath { filename } => {
            encode_u64(out, 3);
            encode_bytes(out, filename);
            proof {
                assert(out@ =~= orig + enc_loc(l@));
            }
        },
    }
}

/// Append an inode record.
pub fn encode_inode(out: &mut Vec<u8>, n: &SerializedInode)
    ensures
        final(out)@ == old(out)@ + enc_inode(n@),
{
    let ghost orig = out@;
    encode_u64(out, n.id);
    encode_u64(out, n.refcount);
    encode_loc(out, &n.location);
    encode_opt_fh(out, &n.file_handle);
    proof {
        assert(opt_fh_view(n.file_handle) == n@.file_handle);
        assert(out@ =~= orig + enc_inode(n@));
    }
}

/// Append a handle record.
pub fn encode_handle(out: &mut Vec<u8>, h: &SerializedHandle)
    ensures
        final(out)@ == old(out)@ + enc_handle(*h),
{
    let ghost orig = out@;
    encode_u64(out, h.id);
    encode_u64(out, h.inode);
    encode_u64(out, h.flags as u64);
    proof {
        assert(out@ =~= orig + enc_handle(*h));
    }
}

/// Append the negotiated options.
pub fn encode_opts(out: &mut Vec<u8>, o: &NegotiatedOpts)
    ensures
        final(out)@ == old(out)@ + enc_opts(*o),
{
    let ghost orig = out@;
    encode_bool(out, o.writeback);
    encode_bool(out, o.announce_submounts);
    encode_bool(out, o.posix_acl);
    encode_bool(out, o.sup_group_extension);
    proof {
        assert(out@ =~= orig + enc_opts(*o));
    }
}

/// Appending one more record extends the run's encoding.
proof fn lemma_enc_inode_seq_push(s: Seq<SerInodeModel>, e: SerInodeModel)
    ensures
        enc_inode_seq(s.push(e)) == enc_inode_seq(s) + enc_inode(e),
    decreases s.len(),
{
    if s.len() == 0 {
        assert(s.push(e)[0] == e);
        assert(s.push(e).drop_first() =~= Seq::<SerInodeModel>::empty());
        assert(enc_inode_seq(Seq::<SerInodeModel>::empty()) == Seq::<u8>::empty());
        assert(enc_inode_seq(s.push(e)) == enc_inode(e) + Seq::<u8>::empty());
        assert(enc_inode_seq(s) == Seq::<u8>::empty());
        assert(enc_inode_seq(s.push(e)) =~= enc_inode_seq(s) + enc_inode(e));
    } else {
        assert(s.push(e)[0] == s[0]);
        assert(s.push(e).drop_first() =~= s.drop_first().push(e));
        lemma_enc_inode_seq_push(s.drop_first(), e);
        assert(enc_inode(s[0]) + (enc_inode_seq(s.drop_first()) + enc_inode(e)) =~= (enc_inode(
            s[0]) + enc_inode_seq(s.drop_first())) + enc_inode(e));
    }
}

/// Appending one more record extends the run's encoding.
proof fn lemma_enc_handle_seq_push(s: Seq<SerializedHandle>, e: SerializedHandle)
    ensures
        enc_handle_seq(s.push(e)) == enc_handle_seq(s) + enc_handle(e),
    decreases s.len(),
{
    if s.len() == 0 {
        assert(s.push(e)[0] == e);
        assert(s.push(e).drop_first() =~= Seq::<SerializedHandle>::empty());
        assert(enc_handle_seq(Seq::<SerializedHandle>::empty()) == Seq::<u8>::empty());
        assert(enc_handle_seq(s.push(e)) == enc_handle(e) + Seq::<u8>::empty());
        assert(enc_handle_seq(s) == Seq::<u8>::empty());
        assert(enc_handle_seq(s.push(e)) =~= enc_handle_seq(s) + enc_handle(e));
    } else {
        assert(s.push(e)[0] == s[0]);
        assert(s.push(e).drop_first() =~= s.drop_first().push(e));
        lemma_enc_handle_seq_push(s.drop_first(), e);
        assert(enc_handle(s[0]) + (enc_handle_seq(s.drop_first()) + enc_handle(e)) =~= (
        enc_handle(s[0]) + enc_handle_seq(s.drop_first())) + enc_handle(e));
    }
}

/// Encode the whole state into a fresh byte vector.
pub fn encode_fs(fs: &SerializedFs) -> (r: Vec<u8>)
    ensures
        r@ == enc_state(fs@),
{
    let SerializedFs::V1(v1) = fs;
    let mut out: Vec<u8> = Vec::new();
    proof {
        assert(out@ =~= Seq::<u8>::empty());
    }
    encode_u64(&mut out, 1);
    encode_u64(&mut out, v1.inodes.len() as u64);
    let ghost models = v1.inodes@.map_values(|n: SerializedInode| n@);
    let ghost base = out@;
    let mut i: usize = 0;
    while i < v1.inodes.len()
        invariant
            i <= v1.inodes@.len(),
            models == v1.inodes@.map_values(|n: SerializedInode| n@),
            models.len() == v1.inodes@.len(),
            out@ == base + enc_inode_seq(models.take(i as int)),
        decreases v1.inodes.len() - i,
    {
        encode_inode(&mut out, &v1.inodes[i]);
        i = i + 1;
        proof {
            assert(models.take(i as int) =~= models.take(i - 1).push(models[i - 1]));
            lemma_enc_inode_seq_push(models.take(i - 1), models[i - 1]);
        }
    }
    proof {
        assert(models.take(models.len() as int) =~= models);
    }
    encode_u64(&mut out, v1.next_inode);
    encode_u64(&mut out, v1.handles.len() as u64);
    let ghost hbase = out@;
    let mut k: usize = 0;
    while k < v1.handles.len()
        invariant
            k <= v1.handles@.len(),
            out@ == hbase + enc_handle_seq(v1.handles@.take(k as int)),
        decreases v1.handles.len() - k,
    {
        encode_handle(&mut out, &v1.handles[k]);
        k = k + 1;
        proof {
            assert(v1.handles@.take(k as int) =~= v1.handles@.take(k - 1).push(
                v1.handles@[k - 1]));
            lemma_enc_handle_seq_push(v1.handles@.take(k - 1), v1.handles@[k - 1]);
        }
    }
    proof {
        assert(v1.handles@.take(v1.handles@.len() as int) =~= v1.handles@);
    }
    encode_u64(&mut out, v1.next_handle);
    encode_opts(&mut out, &v1.negotiated_opts);
    proof {
        assert(out@ =~= enc_state(fs@));
    }
    out
}

// ---------------------------------------------------------------------
// Executable decoding
// ---------------------------------------------------------------------
/// Decode a varint `u64` at `pos`.
pub fn decode_u64(buf: &Vec<u8>, pos: usize) -> (r: Option<(u64, usize)>)
    requires
        pos <= buf@.len(),
    ensures
        match r {
            Some((v, newpos)) => pos <= newpos <= buf@.len() && dec_u64(buf@.skip(pos as int))
                == Some((v, newpos - pos as int)),
            None => dec_u64(buf@.skip(pos as int)) is None,
        },
    decreases buf@.len() - pos,
{
    let ghost s = buf@.skip(pos as int);
    if pos >= buf.len() {
        return None;
    }
    let b = buf[pos];
    proof {
        assert(s[0] == b);
    }
    if b < 128 {
        Some((b as u64, pos + 1))
    } else {
        proof {
            assert(s.drop_first() =~= buf@.skip(pos + 1 as int));
        }
        match decode_u64(buf, pos + 1) {
            None => None,
            Some((hi, np)) => {
                let low = (b - 128) as u64;
                if hi < 0x0200_0000_0000_0000u64 {
                    proof {
                        assert(low < 128);
                        assert(low + 128 * (hi as int) <= u64::MAX);
                    }
                    Some((low + 128 * hi, np))
                } else {
                    proof {
                        assert(low < 128);
                        assert(!(low + 128 * (hi as int) <= u64::MAX));
                    }
                    None
                }
            },
        }
    }
}

/// Decode a `bool` at `pos`.
pub fn decode_bool(buf: &Vec<u8>, pos: usize) -> (r: Option<(bool, usize)>)
    requires
        pos <= buf@.len(),
    ensures
        match r {
            Some((v, newpos)) => pos <= newpos <= buf@.len() && dec_bool(buf@.skip(pos as int))
                == Some((v, newpos - pos as int)),
            None => dec_bool(buf@.skip(pos as int)) is None,
        },
{
    if pos >= buf.len() {
        return None;
    }
    let b = buf[pos];
    proof {
        assert(buf@.skip(pos as int)[0] == b);
    }
    if b == 0 {
        Some((false, pos + 1))
    } else if b == 1 {
        Some((true, pos + 1))
    } else {
        None
    }
}

/// Decode a length-prefixed byte string at `pos`.
pub fn decode_bytes(buf: &Vec<u8>, pos: usize) -> (r: Option<(Vec<u8>, usize)>)
    requires
        pos <= buf@.len(),
    ensures
        match r {
            Some((v, newpos)) => pos <= newpos <= buf@.len() && dec_bytes(buf@.skip(pos as int))
                == Some((v@, newpos - pos as int)),
            None => dec_bytes(buf@.skip(pos as int)) is None,
        },
{
    let ghost s = buf@.skip(pos as int);
    match decode_u64(buf, pos) {
        None => None,
        Some((n, p1)) => {
            if n > (buf.len() - p1) as u64 {
                proof {
                    assert((p1 - pos as int) + n > s.len());
                }
                return None;
            }
            let nn = n as usize;
            let blen = buf.len();
            let mut v: Vec<u8> = Vec::new();
            let mut i: usize = 0;
            while i < nn
                invariant
                    i <= nn,
                    p1 + nn <= blen,
                    blen == buf@.len(),
                    v@ == buf@.subrange(p1 as int, p1 + i as int),
                decreases nn - i,
            {
                v.push(buf[p1 + i]);
                i = i + 1;
                proof {
                    assert(v@ =~= buf@.subrange(p1 as int, p1 + i as int));
                }
            }
            proof {
                let c = p1 - pos as int;
                assert(c + n <= s.len());
                assert(v@ =~= s.subrange(c, c + n));
            }
            Some((v, p1 + nn))
        },
    }
}

/// Decode an `i32` at `pos`.
pub fn decode_i32(buf: &Vec<u8>, pos: usize) -> (r: Option<(i32, usize)>)
    requires
        pos <= buf@.len(),
    ensures
        match r {
            Some((v, newpos)) => pos <= newpos <= buf@.len() && dec_i32(buf@.skip(pos as int))
                == Some((v, newpos - pos as int)),
            None => dec_i32(buf@.skip(pos as int)) is None,
        },
{
    match decode_u64(buf, pos) {
        None => None,
        Some((v, np)) => {
            if v <= u32::MAX as u64 {
                Some(((v as u32) as i32, np))
            } else {
                None
            }
        },
    }
}

/// Decode an optional file handle at `pos`.
pub fn decode_opt_fh(buf: &Vec<u8>, pos: usize) -> (r: Option<(
    Option<SerializableFileHandle>, usize)>)
    requires
        pos <= buf@.len(),
    ensures
        match r {
            Some((v, newpos)) => pos <= newpos <= buf@.len() && dec_opt_fh(
                buf@.skip(pos as int)) == Some((opt_fh_view(v), newpos - pos as int)),
            None => dec_opt_fh(buf@.skip(pos as int)) is None,
        },
{
    let ghost s = buf@.skip(pos as int);
    if pos >= buf.len() {
        return None;
    }
    let tag = buf[pos];
    proof {
        assert(s[0] == tag);
    }
    if tag == 0 {
        Some((None, pos + 1))
    } else if tag == 1 {
        proof {
            assert(s.skip(1) =~= buf@.skip(pos + 1 as int));
        }
        match decode_u64(buf, pos + 1) {
            None => None,
            Some((mnt_id, p1)) => {
                proof {
                    assert(s.skip(1 + (p1 - (pos + 1) as int)) =~= buf@.skip(p1 as int));
                }
                match decode_i32(buf, p1) {
                    None => None,
                    Some((handle_type, p2)) => {
                        proof {
                            assert(s.skip(
                                1 + (p1 - (pos + 1) as int) + (p2 - p1 as int)) =~= buf@.skip(
                                p2 as int));
                        }
                        match decode_bytes(buf, p2) {
                            None => None,
                            Some((bytes, p3)) => Some(
                                (
                                    Some(
                                        SerializableFileHandle { mnt_id, handle_type, handle: bytes },
                                    ),
                                    p3,
                                ),
                            ),
                        }
                    },
                }
            },
        }
    } else {
        None
    }
}

/// Decode an inode location at `pos`.
pub fn decode_loc(buf: &Vec<u8>, pos: usize) -> (r: Option<(SerializedLocation, usize)>)
    requires
        pos <= buf@.len(),
    ensures
        match r {
            Some((v, newpos)) => pos <= newpos <= buf@.len() && dec_loc(buf@.skip(pos as int))
                == Some((v@, newpos - pos as int)),
            None => dec_loc(buf@.skip(pos as int)) is None,
        },
{
    let ghost s = buf@.skip(pos as int);
    match decode_u64(buf, pos) {
        None => None,
        Some((tag, p0)) => {
            proof {
                assert(s.skip(p0 - pos as int) =~= buf@.skip(p0 as int));
            }
            if tag == 0 {
                Some((SerializedLocation::RootNode, p0))
            } else if tag == 1 {
                match decode_u64(buf, p0) {
                    None => None,
                    Some((parent, p1)) => {
                        proof {
                            assert(s.skip((p0 - pos as int) + (p1 - p0 as int)) =~= buf@.skip(
                                p1 as int));
                        }
                        match decode_bytes(buf, p1) {
                            None => None,
                            Some((filename, p2)) => Some(
                                (SerializedLocation::Path { parent, filename }, p2),
                            ),
                        }
                    },
                }
            } else if tag == 2 {
                Some((SerializedLocation::Invalid, p0))
            } else if tag == 3 {
                match decode_bytes(buf, p0) {
                    None => None,
                    Some((filename, p1)) => Some(
                        (SerializedLocation::FullPath { filename }, p1),
                    ),
                }
            } else {
                None
            }
        },
    }
}

/// Decode an inode record at `pos`.
pub fn decode_inode(buf: &Vec<u8>, pos: usize) -> (r: Option<(SerializedInode, usize)>)
    requires
        pos <= buf@.len(),
    ensures
        match r {
            Some((v, newpos)) => pos <= newpos <= buf@.len() && dec_inode(buf@.skip(pos as int))
                == Some((v@, newpos - pos as int)),
            None => dec_inode(buf@.skip(pos as int)) is None,
        },
{
    let ghost s = buf@.skip(pos as int);
    match decode_u64(buf, pos) {
        None => None,
        Some((id, p1)) => {
            proof {
                assert(s.skip(p1 - pos as int) =~= buf@.skip(p1 as int));
            }
            match decode_u64(buf, p1) {
                None => None,
                Some((refcount, p2)) => {
                    proof {
                        assert(s.skip((p1 - pos as int) + (p2 - p1 as int)) =~= buf@.skip(
                            p2 as int));
                    }
                    match decode_loc(buf, p2) {
                        None => None,
                        Some((location, p3)) => {
                            proof {
                                assert(s.skip(
                                    (p1 - pos as int) + (p2 - p1 as int) + (p3 - p2 as int))
                                    =~= buf@.skip(p3 as int));
                            }
                            match decode_opt_fh(buf, p3) {
                                None => None,
                                Some((file_handle, p4)) => Some(
                                    (SerializedInode { id, refcount, location, file_handle }, p4),
                                ),
                            }
                        },
                    }
                },
            }
        },
    }
}

/// Decode a handle record at `pos`.
pub fn decode_handle(buf: &Vec<u8>, pos: usize) -> (r: Option<(SerializedHandle, usize)>)
    requires
        pos <= buf@.len(),
    ensures
        match r {
            Some((v, newpos)) => pos <= newpos <= buf@.len() && dec_handle(
                buf@.skip(pos as int)) == Some((v, newpos - pos as int)),
            None => dec_handle(buf@.skip(pos as int)) is None,
        },
{
    let ghost s = buf@.skip(pos as int);
    match decode_u64(buf, pos) {
        None => None,
        Some((id, p1)) => {
            proof {
                assert(s.skip(p1 - pos as int) =~= buf@.skip(p1 as int));
            }
            match decode_u64(buf, p1) {
                None => None,
                Some((inode, p2)) => {
                    proof {
                        assert(s.skip((p1 - pos as int) + (p2 - p1 as int)) =~= buf@.skip(
                            p2 as int));
                    }
                    match decode_u64(buf, p2) {
                        None => None,
                        Some((flags, p3)) => {
                            if flags <= u32::MAX as u64 {
                                Some((SerializedHandle { id, inode, flags: flags as u32 }, p3))
                            } else {
                                None
                            }
                        },
                    }
                },
            }
        },
    }
}

/// Decode the negotiated options at `pos`.
pub fn decode_opts(buf: &Vec<u8>, pos: usize) -> (r: Option<(NegotiatedOpts, usize)>)
    requires
        pos <= buf@.len(),
    ensures
        match r {
            Some((v, newpos)) => pos <= newpos <= buf@.len() && dec_opts(buf@.skip(pos as int))
                == Some((v, newpos - pos as int)),
            None => dec_opts(buf@.skip(pos as int)) is None,
        },
{
    let ghost s = buf@.skip(pos as int);
    match decode_bool(buf, pos) {
        None => None,
        Some((writeback, p1)) => {
            proof {
                assert(s.skip(p1 - pos as int) =~= buf@.skip(p1 as int));
            }
            match decode_bool(buf, p1) {
                None => None,
                Some((announce_submounts, p2)) => {
                    proof {
                        assert(s.skip((p1 - pos as int) + (p2 - p1 as int)) =~= buf@.skip(
                            p2 as int));
                    }
                    match decode_bool(buf, p2) {
                        None => None,
                        Some((posix_acl, p3)) => {
                            proof {
                                assert(s.skip(
                                    (p1 - pos as int) + (p2 - p1 as int) + (p3 - p2 as int))
                                    =~= buf@.skip(p3 as int));
                            }
                            match decode_bool(buf, p3) {
                                None => None,
                                Some((sup_group_extension, p4)) => Some(
                                    (
                                        NegotiatedOpts {
                                            writeback,
                                            announce_submounts,
                                            posix_acl,
                                            sup_group_extension,
                                        },
                                        p4,
                                    ),
                                ),
                            }
                        },
                    }
                },
            }
        },
    }
}

/// Decode `n` inode records at `pos`.
#[verifier::rlimit(100)]
#[verifier::spinoff_prover]
fn decode_inode_seq(buf: &Vec<u8>, pos: usize, n: u64) -> (r: Option<(
    Vec<SerializedInode>, usize)>)
    requires
        pos <= buf@.len(),
    ensures
        match r {
            Some((v, newpos)) => pos <= newpos <= buf@.len() && dec_inode_seq(
                buf@.skip(pos as int),
                n as nat,
            ) == Some(
                (v@.map_values(|x: SerializedInode| x@), newpos - pos as int),
            ),
            None => dec_inode_seq(buf@.skip(pos as int), n as nat) is None,
        },
{
    let ghost s0 = buf@.skip(pos as int);
    let mut acc: Vec<SerializedInode> = Vec::new();
    let mut cur: usize = pos;
    let mut k: u64 = 0;
    proof {
        assert(acc@.map_values(|x: SerializedInode| x@) =~= Seq::<SerInodeModel>::empty());
    }
    while k < n
        invariant
            s0 == buf@.skip(pos as int),
            pos <= cur <= buf@.len(),
            k <= n,
            ({
                let got = acc@.map_values(|x: SerializedInode| x@);
                match dec_inode_seq(buf@.skip(cur as int), (n - k) as nat) {
                    Some((rest, c)) => dec_inode_seq(s0, n as nat) == Some::<(Seq<
                        SerInodeModel>, int)>((got + rest, (cur - pos as int) + c)),
                    None => dec_inode_seq(s0, n as nat) is None,
                }
            }),
        decreases n - k,
    {
        let ghost pre_models = acc@.map_values(|x: SerializedInode| x@);
        match decode_inode(buf, cur) {
            None => {
                proof {
                    assert(dec_inode_seq(buf@.skip(cur as int), (n - k) as nat) is None);
                }
                return None;
            },
            Some((rec, np)) => {
                proof {
                    assert(buf@.skip(cur as int).skip(np - cur as int) =~= buf@.skip(
                        np as int));
                }
                acc.push(rec);
                proof {
                    let got_new = acc@.map_values(|x: SerializedInode| x@);
                    assert(got_new =~= pre_models.push(rec@));
                    match dec_inode_seq(buf@.skip(np as int), (n - (k + 1)) as nat) {
                        Some((rest, c)) => {
                            assert(dec_inode_seq(buf@.skip(cur as int), (n - k) as nat)
                                == Some::<(Seq<SerInodeModel>, int)>(
                                (seq![rec@] + rest, (np - cur as int) + c),
                            ));
                            assert(pre_models + (seq![rec@] + rest) =~= got_new + rest);
                        },
                        None => {
                            assert(dec_inode_seq(buf@.skip(cur as int), (n - k) as nat)
                                is None);
                        },
                    }
                }
                cur = np;
                k = k + 1;
            },
        }
    }
    proof {
        assert(dec_inode_seq(buf@.skip(cur as int), 0) == Some::<(Seq<SerInodeModel>, int)>(
            (Seq::<SerInodeModel>::empty(), 0int),
        ));
        let got = acc@.map_values(|x: SerializedInode| x@);
        assert(got + Seq::<SerInodeModel>::empty() =~= got);
        assert(got + Seq::<SerInodeModel>::empty() == got);
        assert(dec_inode_seq(s0, n as nat) == Some::<(Seq<SerInodeModel>, int)>(
            (got, (cur - pos as int) + 0int),
        ));
        assert((cur - pos as int) + 0int == cur - pos as int);
        assert(dec_inode_seq(s0, n as nat) == Some::<(Seq<SerInodeModel>, int)>(
            (got, cur - pos as int),
        ));
    }
    Some((acc, cur))
}

/// Decode `n` handle records at `pos`.
#[verifier::rlimit(100)]
#[verifier::spinoff_prover]
fn decode_handle_seq(buf: &Vec<u8>, pos: usize, n: u64) -> (r: Option<(
    Vec<SerializedHandle>, usize)>)
    requires
        pos <= buf@.len(),
    ensures
        match r {
            Some((v, newpos)) => pos <= newpos <= buf@.len() && dec_handle_seq(
                buf@.skip(pos as int),
                n as nat,
            ) == Some((v@, newpos - pos as int)),
            None => dec_handle_seq(buf@.skip(pos as int), n as nat) is None,
        },
{
    let ghost s0 = buf@.skip(pos as int);
    let mut acc: Vec<SerializedHandle> = Vec::new();
    let mut cur: usize = pos;
    let mut k: u64 = 0;
    proof {
        assert(acc@ =~= Seq::<SerializedHandle>::empty());
    }
    while k < n
        invariant
            s0 == buf@.skip(pos as int),
            pos <= cur <= buf@.len(),
            k <= n,
            match dec_handle_seq(buf@.skip(cur as int), (n - k) as nat) {
                Some((rest, c)) => dec_handle_seq(s0, n as nat) == Some::<(Seq<
                    SerializedHandle>, int)>((acc@ + rest, (cur - pos as int) + c)),
                None => dec_handle_seq(s0, n as nat) is None,
            },
        decreases n - k,
    {
        let ghost pre = acc@;
        match decode_handle(buf, cur) {
            None => {
                proof {
                    assert(dec_handle_seq(buf@.skip(cur as int), (n - k) as nat) is None);
                }
                return None;
            },
            Some((rec, np)) => {
                proof {
                    assert(buf@.skip(cur as int).skip(np - cur as int) =~= buf@.skip(
                        np as int));
                }
                acc.push(rec);
                proof {
                    assert(acc@ =~= pre.push(rec));
                    match dec_handle_seq(buf@.skip(np as int), (n - (k + 1)) as nat) {
                        Some((rest, c)) => {
                            assert(dec_handle_seq(buf@.skip(cur as int), (n - k) as nat)
                                == Some::<(Seq<SerializedHandle>, int)>(
                                (seq![rec] + rest, (np - cur as int) + c),
                            ));
                            assert(pre + (seq![rec] + rest) =~= acc@ + rest);
                        },
                        None => {
                            assert(dec_handle_seq(buf@.skip(cur as int), (n - k) as nat)
                                is None);
                        },
                    }
                }
                cur = np;
                k = k + 1;
            },
        }
    }
    proof {
        assert(dec_handle_seq(buf@.skip(cur as int), 0) == Some::<(Seq<SerializedHandle>, int)>(
            (Seq::<SerializedHandle>::empty(), 0int),
        ));
        assert(acc@ + Seq::<SerializedHandle>::empty() =~= acc@);
        assert(acc@ + Seq::<SerializedHandle>::empty() == acc@);
        assert(dec_handle_seq(s0, n as nat) == Some::<(Seq<SerializedHandle>, int)>(
            (acc@, cur - pos as int),
        ));
    }
    Some((acc, cur))
}

/// Decode a whole stream (trailing bytes are ignored).  `None` is a
/// malformed or unknown-version stream; the destination treats it as a
/// migration abort.
#[verifier::rlimit(100)]
#[verifier::spinoff_prover]
pub fn decode_fs(buf: &Vec<u8>) -> (r: Option<SerializedFs>)
    ensures
        match r {
            Some(fs) => dec_state(buf@) is Some && (dec_state(buf@)->0).0 == fs@,
            None => dec_state(buf@) is None,
        },
{
    let ghost s = buf@;
    proof {
        assert(buf@.skip(0) =~= buf@);
    }
    match decode_u64(buf, 0) {
        None => None,
        Some((version, p0)) => {
            if version != 1 {
                return None;
            }
            proof {
                assert(s.skip(p0 as int) =~= buf@.skip(p0 as int));
            }
            match decode_u64(buf, p0) {
                None => None,
                Some((n_inodes, p1)) => {
                    match decode_inode_seq(buf, p1, n_inodes) {
                        None => None,
                        Some((inodes, p2)) => {
                            match decode_u64(buf, p2) {
                                None => None,
                                Some((next_inode, p3)) => {
                                    match decode_u64(buf, p3) {
                                        None => None,
                                        Some((n_handles, p4)) => {
                                            match decode_handle_seq(buf, p4, n_handles) {
                                                None => None,
                                                Some((handles, p5)) => {
                                                    match decode_u64(buf, p5) {
                                                        None => None,
                                                        Some((next_handle, p6)) => {
                                                            match decode_opts(buf, p6) {
                                                                None => None,
                                                                Some((negotiated_opts, _p7)) => {
                                                                    Some(
                                                                        SerializedFs::V1(
                                                                            SerializedFsV1 {
                                                                                inodes,
                                                                                next_inode,
                                                                                handles,
                                                                                next_handle,
                                                                                negotiated_opts,
                                                                            },
                                                                        ),
                                                                    )
                                                                },
                                                            }
                                                        },
                                                    }
                                                },
                                            }
                                        },
                                    }
                                },
                            }
                        },
                    }
                },
            }
        },
    }
}

} // verus!
