//! Parsing of uid/gid map arguments of the form `:inside:outside:count:`,
//! where the first character fixes the delimiter (any non-alphanumeric
//! ASCII byte) and exactly three decimal fields follow.

use vstd::prelude::*;
use vstd::string::StringSliceAdditionalSpecFns;

verus! {

/// Expected error conditions when parsing a `UidMap` or `GidMap`.
#[derive(Clone, Copy, Debug, PartialEq, Eq, Structural)]
pub enum IdMapError {
    /// A delimiter was found that does not match the delimiter the map
    /// started with (or the leading delimiter is missing or alphanumeric).
    InvalidDelimiter,
    /// The map is empty or holds the wrong number of fields.
    IncompleteMap,
    /// A field is not an unsigned 32-bit decimal number.
    InvalidValue,
}

/// ASCII letters and digits, which cannot serve as delimiters.
pub open spec fn is_ascii_alnum(b: u8) -> bool {
    (48 <= b <= 57) || (65 <= b <= 90) || (97 <= b <= 122)
}

/// Whether every byte is an ASCII digit.
pub open spec fn all_digits(s: Seq<u8>) -> bool {
    forall|i: int| 0 <= i < s.len() ==> 48 <= #[trigger] s[i] <= 57
}

/// The decimal value of a digit string.
pub open spec fn digits_val(s: Seq<u8>) -> int
    decreases s.len(),
{
    if s.len() == 0 {
        0
    } else {
        digits_val(s.drop_last()) * 10 + (s.last() - 48)
    }
}

/// The number a field parses to, if it is a well-formed `u32`.
pub open spec fn parse_u32_spec(s: Seq<u8>) -> Option<u32> {
    if s.len() > 0 && all_digits(s) && digits_val(s) <= u32::MAX {
        Some(digits_val(s) as u32)
    } else {
        None
    }
}

/// The first position of `d` in `s`, or `-1`.
pub open spec fn find_byte(s: Seq<u8>, d: u8) -> int
    decreases s.len(),
{
    if s.len() == 0 {
        -1
    } else if s[0] == d {
        0
    } else {
        let r = find_byte(s.drop_first(), d);
        if r < 0 {
            -1
        } else {
            r + 1
        }
    }
}

/// `s` split on `d` (an empty `s` yields one empty field, like
/// `str::split`).
pub open spec fn split_on(s: Seq<u8>, d: u8) -> Seq<Seq<u8>>
    decreases s.len(),
        via split_on_decreases
{
    let i = find_byte(s, d);
    if i < 0 {
        seq![s]
    } else {
        seq![s.take(i)] + split_on(s.skip(i + 1), d)
    }
}

/// `find_byte` stays within the sequence.
proof fn lemma_find_byte_range(s: Seq<u8>, d: u8)
    ensures
        -1 <= find_byte(s, d) < s.len(),
    decreases s.len(),
{
    if s.len() > 0 && s[0] != d {
        lemma_find_byte_range(s.drop_first(), d);
    }
}

#[via_fn]
proof fn split_on_decreases(s: Seq<u8>, d: u8) {
    lemma_find_byte_range(s, d);
}

/// What `parse_idmap` returns, as a function of the input bytes.
pub open spec fn parse_idmap_spec(b: Seq<u8>, expected: int) -> Result<Seq<u32>, IdMapError> {
    if b.len() == 0 {
        Err(IdMapError::IncompleteMap)
    } else {
        let d = b.last();
        if is_ascii_alnum(d) {
            Err(IdMapError::InvalidDelimiter)
        } else {
            let body = b.drop_last();
            if body.len() == 0 || body[0] != d {
                Err(IdMapError::InvalidDelimiter)
            } else {
                let fields = split_on(body.drop_first(), d);
                if fields.len() != expected {
                    Err(IdMapError::IncompleteMap)
                } else if exists|k: int|
                    0 <= k < fields.len() && parse_u32_spec(#[trigger] fields[k]) is None {
                    Err(IdMapError::InvalidValue)
                } else {
                    Ok(fields.map_values(|f: Seq<u8>| parse_u32_spec(f)->0))
                }
            }
        }
    }
}

/// `find_byte` finds the first occurrence.
proof fn lemma_find_byte_at(s: Seq<u8>, d: u8, k: int)
    requires
        0 <= k < s.len(),
        s[k] == d,
        forall|j: int| 0 <= j < k ==> s[j] != d,
    ensures
        find_byte(s, d) == k,
    decreases s.len(),
{
    if k == 0 {
    } else {
        assert(s[0] != d);
        assert(s.drop_first()[k - 1] == d);
        assert(forall|j: int| 0 <= j < k - 1 ==> s.drop_first()[j] != d);
        lemma_find_byte_at(s.drop_first(), d, k - 1);
    }
}

/// `find_byte` reports absence.
proof fn lemma_find_byte_none(s: Seq<u8>, d: u8)
    requires
        forall|j: int| 0 <= j < s.len() ==> s[j] != d,
    ensures
        find_byte(s, d) == -1,
    decreases s.len(),
{
    if s.len() > 0 {
        lemma_find_byte_none(s.drop_first(), d);
    }
}

/// Digit values only grow as digits are appended.
proof fn lemma_digits_val_grows(s: Seq<u8>, i: int)
    requires
        all_digits(s),
        0 <= i <= s.len(),
    ensures
        digits_val(s.take(i)) <= digits_val(s),
        digits_val(s) >= 0,
    decreases s.len() - i,
{
    if i == s.len() {
        assert(s.take(i) =~= s);
        lemma_digits_val_nonneg(s);
    } else {
        assert(s.take(i + 1).drop_last() =~= s.take(i));
        assert(s.take(i + 1).last() == s[i]);
        lemma_digits_val_nonneg(s.take(i));
        assert(digits_val(s.take(i + 1)) == digits_val(s.take(i)) * 10 + (s[i] - 48));
        assert(digits_val(s.take(i)) * 10 >= digits_val(s.take(i))) by (nonlinear_arith)
            requires
                digits_val(s.take(i)) >= 0,
        ;
        lemma_digits_val_grows(s, i + 1);
    }
}

/// Digit values are nonnegative.
proof fn lemma_digits_val_nonneg(s: Seq<u8>)
    requires
        all_digits(s),
    ensures
        digits_val(s) >= 0,
    decreases s.len(),
{
    if s.len() > 0 {
        assert(all_digits(s.drop_last()));
        lemma_digits_val_nonneg(s.drop_last());
        assert(digits_val(s.drop_last()) * 10 >= 0) by (nonlinear_arith)
            requires
                digits_val(s.drop_last()) >= 0,
        ;
    }
}

/// Parse one decimal field as a `u32`.
fn parse_u32_field(b: &[u8], from: usize, to: usize) -> (r: Option<u32>)
    requires
        from <= to <= b@.len(),
    ensures
        r == parse_u32_spec(b@.subrange(from as int, to as int)),
{
    let ghost f = b@.subrange(from as int, to as int);
    if from == to {
        return None;
    }
    let mut acc: u64 = 0;
    let mut i: usize = from;
    while i < to
        invariant
            from <= i <= to <= b@.len(),
            f == b@.subrange(from as int, to as int),
            all_digits(f.take(i - from)),
            acc == digits_val(f.take(i - from)),
            acc <= u32::MAX,
        decreases to - i,
    {
        let c = b[i];
        if c < 48 || c > 57 {
            proof {
                assert(f[i - from] == c);
                assert(!all_digits(f));
            }
            return None;
        }
        let d = (c - 48) as u64;
        let next = acc * 10 + d;
        proof {
            assert(f.take(i + 1 - from).drop_last() =~= f.take(i - from));
            assert(f.take(i + 1 - from).last() == f[i - from]);
            assert(f[i - from] == c);
            assert(all_digits(f.take(i + 1 - from)));
        }
        if next > 0xffff_ffffu64 {
            proof {
                assert(digits_val(f.take(i + 1 - from)) == next);
                if all_digits(f) {
                    lemma_digits_val_grows(f, i + 1 - from);
                    assert(digits_val(f) >= next > u32::MAX);
                }
            }
            return None;
        }
        acc = next;
        i = i + 1;
    }
    proof {
        assert(f.take(to - from as int) =~= f);
    }
    Some(acc as u32)
}

/// Parse a delimiter-framed id map with `expected` decimal fields.
#[verifier::rlimit(100)]
#[verifier::spinoff_prover]
pub fn parse_idmap(s: &str, expected: usize) -> (r: Result<Vec<u32>, IdMapError>)
    ensures
        match r {
            Ok(v) => parse_idmap_spec(s.spec_bytes(), expected as int) == Ok::<Seq<
                u32>, IdMapError>(v@),
            Err(e) => parse_idmap_spec(s.spec_bytes(), expected as int) == Err::<Seq<
                u32>, IdMapError>(e),
        },
{
    let b = s.as_bytes();
    if b.len() == 0 {
        return Err(IdMapError::IncompleteMap);
    }
    let d = b[b.len() - 1];
    proof {
        assert(b@.last() == d);
    }
    if (48 <= d && d <= 57) || (65 <= d && d <= 90) || (97 <= d && d <= 122) {
        return Err(IdMapError::InvalidDelimiter);
    }
    let body_len = b.len() - 1;
    let ghost body = b@.drop_last();
    proof {
        assert(body.len() == body_len);
        assert(forall|j: int| 0 <= j < body.len() ==> body[j] == b@[j]);
    }
    if body_len == 0 || b[0] != d {
        return Err(IdMapError::InvalidDelimiter);
    }
    let ghost inner = body.drop_first();
    proof {
        assert(inner.len() == body_len - 1);
        assert(forall|j: int| 0 <= j < inner.len() ==> inner[j] == b@[j + 1]);
    }
    // Scan `inner` (bytes 1 .. body_len of `b`), splitting on `d` and
    // parsing each field.
    let mut fields: Vec<u32> = Vec::new();
    let mut ok: bool = true;
    let mut seg_start: usize = 1;
    let mut i: usize = 1;
    let ghost gd = d;
    proof {
        assert(inner.skip(0) =~= inner);
        assert(Seq::<Seq<u8>>::empty() + split_on(inner, gd) =~= split_on(inner, gd));
        assert(split_on(inner, gd).take(0) =~= Seq::<Seq<u8>>::empty());
    }
    let mut count: usize = 0;
    while i <= body_len
        invariant
            1 <= seg_start <= i <= body_len + 1,
            count <= i,
            body_len + 1 == b@.len(),
            body_len >= 1,
            body_len < usize::MAX,
            d == gd,
            inner == b@.drop_last().drop_first(),
            inner.len() == body_len - 1,
            forall|j: int| 0 <= j < inner.len() ==> inner[j] == b@[j + 1],
            gd == b@.last(),
            count <= split_on(inner, gd).len(),
            forall|j: int| seg_start <= j < i ==> b@[j] != gd,
            seg_start == body_len + 1 ==> i == body_len + 1,
            // The fields seen so far, plus those still to come, are the split.
            ({
                let done = split_on(inner, gd).take(count as int);
                &&& (seg_start <= body_len ==> split_on(inner, gd) == done + split_on(
                    inner.skip(seg_start - 1),
                    gd,
                ))
                &&& (seg_start == body_len + 1 ==> split_on(inner, gd) == done && count
                    == split_on(inner, gd).len())
                &&& (ok ==> (forall|k: int|
                    0 <= k < count ==> parse_u32_spec(#[trigger] done[k]) is Some)
                    && fields@.len() == count && (forall|k: int|
                    0 <= k < count ==> fields@[k] == parse_u32_spec(done[k])->0))
                &&& (!ok ==> exists|k: int|
                    0 <= k < count && parse_u32_spec(#[trigger] done[k]) is None)
            }),
        decreases body_len + 1 - i,
    {
        let at_end = i == body_len;
        let hit = if at_end {
            true
        } else {
            b[i] == d
        };
        if hit {
            // One field: bytes seg_start .. i of `b`.
            let ghost seg = b@.subrange(seg_start as int, i as int);
            let ghost split = split_on(inner, gd);
            let ghost rel = inner.skip(seg_start - 1);
            let ghost rest = split_on(inner.skip(i + 1 - 1), gd);
            proof {
                assert(forall|j: int| 0 <= j < rel.len() ==> rel[j] == b@[j + seg_start]);
                if at_end {
                    assert(forall|j: int| 0 <= j < rel.len() ==> rel[j] != gd);
                    lemma_find_byte_none(rel, gd);
                    assert(split_on(rel, gd) =~= seq![rel]);
                    assert(rel =~= seg);
                    assert(split_on(rel, gd) == seq![seg]);
                } else {
                    assert(rel[i - seg_start] == gd);
                    assert(forall|j: int| 0 <= j < i - seg_start ==> rel[j] != gd);
                    lemma_find_byte_at(rel, gd, i - seg_start);
                    assert(rel.take(i - seg_start) =~= seg);
                    assert(rel.skip(i - seg_start + 1) =~= inner.skip(i + 1 - 1));
                    assert(split_on(rel, gd) == seq![seg] + rest);
                }
            }
            let parsed = parse_u32_field(b, seg_start, i);
            let ghost old_count = count as int;
            let ghost old_fields = fields@;
            match parsed {
                Some(v) => {
                    if ok {
                        fields.push(v);
                    }
                },
                None => {
                    ok = false;
                },
            }
            count = count + 1;
            proof {
                let done_old = split.take(old_count);
                assert(split == done_old + split_on(rel, gd));
                if at_end {
                    assert(split =~= done_old.push(seg));
                    assert(split.len() == old_count + 1);
                    assert(split.take(old_count + 1) =~= split);
                    assert(split[old_count] == seg);
                } else {
                    assert(split_on(rel, gd).len() >= 1);
                    assert(rest.len() >= 1);
                    assert(split =~= done_old + (seq![seg] + rest));
                    assert(split.len() >= old_count + 2);
                    assert(split[old_count] == seg);
                    assert(split.take(old_count + 1) =~= done_old.push(seg));
                    assert(split =~= split.take(old_count + 1) + rest);
                }
                assert(parsed == parse_u32_spec(seg));
            }
            seg_start = i + 1;
        }
        i = i + 1;
    }
    proof {
        assert(seg_start == body_len + 1);
    }
    if count != expected {
        return Err(IdMapError::IncompleteMap);
    }
    if !ok {
        return Err(IdMapError::InvalidValue);
    }
    proof {
        let fs2 = split_on(inner, gd);
        assert(fields@ =~= fs2.map_values(|f: Seq<u8>| parse_u32_spec(f)->0));
    }
    Ok(fields)
}

/// A uid mapping for the sandbox: guest-side uid, host-side uid, range
/// length.
#[derive(Clone, Copy, Debug, PartialEq, Eq, Structural)]
pub struct UidMap {
    pub inside_uid: u32,
    pub outside_uid: u32,
    pub count: u32,
}

impl UidMap {
    /// Parse `:inside:outside:count:`.
    pub fn from_str(s: &str) -> (r: Result<UidMap, IdMapError>)
        ensures
            match r {
                Ok(m) => parse_idmap_spec(s.spec_bytes(), 3) == Ok::<Seq<u32>, IdMapError>(
                    seq![m.inside_uid, m.outside_uid, m.count],
                ),
                Err(e) => parse_idmap_spec(s.spec_bytes(), 3) == Err::<Seq<u32>, IdMapError>(e),
            },
    {
        match parse_idmap(s, 3) {
            Err(e) => Err(e),
            Ok(fields) => {
                let m = UidMap { inside_uid: fields[0], outside_uid: fields[1], count: fields[2] };
                proof {
                    assert(fields@ =~= seq![m.inside_uid, m.outside_uid, m.count]);
                }
                Ok(m)
            },
        }
    }
}

/// A gid mapping for the sandbox: guest-side gid, host-side gid, range
/// length.
#[derive(Clone, Copy, Debug, PartialEq, Eq, Structural)]
pub struct GidMap {
    pub inside_gid: u32,
    pub outside_gid: u32,
    pub count: u32,
}

impl GidMap {
    /// Parse `:inside:outside:count:`.
    pub fn from_str(s: &str) -> (r: Result<GidMap, IdMapError>)
        ensures
            match r {
                Ok(m) => parse_idmap_spec(s.spec_bytes(), 3) == Ok::<Seq<u32>, IdMapError>(
                    seq![m.inside_gid, m.outside_gid, m.count],
                ),
                Err(e) => parse_idmap_spec(s.spec_bytes(), 3) == Err::<Seq<u32>, IdMapError>(e),
            },
    {
        match parse_idmap(s, 3) {
            Err(e) => Err(e),
            Ok(fields) => {
                let m = GidMap { inside_gid: fields[0], outside_gid: fields[1], count: fields[2] };
                proof {
                    assert(fields@ =~= seq![m.inside_gid, m.outside_gid, m.count]);
                }
                Ok(m)
            },
        }
    }
}

} // verus!
