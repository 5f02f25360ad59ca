//! Error kinds used across the library.
//!
//! Per-request failures are returned to the embedding program, which encodes
//! them as negative errno replies; migration distinguishes whole-stream
//! failures (abort) from per-item failures that are stashed in invalid
//! placeholders.

use vstd::prelude::*;

verus! {

/// The kind of a library error.
#[derive(Clone, Copy, Debug, PartialEq, Eq, Structural)]
pub enum ErrorKind {
    /// The guest referenced an inode or handle that is not in the table, or
    /// an inode was deleted during a refcount race.
    NotFound,
    /// A malformed request.
    InvalidArgument,
    /// The host filesystem lacks a required feature (e.g. file handles in
    /// mandatory mode).
    NotSupported,
    /// Transparent pass-through of a host error number.
    Os(i32),
    /// The migration destination rejects the stream as a whole.
    MigrationAbort,
    /// Any other error.
    Other,
}

/// An error of the library: a kind plus a human-readable message (as bytes).
#[derive(Clone, Debug)]
pub struct FsError {
    pub kind: ErrorKind,
    pub msg: Vec<u8>,
}

impl FsError {
    /// Build an error of the given kind with no message.
    pub fn new(kind: ErrorKind) -> (r: FsError)
        ensures
            r.kind == kind,
            r.msg@ == Seq::<u8>::empty(),
    {
        FsError { kind, msg: Vec::new() }
    }

    /// Build an error of the given kind with a message.
    pub fn with_msg(kind: ErrorKind, msg: Vec<u8>) -> (r: FsError)
        ensures
            r.kind == kind,
            r.msg == msg,
    {
        FsError { kind, msg }
    }
}

impl FsError {
    /// A fresh copy of the error, kind and message alike (stored errors
    /// are surfaced to the guest on every operation that touches an
    /// invalid inode or handle).
    pub fn clone_kind(&self) -> (r: FsError)
        ensures
            r.kind == self.kind,
            r.msg@ == self.msg@,
    {
        let mut msg: Vec<u8> = Vec::new();
        let mut i: usize = 0;
        while i < self.msg.len()
            invariant
                i <= self.msg.len(),
                msg@ == self.msg@.subrange(0, i as int),
            decreases self.msg.len() - i,
        {
            msg.push(self.msg[i]);
            i = i + 1;
            assert(msg@ =~= self.msg@.subrange(0, i as int));
        }
        assert(self.msg@.subrange(0, self.msg@.len() as int) == self.msg@);
        FsError { kind: self.kind, msg }
    }
}

/// A "bad file descriptor" style error: the guest referenced an unknown
/// inode or handle.
pub fn ebadf() -> (r: FsError)
    ensures
        r.kind == ErrorKind::NotFound,
{
    FsError::new(ErrorKind::NotFound)
}

/// An "invalid argument" error.
pub fn einval() -> (r: FsError)
    ensures
        r.kind == ErrorKind::InvalidArgument,
{
    FsError::new(ErrorKind::InvalidArgument)
}

/// A catch-all error with a message, like `io::Error::other`.
pub fn other_io_error(msg: Vec<u8>) -> (r: FsError)
    ensures
        r.kind == ErrorKind::Other,
        r.msg == msg,
{
    FsError::with_msg(ErrorKind::Other, msg)
}

/// Allows prepending an error's message by something that gives context.
pub trait ErrorContext: Sized {
    /// The kind of the error, as contracts see it.
    spec fn kind_spec(&self) -> ErrorKind;

    /// Prepend `ctx` to the error's message, keeping its kind.
    fn context(self, ctx: Vec<u8>) -> (r: Self)
        ensures
            r.kind_spec() == self.kind_spec(),
    ;
}

impl ErrorContext for FsError {
    open spec fn kind_spec(&self) -> ErrorKind {
        self.kind
    }

    fn context(self, ctx: Vec<u8>) -> (r: Self)
        ensures
            r.kind_spec() == self.kind_spec(),
            r.msg@ == ctx@ + seq![58u8, 32u8] + self.msg@,
    {
        let mut new_msg = ctx;
        new_msg.push(58u8);  // ':'
        new_msg.push(32u8);  // ' '
        let mut i: usize = 0;
        while i < self.msg.len()
            invariant
                i <= self.msg.len(),
                new_msg@ == ctx@ + seq![58u8, 32u8] + self.msg@.subrange(0, i as int),
            decreases self.msg.len() - i,
        {
            new_msg.push(self.msg[i]);
            i = i + 1;
            assert(new_msg@ == ctx@ + seq![58u8, 32u8] + self.msg@.subrange(0, i as int));
        }
        assert(self.msg@.subrange(0, self.msg@.len() as int) == self.msg@);
        FsError { kind: self.kind, msg: new_msg }
    }
}

/// Lifts `ErrorContext` to `Result` values.
pub trait ResultErrorContext: Sized {
    /// Whether the value is an error, as contracts see it.
    spec fn is_err_spec(&self) -> bool;

    /// Prepend `ctx` to the error's message, if any.
    fn err_context(self, ctx: Vec<u8>) -> (r: Self)
        ensures
            r.is_err_spec() == self.is_err_spec(),
    ;
}

impl<V> ResultErrorContext for Result<V, FsError> {
    open spec fn is_err_spec(&self) -> bool {
        self is Err
    }

    fn err_context(self, ctx: Vec<u8>) -> (r: Self)
        ensures
            r.is_err_spec() == self.is_err_spec(),
            self is Ok ==> r == self,
            self is Err ==> r is Err && r->Err_0.kind == self->Err_0.kind,
    {
        match self {
            Ok(v) => Ok(v),
            Err(e) => Err(e.context(ctx)),
        }
    }
}

} // verus!
