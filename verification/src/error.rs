//! The error taxonomy surfaced by every fallible operation of the crate,
//! and the mapping from backend error categories onto it.

use vstd::prelude::*;

verus! {

/// The category of an error reported by a storage backend.
///
/// A backend error arrives as an opaque value; the unverified adapter
/// reduces it to one of these categories before handing it to the library.
#[derive(Clone, Copy, Debug, PartialEq, Eq, Structural)]
pub enum BackendErrorKind {
    Generic,
    NotFound,
    InvalidPath,
    Join,
    NotSupported,
    AlreadyExists,
    Precondition,
    NotModified,
    NotImplemented,
    PermissionDenied,
    Unauthenticated,
    UnknownConfigurationKey,
}

/// One distinguishable kind of failure surfaced to a caller.
///
/// Every operation either succeeds or fails with exactly one of these.
/// `StreamExhausted` is the only kind synthesized by the library itself:
/// it reports a pull on a cursor past its terminal state.
#[derive(Clone, Copy, Debug, PartialEq, Eq, Structural)]
pub enum ErrorKind {
    Generic,
    NotFound,
    InvalidPath,
    Join,
    NotSupported,
    AlreadyExists,
    PreconditionFailed,
    NotModified,
    NotImplemented,
    PermissionDenied,
    Unauthenticated,
    UnknownConfigurationKey,
    StreamExhausted,
    InvalidInput,
    Io,
}

/// The caller-visible kind for each backend error category.
pub open spec fn mapped_error(e: BackendErrorKind) -> ErrorKind {
    match e {
        BackendErrorKind::Generic => ErrorKind::Generic,
        BackendErrorKind::NotFound => ErrorKind::NotFound,
        BackendErrorKind::InvalidPath => ErrorKind::InvalidPath,
        BackendErrorKind::Join => ErrorKind::Join,
        BackendErrorKind::NotSupported => ErrorKind::NotSupported,
        BackendErrorKind::AlreadyExists => ErrorKind::AlreadyExists,
        BackendErrorKind::Precondition => ErrorKind::PreconditionFailed,
        BackendErrorKind::NotModified => ErrorKind::NotModified,
        BackendErrorKind::NotImplemented => ErrorKind::NotImplemented,
        BackendErrorKind::PermissionDenied => ErrorKind::PermissionDenied,
        BackendErrorKind::Unauthenticated => ErrorKind::Unauthenticated,
        BackendErrorKind::UnknownConfigurationKey => ErrorKind::UnknownConfigurationKey,
    }
}

/// Map a backend error category to the kind a caller sees.
///
/// The category propagates unmodified: no backend error is retried or
/// downgraded, each category keeps its own kind.
pub fn map_backend_error(e: BackendErrorKind) -> (r: ErrorKind)
    ensures
        r == mapped_error(e),
{
    match e {
        BackendErrorKind::Generic => ErrorKind::Generic,
        BackendErrorKind::NotFound => ErrorKind::NotFound,
        BackendErrorKind::InvalidPath => ErrorKind::InvalidPath,
        BackendErrorKind::Join => ErrorKind::Join,
        BackendErrorKind::NotSupported => ErrorKind::NotSupported,
        BackendErrorKind::AlreadyExists => ErrorKind::AlreadyExists,
        BackendErrorKind::Precondition => ErrorKind::PreconditionFailed,
        BackendErrorKind::NotModified => ErrorKind::NotModified,
        BackendErrorKind::NotImplemented => ErrorKind::NotImplemented,
        BackendErrorKind::PermissionDenied => ErrorKind::PermissionDenied,
        BackendErrorKind::Unauthenticated => ErrorKind::Unauthenticated,
        BackendErrorKind::UnknownConfigurationKey => ErrorKind::UnknownConfigurationKey,
    }
}

} // verus!
