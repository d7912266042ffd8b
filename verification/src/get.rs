//! Options of a read request, and the evaluation of its conditional
//! request preconditions against an object's current metadata.

use vstd::prelude::*;

use crate::error::ErrorKind;
use crate::range::RangeSpec;
use crate::text::str_eq;

verus! {

/// The options a read request recognises.
#[derive(Clone, Debug, PartialEq, Eq)]
pub struct GetOptions {
    /// Succeed only if the object's tag matches, or with `*`, if the
    /// object exists.
    pub if_match: Option<String>,
    /// Fail with `NotModified` if the object's tag matches, or with `*`,
    /// if the object exists.
    pub if_none_match: Option<String>,
    /// Fail with `NotModified` unless modified since this time, in
    /// milliseconds since the epoch.
    pub if_modified_since: Option<i64>,
    /// Fail with `PreconditionFailed` if modified since this time.
    pub if_unmodified_since: Option<i64>,
    /// Restrict the response to a byte range.
    pub range: Option<RangeSpec>,
    /// Request a particular object version.
    pub version: Option<String>,
    /// Request the metadata only.
    pub head: bool,
}

impl GetOptions {
    /// Options that condition nothing.
    pub fn plain() -> (r: GetOptions)
        ensures
            r.if_match is None,
            r.if_none_match is None,
            r.if_modified_since is None,
            r.if_unmodified_since is None,
            r.range is None,
            r.version is None,
            !r.head,
    {
        GetOptions {
            if_match: None,
            if_none_match: None,
            if_modified_since: None,
            if_unmodified_since: None,
            range: None,
            version: None,
            head: false,
        }
    }
}

/// Whether a request with the given conditions succeeds against an object
/// carrying `etag` and `last_modified`, and how it fails.
///
/// Each condition compares against a single entity tag; `*` stands for
/// any existing tag, and an object without a tag never matches a real
/// one. A failed `if_match` or `if_unmodified_since` is
/// `PreconditionFailed`; a failed `if_none_match` or `if_modified_since`
/// is `NotModified`; the time conditions apply only when the matching tag
/// condition is absent.
pub open spec fn spec_check_preconditions(
    if_match: Option<Seq<char>>,
    if_none_match: Option<Seq<char>>,
    if_modified_since: Option<i64>,
    if_unmodified_since: Option<i64>,
    etag: Option<Seq<char>>,
    last_modified: i64,
) -> Result<(), ErrorKind> {
    let e = match etag {
        Some(t) => t,
        None => "*"@,
    };
    if if_match is Some && !(if_match->0 == "*"@ || if_match->0 == e) {
        Err(ErrorKind::PreconditionFailed)
    } else if if_match is None && if_unmodified_since is Some && last_modified
        > if_unmodified_since->0 {
        Err(ErrorKind::PreconditionFailed)
    } else if if_none_match is Some && (if_none_match->0 == "*"@ || if_none_match->0 == e) {
        Err(ErrorKind::NotModified)
    } else if if_none_match is None && if_modified_since is Some && last_modified
        <= if_modified_since->0 {
        Err(ErrorKind::NotModified)
    } else {
        Ok(())
    }
}

/// The tag and time conditions of `opts`, as the specification reads
/// them.
pub open spec fn spec_check_options(
    opts: GetOptions,
    etag: Option<Seq<char>>,
    last_modified: i64,
) -> Result<(), ErrorKind> {
    spec_check_preconditions(
        match opts.if_match {
            Some(m) => Some(m@),
            None => None,
        },
        match opts.if_none_match {
            Some(m) => Some(m@),
            None => None,
        },
        opts.if_modified_since,
        opts.if_unmodified_since,
        etag,
        last_modified,
    )
}

/// Evaluate a read request's conditions against the object's current
/// entity tag and last-modified time. In particular, `if_none_match`
/// equal to the object's current tag fails with `NotModified`.
pub fn check_preconditions(opts: &GetOptions, etag: Option<&String>, last_modified: i64) -> (r:
    Result<(), ErrorKind>)
    ensures
        r == spec_check_options(
            *opts,
            match etag {
                Some(t) => Some(t@),
                None => None::<Seq<char>>,
            },
            last_modified,
        ),
{
    let e: &str = match etag {
        Some(t) => t.as_str(),
        None => "*",
    };
    match &opts.if_match {
        Some(m) => {
            if !(str_eq(m.as_str(), "*") || str_eq(m.as_str(), e)) {
                return Err(ErrorKind::PreconditionFailed);
            }
        },
        None => {
            match opts.if_unmodified_since {
                Some(date) => {
                    if last_modified > date {
                        return Err(ErrorKind::PreconditionFailed);
                    }
                },
                None => {},
            }
        },
    }
    match &opts.if_none_match {
        Some(m) => {
            if str_eq(m.as_str(), "*") || str_eq(m.as_str(), e) {
                return Err(ErrorKind::NotModified);
            }
        },
        None => {
            match opts.if_modified_since {
                Some(date) => {
                    if last_modified <= date {
                        return Err(ErrorKind::NotModified);
                    }
                },
                None => {},
            }
        },
    }
    Ok(())
}

} // verus!
