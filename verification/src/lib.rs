//! Verified core of a multi-backend object-storage client.
//!
//! The crate models the pieces of such a client that carry real logic: the
//! pull-based cursor used for byte streaming and paginated listing, the
//! bounded-concurrency multipart upload pipeline, the translation of
//! user-facing range specifications into byte ranges, per-backend
//! configuration maps built from URLs and key/value pairs, and the error
//! taxonomy surfaced to callers. Backend I/O itself is left to thin
//! unverified adapters around this crate.

pub mod attributes;
pub mod aws;
pub mod azure;
pub mod buffered;
pub mod config;
pub mod cursor;
pub mod error;
pub mod get;
pub mod listing;
pub mod multipart;
pub mod range;
pub mod text;
pub mod url;
