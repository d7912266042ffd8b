//! Parsed URLs as plain values, and the mapping from a URL to the storage
//! backend it selects.

use vstd::prelude::*;

use crate::error::ErrorKind;
use crate::text::{ends_with, has_suffix, str_eq};

verus! {

/// The parts of a parsed URL that the configuration logic reads, as plain
/// values: the scheme, the username, the host, and the path split into
/// segments. The unverified adapter fills this in from its URL parser.
#[derive(Clone, Debug, PartialEq, Eq)]
pub struct UrlParts {
    pub scheme: String,
    pub username: String,
    pub host: Option<String>,
    pub path_segments: Vec<String>,
}

impl UrlParts {
    /// The host, as a character sequence.
    pub open spec fn host_view(self) -> Option<Seq<char>> {
        match self.host {
            Some(h) => Some(h@),
            None => None,
        }
    }

    /// The first path segment, if the path has any.
    pub open spec fn first_segment_view(self) -> Option<Seq<char>> {
        if self.path_segments@.len() > 0 {
            Some(self.path_segments@[0]@)
        } else {
            None
        }
    }
}

/// A wrapper around a parsed URL.
pub struct PyUrl {
    url: UrlParts,
}

impl PyUrl {
    /// The wrapped URL.
    pub closed spec fn inner(self) -> UrlParts {
        self.url
    }

    /// Wrap a parsed URL.
    pub fn new(url: UrlParts) -> (r: PyUrl)
        ensures
            r.inner() == url,
    {
        PyUrl { url }
    }

    /// Return the underlying parsed URL.
    pub fn into_inner(self) -> (r: UrlParts)
        ensures
            r == self.inner(),
    {
        self.url
    }

    /// Borrow the underlying parsed URL.
    pub fn as_parts(&self) -> (r: &UrlParts)
        ensures
            *r == self.inner(),
    {
        &self.url
    }
}

/// A storage backend family selected by a URL.
#[derive(Clone, Copy, Debug, PartialEq, Eq, Structural)]
pub enum StoreScheme {
    Local,
    Memory,
    AmazonS3,
    GoogleCloudStorage,
    MicrosoftAzure,
    Http,
}

/// The backend family a URL selects: by its scheme, and for `https` by
/// the shape of its host. A `file` or `memory` URL carries no host; every
/// remote scheme requires one.
pub open spec fn spec_classify_url(scheme: Seq<char>, host: Option<Seq<char>>) -> Result<
    StoreScheme,
    ErrorKind,
> {
    if scheme == "file"@ && host is None {
        Ok(StoreScheme::Local)
    } else if scheme == "memory"@ && host is None {
        Ok(StoreScheme::Memory)
    } else if (scheme == "s3"@ || scheme == "s3a"@) && host is Some {
        Ok(StoreScheme::AmazonS3)
    } else if scheme == "gs"@ && host is Some {
        Ok(StoreScheme::GoogleCloudStorage)
    } else if (scheme == "az"@ || scheme == "adl"@ || scheme == "azure"@ || scheme == "abfs"@
        || scheme == "abfss"@) && host is Some {
        Ok(StoreScheme::MicrosoftAzure)
    } else if scheme == "http"@ && host is Some {
        Ok(StoreScheme::Http)
    } else if scheme == "https"@ && host is Some {
        let h = host->0;
        if ends_with(h, "dfs.core.windows.net"@) || ends_with(h, "blob.core.windows.net"@)
            || ends_with(h, "dfs.fabric.microsoft.com"@) || ends_with(
            h,
            "blob.fabric.microsoft.com"@,
        ) {
            Ok(StoreScheme::MicrosoftAzure)
        } else if ends_with(h, "amazonaws.com"@) || ends_with(h, "r2.cloudflarestorage.com"@) {
            Ok(StoreScheme::AmazonS3)
        } else {
            Ok(StoreScheme::Http)
        }
    } else {
        Err(ErrorKind::InvalidInput)
    }
}

/// Classify a URL by the backend family it selects.
pub fn classify_url(url: &UrlParts) -> (r: Result<StoreScheme, ErrorKind>)
    ensures
        r == spec_classify_url(url.scheme@, url.host_view()),
{
    let scheme = url.scheme.as_str();
    let has_host = url.host.is_some();
    if str_eq(scheme, "file") && !has_host {
        Ok(StoreScheme::Local)
    } else if str_eq(scheme, "memory") && !has_host {
        Ok(StoreScheme::Memory)
    } else if (str_eq(scheme, "s3") || str_eq(scheme, "s3a")) && has_host {
        Ok(StoreScheme::AmazonS3)
    } else if str_eq(scheme, "gs") && has_host {
        Ok(StoreScheme::GoogleCloudStorage)
    } else if (str_eq(scheme, "az") || str_eq(scheme, "adl") || str_eq(scheme, "azure") || str_eq(
        scheme,
        "abfs",
    ) || str_eq(scheme, "abfss")) && has_host {
        Ok(StoreScheme::MicrosoftAzure)
    } else if str_eq(scheme, "http") && has_host {
        Ok(StoreScheme::Http)
    } else if str_eq(scheme, "https") && has_host {
        let h = match &url.host {
            Some(h) => h.as_str(),
            None => "",
        };
        if has_suffix(h, "dfs.core.windows.net") || has_suffix(h, "blob.core.windows.net")
            || has_suffix(h, "dfs.fabric.microsoft.com") || has_suffix(
            h,
            "blob.fabric.microsoft.com",
        ) {
            Ok(StoreScheme::MicrosoftAzure)
        } else if has_suffix(h, "amazonaws.com") || has_suffix(h, "r2.cloudflarestorage.com") {
            Ok(StoreScheme::AmazonS3)
        } else {
            Ok(StoreScheme::Http)
        }
    } else {
        Err(ErrorKind::InvalidInput)
    }
}

} // verus!
