//! The S3 backend's enumerated configuration keys, and the mapping from
//! an S3 URL onto configuration entries.

use vstd::prelude::*;
use vstd::string::StringExecFns;

use crate::config::{combine_config_kwargs, ConfigMap};
use crate::error::ErrorKind;
use crate::text::{find_char, find_idx, lower, str_eq, substring, to_ascii_lower};
use crate::url::UrlParts;

verus! {

/// A configuration key recognised by the S3 backend.
#[derive(Clone, Copy, Debug, PartialEq, Eq, Structural)]
pub enum S3Key {
    AccessKeyId,
    SecretAccessKey,
    Region,
    Bucket,
    Endpoint,
    Token,
    VirtualHostedStyleRequest,
}

impl S3Key {
    /// The distinct code under which this key is stored in a
    /// configuration map.
    pub open spec fn code_spec(self) -> u64 {
        match self {
            S3Key::AccessKeyId => 1,
            S3Key::SecretAccessKey => 2,
            S3Key::Region => 3,
            S3Key::Bucket => 4,
            S3Key::Endpoint => 5,
            S3Key::Token => 6,
            S3Key::VirtualHostedStyleRequest => 7,
        }
    }

    /// The key's code.
    pub fn code(&self) -> (r: u64)
        ensures
            r == self.code_spec(),
    {
        match self {
            S3Key::AccessKeyId => 1,
            S3Key::SecretAccessKey => 2,
            S3Key::Region => 3,
            S3Key::Bucket => 4,
            S3Key::Endpoint => 5,
            S3Key::Token => 6,
            S3Key::VirtualHostedStyleRequest => 7,
        }
    }
}

/// The key that a lowercased configuration-key text names, if any: each
/// key is accepted under its plain name and under an `aws_`-prefixed
/// alias, as the S3 ecosystem writes them.
pub open spec fn spec_parse_s3_key(t: Seq<char>) -> Result<S3Key, ErrorKind> {
    if t == "aws_access_key_id"@ || t == "access_key_id"@ {
        Ok(S3Key::AccessKeyId)
    } else if t == "aws_secret_access_key"@ || t == "secret_access_key"@ {
        Ok(S3Key::SecretAccessKey)
    } else if t == "aws_region"@ || t == "region"@ {
        Ok(S3Key::Region)
    } else if t == "aws_bucket"@ || t == "aws_bucket_name"@ || t == "bucket_name"@ || t
        == "bucket"@ {
        Ok(S3Key::Bucket)
    } else if t == "aws_endpoint_url"@ || t == "aws_endpoint"@ || t == "endpoint_url"@ || t
        == "endpoint"@ {
        Ok(S3Key::Endpoint)
    } else if t == "aws_session_token"@ || t == "aws_token"@ || t == "session_token"@ || t
        == "token"@ {
        Ok(S3Key::Token)
    } else if t == "aws_virtual_hosted_style_request"@ || t == "virtual_hosted_style_request"@ {
        Ok(S3Key::VirtualHostedStyleRequest)
    } else {
        Err(ErrorKind::UnknownConfigurationKey)
    }
}

/// Parse a configuration-key text for the S3 backend, ignoring ASCII
/// case. Unrecognised keys are rejected with `UnknownConfigurationKey`.
pub fn parse_s3_key(s: &str) -> (r: Result<S3Key, ErrorKind>)
    ensures
        r == spec_parse_s3_key(lower(s@)),
{
    let low = to_ascii_lower(s);
    let t = low.as_str();
    if str_eq(t, "aws_access_key_id") || str_eq(t, "access_key_id") {
        Ok(S3Key::AccessKeyId)
    } else if str_eq(t, "aws_secret_access_key") || str_eq(t, "secret_access_key") {
        Ok(S3Key::SecretAccessKey)
    } else if str_eq(t, "aws_region") || str_eq(t, "region") {
        Ok(S3Key::Region)
    } else if str_eq(t, "aws_bucket") || str_eq(t, "aws_bucket_name") || str_eq(t, "bucket_name")
        || str_eq(t, "bucket") {
        Ok(S3Key::Bucket)
    } else if str_eq(t, "aws_endpoint_url") || str_eq(t, "aws_endpoint") || str_eq(
        t,
        "endpoint_url",
    ) || str_eq(t, "endpoint") {
        Ok(S3Key::Endpoint)
    } else if str_eq(t, "aws_session_token") || str_eq(t, "aws_token") || str_eq(
        t,
        "session_token",
    ) || str_eq(t, "token") {
        Ok(S3Key::Token)
    } else if str_eq(t, "aws_virtual_hosted_style_request") || str_eq(
        t,
        "virtual_hosted_style_request",
    ) {
        Ok(S3Key::VirtualHostedStyleRequest)
    } else {
        Err(ErrorKind::UnknownConfigurationKey)
    }
}

/// The bucket a configuration names. The configuration assembly always
/// records one, so a caller may rely on its presence.
pub fn bucket(config: &ConfigMap) -> (r: &String)
    requires
        config.wf(),
        config.view().dom().contains(S3Key::Bucket.code_spec()),
    ensures
        r@ == config.view()[S3Key::Bucket.code_spec()],
{
    match config.get(4) {
        Some(v) => v,
        None => vstd::pervasive::unreached(),
    }
}

/// Assemble the configuration of an S3 store from its constructor
/// arguments: a bucket argument is recorded under the bucket key —
/// failing with `Generic` if the configuration already names one — and
/// extra keyword configuration is merged in, failing with `Generic` on
/// any key configured twice.
pub fn assemble_s3_config(
    bucket: Option<String>,
    config: Option<ConfigMap>,
    kwargs: Option<ConfigMap>,
) -> (r: Result<ConfigMap, ErrorKind>)
    requires
        config is Some ==> config->0.wf(),
        kwargs is Some ==> kwargs->0.wf(),
    ensures
        r is Ok ==> r->Ok_0.wf(),
        r is Err ==> r == Err::<ConfigMap, ErrorKind>(ErrorKind::Generic),
        ({
            let cfg0 = match config {
                Some(c) => c.view(),
                None => Map::<u64, Seq<char>>::empty(),
            };
            match bucket {
                Some(b) => {
                    &&& cfg0.dom().contains(S3Key::Bucket.code_spec()) ==> r is Err
                    &&& (!cfg0.dom().contains(S3Key::Bucket.code_spec()) && r is Ok ==> {
                        let with_bucket = cfg0.insert(S3Key::Bucket.code_spec(), b@);
                        match kwargs {
                            Some(k) => with_bucket.dom().disjoint(k.view().dom())
                                && r->Ok_0.view() == with_bucket.union_prefer_right(k.view()),
                            None => r->Ok_0.view() == with_bucket,
                        }
                    })
                },
                None => r is Ok ==> match kwargs {
                    Some(k) => cfg0.dom().disjoint(k.view().dom()) && r->Ok_0.view()
                        == cfg0.union_prefer_right(k.view()),
                    None => r->Ok_0.view() == cfg0,
                },
            }
        }),
{
    let mut cfg = match config {
        Some(c) => c,
        None => ConfigMap::new(),
    };
    match bucket {
        Some(b) => {
            match cfg.insert_raising_if_exists(4, b) {
                Ok(_) => {},
                Err(e) => {
                    return Err(e);
                },
            }
        },
        None => {},
    }
    combine_config_kwargs(Some(cfg), kwargs)
}

/// Insert into `m` under `k` unless `k` is already present.
pub open spec fn ins_if_absent(m: Map<u64, Seq<char>>, k: u64, v: Seq<char>) -> Map<
    u64,
    Seq<char>,
> {
    if m.dom().contains(k) {
        m
    } else {
        m.insert(k, v)
    }
}

/// The host split at its first three dots: the three leading labels and
/// the remainder, which may itself contain dots. `None` if the host has
/// fewer than three dots.
pub open spec fn split_host4(h: Seq<char>) -> Option<(Seq<char>, Seq<char>, Seq<char>, Seq<char>)> {
    let i1 = find_idx(h, '.');
    if i1 < 0 {
        None
    } else {
        let r1 = h.skip(i1 + 1);
        let i2 = find_idx(r1, '.');
        if i2 < 0 {
            None
        } else {
            let r2 = r1.skip(i2 + 1);
            let i3 = find_idx(r2, '.');
            if i3 < 0 {
                None
            } else {
                Some((h.take(i1), r1.take(i2), r2.take(i3), r2.skip(i3 + 1)))
            }
        }
    }
}

/// Split a host at its first three dots.
fn split_host4_exec(h: &str) -> (r: Option<(String, String, String, String)>)
    ensures
        r is Some ==> split_host4(h@) == Some(
            ((r->0).0@, (r->0).1@, (r->0).2@, (r->0).3@),
        ),
        r is None ==> split_host4(h@) is None,
{
    let n = h.unicode_len();
    let i1 = match find_char(h, '.') {
        Some(i) => i,
        None => {
            return None;
        },
    };
    proof {
        crate::text::lemma_find_idx(h@, '.');
    }
    let p1 = substring(h, 0, i1);
    let rest1 = substring(h, i1 + 1, n);
    proof {
        assert(rest1@ =~= h@.skip(i1 + 1));
    }
    let n1 = rest1.as_str().unicode_len();
    let i2 = match find_char(rest1.as_str(), '.') {
        Some(i) => i,
        None => {
            return None;
        },
    };
    proof {
        crate::text::lemma_find_idx(rest1@, '.');
    }
    let p2 = substring(rest1.as_str(), 0, i2);
    let rest2 = substring(rest1.as_str(), i2 + 1, n1);
    proof {
        assert(rest2@ =~= rest1@.skip(i2 + 1));
    }
    let n2 = rest2.as_str().unicode_len();
    let i3 = match find_char(rest2.as_str(), '.') {
        Some(i) => i,
        None => {
            return None;
        },
    };
    proof {
        crate::text::lemma_find_idx(rest2@, '.');
    }
    let p3 = substring(rest2.as_str(), 0, i3);
    let rest3 = substring(rest2.as_str(), i3 + 1, n2);
    proof {
        assert(p1@ =~= h@.take(i1 as int));
        assert(p2@ =~= rest1@.take(i2 as int));
        assert(p3@ =~= rest2@.take(i3 as int));
        assert(rest3@ =~= rest2@.skip(i3 + 1));
    }
    Some((p1, p2, p3, rest3))
}

/// The configuration entries an S3 URL contributes, on top of `cfg`:
/// entries from the URL never override entries already present.
///
/// An `s3`/`s3a` URL names the bucket as its host. An `https` URL is
/// recognised in three host shapes: `s3.<region>.amazonaws.com` (with the
/// bucket as the first path segment, if any), the virtual-hosted
/// `<bucket>.s3.<region>.amazonaws.com`, and the Cloudflare R2 shape
/// `<account>.r2.cloudflarestorage.com` (again with the bucket as the
/// first path segment, if any). Anything else is rejected.
pub open spec fn spec_s3_url_config(
    cfg: Map<u64, Seq<char>>,
    scheme: Seq<char>,
    host: Option<Seq<char>>,
    path0: Option<Seq<char>>,
) -> Result<Map<u64, Seq<char>>, ErrorKind> {
    if host is None {
        Err(ErrorKind::InvalidInput)
    } else {
        let h = host->0;
        if scheme == "s3"@ || scheme == "s3a"@ {
            Ok(ins_if_absent(cfg, S3Key::Bucket.code_spec(), h))
        } else if scheme == "https"@ {
            match split_host4(h) {
                Some((p1, p2, p3, rest)) => {
                    if p1 == "s3"@ && p3 == "amazonaws"@ && rest == "com"@ {
                        let c1 = ins_if_absent(cfg, S3Key::Region.code_spec(), p2);
                        Ok(
                            match path0 {
                                Some(b) => ins_if_absent(c1, S3Key::Bucket.code_spec(), b),
                                None => c1,
                            },
                        )
                    } else if p2 == "s3"@ && rest == "amazonaws.com"@ {
                        let c1 = ins_if_absent(cfg, S3Key::Bucket.code_spec(), p1);
                        let c2 = ins_if_absent(c1, S3Key::Region.code_spec(), p3);
                        Ok(
                            ins_if_absent(
                                c2,
                                S3Key::VirtualHostedStyleRequest.code_spec(),
                                "true"@,
                            ),
                        )
                    } else if p2 == "r2"@ && p3 == "cloudflarestorage"@ && rest == "com"@ {
                        let c1 = ins_if_absent(cfg, S3Key::Region.code_spec(), "auto"@);
                        let endpoint = "https://"@ + p1 + ".r2.cloudflarestorage.com"@;
                        let c2 = ins_if_absent(c1, S3Key::Endpoint.code_spec(), endpoint);
                        Ok(
                            match path0 {
                                Some(b) => ins_if_absent(c2, S3Key::Bucket.code_spec(), b),
                                None => c2,
                            },
                        )
                    } else {
                        Err(ErrorKind::InvalidInput)
                    }
                },
                None => Err(ErrorKind::InvalidInput),
            }
        } else {
            Err(ErrorKind::InvalidInput)
        }
    }
}

/// Derive S3 configuration entries from a URL, on top of an optional
/// base configuration; parts of the URL never override configuration
/// passed explicitly.
pub fn s3_config_from_url(config: Option<ConfigMap>, url: &UrlParts) -> (r: Result<
    ConfigMap,
    ErrorKind,
>)
    requires
        config is Some ==> config->0.wf(),
    ensures
        ({
            let cfg0 = match config {
                Some(c) => c.view(),
                None => Map::<u64, Seq<char>>::empty(),
            };
            let expect = spec_s3_url_config(
                cfg0,
                url.scheme@,
                url.host_view(),
                url.first_segment_view(),
            );
            match r {
                Ok(c) => c.wf() && expect is Ok && c.view() == expect->Ok_0,
                Err(e) => expect == Err::<Map<u64, Seq<char>>, ErrorKind>(e),
            }
        }),
{
    let mut cfg = match config {
        Some(c) => c,
        None => ConfigMap::new(),
    };
    let host = match &url.host {
        Some(h) => h.as_str(),
        None => {
            return Err(ErrorKind::InvalidInput);
        },
    };
    let scheme = url.scheme.as_str();
    if str_eq(scheme, "s3") || str_eq(scheme, "s3a") {
        cfg.insert_if_not_exists(4, host.to_owned());
        Ok(cfg)
    } else if str_eq(scheme, "https") {
        match split_host4_exec(host) {
            Some((p1, p2, p3, rest)) => {
                if str_eq(p1.as_str(), "s3") && str_eq(p3.as_str(), "amazonaws") && str_eq(
                    rest.as_str(),
                    "com",
                ) {
                    cfg.insert_if_not_exists(3, p2);
                    if url.path_segments.len() > 0 {
                        let b = url.path_segments[0].clone();
                        proof {
                            assert(b@ == url.path_segments@[0]@);
                        }
                        cfg.insert_if_not_exists(4, b);
                    }
                    Ok(cfg)
                } else if str_eq(p2.as_str(), "s3") && str_eq(rest.as_str(), "amazonaws.com") {
                    cfg.insert_if_not_exists(4, p1);
                    cfg.insert_if_not_exists(3, p3);
                    cfg.insert_if_not_exists(7, "true".to_owned());
                    Ok(cfg)
                } else if str_eq(p2.as_str(), "r2") && str_eq(p3.as_str(), "cloudflarestorage")
                    && str_eq(rest.as_str(), "com") {
                    cfg.insert_if_not_exists(3, "auto".to_owned());
                    let endpoint = String::from_str("https://").concat(p1.as_str()).concat(
                        ".r2.cloudflarestorage.com",
                    );
                    cfg.insert_if_not_exists(5, endpoint);
                    if url.path_segments.len() > 0 {
                        let b = url.path_segments[0].clone();
                        proof {
                            assert(b@ == url.path_segments@[0]@);
                        }
                        cfg.insert_if_not_exists(4, b);
                    }
                    Ok(cfg)
                } else {
                    Err(ErrorKind::InvalidInput)
                }
            },
            None => Err(ErrorKind::InvalidInput),
        }
    } else {
        Err(ErrorKind::InvalidInput)
    }
}

} // verus!
