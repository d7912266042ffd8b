//! The Azure backend's enumerated configuration keys, and the mapping
//! from an Azure URL onto configuration entries.

use vstd::prelude::*;

use crate::config::{combine_config_kwargs, ConfigMap};
use crate::error::ErrorKind;
use crate::text::{contains_char, ends_with, find_char, find_idx, has_suffix, lower, str_eq,
    substring, to_ascii_lower};
use crate::url::UrlParts;

verus! {

/// A configuration key recognised by the Azure backend.
#[derive(Clone, Copy, Debug, PartialEq, Eq, Structural)]
pub enum AzureKey {
    ContainerName,
    AccountName,
    AccountKey,
    UseFabricEndpoint,
}

impl AzureKey {
    /// The distinct code under which this key is stored in a
    /// configuration map.
    pub open spec fn code_spec(self) -> u64 {
        match self {
            AzureKey::ContainerName => 101,
            AzureKey::AccountName => 102,
            AzureKey::AccountKey => 103,
            AzureKey::UseFabricEndpoint => 104,
        }
    }

    /// The key's code.
    pub fn code(&self) -> (r: u64)
        ensures
            r == self.code_spec(),
    {
        match self {
            AzureKey::ContainerName => 101,
            AzureKey::AccountName => 102,
            AzureKey::AccountKey => 103,
            AzureKey::UseFabricEndpoint => 104,
        }
    }
}

/// The key that a lowercased configuration-key text names, if any.
pub open spec fn spec_parse_azure_key(t: Seq<char>) -> Result<AzureKey, ErrorKind> {
    if t == "azure_container_name"@ || t == "container_name"@ {
        Ok(AzureKey::ContainerName)
    } else if t == "azure_storage_account_name"@ || t == "account_name"@ {
        Ok(AzureKey::AccountName)
    } else if t == "azure_storage_account_key"@ || t == "account_key"@ || t == "access_key"@ {
        Ok(AzureKey::AccountKey)
    } else if t == "azure_use_fabric_endpoint"@ || t == "use_fabric_endpoint"@ {
        Ok(AzureKey::UseFabricEndpoint)
    } else {
        Err(ErrorKind::UnknownConfigurationKey)
    }
}

/// Parse a configuration-key text for the Azure backend, ignoring ASCII
/// case. Unrecognised keys are rejected with `UnknownConfigurationKey`.
pub fn parse_azure_key(s: &str) -> (r: Result<AzureKey, ErrorKind>)
    ensures
        r == spec_parse_azure_key(lower(s@)),
{
    let low = to_ascii_lower(s);
    let t = low.as_str();
    if str_eq(t, "azure_container_name") || str_eq(t, "container_name") {
        Ok(AzureKey::ContainerName)
    } else if str_eq(t, "azure_storage_account_name") || str_eq(t, "account_name") {
        Ok(AzureKey::AccountName)
    } else if str_eq(t, "azure_storage_account_key") || str_eq(t, "account_key") || str_eq(
        t,
        "access_key",
    ) {
        Ok(AzureKey::AccountKey)
    } else if str_eq(t, "azure_use_fabric_endpoint") || str_eq(t, "use_fabric_endpoint") {
        Ok(AzureKey::UseFabricEndpoint)
    } else {
        Err(ErrorKind::UnknownConfigurationKey)
    }
}

/// The container a configuration names. The configuration assembly
/// always records one, so a caller may rely on its presence.
pub fn container_name(config: &ConfigMap) -> (r: &String)
    requires
        config.wf(),
        config.view().dom().contains(AzureKey::ContainerName.code_spec()),
    ensures
        r@ == config.view()[AzureKey::ContainerName.code_spec()],
{
    match config.get(101) {
        Some(v) => v,
        None => vstd::pervasive::unreached(),
    }
}

/// Assemble the configuration of an Azure store from its constructor
/// arguments: a container argument is recorded under the container key —
/// failing with `Generic` if the configuration already names one — and
/// extra keyword configuration is merged in, failing with `Generic` on
/// any key configured twice.
pub fn assemble_azure_config(
    container: Option<String>,
    config: Option<ConfigMap>,
    kwargs: Option<ConfigMap>,
) -> (r: Result<ConfigMap, ErrorKind>)
    requires
        config is Some ==> config->0.wf(),
        kwargs is Some ==> kwargs->0.wf(),
    ensures
        r is Ok ==> r->Ok_0.wf(),
        r is Err ==> r == Err::<ConfigMap, ErrorKind>(ErrorKind::Generic),
        ({
            let cfg0 = match config {
                Some(c) => c.view(),
                None => Map::<u64, Seq<char>>::empty(),
            };
            match container {
                Some(c) => {
                    &&& cfg0.dom().contains(AzureKey::ContainerName.code_spec()) ==> r is Err
                    &&& (!cfg0.dom().contains(AzureKey::ContainerName.code_spec()) && r is Ok
                        ==> {
                        let with_container = cfg0.insert(AzureKey::ContainerName.code_spec(), c@);
                        match kwargs {
                            Some(k) => with_container.dom().disjoint(k.view().dom())
                                && r->Ok_0.view() == with_container.union_prefer_right(k.view()),
                            None => r->Ok_0.view() == with_container,
                        }
                    })
                },
                None => r is Ok ==> match kwargs {
                    Some(k) => cfg0.dom().disjoint(k.view().dom()) && r->Ok_0.view()
                        == cfg0.union_prefer_right(k.view()),
                    None => r->Ok_0.view() == cfg0,
                },
            }
        }),
{
    let mut cfg = match config {
        Some(c) => c,
        None => ConfigMap::new(),
    };
    match container {
        Some(c) => {
            match cfg.insert_raising_if_exists(101, c) {
                Ok(_) => {},
                Err(e) => {
                    return Err(e);
                },
            }
        },
        None => {},
    }
    combine_config_kwargs(Some(cfg), kwargs)
}

/// Insert into `m` under `k` unless `k` is already present.
pub open spec fn ins_if_absent(m: Map<u64, Seq<char>>, k: u64, v: Seq<char>) -> Map<
    u64,
    Seq<char>,
> {
    if m.dom().contains(k) {
        m
    } else {
        m.insert(k, v)
    }
}

/// The configuration entries an Azure URL contributes, on top of `cfg`.
///
/// An `az`/`adl`/`azure` URL names the container as its host, which must
/// be a bare label without dots. An `abfs`/`abfss` URL either follows the
/// same convention, or — with a username present — the Hadoop convention
/// `container@account.dfs.core.windows.net` or its Fabric counterpart.
/// An `https` URL is recognised with a `dfs`/`blob` host under
/// `core.windows.net` (container from the first path segment) or under
/// `fabric.microsoft.com` (workspace from the first nonempty path
/// segment, Fabric endpoint switched on). Anything else is rejected.
pub open spec fn spec_azure_url_config(
    cfg: Map<u64, Seq<char>>,
    scheme: Seq<char>,
    host: Option<Seq<char>>,
    username: Seq<char>,
    path0: Option<Seq<char>>,
) -> Result<Map<u64, Seq<char>>, ErrorKind> {
    if host is None {
        Err(ErrorKind::InvalidInput)
    } else {
        let h = host->0;
        let container_code = AzureKey::ContainerName.code_spec();
        let account_code = AzureKey::AccountName.code_spec();
        let fabric_code = AzureKey::UseFabricEndpoint.code_spec();
        if scheme == "az"@ || scheme == "adl"@ || scheme == "azure"@ {
            if h.contains('.') {
                Err(ErrorKind::InvalidInput)
            } else {
                Ok(ins_if_absent(cfg, container_code, h))
            }
        } else if scheme == "abfs"@ || scheme == "abfss"@ {
            if username.len() == 0 {
                if h.contains('.') {
                    Err(ErrorKind::InvalidInput)
                } else {
                    Ok(ins_if_absent(cfg, container_code, h))
                }
            } else if ends_with(h, ".dfs.core.windows.net"@) {
                let a = h.take(h.len() - ".dfs.core.windows.net"@.len());
                if username.contains('.') || a.contains('.') {
                    Err(ErrorKind::InvalidInput)
                } else {
                    Ok(ins_if_absent(ins_if_absent(cfg, container_code, username), account_code, a))
                }
            } else if ends_with(h, ".dfs.fabric.microsoft.com"@) {
                let a = h.take(h.len() - ".dfs.fabric.microsoft.com"@.len());
                if username.contains('.') || a.contains('.') {
                    Err(ErrorKind::InvalidInput)
                } else {
                    Ok(
                        ins_if_absent(
                            ins_if_absent(
                                ins_if_absent(cfg, container_code, username),
                                account_code,
                                a,
                            ),
                            fabric_code,
                            "true"@,
                        ),
                    )
                }
            } else {
                Err(ErrorKind::InvalidInput)
            }
        } else if scheme == "https"@ {
            let i = find_idx(h, '.');
            if i < 0 {
                Err(ErrorKind::InvalidInput)
            } else {
                let a = h.take(i);
                let rest = h.skip(i + 1);
                if rest == "dfs.core.windows.net"@ || rest == "blob.core.windows.net"@ {
                    let c1 = ins_if_absent(cfg, account_code, a);
                    match path0 {
                        Some(c) => if c.contains('.') {
                            Err(ErrorKind::InvalidInput)
                        } else {
                            Ok(ins_if_absent(c1, container_code, c))
                        },
                        None => Ok(c1),
                    }
                } else if rest == "dfs.fabric.microsoft.com"@ || rest
                    == "blob.fabric.microsoft.com"@ {
                    let c1 = ins_if_absent(cfg, account_code, a);
                    let c2 = match path0 {
                        Some(w) => if w.len() > 0 {
                            ins_if_absent(c1, container_code, w)
                        } else {
                            c1
                        },
                        None => c1,
                    };
                    Ok(ins_if_absent(c2, fabric_code, "true"@))
                } else {
                    Err(ErrorKind::InvalidInput)
                }
            }
        } else {
            Err(ErrorKind::InvalidInput)
        }
    }
}

/// Derive Azure configuration entries from a URL, on top of an optional
/// base configuration; parts of the URL never override configuration
/// passed explicitly.
pub fn azure_config_from_url(config: Option<ConfigMap>, url: &UrlParts) -> (r: Result<
    ConfigMap,
    ErrorKind,
>)
    requires
        config is Some ==> config->0.wf(),
    ensures
        ({
            let cfg0 = match config {
                Some(c) => c.view(),
                None => Map::<u64, Seq<char>>::empty(),
            };
            let expect = spec_azure_url_config(
                cfg0,
                url.scheme@,
                url.host_view(),
                url.username@,
                url.first_segment_view(),
            );
            match r {
                Ok(c) => c.wf() && expect is Ok && c.view() == expect->Ok_0,
                Err(e) => expect == Err::<Map<u64, Seq<char>>, ErrorKind>(e),
            }
        }),
{
    let mut cfg = match config {
        Some(c) => c,
        None => ConfigMap::new(),
    };
    let host = match &url.host {
        Some(h) => h.as_str(),
        None => {
            return Err(ErrorKind::InvalidInput);
        },
    };
    let scheme = url.scheme.as_str();
    if str_eq(scheme, "az") || str_eq(scheme, "adl") || str_eq(scheme, "azure") {
        if contains_char(host, '.') {
            return Err(ErrorKind::InvalidInput);
        }
        cfg.insert_if_not_exists(101, host.to_owned());
        Ok(cfg)
    } else if str_eq(scheme, "abfs") || str_eq(scheme, "abfss") {
        if url.username.as_str().is_empty() {
            if contains_char(host, '.') {
                return Err(ErrorKind::InvalidInput);
            }
            cfg.insert_if_not_exists(101, host.to_owned());
            Ok(cfg)
        } else if has_suffix(host, ".dfs.core.windows.net") {
            let n = host.unicode_len();
            let m = ".dfs.core.windows.net".unicode_len();
            proof {
                reveal_strlit(".dfs.core.windows.net");
            }
            let a = substring(host, 0, n - m);
            if contains_char(url.username.as_str(), '.') || contains_char(a.as_str(), '.') {
                return Err(ErrorKind::InvalidInput);
            }
            cfg.insert_if_not_exists(101, url.username.clone());
            cfg.insert_if_not_exists(102, a);
            Ok(cfg)
        } else if has_suffix(host, ".dfs.fabric.microsoft.com") {
            let n = host.unicode_len();
            let m = ".dfs.fabric.microsoft.com".unicode_len();
            proof {
                reveal_strlit(".dfs.fabric.microsoft.com");
            }
            let a = substring(host, 0, n - m);
            if contains_char(url.username.as_str(), '.') || contains_char(a.as_str(), '.') {
                return Err(ErrorKind::InvalidInput);
            }
            cfg.insert_if_not_exists(101, url.username.clone());
            cfg.insert_if_not_exists(102, a);
            cfg.insert_if_not_exists(104, "true".to_owned());
            Ok(cfg)
        } else {
            Err(ErrorKind::InvalidInput)
        }
    } else if str_eq(scheme, "https") {
        let n = host.unicode_len();
        let i = match find_char(host, '.') {
            Some(i) => i,
            None => {
                return Err(ErrorKind::InvalidInput);
            },
        };
        proof {
            crate::text::lemma_find_idx(host@, '.');
        }
        let a = substring(host, 0, i);
        let rest = substring(host, i + 1, n);
        proof {
            assert(a@ =~= host@.take(i as int));
            assert(rest@ =~= host@.skip(i + 1));
        }
        if str_eq(rest.as_str(), "dfs.core.windows.net") || str_eq(
            rest.as_str(),
            "blob.core.windows.net",
        ) {
            cfg.insert_if_not_exists(102, a);
            if url.path_segments.len() > 0 {
                let c = url.path_segments[0].clone();
                proof {
                    assert(c@ == url.path_segments@[0]@);
                }
                if contains_char(c.as_str(), '.') {
                    return Err(ErrorKind::InvalidInput);
                }
                cfg.insert_if_not_exists(101, c);
            }
            Ok(cfg)
        } else if str_eq(rest.as_str(), "dfs.fabric.microsoft.com") || str_eq(
            rest.as_str(),
            "blob.fabric.microsoft.com",
        ) {
            cfg.insert_if_not_exists(102, a);
            if url.path_segments.len() > 0 {
                let w = url.path_segments[0].clone();
                proof {
                    assert(w@ == url.path_segments@[0]@);
                }
                if !w.as_str().is_empty() {
                    cfg.insert_if_not_exists(101, w);
                }
            }
            cfg.insert_if_not_exists(104, "true".to_owned());
            Ok(cfg)
        } else {
            Err(ErrorKind::InvalidInput)
        }
    } else {
        Err(ErrorKind::InvalidInput)
    }
}

} // verus!
