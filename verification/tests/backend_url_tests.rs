use obstore::aws::{bucket, parse_s3_key, s3_config_from_url, S3Key};
use obstore::azure::{azure_config_from_url, container_name, parse_azure_key, AzureKey};
use obstore::config::ConfigMap;
use obstore::error::ErrorKind;
use obstore::url::{classify_url, PyUrl, StoreScheme, UrlParts};

fn url(scheme: &str, username: &str, host: Option<&str>, segments: &[&str]) -> UrlParts {
    UrlParts {
        scheme: scheme.to_string(),
        username: username.to_string(),
        host: host.map(|h| h.to_string()),
        path_segments: segments.iter().map(|s| s.to_string()).collect(),
    }
}

#[test]
fn pyurl_round_trips_its_parts() {
    let parts = url("s3", "", Some("my-bucket"), &[]);
    let wrapped = PyUrl::new(parts.clone());
    assert_eq!(wrapped.as_parts(), &parts);
    assert_eq!(wrapped.into_inner(), parts);
}

#[test]
fn s3_key_aliases() {
    assert_eq!(parse_s3_key("bucket"), Ok(S3Key::Bucket));
    assert_eq!(parse_s3_key("AWS_BUCKET_NAME"), Ok(S3Key::Bucket));
    assert_eq!(parse_s3_key("aws_access_key_id"), Ok(S3Key::AccessKeyId));
    assert_eq!(parse_s3_key("Region"), Ok(S3Key::Region));
    assert_eq!(parse_s3_key("endpoint_url"), Ok(S3Key::Endpoint));
    assert_eq!(parse_s3_key("session_token"), Ok(S3Key::Token));
    assert_eq!(parse_s3_key("whatever"), Err(ErrorKind::UnknownConfigurationKey));
}

#[test]
fn s3_scheme_url_names_the_bucket() {
    let cfg = s3_config_from_url(None, &url("s3", "", Some("my-bucket"), &["prefix"])).unwrap();
    assert_eq!(cfg.get(S3Key::Bucket.code()).map(|s| s.as_str()), Some("my-bucket"));
    assert_eq!(bucket(&cfg).as_str(), "my-bucket");
}

#[test]
fn s3_path_style_https_url() {
    let u = url("https", "", Some("s3.us-east-2.amazonaws.com"), &["the-bucket", "key"]);
    let cfg = s3_config_from_url(None, &u).unwrap();
    assert_eq!(cfg.get(S3Key::Region.code()).map(|s| s.as_str()), Some("us-east-2"));
    assert_eq!(cfg.get(S3Key::Bucket.code()).map(|s| s.as_str()), Some("the-bucket"));
}

#[test]
fn s3_virtual_hosted_https_url() {
    let u = url("https", "", Some("the-bucket.s3.eu-west-1.amazonaws.com"), &[]);
    let cfg = s3_config_from_url(None, &u).unwrap();
    assert_eq!(cfg.get(S3Key::Bucket.code()).map(|s| s.as_str()), Some("the-bucket"));
    assert_eq!(cfg.get(S3Key::Region.code()).map(|s| s.as_str()), Some("eu-west-1"));
    assert_eq!(
        cfg.get(S3Key::VirtualHostedStyleRequest.code()).map(|s| s.as_str()),
        Some("true")
    );
}

#[test]
fn s3_r2_https_url_sets_endpoint() {
    let u = url("https", "", Some("acct.r2.cloudflarestorage.com"), &["the-bucket"]);
    let cfg = s3_config_from_url(None, &u).unwrap();
    assert_eq!(cfg.get(S3Key::Region.code()).map(|s| s.as_str()), Some("auto"));
    assert_eq!(
        cfg.get(S3Key::Endpoint.code()).map(|s| s.as_str()),
        Some("https://acct.r2.cloudflarestorage.com")
    );
    assert_eq!(cfg.get(S3Key::Bucket.code()).map(|s| s.as_str()), Some("the-bucket"));
}

#[test]
fn s3_url_never_overrides_explicit_config() {
    let mut base = ConfigMap::new();
    base.insert_raising_if_exists(S3Key::Bucket.code(), "explicit".to_string()).unwrap();
    let cfg = s3_config_from_url(Some(base), &url("s3", "", Some("from-url"), &[])).unwrap();
    assert_eq!(cfg.get(S3Key::Bucket.code()).map(|s| s.as_str()), Some("explicit"));
}

#[test]
fn s3_unrecognised_urls_are_rejected() {
    assert!(s3_config_from_url(None, &url("https", "", Some("example.com"), &[])).is_err());
    assert!(s3_config_from_url(None, &url("gs", "", Some("bucket"), &[])).is_err());
    assert!(s3_config_from_url(None, &url("s3", "", None, &[])).is_err());
}

#[test]
fn azure_key_aliases() {
    assert_eq!(parse_azure_key("container_name"), Ok(AzureKey::ContainerName));
    assert_eq!(parse_azure_key("Azure_Storage_Account_Name"), Ok(AzureKey::AccountName));
    assert_eq!(parse_azure_key("account_key"), Ok(AzureKey::AccountKey));
    assert_eq!(parse_azure_key("use_fabric_endpoint"), Ok(AzureKey::UseFabricEndpoint));
    assert_eq!(parse_azure_key("nope"), Err(ErrorKind::UnknownConfigurationKey));
}

#[test]
fn azure_scheme_url_names_the_container() {
    let cfg = azure_config_from_url(None, &url("az", "", Some("my-container"), &[])).unwrap();
    assert_eq!(cfg.get(AzureKey::ContainerName.code()).map(|s| s.as_str()), Some("my-container"));
    assert_eq!(container_name(&cfg).as_str(), "my-container");
}

#[test]
fn azure_host_with_dot_is_rejected_for_az_scheme() {
    assert!(azure_config_from_url(None, &url("az", "", Some("has.dot"), &[])).is_err());
}

#[test]
fn azure_abfss_hadoop_convention() {
    let u = url("abfss", "my-container", Some("acct.dfs.core.windows.net"), &["path"]);
    let cfg = azure_config_from_url(None, &u).unwrap();
    assert_eq!(cfg.get(AzureKey::ContainerName.code()).map(|s| s.as_str()), Some("my-container"));
    assert_eq!(cfg.get(AzureKey::AccountName.code()).map(|s| s.as_str()), Some("acct"));
}

#[test]
fn azure_https_blob_url() {
    let u = url("https", "", Some("acct.blob.core.windows.net"), &["my-container", "blob"]);
    let cfg = azure_config_from_url(None, &u).unwrap();
    assert_eq!(cfg.get(AzureKey::AccountName.code()).map(|s| s.as_str()), Some("acct"));
    assert_eq!(cfg.get(AzureKey::ContainerName.code()).map(|s| s.as_str()), Some("my-container"));
}

#[test]
fn azure_https_fabric_url_switches_fabric_endpoint_on() {
    let u = url("https", "", Some("onelake.dfs.fabric.microsoft.com"), &["workspace", "item"]);
    let cfg = azure_config_from_url(None, &u).unwrap();
    assert_eq!(cfg.get(AzureKey::AccountName.code()).map(|s| s.as_str()), Some("onelake"));
    assert_eq!(cfg.get(AzureKey::ContainerName.code()).map(|s| s.as_str()), Some("workspace"));
    assert_eq!(cfg.get(AzureKey::UseFabricEndpoint.code()).map(|s| s.as_str()), Some("true"));
}

#[test]
fn azure_unknown_scheme_is_rejected() {
    assert!(azure_config_from_url(None, &url("ftp", "", Some("host"), &[])).is_err());
}

#[test]
fn url_classification_by_scheme() {
    assert_eq!(classify_url(&url("file", "", None, &[])), Ok(StoreScheme::Local));
    assert_eq!(classify_url(&url("memory", "", None, &[])), Ok(StoreScheme::Memory));
    assert_eq!(classify_url(&url("s3", "", Some("b"), &[])), Ok(StoreScheme::AmazonS3));
    assert_eq!(classify_url(&url("gs", "", Some("b"), &[])), Ok(StoreScheme::GoogleCloudStorage));
    assert_eq!(classify_url(&url("abfs", "", Some("c"), &[])), Ok(StoreScheme::MicrosoftAzure));
    assert_eq!(classify_url(&url("http", "", Some("example.com"), &[])), Ok(StoreScheme::Http));
}

#[test]
fn url_classification_of_https_hosts() {
    assert_eq!(
        classify_url(&url("https", "", Some("acct.blob.core.windows.net"), &[])),
        Ok(StoreScheme::MicrosoftAzure)
    );
    assert_eq!(
        classify_url(&url("https", "", Some("s3.us-east-1.amazonaws.com"), &[])),
        Ok(StoreScheme::AmazonS3)
    );
    assert_eq!(
        classify_url(&url("https", "", Some("acct.r2.cloudflarestorage.com"), &[])),
        Ok(StoreScheme::AmazonS3)
    );
    assert_eq!(
        classify_url(&url("https", "", Some("example.com"), &[])),
        Ok(StoreScheme::Http)
    );
}

#[test]
fn url_without_host_for_remote_scheme_is_rejected() {
    assert_eq!(classify_url(&url("s3", "", None, &[])), Err(ErrorKind::InvalidInput));
    assert_eq!(classify_url(&url("file", "", Some("h"), &[])), Err(ErrorKind::InvalidInput));
}

#[test]
fn s3_config_assembly_records_the_bucket() {
    let cfg =
        obstore::aws::assemble_s3_config(Some("the-bucket".to_string()), None, None).unwrap();
    assert_eq!(cfg.get(S3Key::Bucket.code()).map(|s| s.as_str()), Some("the-bucket"));
}

#[test]
fn s3_config_assembly_rejects_a_second_bucket() {
    let mut base = ConfigMap::new();
    base.insert_raising_if_exists(S3Key::Bucket.code(), "one".to_string()).unwrap();
    let r = obstore::aws::assemble_s3_config(Some("two".to_string()), Some(base), None);
    assert_eq!(r.err(), Some(ErrorKind::Generic));
}

#[test]
fn s3_config_assembly_merges_kwargs() {
    let mut kwargs = ConfigMap::new();
    kwargs.insert_raising_if_exists(S3Key::Region.code(), "us-east-1".to_string()).unwrap();
    let cfg = obstore::aws::assemble_s3_config(Some("b".to_string()), None, Some(kwargs)).unwrap();
    assert_eq!(cfg.get(S3Key::Region.code()).map(|s| s.as_str()), Some("us-east-1"));
    assert_eq!(cfg.get(S3Key::Bucket.code()).map(|s| s.as_str()), Some("b"));
}

#[test]
fn azure_config_assembly_records_the_container() {
    let cfg = obstore::azure::assemble_azure_config(Some("files".to_string()), None, None)
        .unwrap();
    assert_eq!(cfg.get(AzureKey::ContainerName.code()).map(|s| s.as_str()), Some("files"));
    let r = obstore::azure::assemble_azure_config(
        Some("other".to_string()),
        Some(cfg),
        None,
    );
    assert_eq!(r.err(), Some(ErrorKind::Generic));
}
