use obstore::config::{combine_config_kwargs, config_value, ConfigInput, ConfigMap};
use obstore::error::ErrorKind;

#[test]
fn config_insert_and_get() {
    let mut cfg = ConfigMap::new();
    assert_eq!(cfg.len(), 0);
    cfg.insert_raising_if_exists(4, "my-bucket".to_string()).unwrap();
    assert_eq!(cfg.len(), 1);
    assert_eq!(cfg.get(4).map(|s| s.as_str()), Some("my-bucket"));
    assert!(cfg.contains_key(4));
    assert!(!cfg.contains_key(3));
    assert_eq!(cfg.get(3), None);
}

#[test]
fn config_duplicate_key_is_rejected() {
    let mut cfg = ConfigMap::new();
    cfg.insert_raising_if_exists(4, "one".to_string()).unwrap();
    assert_eq!(cfg.insert_raising_if_exists(4, "two".to_string()), Err(ErrorKind::Generic));
    // The rejected insert leaves the map unchanged.
    assert_eq!(cfg.get(4).map(|s| s.as_str()), Some("one"));
}

#[test]
fn config_insert_if_not_exists_never_overrides() {
    let mut cfg = ConfigMap::new();
    cfg.insert_if_not_exists(3, "us-east-1".to_string());
    cfg.insert_if_not_exists(3, "eu-west-1".to_string());
    assert_eq!(cfg.get(3).map(|s| s.as_str()), Some("us-east-1"));
}

#[test]
fn config_merge_of_disjoint_maps() {
    let mut a = ConfigMap::new();
    a.insert_raising_if_exists(1, "key".to_string()).unwrap();
    let mut b = ConfigMap::new();
    b.insert_raising_if_exists(2, "secret".to_string()).unwrap();
    let merged = a.merge(b).unwrap();
    assert_eq!(merged.get(1).map(|s| s.as_str()), Some("key"));
    assert_eq!(merged.get(2).map(|s| s.as_str()), Some("secret"));
}

#[test]
fn config_merge_with_overlap_is_rejected() {
    let mut a = ConfigMap::new();
    a.insert_raising_if_exists(1, "key".to_string()).unwrap();
    let mut b = ConfigMap::new();
    b.insert_raising_if_exists(1, "other".to_string()).unwrap();
    assert_eq!(a.merge(b).err(), Some(ErrorKind::Generic));
}

#[test]
fn combine_handles_all_four_shapes() {
    let mut a = ConfigMap::new();
    a.insert_raising_if_exists(1, "x".to_string()).unwrap();
    let mut b = ConfigMap::new();
    b.insert_raising_if_exists(2, "y".to_string()).unwrap();
    assert_eq!(combine_config_kwargs(None, None).unwrap().len(), 0);
    assert_eq!(combine_config_kwargs(Some(a.clone()), None).unwrap().len(), 1);
    assert_eq!(combine_config_kwargs(None, Some(b.clone())).unwrap().len(), 1);
    let both = combine_config_kwargs(Some(a), Some(b)).unwrap();
    assert_eq!(both.len(), 2);
}

#[test]
fn bool_config_values() {
    assert_eq!(config_value(ConfigInput::Bool(true)), "true");
    assert_eq!(config_value(ConfigInput::Bool(false)), "false");
}

#[test]
fn duration_config_values_use_humantime_rendering() {
    assert_eq!(config_value(ConfigInput::Duration { secs: 2, nanos: 0 }), "2s");
    assert_eq!(config_value(ConfigInput::Duration { secs: 0, nanos: 0 }), "0s");
    assert_eq!(config_value(ConfigInput::Duration { secs: 90, nanos: 0 }), "1m 30s");
}

#[test]
fn text_config_values_pass_through() {
    assert_eq!(config_value(ConfigInput::Text("as-is".to_string())), "as-is");
}
