//! The Data API binding's configuration.

use wasmcloud_plugins::data_api::config::{parse_endpoint, Binding};
use wasmcloud_plugins::settings::DEFAULT_TIMEOUT_MS;

fn config(pairs: &[(&str, &str)]) -> Vec<(String, String)> {
    pairs.iter().map(|(k, v)| ((*k).to_string(), (*v).to_string())).collect()
}

fn minimal() -> Vec<(String, String)> {
    config(&[
        ("endpoint", "https://abc.data.cloud.couchbase.com"),
        ("bucket", "travel-sample"),
        ("username", "app"),
        ("password", "s3cret"),
    ])
}

#[test]
fn accepts_a_minimal_config_and_defaults_the_rest() {
    let binding = Binding::from_config(&minimal()).unwrap();
    assert!(binding.secure);
    assert_eq!(binding.authority, "abc.data.cloud.couchbase.com");
    assert_eq!(binding.base_path, "");
    assert_eq!(binding.bucket, "travel-sample");
    assert_eq!(binding.scope, "_default");
    assert_eq!(binding.collection, "_default");
    assert_eq!(binding.timeout_ms, DEFAULT_TIMEOUT_MS);
}

#[test]
fn builds_a_basic_authorization_header() {
    let binding = Binding::from_config(&minimal()).unwrap();
    assert_eq!(binding.authorization, "Basic YXBwOnMzY3JldA==");
}

#[test]
fn names_the_missing_key() {
    for missing in ["endpoint", "bucket", "username", "password"] {
        let pairs: Vec<_> = minimal().into_iter().filter(|(k, _)| k != missing).collect();
        let err = Binding::from_config(&pairs).unwrap_err();
        assert!(
            err.contains(missing),
            "error for a missing `{missing}` should name it, got: {err}"
        );
    }
}

#[test]
fn treats_a_blank_value_as_missing() {
    let mut pairs = minimal();
    pairs.push(("bucket".to_string(), "   ".to_string()));
    let pairs: Vec<_> =
        pairs.into_iter().filter(|(k, v)| k != "bucket" || v.trim().is_empty()).collect();
    let err = Binding::from_config(&pairs).unwrap_err();
    assert!(err.contains("bucket"), "got: {err}");
}

#[test]
fn parses_endpoint_forms() {
    assert_eq!(
        parse_endpoint("https://host.example:18093").unwrap(),
        (true, "host.example:18093".to_string(), String::new())
    );
    assert_eq!(
        parse_endpoint("http://127.0.0.1:8093").unwrap(),
        (false, "127.0.0.1:8093".to_string(), String::new())
    );
    assert_eq!(
        parse_endpoint("host.example").unwrap(),
        (true, "host.example".to_string(), String::new())
    );
    assert_eq!(
        parse_endpoint("https://host.example/data/").unwrap(),
        (true, "host.example".to_string(), "/data".to_string())
    );
}

#[test]
fn rejects_unusable_endpoints() {
    assert!(parse_endpoint("ftp://host.example").is_err());
    assert!(parse_endpoint("https://").is_err());
}

#[test]
fn rejects_an_unparseable_or_zero_timeout() {
    let mut pairs = minimal();
    pairs.push(("timeout-ms".to_string(), "soon".to_string()));
    assert!(Binding::from_config(&pairs).unwrap_err().contains("timeout-ms"));

    let mut pairs = minimal();
    pairs.push(("timeout-ms".to_string(), "0".to_string()));
    assert!(Binding::from_config(&pairs).unwrap_err().contains("timeout-ms"));
}

#[test]
fn per_call_scope_and_collection_override_the_defaults() {
    let mut pairs = minimal();
    pairs.push(("scope".to_string(), "inventory".to_string()));
    pairs.push(("collection".to_string(), "airline".to_string()));
    let binding = Binding::from_config(&pairs).unwrap();

    assert_eq!(binding.scope_or_default(None), "inventory");
    assert_eq!(binding.scope_or_default(Some("tenant")), "tenant");
    assert_eq!(binding.scope_or_default(Some("")), "inventory");
    assert_eq!(binding.collection_or_default(None), "airline");
    assert_eq!(binding.collection_or_default(Some("hotel")), "hotel");
}

#[test]
fn a_per_call_timeout_replaces_the_binding_s() {
    let binding = Binding::from_config(&minimal()).unwrap();
    assert_eq!(binding.with_timeout_ns(None).timeout_ms, 30_000);
    assert_eq!(binding.with_timeout_ns(Some(0)).timeout_ms, 30_000);
    assert_eq!(binding.with_timeout_ns(Some(1)).timeout_ms, 1);
    assert_eq!(binding.with_timeout_ns(Some(1_500_000)).timeout_ms, 2);
    assert_eq!(binding.with_timeout_ns(Some(u64::MAX)).timeout_ms, u32::MAX);
    let other = binding.with_timeout_ms(7);
    assert_eq!(other.timeout_ms, 7);
    assert_eq!(other.authority, binding.authority);
    assert_eq!(other.authorization, binding.authorization);
}
