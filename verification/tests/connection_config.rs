//! The configuration of the two bindings that connect to a cluster node.

use wasmcloud_plugins::address::is_address_text;
use wasmcloud_plugins::kv_sdk::config as sdk;
use wasmcloud_plugins::settings::DEFAULT_TIMEOUT_MS;
use wasmcloud_plugins::sockets::config as socket;
use wasmcloud_plugins::sockets::config::{DEFAULT_KV_PORT, DEFAULT_QUERY_PORT};

fn config(pairs: &[(&str, &str)]) -> Vec<(String, String)> {
    pairs.iter().map(|(k, v)| ((*k).to_string(), (*v).to_string())).collect()
}

fn sdk_minimal() -> Vec<(String, String)> {
    config(&[
        ("endpoint", "couchbases://cb.abc.cloud.couchbase.com"),
        ("bucket", "travel-sample"),
        ("username", "app"),
        ("password", "s3cret"),
    ])
}

fn socket_minimal() -> Vec<(String, String)> {
    config(&[
        ("endpoint", "couchbase://10.0.0.4"),
        ("bucket", "travel-sample"),
        ("username", "app"),
        ("password", "s3cret"),
    ])
}

#[test]
fn splits_a_connection_string_into_its_parts() {
    assert_eq!(
        sdk::split_connection_string("couchbases://cb.example.com"),
        ("couchbases", "cb.example.com", "")
    );
    assert_eq!(
        sdk::split_connection_string("couchbase://10.0.0.4:11210"),
        ("couchbase", "10.0.0.4", ":11210")
    );
    assert_eq!(
        sdk::split_connection_string("couchbase://[::1]:11210"),
        ("couchbase", "[::1]", ":11210")
    );
}

#[test]
fn only_hostnames_need_resolving() {
    assert!(sdk::needs_resolution("cb.example.com"));
    assert!(!sdk::needs_resolution("10.0.0.4"));
    assert!(!sdk::needs_resolution("[::1]"));
    assert!(!sdk::needs_resolution("node1.example.com,node2.example.com"));
}

#[test]
fn config_accepts_a_minimal_config_and_defaults_the_rest() {
    let b = sdk::Binding::from_config(&sdk_minimal()).unwrap();
    assert_eq!(b.connection_string, "couchbases://cb.abc.cloud.couchbase.com");
    assert_eq!(b.scope, "_default");
    assert_eq!(b.collection, "_default");
    assert_eq!(b.timeout_ms, DEFAULT_TIMEOUT_MS);

    let b = socket::Binding::from_config(&socket_minimal()).unwrap();
    assert_eq!(b.host, "10.0.0.4");
    assert_eq!(b.port, DEFAULT_KV_PORT);
    assert_eq!(b.query_port, DEFAULT_QUERY_PORT);
    assert_eq!(b.scope, "_default");
    assert_eq!(b.collection, "_default");
    assert_eq!(b.timeout_ms, DEFAULT_TIMEOUT_MS);
}

#[test]
fn a_bare_host_becomes_tls_not_plaintext() {
    assert_eq!(
        sdk::normalize_connection_string("cb.abc.cloud.couchbase.com").unwrap(),
        "couchbases://cb.abc.cloud.couchbase.com"
    );
    assert_eq!(
        sdk::normalize_connection_string("couchbase://127.0.0.1").unwrap(),
        "couchbase://127.0.0.1"
    );
}

#[test]
fn an_http_endpoint_points_at_the_other_plugin() {
    let err = sdk::normalize_connection_string("https://abc.data.cloud.couchbase.com").unwrap_err();
    assert!(err.contains("Data API"), "got: {err}");
    assert!(err.contains("couchbases://"), "got: {err}");
}

#[test]
fn config_rejects_unusable_endpoints() {
    assert!(sdk::normalize_connection_string("ftp://host").is_err());
    assert!(sdk::normalize_connection_string("couchbases://").is_err());
    assert!(sdk::normalize_connection_string("").is_err());

    assert!(socket::parse_endpoint("ftp://host").is_err());
    assert!(socket::parse_endpoint("couchbase://").is_err());
    assert!(socket::parse_endpoint("couchbase://host:not-a-port").is_err());
}

#[test]
fn config_names_the_missing_key() {
    for missing in ["endpoint", "bucket", "username", "password"] {
        let pairs: Vec<_> = sdk_minimal().into_iter().filter(|(k, _)| k != missing).collect();
        let err = sdk::Binding::from_config(&pairs).unwrap_err();
        assert!(err.contains(missing), "error should name `{missing}`, got: {err}");

        let pairs: Vec<_> = socket_minimal().into_iter().filter(|(k, _)| k != missing).collect();
        let err = socket::Binding::from_config(&pairs).unwrap_err();
        assert!(err.contains(missing), "error should name `{missing}`, got: {err}");
    }
}

#[test]
fn connections_are_keyed_by_cluster_identity_and_bucket() {
    let a = sdk::Binding::from_config(&sdk_minimal()).unwrap();
    let mut other = sdk_minimal();
    other.push(("username".to_string(), "someone-else".to_string()));
    let other: Vec<_> =
        other.into_iter().filter(|(k, v)| k != "username" || v == "someone-else").collect();
    let b = sdk::Binding::from_config(&other).unwrap();
    assert_ne!(
        a.connection_key(),
        b.connection_key(),
        "a different credential must not reuse another's connection"
    );
}

#[test]
fn an_explicit_port_is_kept() {
    assert_eq!(
        socket::parse_endpoint("couchbase://host:12000").unwrap(),
        ("host".to_string(), 12000)
    );
    assert_eq!(
        socket::parse_endpoint("host").unwrap(),
        ("host".to_string(), DEFAULT_KV_PORT)
    );
}

#[test]
fn an_ipv6_literal_in_brackets_keeps_its_colons() {
    assert_eq!(
        socket::parse_endpoint("couchbase://[::1]").unwrap(),
        ("[::1]".to_string(), DEFAULT_KV_PORT)
    );
    assert_eq!(
        socket::parse_endpoint("couchbase://[::1]:12000").unwrap(),
        ("[::1]".to_string(), 12000)
    );
    assert_eq!(
        socket::parse_endpoint("couchbase://[::1]:x").unwrap_err(),
        "config key `endpoint` has an invalid port: `x`"
    );
    assert_eq!(socket::parse_endpoint(":5").unwrap(), (":5".to_string(), DEFAULT_KV_PORT));
}

#[test]
fn tls_is_refused_rather_than_downgraded() {
    let err = socket::parse_endpoint("couchbases://host").unwrap_err();
    assert!(err.contains("no TLS"), "got: {err}");
    assert!(socket::parse_endpoint("https://host").unwrap_err().contains("Data API"));
}

#[test]
fn connections_are_keyed_by_identity_and_keyspace() {
    let a = socket::Binding::from_config(&socket_minimal()).unwrap();
    let mut other = socket_minimal();
    other.push(("collection".to_string(), "airline".to_string()));
    let b = socket::Binding::from_config(&other).unwrap();
    assert_ne!(
        a.connection_key(),
        b.connection_key(),
        "a different collection must not reuse another's connection"
    );
}

#[test]
fn the_parts_of_a_connection_string_rebuild_it() {
    for raw in [
        "couchbases://cb.example.com",
        "couchbase://10.0.0.4:11210",
        "couchbase://[::1]:11210",
        "couchbase://[::1]",
        "couchbase://a,b:1",
    ] {
        let (scheme, host, port) = sdk::split_connection_string(raw);
        assert_eq!(format!("{scheme}://{host}{port}"), raw);
    }
}

#[test]
fn address_literals_are_told_from_names() {
    for address in ["127.0.0.1", "0.0.0.0", "255.255.255.255", "[::]", "[fe80::1]", "::1"] {
        assert!(!sdk::needs_resolution(address), "{address}");
    }
    for name in ["256.0.0.1", "1.2.3", "01.2.3.4", "1.2.3.4.5", "localhost", "g::1"] {
        assert!(sdk::needs_resolution(name), "{name}");
    }
}

#[test]
fn address_literals_follow_the_textual_forms() {
    for text in [
        "1.2.3.4",
        "::",
        "::1",
        "1::",
        "1:2:3:4:5:6:7:8",
        "::ffff:1.2.3.4",
        "abcd:EF01::",
        "1:2:3:4:5:6:1.2.3.4",
        "1:2:3:4:5:6:7::",
        "::2:3:4:5:6:7:8",
        "1::3:4:5:6:7:8",
        "0.0.0.0",
    ] {
        let cs: Vec<char> = text.chars().collect();
        assert!(is_address_text(&cs), "{text}");
    }
    for text in [
        "1.2.3.256",
        "001.2.3.4",
        "1.2.3.4 ",
        "",
        "1:2:3:4:5:6:7",
        "1:2:3:4:5:6:7:8:9",
        "1::2::3",
        "::1.2.3",
        "12345::",
        "1:2:3:4:5:6:7:1.2.3.4",
        ":1",
        "1:",
        ":::",
        "fe80::1%1",
        "a.b.c.d",
        "1.2.3.04",
    ] {
        let cs: Vec<char> = text.chars().collect();
        assert!(!is_address_text(&cs), "{text}");
    }
}

fn sdk_key(user: &str, bucket: &str) -> String {
    sdk::Binding::from_config(&config(&[
        ("endpoint", "couchbase://h"),
        ("bucket", bucket),
        ("username", user),
        ("password", "p"),
    ]))
    .unwrap()
    .connection_key()
}

fn socket_key(user: &str, bucket: &str, scope: &str, collection: &str) -> String {
    socket::Binding::from_config(&config(&[
        ("endpoint", "couchbase://h"),
        ("bucket", bucket),
        ("username", user),
        ("password", "p"),
        ("scope", scope),
        ("collection", collection),
    ]))
    .unwrap()
    .connection_key()
}

#[test]
fn a_mark_inside_a_part_does_not_mix_up_connections() {
    assert_eq!(sdk_key("u", "b"), "couchbase://h|u|b");
    assert_eq!(sdk_key("a|b%", "c"), "couchbase://h|a%1b%0|c");
    assert_ne!(sdk_key("a|b", "c"), sdk_key("a", "b|c"));
    assert_ne!(sdk_key("a|b", "c"), sdk_key("a%1b", "c"));
    assert_eq!(sdk_key("a|b", "c"), sdk_key("a|b", "c"));
    assert_eq!(socket_key("u", "b", "s", "c"), "h:11210|u|b|s.c");
    assert_ne!(socket_key("a|b", "c", "s", "t"), socket_key("a", "b|c", "s", "t"));
    assert_ne!(socket_key("u", "b", "s.t", "c"), socket_key("u", "b", "s", "t.c"));
    assert_ne!(socket_key("u", "b|s", "t", "c"), socket_key("u", "b", "s|t", "c"));
}
