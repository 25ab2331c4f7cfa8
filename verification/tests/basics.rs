//! Text, numbers, JSON, credentials and the table of workloads.

use wasmcloud_plugins::bindings::{
    caller_binding, couchbase_interface, refusal_message, unreachable_message, Workloads,
};
use wasmcloud_plugins::credentials::{base64, basic_authorization};
use wasmcloud_plugins::http::{header, text as text_answer};
use wasmcloud_plugins::json::{self, Json};
use wasmcloud_plugins::number::{
    decimal_text, hex_text, milliseconds, parse_signed32, parse_unsigned, seconds, seconds32,
};
use wasmcloud_plugins::settings;
use wasmcloud_plugins::text;
use wasmcloud_plugins::types::{
    debug_document_error, document_error_as_query_error, DocumentError, InterfaceBinding,
    SqlppQueryError, WorkloadInfo,
};

fn chars(s: &str) -> Vec<char> {
    s.chars().collect()
}

fn workload(name: &str, interfaces: Vec<InterfaceBinding>) -> WorkloadInfo {
    WorkloadInfo {
        id: "w1".to_string(),
        name: name.to_string(),
        namespace: "prod".to_string(),
        interfaces,
    }
}

#[test]
fn white_space_is_what_std_takes_for_it() {
    for u in 0..=0x10ffffu32 {
        if let Some(c) = char::from_u32(u) {
            assert_eq!(text::is_whitespace(c), c.is_whitespace(), "{u:x}");
            assert_eq!(text::to_lower_char(c), c.to_ascii_lowercase(), "{u:x}");
        }
    }
}

#[test]
fn texts_are_cut_where_std_cuts_them() {
    for s in ["", " ", "a", " a b ", "a//b", "://", "x://y://z", ":a:b:", "\u{2003}é\n"] {
        let cs = chars(s);
        assert_eq!(text::trim(&cs).iter().collect::<String>(), s.trim());
        let parts: Vec<String> =
            text::split_char(&cs, ':').into_iter().map(|p| p.into_iter().collect()).collect();
        assert_eq!(parts, s.split(':').map(str::to_string).collect::<Vec<_>>());
        let words: Vec<String> =
            text::split_words(&cs).into_iter().map(|p| p.into_iter().collect()).collect();
        assert_eq!(words, s.split_whitespace().map(str::to_string).collect::<Vec<_>>());
        let once = text::split_once(&cs, "://")
            .map(|(a, b)| (a.iter().collect::<String>(), b.iter().collect::<String>()));
        assert_eq!(once, s.split_once("://").map(|(a, b)| (a.to_string(), b.to_string())));
        let last = text::rsplit_once(&cs, ':')
            .map(|(a, b)| (a.iter().collect::<String>(), b.iter().collect::<String>()));
        assert_eq!(last, s.rsplit_once(':').map(|(a, b)| (a.to_string(), b.to_string())));
        assert_eq!(text::has_text(&cs, "a"), s.contains('a'));
        assert_eq!(text::begins_with(&cs, " a"), s.starts_with(" a"));
    }
    assert!(text::eq_ignore_case("ETag", "etag"));
    assert!(!text::eq_ignore_case("é", "É"));
}

#[test]
fn numbers_are_written_and_read_like_std_s() {
    for n in [0u64, 7, 10, 255, 1_000_000_007, u64::MAX] {
        assert_eq!(decimal_text(n), n.to_string());
        assert_eq!(hex_text(n, 8), format!("{n:08x}"));
        assert_eq!(parse_unsigned(&chars(&n.to_string()), 10, u64::MAX), Some(n));
        assert_eq!(parse_unsigned(&chars(&format!("{n:X}")), 16, u64::MAX), Some(n));
    }
    for s in ["", "+", "-1", "+5", "00012", "1a", " 1", "18446744073709551616", "++1"] {
        assert_eq!(parse_unsigned(&chars(s), 10, u64::MAX), s.parse::<u64>().ok(), "{s}");
    }
    for s in ["", "-", "+", "-0", "-2147483648", "-2147483649", "2147483648", "+7", "--1"] {
        assert_eq!(parse_signed32(&chars(s)), s.parse::<i32>().ok(), "{s}");
    }
    assert_eq!(parse_unsigned(&chars("65536"), 10, 65535), None);
}

#[test]
fn rounding_never_makes_a_limit_vanish() {
    assert_eq!(milliseconds(1), 1);
    assert_eq!(milliseconds(1_000_001), 2);
    assert_eq!(milliseconds(u64::MAX), u32::MAX);
    assert_eq!(seconds(1), 1);
    assert_eq!(seconds(1_000_000_000), 1);
    assert_eq!(seconds(1_000_000_001), 2);
    assert_eq!(seconds32(u64::MAX), u32::MAX);
}

#[test]
fn base64_has_the_well_known_values() {
    for (plain, encoded) in [
        ("", ""),
        ("f", "Zg=="),
        ("fo", "Zm8="),
        ("foo", "Zm9v"),
        ("foob", "Zm9vYg=="),
        ("fooba", "Zm9vYmE="),
        ("foobar", "Zm9vYmFy"),
    ] {
        assert_eq!(base64(plain.as_bytes()), encoded);
    }
    assert_eq!(base64(&[0xfb, 0xff, 0xbf]), "+/+/");
    assert_eq!(basic_authorization("app", "s3cret"), "Basic YXBwOnMzY3JldA==");
}

#[test]
fn json_is_read_and_written() {
    let j = json::parse(br#"{"b":[1,-2,1.5,null,true,"x"],"a":{"c":18446744073709551615}}"#).unwrap();
    assert_eq!(j.get("a").unwrap().get("c"), Some(&Json::Unsigned(u64::MAX)));
    match j.get("b").unwrap() {
        Json::Array(items) => {
            assert_eq!(items[0], Json::Unsigned(1));
            assert_eq!(items[1], Json::Signed(-2));
            assert!(matches!(items[2], Json::Fractional(_)));
            assert_eq!(items[3], Json::Null);
            assert_eq!(items[4], Json::Bool(true));
            assert_eq!(items[5], Json::Text("x".to_string()));
        }
        other => panic!("not an array: {other:?}"),
    }
    assert_eq!(
        json::write(&j),
        r#"{"a":{"c":18446744073709551615},"b":[1,-2,1.5,null,true,"x"]}"#
    );
    assert_eq!(json::write(&j.copy()), json::write(&j));
    assert_eq!(
        json::parse_text("{").unwrap_err(),
        serde_json::from_str::<serde_json::Value>("{").unwrap_err().to_string()
    );
    assert_eq!(json::json_of(serde_json::Value::Bool(true)), Json::Bool(true));
}

#[test]
fn the_later_of_two_members_counts() {
    let j = json::parse_text(r#"{"a":1,"a":2}"#).unwrap();
    assert_eq!(j.get("a"), Some(&Json::Unsigned(2)));
    let mut members = Vec::new();
    json::put(&mut members, "k".to_string(), Json::Null);
    json::put(&mut members, "k".to_string(), Json::Bool(false));
    json::put(&mut members, "l".to_string(), Json::Null);
    json::put(&mut members, "k".to_string(), Json::Bool(true));
    let j = Json::Object(members);
    assert_eq!(j.get("k"), Some(&Json::Bool(true)));
    assert_eq!(json::write(&j), r#"{"k":true,"l":null}"#);
    let once = json::json_of(json::value_of(&j));
    assert_eq!(
        once,
        Json::Object(vec![
            ("k".to_string(), Json::Bool(true)),
            ("l".to_string(), Json::Null)
        ])
    );
}

#[test]
fn workloads_do_not_see_one_another() {
    let mut bound: Workloads<u32> = Workloads::new();
    bound.insert("a".to_string(), 1);
    bound.insert("b".to_string(), 2);
    bound.insert("a".to_string(), 3);
    assert_eq!(bound.get("a"), Some(&3));
    assert_eq!(bound.get("b"), Some(&2));
    bound.remove("a");
    assert_eq!(bound.get("a"), None);
    assert_eq!(bound.get("b"), Some(&2));
    bound.remove("never");
    assert_eq!(caller_binding(&bound, "b").unwrap(), &2);
    assert_eq!(
        caller_binding(&bound, "").unwrap_err(),
        DocumentError::NotConfigured("no in-flight caller: wasmcloud:couchbase can only be used from a workload's capability call".to_string())
    );
    assert_eq!(
        caller_binding(&bound, "a").unwrap_err(),
        DocumentError::NotConfigured(
            "workload `a` has no wasmcloud:couchbase binding on this plugin".to_string()
        )
    );
}

#[test]
fn only_the_couchbase_interface_is_served() {
    let other = InterfaceBinding {
        namespace: "wasi".to_string(),
        package: "couchbase".to_string(),
        config: Vec::new(),
    };
    let ours = InterfaceBinding {
        namespace: "wasmcloud".to_string(),
        package: "couchbase".to_string(),
        config: vec![("k".to_string(), "v".to_string())],
    };
    assert!(couchbase_interface(&workload("shop", vec![])).is_none());
    let w = workload("shop", vec![other, ours]);
    assert_eq!(couchbase_interface(&w).unwrap().config.len(), 1);
    assert_eq!(
        refusal_message(&w, "needs more"),
        "workload `shop` in namespace `prod`: wasmcloud:couchbase needs more"
    );
    assert_eq!(
        unreachable_message(&w, "host:1", "no route"),
        "workload `shop`: could not reach Couchbase at `host:1`: no route"
    );
}

#[test]
fn the_first_setting_counts_and_a_blank_one_is_none() {
    let pairs = vec![
        ("a".to_string(), " x ".to_string()),
        ("b".to_string(), "  ".to_string()),
        ("b".to_string(), "late".to_string()),
        ("timeout-ms".to_string(), "250".to_string()),
    ];
    assert_eq!(settings::get(&pairs, "a"), Some("x".to_string()));
    assert_eq!(settings::get(&pairs, "b"), None);
    assert!(settings::require(&pairs, "b").unwrap_err().contains('b'));
    assert_eq!(settings::get_or(&pairs, "b", "d"), "d");
    assert_eq!(settings::timeout_ms(&pairs), Ok(250));
    assert_eq!(settings::timeout_ms(&[]), Ok(settings::DEFAULT_TIMEOUT_MS));
}

#[test]
fn errors_keep_their_developer_s_form() {
    assert_eq!(debug_document_error(&DocumentError::Locked), "DocumentError::Locked");
    assert_eq!(
        debug_document_error(&DocumentError::Other("a \"b\"\n".to_string())),
        "DocumentError::Other(\"a \\\"b\\\"\\n\")"
    );
    assert_eq!(
        document_error_as_query_error(DocumentError::Unsupported("x".to_string())),
        SqlppQueryError::Unexpected("DocumentError::Unsupported(\"x\")".to_string())
    );
    assert_eq!(
        document_error_as_query_error(DocumentError::Timeout),
        SqlppQueryError::Timeout
    );
}

#[test]
fn headers_are_found_by_any_case() {
    let headers = vec![
        ("ETag".to_string(), b"1".to_vec()),
        ("etag".to_string(), b"2".to_vec()),
        ("bad".to_string(), vec![0xff]),
    ];
    assert_eq!(header(&headers, "etag"), Some("1".to_string()));
    assert_eq!(header(&headers, "bad"), None);
    assert_eq!(header(&headers, "none"), None);
    let answer = text_answer(404, "é");
    assert_eq!(answer.status, 404);
    assert_eq!(answer.headers, vec![("content-type".to_string(), b"text/plain".to_vec())]);
    assert_eq!(answer.body, vec![0xc3, 0xa9]);
}
