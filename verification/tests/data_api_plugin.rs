//! The operations of the Data API transport.

use wasmcloud_plugins::bindings::Workloads;
use wasmcloud_plugins::data_api::api::{error_body, ErrorBody, Failure};
use wasmcloud_plugins::data_api::config::Binding;
use wasmcloud_plugins::data_api::plugin;
use wasmcloud_plugins::data_api::plugin::{
    document_path, durability, expiry_header, get, get_all_replicas, get_and_lock, get_and_touch,
    get_any_replicas, insert, mutation,
    on_workload_bind, on_workload_unbind, read, reject_replica, reject_unhonoured_write_options, rejection, remove,
    replace, send, to_document_error, to_query_error, touch, touch_body, touched, transport_error,
    unlock, upsert, write_headers, Reply, TransportFailure,
};
use wasmcloud_plugins::data_api::query::{query, query_answer, QueryBody};
use wasmcloud_plugins::http::{header, HttpRequest, Method, Rejected};
use wasmcloud_plugins::json::{self, Json};
use wasmcloud_plugins::types::{
    DocumentError, DocumentGetAndTouchOptions, DocumentGetOptions, DocumentInsertOptions,
    DocumentRemoveOptions, DocumentReplaceOptions, DocumentTouchOptions, DocumentUpsertOptions,
    DurabilityLevel, InterfaceBinding, MutationState, MutationToken, QueryScanConsistency,
    ReplicaReadLevel, SqlppQueryError, SqlppQueryOptions, SqlppValue, Time, WorkloadInfo,
};

fn pairs(endpoint: &str) -> Vec<(String, String)> {
    [
        ("endpoint", endpoint),
        ("bucket", "travel"),
        ("username", "app"),
        ("password", "s3cret"),
        ("scope", "in v"),
        ("timeout-ms", "1500"),
    ]
    .iter()
    .map(|(k, v)| ((*k).to_string(), (*v).to_string()))
    .collect()
}

fn bound() -> Workloads<Binding> {
    let mut bound = Workloads::new();
    let workload = WorkloadInfo {
        id: "w".to_string(),
        name: "shop".to_string(),
        namespace: "prod".to_string(),
        interfaces: vec![InterfaceBinding {
            namespace: "wasmcloud".to_string(),
            package: "couchbase".to_string(),
            config: pairs("https://cb.example/data"),
        }],
    };
    on_workload_bind(&mut bound, &workload).unwrap();
    bound
}

fn binding() -> Binding {
    Binding::from_config(&pairs("https://cb.example/data")).unwrap()
}

fn reply(status: u16, headers: &[(&str, &str)], body: &[u8]) -> Reply {
    Reply {
        status,
        headers: headers
            .iter()
            .map(|(k, v)| ((*k).to_string(), v.as_bytes().to_vec()))
            .collect(),
        body: body.to_vec(),
    }
}

fn value(request: &HttpRequest, name: &str) -> Option<String> {
    header(&request.headers, name)
}

fn upsert_options() -> DocumentUpsertOptions {
    DocumentUpsertOptions {
        expires_in_ns: 0,
        preserve_expiry: false,
        flags: None,
        persist_to: 0,
        replicate_to: 0,
        durability_level: DurabilityLevel::Unknown,
        timeout_ns: None,
    }
}

fn query_options() -> SqlppQueryOptions {
    SqlppQueryOptions {
        scan_consistency: QueryScanConsistency::NotBounded,
        consistent_with: None,
        scan_cap: 0,
        pipeline_batch: 0,
        pipeline_cap: 0,
        scan_wait_ns: 0,
        readonly: true,
        max_parallelism: 0,
        client_context_id: Some("ctx".to_string()),
        metrics: false,
        ad_hoc: true,
        timeout_ns: 0,
        preserve_expiry: false,
        use_flex_index: false,
    }
}

fn token(bucket: &str, uuid: u64) -> MutationToken {
    MutationToken {
        bucket_name: bucket.to_string(),
        partition_uuid: uuid,
        partition_id: 3,
        sequence_number: 9,
    }
}

#[test]
fn a_bad_configuration_refuses_the_workload() {
    let mut table: Workloads<Binding> = Workloads::new();
    let mut workload = WorkloadInfo {
        id: "w".to_string(),
        name: "shop".to_string(),
        namespace: "prod".to_string(),
        interfaces: vec![InterfaceBinding {
            namespace: "wasmcloud".to_string(),
            package: "couchbase".to_string(),
            config: pairs("ftp://nowhere"),
        }],
    };
    let err = on_workload_bind(&mut table, &workload).unwrap_err();
    assert!(err.starts_with("workload `shop` in namespace `prod`: wasmcloud:couchbase "), "{err}");
    assert!(table.get("w").is_none());
    workload.interfaces.clear();
    assert_eq!(on_workload_bind(&mut table, &workload), Ok(()));
    assert!(table.get("w").is_none());
    let mut table = bound();
    assert!(table.get("w").is_some());
    on_workload_unbind(&mut table, "w");
    assert!(table.get("w").is_none());
}

#[test]
fn an_insert_is_a_post_with_its_options() {
    let options = DocumentInsertOptions {
        expires_in_ns: 1_500_000_000,
        flags: Some(7),
        persist_to: 0,
        replicate_to: 0,
        durability_level: DurabilityLevel::ReplicateMajority,
        timeout_ns: Some(2_000_000),
    };
    let request = insert(&bound(), "w", "a/b", b"{}".to_vec(), Some(&options)).unwrap();
    assert_eq!(request.method, Method::Post);
    assert!(request.secure);
    assert_eq!(request.authority, "cb.example");
    assert_eq!(
        request.path,
        "/data/v1/buckets/travel/scopes/in%20v/collections/_default/documents/a%2Fb"
    );
    let names: Vec<&str> = request.headers.iter().map(|(n, _)| n.as_str()).collect();
    assert_eq!(
        names,
        vec![
            "authorization",
            "accept",
            "content-type",
            "x-cb-flags",
            "expires",
            "x-cb-durabilitylevel",
            "content-length"
        ]
    );
    assert_eq!(value(&request, "authorization"), Some("Basic YXBwOnMzY3JldA==".to_string()));
    assert_eq!(value(&request, "x-cb-flags"), Some("7".to_string()));
    assert_eq!(value(&request, "expires"), Some("2s".to_string()));
    assert_eq!(value(&request, "x-cb-durabilitylevel"), Some("Majority".to_string()));
    assert_eq!(value(&request, "content-length"), Some("2".to_string()));
    assert_eq!(request.timeout_ns, Some(2_000_000));
    assert_eq!(request.body, Some(b"{}".to_vec()));
}

#[test]
fn a_replace_always_has_a_condition() {
    let request = replace(&bound(), "w", "k", b"1".to_vec(), None).unwrap();
    assert_eq!(request.method, Method::Put);
    assert_eq!(value(&request, "if-match"), Some("*".to_string()));
    assert_eq!(request.timeout_ns, Some(1_500_000_000));
    let options = DocumentReplaceOptions {
        cas: 255,
        expires_in_ns: 0,
        preserve_expiry: false,
        flags: None,
        persist_to: 0,
        replicate_to: 0,
        durability_level: DurabilityLevel::Off,
        timeout_ns: Some(0),
    };
    let request = replace(&bound(), "w", "k", b"1".to_vec(), Some(&options)).unwrap();
    assert_eq!(value(&request, "if-match"), Some("00000000000000ff".to_string()));
    assert_eq!(value(&request, "x-cb-durabilitylevel"), Some("None".to_string()));
}

#[test]
fn options_that_cannot_be_honoured_are_refused() {
    let options = DocumentUpsertOptions { preserve_expiry: true, ..upsert_options() };
    assert!(matches!(
        upsert(&bound(), "w", "k", Vec::new(), Some(&options)),
        Err(DocumentError::Unsupported(m)) if m.contains("preserve-expiry")
    ));
    let options = DocumentUpsertOptions { replicate_to: 1, ..upsert_options() };
    assert!(matches!(
        upsert(&bound(), "w", "k", Vec::new(), Some(&options)),
        Err(DocumentError::Unsupported(m)) if m.contains("durability-level")
    ));
    assert!(reject_unhonoured_write_options(false, 0, 0).is_ok());
    let request = upsert(&bound(), "w", "k", Vec::new(), Some(&upsert_options())).unwrap();
    assert_eq!(value(&request, "if-match"), None);
    assert_eq!(value(&request, "content-length"), Some("0".to_string()));
    assert!(matches!(get_and_lock(), DocumentError::Unsupported(_)));
    assert!(matches!(unlock(), DocumentError::Unsupported(_)));
}

#[test]
fn an_unbound_caller_gets_nothing_through() {
    assert!(matches!(
        insert(&bound(), "x", "k", Vec::new(), None),
        Err(DocumentError::NotConfigured(m)) if m.contains("`x`")
    ));
    assert!(matches!(get(&bound(), "", "k", None), Err(DocumentError::NotConfigured(_))));
}

#[test]
fn a_get_names_its_fields_in_one_parameter() {
    let options = DocumentGetOptions {
        with_expiry: false,
        project: Some(vec!["name".to_string(), "a,b".to_string()]),
        use_replica: None,
        timeout_ns: None,
    };
    let request = get(&bound(), "w", "k", Some(&options)).unwrap();
    assert_eq!(request.method, Method::Get);
    assert!(request.path.ends_with("/documents/k?project=name,a%2Cb"), "{}", request.path);
    assert_eq!(request.body, None);
    assert_eq!(value(&request, "content-length"), Some("0".to_string()));
    let request = get(&bound(), "w", "k", None).unwrap();
    assert!(request.path.ends_with("/documents/k"));
}

#[test]
fn a_replica_read_is_refused() {
    let options = |level| DocumentGetOptions {
        with_expiry: false,
        project: None,
        use_replica: level,
        timeout_ns: None,
    };
    assert!(matches!(
        get(&bound(), "w", "k", Some(&options(Some(ReplicaReadLevel::On)))),
        Err(DocumentError::Unsupported(m)) if m.contains("use-replica")
    ));
    assert!(get(&bound(), "w", "k", Some(&options(Some(ReplicaReadLevel::Off)))).is_ok());
    assert!(reject_replica(None).is_ok());
    assert!(matches!(get_any_replicas(), DocumentError::Unsupported(_)));
    assert!(matches!(get_all_replicas(), DocumentError::Unsupported(_)));
}

#[test]
fn every_request_stays_in_the_granted_keyspace() {
    let granted = "/data/v1/buckets/travel/scopes/in%20v/collections/_default/documents/";
    let id = "../../other?x#y";
    let touching = DocumentTouchOptions { expires_in: 1, timeout_ns: None };
    for request in [
        insert(&bound(), "w", id, Vec::new(), None).unwrap(),
        upsert(&bound(), "w", id, Vec::new(), None).unwrap(),
        replace(&bound(), "w", id, Vec::new(), None).unwrap(),
        get(&bound(), "w", id, None).unwrap(),
        remove(&bound(), "w", id, None).unwrap(),
        touch(&bound(), "w", id, Some(&touching), 0).unwrap(),
    ] {
        let rest = request.path.strip_prefix(granted).unwrap();
        let rest = rest.strip_suffix("/touch").unwrap_or(rest);
        assert_eq!(rest, "..%2F..%2Fother%3Fx%23y");
        assert_eq!(request.authority, "cb.example");
        assert_eq!(request.headers[0].0, "authorization");
    }
}

#[test]
fn a_delete_has_no_content_type() {
    let options = DocumentRemoveOptions {
        cas: 1,
        persist_to: 0,
        replicate_to: 0,
        durability_level: DurabilityLevel::PersistMajority,
        timeout_ns: None,
    };
    let request = remove(&bound(), "w", "k", Some(&options)).unwrap();
    assert_eq!(request.method, Method::Delete);
    assert_eq!(value(&request, "content-type"), None);
    assert_eq!(value(&request, "if-match"), Some("0000000000000001".to_string()));
    assert_eq!(value(&request, "x-cb-durabilitylevel"), Some("PersistToMajority".to_string()));
}

#[test]
fn a_touch_sends_an_absolute_instant() {
    assert_eq!(
        touch_body(600_000_000_000, true, 1_234_567_290).unwrap(),
        br#"{"expiry":"2009-02-13T23:31:30.000Z","returnContent":true}"#.to_vec()
    );
    assert!(matches!(touch_body(0, false, 0), Err(DocumentError::InvalidArgument(_))));
    let options = DocumentTouchOptions { expires_in: 1, timeout_ns: None };
    let request = touch(&bound(), "w", "k", Some(&options), 0).unwrap();
    assert!(request.path.ends_with("/documents/k/touch"));
    assert_eq!(
        request.body,
        Some(br#"{"expiry":"1970-01-01T00:00:01.000Z","returnContent":false}"#.to_vec())
    );
    let options = DocumentGetAndTouchOptions { expires_in: 1, timeout_ns: None };
    let request = get_and_touch(&bound(), "w", "k", Some(&options), 0).unwrap();
    assert_eq!(
        request.body,
        Some(br#"{"expiry":"1970-01-01T00:00:01.000Z","returnContent":true}"#.to_vec())
    );
}

#[test]
fn a_cancelled_call_is_not_sent() {
    let request = get(&bound(), "w", "k", None).unwrap();
    assert!(matches!(
        send(request, true),
        Err(DocumentError::Other(m))
            if m == "invocation was cancelled before the request was sent"
    ));
    let request = get(&bound(), "w", "k", None).unwrap();
    let same = get(&bound(), "w", "k", None).unwrap();
    assert_eq!(send(request, false).unwrap(), same);
}

#[test]
fn a_write_reports_its_token() {
    let parsed = ErrorBody { code: None, message: None, errors: Vec::new() };
    let answer = reply(200, &[("ETag", "2a"), ("X-CB-MutationToken", "travel:16:ab:5")], b"");
    let m = plugin::write(&binding(), &answer, &parsed).unwrap();
    assert_eq!((m.cas, m.partition_id, m.partition_uuid, m.seq), (42, 16, 0xab, 5));
    assert_eq!(m.bucket, "travel");
    assert_eq!(m.raw_token, None);
    let answer = reply(201, &[("etag", "000000000000002a"), ("x-cb-mutationtoken", "?")], b"");
    let m = mutation(&binding(), &answer);
    assert_eq!((m.cas, m.partition_id, m.partition_uuid, m.seq), (42, 0, 0, 0));
    assert_eq!(m.raw_token, Some("?".to_string()));
    let body = br#"{"code":"CasMismatch"}"#;
    assert_eq!(
        plugin::write(&binding(), &reply(409, &[], body), &error_body(body)).unwrap_err(),
        DocumentError::CasMismatch
    );
}

#[test]
fn a_read_keeps_the_bytes_and_the_expiry() {
    let parsed = ErrorBody { code: None, message: None, errors: Vec::new() };
    let answer = reply(
        200,
        &[
            ("etag", "\"7\""),
            ("x-cb-flags", "50331648"),
            ("expires", "Fri, 18 Sep 2026 18:06:29 UTC"),
        ],
        &[0, 255],
    );
    let g = read(answer, &parsed).unwrap();
    assert_eq!(g.document, vec![0, 255]);
    assert_eq!((g.flags, g.cas, g.expires_in_ns), (50331648, 7, None));
    assert_eq!(
        g.expires_at,
        Some(Time {
            offset: 0,
            year: 2026,
            month: 9,
            day: 18,
            hour: 18,
            minute: 6,
            second: 29,
            milliseconds: 0,
            nanoseconds: 0,
        })
    );
    let g = touched(reply(200, &[], b"x"), 9, &parsed).unwrap();
    assert_eq!((g.expires_in_ns, g.expires_at, g.flags, g.cas), (Some(9), None, 0, 0));
    assert_eq!(read(reply(404, &[], b""), &parsed).unwrap_err(), DocumentError::NotFound);
}

#[test]
fn failures_keep_their_meaning() {
    let server = || Failure::Server {
        status: 503,
        code: Some("Overloaded".to_string()),
        message: "later".to_string(),
    };
    assert_eq!(
        to_document_error(server()),
        DocumentError::Other("Couchbase returned HTTP 503 (Overloaded): later".to_string())
    );
    assert_eq!(
        to_query_error(server()),
        SqlppQueryError::Server("HTTP 503 (Overloaded): later".to_string())
    );
    assert_eq!(
        to_query_error(Failure::Locked),
        SqlppQueryError::Unexpected("unexpected document conflict from a query".to_string())
    );
    assert_eq!(
        to_query_error(Failure::NotFound),
        SqlppQueryError::InvalidArgument(
            "the statement referenced a keyspace that does not exist".to_string()
        )
    );
    assert_eq!(
        transport_error(TransportFailure::HttpResponseTimeout),
        DocumentError::Timeout
    );
    assert!(matches!(
        transport_error(TransportFailure::HttpRequestDenied),
        DocumentError::NotConfigured(m) if m.contains("allowedHosts")
    ));
    assert_eq!(
        transport_error(TransportFailure::Other("DnsError".to_string())),
        DocumentError::RequestFailed("DnsError".to_string())
    );
    assert_eq!(
        rejection("h", "/p", &Rejected::Authority),
        DocumentError::InvalidArgument(
            "`h` is not a valid host for the configured endpoint".to_string()
        )
    );
}

#[test]
fn headers_come_in_a_fixed_order() {
    assert_eq!(
        write_headers(16, 1, DurabilityLevel::Off, Some(1)),
        vec![
            ("content-type", "application/json".to_string()),
            ("x-cb-flags", "1".to_string()),
            ("if-match", "0000000000000010".to_string()),
            ("expires", "1s".to_string()),
            ("x-cb-durabilitylevel", "None".to_string()),
        ]
    );
    assert_eq!(durability(DurabilityLevel::Unknown), None);
    assert_eq!(expiry_header(0), None);
    assert_eq!(expiry_header(u64::MAX), Some(("expires", "4294967295s".to_string())));
    assert_ne!(document_path(&binding(), "a"), document_path(&binding(), "b"));
}

#[test]
fn a_query_is_posted_to_the_query_service() {
    let params = vec![SqlppValue::Null, SqlppValue::Json("{\"a\":[1]}".to_string())];
    let request =
        query(&bound(), "w", "SELECT 1".to_string(), &params, Some(&query_options())).unwrap();
    assert_eq!(request.path, "/data/_p/query/query/service");
    assert_eq!(request.method, Method::Post);
    let body: serde_json::Value = serde_json::from_slice(&request.body.unwrap()).unwrap();
    assert_eq!(body["statement"], "SELECT 1");
    assert_eq!(body["args"][1]["a"][0], 1);
    assert_eq!(body["query_context"], "default:travel.in v");
    assert_eq!(body["scan_consistency"], "not_bounded");
    assert_eq!(body["readonly"], true);
    assert_eq!(body["metrics"], false);
    assert_eq!(body["client_context_id"], "ctx");
    assert_eq!(body["timeout"], "1500ms");
    assert!(body.get("scan_vector").is_none());
    let request = query(&bound(), "w", "SELECT 1".to_string(), &[], None).unwrap();
    let body: serde_json::Value = serde_json::from_slice(&request.body.unwrap()).unwrap();
    assert!(body.get("args").is_none());
    assert!(body.get("readonly").is_none());
}

#[test]
fn a_query_waits_for_the_writes_it_names() {
    let options = SqlppQueryOptions {
        consistent_with: Some(MutationState { tokens: vec![token("travel", 12)] }),
        timeout_ns: 2_500_000,
        ..query_options()
    };
    let request = query(&bound(), "w", "S".to_string(), &[], Some(&options)).unwrap();
    assert_eq!(request.timeout_ns, Some(3_000_000));
    let body: serde_json::Value = serde_json::from_slice(&request.body.unwrap()).unwrap();
    assert_eq!(body["scan_consistency"], "at_plus");
    assert_eq!(body["scan_vector"]["3"][0], 9);
    assert_eq!(body["scan_vector"]["3"][1], "12");
    assert_eq!(body["timeout"], "3ms");
    for tokens in [vec![], vec![token("travel", 0)], vec![token("", 1), token("travel", 0)]] {
        let options = SqlppQueryOptions {
            consistent_with: Some(MutationState { tokens }),
            ..query_options()
        };
        assert!(matches!(
            query(&bound(), "w", "S".to_string(), &[], Some(&options)),
            Err(SqlppQueryError::InvalidArgument(m)) if m.contains("partition-uuid")
        ));
    }
    let options = SqlppQueryOptions {
        consistent_with: Some(MutationState { tokens: vec![token("other", 1)] }),
        ..query_options()
    };
    assert_eq!(
        query(&bound(), "w", "S".to_string(), &[], Some(&options)).unwrap_err(),
        SqlppQueryError::InvalidArgument(
            "consistent-with carries a token for bucket `other`, but this binding is bound to `travel`"
                .to_string()
        )
    );
}

#[test]
fn a_bad_parameter_is_named() {
    let params = vec![SqlppValue::Null, SqlppValue::Json("not json".to_string())];
    let err = query(&bound(), "w", "S".to_string(), &params, None).unwrap_err();
    let detail = serde_json::from_str::<serde_json::Value>("not json").unwrap_err();
    assert_eq!(
        err,
        SqlppQueryError::InvalidArgument(format!(
            "positional parameter 2 is not valid JSON: {detail}"
        ))
    );
    assert!(matches!(
        query(&bound(), "", "S".to_string(), &[], None),
        Err(SqlppQueryError::NotConfigured(_))
    ));
}

#[test]
fn an_answer_is_its_rows() {
    let silent = ErrorBody { code: None, message: None, errors: Vec::new() };
    let rows = vec![Json::Unsigned(1), json::parse_text("{\"b\":1,\"a\":2}").unwrap()];
    assert_eq!(
        query_answer(
            &reply(200, &[], b""),
            &silent,
            Ok(QueryBody { results: rows, errors: Vec::new() })
        ),
        Ok(SqlppValue::Json("[1,{\"a\":2,\"b\":1}]".to_string()))
    );
    assert_eq!(
        query_answer(&reply(200, &[], b""), &silent, Err("bad".to_string())),
        Err(SqlppQueryError::Unexpected(
            "the Query Service response was not the expected JSON object: bad".to_string()
        ))
    );
    let body = br#"{"errors":[{"code":3000,"msg":"syntax"}]}"#;
    assert_eq!(
        query_answer(
            &reply(200, &[], body),
            &error_body(body),
            Ok(QueryBody { results: Vec::new(), errors: vec![Json::Null] })
        ),
        Err(SqlppQueryError::Server("HTTP 200 (3000): syntax".to_string()))
    );
    assert_eq!(
        query_answer(&reply(401, &[], b""), &silent, Err("unread".to_string())),
        Err(SqlppQueryError::Unauthorized)
    );
}

#[test]
fn a_query_s_own_time_limit_is_never_cut_short() {
    for (ns, ms) in [
        (1u64, 1u64),
        (1_000_001, 2),
        (4_294_967_295_000_000, 4_294_967_295),
        (4_294_967_296_000_000, 4_294_967_295),
        (u64::MAX, 4_294_967_295),
    ] {
        let options = SqlppQueryOptions { timeout_ns: ns, ..query_options() };
        let request = query(&bound(), "w", "S".to_string(), &[], Some(&options)).unwrap();
        assert_eq!(request.timeout_ns, Some(ms * 1_000_000));
        let body: serde_json::Value = serde_json::from_slice(&request.body.unwrap()).unwrap();
        assert_eq!(body["timeout"], format!("{ms}ms"));
    }
}
