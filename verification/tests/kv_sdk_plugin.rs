//! The operations of the SDK transport.

use wasmcloud_plugins::bindings::Workloads;
use wasmcloud_plugins::kv_sdk::config::Binding;
use wasmcloud_plugins::json::Json;
use wasmcloud_plugins::kv_sdk::plugin::{
    connect_error_to_document_error, connect_failure, durability, effective_timeout_ms, expiry,
    get, get_all_replicas, get_and_lock, get_and_touch, get_any_replicas, get_result, insert,
    lookup_name, mutation, on_workload_bind, op_error_to_document_error, reject_replica_read,
    reject_unhonoured, remove, replace, resolve_endpoint, to_document_error, to_wit_time, touch,
    unlock, upsert, Address, ConnectError, Durability, OpError, SdkToken, JSON_FLAGS,
};
use wasmcloud_plugins::kv_sdk::query::{
    query, query_scan_consistency, rows_value, to_query_error, ErrorKind, Scan, StateToken,
};
use wasmcloud_plugins::types::{
    DocumentError, DocumentGetAndLockOptions, DocumentGetAndTouchOptions, DocumentGetOptions,
    DocumentInsertOptions, DocumentRemoveOptions, DocumentReplaceOptions, DocumentTouchOptions,
    DocumentUnlockOptions, DocumentUpsertOptions, DurabilityLevel, InterfaceBinding, MutationState,
    MutationToken, QueryScanConsistency, ReplicaReadLevel, SqlppQueryError, SqlppQueryOptions,
    SqlppValue, Time, WorkloadInfo,
};

fn pairs() -> Vec<(String, String)> {
    [
        ("endpoint", "couchbase://cb.example:11210"),
        ("bucket", "travel"),
        ("username", "app"),
        ("password", "s3cret"),
        ("timeout-ms", "1500"),
    ]
    .iter()
    .map(|(k, v)| ((*k).to_string(), (*v).to_string()))
    .collect()
}

fn binding() -> Binding {
    Binding::from_config(&pairs()).unwrap()
}

fn bound() -> Workloads<Binding> {
    let mut bound = Workloads::new();
    bound.insert("w".to_string(), binding());
    bound
}

fn workload(config: Vec<(String, String)>) -> WorkloadInfo {
    WorkloadInfo {
        id: "w".to_string(),
        name: "shop".to_string(),
        namespace: "prod".to_string(),
        interfaces: vec![InterfaceBinding {
            namespace: "wasmcloud".to_string(),
            package: "couchbase".to_string(),
            config,
        }],
    }
}

fn query_options() -> SqlppQueryOptions {
    SqlppQueryOptions {
        scan_consistency: QueryScanConsistency::RequestPlus,
        consistent_with: None,
        scan_cap: 0,
        pipeline_batch: 0,
        pipeline_cap: 0,
        scan_wait_ns: 0,
        readonly: true,
        max_parallelism: 0,
        client_context_id: None,
        metrics: false,
        ad_hoc: true,
        timeout_ns: 0,
        preserve_expiry: false,
        use_flex_index: false,
    }
}

fn after(tokens: Vec<MutationToken>) -> SqlppQueryOptions {
    SqlppQueryOptions { consistent_with: Some(MutationState { tokens }), ..query_options() }
}

fn token(bucket: &str, uuid: u64, id: u64) -> MutationToken {
    MutationToken {
        bucket_name: bucket.to_string(),
        partition_uuid: uuid,
        partition_id: id,
        sequence_number: 9,
    }
}

#[test]
fn a_workload_is_bound_or_told_why_not() {
    assert_eq!(on_workload_bind(&workload(pairs())), Ok(Some(binding())));
    let none = WorkloadInfo { interfaces: Vec::new(), ..workload(Vec::new()) };
    assert_eq!(on_workload_bind(&none), Ok(None));
    let err = on_workload_bind(&workload(Vec::new())).unwrap_err();
    assert!(err.starts_with("workload `shop` in namespace `prod`: wasmcloud:couchbase "), "{err}");
    assert_eq!(
        connect_failure(&workload(pairs()), &binding(), "refused"),
        "workload `shop`: could not reach Couchbase at `couchbase://cb.example:11210`: refused"
    );
}

#[test]
fn a_name_is_replaced_by_its_address() {
    assert_eq!(lookup_name("couchbase://cb.example:11210"), Some("cb.example"));
    assert_eq!(lookup_name("couchbase://10.0.0.4"), None);
    assert_eq!(lookup_name("couchbase://a.example,b.example"), None);
    assert_eq!(lookup_name("couchbase://a.example:11210,b.example:11210"), None);
    let many = "couchbase://a.example:11210,b.example:11210";
    assert_eq!(resolve_endpoint(many, Ok(None)), Ok(many.to_string()));
    assert_eq!(
        resolve_endpoint(
            "couchbase://cb.example:11210",
            Ok(Some(Address::V4("10.0.0.4".to_string())))
        ),
        Ok("couchbase://10.0.0.4:11210".to_string())
    );
    assert_eq!(
        resolve_endpoint("couchbases://cb.example", Ok(Some(Address::V6("::1".to_string())))),
        Ok("couchbases://[::1]".to_string())
    );
    assert_eq!(
        resolve_endpoint("couchbase://10.0.0.4", Err("unused".to_string())),
        Ok("couchbase://10.0.0.4".to_string())
    );
    for found in [Address::V4("10.0.0.4".to_string()), Address::V6("fe80::1".to_string())] {
        let sent = resolve_endpoint("couchbase://cb.example:11210", Ok(Some(found))).unwrap();
        assert_eq!(lookup_name(&sent), None, "{sent}");
    }
    let err = resolve_endpoint("couchbase://cb.example", Err("no such host".to_string()))
        .unwrap_err();
    assert_eq!(
        err.message(),
        "could not resolve `cb.example`: no such host. A host component plugin needs `allowedIpNameLookups` to cover it, or `endpoint` can name an address literal instead"
    );
    assert!(matches!(connect_error_to_document_error(err), DocumentError::NotConfigured(_)));
    assert_eq!(
        resolve_endpoint("couchbase://cb.example", Ok(None)).unwrap_err(),
        ConnectError::Resolve("`cb.example` resolved to no addresses".to_string())
    );
    assert_eq!(
        connect_error_to_document_error(ConnectError::Sdk("Authentication failure".to_string())),
        DocumentError::Unauthorized
    );
}

#[test]
fn sdk_errors_are_told_by_their_text() {
    for (said, meant) in [
        ("Document Not Found", DocumentError::NotFound),
        ("DocumentNotFound: x", DocumentError::NotFound),
        ("document exists", DocumentError::AlreadyExists),
        ("CAS mismatch on k", DocumentError::CasMismatch),
        ("DocumentLocked", DocumentError::Locked),
        ("document not locked", DocumentError::NotLocked),
        ("no permission", DocumentError::Unauthorized),
        ("unauthorized", DocumentError::Unauthorized),
        ("operation timed out", DocumentError::Timeout),
        ("Timeout", DocumentError::Timeout),
        ("Invalid Argument: k", DocumentError::InvalidArgument("Invalid Argument: k".to_string())),
        ("Something else", DocumentError::Other("Something else".to_string())),
    ] {
        assert_eq!(to_document_error(said.to_string()), meant, "{said}");
    }
    assert_eq!(op_error_to_document_error(OpError::Timeout), DocumentError::Timeout);
    assert_eq!(
        op_error_to_document_error(OpError::Sdk("casmismatch".to_string())),
        DocumentError::CasMismatch
    );
}

#[test]
fn a_query_error_is_told_by_its_kind_first() {
    assert_eq!(
        to_query_error(ErrorKind::ParsingFailure, "timeout near x".to_string()),
        SqlppQueryError::InvalidArgument("malformed SQL++ statement: timeout near x".to_string())
    );
    for kind in [
        ErrorKind::BucketNotFound,
        ErrorKind::ScopeNotFound,
        ErrorKind::CollectionNotFound,
        ErrorKind::IndexNotFound,
    ] {
        assert_eq!(
            to_query_error(kind, "k".to_string()),
            SqlppQueryError::InvalidArgument(
                "the statement referenced a keyspace that does not exist: k".to_string()
            )
        );
    }
    assert_eq!(
        to_query_error(ErrorKind::Other, "timed out".to_string()),
        SqlppQueryError::Timeout
    );
    assert_eq!(
        to_query_error(ErrorKind::Other, "document not found".to_string()),
        SqlppQueryError::InvalidArgument(
            "the statement referenced a keyspace that does not exist".to_string()
        )
    );
    assert_eq!(
        to_query_error(ErrorKind::Other, "odd".to_string()),
        SqlppQueryError::Server("DocumentError::Other(\"odd\")".to_string())
    );
}

#[test]
fn writes_carry_their_options() {
    let table = bound();
    let (b, s) = insert(&table, "w", None).unwrap();
    assert_eq!(b.bucket, "travel");
    assert_eq!((s.flags, s.expiry, s.durability), (JSON_FLAGS, None, None));
    assert_eq!((s.preserve_expiry, s.cas, s.deadline_ms), (None, None, 1500));
    let options = DocumentInsertOptions {
        expires_in_ns: 1,
        flags: Some(3),
        persist_to: 0,
        replicate_to: 0,
        durability_level: DurabilityLevel::ReplicateMajorityPersistMaster,
        timeout_ns: Some(1),
    };
    let (_, s) = insert(&table, "w", Some(&options)).unwrap();
    assert_eq!((s.flags, s.expiry, s.deadline_ms), (3, Some(1), 1));
    assert_eq!(s.durability, Some(Durability::MajorityAndPersistActive));
    let options = DocumentUpsertOptions {
        expires_in_ns: 0,
        preserve_expiry: true,
        flags: None,
        persist_to: 0,
        replicate_to: 0,
        durability_level: DurabilityLevel::Off,
        timeout_ns: None,
    };
    let (_, s) = upsert(&table, "w", Some(&options)).unwrap();
    assert_eq!((s.preserve_expiry, s.expiry, s.durability), (Some(true), None, None));
    let options = DocumentReplaceOptions {
        cas: 5,
        expires_in_ns: 2_000_000_000,
        preserve_expiry: false,
        flags: None,
        persist_to: 0,
        replicate_to: 0,
        durability_level: DurabilityLevel::PersistMajority,
        timeout_ns: None,
    };
    let (_, s) = replace(&table, "w", Some(&options)).unwrap();
    assert_eq!((s.cas, s.expiry, s.preserve_expiry), (Some(5), Some(2), None));
    assert_eq!(s.durability, Some(Durability::PersistToMajority));
    let options = DocumentRemoveOptions {
        cas: 0,
        persist_to: 0,
        replicate_to: 1,
        durability_level: DurabilityLevel::Unknown,
        timeout_ns: None,
    };
    assert!(matches!(remove(&table, "w", Some(&options)), Err(DocumentError::Unsupported(_))));
    let (_, s) = remove(&table, "w", None).unwrap();
    assert_eq!(s.cas, None);
    assert!(matches!(insert(&table, "v", None), Err(DocumentError::NotConfigured(_))));
    assert!(reject_unhonoured(0, 0).is_ok());
    assert!(reject_unhonoured(1, 0).is_err());
    assert_eq!(durability(DurabilityLevel::ReplicateMajority), Some(Durability::Majority));
}

#[test]
fn reads_leave_empty_paths_out() {
    let table = bound();
    let options = |project, use_replica| DocumentGetOptions {
        with_expiry: true,
        project,
        use_replica,
        timeout_ns: None,
    };
    let paths = vec![String::new(), "a.b".to_string(), String::new()];
    let (_, s) = get(&table, "w", Some(&options(Some(paths), None))).unwrap();
    assert_eq!(s.projections, Some(vec!["a.b".to_string()]));
    assert_eq!(s.expiry, Some(true));
    let (_, s) =
        get(&table, "w", Some(&options(Some(vec![String::new()]), Some(ReplicaReadLevel::Off))))
            .unwrap();
    assert_eq!(s.projections, None);
    assert_eq!(
        get(&table, "w", Some(&options(None, Some(ReplicaReadLevel::On)))).unwrap_err(),
        DocumentError::Unsupported("the Couchbase Rust SDK exposes no replica read".to_string())
    );
    let (_, s) = get(&table, "w", None).unwrap();
    assert_eq!((s.projections, s.expiry, s.deadline_ms), (None, None, 1500));
    assert!(reject_replica_read(None).is_ok());
    assert!(matches!(get_any_replicas(), DocumentError::Unsupported(_)));
    assert!(matches!(get_all_replicas(), DocumentError::Unsupported(_)));
}

#[test]
fn locks_and_touches_need_their_numbers() {
    let table = bound();
    let (_, s) = get_and_lock(&table, "w", None).unwrap();
    assert_eq!((s.value, s.deadline_ms), (15, 1500));
    let options = DocumentGetAndLockOptions { lock_time: 1, timeout_ns: Some(3_000_000) };
    let (_, s) = get_and_lock(&table, "w", Some(&options)).unwrap();
    assert_eq!((s.value, s.deadline_ms), (1, 3));
    let options = DocumentUnlockOptions { cas: 9, timeout_ns: None };
    assert_eq!(unlock(&table, "w", Some(&options)).unwrap().1.value, 9);
    assert_eq!(
        unlock(&table, "w", None).unwrap_err(),
        DocumentError::InvalidArgument("unlock needs the CAS returned by get-and-lock".to_string())
    );
    let options = DocumentTouchOptions { expires_in: 1_000_000_001, timeout_ns: None };
    assert_eq!(touch(&table, "w", Some(&options)).unwrap().1.value, 2);
    assert!(matches!(touch(&table, "w", None), Err(DocumentError::InvalidArgument(_))));
    let options = DocumentGetAndTouchOptions { expires_in: 0, timeout_ns: None };
    assert_eq!(
        get_and_touch(&table, "w", Some(&options)).unwrap_err(),
        DocumentError::InvalidArgument("get-and-touch requires a non-zero expires-in".to_string())
    );
    assert!(matches!(unlock(&table, "", None), Err(DocumentError::NotConfigured(_))));
    assert_eq!(expiry(0), None);
    assert_eq!(effective_timeout_ms(&binding(), Some(u64::MAX)), u32::MAX);
    assert_eq!(effective_timeout_ms(&binding(), Some(0)), 1500);
}

#[test]
fn results_are_taken_over() {
    let t = SdkToken { partition_id: 3, partition_uuid: 4, sequence_number: 5 };
    let m = mutation(&binding(), 2, Some(t));
    assert_eq!((m.cas, m.partition_id, m.partition_uuid, m.seq), (2, 3, 4, 5));
    assert_eq!(m.bucket, "travel");
    let m = mutation(&binding(), 2, None);
    assert_eq!((m.partition_id, m.partition_uuid, m.seq, m.raw_token), (0, 0, 0, None));
    let g = get_result(vec![1], 7, 8, to_wit_time(0, 0));
    assert_eq!((g.document, g.flags, g.cas, g.expires_in_ns), (vec![1], 7, 8, None));
    assert!(g.expires_at.is_some());
}

#[test]
fn an_expiry_is_split_into_its_fields() {
    assert_eq!(
        to_wit_time(1_790_096_645, 123_456_789),
        Some(Time {
            offset: 0,
            year: 2026,
            month: 9,
            day: 22,
            hour: 17,
            minute: 4,
            second: 5,
            milliseconds: 123,
            nanoseconds: 456_789,
        })
    );
    let before = to_wit_time(-1, 0).unwrap();
    assert_eq!((before.year, before.month, before.day), (1969, 12, 31));
    assert_eq!((before.hour, before.minute, before.second), (23, 59, 59));
    // A leap second, and a nanosecond that is none.
    assert_eq!(to_wit_time(59, 1_500_000_000).unwrap().milliseconds, 1500);
    assert_eq!(to_wit_time(60, 1_500_000_000), None);
    assert_eq!(to_wit_time(59, 2_000_000_000), None);
    // The first and the last second there is.
    assert_eq!(to_wit_time(-8_334_601_228_800, 0).unwrap().year, -262_143);
    assert_eq!(to_wit_time(-8_334_601_228_801, 0), None);
    assert_eq!(to_wit_time(8_210_266_876_799, 0).unwrap().year, 262_142);
    assert_eq!(to_wit_time(8_210_266_876_800, 0), None);
    assert_eq!(to_wit_time(i64::MAX, 0), None);
    assert_eq!(to_wit_time(i64::MIN, 0), None);
}

#[test]
fn a_query_waits_for_exactly_the_writes_named() {
    let b = binding();
    assert_eq!(query_scan_consistency(None, &b), Ok(None));
    assert_eq!(query_scan_consistency(Some(&query_options()), &b), Ok(Some(Scan::RequestPlus)));
    let options =
        SqlppQueryOptions { scan_consistency: QueryScanConsistency::NotBounded, ..query_options() };
    assert_eq!(query_scan_consistency(Some(&options), &b), Ok(Some(Scan::NotBounded)));
    let options = after(vec![token("", 7, 1), token("travel", 8, 65535)]);
    assert_eq!(
        query_scan_consistency(Some(&options), &b),
        Ok(Some(Scan::AtPlus(vec![
            StateToken { partition_id: 1, partition_uuid: 7, sequence_number: 9 },
            StateToken { partition_id: 65535, partition_uuid: 8, sequence_number: 9 },
        ])))
    );
    for (tokens, part) in [
        (vec![token("other", 0, 1)], "bucket `other`"),
        (vec![token("travel", 0, 1)], "non-zero partition-uuid"),
        (vec![], "no mutation tokens"),
        (vec![token("travel", 1, 65536)], "partition-id 65536 is not a valid vbucket id"),
    ] {
        match query_scan_consistency(Some(&after(tokens)), &b) {
            Err(SqlppQueryError::InvalidArgument(m)) => assert!(m.contains(part), "{m}"),
            other => panic!("{other:?}"),
        }
    }
}

#[test]
fn a_query_carries_its_parameters() {
    let table = bound();
    let params = vec![SqlppValue::Json("[1]".to_string()), SqlppValue::Null];
    let (b, s) = query(&table, "w", &params, Some(&query_options())).unwrap();
    assert_eq!(b.scope, "_default");
    assert_eq!(s.args, Some(vec![Json::Array(vec![Json::Unsigned(1)]), Json::Null]));
    assert_eq!(s.scan, Some(Scan::RequestPlus));
    assert_eq!(s.timeout_ms, 1500);
    let (_, s) = query(&table, "w", &[], None).unwrap();
    assert!(s.args.is_none());
    assert!(s.scan.is_none());
    let options = SqlppQueryOptions { timeout_ns: 1, ..query_options() };
    let (_, s) = query(&table, "w", &[], Some(&options)).unwrap();
    assert_eq!(s.timeout_ms, 1);
    assert!(matches!(
        query(&table, "w", &[SqlppValue::Json("{".to_string())], None),
        Err(SqlppQueryError::InvalidArgument(m)) if m.starts_with("positional parameter 1 ")
    ));
    assert!(matches!(query(&table, "v", &[], None), Err(SqlppQueryError::NotConfigured(_))));
    assert_eq!(
        rows_value(vec![Json::Bool(true), Json::Text("x".to_string())]),
        SqlppValue::Json("[true,\"x\"]".to_string())
    );
}
