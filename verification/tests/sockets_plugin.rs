//! The operations of the socket transport.

use wasmcloud_plugins::bindings::Workloads;
use wasmcloud_plugins::http::{header, Method};
use wasmcloud_plugins::json;
use wasmcloud_plugins::sockets::config::Binding;
use wasmcloud_plugins::sockets::conn::{Connection, Reply, Stage};
use wasmcloud_plugins::sockets::plugin::{
    connect_failure, expiry_seconds, first_address, flags_of, get, get_all_replicas, get_and_lock,
    get_and_touch, get_any_replicas, insert, meta_request, mutation, on_workload_bind, read,
    read_document, reject_preserve_expiry, reject_replica, reject_unhonoured, remove, replace,
    resolve_failure, reusable, store, to_document_error, touch, unlock, unlocked, upsert, written,
};
use wasmcloud_plugins::sockets::project::{project, select};
use wasmcloud_plugins::sockets::proto::{
    encode_key, request, vbucket_for, ResponseHeader, HEADER_LEN, JSON_FLAGS, MAGIC_RESPONSE,
};
use wasmcloud_plugins::sockets::query::{header_rejection, parsed_answer, query, query_answer};
use wasmcloud_plugins::sockets::{feature, op, status};
use wasmcloud_plugins::types::{
    DocumentError, DocumentGetAndLockOptions, DocumentGetAndTouchOptions, DocumentGetOptions,
    DocumentInsertOptions, DocumentRemoveOptions, DocumentReplaceOptions, DocumentTouchOptions,
    DocumentUnlockOptions, DocumentUpsertOptions, DurabilityLevel, InterfaceBinding, MutationState,
    MutationToken, QueryScanConsistency, ReplicaReadLevel, SqlppQueryError, SqlppQueryOptions,
    SqlppValue, Time, WorkloadInfo,
};

fn pairs() -> Vec<(String, String)> {
    [
        ("endpoint", "couchbase://10.0.0.4"),
        ("bucket", "travel"),
        ("username", "app"),
        ("password", "s3cret"),
        ("scope", "inventory"),
    ]
    .iter()
    .map(|(k, v)| ((*k).to_string(), (*v).to_string()))
    .collect()
}

fn binding() -> Binding {
    Binding::from_config(&pairs()).unwrap()
}

fn bound() -> Workloads<Binding> {
    let mut bound = Workloads::new();
    bound.insert("w".to_string(), binding());
    bound
}

fn workload(config: Vec<(String, String)>) -> WorkloadInfo {
    WorkloadInfo {
        id: "w".to_string(),
        name: "shop".to_string(),
        namespace: "prod".to_string(),
        interfaces: vec![InterfaceBinding {
            namespace: "wasmcloud".to_string(),
            package: "couchbase".to_string(),
            config,
        }],
    }
}

fn response(status: u16, opaque: u32, cas: u64, extras: &[u8], key: &[u8], value: &[u8]) -> Vec<u8> {
    let mut bytes = vec![0u8; HEADER_LEN];
    bytes[0] = MAGIC_RESPONSE;
    bytes[2..4].copy_from_slice(&(key.len() as u16).to_be_bytes());
    bytes[4] = extras.len() as u8;
    bytes[6..8].copy_from_slice(&status.to_be_bytes());
    let body = (extras.len() + key.len() + value.len()) as u32;
    bytes[8..12].copy_from_slice(&body.to_be_bytes());
    bytes[12..16].copy_from_slice(&opaque.to_be_bytes());
    bytes[16..24].copy_from_slice(&cas.to_be_bytes());
    bytes.extend_from_slice(extras);
    bytes.extend_from_slice(key);
    bytes.extend_from_slice(value);
    bytes
}

fn reply(status: u16, cas: u64, extras: &[u8], value: &[u8]) -> Reply {
    let bytes = response(status, 1, cas, extras, b"", value);
    Reply {
        header: ResponseHeader::parse(&bytes[..HEADER_LEN]).unwrap(),
        extras: extras.to_vec(),
        key: Vec::new(),
        value: value.to_vec(),
    }
}

fn upsert_options() -> DocumentUpsertOptions {
    DocumentUpsertOptions {
        expires_in_ns: 0,
        preserve_expiry: false,
        flags: None,
        persist_to: 0,
        replicate_to: 0,
        durability_level: DurabilityLevel::Unknown,
        timeout_ns: None,
    }
}

fn query_options() -> SqlppQueryOptions {
    SqlppQueryOptions {
        scan_consistency: QueryScanConsistency::RequestPlus,
        consistent_with: None,
        scan_cap: 0,
        pipeline_batch: 0,
        pipeline_cap: 0,
        scan_wait_ns: 0,
        readonly: true,
        max_parallelism: 0,
        client_context_id: None,
        metrics: false,
        ad_hoc: true,
        timeout_ns: 0,
        preserve_expiry: false,
        use_flex_index: false,
    }
}

#[test]
fn the_handshake_goes_through_its_five_stages() {
    let b = binding();
    let mut c = Connection::new();
    let collections = feature::COLLECTIONS.to_be_bytes();
    let map = br#"{"vBucketServerMap":{"vBucketMap":[[0],[0]]}}"#;
    let mut id = vec![0u8; 12];
    id[11] = 9;
    let mut stage = Stage::Hello;
    for (opcode, answer) in [
        (op::HELLO, reply(status::OK, 0, b"", &collections)),
        (op::SASL_AUTH, reply(status::OK, 0, b"", b"")),
        (op::SELECT_BUCKET, reply(status::OK, 0, b"", b"")),
        (op::GET_CLUSTER_CONFIG, reply(status::OK, 0, b"", map)),
        (op::GET_COLLECTION_ID, reply(status::OK, 0, &id, b"")),
    ] {
        assert_ne!(stage, Stage::Ready);
        let frame = c.open(stage, &b);
        assert_eq!(frame[1], opcode);
        stage = c.opened(stage, &b, &answer).unwrap();
    }
    assert_eq!(stage, Stage::Ready);
    assert_eq!((c.vbuckets, c.collection_id, c.opaque), (2, 9, 5));
    assert_eq!(c.vbucket_for("k"), vbucket_for("k", 2));
    assert_eq!(c.wire_key("k"), encode_key(9, "k"));
}

#[test]
fn a_refused_handshake_says_where() {
    let b = binding();
    let mut c = Connection::new();
    let said = |c: &mut Connection, stage, code, value: &[u8]| {
        c.opened(stage, &b, &reply(code, 0, b"", value)).unwrap_err()
    };
    assert_eq!(said(&mut c, Stage::Hello, 0x0083, b""), "HELLO refused: status 0x0083");
    assert_eq!(
        said(&mut c, Stage::Hello, 0, b""),
        "the cluster did not agree to COLLECTIONS, which this plugin requires"
    );
    assert_eq!(said(&mut c, Stage::Authenticate, 0x20, b""), "authentication failed");
    assert_eq!(said(&mut c, Stage::Authenticate, 1, b""), "SASL PLAIN refused: status 0x0001");
    assert_eq!(
        said(&mut c, Stage::SelectBucket, 0x24, b""),
        "could not select bucket `travel`: status 0x0024"
    );
    assert_eq!(
        said(&mut c, Stage::ClusterConfig, 1, b""),
        "could not read the cluster config: status 0x0001"
    );
    assert_eq!(said(&mut c, Stage::ClusterConfig, 0, b"{}"), "cluster config has no vBucketMap");
    assert_eq!(
        said(&mut c, Stage::CollectionId, 0x88, b""),
        "no such scope or collection: `inventory._default`"
    );
    assert_eq!(
        said(&mut c, Stage::CollectionId, 1, b""),
        "could not resolve `inventory._default`: status 0x0001"
    );
    assert_eq!(said(&mut c, Stage::CollectionId, 0, b""), "collection-id extras too short: 0");
}

#[test]
fn a_reply_is_read_once_all_of_it_has_come() {
    let mut c = Connection::new();
    let frame = c.call(op::GET, 3, b"key", b"", b"", 0);
    assert_eq!(frame, request(op::GET, 3, b"key", b"", b"", 1, 0));
    let mut bytes = response(status::OK, 1, 42, &[1, 2, 3, 4], b"", b"value");
    bytes.extend_from_slice(b"next");
    assert!(c.receive(&bytes[..10]).is_ok());
    assert!(c.is_well_framed());
    assert!(c.reply().is_none());
    assert!(c.receive(&bytes[10..]).is_ok());
    assert!(c.is_well_framed());
    let answer = match c.reply() {
        Some(Ok(answer)) => answer,
        _ => panic!("no reply"),
    };
    assert!(answer.ok());
    assert_eq!(answer.header.cas, 42);
    assert_eq!(answer.extras, vec![1, 2, 3, 4]);
    assert_eq!(answer.value, b"value".to_vec());
    assert_eq!(c.pending, b"next".to_vec());
    assert_eq!(c.read_exactly(5), None);
    assert_eq!(c.read_exactly(4), Some(b"next".to_vec()));
    assert_eq!(c.receive(b"").unwrap_err(), "the cluster closed the connection");
}

#[test]
fn a_reply_to_another_request_is_refused() {
    let mut c = Connection::new();
    c.call(op::GET, 0, b"k", b"", b"", 0);
    assert!(c.receive(&response(status::OK, 7, 0, b"", b"", b"")).is_ok());
    assert!(c.is_well_framed());
    match c.reply() {
        Some(Err(e)) => assert_eq!(e, "response out of order: expected opaque 1, got 7"),
        _ => panic!("taken"),
    }
    assert!(c.receive(&[0u8; HEADER_LEN]).is_ok());
    assert!(matches!(c.reply(), Some(Err(_))));
    let mut bad = response(status::OK, 1, 0, &[1, 2], b"", b"");
    bad[4] = 9;
    assert!(c.receive(&bad).is_ok());
    assert!(!c.is_well_framed());
}

#[test]
fn statuses_keep_their_meaning() {
    for (code, had_cas, meant) in [
        (status::NOT_FOUND, true, DocumentError::NotFound),
        (status::NOT_STORED, false, DocumentError::NotFound),
        (status::EXISTS, true, DocumentError::CasMismatch),
        (status::EXISTS, false, DocumentError::AlreadyExists),
        (status::LOCKED, false, DocumentError::Locked),
        (status::NOT_LOCKED, false, DocumentError::NotLocked),
        (status::AUTH_ERROR, false, DocumentError::Unauthorized),
    ] {
        assert_eq!(to_document_error(code, had_cas), meant);
    }
    assert!(matches!(
        to_document_error(status::TOO_LARGE, false),
        DocumentError::InvalidArgument(_)
    ));
    assert!(matches!(
        to_document_error(status::UNKNOWN_COLLECTION, false),
        DocumentError::NotConfigured(_)
    ));
    assert!(matches!(
        to_document_error(status::UNKNOWN_COMMAND, false),
        DocumentError::Unsupported(_)
    ));
    assert_eq!(
        to_document_error(0x1234, false),
        DocumentError::Other("Couchbase status 0x1234".to_string())
    );
    assert!(reusable(None));
    assert!(reusable(Some(&DocumentError::NotFound)));
    assert!(!reusable(Some(&DocumentError::RequestFailed("x".to_string()))));
    assert!(!reusable(Some(&DocumentError::Other("x".to_string()))));
}

#[test]
fn a_write_is_framed_with_its_options() {
    let table = bound();
    let options = DocumentInsertOptions {
        expires_in_ns: 1,
        flags: Some(7),
        persist_to: 0,
        replicate_to: 0,
        durability_level: DurabilityLevel::Unknown,
        timeout_ns: None,
    };
    let (b, o) = insert(&table, "w", Some(&options)).unwrap();
    assert_eq!(b.bucket, "travel");
    assert_eq!((o.opcode, o.cas), (op::ADD, 0));
    assert_eq!(o.extras, vec![0, 0, 0, 7, 0, 0, 0, 1]);
    let mut c = Connection::new();
    c.vbuckets = 64;
    let frame = store(&mut c, &o, "doc", b"{}");
    assert_eq!(
        frame,
        request(op::ADD, vbucket_for("doc", 64), b"\x00doc", &o.extras, b"{}", 1, 0)
    );
    let mut token = 5u64.to_be_bytes().to_vec();
    token.extend_from_slice(&6u64.to_be_bytes());
    let m = written(b, &c, &o, "doc", &reply(status::OK, 3, &token, b"")).unwrap();
    assert_eq!((m.cas, m.partition_uuid, m.seq), (3, 5, 6));
    assert_eq!(m.partition_id, u64::from(vbucket_for("doc", 64)));
    assert_eq!(
        written(b, &c, &o, "doc", &reply(status::EXISTS, 0, b"", b"")).unwrap_err(),
        DocumentError::AlreadyExists
    );
    let (_, o) = upsert(&table, "w", None).unwrap();
    assert_eq!(o.opcode, op::SET);
    assert_eq!(o.extras[..4], JSON_FLAGS.to_be_bytes());
    let options = DocumentReplaceOptions {
        cas: 8,
        expires_in_ns: 0,
        preserve_expiry: false,
        flags: None,
        persist_to: 0,
        replicate_to: 0,
        durability_level: DurabilityLevel::Unknown,
        timeout_ns: None,
    };
    let (b, o) = replace(&table, "w", Some(&options)).unwrap();
    assert_eq!((o.opcode, o.cas), (op::REPLACE, 8));
    assert_eq!(
        written(b, &c, &o, "doc", &reply(status::EXISTS, 0, b"", b"")).unwrap_err(),
        DocumentError::CasMismatch
    );
    let options = DocumentRemoveOptions {
        cas: 4,
        persist_to: 0,
        replicate_to: 0,
        durability_level: DurabilityLevel::Unknown,
        timeout_ns: None,
    };
    let (_, o) = remove(&table, "w", Some(&options)).unwrap();
    assert_eq!((o.opcode, o.cas, o.extras.len()), (op::DELETE, 4, 0));
    let m = mutation(&binding(), 3, 9, b"");
    assert_eq!((m.cas, m.partition_id, m.partition_uuid, m.seq), (9, 3, 0, 0));
}

#[test]
fn a_document_is_routed_by_its_bare_id() {
    let table = bound();
    let (_, o) = upsert(&table, "w", None).unwrap();
    let mut plain = Connection::new();
    plain.vbuckets = 1024;
    let mut prefixed = Connection::new();
    prefixed.vbuckets = 1024;
    prefixed.collection_id = 300;
    let a = store(&mut plain, &o, "bench-doc", b"");
    let b = store(&mut prefixed, &o, "bench-doc", b"");
    assert_eq!(a[6..8], 868u16.to_be_bytes());
    assert_eq!(a[6..8], b[6..8]);
    assert_ne!(a[32..], b[32..]);
}

#[test]
fn what_cannot_be_honoured_is_refused() {
    let table = bound();
    let options = DocumentUpsertOptions { preserve_expiry: true, ..upsert_options() };
    assert!(matches!(
        upsert(&table, "w", Some(&options)),
        Err(DocumentError::Unsupported(m)) if m.contains("preserve-expiry")
    ));
    let options = DocumentUpsertOptions { persist_to: 2, ..upsert_options() };
    assert!(matches!(upsert(&table, "w", Some(&options)), Err(DocumentError::Unsupported(_))));
    assert!(reject_unhonoured(0, 0).is_ok());
    assert!(reject_preserve_expiry(false).is_ok());
    assert!(reject_replica(Some(ReplicaReadLevel::Off)).is_ok());
    assert!(reject_replica(Some(ReplicaReadLevel::On)).is_err());
    assert!(matches!(get_any_replicas(), DocumentError::Unsupported(_)));
    assert!(matches!(get_all_replicas(), DocumentError::Unsupported(_)));
    assert!(matches!(insert(&table, "v", None), Err(DocumentError::NotConfigured(_))));
}

#[test]
fn a_read_projects_and_reports_the_expiry() {
    let table = bound();
    let options = DocumentGetOptions {
        with_expiry: true,
        project: Some(vec![String::new(), "a.b".to_string()]),
        use_replica: None,
        timeout_ns: None,
    };
    let (_, o) = get(&table, "w", Some(&options)).unwrap();
    assert_eq!((o.opcode, o.with_expiry), (op::GET, true));
    assert_eq!(o.paths, vec!["a.b".to_string()]);
    let body = br#"{"a":{"b":1,"c":2},"d":3}"#;
    let answer = reply(status::OK, 6, &[0, 0, 0, 9], body);
    let document = read_document(&o, &answer).unwrap();
    assert_eq!(document, br#"{"a":{"b":1}}"#.to_vec());
    let mut meta = vec![0u8; 20];
    meta[8..12].copy_from_slice(&1_790_096_645u32.to_be_bytes());
    let g = read(&answer, document, Some(&reply(status::OK, 0, &meta, b"")));
    assert_eq!((g.cas, g.flags, g.expires_in_ns), (6, 9, None));
    assert_eq!(
        g.expires_at,
        Some(Time {
            offset: 0,
            year: 2026,
            month: 9,
            day: 22,
            hour: 17,
            minute: 4,
            second: 5,
            milliseconds: 0,
            nanoseconds: 0,
        })
    );
    assert_eq!(
        read_document(&o, &reply(status::OK, 0, b"", b"\xff")).unwrap_err(),
        DocumentError::NotJson
    );
    assert_eq!(
        read_document(&o, &reply(status::NOT_FOUND, 0, b"", b"")).unwrap_err(),
        DocumentError::NotFound
    );
    let mut c = Connection::new();
    assert_eq!(meta_request(&mut c, "k"), request(op::GET_META, 0, b"\x00k", b"", b"", 1, 0));
    assert_eq!(flags_of(&[1]), 0);
}

#[test]
fn a_projection_holds_what_the_document_holds() {
    let doc = json::parse_text(r#"{"a":{"b":null,"c":[1]},"d":"x"}"#).unwrap();
    let paths = |p: &[&str]| p.iter().map(|s| (*s).to_string()).collect::<Vec<_>>();
    assert_eq!(json::write(&select(&doc, &paths(&["a.b", "d"]))), r#"{"a":{"b":null},"d":"x"}"#);
    assert_eq!(json::write(&select(&doc, &paths(&["a.x", "q"]))), "{}");
    assert_eq!(json::write(&select(&doc, &paths(&["a.c", "a"]))), r#"{"a":{"b":null,"c":[1]}}"#);
    assert_eq!(project(b"nope", &paths(&["a"])).unwrap_err(), DocumentError::NotJson);
}

#[test]
fn locks_and_touches_are_framed() {
    let table = bound();
    let (_, o) = get_and_lock(&table, "w", None).unwrap();
    assert_eq!((o.opcode, o.extras), (op::GET_AND_LOCK, vec![0, 0, 0, 15]));
    let options = DocumentGetAndLockOptions { lock_time: 1_500_000_000, timeout_ns: None };
    let (_, o) = get_and_lock(&table, "w", Some(&options)).unwrap();
    assert_eq!(o.extras, vec![0, 0, 0, 2]);
    let options = DocumentUnlockOptions { cas: 3, timeout_ns: None };
    let (_, o) = unlock(&table, "w", Some(&options)).unwrap();
    assert_eq!((o.opcode, o.cas), (op::UNLOCK, 3));
    assert_eq!(unlocked(&o, &reply(status::OK, 0, b"", b"")), Ok(()));
    assert_eq!(
        unlocked(&o, &reply(status::EXISTS, 0, b"", b"")),
        Err(DocumentError::CasMismatch)
    );
    assert!(matches!(unlock(&table, "w", None), Err(DocumentError::InvalidArgument(_))));
    let options = DocumentTouchOptions { expires_in: 1, timeout_ns: None };
    let (_, o) = touch(&table, "w", Some(&options)).unwrap();
    assert_eq!((o.opcode, o.extras), (op::TOUCH, vec![0, 0, 0, 1]));
    assert!(matches!(touch(&table, "w", None), Err(DocumentError::InvalidArgument(_))));
    let options = DocumentGetAndTouchOptions { expires_in: 1, timeout_ns: None };
    let (_, o) = get_and_touch(&table, "w", Some(&options)).unwrap();
    assert_eq!(o.opcode, op::GET_AND_TOUCH);
    assert_eq!(expiry_seconds(0), 0);
    assert_eq!(expiry_seconds(1), 1);
    assert_eq!(expiry_seconds(u64::MAX), u32::MAX);
}

#[test]
fn a_workload_is_bound_and_reached_or_told_why_not() {
    assert_eq!(on_workload_bind(&workload(pairs())), Ok(Some(binding())));
    let err = on_workload_bind(&workload(Vec::new())).unwrap_err();
    assert!(err.starts_with("workload `shop` in namespace `prod`: wasmcloud:couchbase "), "{err}");
    assert_eq!(
        connect_failure(&workload(pairs()), &binding(), "refused"),
        "workload `shop`: could not reach Couchbase at `10.0.0.4:11210`: refused"
    );
    assert_eq!(resolve_failure(&binding(), "x"), "could not resolve `10.0.0.4`: x");
    assert_eq!(first_address(&binding(), vec![3, 4]), Ok(3));
    let none: Vec<u8> = Vec::new();
    assert_eq!(
        first_address(&binding(), none).unwrap_err(),
        "`10.0.0.4` resolved to no addresses"
    );
}

#[test]
fn a_query_goes_to_the_query_port() {
    let table = bound();
    let params = vec![SqlppValue::Json("1".to_string())];
    let request =
        query(&table, "w", "SELECT 1".to_string(), &params, Some(&query_options())).unwrap();
    assert_eq!(request.method, Method::Post);
    assert!(!request.secure);
    assert_eq!(request.authority, "10.0.0.4:8093");
    assert_eq!(request.path, "/query/service");
    assert_eq!(
        header(&request.headers, "authorization"),
        Some("Basic YXBwOnMzY3JldA==".to_string())
    );
    assert_eq!(request.timeout_ns, Some(30_000_000_000));
    let body: serde_json::Value = serde_json::from_slice(&request.body.unwrap()).unwrap();
    assert_eq!(body["statement"], "SELECT 1");
    assert_eq!(body["query_context"], "default:travel.inventory");
    assert_eq!(body["timeout"], "30000ms");
    assert_eq!(body["args"][0], 1);
    assert_eq!(body["scan_consistency"], "request_plus");
    let options = SqlppQueryOptions {
        consistent_with: Some(MutationState {
            tokens: vec![MutationToken {
                bucket_name: "travel".to_string(),
                partition_uuid: 7,
                partition_id: 2,
                sequence_number: 5,
            }],
        }),
        ..query_options()
    };
    let request = query(&table, "w", "S".to_string(), &[], Some(&options)).unwrap();
    let body: serde_json::Value = serde_json::from_slice(&request.body.unwrap()).unwrap();
    assert_eq!(body["scan_consistency"], "at_plus");
    assert_eq!(body["scan_vectors"]["travel"]["2"][0], 5);
    assert_eq!(body["scan_vectors"]["travel"]["2"][1], "7");
    assert!(matches!(
        query(&table, "v", "S".to_string(), &[], None),
        Err(SqlppQueryError::NotConfigured(_))
    ));
}

#[test]
fn the_query_service_s_own_code_decides() {
    for (code, meant) in [
        (3000, SqlppQueryError::InvalidArgument("m".to_string())),
        (
            12003,
            SqlppQueryError::InvalidArgument(
                "the statement referenced a keyspace that does not exist: m".to_string(),
            ),
        ),
        (13014, SqlppQueryError::Unauthorized),
        (5, SqlppQueryError::Server("HTTP 200: m".to_string())),
    ] {
        let payload = format!(r#"{{"errors":[{{"code":{code},"msg":"m"}}]}}"#);
        assert_eq!(query_answer(200, payload.as_bytes()), Err(meant));
    }
    assert_eq!(
        query_answer(200, br#"{"results":[{"b":1,"a":2}]}"#),
        Ok(SqlppValue::Json("[{\"a\":2,\"b\":1}]".to_string()))
    );
    assert_eq!(query_answer(200, b"{}"), Ok(SqlppValue::Json("[]".to_string())));
    assert!(query_answer(200, b"not json").is_err());
    assert_eq!(
        header_rejection("te", "Forbidden"),
        SqlppQueryError::Unexpected("header `te` rejected: Forbidden".to_string())
    );
    let parsed = json::parse_text(r#"{"errors":[{}]}"#).unwrap();
    assert_eq!(
        parsed_answer(503, &parsed),
        Err(SqlppQueryError::Server("HTTP 503: the query failed".to_string()))
    );
}
