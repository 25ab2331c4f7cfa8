//! A run of the scenario, with a cluster that answers from a script.

use wasmcloud_plugins::scenario::options::{
    get_opts, insert_opts, query_opts, remove_opts, replace_opts, upsert_opts,
};
use wasmcloud_plugins::scenario::report::{
    answer, describe, describe_query, doc_text, show_bool, show_bytes, show_option, show_signed,
    Report,
};
use wasmcloud_plugins::scenario::run::{Action, Run, Stage, RAW_BINARY_FLAGS, SECOND_NS};
use wasmcloud_plugins::types::{
    DocumentError, DocumentGetResult, DurabilityLevel, MutationMetadata, QueryScanConsistency,
    SqlppQueryError, SqlppValue, Time,
};

fn done(cas: u64) -> Result<MutationMetadata, DocumentError> {
    Ok(MutationMetadata {
        cas,
        bucket: "travel".to_string(),
        partition_id: 5,
        partition_uuid: 6,
        seq: 7,
        raw_token: None,
    })
}

fn found(document: &[u8], year: Option<i32>) -> Result<DocumentGetResult, DocumentError> {
    Ok(DocumentGetResult {
        document: document.to_vec(),
        flags: RAW_BINARY_FLAGS,
        cas: 70,
        expires_in_ns: None,
        expires_at: year.map(|year| Time {
            offset: 0,
            year,
            month: 3,
            day: 4,
            hour: 0,
            minute: 0,
            second: 0,
            milliseconds: 0,
            nanoseconds: 0,
        }),
    })
}

fn unsupported() -> DocumentError {
    DocumentError::Unsupported("no".to_string())
}

/// Drive a run to its end. `locks` tells whether the transport has locks and
/// keeps expiries.
fn drive(locks: bool) -> (Vec<String>, usize) {
    let mut run = Run::new();
    let mut asked = 0;
    loop {
        let stage = run.stage;
        let action = run.ask();
        if action == Action::Nothing {
            return (run.report.lines, asked);
        }
        asked += 1;
        match action {
            Action::Remove(id, _) => run.written(if id == "scenario:absent" {
                Err(DocumentError::NotFound)
            } else {
                done(9)
            }),
            Action::Get(id, _) => run.read(match stage {
                Stage::GetMissing | Stage::GetAfterRemove => Err(DocumentError::NotFound),
                Stage::ReadPreserve | Stage::ReadExpiry => found(b"{}", Some(2030)),
                _ => {
                    assert!(id.starts_with("scenario:"));
                    found(&[0x00, 0xFF, 0xFE, 0x01, 0x80, 0x7F], None)
                }
            }),
            Action::Insert(_, _, _) => run.written(if stage == Stage::Insert {
                done(1)
            } else {
                Err(DocumentError::AlreadyExists)
            }),
            Action::Upsert(_, document, o) => {
                assert!(!document.is_empty());
                run.written(if o.persist_to != 0 || (o.preserve_expiry && !locks) {
                    Err(unsupported())
                } else {
                    done(2)
                })
            }
            Action::Replace(id, _, o) => run.written(if id == "scenario:absent" {
                Err(DocumentError::NotFound)
            } else if o.cas == 2 {
                done(3)
            } else {
                Err(DocumentError::CasMismatch)
            }),
            Action::Touch(_, o) => run.written(if o.expires_in == 0 {
                Err(DocumentError::InvalidArgument("zero".to_string()))
            } else {
                done(4)
            }),
            Action::GetAndTouch(_, _) => run.read(found(b"{\"n\":3}", None)),
            Action::GetAndLock(_) => {
                run.read(if locks { found(b"{}", None) } else { Err(unsupported()) })
            }
            Action::Unlock(_, o) => run.unlocked(match o {
                None => Err(unsupported()),
                Some(o) if o.cas == 70 => Ok(()),
                Some(_) => Err(DocumentError::CasMismatch),
            }),
            Action::Query(statement, _, o) => {
                let refused = statement == "SLECT bogus"
                    || statement == "SELECT RAW $1"
                    || o.as_ref().is_some_and(|o| {
                        o.consistent_with.as_ref().is_some_and(|s| s.tokens[0].partition_uuid != 6)
                    });
                run.answered(if refused {
                    Err(SqlppQueryError::InvalidArgument("x".to_string()))
                } else {
                    Ok(SqlppValue::Json("[1]".to_string()))
                })
            }
            Action::Nothing => unreachable!(),
        }
        assert_ne!(run.stage, stage);
    }
}

#[test]
fn a_run_reports_every_step_in_order() {
    let (lines, asked) = drive(true);
    assert_eq!(lines.len(), 33);
    assert!(asked <= 40);
    for (i, line) in lines.iter().enumerate() {
        assert!(line.starts_with(&format!("{:02} ", i + 1)), "{line}");
        assert!(line.contains(": OK "), "{line}");
    }
    assert_eq!(lines[0], "01 get-missing: OK not-found");
    assert_eq!(lines[1], "02 insert: OK cas=1 bucket=travel");
    assert_eq!(lines[5], "06 cas-changed: OK cas1=1 cas2=2 differ=true");
    assert_eq!(lines[12], "13 get-and-touch: OK cas=70 doc={\"n\":3}");
    assert_eq!(lines[14], "15 get-and-lock: OK locked cas=70");
    assert_eq!(lines[15], "16 unlock: OK lock held, refused a wrong cas, then released");
    assert_eq!(lines[16], "17 sqlpp-parameterized: OK rows=[1]");
    assert_eq!(lines[23], "24 preserve-expiry: OK honoured, TTL survived the rewrite");
    assert_eq!(lines[28], "29 mutation-token-parsed: OK vbid=5 vbuuid=6 seq=7 raw=None");
    assert_eq!(lines[30], "31 get-with-expiry: OK expires-at=2030-03-04");
    assert_eq!(
        lines[32],
        "33 binary-round-trips-byte-for-byte: OK bytes=[0, 255, 254, 1, 128, 127] identical=true flags=0x03000000"
    );
}

#[test]
fn a_transport_without_locks_is_coherent_too() {
    let (lines, _) = drive(false);
    assert_eq!(lines.len(), 33);
    assert_eq!(lines[14], "15 get-and-lock: OK unsupported on this transport");
    assert_eq!(lines[15], "16 unlock: OK unsupported(no)");
    assert_eq!(lines[23], "24 preserve-expiry: OK unsupported on this transport");
}

#[test]
fn a_run_that_always_fails_leaves_two_steps_out() {
    let mut run = Run::new();
    let mut asked = 0;
    while run.ask() != Action::Nothing {
        asked += 1;
        // Only the outcome that the run waits for changes anything.
        run.written(Err(DocumentError::Timeout));
        run.read(Err(DocumentError::Timeout));
        run.unlocked(Err(DocumentError::Timeout));
        run.answered(Err(SqlppQueryError::Timeout));
        assert!(asked <= 40);
    }
    assert_eq!(run.report.lines.len(), 31);
    assert!(run.report.lines.iter().all(|l| !l.contains(": OK ") || l.starts_with("06 ")));
    assert!(run.report.lines.iter().all(|l| !l.starts_with("16 ") && !l.starts_with("30 ")));
    assert_eq!(
        run.report.lines[0],
        "01 get-missing: WRONG-ERR got timeout, wanted not-found"
    );
    assert_eq!(run.report.lines[1], "02 insert: UNEXPECTED-ERR timeout");
}

#[test]
fn an_outcome_that_was_not_asked_for_changes_nothing() {
    let mut run = Run::new();
    run.unlocked(Ok(()));
    run.answered(Ok(SqlppValue::Null));
    run.read(found(b"", None));
    assert_eq!(run.stage, Stage::Clear);
    assert!(run.report.lines.is_empty());
}

#[test]
fn a_lock_s_cas_wraps_around() {
    let mut run = Run::new();
    run.stage = Stage::UnlockWrong;
    run.lock_cas = u64::MAX;
    match run.ask() {
        Action::Unlock(_, Some(o)) => assert_eq!(o.cas, 0),
        other => panic!("{other:?}"),
    }
    run.unlocked(Ok(()));
    assert_eq!(
        run.report.lines,
        vec!["16 unlock: UNEXPECTED-OK unlock accepted a CAS that was not the lock's".to_string()]
    );
}

#[test]
fn an_expiry_in_the_past_is_told() {
    let mut run = Run::new();
    run.stage = Stage::ReadExpiry;
    run.read(found(b"", Some(-7)));
    run.stage = Stage::ReadExpiry;
    run.read(found(b"", None));
    assert_eq!(
        run.report.lines,
        vec![
            "31 get-with-expiry: UNEXPECTED-OK expires-at is in the past: year -7".to_string(),
            "31 get-with-expiry: UNEXPECTED-OK with-expiry was set but no expires-at came back"
                .to_string(),
        ]
    );
}

#[test]
fn errors_are_described_by_name() {
    for (error, name) in [
        (DocumentError::NotFound, "not-found"),
        (DocumentError::CasMismatch, "cas-mismatch"),
        (DocumentError::Locked, "locked"),
        (DocumentError::NotLocked, "not-locked"),
        (DocumentError::AlreadyExists, "already-exists"),
        (DocumentError::NotJson, "not-json"),
        (DocumentError::PathNotFound, "path-not-found"),
        (DocumentError::PathInvalid, "path-invalid"),
        (DocumentError::PathTooDeep, "path-too-deep"),
        (DocumentError::InvalidValue, "invalid-value"),
        (DocumentError::SubdocumentDeltaInvalid, "subdocument-delta-invalid"),
        (DocumentError::Unauthorized, "unauthorized"),
        (DocumentError::NotConfigured("m".to_string()), "not-configured(m)"),
        (DocumentError::RequestFailed("m".to_string()), "request-failed(m)"),
        (DocumentError::Timeout, "timeout"),
        (DocumentError::Unsupported("m".to_string()), "unsupported(m)"),
        (DocumentError::InvalidArgument("m".to_string()), "invalid-argument(m)"),
        (DocumentError::Other("m".to_string()), "other(m)"),
    ] {
        assert_eq!(describe(&error), name);
    }
    for (error, name) in [
        (SqlppQueryError::Unexpected("m".to_string()), "unexpected(m)"),
        (SqlppQueryError::InvalidArgument("m".to_string()), "invalid-argument(m)"),
        (SqlppQueryError::Unauthorized, "unauthorized"),
        (SqlppQueryError::NotConfigured("m".to_string()), "not-configured(m)"),
        (SqlppQueryError::RequestFailed("m".to_string()), "request-failed(m)"),
        (SqlppQueryError::Timeout, "timeout"),
        (SqlppQueryError::Server("m".to_string()), "server(m)"),
    ] {
        assert_eq!(describe_query(&error), name);
    }
}

#[test]
fn a_report_is_served_line_by_line() {
    let mut report = Report::new();
    assert!(answer(&report).body.is_empty());
    report.push("a", "b");
    report.ok("c", Ok("d".to_string()));
    report.ok("e", Err("f".to_string()));
    report.expect_err("g", "h", Ok(()));
    report.expect_err("i", "j", Err("jk".to_string()));
    report.expect_err("l", "m", Err("n".to_string()));
    let served = answer(&report);
    assert_eq!(served.status, 200);
    assert_eq!(served.headers, vec![("content-type".to_string(), b"text/plain".to_vec())]);
    assert_eq!(
        String::from_utf8(served.body).unwrap(),
        "a: b\nc: OK d\ne: UNEXPECTED-ERR f\ng: UNEXPECTED-OK (wanted h)\ni: OK jk\nl: WRONG-ERR got n, wanted m"
    );
}

#[test]
fn values_are_shown_like_std_shows_them() {
    assert_eq!(show_bytes(&[]), format!("{:?}", Vec::<u8>::new()));
    assert_eq!(show_bytes(&[7]), format!("{:?}", vec![7u8]));
    assert_eq!(show_bytes(&[7, 255, 0]), format!("{:?}", vec![7u8, 255, 0]));
    assert_eq!(show_option(&None), "None");
    let raw = Some("a\"\n".to_string());
    assert_eq!(show_option(&raw), format!("{raw:?}"));
    assert_eq!(show_bool(true), "true");
    assert_eq!(show_bool(false), "false");
    assert_eq!(show_signed(i32::MIN), i32::MIN.to_string());
    assert_eq!(show_signed(0), "0");
    assert_eq!(doc_text(b"a\xffb"), "a\u{fffd}b");
}

#[test]
fn options_set_only_what_they_name() {
    let o = insert_opts(3);
    assert_eq!((o.expires_in_ns, o.flags, o.timeout_ns), (3, None, None));
    assert_eq!((o.persist_to, o.replicate_to), (0, 0));
    assert_eq!(o.durability_level, DurabilityLevel::Unknown);
    let o = upsert_opts(600 * SECOND_NS);
    assert_eq!((o.expires_in_ns, o.preserve_expiry), (600_000_000_000, false));
    let o = replace_opts(5);
    assert_eq!((o.cas, o.expires_in_ns), (5, 0));
    assert_eq!(remove_opts(6).cas, 6);
    let o = get_opts(Some(vec!["a".to_string()]));
    assert_eq!(o.project, Some(vec!["a".to_string()]));
    assert!(!o.with_expiry && o.use_replica.is_none() && o.timeout_ns.is_none());
    let o = query_opts(true);
    assert_eq!(o.scan_consistency, QueryScanConsistency::RequestPlus);
    assert!(o.readonly && o.metrics && o.ad_hoc && !o.preserve_expiry && !o.use_flex_index);
    assert!(o.consistent_with.is_none() && o.client_context_id.is_none());
    assert_eq!(o.timeout_ns, 0);
}
