//! What the Data API's replies mean, and what goes into its requests.

use wasmcloud_plugins::data_api::api::{
    classify, classify_parsed, durability_header, encode_segment, error_body, expiry_duration,
    format_cas, parse_cas, parse_expires, truncate, ErrorBody, Expiry, Failure, QueryError,
};

#[test]
fn parses_the_expires_header_the_gateway_actually_sends() {
    assert_eq!(
        parse_expires("Fri, 18 Sep 2026 18:06:29 UTC"),
        Some(Expiry { year: 2026, month: 9, day: 18, hour: 18, minute: 6, second: 29 })
    );
    assert_eq!(
        parse_expires("Fri, 18 Sep 2026 18:06:29 GMT"),
        parse_expires("Fri, 18 Sep 2026 18:06:29 UTC")
    );
}

#[test]
fn an_expires_value_that_is_not_a_date_is_none() {
    for bad in [
        "",
        "1h",
        "Fri, 18 Sep 2026 18:06:29",
        "Fri, 18 Sep 2026 18:06:29 PST",
        "Fri, 18 Sept 2026 18:06:29 UTC",
        "Fri, 32 Sep 2026 18:06:29 UTC",
        "Fri, 18 Sep 2026 24:00:00 UTC",
        "Fri, 18 Sep 2026 18:06 UTC",
        "Fri, 18 Sep 2026 18:06:29 UTC extra",
    ] {
        assert_eq!(parse_expires(bad), None, "{bad:?} should not parse");
    }
}

#[test]
fn a_code_decides_over_an_ambiguous_status() {
    assert_eq!(
        classify(409, br#"{"code":"CasMismatch","message":"stale"}"#),
        Failure::CasMismatch
    );
    assert_eq!(
        classify(409, br#"{"code":"DocumentExists","message":"taken"}"#),
        Failure::AlreadyExists
    );
    assert_eq!(classify(409, b""), Failure::AlreadyExists);
}

#[test]
fn maps_a_lock_held_by_another_client() {
    assert_eq!(
        classify(409, br#"{"code":"DocumentLocked","message":"locked"}"#),
        Failure::Locked
    );
    assert_eq!(
        classify(409, br#"{"code":"DocumentNotLocked","message":"nope"}"#),
        Failure::NotLocked
    );
}

#[test]
fn maps_the_documented_error_code_enum() {
    for code in ["DocumentNotFound", "BucketNotFound", "ScopeNotFound", "CollectionNotFound"] {
        let body = format!(r#"{{"code":"{code}","message":"x"}}"#);
        assert_eq!(classify(500, body.as_bytes()), Failure::NotFound, "{code}");
    }
    for code in ["InvalidAuth", "NoReadAccess", "NoWriteAccess"] {
        let body = format!(r#"{{"code":"{code}","message":"x"}}"#);
        assert_eq!(classify(500, body.as_bytes()), Failure::Unauthorized, "{code}");
    }
    for code in ["ValueTooLarge", "DurabilityImpossible", "PathInvalid"] {
        let body = format!(r#"{{"code":"{code}","message":"x"}}"#);
        assert!(
            matches!(classify(500, body.as_bytes()), Failure::InvalidArgument(_)),
            "{code}"
        );
    }
    assert_eq!(
        classify(500, br#"{"code":"DeadlineExceeded","message":"x"}"#),
        Failure::Timeout
    );
}

#[test]
fn maps_statuses_without_a_code() {
    assert_eq!(classify(404, b""), Failure::NotFound);
    assert_eq!(classify(401, b""), Failure::Unauthorized);
    assert_eq!(classify(403, b""), Failure::Unauthorized);
    assert_eq!(classify(412, b""), Failure::CasMismatch);
    assert_eq!(classify(504, b""), Failure::Timeout);
    assert!(matches!(classify(400, b""), Failure::InvalidArgument(_)));
}

#[test]
fn unmapped_statuses_keep_the_cluster_detail() {
    let failure = classify(503, br#"{"code":"Overloaded","message":"try later"}"#);
    assert_eq!(
        failure,
        Failure::Server {
            status: 503,
            code: Some("Overloaded".to_string()),
            message: "try later".to_string(),
        }
    );
}

#[test]
fn reads_query_service_error_arrays() {
    let body =
        br#"{"errors":[{"code":3000,"msg":"syntax error - line 1, column 7"}],"status":"fatal"}"#;
    assert_eq!(
        classify(500, body),
        Failure::Server {
            status: 500,
            code: Some("3000".to_string()),
            message: "syntax error - line 1, column 7".to_string(),
        }
    );
}

#[test]
fn falls_back_to_the_raw_body_when_json_parsing_fails() {
    let failure = classify(500, b"upstream exploded");
    assert_eq!(
        failure,
        Failure::Server { status: 500, code: None, message: "upstream exploded".to_string() }
    );
}

#[test]
fn an_empty_body_still_produces_a_useful_message() {
    let Failure::Server { message, .. } = classify(599, b"") else {
        panic!("expected a server failure");
    };
    assert!(message.contains("599"), "got: {message}");
}

#[test]
fn truncates_a_runaway_body_on_a_char_boundary() {
    let body = "é".repeat(1000);
    let Failure::Server { message, .. } = classify(500, body.as_bytes()) else {
        panic!("expected a server failure");
    };
    assert!(message.ends_with('…'));
    assert!(message.len() <= 512 + 3);
}

#[test]
fn parses_capellas_bare_hex_etag() {
    assert_eq!(parse_cas("18c86cb5894f0000"), 0x18c8_6cb5_894f_0000);
    let cas = 0x18c8_6cb5_894f_0000u64;
    assert_eq!(format_cas(cas), "18c86cb5894f0000");
    assert_eq!(parse_cas(&format_cas(cas)), cas);
}

#[test]
fn an_if_match_value_is_never_quoted() {
    let rendered = format_cas(1);
    assert!(!rendered.contains('"'), "got {rendered}");
    assert_eq!(rendered, "0000000000000001");
}

#[test]
fn parses_cas_in_every_shape_it_arrives_in() {
    assert_eq!(parse_cas("\"1234567890\""), 1_234_567_890);
    assert_eq!(parse_cas("1234567890"), 1_234_567_890);
    assert_eq!(parse_cas("\"0x1f\""), 31);
    assert_eq!(parse_cas("W/\"42\""), 42);
    assert_eq!(parse_cas("  \"7\"  "), 7);
    assert_eq!(parse_cas("1785796684354748416"), 1_785_796_684_354_748_416);
    assert_eq!(parse_cas("not-a-cas"), 0);
    assert_eq!(parse_cas(""), 0);
}

#[test]
fn escapes_characters_that_would_change_the_url() {
    assert_eq!(encode_segment("airline_10"), "airline_10");
    assert_eq!(encode_segment("a/b"), "a%2Fb");
    assert_eq!(encode_segment("with space"), "with%20space");
    assert_eq!(encode_segment("q?x=1#y"), "q%3Fx%3D1%23y");
    assert_eq!(encode_segment("safe-._~"), "safe-._~");
    assert_eq!(encode_segment("é"), "%C3%A9");
}

#[test]
fn formats_expiry_and_durability_for_the_wire() {
    assert_eq!(expiry_duration(600), "600s");
    assert_eq!(expiry_duration(0), "0s");
    assert_eq!(durability_header(0), "None");
    assert_eq!(durability_header(2), "MajorityAndPersistOnMaster");
    assert_eq!(durability_header(3), "PersistToMajority");
}

#[test]
fn truncation_keeps_as_much_as_fits() {
    assert_eq!(truncate("short", 512), "short");
    assert_eq!(truncate("abcdef", 4), "abcd…");
    // The second byte of `é` would be the fourth.
    assert_eq!(truncate("abcéf", 4), "abc…");
    assert_eq!(truncate("abcdef", 6), "abcdef");
    assert_eq!(truncate("é", 0), "…");
}

#[test]
fn every_cas_survives_a_round_trip() {
    for cas in [1u64, 9, 10, 0xff, 1_234_567_890, u64::MAX - 1, u64::MAX] {
        let text = format_cas(cas);
        assert_eq!(text.len(), 16);
        assert_eq!(parse_cas(&text), cas, "{text}");
    }
}

#[test]
fn a_typed_error_body_decides_like_a_read_one() {
    let body = ErrorBody {
        code: Some("DocumentLocked".to_string()),
        message: Some("held".to_string()),
        errors: Vec::new(),
    };
    assert_eq!(classify_parsed(500, b"ignored", &body), Failure::Locked);
    let queried = ErrorBody {
        code: None,
        message: None,
        errors: vec![QueryError { code: Some(12), msg: Some("bad".to_string()) }],
    };
    assert_eq!(
        classify_parsed(500, b"", &queried),
        Failure::Server { status: 500, code: Some("12".to_string()), message: "bad".to_string() }
    );
    assert_eq!(
        classify_parsed(404, b"", &queried),
        Failure::NotFound
    );
}

#[test]
fn an_error_body_is_read_leniently() {
    let body = error_body(br#"{"code":"X","message":"m","unknown":{"a":[1,2]}}"#);
    assert_eq!(body.code, Some("X".to_string()));
    assert_eq!(body.message, Some("m".to_string()));
    assert!(body.errors.is_empty());
    let silent = error_body(b"[not json");
    assert_eq!(silent.code, None);
    assert_eq!(silent.message, None);
    assert!(silent.errors.is_empty());
}

#[test]
fn every_durability_level_has_its_header() {
    assert_eq!(durability_header(1), "Majority");
    assert_eq!(durability_header(200), "None");
}

#[test]
fn a_cas_comes_back_bare_quoted_and_weak() {
    for cas in [0u64, 1, 0x1234_5678_9012_3456, u64::MAX] {
        let hex = format_cas(cas);
        assert_eq!(parse_cas(&hex), cas);
        assert_eq!(parse_cas(&format!("\"{hex}\"")), cas);
        assert_eq!(parse_cas(&format!("W/\"{hex}\"")), cas);
    }
}

#[test]
fn the_weekday_of_an_expiry_is_not_checked() {
    assert_eq!(
        parse_expires("Mon, 18 Sep 2026 18:06:29 GMT"),
        parse_expires("Fri, 18 Sep 2026 18:06:29 UTC")
    );
    assert!(parse_expires("Someday 18 Sep 2026 18:06:29 GMT").is_some());
}
