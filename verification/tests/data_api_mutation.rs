//! Mutation tokens, and the times that the Data API is sent.

use wasmcloud_plugins::calendar::civil_from_days;
use wasmcloud_plugins::data_api::mutation::{parse, scan_vector, Parts, Token};
use wasmcloud_plugins::data_api::timefmt::iso8601_utc;
use wasmcloud_plugins::json::{self, Json};

fn structured(raw: &str) -> Parts {
    match parse(raw).expect("token should be present") {
        Token::Structured(parts) => parts,
        Token::Opaque(raw) => panic!("expected structured, got opaque {raw}"),
    }
}

#[test]
fn absent_or_blank_is_no_token() {
    assert!(parse("").is_none());
    assert!(parse("   ").is_none());
}

#[test]
fn parses_a_named_json_token() {
    let parts =
        structured(r#"{"bucket":"travel","vbid":5,"vbuuid":"205096593892159","seqno":"42"}"#);
    assert_eq!(
        parts,
        Parts {
            bucket: "travel".to_string(),
            partition_id: 5,
            partition_uuid: 205_096_593_892_159,
            sequence_number: 42,
        }
    );
}

#[test]
fn accepts_the_alternate_field_spellings() {
    let parts = structured(
        r#"{"bucket_name":"b","partition_id":7,"partition_uuid":9,"sequence_number":11}"#,
    );
    assert_eq!(parts.partition_id, 7);
    assert_eq!(parts.partition_uuid, 9);
    assert_eq!(parts.sequence_number, 11);
    assert_eq!(parts.bucket, "b");
}

#[test]
fn accepts_values_past_2_to_the_53_as_strings() {
    let parts =
        structured(r#"{"vbid":1,"vbuuid":"18446744073709551615","seqno":"9007199254740993"}"#);
    assert_eq!(parts.partition_uuid, u64::MAX);
    assert_eq!(parts.sequence_number, 9_007_199_254_740_993);
}

#[test]
fn parses_capellas_wire_form() {
    let parts = structured("travel-sample:16:794f18f71747:512");
    assert_eq!(
        parts,
        Parts {
            bucket: "travel-sample".to_string(),
            partition_id: 16,
            partition_uuid: 0x794f_18f7_1747,
            sequence_number: 512,
        }
    );
}

#[test]
fn an_unfamiliar_encoding_stays_opaque_rather_than_being_guessed() {
    for raw in [
        "123:456:789",
        "607/205096593892159:2",
        "bucket,5,205096593892159,42",
        "gAAAAAAAAAE=",
        "bucket:notanumber:794f18f71747:512",
        "bucket:16:zzzz:512",
        ":16:794f18f71747:512",
    ] {
        assert_eq!(
            parse(raw),
            Some(Token::Opaque(raw.to_string())),
            "{raw} must not be parsed structurally"
        );
    }
}

#[test]
fn a_json_token_missing_a_field_is_opaque_not_partial() {
    assert!(matches!(
        parse(r#"{"vbid":5,"seqno":42}"#),
        Some(Token::Opaque(_))
    ));
}

#[test]
fn builds_the_documented_sparse_scan_vector() {
    let tokens = vec![
        Token::Structured(Parts {
            bucket: "b".into(),
            partition_id: 5,
            partition_uuid: 5409393,
            sequence_number: 12,
        }),
        Token::Structured(Parts {
            bucket: "b".into(),
            partition_id: 19,
            partition_uuid: 47574574,
            sequence_number: 34,
        }),
    ];
    let vector = scan_vector(&tokens).expect("structured tokens build a vector");
    assert_eq!(
        vector.get("5"),
        Some(&Json::Array(vec![Json::Unsigned(12), Json::Text("5409393".to_string())]))
    );
    assert_eq!(
        vector.get("19"),
        Some(&Json::Array(vec![Json::Unsigned(34), Json::Text("47574574".to_string())]))
    );
    let written: serde_json::Value = serde_json::from_str(&json::write(&vector)).unwrap();
    assert_eq!(written["5"][0], 12);
    assert_eq!(written["19"][1], "47574574");
}

#[test]
fn refuses_to_build_a_vector_it_cannot_fully_justify() {
    assert!(scan_vector(&[]).is_none());
    assert!(scan_vector(&[Token::Opaque("?".into())]).is_none());
    assert!(scan_vector(&[Token::Structured(Parts {
        bucket: "b".into(),
        partition_id: 1,
        partition_uuid: 0,
        sequence_number: 5,
    })])
    .is_none());
}

#[test]
fn a_colon_form_reads_back_what_was_written() {
    for (id, uuid, seq) in [(0u64, 1u64, 0u64), (1023, u64::MAX, u64::MAX), (16, 0xabc, 7)] {
        let parts = structured(&format!("bucket:{id}:{uuid:x}:{seq}"));
        assert_eq!(
            (parts.partition_id, parts.partition_uuid, parts.sequence_number),
            (id, uuid, seq)
        );
    }
}

#[test]
fn a_bucket_that_is_a_number_is_not_guessed_at() {
    for raw in ["123:456:789:1", "0:1:2:3", "99999999999999999999999:1:2:3"] {
        assert_eq!(parse(raw), Some(Token::Opaque(raw.to_string())));
    }
    assert_eq!(structured("1a:1:2:3").bucket, "1a");
}

#[test]
fn a_token_gives_either_its_parts_or_its_text() {
    let known = parse("b:1:2:3").unwrap();
    assert_eq!(known.parts().unwrap().partition_uuid, 2);
    assert_eq!(known.raw(), None);
    let unknown = parse("  ??  ").unwrap();
    assert!(unknown.parts().is_none());
    assert_eq!(unknown.raw(), Some("??"));
}

#[test]
fn formats_the_epoch() {
    assert_eq!(iso8601_utc(0), "1970-01-01T00:00:00.000Z");
}

#[test]
fn formats_a_known_instant() {
    assert_eq!(iso8601_utc(1_234_567_890), "2009-02-13T23:31:30.000Z");
}

#[test]
fn handles_leap_days() {
    assert_eq!(iso8601_utc(1_709_164_800), "2024-02-29T00:00:00.000Z");
    assert_eq!(iso8601_utc(951_782_400), "2000-02-29T00:00:00.000Z");
}

#[test]
fn handles_year_boundaries() {
    assert_eq!(iso8601_utc(1_767_225_599), "2025-12-31T23:59:59.000Z");
    assert_eq!(iso8601_utc(1_767_225_600), "2026-01-01T00:00:00.000Z");
}

#[test]
fn handles_pre_epoch_instants() {
    assert_eq!(iso8601_utc(-1), "1969-12-31T23:59:59.000Z");
}

#[test]
fn round_trips_every_day_boundary_for_a_century() {
    let (mut py, mut pm, mut pd) = (1970i64, 1u32, 1u32);
    for day in 1..=36_525i64 {
        let (y, m, d) = civil_from_days(day);
        let advanced_within_month = y == py && m == pm && d == pd + 1;
        let rolled_month = (y == py && m == pm + 1 && d == 1) || (y == py + 1 && m == 1 && d == 1);
        assert!(
            advanced_within_month || rolled_month,
            "day {day} produced {y:04}-{m:02}-{d:02} after {py:04}-{pm:02}-{pd:02}"
        );
        (py, pm, pd) = (y, m, d);
    }
    assert_eq!(civil_from_days(100 * 365 + 25), (2070, 1, 1));
}

#[test]
fn far_instants_are_formatted_too() {
    assert_eq!(iso8601_utc(-62_135_596_800), "0001-01-01T00:00:00.000Z");
    assert_eq!(iso8601_utc(253_402_300_800), "10000-01-01T00:00:00.000Z");
    assert_eq!(iso8601_utc(-62_198_755_200), "-001-01-01T00:00:00.000Z");
}

#[test]
fn later_instants_sort_later() {
    let instants = [
        -62_167_219_200i64,
        -62_135_596_801,
        -1,
        0,
        59,
        60,
        3_599,
        3_600,
        86_399,
        86_400,
        951_782_399,
        951_782_400,
        1_767_225_599,
        1_767_225_600,
        253_402_300_799,
    ];
    for pair in instants.windows(2) {
        let (a, b) = (iso8601_utc(pair[0]), iso8601_utc(pair[1]));
        assert_eq!((a.len(), b.len()), (24, 24));
        assert!(a < b, "{a} {b}");
    }
    assert_eq!(iso8601_utc(-62_167_219_200), "0000-01-01T00:00:00.000Z");
    assert_eq!(iso8601_utc(253_402_300_799), "9999-12-31T23:59:59.000Z");
}
