//! The KV binary protocol.

use wasmcloud_plugins::sockets::proto::{
    civil_from_unix, crc32, encode_key, hello_features, leb128, parse_collection_id,
    parse_hello_response, parse_meta_expiry, parse_mutation_token, parse_vbucket_count, request,
    sasl_plain, store_extras, vbucket_for, Civil, ResponseHeader, HEADER_LEN, JSON_FLAGS,
    MAGIC_REQUEST, MAGIC_RESPONSE,
};
use wasmcloud_plugins::sockets::{feature, op, status};

#[test]
fn a_request_frame_has_the_documented_layout() {
    let frame = request(op::GET, 0x0364, b"key", b"", b"", 7, 0);
    assert_eq!(frame[0], MAGIC_REQUEST);
    assert_eq!(frame[1], op::GET);
    assert_eq!(&frame[2..4], &3u16.to_be_bytes());
    assert_eq!(frame[4], 0);
    assert_eq!(&frame[6..8], &0x0364u16.to_be_bytes());
    assert_eq!(&frame[8..12], &3u32.to_be_bytes());
    assert_eq!(&frame[12..16], &7u32.to_be_bytes());
    assert_eq!(&frame[HEADER_LEN..], b"key");
}

#[test]
fn a_response_header_round_trips() {
    let mut bytes = vec![0u8; HEADER_LEN];
    bytes[0] = MAGIC_RESPONSE;
    bytes[1] = op::GET;
    bytes[4] = 4;
    bytes[6..8].copy_from_slice(&status::NOT_FOUND.to_be_bytes());
    bytes[8..12].copy_from_slice(&10u32.to_be_bytes());
    bytes[16..24].copy_from_slice(&42u64.to_be_bytes());

    let header = ResponseHeader::parse(&bytes).unwrap();
    assert_eq!(header.status, status::NOT_FOUND);
    assert_eq!(header.body_len, 10);
    assert_eq!(header.cas, 42);
    assert_eq!(header.extras_len, 4);
    assert_eq!(header.value_offset(), 4);
}

#[test]
fn a_request_magic_is_not_mistaken_for_a_response() {
    let mut bytes = vec![0u8; HEADER_LEN];
    bytes[0] = MAGIC_REQUEST;
    assert!(ResponseHeader::parse(&bytes).is_err());
    assert!(ResponseHeader::parse(&[MAGIC_RESPONSE; 4]).is_err());
}

#[test]
fn leb128_matches_the_collection_prefix_format() {
    assert_eq!(leb128(0), vec![0x00]);
    assert_eq!(leb128(1), vec![0x01]);
    assert_eq!(leb128(127), vec![0x7f]);
    assert_eq!(leb128(128), vec![0x80, 0x01]);
    assert_eq!(leb128(300), vec![0xac, 0x02]);
}

#[test]
fn the_wire_key_carries_the_collection_prefix() {
    assert_eq!(encode_key(0, "doc"), b"\x00doc".to_vec());
    assert_eq!(encode_key(300, "doc"), b"\xac\x02doc".to_vec());
}

#[test]
fn the_vbucket_comes_from_the_bare_key() {
    assert_eq!(vbucket_for("bench-doc", 1024), 868);
}

#[test]
fn vbucket_selection_stays_in_range() {
    for key in ["", "a", "scenario:doc", "a much longer document identifier"] {
        for total in [64u16, 128, 1024] {
            assert!(vbucket_for(key, total) < total, "{key} in {total}");
        }
    }
    assert_eq!(vbucket_for("k", 0), 0);
}

#[test]
fn sasl_plain_is_nul_separated() {
    assert_eq!(sasl_plain("user", "pass"), b"\0user\0pass".to_vec());
}

#[test]
fn hello_asks_for_the_features_the_plugin_depends_on() {
    let features = parse_hello_response(&hello_features());
    assert!(features.contains(&feature::COLLECTIONS));
    assert!(features.contains(&feature::MUTATION_SEQNO));
    assert!(features.contains(&feature::JSON));
}

#[test]
fn reads_the_collection_id_out_of_extras() {
    let mut extras = vec![0u8; 12];
    extras[8..12].copy_from_slice(&9u32.to_be_bytes());
    assert_eq!(parse_collection_id(&extras).unwrap(), 9);
    assert!(parse_collection_id(&[0u8; 4]).is_err());
}

#[test]
fn reads_the_vbucket_count_from_a_cluster_config() {
    let config = br#"{"vBucketServerMap":{"vBucketMap":[[0],[0],[0],[0]]}}"#;
    assert_eq!(parse_vbucket_count(config).unwrap(), 4);
    assert!(parse_vbucket_count(br#"{"nodesExt":[]}"#).is_err());
    assert!(parse_vbucket_count(b"not json").is_err());
}

#[test]
fn reads_a_mutation_token_from_a_write() {
    let mut extras = Vec::new();
    extras.extend_from_slice(&0x1234_5678_9abc_def0u64.to_be_bytes());
    extras.extend_from_slice(&42u64.to_be_bytes());
    assert_eq!(parse_mutation_token(&extras), Some((0x1234_5678_9abc_def0, 42)));
    assert_eq!(parse_mutation_token(&[]), None);
    assert_eq!(parse_mutation_token(&[0u8; 8]), None);
}

#[test]
fn reads_the_expiry_out_of_meta_extras() {
    let mut extras = vec![0u8; 20];
    extras[8..12].copy_from_slice(&1_700_000_000u32.to_be_bytes());
    assert_eq!(parse_meta_expiry(&extras), Some(1_700_000_000));
    assert_eq!(parse_meta_expiry(&vec![0u8; 20]), None);
    assert_eq!(parse_meta_expiry(&[0u8; 4]), None);
}

#[test]
fn converts_unix_seconds_to_a_civil_date() {
    assert_eq!(
        civil_from_unix(0),
        Civil { year: 1970, month: 1, day: 1, hour: 0, minute: 0, second: 0 }
    );
    assert_eq!(
        civil_from_unix(1_790_096_645),
        Civil { year: 2026, month: 9, day: 22, hour: 17, minute: 4, second: 5 }
    );
    assert_eq!(
        civil_from_unix(1_709_164_800),
        Civil { year: 2024, month: 2, day: 29, hour: 0, minute: 0, second: 0 }
    );
    assert_eq!(
        civil_from_unix(1_735_689_599),
        Civil { year: 2024, month: 12, day: 31, hour: 23, minute: 59, second: 59 }
    );
}

#[test]
fn store_extras_carry_flags_then_expiry() {
    let extras = store_extras(JSON_FLAGS, 600);
    assert_eq!(&extras[0..4], &JSON_FLAGS.to_be_bytes());
    assert_eq!(&extras[4..8], &600u32.to_be_bytes());
}

#[test]
fn the_checksum_is_the_usual_one() {
    assert_eq!(crc32(b"123456789"), 0xcbf4_3926);
    assert_eq!(crc32(b""), 0);
}

#[test]
fn different_documents_have_different_wire_keys() {
    assert_ne!(encode_key(0, "a"), encode_key(1, "a"));
    assert_ne!(encode_key(300, "a"), encode_key(300, "b"));
    // A long prefix is told from a key that begins with its bytes.
    assert_eq!(encode_key(u32::MAX, "k"), b"\xff\xff\xff\xff\x0fk".to_vec());
}

#[test]
fn a_cluster_config_with_no_map_says_so() {
    assert_eq!(
        parse_vbucket_count(br#"{"vBucketServerMap":{}}"#).unwrap_err(),
        "cluster config has no vBucketMap"
    );
    assert_eq!(
        parse_vbucket_count(br#"{"vBucketServerMap":{"vBucketMap":7}}"#).unwrap_err(),
        "cluster config has no vBucketMap"
    );
}
