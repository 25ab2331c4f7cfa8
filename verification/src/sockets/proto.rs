//! The Couchbase KV binary protocol: framing, key encoding, and routing.
//!
//! # The two rules that are easy to get wrong
//!
//! **Hash the bare key, send the prefixed key.** With `COLLECTIONS` negotiated,
//! a request's key is the collection id as leb128 followed by the document id,
//! but the vbucket is computed from the document id *alone*. Hashing the
//! prefixed form routes to the wrong vbucket.
//!
//! **A wrong vbucket does not always announce itself.** On a single-node
//! cluster the node owns every vbucket, so a misrouted read is answered from
//! the wrong one and comes back `not-found` rather than `not-my-vbucket`. A
//! routing bug looks exactly like a missing document.

use vstd::prelude::*;
use vstd::string::*;
use vstd::utf8::*;

use crate::calendar;
use crate::json;
use crate::json::Json;
use crate::number;
use crate::sockets::feature;
use crate::wire;

verus! {

/// Request magic.
pub const MAGIC_REQUEST: u8 = 0x80;

/// Response magic.
pub const MAGIC_RESPONSE: u8 = 0x81;

/// Every request and response starts with a fixed 24-byte header.
pub const HEADER_LEN: usize = 24;

/// The JSON common-flags value, matching what every Couchbase SDK writes.
pub const JSON_FLAGS: u32 = 0x0200_0006;

/// A parsed response header.
#[derive(Debug, Clone, Copy, PartialEq, Eq, Structural)]
pub struct ResponseHeader {
    pub opcode: u8,
    pub key_len: usize,
    pub extras_len: usize,
    pub data_type: u8,
    pub status: u16,
    pub body_len: usize,
    pub opaque: u32,
    pub cas: u64,
}

/// The number that bytes `from` to `to` spell.
pub open spec fn field(bytes: Seq<u8>, from: int, to: int) -> nat {
    wire::be_value(bytes.subrange(from, to))
}

/// Whether bytes begin with a whole response header.
pub open spec fn is_response(bytes: Seq<u8>) -> bool {
    bytes.len() >= 24 && bytes[0] == MAGIC_RESPONSE
}

/// The header at the front of a response.
pub open spec fn header_of(bytes: Seq<u8>) -> ResponseHeader {
    ResponseHeader {
        opcode: bytes[1],
        key_len: field(bytes, 2, 4) as usize,
        extras_len: bytes[4] as usize,
        data_type: bytes[5],
        status: field(bytes, 6, 8) as u16,
        body_len: field(bytes, 8, 12) as usize,
        opaque: field(bytes, 12, 16) as u32,
        cas: field(bytes, 16, 24) as u64,
    }
}

/// Why bytes are not a response.
pub open spec fn header_error(bytes: Seq<u8>) -> Seq<char> {
    if bytes.len() < 24 {
        "short header: "@ + number::decimal(bytes.len()) + " bytes"@
    } else {
        "not a response: magic 0x"@ + number::hex_padded(bytes[0] as nat, 2)
    }
}

/// The 24 bytes of a response header.
pub open spec fn header_bytes(h: ResponseHeader) -> Seq<u8> {
    seq![MAGIC_RESPONSE, h.opcode] + wire::be(h.key_len as nat, 2) + seq![
        h.extras_len as u8,
        h.data_type,
    ] + wire::be(h.status as nat, 2) + wire::be(h.body_len as nat, 4) + wire::be(
        h.opaque as nat,
        4,
    ) + wire::be(h.cas as nat, 8)
}

impl ResponseHeader {
    /// Whether every length fits the width that the header gives it.
    pub open spec fn fits(self) -> bool {
        self.key_len < 0x1_0000 && self.extras_len < 0x100 && self.body_len < 0x1_0000_0000
    }

    /// Parse the fixed 24-byte header.
    pub fn parse(bytes: &[u8]) -> (r: Result<Self, String>)
        ensures
            match r {
                Ok(h) => is_response(bytes@) && h == header_of(bytes@) && h.fits(),
                Err(e) => !is_response(bytes@) && e@ == header_error(bytes@),
            },
    {
        if bytes.len() < HEADER_LEN {
            let mut e = "short header: ".to_string();
            e.append(number::decimal_text(bytes.len() as u64).as_str());
            e.append(" bytes");
            return Err(e);
        }
        if bytes[0] != MAGIC_RESPONSE {
            let mut e = "not a response: magic 0x".to_string();
            e.append(number::hex_text(bytes[0] as u64, 2).as_str());
            return Err(e);
        }
        proof {
            wire::lemma_pow256_values();
        }
        Ok(
            Self {
                opcode: bytes[1],
                key_len: wire::read_be(bytes, 2, 2) as usize,
                extras_len: bytes[4] as usize,
                data_type: bytes[5],
                status: wire::read_be(bytes, 6, 2) as u16,
                body_len: wire::read_be(bytes, 8, 4) as usize,
                opaque: wire::read_be(bytes, 12, 4) as u32,
                cas: wire::read_be(bytes, 16, 8),
            },
        )
    }

    /// Where the value starts within the body.
    pub fn value_offset(&self) -> (n: usize)
        requires
            self.extras_len + self.key_len <= usize::MAX,
        ensures
            n == self.extras_len + self.key_len,
    {
        self.extras_len + self.key_len
    }
}

/// A header written is the header read, whatever follows it.
pub proof fn lemma_header_round_trip(h: ResponseHeader, rest: Seq<u8>)
    requires
        h.fits(),
    ensures
        header_bytes(h).len() == 24,
        is_response(header_bytes(h) + rest),
        header_of(header_bytes(h) + rest) == h,
{
    wire::lemma_be_len(h.key_len as nat, 2);
    wire::lemma_be_len(h.status as nat, 2);
    wire::lemma_be_len(h.body_len as nat, 4);
    wire::lemma_be_len(h.opaque as nat, 4);
    wire::lemma_be_len(h.cas as nat, 8);
    wire::lemma_be_round_trip(h.key_len as nat, 2);
    wire::lemma_be_round_trip(h.status as nat, 2);
    wire::lemma_be_round_trip(h.body_len as nat, 4);
    wire::lemma_be_round_trip(h.opaque as nat, 4);
    wire::lemma_be_round_trip(h.cas as nat, 8);
    wire::lemma_pow256_values();
    let b = header_bytes(h) + rest;
    assert(b.subrange(2, 4) =~= wire::be(h.key_len as nat, 2));
    assert(b.subrange(6, 8) =~= wire::be(h.status as nat, 2));
    assert(b.subrange(8, 12) =~= wire::be(h.body_len as nat, 4));
    assert(b.subrange(12, 16) =~= wire::be(h.opaque as nat, 4));
    assert(b.subrange(16, 24) =~= wire::be(h.cas as nat, 8));
}

/// One request frame: a 24-byte header, then extras, key and value. The widths
/// of the lengths are the protocol's.
pub open spec fn request_frame(
    opcode: u8,
    vbucket: u16,
    key: Seq<u8>,
    extras: Seq<u8>,
    value: Seq<u8>,
    opaque: u32,
    cas: u64,
) -> Seq<u8> {
    seq![MAGIC_REQUEST, opcode] + wire::be(key.len(), 2) + wire::be(extras.len(), 1) + seq![
        0u8,
    ] + wire::be(vbucket as nat, 2) + wire::be(extras.len() + key.len() + value.len(), 4)
        + wire::be(opaque as nat, 4) + wire::be(cas as nat, 8) + extras + key + value
}

/// The length of a body, as far as four bytes can tell it.
fn body_length(extras: usize, key: usize, value: usize) -> (n: u64)
    ensures
        wire::be(n as nat, 4) == wire::be(extras as nat + key as nat + value as nat, 4),
{
    let m: u64 = 0x1_0000_0000;
    let n: u64 = (extras as u64) % m + (key as u64) % m + (value as u64) % m;
    proof {
        let total = extras as nat + key as nat + value as nat;
        let k = extras as int / 0x1_0000_0000 + key as int / 0x1_0000_0000 + value as int
            / 0x1_0000_0000;
        assert(total == 0x1_0000_0000 * k + n);
        vstd::arithmetic::div_mod::lemma_mod_multiples_vanish(k, n as int, 0x1_0000_0000);
        wire::lemma_pow256_values();
        wire::lemma_be_mod(n as nat, 4);
        wire::lemma_be_mod(total, 4);
    }
    n
}

/// Build one request frame.
pub fn request(
    opcode: u8,
    vbucket: u16,
    key: &[u8],
    extras: &[u8],
    value: &[u8],
    opaque: u32,
    cas: u64,
) -> (out: Vec<u8>)
    ensures
        out@ == request_frame(opcode, vbucket, key@, extras@, value@, opaque, cas),
{
    let body_len = body_length(extras.len(), key.len(), value.len());
    let mut out: Vec<u8> = Vec::new();
    out.push(MAGIC_REQUEST);
    out.push(opcode);
    assert(out@ =~= seq![MAGIC_REQUEST, opcode]);
    wire::push_be(&mut out, key.len() as u64, 2);
    wire::push_be(&mut out, extras.len() as u64, 1);
    let ghost before = out@;
    out.push(0);
    assert(out@ =~= before + seq![0u8]);
    wire::push_be(&mut out, vbucket as u64, 2);
    wire::push_be(&mut out, body_len, 4);
    wire::push_be(&mut out, opaque as u64, 4);
    wire::push_be(&mut out, cas, 8);
    wire::push_bytes(&mut out, extras);
    wire::push_bytes(&mut out, key);
    wire::push_bytes(&mut out, value);
    out
}

/// An unsigned integer as leb128: seven bits a byte, the lowest first, the top
/// bit set on every byte but the last.
pub open spec fn leb(value: nat) -> Seq<u8>
    decreases value,
{
    if value < 128 {
        seq![value as u8]
    } else {
        seq![(value % 128 + 128) as u8] + leb(value / 128)
    }
}

/// Encode an unsigned integer as leb128, the collection-id prefix format.
pub fn leb128(value: u32) -> (out: Vec<u8>)
    ensures
        out@ == leb(value as nat),
{
    let mut rest: u32 = value;
    let mut out: Vec<u8> = Vec::new();
    assert(Seq::<u8>::empty() + leb(value as nat) =~= leb(value as nat));
    while rest >= 128
        invariant
            out@ + leb(rest as nat) == leb(value as nat),
        decreases rest,
    {
        let byte: u8 = (rest % 128) as u8;
        let ghost before = out@;
        out.push(byte + 128);
        assert(before + leb(rest as nat) =~= out@ + leb((rest / 128) as nat));
        rest = rest / 128;
    }
    let ghost before = out@;
    out.push(rest as u8);
    assert(out@ =~= before + leb(rest as nat));
    out
}

/// The number at the front of a leb128 sequence, and how many bytes it took.
pub open spec fn unleb(s: Seq<u8>) -> (nat, nat)
    decreases s.len(),
{
    if s.len() == 0 {
        (0, 0)
    } else if s[0] < 128 {
        (s[0] as nat, 1)
    } else {
        let (v, n) = unleb(s.skip(1));
        ((s[0] - 128 + 128 * v) as nat, n + 1)
    }
}

/// A leb128 number can be read back from the front of whatever follows it.
pub proof fn lemma_leb_decodes(value: nat, rest: Seq<u8>)
    ensures
        unleb(leb(value) + rest) == (value, leb(value).len()),
    decreases value,
{
    let s = leb(value) + rest;
    if value >= 128 {
        lemma_leb_decodes(value / 128, rest);
        assert(s.skip(1) =~= leb(value / 128) + rest);
    }
}

/// The wire form of a document id: the collection id, then the id's bytes.
pub open spec fn wire_key(collection_id: u32, key: Seq<char>) -> Seq<u8> {
    leb(collection_id as nat) + encode_utf8(key)
}

/// The wire key: collection id, then the document id.
pub fn encode_key(collection_id: u32, key: &str) -> (out: Vec<u8>)
    ensures
        out@ == wire_key(collection_id, key@),
{
    let mut out = leb128(collection_id);
    wire::push_bytes(&mut out, key.as_bytes());
    out
}

/// Two documents share a wire key only when collection and id are the same.
pub proof fn lemma_wire_key_injective(c1: u32, k1: Seq<char>, c2: u32, k2: Seq<char>)
    requires
        wire_key(c1, k1) == wire_key(c2, k2),
    ensures
        c1 == c2,
        k1 == k2,
{
    lemma_leb_decodes(c1 as nat, encode_utf8(k1));
    lemma_leb_decodes(c2 as nat, encode_utf8(k2));
    let n = leb(c1 as nat).len() as int;
    assert(encode_utf8(k1) =~= wire_key(c1, k1).skip(n));
    assert(encode_utf8(k2) =~= wire_key(c2, k2).skip(n));
    encode_utf8_decode_utf8(k1);
    encode_utf8_decode_utf8(k2);
}

/// One bit of the CRC-32 division, by the reflected polynomial.
pub open spec fn crc_bit(crc: u32) -> u32 {
    if crc & 1 == 1 {
        (crc >> 1) ^ 0xEDB8_8320
    } else {
        crc >> 1
    }
}

/// `n` bits of the division.
pub open spec fn crc_bits(crc: u32, n: nat) -> u32
    decreases n,
{
    if n == 0 {
        crc
    } else {
        crc_bit(crc_bits(crc, (n - 1) as nat))
    }
}

/// The remainder after dividing all bytes, starting from all ones.
pub open spec fn crc_of(data: Seq<u8>) -> u32
    decreases data.len(),
{
    if data.len() == 0 {
        0xFFFF_FFFF
    } else {
        crc_bits(crc_of(data.drop_last()) ^ (data.last() as u32), 8)
    }
}

/// CRC-32 as Couchbase computes it for vbucket routing: the standard
/// polynomial, reflected, with the result inverted.
pub fn crc32(data: &[u8]) -> (r: u32)
    ensures
        r == !crc_of(data@),
{
    let mut crc: u32 = 0xFFFF_FFFF;
    let mut i: usize = 0;
    assert(data@.take(0).len() == 0);
    while i < data.len()
        invariant
            i <= data@.len(),
            crc == crc_of(data@.take(i as int)),
        decreases data@.len() - i,
    {
        let ghost before = crc;
        crc = crc ^ (data[i] as u32);
        let ghost mixed = crc;
        let mut bit: u8 = 0;
        while bit < 8
            invariant
                bit <= 8,
                crc == crc_bits(mixed, bit as nat),
            decreases 8 - bit,
        {
            if crc & 1 == 1 {
                crc = (crc >> 1) ^ 0xEDB8_8320;
            } else {
                crc = crc >> 1;
            }
            bit += 1;
        }
        proof {
            assert(data@.take(i + 1).drop_last() =~= data@.take(i as int));
            assert(data@.take(i + 1).last() == data@[i as int]);
        }
        i += 1;
    }
    assert(data@.take(i as int) =~= data@);
    !crc
}

/// The vbucket that a document id belongs to: bits 16 to 30 of its CRC, modulo
/// the vbucket count.
pub open spec fn vbucket_of(key: Seq<char>, total_vbuckets: u16) -> u16 {
    if total_vbuckets == 0 {
        0
    } else {
        ((((!crc_of(encode_utf8(key))) >> 16) & 0x7FFF) % (total_vbuckets as u32)) as u16
    }
}

/// Which vbucket a document id belongs to.
///
/// Hashes the document id alone, never the collection-prefixed form.
pub fn vbucket_for(key: &str, total_vbuckets: u16) -> (v: u16)
    ensures
        v == vbucket_of(key@, total_vbuckets),
        total_vbuckets > 0 ==> v < total_vbuckets,
{
    if total_vbuckets == 0 {
        return 0;
    }
    let crc = crc32(key.as_bytes());
    (((crc >> 16) & 0x7FFF) % (total_vbuckets as u32)) as u16
}

/// A routed document id is always one of the cluster's vbuckets.
pub proof fn lemma_vbucket_in_range(key: Seq<char>, total_vbuckets: u16)
    requires
        total_vbuckets > 0,
    ensures
        vbucket_of(key, total_vbuckets) < total_vbuckets,
{
}

/// The features asked for, as big-endian pairs of bytes.
pub open spec fn features_asked() -> Seq<u8> {
    wire::be(feature::MUTATION_SEQNO as nat, 2) + wire::be(feature::XATTR as nat, 2) + wire::be(
        feature::SELECT_BUCKET as nat,
        2,
    ) + wire::be(feature::JSON as nat, 2) + wire::be(feature::COLLECTIONS as nat, 2)
}

/// The `HELLO` payload: the features to request, as big-endian u16s.
pub fn hello_features() -> (out: Vec<u8>)
    ensures
        out@ == features_asked(),
{
    let mut out: Vec<u8> = Vec::new();
    wire::push_be(&mut out, feature::MUTATION_SEQNO as u64, 2);
    assert(out@ =~= wire::be(feature::MUTATION_SEQNO as nat, 2));
    wire::push_be(&mut out, feature::XATTR as u64, 2);
    wire::push_be(&mut out, feature::SELECT_BUCKET as u64, 2);
    wire::push_be(&mut out, feature::JSON as u64, 2);
    wire::push_be(&mut out, feature::COLLECTIONS as u64, 2);
    out
}

/// The features in a `HELLO` payload: one for each whole pair of bytes.
pub open spec fn features_in(value: Seq<u8>) -> Seq<u16> {
    Seq::new(value.len() / 2, |i: int| field(value, 2 * i, 2 * i + 2) as u16)
}

/// The features a server agreed to, decoded from its `HELLO` response.
pub fn parse_hello_response(value: &[u8]) -> (out: Vec<u16>)
    ensures
        out@ == features_in(value@),
{
    let mut out: Vec<u16> = Vec::new();
    let n: usize = value.len() / 2;
    let mut i: usize = 0;
    proof {
        wire::lemma_pow256_values();
    }
    while i < n
        invariant
            i <= n,
            n == value@.len() / 2,
            2 * n <= value@.len() <= usize::MAX,
            wire::pow256(2) == 0x1_0000,
            out@ =~= features_in(value@).take(i as int),
        decreases n - i,
    {
        out.push(wire::read_be(value, 2 * i, 2) as u16);
        i += 1;
    }
    out
}

/// What is asked for in `HELLO` is what a server that agrees to all reports.
pub proof fn lemma_features_round_trip()
    ensures
        features_in(features_asked()) == seq![
            feature::MUTATION_SEQNO,
            feature::XATTR,
            feature::SELECT_BUCKET,
            feature::JSON,
            feature::COLLECTIONS,
        ],
{
    let fs = seq![
        feature::MUTATION_SEQNO,
        feature::XATTR,
        feature::SELECT_BUCKET,
        feature::JSON,
        feature::COLLECTIONS,
    ];
    let b = features_asked();
    wire::lemma_pow256_values();
    assert forall|i: int| 0 <= i < 5 implies #[trigger] features_in(b)[i] == fs[i] by {
        wire::lemma_be_len(feature::MUTATION_SEQNO as nat, 2);
        wire::lemma_be_len(feature::XATTR as nat, 2);
        wire::lemma_be_len(feature::SELECT_BUCKET as nat, 2);
        wire::lemma_be_len(feature::JSON as nat, 2);
        wire::lemma_be_len(feature::COLLECTIONS as nat, 2);
        wire::lemma_be_round_trip(fs[i] as nat, 2);
        assert(b.subrange(2 * i, 2 * i + 2) =~= wire::be(fs[i] as nat, 2));
    }
    wire::lemma_be_len(feature::MUTATION_SEQNO as nat, 2);
    wire::lemma_be_len(feature::XATTR as nat, 2);
    wire::lemma_be_len(feature::SELECT_BUCKET as nat, 2);
    wire::lemma_be_len(feature::JSON as nat, 2);
    wire::lemma_be_len(feature::COLLECTIONS as nat, 2);
    assert(features_in(b) =~= fs);
}

/// The SASL PLAIN payload.
pub open spec fn plain_payload(username: Seq<char>, password: Seq<char>) -> Seq<u8> {
    seq![0u8] + encode_utf8(username) + seq![0u8] + encode_utf8(password)
}

/// The SASL PLAIN payload: `\0user\0password`.
pub fn sasl_plain(username: &str, password: &str) -> (out: Vec<u8>)
    ensures
        out@ == plain_payload(username@, password@),
{
    let mut out: Vec<u8> = Vec::new();
    out.push(0);
    assert(out@ =~= seq![0u8]);
    wire::push_bytes(&mut out, username.as_bytes());
    let ghost before = out@;
    out.push(0);
    assert(out@ =~= before + seq![0u8]);
    wire::push_bytes(&mut out, password.as_bytes());
    out
}

/// Extras for a write that carries flags and an expiry.
pub fn store_extras(flags: u32, expiry_seconds: u32) -> (out: Vec<u8>)
    ensures
        out@ == wire::be(flags as nat, 4) + wire::be(expiry_seconds as nat, 4),
{
    let mut out: Vec<u8> = Vec::new();
    wire::push_be(&mut out, flags as u64, 4);
    assert(out@ =~= wire::be(flags as nat, 4));
    wire::push_be(&mut out, expiry_seconds as u64, 4);
    out
}

/// The collection id from a `GET_COLLECTION_ID` response's extras.
///
/// Layout: 8 bytes of manifest id, then the 4-byte collection id.
pub fn parse_collection_id(extras: &[u8]) -> (r: Result<u32, String>)
    ensures
        match r {
            Ok(id) => extras@.len() >= 12 && id == field(extras@, 8, 12),
            Err(e) => extras@.len() < 12 && e@ == "collection-id extras too short: "@
                + number::decimal(extras@.len()),
        },
{
    if extras.len() < 12 {
        let mut e = "collection-id extras too short: ".to_string();
        e.append(number::decimal_text(extras.len() as u64).as_str());
        return Err(e);
    }
    proof {
        wire::lemma_pow256_values();
    }
    Ok(wire::read_be(extras, 8, 4) as u32)
}

/// The vbucket count in a parsed cluster config: the length of its vbucket map.
pub open spec fn vbucket_count(parsed: json::Tree) -> Result<nat, Seq<char>> {
    match json::member(parsed, "vBucketServerMap"@) {
        Some(server_map) => match json::member(server_map, "vBucketMap"@) {
            Some(json::Tree::Array(map)) => if map.len() <= 0xffff {
                Ok(map.len())
            } else {
                Err("implausible vbucket count: "@ + number::decimal(map.len()))
            },
            _ => Err("cluster config has no vBucketMap"@),
        },
        None => Err("cluster config has no vBucketMap"@),
    }
}

/// Count the vbuckets of a parsed cluster config.
///
/// A config without a map means the bucket is not vbucket-mapped, which cannot
/// be routed for.
pub fn count_vbuckets(parsed: &Json) -> (r: Result<u16, String>)
    ensures
        match r {
            Ok(n) => vbucket_count(parsed.tree()) == Ok::<nat, Seq<char>>(n as nat),
            Err(e) => vbucket_count(parsed.tree()) == Err::<nat, Seq<char>>(e@),
        },
{
    match parsed.get("vBucketServerMap") {
        Some(server_map) => match server_map.get("vBucketMap") {
            Some(Json::Array(map)) => {
                if map.len() <= 0xffff {
                    Ok(map.len() as u16)
                } else {
                    let mut e = "implausible vbucket count: ".to_string();
                    e.append(number::decimal_text(map.len() as u64).as_str());
                    Err(e)
                }
            },
            _ => Err("cluster config has no vBucketMap".to_string()),
        },
        None => Err("cluster config has no vBucketMap".to_string()),
    }
}

/// The vbucket count in the body of a cluster config.
pub open spec fn vbucket_count_in(config: Seq<u8>) -> Result<nat, Seq<char>> {
    match json::json_parse(config) {
        Ok(parsed) => vbucket_count(parsed),
        Err(e) => Err("cluster config is not JSON: "@ + e),
    }
}

/// How many vbuckets the cluster has, from a `GET_CLUSTER_CONFIG` body.
pub fn parse_vbucket_count(config: &[u8]) -> (r: Result<u16, String>)
    ensures
        match r {
            Ok(n) => vbucket_count_in(config@) == Ok::<nat, Seq<char>>(n as nat),
            Err(e) => vbucket_count_in(config@) == Err::<nat, Seq<char>>(e@),
        },
{
    match json::parse(config) {
        Ok(parsed) => count_vbuckets(&parsed),
        Err(e) => {
            let mut s = "cluster config is not JSON: ".to_string();
            s.append(e.as_str());
            Err(s)
        },
    }
}

/// The vbucket uuid and sequence number in a write's extras.
pub open spec fn token_in(extras: Seq<u8>) -> Option<(u64, u64)> {
    if extras.len() < 16 {
        None
    } else {
        Some((field(extras, 0, 8) as u64, field(extras, 8, 16) as u64))
    }
}

/// The mutation token a write returns in its extras, when `MUTATION_SEQNO`
/// was negotiated: the vbucket's uuid, then the sequence number.
///
/// Absent extras mean the feature was not agreed, and `consistent-with`
/// cannot be satisfied from this write.
pub fn parse_mutation_token(extras: &[u8]) -> (r: Option<(u64, u64)>)
    ensures
        r == token_in(extras@),
{
    if extras.len() < 16 {
        return None;
    }
    let uuid = wire::read_be(extras, 0, 8);
    let seqno = wire::read_be(extras, 8, 8);
    Some((uuid, seqno))
}

/// The expiry in the extras of a `GET_META` response; zero means none.
pub open spec fn expiry_in(extras: Seq<u8>) -> Option<u32> {
    if extras.len() < 12 || field(extras, 8, 12) == 0 {
        None
    } else {
        Some(field(extras, 8, 12) as u32)
    }
}

/// The absolute expiry a `GET_META` reports, as unix seconds.
///
/// Layout: deleted(4), flags(4), expiry(4), seqno(8). `0` means the document
/// has no expiry, which is not the epoch.
pub fn parse_meta_expiry(extras: &[u8]) -> (r: Option<u32>)
    ensures
        r == expiry_in(extras@),
{
    if extras.len() < 12 {
        return None;
    }
    proof {
        wire::lemma_pow256_values();
    }
    let seconds = wire::read_be(extras, 8, 4) as u32;
    if seconds == 0 {
        None
    } else {
        Some(seconds)
    }
}

/// A civil date and time, broken out of a unix timestamp.
#[derive(Debug, Clone, Copy, PartialEq, Eq, Structural)]
pub struct Civil {
    pub year: i32,
    pub month: u8,
    pub day: u8,
    pub hour: u8,
    pub minute: u8,
    pub second: u8,
}

/// The civil UTC time of a unix second.
pub open spec fn civil_of(unix_seconds: int) -> Civil {
    let date = calendar::date_of(calendar::day_of_second(unix_seconds));
    let second = calendar::second_of_day(unix_seconds);
    Civil {
        year: date.year as i32,
        month: date.month as u8,
        day: date.day as u8,
        hour: (second / 3_600) as u8,
        minute: (second % 3_600 / 60) as u8,
        second: (second % 60) as u8,
    }
}

/// Convert unix seconds to a civil UTC date. A year outside the range of `i32`
/// is cut down to it.
pub fn civil_from_unix(unix_seconds: i64) -> (c: Civil)
    ensures
        c == civil_of(unix_seconds as int),
{
    let (days, secs) = calendar::split_seconds(unix_seconds);
    let (year, month, day) = calendar::civil_from_days(days);
    Civil {
        year: year as i32,
        month: month as u8,
        day: day as u8,
        hour: (secs / 3_600) as u8,
        minute: ((secs % 3_600) / 60) as u8,
        second: (secs % 60) as u8,
    }
}

/// Every unix second that a 32-bit expiry can name has a valid civil time, with
/// its year in full.
pub proof fn lemma_civil_of_expiry(seconds: u32)
    ensures
        ({
            let date = calendar::date_of(calendar::day_of_second(seconds as int));
            let c = civil_of(seconds as int);
            &&& c.year == date.year
            &&& c.month == date.month
            &&& c.day == date.day
            &&& 1970 <= c.year <= 2106
            &&& c.hour < 24
            &&& c.minute < 60
            &&& c.second < 60
        }),
{
    let n = calendar::day_of_second(seconds as int);
    let date = calendar::date_of(n);
    calendar::lemma_date_of_valid(n);
    calendar::lemma_year_bound(date);
}

} // verus!
