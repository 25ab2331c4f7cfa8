//! What the operations of the socket transport promise their callers: which
//! frame each of them sends, and what a reply to it means.

use vstd::prelude::*;
use vstd::string::*;
use vstd::utf8::*;

use crate::bindings;
use crate::credentials;
use crate::http::Method;
use crate::json;
use crate::json::Tree;
use crate::number;
use crate::query as asked;
use crate::settings;
use crate::sockets::config;
use crate::sockets::config::BindingView;
use crate::sockets::conn;
use crate::sockets::conn::{Connection, ReplyView, Stage};
use crate::sockets::plugin;
use crate::sockets::plugin::OperationView;
use crate::sockets::project;
use crate::sockets::proto;
use crate::sockets::query;
use crate::text;
use crate::types::{
    DocumentGetAndLockOptions, DocumentGetAndTouchOptions, DocumentGetOptions,
    DocumentInsertOptions, DocumentRemoveOptions, DocumentReplaceOptions, DocumentTouchOptions,
    DocumentUnlockOptions, DocumentUpsertOptions, ErrorView, QueryScanConsistency,
    ReplicaReadLevel, SqlppQueryOptions, Time, ValueView, WorkloadInfo,
};
use crate::wire;

verus! {

/// Whether bytes are the request with these parts, field by field as the
/// protocol lays them out: a 24-byte header of magic, opcode, the lengths of key
/// and extras, a data type of zero, the vbucket, the length of the body, opaque
/// and CAS; then extras, key and value.
pub open spec fn is_request(
    frame: Seq<u8>,
    opcode: u8,
    vbucket: u16,
    key: Seq<u8>,
    extras: Seq<u8>,
    value: Seq<u8>,
    opaque: u32,
    cas: u64,
) -> bool {
    &&& frame.len() == 24 + extras.len() + key.len() + value.len()
    &&& frame[0] == 0x80
    &&& frame[1] == opcode
    &&& wire::be_value(frame.subrange(2, 4)) == key.len()
    &&& frame[4] == extras.len()
    &&& frame[5] == 0
    &&& wire::be_value(frame.subrange(6, 8)) == vbucket
    &&& wire::be_value(frame.subrange(8, 12)) == extras.len() + key.len() + value.len()
    &&& wire::be_value(frame.subrange(12, 16)) == opaque
    &&& wire::be_value(frame.subrange(16, 24)) == cas
    &&& frame.subrange(24, 24 + extras.len() as int) == extras
    &&& frame.subrange(24 + extras.len() as int, 24 + extras.len() as int + key.len() as int)
        == key
    &&& frame.skip(24 + extras.len() as int + key.len() as int) == value
}

/// Whether the lengths of a request's parts fit the widths that the protocol
/// gives them.
pub open spec fn fits(key: Seq<u8>, extras: Seq<u8>, value: Seq<u8>) -> bool {
    &&& key.len() < 0x1_0000
    &&& extras.len() < 0x100
    &&& extras.len() + key.len() + value.len() < 0x1_0000_0000
}

/// A frame says what it was made of.
pub proof fn lemma_frame_reads_back(
    opcode: u8,
    vbucket: u16,
    key: Seq<u8>,
    extras: Seq<u8>,
    value: Seq<u8>,
    opaque: u32,
    cas: u64,
)
    requires
        fits(key, extras, value),
    ensures
        is_request(
            proto::request_frame(opcode, vbucket, key, extras, value, opaque, cas),
            opcode,
            vbucket,
            key,
            extras,
            value,
            opaque,
            cas,
        ),
{
    let f = proto::request_frame(opcode, vbucket, key, extras, value, opaque, cas);
    let total = extras.len() + key.len() + value.len();
    wire::lemma_pow256_values();
    wire::lemma_be_len(key.len(), 2);
    wire::lemma_be_len(extras.len(), 1);
    wire::lemma_be_len(vbucket as nat, 2);
    wire::lemma_be_len(total, 4);
    wire::lemma_be_len(opaque as nat, 4);
    wire::lemma_be_len(cas as nat, 8);
    wire::lemma_be_round_trip(key.len(), 2);
    wire::lemma_be_round_trip(extras.len(), 1);
    wire::lemma_be_round_trip(vbucket as nat, 2);
    wire::lemma_be_round_trip(total, 4);
    wire::lemma_be_round_trip(opaque as nat, 4);
    wire::lemma_be_round_trip(cas as nat, 8);
    assert(f.subrange(2, 4) =~= wire::be(key.len(), 2));
    assert(f.subrange(4, 5) =~= wire::be(extras.len(), 1));
    assert(f.subrange(6, 8) =~= wire::be(vbucket as nat, 2));
    assert(f.subrange(8, 12) =~= wire::be(total, 4));
    assert(f.subrange(12, 16) =~= wire::be(opaque as nat, 4));
    assert(f.subrange(16, 24) =~= wire::be(cas as nat, 8));
    assert(f.subrange(24, 24 + extras.len() as int) =~= extras);
    assert(f.subrange(24 + extras.len() as int, 24 + extras.len() as int + key.len() as int)
        =~= key);
    assert(f.skip(24 + extras.len() as int + key.len() as int) =~= value);
    lemma_one_byte(f.subrange(4, 5));
    assert(f.subrange(4, 5)[0] == f[4]);
}

/// A single byte spells its own value.
proof fn lemma_one_byte(s: Seq<u8>)
    requires
        s.len() == 1,
    ensures
        wire::be_value(s) == s[0],
{
    reveal_with_fuel(wire::be_value, 3);
}

/// Whether a number of whole seconds is a time to live as asked for: never
/// shorter, as far as 32 bits can tell, less than a second longer, and none where
/// none is asked for.
pub open spec fn lives_for(seconds: nat, ns: u64) -> bool {
    if ns == 0 {
        seconds == 0
    } else {
        &&& seconds >= 1
        &&& (seconds - 1) * 1_000_000_000 < ns
        &&& seconds * 1_000_000_000 >= ns || seconds == 4_294_967_295
    }
}

/// Whether an operation stores with these flags, those of JSON by default, and
/// this time to live, and reads nothing.
pub open spec fn stores_with(o: OperationView, flags: Option<u32>, expires_in_ns: u64) -> bool {
    &&& o.extras.len() == 8
    &&& wire::be_value(o.extras.take(4)) == (match flags {
        Some(f) => f,
        None => 0x0200_0006u32,
    })
    &&& lives_for(wire::be_value(o.extras.skip(4)), expires_in_ns)
    &&& o.paths.len() == 0
    &&& !o.with_expiry
}

proof fn lemma_seconds(ns: u64)
    ensures
        lives_for(plugin::expiry_of(ns) as nat, ns),
{
    if ns > 0 {
        number::lemma_rounding_keeps_a_limit(ns, 1_000_000_000);
    }
}

proof fn lemma_stores_with(opcode: u8, flags: Option<u32>, expires_in_ns: u64, cas: u64)
    ensures
        stores_with(plugin::storing(opcode, flags, expires_in_ns, cas), flags, expires_in_ns),
{
    let o = plugin::storing(opcode, flags, expires_in_ns, cas);
    let f = match flags {
        Some(f) => f,
        None => 0x0200_0006u32,
    };
    let s = plugin::expiry_of(expires_in_ns) as nat;
    wire::lemma_pow256_values();
    wire::lemma_be_len(f as nat, 4);
    wire::lemma_be_len(s, 4);
    wire::lemma_be_round_trip(f as nat, 4);
    wire::lemma_be_round_trip(s, 4);
    assert(o.extras.take(4) =~= wire::be(f as nat, 4));
    assert(o.extras.skip(4) =~= wire::be(s, 4));
    lemma_seconds(expires_in_ns);
}

/// An insert is an `ADD`, which fails where a document is stored already. It
/// carries no CAS, and the flags and the time to live that it is given.
pub proof fn lemma_insert_adds(caller: Option<ErrorView>, options: Option<DocumentInsertOptions>)
    ensures
        plugin::insert_of(caller, options) is Ok <==> caller is None && (options matches Some(o)
            ==> o.persist_to == 0 && o.replicate_to == 0),
        plugin::insert_of(caller, options) matches Ok(sent) ==> sent.opcode == 0x02 && sent.cas == 0
            && match options {
            Some(o) => stores_with(sent, o.flags, o.expires_in_ns),
            None => stores_with(sent, None, 0),
        },
        caller is None ==> (plugin::insert_of(caller, options) matches Err(e) ==> e is Unsupported),
{
    match options {
        Some(o) => lemma_stores_with(0x02, o.flags, o.expires_in_ns, 0),
        None => lemma_stores_with(0x02, None, 0, 0),
    }
}

/// An upsert is a `SET`, which replaces whatever is stored. It carries no CAS, and
/// the flags and the time to live that it is given.
pub proof fn lemma_upsert_sets(caller: Option<ErrorView>, options: Option<DocumentUpsertOptions>)
    ensures
        plugin::upsert_of(caller, options) is Ok <==> caller is None && (options matches Some(o)
            ==> o.persist_to == 0 && o.replicate_to == 0 && !o.preserve_expiry),
        plugin::upsert_of(caller, options) matches Ok(sent) ==> sent.opcode == 0x01 && sent.cas == 0
            && match options {
            Some(o) => stores_with(sent, o.flags, o.expires_in_ns),
            None => stores_with(sent, None, 0),
        },
        caller is None ==> (plugin::upsert_of(caller, options) matches Err(e) ==> e is Unsupported),
{
    match options {
        Some(o) => lemma_stores_with(0x01, o.flags, o.expires_in_ns, 0),
        None => lemma_stores_with(0x01, None, 0, 0),
    }
}

/// A replace is a `REPLACE`, which fails where no document is stored. It carries
/// exactly the caller's CAS, zero where there is none, and the flags and the time
/// to live that it is given.
pub proof fn lemma_replace_replaces(
    caller: Option<ErrorView>,
    options: Option<DocumentReplaceOptions>,
)
    ensures
        plugin::replace_of(caller, options) is Ok <==> caller is None && (options matches Some(o)
            ==> o.persist_to == 0 && o.replicate_to == 0 && !o.preserve_expiry),
        plugin::replace_of(caller, options) matches Ok(sent) ==> sent.opcode == 0x03
            && match options {
            Some(o) => sent.cas == o.cas && stores_with(sent, o.flags, o.expires_in_ns),
            None => sent.cas == 0 && stores_with(sent, None, 0),
        },
        caller is None ==> (plugin::replace_of(caller, options) matches Err(e) ==> e
            is Unsupported),
{
    match options {
        Some(o) => lemma_stores_with(0x03, o.flags, o.expires_in_ns, o.cas),
        None => lemma_stores_with(0x03, None, 0, 0),
    }
}

/// A remove is a `DELETE` on exactly the caller's CAS, zero where there is none.
pub proof fn lemma_remove_deletes(
    caller: Option<ErrorView>,
    options: Option<DocumentRemoveOptions>,
)
    ensures
        plugin::remove_of(caller, options) is Ok <==> caller is None && (options matches Some(o)
            ==> o.persist_to == 0 && o.replicate_to == 0),
        plugin::remove_of(caller, options) matches Ok(sent) ==> sent.opcode == 0x04
            && sent.extras.len() == 0 && sent.paths.len() == 0 && !sent.with_expiry && sent.cas == (
        match options {
            Some(o) => o.cas,
            None => 0u64,
        }),
        caller is None ==> (plugin::remove_of(caller, options) matches Err(e) ==> e is Unsupported),
{
}

/// A get is a `GET`, which changes nothing. It selects exactly the paths that are
/// named, and reports the expiry exactly when it is asked to.
pub proof fn lemma_get_reads(caller: Option<ErrorView>, options: Option<DocumentGetOptions>)
    ensures
        plugin::get_of(caller, options) is Ok <==> caller is None && (options matches Some(o)
            ==> o.use_replica != Some(ReplicaReadLevel::On)),
        plugin::get_of(caller, options) matches Ok(sent) ==> {
            &&& sent.opcode == 0x00
            &&& sent.cas == 0
            &&& sent.extras.len() == 0
            &&& match options {
                Some(o) => {
                    &&& sent.with_expiry == o.with_expiry
                    &&& match o.project {
                        Some(names) => {
                            &&& forall|p: Seq<char>|
                                sent.paths.contains(p) <==> #[trigger] text::texts(
                                    names@,
                                ).contains(p) && p.len() > 0
                            &&& (forall|i: int|
                                0 <= i < names@.len() ==> (#[trigger] names@[i])@.len() > 0)
                                ==> sent.paths == text::texts(names@)
                        },
                        None => sent.paths.len() == 0,
                    }
                },
                None => !sent.with_expiry && sent.paths.len() == 0,
            }
        },
        caller is None ==> (plugin::get_of(caller, options) matches Err(e) ==> e is Unsupported),
{
    if let Some(o) = options {
        if let Some(names) = o.project {
            let all = text::texts(names@);
            assert forall|p: Seq<char>| text::nonempty(all).contains(p) <==> #[trigger] all.contains(
                p,
            ) && p.len() > 0 by {
                text::lemma_nonempty_keeps(all, p);
            }
            text::lemma_nonempty_keeps(all, seq![]);
            if forall|i: int| 0 <= i < names@.len() ==> (#[trigger] names@[i])@.len() > 0 {
                assert forall|i: int| 0 <= i < all.len() implies (#[trigger] all[i]).len() > 0 by {
                    assert(names@[i]@.len() > 0);
                }
            }
        }
    }
}

/// Whether an operation carries nothing but a number of seconds.
pub open spec fn carries_seconds(o: OperationView, opcode: u8, ns: u64) -> bool {
    &&& o.opcode == opcode
    &&& o.cas == 0
    &&& o.extras.len() == 4
    &&& lives_for(wire::be_value(o.extras), ns)
    &&& o.paths.len() == 0
    &&& !o.with_expiry
}

proof fn lemma_carried_seconds(seconds: u32)
    ensures
        wire::be(seconds as nat, 4).len() == 4,
        wire::be_value(wire::be(seconds as nat, 4)) == seconds,
{
    wire::lemma_pow256_values();
    wire::lemma_be_len(seconds as nat, 4);
    wire::lemma_be_round_trip(seconds as nat, 4);
}

/// A touch is a `TOUCH` and a get-and-touch a `GAT`, each with the time to live
/// that it is given and refused without one. A get-and-lock is a `GETL` for as
/// long as it is asked for, fifteen seconds by default. An unlock is an `UNLOCK` of
/// exactly the caller's CAS, and refused without one.
pub proof fn lemma_timed_operations(
    caller: Option<ErrorView>,
    touch: Option<DocumentTouchOptions>,
    get_and_touch: Option<DocumentGetAndTouchOptions>,
    lock: Option<DocumentGetAndLockOptions>,
    unlock: Option<DocumentUnlockOptions>,
)
    ensures
        plugin::touching_of(caller, touch) is Ok <==> caller is None && (touch matches Some(o)
            && o.expires_in > 0),
        plugin::touching_of(caller, touch) matches Ok(sent) ==> carries_seconds(
            sent,
            0x1c,
            touch->0.expires_in,
        ),
        plugin::getting_and_touching_of(caller, get_and_touch) is Ok <==> caller is None && (
        get_and_touch matches Some(o) && o.expires_in > 0),
        plugin::getting_and_touching_of(caller, get_and_touch) matches Ok(sent) ==> carries_seconds(
            sent,
            0x1d,
            get_and_touch->0.expires_in,
        ),
        plugin::locking_of(caller, lock) is Ok <==> caller is None,
        plugin::locking_of(caller, lock) matches Ok(sent) ==> carries_seconds(
            sent,
            0x94,
            if lock is None || lock->0.lock_time == 0 {
                15_000_000_000
            } else {
                lock->0.lock_time
            },
        ),
        plugin::unlocking_of(caller, unlock) is Ok <==> caller is None && (unlock matches Some(o)
            && o.cas != 0),
        plugin::unlocking_of(caller, unlock) matches Ok(sent) ==> sent.opcode == 0x95 && sent.cas
            == unlock->0.cas && sent.extras.len() == 0 && sent.paths.len() == 0,
        caller is None ==> (plugin::touching_of(caller, touch) matches Err(e) ==> e
            is InvalidArgument),
        caller is None ==> (plugin::getting_and_touching_of(caller, get_and_touch) matches Err(e)
            ==> e is InvalidArgument),
        caller is None ==> (plugin::unlocking_of(caller, unlock) matches Err(e) ==> e
            is InvalidArgument),
{
    if let Some(o) = touch {
        lemma_seconds(o.expires_in);
        lemma_carried_seconds(plugin::expiry_of(o.expires_in));
    }
    if let Some(o) = get_and_touch {
        lemma_seconds(o.expires_in);
        lemma_carried_seconds(plugin::expiry_of(o.expires_in));
    }
    if let Some(o) = lock {
        lemma_seconds(o.lock_time);
        lemma_carried_seconds(plugin::expiry_of(o.lock_time));
    }
    lemma_carried_seconds(15);
    assert(lives_for(15, 15_000_000_000));
}

/// An operation goes out as a frame with its opcode, its extras and its CAS, the
/// document as the value, and as the key the collection's number in front of the
/// document's id; it is routed by the id alone.
pub proof fn lemma_operation_is_framed(
    c: Connection,
    o: OperationView,
    id: Seq<char>,
    document: Seq<u8>,
    opaque: u32,
)
    requires
        fits(proto::wire_key(c.collection_id, id), o.extras, document),
    ensures
        ({
            let key = proto::wire_key(c.collection_id, id);
            &&& is_request(
                plugin::operation_frame(c, o, id, document, opaque),
                o.opcode,
                proto::vbucket_of(id, c.vbuckets),
                key,
                o.extras,
                document,
                opaque,
                o.cas,
            )
            &&& proto::unleb(key).0 == c.collection_id
            &&& key.skip(proto::unleb(key).1 as int) == encode_utf8(id)
        }),
{
    let key = proto::wire_key(c.collection_id, id);
    lemma_frame_reads_back(
        o.opcode,
        proto::vbucket_of(id, c.vbuckets),
        key,
        o.extras,
        document,
        opaque,
        o.cas,
    );
    proto::lemma_leb_decodes(c.collection_id as nat, encode_utf8(id));
    assert(key.skip(proto::leb(c.collection_id as nat).len() as int) =~= encode_utf8(id));
}

/// The metadata of a document is asked for with `GET_META` of the same key on the
/// same vbucket as the document.
pub proof fn lemma_metadata_is_of_the_document(c: Connection, id: Seq<char>, opaque: u32)
    requires
        fits(proto::wire_key(c.collection_id, id), Seq::empty(), Seq::empty()),
    ensures
        is_request(
            plugin::meta_frame(c, id, opaque),
            0xa0,
            proto::vbucket_of(id, c.vbuckets),
            proto::wire_key(c.collection_id, id),
            seq![],
            seq![],
            opaque,
            0,
        ),
{
    lemma_frame_reads_back(
        0xa0,
        proto::vbucket_of(id, c.vbuckets),
        proto::wire_key(c.collection_id, id),
        seq![],
        seq![],
        opaque,
        0,
    );
}

/// A write succeeds exactly when the status is zero. It reports the binding's
/// bucket, the CAS of the reply, the vbucket it was routed to and, where the
/// extras carry them, the vbucket's uuid and the sequence number.
pub proof fn lemma_write_reports_the_mutation(
    bucket: Seq<char>,
    vbucket: u16,
    cas: u64,
    reply: ReplyView,
)
    ensures
        plugin::written_of(bucket, vbucket, cas, reply) is Ok <==> reply.header.status == 0,
        plugin::written_of(bucket, vbucket, cas, reply) matches Ok(m) ==> {
            &&& m.bucket == bucket
            &&& m.cas == reply.header.cas
            &&& m.partition_id == vbucket
            &&& m.raw_token is None
            &&& reply.extras.len() >= 16 ==> m.partition_uuid == wire::be_value(
                reply.extras.subrange(0, 8),
            ) && m.seq == wire::be_value(reply.extras.subrange(8, 16))
            &&& reply.extras.len() < 16 ==> m.partition_uuid == 0 && m.seq == 0
        },
        plugin::written_of(bucket, vbucket, cas, reply) matches Err(e) ==> e
            == plugin::status_error(reply.header.status, cas != 0),
        plugin::unlocked_of(cas, reply) is Ok <==> reply.header.status == 0,
        plugin::unlocked_of(cas, reply) matches Err(e) ==> e == plugin::status_error(
            reply.header.status,
            cas != 0,
        ),
{
    if reply.extras.len() >= 16 {
        wire::lemma_pow256_values();
        wire::lemma_be_value_bound(reply.extras.subrange(0, 8));
        wire::lemma_be_value_bound(reply.extras.subrange(8, 16));
    }
}

/// A read gives the document exactly when the status is zero: byte for byte where
/// no paths are named, or what they select; and then the flags of the extras and
/// the CAS of the reply. The expiry is the one that the metadata tells.
pub proof fn lemma_read_gives_the_document(
    reply: ReplyView,
    paths: Seq<Seq<char>>,
    document: Seq<u8>,
    meta: Option<ReplyView>,
)
    ensures
        reply.header.status != 0 ==> plugin::document_in(reply, paths) == Err::<Seq<u8>, ErrorView>(
            plugin::status_error(reply.header.status, false),
        ),
        reply.header.status == 0 && paths.len() == 0 ==> plugin::document_in(reply, paths) == Ok::<
            Seq<u8>,
            ErrorView,
        >(reply.value),
        reply.header.status == 0 && paths.len() > 0 ==> match json::json_parse(reply.value) {
            Ok(doc) => plugin::document_in(reply, paths) == Ok::<Seq<u8>, ErrorView>(
                encode_utf8(json::json_text(Tree::Object(project::selected(doc, paths)))),
            ),
            Err(_) => plugin::document_in(reply, paths) == Err::<Seq<u8>, ErrorView>(
                ErrorView::NotJson,
            ),
        },
        plugin::read_of(reply, document, meta).document == document,
        plugin::read_of(reply, document, meta).cas == reply.header.cas,
        plugin::read_of(reply, document, meta).expires_in_ns is None,
        reply.extras.len() >= 4 ==> plugin::read_of(reply, document, meta).flags == wire::be_value(
            reply.extras.subrange(0, 4),
        ),
        reply.extras.len() < 4 ==> plugin::read_of(reply, document, meta).flags == 0,
        plugin::read_of(reply, document, meta).expires_at is Some <==> (meta matches Some(m)
            && m.header.status == 0 && m.extras.len() >= 12 && wire::be_value(
            m.extras.subrange(8, 12),
        ) > 0),
        plugin::read_of(reply, document, meta).expires_at matches Some(t) ==> {
            let c = proto::civil_of(wire::be_value(meta->0.extras.subrange(8, 12)) as int);
            t == Time {
                offset: 0,
                year: c.year,
                month: c.month,
                day: c.day,
                hour: c.hour,
                minute: c.minute,
                second: c.second,
                milliseconds: 0,
                nanoseconds: 0,
            }
        },
{
    wire::lemma_pow256_values();
    if reply.extras.len() >= 4 {
        wire::lemma_be_value_bound(reply.extras.subrange(0, 4));
    }
    if let Some(m) = meta {
        if m.extras.len() >= 12 {
            wire::lemma_be_value_bound(m.extras.subrange(8, 12));
        }
    }
}

/// What each status of the protocol means. A conflict is a stale CAS exactly where
/// the request carried one.
pub proof fn lemma_statuses(code: u16, had_cas: bool)
    ensures
        code == 0x01 || code == 0x05 <==> plugin::status_error(code, had_cas) is NotFound,
        code == 0x02 && had_cas <==> plugin::status_error(code, had_cas) is CasMismatch,
        code == 0x02 && !had_cas <==> plugin::status_error(code, had_cas) is AlreadyExists,
        code == 0x09 <==> plugin::status_error(code, had_cas) is Locked,
        code == 0x30 <==> plugin::status_error(code, had_cas) is NotLocked,
        code == 0x20 <==> plugin::status_error(code, had_cas) is Unauthorized,
        code == 0x03 || code == 0x06 <==> plugin::status_error(code, had_cas) is InvalidArgument,
        code == 0x88 <==> plugin::status_error(code, had_cas) is NotConfigured,
        code == 0x81 || code == 0x83 <==> plugin::status_error(code, had_cas) is Unsupported,
        !(plugin::status_error(code, had_cas) is Timeout),
        !(plugin::status_error(code, had_cas) is RequestFailed),
{
}

/// A connection is kept after a success and after an error that the cluster
/// answered with; one that may have lost its place in the stream is not.
pub proof fn lemma_lost_connections_are_dropped(error: Option<ErrorView>)
    ensures
        plugin::keeps_connection(error) <==> !(error matches Some(e) && (e is Other || e
            is RequestFailed)),
{
}

/// The handshake begins with the features that are wanted: mutation tokens,
/// extended attributes, bucket selection, JSON and collections.
pub proof fn lemma_hello_asks_for_collections(b: BindingView, opaque: u32)
    requires
        fits(encode_utf8("wasmcloud-couchbase"@), Seq::empty(), proto::features_asked()),
    ensures
        is_request(
            conn::open_frame(Stage::Hello, b, opaque),
            0x1f,
            0,
            encode_utf8("wasmcloud-couchbase"@),
            Seq::empty(),
            proto::features_asked(),
            opaque,
            0,
        ),
        proto::features_in(proto::features_asked()) == seq![0x04u16, 0x06, 0x08, 0x0b, 0x12],
{
    lemma_frame_reads_back(
        0x1f,
        0,
        encode_utf8("wasmcloud-couchbase"@),
        Seq::empty(),
        proto::features_asked(),
        opaque,
        0,
    );
    proto::lemma_features_round_trip();
}

/// The credential that is sent is the binding's: NUL, user name, NUL, password.
pub proof fn lemma_credential_is_the_binding_s(b: BindingView, opaque: u32)
    requires
        fits(
            encode_utf8("PLAIN"@),
            Seq::empty(),
            seq![0u8] + encode_utf8(b.username) + seq![0u8] + encode_utf8(b.password),
        ),
    ensures
        is_request(
            conn::open_frame(Stage::Authenticate, b, opaque),
            0x21,
            0,
            encode_utf8("PLAIN"@),
            Seq::empty(),
            seq![0u8] + encode_utf8(b.username) + seq![0u8] + encode_utf8(b.password),
            opaque,
            0,
        ),
{
    lemma_frame_reads_back(
        0x21,
        0,
        encode_utf8("PLAIN"@),
        Seq::empty(),
        seq![0u8] + encode_utf8(b.username) + seq![0u8] + encode_utf8(b.password),
        opaque,
        0,
    );
}

/// The bucket that is selected is the binding's.
pub proof fn lemma_bucket_is_the_binding_s(b: BindingView, opaque: u32)
    requires
        fits(encode_utf8(b.bucket), Seq::empty(), Seq::empty()),
    ensures
        is_request(
            conn::open_frame(Stage::SelectBucket, b, opaque),
            0x89,
            0,
            encode_utf8(b.bucket),
            Seq::empty(),
            Seq::empty(),
            opaque,
            0,
        ),
{
    lemma_frame_reads_back(
        0x89,
        0,
        encode_utf8(b.bucket),
        Seq::empty(),
        Seq::empty(),
        opaque,
        0,
    );
}

/// The cluster's configuration is asked for as a whole.
pub proof fn lemma_configuration_is_asked_for(b: BindingView, opaque: u32)
    ensures
        is_request(
            conn::open_frame(Stage::ClusterConfig, b, opaque),
            0xb5,
            0,
            Seq::empty(),
            Seq::empty(),
            Seq::empty(),
            opaque,
            0,
        ),
{
    lemma_frame_reads_back(0xb5, 0, Seq::empty(), Seq::empty(), Seq::empty(), opaque, 0);
}

/// The collection that is resolved is the binding's own, by scope and collection.
pub proof fn lemma_collection_is_the_binding_s(b: BindingView, opaque: u32)
    requires
        fits(encode_utf8(b.scope + "."@ + b.collection), Seq::empty(), Seq::empty()),
    ensures
        is_request(
            conn::open_frame(Stage::CollectionId, b, opaque),
            0xbb,
            0,
            encode_utf8(b.scope + "."@ + b.collection),
            Seq::empty(),
            Seq::empty(),
            opaque,
            0,
        ),
{
    lemma_frame_reads_back(
        0xbb,
        0,
        encode_utf8(b.scope + "."@ + b.collection),
        Seq::empty(),
        Seq::empty(),
        opaque,
        0,
    );
}

/// Two bindings resolve to one collection only if they name the same scope and
/// collection, and select one bucket only if they name the same.
pub proof fn lemma_bindings_open_their_own_keyspace(a: BindingView, b: BindingView, opaque: u32)
    requires
        fits(encode_utf8(a.bucket), Seq::empty(), Seq::empty()),
        fits(encode_utf8(b.bucket), Seq::empty(), Seq::empty()),
        fits(encode_utf8(a.scope + "."@ + a.collection), Seq::empty(), Seq::empty()),
        fits(encode_utf8(b.scope + "."@ + b.collection), Seq::empty(), Seq::empty()),
        !a.scope.contains('.'),
        !b.scope.contains('.'),
    ensures
        conn::open_frame(Stage::SelectBucket, a, opaque) == conn::open_frame(
            Stage::SelectBucket,
            b,
            opaque,
        ) ==> a.bucket == b.bucket,
        conn::open_frame(Stage::CollectionId, a, opaque) == conn::open_frame(
            Stage::CollectionId,
            b,
            opaque,
        ) ==> a.scope == b.scope && a.collection == b.collection,
{
    lemma_bucket_is_the_binding_s(a, opaque);
    lemma_bucket_is_the_binding_s(b, opaque);
    let pa = a.scope + "."@ + a.collection;
    let pb = b.scope + "."@ + b.collection;
    lemma_collection_is_the_binding_s(a, opaque);
    lemma_collection_is_the_binding_s(b, opaque);
    if conn::open_frame(Stage::SelectBucket, a, opaque) == conn::open_frame(
        Stage::SelectBucket,
        b,
        opaque,
    ) {
        assert(encode_utf8(a.bucket) == encode_utf8(b.bucket));
        encode_utf8_decode_utf8(a.bucket);
        encode_utf8_decode_utf8(b.bucket);
    }
    if conn::open_frame(Stage::CollectionId, a, opaque) == conn::open_frame(
        Stage::CollectionId,
        b,
        opaque,
    ) {
        assert(encode_utf8(pa) == encode_utf8(pb));
        encode_utf8_decode_utf8(pa);
        encode_utf8_decode_utf8(pb);
        reveal_strlit(".");
        assert("."@ =~= seq!['.']);
        text::lemma_cut_unique(a.scope, a.collection, b.scope, b.collection, '.');
    }
}

/// The handshake goes on to the next stage exactly when the reply lets it: with a
/// status of zero throughout, with collections agreed to in the first, with a
/// vbucket map in the fourth and with a collection's number in the fifth, which
/// the connection then keeps.
pub proof fn lemma_handshake_goes_on(
    stage: Stage,
    b: BindingView,
    known: (u16, u32),
    reply: ReplyView,
)
    requires
        stage != Stage::Ready,
    ensures
        conn::open_step(stage, b, known, reply) is Ok <==> reply.header.status == 0 && match stage {
            Stage::Hello => proto::features_in(reply.value).contains(0x12u16),
            Stage::ClusterConfig => proto::vbucket_count_in(reply.value) is Ok,
            Stage::CollectionId => reply.extras.len() >= 12,
            _ => true,
        },
        conn::open_step(stage, b, known, reply) matches Ok((next, vbuckets, collection)) ==> {
            &&& next == match stage {
                Stage::Hello => Stage::Authenticate,
                Stage::Authenticate => Stage::SelectBucket,
                Stage::SelectBucket => Stage::ClusterConfig,
                Stage::ClusterConfig => Stage::CollectionId,
                _ => Stage::Ready,
            }
            &&& vbuckets == (if stage == Stage::ClusterConfig {
                proto::vbucket_count_in(reply.value)->Ok_0 as u16
            } else {
                known.0
            })
            &&& collection == (if stage == Stage::CollectionId {
                wire::be_value(reply.extras.subrange(8, 12)) as u32
            } else {
                known.1
            })
        },
        stage == Stage::Authenticate && reply.header.status == 0x20 ==> conn::open_step(
            stage,
            b,
            known,
            reply,
        ) == Err::<(Stage, u16, u32), Seq<char>>("authentication failed"@),
        stage == Stage::CollectionId && reply.header.status == 0x88 ==> conn::open_step(
            stage,
            b,
            known,
            reply,
        ) == Err::<(Stage, u16, u32), Seq<char>>(
            "no such scope or collection: `"@ + b.scope + "."@ + b.collection + "`"@,
        ),
{
    assert("no such scope or collection: `"@ + (b.scope + "."@ + b.collection) + "`"@
        =~= "no such scope or collection: `"@ + b.scope + "."@ + b.collection + "`"@);
}

/// The vbuckets of a bucket are those of the map in the cluster's configuration.
pub proof fn lemma_vbuckets_are_counted(config: Seq<u8>)
    ensures
        proto::vbucket_count_in(config) matches Ok(n) ==> n <= 0xffff && (json::json_parse(
            config,
        ) matches Ok(Tree::Object(m)) && m.contains_key("vBucketServerMap"@) && (
        m["vBucketServerMap"@] matches Tree::Object(s) && s.contains_key("vBucketMap"@) && (
        s["vBucketMap"@] matches Tree::Array(map) && map.len() == n))),
{
}

proof fn lemma_member_names()
    ensures
        "statement"@.len() == 9,
        "args"@.len() == 4,
        "query_context"@.len() == 13,
        "scan_consistency"@.len() == 16,
        "readonly"@.len() == 8,
        "timeout"@.len() == 7,
        "scan_vectors"@.len() == 12,
{
    reveal_strlit("statement");
    reveal_strlit("args");
    reveal_strlit("query_context");
    reveal_strlit("scan_consistency");
    reveal_strlit("readonly");
    reveal_strlit("timeout");
    reveal_strlit("scan_vectors");
}

/// Whether a member is there with this value.
pub open spec fn holds(m: Map<Seq<char>, Tree>, name: Seq<char>, value: Tree) -> bool {
    m.contains_key(name) && m[name] == value
}

/// A query goes out with the statement and the parameters as they are, in the
/// binding's own bucket and scope, within the binding's time limit, read-only
/// exactly as it is told, at the scan consistency that is asked for or after the
/// writes that are named.
pub proof fn lemma_query_asks_as_told(
    b: BindingView,
    statement: Seq<char>,
    args: Seq<Tree>,
    options: Option<SqlppQueryOptions>,
)
    ensures
        query::request_members(b, statement, args, options) matches Ok(m) ==> {
            &&& holds(m, "statement"@, Tree::Text(statement))
            &&& args.len() > 0 ==> holds(m, "args"@, Tree::Array(args))
            &&& args.len() == 0 ==> !m.contains_key("args"@)
            &&& holds(
                m,
                "query_context"@,
                Tree::Text("default:"@ + b.bucket + "."@ + b.scope),
            )
            &&& holds(m, "timeout"@, Tree::Text(number::decimal(b.timeout_ms as nat) + "ms"@))
            &&& match options {
                None => !m.contains_key("scan_consistency"@) && !m.contains_key("scan_vectors"@)
                    && !m.contains_key("readonly"@),
                Some(o) => {
                    &&& holds(m, "readonly"@, Tree::Bool(o.readonly))
                    &&& match o.consistent_with {
                        None => {
                            &&& !m.contains_key("scan_vectors"@)
                            &&& o.scan_consistency == QueryScanConsistency::RequestPlus
                                <==> holds(m, "scan_consistency"@, Tree::Text("request_plus"@))
                            &&& o.scan_consistency == QueryScanConsistency::NotBounded
                                <==> holds(m, "scan_consistency"@, Tree::Text("not_bounded"@))
                        },
                        Some(state) => {
                            &&& holds(m, "scan_consistency"@, Tree::Text("at_plus"@))
                            &&& m.contains_key("scan_vectors"@) && (m["scan_vectors"@] matches Tree::Object(
                                buckets,
                            ) && (forall|k: Seq<char>| #[trigger]
                                buckets.contains_key(k) <==> k == b.bucket) && buckets[b.bucket]
                                == Tree::Object(
                                asked::scan_map(
                                    asked::positions(asked::tokens_view(state.tokens@)),
                                ),
                            ))
                        },
                    }
                },
            }
        },
        query::request_members(b, statement, args, options) is Err <==> (options matches Some(o)
            && (o.consistent_with matches Some(state) && {
            let tokens = asked::tokens_view(state.tokens@);
            ||| tokens.len() == 0
            ||| exists|i: int|
                0 <= i < tokens.len() && ((#[trigger] tokens[i]).partition_uuid == 0 || (
                tokens[i].bucket_name.len() > 0 && tokens[i].bucket_name != b.bucket))
        })),
        query::request_members(b, statement, args, options) matches Err(e) ==> e
            is InvalidArgument,
{
    lemma_member_names();
    reveal_strlit("request_plus");
    reveal_strlit("not_bounded");
    assert("request_plus"@.len() == 12 && "not_bounded"@.len() == 11);
    if let Some(o) = options {
        if let Some(state) = o.consistent_with {
            let tokens = asked::tokens_view(state.tokens@);
            let at = asked::positions(tokens);
            asked::lemma_foreign_is_found(tokens, b.bucket);
            if asked::some_zeroed(at) {
                let i = choose|i: int| 0 <= i < at.len() && (#[trigger] at[i]).partition_uuid == 0;
                assert(tokens[i].partition_uuid == 0);
            }
            if exists|i: int| 0 <= i < tokens.len() && (#[trigger] tokens[i]).partition_uuid == 0 {
                let i = choose|i: int|
                    0 <= i < tokens.len() && (#[trigger] tokens[i]).partition_uuid == 0;
                assert(at[i].partition_uuid == 0);
            }
        }
    }
}

/// A query is posted to the query service of the bound node, with the binding's
/// user name and password and within the binding's time limit.
pub proof fn lemma_query_is_posted(
    caller: Option<ErrorView>,
    b: BindingView,
    statement: Seq<char>,
    params: Seq<ValueView>,
    options: Option<SqlppQueryOptions>,
)
    ensures
        query::query_of(caller, b, statement, params, options) is Ok <==> caller is None
            && asked::arguments_of(params) is Ok && query::request_members(
            b,
            statement,
            asked::arguments_of(params)->Ok_0,
            options,
        ) is Ok,
        query::query_of(caller, b, statement, params, options) matches Ok(q) ==> {
            let m = query::request_members(
                b,
                statement,
                asked::arguments_of(params)->Ok_0,
                options,
            )->Ok_0;
            let body = encode_utf8(json::json_text(Tree::Object(m)));
            &&& q.method == Method::Post
            &&& !q.secure
            &&& q.authority == b.host + ":"@ + number::decimal(b.query_port as nat)
            &&& q.path == "/query/service"@
            &&& q.body == Some(body)
            &&& q.timeout_ns == Some((b.timeout_ms * 1_000_000) as u64)
            &&& q.headers.len() == 3
            &&& q.headers[0] == (
                "authorization"@,
                encode_utf8(credentials::basic(b.username, b.password)),
            )
            &&& q.headers[1] == ("content-type"@, encode_utf8("application/json"@))
            &&& q.headers[2] == ("content-length"@, encode_utf8(number::decimal(body.len())))
        },
{
}

/// A query succeeds exactly when its answer carries no errors, and then gives the
/// rows of the answer; an answer without rows gives none. The first error tells
/// what went wrong by its code: a statement that could not be read, a keyspace
/// that is not there, or a credential that does not reach that far.
pub proof fn lemma_answer_gives_the_rows(status: u16, parsed: Tree)
    ensures
        query::service_answer(status, parsed) is Err <==> (parsed matches Tree::Object(m)
            && m.contains_key("errors"@) && (m["errors"@] matches Tree::Array(errors)
            && errors.len() > 0)),
        query::service_answer(status, parsed) matches Ok(v) ==> v == ValueView::Json(
            json::json_text(
                if parsed is Object && parsed->Object_0.contains_key("results"@) {
                    parsed->Object_0["results"@]
                } else {
                    Tree::Array(seq![])
                },
            ),
        ),
        query::service_answer(status, parsed) matches Err(e) ==> {
            let first = parsed->Object_0["errors"@]->Array_0[0];
            let code = if first is Object && first->Object_0.contains_key("code"@) {
                first->Object_0["code"@]
            } else {
                Tree::Null
            };
            &&& code == Tree::Int(3000) || code == Tree::Int(12003) || code == Tree::Int(12021)
                <==> e is InvalidArgument
            &&& code == Tree::Int(13014) <==> e is Unauthorized
            &&& e is InvalidArgument || e is Unauthorized || e is Server
        },
{
}

/// Whether a time limit in milliseconds is the one that a configuration sets, or
/// thirty seconds where it sets none.
pub open spec fn is_limit_of(timeout_ms: u32, config: Seq<(Seq<char>, Seq<char>)>) -> bool {
    match settings::setting(config, "timeout-ms"@) {
        Some(raw) => number::unsigned(raw, 10, 4_294_967_295) == Some(timeout_ms as nat)
            && timeout_ms > 0,
        None => timeout_ms == 30_000,
    }
}

/// A binding holds what its configuration says: the node and its ports, the user,
/// the keyspace, with the default scope and collection where none is named, and
/// the time limit.
pub proof fn lemma_binding_is_the_configuration(config: Seq<(Seq<char>, Seq<char>)>)
    ensures
        config::binding_in(config) matches Ok(b) ==> {
            &&& settings::setting(config, "username"@) == Some(b.username)
            &&& settings::setting(config, "password"@) == Some(b.password)
            &&& settings::setting(config, "bucket"@) == Some(b.bucket)
            &&& match settings::setting(config, "scope"@) {
                Some(scope) => b.scope == scope,
                None => b.scope == "_default"@,
            }
            &&& match settings::setting(config, "collection"@) {
                Some(collection) => b.collection == collection,
                None => b.collection == "_default"@,
            }
            &&& is_limit_of(b.timeout_ms, config)
            &&& match settings::setting(config, "query-port"@) {
                Some(raw) => number::unsigned(raw, 10, 65_535) == Some(b.query_port as nat),
                None => b.query_port == 8093,
            }
            &&& settings::setting(config, "endpoint"@) matches Some(raw) && config::endpoint(raw)
                == Ok::<(Seq<char>, u16), Seq<char>>((b.host, b.port))
        },
{
}

/// A host without a port is reached on port 11210, with and without the scheme.
pub proof fn lemma_default_port(host: Seq<char>)
    requires
        host.len() > 0,
        !host.contains(':'),
    ensures
        config::endpoint(host) == Ok::<(Seq<char>, u16), Seq<char>>((host, 11210)),
        config::endpoint("couchbase://"@ + host) == Ok::<(Seq<char>, u16), Seq<char>>(
            (host, 11210),
        ),
{
    reveal_strlit("couchbase://");
    reveal_strlit("couchbase");
    reveal_strlit("://");
    assert("://"@.len() == 3 && "couchbase"@.len() == 9);
    let raw = "couchbase://"@ + host;
    assert("couchbase://"@ =~= "couchbase"@ + "://"@);
    assert(raw.skip(9).take(3) =~= "://"@);
    text::lemma_find_some(raw, "://"@, 9);
    text::lemma_find_in_range(raw, "://"@);
    let k = text::find(raw, "://"@)->0;
    assert(raw.subrange(k, k + 3)[0] == ':');
    assert(k == 9) by {
        if k < 9 {
            assert(raw[k] == "couchbase"@[k]);
        }
    }
    assert(raw.take(9) =~= "couchbase"@);
    assert(raw.skip(12) =~= host);
    text::lemma_find_in_range(host, "://"@);
    if let Some(i) = text::find(host, "://"@) {
        assert(host.subrange(i, i + 3)[0] == ':');
        assert(host.contains(host[i]));
    }
    lemma_no_last(host);
}

proof fn lemma_no_last(host: Seq<char>)
    requires
        !host.contains(':'),
    ensures
        text::split_last(host, ':') is None,
    decreases host.len(),
{
    if host.len() > 0 {
        assert(host.contains(host.last()));
        assert forall|c: char| host.drop_last().contains(c) implies host.contains(c) by {
            let i = choose|i: int| 0 <= i < host.len() - 1 && host.drop_last()[i] == c;
            assert(host[i] == c);
        }
        lemma_no_last(host.drop_last());
    }
}

/// A workload is bound with what its first interface configures, is refused where
/// that is not valid, and is left alone where it has no such interface.
pub proof fn lemma_workload_is_bound_as_configured(workload: WorkloadInfo)
    ensures
        plugin::bound_by(workload) == Ok::<Option<BindingView>, Seq<char>>(None)
            <==> bindings::served(workload.interfaces@) is None,
        plugin::bound_by(workload) matches Ok(Some(b)) ==> (bindings::served(
            workload.interfaces@,
        ) matches Some(i) && config::binding_in(settings::pairs(i.config@)) == Ok::<
            BindingView,
            Seq<char>,
        >(b)),
        plugin::bound_by(workload) is Err <==> (bindings::served(
            workload.interfaces@,
        ) matches Some(i) && config::binding_in(settings::pairs(i.config@)) is Err),
{
}

} // verus!
