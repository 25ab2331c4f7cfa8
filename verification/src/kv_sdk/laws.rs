//! What the operations of the SDK transport promise their callers: the settings
//! that each of them calls the SDK with, and what an outcome means.

use vstd::prelude::*;
use vstd::string::*;
use vstd::utf8::*;

use crate::bindings;
use crate::calendar;
use crate::json;
use crate::json::Tree;
use crate::kv_sdk::config;
use crate::kv_sdk::config::BindingView;
use crate::kv_sdk::plugin;
use crate::kv_sdk::plugin::{ConnectView, Durability, SdkToken, WriteSettings};
use crate::kv_sdk::query;
use crate::kv_sdk::query::{ErrorKind, ScanView};
use crate::number;
use crate::query as asked;
use crate::settings;
use crate::text;
use crate::types::{
    DocumentGetAndLockOptions, DocumentGetAndTouchOptions, DocumentGetOptions,
    DocumentInsertOptions, DocumentRemoveOptions, DocumentReplaceOptions, DocumentTouchOptions,
    DocumentUnlockOptions, DocumentUpsertOptions, DurabilityLevel, ErrorView, QueryErrorView,
    QueryScanConsistency, ReplicaReadLevel, SqlppQueryOptions, Time, ValueView, WorkloadInfo,
};

verus! {

/// Whether a deadline is the caller's, rounded up to whole milliseconds as far as
/// they can be told, or the binding's where the caller sets none.
pub open spec fn waits(deadline_ms: u32, own_ms: u32, asked_ns: Option<u64>) -> bool {
    if asked_ns is None || asked_ns == Some(0u64) {
        deadline_ms == own_ms
    } else {
        &&& deadline_ms >= 1
        &&& (deadline_ms - 1) * 1_000_000 < asked_ns->0
        &&& deadline_ms * 1_000_000 >= asked_ns->0 || deadline_ms == 4_294_967_295
    }
}

/// Whether a time to live in whole seconds is the one asked for: never shorter,
/// less than a second longer, and unset where none is asked for.
pub open spec fn lives_for(seconds: Option<u64>, ns: u64) -> bool {
    match seconds {
        None => ns == 0,
        Some(s) => ns > 0 && s * 1_000_000_000 >= ns && (s - 1) * 1_000_000_000 < ns,
    }
}

/// Whether a durability is exactly the one asked for; unset where none is.
pub open spec fn is_durability(set: Option<Durability>, level: DurabilityLevel) -> bool {
    match level {
        DurabilityLevel::Unknown | DurabilityLevel::Off => set is None,
        DurabilityLevel::ReplicateMajority => set == Some(Durability::Majority),
        DurabilityLevel::ReplicateMajorityPersistMaster => set == Some(
            Durability::MajorityAndPersistActive,
        ),
        DurabilityLevel::PersistMajority => set == Some(Durability::PersistToMajority),
    }
}

/// Whether flags are the ones given, or those of JSON.
pub open spec fn flagged(set: u32, flags: Option<u32>) -> bool {
    match flags {
        Some(f) => set == f,
        None => set == 0x0200_0006,
    }
}

/// Whether the settings of a write set nothing but the flags of JSON and the
/// binding's own deadline.
pub open spec fn bare(s: WriteSettings, own_ms: u32) -> bool {
    &&& s.flags == 0x0200_0006
    &&& s.expiry is None
    &&& s.durability is None
    &&& s.preserve_expiry is None
    &&& s.cas is None
    &&& s.deadline_ms == own_ms
}

proof fn lemma_waits(own_ms: u32, asked_ns: Option<u64>)
    ensures
        waits(plugin::deadline_of(own_ms, asked_ns), own_ms, asked_ns),
{
    if let Some(ns) = asked_ns {
        if ns > 0 {
            number::lemma_rounding_keeps_a_limit(ns, 1_000_000);
        }
    }
}

proof fn lemma_lives_for(ns: u64)
    ensures
        lives_for(plugin::expiry_of(ns), ns),
        ns > 0 ==> lives_for(Some(number::ceil_div(ns as nat, 1_000_000_000) as u64), ns),
{
    if ns > 0 {
        number::lemma_rounding_keeps_a_limit(ns, 1_000_000_000);
    }
}

/// An insert is on no CAS and keeps no expiry, and its other settings are those
/// of its options.
pub proof fn lemma_insert_settings(
    caller: Option<ErrorView>,
    own_ms: u32,
    options: Option<DocumentInsertOptions>,
)
    ensures
        plugin::insert_of(caller, own_ms, options) is Ok <==> caller is None && (options matches Some(
            o,
        ) ==> o.persist_to == 0 && o.replicate_to == 0),
        plugin::insert_of(caller, own_ms, options) matches Ok(s) ==> match options {
            Some(o) => {
                &&& s.cas is None
                &&& s.preserve_expiry is None
                &&& flagged(s.flags, o.flags)
                &&& lives_for(s.expiry, o.expires_in_ns)
                &&& is_durability(s.durability, o.durability_level)
                &&& waits(s.deadline_ms, own_ms, o.timeout_ns)
            },
            None => bare(s, own_ms),
        },
        caller is None ==> (plugin::insert_of(caller, own_ms, options) matches Err(e) ==> e
            is Unsupported),
{
    if let Some(o) = options {
        lemma_waits(own_ms, o.timeout_ns);
        lemma_lives_for(o.expires_in_ns);
    }
}

/// An upsert is on no CAS, keeps the expiry exactly when it is told to, and its
/// other settings are those of its options.
pub proof fn lemma_upsert_settings(
    caller: Option<ErrorView>,
    own_ms: u32,
    options: Option<DocumentUpsertOptions>,
)
    ensures
        plugin::upsert_of(caller, own_ms, options) is Ok <==> caller is None && (options matches Some(
            o,
        ) ==> o.persist_to == 0 && o.replicate_to == 0),
        plugin::upsert_of(caller, own_ms, options) matches Ok(s) ==> match options {
            Some(o) => {
                &&& s.cas is None
                &&& o.preserve_expiry <==> s.preserve_expiry == Some(true)
                &&& !o.preserve_expiry <==> s.preserve_expiry is None
                &&& flagged(s.flags, o.flags)
                &&& lives_for(s.expiry, o.expires_in_ns)
                &&& is_durability(s.durability, o.durability_level)
                &&& waits(s.deadline_ms, own_ms, o.timeout_ns)
            },
            None => bare(s, own_ms),
        },
        caller is None ==> (plugin::upsert_of(caller, own_ms, options) matches Err(e) ==> e
            is Unsupported),
{
    if let Some(o) = options {
        lemma_waits(own_ms, o.timeout_ns);
        lemma_lives_for(o.expires_in_ns);
    }
}

/// A replace is on exactly the caller's CAS, and on none exactly when the caller
/// gives none; its other settings are those of its options.
pub proof fn lemma_replace_settings(
    caller: Option<ErrorView>,
    own_ms: u32,
    options: Option<DocumentReplaceOptions>,
)
    ensures
        plugin::replace_of(caller, own_ms, options) is Ok <==> caller is None && (
        options matches Some(o) ==> o.persist_to == 0 && o.replicate_to == 0),
        plugin::replace_of(caller, own_ms, options) matches Ok(s) ==> match options {
            Some(o) => {
                &&& o.cas != 0 ==> s.cas == Some(o.cas)
                &&& o.cas == 0 <==> s.cas is None
                &&& o.preserve_expiry <==> s.preserve_expiry == Some(true)
                &&& !o.preserve_expiry <==> s.preserve_expiry is None
                &&& flagged(s.flags, o.flags)
                &&& lives_for(s.expiry, o.expires_in_ns)
                &&& is_durability(s.durability, o.durability_level)
                &&& waits(s.deadline_ms, own_ms, o.timeout_ns)
            },
            None => bare(s, own_ms),
        },
        caller is None ==> (plugin::replace_of(caller, own_ms, options) matches Err(e) ==> e
            is Unsupported),
{
    if let Some(o) = options {
        lemma_waits(own_ms, o.timeout_ns);
        lemma_lives_for(o.expires_in_ns);
    }
}

/// A remove is on exactly the caller's CAS, and on none exactly when the caller
/// gives none; its durability and its deadline are those of its options.
pub proof fn lemma_remove_settings(
    caller: Option<ErrorView>,
    own_ms: u32,
    options: Option<DocumentRemoveOptions>,
)
    ensures
        plugin::remove_of(caller, own_ms, options) is Ok <==> caller is None && (options matches Some(
            o,
        ) ==> o.persist_to == 0 && o.replicate_to == 0),
        plugin::remove_of(caller, own_ms, options) matches Ok(s) ==> match options {
            Some(o) => {
                &&& o.cas != 0 ==> s.cas == Some(o.cas)
                &&& o.cas == 0 <==> s.cas is None
                &&& s.preserve_expiry is None
                &&& s.expiry is None
                &&& is_durability(s.durability, o.durability_level)
                &&& waits(s.deadline_ms, own_ms, o.timeout_ns)
            },
            None => bare(s, own_ms),
        },
        caller is None ==> (plugin::remove_of(caller, own_ms, options) matches Err(e) ==> e
            is Unsupported),
{
    if let Some(o) = options {
        lemma_waits(own_ms, o.timeout_ns);
    }
}

/// A get selects exactly the paths that are named and is told to report the expiry
/// exactly when it is asked to. A replica read is refused.
pub proof fn lemma_get_settings(
    caller: Option<ErrorView>,
    own_ms: u32,
    options: Option<DocumentGetOptions>,
)
    ensures
        plugin::get_of(caller, own_ms, options) is Ok <==> caller is None && (options matches Some(
            o,
        ) ==> o.use_replica != Some(ReplicaReadLevel::On)),
        plugin::get_of(caller, own_ms, options) matches Ok(s) ==> match options {
            Some(o) => {
                &&& o.with_expiry <==> s.expiry == Some(true)
                &&& !o.with_expiry <==> s.expiry is None
                &&& waits(s.deadline_ms, own_ms, o.timeout_ns)
                &&& match o.project {
                    None => s.projections is None,
                    Some(names) => {
                        &&& s.projections matches Some(kept) ==> kept.len() > 0
                        &&& forall|p: Seq<char>|
                            (s.projections matches Some(kept) && kept.contains(p))
                                <==> #[trigger] text::texts(names@).contains(p) && p.len() > 0
                        &&& names@.len() > 0 && (forall|i: int|
                            0 <= i < names@.len() ==> (#[trigger] names@[i])@.len() > 0)
                            ==> s.projections == Some(text::texts(names@))
                    },
                }
            },
            None => s.projections is None && s.expiry is None && s.deadline_ms == own_ms,
        },
        caller is None ==> (plugin::get_of(caller, own_ms, options) matches Err(e) ==> e
            is Unsupported),
{
    if let Some(o) = options {
        lemma_waits(own_ms, o.timeout_ns);
        if let Some(names) = o.project {
            let all = text::texts(names@);
            let kept = text::nonempty(all);
            assert forall|p: Seq<char>| kept.contains(p) <==> #[trigger] all.contains(p) && p.len()
                > 0 by {
                text::lemma_nonempty_keeps(all, p);
            }
            text::lemma_nonempty_keeps(all, seq![]);
            if kept.len() == 0 {
                assert forall|p: Seq<char>| !kept.contains(p) by {}
            }
            if forall|i: int| 0 <= i < names@.len() ==> (#[trigger] names@[i])@.len() > 0 {
                assert forall|i: int| 0 <= i < all.len() implies (#[trigger] all[i]).len() > 0 by {
                    assert(names@[i]@.len() > 0);
                }
            }
        }
    }
}

/// A touch and a get-and-touch set the time to live that they are given and are
/// refused without one. A lock is taken for as long as it is asked for, fifteen
/// seconds by default. An unlock is of exactly the caller's CAS, and refused
/// without one. Each waits as long as the caller says.
pub proof fn lemma_timed_settings(
    caller: Option<ErrorView>,
    own_ms: u32,
    touch: Option<DocumentTouchOptions>,
    get_and_touch: Option<DocumentGetAndTouchOptions>,
    lock: Option<DocumentGetAndLockOptions>,
    unlock: Option<DocumentUnlockOptions>,
)
    ensures
        plugin::touching_of(caller, own_ms, touch) is Ok <==> caller is None && (
        touch matches Some(o) && o.expires_in > 0),
        plugin::touching_of(caller, own_ms, touch) matches Ok(s) ==> lives_for(
            Some(s.value),
            touch->0.expires_in,
        ) && waits(s.deadline_ms, own_ms, touch->0.timeout_ns),
        plugin::getting_and_touching_of(caller, own_ms, get_and_touch) is Ok <==> caller is None && (
        get_and_touch matches Some(o) && o.expires_in > 0),
        plugin::getting_and_touching_of(caller, own_ms, get_and_touch) matches Ok(s) ==> lives_for(
            Some(s.value),
            get_and_touch->0.expires_in,
        ) && waits(s.deadline_ms, own_ms, get_and_touch->0.timeout_ns),
        plugin::locking_of(caller, own_ms, lock) is Ok <==> caller is None,
        plugin::locking_of(caller, own_ms, lock) matches Ok(s) ==> match lock {
            Some(o) => (if o.lock_time == 0 {
                s.value == 15
            } else {
                lives_for(Some(s.value), o.lock_time)
            }) && waits(s.deadline_ms, own_ms, o.timeout_ns),
            None => s.value == 15 && s.deadline_ms == own_ms,
        },
        plugin::unlocking_of(caller, own_ms, unlock) is Ok <==> caller is None && (
        unlock matches Some(o) && o.cas != 0),
        plugin::unlocking_of(caller, own_ms, unlock) matches Ok(s) ==> s.value == unlock->0.cas
            && waits(s.deadline_ms, own_ms, unlock->0.timeout_ns),
        caller is None ==> (plugin::touching_of(caller, own_ms, touch) matches Err(e) ==> e
            is InvalidArgument),
        caller is None ==> (plugin::getting_and_touching_of(
            caller,
            own_ms,
            get_and_touch,
        ) matches Err(e) ==> e is InvalidArgument),
        caller is None ==> (plugin::unlocking_of(caller, own_ms, unlock) matches Err(e) ==> e
            is InvalidArgument),
{
    if let Some(o) = touch {
        lemma_lives_for(o.expires_in);
        lemma_waits(own_ms, o.timeout_ns);
    }
    if let Some(o) = get_and_touch {
        lemma_lives_for(o.expires_in);
        lemma_waits(own_ms, o.timeout_ns);
    }
    if let Some(o) = lock {
        lemma_lives_for(o.lock_time);
        lemma_waits(own_ms, o.timeout_ns);
    }
    if let Some(o) = unlock {
        lemma_waits(own_ms, o.timeout_ns);
    }
}

/// A write reports the binding's bucket, the CAS and the position that the SDK
/// gives; without a token it has no position.
pub proof fn lemma_write_reports_the_mutation(
    bucket: Seq<char>,
    cas: u64,
    token: Option<SdkToken>,
)
    ensures
        ({
            let m = plugin::mutation_of(bucket, cas, token);
            &&& m.bucket == bucket
            &&& m.cas == cas
            &&& m.raw_token is None
            &&& match token {
                Some(t) => m.partition_id == t.partition_id && m.partition_uuid == t.partition_uuid
                    && m.seq == t.sequence_number,
                None => m.partition_id == 0 && m.partition_uuid == 0 && m.seq == 0,
            }
        }),
{
}

/// A read reports what the SDK gives, byte for byte.
pub proof fn lemma_read_reports_the_document(
    document: Seq<u8>,
    flags: u32,
    cas: u64,
    expires_at: Option<Time>,
)
    ensures
        ({
            let g = plugin::read_of(document, flags, cas, expires_at);
            &&& g.document == document
            &&& g.flags == flags
            &&& g.cas == cas
            &&& g.expires_at == expires_at
            &&& g.expires_in_ns is None
        }),
{
}

/// A query goes out with its parameters as they are, at the scan consistency that
/// is asked for or after the writes that are named, and within the caller's time
/// limit or else the binding's.
pub proof fn lemma_query_settings(
    caller: Option<ErrorView>,
    b: BindingView,
    params: Seq<ValueView>,
    options: Option<SqlppQueryOptions>,
)
    ensures
        query::query_of(caller, b, params, options) matches Ok(s) ==> {
            &&& caller is None
            &&& s.args is Some <==> params.len() > 0
            &&& s.args matches Some(args) ==> args.len() == params.len() && forall|i: int|
                0 <= i < params.len() ==> match #[trigger] params[i] {
                    ValueView::Null => args[i] == Tree::Null,
                    ValueView::Json(t) => json::json_parse(encode_utf8(t)) == Ok::<
                        Tree,
                        Seq<char>,
                    >(args[i]),
                }
            &&& match options {
                None => s.scan is None && s.timeout_ms == b.timeout_ms,
                Some(o) => {
                    &&& waits(s.timeout_ms, b.timeout_ms, Some(o.timeout_ns))
                    &&& match o.consistent_with {
                        None => {
                            &&& o.scan_consistency == QueryScanConsistency::NotBounded
                                <==> s.scan == Some(ScanView::NotBounded)
                            &&& o.scan_consistency == QueryScanConsistency::RequestPlus
                                <==> s.scan == Some(ScanView::RequestPlus)
                        },
                        Some(state) => s.scan matches Some(ScanView::AtPlus(tokens))
                            && tokens.len() == state.tokens@.len() && tokens.len() > 0,
                    }
                },
            }
        },
{
    asked::lemma_arguments_are_the_parameters(params);
    if let Some(o) = options {
        lemma_waits(b.timeout_ms, Some(o.timeout_ns));
        if o.consistent_with is Some {
            query::lemma_consistent_with_waits(o, b.bucket);
        }
    }
}

/// A query is let through where the caller is bound, every parameter is JSON and no
/// write is named; a parameter that is not JSON is the caller's to mend.
pub proof fn lemma_query_is_let_through(
    caller: Option<ErrorView>,
    b: BindingView,
    params: Seq<ValueView>,
    options: Option<SqlppQueryOptions>,
)
    ensures
        caller is None && (forall|i: int|
            0 <= i < params.len() ==> (#[trigger] params[i] matches ValueView::Json(t)
                ==> json::json_parse(encode_utf8(t)) is Ok)) && (options matches Some(o)
            ==> o.consistent_with is None) ==> query::query_of(caller, b, params, options) is Ok,
        caller is None && (options matches Some(o) ==> o.consistent_with is None) ==> (
        query::query_of(caller, b, params, options) matches Err(e) ==> e is InvalidArgument),
        caller is Some ==> query::query_of(caller, b, params, options) is Err,
{
    asked::lemma_arguments_are_the_parameters(params);
}

/// A statement that could not be read and a keyspace that is not there are the
/// caller's to mend, whatever the SDK's text says.
pub proof fn lemma_statement_errors_are_the_caller_s(kind: ErrorKind, said: Seq<char>)
    ensures
        !(kind is Other) ==> query::query_error(kind, said) is InvalidArgument,
        kind is Other ==> {
            let e = plugin::sdk_error(said);
            let got = query::query_error(kind, said);
            &&& e is Unauthorized <==> got is Unauthorized
            &&& e is Timeout <==> got is Timeout
            &&& e is NotFound || e is InvalidArgument <==> got is InvalidArgument
            &&& e matches ErrorView::InvalidArgument(m) ==> got == QueryErrorView::InvalidArgument(
                m,
            )
            &&& got is Unauthorized || got is Timeout || got is InvalidArgument || got is Server
        },
{
}

/// What an SDK error says decides what it means, in any case of letters; and a
/// text that says none of it is kept as it is.
pub proof fn lemma_sdk_errors_are_told_apart(said: Seq<char>)
    ensures
        ({
            let t = text::lower(said);
            let e = plugin::sdk_error(said);
            &&& text::contains_text(t, "document not found"@) ==> e is NotFound
            &&& e is NotFound ==> text::contains_text(t, "document not found"@)
                || text::contains_text(t, "documentnotfound"@)
            &&& e is AlreadyExists ==> text::contains_text(t, "document exists"@)
                || text::contains_text(t, "documentexists"@)
            &&& e is CasMismatch ==> text::contains_text(t, "cas mismatch"@) || text::contains_text(
                t,
                "casmismatch"@,
            )
            &&& e is Locked ==> text::contains_text(t, "document locked"@) || text::contains_text(
                t,
                "documentlocked"@,
            )
            &&& e is NotLocked ==> text::contains_text(t, "not locked"@) || text::contains_text(
                t,
                "documentnotlocked"@,
            )
            &&& e is Unauthorized ==> text::contains_text(t, "authentication"@)
                || text::contains_text(t, "unauthorized"@) || text::contains_text(t, "permission"@)
            &&& e is Timeout ==> text::contains_text(t, "timeout"@) || text::contains_text(
                t,
                "timed out"@,
            )
            &&& e matches ErrorView::InvalidArgument(m) ==> m == said
            &&& e matches ErrorView::Other(m) ==> m == said && !text::contains_text(
                t,
                "document exists"@,
            ) && !text::contains_text(t, "cas mismatch"@) && !text::contains_text(
                t,
                "document locked"@,
            ) && !text::contains_text(t, "not locked"@) && !text::contains_text(
                t,
                "authentication"@,
            ) && !text::contains_text(t, "timeout"@) && !text::contains_text(t, "timed out"@)
                && !text::contains_text(t, "invalid argument"@)
            &&& e is NotFound || e is AlreadyExists || e is CasMismatch || e is Locked || e
                is NotLocked || e is Unauthorized || e is Timeout || e is InvalidArgument || e
                is Other
        }),
{
}

/// Whether a time limit in milliseconds is the one that a configuration sets, or
/// thirty seconds where it sets none.
pub open spec fn is_limit_of(timeout_ms: u32, config: Seq<(Seq<char>, Seq<char>)>) -> bool {
    match settings::setting(config, "timeout-ms"@) {
        Some(raw) => number::unsigned(raw, 10, 4_294_967_295) == Some(timeout_ms as nat)
            && timeout_ms > 0,
        None => timeout_ms == 30_000,
    }
}

/// A binding holds what its configuration says: the cluster, the user, the
/// keyspace, with the default scope and collection where none is named, and the
/// time limit.
pub proof fn lemma_binding_is_the_configuration(config: Seq<(Seq<char>, Seq<char>)>)
    ensures
        config::binding_in(config) matches Ok(b) ==> {
            &&& settings::setting(config, "username"@) == Some(b.username)
            &&& settings::setting(config, "password"@) == Some(b.password)
            &&& settings::setting(config, "bucket"@) == Some(b.bucket)
            &&& match settings::setting(config, "scope"@) {
                Some(scope) => b.scope == scope,
                None => b.scope == "_default"@,
            }
            &&& match settings::setting(config, "collection"@) {
                Some(collection) => b.collection == collection,
                None => b.collection == "_default"@,
            }
            &&& is_limit_of(b.timeout_ms, config)
            &&& settings::setting(config, "endpoint"@) matches Some(raw) && (b.connection_string
                == text::trimmed(raw) || b.connection_string == "couchbases://"@ + text::trimmed(
                raw,
            ))
        },
{
}

/// A connection string that is given is used as it is, in either scheme.
pub proof fn lemma_connection_string_is_kept(host: Seq<char>, scheme: Seq<char>)
    requires
        scheme == "couchbase"@ || scheme == "couchbases"@,
        host.len() > 0,
        !text::is_white_space(host.last()),
    ensures
        config::connection_string(scheme + "://"@ + host) == Ok::<Seq<char>, Seq<char>>(
            scheme + "://"@ + host,
        ),
{
    reveal_strlit("couchbase");
    reveal_strlit("couchbases");
    reveal_strlit("://");
    assert("://"@.len() == 3 && "couchbase"@.len() == 9 && "couchbases"@.len() == 10);
    let raw = scheme + "://"@ + host;
    let n = scheme.len() as int;
    assert(raw[0] == 'c');
    text::lemma_trimmed_same(raw);
    assert(raw.skip(n).take(3) =~= "://"@);
    text::lemma_find_some(raw, "://"@, n);
    text::lemma_find_in_range(raw, "://"@);
    let k = text::find(raw, "://"@)->0;
    assert(raw.subrange(k, k + 3)[0] == ':');
    assert(k == n) by {
        if k < n {
            assert(raw[k] == scheme[k]);
        }
    }
    assert(raw.take(n) =~= scheme);
    assert(raw.skip(n + 3) =~= host);
}

/// A workload is bound with what its first interface configures, is refused where
/// that is not valid, and is left alone where it has no such interface.
pub proof fn lemma_workload_is_bound_as_configured(workload: WorkloadInfo)
    ensures
        plugin::bound_by(workload) == Ok::<Option<BindingView>, Seq<char>>(None)
            <==> bindings::served(workload.interfaces@) is None,
        plugin::bound_by(workload) matches Ok(Some(b)) ==> (bindings::served(
            workload.interfaces@,
        ) matches Some(i) && config::binding_in(settings::pairs(i.config@)) == Ok::<
            BindingView,
            Seq<char>,
        >(b)),
        plugin::bound_by(workload) is Err <==> (bindings::served(
            workload.interfaces@,
        ) matches Some(i) && config::binding_in(settings::pairs(i.config@)) is Err),
{
}

/// The SDK is handed the address that a name stands for with the scheme and the
/// port that were given, an IPv6 address in brackets; and it is handed what was
/// given where there is no name to look up.
pub proof fn lemma_only_the_name_is_replaced(
    raw: Seq<char>,
    found: Result<Option<(bool, Seq<char>)>, Seq<char>>,
)
    ensures
        plugin::name_in(raw) is None ==> plugin::resolved(raw, found) == Ok::<
            Seq<char>,
            ConnectView,
        >(raw),
        plugin::name_in(raw) is Some ==> ({
            let (scheme, host, port) = config::connection_parts(raw);
            &&& plugin::name_in(raw) == Some(host)
            &&& found matches Ok(Some((v6, address))) ==> plugin::resolved(raw, found) == Ok::<
                Seq<char>,
                ConnectView,
            >(
                if v6 {
                    scheme + "://["@ + address + "]"@ + port
                } else {
                    scheme + "://"@ + address + port
                },
            )
            &&& !(found matches Ok(Some(_))) ==> (plugin::resolved(raw, found) matches Err(e) && e
                is Resolve)
        }),
{
}

/// An instant that the SDK reports is the time that the calendar gives it, against
/// GMT, to the nanosecond.
pub proof fn lemma_time_is_the_instant(seconds: i64, nanos: u32)
    requires
        plugin::representable(seconds, nanos),
    ensures
        ({
            let t = plugin::time_of(seconds, nanos);
            let date = calendar::date_of(calendar::day_of_second(seconds as int));
            &&& t.offset == 0
            &&& t.year == date.year && t.month == date.month && t.day == date.day
            &&& t.hour < 24 && t.minute < 60 && t.second < 60
            &&& calendar::day_of_second(seconds as int) * 86_400 + t.hour * 3_600 + t.minute * 60
                + t.second == seconds
            &&& t.milliseconds * 1_000_000 + t.nanoseconds == nanos
            &&& t.nanoseconds < 1_000_000
        }),
{
    let n = calendar::day_of_second(seconds as int);
    calendar::lemma_date_of_valid(n);
}

} // verus!
