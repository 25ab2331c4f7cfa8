//! What the operations of the HTTP transport promise their callers: which
//! request each of them sends, and what a reply to it means.

use vstd::prelude::*;
use vstd::string::*;
use vstd::utf8::*;

use crate::bindings;
use crate::credentials;
use crate::data_api::api;
use crate::data_api::api::BodyView;
use crate::data_api::config;
use crate::data_api::config::BindingView;
use crate::data_api::mutation;
use crate::data_api::mutation::PartsView;
use crate::data_api::plugin;
use crate::data_api::query;
use crate::data_api::plugin::{ReplyView, TransportFailure};
use crate::data_api::timefmt;
use crate::http;
use crate::http::{Method, Rejected, RequestView};
use crate::json;
use crate::json::Tree;
use crate::number;
use crate::query as asked;
use crate::settings;
use crate::text;
use crate::types::{
    DocumentGetAndTouchOptions, DocumentGetOptions, DocumentInsertOptions, DocumentRemoveOptions,
    DocumentReplaceOptions, DocumentTouchOptions, DocumentUpsertOptions, DurabilityLevel,
    ErrorView, QueryErrorView, QueryScanConsistency, ReplicaReadLevel, SqlppQueryOptions, Time,
    ValueView, WorkloadInfo,
};

verus! {

/// The values that header fields give a name, in order.
pub open spec fn values(headers: Seq<(Seq<char>, Seq<u8>)>, name: Seq<char>) -> Seq<Seq<u8>>
    decreases headers.len(),
{
    if headers.len() == 0 {
        seq![]
    } else if headers.last().0 == name {
        values(headers.drop_last(), name).push(headers.last().1)
    } else {
        values(headers.drop_last(), name)
    }
}

/// Whether a request has one field of a name, with this value.
pub open spec fn sends(q: RequestView, name: Seq<char>, value: Seq<char>) -> bool {
    values(q.headers, name) == seq![encode_utf8(value)]
}

/// Whether a request has no field of a name.
pub open spec fn omits(q: RequestView, name: Seq<char>) -> bool {
    values(q.headers, name) == Seq::<Seq<u8>>::empty()
}

/// Whether a request goes to the binding's endpoint with the binding's
/// credential, and asks for JSON.
pub open spec fn goes_to(q: RequestView, b: BindingView) -> bool {
    &&& q.secure == b.secure
    &&& q.authority == b.authority
    &&& sends(q, "authorization"@, b.authorization)
    &&& sends(q, "accept"@, "application/json"@)
}

/// Whether a request declares the length of the body that it has.
pub open spec fn declares_length(q: RequestView) -> bool {
    sends(
        q,
        "content-length"@,
        number::decimal(
            match q.body {
                Some(bytes) => bytes.len(),
                None => 0,
            },
        ),
    )
}

/// Whether the time limit of a request is the caller's, rounded up to whole
/// milliseconds as far as they can be told, or the binding's where the caller
/// sets none.
pub open spec fn limited_by(q: RequestView, own_ms: u32, asked_ns: Option<u64>) -> bool {
    match q.timeout_ns {
        None => false,
        Some(ns) => if asked_ns is None || asked_ns == Some(0u64) {
            ns == own_ms * 1_000_000
        } else {
            &&& ns % 1_000_000 == 0
            &&& ns < asked_ns->0 + 1_000_000
            &&& ns >= asked_ns->0 || ns == 4_294_967_295_000_000
        },
    }
}

/// Whether a request names a time to live in whole seconds, never shorter than
/// asked for as far as 32 bits can tell; none where none is asked for.
pub open spec fn expires_after(q: RequestView, ns: u64) -> bool {
    if ns == 0 {
        omits(q, "expires"@)
    } else {
        exists|s: nat|
            {
                &&& #[trigger] sends(q, "expires"@, number::decimal(s) + "s"@)
                &&& 1 <= s
                &&& (s - 1) * 1_000_000_000 < ns
                &&& s * 1_000_000_000 >= ns || s == 4_294_967_295
            }
    }
}

/// Whether a request asks for exactly this durability.
pub open spec fn durable_by(q: RequestView, level: DurabilityLevel) -> bool {
    match level {
        DurabilityLevel::Unknown => omits(q, "x-cb-durabilitylevel"@),
        DurabilityLevel::Off => sends(q, "x-cb-durabilitylevel"@, "None"@),
        DurabilityLevel::ReplicateMajority => sends(q, "x-cb-durabilitylevel"@, "Majority"@),
        DurabilityLevel::ReplicateMajorityPersistMaster => sends(
            q,
            "x-cb-durabilitylevel"@,
            "MajorityAndPersistOnMaster"@,
        ),
        DurabilityLevel::PersistMajority => sends(
            q,
            "x-cb-durabilitylevel"@,
            "PersistToMajority"@,
        ),
    }
}

/// Whether a request stores these flags; none where none are given.
pub open spec fn flagged(q: RequestView, flags: Option<u32>) -> bool {
    match flags {
        Some(f) => sends(q, "x-cb-flags"@, number::decimal(f as nat)),
        None => omits(q, "x-cb-flags"@),
    }
}

/// Whether a request is conditional on exactly this CAS: its one `If-Match` is
/// read back as that.
pub open spec fn on_cas(q: RequestView, cas: u64) -> bool {
    exists|tag: Seq<char>| #[trigger] sends(q, "if-match"@, tag) && api::cas_in(tag) == cas
        && tag.len() == 16
}

/// Whether a request carries a document as it is, as JSON.
pub open spec fn stores(q: RequestView, document: Seq<u8>) -> bool {
    &&& q.body == Some(document)
    &&& sends(q, "content-type"@, "application/json"@)
    &&& declares_length(q)
}

proof fn lemma_values_joined(
    a: Seq<(Seq<char>, Seq<u8>)>,
    b: Seq<(Seq<char>, Seq<u8>)>,
    name: Seq<char>,
)
    ensures
        values(a + b, name) == values(a, name) + values(b, name),
    decreases b.len(),
{
    if b.len() == 0 {
        assert(a + b =~= a);
        assert(values(a, name) + values(b, name) =~= values(a, name));
    } else {
        assert((a + b).drop_last() =~= a + b.drop_last());
        lemma_values_joined(a, b.drop_last(), name);
        assert(values(a + b, name) =~= values(a, name) + values(b, name));
    }
}

/// What one field adds under a name.
spec fn one(field_name: Seq<char>, value: Seq<char>, name: Seq<char>) -> Seq<Seq<u8>> {
    if field_name == name {
        seq![encode_utf8(value)]
    } else {
        seq![]
    }
}

/// What a field that may be left out adds under a name.
spec fn some(field_name: Seq<char>, value: Option<Seq<char>>, name: Seq<char>) -> Seq<Seq<u8>> {
    match value {
        Some(v) => one(field_name, v, name),
        None => seq![],
    }
}

proof fn lemma_values_single(f: (Seq<char>, Seq<u8>), name: Seq<char>)
    ensures
        values(seq![f], name) == (if f.0 == name {
            seq![f.1]
        } else {
            Seq::<Seq<u8>>::empty()
        }),
{
    assert(seq![f].drop_last() =~= Seq::<(Seq<char>, Seq<u8>)>::empty());
    assert(values(Seq::<(Seq<char>, Seq<u8>)>::empty(), name) =~= Seq::<Seq<u8>>::empty());
    assert(Seq::<Seq<u8>>::empty().push(f.1) =~= seq![f.1]);
}

proof fn lemma_request_values(
    b: BindingView,
    method: Method,
    path: Seq<char>,
    extra: Seq<(Seq<char>, Seq<char>)>,
    body: Option<Seq<u8>>,
    name: Seq<char>,
)
    ensures
        values(plugin::request_of(b, method, path, extra, body).headers, name) == one(
            "authorization"@,
            b.authorization,
            name,
        ) + one("accept"@, "application/json"@, name) + values(plugin::as_fields(extra), name)
            + one("content-length"@, number::decimal(plugin::length(body)), name),
{
    let a = http::field("authorization"@, b.authorization);
    let c = http::field("accept"@, "application/json"@);
    let l = http::field("content-length"@, number::decimal(plugin::length(body)));
    let f = plugin::as_fields(extra);
    assert(seq![a, c] =~= seq![a] + seq![c]);
    lemma_values_single(a, name);
    lemma_values_single(c, name);
    lemma_values_single(l, name);
    lemma_values_joined(seq![a], seq![c], name);
    lemma_values_joined(seq![a, c], f, name);
    lemma_values_joined(seq![a, c] + f, seq![l], name);
}

proof fn lemma_entry_values(
    headers: Seq<(Seq<char>, Seq<char>)>,
    field_name: Seq<char>,
    value: Option<Seq<char>>,
    name: Seq<char>,
)
    ensures
        values(plugin::as_fields(plugin::with_entry(headers, field_name, value)), name) == values(
            plugin::as_fields(headers),
            name,
        ) + some(field_name, value, name),
{
    let f = plugin::as_fields(headers);
    match value {
        Some(v) => {
            let g = http::field(field_name, v);
            assert(plugin::as_fields(headers.push((field_name, v))) =~= f + seq![g]);
            lemma_values_single(g, name);
            lemma_values_joined(f, seq![g], name);
        },
        None => {
            assert(values(f, name) + Seq::<Seq<u8>>::empty() =~= values(f, name));
        },
    }
}

proof fn lemma_option_values(
    front: Seq<(Seq<char>, Seq<char>)>,
    cas: u64,
    expires_in_ns: u64,
    level: DurabilityLevel,
    flags: Option<u32>,
    name: Seq<char>,
)
    ensures
        values(
            plugin::as_fields(plugin::option_headers(front, cas, expires_in_ns, level, flags)),
            name,
        ) == values(plugin::as_fields(front), name) + some(
            "x-cb-flags"@,
            plugin::flags_text(flags),
            name,
        ) + some("if-match"@, plugin::if_match(cas), name) + some(
            "expires"@,
            plugin::expires_text(expires_in_ns),
            name,
        ) + some("x-cb-durabilitylevel"@, plugin::durability_of(level), name),
{
    let h1 = plugin::with_entry(front, "x-cb-flags"@, plugin::flags_text(flags));
    let h2 = plugin::with_entry(h1, "if-match"@, plugin::if_match(cas));
    let h3 = plugin::with_entry(h2, "expires"@, plugin::expires_text(expires_in_ns));
    lemma_entry_values(front, "x-cb-flags"@, plugin::flags_text(flags), name);
    lemma_entry_values(h1, "if-match"@, plugin::if_match(cas), name);
    lemma_entry_values(h2, "expires"@, plugin::expires_text(expires_in_ns), name);
    lemma_entry_values(h3, "x-cb-durabilitylevel"@, plugin::durability_of(level), name);
}

proof fn lemma_front_values(name: Seq<char>)
    ensures
        values(plugin::as_fields(plugin::json_type()), name) == one(
            "content-type"@,
            "application/json"@,
            name,
        ),
        values(plugin::as_fields(Seq::<(Seq<char>, Seq<char>)>::empty()), name) == Seq::<
            Seq<u8>,
        >::empty(),
{
    let f = http::field("content-type"@, "application/json"@);
    assert(plugin::as_fields(plugin::json_type()) =~= seq![f]);
    lemma_values_single(f, name);
    assert(plugin::as_fields(Seq::<(Seq<char>, Seq<char>)>::empty()) =~= Seq::<
        (Seq<char>, Seq<u8>),
    >::empty());
}

/// The lengths of the field names, which are all different.
proof fn lemma_names_differ()
    ensures
        "authorization"@.len() == 13,
        "accept"@.len() == 6,
        "content-type"@.len() == 12,
        "content-length"@.len() == 14,
        "x-cb-flags"@.len() == 10,
        "if-match"@.len() == 8,
        "expires"@.len() == 7,
        "x-cb-durabilitylevel"@.len() == 20,
{
    reveal_strlit("authorization");
    reveal_strlit("accept");
    reveal_strlit("content-type");
    reveal_strlit("content-length");
    reveal_strlit("x-cb-flags");
    reveal_strlit("if-match");
    reveal_strlit("expires");
    reveal_strlit("x-cb-durabilitylevel");
}

/// Whether a request goes where the binding says, within the time that the
/// caller gives it, and stores with the time to live, the durability and the
/// flags that the caller asks for.
pub open spec fn as_asked(
    q: RequestView,
    b: BindingView,
    asked_ns: Option<u64>,
    expires_in_ns: u64,
    level: DurabilityLevel,
    flags: Option<u32>,
) -> bool {
    &&& goes_to(q, b)
    &&& declares_length(q)
    &&& limited_by(q, b.timeout_ms, asked_ns)
    &&& expires_after(q, expires_in_ns)
    &&& durable_by(q, level)
    &&& flagged(q, flags)
}

proof fn lemma_limit(b: BindingView, asked_ns: Option<u64>, q: RequestView)
    requires
        q.timeout_ns == Some(http::nanoseconds(plugin::limited(b, asked_ns).timeout_ms)),
    ensures
        limited_by(q, b.timeout_ms, asked_ns),
{
    if let Some(ns) = asked_ns {
        if ns > 0 {
            number::lemma_rounding_keeps_a_limit(ns, 1_000_000);
        }
    }
}

proof fn lemma_expiry(q: RequestView, ns: u64)
    requires
        values(q.headers, "expires"@) == some("expires"@, plugin::expires_text(ns), "expires"@),
    ensures
        expires_after(q, ns),
{
    if ns > 0 {
        number::lemma_rounding_keeps_a_limit(ns, 1_000_000_000);
        let s = number::at_most(number::ceil_div(ns as nat, 1_000_000_000), u32::MAX as nat);
        assert(sends(q, "expires"@, number::decimal(s) + "s"@));
    }
}

proof fn lemma_condition(q: RequestView, cas: u64)
    requires
        cas != 0,
        sends(q, "if-match"@, number::hex_padded(cas as nat, 16)),
    ensures
        on_cas(q, cas),
{
    let tag = number::hex_padded(cas as nat, 16);
    api::lemma_cas_round_trip(cas);
    api::lemma_cas_is_fixed_hex(cas);
    assert(sends(q, "if-match"@, tag));
}

/// What a request made of options says, whatever is in front of them and
/// whatever `If-Match` stands behind them.
proof fn lemma_as_asked(
    b: BindingView,
    asked_ns: Option<u64>,
    method: Method,
    path: Seq<char>,
    typed: bool,
    cas: u64,
    expires_in_ns: u64,
    level: DurabilityLevel,
    flags: Option<u32>,
    starred: bool,
    body: Option<Seq<u8>>,
) -> (q: RequestView)
    requires
        starred ==> cas == 0,
    ensures
        q == plugin::request_of(
            plugin::limited(b, asked_ns),
            method,
            path,
            plugin::with_entry(
                plugin::option_headers(
                    if typed {
                        plugin::json_type()
                    } else {
                        seq![]
                    },
                    cas,
                    expires_in_ns,
                    level,
                    flags,
                ),
                "if-match"@,
                if starred {
                    Some("*"@)
                } else {
                    None
                },
            ),
            body,
        ),
        as_asked(q, b, asked_ns, expires_in_ns, level, flags),
        typed ==> sends(q, "content-type"@, "application/json"@),
        !typed ==> omits(q, "content-type"@),
        cas != 0 ==> on_cas(q, cas),
        cas == 0 && !starred ==> omits(q, "if-match"@),
        starred ==> sends(q, "if-match"@, "*"@),
{
    let front = if typed {
        plugin::json_type()
    } else {
        Seq::<(Seq<char>, Seq<char>)>::empty()
    };
    let star = if starred {
        Some("*"@)
    } else {
        None
    };
    let inner = plugin::option_headers(front, cas, expires_in_ns, level, flags);
    let extra = plugin::with_entry(inner, "if-match"@, star);
    let own = plugin::limited(b, asked_ns);
    let q = plugin::request_of(own, method, path, extra, body);
    lemma_names_differ();
    assert forall|name: Seq<char>| #[trigger] values(q.headers, name) == one(
        "authorization"@,
        b.authorization,
        name,
    ) + one("accept"@, "application/json"@, name) + ((if typed {
        one("content-type"@, "application/json"@, name)
    } else {
        Seq::<Seq<u8>>::empty()
    }) + some("x-cb-flags"@, plugin::flags_text(flags), name) + some(
        "if-match"@,
        plugin::if_match(cas),
        name,
    ) + some("expires"@, plugin::expires_text(expires_in_ns), name) + some(
        "x-cb-durabilitylevel"@,
        plugin::durability_of(level),
        name,
    ) + some("if-match"@, star, name)) + one(
        "content-length"@,
        number::decimal(plugin::length(body)),
        name,
    ) by {
        lemma_request_values(own, method, path, extra, body, name);
        lemma_entry_values(inner, "if-match"@, star, name);
        lemma_option_values(front, cas, expires_in_ns, level, flags, name);
        lemma_front_values(name);
    }
    assert(sends(q, "authorization"@, b.authorization));
    assert(sends(q, "accept"@, "application/json"@));
    assert(declares_length(q)) by {
        assert(values(q.headers, "content-length"@) =~= seq![
            encode_utf8(number::decimal(plugin::length(body))),
        ]);
    }
    assert(values(q.headers, "expires"@) =~= some(
        "expires"@,
        plugin::expires_text(expires_in_ns),
        "expires"@,
    ));
    lemma_expiry(q, expires_in_ns);
    lemma_limit(b, asked_ns, q);
    assert(values(q.headers, "x-cb-durabilitylevel"@) =~= some(
        "x-cb-durabilitylevel"@,
        plugin::durability_of(level),
        "x-cb-durabilitylevel"@,
    ));
    assert(durable_by(q, level));
    assert(values(q.headers, "x-cb-flags"@) =~= some(
        "x-cb-flags"@,
        plugin::flags_text(flags),
        "x-cb-flags"@,
    ));
    assert(values(q.headers, "if-match"@) =~= some("if-match"@, plugin::if_match(cas), "if-match"@)
        + some("if-match"@, star, "if-match"@));
    if typed {
        assert(values(q.headers, "content-type"@) =~= seq![encode_utf8("application/json"@)]);
    } else {
        assert(values(q.headers, "content-type"@) =~= Seq::<Seq<u8>>::empty());
    }
    if cas != 0 {
        assert(values(q.headers, "if-match"@) =~= seq![
            encode_utf8(number::hex_padded(cas as nat, 16)),
        ]);
        lemma_condition(q, cas);
    } else if starred {
        assert(values(q.headers, "if-match"@) =~= seq![encode_utf8("*"@)]);
    } else {
        assert(values(q.headers, "if-match"@) =~= Seq::<Seq<u8>>::empty());
    }
    q
}

/// Whether a path is that of a document in the binding's own bucket, scope and
/// collection.
pub open spec fn names_document(path: Seq<char>, b: BindingView, id: Seq<char>) -> bool {
    path == b.base_path + "/v1/buckets/"@ + api::escaped(encode_utf8(b.bucket)) + "/scopes/"@
        + api::escaped(encode_utf8(b.scope)) + "/collections/"@ + api::escaped(
        encode_utf8(b.collection),
    ) + "/documents/"@ + api::escaped(encode_utf8(id))
}

/// An insert is a `POST` of the document, which fails where one is stored
/// already. It is conditional on nothing else, and its options are all honoured.
pub proof fn lemma_insert_creates(
    caller: Option<ErrorView>,
    b: BindingView,
    id: Seq<char>,
    document: Seq<u8>,
    options: Option<DocumentInsertOptions>,
)
    ensures
        plugin::insert_of(caller, b, id, document, options) is Ok <==> caller is None && (
        options matches Some(o) ==> o.persist_to == 0 && o.replicate_to == 0),
        plugin::insert_of(caller, b, id, document, options) matches Ok(q) ==> {
            &&& q.method == Method::Post
            &&& names_document(q.path, b, id)
            &&& stores(q, document)
            &&& omits(q, "if-match"@)
            &&& match options {
                Some(o) => as_asked(
                    q,
                    b,
                    o.timeout_ns,
                    o.expires_in_ns,
                    o.durability_level,
                    o.flags,
                ),
                None => as_asked(q, b, None, 0, DurabilityLevel::Unknown, None),
            }
        },
{
    match options {
        Some(o) => {
            let q = lemma_as_asked(
                b,
                o.timeout_ns,
                Method::Post,
                plugin::document_path_of(b, id),
                true,
                0,
                o.expires_in_ns,
                o.durability_level,
                o.flags,
                false,
                Some(document),
            );
        },
        None => {
            let q = lemma_as_asked(
                b,
                None,
                Method::Post,
                plugin::document_path_of(b, id),
                true,
                0,
                0,
                DurabilityLevel::Unknown,
                None,
                false,
                Some(document),
            );
            assert(plugin::limited(b, None) == b);
        },
    }
}

/// An upsert is a `PUT` of the document, which replaces whatever is stored. It
/// is conditional on nothing, and its options are all honoured or refused.
pub proof fn lemma_upsert_overwrites(
    caller: Option<ErrorView>,
    b: BindingView,
    id: Seq<char>,
    document: Seq<u8>,
    options: Option<DocumentUpsertOptions>,
)
    ensures
        plugin::upsert_of(caller, b, id, document, options) is Ok <==> caller is None && (
        options matches Some(o) ==> !o.preserve_expiry && o.persist_to == 0 && o.replicate_to
            == 0),
        plugin::upsert_of(caller, b, id, document, options) matches Ok(q) ==> {
            &&& q.method == Method::Put
            &&& names_document(q.path, b, id)
            &&& stores(q, document)
            &&& omits(q, "if-match"@)
            &&& match options {
                Some(o) => as_asked(
                    q,
                    b,
                    o.timeout_ns,
                    o.expires_in_ns,
                    o.durability_level,
                    o.flags,
                ),
                None => as_asked(q, b, None, 0, DurabilityLevel::Unknown, None),
            }
        },
{
    match options {
        Some(o) => {
            let q = lemma_as_asked(
                b,
                o.timeout_ns,
                Method::Put,
                plugin::document_path_of(b, id),
                true,
                0,
                o.expires_in_ns,
                o.durability_level,
                o.flags,
                false,
                Some(document),
            );
        },
        None => {
            let q = lemma_as_asked(
                b,
                None,
                Method::Put,
                plugin::document_path_of(b, id),
                true,
                0,
                0,
                DurabilityLevel::Unknown,
                None,
                false,
                Some(document),
            );
            assert(plugin::limited(b, None) == b);
        },
    }
}

/// A replace is a `PUT` of the document on a condition: on the caller's CAS, or,
/// without one, on a document being there at all.
pub proof fn lemma_replace_needs_the_document(
    caller: Option<ErrorView>,
    b: BindingView,
    id: Seq<char>,
    document: Seq<u8>,
    options: Option<DocumentReplaceOptions>,
)
    ensures
        plugin::replace_of(caller, b, id, document, options) is Ok <==> caller is None && (
        options matches Some(o) ==> !o.preserve_expiry && o.persist_to == 0 && o.replicate_to
            == 0),
        plugin::replace_of(caller, b, id, document, options) matches Ok(q) ==> {
            &&& q.method == Method::Put
            &&& names_document(q.path, b, id)
            &&& stores(q, document)
            &&& match options {
                Some(o) => {
                    &&& as_asked(
                        q,
                        b,
                        o.timeout_ns,
                        o.expires_in_ns,
                        o.durability_level,
                        o.flags,
                    )
                    &&& o.cas != 0 ==> on_cas(q, o.cas)
                    &&& o.cas == 0 ==> sends(q, "if-match"@, "*"@)
                },
                None => {
                    &&& as_asked(q, b, None, 0, DurabilityLevel::Unknown, None)
                    &&& sends(q, "if-match"@, "*"@)
                },
            }
        },
{
    match options {
        Some(o) => {
            let q = lemma_as_asked(
                b,
                o.timeout_ns,
                Method::Put,
                plugin::document_path_of(b, id),
                true,
                o.cas,
                o.expires_in_ns,
                o.durability_level,
                o.flags,
                o.cas == 0,
                Some(document),
            );
        },
        None => {
            let q = lemma_as_asked(
                b,
                None,
                Method::Put,
                plugin::document_path_of(b, id),
                true,
                0,
                0,
                DurabilityLevel::Unknown,
                None,
                true,
                Some(document),
            );
            assert(plugin::limited(b, None) == b);
        },
    }
}

/// A remove is a `DELETE` without a body, on exactly the caller's CAS where there
/// is one and on nothing where there is none.
pub proof fn lemma_remove_deletes(
    caller: Option<ErrorView>,
    b: BindingView,
    id: Seq<char>,
    options: Option<DocumentRemoveOptions>,
)
    ensures
        plugin::remove_of(caller, b, id, options) is Ok <==> caller is None && (options matches Some(
            o,
        ) ==> o.persist_to == 0 && o.replicate_to == 0),
        plugin::remove_of(caller, b, id, options) matches Ok(q) ==> {
            &&& q.method == Method::Delete
            &&& names_document(q.path, b, id)
            &&& q.body is None
            &&& omits(q, "content-type"@)
            &&& match options {
                Some(o) => {
                    &&& as_asked(q, b, o.timeout_ns, 0, o.durability_level, None)
                    &&& o.cas != 0 ==> on_cas(q, o.cas)
                    &&& o.cas == 0 ==> omits(q, "if-match"@)
                },
                None => {
                    &&& as_asked(q, b, None, 0, DurabilityLevel::Unknown, None)
                    &&& omits(q, "if-match"@)
                },
            }
        },
{
    match options {
        Some(o) => {
            let q = lemma_as_asked(
                b,
                o.timeout_ns,
                Method::Delete,
                plugin::document_path_of(b, id),
                false,
                o.cas,
                0,
                o.durability_level,
                None,
                false,
                None,
            );
        },
        None => {
            let q = lemma_as_asked(
                b,
                None,
                Method::Delete,
                plugin::document_path_of(b, id),
                false,
                0,
                0,
                DurabilityLevel::Unknown,
                None,
                false,
                None,
            );
            assert(plugin::limited(b, None) == b);
        },
    }
}

/// The requests of the four ways to change a document always differ.
pub proof fn lemma_changes_differ(
    b: BindingView,
    id: Seq<char>,
    document: Seq<u8>,
    insert: Option<DocumentInsertOptions>,
    upsert: Option<DocumentUpsertOptions>,
    replace: Option<DocumentReplaceOptions>,
    remove: Option<DocumentRemoveOptions>,
)
    ensures
        plugin::insert_of(None, b, id, document, insert) matches Ok(i) ==> plugin::upsert_of(
            None,
            b,
            id,
            document,
            upsert,
        ) != Ok::<RequestView, ErrorView>(i) && plugin::replace_of(
            None,
            b,
            id,
            document,
            replace,
        ) != Ok::<RequestView, ErrorView>(i) && plugin::remove_of(None, b, id, remove) != Ok::<
            RequestView,
            ErrorView,
        >(i),
        plugin::replace_of(None, b, id, document, replace) matches Ok(r) ==> plugin::upsert_of(
            None,
            b,
            id,
            document,
            upsert,
        ) != Ok::<RequestView, ErrorView>(r) && plugin::remove_of(None, b, id, remove) != Ok::<
            RequestView,
            ErrorView,
        >(r),
        plugin::upsert_of(None, b, id, document, upsert) matches Ok(u) ==> plugin::remove_of(
            None,
            b,
            id,
            remove,
        ) != Ok::<RequestView, ErrorView>(u),
{
    lemma_insert_creates(None, b, id, document, insert);
    lemma_upsert_overwrites(None, b, id, document, upsert);
    lemma_replace_needs_the_document(None, b, id, document, replace);
    lemma_remove_deletes(None, b, id, remove);
    assert forall|q: RequestView, tag: Seq<char>| #[trigger] sends(q, "if-match"@, tag) implies !omits(
        q,
        "if-match"@,
    ) by {
        assert(values(q.headers, "if-match"@).len() == 1);
    }
}

proof fn lemma_split_back(a: Seq<char>, b: Seq<char>, q: char)
    requires
        !b.contains(q),
    ensures
        text::split(a + seq![q] + b, q) == text::split(a, q).push(b),
    decreases b.len(),
{
    let s = a + seq![q] + b;
    if b.len() == 0 {
        assert(s.drop_last() =~= a);
        assert(b =~= Seq::<char>::empty());
    } else {
        let front = b.drop_last();
        assert(!front.contains(q)) by {
            if front.contains(q) {
                let k = choose|k: int| 0 <= k < front.len() && front[k] == q;
                assert(b[k] == q);
            }
        }
        assert(b.contains(b.last()));
        lemma_split_back(a, front, q);
        assert(s.drop_last() =~= a + seq![q] + front);
        let parts = text::split(a, q).push(front);
        assert(parts.drop_last() =~= text::split(a, q));
        assert(front.push(b.last()) =~= b);
    }
}

proof fn lemma_fields_are_listed(names: Seq<Seq<char>>)
    requires
        names.len() > 0,
    ensures
        text::split(plugin::field_list(names), ',') == Seq::new(
            names.len(),
            |i: int| api::escaped(encode_utf8(names[i])),
        ),
    decreases names.len(),
{
    let want = Seq::new(names.len(), |i: int| api::escaped(encode_utf8(names[i])));
    let last = api::escaped(encode_utf8(names.last()));
    api::lemma_segment_is_exact(names.last(), names.last());
    assert(!last.contains(','));
    if names.len() == 1 {
        text::lemma_split_single(last, ',');
        assert(want =~= seq![last]);
    } else {
        let front = names.drop_last();
        lemma_fields_are_listed(front);
        reveal_strlit(",");
        assert(","@ =~= seq![',']);
        lemma_split_back(plugin::field_list(front), last, ',');
        assert(want =~= Seq::new(
            front.len(),
            |i: int| api::escaped(encode_utf8(front[i])),
        ).push(last));
    }
}

/// A get is a `GET` of the document, or of exactly the fields that are named,
/// one after the other behind `?project=`. It changes nothing and carries
/// nothing. A replica read is refused.
pub proof fn lemma_get_reads(
    caller: Option<ErrorView>,
    b: BindingView,
    id: Seq<char>,
    options: Option<DocumentGetOptions>,
)
    ensures
        plugin::get_of(caller, b, id, options) is Ok <==> caller is None && (options matches Some(o)
            ==> o.use_replica != Some(ReplicaReadLevel::On)),
        plugin::get_of(caller, b, id, options) matches Ok(q) ==> {
            &&& q.method == Method::Get
            &&& q.body is None
            &&& goes_to(q, b)
            &&& declares_length(q)
            &&& omits(q, "if-match"@)
            &&& limited_by(
                q,
                b.timeout_ms,
                match options {
                    Some(o) => o.timeout_ns,
                    None => None,
                },
            )
            &&& match options {
                Some(DocumentGetOptions { project: Some(names), .. }) => if names@.len() > 0 {
                    exists|path: Seq<char>, fields: Seq<char>|
                        {
                            &&& #[trigger] names_document(path, b, id)
                            &&& q.path == #[trigger] (path + "?project="@ + fields)
                            &&& text::split(fields, ',') == Seq::new(
                                names@.len(),
                                |i: int| api::escaped(encode_utf8(names@[i]@)),
                            )
                        }
                } else {
                    names_document(q.path, b, id)
                },
                _ => names_document(q.path, b, id),
            }
        },
{
    let asked = match options {
        Some(o) => o.timeout_ns,
        None => None,
    };
    let own = plugin::limited(b, asked);
    if let Ok(q) = plugin::get_of(caller, b, id, options) {
        assert(plugin::limited(b, None) == b);
        lemma_names_differ();
        let none = Seq::<(Seq<char>, Seq<char>)>::empty();
        assert(q == plugin::request_of(own, Method::Get, q.path, none, None));
        assert forall|name: Seq<char>| #[trigger] values(q.headers, name) == one(
            "authorization"@,
            b.authorization,
            name,
        ) + one("accept"@, "application/json"@, name) + one(
            "content-length"@,
            number::decimal(0),
            name,
        ) by {
            lemma_request_values(own, Method::Get, q.path, none, None, name);
            lemma_front_values(name);
            let front = one("authorization"@, b.authorization, name) + one(
                "accept"@,
                "application/json"@,
                name,
            );
            assert(front + Seq::<Seq<u8>>::empty() =~= front);
        }
        assert(values(q.headers, "authorization"@) =~= seq![encode_utf8(b.authorization)]);
        assert(values(q.headers, "accept"@) =~= seq![encode_utf8("application/json"@)]);
        assert(values(q.headers, "content-length"@) =~= seq![encode_utf8(number::decimal(0))]);
        assert(values(q.headers, "if-match"@) =~= Seq::<Seq<u8>>::empty());
        lemma_limit(b, asked, q);
        if let Some(o) = options {
            if let Some(names) = o.project {
                if names@.len() > 0 {
                    let path = plugin::document_path_of(b, id);
                    let fields = plugin::field_list(text::texts(names@));
                    lemma_fields_are_listed(text::texts(names@));
                    assert(Seq::new(
                        names@.len(),
                        |i: int| api::escaped(encode_utf8(text::texts(names@)[i])),
                    ) =~= Seq::new(
                        names@.len(),
                        |i: int| api::escaped(encode_utf8(names@[i]@)),
                    ));
                    assert(names_document(path, b, id));
                    assert(q.path == path + "?project="@ + fields);
                }
            }
        }
    }
}

/// Whether a request tells the touch endpoint of a document to let it live for
/// `ns` nanoseconds from `now` on, rounded up to a second, and whether to send
/// the document back.
pub open spec fn touches(
    q: RequestView,
    b: BindingView,
    id: Seq<char>,
    ns: u64,
    now: i64,
    send_back: bool,
) -> bool {
    &&& q.method == Method::Post
    &&& exists|path: Seq<char>| #[trigger]
        names_document(path, b, id) && q.path == path + "/touch"@
    &&& goes_to(q, b)
    &&& declares_length(q)
    &&& sends(q, "content-type"@, "application/json"@)
    &&& exists|at: int, m: Map<Seq<char>, Tree>|
        {
            &&& #[trigger] tells(m, at, send_back)
            &&& q.body == Some(encode_utf8(json::json_text(Tree::Object(m))))
            &&& at == i64::MAX || ((at - now) * 1_000_000_000 >= ns && (at - now - 1)
                * 1_000_000_000 < ns)
            &&& at == i64::MAX ==> (i64::MAX - now - 1) * 1_000_000_000 < ns
        }
}

/// Whether the members of a touch say when the document expires, and whether to
/// send it back, and nothing else.
pub open spec fn tells(m: Map<Seq<char>, Tree>, at: int, send_back: bool) -> bool {
    &&& forall|k: Seq<char>| #[trigger]
        m.contains_key(k) <==> k == "expiry"@ || k == "returnContent"@
    &&& m["expiry"@] == Tree::Text(timefmt::iso8601(at))
    &&& m["returnContent"@] == Tree::Bool(send_back)
}

proof fn lemma_touches(
    b: BindingView,
    id: Seq<char>,
    ns: u64,
    asked_ns: Option<u64>,
    send_back: bool,
    now: i64,
)
    requires
        ns > 0,
    ensures
        plugin::touch_of(None, b, id, ns, asked_ns, send_back, now) matches Ok(q) && touches(
            q,
            b,
            id,
            ns,
            now,
            send_back,
        ) && limited_by(q, b.timeout_ms, asked_ns),
{
    let q = plugin::touch_of(None, b, id, ns, asked_ns, send_back, now)->Ok_0;
    let own = plugin::limited(b, asked_ns);
    let path = plugin::document_path_of(b, id);
    let s = number::ceil_div(ns as nat, 1_000_000_000);
    let at = plugin::later(now, s);
    let m = Map::<Seq<char>, Tree>::empty().insert(
        "expiry"@,
        Tree::Text(timefmt::iso8601(at)),
    ).insert("returnContent"@, Tree::Bool(send_back));
    let body = encode_utf8(json::json_text(Tree::Object(m)));
    number::lemma_rounding_keeps_a_limit(ns, 1_000_000_000);
    reveal_strlit("expiry");
    reveal_strlit("returnContent");
    assert("expiry"@.len() == 6 && "returnContent"@.len() == 13);
    assert(tells(m, at, send_back));
    assert(names_document(path, b, id));
    lemma_names_differ();
    assert(q == plugin::request_of(
        own,
        Method::Post,
        path + "/touch"@,
        plugin::json_type(),
        Some(body),
    ));
    assert forall|name: Seq<char>| #[trigger] values(q.headers, name) == one(
        "authorization"@,
        b.authorization,
        name,
    ) + one("accept"@, "application/json"@, name) + one(
        "content-type"@,
        "application/json"@,
        name,
    ) + one("content-length"@, number::decimal(body.len()), name) by {
        lemma_request_values(
            own,
            Method::Post,
            path + "/touch"@,
            plugin::json_type(),
            Some(body),
            name,
        );
        lemma_front_values(name);
    }
    assert(values(q.headers, "authorization"@) =~= seq![encode_utf8(b.authorization)]);
    assert(values(q.headers, "accept"@) =~= seq![encode_utf8("application/json"@)]);
    assert(values(q.headers, "content-type"@) =~= seq![encode_utf8("application/json"@)]);
    assert(values(q.headers, "content-length"@) =~= seq![encode_utf8(number::decimal(body.len()))]);
    lemma_limit(b, asked_ns, q);
}

/// A touch needs a time to live, tells the document's touch endpoint of it, and
/// does not ask for the document.
pub proof fn lemma_touch_resets_the_expiry(
    caller: Option<ErrorView>,
    b: BindingView,
    id: Seq<char>,
    options: Option<DocumentTouchOptions>,
    now: i64,
)
    ensures
        plugin::touch_only_of(caller, b, id, options, now) is Ok <==> caller is None && (
        options matches Some(o) && o.expires_in > 0),
        plugin::touch_only_of(caller, b, id, options, now) matches Ok(q) ==> touches(
            q,
            b,
            id,
            options->0.expires_in,
            now,
            false,
        ) && limited_by(q, b.timeout_ms, options->0.timeout_ns),
{
    if let Some(o) = options {
        if o.expires_in > 0 {
            lemma_touches(b, id, o.expires_in, o.timeout_ns, false, now);
        }
    }
}

/// A get-and-touch needs a time to live, tells the document's touch endpoint of
/// it, and asks for the document in the same round-trip.
pub proof fn lemma_get_and_touch_asks_for_the_document(
    caller: Option<ErrorView>,
    b: BindingView,
    id: Seq<char>,
    options: Option<DocumentGetAndTouchOptions>,
    now: i64,
)
    ensures
        plugin::get_and_touch_of(caller, b, id, options, now) is Ok <==> caller is None && (
        options matches Some(o) && o.expires_in > 0),
        plugin::get_and_touch_of(caller, b, id, options, now) matches Ok(q) ==> touches(
            q,
            b,
            id,
            options->0.expires_in,
            now,
            true,
        ) && limited_by(q, b.timeout_ms, options->0.timeout_ns),
{
    if let Some(o) = options {
        if o.expires_in > 0 {
            lemma_touches(b, id, o.expires_in, o.timeout_ns, true, now);
        }
    }
}

/// Two requests share a path only when they are for one document of one bucket,
/// scope and collection.
pub proof fn lemma_path_tells_the_document(
    a: BindingView,
    x: Seq<char>,
    b: BindingView,
    y: Seq<char>,
)
    requires
        a.base_path == b.base_path,
        plugin::document_path_of(a, x) == plugin::document_path_of(b, y),
    ensures
        a.bucket == b.bucket,
        a.scope == b.scope,
        a.collection == b.collection,
        x == y,
{
    reveal_strlit("/v1/buckets/");
    reveal_strlit("/scopes/");
    reveal_strlit("/collections/");
    reveal_strlit("/documents/");
    let slash = seq!['/'];
    let (ab, bb) = (api::escaped(encode_utf8(a.bucket)), api::escaped(encode_utf8(b.bucket)));
    let (asc, bsc) = (api::escaped(encode_utf8(a.scope)), api::escaped(encode_utf8(b.scope)));
    let (ac, bc) = (
        api::escaped(encode_utf8(a.collection)),
        api::escaped(encode_utf8(b.collection)),
    );
    let (ax, by) = (api::escaped(encode_utf8(x)), api::escaped(encode_utf8(y)));
    api::lemma_segment_is_exact(a.bucket, b.bucket);
    api::lemma_segment_is_exact(b.bucket, a.bucket);
    api::lemma_segment_is_exact(a.scope, b.scope);
    api::lemma_segment_is_exact(b.scope, a.scope);
    api::lemma_segment_is_exact(a.collection, b.collection);
    api::lemma_segment_is_exact(b.collection, a.collection);
    api::lemma_segment_is_exact(x, y);
    assert(!ab.contains('/') && !bb.contains('/') && !asc.contains('/') && !bsc.contains('/')
        && !ac.contains('/') && !bc.contains('/'));
    let documents = "/documents/"@.skip(1);
    let collections = "/collections/"@.skip(1);
    let scopes = "/scopes/"@.skip(1);
    let a3 = documents + ax;
    let b3 = documents + by;
    let a2 = collections + ac + slash + a3;
    let b2 = collections + bc + slash + b3;
    let a1 = scopes + asc + slash + a2;
    let b1 = scopes + bsc + slash + b2;
    let n = a.base_path.len() + 12;
    assert(plugin::document_path_of(a, x).skip(n as int) =~= ab + slash + a1);
    assert(plugin::document_path_of(b, y).skip(n as int) =~= bb + slash + b1);
    text::lemma_cut_unique(ab, a1, bb, b1, '/');
    let s = scopes.len() as int;
    assert(a1.skip(s) =~= asc + slash + a2);
    assert(b1.skip(s) =~= bsc + slash + b2);
    text::lemma_cut_unique(asc, a2, bsc, b2, '/');
    let c = collections.len() as int;
    assert(a2.skip(c) =~= ac + slash + a3);
    assert(b2.skip(c) =~= bc + slash + b3);
    text::lemma_cut_unique(ac, a3, bc, b3, '/');
    let d = documents.len() as int;
    assert(a3.skip(d) =~= ax);
    assert(b3.skip(d) =~= by);
}

/// What every successful reply reports of the document: its CAS and its flags,
/// as the headers give them, or zero where they give none.
pub open spec fn reports(headers: Seq<(Seq<char>, Seq<u8>)>, cas: u64, flags: u32) -> bool {
    &&& match http::header_of(headers, "etag"@) {
        Some(tag) => cas == api::cas_in(tag),
        None => cas == 0,
    }
    &&& match http::header_of(headers, "x-cb-flags"@) {
        Some(f) => match number::unsigned(f, 10, 4_294_967_295) {
            Some(n) => flags == n,
            None => flags == 0,
        },
        None => flags == 0,
    }
}

/// A read succeeds on every 2xx reply and on no other. It gives the body byte
/// for byte, with the CAS, the flags and the absolute expiry of the headers.
pub proof fn lemma_read_gives_the_document(reply: ReplyView, parsed: BodyView)
    ensures
        plugin::read_of(reply, parsed) is Ok <==> 200 <= reply.status <= 299,
        plugin::read_of(reply, parsed) matches Ok(g) ==> {
            &&& g.document == reply.body
            &&& reports(reply.headers, g.cas, g.flags)
            &&& g.expires_in_ns is None
            &&& match http::header_of(reply.headers, "expires"@) {
                Some(value) => match api::expiry_in(value) {
                    Some(e) => g.expires_at == Some(
                        Time {
                            offset: 0,
                            year: e.year,
                            month: e.month,
                            day: e.day,
                            hour: e.hour,
                            minute: e.minute,
                            second: e.second,
                            milliseconds: 0,
                            nanoseconds: 0,
                        },
                    ),
                    None => g.expires_at is None,
                },
                None => g.expires_at is None,
            }
        },
        plugin::read_of(reply, parsed) matches Err(e) ==> e == plugin::document_error(
            api::failure_of(reply.status, reply.body, parsed),
        ),
{
}

/// A get-and-touch succeeds on every 2xx reply and on no other. It gives the
/// same document, CAS and flags as a plain read of the reply, and the time to
/// live that was set.
pub proof fn lemma_touched_gives_the_document(reply: ReplyView, expires_in: u64, parsed: BodyView)
    ensures
        plugin::touched_of(reply, expires_in, parsed) is Ok <==> 200 <= reply.status <= 299,
        plugin::touched_of(reply, expires_in, parsed) matches Ok(g) ==> {
            &&& g.document == reply.body
            &&& reports(reply.headers, g.cas, g.flags)
            &&& plugin::read_of(reply, parsed) matches Ok(r) && r.document == g.document && r.cas
                == g.cas && r.flags == g.flags
            &&& g.expires_in_ns == Some(expires_in)
            &&& g.expires_at is None
        },
        plugin::touched_of(reply, expires_in, parsed) matches Err(e) ==> plugin::read_of(
            reply,
            parsed,
        ) == Err::<crate::types::GetView, ErrorView>(e),
{
}

/// A write succeeds on every 2xx reply and on no other. It reports the binding's
/// bucket and the CAS of the reply, and, where the reply carries a token in the
/// wire form, exactly the position that the token spells; a reply without a
/// token gives no position.
pub proof fn lemma_write_reports_the_mutation(
    bucket: Seq<char>,
    reply: ReplyView,
    parsed: BodyView,
    p: PartsView,
)
    ensures
        plugin::written_of(bucket, reply, parsed) is Ok <==> 200 <= reply.status <= 299,
        plugin::written_of(bucket, reply, parsed) matches Ok(m) ==> {
            &&& m.bucket == bucket
            &&& match http::header_of(reply.headers, "etag"@) {
                Some(tag) => m.cas == api::cas_in(tag),
                None => m.cas == 0,
            }
            &&& http::header_of(reply.headers, "x-cb-mutationtoken"@) is None ==> m.partition_id
                == 0 && m.partition_uuid == 0 && m.seq == 0 && m.raw_token is None
            &&& (http::header_of(reply.headers, "x-cb-mutationtoken"@) == Some(
                mutation::colon_form(p),
            ) && p.bucket.len() > 0 && !p.bucket.contains(':') && !mutation::is_number(p.bucket)
                && p.bucket[0] != '{' && !text::is_white_space(p.bucket[0])) ==> m.partition_id
                == p.partition_id && m.partition_uuid == p.partition_uuid && m.seq
                == p.sequence_number && m.raw_token is None
        },
        plugin::written_of(bucket, reply, parsed) matches Err(e) ==> e == plugin::document_error(
            api::failure_of(reply.status, reply.body, parsed),
        ),
{
    if p.bucket.len() > 0 && !p.bucket.contains(':') && !mutation::is_number(p.bucket)
        && p.bucket[0] != '{' && !text::is_white_space(p.bucket[0]) {
        mutation::lemma_colon_form_round_trip(p);
    }
}

/// A CAS that a reply gives can be written on: the replace that names it is
/// conditional on what the read reported.
pub proof fn lemma_cas_survives_a_round_trip(
    reply: ReplyView,
    parsed: BodyView,
    b: BindingView,
    id: Seq<char>,
    document: Seq<u8>,
    options: DocumentReplaceOptions,
)
    requires
        plugin::read_of(reply, parsed) matches Ok(g) && options.cas == g.cas && g.cas != 0,
    ensures
        plugin::replace_of(None, b, id, document, Some(options)) matches Ok(q) ==> on_cas(
            q,
            plugin::read_of(reply, parsed)->Ok_0.cas,
        ),
{
    lemma_replace_needs_the_document(None, b, id, document, Some(options));
}

proof fn lemma_member_names()
    ensures
        "statement"@.len() == 9,
        "args"@.len() == 4,
        "query_context"@.len() == 13,
        "scan_consistency"@.len() == 16,
        "readonly"@.len() == 8,
        "metrics"@.len() == 7,
        "client_context_id"@.len() == 17,
        "timeout"@.len() == 7,
        "scan_vector"@.len() == 11,
        "metrics"@ != "timeout"@,
{
    reveal_strlit("statement");
    reveal_strlit("args");
    reveal_strlit("query_context");
    reveal_strlit("scan_consistency");
    reveal_strlit("readonly");
    reveal_strlit("metrics");
    reveal_strlit("client_context_id");
    reveal_strlit("timeout");
    reveal_strlit("scan_vector");
    assert("metrics"@[0] == 'm' && "timeout"@[0] == 't');
}

/// Whether a member is there with this value.
pub open spec fn holds(m: Map<Seq<char>, Tree>, name: Seq<char>, value: Tree) -> bool {
    m.contains_key(name) && m[name] == value
}

/// A query goes out with the statement and the parameters as they are, in the
/// binding's own bucket and scope, at the scan consistency that is asked for or
/// after the writes that are named, with the other options as they are set, and
/// within the caller's time limit or else the binding's.
pub proof fn lemma_query_asks_as_told(
    b: BindingView,
    statement: Seq<char>,
    args: Seq<Tree>,
    options: Option<SqlppQueryOptions>,
)
    ensures
        query::request_members(b, statement, args, options) matches Ok((m, ms)) ==> {
            &&& holds(m, "statement"@, Tree::Text(statement))
            &&& args.len() > 0 ==> holds(m, "args"@, Tree::Array(args))
            &&& args.len() == 0 ==> !m.contains_key("args"@)
            &&& holds(
                m,
                "query_context"@,
                Tree::Text("default:"@ + b.bucket + "."@ + b.scope),
            )
            &&& holds(m, "timeout"@, Tree::Text(number::decimal(ms as nat) + "ms"@))
            &&& match options {
                None => {
                    &&& ms == b.timeout_ms
                    &&& !m.contains_key("scan_consistency"@)
                    &&& !m.contains_key("scan_vector"@)
                    &&& !m.contains_key("readonly"@)
                    &&& !m.contains_key("metrics"@)
                    &&& !m.contains_key("client_context_id"@)
                },
                Some(o) => {
                    &&& o.timeout_ns == 0 ==> ms == b.timeout_ms
                    &&& o.timeout_ns > 0 ==> (ms - 1) * 1_000_000 < o.timeout_ns && (ms
                        * 1_000_000 >= o.timeout_ns || ms == 4_294_967_295)
                    &&& holds(m, "readonly"@, Tree::Bool(o.readonly))
                    &&& holds(m, "metrics"@, Tree::Bool(o.metrics))
                    &&& match o.client_context_id {
                        Some(id) => holds(m, "client_context_id"@, Tree::Text(id@)),
                        None => !m.contains_key("client_context_id"@),
                    }
                    &&& match o.consistent_with {
                        None => {
                            &&& !m.contains_key("scan_vector"@)
                            &&& o.scan_consistency == QueryScanConsistency::RequestPlus
                                <==> holds(m, "scan_consistency"@, Tree::Text("request_plus"@))
                            &&& o.scan_consistency == QueryScanConsistency::NotBounded
                                <==> holds(m, "scan_consistency"@, Tree::Text("not_bounded"@))
                        },
                        Some(state) => {
                            &&& holds(m, "scan_consistency"@, Tree::Text("at_plus"@))
                            &&& holds(
                                m,
                                "scan_vector"@,
                                Tree::Object(
                                    asked::scan_map(
                                        asked::positions(asked::tokens_view(state.tokens@)),
                                    ),
                                ),
                            )
                        },
                    }
                },
            }
        },
{
    lemma_member_names();
    reveal_strlit("request_plus");
    reveal_strlit("not_bounded");
    assert("request_plus"@.len() == 12 && "not_bounded"@.len() == 11);
    if let Some(o) = options {
        if o.timeout_ns > 0 {
            number::lemma_rounding_keeps_a_limit(o.timeout_ns, 1_000_000);
        }
        if let Some(state) = o.consistent_with {
            let tokens = asked::tokens_view(state.tokens@);
            assert(mutation::positions(query::token_forms(tokens)) =~= asked::positions(tokens));
        }
    }
}

/// A query is refused exactly when it names writes that it cannot wait for: none
/// at all, one of another bucket, or one without a uuid.
pub proof fn lemma_query_is_refused(
    b: BindingView,
    statement: Seq<char>,
    args: Seq<Tree>,
    options: Option<SqlppQueryOptions>,
)
    ensures
        query::request_members(b, statement, args, options) is Err <==> (options matches Some(o)
            && (o.consistent_with matches Some(state) && {
            let tokens = asked::tokens_view(state.tokens@);
            ||| tokens.len() == 0
            ||| exists|i: int|
                0 <= i < tokens.len() && ((#[trigger] tokens[i]).partition_uuid == 0 || (
                tokens[i].bucket_name.len() > 0 && tokens[i].bucket_name != b.bucket))
        })),
        query::request_members(b, statement, args, options) matches Err(e) ==> e
            is InvalidArgument,
{
    if let Some(o) = options {
        if let Some(state) = o.consistent_with {
            let tokens = asked::tokens_view(state.tokens@);
            let forms = query::token_forms(tokens);
            asked::lemma_foreign_is_found(tokens, b.bucket);
            if tokens.len() > 0 && asked::foreign(tokens, b.bucket) is None {
                if exists|i: int| 0 <= i < tokens.len() && (#[trigger] tokens[i]).partition_uuid == 0 {
                    let i = choose|i: int|
                        0 <= i < tokens.len() && (#[trigger] tokens[i]).partition_uuid == 0;
                    assert(!mutation::usable(forms[i]));
                } else {
                    assert forall|i: int| 0 <= i < forms.len() implies mutation::usable(
                        #[trigger] forms[i],
                    ) by {
                        assert(tokens[i].partition_uuid != 0);
                    }
                }
            }
        }
    }
}

/// The request of a query is a `POST` of its members to the query service behind
/// the binding's endpoint, and the service's time limit bounds the transport too.
pub proof fn lemma_query_is_posted(
    caller: Option<ErrorView>,
    b: BindingView,
    statement: Seq<char>,
    params: Seq<ValueView>,
    options: Option<SqlppQueryOptions>,
)
    ensures
        query::query_of(caller, b, statement, params, options) is Ok <==> caller is None
            && asked::arguments_of(params) is Ok && query::request_members(
            b,
            statement,
            asked::arguments_of(params)->Ok_0,
            options,
        ) is Ok,
        query::query_of(caller, b, statement, params, options) matches Ok(q) ==> {
            let (m, ms) = query::request_members(
                b,
                statement,
                asked::arguments_of(params)->Ok_0,
                options,
            )->Ok_0;
            &&& q.method == Method::Post
            &&& q.path == b.base_path + "/_p/query/query/service"@
            &&& goes_to(q, b)
            &&& sends(q, "content-type"@, "application/json"@)
            &&& declares_length(q)
            &&& q.body == Some(encode_utf8(json::json_text(Tree::Object(m))))
            &&& q.timeout_ns == Some((ms * 1_000_000) as u64)
        },
{
    if let Ok(q) = query::query_of(caller, b, statement, params, options) {
        let (m, ms) = query::request_members(
            b,
            statement,
            asked::arguments_of(params)->Ok_0,
            options,
        )->Ok_0;
        let own = BindingView { timeout_ms: ms, ..b };
        let body = encode_utf8(json::json_text(Tree::Object(m)));
        lemma_names_differ();
        assert forall|name: Seq<char>| #[trigger] values(q.headers, name) == one(
            "authorization"@,
            b.authorization,
            name,
        ) + one("accept"@, "application/json"@, name) + one(
            "content-type"@,
            "application/json"@,
            name,
        ) + one("content-length"@, number::decimal(body.len()), name) by {
            lemma_request_values(
                own,
                Method::Post,
                q.path,
                plugin::json_type(),
                Some(body),
                name,
            );
            lemma_front_values(name);
        }
        assert(values(q.headers, "authorization"@) =~= seq![encode_utf8(b.authorization)]);
        assert(values(q.headers, "accept"@) =~= seq![encode_utf8("application/json"@)]);
        assert(values(q.headers, "content-type"@) =~= seq![encode_utf8("application/json"@)]);
        assert(values(q.headers, "content-length"@) =~= seq![
            encode_utf8(number::decimal(body.len())),
        ]);
    }
}

/// A query succeeds exactly when its reply is a 2xx whose envelope could be read
/// and carries no errors, and then gives the rows of the envelope, all of them
/// and in order.
pub proof fn lemma_answer_gives_the_rows(
    reply: ReplyView,
    parsed: BodyView,
    envelope: Result<(Seq<Tree>, bool), Seq<char>>,
)
    ensures
        query::answer_of(reply, parsed, envelope) is Ok <==> 200 <= reply.status <= 299
            && envelope is Ok && !envelope->Ok_0.1,
        query::answer_of(reply, parsed, envelope) matches Ok(v) ==> v == ValueView::Json(
            json::json_text(Tree::Array(envelope->Ok_0.0)),
        ),
        200 <= reply.status <= 299 && envelope is Err ==> (query::answer_of(
            reply,
            parsed,
            envelope,
        ) matches Err(e) && e is Unexpected),
{
}

/// Where the cluster gives no code, the status decides.
pub proof fn lemma_status_decides(status: u16, body: Seq<u8>, parsed: BodyView)
    requires
        parsed.code is None,
        parsed.errors.len() == 0 || parsed.errors[0].code is None,
    ensures
        status == 404 <==> api::failure_of(status, body, parsed) is NotFound,
        status == 409 <==> api::failure_of(status, body, parsed) is AlreadyExists,
        status == 412 <==> api::failure_of(status, body, parsed) is CasMismatch,
        status == 401 || status == 403 <==> api::failure_of(status, body, parsed) is Unauthorized,
        status == 408 || status == 504 <==> api::failure_of(status, body, parsed) is Timeout,
        status == 400 || status == 422 <==> api::failure_of(status, body, parsed)
            is InvalidArgument,
        api::failure_of(status, body, parsed) matches api::FailureView::Server {
            status: said,
            code,
            ..
        } ==> said == status && code is None,
{
}

/// A code that the service documents decides, whatever the status: a conflict is
/// an existing document or a stale CAS by its code, never by guess.
pub proof fn lemma_documented_codes_decide(status: u16, body: Seq<u8>, parsed: BodyView)
    ensures
        parsed.code == Some("DocumentNotFound"@) || parsed.code == Some("CollectionNotFound"@)
            || parsed.code == Some("ScopeNotFound"@) || parsed.code == Some("BucketNotFound"@)
            || parsed.code == Some("PathNotFound"@) ==> api::failure_of(status, body, parsed)
            is NotFound,
        parsed.code == Some("DocumentExists"@) || parsed.code == Some("PathExists"@)
            ==> api::failure_of(status, body, parsed) is AlreadyExists,
        parsed.code == Some("CasMismatch"@) ==> api::failure_of(status, body, parsed)
            is CasMismatch,
        parsed.code == Some("DocumentLocked"@) ==> api::failure_of(status, body, parsed) is Locked,
        parsed.code == Some("DocumentNotLocked"@) ==> api::failure_of(status, body, parsed)
            is NotLocked,
        parsed.code == Some("Unauthorized"@) || parsed.code == Some("Forbidden"@) || parsed.code
            == Some("AuthenticationFailure"@) || parsed.code == Some("InvalidAuth"@)
            || parsed.code == Some("NoReadAccess"@) || parsed.code == Some("NoWriteAccess"@)
            ==> api::failure_of(status, body, parsed) is Unauthorized,
        parsed.code == Some("Timeout"@) || parsed.code == Some("UnambiguousTimeout"@)
            || parsed.code == Some("AmbiguousTimeout"@) || parsed.code == Some(
            "DeadlineExceeded"@,
        ) ==> api::failure_of(status, body, parsed) is Timeout,
        parsed.code == Some("InvalidArgument"@) || parsed.code == Some("ValueTooLarge"@)
            || parsed.code == Some("DocumentTooDeep"@) || parsed.code == Some("PathTooBig"@)
            || parsed.code == Some("PathInvalid"@) || parsed.code == Some("PathMismatch"@)
            || parsed.code == Some("DocumentNotNumeric"@) || parsed.code == Some(
            "DurabilityImpossible"@,
        ) ==> api::failure_of(status, body, parsed) is InvalidArgument,
{
    reveal_strlit("DocumentNotFound");
    reveal_strlit("PathNotFound");
    reveal_strlit("CollectionNotFound");
    reveal_strlit("ScopeNotFound");
    reveal_strlit("BucketNotFound");
    reveal_strlit("DocumentExists");
    reveal_strlit("PathExists");
    reveal_strlit("CasMismatch");
    reveal_strlit("DocumentLocked");
    reveal_strlit("DocumentNotLocked");
    reveal_strlit("InvalidArgument");
    reveal_strlit("ValueTooLarge");
    reveal_strlit("DocumentTooDeep");
    reveal_strlit("PathTooBig");
    reveal_strlit("PathInvalid");
    reveal_strlit("PathMismatch");
    reveal_strlit("DocumentNotNumeric");
    reveal_strlit("DurabilityImpossible");
    reveal_strlit("Unauthorized");
    reveal_strlit("Forbidden");
    reveal_strlit("AuthenticationFailure");
    reveal_strlit("InvalidAuth");
    reveal_strlit("NoReadAccess");
    reveal_strlit("NoWriteAccess");
    reveal_strlit("Timeout");
    reveal_strlit("UnambiguousTimeout");
    reveal_strlit("AmbiguousTimeout");
    reveal_strlit("DeadlineExceeded");
    assert("DocumentNotFound"@.len() == 16);
    assert("PathNotFound"@.len() == 12);
    assert("CollectionNotFound"@.len() == 18);
    assert("ScopeNotFound"@.len() == 13);
    assert("BucketNotFound"@.len() == 14);
    assert("DocumentExists"@.len() == 14);
    assert("PathExists"@.len() == 10);
    assert("CasMismatch"@.len() == 11);
    assert("DocumentLocked"@.len() == 14);
    assert("DocumentNotLocked"@.len() == 17);
    assert("InvalidArgument"@.len() == 15);
    assert("ValueTooLarge"@.len() == 13);
    assert("DocumentTooDeep"@.len() == 15);
    assert("PathTooBig"@.len() == 10);
    assert("PathInvalid"@.len() == 11);
    assert("PathMismatch"@.len() == 12);
    assert("DocumentNotNumeric"@.len() == 18);
    assert("DurabilityImpossible"@.len() == 20);
    assert("Unauthorized"@.len() == 12);
    assert("Forbidden"@.len() == 9);
    assert("AuthenticationFailure"@.len() == 21);
    assert("InvalidAuth"@.len() == 11);
    assert("NoReadAccess"@.len() == 12);
    assert("NoWriteAccess"@.len() == 13);
    assert("Timeout"@.len() == 7);
    assert("UnambiguousTimeout"@.len() == 18);
    assert("AmbiguousTimeout"@.len() == 16);
    assert("DeadlineExceeded"@.len() == 16);
    assert("DocumentNotFound"@[0] == 'D' && "AmbiguousTimeout"@[0] == 'A');
    assert("DocumentNotFound"@[1] == 'o' && "DeadlineExceeded"@[1] == 'e');
    assert("PathNotFound"@[4] == 'N' && "PathMismatch"@[4] == 'M');
    assert("PathNotFound"@[0] == 'P' && "Unauthorized"@[0] == 'U');
    assert("PathNotFound"@[0] == 'P' && "NoReadAccess"@[0] == 'N');
    assert("CollectionNotFound"@[0] == 'C' && "DocumentNotNumeric"@[0] == 'D');
    assert("CollectionNotFound"@[0] == 'C' && "UnambiguousTimeout"@[0] == 'U');
    assert("ScopeNotFound"@[0] == 'S' && "ValueTooLarge"@[0] == 'V');
    assert("ScopeNotFound"@[0] == 'S' && "NoWriteAccess"@[0] == 'N');
    assert("BucketNotFound"@[0] == 'B' && "DocumentExists"@[0] == 'D');
    assert("BucketNotFound"@[0] == 'B' && "DocumentLocked"@[0] == 'D');
    assert("DocumentExists"@[8] == 'E' && "DocumentLocked"@[8] == 'L');
    assert("PathExists"@[4] == 'E' && "PathTooBig"@[4] == 'T');
    assert("CasMismatch"@[0] == 'C' && "PathInvalid"@[0] == 'P');
    assert("CasMismatch"@[0] == 'C' && "InvalidAuth"@[0] == 'I');
    assert("ValueTooLarge"@[0] == 'V' && "NoWriteAccess"@[0] == 'N');
    assert("PathInvalid"@[0] == 'P' && "InvalidAuth"@[0] == 'I');
    assert("PathMismatch"@[0] == 'P' && "Unauthorized"@[0] == 'U');
    assert("PathMismatch"@[0] == 'P' && "NoReadAccess"@[0] == 'N');
    assert("DocumentNotNumeric"@[0] == 'D' && "UnambiguousTimeout"@[0] == 'U');
}

/// A failure keeps its kind on the way to the caller of a document operation, and
/// what the cluster said stays in the text.
pub proof fn lemma_failure_keeps_its_kind(f: api::FailureView)
    ensures
        f is NotFound <==> plugin::document_error(f) is NotFound,
        f is AlreadyExists <==> plugin::document_error(f) is AlreadyExists,
        f is CasMismatch <==> plugin::document_error(f) is CasMismatch,
        f is Locked <==> plugin::document_error(f) is Locked,
        f is NotLocked <==> plugin::document_error(f) is NotLocked,
        f is Unauthorized <==> plugin::document_error(f) is Unauthorized,
        f is Timeout <==> plugin::document_error(f) is Timeout,
        f is Server <==> plugin::document_error(f) is Other,
        f matches api::FailureView::InvalidArgument(m) ==> plugin::document_error(f)
            == ErrorView::InvalidArgument(m),
        f matches api::FailureView::InvalidArgument(m) ==> plugin::query_error(f)
            == QueryErrorView::InvalidArgument(m),
        f is Unauthorized <==> plugin::query_error(f) is Unauthorized,
        f is Timeout <==> plugin::query_error(f) is Timeout,
        f is Server <==> plugin::query_error(f) is Server,
        f is NotFound ==> plugin::query_error(f) is InvalidArgument,
{
}

/// What a refusal says of its kind: an option that cannot be honoured is
/// unsupported, and a touch without a time to live is an invalid argument.
pub proof fn lemma_refusals_are_named(
    b: BindingView,
    id: Seq<char>,
    document: Seq<u8>,
    insert: Option<DocumentInsertOptions>,
    upsert: Option<DocumentUpsertOptions>,
    replace: Option<DocumentReplaceOptions>,
    remove: Option<DocumentRemoveOptions>,
    get: Option<DocumentGetOptions>,
    touch: Option<DocumentTouchOptions>,
    get_and_touch: Option<DocumentGetAndTouchOptions>,
    now: i64,
)
    ensures
        plugin::insert_of(None, b, id, document, insert) matches Err(e) ==> e is Unsupported,
        plugin::upsert_of(None, b, id, document, upsert) matches Err(e) ==> e is Unsupported,
        plugin::replace_of(None, b, id, document, replace) matches Err(e) ==> e is Unsupported,
        plugin::remove_of(None, b, id, remove) matches Err(e) ==> e is Unsupported,
        plugin::get_of(None, b, id, get) matches Err(e) ==> e is Unsupported,
        plugin::touch_only_of(None, b, id, touch, now) matches Err(e) ==> e is InvalidArgument,
        plugin::get_and_touch_of(None, b, id, get_and_touch, now) matches Err(e) ==> e
            is InvalidArgument,
{
}

/// Whether a time limit in milliseconds is the one that a configuration sets, or
/// thirty seconds where it sets none.
pub open spec fn is_limit_of(timeout_ms: u32, config: Seq<(Seq<char>, Seq<char>)>) -> bool {
    match settings::setting(config, "timeout-ms"@) {
        Some(raw) => number::unsigned(raw, 10, 4_294_967_295) == Some(timeout_ms as nat)
            && timeout_ms > 0,
        None => timeout_ms == 30_000,
    }
}

/// A binding holds what its configuration says: the keyspace, with the default
/// scope and collection where none is named, the credential of exactly the user
/// that it names, and the time limit.
pub proof fn lemma_binding_is_the_configuration(config: Seq<(Seq<char>, Seq<char>)>)
    ensures
        config::binding_in(config) matches Ok(b) ==> {
            &&& settings::setting(config, "bucket"@) == Some(b.bucket)
            &&& match settings::setting(config, "scope"@) {
                Some(scope) => b.scope == scope,
                None => b.scope == "_default"@,
            }
            &&& match settings::setting(config, "collection"@) {
                Some(collection) => b.collection == collection,
                None => b.collection == "_default"@,
            }
            &&& is_limit_of(b.timeout_ms, config)
            &&& settings::setting(config, "username"@) matches Some(username)
                && settings::setting(config, "password"@) matches Some(password)
                && b.authorization.len() >= 6 && b.authorization.take(6) == "Basic "@
                && credentials::base64_bytes(b.authorization.skip(6)) == encode_utf8(
                username + seq![':'] + password,
            )
            &&& settings::setting(config, "endpoint"@) matches Some(raw) && config::endpoint(raw)
                == Ok::<(bool, Seq<char>, Seq<char>), Seq<char>>(
                (b.secure, b.authority, b.base_path),
            )
        },
{
    if let Ok(b) = config::binding_in(config) {
        let username = settings::setting(config, "username"@)->0;
        let password = settings::setting(config, "password"@)->0;
        reveal_strlit(":");
        assert(":"@ =~= seq![':']);
        reveal_strlit("Basic ");
        assert("Basic "@.len() == 6);
        let plain = encode_utf8(username + ":"@ + password);
        credentials::lemma_base64_decodes(plain);
        assert(b.authorization.take(6) =~= "Basic "@);
        assert(b.authorization.skip(6) =~= credentials::base64_of(plain));
    }
}

proof fn lemma_scheme_is_cut(scheme: Seq<char>, rest: Seq<char>)
    requires
        !scheme.contains(':'),
    ensures
        text::split_first(scheme + "://"@ + rest, "://"@) == Some((scheme, rest)),
{
    let raw = scheme + "://"@ + rest;
    let n = scheme.len() as int;
    reveal_strlit("://");
    assert("://"@.len() == 3);
    assert(raw.skip(n).take(3) =~= "://"@);
    text::lemma_find_some(raw, "://"@, n);
    text::lemma_find_in_range(raw, "://"@);
    let k = text::find(raw, "://"@)->0;
    assert(raw.subrange(k, k + 3)[0] == ':');
    if k < n {
        assert(raw[k] == scheme[k]);
        assert(scheme.contains(scheme[k]));
    }
    assert(raw.take(n) =~= scheme);
    assert(raw.skip(n + 3) =~= rest);
}

/// An endpoint is taken at its word: `https` is TLS and `http` is plaintext, the
/// authority is what stands before the first slash, and what stands behind it is
/// the mount, without a slash at its end.
pub proof fn lemma_endpoint_is_taken_at_its_word(authority: Seq<char>, path: Seq<char>)
    requires
        authority.len() > 0,
        !authority.contains('/'),
        path.len() > 0 ==> path.last() != '/',
    ensures
        config::endpoint("https://"@ + authority) == Ok::<(bool, Seq<char>, Seq<char>), Seq<char>>(
            (true, authority, Seq::empty()),
        ),
        config::endpoint("http://"@ + authority) == Ok::<(bool, Seq<char>, Seq<char>), Seq<char>>(
            (false, authority, Seq::empty()),
        ),
        path.len() > 0 ==> config::endpoint("https://"@ + authority + "/"@ + path) == Ok::<
            (bool, Seq<char>, Seq<char>),
            Seq<char>,
        >((true, authority, "/"@ + path)),
        path.len() > 0 ==> config::endpoint("http://"@ + authority + "/"@ + path) == Ok::<
            (bool, Seq<char>, Seq<char>),
            Seq<char>,
        >((false, authority, "/"@ + path)),
        config::endpoint("https://"@ + authority + "/"@) == Ok::<
            (bool, Seq<char>, Seq<char>),
            Seq<char>,
        >((true, authority, Seq::empty())),
{
    reveal_strlit("https://");
    reveal_strlit("http://");
    reveal_strlit("https");
    reveal_strlit("http");
    reveal_strlit("://");
    reveal_strlit("/");
    assert("/"@ =~= seq!['/']);
    assert("https"@.len() == 5 && "http"@.len() == 4);
    assert("https://"@ =~= "https"@ + "://"@);
    assert("http://"@ =~= "http"@ + "://"@);
    let mounted = authority + "/"@ + path;
    let closed = authority + "/"@;
    assert("https://"@ + authority =~= "https"@ + "://"@ + authority);
    assert("http://"@ + authority =~= "http"@ + "://"@ + authority);
    assert("https://"@ + authority + "/"@ + path =~= "https"@ + "://"@ + mounted);
    assert("http://"@ + authority + "/"@ + path =~= "http"@ + "://"@ + mounted);
    assert("https://"@ + authority + "/"@ =~= "https"@ + "://"@ + closed);
    lemma_scheme_is_cut("https"@, authority);
    lemma_scheme_is_cut("http"@, authority);
    lemma_scheme_is_cut("https"@, mounted);
    lemma_scheme_is_cut("http"@, mounted);
    lemma_scheme_is_cut("https"@, closed);
    text::lemma_find_absent(authority, '/', "/"@);
    text::lemma_find_char(authority, '/', path, "/"@);
    text::lemma_find_char(authority, '/', Seq::empty(), "/"@);
    assert(closed + Seq::<char>::empty() =~= closed);
    assert(mounted.take(authority.len() as int) =~= authority);
    assert(mounted.skip(authority.len() as int + 1) =~= path);
    assert(closed.take(authority.len() as int) =~= authority);
    assert(closed.skip(authority.len() as int + 1) =~= Seq::<char>::empty());
}

/// A workload is bound with what its first interface configures, is refused where
/// that is not valid, and is left alone where it has no such interface.
pub proof fn lemma_workload_is_bound_as_configured(workload: WorkloadInfo)
    ensures
        plugin::bound_by(workload) == Ok::<Option<BindingView>, Seq<char>>(None)
            <==> bindings::served(workload.interfaces@) is None,
        plugin::bound_by(workload) matches Ok(Some(b)) ==> (bindings::served(
            workload.interfaces@,
        ) matches Some(i) && config::binding_in(settings::pairs(i.config@)) == Ok::<
            BindingView,
            Seq<char>,
        >(b)),
        plugin::bound_by(workload) is Err <==> (bindings::served(
            workload.interfaces@,
        ) matches Some(i) && config::binding_in(settings::pairs(i.config@)) is Err),
{
}

/// What explains a failure is the cluster's own message, or else that of its first
/// error; failing both, it is the raw body, and where that is blank the status is
/// named.
pub proof fn lemma_failure_is_explained(status: u16, body: Seq<u8>, parsed: BodyView)
    ensures
        parsed.message matches Some(m) ==> api::message_in(status, body, parsed) == m,
        parsed.message is None && parsed.errors.len() > 0 ==> (parsed.errors[0].msg matches Some(m)
            ==> api::message_in(status, body, parsed) == m),
        parsed.message is None && (parsed.errors.len() == 0 || parsed.errors[0].msg is None) ==> ({
            let raw = text::trimmed(text::lossy_text(body));
            &&& raw.len() > 0 ==> api::message_in(status, body, parsed) == api::truncated(raw, 512)
            &&& raw.len() == 0 ==> api::message_in(status, body, parsed)
                == "Couchbase returned HTTP "@ + number::decimal(status as nat) + " with no body"@
        }),
{
}

/// The code of a failure is the cluster's own, or else the number of its first
/// error.
pub proof fn lemma_failure_is_coded(parsed: BodyView)
    ensures
        parsed.code is Some ==> api::code_in(parsed) == parsed.code,
        parsed.code is None && parsed.errors.len() > 0 ==> (parsed.errors[0].code matches Some(c)
            ==> api::code_in(parsed) == Some(number::decimal(c as nat))),
        parsed.code is None && (parsed.errors.len() == 0 || parsed.errors[0].code is None)
            ==> api::code_in(parsed) is None,
{
}

/// The twelve months are the ones that HTTP dates write.
pub proof fn lemma_months_are_told_apart()
    ensures
        api::month_in("Jan"@) == Some(1u8),
        api::month_in("Feb"@) == Some(2u8),
        api::month_in("Mar"@) == Some(3u8),
        api::month_in("Apr"@) == Some(4u8),
        api::month_in("May"@) == Some(5u8),
        api::month_in("Jun"@) == Some(6u8),
        api::month_in("Jul"@) == Some(7u8),
        api::month_in("Aug"@) == Some(8u8),
        api::month_in("Sep"@) == Some(9u8),
        api::month_in("Oct"@) == Some(10u8),
        api::month_in("Nov"@) == Some(11u8),
        api::month_in("Dec"@) == Some(12u8),
        forall|s: Seq<char>| #[trigger] api::month_in(s) is Some ==> s.len() == 3,
{
    reveal_strlit("Jan");
    reveal_strlit("Feb");
    reveal_strlit("Mar");
    reveal_strlit("Apr");
    reveal_strlit("May");
    reveal_strlit("Jun");
    reveal_strlit("Jul");
    reveal_strlit("Aug");
    reveal_strlit("Sep");
    reveal_strlit("Oct");
    reveal_strlit("Nov");
    reveal_strlit("Dec");
    assert("Jan"@[0] == 'J' && "Jan"@[1] == 'a' && "Jan"@[2] == 'n');
    assert("Jun"@[0] == 'J' && "Jun"@[1] == 'u' && "Jun"@[2] == 'n');
    assert("Jul"@[0] == 'J' && "Jul"@[1] == 'u' && "Jul"@[2] == 'l');
    assert("Mar"@[0] == 'M' && "Mar"@[1] == 'a' && "Mar"@[2] == 'r');
    assert("May"@[0] == 'M' && "May"@[1] == 'a' && "May"@[2] == 'y');
    assert("Apr"@[0] == 'A' && "Apr"@[1] == 'p');
    assert("Aug"@[0] == 'A' && "Aug"@[1] == 'u');
    assert("Feb"@[0] == 'F');
    assert("Sep"@[0] == 'S');
    assert("Oct"@[0] == 'O');
    assert("Nov"@[0] == 'N');
    assert("Dec"@[0] == 'D');
}

/// An expiry is read from the six words of an HTTP date, each in its place: the
/// day, the month, the year, hours, minutes and seconds, and GMT; and only where
/// each is in its range.
pub proof fn lemma_expiry_is_read_in_place(value: Seq<char>)
    ensures
        api::expiry_in(value) matches Some(e) ==> {
            let w = text::words(value);
            let c = text::split(w[4], ':');
            &&& w.len() == 6
            &&& w[5] == "GMT"@ || w[5] == "UTC"@
            &&& number::unsigned(w[1], 10, 255) == Some(e.day as nat)
            &&& api::month_in(w[2]) == Some(e.month)
            &&& number::signed32(w[3]) == Some(e.year as int)
            &&& c.len() == 3
            &&& number::unsigned(c[0], 10, 255) == Some(e.hour as nat)
            &&& number::unsigned(c[1], 10, 255) == Some(e.minute as nat)
            &&& number::unsigned(c[2], 10, 255) == Some(e.second as nat)
            &&& 1 <= e.day <= 31 && e.hour < 24 && e.minute < 60 && e.second <= 60
        },
{
}

/// A call that takes too long is reported as a timeout, whichever part of it did,
/// a refused destination as a misconfiguration, and anything else in its own words.
pub proof fn lemma_transport_failures(code: TransportFailure)
    ensures
        plugin::transport_error_of(code) is Timeout <==> code is DnsTimeout || code
            is ConnectionTimeout || code is ConnectionReadTimeout || code is ConnectionWriteTimeout
            || code is HttpResponseTimeout,
        plugin::transport_error_of(code) is NotConfigured <==> code is HttpRequestDenied || code
            is DestinationIpProhibited,
        code matches TransportFailure::Other(m) ==> plugin::transport_error_of(code)
            == ErrorView::RequestFailed(m@),
{
}

/// A refused header, host or path is the caller's to mend; and only a cancelled
/// invocation keeps a request from being sent.
pub proof fn lemma_unsent_requests(
    authority: Seq<char>,
    path: Seq<char>,
    part: Rejected,
    cancelled: bool,
)
    ensures
        plugin::rejection_of(authority, path, part) is InvalidArgument <==> part is Header || part
            is Authority || part is Path,
        part is Method || part is Scheme ==> plugin::rejection_of(authority, path, part) is Other,
        plugin::cleared(cancelled) is Some <==> cancelled,
        plugin::cleared(cancelled) matches Some(e) ==> e is Other,
{
}

} // verus!
