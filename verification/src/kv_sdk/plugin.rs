//! What the SDK transport does with each operation of the interface.
//!
//! Each operation is decided from the caller and the options into the settings
//! that the SDK is called with, or an error. What the SDK reports is turned
//! into what the caller gets.

use vstd::prelude::*;
use vstd::string::*;

use chrono::{Datelike, Timelike};

use crate::address;
use crate::bindings;
use crate::bindings::Workloads;
use crate::calendar;
use crate::kv_sdk::config;
use crate::kv_sdk::config::{Binding, BindingView};
use crate::number;
use crate::settings;
use crate::text;
use crate::types::{
    DocumentError, DocumentGetAndLockOptions, DocumentGetAndTouchOptions, DocumentGetOptions,
    DocumentGetResult, DocumentInsertOptions, DocumentRemoveOptions, DocumentReplaceOptions,
    DocumentTouchOptions, DocumentUnlockOptions, DocumentUpsertOptions, DurabilityLevel, ErrorView,
    GetView, MutationMetadata, MutationView, ReplicaReadLevel, Time, WorkloadInfo,
};

verus! {

/// What the server uses when a lock request names no duration.
pub const DEFAULT_LOCK_SECONDS: u64 = 15;

/// The common-flags value every SDK writes for JSON.
pub const JSON_FLAGS: u32 = 0x0200_0006;

/// The SDK's durability levels.
#[derive(Debug, Clone, Copy, PartialEq, Eq, Structural)]
pub enum Durability {
    Majority,
    MajorityAndPersistActive,
    PersistToMajority,
}

/// The settings of a call that changes a document.
#[derive(Debug, Clone, Copy, PartialEq, Eq)]
pub struct WriteSettings {
    pub flags: u32,
    /// Time to live, in seconds.
    pub expiry: Option<u64>,
    pub durability: Option<Durability>,
    pub preserve_expiry: Option<bool>,
    pub cas: Option<u64>,
    /// How long to wait, in milliseconds.
    pub deadline_ms: u32,
}

/// The settings of a call that reads a document.
#[derive(Debug, PartialEq, Eq)]
pub struct ReadSettings {
    pub projections: Option<Vec<String>>,
    pub expiry: Option<bool>,
    /// How long to wait, in milliseconds.
    pub deadline_ms: u32,
}

/// The contents of [`ReadSettings`].
pub struct ReadView {
    pub projections: Option<Seq<Seq<char>>>,
    pub expiry: Option<bool>,
    pub deadline_ms: u32,
}

impl View for ReadSettings {
    type V = ReadView;

    open spec fn view(&self) -> ReadView {
        ReadView {
            projections: match self.projections {
                Some(p) => Some(text::texts(p@)),
                None => None,
            },
            expiry: self.expiry,
            deadline_ms: self.deadline_ms,
        }
    }
}

/// The settings of a call that takes one number: a time in seconds, or a CAS.
#[derive(Debug, Clone, Copy, PartialEq, Eq)]
pub struct NumberSettings {
    pub value: u64,
    /// How long to wait, in milliseconds.
    pub deadline_ms: u32,
}

/// The deadline for one call: the caller's, rounded up, or the binding's when
/// unset.
pub open spec fn deadline_of(own: u32, timeout_ns: Option<u64>) -> u32 {
    match timeout_ns {
        Some(ns) => if ns == 0 {
            own
        } else {
            number::at_most(number::ceil_div(ns as nat, 1_000_000), u32::MAX as nat) as u32
        },
        None => own,
    }
}

/// The deadline for one call: the caller's, or the binding's when unset.
pub fn effective_timeout_ms(binding: &Binding, timeout_ns: Option<u64>) -> (ms: u32)
    ensures
        ms == deadline_of(binding.timeout_ms, timeout_ns),
{
    match timeout_ns {
        Some(ns) => if ns == 0 {
            binding.timeout_ms
        } else {
            number::milliseconds(ns)
        },
        None => binding.timeout_ms,
    }
}

/// A call always has a deadline, and the caller's own one is never cut short,
/// except where it is longer than the SDK can be told.
pub proof fn lemma_deadline_is_honoured(own: u32, ns: u64)
    requires
        own > 0,
    ensures
        deadline_of(own, Some(ns)) > 0,
        0 < ns && ns <= u32::MAX * 1_000_000 ==> deadline_of(own, Some(ns)) * 1_000_000 >= ns,
{
    if ns > 0 {
        number::lemma_rounding_keeps_a_limit(ns, 1_000_000);
    }
}

/// What a workload is to be bound with: nothing when it does not use the
/// interface, its validated binding, or why its configuration is refused.
pub open spec fn bound_by(workload: WorkloadInfo) -> Result<Option<BindingView>, Seq<char>> {
    match bindings::served(workload.interfaces@) {
        None => Ok(None),
        Some(i) => match config::binding_in(settings::pairs(i.config@)) {
            Ok(b) => Ok(Some(b)),
            Err(reason) => Err(
                bindings::refusal(workload.name@, workload.namespace@, reason),
            ),
        },
    }
}

/// The binding of a workload that is being announced.
pub fn on_workload_bind(workload: &WorkloadInfo) -> (r: Result<Option<Binding>, String>)
    ensures
        match r {
            Ok(None) => bound_by(*workload) == Ok::<Option<BindingView>, Seq<char>>(None),
            Ok(Some(b)) => bound_by(*workload) == Ok::<Option<BindingView>, Seq<char>>(Some(b@)),
            Err(e) => bound_by(*workload) == Err::<Option<BindingView>, Seq<char>>(e@),
        },
{
    match bindings::couchbase_interface(workload) {
        None => Ok(None),
        Some(i) => match Binding::from_config(i.config.as_slice()) {
            Ok(b) => Ok(Some(b)),
            Err(reason) => Err(bindings::refusal_message(workload, reason.as_str())),
        },
    }
}

/// What a deploy shows when the first connection fails.
pub fn connect_failure(workload: &WorkloadInfo, binding: &Binding, reason: &str) -> (s: String)
    ensures
        s@ == bindings::unreachable_text(workload.name@, binding.connection_string@, reason@),
{
    bindings::unreachable_message(workload, binding.connection_string.as_str(), reason)
}

/// An address that a name resolved to, as text.
#[derive(Debug, PartialEq, Eq)]
pub enum Address {
    V4(String),
    V6(String),
}

/// Why a connection attempt failed. A name is resolved before the SDK is
/// involved, so that failure is not one that the SDK could have produced.
#[derive(Debug, PartialEq, Eq)]
pub enum ConnectError {
    /// The SDK's error, as text.
    Sdk(String),
    Resolve(String),
}

/// The contents of a [`ConnectError`].
pub enum ConnectView {
    Sdk(Seq<char>),
    Resolve(Seq<char>),
}

impl View for ConnectError {
    type V = ConnectView;

    open spec fn view(&self) -> ConnectView {
        match self {
            ConnectError::Sdk(m) => ConnectView::Sdk(m@),
            ConnectError::Resolve(m) => ConnectView::Resolve(m@),
        }
    }
}

impl ConnectError {
    /// The error as text.
    pub fn message(&self) -> (s: &str)
        ensures
            s@ == (match self@ {
                ConnectView::Sdk(m) => m,
                ConnectView::Resolve(m) => m,
            }),
    {
        match self {
            ConnectError::Sdk(m) => m.as_str(),
            ConnectError::Resolve(m) => m.as_str(),
        }
    }
}

/// The name in a connection string that has to be looked up, if it has one. A
/// string that names more than one node is the SDK's to spread across nodes,
/// also where the first node comes with a port.
pub open spec fn name_in(raw: Seq<char>) -> Option<Seq<char>> {
    let (_, host, port) = config::connection_parts(raw);
    if config::is_name(host) && !port.contains(',') {
        Some(host)
    } else {
        None
    }
}

/// The name in a connection string that has to be looked up, if it has one.
pub fn lookup_name(connection_string: &str) -> (r: Option<&str>)
    ensures
        match r {
            Some(name) => name_in(connection_string@) == Some(name@),
            None => name_in(connection_string@) is None,
        },
{
    let (_, host, port) = config::split_connection_string(connection_string);
    let cs = text::chars_of(port);
    if config::needs_resolution(host) && !text::has_char(cs.as_slice(), ',') {
        Some(host)
    } else {
        None
    }
}

/// The contents of a lookup's outcome: the first address if there is one, or
/// the error's text.
pub open spec fn lookup_view(found: Result<Option<Address>, String>) -> Result<
    Option<(bool, Seq<char>)>,
    Seq<char>,
> {
    match found {
        Ok(Some(Address::V4(a))) => Ok(Some((false, a@))),
        Ok(Some(Address::V6(a))) => Ok(Some((true, a@))),
        Ok(None) => Ok(None),
        Err(e) => Err(e@),
    }
}

/// The connection string that the SDK gets: the one given where there is no
/// name to look up, and otherwise one with the address in the name's place and
/// scheme and port as they were.
pub open spec fn resolved(raw: Seq<char>, found: Result<Option<(bool, Seq<char>)>, Seq<char>>) -> Result<
    Seq<char>,
    ConnectView,
> {
    let (scheme, host, port) = config::connection_parts(raw);
    if name_in(raw) is None {
        Ok(raw)
    } else {
        match found {
            Err(e) => Err(
                ConnectView::Resolve(
                    "could not resolve `"@ + host + "`: "@ + e
                        + ". A host component plugin needs `allowedIpNameLookups` to cover it, or `endpoint` can name an address literal instead"@,
                ),
            ),
            Ok(None) => Err(ConnectView::Resolve("`"@ + host + "` resolved to no addresses"@)),
            Ok(Some((v6, address))) => Ok(
                if v6 {
                    scheme + "://["@ + address + "]"@ + port
                } else {
                    scheme + "://"@ + address + port
                },
            ),
        }
    }
}

/// Put the address of a looked-up name into a connection string. `found` is
/// the first address that [`lookup_name`]'s name resolved to; where there is no
/// such name it makes no difference.
pub fn resolve_endpoint(connection_string: &str, found: Result<Option<Address>, String>) -> (r:
    Result<String, ConnectError>)
    ensures
        match r {
            Ok(s) => resolved(connection_string@, lookup_view(found)) == Ok::<
                Seq<char>,
                ConnectView,
            >(s@),
            Err(e) => resolved(connection_string@, lookup_view(found)) == Err::<
                Seq<char>,
                ConnectView,
            >(e@),
        },
{
    let (scheme, host, port) = config::split_connection_string(connection_string);
    if lookup_name(connection_string).is_none() {
        return Ok(connection_string.to_string());
    }
    match found {
        Err(e) => {
            let mut s = text::joined3("could not resolve `", host, "`: ");
            s.append(e.as_str());
            s.append(
                ". A host component plugin needs `allowedIpNameLookups` to cover it, or `endpoint` can name an address literal instead",
            );
            Err(ConnectError::Resolve(s))
        },
        Ok(None) => Err(
            ConnectError::Resolve(text::joined3("`", host, "` resolved to no addresses")),
        ),
        Ok(Some(Address::V4(a))) => {
            let mut s = text::joined3(scheme, "://", a.as_str());
            s.append(port);
            Ok(s)
        },
        Ok(Some(Address::V6(a))) => {
            let mut s = text::joined3(scheme, "://[", a.as_str());
            s.append("]");
            s.append(port);
            Ok(s)
        },
    }
}

/// The SDK is never handed a name to look up: what it gets is an address, or
/// names that are its own to spread across nodes.
pub proof fn lemma_sdk_gets_no_name(
    raw: Seq<char>,
    found: Result<Option<(bool, Seq<char>)>, Seq<char>>,
)
    requires
        found matches Ok(Some((v6, a))) ==> (if v6 {
            address::is_ipv6(a)
        } else {
            address::is_ipv4(a)
        }),
    ensures
        resolved(raw, found) matches Ok(s) ==> name_in(s) is None,
{
    let (scheme, host, port) = config::connection_parts(raw);
    if name_in(raw) is Some {
        if let Ok(Some((v6, a))) = found {
            let rest = if v6 {
                "["@ + a + "]"@ + port
            } else {
                a + port
            };
            let s = scheme + "://"@ + rest;
            reveal_strlit("[");
            reveal_strlit("]");
            reveal_strlit("://");
            reveal_strlit("://[");
            assert("://["@ =~= "://"@ + "["@);
            assert(resolved(raw, found)->Ok_0 =~= s);
            config::lemma_scheme_is_kept(raw, rest);
            if v6 {
                let at = a.len() as int + 1;
                assert(rest.skip(at).take(1) =~= "]"@);
                text::lemma_find_some(rest, "]"@, at);
                text::lemma_find_in_range(rest, "]"@);
                assert(rest[0] == '[');
                let close = text::find(rest, "]"@)->0;
                assert(rest.take(close + 1)[0] == '[');
            } else {
                address::lemma_ipv4_chars(a);
                config::lemma_port_form(raw);
                config::lemma_host_before_port(scheme, a, port, s);
            }
        }
    }
}

/// What the text of an SDK error means. A text that matches nothing keeps its
/// message rather than being mislabelled.
pub open spec fn sdk_error(said: Seq<char>) -> ErrorView {
    let t = text::lower(said);
    if text::contains_text(t, "document not found"@) || text::contains_text(
        t,
        "documentnotfound"@,
    ) {
        ErrorView::NotFound
    } else if text::contains_text(t, "document exists"@) || text::contains_text(
        t,
        "documentexists"@,
    ) {
        ErrorView::AlreadyExists
    } else if text::contains_text(t, "cas mismatch"@) || text::contains_text(t, "casmismatch"@) {
        ErrorView::CasMismatch
    } else if text::contains_text(t, "document locked"@) || text::contains_text(
        t,
        "documentlocked"@,
    ) {
        ErrorView::Locked
    } else if text::contains_text(t, "not locked"@) || text::contains_text(
        t,
        "documentnotlocked"@,
    ) {
        ErrorView::NotLocked
    } else if text::contains_text(t, "authentication"@) || text::contains_text(t, "unauthorized"@)
        || text::contains_text(t, "permission"@) {
        ErrorView::Unauthorized
    } else if text::contains_text(t, "timeout"@) || text::contains_text(t, "timed out"@) {
        ErrorView::Timeout
    } else if text::contains_text(t, "invalid argument"@) || text::contains_text(
        t,
        "invalidargument"@,
    ) {
        ErrorView::InvalidArgument(said)
    } else {
        ErrorView::Other(said)
    }
}

/// Map an SDK error onto the interface's error model, by its rendered form.
pub fn to_document_error(said: String) -> (e: DocumentError)
    ensures
        e@ == sdk_error(said@),
{
    let cs = text::chars_of(said.as_str());
    let small = text::to_lower(cs.as_slice());
    let t = small.as_slice();
    if text::has_text(t, "document not found") || text::has_text(t, "documentnotfound") {
        DocumentError::NotFound
    } else if text::has_text(t, "document exists") || text::has_text(t, "documentexists") {
        DocumentError::AlreadyExists
    } else if text::has_text(t, "cas mismatch") || text::has_text(t, "casmismatch") {
        DocumentError::CasMismatch
    } else if text::has_text(t, "document locked") || text::has_text(t, "documentlocked") {
        DocumentError::Locked
    } else if text::has_text(t, "not locked") || text::has_text(t, "documentnotlocked") {
        DocumentError::NotLocked
    } else if text::has_text(t, "authentication") || text::has_text(t, "unauthorized")
        || text::has_text(t, "permission") {
        DocumentError::Unauthorized
    } else if text::has_text(t, "timeout") || text::has_text(t, "timed out") {
        DocumentError::Timeout
    } else if text::has_text(t, "invalid argument") || text::has_text(t, "invalidargument") {
        DocumentError::InvalidArgument(said)
    } else {
        DocumentError::Other(said)
    }
}

/// Why an operation failed before it produced an SDK result.
#[derive(Debug, PartialEq, Eq)]
pub enum OpError {
    /// The SDK's error, as text.
    Sdk(String),
    /// The deadline passed. The call is abandoned, not cancelled: the server
    /// may still apply a write whose reply never arrived.
    Timeout,
}

/// What a failed operation means.
pub fn op_error_to_document_error(err: OpError) -> (e: DocumentError)
    ensures
        e@ == (match err {
            OpError::Sdk(m) => sdk_error(m@),
            OpError::Timeout => ErrorView::Timeout,
        }),
{
    match err {
        OpError::Sdk(m) => to_document_error(m),
        OpError::Timeout => DocumentError::Timeout,
    }
}

/// What a failed connection means. The name is a configuration value, so a name
/// that does not resolve is a configuration fault rather than a failed request.
pub fn connect_error_to_document_error(err: ConnectError) -> (e: DocumentError)
    ensures
        e@ == (match err@ {
            ConnectView::Sdk(m) => sdk_error(m),
            ConnectView::Resolve(m) => ErrorView::NotConfigured(m),
        }),
{
    match err {
        ConnectError::Sdk(m) => to_document_error(m),
        ConnectError::Resolve(m) => DocumentError::NotConfigured(m),
    }
}

/// The SDK's durability level, or none to leave it unset.
pub open spec fn durability_of(level: DurabilityLevel) -> Option<Durability> {
    match level {
        DurabilityLevel::Unknown => None,
        DurabilityLevel::Off => None,
        DurabilityLevel::ReplicateMajority => Some(Durability::Majority),
        DurabilityLevel::ReplicateMajorityPersistMaster => Some(
            Durability::MajorityAndPersistActive,
        ),
        DurabilityLevel::PersistMajority => Some(Durability::PersistToMajority),
    }
}

/// The SDK's durability level, or `None` to leave it unset.
pub fn durability(level: DurabilityLevel) -> (r: Option<Durability>)
    ensures
        r == durability_of(level),
{
    match level {
        DurabilityLevel::Unknown => None,
        DurabilityLevel::Off => None,
        DurabilityLevel::ReplicateMajority => Some(Durability::Majority),
        DurabilityLevel::ReplicateMajorityPersistMaster => Some(
            Durability::MajorityAndPersistActive,
        ),
        DurabilityLevel::PersistMajority => Some(Durability::PersistToMajority),
    }
}

/// A time to live in whole seconds, rounded up; none for zero.
pub open spec fn expiry_of(expires_in_ns: u64) -> Option<u64> {
    if expires_in_ns == 0 {
        None
    } else {
        Some(number::ceil_div(expires_in_ns as nat, 1_000_000_000) as u64)
    }
}

/// Couchbase expiries have second granularity, so a sub-second value would
/// silently become "no expiry"; it is rounded up instead.
pub fn expiry(expires_in_ns: u64) -> (r: Option<u64>)
    ensures
        r == expiry_of(expires_in_ns),
        r matches Some(s) ==> s > 0,
{
    if expires_in_ns == 0 {
        return None;
    }
    Some(number::seconds(expires_in_ns))
}

/// Why durability settings are refused, if they are.
pub open spec fn unhonoured(persist_to: u64, replicate_to: u64) -> Option<ErrorView> {
    if persist_to != 0 || replicate_to != 0 {
        Some(
            ErrorView::Unsupported(
                "persist-to/replicate-to are the pre-6.0 durability settings; use `durability-level`"@,
            ),
        )
    } else {
        None
    }
}

/// Reject option fields whose silent omission would change what gets stored.
pub fn reject_unhonoured(persist_to: u64, replicate_to: u64) -> (r: Result<(), DocumentError>)
    ensures
        match r {
            Ok(_) => unhonoured(persist_to, replicate_to) is None,
            Err(e) => unhonoured(persist_to, replicate_to) == Some(e@),
        },
{
    if persist_to != 0 || replicate_to != 0 {
        return Err(
            DocumentError::Unsupported(
                "persist-to/replicate-to are the pre-6.0 durability settings; use `durability-level`".to_string(),
            ),
        );
    }
    Ok(())
}

/// Why a replica read is refused, if one is asked for.
pub open spec fn no_replica(level: Option<ReplicaReadLevel>) -> Option<ErrorView> {
    if level == Some(ReplicaReadLevel::On) {
        Some(ErrorView::Unsupported("the Couchbase Rust SDK exposes no replica read"@))
    } else {
        None
    }
}

/// Refuse a replica read that this transport cannot serve. A replica read
/// trades freshness for availability, and silently serving the active copy
/// would hide that the trade did not happen.
pub fn reject_replica_read(level: Option<ReplicaReadLevel>) -> (r: Result<(), DocumentError>)
    ensures
        match r {
            Ok(_) => no_replica(level) is None,
            Err(e) => no_replica(level) == Some(e@),
        },
{
    match level {
        Some(ReplicaReadLevel::On) => Err(
            DocumentError::Unsupported(
                "the Couchbase Rust SDK exposes no replica read".to_string(),
            ),
        ),
        _ => Ok(()),
    }
}

/// The SDK exposes no replica read.
pub fn get_any_replicas() -> (e: DocumentError)
    ensures
        e@ == ErrorView::Unsupported("the Couchbase Rust SDK exposes no replica read"@),
{
    DocumentError::Unsupported("the Couchbase Rust SDK exposes no replica read".to_string())
}

/// Not exposed by the SDK, like [`get_any_replicas`].
pub fn get_all_replicas() -> (e: DocumentError)
    ensures
        e@ == ErrorView::Unsupported("the Couchbase Rust SDK exposes no replica read"@),
{
    get_any_replicas()
}

/// The position of a write, as the SDK reports it.
#[derive(Debug, Clone, Copy, PartialEq, Eq)]
pub struct SdkToken {
    pub partition_id: u16,
    pub partition_uuid: u64,
    pub sequence_number: u64,
}

/// What a write reports. The SDK hands back a token in parts, so there is never
/// an unparsed form to carry.
pub open spec fn mutation_of(bucket: Seq<char>, cas: u64, token: Option<SdkToken>) -> MutationView {
    let (partition_id, partition_uuid, seq) = match token {
        Some(t) => (t.partition_id as u64, t.partition_uuid, t.sequence_number),
        None => (0u64, 0u64, 0u64),
    };
    MutationView { cas, bucket, partition_id, partition_uuid, seq, raw_token: None }
}

/// What a write reports.
pub fn mutation(binding: &Binding, cas: u64, token: Option<SdkToken>) -> (m: MutationMetadata)
    ensures
        m@ == mutation_of(binding.bucket@, cas, token),
{
    let (partition_id, partition_uuid, seq) = match token {
        Some(t) => (t.partition_id as u64, t.partition_uuid, t.sequence_number),
        None => (0, 0, 0),
    };
    MutationMetadata {
        cas,
        bucket: binding.bucket.clone(),
        partition_id,
        partition_uuid,
        seq,
        raw_token: None,
    }
}

/// Whether `chrono` can represent an instant: its years, and a nanosecond that
/// passes a second only for a leap second.
pub open spec fn representable(seconds: i64, nanos: u32) -> bool {
    let year = calendar::date_of(calendar::day_of_second(seconds as int)).year;
    &&& -262_143 <= year <= 262_142
    &&& nanos < 2_000_000_000
    &&& nanos >= 1_000_000_000 ==> calendar::second_of_day(seconds as int) % 60 == 59
}

/// The fields of an instant.
pub struct Fields {
    pub year: i32,
    pub month: u32,
    pub day: u32,
    pub hour: u32,
    pub minute: u32,
    pub second: u32,
    pub nanosecond: u32,
}

/// The fields of an instant, by the calendar.
pub open spec fn fields_of(seconds: i64, nanos: u32) -> Fields {
    let date = calendar::date_of(calendar::day_of_second(seconds as int));
    let second = calendar::second_of_day(seconds as int);
    Fields {
        year: date.year as i32,
        month: date.month as u32,
        day: date.day as u32,
        hour: (second / 3_600) as u32,
        minute: (second % 3_600 / 60) as u32,
        second: (second % 60) as u32,
        nanosecond: nanos,
    }
}

/// `chrono::DateTime::from_timestamp` and the accessors of `Datelike` and
/// `Timelike`: the civil UTC fields of a unix instant, by the proleptic
/// Gregorian calendar, for every instant that `chrono` represents.
#[verifier::external_body]
fn utc_fields(seconds: i64, nanos: u32) -> (r: Option<Fields>)
    ensures
        match r {
            Some(f) => representable(seconds, nanos) && f == fields_of(seconds, nanos),
            None => !representable(seconds, nanos),
        },
{
    chrono::DateTime::from_timestamp(seconds, nanos).map(
        |t|
            Fields {
                year: t.year(),
                month: t.month(),
                day: t.day(),
                hour: t.hour(),
                minute: t.minute(),
                second: t.second(),
                nanosecond: t.nanosecond(),
            },
    )
}

/// The interface's time for an instant. Milliseconds and nanoseconds are
/// separate units: adding both must not count a part twice.
pub open spec fn time_of(seconds: i64, nanos: u32) -> Time {
    let f = fields_of(seconds, nanos);
    Time {
        offset: 0,
        year: f.year,
        month: f.month as u8,
        day: f.day as u8,
        hour: f.hour as u8,
        minute: f.minute as u8,
        second: f.second as u8,
        milliseconds: nanos / 1_000_000,
        nanoseconds: nanos % 1_000_000,
    }
}

/// Convert an SDK expiry, given as seconds and nanoseconds since the epoch,
/// into the interface's `time` record. The record is against GMT and the expiry
/// is UTC, so the offset is always zero.
pub fn to_wit_time(seconds: i64, nanos: u32) -> (r: Option<Time>)
    ensures
        match r {
            Some(t) => representable(seconds, nanos) && t == time_of(seconds, nanos),
            None => !representable(seconds, nanos),
        },
{
    match utc_fields(seconds, nanos) {
        Some(f) => Some(
            Time {
                offset: 0,
                year: f.year,
                month: f.month as u8,
                day: f.day as u8,
                hour: f.hour as u8,
                minute: f.minute as u8,
                second: f.second as u8,
                milliseconds: f.nanosecond / 1_000_000,
                nanoseconds: f.nanosecond % 1_000_000,
            },
        ),
        None => None,
    }
}

/// The two sub-second fields of a time add up to the nanoseconds of its
/// instant.
pub proof fn lemma_subsecond_is_counted_once(seconds: i64, nanos: u32)
    ensures
        time_of(seconds, nanos).milliseconds * 1_000_000 + time_of(seconds, nanos).nanoseconds
            == nanos,
        time_of(seconds, nanos).nanoseconds < 1_000_000,
{
}

/// What a read reports.
pub open spec fn read_of(
    document: Seq<u8>,
    flags: u32,
    cas: u64,
    expires_at: Option<Time>,
) -> GetView {
    GetView { document, flags, cas, expires_in_ns: None, expires_at }
}

/// What a read reports.
pub fn get_result(document: Vec<u8>, flags: u32, cas: u64, expires_at: Option<Time>) -> (r:
    DocumentGetResult)
    ensures
        r@ == read_of(document@, flags, cas, expires_at),
{
    DocumentGetResult { document, flags, cas, expires_in_ns: None, expires_at }
}

/// The first of two refusals, or what is done when there is neither.
pub open spec fn after<S>(first: Option<ErrorView>, second: Option<ErrorView>, settings: S) -> Result<
    S,
    ErrorView,
> {
    match (first, second) {
        (Some(e), _) => Err(e),
        (None, Some(e)) => Err(e),
        (None, None) => Ok(settings),
    }
}

/// The contents of decided settings.
pub open spec fn decided<S>(r: Result<(&Binding, S), DocumentError>) -> Result<S, ErrorView> {
    match r {
        Ok((_, s)) => Ok(s),
        Err(e) => Err(e@),
    }
}

/// Whether a decided operation goes out with the caller's own binding.
pub open spec fn is_callers<S>(
    r: Result<(&Binding, S), DocumentError>,
    bound: Map<Seq<char>, Binding>,
    workload: Seq<char>,
) -> bool {
    match r {
        Ok((b, _)) => bound.contains_key(workload) && *b == bound[workload],
        Err(_) => true,
    }
}

/// Flags, or those of JSON.
pub open spec fn flags_or_json(flags: Option<u32>) -> u32 {
    match flags {
        Some(f) => f,
        None => JSON_FLAGS,
    }
}

/// `true`, or unset.
pub open spec fn set_if(b: bool) -> Option<bool> {
    if b {
        Some(true)
    } else {
        None
    }
}

/// A CAS, or unset for zero.
pub open spec fn cas_if(cas: u64) -> Option<u64> {
    if cas == 0 {
        None
    } else {
        Some(cas)
    }
}

/// The settings of a write whose options are not given.
pub open spec fn default_write(own: u32) -> WriteSettings {
    WriteSettings {
        flags: JSON_FLAGS,
        expiry: None,
        durability: None,
        preserve_expiry: None,
        cas: None,
        deadline_ms: own,
    }
}

/// What `insert` does.
pub open spec fn insert_of(
    caller: Option<ErrorView>,
    own: u32,
    options: Option<DocumentInsertOptions>,
) -> Result<WriteSettings, ErrorView> {
    match options {
        Some(o) => after(
            caller,
            unhonoured(o.persist_to, o.replicate_to),
            WriteSettings {
                flags: flags_or_json(o.flags),
                expiry: expiry_of(o.expires_in_ns),
                durability: durability_of(o.durability_level),
                preserve_expiry: None,
                cas: None,
                deadline_ms: deadline_of(own, o.timeout_ns),
            },
        ),
        None => after(caller, None, default_write(own)),
    }
}

/// Decide an `insert`.
pub fn insert<'a>(
    bound: &'a Workloads<Binding>,
    workload: &str,
    options: Option<&DocumentInsertOptions>,
) -> (r: Result<(&'a Binding, WriteSettings), DocumentError>)
    ensures
        decided(r) == insert_of(
            bindings::caller_error(bound@, workload@),
            bound@[workload@].timeout_ms,
            match options {
                Some(o) => Some(*o),
                None => None,
            },
        ),
        is_callers(r, bound@, workload@),
{
    let binding = match bindings::caller_binding(bound, workload) {
        Ok(binding) => binding,
        Err(e) => return Err(e),
    };
    match options {
        Some(o) => {
            let deadline_ms = effective_timeout_ms(binding, o.timeout_ns);
            match reject_unhonoured(o.persist_to, o.replicate_to) {
                Ok(_) => {},
                Err(e) => return Err(e),
            }
            let flags = match o.flags {
                Some(f) => f,
                None => JSON_FLAGS,
            };
            Ok(
                (
                    binding,
                    WriteSettings {
                        flags,
                        expiry: expiry(o.expires_in_ns),
                        durability: durability(o.durability_level),
                        preserve_expiry: None,
                        cas: None,
                        deadline_ms,
                    },
                ),
            )
        },
        None => Ok(
            (
                binding,
                WriteSettings {
                    flags: JSON_FLAGS,
                    expiry: None,
                    durability: None,
                    preserve_expiry: None,
                    cas: None,
                    deadline_ms: binding.timeout_ms,
                },
            ),
        ),
    }
}

/// What `upsert` does.
pub open spec fn upsert_of(
    caller: Option<ErrorView>,
    own: u32,
    options: Option<DocumentUpsertOptions>,
) -> Result<WriteSettings, ErrorView> {
    match options {
        Some(o) => after(
            caller,
            unhonoured(o.persist_to, o.replicate_to),
            WriteSettings {
                flags: flags_or_json(o.flags),
                expiry: expiry_of(o.expires_in_ns),
                durability: durability_of(o.durability_level),
                preserve_expiry: set_if(o.preserve_expiry),
                cas: None,
                deadline_ms: deadline_of(own, o.timeout_ns),
            },
        ),
        None => after(caller, None, default_write(own)),
    }
}

/// Decide an `upsert`.
pub fn upsert<'a>(
    bound: &'a Workloads<Binding>,
    workload: &str,
    options: Option<&DocumentUpsertOptions>,
) -> (r: Result<(&'a Binding, WriteSettings), DocumentError>)
    ensures
        decided(r) == upsert_of(
            bindings::caller_error(bound@, workload@),
            bound@[workload@].timeout_ms,
            match options {
                Some(o) => Some(*o),
                None => None,
            },
        ),
        is_callers(r, bound@, workload@),
{
    let binding = match bindings::caller_binding(bound, workload) {
        Ok(binding) => binding,
        Err(e) => return Err(e),
    };
    match options {
        Some(o) => {
            let deadline_ms = effective_timeout_ms(binding, o.timeout_ns);
            match reject_unhonoured(o.persist_to, o.replicate_to) {
                Ok(_) => {},
                Err(e) => return Err(e),
            }
            let flags = match o.flags {
                Some(f) => f,
                None => JSON_FLAGS,
            };
            Ok(
                (
                    binding,
                    WriteSettings {
                        flags,
                        expiry: expiry(o.expires_in_ns),
                        durability: durability(o.durability_level),
                        preserve_expiry: if o.preserve_expiry {
                            Some(true)
                        } else {
                            None
                        },
                        cas: None,
                        deadline_ms,
                    },
                ),
            )
        },
        None => Ok(
            (
                binding,
                WriteSettings {
                    flags: JSON_FLAGS,
                    expiry: None,
                    durability: None,
                    preserve_expiry: None,
                    cas: None,
                    deadline_ms: binding.timeout_ms,
                },
            ),
        ),
    }
}

/// What `replace` does.
pub open spec fn replace_of(
    caller: Option<ErrorView>,
    own: u32,
    options: Option<DocumentReplaceOptions>,
) -> Result<WriteSettings, ErrorView> {
    match options {
        Some(o) => after(
            caller,
            unhonoured(o.persist_to, o.replicate_to),
            WriteSettings {
                flags: flags_or_json(o.flags),
                expiry: expiry_of(o.expires_in_ns),
                durability: durability_of(o.durability_level),
                preserve_expiry: set_if(o.preserve_expiry),
                cas: cas_if(o.cas),
                deadline_ms: deadline_of(own, o.timeout_ns),
            },
        ),
        None => after(caller, None, default_write(own)),
    }
}

/// Decide a `replace`.
pub fn replace<'a>(
    bound: &'a Workloads<Binding>,
    workload: &str,
    options: Option<&DocumentReplaceOptions>,
) -> (r: Result<(&'a Binding, WriteSettings), DocumentError>)
    ensures
        decided(r) == replace_of(
            bindings::caller_error(bound@, workload@),
            bound@[workload@].timeout_ms,
            match options {
                Some(o) => Some(*o),
                None => None,
            },
        ),
        is_callers(r, bound@, workload@),
{
    let binding = match bindings::caller_binding(bound, workload) {
        Ok(binding) => binding,
        Err(e) => return Err(e),
    };
    match options {
        Some(o) => {
            let deadline_ms = effective_timeout_ms(binding, o.timeout_ns);
            match reject_unhonoured(o.persist_to, o.replicate_to) {
                Ok(_) => {},
                Err(e) => return Err(e),
            }
            let flags = match o.flags {
                Some(f) => f,
                None => JSON_FLAGS,
            };
            Ok(
                (
                    binding,
                    WriteSettings {
                        flags,
                        expiry: expiry(o.expires_in_ns),
                        durability: durability(o.durability_level),
                        preserve_expiry: if o.preserve_expiry {
                            Some(true)
                        } else {
                            None
                        },
                        cas: if o.cas == 0 {
                            None
                        } else {
                            Some(o.cas)
                        },
                        deadline_ms,
                    },
                ),
            )
        },
        None => Ok(
            (
                binding,
                WriteSettings {
                    flags: JSON_FLAGS,
                    expiry: None,
                    durability: None,
                    preserve_expiry: None,
                    cas: None,
                    deadline_ms: binding.timeout_ms,
                },
            ),
        ),
    }
}

/// What `remove` does. A delete stores nothing, so its flags and expiry mean
/// nothing.
pub open spec fn remove_of(
    caller: Option<ErrorView>,
    own: u32,
    options: Option<DocumentRemoveOptions>,
) -> Result<WriteSettings, ErrorView> {
    match options {
        Some(o) => after(
            caller,
            unhonoured(o.persist_to, o.replicate_to),
            WriteSettings {
                flags: JSON_FLAGS,
                expiry: None,
                durability: durability_of(o.durability_level),
                preserve_expiry: None,
                cas: cas_if(o.cas),
                deadline_ms: deadline_of(own, o.timeout_ns),
            },
        ),
        None => after(caller, None, default_write(own)),
    }
}

/// Decide a `remove`.
pub fn remove<'a>(
    bound: &'a Workloads<Binding>,
    workload: &str,
    options: Option<&DocumentRemoveOptions>,
) -> (r: Result<(&'a Binding, WriteSettings), DocumentError>)
    ensures
        decided(r) == remove_of(
            bindings::caller_error(bound@, workload@),
            bound@[workload@].timeout_ms,
            match options {
                Some(o) => Some(*o),
                None => None,
            },
        ),
        is_callers(r, bound@, workload@),
{
    let binding = match bindings::caller_binding(bound, workload) {
        Ok(binding) => binding,
        Err(e) => return Err(e),
    };
    match options {
        Some(o) => {
            let deadline_ms = effective_timeout_ms(binding, o.timeout_ns);
            match reject_unhonoured(o.persist_to, o.replicate_to) {
                Ok(_) => {},
                Err(e) => return Err(e),
            }
            Ok(
                (
                    binding,
                    WriteSettings {
                        flags: JSON_FLAGS,
                        expiry: None,
                        durability: durability(o.durability_level),
                        preserve_expiry: None,
                        cas: if o.cas == 0 {
                            None
                        } else {
                            Some(o.cas)
                        },
                        deadline_ms,
                    },
                ),
            )
        },
        None => Ok(
            (
                binding,
                WriteSettings {
                    flags: JSON_FLAGS,
                    expiry: None,
                    durability: None,
                    preserve_expiry: None,
                    cas: None,
                    deadline_ms: binding.timeout_ms,
                },
            ),
        ),
    }
}

/// The paths of a projection that are not empty, or none when all are.
pub open spec fn projections_of(paths: Option<Seq<Seq<char>>>) -> Option<Seq<Seq<char>>> {
    match paths {
        Some(p) => {
            let kept = text::nonempty(p);
            if kept.len() > 0 {
                Some(kept)
            } else {
                None
            }
        },
        None => None,
    }
}

/// What `get` does. Projection and expiry are the SDK's own: doing that here
/// would be a second copy of Couchbase's path rules.
pub open spec fn get_of(
    caller: Option<ErrorView>,
    own: u32,
    options: Option<DocumentGetOptions>,
) -> Result<ReadView, ErrorView> {
    match options {
        Some(o) => after(
            caller,
            no_replica(o.use_replica),
            ReadView {
                projections: projections_of(
                    match o.project {
                        Some(p) => Some(text::texts(p@)),
                        None => None,
                    },
                ),
                expiry: set_if(o.with_expiry),
                deadline_ms: deadline_of(own, o.timeout_ns),
            },
        ),
        None => after(
            caller,
            None,
            ReadView { projections: None, expiry: None, deadline_ms: own },
        ),
    }
}

/// Decide a `get`.
pub fn get<'a>(
    bound: &'a Workloads<Binding>,
    workload: &str,
    options: Option<&DocumentGetOptions>,
) -> (r: Result<(&'a Binding, ReadSettings), DocumentError>)
    ensures
        (match r {
            Ok((_, s)) => Ok(s@),
            Err(e) => Err(e@),
        }) == get_of(
            bindings::caller_error(bound@, workload@),
            bound@[workload@].timeout_ms,
            match options {
                Some(o) => Some(*o),
                None => None,
            },
        ),
        is_callers(r, bound@, workload@),
{
    let binding = match bindings::caller_binding(bound, workload) {
        Ok(binding) => binding,
        Err(e) => return Err(e),
    };
    match options {
        Some(o) => {
            let deadline_ms = effective_timeout_ms(binding, o.timeout_ns);
            let projections = match &o.project {
                Some(p) => {
                    let kept = text::nonempty_texts(p);
                    assert(text::texts(kept@).len() == kept@.len());
                    if kept.len() > 0 {
                        Some(kept)
                    } else {
                        None
                    }
                },
                None => None,
            };
            match reject_replica_read(o.use_replica) {
                Ok(_) => {},
                Err(e) => return Err(e),
            }
            Ok(
                (
                    binding,
                    ReadSettings {
                        projections,
                        expiry: if o.with_expiry {
                            Some(true)
                        } else {
                            None
                        },
                        deadline_ms,
                    },
                ),
            )
        },
        None => Ok(
            (
                binding,
                ReadSettings { projections: None, expiry: None, deadline_ms: binding.timeout_ms },
            ),
        ),
    }
}

/// What `get-and-lock` does. A lock time of zero means the default: rounding it
/// up to one second would hand back a lock that lapses almost at once.
pub open spec fn get_and_lock_of(
    caller: Option<ErrorView>,
    own: u32,
    lock_time: u64,
    timeout_ns: Option<u64>,
) -> Result<NumberSettings, ErrorView> {
    after(
        caller,
        None,
        NumberSettings {
            value: if lock_time == 0 {
                DEFAULT_LOCK_SECONDS
            } else {
                number::ceil_div(lock_time as nat, 1_000_000_000) as u64
            },
            deadline_ms: deadline_of(own, timeout_ns),
        },
    )
}

/// What `get-and-lock` does with its options.
pub open spec fn locking_of(
    caller: Option<ErrorView>,
    own: u32,
    options: Option<DocumentGetAndLockOptions>,
) -> Result<NumberSettings, ErrorView> {
    match options {
        Some(o) => get_and_lock_of(caller, own, o.lock_time, o.timeout_ns),
        None => get_and_lock_of(caller, own, 0, None),
    }
}

/// Decide a `get-and-lock`: the lock time in seconds.
pub fn get_and_lock<'a>(
    bound: &'a Workloads<Binding>,
    workload: &str,
    options: Option<&DocumentGetAndLockOptions>,
) -> (r: Result<(&'a Binding, NumberSettings), DocumentError>)
    ensures
        decided(r) == locking_of(
            bindings::caller_error(bound@, workload@),
            bound@[workload@].timeout_ms,
            match options {
                Some(o) => Some(*o),
                None => None,
            },
        ),
        is_callers(r, bound@, workload@),
{
    let binding = match bindings::caller_binding(bound, workload) {
        Ok(binding) => binding,
        Err(e) => return Err(e),
    };
    let (lock_time, timeout) = match options {
        Some(o) => (o.lock_time, o.timeout_ns),
        None => (0, None),
    };
    let value = if lock_time == 0 {
        DEFAULT_LOCK_SECONDS
    } else {
        number::seconds(lock_time)
    };
    Ok((binding, NumberSettings { value, deadline_ms: effective_timeout_ms(binding, timeout) }))
}

/// What `unlock` does.
pub open spec fn unlock_of(
    caller: Option<ErrorView>,
    own: u32,
    cas: u64,
    timeout_ns: Option<u64>,
) -> Result<NumberSettings, ErrorView> {
    after(
        caller,
        if cas == 0 {
            Some(ErrorView::InvalidArgument("unlock needs the CAS returned by get-and-lock"@))
        } else {
            None
        },
        NumberSettings { value: cas, deadline_ms: deadline_of(own, timeout_ns) },
    )
}

/// What `unlock` does with its options.
pub open spec fn unlocking_of(
    caller: Option<ErrorView>,
    own: u32,
    options: Option<DocumentUnlockOptions>,
) -> Result<NumberSettings, ErrorView> {
    match options {
        Some(o) => unlock_of(caller, own, o.cas, o.timeout_ns),
        None => unlock_of(caller, own, 0, None),
    }
}

/// Decide an `unlock`: the CAS of the lock.
pub fn unlock<'a>(
    bound: &'a Workloads<Binding>,
    workload: &str,
    options: Option<&DocumentUnlockOptions>,
) -> (r: Result<(&'a Binding, NumberSettings), DocumentError>)
    ensures
        decided(r) == unlocking_of(
            bindings::caller_error(bound@, workload@),
            bound@[workload@].timeout_ms,
            match options {
                Some(o) => Some(*o),
                None => None,
            },
        ),
        is_callers(r, bound@, workload@),
{
    let binding = match bindings::caller_binding(bound, workload) {
        Ok(binding) => binding,
        Err(e) => return Err(e),
    };
    let (cas, timeout) = match options {
        Some(o) => (o.cas, o.timeout_ns),
        None => (0, None),
    };
    if cas == 0 {
        return Err(
            DocumentError::InvalidArgument(
                "unlock needs the CAS returned by get-and-lock".to_string(),
            ),
        );
    }
    Ok(
        (
            binding,
            NumberSettings { value: cas, deadline_ms: effective_timeout_ms(binding, timeout) },
        ),
    )
}

/// What an operation that sets a time to live does; `refusal` is what it says
/// when there is none.
pub open spec fn touch_of(
    caller: Option<ErrorView>,
    own: u32,
    expires_in: u64,
    timeout_ns: Option<u64>,
    refusal: Seq<char>,
) -> Result<NumberSettings, ErrorView> {
    after(
        caller,
        if expires_in == 0 {
            Some(ErrorView::InvalidArgument(refusal))
        } else {
            None
        },
        NumberSettings {
            value: number::ceil_div(expires_in as nat, 1_000_000_000) as u64,
            deadline_ms: deadline_of(own, timeout_ns),
        },
    )
}

fn decide_touch<'a>(
    bound: &'a Workloads<Binding>,
    workload: &str,
    expires_in: u64,
    timeout_ns: Option<u64>,
    refusal: &str,
) -> (r: Result<(&'a Binding, NumberSettings), DocumentError>)
    ensures
        decided(r) == touch_of(
            bindings::caller_error(bound@, workload@),
            bound@[workload@].timeout_ms,
            expires_in,
            timeout_ns,
            refusal@,
        ),
        is_callers(r, bound@, workload@),
{
    let binding = match bindings::caller_binding(bound, workload) {
        Ok(binding) => binding,
        Err(e) => return Err(e),
    };
    match expiry(expires_in) {
        Some(value) => Ok(
            (
                binding,
                NumberSettings { value, deadline_ms: effective_timeout_ms(binding, timeout_ns) },
            ),
        ),
        None => Err(DocumentError::InvalidArgument(refusal.to_string())),
    }
}

/// What `touch` does with its options.
pub open spec fn touching_of(
    caller: Option<ErrorView>,
    own: u32,
    options: Option<DocumentTouchOptions>,
) -> Result<NumberSettings, ErrorView> {
    match options {
        Some(o) => touch_of(caller, own, o.expires_in, o.timeout_ns, "touch requires a non-zero expires-in; clear an expiry with `upsert` and expires-in-ns 0"@),
        None => touch_of(caller, own, 0, None, "touch requires a non-zero expires-in; clear an expiry with `upsert` and expires-in-ns 0"@),
    }
}

/// Decide a `touch`: the time to live in seconds.
pub fn touch<'a>(
    bound: &'a Workloads<Binding>,
    workload: &str,
    options: Option<&DocumentTouchOptions>,
) -> (r: Result<(&'a Binding, NumberSettings), DocumentError>)
    ensures
        decided(r) == touching_of(
            bindings::caller_error(bound@, workload@),
            bound@[workload@].timeout_ms,
            match options {
                Some(o) => Some(*o),
                None => None,
            },
        ),
        is_callers(r, bound@, workload@),
{
    let (expires_in, timeout) = match options {
        Some(o) => (o.expires_in, o.timeout_ns),
        None => (0, None),
    };
    decide_touch(
        bound,
        workload,
        expires_in,
        timeout,
        "touch requires a non-zero expires-in; clear an expiry with `upsert` and expires-in-ns 0",
    )
}

/// What `get-and-touch` does with its options.
pub open spec fn getting_and_touching_of(
    caller: Option<ErrorView>,
    own: u32,
    options: Option<DocumentGetAndTouchOptions>,
) -> Result<NumberSettings, ErrorView> {
    match options {
        Some(o) => touch_of(caller, own, o.expires_in, o.timeout_ns, "get-and-touch requires a non-zero expires-in"@),
        None => touch_of(caller, own, 0, None, "get-and-touch requires a non-zero expires-in"@),
    }
}

/// Decide a `get-and-touch`: the time to live in seconds.
pub fn get_and_touch<'a>(
    bound: &'a Workloads<Binding>,
    workload: &str,
    options: Option<&DocumentGetAndTouchOptions>,
) -> (r: Result<(&'a Binding, NumberSettings), DocumentError>)
    ensures
        decided(r) == getting_and_touching_of(
            bindings::caller_error(bound@, workload@),
            bound@[workload@].timeout_ms,
            match options {
                Some(o) => Some(*o),
                None => None,
            },
        ),
        is_callers(r, bound@, workload@),
{
    let (expires_in, timeout) = match options {
        Some(o) => (o.expires_in, o.timeout_ns),
        None => (0, None),
    };
    decide_touch(
        bound,
        workload,
        expires_in,
        timeout,
        "get-and-touch requires a non-zero expires-in",
    )
}

/// An option that this transport cannot honour is refused, whoever calls and
/// whatever else the options say.
pub proof fn lemma_unhonoured_is_refused(
    caller: Option<ErrorView>,
    own: u32,
    insert: DocumentInsertOptions,
    upsert: DocumentUpsertOptions,
    replace: DocumentReplaceOptions,
    remove: DocumentRemoveOptions,
    get: DocumentGetOptions,
)
    ensures
        insert.persist_to != 0 || insert.replicate_to != 0 ==> insert_of(
            caller,
            own,
            Some(insert),
        ) is Err,
        upsert.persist_to != 0 || upsert.replicate_to != 0 ==> upsert_of(
            caller,
            own,
            Some(upsert),
        ) is Err,
        replace.persist_to != 0 || replace.replicate_to != 0 ==> replace_of(
            caller,
            own,
            Some(replace),
        ) is Err,
        remove.persist_to != 0 || remove.replicate_to != 0 ==> remove_of(
            caller,
            own,
            Some(remove),
        ) is Err,
        get.use_replica == Some(ReplicaReadLevel::On) ==> get_of(caller, own, Some(get)) is Err,
{
}

/// Without a binding the SDK is not called, whatever the options say.
pub proof fn lemma_unbound_caller_is_refused(
    caller: ErrorView,
    own: u32,
    insert: Option<DocumentInsertOptions>,
    upsert: Option<DocumentUpsertOptions>,
    replace: Option<DocumentReplaceOptions>,
    remove: Option<DocumentRemoveOptions>,
    get: Option<DocumentGetOptions>,
    number: u64,
    timeout_ns: Option<u64>,
    refusal: Seq<char>,
)
    ensures
        insert_of(Some(caller), own, insert) == Err::<WriteSettings, ErrorView>(caller),
        upsert_of(Some(caller), own, upsert) == Err::<WriteSettings, ErrorView>(caller),
        replace_of(Some(caller), own, replace) == Err::<WriteSettings, ErrorView>(caller),
        remove_of(Some(caller), own, remove) == Err::<WriteSettings, ErrorView>(caller),
        get_of(Some(caller), own, get) == Err::<ReadView, ErrorView>(caller),
        get_and_lock_of(Some(caller), own, number, timeout_ns) == Err::<NumberSettings, ErrorView>(
            caller,
        ),
        unlock_of(Some(caller), own, number, timeout_ns) == Err::<NumberSettings, ErrorView>(
            caller,
        ),
        touch_of(Some(caller), own, number, timeout_ns, refusal) == Err::<
            NumberSettings,
            ErrorView,
        >(caller),
{
}

/// A time to live or a lock that is asked for is never rounded down to none.
pub proof fn lemma_seconds_are_never_lost(ns: u64)
    requires
        ns > 0,
    ensures
        expiry_of(ns) matches Some(s) && s > 0 && s as int * 1_000_000_000 >= ns,
{
    number::lemma_rounding_keeps_a_limit(ns, 1_000_000_000);
}

} // verus!
