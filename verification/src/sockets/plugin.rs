//! What the socket transport does with each operation of the interface.
//!
//! An operation has three parts. First it is decided from the caller and the
//! options, which gives an [`Operation`] or an error. Then its frame is made
//! for the connection that it goes out on. Last, the reply is turned into what
//! the caller gets.

use vstd::prelude::*;
use vstd::string::*;

use crate::bindings;
use crate::bindings::Workloads;
use crate::number;
use crate::settings;
use crate::sockets::config;
use crate::sockets::config::{Binding, BindingView};
use crate::sockets::conn;
use crate::sockets::conn::{Connection, Reply, ReplyView};
use crate::sockets::op;
use crate::sockets::project;
use crate::sockets::proto;
use crate::sockets::status;
use crate::text;
use crate::types;
use crate::types::{
    DocumentError, DocumentGetAndLockOptions, DocumentGetAndTouchOptions, DocumentGetOptions,
    DocumentGetResult, DocumentInsertOptions, DocumentRemoveOptions, DocumentReplaceOptions,
    DocumentTouchOptions, DocumentUnlockOptions, DocumentUpsertOptions, ErrorView, GetView,
    MutationMetadata, MutationView, ReplicaReadLevel, Time, WorkloadInfo,
};
use crate::wire;

verus! {

/// What the server uses when a lock request names no duration.
pub const DEFAULT_LOCK_SECONDS: u32 = 15;

/// One request, apart from the document it concerns.
pub struct Operation {
    pub opcode: u8,
    pub extras: Vec<u8>,
    pub cas: u64,
    /// The paths to select out of the document that a read returns.
    pub paths: Vec<String>,
    /// Whether a read also reports the expiry.
    pub with_expiry: bool,
}

/// The contents of an [`Operation`].
pub struct OperationView {
    pub opcode: u8,
    pub extras: Seq<u8>,
    pub cas: u64,
    pub paths: Seq<Seq<char>>,
    pub with_expiry: bool,
}

impl View for Operation {
    type V = OperationView;

    open spec fn view(&self) -> OperationView {
        OperationView {
            opcode: self.opcode,
            extras: self.extras@,
            cas: self.cas,
            paths: text::texts(self.paths@),
            with_expiry: self.with_expiry,
        }
    }
}

/// What a workload is to be bound with: nothing when it does not use the
/// interface, its validated binding, or why its configuration is refused.
pub open spec fn bound_by(workload: WorkloadInfo) -> Result<Option<BindingView>, Seq<char>> {
    match bindings::served(workload.interfaces@) {
        None => Ok(None),
        Some(i) => match config::binding_in(settings::pairs(i.config@)) {
            Ok(b) => Ok(Some(b)),
            Err(reason) => Err(
                bindings::refusal(workload.name@, workload.namespace@, reason),
            ),
        },
    }
}

/// The binding of a workload that is being announced.
pub fn on_workload_bind(workload: &WorkloadInfo) -> (r: Result<Option<Binding>, String>)
    ensures
        match r {
            Ok(None) => bound_by(*workload) == Ok::<Option<BindingView>, Seq<char>>(None),
            Ok(Some(b)) => bound_by(*workload) == Ok::<Option<BindingView>, Seq<char>>(Some(b@)),
            Err(e) => bound_by(*workload) == Err::<Option<BindingView>, Seq<char>>(e@),
        },
{
    match bindings::couchbase_interface(workload) {
        None => Ok(None),
        Some(i) => match Binding::from_config(i.config.as_slice()) {
            Ok(b) => Ok(Some(b)),
            Err(reason) => Err(bindings::refusal_message(workload, reason.as_str())),
        },
    }
}

/// The place that a binding points at, as messages show it.
pub open spec fn node_text(b: BindingView) -> Seq<char> {
    b.host + ":"@ + number::decimal(b.port as nat)
}

/// What a deploy shows when the first connection fails.
pub fn connect_failure(workload: &WorkloadInfo, binding: &Binding, reason: &str) -> (s: String)
    ensures
        s@ == bindings::unreachable_text(workload.name@, node_text(binding@), reason@),
{
    let port = number::decimal_text(binding.port as u64);
    let node = text::joined3(binding.host.as_str(), ":", port.as_str());
    bindings::unreachable_message(workload, node.as_str(), reason)
}

/// What is said when a host's name cannot be looked up.
pub fn resolve_failure(binding: &Binding, reason: &str) -> (s: String)
    ensures
        s@ == "could not resolve `"@ + binding.host@ + "`: "@ + reason@,
{
    let mut s = text::joined3("could not resolve `", binding.host.as_str(), "`: ");
    s.append(reason);
    s
}

/// The address to connect to, out of those that a host's name resolved to.
pub fn first_address<A>(binding: &Binding, addresses: Vec<A>) -> (r: Result<A, String>)
    ensures
        match r {
            Ok(a) => addresses@.len() > 0 && a == addresses@[0],
            Err(e) => addresses@.len() == 0 && e@ == "`"@ + binding.host@
                + "` resolved to no addresses"@,
        },
{
    let mut addresses = addresses;
    if addresses.len() == 0 {
        return Err(text::joined3("`", binding.host.as_str(), "` resolved to no addresses"));
    }
    Ok(addresses.remove(0))
}

/// Whether a connection can serve another call after this outcome. One that
/// failed in transit may have lost its place in the stream: its next reply
/// could be the previous call's.
pub open spec fn keeps_connection(error: Option<ErrorView>) -> bool {
    match error {
        Some(ErrorView::Other(_)) => false,
        Some(ErrorView::RequestFailed(_)) => false,
        _ => true,
    }
}

/// Whether a connection can serve another call after this error.
pub fn reusable(error: Option<&DocumentError>) -> (b: bool)
    ensures
        b == keeps_connection(
            match error {
                Some(e) => Some(e@),
                None => None,
            },
        ),
{
    match error {
        Some(DocumentError::Other(_)) => false,
        Some(DocumentError::RequestFailed(_)) => false,
        _ => true,
    }
}

/// What a status means for a document operation. `EXISTS` is a stale CAS when
/// the request carried one, and a conflict with a live document when not.
pub open spec fn status_error(code: u16, had_cas: bool) -> ErrorView {
    if code == status::NOT_FOUND {
        ErrorView::NotFound
    } else if code == status::EXISTS {
        if had_cas {
            ErrorView::CasMismatch
        } else {
            ErrorView::AlreadyExists
        }
    } else if code == status::NOT_STORED {
        ErrorView::NotFound
    } else if code == status::LOCKED {
        ErrorView::Locked
    } else if code == status::NOT_LOCKED {
        ErrorView::NotLocked
    } else if code == status::AUTH_ERROR {
        ErrorView::Unauthorized
    } else if code == status::TOO_LARGE {
        ErrorView::InvalidArgument("the document is larger than the cluster allows"@)
    } else if code == status::DELTA_BAD_VALUE {
        ErrorView::InvalidArgument("the document is not a number"@)
    } else if code == status::UNKNOWN_COLLECTION {
        ErrorView::NotConfigured("the bound scope or collection no longer exists"@)
    } else if code == status::NOT_MY_VBUCKET {
        ErrorView::Other(
            "the cluster moved this vbucket to another node; this plugin does not follow a rebalance"@,
        )
    } else if code == status::UNKNOWN_COMMAND || code == status::NOT_SUPPORTED {
        ErrorView::Unsupported("the cluster does not support this operation"@)
    } else {
        ErrorView::Other("Couchbase status 0x"@ + conn::status_text(code))
    }
}

/// Map a KV status onto the interface's error model.
///
/// `had_cas` disambiguates `EXISTS`, which the protocol returns both for an
/// `ADD` over a live key and for any write whose CAS did not match. Without it
/// a stale-CAS `replace` would report as `already-exists`, sending the caller
/// to retry a conflict that is really a lost update.
pub fn to_document_error(code: u16, had_cas: bool) -> (e: DocumentError)
    ensures
        e@ == status_error(code, had_cas),
{
    if code == status::NOT_FOUND {
        DocumentError::NotFound
    } else if code == status::EXISTS {
        if had_cas {
            DocumentError::CasMismatch
        } else {
            DocumentError::AlreadyExists
        }
    } else if code == status::NOT_STORED {
        DocumentError::NotFound
    } else if code == status::LOCKED {
        DocumentError::Locked
    } else if code == status::NOT_LOCKED {
        DocumentError::NotLocked
    } else if code == status::AUTH_ERROR {
        DocumentError::Unauthorized
    } else if code == status::TOO_LARGE {
        DocumentError::InvalidArgument("the document is larger than the cluster allows".to_string())
    } else if code == status::DELTA_BAD_VALUE {
        DocumentError::InvalidArgument("the document is not a number".to_string())
    } else if code == status::UNKNOWN_COLLECTION {
        DocumentError::NotConfigured("the bound scope or collection no longer exists".to_string())
    } else if code == status::NOT_MY_VBUCKET {
        DocumentError::Other(
            "the cluster moved this vbucket to another node; this plugin does not follow a rebalance".to_string(),
        )
    } else if code == status::UNKNOWN_COMMAND || code == status::NOT_SUPPORTED {
        DocumentError::Unsupported("the cluster does not support this operation".to_string())
    } else {
        let code = number::hex_text(code as u64, 4);
        DocumentError::Other(text::joined("Couchbase status 0x", code.as_str()))
    }
}

/// The expiry of a write in whole seconds: rounded up, and no more than the
/// protocol can carry. Zero means no expiry.
pub open spec fn expiry_of(expires_in_ns: u64) -> u32 {
    number::at_most(number::ceil_div(expires_in_ns as nat, 1_000_000_000), u32::MAX as nat) as u32
}

/// Couchbase expiries are whole seconds, so a sub-second value rounds up rather
/// than to zero, which would mean "no expiry".
pub fn expiry_seconds(expires_in_ns: u64) -> (s: u32)
    ensures
        s == expiry_of(expires_in_ns),
{
    number::seconds32(expires_in_ns)
}

/// A document asked to expire always expires.
pub proof fn lemma_expiry_is_never_lost(expires_in_ns: u64)
    ensures
        expiry_of(expires_in_ns) == 0 <==> expires_in_ns == 0,
{
    if expires_in_ns > 0 {
        number::lemma_rounding_keeps_a_limit(expires_in_ns, 1_000_000_000);
    }
}

/// What a write reports.
pub open spec fn mutation_of(bucket: Seq<char>, vbucket: u16, cas: u64, extras: Seq<u8>) -> MutationView {
    let (uuid, seq) = match proto::token_in(extras) {
        Some(token) => token,
        None => (0u64, 0u64),
    };
    MutationView {
        cas,
        bucket,
        partition_id: vbucket as u64,
        partition_uuid: uuid,
        seq,
        raw_token: None,
    }
}

/// Build the mutation metadata a write reports.
pub fn mutation(binding: &Binding, vbucket: u16, cas: u64, extras: &[u8]) -> (m: MutationMetadata)
    ensures
        m@ == mutation_of(binding.bucket@, vbucket, cas, extras@),
{
    let (uuid, seq) = match proto::parse_mutation_token(extras) {
        Some(token) => token,
        None => (0, 0),
    };
    MutationMetadata {
        cas,
        bucket: binding.bucket.clone(),
        partition_id: vbucket as u64,
        partition_uuid: uuid,
        seq,
        raw_token: None,
    }
}

/// Why durability settings are refused, if they are.
pub open spec fn unhonoured(persist_to: u64, replicate_to: u64) -> Option<ErrorView> {
    if persist_to != 0 || replicate_to != 0 {
        Some(
            ErrorView::Unsupported(
                "persist-to/replicate-to are the pre-6.0 durability settings; use `durability-level`"@,
            ),
        )
    } else {
        None
    }
}

/// Refuse the pre-6.0 durability settings, which are not sent. Accepting them
/// would promise a durability that the write never had.
pub fn reject_unhonoured(persist_to: u64, replicate_to: u64) -> (r: Result<(), DocumentError>)
    ensures
        match r {
            Ok(_) => unhonoured(persist_to, replicate_to) is None,
            Err(e) => unhonoured(persist_to, replicate_to) == Some(e@),
        },
{
    if persist_to != 0 || replicate_to != 0 {
        return Err(
            DocumentError::Unsupported(
                "persist-to/replicate-to are the pre-6.0 durability settings; use `durability-level`".to_string(),
            ),
        );
    }
    Ok(())
}

/// Why `preserve-expiry` is refused, if it is set.
pub open spec fn unpreserved(preserve: bool) -> Option<ErrorView> {
    if preserve {
        Some(
            ErrorView::Unsupported(
                "preserve-expiry is not implemented on this transport; re-apply the TTL with `expires-in-ns`"@,
            ),
        )
    } else {
        None
    }
}

/// Refuse `preserve-expiry`: a plain write clears the document's expiry.
pub fn reject_preserve_expiry(preserve: bool) -> (r: Result<(), DocumentError>)
    ensures
        match r {
            Ok(_) => unpreserved(preserve) is None,
            Err(e) => unpreserved(preserve) == Some(e@),
        },
{
    if preserve {
        return Err(
            DocumentError::Unsupported(
                "preserve-expiry is not implemented on this transport; re-apply the TTL with `expires-in-ns`".to_string(),
            ),
        );
    }
    Ok(())
}

/// Why a replica read is refused, if one is asked for.
pub open spec fn no_replica(level: Option<ReplicaReadLevel>) -> Option<ErrorView> {
    if level == Some(ReplicaReadLevel::On) {
        Some(
            ErrorView::Unsupported(
                "this plugin reads only the active copy; it does not track the replica topology"@,
            ),
        )
    } else {
        None
    }
}

/// Refuse a replica read, which cannot be served.
pub fn reject_replica(level: Option<ReplicaReadLevel>) -> (r: Result<(), DocumentError>)
    ensures
        match r {
            Ok(_) => no_replica(level) is None,
            Err(e) => no_replica(level) == Some(e@),
        },
{
    match level {
        Some(ReplicaReadLevel::On) => Err(
            DocumentError::Unsupported(
                "this plugin reads only the active copy; it does not track the replica topology".to_string(),
            ),
        ),
        _ => Ok(()),
    }
}

/// The flags a read reports.
pub open spec fn flags_in(extras: Seq<u8>) -> u32 {
    if extras.len() >= 4 {
        proto::field(extras, 0, 4) as u32
    } else {
        0
    }
}

/// The flags a read reports, which a `GET` carries in its extras.
pub fn flags_of(extras: &[u8]) -> (flags: u32)
    ensures
        flags == flags_in(extras@),
{
    if extras.len() >= 4 {
        proof {
            wire::lemma_pow256_values();
        }
        wire::read_be(extras, 0, 4) as u32
    } else {
        0
    }
}

/// A write that carries flags and an expiry.
pub open spec fn storing(opcode: u8, flags: Option<u32>, expires_in_ns: u64, cas: u64) -> OperationView {
    let flags = match flags {
        Some(flags) => flags,
        None => proto::JSON_FLAGS,
    };
    OperationView {
        opcode,
        extras: wire::be(flags as nat, 4) + wire::be(expiry_of(expires_in_ns) as nat, 4),
        cas,
        paths: seq![],
        with_expiry: false,
    }
}

/// A request with a body of its own and no answer to take apart.
pub open spec fn plain(opcode: u8, extras: Seq<u8>, cas: u64) -> OperationView {
    OperationView { opcode, extras, cas, paths: seq![], with_expiry: false }
}

/// The first of two refusals, or what is done when there is neither.
pub open spec fn after(
    first: Option<ErrorView>,
    second: Option<ErrorView>,
    operation: OperationView,
) -> Result<OperationView, ErrorView> {
    match (first, second) {
        (Some(e), _) => Err(e),
        (None, Some(e)) => Err(e),
        (None, None) => Ok(operation),
    }
}

fn make(opcode: u8, extras: Vec<u8>, cas: u64) -> (o: Operation)
    ensures
        o@ == plain(opcode, extras@, cas),
{
    let o = Operation { opcode, extras, cas, paths: Vec::new(), with_expiry: false };
    assert(o@.paths =~= seq![]);
    o
}

fn make_store(opcode: u8, flags: Option<u32>, expires_in_ns: u64, cas: u64) -> (o: Operation)
    ensures
        o@ == storing(opcode, flags, expires_in_ns, cas),
{
    let flags = match flags {
        Some(flags) => flags,
        None => proto::JSON_FLAGS,
    };
    let extras = proto::store_extras(flags, expiry_seconds(expires_in_ns));
    make(opcode, extras, cas)
}

fn seconds_extras(seconds: u32) -> (out: Vec<u8>)
    ensures
        out@ == wire::be(seconds as nat, 4),
{
    let mut out: Vec<u8> = Vec::new();
    wire::push_be(&mut out, seconds as u64, 4);
    assert(out@ =~= wire::be(seconds as nat, 4));
    out
}

/// The contents of a decided operation.
pub open spec fn decided(r: Result<(&Binding, Operation), DocumentError>) -> Result<
    OperationView,
    ErrorView,
> {
    match r {
        Ok((_, o)) => Ok(o@),
        Err(e) => Err(e@),
    }
}

/// Whether a decided operation goes out with the caller's own binding.
pub open spec fn is_callers(
    r: Result<(&Binding, Operation), DocumentError>,
    bound: Map<Seq<char>, Binding>,
    workload: Seq<char>,
) -> bool {
    match r {
        Ok((b, _)) => bound.contains_key(workload) && *b == bound[workload],
        Err(_) => true,
    }
}

/// What `insert` does.
pub open spec fn insert_of(
    caller: Option<ErrorView>,
    options: Option<DocumentInsertOptions>,
) -> Result<OperationView, ErrorView> {
    match options {
        Some(o) => after(
            unhonoured(o.persist_to, o.replicate_to),
            caller,
            storing(op::ADD, o.flags, o.expires_in_ns, 0),
        ),
        None => after(None, caller, storing(op::ADD, None, 0, 0)),
    }
}

/// Decide an `insert`.
pub fn insert<'a>(
    bound: &'a Workloads<Binding>,
    workload: &str,
    options: Option<&DocumentInsertOptions>,
) -> (r: Result<(&'a Binding, Operation), DocumentError>)
    ensures
        decided(r) == insert_of(
            bindings::caller_error(bound@, workload@),
            match options {
                Some(o) => Some(*o),
                None => None,
            },
        ),
        is_callers(r, bound@, workload@),
{
    let (flags, expires) = match options {
        Some(o) => {
            match reject_unhonoured(o.persist_to, o.replicate_to) {
                Ok(_) => {},
                Err(e) => return Err(e),
            }
            (o.flags, o.expires_in_ns)
        },
        None => (None, 0),
    };
    match bindings::caller_binding(bound, workload) {
        Ok(binding) => Ok((binding, make_store(op::ADD, flags, expires, 0))),
        Err(e) => Err(e),
    }
}

/// What `upsert` does.
pub open spec fn upsert_of(
    caller: Option<ErrorView>,
    options: Option<DocumentUpsertOptions>,
) -> Result<OperationView, ErrorView> {
    match options {
        Some(o) => match unhonoured(o.persist_to, o.replicate_to) {
            Some(e) => Err(e),
            None => after(
                unpreserved(o.preserve_expiry),
                caller,
                storing(op::SET, o.flags, o.expires_in_ns, 0),
            ),
        },
        None => after(None, caller, storing(op::SET, None, 0, 0)),
    }
}

/// Decide an `upsert`.
pub fn upsert<'a>(
    bound: &'a Workloads<Binding>,
    workload: &str,
    options: Option<&DocumentUpsertOptions>,
) -> (r: Result<(&'a Binding, Operation), DocumentError>)
    ensures
        decided(r) == upsert_of(
            bindings::caller_error(bound@, workload@),
            match options {
                Some(o) => Some(*o),
                None => None,
            },
        ),
        is_callers(r, bound@, workload@),
{
    let (flags, expires) = match options {
        Some(o) => {
            match reject_unhonoured(o.persist_to, o.replicate_to) {
                Ok(_) => {},
                Err(e) => return Err(e),
            }
            match reject_preserve_expiry(o.preserve_expiry) {
                Ok(_) => {},
                Err(e) => return Err(e),
            }
            (o.flags, o.expires_in_ns)
        },
        None => (None, 0),
    };
    match bindings::caller_binding(bound, workload) {
        Ok(binding) => Ok((binding, make_store(op::SET, flags, expires, 0))),
        Err(e) => Err(e),
    }
}

/// What `replace` does.
pub open spec fn replace_of(
    caller: Option<ErrorView>,
    options: Option<DocumentReplaceOptions>,
) -> Result<OperationView, ErrorView> {
    match options {
        Some(o) => match unhonoured(o.persist_to, o.replicate_to) {
            Some(e) => Err(e),
            None => after(
                unpreserved(o.preserve_expiry),
                caller,
                storing(op::REPLACE, o.flags, o.expires_in_ns, o.cas),
            ),
        },
        None => after(None, caller, storing(op::REPLACE, None, 0, 0)),
    }
}

/// Decide a `replace`.
pub fn replace<'a>(
    bound: &'a Workloads<Binding>,
    workload: &str,
    options: Option<&DocumentReplaceOptions>,
) -> (r: Result<(&'a Binding, Operation), DocumentError>)
    ensures
        decided(r) == replace_of(
            bindings::caller_error(bound@, workload@),
            match options {
                Some(o) => Some(*o),
                None => None,
            },
        ),
        is_callers(r, bound@, workload@),
{
    let (flags, expires, cas) = match options {
        Some(o) => {
            match reject_unhonoured(o.persist_to, o.replicate_to) {
                Ok(_) => {},
                Err(e) => return Err(e),
            }
            match reject_preserve_expiry(o.preserve_expiry) {
                Ok(_) => {},
                Err(e) => return Err(e),
            }
            (o.flags, o.expires_in_ns, o.cas)
        },
        None => (None, 0, 0),
    };
    match bindings::caller_binding(bound, workload) {
        Ok(binding) => Ok((binding, make_store(op::REPLACE, flags, expires, cas))),
        Err(e) => Err(e),
    }
}

/// What `get` does.
pub open spec fn get_of(
    caller: Option<ErrorView>,
    options: Option<DocumentGetOptions>,
) -> Result<OperationView, ErrorView> {
    match options {
        Some(o) => after(
            no_replica(o.use_replica),
            caller,
            OperationView {
                opcode: op::GET,
                extras: seq![],
                cas: 0,
                paths: match o.project {
                    Some(paths) => text::nonempty(text::texts(paths@)),
                    None => seq![],
                },
                with_expiry: o.with_expiry,
            },
        ),
        None => after(None, caller, plain(op::GET, seq![], 0)),
    }
}

/// Decide a `get`.
pub fn get<'a>(
    bound: &'a Workloads<Binding>,
    workload: &str,
    options: Option<&DocumentGetOptions>,
) -> (r: Result<(&'a Binding, Operation), DocumentError>)
    ensures
        decided(r) == get_of(
            bindings::caller_error(bound@, workload@),
            match options {
                Some(o) => Some(*o),
                None => None,
            },
        ),
        is_callers(r, bound@, workload@),
{
    let mut operation = make(op::GET, Vec::new(), 0);
    match options {
        Some(o) => {
            match reject_replica(o.use_replica) {
                Ok(_) => {},
                Err(e) => return Err(e),
            }
            match &o.project {
                Some(paths) => {
                    operation.paths = text::nonempty_texts(paths);
                },
                None => {},
            }
            operation.with_expiry = o.with_expiry;
        },
        None => {},
    }
    match bindings::caller_binding(bound, workload) {
        Ok(binding) => Ok((binding, operation)),
        Err(e) => Err(e),
    }
}

/// What `remove` does.
pub open spec fn remove_of(
    caller: Option<ErrorView>,
    options: Option<DocumentRemoveOptions>,
) -> Result<OperationView, ErrorView> {
    match options {
        Some(o) => after(
            caller,
            unhonoured(o.persist_to, o.replicate_to),
            plain(op::DELETE, seq![], o.cas),
        ),
        None => after(caller, None, plain(op::DELETE, seq![], 0)),
    }
}

/// Decide a `remove`.
pub fn remove<'a>(
    bound: &'a Workloads<Binding>,
    workload: &str,
    options: Option<&DocumentRemoveOptions>,
) -> (r: Result<(&'a Binding, Operation), DocumentError>)
    ensures
        decided(r) == remove_of(
            bindings::caller_error(bound@, workload@),
            match options {
                Some(o) => Some(*o),
                None => None,
            },
        ),
        is_callers(r, bound@, workload@),
{
    let binding = match bindings::caller_binding(bound, workload) {
        Ok(binding) => binding,
        Err(e) => return Err(e),
    };
    let cas = match options {
        Some(o) => {
            match reject_unhonoured(o.persist_to, o.replicate_to) {
                Ok(_) => {},
                Err(e) => return Err(e),
            }
            o.cas
        },
        None => 0,
    };
    Ok((binding, make(op::DELETE, Vec::new(), cas)))
}

/// What `touch` does with a time to live.
pub open spec fn touch_of(caller: Option<ErrorView>, expires_in: u64) -> Result<
    OperationView,
    ErrorView,
> {
    after(
        caller,
        if expires_in == 0 {
            Some(
                ErrorView::InvalidArgument(
                    "touch requires a non-zero expires-in; clear an expiry with `upsert` and expires-in-ns 0"@,
                ),
            )
        } else {
            None
        },
        plain(op::TOUCH, wire::be(expiry_of(expires_in) as nat, 4), 0),
    )
}

/// What `touch` does with its options.
pub open spec fn touching_of(caller: Option<ErrorView>, options: Option<DocumentTouchOptions>) -> Result<
    OperationView,
    ErrorView,
> {
    match options {
        Some(o) => touch_of(caller, o.expires_in),
        None => touch_of(caller, 0),
    }
}

/// Decide a `touch`.
pub fn touch<'a>(
    bound: &'a Workloads<Binding>,
    workload: &str,
    options: Option<&DocumentTouchOptions>,
) -> (r: Result<(&'a Binding, Operation), DocumentError>)
    ensures
        decided(r) == touching_of(
            bindings::caller_error(bound@, workload@),
            match options {
                Some(o) => Some(*o),
                None => None,
            },
        ),
        is_callers(r, bound@, workload@),
{
    let binding = match bindings::caller_binding(bound, workload) {
        Ok(binding) => binding,
        Err(e) => return Err(e),
    };
    let expires_in = match options {
        Some(o) => o.expires_in,
        None => 0,
    };
    let seconds = expiry_seconds(expires_in);
    proof {
        lemma_expiry_is_never_lost(expires_in);
    }
    if seconds == 0 {
        return Err(
            DocumentError::InvalidArgument(
                "touch requires a non-zero expires-in; clear an expiry with `upsert` and expires-in-ns 0".to_string(),
            ),
        );
    }
    Ok((binding, make(op::TOUCH, seconds_extras(seconds), 0)))
}

/// What `get-and-touch` does with a time to live.
pub open spec fn get_and_touch_of(caller: Option<ErrorView>, expires_in: u64) -> Result<
    OperationView,
    ErrorView,
> {
    after(
        if expires_in == 0 {
            Some(ErrorView::InvalidArgument("get-and-touch requires a non-zero expires-in"@))
        } else {
            None
        },
        caller,
        plain(op::GET_AND_TOUCH, wire::be(expiry_of(expires_in) as nat, 4), 0),
    )
}

/// What `get-and-touch` does with its options.
pub open spec fn getting_and_touching_of(caller: Option<ErrorView>, options: Option<DocumentGetAndTouchOptions>) -> Result<
    OperationView,
    ErrorView,
> {
    match options {
        Some(o) => get_and_touch_of(caller, o.expires_in),
        None => get_and_touch_of(caller, 0),
    }
}

/// Decide a `get-and-touch`.
pub fn get_and_touch<'a>(
    bound: &'a Workloads<Binding>,
    workload: &str,
    options: Option<&DocumentGetAndTouchOptions>,
) -> (r: Result<(&'a Binding, Operation), DocumentError>)
    ensures
        decided(r) == getting_and_touching_of(
            bindings::caller_error(bound@, workload@),
            match options {
                Some(o) => Some(*o),
                None => None,
            },
        ),
        is_callers(r, bound@, workload@),
{
    let expires_in = match options {
        Some(o) => o.expires_in,
        None => 0,
    };
    let seconds = expiry_seconds(expires_in);
    proof {
        lemma_expiry_is_never_lost(expires_in);
    }
    if seconds == 0 {
        return Err(
            DocumentError::InvalidArgument(
                "get-and-touch requires a non-zero expires-in".to_string(),
            ),
        );
    }
    match bindings::caller_binding(bound, workload) {
        Ok(binding) => Ok((binding, make(op::GET_AND_TOUCH, seconds_extras(seconds), 0))),
        Err(e) => Err(e),
    }
}

/// What `get-and-lock` does with a lock time; zero means the default.
pub open spec fn get_and_lock_of(caller: Option<ErrorView>, lock_time: u64) -> Result<
    OperationView,
    ErrorView,
> {
    let seconds = if lock_time == 0 {
        DEFAULT_LOCK_SECONDS
    } else {
        expiry_of(lock_time)
    };
    after(None, caller, plain(op::GET_AND_LOCK, wire::be(seconds as nat, 4), 0))
}

/// What `get-and-lock` does with its options.
pub open spec fn locking_of(caller: Option<ErrorView>, options: Option<DocumentGetAndLockOptions>) -> Result<
    OperationView,
    ErrorView,
> {
    match options {
        Some(o) => get_and_lock_of(caller, o.lock_time),
        None => get_and_lock_of(caller, 0),
    }
}

/// Decide a `get-and-lock`.
pub fn get_and_lock<'a>(
    bound: &'a Workloads<Binding>,
    workload: &str,
    options: Option<&DocumentGetAndLockOptions>,
) -> (r: Result<(&'a Binding, Operation), DocumentError>)
    ensures
        decided(r) == locking_of(
            bindings::caller_error(bound@, workload@),
            match options {
                Some(o) => Some(*o),
                None => None,
            },
        ),
        is_callers(r, bound@, workload@),
{
    let lock_time = match options {
        Some(o) => o.lock_time,
        None => 0,
    };
    let seconds = if lock_time == 0 {
        DEFAULT_LOCK_SECONDS
    } else {
        expiry_seconds(lock_time)
    };
    match bindings::caller_binding(bound, workload) {
        Ok(binding) => Ok((binding, make(op::GET_AND_LOCK, seconds_extras(seconds), 0))),
        Err(e) => Err(e),
    }
}

/// What `unlock` does with a CAS.
pub open spec fn unlock_of(caller: Option<ErrorView>, cas: u64) -> Result<
    OperationView,
    ErrorView,
> {
    after(
        caller,
        if cas == 0 {
            Some(ErrorView::InvalidArgument("unlock needs the CAS returned by get-and-lock"@))
        } else {
            None
        },
        plain(op::UNLOCK, seq![], cas),
    )
}

/// What `unlock` does with its options.
pub open spec fn unlocking_of(caller: Option<ErrorView>, options: Option<DocumentUnlockOptions>) -> Result<
    OperationView,
    ErrorView,
> {
    match options {
        Some(o) => unlock_of(caller, o.cas),
        None => unlock_of(caller, 0),
    }
}

/// Decide an `unlock`.
pub fn unlock<'a>(
    bound: &'a Workloads<Binding>,
    workload: &str,
    options: Option<&DocumentUnlockOptions>,
) -> (r: Result<(&'a Binding, Operation), DocumentError>)
    ensures
        decided(r) == unlocking_of(
            bindings::caller_error(bound@, workload@),
            match options {
                Some(o) => Some(*o),
                None => None,
            },
        ),
        is_callers(r, bound@, workload@),
{
    let binding = match bindings::caller_binding(bound, workload) {
        Ok(binding) => binding,
        Err(e) => return Err(e),
    };
    let cas = match options {
        Some(o) => o.cas,
        None => 0,
    };
    if cas == 0 {
        return Err(
            DocumentError::InvalidArgument(
                "unlock needs the CAS returned by get-and-lock".to_string(),
            ),
        );
    }
    Ok((binding, make(op::UNLOCK, Vec::new(), cas)))
}

/// Reading a replica needs the vbucket-to-node map and a connection per node,
/// neither of which is kept.
pub fn get_any_replicas() -> (e: DocumentError)
    ensures
        e@ == ErrorView::Unsupported(
            "this plugin connects to one node and does not track the replica topology"@,
        ),
{
    DocumentError::Unsupported(
        "this plugin connects to one node and does not track the replica topology".to_string(),
    )
}

/// Not served, like [`get_any_replicas`].
pub fn get_all_replicas() -> (e: DocumentError)
    ensures
        e@ == ErrorView::Unsupported(
            "this plugin connects to one node and does not track the replica topology"@,
        ),
{
    get_any_replicas()
}

/// The frame of an operation on a document. The key is prefixed with the
/// connection's collection; the vbucket is that of the bare id.
pub open spec fn operation_frame(
    c: Connection,
    o: OperationView,
    id: Seq<char>,
    document: Seq<u8>,
    opaque: u32,
) -> Seq<u8> {
    proto::request_frame(
        o.opcode,
        proto::vbucket_of(id, c.vbuckets),
        proto::wire_key(c.collection_id, id),
        o.extras,
        document,
        opaque,
        o.cas,
    )
}

/// The frame of an operation on a document: insert, upsert, replace and the
/// rest, on the connection that it goes out on.
pub fn store(c: &mut Connection, operation: &Operation, id: &str, document: &[u8]) -> (frame: Vec<
    u8,
>)
    ensures
        final(c).opaque == old(c).opaque.wrapping_add(1),
        frame@ == operation_frame(*old(c), operation@, id@, document@, final(c).opaque),
        final(c).pending@ == old(c).pending@,
        final(c).vbuckets == old(c).vbuckets,
        final(c).collection_id == old(c).collection_id,
{
    let vbucket = c.vbucket_for(id);
    let key = c.wire_key(id);
    c.call(
        operation.opcode,
        vbucket,
        key.as_slice(),
        operation.extras.as_slice(),
        document,
        operation.cas,
    )
}

/// The frame that asks for a document's metadata.
pub open spec fn meta_frame(c: Connection, id: Seq<char>, opaque: u32) -> Seq<u8> {
    operation_frame(c, plain(op::GET_META, seq![], 0), id, seq![], opaque)
}

/// The frame that asks for a document's metadata.
pub fn meta_request(c: &mut Connection, id: &str) -> (frame: Vec<u8>)
    ensures
        final(c).opaque == old(c).opaque.wrapping_add(1),
        frame@ == meta_frame(*old(c), id@, final(c).opaque),
        final(c).pending@ == old(c).pending@,
        final(c).vbuckets == old(c).vbuckets,
        final(c).collection_id == old(c).collection_id,
{
    let operation = make(op::GET_META, Vec::new(), 0);
    let none: Vec<u8> = Vec::new();
    store(c, &operation, id, none.as_slice())
}

/// What the reply to a write means.
pub open spec fn written_of(
    bucket: Seq<char>,
    vbucket: u16,
    cas: u64,
    reply: ReplyView,
) -> Result<MutationView, ErrorView> {
    if reply.header.status == status::OK {
        Ok(mutation_of(bucket, vbucket, reply.header.cas, reply.extras))
    } else {
        Err(status_error(reply.header.status, cas != 0))
    }
}

/// Turn the reply to a write into what the caller gets.
pub fn written(
    binding: &Binding,
    c: &Connection,
    operation: &Operation,
    id: &str,
    reply: &Reply,
) -> (r: Result<MutationMetadata, DocumentError>)
    ensures
        types::write_outcome(r) == written_of(
            binding.bucket@,
            proto::vbucket_of(id@, c.vbuckets),
            operation.cas,
            reply@,
        ),
{
    if !reply.ok() {
        return Err(to_document_error(reply.header.status, operation.cas != 0));
    }
    let vbucket = c.vbucket_for(id);
    Ok(mutation(binding, vbucket, reply.header.cas, reply.extras.as_slice()))
}

/// What the reply to an `unlock` means.
pub open spec fn unlocked_of(cas: u64, reply: ReplyView) -> Result<(), ErrorView> {
    if reply.header.status == status::OK {
        Ok(())
    } else {
        Err(status_error(reply.header.status, cas != 0))
    }
}

/// Turn the reply to an `unlock` into what the caller gets.
pub fn unlocked(operation: &Operation, reply: &Reply) -> (r: Result<(), DocumentError>)
    ensures
        types::unit_outcome(r) == unlocked_of(operation.cas, reply@),
{
    if !reply.ok() {
        return Err(to_document_error(reply.header.status, operation.cas != 0));
    }
    Ok(())
}

/// The document in the reply to a read: all of it, or the paths asked for.
pub open spec fn document_in(reply: ReplyView, paths: Seq<Seq<char>>) -> Result<
    Seq<u8>,
    ErrorView,
> {
    if reply.header.status != status::OK {
        Err(status_error(reply.header.status, false))
    } else if paths.len() == 0 {
        Ok(reply.value)
    } else {
        match project::projection(reply.value, paths) {
            Some(bytes) => Ok(bytes),
            None => Err(ErrorView::NotJson),
        }
    }
}

/// Take the document out of the reply to a read.
pub fn read_document(operation: &Operation, reply: &Reply) -> (r: Result<Vec<u8>, DocumentError>)
    ensures
        match r {
            Ok(bytes) => document_in(reply@, operation@.paths) == Ok::<Seq<u8>, ErrorView>(bytes@),
            Err(e) => document_in(reply@, operation@.paths) == Err::<Seq<u8>, ErrorView>(e@),
        },
{
    if !reply.ok() {
        return Err(to_document_error(reply.header.status, false));
    }
    if operation.paths.len() == 0 {
        Ok(wire::copy_bytes(reply.value.as_slice()))
    } else {
        project::project(reply.value.as_slice(), operation.paths.as_slice())
    }
}

/// The interface's time for an expiry in unix seconds.
pub open spec fn time_of(seconds: u32) -> Time {
    let c = proto::civil_of(seconds as int);
    Time {
        offset: 0,
        year: c.year,
        month: c.month,
        day: c.day,
        hour: c.hour,
        minute: c.minute,
        second: c.second,
        milliseconds: 0,
        nanoseconds: 0,
    }
}

/// The expiry in the reply to a metadata request.
pub open spec fn expiry_in_meta(meta: Option<ReplyView>) -> Option<Time> {
    match meta {
        Some(m) => if m.header.status == status::OK {
            match proto::expiry_in(m.extras) {
                Some(seconds) => Some(time_of(seconds)),
                None => None,
            }
        } else {
            None
        },
        None => None,
    }
}

/// What a read reports: the document that was taken out of its reply, and the
/// expiry where its metadata was asked for.
pub open spec fn read_of(reply: ReplyView, document: Seq<u8>, meta: Option<ReplyView>) -> GetView {
    GetView {
        document,
        flags: flags_in(reply.extras),
        cas: reply.header.cas,
        expires_in_ns: None,
        expires_at: expiry_in_meta(meta),
    }
}

/// What a read reports.
pub fn read(reply: &Reply, document: Vec<u8>, meta: Option<&Reply>) -> (r: DocumentGetResult)
    ensures
        r@ == read_of(
            reply@,
            document@,
            match meta {
                Some(m) => Some(m@),
                None => None,
            },
        ),
{
    let expires_at = match meta {
        Some(m) => {
            if m.ok() {
                match proto::parse_meta_expiry(m.extras.as_slice()) {
                    Some(seconds) => {
                        let civil = proto::civil_from_unix(seconds as i64);
                        Some(
                            Time {
                                offset: 0,
                                year: civil.year,
                                month: civil.month,
                                day: civil.day,
                                hour: civil.hour,
                                minute: civil.minute,
                                second: civil.second,
                                milliseconds: 0,
                                nanoseconds: 0,
                            },
                        )
                    },
                    None => None,
                }
            } else {
                None
            }
        },
        None => None,
    };
    DocumentGetResult {
        document,
        flags: flags_of(reply.extras.as_slice()),
        cas: reply.header.cas,
        expires_in_ns: None,
        expires_at,
    }
}

/// A conflict is reported as a stale CAS exactly when the write carried one.
pub proof fn lemma_conflict_by_cas(bucket: Seq<char>, vbucket: u16, cas: u64, reply: ReplyView)
    requires
        reply.header.status == status::EXISTS,
    ensures
        written_of(bucket, vbucket, cas, reply) == Err::<MutationView, ErrorView>(
            if cas == 0 {
                ErrorView::AlreadyExists
            } else {
                ErrorView::CasMismatch
            },
        ),
{
}

/// An option that this transport cannot honour is refused, whoever calls and
/// whatever else the options say.
pub proof fn lemma_unhonoured_is_refused(
    caller: Option<ErrorView>,
    insert: DocumentInsertOptions,
    upsert: DocumentUpsertOptions,
    replace: DocumentReplaceOptions,
    remove: DocumentRemoveOptions,
    get: DocumentGetOptions,
)
    ensures
        insert.persist_to != 0 || insert.replicate_to != 0 ==> insert_of(caller, Some(insert)) is Err,
        upsert.persist_to != 0 || upsert.replicate_to != 0 || upsert.preserve_expiry ==> upsert_of(
            caller,
            Some(upsert),
        ) is Err,
        replace.persist_to != 0 || replace.replicate_to != 0 || replace.preserve_expiry
            ==> replace_of(caller, Some(replace)) is Err,
        remove.persist_to != 0 || remove.replicate_to != 0 ==> remove_of(caller, Some(remove)) is Err,
        get.use_replica == Some(ReplicaReadLevel::On) ==> get_of(caller, Some(get)) is Err,
{
}

/// Without a binding no operation goes out, whatever its options say.
pub proof fn lemma_unbound_caller_is_refused(
    caller: ErrorView,
    insert: Option<DocumentInsertOptions>,
    upsert: Option<DocumentUpsertOptions>,
    replace: Option<DocumentReplaceOptions>,
    remove: Option<DocumentRemoveOptions>,
    get: Option<DocumentGetOptions>,
    number: u64,
)
    ensures
        insert_of(Some(caller), insert) is Err,
        upsert_of(Some(caller), upsert) is Err,
        replace_of(Some(caller), replace) is Err,
        remove_of(Some(caller), remove) is Err,
        get_of(Some(caller), get) is Err,
        touch_of(Some(caller), number) is Err,
        get_and_touch_of(Some(caller), number) is Err,
        get_and_lock_of(Some(caller), number) is Err,
        unlock_of(Some(caller), number) is Err,
{
}

/// A document's vbucket is that of its bare id, which the collection's prefix of
/// the key does not change.
pub proof fn lemma_routing_ignores_the_prefix(
    a: Connection,
    b: Connection,
    o: OperationView,
    id: Seq<char>,
    document: Seq<u8>,
    opaque: u32,
)
    requires
        a.vbuckets == b.vbuckets,
    ensures
        operation_frame(a, o, id, document, opaque).subrange(6, 8) == wire::be(
            proto::vbucket_of(id, a.vbuckets) as nat,
            2,
        ),
        operation_frame(a, o, id, document, opaque).subrange(6, 8) == operation_frame(
            b,
            o,
            id,
            document,
            opaque,
        ).subrange(6, 8),
{
    lemma_vbucket_field(a, o, id, document, opaque);
    lemma_vbucket_field(b, o, id, document, opaque);
}

proof fn lemma_vbucket_field(
    c: Connection,
    o: OperationView,
    id: Seq<char>,
    document: Seq<u8>,
    opaque: u32,
)
    ensures
        operation_frame(c, o, id, document, opaque).subrange(6, 8) == wire::be(
            proto::vbucket_of(id, c.vbuckets) as nat,
            2,
        ),
{
    let key = proto::wire_key(c.collection_id, id);
    let field = wire::be(proto::vbucket_of(id, c.vbuckets) as nat, 2);
    let front = seq![proto::MAGIC_REQUEST, o.opcode] + wire::be(key.len(), 2) + wire::be(
        o.extras.len(),
        1,
    ) + seq![0u8];
    wire::lemma_be_len(key.len(), 2);
    wire::lemma_be_len(o.extras.len(), 1);
    wire::lemma_be_len(proto::vbucket_of(id, c.vbuckets) as nat, 2);
    assert(front.len() == 6);
    assert(operation_frame(c, o, id, document, opaque).subrange(6, 8) =~= field);
}

} // verus!
