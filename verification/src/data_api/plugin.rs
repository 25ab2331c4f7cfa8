//! What the HTTP transport does with each operation of the interface.
//!
//! Each operation is decided from the caller and the options into the one
//! request that it sends, or an error. What comes back is turned into what the
//! caller gets.

use vstd::prelude::*;
use vstd::string::*;
use vstd::utf8::*;

use crate::bindings;
use crate::bindings::Workloads;
use crate::data_api::api;
use crate::data_api::api::{BodyView, ErrorBody, Failure, FailureView};
use crate::data_api::config;
use crate::data_api::config::{Binding, BindingView};
use crate::data_api::mutation;
use crate::data_api::mutation::{Token, TokenForm};
use crate::data_api::timefmt;
use crate::http;
use crate::http::{HttpRequest, Method, Rejected, RequestView};
use crate::json;
use crate::json::{Json, Tree};
use crate::number;
use crate::settings;
use crate::text;
use crate::types;
use crate::types::{
    DocumentError, DocumentGetAndTouchOptions, DocumentGetOptions, DocumentGetResult,
    DocumentInsertOptions, DocumentRemoveOptions, DocumentReplaceOptions, DocumentTouchOptions,
    DocumentUpsertOptions, DurabilityLevel, ErrorView, GetView, MutationMetadata, MutationView,
    QueryErrorView, ReplicaReadLevel, SqlppQueryError, Time, WorkloadInfo,
};
use crate::wire;

verus! {

/// What binding a workload does to the table of bindings: nothing when it does
/// not use the interface, an entry when its configuration is valid, or a
/// refusal.
pub open spec fn bound_by(workload: WorkloadInfo) -> Result<Option<BindingView>, Seq<char>> {
    match bindings::served(workload.interfaces@) {
        None => Ok(None),
        Some(i) => match config::binding_in(settings::pairs(i.config@)) {
            Ok(b) => Ok(Some(b)),
            Err(reason) => Err(
                bindings::refusal(workload.name@, workload.namespace@, reason),
            ),
        },
    }
}

/// Validate and record a workload's cluster configuration.
///
/// An error fails the *deploy* with this message, which is why every required
/// key is checked now rather than on the workload's first call. Announcing a
/// workload again overwrites its entry.
pub fn on_workload_bind(bound: &mut Workloads<Binding>, workload: &WorkloadInfo) -> (r: Result<
    (),
    String,
>)
    ensures
        match r {
            Ok(_) => match bound_by(*workload) {
                Ok(None) => final(bound)@ == old(bound)@,
                Ok(Some(b)) => exists|binding: Binding|
                    #![trigger binding@]
                    binding@ == b && final(bound)@ == old(bound)@.insert(workload.id@, binding),
                Err(_) => false,
            },
            Err(e) => bound_by(*workload) == Err::<Option<BindingView>, Seq<char>>(e@)
                && final(bound)@ == old(bound)@,
        },
{
    match bindings::couchbase_interface(workload) {
        None => Ok(()),
        Some(i) => match Binding::from_config(i.config.as_slice()) {
            Ok(b) => {
                let ghost binding = b;
                bound.insert(workload.id.clone(), b);
                assert(binding@ == b@);
                Ok(())
            },
            Err(reason) => Err(bindings::refusal_message(workload, reason.as_str())),
        },
    }
}

/// Forget a workload; one that was never bound is no error.
pub fn on_workload_unbind(bound: &mut Workloads<Binding>, id: &str)
    ensures
        final(bound)@ == old(bound)@.remove(id@),
{
    bound.remove(id);
}

/// A completed Data API round-trip.
pub struct Reply {
    pub status: u16,
    pub headers: Vec<(String, Vec<u8>)>,
    pub body: Vec<u8>,
}

/// The contents of a [`Reply`].
pub struct ReplyView {
    pub status: u16,
    pub headers: Seq<(Seq<char>, Seq<u8>)>,
    pub body: Seq<u8>,
}

impl View for Reply {
    type V = ReplyView;

    open spec fn view(&self) -> ReplyView {
        ReplyView { status: self.status, headers: http::fields(self.headers@), body: self.body@ }
    }
}

impl ReplyView {
    /// Whether the service reported success.
    pub open spec fn ok(self) -> bool {
        200 <= self.status < 300
    }

    /// The CAS the cluster reported, or zero if it sent none.
    pub open spec fn cas(self) -> u64 {
        match http::header_of(self.headers, "etag"@) {
            Some(e) => api::cas_in(e),
            None => 0,
        }
    }

    /// The mutation token the cluster reported, if any.
    pub open spec fn mutation_token(self) -> Option<TokenForm> {
        match http::header_of(self.headers, "x-cb-mutationtoken"@) {
            Some(t) => mutation::token_in(t),
            None => None,
        }
    }

    /// The common flags the cluster reported, or zero if it sent none.
    pub open spec fn flags(self) -> u32 {
        match http::header_of(self.headers, "x-cb-flags"@) {
            Some(f) => match number::unsigned(f, 10, u32::MAX as nat) {
                Some(v) => v as u32,
                None => 0,
            },
            None => 0,
        }
    }

    /// What a reply that is not a success means.
    pub open spec fn failure(self, parsed: BodyView) -> ErrorView {
        document_error(api::failure_of(self.status, self.body, parsed))
    }
}

impl Reply {
    /// Whether the service reported success.
    pub fn ok(&self) -> (b: bool)
        ensures
            b == self@.ok(),
    {
        200 <= self.status && self.status < 300
    }

    /// The text value of a header.
    pub fn header(&self, name: &str) -> (r: Option<String>)
        ensures
            text::option_view(r) == http::header_of(self@.headers, name@),
    {
        http::header(self.headers.as_slice(), name)
    }

    /// The CAS the cluster reported, or `0` if it sent none.
    pub fn cas(&self) -> (cas: u64)
        ensures
            cas == self@.cas(),
    {
        match self.header("etag") {
            Some(e) => api::parse_cas(e.as_str()),
            None => 0,
        }
    }

    /// The mutation token the cluster reported, if any.
    pub fn mutation_token(&self) -> (r: Option<Token>)
        ensures
            match r {
                Some(t) => self@.mutation_token() == Some(t@),
                None => self@.mutation_token() is None,
            },
    {
        match self.header("x-cb-mutationtoken") {
            Some(t) => mutation::parse(t.as_str()),
            None => None,
        }
    }

    /// The common flags the cluster reported, or `0` if it sent none.
    pub fn flags(&self) -> (flags: u32)
        ensures
            flags == self@.flags(),
    {
        match self.header("x-cb-flags") {
            Some(f) => {
                let cs = text::chars_of(f.as_str());
                match number::parse_unsigned(cs.as_slice(), 10, u32::MAX as u64) {
                    Some(v) => v as u32,
                    None => 0,
                }
            },
            None => 0,
        }
    }

    /// What a reply that is not a success means, from what its body says.
    pub fn failure(&self, parsed: &ErrorBody) -> (e: DocumentError)
        ensures
            e@ == self@.failure(parsed@),
    {
        to_document_error(api::classify_parsed(self.status, self.body.as_slice(), parsed))
    }
}

/// A status with the cluster's code, if there is one.
pub open spec fn status_with_code(status: u16, code: Option<Seq<char>>) -> Seq<char> {
    match code {
        Some(c) => number::decimal(status as nat) + " ("@ + c + ")"@,
        None => number::decimal(status as nat),
    }
}

fn status_text(status: u16, code: &Option<String>) -> (s: String)
    ensures
        s@ == status_with_code(status, text::option_view(*code)),
{
    let n = number::decimal_text(status as u64);
    match code {
        Some(c) => {
            let mut s = text::joined3(n.as_str(), " (", c.as_str());
            s.append(")");
            s
        },
        None => n,
    }
}

/// What a failure means for a document operation.
pub open spec fn document_error(f: FailureView) -> ErrorView {
    match f {
        FailureView::NotFound => ErrorView::NotFound,
        FailureView::AlreadyExists => ErrorView::AlreadyExists,
        FailureView::CasMismatch => ErrorView::CasMismatch,
        FailureView::Locked => ErrorView::Locked,
        FailureView::NotLocked => ErrorView::NotLocked,
        FailureView::InvalidArgument(m) => ErrorView::InvalidArgument(m),
        FailureView::Unauthorized => ErrorView::Unauthorized,
        FailureView::Timeout => ErrorView::Timeout,
        FailureView::Server { status, code, message } => ErrorView::Other(
            "Couchbase returned HTTP "@ + status_with_code(status, code) + ": "@ + message,
        ),
    }
}

/// Map a failure onto the interface's document error.
pub fn to_document_error(failure: Failure) -> (e: DocumentError)
    ensures
        e@ == document_error(failure@),
{
    match failure {
        Failure::NotFound => DocumentError::NotFound,
        Failure::AlreadyExists => DocumentError::AlreadyExists,
        Failure::CasMismatch => DocumentError::CasMismatch,
        Failure::Locked => DocumentError::Locked,
        Failure::NotLocked => DocumentError::NotLocked,
        Failure::InvalidArgument(m) => DocumentError::InvalidArgument(m),
        Failure::Unauthorized => DocumentError::Unauthorized,
        Failure::Timeout => DocumentError::Timeout,
        Failure::Server { status, code, message } => {
            let status = status_text(status, &code);
            let mut s = text::joined3("Couchbase returned HTTP ", status.as_str(), ": ");
            s.append(message.as_str());
            DocumentError::Other(s)
        },
    }
}

/// What a failure means for a query.
pub open spec fn query_error(f: FailureView) -> QueryErrorView {
    match f {
        FailureView::InvalidArgument(m) => QueryErrorView::InvalidArgument(m),
        FailureView::Unauthorized => QueryErrorView::Unauthorized,
        FailureView::Timeout => QueryErrorView::Timeout,
        FailureView::NotFound => QueryErrorView::InvalidArgument(
            "the statement referenced a keyspace that does not exist"@,
        ),
        FailureView::Server { status, code, message } => QueryErrorView::Server(
            "HTTP "@ + status_with_code(status, code) + ": "@ + message,
        ),
        _ => QueryErrorView::Unexpected("unexpected document conflict from a query"@),
    }
}

/// Map a failure onto the interface's query error.
pub fn to_query_error(failure: Failure) -> (e: SqlppQueryError)
    ensures
        e@ == query_error(failure@),
{
    match failure {
        Failure::InvalidArgument(m) => SqlppQueryError::InvalidArgument(m),
        Failure::Unauthorized => SqlppQueryError::Unauthorized,
        Failure::Timeout => SqlppQueryError::Timeout,
        Failure::NotFound => SqlppQueryError::InvalidArgument(
            "the statement referenced a keyspace that does not exist".to_string(),
        ),
        Failure::AlreadyExists
        | Failure::CasMismatch
        | Failure::Locked
        | Failure::NotLocked => SqlppQueryError::Unexpected(
            "unexpected document conflict from a query".to_string(),
        ),
        Failure::Server { status, code, message } => {
            let status = status_text(status, &code);
            let mut s = text::joined3("HTTP ", status.as_str(), ": ");
            s.append(message.as_str());
            SqlppQueryError::Server(s)
        },
    }
}

/// The contents of a list of text headers.
pub open spec fn pairs(headers: Seq<(&str, String)>) -> Seq<(Seq<char>, Seq<char>)> {
    Seq::new(headers.len(), |i: int| (headers[i].0@, headers[i].1@))
}

/// Text headers as fields.
pub open spec fn as_fields(headers: Seq<(Seq<char>, Seq<char>)>) -> Seq<(Seq<char>, Seq<u8>)> {
    Seq::new(headers.len(), |i: int| http::field(headers[i].0, headers[i].1))
}

/// The length of a body, zero for none.
pub open spec fn length(body: Option<Seq<u8>>) -> nat {
    match body {
        Some(bytes) => bytes.len(),
        None => 0,
    }
}

/// One request to the cluster. The length of the body is declared in every
/// case: a request body is a stream, so without it the transport would fall
/// back to chunked encoding, which gateways handle poorly.
pub open spec fn request_of(
    b: BindingView,
    method: Method,
    path: Seq<char>,
    extra: Seq<(Seq<char>, Seq<char>)>,
    body: Option<Seq<u8>>,
) -> RequestView {
    RequestView {
        method,
        secure: b.secure,
        authority: b.authority,
        path,
        headers: seq![
            http::field("authorization"@, b.authorization),
            http::field("accept"@, "application/json"@),
        ] + as_fields(extra) + seq![
            http::field("content-length"@, number::decimal(length(body))),
        ],
        body,
        timeout_ns: Some(http::nanoseconds(b.timeout_ms)),
    }
}

/// Build one request to the cluster.
pub fn request(
    binding: &Binding,
    method: Method,
    path: String,
    extra: &[(&str, String)],
    body: Option<Vec<u8>>,
) -> (r: HttpRequest)
    ensures
        r@ == request_of(binding@, method, path@, pairs(extra@), http::body_view(body)),
{
    let ghost spec_extra = pairs(extra@);
    let ghost spec_body = http::body_view(body);
    let len: usize = match &body {
        Some(bytes) => bytes.len(),
        None => 0,
    };
    let mut headers: Vec<(String, Vec<u8>)> = Vec::new();
    assert(http::fields(headers@) =~= seq![]);
    http::append(&mut headers, "authorization", binding.authorization.as_str());
    http::append(&mut headers, "accept", "application/json");
    let ghost front = http::fields(headers@);
    let mut i: usize = 0;
    assert(front + as_fields(spec_extra).take(0) =~= front);
    while i < extra.len()
        invariant
            i <= extra@.len(),
            spec_extra == pairs(extra@),
            http::fields(headers@) == front + as_fields(spec_extra).take(i as int),
        decreases extra@.len() - i,
    {
        let ghost before = http::fields(headers@);
        http::append(&mut headers, extra[i].0, extra[i].1.as_str());
        assert(as_fields(spec_extra)[i as int] == http::field(
            extra@[i as int].0@,
            extra@[i as int].1@,
        ));
        assert(http::fields(headers@) =~= front + as_fields(spec_extra).take(i + 1));
        i += 1;
    }
    assert(as_fields(spec_extra).take(i as int) =~= as_fields(spec_extra));
    let length = number::decimal_text(len as u64);
    http::append(&mut headers, "content-length", length.as_str());
    let r = HttpRequest {
        method,
        secure: binding.secure,
        authority: binding.authority.clone(),
        path,
        headers,
        body,
        timeout_ns: Some(http::timeout_ns(binding.timeout_ms)),
    };
    assert(r@.headers =~= request_of(binding@, method, r.path@, spec_extra, spec_body).headers);
    r
}

/// Every request declares the length of its body.
pub proof fn lemma_length_is_declared(
    b: BindingView,
    method: Method,
    path: Seq<char>,
    extra: Seq<(Seq<char>, Seq<char>)>,
    body: Option<Seq<u8>>,
)
    ensures
        request_of(b, method, path, extra, body).headers.last() == http::field(
            "content-length"@,
            number::decimal(length(body)),
        ),
{
}

/// What becomes of a request just before it is sent.
pub open spec fn cleared(cancelled: bool) -> Option<ErrorView> {
    if cancelled {
        Some(ErrorView::Other("invocation was cancelled before the request was sent"@))
    } else {
        None
    }
}

/// Let a request through unless the invocation was cancelled. A capability call
/// has no time limit of the host's, so a teardown that arrives while calls are
/// queued returns them at once rather than waiting out the cluster.
pub fn send(request: HttpRequest, cancelled: bool) -> (r: Result<HttpRequest, DocumentError>)
    ensures
        match r {
            Ok(sent) => cleared(cancelled) is None && sent == request,
            Err(e) => cleared(cancelled) == Some(e@),
        },
{
    if cancelled {
        return Err(
            DocumentError::Other(
                "invocation was cancelled before the request was sent".to_string(),
            ),
        );
    }
    Ok(request)
}

/// What a refused part of a request means.
pub open spec fn rejection_of(authority: Seq<char>, path: Seq<char>, part: Rejected) -> ErrorView {
    match part {
        Rejected::Header { name, reason } => ErrorView::InvalidArgument(
            "header `"@ + name@ + "` was rejected: "@ + reason@,
        ),
        Rejected::Method => ErrorView::Other("wasi:http rejected the request method"@),
        Rejected::Scheme => ErrorView::Other("wasi:http rejected the request scheme"@),
        Rejected::Authority => ErrorView::InvalidArgument(
            "`"@ + authority + "` is not a valid host for the configured endpoint"@,
        ),
        Rejected::Path => ErrorView::InvalidArgument(
            "`"@ + path + "` is not a valid request path"@,
        ),
    }
}

/// Say what a refused part of a request means.
pub fn rejection(authority: &str, path: &str, part: &Rejected) -> (e: DocumentError)
    ensures
        e@ == rejection_of(authority@, path@, *part),
{
    match part {
        Rejected::Header { name, reason } => {
            let mut s = text::joined3("header `", name.as_str(), "` was rejected: ");
            s.append(reason.as_str());
            DocumentError::InvalidArgument(s)
        },
        Rejected::Method => DocumentError::Other(
            "wasi:http rejected the request method".to_string(),
        ),
        Rejected::Scheme => DocumentError::Other(
            "wasi:http rejected the request scheme".to_string(),
        ),
        Rejected::Authority => DocumentError::InvalidArgument(
            text::joined3("`", authority, "` is not a valid host for the configured endpoint"),
        ),
        Rejected::Path => DocumentError::InvalidArgument(
            text::joined3("`", path, "` is not a valid request path"),
        ),
    }
}

/// Why a request got no response.
#[derive(Debug, PartialEq, Eq)]
pub enum TransportFailure {
    HttpRequestDenied,
    DestinationIpProhibited,
    DnsTimeout,
    ConnectionTimeout,
    ConnectionReadTimeout,
    ConnectionWriteTimeout,
    HttpResponseTimeout,
    /// Anything else, in its developer's form.
    Other(String),
}

/// What a transport failure means.
pub open spec fn transport_error_of(code: TransportFailure) -> ErrorView {
    match code {
        TransportFailure::HttpRequestDenied => ErrorView::NotConfigured(
            "outbound HTTP was denied by this plugin's allowedHosts policy; add the Couchbase endpoint to the host plugin declaration"@,
        ),
        TransportFailure::DestinationIpProhibited => ErrorView::NotConfigured(
            "the Couchbase endpoint resolved to an address this host forbids"@,
        ),
        TransportFailure::Other(m) => ErrorView::RequestFailed(m@),
        _ => ErrorView::Timeout,
    }
}

/// Map a transport failure onto the interface's error model.
///
/// A refused egress is an operator's misconfiguration, not a credential
/// problem: reporting it as `unauthorized` would send people off to rotate
/// working credentials.
pub fn transport_error(code: TransportFailure) -> (e: DocumentError)
    ensures
        e@ == transport_error_of(code),
{
    match code {
        TransportFailure::HttpRequestDenied => DocumentError::NotConfigured(
            "outbound HTTP was denied by this plugin's allowedHosts policy; add the Couchbase endpoint to the host plugin declaration".to_string(),
        ),
        TransportFailure::DestinationIpProhibited => DocumentError::NotConfigured(
            "the Couchbase endpoint resolved to an address this host forbids".to_string(),
        ),
        TransportFailure::DnsTimeout
        | TransportFailure::ConnectionTimeout
        | TransportFailure::ConnectionReadTimeout
        | TransportFailure::ConnectionWriteTimeout
        | TransportFailure::HttpResponseTimeout => DocumentError::Timeout,
        TransportFailure::Other(m) => DocumentError::RequestFailed(m),
    }
}

/// A transport failure is never taken for a refused credential.
pub proof fn lemma_transport_is_never_unauthorized(code: TransportFailure)
    ensures
        transport_error_of(code) !is Unauthorized,
        (code is HttpRequestDenied || code is DestinationIpProhibited) ==> transport_error_of(
            code,
        ) is NotConfigured,
{
}

/// The Data API path for one document.
pub open spec fn document_path_of(b: BindingView, id: Seq<char>) -> Seq<char> {
    b.base_path + "/v1/buckets/"@ + api::escaped(encode_utf8(b.bucket)) + "/scopes/"@
        + api::escaped(encode_utf8(b.scope)) + "/collections/"@ + api::escaped(
        encode_utf8(b.collection),
    ) + "/documents/"@ + api::escaped(encode_utf8(id))
}

/// The Data API path for one document. Bucket, scope and collection come from
/// the caller's binding rather than the call.
pub fn document_path(binding: &Binding, id: &str) -> (s: String)
    ensures
        s@ == document_path_of(binding@, id@),
{
    let mut s = text::joined(binding.base_path.as_str(), "/v1/buckets/");
    s.append(api::encode_segment(binding.bucket.as_str()).as_str());
    s.append("/scopes/");
    s.append(api::encode_segment(binding.scope.as_str()).as_str());
    s.append("/collections/");
    s.append(api::encode_segment(binding.collection.as_str()).as_str());
    s.append("/documents/");
    s.append(api::encode_segment(id).as_str());
    s
}

/// Two document ids never share a path.
pub proof fn lemma_path_is_exact(b: BindingView, a: Seq<char>, c: Seq<char>)
    requires
        document_path_of(b, a) == document_path_of(b, c),
    ensures
        a == c,
{
    let front = b.base_path + "/v1/buckets/"@ + api::escaped(encode_utf8(b.bucket)) + "/scopes/"@
        + api::escaped(encode_utf8(b.scope)) + "/collections/"@ + api::escaped(
        encode_utf8(b.collection),
    ) + "/documents/"@;
    let n = front.len() as int;
    assert(document_path_of(b, a).skip(n) =~= api::escaped(encode_utf8(a)));
    assert(document_path_of(b, c).skip(n) =~= api::escaped(encode_utf8(c)));
    api::lemma_segment_is_exact(a, c);
}

/// The `X-CB-DurabilityLevel` value, or none to leave the header off.
pub open spec fn durability_of(level: DurabilityLevel) -> Option<Seq<char>> {
    match level {
        DurabilityLevel::Unknown => None,
        DurabilityLevel::Off => Some("None"@),
        DurabilityLevel::ReplicateMajority => Some("Majority"@),
        DurabilityLevel::ReplicateMajorityPersistMaster => Some("MajorityAndPersistOnMaster"@),
        DurabilityLevel::PersistMajority => Some("PersistToMajority"@),
    }
}

/// The `X-CB-DurabilityLevel` value, or `None` to leave the header off.
pub fn durability(level: DurabilityLevel) -> (r: Option<&'static str>)
    ensures
        match r {
            Some(s) => durability_of(level) == Some(s@),
            None => durability_of(level) is None,
        },
{
    match level {
        DurabilityLevel::Unknown => None,
        DurabilityLevel::Off => Some("None"),
        DurabilityLevel::ReplicateMajority => Some("Majority"),
        DurabilityLevel::ReplicateMajorityPersistMaster => Some("MajorityAndPersistOnMaster"),
        DurabilityLevel::PersistMajority => Some("PersistToMajority"),
    }
}

/// The value of the `Expires` header of a write, or none for no expiry.
pub open spec fn expires_text(expires_in_ns: u64) -> Option<Seq<char>> {
    if expires_in_ns == 0 {
        None
    } else {
        Some(
            number::decimal(
                number::at_most(
                    number::ceil_div(expires_in_ns as nat, 1_000_000_000),
                    u32::MAX as nat,
                ),
            ) + "s"@,
        )
    }
}

/// Couchbase expiries have second granularity, so a sub-second one would
/// silently become "no expiry"; it is rounded up to one second instead.
pub fn expiry_header(expires_in_ns: u64) -> (r: Option<(&'static str, String)>)
    ensures
        match r {
            Some((name, value)) => name@ == "expires"@ && expires_text(expires_in_ns) == Some(
                value@,
            ),
            None => expires_text(expires_in_ns) is None,
        },
{
    if expires_in_ns == 0 {
        return None;
    }
    Some(("expires", api::expiry_duration(number::seconds32(expires_in_ns))))
}

/// A list with an entry at its end, where there is one.
pub open spec fn with_entry(
    headers: Seq<(Seq<char>, Seq<char>)>,
    name: Seq<char>,
    value: Option<Seq<char>>,
) -> Seq<(Seq<char>, Seq<char>)> {
    match value {
        Some(v) => headers.push((name, v)),
        None => headers,
    }
}

/// The `If-Match` value for a CAS; none for zero.
pub open spec fn if_match(cas: u64) -> Option<Seq<char>> {
    if cas == 0 {
        None
    } else {
        Some(number::hex_padded(cas as nat, 16))
    }
}

/// Flags as text.
pub open spec fn flags_text(flags: Option<u32>) -> Option<Seq<char>> {
    match flags {
        Some(f) => Some(number::decimal(f as nat)),
        None => None,
    }
}

/// The headers of a write, from those given: whichever options were set.
pub open spec fn option_headers(
    front: Seq<(Seq<char>, Seq<char>)>,
    cas: u64,
    expires_in_ns: u64,
    level: DurabilityLevel,
    flags: Option<u32>,
) -> Seq<(Seq<char>, Seq<char>)> {
    with_entry(
        with_entry(
            with_entry(
                with_entry(front, "x-cb-flags"@, flags_text(flags)),
                "if-match"@,
                if_match(cas),
            ),
            "expires"@,
            expires_text(expires_in_ns),
        ),
        "x-cb-durabilitylevel"@,
        durability_of(level),
    )
}

/// The content type of a write.
pub open spec fn json_type() -> Seq<(Seq<char>, Seq<char>)> {
    seq![("content-type"@, "application/json"@)]
}

fn push_pair(headers: &mut Vec<(&'static str, String)>, name: &'static str, value: String)
    ensures
        pairs(final(headers)@) == pairs(old(headers)@).push((name@, value@)),
{
    headers.push((name, value));
    assert(pairs(headers@) =~= pairs(old(headers)@).push((name@, value@)));
}

fn json_headers() -> (headers: Vec<(&'static str, String)>)
    ensures
        pairs(headers@) == json_type(),
{
    let mut headers: Vec<(&'static str, String)> = Vec::new();
    push_pair(&mut headers, "content-type", "application/json".to_string());
    assert(pairs(headers@) =~= json_type());
    headers
}

fn push_options(
    headers: &mut Vec<(&'static str, String)>,
    cas: u64,
    expires_in_ns: u64,
    level: DurabilityLevel,
    flags: Option<u32>,
)
    ensures
        pairs(final(headers)@) == option_headers(
            pairs(old(headers)@),
            cas,
            expires_in_ns,
            level,
            flags,
        ),
{
    match flags {
        Some(f) => push_pair(headers, "x-cb-flags", number::decimal_text(f as u64)),
        None => {},
    }
    if cas != 0 {
        push_pair(headers, "if-match", api::format_cas(cas));
    }
    match expiry_header(expires_in_ns) {
        Some((name, value)) => push_pair(headers, name, value),
        None => {},
    }
    match durability(level) {
        Some(level) => push_pair(headers, "x-cb-durabilitylevel", level.to_string()),
        None => {},
    }
}

/// A write's headers: content type, plus whichever options were set. The
/// service derives flags from the content type unless `X-CB-Flags` is there.
pub fn write_headers(
    cas: u64,
    expires_in_ns: u64,
    level: DurabilityLevel,
    flags: Option<u32>,
) -> (headers: Vec<(&'static str, String)>)
    ensures
        pairs(headers@) == option_headers(json_type(), cas, expires_in_ns, level, flags),
{
    let mut headers = json_headers();
    push_options(&mut headers, cas, expires_in_ns, level, flags);
    headers
}

/// Why write options are refused, if they are.
pub open spec fn unhonoured(preserve_expiry: bool, persist_to: u64, replicate_to: u64) -> Option<
    ErrorView,
> {
    if preserve_expiry {
        Some(
            ErrorView::Unsupported(
                "preserve-expiry has no Data API equivalent; Couchbase clears a document's expiry on write, so the TTL would be silently lost. Re-apply it with `expires-in-ns`, or read the current expiry first"@,
            ),
        )
    } else if persist_to != 0 || replicate_to != 0 {
        Some(
            ErrorView::Unsupported(
                "persist-to/replicate-to are the pre-6.0 durability settings and have no Data API equivalent; use `durability-level` instead"@,
            ),
        )
    } else {
        None
    }
}

/// Reject option fields whose silent omission would change what gets stored or
/// what guarantee the caller believes they have.
pub fn reject_unhonoured_write_options(
    preserve_expiry: bool,
    persist_to: u64,
    replicate_to: u64,
) -> (r: Result<(), DocumentError>)
    ensures
        match r {
            Ok(_) => unhonoured(preserve_expiry, persist_to, replicate_to) is None,
            Err(e) => unhonoured(preserve_expiry, persist_to, replicate_to) == Some(e@),
        },
{
    if preserve_expiry {
        return Err(
            DocumentError::Unsupported(
                "preserve-expiry has no Data API equivalent; Couchbase clears a document's expiry on write, so the TTL would be silently lost. Re-apply it with `expires-in-ns`, or read the current expiry first".to_string(),
            ),
        );
    }
    if persist_to != 0 || replicate_to != 0 {
        return Err(
            DocumentError::Unsupported(
                "persist-to/replicate-to are the pre-6.0 durability settings and have no Data API equivalent; use `durability-level` instead".to_string(),
            ),
        );
    }
    Ok(())
}

/// What a successful write reports. The vbucket fields come from the mutation
/// token when it could be taken apart; otherwise they stay zero and the token
/// travels verbatim.
pub open spec fn mutation_of(bucket: Seq<char>, reply: ReplyView) -> MutationView {
    let (partition_id, partition_uuid, seq, raw_token) = match reply.mutation_token() {
        Some(TokenForm::Structured(p)) => (
            p.partition_id,
            p.partition_uuid,
            p.sequence_number,
            None::<Seq<char>>,
        ),
        Some(TokenForm::Opaque(raw)) => (0u64, 0u64, 0u64, Some(raw)),
        None => (0u64, 0u64, 0u64, None::<Seq<char>>),
    };
    MutationView { cas: reply.cas(), bucket, partition_id, partition_uuid, seq, raw_token }
}

/// A successful write, as the interface reports it.
pub fn mutation(binding: &Binding, reply: &Reply) -> (m: MutationMetadata)
    ensures
        m@ == mutation_of(binding.bucket@, reply@),
{
    let (partition_id, partition_uuid, seq, raw_token) = match reply.mutation_token() {
        Some(Token::Structured(p)) => (
            p.partition_id,
            p.partition_uuid,
            p.sequence_number,
            None,
        ),
        Some(Token::Opaque(raw)) => (0, 0, 0, Some(raw)),
        None => (0, 0, 0, None),
    };
    MutationMetadata {
        cas: reply.cas(),
        bucket: binding.bucket.clone(),
        partition_id,
        partition_uuid,
        seq,
        raw_token,
    }
}

/// What the reply to a write means.
pub open spec fn written_of(bucket: Seq<char>, reply: ReplyView, parsed: BodyView) -> Result<
    MutationView,
    ErrorView,
> {
    if reply.ok() {
        Ok(mutation_of(bucket, reply))
    } else {
        Err(reply.failure(parsed))
    }
}

/// Turn the reply to a write into what the caller gets. `parsed` is what the
/// body of a reply that is not a success says.
pub fn write(binding: &Binding, reply: &Reply, parsed: &ErrorBody) -> (r: Result<
    MutationMetadata,
    DocumentError,
>)
    ensures
        types::write_outcome(r) == written_of(binding.bucket@, reply@, parsed@),
{
    if !reply.ok() {
        return Err(reply.failure(parsed));
    }
    Ok(mutation(binding, reply))
}

/// The interface's time for an expiry.
pub open spec fn time_of(e: api::Expiry) -> Time {
    Time {
        offset: 0,
        year: e.year,
        month: e.month,
        day: e.day,
        hour: e.hour,
        minute: e.minute,
        second: e.second,
        milliseconds: 0,
        nanoseconds: 0,
    }
}

/// The absolute expiry that a read reports, present only when the document has
/// one.
pub open spec fn expires_at_of(reply: ReplyView) -> Option<Time> {
    match http::header_of(reply.headers, "expires"@) {
        Some(value) => match api::expiry_in(value) {
            Some(e) => Some(time_of(e)),
            None => None,
        },
        None => None,
    }
}

/// What the reply to a read means. The bytes are exactly as stored: a document
/// need not be JSON.
pub open spec fn read_of(reply: ReplyView, parsed: BodyView) -> Result<GetView, ErrorView> {
    if reply.ok() {
        Ok(
            GetView {
                document: reply.body,
                flags: reply.flags(),
                cas: reply.cas(),
                expires_in_ns: None,
                expires_at: expires_at_of(reply),
            },
        )
    } else {
        Err(reply.failure(parsed))
    }
}

/// Turn the reply to a read into what the caller gets.
pub fn read(reply: Reply, parsed: &ErrorBody) -> (r: Result<DocumentGetResult, DocumentError>)
    ensures
        types::read_outcome(r) == read_of(reply@, parsed@),
{
    if !reply.ok() {
        return Err(reply.failure(parsed));
    }
    let cas = reply.cas();
    let flags = reply.flags();
    let expires_at = match reply.header("expires") {
        Some(value) => match api::parse_expires(value.as_str()) {
            Some(e) => Some(
                Time {
                    offset: 0,
                    year: e.year,
                    month: e.month,
                    day: e.day,
                    hour: e.hour,
                    minute: e.minute,
                    second: e.second,
                    milliseconds: 0,
                    nanoseconds: 0,
                },
            ),
            None => None,
        },
        None => None,
    };
    Ok(DocumentGetResult { document: reply.body, flags, cas, expires_in_ns: None, expires_at })
}

/// What the reply to a `get-and-touch` means: the value came back with the
/// touch, so it stays a single round-trip.
pub open spec fn touched_of(reply: ReplyView, expires_in: u64, parsed: BodyView) -> Result<
    GetView,
    ErrorView,
> {
    if reply.ok() {
        Ok(
            GetView {
                document: reply.body,
                flags: reply.flags(),
                cas: reply.cas(),
                expires_in_ns: Some(expires_in),
                expires_at: None,
            },
        )
    } else {
        Err(reply.failure(parsed))
    }
}

/// Turn the reply to a `get-and-touch` into what the caller gets.
pub fn touched(reply: Reply, expires_in: u64, parsed: &ErrorBody) -> (r: Result<
    DocumentGetResult,
    DocumentError,
>)
    ensures
        types::read_outcome(r) == touched_of(reply@, expires_in, parsed@),
{
    if !reply.ok() {
        return Err(reply.failure(parsed));
    }
    let cas = reply.cas();
    let flags = reply.flags();
    Ok(
        DocumentGetResult {
            document: reply.body,
            flags,
            cas,
            expires_in_ns: Some(expires_in),
            expires_at: None,
        },
    )
}

/// The contents of a decided request.
pub open spec fn decided(r: Result<HttpRequest, DocumentError>) -> Result<RequestView, ErrorView> {
    match r {
        Ok(request) => Ok(request@),
        Err(e) => Err(e@),
    }
}

/// The first of two refusals, or what is done when there is neither.
pub open spec fn after(
    first: Option<ErrorView>,
    second: Option<ErrorView>,
    request: RequestView,
) -> Result<RequestView, ErrorView> {
    match (first, second) {
        (Some(e), _) => Err(e),
        (None, Some(e)) => Err(e),
        (None, None) => Ok(request),
    }
}

/// A binding with a call's own time limit.
pub open spec fn limited(b: BindingView, timeout_ns: Option<u64>) -> BindingView {
    BindingView { timeout_ms: config::call_timeout(b.timeout_ms, timeout_ns), ..b }
}

/// What `insert` does.
pub open spec fn insert_of(
    caller: Option<ErrorView>,
    b: BindingView,
    id: Seq<char>,
    document: Seq<u8>,
    options: Option<DocumentInsertOptions>,
) -> Result<RequestView, ErrorView> {
    match options {
        Some(o) => after(
            caller,
            unhonoured(false, o.persist_to, o.replicate_to),
            request_of(
                limited(b, o.timeout_ns),
                Method::Post,
                document_path_of(b, id),
                option_headers(json_type(), 0, o.expires_in_ns, o.durability_level, o.flags),
                Some(document),
            ),
        ),
        None => after(
            caller,
            None,
            request_of(
                b,
                Method::Post,
                document_path_of(b, id),
                option_headers(json_type(), 0, 0, DurabilityLevel::Unknown, None),
                Some(document),
            ),
        ),
    }
}

/// Decide an `insert`.
pub fn insert(
    bound: &Workloads<Binding>,
    workload: &str,
    id: &str,
    document: Vec<u8>,
    options: Option<&DocumentInsertOptions>,
) -> (r: Result<HttpRequest, DocumentError>)
    ensures
        decided(r) == insert_of(
            bindings::caller_error(bound@, workload@),
            bound@[workload@]@,
            id@,
            document@,
            match options {
                Some(o) => Some(*o),
                None => None,
            },
        ),
{
    let binding = match bindings::caller_binding(bound, workload) {
        Ok(binding) => binding,
        Err(e) => return Err(e),
    };
    let (expires, level, flags, timeout) = match options {
        Some(o) => {
            match reject_unhonoured_write_options(false, o.persist_to, o.replicate_to) {
                Ok(_) => {},
                Err(e) => return Err(e),
            }
            (o.expires_in_ns, o.durability_level, o.flags, o.timeout_ns)
        },
        None => (0, DurabilityLevel::Unknown, None, None),
    };
    let binding = binding.with_timeout_ns(timeout);
    let path = document_path(&binding, id);
    let headers = write_headers(0, expires, level, flags);
    Ok(request(&binding, Method::Post, path, headers.as_slice(), Some(document)))
}

/// What `upsert` does.
pub open spec fn upsert_of(
    caller: Option<ErrorView>,
    b: BindingView,
    id: Seq<char>,
    document: Seq<u8>,
    options: Option<DocumentUpsertOptions>,
) -> Result<RequestView, ErrorView> {
    match options {
        Some(o) => after(
            caller,
            unhonoured(o.preserve_expiry, o.persist_to, o.replicate_to),
            request_of(
                limited(b, o.timeout_ns),
                Method::Put,
                document_path_of(b, id),
                option_headers(json_type(), 0, o.expires_in_ns, o.durability_level, o.flags),
                Some(document),
            ),
        ),
        None => after(
            caller,
            None,
            request_of(
                b,
                Method::Put,
                document_path_of(b, id),
                option_headers(json_type(), 0, 0, DurabilityLevel::Unknown, None),
                Some(document),
            ),
        ),
    }
}

/// Decide an `upsert`.
pub fn upsert(
    bound: &Workloads<Binding>,
    workload: &str,
    id: &str,
    document: Vec<u8>,
    options: Option<&DocumentUpsertOptions>,
) -> (r: Result<HttpRequest, DocumentError>)
    ensures
        decided(r) == upsert_of(
            bindings::caller_error(bound@, workload@),
            bound@[workload@]@,
            id@,
            document@,
            match options {
                Some(o) => Some(*o),
                None => None,
            },
        ),
{
    let binding = match bindings::caller_binding(bound, workload) {
        Ok(binding) => binding,
        Err(e) => return Err(e),
    };
    let (expires, level, flags, timeout) = match options {
        Some(o) => {
            match reject_unhonoured_write_options(
                o.preserve_expiry,
                o.persist_to,
                o.replicate_to,
            ) {
                Ok(_) => {},
                Err(e) => return Err(e),
            }
            (o.expires_in_ns, o.durability_level, o.flags, o.timeout_ns)
        },
        None => (0, DurabilityLevel::Unknown, None, None),
    };
    let binding = binding.with_timeout_ns(timeout);
    let path = document_path(&binding, id);
    let headers = write_headers(0, expires, level, flags);
    Ok(request(&binding, Method::Put, path, headers.as_slice(), Some(document)))
}

/// The headers of a `replace`. With no CAS to condition on, the wildcard asks
/// the cluster to reject the write when nothing is there, which keeps `replace`
/// from behaving like `upsert`.
pub open spec fn replace_headers(
    cas: u64,
    expires_in_ns: u64,
    level: DurabilityLevel,
    flags: Option<u32>,
) -> Seq<(Seq<char>, Seq<char>)> {
    let headers = option_headers(json_type(), cas, expires_in_ns, level, flags);
    if cas == 0 {
        headers.push(("if-match"@, "*"@))
    } else {
        headers
    }
}

/// What `replace` does.
pub open spec fn replace_of(
    caller: Option<ErrorView>,
    b: BindingView,
    id: Seq<char>,
    document: Seq<u8>,
    options: Option<DocumentReplaceOptions>,
) -> Result<RequestView, ErrorView> {
    match options {
        Some(o) => after(
            caller,
            unhonoured(o.preserve_expiry, o.persist_to, o.replicate_to),
            request_of(
                limited(b, o.timeout_ns),
                Method::Put,
                document_path_of(b, id),
                replace_headers(o.cas, o.expires_in_ns, o.durability_level, o.flags),
                Some(document),
            ),
        ),
        None => after(
            caller,
            None,
            request_of(
                b,
                Method::Put,
                document_path_of(b, id),
                replace_headers(0, 0, DurabilityLevel::Unknown, None),
                Some(document),
            ),
        ),
    }
}

/// Decide a `replace`.
pub fn replace(
    bound: &Workloads<Binding>,
    workload: &str,
    id: &str,
    document: Vec<u8>,
    options: Option<&DocumentReplaceOptions>,
) -> (r: Result<HttpRequest, DocumentError>)
    ensures
        decided(r) == replace_of(
            bindings::caller_error(bound@, workload@),
            bound@[workload@]@,
            id@,
            document@,
            match options {
                Some(o) => Some(*o),
                None => None,
            },
        ),
{
    let binding = match bindings::caller_binding(bound, workload) {
        Ok(binding) => binding,
        Err(e) => return Err(e),
    };
    let (cas, expires, level, flags, timeout) = match options {
        Some(o) => {
            match reject_unhonoured_write_options(
                o.preserve_expiry,
                o.persist_to,
                o.replicate_to,
            ) {
                Ok(_) => {},
                Err(e) => return Err(e),
            }
            (o.cas, o.expires_in_ns, o.durability_level, o.flags, o.timeout_ns)
        },
        None => (0, 0, DurabilityLevel::Unknown, None, None),
    };
    let binding = binding.with_timeout_ns(timeout);
    let mut headers = write_headers(cas, expires, level, flags);
    if cas == 0 {
        push_pair(&mut headers, "if-match", "*".to_string());
    }
    let path = document_path(&binding, id);
    Ok(request(&binding, Method::Put, path, headers.as_slice(), Some(document)))
}

/// Every `replace` is conditional: on the caller's CAS, or on the document
/// being there at all.
pub proof fn lemma_replace_is_conditional(
    cas: u64,
    expires_in_ns: u64,
    level: DurabilityLevel,
    flags: Option<u32>,
)
    ensures
        replace_headers(cas, expires_in_ns, level, flags).contains(
            (
                "if-match"@,
                if cas == 0 {
                    "*"@
                } else {
                    number::hex_padded(cas as nat, 16)
                },
            ),
        ),
{
    let all = replace_headers(cas, expires_in_ns, level, flags);
    let first = with_entry(json_type(), "x-cb-flags"@, flags_text(flags));
    if cas == 0 {
        assert(all[all.len() - 1] == ("if-match"@, "*"@));
    } else {
        let i = first.len() as int;
        let second = with_entry(first, "if-match"@, if_match(cas));
        assert(second[i] == ("if-match"@, number::hex_padded(cas as nat, 16)));
        let third = with_entry(second, "expires"@, expires_text(expires_in_ns));
        assert(third[i] == second[i]);
        assert(all[i] == second[i]);
    }
}

/// Field names, each escaped, with commas between them.
pub open spec fn field_list(names: Seq<Seq<char>>) -> Seq<char>
    decreases names.len(),
{
    if names.len() == 0 {
        seq![]
    } else if names.len() == 1 {
        api::escaped(encode_utf8(names[0]))
    } else {
        field_list(names.drop_last()) + ","@ + api::escaped(encode_utf8(names.last()))
    }
}

fn field_text(names: &Vec<String>) -> (s: String)
    requires
        names@.len() > 0,
    ensures
        s@ == field_list(text::texts(names@)),
{
    let ghost all = text::texts(names@);
    let mut s = api::encode_segment(names[0].as_str());
    let mut i: usize = 1;
    assert(all.take(1)[0] == names@[0]@);
    while i < names.len()
        invariant
            1 <= i <= names@.len(),
            all == text::texts(names@),
            s@ == field_list(all.take(i as int)),
        decreases names@.len() - i,
    {
        proof {
            assert(all.take(i + 1).drop_last() =~= all.take(i as int));
            assert(all.take(i + 1).last() == names@[i as int]@);
        }
        s.append(",");
        s.append(api::encode_segment(names[i].as_str()).as_str());
        i += 1;
    }
    assert(all.take(i as int) =~= all);
    s
}

/// The path of a read: the document's, with the fields to select, if any. One
/// comma-separated parameter; the names are escaped, so that a name with a
/// comma cannot forge a separator.
pub open spec fn read_path(b: BindingView, id: Seq<char>, project: Option<Seq<Seq<char>>>) -> Seq<
    char,
> {
    match project {
        Some(names) => if names.len() > 0 {
            document_path_of(b, id) + "?project="@ + field_list(names)
        } else {
            document_path_of(b, id)
        },
        None => document_path_of(b, id),
    }
}

/// Why a replica read is refused, if one is asked for.
pub open spec fn no_replica(level: Option<ReplicaReadLevel>) -> Option<ErrorView> {
    if level == Some(ReplicaReadLevel::On) {
        Some(
            ErrorView::Unsupported(
                "a replica read is a KV-protocol operation with no Data API endpoint; leave `use-replica` off to read the active copy, or use an implementation that speaks couchbases://"@,
            ),
        )
    } else {
        None
    }
}

/// Refuse a replica read. Serving the active copy instead would answer a
/// question that the caller did not ask.
pub fn reject_replica(level: Option<ReplicaReadLevel>) -> (r: Result<(), DocumentError>)
    ensures
        match r {
            Ok(_) => no_replica(level) is None,
            Err(e) => no_replica(level) == Some(e@),
        },
{
    match level {
        Some(ReplicaReadLevel::On) => Err(
            DocumentError::Unsupported(
                "a replica read is a KV-protocol operation with no Data API endpoint; leave `use-replica` off to read the active copy, or use an implementation that speaks couchbases://".to_string(),
            ),
        ),
        _ => Ok(()),
    }
}

/// What `get` does.
pub open spec fn get_of(
    caller: Option<ErrorView>,
    b: BindingView,
    id: Seq<char>,
    options: Option<DocumentGetOptions>,
) -> Result<RequestView, ErrorView> {
    match options {
        Some(o) => after(
            caller,
            no_replica(o.use_replica),
            request_of(
                limited(b, o.timeout_ns),
                Method::Get,
                read_path(
                    b,
                    id,
                    match o.project {
                        Some(names) => Some(text::texts(names@)),
                        None => None,
                    },
                ),
                seq![],
                None,
            ),
        ),
        None => after(
            caller,
            None,
            request_of(b, Method::Get, document_path_of(b, id), seq![], None),
        ),
    }
}

/// Decide a `get`.
pub fn get(
    bound: &Workloads<Binding>,
    workload: &str,
    id: &str,
    options: Option<&DocumentGetOptions>,
) -> (r: Result<HttpRequest, DocumentError>)
    ensures
        decided(r) == get_of(
            bindings::caller_error(bound@, workload@),
            bound@[workload@]@,
            id@,
            match options {
                Some(o) => Some(*o),
                None => None,
            },
        ),
{
    let binding = match bindings::caller_binding(bound, workload) {
        Ok(binding) => binding,
        Err(e) => return Err(e),
    };
    let timeout = match options {
        Some(o) => o.timeout_ns,
        None => None,
    };
    match options {
        Some(o) => match reject_replica(o.use_replica) {
            Ok(_) => {},
            Err(e) => return Err(e),
        },
        None => {},
    }
    let binding = binding.with_timeout_ns(timeout);
    let mut path = document_path(&binding, id);
    match options {
        Some(o) => match &o.project {
            Some(names) => {
                if names.len() > 0 {
                    path.append("?project=");
                    path.append(field_text(names).as_str());
                }
            },
            None => {},
        },
        None => {},
    }
    let none: Vec<(&str, String)> = Vec::new();
    assert(pairs(none@) =~= seq![]);
    Ok(request(&binding, Method::Get, path, none.as_slice(), None))
}

/// What `remove` does. A delete carries no body, so it has no content type.
pub open spec fn remove_of(
    caller: Option<ErrorView>,
    b: BindingView,
    id: Seq<char>,
    options: Option<DocumentRemoveOptions>,
) -> Result<RequestView, ErrorView> {
    match options {
        Some(o) => after(
            caller,
            unhonoured(false, o.persist_to, o.replicate_to),
            request_of(
                limited(b, o.timeout_ns),
                Method::Delete,
                document_path_of(b, id),
                option_headers(seq![], o.cas, 0, o.durability_level, None),
                None,
            ),
        ),
        None => after(
            caller,
            None,
            request_of(
                b,
                Method::Delete,
                document_path_of(b, id),
                option_headers(seq![], 0, 0, DurabilityLevel::Unknown, None),
                None,
            ),
        ),
    }
}

/// Decide a `remove`.
pub fn remove(
    bound: &Workloads<Binding>,
    workload: &str,
    id: &str,
    options: Option<&DocumentRemoveOptions>,
) -> (r: Result<HttpRequest, DocumentError>)
    ensures
        decided(r) == remove_of(
            bindings::caller_error(bound@, workload@),
            bound@[workload@]@,
            id@,
            match options {
                Some(o) => Some(*o),
                None => None,
            },
        ),
{
    let binding = match bindings::caller_binding(bound, workload) {
        Ok(binding) => binding,
        Err(e) => return Err(e),
    };
    let (cas, level, timeout) = match options {
        Some(o) => {
            match reject_unhonoured_write_options(false, o.persist_to, o.replicate_to) {
                Ok(_) => {},
                Err(e) => return Err(e),
            }
            (o.cas, o.durability_level, o.timeout_ns)
        },
        None => (0, DurabilityLevel::Unknown, None),
    };
    let binding = binding.with_timeout_ns(timeout);
    let mut headers: Vec<(&'static str, String)> = Vec::new();
    assert(pairs(headers@) =~= seq![]);
    push_options(&mut headers, cas, 0, level, None);
    let path = document_path(&binding, id);
    Ok(request(&binding, Method::Delete, path, headers.as_slice(), None))
}

/// A delete declares no content type.
pub proof fn lemma_delete_has_no_content_type(cas: u64, level: DurabilityLevel)
    ensures
        forall|i: int|
            0 <= i < option_headers(seq![], cas, 0, level, None).len() ==> (
            #[trigger] option_headers(seq![], cas, 0, level, None)[i]).0 != "content-type"@,
{
    reveal_strlit("content-type");
    reveal_strlit("if-match");
    reveal_strlit("x-cb-durabilitylevel");
    assert("content-type"@.len() == 12 && "if-match"@.len() == 8
        && "x-cb-durabilitylevel"@.len() == 20);
}

/// Not servable over the Data API, which has no locking path.
pub fn get_and_lock() -> (e: DocumentError)
    ensures
        e@ == ErrorView::Unsupported(
            "get-and-lock is a KV-protocol operation with no Data API endpoint; use `get` plus a CAS-conditional `replace` for optimistic concurrency, or an implementation that speaks couchbases://"@,
        ),
{
    DocumentError::Unsupported(
        "get-and-lock is a KV-protocol operation with no Data API endpoint; use `get` plus a CAS-conditional `replace` for optimistic concurrency, or an implementation that speaks couchbases://".to_string(),
    )
}

/// Not servable over the Data API, like [`get_and_lock`].
pub fn unlock() -> (e: DocumentError)
    ensures
        e@ == ErrorView::Unsupported(
            "unlock is a KV-protocol operation with no Data API endpoint; nothing can be locked through this implementation"@,
        ),
{
    DocumentError::Unsupported(
        "unlock is a KV-protocol operation with no Data API endpoint; nothing can be locked through this implementation".to_string(),
    )
}

/// Not servable over the Data API, which has no replica path.
pub fn get_any_replicas() -> (e: DocumentError)
    ensures
        e@ == ErrorView::Unsupported(
            "a replica read is a KV-protocol operation with no Data API endpoint; use `get` to read the active copy, or an implementation that speaks couchbases://"@,
        ),
{
    DocumentError::Unsupported(
        "a replica read is a KV-protocol operation with no Data API endpoint; use `get` to read the active copy, or an implementation that speaks couchbases://".to_string(),
    )
}

/// Not servable over the Data API, like [`get_any_replicas`].
pub fn get_all_replicas() -> (e: DocumentError)
    ensures
        e@ == ErrorView::Unsupported(
            "a replica read is a KV-protocol operation with no Data API endpoint; use `get` to read the active copy, or an implementation that speaks couchbases://"@,
        ),
{
    get_any_replicas()
}

/// A sum that stays within `i64`.
pub open spec fn later(now: i64, seconds: nat) -> int {
    if now + seconds > i64::MAX {
        i64::MAX as int
    } else {
        now + seconds
    }
}

/// The touch endpoint's body, for a clock that shows `now`: an absolute
/// instant, plus whether to send the value back.
pub open spec fn touch_body_of(expires_in_ns: u64, return_content: bool, now: i64) -> Result<
    Seq<u8>,
    ErrorView,
> {
    if expires_in_ns == 0 {
        Err(
            ErrorView::InvalidArgument(
                "touch requires a non-zero expires-in; clear an expiry with `upsert` and expires-in-ns 0"@,
            ),
        )
    } else {
        let at = later(now, number::ceil_div(expires_in_ns as nat, 1_000_000_000));
        Ok(
            encode_utf8(
                json::json_text(
                    Tree::Object(
                        Map::<Seq<char>, Tree>::empty().insert(
                            "expiry"@,
                            Tree::Text(timefmt::iso8601(at)),
                        ).insert("returnContent"@, Tree::Bool(return_content)),
                    ),
                ),
            ),
        )
    }
}

/// The touch endpoint's body. It takes an absolute instant, so a relative time
/// to live is added to the wall clock, which the caller reads.
pub fn touch_body(expires_in_ns: u64, return_content: bool, now: i64) -> (r: Result<
    Vec<u8>,
    DocumentError,
>)
    ensures
        match r {
            Ok(bytes) => touch_body_of(expires_in_ns, return_content, now) == Ok::<
                Seq<u8>,
                ErrorView,
            >(bytes@),
            Err(e) => touch_body_of(expires_in_ns, return_content, now) == Err::<
                Seq<u8>,
                ErrorView,
            >(e@),
        },
{
    if expires_in_ns == 0 {
        return Err(
            DocumentError::InvalidArgument(
                "touch requires a non-zero expires-in; clear an expiry with `upsert` and expires-in-ns 0".to_string(),
            ),
        );
    }
    let seconds: i64 = number::seconds(expires_in_ns) as i64;
    let at: i64 = if now > i64::MAX - seconds {
        i64::MAX
    } else {
        now + seconds
    };
    let mut members: Vec<(String, Json)> = Vec::new();
    assert(json::members(members@) =~= Map::<Seq<char>, Tree>::empty());
    json::put(&mut members, "expiry".to_string(), Json::Text(timefmt::iso8601_utc(at)));
    json::put(&mut members, "returnContent".to_string(), Json::Bool(return_content));
    let body = Json::Object(members);
    let written = json::write(&body);
    Ok(wire::copy_bytes(written.as_str().as_bytes()))
}

/// What `touch` and `get-and-touch` do, for a clock that shows `now`.
pub open spec fn touch_of(
    caller: Option<ErrorView>,
    b: BindingView,
    id: Seq<char>,
    expires_in: u64,
    timeout_ns: Option<u64>,
    return_content: bool,
    now: i64,
) -> Result<RequestView, ErrorView> {
    match caller {
        Some(e) => Err(e),
        None => match touch_body_of(expires_in, return_content, now) {
            Err(e) => Err(e),
            Ok(body) => Ok(
                request_of(
                    limited(b, timeout_ns),
                    Method::Post,
                    document_path_of(b, id) + "/touch"@,
                    json_type(),
                    Some(body),
                ),
            ),
        },
    }
}

fn touch_request(
    bound: &Workloads<Binding>,
    workload: &str,
    id: &str,
    expires_in: u64,
    timeout_ns: Option<u64>,
    return_content: bool,
    now: i64,
) -> (r: Result<HttpRequest, DocumentError>)
    ensures
        decided(r) == touch_of(
            bindings::caller_error(bound@, workload@),
            bound@[workload@]@,
            id@,
            expires_in,
            timeout_ns,
            return_content,
            now,
        ),
{
    let binding = match bindings::caller_binding(bound, workload) {
        Ok(binding) => binding,
        Err(e) => return Err(e),
    };
    let binding = binding.with_timeout_ns(timeout_ns);
    let body = match touch_body(expires_in, return_content, now) {
        Ok(body) => body,
        Err(e) => return Err(e),
    };
    let mut path = document_path(&binding, id);
    path.append("/touch");
    let headers = json_headers();
    Ok(request(&binding, Method::Post, path, headers.as_slice(), Some(body)))
}

/// What `touch` does, for a clock that shows `now`. Without options there is no
/// time to live, which is refused.
pub open spec fn touch_only_of(
    caller: Option<ErrorView>,
    b: BindingView,
    id: Seq<char>,
    options: Option<DocumentTouchOptions>,
    now: i64,
) -> Result<RequestView, ErrorView> {
    match options {
        Some(o) => touch_of(caller, b, id, o.expires_in, o.timeout_ns, false, now),
        None => touch_of(caller, b, id, 0, None, false, now),
    }
}

/// Decide a `touch`, for a clock that shows `now`.
pub fn touch(
    bound: &Workloads<Binding>,
    workload: &str,
    id: &str,
    options: Option<&DocumentTouchOptions>,
    now: i64,
) -> (r: Result<HttpRequest, DocumentError>)
    ensures
        decided(r) == touch_only_of(
            bindings::caller_error(bound@, workload@),
            bound@[workload@]@,
            id@,
            match options {
                Some(o) => Some(*o),
                None => None,
            },
            now,
        ),
{
    let (expires_in, timeout) = match options {
        Some(o) => (o.expires_in, o.timeout_ns),
        None => (0, None),
    };
    touch_request(bound, workload, id, expires_in, timeout, false, now)
}

/// What `get-and-touch` does, for a clock that shows `now`. Without options there is no
/// time to live, which is refused.
pub open spec fn get_and_touch_of(
    caller: Option<ErrorView>,
    b: BindingView,
    id: Seq<char>,
    options: Option<DocumentGetAndTouchOptions>,
    now: i64,
) -> Result<RequestView, ErrorView> {
    match options {
        Some(o) => touch_of(caller, b, id, o.expires_in, o.timeout_ns, true, now),
        None => touch_of(caller, b, id, 0, None, true, now),
    }
}

/// Decide a `get-and-touch`, for a clock that shows `now`.
pub fn get_and_touch(
    bound: &Workloads<Binding>,
    workload: &str,
    id: &str,
    options: Option<&DocumentGetAndTouchOptions>,
    now: i64,
) -> (r: Result<HttpRequest, DocumentError>)
    ensures
        decided(r) == get_and_touch_of(
            bindings::caller_error(bound@, workload@),
            bound@[workload@]@,
            id@,
            match options {
                Some(o) => Some(*o),
                None => None,
            },
            now,
        ),
{
    let (expires_in, timeout) = match options {
        Some(o) => (o.expires_in, o.timeout_ns),
        None => (0, None),
    };
    touch_request(bound, workload, id, expires_in, timeout, true, now)
}

/// An option that this transport cannot honour is refused, whoever calls and
/// whatever else the options say.
pub proof fn lemma_unhonoured_is_refused(
    caller: Option<ErrorView>,
    b: BindingView,
    id: Seq<char>,
    document: Seq<u8>,
    insert: DocumentInsertOptions,
    upsert: DocumentUpsertOptions,
    replace: DocumentReplaceOptions,
    remove: DocumentRemoveOptions,
    get: DocumentGetOptions,
)
    ensures
        get.use_replica == Some(ReplicaReadLevel::On) ==> get_of(caller, b, id, Some(get)) is Err,
        insert.persist_to != 0 || insert.replicate_to != 0 ==> insert_of(
            caller,
            b,
            id,
            document,
            Some(insert),
        ) is Err,
        upsert.persist_to != 0 || upsert.replicate_to != 0 || upsert.preserve_expiry ==> upsert_of(
            caller,
            b,
            id,
            document,
            Some(upsert),
        ) is Err,
        replace.persist_to != 0 || replace.replicate_to != 0 || replace.preserve_expiry
            ==> replace_of(caller, b, id, document, Some(replace)) is Err,
        remove.persist_to != 0 || remove.replicate_to != 0 ==> remove_of(
            caller,
            b,
            id,
            Some(remove),
        ) is Err,
{
}

/// The path under which a binding's documents stand.
pub open spec fn keyspace(b: BindingView) -> Seq<char> {
    b.base_path + "/v1/buckets/"@ + api::escaped(encode_utf8(b.bucket)) + "/scopes/"@
        + api::escaped(encode_utf8(b.scope)) + "/collections/"@ + api::escaped(
        encode_utf8(b.collection),
    ) + "/documents/"@
}

/// Whether a request, if there is one, goes to the binding's own endpoint with
/// its own credential, and to a document of its own keyspace.
pub open spec fn is_granted(b: BindingView, r: Result<RequestView, ErrorView>) -> bool {
    r matches Ok(q) ==> {
        &&& q.secure == b.secure
        &&& q.authority == b.authority
        &&& q.headers[0] == http::field("authorization"@, b.authorization)
        &&& text::starts_with(q.path, keyspace(b))
    }
}

/// A workload cannot reach a keyspace that it was not granted, whatever it asks
/// for.
pub proof fn lemma_only_the_granted_keyspace(
    caller: Option<ErrorView>,
    b: BindingView,
    id: Seq<char>,
    document: Seq<u8>,
    insert: Option<DocumentInsertOptions>,
    upsert: Option<DocumentUpsertOptions>,
    replace: Option<DocumentReplaceOptions>,
    remove: Option<DocumentRemoveOptions>,
    get: Option<DocumentGetOptions>,
    expires_in: u64,
    timeout_ns: Option<u64>,
    return_content: bool,
    now: i64,
)
    ensures
        is_granted(b, insert_of(caller, b, id, document, insert)),
        is_granted(b, upsert_of(caller, b, id, document, upsert)),
        is_granted(b, replace_of(caller, b, id, document, replace)),
        is_granted(b, remove_of(caller, b, id, remove)),
        is_granted(b, get_of(caller, b, id, get)),
        is_granted(b, touch_of(caller, b, id, expires_in, timeout_ns, return_content, now)),
{
    let front = keyspace(b);
    let n = front.len() as int;
    assert forall|tail: Seq<char>| #[trigger]
        text::starts_with(document_path_of(b, id) + tail, front) by {
        assert((document_path_of(b, id) + tail).take(n) =~= front);
    }
    assert(document_path_of(b, id).take(n) =~= front);
    assert(text::starts_with(document_path_of(b, id) + "/touch"@, front));
    if let Some(o) = get {
        if let Some(names) = o.project {
            let fields = field_list(text::texts(names@));
            assert((document_path_of(b, id) + "?project="@ + fields).take(n) =~= front);
        }
    }
}

/// Without a binding no request goes out, whatever the options say.
pub proof fn lemma_unbound_caller_is_refused(
    caller: ErrorView,
    b: BindingView,
    id: Seq<char>,
    document: Seq<u8>,
    insert: Option<DocumentInsertOptions>,
    upsert: Option<DocumentUpsertOptions>,
    replace: Option<DocumentReplaceOptions>,
    remove: Option<DocumentRemoveOptions>,
    get: Option<DocumentGetOptions>,
    expires_in: u64,
    timeout_ns: Option<u64>,
    return_content: bool,
    now: i64,
)
    ensures
        insert_of(Some(caller), b, id, document, insert) == Err::<RequestView, ErrorView>(caller),
        upsert_of(Some(caller), b, id, document, upsert) == Err::<RequestView, ErrorView>(caller),
        replace_of(Some(caller), b, id, document, replace) == Err::<RequestView, ErrorView>(
            caller,
        ),
        remove_of(Some(caller), b, id, remove) == Err::<RequestView, ErrorView>(caller),
        get_of(Some(caller), b, id, get) == Err::<RequestView, ErrorView>(caller),
        touch_of(Some(caller), b, id, expires_in, timeout_ns, return_content, now) == Err::<
            RequestView,
            ErrorView,
        >(caller),
{
}

/// An opaque mutation token travels verbatim, and its numbers are never made
/// up.
pub proof fn lemma_opaque_token_travels(bucket: Seq<char>, reply: ReplyView, raw: Seq<char>)
    requires
        reply.mutation_token() == Some(TokenForm::Opaque(raw)),
    ensures
        mutation_of(bucket, reply).raw_token == Some(raw),
        mutation_of(bucket, reply).partition_uuid == 0,
        mutation_of(bucket, reply).partition_id == 0,
        mutation_of(bucket, reply).seq == 0,
{
}

} // verus!
