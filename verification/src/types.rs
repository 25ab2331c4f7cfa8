//! The records, variants and errors of the `wasmcloud:couchbase` interface.
//!
//! Each type that holds text has a view in which the text is a sequence of
//! characters; contracts speak of views.

use vstd::prelude::*;
use vstd::string::*;

use crate::text;

verus! {

/// How durable a write must be before it is acknowledged.
#[derive(Debug, Clone, Copy, PartialEq, Eq, Structural)]
pub enum DurabilityLevel {
    /// Not set.
    Unknown,
    /// No durability asked for.
    Off,
    ReplicateMajority,
    ReplicateMajorityPersistMaster,
    PersistMajority,
}

/// Whether a read may be served from a replica.
#[derive(Debug, Clone, Copy, PartialEq, Eq, Structural)]
pub enum ReplicaReadLevel {
    Off,
    On,
}

/// How far an index must have caught up before a query reads it.
#[derive(Debug, Clone, Copy, PartialEq, Eq, Structural)]
pub enum QueryScanConsistency {
    NotBounded,
    RequestPlus,
}

/// The position of one write.
#[derive(Debug, PartialEq, Eq)]
pub struct MutationToken {
    pub bucket_name: String,
    pub partition_uuid: u64,
    pub partition_id: u64,
    pub sequence_number: u64,
}

/// The writes a query has to observe.
#[derive(Debug, PartialEq, Eq)]
pub struct MutationState {
    pub tokens: Vec<MutationToken>,
}

/// A civil time against GMT.
#[derive(Debug, Clone, Copy, PartialEq, Eq, Structural)]
pub struct Time {
    pub offset: i32,
    pub year: i32,
    pub month: u8,
    pub day: u8,
    pub hour: u8,
    pub minute: u8,
    pub second: u8,
    pub milliseconds: u32,
    pub nanoseconds: u32,
}

/// What a write reports.
#[derive(Debug, PartialEq, Eq)]
pub struct MutationMetadata {
    pub cas: u64,
    pub bucket: String,
    pub partition_id: u64,
    pub partition_uuid: u64,
    pub seq: u64,
    /// A token in an encoding that could not be taken apart.
    pub raw_token: Option<String>,
}

/// What a read reports.
#[derive(Debug, PartialEq, Eq)]
pub struct DocumentGetResult {
    pub document: Vec<u8>,
    pub flags: u32,
    pub cas: u64,
    pub expires_in_ns: Option<u64>,
    pub expires_at: Option<Time>,
}

/// A query parameter, or a query's rows.
#[derive(Debug, PartialEq, Eq)]
pub enum SqlppValue {
    Null,
    Json(String),
}

/// Why a document operation failed.
#[derive(Debug, PartialEq, Eq)]
pub enum DocumentError {
    NotFound,
    CasMismatch,
    Locked,
    NotLocked,
    AlreadyExists,
    NotJson,
    PathNotFound,
    PathInvalid,
    PathTooDeep,
    InvalidValue,
    SubdocumentDeltaInvalid,
    Unauthorized,
    NotConfigured(String),
    RequestFailed(String),
    Timeout,
    Unsupported(String),
    InvalidArgument(String),
    Other(String),
}

/// Why a query failed.
#[derive(Debug, PartialEq, Eq)]
pub enum SqlppQueryError {
    Unexpected(String),
    InvalidArgument(String),
    Unauthorized,
    NotConfigured(String),
    RequestFailed(String),
    Timeout,
    Server(String),
}

#[derive(Debug, PartialEq, Eq)]
pub struct DocumentInsertOptions {
    pub expires_in_ns: u64,
    pub flags: Option<u32>,
    pub persist_to: u64,
    pub replicate_to: u64,
    pub durability_level: DurabilityLevel,
    pub timeout_ns: Option<u64>,
}

#[derive(Debug, PartialEq, Eq)]
pub struct DocumentUpsertOptions {
    pub expires_in_ns: u64,
    pub preserve_expiry: bool,
    pub flags: Option<u32>,
    pub persist_to: u64,
    pub replicate_to: u64,
    pub durability_level: DurabilityLevel,
    pub timeout_ns: Option<u64>,
}

#[derive(Debug, PartialEq, Eq)]
pub struct DocumentReplaceOptions {
    pub cas: u64,
    pub expires_in_ns: u64,
    pub preserve_expiry: bool,
    pub flags: Option<u32>,
    pub persist_to: u64,
    pub replicate_to: u64,
    pub durability_level: DurabilityLevel,
    pub timeout_ns: Option<u64>,
}

#[derive(Debug, PartialEq, Eq)]
pub struct DocumentRemoveOptions {
    pub cas: u64,
    pub persist_to: u64,
    pub replicate_to: u64,
    pub durability_level: DurabilityLevel,
    pub timeout_ns: Option<u64>,
}

#[derive(Debug, PartialEq, Eq)]
pub struct DocumentGetOptions {
    pub with_expiry: bool,
    pub project: Option<Vec<String>>,
    pub use_replica: Option<ReplicaReadLevel>,
    pub timeout_ns: Option<u64>,
}

#[derive(Debug, PartialEq, Eq)]
pub struct DocumentTouchOptions {
    pub expires_in: u64,
    pub timeout_ns: Option<u64>,
}

#[derive(Debug, PartialEq, Eq)]
pub struct DocumentGetAndTouchOptions {
    pub expires_in: u64,
    pub timeout_ns: Option<u64>,
}

#[derive(Debug, PartialEq, Eq)]
pub struct DocumentGetAndLockOptions {
    pub lock_time: u64,
    pub timeout_ns: Option<u64>,
}

#[derive(Debug, PartialEq, Eq)]
pub struct DocumentUnlockOptions {
    pub cas: u64,
    pub timeout_ns: Option<u64>,
}

#[derive(Debug, PartialEq, Eq)]
pub struct SqlppQueryOptions {
    pub scan_consistency: QueryScanConsistency,
    pub consistent_with: Option<MutationState>,
    pub scan_cap: u64,
    pub pipeline_batch: u64,
    pub pipeline_cap: u64,
    pub scan_wait_ns: u64,
    pub readonly: bool,
    pub max_parallelism: u64,
    pub client_context_id: Option<String>,
    pub metrics: bool,
    pub ad_hoc: bool,
    pub timeout_ns: u64,
    pub preserve_expiry: bool,
    pub use_flex_index: bool,
}

/// One interface that a workload is bound to, with its configuration.
#[derive(Debug, PartialEq, Eq)]
pub struct InterfaceBinding {
    pub namespace: String,
    pub package: String,
    pub config: Vec<(String, String)>,
}

/// A workload, as the host announces it.
#[derive(Debug, PartialEq, Eq)]
pub struct WorkloadInfo {
    pub id: String,
    pub name: String,
    pub namespace: String,
    pub interfaces: Vec<InterfaceBinding>,
}

/// The contents of a [`MutationMetadata`].
pub struct MutationView {
    pub cas: u64,
    pub bucket: Seq<char>,
    pub partition_id: u64,
    pub partition_uuid: u64,
    pub seq: u64,
    pub raw_token: Option<Seq<char>>,
}

impl View for MutationMetadata {
    type V = MutationView;

    open spec fn view(&self) -> MutationView {
        MutationView {
            cas: self.cas,
            bucket: self.bucket@,
            partition_id: self.partition_id,
            partition_uuid: self.partition_uuid,
            seq: self.seq,
            raw_token: text::option_view(self.raw_token),
        }
    }
}

/// The contents of a [`DocumentGetResult`].
pub struct GetView {
    pub document: Seq<u8>,
    pub flags: u32,
    pub cas: u64,
    pub expires_in_ns: Option<u64>,
    pub expires_at: Option<Time>,
}

impl View for DocumentGetResult {
    type V = GetView;

    open spec fn view(&self) -> GetView {
        GetView {
            document: self.document@,
            flags: self.flags,
            cas: self.cas,
            expires_in_ns: self.expires_in_ns,
            expires_at: self.expires_at,
        }
    }
}

/// The contents of a [`DocumentError`].
pub enum ErrorView {
    NotFound,
    CasMismatch,
    Locked,
    NotLocked,
    AlreadyExists,
    NotJson,
    PathNotFound,
    PathInvalid,
    PathTooDeep,
    InvalidValue,
    SubdocumentDeltaInvalid,
    Unauthorized,
    NotConfigured(Seq<char>),
    RequestFailed(Seq<char>),
    Timeout,
    Unsupported(Seq<char>),
    InvalidArgument(Seq<char>),
    Other(Seq<char>),
}

impl View for DocumentError {
    type V = ErrorView;

    open spec fn view(&self) -> ErrorView {
        match self {
            DocumentError::NotFound => ErrorView::NotFound,
            DocumentError::CasMismatch => ErrorView::CasMismatch,
            DocumentError::Locked => ErrorView::Locked,
            DocumentError::NotLocked => ErrorView::NotLocked,
            DocumentError::AlreadyExists => ErrorView::AlreadyExists,
            DocumentError::NotJson => ErrorView::NotJson,
            DocumentError::PathNotFound => ErrorView::PathNotFound,
            DocumentError::PathInvalid => ErrorView::PathInvalid,
            DocumentError::PathTooDeep => ErrorView::PathTooDeep,
            DocumentError::InvalidValue => ErrorView::InvalidValue,
            DocumentError::SubdocumentDeltaInvalid => ErrorView::SubdocumentDeltaInvalid,
            DocumentError::Unauthorized => ErrorView::Unauthorized,
            DocumentError::NotConfigured(m) => ErrorView::NotConfigured(m@),
            DocumentError::RequestFailed(m) => ErrorView::RequestFailed(m@),
            DocumentError::Timeout => ErrorView::Timeout,
            DocumentError::Unsupported(m) => ErrorView::Unsupported(m@),
            DocumentError::InvalidArgument(m) => ErrorView::InvalidArgument(m@),
            DocumentError::Other(m) => ErrorView::Other(m@),
        }
    }
}

/// The contents of a [`SqlppQueryError`].
pub enum QueryErrorView {
    Unexpected(Seq<char>),
    InvalidArgument(Seq<char>),
    Unauthorized,
    NotConfigured(Seq<char>),
    RequestFailed(Seq<char>),
    Timeout,
    Server(Seq<char>),
}

impl View for SqlppQueryError {
    type V = QueryErrorView;

    open spec fn view(&self) -> QueryErrorView {
        match self {
            SqlppQueryError::Unexpected(m) => QueryErrorView::Unexpected(m@),
            SqlppQueryError::InvalidArgument(m) => QueryErrorView::InvalidArgument(m@),
            SqlppQueryError::Unauthorized => QueryErrorView::Unauthorized,
            SqlppQueryError::NotConfigured(m) => QueryErrorView::NotConfigured(m@),
            SqlppQueryError::RequestFailed(m) => QueryErrorView::RequestFailed(m@),
            SqlppQueryError::Timeout => QueryErrorView::Timeout,
            SqlppQueryError::Server(m) => QueryErrorView::Server(m@),
        }
    }
}

/// The contents of a [`SqlppValue`].
pub enum ValueView {
    Null,
    Json(Seq<char>),
}

impl View for SqlppValue {
    type V = ValueView;

    open spec fn view(&self) -> ValueView {
        match self {
            SqlppValue::Null => ValueView::Null,
            SqlppValue::Json(t) => ValueView::Json(t@),
        }
    }
}

/// The contents of a [`MutationToken`].
pub struct TokenView {
    pub bucket_name: Seq<char>,
    pub partition_uuid: u64,
    pub partition_id: u64,
    pub sequence_number: u64,
}

impl View for MutationToken {
    type V = TokenView;

    open spec fn view(&self) -> TokenView {
        TokenView {
            bucket_name: self.bucket_name@,
            partition_uuid: self.partition_uuid,
            partition_id: self.partition_id,
            sequence_number: self.sequence_number,
        }
    }
}

/// The contents of a write's outcome.
pub open spec fn write_outcome(r: Result<MutationMetadata, DocumentError>) -> Result<
    MutationView,
    ErrorView,
> {
    match r {
        Ok(m) => Ok(m@),
        Err(e) => Err(e@),
    }
}

/// The contents of a read's outcome.
pub open spec fn read_outcome(r: Result<DocumentGetResult, DocumentError>) -> Result<
    GetView,
    ErrorView,
> {
    match r {
        Ok(g) => Ok(g@),
        Err(e) => Err(e@),
    }
}

/// The contents of an outcome that reports nothing on success.
pub open spec fn unit_outcome(r: Result<(), DocumentError>) -> Result<(), ErrorView> {
    match r {
        Ok(_) => Ok(()),
        Err(e) => Err(e@),
    }
}

/// The contents of a query's outcome.
pub open spec fn query_outcome(r: Result<SqlppValue, SqlppQueryError>) -> Result<
    ValueView,
    QueryErrorView,
> {
    match r {
        Ok(v) => Ok(v@),
        Err(e) => Err(e@),
    }
}

/// The developer's form of an error: its case, and its text in quotes.
pub open spec fn error_debug(e: ErrorView) -> Seq<char> {
    match e {
        ErrorView::NotFound => "DocumentError::NotFound"@,
        ErrorView::CasMismatch => "DocumentError::CasMismatch"@,
        ErrorView::Locked => "DocumentError::Locked"@,
        ErrorView::NotLocked => "DocumentError::NotLocked"@,
        ErrorView::AlreadyExists => "DocumentError::AlreadyExists"@,
        ErrorView::NotJson => "DocumentError::NotJson"@,
        ErrorView::PathNotFound => "DocumentError::PathNotFound"@,
        ErrorView::PathInvalid => "DocumentError::PathInvalid"@,
        ErrorView::PathTooDeep => "DocumentError::PathTooDeep"@,
        ErrorView::InvalidValue => "DocumentError::InvalidValue"@,
        ErrorView::SubdocumentDeltaInvalid => "DocumentError::SubdocumentDeltaInvalid"@,
        ErrorView::Unauthorized => "DocumentError::Unauthorized"@,
        ErrorView::NotConfigured(m) => "DocumentError::NotConfigured("@ + text::debug_quoted(m)
            + ")"@,
        ErrorView::RequestFailed(m) => "DocumentError::RequestFailed("@ + text::debug_quoted(m)
            + ")"@,
        ErrorView::Timeout => "DocumentError::Timeout"@,
        ErrorView::Unsupported(m) => "DocumentError::Unsupported("@ + text::debug_quoted(m) + ")"@,
        ErrorView::InvalidArgument(m) => "DocumentError::InvalidArgument("@ + text::debug_quoted(m)
            + ")"@,
        ErrorView::Other(m) => "DocumentError::Other("@ + text::debug_quoted(m) + ")"@,
    }
}

fn debug_case(case: &str, message: &str) -> (s: String)
    ensures
        s@ == case@ + text::debug_quoted(message@) + ")"@,
{
    let quoted = text::debug_text(message);
    text::joined3(case, quoted.as_str(), ")")
}

/// The developer's form of an error.
pub fn debug_document_error(e: &DocumentError) -> (s: String)
    ensures
        s@ == error_debug(e@),
{
    match e {
        DocumentError::NotFound => "DocumentError::NotFound".to_string(),
        DocumentError::CasMismatch => "DocumentError::CasMismatch".to_string(),
        DocumentError::Locked => "DocumentError::Locked".to_string(),
        DocumentError::NotLocked => "DocumentError::NotLocked".to_string(),
        DocumentError::AlreadyExists => "DocumentError::AlreadyExists".to_string(),
        DocumentError::NotJson => "DocumentError::NotJson".to_string(),
        DocumentError::PathNotFound => "DocumentError::PathNotFound".to_string(),
        DocumentError::PathInvalid => "DocumentError::PathInvalid".to_string(),
        DocumentError::PathTooDeep => "DocumentError::PathTooDeep".to_string(),
        DocumentError::InvalidValue => "DocumentError::InvalidValue".to_string(),
        DocumentError::SubdocumentDeltaInvalid =>
            "DocumentError::SubdocumentDeltaInvalid".to_string(),
        DocumentError::Unauthorized => "DocumentError::Unauthorized".to_string(),
        DocumentError::NotConfigured(m) => debug_case("DocumentError::NotConfigured(", m.as_str()),
        DocumentError::RequestFailed(m) => debug_case("DocumentError::RequestFailed(", m.as_str()),
        DocumentError::Timeout => "DocumentError::Timeout".to_string(),
        DocumentError::Unsupported(m) => debug_case("DocumentError::Unsupported(", m.as_str()),
        DocumentError::InvalidArgument(m) =>
            debug_case("DocumentError::InvalidArgument(", m.as_str()),
        DocumentError::Other(m) => debug_case("DocumentError::Other(", m.as_str()),
    }
}

/// A document error, restated for a query.
pub open spec fn as_query_error(e: ErrorView) -> QueryErrorView {
    match e {
        ErrorView::NotConfigured(m) => QueryErrorView::NotConfigured(m),
        ErrorView::RequestFailed(m) => QueryErrorView::RequestFailed(m),
        ErrorView::Unauthorized => QueryErrorView::Unauthorized,
        ErrorView::Timeout => QueryErrorView::Timeout,
        ErrorView::InvalidArgument(m) => QueryErrorView::InvalidArgument(m),
        other => QueryErrorView::Unexpected(error_debug(other)),
    }
}

/// Restate a document error for a query, so that the query path can share the
/// binding and transport helpers without losing what they mean.
pub fn document_error_as_query_error(err: DocumentError) -> (e: SqlppQueryError)
    ensures
        e@ == as_query_error(err@),
{
    match err {
        DocumentError::NotConfigured(m) => SqlppQueryError::NotConfigured(m),
        DocumentError::RequestFailed(m) => SqlppQueryError::RequestFailed(m),
        DocumentError::Unauthorized => SqlppQueryError::Unauthorized,
        DocumentError::Timeout => SqlppQueryError::Timeout,
        DocumentError::InvalidArgument(m) => SqlppQueryError::InvalidArgument(m),
        other => SqlppQueryError::Unexpected(debug_document_error(&other)),
    }
}

/// A document error means the same for a query where a query has such an error,
/// with its message as it was, and is unexpected where it has none.
pub proof fn lemma_restated_error_keeps_its_meaning(e: ErrorView)
    ensures
        e matches ErrorView::NotConfigured(m) ==> as_query_error(e) == QueryErrorView::NotConfigured(
            m,
        ),
        e matches ErrorView::RequestFailed(m) ==> as_query_error(e) == QueryErrorView::RequestFailed(
            m,
        ),
        e matches ErrorView::InvalidArgument(m) ==> as_query_error(e)
            == QueryErrorView::InvalidArgument(m),
        e is Unauthorized <==> as_query_error(e) is Unauthorized,
        e is Timeout <==> as_query_error(e) is Timeout,
        !(e is NotConfigured || e is RequestFailed || e is InvalidArgument || e is Unauthorized
            || e is Timeout) ==> as_query_error(e) is Unexpected,
{
}

} // verus!
