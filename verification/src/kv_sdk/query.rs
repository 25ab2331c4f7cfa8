//! SQL++ through the SDK, at the level of the binding's scope, so that an
//! unqualified keyspace resolves inside what the workload was granted.

use vstd::prelude::*;
use vstd::string::*;

use crate::bindings;
use crate::bindings::Workloads;
use crate::json;
use crate::json::{Json, Tree};
use crate::kv_sdk::config::{Binding, BindingView};
use crate::kv_sdk::plugin;
use crate::number;
use crate::query;
use crate::query::Position;
use crate::text;
use crate::types;
use crate::types::{
    DocumentError, ErrorView, MutationToken, QueryErrorView, QueryScanConsistency, SqlppQueryError,
    SqlppQueryOptions, SqlppValue, ValueView,
};

verus! {

/// The kinds of SDK error that say what was wrong with a statement.
#[derive(Debug, Clone, Copy, PartialEq, Eq, Structural)]
pub enum ErrorKind {
    ParsingFailure,
    BucketNotFound,
    ScopeNotFound,
    CollectionNotFound,
    IndexNotFound,
    Other,
}

/// What an SDK error means for a query. The query service classifies its own
/// failures, so the kind decides before the text does.
pub open spec fn query_error(kind: ErrorKind, said: Seq<char>) -> QueryErrorView {
    match kind {
        ErrorKind::ParsingFailure => QueryErrorView::InvalidArgument(
            "malformed SQL++ statement: "@ + said,
        ),
        ErrorKind::Other => match plugin::sdk_error(said) {
            ErrorView::Unauthorized => QueryErrorView::Unauthorized,
            ErrorView::Timeout => QueryErrorView::Timeout,
            ErrorView::InvalidArgument(m) => QueryErrorView::InvalidArgument(m),
            ErrorView::NotFound => QueryErrorView::InvalidArgument(
                "the statement referenced a keyspace that does not exist"@,
            ),
            other => QueryErrorView::Server(types::error_debug(other)),
        },
        _ => QueryErrorView::InvalidArgument(
            "the statement referenced a keyspace that does not exist: "@ + said,
        ),
    }
}

/// Map an SDK error onto the interface's query error.
pub fn to_query_error(kind: ErrorKind, said: String) -> (e: SqlppQueryError)
    ensures
        e@ == query_error(kind, said@),
{
    match kind {
        ErrorKind::ParsingFailure => SqlppQueryError::InvalidArgument(
            text::joined("malformed SQL++ statement: ", said.as_str()),
        ),
        ErrorKind::BucketNotFound
        | ErrorKind::ScopeNotFound
        | ErrorKind::CollectionNotFound
        | ErrorKind::IndexNotFound => SqlppQueryError::InvalidArgument(
            text::joined(
                "the statement referenced a keyspace that does not exist: ",
                said.as_str(),
            ),
        ),
        ErrorKind::Other => match plugin::to_document_error(said) {
            DocumentError::Unauthorized => SqlppQueryError::Unauthorized,
            DocumentError::Timeout => SqlppQueryError::Timeout,
            DocumentError::InvalidArgument(m) => SqlppQueryError::InvalidArgument(m),
            DocumentError::NotFound => SqlppQueryError::InvalidArgument(
                "the statement referenced a keyspace that does not exist".to_string(),
            ),
            other => SqlppQueryError::Server(types::debug_document_error(&other)),
        },
    }
}

/// A position that the SDK's mutation state takes.
#[derive(Debug, Clone, Copy, PartialEq, Eq)]
pub struct StateToken {
    pub partition_id: u16,
    pub partition_uuid: u64,
    pub sequence_number: u64,
}

/// How far the index must have caught up, as the SDK is told. Every token is
/// for the binding's own bucket.
#[derive(Debug, PartialEq, Eq)]
pub enum Scan {
    NotBounded,
    RequestPlus,
    AtPlus(Vec<StateToken>),
}

/// The contents of a [`Scan`].
pub enum ScanView {
    NotBounded,
    RequestPlus,
    AtPlus(Seq<StateToken>),
}

impl View for Scan {
    type V = ScanView;

    open spec fn view(&self) -> ScanView {
        match self {
            Scan::NotBounded => ScanView::NotBounded,
            Scan::RequestPlus => ScanView::RequestPlus,
            Scan::AtPlus(tokens) => ScanView::AtPlus(tokens@),
        }
    }
}

/// The positions of tokens, or why one of them is none.
pub open spec fn state_tokens(at: Seq<Position>) -> Result<Seq<StateToken>, QueryErrorView>
    decreases at.len(),
{
    if at.len() == 0 {
        Ok(seq![])
    } else {
        match state_tokens(at.drop_last()) {
            Err(e) => Err(e),
            Ok(front) => if at.last().partition_id <= u16::MAX {
                Ok(
                    front.push(
                        StateToken {
                            partition_id: at.last().partition_id as u16,
                            partition_uuid: at.last().partition_uuid,
                            sequence_number: at.last().sequence_number,
                        },
                    ),
                )
            } else {
                Err(
                    QueryErrorView::InvalidArgument(
                        "consistent-with partition-id "@ + number::decimal(
                            at.last().partition_id as nat,
                        ) + " is not a valid vbucket id"@,
                    ),
                )
            },
        }
    }
}

proof fn lemma_state_tokens_prefix(at: Seq<Position>, k: int)
    requires
        0 <= k <= at.len(),
        state_tokens(at.take(k)) is Err,
    ensures
        state_tokens(at) == state_tokens(at.take(k)),
    decreases at.len(),
{
    if k < at.len() {
        assert(at.drop_last().take(k) =~= at.take(k));
        lemma_state_tokens_prefix(at.drop_last(), k);
    } else {
        assert(at.take(k) =~= at);
    }
}

/// The scan consistency of a query. `consistent-with` implies waiting for the
/// writes it names, over whatever scan consistency was also set.
pub open spec fn scan_of(options: Option<SqlppQueryOptions>, bucket: Seq<char>) -> Result<
    Option<ScanView>,
    QueryErrorView,
> {
    match options {
        None => Ok(None),
        Some(o) => match o.consistent_with {
            Some(state) => {
                let tokens = query::tokens_view(state.tokens@);
                let at = query::positions(tokens);
                match query::foreign(tokens, bucket) {
                    Some(other) => Err(
                        QueryErrorView::InvalidArgument(query::foreign_text(other, bucket)),
                    ),
                    None => if query::some_zeroed(at) {
                        Err(QueryErrorView::InvalidArgument(query::zeroed_text()))
                    } else if tokens.len() == 0 {
                        Err(
                            QueryErrorView::InvalidArgument(
                                "consistent-with was set with no mutation tokens; omit it, or use scan-consistency request-plus"@,
                            ),
                        )
                    } else {
                        match state_tokens(at) {
                            Ok(tokens) => Ok(Some(ScanView::AtPlus(tokens))),
                            Err(e) => Err(e),
                        }
                    },
                }
            },
            None => Ok(
                Some(
                    match o.scan_consistency {
                        QueryScanConsistency::NotBounded => ScanView::NotBounded,
                        QueryScanConsistency::RequestPlus => ScanView::RequestPlus,
                    },
                ),
            ),
        },
    }
}

fn tokens_for(tokens: &[MutationToken]) -> (r: Result<Vec<StateToken>, SqlppQueryError>)
    ensures
        match r {
            Ok(out) => state_tokens(query::positions(query::tokens_view(tokens@))) == Ok::<
                Seq<StateToken>,
                QueryErrorView,
            >(out@),
            Err(e) => state_tokens(query::positions(query::tokens_view(tokens@))) == Err::<
                Seq<StateToken>,
                QueryErrorView,
            >(e@),
        },
{
    let ghost at = query::positions(query::tokens_view(tokens@));
    let mut out: Vec<StateToken> = Vec::new();
    let mut i: usize = 0;
    assert(at.take(0).len() == 0);
    assert(out@ =~= seq![]);
    while i < tokens.len()
        invariant
            i <= tokens@.len(),
            at == query::positions(query::tokens_view(tokens@)),
            state_tokens(at.take(i as int)) == Ok::<Seq<StateToken>, QueryErrorView>(out@),
        decreases tokens@.len() - i,
    {
        proof {
            assert(at.take(i + 1).drop_last() =~= at.take(i as int));
            assert(at.take(i + 1).last() == at[i as int]);
            assert(query::tokens_view(tokens@)[i as int] == tokens@[i as int]@);
        }
        let id = tokens[i].partition_id;
        if id > u16::MAX as u64 {
            let id = number::decimal_text(id);
            proof {
                lemma_state_tokens_prefix(at, i + 1);
            }
            return Err(
                SqlppQueryError::InvalidArgument(
                    text::joined3(
                        "consistent-with partition-id ",
                        id.as_str(),
                        " is not a valid vbucket id",
                    ),
                ),
            );
        }
        out.push(
            StateToken {
                partition_id: id as u16,
                partition_uuid: tokens[i].partition_uuid,
                sequence_number: tokens[i].sequence_number,
            },
        );
        i += 1;
    }
    assert(at.take(i as int) =~= at);
    Ok(out)
}

/// The contents of a decided scan consistency.
pub open spec fn scan_view(r: Result<Option<Scan>, SqlppQueryError>) -> Result<
    Option<ScanView>,
    QueryErrorView,
> {
    match r {
        Ok(Some(s)) => Ok(Some(s@)),
        Ok(None) => Ok(None),
        Err(e) => Err(e@),
    }
}

/// Decide how far the index must have caught up.
///
/// A scan vector that the query service would accept but that cannot mean what
/// the caller thinks is worse than an error, because the query still returns,
/// just without having waited for anything.
pub fn query_scan_consistency(options: Option<&SqlppQueryOptions>, binding: &Binding) -> (r: Result<
    Option<Scan>,
    SqlppQueryError,
>)
    ensures
        scan_view(r) == scan_of(
            match options {
                Some(o) => Some(*o),
                None => None,
            },
            binding.bucket@,
        ),
{
    let o = match options {
        Some(o) => o,
        None => return Ok(None),
    };
    match &o.consistent_with {
        Some(state) => {
            let tokens = state.tokens.as_slice();
            match query::reject_foreign(tokens, binding.bucket.as_str()) {
                Ok(_) => {},
                Err(e) => return Err(e),
            }
            if query::any_zeroed(tokens) {
                return Err(SqlppQueryError::InvalidArgument(query::zeroed_message()));
            }
            if tokens.len() == 0 {
                return Err(
                    SqlppQueryError::InvalidArgument(
                        "consistent-with was set with no mutation tokens; omit it, or use scan-consistency request-plus".to_string(),
                    ),
                );
            }
            match tokens_for(tokens) {
                Ok(tokens) => Ok(Some(Scan::AtPlus(tokens))),
                Err(e) => Err(e),
            }
        },
        None => Ok(
            Some(
                match o.scan_consistency {
                    QueryScanConsistency::NotBounded => Scan::NotBounded,
                    QueryScanConsistency::RequestPlus => Scan::RequestPlus,
                },
            ),
        ),
    }
}

/// The settings of a query.
pub struct QuerySettings {
    /// Positional parameters, left unset when there are none.
    pub args: Option<Vec<Json>>,
    pub scan: Option<Scan>,
    /// How long the server may take, in milliseconds.
    pub timeout_ms: u32,
}

/// The contents of [`QuerySettings`].
pub struct QueryView {
    pub args: Option<Seq<Tree>>,
    pub scan: Option<ScanView>,
    pub timeout_ms: u32,
}

impl View for QuerySettings {
    type V = QueryView;

    open spec fn view(&self) -> QueryView {
        QueryView {
            args: match self.args {
                Some(a) => Some(query::trees(a@)),
                None => None,
            },
            scan: match self.scan {
                Some(s) => Some(s@),
                None => None,
            },
            timeout_ms: self.timeout_ms,
        }
    }
}

/// What `query` does.
pub open spec fn query_of(
    caller: Option<ErrorView>,
    b: BindingView,
    params: Seq<ValueView>,
    options: Option<SqlppQueryOptions>,
) -> Result<QueryView, QueryErrorView> {
    match caller {
        Some(e) => Err(types::as_query_error(e)),
        None => match scan_of(options, b.bucket) {
            Err(e) => Err(e),
            Ok(scan) => match query::arguments_of(params) {
                Err(e) => Err(e),
                Ok(args) => Ok(
                    QueryView {
                        args: if args.len() > 0 {
                            Some(args)
                        } else {
                            None
                        },
                        scan,
                        timeout_ms: plugin::deadline_of(
                            b.timeout_ms,
                            match options {
                                Some(o) => Some(o.timeout_ns),
                                None => None,
                            },
                        ),
                    },
                ),
            },
        },
    }
}

/// Decide a `query`.
pub fn query<'a>(
    bound: &'a Workloads<Binding>,
    workload: &str,
    params: &[SqlppValue],
    options: Option<&SqlppQueryOptions>,
) -> (r: Result<(&'a Binding, QuerySettings), SqlppQueryError>)
    ensures
        (match r {
            Ok((_, s)) => Ok(s@),
            Err(e) => Err(e@),
        }) == query_of(
            bindings::caller_error(bound@, workload@),
            bound@[workload@]@,
            query::values(params@),
            match options {
                Some(o) => Some(*o),
                None => None,
            },
        ),
        match r {
            Ok((b, _)) => bound@.contains_key(workload@) && *b == bound@[workload@],
            Err(_) => true,
        },
{
    let binding = match bindings::caller_binding(bound, workload) {
        Ok(binding) => binding,
        Err(e) => return Err(types::document_error_as_query_error(e)),
    };
    let scan = match query_scan_consistency(options, binding) {
        Ok(scan) => scan,
        Err(e) => return Err(e),
    };
    let timeout = match options {
        Some(o) => Some(o.timeout_ns),
        None => None,
    };
    let timeout_ms = plugin::effective_timeout_ms(binding, timeout);
    let args = match query::arguments(params) {
        Ok(args) => args,
        Err(e) => return Err(e),
    };
    assert(query::trees(args@).len() == args@.len());
    let args = if args.len() > 0 {
        Some(args)
    } else {
        None
    };
    Ok((binding, QuerySettings { args, scan, timeout_ms }))
}

/// What a query's rows are given back as.
pub fn rows_value(rows: Vec<Json>) -> (v: SqlppValue)
    ensures
        v@ == ValueView::Json(json::json_text(Tree::Array(query::trees(rows@)))),
{
    let ghost all = query::trees(rows@);
    let list = Json::Array(rows);
    assert(list.tree()->Array_0 =~= all);
    SqlppValue::Json(json::write(&list))
}

/// A query that has to observe writes waits for exactly those: one token for
/// each, with its partition, its uuid and its sequence number, and none of them
/// for another bucket.
pub proof fn lemma_consistent_with_waits(options: SqlppQueryOptions, bucket: Seq<char>)
    requires
        options.consistent_with is Some,
    ensures
        ({
            let given = query::tokens_view(options.consistent_with->0.tokens@);
            scan_of(Some(options), bucket) matches Ok(scan) ==> {
                &&& scan matches Some(ScanView::AtPlus(tokens))
                &&& tokens.len() == given.len()
                &&& tokens.len() > 0
                &&& forall|i: int|
                    0 <= i < tokens.len() ==> {
                        &&& (#[trigger] tokens[i]).partition_id == given[i].partition_id
                        &&& tokens[i].partition_uuid == given[i].partition_uuid
                        &&& tokens[i].sequence_number == given[i].sequence_number
                        &&& given[i].bucket_name == bucket || given[i].bucket_name.len() == 0
                    }
            }
        }),
{
    let given = query::tokens_view(options.consistent_with->0.tokens@);
    let at = query::positions(given);
    lemma_state_tokens(at);
    if let Ok(scan) = scan_of(Some(options), bucket) {
        let tokens = scan->0->AtPlus_0;
        assert forall|i: int| 0 <= i < tokens.len() implies {
            &&& (#[trigger] tokens[i]).partition_id == given[i].partition_id
            &&& tokens[i].partition_uuid == given[i].partition_uuid
            &&& tokens[i].sequence_number == given[i].sequence_number
            &&& given[i].bucket_name == bucket || given[i].bucket_name.len() == 0
        } by {
            assert(at[i].partition_id == given[i].partition_id);
            query::lemma_none_foreign(given, bucket, i);
        }
    }
}

proof fn lemma_state_tokens(at: Seq<Position>)
    ensures
        state_tokens(at) matches Ok(tokens) ==> {
            &&& tokens.len() == at.len()
            &&& forall|i: int|
                0 <= i < at.len() ==> {
                    &&& (#[trigger] tokens[i]).partition_id == at[i].partition_id
                    &&& tokens[i].partition_uuid == at[i].partition_uuid
                    &&& tokens[i].sequence_number == at[i].sequence_number
                }
        },
    decreases at.len(),
{
    if at.len() > 0 {
        let front = at.drop_last();
        lemma_state_tokens(front);
        if let Ok(tokens) = state_tokens(at) {
            let first = state_tokens(front)->Ok_0;
            assert forall|i: int| 0 <= i < at.len() implies {
                &&& (#[trigger] tokens[i]).partition_id == at[i].partition_id
                &&& tokens[i].partition_uuid == at[i].partition_uuid
                &&& tokens[i].sequence_number == at[i].sequence_number
            } by {
                if i < front.len() {
                    assert(tokens[i] == first[i]);
                    assert(front[i] == at[i]);
                }
            }
        }
    }
}

} // verus!
