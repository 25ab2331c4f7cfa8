//! SQL++ over the Data API, which fronts the query service on a passthrough
//! path: a query travels the same credentialed endpoint as a document call.

use vstd::prelude::*;
use vstd::string::*;
use vstd::utf8::*;

use crate::bindings;
use crate::bindings::Workloads;
use crate::data_api::api;
use crate::data_api::api::{BodyView, ErrorBody};
use crate::data_api::config::{Binding, BindingView};
use crate::data_api::mutation;
use crate::data_api::mutation::{Parts, Token, TokenForm};
use crate::data_api::plugin;
use crate::data_api::plugin::{Reply, ReplyView};
use crate::http::{HttpRequest, Method, RequestView};
use crate::json;
use crate::json::{Json, Tree};
use crate::number;
use crate::query;
use crate::text;
use crate::types;
use crate::types::{
    ErrorView, MutationState, MutationToken, QueryErrorView, SqlppQueryError, SqlppQueryOptions,
    SqlppValue, TokenView, ValueView,
};
use crate::wire;

verus! {

/// The query service's response envelope.
pub struct QueryBody {
    pub results: Vec<Json>,
    pub errors: Vec<Json>,
}

/// The time limit of a query, in milliseconds: the caller's, rounded up and
/// capped at `u32`, or the binding's when the caller sets none.
pub open spec fn query_timeout(own: u32, timeout_ns: u64) -> u32 {
    if timeout_ns > 0 {
        number::at_most(number::ceil_div(timeout_ns as nat, 1_000_000), u32::MAX as nat) as u32
    } else {
        own
    }
}

/// A caller's time limit is never cut short: it is rounded up, and only a limit
/// beyond the largest that can be sent is capped at that.
pub proof fn lemma_deadline_is_honoured(own: u32, timeout_ns: u64)
    requires
        timeout_ns > 0,
    ensures
        query_timeout(own, timeout_ns) > 0,
        query_timeout(own, timeout_ns) * 1_000_000 >= timeout_ns || query_timeout(own, timeout_ns)
            == u32::MAX,
{
    number::lemma_rounding_keeps_a_limit(timeout_ns, 1_000_000);
}

/// The request members that do not depend on options.
pub open spec fn base_members(b: BindingView, statement: Seq<char>, args: Seq<Tree>) -> Map<
    Seq<char>,
    Tree,
> {
    let m = Map::<Seq<char>, Tree>::empty().insert("statement"@, Tree::Text(statement));
    let m = if args.len() > 0 {
        m.insert("args"@, Tree::Array(args))
    } else {
        m
    };
    m.insert("query_context"@, Tree::Text(query::context_text(b.bucket, b.scope)))
}

/// The request members that options add.
pub open spec fn option_members(m: Map<Seq<char>, Tree>, o: SqlppQueryOptions) -> Map<
    Seq<char>,
    Tree,
> {
    let m = m.insert(
        "scan_consistency"@,
        Tree::Text(query::consistency_text(o.scan_consistency)),
    ).insert("readonly"@, Tree::Bool(o.readonly)).insert("metrics"@, Tree::Bool(o.metrics));
    match o.client_context_id {
        Some(id) => m.insert("client_context_id"@, Tree::Text(id@)),
        None => m,
    }
}

/// The scan vector that a query has to wait for: none when it names no writes.
pub open spec fn wanted_vector(bucket: Seq<char>, state: Option<MutationState>) -> Result<
    Option<Tree>,
    QueryErrorView,
> {
    match state {
        None => Ok(None),
        Some(state) => {
            let tokens = query::tokens_view(state.tokens@);
            match query::foreign(tokens, bucket) {
                Some(other) => Err(
                    QueryErrorView::InvalidArgument(query::foreign_text(other, bucket)),
                ),
                None => match mutation::vector_in(token_forms(tokens)) {
                    Some(vector) => Ok(Some(vector)),
                    None => Err(QueryErrorView::InvalidArgument(query::zeroed_text())),
                },
            }
        },
    }
}

/// The tokens of a caller, which are always taken apart.
pub open spec fn token_forms(tokens: Seq<TokenView>) -> Seq<TokenForm> {
    Seq::new(
        tokens.len(),
        |i: int|
            TokenForm::Structured(
                mutation::PartsView {
                    bucket: tokens[i].bucket_name,
                    partition_id: tokens[i].partition_id,
                    partition_uuid: tokens[i].partition_uuid,
                    sequence_number: tokens[i].sequence_number,
                },
            ),
    )
}

/// The writes that options name.
pub open spec fn state_in(options: Option<SqlppQueryOptions>) -> Option<MutationState> {
    match options {
        Some(o) => o.consistent_with,
        None => None,
    }
}

/// The request that a query becomes, with its time limit. A scan vector implies
/// `at_plus`, which overrides whatever scan consistency was also set.
pub open spec fn request_members(
    b: BindingView,
    statement: Seq<char>,
    args: Seq<Tree>,
    options: Option<SqlppQueryOptions>,
) -> Result<(Map<Seq<char>, Tree>, u32), QueryErrorView> {
    match wanted_vector(b.bucket, state_in(options)) {
        Err(e) => Err(e),
        Ok(vector) => {
            let m = base_members(b, statement, args);
            let (m, timeout_ms) = match options {
                Some(o) => (option_members(m, o), query_timeout(b.timeout_ms, o.timeout_ns)),
                None => (m, b.timeout_ms),
            };
            let m = m.insert(
                "timeout"@,
                Tree::Text(number::decimal(timeout_ms as nat) + "ms"@),
            );
            match vector {
                Some(v) => Ok(
                    (
                        m.insert("scan_vector"@, v).insert(
                            "scan_consistency"@,
                            Tree::Text("at_plus"@),
                        ),
                        timeout_ms,
                    ),
                ),
                None => Ok((m, timeout_ms)),
            }
        },
    }
}

fn structured(tokens: &Vec<MutationToken>) -> (out: Vec<Token>)
    ensures
        mutation::forms(out@) == token_forms(query::tokens_view(tokens@)),
{
    let ghost all = token_forms(query::tokens_view(tokens@));
    let mut out: Vec<Token> = Vec::new();
    let mut i: usize = 0;
    while i < tokens.len()
        invariant
            i <= tokens@.len(),
            all == token_forms(query::tokens_view(tokens@)),
            mutation::forms(out@) =~= all.take(i as int),
        decreases tokens@.len() - i,
    {
        let ghost before = mutation::forms(out@);
        let token = Token::Structured(
            Parts {
                bucket: tokens[i].bucket_name.clone(),
                partition_id: tokens[i].partition_id,
                partition_uuid: tokens[i].partition_uuid,
                sequence_number: tokens[i].sequence_number,
            },
        );
        let ghost form = token@;
        assert(query::tokens_view(tokens@)[i as int] == tokens@[i as int]@);
        assert(form == all[i as int]);
        out.push(token);
        assert(mutation::forms(out@) =~= before.push(form));
        i += 1;
    }
    assert(all.take(i as int) =~= all);
    out
}

fn vector_for(bucket: &str, options: Option<&SqlppQueryOptions>) -> (r: Result<
    Option<Json>,
    SqlppQueryError,
>)
    ensures
        ({
            let want = wanted_vector(
                bucket@,
                state_in(
                    match options {
                        Some(o) => Some(*o),
                        None => None,
                    },
                ),
            );
            match r {
                Ok(None) => want == Ok::<Option<Tree>, QueryErrorView>(None),
                Ok(Some(j)) => want == Ok::<Option<Tree>, QueryErrorView>(Some(j.tree())),
                Err(e) => want == Err::<Option<Tree>, QueryErrorView>(e@),
            }
        }),
{
    match options {
        Some(o) => match &o.consistent_with {
            Some(state) => {
                match query::reject_foreign(state.tokens.as_slice(), bucket) {
                    Ok(_) => {},
                    Err(e) => return Err(e),
                }
                let tokens = structured(&state.tokens);
                match mutation::scan_vector(tokens.as_slice()) {
                    Some(vector) => Ok(Some(vector)),
                    None => Err(SqlppQueryError::InvalidArgument(query::zeroed_message())),
                }
            },
            None => Ok(None),
        },
        None => Ok(None),
    }
}

/// Build the request that a query becomes, from parameters that were read.
pub fn query_request(
    binding: &Binding,
    statement: String,
    args: Vec<Json>,
    options: Option<&SqlppQueryOptions>,
) -> (r: Result<(Json, u32), SqlppQueryError>)
    ensures
        ({
            let want = request_members(
                binding@,
                statement@,
                query::trees(args@),
                match options {
                    Some(o) => Some(*o),
                    None => None,
                },
            );
            match r {
                Ok((j, timeout_ms)) => want is Ok && j.tree() == Tree::Object(want->Ok_0.0)
                    && timeout_ms == want->Ok_0.1,
                Err(e) => want == Err::<(Map<Seq<char>, Tree>, u32), QueryErrorView>(e@),
            }
        }),
{
    let ghost spec_args = query::trees(args@);
    let mut request: Vec<(String, Json)> = Vec::new();
    assert(json::members(request@) =~= Map::<Seq<char>, Tree>::empty());
    json::put(&mut request, "statement".to_string(), Json::Text(statement));
    if args.len() > 0 {
        let list = Json::Array(args);
        assert(list.tree()->Array_0 =~= spec_args);
        json::put(&mut request, "args".to_string(), list);
    }
    json::put(
        &mut request,
        "query_context".to_string(),
        Json::Text(query::query_context(binding.bucket.as_str(), binding.scope.as_str())),
    );
    let vector = match vector_for(binding.bucket.as_str(), options) {
        Ok(vector) => vector,
        Err(e) => return Err(e),
    };
    let mut timeout_ms: u32 = binding.timeout_ms;
    match options {
        Some(o) => {
            json::put(
                &mut request,
                "scan_consistency".to_string(),
                Json::Text(query::consistency_name(o.scan_consistency)),
            );
            json::put(&mut request, "readonly".to_string(), Json::Bool(o.readonly));
            json::put(&mut request, "metrics".to_string(), Json::Bool(o.metrics));
            match &o.client_context_id {
                Some(id) => {
                    json::put(
                        &mut request,
                        "client_context_id".to_string(),
                        Json::Text(id.clone()),
                    );
                },
                None => {},
            }
            if o.timeout_ns > 0 {
                timeout_ms = number::milliseconds(o.timeout_ns);
            }
        },
        None => {},
    }
    let limit = number::decimal_text(timeout_ms as u64);
    json::put(
        &mut request,
        "timeout".to_string(),
        Json::Text(text::joined(limit.as_str(), "ms")),
    );
    match vector {
        Some(v) => {
            json::put(&mut request, "scan_vector".to_string(), v);
            json::put(
                &mut request,
                "scan_consistency".to_string(),
                Json::Text("at_plus".to_string()),
            );
        },
        None => {},
    }
    Ok((Json::Object(request), timeout_ms))
}

/// What `query` does: the request that goes out, or why it is refused. The time
/// limit of a query also bounds the transport.
pub open spec fn query_of(
    caller: Option<ErrorView>,
    b: BindingView,
    statement: Seq<char>,
    params: Seq<ValueView>,
    options: Option<SqlppQueryOptions>,
) -> Result<RequestView, QueryErrorView> {
    match caller {
        Some(e) => Err(types::as_query_error(e)),
        None => match query::arguments_of(params) {
            Err(e) => Err(e),
            Ok(args) => match request_members(b, statement, args, options) {
                Err(e) => Err(e),
                Ok((m, timeout_ms)) => Ok(
                    plugin::request_of(
                        BindingView { timeout_ms, ..b },
                        Method::Post,
                        b.base_path + "/_p/query/query/service"@,
                        plugin::json_type(),
                        Some(encode_utf8(json::json_text(Tree::Object(m)))),
                    ),
                ),
            },
        },
    }
}

/// Decide a `query`.
pub fn query(
    bound: &Workloads<Binding>,
    workload: &str,
    statement: String,
    params: &[SqlppValue],
    options: Option<&SqlppQueryOptions>,
) -> (r: Result<HttpRequest, SqlppQueryError>)
    ensures
        ({
            let want = query_of(
                bindings::caller_error(bound@, workload@),
                bound@[workload@]@,
                statement@,
                query::values(params@),
                match options {
                    Some(o) => Some(*o),
                    None => None,
                },
            );
            match r {
                Ok(request) => want == Ok::<RequestView, QueryErrorView>(request@),
                Err(e) => want == Err::<RequestView, QueryErrorView>(e@),
            }
        }),
{
    let binding = match bindings::caller_binding(bound, workload) {
        Ok(binding) => binding,
        Err(e) => return Err(types::document_error_as_query_error(e)),
    };
    let args = match query::arguments(params) {
        Ok(args) => args,
        Err(e) => return Err(e),
    };
    let (request, timeout_ms) = match query_request(binding, statement, args, options) {
        Ok(request) => request,
        Err(e) => return Err(e),
    };
    let path = text::joined(binding.base_path.as_str(), "/_p/query/query/service");
    let written = json::write(&request);
    let payload = wire::copy_bytes(written.as_str().as_bytes());
    let binding = binding.with_timeout_ms(timeout_ms);
    let mut headers: Vec<(&str, String)> = Vec::new();
    headers.push(("content-type", "application/json".to_string()));
    assert(plugin::pairs(headers@) =~= plugin::json_type());
    Ok(plugin::request(&binding, Method::Post, path, headers.as_slice(), Some(payload)))
}

/// The contents of a parsed envelope: its rows, and whether it carries errors.
pub open spec fn envelope_view(envelope: Result<QueryBody, String>) -> Result<
    (Seq<Tree>, bool),
    Seq<char>,
> {
    match envelope {
        Ok(body) => Ok((query::trees(body.results@), body.errors@.len() > 0)),
        Err(e) => Err(e@),
    }
}

/// What the query service's reply means. A success can still carry errors of
/// the statement in its envelope; they are surfaced rather than returned as an
/// empty, apparently successful result.
pub open spec fn answer_of(
    reply: ReplyView,
    parsed: BodyView,
    envelope: Result<(Seq<Tree>, bool), Seq<char>>,
) -> Result<ValueView, QueryErrorView> {
    if !reply.ok() {
        Err(plugin::query_error(api::failure_of(reply.status, reply.body, parsed)))
    } else {
        match envelope {
            Err(e) => Err(
                QueryErrorView::Unexpected(
                    "the Query Service response was not the expected JSON object: "@ + e,
                ),
            ),
            Ok((rows, failed)) => if failed {
                Err(plugin::query_error(api::failure_of(200, reply.body, parsed)))
            } else {
                Ok(ValueView::Json(json::json_text(Tree::Array(rows))))
            },
        }
    }
}

/// Turn the query service's reply into what the caller gets. `parsed` is what
/// the body says as an error, and `envelope` what it says as an answer.
pub fn query_answer(reply: &Reply, parsed: &ErrorBody, envelope: Result<QueryBody, String>) -> (r:
    Result<SqlppValue, SqlppQueryError>)
    ensures
        types::query_outcome(r) == answer_of(reply@, parsed@, envelope_view(envelope)),
{
    if !reply.ok() {
        return Err(
            plugin::to_query_error(
                api::classify_parsed(reply.status, reply.body.as_slice(), parsed),
            ),
        );
    }
    match envelope {
        Err(e) => Err(
            SqlppQueryError::Unexpected(
                text::joined(
                    "the Query Service response was not the expected JSON object: ",
                    e.as_str(),
                ),
            ),
        ),
        Ok(body) => {
            if body.errors.len() > 0 {
                return Err(
                    plugin::to_query_error(
                        api::classify_parsed(200, reply.body.as_slice(), parsed),
                    ),
                );
            }
            let ghost rows = query::trees(body.results@);
            let list = Json::Array(body.results);
            assert(list.tree()->Array_0 =~= rows);
            Ok(SqlppValue::Json(json::write(&list)))
        },
    }
}

/// A query that has to observe writes asks the service to wait for exactly
/// those, whatever scan consistency its options also name.
pub proof fn lemma_consistent_with_waits(
    b: BindingView,
    statement: Seq<char>,
    args: Seq<Tree>,
    options: SqlppQueryOptions,
)
    requires
        options.consistent_with is Some,
    ensures
        request_members(b, statement, args, Some(options)) matches Ok((m, _))
            ==> m.contains_key("scan_consistency"@) && m["scan_consistency"@] == Tree::Text(
            "at_plus"@,
        ) && m.contains_key("scan_vector"@) && m["scan_vector"@] == Tree::Object(
            query::scan_map(
                query::positions(query::tokens_view(options.consistent_with->0.tokens@)),
            ),
        ),
{
    let tokens = query::tokens_view(options.consistent_with->0.tokens@);
    reveal_strlit("scan_consistency");
    reveal_strlit("scan_vector");
    assert("scan_consistency"@.len() == 16 && "scan_vector"@.len() == 11);
    assert(mutation::positions(token_forms(tokens)) =~= query::positions(tokens));
}

/// A query that names writes it cannot wait for is refused, never sent without
/// waiting.
pub proof fn lemma_unusable_tokens_are_refused(
    b: BindingView,
    statement: Seq<char>,
    args: Seq<Tree>,
    options: SqlppQueryOptions,
    state: MutationState,
    i: int,
)
    requires
        options.consistent_with == Some(state),
        state.tokens@.len() == 0 || (0 <= i < state.tokens@.len()
            && state.tokens@[i].partition_uuid == 0),
    ensures
        request_members(b, statement, args, Some(options)) is Err,
{
    let forms = token_forms(query::tokens_view(state.tokens@));
    if state.tokens@.len() > 0 {
        assert(!mutation::usable(forms[i]));
    }
}

} // verus!
