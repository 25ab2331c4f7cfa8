//! SQL++ beside the KV protocol: the query service speaks HTTP, so a query goes
//! out as a request to it rather than on the socket.

use vstd::prelude::*;
use vstd::string::*;
use vstd::utf8::*;

use crate::bindings;
use crate::bindings::Workloads;
use crate::credentials;
use crate::http;
use crate::http::{HttpRequest, Method, RequestView};
use crate::json;
use crate::json::{Json, Tree};
use crate::number;
use crate::query;
use crate::sockets::config::{Binding, BindingView};
use crate::text;
use crate::types;
use crate::types::{
    ErrorView, MutationState, QueryErrorView, SqlppQueryError, SqlppQueryOptions, SqlppValue,
    ValueView,
};
use crate::wire;

verus! {

/// The request members that do not depend on options. The binding's time limit
/// is the service's too.
pub open spec fn base_members(b: BindingView, statement: Seq<char>, args: Seq<Tree>) -> Map<
    Seq<char>,
    Tree,
> {
    let m = Map::<Seq<char>, Tree>::empty().insert("statement"@, Tree::Text(statement)).insert(
        "query_context"@,
        Tree::Text(query::context_text(b.bucket, b.scope)),
    ).insert("timeout"@, Tree::Text(number::decimal(b.timeout_ms as nat) + "ms"@));
    if args.len() > 0 {
        m.insert("args"@, Tree::Array(args))
    } else {
        m
    }
}

/// Request members that wait for writes.
pub open spec fn consistent_members(
    m: Map<Seq<char>, Tree>,
    bucket: Seq<char>,
    state: MutationState,
) -> Result<Map<Seq<char>, Tree>, QueryErrorView> {
    let tokens = query::tokens_view(state.tokens@);
    let at = query::positions(tokens);
    match query::foreign(tokens, bucket) {
        Some(other) => Err(QueryErrorView::InvalidArgument(query::foreign_text(other, bucket))),
        None => if tokens.len() == 0 || query::some_zeroed(at) {
            Err(QueryErrorView::InvalidArgument(query::zeroed_text()))
        } else {
            Ok(
                m.insert("scan_consistency"@, Tree::Text("at_plus"@)).insert(
                    "scan_vectors"@,
                    Tree::Object(
                        Map::<Seq<char>, Tree>::empty().insert(
                            bucket,
                            Tree::Object(query::scan_map(at)),
                        ),
                    ),
                ),
            )
        },
    }
}

/// The request that a query becomes. `consistent-with` implies `at_plus`, over
/// whatever scan consistency was also set.
pub open spec fn request_members(
    b: BindingView,
    statement: Seq<char>,
    args: Seq<Tree>,
    options: Option<SqlppQueryOptions>,
) -> Result<Map<Seq<char>, Tree>, QueryErrorView> {
    let m = base_members(b, statement, args);
    match options {
        None => Ok(m),
        Some(o) => {
            let m = m.insert("readonly"@, Tree::Bool(o.readonly));
            match o.consistent_with {
                Some(state) => consistent_members(m, b.bucket, state),
                None => Ok(
                    m.insert(
                        "scan_consistency"@,
                        Tree::Text(query::consistency_text(o.scan_consistency)),
                    ),
                ),
            }
        },
    }
}

/// Build the request that a query becomes, from parameters that were read.
pub fn query_request(
    binding: &Binding,
    statement: String,
    args: Vec<Json>,
    options: Option<&SqlppQueryOptions>,
) -> (r: Result<Json, SqlppQueryError>)
    ensures
        ({
            let want = request_members(
                binding@,
                statement@,
                query::trees(args@),
                match options {
                    Some(o) => Some(*o),
                    None => None,
                },
            );
            match r {
                Ok(j) => want is Ok && j.tree() == Tree::Object(want->Ok_0),
                Err(e) => want == Err::<Map<Seq<char>, Tree>, QueryErrorView>(e@),
            }
        }),
{
    let ghost spec_args = query::trees(args@);
    let mut request: Vec<(String, Json)> = Vec::new();
    assert(json::members(request@) =~= Map::<Seq<char>, Tree>::empty());
    json::put(&mut request, "statement".to_string(), Json::Text(statement));
    json::put(
        &mut request,
        "query_context".to_string(),
        Json::Text(query::query_context(binding.bucket.as_str(), binding.scope.as_str())),
    );
    let limit = number::decimal_text(binding.timeout_ms as u64);
    json::put(
        &mut request,
        "timeout".to_string(),
        Json::Text(text::joined(limit.as_str(), "ms")),
    );
    if args.len() > 0 {
        let list = Json::Array(args);
        assert(list.tree()->Array_0 =~= spec_args);
        json::put(&mut request, "args".to_string(), list);
    }
    match options {
        Some(o) => {
            json::put(&mut request, "readonly".to_string(), Json::Bool(o.readonly));
            match &o.consistent_with {
                Some(state) => {
                    let tokens = state.tokens.as_slice();
                    match query::reject_foreign(tokens, binding.bucket.as_str()) {
                        Ok(_) => {},
                        Err(e) => return Err(e),
                    }
                    if tokens.len() == 0 || query::any_zeroed(tokens) {
                        return Err(SqlppQueryError::InvalidArgument(query::zeroed_message()));
                    }
                    let vector = query::vector_of(tokens);
                    let mut buckets: Vec<(String, Json)> = Vec::new();
                    assert(json::members(buckets@) =~= Map::<Seq<char>, Tree>::empty());
                    json::put(&mut buckets, binding.bucket.clone(), Json::Object(vector));
                    json::put(
                        &mut request,
                        "scan_consistency".to_string(),
                        Json::Text("at_plus".to_string()),
                    );
                    json::put(&mut request, "scan_vectors".to_string(), Json::Object(buckets));
                },
                None => {
                    json::put(
                        &mut request,
                        "scan_consistency".to_string(),
                        Json::Text(query::consistency_name(o.scan_consistency)),
                    );
                },
            }
        },
        None => {},
    }
    Ok(Json::Object(request))
}

/// The bytes that a query sends, or why it is refused.
pub open spec fn query_body(
    b: BindingView,
    statement: Seq<char>,
    params: Seq<ValueView>,
    options: Option<SqlppQueryOptions>,
) -> Result<Seq<u8>, QueryErrorView> {
    match query::arguments_of(params) {
        Err(e) => Err(e),
        Ok(args) => match request_members(b, statement, args, options) {
            Err(e) => Err(e),
            Ok(m) => Ok(encode_utf8(json::json_text(Tree::Object(m)))),
        },
    }
}

/// The request to the query service for a body.
pub open spec fn service_request(b: BindingView, body: Seq<u8>) -> RequestView {
    RequestView {
        method: Method::Post,
        secure: false,
        authority: b.host + ":"@ + number::decimal(b.query_port as nat),
        path: "/query/service"@,
        headers: seq![
            http::field(
                "authorization"@,
                "Basic "@ + credentials::base64_of(
                    encode_utf8(b.username + ":"@ + b.password),
                ),
            ),
            http::field("content-type"@, "application/json"@),
            http::field("content-length"@, number::decimal(body.len())),
        ],
        body: Some(body),
        timeout_ns: Some(http::nanoseconds(b.timeout_ms)),
    }
}

/// The request to the query service for a body.
pub fn query_service(binding: &Binding, body: Vec<u8>) -> (request: HttpRequest)
    ensures
        request@ == service_request(binding@, body@),
{
    let pair = text::joined3(binding.username.as_str(), ":", binding.password.as_str());
    let encoded = credentials::base64(pair.as_str().as_bytes());
    let credential = text::joined("Basic ", encoded.as_str());
    let length = number::decimal_text(body.len() as u64);
    let port = number::decimal_text(binding.query_port as u64);
    let mut headers: Vec<(String, Vec<u8>)> = Vec::new();
    assert(http::fields(headers@) =~= seq![]);
    http::append(&mut headers, "authorization", credential.as_str());
    http::append(&mut headers, "content-type", "application/json");
    http::append(&mut headers, "content-length", length.as_str());
    let request = HttpRequest {
        method: Method::Post,
        secure: false,
        authority: text::joined3(binding.host.as_str(), ":", port.as_str()),
        path: "/query/service".to_string(),
        headers,
        body: Some(body),
        timeout_ns: Some(http::timeout_ns(binding.timeout_ms)),
    };
    assert(request@.headers =~= service_request(binding@, request.body->0@).headers);
    request
}

/// What a refused header field of the request means.
pub fn header_rejection(name: &str, reason: &str) -> (e: SqlppQueryError)
    ensures
        e@ == QueryErrorView::Unexpected("header `"@ + name@ + "` rejected: "@ + reason@),
{
    let mut s = text::joined3("header `", name, "` rejected: ");
    s.append(reason);
    SqlppQueryError::Unexpected(s)
}

/// What `query` does: the request that goes out, or why it is refused.
pub open spec fn query_of(
    caller: Option<ErrorView>,
    b: BindingView,
    statement: Seq<char>,
    params: Seq<ValueView>,
    options: Option<SqlppQueryOptions>,
) -> Result<RequestView, QueryErrorView> {
    match caller {
        Some(e) => Err(types::as_query_error(e)),
        None => match query_body(b, statement, params, options) {
            Err(e) => Err(e),
            Ok(body) => Ok(service_request(b, body)),
        },
    }
}

/// Decide a `query`.
pub fn query(
    bound: &Workloads<Binding>,
    workload: &str,
    statement: String,
    params: &[SqlppValue],
    options: Option<&SqlppQueryOptions>,
) -> (r: Result<HttpRequest, SqlppQueryError>)
    ensures
        ({
            let want = query_of(
                bindings::caller_error(bound@, workload@),
                bound@[workload@]@,
                statement@,
                query::values(params@),
                match options {
                    Some(o) => Some(*o),
                    None => None,
                },
            );
            match r {
                Ok(request) => want == Ok::<RequestView, QueryErrorView>(request@),
                Err(e) => want == Err::<RequestView, QueryErrorView>(e@),
            }
        }),
{
    let binding = match bindings::caller_binding(bound, workload) {
        Ok(binding) => binding,
        Err(e) => return Err(types::document_error_as_query_error(e)),
    };
    let args = match query::arguments(params) {
        Ok(args) => args,
        Err(e) => return Err(e),
    };
    let request = match query_request(binding, statement, args, options) {
        Ok(request) => request,
        Err(e) => return Err(e),
    };
    let written = json::write(&request);
    let body = wire::copy_bytes(written.as_str().as_bytes());
    Ok(query_service(binding, body))
}

/// The text of a document that is a string.
pub open spec fn text_in(t: Option<Tree>) -> Option<Seq<char>> {
    match t {
        Some(Tree::Text(s)) => Some(s),
        _ => None,
    }
}

/// The number of a document that is a whole number not below zero.
pub open spec fn number_in(t: Option<Tree>) -> Option<int> {
    match t {
        Some(Tree::Int(n)) => if 0 <= n <= u64::MAX {
            Some(n)
        } else {
            None
        },
        _ => None,
    }
}

/// What one entry of the query service's `errors` means.
pub open spec fn service_error(status: u16, error: Tree) -> QueryErrorView {
    let message = match text_in(json::member(error, "msg"@)) {
        Some(m) => m,
        None => "the query failed"@,
    };
    let code = number_in(json::member(error, "code"@));
    if code == Some(3000int) {
        QueryErrorView::InvalidArgument(message)
    } else if code == Some(12003int) || code == Some(12021int) {
        QueryErrorView::InvalidArgument(
            "the statement referenced a keyspace that does not exist: "@ + message,
        )
    } else if code == Some(13014int) {
        QueryErrorView::Unauthorized
    } else {
        QueryErrorView::Server("HTTP "@ + number::decimal(status as nat) + ": "@ + message)
    }
}

/// What the query service's answer means. Failures come in an `errors` array,
/// under any status; its own code decides over the HTTP status.
pub open spec fn service_answer(status: u16, parsed: Tree) -> Result<ValueView, QueryErrorView> {
    match json::member(parsed, "errors"@) {
        Some(Tree::Array(errors)) if errors.len() > 0 => Err(service_error(status, errors[0])),
        _ => Ok(
            ValueView::Json(
                json::json_text(
                    match json::member(parsed, "results"@) {
                        Some(rows) => rows,
                        None => Tree::Array(seq![]),
                    },
                ),
            ),
        ),
    }
}

fn entry_error(status: u16, error: &Json) -> (e: SqlppQueryError)
    ensures
        e@ == service_error(status, error.tree()),
{
    let message = match error.get("msg") {
        Some(Json::Text(m)) => m.clone(),
        _ => "the query failed".to_string(),
    };
    let code: u64 = match error.get("code") {
        Some(Json::Unsigned(n)) => *n,
        Some(Json::Signed(n)) => if *n >= 0 {
            *n as u64
        } else {
            0
        },
        _ => 0,
    };
    if code == 3000 {
        SqlppQueryError::InvalidArgument(message)
    } else if code == 12003 || code == 12021 {
        SqlppQueryError::InvalidArgument(
            text::joined(
                "the statement referenced a keyspace that does not exist: ",
                message.as_str(),
            ),
        )
    } else if code == 13014 {
        SqlppQueryError::Unauthorized
    } else {
        let status = number::decimal_text(status as u64);
        let mut s = text::joined3("HTTP ", status.as_str(), ": ");
        s.append(message.as_str());
        SqlppQueryError::Server(s)
    }
}

/// Turn a parsed answer of the query service into what the caller gets.
pub fn parsed_answer(status: u16, parsed: &Json) -> (r: Result<SqlppValue, SqlppQueryError>)
    ensures
        types::query_outcome(r) == service_answer(status, parsed.tree()),
{
    match parsed.get("errors") {
        Some(Json::Array(errors)) => {
            if errors.len() > 0 {
                return Err(entry_error(status, &errors[0]));
            }
        },
        _ => {},
    }
    let rows = match parsed.get("results") {
        Some(rows) => json::write(rows),
        None => {
            let none = Json::Array(Vec::new());
            assert(none.tree()->Array_0 =~= seq![]);
            json::write(&none)
        },
    };
    Ok(SqlppValue::Json(rows))
}

/// Turn the query service's answer into what the caller gets.
pub fn query_answer(status: u16, payload: &[u8]) -> (r: Result<SqlppValue, SqlppQueryError>)
    ensures
        types::query_outcome(r) == (match json::json_parse(payload@) {
            Ok(parsed) => service_answer(status, parsed),
            Err(e) => Err(
                QueryErrorView::Unexpected("the query service did not answer JSON: "@ + e),
            ),
        }),
{
    match json::parse(payload) {
        Ok(parsed) => parsed_answer(status, &parsed),
        Err(e) => Err(
            SqlppQueryError::Unexpected(
                text::joined("the query service did not answer JSON: ", e.as_str()),
            ),
        ),
    }
}

/// Every query carries the binding's time limit to the service.
pub proof fn lemma_limit_is_sent(
    b: BindingView,
    statement: Seq<char>,
    args: Seq<Tree>,
    options: Option<SqlppQueryOptions>,
)
    ensures
        request_members(b, statement, args, options) matches Ok(m) ==> m.contains_key("timeout"@)
            && m["timeout"@] == Tree::Text(number::decimal(b.timeout_ms as nat) + "ms"@),
{
    reveal_strlit("timeout");
    reveal_strlit("args");
    reveal_strlit("readonly");
    reveal_strlit("scan_consistency");
    reveal_strlit("scan_vectors");
    assert("timeout"@.len() == 7 && "args"@.len() == 4 && "readonly"@.len() == 8);
    assert("scan_consistency"@.len() == 16 && "scan_vectors"@.len() == 12);
}

/// A query that has to observe writes asks the service to wait for exactly
/// those, whatever scan consistency its options also name.
pub proof fn lemma_consistent_with_waits(
    b: BindingView,
    statement: Seq<char>,
    args: Seq<Tree>,
    options: SqlppQueryOptions,
)
    requires
        options.consistent_with is Some,
    ensures
        request_members(b, statement, args, Some(options)) matches Ok(m)
            ==> m.contains_key("scan_consistency"@) && m["scan_consistency"@] == Tree::Text(
            "at_plus"@,
        ) && m.contains_key("scan_vectors"@) && m["scan_vectors"@] == Tree::Object(
            Map::<Seq<char>, Tree>::empty().insert(
                b.bucket,
                Tree::Object(
                    query::scan_map(
                        query::positions(
                            query::tokens_view(options.consistent_with->0.tokens@),
                        ),
                    ),
                ),
            ),
        ),
{
    reveal_strlit("scan_consistency");
    reveal_strlit("scan_vectors");
    assert("scan_consistency"@.len() == 16 && "scan_vectors"@.len() == 12);
}

} // verus!
