//! An HTTP front door for a gRPC service.
//!
//! A `POST /<package>.<Service>/<Method>` carrying an encoded message becomes
//! one gRPC call to the configured endpoint. The response message comes back as
//! the body, and the RPC's own outcome comes back in the `grpc-status` and
//! `grpc-message` response headers, which is where it belongs, since a failed
//! RPC is still `HTTP 200`.

use vstd::prelude::*;
use vstd::string::*;
use vstd::utf8::*;

use crate::grpc;
use crate::grpc::{Reply, ReplyView};
use crate::http;
use crate::http::{AnswerView, HttpAnswer};
use crate::number;
use crate::settings;
use crate::text;
use crate::wire;

verus! {

/// Default per-call deadline, in nanoseconds.
pub const DEFAULT_TIMEOUT_NS: u64 = 30_000_000_000;

/// Where a request is to go.
pub struct Route {
    /// `host:port` of the gRPC endpoint.
    pub authority: String,
    pub secure: bool,
    pub path: String,
    /// The caller's credential, forwarded rather than held here.
    pub headers: Vec<(String, Vec<u8>)>,
    pub timeout_ns: u64,
}

/// The contents of a [`Route`].
pub struct RouteView {
    pub authority: Seq<char>,
    pub secure: bool,
    pub path: Seq<char>,
    pub headers: Seq<(Seq<char>, Seq<u8>)>,
    pub timeout_ns: u64,
}

impl View for Route {
    type V = RouteView;

    open spec fn view(&self) -> RouteView {
        RouteView {
            authority: self.authority@,
            secure: self.secure,
            path: self.path@,
            headers: http::fields(self.headers@),
            timeout_ns: self.timeout_ns,
        }
    }
}

/// The value of an environment variable.
pub fn var(environment: &[(String, String)], name: &str) -> (r: Option<String>)
    ensures
        text::option_view(r) == settings::first_value(settings::pairs(environment@), name@),
{
    let ghost all = settings::pairs(environment@);
    assert(all.skip(0) =~= all);
    let mut i: usize = 0;
    while i < environment.len()
        invariant
            i <= environment@.len(),
            all == settings::pairs(environment@),
            settings::first_value(all, name@) == settings::first_value(
                all.skip(i as int),
                name@,
            ),
        decreases environment@.len() - i,
    {
        assert(all.skip(i as int)[0] == (environment@[i as int].0@, environment@[i as int].1@));
        if text::same_text(environment[i].0.as_str(), name) {
            return Some(environment[i].1.clone());
        }
        assert(all.skip(i as int).drop_first() =~= all.skip(i + 1));
        i += 1;
    }
    None
}

/// The deadline that the environment sets.
pub open spec fn timeout_in(environment: Seq<(Seq<char>, Seq<char>)>) -> u64 {
    match settings::first_value(environment, "GRPC_TIMEOUT_MS"@) {
        Some(v) => match number::unsigned(v, 10, u64::MAX as nat) {
            Some(ms) => number::at_most(ms * 1_000_000, u64::MAX as nat) as u64,
            None => DEFAULT_TIMEOUT_NS,
        },
        None => DEFAULT_TIMEOUT_NS,
    }
}

/// Whether a path names a gRPC method: `/package.Service/Method`, two segments,
/// neither of them empty, and no query.
pub open spec fn is_method_path(path: Seq<char>) -> bool {
    &&& path.len() > 1
    &&& path[0] == '/'
    &&& path[1] != '/'
    &&& path.last() != '/'
    &&& text::count(path, '/') == 2
    &&& !path.contains('?')
}

/// The path of a method of a service.
pub open spec fn method_path(service: Seq<char>, method: Seq<char>) -> Seq<char> {
    seq!['/'] + service + seq!['/'] + method
}

/// Whether a text can stand between the marks of a path.
pub open spec fn is_segment(s: Seq<char>) -> bool {
    s.len() > 0 && !s.contains('/') && !s.contains('?')
}

/// The fields that are forwarded: the caller's credential and nothing else.
pub open spec fn forwarded(headers: Seq<(Seq<char>, Seq<u8>)>) -> Seq<(Seq<char>, Seq<u8>)>
    decreases headers.len(),
{
    if headers.len() == 0 {
        seq![]
    } else {
        let front = forwarded(headers.drop_last());
        if text::same_ignoring_case(headers.last().0, "authorization"@) {
            front.push(headers.last())
        } else {
            front
        }
    }
}

/// Where a request is to go, or the answer it gets at once. Plaintext is
/// opt-in, so that a missing variable cannot silently downgrade a deployment
/// that meant to use TLS.
pub open spec fn route_of(
    environment: Seq<(Seq<char>, Seq<char>)>,
    path: Seq<char>,
    headers: Seq<(Seq<char>, Seq<u8>)>,
) -> Result<RouteView, AnswerView> {
    match settings::first_value(environment, "GRPC_AUTHORITY"@) {
        None => Err(
            http::text_answer(
                500,
                "GRPC_AUTHORITY is not set: it names the gRPC endpoint, as host:port\n"@,
            ),
        ),
        Some(authority) => if !is_method_path(path) {
            Err(
                http::text_answer(
                    400,
                    "`"@ + path
                        + "` is not a gRPC method path; expected /<package>.<Service>/<Method>\n"@,
                ),
            )
        } else {
            Ok(
                RouteView {
                    authority,
                    secure: settings::first_value(environment, "GRPC_PLAINTEXT"@) != Some("1"@),
                    path,
                    headers: forwarded(headers),
                    timeout_ns: timeout_in(environment),
                },
            )
        },
    }
}

fn timeout_of(environment: &[(String, String)]) -> (ns: u64)
    ensures
        ns == timeout_in(settings::pairs(environment@)),
{
    match var(environment, "GRPC_TIMEOUT_MS") {
        Some(v) => {
            let cs = text::chars_of(v.as_str());
            match number::parse_unsigned(cs.as_slice(), 10, u64::MAX) {
                Some(ms) => {
                    if ms > u64::MAX / 1_000_000 {
                        u64::MAX
                    } else {
                        ms * 1_000_000
                    }
                },
                None => DEFAULT_TIMEOUT_NS,
            }
        },
        None => DEFAULT_TIMEOUT_NS,
    }
}

fn forward(headers: &[(String, Vec<u8>)]) -> (out: Vec<(String, Vec<u8>)>)
    ensures
        http::fields(out@) == forwarded(http::fields(headers@)),
{
    let ghost all = http::fields(headers@);
    let mut out: Vec<(String, Vec<u8>)> = Vec::new();
    let mut i: usize = 0;
    assert(all.take(0).len() == 0);
    assert(http::fields(out@) =~= seq![]);
    while i < headers.len()
        invariant
            i <= headers@.len(),
            all == http::fields(headers@),
            http::fields(out@) == forwarded(all.take(i as int)),
        decreases headers@.len() - i,
    {
        let ghost before = http::fields(out@);
        proof {
            assert(all.take(i + 1).drop_last() =~= all.take(i as int));
            assert(all.take(i + 1).last() == all[i as int]);
        }
        if text::eq_ignore_case(headers[i].0.as_str(), "authorization") {
            out.push((headers[i].0.clone(), wire::copy_bytes(headers[i].1.as_slice())));
            assert(http::fields(out@) =~= before.push(all[i as int]));
        }
        i += 1;
    }
    assert(all.take(i as int) =~= all);
    out
}

/// Decide where a request is to go.
pub fn handle(
    environment: &[(String, String)],
    path: &str,
    headers: &[(String, Vec<u8>)],
) -> (r: Result<Route, HttpAnswer>)
    ensures
        match r {
            Ok(route) => route_of(
                settings::pairs(environment@),
                path@,
                http::fields(headers@),
            ) == Ok::<RouteView, AnswerView>(route@),
            Err(answer) => route_of(
                settings::pairs(environment@),
                path@,
                http::fields(headers@),
            ) == Err::<RouteView, AnswerView>(answer@),
        },
{
    let authority = match var(environment, "GRPC_AUTHORITY") {
        Some(authority) => authority,
        None => return Err(
            http::text(
                500,
                "GRPC_AUTHORITY is not set: it names the gRPC endpoint, as host:port\n",
            ),
        ),
    };
    let secure = match var(environment, "GRPC_PLAINTEXT") {
        Some(v) => !text::same_text(v.as_str(), "1"),
        None => true,
    };
    let timeout_ns = timeout_of(environment);
    let cs = text::chars_of(path);
    let s = cs.as_slice();
    if s.len() < 2 || s[0] != '/' || s[1] == '/' || s[s.len() - 1] == '/' || text::count_char(
        s,
        '/',
    ) != 2 || text::has_char(s, '?') {
        let said = text::joined3(
            "`",
            path,
            "` is not a gRPC method path; expected /<package>.<Service>/<Method>\n",
        );
        return Err(http::text(400, said.as_str()));
    }
    Ok(
        Route {
            authority,
            secure,
            path: path.to_string(),
            headers: forward(headers),
            timeout_ns,
        },
    )
}

/// The answer for a call that never reached the service.
pub fn unreachable(reason: &str) -> (a: HttpAnswer)
    ensures
        a@ == http::text_answer(502, reason@ + "\n"@),
{
    let said = text::joined(reason, "\n");
    http::text(502, said.as_str())
}

/// The answer for a call that came back. The RPC's status goes into a header of
/// its own, and a missing one is said to be missing rather than taken for
/// success. The first frame is the unary response.
pub open spec fn answer_of(reply: ReplyView) -> AnswerView {
    let front = seq![
        http::field("content-type"@, "application/octet-stream"@),
        http::field("grpc-frames"@, number::decimal(reply.frames.len())),
        http::field("grpc-http-status"@, number::decimal(reply.http_status as nat)),
        http::field(
            "grpc-status"@,
            match reply.status {
                Some(code) => number::decimal(code as nat),
                None => "unknown"@,
            },
        ),
    ];
    AnswerView {
        status: 200,
        headers: if reply.status != Some(0u32) && reply.message.len() > 0 {
            front.push(http::field("grpc-message"@, reply.message))
        } else {
            front
        },
        body: if reply.frames.len() > 0 {
            reply.frames[0]
        } else {
            seq![]
        },
    }
}

/// Answer with what a call came back with.
pub fn respond(reply: &Reply) -> (a: HttpAnswer)
    ensures
        a@ == answer_of(reply@),
{
    let mut headers: Vec<(String, Vec<u8>)> = Vec::new();
    assert(http::fields(headers@) =~= seq![]);
    http::append(&mut headers, "content-type", "application/octet-stream");
    let count = number::decimal_text(reply.frames.len() as u64);
    http::append(&mut headers, "grpc-frames", count.as_str());
    let transport = number::decimal_text(reply.http_status as u64);
    http::append(&mut headers, "grpc-http-status", transport.as_str());
    match reply.status {
        Some(code) => {
            let code = number::decimal_text(code as u64);
            http::append(&mut headers, "grpc-status", code.as_str());
        },
        None => {
            http::append(&mut headers, "grpc-status", "unknown");
        },
    }
    let message = text::chars_of(reply.message.as_str());
    if !reply.ok() && message.len() > 0 {
        http::append(&mut headers, "grpc-message", reply.message.as_str());
    }
    let body = if reply.frames.len() > 0 {
        assert(reply@.frames[0] == reply.frames@[0]@);
        wire::copy_bytes(reply.frames[0].as_slice())
    } else {
        Vec::new()
    };
    let a = HttpAnswer { status: 200, headers, body };
    assert(a@.headers =~= answer_of(reply@).headers);
    assert(a@.body =~= answer_of(reply@).body);
    a
}

/// A failed RPC is still `HTTP 200`; whether it failed is in `grpc-status`, and
/// that is `0` only for a success.
pub proof fn lemma_outcome_is_in_the_header(reply: ReplyView)
    ensures
        answer_of(reply).status == 200,
        answer_of(reply).headers[3] == http::field("grpc-status"@, "0"@) ==> reply.status == Some(
            0u32,
        ),
{
    if answer_of(reply).headers[3] == http::field("grpc-status"@, "0"@) {
        reveal_strlit("0");
        reveal_strlit("unknown");
        let said = match reply.status {
            Some(code) => number::decimal(code as nat),
            None => "unknown"@,
        };
        vstd::utf8::encode_utf8_decode_utf8(said);
        vstd::utf8::encode_utf8_decode_utf8("0"@);
        assert(said == "0"@);
        match reply.status {
            Some(code) => {
                number::lemma_digits_round_trip(code as nat, 10);
                number::lemma_digits_round_trip(0, 10);
                assert(number::decimal(0) =~= "0"@);
            },
            None => {
                assert("unknown"@.len() == 7);
                assert("0"@.len() == 1);
            },
        }
    }
}

/// A path names a gRPC method exactly when it is the path of some method of some
/// service.
pub proof fn lemma_method_path(path: Seq<char>)
    ensures
        is_method_path(path) <==> exists|service: Seq<char>, method: Seq<char>|
            is_segment(service) && is_segment(method) && path == #[trigger] method_path(
                service,
                method,
            ),
{
    if is_method_path(path) {
        let rest = path.skip(1);
        assert(path =~= seq!['/'] + rest);
        text::lemma_count_joined(seq!['/'], rest, '/');
        text::lemma_count_one('/', '/');
        text::lemma_count_zero(rest, '/');
        let i = choose|i: int| 0 <= i < rest.len() && rest[i] == '/';
        let service = rest.take(i);
        let method = rest.skip(i + 1);
        assert(rest =~= service + seq!['/'] + method);
        text::lemma_count_joined(service + seq!['/'], method, '/');
        text::lemma_count_joined(service, seq!['/'], '/');
        text::lemma_count_zero(service, '/');
        text::lemma_count_zero(method, '/');
        assert(rest[0] == path[1]);
        assert(rest.last() == path.last());
        assert forall|k: int| 0 <= k < service.len() implies service[k] != '?' by {
            assert(path.contains(path[k + 1]));
        }
        assert forall|k: int| 0 <= k < method.len() implies method[k] != '?' by {
            assert(path.contains(path[k + i + 2]));
        }
        assert(path =~= method_path(service, method));
    }
    if exists|service: Seq<char>, method: Seq<char>|
        is_segment(service) && is_segment(method) && path == #[trigger] method_path(
            service,
            method,
        ) {
        let (service, method) = choose|service: Seq<char>, method: Seq<char>|
            is_segment(service) && is_segment(method) && path == #[trigger] method_path(
                service,
                method,
            );
        text::lemma_count_one('/', '/');
        text::lemma_count_joined(seq!['/'] + service + seq!['/'], method, '/');
        text::lemma_count_joined(seq!['/'] + service, seq!['/'], '/');
        text::lemma_count_joined(seq!['/'], service, '/');
        text::lemma_count_zero(service, '/');
        text::lemma_count_zero(method, '/');
        assert(path[1] == service[0]);
        assert(service.contains(service[0]));
        assert(path.last() == method.last());
        assert(method.contains(method.last()));
        assert forall|k: int| 0 <= k < path.len() implies path[k] != '?' by {
            if 1 <= k < service.len() + 1 {
                assert(path[k] == service[k - 1]);
                assert(service.contains(service[k - 1]));
            } else if k >= service.len() + 2 {
                assert(path[k] == method[k - service.len() - 2]);
                assert(method.contains(method[k - service.len() - 2]));
            }
        }
    }
}

/// Plaintext is used only where the environment asks for it.
pub proof fn lemma_plaintext_is_opt_in(
    environment: Seq<(Seq<char>, Seq<char>)>,
    path: Seq<char>,
    headers: Seq<(Seq<char>, Seq<u8>)>,
)
    requires
        settings::first_value(environment, "GRPC_PLAINTEXT"@) is None,
    ensures
        route_of(environment, path, headers) matches Ok(route) ==> route.secure,
{
}

/// Nothing of a caller's headers is forwarded but the credential.
pub proof fn lemma_only_the_credential_is_forwarded(headers: Seq<(Seq<char>, Seq<u8>)>)
    ensures
        forall|i: int|
            0 <= i < forwarded(headers).len() ==> text::same_ignoring_case(
                (#[trigger] forwarded(headers)[i]).0,
                "authorization"@,
            ),
    decreases headers.len(),
{
    if headers.len() > 0 {
        let front = forwarded(headers.drop_last());
        lemma_only_the_credential_is_forwarded(headers.drop_last());
        assert forall|i: int| 0 <= i < forwarded(headers).len() implies text::same_ignoring_case(
            (#[trigger] forwarded(headers)[i]).0,
            "authorization"@,
        ) by {
            if i < front.len() {
                assert(forwarded(headers)[i] == front[i]);
            }
        }
    }
}

/// A request is routed exactly when an endpoint is configured and its path names a
/// method; it then goes to that endpoint and that method, in plaintext exactly when
/// the environment says so, with the caller's credential and within the deadline.
/// A missing endpoint is the deployment's fault, and a bad path the caller's.
pub proof fn lemma_request_is_routed(
    environment: Seq<(Seq<char>, Seq<char>)>,
    path: Seq<char>,
    headers: Seq<(Seq<char>, Seq<u8>)>,
)
    ensures
        ({
            let endpoint = settings::first_value(environment, "GRPC_AUTHORITY"@);
            match route_of(environment, path, headers) {
                Ok(r) => {
                    &&& endpoint == Some(r.authority)
                    &&& is_method_path(path)
                    &&& r.path == path
                    &&& !r.secure <==> settings::first_value(environment, "GRPC_PLAINTEXT"@)
                        == Some("1"@)
                    &&& r.headers == forwarded(headers)
                    &&& r.timeout_ns == timeout_in(environment)
                },
                Err(a) => {
                    &&& endpoint is None || !is_method_path(path)
                    &&& endpoint is None ==> a.status == 500
                    &&& endpoint is Some ==> a.status == 400
                    &&& a.headers == seq![("content-type"@, encode_utf8("text/plain"@))]
                },
            }
        }),
{
}

/// The deadline is the one that the environment sets in milliseconds, as far as it
/// can be told in nanoseconds, and thirty seconds where it sets none.
pub proof fn lemma_deadline_is_the_one_set(environment: Seq<(Seq<char>, Seq<char>)>, ms: u64)
    ensures
        settings::first_value(environment, "GRPC_TIMEOUT_MS"@) is None ==> timeout_in(environment)
            == 30_000_000_000,
        settings::first_value(environment, "GRPC_TIMEOUT_MS"@) == Some(number::decimal(ms as nat))
            ==> (ms * 1_000_000 <= u64::MAX ==> timeout_in(environment) == ms * 1_000_000) && (ms
            * 1_000_000 > u64::MAX ==> timeout_in(environment) == u64::MAX),
        settings::first_value(environment, "GRPC_TIMEOUT_MS"@) matches Some(v) ==> (
        number::unsigned(v, 10, u64::MAX as nat) is None ==> timeout_in(environment)
            == 30_000_000_000),
{
    number::lemma_digits_round_trip(ms as nat, 10);
    number::lemma_digits_chars(ms as nat, 10);
    assert(number::digit_value(number::decimal(ms as nat)[0], 10) is Some);
}

/// Every credential that the caller sends is forwarded as it is.
pub proof fn lemma_every_credential_is_forwarded(headers: Seq<(Seq<char>, Seq<u8>)>, i: int)
    requires
        0 <= i < headers.len(),
        text::same_ignoring_case(headers[i].0, "authorization"@),
    ensures
        forwarded(headers).contains(headers[i]),
    decreases headers.len(),
{
    let front = headers.drop_last();
    let kept = forwarded(front);
    let n = headers.len() - 1;
    if i < n {
        assert(front[i] == headers[i]);
        lemma_every_credential_is_forwarded(front, i);
        let k = choose|k: int| 0 <= k < kept.len() && kept[k] == headers[i];
        assert(forwarded(headers)[k] == headers[i]);
    } else {
        assert(forwarded(headers)[kept.len() as int] == headers[i]);
    }
}

/// Whatever is forwarded was sent by the caller.
pub proof fn lemma_nothing_is_made_up(headers: Seq<(Seq<char>, Seq<u8>)>, k: int)
    requires
        0 <= k < forwarded(headers).len(),
    ensures
        headers.contains(forwarded(headers)[k]),
    decreases headers.len(),
{
    let front = headers.drop_last();
    let kept = forwarded(front);
    if k < kept.len() {
        lemma_nothing_is_made_up(front, k);
        let i = choose|i: int| 0 <= i < front.len() && front[i] == kept[k];
        assert(headers[i] == kept[k]);
    } else {
        assert(headers[headers.len() - 1] == forwarded(headers)[k]);
    }
}

/// The answer carries the first message of the reply as its body, and in its
/// fields the number of messages, the transport's status and the RPC's own, with
/// its message where the RPC failed and said something.
pub proof fn lemma_reply_is_passed_on(reply: ReplyView)
    ensures
        ({
            let a = answer_of(reply);
            &&& a.status == 200
            &&& reply.frames.len() > 0 ==> a.body == reply.frames[0]
            &&& reply.frames.len() == 0 ==> a.body.len() == 0
            &&& a.headers[0] == ("content-type"@, encode_utf8("application/octet-stream"@))
            &&& a.headers[1] == ("grpc-frames"@, encode_utf8(number::decimal(reply.frames.len())))
            &&& a.headers[2] == (
                "grpc-http-status"@,
                encode_utf8(number::decimal(reply.http_status as nat)),
            )
            &&& reply.status matches Some(code) ==> a.headers[3] == (
                "grpc-status"@,
                encode_utf8(number::decimal(code as nat)),
            )
            &&& reply.status is None ==> a.headers[3] == (
                "grpc-status"@,
                encode_utf8("unknown"@),
            )
            &&& reply.status == Some(0u32) || reply.message.len() == 0 ==> a.headers.len() == 4
            &&& reply.status != Some(0u32) && reply.message.len() > 0 ==> a.headers.len() == 5
                && a.headers[4] == ("grpc-message"@, encode_utf8(reply.message))
        }),
{
}

} // verus!
