//! gRPC over HTTP/2.
//!
//! gRPC is HTTP/2 with three conventions layered on top, and each one is a
//! place to go wrong:
//!
//! 1. **Framing.** A message is prefixed with five bytes: one compression flag
//!    and a big-endian `u32` length. A server-streaming call sends several of
//!    those frames back to back in one body.
//! 2. **`te: trailers`.** The request must announce that it can accept
//!    trailers, or a conforming server may refuse the call.
//! 3. **The status is not the HTTP status.** A failed RPC is usually `HTTP
//!    200` with `grpc-status` set to something other than `0`, which is why
//!    [`Reply::status`] is what a caller checks, never `http_status`.
//!
//! The third convention has a wrinkle: **`grpc-status` arrives in headers or in
//! trailers depending on whether there is a body.** A call that returns a
//! message puts the status in real trailers, after the body. A call that
//! returns none (most errors) puts it in the headers. So headers are read
//! first, then trailers.
//!
//! Nothing here knows about protobuf: messages are bytes.

use vstd::prelude::*;
use vstd::slice::*;
use vstd::string::*;
use vstd::utf8::*;

use crate::http;
use crate::http::{HttpRequest, Method, Rejected, RequestView};
use crate::number;
use crate::text;
use crate::wire;

verus! {

/// One unary call.
pub struct Call<'a> {
    /// `host:port` of the gRPC endpoint.
    pub authority: &'a str,
    /// TLS. gRPC over plaintext is `false`.
    pub secure: bool,
    /// `/<package>.<Service>/<Method>`, e.g. `/couchbase.kv.v1.KvService/Get`.
    pub path: &'a str,
    /// The encoded request message, without gRPC framing.
    pub message: Vec<u8>,
    /// Extra headers, typically `authorization`.
    pub headers: Vec<(String, Vec<u8>)>,
    /// Per-call deadline applied to connect, first byte and between bytes.
    pub timeout_ns: Option<u64>,
}

/// What a call came back with.
pub struct Reply {
    /// The transport's status. Almost always `200`, including for a failed RPC.
    pub http_status: u16,
    /// The gRPC status code. `0` is success; `5` is `NOT_FOUND`, and so on.
    /// `None` when the server sent none, which is a protocol violation and
    /// should be treated as a failure rather than as success.
    pub status: Option<u32>,
    /// The server's `grpc-message`, empty on success.
    pub message: String,
    /// The response messages, unframed. A unary call yields one; a
    /// server-streaming call yields one per streamed message.
    pub frames: Vec<Vec<u8>>,
}

/// The contents of a list of messages.
pub open spec fn messages(frames: Seq<Vec<u8>>) -> Seq<Seq<u8>> {
    Seq::new(frames.len(), |i: int| frames[i]@)
}

/// The contents of a [`Reply`].
pub struct ReplyView {
    pub http_status: u16,
    pub status: Option<u32>,
    pub message: Seq<char>,
    pub frames: Seq<Seq<u8>>,
}

impl View for Reply {
    type V = ReplyView;

    open spec fn view(&self) -> ReplyView {
        ReplyView {
            http_status: self.http_status,
            status: self.status,
            message: self.message@,
            frames: messages(self.frames@),
        }
    }
}

impl Reply {
    /// Whether the RPC itself succeeded. A missing status is not success.
    pub fn ok(&self) -> (b: bool)
        ensures
            b == (self.status == Some(0u32)),
    {
        match self.status {
            Some(code) => code == 0,
            None => false,
        }
    }
}

/// A message in its frame: not compressed, the length in four bytes, the
/// message.
pub open spec fn framed(message: Seq<u8>) -> Seq<u8> {
    seq![0u8] + wire::be(message.len(), 4) + message
}

/// Wrap a message in gRPC's five-byte frame header.
pub fn frame(message: &[u8]) -> (out: Vec<u8>)
    ensures
        out@ == framed(message@),
{
    let mut out: Vec<u8> = Vec::new();
    out.push(0);
    assert(out@ =~= seq![0u8]);
    wire::push_be(&mut out, message.len() as u64, 4);
    wire::push_bytes(&mut out, message);
    out
}

/// The length that a frame's header gives.
pub open spec fn frame_len(body: Seq<u8>) -> int {
    wire::be_value(body.subrange(1, 5)) as int
}

/// The messages in a body. A truncated frame at the end is dropped: a partial
/// message decodes into plausible nonsense. A compressed frame is passed over,
/// because compression was never negotiated.
pub open spec fn frames_in(body: Seq<u8>) -> Seq<Seq<u8>>
    decreases body.len(),
{
    if body.len() < 5 || body.len() - 5 < frame_len(body) {
        seq![]
    } else {
        let n = frame_len(body);
        let rest = frames_in(body.skip(5 + n));
        if body[0] != 0 {
            rest
        } else {
            seq![body.subrange(5, 5 + n)] + rest
        }
    }
}

/// Split a response body into its messages.
pub fn split_frames(body: &[u8]) -> (frames: Vec<Vec<u8>>)
    ensures
        messages(frames@) == frames_in(body@),
{
    let len: usize = body.len();
    let mut frames: Vec<Vec<u8>> = Vec::new();
    let mut pos: usize = 0;
    proof {
        wire::lemma_pow256_values();
        assert(body@.skip(0) =~= body@);
        assert(messages(frames@) + frames_in(body@) =~= frames_in(body@));
    }
    while len - pos >= 5
        invariant
            pos <= len == body@.len(),
            wire::pow256(4) == 0x1_0000_0000,
            messages(frames@) + frames_in(body@.skip(pos as int)) == frames_in(body@),
        decreases len - pos,
    {
        let ghost rest = body@.skip(pos as int);
        let ghost before = messages(frames@);
        let compressed = body[pos] != 0;
        let n: usize = wire::read_be(body, pos + 1, 4) as usize;
        proof {
            assert(body@.subrange(pos + 1, pos + 5) =~= rest.subrange(1, 5));
        }
        if len - pos - 5 < n {
            assert(before + frames_in(rest) =~= before);
            return frames;
        }
        let start: usize = pos + 5;
        if !compressed {
            let message = wire::copy_bytes(slice_subrange(body, start, start + n));
            assert(message@ =~= rest.subrange(5, 5 + n));
            frames.push(message);
            assert(messages(frames@) =~= before.push(rest.subrange(5, 5 + n)));
        }
        pos = start + n;
        proof {
            assert(rest.skip(5 + n) =~= body@.skip(pos as int));
            assert(messages(frames@) + frames_in(body@.skip(pos as int)) =~= before + frames_in(
                rest,
            ));
        }
    }
    assert(messages(frames@) + frames_in(body@.skip(pos as int)) =~= messages(frames@));
    frames
}

/// A message that was framed is the first of the messages in whatever it is
/// the front of.
pub proof fn lemma_framed_is_read(message: Seq<u8>, rest: Seq<u8>)
    requires
        message.len() < 0x1_0000_0000,
    ensures
        frames_in(framed(message) + rest) == seq![message] + frames_in(rest),
{
    let body = framed(message) + rest;
    wire::lemma_be_len(message.len(), 4);
    wire::lemma_be_round_trip(message.len(), 4);
    wire::lemma_pow256_values();
    assert(body.subrange(1, 5) =~= wire::be(message.len(), 4));
    assert(body.subrange(5, 5 + message.len() as int) =~= message);
    assert(body.skip(5 + message.len() as int) =~= rest);
}

/// Messages, framed one after the other.
pub open spec fn framed_all(messages: Seq<Seq<u8>>) -> Seq<u8>
    decreases messages.len(),
{
    if messages.len() == 0 {
        seq![]
    } else {
        framed(messages[0]) + framed_all(messages.drop_first())
    }
}

/// Messages that were framed come back as they were, in order, and a frame that
/// breaks off behind them adds none, wherever it breaks off and whatever its
/// flag.
pub proof fn lemma_frames_round_trip(
    messages: Seq<Seq<u8>>,
    flag: u8,
    message: Seq<u8>,
    kept: int,
)
    requires
        forall|i: int| 0 <= i < messages.len() ==> (#[trigger] messages[i]).len() < 0x1_0000_0000,
        message.len() < 0x1_0000_0000,
        0 <= kept < 5 + message.len(),
    ensures
        frames_in(
            framed_all(messages) + (seq![flag] + wire::be(message.len(), 4) + message).take(kept),
        ) == messages,
    decreases messages.len(),
{
    let frame = seq![flag] + wire::be(message.len(), 4) + message;
    let tail = frame.take(kept);
    wire::lemma_be_len(message.len(), 4);
    wire::lemma_be_round_trip(message.len(), 4);
    wire::lemma_pow256_values();
    if messages.len() == 0 {
        assert(framed_all(messages) + tail =~= tail);
        if kept >= 5 {
            assert(tail.subrange(1, 5) =~= wire::be(message.len(), 4));
        }
        assert(frames_in(tail) =~= messages);
    } else {
        let rest = messages.drop_first();
        assert forall|i: int| 0 <= i < rest.len() implies (#[trigger] rest[i]).len()
            < 0x1_0000_0000 by {
            assert(rest[i] == messages[i + 1]);
        }
        lemma_frames_round_trip(rest, flag, message, kept);
        assert(framed_all(messages) + tail =~= framed(messages[0]) + (framed_all(rest) + tail));
        lemma_framed_is_read(messages[0], framed_all(rest) + tail);
        assert(seq![messages[0]] + rest =~= messages);
    }
}

/// The `grpc-status` and `grpc-message` in a set of fields.
pub open spec fn status_in(fields: Seq<(Seq<char>, Seq<u8>)>) -> (Option<u32>, Option<Seq<char>>) {
    (
        match http::header_of(fields, "grpc-status"@) {
            Some(v) => match number::unsigned(text::trimmed(v), 10, u32::MAX as nat) {
                Some(code) => Some(code as u32),
                None => None,
            },
            None => None,
        },
        http::header_of(fields, "grpc-message"@),
    )
}

/// Read `grpc-status` and `grpc-message` out of a field set.
pub fn read_status(fields: &[(String, Vec<u8>)]) -> (r: (Option<u32>, Option<String>))
    ensures
        (r.0, text::option_view(r.1)) == status_in(http::fields(fields@)),
{
    let status = match http::header(fields, "grpc-status") {
        Some(v) => {
            let cs = text::chars_of(v.as_str());
            match number::parse_unsigned(text::trim(cs.as_slice()), 10, u32::MAX as u64) {
                Some(code) => Some(code as u32),
                None => None,
            }
        },
        None => None,
    };
    (status, http::header(fields, "grpc-message"))
}

/// The request that a call becomes.
pub open spec fn request_of(call: Call) -> RequestView {
    let body = framed(call.message@);
    RequestView {
        method: Method::Post,
        secure: call.secure,
        authority: call.authority@,
        path: call.path@,
        headers: seq![
            http::field("content-type"@, "application/grpc"@),
            http::field("te"@, "trailers"@),
            http::field("content-length"@, number::decimal(body.len())),
        ] + http::fields(call.headers@),
        body: Some(body),
        timeout_ns: call.timeout_ns,
    }
}

/// The request that a unary call becomes. It announces that trailers are
/// acceptable, and declares its length: a body is a stream, and without a
/// length the request would go out chunked.
pub fn unary(call: Call<'_>) -> (request: HttpRequest)
    ensures
        request@ == request_of(call),
{
    let body = frame(call.message.as_slice());
    let length = number::decimal_text(body.len() as u64);
    let mut headers: Vec<(String, Vec<u8>)> = Vec::new();
    assert(http::fields(headers@) =~= seq![]);
    http::append(&mut headers, "content-type", "application/grpc");
    http::append(&mut headers, "te", "trailers");
    http::append(&mut headers, "content-length", length.as_str());
    let ghost front = http::fields(headers@);
    let ghost own = http::fields(call.headers@);
    let extra = &call.headers;
    let mut i: usize = 0;
    assert(front + own.take(0) =~= front);
    while i < extra.len()
        invariant
            i <= extra@.len(),
            own == http::fields(extra@),
            http::fields(headers@) == front + own.take(i as int),
        decreases extra@.len() - i,
    {
        let ghost before = http::fields(headers@);
        headers.push((extra[i].0.clone(), wire::copy_bytes(extra[i].1.as_slice())));
        assert(http::fields(headers@) =~= before.push(own[i as int]));
        assert(front + own.take(i + 1) =~= (front + own.take(i as int)).push(own[i as int]));
        i += 1;
    }
    assert(own.take(i as int) =~= own);
    let request = HttpRequest {
        method: Method::Post,
        secure: call.secure,
        authority: call.authority.to_string(),
        path: call.path.to_string(),
        headers,
        body: Some(body),
        timeout_ns: call.timeout_ns,
    };
    assert(request@.headers =~= request_of(call).headers);
    request
}

/// What is said of a part of a call that the transport refused.
pub open spec fn rejection_of(authority: Seq<char>, path: Seq<char>, part: Rejected) -> Seq<char> {
    match part {
        Rejected::Header { name, reason } => "header `"@ + name@ + "` was rejected: "@ + reason@,
        Rejected::Method => "wasi:http rejected POST"@,
        Rejected::Scheme => "wasi:http rejected the scheme"@,
        Rejected::Authority => "`"@ + authority + "` is not a valid authority"@,
        Rejected::Path => "`"@ + path + "` is not a valid path"@,
    }
}

/// Say what part of a call the transport refused.
pub fn rejection(authority: &str, path: &str, part: &Rejected) -> (s: String)
    ensures
        s@ == rejection_of(authority@, path@, *part),
{
    match part {
        Rejected::Header { name, reason } => {
            let mut s = text::joined3("header `", name.as_str(), "` was rejected: ");
            s.append(reason.as_str());
            s
        },
        Rejected::Method => "wasi:http rejected POST".to_string(),
        Rejected::Scheme => "wasi:http rejected the scheme".to_string(),
        Rejected::Authority => text::joined3("`", authority, "` is not a valid authority"),
        Rejected::Path => text::joined3("`", path, "` is not a valid path"),
    }
}

/// Say why a call got no response.
pub fn transport_error(reason: &str) -> (s: String)
    ensures
        s@ == "transport error: "@ + reason@,
{
    text::joined("transport error: ", reason)
}

/// What a response means: the status in its headers, or else in its trailers,
/// and the messages in its body.
pub open spec fn reply_of(
    http_status: u16,
    headers: Seq<(Seq<char>, Seq<u8>)>,
    trailers: Option<Seq<(Seq<char>, Seq<u8>)>>,
    body: Seq<u8>,
) -> ReplyView {
    let (head_status, head_message) = status_in(headers);
    let (status, message) = match (head_status, trailers) {
        (None, Some(fields)) => {
            let (tail_status, tail_message) = status_in(fields);
            (
                tail_status,
                match head_message {
                    Some(m) => Some(m),
                    None => tail_message,
                },
            )
        },
        _ => (head_status, head_message),
    };
    ReplyView {
        http_status,
        status,
        message: match message {
            Some(m) => m,
            None => Seq::empty(),
        },
        frames: frames_in(body),
    }
}

/// Whether the status has to be looked for in the trailers, because the headers
/// have none.
pub fn needs_trailers(headers: &[(String, Vec<u8>)]) -> (b: bool)
    ensures
        b == (status_in(http::fields(headers@)).0 is None),
{
    let (status, _) = read_status(headers);
    status.is_none()
}

/// Put together what a call came back with. The trailers matter only where the
/// headers have no status.
pub fn unary_reply(
    http_status: u16,
    headers: &[(String, Vec<u8>)],
    trailers: Option<&Vec<(String, Vec<u8>)>>,
    body: &[u8],
) -> (reply: Reply)
    ensures
        reply@ == reply_of(
            http_status,
            http::fields(headers@),
            match trailers {
                Some(fields) => Some(http::fields(fields@)),
                None => None,
            },
            body@,
        ),
{
    let (head_status, head_message) = read_status(headers);
    let (status, message) = match (head_status, trailers) {
        (None, Some(fields)) => {
            let (tail_status, tail_message) = read_status(fields.as_slice());
            (
                tail_status,
                match head_message {
                    Some(m) => Some(m),
                    None => tail_message,
                },
            )
        },
        _ => (head_status, head_message),
    };
    let message = match message {
        Some(m) => m,
        None => String::new(),
    };
    Reply { http_status, status, message, frames: split_frames(body) }
}

/// A status in the headers counts, whatever the trailers say.
pub proof fn lemma_header_status_wins(
    http_status: u16,
    headers: Seq<(Seq<char>, Seq<u8>)>,
    trailers: Option<Seq<(Seq<char>, Seq<u8>)>>,
    body: Seq<u8>,
)
    requires
        status_in(headers).0 is Some,
    ensures
        reply_of(http_status, headers, trailers, body).status == status_in(headers).0,
{
}

/// A response without a status anywhere is never a success, whatever its HTTP
/// status.
pub proof fn lemma_missing_status_is_not_success(
    http_status: u16,
    headers: Seq<(Seq<char>, Seq<u8>)>,
    trailers: Option<Seq<(Seq<char>, Seq<u8>)>>,
    body: Seq<u8>,
)
    requires
        status_in(headers).0 is None,
        trailers matches Some(fields) ==> status_in(fields).0 is None,
    ensures
        reply_of(http_status, headers, trailers, body).status is None,
        reply_of(http_status, headers, trailers, body).status != Some(0u32),
{
}

/// A call is posted to its own service and method, over TLS exactly when it says
/// so, with its message behind the five bytes that say it is not compressed and
/// how long it is, and with the three fields that the protocol asks for in front
/// of the caller's own.
pub proof fn lemma_call_is_posted(call: Call)
    ensures
        ({
            let r = request_of(call);
            &&& r.method is Post
            &&& r.secure == call.secure
            &&& r.authority == call.authority@
            &&& r.path == call.path@
            &&& r.timeout_ns == call.timeout_ns
            &&& r.body matches Some(body) && body.len() == call.message@.len() + 5 && body[0] == 0
                && body.skip(5) == call.message@ && (call.message@.len() < 0x1_0000_0000
                ==> wire::be_value(body.subrange(1, 5)) == call.message@.len())
            &&& r.headers.len() == 3 + call.headers@.len()
            &&& r.headers[0] == ("content-type"@, encode_utf8("application/grpc"@))
            &&& r.headers[1] == ("te"@, encode_utf8("trailers"@))
            &&& r.headers[2] == (
                "content-length"@,
                encode_utf8(number::decimal(call.message@.len() + 5)),
            )
            &&& r.headers.skip(3) == http::fields(call.headers@)
        }),
{
    let r = request_of(call);
    let body = framed(call.message@);
    wire::lemma_be_len(call.message@.len(), 4);
    wire::lemma_be_round_trip(call.message@.len(), 4);
    wire::lemma_pow256_values();
    assert(body.subrange(1, 5) =~= wire::be(call.message@.len(), 4));
    assert(body.skip(5) =~= call.message@);
    assert(r.headers.skip(3) =~= http::fields(call.headers@));
}

/// A status that is written as a number is that number, and the message is what
/// its field says; without a field there is neither.
pub proof fn lemma_status_is_read(fields: Seq<(Seq<char>, Seq<u8>)>, code: u32)
    ensures
        http::header_of(fields, "grpc-status"@) == Some(number::decimal(code as nat)) ==> status_in(
            fields,
        ).0 == Some(code),
        http::header_of(fields, "grpc-status"@) is None ==> status_in(fields).0 is None,
        status_in(fields).1 == http::header_of(fields, "grpc-message"@),
{
    let d = number::decimal(code as nat);
    number::lemma_digits_round_trip(code as nat, 10);
    number::lemma_digits_chars(code as nat, 10);
    assert(number::digit_value(d[0], 10) is Some);
    assert(number::digit_value(d[d.len() - 1], 10) is Some);
    text::lemma_trimmed_same(d);
}

/// A reply keeps the transport's status and the messages of the body. Where the
/// headers have no status it takes that of the trailers, and its message is that of
/// the headers or else that of the trailers.
pub proof fn lemma_reply_is_put_together(
    http_status: u16,
    headers: Seq<(Seq<char>, Seq<u8>)>,
    trailers: Option<Seq<(Seq<char>, Seq<u8>)>>,
    body: Seq<u8>,
)
    ensures
        ({
            let r = reply_of(http_status, headers, trailers, body);
            let said = http::header_of(headers, "grpc-message"@);
            &&& r.http_status == http_status
            &&& r.frames == frames_in(body)
            &&& status_in(headers).0 is None ==> r.status == (match trailers {
                Some(fields) => status_in(fields).0,
                None => None,
            })
            &&& said matches Some(m) ==> r.message == m
            &&& said is None && status_in(headers).0 is None ==> (trailers matches Some(fields)
                ==> (http::header_of(fields, "grpc-message"@) matches Some(m) ==> r.message == m))
            &&& said is None && (status_in(headers).0 is Some || trailers is None)
                ==> r.message.len() == 0
        }),
{
}

} // verus!
