//! HTTP requests to be sent and responses that came back, as plain values.

use vstd::prelude::*;
use vstd::string::*;
use vstd::utf8::*;

use crate::text;
use crate::wire;

verus! {

/// The methods in use.
#[derive(Debug, Clone, Copy, PartialEq, Eq, Structural)]
pub enum Method {
    Get,
    Post,
    Put,
    Delete,
}

/// A request.
#[derive(Debug, PartialEq, Eq)]
pub struct HttpRequest {
    pub method: Method,
    /// HTTPS, or plain HTTP.
    pub secure: bool,
    /// `host[:port]`.
    pub authority: String,
    /// The path, with its query if it has one.
    pub path: String,
    /// Header fields, in the order in which they are appended.
    pub headers: Vec<(String, Vec<u8>)>,
    pub body: Option<Vec<u8>>,
    /// The time limit to connect, to the first byte and between bytes.
    pub timeout_ns: Option<u64>,
}

/// The contents of header fields.
pub open spec fn fields(headers: Seq<(String, Vec<u8>)>) -> Seq<(Seq<char>, Seq<u8>)> {
    Seq::new(headers.len(), |i: int| (headers[i].0@, headers[i].1@))
}

/// The contents of an [`HttpRequest`].
pub struct RequestView {
    pub method: Method,
    pub secure: bool,
    pub authority: Seq<char>,
    pub path: Seq<char>,
    pub headers: Seq<(Seq<char>, Seq<u8>)>,
    pub body: Option<Seq<u8>>,
    pub timeout_ns: Option<u64>,
}

/// The contents of an optional body.
pub open spec fn body_view(body: Option<Vec<u8>>) -> Option<Seq<u8>> {
    match body {
        Some(bytes) => Some(bytes@),
        None => None,
    }
}

impl View for HttpRequest {
    type V = RequestView;

    open spec fn view(&self) -> RequestView {
        RequestView {
            method: self.method,
            secure: self.secure,
            authority: self.authority@,
            path: self.path@,
            headers: fields(self.headers@),
            body: body_view(self.body),
            timeout_ns: self.timeout_ns,
        }
    }
}

/// A part of a request that the transport refused.
#[derive(Debug, PartialEq, Eq)]
pub enum Rejected {
    Header { name: String, reason: String },
    Method,
    Scheme,
    Authority,
    Path,
}

/// A header field with a text value.
pub open spec fn field(name: Seq<char>, value: Seq<char>) -> (Seq<char>, Seq<u8>) {
    (name, encode_utf8(value))
}

/// Append a header field with a text value.
pub fn append(headers: &mut Vec<(String, Vec<u8>)>, name: &str, value: &str)
    ensures
        fields(final(headers)@) == fields(old(headers)@).push(field(name@, value@)),
{
    headers.push((name.to_string(), wire::copy_bytes(value.as_bytes())));
    assert(fields(headers@) =~= fields(old(headers)@).push(field(name@, value@)));
}

/// The value of the first field with a name, which is compared without regard
/// to case, when it is text.
pub open spec fn header_of(headers: Seq<(Seq<char>, Seq<u8>)>, name: Seq<char>) -> Option<Seq<char>>
    decreases headers.len(),
{
    if headers.len() == 0 {
        None
    } else if text::same_ignoring_case(headers[0].0, name) {
        if valid_utf8(headers[0].1) {
            Some(decode_utf8(headers[0].1))
        } else {
            None
        }
    } else {
        header_of(headers.drop_first(), name)
    }
}

/// The text value of the first field with a name.
pub fn header(headers: &[(String, Vec<u8>)], name: &str) -> (r: Option<String>)
    ensures
        text::option_view(r) == header_of(fields(headers@), name@),
{
    let ghost all = fields(headers@);
    assert(all.skip(0) =~= all);
    let mut i: usize = 0;
    while i < headers.len()
        invariant
            i <= headers@.len(),
            all == fields(headers@),
            header_of(all, name@) == header_of(all.skip(i as int), name@),
        decreases headers@.len() - i,
    {
        assert(all.skip(i as int)[0] == (headers@[i as int].0@, headers@[i as int].1@));
        if text::eq_ignore_case(headers[i].0.as_str(), name) {
            return text::from_utf8(headers[i].1.as_slice());
        }
        assert(all.skip(i as int).drop_first() =~= all.skip(i + 1));
        i += 1;
    }
    None
}

/// A time limit in milliseconds as nanoseconds.
pub open spec fn nanoseconds(timeout_ms: u32) -> u64 {
    (timeout_ms * 1_000_000) as u64
}

/// A time limit in milliseconds as nanoseconds.
pub fn timeout_ns(timeout_ms: u32) -> (ns: u64)
    ensures
        ns == nanoseconds(timeout_ms),
        ns == timeout_ms * 1_000_000,
{
    (timeout_ms as u64) * 1_000_000
}

/// An answer to a request that came in.
#[derive(Debug, PartialEq, Eq)]
pub struct HttpAnswer {
    pub status: u16,
    pub headers: Vec<(String, Vec<u8>)>,
    pub body: Vec<u8>,
}

/// The contents of an [`HttpAnswer`].
pub struct AnswerView {
    pub status: u16,
    pub headers: Seq<(Seq<char>, Seq<u8>)>,
    pub body: Seq<u8>,
}

impl View for HttpAnswer {
    type V = AnswerView;

    open spec fn view(&self) -> AnswerView {
        AnswerView { status: self.status, headers: fields(self.headers@), body: self.body@ }
    }
}

/// A plain-text answer.
pub open spec fn text_answer(status: u16, body: Seq<char>) -> AnswerView {
    AnswerView {
        status,
        headers: seq![field("content-type"@, "text/plain"@)],
        body: encode_utf8(body),
    }
}

/// A plain-text answer.
pub fn text(status: u16, body: &str) -> (a: HttpAnswer)
    ensures
        a@ == text_answer(status, body@),
{
    let mut headers: Vec<(String, Vec<u8>)> = Vec::new();
    append(&mut headers, "content-type", "text/plain");
    let a = HttpAnswer { status, headers, body: wire::copy_bytes(body.as_bytes()) };
    assert(a@.headers =~= text_answer(status, body@).headers);
    a
}

/// The first field of a name decides, in whatever case it is written: its value
/// counts where it is text, and there is none where no field has the name.
pub proof fn lemma_first_field_decides(
    headers: Seq<(Seq<char>, Seq<u8>)>,
    name: Seq<char>,
    i: int,
    value: Seq<char>,
)
    requires
        0 <= i <= headers.len(),
        forall|j: int|
            0 <= j < i ==> !text::same_ignoring_case((#[trigger] headers[j]).0, name),
    ensures
        i == headers.len() ==> header_of(headers, name) is None,
        i < headers.len() && text::same_ignoring_case(headers[i].0, name) && headers[i].1
            == encode_utf8(value) ==> header_of(headers, name) == Some(value),
        i < headers.len() && text::same_ignoring_case(headers[i].0, name) && !valid_utf8(
            headers[i].1,
        ) ==> header_of(headers, name) is None,
    decreases i,
{
    encode_utf8_decode_utf8(value);
    encode_utf8_valid_utf8(value);
    if i > 0 {
        let rest = headers.drop_first();
        assert(!text::same_ignoring_case(headers[0].0, name));
        assert forall|j: int| 0 <= j < i - 1 implies !text::same_ignoring_case(
            (#[trigger] rest[j]).0,
            name,
        ) by {
            assert(rest[j] == headers[j + 1]);
        }
        lemma_first_field_decides(rest, name, i - 1, value);
        if i < headers.len() {
            assert(rest[i - 1] == headers[i]);
        }
    }
}

/// A millisecond is a million nanoseconds, and every limit fits.
pub proof fn lemma_nanoseconds(timeout_ms: u32)
    ensures
        nanoseconds(timeout_ms) == timeout_ms * 1_000_000,
{
}

} // verus!
