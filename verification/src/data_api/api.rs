//! Turning Data API responses into something the interface's error model can
//! express, plus the small amount of URL and header handling that the request
//! path needs.

use vstd::prelude::*;
use vstd::string::*;
use vstd::utf8::*;

use crate::json;
use crate::json::{Json, Tree};
use crate::number;
use crate::text;

verus! {

/// A classified failure, one-for-one with the named cases of the interface's
/// error, so that the mapping at the boundary is mechanical.
#[derive(Debug, PartialEq, Eq)]
pub enum Failure {
    NotFound,
    AlreadyExists,
    CasMismatch,
    Locked,
    NotLocked,
    InvalidArgument(String),
    Unauthorized,
    Timeout,
    /// Anything the cluster reported that does not map to a case above.
    Server { status: u16, code: Option<String>, message: String },
}

/// The contents of a [`Failure`].
pub enum FailureView {
    NotFound,
    AlreadyExists,
    CasMismatch,
    Locked,
    NotLocked,
    InvalidArgument(Seq<char>),
    Unauthorized,
    Timeout,
    Server { status: u16, code: Option<Seq<char>>, message: Seq<char> },
}

impl View for Failure {
    type V = FailureView;

    open spec fn view(&self) -> FailureView {
        match self {
            Failure::NotFound => FailureView::NotFound,
            Failure::AlreadyExists => FailureView::AlreadyExists,
            Failure::CasMismatch => FailureView::CasMismatch,
            Failure::Locked => FailureView::Locked,
            Failure::NotLocked => FailureView::NotLocked,
            Failure::InvalidArgument(m) => FailureView::InvalidArgument(m@),
            Failure::Unauthorized => FailureView::Unauthorized,
            Failure::Timeout => FailureView::Timeout,
            Failure::Server { status, code, message } => FailureView::Server {
                status: *status,
                code: text::option_view(*code),
                message: message@,
            },
        }
    }
}

/// The error body the Data API returns: `{"code": "...", "message": "..."}`.
/// The query service passthrough reports failures in an `errors` array instead.
#[derive(Debug, PartialEq, Eq)]
pub struct ErrorBody {
    pub code: Option<String>,
    pub message: Option<String>,
    pub errors: Vec<QueryError>,
}

/// One entry of an `errors` array.
#[derive(Debug, PartialEq, Eq)]
pub struct QueryError {
    pub code: Option<u32>,
    pub msg: Option<String>,
}

/// The contents of a [`QueryError`].
pub struct EntryView {
    pub code: Option<u32>,
    pub msg: Option<Seq<char>>,
}

impl View for QueryError {
    type V = EntryView;

    open spec fn view(&self) -> EntryView {
        EntryView { code: self.code, msg: text::option_view(self.msg) }
    }
}

/// The contents of a list of entries.
pub open spec fn entries(errors: Seq<QueryError>) -> Seq<EntryView> {
    Seq::new(errors.len(), |i: int| errors[i]@)
}

/// The contents of an [`ErrorBody`].
pub struct BodyView {
    pub code: Option<Seq<char>>,
    pub message: Option<Seq<char>>,
    pub errors: Seq<EntryView>,
}

impl View for ErrorBody {
    type V = BodyView;

    open spec fn view(&self) -> BodyView {
        BodyView {
            code: text::option_view(self.code),
            message: text::option_view(self.message),
            errors: entries(self.errors@),
        }
    }
}

/// A body that says nothing.
pub open spec fn silent() -> BodyView {
    BodyView { code: None, message: None, errors: seq![] }
}

impl ErrorBody {
    /// A body that says nothing.
    pub fn silent() -> (b: Self)
        ensures
            b@ == silent(),
    {
        let b = ErrorBody { code: None, message: None, errors: Vec::new() };
        assert(b@.errors =~= seq![]);
        b
    }
}

/// The text in a member that may be absent or null. The outer `None` means that
/// it is neither that nor text.
pub open spec fn optional_text(t: Option<Tree>) -> Option<Option<Seq<char>>> {
    match t {
        None => Some(None),
        Some(Tree::Null) => Some(None),
        Some(Tree::Text(s)) => Some(Some(s)),
        Some(_) => None,
    }
}

/// The 32-bit number in a member that may be absent or null.
pub open spec fn optional_code(t: Option<Tree>) -> Option<Option<u32>> {
    match t {
        None => Some(None),
        Some(Tree::Null) => Some(None),
        Some(Tree::Int(n)) => if 0 <= n <= u32::MAX {
            Some(Some(n as u32))
        } else {
            None
        },
        Some(_) => None,
    }
}

/// An element of a list, if it is that long.
pub open spec fn element(items: Seq<Tree>, i: int) -> Option<Tree> {
    if 0 <= i < items.len() {
        Some(items[i])
    } else {
        None
    }
}

/// The record that two members make.
pub open spec fn entry_from(code: Option<Tree>, msg: Option<Tree>) -> Option<EntryView> {
    match (optional_code(code), optional_text(msg)) {
        (Some(code), Some(msg)) => Some(EntryView { code, msg }),
        _ => None,
    }
}

/// An entry of an `errors` array: an object, or a list of its members in order.
pub open spec fn entry_in(t: Tree) -> Option<EntryView> {
    match t {
        Tree::Object(_) => entry_from(json::member(t, "code"@), json::member(t, "msg"@)),
        Tree::Array(items) => if items.len() <= 2 {
            entry_from(element(items, 0), element(items, 1))
        } else {
            None
        },
        _ => None,
    }
}

/// The entries in a list.
pub open spec fn entries_in(items: Seq<Tree>) -> Option<Seq<EntryView>>
    decreases items.len(),
{
    if items.len() == 0 {
        Some(seq![])
    } else {
        match (entries_in(items.drop_last()), entry_in(items.last())) {
            (Some(front), Some(last)) => Some(front.push(last)),
            _ => None,
        }
    }
}

/// The entries in a member that may be absent.
pub open spec fn optional_entries(t: Option<Tree>) -> Option<Seq<EntryView>> {
    match t {
        None => Some(seq![]),
        Some(Tree::Array(items)) => entries_in(items),
        Some(_) => None,
    }
}

/// The record that three members make.
pub open spec fn body_from(
    code: Option<Tree>,
    message: Option<Tree>,
    errors: Option<Tree>,
) -> Option<BodyView> {
    match (optional_text(code), optional_text(message), optional_entries(errors)) {
        (Some(code), Some(message), Some(errors)) => Some(BodyView { code, message, errors }),
        _ => None,
    }
}

/// An error body: an object, or a list of its members in order. Members of
/// other names are passed over.
pub open spec fn body_in(t: Tree) -> Option<BodyView> {
    match t {
        Tree::Object(_) => body_from(
            json::member(t, "code"@),
            json::member(t, "message"@),
            json::member(t, "errors"@),
        ),
        Tree::Array(items) => if items.len() <= 3 {
            body_from(element(items, 0), element(items, 1), element(items, 2))
        } else {
            None
        },
        _ => None,
    }
}

/// What a response body says as an error; nothing when it is not one.
pub open spec fn body_of(bytes: Seq<u8>) -> BodyView {
    match json::json_parse(bytes) {
        Ok(t) => match body_in(t) {
            Some(b) => b,
            None => silent(),
        },
        Err(_) => silent(),
    }
}

fn read_text(j: Option<&Json>) -> (r: Option<Option<String>>)
    ensures
        match r {
            Some(s) => optional_text(
                match j {
                    Some(j) => Some(j.tree()),
                    None => None,
                },
            ) == Some(text::option_view(s)),
            None => optional_text(
                match j {
                    Some(j) => Some(j.tree()),
                    None => None,
                },
            ) is None,
        },
{
    match j {
        None => Some(None),
        Some(Json::Null) => Some(None),
        Some(Json::Text(s)) => Some(Some(s.clone())),
        Some(_) => None,
    }
}

fn read_code(j: Option<&Json>) -> (r: Option<Option<u32>>)
    ensures
        r == optional_code(
            match j {
                Some(j) => Some(j.tree()),
                None => None,
            },
        ),
{
    match j {
        None => Some(None),
        Some(Json::Null) => Some(None),
        Some(Json::Unsigned(n)) => if *n <= u32::MAX as u64 {
            Some(Some(*n as u32))
        } else {
            None
        },
        Some(Json::Signed(n)) => if 0 <= *n && *n <= u32::MAX as i64 {
            Some(Some(*n as u32))
        } else {
            None
        },
        Some(_) => None,
    }
}

fn nth(items: &Vec<Json>, i: usize) -> (r: Option<&Json>)
    ensures
        match r {
            Some(j) => i < items@.len() && *j == items@[i as int],
            None => i >= items@.len(),
        },
{
    if i < items.len() {
        Some(&items[i])
    } else {
        None
    }
}

fn read_entry(j: &Json) -> (r: Option<QueryError>)
    ensures
        match r {
            Some(e) => entry_in(j.tree()) == Some(e@),
            None => entry_in(j.tree()) is None,
        },
{
    let (code, msg) = match j {
        Json::Object(_) => (j.get("code"), j.get("msg")),
        Json::Array(items) => {
            if items.len() > 2 {
                return None;
            }
            (nth(items, 0), nth(items, 1))
        },
        _ => return None,
    };
    match (read_code(code), read_text(msg)) {
        (Some(code), Some(msg)) => Some(QueryError { code, msg }),
        _ => None,
    }
}

proof fn lemma_entries_prefix(items: Seq<Tree>, k: int)
    requires
        0 <= k <= items.len(),
        entries_in(items.take(k)) is None,
    ensures
        entries_in(items) is None,
    decreases items.len(),
{
    if k < items.len() {
        assert(items.drop_last().take(k) =~= items.take(k));
        lemma_entries_prefix(items.drop_last(), k);
    } else {
        assert(items.take(k) =~= items);
    }
}

fn read_entries(j: Option<&Json>) -> (r: Option<Vec<QueryError>>)
    ensures
        ({
            let want = optional_entries(
                match j {
                    Some(j) => Some(j.tree()),
                    None => None,
                },
            );
            match r {
                Some(v) => want == Some(entries(v@)),
                None => want is None,
            }
        }),
{
    let mut out: Vec<QueryError> = Vec::new();
    assert(entries(out@) =~= seq![]);
    match j {
        None => Some(out),
        Some(Json::Array(items)) => {
            let ghost all = j->0.tree()->Array_0;
            let mut i: usize = 0;
            assert(all.take(0).len() == 0);
            while i < items.len()
                invariant
                    i <= items@.len(),
                    all.len() == items@.len(),
                    forall|k: int| 0 <= k < items@.len() ==> all[k] == (#[trigger] items@[k]).tree(),
                    optional_entries(Some(j->0.tree())) == entries_in(all),
                    j is Some,
                    out@.len() == i,
                    entries_in(all.take(i as int)) == Some(entries(out@)),
                decreases items@.len() - i,
            {
                let ghost before = entries(out@);
                proof {
                    assert(all.take(i + 1).drop_last() =~= all.take(i as int));
                    assert(all.take(i + 1).last() == items@[i as int].tree());
                }
                match read_entry(&items[i]) {
                    Some(e) => {
                        let ghost view = e@;
                        out.push(e);
                        assert(entries(out@) =~= before.push(view));
                    },
                    None => {
                        proof {
                            lemma_entries_prefix(all, i + 1);
                        }
                        return None;
                    },
                }
                i += 1;
            }
            assert(all.take(i as int) =~= all);
            Some(out)
        },
        Some(_) => None,
    }
}

fn read_body(j: &Json) -> (r: Option<ErrorBody>)
    ensures
        match r {
            Some(b) => body_in(j.tree()) == Some(b@),
            None => body_in(j.tree()) is None,
        },
{
    let (code, message, errors) = match j {
        Json::Object(_) => (j.get("code"), j.get("message"), j.get("errors")),
        Json::Array(items) => {
            if items.len() > 3 {
                return None;
            }
            (nth(items, 0), nth(items, 1), nth(items, 2))
        },
        _ => return None,
    };
    match (read_text(code), read_text(message), read_entries(errors)) {
        (Some(code), Some(message), Some(errors)) => Some(ErrorBody { code, message, errors }),
        _ => None,
    }
}

/// Read what a response body says as an error. Of a member that stands twice in
/// one object, the later one counts.
pub fn error_body(bytes: &[u8]) -> (b: ErrorBody)
    ensures
        b@ == body_of(bytes@),
{
    match json::parse(bytes) {
        Ok(j) => match read_body(&j) {
            Some(b) => b,
            None => ErrorBody::silent(),
        },
        Err(_) => ErrorBody::silent(),
    }
}

/// How many bytes a character takes.
pub open spec fn width(c: char) -> nat {
    encode_scalar(c as u32).len()
}

/// How many leading characters take no more than `max` bytes together.
pub open spec fn fitting(s: Seq<char>, max: int) -> nat
    decreases s.len(),
{
    if s.len() == 0 || width(s[0]) > max {
        0
    } else {
        1 + fitting(s.drop_first(), max - width(s[0]))
    }
}

/// A text cut down to `max` bytes, between characters, with a mark at the cut.
pub open spec fn truncated(s: Seq<char>, max: nat) -> Seq<char> {
    if encode_utf8(s).len() <= max {
        s
    } else {
        s.take(fitting(s, max as int) as int) + "…"@
    }
}

/// What stands in front of the cut takes no more than `max` bytes, and another
/// character would not fit.
pub proof fn lemma_truncation_is_tight(s: Seq<char>, max: int)
    requires
        max >= 0,
    ensures
        fitting(s, max) <= s.len(),
        encode_utf8(s.take(fitting(s, max) as int)).len() <= max,
        fitting(s, max) < s.len() ==> encode_utf8(s.take(fitting(s, max) as int + 1)).len() > max,
    decreases s.len(),
{
    if s.len() > 0 {
        let n = fitting(s, max) as int;
        if width(s[0]) <= max {
            let rest = s.drop_first();
            lemma_truncation_is_tight(rest, max - width(s[0]));
            assert(s.take(n).drop_first() =~= rest.take(n - 1));
            if n < s.len() {
                assert(s.take(n + 1).drop_first() =~= rest.take(n));
            }
        } else {
            assert(s.take(0).len() == 0);
            assert(s.take(1).drop_first().len() == 0);
            assert(encode_utf8(s.take(1).drop_first()).len() == 0);
        }
    }
}

fn char_width(c: char) -> (n: usize)
    ensures
        n == width(c),
        1 <= n <= 4,
{
    proof {
        char_is_scalar(c);
    }
    let u: u32 = c as u32;
    if u <= 0x7f {
        1
    } else if u <= 0x7ff {
        2
    } else if u <= 0xffff {
        3
    } else {
        4
    }
}

/// Cut a text down to `max` bytes, on a character boundary.
pub fn truncate(s: &str, max: usize) -> (r: String)
    ensures
        r@ == truncated(s@, max as nat),
{
    if s.as_bytes().len() <= max {
        return s.to_string();
    }
    let cs = text::chars_of(s);
    let mut left: usize = max;
    let mut n: usize = 0;
    assert(s@.skip(0) =~= s@);
    while n < cs.len() && char_width(cs[n]) <= left
        invariant
            n <= cs@.len(),
            cs@ == s@,
            fitting(s@, max as int) == n + fitting(s@.skip(n as int), left as int),
        decreases cs@.len() - n,
    {
        assert(s@.skip(n as int)[0] == s@[n as int]);
        assert(s@.skip(n as int).drop_first() =~= s@.skip(n + 1));
        left -= char_width(cs[n]);
        n += 1;
    }
    assert(n < cs@.len() ==> s@.skip(n as int)[0] == s@[n as int]);
    let front = text::string_of(text::head(cs.as_slice(), n));
    text::joined(front.as_str(), "…")
}

/// The text that explains a failure: what the cluster said, or else the raw
/// body so that an unparseable error is still diagnosable, but never a huge
/// one.
pub open spec fn message_in(status: u16, body: Seq<u8>, parsed: BodyView) -> Seq<char> {
    match parsed.message {
        Some(m) => m,
        None => if parsed.errors.len() > 0 && parsed.errors[0].msg is Some {
            parsed.errors[0].msg->0
        } else {
            let raw = text::trimmed(text::lossy_text(body));
            if raw.len() == 0 {
                "Couchbase returned HTTP "@ + number::decimal(status as nat) + " with no body"@
            } else {
                truncated(raw, 512)
            }
        },
    }
}

/// The cluster's own code for a failure.
pub open spec fn code_in(parsed: BodyView) -> Option<Seq<char>> {
    match parsed.code {
        Some(c) => Some(c),
        None => if parsed.errors.len() > 0 {
            match parsed.errors[0].code {
                Some(c) => Some(number::decimal(c as nat)),
                None => None,
            }
        } else {
            None
        },
    }
}

/// What a code means, when it is one of those that the Data API documents.
pub open spec fn by_code(code: Seq<char>, message: Seq<char>) -> Option<FailureView> {
    if code == "DocumentNotFound"@ || code == "PathNotFound"@ || code == "CollectionNotFound"@
        || code == "ScopeNotFound"@ || code == "BucketNotFound"@ {
        Some(FailureView::NotFound)
    } else if code == "DocumentExists"@ || code == "PathExists"@ {
        Some(FailureView::AlreadyExists)
    } else if code == "CasMismatch"@ {
        Some(FailureView::CasMismatch)
    } else if code == "DocumentLocked"@ {
        Some(FailureView::Locked)
    } else if code == "DocumentNotLocked"@ {
        Some(FailureView::NotLocked)
    } else if code == "InvalidArgument"@ || code == "ValueTooLarge"@ || code == "DocumentTooDeep"@
        || code == "PathTooBig"@ || code == "PathInvalid"@ || code == "PathMismatch"@ || code
        == "DocumentNotNumeric"@ || code == "DurabilityImpossible"@ {
        Some(FailureView::InvalidArgument(message))
    } else if code == "Unauthorized"@ || code == "Forbidden"@ || code == "AuthenticationFailure"@
        || code == "InvalidAuth"@ || code == "NoReadAccess"@ || code == "NoWriteAccess"@ {
        Some(FailureView::Unauthorized)
    } else if code == "Timeout"@ || code == "UnambiguousTimeout"@ || code == "AmbiguousTimeout"@
        || code == "DeadlineExceeded"@ {
        Some(FailureView::Timeout)
    } else {
        None
    }
}

/// What a status means when no code decides. A bare conflict is far more often
/// an insert over an existing key than a stale CAS.
pub open spec fn by_status(status: u16, code: Option<Seq<char>>, message: Seq<char>) -> FailureView {
    if status == 400 || status == 422 {
        FailureView::InvalidArgument(message)
    } else if status == 401 || status == 403 {
        FailureView::Unauthorized
    } else if status == 404 {
        FailureView::NotFound
    } else if status == 409 {
        FailureView::AlreadyExists
    } else if status == 412 {
        FailureView::CasMismatch
    } else if status == 408 || status == 504 {
        FailureView::Timeout
    } else {
        FailureView::Server { status, code, message }
    }
}

/// What a response that is not a success means. The cluster's code decides
/// wherever it is known; the status is the fallback.
pub open spec fn failure_of(status: u16, body: Seq<u8>, parsed: BodyView) -> FailureView {
    let message = message_in(status, body, parsed);
    let code = code_in(parsed);
    let named = match code {
        Some(c) => by_code(c, message),
        None => None,
    };
    match named {
        Some(f) => f,
        None => by_status(status, code, message),
    }
}

enum Named {
    Nothing,
    Plain(Failure),
    WithMessage,
}

fn named_failure(code: &str) -> (n: Named)
    ensures
        forall|message: Seq<char>|
            #![trigger by_code(code@, message)]
            by_code(code@, message) == (match n {
                Named::Nothing => None,
                Named::Plain(f) => Some(f@),
                Named::WithMessage => Some(FailureView::InvalidArgument(message)),
            }),
{
    if text::same_text(code, "DocumentNotFound") || text::same_text(code, "PathNotFound")
        || text::same_text(code, "CollectionNotFound") || text::same_text(code, "ScopeNotFound")
        || text::same_text(code, "BucketNotFound") {
        Named::Plain(Failure::NotFound)
    } else if text::same_text(code, "DocumentExists") || text::same_text(code, "PathExists") {
        Named::Plain(Failure::AlreadyExists)
    } else if text::same_text(code, "CasMismatch") {
        Named::Plain(Failure::CasMismatch)
    } else if text::same_text(code, "DocumentLocked") {
        Named::Plain(Failure::Locked)
    } else if text::same_text(code, "DocumentNotLocked") {
        Named::Plain(Failure::NotLocked)
    } else if text::same_text(code, "InvalidArgument") || text::same_text(code, "ValueTooLarge")
        || text::same_text(code, "DocumentTooDeep") || text::same_text(code, "PathTooBig")
        || text::same_text(code, "PathInvalid") || text::same_text(code, "PathMismatch")
        || text::same_text(code, "DocumentNotNumeric") || text::same_text(
        code,
        "DurabilityImpossible",
    ) {
        Named::WithMessage
    } else if text::same_text(code, "Unauthorized") || text::same_text(code, "Forbidden")
        || text::same_text(code, "AuthenticationFailure") || text::same_text(code, "InvalidAuth")
        || text::same_text(code, "NoReadAccess") || text::same_text(code, "NoWriteAccess") {
        Named::Plain(Failure::Unauthorized)
    } else if text::same_text(code, "Timeout") || text::same_text(code, "UnambiguousTimeout")
        || text::same_text(code, "AmbiguousTimeout") || text::same_text(
        code,
        "DeadlineExceeded",
    ) {
        Named::Plain(Failure::Timeout)
    } else {
        Named::Nothing
    }
}

fn failure_message(status: u16, body: &[u8], parsed: &ErrorBody) -> (s: String)
    ensures
        s@ == message_in(status, body@, parsed@),
{
    match &parsed.message {
        Some(m) => return m.clone(),
        None => {},
    }
    if parsed.errors.len() > 0 {
        assert(parsed@.errors[0] == parsed.errors@[0]@);
        match &parsed.errors[0].msg {
            Some(m) => return m.clone(),
            None => {},
        }
    }
    let whole = text::from_utf8_lossy(body);
    let cs = text::chars_of(whole.as_str());
    let raw = text::trim(cs.as_slice());
    if raw.len() == 0 {
        let status = number::decimal_text(status as u64);
        text::joined3("Couchbase returned HTTP ", status.as_str(), " with no body")
    } else {
        let raw = text::string_of(raw);
        truncate(raw.as_str(), 512)
    }
}

fn failure_code(parsed: &ErrorBody) -> (r: Option<String>)
    ensures
        text::option_view(r) == code_in(parsed@),
{
    match &parsed.code {
        Some(c) => return Some(c.clone()),
        None => {},
    }
    if parsed.errors.len() > 0 {
        assert(parsed@.errors[0] == parsed.errors@[0]@);
        match parsed.errors[0].code {
            Some(c) => Some(number::decimal_text(c as u64)),
            None => None,
        }
    } else {
        None
    }
}

/// Classify a response that is not a success, from what its body says.
pub fn classify_parsed(status: u16, body: &[u8], parsed: &ErrorBody) -> (f: Failure)
    ensures
        f@ == failure_of(status, body@, parsed@),
{
    let message = failure_message(status, body, parsed);
    let code = failure_code(parsed);
    match &code {
        Some(c) => match named_failure(c.as_str()) {
            Named::Plain(f) => return f,
            Named::WithMessage => return Failure::InvalidArgument(message),
            Named::Nothing => {},
        },
        None => {},
    }
    if status == 400 || status == 422 {
        Failure::InvalidArgument(message)
    } else if status == 401 || status == 403 {
        Failure::Unauthorized
    } else if status == 404 {
        Failure::NotFound
    } else if status == 409 {
        Failure::AlreadyExists
    } else if status == 412 {
        Failure::CasMismatch
    } else if status == 408 || status == 504 {
        Failure::Timeout
    } else {
        Failure::Server { status, code, message }
    }
}

/// Classify a non-2xx Data API response.
///
/// The machine-readable `code` decides wherever it is present, because the HTTP
/// status alone is ambiguous: a 409 is both "you tried to insert over an
/// existing document" and "your CAS was stale", which callers must handle
/// differently.
pub fn classify(status: u16, body: &[u8]) -> (f: Failure)
    ensures
        f@ == failure_of(status, body@, body_of(body@)),
{
    let parsed = error_body(body);
    classify_parsed(status, body, &parsed)
}

/// A code that is known decides alone: the status then makes no difference to
/// which failure it is.
pub proof fn lemma_code_decides(s1: u16, s2: u16, body: Seq<u8>, parsed: BodyView)
    requires
        code_in(parsed) matches Some(c) && by_code(c, Seq::empty()) is Some,
        parsed.message is Some,
    ensures
        failure_of(s1, body, parsed) == failure_of(s2, body, parsed),
{
}

/// What stands in an `etag` around the CAS is taken off.
pub open spec fn etag_core(etag: Seq<char>) -> Seq<char> {
    text::trimmed(text::trimmed_of(text::strip_copies(text::trimmed(etag), "W/"@), '"'))
}

/// A number, or zero when the text is none.
pub open spec fn number_or_zero(s: Seq<char>, radix: nat) -> u64 {
    match number::unsigned(s, radix, u64::MAX as nat) {
        Some(v) => v as u64,
        None => 0,
    }
}

/// Whether a text is the fixed-width hex form of a CAS.
pub open spec fn is_fixed_hex(s: Seq<char>) -> bool {
    s.len() == 16 && forall|i: int|
        0 <= i < s.len() ==> number::digit_value(#[trigger] s[i], 16) is Some
}

/// The CAS in an `etag`.
pub open spec fn cas_in(etag: Seq<char>) -> u64 {
    let s = etag_core(etag);
    if text::starts_with(s, "0x"@) || text::starts_with(s, "0X"@) {
        number_or_zero(s.skip(2), 16)
    } else if is_fixed_hex(s) {
        number_or_zero(s, 16)
    } else {
        match number::unsigned(s, 10, u64::MAX as nat) {
            Some(v) => v as u64,
            None => number_or_zero(s, 16),
        }
    }
}

fn parse_or_zero(s: &[char], radix: u8) -> (v: u64)
    requires
        2 <= radix <= 36,
    ensures
        v == number_or_zero(s@, radix as nat),
{
    match number::parse_unsigned(s, radix, u64::MAX) {
        Some(v) => v,
        None => 0,
    }
}

fn fixed_hex(s: &[char]) -> (b: bool)
    ensures
        b == is_fixed_hex(s@),
{
    if s.len() != 16 {
        return false;
    }
    let mut i: usize = 0;
    while i < s.len()
        invariant
            i <= s@.len(),
            forall|j: int| 0 <= j < i ==> number::digit_value(#[trigger] s@[j], 16) is Some,
        decreases s@.len() - i,
    {
        match number::value_of_digit(s[i], 16) {
            Some(_) => {},
            None => return false,
        }
        i += 1;
    }
    true
}

/// Read a CAS out of a response's `etag`.
///
/// The service sends it as **bare, unquoted, 16-digit lower-case hex**, e.g.
/// `18c86cb5894f0000`. The other forms are tolerated so that a proxy that
/// quotes the header, or an implementation that renders the CAS in decimal,
/// still round-trips.
///
/// A 16-character all-hex string is read as hex even when it happens to be all
/// digits, because that is the fixed-width format; a real decimal CAS is 19
/// digits, so the two do not overlap in practice.
///
/// A value that parses as nothing yields `0`, which the interface documents as
/// "no CAS": better than failing an otherwise successful operation over a
/// header.
pub fn parse_cas(etag: &str) -> (cas: u64)
    ensures
        cas == cas_in(etag@),
{
    let cs = text::chars_of(etag);
    let s = text::trim(
        text::trim_char(text::trim_start_copies(text::trim(cs.as_slice()), "W/"), '"'),
    );
    proof {
        reveal_strlit("0x");
        reveal_strlit("0X");
    }
    if text::begins_with(s, "0x") || text::begins_with(s, "0X") {
        return parse_or_zero(text::tail(s, 2), 16);
    }
    if fixed_hex(s) {
        return parse_or_zero(s, 16);
    }
    match number::parse_unsigned(s, 10, u64::MAX) {
        Some(v) => v,
        None => parse_or_zero(s, 16),
    }
}

/// Render a CAS for an `If-Match` header.
///
/// Unquoted, 16-digit lower-case hex. The RFC-style quoted form is rejected by
/// the service, so the quotes that an ETag normally carries must not be sent.
pub fn format_cas(cas: u64) -> (s: String)
    ensures
        s@ == number::hex_padded(cas as nat, 16),
{
    number::hex_text(cas, 16)
}

/// A rendered CAS is sixteen hex digits: never a quote, never a mark.
pub proof fn lemma_cas_is_fixed_hex(cas: u64)
    ensures
        is_fixed_hex(number::hex_padded(cas as nat, 16)),
{
    number::lemma_digits_chars(cas as nat, 16);
    number::lemma_digits_len(cas as nat, 16, 16);
    assert(number::power(16, 16) == 0x1_0000_0000_0000_0000) by {
        reveal_with_fuel(number::power, 17);
    }
    let d = number::digits(cas as nat, 16);
    let s = number::hex_padded(cas as nat, 16);
    assert forall|i: int| 0 <= i < s.len() implies number::digit_value(
        #[trigger] s[i],
        16,
    ) is Some by {
        let z = s.len() - d.len();
        if i >= z {
            assert(s[i] == d[i - z]);
        }
    }
}

/// A quoted `etag`.
pub open spec fn quoted(s: Seq<char>) -> Seq<char> {
    seq!['"'] + s + seq!['"']
}

proof fn lemma_plain_core(s: Seq<char>)
    requires
        s.len() > 0,
        number::digit_value(s[0], 16) is Some,
        number::digit_value(s.last(), 16) is Some,
    ensures
        etag_core(s) == s,
        etag_core(quoted(s)) == s,
        etag_core("W/"@ + quoted(s)) == s,
{
    reveal_strlit("W/");
    assert("W/"@[0] == 'W' && "W/"@.len() == 2);
    assert(!text::is_white_space(s[0]) && !text::is_white_space(s.last()));
    assert(s[0] != '"' && s.last() != '"' && s[0] != 'W');
    text::lemma_trimmed_same(s);
    text::lemma_trimmed_of_same(s, '"');
    assert(!text::starts_with(s, "W/"@)) by {
        if text::starts_with(s, "W/"@) {
            assert(s.take(2)[0] == s[0]);
        }
    }
    let q = quoted(s);
    assert(q[0] == '"' && q.last() == '"');
    text::lemma_trimmed_same(q);
    assert(!text::starts_with(q, "W/"@)) by {
        if text::starts_with(q, "W/"@) {
            assert(q.take(2)[0] == q[0]);
        }
    }
    let half = s + seq!['"'];
    assert(q.drop_first() =~= half);
    assert(half[0] == s[0]);
    assert(text::drop_front(half, '"') == half);
    assert(text::drop_front(q, '"') == half);
    assert(half.drop_last() =~= s);
    assert(text::drop_back(s, '"') == s);
    assert(text::drop_back(half, '"') == s);
    let w = "W/"@ + q;
    assert(w[0] == 'W' && w.last() == '"');
    text::lemma_trimmed_same(w);
    assert(w.take(2) =~= "W/"@);
    assert(w.skip(2) =~= q);
    assert(text::strip_copies(q, "W/"@) == q);
    assert(text::strip_copies(w, "W/"@) == q);
}

/// A CAS that is sent comes back as the same CAS, whether it comes back bare,
/// quoted or as a weak tag.
pub proof fn lemma_cas_round_trip(cas: u64)
    ensures
        cas_in(number::hex_padded(cas as nat, 16)) == cas,
        cas_in(quoted(number::hex_padded(cas as nat, 16))) == cas,
        cas_in("W/"@ + quoted(number::hex_padded(cas as nat, 16))) == cas,
{
    let s = number::hex_padded(cas as nat, 16);
    lemma_cas_is_fixed_hex(cas);
    assert(number::digit_value(s[0], 16) is Some);
    assert(number::digit_value(s[15], 16) is Some);
    lemma_plain_core(s);
    lemma_unprefixed(s);
    assert(s[0] != '+');
    number::lemma_digits_round_trip(cas as nat, 16);
    number::lemma_zero_padded_value(number::digits(cas as nat, 16), 16, 16);
}

proof fn lemma_unprefixed(s: Seq<char>)
    requires
        forall|i: int| 0 <= i < s.len() ==> number::digit_value(#[trigger] s[i], 16) is Some,
    ensures
        !text::starts_with(s, "0x"@),
        !text::starts_with(s, "0X"@),
{
    reveal_strlit("0x");
    reveal_strlit("0X");
    if text::starts_with(s, "0x"@) {
        assert(s.take(2)[1] == s[1]);
        assert("0x"@[1] == 'x');
        assert(number::digit_value(s[1], 16) is Some);
    }
    if text::starts_with(s, "0X"@) {
        assert(s.take(2)[1] == s[1]);
        assert("0X"@[1] == 'X');
        assert(number::digit_value(s[1], 16) is Some);
    }
}

/// A CAS in decimal is read as what it says, unless it has the sixteen digits
/// of the hex form.
pub proof fn lemma_decimal_cas_is_read(cas: u64)
    requires
        number::decimal(cas as nat).len() != 16,
    ensures
        cas_in(number::decimal(cas as nat)) == cas,
        cas_in(quoted(number::decimal(cas as nat))) == cas,
        cas_in("W/"@ + quoted(number::decimal(cas as nat))) == cas,
{
    let s = number::decimal(cas as nat);
    number::lemma_digits_chars(cas as nat, 10);
    number::lemma_digits_round_trip(cas as nat, 10);
    assert forall|i: int| 0 <= i < s.len() implies number::digit_value(
        #[trigger] s[i],
        16,
    ) is Some by {
        assert(number::digit_value(s[i], 10) is Some);
    }
    assert(number::digit_value(s[0], 16) is Some);
    assert(number::digit_value(s[s.len() - 1], 16) is Some);
    lemma_plain_core(s);
    lemma_unprefixed(s);
    assert(s[0] != '+');
}

/// Whether a byte stands for itself in a URL: the RFC 3986 unreserved set.
pub open spec fn unreserved(b: u8) -> bool {
    ||| 65 <= b <= 90
    ||| 97 <= b <= 122
    ||| 48 <= b <= 57
    ||| b == 45 || b == 95 || b == 46 || b == 126
}

/// The character for one upper-case hex digit.
pub open spec fn upper_digit(d: nat) -> char {
    if d < 10 {
        (d + 48) as char
    } else {
        (d + 55) as char
    }
}

/// Bytes with everything outside the unreserved set escaped.
pub open spec fn escaped(bytes: Seq<u8>) -> Seq<char>
    decreases bytes.len(),
{
    if bytes.len() == 0 {
        seq![]
    } else {
        let b = bytes.last();
        let front = escaped(bytes.drop_last());
        if unreserved(b) {
            front.push(b as char)
        } else {
            front + seq!['%', upper_digit(b as nat / 16), upper_digit(b as nat % 16)]
        }
    }
}

fn upper_digit_of(d: u8) -> (c: char)
    requires
        d < 16,
    ensures
        c == upper_digit(d as nat),
{
    if d < 10 {
        (d + 48) as char
    } else {
        (d + 55) as char
    }
}

/// Percent-encode one path segment.
///
/// Document keys are arbitrary, so a key containing `/`, `?`, `#`, or a space
/// would otherwise change which resource the URL addresses.
pub fn encode_segment(segment: &str) -> (out: String)
    ensures
        out@ == escaped(encode_utf8(segment@)),
{
    let bytes = segment.as_bytes();
    let mut out: Vec<char> = Vec::new();
    let mut i: usize = 0;
    assert(bytes@.take(0).len() == 0);
    while i < bytes.len()
        invariant
            i <= bytes@.len(),
            out@ == escaped(bytes@.take(i as int)),
        decreases bytes@.len() - i,
    {
        let b: u8 = bytes[i];
        let ghost before = out@;
        proof {
            assert(bytes@.take(i + 1).drop_last() =~= bytes@.take(i as int));
            assert(bytes@.take(i + 1).last() == b);
        }
        if (65 <= b && b <= 90) || (97 <= b && b <= 122) || (48 <= b && b <= 57) || b == 45 || b
            == 95 || b == 46 || b == 126 {
            out.push(b as char);
        } else {
            out.push('%');
            out.push(upper_digit_of(b / 16));
            out.push(upper_digit_of(b % 16));
            assert(out@ =~= before + seq![
                '%',
                upper_digit(b as nat / 16),
                upper_digit(b as nat % 16),
            ]);
        }
        i += 1;
    }
    assert(bytes@.take(i as int) =~= bytes@);
    text::string_of(out.as_slice())
}

/// The value of an upper-case hex digit.
pub open spec fn upper_value(c: char) -> nat {
    let u = c as nat;
    if u <= 57 {
        (u - 48) as nat
    } else {
        (u - 55) as nat
    }
}

/// The bytes that an escaped text stands for, read from its end.
pub open spec fn unescaped(s: Seq<char>) -> Seq<u8>
    decreases s.len(),
{
    if s.len() == 0 {
        seq![]
    } else if s.len() >= 3 && s[s.len() - 3] == '%' {
        unescaped(s.take(s.len() - 3)).push(
            (upper_value(s[s.len() - 2]) * 16 + upper_value(s[s.len() - 1])) as u8,
        )
    } else {
        unescaped(s.drop_last()).push(s.last() as u8)
    }
}

/// Whether a character can stand in an escaped text.
pub open spec fn escape_char(c: char) -> bool {
    c == '%' || ((c as int) < 128 && unreserved(c as u8))
}

/// An escaped text holds nothing but unreserved characters and percent signs,
/// and no percent sign in its last two places.
pub proof fn lemma_escaped_chars(bytes: Seq<u8>)
    ensures
        forall|i: int| 0 <= i < escaped(bytes).len() ==> escape_char(#[trigger] escaped(bytes)[i]),
        forall|i: int|
            0 <= i < escaped(bytes).len() && escaped(bytes).len() - 2 <= i ==> (
            #[trigger] escaped(bytes)[i]) != '%',
    decreases bytes.len(),
{
    if bytes.len() > 0 {
        let b = bytes.last();
        let front = escaped(bytes.drop_last());
        let s = escaped(bytes);
        lemma_escaped_chars(bytes.drop_last());
        assert forall|i: int| 0 <= i < s.len() implies escape_char(#[trigger] s[i]) && (s.len() - 2
            <= i ==> s[i] != '%') by {
            if i < front.len() {
                assert(s[i] == front[i]);
            } else if unreserved(b) {
                assert(s[i] == b as char);
            } else {
                let (h, l) = (b as nat / 16, b as nat % 16);
                assert(s[i] == '%' || s[i] == upper_digit(h) || s[i] == upper_digit(l));
            }
        }
    }
}

/// Escaping loses nothing: reading an escaped text gives the bytes back.
pub proof fn lemma_escaped_decodes(bytes: Seq<u8>)
    ensures
        unescaped(escaped(bytes)) == bytes,
    decreases bytes.len(),
{
    if bytes.len() > 0 {
        let front = bytes.drop_last();
        let b = bytes.last();
        lemma_escaped_decodes(front);
        lemma_escaped_chars(front);
        let s = escaped(bytes);
        let n = s.len();
        if unreserved(b) {
            assert(s.drop_last() =~= escaped(front));
            if n >= 3 {
                assert(s[n - 3] == escaped(front)[n - 3]);
            }
            assert(s.last() as u8 == b);
        } else {
            assert(s.take(n - 3) =~= escaped(front));
            assert(s[n - 3] == '%');
            let (h, l) = (b as nat / 16, b as nat % 16);
            assert(upper_value(upper_digit(h)) == h && upper_value(upper_digit(l)) == l);
        }
        assert(front.push(b) =~= bytes);
    }
}

/// Two document ids never share a URL segment, and a segment never holds a
/// character that ends it.
pub proof fn lemma_segment_is_exact(a: Seq<char>, b: Seq<char>)
    ensures
        escaped(encode_utf8(a)) == escaped(encode_utf8(b)) ==> a == b,
        forall|i: int|
            0 <= i < escaped(encode_utf8(a)).len() ==> {
                let c = #[trigger] escaped(encode_utf8(a))[i];
                c != '/' && c != '?' && c != '#' && c != ' ' && c != ','
            },
{
    lemma_escaped_decodes(encode_utf8(a));
    lemma_escaped_decodes(encode_utf8(b));
    encode_utf8_decode_utf8(a);
    encode_utf8_decode_utf8(b);
    lemma_escaped_chars(encode_utf8(a));
}

/// Format a time to live as the duration that the `Expires` header takes. `0`
/// means "no expiry".
pub fn expiry_duration(seconds: u32) -> (s: String)
    ensures
        s@ == number::decimal(seconds as nat) + "s"@,
{
    let n = number::decimal_text(seconds as u64);
    text::joined(n.as_str(), "s")
}

/// A document's absolute expiry, as the Data API reports it on a read.
#[derive(Debug, Clone, Copy, PartialEq, Eq, Structural)]
pub struct Expiry {
    pub year: i32,
    pub month: u8,
    pub day: u8,
    pub hour: u8,
    pub minute: u8,
    pub second: u8,
}

/// The number of a month that is written with three letters.
pub open spec fn month_in(s: Seq<char>) -> Option<u8> {
    if s == "Jan"@ {
        Some(1)
    } else if s == "Feb"@ {
        Some(2)
    } else if s == "Mar"@ {
        Some(3)
    } else if s == "Apr"@ {
        Some(4)
    } else if s == "May"@ {
        Some(5)
    } else if s == "Jun"@ {
        Some(6)
    } else if s == "Jul"@ {
        Some(7)
    } else if s == "Aug"@ {
        Some(8)
    } else if s == "Sep"@ {
        Some(9)
    } else if s == "Oct"@ {
        Some(10)
    } else if s == "Nov"@ {
        Some(11)
    } else if s == "Dec"@ {
        Some(12)
    } else {
        None
    }
}

/// A number that fits a byte.
pub open spec fn small(s: Seq<char>) -> Option<u8> {
    match number::unsigned(s, 10, u8::MAX as nat) {
        Some(v) => Some(v as u8),
        None => None,
    }
}

/// The clock in `hh:mm:ss`.
pub open spec fn clock_in(s: Seq<char>) -> Option<(u8, u8, u8)> {
    let parts = text::split(s, ':');
    if parts.len() != 3 {
        None
    } else {
        match (small(parts[0]), small(parts[1]), small(parts[2])) {
            (Some(h), Some(m), Some(s)) => Some((h, m, s)),
            _ => None,
        }
    }
}

/// The expiry in an `Expires` header: weekday, day, month, year, clock, zone.
pub open spec fn expiry_in(value: Seq<char>) -> Option<Expiry> {
    let w = text::words(value);
    if w.len() != 6 || !(w[5] == "GMT"@ || w[5] == "UTC"@) {
        None
    } else {
        match (small(w[1]), month_in(w[2]), number::signed32(w[3]), clock_in(w[4])) {
            (Some(day), Some(month), Some(year), Some((hour, minute, second))) => {
                if 1 <= day <= 31 && hour <= 23 && minute <= 59 && second <= 60 {
                    Some(Expiry { year: year as i32, month, day, hour, minute, second })
                } else {
                    None
                }
            },
            _ => None,
        }
    }
}

fn parse_small(s: &[char]) -> (r: Option<u8>)
    ensures
        r == small(s@),
{
    match number::parse_unsigned(s, 10, u8::MAX as u64) {
        Some(v) => Some(v as u8),
        None => None,
    }
}

fn parse_month(s: &[char]) -> (r: Option<u8>)
    ensures
        r == month_in(s@),
{
    if text::is_text(s, "Jan") {
        Some(1)
    } else if text::is_text(s, "Feb") {
        Some(2)
    } else if text::is_text(s, "Mar") {
        Some(3)
    } else if text::is_text(s, "Apr") {
        Some(4)
    } else if text::is_text(s, "May") {
        Some(5)
    } else if text::is_text(s, "Jun") {
        Some(6)
    } else if text::is_text(s, "Jul") {
        Some(7)
    } else if text::is_text(s, "Aug") {
        Some(8)
    } else if text::is_text(s, "Sep") {
        Some(9)
    } else if text::is_text(s, "Oct") {
        Some(10)
    } else if text::is_text(s, "Nov") {
        Some(11)
    } else if text::is_text(s, "Dec") {
        Some(12)
    } else {
        None
    }
}

fn parse_clock(s: &[char]) -> (r: Option<(u8, u8, u8)>)
    ensures
        r == clock_in(s@),
{
    let parts = text::split_char(s, ':');
    assert(text::views(parts@).len() == parts@.len());
    if parts.len() != 3 {
        return None;
    }
    assert(text::views(parts@)[0] == parts@[0]@);
    assert(text::views(parts@)[1] == parts@[1]@);
    assert(text::views(parts@)[2] == parts@[2]@);
    match (
        parse_small(parts[0].as_slice()),
        parse_small(parts[1].as_slice()),
        parse_small(parts[2].as_slice()),
    ) {
        (Some(h), Some(m), Some(s)) => Some((h, m, s)),
        _ => None,
    }
}

/// Parse the `Expires` header the Data API sends on a document read, e.g.
/// `Fri, 18 Sep 2026 18:06:29 UTC`. The header is absent for a document with
/// no time to live, so `None` covers both "no expiry" and "unparseable".
///
/// This is deliberately not a strict HTTP-date parser. The gateway that serves
/// the Data API writes the zone as `UTC`, where RFC 9110's IMF-fixdate requires
/// `GMT`; a conformant parser rejects every value it sends. Both spellings name
/// the same zone, so both are taken. The weekday is not checked: it is
/// redundant with the date. A second of 60 allows a leap second, which HTTP
/// dates permit.
pub fn parse_expires(value: &str) -> (r: Option<Expiry>)
    ensures
        r == expiry_in(value@),
{
    let cs = text::chars_of(value);
    let w = text::split_words(cs.as_slice());
    let ghost spec_words = text::words(value@);
    assert(spec_words == text::views(w@));
    if w.len() != 6 {
        return None;
    }
    assert(forall|i: int| 0 <= i < 6 ==> #[trigger] spec_words[i] == w@[i]@);
    if !text::is_text(w[5].as_slice(), "GMT") && !text::is_text(w[5].as_slice(), "UTC") {
        return None;
    }
    match (
        parse_small(w[1].as_slice()),
        parse_month(w[2].as_slice()),
        number::parse_signed32(w[3].as_slice()),
        parse_clock(w[4].as_slice()),
    ) {
        (Some(day), Some(month), Some(year), Some((hour, minute, second))) => {
            if 1 <= day && day <= 31 && hour <= 23 && minute <= 59 && second <= 60 {
                Some(Expiry { year, month, day, hour, minute, second })
            } else {
                None
            }
        },
        _ => None,
    }
}

/// Both spellings of the zone mean the same instant, and the weekday is not
/// checked: only day, month, year and clock count.
pub proof fn lemma_zone_spellings_agree(a: Seq<char>, b: Seq<char>)
    requires
        text::words(a).len() == 6,
        text::words(b).len() == 6,
        forall|i: int| 1 <= i < 5 ==> #[trigger] text::words(a)[i] == text::words(b)[i],
        text::words(a)[5] == "GMT"@ || text::words(a)[5] == "UTC"@,
        text::words(b)[5] == "GMT"@ || text::words(b)[5] == "UTC"@,
    ensures
        expiry_in(a) == expiry_in(b),
{
}

/// The `X-CB-DurabilityLevel` value for a durability level.
pub open spec fn durability_text(level_index: u8) -> Seq<char> {
    if level_index == 1 {
        "Majority"@
    } else if level_index == 2 {
        "MajorityAndPersistOnMaster"@
    } else if level_index == 3 {
        "PersistToMajority"@
    } else {
        "None"@
    }
}

/// The `X-CB-DurabilityLevel` value for a durability level.
///
/// `MajorityAndPersistOnMaster` is the Data API's spelling of the level that the
/// Couchbase SDKs call `MajorityAndPersistToActive`.
pub fn durability_header(level_index: u8) -> (s: &'static str)
    ensures
        s@ == durability_text(level_index),
{
    match level_index {
        1 => "Majority",
        2 => "MajorityAndPersistOnMaster",
        3 => "PersistToMajority",
        _ => "None",
    }
}

} // verus!
