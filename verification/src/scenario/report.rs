//! The report of a run: what each step did, in words.

use vstd::prelude::*;
use vstd::string::*;

use crate::http;
use crate::http::HttpAnswer;
use crate::number;
use crate::text;
use crate::types::{DocumentError, ErrorView, QueryErrorView, SqlppQueryError};

verus! {

/// An error's name, with its message in brackets where it has one.
pub open spec fn described(e: ErrorView) -> Seq<char> {
    match e {
        ErrorView::NotFound => "not-found"@,
        ErrorView::CasMismatch => "cas-mismatch"@,
        ErrorView::Locked => "locked"@,
        ErrorView::NotLocked => "not-locked"@,
        ErrorView::AlreadyExists => "already-exists"@,
        ErrorView::NotJson => "not-json"@,
        ErrorView::PathNotFound => "path-not-found"@,
        ErrorView::PathInvalid => "path-invalid"@,
        ErrorView::PathTooDeep => "path-too-deep"@,
        ErrorView::InvalidValue => "invalid-value"@,
        ErrorView::SubdocumentDeltaInvalid => "subdocument-delta-invalid"@,
        ErrorView::Unauthorized => "unauthorized"@,
        ErrorView::NotConfigured(m) => "not-configured("@ + m + ")"@,
        ErrorView::RequestFailed(m) => "request-failed("@ + m + ")"@,
        ErrorView::Timeout => "timeout"@,
        ErrorView::Unsupported(m) => "unsupported("@ + m + ")"@,
        ErrorView::InvalidArgument(m) => "invalid-argument("@ + m + ")"@,
        ErrorView::Other(m) => "other("@ + m + ")"@,
    }
}

/// An error's name, with its message in brackets where it has one.
pub fn describe(e: &DocumentError) -> (s: String)
    ensures
        s@ == described(e@),
{
    match e {
        DocumentError::NotFound => "not-found".to_string(),
        DocumentError::CasMismatch => "cas-mismatch".to_string(),
        DocumentError::Locked => "locked".to_string(),
        DocumentError::NotLocked => "not-locked".to_string(),
        DocumentError::AlreadyExists => "already-exists".to_string(),
        DocumentError::NotJson => "not-json".to_string(),
        DocumentError::PathNotFound => "path-not-found".to_string(),
        DocumentError::PathInvalid => "path-invalid".to_string(),
        DocumentError::PathTooDeep => "path-too-deep".to_string(),
        DocumentError::InvalidValue => "invalid-value".to_string(),
        DocumentError::SubdocumentDeltaInvalid => "subdocument-delta-invalid".to_string(),
        DocumentError::Unauthorized => "unauthorized".to_string(),
        DocumentError::NotConfigured(m) => text::joined3("not-configured(", m.as_str(), ")"),
        DocumentError::RequestFailed(m) => text::joined3("request-failed(", m.as_str(), ")"),
        DocumentError::Timeout => "timeout".to_string(),
        DocumentError::Unsupported(m) => text::joined3("unsupported(", m.as_str(), ")"),
        DocumentError::InvalidArgument(m) => text::joined3("invalid-argument(", m.as_str(), ")"),
        DocumentError::Other(m) => text::joined3("other(", m.as_str(), ")"),
    }
}

/// A query error's name, with its message in brackets where it has one.
pub open spec fn query_described(e: QueryErrorView) -> Seq<char> {
    match e {
        QueryErrorView::Unexpected(m) => "unexpected("@ + m + ")"@,
        QueryErrorView::InvalidArgument(m) => "invalid-argument("@ + m + ")"@,
        QueryErrorView::Unauthorized => "unauthorized"@,
        QueryErrorView::NotConfigured(m) => "not-configured("@ + m + ")"@,
        QueryErrorView::RequestFailed(m) => "request-failed("@ + m + ")"@,
        QueryErrorView::Timeout => "timeout"@,
        QueryErrorView::Server(m) => "server("@ + m + ")"@,
    }
}

/// A query error's name, with its message in brackets where it has one.
pub fn describe_query(e: &SqlppQueryError) -> (s: String)
    ensures
        s@ == query_described(e@),
{
    match e {
        SqlppQueryError::Unexpected(m) => text::joined3("unexpected(", m.as_str(), ")"),
        SqlppQueryError::InvalidArgument(m) => text::joined3("invalid-argument(", m.as_str(), ")"),
        SqlppQueryError::Unauthorized => "unauthorized".to_string(),
        SqlppQueryError::NotConfigured(m) => text::joined3("not-configured(", m.as_str(), ")"),
        SqlppQueryError::RequestFailed(m) => text::joined3("request-failed(", m.as_str(), ")"),
        SqlppQueryError::Timeout => "timeout".to_string(),
        SqlppQueryError::Server(m) => text::joined3("server(", m.as_str(), ")"),
    }
}

/// One line of a report.
pub open spec fn line(step: Seq<char>, outcome: Seq<char>) -> Seq<char> {
    step + ": "@ + outcome
}

/// How a step is reported that should succeed: what it showed, or the name of
/// the error that it should not have met.
pub open spec fn success(outcome: Result<Seq<char>, Seq<char>>) -> Seq<char> {
    match outcome {
        Ok(shown) => "OK "@ + shown,
        Err(name) => "UNEXPECTED-ERR "@ + name,
    }
}

/// How a step is reported that should fail in a named way.
pub open spec fn failure(expected: Seq<char>, outcome: Result<(), Seq<char>>) -> Seq<char> {
    match outcome {
        Ok(_) => "UNEXPECTED-OK (wanted "@ + expected + ")"@,
        Err(got) => if text::starts_with(got, expected) {
            "OK "@ + got
        } else {
            "WRONG-ERR got "@ + got + ", wanted "@ + expected
        },
    }
}

/// What a run has reported so far.
#[derive(Debug, PartialEq, Eq)]
pub struct Report {
    pub lines: Vec<String>,
}

/// The contents of a report's lines.
pub open spec fn lines_view(lines: Seq<String>) -> Seq<Seq<char>> {
    Seq::new(lines.len(), |i: int| lines[i]@)
}

impl View for Report {
    type V = Seq<Seq<char>>;

    open spec fn view(&self) -> Seq<Seq<char>> {
        lines_view(self.lines@)
    }
}

/// The contents of an outcome in words.
pub open spec fn words(r: Result<String, String>) -> Result<Seq<char>, Seq<char>> {
    match r {
        Ok(s) => Ok(s@),
        Err(e) => Err(e@),
    }
}

impl Report {
    /// A report without lines.
    pub fn new() -> (r: Report)
        ensures
            r@ == Seq::<Seq<char>>::empty(),
    {
        let r = Report { lines: Vec::new() };
        assert(r@ =~= Seq::<Seq<char>>::empty());
        r
    }

    /// Add the outcome of a step.
    pub fn push(&mut self, step: &str, outcome: &str)
        ensures
            final(self)@ == old(self)@.push(line(step@, outcome@)),
    {
        let ghost before = self@;
        self.lines.push(text::joined3(step, ": ", outcome));
        assert(self@ =~= before.push(line(step@, outcome@)));
    }

    /// Add the outcome of a step that should succeed.
    pub fn ok(&mut self, step: &str, outcome: Result<String, String>)
        ensures
            final(self)@ == old(self)@.push(line(step@, success(words(outcome)))),
    {
        let said = match outcome {
            Ok(shown) => text::joined("OK ", shown.as_str()),
            Err(name) => text::joined("UNEXPECTED-ERR ", name.as_str()),
        };
        self.push(step, said.as_str());
    }

    /// Add the outcome of a step that should fail with an error whose name
    /// begins with `expected`.
    pub fn expect_err(&mut self, step: &str, expected: &str, outcome: Result<(), String>)
        ensures
            final(self)@ == old(self)@.push(
                line(
                    step@,
                    failure(
                        expected@,
                        match outcome {
                            Ok(_) => Ok(()),
                            Err(got) => Err(got@),
                        },
                    ),
                ),
            ),
    {
        let said = match outcome {
            Ok(_) => text::joined3("UNEXPECTED-OK (wanted ", expected, ")"),
            Err(got) => {
                let cs = text::chars_of(got.as_str());
                if text::begins_with(cs.as_slice(), expected) {
                    text::joined("OK ", got.as_str())
                } else {
                    let mut s = text::joined3("WRONG-ERR got ", got.as_str(), ", wanted ");
                    s.append(expected);
                    s
                }
            },
        };
        self.push(step, said.as_str());
    }
}

/// A step that should fail is reported as `OK` exactly when it failed as it
/// should; and one that should succeed, exactly when it succeeded.
pub proof fn lemma_ok_is_earned(
    expected: Seq<char>,
    outcome: Result<(), Seq<char>>,
    shown: Result<Seq<char>, Seq<char>>,
)
    ensures
        text::starts_with(failure(expected, outcome), "OK "@) <==> (outcome matches Err(got)
            && text::starts_with(got, expected)),
        text::starts_with(success(shown), "OK "@) <==> shown is Ok,
{
    reveal_strlit("OK ");
    reveal_strlit("UNEXPECTED-OK (wanted ");
    reveal_strlit(")");
    reveal_strlit("WRONG-ERR got ");
    reveal_strlit(", wanted ");
    reveal_strlit("UNEXPECTED-ERR ");
    let f = failure(expected, outcome);
    let s = success(shown);
    if text::starts_with(f, "OK "@) {
        assert(f.take(3)[0] == 'O');
    }
    if let Err(got) = outcome {
        assert(("OK "@ + got).take(3) =~= "OK "@);
    }
    if text::starts_with(s, "OK "@) {
        assert(s.take(3)[0] == 'O');
    }
    if let Ok(v) = shown {
        assert(("OK "@ + v).take(3) =~= "OK "@);
    }
}

/// Lines, one below the other.
pub open spec fn joined_lines(lines: Seq<Seq<char>>) -> Seq<char>
    decreases lines.len(),
{
    if lines.len() == 0 {
        seq![]
    } else if lines.len() == 1 {
        lines[0]
    } else {
        joined_lines(lines.drop_last()) + "\n"@ + lines.last()
    }
}

/// The answer that a report is served as.
pub fn answer(report: &Report) -> (a: HttpAnswer)
    ensures
        a@ == http::text_answer(200, joined_lines(report@)),
{
    let ghost all = report@;
    let mut body = String::new();
    let mut i: usize = 0;
    assert(all.take(0).len() == 0);
    assert(body@ =~= seq![]);
    while i < report.lines.len()
        invariant
            i <= report.lines@.len(),
            all == report@,
            body@ == joined_lines(all.take(i as int)),
        decreases report.lines@.len() - i,
    {
        proof {
            assert(all.take(i + 1).drop_last() =~= all.take(i as int));
            assert(all.take(i + 1).last() == report.lines@[i as int]@);
        }
        if i > 0 {
            body.append("\n");
        }
        body.append(report.lines[i].as_str());
        proof {
            if i == 0 {
                assert(body@ =~= report.lines@[0]@);
            }
        }
        i += 1;
    }
    assert(all.take(i as int) =~= all);
    http::text(200, body.as_str())
}

/// `true` or `false`.
pub open spec fn bool_text(b: bool) -> Seq<char> {
    if b {
        "true"@
    } else {
        "false"@
    }
}

/// `true` or `false`.
pub fn show_bool(b: bool) -> (s: &'static str)
    ensures
        s@ == bool_text(b),
{
    if b {
        "true"
    } else {
        "false"
    }
}

/// A whole number with its sign where it is negative.
pub open spec fn signed_decimal(n: int) -> Seq<char> {
    if n < 0 {
        "-"@ + number::decimal((-n) as nat)
    } else {
        number::decimal(n as nat)
    }
}

/// A whole number with its sign where it is negative.
pub fn show_signed(n: i32) -> (s: String)
    ensures
        s@ == signed_decimal(n as int),
{
    if n < 0 {
        let m: i64 = -(n as i64);
        let digits = number::decimal_text(m as u64);
        text::joined("-", digits.as_str())
    } else {
        number::decimal_text(n as u64)
    }
}

/// Bytes as numbers with commas between them.
pub open spec fn listed(bytes: Seq<u8>) -> Seq<char>
    decreases bytes.len(),
{
    if bytes.len() == 0 {
        seq![]
    } else if bytes.len() == 1 {
        number::decimal(bytes[0] as nat)
    } else {
        listed(bytes.drop_last()) + ", "@ + number::decimal(bytes.last() as nat)
    }
}

/// Bytes as a list of numbers.
pub open spec fn byte_list(bytes: Seq<u8>) -> Seq<char> {
    "["@ + listed(bytes) + "]"@
}

/// Bytes as a list of numbers.
pub fn show_bytes(bytes: &[u8]) -> (s: String)
    ensures
        s@ == byte_list(bytes@),
{
    let mut s = String::new();
    let len: usize = bytes.len();
    let mut i: usize = 0;
    assert(s@ =~= listed(bytes@.take(0)));
    while i < len
        invariant
            i <= len,
            len == bytes@.len(),
            s@ == listed(bytes@.take(i as int)),
        decreases len - i,
    {
        proof {
            assert(bytes@.take(i + 1).drop_last() =~= bytes@.take(i as int));
        }
        if i > 0 {
            s.append(", ");
        }
        let n = number::decimal_text(bytes[i] as u64);
        s.append(n.as_str());
        proof {
            if i == 0 {
                assert(s@ =~= number::decimal(bytes@[0] as nat));
            }
        }
        i += 1;
    }
    assert(bytes@.take(i as int) =~= bytes@);
    text::joined3("[", s.as_str(), "]")
}

/// A text that may be there, in the developer's form.
pub open spec fn option_debug(s: Option<Seq<char>>) -> Seq<char> {
    match s {
        Some(t) => "Some("@ + text::debug_quoted(t) + ")"@,
        None => "None"@,
    }
}

/// A text that may be there, in the developer's form.
pub fn show_option(s: &Option<String>) -> (r: String)
    ensures
        r@ == option_debug(text::option_view(*s)),
{
    match s {
        Some(t) => {
            let quoted = text::debug_text(t.as_str());
            text::joined3("Some(", quoted.as_str(), ")")
        },
        None => "None".to_string(),
    }
}

/// The text of a document, with replacement characters where it is none.
pub fn doc_text(document: &[u8]) -> (s: String)
    ensures
        s@ == text::lossy_text(document@),
{
    text::from_utf8_lossy(document)
}

} // verus!
