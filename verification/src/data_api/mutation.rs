//! Mutation tokens: reading `X-CB-MutationToken` off a write, and turning one
//! back into the scan vector that a query needs for `at_plus` consistency.
//!
//! # Why this parser refuses to guess
//!
//! A mutation token is three numbers (a vbucket id, that vbucket's uuid, and a
//! sequence number) plus the bucket they belong to. Handing the query service
//! a vector with the fields transposed gives no error: the numbers are all
//! plausible, the query runs, and it simply does not wait for the write that
//! the caller was trying to observe.
//!
//! So two shapes are parsed and no others: `bucket:vbid:vbuuid-hex:seqno`,
//! checked strictly enough that a different four-field encoding cannot pass for
//! it, and a JSON object whose fields say what they are. Anything else is
//! [`Token::Opaque`]: carried verbatim so that a caller can still see it and
//! report it, but never taken apart by guesswork.

use vstd::prelude::*;
use vstd::string::*;
use vstd::utf8::*;

use crate::json;
use crate::json::{Json, Tree};
use crate::number;
use crate::query;
use crate::query::Position;
use crate::text;

verus! {

/// The parts of a mutation token, once they are known.
#[derive(Debug, PartialEq, Eq)]
pub struct Parts {
    pub bucket: String,
    pub partition_id: u64,
    pub partition_uuid: u64,
    pub sequence_number: u64,
}

/// A token as it came back from the cluster.
#[derive(Debug, PartialEq, Eq)]
pub enum Token {
    /// Self-describing, and safe to take apart.
    Structured(Parts),
    /// Present but in an unrecognized encoding. Kept verbatim: it is the only
    /// evidence of what the real format is, and a caller can report it.
    Opaque(String),
}

/// The contents of [`Parts`].
pub struct PartsView {
    pub bucket: Seq<char>,
    pub partition_id: u64,
    pub partition_uuid: u64,
    pub sequence_number: u64,
}

impl View for Parts {
    type V = PartsView;

    open spec fn view(&self) -> PartsView {
        PartsView {
            bucket: self.bucket@,
            partition_id: self.partition_id,
            partition_uuid: self.partition_uuid,
            sequence_number: self.sequence_number,
        }
    }
}

/// The contents of a [`Token`].
pub enum TokenForm {
    Structured(PartsView),
    Opaque(Seq<char>),
}

impl View for Token {
    type V = TokenForm;

    open spec fn view(&self) -> TokenForm {
        match self {
            Token::Structured(p) => TokenForm::Structured(p@),
            Token::Opaque(raw) => TokenForm::Opaque(raw@),
        }
    }
}

impl Token {
    /// The parts, when they are known.
    pub fn parts(&self) -> (r: Option<&Parts>)
        ensures
            match r {
                Some(p) => *self == Token::Structured(*p),
                None => *self is Opaque,
            },
    {
        match self {
            Token::Structured(parts) => Some(parts),
            Token::Opaque(_) => None,
        }
    }

    /// The token as it came, when its parts are not known.
    pub fn raw(&self) -> (r: Option<&str>)
        ensures
            match r {
                Some(raw) => self@ == TokenForm::Opaque(raw@),
                None => *self is Structured,
            },
    {
        match self {
            Token::Opaque(raw) => Some(raw.as_str()),
            Token::Structured(_) => None,
        }
    }
}

/// The spellings of a bucket's name.
pub open spec fn bucket_keys() -> Seq<Seq<char>> {
    seq!["bucket"@, "bucket_name"@, "bucketName"@]
}

/// The spellings of a vbucket id.
pub open spec fn vbid_keys() -> Seq<Seq<char>> {
    seq!["vbid"@, "vbucket"@, "vbucket_id"@, "vbucketId"@, "partition_id"@, "partitionId"@]
}

/// The spellings of a vbucket's uuid.
pub open spec fn vbuuid_keys() -> Seq<Seq<char>> {
    seq![
        "vbuuid"@,
        "vbucket_uuid"@,
        "vbucketUuid"@,
        "partition_uuid"@,
        "partitionUuid"@,
        "uuid"@,
    ]
}

/// The spellings of a sequence number.
pub open spec fn seqno_keys() -> Seq<Seq<char>> {
    seq!["seqno"@, "seq"@, "sequence_number"@, "sequenceNumber"@]
}

/// The number that a member gives, as a JSON number or as text. Values past
/// 2^53 lose precision as JSON numbers in many encoders, so both are taken.
pub open spec fn number_of(t: Option<Tree>) -> Option<u64> {
    match t {
        Some(Tree::Int(n)) => if 0 <= n <= u64::MAX {
            Some(n as u64)
        } else {
            None
        },
        Some(Tree::Text(s)) => match number::unsigned(text::trimmed(s), 10, u64::MAX as nat) {
            Some(v) => Some(v as u64),
            None => None,
        },
        _ => None,
    }
}

/// The number under the first of several names that gives one.
pub open spec fn pick(t: Tree, keys: Seq<Seq<char>>) -> Option<u64>
    decreases keys.len(),
{
    if keys.len() == 0 {
        None
    } else {
        match number_of(json::member(t, keys[0])) {
            Some(v) => Some(v),
            None => pick(t, keys.drop_first()),
        }
    }
}

/// The text under the first of several names that gives one.
pub open spec fn pick_text(t: Tree, keys: Seq<Seq<char>>) -> Option<Seq<char>>
    decreases keys.len(),
{
    if keys.len() == 0 {
        None
    } else {
        match json::member(t, keys[0]) {
            Some(Tree::Text(s)) => Some(s),
            _ => pick_text(t, keys.drop_first()),
        }
    }
}

/// The parts in a JSON object. All three numbers must be there: a token that
/// lacks one cannot build a scan vector.
pub open spec fn named_parts(t: Tree) -> Option<PartsView> {
    if t is Object {
        match (pick(t, vbid_keys()), pick(t, vbuuid_keys()), pick(t, seqno_keys())) {
            (Some(partition_id), Some(partition_uuid), Some(sequence_number)) => Some(
                PartsView {
                    bucket: match pick_text(t, bucket_keys()) {
                        Some(b) => b,
                        None => Seq::empty(),
                    },
                    partition_id,
                    partition_uuid,
                    sequence_number,
                },
            ),
            _ => None,
        }
    } else {
        None
    }
}

/// Whether a text is a number in decimal.
pub open spec fn is_number(s: Seq<char>) -> bool {
    s.len() > 0 && forall|i: int|
        0 <= i < s.len() ==> number::digit_value(#[trigger] s[i], 10) is Some
}

/// The parts in `bucket:vbid:vbuuid-hex:seqno`: exactly four fields, a bucket
/// that is not itself a number, and three numbers, each in its own radix.
pub open spec fn colon_parts(raw: Seq<char>) -> Option<PartsView> {
    let f = text::split(raw, ':');
    if f.len() != 4 || f[0].len() == 0 || is_number(f[0]) {
        None
    } else {
        match (
            number::unsigned(f[1], 10, u64::MAX as nat),
            number::unsigned(f[2], 16, u64::MAX as nat),
            number::unsigned(f[3], 10, u64::MAX as nat),
        ) {
            (Some(id), Some(uuid), Some(seq)) => Some(
                PartsView {
                    bucket: f[0],
                    partition_id: id as u64,
                    partition_uuid: uuid as u64,
                    sequence_number: seq as u64,
                },
            ),
            _ => None,
        }
    }
}

/// The parts in a token, in either shape.
pub open spec fn parts_in(raw: Seq<char>) -> Option<PartsView> {
    if raw.len() > 0 && raw[0] == '{' {
        match json::json_parse(encode_utf8(raw)) {
            Ok(t) => named_parts(t),
            Err(_) => None,
        }
    } else {
        colon_parts(raw)
    }
}

/// The token in a header. A token in an unfamiliar encoding is kept as it is.
pub open spec fn token_in(header: Seq<char>) -> Option<TokenForm> {
    let raw = text::trimmed(header);
    if raw.len() == 0 {
        None
    } else {
        match parts_in(raw) {
            Some(p) => Some(TokenForm::Structured(p)),
            None => Some(TokenForm::Opaque(raw)),
        }
    }
}

/// The contents of a list of names.
pub open spec fn names(keys: Seq<&str>) -> Seq<Seq<char>> {
    Seq::new(keys.len(), |i: int| keys[i]@)
}

fn number_from(j: Option<&Json>) -> (r: Option<u64>)
    ensures
        r == number_of(
            match j {
                Some(j) => Some(j.tree()),
                None => None,
            },
        ),
{
    match j {
        Some(Json::Unsigned(n)) => Some(*n),
        Some(Json::Signed(n)) => if *n >= 0 {
            Some(*n as u64)
        } else {
            None
        },
        Some(Json::Text(s)) => {
            let cs = text::chars_of(s.as_str());
            number::parse_unsigned(text::trim(cs.as_slice()), 10, u64::MAX)
        },
        _ => None,
    }
}

fn pick_u64(object: &Json, keys: &[&str]) -> (r: Option<u64>)
    ensures
        r == pick(object.tree(), names(keys@)),
{
    let ghost all = names(keys@);
    assert(all.skip(0) =~= all);
    let mut i: usize = 0;
    while i < keys.len()
        invariant
            i <= keys@.len(),
            all == names(keys@),
            pick(object.tree(), all) == pick(object.tree(), all.skip(i as int)),
        decreases keys@.len() - i,
    {
        assert(all.skip(i as int)[0] == keys@[i as int]@);
        match number_from(object.get(keys[i])) {
            Some(v) => return Some(v),
            None => {},
        }
        assert(all.skip(i as int).drop_first() =~= all.skip(i + 1));
        i += 1;
    }
    None
}

fn pick_string(object: &Json, keys: &[&str]) -> (r: Option<String>)
    ensures
        text::option_view(r) == pick_text(object.tree(), names(keys@)),
{
    let ghost all = names(keys@);
    assert(all.skip(0) =~= all);
    let mut i: usize = 0;
    while i < keys.len()
        invariant
            i <= keys@.len(),
            all == names(keys@),
            pick_text(object.tree(), all) == pick_text(object.tree(), all.skip(i as int)),
        decreases keys@.len() - i,
    {
        assert(all.skip(i as int)[0] == keys@[i as int]@);
        match object.get(keys[i]) {
            Some(Json::Text(s)) => return Some(s.clone()),
            _ => {},
        }
        assert(all.skip(i as int).drop_first() =~= all.skip(i + 1));
        i += 1;
    }
    None
}

/// Take a parsed JSON token apart.
pub fn parse_named(object: &Json) -> (r: Option<Parts>)
    ensures
        match r {
            Some(p) => named_parts(object.tree()) == Some(p@),
            None => named_parts(object.tree()) is None,
        },
{
    match object {
        Json::Object(_) => {},
        _ => return None,
    }
    let vbid = ["vbid", "vbucket", "vbucket_id", "vbucketId", "partition_id", "partitionId"];
    let vbuuid = [
        "vbuuid",
        "vbucket_uuid",
        "vbucketUuid",
        "partition_uuid",
        "partitionUuid",
        "uuid",
    ];
    let seqno = ["seqno", "seq", "sequence_number", "sequenceNumber"];
    let bucket = ["bucket", "bucket_name", "bucketName"];
    proof {
        assert(names(vbid@) =~= vbid_keys());
        assert(names(vbuuid@) =~= vbuuid_keys());
        assert(names(seqno@) =~= seqno_keys());
        assert(names(bucket@) =~= bucket_keys());
    }
    let partition_id = match pick_u64(object, vbid.as_slice()) {
        Some(v) => v,
        None => return None,
    };
    let partition_uuid = match pick_u64(object, vbuuid.as_slice()) {
        Some(v) => v,
        None => return None,
    };
    let sequence_number = match pick_u64(object, seqno.as_slice()) {
        Some(v) => v,
        None => return None,
    };
    let bucket = match pick_string(object, bucket.as_slice()) {
        Some(s) => s,
        None => String::new(),
    };
    assert(bucket@ == (match pick_text(object.tree(), bucket_keys()) {
        Some(b) => b,
        None => Seq::empty(),
    }));
    Some(Parts { bucket, partition_id, partition_uuid, sequence_number })
}

fn number_in(s: &[char]) -> (r: bool)
    ensures
        r == is_number(s@),
{
    let mut i: usize = 0;
    while i < s.len()
        invariant
            i <= s.len(),
            forall|j: int| 0 <= j < i ==> number::digit_value(#[trigger] s@[j], 10) is Some,
        decreases s.len() - i,
    {
        if number::value_of_digit(s[i], 10).is_none() {
            assert(number::digit_value(s@[i as int], 10) is None);
            return false;
        }
        i += 1;
    }
    s.len() > 0
}

/// Take the colon form apart.
///
/// The shape is checked strictly, so that a different encoding with four fields
/// is not misread as this one.
pub fn parse_colon_form(raw: &[char]) -> (r: Option<Parts>)
    ensures
        match r {
            Some(p) => colon_parts(raw@) == Some(p@),
            None => colon_parts(raw@) is None,
        },
{
    let f = text::split_char(raw, ':');
    let ghost fields = text::split(raw@, ':');
    assert(fields == text::views(f@));
    if f.len() != 4 {
        return None;
    }
    assert(forall|i: int| 0 <= i < 4 ==> #[trigger] fields[i] == f@[i]@);
    if f[0].len() == 0 || number_in(f[0].as_slice()) {
        return None;
    }
    match (
        number::parse_unsigned(f[1].as_slice(), 10, u64::MAX),
        number::parse_unsigned(f[2].as_slice(), 16, u64::MAX),
        number::parse_unsigned(f[3].as_slice(), 10, u64::MAX),
    ) {
        (Some(partition_id), Some(partition_uuid), Some(sequence_number)) => Some(
            Parts {
                bucket: text::string_of(f[0].as_slice()),
                partition_id,
                partition_uuid,
                sequence_number,
            },
        ),
        _ => None,
    }
}

fn parse_structured(raw: &[char]) -> (r: Option<Parts>)
    ensures
        match r {
            Some(p) => parts_in(raw@) == Some(p@),
            None => parts_in(raw@) is None,
        },
{
    if raw.len() > 0 && raw[0] == '{' {
        let s = text::string_of(raw);
        match json::parse_text(s.as_str()) {
            Ok(j) => parse_named(&j),
            Err(_) => None,
        }
    } else {
        parse_colon_form(raw)
    }
}

/// Read `X-CB-MutationToken`.
///
/// Returns `None` only for a blank header. A present-but-unfamiliar token comes
/// back as [`Token::Opaque`] rather than being discarded, because losing it
/// would also lose the only clue to its format.
pub fn parse(header: &str) -> (r: Option<Token>)
    ensures
        match r {
            Some(t) => token_in(header@) == Some(t@),
            None => token_in(header@) is None,
        },
{
    let cs = text::chars_of(header);
    let raw = text::trim(cs.as_slice());
    if raw.len() == 0 {
        return None;
    }
    Some(
        match parse_structured(raw) {
            Some(parts) => Token::Structured(parts),
            None => Token::Opaque(text::string_of(raw)),
        },
    )
}

/// The wire form of a token.
pub open spec fn colon_form(p: PartsView) -> Seq<char> {
    p.bucket + seq![':'] + (number::decimal(p.partition_id as nat) + seq![':'] + (number::digits(
        p.partition_uuid as nat,
        16,
    ) + seq![':'] + number::decimal(p.sequence_number as nat)))
}

/// A token in the wire form is read as what it says, for every bucket whose
/// name holds no colon, is not itself a number and does not begin like a JSON
/// object.
pub proof fn lemma_colon_form_round_trip(p: PartsView)
    requires
        p.bucket.len() > 0,
        !p.bucket.contains(':'),
        !is_number(p.bucket),
        p.bucket[0] != '{',
        !text::is_white_space(p.bucket[0]),
    ensures
        token_in(colon_form(p)) == Some(TokenForm::Structured(p)),
{
    let id = number::decimal(p.partition_id as nat);
    let uuid = number::digits(p.partition_uuid as nat, 16);
    let seq = number::decimal(p.sequence_number as nat);
    number::lemma_decimal_has_no_mark(p.partition_id as nat, ':');
    number::lemma_decimal_has_no_mark(p.sequence_number as nat, ':');
    number::lemma_digits_chars(p.partition_uuid as nat, 16);
    number::lemma_digits_chars(p.partition_id as nat, 10);
    number::lemma_digits_chars(p.sequence_number as nat, 10);
    assert(!uuid.contains(':'));
    let tail2 = uuid + seq![':'] + seq;
    let tail1 = id + seq![':'] + tail2;
    let s = colon_form(p);
    text::lemma_split_cut(p.bucket, tail1, ':');
    text::lemma_split_cut(id, tail2, ':');
    text::lemma_split_cut(uuid, seq, ':');
    text::lemma_split_single(seq, ':');
    let f = text::split(s, ':');
    assert(f =~= seq![p.bucket, id, uuid, seq]);
    number::lemma_digits_round_trip(p.partition_id as nat, 10);
    number::lemma_digits_round_trip(p.partition_uuid as nat, 16);
    number::lemma_digits_round_trip(p.sequence_number as nat, 10);
    assert(number::digit_value(id[0], 10) is Some);
    assert(number::digit_value(uuid[0], 16) is Some);
    assert(number::digit_value(seq[0], 10) is Some);
    assert(number::digit_value(seq[seq.len() - 1], 10) is Some);
    assert(s[0] == p.bucket[0]);
    assert(s.last() == seq[seq.len() - 1]);
    text::lemma_trimmed_same(s);
}

/// The contents of a list of tokens.
pub open spec fn forms(tokens: Seq<Token>) -> Seq<TokenForm> {
    Seq::new(tokens.len(), |i: int| tokens[i]@)
}

/// Whether a token says where its write is.
pub open spec fn usable(t: TokenForm) -> bool {
    match t {
        TokenForm::Structured(p) => p.partition_uuid != 0,
        TokenForm::Opaque(_) => false,
    }
}

/// Where a token's write is.
pub open spec fn position(t: TokenForm) -> Position {
    match t {
        TokenForm::Structured(p) => Position {
            partition_id: p.partition_id,
            partition_uuid: p.partition_uuid,
            sequence_number: p.sequence_number,
        },
        TokenForm::Opaque(_) => Position {
            partition_id: 0,
            partition_uuid: 0,
            sequence_number: 0,
        },
    }
}

/// Where the writes of tokens are.
pub open spec fn positions(tokens: Seq<TokenForm>) -> Seq<Position> {
    Seq::new(tokens.len(), |i: int| position(tokens[i]))
}

/// The scan vector of tokens. There is none when any of them does not say where
/// its write is: a partial vector would silently under-constrain the query.
pub open spec fn vector_in(tokens: Seq<TokenForm>) -> Option<Tree> {
    if tokens.len() > 0 && forall|i: int| 0 <= i < tokens.len() ==> usable(#[trigger] tokens[i]) {
        Some(Tree::Object(query::scan_map(positions(tokens))))
    } else {
        None
    }
}

/// Build the sparse `scan_vector` that the query service takes for `at_plus`:
/// an object keyed by vbucket number as a **string**, each value a two-element
/// `[sequence-number, vbucket-uuid]` where the sequence number is a JSON number
/// and the uuid is a string.
///
/// A zeroed token is what an implementation reports when it had none; treating
/// it as a real position would claim a guarantee nobody has.
pub fn scan_vector(tokens: &[Token]) -> (r: Option<Json>)
    ensures
        match r {
            Some(j) => vector_in(forms(tokens@)) == Some(j.tree()),
            None => vector_in(forms(tokens@)) is None,
        },
{
    if tokens.len() == 0 {
        return None;
    }
    let ghost all = forms(tokens@);
    let ghost at = positions(all);
    let mut vector: Vec<(String, Json)> = Vec::new();
    let mut i: usize = 0;
    assert(at.take(0).len() == 0);
    assert(json::members(vector@) =~= Map::empty());
    while i < tokens.len()
        invariant
            i <= tokens@.len(),
            tokens@.len() > 0,
            all == forms(tokens@),
            at == positions(all),
            forall|j: int| 0 <= j < i ==> usable(#[trigger] all[j]),
            json::members(vector@) == query::scan_map(at.take(i as int)),
        decreases tokens@.len() - i,
    {
        proof {
            assert(all[i as int] == tokens@[i as int]@);
            assert(at.take(i + 1).drop_last() =~= at.take(i as int));
            assert(at.take(i + 1).last() == position(all[i as int]));
        }
        let parts = match tokens[i].parts() {
            Some(parts) => parts,
            None => {
                assert(!usable(all[i as int]));
                return None;
            },
        };
        if parts.partition_uuid == 0 {
            assert(!usable(all[i as int]));
            return None;
        }
        query::put_position(
            &mut vector,
            parts.partition_id,
            parts.partition_uuid,
            parts.sequence_number,
        );
        i += 1;
    }
    assert(at.take(i as int) =~= at);
    Some(Json::Object(vector))
}

/// One token that does not say where its write is spoils the whole vector.
pub proof fn lemma_no_partial_vector(tokens: Seq<TokenForm>, i: int)
    requires
        0 <= i < tokens.len(),
        !usable(tokens[i]),
    ensures
        vector_in(tokens) is None,
{
}

/// The number under the first name that gives one is taken, and there is none
/// where no name gives one.
pub proof fn lemma_first_name_is_picked(t: Tree, keys: Seq<Seq<char>>, i: int)
    requires
        0 <= i <= keys.len(),
        forall|j: int| 0 <= j < i ==> number_of(json::member(t, #[trigger] keys[j])) is None,
    ensures
        i == keys.len() ==> pick(t, keys) is None,
        i < keys.len() && number_of(json::member(t, keys[i])) is Some ==> pick(t, keys)
            == number_of(json::member(t, keys[i])),
    decreases i,
{
    if i > 0 {
        let rest = keys.drop_first();
        assert(number_of(json::member(t, keys[0])) is None);
        assert forall|j: int| 0 <= j < i - 1 implies number_of(
            json::member(t, #[trigger] rest[j]),
        ) is None by {
            assert(rest[j] == keys[j + 1]);
        }
        lemma_first_name_is_picked(t, rest, i - 1);
        if i < keys.len() {
            assert(rest[i - 1] == keys[i]);
        }
    }
}

/// A number is read from a JSON number and from decimal text alike.
pub proof fn lemma_numbers_are_read(n: u64)
    ensures
        number_of(Some(Tree::Int(n as int))) == Some(n),
        number_of(Some(Tree::Text(number::decimal(n as nat)))) == Some(n),
{
    let d = number::decimal(n as nat);
    number::lemma_digits_round_trip(n as nat, 10);
    number::lemma_digits_chars(n as nat, 10);
    assert(number::digit_value(d[0], 10) is Some);
    assert(number::digit_value(d[d.len() - 1], 10) is Some);
    text::lemma_trimmed_same(d);
}

/// A token that is an object names its bucket, its vbucket, the vbucket's uuid and
/// the sequence number, each under its own name; without one of the three numbers
/// it does not say where its write is.
pub proof fn lemma_named_token_is_read(t: Tree, bucket: Seq<char>, id: u64, uuid: u64, seq: u64)
    requires
        t is Object,
    ensures
        json::member(t, "bucket"@) == Some(Tree::Text(bucket)) && number_of(
            json::member(t, "vbid"@),
        ) == Some(id) && number_of(json::member(t, "vbuuid"@)) == Some(uuid) && number_of(
            json::member(t, "seqno"@),
        ) == Some(seq) ==> named_parts(t) == Some(
            PartsView {
                bucket,
                partition_id: id,
                partition_uuid: uuid,
                sequence_number: seq,
            },
        ),
        (forall|k: Seq<char>|
            k == "vbid"@ || k == "vbucket"@ || k == "vbucket_id"@ || k == "vbucketId"@ || k
                == "partition_id"@ || k == "partitionId"@ ==> number_of(
                #[trigger] json::member(t, k),
            ) is None) ==> named_parts(t) is None,
        (forall|k: Seq<char>|
            k == "vbuuid"@ || k == "vbucket_uuid"@ || k == "vbucketUuid"@ || k
                == "partition_uuid"@ || k == "partitionUuid"@ || k == "uuid"@ ==> number_of(
                #[trigger] json::member(t, k),
            ) is None) ==> named_parts(t) is None,
        (forall|k: Seq<char>|
            k == "seqno"@ || k == "seq"@ || k == "sequence_number"@ || k == "sequenceNumber"@
                ==> number_of(#[trigger] json::member(t, k)) is None) ==> named_parts(t) is None,
{
    let ids = vbid_keys();
    let uuids = vbuuid_keys();
    let seqs = seqno_keys();
    assert(ids.len() == 6 && uuids.len() == 6 && seqs.len() == 4);
    assert(ids[0] == "vbid"@ && uuids[0] == "vbuuid"@ && seqs[0] == "seqno"@);
    assert(bucket_keys()[0] == "bucket"@);
    lemma_first_name_is_picked(t, ids, 0);
    lemma_first_name_is_picked(t, uuids, 0);
    lemma_first_name_is_picked(t, seqs, 0);
    if forall|k: Seq<char>|
        k == "vbid"@ || k == "vbucket"@ || k == "vbucket_id"@ || k == "vbucketId"@ || k
            == "partition_id"@ || k == "partitionId"@ ==> number_of(
            #[trigger] json::member(t, k),
        ) is None {
        assert forall|j: int| 0 <= j < 6 implies number_of(
            json::member(t, #[trigger] ids[j]),
        ) is None by {
            assert(j == 0 || j == 1 || j == 2 || j == 3 || j == 4 || j == 5);
        }
        lemma_first_name_is_picked(t, ids, 6);
    }
    if forall|k: Seq<char>|
        k == "vbuuid"@ || k == "vbucket_uuid"@ || k == "vbucketUuid"@ || k == "partition_uuid"@
            || k == "partitionUuid"@ || k == "uuid"@ ==> number_of(
            #[trigger] json::member(t, k),
        ) is None {
        assert forall|j: int| 0 <= j < 6 implies number_of(
            json::member(t, #[trigger] uuids[j]),
        ) is None by {
            assert(j == 0 || j == 1 || j == 2 || j == 3 || j == 4 || j == 5);
        }
        lemma_first_name_is_picked(t, uuids, 6);
    }
    if forall|k: Seq<char>|
        k == "seqno"@ || k == "seq"@ || k == "sequence_number"@ || k == "sequenceNumber"@
            ==> number_of(#[trigger] json::member(t, k)) is None {
        assert forall|j: int| 0 <= j < 4 implies number_of(
            json::member(t, #[trigger] seqs[j]),
        ) is None by {
            assert(j == 0 || j == 1 || j == 2 || j == 3);
        }
        lemma_first_name_is_picked(t, seqs, 4);
    }
}

/// A token is read in either shape, and kept as it is where it has neither; a blank
/// one is none.
pub proof fn lemma_token_is_kept(header: Seq<char>)
    ensures
        token_in(header) is None <==> text::trimmed(header).len() == 0,
        token_in(header) matches Some(TokenForm::Opaque(raw)) ==> raw == text::trimmed(header),
        token_in(header) matches Some(TokenForm::Structured(p)) ==> parts_in(text::trimmed(header))
            == Some(p),
{
}

} // verus!
