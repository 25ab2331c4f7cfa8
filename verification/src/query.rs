//! What every transport asks of a SQL++ query: its parameters, and the writes
//! that it has to observe.

use vstd::prelude::*;
use vstd::string::*;
use vstd::utf8::*;

use crate::json;
use crate::json::{Json, Tree};
use crate::number;
use crate::text;
use crate::types::{
    MutationToken, QueryErrorView, QueryScanConsistency, SqlppQueryError, SqlppValue, TokenView,
    ValueView,
};

verus! {

/// The contents of a list of parameters.
pub open spec fn values(params: Seq<SqlppValue>) -> Seq<ValueView> {
    Seq::new(params.len(), |i: int| params[i]@)
}

/// The contents of a list of tokens.
pub open spec fn tokens_view(tokens: Seq<MutationToken>) -> Seq<TokenView> {
    Seq::new(tokens.len(), |i: int| tokens[i]@)
}

/// The documents that parameters spell, or which one is not JSON.
pub open spec fn arguments_of(params: Seq<ValueView>) -> Result<Seq<Tree>, QueryErrorView>
    decreases params.len(),
{
    if params.len() == 0 {
        Ok(seq![])
    } else {
        match arguments_of(params.drop_last()) {
            Err(e) => Err(e),
            Ok(front) => match params.last() {
                ValueView::Null => Ok(front.push(Tree::Null)),
                ValueView::Json(t) => match json::json_parse(encode_utf8(t)) {
                    Ok(tree) => Ok(front.push(tree)),
                    Err(e) => Err(
                        QueryErrorView::InvalidArgument(
                            "positional parameter "@ + number::decimal(params.len())
                                + " is not valid JSON: "@ + e,
                        ),
                    ),
                },
            },
        }
    }
}

/// The contents of a list of documents.
pub open spec fn trees(items: Seq<Json>) -> Seq<Tree> {
    Seq::new(items.len(), |i: int| items[i].tree())
}

proof fn lemma_arguments_prefix(params: Seq<ValueView>, k: int)
    requires
        0 <= k <= params.len(),
        arguments_of(params.take(k)) is Err,
    ensures
        arguments_of(params) == arguments_of(params.take(k)),
    decreases params.len(),
{
    if k < params.len() {
        assert(params.drop_last().take(k) =~= params.take(k));
        lemma_arguments_prefix(params.drop_last(), k);
    } else {
        assert(params.take(k) =~= params);
    }
}

/// Read positional parameters.
pub fn arguments(params: &[SqlppValue]) -> (r: Result<Vec<Json>, SqlppQueryError>)
    ensures
        match r {
            Ok(items) => arguments_of(values(params@)) == Ok::<Seq<Tree>, QueryErrorView>(
                trees(items@),
            ) && items@.len() == params@.len(),
            Err(e) => arguments_of(values(params@)) == Err::<Seq<Tree>, QueryErrorView>(e@),
        },
{
    let ghost all = values(params@);
    let mut items: Vec<Json> = Vec::new();
    let mut i: usize = 0;
    assert(trees(items@) =~= seq![]);
    assert(all.take(0).len() == 0);
    while i < params.len()
        invariant
            i <= params@.len(),
            all == values(params@),
            items@.len() == i,
            arguments_of(all.take(i as int)) == Ok::<Seq<Tree>, QueryErrorView>(trees(items@)),
        decreases params@.len() - i,
    {
        let ghost before = trees(items@);
        proof {
            assert(all.take(i + 1).drop_last() =~= all.take(i as int));
            assert(all.take(i + 1).last() == params@[i as int]@);
        }
        match &params[i] {
            SqlppValue::Null => {
                items.push(Json::Null);
                assert(trees(items@) =~= before.push(Tree::Null));
            },
            SqlppValue::Json(t) => match json::parse_text(t.as_str()) {
                Ok(j) => {
                    let ghost tree = j.tree();
                    items.push(j);
                    assert(trees(items@) =~= before.push(tree));
                },
                Err(e) => {
                    let place = number::decimal_text(i as u64 + 1);
                    let mut s = text::joined3(
                        "positional parameter ",
                        place.as_str(),
                        " is not valid JSON: ",
                    );
                    s.append(e.as_str());
                    proof {
                        lemma_arguments_prefix(all, i + 1);
                    }
                    return Err(SqlppQueryError::InvalidArgument(s));
                },
            },
        }
        i += 1;
    }
    assert(all.take(i as int) =~= all);
    Ok(items)
}

/// The position of one write, without its bucket.
pub struct Position {
    pub partition_id: u64,
    pub partition_uuid: u64,
    pub sequence_number: u64,
}

/// What a scan vector holds for a position: the sequence number as a number,
/// and the vbucket's uuid as text.
pub open spec fn scan_entry(p: Position) -> Tree {
    Tree::Array(
        seq![
            Tree::Int(p.sequence_number as int),
            Tree::Text(number::decimal(p.partition_uuid as nat)),
        ],
    )
}

/// A sparse scan vector: an entry for each vbucket, under its number as text.
/// Of two positions in one vbucket, the later one counts.
pub open spec fn scan_map(positions: Seq<Position>) -> Map<Seq<char>, Tree>
    decreases positions.len(),
{
    if positions.len() == 0 {
        Map::empty()
    } else {
        let p = positions.last();
        scan_map(positions.drop_last()).insert(
            number::decimal(p.partition_id as nat),
            scan_entry(p),
        )
    }
}

/// Every position's vbucket is in its scan vector.
pub proof fn lemma_scan_map_covers(positions: Seq<Position>, i: int)
    requires
        0 <= i < positions.len(),
    ensures
        scan_map(positions).contains_key(number::decimal(positions[i].partition_id as nat)),
    decreases positions.len(),
{
    if i < positions.len() - 1 {
        assert(positions.drop_last()[i] == positions[i]);
        lemma_scan_map_covers(positions.drop_last(), i);
    }
}

/// A scan vector that names a vbucket once says of it what the position said.
pub proof fn lemma_scan_map_exact(positions: Seq<Position>, i: int)
    requires
        0 <= i < positions.len(),
        forall|j: int|
            i < j < positions.len() ==> (#[trigger] positions[j]).partition_id
                != positions[i].partition_id,
    ensures
        scan_map(positions)[number::decimal(positions[i].partition_id as nat)] == scan_entry(
            positions[i],
        ),
    decreases positions.len(),
{
    if i < positions.len() - 1 {
        let front = positions.drop_last();
        assert(front[i] == positions[i]);
        assert forall|j: int| i < j < front.len() implies (#[trigger] front[j]).partition_id
            != front[i].partition_id by {
            assert(front[j] == positions[j]);
        }
        lemma_scan_map_exact(front, i);
        let a = positions[i].partition_id as nat;
        let b = positions.last().partition_id as nat;
        assert(positions[positions.len() - 1].partition_id != positions[i].partition_id);
        number::lemma_digits_round_trip(a, 10);
        number::lemma_digits_round_trip(b, 10);
        assert(number::decimal(a) != number::decimal(b));
    }
}

/// Add one position to a scan vector.
pub fn put_position(
    vector: &mut Vec<(String, Json)>,
    partition_id: u64,
    partition_uuid: u64,
    sequence_number: u64,
)
    ensures
        json::members(final(vector)@) == json::members(old(vector)@).insert(
            number::decimal(partition_id as nat),
            scan_entry(Position { partition_id, partition_uuid, sequence_number }),
        ),
{
    let mut entry: Vec<Json> = Vec::new();
    entry.push(Json::Unsigned(sequence_number));
    entry.push(Json::Text(number::decimal_text(partition_uuid)));
    proof {
        assert(entry@[0].tree() == Tree::Int(sequence_number as int));
        assert(entry@[1].tree() == Tree::Text(number::decimal(partition_uuid as nat)));
    }
    let value = Json::Array(entry);
    assert(value.tree()->Array_0 =~= scan_entry(
        Position { partition_id, partition_uuid, sequence_number },
    )->Array_0);
    json::put(vector, number::decimal_text(partition_id), value);
}

/// The first token that names a bucket other than the one given.
pub open spec fn foreign(tokens: Seq<TokenView>, bucket: Seq<char>) -> Option<Seq<char>>
    decreases tokens.len(),
{
    if tokens.len() == 0 {
        None
    } else if tokens[0].bucket_name.len() > 0 && tokens[0].bucket_name != bucket {
        Some(tokens[0].bucket_name)
    } else {
        foreign(tokens.drop_first(), bucket)
    }
}

/// Where no token names another bucket, each names this one or none.
pub proof fn lemma_none_foreign(tokens: Seq<TokenView>, bucket: Seq<char>, i: int)
    requires
        foreign(tokens, bucket) is None,
        0 <= i < tokens.len(),
    ensures
        tokens[i].bucket_name == bucket || tokens[i].bucket_name.len() == 0,
    decreases tokens.len(),
{
    if i > 0 {
        assert(tokens.drop_first()[i - 1] == tokens[i]);
        lemma_none_foreign(tokens.drop_first(), bucket, i - 1);
    }
}

/// What is said about a token for another bucket.
pub open spec fn foreign_text(other: Seq<char>, bucket: Seq<char>) -> Seq<char> {
    "consistent-with carries a token for bucket `"@ + other
        + "`, but this binding is bound to `"@ + bucket + "`"@
}

/// Refuse a token for another bucket: it cannot constrain the query, and
/// quietly dropping it would leave the caller believing in a guarantee they do
/// not have.
pub fn reject_foreign(tokens: &[MutationToken], bucket: &str) -> (r: Result<(), SqlppQueryError>)
    ensures
        match r {
            Ok(_) => foreign(tokens_view(tokens@), bucket@) is None,
            Err(e) => foreign(tokens_view(tokens@), bucket@) matches Some(other) && e@
                == QueryErrorView::InvalidArgument(foreign_text(other, bucket@)),
        },
{
    let ghost all = tokens_view(tokens@);
    assert(all.skip(0) =~= all);
    let mut i: usize = 0;
    while i < tokens.len()
        invariant
            i <= tokens@.len(),
            all == tokens_view(tokens@),
            foreign(all, bucket@) == foreign(all.skip(i as int), bucket@),
        decreases tokens@.len() - i,
    {
        assert(all.skip(i as int)[0] == tokens@[i as int]@);
        let name = tokens[i].bucket_name.as_str();
        if !text::same_text(name, "") && !text::same_text(name, bucket) {
            proof {
                reveal_strlit("");
                assert(name@.len() > 0) by {
                    if name@.len() == 0 {
                        assert(name@ =~= ""@);
                    }
                }
            }
            let mut s = text::joined3(
                "consistent-with carries a token for bucket `",
                name,
                "`, but this binding is bound to `",
            );
            s.append(bucket);
            s.append("`");
            return Err(SqlppQueryError::InvalidArgument(s));
        }
        proof {
            reveal_strlit("");
            assert(all.skip(i as int).drop_first() =~= all.skip(i + 1));
        }
        i += 1;
    }
    Ok(())
}

/// The positions of tokens.
pub open spec fn positions(tokens: Seq<TokenView>) -> Seq<Position> {
    Seq::new(
        tokens.len(),
        |i: int|
            Position {
                partition_id: tokens[i].partition_id,
                partition_uuid: tokens[i].partition_uuid,
                sequence_number: tokens[i].sequence_number,
            },
    )
}

/// Whether some token has no uuid, which is how a write reports that it had no
/// token.
pub open spec fn some_zeroed(positions: Seq<Position>) -> bool {
    exists|i: int| 0 <= i < positions.len() && (#[trigger] positions[i]).partition_uuid == 0
}

/// What is said about tokens that cannot constrain a query.
pub open spec fn zeroed_text() -> Seq<char> {
    "consistent-with needs a mutation token with a non-zero partition-uuid for every entry; a zeroed token means none was available, and a partial scan vector would let the query run without waiting. Use scan-consistency request-plus instead"@
}

/// The message for tokens that cannot constrain a query.
pub fn zeroed_message() -> (s: String)
    ensures
        s@ == zeroed_text(),
{
    "consistent-with needs a mutation token with a non-zero partition-uuid for every entry; a zeroed token means none was available, and a partial scan vector would let the query run without waiting. Use scan-consistency request-plus instead".to_string()
}

/// Whether some token has no uuid.
pub fn any_zeroed(tokens: &[MutationToken]) -> (b: bool)
    ensures
        b == some_zeroed(positions(tokens_view(tokens@))),
{
    let ghost all = positions(tokens_view(tokens@));
    let mut i: usize = 0;
    while i < tokens.len()
        invariant
            i <= tokens@.len(),
            all == positions(tokens_view(tokens@)),
            forall|j: int| 0 <= j < i ==> (#[trigger] all[j]).partition_uuid != 0,
        decreases tokens@.len() - i,
    {
        assert(all[i as int].partition_uuid == tokens@[i as int].partition_uuid);
        if tokens[i].partition_uuid == 0 {
            return true;
        }
        i += 1;
    }
    false
}

/// The scan vector of tokens.
pub fn vector_of(tokens: &[MutationToken]) -> (vector: Vec<(String, Json)>)
    ensures
        json::members(vector@) == scan_map(positions(tokens_view(tokens@))),
{
    let ghost all = positions(tokens_view(tokens@));
    let mut vector: Vec<(String, Json)> = Vec::new();
    let mut i: usize = 0;
    assert(all.take(0).len() == 0);
    assert(json::members(vector@) =~= Map::empty());
    while i < tokens.len()
        invariant
            i <= tokens@.len(),
            all == positions(tokens_view(tokens@)),
            json::members(vector@) == scan_map(all.take(i as int)),
        decreases tokens@.len() - i,
    {
        proof {
            assert(all.take(i + 1).drop_last() =~= all.take(i as int));
            assert(all.take(i + 1).last() == all[i as int]);
        }
        put_position(
            &mut vector,
            tokens[i].partition_id,
            tokens[i].partition_uuid,
            tokens[i].sequence_number,
        );
        i += 1;
    }
    assert(all.take(i as int) =~= all);
    vector
}

/// The query service's name for a scan consistency.
pub open spec fn consistency_text(c: QueryScanConsistency) -> Seq<char> {
    match c {
        QueryScanConsistency::NotBounded => "not_bounded"@,
        QueryScanConsistency::RequestPlus => "request_plus"@,
    }
}

/// The query service's name for a scan consistency.
pub fn consistency_name(c: QueryScanConsistency) -> (s: String)
    ensures
        s@ == consistency_text(c),
{
    match c {
        QueryScanConsistency::NotBounded => "not_bounded".to_string(),
        QueryScanConsistency::RequestPlus => "request_plus".to_string(),
    }
}

/// The keyspace that an unqualified name in a statement is taken from.
pub open spec fn context_text(bucket: Seq<char>, scope: Seq<char>) -> Seq<char> {
    "default:"@ + bucket + "."@ + scope
}

/// The keyspace that an unqualified name in a statement is taken from, so that
/// it resolves inside what the workload was granted.
pub fn query_context(bucket: &str, scope: &str) -> (s: String)
    ensures
        s@ == context_text(bucket@, scope@),
{
    let mut s = text::joined3("default:", bucket, ".");
    s.append(scope);
    s
}

/// Parameters travel in order, each as the document that it spells; a null is
/// null. They are refused exactly when one of them is not JSON.
pub proof fn lemma_arguments_are_the_parameters(params: Seq<ValueView>)
    ensures
        arguments_of(params) is Ok <==> forall|i: int|
            0 <= i < params.len() ==> (#[trigger] params[i] matches ValueView::Json(t)
                ==> json::json_parse(encode_utf8(t)) is Ok),
        arguments_of(params) matches Ok(args) ==> args.len() == params.len() && forall|i: int|
            0 <= i < params.len() ==> match #[trigger] params[i] {
                ValueView::Null => args[i] == Tree::Null,
                ValueView::Json(t) => json::json_parse(encode_utf8(t)) == Ok::<Tree, Seq<char>>(
                    args[i],
                ),
            },
        arguments_of(params) matches Err(e) ==> e is InvalidArgument,
    decreases params.len(),
{
    if params.len() > 0 {
        let front = params.drop_last();
        let n = params.len() - 1;
        lemma_arguments_are_the_parameters(front);
        assert forall|i: int| 0 <= i < n implies front[i] == params[i] by {}
        if arguments_of(front) is Ok {
            assert forall|i: int| 0 <= i < n implies (#[trigger] params[i] matches ValueView::Json(t)
                ==> json::json_parse(encode_utf8(t)) is Ok) by {
                assert(front[i] == params[i]);
            }
            if let Ok(args) = arguments_of(params) {
                let first = arguments_of(front)->Ok_0;
                assert forall|i: int| 0 <= i < params.len() implies match #[trigger] params[i] {
                    ValueView::Null => args[i] == Tree::Null,
                    ValueView::Json(t) => json::json_parse(encode_utf8(t)) == Ok::<
                        Tree,
                        Seq<char>,
                    >(args[i]),
                } by {
                    if i < n {
                        assert(front[i] == params[i]);
                        assert(args[i] == first[i]);
                    } else {
                        assert(params[i] == params.last());
                    }
                }
                assert forall|i: int| 0 <= i < params.len() implies (
                #[trigger] params[i] matches ValueView::Json(t) ==> json::json_parse(
                    encode_utf8(t),
                ) is Ok) by {}
            } else {
                assert(params[n] == params.last());
            }
        } else {
            let i = choose|i: int|
                0 <= i < front.len() && !(#[trigger] front[i] matches ValueView::Json(t)
                    ==> json::json_parse(encode_utf8(t)) is Ok);
            assert(params[i] == front[i]);
        }
    }
}

/// A scan vector holds, under the number of a vbucket as text, the sequence
/// number as a number and the uuid as text, both of a write to that vbucket that
/// was named; and nothing else.
pub proof fn lemma_scan_map_names_writes(positions: Seq<Position>, key: Seq<char>)
    requires
        scan_map(positions).contains_key(key),
    ensures
        exists|i: int|
            0 <= i < positions.len() && key == number::decimal(
                (#[trigger] positions[i]).partition_id as nat,
            ) && scan_map(positions)[key] == Tree::Array(
                seq![
                    Tree::Int(positions[i].sequence_number as int),
                    Tree::Text(number::decimal(positions[i].partition_uuid as nat)),
                ],
            ),
    decreases positions.len(),
{
    let front = positions.drop_last();
    let n = positions.len() - 1;
    if key == number::decimal(positions.last().partition_id as nat) {
        assert(positions[n] == positions.last());
    } else {
        lemma_scan_map_names_writes(front, key);
        let i = choose|i: int|
            0 <= i < front.len() && key == number::decimal(
                (#[trigger] front[i]).partition_id as nat,
            ) && scan_map(front)[key] == Tree::Array(
                seq![
                    Tree::Int(front[i].sequence_number as int),
                    Tree::Text(number::decimal(front[i].partition_uuid as nat)),
                ],
            );
        assert(positions[i] == front[i]);
    }
}

/// A token for another bucket is always found, and only such a token is.
pub proof fn lemma_foreign_is_found(tokens: Seq<TokenView>, bucket: Seq<char>)
    ensures
        foreign(tokens, bucket) is None <==> forall|i: int|
            0 <= i < tokens.len() ==> (#[trigger] tokens[i]).bucket_name.len() == 0
                || tokens[i].bucket_name == bucket,
        foreign(tokens, bucket) matches Some(other) ==> other != bucket && exists|i: int|
            0 <= i < tokens.len() && (#[trigger] tokens[i]).bucket_name == other,
    decreases tokens.len(),
{
    if tokens.len() > 0 {
        let rest = tokens.drop_first();
        lemma_foreign_is_found(rest, bucket);
        if tokens[0].bucket_name.len() > 0 && tokens[0].bucket_name != bucket {
        } else if let Some(other) = foreign(rest, bucket) {
            let i = choose|i: int| 0 <= i < rest.len() && (#[trigger] rest[i]).bucket_name == other;
            assert(tokens[i + 1] == rest[i]);
            let k = choose|k: int|
                0 <= k < rest.len() && !((#[trigger] rest[k]).bucket_name.len() == 0
                    || rest[k].bucket_name == bucket);
            assert(tokens[k + 1] == rest[k]);
        } else {
            assert forall|i: int| 0 <= i < tokens.len() implies (
            #[trigger] tokens[i]).bucket_name.len() == 0 || tokens[i].bucket_name == bucket by {
                if i > 0 {
                    assert(rest[i - 1] == tokens[i]);
                }
            }
        }
    }
}

/// A token's position is its own vbucket, uuid and sequence number.
pub proof fn lemma_positions_are_the_tokens(tokens: Seq<TokenView>, i: int)
    requires
        0 <= i < tokens.len(),
    ensures
        positions(tokens).len() == tokens.len(),
        positions(tokens)[i].partition_id == tokens[i].partition_id,
        positions(tokens)[i].partition_uuid == tokens[i].partition_uuid,
        positions(tokens)[i].sequence_number == tokens[i].sequence_number,
{
}

} // verus!
