//! A run of the scenario, as a machine that asks for one operation at a time
//! and takes in what became of it.

use vstd::prelude::*;
use vstd::string::*;
use vstd::utf8::*;

use crate::number;
use crate::query;
use crate::scenario::options;
use crate::scenario::options::{GetOptionsView, QueryOptionsView};
use crate::scenario::report;
use crate::scenario::report::Report;
use crate::text;
use crate::types;
use crate::types::{
    DocumentError, DocumentGetAndTouchOptions, DocumentGetOptions, DocumentGetResult,
    DocumentInsertOptions, DocumentRemoveOptions, DocumentReplaceOptions, DocumentTouchOptions,
    DocumentUnlockOptions, DocumentUpsertOptions, ErrorView, GetView, MutationMetadata,
    MutationState, MutationToken, MutationView, QueryErrorView, SqlppQueryError, SqlppQueryOptions,
    SqlppValue, TokenView, ValueView,
};
use crate::wire;

verus! {

/// Nanoseconds in a second.
pub const SECOND_NS: u64 = 1_000_000_000;

/// Couchbase's common flags for raw binary.
pub const RAW_BINARY_FLAGS: u32 = 0x0300_0000;

/// Where a run stands: the operation whose outcome it waits for.
#[derive(Debug, Clone, Copy, PartialEq, Eq, Structural)]
pub enum Stage {
    Clear,
    GetMissing,
    Insert,
    Get,
    InsertDuplicate,
    Upsert,
    ReplaceStale,
    ReplaceCurrent,
    ReplaceAbsent,
    Touch,
    TouchZero,
    GetProjected,
    GetAndTouch,
    UpsertWithExpiry,
    GetAndLock,
    /// The transport has no locks, so an unlock has to be refused too.
    UnlockUnsupported,
    /// A lock is released only by its own CAS: another must be refused.
    UnlockWrong,
    UnlockRight,
    QueryParameterized,
    QueryNull,
    QuerySyntax,
    QueryBadParameter,
    Remove,
    GetAfterRemove,
    RemoveAbsent,
    ClearPreserve,
    SeedPreserve,
    RewritePreserve,
    ReadPreserve,
    PersistTo,
    QueryZeroed,
    PerCallTimeout,
    QueryWrongBucket,
    UpsertTokened,
    QueryTokened,
    ClearExpiry,
    SeedExpiry,
    ReadExpiry,
    UpsertBinary,
    ReadBinary,
    Done,
}

/// An operation that a run asks for.
#[derive(Debug, PartialEq, Eq)]
pub enum Action {
    Remove(String, Option<DocumentRemoveOptions>),
    Get(String, Option<DocumentGetOptions>),
    Insert(String, Vec<u8>, DocumentInsertOptions),
    Upsert(String, Vec<u8>, DocumentUpsertOptions),
    Replace(String, Vec<u8>, DocumentReplaceOptions),
    Touch(String, DocumentTouchOptions),
    GetAndTouch(String, DocumentGetAndTouchOptions),
    GetAndLock(String),
    Unlock(String, Option<DocumentUnlockOptions>),
    Query(String, Vec<SqlppValue>, Option<SqlppQueryOptions>),
    Nothing,
}

/// The contents of an [`Action`].
pub enum ActionView {
    Remove(Seq<char>, Option<DocumentRemoveOptions>),
    Get(Seq<char>, Option<GetOptionsView>),
    Insert(Seq<char>, Seq<u8>, DocumentInsertOptions),
    Upsert(Seq<char>, Seq<u8>, DocumentUpsertOptions),
    Replace(Seq<char>, Seq<u8>, DocumentReplaceOptions),
    Touch(Seq<char>, DocumentTouchOptions),
    GetAndTouch(Seq<char>, DocumentGetAndTouchOptions),
    GetAndLock(Seq<char>),
    Unlock(Seq<char>, Option<DocumentUnlockOptions>),
    Query(Seq<char>, Seq<ValueView>, Option<QueryOptionsView>),
    Nothing,
}

impl View for Action {
    type V = ActionView;

    open spec fn view(&self) -> ActionView {
        match self {
            Action::Remove(id, o) => ActionView::Remove(id@, *o),
            Action::Get(id, o) => ActionView::Get(
                id@,
                match o {
                    Some(o) => Some(o@),
                    None => None,
                },
            ),
            Action::Insert(id, d, o) => ActionView::Insert(id@, d@, *o),
            Action::Upsert(id, d, o) => ActionView::Upsert(id@, d@, *o),
            Action::Replace(id, d, o) => ActionView::Replace(id@, d@, *o),
            Action::Touch(id, o) => ActionView::Touch(id@, *o),
            Action::GetAndTouch(id, o) => ActionView::GetAndTouch(id@, *o),
            Action::GetAndLock(id) => ActionView::GetAndLock(id@),
            Action::Unlock(id, o) => ActionView::Unlock(id@, *o),
            Action::Query(q, p, o) => ActionView::Query(
                q@,
                query::values(p@),
                match o {
                    Some(o) => Some(o@),
                    None => None,
                },
            ),
            Action::Nothing => ActionView::Nothing,
        }
    }
}

/// A run of the scenario.
pub struct Run {
    pub stage: Stage,
    /// The CAS that the insert reported, or zero.
    pub cas1: u64,
    /// The CAS that the upsert reported, or zero.
    pub cas2: u64,
    /// The CAS of the lock.
    pub lock_cas: u64,
    /// The position of the write that a query has to observe.
    pub token: MutationToken,
    pub report: Report,
}

/// The contents of a [`Run`].
pub struct RunView {
    pub stage: Stage,
    pub cas1: u64,
    pub cas2: u64,
    pub lock_cas: u64,
    pub token: TokenView,
    pub lines: Seq<Seq<char>>,
}

impl View for Run {
    type V = RunView;

    open spec fn view(&self) -> RunView {
        RunView {
            stage: self.stage,
            cas1: self.cas1,
            cas2: self.cas2,
            lock_cas: self.lock_cas,
            token: self.token@,
            lines: self.report@,
        }
    }
}

/// A run that has not begun.
pub open spec fn fresh() -> RunView {
    RunView {
        stage: Stage::Clear,
        cas1: 0,
        cas2: 0,
        lock_cas: 0,
        token: TokenView {
            bucket_name: ""@,
            partition_uuid: 0,
            partition_id: 0,
            sequence_number: 0,
        },
        lines: seq![],
    }
}

/// Bytes that are not UTF-8.
pub open spec fn blob() -> Seq<u8> {
    seq![0x00u8, 0xFFu8, 0xFEu8, 0x01u8, 0x80u8, 0x7Fu8]
}

/// A document that holds text.
pub open spec fn document(s: Seq<char>) -> Seq<u8> {
    encode_utf8(s)
}

/// A read-only query that has to observe one write.
pub open spec fn query_after(token: TokenView) -> QueryOptionsView {
    QueryOptionsView { consistent_with: Some(seq![token]), ..options::plain_query(true) }
}

/// The operation that a run waits for.
pub open spec fn asked(v: RunView) -> ActionView {
    let k = "scenario:doc"@;
    match v.stage {
        Stage::Clear => ActionView::Remove(k, None),
        Stage::GetMissing => ActionView::Get(k, None),
        Stage::Insert => ActionView::Insert(
            k,
            document("{\"name\":\"Ada\",\"n\":1}"@),
            options::plain_insert(0),
        ),
        Stage::Get => ActionView::Get(k, None),
        Stage::InsertDuplicate => ActionView::Insert(
            k,
            document("{}"@),
            options::plain_insert(0),
        ),
        Stage::Upsert => ActionView::Upsert(
            k,
            document("{\"name\":\"Ada Lovelace\",\"n\":2}"@),
            options::plain_upsert(0),
        ),
        Stage::ReplaceStale => ActionView::Replace(
            k,
            document("{\"stale\":true}"@),
            options::plain_replace(v.cas1),
        ),
        Stage::ReplaceCurrent => ActionView::Replace(
            k,
            document("{\"name\":\"Ada\",\"n\":3}"@),
            options::plain_replace(v.cas2),
        ),
        Stage::ReplaceAbsent => ActionView::Replace(
            "scenario:absent"@,
            document("{}"@),
            options::plain_replace(0),
        ),
        Stage::Touch => ActionView::Touch(
            k,
            DocumentTouchOptions { expires_in: 3_600_000_000_000, timeout_ns: None },
        ),
        Stage::TouchZero => ActionView::Touch(
            k,
            DocumentTouchOptions { expires_in: 0, timeout_ns: None },
        ),
        Stage::GetProjected => ActionView::Get(
            k,
            Some(options::plain_get(Some(seq!["name"@]))),
        ),
        Stage::GetAndTouch => ActionView::GetAndTouch(
            k,
            DocumentGetAndTouchOptions { expires_in: 1_800_000_000_000, timeout_ns: None },
        ),
        Stage::UpsertWithExpiry => ActionView::Upsert(
            "scenario:ttl"@,
            document("{\"temp\":true}"@),
            options::plain_upsert(600_000_000_000),
        ),
        Stage::GetAndLock => ActionView::GetAndLock(k),
        Stage::UnlockUnsupported => ActionView::Unlock(k, None),
        Stage::UnlockWrong => ActionView::Unlock(
            k,
            Some(
                DocumentUnlockOptions {
                    cas: if v.lock_cas == u64::MAX {
                        0
                    } else {
                        (v.lock_cas + 1) as u64
                    },
                    timeout_ns: None,
                },
            ),
        ),
        Stage::UnlockRight => ActionView::Unlock(
            k,
            Some(DocumentUnlockOptions { cas: v.lock_cas, timeout_ns: None }),
        ),
        Stage::QueryParameterized => ActionView::Query(
            "SELECT RAW d.name FROM _default AS d USE KEYS $1"@,
            seq![ValueView::Json("\"scenario:doc\""@)],
            Some(options::plain_query(true)),
        ),
        Stage::QueryNull => ActionView::Query(
            "SELECT RAW $1 IS NULL"@,
            seq![ValueView::Null],
            Some(options::plain_query(true)),
        ),
        Stage::QuerySyntax => ActionView::Query("SLECT bogus"@, seq![], None),
        Stage::QueryBadParameter => ActionView::Query(
            "SELECT RAW $1"@,
            seq![ValueView::Json("not json"@)],
            None,
        ),
        Stage::Remove => ActionView::Remove(k, Some(options::plain_remove(0))),
        Stage::GetAfterRemove => ActionView::Get(k, None),
        Stage::RemoveAbsent => ActionView::Remove("scenario:absent"@, None),
        Stage::ClearPreserve => ActionView::Remove("scenario:preserve"@, None),
        Stage::SeedPreserve => ActionView::Upsert(
            "scenario:preserve"@,
            document("{\"a\":1}"@),
            options::plain_upsert(3_600_000_000_000),
        ),
        Stage::RewritePreserve => ActionView::Upsert(
            "scenario:preserve"@,
            document("{\"a\":2}"@),
            DocumentUpsertOptions { preserve_expiry: true, ..options::plain_upsert(0) },
        ),
        Stage::ReadPreserve => ActionView::Get(
            "scenario:preserve"@,
            Some(GetOptionsView { with_expiry: true, ..options::plain_get(None) }),
        ),
        Stage::PersistTo => ActionView::Upsert(
            "scenario:persist"@,
            document("{\"a\":1}"@),
            DocumentUpsertOptions { persist_to: 2, ..options::plain_upsert(0) },
        ),
        Stage::QueryZeroed => ActionView::Query(
            "SELECT RAW 1"@,
            seq![],
            Some(
                query_after(
                    TokenView {
                        bucket_name: ""@,
                        partition_uuid: 0,
                        partition_id: 0,
                        sequence_number: 0,
                    },
                ),
            ),
        ),
        Stage::PerCallTimeout => ActionView::Get(
            "scenario:ttl"@,
            Some(GetOptionsView { timeout_ns: Some(20_000_000_000), ..options::plain_get(None) }),
        ),
        Stage::QueryWrongBucket => ActionView::Query(
            "SELECT RAW 1"@,
            seq![],
            Some(
                query_after(
                    TokenView {
                        bucket_name: "someone-elses-bucket"@,
                        partition_uuid: 12345,
                        partition_id: 1,
                        sequence_number: 9,
                    },
                ),
            ),
        ),
        Stage::UpsertTokened => ActionView::Upsert(
            "scenario:tokened"@,
            document("{\"marker\":\"at-plus\"}"@),
            options::plain_upsert(0),
        ),
        Stage::QueryTokened => ActionView::Query(
            "SELECT RAW d.marker FROM _default AS d USE KEYS $1"@,
            seq![ValueView::Json("\"scenario:tokened\""@)],
            Some(query_after(v.token)),
        ),
        Stage::ClearExpiry => ActionView::Remove("scenario:expiry"@, None),
        Stage::SeedExpiry => ActionView::Upsert(
            "scenario:expiry"@,
            document("{\"e\":1}"@),
            options::plain_upsert(3_600_000_000_000),
        ),
        Stage::ReadExpiry => ActionView::Get(
            "scenario:expiry"@,
            Some(GetOptionsView { with_expiry: true, ..options::plain_get(None) }),
        ),
        Stage::UpsertBinary => ActionView::Upsert(
            "scenario:binary"@,
            blob(),
            DocumentUpsertOptions { flags: Some(RAW_BINARY_FLAGS), ..options::plain_upsert(0) },
        ),
        Stage::ReadBinary => ActionView::Get("scenario:binary"@, None),
        Stage::Done => ActionView::Nothing,
    }
}

/// A run that has said one thing more and gone on.
pub open spec fn said(v: RunView, step: Seq<char>, outcome: Seq<char>, next: Stage) -> RunView {
    RunView { stage: next, lines: v.lines.push(report::line(step, outcome)), ..v }
}

/// The name of an error, where there is one.
pub open spec fn failed<T>(o: Result<T, ErrorView>) -> Result<(), Seq<char>> {
    match o {
        Ok(_) => Ok(()),
        Err(e) => Err(report::described(e)),
    }
}

/// The CAS of a write, in words, or the name of its error.
pub open spec fn cas_shown(o: Result<MutationView, ErrorView>) -> Result<Seq<char>, Seq<char>> {
    match o {
        Ok(m) => Ok("cas="@ + number::decimal(m.cas as nat)),
        Err(e) => Err(report::described(e)),
    }
}

/// The CAS of a write, or zero.
pub open spec fn cas_or_zero(o: Result<MutationView, ErrorView>) -> u64 {
    match o {
        Ok(m) => m.cas,
        Err(_) => 0,
    }
}

/// The CAS and the text of a document, or the name of the error.
pub open spec fn document_shown(o: Result<GetView, ErrorView>) -> Result<Seq<char>, Seq<char>> {
    match o {
        Ok(g) => Ok(
            "cas="@ + number::decimal(g.cas as nat) + " doc="@ + text::lossy_text(g.document),
        ),
        Err(e) => Err(report::described(e)),
    }
}

/// A query's rows, or the name of the error.
pub open spec fn rows_shown(o: Result<ValueView, QueryErrorView>) -> Result<Seq<char>, Seq<char>> {
    match o {
        Ok(ValueView::Json(rows)) => Ok("rows="@ + rows),
        Ok(ValueView::Null) => Ok("null"@),
        Err(e) => Err(report::query_described(e)),
    }
}

/// The name of a query error, where there is one.
pub open spec fn query_failed(o: Result<ValueView, QueryErrorView>) -> Result<(), Seq<char>> {
    match o {
        Ok(_) => Ok(()),
        Err(e) => Err(report::query_described(e)),
    }
}

/// What a read that asks for the expiry is reported as.
pub open spec fn expiry_shown(o: Result<GetView, ErrorView>) -> Seq<char> {
    match o {
        Ok(g) => match g.expires_at {
            Some(t) => if t.year >= 2026 {
                "OK expires-at="@ + number::zero_padded(number::decimal(t.year as nat), 4) + "-"@
                    + number::zero_padded(number::decimal(t.month as nat), 2) + "-"@
                    + number::zero_padded(number::decimal(t.day as nat), 2)
            } else {
                "UNEXPECTED-OK expires-at is in the past: year "@ + report::signed_decimal(
                    t.year as int,
                )
            },
            None => "UNEXPECTED-OK with-expiry was set but no expires-at came back"@,
        },
        Err(e) => "UNEXPECTED-ERR "@ + report::described(e),
    }
}

/// A run after a write, or one after which nothing changed where it does not
/// wait for a write.
pub open spec fn after_write(v: RunView, o: Result<MutationView, ErrorView>) -> RunView {
    match v.stage {
        Stage::Clear => RunView { stage: Stage::GetMissing, ..v },
        Stage::Insert => RunView {
            cas1: cas_or_zero(o),
            ..said(
                v,
                "02 insert"@,
                report::success(
                    match o {
                        Ok(m) => Ok(
                            "cas="@ + number::decimal(m.cas as nat) + " bucket="@ + m.bucket,
                        ),
                        Err(e) => Err(report::described(e)),
                    },
                ),
                Stage::Get,
            )
        },
        Stage::InsertDuplicate => said(
            v,
            "04 insert-duplicate"@,
            report::failure("already-exists"@, failed(o)),
            Stage::Upsert,
        ),
        Stage::Upsert => {
            let cas2 = cas_or_zero(o);
            let first = said(
                v,
                "05 upsert"@,
                report::success(cas_shown(o)),
                Stage::ReplaceStale,
            );
            RunView {
                cas2,
                ..said(
                    first,
                    "06 cas-changed"@,
                    "OK cas1="@ + number::decimal(v.cas1 as nat) + " cas2="@ + number::decimal(
                        cas2 as nat,
                    ) + " differ="@ + report::bool_text(v.cas1 != cas2),
                    Stage::ReplaceStale,
                )
            }
        },
        Stage::ReplaceStale => said(
            v,
            "07 replace-stale-cas"@,
            report::failure("cas-mismatch"@, failed(o)),
            Stage::ReplaceCurrent,
        ),
        Stage::ReplaceCurrent => said(
            v,
            "08 replace-current-cas"@,
            report::success(cas_shown(o)),
            Stage::ReplaceAbsent,
        ),
        Stage::ReplaceAbsent => said(
            v,
            "09 replace-absent"@,
            report::failure("not-found"@, failed(o)),
            Stage::Touch,
        ),
        Stage::Touch => said(v, "10 touch"@, report::success(cas_shown(o)), Stage::TouchZero),
        Stage::TouchZero => said(
            v,
            "11 touch-zero"@,
            report::failure("invalid-argument"@, failed(o)),
            Stage::GetProjected,
        ),
        Stage::UpsertWithExpiry => said(
            v,
            "14 upsert-with-expiry"@,
            report::success(cas_shown(o)),
            Stage::GetAndLock,
        ),
        Stage::Remove => said(
            v,
            "21 remove"@,
            report::success(cas_shown(o)),
            Stage::GetAfterRemove,
        ),
        Stage::RemoveAbsent => said(
            v,
            "23 remove-absent"@,
            report::failure("not-found"@, failed(o)),
            Stage::ClearPreserve,
        ),
        Stage::ClearPreserve => RunView { stage: Stage::SeedPreserve, ..v },
        Stage::SeedPreserve => match o {
            Ok(_) => RunView { stage: Stage::RewritePreserve, ..v },
            Err(e) => said(
                v,
                "24 preserve-expiry"@,
                "UNEXPECTED-ERR seeding a document with a TTL failed: "@ + report::described(e),
                Stage::PersistTo,
            ),
        },
        Stage::RewritePreserve => match o {
            Ok(_) => RunView { stage: Stage::ReadPreserve, ..v },
            Err(ErrorView::Unsupported(_)) => said(
                v,
                "24 preserve-expiry"@,
                "OK unsupported on this transport"@,
                Stage::PersistTo,
            ),
            Err(e) => said(
                v,
                "24 preserve-expiry"@,
                "UNEXPECTED-ERR "@ + report::described(e),
                Stage::PersistTo,
            ),
        },
        Stage::PersistTo => said(
            v,
            "25 persist-to-rejected"@,
            report::failure("unsupported"@, failed(o)),
            Stage::QueryZeroed,
        ),
        Stage::UpsertTokened => match o {
            Ok(m) => RunView {
                token: TokenView {
                    bucket_name: m.bucket,
                    partition_uuid: m.partition_uuid,
                    partition_id: m.partition_id,
                    sequence_number: m.seq,
                },
                ..said(
                    v,
                    "29 mutation-token-parsed"@,
                    "OK vbid="@ + number::decimal(m.partition_id as nat) + " vbuuid="@
                        + number::decimal(m.partition_uuid as nat) + " seq="@ + number::decimal(
                        m.seq as nat,
                    ) + " raw="@ + report::option_debug(m.raw_token),
                    Stage::QueryTokened,
                )
            },
            Err(e) => said(
                v,
                "29 mutation-token-parsed"@,
                "UNEXPECTED-ERR "@ + report::described(e),
                Stage::ClearExpiry,
            ),
        },
        Stage::ClearExpiry => RunView { stage: Stage::SeedExpiry, ..v },
        Stage::SeedExpiry => match o {
            Ok(_) => RunView { stage: Stage::ReadExpiry, ..v },
            Err(e) => said(
                v,
                "31 get-with-expiry"@,
                "UNEXPECTED-ERR writing a document with a TTL: "@ + report::described(e),
                Stage::UpsertBinary,
            ),
        },
        Stage::UpsertBinary => said(
            v,
            "32 upsert-binary-document"@,
            report::success(cas_shown(o)),
            Stage::ReadBinary,
        ),
        _ => v,
    }
}

/// A run after a read, or one after which nothing changed where it does not
/// wait for a read.
pub open spec fn after_read(v: RunView, o: Result<GetView, ErrorView>) -> RunView {
    match v.stage {
        Stage::GetMissing => said(
            v,
            "01 get-missing"@,
            report::failure("not-found"@, failed(o)),
            Stage::Insert,
        ),
        Stage::Get => said(
            v,
            "03 get"@,
            report::success(document_shown(o)),
            Stage::InsertDuplicate,
        ),
        Stage::GetProjected => said(
            v,
            "12 get-projected"@,
            report::success(
                match o {
                    Ok(g) => Ok(text::lossy_text(g.document)),
                    Err(e) => Err(report::described(e)),
                },
            ),
            Stage::GetAndTouch,
        ),
        Stage::GetAndTouch => said(
            v,
            "13 get-and-touch"@,
            report::success(document_shown(o)),
            Stage::UpsertWithExpiry,
        ),
        Stage::GetAndLock => match o {
            Err(ErrorView::Unsupported(_)) => said(
                v,
                "15 get-and-lock"@,
                "OK unsupported on this transport"@,
                Stage::UnlockUnsupported,
            ),
            Ok(g) => RunView {
                lock_cas: g.cas,
                ..said(
                    v,
                    "15 get-and-lock"@,
                    "OK locked cas="@ + number::decimal(g.cas as nat),
                    Stage::UnlockWrong,
                )
            },
            Err(e) => said(
                v,
                "15 get-and-lock"@,
                "UNEXPECTED-ERR "@ + report::described(e),
                Stage::QueryParameterized,
            ),
        },
        Stage::GetAfterRemove => said(
            v,
            "22 get-after-remove"@,
            report::failure("not-found"@, failed(o)),
            Stage::RemoveAbsent,
        ),
        Stage::ReadPreserve => said(
            v,
            "24 preserve-expiry"@,
            match o {
                Ok(g) => if g.expires_at is Some {
                    "OK honoured, TTL survived the rewrite"@
                } else {
                    "UNEXPECTED-OK preserve-expiry was accepted but the TTL is gone"@
                },
                Err(e) => "UNEXPECTED-ERR reading back the TTL: "@ + report::described(e),
            },
            Stage::PersistTo,
        ),
        Stage::PerCallTimeout => said(
            v,
            "27 per-call-timeout-honoured"@,
            report::success(
                match o {
                    Ok(_) => Ok("completed within the per-call budget"@),
                    Err(e) => Err(report::described(e)),
                },
            ),
            Stage::QueryWrongBucket,
        ),
        Stage::ReadExpiry => said(
            v,
            "31 get-with-expiry"@,
            expiry_shown(o),
            Stage::UpsertBinary,
        ),
        Stage::ReadBinary => said(
            v,
            "33 binary-round-trips-byte-for-byte"@,
            report::success(
                match o {
                    Ok(g) => Ok(
                        "bytes="@ + report::byte_list(g.document) + " identical="@
                            + report::bool_text(g.document == blob()) + " flags=0x"@
                            + number::hex_padded(g.flags as nat, 8),
                    ),
                    Err(e) => Err(report::described(e)),
                },
            ),
            Stage::Done,
        ),
        _ => v,
    }
}

/// A run after an unlock, or one after which nothing changed where it does not
/// wait for an unlock.
pub open spec fn after_unlock(v: RunView, o: Result<(), ErrorView>) -> RunView {
    match v.stage {
        Stage::UnlockUnsupported => said(
            v,
            "16 unlock"@,
            report::failure("unsupported"@, failed(o)),
            Stage::QueryParameterized,
        ),
        Stage::UnlockWrong => match o {
            Ok(_) => said(
                v,
                "16 unlock"@,
                "UNEXPECTED-OK unlock accepted a CAS that was not the lock's"@,
                Stage::QueryParameterized,
            ),
            Err(_) => RunView { stage: Stage::UnlockRight, ..v },
        },
        Stage::UnlockRight => said(
            v,
            "16 unlock"@,
            match o {
                Ok(_) => "OK lock held, refused a wrong cas, then released"@,
                Err(e) => "UNEXPECTED-ERR unlock rejected the lock's own cas: "@
                    + report::described(e),
            },
            Stage::QueryParameterized,
        ),
        _ => v,
    }
}

/// A run after a query, or one after which nothing changed where it does not
/// wait for a query.
pub open spec fn after_query(v: RunView, o: Result<ValueView, QueryErrorView>) -> RunView {
    match v.stage {
        Stage::QueryParameterized => said(
            v,
            "17 sqlpp-parameterized"@,
            report::success(rows_shown(o)),
            Stage::QueryNull,
        ),
        Stage::QueryNull => said(
            v,
            "18 sqlpp-null-param"@,
            report::success(rows_shown(o)),
            Stage::QuerySyntax,
        ),
        Stage::QuerySyntax => said(
            v,
            "19 sqlpp-syntax-error"@,
            report::failure("invalid-argument"@, query_failed(o)),
            Stage::QueryBadParameter,
        ),
        Stage::QueryBadParameter => said(
            v,
            "20 sqlpp-bad-param"@,
            report::failure("invalid-argument"@, query_failed(o)),
            Stage::Remove,
        ),
        Stage::QueryZeroed => said(
            v,
            "26 consistent-with-zeroed-rejected"@,
            report::failure("invalid-argument"@, query_failed(o)),
            Stage::PerCallTimeout,
        ),
        Stage::QueryWrongBucket => said(
            v,
            "28 consistent-with-wrong-bucket-rejected"@,
            report::failure("invalid-argument"@, query_failed(o)),
            Stage::UpsertTokened,
        ),
        Stage::QueryTokened => said(
            v,
            "30 query-consistent-with-real-token"@,
            report::success(rows_shown(o)),
            Stage::ClearExpiry,
        ),
        _ => v,
    }
}

fn bytes_of(s: &str) -> (d: Vec<u8>)
    ensures
        d@ == document(s@),
{
    wire::copy_bytes(s.as_bytes())
}

fn blob_bytes() -> (b: Vec<u8>)
    ensures
        b@ == blob(),
{
    let mut b: Vec<u8> = Vec::new();
    b.push(0x00);
    b.push(0xFF);
    b.push(0xFE);
    b.push(0x01);
    b.push(0x80);
    b.push(0x7F);
    assert(b@ =~= blob());
    b
}

fn after_token(token: MutationToken) -> (o: SqlppQueryOptions)
    ensures
        o@ == query_after(token@),
{
    let mut tokens: Vec<MutationToken> = Vec::new();
    tokens.push(token);
    let mut o = options::query_opts(true);
    o.consistent_with = Some(MutationState { tokens });
    assert(query::tokens_view(tokens@) =~= seq![token@]);
    o
}

fn name_of<T>(o: Result<T, DocumentError>) -> (r: Result<(), String>)
    ensures
        match (r, o) {
            (Ok(_), Ok(_)) => true,
            (Err(n), Err(e)) => n@ == report::described(e@),
            _ => false,
        },
{
    match o {
        Ok(_) => Ok(()),
        Err(e) => Err(report::describe(&e)),
    }
}

fn show_cas(o: Result<MutationMetadata, DocumentError>) -> (r: Result<String, String>)
    ensures
        report::words(r) == cas_shown(types::write_outcome(o)),
{
    match o {
        Ok(m) => {
            let cas = number::decimal_text(m.cas);
            Ok(text::joined("cas=", cas.as_str()))
        },
        Err(e) => Err(report::describe(&e)),
    }
}

fn show_document(o: Result<DocumentGetResult, DocumentError>) -> (r: Result<String, String>)
    ensures
        report::words(r) == document_shown(types::read_outcome(o)),
{
    match o {
        Ok(g) => {
            let cas = number::decimal_text(g.cas);
            let doc = report::doc_text(g.document.as_slice());
            let mut s = text::joined3("cas=", cas.as_str(), " doc=");
            s.append(doc.as_str());
            Ok(s)
        },
        Err(e) => Err(report::describe(&e)),
    }
}

fn show_rows(o: Result<SqlppValue, SqlppQueryError>) -> (r: Result<String, String>)
    ensures
        report::words(r) == rows_shown(types::query_outcome(o)),
{
    match o {
        Ok(SqlppValue::Json(rows)) => Ok(text::joined("rows=", rows.as_str())),
        Ok(SqlppValue::Null) => Ok("null".to_string()),
        Err(e) => Err(report::describe_query(&e)),
    }
}

fn query_name_of(o: Result<SqlppValue, SqlppQueryError>) -> (r: Result<(), String>)
    ensures
        match (r, o) {
            (Ok(_), Ok(_)) => true,
            (Err(n), Err(e)) => n@ == report::query_described(e@),
            _ => false,
        },
{
    match o {
        Ok(_) => Ok(()),
        Err(e) => Err(report::describe_query(&e)),
    }
}

fn one_value(v: SqlppValue) -> (p: Vec<SqlppValue>)
    ensures
        query::values(p@) == seq![v@],
{
    let mut p: Vec<SqlppValue> = Vec::new();
    p.push(v);
    assert(query::values(p@) =~= seq![v@]);
    p
}

fn no_values() -> (p: Vec<SqlppValue>)
    ensures
        query::values(p@) == Seq::<ValueView>::empty(),
{
    let p: Vec<SqlppValue> = Vec::new();
    assert(query::values(p@) =~= Seq::<ValueView>::empty());
    p
}

fn show_expiry(o: Result<DocumentGetResult, DocumentError>) -> (s: String)
    ensures
        s@ == expiry_shown(types::read_outcome(o)),
{
    match o {
        Ok(g) => match g.expires_at {
            Some(t) => {
                if t.year >= 2026 {
                    let year = number::digits_of(t.year as u64, 10);
                    let year = number::pad_zeros(year.as_slice(), 4);
                    let month = number::digits_of(t.month as u64, 10);
                    let month = number::pad_zeros(month.as_slice(), 2);
                    let day = number::digits_of(t.day as u64, 10);
                    let day = number::pad_zeros(day.as_slice(), 2);
                    let mut s = text::joined3("OK expires-at=", year.as_str(), "-");
                    s.append(month.as_str());
                    s.append("-");
                    s.append(day.as_str());
                    s
                } else {
                    let year = report::show_signed(t.year);
                    text::joined(
                        "UNEXPECTED-OK expires-at is in the past: year ",
                        year.as_str(),
                    )
                }
            },
            None =>
                "UNEXPECTED-OK with-expiry was set but no expires-at came back".to_string(),
        },
        Err(e) => {
            let name = report::describe(&e);
            text::joined("UNEXPECTED-ERR ", name.as_str())
        },
    }
}

impl Run {
    /// A run that has not begun.
    pub fn new() -> (r: Run)
        ensures
            r@ == fresh(),
    {
        Run {
            stage: Stage::Clear,
            cas1: 0,
            cas2: 0,
            lock_cas: 0,
            token: MutationToken {
                bucket_name: "".to_string(),
                partition_uuid: 0,
                partition_id: 0,
                sequence_number: 0,
            },
            report: Report::new(),
        }
    }

    /// The operation whose outcome the run waits for.
    pub fn ask(&self) -> (a: Action)
        ensures
            a@ == asked(self@),
    {
        match self.stage {
            Stage::Clear => Action::Remove("scenario:doc".to_string(), None),
            Stage::GetMissing | Stage::Get | Stage::GetAfterRemove => Action::Get(
                "scenario:doc".to_string(),
                None,
            ),
            Stage::Insert => Action::Insert(
                "scenario:doc".to_string(),
                bytes_of("{\"name\":\"Ada\",\"n\":1}"),
                options::insert_opts(0),
            ),
            Stage::InsertDuplicate => Action::Insert(
                "scenario:doc".to_string(),
                bytes_of("{}"),
                options::insert_opts(0),
            ),
            Stage::Upsert => Action::Upsert(
                "scenario:doc".to_string(),
                bytes_of("{\"name\":\"Ada Lovelace\",\"n\":2}"),
                options::upsert_opts(0),
            ),
            Stage::ReplaceStale => Action::Replace(
                "scenario:doc".to_string(),
                bytes_of("{\"stale\":true}"),
                options::replace_opts(self.cas1),
            ),
            Stage::ReplaceCurrent => Action::Replace(
                "scenario:doc".to_string(),
                bytes_of("{\"name\":\"Ada\",\"n\":3}"),
                options::replace_opts(self.cas2),
            ),
            Stage::ReplaceAbsent => Action::Replace(
                "scenario:absent".to_string(),
                bytes_of("{}"),
                options::replace_opts(0),
            ),
            Stage::Touch => Action::Touch(
                "scenario:doc".to_string(),
                DocumentTouchOptions { expires_in: 3600 * SECOND_NS, timeout_ns: None },
            ),
            Stage::TouchZero => Action::Touch(
                "scenario:doc".to_string(),
                DocumentTouchOptions { expires_in: 0, timeout_ns: None },
            ),
            Stage::GetProjected => {
                let mut paths: Vec<String> = Vec::new();
                paths.push("name".to_string());
                assert(text::texts(paths@) =~= seq!["name"@]);
                Action::Get("scenario:doc".to_string(), Some(options::get_opts(Some(paths))))
            },
            Stage::GetAndTouch => Action::GetAndTouch(
                "scenario:doc".to_string(),
                DocumentGetAndTouchOptions { expires_in: 1800 * SECOND_NS, timeout_ns: None },
            ),
            Stage::UpsertWithExpiry => Action::Upsert(
                "scenario:ttl".to_string(),
                bytes_of("{\"temp\":true}"),
                options::upsert_opts(600 * SECOND_NS),
            ),
            Stage::GetAndLock => Action::GetAndLock("scenario:doc".to_string()),
            Stage::UnlockUnsupported => Action::Unlock("scenario:doc".to_string(), None),
            Stage::UnlockWrong => Action::Unlock(
                "scenario:doc".to_string(),
                Some(
                    DocumentUnlockOptions { cas: self.lock_cas.wrapping_add(1), timeout_ns: None },
                ),
            ),
            Stage::UnlockRight => Action::Unlock(
                "scenario:doc".to_string(),
                Some(DocumentUnlockOptions { cas: self.lock_cas, timeout_ns: None }),
            ),
            Stage::QueryParameterized => Action::Query(
                "SELECT RAW d.name FROM _default AS d USE KEYS $1".to_string(),
                one_value(SqlppValue::Json("\"scenario:doc\"".to_string())),
                Some(options::query_opts(true)),
            ),
            Stage::QueryNull => Action::Query(
                "SELECT RAW $1 IS NULL".to_string(),
                one_value(SqlppValue::Null),
                Some(options::query_opts(true)),
            ),
            Stage::QuerySyntax => Action::Query("SLECT bogus".to_string(), no_values(), None),
            Stage::QueryBadParameter => Action::Query(
                "SELECT RAW $1".to_string(),
                one_value(SqlppValue::Json("not json".to_string())),
                None,
            ),
            Stage::Remove => Action::Remove(
                "scenario:doc".to_string(),
                Some(options::remove_opts(0)),
            ),
            Stage::RemoveAbsent => Action::Remove("scenario:absent".to_string(), None),
            Stage::ClearPreserve => Action::Remove("scenario:preserve".to_string(), None),
            Stage::SeedPreserve => Action::Upsert(
                "scenario:preserve".to_string(),
                bytes_of("{\"a\":1}"),
                options::upsert_opts(3600 * SECOND_NS),
            ),
            Stage::RewritePreserve => {
                let mut o = options::upsert_opts(0);
                o.preserve_expiry = true;
                Action::Upsert("scenario:preserve".to_string(), bytes_of("{\"a\":2}"), o)
            },
            Stage::ReadPreserve => {
                let mut o = options::get_opts(None);
                o.with_expiry = true;
                Action::Get("scenario:preserve".to_string(), Some(o))
            },
            Stage::PersistTo => {
                let mut o = options::upsert_opts(0);
                o.persist_to = 2;
                Action::Upsert("scenario:persist".to_string(), bytes_of("{\"a\":1}"), o)
            },
            Stage::QueryZeroed => Action::Query(
                "SELECT RAW 1".to_string(),
                no_values(),
                Some(
                    after_token(
                        MutationToken {
                            bucket_name: "".to_string(),
                            partition_uuid: 0,
                            partition_id: 0,
                            sequence_number: 0,
                        },
                    ),
                ),
            ),
            Stage::PerCallTimeout => {
                let mut o = options::get_opts(None);
                o.timeout_ns = Some(20 * SECOND_NS);
                Action::Get("scenario:ttl".to_string(), Some(o))
            },
            Stage::QueryWrongBucket => Action::Query(
                "SELECT RAW 1".to_string(),
                no_values(),
                Some(
                    after_token(
                        MutationToken {
                            bucket_name: "someone-elses-bucket".to_string(),
                            partition_uuid: 12345,
                            partition_id: 1,
                            sequence_number: 9,
                        },
                    ),
                ),
            ),
            Stage::UpsertTokened => Action::Upsert(
                "scenario:tokened".to_string(),
                bytes_of("{\"marker\":\"at-plus\"}"),
                options::upsert_opts(0),
            ),
            Stage::QueryTokened => Action::Query(
                "SELECT RAW d.marker FROM _default AS d USE KEYS $1".to_string(),
                one_value(SqlppValue::Json("\"scenario:tokened\"".to_string())),
                Some(
                    after_token(
                        MutationToken {
                            bucket_name: self.token.bucket_name.clone(),
                            partition_uuid: self.token.partition_uuid,
                            partition_id: self.token.partition_id,
                            sequence_number: self.token.sequence_number,
                        },
                    ),
                ),
            ),
            Stage::ClearExpiry => Action::Remove("scenario:expiry".to_string(), None),
            Stage::SeedExpiry => Action::Upsert(
                "scenario:expiry".to_string(),
                bytes_of("{\"e\":1}"),
                options::upsert_opts(3600 * SECOND_NS),
            ),
            Stage::ReadExpiry => {
                let mut o = options::get_opts(None);
                o.with_expiry = true;
                Action::Get("scenario:expiry".to_string(), Some(o))
            },
            Stage::UpsertBinary => {
                let mut o = options::upsert_opts(0);
                o.flags = Some(RAW_BINARY_FLAGS);
                Action::Upsert("scenario:binary".to_string(), blob_bytes(), o)
            },
            Stage::ReadBinary => Action::Get("scenario:binary".to_string(), None),
            Stage::Done => Action::Nothing,
        }
    }

    /// Take in the outcome of a write. It changes nothing where the run waits
    /// for something else.
    pub fn written(&mut self, outcome: Result<MutationMetadata, DocumentError>)
        ensures
            final(self)@ == after_write(old(self)@, types::write_outcome(outcome)),
    {
        match self.stage {
            Stage::Clear => {
                self.stage = Stage::GetMissing;
            },
            Stage::Insert => {
                match outcome {
                    Ok(m) => {
                        self.cas1 = m.cas;
                        let cas = number::decimal_text(m.cas);
                        let mut shown = text::joined3("cas=", cas.as_str(), " bucket=");
                        shown.append(m.bucket.as_str());
                        self.report.ok("02 insert", Ok(shown));
                    },
                    Err(e) => {
                        self.cas1 = 0;
                        self.report.ok("02 insert", Err(report::describe(&e)));
                    },
                }
                self.stage = Stage::Get;
            },
            Stage::InsertDuplicate => {
                self.report.expect_err("04 insert-duplicate", "already-exists", name_of(outcome));
                self.stage = Stage::Upsert;
            },
            Stage::Upsert => {
                self.cas2 = match &outcome {
                    Ok(m) => m.cas,
                    Err(_) => 0,
                };
                self.report.ok("05 upsert", show_cas(outcome));
                let cas1 = number::decimal_text(self.cas1);
                let cas2 = number::decimal_text(self.cas2);
                let mut shown = text::joined3("OK cas1=", cas1.as_str(), " cas2=");
                shown.append(cas2.as_str());
                shown.append(" differ=");
                shown.append(report::show_bool(self.cas1 != self.cas2));
                self.report.push("06 cas-changed", shown.as_str());
                self.stage = Stage::ReplaceStale;
            },
            Stage::ReplaceStale => {
                self.report.expect_err("07 replace-stale-cas", "cas-mismatch", name_of(outcome));
                self.stage = Stage::ReplaceCurrent;
            },
            Stage::ReplaceCurrent => {
                self.report.ok("08 replace-current-cas", show_cas(outcome));
                self.stage = Stage::ReplaceAbsent;
            },
            Stage::ReplaceAbsent => {
                self.report.expect_err("09 replace-absent", "not-found", name_of(outcome));
                self.stage = Stage::Touch;
            },
            Stage::Touch => {
                self.report.ok("10 touch", show_cas(outcome));
                self.stage = Stage::TouchZero;
            },
            Stage::TouchZero => {
                self.report.expect_err("11 touch-zero", "invalid-argument", name_of(outcome));
                self.stage = Stage::GetProjected;
            },
            Stage::UpsertWithExpiry => {
                self.report.ok("14 upsert-with-expiry", show_cas(outcome));
                self.stage = Stage::GetAndLock;
            },
            Stage::Remove => {
                self.report.ok("21 remove", show_cas(outcome));
                self.stage = Stage::GetAfterRemove;
            },
            Stage::RemoveAbsent => {
                self.report.expect_err("23 remove-absent", "not-found", name_of(outcome));
                self.stage = Stage::ClearPreserve;
            },
            Stage::ClearPreserve => {
                self.stage = Stage::SeedPreserve;
            },
            Stage::SeedPreserve => {
                match outcome {
                    Ok(_) => {
                        self.stage = Stage::RewritePreserve;
                    },
                    Err(e) => {
                        let name = report::describe(&e);
                        let shown = text::joined(
                            "UNEXPECTED-ERR seeding a document with a TTL failed: ",
                            name.as_str(),
                        );
                        self.report.push("24 preserve-expiry", shown.as_str());
                        self.stage = Stage::PersistTo;
                    },
                }
            },
            Stage::RewritePreserve => {
                match outcome {
                    Ok(_) => {
                        self.stage = Stage::ReadPreserve;
                    },
                    Err(DocumentError::Unsupported(_)) => {
                        self.report.push("24 preserve-expiry", "OK unsupported on this transport");
                        self.stage = Stage::PersistTo;
                    },
                    Err(e) => {
                        let name = report::describe(&e);
                        let shown = text::joined("UNEXPECTED-ERR ", name.as_str());
                        self.report.push("24 preserve-expiry", shown.as_str());
                        self.stage = Stage::PersistTo;
                    },
                }
            },
            Stage::PersistTo => {
                self.report.expect_err("25 persist-to-rejected", "unsupported", name_of(outcome));
                self.stage = Stage::QueryZeroed;
            },
            Stage::UpsertTokened => {
                match outcome {
                    Ok(m) => {
                        let id = number::decimal_text(m.partition_id);
                        let uuid = number::decimal_text(m.partition_uuid);
                        let seq = number::decimal_text(m.seq);
                        let raw = report::show_option(&m.raw_token);
                        let mut shown = text::joined3("OK vbid=", id.as_str(), " vbuuid=");
                        shown.append(uuid.as_str());
                        shown.append(" seq=");
                        shown.append(seq.as_str());
                        shown.append(" raw=");
                        shown.append(raw.as_str());
                        self.report.push("29 mutation-token-parsed", shown.as_str());
                        self.token = MutationToken {
                            bucket_name: m.bucket,
                            partition_uuid: m.partition_uuid,
                            partition_id: m.partition_id,
                            sequence_number: m.seq,
                        };
                        self.stage = Stage::QueryTokened;
                    },
                    Err(e) => {
                        let name = report::describe(&e);
                        let shown = text::joined("UNEXPECTED-ERR ", name.as_str());
                        self.report.push("29 mutation-token-parsed", shown.as_str());
                        self.stage = Stage::ClearExpiry;
                    },
                }
            },
            Stage::ClearExpiry => {
                self.stage = Stage::SeedExpiry;
            },
            Stage::SeedExpiry => {
                match outcome {
                    Ok(_) => {
                        self.stage = Stage::ReadExpiry;
                    },
                    Err(e) => {
                        let name = report::describe(&e);
                        let shown = text::joined(
                            "UNEXPECTED-ERR writing a document with a TTL: ",
                            name.as_str(),
                        );
                        self.report.push("31 get-with-expiry", shown.as_str());
                        self.stage = Stage::UpsertBinary;
                    },
                }
            },
            Stage::UpsertBinary => {
                self.report.ok("32 upsert-binary-document", show_cas(outcome));
                self.stage = Stage::ReadBinary;
            },
            _ => {},
        }
    }

    /// Take in the outcome of a read. It changes nothing where the run waits
    /// for something else.
    pub fn read(&mut self, outcome: Result<DocumentGetResult, DocumentError>)
        ensures
            final(self)@ == after_read(old(self)@, types::read_outcome(outcome)),
    {
        match self.stage {
            Stage::GetMissing => {
                self.report.expect_err("01 get-missing", "not-found", name_of(outcome));
                self.stage = Stage::Insert;
            },
            Stage::Get => {
                self.report.ok("03 get", show_document(outcome));
                self.stage = Stage::InsertDuplicate;
            },
            Stage::GetProjected => {
                let shown = match outcome {
                    Ok(g) => Ok(report::doc_text(g.document.as_slice())),
                    Err(e) => Err(report::describe(&e)),
                };
                self.report.ok("12 get-projected", shown);
                self.stage = Stage::GetAndTouch;
            },
            Stage::GetAndTouch => {
                self.report.ok("13 get-and-touch", show_document(outcome));
                self.stage = Stage::UpsertWithExpiry;
            },
            Stage::GetAndLock => {
                match outcome {
                    Err(DocumentError::Unsupported(_)) => {
                        self.report.push("15 get-and-lock", "OK unsupported on this transport");
                        self.stage = Stage::UnlockUnsupported;
                    },
                    Ok(g) => {
                        let cas = number::decimal_text(g.cas);
                        let shown = text::joined("OK locked cas=", cas.as_str());
                        self.report.push("15 get-and-lock", shown.as_str());
                        self.lock_cas = g.cas;
                        self.stage = Stage::UnlockWrong;
                    },
                    Err(e) => {
                        let name = report::describe(&e);
                        let shown = text::joined("UNEXPECTED-ERR ", name.as_str());
                        self.report.push("15 get-and-lock", shown.as_str());
                        self.stage = Stage::QueryParameterized;
                    },
                }
            },
            Stage::GetAfterRemove => {
                self.report.expect_err("22 get-after-remove", "not-found", name_of(outcome));
                self.stage = Stage::RemoveAbsent;
            },
            Stage::ReadPreserve => {
                match outcome {
                    Ok(g) => match g.expires_at {
                        Some(_) => self.report.push(
                            "24 preserve-expiry",
                            "OK honoured, TTL survived the rewrite",
                        ),
                        None => self.report.push(
                            "24 preserve-expiry",
                            "UNEXPECTED-OK preserve-expiry was accepted but the TTL is gone",
                        ),
                    },
                    Err(e) => {
                        let name = report::describe(&e);
                        let shown = text::joined(
                            "UNEXPECTED-ERR reading back the TTL: ",
                            name.as_str(),
                        );
                        self.report.push("24 preserve-expiry", shown.as_str());
                    },
                }
                self.stage = Stage::PersistTo;
            },
            Stage::PerCallTimeout => {
                let shown = match outcome {
                    Ok(_) => Ok("completed within the per-call budget".to_string()),
                    Err(e) => Err(report::describe(&e)),
                };
                self.report.ok("27 per-call-timeout-honoured", shown);
                self.stage = Stage::QueryWrongBucket;
            },
            Stage::ReadExpiry => {
                let shown = show_expiry(outcome);
                self.report.push("31 get-with-expiry", shown.as_str());
                self.stage = Stage::UpsertBinary;
            },
            Stage::ReadBinary => {
                let shown = match outcome {
                    Ok(g) => {
                        let expected = blob_bytes();
                        let same = wire::same_bytes(g.document.as_slice(), expected.as_slice());
                        let bytes = report::show_bytes(g.document.as_slice());
                        let flags = number::hex_text(g.flags as u64, 8);
                        let mut s = text::joined3("bytes=", bytes.as_str(), " identical=");
                        s.append(report::show_bool(same));
                        s.append(" flags=0x");
                        s.append(flags.as_str());
                        Ok(s)
                    },
                    Err(e) => Err(report::describe(&e)),
                };
                self.report.ok("33 binary-round-trips-byte-for-byte", shown);
                self.stage = Stage::Done;
            },
            _ => {},
        }
    }

    /// Take in the outcome of an unlock. It changes nothing where the run waits
    /// for something else.
    pub fn unlocked(&mut self, outcome: Result<(), DocumentError>)
        ensures
            final(self)@ == after_unlock(old(self)@, types::unit_outcome(outcome)),
    {
        match self.stage {
            Stage::UnlockUnsupported => {
                self.report.expect_err("16 unlock", "unsupported", name_of(outcome));
                self.stage = Stage::QueryParameterized;
            },
            Stage::UnlockWrong => {
                match outcome {
                    Ok(_) => {
                        self.report.push(
                            "16 unlock",
                            "UNEXPECTED-OK unlock accepted a CAS that was not the lock's",
                        );
                        self.stage = Stage::QueryParameterized;
                    },
                    Err(_) => {
                        self.stage = Stage::UnlockRight;
                    },
                }
            },
            Stage::UnlockRight => {
                match outcome {
                    Ok(_) => self.report.push(
                        "16 unlock",
                        "OK lock held, refused a wrong cas, then released",
                    ),
                    Err(e) => {
                        let name = report::describe(&e);
                        let shown = text::joined(
                            "UNEXPECTED-ERR unlock rejected the lock's own cas: ",
                            name.as_str(),
                        );
                        self.report.push("16 unlock", shown.as_str());
                    },
                }
                self.stage = Stage::QueryParameterized;
            },
            _ => {},
        }
    }

    /// Take in the outcome of a query. It changes nothing where the run waits
    /// for something else.
    pub fn answered(&mut self, outcome: Result<SqlppValue, SqlppQueryError>)
        ensures
            final(self)@ == after_query(old(self)@, types::query_outcome(outcome)),
    {
        match self.stage {
            Stage::QueryParameterized => {
                self.report.ok("17 sqlpp-parameterized", show_rows(outcome));
                self.stage = Stage::QueryNull;
            },
            Stage::QueryNull => {
                self.report.ok("18 sqlpp-null-param", show_rows(outcome));
                self.stage = Stage::QuerySyntax;
            },
            Stage::QuerySyntax => {
                self.report.expect_err(
                    "19 sqlpp-syntax-error",
                    "invalid-argument",
                    query_name_of(outcome),
                );
                self.stage = Stage::QueryBadParameter;
            },
            Stage::QueryBadParameter => {
                self.report.expect_err(
                    "20 sqlpp-bad-param",
                    "invalid-argument",
                    query_name_of(outcome),
                );
                self.stage = Stage::Remove;
            },
            Stage::QueryZeroed => {
                self.report.expect_err(
                    "26 consistent-with-zeroed-rejected",
                    "invalid-argument",
                    query_name_of(outcome),
                );
                self.stage = Stage::PerCallTimeout;
            },
            Stage::QueryWrongBucket => {
                self.report.expect_err(
                    "28 consistent-with-wrong-bucket-rejected",
                    "invalid-argument",
                    query_name_of(outcome),
                );
                self.stage = Stage::UpsertTokened;
            },
            Stage::QueryTokened => {
                self.report.ok("30 query-consistent-with-real-token", show_rows(outcome));
                self.stage = Stage::ClearExpiry;
            },
            _ => {},
        }
    }
}

/// What kind of outcome a run waits for.
pub enum Awaits {
    Write,
    Read,
    Unlock,
    Answer,
    Nothing,
}

/// What kind of outcome an operation has.
pub open spec fn outcome_of(a: ActionView) -> Awaits {
    match a {
        ActionView::Remove(_, _) => Awaits::Write,
        ActionView::Insert(_, _, _) => Awaits::Write,
        ActionView::Upsert(_, _, _) => Awaits::Write,
        ActionView::Replace(_, _, _) => Awaits::Write,
        ActionView::Touch(_, _) => Awaits::Write,
        ActionView::Get(_, _) => Awaits::Read,
        ActionView::GetAndTouch(_, _) => Awaits::Read,
        ActionView::GetAndLock(_) => Awaits::Read,
        ActionView::Unlock(_, _) => Awaits::Unlock,
        ActionView::Query(_, _, _) => Awaits::Answer,
        ActionView::Nothing => Awaits::Nothing,
    }
}

/// How far along a stage is.
pub open spec fn rank(stage: Stage) -> nat {
    match stage {
        Stage::Clear => 0,
        Stage::GetMissing => 1,
        Stage::Insert => 2,
        Stage::Get => 3,
        Stage::InsertDuplicate => 4,
        Stage::Upsert => 5,
        Stage::ReplaceStale => 6,
        Stage::ReplaceCurrent => 7,
        Stage::ReplaceAbsent => 8,
        Stage::Touch => 9,
        Stage::TouchZero => 10,
        Stage::GetProjected => 11,
        Stage::GetAndTouch => 12,
        Stage::UpsertWithExpiry => 13,
        Stage::GetAndLock => 14,
        Stage::UnlockUnsupported => 15,
        Stage::UnlockWrong => 16,
        Stage::UnlockRight => 17,
        Stage::QueryParameterized => 18,
        Stage::QueryNull => 19,
        Stage::QuerySyntax => 20,
        Stage::QueryBadParameter => 21,
        Stage::Remove => 22,
        Stage::GetAfterRemove => 23,
        Stage::RemoveAbsent => 24,
        Stage::ClearPreserve => 25,
        Stage::SeedPreserve => 26,
        Stage::RewritePreserve => 27,
        Stage::ReadPreserve => 28,
        Stage::PersistTo => 29,
        Stage::QueryZeroed => 30,
        Stage::PerCallTimeout => 31,
        Stage::QueryWrongBucket => 32,
        Stage::UpsertTokened => 33,
        Stage::QueryTokened => 34,
        Stage::ClearExpiry => 35,
        Stage::SeedExpiry => 36,
        Stage::ReadExpiry => 37,
        Stage::UpsertBinary => 38,
        Stage::ReadBinary => 39,
        Stage::Done => 40,
    }
}

/// A run goes on with whatever becomes of the operation that it asked for, and
/// comes to its end after at most forty of them.
pub proof fn lemma_run_ends(
    v: RunView,
    w: Result<MutationView, ErrorView>,
    r: Result<GetView, ErrorView>,
    u: Result<(), ErrorView>,
    q: Result<ValueView, QueryErrorView>,
)
    ensures
        match outcome_of(asked(v)) {
            Awaits::Write => rank(after_write(v, w).stage) > rank(v.stage),
            Awaits::Read => rank(after_read(v, r).stage) > rank(v.stage),
            Awaits::Unlock => rank(after_unlock(v, u).stage) > rank(v.stage),
            Awaits::Answer => rank(after_query(v, q).stage) > rank(v.stage),
            Awaits::Nothing => v.stage == Stage::Done,
        },
        rank(fresh().stage) == 0,
        rank(v.stage) <= 40,
        rank(v.stage) == 40 <==> v.stage == Stage::Done,
{
}

/// The names of the steps, in order.
#[verifier::opaque]
pub open spec fn step_name(n: int) -> Seq<char> {
    if n == 0 {
        "01 get-missing"@
    } else if n == 1 {
        "02 insert"@
    } else if n == 2 {
        "03 get"@
    } else if n == 3 {
        "04 insert-duplicate"@
    } else if n == 4 {
        "05 upsert"@
    } else if n == 5 {
        "06 cas-changed"@
    } else if n == 6 {
        "07 replace-stale-cas"@
    } else if n == 7 {
        "08 replace-current-cas"@
    } else if n == 8 {
        "09 replace-absent"@
    } else if n == 9 {
        "10 touch"@
    } else if n == 10 {
        "11 touch-zero"@
    } else if n == 11 {
        "12 get-projected"@
    } else if n == 12 {
        "13 get-and-touch"@
    } else if n == 13 {
        "14 upsert-with-expiry"@
    } else if n == 14 {
        "15 get-and-lock"@
    } else if n == 15 {
        "16 unlock"@
    } else if n == 16 {
        "17 sqlpp-parameterized"@
    } else if n == 17 {
        "18 sqlpp-null-param"@
    } else if n == 18 {
        "19 sqlpp-syntax-error"@
    } else if n == 19 {
        "20 sqlpp-bad-param"@
    } else if n == 20 {
        "21 remove"@
    } else if n == 21 {
        "22 get-after-remove"@
    } else if n == 22 {
        "23 remove-absent"@
    } else if n == 23 {
        "24 preserve-expiry"@
    } else if n == 24 {
        "25 persist-to-rejected"@
    } else if n == 25 {
        "26 consistent-with-zeroed-rejected"@
    } else if n == 26 {
        "27 per-call-timeout-honoured"@
    } else if n == 27 {
        "28 consistent-with-wrong-bucket-rejected"@
    } else if n == 28 {
        "29 mutation-token-parsed"@
    } else if n == 29 {
        "30 query-consistent-with-real-token"@
    } else if n == 30 {
        "31 get-with-expiry"@
    } else if n == 31 {
        "32 upsert-binary-document"@
    } else {
        "33 binary-round-trips-byte-for-byte"@
    }
}

/// How many steps lie behind a stage.
pub open spec fn steps_done(stage: Stage) -> int {
    match stage {
        Stage::Clear => 0,
        Stage::GetMissing => 0,
        Stage::Insert => 1,
        Stage::Get => 2,
        Stage::InsertDuplicate => 3,
        Stage::Upsert => 4,
        Stage::ReplaceStale => 6,
        Stage::ReplaceCurrent => 7,
        Stage::ReplaceAbsent => 8,
        Stage::Touch => 9,
        Stage::TouchZero => 10,
        Stage::GetProjected => 11,
        Stage::GetAndTouch => 12,
        Stage::UpsertWithExpiry => 13,
        Stage::GetAndLock => 14,
        Stage::UnlockUnsupported => 15,
        Stage::UnlockWrong => 15,
        Stage::UnlockRight => 15,
        Stage::QueryParameterized => 16,
        Stage::QueryNull => 17,
        Stage::QuerySyntax => 18,
        Stage::QueryBadParameter => 19,
        Stage::Remove => 20,
        Stage::GetAfterRemove => 21,
        Stage::RemoveAbsent => 22,
        Stage::ClearPreserve => 23,
        Stage::SeedPreserve => 23,
        Stage::RewritePreserve => 23,
        Stage::ReadPreserve => 23,
        Stage::PersistTo => 24,
        Stage::QueryZeroed => 25,
        Stage::PerCallTimeout => 26,
        Stage::QueryWrongBucket => 27,
        Stage::UpsertTokened => 28,
        Stage::QueryTokened => 29,
        Stage::ClearExpiry => 30,
        Stage::SeedExpiry => 30,
        Stage::ReadExpiry => 30,
        Stage::UpsertBinary => 31,
        Stage::ReadBinary => 32,
        Stage::Done => 33,
    }
}

/// The step that the `i`-th line reports.
pub open spec fn step_at(i: int, no_unlock: bool, no_query: bool) -> int {
    let j = if no_unlock && i >= 15 {
        i + 1
    } else {
        i
    };
    if no_query && j >= 29 {
        j + 1
    } else {
        j
    }
}

/// Whether a run has reported every step behind it once and in order. The
/// unlock is left out where nothing was locked although the transport has
/// locks, and the query after a write is left out where the write failed.
pub open spec fn reported(v: RunView, no_unlock: bool, no_query: bool) -> bool {
    let unlock = if no_unlock && steps_done(v.stage) > 15 {
        1int
    } else {
        0
    };
    let query = if no_query && steps_done(v.stage) > 29 {
        1int
    } else {
        0
    };
    &&& v.lines.len() == steps_done(v.stage) - unlock - query
    &&& forall|i: int|
        0 <= i < v.lines.len() ==> text::starts_with(
            #[trigger] v.lines[i],
            step_name(step_at(i, no_unlock, no_query)) + ": "@,
        )
}

/// What may have been left out up to a stage.
pub open spec fn left_out(stage: Stage, no_unlock: bool, no_query: bool) -> bool {
    &&& no_unlock ==> rank(stage) >= rank(Stage::QueryParameterized)
    &&& no_query ==> rank(stage) >= rank(Stage::ClearExpiry)
}

proof fn lemma_lines()
    ensures
        forall|step: Seq<char>, outcome: Seq<char>|
            text::starts_with(#[trigger] report::line(step, outcome), step + ": "@),
{
    assert forall|step: Seq<char>, outcome: Seq<char>| text::starts_with(
        #[trigger] report::line(step, outcome),
        step + ": "@,
    ) by {
        let p = step + ": "@;
        assert(report::line(step, outcome).take(p.len() as int) =~= p);
    }
}

#[verifier::spinoff_prover]
proof fn lemma_write_is_reported(
    v: RunView,
    w: Result<MutationView, ErrorView>,
    no_unlock: bool,
    no_query: bool,
)
    requires
        reported(v, no_unlock, no_query),
        left_out(v.stage, no_unlock, no_query),
    ensures
        outcome_of(asked(v)) is Write ==> reported(
            after_write(v, w),
            no_unlock,
            no_query || (v.stage == Stage::UpsertTokened && w is Err),
        ),
{
    reveal(step_name);
    lemma_lines();
}

#[verifier::spinoff_prover]
proof fn lemma_read_is_reported(
    v: RunView,
    r: Result<GetView, ErrorView>,
    no_unlock: bool,
    no_query: bool,
)
    requires
        reported(v, no_unlock, no_query),
        left_out(v.stage, no_unlock, no_query),
    ensures
        outcome_of(asked(v)) is Read ==> reported(
            after_read(v, r),
            no_unlock || (v.stage == Stage::GetAndLock && (r matches Err(e) && !(
            e is Unsupported))),
            no_query,
        ),
{
    reveal(step_name);
    lemma_lines();
}

#[verifier::spinoff_prover]
proof fn lemma_unlock_is_reported(
    v: RunView,
    u: Result<(), ErrorView>,
    no_unlock: bool,
    no_query: bool,
)
    requires
        reported(v, no_unlock, no_query),
        left_out(v.stage, no_unlock, no_query),
    ensures
        outcome_of(asked(v)) is Unlock ==> reported(after_unlock(v, u), no_unlock, no_query),
{
    reveal(step_name);
    lemma_lines();
}

#[verifier::spinoff_prover]
proof fn lemma_answer_is_reported(
    v: RunView,
    q: Result<ValueView, QueryErrorView>,
    no_unlock: bool,
    no_query: bool,
)
    requires
        reported(v, no_unlock, no_query),
        left_out(v.stage, no_unlock, no_query),
    ensures
        outcome_of(asked(v)) is Answer ==> reported(after_query(v, q), no_unlock, no_query),
{
    reveal(step_name);
    lemma_lines();
}

/// A run starts with nothing to report, and told of the operation that it asked
/// for it keeps reporting every step once and in order, up to the last.
pub proof fn lemma_every_step_is_reported(
    v: RunView,
    w: Result<MutationView, ErrorView>,
    r: Result<GetView, ErrorView>,
    u: Result<(), ErrorView>,
    q: Result<ValueView, QueryErrorView>,
    no_unlock: bool,
    no_query: bool,
)
    requires
        reported(v, no_unlock, no_query),
        left_out(v.stage, no_unlock, no_query),
    ensures
        reported(fresh(), false, false) && left_out(fresh().stage, false, false),
        match outcome_of(asked(v)) {
            Awaits::Write => {
                let skipped = no_query || (v.stage == Stage::UpsertTokened && w is Err);
                &&& reported(after_write(v, w), no_unlock, skipped)
                &&& left_out(after_write(v, w).stage, no_unlock, skipped)
            },
            Awaits::Read => {
                let skipped = no_unlock || (v.stage == Stage::GetAndLock && (r matches Err(e) && !(
                e is Unsupported)));
                &&& reported(after_read(v, r), skipped, no_query)
                &&& left_out(after_read(v, r).stage, skipped, no_query)
            },
            Awaits::Unlock => {
                &&& reported(after_unlock(v, u), no_unlock, no_query)
                &&& left_out(after_unlock(v, u).stage, no_unlock, no_query)
            },
            Awaits::Answer => {
                &&& reported(after_query(v, q), no_unlock, no_query)
                &&& left_out(after_query(v, q).stage, no_unlock, no_query)
            },
            Awaits::Nothing => v.lines.len() >= 31,
        },
{
    lemma_run_ends(v, w, r, u, q);
    lemma_write_is_reported(v, w, no_unlock, no_query);
    lemma_read_is_reported(v, r, no_unlock, no_query);
    lemma_unlock_is_reported(v, u, no_unlock, no_query);
    lemma_answer_is_reported(v, q, no_unlock, no_query);
}

/// Whether a write that a stage waits for came out as the scenario wants it.
pub open spec fn write_as_expected(stage: Stage, o: Result<MutationView, ErrorView>) -> bool {
    match stage {
        Stage::Clear | Stage::ClearPreserve | Stage::ClearExpiry => true,
        Stage::InsertDuplicate => o matches Err(e) && e is AlreadyExists,
        Stage::ReplaceStale => o matches Err(e) && e is CasMismatch,
        Stage::ReplaceAbsent | Stage::RemoveAbsent => o matches Err(e) && e is NotFound,
        Stage::TouchZero => o matches Err(e) && e is InvalidArgument,
        Stage::PersistTo => o matches Err(e) && e is Unsupported,
        Stage::RewritePreserve => o matches Err(e) ==> e is Unsupported,
        _ => o is Ok,
    }
}

/// Whether a read that a stage waits for came out as the scenario wants it.
pub open spec fn read_as_expected(stage: Stage, o: Result<GetView, ErrorView>) -> bool {
    match stage {
        Stage::GetMissing | Stage::GetAfterRemove => o matches Err(e) && e is NotFound,
        Stage::GetAndLock => o matches Err(e) ==> e is Unsupported,
        Stage::ReadPreserve => o matches Ok(g) && g.expires_at is Some,
        Stage::ReadExpiry => o matches Ok(g) && (g.expires_at matches Some(t) && t.year >= 2026),
        _ => o is Ok,
    }
}

/// Whether an unlock that a stage waits for came out as the scenario wants it.
pub open spec fn unlock_as_expected(stage: Stage, o: Result<(), ErrorView>) -> bool {
    match stage {
        Stage::UnlockUnsupported => o matches Err(e) && e is Unsupported,
        Stage::UnlockWrong => o is Err,
        _ => o is Ok,
    }
}

/// Whether a query that a stage waits for came out as the scenario wants it.
pub open spec fn answer_as_expected(stage: Stage, o: Result<ValueView, QueryErrorView>) -> bool {
    match stage {
        Stage::QueryParameterized | Stage::QueryNull | Stage::QueryTokened => o is Ok,
        _ => o matches Err(e) && e is InvalidArgument,
    }
}

/// Whether a run has reported every step behind it, and each of them as `OK`.
pub open spec fn all_ok(v: RunView) -> bool {
    &&& v.lines.len() == steps_done(v.stage)
    &&& forall|i: int|
        0 <= i < v.lines.len() ==> text::starts_with(
            #[trigger] v.lines[i],
            step_name(i) + ": OK "@,
        )
}

proof fn lemma_ok_lines()
    ensures
        forall|step: Seq<char>, outcome: Seq<char>|
            text::starts_with(outcome, "OK "@) ==> text::starts_with(
                #[trigger] report::line(step, outcome),
                step + ": OK "@,
            ),
{
    reveal_strlit(": OK ");
    reveal_strlit(": ");
    reveal_strlit("OK ");
    assert forall|step: Seq<char>, outcome: Seq<char>| text::starts_with(
        outcome,
        "OK "@,
    ) implies text::starts_with(#[trigger] report::line(step, outcome), step + ": OK "@) by {
        let p = step + ": OK "@;
        assert forall|i: int| 0 <= i < 3 implies outcome[i] == "OK "@[i] by {
            assert(outcome.take(3)[i] == outcome[i]);
        }
        assert(report::line(step, outcome).take(p.len() as int) =~= p);
    }
}

proof fn lemma_front_is_kept(p: Seq<char>)
    ensures
        forall|a: Seq<char>, b: Seq<char>|
            text::starts_with(a, p) ==> #[trigger] text::starts_with(a + b, p),
{
    assert forall|a: Seq<char>, b: Seq<char>| text::starts_with(
        a,
        p,
    ) implies #[trigger] text::starts_with(a + b, p) by {
        assert((a + b).take(p.len() as int) =~= a.take(p.len() as int));
    }
}

proof fn lemma_ok_words()
    ensures
        text::starts_with("OK "@, "OK "@),
        text::starts_with("OK cas1="@, "OK "@),
        text::starts_with("OK unsupported on this transport"@, "OK "@),
        text::starts_with("OK vbid="@, "OK "@),
        text::starts_with("OK locked cas="@, "OK "@),
        text::starts_with("OK honoured, TTL survived the rewrite"@, "OK "@),
        text::starts_with("OK expires-at="@, "OK "@),
        text::starts_with("OK lock held, refused a wrong cas, then released"@, "OK "@),
{
    reveal_strlit("OK ");
    reveal_strlit("OK cas1=");
    reveal_strlit("OK unsupported on this transport");
    reveal_strlit("OK vbid=");
    reveal_strlit("OK locked cas=");
    reveal_strlit("OK honoured, TTL survived the rewrite");
    reveal_strlit("OK expires-at=");
    reveal_strlit("OK lock held, refused a wrong cas, then released");
    assert("OK "@.take(3) =~= "OK "@);
    assert("OK cas1="@.take(3) =~= "OK "@);
    assert("OK unsupported on this transport"@.take(3) =~= "OK "@);
    assert("OK vbid="@.take(3) =~= "OK "@);
    assert("OK locked cas="@.take(3) =~= "OK "@);
    assert("OK honoured, TTL survived the rewrite"@.take(3) =~= "OK "@);
    assert("OK expires-at="@.take(3) =~= "OK "@);
    assert("OK lock held, refused a wrong cas, then released"@.take(3) =~= "OK "@);
}

proof fn lemma_wanted_names()
    ensures
        text::starts_with("not-found"@, "not-found"@),
        text::starts_with("already-exists"@, "already-exists"@),
        text::starts_with("cas-mismatch"@, "cas-mismatch"@),
        text::starts_with("unsupported("@, "unsupported"@),
        text::starts_with("invalid-argument("@, "invalid-argument"@),
{
    reveal_strlit("unsupported(");
    reveal_strlit("unsupported");
    reveal_strlit("invalid-argument(");
    reveal_strlit("invalid-argument");
    assert("not-found"@.take("not-found"@.len() as int) =~= "not-found"@);
    assert("already-exists"@.take("already-exists"@.len() as int) =~= "already-exists"@);
    assert("cas-mismatch"@.take("cas-mismatch"@.len() as int) =~= "cas-mismatch"@);
    assert("unsupported("@.take(11) =~= "unsupported"@);
    assert("invalid-argument("@.take(16) =~= "invalid-argument"@);
}

proof fn lemma_ok_facts()
    ensures
        forall|step: Seq<char>, outcome: Seq<char>|
            text::starts_with(outcome, "OK "@) ==> text::starts_with(
                #[trigger] report::line(step, outcome),
                step + ": OK "@,
            ),
        forall|shown: Seq<char>|
            text::starts_with(
                #[trigger] report::success(Ok::<Seq<char>, Seq<char>>(shown)),
                "OK "@,
            ),
        forall|expected: Seq<char>, got: Seq<char>|
            text::starts_with(got, expected) ==> text::starts_with(
                #[trigger] report::failure(expected, Err::<(), Seq<char>>(got)),
                "OK "@,
            ),
        forall|a: Seq<char>, b: Seq<char>|
            text::starts_with(a, "OK "@) ==> #[trigger] text::starts_with(a + b, "OK "@),
        forall|m: Seq<char>|
            text::starts_with(
                #[trigger] report::described(ErrorView::Unsupported(m)),
                "unsupported"@,
            ),
        forall|m: Seq<char>|
            text::starts_with(
                #[trigger] report::described(ErrorView::InvalidArgument(m)),
                "invalid-argument"@,
            ),
        forall|m: Seq<char>|
            text::starts_with(
                #[trigger] report::query_described(QueryErrorView::InvalidArgument(m)),
                "invalid-argument"@,
            ),
{
    lemma_ok_lines();
    lemma_ok_words();
    lemma_wanted_names();
    lemma_front_is_kept("OK "@);
    lemma_front_is_kept("unsupported"@);
    lemma_front_is_kept("invalid-argument"@);
}

#[verifier::spinoff_prover]
proof fn lemma_write_reads_ok(v: RunView, w: Result<MutationView, ErrorView>)
    requires
        all_ok(v),
        write_as_expected(v.stage, w),
    ensures
        outcome_of(asked(v)) is Write ==> all_ok(after_write(v, w)),
{
    reveal(step_name);
    lemma_ok_facts();
    lemma_ok_words();
    lemma_wanted_names();
}

#[verifier::spinoff_prover]
proof fn lemma_read_reads_ok(v: RunView, r: Result<GetView, ErrorView>)
    requires
        all_ok(v),
        read_as_expected(v.stage, r),
    ensures
        outcome_of(asked(v)) is Read ==> all_ok(after_read(v, r)),
{
    reveal(step_name);
    lemma_ok_facts();
    lemma_ok_words();
    lemma_wanted_names();
}

#[verifier::spinoff_prover]
proof fn lemma_unlock_reads_ok(v: RunView, u: Result<(), ErrorView>)
    requires
        all_ok(v),
        unlock_as_expected(v.stage, u),
    ensures
        outcome_of(asked(v)) is Unlock ==> all_ok(after_unlock(v, u)),
{
    reveal(step_name);
    lemma_ok_facts();
    lemma_ok_words();
    lemma_wanted_names();
}

#[verifier::spinoff_prover]
proof fn lemma_answer_reads_ok(v: RunView, q: Result<ValueView, QueryErrorView>)
    requires
        all_ok(v),
        answer_as_expected(v.stage, q),
    ensures
        outcome_of(asked(v)) is Answer ==> all_ok(after_query(v, q)),
{
    reveal(step_name);
    lemma_ok_facts();
    lemma_ok_words();
    lemma_wanted_names();
}

/// A run whose every outcome is the expected one reports every step, in order,
/// and each of them as `OK`.
pub proof fn lemma_expected_outcomes_read_ok(
    v: RunView,
    w: Result<MutationView, ErrorView>,
    r: Result<GetView, ErrorView>,
    u: Result<(), ErrorView>,
    q: Result<ValueView, QueryErrorView>,
)
    requires
        all_ok(v),
        match outcome_of(asked(v)) {
            Awaits::Write => write_as_expected(v.stage, w),
            Awaits::Read => read_as_expected(v.stage, r),
            Awaits::Unlock => unlock_as_expected(v.stage, u),
            Awaits::Answer => answer_as_expected(v.stage, q),
            Awaits::Nothing => true,
        },
    ensures
        all_ok(fresh()),
        match outcome_of(asked(v)) {
            Awaits::Write => all_ok(after_write(v, w)),
            Awaits::Read => all_ok(after_read(v, r)),
            Awaits::Unlock => all_ok(after_unlock(v, u)),
            Awaits::Answer => all_ok(after_query(v, q)),
            Awaits::Nothing => v.lines.len() == 33,
        },
{
    match outcome_of(asked(v)) {
        Awaits::Write => lemma_write_reads_ok(v, w),
        Awaits::Read => lemma_read_reads_ok(v, r),
        Awaits::Unlock => lemma_unlock_reads_ok(v, u),
        Awaits::Answer => lemma_answer_reads_ok(v, q),
        Awaits::Nothing => {},
    }
}

} // verus!
