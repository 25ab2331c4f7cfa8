//! What a run of the scenario asks for, and what it remembers from one step to the
//! next.

use vstd::prelude::*;
use vstd::string::*;
use vstd::utf8::*;

use crate::scenario::report;
use crate::scenario::run;
use crate::scenario::run::{ActionView, RunView, Stage};
use crate::text;
use crate::types::{
    DurabilityLevel, ErrorView, GetView, MutationView, QueryErrorView, QueryScanConsistency,
    ValueView,
};

verus! {

/// The CAS values, the lock and the position that a run remembers are those of the
/// steps that they come from, and no other step changes them.
pub proof fn lemma_run_remembers(
    v: RunView,
    w: Result<MutationView, ErrorView>,
    r: Result<GetView, ErrorView>,
    u: Result<(), ErrorView>,
    q: Result<ValueView, QueryErrorView>,
)
    ensures
        v.stage == Stage::Insert ==> (w matches Ok(m) ==> run::after_write(v, w).cas1 == m.cas),
        v.stage != Stage::Insert ==> run::after_write(v, w).cas1 == v.cas1,
        v.stage == Stage::Upsert ==> (w matches Ok(m) ==> run::after_write(v, w).cas2 == m.cas),
        v.stage != Stage::Upsert ==> run::after_write(v, w).cas2 == v.cas2,
        v.stage == Stage::GetAndLock ==> (r matches Ok(g) ==> run::after_read(v, r).lock_cas
            == g.cas),
        v.stage != Stage::GetAndLock ==> run::after_read(v, r).lock_cas == v.lock_cas,
        run::after_write(v, w).lock_cas == v.lock_cas,
        v.stage == Stage::UpsertTokened ==> (w matches Ok(m) ==> {
            let t = run::after_write(v, w).token;
            t.bucket_name == m.bucket && t.partition_id == m.partition_id && t.partition_uuid
                == m.partition_uuid && t.sequence_number == m.seq
        }),
        v.stage != Stage::UpsertTokened ==> run::after_write(v, w).token == v.token,
        run::after_read(v, r).cas1 == v.cas1 && run::after_read(v, r).cas2 == v.cas2
            && run::after_read(v, r).token == v.token,
        ({
            let after = run::after_unlock(v, u);
            after.cas1 == v.cas1 && after.cas2 == v.cas2 && after.lock_cas == v.lock_cas
                && after.token == v.token
        }),
        ({
            let after = run::after_query(v, q);
            after.cas1 == v.cas1 && after.cas2 == v.cas2 && after.lock_cas == v.lock_cas
                && after.token == v.token
        }),
{
}

/// A stale replace is asked for with the insert's CAS and a current one with the
/// upsert's; a lock is first tried with another CAS and then released with its own;
/// and the query that has to observe a write names exactly that write.
pub proof fn lemma_run_uses_what_it_remembers(v: RunView)
    ensures
        v.stage == Stage::ReplaceStale ==> (run::asked(v) matches ActionView::Replace(_, _, o)
            && o.cas == v.cas1),
        v.stage == Stage::ReplaceCurrent ==> (run::asked(v) matches ActionView::Replace(_, _, o)
            && o.cas == v.cas2),
        v.stage == Stage::UnlockWrong ==> (run::asked(v) matches ActionView::Unlock(_, Some(o))
            && o.cas != v.lock_cas),
        v.stage == Stage::UnlockRight ==> (run::asked(v) matches ActionView::Unlock(_, Some(o))
            && o.cas == v.lock_cas),
        v.stage == Stage::QueryTokened ==> (run::asked(v) matches ActionView::Query(_, _, Some(o))
            && (o.consistent_with matches Some(tokens) && tokens.len() == 1 && tokens[0]
            == v.token)),
{
}

/// Each operation sets the option that its step is about and no other.
pub proof fn lemma_steps_set_one_option(v: RunView)
    ensures
        run::asked(v) matches ActionView::Insert(_, _, o) ==> o.expires_in_ns == 0 && o.flags
            is None && o.persist_to == 0 && o.replicate_to == 0 && o.durability_level
            == DurabilityLevel::Unknown && o.timeout_ns is None,
        run::asked(v) matches ActionView::Upsert(_, _, o) ==> {
            &&& o.preserve_expiry <==> v.stage == Stage::RewritePreserve
            &&& o.persist_to > 0 <==> v.stage == Stage::PersistTo
            &&& o.flags is Some <==> v.stage == Stage::UpsertBinary
            &&& o.expires_in_ns > 0 <==> v.stage == Stage::UpsertWithExpiry || v.stage
                == Stage::SeedPreserve || v.stage == Stage::SeedExpiry
            &&& o.replicate_to == 0
            &&& o.durability_level == DurabilityLevel::Unknown
            &&& o.timeout_ns is None
        },
        run::asked(v) matches ActionView::Replace(_, _, o) ==> o.expires_in_ns == 0
            && !o.preserve_expiry && o.flags is None && o.persist_to == 0 && o.replicate_to == 0
            && o.durability_level == DurabilityLevel::Unknown && o.timeout_ns is None,
        run::asked(v) matches ActionView::Remove(_, Some(o)) ==> o.cas == 0 && o.persist_to == 0
            && o.replicate_to == 0 && o.durability_level == DurabilityLevel::Unknown
            && o.timeout_ns is None,
        run::asked(v) matches ActionView::Get(_, Some(o)) ==> {
            &&& o.with_expiry <==> v.stage == Stage::ReadPreserve || v.stage == Stage::ReadExpiry
            &&& o.project is Some <==> v.stage == Stage::GetProjected
            &&& o.timeout_ns is Some <==> v.stage == Stage::PerCallTimeout
            &&& o.use_replica is None
        },
        run::asked(v) matches ActionView::Touch(_, o) ==> (o.expires_in == 0 <==> v.stage
            == Stage::TouchZero) && o.timeout_ns is None,
        run::asked(v) matches ActionView::GetAndTouch(_, o) ==> o.expires_in > 0 && o.timeout_ns
            is None,
        run::asked(v) matches ActionView::Query(_, _, Some(o)) ==> {
            &&& o.readonly
            &&& o.scan_consistency == QueryScanConsistency::RequestPlus
            &&& o.consistent_with is Some <==> v.stage == Stage::QueryZeroed || v.stage
                == Stage::QueryWrongBucket || v.stage == Stage::QueryTokened
            &&& o.timeout_ns == 0
        },
{
}

/// Each step asks for the operation that it is named after.
pub proof fn lemma_steps_ask_for_their_operation(v: RunView)
    ensures
        run::asked(v) is Insert <==> v.stage == Stage::Insert || v.stage == Stage::InsertDuplicate,
        run::asked(v) is Upsert <==> v.stage == Stage::Upsert || v.stage == Stage::UpsertWithExpiry
            || v.stage == Stage::SeedPreserve || v.stage == Stage::RewritePreserve || v.stage
            == Stage::PersistTo || v.stage == Stage::UpsertTokened || v.stage == Stage::SeedExpiry
            || v.stage == Stage::UpsertBinary,
        run::asked(v) is Replace <==> v.stage == Stage::ReplaceStale || v.stage
            == Stage::ReplaceCurrent || v.stage == Stage::ReplaceAbsent,
        run::asked(v) is Remove <==> v.stage == Stage::Clear || v.stage == Stage::Remove || v.stage
            == Stage::RemoveAbsent || v.stage == Stage::ClearPreserve || v.stage
            == Stage::ClearExpiry,
        run::asked(v) is Get <==> v.stage == Stage::GetMissing || v.stage == Stage::Get || v.stage
            == Stage::GetProjected || v.stage == Stage::GetAfterRemove || v.stage
            == Stage::ReadPreserve || v.stage == Stage::PerCallTimeout || v.stage
            == Stage::ReadExpiry || v.stage == Stage::ReadBinary,
        run::asked(v) is Touch <==> v.stage == Stage::Touch || v.stage == Stage::TouchZero,
        run::asked(v) is GetAndTouch <==> v.stage == Stage::GetAndTouch,
        run::asked(v) is GetAndLock <==> v.stage == Stage::GetAndLock,
        run::asked(v) is Unlock <==> v.stage == Stage::UnlockUnsupported || v.stage
            == Stage::UnlockWrong || v.stage == Stage::UnlockRight,
        run::asked(v) is Nothing <==> v.stage == Stage::Done,
{
}

/// The document that an operation is on, where it is on one.
pub open spec fn on_document(a: ActionView) -> Option<Seq<char>> {
    match a {
        ActionView::Remove(id, _) => Some(id),
        ActionView::Get(id, _) => Some(id),
        ActionView::Insert(id, _, _) => Some(id),
        ActionView::Upsert(id, _, _) => Some(id),
        ActionView::Replace(id, _, _) => Some(id),
        ActionView::Touch(id, _) => Some(id),
        ActionView::GetAndTouch(id, _) => Some(id),
        ActionView::GetAndLock(id) => Some(id),
        ActionView::Unlock(id, _) => Some(id),
        ActionView::Query(_, _, _) => None,
        ActionView::Nothing => None,
    }
}

/// Steps that belong together are on one document, and what is read back is what
/// was written: the main document from its insert to its removal, the document
/// whose expiry is to be kept, the one whose expiry is read, and the binary one.
/// The steps that need a document that is not there name another.
pub proof fn lemma_steps_share_their_document(v: RunView, w: RunView)
    ensures
        run::rank(v.stage) <= 23 && run::rank(w.stage) <= 23 && on_document(run::asked(v)) is Some
            && on_document(run::asked(w)) is Some && v.stage != Stage::ReplaceAbsent && w.stage
            != Stage::ReplaceAbsent && v.stage != Stage::UpsertWithExpiry && w.stage
            != Stage::UpsertWithExpiry ==> on_document(run::asked(v)) == on_document(
            run::asked(w),
        ),
        25 <= run::rank(v.stage) <= 28 && 25 <= run::rank(w.stage) <= 28 ==> on_document(
            run::asked(v),
        ) == on_document(run::asked(w)),
        35 <= run::rank(v.stage) <= 37 && 35 <= run::rank(w.stage) <= 37 ==> on_document(
            run::asked(v),
        ) == on_document(run::asked(w)),
        v.stage == Stage::UpsertBinary && w.stage == Stage::ReadBinary ==> on_document(
            run::asked(v),
        ) == on_document(run::asked(w)) && (run::asked(v) matches ActionView::Upsert(_, d, _) && d
            == run::blob() && !valid_utf8(d)),
        v.stage == Stage::UpsertWithExpiry && w.stage == Stage::PerCallTimeout ==> on_document(
            run::asked(v),
        ) == on_document(run::asked(w)),
        v.stage == Stage::ReplaceAbsent && w.stage == Stage::Insert ==> on_document(run::asked(v))
            != on_document(run::asked(w)),
        v.stage == Stage::RemoveAbsent && w.stage == Stage::Insert ==> on_document(run::asked(v))
            != on_document(run::asked(w)),
{
    reveal_strlit("scenario:doc");
    reveal_strlit("scenario:absent");
    assert("scenario:doc"@.len() == 12 && "scenario:absent"@.len() == 15);
    let b = run::blob();
    reveal_with_fuel(valid_utf8, 2);
    assert(b.len() == 6);
    assert(b[0] == 0x00u8 && b[1] == 0xFFu8);
}

/// An error is named after its case, so that a step that should fail in a certain
/// way is told from one that failed in another.
pub proof fn lemma_errors_are_told_apart(e: ErrorView)
    ensures
        text::starts_with(report::described(e), "not-found"@) <==> e is NotFound,
        text::starts_with(report::described(e), "already-exists"@) <==> e is AlreadyExists,
        text::starts_with(report::described(e), "cas-mismatch"@) <==> e is CasMismatch,
        text::starts_with(report::described(e), "unsupported"@) <==> e is Unsupported,
        text::starts_with(report::described(e), "invalid-argument"@) <==> e is InvalidArgument,
{
    reveal_strlit("not-found");
    reveal_strlit("cas-mismatch");
    reveal_strlit("locked");
    reveal_strlit("not-locked");
    reveal_strlit("already-exists");
    reveal_strlit("not-json");
    reveal_strlit("path-not-found");
    reveal_strlit("path-invalid");
    reveal_strlit("path-too-deep");
    reveal_strlit("invalid-value");
    reveal_strlit("subdocument-delta-invalid");
    reveal_strlit("unauthorized");
    reveal_strlit("not-configured(");
    reveal_strlit("request-failed(");
    reveal_strlit("timeout");
    reveal_strlit("unsupported(");
    reveal_strlit("invalid-argument(");
    reveal_strlit("other(");
    reveal_strlit("unsupported");
    reveal_strlit("invalid-argument");
    reveal_strlit(")");
    let d = report::described(e);
    if text::starts_with(d, "not-found"@) {
        assert(d.take(9)[0] == 'n' && d.take(9)[4] == 'f');
    }
    if text::starts_with(d, "already-exists"@) {
        assert(d.take(14)[0] == 'a');
    }
    if text::starts_with(d, "cas-mismatch"@) {
        assert(d.take(12)[0] == 'c');
    }
    if text::starts_with(d, "unsupported"@) {
        assert(d.take(11)[0] == 'u' && d.take(11)[2] == 's');
    }
    if text::starts_with(d, "invalid-argument"@) {
        assert(d.take(16)[0] == 'i' && d.take(16)[8] == 'a');
    }
    match e {
        ErrorView::NotFound => {
            assert(d.take(9) =~= "not-found"@);
        },
        ErrorView::AlreadyExists => {
            assert(d.take(14) =~= "already-exists"@);
        },
        ErrorView::CasMismatch => {
            assert(d.take(12) =~= "cas-mismatch"@);
        },
        ErrorView::Unsupported(_) => {
            assert(d.take(11) =~= "unsupported"@);
        },
        ErrorView::InvalidArgument(_) => {
            assert(d.take(16) =~= "invalid-argument"@);
        },
        _ => {},
    }
}

} // verus!
