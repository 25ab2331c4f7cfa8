//! Which workload is bound to what.
//!
//! A plugin keeps one binding for each workload. A call is served with the
//! binding of the workload it comes from and no other.

use vstd::prelude::*;
use vstd::string::*;

use crate::text;
use crate::types::{DocumentError, ErrorView, InterfaceBinding, WorkloadInfo};

verus! {

/// Bindings by workload id.
pub struct Workloads<B> {
    entries: Vec<(String, B)>,
}

/// Whether no two entries have one id.
pub open spec fn distinct<B>(entries: Seq<(String, B)>) -> bool {
    forall|i: int, j: int|
        0 <= i < j < entries.len() ==> (#[trigger] entries[i]).0@ != (#[trigger] entries[j]).0@
}

/// The entries as a map from ids.
pub open spec fn table<B>(entries: Seq<(String, B)>) -> Map<Seq<char>, B>
    decreases entries.len(),
{
    if entries.len() == 0 {
        Map::empty()
    } else {
        table(entries.drop_last()).insert(entries.last().0@, entries.last().1)
    }
}

proof fn lemma_table<B>(entries: Seq<(String, B)>, id: Seq<char>)
    requires
        distinct(entries),
    ensures
        table(entries).contains_key(id) <==> exists|i: int|
            0 <= i < entries.len() && (#[trigger] entries[i]).0@ == id,
        forall|i: int|
            0 <= i < entries.len() && (#[trigger] entries[i]).0@ == id ==> table(entries)[id]
                == entries[i].1,
    decreases entries.len(),
{
    if entries.len() > 0 {
        let front = entries.drop_last();
        assert forall|i: int, j: int| 0 <= i < j < front.len() implies (#[trigger] front[i]).0@ != (
        #[trigger] front[j]).0@ by {
            assert(front[i] == entries[i] && front[j] == entries[j]);
        }
        lemma_table(front, id);
        let n = entries.len() - 1;
        if entries[n].0@ == id {
            assert forall|i: int| 0 <= i < entries.len() && (#[trigger] entries[i]).0@ == id implies i
                == n by {
                if i < n {
                    assert(entries[i].0@ != entries[n].0@);
                }
            }
        } else {
            assert forall|i: int| 0 <= i < entries.len() && (#[trigger] entries[i]).0@ == id implies
                table(entries)[id] == entries[i].1 by {
                assert(front[i] == entries[i]);
            }
            if table(entries).contains_key(id) {
                let i = choose|i: int| 0 <= i < front.len() && (#[trigger] front[i]).0@ == id;
                assert(entries[i] == front[i]);
            }
            if exists|i: int| 0 <= i < entries.len() && (#[trigger] entries[i]).0@ == id {
                let i = choose|i: int| 0 <= i < entries.len() && (#[trigger] entries[i]).0@ == id;
                assert(front[i] == entries[i]);
            }
        }
    }
}

impl<B> View for Workloads<B> {
    type V = Map<Seq<char>, B>;

    closed spec fn view(&self) -> Map<Seq<char>, B> {
        table(self.entries@)
    }
}

impl<B> Workloads<B> {
    #[verifier::type_invariant]
    spec fn well_formed(self) -> bool {
        distinct(self.entries@)
    }

    /// No workload is bound.
    pub fn new() -> (w: Self)
        ensures
            w@ == Map::<Seq<char>, B>::empty(),
    {
        Workloads { entries: Vec::new() }
    }

    /// The place of a workload's entry.
    fn find(&self, id: &str) -> (r: Option<usize>)
        ensures
            match r {
                Some(i) => i < self.entries@.len() && self.entries@[i as int].0@ == id@,
                None => forall|i: int|
                    0 <= i < self.entries@.len() ==> (#[trigger] self.entries@[i]).0@ != id@,
            },
    {
        let mut i: usize = 0;
        while i < self.entries.len()
            invariant
                i <= self.entries@.len(),
                forall|j: int| 0 <= j < i ==> (#[trigger] self.entries@[j]).0@ != id@,
            decreases self.entries@.len() - i,
        {
            if text::same_text(self.entries[i].0.as_str(), id) {
                return Some(i);
            }
            i += 1;
        }
        None
    }

    /// The binding of a workload, if it has one.
    pub fn get(&self, id: &str) -> (r: Option<&B>)
        ensures
            match r {
                Some(b) => self@.contains_key(id@) && self@[id@] == *b,
                None => !self@.contains_key(id@),
            },
    {
        proof {
            use_type_invariant(self);
            lemma_table(self.entries@, id@);
        }
        match self.find(id) {
            Some(i) => Some(&self.entries[i].1),
            None => None,
        }
    }

    /// Forget a workload. One that was never bound is no error.
    pub fn remove(&mut self, id: &str)
        ensures
            final(self)@ == old(self)@.remove(id@),
    {
        proof {
            use_type_invariant(&*self);
        }
        let ghost before = self.entries@;
        match self.find(id) {
            Some(i) => {
                let mut entries: Vec<(String, B)> = Vec::new();
                std::mem::swap(&mut entries, &mut self.entries);
                let _ = entries.remove(i);
                proof {
                    lemma_removed(before, i as int);
                }
                self.entries = entries;
            },
            None => {
                proof {
                    lemma_table(before, id@);
                    assert(self@ =~= old(self)@.remove(id@));
                }
            },
        }
    }

    /// Bind a workload, in place of an earlier binding of the same workload.
    pub fn insert(&mut self, id: String, binding: B)
        ensures
            final(self)@ == old(self)@.insert(id@, binding),
    {
        self.remove(id.as_str());
        proof {
            use_type_invariant(&*self);
            lemma_table(self.entries@, id@);
        }
        let ghost middle = self.entries@;
        let ghost key = id@;
        let mut entries: Vec<(String, B)> = Vec::new();
        std::mem::swap(&mut entries, &mut self.entries);
        entries.push((id, binding));
        proof {
            assert(entries@.drop_last() =~= middle);
            assert(!table(middle).contains_key(key));
            assert forall|i: int, j: int| 0 <= i < j < entries@.len() implies (
            #[trigger] entries@[i]).0@ != (#[trigger] entries@[j]).0@ by {
                assert(entries@[i] == middle[i]);
                if j < middle.len() {
                    assert(entries@[j] == middle[j]);
                }
            }
        }
        self.entries = entries;
        assert(self@ =~= old(self)@.insert(key, binding));
    }
}

proof fn lemma_removed<B>(entries: Seq<(String, B)>, i: int)
    requires
        distinct(entries),
        0 <= i < entries.len(),
    ensures
        distinct(entries.remove(i)),
        table(entries.remove(i)) == table(entries).remove(entries[i].0@),
    decreases entries.len(),
{
    let id = entries[i].0@;
    let rest = entries.remove(i);
    assert forall|a: int, b: int| 0 <= a < b < rest.len() implies (#[trigger] rest[a]).0@ != (
    #[trigger] rest[b]).0@ by {
        let x = if a < i {
            a
        } else {
            a + 1
        };
        let y = if b < i {
            b
        } else {
            b + 1
        };
        assert(rest[a] == entries[x] && rest[b] == entries[y]);
    }
    let front = entries.drop_last();
    let n = entries.len() - 1;
    assert forall|a: int, b: int| 0 <= a < b < front.len() implies (#[trigger] front[a]).0@ != (
    #[trigger] front[b]).0@ by {
        assert(front[a] == entries[a] && front[b] == entries[b]);
    }
    if i == n {
        assert(rest =~= front);
        lemma_table(front, id);
        assert(!table(front).contains_key(id)) by {
            if table(front).contains_key(id) {
                let k = choose|k: int| 0 <= k < front.len() && (#[trigger] front[k]).0@ == id;
                assert(entries[k].0@ != entries[n].0@);
            }
        }
        assert(table(rest) =~= table(entries).remove(id));
    } else {
        lemma_removed(front, i);
        assert(rest.drop_last() =~= front.remove(i));
        assert(rest.last() == entries.last());
        assert(entries[i].0@ != entries[n].0@);
        assert(table(rest) =~= table(entries).remove(id));
    }
}

/// Binding or forgetting one workload leaves every other workload's binding as
/// it was.
pub proof fn lemma_workloads_are_isolated<B>(
    before: Map<Seq<char>, B>,
    bound: Seq<char>,
    binding: B,
    other: Seq<char>,
)
    requires
        other != bound,
    ensures
        before.insert(bound, binding).contains_key(other) == before.contains_key(other),
        before.contains_key(other) ==> before.insert(bound, binding)[other] == before[other],
        before.remove(bound).contains_key(other) == before.contains_key(other),
        before.contains_key(other) ==> before.remove(bound)[other] == before[other],
{
}

/// Announcing a workload twice is the same as announcing it once.
pub proof fn lemma_bind_is_idempotent<B>(before: Map<Seq<char>, B>, id: Seq<char>, binding: B)
    ensures
        before.insert(id, binding).insert(id, binding) == before.insert(id, binding),
{
    assert(before.insert(id, binding).insert(id, binding) =~= before.insert(id, binding));
}

/// Why a caller has no binding, if it has none.
pub open spec fn caller_error<B>(bound: Map<Seq<char>, B>, workload: Seq<char>) -> Option<
    ErrorView,
> {
    if workload.len() == 0 {
        Some(
            ErrorView::NotConfigured(
                "no in-flight caller: wasmcloud:couchbase can only be used from a workload's capability call"@,
            ),
        )
    } else if !bound.contains_key(workload) {
        Some(
            ErrorView::NotConfigured(
                "workload `"@ + workload
                    + "` has no wasmcloud:couchbase binding on this plugin"@,
            ),
        )
    } else {
        None
    }
}

/// The binding of the workload that a call comes from.
pub fn caller_binding<'a, B>(bound: &'a Workloads<B>, workload: &str) -> (r: Result<
    &'a B,
    DocumentError,
>)
    ensures
        match r {
            Ok(b) => caller_error(bound@, workload@) is None && bound@[workload@] == *b,
            Err(e) => caller_error(bound@, workload@) == Some(e@),
        },
{
    let cs = text::chars_of(workload);
    if cs.len() == 0 {
        return Err(
            DocumentError::NotConfigured(
                "no in-flight caller: wasmcloud:couchbase can only be used from a workload's capability call".to_string(),
            ),
        );
    }
    match bound.get(workload) {
        Some(b) => Ok(b),
        None => Err(
            DocumentError::NotConfigured(
                text::joined3(
                    "workload `",
                    workload,
                    "` has no wasmcloud:couchbase binding on this plugin",
                ),
            ),
        ),
    }
}

/// Whether an interface is the one these plugins serve.
pub open spec fn is_couchbase(i: InterfaceBinding) -> bool {
    i.namespace@ == "wasmcloud"@ && i.package@ == "couchbase"@
}

/// The first interface among a workload's that these plugins serve.
pub open spec fn served(interfaces: Seq<InterfaceBinding>) -> Option<InterfaceBinding>
    decreases interfaces.len(),
{
    if interfaces.len() == 0 {
        None
    } else if is_couchbase(interfaces[0]) {
        Some(interfaces[0])
    } else {
        served(interfaces.drop_first())
    }
}

/// The interface that these plugins serve, among a workload's.
pub fn couchbase_interface(workload: &WorkloadInfo) -> (r: Option<&InterfaceBinding>)
    ensures
        match r {
            Some(i) => served(workload.interfaces@) == Some(*i),
            None => served(workload.interfaces@) is None,
        },
{
    let all = &workload.interfaces;
    assert(all@.skip(0) =~= all@);
    let mut i: usize = 0;
    while i < all.len()
        invariant
            i <= all@.len(),
            *all == workload.interfaces,
            served(all@) == served(all@.skip(i as int)),
        decreases all@.len() - i,
    {
        assert(all@.skip(i as int)[0] == all@[i as int]);
        if text::same_text(all[i].namespace.as_str(), "wasmcloud") && text::same_text(
            all[i].package.as_str(),
            "couchbase",
        ) {
            return Some(&all[i]);
        }
        assert(all@.skip(i as int).drop_first() =~= all@.skip(i + 1));
        i += 1;
    }
    None
}

/// What a deploy shows when a workload's configuration is refused.
pub open spec fn refusal(
    name: Seq<char>,
    namespace: Seq<char>,
    reason: Seq<char>,
) -> Seq<char> {
    "workload `"@ + name + "` in namespace `"@ + namespace + "`: wasmcloud:couchbase "@ + reason
}

/// The message for a workload whose configuration is refused.
pub fn refusal_message(workload: &WorkloadInfo, reason: &str) -> (s: String)
    ensures
        s@ == refusal(workload.name@, workload.namespace@, reason@),
{
    let mut s = text::joined3("workload `", workload.name.as_str(), "` in namespace `");
    s.append(workload.namespace.as_str());
    s.append("`: wasmcloud:couchbase ");
    s.append(reason);
    s
}

/// What a deploy shows when a workload's cluster cannot be reached.
pub open spec fn unreachable_text(
    name: Seq<char>,
    endpoint: Seq<char>,
    reason: Seq<char>,
) -> Seq<char> {
    "workload `"@ + name + "`: could not reach Couchbase at `"@ + endpoint + "`: "@ + reason
}

/// The message for a workload whose cluster cannot be reached.
pub fn unreachable_message(workload: &WorkloadInfo, endpoint: &str, reason: &str) -> (s: String)
    ensures
        s@ == unreachable_text(workload.name@, endpoint@, reason@),
{
    let mut s = text::joined3("workload `", workload.name.as_str(), "`: could not reach Couchbase at `");
    s.append(endpoint);
    s.append("`: ");
    s.append(reason);
    s
}

/// A workload is served through its first `wasmcloud:couchbase` interface, and
/// through none where it has none.
pub proof fn lemma_first_interface_is_served(interfaces: Seq<InterfaceBinding>, i: int)
    requires
        0 <= i <= interfaces.len(),
        forall|j: int|
            0 <= j < i ==> (#[trigger] interfaces[j]).namespace@ != "wasmcloud"@
                || interfaces[j].package@ != "couchbase"@,
    ensures
        i == interfaces.len() ==> served(interfaces) is None,
        i < interfaces.len() && interfaces[i].namespace@ == "wasmcloud"@ && interfaces[i].package@
            == "couchbase"@ ==> served(interfaces) == Some(interfaces[i]),
    decreases i,
{
    if i > 0 {
        let rest = interfaces.drop_first();
        assert(interfaces[0].namespace@ != "wasmcloud"@ || interfaces[0].package@
            != "couchbase"@);
        assert forall|j: int| 0 <= j < i - 1 implies (#[trigger] rest[j]).namespace@
            != "wasmcloud"@ || rest[j].package@ != "couchbase"@ by {
            assert(rest[j] == interfaces[j + 1]);
        }
        lemma_first_interface_is_served(rest, i - 1);
        if i < interfaces.len() {
            assert(rest[i - 1] == interfaces[i]);
        }
    }
}

/// A call is served exactly when it names a workload that is bound; any other is
/// told that it is not configured.
pub proof fn lemma_only_bound_callers_are_served<B>(
    bound: Map<Seq<char>, B>,
    workload: Seq<char>,
)
    ensures
        caller_error(bound, workload) is None <==> workload.len() > 0 && bound.contains_key(
            workload,
        ),
        caller_error(bound, workload) matches Some(e) ==> e is NotConfigured,
{
}

} // verus!
