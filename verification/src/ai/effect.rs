//! The proposal queue and the policy that applies intents at once or
//! queues them for the user.

use vstd::prelude::*;

use crate::ai::intent::{AiIntent, IntentStatus, ToolReceipt};
use crate::ai::mutator::ProjectMutator;
use crate::ids::{id_text, id_text_of};
use crate::models::block::BlockType;
use crate::storage::paths::{rel_join, rel_join_spec};
use crate::text::{chars_of, push_str, string_of};

verus! {

/// An intent waiting for the user, and whether its target has changed
/// since it was made.
#[derive(Debug, Clone)]
pub struct Proposal {
    pub intent: AiIntent,
    pub stale: bool,
}

/// The queue of proposals, filled while changes are not applied at once.
#[derive(Debug)]
pub struct ProposalStore {
    proposals: Vec<Proposal>,
}

impl View for ProposalStore {
    type V = Seq<Proposal>;

    closed spec fn view(&self) -> Seq<Proposal> {
        self.proposals@
    }
}

/// The position of the first proposal of `s` whose intent has id `id`.
pub open spec fn index_of_intent(s: Seq<Proposal>, id: u128) -> Option<int> {
    if exists|i: int| 0 <= i < s.len() && s[i].intent.spec_intent_id() == id {
        Some(
            choose|i: int|
                0 <= i < s.len() && s[i].intent.spec_intent_id() == id && forall|k: int|
                    0 <= k < i ==> s[k].intent.spec_intent_id() != id,
        )
    } else {
        None
    }
}

/// The intent ids of a list of proposals, in order.
pub open spec fn ids_of(s: Seq<Proposal>) -> Seq<u128> {
    s.map_values(|p: Proposal| p.intent.spec_intent_id())
}

impl Default for ProposalStore {
    /// An empty queue.
    fn default() -> (r: Self)
        ensures
            r@.len() == 0,
    {
        ProposalStore { proposals: Vec::new() }
    }
}

impl ProposalStore {
    /// The number of queued proposals.
    pub fn len(&self) -> (r: usize)
        ensures
            r == self@.len(),
    {
        self.proposals.len()
    }

    /// Whether the queue is empty.
    pub fn is_empty(&self) -> (r: bool)
        ensures
            r == (self@.len() == 0),
    {
        self.proposals.len() == 0
    }

    /// Adds a proposal at the end of the queue.
    pub fn push(&mut self, proposal: Proposal)
        ensures
            final(self)@ == old(self)@.push(proposal),
    {
        self.proposals.push(proposal);
    }

    fn position(&self, intent_id: u128) -> (r: Option<usize>)
        ensures
            r matches Some(i) ==> index_of_intent(self@, intent_id) == Some(i as int),
            r matches Some(i) ==> i < self@.len(),
            r is None ==> index_of_intent(self@, intent_id) is None,
    {
        let mut i: usize = 0;
        while i < self.proposals.len()
            invariant
                i <= self@.len(),
                self@ == self.proposals@,
                forall|k: int| 0 <= k < i ==> self@[k].intent.spec_intent_id() != intent_id,
            decreases self.proposals.len() - i,
        {
            if self.proposals[i].intent.intent_id() == intent_id {
                proof {
                    let w = choose|x: int|
                        0 <= x < self@.len() && self@[x].intent.spec_intent_id() == intent_id && forall|k: int|
                            0 <= k < x ==> self@[k].intent.spec_intent_id() != intent_id;
                    if w < i {
                    } else if w > i {
                    }
                }
                return Some(i);
            }
            i = i + 1;
        }
        None
    }

    /// The first proposal with the given intent id.
    pub fn get(&self, intent_id: u128) -> (r: Option<&Proposal>)
        ensures
            r matches Some(p) ==> (index_of_intent(self@, intent_id) matches Some(i) && *p == self@[i]),
            r is None ==> index_of_intent(self@, intent_id) is None,
    {
        match self.position(intent_id) {
            Some(i) => Some(&self.proposals[i]),
            None => None,
        }
    }

    /// The first proposal with the given intent id, to change in place.
    pub fn get_mut(&mut self, intent_id: u128) -> (r: Option<&mut Proposal>)
        ensures
            index_of_intent(old(self)@, intent_id) is None ==> r is None && final(self)@ == old(self)@,
            index_of_intent(old(self)@, intent_id) is Some ==> r is Some && *r->0 == old(self)@[index_of_intent(
                old(self)@,
                intent_id,
            )->0] && final(self)@ == old(self)@.update(index_of_intent(old(self)@, intent_id)->0, *final(r->0)),
    {
        match self.position(intent_id) {
            Some(i) => Some(&mut self.proposals[i]),
            None => None,
        }
    }

    /// Marks the first proposal with the given intent id as stale; returns
    /// whether there was one.
    pub fn mark_stale(&mut self, intent_id: u128) -> (r: bool)
        ensures
            r == index_of_intent(old(self)@, intent_id) is Some,
            index_of_intent(old(self)@, intent_id) matches Some(i) ==> final(self)@ == old(self)@.update(
                i,
                Proposal { intent: old(self)@[i].intent, stale: true },
            ),
            index_of_intent(old(self)@, intent_id) is None ==> final(self)@ == old(self)@,
    {
        match self.position(intent_id) {
            Some(i) => {
                let mut p = self.proposals.remove(i);
                p.stale = true;
                self.proposals.insert(i, p);
                assert(self.proposals@ =~= old(self)@.update(i as int, Proposal { intent: old(self)@[i as int].intent, stale: true }));
                true
            },
            None => false,
        }
    }

    /// Takes the first proposal with the given intent id out of the queue.
    pub fn remove(&mut self, intent_id: u128) -> (r: Option<Proposal>)
        ensures
            index_of_intent(old(self)@, intent_id) matches Some(i) ==> r == Some(old(self)@[i]) && final(self)@
                == old(self)@.remove(i),
            index_of_intent(old(self)@, intent_id) is None ==> r is None && final(self)@ == old(self)@,
    {
        match self.position(intent_id) {
            Some(i) => Some(self.proposals.remove(i)),
            None => None,
        }
    }

    /// The intent ids of the queued proposals, in order.
    pub fn intent_ids(&self) -> (r: Vec<u128>)
        ensures
            r@ == ids_of(self@),
    {
        let mut out: Vec<u128> = Vec::new();
        let mut i: usize = 0;
        while i < self.proposals.len()
            invariant
                i <= self@.len(),
                self@ == self.proposals@,
                out@ == ids_of(self@).take(i as int),
            decreases self.proposals.len() - i,
        {
            out.push(self.proposals[i].intent.intent_id());
            i = i + 1;
            assert(out@ =~= ids_of(self@).take(i as int));
        }
        assert(ids_of(self@).take(i as int) =~= ids_of(self@));
        out
    }

    /// Empties the queue.
    pub fn clear(&mut self)
        ensures
            final(self)@.len() == 0,
    {
        self.proposals.clear();
    }

    /// The queued proposals, in order.
    pub fn iter(&self) -> (r: &[Proposal])
        ensures
            r@ == self@,
    {
        self.proposals.as_slice()
    }
}

/// Why a proposal could not be applied or discarded.
#[derive(Debug, Clone, PartialEq, Eq)]
pub enum ProposalError {
    /// No queued proposal has this intent id.
    NotFound(u128),
    /// The back end refused the intent, with its message.
    Failed(String),
}

impl ProposalError {
    /// A one-line description of the error.
    pub fn message(&self) -> (r: String)
        ensures
            (*self matches ProposalError::NotFound(id) ==> r@ == "proposal "@ + id_text_of(id) + " not found"@),
            (*self matches ProposalError::Failed(m) ==> r@ == m@),
    {
        match self {
            ProposalError::NotFound(id) => {
                let mut v: Vec<char> = Vec::new();
                push_str(&mut v, "proposal ");
                push_str(&mut v, &id_text(*id));
                push_str(&mut v, " not found");
                string_of(v.as_slice())
            },
            ProposalError::Failed(m) => m.clone(),
        }
    }
}

/// The proposal after a failed application: a replacement whose targets
/// are gone is marked stale.
pub open spec fn after_failure(p: Proposal) -> Proposal {
    Proposal { intent: p.intent, stale: p.stale || p.intent is ReplaceBlocks }
}

/// How the queue and the result follow the back end's answer `out` for
/// the proposal at `i`: on success it leaves the queue, on failure it stays
/// (marked stale when a replacement) and the back end's message is
/// returned.
pub open spec fn proposal_step(before: Seq<Proposal>, i: int, out: Result<(), String>, r: Result<(), ProposalError>, after: Seq<Proposal>) -> bool {
    match out {
        Ok(_) => r is Ok && after == before.remove(i),
        Err(e) => r == Err::<(), ProposalError>(ProposalError::Failed(e)) && after == before.update(i, after_failure(before[i])),
    }
}

/// The back end went from `m0` to `m1` applying the intent of the proposal
/// at `i`, and the queue and the result follow its answer.
pub open spec fn proposal_applied<M: ProjectMutator>(
    before: Seq<Proposal>,
    i: int,
    m0: M,
    r: Result<(), ProposalError>,
    after: Seq<Proposal>,
    m1: M,
) -> bool {
    exists|out: Result<(), String>|
        #![trigger m0.apply_outcome(before[i].intent, out, &m1)]
        m0.apply_outcome(before[i].intent, out, &m1) && proposal_step(before, i, out, r, after)
}

/// Applies the first queued proposal with the given intent id through the
/// back end: on success it leaves the queue; on failure it stays, marked
/// stale when it was a replacement (nothing is applied in part).
pub fn apply_proposal<M: ProjectMutator>(intent_id: u128, store: &mut ProposalStore, mutator: &mut M) -> (r: Result<(), ProposalError>)
    ensures
        index_of_intent(old(store)@, intent_id) is None ==> r == Err::<(), ProposalError>(ProposalError::NotFound(intent_id))
            && final(store)@ == old(store)@ && *final(mutator) == *old(mutator),
        (index_of_intent(old(store)@, intent_id) matches Some(i) ==> proposal_applied(
            old(store)@,
            i,
            *old(mutator),
            r,
            final(store)@,
            *final(mutator),
        )),
        (index_of_intent(old(store)@, intent_id) matches Some(i) ==> (r is Ok ==> final(store)@ == old(store)@.remove(i))),
        (index_of_intent(old(store)@, intent_id) matches Some(i) ==> (r is Err ==> (r matches Err(ProposalError::Failed(_)))
            && final(store)@ == old(store)@.update(i, after_failure(old(store)@[i])))),
        final(store)@.len() <= old(store)@.len(),
{
    let i = match store.position(intent_id) {
        Some(i) => i,
        None => return Err(ProposalError::NotFound(intent_id)),
    };
    let outcome = mutator.apply(&store.proposals[i].intent);
    match outcome {
        Ok(()) => {
            store.proposals.remove(i);
            Ok(())
        },
        Err(e) => {
            let is_replace = match &store.proposals[i].intent {
                AiIntent::ReplaceBlocks { .. } => true,
                _ => false,
            };
            if is_replace {
                let mut p = store.proposals.remove(i);
                p.stale = true;
                store.proposals.insert(i, p);
            }
            assert(store@ =~= old(store)@.update(i as int, after_failure(old(store)@[i as int])));
            Err(ProposalError::Failed(e))
        },
    }
}

/// Drops the first queued proposal with the given intent id.
pub fn discard_proposal(intent_id: u128, store: &mut ProposalStore) -> (r: Result<(), ProposalError>)
    ensures
        index_of_intent(old(store)@, intent_id) matches Some(i) ==> r is Ok && final(store)@ == old(store)@.remove(i),
        index_of_intent(old(store)@, intent_id) is None ==> r == Err::<(), ProposalError>(ProposalError::NotFound(intent_id))
            && final(store)@ == old(store)@,
{
    match store.remove(intent_id) {
        Some(_) => Ok(()),
        None => Err(ProposalError::NotFound(intent_id)),
    }
}

/// Queuing a proposal whose intent id is not yet queued and then
/// discarding that id gives back the queue as it was: the new proposal is
/// the one found, at the end, and removing it restores the queue.
pub proof fn law_discard_undoes_push(s: Seq<Proposal>, p: Proposal)
    requires
        forall|k: int| 0 <= k < s.len() ==> s[k].intent.spec_intent_id() != p.intent.spec_intent_id(),
    ensures
        index_of_intent(s.push(p), p.intent.spec_intent_id()) == Some(s.len() as int),
        s.push(p).remove(s.len() as int) == s,
{
    let t = s.push(p);
    let id = p.intent.spec_intent_id();
    assert(t[s.len() as int] == p);
    assert(forall|k: int| 0 <= k < s.len() ==> t[k] == s[k]);
    let w = choose|i: int|
        0 <= i < t.len() && t[i].intent.spec_intent_id() == id && forall|k: int|
            0 <= k < i ==> t[k].intent.spec_intent_id() != id;
    assert(0 <= s.len() < t.len() && t[s.len() as int].intent.spec_intent_id() == id && forall|k: int|
        0 <= k < s.len() ==> t[k].intent.spec_intent_id() != id);
    assert(w == s.len());
    assert(t.remove(s.len() as int) =~= s);
}

/// Some proposal of `orig` carries the intent `a`.
pub open spec fn has_intent(orig: Seq<Proposal>, a: AiIntent) -> bool {
    exists|i: int| 0 <= i < orig.len() && #[trigger] orig[i].intent == a
}

/// Every proposal of `s` carries an intent found in `orig`.
pub open spec fn intents_from(s: Seq<Proposal>, orig: Seq<Proposal>) -> bool {
    forall|j: int| 0 <= j < s.len() ==> has_intent(orig, #[trigger] s[j].intent)
}

proof fn lemma_first_intent_from(s: Seq<Proposal>, id: u128, from: int)
    requires
        0 <= from <= s.len(),
        forall|k: int| 0 <= k < from ==> s[k].intent.spec_intent_id() != id,
        exists|i: int| from <= i < s.len() && s[i].intent.spec_intent_id() == id,
    ensures
        exists|i: int|
            0 <= i < s.len() && s[i].intent.spec_intent_id() == id && forall|k: int|
                0 <= k < i ==> s[k].intent.spec_intent_id() != id,
    decreases s.len() - from,
{
    if s[from].intent.spec_intent_id() == id {
        assert(forall|k: int| 0 <= k < from ==> s[k].intent.spec_intent_id() != id);
    } else {
        lemma_first_intent_from(s, id, from + 1);
    }
}

proof fn lemma_index_of_intent(s: Seq<Proposal>, id: u128)
    ensures
        index_of_intent(s, id) matches Some(i) ==> 0 <= i < s.len() && s[i].intent.spec_intent_id() == id,
{
    if exists|i: int| 0 <= i < s.len() && s[i].intent.spec_intent_id() == id {
        lemma_first_intent_from(s, id, 0);
    }
}

proof fn lemma_intents_from_self(s: Seq<Proposal>)
    ensures
        intents_from(s, s),
{
    assert forall|j: int| 0 <= j < s.len() implies has_intent(s, #[trigger] s[j].intent) by {
        assert(s[j].intent == s[j].intent);
    }
}

proof fn lemma_intents_after_step(before: Seq<Proposal>, after: Seq<Proposal>, orig: Seq<Proposal>, i: int)
    requires
        intents_from(before, orig),
        0 <= i < before.len(),
        after == before.remove(i) || after == before.update(i, after_failure(before[i])),
    ensures
        intents_from(after, orig),
{
    assert forall|j: int| 0 <= j < after.len() implies has_intent(orig, #[trigger] after[j].intent) by {
        if after == before.remove(i) {
            if j < i {
                assert(after[j] == before[j]);
            } else {
                assert(after[j] == before[j + 1]);
            }
        } else {
            assert(after[j].intent == before[j].intent);
        }
    }
}

/// Removing a proposal removes its id from the queue's id list; marking a
/// proposal after a failure leaves the id list as it was.
proof fn lemma_ids_after_step(before: Seq<Proposal>, i: int)
    requires
        0 <= i < before.len(),
    ensures
        ids_of(before.remove(i)) == ids_of(before).remove(i),
        ids_of(before.update(i, after_failure(before[i]))) == ids_of(before),
{
    assert(ids_of(before.remove(i)) =~= ids_of(before).remove(i));
    assert(ids_of(before.update(i, after_failure(before[i]))) =~= ids_of(before));
}

/// The ids still to visit are all among the queued ones: the id at the
/// front is queued, and after one step (removal of one proposal with that
/// id, or no change to the ids) the rest still are.
proof fn lemma_pending_ids_step(pending: Seq<u128>, queued: Seq<u128>, queued_after: Seq<u128>, i: int)
    requires
        pending.len() > 0,
        pending.to_multiset().subset_of(queued.to_multiset()),
        queued_after == queued || (0 <= i < queued.len() && queued[i] == pending[0] && queued_after == queued.remove(i)),
    ensures
        queued.contains(pending[0]),
        pending.skip(1).to_multiset().subset_of(queued_after.to_multiset()),
{
    broadcast use vstd::seq_lib::group_to_multiset_ensures;
    broadcast use vstd::multiset::group_multiset_axioms;

    let x = pending[0];
    assert(pending.contains(x));
    assert(pending.to_multiset().count(x) > 0);
    assert(queued.to_multiset().count(x) > 0);
    assert(pending.remove(0) =~= pending.skip(1));
    assert(pending.skip(1).to_multiset() == pending.to_multiset().remove(x));
    if queued_after == queued {
        assert forall|a: u128| #[trigger] pending.skip(1).to_multiset().count(a) <= queued_after.to_multiset().count(a) by {
            assert(pending.to_multiset().count(a) <= queued.to_multiset().count(a));
        }
    } else {
        assert(queued_after.to_multiset() == queued.to_multiset().remove(x));
        assert forall|a: u128| #[trigger] pending.skip(1).to_multiset().count(a) <= queued_after.to_multiset().count(a) by {
            assert(pending.to_multiset().count(a) <= queued.to_multiset().count(a));
        }
    }
}

/// The proposals among the first `n` of `props` whose answer in `outs`
/// was a failure, in order, as they stay queued afterwards.
pub open spec fn kept_after(props: Seq<Proposal>, outs: Seq<Result<(), String>>, n: int) -> Seq<Proposal>
    decreases n,
{
    if n <= 0 {
        Seq::empty()
    } else if outs[n - 1] is Err {
        kept_after(props, outs, n - 1).push(after_failure(props[n - 1]))
    } else {
        kept_after(props, outs, n - 1)
    }
}

/// The message of the last failure among the first `n` answers.
pub open spec fn last_failure(outs: Seq<Result<(), String>>, n: int) -> Option<String>
    decreases n,
{
    if n <= 0 {
        None
    } else {
        match outs[n - 1] {
            Err(e) => Some(e),
            Ok(_) => last_failure(outs, n - 1),
        }
    }
}

/// The result of applying a whole queue whose answers were `outs`.
pub open spec fn all_result(outs: Seq<Result<(), String>>) -> Result<(), ProposalError> {
    match last_failure(outs, outs.len() as int) {
        Some(e) => Err(ProposalError::Failed(e)),
        None => Ok(()),
    }
}

/// The back end went through the states `ms`, answering `outs[k]` when the
/// intent of `props[k]` was applied to `ms[k]`, one proposal after the
/// other.
pub open spec fn applied_in_turn<M: ProjectMutator>(props: Seq<Proposal>, outs: Seq<Result<(), String>>, ms: Seq<M>) -> bool {
    &&& outs.len() == props.len()
    &&& ms.len() == props.len() + 1
    &&& forall|k: int| 0 <= k < props.len() ==> #[trigger] ms[k].apply_outcome(props[k].intent, outs[k], &ms[k + 1])
}

/// The back end went from `m0` to `m1` applying every proposal of
/// `before` once, in order; exactly the failed ones stay, in order, and
/// the result is `Ok` when all succeeded, else the last failure.
pub open spec fn queue_applied<M: ProjectMutator>(
    before: Seq<Proposal>,
    m0: M,
    r: Result<(), ProposalError>,
    after: Seq<Proposal>,
    m1: M,
) -> bool {
    exists|outs: Seq<Result<(), String>>, ms: Seq<M>|
        #![trigger applied_in_turn(before, outs, ms)]
        applied_in_turn(before, outs, ms) && ms[0] == m0 && ms.last() == m1 && after == kept_after(
            before,
            outs,
            outs.len() as int,
        ) && r == all_result(outs) && (r is Ok <==> forall|k: int| 0 <= k < outs.len() ==> #[trigger] outs[k] is Ok)
}

proof fn lemma_kept_prefix(props: Seq<Proposal>, outs: Seq<Result<(), String>>, outs2: Seq<Result<(), String>>, n: int)
    requires
        0 <= n <= outs.len(),
        n <= outs2.len(),
        forall|j: int| 0 <= j < n ==> outs[j] == outs2[j],
    ensures
        kept_after(props, outs, n) == kept_after(props, outs2, n),
        last_failure(outs, n) == last_failure(outs2, n),
    decreases n,
{
    if n > 0 {
        lemma_kept_prefix(props, outs, outs2, n - 1);
    }
}

proof fn lemma_kept_ids(props: Seq<Proposal>, outs: Seq<Result<(), String>>, n: int, id: u128)
    requires
        0 <= n <= props.len(),
        forall|j: int| 0 <= j < n ==> props[j].intent.spec_intent_id() != id,
    ensures
        forall|t: int| 0 <= t < kept_after(props, outs, n).len() ==> #[trigger] kept_after(props, outs, n)[t].intent.spec_intent_id() != id,
        kept_after(props, outs, n).len() <= n,
    decreases n,
{
    if n > 0 {
        lemma_kept_ids(props, outs, n - 1, id);
    }
}

proof fn lemma_last_failure_none(outs: Seq<Result<(), String>>, n: int)
    requires
        0 <= n <= outs.len(),
    ensures
        last_failure(outs, n) is None <==> forall|k: int| 0 <= k < n ==> #[trigger] outs[k] is Ok,
    decreases n,
{
    if n > 0 {
        lemma_last_failure_none(outs, n - 1);
    }
}

/// With distinct intent ids, the `k`-th queued proposal sits right after
/// the failed ones kept so far, and is the first with its id.
proof fn lemma_next_index(orig: Seq<Proposal>, outs: Seq<Result<(), String>>, k: int, before: Seq<Proposal>)
    requires
        ids_of(orig).no_duplicates(),
        0 <= k < orig.len(),
        outs.len() == k,
        before == kept_after(orig, outs, k) + orig.skip(k),
    ensures
        index_of_intent(before, orig[k].intent.spec_intent_id()) == Some(kept_after(orig, outs, k).len() as int),
        before[kept_after(orig, outs, k).len() as int] == orig[k],
{
    let id = orig[k].intent.spec_intent_id();
    let kept = kept_after(orig, outs, k);
    assert forall|j: int| 0 <= j < k implies orig[j].intent.spec_intent_id() != id by {
        assert(ids_of(orig)[j] == orig[j].intent.spec_intent_id());
        assert(ids_of(orig)[k] == id);
    }
    lemma_kept_ids(orig, outs, k, id);
    let p = kept.len() as int;
    assert(before[p] == orig[k]);
    assert forall|t: int| 0 <= t < p implies before[t].intent.spec_intent_id() != id by {
        assert(before[t] == kept[t]);
    }
    let w = choose|x: int|
        0 <= x < before.len() && before[x].intent.spec_intent_id() == id && forall|j: int|
            0 <= j < x ==> before[j].intent.spec_intent_id() != id;
    assert(0 <= p < before.len() && before[p].intent.spec_intent_id() == id);
    if w < p {
        assert(before[w] == kept[w]);
    } else if w > p {
    }
}

/// One step of applying the queue: the queue afterwards is the failed
/// ones so far, then the rest.
proof fn lemma_apply_all_step(
    orig: Seq<Proposal>,
    outs: Seq<Result<(), String>>,
    k: int,
    before: Seq<Proposal>,
    out: Result<(), String>,
    r: Result<(), ProposalError>,
    after: Seq<Proposal>,
)
    requires
        0 <= k < orig.len(),
        outs.len() == k,
        before == kept_after(orig, outs, k) + orig.skip(k),
        before[kept_after(orig, outs, k).len() as int] == orig[k],
        proposal_step(before, kept_after(orig, outs, k).len() as int, out, r, after),
    ensures
        after == kept_after(orig, outs.push(out), k + 1) + orig.skip(k + 1),
        last_failure(outs.push(out), k + 1) == (match out {
            Err(e) => Some(e),
            Ok(_) => last_failure(outs, k),
        }),
{
    let o2 = outs.push(out);
    lemma_kept_prefix(orig, outs, o2, k);
    let kept = kept_after(orig, outs, k);
    let p = kept.len() as int;
    match out {
        Ok(_) => {
            assert(after =~= kept + orig.skip(k + 1));
        },
        Err(_) => {
            assert(after =~= kept.push(after_failure(orig[k])) + orig.skip(k + 1));
        },
    }
}

/// One more answer of the back end extends the record of the run.
proof fn lemma_extend_chain<M: ProjectMutator>(
    orig: Seq<Proposal>,
    outs: Seq<Result<(), String>>,
    ms: Seq<M>,
    k: int,
    before: Seq<Proposal>,
    m_before: M,
    r: Result<(), ProposalError>,
    after: Seq<Proposal>,
    m_after: M,
) -> (res: (Seq<Result<(), String>>, Seq<M>))
    requires
        0 <= k < orig.len(),
        outs.len() == k,
        ms.len() == k + 1,
        ms[k] == m_before,
        forall|j: int| 0 <= j < k ==> #[trigger] ms[j].apply_outcome(orig[j].intent, outs[j], &ms[j + 1]),
        before == kept_after(orig, outs, k) + orig.skip(k),
        before[kept_after(orig, outs, k).len() as int] == orig[k],
        proposal_applied(before, kept_after(orig, outs, k).len() as int, m_before, r, after, m_after),
    ensures
        res.0.len() == k + 1,
        res.1.len() == k + 2,
        res.1[0] == ms[0],
        res.1[k + 1] == m_after,
        forall|j: int| 0 <= j < k + 1 ==> #[trigger] res.1[j].apply_outcome(orig[j].intent, res.0[j], &res.1[j + 1]),
        after == kept_after(orig, res.0, k + 1) + orig.skip(k + 1),
        (match last_failure(res.0, k + 1) {
            Some(e) => Some(ProposalError::Failed(e)),
            None => None,
        }) == (match r {
            Err(e) => Some(e),
            Ok(_) => match last_failure(outs, k) {
                Some(e) => Some(ProposalError::Failed(e)),
                None => None,
            },
        }),
{
    let i = kept_after(orig, outs, k).len() as int;
    let out = choose|out: Result<(), String>|
        m_before.apply_outcome(before[i].intent, out, &m_after) && proposal_step(before, i, out, r, after);
    lemma_apply_all_step(orig, outs, k, before, out, r, after);
    let outs2 = outs.push(out);
    let ms2 = ms.push(m_after);
    assert forall|j: int| 0 <= j < k + 1 implies #[trigger] ms2[j].apply_outcome(orig[j].intent, outs2[j], &ms2[j + 1]) by {
        if j < k {
            assert(ms2[j] == ms[j] && ms2[j + 1] == ms[j + 1] && outs2[j] == outs[j]);
        } else {
            assert(ms2[j] == m_before && ms2[j + 1] == m_after && outs2[j] == out);
        }
    }
    (outs2, ms2)
}

/// Applies every queued proposal in queue order; a failure does not stop
/// the rest, and the last failure is returned (always a back-end refusal:
/// every visited id is still queued when its turn comes). The result is
/// `Ok` exactly when every proposal was applied, and then the queue ends
/// empty; what stays are proposals that were queued before, and the queue
/// never grows. When the queued intent ids are distinct, each proposal is
/// handed to the back end once, in queue order, exactly the failed ones
/// stay (in order, replacements marked stale), and the error is the last
/// failure's message.
pub fn apply_all<M: ProjectMutator>(store: &mut ProposalStore, mutator: &mut M) -> (r: Result<(), ProposalError>)
    ensures
        r is Ok <==> final(store)@.len() == 0,
        r matches Err(e) ==> e is Failed,
        final(store)@.len() <= old(store)@.len(),
        intents_from(final(store)@, old(store)@),
        ids_of(old(store)@).no_duplicates() ==> queue_applied(old(store)@, *old(mutator), r, final(store)@, *final(mutator)),
{
    let ids = store.intent_ids();
    let ghost orig = store@;
    let ghost m0 = *mutator;
    let ghost d = ids_of(orig).no_duplicates();
    let ghost mut fails: int = 0;
    let ghost mut outs: Seq<Result<(), String>> = Seq::empty();
    let ghost mut ms: Seq<M> = seq![m0];
    proof {
        lemma_intents_from_self(orig);
        assert(ids@.skip(0) =~= ids@);
        assert(kept_after(orig, outs, 0) + orig.skip(0) =~= orig);
    }
    let mut last_err: Option<ProposalError> = None;
    let mut k: usize = 0;
    while k < ids.len()
        invariant
            k <= ids@.len(),
            ids@ == ids_of(orig),
            ids@.len() == orig.len(),
            d == ids_of(orig).no_duplicates(),
            0 <= fails <= k,
            store@.len() + k == orig.len() + fails,
            (last_err is None) == (fails == 0),
            last_err is None ==> store@ == orig.skip(k as int),
            intents_from(store@, orig),
            ids@.skip(k as int).to_multiset().subset_of(ids_of(store@).to_multiset()),
            last_err matches Some(e) ==> e is Failed,
            d ==> outs.len() == k && ms.len() == k + 1 && ms[0] == m0 && ms[k as int] == *mutator,
            d ==> forall|j: int| 0 <= j < k ==> #[trigger] ms[j].apply_outcome(orig[j].intent, outs[j], &ms[j + 1]),
            d ==> store@ == kept_after(orig, outs, k as int) + orig.skip(k as int),
            d ==> last_err == (match last_failure(outs, k as int) {
                Some(e) => Some(ProposalError::Failed(e)),
                None => None,
            }),
        decreases ids.len() - k,
    {
        let ghost before = store@;
        let ghost m_before = *mutator;
        proof {
            lemma_index_of_intent(before, ids@[k as int]);
            lemma_pending_ids_step(ids@.skip(k as int), ids_of(before), ids_of(before), 0);
            let x = ids@[k as int];
            let j = choose|j: int| 0 <= j < ids_of(before).len() && ids_of(before)[j] == x;
            assert(before[j].intent.spec_intent_id() == x);
            assert(index_of_intent(before, x) is Some);
            if last_err is None {
                assert(before[0] == orig[k as int]);
                assert(before[0].intent.spec_intent_id() == ids@[k as int]);
                let w = choose|x: int|
                    0 <= x < before.len() && before[x].intent.spec_intent_id() == ids@[k as int] && forall|j: int|
                        0 <= j < x ==> before[j].intent.spec_intent_id() != ids@[k as int];
                assert(index_of_intent(before, ids@[k as int]) == Some(0int));
            }
            if d {
                assert(ids@[k as int] == orig[k as int].intent.spec_intent_id());
                lemma_next_index(orig, outs, k as int, before);
            }
        }
        let outcome = apply_proposal(ids[k], store, mutator);
        proof {
            let i = index_of_intent(before, ids@[k as int])->Some_0;
            lemma_intents_after_step(before, store@, orig, i);
            lemma_ids_after_step(before, i);
            assert(ids@.skip(k as int).skip(1) =~= ids@.skip(k + 1));
            lemma_pending_ids_step(ids@.skip(k as int), ids_of(before), ids_of(store@), i);
            if d {
                let (outs2, ms2) = lemma_extend_chain(orig, outs, ms, k as int, before, m_before, outcome, store@, *mutator);
                outs = outs2;
                ms = ms2;
            }
        }
        match outcome {
            Ok(()) => {
                proof {
                    if last_err is None {
                        assert(store@ =~= orig.skip(k + 1));
                    }
                }
            },
            Err(e) => {
                proof {
                    fails = fails + 1;
                }
                last_err = Some(e);
            },
        }
        k = k + 1;
    }
    proof {
        if d {
            assert(orig.skip(k as int) =~= Seq::<Proposal>::empty());
            assert(store@ =~= kept_after(orig, outs, k as int));
            lemma_last_failure_none(outs, k as int);
            assert(applied_in_turn(orig, outs, ms));
        }
    }
    match last_err {
        Some(e) => Err(e),
        None => {
            assert(orig.skip(k as int).len() == 0);
            Ok(())
        },
    }
}

/// Drops every queued proposal.
pub fn discard_all(store: &mut ProposalStore)
    ensures
        final(store)@.len() == 0,
{
    store.clear();
}

/// The name of a block kind in intent summaries.
pub open spec fn intent_block_label(t: BlockType) -> Seq<char> {
    match t {
        BlockType::Narration => "叙述"@,
        BlockType::Aside => "旁白"@,
        BlockType::Dialogue => "对话"@,
        BlockType::Thought => "心理"@,
        BlockType::SceneBreak => "场景分隔"@,
        BlockType::Note => "注释"@,
    }
}

/// The one-line summary of an intent shown to the user and the model.
pub open spec fn summary_of(intent: AiIntent) -> Seq<char> {
    match intent {
        AiIntent::CreateBlock { block_type, .. } => "创建"@ + intent_block_label(block_type) + "块"@,
        AiIntent::ReplaceBlocks { .. } => "替换块"@,
        AiIntent::UpdateBlock { .. } => "更新块"@,
        AiIntent::DeleteBlock { .. } => "删除块"@,
        AiIntent::MoveBlock { .. } => "移动块"@,
        AiIntent::CreateChapterDirectory { parent_rel, name, .. } => "创建章节目录 "@ + rel_join_spec(parent_rel@, name@),
        AiIntent::CreateChapterFile { chapter_id, parent_rel, name, title, .. } => "创建章节 "@ + title@ + " @ "@
            + rel_join_spec(parent_rel@, name@ + ".json"@) + " (chapter_id="@ + id_text_of(chapter_id) + ")"@,
        AiIntent::RenameChapterNode { .. } => "重命名章节节点"@,
        AiIntent::DeleteChapterNode { .. } => "删除章节节点"@,
        AiIntent::MoveChapterNode { .. } => "移动章节节点"@,
        AiIntent::MoveChapterSibling { .. } => "调整章节顺序"@,
        AiIntent::CopyChapter { .. } => "复制章节"@,
        AiIntent::UpdateChapterTitle { .. } => "更新章节标题"@,
        AiIntent::CreateOutlineEntry { .. } => "创建大纲条目"@,
        AiIntent::UpdateOutlineEntry { .. } => "更新大纲条目"@,
        AiIntent::DeleteOutlineEntry { .. } => "删除大纲条目"@,
        AiIntent::CreateScript { title, parent_rel, script_id, name, .. } => {
            let file = match name {
                Some(n) => n@ + ".json"@,
                None => "(auto).json"@,
            };
            let id = match script_id {
                Some(x) => id_text_of(x),
                None => "?"@,
            };
            "创建剧本 "@ + title@ + " @ scripts/"@ + rel_join_spec(parent_rel@, file) + " (script_id="@ + id + ")"@
        },
        AiIntent::CreateScriptDirectory { .. } => "创建剧本目录"@,
        AiIntent::RenameScriptNode { .. } => "重命名剧本节点"@,
        AiIntent::DeleteScriptNode { .. } => "删除剧本节点"@,
        AiIntent::MoveScriptNode { .. } => "移动剧本节点"@,
        AiIntent::MoveScriptSibling { .. } => "调整剧本顺序"@,
        AiIntent::CopyScript { .. } => "复制剧本"@,
        AiIntent::UpdateScriptTitle { .. } => "更新剧本标题"@,
        AiIntent::AppendScriptBlocks { .. } => "追加剧本块"@,
        AiIntent::UpdateScriptBlock { .. } => "更新剧本块"@,
        AiIntent::DeleteScriptBlock { .. } => "删除剧本块"@,
        AiIntent::MoveScriptBlock { .. } => "移动剧本块"@,
        AiIntent::UpdateProjectMeta { .. } => "更新项目元信息"@,
    }
}

fn block_label_text(t: BlockType) -> (r: &'static str)
    ensures
        r@ == intent_block_label(t),
{
    match t {
        BlockType::Narration => "叙述",
        BlockType::Aside => "旁白",
        BlockType::Dialogue => "对话",
        BlockType::Thought => "心理",
        BlockType::SceneBreak => "场景分隔",
        BlockType::Note => "注释",
    }
}

fn json_rel(parent_rel: &str, file_stem: &Vec<char>) -> (r: String)
    ensures
        r@ == rel_join_spec(parent_rel@, file_stem@ + ".json"@),
{
    let mut f = file_stem.clone();
    push_str(&mut f, ".json");
    rel_join(parent_rel, &string_of(f.as_slice()))
}

/// The one-line summary of an intent.
pub fn summarize_intent(intent: &AiIntent) -> (r: String)
    ensures
        r@ == summary_of(*intent),
{
    match intent {
        AiIntent::CreateBlock { block_type, .. } => {
            let mut v: Vec<char> = Vec::new();
            push_str(&mut v, "创建");
            push_str(&mut v, block_label_text(*block_type));
            push_str(&mut v, "块");
            string_of(v.as_slice())
        },
        AiIntent::ReplaceBlocks { .. } => String::from_str("替换块"),
        AiIntent::UpdateBlock { .. } => String::from_str("更新块"),
        AiIntent::DeleteBlock { .. } => String::from_str("删除块"),
        AiIntent::MoveBlock { .. } => String::from_str("移动块"),
        AiIntent::CreateChapterDirectory { parent_rel, name, .. } => {
            let mut v: Vec<char> = Vec::new();
            push_str(&mut v, "创建章节目录 ");
            push_str(&mut v, &rel_join(parent_rel, name));
            string_of(v.as_slice())
        },
        AiIntent::CreateChapterFile { chapter_id, parent_rel, name, title, .. } => {
            let mut v: Vec<char> = Vec::new();
            push_str(&mut v, "创建章节 ");
            push_str(&mut v, title);
            push_str(&mut v, " @ ");
            push_str(&mut v, &json_rel(parent_rel, &chars_of(name)));
            push_str(&mut v, " (chapter_id=");
            push_str(&mut v, &id_text(*chapter_id));
            push_str(&mut v, ")");
            string_of(v.as_slice())
        },
        AiIntent::RenameChapterNode { .. } => String::from_str("重命名章节节点"),
        AiIntent::DeleteChapterNode { .. } => String::from_str("删除章节节点"),
        AiIntent::MoveChapterNode { .. } => String::from_str("移动章节节点"),
        AiIntent::MoveChapterSibling { .. } => String::from_str("调整章节顺序"),
        AiIntent::CopyChapter { .. } => String::from_str("复制章节"),
        AiIntent::UpdateChapterTitle { .. } => String::from_str("更新章节标题"),
        AiIntent::CreateOutlineEntry { .. } => String::from_str("创建大纲条目"),
        AiIntent::UpdateOutlineEntry { .. } => String::from_str("更新大纲条目"),
        AiIntent::DeleteOutlineEntry { .. } => String::from_str("删除大纲条目"),
        AiIntent::CreateScript { title, parent_rel, script_id, name, .. } => {
            let path = match name {
                Some(n) => json_rel(parent_rel, &chars_of(n)),
                None => {
                    let mut f: Vec<char> = Vec::new();
                    push_str(&mut f, "(auto).json");
                    rel_join(parent_rel, &string_of(f.as_slice()))
                },
            };
            let mut v: Vec<char> = Vec::new();
            push_str(&mut v, "创建剧本 ");
            push_str(&mut v, title);
            push_str(&mut v, " @ scripts/");
            push_str(&mut v, &path);
            push_str(&mut v, " (script_id=");
            match script_id {
                Some(x) => push_str(&mut v, &id_text(*x)),
                None => push_str(&mut v, "?"),
            }
            push_str(&mut v, ")");
            string_of(v.as_slice())
        },
        AiIntent::CreateScriptDirectory { .. } => String::from_str("创建剧本目录"),
        AiIntent::RenameScriptNode { .. } => String::from_str("重命名剧本节点"),
        AiIntent::DeleteScriptNode { .. } => String::from_str("删除剧本节点"),
        AiIntent::MoveScriptNode { .. } => String::from_str("移动剧本节点"),
        AiIntent::MoveScriptSibling { .. } => String::from_str("调整剧本顺序"),
        AiIntent::CopyScript { .. } => String::from_str("复制剧本"),
        AiIntent::UpdateScriptTitle { .. } => String::from_str("更新剧本标题"),
        AiIntent::AppendScriptBlocks { .. } => String::from_str("追加剧本块"),
        AiIntent::UpdateScriptBlock { .. } => String::from_str("更新剧本块"),
        AiIntent::DeleteScriptBlock { .. } => String::from_str("删除剧本块"),
        AiIntent::MoveScriptBlock { .. } => String::from_str("移动剧本块"),
        AiIntent::UpdateProjectMeta { .. } => String::from_str("更新项目元信息"),
    }
}

/// The receipt reports the back end's answer: applied, or an error with
/// the back end's message.
pub open spec fn receipt_reports(out: Result<(), String>, r: ToolReceipt) -> bool {
    match out {
        Ok(_) => r.status == IntentStatus::Applied && r.error is None,
        Err(e) => r.status == IntentStatus::Error && r.error == Some(e),
    }
}

/// Whether write intents are applied at once or queued as proposals.
#[derive(Debug, Clone, Copy, PartialEq, Eq, Structural)]
pub struct EffectPolicy {
    pub auto_apply: bool,
}

impl EffectPolicy {
    /// A policy that applies at once when `auto_apply` holds.
    pub fn new(auto_apply: bool) -> (r: Self)
        ensures
            r.auto_apply == auto_apply,
    {
        EffectPolicy { auto_apply }
    }

    /// Handles a write intent: with `auto_apply` it goes to the back end
    /// and the receipt says whether that worked (with the back end's
    /// message on failure); otherwise it joins the queue as a fresh
    /// proposal and the receipt says it was proposed. The receipt carries
    /// the intent's id and summary.
    pub fn apply<M: ProjectMutator>(&self, intent: AiIntent, store: &mut ProposalStore, mutator: &mut M) -> (r: ToolReceipt)
        ensures
            r.intent_id == intent.spec_intent_id(),
            r.summary@ == summary_of(intent),
            self.auto_apply ==> final(store)@ == old(store)@,
            self.auto_apply ==> exists|out: Result<(), String>|
                #![trigger old(mutator).apply_outcome(intent, out, final(mutator))]
                old(mutator).apply_outcome(intent, out, final(mutator)) && receipt_reports(out, r),
            !self.auto_apply ==> final(store)@ == old(store)@.push(Proposal { intent, stale: false }),
            !self.auto_apply ==> r.status == IntentStatus::Proposed && r.error is None,
            !self.auto_apply ==> *final(mutator) == *old(mutator),
    {
        let intent_id = intent.intent_id();
        let summary = summarize_intent(&intent);
        if self.auto_apply {
            match mutator.apply(&intent) {
                Ok(()) => ToolReceipt { status: IntentStatus::Applied, intent_id, summary, error: None },
                Err(e) => ToolReceipt { status: IntentStatus::Error, intent_id, summary, error: Some(e) },
            }
        } else {
            store.push(Proposal { intent, stale: false });
            ToolReceipt { status: IntentStatus::Proposed, intent_id, summary, error: None }
        }
    }
}

} // verus!
