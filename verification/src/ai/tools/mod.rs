//! The assistant's tools as plain calls: each takes its arguments as
//! values, checks them, and hands the intent it asks for to the effect
//! policy, or queues a command for the editor.

pub mod write;
pub mod write_extra;

use vstd::prelude::*;

use crate::ai::effect::{
    after_failure, apply_all, apply_proposal, discard_all, discard_proposal, ids_of, index_of_intent, intents_from,
    proposal_applied, queue_applied, receipt_reports, summary_of, EffectPolicy, Proposal, ProposalError, ProposalStore,
};
use crate::ai::intent::{AiIntent, IntentStatus, ToolReceipt};
use crate::ai::mutator::ProjectMutator;
use crate::ai::tools::write::{plan_write_tool, write_plan, ToolRefusal, WriteToolCall};
use crate::ai::tools::write_extra::{extra_plan, plan_extra_tool, ExtraToolCall};
use crate::ai::ui_command::AiUiCommand;
use crate::ids::{fresh_id, now_millis};

verus! {

/// What the tools of one assistant session share: the back end that
/// applies intents, the proposal queue, the policy, and the editor
/// commands waiting to be run.
pub struct SharedAiCtx<M> {
    pub mutator: M,
    pub proposals: ProposalStore,
    pub policy: EffectPolicy,
    pub ui_commands: Vec<AiUiCommand>,
}

/// The receipt `r` and the context `new` are what handling the tool's
/// decision `plan` from context `old` gives: a refusal is reported with a
/// fresh id and changes nothing; an intent goes through the policy.
pub open spec fn handled<M: ProjectMutator>(
    old: SharedAiCtx<M>,
    plan: Result<AiIntent, ToolRefusal>,
    r: ToolReceipt,
    new: SharedAiCtx<M>,
) -> bool {
    &&& new.policy == old.policy
    &&& new.ui_commands == old.ui_commands
    &&& plan is Err ==> refusal_reported(old, plan->Err_0, r, new)
    &&& plan is Ok ==> proposed_or_applied(old, plan->Ok_0, r, new)
}

/// The receipt `r` reports the refusal `f`, and nothing else changed.
pub open spec fn refusal_reported<M: ProjectMutator>(old: SharedAiCtx<M>, f: ToolRefusal, r: ToolReceipt, new: SharedAiCtx<M>) -> bool {
    &&& r.status == IntentStatus::Error
    &&& r.summary@ == f.summary@
    &&& r.error == Some(f.error)
    &&& new.proposals@ == old.proposals@
    &&& new.mutator == old.mutator
}

/// The receipt `r` and the context `new` are what the policy of `old`
/// makes of `intent`: handed to the back end at once, the receipt
/// reporting its answer and the queue untouched, or queued as a fresh
/// proposal with the back end untouched.
pub open spec fn proposed_or_applied<M: ProjectMutator>(old: SharedAiCtx<M>, intent: AiIntent, r: ToolReceipt, new: SharedAiCtx<M>) -> bool {
    &&& r.intent_id == intent.spec_intent_id()
    &&& r.summary@ == summary_of(intent)
    &&& old.policy.auto_apply ==> new.proposals@ == old.proposals@ && exists|out: Result<(), String>|
        #![trigger old.mutator.apply_outcome(intent, out, &new.mutator)]
        old.mutator.apply_outcome(intent, out, &new.mutator) && receipt_reports(out, r)
    &&& !old.policy.auto_apply ==> new.proposals@ == old.proposals@.push(Proposal { intent, stale: false })
        && r.status == IntentStatus::Proposed && r.error is None && new.mutator == old.mutator
}

/// A receipt for a tool call that was refused, with a fresh id.
pub fn error_receipt(summary: &str, error: String) -> (r: ToolReceipt)
    ensures
        r.status == IntentStatus::Error,
        r.summary@ == summary@,
        r.error == Some(error),
{
    ToolReceipt { status: IntentStatus::Error, intent_id: fresh_id(), summary: String::from_str(summary), error: Some(error) }
}

impl<M: ProjectMutator> SharedAiCtx<M> {
    /// An empty queue and no pending commands over `mutator`.
    pub fn new(mutator: M, auto_apply: bool) -> (r: Self)
        ensures
            r.mutator == mutator,
            r.proposals@.len() == 0,
            r.policy.auto_apply == auto_apply,
            r.ui_commands@.len() == 0,
    {
        SharedAiCtx {
            mutator,
            proposals: ProposalStore::default(),
            policy: EffectPolicy::new(auto_apply),
            ui_commands: Vec::new(),
        }
    }

    /// Handles what a tool decided: a refusal becomes an error receipt, an
    /// intent goes through the policy.
    pub fn handle_plan(&mut self, plan: Result<AiIntent, ToolRefusal>) -> (r: ToolReceipt)
        ensures
            handled(*old(self), plan, r, *final(self)),
    {
        match plan {
            Err(f) => error_receipt(f.summary, f.error),
            Ok(intent) => {
                let ghost i = intent;
                let ghost m0 = self.mutator;
                let policy = EffectPolicy::new(self.policy.auto_apply);
                let r = policy.apply(intent, &mut self.proposals, &mut self.mutator);
                proof {
                    if policy.auto_apply {
                        let out = choose|out: Result<(), String>|
                            m0.apply_outcome(i, out, &self.mutator) && receipt_reports(out, r);
                        assert(m0.apply_outcome(i, out, &self.mutator) && receipt_reports(out, r));
                    }
                }
                r
            },
        }
    }

    /// Runs a content-creating write tool with fresh ids and the current
    /// time.
    pub fn run_write_tool(&mut self, call: WriteToolCall) -> (r: ToolReceipt)
        ensures
            exists|intent_id: u128, new_id: u128, now: i64, plan: Result<AiIntent, ToolRefusal>|
                #![trigger write_plan(call, intent_id, new_id, now, plan)]
                write_plan(call, intent_id, new_id, now, plan) && handled(*old(self), plan, r, *final(self)),
    {
        let intent_id = fresh_id();
        let new_id = fresh_id();
        let now = now_millis();
        let ghost c = call;
        let plan = plan_write_tool(call, intent_id, new_id, now);
        let ghost p = plan;
        let r = self.handle_plan(plan);
        assert(write_plan(c, intent_id, new_id, now, p));
        r
    }

    /// Runs a changing or removing write tool with fresh ids.
    pub fn run_extra_tool(&mut self, call: ExtraToolCall) -> (r: ToolReceipt)
        ensures
            exists|intent_id: u128, new_id: u128, plan: Result<AiIntent, ToolRefusal>|
                #![trigger extra_plan(call, intent_id, new_id, plan)]
                extra_plan(call, intent_id, new_id, plan) && handled(*old(self), plan, r, *final(self)),
    {
        let intent_id = fresh_id();
        let new_id = fresh_id();
        let ghost c = call;
        let plan = plan_extra_tool(call, intent_id, new_id);
        let ghost p = plan;
        let r = self.handle_plan(plan);
        assert(extra_plan(c, intent_id, new_id, p));
        r
    }

    /// Queues a command for the editor (the focus tools).
    pub fn queue_ui_command(&mut self, command: AiUiCommand)
        ensures
            final(self).ui_commands@ == old(self).ui_commands@.push(command),
            final(self).proposals@ == old(self).proposals@,
            final(self).mutator == old(self).mutator,
            final(self).policy == old(self).policy,
    {
        self.ui_commands.push(command);
    }

    /// Hands out the queued editor commands, oldest first, and empties the
    /// queue.
    pub fn take_ui_commands(&mut self) -> (r: Vec<AiUiCommand>)
        ensures
            r@ == old(self).ui_commands@,
            final(self).ui_commands@.len() == 0,
            final(self).proposals@ == old(self).proposals@,
            final(self).mutator == old(self).mutator,
            final(self).policy == old(self).policy,
    {
        let mut out: Vec<AiUiCommand> = Vec::new();
        std::mem::swap(&mut out, &mut self.ui_commands);
        out
    }

    /// Applies the queued proposal `intent_id`.
    pub fn apply_proposal(&mut self, intent_id: u128) -> (r: Result<(), ProposalError>)
        ensures
            index_of_intent(old(self).proposals@, intent_id) is None ==> r == Err::<(), ProposalError>(
                ProposalError::NotFound(intent_id),
            ) && final(self).proposals@ == old(self).proposals@ && final(self).mutator == old(self).mutator,
            (index_of_intent(old(self).proposals@, intent_id) matches Some(i) ==> proposal_applied(
                old(self).proposals@,
                i,
                old(self).mutator,
                r,
                final(self).proposals@,
                final(self).mutator,
            )),
            (index_of_intent(old(self).proposals@, intent_id) matches Some(i) ==> (r is Ok ==> final(self).proposals@ == old(self).proposals@.remove(i))),
            (index_of_intent(old(self).proposals@, intent_id) matches Some(i) ==> (r is Err ==> final(self).proposals@ == old(self).proposals@.update(i, after_failure(old(self).proposals@[i])))),
            final(self).policy == old(self).policy,
            final(self).ui_commands == old(self).ui_commands,
    {
        apply_proposal(intent_id, &mut self.proposals, &mut self.mutator)
    }

    /// Drops the queued proposal `intent_id`.
    pub fn discard_proposal(&mut self, intent_id: u128) -> (r: Result<(), ProposalError>)
        ensures
            index_of_intent(old(self).proposals@, intent_id) is None ==> r == Err::<(), ProposalError>(
                ProposalError::NotFound(intent_id),
            ) && final(self).proposals@ == old(self).proposals@,
            index_of_intent(old(self).proposals@, intent_id) matches Some(i) ==> r is Ok && final(self).proposals@ == old(self).proposals@.remove(i),
            final(self).mutator == old(self).mutator,
            final(self).policy == old(self).policy,
            final(self).ui_commands == old(self).ui_commands,
    {
        discard_proposal(intent_id, &mut self.proposals)
    }

    /// Applies every queued proposal in order; the result is `Ok` exactly
    /// when all succeed, and then the queue ends empty; with distinct intent
    /// ids, each is handed to the back end once and the failed ones stay.
    pub fn apply_all(&mut self) -> (r: Result<(), ProposalError>)
        ensures
            r is Ok <==> final(self).proposals@.len() == 0,
            r matches Err(e) ==> e is Failed,
            final(self).proposals@.len() <= old(self).proposals@.len(),
            intents_from(final(self).proposals@, old(self).proposals@),
            ids_of(old(self).proposals@).no_duplicates() ==> queue_applied(
                old(self).proposals@,
                old(self).mutator,
                r,
                final(self).proposals@,
                final(self).mutator,
            ),
            final(self).policy == old(self).policy,
            final(self).ui_commands == old(self).ui_commands,
    {
        apply_all(&mut self.proposals, &mut self.mutator)
    }

    /// Drops every queued proposal.
    pub fn discard_all(&mut self)
        ensures
            final(self).proposals@.len() == 0,
            final(self).mutator == old(self).mutator,
            final(self).policy == old(self).policy,
            final(self).ui_commands == old(self).ui_commands,
    {
        discard_all(&mut self.proposals)
    }
}

} // verus!
