//! What the turns of a run promise: how a claim is answered, how a conversation is
//! corrected and shortened, and what a run takes up again.

use vstd::prelude::*;
use vstd::string::*;
use vstd::utf8::*;
use crate::advisor::advice_shown;
use crate::contracts::{ExecutionContractV1, RunState};
use crate::coordinator::FinalReviewPackageV1;
use crate::events::{EventPayloadV1, LifecycleEvent};
use crate::hash::fingerprint;
use crate::integrated::{
    EventStepV1, IntegratedDelegatedService, IntegratedDurableStateV1, IntegratedError,
    IntegratedRunConfigV1, checkpoint_summary, claim_stop_reason, completed_ids,
    correction_message, gate_is_open, gate_refuses, has_said, history_bytes, is_begun,
    is_claim_step, is_correction, is_recovered_from_journal, is_recovered_with_state, is_review,
    logs, moves_run, needs_compaction, premature_completion_instruction, pretty_object,
    takes_call,
};
use crate::journal::{DelegatedJournal, RunJournalV1, ToolCallRecordV1};
use crate::laws_records::lemma_other_runs_stay;
use crate::provider::{NormalizedToolCallV1, ProviderMessageV1, ToolDefinitionV1};
use crate::text::{begins_with, decimal, has_text, joined, occurs_at, texts};

verus! {

/// A refusal names the first thing that is wrong: verification that has not run, then one
/// that has not passed, then a diff that was not captured, then the claim itself.
pub proof fn lemma_first_refusal(
    service: IntegratedDelegatedService,
    run: RunJournalV1,
    claim: Result<(), String>,
    e: IntegratedError,
)
    requires
        gate_refuses(service, run, claim, e),
    ensures
        service.last_verification is None ==> (e matches IntegratedError::Verification(t)
            && t@ == "verification has not run"@),
        service.last_verification is Some && !(service.last_verification->0.status is Passed)
            ==> (e matches IntegratedError::Verification(t) && t@
            == "verification has not passed"@),
        service.last_verification is Some && service.last_verification->0.status is Passed
            && service.last_diff is None ==> (e matches IntegratedError::Verification(t) && t@
            == "actual diff has not been captured"@),
        service.last_verification is Some && service.last_verification->0.status is Passed
            && service.last_diff is Some && claim is Err ==> e == IntegratedError::Patch(
            claim->Err_0,
        ),
        e is Verification || e is Patch,
        !gate_is_open(service, run, claim is Ok),
{
}

/// A run is corrected twice at the most, and each correction is one message to the worker
/// and one entry in the log; a further one is refused and changes nothing.
pub proof fn lemma_corrections_are_counted(
    before: IntegratedDelegatedService,
    after: IntegratedDelegatedService,
    old_journal: DelegatedJournal,
    new_journal: DelegatedJournal,
    kind: Seq<char>,
    turn: u32,
    stop_reason: Option<Seq<char>>,
    instruction: Seq<char>,
    r: Result<bool, IntegratedError>,
)
    requires
        is_correction(
            before,
            after,
            old_journal,
            new_journal,
            kind,
            turn,
            stop_reason,
            instruction,
            r,
        ),
    ensures
        r is Ok <==> before.corrective_turns_used < 2,
        r is Ok ==> r->Ok_0,
        r is Ok ==> after.corrective_turns_used == before.corrective_turns_used + 1,
        r is Ok ==> after.provider_history@.len() == before.provider_history@.len() + 1,
        r is Ok ==> after.provider_history@.last().role@ == "user"@,
        r is Ok ==> after.last_verification == before.last_verification && after.last_diff
            == before.last_diff && after.patch_proposals == before.patch_proposals,
        r is Ok ==> new_journal.run(before.run_id@).events@.len() == old_journal.run(
            before.run_id@,
        ).events@.len() + 1,
        r is Err ==> r->Err_0 is Tool && after == before && new_journal == old_journal,
{
}

/// What a correction tells the worker stands in its message, redacted and shortened.
pub proof fn lemma_correction_messages(fields: Seq<Seq<char>>, instruction: Seq<char>)
    ensures
        has_text(correction_message(fields, instruction), advice_shown(instruction, 2048)),
        begins_with(correction_message(fields, instruction), "<catdesk_corrective_continuation>\n"@),
{
    let start = "<catdesk_corrective_continuation>\n"@;
    let head = start + pretty_object(fields) + "\n"@;
    let said = advice_shown(instruction, 2048);
    let tail = "\n</catdesk_corrective_continuation>"@;
    let all = correction_message(fields, instruction);
    let i = head.len() as int;
    assert(all.subrange(i, i + said.len()) =~= said);
    assert(occurs_at(all, said, i));
    assert(all.take(start.len() as int) =~= start);
}

/// A claim of the worker completes the run exactly when nothing stands against it. If
/// something does, the run is left as it is but for a correction.
pub proof fn lemma_claims_are_answered(
    before: IntegratedDelegatedService,
    after: IntegratedDelegatedService,
    old_journal: DelegatedJournal,
    new_journal: DelegatedJournal,
    turn: u32,
    said: Seq<char>,
    claim: Result<(), String>,
    stop_reason: Option<Seq<char>>,
    prompt_eval_count: Option<u64>,
    r: Result<EventStepV1, IntegratedError>,
)
    requires
        is_claim_step(
            before,
            after,
            old_journal,
            new_journal,
            turn,
            said,
            claim,
            stop_reason,
            prompt_eval_count,
            r,
        ),
    ensures
        r is Ok && r->Ok_0 is Complete <==> gate_is_open(
            before,
            old_journal.run(before.run_id@),
            claim is Ok,
        ),
        r is Ok ==> r->Ok_0 is Complete || r->Ok_0 is Corrected,
        r is Ok && r->Ok_0 is Complete ==> new_journal.run(before.run_id@).snapshot.state
            is CompletedVerified && !new_journal.run(before.run_id@).snapshot.active,
        r is Ok && r->Ok_0 is Corrected ==> after.corrective_turns_used
            == before.corrective_turns_used + 1 && before.corrective_turns_used < 2,
        after.last_verification == before.last_verification,
        after.last_diff == before.last_diff,
        after.provider_history@.len() > before.provider_history@.len(),
        after.provider_history@[before.provider_history@.len() as int].role@ == "assistant"@,
        after.provider_history@[before.provider_history@.len() as int].content@ == said,
{
    let run = old_journal.run(before.run_id@);
    let heard = choose|heard: IntegratedDelegatedService| #[trigger]
        has_said(before, heard, "assistant"@, said) && if gate_is_open(before, run, claim is Ok) {
            &&& r is Ok && r->Ok_0 is Complete
            &&& after == heard
            &&& moves_run(old_journal, new_journal, before.run_id@, RunState::CompletedVerified)
        } else {
            exists|e: IntegratedError| #[trigger]
                gate_refuses(before, run, claim, e) && match heard.next_action(old_journal) {
                    Some(action) => {
                        let corrected = match r {
                            Ok(_) => Ok(true),
                            Err(x) => Err(x),
                        };
                        &&& r is Ok ==> r->Ok_0 is Corrected
                        &&& is_correction(
                            heard,
                            after,
                            old_journal,
                            new_journal,
                            "premature-completion"@,
                            turn,
                            claim_stop_reason(stop_reason, prompt_eval_count),
                            premature_completion_instruction(e.debug(), action),
                            corrected,
                        )
                    },
                    None => {
                        &&& r == Err::<EventStepV1, IntegratedError>(e)
                        &&& after == heard
                        &&& new_journal == old_journal
                    },
                }
        };
    let n = before.provider_history@.len() as int;
    assert(heard.provider_history@[n].content@ == said);
    if after != heard && r is Ok {
        assert(after.provider_history@.drop_last() == heard.provider_history@);
        assert(after.provider_history@[n] == after.provider_history@.drop_last()[n]);
    }
}

/// The reason a worker stopped is the one it gave; without one, a count of what it read
/// counts as a reason.
pub proof fn lemma_reasons_to_stop(stop_reason: Option<Seq<char>>, count: Option<u64>)
    ensures
        stop_reason is Some ==> claim_stop_reason(stop_reason, count) == stop_reason,
        claim_stop_reason(stop_reason, count) is None <==> stop_reason is None && count is None,
        stop_reason is None && count is Some ==> claim_stop_reason(stop_reason, count) == Some(
            "prompt-eval-count-present"@,
        ),
{
}

/// A call that the worker asks for is made under the number of the turn, with what was
/// asked, and the conversation says so; without a call nothing changes.
pub proof fn lemma_calls_are_taken(
    before: IntegratedDelegatedService,
    after: IntegratedDelegatedService,
    turn: u32,
    asked: Option<NormalizedToolCallV1>,
    r: Result<EventStepV1, IntegratedError>,
)
    requires
        takes_call(before, after, turn, asked, r),
    ensures
        r is Ok <==> asked is Some,
        asked is None ==> after == before && r->Err_0 is Tool,
        asked is Some ==> r->Ok_0 is Call,
        asked is Some ==> r->Ok_0->Call_0.tool_name == asked->0.tool_name
            && r->Ok_0->Call_0.arguments == asked->0.arguments,
        asked is Some ==> r->Ok_0->Call_0.tool_call_id@ == "tc-prod-"@ + decimal(turn as nat),
        asked is Some ==> r->Ok_0->Call_0.arguments_hash@ == fingerprint(asked->0.arguments@),
        asked is Some ==> after.provider_history@.len() == before.provider_history@.len() + 1,
        asked is Some ==> after.provider_history@.last().role@ == "assistant"@,
{
}

/// A conversation is shortened when it is longer than ten messages and larger than 48 KiB.
pub proof fn lemma_long_conversations(history: Seq<ProviderMessageV1>)
    ensures
        needs_compaction(history) <==> history.len() > 10 && history_bytes(history) > 49152,
{
}

/// A shortened conversation keeps its first two messages and its last eight, with the
/// checkpoint between them.
pub proof fn lemma_shortened_conversations(
    before: Seq<ProviderMessageV1>,
    after: Seq<ProviderMessageV1>,
    checkpoint: Seq<char>,
    i: int,
)
    requires
        crate::integrated::is_compacted(before, after, checkpoint),
        0 <= i < 8,
    ensures
        after.len() == 11,
        after[0] == before[0],
        after[1] == before[1],
        after[2].role@ == "user"@,
        after[2].content@ == checkpoint,
        after[3 + i] == before[before.len() - 8 + i],
{
    assert(after.take(2)[0] == before.take(2)[0]);
    assert(after.take(2)[1] == before.take(2)[1]);
    assert(after.skip(3)[i] == before.skip(before.len() - 8)[i]);
}

/// The calls that are done are those, and only those, that the journal has as completed.
pub proof fn lemma_done_calls(calls: Seq<ToolCallRecordV1>, n: int, id: Seq<char>)
    requires
        0 <= n <= calls.len(),
    ensures
        completed_ids(calls, n).contains(id) <==> exists|i: int|
            0 <= i < n && (#[trigger] calls[i]).status is Completed && calls[i].tool_call_id@ == id,
        completed_ids(calls, n).len() <= n,
    decreases n,
{
    if n > 0 {
        lemma_done_calls(calls, n - 1, id);
        let before = completed_ids(calls, n - 1);
        let all = completed_ids(calls, n);
        if calls[n - 1].status is Completed {
            assert(all == before.push(calls[n - 1].tool_call_id@));
            if before.contains(id) {
                let j = choose|j: int| 0 <= j < before.len() && before[j] == id;
                assert(all[j] == id);
            }
            if calls[n - 1].tool_call_id@ == id {
                assert(all[before.len() as int] == id);
            }
            if all.contains(id) && calls[n - 1].tool_call_id@ != id {
                let j = choose|j: int| 0 <= j < all.len() && all[j] == id;
                assert(before[j] == id);
            }
        }
    }
}

/// A run that is taken up from the journal alone starts without verification, without a
/// diff and without a conversation, behind the last number of the log.
pub proof fn lemma_taken_up_from_the_journal(
    service: IntegratedDelegatedService,
    run: RunJournalV1,
    contract: ExecutionContractV1,
    config: IntegratedRunConfigV1,
    tools: Vec<ToolDefinitionV1>,
)
    requires
        is_recovered_from_journal(service, run, contract, config, tools),
        run.tool_calls@.len() <= u32::MAX,
        run.snapshot.last_event_sequence < u64::MAX,
    ensures
        service.contract == contract,
        service.last_verification is None,
        service.last_diff is None,
        service.provider_history@.len() == 0,
        service.corrective_turns_used == 0,
        service.advisor_consultations_used == 0,
        service.consecutive_failed_verifications == 0,
        service.json_tool_recovery_turns_remaining == 0,
        !service.advice_consulted_for_current_failure,
        service.recent_read_excerpts@.len() == 0,
        service.patch_proposals@.len() == 0,
        service.current_turn_id is None,
        service.next_event_sequence == run.snapshot.last_event_sequence + 1,
        service.completed_tool_calls == service.completed_tool_call_ids@.len(),
        forall|i: int|
            0 <= i < run.tool_calls@.len() && (#[trigger] run.tool_calls@[i]).status is Completed
                ==> texts(service.completed_tool_call_ids@).contains(
                run.tool_calls@[i].tool_call_id@,
            ),
{
    let n = run.tool_calls@.len() as int;
    lemma_done_calls(run.tool_calls@, n, Seq::empty());
    assert(texts(service.completed_tool_call_ids@).len() == service.completed_tool_call_ids@.len());
    assert forall|i: int|
        0 <= i < run.tool_calls@.len() && (#[trigger] run.tool_calls@[i]).status
            is Completed implies texts(service.completed_tool_call_ids@).contains(
        run.tool_calls@[i].tool_call_id@,
    ) by {
        lemma_done_calls(run.tool_calls@, n, run.tool_calls@[i].tool_call_id@);
    }
}

/// A run that is taken up with its state has the evidence, the conversation and the counts
/// that were kept, and numbers its events behind both the log and the state.
pub proof fn lemma_taken_up_with_its_state(
    service: IntegratedDelegatedService,
    run: RunJournalV1,
    contract: ExecutionContractV1,
    config: IntegratedRunConfigV1,
    tools: Vec<ToolDefinitionV1>,
    state: IntegratedDurableStateV1,
)
    requires
        is_recovered_with_state(service, run, contract, config, tools, state),
        run.snapshot.last_event_sequence < u64::MAX,
    ensures
        service.contract == contract,
        service.last_verification == state.last_verification,
        service.last_diff == state.last_diff,
        service.provider_history == state.provider_history,
        service.completed_tool_calls == state.completed_tool_calls,
        service.corrective_turns_used == state.corrective_turns_used,
        service.advisor_consultations_used == state.advisor_consultations_used,
        service.consecutive_failed_verifications == state.consecutive_failed_verifications,
        service.next_event_sequence > run.snapshot.last_event_sequence,
        service.next_event_sequence >= state.next_event_sequence,
        service.next_event_sequence == state.next_event_sequence || service.next_event_sequence
            == run.snapshot.last_event_sequence + 1,
{
}

/// The proposal of a name is the last one that carries it.
pub proof fn lemma_latest_proposal(service: IntegratedDelegatedService, id: Seq<char>, n: int)
    requires
        0 <= n <= service.patch_proposals@.len(),
    ensures
        service.patch_upto(id, n) < n,
        service.patch_upto(id, n) >= -1,
        service.patch_upto(id, n) >= 0 ==> service.patch_proposals@[service.patch_upto(
            id,
            n,
        )].patch_id@ == id,
        forall|i: int|
            service.patch_upto(id, n) < i < n ==> (
            #[trigger] service.patch_proposals@[i]).patch_id@ != id,
    decreases n,
{
    if n > 0 && service.patch_proposals@[n - 1].patch_id@ != id {
        lemma_latest_proposal(service, id, n - 1);
    }
}

/// A run that begins is running and active, and every other run of the journal stays.
pub proof fn lemma_begun_runs(
    before: DelegatedJournal,
    begun: DelegatedJournal,
    service: IntegratedDelegatedService,
    i: int,
)
    requires
        is_begun(before, begun, service),
        0 <= i < before.runs@.len(),
        before.runs@[i].snapshot.run_id@ != service.run_id@,
    ensures
        begun.run(service.run_id@).snapshot.state is Running,
        begun.run(service.run_id@).snapshot.active,
        begun.runs@[i] == before.runs@[i],
        !before.has_run(service.run_id@) ==> begun.runs@.len() == before.runs@.len() + 1,
        before.has_run(service.run_id@) ==> begun.runs@.len() == before.runs@.len(),
        !before.has_run(service.run_id@) ==> begun.run(service.run_id@).tool_calls@.len() == 0
            && begun.run(service.run_id@).patch_proposals@.len() == 0 && begun.run(
            service.run_id@,
        ).patch_applications@.len() == 0 && begun.run(service.run_id@).advice_artifacts@.len() == 0,
        !before.has_run(service.run_id@) ==> begun.run(service.run_id@).events@.len() == 0
            && begun.run(service.run_id@).snapshot.last_event_sequence == 0,
        !before.has_run(service.run_id@) ==> begun.run(service.run_id@).snapshot.contract_hash@
            == fingerprint(service.contract.json()),
        before.has_run(service.run_id@) ==> begun.run(service.run_id@).events == before.run(
            service.run_id@,
        ).events,
{
    if before.has_run(service.run_id@) {
        lemma_other_runs_stay(before, begun, service.run_id@, begun.run(service.run_id@), i);
    } else {
        assert(begun.runs@.drop_last()[i] == before.runs@[i]);
    }
}

/// A run that moves to an end state is no longer active; its events, calls and patches
/// stay.
pub proof fn lemma_moved_runs(
    before: DelegatedJournal,
    after: DelegatedJournal,
    id: Seq<char>,
    state: RunState,
)
    requires
        moves_run(before, after, id, state),
        before.has_run(id),
    ensures
        after.run(id).snapshot.state == state,
        after.run(id).snapshot.active <==> !(state is CompletedVerified || state is Failed
            || state is Cancelled),
        after.run(id).events == before.run(id).events,
        after.run(id).tool_calls == before.run(id).tool_calls,
        after.run(id).patch_applications == before.run(id).patch_applications,
        after.run(id).snapshot.run_id == before.run(id).snapshot.run_id,
{
}

/// An event that is logged stands behind all that were there, with a number of its own,
/// and says of which run, session and turn it is.
pub proof fn lemma_logged_events(
    before: DelegatedJournal,
    after: DelegatedJournal,
    service: IntegratedDelegatedService,
    lifecycle_event: LifecycleEvent,
    payload: EventPayloadV1,
    i: int,
)
    requires
        logs(before, after, service, lifecycle_event, payload),
        0 <= i < before.run(service.run_id@).events@.len(),
    ensures
        after.run(service.run_id@).events@.len() == before.run(service.run_id@).events@.len() + 1,
        after.run(service.run_id@).events@[i] == before.run(service.run_id@).events@[i],
        after.run(service.run_id@).events@.last().payload == payload,
        after.run(service.run_id@).events@.last().lifecycle_event == lifecycle_event,
        after.run(service.run_id@).events@.last().run_id@ == service.run_id@,
        after.run(service.run_id@).events@.last().turn_id == service.current_turn_id,
        after.run(service.run_id@).snapshot.last_event_sequence == after.run(
            service.run_id@,
        ).events@.last().event_sequence,
        before.run(service.run_id@).events@.last().event_sequence < u64::MAX ==> after.run(
            service.run_id@,
        ).events@.last().event_sequence == before.run(service.run_id@).events@.last().event_sequence
            + 1,
        after.run(service.run_id@).snapshot.state == before.run(service.run_id@).snapshot.state,
{
    assert(after.run(service.run_id@).events@.drop_last()[i] == before.run(
        service.run_id@,
    ).events@[i]);
}

/// A service that starts has done nothing yet and knows nothing yet.
pub proof fn lemma_new_services(
    service: IntegratedDelegatedService,
    contract: ExecutionContractV1,
    config: IntegratedRunConfigV1,
    tools: Vec<ToolDefinitionV1>,
)
    requires
        service.is_fresh(contract, config, tools),
    ensures
        service.contract == contract,
        service.last_verification is None,
        service.last_diff is None,
        service.completed_tool_calls == 0,
        service.corrective_turns_used == 0,
        service.advisor_consultations_used == 0,
        service.next_event_sequence == 1,
        forall|run: RunJournalV1, claim: bool| !#[trigger] gate_is_open(service, run, claim),
{
}

/// A package for review says what was verified and changed, and that nothing was pushed or
/// merged.
pub proof fn lemma_reviewed_packages(
    package: FinalReviewPackageV1,
    service: IntegratedDelegatedService,
)
    requires
        is_review(package, service),
    ensures
        !package.pushed,
        !package.merged,
        service.last_verification == Some(package.verification),
        package.final_result.files_changed@ == service.last_diff->0.paths@,
        package.final_result.status is CompletedVerified,
        package.final_result.objective == service.contract.objective,
        package.final_result.branch == service.contract.feature_branch,
        package.final_result.verification == package.verification.summary,
        package.run_id == service.run_id,
        package.final_result.unresolved_warnings@.len() == 0,
        package.final_result.diff_artifacts@.len() == 0,
        package.final_result.final_recommendation@ == "ready for human review"@,
{
}

/// The checkpoint that stands for a conversation says the objective and the criteria, and
/// how many calls are left.
pub proof fn lemma_checkpoints(service: IntegratedDelegatedService, run: RunJournalV1)
    ensures
        has_text(checkpoint_summary(service, run), service.contract.objective@),
        has_text(
            checkpoint_summary(service, run),
            joined(texts(service.contract.acceptance_criteria@), "; "@),
        ),
        has_text(
            checkpoint_summary(service, run),
            joined(texts(service.contract.forbidden_paths@), ", "@),
        ),
        has_text(
            checkpoint_summary(service, run),
            joined(texts(service.contract.allowed_paths@), ", "@),
        ),
        exists|n: int|
            0 <= n <= checkpoint_summary(service, run).len() && #[trigger] checkpoint_summary(
                service,
                run,
            ).skip(n) == decimal(
                if service.contract.max_tool_calls >= service.completed_tool_calls {
                    (service.contract.max_tool_calls - service.completed_tool_calls) as nat
                } else {
                    0
                },
            ),
{
    let c = service.contract;
    let all = checkpoint_summary(service, run);
    let o = c.objective@;
    let a = joined(texts(c.allowed_paths@), ", "@);
    let f = joined(texts(c.forbidden_paths@), ", "@);
    let k = joined(texts(c.acceptance_criteria@), "; "@);
    let left = decimal(
        if c.max_tool_calls >= service.completed_tool_calls {
            (c.max_tool_calls - service.completed_tool_calls) as nat
        } else {
            0
        },
    );
    let i = "Compacted checkpoint:\nobjective: "@.len() as int;
    let j = i + o.len() + "\nallowed_paths: "@.len();
    let l = j + a.len() + "\nforbidden_paths: "@.len();
    let m = l + f.len() + "\nacceptance_criteria: "@.len();
    assert(all.subrange(i, i + o.len()) =~= o);
    assert(all.subrange(j, j + a.len()) =~= a);
    assert(all.subrange(l, l + f.len()) =~= f);
    assert(all.subrange(m, m + k.len()) =~= k);
    assert(occurs_at(all, o, i));
    assert(occurs_at(all, a, j));
    assert(occurs_at(all, f, l));
    assert(occurs_at(all, k, m));
    assert(all.skip(all.len() - left.len()) =~= left);
}

} // verus!
