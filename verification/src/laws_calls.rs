//! What the calls of a worker promise: what stands in the journal of a call, what the
//! worker hears of it, and when a patch is taken.

use vstd::prelude::*;
use vstd::string::*;
use vstd::utf8::*;
use crate::advisor::{
    AdviceBrokerConfigV1, AdviceDisclosureClassification, AdviceRequestDraftV1, AdviceResponseV1,
    AdviceTrigger, AdvisorError, AdvisorStatus, BoundedSourceExcerptV1, advice_shown,
    untrusted_context,
};
use crate::context::cut;
use crate::contracts::{ApprovalRequirementV1, ExecutionContractV1, is_identifier};
use crate::hash::fingerprint;
use crate::integrated::{
    IntegratedAdvisorConfigV1, IntegratedDelegatedService, IntegratedError,
    IntegratedToolResultV1,
};
use crate::integrated_advice::{
    advice_constraints, goes_without_advice, is_asked, is_broker_config, is_draft, is_marked,
    shown_contents, status_message,
};
use crate::integrated_tools::{
    PatchAppliedV1, PatchRequestV1, call_begins, call_ends, counts_call, gates_mutation,
    hears_result, is_application_record, is_begun_at, is_completed_call, is_proposal,
    is_tool_result, mutation_is_gated, operation_problem, operations_problem,
    patch_request_problem, preview_refusal,
};
use crate::journal::{
    DelegatedJournal, PatchApplicationRecordV1, PatchProposalRecordV1, ToolCallRecordV1,
    ToolCallStatus, call_from, has_proposal,
};
use crate::json::{JsonView, as_elements, as_text, inner_member, member};
use crate::patching::PatchProposalV1;
use crate::provider::{NormalizedToolCallV1, ProviderMessageV1};
use crate::text::{joined, texts, utf8_len, with_replaced};

verus! {

/// A call that begins stands in the journal as executing, without a result, and the other
/// calls stay.
pub proof fn lemma_calls_begin(
    before: DelegatedJournal,
    after: DelegatedJournal,
    service: IntegratedDelegatedService,
    call: NormalizedToolCallV1,
)
    requires
        call_begins(before, after, service, call),
    ensures
        after.run(service.run_id@).tool_calls@.len() == before.run(service.run_id@).tool_calls@.len()
            + 1,
        after.run(service.run_id@).events == before.run(service.run_id@).events,
        exists|at: int|
            0 <= at < after.run(service.run_id@).tool_calls@.len() && (#[trigger] after.run(
                service.run_id@,
            ).tool_calls@[at]).status is Executing && after.run(
                service.run_id@,
            ).tool_calls@[at].tool_call_id == call.tool_call_id && after.run(
                service.run_id@,
            ).tool_calls@[at].request_hash@ == fingerprint(call.arguments@) && after.run(
                service.run_id@,
            ).tool_calls@[at].result_hash is None && after.run(
                service.run_id@,
            ).tool_calls@.remove(at) == before.run(service.run_id@).tool_calls@,
{
    let old_run = before.run(service.run_id@);
    let new_run = after.run(service.run_id@);
    let (at, record) = choose|at: int, record: ToolCallRecordV1| #[trigger]
        is_begun_at(old_run, new_run, service, call, at, record);
    assert(new_run.tool_calls@[at] == record);
    assert(new_run.tool_calls@.remove(at) =~= old_run.tool_calls@);
}

proof fn lemma_call_from(calls: Seq<ToolCallRecordV1>, id: Seq<char>, from: int)
    requires
        0 <= from <= calls.len(),
    ensures
        from <= call_from(calls, id, from) <= calls.len(),
        call_from(calls, id, from) < calls.len() ==> calls[call_from(
            calls,
            id,
            from,
        )].tool_call_id@ == id,
        forall|j: int|
            from <= j < call_from(calls, id, from) ==> (#[trigger] calls[j]).tool_call_id@ != id,
    decreases calls.len() - from,
{
    if from < calls.len() && calls[from].tool_call_id@ != id {
        lemma_call_from(calls, id, from + 1);
    }
}

/// A call that ends gets its status, its summary and its result, and no other call
/// changes.
pub proof fn lemma_calls_end(
    before: DelegatedJournal,
    after: DelegatedJournal,
    run_id: Seq<char>,
    call_id: Seq<char>,
    status: ToolCallStatus,
    result_hash: Option<Seq<char>>,
    outcome_summary: Seq<char>,
)
    requires
        call_ends(before, after, run_id, call_id, status, result_hash, outcome_summary),
    ensures
        exists|k: int|
            0 <= k < before.run(run_id).tool_calls@.len() && (#[trigger] before.run(
                run_id,
            ).tool_calls@[k]).tool_call_id@ == call_id && after.run(run_id).tool_calls@[k].status
                == status && after.run(run_id).tool_calls@[k].outcome_summary is Some && after.run(
                run_id,
            ).tool_calls@[k].outcome_summary->0@ == outcome_summary && (result_hash is Some ==> (
            after.run(run_id).tool_calls@[k].result_hash is Some && after.run(
                run_id,
            ).tool_calls@[k].result_hash->0@ == result_hash->0)),
        forall|i: int|
            0 <= i < before.run(run_id).tool_calls@.len() && (#[trigger] before.run(
                run_id,
            ).tool_calls@[i]).tool_call_id@ != call_id ==> after.run(run_id).tool_calls@[i]
                == before.run(run_id).tool_calls@[i],
        after.run(run_id).tool_calls@.len() == before.run(run_id).tool_calls@.len(),
        after.run(run_id).events == before.run(run_id).events,
{
    lemma_call_from(before.run(run_id).tool_calls@, call_id, 0);
    let k = call_from(before.run(run_id).tool_calls@, call_id, 0);
    assert(before.run(run_id).tool_calls@[k].tool_call_id@ == call_id);
}

/// A call that is done counts once, is known by its name from then on, and the worker
/// hears its result as it was bounded.
pub proof fn lemma_calls_are_counted(
    before: IntegratedDelegatedService,
    after: IntegratedDelegatedService,
    new_journal: DelegatedJournal,
    call: NormalizedToolCallV1,
    result: IntegratedToolResultV1,
)
    requires
        counts_call(before, after, new_journal, call, result),
        before.completed_tool_calls < u32::MAX,
    ensures
        after.completed_tool_calls == before.completed_tool_calls + 1,
        is_completed_call(after, call.tool_call_id@),
        forall|id: Seq<char>| #[trigger]
            is_completed_call(before, id) ==> is_completed_call(after, id),
        after.provider_history@.len() > before.provider_history@.len(),
        after.provider_history@[before.provider_history@.len() as int].role@ == "tool"@,
        after.provider_history@[before.provider_history@.len() as int].content@
            == result.bounded_text@,
        after.last_verification == before.last_verification,
        after.last_diff == before.last_diff,
{
    let n = before.completed_tool_call_ids@.len() as int;
    assert(texts(after.completed_tool_call_ids@)[n] == call.tool_call_id@);
    assert forall|id: Seq<char>| #[trigger] is_completed_call(before, id) implies is_completed_call(
        after,
        id,
    ) by {
        let told = texts(before.completed_tool_call_ids@);
        let j = choose|j: int| 0 <= j < told.len() && told[j] == id;
        assert(after.completed_tool_call_ids@.drop_last()[j] == before.completed_tool_call_ids@[j]);
        assert(texts(after.completed_tool_call_ids@)[j] == id);
    }
}

/// The worker is told that its evidence is complete exactly behind a diff that follows a
/// verification that has passed.
pub proof fn lemma_complete_evidence_is_told(
    service: IntegratedDelegatedService,
    after: Seq<ProviderMessageV1>,
    call: NormalizedToolCallV1,
    result: IntegratedToolResultV1,
)
    requires
        hears_result(service, after, call, result),
    ensures
        after.len() == service.provider_history@.len() + 2 <==> call.tool_name@ == "diff.actual"@
            && service.last_verification is Some && service.last_verification->0.status is Passed
            && service.last_diff is Some,
        after.len() == service.provider_history@.len() + 1 || after.len()
            == service.provider_history@.len() + 2,
        forall|i: int|
            0 <= i < service.provider_history@.len() ==> #[trigger] after[i]
                == service.provider_history@[i],
{
    let before = service.provider_history@;
    assert forall|i: int| 0 <= i < before.len() implies #[trigger] after[i] == before[i] by {
        assert(after.take(before.len() as int)[i] == before[i]);
    }
}

/// A result is shown whole up to 16 KiB, and otherwise cut to that.
pub proof fn lemma_results_are_bounded(
    r: IntegratedToolResultV1,
    tool_name: Seq<char>,
    summary: Seq<char>,
    payload: Seq<char>,
    full_text: Seq<char>,
)
    requires
        is_tool_result(r, tool_name, summary, payload, full_text),
    ensures
        utf8_len(full_text) <= 16384 ==> r.bounded_text@ == full_text,
        utf8_len(full_text) > 16384 ==> r.bounded_text@ == cut(full_text, 16384),
        r.tool_name@ == tool_name,
        r.payload@ == payload,
{
}

proof fn lemma_operations_problem(items: Seq<Seq<char>>, from: int)
    requires
        0 <= from <= items.len(),
    ensures
        operations_problem(items, from) is None <==> forall|i: int|
            from <= i < items.len() ==> operation_problem(#[trigger] items[i]) is None,
    decreases items.len() - from,
{
    if from < items.len() {
        lemma_operations_problem(items, from + 1);
        if operation_problem(items[from]) is None && operations_problem(items, from) is None {
            assert forall|i: int| from <= i < items.len() implies operation_problem(
                #[trigger] items[i],
            ) is None by {
                if i != from {
                }
            }
        }
    }
}

/// An operation is taken when it says the path, what is replaced and what comes instead.
pub proof fn lemma_operations_taken(item: Seq<char>)
    ensures
        operation_problem(item) is None <==> as_text(inner_member(Some(item), "path"@)) is Some
            && as_text(inner_member(Some(item), "old"@)) is Some && as_text(
            inner_member(Some(item), "new"@),
        ) is Some,
{
}

/// A patch is taken when it is named, its parent has a proper name if it has one, it lists
/// its operations, each of them whole, and what it lists as targets are texts.
pub proof fn lemma_patches_taken(args: JsonView)
    ensures
        patch_request_problem(args) is None <==> {
            &&& as_text(member(args, "patchId"@)) is Some
            &&& as_text(member(args, "parentPatchId"@)) is Some ==> is_identifier(
                as_text(member(args, "parentPatchId"@))->0,
            )
            &&& as_elements(member(args, "operations"@)) is Some
            &&& forall|i: int|
                0 <= i < as_elements(member(args, "operations"@))->0.len() ==> operation_problem(
                    #[trigger] as_elements(member(args, "operations"@))->0[i],
                ) is None
            &&& as_elements(member(args, "targetPaths"@)) is Some ==> forall|i: int|
                0 <= i < as_elements(member(args, "targetPaths"@))->0.len() ==> as_text(
                    Some(#[trigger] as_elements(member(args, "targetPaths"@))->0[i]),
                ) is Some
        },
{
    let operations = as_elements(member(args, "operations"@));
    if operations is Some {
        lemma_operations_problem(operations->0, 0);
    }
}

/// A proposal has the name, the parent and the operations of the request, and holds a
/// fingerprint of each file as it is before.
pub proof fn lemma_proposals_say_what_was_asked(
    proposal: PatchProposalV1,
    request: PatchRequestV1,
    contents: Seq<Seq<char>>,
    service: IntegratedDelegatedService,
    i: int,
)
    requires
        is_proposal(proposal, request, contents, service),
        0 <= i < request.target_paths@.len(),
    ensures
        proposal.patch_id@ == request.patch_id@,
        proposal.parent_patch_id == request.parent_patch_id,
        proposal.operations == request.operations,
        proposal.model_rationale == request.model_rationale,
        proposal.target_paths == request.target_paths,
        proposal.run_id == service.run_id,
        proposal.expected_preimage_hashes@[i].path@ == request.target_paths@[i]@,
        proposal.expected_preimage_hashes@[i].hash@ == fingerprint(contents[i]),
        proposal.claimed_acceptance_criteria@ == service.contract.acceptance_criteria@,
{
    assert(texts(request.target_paths@)[i] == request.target_paths@[i]@);
}

/// A proposal is recorded once, behind its parent if it has one.
pub proof fn lemma_proposals_recorded(
    proposals: Seq<PatchProposalRecordV1>,
    proposal: PatchProposalV1,
)
    ensures
        preview_refusal(proposals, proposal) is None <==> (forall|i: int|
            0 <= i < proposals.len() ==> (#[trigger] proposals[i]).patch_id@
                != proposal.patch_id@) && (proposal.parent_patch_id is Some ==> exists|i: int|
            0 <= i < proposals.len() && (#[trigger] proposals[i]).patch_id@
                == proposal.parent_patch_id->0@),
        preview_refusal(proposals, proposal) is Some && has_proposal(
            proposals,
            proposal.patch_id@,
        ) ==> preview_refusal(proposals, proposal)->0 == "duplicate patch proposal"@,
{
}

/// A record of a patch that was applied names the call, the patch and what changed, with a
/// fingerprint of the diff.
pub proof fn lemma_applied_patches(
    record: PatchApplicationRecordV1,
    applied: PatchAppliedV1,
    tool_call_id: Seq<char>,
)
    requires
        is_application_record(record, applied, tool_call_id),
    ensures
        record.status is Applied,
        record.patch_id == applied.patch_id,
        record.tool_call_id@ == tool_call_id,
        record.actual_paths_changed == applied.actual_paths_changed,
        record.result_hash@ == fingerprint(applied.actual_diff@),
        record.before_hashes == applied.before_hashes,
        record.after_hashes == applied.after_hashes,
        record.diff_artifact_id@ == "diff-"@ + with_replaced(applied.patch_id@, ':', '_'),
{
}

/// Changes wait for approval exactly when some required approval is about them.
pub proof fn lemma_gated_changes(requirements: Seq<ApprovalRequirementV1>)
    ensures
        mutation_is_gated(requirements) <==> exists|i: int|
            0 <= i < requirements.len() && (#[trigger] requirements[i]).required && (
            requirements[i].kind is ToolException || requirements[i].kind is UnrestrictedShell),
        requirements.len() == 0 ==> !mutation_is_gated(requirements),
{
    if exists|i: int|
        0 <= i < requirements.len() && (#[trigger] requirements[i]).required && (
        requirements[i].kind is ToolException || requirements[i].kind is UnrestrictedShell) {
        let i = choose|i: int|
            0 <= i < requirements.len() && (#[trigger] requirements[i]).required && (
            requirements[i].kind is ToolException || requirements[i].kind is UnrestrictedShell);
        assert(gates_mutation(requirements[i]));
    }
}

// ---------------------------------------------------------------------------
// Advice on the way

/// What an advisor is asked says the failure only if verification failed, and never more
/// than what was read and what the contract says.
pub proof fn lemma_drafts(
    draft: AdviceRequestDraftV1,
    service: IntegratedDelegatedService,
    question: Seq<char>,
    maximum: usize,
    classification: AdviceDisclosureClassification,
)
    requires
        is_draft(draft, service, question, maximum, classification),
    ensures
        draft.latest_failure is Some <==> service.last_verification is Some
            && service.last_verification->0.status is Failed,
        draft.latest_failure is Some ==> draft.latest_failure->0@
            == service.last_verification->0.summary@,
        draft.verification_summary is Some <==> service.last_verification is Some,
        draft.bounded_patch_or_diff_summary is Some <==> service.last_diff is Some,
        draft.specific_question@ == question,
        draft.disclosure_classification == classification,
        draft.maximum_response_length == Some(maximum),
        draft.bounded_source_excerpts@.len() <= 3,
{
    lemma_shown_at_most(service.recent_read_excerpts@, service.recent_read_excerpts@.len() as int, 0, 0);
}

proof fn lemma_shown_at_most(excerpts: Seq<BoundedSourceExcerptV1>, n: int, count: int, total: int)
    requires
        0 <= count <= 3,
        0 <= n,
    ensures
        shown_contents(excerpts, n, count, total).len() <= 3 - count,
    decreases n,
{
    if n > 0 && count < 3 {
        let bounded = advice_shown(excerpts[n - 1].content@, 2048);
        lemma_shown_at_most(excerpts, n - 1, count + 1, total + utf8_len(bounded));
        let rest = advice_shown(bounded, (6144 - total) as nat);
        lemma_shown_at_most(excerpts, n - 1, count + 1, total + utf8_len(rest));
    }
}

/// An advisor that cannot be asked is told to the worker in one message. It stops the run
/// only where advice is required, and the run then waits for its supervisor.
pub proof fn lemma_without_advice(
    before: IntegratedDelegatedService,
    after: IntegratedDelegatedService,
    old_journal: DelegatedJournal,
    new_journal: DelegatedJournal,
    status: AdvisorStatus,
    reason: Seq<char>,
    advice_required: bool,
    emit_event: bool,
    r: Result<(), IntegratedError>,
)
    requires
        goes_without_advice(
            before,
            after,
            old_journal,
            new_journal,
            status,
            reason,
            advice_required,
            emit_event,
            r,
        ),
    ensures
        r is Ok <==> !advice_required,
        after.provider_history@.len() == before.provider_history@.len() + 1,
        after.provider_history@.last().role@ == "user"@,
        !advice_required && !emit_event ==> new_journal == old_journal,
        advice_required ==> new_journal.run(before.run_id@).snapshot.state is NeedsSupervisor,
        after.advisor_consultations_used == before.advisor_consultations_used,
        after.last_verification == before.last_verification,
{
}

/// An answer that is complete reaches the worker as untrusted context; any other is only
/// told by its status. The run's evidence stays what it was.
pub proof fn lemma_answers_are_passed_on(
    before: IntegratedDelegatedService,
    after: IntegratedDelegatedService,
    old_journal: DelegatedJournal,
    new_journal: DelegatedJournal,
    trigger: AdviceTrigger,
    asked: DelegatedJournal,
    answer: Result<AdviceResponseV1, AdvisorError>,
    r: Result<AdviceResponseV1, IntegratedError>,
)
    requires
        is_asked(before, after, old_journal, new_journal, trigger, asked, answer, r),
    ensures
        r is Ok <==> answer is Ok,
        answer is Ok ==> r->Ok_0 == answer->Ok_0,
        answer is Err ==> after == before && new_journal == asked,
        answer is Ok ==> after.provider_history@.len() == before.provider_history@.len() + 1
            && after.provider_history@.last().role@ == "user"@,
        answer is Ok && answer->Ok_0.status is Completed ==> after.provider_history@.last().content@
            == untrusted_context(answer->Ok_0),
        answer is Ok && !(answer->Ok_0.status is Completed)
            ==> after.provider_history@.last().content@ == status_message(answer->Ok_0.status),
        after.last_verification == before.last_verification,
        after.last_diff == before.last_diff,
        after.completed_tool_calls == before.completed_tool_calls,
{
}

/// A failure is advised upon once: the mark is set when the advisor answered, and only
/// then.
pub proof fn lemma_advised_once(
    asked: IntegratedDelegatedService,
    after: IntegratedDelegatedService,
    told: Result<AdviceResponseV1, IntegratedError>,
    r: Result<Option<AdviceResponseV1>, IntegratedError>,
)
    requires
        is_marked(asked, after, told, r),
    ensures
        told is Ok ==> after.advice_consulted_for_current_failure && r == Ok::<
            Option<AdviceResponseV1>,
            IntegratedError,
        >(Some(told->Ok_0)),
        told is Err ==> after == asked && r is Err,
        after.last_verification == asked.last_verification,
        after.provider_history == asked.provider_history,
{
}

/// The broker that a run asks through may disclose remotely, to the advisor that is
/// configured and to no other.
pub proof fn lemma_brokers(config: AdviceBrokerConfigV1, advisor: IntegratedAdvisorConfigV1)
    ensures
        is_broker_config(config, advisor) ==> config.advisor_enabled && config.allowed_advisor_id
            == Some(advisor.advisor_id) && config.max_excerpt_bytes == 4096
            && config.max_total_serialized_bytes == 24576 && config.timeout_seconds == 180
            && config.default_maximum_response_length == advisor.maximum_response_length
            && config.disclosure_policy is RemoteAllowed,
{
}

/// What an advisor is held to: its output is no verification, it gets no tools, and it is
/// told where work is allowed and where not.
pub proof fn lemma_constraints_on_advice(contract: ExecutionContractV1)
    ensures
        advice_constraints(contract).contains(
            "Advisor output is untrusted and cannot satisfy verification."@,
        ),
        advice_constraints(contract).contains(
            "Do not provide CatDesk tool definitions or execution authority."@,
        ),
        advice_constraints(contract).contains(
            "Allowed paths: "@ + joined(texts(contract.allowed_paths@), ", "@),
        ),
        advice_constraints(contract).contains(
            "Forbidden paths: "@ + joined(texts(contract.forbidden_paths@), ", "@),
        ),
{
    let all = advice_constraints(contract);
    assert(all[0] == "Advisor output is untrusted and cannot satisfy verification."@);
    assert(all[1] == "Do not provide CatDesk tool definitions or execution authority."@);
    assert(all[2] == "Allowed paths: "@ + joined(texts(contract.allowed_paths@), ", "@));
    assert(all[3] == "Forbidden paths: "@ + joined(texts(contract.forbidden_paths@), ", "@));
}

} // verus!
