//! The tools of a delegated run: which calls are let through, how each is recorded, and
//! what becomes of its result.

use vstd::prelude::*;
use vstd::string::*;
use crate::advisor::{BoundedSourceExcerptV1, advice_shown, redact_and_bound};
use crate::autonomous_contract::{is_in, lies_in};
use crate::context::{can_cut, cut};
use crate::contracts::{
    ApprovalRequirementKind, ApprovalRequirementV1, ArtifactId, ExecutionContractV1, PatchId,
    ToolCallId, TurnId, identifier_message, is_identifier, lemma_numbered_identifier,
};
use crate::coordinator::{VerificationStatusV1, VerificationSummaryV1};
use crate::events::{EventPayloadV1, LifecycleEvent};
use crate::hash::{fingerprint, stable_text_hash};
use crate::integrated::{
    IntegratedDelegatedService, IntegratedError, IntegratedToolResultV1, behind_log, find_tool,
    gate_is_open, has_tool, is_in_scope, is_tool_error, is_tool_message, is_under_one,
    is_unknown_run, is_worker_tool, journal_error, logs, notes, tool_from, tool_message,
    unknown_from,
};
use crate::job_manager::{JobId, JobSpecV1, JobStatus, LogPoll, LogStream, is_job_id};
use crate::journal::{
    DelegatedJournal, JournalError, PatchApplicationRecordV1, PatchApplicationStatus,
    PatchProposalRecordV1, RunJournalV1, ToolCallRecordV1, ToolCallStatus, ToolMutationKind,
    call_from, call_slot, has_proposal, lemma_inserted_call_is_found,
};
use crate::json::{
    JsonValue, JsonView, as_elements, as_number, as_text, as_truth, elements_in, field,
    field_text, inner_member, json_string, member, member_in, number_in, object, object_text,
    quoted, text_in, truth, truth_in, truth_text,
};
use crate::EXECUTION_CONTRACT_SCHEMA_VERSION;
use crate::patching::{ActualDiffArtifactV1, FileHashV1, PatchProposalV1, ReplaceOperationV1};
use crate::provider::{
    NormalizedToolCallV1, ProviderMessageV1, ToolDefinitionV1, is_plain_message, plain_message,
};
use crate::sorting::{
    dedup_strings, lemma_filter_last, sort_strings, sorted, string_less, without_repeats,
};
use crate::text::{
    blank, byte_len, chars_of, contains_char, copy_list, debug_variant, decimal, has_char,
    is_blank, lemma_ascii_utf8_len, lemma_utf8_len_concat, list_has, opt_text, plus,
    prefix_within, replace_char, same, split_at_either, split_either, text, texts, to_decimal,
    utf8_len, with_replaced,
};

verus! {

// ---------------------------------------------------------------------------
// Which calls are let through

/// An approval of these is required before anything is changed.
pub open spec fn gates_mutation(requirement: ApprovalRequirementV1) -> bool {
    requirement.required && (requirement.kind == ApprovalRequirementKind::ToolException
        || requirement.kind == ApprovalRequirementKind::UnrestrictedShell)
}

/// The contract requires an approval before anything is changed.
pub open spec fn mutation_is_gated(requirements: Seq<ApprovalRequirementV1>) -> bool {
    exists|i: int| 0 <= i < requirements.len() && gates_mutation(#[trigger] requirements[i])
}

fn is_mutation_gated(requirements: &Vec<ApprovalRequirementV1>) -> (r: bool)
    ensures
        r == mutation_is_gated(requirements@),
{
    let mut i: usize = 0;
    while i < requirements.len()
        invariant
            i <= requirements@.len(),
            forall|j: int| 0 <= j < i ==> !gates_mutation(#[trigger] requirements@[j]),
        decreases requirements@.len() - i,
    {
        if requirements[i].required && (requirements[i].kind
            == ApprovalRequirementKind::ToolException || requirements[i].kind
            == ApprovalRequirementKind::UnrestrictedShell) {
            assert(gates_mutation(requirements@[i as int]));
            return true;
        }
        i += 1;
    }
    false
}

/// Why a tool call is not let through, if it is not.
pub open spec fn policy_problem(
    service: IntegratedDelegatedService,
    tool_name: Seq<char>,
    kind: ToolMutationKind,
) -> Option<Seq<char>> {
    if service.completed_tool_calls >= service.contract.max_tool_calls {
        Some(
            "tool-call budget exceeded: "@ + decimal(service.completed_tool_calls as nat) + " >= "@
                + decimal(service.contract.max_tool_calls as nat),
        )
    } else if !has_tool(service.tools@.filter(is_worker_tool()), tool_name) {
        Some("tool "@ + tool_name + " is not in the approved CatDesk tool surface"@)
    } else if kind == ToolMutationKind::Mutating && mutation_is_gated(
        service.contract.approval_requirements@,
    ) {
        Some("mutating tool requires explicit supervisor approval"@)
    } else {
        None
    }
}

/// Whether a tool changes the workspace. One that is not known is taken to.
pub open spec fn kind_of(service: IntegratedDelegatedService, tool_name: Seq<char>) -> ToolMutationKind {
    let tools = service.tools@.filter(is_worker_tool());
    let i = tool_from(tools, tool_name, 0);
    if i < tools.len() {
        tools[i].mutation_kind
    } else {
        ToolMutationKind::Mutating
    }
}

/// The call was made and completed before.
pub open spec fn is_completed_call(service: IntegratedDelegatedService, id: Seq<char>) -> bool {
    texts(service.completed_tool_call_ids@).contains(id)
}

/// Why a call is not begun, before the journal is asked, if it is not.
pub open spec fn call_problem(service: IntegratedDelegatedService, call: NormalizedToolCallV1) -> Option<
    Seq<char>,
> {
    if is_completed_call(service, call.tool_call_id@) {
        Some("tool call "@ + call.tool_call_id@ + " already completed"@)
    } else {
        policy_problem(service, call.tool_name@, kind_of(service, call.tool_name@))
    }
}

/// The record of a call that is being executed.
pub open spec fn is_executing_record(
    record: ToolCallRecordV1,
    service: IntegratedDelegatedService,
    call: NormalizedToolCallV1,
) -> bool {
    &&& record.schema_version == EXECUTION_CONTRACT_SCHEMA_VERSION
    &&& record.run_id == service.run_id
    &&& record.tool_call_id == call.tool_call_id
    &&& record.tool_name == call.tool_name
    &&& record.request_hash@ == fingerprint(call.arguments@)
    &&& record.arguments_hash == call.arguments_hash
    &&& record.mutation_kind == kind_of(service, call.tool_name@)
    &&& record.status == ToolCallStatus::Executing
    &&& record.result_hash is None
    &&& record.outcome_summary is None
}

/// The journal knows of the call, as one that is being executed.
pub open spec fn is_executing(run: RunJournalV1, id: Seq<char>) -> bool {
    let k = call_from(run.tool_calls@, id, 0);
    0 <= k < run.tool_calls@.len() && run.tool_calls@[k].status == ToolCallStatus::Executing
}

/// The journal has taken up a call.
pub open spec fn call_begins(
    before: DelegatedJournal,
    after: DelegatedJournal,
    service: IntegratedDelegatedService,
    call: NormalizedToolCallV1,
) -> bool {
    let id = service.run_id@;
    let old_run = before.run(id);
    let new_run = after.run(id);
    &&& after.replaces(before, id, new_run)
    &&& new_run == (RunJournalV1 { tool_calls: new_run.tool_calls, ..old_run })
    &&& exists|at: int, record: ToolCallRecordV1| #[trigger]
        is_begun_at(old_run, new_run, service, call, at, record)
    &&& is_executing(new_run, call.tool_call_id@)
}

/// The record of the call stands at `at`.
pub open spec fn is_begun_at(
    old_run: RunJournalV1,
    new_run: RunJournalV1,
    service: IntegratedDelegatedService,
    call: NormalizedToolCallV1,
    at: int,
    record: ToolCallRecordV1,
) -> bool {
    &&& call_slot(old_run.tool_calls@, call.tool_call_id@, at)
    &&& is_executing_record(record, service, call)
    &&& new_run.tool_calls@ == old_run.tool_calls@.insert(at, record)
}

/// How a call that was begun ends in the journal.
pub open spec fn call_ends(
    before: DelegatedJournal,
    after: DelegatedJournal,
    run_id: Seq<char>,
    call_id: Seq<char>,
    status: ToolCallStatus,
    result_hash: Option<Seq<char>>,
    outcome_summary: Seq<char>,
) -> bool {
    let old_run = before.run(run_id);
    let new_run = after.run(run_id);
    let k = call_from(old_run.tool_calls@, call_id, 0);
    &&& after.replaces(before, run_id, new_run)
    &&& new_run == (RunJournalV1 { tool_calls: new_run.tool_calls, ..old_run })
    &&& 0 <= k < old_run.tool_calls@.len()
    &&& new_run.tool_calls@ == old_run.tool_calls@.update(k, new_run.tool_calls@[k])
    &&& new_run.tool_calls@[k] == (ToolCallRecordV1 {
        status,
        result_hash: new_run.tool_calls@[k].result_hash,
        outcome_summary: new_run.tool_calls@[k].outcome_summary,
        ..old_run.tool_calls@[k]
    })
    &&& result_hash is Some ==> opt_text(new_run.tool_calls@[k].result_hash) == result_hash
    &&& result_hash is None ==> new_run.tool_calls@[k].result_hash
        == old_run.tool_calls@[k].result_hash
    &&& opt_text(new_run.tool_calls@[k].outcome_summary) == Some(outcome_summary)
}

/// What is said when the evidence is complete.
pub open spec fn evidence_notice() -> Seq<char> {
    "CatDesk has authoritative evidence: verify.run passed and diff.actual captured the final diff. Do not call another tool. Provide the final concise completion claim now."@
}

/// The evidence is complete after this call.
pub open spec fn completes_evidence(service: IntegratedDelegatedService, tool_name: Seq<char>) -> bool {
    &&& tool_name == "diff.actual"@
    &&& service.last_verification is Some
    &&& service.last_verification->0.status == VerificationStatusV1::Passed
    &&& service.last_diff is Some
}

/// The conversation after a call was completed: its result, and a notice once the
/// evidence is complete.
pub open spec fn hears_result(
    service: IntegratedDelegatedService,
    after: Seq<ProviderMessageV1>,
    call: NormalizedToolCallV1,
    result: IntegratedToolResultV1,
) -> bool {
    let before = service.provider_history@;
    if completes_evidence(service, call.tool_name@) {
        &&& after.len() == before.len() + 2
        &&& after.take(before.len() as int) == before
        &&& is_tool_message(
            after[before.len() as int],
            "tool"@,
            result.bounded_text@,
            call,
        )
        &&& is_plain_message(after[before.len() as int + 1], "user"@, evidence_notice())
    } else {
        &&& after.len() == before.len() + 1
        &&& after.take(before.len() as int) == before
        &&& is_tool_message(
            after[before.len() as int],
            "tool"@,
            result.bounded_text@,
            call,
        )
    }
}

/// The service after a call was completed.
pub open spec fn counts_call(
    before: IntegratedDelegatedService,
    after: IntegratedDelegatedService,
    new_journal: DelegatedJournal,
    call: NormalizedToolCallV1,
    result: IntegratedToolResultV1,
) -> bool {
    &&& after == (IntegratedDelegatedService {
        completed_tool_call_ids: after.completed_tool_call_ids,
        completed_tool_calls: (before.completed_tool_calls + 1) as u32,
        provider_history: after.provider_history,
        next_event_sequence: behind_log(new_journal, before.run_id@),
        ..before
    })
    &&& after.completed_tool_call_ids@.len() == before.completed_tool_call_ids@.len() + 1
    &&& after.completed_tool_call_ids@.drop_last() == before.completed_tool_call_ids@
    &&& after.completed_tool_call_ids@.last()@ == call.tool_call_id@
    &&& hears_result(before, after.provider_history@, call, result)
}

fn is_mutating(kind: ToolMutationKind) -> (r: bool)
    ensures
        r == (kind == ToolMutationKind::Mutating),
{
    matches!(kind, ToolMutationKind::Mutating)
}

impl IntegratedDelegatedService {
    fn tool_kind(&self, tool_name: &str) -> (r: ToolMutationKind)
        ensures
            r == kind_of(*self, tool_name@),
    {
        let tools: Vec<ToolDefinitionV1> = self.tool_definitions();
        let i: usize = find_tool(&tools, tool_name);
        if i < tools.len() {
            tools[i].mutation_kind
        } else {
            ToolMutationKind::Mutating
        }
    }

    /// Lets a tool call through that the contract allows.
    pub fn enforce_tool_policy(&self, tool_name: &str, kind: ToolMutationKind) -> (r: Result<
        (),
        IntegratedError,
    >)
        ensures
            match r {
                Ok(_) => policy_problem(*self, tool_name@, kind) is None,
                Err(IntegratedError::Tool(message)) => policy_problem(*self, tool_name@, kind)
                    == Some(message@),
                Err(_) => false,
            },
    {
        if self.completed_tool_calls >= self.contract.max_tool_calls {
            return Err(
                IntegratedError::Tool(
                    text("tool-call budget exceeded: ").concat(
                        to_decimal(self.completed_tool_calls as u64).as_str(),
                    ).concat(" >= ").concat(
                        to_decimal(self.contract.max_tool_calls as u64).as_str(),
                    ),
                ),
            );
        }
        let tools: Vec<ToolDefinitionV1> = self.tool_definitions();
        if find_tool(&tools, tool_name) >= tools.len() {
            return Err(
                IntegratedError::Tool(
                    text("tool ").concat(tool_name).concat(
                        " is not in the approved CatDesk tool surface",
                    ),
                ),
            );
        }
        if is_mutating(kind) && is_mutation_gated(&self.contract.approval_requirements) {
            return Err(
                IntegratedError::Tool(
                    text("mutating tool requires explicit supervisor approval"),
                ),
            );
        }
        Ok(())
    }

    /// Begins a tool call: it must be new and allowed, and the journal takes it up as
    /// one that is being executed.
    pub fn begin_tool_call(&self, journal: &mut DelegatedJournal, call: &NormalizedToolCallV1) -> (r: Result<
        ToolMutationKind,
        IntegratedError,
    >)
        requires
            old(journal).wf(),
        ensures
            final(journal).wf(),
            match r {
                Ok(kind) => {
                    &&& call_problem(*self, *call) is None
                    &&& kind == kind_of(*self, call.tool_name@)
                    &&& old(journal).has_run(self.run_id@)
                    &&& call_begins(*old(journal), *final(journal), *self, *call)
                },
                Err(e) => {
                    &&& final(journal).runs@ == old(journal).runs@
                    &&& if let Some(problem) = call_problem(*self, *call) {
                        is_tool_error(e, problem)
                    } else if !old(journal).has_run(self.run_id@) {
                        is_unknown_run(e, self.run_id@)
                    } else {
                        let calls = old(journal).run(self.run_id@).tool_calls@;
                        &&& call_from(calls, call.tool_call_id@, 0) < calls.len()
                        &&& e matches IntegratedError::Journal(m) && m@ == debug_variant(
                            "DuplicateToolCall"@,
                            call.tool_call_id@,
                        )
                    }
                },
            },
    {
        if list_has(&self.completed_tool_call_ids, call.tool_call_id.as_str()) {
            return Err(
                IntegratedError::Tool(
                    text("tool call ").concat(call.tool_call_id.as_str()).concat(
                        " already completed",
                    ),
                ),
            );
        }
        let kind: ToolMutationKind = self.tool_kind(call.tool_name.as_str());
        self.enforce_tool_policy(call.tool_name.as_str(), kind)?;
        let record: ToolCallRecordV1 = ToolCallRecordV1 {
            schema_version: EXECUTION_CONTRACT_SCHEMA_VERSION,
            run_id: self.run_id.clone(),
            tool_call_id: call.tool_call_id.clone(),
            tool_name: call.tool_name.clone(),
            request_hash: stable_text_hash(call.arguments.as_str()),
            arguments_hash: call.arguments_hash.clone(),
            mutation_kind: kind,
            status: ToolCallStatus::Requested,
            result_hash: None,
            outcome_summary: None,
        };
        let ghost requested = record;
        if let Err(e) = journal.record_tool_call_requested(record) {
            return Err(journal_error(&e));
        }
        let ghost id = self.run_id@;
        let ghost calls = old(journal).run(id).tool_calls@;
        let ghost at = choose|at: int|
            #[trigger] call_slot(calls, requested.tool_call_id@, at) && journal.run(
                id,
            ).tool_calls@ == calls.insert(at, requested);
        proof {
            lemma_inserted_call_is_found(calls, requested, at);
        }
        let ghost first = *journal;
        let allowed: Result<ToolCallRecordV1, JournalError> = journal.transition_tool_call(
            &self.run_id,
            &call.tool_call_id,
            ToolCallStatus::PolicyAllowed,
            None,
            None,
        );
        assert(allowed is Ok);
        let ghost second = *journal;
        proof {
            let now = second.run(id).tool_calls@;
            assert(now =~= calls.insert(
                at,
                (ToolCallRecordV1 { status: ToolCallStatus::PolicyAllowed, ..requested }),
            ));
            lemma_inserted_call_is_found(
                calls,
                (ToolCallRecordV1 { status: ToolCallStatus::PolicyAllowed, ..requested }),
                at,
            );
        }
        let executing: Result<ToolCallRecordV1, JournalError> = journal.transition_tool_call(
            &self.run_id,
            &call.tool_call_id,
            ToolCallStatus::Executing,
            None,
            None,
        );
        assert(executing is Ok);
        proof {
            let now = journal.run(id).tool_calls@;
            let held = ToolCallRecordV1 { status: ToolCallStatus::Executing, ..requested };
            assert(now =~= calls.insert(at, held));
            lemma_inserted_call_is_found(calls, held, at);
            assert(is_begun_at(old(journal).run(id), journal.run(id), *self, *call, at, held));
            assert(journal.runs@ =~= old(journal).runs@.update(
                old(journal).run_at(id),
                journal.run(id),
            ));
        }
        Ok(kind)
    }

    /// Ends a tool call that failed. What a tool that changes things has done is then
    /// unknown.
    pub fn fail_tool_call(
        &self,
        journal: &mut DelegatedJournal,
        call: &NormalizedToolCallV1,
        kind: ToolMutationKind,
        error: &IntegratedError,
    ) -> (r: IntegratedError)
        requires
            old(journal).wf(),
            old(journal).has_run(self.run_id@),
            is_executing(old(journal).run(self.run_id@), call.tool_call_id@),
        ensures
            final(journal).wf(),
            is_tool_error(r, error.debug()),
            call_ends(
                *old(journal),
                *final(journal),
                self.run_id@,
                call.tool_call_id@,
                if kind == ToolMutationKind::Mutating {
                    ToolCallStatus::OutcomeUnknown
                } else {
                    ToolCallStatus::Failed
                },
                None,
                error.debug(),
            ),
    {
        let status: ToolCallStatus = if is_mutating(kind) {
            ToolCallStatus::OutcomeUnknown
        } else {
            ToolCallStatus::Failed
        };
        let summary: String = error.debug_text();
        let moved: Result<ToolCallRecordV1, JournalError> = journal.transition_tool_call(
            &self.run_id,
            &call.tool_call_id,
            status,
            None,
            Some(summary.clone()),
        );
        assert(moved is Ok);
        IntegratedError::Tool(summary)
    }

    /// Ends a tool call that was completed, and tells the worker what came of it.
    pub fn complete_tool_call(
        &mut self,
        journal: &mut DelegatedJournal,
        call: &NormalizedToolCallV1,
        result: &IntegratedToolResultV1,
    )
        requires
            old(journal).wf(),
            old(journal).has_run(old(self).run_id@),
            is_executing(old(journal).run(old(self).run_id@), call.tool_call_id@),
            old(self).completed_tool_calls < u32::MAX,
        ensures
            final(journal).wf(),
            counts_call(*old(self), *final(self), *final(journal), *call, *result),
            exists|ended: DelegatedJournal| #[trigger]
                call_ends(
                    *old(journal),
                    ended,
                    old(self).run_id@,
                    call.tool_call_id@,
                    ToolCallStatus::Completed,
                    Some(fingerprint(result.bounded_text@)),
                    result.summary@,
                ) && notes(
                    ended,
                    *final(journal),
                    *old(self),
                    completion_note(call.tool_name@, result.summary@),
                ),
    {
        let moved: Result<ToolCallRecordV1, JournalError> = journal.transition_tool_call(
            &self.run_id,
            &call.tool_call_id,
            ToolCallStatus::Completed,
            Some(stable_text_hash(result.bounded_text.as_str())),
            Some(result.summary.clone()),
        );
        assert(moved is Ok);
        let ghost ended = *journal;
        assert(call_ends(
            *old(journal),
            ended,
            old(self).run_id@,
            call.tool_call_id@,
            ToolCallStatus::Completed,
            Some(fingerprint(result.bounded_text@)),
            result.summary@,
        ));
        let note: String = text("tool ").concat(call.tool_name.as_str()).concat(
            " completed: ",
        ).concat(result.summary.as_str());
        let ghost said = note;
        let logged: Result<(), IntegratedError> = self.append_event(
            journal,
            LifecycleEvent::Delta,
            EventPayloadV1::Delta { text: note },
        );
        assert(logged is Ok);
        assert(logs(
            ended,
            *journal,
            *old(self),
            LifecycleEvent::Delta,
            EventPayloadV1::Delta { text: said },
        ));
        self.completed_tool_call_ids.push(text(call.tool_call_id.as_str()));
        assert(self.completed_tool_call_ids@.drop_last() =~= old(self).completed_tool_call_ids@);
        self.completed_tool_calls = self.completed_tool_calls + 1;
        let ghost before = self.provider_history@;
        self.provider_history.push(tool_message("tool", result.bounded_text.clone(), call));
        let passed: bool = match &self.last_verification {
            Some(summary) => summary.status == VerificationStatusV1::Passed,
            None => false,
        };
        if same(call.tool_name.as_str(), "diff.actual") && passed && self.last_diff.is_some() {
            self.provider_history.push(
                plain_message(
                    "user",
                    text(
                        "CatDesk has authoritative evidence: verify.run passed and diff.actual captured the final diff. Do not call another tool. Provide the final concise completion claim now.",
                    ),
                ),
            );
        }
        assert(self.provider_history@.take(before.len() as int) =~= before);
    }
}

/// What the log says of a call that was completed.
pub open spec fn completion_note(tool_name: Seq<char>, summary: Seq<char>) -> Seq<char> {
    "tool "@ + tool_name + " completed: "@ + summary
}

/// A call that was completed is never begun again, nor is one that the journal knows.
pub proof fn lemma_completed_call_is_not_replayed(
    before: IntegratedDelegatedService,
    after: IntegratedDelegatedService,
    new_journal: DelegatedJournal,
    call: NormalizedToolCallV1,
    result: IntegratedToolResultV1,
)
    requires
        counts_call(before, after, new_journal, call, result),
    ensures
        call_problem(after, call) is Some,
{
    let ids = texts(after.completed_tool_call_ids@);
    let last = after.completed_tool_call_ids@.len() - 1;
    assert(ids[last] == call.tool_call_id@);
}

/// A run never makes more calls than its contract allows: whatever is begun leaves room
/// for itself.
pub proof fn lemma_calls_are_bounded(
    before: IntegratedDelegatedService,
    after: IntegratedDelegatedService,
    new_journal: DelegatedJournal,
    call: NormalizedToolCallV1,
    result: IntegratedToolResultV1,
)
    requires
        call_problem(before, call) is None,
        counts_call(before, after, new_journal, call, result),
    ensures
        after.completed_tool_calls <= after.contract.max_tool_calls,
{
}

/// A tool that changes things and fails leaves the run unable to complete, until the
/// supervisor has looked at it.
pub proof fn lemma_unknown_outcome_closes_the_gate(
    before: DelegatedJournal,
    after: DelegatedJournal,
    service: IntegratedDelegatedService,
    call_id: Seq<char>,
    summary: Seq<char>,
    claim_holds: bool,
)
    requires
        call_ends(
            before,
            after,
            service.run_id@,
            call_id,
            ToolCallStatus::OutcomeUnknown,
            None,
            summary,
        ),
    ensures
        !gate_is_open(service, after.run(service.run_id@), claim_holds),
{
    let calls = after.run(service.run_id@).tool_calls@;
    let k = call_from(before.run(service.run_id@).tool_calls@, call_id, 0);
    lemma_unknown_from(calls, 0, k);
}

proof fn lemma_unknown_from(calls: Seq<ToolCallRecordV1>, from: int, k: int)
    requires
        0 <= from <= k < calls.len(),
        calls[k].status == ToolCallStatus::OutcomeUnknown,
    ensures
        unknown_from(calls, from) <= k,
    decreases k - from,
{
    if from < k && calls[from].status != ToolCallStatus::OutcomeUnknown {
        lemma_unknown_from(calls, from + 1, k);
    }
}

// ---------------------------------------------------------------------------
// Arguments

/// The tools.
#[derive(Clone, Copy, Debug, PartialEq, Eq, Structural)]
pub enum IntegratedToolV1 {
    Read,
    Search,
    PatchPreview,
    PatchApply,
    PatchCompare,
    DiffActual,
    VerifyRun,
    JobStart,
    JobStatus,
    JobPoll,
    JobCancel,
}

impl IntegratedToolV1 {
    /// The tool's name.
    pub open spec fn name(self) -> Seq<char> {
        match self {
            IntegratedToolV1::Read => "read"@,
            IntegratedToolV1::Search => "search"@,
            IntegratedToolV1::PatchPreview => "patch.preview"@,
            IntegratedToolV1::PatchApply => "patch.apply"@,
            IntegratedToolV1::PatchCompare => "patch.compare"@,
            IntegratedToolV1::DiffActual => "diff.actual"@,
            IntegratedToolV1::VerifyRun => "verify.run"@,
            IntegratedToolV1::JobStart => "job.start"@,
            IntegratedToolV1::JobStatus => "job.status"@,
            IntegratedToolV1::JobPoll => "job.poll"@,
            IntegratedToolV1::JobCancel => "job.cancel"@,
        }
    }
}

/// A tool has this name.
pub open spec fn names_tool(name: Seq<char>) -> bool {
    exists|tool: IntegratedToolV1| #[trigger] tool.name() == name
}

/// Finds the tool of a name.
pub fn tool_named(name: &str) -> (r: Result<IntegratedToolV1, IntegratedError>)
    ensures
        match r {
            Ok(tool) => tool.name() == name@,
            Err(e) => !names_tool(name@) && is_tool_error(e, "unknown tool "@ + name@),
        },
{
    if same(name, "read") {
        return Ok(IntegratedToolV1::Read);
    }
    if same(name, "search") {
        return Ok(IntegratedToolV1::Search);
    }
    if same(name, "patch.preview") {
        return Ok(IntegratedToolV1::PatchPreview);
    }
    if same(name, "patch.apply") {
        return Ok(IntegratedToolV1::PatchApply);
    }
    if same(name, "patch.compare") {
        return Ok(IntegratedToolV1::PatchCompare);
    }
    if same(name, "diff.actual") {
        return Ok(IntegratedToolV1::DiffActual);
    }
    if same(name, "verify.run") {
        return Ok(IntegratedToolV1::VerifyRun);
    }
    if same(name, "job.start") {
        return Ok(IntegratedToolV1::JobStart);
    }
    if same(name, "job.status") {
        return Ok(IntegratedToolV1::JobStatus);
    }
    if same(name, "job.poll") {
        return Ok(IntegratedToolV1::JobPoll);
    }
    if same(name, "job.cancel") {
        return Ok(IntegratedToolV1::JobCancel);
    }
    Err(IntegratedError::Tool(plus("unknown tool ", name)))
}

/// A text among the arguments.
pub fn string_arg(args: &JsonValue, name: &str) -> (r: Result<String, IntegratedError>)
    ensures
        match r {
            Ok(t) => as_text(member(args@, name@)) == Some(t@),
            Err(e) => as_text(member(args@, name@)) is None && is_tool_error(
                e,
                name@ + " string is required"@,
            ),
        },
{
    match text_in(&args.get(name)) {
        Some(t) => Ok(t),
        None => Err(IntegratedError::Tool(plus(name, " string is required"))),
    }
}

/// All of these JSON texts stand for texts.
pub open spec fn are_texts(items: Seq<Seq<char>>) -> bool {
    forall|i: int| 0 <= i < items.len() ==> as_text(Some(#[trigger] items[i])) is Some
}

/// The texts that these JSON texts stand for.
pub open spec fn text_values(items: Seq<Seq<char>>) -> Seq<Seq<char>> {
    items.map_values(|item: Seq<char>| as_text(Some(item))->0)
}

/// A list of texts among the arguments.
pub fn string_array_arg(args: &JsonValue, name: &str) -> (r: Result<Vec<String>, IntegratedError>)
    ensures
        ({
            let items = as_elements(member(args@, name@));
            match r {
                Ok(list) => items is Some && are_texts(items->0) && texts(list@) == text_values(
                    items->0,
                ),
                Err(e) => if items is None {
                    is_tool_error(e, name@ + " array is required"@)
                } else {
                    !are_texts(items->0) && is_tool_error(e, name@ + " must contain strings"@)
                },
            }
        }),
{
    let items: Vec<String> = match elements_in(&args.get(name)) {
        Some(items) => items,
        None => return Err(IntegratedError::Tool(plus(name, " array is required"))),
    };
    let ghost all = texts(items@);
    let mut list: Vec<String> = Vec::new();
    let mut i: usize = 0;
    assert(texts(list@) =~= text_values(all).take(0));
    while i < items.len()
        invariant
            i <= items@.len(),
            all == texts(items@),
            as_elements(member(args@, name@)) == Some(all),
            texts(list@) == text_values(all).take(i as int),
            forall|j: int| 0 <= j < i ==> as_text(Some(#[trigger] all[j])) is Some,
        decreases items@.len() - i,
    {
        let ghost prior = texts(list@);
        assert(all[i as int] == items@[i as int]@);
        let item: Option<String> = Some(items[i].clone());
        match text_in(&item) {
            Some(t) => list.push(t),
            None => {
                assert(as_text(Some(all[i as int])) is None);
                return Err(IntegratedError::Tool(plus(name, " must contain strings")));
            },
        }
        i += 1;
        assert(texts(list@) =~= prior.push(text_values(all)[i - 1]));
        assert(text_values(all).take(i as int) =~= text_values(all).take(i - 1).push(
            text_values(all)[i - 1],
        ));
    }
    assert(text_values(all).take(i as int) =~= text_values(all));
    Ok(list)
}

/// How a search is made.
#[derive(Debug, PartialEq, Eq)]
pub struct SearchTextOptionsV1 {
    pub pattern: String,
    pub path: Option<String>,
    pub fixed_strings: bool,
    pub case_insensitive: bool,
    pub context: u32,
    pub max_matches: u32,
    pub max_matches_per_file: u32,
    pub search_hidden: bool,
    pub no_ignore: bool,
}

/// How a search is made, from the arguments of the tool.
pub fn search_options(args: &JsonValue) -> (r: Result<SearchTextOptionsV1, IntegratedError>)
    ensures
        match r {
            Ok(options) => {
                &&& as_text(member(args@, "pattern"@)) == Some(options.pattern@)
                &&& opt_text(options.path) == as_text(member(args@, "path"@))
                &&& options.fixed_strings == (as_truth(member(args@, "fixedStrings"@)) == Some(
                    true,
                ))
                &&& !options.case_insensitive
                &&& options.context == 1
                &&& options.max_matches == 50
                &&& options.max_matches_per_file == 10
                &&& !options.search_hidden
                &&& !options.no_ignore
            },
            Err(e) => as_text(member(args@, "pattern"@)) is None && is_tool_error(
                e,
                "pattern"@ + " string is required"@,
            ),
        },
{
    let pattern: String = string_arg(args, "pattern")?;
    Ok(
        SearchTextOptionsV1 {
            pattern,
            path: text_in(&args.get("path")),
            fixed_strings: match truth_in(&args.get("fixedStrings")) {
                Some(b) => b,
                None => false,
            },
            case_insensitive: false,
            context: 1,
            max_matches: 50,
            max_matches_per_file: 10,
            search_hidden: false,
            no_ignore: false,
        },
    )
}

/// How long a verification may take, from what was asked for.
pub open spec fn verify_limit(asked: Option<u64>) -> u64 {
    match asked {
        Some(n) => if n < 30_000 {
            30_000
        } else if n > 300_000 {
            300_000
        } else {
            n
        },
        None => 120_000,
    }
}

/// How long a verification may take, in milliseconds.
pub fn verify_timeout(args: &JsonValue) -> (r: u64)
    ensures
        r == verify_limit(as_number(member(args@, "timeout"@))),
{
    match number_in(&args.get("timeout")) {
        Some(n) => if n < 30_000 {
            30_000
        } else if n > 300_000 {
            300_000
        } else {
            n
        },
        None => 120_000,
    }
}

/// A part that leads nowhere, or out of where one is.
pub open spec fn is_loose_part(part: Seq<char>) -> bool {
    part == Seq::<char>::empty() || part == "."@ || part == ".."@
}

/// A directory is given relative to the workspace, and stays in it by its name.
pub open spec fn is_contained_name(value: Seq<char>) -> bool {
    &&& !has_char(value, ':')
    &&& forall|i: int|
        0 <= i < split_at_either(value, '/', '\\').len() ==> !is_loose_part(
            #[trigger] split_at_either(value, '/', '\\')[i],
        )
}

/// Checks the name of the directory that a job runs in. There is none where nothing is
/// named: the job then runs in the workspace.
pub fn job_directory(cwd: &Option<String>) -> (r: Result<Option<String>, IntegratedError>)
    ensures
        match r {
            Ok(None) => *cwd is None || blank(cwd->0@),
            Ok(Some(name)) => *cwd == Some(name) && !blank(name@) && is_contained_name(name@),
            Err(e) => *cwd is Some && !blank(cwd->0@) && !is_contained_name(cwd->0@)
                && is_tool_error(e, "job cwd must be a contained relative path: "@ + cwd->0@),
        },
{
    let value: &String = match cwd {
        Some(value) => value,
        None => return Ok(None),
    };
    if is_blank(value.as_str()) {
        return Ok(None);
    }
    let parts: Vec<String> = split_either(value.as_str(), '/', '\\');
    let mut contained: bool = !contains_char(value.as_str(), ':');
    let mut i: usize = 0;
    assert(texts(parts@).len() == parts@.len());
    while i < parts.len()
        invariant
            i <= parts@.len(),
            texts(parts@) == split_at_either(value@, '/', '\\'),
            contained ==> !has_char(value@, ':') && forall|j: int|
                0 <= j < i ==> !is_loose_part(#[trigger] split_at_either(value@, '/', '\\')[j]),
            !contained ==> !is_contained_name(value@),
        decreases parts@.len() - i,
    {
        let part: &str = parts[i].as_str();
        assert(texts(parts@)[i as int] == parts@[i as int]@);
        assert(part@ =~= Seq::<char>::empty() <==> part@.len() == 0);
        if chars_of(part).len() == 0 || same(part, ".") || same(part, "..") {
            assert(is_loose_part(split_at_either(value@, '/', '\\')[i as int]));
            contained = false;
        }
        i += 1;
    }
    assert(texts(parts@).len() == parts@.len());
    if !contained {
        return Err(
            IntegratedError::Tool(
                plus("job cwd must be a contained relative path: ", value.as_str()),
            ),
        );
    }
    Ok(Some(value.clone()))
}

/// Accepts a directory that lies in the workspace, as the file system sees both.
pub fn contained_job_cwd(canonical: Result<Vec<String>, String>, workspace: &Vec<String>) -> (r: Result<
    Vec<String>,
    IntegratedError,
>)
    ensures
        match (canonical, r) {
            (Ok(parts), Ok(kept)) => kept == parts && lies_in(texts(parts@), texts(workspace@)),
            (Ok(parts), Err(e)) => !lies_in(texts(parts@), texts(workspace@)) && is_tool_error(
                e,
                "job cwd escapes the contract workspace"@,
            ),
            (Err(problem), Err(e)) => is_tool_error(e, "job cwd must exist: "@ + problem@),
            _ => false,
        },
{
    match canonical {
        Ok(parts) => if is_in(&parts, workspace) {
            Ok(parts)
        } else {
            Err(IntegratedError::Tool(text("job cwd escapes the contract workspace")))
        },
        Err(problem) => Err(
            IntegratedError::Tool(plus("job cwd must exist: ", problem.as_str())),
        ),
    }
}

/// The job that a call asks for: its profile is the one that is named, or the first
/// that the contract allows.
pub fn job_spec(args: &JsonValue, contract: &ExecutionContractV1, cwd: &str) -> (r: Result<
    JobSpecV1,
    IntegratedError,
>)
    ensures
        match r {
            Ok(spec) => {
                &&& as_text(member(args@, "command"@)) == Some(spec.command@)
                &&& spec.cwd@ == cwd@
                &&& spec.command_profile@ == match as_text(member(args@, "commandProfile"@)) {
                    Some(profile) => profile,
                    None => if contract.allowed_command_profiles@.len() > 0 {
                        contract.allowed_command_profiles@[0]@
                    } else {
                        "default"@
                    },
                }
                &&& spec.max_log_bytes == match as_number(member(args@, "maxLogBytes"@)) {
                    Some(max) => max,
                    None => 1_048_576,
                }
            },
            Err(e) => as_text(member(args@, "command"@)) is None && is_tool_error(
                e,
                "command"@ + " string is required"@,
            ),
        },
{
    let command: String = string_arg(args, "command")?;
    let mut spec: JobSpecV1 = JobSpecV1::new(command.as_str(), cwd);
    spec.command_profile = match text_in(&args.get("commandProfile")) {
        Some(profile) => profile,
        None => if contract.allowed_command_profiles.len() > 0 {
            contract.allowed_command_profiles[0].clone()
        } else {
            text("default")
        },
    };
    if let Some(max) = number_in(&args.get("maxLogBytes")) {
        spec.max_log_bytes = max;
    }
    Ok(spec)
}

/// The job that a call is about.
pub fn job_arg(args: &JsonValue) -> (r: Result<JobId, IntegratedError>)
    ensures
        match r {
            Ok(id) => as_text(member(args@, "jobId"@)) == Some(id@) && is_job_id(id@),
            Err(e) => match as_text(member(args@, "jobId"@)) {
                Some(name) => !is_job_id(name) && is_tool_error(
                    e,
                    debug_variant("Validation"@, "invalid job id"@),
                ),
                None => is_tool_error(e, "jobId"@ + " string is required"@),
            },
        },
{
    let name: String = string_arg(args, "jobId")?;
    match JobId::new(name.as_str()) {
        Ok(id) => Ok(id),
        Err(e) => Err(IntegratedError::Tool(e.debug_text())),
    }
}

/// Where a log is read.
#[derive(Debug, PartialEq, Eq)]
pub struct JobPollArgsV1 {
    pub job_id: JobId,
    pub stream: LogStream,
    pub offset: u64,
    pub max_bytes: u64,
}

/// Where a log is read, from the arguments of the tool.
pub fn job_poll_args(args: &JsonValue) -> (r: Result<JobPollArgsV1, IntegratedError>)
    ensures
        match r {
            Ok(p) => {
                &&& as_text(member(args@, "jobId"@)) == Some(p.job_id@)
                &&& is_job_id(p.job_id@)
                &&& p.stream == if as_text(member(args@, "stream"@)) == Some("stderr"@) {
                    LogStream::Stderr
                } else {
                    LogStream::Stdout
                }
                &&& p.offset == match as_number(member(args@, "offset"@)) {
                    Some(n) => n,
                    None => 0,
                }
                &&& p.max_bytes == match as_number(member(args@, "maxBytes"@)) {
                    Some(n) => n,
                    None => 16_384,
                }
            },
            Err(e) => match as_text(member(args@, "jobId"@)) {
                Some(name) => !is_job_id(name) && is_tool_error(
                    e,
                    debug_variant("Validation"@, "invalid job id"@),
                ),
                None => is_tool_error(e, "jobId"@ + " string is required"@),
            },
        },
{
    let job_id: JobId = job_arg(args)?;
    let stream: LogStream = match text_in(&args.get("stream")) {
        Some(name) => if same(name.as_str(), "stderr") {
            LogStream::Stderr
        } else {
            LogStream::Stdout
        },
        None => LogStream::Stdout,
    };
    let offset: u64 = match number_in(&args.get("offset")) {
        Some(n) => n,
        None => 0,
    };
    let max_bytes: u64 = match number_in(&args.get("maxBytes")) {
        Some(n) => n,
        None => 16_384,
    };
    Ok(JobPollArgsV1 { job_id, stream, offset, max_bytes })
}

/// What a diff is taken of, from the arguments of the tool: the paths that are named, or
/// those that the contract allows.
pub fn diff_paths(args: &JsonValue, contract: &ExecutionContractV1) -> (r: Vec<String>)
    ensures
        ({
            let items = as_elements(member(args@, "paths"@));
            texts(r@) == if items is Some && are_texts(items->0) {
                text_values(items->0)
            } else {
                texts(contract.allowed_paths@)
            }
        }),
{
    match string_array_arg(args, "paths") {
        Ok(list) => list,
        Err(_) => copy_list(&contract.allowed_paths),
    }
}

// ---------------------------------------------------------------------------
// Patches

/// A patch as a call asks for it.
#[derive(Debug)]
pub struct PatchRequestV1 {
    pub patch_id: String,
    pub parent_patch_id: Option<PatchId>,
    pub operations: Vec<ReplaceOperationV1>,
    pub target_paths: Vec<String>,
    pub model_rationale: String,
}

/// The name of what an operation lacks, if it lacks anything.
pub open spec fn operation_problem(item: Seq<char>) -> Option<Seq<char>> {
    if as_text(inner_member(Some(item), "path"@)) is None {
        Some("path"@ + " string is required"@)
    } else if as_text(inner_member(Some(item), "old"@)) is None {
        Some("old"@ + " string is required"@)
    } else if as_text(inner_member(Some(item), "new"@)) is None {
        Some("new"@ + " string is required"@)
    } else {
        None
    }
}

/// What the operations from `from` on lack, if they lack anything.
pub open spec fn operations_problem(items: Seq<Seq<char>>, from: int) -> Option<Seq<char>>
    decreases items.len() - from,
{
    if from < 0 || from >= items.len() {
        None
    } else if operation_problem(items[from]) is Some {
        operation_problem(items[from])
    } else {
        operations_problem(items, from + 1)
    }
}

/// The operation is the one that a JSON text stands for.
pub open spec fn is_operation(operation: ReplaceOperationV1, item: Seq<char>) -> bool {
    &&& Some(operation.path@) == as_text(inner_member(Some(item), "path"@))
    &&& Some(operation.old_text@) == as_text(inner_member(Some(item), "old"@))
    &&& Some(operation.new_text@) == as_text(inner_member(Some(item), "new"@))
}

/// The operations are those that these JSON texts stand for.
pub open spec fn are_operations(operations: Seq<ReplaceOperationV1>, items: Seq<Seq<char>>) -> bool {
    &&& operations.len() == items.len()
    &&& forall|i: int|
        0 <= i < operations.len() ==> is_operation(#[trigger] operations[i], items[i])
}

fn member_text(item: &Option<String>, name: &str) -> (r: Result<String, IntegratedError>)
    ensures
        match r {
            Ok(t) => as_text(inner_member(opt_text(*item), name@)) == Some(t@),
            Err(e) => as_text(inner_member(opt_text(*item), name@)) is None && is_tool_error(
                e,
                name@ + " string is required"@,
            ),
        },
{
    match text_in(&member_in(item, name)) {
        Some(t) => Ok(t),
        None => Err(IntegratedError::Tool(plus(name, " string is required"))),
    }
}

fn read_operations(items: &Vec<String>) -> (r: Result<Vec<ReplaceOperationV1>, IntegratedError>)
    ensures
        match r {
            Ok(operations) => operations_problem(texts(items@), 0) is None && are_operations(
                operations@,
                texts(items@),
            ),
            Err(IntegratedError::Tool(message)) => operations_problem(texts(items@), 0) == Some(
                message@,
            ),
            Err(_) => false,
        },
{
    let mut operations: Vec<ReplaceOperationV1> = Vec::new();
    let ghost all = texts(items@);
    let mut i: usize = 0;
    while i < items.len()
        invariant
            i <= items@.len(),
            all == texts(items@),
            operations@.len() == i,
            operations_problem(all, 0) == operations_problem(all, i as int),
            forall|j: int| 0 <= j < i ==> is_operation(#[trigger] operations@[j], all[j]),
        decreases items@.len() - i,
    {
        let item: Option<String> = Some(items[i].clone());
        assert(opt_text(item) == Some(all[i as int]));
        let path: String = member_text(&item, "path")?;
        let old_text: String = member_text(&item, "old")?;
        let new_text: String = member_text(&item, "new")?;
        operations.push(ReplaceOperationV1 { path, old_text, new_text });
        i += 1;
    }
    Ok(operations)
}

/// The paths of operations.
pub open spec fn operation_paths(operations: Seq<ReplaceOperationV1>) -> Seq<String> {
    operations.map_values(|operation: ReplaceOperationV1| operation.path)
}

fn paths_of(operations: &Vec<ReplaceOperationV1>) -> (r: Vec<String>)
    ensures
        r@ == operation_paths(operations@),
{
    let mut r: Vec<String> = Vec::new();
    let ghost all = operation_paths(operations@);
    let mut i: usize = 0;
    while i < operations.len()
        invariant
            i <= operations@.len(),
            all == operation_paths(operations@),
            r@ == all.take(i as int),
        decreases operations@.len() - i,
    {
        let ghost prior = r@;
        r.push(operations[i].path.clone());
        i += 1;
        assert(r@ =~= prior.push(all[i - 1]));
        assert(all.take(i as int) =~= all.take(i - 1).push(all[i - 1]));
    }
    assert(all.take(i as int) =~= all);
    r
}

/// Why a call asks for no patch, if it does not.
pub open spec fn patch_request_problem(args: JsonView) -> Option<Seq<char>> {
    let operations = as_elements(member(args, "operations"@));
    let targets = as_elements(member(args, "targetPaths"@));
    if as_text(member(args, "patchId"@)) is None {
        Some("patchId"@ + " string is required"@)
    } else if as_text(member(args, "parentPatchId"@)) is Some && !is_identifier(
        as_text(member(args, "parentPatchId"@))->0,
    ) {
        Some(identifier_message("PatchId"@))
    } else if operations is None {
        Some("operations array is required"@)
    } else if operations_problem(operations->0, 0) is Some {
        operations_problem(operations->0, 0)
    } else if targets is Some && !are_texts(targets->0) {
        Some("targetPaths"@ + " must contain strings"@)
    } else {
        None
    }
}

/// The patch that a call asks for.
pub open spec fn is_patch_request(request: PatchRequestV1, args: JsonView) -> bool {
    let targets = as_elements(member(args, "targetPaths"@));
    &&& as_text(member(args, "patchId"@)) == Some(request.patch_id@)
    &&& match as_text(member(args, "parentPatchId"@)) {
        Some(parent) => request.parent_patch_id is Some && request.parent_patch_id->0@ == parent,
        None => request.parent_patch_id is None,
    }
    &&& are_operations(request.operations@, as_elements(member(args, "operations"@))->0)
    &&& texts(request.target_paths@) == if targets is Some {
        text_values(targets->0)
    } else {
        without_repeats(texts(sorted(operation_paths(request.operations@), string_less())))
    }
    &&& request.model_rationale@ == match as_text(member(args, "rationale"@)) {
        Some(rationale) => rationale,
        None => "model proposed patch"@,
    }
}

/// Reads the patch that a call asks for. Without named targets, those are the paths of
/// the operations, each once and in order.
pub fn patch_request(args: &JsonValue) -> (r: Result<PatchRequestV1, IntegratedError>)
    ensures
        match r {
            Ok(request) => patch_request_problem(args@) is None && is_patch_request(request, args@),
            Err(IntegratedError::Tool(message)) => patch_request_problem(args@) == Some(message@),
            Err(_) => false,
        },
{
    let patch_id: String = string_arg(args, "patchId")?;
    let parent_patch_id: Option<PatchId> = match text_in(&args.get("parentPatchId")) {
        Some(parent) => match PatchId::new(parent.as_str()) {
            Ok(id) => Some(id),
            Err(message) => return Err(IntegratedError::Tool(message)),
        },
        None => None,
    };
    let items: Vec<String> = match elements_in(&args.get("operations")) {
        Some(items) => items,
        None => return Err(IntegratedError::Tool(text("operations array is required"))),
    };
    let operations: Vec<ReplaceOperationV1> = read_operations(&items)?;
    let target_paths: Vec<String> = match elements_in(&args.get("targetPaths")) {
        Some(_) => string_array_arg(args, "targetPaths")?,
        None => dedup_strings(&sort_strings(paths_of(&operations))),
    };
    Ok(
        PatchRequestV1 {
            patch_id,
            parent_patch_id,
            operations,
            target_paths,
            model_rationale: match text_in(&args.get("rationale")) {
                Some(rationale) => rationale,
                None => text("model proposed patch"),
            },
        },
    )
}

/// The first `n` files as one text: each path and each content, both ended by a zero.
pub open spec fn snapshot_text(paths: Seq<Seq<char>>, contents: Seq<Seq<char>>, n: int) -> Seq<char>
    decreases n,
{
    if n <= 0 {
        Seq::empty()
    } else {
        snapshot_text(paths, contents, n - 1) + paths[n - 1] + "\0"@ + contents[n - 1] + "\0"@
    }
}

/// The fingerprints of files.
pub open spec fn are_file_hashes(
    hashes: Seq<FileHashV1>,
    paths: Seq<Seq<char>>,
    contents: Seq<Seq<char>>,
) -> bool {
    &&& hashes.len() == paths.len()
    &&& forall|i: int|
        0 <= i < hashes.len() ==> (#[trigger] hashes[i]).path@ == paths[i] && hashes[i].hash@
            == fingerprint(contents[i])
}

/// The proposal that a request makes, with the texts of its target files.
pub open spec fn is_proposal(
    proposal: PatchProposalV1,
    request: PatchRequestV1,
    contents: Seq<Seq<char>>,
    service: IntegratedDelegatedService,
) -> bool {
    let paths = texts(request.target_paths@);
    &&& proposal.schema_version == EXECUTION_CONTRACT_SCHEMA_VERSION
    &&& proposal.patch_id@ == request.patch_id@
    &&& proposal.parent_patch_id == request.parent_patch_id
    &&& proposal.run_id == service.run_id
    &&& proposal.turn_id@ == "turn-"@ + decimal(service.next_event_sequence as nat)
    &&& proposal.base_snapshot_hash@ == fingerprint(
        snapshot_text(paths, contents, paths.len() as int),
    )
    &&& proposal.target_paths == request.target_paths
    &&& are_file_hashes(proposal.expected_preimage_hashes@, paths, contents)
    &&& proposal.operations == request.operations
    &&& proposal.model_rationale == request.model_rationale
    &&& proposal.claimed_acceptance_criteria@ == service.contract.acceptance_criteria@
}

// ---------------------------------------------------------------------------
// Results

/// The result of a tool, its text cut to a bound.
pub open spec fn is_tool_result(
    r: IntegratedToolResultV1,
    tool_name: Seq<char>,
    summary: Seq<char>,
    payload: Seq<char>,
    full_text: Seq<char>,
) -> bool {
    &&& r.tool_name@ == tool_name
    &&& r.summary@ == summary
    &&& r.payload@ == payload
    &&& r.bounded_text@ == if utf8_len(full_text) > 16_384 {
        cut(full_text, 16_384)
    } else {
        full_text
    }
}

/// Makes the result of a tool. A text that is too long is cut between two characters.
pub fn tool_result(tool_name: &str, summary: String, payload: String, full_text: &str) -> (r:
    IntegratedToolResultV1)
    requires
        can_cut(full_text@, 16_384),
    ensures
        is_tool_result(r, tool_name@, summary@, payload@, full_text@),
{
    let bounded_text: String = if byte_len(full_text) > 16_384 {
        prefix_within(full_text, 16_384).concat("\n[truncated]")
    } else {
        text(full_text)
    };
    IntegratedToolResultV1 { tool_name: text(tool_name), summary, payload, bounded_text }
}

/// `after` is `list` without the excerpts of a source.
pub open spec fn without_source(
    list: Seq<BoundedSourceExcerptV1>,
    source: Seq<char>,
) -> Seq<BoundedSourceExcerptV1> {
    list.filter(is_of_other(source))
}

/// An excerpt of another source.
pub open spec fn is_of_other(source: Seq<char>) -> spec_fn(BoundedSourceExcerptV1) -> bool {
    |excerpt: BoundedSourceExcerptV1| excerpt.source@ != source
}

/// The excerpt of a file that was read.
pub open spec fn is_read_excerpt(
    excerpt: BoundedSourceExcerptV1,
    source: Seq<char>,
    content: Seq<char>,
) -> bool {
    &&& excerpt.source@ == source
    &&& excerpt.summary@ == "Recent successful file.read result for "@ + source
    &&& excerpt.content@ == advice_shown(content, 2048)
}

/// The excerpts after a file was read: the file last, and no more than three.
pub open spec fn remembers(
    before: Seq<BoundedSourceExcerptV1>,
    after: Seq<BoundedSourceExcerptV1>,
    source: Seq<char>,
    content: Seq<char>,
) -> bool {
    let others = without_source(before, source);
    &&& after.len() == if others.len() + 1 > 3 {
        3
    } else {
        others.len() + 1
    }
    &&& is_read_excerpt(after.last(), source, content)
    &&& after.drop_last() == others.skip(others.len() - (after.len() - 1))
}

impl IntegratedDelegatedService {
    /// Makes the proposal of a request, with the texts of its target files.
    pub fn patch_from_request(&self, request: PatchRequestV1, contents: &Vec<String>) -> (r: Result<
        PatchProposalV1,
        IntegratedError,
    >)
        requires
            contents@.len() == request.target_paths@.len(),
        ensures
            match r {
                Ok(proposal) => is_identifier(request.patch_id@) && is_proposal(
                    proposal,
                    request,
                    texts(contents@),
                    *self,
                ),
                Err(e) => !is_identifier(request.patch_id@) && is_tool_error(
                    e,
                    identifier_message("PatchId"@),
                ),
            },
    {
        let ghost paths = texts(request.target_paths@);
        let ghost all = texts(contents@);
        let mut hashes: Vec<FileHashV1> = Vec::new();
        let mut base: String = text("");
        let mut i: usize = 0;
        assert(base@ =~= snapshot_text(paths, all, 0)) by {
            reveal_strlit("");
        }
        while i < request.target_paths.len()
            invariant
                i <= request.target_paths@.len(),
                contents@.len() == request.target_paths@.len(),
                paths == texts(request.target_paths@),
                all == texts(contents@),
                base@ == snapshot_text(paths, all, i as int),
                hashes@.len() == i,
                forall|j: int|
                    0 <= j < i ==> (#[trigger] hashes@[j]).path@ == paths[j] && hashes@[j].hash@
                        == fingerprint(all[j]),
            decreases request.target_paths@.len() - i,
        {
            assert(paths[i as int] == request.target_paths@[i as int]@);
            assert(all[i as int] == contents@[i as int]@);
            hashes.push(
                FileHashV1 {
                    path: request.target_paths[i].clone(),
                    hash: stable_text_hash(contents[i].as_str()),
                },
            );
            base = base.concat(request.target_paths[i].as_str()).concat("\0").concat(
                contents[i].as_str(),
            ).concat("\0");
            i += 1;
        }
        let patch_id: PatchId = match PatchId::new(request.patch_id.as_str()) {
            Ok(id) => id,
            Err(message) => return Err(IntegratedError::Tool(message)),
        };
        proof {
            reveal_strlit("turn-");
            lemma_numbered_identifier("turn-"@, self.next_event_sequence);
        }
        let turn_id: TurnId = match TurnId::new(
            plus("turn-", to_decimal(self.next_event_sequence).as_str()).as_str(),
        ) {
            Ok(id) => id,
            Err(message) => return Err(IntegratedError::Tool(message)),
        };
        Ok(
            PatchProposalV1 {
                schema_version: EXECUTION_CONTRACT_SCHEMA_VERSION,
                patch_id,
                parent_patch_id: request.parent_patch_id,
                run_id: self.run_id.clone(),
                turn_id,
                base_snapshot_hash: stable_text_hash(base.as_str()),
                target_paths: request.target_paths,
                expected_preimage_hashes: hashes,
                operations: request.operations,
                model_rationale: request.model_rationale,
                claimed_acceptance_criteria: copy_list(&self.contract.acceptance_criteria),
            },
        )
    }

    /// Keeps a proposal whose preview was made.
    pub fn note_preview(
        &mut self,
        journal: &mut DelegatedJournal,
        proposal: PatchProposalV1,
        preview_diff: &str,
    ) -> (r: Result<(), IntegratedError>)
        requires
            old(journal).wf(),
        ensures
            final(journal).wf(),
            match r {
                Ok(_) => {
                    let id = old(self).run_id@;
                    let before = old(journal).run(id);
                    let after = final(journal).run(id);
                    &&& old(journal).has_run(id)
                    &&& preview_refusal(before.patch_proposals@, proposal) is None
                    &&& final(journal).replaces(*old(journal), id, after)
                    &&& after == (RunJournalV1 { patch_proposals: after.patch_proposals, ..before })
                    &&& after.patch_proposals@.len() == before.patch_proposals@.len() + 1
                    &&& after.patch_proposals@.drop_last() == before.patch_proposals@
                    &&& is_proposal_record(
                        after.patch_proposals@.last(),
                        proposal,
                        id,
                        preview_diff@,
                    )
                    &&& *final(self) == (IntegratedDelegatedService {
                        patch_proposals: final(self).patch_proposals,
                        ..*old(self)
                    })
                    &&& final(self).patch_proposals@ == old(self).patch_proposals@.push(proposal)
                },
                Err(e) => {
                    &&& final(journal).runs@ == old(journal).runs@
                    &&& *final(self) == *old(self)
                    &&& if !old(journal).has_run(old(self).run_id@) {
                        is_unknown_run(e, old(self).run_id@)
                    } else {
                        let refusal = preview_refusal(
                            old(journal).run(old(self).run_id@).patch_proposals@,
                            proposal,
                        );
                        &&& refusal is Some
                        &&& e matches IntegratedError::Journal(m) && m@ == debug_variant(
                            "Validation"@,
                            refusal->0,
                        )
                    }
                },
            },
    {
        let mut hashes: Vec<String> = Vec::new();
        let mut i: usize = 0;
        while i < proposal.expected_preimage_hashes.len()
            invariant
                i <= proposal.expected_preimage_hashes@.len(),
                hashes@.len() == i,
                forall|j: int|
                    0 <= j < i ==> #[trigger] hashes@[j]
                        == proposal.expected_preimage_hashes@[j].hash,
            decreases proposal.expected_preimage_hashes@.len() - i,
        {
            hashes.push(proposal.expected_preimage_hashes[i].hash.clone());
            i += 1;
        }
        let record: PatchProposalRecordV1 = PatchProposalRecordV1 {
            schema_version: EXECUTION_CONTRACT_SCHEMA_VERSION,
            patch_id: proposal.patch_id.clone(),
            parent_patch_id: match &proposal.parent_patch_id {
                Some(id) => Some(id.clone()),
                None => None,
            },
            run_id: self.run_id.clone(),
            turn_id: proposal.turn_id.clone(),
            base_snapshot_hash: proposal.base_snapshot_hash.clone(),
            target_paths: copy_list(&proposal.target_paths),
            expected_preimage_hashes: hashes,
            proposed_diff_hash: stable_text_hash(preview_diff),
            model_rationale: proposal.model_rationale.clone(),
        };
        assert(is_proposal_record(record, proposal, self.run_id@, preview_diff@));
        match journal.record_patch_proposal(record) {
            Ok(_) => {},
            Err(e) => return Err(journal_error(&e)),
        }
        proof {
            let id = self.run_id@;
            assert(journal.run(id).patch_proposals@.drop_last() =~= old(journal).run(
                id,
            ).patch_proposals@);
        }
        self.patch_proposals.push(proposal);
        Ok(())
    }

    /// Keeps the application of a patch.
    pub fn note_application(
        &self,
        journal: &mut DelegatedJournal,
        applied: PatchAppliedV1,
        tool_call_id: &str,
    ) -> (r: Result<(), IntegratedError>)
        requires
            old(journal).wf(),
        ensures
            final(journal).wf(),
            match r {
                Ok(_) => {
                    let id = self.run_id@;
                    let before = old(journal).run(id);
                    let after = final(journal).run(id);
                    &&& old(journal).has_run(id)
                    &&& has_proposal(before.patch_proposals@, applied.patch_id@)
                    &&& final(journal).replaces(*old(journal), id, after)
                    &&& after == (RunJournalV1 {
                        patch_applications: after.patch_applications,
                        ..before
                    })
                    &&& after.patch_applications@.len() == before.patch_applications@.len() + 1
                    &&& after.patch_applications@.drop_last() == before.patch_applications@
                    &&& is_application_record(
                        after.patch_applications@.last(),
                        applied,
                        tool_call_id@,
                    )
                },
                Err(e) => {
                    &&& final(journal).runs@ == old(journal).runs@
                    &&& if !is_identifier(diff_artifact_name(applied.patch_id@)) {
                        is_tool_error(e, identifier_message("ArtifactId"@))
                    } else if !is_identifier(tool_call_id@) {
                        is_tool_error(e, identifier_message("ToolCallId"@))
                    } else if !old(journal).has_run(self.run_id@) {
                        is_unknown_run(e, self.run_id@)
                    } else {
                        !has_proposal(
                            old(journal).run(self.run_id@).patch_proposals@,
                            applied.patch_id@,
                        ) && (e matches IntegratedError::Journal(m) && m@ == debug_variant(
                            "Validation"@,
                            "patch application references an unknown proposal"@,
                        ))
                    }
                },
            },
    {
        let artifact_id: ArtifactId = match ArtifactId::new(
            plus("diff-", replace_char(applied.patch_id.as_str(), ':', '_').as_str()).as_str(),
        ) {
            Ok(id) => id,
            Err(message) => return Err(IntegratedError::Tool(message)),
        };
        let call_id: ToolCallId = match ToolCallId::new(tool_call_id) {
            Ok(id) => id,
            Err(message) => return Err(IntegratedError::Tool(message)),
        };
        let ghost given = applied;
        let record: PatchApplicationRecordV1 = PatchApplicationRecordV1 {
            schema_version: EXECUTION_CONTRACT_SCHEMA_VERSION,
            patch_id: applied.patch_id,
            tool_call_id: call_id,
            status: PatchApplicationStatus::Applied,
            actual_paths_changed: applied.actual_paths_changed,
            before_hashes: applied.before_hashes,
            after_hashes: applied.after_hashes,
            result_hash: stable_text_hash(applied.actual_diff.as_str()),
            diff_artifact_id: artifact_id,
        };
        assert(is_application_record(record, given, tool_call_id@));
        match journal.record_patch_application(&self.run_id, record) {
            Ok(_) => {
                proof {
                    let id = self.run_id@;
                    assert(journal.run(id).patch_applications@.drop_last() =~= old(journal).run(
                        id,
                    ).patch_applications@);
                }
                Ok(())
            },
            Err(e) => Err(journal_error(&e)),
        }
    }

    /// Keeps a diff that was captured.
    pub fn note_diff(&mut self, diff: ActualDiffArtifactV1)
        ensures
            *final(self) == (IntegratedDelegatedService { last_diff: Some(diff), ..*old(self) }),
    {
        self.last_diff = Some(diff);
    }

    /// Keeps how a verification came out. One that passed clears the count of failures.
    pub fn note_verification(&mut self, success: bool, report: &str)
        ensures
            *final(self) == (IntegratedDelegatedService {
                last_verification: final(self).last_verification,
                consecutive_failed_verifications: if success {
                    0
                } else if old(self).consecutive_failed_verifications < u32::MAX {
                    (old(self).consecutive_failed_verifications + 1) as u32
                } else {
                    u32::MAX
                },
                advice_consulted_for_current_failure: if success {
                    false
                } else {
                    old(self).advice_consulted_for_current_failure
                },
                ..*old(self)
            }),
            final(self).last_verification is Some,
            final(self).last_verification->0.status == if success {
                VerificationStatusV1::Passed
            } else {
                VerificationStatusV1::Failed
            },
            final(self).last_verification->0.command@ == "verify_project"@,
            final(self).last_verification->0.summary@ == report@,
    {
        if success {
            self.consecutive_failed_verifications = 0;
            self.advice_consulted_for_current_failure = false;
        } else {
            self.consecutive_failed_verifications =
                self.consecutive_failed_verifications.saturating_add(1);
        }
        self.last_verification = Some(
            VerificationSummaryV1 {
                status: if success {
                    VerificationStatusV1::Passed
                } else {
                    VerificationStatusV1::Failed
                },
                command: text("verify_project"),
                summary: text(report),
            },
        );
    }

    /// Remembers a file that was read, if the contract lets the worker change it.
    pub fn record_recent_read_excerpt(&mut self, path: &str, content: &str)
        ensures
            *final(self) == (IntegratedDelegatedService {
                recent_read_excerpts: final(self).recent_read_excerpts,
                ..*old(self)
            }),
            if is_in_scope(old(self).contract, path@) {
                remembers(
                    old(self).recent_read_excerpts@,
                    final(self).recent_read_excerpts@,
                    with_replaced(path@, '\\', '/'),
                    content@,
                )
            } else {
                final(self).recent_read_excerpts@ == old(self).recent_read_excerpts@
            },
    {
        let source: String = replace_char(path, '\\', '/');
        if is_under_one(source.as_str(), &self.contract.forbidden_paths) {
            return;
        }
        if !is_under_one(source.as_str(), &self.contract.allowed_paths) {
            return;
        }
        let ghost all = self.recent_read_excerpts@;
        let ghost keep = is_of_other(source@);
        let mut others: Vec<BoundedSourceExcerptV1> = Vec::new();
        let mut i: usize = 0;
        proof {
            reveal(Seq::filter);
        }
        assert(others@ =~= all.take(0).filter(keep));
        while i < self.recent_read_excerpts.len()
            invariant
                i <= all.len(),
                all == self.recent_read_excerpts@,
                keep == is_of_other(source@),
                others@ == all.take(i as int).filter(keep),
            decreases all.len() - i,
        {
            proof {
                lemma_filter_last(all.take(i + 1), keep);
                assert(all.take(i + 1).drop_last() =~= all.take(i as int));
            }
            if !same(self.recent_read_excerpts[i].source.as_str(), source.as_str()) {
                others.push(self.recent_read_excerpts[i].clone());
            }
            i += 1;
        }
        assert(all.take(i as int) =~= all);
        let count: usize = others.len();
        let first: usize = if count > 2 {
            count - 2
        } else {
            0
        };
        let mut kept: Vec<BoundedSourceExcerptV1> = Vec::new();
        let mut k: usize = first;
        while k < count
            invariant
                count == others@.len(),
                first <= k <= count,
                kept@ == others@.subrange(first as int, k as int),
            decreases count - k,
        {
            kept.push(others[k].clone());
            k += 1;
            assert(kept@ =~= others@.subrange(first as int, k as int));
        }
        let ghost before = kept@;
        kept.push(
            BoundedSourceExcerptV1 {
                source: source.clone(),
                summary: plus("Recent successful file.read result for ", source.as_str()),
                content: redact_and_bound(content, 2_048),
            },
        );
        assert(kept@.drop_last() =~= before);
        assert(before =~= others@.skip(others@.len() - (kept@.len() - 1)));
        self.recent_read_excerpts = kept;
    }
}

/// Why a proposal is not kept, if it is not: it is known already, or its parent is not.
pub open spec fn preview_refusal(
    proposals: Seq<PatchProposalRecordV1>,
    proposal: PatchProposalV1,
) -> Option<Seq<char>> {
    if has_proposal(proposals, proposal.patch_id@) {
        Some("duplicate patch proposal"@)
    } else if proposal.parent_patch_id is Some && !has_proposal(
        proposals,
        proposal.parent_patch_id->0@,
    ) {
        Some("parent patch proposal is missing"@)
    } else {
        None
    }
}

/// What the journal keeps of a proposal.
pub open spec fn is_proposal_record(
    record: PatchProposalRecordV1,
    proposal: PatchProposalV1,
    run_id: Seq<char>,
    preview_diff: Seq<char>,
) -> bool {
    &&& record.schema_version == EXECUTION_CONTRACT_SCHEMA_VERSION
    &&& record.patch_id == proposal.patch_id
    &&& record.parent_patch_id == proposal.parent_patch_id
    &&& record.run_id@ == run_id
    &&& record.turn_id == proposal.turn_id
    &&& record.base_snapshot_hash == proposal.base_snapshot_hash
    &&& record.target_paths@ == proposal.target_paths@
    &&& record.expected_preimage_hashes@.len() == proposal.expected_preimage_hashes@.len()
    &&& forall|i: int|
        0 <= i < record.expected_preimage_hashes@.len() ==> #[trigger] record.expected_preimage_hashes@[i]
            == proposal.expected_preimage_hashes@[i].hash
    &&& record.proposed_diff_hash@ == fingerprint(preview_diff)
    &&& record.model_rationale == proposal.model_rationale
}

/// What the application of a patch has done.
#[derive(Debug)]
pub struct PatchAppliedV1 {
    pub patch_id: PatchId,
    pub actual_paths_changed: Vec<String>,
    pub before_hashes: Vec<String>,
    pub after_hashes: Vec<String>,
    pub actual_diff: String,
}

/// The name under which the diff of a patch is kept.
pub open spec fn diff_artifact_name(patch_id: Seq<char>) -> Seq<char> {
    "diff-"@ + with_replaced(patch_id, ':', '_')
}

/// What the journal keeps of an application.
pub open spec fn is_application_record(
    record: PatchApplicationRecordV1,
    applied: PatchAppliedV1,
    tool_call_id: Seq<char>,
) -> bool {
    &&& record.schema_version == EXECUTION_CONTRACT_SCHEMA_VERSION
    &&& record.patch_id == applied.patch_id
    &&& record.tool_call_id@ == tool_call_id
    &&& record.status == PatchApplicationStatus::Applied
    &&& record.actual_paths_changed == applied.actual_paths_changed
    &&& record.before_hashes == applied.before_hashes
    &&& record.after_hashes == applied.after_hashes
    &&& record.result_hash@ == fingerprint(applied.actual_diff@)
    &&& record.diff_artifact_id@ == diff_artifact_name(applied.patch_id@)
}

/// The result of reading a file.
pub fn read_result(bytes: u64, path: &str, payload: String, rendered: &str) -> (r:
    IntegratedToolResultV1)
    requires
        can_cut(rendered@, 16_384),
    ensures
        is_tool_result(
            r,
            "read"@,
            "read "@ + decimal(bytes as nat) + " bytes from "@ + path@,
            payload@,
            rendered@,
        ),
{
    let summary: String = text("read ").concat(to_decimal(bytes).as_str()).concat(
        " bytes from ",
    ).concat(path);
    tool_result("read", summary, payload, rendered)
}

/// The result of a search.
pub fn search_result(match_count: u64, pattern: &str, payload: String, rendered: &str) -> (r:
    IntegratedToolResultV1)
    requires
        can_cut(rendered@, 16_384),
    ensures
        is_tool_result(
            r,
            "search"@,
            decimal(match_count as nat) + " matches for "@ + pattern@,
            payload@,
            rendered@,
        ),
{
    let summary: String = to_decimal(match_count).concat(" matches for ").concat(pattern);
    tool_result("search", summary, payload, rendered)
}

/// The result of comparing two patches.
pub fn compare_result(files_modified: u64, payload: String, rendered: &str) -> (r:
    IntegratedToolResultV1)
    requires
        can_cut(rendered@, 16_384),
    ensures
        is_tool_result(
            r,
            "patch.compare"@,
            decimal(files_modified as nat) + " modified files"@,
            payload@,
            rendered@,
        ),
{
    let summary: String = to_decimal(files_modified).concat(" modified files");
    tool_result("patch.compare", summary, payload, rendered)
}

/// The result of capturing a diff.
pub fn diff_result(diff: &ActualDiffArtifactV1, payload: String) -> (r: IntegratedToolResultV1)
    requires
        can_cut(diff.diff@, 16_384),
    ensures
        is_tool_result(
            r,
            "diff.actual"@,
            "captured diff hash "@ + diff.diff_hash@,
            payload@,
            diff.diff@,
        ),
{
    tool_result(
        "diff.actual",
        plus("captured diff hash ", diff.diff_hash.as_str()),
        payload,
        diff.diff.as_str(),
    )
}

/// The result of starting a job.
pub fn job_start_result(job_id: &JobId, payload: String) -> (r: IntegratedToolResultV1)
    requires
        is_job_id(job_id@),
    ensures
        is_tool_result(
            r,
            "job.start"@,
            "started "@ + job_id@,
            payload@,
            "jobId: "@ + job_id@,
        ),
{
    let rendered: String = plus("jobId: ", job_id.as_str());
    proof {
        reveal_strlit("jobId: ");
        lemma_utf8_len_concat("jobId: "@, job_id@);
        lemma_ascii_utf8_len("jobId: "@);
    }
    tool_result("job.start", plus("started ", job_id.as_str()), payload, rendered.as_str())
}

/// The result of stopping a job.
pub fn job_cancel_result(job_id: &JobId, status: &str, payload: String) -> (r: IntegratedToolResultV1)
    requires
        is_job_id(job_id@),
    ensures
        is_tool_result(
            r,
            "job.cancel"@,
            status@,
            payload@,
            "cancelled "@ + job_id@,
        ),
{
    let rendered: String = plus("cancelled ", job_id.as_str());
    proof {
        reveal_strlit("cancelled ");
        lemma_utf8_len_concat("cancelled "@, job_id@);
        lemma_ascii_utf8_len("cancelled "@);
    }
    tool_result("job.cancel", text(status), payload, rendered.as_str())
}

/// A piece of a log, as JSON.
pub open spec fn log_payload(poll: LogPoll) -> Seq<char> {
    object(
        seq![
            field("localPath"@, json_string(poll.local_path@)),
            field("nextOffset"@, decimal(poll.next_offset as nat)),
            field("offset"@, decimal(poll.offset as nat)),
            field("rotated"@, truth(poll.rotated)),
            field("text"@, json_string(poll.text@)),
            field("truncated"@, truth(poll.truncated)),
        ],
    )
}

/// The result of reading a log.
pub fn job_poll_result(poll: &LogPoll) -> (r: IntegratedToolResultV1)
    ensures
        is_tool_result(
            r,
            "job.poll"@,
            decimal(utf8_len(poll.text@)) + " bytes"@,
            log_payload(*poll),
            "bounded job log returned in payload"@,
        ),
{
    let fields: Vec<String> = vec![
        field_text("localPath", quoted(poll.local_path.as_str()).as_str()),
        field_text("nextOffset", to_decimal(poll.next_offset).as_str()),
        field_text("offset", to_decimal(poll.offset).as_str()),
        field_text("rotated", truth_text(poll.rotated).as_str()),
        field_text("text", quoted(poll.text.as_str()).as_str()),
        field_text("truncated", truth_text(poll.truncated).as_str()),
    ];
    assert(texts(fields@) =~= seq![
        field("localPath"@, json_string(poll.local_path@)),
        field("nextOffset"@, decimal(poll.next_offset as nat)),
        field("offset"@, decimal(poll.offset as nat)),
        field("rotated"@, truth(poll.rotated)),
        field("text"@, json_string(poll.text@)),
        field("truncated"@, truth(poll.truncated)),
    ]);
    proof {
        reveal_strlit("bounded job log returned in payload");
        let s = "bounded job log returned in payload"@;
        assert forall|i: int| 0 <= i < s.len() implies (#[trigger] s[i] as nat) < 128 by {}
        assert(vstd::utf8::is_ascii_chars(s));
        lemma_ascii_utf8_len(s);
    }
    tool_result(
        "job.poll",
        to_decimal(byte_len(poll.text.as_str()) as u64).concat(" bytes"),
        object_text(&fields),
        "bounded job log returned in payload",
    )
}

} // verus!
