//! Readiness, locks, budgets and the final review of delegated runs.

use vstd::prelude::*;
use vstd::string::*;
use vstd::seq_lib::*;
use crate::contracts::{
    ApprovalRequestV1, ApprovalRequirementKind, ApprovalRequirementV1, Confidence,
    EscalationPacketV1, ExecutionContractV1, FinalRunResultV1, RunId, RunState,
    SupervisorDecisionV1, identifier_message, is_identifier, validate_contract,
};
use crate::EXECUTION_CONTRACT_SCHEMA_VERSION;
use crate::sorting::lemma_filter_last;
use crate::text::{blank, is_blank, same, text, texts};

verus! {

/// Whether a run can start, and which approvals it waits for.
#[derive(Clone, Debug, PartialEq, Eq)]
pub struct RunReadinessV1 {
    pub run_id: RunId,
    pub ready: bool,
    pub missing_approvals: Vec<String>,
    pub warnings: Vec<String>,
}

/// What a run has used of its budgets.
#[derive(Clone, Copy, Debug, PartialEq, Eq)]
pub struct RunBudgetUsageV1 {
    pub turns_used: u32,
    pub tool_calls_used: u32,
    pub elapsed_nanos: u128,
}

/// How a verification came out.
#[derive(Clone, Copy, Debug, PartialEq, Eq, Structural)]
pub enum VerificationStatusV1 {
    Passed,
    Failed,
    NotConfigured,
}

/// A verification and what it reported.
#[derive(Debug, PartialEq, Eq)]
pub struct VerificationSummaryV1 {
    pub status: VerificationStatusV1,
    pub command: String,
    pub summary: String,
}

impl Clone for VerificationSummaryV1 {
    fn clone(&self) -> (r: Self)
        ensures
            r == *self,
    {
        VerificationSummaryV1 {
            status: self.status,
            command: self.command.clone(),
            summary: self.summary.clone(),
        }
    }
}

/// What a person reviews when a run is complete.
#[derive(Clone, Debug, PartialEq, Eq)]
pub struct FinalReviewPackageV1 {
    pub schema_version: u32,
    pub run_id: RunId,
    pub final_result: FinalRunResultV1,
    pub verification: VerificationSummaryV1,
    pub actual_diff_summary: String,
    pub pushed: bool,
    pub merged: bool,
}

/// Why the coordinator refuses something.
#[derive(Debug, PartialEq, Eq)]
pub enum CoordinatorError {
    Validation(String),
    RunAlreadyLocked(String),
    RunNotLocked(String),
    BudgetExhausted(String),
    Approval(String),
    VerificationRequired(String),
}

/// The runs that are being worked on.
pub struct RunCoordinator {
    locked_runs: Vec<String>,
}

impl Default for RunCoordinator {
    fn default() -> (r: Self)
        ensures
            r.wf(),
            r.locked() == Set::<Seq<char>>::empty(),
    {
        RunCoordinator::new()
    }
}

/// The name of an approval kind.
pub open spec fn approval_kind_name(kind: ApprovalRequirementKind) -> Seq<char> {
    match kind {
        ApprovalRequirementKind::RunStart => "RunStart"@,
        ApprovalRequirementKind::ToolException => "ToolException"@,
        ApprovalRequirementKind::UnrestrictedShell => "UnrestrictedShell"@,
        ApprovalRequirementKind::GitPush => "GitPush"@,
        ApprovalRequirementKind::Merge => "Merge"@,
    }
}

fn approval_kind_text(kind: &ApprovalRequirementKind) -> (r: &'static str)
    ensures
        r@ == approval_kind_name(*kind),
{
    match kind {
        ApprovalRequirementKind::RunStart => "RunStart",
        ApprovalRequirementKind::ToolException => "ToolException",
        ApprovalRequirementKind::UnrestrictedShell => "UnrestrictedShell",
        ApprovalRequirementKind::GitPush => "GitPush",
        ApprovalRequirementKind::Merge => "Merge",
    }
}

/// How a missing approval is named: its kind and its reason.
pub open spec fn approval_line(approval: ApprovalRequirementV1) -> Seq<char> {
    approval_kind_name(approval.kind) + ": "@ + approval.reason@
}

/// The approvals that a contract insists on.
pub open spec fn required_approvals(requirements: Seq<ApprovalRequirementV1>) -> Seq<
    ApprovalRequirementV1,
> {
    requirements.filter(|a: ApprovalRequirementV1| a.required)
}

/// A budget of the contract that is used up, if one is.
pub open spec fn exhausted_budget(contract: ExecutionContractV1, usage: RunBudgetUsageV1) -> Option<
    Seq<char>,
> {
    if usage.turns_used >= contract.max_turns {
        Some("turn budget exhausted"@)
    } else if usage.tool_calls_used >= contract.max_tool_calls {
        Some("tool-call budget exhausted"@)
    } else if usage.elapsed_nanos >= contract.max_elapsed_seconds * 1_000_000_000 {
        Some("elapsed-time budget exhausted"@)
    } else {
        None
    }
}

/// Why a run is not ready for its final review, if it is not.
pub open spec fn review_refusal(
    result: FinalRunResultV1,
    verification: VerificationSummaryV1,
    actual_diff_summary: Seq<char>,
) -> Option<Seq<char>> {
    if verification.status != VerificationStatusV1::Passed {
        Some("final completion requires passed verification"@)
    } else if result.status != RunState::CompletedVerified {
        Some("final result must be COMPLETED_VERIFIED"@)
    } else if blank(actual_diff_summary) {
        Some("actual diff summary is required"@)
    } else {
        None
    }
}

impl RunCoordinator {
    /// The runs that hold a lock.
    pub closed spec fn locked(self) -> Set<Seq<char>> {
        texts(self.locked_runs@).to_set()
    }

    /// No run is listed twice.
    pub closed spec fn wf(self) -> bool {
        texts(self.locked_runs@).no_duplicates()
    }

    /// A coordinator with nothing locked.
    pub fn new() -> (r: Self)
        ensures
            r.wf(),
            r.locked() == Set::<Seq<char>>::empty(),
    {
        let r: RunCoordinator = RunCoordinator { locked_runs: Vec::new() };
        assert(r.locked() =~= Set::<Seq<char>>::empty());
        r
    }

    /// Tells which approvals a valid contract still needs before it can run.
    pub fn readiness(&self, contract: &ExecutionContractV1) -> (r: Result<
        RunReadinessV1,
        CoordinatorError,
    >)
        ensures
            match r {
                Ok(readiness) => {
                    &&& contract.refusal() is None
                    &&& is_identifier(contract.task_id@)
                    &&& readiness.run_id@ == contract.task_id@
                    &&& texts(readiness.missing_approvals@) == required_approvals(
                        contract.approval_requirements@,
                    ).map_values(|a: ApprovalRequirementV1| approval_line(a))
                    &&& readiness.ready == (required_approvals(
                        contract.approval_requirements@,
                    ).len() == 0)
                    &&& readiness.warnings@.len() == 0
                },
                Err(CoordinatorError::Validation(message)) => if contract.refusal() is Some {
                    contract.refusal() == Some(message@)
                } else {
                    !is_identifier(contract.task_id@) && message@ == identifier_message("RunId"@)
                },
                Err(_) => false,
            },
    {
        if let Err(message) = validate_contract(contract) {
            return Err(CoordinatorError::Validation(message));
        }
        let run_id: RunId = match RunId::new(contract.task_id.as_str()) {
            Ok(id) => id,
            Err(message) => return Err(CoordinatorError::Validation(message)),
        };
        let mut missing_approvals: Vec<String> = Vec::new();
        let ghost all = contract.approval_requirements@;
        let ghost line = |a: ApprovalRequirementV1| approval_line(a);
        let ghost keep = |a: ApprovalRequirementV1| a.required;
        let mut i: usize = 0;
        proof {
            reveal(Seq::filter);
            assert(texts(missing_approvals@) =~= all.take(0).filter(keep).map_values(line));
        }
        while i < contract.approval_requirements.len()
            invariant
                i <= all.len(),
                all == contract.approval_requirements@,
                line == (|a: ApprovalRequirementV1| approval_line(a)),
                keep == (|a: ApprovalRequirementV1| a.required),
                texts(missing_approvals@) == all.take(i as int).filter(keep).map_values(line),
            decreases all.len() - i,
        {
            let approval: &ApprovalRequirementV1 = &contract.approval_requirements[i];
            proof {
                lemma_filter_last(all.take(i + 1), keep);
                assert(all.take(i + 1).drop_last() =~= all.take(i as int));
            }
            if approval.required {
                let ghost prior = texts(missing_approvals@);
                missing_approvals.push(
                    text(approval_kind_text(&approval.kind)).concat(": ").concat(
                        approval.reason.as_str(),
                    ),
                );
                assert(texts(missing_approvals@) =~= prior.push(approval_line(*approval)));
                assert(all.take(i + 1).filter(keep).map_values(line) =~= prior.push(
                    approval_line(*approval),
                ));
            }
            i += 1;
        }
        assert(all.take(all.len() as int) =~= all);
        assert(required_approvals(all) == all.filter(keep));
        assert(texts(missing_approvals@) =~= required_approvals(all).map_values(
            |a: ApprovalRequirementV1| approval_line(a),
        ));
        assert(texts(missing_approvals@).len() == missing_approvals@.len());
        Ok(
            RunReadinessV1 {
                run_id,
                ready: missing_approvals.len() == 0,
                missing_approvals,
                warnings: Vec::new(),
            },
        )
    }

    fn position(&self, run_id: &RunId) -> (r: Option<usize>)
        ensures
            match r {
                Some(i) => i < self.locked_runs@.len() && texts(self.locked_runs@)[i as int]
                    == run_id@,
                None => !self.locked().contains(run_id@),
            },
    {
        let mut i: usize = 0;
        while i < self.locked_runs.len()
            invariant
                i <= self.locked_runs@.len(),
                forall|j: int| 0 <= j < i ==> texts(self.locked_runs@)[j] != run_id@,
            decreases self.locked_runs@.len() - i,
        {
            if same(self.locked_runs[i].as_str(), run_id.as_str()) {
                return Some(i);
            }
            i += 1;
        }
        None
    }

    /// Locks a run that is not locked.
    pub fn acquire_lock(&mut self, run_id: &RunId) -> (r: Result<(), CoordinatorError>)
        requires
            old(self).wf(),
        ensures
            final(self).wf(),
            final(self).locked() == old(self).locked().insert(run_id@),
            match r {
                Ok(_) => !old(self).locked().contains(run_id@),
                Err(CoordinatorError::RunAlreadyLocked(id)) => old(self).locked().contains(run_id@)
                    && id@ == run_id@,
                Err(_) => false,
            },
    {
        let ghost before = texts(self.locked_runs@);
        if let Some(i) = self.position(run_id) {
            assert(before.contains(before[i as int]));
            assert(self.locked().insert(run_id@) =~= self.locked());
            return Err(CoordinatorError::RunAlreadyLocked(text(run_id.as_str())));
        }
        self.locked_runs.push(text(run_id.as_str()));
        proof {
            assert(texts(self.locked_runs@) =~= before.push(run_id@));
            assert(!before.to_set().contains(run_id@));
            assert(forall|i: int| 0 <= i < before.len() ==> before[i] != run_id@) by {
                assert forall|i: int| 0 <= i < before.len() implies before[i] != run_id@ by {
                    assert(before.to_set().contains(before[i]));
                }
            }
            assert(before.push(run_id@).to_set() =~= before.to_set().insert(run_id@)) by {
                assert forall|x: Seq<char>|
                    before.push(run_id@).to_set().contains(x) == before.to_set().insert(
                        run_id@,
                    ).contains(x) by {
                    if before.contains(x) {
                        let k = choose|k: int| 0 <= k < before.len() && before[k] == x;
                        assert(before.push(run_id@)[k] == x);
                    }
                    assert(before.push(run_id@)[before.len() as int] == run_id@);
                }
            }
        }
        Ok(())
    }

    fn unlock(&mut self, i: usize)
        requires
            old(self).wf(),
            i < old(self).locked_runs@.len(),
        ensures
            final(self).wf(),
            final(self).locked() == old(self).locked().remove(
                texts(old(self).locked_runs@)[i as int],
            ),
    {
        let ghost before = texts(self.locked_runs@);
        let _removed: String = self.locked_runs.remove(i);
        proof {
            let after = texts(self.locked_runs@);
            assert(after =~= before.remove(i as int));
            assert forall|x: Seq<char>|
                after.to_set().contains(x) == before.to_set().remove(before[i as int]).contains(
                    x,
                ) by {
                if after.contains(x) {
                    let k = choose|k: int| 0 <= k < after.len() && after[k] == x;
                    if k < i {
                        assert(before[k] == x);
                    } else {
                        assert(before[k + 1] == x);
                    }
                }
                if before.contains(x) && x != before[i as int] {
                    let k = choose|k: int| 0 <= k < before.len() && before[k] == x;
                    if k < i {
                        assert(after[k] == x);
                    } else {
                        assert(after[k - 1] == x);
                    }
                }
            }
            assert(after.to_set() =~= before.to_set().remove(before[i as int]));
        }
    }

    /// Releases the lock of a run.
    pub fn release_lock(&mut self, run_id: &RunId) -> (r: Result<(), CoordinatorError>)
        requires
            old(self).wf(),
        ensures
            final(self).wf(),
            final(self).locked() == old(self).locked().remove(run_id@),
            match r {
                Ok(_) => old(self).locked().contains(run_id@),
                Err(CoordinatorError::RunNotLocked(id)) => !old(self).locked().contains(run_id@)
                    && id@ == run_id@,
                Err(_) => false,
            },
    {
        match self.position(run_id) {
            Some(i) => {
                assert(texts(self.locked_runs@).contains(texts(self.locked_runs@)[i as int]));
                self.unlock(i);
                Ok(())
            },
            None => {
                assert(self.locked().remove(run_id@) =~= self.locked());
                Err(CoordinatorError::RunNotLocked(text(run_id.as_str())))
            },
        }
    }

    /// Stops a run that has used up its turns, its tool calls or its time.
    pub fn enforce_budget(&self, contract: &ExecutionContractV1, usage: &RunBudgetUsageV1) -> (r:
        Result<(), CoordinatorError>)
        ensures
            match r {
                Ok(_) => exhausted_budget(*contract, *usage) is None,
                Err(CoordinatorError::BudgetExhausted(message)) => exhausted_budget(
                    *contract,
                    *usage,
                ) == Some(message@),
                Err(_) => false,
            },
    {
        if usage.turns_used >= contract.max_turns {
            return Err(CoordinatorError::BudgetExhausted(text("turn budget exhausted")));
        }
        if usage.tool_calls_used >= contract.max_tool_calls {
            return Err(CoordinatorError::BudgetExhausted(text("tool-call budget exhausted")));
        }
        if usage.elapsed_nanos >= (contract.max_elapsed_seconds as u128) * 1_000_000_000 {
            return Err(CoordinatorError::BudgetExhausted(text("elapsed-time budget exhausted")));
        }
        Ok(())
    }

    /// Accepts a decision that settles an approval request.
    pub fn validate_supervisor_decision(
        &self,
        approval: &ApprovalRequestV1,
        decision: &SupervisorDecisionV1,
        current_sequence: u64,
    ) -> (r: Result<(), CoordinatorError>)
        ensures
            match r {
                Ok(_) => approval.refusal(*decision, current_sequence) is None,
                Err(CoordinatorError::Approval(message)) => approval.refusal(
                    *decision,
                    current_sequence,
                ) == Some(message@),
                Err(_) => false,
            },
    {
        match approval.validate_decision(decision, current_sequence) {
            Ok(_) => Ok(()),
            Err(message) => Err(CoordinatorError::Approval(message)),
        }
    }

    /// Puts a blocking question to the supervisor.
    pub fn escalation_packet(
        &self,
        run_id: RunId,
        blocking_question: &str,
        blocking_condition: &str,
        evidence: Vec<String>,
        attempts: Vec<String>,
        recommendation: &str,
    ) -> (packet: EscalationPacketV1)
        ensures
            packet.schema_version == EXECUTION_CONTRACT_SCHEMA_VERSION,
            packet.run_id == run_id,
            packet.blocking_question@ == blocking_question@,
            packet.blocking_condition@ == blocking_condition@,
            packet.evidence == evidence,
            packet.attempts == attempts,
            packet.changed_files@.len() == 0,
            packet.tests_and_command_results@.len() == 0,
            texts(packet.options@) == seq!["continue with narrowed scope"@, "cancel run"@],
            packet.recommendation@ == recommendation@,
            packet.confidence == Confidence::Medium,
            packet.current_checkpoint@ == "coordinator escalation"@,
    {
        let mut options: Vec<String> = Vec::new();
        options.push(text("continue with narrowed scope"));
        options.push(text("cancel run"));
        assert(texts(options@) =~= seq!["continue with narrowed scope"@, "cancel run"@]);
        EscalationPacketV1 {
            schema_version: EXECUTION_CONTRACT_SCHEMA_VERSION,
            run_id,
            blocking_question: text(blocking_question),
            blocking_condition: text(blocking_condition),
            evidence,
            attempts,
            changed_files: Vec::new(),
            tests_and_command_results: Vec::new(),
            options,
            recommendation: text(recommendation),
            confidence: Confidence::Medium,
            current_checkpoint: text("coordinator escalation"),
        }
    }

    /// Cancels a run for a stated reason, and releases its lock if it has one.
    pub fn cancel_run(&mut self, run_id: &RunId, reason: &str) -> (r: Result<
        RunState,
        CoordinatorError,
    >)
        requires
            old(self).wf(),
        ensures
            final(self).wf(),
            match r {
                Ok(state) => !blank(reason@) && state == RunState::Cancelled && final(self).locked() == old(self).locked().remove(run_id@),
                Err(CoordinatorError::Validation(message)) => blank(reason@) && message@
                    == "cancellation reason is required"@ && final(self).locked() == old(self).locked(),
                Err(_) => false,
            },
    {
        if is_blank(reason) {
            return Err(CoordinatorError::Validation(text("cancellation reason is required")));
        }
        match self.position(run_id) {
            Some(i) => self.unlock(i),
            None => {
                assert(self.locked().remove(run_id@) =~= self.locked());
            },
        }
        Ok(RunState::Cancelled)
    }

    /// Packs a verified run for review. Nothing is pushed or merged.
    pub fn final_review_package(
        &self,
        run_id: RunId,
        result: FinalRunResultV1,
        verification: VerificationSummaryV1,
        actual_diff_summary: String,
    ) -> (r: Result<FinalReviewPackageV1, CoordinatorError>)
        ensures
            match r {
                Ok(package) => {
                    &&& review_refusal(result, verification, actual_diff_summary@) is None
                    &&& package == (FinalReviewPackageV1 {
                        schema_version: EXECUTION_CONTRACT_SCHEMA_VERSION,
                        run_id,
                        final_result: result,
                        verification,
                        actual_diff_summary,
                        pushed: false,
                        merged: false,
                    })
                },
                Err(CoordinatorError::VerificationRequired(message)) => review_refusal(
                    result,
                    verification,
                    actual_diff_summary@,
                ) == Some(message@),
                Err(_) => false,
            },
    {
        if verification.status != VerificationStatusV1::Passed {
            return Err(
                CoordinatorError::VerificationRequired(
                    text("final completion requires passed verification"),
                ),
            );
        }
        if result.status != RunState::CompletedVerified {
            return Err(
                CoordinatorError::VerificationRequired(
                    text("final result must be COMPLETED_VERIFIED"),
                ),
            );
        }
        if is_blank(actual_diff_summary.as_str()) {
            return Err(
                CoordinatorError::VerificationRequired(text("actual diff summary is required")),
            );
        }
        Ok(
            FinalReviewPackageV1 {
                schema_version: EXECUTION_CONTRACT_SCHEMA_VERSION,
                run_id,
                final_result: result,
                verification,
                actual_diff_summary,
                pushed: false,
                merged: false,
            },
        )
    }
}

/// A budget that is used up stays used up: using more never makes it available again.
pub proof fn lemma_budget_stays_exhausted(
    contract: ExecutionContractV1,
    earlier: RunBudgetUsageV1,
    later: RunBudgetUsageV1,
)
    requires
        earlier.turns_used <= later.turns_used,
        earlier.tool_calls_used <= later.tool_calls_used,
        earlier.elapsed_nanos <= later.elapsed_nanos,
        exhausted_budget(contract, earlier) is Some,
    ensures
        exhausted_budget(contract, later) is Some,
{
}

} // verus!
