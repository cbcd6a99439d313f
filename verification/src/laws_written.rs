//! What is said of a record when it is written down.

use vstd::prelude::*;
use vstd::string::*;
use crate::advisor::{
    AdviceDisclosureClassification, AdviceRequestV1, AdviceResponseV1, AdvisorConfidence,
    AdvisorStatus, BoundedSourceExcerptV1, advice_shown, excerpts_json,
};
use crate::autonomous_contract::{
    AutonomousCommandProfileV1, AutonomousDevelopmentContractV1, AutonomousGitPolicyV1,
    AutonomousHardStopV1, AutonomousProviderPolicyV1, AutonomousRateLimitPolicyV1,
    AutonomousVerificationPolicyV1, AutonomyLeaseV1, hard_stops_json, profiles_json,
};
use crate::autonomy_state::{
    AutonomousEscalationPacketV1, AutonomousEventV1, AutonomousQueueTaskStateV1,
    AutonomousQueueTaskV1, AutonomousQueueV1, AutonomousSessionSnapshotV1,
    AutonomousSessionStateV1, AutonomousStateStoreV1, SessionRecordV1, events_behind,
    queue_tasks_json,
};
use crate::autonomy_supervisor::{
    ContractPathsV1, INPUT_SCHEMA, SessionChangeV1, TOOL_DESCRIPTION, changed_state,
    create_refusal, created_json, creates, escalation_json, event_texts, events_json,
    fitting_events, is_created, is_read_only, list_json, listed_json, mutates, need_change,
    need_number, need_session, need_text, number_or_null, renewed_json, replies, schema_of,
    status_json, tells_events, tells_status, unavailable_json, valid_json,
};
use crate::context::{CheckpointSummaryV1, artifact_ids_json};
use crate::contracts::{
    AdvisorDisclosureClassificationV1, AdvisorPolicyV1, ApprovalRequirementKind,
    ApprovalRequirementV1, Confidence, EscalationPacketV1, ExecutionContractV1,
    ExpectedArtifactKind, ExpectedArtifactV1, ProviderPolicyV1, RunState, advisor_policy_json,
    artifacts_json, requirements_json,
};
use crate::coordinator::VerificationSummaryV1;
use crate::events::{
    AgentMessageItem, ApprovalRequestItem, DiffArtifact, EscalationArtifact, EventPayloadV1,
    ToolCallItem, ToolResultItem, VerificationArtifact,
};
use crate::hash::fingerprint;
use crate::integrated::{
    call_json, diff_label, malformed_instruction, premature_completion_instruction,
    premature_stop_instruction, verification_label,
};
use crate::integrated_tools::log_payload;
use crate::job_manager::LogPoll;
use crate::json::{
    JsonView, array, field, json_string, object, optional_string, string_array, truth,
};
use crate::laws_records::lemma_written_records;
use crate::laws_text::lemma_has_text_within;
use crate::patching::ActualDiffArtifactV1;
use crate::provider::{NormalizedToolCallV1, ProviderMessageV1};
use crate::text::{blank, decimal, has_text, occurs_at, opt_text, texts, with_replaced};

verus! {

/// A provider policy is written with each of its fields.
pub proof fn lemma_written_provider_policy(record: ProviderPolicyV1)
    ensures
        has_text(
            record.json(),
            field("primaryProviderId"@, json_string(record.primary_provider_id@)),
        ),
        has_text(record.json(), field("primaryModelId"@, json_string(record.primary_model_id@))),
        has_text(
            record.json(),
            field("fallbackProviderIds"@, string_array(texts(record.fallback_provider_ids@))),
        ),
        has_text(record.json(), field("requireToolCalls"@, truth(record.require_tool_calls))),
        has_text(record.json(), field("allowPaidFallbacks"@, truth(record.allow_paid_fallbacks))),
{
    let parts = record.json_fields();
    lemma_written_records(parts, 0);
    lemma_written_records(parts, 1);
    lemma_written_records(parts, 2);
    lemma_written_records(parts, 3);
    lemma_written_records(parts, 4);
}

/// An advisor policy is written with each of its fields.
pub proof fn lemma_written_advisor_policy(record: AdvisorPolicyV1)
    ensures
        has_text(record.json(), field("enabled"@, truth(record.enabled))),
        has_text(record.json(), field("advisorId"@, json_string(record.advisor_id@))),
        has_text(
            record.json(),
            field("disclosureClassification"@, record.disclosure_classification.json()),
        ),
        has_text(
            record.json(),
            field("maximumResponseLength"@, decimal(record.maximum_response_length as nat)),
        ),
        has_text(
            record.json(),
            field(
                "maximumConsultationsPerRun"@,
                decimal(record.maximum_consultations_per_run as nat),
            ),
        ),
        has_text(record.json(), field("adviceRequired"@, truth(record.advice_required))),
{
    let parts = record.json_fields();
    lemma_written_records(parts, 0);
    lemma_written_records(parts, 1);
    lemma_written_records(parts, 2);
    lemma_written_records(parts, 3);
    lemma_written_records(parts, 4);
    lemma_written_records(parts, 5);
}

/// An approval that may be needed is written with each of its fields.
pub proof fn lemma_written_approval_requirement(record: ApprovalRequirementV1)
    ensures
        has_text(record.json(), field("kind"@, record.kind.json())),
        has_text(record.json(), field("required"@, truth(record.required))),
        has_text(record.json(), field("reason"@, json_string(record.reason@))),
{
    let parts = record.json_fields();
    lemma_written_records(parts, 0);
    lemma_written_records(parts, 1);
    lemma_written_records(parts, 2);
}

/// An artifact that is expected is written with each of its fields.
pub proof fn lemma_written_expected_artifact(record: ExpectedArtifactV1)
    ensures
        has_text(record.json(), field("kind"@, record.kind.json())),
        has_text(record.json(), field("name"@, json_string(record.name@))),
        has_text(record.json(), field("required"@, truth(record.required))),
{
    let parts = record.json_fields();
    lemma_written_records(parts, 0);
    lemma_written_records(parts, 1);
    lemma_written_records(parts, 2);
}

/// A contract of execution, and so what its fingerprint is taken of, is written with each of its fields.
pub proof fn lemma_written_execution_contract(record: ExecutionContractV1)
    ensures
        has_text(record.json(), field("schemaVersion"@, decimal(record.schema_version as nat))),
        has_text(record.json(), field("taskId"@, json_string(record.task_id@))),
        has_text(record.json(), field("objective"@, json_string(record.objective@))),
        has_text(record.json(), field("workspace"@, json_string(record.workspace@))),
        has_text(record.json(), field("featureBranch"@, json_string(record.feature_branch@))),
        has_text(record.json(), field("allowedPaths"@, string_array(texts(record.allowed_paths@)))),
        has_text(
            record.json(),
            field("forbiddenPaths"@, string_array(texts(record.forbidden_paths@))),
        ),
        has_text(
            record.json(),
            field("allowedCommandProfiles"@, string_array(texts(record.allowed_command_profiles@))),
        ),
        has_text(record.json(), field("orderedSteps"@, string_array(texts(record.ordered_steps@)))),
        has_text(
            record.json(),
            field("acceptanceCriteria"@, string_array(texts(record.acceptance_criteria@))),
        ),
        has_text(record.json(), field("retryBudget"@, decimal(record.retry_budget as nat))),
        has_text(record.json(), field("maxTurns"@, decimal(record.max_turns as nat))),
        has_text(record.json(), field("maxToolCalls"@, decimal(record.max_tool_calls as nat))),
        has_text(
            record.json(),
            field("maxElapsedSeconds"@, decimal(record.max_elapsed_seconds as nat)),
        ),
        has_text(record.json(), field("providerPolicy"@, record.provider_policy.json())),
        has_text(
            record.json(),
            field("advisorPolicy"@, advisor_policy_json(record.advisor_policy)),
        ),
        has_text(
            record.json(),
            field("escalationConditions"@, string_array(texts(record.escalation_conditions@))),
        ),
        has_text(
            record.json(),
            field("approvalRequirements"@, requirements_json(record.approval_requirements@)),
        ),
        has_text(
            record.json(),
            field("expectedArtifacts"@, artifacts_json(record.expected_artifacts@)),
        ),
        has_text(
            record.json(),
            field("verificationProfile"@, json_string(record.verification_profile@)),
        ),
{
    let parts = record.json_fields();
    lemma_written_records(parts, 0);
    lemma_written_records(parts, 1);
    lemma_written_records(parts, 2);
    lemma_written_records(parts, 3);
    lemma_written_records(parts, 4);
    lemma_written_records(parts, 5);
    lemma_written_records(parts, 6);
    lemma_written_records(parts, 7);
    lemma_written_records(parts, 8);
    lemma_written_records(parts, 9);
    lemma_written_records(parts, 10);
    lemma_written_records(parts, 11);
    lemma_written_records(parts, 12);
    lemma_written_records(parts, 13);
    lemma_written_records(parts, 14);
    lemma_written_records(parts, 15);
    lemma_written_records(parts, 16);
    lemma_written_records(parts, 17);
    lemma_written_records(parts, 18);
    lemma_written_records(parts, 19);
}

/// A question to the supervisor is written with each of its fields.
pub proof fn lemma_written_escalation_packet(record: EscalationPacketV1)
    ensures
        has_text(record.json(), field("schemaVersion"@, decimal(record.schema_version as nat))),
        has_text(record.json(), field("runId"@, json_string(record.run_id@))),
        has_text(record.json(), field("blockingQuestion"@, json_string(record.blocking_question@))),
        has_text(
            record.json(),
            field("blockingCondition"@, json_string(record.blocking_condition@)),
        ),
        has_text(record.json(), field("evidence"@, string_array(texts(record.evidence@)))),
        has_text(record.json(), field("attempts"@, string_array(texts(record.attempts@)))),
        has_text(record.json(), field("changedFiles"@, string_array(texts(record.changed_files@)))),
        has_text(
            record.json(),
            field(
                "testsAndCommandResults"@,
                string_array(texts(record.tests_and_command_results@)),
            ),
        ),
        has_text(record.json(), field("options"@, string_array(texts(record.options@)))),
        has_text(record.json(), field("recommendation"@, json_string(record.recommendation@))),
        has_text(record.json(), field("confidence"@, record.confidence.json())),
        has_text(
            record.json(),
            field("currentCheckpoint"@, json_string(record.current_checkpoint@)),
        ),
{
    let parts = record.json_fields();
    lemma_written_records(parts, 0);
    lemma_written_records(parts, 1);
    lemma_written_records(parts, 2);
    lemma_written_records(parts, 3);
    lemma_written_records(parts, 4);
    lemma_written_records(parts, 5);
    lemma_written_records(parts, 6);
    lemma_written_records(parts, 7);
    lemma_written_records(parts, 8);
    lemma_written_records(parts, 9);
    lemma_written_records(parts, 10);
    lemma_written_records(parts, 11);
}

/// A policy on Git actions is written with each of its fields.
pub proof fn lemma_written_autonomous_git_policy(record: AutonomousGitPolicyV1)
    ensures
        has_text(record.json(), field("createBranch"@, truth(record.create_branch))),
        has_text(record.json(), field("createWorktree"@, truth(record.create_worktree))),
        has_text(record.json(), field("localCommits"@, truth(record.local_commits))),
        has_text(record.json(), field("pushFeatureBranch"@, truth(record.push_feature_branch))),
        has_text(record.json(), field("openPullRequest"@, truth(record.open_pull_request))),
        has_text(record.json(), field("merge"@, truth(record.merge))),
        has_text(record.json(), field("forcePush"@, truth(record.force_push))),
        has_text(record.json(), field("modifyMain"@, truth(record.modify_main))),
{
    let parts = record.json_fields();
    lemma_written_records(parts, 0);
    lemma_written_records(parts, 1);
    lemma_written_records(parts, 2);
    lemma_written_records(parts, 3);
    lemma_written_records(parts, 4);
    lemma_written_records(parts, 5);
    lemma_written_records(parts, 6);
    lemma_written_records(parts, 7);
}

/// A policy on providers is written with each of its fields.
pub proof fn lemma_written_autonomous_provider_policy(record: AutonomousProviderPolicyV1)
    ensures
        has_text(record.json(), field("primaryProvider"@, json_string(record.primary_provider@))),
        has_text(record.json(), field("primaryModel"@, json_string(record.primary_model@))),
        has_text(record.json(), field("routineProvider"@, json_string(record.routine_provider@))),
        has_text(record.json(), field("routineModel"@, json_string(record.routine_model@))),
        has_text(record.json(), field("allowPaidFallback"@, truth(record.allow_paid_fallback))),
        has_text(record.json(), field("allowCloudFallback"@, truth(record.allow_cloud_fallback))),
{
    let parts = record.json_fields();
    lemma_written_records(parts, 0);
    lemma_written_records(parts, 1);
    lemma_written_records(parts, 2);
    lemma_written_records(parts, 3);
    lemma_written_records(parts, 4);
    lemma_written_records(parts, 5);
}

/// A policy on verification is written with each of its fields.
pub proof fn lemma_written_autonomous_verification_policy(record: AutonomousVerificationPolicyV1)
    ensures
        has_text(record.json(), field("profile"@, json_string(record.profile@))),
        has_text(
            record.json(),
            field("requiredCommands"@, profiles_json(record.required_commands@)),
        ),
        has_text(
            record.json(),
            field("maxRepairCycles"@, decimal(record.max_repair_cycles as nat)),
        ),
        has_text(
            record.json(),
            field("requireAuthoritativeDiff"@, truth(record.require_authoritative_diff)),
        ),
        has_text(record.json(), field("requireFinalReview"@, truth(record.require_final_review))),
{
    let parts = record.json_fields();
    lemma_written_records(parts, 0);
    lemma_written_records(parts, 1);
    lemma_written_records(parts, 2);
    lemma_written_records(parts, 3);
    lemma_written_records(parts, 4);
}

/// A policy on limits is written with each of its fields.
pub proof fn lemma_written_autonomous_rate_limit_policy(record: AutonomousRateLimitPolicyV1)
    ensures
        has_text(record.json(), field("automaticPause"@, truth(record.automatic_pause))),
        has_text(record.json(), field("automaticResume"@, truth(record.automatic_resume))),
        has_text(
            record.json(),
            field("initialBackoffSeconds"@, decimal(record.initial_backoff_seconds as nat)),
        ),
        has_text(
            record.json(),
            field("maximumBackoffSeconds"@, decimal(record.maximum_backoff_seconds as nat)),
        ),
        has_text(
            record.json(),
            field(
                "maximumRateLimitedSeconds"@,
                decimal(record.maximum_rate_limited_seconds as nat),
            ),
        ),
        has_text(
            record.json(),
            field("honorProviderRetryAfter"@, truth(record.honor_provider_retry_after)),
        ),
{
    let parts = record.json_fields();
    lemma_written_records(parts, 0);
    lemma_written_records(parts, 1);
    lemma_written_records(parts, 2);
    lemma_written_records(parts, 3);
    lemma_written_records(parts, 4);
    lemma_written_records(parts, 5);
}

/// A lease is written with each of its fields.
pub proof fn lemma_written_autonomy_lease(record: AutonomyLeaseV1)
    ensures
        has_text(
            record.json(),
            field("startApprovalRequired"@, truth(record.start_approval_required)),
        ),
        has_text(record.json(), field("renewalAllowed"@, truth(record.renewal_allowed))),
        has_text(record.json(), field("issuedAtUnix"@, decimal(record.issued_at_unix as nat))),
        has_text(record.json(), field("expiresAtUnix"@, decimal(record.expires_at_unix as nat))),
        has_text(
            record.json(),
            field(
                "maximumTotalElapsedSeconds"@,
                decimal(record.maximum_total_elapsed_seconds as nat),
            ),
        ),
        has_text(
            record.json(),
            field("maximumProviderTurns"@, decimal(record.maximum_provider_turns as nat)),
        ),
        has_text(
            record.json(),
            field("maximumToolCalls"@, decimal(record.maximum_tool_calls as nat)),
        ),
        has_text(
            record.json(),
            field(
                "maximumConsecutiveFailures"@,
                decimal(record.maximum_consecutive_failures as nat),
            ),
        ),
        has_text(
            record.json(),
            field("maximumRepairCycles"@, decimal(record.maximum_repair_cycles as nat)),
        ),
{
    let parts = record.json_fields();
    lemma_written_records(parts, 0);
    lemma_written_records(parts, 1);
    lemma_written_records(parts, 2);
    lemma_written_records(parts, 3);
    lemma_written_records(parts, 4);
    lemma_written_records(parts, 5);
    lemma_written_records(parts, 6);
    lemma_written_records(parts, 7);
    lemma_written_records(parts, 8);
}

/// A contract of development, and so what an approval is given to, is written with each of its fields.
pub proof fn lemma_written_autonomous_development_contract(record: AutonomousDevelopmentContractV1)
    ensures
        has_text(record.json(), field("schemaVersion"@, decimal(record.schema_version as nat))),
        has_text(record.json(), field("contractId"@, json_string(record.contract_id@))),
        has_text(record.json(), field("taskId"@, json_string(record.task_id@))),
        has_text(record.json(), field("projectId"@, json_string(record.project_id@))),
        has_text(record.json(), field("mode"@, json_string(record.mode@))),
        has_text(record.json(), field("objective"@, json_string(record.objective@))),
        has_text(record.json(), field("workspace"@, json_string(record.workspace@))),
        has_text(record.json(), field("baseBranch"@, json_string(record.base_branch@))),
        has_text(record.json(), field("featureBranch"@, json_string(record.feature_branch@))),
        has_text(record.json(), field("baseCommit"@, json_string(record.base_commit@))),
        has_text(record.json(), field("expectedOrigin"@, json_string(record.expected_origin@))),
        has_text(record.json(), field("orderedSteps"@, string_array(texts(record.ordered_steps@)))),
        has_text(record.json(), field("allowedPaths"@, string_array(texts(record.allowed_paths@)))),
        has_text(
            record.json(),
            field("forbiddenPaths"@, string_array(texts(record.forbidden_paths@))),
        ),
        has_text(
            record.json(),
            field("allowedCommandProfiles"@, profiles_json(record.allowed_command_profiles@)),
        ),
        has_text(record.json(), field("gitPolicy"@, record.git_policy.json())),
        has_text(record.json(), field("providerPolicy"@, record.provider_policy.json())),
        has_text(record.json(), field("verificationPolicy"@, record.verification_policy.json())),
        has_text(record.json(), field("rateLimitPolicy"@, record.rate_limit_policy.json())),
        has_text(record.json(), field("autonomyLease"@, record.autonomy_lease.json())),
        has_text(
            record.json(),
            field("hardStopConditions"@, hard_stops_json(record.hard_stop_conditions@)),
        ),
{
    let parts = record.json_fields();
    lemma_written_records(parts, 0);
    lemma_written_records(parts, 1);
    lemma_written_records(parts, 2);
    lemma_written_records(parts, 3);
    lemma_written_records(parts, 4);
    lemma_written_records(parts, 5);
    lemma_written_records(parts, 6);
    lemma_written_records(parts, 7);
    lemma_written_records(parts, 8);
    lemma_written_records(parts, 9);
    lemma_written_records(parts, 10);
    lemma_written_records(parts, 11);
    lemma_written_records(parts, 12);
    lemma_written_records(parts, 13);
    lemma_written_records(parts, 14);
    lemma_written_records(parts, 15);
    lemma_written_records(parts, 16);
    lemma_written_records(parts, 17);
    lemma_written_records(parts, 18);
    lemma_written_records(parts, 19);
    lemma_written_records(parts, 20);
}

/// An event of a session is written with each of its fields.
pub proof fn lemma_written_autonomous_event(record: AutonomousEventV1)
    ensures
        has_text(record.json(), field("kind"@, json_string(record.kind@))),
        has_text(record.json(), field("schemaVersion"@, decimal(record.schema_version as nat))),
        has_text(record.json(), field("sequence"@, decimal(record.sequence as nat))),
        has_text(record.json(), field("sessionId"@, json_string(record.session_id@))),
        has_text(record.json(), field("summary"@, json_string(record.summary@))),
{
    let parts = record.json_fields();
    lemma_written_records(parts, 0);
    lemma_written_records(parts, 1);
    lemma_written_records(parts, 2);
    lemma_written_records(parts, 3);
    lemma_written_records(parts, 4);
}

/// An escalation of a session is written with each of its fields.
pub proof fn lemma_written_autonomous_escalation_packet(record: AutonomousEscalationPacketV1)
    ensures
        has_text(record.json(), field("escalationId"@, json_string(record.escalation_id@))),
        has_text(record.json(), field("reason"@, json_string(record.reason@))),
        has_text(record.json(), field("repairAttempts"@, decimal(record.repair_attempts as nat))),
        has_text(record.json(), field("schemaVersion"@, decimal(record.schema_version as nat))),
        has_text(record.json(), field("sessionId"@, json_string(record.session_id@))),
        has_text(record.json(), field("state"@, record.state.json())),
{
    let parts = record.json_fields();
    lemma_written_records(parts, 0);
    lemma_written_records(parts, 1);
    lemma_written_records(parts, 2);
    lemma_written_records(parts, 3);
    lemma_written_records(parts, 4);
    lemma_written_records(parts, 5);
}

/// A task of a queue is written with each of its fields.
pub proof fn lemma_written_autonomous_queue_task(record: AutonomousQueueTaskV1)
    ensures
        has_text(record.json(), field("dependsOn"@, string_array(texts(record.depends_on@)))),
        has_text(record.json(), field("priority"@, decimal(record.priority as nat))),
        has_text(record.json(), field("state"@, record.state.json())),
        has_text(record.json(), field("taskId"@, json_string(record.task_id@))),
{
    let parts = record.json_fields();
    lemma_written_records(parts, 0);
    lemma_written_records(parts, 1);
    lemma_written_records(parts, 2);
    lemma_written_records(parts, 3);
}

/// A queue is written with each of its fields.
pub proof fn lemma_written_autonomous_queue(record: AutonomousQueueV1)
    ensures
        has_text(record.json(), field("schemaVersion"@, decimal(record.schema_version as nat))),
        has_text(record.json(), field("tasks"@, queue_tasks_json(record.tasks@))),
{
    let parts = record.json_fields();
    lemma_written_records(parts, 0);
    lemma_written_records(parts, 1);
}

/// A message of the worker is written with each of its fields.
pub proof fn lemma_written_agent_message_item(record: AgentMessageItem)
    ensures
        has_text(record.json(), field("kind"@, "\"agentMessage\""@)),
        has_text(record.json(), field("itemId"@, json_string(record.item_id@))),
        has_text(record.json(), field("text"@, json_string(record.text@))),
{
    let parts = record.json_fields();
    lemma_written_records(parts, 0);
    lemma_written_records(parts, 1);
    lemma_written_records(parts, 2);
}

/// A call is written with each of its fields.
pub proof fn lemma_written_tool_call_item(record: ToolCallItem)
    ensures
        has_text(record.json(), field("kind"@, "\"toolCall\""@)),
        has_text(record.json(), field("itemId"@, json_string(record.item_id@))),
        has_text(record.json(), field("toolCallId"@, json_string(record.tool_call_id@))),
        has_text(record.json(), field("toolName"@, json_string(record.tool_name@))),
        has_text(record.json(), field("requestHash"@, json_string(record.request_hash@))),
{
    let parts = record.json_fields();
    lemma_written_records(parts, 0);
    lemma_written_records(parts, 1);
    lemma_written_records(parts, 2);
    lemma_written_records(parts, 3);
    lemma_written_records(parts, 4);
}

/// A request for approval is written with each of its fields.
pub proof fn lemma_written_approval_request_item(record: ApprovalRequestItem)
    ensures
        has_text(record.json(), field("kind"@, "\"approvalRequest\""@)),
        has_text(record.json(), field("itemId"@, json_string(record.item_id@))),
        has_text(record.json(), field("approvalId"@, json_string(record.approval_id@))),
        has_text(record.json(), field("requestHash"@, json_string(record.request_hash@))),
        has_text(record.json(), field("reason"@, json_string(record.reason@))),
{
    let parts = record.json_fields();
    lemma_written_records(parts, 0);
    lemma_written_records(parts, 1);
    lemma_written_records(parts, 2);
    lemma_written_records(parts, 3);
    lemma_written_records(parts, 4);
}

/// The result of a call is written with each of its fields.
pub proof fn lemma_written_tool_result_item(record: ToolResultItem)
    ensures
        has_text(record.json(), field("kind"@, "\"toolResult\""@)),
        has_text(record.json(), field("itemId"@, json_string(record.item_id@))),
        has_text(record.json(), field("toolCallId"@, json_string(record.tool_call_id@))),
        has_text(record.json(), field("resultHash"@, json_string(record.result_hash@))),
        has_text(record.json(), field("summary"@, json_string(record.summary@))),
{
    let parts = record.json_fields();
    lemma_written_records(parts, 0);
    lemma_written_records(parts, 1);
    lemma_written_records(parts, 2);
    lemma_written_records(parts, 3);
    lemma_written_records(parts, 4);
}

/// A diff that is kept is written with each of its fields.
pub proof fn lemma_written_diff_artifact(record: DiffArtifact)
    ensures
        has_text(record.json(), field("kind"@, "\"diffArtifact\""@)),
        has_text(record.json(), field("artifactId"@, json_string(record.artifact_id@))),
        has_text(record.json(), field("path"@, json_string(record.path@))),
        has_text(record.json(), field("summary"@, json_string(record.summary@))),
{
    let parts = record.json_fields();
    lemma_written_records(parts, 0);
    lemma_written_records(parts, 1);
    lemma_written_records(parts, 2);
    lemma_written_records(parts, 3);
}

/// A verification that is kept is written with each of its fields.
pub proof fn lemma_written_verification_artifact(record: VerificationArtifact)
    ensures
        has_text(record.json(), field("kind"@, "\"verificationArtifact\""@)),
        has_text(record.json(), field("artifactId"@, json_string(record.artifact_id@))),
        has_text(record.json(), field("status"@, json_string(record.status@))),
        has_text(record.json(), field("summary"@, json_string(record.summary@))),
{
    let parts = record.json_fields();
    lemma_written_records(parts, 0);
    lemma_written_records(parts, 1);
    lemma_written_records(parts, 2);
    lemma_written_records(parts, 3);
}

/// An escalation that is kept is written with each of its fields.
pub proof fn lemma_written_escalation_artifact(record: EscalationArtifact)
    ensures
        has_text(record.json(), field("kind"@, "\"escalationArtifact\""@)),
        has_text(record.json(), field("artifactId"@, json_string(record.artifact_id@))),
        has_text(record.json(), field("packet"@, record.packet.json())),
{
    let parts = record.json_fields();
    lemma_written_records(parts, 0);
    lemma_written_records(parts, 1);
    lemma_written_records(parts, 2);
}

/// An excerpt is written with each of its fields.
pub proof fn lemma_written_bounded_source_excerpt(record: BoundedSourceExcerptV1)
    ensures
        has_text(record.json(), field("source"@, json_string(record.source@))),
        has_text(record.json(), field("summary"@, json_string(record.summary@))),
        has_text(record.json(), field("content"@, json_string(record.content@))),
{
    let parts = record.json_fields();
    lemma_written_records(parts, 0);
    lemma_written_records(parts, 1);
    lemma_written_records(parts, 2);
}

/// A request for advice is written with each of its fields.
pub proof fn lemma_written_advice_request(record: AdviceRequestV1)
    ensures
        has_text(record.json(), field("schemaVersion"@, decimal(record.schema_version as nat))),
        has_text(record.json(), field("requestId"@, json_string(record.request_id@))),
        has_text(record.json(), field("runId"@, json_string(record.run_id@))),
        has_text(record.json(), field("objective"@, json_string(record.objective@))),
        has_text(record.json(), field("currentStep"@, json_string(record.current_step@))),
        has_text(record.json(), field("specificQuestion"@, json_string(record.specific_question@))),
        has_text(record.json(), field("constraints"@, string_array(texts(record.constraints@)))),
        has_text(
            record.json(),
            field("latestFailure"@, optional_string(opt_text(record.latest_failure))),
        ),
        has_text(
            record.json(),
            field("boundedSourceExcerpts"@, excerpts_json(record.bounded_source_excerpts@)),
        ),
        has_text(
            record.json(),
            field(
                "boundedPatchOrDiffSummary"@,
                optional_string(opt_text(record.bounded_patch_or_diff_summary)),
            ),
        ),
        has_text(
            record.json(),
            field("verificationSummary"@, optional_string(opt_text(record.verification_summary))),
        ),
        has_text(
            record.json(),
            field("disclosureClassification"@, record.disclosure_classification.json()),
        ),
        has_text(
            record.json(),
            field("maximumResponseLength"@, decimal(record.maximum_response_length as nat)),
        ),
{
    let parts = record.json_fields();
    lemma_written_records(parts, 0);
    lemma_written_records(parts, 1);
    lemma_written_records(parts, 2);
    lemma_written_records(parts, 3);
    lemma_written_records(parts, 4);
    lemma_written_records(parts, 5);
    lemma_written_records(parts, 6);
    lemma_written_records(parts, 7);
    lemma_written_records(parts, 8);
    lemma_written_records(parts, 9);
    lemma_written_records(parts, 10);
    lemma_written_records(parts, 11);
    lemma_written_records(parts, 12);
}

/// An answer is written with each of its fields.
pub proof fn lemma_written_advice_response(record: AdviceResponseV1)
    ensures
        has_text(record.json(), field("schemaVersion"@, decimal(record.schema_version as nat))),
        has_text(record.json(), field("requestId"@, json_string(record.request_id@))),
        has_text(record.json(), field("advisorId"@, json_string(record.advisor_id@))),
        has_text(record.json(), field("status"@, record.status.json())),
        has_text(record.json(), field("diagnosis"@, json_string(record.diagnosis@))),
        has_text(
            record.json(),
            field("recommendations"@, string_array(texts(record.recommendations@))),
        ),
        has_text(record.json(), field("risks"@, string_array(texts(record.risks@)))),
        has_text(
            record.json(),
            field("assumptionsOrQuestions"@, string_array(texts(record.assumptions_or_questions@))),
        ),
        has_text(record.json(), field("confidence"@, record.confidence.json())),
        has_text(
            record.json(),
            field(
                "rawArtifactReference"@,
                optional_string(opt_text(record.raw_artifact_reference)),
            ),
        ),
{
    let parts = record.json_fields();
    lemma_written_records(parts, 0);
    lemma_written_records(parts, 1);
    lemma_written_records(parts, 2);
    lemma_written_records(parts, 3);
    lemma_written_records(parts, 4);
    lemma_written_records(parts, 5);
    lemma_written_records(parts, 6);
    lemma_written_records(parts, 7);
    lemma_written_records(parts, 8);
    lemma_written_records(parts, 9);
}

/// A message of a conversation is written with each of its fields.
pub proof fn lemma_written_provider_message(record: ProviderMessageV1)
    ensures
        has_text(record.json(), field("role"@, json_string(record.role@))),
        has_text(record.json(), field("content"@, json_string(record.content@))),
        has_text(
            record.json(),
            field("toolCallId"@, optional_string(opt_text(record.tool_call_id))),
        ),
        has_text(record.json(), field("toolName"@, optional_string(opt_text(record.tool_name)))),
{
    let parts = record.json_fields();
    lemma_written_records(parts, 0);
    lemma_written_records(parts, 1);
    lemma_written_records(parts, 2);
    lemma_written_records(parts, 3);
}

/// A checkpoint is written with each of its fields.
pub proof fn lemma_written_checkpoint_summary(record: CheckpointSummaryV1)
    ensures
        has_text(record.json(), field("runId"@, json_string(record.run_id@))),
        has_text(record.json(), field("objective"@, json_string(record.objective@))),
        has_text(record.json(), field("allowedPaths"@, string_array(texts(record.allowed_paths@)))),
        has_text(
            record.json(),
            field("forbiddenPaths"@, string_array(texts(record.forbidden_paths@))),
        ),
        has_text(
            record.json(),
            field("acceptanceCriteria"@, string_array(texts(record.acceptance_criteria@))),
        ),
        has_text(record.json(), field("currentStep"@, json_string(record.current_step@))),
        has_text(record.json(), field("latestCheckpoint"@, json_string(record.latest_checkpoint@))),
        has_text(
            record.json(),
            field("unresolvedFailure"@, optional_string(opt_text(record.unresolved_failure))),
        ),
        has_text(record.json(), field("remainingTurns"@, decimal(record.remaining_turns as nat))),
        has_text(
            record.json(),
            field("remainingToolCalls"@, decimal(record.remaining_tool_calls as nat)),
        ),
        has_text(
            record.json(),
            field("recentArtifactIds"@, artifact_ids_json(record.recent_artifact_ids@)),
        ),
{
    let parts = record.json_fields();
    lemma_written_records(parts, 0);
    lemma_written_records(parts, 1);
    lemma_written_records(parts, 2);
    lemma_written_records(parts, 3);
    lemma_written_records(parts, 4);
    lemma_written_records(parts, 5);
    lemma_written_records(parts, 6);
    lemma_written_records(parts, 7);
    lemma_written_records(parts, 8);
    lemma_written_records(parts, 9);
    lemma_written_records(parts, 10);
}

/// Each advisor status is written in a way of its own.
pub proof fn lemma_written_advisor_status(value: AdvisorStatus)
    ensures
        value is Ready ==> value.json() == "\"READY\""@,
        value is LoginRequired ==> value.json() == "\"LOGIN_REQUIRED\""@,
        value is TakeoverRequired ==> value.json() == "\"TAKEOVER_REQUIRED\""@,
        value is RateLimited ==> value.json() == "\"RATE_LIMITED\""@,
        value is Unavailable ==> value.json() == "\"UNAVAILABLE\""@,
        value is TimedOut ==> value.json() == "\"TIMED_OUT\""@,
        value is Cancelled ==> value.json() == "\"CANCELLED\""@,
        value is Completed ==> value.json() == "\"COMPLETED\""@,
        value is Failed ==> value.json() == "\"FAILED\""@,
{
}

/// Each advisor confidence is written in a way of its own.
pub proof fn lemma_written_advisor_confidence(value: AdvisorConfidence)
    ensures
        value is Low ==> value.json() == "\"LOW\""@,
        value is Medium ==> value.json() == "\"MEDIUM\""@,
        value is High ==> value.json() == "\"HIGH\""@,
{
}

/// Each advice disclosure classification is written in a way of its own.
pub proof fn lemma_written_advice_disclosure_classification(value: AdviceDisclosureClassification)
    ensures
        value is LocalOnly ==> value.json() == "\"LOCAL_ONLY\""@,
        value is RemoteAllowed ==> value.json() == "\"REMOTE_ALLOWED\""@,
{
}

/// Each autonomous command profile is written in a way of its own.
pub proof fn lemma_written_autonomous_command_profile(value: AutonomousCommandProfileV1)
    ensures
        value is CargoFmt ==> value.json() == "\"CARGO_FMT\""@,
        value is CargoClippy ==> value.json() == "\"CARGO_CLIPPY\""@,
        value is CargoTest ==> value.json() == "\"CARGO_TEST\""@,
        value is CargoBuildRelease ==> value.json() == "\"CARGO_BUILD_RELEASE\""@,
        value is GitStatus ==> value.json() == "\"GIT_STATUS\""@,
        value is GitDiff ==> value.json() == "\"GIT_DIFF\""@,
        value is ApprovedProjectTests ==> value.json() == "\"APPROVED_PROJECT_TESTS\""@,
{
}

/// Each autonomous hard stop is written in a way of its own.
pub proof fn lemma_written_autonomous_hard_stop(value: AutonomousHardStopV1)
    ensures
        value is SecretExposure ==> value.json() == "\"SECRET_EXPOSURE\""@,
        value is WorkspaceContainmentFailure ==> value.json()
            == "\"WORKSPACE_CONTAINMENT_FAILURE\""@,
        value is ProtectedBranchModification ==> value.json()
            == "\"PROTECTED_BRANCH_MODIFICATION\""@,
        value is ForcePushOrMergeAttempt ==> value.json() == "\"FORCE_PUSH_OR_MERGE_ATTEMPT\""@,
        value is RollbackCheckpointUnavailable ==> value.json()
            == "\"ROLLBACK_CHECKPOINT_UNAVAILABLE\""@,
        value is LeaseExpired ==> value.json() == "\"LEASE_EXPIRED\""@,
        value is CancellationRequested ==> value.json() == "\"CANCELLATION_REQUESTED\""@,
{
}

/// Each autonomous session state is written in a way of its own.
pub proof fn lemma_written_autonomous_session_state(value: AutonomousSessionStateV1)
    ensures
        value is Draft ==> value.json() == "\"DRAFT\""@,
        value is Queued ==> value.json() == "\"QUEUED\""@,
        value is Running ==> value.json() == "\"RUNNING\""@,
        value is Verifying ==> value.json() == "\"VERIFYING\""@,
        value is WaitingForChatgpt ==> value.json() == "\"WAITING_FOR_CHATGPT\""@,
        value is WaitingForUser ==> value.json() == "\"WAITING_FOR_USER\""@,
        value is RateLimited ==> value.json() == "\"RATE_LIMITED\""@,
        value is Paused ==> value.json() == "\"PAUSED\""@,
        value is CompletedVerified ==> value.json() == "\"COMPLETED_VERIFIED\""@,
        value is Blocked ==> value.json() == "\"BLOCKED\""@,
        value is Failed ==> value.json() == "\"FAILED\""@,
        value is Cancelled ==> value.json() == "\"CANCELLED\""@,
        value is LeaseExpired ==> value.json() == "\"LEASE_EXPIRED\""@,
        value is CreditBudgetExhausted ==> value.json() == "\"CREDIT_BUDGET_EXHAUSTED\""@,
        value is RecoveringAfterRestart ==> value.json() == "\"RECOVERING_AFTER_RESTART\""@,
{
}

/// Each autonomous queue task state is written in a way of its own.
pub proof fn lemma_written_autonomous_queue_task_state(value: AutonomousQueueTaskStateV1)
    ensures
        value is Planned ==> value.json() == "\"PLANNED\""@,
        value is Ready ==> value.json() == "\"READY\""@,
        value is Running ==> value.json() == "\"RUNNING\""@,
        value is Verifying ==> value.json() == "\"VERIFYING\""@,
        value is WaitingForChatgpt ==> value.json() == "\"WAITING_FOR_CHATGPT\""@,
        value is WaitingForUser ==> value.json() == "\"WAITING_FOR_USER\""@,
        value is RateLimited ==> value.json() == "\"RATE_LIMITED\""@,
        value is Paused ==> value.json() == "\"PAUSED\""@,
        value is CompletedVerified ==> value.json() == "\"COMPLETED_VERIFIED\""@,
        value is Failed ==> value.json() == "\"FAILED\""@,
        value is Cancelled ==> value.json() == "\"CANCELLED\""@,
{
}

/// Each run state is written in a way of its own.
pub proof fn lemma_written_run_state(value: RunState)
    ensures
        value is Draft ==> value.json() == "\"DRAFT\""@,
        value is AwaitingApproval ==> value.json() == "\"AWAITING_APPROVAL\""@,
        value is Ready ==> value.json() == "\"READY\""@,
        value is Starting ==> value.json() == "\"STARTING\""@,
        value is Running ==> value.json() == "\"RUNNING\""@,
        value is Paused ==> value.json() == "\"PAUSED\""@,
        value is NeedsSupervisor ==> value.json() == "\"NEEDS_SUPERVISOR\""@,
        value is CancelRequested ==> value.json() == "\"CANCEL_REQUESTED\""@,
        value is Verifying ==> value.json() == "\"VERIFYING\""@,
        value is CompletedVerified ==> value.json() == "\"COMPLETED_VERIFIED\""@,
        value is Failed ==> value.json() == "\"FAILED\""@,
        value is Cancelled ==> value.json() == "\"CANCELLED\""@,
{
}

/// Each approval requirement kind is written in a way of its own.
pub proof fn lemma_written_approval_requirement_kind(value: ApprovalRequirementKind)
    ensures
        value is RunStart ==> value.json() == "\"RUN_START\""@,
        value is ToolException ==> value.json() == "\"TOOL_EXCEPTION\""@,
        value is UnrestrictedShell ==> value.json() == "\"UNRESTRICTED_SHELL\""@,
        value is GitPush ==> value.json() == "\"GIT_PUSH\""@,
        value is Merge ==> value.json() == "\"MERGE\""@,
{
}

/// Each expected artifact kind is written in a way of its own.
pub proof fn lemma_written_expected_artifact_kind(value: ExpectedArtifactKind)
    ensures
        value is Diff ==> value.json() == "\"DIFF\""@,
        value is Verification ==> value.json() == "\"VERIFICATION\""@,
        value is Escalation ==> value.json() == "\"ESCALATION\""@,
        value is FinalReview ==> value.json() == "\"FINAL_REVIEW\""@,
        value is Log ==> value.json() == "\"LOG\""@,
{
}

/// Each confidence is written in a way of its own.
pub proof fn lemma_written_confidence(value: Confidence)
    ensures
        value is Low ==> value.json() == "\"LOW\""@,
        value is Medium ==> value.json() == "\"MEDIUM\""@,
        value is High ==> value.json() == "\"HIGH\""@,
{
}

/// Each advisor disclosure classification is written in a way of its own.
pub proof fn lemma_written_advisor_disclosure_classification(value: AdvisorDisclosureClassificationV1)
    ensures
        value is LocalOnly ==> value.json() == "\"LOCAL_ONLY\""@,
        value is RemoteAllowed ==> value.json() == "\"REMOTE_ALLOWED\""@,
{
}

// ---------------------------------------------------------------------------
// What a supervisor is answered

/// A session's status says whether it is active, its state and the version that a change
/// has to name, and how many turns and repairs it took.
pub proof fn lemma_told_status(s: AutonomousSessionSnapshotV1)
    ensures
        has_text(status_json(s), field("active"@, truth(s.active))),
        has_text(status_json(s), field("state"@, s.state.json())),
        has_text(status_json(s), field("stateVersion"@, decimal(s.last_event_sequence as nat))),
        has_text(status_json(s), field("sessionId"@, json_string(s.session_id@))),
        has_text(
            status_json(s),
            field("providerTurnCount"@, decimal(s.provider_turn_count as nat)),
        ),
        has_text(status_json(s), field("repairAttempts"@, decimal(s.repair_attempts as nat))),
        s.provider_thread_id is Some ==> has_text(
            status_json(s),
            field("providerThreadCaptured"@, "true"@),
        ),
        s.provider_thread_id is None ==> has_text(
            status_json(s),
            field("providerThreadCaptured"@, "false"@),
        ),
        s.retry_not_before_unix is Some ==> has_text(
            status_json(s),
            field("retryNotBeforeUnix"@, decimal(s.retry_not_before_unix->0 as nat)),
        ),
        s.retry_not_before_unix is None ==> has_text(
            status_json(s),
            field("retryNotBeforeUnix"@, "null"@),
        ),
{
    let parts = seq![
        field("active"@, truth(s.active)),
        field("providerThreadCaptured"@, truth(s.provider_thread_id is Some)),
        field("providerTurnCount"@, decimal(s.provider_turn_count as nat)),
        field("repairAttempts"@, decimal(s.repair_attempts as nat)),
        field("retryNotBeforeUnix"@, number_or_null(s.retry_not_before_unix)),
        field("sessionId"@, json_string(s.session_id@)),
        field("state"@, s.state.json()),
        field("stateVersion"@, decimal(s.last_event_sequence as nat)),
    ];
    assert(status_json(s) == object(parts));
    lemma_written_records(parts, 0);
    lemma_written_records(parts, 1);
    lemma_written_records(parts, 2);
    lemma_written_records(parts, 3);
    lemma_written_records(parts, 4);
    lemma_written_records(parts, 5);
    lemma_written_records(parts, 6);
    lemma_written_records(parts, 7);
}

/// A list of sessions tells each of them, with its state and its version.
pub proof fn lemma_told_sessions(sessions: Seq<SessionRecordV1>, i: int)
    requires
        0 <= i < sessions.len(),
    ensures
        has_text(list_json(sessions), listed_json(sessions[i].snapshot)),
        has_text(
            listed_json(sessions[i].snapshot),
            field("sessionId"@, json_string(sessions[i].snapshot.session_id@)),
        ),
        has_text(
            listed_json(sessions[i].snapshot),
            field("state"@, sessions[i].snapshot.state.json()),
        ),
        has_text(
            listed_json(sessions[i].snapshot),
            field("active"@, truth(sessions[i].snapshot.active)),
        ),
        has_text(
            listed_json(sessions[i].snapshot),
            field("stateVersion"@, decimal(sessions[i].snapshot.last_event_sequence as nat)),
        ),
{
    let s = sessions[i].snapshot;
    let parts = seq![
        field("active"@, truth(s.active)),
        field("sessionId"@, json_string(s.session_id@)),
        field("state"@, s.state.json()),
        field("stateVersion"@, decimal(s.last_event_sequence as nat)),
    ];
    assert(listed_json(s) == object(parts));
    lemma_written_records(parts, 0);
    lemma_written_records(parts, 1);
    lemma_written_records(parts, 2);
    lemma_written_records(parts, 3);
    let told = sessions.map_values(|s: SessionRecordV1| listed_json(s.snapshot));
    lemma_written_records(told, i);
    assert(told[i] == listed_json(s));
    let all = seq![field("sessions"@, array(told))];
    lemma_written_records(all, 0);
    lemma_has_text_within("\""@ + "sessions"@ + "\":"@, array(told), Seq::empty(), told[i]);
    assert("\""@ + "sessions"@ + "\":"@ + array(told) + Seq::<char>::empty() =~= field(
        "sessions"@,
        array(told),
    ));
    lemma_has_text_of_text(list_json(sessions), field("sessions"@, array(told)), told[i]);
}

/// What stands in a part of a text stands in the text.
pub proof fn lemma_has_text_of_text(text: Seq<char>, part: Seq<char>, inner: Seq<char>)
    requires
        has_text(text, part),
        has_text(part, inner),
    ensures
        has_text(text, inner),
{
    let i = choose|i: int| occurs_at(text, part, i);
    let j = choose|j: int| occurs_at(part, inner, j);
    assert(text.subrange(i, i + part.len()) == part);
    assert(text.subrange(i + j, i + j + inner.len()) =~= text.subrange(i, i + part.len()).subrange(
        j,
        j + inner.len(),
    ));
    assert(occurs_at(text, inner, i + j));
}

/// A page of events tells the events that fit behind the number that was asked for, the
/// number to ask behind next, and the state of the session.
pub proof fn lemma_told_events(session: SessionRecordV1, after: u64, limit: u64, max_bytes: u64)
    ensures
        ({
            let all = events_behind(session.events@, after);
            let n = fitting_events(all, 0, 0, limit, max_bytes);
            let told = events_json(session, after, limit, max_bytes);
            &&& has_text(told, field("events"@, array(event_texts(all.take(n)))))
            &&& has_text(told, field("sessionState"@, session.snapshot.state.json()))
            &&& has_text(told, field("hasMore"@, "false"@))
            &&& n > 0 ==> has_text(
                told,
                field("nextSequence"@, decimal(all.take(n).last().sequence as nat)),
            )
            &&& n <= 0 ==> has_text(told, field("nextSequence"@, decimal(after as nat)))
        }),
{
    let all = events_behind(session.events@, after);
    let n = fitting_events(all, 0, 0, limit, max_bytes);
    let chosen = all.take(n);
    let parts = seq![
        field("events"@, array(event_texts(chosen))),
        field("hasMore"@, truth(false)),
        field(
            "nextSequence"@,
            decimal(
                if n > 0 {
                    chosen.last().sequence as nat
                } else {
                    after as nat
                },
            ),
        ),
        field("sessionState"@, session.snapshot.state.json()),
    ];
    assert(events_json(session, after, limit, max_bytes) == object(parts));
    lemma_written_records(parts, 0);
    lemma_written_records(parts, 1);
    lemma_written_records(parts, 2);
    lemma_written_records(parts, 3);
}

/// A session that was created is told as a draft, with the hash that an approval has to
/// name; a contract that holds is told as valid, with its hash.
pub proof fn lemma_told_contracts(id: Seq<char>, hash: Seq<char>)
    ensures
        has_text(created_json(id, hash), field("contractHash"@, json_string(hash))),
        has_text(created_json(id, hash), field("sessionId"@, json_string(id))),
        has_text(created_json(id, hash), field("state"@, json_string("DRAFT"@))),
        has_text(valid_json(hash), field("contractHash"@, json_string(hash))),
        has_text(valid_json(hash), field("valid"@, "true"@)),
        has_text(renewed_json(id), field("renewed"@, "true"@)),
        has_text(renewed_json(id), field("sessionId"@, json_string(id))),
        has_text(unavailable_json(), field("available"@, "false"@)),
{
    let created = seq![
        field("contractHash"@, json_string(hash)),
        field("sessionId"@, json_string(id)),
        field("state"@, json_string("DRAFT"@)),
    ];
    lemma_written_records(created, 0);
    lemma_written_records(created, 1);
    lemma_written_records(created, 2);
    let valid = seq![field("contractHash"@, json_string(hash)), field("valid"@, truth(true))];
    lemma_written_records(valid, 0);
    lemma_written_records(valid, 1);
    let renewed = seq![field("renewed"@, truth(true)), field("sessionId"@, json_string(id))];
    lemma_written_records(renewed, 0);
    lemma_written_records(renewed, 1);
    let gone = seq![field("available"@, truth(false))];
    lemma_written_records(gone, 0);
}

/// An escalation is told where there is one, and else that there is none.
pub proof fn lemma_told_escalations(store: AutonomousStateStoreV1, id: Seq<char>)
    ensures
        store.reaches(id) && store.session(id).escalation is Some ==> escalation_json(store, id)
            == store.session(id).escalation->0.json(),
        !(store.reaches(id) && store.session(id).escalation is Some) ==> escalation_json(store, id)
            == unavailable_json(),
{
}

/// A tool is offered under its name, as read-only exactly when it changes nothing, and as
/// destructive exactly when it cancels.
pub proof fn lemma_offered_tools(name: Seq<char>)
    ensures
        has_text(schema_of(name), field("name"@, json_string(name))),
        has_text(schema_of(name), field("readOnlyHint"@, truth(is_read_only(name)))),
        has_text(
            schema_of(name),
            field("destructiveHint"@, truth(name == "autonomy_session_cancel"@)),
        ),
        has_text(schema_of(name), field("openWorldHint"@, "false"@)),
{
    let hints = seq![
        field("destructiveHint"@, truth(name == "autonomy_session_cancel"@)),
        field("openWorldHint"@, truth(false)),
        field("readOnlyHint"@, truth(is_read_only(name))),
    ];
    lemma_written_records(hints, 0);
    lemma_written_records(hints, 1);
    lemma_written_records(hints, 2);
    let annotations = field("annotations"@, object(hints));
    let parts = seq![
        annotations,
        field("description"@, json_string(TOOL_DESCRIPTION@)),
        field("inputSchema"@, INPUT_SCHEMA@),
        field("name"@, json_string(name)),
        field("title"@, json_string(with_replaced(name, '_', ' '))),
    ];
    assert(schema_of(name) == object(parts));
    lemma_written_records(parts, 0);
    lemma_written_records(parts, 3);
    let head = "\""@ + "annotations"@ + "\":"@;
    assert(head + object(hints) + Seq::<char>::empty() =~= annotations);
    lemma_has_text_within(head, object(hints), Seq::empty(), hints[0]);
    lemma_has_text_within(head, object(hints), Seq::empty(), hints[1]);
    lemma_has_text_within(head, object(hints), Seq::empty(), hints[2]);
    lemma_has_text_of_text(schema_of(name), annotations, hints[0]);
    lemma_has_text_of_text(schema_of(name), annotations, hints[1]);
    lemma_has_text_of_text(schema_of(name), annotations, hints[2]);
}

/// A change names its session, the version it expects and a key of its own; the first of
/// these that is missing is what is said.
pub proof fn lemma_changes_say_what_they_expect(args: JsonView)
    ensures
        need_change(args) is Ok <==> need_session(args) is Ok && need_number(
            args,
            "expectedStateVersion"@,
        ) is Ok && need_text(args, "idempotencyKey"@) is Ok,
        need_change(args) is Ok ==> need_change(args)->Ok_0.0 == need_session(args)->Ok_0
            && need_change(args)->Ok_0.1 == need_number(args, "expectedStateVersion"@)->Ok_0
            && need_change(args)->Ok_0.2 == need_text(args, "idempotencyKey"@)->Ok_0,
        need_session(args) is Err ==> need_change(args) == Err::<
            (Seq<char>, u64, Seq<char>),
            Seq<char>,
        >(need_session(args)->Err_0),
{
}

/// A session is created only from a contract that is taken, and is then a draft beside the
/// others; else nothing changes.
pub proof fn lemma_sessions_are_created(
    before: AutonomousStateStoreV1,
    after: AutonomousStateStoreV1,
    contract: AutonomousDevelopmentContractV1,
    paths: ContractPathsV1,
    workspace: Seq<Seq<char>>,
    r: Result<String, String>,
)
    requires
        creates(before, after, contract, paths, workspace, r),
    ensures
        r is Ok <==> create_refusal(before, contract, paths, workspace) is None,
        r is Err ==> after.sessions@ == before.sessions@,
        r is Err ==> Some(r->Err_0@) == create_refusal(before, contract, paths, workspace),
        r is Ok ==> after.reaches(contract.contract_id@),
        r is Ok ==> is_created(after.session(contract.contract_id@), contract),
        r is Ok ==> r->Ok_0@ == created_json(contract.contract_id@, fingerprint(contract.json())),
{
}

/// A reply without a hash changes nothing.
pub proof fn lemma_replies_need_a_hash(
    before: AutonomousStateStoreV1,
    after: AutonomousStateStoreV1,
    id: Seq<char>,
    expected: u64,
    key: Seq<char>,
    decision_hash: Seq<char>,
    r: Result<String, String>,
)
    requires
        replies(before, after, id, expected, key, decision_hash, r),
    ensures
        blank(decision_hash) ==> r is Err && after.sessions@ == before.sessions@,
        !blank(decision_hash) ==> mutates(
            before,
            after,
            id,
            expected,
            key,
            SessionChangeV1::PlannerReply,
            r,
        ),
{
}

/// Where a change leads: a pause to a pause, a cancellation to the end, a renewal nowhere,
/// and every other back into the queue.
pub proof fn lemma_where_changes_lead(s: AutonomousSessionSnapshotV1, change: SessionChangeV1)
    ensures
        changed_state(s, change) is Cancelled <==> change is Cancel || (change is RenewLease
            && s.state is Cancelled),
        change is Pause ==> changed_state(s, change) is Paused,
        change is RenewLease ==> changed_state(s, change) == s.state,
        !(change is Pause) && !(change is Cancel) && !(change is RenewLease) ==> changed_state(
            s,
            change,
        ) is Queued,
{
}

/// A session is told of, or its events are, exactly where it is there.
pub proof fn lemma_told_only_where_there(
    store: AutonomousStateStoreV1,
    id: Seq<char>,
    after: u64,
    limit: u64,
    max_bytes: u64,
    status: Result<String, String>,
    events: Result<String, String>,
)
    requires
        tells_status(store, id, status),
        tells_events(store, id, after, limit, max_bytes, events),
    ensures
        status is Ok <==> store.reaches(id),
        events is Ok <==> store.reaches(id),
        status is Ok ==> status->Ok_0@ == status_json(store.session(id).snapshot),
        events is Ok ==> events->Ok_0@ == events_json(store.session(id), after, limit, max_bytes),
{
}

// ---------------------------------------------------------------------------
// Events, calls and corrections

/// An event says what kind it is of, and what its kind has to say.
pub proof fn lemma_written_event_payload(record: EventPayloadV1)
    ensures
        record matches EventPayloadV1::RunStateChanged { state } ==> has_text(
            record.json(),
            field("kind"@, "\"runStateChanged\""@),
        ) && has_text(record.json(), field("state"@, state.json())),
        record matches EventPayloadV1::Delta { text } ==> has_text(
            record.json(),
            field("kind"@, "\"delta\""@),
        ) && has_text(record.json(), field("text"@, json_string(text@))),
        record matches EventPayloadV1::Item { item } ==> has_text(
            record.json(),
            field("kind"@, "\"item\""@),
        ) && has_text(record.json(), field("item"@, item.json())),
        record matches EventPayloadV1::AdviceRequest { request } ==> has_text(
            record.json(),
            field("request"@, request.json()),
        ),
        record matches EventPayloadV1::AdviceResponse { response } ==> has_text(
            record.json(),
            field("response"@, response.json()),
        ),
        record matches EventPayloadV1::Failed { error } ==> has_text(
            record.json(),
            field("kind"@, "\"failed\""@),
        ) && has_text(record.json(), field("error"@, json_string(error@))),
        record matches EventPayloadV1::Cancelled { reason } ==> has_text(
            record.json(),
            field("kind"@, "\"cancelled\""@),
        ) && has_text(record.json(), field("reason"@, json_string(reason@))),
        record matches EventPayloadV1::OutcomeUnknown { reason } ==> has_text(
            record.json(),
            field("kind"@, "\"outcomeUnknown\""@),
        ) && has_text(record.json(), field("reason"@, json_string(reason@))),
{
    let parts = record.json_fields();
    lemma_written_records(parts, 0);
    lemma_written_records(parts, 1);
}

/// A call is told by its tool and its arguments as they were given.
pub proof fn lemma_told_calls(call: NormalizedToolCallV1)
    ensures
        has_text(call_json(call), field("tool"@, json_string(call.tool_name@))),
        has_text(call_json(call), field("arguments"@, call.arguments@)),
{
    let parts = seq![
        field("arguments"@, call.arguments@),
        field("tool"@, json_string(call.tool_name@)),
    ];
    lemma_written_records(parts, 0);
    lemma_written_records(parts, 1);
}

/// A look at a log tells where it began, where to go on, what was there, and whether it
/// was cut or had been started anew.
pub proof fn lemma_told_logs(poll: LogPoll)
    ensures
        has_text(log_payload(poll), field("offset"@, decimal(poll.offset as nat))),
        has_text(log_payload(poll), field("nextOffset"@, decimal(poll.next_offset as nat))),
        has_text(log_payload(poll), field("text"@, json_string(poll.text@))),
        has_text(log_payload(poll), field("truncated"@, truth(poll.truncated))),
        has_text(log_payload(poll), field("rotated"@, truth(poll.rotated))),
        has_text(log_payload(poll), field("localPath"@, json_string(poll.local_path@))),
{
    let parts = seq![
        field("localPath"@, json_string(poll.local_path@)),
        field("nextOffset"@, decimal(poll.next_offset as nat)),
        field("offset"@, decimal(poll.offset as nat)),
        field("rotated"@, truth(poll.rotated)),
        field("text"@, json_string(poll.text@)),
        field("truncated"@, truth(poll.truncated)),
    ];
    assert(log_payload(poll) == object(parts));
    lemma_written_records(parts, 0);
    lemma_written_records(parts, 1);
    lemma_written_records(parts, 2);
    lemma_written_records(parts, 3);
    lemma_written_records(parts, 4);
    lemma_written_records(parts, 5);
}

/// What a worker is told to do next stands at the end of every correction.
pub proof fn lemma_told_next_actions(
    action: Seq<char>,
    error: Seq<char>,
    count: Option<u64>,
)
    ensures
        has_text(malformed_instruction(action), action),
        has_text(premature_completion_instruction(error, action), action),
        has_text(premature_completion_instruction(error, action), advice_shown(error, 512)),
        has_text(premature_stop_instruction(action, count), action),
        count is None ==> exists|n: int|
            0 <= n <= premature_stop_instruction(action, count).len()
                && #[trigger] premature_stop_instruction(action, count).skip(n) == action,
{
    reveal_strlit("");
    let a = malformed_instruction(action);
    let i = a.len() - action.len();
    assert(a.subrange(i, i + action.len()) =~= action);
    assert(occurs_at(a, action, i));
    let b = premature_completion_instruction(error, action);
    let j = b.len() - action.len();
    assert(b.subrange(j, j + action.len()) =~= action);
    assert(occurs_at(b, action, j));
    let said = advice_shown(error, 512);
    let k = "The previous response claimed completion before CatDesk accepted the final evidence. Gate error: "@.len();
    assert(b.subrange(k as int, (k + said.len()) as int) =~= said);
    assert(occurs_at(b, said, k as int));
    let c = premature_stop_instruction(action, count);
    let l = "The provider stopped without a CatDesk tool call before the run was verified. Required next action: "@.len();
    assert(c.subrange(l as int, (l + action.len()) as int) =~= action);
    assert(occurs_at(c, action, l as int));
    if count is None {
        assert(c.skip(l as int) =~= action);
    }
}

/// What was verified, and what was captured, is named as it is.
pub proof fn lemma_named_evidence(
    verification: Option<VerificationSummaryV1>,
    diff: Option<ActualDiffArtifactV1>,
)
    ensures
        verification is None ==> verification_label(verification) == "not-run"@,
        verification is Some && verification->0.status is Passed ==> verification_label(
            verification,
        ) == "Passed"@,
        verification is Some && verification->0.status is Failed ==> verification_label(
            verification,
        ) == "Failed"@,
        verification is Some && verification->0.status is NotConfigured ==> verification_label(
            verification,
        ) == "NotConfigured"@,
        diff is None ==> diff_label(diff) == "none"@,
        diff is Some ==> diff_label(diff) == diff->0.diff_hash@,
{
}

} // verus!
