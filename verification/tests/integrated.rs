use catdesk_delegated::advisor::{
    AdviceDisclosureClassification, AdviceResponseV1, AdviceTrigger, AdvisorConfidence,
    AdvisorError, AdvisorStatus, FakeAdvisor,
};
use catdesk_delegated::contracts::{
    ApprovalRequirementKind, ApprovalRequirementV1, ExecutionContractV1, ExpectedArtifactKind,
    ExpectedArtifactV1, PatchId, ProviderPolicyV1, RunState, ToolCallId, TurnId,
};
use catdesk_delegated::coordinator::VerificationStatusV1;
use catdesk_delegated::events::{EventCursor, EventPayloadV1};
use catdesk_delegated::integrated::{
    ensure_diff_paths_allowed, evaluate_acceptance_criteria_v1, normalize_acceptance_criterion,
    path_is_under_contract_path, EventStepV1, IntegratedAdvisorConfigV1,
    IntegratedAdvisorLocalRuntimeConfigV1, IntegratedDelegatedService, IntegratedDurableStateV1,
    IntegratedError, IntegratedRunConfigV1, IntegratedToolResultV1, MAX_CORRECTIVE_TURNS_PER_RUN,
};
use catdesk_delegated::integrated_advice::{advisor_process_config, broker_config};
use catdesk_delegated::integrated_tools::{
    compare_result, contained_job_cwd, diff_paths, diff_result, job_cancel_result, job_directory,
    job_poll_args, job_poll_result, job_spec, job_start_result, patch_request, read_result,
    search_options, search_result, string_array_arg, tool_named, tool_result, verify_timeout,
    IntegratedToolV1, PatchAppliedV1, PatchRequestV1,
};
use catdesk_delegated::job_manager::{JobId, LogPoll, LogStream};
use catdesk_delegated::journal::{DelegatedJournal, ToolCallStatus, ToolMutationKind};
use catdesk_delegated::json::JsonValue;
use catdesk_delegated::patching::{ActualDiffArtifactV1, PatchProposalV1, ReplaceOperationV1};
use catdesk_delegated::provider::{
    NormalizedProviderEventKind, NormalizedProviderEventV1, NormalizedToolCallV1,
    ProviderMessageV1, RuntimeError, ToolDefinitionV1,
};

fn contract(task_id: &str) -> ExecutionContractV1 {
    ExecutionContractV1 {
        schema_version: 1,
        task_id: task_id.into(),
        objective: "Fix the answer.".into(),
        workspace: "/work".into(),
        feature_branch: "feature/answer".into(),
        allowed_paths: vec!["src".into()],
        forbidden_paths: vec![".git".into(), "target".into()],
        allowed_command_profiles: vec!["cargo".into()],
        ordered_steps: vec!["inspect".into(), "patch".into(), "verify".into()],
        acceptance_criteria: vec![
            "cargo tests pass".into(),
            "authoritative diff is captured".into(),
        ],
        retry_budget: 2,
        max_turns: 10,
        max_tool_calls: 10,
        max_elapsed_seconds: 600,
        provider_policy: ProviderPolicyV1 {
            primary_provider_id: "ollama".into(),
            primary_model_id: "qwen3.5:9b".into(),
            fallback_provider_ids: Vec::new(),
            require_tool_calls: true,
            allow_paid_fallbacks: false,
        },
        advisor_policy: None,
        escalation_conditions: vec!["needs human".into()],
        approval_requirements: vec![ApprovalRequirementV1 {
            kind: ApprovalRequirementKind::RunStart,
            required: true,
            reason: "operator approval".into(),
        }],
        expected_artifacts: vec![ExpectedArtifactV1 {
            kind: ExpectedArtifactKind::FinalReview,
            name: "final review".into(),
            required: true,
        }],
        verification_profile: "cargo".into(),
    }
}

fn config() -> IntegratedRunConfigV1 {
    IntegratedRunConfigV1 {
        journal_root: "/work/journal".into(),
        job_root: "/work/jobs".into(),
        ollama_base_url: "http://localhost:11434".into(),
        model_id: "qwen3.5:9b".into(),
        advisor: None,
    }
}

fn advisor_config(advice_required: bool) -> IntegratedAdvisorConfigV1 {
    IntegratedAdvisorConfigV1 {
        enabled: true,
        advisor_id: "deepseek-web".into(),
        disclosure_classification: AdviceDisclosureClassification::RemoteAllowed,
        maximum_response_length: 1024,
        maximum_consultations_per_run: 1,
        advice_required,
        local_runtime: None,
    }
}

fn tools() -> Vec<ToolDefinitionV1> {
    [
        ("read", ToolMutationKind::ReadOnly),
        ("patch.preview", ToolMutationKind::ReadOnly),
        ("patch.apply", ToolMutationKind::Mutating),
        ("verify.run", ToolMutationKind::ReadOnly),
        ("diff.actual", ToolMutationKind::ReadOnly),
        ("job.start", ToolMutationKind::Mutating),
    ]
    .iter()
    .map(|(name, mutation_kind)| ToolDefinitionV1 {
        name: name.to_string(),
        description: String::new(),
        input_schema: "{}".into(),
        mutation_kind: *mutation_kind,
    })
    .collect()
}

fn service(task_id: &str, config: IntegratedRunConfigV1) -> (IntegratedDelegatedService, DelegatedJournal) {
    let mut journal = DelegatedJournal::new();
    let mut service =
        IntegratedDelegatedService::new(contract(task_id), config, tools()).expect("service");
    service.start(&mut journal).expect("start");
    (service, journal)
}

fn call(id: &str, name: &str) -> NormalizedToolCallV1 {
    NormalizedToolCallV1 {
        tool_call_id: ToolCallId::new(id).expect("tool id"),
        tool_name: name.into(),
        arguments_hash: "fnv1a64:args".into(),
        arguments: "{\"path\":\"src/lib.rs\"}".into(),
    }
}

fn record(members: &[(&str, &str)]) -> JsonValue {
    JsonValue::Record(
        members
            .iter()
            .map(|(key, value)| (key.to_string(), value.to_string()))
            .collect(),
    )
}

fn proposal(service: &IntegratedDelegatedService, id: &str) -> PatchProposalV1 {
    service
        .patch_from_request(
            PatchRequestV1 {
                patch_id: id.into(),
                parent_patch_id: None,
                operations: vec![ReplaceOperationV1 {
                    path: "src/lib.rs".into(),
                    old_text: "41".into(),
                    new_text: "42".into(),
                }],
                target_paths: vec!["src/lib.rs".into()],
                model_rationale: "model proposed patch".into(),
            },
            &vec!["pub fn answer() -> i32 { 41 }\n".into()],
        )
        .expect("proposal")
}

fn applied(id: &str) -> PatchAppliedV1 {
    PatchAppliedV1 {
        patch_id: PatchId::new(id).expect("patch id"),
        actual_paths_changed: vec!["src/lib.rs".into()],
        before_hashes: vec!["fnv1a64:before".into()],
        after_hashes: vec!["fnv1a64:after".into()],
        actual_diff: "diff".into(),
    }
}

fn diff(paths: &[&str]) -> ActualDiffArtifactV1 {
    ActualDiffArtifactV1 {
        base_ref: "HEAD".into(),
        paths: paths.iter().map(|path| path.to_string()).collect(),
        diff: "diff --git a/src/lib.rs b/src/lib.rs".into(),
        diff_hash: "fnv1a64:diff".into(),
    }
}

fn event(kind: NormalizedProviderEventKind, text: Option<&str>) -> NormalizedProviderEventV1 {
    NormalizedProviderEventV1 {
        provider_id: "fake".into(),
        turn_id: TurnId::new("turn-1").expect("turn"),
        kind,
        text: text.map(String::from),
        tool_call: None,
    }
}

fn result(text: &str) -> IntegratedToolResultV1 {
    tool_result("read", "done".into(), "{}".into(), text)
}

fn said(service: &IntegratedDelegatedService, part: &str) -> bool {
    service
        .provider_history
        .iter()
        .any(|message| message.content.contains(part))
}

#[test]
fn production_loop_acknowledges_cancel_before_provider_turn() {
    let (mut service, mut journal) = service("run-cancel-ack", config());
    let result = service.before_turn(&mut journal, 1, true, 0);
    assert!(
        matches!(result, Err(IntegratedError::Tool(message)) if message.contains("cancelled"))
    );
    let snapshot = journal.load_run(&service.run_id()).expect("snapshot");
    assert_eq!(snapshot.state, RunState::Cancelled);
}

#[test]
fn turns_and_time_are_bounded() {
    let (mut service, mut journal) = service("run-bounds", config());
    let ask = service.before_turn(&mut journal, 3, false, 0).expect("turn");
    assert_eq!(ask.turn_id.as_str(), "turn-3");
    assert!(!ask.json_envelope);
    assert!(matches!(
        service.before_turn(&mut journal, 11, false, 0),
        Err(IntegratedError::Tool(message)) if message == "turn budget exceeded"
    ));
    assert!(service.before_turn(&mut journal, 4, false, 600_000_000_000).is_ok());
    assert!(matches!(
        service.before_turn(&mut journal, 4, false, 600_000_000_001),
        Err(IntegratedError::Tool(message)) if message == "elapsed budget exceeded"
    ));
    assert_eq!(
        journal.load_run(&service.run_id()).expect("run").state,
        RunState::Failed
    );
}

#[test]
fn tool_failures_transition_to_failed_or_outcome_unknown() {
    let (service, mut journal) = service("run-t0023b-failures", config());
    let read_call = call("tc-read-missing", "read");
    let kind = service.begin_tool_call(&mut journal, &read_call).expect("begun");
    let error = IntegratedError::Tool("no such file".into());
    service.fail_tool_call(&mut journal, &read_call, kind, &error);
    let apply_call = call("tc-apply-missing", "patch.apply");
    let kind = service.begin_tool_call(&mut journal, &apply_call).expect("begun");
    let told = service.fail_tool_call(&mut journal, &apply_call, kind, &error);
    assert_eq!(told, IntegratedError::Tool("Tool(\"no such file\")".into()));
    let calls = journal.load_tool_calls(&service.run_id()).expect("tool calls");
    let status = |id: &str| {
        calls
            .iter()
            .find(|record| record.tool_call_id.as_str() == id)
            .expect("call")
            .status
    };
    assert_eq!(status("tc-read-missing"), ToolCallStatus::Failed);
    assert_eq!(status("tc-apply-missing"), ToolCallStatus::OutcomeUnknown);
    assert!(service.ensure_no_outcome_unknown(&journal).is_err());
}

#[test]
fn completed_calls_are_told_and_never_made_again() {
    let (mut service, mut journal) = service("run-complete", config());
    let read_call = call("tc-1", "read");
    service.begin_tool_call(&mut journal, &read_call).expect("begun");
    service.complete_tool_call(&mut journal, &read_call, &result("file text"));
    assert_eq!(service.completed_tool_calls, 1);
    let last = service.provider_history.last().expect("message");
    assert_eq!(last.role, "tool");
    assert_eq!(last.content, "file text");
    assert_eq!(last.tool_call_id.as_deref(), Some("tc-1"));
    assert!(matches!(
        service.begin_tool_call(&mut journal, &read_call),
        Err(IntegratedError::Tool(message)) if message == "tool call tc-1 already completed"
    ));
    service.completed_tool_call_ids.clear();
    assert!(matches!(
        service.begin_tool_call(&mut journal, &read_call),
        Err(IntegratedError::Journal(message)) if message == "DuplicateToolCall(\"tc-1\")"
    ));
    let events = service.events(&journal, 0, 10).expect("events");
    assert!(matches!(
        &events.last().expect("event").payload,
        EventPayloadV1::Delta { text } if text == "tool read completed: done"
    ));
}

#[test]
fn tools_outside_the_surface_or_the_budget_are_refused() {
    let (mut service, mut journal) = service("run-policy", config());
    assert!(service.tool_definitions().iter().all(|tool| !tool.name.starts_with("job.")));
    assert!(matches!(
        service.begin_tool_call(&mut journal, &call("tc-1", "job.start")),
        Err(IntegratedError::Tool(message))
            if message == "tool job.start is not in the approved CatDesk tool surface"
    ));
    service.completed_tool_calls = 10;
    assert!(matches!(
        service.begin_tool_call(&mut journal, &call("tc-1", "read")),
        Err(IntegratedError::Tool(message)) if message == "tool-call budget exceeded: 10 >= 10"
    ));
    service.completed_tool_calls = 0;
    service.contract.approval_requirements[0].kind = ApprovalRequirementKind::ToolException;
    assert!(matches!(
        service.begin_tool_call(&mut journal, &call("tc-1", "patch.apply")),
        Err(IntegratedError::Tool(message))
            if message == "mutating tool requires explicit supervisor approval"
    ));
    assert!(service.begin_tool_call(&mut journal, &call("tc-1", "read")).is_ok());
}

#[test]
fn latest_unapplied_patch_follows_journal_proposal_chronology() {
    let (mut service, mut journal) = service("run-latest-patch-chronology", config());
    for patch_id in ["patch-9", "patch-10"] {
        let proposal = proposal(&service, patch_id);
        service.note_preview(&mut journal, proposal, "preview").expect("preview");
    }
    let next_action = service
        .next_required_action_from_persisted_state(&journal)
        .expect("next action")
        .expect("patch action");
    assert!(next_action.contains("patch.apply with patchId patch-10"));
    assert!(!next_action.contains("patch.apply with patchId patch-9"));
    assert_eq!(
        service.patch_proposal("patch-9").expect("patch").patch_id.as_str(),
        "patch-9"
    );
    let again = proposal(&service, "patch-9");
    assert!(matches!(
        service.note_preview(&mut journal, again, "preview"),
        Err(IntegratedError::Journal(message))
            if message == "Validation(\"duplicate patch proposal\")"
    ));
}

#[test]
fn no_patch_task_is_not_forced_into_patch_apply() {
    let (mut service, mut journal) = service("run-no-patch-next-action", config());
    service.contract.acceptance_criteria = vec!["cargo tests pass".into()];
    let corrected = service
        .push_premature_completion_correction(
            &mut journal,
            1,
            &IntegratedError::Verification("verification has not run".into()),
            &Some("stop".into()),
            Some(256),
        )
        .expect("correction");
    assert!(corrected);
    let correction = service.provider_history.last().expect("correction");
    assert!(correction.content.contains("call verify.run next"));
    assert!(!correction.content.contains("patch.apply with patchId"));
}

#[test]
fn recovered_patch_application_remains_authoritative_after_restart() {
    let (mut service, mut journal) = service("run-persisted-tool-authority", config());
    let patch = proposal(&service, "patch-good");
    service.note_preview(&mut journal, patch, "preview").expect("preview");
    service
        .note_application(&mut journal, applied("patch-good"), "direct-patch-apply")
        .expect("apply");
    let recovered = IntegratedDelegatedService::recover(
        contract("run-persisted-tool-authority"),
        config(),
        tools(),
        &journal,
        None,
    )
    .expect("recover");
    let next_action = recovered
        .next_required_action_from_persisted_state(&journal)
        .expect("next action")
        .expect("next action exists");
    assert!(next_action.contains("verify.run"));
    assert!(!next_action.contains("patch.apply with patchId patch-good"));
}

#[test]
fn recovery_keeps_what_was_kept() {
    let (mut service, mut journal) = service("run-recover", config());
    let read_call = call("tc-1", "read");
    service.begin_tool_call(&mut journal, &read_call).expect("begun");
    service.complete_tool_call(&mut journal, &read_call, &result("x"));
    let bare = IntegratedDelegatedService::recover(contract("run-recover"), config(), tools(), &journal, None)
        .expect("recover");
    assert_eq!(bare.completed_tool_call_ids, vec!["tc-1"]);
    assert_eq!(bare.completed_tool_calls, 1);
    assert_eq!(bare.next_event_sequence, 3);
    let state = IntegratedDurableStateV1 {
        schema_version: 1,
        run_id: service.run_id(),
        patch_proposals: Vec::new(),
        last_verification: None,
        last_diff: Some(diff(&["src/lib.rs"])),
        completed_tool_call_ids: vec!["tc-1".into()],
        provider_history: service.provider_history.clone(),
        completed_tool_calls: 1,
        consecutive_failed_verifications: 2,
        advice_consulted_for_current_failure: true,
        advisor_consultations_used: 1,
        recent_read_excerpts: Vec::new(),
        next_event_sequence: 9,
        corrective_turns_used: 1,
        json_tool_recovery_turns_remaining: 0,
    };
    let full = IntegratedDelegatedService::recover(
        contract("run-recover"),
        config(),
        tools(),
        &journal,
        Some(state),
    )
    .expect("recover");
    assert_eq!(full.corrective_turns_used, 1);
    assert_eq!(full.next_event_sequence, 9);
    assert_eq!(full.actual_diff("fnv1a64:diff").expect("diff").paths, vec!["src/lib.rs"]);
    assert!(full.actual_diff("other").is_none());
    let unknown = IntegratedDelegatedService::recover(contract("new-run"), config(), tools(), &journal, None)
        .expect("recover");
    assert_eq!(unknown.next_event_sequence, 1);
}

#[test]
fn repeated_premature_completion_exhausts_correction_budget() {
    let (mut service, mut journal) = service("run-premature-budget", config());
    for turn in 1..=2 {
        let step = service.take_event(
            &mut journal,
            turn,
            &event(NormalizedProviderEventKind::CompletionClaim, Some("done early")),
            Ok(()),
            &None,
            None,
        );
        assert!(matches!(step, Ok(EventStepV1::Corrected)));
    }
    let result = service.take_event(
        &mut journal,
        3,
        &event(NormalizedProviderEventKind::CompletionClaim, Some("done early 3")),
        Ok(()),
        &None,
        None,
    );
    assert!(matches!(
        result,
        Err(IntegratedError::Tool(message))
            if message.contains("corrective turn budget exhausted")
    ));
    assert_eq!(service.corrective_turns_used, MAX_CORRECTIVE_TURNS_PER_RUN);
}

#[test]
fn malformed_tool_correction_budget_failure_is_propagated() {
    let (mut service, mut journal) = service("run-malformed-budget-propagated", config());
    let malformed = || {
        RuntimeError::MalformedOutput(
            "Ollama qwen tool call parsing failed: XML syntax error on line 14".into(),
        )
    };
    for turn in 1..=2 {
        assert_eq!(
            service.after_reply(&mut journal, turn, Err(malformed()), true),
            Ok(false)
        );
        assert!(service
            .before_turn(&mut journal, turn + 1, false, 0)
            .expect("turn")
            .json_envelope);
    }
    let result = service.after_reply(&mut journal, 3, Err(malformed()), true);
    assert!(matches!(
        result,
        Err(IntegratedError::Tool(message))
            if message.contains("corrective turn budget exhausted")
                && message.contains("model=qwen3.5:9b")
    ));
    assert_eq!(service.corrective_turns_used, MAX_CORRECTIVE_TURNS_PER_RUN);
    assert!(said(&service, "malformed-tool-call") && said(&service, "exactly one JSON object"));
}

#[test]
fn other_provider_errors_end_the_run() {
    let (mut service, mut journal) = service("run-provider-error", config());
    assert_eq!(
        service.after_reply(
            &mut journal,
            1,
            Err(RuntimeError::Provider("down".into())),
            false
        ),
        Err(IntegratedError::Runtime("Provider(\"down\")".into()))
    );
    assert_eq!(
        service.after_reply(&mut journal, 1, Ok(65_537), false),
        Err(IntegratedError::Tool("provider output exceeded CatDesk bound".into()))
    );
    assert_eq!(service.after_reply(&mut journal, 1, Ok(65_536), false), Ok(true));
}

#[test]
fn a_run_is_taken_to_its_review() {
    let mut journal = DelegatedJournal::new();
    let mut service =
        IntegratedDelegatedService::new(contract("run-full"), config(), tools()).expect("service");
    service.begin_worker_loop(&mut journal, "{contract}").expect("begun");
    assert_eq!(service.provider_history.len(), 2);
    assert!(service.provider_history[0].content.starts_with("You are the delegated CatDesk worker."));
    assert!(service.provider_history[1].content.starts_with("Execution contract:\n{contract}\nUse"));
    service.before_turn(&mut journal, 1, false, 0).expect("turn");

    let mut preview = event(NormalizedProviderEventKind::ToolCall, None);
    preview.tool_call = Some(call("ignored", "patch.preview"));
    let step = service
        .take_event(&mut journal, 1, &preview, Ok(()), &None, None)
        .expect("step");
    let preview_call = match step {
        EventStepV1::Call(call) => call,
        other => panic!("{other:?}"),
    };
    assert_eq!(preview_call.tool_call_id.as_str(), "tc-prod-1");
    assert_eq!(
        service.provider_history.last().expect("message").content,
        "{\"arguments\":{\"path\":\"src/lib.rs\"},\"tool\":\"patch.preview\"}"
    );
    service.begin_tool_call(&mut journal, &preview_call).expect("begun");
    let patch = proposal(&service, "patch-good");
    service.note_preview(&mut journal, patch, "preview").expect("preview");
    service.complete_tool_call(&mut journal, &preview_call, &result("preview"));
    assert_eq!(service.after_tool(&preview_call, &Ok(())), Ok(false));
    service.end_turn(&mut journal, 1, true, true, &None, None).expect("turn");

    service
        .end_turn(&mut journal, 2, false, true, &Some("stop".into()), Some(12))
        .expect("corrected");
    assert!(said(&service, "patch.apply with patchId patch-good"));
    assert!(said(&service, "PromptEvalCount=12."));
    service
        .note_application(&mut journal, applied("patch-good"), "tc-apply")
        .expect("applied");

    service.note_verification(true, "all tests passed");
    let early = service.verify_completion_gate(&journal, Ok(()));
    assert_eq!(
        early,
        Err(IntegratedError::Verification("actual diff has not been captured".into()))
    );
    let diff_call = call("tc-diff", "diff.actual");
    service.begin_tool_call(&mut journal, &diff_call).expect("begun");
    service.note_diff(diff(&["src/lib.rs"]));
    service.complete_tool_call(&mut journal, &diff_call, &result("diff"));
    assert!(said(&service, "Do not call another tool. Provide the final concise completion claim"));

    let step = service.take_event(
        &mut journal,
        3,
        &event(NormalizedProviderEventKind::CompletionClaim, Some("done")),
        Ok(()),
        &None,
        None,
    );
    assert!(matches!(step, Ok(EventStepV1::Complete)));
    assert_eq!(
        journal.load_run(&service.run_id()).expect("run").state,
        RunState::CompletedVerified
    );
    let package = service.final_review().expect("review");
    assert_eq!(package.final_result.status, RunState::CompletedVerified);
    assert_eq!(package.actual_diff_summary, "36 bytes of authoritative diff");
    assert!(!package.pushed && !package.merged);
}

#[test]
fn the_evidence_decides_about_completion() {
    let (mut service, mut journal) = service("run-evidence", config());
    let refusal = |service: &IntegratedDelegatedService, journal: &DelegatedJournal, claim| {
        service.verify_completion_gate(journal, claim).unwrap_err()
    };
    assert_eq!(
        refusal(&service, &journal, Ok(())),
        IntegratedError::Verification("verification has not run".into())
    );
    service.note_verification(false, "failed");
    assert_eq!(service.consecutive_failed_verifications, 1);
    assert_eq!(
        refusal(&service, &journal, Ok(())),
        IntegratedError::Verification("verification has not passed".into())
    );
    service.note_verification(true, "passed");
    assert_eq!(service.consecutive_failed_verifications, 0);
    service.note_diff(diff(&["target/x"]));
    assert_eq!(
        refusal(&service, &journal, Err("ClaimMismatch".into())),
        IntegratedError::Patch("ClaimMismatch".into())
    );
    assert_eq!(
        refusal(&service, &journal, Ok(())),
        IntegratedError::Verification("changed forbidden path target/x".into())
    );
    service.note_diff(diff(&["docs/x"]));
    assert_eq!(
        refusal(&service, &journal, Ok(())),
        IntegratedError::Verification("changed path outside allowed scope docs/x".into())
    );
    service.note_diff(diff(&["src\\lib.rs"]));
    assert!(service.verify_completion_gate(&journal, Ok(())).is_ok());
    let apply = call("tc-x", "patch.apply");
    let kind = service.begin_tool_call(&mut journal, &apply).expect("begun");
    service.fail_tool_call(&mut journal, &apply, kind, &IntegratedError::Io("x".into()));
    assert_eq!(
        refusal(&service, &journal, Ok(())),
        IntegratedError::Verification("tool call tc-x has OUTCOME_UNKNOWN status".into())
    );
}

#[test]
fn criteria_and_paths_are_compared_loosely_and_safely() {
    assert_eq!(normalize_acceptance_criterion("  Cargo   TESTS\tpass "), "cargo tests pass");
    let (mut service, _journal) = service("run-criteria", config());
    service.note_verification(true, "ok");
    let verification = service.last_verification.clone().expect("verification");
    assert!(matches!(
        evaluate_acceptance_criteria_v1(&vec!["looks nice".into()], &verification, &diff(&[])),
        Err(IntegratedError::Verification(message))
            if message == "unsupported v1 acceptance criterion: looks nice"
    ));
    let mut empty = diff(&[]);
    empty.diff = " ".into();
    assert!(evaluate_acceptance_criteria_v1(
        &vec!["Authoritative diff is captured".into()],
        &verification,
        &empty
    )
    .is_err());
    assert!(path_is_under_contract_path("src\\a.rs", "/src/"));
    assert!(path_is_under_contract_path("src", "src"));
    assert!(!path_is_under_contract_path("srcx/a.rs", "src"));
    assert!(ensure_diff_paths_allowed(&contract("x"), &diff(&["src/a", "src/b"])).is_ok());
}

#[test]
fn failed_tools_are_told_and_failed_patches_end_the_run() {
    let (mut service, _journal) = service("run-tool-errors", config());
    let error = Err(IntegratedError::Tool("bad path".into()));
    assert_eq!(service.after_tool(&call("tc-1", "read"), &error), Ok(false));
    let last = service.provider_history.last().expect("message");
    assert_eq!(
        last.content,
        "Tool read failed under CatDesk policy and was journaled. Error: Tool(\"bad path\"). Choose a permitted next CatDesk tool call; do not retry the same invalid request."
    );
    assert!(service.after_tool(&call("tc-2", "patch.apply"), &error).is_err());
    assert_eq!(service.after_tool(&call("tc-3", "verify.run"), &Ok(())), Ok(true));
}

#[test]
fn provider_events_that_end_a_run() {
    let (mut service, mut journal) = service("run-events", config());
    let mut take = |kind, text: Option<&str>| {
        service.take_event(&mut journal, 1, &event(kind, text), Ok(()), &None, None)
    };
    let message = |step: Result<EventStepV1, IntegratedError>| match step {
        Err(IntegratedError::Tool(message)) => message,
        other => panic!("{other:?}"),
    };
    assert!(matches!(
        take(NormalizedProviderEventKind::TextDelta, Some("thinking")),
        Ok(EventStepV1::Next)
    ));
    assert_eq!(
        message(take(NormalizedProviderEventKind::ToolCall, None)),
        "provider omitted tool call payload"
    );
    assert_eq!(
        message(take(NormalizedProviderEventKind::MalformedResponse, None)),
        "malformed provider response"
    );
    assert_eq!(
        message(take(NormalizedProviderEventKind::CancelAck, Some("x"))),
        "provider cancelled run"
    );
    assert_eq!(
        message(take(NormalizedProviderEventKind::TerminalError, Some("boom"))),
        "boom"
    );
}

#[test]
fn long_conversations_keep_their_frame() {
    let (mut service, mut journal) = service("run-compact", config());
    for i in 0..20 {
        service.provider_history.push(ProviderMessageV1 {
            role: "user".into(),
            content: format!("{i}: {}", "x".repeat(3_000)),
            tool_call_id: None,
            tool_name: None,
        });
    }
    let before = service.provider_history.clone();
    service.before_turn(&mut journal, 1, false, 0).expect("compacted");
    assert_eq!(service.provider_history.len(), 11);
    assert_eq!(service.provider_history[..2], before[..2]);
    assert_eq!(service.provider_history[3..], before[12..]);
    assert!(service.provider_history[2].content.starts_with("Compacted checkpoint:\nobjective: Fix the answer.\nallowed_paths: src\n"));
    for message in service.provider_history.iter_mut() {
        message.content = "y".repeat(10_000);
    }
    assert!(matches!(
        service.before_turn(&mut journal, 2, false, 0),
        Err(IntegratedError::Tool(message)) if message.contains("after compaction")
    ));
}

#[test]
fn optional_configured_advisor_failure_continues_locally() {
    let mut cfg = config();
    cfg.advisor = Some(advisor_config(false));
    let (mut service, mut journal) = service("run-t0024c2-optional-advisor-unavailable", cfg);
    service.consecutive_failed_verifications = 2;
    let asked = service
        .begin_configured_consultation(&mut journal)
        .expect("optional advisor unavailable continues");
    assert!(asked.is_none());
    assert!(service.provider_history.iter().any(|message| {
        message.content.contains("Advisor advice unavailable")
            && message.content.contains("Continue locally")
    }));
    assert_ne!(
        journal.load_run(&service.run_id()).expect("snapshot").state,
        RunState::NeedsSupervisor
    );
}

#[test]
fn required_configured_advisor_failure_persists_needs_supervisor() {
    let mut cfg = config();
    cfg.advisor = Some(advisor_config(true));
    let (mut service, mut journal) = service("run-t0024c2-required-advisor-unavailable", cfg);
    service.consecutive_failed_verifications = 2;
    let result = service.begin_configured_consultation(&mut journal);
    assert!(
        matches!(result, Err(IntegratedError::Tool(message)) if message.contains("required advisor consultation unavailable"))
    );
    assert_eq!(
        journal.load_run(&service.run_id()).expect("snapshot").state,
        RunState::NeedsSupervisor
    );
}

fn advice(status: AdvisorStatus) -> AdviceResponseV1 {
    AdviceResponseV1 {
        schema_version: 1,
        request_id: "advice-1".into(),
        advisor_id: "deepseek-web".into(),
        status,
        diagnosis: "stale patch".into(),
        recommendations: vec!["look again".into()],
        risks: Vec::new(),
        assumptions_or_questions: Vec::new(),
        confidence: AdvisorConfidence::Low,
        raw_artifact_reference: None,
    }
}

#[test]
fn the_configured_advisor_is_asked_once_and_its_answer_is_fenced() {
    let mut cfg = config();
    let mut advisor = advisor_config(false);
    advisor.local_runtime = Some(IntegratedAdvisorLocalRuntimeConfigV1 {
        python_executable: "python".into(),
        adapter_script: "script.py".into(),
        profile_dir: "profile".into(),
        selectors_path: Some("selectors".into()),
        headed: false,
        allow_env_login: true,
    });
    let process = advisor_process_config(advisor.local_runtime.as_ref().expect("runtime"));
    assert_eq!(process.selectors_path.as_deref(), Some("selectors"));
    assert!(!process.headed);
    assert_eq!(broker_config(&advisor).timeout_seconds, 180);
    cfg.advisor = Some(advisor);
    let (mut service, mut journal) = service("run-advice", cfg);
    assert!(service.begin_configured_consultation(&mut journal).expect("not due").is_none());
    service.note_verification(false, "1 failed");
    service.note_verification(false, "1 failed again");
    service.record_recent_read_excerpt("src\\lib.rs", "token=abc body");
    let draft = service
        .begin_configured_consultation(&mut journal)
        .expect("due")
        .expect("draft");
    assert!(draft.request_id.starts_with("advice-"));
    assert_eq!(draft.current_step, "inspect");
    assert_eq!(draft.latest_failure.as_deref(), Some("1 failed again"));
    assert_eq!(draft.bounded_source_excerpts[0].source, "src/lib.rs");
    assert_eq!(draft.bounded_source_excerpts[0].content, "token=<redacted> body");
    assert!(service.begin_configured_consultation(&mut journal).expect("asked").is_none());

    let answered = service.finish_configured_consultation(
        &mut journal,
        false,
        false,
        Ok(advice(AdvisorStatus::Completed)),
    );
    assert!(answered.is_ok());
    assert!(service
        .provider_history
        .last()
        .expect("message")
        .content
        .contains("<untrusted_advisor_context>"));
    let events = journal
        .poll_events(&service.run_id(), EventCursor { after_sequence: 0, limit: 50 })
        .expect("events");
    assert!(matches!(
        &events.last().expect("event").payload,
        EventPayloadV1::AdvisorEvent { event, .. } if event == "advice_delivered_to_worker"
    ));
}

#[test]
fn cancelled_and_failed_consultations_bring_no_advice() {
    let mut cfg = config();
    cfg.advisor = Some(advisor_config(false));
    let (mut service, mut journal) = service("run-no-advice", cfg);
    service
        .finish_configured_consultation(&mut journal, false, true, Ok(advice(AdvisorStatus::Completed)))
        .expect("cancelled");
    assert!(!said(&service, "stale patch"));
    assert!(said(&service, "Advisor advice unavailable (Cancelled)"));
    service
        .finish_configured_consultation(&mut journal, false, false, Ok(advice(AdvisorStatus::RateLimited)))
        .expect("limited");
    assert!(said(&service, "Advisor advice unavailable (RateLimited)"));
    let failed = service.finish_configured_consultation(
        &mut journal,
        true,
        false,
        Err(AdvisorError::Adapter("gone".into())),
    );
    assert_eq!(
        failed,
        Err(IntegratedError::Tool(
            "required advisor consultation unavailable: Failed".into()
        ))
    );
}

#[test]
fn an_advisor_at_hand_is_asked_after_two_failures() {
    let mut cfg = config();
    let mut advisor = advisor_config(false);
    advisor.advisor_id = FakeAdvisor::success().advisor_id;
    cfg.advisor = Some(advisor);
    let (mut service, mut journal) = service("run-at-hand", cfg);
    let (fake, none) = service.maybe_consult_advisor_after_failed_repairs(
        &mut journal,
        FakeAdvisor::success(),
        "why?",
    );
    assert_eq!(none, Ok(None));
    service.consecutive_failed_verifications = 2;
    let (fake, answer) =
        service.maybe_consult_advisor_after_failed_repairs(&mut journal, fake, "why?");
    assert_eq!(
        answer.expect("asked").expect("advice").status,
        AdvisorStatus::Completed
    );
    assert!(said(&service, "<untrusted_advisor_context>"));
    let (_fake, none) =
        service.maybe_consult_advisor_after_failed_repairs(&mut journal, fake, "why?");
    assert_eq!(none, Ok(None));
    service.config.advisor = None;
    let (_fake, refused) = service.consult_advisor(
        &mut journal,
        FakeAdvisor::success(),
        AdviceTrigger::ExplicitQwenRequest,
        "why?",
    );
    assert_eq!(
        refused,
        Err(IntegratedError::Tool("advisor integration is not configured".into()))
    );
}

#[test]
fn only_three_files_in_scope_are_remembered() {
    let (mut service, _journal) = service("run-excerpts", config());
    for name in ["a", "b", "c", "d", "b"] {
        service.record_recent_read_excerpt(&format!("src/{name}.rs"), name);
    }
    service.record_recent_read_excerpt("target/x.rs", "x");
    service.record_recent_read_excerpt("docs/x.md", "x");
    let sources: Vec<&str> = service
        .recent_read_excerpts
        .iter()
        .map(|excerpt| excerpt.source.as_str())
        .collect();
    assert_eq!(sources, vec!["src/c.rs", "src/d.rs", "src/b.rs"]);
    for name in ["p", "q", "r"] {
        service.record_recent_read_excerpt(&format!("src/{name}.rs"), &"z".repeat(5_000));
    }
    let shown = service.bounded_advisor_source_excerpts();
    assert_eq!(shown.len(), 3);
    assert!(shown.iter().map(|excerpt| excerpt.content.len()).sum::<usize>() <= 6_144);
}

#[test]
fn arguments_are_read_strictly() {
    assert_eq!(tool_named("verify.run"), Ok(IntegratedToolV1::VerifyRun));
    assert_eq!(
        tool_named("shell"),
        Err(IntegratedError::Tool("unknown tool shell".into()))
    );
    assert_eq!(verify_timeout(&record(&[])), 120_000);
    assert_eq!(verify_timeout(&record(&[("timeout", "1")])), 30_000);
    assert_eq!(verify_timeout(&record(&[("timeout", "999999")])), 300_000);
    let options = search_options(&record(&[("pattern", "\"x\""), ("fixedStrings", "true")])).expect("options");
    assert!(options.fixed_strings);
    assert_eq!(
        search_options(&record(&[])),
        Err(IntegratedError::Tool("pattern string is required".into()))
    );
    assert_eq!(
        string_array_arg(&record(&[("paths", "[\"a\",1]")]), "paths"),
        Err(IntegratedError::Tool("paths must contain strings".into()))
    );
    assert_eq!(
        string_array_arg(&record(&[]), "paths"),
        Err(IntegratedError::Tool("paths array is required".into()))
    );
    assert_eq!(diff_paths(&record(&[("paths", "[\"a\"]")]), &contract("x")), vec!["a"]);
    assert_eq!(diff_paths(&record(&[]), &contract("x")), vec!["src"]);
    let poll = job_poll_args(&record(&[("jobId", "\"job-1\""), ("stream", "\"stderr\"")])).expect("args");
    assert_eq!(poll.stream, LogStream::Stderr);
    assert_eq!(poll.max_bytes, 16_384);
    let spec = job_spec(&record(&[("command", "\"cargo test\"")]), &contract("x"), "/work").expect("spec");
    assert_eq!(spec.command_profile, "cargo");
}

#[test]
fn jobs_stay_in_the_workspace() {
    assert_eq!(job_directory(&None), Ok(None));
    assert_eq!(job_directory(&Some("src/sub".into())), Ok(Some("src/sub".into())));
    for escape in ["..", "/etc", "C:/x", "a/../b", "a//b", "."] {
        assert!(job_directory(&Some(escape.into())).is_err(), "{escape}");
    }
    let root: Vec<String> = vec!["/".into(), "work".into()];
    assert!(contained_job_cwd(Ok(vec!["/".into(), "work".into(), "src".into()]), &root).is_ok());
    assert_eq!(
        contained_job_cwd(Ok(vec!["/".into(), "etc".into()]), &root),
        Err(IntegratedError::Tool("job cwd escapes the contract workspace".into()))
    );
    assert_eq!(
        contained_job_cwd(Err("gone".into()), &root),
        Err(IntegratedError::Tool("job cwd must exist: gone".into()))
    );
}

#[test]
fn patches_are_read_and_bound_to_their_files() {
    let request = patch_request(&record(&[
        ("patchId", "\"patch-1\""),
        (
            "operations",
            "[{\"path\":\"b\",\"old\":\"1\",\"new\":\"2\"},{\"path\":\"a\",\"old\":\"3\",\"new\":\"4\"},{\"path\":\"b\",\"old\":\"5\",\"new\":\"6\"}]",
        ),
    ]))
    .expect("request");
    assert_eq!(request.target_paths, vec!["a", "b"]);
    assert_eq!(request.model_rationale, "model proposed patch");
    let refused = |members: &[(&str, &str)]| match patch_request(&record(members)) {
        Err(IntegratedError::Tool(message)) => message,
        other => panic!("{other:?}"),
    };
    assert_eq!(refused(&[]), "patchId string is required");
    assert_eq!(refused(&[("patchId", "\"p\"")]), "operations array is required");
    assert_eq!(
        refused(&[("patchId", "\"p\""), ("operations", "[{\"path\":\"a\",\"old\":\"x\"}]")]),
        "new string is required"
    );
    assert!(refused(&[("patchId", "\"p\""), ("parentPatchId", "\"a b\"")]).contains("PatchId"));
    let (service, _journal) = service("run-patch", config());
    let patch = service
        .patch_from_request(request, &vec!["A".into(), "B".into()])
        .expect("proposal");
    assert_eq!(patch.expected_preimage_hashes.len(), 2);
    assert_eq!(patch.expected_preimage_hashes[0].path, "a");
    assert!(patch.base_snapshot_hash.starts_with("fnv1a64:"));
    assert_eq!(patch.turn_id.as_str(), "turn-2");
}

#[test]
fn long_results_are_cut_with_a_mark() {
    let long = tool_result("read", "s".into(), "{}".into(), &"x".repeat(16_385));
    assert_eq!(long.bounded_text.len(), 16_384 + "\n[truncated]".len());
    assert!(long.bounded_text.ends_with("\n[truncated]"));
    assert_eq!(
        read_result(3, "src/lib.rs", "{}".into(), "abc").summary,
        "read 3 bytes from src/lib.rs"
    );
}

#[test]
fn contexts_hold_the_contract() {
    let (service, _journal) = service("run-context", config());
    let bundle = service.build_context("turn-1").expect("built").expect("bundle");
    assert_eq!(bundle.items.len(), 1);
    let bytes = bundle.items[0].content.as_ref().expect("content").len();
    assert_eq!(bundle.total_bytes, bytes);
    assert_eq!(bundle.estimated_tokens, bundle.items[0].estimated_tokens);
    assert!(!bundle.truncated);
    assert!(bundle.items[0].content.as_ref().expect("content").contains("Fix the answer."));
    assert!(service.build_context("bad turn").is_err());
    assert_eq!(service.provider_policy().fallback_provider_ids, vec!["fake"]);
    assert_eq!(
        service.last_verification.as_ref().map(|summary| summary.status),
        None::<VerificationStatusV1>
    );
}

#[test]
fn results_say_what_was_done() {
    let found = search_result(3, "answer", "{}".into(), "three lines");
    assert_eq!(found.tool_name, "search");
    assert_eq!(found.summary, "3 matches for answer");
    assert_eq!(found.bounded_text, "three lines");
    let compared = compare_result(2, "{}".into(), "two files");
    assert_eq!(compared.tool_name, "patch.compare");
    assert_eq!(compared.summary, "2 modified files");
    let captured = diff_result(&diff(&["src/lib.rs"]), "{\"paths\":[]}".into());
    assert_eq!(captured.tool_name, "diff.actual");
    assert_eq!(captured.summary, "captured diff hash fnv1a64:diff");
    assert_eq!(captured.payload, "{\"paths\":[]}");
    assert_eq!(captured.bounded_text, "diff --git a/src/lib.rs b/src/lib.rs");
    let job_id = JobId::new("job-1").expect("job id");
    let started = job_start_result(&job_id, "{}".into());
    assert_eq!(started.summary, "started job-1");
    assert_eq!(started.bounded_text, "jobId: job-1");
    let stopped = job_cancel_result(&job_id, "Cancelled", "{}".into());
    assert_eq!(stopped.summary, "Cancelled");
    assert_eq!(stopped.bounded_text, "cancelled job-1");
    let polled = job_poll_result(&LogPoll {
        text: "a\n".into(),
        offset: 0,
        next_offset: 2,
        truncated: false,
        rotated: true,
        local_path: "/jobs/stdout.log".into(),
    });
    assert_eq!(polled.summary, "2 bytes");
    assert_eq!(
        polled.payload,
        "{\"localPath\":\"/jobs/stdout.log\",\"nextOffset\":2,\"offset\":0,\"rotated\":true,\
         \"text\":\"a\\n\",\"truncated\":false}"
    );
    assert_eq!(polled.bounded_text, "bounded job log returned in payload");
}

#[test]
fn the_last_diff_is_found_by_its_hash() {
    let (mut service, _journal) = service("diff-run", config());
    assert!(service.last_actual_diff().is_none());
    service.note_diff(diff(&["src/lib.rs"]));
    assert_eq!(service.last_actual_diff(), Some(&diff(&["src/lib.rs"])));
    assert_eq!(service.actual_diff("fnv1a64:diff"), Some(&diff(&["src/lib.rs"])));
    assert!(service.actual_diff("fnv1a64:other").is_none());
}
