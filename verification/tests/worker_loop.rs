use catdesk_delegated::advisor::{AdviceDisclosureClassification, AdvisorStatus, FakeAdvisor};
use catdesk_delegated::contracts::{
    ApprovalRequirementV1, ExecutionContractV1, ExpectedArtifactKind, ExpectedArtifactV1,
    ProviderPolicyV1, RunId, RunState, ToolCallId, TurnId,
};
use catdesk_delegated::coordinator::FinalReviewPackageV1;
use catdesk_delegated::hash::stable_text_hash;
use catdesk_delegated::integrated::{
    EventStepV1, IntegratedAdvisorConfigV1, IntegratedDelegatedService, IntegratedDurableStateV1,
    IntegratedError, IntegratedRunConfigV1, IntegratedToolResultV1, MAX_CORRECTIVE_TURNS_PER_RUN,
};
use catdesk_delegated::integrated_tools::{
    diff_paths, diff_result, patch_request, read_result, string_arg, tool_named, tool_result,
    IntegratedToolV1, PatchAppliedV1,
};
use catdesk_delegated::journal::{DelegatedJournal, ToolMutationKind};
use catdesk_delegated::json::JsonValue;
use catdesk_delegated::patching::ActualDiffArtifactV1;
use catdesk_delegated::provider::{
    NormalizedProviderEventKind, NormalizedProviderEventV1, NormalizedToolCallV1, RuntimeError,
    ToolDefinitionV1,
};
use serde_json::Value;

const ANSWER_41: &str = "pub fn answer() -> i32 {\n    41\n}\n";
const READ: &str = "{\"path\":\"src/lib.rs\"}";
const APPLY_GOOD: &str = "{\"patchId\":\"patch-good\"}";
const PREVIEW_GOOD: &str = "{\"patchId\":\"patch-good\",\"operations\":[{\"path\":\"src/lib.rs\",\
     \"old\":\"pub fn answer() -> i32 {\\n    41\\n}\\n\",\
     \"new\":\"pub fn answer() -> i32 {\\n    42\\n}\\n\"}]}";
const VERIFY: &str = "{\"timeout\":30000}";
const DIFF: &str = "{\"paths\":[\"src/lib.rs\"]}";
const DONE: &str = "verification passed and authoritative diff captured";

enum Turn {
    Malformed(&'static str),
    Call(&'static str, &'static str),
    Complete(&'static str),
}

/// A workspace of one source file, whose checks pass where the answer is 42.
struct Workspace {
    source: String,
}

struct Run {
    service: IntegratedDelegatedService,
    journal: DelegatedJournal,
    workspace: Workspace,
}

fn contract(task_id: &str, max_turns: u32, max_tool_calls: u32) -> ExecutionContractV1 {
    ExecutionContractV1 {
        schema_version: 1,
        task_id: task_id.into(),
        objective: "Fix the answer.".into(),
        workspace: "/work".into(),
        feature_branch: "feature/answer".into(),
        allowed_paths: vec!["src".into(), "Cargo.toml".into()],
        forbidden_paths: vec![".git".into(), "target".into()],
        allowed_command_profiles: vec!["cargo".into()],
        ordered_steps: vec!["inspect".into(), "patch".into(), "verify".into()],
        acceptance_criteria: vec![
            "cargo tests pass".into(),
            "authoritative diff is captured".into(),
        ],
        retry_budget: 2,
        max_turns,
        max_tool_calls,
        max_elapsed_seconds: 600,
        provider_policy: ProviderPolicyV1 {
            primary_provider_id: "ollama".into(),
            primary_model_id: "qwen3.5:9b".into(),
            fallback_provider_ids: Vec::new(),
            require_tool_calls: true,
            allow_paid_fallbacks: false,
        },
        advisor_policy: None,
        escalation_conditions: vec!["needs human".into()],
        approval_requirements: Vec::<ApprovalRequirementV1>::new(),
        expected_artifacts: vec![ExpectedArtifactV1 {
            kind: ExpectedArtifactKind::FinalReview,
            name: "final review".into(),
            required: true,
        }],
        verification_profile: "cargo".into(),
    }
}

fn tools() -> Vec<ToolDefinitionV1> {
    [
        ("read", ToolMutationKind::ReadOnly),
        ("patch.preview", ToolMutationKind::ReadOnly),
        ("patch.apply", ToolMutationKind::Mutating),
        ("verify.run", ToolMutationKind::ReadOnly),
        ("diff.actual", ToolMutationKind::ReadOnly),
        ("job.start", ToolMutationKind::Mutating),
    ]
    .iter()
    .map(|(name, mutation_kind)| ToolDefinitionV1 {
        name: name.to_string(),
        description: String::new(),
        input_schema: "{}".into(),
        mutation_kind: *mutation_kind,
    })
    .collect()
}

fn config() -> IntegratedRunConfigV1 {
    IntegratedRunConfigV1 {
        journal_root: "/work/journal".into(),
        job_root: "/work/jobs".into(),
        ollama_base_url: "http://127.0.0.1:11434".into(),
        model_id: "qwen3.5:9b".into(),
        advisor: None,
    }
}

fn run(task_id: &str, max_turns: u32, max_tool_calls: u32) -> Run {
    run_with(task_id, max_turns, max_tool_calls, config())
}

fn run_with(
    task_id: &str,
    max_turns: u32,
    max_tool_calls: u32,
    config: IntegratedRunConfigV1,
) -> Run {
    let contract = contract(task_id, max_turns, max_tool_calls);
    Run {
        service: IntegratedDelegatedService::new(contract, config, tools()).expect("service"),
        journal: DelegatedJournal::new(),
        workspace: Workspace {
            source: ANSWER_41.into(),
        },
    }
}

fn tool_call(id: &str, tool: &str, arguments: &str) -> NormalizedToolCallV1 {
    NormalizedToolCallV1 {
        tool_call_id: ToolCallId::new(id).expect("tool id"),
        tool_name: tool.into(),
        arguments_hash: format!("fnv1a64:{id}"),
        arguments: arguments.into(),
    }
}

fn read_args(text: &str) -> JsonValue {
    match serde_json::from_str::<Value>(text).expect("arguments") {
        Value::Object(members) => JsonValue::Record(
            members
                .iter()
                .map(|(key, value)| (key.clone(), value.to_string()))
                .collect(),
        ),
        _ => JsonValue::Null,
    }
}

impl Run {
    fn execute(
        &mut self,
        call: &NormalizedToolCallV1,
    ) -> Result<IntegratedToolResultV1, IntegratedError> {
        let args = read_args(&call.arguments);
        match tool_named(&call.tool_name)? {
            IntegratedToolV1::Read => {
                let path = string_arg(&args, "path")?;
                let source = self.workspace.source.clone();
                self.service.record_recent_read_excerpt(&path, &source);
                Ok(read_result(source.len() as u64, &path, "{}".into(), &source))
            }
            IntegratedToolV1::PatchPreview => {
                let request = patch_request(&args)?;
                let contents = vec![self.workspace.source.clone(); request.target_paths.len()];
                let proposal = self.service.patch_from_request(request, &contents)?;
                self.service
                    .note_preview(&mut self.journal, proposal, "preview")?;
                Ok(tool_result("patch.preview", "Previewed".into(), "{}".into(), "preview"))
            }
            IntegratedToolV1::PatchApply => {
                let id = string_arg(&args, "patchId")?;
                let Some(proposal) = self.service.patch_proposal(&id) else {
                    return Err(IntegratedError::Tool(format!("unknown patch {id}")));
                };
                let operation = &proposal.operations[0];
                assert!(self.workspace.source.contains(&operation.old_text));
                let changed = self
                    .workspace
                    .source
                    .replace(&operation.old_text, &operation.new_text);
                let applied = PatchAppliedV1 {
                    patch_id: proposal.patch_id.clone(),
                    actual_paths_changed: proposal.target_paths.clone(),
                    before_hashes: vec![stable_text_hash(&self.workspace.source)],
                    after_hashes: vec![stable_text_hash(&changed)],
                    actual_diff: "diff".into(),
                };
                self.workspace.source = changed;
                self.service.note_application(
                    &mut self.journal,
                    applied,
                    call.tool_call_id.as_str(),
                )?;
                Ok(tool_result("patch.apply", "Applied".into(), "{}".into(), "diff"))
            }
            IntegratedToolV1::VerifyRun => {
                let passed = self.workspace.source.contains("42");
                let report = if passed { "test result: ok" } else { "test result: FAILED" };
                self.service.note_verification(passed, report);
                let status = if passed { "Passed" } else { "Failed" };
                Ok(tool_result("verify.run", status.into(), "{}".into(), report))
            }
            IntegratedToolV1::DiffActual => {
                let diff = ActualDiffArtifactV1 {
                    base_ref: "HEAD".into(),
                    paths: diff_paths(&args, &self.service.contract),
                    diff: "diff --git a/src/lib.rs b/src/lib.rs".into(),
                    diff_hash: stable_text_hash("diff --git a/src/lib.rs b/src/lib.rs"),
                };
                self.service.note_diff(diff.clone());
                Ok(diff_result(&diff, "{}".into()))
            }
            _ => Err(IntegratedError::Tool("not at hand".into())),
        }
    }

    fn call(&mut self, call: &NormalizedToolCallV1) -> Result<(), IntegratedError> {
        let kind = self.service.begin_tool_call(&mut self.journal, call)?;
        match self.execute(call) {
            Ok(result) => {
                self.service
                    .complete_tool_call(&mut self.journal, call, &result);
                Ok(())
            }
            Err(error) => Err(self
                .service
                .fail_tool_call(&mut self.journal, call, kind, &error)),
        }
    }

    fn work(&mut self, turns: Vec<Turn>) -> Result<FinalReviewPackageV1, IntegratedError> {
        self.service.begin_worker_loop(&mut self.journal, "{}")?;
        for (at, turn) in turns.iter().enumerate() {
            let number = at as u32 + 1;
            self.service
                .before_turn(&mut self.journal, number, false, 0)?;
            let mut event = NormalizedProviderEventV1 {
                provider_id: "fake".into(),
                turn_id: TurnId::new("turn-1").expect("turn id"),
                kind: NormalizedProviderEventKind::ToolCall,
                text: None,
                tool_call: None,
            };
            match turn {
                Turn::Malformed(message) => {
                    let error = RuntimeError::Provider(message.to_string());
                    let goes_on =
                        self.service
                            .after_reply(&mut self.journal, number, Err(error), true)?;
                    assert!(!goes_on);
                    continue;
                }
                Turn::Call(tool, arguments) => {
                    event.tool_call = Some(NormalizedToolCallV1 {
                        tool_call_id: ToolCallId::new("tc-provider").expect("tool id"),
                        tool_name: tool.to_string(),
                        arguments_hash: String::new(),
                        arguments: arguments.to_string(),
                    });
                }
                Turn::Complete(text) => {
                    event.kind = NormalizedProviderEventKind::CompletionClaim;
                    event.text = Some(text.to_string());
                }
            }
            assert!(self
                .service
                .after_reply(&mut self.journal, number, Ok(64), false)?);
            let taken = self.service.take_event(
                &mut self.journal,
                number,
                &event,
                Ok(()),
                &Some("stop".into()),
                None,
            )?;
            match taken {
                EventStepV1::Complete => return self.service.final_review(),
                EventStepV1::Call(call) => {
                    let outcome = self.call(&call);
                    self.service.after_tool(&call, &outcome)?;
                }
                EventStepV1::Next | EventStepV1::Corrected => {}
            }
            self.service
                .end_turn(&mut self.journal, number, true, true, &None, None)?;
        }
        Err(IntegratedError::Tool("no turns left".into()))
    }

    fn was_told(&self, parts: &[&str]) -> bool {
        self.service
            .provider_history
            .iter()
            .any(|message| parts.iter().all(|part| message.content.contains(part)))
    }
}

#[test]
fn fake_loop_recovers_malformed_tool_syntax_with_bounded_correction() {
    let mut run = run("run-malformed-tool-correction", 10, 10);
    let review = run
        .work(vec![
            Turn::Malformed("qwen tool call parsing failed: XML syntax error on line 14"),
            Turn::Call("read", READ),
            Turn::Call("patch.preview", PREVIEW_GOOD),
            Turn::Call("patch.apply", APPLY_GOOD),
            Turn::Call("verify.run", VERIFY),
            Turn::Call("diff.actual", DIFF),
            Turn::Complete(DONE),
        ])
        .expect("corrected malformed response");
    assert_eq!(review.final_result.status, RunState::CompletedVerified);
    assert_eq!(run.service.corrective_turns_used, 1);
    assert!(run.was_told(&["malformed-tool-call", "exactly one JSON object"]));
}

#[test]
fn premature_stop_after_patch_preview_requests_patch_apply_once() {
    let mut run = run("run-premature-after-preview", 10, 10);
    let review = run
        .work(vec![
            Turn::Call("patch.preview", PREVIEW_GOOD),
            Turn::Complete("done early"),
            Turn::Call("patch.apply", APPLY_GOOD),
            Turn::Call("verify.run", VERIFY),
            Turn::Call("diff.actual", DIFF),
            Turn::Complete(DONE),
        ])
        .expect("completed");
    assert_eq!(review.final_result.status, RunState::CompletedVerified);
    assert!(run.was_told(&["patch.apply with patchId patch-good"]));
    let run_id = RunId::new("run-premature-after-preview").expect("run");
    let applications = run
        .journal
        .load_patch_applications(&run_id)
        .expect("applications");
    assert_eq!(applications.len(), 1, "patch.apply must not duplicate");
    assert_eq!(
        run.journal.load_run(&run_id).expect("run").state,
        RunState::CompletedVerified
    );
}

#[test]
fn premature_stop_after_patch_apply_requests_verification() {
    let mut run = run("run-premature-after-apply", 10, 10);
    run.work(vec![
        Turn::Call("patch.preview", PREVIEW_GOOD),
        Turn::Call("patch.apply", APPLY_GOOD),
        Turn::Complete("done early"),
        Turn::Call("verify.run", VERIFY),
        Turn::Call("diff.actual", DIFF),
        Turn::Complete(DONE),
    ])
    .expect("completed");
    assert!(run.was_told(&["Required next action: call verify.run"]));
}

#[test]
fn failed_verification_requests_repair_not_completion() {
    let mut run = run("run-failed-verify-repair", 12, 12);
    run.work(vec![
        Turn::Call(
            "patch.preview",
            "{\"patchId\":\"patch-wrong\",\"operations\":[{\"path\":\"src/lib.rs\",\
             \"old\":\"pub fn answer() -> i32 {\\n    41\\n}\\n\",\
             \"new\":\"pub fn answer() -> i32 {\\n    40\\n}\\n\"}]}",
        ),
        Turn::Call("patch.apply", "{\"patchId\":\"patch-wrong\"}"),
        Turn::Call("verify.run", VERIFY),
        Turn::Complete("done early"),
        Turn::Call(
            "patch.preview",
            "{\"patchId\":\"patch-good\",\"parentPatchId\":\"patch-wrong\",\
             \"operations\":[{\"path\":\"src/lib.rs\",\
             \"old\":\"pub fn answer() -> i32 {\\n    40\\n}\\n\",\
             \"new\":\"pub fn answer() -> i32 {\\n    42\\n}\\n\"}]}",
        ),
        Turn::Call("patch.apply", APPLY_GOOD),
        Turn::Call("verify.run", VERIFY),
        Turn::Call("diff.actual", DIFF),
        Turn::Complete(DONE),
    ])
    .expect("completed");
    assert!(run.was_told(&["diagnose the failed verifier output", "corrected child patch"]));
}

#[test]
fn passed_verification_without_diff_requests_diff_actual() {
    let mut run = run("run-passed-verify-no-diff", 10, 10);
    run.work(vec![
        Turn::Call("patch.preview", PREVIEW_GOOD),
        Turn::Call("patch.apply", APPLY_GOOD),
        Turn::Call("verify.run", VERIFY),
        Turn::Complete("done early"),
        Turn::Call("diff.actual", DIFF),
        Turn::Complete(DONE),
    ])
    .expect("completed");
    assert!(run.was_told(&["call diff.actual", "authoritative diff evidence"]));
    assert!(run.was_told(&[
        "Do not call another tool. Provide the final concise completion claim"
    ]));
}

#[test]
fn a_worker_that_never_works_uses_up_its_corrections() {
    let mut run = run("run-premature-loop", 6, 6);
    let result = run.work(vec![
        Turn::Complete("done early 1"),
        Turn::Complete("done early 2"),
        Turn::Complete("done early 3"),
    ]);
    assert!(matches!(
        result,
        Err(IntegratedError::Tool(message)) if message.contains("corrective turn budget exhausted")
    ));
    assert_eq!(run.service.corrective_turns_used, MAX_CORRECTIVE_TURNS_PER_RUN);
}

#[test]
fn fake_worker_two_failed_repairs_gets_untrusted_advice_then_completes() {
    let mut settings = config();
    settings.advisor = Some(IntegratedAdvisorConfigV1 {
        enabled: true,
        advisor_id: "fake-advisor".into(),
        disclosure_classification: AdviceDisclosureClassification::RemoteAllowed,
        maximum_response_length: 2048,
        maximum_consultations_per_run: 1,
        advice_required: false,
        local_runtime: None,
    });
    let mut run = run_with("run-t0024c-fake-advisor", 10, 10, settings);
    run.service.start(&mut run.journal).expect("start");

    for (preview, apply) in [
        (
            "{\"patchId\":\"patch-wrong-1\",\"operations\":[{\"path\":\"src/lib.rs\",\
             \"old\":\"    41\",\"new\":\"    40\"}]}",
            "{\"patchId\":\"patch-wrong-1\"}",
        ),
        (
            "{\"patchId\":\"patch-wrong-2\",\"operations\":[{\"path\":\"src/lib.rs\",\
             \"old\":\"    40\",\"new\":\"    43\"}]}",
            "{\"patchId\":\"patch-wrong-2\"}",
        ),
    ] {
        run.execute(&tool_call("direct", "patch.preview", preview)).expect("preview");
        run.execute(&tool_call("direct", "patch.apply", apply)).expect("apply");
        let verification = run
            .execute(&tool_call("direct", "verify.run", VERIFY))
            .expect("verify");
        assert_eq!(verification.summary, "Failed");
    }

    let (advisor, advice) = run.service.maybe_consult_advisor_after_failed_repairs(
        &mut run.journal,
        FakeAdvisor::success(),
        "What should the next bounded repair inspect before patching?",
    );
    let advice = advice.expect("advisor consult").expect("advice response");
    assert_eq!(advice.status, AdvisorStatus::Completed);
    assert!(run.service.provider_history.iter().any(|message| message.role == "user"
        && message.content.contains("<untrusted_advisor_context>")
        && message.content.contains("ordinary CatDesk tools")));

    run.execute(&tool_call(
        "direct",
        "patch.preview",
        "{\"patchId\":\"patch-correct-after-advice\",\"parentPatchId\":\"patch-wrong-2\",\
         \"operations\":[{\"path\":\"src/lib.rs\",\"old\":\"    43\",\"new\":\"    42\"}]}",
    ))
    .expect("preview correct");
    run.execute(&tool_call(
        "direct",
        "patch.apply",
        "{\"patchId\":\"patch-correct-after-advice\"}",
    ))
    .expect("apply correct");
    let passed = run
        .execute(&tool_call("direct", "verify.run", VERIFY))
        .expect("verify passed");
    assert_eq!(passed.summary, "Passed");
    run.execute(&tool_call("direct", "diff.actual", DIFF)).expect("diff");
    let review = run.service.final_review().expect("review");
    assert_eq!(review.final_result.status, RunState::CompletedVerified);
    let (_advisor, second) = run.service.maybe_consult_advisor_after_failed_repairs(
        &mut run.journal,
        advisor,
        "another request",
    );
    assert!(second.expect("second consult check").is_none());
}

#[test]
fn recovery_restores_patch_lineage_and_job_policy_contains_cwd() {
    let mut first = run("run-t0023b-patch-recovery", 10, 10);
    first.service.start(&mut first.journal).expect("start");
    first
        .call(&tool_call(
            "tc-preview",
            "patch.preview",
            "{\"patchId\":\"patch-restored\",\"operations\":[{\"path\":\"src/lib.rs\",\
             \"old\":\"    41\",\"new\":\"    42\"}]}",
        ))
        .expect("preview");

    let kept = first.service;
    let state = IntegratedDurableStateV1 {
        schema_version: 1,
        run_id: kept.run_id(),
        patch_proposals: kept.patch_proposals.clone(),
        last_verification: None,
        last_diff: None,
        completed_tool_call_ids: kept.completed_tool_call_ids.clone(),
        provider_history: Vec::new(),
        completed_tool_calls: kept.completed_tool_calls,
        consecutive_failed_verifications: 0,
        advice_consulted_for_current_failure: false,
        advisor_consultations_used: 0,
        recent_read_excerpts: Vec::new(),
        next_event_sequence: kept.next_event_sequence,
        corrective_turns_used: 0,
        json_tool_recovery_turns_remaining: 0,
    };
    let mut recovered = Run {
        service: IntegratedDelegatedService::recover(
            contract("run-t0023b-patch-recovery", 10, 10),
            config(),
            tools(),
            &first.journal,
            Some(state),
        )
        .expect("recover"),
        journal: first.journal,
        workspace: first.workspace,
    };
    assert!(recovered.service.patch_proposal("patch-restored").is_some());
    recovered
        .call(&tool_call(
            "tc-apply",
            "patch.apply",
            "{\"patchId\":\"patch-restored\"}",
        ))
        .expect("apply restored patch");
    assert!(recovered
        .call(&tool_call(
            "tc-job-escape",
            "job.start",
            "{\"command\":\"sleep 5\",\"cwd\":\"..\"}",
        ))
        .is_err());
    assert!(recovered
        .call(&tool_call(
            "tc-job-profile",
            "job.start",
            "{\"command\":\"sleep 5\",\"commandProfile\":\"unapproved\"}",
        ))
        .is_err());
    assert!(recovered
        .call(&tool_call("tc-preview", "patch.preview", PREVIEW_GOOD))
        .is_err());
}
