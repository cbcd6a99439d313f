use catdesk_delegated::contracts::{
    ApprovalRequirementKind, ApprovalRequirementV1, ExecutionContractV1, ExpectedArtifactKind,
    ExpectedArtifactV1, ProviderPolicyV1,
    ApprovalId, ApprovalRequestV1, FinalRunResultV1, RunId, RunState, SupervisorDecisionKind,
    SupervisorDecisionV1,
};
use catdesk_delegated::coordinator::{
    CoordinatorError, RunBudgetUsageV1, RunCoordinator, VerificationStatusV1,
    VerificationSummaryV1,
};

fn fixture_contract() -> ExecutionContractV1 {
    ExecutionContractV1 {
        schema_version: 1,
        task_id: "T-0013".into(),
        objective: "Add the delegated execution protocol.".into(),
        workspace: "C:/work/catdesk".into(),
        feature_branch: "orchestrator/v1-coding-sprint".into(),
        allowed_paths: vec!["src/delegated".into(), "tests".into()],
        forbidden_paths: vec![".git".into(), "target".into()],
        allowed_command_profiles: vec!["cargo".into()],
        ordered_steps: vec!["inspect".into(), "patch".into(), "verify".into()],
        acceptance_criteria: vec![
            "cargo tests pass".into(),
            "authoritative diff is captured".into(),
        ],
        retry_budget: 2,
        max_turns: 8,
        max_tool_calls: 24,
        max_elapsed_seconds: 600,
        provider_policy: ProviderPolicyV1 {
            primary_provider_id: "ollama".into(),
            primary_model_id: "qwen3.5:9b".into(),
            fallback_provider_ids: Vec::new(),
            require_tool_calls: true,
            allow_paid_fallbacks: false,
        },
        advisor_policy: None,
        escalation_conditions: vec!["needs human".into()],
        approval_requirements: vec![ApprovalRequirementV1 {
            kind: ApprovalRequirementKind::RunStart,
            required: true,
            reason: "Supervisor must approve the start".into(),
        }],
        expected_artifacts: vec![ExpectedArtifactV1 {
            kind: ExpectedArtifactKind::FinalReview,
            name: "final review".into(),
            required: true,
        }],
        verification_profile: "cargo".into(),
    }
}

fn final_result(status: RunState) -> FinalRunResultV1 {
    FinalRunResultV1 {
        schema_version: 1,
        status,
        objective: "finish task".into(),
        branch: "orchestrator/v1-coding-sprint".into(),
        files_changed: vec!["src/delegated/coordinator.rs".into()],
        verification: "cargo test passed".into(),
        diff_artifacts: vec![],
        provider_history: vec!["fake".into()],
        unresolved_warnings: vec![],
        final_recommendation: "review".into(),
    }
}

#[test]
fn readiness_requires_start_approval_when_contract_says_so() {
    let coordinator = RunCoordinator::new();
    let readiness = coordinator
        .readiness(&fixture_contract())
        .expect("readiness");
    assert!(!readiness.ready);
    assert!(readiness.missing_approvals[0].contains("Supervisor"));
}

#[test]
fn ambiguity_escalates_with_evidence() {
    let coordinator = RunCoordinator::new();
    let packet = coordinator.escalation_packet(
        RunId::new("run-ambiguous").expect("run id"),
        "Which file should be changed?",
        "ambiguous scope",
        vec!["two matching modules".into()],
        vec!["searched src".into()],
        "ask supervisor",
    );
    assert_eq!(packet.blocking_condition, "ambiguous scope");
    assert!(packet.evidence[0].contains("two matching"));
}

#[test]
fn run_locking_blocks_duplicate_active_runs() {
    let mut coordinator = RunCoordinator::new();
    let run_id = RunId::new("run-lock").expect("run id");
    coordinator.acquire_lock(&run_id).expect("first lock");
    assert!(matches!(
        coordinator.acquire_lock(&run_id),
        Err(CoordinatorError::RunAlreadyLocked(id)) if id == "run-lock"
    ));
    coordinator.release_lock(&run_id).expect("release");
}

#[test]
fn budget_exhaustion_stops_safely() {
    let coordinator = RunCoordinator::new();
    let contract = fixture_contract();
    let usage = RunBudgetUsageV1 {
        turns_used: contract.max_turns,
        tool_calls_used: 0,
        elapsed_nanos: 1_000_000_000,
    };
    assert!(matches!(
        coordinator.enforce_budget(&contract, &usage),
        Err(CoordinatorError::BudgetExhausted(message)) if message.contains("turn")
    ));
}

#[test]
fn each_budget_has_its_own_refusal() {
    let coordinator = RunCoordinator::new();
    let contract = fixture_contract();
    let usage = |turns_used, tool_calls_used, elapsed_nanos| RunBudgetUsageV1 {
        turns_used,
        tool_calls_used,
        elapsed_nanos,
    };
    assert!(coordinator
        .enforce_budget(&contract, &usage(7, 23, 599_999_999_999))
        .is_ok());
    assert!(matches!(
        coordinator.enforce_budget(&contract, &usage(0, 24, 0)),
        Err(CoordinatorError::BudgetExhausted(message)) if message.contains("tool")
    ));
    assert!(matches!(
        coordinator.enforce_budget(&contract, &usage(0, 0, 600_000_000_001)),
        Err(CoordinatorError::BudgetExhausted(_))
    ));
}

#[test]
fn stale_approvals_fail() {
    let coordinator = RunCoordinator::new();
    let run_id = RunId::new("run-approval").expect("run id");
    let approval = ApprovalRequestV1 {
        approval_id: ApprovalId::new("approval-1").expect("approval id"),
        run_id: run_id.clone(),
        request_hash: "fnv1a64:req".into(),
        reason: "mutating patch".into(),
        expires_at_sequence: 3,
        consumed: false,
    };
    let decision = SupervisorDecisionV1 {
        schema_version: 1,
        decision_id: "decision-1".into(),
        run_id,
        approval_id: Some(approval.approval_id.clone()),
        request_hash: approval.request_hash.clone(),
        kind: SupervisorDecisionKind::ApproveNarrowException,
        rationale: "approved".into(),
        expires_at_sequence: 3,
    };
    assert!(coordinator
        .validate_supervisor_decision(&approval, &decision, 4)
        .is_err());
}

#[test]
fn final_completion_requires_verification() {
    let coordinator = RunCoordinator::new();
    let verification = VerificationSummaryV1 {
        status: VerificationStatusV1::Failed,
        command: "cargo test".into(),
        summary: "failed".into(),
    };
    assert!(matches!(
        coordinator.final_review_package(
            RunId::new("run-final").expect("run id"),
            final_result(RunState::CompletedVerified),
            verification,
            "diff".into()
        ),
        Err(CoordinatorError::VerificationRequired(_))
    ));
}

#[test]
fn final_review_never_marks_push_or_merge() {
    let coordinator = RunCoordinator::new();
    let verification = VerificationSummaryV1 {
        status: VerificationStatusV1::Passed,
        command: "cargo test".into(),
        summary: "passed".into(),
    };
    let package = coordinator
        .final_review_package(
            RunId::new("run-final").expect("run id"),
            final_result(RunState::CompletedVerified),
            verification,
            "diff --git".into(),
        )
        .expect("final package");
    assert!(!package.pushed);
    assert!(!package.merged);
}

#[test]
fn cancellation_releases_lock() {
    let mut coordinator = RunCoordinator::new();
    let run_id = RunId::new("run-cancel").expect("run id");
    coordinator.acquire_lock(&run_id).expect("lock");
    assert_eq!(
        coordinator
            .cancel_run(&run_id, "user requested")
            .expect("cancel"),
        RunState::Cancelled
    );
    assert!(matches!(
        coordinator.release_lock(&run_id),
        Err(CoordinatorError::RunNotLocked(_))
    ));
}

#[test]
fn a_default_coordinator_works_on_nothing() {
    let mut coordinator = RunCoordinator::default();
    let run_id = RunId::new("run-default").expect("run id");
    assert_eq!(
        coordinator.release_lock(&run_id),
        Err(CoordinatorError::RunNotLocked("run-default".into()))
    );
    assert_eq!(coordinator.acquire_lock(&run_id), Ok(()));
}
