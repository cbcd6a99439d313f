use catdesk_delegated::contracts::{
    ApprovalRequirementKind, ApprovalRequirementV1, ExecutionContractV1, ExpectedArtifactKind,
    ExpectedArtifactV1, ProviderPolicyV1,
    validate_branch_name, validate_contract, ApprovalId, ApprovalRequestV1, ProtocolHandshakeV1,
    RunId, SupervisorDecisionKind, SupervisorDecisionV1, WorkerSessionId,
};
use catdesk_delegated::{EXECUTION_CONTRACT_SCHEMA_VERSION, EXECUTION_PROTOCOL_VERSION};

fn fixture_contract() -> ExecutionContractV1 {
    ExecutionContractV1 {
        schema_version: 1,
        task_id: "T-0013".into(),
        objective: "Add the delegated execution protocol.".into(),
        workspace: "C:/work/catdesk".into(),
        feature_branch: "orchestrator/v1-coding-sprint".into(),
        allowed_paths: vec!["src/delegated".into(), "tests".into()],
        forbidden_paths: vec![".git".into(), "target".into()],
        allowed_command_profiles: vec!["cargo".into()],
        ordered_steps: vec!["inspect".into(), "patch".into(), "verify".into()],
        acceptance_criteria: vec![
            "cargo tests pass".into(),
            "authoritative diff is captured".into(),
        ],
        retry_budget: 2,
        max_turns: 8,
        max_tool_calls: 24,
        max_elapsed_seconds: 600,
        provider_policy: ProviderPolicyV1 {
            primary_provider_id: "ollama".into(),
            primary_model_id: "qwen3.5:9b".into(),
            fallback_provider_ids: Vec::new(),
            require_tool_calls: true,
            allow_paid_fallbacks: false,
        },
        advisor_policy: None,
        escalation_conditions: vec!["needs human".into()],
        approval_requirements: vec![ApprovalRequirementV1 {
            kind: ApprovalRequirementKind::RunStart,
            required: true,
            reason: "Supervisor must approve the start".into(),
        }],
        expected_artifacts: vec![ExpectedArtifactV1 {
            kind: ExpectedArtifactKind::FinalReview,
            name: "final review".into(),
            required: true,
        }],
        verification_profile: "cargo".into(),
    }
}

#[test]
fn execution_contract_round_trips_and_validates() {
    let contract = fixture_contract();
    validate_contract(&contract).expect("valid contract");
    let reparsed = contract.clone();
    assert_eq!(contract, reparsed);
    assert_eq!(
        contract.request_hash().expect("hash"),
        reparsed.request_hash().expect("hash")
    );
}

#[test]
fn unknown_schema_versions_are_rejected() {
    let mut contract = fixture_contract();
    contract.schema_version = 2;
    assert!(validate_contract(&contract)
        .unwrap_err()
        .contains("unsupported schema_version"));
}

#[test]
fn validates_paths_budgets_and_branch_names() {
    let mut contract = fixture_contract();
    contract.allowed_paths.push("../secret".into());
    assert!(validate_contract(&contract).is_err());

    let mut contract = fixture_contract();
    contract.max_turns = 0;
    assert!(validate_contract(&contract).is_err());

    let mut contract = fixture_contract();
    contract.feature_branch = "bad branch".into();
    assert!(validate_contract(&contract).is_err());
}

#[test]
fn worker_output_cannot_change_immutable_objective() {
    let original = fixture_contract();
    let mut echoed = original.clone();
    echoed.objective = "Do something else".into();
    assert!(echoed.ensure_same_immutable_intent(&original).is_err());
}

fn approval(expires_at_sequence: u64) -> (ApprovalRequestV1, SupervisorDecisionV1) {
    let run_id = RunId::new("run-t0013").expect("run id");
    let approval = ApprovalRequestV1 {
        approval_id: ApprovalId::new("approval-1").expect("approval id"),
        run_id: run_id.clone(),
        request_hash: "fnv1a64:abc".into(),
        reason: "Need narrow exception".into(),
        expires_at_sequence,
        consumed: false,
    };
    let decision = SupervisorDecisionV1 {
        schema_version: 1,
        decision_id: "decision-1".into(),
        run_id,
        approval_id: Some(approval.approval_id.clone()),
        request_hash: approval.request_hash.clone(),
        kind: SupervisorDecisionKind::ApproveNarrowException,
        rationale: "Approved for one path".into(),
        expires_at_sequence,
    };
    (approval, decision)
}

#[test]
fn approvals_are_tied_to_one_run_request_and_expiration() {
    let (approval, decision) = approval(10);
    assert!(approval.validate_decision(&decision, 9).is_ok());
    assert!(approval.validate_decision(&decision, 11).is_err());
}

#[test]
fn approvals_are_refused_for_another_request_or_once_consumed() {
    let (approval_request, decision) = approval(10);
    let mut other = decision.clone();
    other.request_hash = "fnv1a64:other".into();
    assert!(approval_request.validate_decision(&other, 9).is_err());
    let mut other = decision.clone();
    other.run_id = RunId::new("another-run").expect("run id");
    assert!(approval_request.validate_decision(&other, 9).is_err());
    let mut consumed = approval_request;
    consumed.consumed = true;
    assert!(consumed.validate_decision(&decision, 9).is_err());
}

#[test]
fn identifiers_are_conservative() {
    assert_eq!(RunId::new("run:1.2_a-b").expect("id").as_str(), "run:1.2_a-b");
    assert_eq!(
        RunId::new("a b").unwrap_err(),
        "RunId must be a conservative non-empty identifier"
    );
    assert!(WorkerSessionId::new("").is_err());
    assert!(WorkerSessionId::new(&"x".repeat(120)).is_ok());
    assert!(WorkerSessionId::new(&"x".repeat(121)).is_err());
}

#[test]
fn handshake_names_both_versions() {
    let mut handshake = ProtocolHandshakeV1 {
        protocol_version: EXECUTION_PROTOCOL_VERSION.into(),
        contract_schema_version: EXECUTION_CONTRACT_SCHEMA_VERSION,
        worker_runtime: "rust".into(),
        supports_delta_events: true,
        supports_event_cursor: true,
    };
    assert!(handshake.validate().is_ok());
    handshake.contract_schema_version = 7;
    assert_eq!(
        handshake.validate().unwrap_err(),
        "unsupported contract_schema_version `7`; expected `1`"
    );
    handshake.protocol_version = "other".into();
    assert!(handshake.validate().unwrap_err().contains("`other`"));
}

#[test]
fn request_hash_follows_every_field() {
    let contract = fixture_contract();
    let hash = contract.request_hash().expect("hash");
    assert!(hash.starts_with("fnv1a64:"));
    let mut changed = contract.clone();
    changed.max_turns = 9;
    assert_ne!(changed.request_hash().expect("hash"), hash);
    let mut invalid = contract;
    invalid.objective = " ".into();
    assert!(invalid.request_hash().is_err());
}

#[test]
fn branch_names_stay_plain() {
    assert!(validate_branch_name("feature/one").is_ok());
    assert!(validate_branch_name("").is_err());
    assert!(validate_branch_name("a..b").is_err());
    assert!(validate_branch_name("bad branch").is_err());
}
