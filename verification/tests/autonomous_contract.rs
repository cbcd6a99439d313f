use catdesk_delegated::autonomous_contract::{
    AutonomousApprovalKindV1, AutonomousApprovalV1, AutonomousCommandProfileV1,
    AutonomousDevelopmentContractV1, AutonomousGitActionV1, AutonomousGitPolicyV1,
    AutonomousHardStopV1, AutonomousIdempotencyRegistryV1, AutonomousPolicyEngineV1,
    AutonomousProviderPolicyV1, AutonomousRateLimitPolicyV1, AutonomousVerificationPolicyV1,
    AutonomyLeaseV1, ContractPolicyError, ResolvedPath,
};

fn parts(names: &[&str]) -> ResolvedPath {
    ResolvedPath::Resolved(names.iter().map(|name| name.to_string()).collect())
}

fn contract() -> AutonomousDevelopmentContractV1 {
    AutonomousDevelopmentContractV1 {
        schema_version: 1,
        contract_id: "adc-1".into(),
        task_id: "t-28".into(),
        project_id: "catdesk".into(),
        mode: "chatgpt_web_codex_autonomous".into(),
        objective: "bounded test objective".into(),
        workspace: "/work".into(),
        base_branch: "main".into(),
        feature_branch: "feature-adc".into(),
        base_commit: "1234567".into(),
        expected_origin: "https://example.invalid/catdesk.git".into(),
        ordered_steps: vec!["inspect".into()],
        allowed_paths: vec!["/work/src".into()],
        forbidden_paths: Vec::new(),
        allowed_command_profiles: vec![
            AutonomousCommandProfileV1::CargoTest,
            AutonomousCommandProfileV1::GitStatus,
        ],
        git_policy: AutonomousGitPolicyV1 {
            create_branch: true,
            create_worktree: true,
            local_commits: true,
            push_feature_branch: false,
            open_pull_request: false,
            merge: false,
            force_push: false,
            modify_main: false,
        },
        provider_policy: AutonomousProviderPolicyV1 {
            primary_provider: "codex-cli".into(),
            primary_model: "default".into(),
            routine_provider: "ollama".into(),
            routine_model: "qwen3.6:35b-a3b".into(),
            allow_paid_fallback: false,
            allow_cloud_fallback: false,
        },
        verification_policy: AutonomousVerificationPolicyV1 {
            profile: "rust_full".into(),
            required_commands: vec![AutonomousCommandProfileV1::CargoTest],
            max_repair_cycles: 1,
            require_authoritative_diff: true,
            require_final_review: true,
        },
        rate_limit_policy: AutonomousRateLimitPolicyV1 {
            automatic_pause: true,
            automatic_resume: true,
            initial_backoff_seconds: 5,
            maximum_backoff_seconds: 30,
            maximum_rate_limited_seconds: 60,
            honor_provider_retry_after: true,
        },
        autonomy_lease: AutonomyLeaseV1 {
            start_approval_required: true,
            renewal_allowed: true,
            issued_at_unix: 10,
            expires_at_unix: 100,
            maximum_total_elapsed_seconds: 90,
            maximum_provider_turns: 2,
            maximum_tool_calls: 3,
            maximum_consecutive_failures: 1,
            maximum_repair_cycles: 1,
        },
        hard_stop_conditions: vec![AutonomousHardStopV1::CancellationRequested],
    }
}

fn engine() -> AutonomousPolicyEngineV1 {
    AutonomousPolicyEngineV1::new(
        contract(),
        &parts(&["/", "work"]),
        &vec![parts(&["/", "work", "src"])],
        &vec![parts(&["/", "work", "src", "secret"])],
    )
    .expect("engine")
}

#[test]
fn policy_is_deterministic_and_rejects_prohibited_fallbacks() {
    let contract = contract();
    assert_eq!(
        contract.decision_hash().expect("hash"),
        contract.decision_hash().expect("hash")
    );
    let mut prohibited = contract.clone();
    prohibited.provider_policy.allow_cloud_fallback = true;
    assert!(prohibited.validate(true).is_err());
}

#[test]
fn paths_commands_and_git_are_fail_closed() {
    let engine = engine();
    assert!(engine.permit_path(&parts(&["/", "work", "src"])).is_ok());
    assert!(engine.permit_path(&parts(&["/", "work"])).is_err());
    assert!(engine
        .permit_new_path(Some(&parts(&["/", "work", "src"])), true)
        .is_ok());
    assert!(engine
        .permit_command(&vec!["cargo".into(), "test".into()])
        .is_ok());
    assert!(engine
        .permit_command(&vec!["cargo".into(), "test".into(), "--all".into()])
        .is_err());
    assert!(engine
        .permit_git_action(AutonomousGitActionV1::ForcePush)
        .is_err());
}

#[test]
fn forbidden_paths_win_over_allowed_ones() {
    let engine = engine();
    assert!(matches!(
        engine.permit_path(&parts(&["/", "work", "src", "secret", "key"])),
        Err(ContractPolicyError::Denied(_))
    ));
    assert!(engine.permit_path(&parts(&["/", "work", "src", "lib.rs"])).is_ok());
    assert!(engine.permit_path(&ResolvedPath::Missing).is_err());
    assert!(engine.permit_path(&parts(&["/", "elsewhere", "src"])).is_err());
}

#[test]
fn approval_lease_and_idempotency_are_bound_to_contract() {
    let engine = engine();
    let approval = AutonomousApprovalV1 {
        schema_version: 1,
        approval_id: "approval-1".into(),
        contract_hash: engine.contract_hash().into(),
        kind: AutonomousApprovalKindV1::RunStart,
        idempotency_key: "start-1".into(),
        expires_at_unix: 50,
        consumed: false,
    };
    engine.validate_approval(&approval, 20).expect("approval");
    let mut registry = AutonomousIdempotencyRegistryV1::default();
    assert!(registry.register("start-1", "hash-a").expect("first"));
    assert!(!registry.register("start-1", "hash-a").expect("repeat"));
    assert!(registry.register("start-1", "hash-b").is_err());
    let mut lease = engine.contract().autonomy_lease.clone();
    assert!(lease.valid_at(20));
    lease.renew(20, 120).expect("renew");
    assert!(lease.valid_at(110));
}

#[test]
fn expired_foreign_and_used_approvals_do_not_count() {
    let engine = engine();
    let approval = AutonomousApprovalV1 {
        schema_version: 1,
        approval_id: "approval-1".into(),
        contract_hash: engine.contract_hash().into(),
        kind: AutonomousApprovalKindV1::RunStart,
        idempotency_key: "start-1".into(),
        expires_at_unix: 50,
        consumed: false,
    };
    assert!(engine.validate_approval(&approval, 50).is_err());
    let mut foreign = approval.clone();
    foreign.contract_hash = "fnv1a64:other".into();
    assert!(engine.validate_approval(&foreign, 20).is_err());
    let mut used = approval;
    used.consumed = true;
    assert!(engine.validate_approval(&used, 20).is_err());
}

#[test]
fn leases_end_and_are_not_renewed_late() {
    let mut lease = contract().autonomy_lease;
    assert!(!lease.valid_at(100));
    assert!(lease.renew(101, 200).is_err());
    assert!(lease.renew(20, 20).is_err());
    lease.renewal_allowed = false;
    assert!(matches!(
        lease.renew(20, 200),
        Err(ContractPolicyError::Lease(message))
            if message == "autonomy lease renewal is not permitted"
    ));
}

#[test]
fn allowed_paths_must_lie_in_the_workspace() {
    let refused = AutonomousPolicyEngineV1::new(
        contract(),
        &parts(&["/", "work"]),
        &vec![parts(&["/", "elsewhere"])],
        &Vec::new(),
    );
    assert!(matches!(
        refused,
        Err(ContractPolicyError::Validation(message)) if message == "allowed path escapes workspace"
    ));
    assert!(engine().requires_hard_stop(AutonomousHardStopV1::CancellationRequested));
    assert!(!engine().requires_hard_stop(AutonomousHardStopV1::SecretExposure));
}
