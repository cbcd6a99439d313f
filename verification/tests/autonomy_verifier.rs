use catdesk_delegated::autonomous_contract::{
    AutonomousCommandProfileV1, AutonomousDevelopmentContractV1, AutonomousGitPolicyV1,
    AutonomousHardStopV1, AutonomousPolicyEngineV1, AutonomousProviderPolicyV1,
    AutonomousRateLimitPolicyV1, AutonomousVerificationPolicyV1, AutonomyLeaseV1, ResolvedPath,
};
use catdesk_delegated::autonomy_verifier::{
    bounded_output, bounded_text, check_branch, check_origin, diff_command, git_output, redact_text, review, CommandOutcomeV1,
    ContractVerifierV1,
};
use catdesk_delegated::coordinator::{VerificationStatusV1, VerificationSummaryV1};
use catdesk_delegated::provider::RuntimeError;

fn engine(required: Vec<AutonomousCommandProfileV1>) -> AutonomousPolicyEngineV1 {
    let parts = |names: &[&str]| ResolvedPath::Resolved(names.iter().map(|n| n.to_string()).collect());
    AutonomousPolicyEngineV1::new(
        AutonomousDevelopmentContractV1 {
            schema_version: 1,
            contract_id: "adc-1".into(),
            task_id: "t-28".into(),
            project_id: "catdesk".into(),
            mode: "chatgpt_web_codex_autonomous".into(),
            objective: "bounded test objective".into(),
            workspace: "/work".into(),
            base_branch: "main".into(),
            feature_branch: "feature-adc".into(),
            base_commit: "1234567".into(),
            expected_origin: "https://example.invalid/catdesk.git".into(),
            ordered_steps: vec!["inspect".into()],
            allowed_paths: vec!["/work/src".into()],
            forbidden_paths: Vec::new(),
            allowed_command_profiles: vec![
                AutonomousCommandProfileV1::CargoTest,
                AutonomousCommandProfileV1::GitStatus,
            ],
            git_policy: AutonomousGitPolicyV1 {
                create_branch: true,
                create_worktree: true,
                local_commits: true,
                push_feature_branch: false,
                open_pull_request: false,
                merge: false,
                force_push: false,
                modify_main: false,
            },
            provider_policy: AutonomousProviderPolicyV1 {
                primary_provider: "codex-cli".into(),
                primary_model: "default".into(),
                routine_provider: "ollama".into(),
                routine_model: "qwen3.6:35b-a3b".into(),
                allow_paid_fallback: false,
                allow_cloud_fallback: false,
            },
            verification_policy: AutonomousVerificationPolicyV1 {
                profile: "rust_full".into(),
                required_commands: required,
                max_repair_cycles: 1,
                require_authoritative_diff: true,
                require_final_review: true,
            },
            rate_limit_policy: AutonomousRateLimitPolicyV1 {
                automatic_pause: true,
                automatic_resume: true,
                initial_backoff_seconds: 5,
                maximum_backoff_seconds: 30,
                maximum_rate_limited_seconds: 60,
                honor_provider_retry_after: true,
            },
            autonomy_lease: AutonomyLeaseV1 {
                start_approval_required: true,
                renewal_allowed: true,
                issued_at_unix: 10,
                expires_at_unix: 100,
                maximum_total_elapsed_seconds: 90,
                maximum_provider_turns: 2,
                maximum_tool_calls: 3,
                maximum_consecutive_failures: 1,
                maximum_repair_cycles: 1,
            },
            hard_stop_conditions: vec![AutonomousHardStopV1::CancellationRequested],
        },
        &parts(&["/", "work"]),
        &vec![parts(&["/", "work", "src"])],
        &Vec::new(),
    )
    .expect("engine")
}

fn ended(success: bool, stdout: &str, stderr: &str) -> CommandOutcomeV1 {
    CommandOutcomeV1::Ended {
        success,
        stdout: stdout.into(),
        stderr: stderr.into(),
    }
}

fn contract_verifier(required: Vec<AutonomousCommandProfileV1>) -> ContractVerifierV1 {
    ContractVerifierV1::new(
        engine(required),
        "feature-adc\n",
        "https://example.invalid/catdesk.git\n",
        true,
    )
    .expect("verifier")
}

#[test]
fn output_is_bounded_on_utf8_boundaries() {
    assert_eq!(bounded_text("abc", 2), "ab...");
    assert_eq!(bounded_text("a\u{00E9}", 2), "a...");
}

#[test]
fn output_redaction_removes_common_assignment_values() {
    assert_eq!(
        redact_text("token=synthetic-value"),
        "<redacted-sensitive-output>"
    );
    assert_eq!(redact_text("ordinary output"), "ordinary output");
}

#[test]
fn only_the_sensitive_line_is_replaced() {
    assert_eq!(
        redact_text("first\r\nAPI_KEY=abc\nlast"),
        "first\n<redacted-sensitive-output>\nlast"
    );
    assert_eq!(bounded_output(b"out", b"err"), "out\nerr");
    assert_eq!(bounded_output(b"out", b""), "out");
}

#[test]
fn verification_runs_every_required_command_in_order() {
    let mut verifier = contract_verifier(vec![
        AutonomousCommandProfileV1::CargoTest,
        AutonomousCommandProfileV1::GitStatus,
    ]);
    assert_eq!(
        verifier.next_command().expect("permitted"),
        Some(vec!["cargo".into(), "test".into()])
    );
    verifier.accept(&ended(true, "tests ok", "")).expect("passed");
    assert!(verifier.next_command().expect("permitted").is_some());
    verifier.accept(&ended(true, "clean", "note")).expect("passed");
    assert_eq!(verifier.next_command().expect("permitted"), None);
    let (summary, diff) = verifier.conclude(&ended(true, "diff --git a b", "")).expect("diff");
    assert_eq!(summary.status, VerificationStatusV1::Passed);
    assert_eq!(summary.summary, "tests ok\nclean\nnote");
    assert_eq!(diff, "diff --git a b");
    assert_eq!(verifier.last_verification, Some(summary));
}

#[test]
fn a_failed_command_stops_verification() {
    let mut verifier = contract_verifier(vec![AutonomousCommandProfileV1::CargoTest]);
    assert_eq!(
        verifier.accept(&ended(false, "1 failed", "")),
        Err(RuntimeError::Provider(
            "approved verification command failed: 1 failed".into()
        ))
    );
    assert_eq!(
        verifier.accept(&CommandOutcomeV1::NotLaunched),
        Err(RuntimeError::Provider(
            "approved verification command could not be launched".into()
        ))
    );
    assert!(verifier.next_command().expect("permitted").is_some());
}

#[test]
fn commands_outside_the_contract_are_not_run() {
    let outside = contract_verifier(vec![AutonomousCommandProfileV1::CargoFmt]);
    assert_eq!(
        outside.next_command(),
        Err(RuntimeError::Validation(
            "verification command is outside the contract".into()
        ))
    );
    let inexact = contract_verifier(vec![AutonomousCommandProfileV1::ApprovedProjectTests]);
    assert!(inexact.next_command().is_err());
}

#[test]
fn a_clean_workspace_is_not_a_missing_diff() {
    let mut verifier = contract_verifier(Vec::new());
    let (_, diff) = verifier.conclude(&ended(true, " \n", "")).expect("diff");
    assert_eq!(diff, "authoritative-diff: clean");
    assert!(verifier.conclude(&ended(false, "", "bad")).is_err());
    assert_eq!(diff_command()[2], "diff");
}

#[test]
fn the_workspace_must_be_the_contracts() {
    let refused = |branch: &str, origin: &str, ancestor: bool| {
        match ContractVerifierV1::new(engine(Vec::new()), branch, origin, ancestor) {
            Err(RuntimeError::Validation(message)) => message,
            _ => panic!("accepted"),
        }
    };
    let origin = "https://example.invalid/catdesk.git";
    assert!(refused("other", origin, true).contains("feature branch"));
    assert!(refused("feature-adc", "elsewhere", true).contains("origin"));
    assert!(refused("feature-adc", origin, false).contains("ancestor"));
}

#[test]
fn reviews_are_given_for_verified_work_only() {
    let mut summary = VerificationSummaryV1 {
        status: VerificationStatusV1::Passed,
        command: "c".into(),
        summary: "s".into(),
    };
    assert_eq!(
        review(&summary, "d\u{e9}").expect("review"),
        "{\"automaticGitPublication\":false,\"diffBytes\":3,\"result\":\"reviewed locally\",\"schemaVersion\":1,\"verificationStatus\":\"PASSED\"}"
    );
    assert!(review(&summary, "  ").is_err());
    summary.status = VerificationStatusV1::Failed;
    assert!(review(&summary, "diff").is_err());
}

#[test]
fn git_says_where_the_workspace_stands() {
    assert_eq!(
        git_output(&CommandOutcomeV1::Ended {
            success: true,
            stdout: "feature-adc".into(),
            stderr: Vec::new(),
        }),
        Ok("feature-adc".to_string())
    );
    assert_eq!(
        git_output(&CommandOutcomeV1::Ended {
            success: false,
            stdout: Vec::new(),
            stderr: "fatal".into(),
        }),
        Err(RuntimeError::Validation("Git identity command did not succeed".into()))
    );
    assert_eq!(
        git_output(&CommandOutcomeV1::NotLaunched),
        Err(RuntimeError::Provider(
            "Git identity command could not be launched".into()
        ))
    );
}

#[test]
fn branch_and_origin_are_checked_one_by_one() {
    let policy = engine(vec![AutonomousCommandProfileV1::CargoTest]);
    let contract = policy.contract();
    assert_eq!(check_branch(contract, "feature-adc\n"), Ok(()));
    assert_eq!(
        check_branch(contract, "other"),
        Err(RuntimeError::Validation(
            "autonomous verifier requires the contract feature branch".into()
        ))
    );
    assert_eq!(
        check_origin(contract, "https://example.invalid/catdesk.git\n"),
        Ok(())
    );
    assert_eq!(
        check_origin(contract, "https://example.invalid/other.git"),
        Err(RuntimeError::Validation(
            "autonomous verifier origin does not match the contract".into()
        ))
    );
}

#[test]
fn output_bytes_are_decoded_with_marks() {
    assert_eq!(bounded_output(b"ok \xc3\xa9 \xff", b""), "ok \u{e9} \u{fffd}");
}
