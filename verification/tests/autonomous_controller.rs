use catdesk_delegated::autonomous_contract::{
    AutonomousCommandProfileV1, AutonomousDevelopmentContractV1, AutonomousGitPolicyV1,
    AutonomousHardStopV1, AutonomousPolicyEngineV1, AutonomousProviderPolicyV1,
    AutonomousRateLimitPolicyV1, AutonomousVerificationPolicyV1, AutonomyLeaseV1, ResolvedPath,
};
use catdesk_delegated::autonomous_controller::{
    decide_step, turn_call, turn_to_stop, worker_instruction, AutonomousControllerV1,
    AutonomousVerifierV1, ControllerStepV1, EscalationReasonV1, TurnCallV1, WorkerProviderV1,
};
use catdesk_delegated::autonomy_state::{
    AutonomousQueueTaskStateV1, AutonomousQueueTaskV1, AutonomousQueueV1,
    AutonomousSessionStateV1, AutonomousStateStoreV1,
};
use catdesk_delegated::contracts::WorkerSessionId;
use catdesk_delegated::coordinator::{VerificationStatusV1, VerificationSummaryV1};
use catdesk_delegated::provider::{
    NormalizedProviderEventKind, NormalizedProviderEventV1, ProviderCapabilitiesV1,
    ProviderEventBatchV1, ProviderIdV1, ProviderSessionV1, ProviderTurnHandleV1, ProviderType,
    RuntimeError, WorkerProviderTurnRequestV1,
};

enum Turn {
    Complete,
    StillRunning,
    RateLimit,
    Error,
}

struct FakeWorkerProvider {
    turns: Vec<Turn>,
    started: usize,
    resumed: usize,
    cancelled: usize,
    prompts: Vec<String>,
    session_id: String,
}

impl FakeWorkerProvider {
    fn new(turns: Vec<Turn>) -> Self {
        FakeWorkerProvider {
            turns,
            started: 0,
            resumed: 0,
            cancelled: 0,
            prompts: Vec::new(),
            session_id: "fake-session".into(),
        }
    }

    fn handle(&mut self, request: WorkerProviderTurnRequestV1) -> ProviderTurnHandleV1 {
        self.started += 1;
        self.prompts.push(request.history[0].content.clone());
        ProviderTurnHandleV1 {
            provider_id: ProviderIdV1::Fake,
            handle_id: format!("fake-turn-{}", self.started),
            provider_session_id: request.provider_session.provider_session_id.clone(),
            worker_session_id: request.turn.worker_session_id.clone(),
            turn_id: request.turn.turn_id.clone(),
        }
    }
}

impl WorkerProviderV1 for FakeWorkerProvider {
    fn provider_id(&self) -> ProviderIdV1 {
        ProviderIdV1::Fake
    }

    fn capabilities(&self) -> ProviderCapabilitiesV1 {
        ProviderCapabilitiesV1 {
            provider_id: "fake".into(),
            provider_type: ProviderType::Fake,
            supports_streaming: true,
            supports_native_tool_calls: true,
            supports_session_continuity: true,
            supports_cancellation: true,
            context_limit: 1024,
            output_limit: 1024,
        }
    }

    fn create_session(&mut self, model: &str, _worker: &WorkerSessionId) -> ProviderSessionV1 {
        ProviderSessionV1 {
            provider_id: "fake".into(),
            provider_session_id: self.session_id.clone(),
            model_id: model.into(),
            keep_alive: None,
        }
    }

    fn start_turn(
        &mut self,
        request: WorkerProviderTurnRequestV1,
    ) -> Result<ProviderTurnHandleV1, RuntimeError> {
        Ok(self.handle(request))
    }

    fn resume_turn(
        &mut self,
        request: WorkerProviderTurnRequestV1,
    ) -> Result<ProviderTurnHandleV1, RuntimeError> {
        self.resumed += 1;
        Ok(self.handle(request))
    }

    fn poll_events(
        &mut self,
        handle: &ProviderTurnHandleV1,
        _cursor: u64,
    ) -> Result<ProviderEventBatchV1, RuntimeError> {
        let event = |kind, text: &str| NormalizedProviderEventV1 {
            provider_id: "fake".into(),
            turn_id: handle.turn_id.clone(),
            kind,
            text: Some(text.into()),
            tool_call: None,
        };
        let turn = if self.turns.len() > 1 {
            self.turns.remove(0)
        } else {
            match self.turns.first() {
                Some(Turn::StillRunning) => Turn::StillRunning,
                Some(Turn::RateLimit) => Turn::RateLimit,
                Some(Turn::Error) => Turn::Error,
                _ => Turn::Complete,
            }
        };
        let (events, terminal) = match turn {
            Turn::Complete => (
                vec![event(NormalizedProviderEventKind::CompletionClaim, "done")],
                true,
            ),
            Turn::StillRunning => (
                vec![event(NormalizedProviderEventKind::TextDelta, "still running")],
                false,
            ),
            Turn::RateLimit => (
                vec![event(
                    NormalizedProviderEventKind::TerminalError,
                    "HTTP 429 rate limit",
                )],
                true,
            ),
            Turn::Error => (
                vec![event(NormalizedProviderEventKind::TerminalError, "broken pipe")],
                true,
            ),
        };
        Ok(ProviderEventBatchV1 {
            events,
            next_cursor: 1,
            terminal,
            provider_session_id: Some(handle.provider_session_id.clone()),
        })
    }

    fn cancel(&mut self, _handle: &ProviderTurnHandleV1) -> Result<(), RuntimeError> {
        self.cancelled += 1;
        Ok(())
    }
}

struct Verifier {
    statuses: Vec<VerificationStatusV1>,
    diff: String,
    final_review: bool,
}

impl AutonomousVerifierV1 for Verifier {
    fn verify(&mut self) -> Result<(VerificationSummaryV1, String), RuntimeError> {
        let status = if self.statuses.len() > 1 {
            self.statuses.remove(0)
        } else {
            self.statuses
                .first()
                .cloned()
                .unwrap_or(VerificationStatusV1::Failed)
        };
        Ok((
            VerificationSummaryV1 {
                status,
                command: "deterministic".into(),
                summary: "test".into(),
            },
            self.diff.clone(),
        ))
    }

    fn final_review(
        &mut self,
        _verification: &VerificationSummaryV1,
        _authoritative_diff: &str,
    ) -> Result<String, RuntimeError> {
        if self.final_review {
            Ok("deterministic final review".into())
        } else {
            Err(RuntimeError::Validation(
                "deterministic final review intentionally absent".into(),
            ))
        }
    }
}

fn contract() -> AutonomousDevelopmentContractV1 {
    AutonomousDevelopmentContractV1 {
        schema_version: 1,
        contract_id: "adc-1".into(),
        task_id: "task-1".into(),
        project_id: "catdesk".into(),
        mode: "chatgpt_web_codex_autonomous".into(),
        objective: "test".into(),
        workspace: "/work".into(),
        base_branch: "main".into(),
        feature_branch: "feature-1".into(),
        base_commit: "1234567".into(),
        expected_origin: "https://example.invalid/repo.git".into(),
        ordered_steps: vec!["run".into()],
        allowed_paths: vec!["/work/src".into()],
        forbidden_paths: Vec::new(),
        allowed_command_profiles: vec![AutonomousCommandProfileV1::CargoTest],
        git_policy: AutonomousGitPolicyV1 {
            create_branch: true,
            create_worktree: true,
            local_commits: false,
            push_feature_branch: false,
            open_pull_request: false,
            merge: false,
            force_push: false,
            modify_main: false,
        },
        provider_policy: AutonomousProviderPolicyV1 {
            primary_provider: "codex-cli".into(),
            primary_model: "fake-model".into(),
            routine_provider: "ollama".into(),
            routine_model: "qwen3.6:35b-a3b".into(),
            allow_paid_fallback: false,
            allow_cloud_fallback: false,
        },
        verification_policy: AutonomousVerificationPolicyV1 {
            profile: "test".into(),
            required_commands: vec![],
            max_repair_cycles: 1,
            require_authoritative_diff: true,
            require_final_review: true,
        },
        rate_limit_policy: AutonomousRateLimitPolicyV1 {
            automatic_pause: true,
            automatic_resume: true,
            initial_backoff_seconds: 5,
            maximum_backoff_seconds: 30,
            maximum_rate_limited_seconds: 60,
            honor_provider_retry_after: true,
        },
        autonomy_lease: AutonomyLeaseV1 {
            start_approval_required: false,
            renewal_allowed: true,
            issued_at_unix: 1,
            expires_at_unix: 100,
            maximum_total_elapsed_seconds: 99,
            maximum_provider_turns: 2,
            maximum_tool_calls: 2,
            maximum_consecutive_failures: 1,
            maximum_repair_cycles: 1,
        },
        hard_stop_conditions: vec![AutonomousHardStopV1::CancellationRequested],
    }
}

fn policy() -> AutonomousPolicyEngineV1 {
    let parts = |names: &[&str]| ResolvedPath::Resolved(names.iter().map(|n| n.to_string()).collect());
    AutonomousPolicyEngineV1::new(
        contract(),
        &parts(&["/", "work"]),
        &vec![parts(&["/", "work", "src"])],
        &Vec::new(),
    )
    .expect("policy")
}

fn work_task() -> AutonomousQueueTaskV1 {
    AutonomousQueueTaskV1 {
        task_id: "work".into(),
        priority: 1,
        depends_on: vec![],
        state: AutonomousQueueTaskStateV1::Ready,
    }
}

fn store() -> AutonomousStateStoreV1 {
    let mut store = AutonomousStateStoreV1::new();
    store
        .create_session(
            "session-1",
            AutonomousQueueV1::new(vec![work_task()]).expect("queue"),
        )
        .expect("session");
    store
}

fn setup(
    status: VerificationStatusV1,
    diff: &str,
) -> (
    AutonomousStateStoreV1,
    AutonomousControllerV1<FakeWorkerProvider, Verifier>,
) {
    (
        store(),
        AutonomousControllerV1::new(
            policy(),
            FakeWorkerProvider::new(vec![Turn::Complete, Turn::Complete]),
            Verifier {
                statuses: vec![status],
                diff: diff.into(),
                final_review: true,
            },
            "session-1".into(),
        ),
    )
}

#[test]
fn completion_requires_independent_verification_and_diff() {
    let (mut store, mut success) = setup(VerificationStatusV1::Passed, "diff --git");
    assert_eq!(
        success.run_once(&mut store, 10).expect("run").state,
        AutonomousSessionStateV1::CompletedVerified
    );
    assert_eq!(
        store
            .load_completion_artifacts("session-1")
            .expect("completion evidence")
            .authoritative_diff,
        "diff --git"
    );
    let (mut store, mut failed) = setup(VerificationStatusV1::Failed, "");
    assert_eq!(
        failed.run_once(&mut store, 10).expect("run").state,
        AutonomousSessionStateV1::Queued
    );
}

#[test]
fn expired_lease_stops_before_provider_launch() {
    let (mut store, mut controller) = setup(VerificationStatusV1::Passed, "diff");
    assert_eq!(
        controller.run_once(&mut store, 100).expect("stop").state,
        AutonomousSessionStateV1::LeaseExpired
    );
    assert_eq!(controller.provider.started, 0);
}

#[test]
fn failed_verification_resumes_same_provider_session_for_bounded_repair() {
    let (mut store, mut controller) = setup(VerificationStatusV1::Failed, "diff");
    controller
        .verifier
        .statuses
        .push(VerificationStatusV1::Passed);
    assert_eq!(
        controller.run_once(&mut store, 10).expect("initial").state,
        AutonomousSessionStateV1::Queued
    );
    assert_eq!(
        controller.run_once(&mut store, 11).expect("repair").state,
        AutonomousSessionStateV1::CompletedVerified
    );
    assert_eq!(controller.repair_attempts, 1);
    assert_eq!(controller.provider.started, 2);
    assert_eq!(controller.provider.resumed, 1);
    assert!(controller.provider.prompts[1].starts_with("Independent verification did not pass."));
}

#[test]
fn cancellation_persists_and_prevents_a_repair_turn() {
    let (mut store, mut controller) = setup(VerificationStatusV1::Failed, "diff");
    assert_eq!(
        controller.run_once(&mut store, 10).expect("initial").state,
        AutonomousSessionStateV1::Queued
    );
    controller.cancel(&mut store).expect("cancel");
    assert_eq!(
        controller.run_once(&mut store, 11).expect("cancelled").state,
        AutonomousSessionStateV1::Cancelled
    );
    assert_eq!(controller.provider.started, 1);
    assert_eq!(controller.provider.cancelled, 1);
    assert!(
        store
            .load_session("session-1")
            .expect("state")
            .cancellation_requested
    );
}

#[test]
fn completion_requires_a_final_review_artifact() {
    let (mut store, mut controller) = setup(VerificationStatusV1::Passed, "diff --git");
    controller.verifier.final_review = false;
    assert_eq!(
        controller.run_once(&mut store, 10).expect("escalation").state,
        AutonomousSessionStateV1::WaitingForChatgpt
    );
    assert_ne!(
        store.load_session("session-1").expect("state").state,
        AutonomousSessionStateV1::CompletedVerified
    );
    assert_eq!(
        store
            .load_escalation("session-1")
            .expect("escalation")
            .reason,
        "final_review_unavailable"
    );
}

#[test]
fn rate_limit_is_persisted_then_resumed_after_backoff() {
    let (mut store, mut controller) = setup(VerificationStatusV1::Passed, "diff --git");
    controller.provider = FakeWorkerProvider::new(vec![Turn::RateLimit, Turn::Complete]);
    assert_eq!(
        controller.run_once(&mut store, 10).expect("rate limit").state,
        AutonomousSessionStateV1::RateLimited
    );
    assert_eq!(
        controller.run_once(&mut store, 14).expect("backoff").state,
        AutonomousSessionStateV1::RateLimited
    );
    assert_eq!(
        controller.run_once(&mut store, 15).expect("resume").state,
        AutonomousSessionStateV1::CompletedVerified
    );
}

#[test]
fn a_rate_limit_that_lasts_too_long_is_escalated() {
    let (mut store, mut controller) = setup(VerificationStatusV1::Passed, "diff --git");
    controller.provider = FakeWorkerProvider::new(vec![Turn::RateLimit, Turn::Complete]);
    controller.run_once(&mut store, 10).expect("rate limit");
    assert_eq!(
        controller.run_once(&mut store, 71).expect("escalation").state,
        AutonomousSessionStateV1::WaitingForChatgpt
    );
    assert_eq!(
        store.load_escalation("session-1").expect("escalation").reason,
        "rate_limit_duration_exhausted"
    );
}

#[test]
fn restart_recovery_resumes_the_persisted_provider_session() {
    let (mut store, mut controller) = setup(VerificationStatusV1::Passed, "diff --git");
    let mut snapshot = store.load_session("session-1").expect("state");
    snapshot.state = AutonomousSessionStateV1::RecoveringAfterRestart;
    snapshot.current_task_id = Some("work".into());
    snapshot.provider_thread_id = Some("prior-provider-session".into());
    store.save_session(&snapshot).expect("persist recovery");
    assert_eq!(
        controller.run_once(&mut store, 10).expect("resume").state,
        AutonomousSessionStateV1::CompletedVerified
    );
    assert_eq!(
        controller
            .last_handle
            .as_ref()
            .expect("handle")
            .provider_session_id,
        "prior-provider-session"
    );
}

#[test]
fn an_interrupted_session_without_a_thread_waits_for_a_decision() {
    let (mut store, mut controller) = setup(VerificationStatusV1::Passed, "diff --git");
    let mut snapshot = store.load_session("session-1").expect("state");
    snapshot.state = AutonomousSessionStateV1::RecoveringAfterRestart;
    store.save_session(&snapshot).expect("persist");
    assert_eq!(
        controller.run_once(&mut store, 10).expect("escalation").state,
        AutonomousSessionStateV1::WaitingForChatgpt
    );
    assert_eq!(
        store.load_escalation("session-1").expect("escalation").reason,
        "restart_session_continuity_missing"
    );
    assert_eq!(controller.provider.started, 0);
}

#[test]
fn active_turn_is_polled_without_starting_another_turn() {
    let (mut store, mut controller) = setup(VerificationStatusV1::Passed, "diff --git");
    controller.provider = FakeWorkerProvider::new(vec![Turn::StillRunning]);
    assert_eq!(
        controller.run_once(&mut store, 10).expect("start").state,
        AutonomousSessionStateV1::Running
    );
    assert_eq!(
        controller.run_once(&mut store, 11).expect("poll").state,
        AutonomousSessionStateV1::Running
    );
    assert_eq!(controller.provider.started, 1);
}

#[test]
fn verified_task_does_not_complete_a_queue_with_more_ready_work() {
    let (mut store, mut controller) = setup(VerificationStatusV1::Passed, "diff --git");
    let mut queue = store.load_queue("session-1").expect("queue").clone();
    queue.tasks.push(AutonomousQueueTaskV1 {
        task_id: "follow-up".into(),
        priority: 1,
        depends_on: vec!["work".into()],
        state: AutonomousQueueTaskStateV1::Ready,
    });
    store.save_queue("session-1", queue).expect("persist queue");
    assert_eq!(
        controller.run_once(&mut store, 10).expect("first task").state,
        AutonomousSessionStateV1::Queued
    );
    assert_eq!(
        store
            .load_queue("session-1")
            .expect("queue")
            .next_ready_task()
            .expect("follow-up")
            .task_id,
        "follow-up"
    );
}

#[test]
fn persisted_provider_turn_budget_blocks_a_new_launch() {
    let (mut store, mut controller) = setup(VerificationStatusV1::Passed, "diff --git");
    let mut snapshot = store.load_session("session-1").expect("state");
    snapshot.provider_turn_count = controller
        .policy
        .contract()
        .autonomy_lease
        .maximum_provider_turns;
    store.save_session(&snapshot).expect("persist");
    assert_eq!(
        controller.run_once(&mut store, 10).expect("budget").state,
        AutonomousSessionStateV1::WaitingForChatgpt
    );
    assert_eq!(controller.provider.started, 0);
    assert_eq!(
        store
            .load_escalation("session-1")
            .expect("escalation")
            .reason,
        "provider_turn_budget_exhausted"
    );
}

#[test]
fn a_terminal_error_is_escalated_and_repairs_are_bounded() {
    let (mut store, mut controller) = setup(VerificationStatusV1::Passed, "diff --git");
    controller.provider = FakeWorkerProvider::new(vec![Turn::Error]);
    assert_eq!(
        controller.run_once(&mut store, 10).expect("error").state,
        AutonomousSessionStateV1::WaitingForChatgpt
    );
    assert_eq!(
        store.load_escalation("session-1").expect("escalation").reason,
        "provider_terminal_error"
    );
    let mut snapshot = store.load_session("session-1").expect("state");
    snapshot.repair_attempts = 2;
    store.save_session(&snapshot).expect("persist");
    controller.run_once(&mut store, 11).expect("repairs");
    assert_eq!(
        store.load_escalation("session-1").expect("escalation").reason,
        "repair_budget_exhausted"
    );
}

#[test]
fn a_planners_reply_is_used_once() {
    let (mut store, mut controller) = setup(VerificationStatusV1::Failed, "diff");
    store
        .write_escalation("session-1", AutonomousSessionStateV1::WaitingForChatgpt, "why")
        .expect("escalation");
    store
        .write_planner_reply(
            "session-1",
            "esc-1",
            "hash",
            "take the small step",
            &vec!["one".into(), "two".into()],
        )
        .expect("reply");
    controller.run_once(&mut store, 10).expect("turn");
    assert_eq!(
        controller.provider.prompts[0],
        "A persisted planner decision applies to this turn. Decision: take the small step\nConstraints: one; two\nResume only the existing approved task and preserve CatDesk verification requirements."
    );
    assert!(store.load_planner_reply("session-1").expect("reply").consumed);
    controller.run_once(&mut store, 11).expect("turn");
    assert!(controller.provider.prompts[1].starts_with("Independent verification did not pass."));
}

#[test]
fn the_first_turn_is_told_the_objective_and_the_steps() {
    let store = store();
    let told = worker_instruction(&store.sessions[0], &contract(), "work");
    assert!(told.starts_with("Approved objective:\ntest\n\nOrdered work:\n1. run\n\nExecute only task work inside"));
}

#[test]
fn steps_are_decided_from_what_is_kept() {
    let store = store();
    let mut snapshot = store.load_session("session-1").expect("state");
    let step = |snapshot: &_, cancel, handle, now| decide_step(snapshot, &contract(), cancel, handle, now);
    assert_eq!(step(&snapshot, false, false, 10), ControllerStepV1::Work);
    assert_eq!(step(&snapshot, true, false, 10), ControllerStepV1::Cancel);
    assert_eq!(step(&snapshot, false, false, 100), ControllerStepV1::ExpireLease);
    snapshot.state = AutonomousSessionStateV1::Running;
    snapshot.provider_event_cursor = 4;
    assert_eq!(step(&snapshot, false, true, 10), ControllerStepV1::Poll(4));
    snapshot.state = AutonomousSessionStateV1::RecoveringAfterRestart;
    assert_eq!(
        step(&snapshot, false, false, 10),
        ControllerStepV1::Escalate(EscalationReasonV1::RestartSessionContinuityMissing)
    );
    snapshot.state = AutonomousSessionStateV1::Failed;
    assert_eq!(
        step(&snapshot, false, true, 10),
        ControllerStepV1::Report(AutonomousSessionStateV1::Failed)
    );
}

#[test]
fn missing_sessions_and_empty_queues_are_errors() {
    let (mut store, mut controller) = setup(VerificationStatusV1::Passed, "diff");
    controller.session_id = "other".into();
    assert_eq!(
        controller.run_once(&mut store, 10),
        Err(RuntimeError::Provider(
            "autonomy state error: SessionNotFound(\"other\")".into()
        ))
    );
    controller.session_id = "session-1".into();
    let mut queue = store.load_queue("session-1").expect("queue").clone();
    queue.tasks[0].state = AutonomousQueueTaskStateV1::Paused;
    store.save_queue("session-1", queue).expect("persist");
    assert_eq!(
        controller.run_once(&mut store, 10),
        Err(RuntimeError::Validation(
            "no dependency-satisfied autonomous task is ready".into()
        ))
    );
}

#[test]
fn a_session_with_a_thread_is_resumed() {
    let (store, controller) = setup(VerificationStatusV1::Passed, "diff");
    let mut snapshot = store
        .load_session(&controller.session_id)
        .expect("session");
    assert_eq!(turn_call(&snapshot), TurnCallV1::Start);
    snapshot.provider_thread_id = Some("thread-7".into());
    assert_eq!(turn_call(&snapshot), TurnCallV1::Resume("thread-7".into()));
}

#[test]
fn only_providers_that_can_are_told_to_stop() {
    let (_store, controller) = setup(VerificationStatusV1::Passed, "diff");
    let handle = ProviderTurnHandleV1 {
        provider_id: ProviderIdV1::Fake,
        handle_id: "handle-1".into(),
        provider_session_id: "thread-7".into(),
        worker_session_id: WorkerSessionId::new("worker-1").expect("worker"),
        turn_id: catdesk_delegated::contracts::TurnId::new("turn-1").expect("turn"),
    };
    let mut capabilities = controller.provider.capabilities();
    capabilities.supports_cancellation = true;
    assert_eq!(
        turn_to_stop(&Some(handle.clone()), &capabilities),
        Some(handle.clone())
    );
    assert_eq!(turn_to_stop(&None, &capabilities), None);
    capabilities.supports_cancellation = false;
    assert_eq!(turn_to_stop(&Some(handle), &capabilities), None);
}

struct SilentVerifier;

impl AutonomousVerifierV1 for SilentVerifier {
    fn verify(&mut self) -> Result<(VerificationSummaryV1, String), RuntimeError> {
        Err(RuntimeError::Provider("not run".into()))
    }
}

#[test]
fn verifiers_give_no_review_by_default() {
    let summary = VerificationSummaryV1 {
        status: VerificationStatusV1::Passed,
        command: "cargo test".into(),
        summary: "ok".into(),
    };
    assert_eq!(
        SilentVerifier.final_review(&summary, "diff"),
        Err(RuntimeError::Validation(
            "autonomous verifier did not provide a final review artifact".into()
        ))
    );
}
