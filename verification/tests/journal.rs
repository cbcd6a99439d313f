use catdesk_delegated::contracts::{
    ApprovalRequirementKind, ApprovalRequirementV1, ExecutionContractV1, ExpectedArtifactKind,
    ExpectedArtifactV1, ProviderPolicyV1,
    ArtifactId, PatchId, RunId, RunState, ToolCallId, TurnId,
};
use catdesk_delegated::events::{EventCursor, EventEnvelopeV1, EventPayloadV1, LifecycleEvent};
use catdesk_delegated::journal::{
    jsonl_records, safe_run_segment, DelegatedJournal, JournalError, PatchApplicationRecordV1, PatchApplicationStatus,
    PatchProposalRecordV1, ToolCallRecordV1, ToolCallStatus, ToolMutationKind,
};

fn fixture_contract() -> ExecutionContractV1 {
    ExecutionContractV1 {
        schema_version: 1,
        task_id: "T-0013".into(),
        objective: "Add the delegated execution protocol.".into(),
        workspace: "C:/work/catdesk".into(),
        feature_branch: "orchestrator/v1-coding-sprint".into(),
        allowed_paths: vec!["src/delegated".into(), "tests".into()],
        forbidden_paths: vec![".git".into(), "target".into()],
        allowed_command_profiles: vec!["cargo".into()],
        ordered_steps: vec!["inspect".into(), "patch".into(), "verify".into()],
        acceptance_criteria: vec![
            "cargo tests pass".into(),
            "authoritative diff is captured".into(),
        ],
        retry_budget: 2,
        max_turns: 8,
        max_tool_calls: 24,
        max_elapsed_seconds: 600,
        provider_policy: ProviderPolicyV1 {
            primary_provider_id: "ollama".into(),
            primary_model_id: "qwen3.5:9b".into(),
            fallback_provider_ids: Vec::new(),
            require_tool_calls: true,
            allow_paid_fallbacks: false,
        },
        advisor_policy: None,
        escalation_conditions: vec!["needs human".into()],
        approval_requirements: vec![ApprovalRequirementV1 {
            kind: ApprovalRequirementKind::RunStart,
            required: true,
            reason: "Supervisor must approve the start".into(),
        }],
        expected_artifacts: vec![ExpectedArtifactV1 {
            kind: ExpectedArtifactKind::FinalReview,
            name: "final review".into(),
            required: true,
        }],
        verification_profile: "cargo".into(),
    }
}

fn create_fixture_run(journal: &mut DelegatedJournal) -> RunId {
    journal
        .create_run(&fixture_contract())
        .expect("run created")
        .run_id
}

fn tool_call(run_id: &RunId, id: &str, mutation_kind: ToolMutationKind) -> ToolCallRecordV1 {
    ToolCallRecordV1 {
        schema_version: 1,
        run_id: run_id.clone(),
        tool_call_id: ToolCallId::new(id).expect("tool id"),
        tool_name: "patch.apply".into(),
        request_hash: "fnv1a64:req".into(),
        arguments_hash: "fnv1a64:args".into(),
        mutation_kind,
        status: ToolCallStatus::Requested,
        result_hash: None,
        outcome_summary: None,
    }
}

fn proposal(run_id: &RunId, id: &str, parent: Option<&str>) -> PatchProposalRecordV1 {
    PatchProposalRecordV1 {
        schema_version: 1,
        patch_id: PatchId::new(id).expect("patch id"),
        parent_patch_id: parent.map(|id| PatchId::new(id).expect("patch id")),
        run_id: run_id.clone(),
        turn_id: TurnId::new("turn-1").expect("turn id"),
        base_snapshot_hash: "fnv1a64:base".into(),
        target_paths: vec!["src/delegated/journal.rs".into()],
        expected_preimage_hashes: vec!["fnv1a64:before".into()],
        proposed_diff_hash: "fnv1a64:proposal".into(),
        model_rationale: "exercise durable patch lineage".into(),
    }
}

fn application(patch: &str) -> PatchApplicationRecordV1 {
    PatchApplicationRecordV1 {
        schema_version: 1,
        patch_id: PatchId::new(patch).expect("patch id"),
        tool_call_id: ToolCallId::new("tc-patch").expect("tool id"),
        status: PatchApplicationStatus::Applied,
        actual_paths_changed: vec!["src/delegated/journal.rs".into()],
        before_hashes: vec!["fnv1a64:before".into()],
        after_hashes: vec!["fnv1a64:after".into()],
        result_hash: "fnv1a64:result".into(),
        diff_artifact_id: ArtifactId::new("artifact-diff").expect("artifact id"),
    }
}

fn execute(journal: &mut DelegatedJournal, run_id: &RunId, id: &str) -> ToolCallId {
    let tool_call_id = ToolCallId::new(id).expect("tool id");
    journal
        .record_tool_call_requested(tool_call(run_id, id, ToolMutationKind::Mutating))
        .expect("record call");
    journal
        .transition_tool_call(run_id, &tool_call_id, ToolCallStatus::PolicyAllowed, None, None)
        .expect("allow call");
    journal
        .transition_tool_call(run_id, &tool_call_id, ToolCallStatus::Executing, None, None)
        .expect("execute call");
    tool_call_id
}

#[test]
fn duplicate_run_creation_does_not_overwrite_journal() {
    let mut journal = DelegatedJournal::new();
    let contract = fixture_contract();
    let run_id = journal.create_run(&contract).expect("run created").run_id;
    journal
        .record_tool_call_requested(tool_call(
            &run_id,
            "tc-preserved",
            ToolMutationKind::Mutating,
        ))
        .expect("tool record");

    assert!(matches!(
        journal.create_run(&contract),
        Err(JournalError::DuplicateRun(id)) if id == contract.task_id
    ));
    assert!(journal
        .load_tool_calls(&run_id)
        .expect("load tool calls")
        .iter()
        .any(|record| record.tool_call_id.as_str() == "tc-preserved"));
}

#[test]
fn duplicate_tool_call_ids_fail() {
    let mut journal = DelegatedJournal::new();
    let run_id = create_fixture_run(&mut journal);
    let record = tool_call(&run_id, "tc-1", ToolMutationKind::Mutating);

    journal
        .record_tool_call_requested(record.clone())
        .expect("first record succeeds");
    assert!(matches!(
        journal.record_tool_call_requested(record),
        Err(JournalError::DuplicateToolCall(id)) if id == "tc-1"
    ));
}

#[test]
fn completed_mutations_are_not_replayed_after_restart() {
    let mut journal = DelegatedJournal::new();
    let run_id = create_fixture_run(&mut journal);
    let tool_call_id = execute(&mut journal, &run_id, "tc-mutating");
    journal
        .transition_tool_call(
            &run_id,
            &tool_call_id,
            ToolCallStatus::Completed,
            Some("fnv1a64:result".into()),
            Some("patch applied".into()),
        )
        .expect("complete call");

    assert!(matches!(
        journal.transition_tool_call(
            &run_id,
            &tool_call_id,
            ToolCallStatus::Executing,
            None,
            None
        ),
        Err(JournalError::CompletedToolCallWillNotReplay(id)) if id == "tc-mutating"
    ));
}

#[test]
fn outcome_unknown_requires_supervisor_after_restart() {
    let mut journal = DelegatedJournal::new();
    let run_id = create_fixture_run(&mut journal);
    let tool_call_id = execute(&mut journal, &run_id, "tc-unknown");
    journal
        .transition_tool_call(
            &run_id,
            &tool_call_id,
            ToolCallStatus::OutcomeUnknown,
            None,
            Some("process exited before result persisted".into()),
        )
        .expect("mark unknown");

    assert!(matches!(
        journal.transition_tool_call(
            &run_id,
            &tool_call_id,
            ToolCallStatus::Executing,
            None,
            None
        ),
        Err(JournalError::OutcomeUnknownRequiresSupervisor(id)) if id == "tc-unknown"
    ));
}

#[test]
fn patch_and_result_hashes_survive_restart() {
    let mut journal = DelegatedJournal::new();
    let run_id = create_fixture_run(&mut journal);
    journal
        .record_patch_proposal(proposal(&run_id, "patch-1", None))
        .expect("proposal stored");
    journal
        .record_patch_application(&run_id, application("patch-1"))
        .expect("application stored");

    assert_eq!(
        journal
            .load_patch_proposals(&run_id)
            .expect("load proposals")[0]
            .proposed_diff_hash,
        "fnv1a64:proposal"
    );
    assert_eq!(
        journal
            .load_patch_applications(&run_id)
            .expect("load applications")[0]
            .result_hash,
        "fnv1a64:result"
    );
}

#[test]
fn patch_application_requires_known_proposal() {
    let mut journal = DelegatedJournal::new();
    let run_id = create_fixture_run(&mut journal);
    let result = journal.record_patch_application(&run_id, application("missing-patch"));

    assert!(
        matches!(result, Err(JournalError::Validation(message)) if message.contains("unknown proposal"))
    );
}

#[test]
fn child_patch_requires_existing_parent() {
    let mut journal = DelegatedJournal::new();
    let run_id = create_fixture_run(&mut journal);
    let result =
        journal.record_patch_proposal(proposal(&run_id, "patch-child", Some("patch-missing")));

    assert!(
        matches!(result, Err(JournalError::Validation(message)) if message.contains("parent patch"))
    );
}

#[test]
fn active_runs_restore_after_restart() {
    let mut journal = DelegatedJournal::new();
    let run_id = create_fixture_run(&mut journal);
    journal
        .update_run_state(&run_id, RunState::Running)
        .expect("mark running");

    let active_runs = journal.restore_active_runs();
    assert_eq!(active_runs.len(), 1);
    assert_eq!(active_runs[0].run_id, run_id);

    journal
        .update_run_state(&run_id, RunState::CompletedVerified)
        .expect("mark terminal");
    assert!(journal.restore_active_runs().is_empty());
}

#[test]
fn event_cursor_survives_restart() {
    let mut journal = DelegatedJournal::new();
    let run_id = create_fixture_run(&mut journal);
    let event = EventEnvelopeV1 {
        schema_version: 1,
        event_sequence: 1,
        run_id: run_id.clone(),
        worker_session_id: None,
        turn_id: None,
        item_id: None,
        lifecycle_event: LifecycleEvent::Started,
        request_hash: "fnv1a64:req".into(),
        result_hash: None,
        payload: EventPayloadV1::RunStateChanged {
            state: RunState::Running,
        },
    }
    .with_result_hash()
    .expect("hash event");
    journal.append_event(event.clone()).expect("append event");

    let events = journal
        .poll_events(
            &run_id,
            EventCursor {
                after_sequence: 0,
                limit: 10,
            },
        )
        .expect("poll events");
    assert_eq!(events, vec![&event]);
    assert_eq!(
        journal
            .load_run(&run_id)
            .expect("load run")
            .last_event_sequence,
        1
    );
}

#[test]
fn tool_calls_take_no_shortcuts() {
    let mut journal = DelegatedJournal::new();
    let run_id = create_fixture_run(&mut journal);
    journal
        .record_tool_call_requested(tool_call(&run_id, "tc-1", ToolMutationKind::ReadOnly))
        .expect("record");
    let id = ToolCallId::new("tc-1").expect("id");
    assert!(matches!(
        journal.transition_tool_call(&run_id, &id, ToolCallStatus::Completed, None, None),
        Err(JournalError::InvalidToolTransition { from: ToolCallStatus::Requested, .. })
    ));
    let missing = ToolCallId::new("tc-2").expect("id");
    assert!(matches!(
        journal.transition_tool_call(&run_id, &missing, ToolCallStatus::Failed, None, None),
        Err(JournalError::MissingToolCall(name)) if name == "tc-2"
    ));
    let other = RunId::new("other").expect("id");
    assert!(matches!(
        journal.transition_tool_call(&other, &id, ToolCallStatus::Failed, None, None),
        Err(JournalError::Io(message)) if message == "run record was not found"
    ));
}

#[test]
fn tool_calls_are_kept_in_order() {
    let mut journal = DelegatedJournal::new();
    let run_id = create_fixture_run(&mut journal);
    for id in ["b", "c", "a"] {
        journal
            .record_tool_call_requested(tool_call(&run_id, id, ToolMutationKind::ReadOnly))
            .expect("record");
    }
    let ids: Vec<&str> = journal
        .load_tool_calls(&run_id)
        .expect("calls")
        .iter()
        .map(|record| record.tool_call_id.as_str())
        .collect();
    assert_eq!(ids, vec!["a", "b", "c"]);
}

#[test]
fn advice_artifacts_are_referenced_by_their_hash() {
    let mut journal = DelegatedJournal::new();
    let run_id = create_fixture_run(&mut journal);
    let first = journal
        .write_advice_artifact(&run_id, "request", "{}")
        .expect("artifact");
    let second = journal
        .write_advice_artifact(&run_id, "request", "{\"a\":1}")
        .expect("artifact");
    assert!(first.starts_with("local-journal-artifact:request-fnv1a64:"));
    assert_ne!(first, second);
}

#[test]
fn kept_runs_are_taken_in_again() {
    let mut journal = DelegatedJournal::new();
    let run_id = create_fixture_run(&mut journal);
    execute(&mut journal, &run_id, "tc-1");
    let mut kept = journal.runs.pop().expect("run");
    kept.snapshot.last_event_sequence = 0;
    kept.events.push(EventEnvelopeV1 {
        schema_version: 1,
        event_sequence: 1,
        run_id: run_id.clone(),
        worker_session_id: None,
        turn_id: None,
        item_id: None,
        lifecycle_event: LifecycleEvent::Started,
        request_hash: "fnv1a64:req".into(),
        result_hash: None,
        payload: EventPayloadV1::RunStateChanged {
            state: RunState::Running,
        },
    });

    let mut reopened = DelegatedJournal::new();
    reopened.restore_run(kept).expect("restored");
    let snapshot = reopened.load_run(&run_id).expect("run");
    assert_eq!(snapshot.last_event_sequence, 1);
    assert_eq!(reopened.next_event_sequence(&run_id), Ok(2));
    assert_eq!(reopened.load_tool_calls(&run_id).expect("calls").len(), 1);
    assert_eq!(
        reopened.create_run(&fixture_contract()),
        Err(JournalError::DuplicateRun("T-0013".into()))
    );
}

#[test]
fn damaged_runs_are_not_taken_in() {
    let mut journal = DelegatedJournal::new();
    create_fixture_run(&mut journal);
    let mut ended = journal.runs.pop().expect("run");
    ended.snapshot.state = RunState::Failed;
    let refused = Err(JournalError::Validation("run record is out of order".into()));
    assert_eq!(journal.restore_run(ended), refused);

    let run_id = create_fixture_run(&mut journal);
    execute(&mut journal, &run_id, "tc-1");
    execute(&mut journal, &run_id, "tc-2");
    let mut mixed = journal.runs.pop().expect("run");
    mixed.tool_calls.swap(0, 1);
    assert_eq!(journal.restore_run(mixed), refused);

    create_fixture_run(&mut journal);
    let mut twin = DelegatedJournal::new();
    create_fixture_run(&mut twin);
    assert_eq!(
        journal.restore_run(twin.runs.pop().expect("run")),
        Err(JournalError::DuplicateRun("T-0013".into()))
    );
}

#[test]
fn runs_get_directories_of_their_own() {
    assert_eq!(
        safe_run_segment(&RunId::new("T-0013").expect("run id")),
        "T-0013-9d8ffd6a1932e20c"
    );
    let long = format!("run:{}", "a".repeat(60));
    assert_eq!(
        safe_run_segment(&RunId::new(&long).expect("run id")),
        format!("run_{}-4c417182ce9f7de2", "a".repeat(44))
    );
}

#[test]
fn blank_lines_hold_no_record() {
    assert_eq!(
        jsonl_records("{\"a\":1}\r\n\n  \n{\"b\":2}"),
        vec!["{\"a\":1}".to_string(), "{\"b\":2}".to_string()]
    );
}

#[test]
fn unknown_runs_have_no_events_and_no_record() {
    let mut journal = DelegatedJournal::new();
    let unknown = RunId::new("unknown").expect("run id");
    let cursor = EventCursor {
        after_sequence: 0,
        limit: 10,
    };
    assert_eq!(journal.poll_events(&unknown, cursor), Ok(Vec::new()));
    assert!(matches!(journal.load_run(&unknown), Err(JournalError::Io(_))));
    assert!(matches!(
        journal.record_tool_call_requested(tool_call(&unknown, "tc-1", ToolMutationKind::ReadOnly)),
        Err(JournalError::RunNotFound(name)) if name == "unknown"
    ));
}
