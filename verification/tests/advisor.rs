use catdesk_delegated::advisor::{
    accept_sidecar_response, advisor_tools_are_never_model_visible, redact_and_bound,
    command_line, response_json_has_no_tool_authority, sanitize_identifier, settle_cancellable,
    sidecar_frame_response, sidecar_wait, startup_first, startup_step, validate_advice_response, SidecarStartup, SidecarWait, AdviceBrokerConfigV1,
    AdviceDisclosureClassification, AdviceRequestDraftV1, AdviceRequestV1, AdviceResponseV1,
    AdviceTrigger, AdvisorAdapter, AdvisorBroker, AdvisorConfidence, AdvisorError, AdvisorStatus, BoundedSourceExcerptV1,
    DeepSeekProcessAdvisorConfig, FakeAdvisor, SidecarFrame,
};
use catdesk_delegated::contracts::{
    ApprovalRequirementKind, ApprovalRequirementV1, ExecutionContractV1, ExpectedArtifactKind,
    ExpectedArtifactV1, ItemId, ProviderPolicyV1, RunId, TurnId,
};
use catdesk_delegated::events::{EventCursor, EventEnvelopeV1, EventPayloadV1, LifecycleEvent};
use catdesk_delegated::hash::stable_hash;
use catdesk_delegated::journal::DelegatedJournal;
use catdesk_delegated::EXECUTION_CONTRACT_SCHEMA_VERSION;

fn contract() -> ExecutionContractV1 {
    ExecutionContractV1 {
        schema_version: EXECUTION_CONTRACT_SCHEMA_VERSION,
        task_id: "advisor-run".into(),
        objective: "Fix a bounded failing test without broad refactors.".into(),
        workspace: "C:/tmp/advisor".into(),
        feature_branch: "feature/advisor-test".into(),
        allowed_paths: vec!["src".into(), "tests".into()],
        forbidden_paths: vec![".git".into(), "target".into()],
        allowed_command_profiles: vec!["cargo".into()],
        ordered_steps: vec!["inspect".into(), "patch".into(), "verify".into()],
        acceptance_criteria: vec![
            "cargo tests pass".into(),
            "authoritative diff is captured".into(),
        ],
        retry_budget: 2,
        max_turns: 8,
        max_tool_calls: 24,
        max_elapsed_seconds: 600,
        provider_policy: ProviderPolicyV1 {
            primary_provider_id: "ollama".into(),
            primary_model_id: "qwen3.5:9b".into(),
            fallback_provider_ids: Vec::new(),
            require_tool_calls: true,
            allow_paid_fallbacks: false,
        },
        advisor_policy: None,
        escalation_conditions: vec!["needs human".into()],
        approval_requirements: vec![ApprovalRequirementV1 {
            kind: ApprovalRequirementKind::RunStart,
            required: true,
            reason: "operator approval".into(),
        }],
        expected_artifacts: vec![ExpectedArtifactV1 {
            kind: ExpectedArtifactKind::FinalReview,
            name: "final review".into(),
            required: true,
        }],
        verification_profile: "cargo".into(),
    }
}

fn draft() -> AdviceRequestDraftV1 {
    AdviceRequestDraftV1 {
        request_id: "advice-1".into(),
        current_step: "after failed verification".into(),
        specific_question: "Why is the second bounded repair still failing?".into(),
        constraints: vec!["Do not add dependencies.".into()],
        latest_failure: Some("assertion failed: password = hunter2".into()),
        bounded_source_excerpts: vec![BoundedSourceExcerptV1 {
            source: "src/lib.rs".into(),
            summary: "small failing function".into(),
            content: "pub fn answer() -> i32 { 41 }\napi_key = sk_test_secret_value".into(),
        }],
        bounded_patch_or_diff_summary: Some("one line changed".into()),
        verification_summary: Some("cargo test failed".into()),
        disclosure_classification: AdviceDisclosureClassification::RemoteAllowed,
        maximum_response_length: Some(16 * 1024),
    }
}

fn journal() -> (DelegatedJournal, ExecutionContractV1) {
    let mut journal = DelegatedJournal::new();
    let contract = contract();
    journal.create_run(&contract).expect("run");
    (journal, contract)
}

fn response(status: AdvisorStatus) -> AdviceResponseV1 {
    AdviceResponseV1 {
        schema_version: EXECUTION_CONTRACT_SCHEMA_VERSION,
        request_id: "advice-1".into(),
        advisor_id: "fake".into(),
        status,
        diagnosis: "Likely stale patch.".into(),
        recommendations: vec!["Inspect the file again.".into()],
        risks: vec!["May be wrong.".into()],
        assumptions_or_questions: vec!["Was the diff current?".into()],
        confidence: AdvisorConfidence::Medium,
        raw_artifact_reference: None,
    }
}

fn event_names(journal: &DelegatedJournal) -> Vec<String> {
    journal
        .poll_events(
            &RunId::new("advisor-run").expect("run id"),
            EventCursor {
                after_sequence: 0,
                limit: 100,
            },
        )
        .expect("events")
        .iter()
        .filter_map(|event| match &event.payload {
            EventPayloadV1::AdvisorEvent { event, .. } => Some(event.clone()),
            _ => None,
        })
        .collect()
}

#[test]
fn bounded_request_construction_redacts_and_caps_content() {
    let (_journal, contract) = journal();
    let broker = AdvisorBroker::new(
        FakeAdvisor::success(),
        AdviceBrokerConfigV1 {
            max_excerpt_bytes: 24,
            max_total_serialized_bytes: 4096,
            ..AdviceBrokerConfigV1::remote_advisory_default()
        },
    );
    let request = broker
        .build_request(&contract, &draft(), AdviceTrigger::ExplicitQwenRequest)
        .expect("request");

    assert!(request.bounded_source_excerpts[0].content.len() < 80);
    assert!(!request.to_json().contains("hunter2"));
    assert!(!request.to_json().contains("sk_test_secret_value"));
    assert_eq!(request.maximum_response_length, 4096);
}

#[test]
fn disclosure_denied_blocks_advice() {
    let (_journal, contract) = journal();
    let broker = AdvisorBroker::new(
        FakeAdvisor::success(),
        AdviceBrokerConfigV1::local_only_default(),
    );
    let error = broker
        .build_request(&contract, &draft(), AdviceTrigger::ExplicitQwenRequest)
        .expect_err("denied");
    assert!(matches!(error, AdvisorError::DisclosureDenied(_)));
}

#[test]
fn fake_advisor_success_is_journaled() {
    let (mut journal, contract) = journal();
    let mut broker = AdvisorBroker::new(
        FakeAdvisor::success(),
        AdviceBrokerConfigV1::remote_advisory_default(),
    );

    let response = broker
        .consult(
            &mut journal,
            &contract,
            &draft(),
            AdviceTrigger::ExplicitQwenRequest,
        )
        .expect("advice");

    assert_eq!(response.status, AdvisorStatus::Completed);
    assert_eq!(response.schema_version, EXECUTION_CONTRACT_SCHEMA_VERSION);
    let events = journal
        .poll_events(
            &RunId::new("advisor-run").expect("run id"),
            EventCursor {
                after_sequence: 0,
                limit: 10,
            },
        )
        .expect("events");
    assert!(events.iter().all(|event| !matches!(
        event.payload,
        EventPayloadV1::AdviceRequest { .. } | EventPayloadV1::AdviceResponse { .. }
    )));
    assert!(events.iter().any(|event| matches!(
        &event.payload,
        EventPayloadV1::AdvisorEvent {
            artifact_reference,
            ..
        } if artifact_reference
            .as_ref()
            .is_some_and(|reference| reference.starts_with("local-journal-artifact:"))
    )));
    let lifecycle_names = event_names(&journal);
    assert!(lifecycle_names.contains(&"advice_triggered".to_string()));
    assert!(lifecycle_names.contains(&"advisor_ready".to_string()));
    assert!(lifecycle_names.contains(&"advice_completed".to_string()));
}

#[test]
fn advisor_events_continue_existing_journal_sequence() {
    let (mut journal, contract) = journal();
    let run_id = RunId::new("advisor-run").expect("run id");
    let existing_payload = EventPayloadV1::Delta {
        text: "previous worker event".into(),
    };
    let existing_event = EventEnvelopeV1 {
        schema_version: EXECUTION_CONTRACT_SCHEMA_VERSION,
        event_sequence: 1,
        run_id: run_id.clone(),
        worker_session_id: None,
        turn_id: Some(TurnId::new("existing-turn").expect("turn id")),
        item_id: Some(ItemId::new("existing-item").expect("item id")),
        lifecycle_event: LifecycleEvent::Delta,
        request_hash: stable_hash(&existing_payload.to_json()),
        result_hash: None,
        payload: existing_payload,
    }
    .with_result_hash()
    .expect("result hash");
    journal
        .append_event(existing_event)
        .expect("append existing");

    let mut broker = AdvisorBroker::new(
        FakeAdvisor::success(),
        AdviceBrokerConfigV1::remote_advisory_default(),
    );

    broker
        .consult(
            &mut journal,
            &contract,
            &draft(),
            AdviceTrigger::ExplicitQwenRequest,
        )
        .expect("advice");

    let events = journal
        .poll_events(
            &run_id,
            EventCursor {
                after_sequence: 0,
                limit: 10,
            },
        )
        .expect("events");
    assert_eq!(
        events
            .iter()
            .map(|event| event.event_sequence)
            .collect::<Vec<_>>(),
        (1..=events.len() as u64).collect::<Vec<_>>()
    );
}

#[test]
fn timeout_and_rate_limit_statuses_are_returned() {
    let (mut timeout_journal, contract) = journal();
    let mut timeout = AdvisorBroker::new(
        FakeAdvisor::timeout(),
        AdviceBrokerConfigV1::remote_advisory_default(),
    );
    let timed_out = timeout
        .consult(
            &mut timeout_journal,
            &contract,
            &draft(),
            AdviceTrigger::ExplicitQwenRequest,
        )
        .expect("timeout status");
    assert_eq!(timed_out.status, AdvisorStatus::TimedOut);

    let (mut rate_limited_journal, contract) = journal();
    let mut rate_limited = AdvisorBroker::new(
        FakeAdvisor::with_status(AdvisorStatus::RateLimited),
        AdviceBrokerConfigV1::remote_advisory_default(),
    );
    let response = rate_limited
        .consult(
            &mut rate_limited_journal,
            &contract,
            &AdviceRequestDraftV1 {
                request_id: "advice-2".into(),
                ..draft()
            },
            AdviceTrigger::ExplicitQwenRequest,
        )
        .expect("rate limited");
    assert_eq!(response.status, AdvisorStatus::RateLimited);
}

#[test]
fn malformed_advice_is_rejected() {
    let (mut journal, contract) = journal();
    let mut broker = AdvisorBroker::new(
        FakeAdvisor::malformed(),
        AdviceBrokerConfigV1::remote_advisory_default(),
    );
    let error = broker
        .consult(
            &mut journal,
            &contract,
            &draft(),
            AdviceTrigger::ExplicitQwenRequest,
        )
        .expect_err("malformed");
    assert!(matches!(error, AdvisorError::MalformedAdvice(_)));
    assert_eq!(event_names(&journal).last().map(String::as_str), Some("advice_failed"));
}

#[test]
fn advice_is_returned_to_next_qwen_turn_as_untrusted_context() {
    let message =
        AdvisorBroker::<FakeAdvisor>::untrusted_context_for_qwen(&response(AdvisorStatus::Completed));

    assert_eq!(message.role, "user");
    assert!(message.content.contains("<untrusted_advisor_context>"));
    assert!(message.content.contains("</untrusted_advisor_context>"));
    assert!(message.tool_call_id.is_none());
    assert!(message.tool_name.is_none());
}

#[test]
fn multiple_excerpt_size_reduction_drops_low_priority_and_never_stalls() {
    let (_journal, contract) = journal();
    let broker = AdvisorBroker::new(
        FakeAdvisor::success(),
        AdviceBrokerConfigV1 {
            max_excerpt_bytes: 512,
            max_total_serialized_bytes: 650,
            ..AdviceBrokerConfigV1::remote_advisory_default()
        },
    );
    let mut request_draft = draft();
    request_draft.bounded_source_excerpts = (0..6)
        .map(|index| BoundedSourceExcerptV1 {
            source: format!("src/file_{index}.rs"),
            summary: "low priority excerpt".repeat(4),
            content: format!("excerpt {index} {}", "x".repeat(600)),
        })
        .collect();

    let request = broker
        .build_request(&contract, &request_draft, AdviceTrigger::ExplicitQwenRequest)
        .expect("bounded request");

    assert!(request.bounded_source_excerpts.len() < 6);
    assert!(request.to_json().len() <= 650);

    let tiny_broker = AdvisorBroker::new(
        FakeAdvisor::success(),
        AdviceBrokerConfigV1 {
            max_excerpt_bytes: 8,
            max_total_serialized_bytes: 64,
            ..AdviceBrokerConfigV1::remote_advisory_default()
        },
    );
    let mut tiny_draft = draft();
    tiny_draft.bounded_source_excerpts = vec![
        BoundedSourceExcerptV1 {
            source: String::new(),
            summary: String::new(),
            content: String::new(),
        },
        BoundedSourceExcerptV1 {
            source: String::new(),
            summary: String::new(),
            content: String::new(),
        },
    ];

    let error = tiny_broker
        .build_request(&contract, &tiny_draft, AdviceTrigger::ExplicitQwenRequest)
        .expect_err("too large without stalling");
    assert!(matches!(error, AdvisorError::RequestTooLarge { .. }));
}

#[test]
fn response_validation_requires_adapter_id_and_response_length_limit() {
    let (_journal, contract) = journal();
    let broker = AdvisorBroker::new(
        FakeAdvisor::success(),
        AdviceBrokerConfigV1::remote_advisory_default(),
    );
    let request = broker
        .build_request(
            &contract,
            &AdviceRequestDraftV1 {
                maximum_response_length: Some(32),
                ..draft()
            },
            AdviceTrigger::ExplicitQwenRequest,
        )
        .expect("request");
    let response = AdviceResponseV1 {
        schema_version: EXECUTION_CONTRACT_SCHEMA_VERSION,
        request_id: request.request_id.clone(),
        advisor_id: "wrong-advisor".into(),
        status: AdvisorStatus::Completed,
        diagnosis: "short".into(),
        recommendations: vec!["inspect".into()],
        risks: Vec::new(),
        assumptions_or_questions: Vec::new(),
        confidence: AdvisorConfidence::Medium,
        raw_artifact_reference: None,
    };

    let error = validate_advice_response(&request, &response, "fake-advisor", 4096)
        .expect_err("advisor id mismatch");
    assert!(matches!(error, AdvisorError::MalformedAdvice(_)));

    let long_response = AdviceResponseV1 {
        advisor_id: "fake-advisor".into(),
        diagnosis: "x".repeat(64),
        ..response
    };
    let error = validate_advice_response(&request, &long_response, "fake-advisor", 4096)
        .expect_err("response too long");
    assert!(matches!(error, AdvisorError::MalformedAdvice(_)));
}

#[test]
fn advisor_has_no_direct_tool_authority() {
    let (_journal, contract) = journal();
    let broker = AdvisorBroker::new(
        FakeAdvisor::success(),
        AdviceBrokerConfigV1::remote_advisory_default(),
    );
    let request = broker
        .build_request(&contract, &draft(), AdviceTrigger::ExplicitQwenRequest)
        .expect("request");
    let request_json = request.to_json();
    assert!(!request_json.contains("tool_definitions"));
    assert!(!request_json.contains("run_command"));
    assert!(!request_json.contains("patch.apply"));
    assert!(advisor_tools_are_never_model_visible(&vec![
        "read".into(),
        "search".into(),
        "verify.run".into()
    ]));
}

#[test]
fn only_approved_advice_triggers_fire() {
    assert!(AdviceTrigger::ExplicitQwenRequest.is_allowed());
    assert!(!AdviceTrigger::TwoFailedBoundedRepairAttempts { failed_attempts: 1 }.is_allowed());
    assert!(AdviceTrigger::TwoFailedBoundedRepairAttempts { failed_attempts: 2 }.is_allowed());
    assert!(!AdviceTrigger::NeedsSupervisorExplicitlyAllowed {
        advisory_allowed: false
    }
    .is_allowed());
    assert!(AdviceTrigger::NeedsSupervisorExplicitlyAllowed {
        advisory_allowed: true
    }
    .is_allowed());
}

#[test]
fn nothing_is_sent_without_an_allowed_trigger() {
    let (mut journal, contract) = journal();
    let mut broker = AdvisorBroker::new(
        FakeAdvisor::success(),
        AdviceBrokerConfigV1::remote_advisory_default(),
    );
    let refused = broker.consult(
        &mut journal,
        &contract,
        &draft(),
        AdviceTrigger::TwoFailedBoundedRepairAttempts { failed_attempts: 1 },
    );
    assert!(matches!(refused, Err(AdvisorError::TriggerNotAllowed)));
    assert!(!event_names(&journal).contains(&"advice_sent".to_string()));
}

#[test]
fn advice_is_redacted_before_it_is_bounded() {
    assert_eq!(redact_and_bound("token=abc123 rest", 64), "token=<redacted> rest");
    let long = redact_and_bound(&"x".repeat(100), 50);
    assert!(long.len() <= 50);
    assert!(long.ends_with("[truncated for advisory request]"));
    assert_eq!(sanitize_identifier("a b/c:1"), "a-b-c:1");
    assert_eq!(sanitize_identifier(""), "advice-request");
    assert_eq!(sanitize_identifier(&"x".repeat(130)), "x".repeat(120));
    assert!(response_json_has_no_tool_authority(&response(AdvisorStatus::Completed)));
}

#[test]
fn sidecars_are_greeted_started_and_checked() {
    let config = DeepSeekProcessAdvisorConfig::new("python", "script.py", "profile");
    assert!(config.auth_token.starts_with("catdesk-advisor-"));
    assert_eq!(config.arguments()[0], "script.py");
    let hello = SidecarFrame::read(
        "{\"ok\":true,\"advisor_id\":\"deepseek-web-advisor-experimental\",\"state\":\"STOPPED\"}",
    )
    .expect("frame");
    assert_eq!(startup_first(false), SidecarStartup::Spawn);
    assert_eq!(startup_first(true), SidecarStartup::Probe);
    assert_eq!(
        startup_step(SidecarStartup::Hello, &hello, "deepseek-web-advisor-experimental"),
        Ok(SidecarStartup::Start)
    );
    assert!(startup_step(SidecarStartup::Status, &hello, "deepseek-web-advisor-experimental").is_err());
    let wrong = SidecarFrame::read("{\"ok\":true,\"advisor_id\":\"other\",\"state\":\"STOPPED\"}")
        .expect("frame");
    assert_eq!(
        startup_step(SidecarStartup::Hello, &wrong, "deepseek-web-advisor-experimental"),
        Err(AdvisorError::Adapter("sidecar advisor_id mismatch: other".into()))
    );
    let refused = SidecarFrame::read("{\"ok\":false,\"error\":\"UNAUTHORIZED\"}").expect("frame");
    assert!(refused.check_reply().unwrap_err().debug_text().contains("UNAUTHORIZED"));
    assert!(SidecarFrame::read("{not-json").is_err());
}

#[test]
fn sidecar_answers_are_checked_and_renamed() {
    let mut answer = response(AdvisorStatus::Completed);
    answer.advisor_id = "sidecar".into();
    let accepted = accept_sidecar_response(answer.clone(), "advice-1", "sidecar", "deepseek-web")
        .expect("accepted");
    assert_eq!(accepted.advisor_id, "deepseek-web");
    assert!(accept_sidecar_response(answer.clone(), "other", "sidecar", "deepseek-web")
        .unwrap_err()
        .debug_text()
        .contains("request_id"));
    assert!(accept_sidecar_response(answer.clone(), "advice-1", "else", "deepseek-web")
        .unwrap_err()
        .debug_text()
        .contains("advisor_id"));
    let frame = SidecarFrame::read("{\"ok\":true,\"event\":\"advice_completed\",\"request_id\":\"advice-1\"}")
        .expect("frame");
    let settled = settle_cancellable(answer, &frame, "advice-1", "sidecar", "deepseek-web", true)
        .expect("settled");
    assert_eq!(settled.status, AdvisorStatus::Cancelled);
}

#[test]
fn waiting_for_a_sidecar_ends_in_time() {
    assert!(matches!(sidecar_wait(500, 500, false, false), SidecarWait::GiveUp(_)));
    assert!(matches!(
        sidecar_wait(0, 500, true, false),
        SidecarWait::CancelAndWait { millis: 100 }
    ));
    assert!(matches!(
        sidecar_wait(450, 500, true, true),
        SidecarWait::Wait { millis: 50 }
    ));
}

#[test]
fn sidecar_commands_are_json_lines() {
    assert_eq!(
        command_line("token", "hello", None, &Some("advice-1".into())),
        "{\"auth_token\":\"token\",\"command\":\"hello\"}"
    );
    assert_eq!(
        command_line("token", "cancel", None, &Some("advice-1".into())),
        "{\"auth_token\":\"token\",\"command\":\"cancel\",\"request_id\":\"advice-1\"}"
    );
    assert_eq!(
        command_line("token", "cancel", None, &None),
        "{\"auth_token\":\"token\",\"command\":\"cancel\"}"
    );
    let request = AdviceRequestV1 {
        schema_version: 1,
        request_id: "advice-1".into(),
        run_id: RunId::new("advisor-run").expect("run id"),
        objective: "fix \"it\"".into(),
        current_step: "repair".into(),
        specific_question: "why?".into(),
        constraints: vec!["none".into()],
        latest_failure: None,
        bounded_source_excerpts: vec![BoundedSourceExcerptV1 {
            source: "src/lib.rs".into(),
            summary: "all".into(),
            content: "fn main() {}".into(),
        }],
        bounded_patch_or_diff_summary: None,
        verification_summary: Some("failed".into()),
        disclosure_classification: AdviceDisclosureClassification::RemoteAllowed,
        maximum_response_length: 512,
    };
    assert_eq!(
        command_line("token", "advise", Some(&request), &None),
        "{\"auth_token\":\"token\",\"command\":\"advise\",\"request\":{\
         \"boundedPatchOrDiffSummary\":null,\"boundedSourceExcerpts\":[{\
         \"content\":\"fn main() {}\",\"source\":\"src/lib.rs\",\"summary\":\"all\"}],\
         \"constraints\":[\"none\"],\"currentStep\":\"repair\",\
         \"disclosureClassification\":\"REMOTE_ALLOWED\",\"latestFailure\":null,\
         \"maximumResponseLength\":512,\"objective\":\"fix \\\"it\\\"\",\
         \"requestId\":\"advice-1\",\"runId\":\"advisor-run\",\"schemaVersion\":1,\
         \"specificQuestion\":\"why?\",\"verificationSummary\":\"failed\"}}"
    );
}

#[test]
fn sidecar_frames_are_told_apart() {
    let accepted = SidecarFrame::read("{\"accepted\":true,\"request_id\":\"advice-1\"}").expect("frame");
    assert_eq!(accepted.check_accepted("advice-1"), Ok(()));
    assert_eq!(
        accepted.check_accepted("advice-2"),
        Err(AdvisorError::MalformedAdvice(
            "advisor accepted stale or mismatched request".into()
        ))
    );
    assert_eq!(
        accepted.check_terminal("advice-1"),
        Err(AdvisorError::MalformedAdvice(
            "advisor emitted unexpected terminal event".into()
        ))
    );
    assert_eq!(sidecar_frame_response(&accepted), Ok(None));
    let ended = SidecarFrame::read(
        "{\"event\":\"advice_completed\",\"request_id\":\"advice-1\",\"response\":{\"status\": \"COMPLETED\"}}",
    )
    .expect("frame");
    assert_eq!(
        ended.check_accepted("advice-1"),
        Err(AdvisorError::Adapter("advisor did not accept request".into()))
    );
    assert_eq!(
        ended.check_terminal("advice-1"),
        Ok("{\"status\":\"COMPLETED\"}".to_string())
    );
    assert_eq!(
        ended.check_terminal("advice-2"),
        Err(AdvisorError::MalformedAdvice(
            "advisor terminal event request_id mismatch".into()
        ))
    );
    assert_eq!(
        sidecar_frame_response(&ended),
        Ok(Some("{\"status\":\"COMPLETED\"}".to_string()))
    );
    let bare = SidecarFrame::read("{\"event\":\"advice_failed\",\"request_id\":\"advice-1\"}")
        .expect("frame");
    assert_eq!(
        bare.check_terminal("advice-1"),
        Err(AdvisorError::MalformedAdvice(
            "advisor terminal event omitted response".into()
        ))
    );
    let refused = SidecarFrame::read("{\"ok\":false}").expect("frame");
    assert_eq!(
        sidecar_frame_response(&refused),
        Err(AdvisorError::Adapter("advisor command failed".into()))
    );
}

struct ScriptedAdvisor {
    cancelled: bool,
    asked: Vec<String>,
}

impl AdvisorAdapter for ScriptedAdvisor {
    fn advisor_id(&self) -> &str {
        "fake"
    }

    fn ensure_ready(&mut self, timeout_seconds: u64) -> Result<(), AdvisorError> {
        self.asked.push(format!("ready within {timeout_seconds}"));
        Ok(())
    }

    fn cancel_active(&mut self, _timeout_seconds: u64) -> Result<(), AdvisorError> {
        self.asked.push("cancel".into());
        Ok(())
    }

    fn request_advice(
        &mut self,
        request: &AdviceRequestV1,
        _timeout_seconds: u64,
    ) -> Result<AdviceResponseV1, AdvisorError> {
        self.asked.push(format!("advise {}", request.request_id));
        Ok(response(AdvisorStatus::Completed))
    }

    fn request_advice_cancellable(
        &mut self,
        request: &AdviceRequestV1,
        timeout_seconds: u64,
    ) -> Result<AdviceResponseV1, AdvisorError> {
        if self.cancelled {
            return Err(AdvisorError::Adapter("stopped".into()));
        }
        self.request_advice(request, timeout_seconds)
    }

    fn is_cancel_requested(&self) -> bool {
        self.cancelled
    }
}

#[test]
fn advisors_of_other_crates_are_asked_and_named() {
    let (mut journal, contract) = journal();
    let mut settings = AdviceBrokerConfigV1::remote_advisory_default();
    settings.allowed_advisor_id = Some("fake".into());
    let advisor = ScriptedAdvisor {
        cancelled: false,
        asked: Vec::new(),
    };
    let mut broker = AdvisorBroker::new(advisor, settings);
    assert_eq!(broker.adapter.advisor_id(), "fake");
    let answer = broker
        .consult_cancellable(
            &mut journal,
            &contract,
            &draft(),
            AdviceTrigger::ExplicitQwenRequest,
        )
        .expect("advice");
    assert_eq!(answer.status, AdvisorStatus::Completed);
    assert_eq!(answer.diagnosis, "Likely stale patch.");
    assert_eq!(broker.adapter.asked[1..], ["advise advice-1".to_string()]);
    assert_eq!(
        event_names(&journal).last().map(String::as_str),
        Some("advice_completed")
    );
}

#[test]
fn a_cancelled_consultation_is_told_from_a_failed_one() {
    for (cancellable, name) in [(true, "advice_cancelled"), (false, "advice_completed")] {
        let (mut journal, contract) = journal();
        let mut settings = AdviceBrokerConfigV1::remote_advisory_default();
        settings.allowed_advisor_id = Some("fake".into());
        let advisor = ScriptedAdvisor {
            cancelled: true,
            asked: Vec::new(),
        };
        let mut broker = AdvisorBroker::new(advisor, settings);
        let trigger = AdviceTrigger::ExplicitQwenRequest;
        let answer = if cancellable {
            broker.consult_cancellable(&mut journal, &contract, &draft(), trigger)
        } else {
            broker.consult(&mut journal, &contract, &draft(), trigger)
        };
        assert_eq!(answer.is_err(), cancellable);
        assert_eq!(event_names(&journal).last().map(String::as_str), Some(name));
    }
}

#[test]
fn a_refused_consultation_never_reaches_the_advisor() {
    let (mut journal, contract) = journal();
    let mut settings = AdviceBrokerConfigV1::remote_advisory_default();
    settings.allowed_advisor_id = Some("someone-else".into());
    let advisor = ScriptedAdvisor {
        cancelled: false,
        asked: Vec::new(),
    };
    let mut broker = AdvisorBroker::new(advisor, settings);
    assert_eq!(
        broker.consult(
            &mut journal,
            &contract,
            &draft(),
            AdviceTrigger::ExplicitQwenRequest,
        ),
        Err(AdvisorError::DisclosureDenied(
            "advisor fake is not explicitly allowed".into()
        ))
    );
    assert!(broker.adapter.asked.is_empty());
    assert_eq!(event_names(&journal), vec!["advice_triggered".to_string()]);
}

#[test]
fn answers_are_settled_one_way_each() {
    let (mut journal, contract) = journal();
    let mut settings = AdviceBrokerConfigV1::remote_advisory_default();
    settings.allowed_advisor_id = Some("fake".into());
    let broker = AdvisorBroker::new(
        ScriptedAdvisor {
            cancelled: false,
            asked: Vec::new(),
        },
        settings,
    );
    let request = broker
        .build_request(&contract, &draft(), AdviceTrigger::ExplicitQwenRequest)
        .expect("request");
    let failure = || Err(AdvisorError::Adapter("gone".into()));
    assert_eq!(
        broker.settle_answer(&mut journal, &request, "fake", failure(), false),
        failure()
    );
    assert_eq!(
        broker.settle_answer(&mut journal, &request, "fake", failure(), true),
        failure()
    );
    assert_eq!(
        broker.settle_answer(
            &mut journal,
            &request,
            "other",
            Ok(response(AdvisorStatus::Completed)),
            false,
        ),
        Err(AdvisorError::MalformedAdvice(
            "advisor response advisor_id does not match active adapter".into()
        ))
    );
    let settled = broker
        .settle_answer(
            &mut journal,
            &request,
            "fake",
            Ok(response(AdvisorStatus::Completed)),
            false,
        )
        .expect("settled");
    assert_eq!(settled.diagnosis, "Likely stale patch.");
    assert!(settled.raw_artifact_reference.is_some());
    assert_eq!(
        event_names(&journal),
        vec![
            "advice_failed".to_string(),
            "advice_cancelled".to_string(),
            "advice_failed".to_string(),
            "advice_completed".to_string(),
        ]
    );
    let mut empty = DelegatedJournal::new();
    assert_eq!(
        broker.settle_answer(&mut empty, &request, "fake", failure(), false),
        Err(AdvisorError::Journal("RunNotFound(\"advisor-run\")".into()))
    );
}

struct PlainAdvisor;

impl AdvisorAdapter for PlainAdvisor {
    fn advisor_id(&self) -> &str {
        "fake"
    }

    fn request_advice(
        &mut self,
        _request: &AdviceRequestV1,
        _timeout_seconds: u64,
    ) -> Result<AdviceResponseV1, AdvisorError> {
        Ok(response(AdvisorStatus::Completed))
    }

    fn is_cancel_requested(&self) -> bool {
        false
    }
}

#[test]
fn advisors_are_ready_unless_they_say_otherwise() {
    let (mut journal, contract) = journal();
    let mut settings = AdviceBrokerConfigV1::remote_advisory_default();
    settings.allowed_advisor_id = Some("fake".into());
    let mut advisor = PlainAdvisor;
    assert_eq!(advisor.cancel_active(1), Ok(()));
    let mut broker = AdvisorBroker::new(&mut advisor, settings);
    let answer = broker
        .consult_cancellable(
            &mut journal,
            &contract,
            &draft(),
            AdviceTrigger::ExplicitQwenRequest,
        )
        .expect("advice");
    assert_eq!(answer.status, AdvisorStatus::Completed);
}
