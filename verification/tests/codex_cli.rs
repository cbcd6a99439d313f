use catdesk_delegated::codex_cli::{
    check_resumed_thread, append_bounded, autonomous_prompt, bounded_redacted_text, classify_rate_limit, command_output,
    credential_variables, parse_codex_jsonl_event, stderr_message, stdout_message, turn_command,
    CodexCliCapabilitiesV1, CodexCliConfigV1, CodexCliEventV1, CodexCliProviderV1,
    CodexCliSandboxV1, CodexCliTurnRequestV1, CodexCliTurnStateV1, CodexPathFactsV1,
    StreamMessage,
};
use catdesk_delegated::contracts::{RunId, TurnId, WorkerSessionId};
use catdesk_delegated::journal::ToolMutationKind;
use catdesk_delegated::provider::{
    NormalizedProviderEventKind, ProviderMessageV1, ProviderSessionV1, ProviderTurnRequestV1,
    RuntimeError, ToolDefinitionV1, WorkerProviderTurnRequestV1,
};

const MAX_PROMPT_BYTES: usize = 24 * 1024;

fn facts() -> CodexPathFactsV1 {
    CodexPathFactsV1 {
        executable_extension: String::new(),
        executable_is_file: true,
        working_directory_is_dir: true,
    }
}

fn config() -> CodexCliConfigV1 {
    CodexCliConfigV1::new("/usr/bin/codex".into(), "/work".into(), &facts()).expect("config")
}

fn provider() -> CodexCliProviderV1 {
    CodexCliProviderV1::discover(
        config(),
        &facts(),
        "codex-cli 0.146.1",
        "--json read-only workspace-write resume",
        "Resume a previous session [SESSION_ID] --json",
    )
    .expect("provider")
}

fn cli_request(prompt: &str) -> CodexCliTurnRequestV1 {
    CodexCliTurnRequestV1 {
        worker_session_id: WorkerSessionId::new("codex-worker").expect("worker"),
        turn_id: TurnId::new("codex-turn").expect("turn"),
        prompt: prompt.into(),
    }
}

fn worker_request(tools: Vec<ToolDefinitionV1>) -> WorkerProviderTurnRequestV1 {
    let worker_session_id = WorkerSessionId::new("codex-worker").expect("worker");
    WorkerProviderTurnRequestV1 {
        provider_session: ProviderSessionV1 {
            provider_id: "codex-cli".into(),
            provider_session_id: "codex-unbound-codex-worker".into(),
            model_id: "default".into(),
            keep_alive: None,
        },
        turn: ProviderTurnRequestV1 {
            run_id: RunId::new("run-1").expect("run"),
            worker_session_id,
            turn_id: TurnId::new("turn-1").expect("turn"),
            model_id: "default".into(),
            context_json: "{\"contractHash\":\"abc\"}".into(),
            tool_definitions: tools,
            max_output_bytes: 1024,
        },
        history: vec![ProviderMessageV1 {
            role: "user".into(),
            content: "bounded autonomous task".into(),
            tool_call_id: None,
            tool_name: None,
        }],
        json_envelope_recovery: false,
    }
}

fn tool() -> ToolDefinitionV1 {
    ToolDefinitionV1 {
        name: "should-not-reach-codex".into(),
        description: "test only".into(),
        input_schema: "{\"type\":\"object\"}".into(),
        mutation_kind: ToolMutationKind::ReadOnly,
    }
}

#[test]
fn autonomous_prompt_is_bounded_and_never_serializes_tool_definitions() {
    let request = worker_request(vec![tool()]);
    let prompt = autonomous_prompt(&request).expect("prompt");
    assert!(prompt.len() <= MAX_PROMPT_BYTES);
    assert!(!prompt.contains("should-not-reach-codex"));
    assert!(prompt.contains("bounded autonomous task"));
}

#[test]
fn prompts_are_json_and_too_long_ones_are_refused() {
    let prompt = autonomous_prompt(&worker_request(Vec::new())).expect("prompt");
    let value: serde_json::Value = serde_json::from_str(&prompt).expect("json");
    assert_eq!(value["contract"]["contractHash"], "abc");
    assert_eq!(value["messages"][0]["role"], "user");
    assert_eq!(value["protocol"], "catdesk.autonomous.v1");
    assert_eq!(value["restrictions"].as_array().expect("list").len(), 3);
    let mut long = worker_request(Vec::new());
    long.history[0].content = "x".repeat(MAX_PROMPT_BYTES);
    assert!(matches!(
        autonomous_prompt(&long),
        Err(RuntimeError::BudgetExceeded(_))
    ));
}

#[test]
fn parses_capabilities_without_assuming_undocumented_flags() {
    let capabilities = CodexCliCapabilitiesV1::from_command_output(
        "codex-cli 0.146.1",
        "Usage: codex exec\n --json\n --sandbox <SANDBOX_MODE>\n read-only workspace-write\n --output-schema\n --output-last-message\n resume",
        "Resume a previous session\n[SESSION_ID]\n--json\n--last",
    )
    .expect("capabilities");
    capabilities
        .required_for_autonomous_loop()
        .expect("required");
    assert!(capabilities.supports_resume);
    assert!(capabilities.supports_jsonl);
}

#[test]
fn capability_discovery_fails_closed_when_resume_is_missing() {
    let capabilities = CodexCliCapabilitiesV1::from_command_output(
        "codex-cli 0.146.1",
        "Usage: codex exec --json --sandbox read-only workspace-write",
        "Usage: something else",
    )
    .expect("parse partial capability output");
    assert!(capabilities.required_for_autonomous_loop().is_err());
}

#[test]
fn unknown_command_lines_are_refused() {
    assert!(matches!(
        CodexCliCapabilitiesV1::from_command_output("other 1.0", "", ""),
        Err(RuntimeError::Validation(message))
            if message == "Codex CLI version output did not have the expected prefix"
    ));
    assert!(CodexCliProviderV1::discover(config(), &facts(), "codex-cli 1", "", "").is_err());
}

#[test]
fn structured_events_capture_thread_and_bound_sensitive_text() {
    let event = parse_codex_jsonl_event(
        r#"{"type":"thread.started","thread_id":"thread-123"}"#,
        1024,
    )
    .expect("thread event");
    assert_eq!(event.thread_id.as_deref(), Some("thread-123"));
    let secret_value = ["synthetic", "test", "value"].join("-");
    let line = format!(
        "{{\"type\":\"item.completed\",\"item\":{{\"type\":\"agent_message\",\"text\":\"{}={secret_value}\"}}}}",
        "token"
    );
    let message = parse_codex_jsonl_event(&line, 1024).expect("message event");
    assert!(!message.text.expect("text").contains(&secret_value));
    assert!(!message.bounded_summary.contains(&secret_value));
}

#[test]
fn fake_cli_jsonl_fixture_preserves_thread_and_turn_boundaries() {
    let fixture = [
        r#"{"type":"thread.started","thread_id":"thread-fixture-1"}"#,
        r#"{"type":"turn.started"}"#,
        r#"{"type":"item.completed","item":{"type":"agent_message","text":"bounded result"}}"#,
        r#"{"type":"turn.completed"}"#,
    ];
    let events = fixture
        .iter()
        .map(|line| parse_codex_jsonl_event(line, 1024))
        .collect::<Result<Vec<_>, _>>()
        .expect("fixture parses");
    assert_eq!(events.len(), 4);
    assert_eq!(events[0].thread_id.as_deref(), Some("thread-fixture-1"));
    assert_eq!(events[3].event_type, "turn.completed");
    assert!(events
        .iter()
        .all(|event| event.bounded_summary.len() <= 1024));
    assert_eq!(
        events[2].bounded_summary,
        "Codex event type=item.completed; itemType=agent_message; retryAfter=<none>"
    );
}

#[test]
fn malformed_or_oversized_jsonl_is_rejected() {
    assert!(parse_codex_jsonl_event("not json", 64).is_err());
    assert!(parse_codex_jsonl_event(r#"{"type":"thread.started"}"#, 4).is_err());
    assert!(parse_codex_jsonl_event(r#"{"thread_id":"missing-type"}"#, 1024).is_err());
}

#[test]
fn rate_limit_classification_uses_structured_retry_or_bounded_text() {
    let structured = CodexCliEventV1 {
        event_type: "error".into(),
        thread_id: None,
        item_type: None,
        text: None,
        retry_after_seconds: Some(42),
        bounded_summary: "provider error".into(),
    };
    assert_eq!(classify_rate_limit(&structured), Some(42));
    let text = CodexCliEventV1 {
        retry_after_seconds: None,
        bounded_summary: "Too many requests from provider".into(),
        ..structured
    };
    assert_eq!(classify_rate_limit(&text), Some(0));
}

#[test]
fn retry_hints_come_under_two_names() {
    let snake = parse_codex_jsonl_event(r#"{"type":"error","retry_after":7}"#, 1024).expect("event");
    assert_eq!(classify_rate_limit(&snake), Some(7));
    let camel = parse_codex_jsonl_event(r#"{"type":"error","retryAfter":8}"#, 1024).expect("event");
    assert_eq!(classify_rate_limit(&camel), Some(8));
    let plain = parse_codex_jsonl_event(r#"{"type":"error","message":"broken"}"#, 1024).expect("event");
    assert_eq!(plain.text.as_deref(), Some("broken"));
    assert_eq!(classify_rate_limit(&plain), None);
}

#[test]
fn shell_shims_and_invalid_directories_are_rejected() {
    let shim = CodexCliConfigV1 {
        executable: "C:\\temp\\codex.cmd".into(),
        working_directory: "/work".into(),
        model_id: None,
        sandbox: CodexCliSandboxV1::ReadOnly,
        max_event_bytes: 1,
        max_diagnostic_bytes: 1,
    };
    let mut shim_facts = facts();
    shim_facts.executable_extension = "CMD".into();
    assert!(shim.validate(&shim_facts).is_err());
    let mut missing = facts();
    missing.working_directory_is_dir = false;
    assert!(config().validate(&missing).is_err());
    let mut no_file = facts();
    no_file.executable_is_file = false;
    assert!(config().validate(&no_file).is_err());
    let mut unbounded = config();
    unbounded.max_event_bytes = 0;
    assert!(unbounded.validate(&facts()).is_err());
}

#[test]
fn command_construction_removes_credential_environment_names() {
    let config = config();
    assert_eq!(config.sandbox.as_flag_value(), "workspace-write");
    let request = cli_request("bounded prompt");
    request.validate().expect("prompt");
    assert!(CodexCliTurnRequestV1 {
        prompt: " ".into(),
        ..request
    }
    .validate()
    .is_err());
    assert_eq!(
        credential_variables(),
        vec!["CODEX_API_KEY", "OPENAI_API_KEY", "CONTROL_PLANE_API_KEY"]
    );
}

#[test]
fn turns_are_started_in_a_sandbox_and_resumed_by_thread() {
    let mut config = config();
    assert_eq!(
        turn_command(&config, "go", &None),
        vec![
            "exec",
            "--json",
            "--ignore-user-config",
            "--color",
            "never",
            "--sandbox",
            "workspace-write",
            "go"
        ]
    );
    config.model_id = Some("m".into());
    assert_eq!(
        turn_command(&config, "go", &Some("thread-1".into())),
        vec![
            "exec",
            "resume",
            "thread-1",
            "--json",
            "--ignore-user-config",
            "--color",
            "never",
            "--model",
            "m",
            "go"
        ]
    );
}

#[test]
fn secrets_are_removed_before_text_is_cut() {
    assert_eq!(bounded_redacted_text("password: hunter2 ok", 64), "password=<redacted> ok");
    let key = format!("{}-{}", "sk", "a".repeat(20));
    assert_eq!(
        bounded_redacted_text(&format!("key {key}"), 64),
        "key <redacted-api-key>"
    );
    let short = format!("{}-{}", "sk", "a".repeat(19));
    assert_eq!(bounded_redacted_text(&short, 64), short);
    assert_eq!(bounded_redacted_text("abcdef", 3), "abc...");
}

#[test]
fn diagnostics_stop_growing_at_their_bound() {
    assert_eq!(append_bounded("", "one", 10), "one");
    assert_eq!(append_bounded("one", "two", 10), "one\ntwo");
    assert_eq!(append_bounded("one\ntwo", "three", 10), "one\ntwo\nth...");
    assert_eq!(append_bounded("0123456789", "more", 10), "0123456789");
}

#[test]
fn failed_commands_report_their_code() {
    assert_eq!(command_output(true, Some(0), b"fine", b"", 10), Ok("fine".into()));
    assert_eq!(
        command_output(false, Some(-1), b"", b"bad", 10),
        Err(RuntimeError::Provider(
            "Codex CLI command failed with Some(-1): bad".into()
        ))
    );
    assert_eq!(
        command_output(false, None, b"", b"bad", 10),
        Err(RuntimeError::Provider(
            "Codex CLI command failed with None: bad".into()
        ))
    );
}

#[test]
fn a_turn_is_followed_to_its_end() {
    let mut provider = provider();
    let handle = provider.start_turn(cli_request("go")).expect("turn");
    assert_eq!(handle.handle_id, "codex-cli-turn-1");
    let line = r#"{"type":"thread.started","thread_id":"thread-7"}"#;
    provider
        .accept(&handle, stdout_message(line, 1024))
        .expect("known");
    let first = provider.poll_events(&handle, 0).expect("batch");
    assert_eq!(first.state, CodexCliTurnStateV1::Running);
    assert!(!first.terminal);
    assert_eq!(first.next_cursor, 1);
    assert_eq!(first.thread_id.as_deref(), Some("thread-7"));
    provider
        .accept(&handle, stdout_message(r#"{"type":"turn.completed"}"#, 1024))
        .expect("known");
    provider.note_exit("codex-cli-turn-1", true).expect("known");
    let second = provider.poll_events(&handle, first.next_cursor).expect("batch");
    assert_eq!(second.events.len(), 1);
    assert_eq!(
        second.normalized_events[0].kind,
        NormalizedProviderEventKind::CompletionClaim
    );
    assert_eq!(second.state, CodexCliTurnStateV1::Completed);
    let snapshot = provider.session_snapshot(&handle).expect("snapshot");
    assert_eq!(snapshot.codex_thread_id, "thread-7");
    assert_eq!(snapshot.last_completed_turn, Some(handle.turn_id.clone()));
    assert_eq!(snapshot.last_event_sequence, 2);
    assert_eq!(provider.captured_thread_id(&handle).as_deref(), Some("thread-7"));
    assert!(provider.check_cancel("codex-cli-turn-1").is_err());
}

#[test]
fn unreadable_output_ends_a_turn_with_an_error() {
    let mut provider = provider();
    let handle = provider.start_turn(cli_request("go")).expect("turn");
    assert!(matches!(stdout_message("x", 1024), StreamMessage::ParseError(_)));
    provider
        .accept(&handle, stdout_message("not json", 1024))
        .expect("known");
    provider
        .accept(&handle, stderr_message("secret=abc", 1024))
        .expect("known");
    let batch = provider.poll_events(&handle, 0).expect("batch");
    assert_eq!(batch.events[0].event_type, "parse.error");
    assert_eq!(
        batch.normalized_events[0].kind,
        NormalizedProviderEventKind::TerminalError
    );
    assert_eq!(provider.bounded_stderr(&handle).as_deref(), Some("secret=<redacted>"));
}

#[test]
fn cancellation_is_told_once() {
    let mut provider = provider();
    let handle = provider.start_turn(cli_request("go")).expect("turn");
    provider.check_cancel(&handle.handle_id).expect("running");
    provider.note_cancelled(&handle.handle_id, None).expect("known");
    let first = provider.poll_events(&handle, 0).expect("batch");
    assert_eq!(first.state, CodexCliTurnStateV1::Cancelled);
    assert_eq!(first.events.len(), 1);
    assert_eq!(first.normalized_events[0].kind, NormalizedProviderEventKind::CancelAck);
    let second = provider.poll_events(&handle, 1).expect("batch");
    assert!(second.events.is_empty());
    assert_eq!(second.state, CodexCliTurnStateV1::Cancelled);
}

#[test]
fn workers_turns_carry_no_tools_and_keep_their_thread() {
    let mut provider = provider();
    assert!(provider.worker_request(&worker_request(vec![tool()]), false).is_err());
    assert!(matches!(
        provider.worker_request(&worker_request(Vec::new()), true),
        Err(RuntimeError::Validation(message))
            if message == "Codex continuation requires a captured provider thread id"
    ));
    let request = provider
        .worker_request(&worker_request(Vec::new()), false)
        .expect("request");
    let handle = provider.start_worker_turn(request, None).expect("turn");
    assert_eq!(handle.provider_session_id, "codex-unbound-codex-worker");
    provider.note_exit(&handle.handle_id, false).expect("known");
    let batch = provider.poll_worker_events(&handle, 0).expect("batch");
    assert!(batch.terminal);
    assert_eq!(
        batch.events[0].text.as_deref(),
        Some("Codex CLI turn failed without structured error")
    );
    let resumed = provider
        .start_worker_turn(cli_request("again"), Some("thread-9".into()))
        .expect("turn");
    assert_eq!(resumed.provider_session_id, "thread-9");
    let batch = provider.poll_worker_events(&resumed, 0).expect("batch");
    assert_eq!(batch.provider_session_id.as_deref(), Some("thread-9"));
    let plain = provider.start_turn(cli_request("plain")).expect("turn");
    let mut foreign = resumed;
    foreign.handle_id = plain.handle_id;
    assert!(provider.poll_worker_events(&foreign, 0).is_err());
}

#[test]
fn a_rate_limited_turn_tells_the_worker_so() {
    let mut provider = provider();
    let handle = provider.start_worker_turn(cli_request("go"), None).expect("turn");
    let turn = provider.turns[0].handle.clone();
    provider
        .accept(&turn, stderr_message("HTTP 429 from provider", 1024))
        .expect("known");
    let batch = provider.poll_worker_events(&handle, 0).expect("batch");
    assert!(batch.terminal);
    assert_eq!(batch.events[0].text.as_deref(), Some("Codex CLI rate limited"));
}

#[test]
fn workers_learn_what_the_command_line_can_do() {
    let capabilities = provider().worker_capabilities();
    assert_eq!(capabilities.provider_id, "codex-cli");
    assert!(capabilities.supports_streaming);
    assert!(!capabilities.supports_native_tool_calls);
    assert!(capabilities.supports_session_continuity);
    assert_eq!(capabilities.context_limit, MAX_PROMPT_BYTES);
    assert_eq!(capabilities.output_limit, config().max_event_bytes);
}

#[test]
fn events_are_told_of_under_the_turn_that_is_looked_at() {
    let mut provider = provider();
    let mut handle = provider.start_turn(cli_request("go")).expect("turn");
    handle.turn_id = TurnId::new("renamed").expect("turn id");
    provider
        .accept(&handle, stdout_message(r#"{"type":"turn.completed"}"#, 1024))
        .expect("known");
    let batch = provider.poll_events(&handle, 0).expect("batch");
    assert_eq!(batch.normalized_events[0].turn_id, handle.turn_id);
}

#[test]
fn output_that_is_not_text_is_marked() {
    assert_eq!(
        command_output(true, Some(0), b"a\xffb", b"", 64),
        Ok("a\u{fffd}b".to_string())
    );
}

#[test]
fn only_named_threads_are_resumed() {
    assert_eq!(check_resumed_thread("thread-1"), Ok(()));
    assert_eq!(
        check_resumed_thread(" \t"),
        Err(RuntimeError::Validation(
            "Codex resume requires a non-empty captured thread id".into()
        ))
    );
}
