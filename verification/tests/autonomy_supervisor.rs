use catdesk_delegated::autonomous_contract::{
    AutonomousCommandProfileV1, AutonomousDevelopmentContractV1, AutonomousGitPolicyV1,
    AutonomousHardStopV1, AutonomousProviderPolicyV1, AutonomousRateLimitPolicyV1,
    AutonomousVerificationPolicyV1, AutonomyLeaseV1, ResolvedPath,
};
use catdesk_delegated::autonomy_runtime::{
    controller_key, operator_config, operator_configuration_available, stored_policy,
};
use catdesk_delegated::autonomy_state::{AutonomousSessionStateV1, AutonomousStateStoreV1};
use catdesk_delegated::autonomy_supervisor::{
    handle_tool, is_autonomy_mcp_tool, tool_schemas, ContractPathsV1, AUTONOMY_MCP_TOOL_NAMES,
};
use catdesk_delegated::codex_cli::CodexPathFactsV1;
use catdesk_delegated::json::JsonValue;
use catdesk_delegated::provider::RuntimeError;

fn contract() -> AutonomousDevelopmentContractV1 {
    AutonomousDevelopmentContractV1 {
        schema_version: 1,
        contract_id: "session-1".into(),
        task_id: "work".into(),
        project_id: "project".into(),
        mode: "chatgpt_web_codex_autonomous".into(),
        objective: "test".into(),
        workspace: "/work".into(),
        base_branch: "main".into(),
        feature_branch: "feature-test".into(),
        base_commit: "1234567".into(),
        expected_origin: "https://example.invalid/repo.git".into(),
        ordered_steps: vec!["work".into()],
        allowed_paths: vec!["/work/src".into()],
        forbidden_paths: vec![],
        allowed_command_profiles: vec![AutonomousCommandProfileV1::CargoTest],
        git_policy: AutonomousGitPolicyV1 {
            create_branch: true,
            create_worktree: true,
            local_commits: false,
            push_feature_branch: false,
            open_pull_request: false,
            merge: false,
            force_push: false,
            modify_main: false,
        },
        provider_policy: AutonomousProviderPolicyV1 {
            primary_provider: "codex-cli".into(),
            primary_model: "default".into(),
            routine_provider: "ollama".into(),
            routine_model: "qwen".into(),
            allow_paid_fallback: false,
            allow_cloud_fallback: false,
        },
        verification_policy: AutonomousVerificationPolicyV1 {
            profile: "test".into(),
            required_commands: vec![],
            max_repair_cycles: 1,
            require_authoritative_diff: true,
            require_final_review: true,
        },
        rate_limit_policy: AutonomousRateLimitPolicyV1 {
            automatic_pause: true,
            automatic_resume: true,
            initial_backoff_seconds: 1,
            maximum_backoff_seconds: 2,
            maximum_rate_limited_seconds: 3,
            honor_provider_retry_after: true,
        },
        autonomy_lease: AutonomyLeaseV1 {
            start_approval_required: true,
            renewal_allowed: true,
            issued_at_unix: 1,
            expires_at_unix: 100,
            maximum_total_elapsed_seconds: 99,
            maximum_provider_turns: 2,
            maximum_tool_calls: 2,
            maximum_consecutive_failures: 1,
            maximum_repair_cycles: 1,
        },
        hard_stop_conditions: vec![AutonomousHardStopV1::CancellationRequested],
    }
}

fn root() -> Vec<String> {
    vec!["/".into(), "work".into()]
}

fn paths() -> ContractPathsV1 {
    ContractPathsV1 {
        workspace: ResolvedPath::Resolved(root()),
        allowed: vec![ResolvedPath::Resolved(vec![
            "/".into(),
            "work".into(),
            "src".into(),
        ])],
        forbidden: Vec::new(),
    }
}

fn record(members: &[(&str, &str)]) -> JsonValue {
    JsonValue::Record(
        members
            .iter()
            .map(|(key, value)| (key.to_string(), value.to_string()))
            .collect(),
    )
}

fn call(store: &mut AutonomousStateStoreV1, name: &str, members: &[(&str, &str)]) -> Result<String, String> {
    handle_tool(store, name, &record(members), None, &paths(), &root(), 20)
}

fn created() -> (AutonomousStateStoreV1, String) {
    let mut store = AutonomousStateStoreV1::new();
    let answer = handle_tool(
        &mut store,
        "autonomy_contract_create",
        &record(&[("contract", "{}")]),
        Some(contract()),
        &paths(),
        &root(),
        20,
    )
    .expect("create");
    let value: serde_json::Value = serde_json::from_str(&answer).expect("json");
    let hash = value["contractHash"].as_str().expect("hash").to_string();
    (store, hash)
}

fn change<'a>(version: &'a str, key: &'a str) -> Vec<(&'a str, &'a str)> {
    vec![
        ("sessionId", "\"session-1\""),
        ("expectedStateVersion", version),
        ("idempotencyKey", key),
    ]
}

fn state_of(answer: &str) -> String {
    let value: serde_json::Value = serde_json::from_str(answer).expect("json");
    value["state"].as_str().expect("state").to_string()
}

#[test]
fn approval_is_idempotent_and_start_requires_operator_runtime() {
    let (mut store, hash) = created();
    let quoted_hash = format!("\"{hash}\"");
    let mut approve = change("1", "\"approve-1\"");
    approve.push(("approvalId", "\"approval-1\""));
    approve.push(("decisionHash", &quoted_hash));
    let approval = call(&mut store, "autonomy_contract_approve", &approve).expect("approve");
    assert_eq!(state_of(&approval), "QUEUED");
    let replay = call(&mut store, "autonomy_contract_approve", &approve).expect("idempotent replay");
    assert_eq!(state_of(&replay), "QUEUED");
    assert_eq!(approval, replay);
    let start = call(&mut store, "autonomy_session_start", &change("2", "\"start-1\"")).expect("start");
    assert_eq!(state_of(&start), "QUEUED");
    let list = call(&mut store, "autonomy_session_list", &[]).expect("list");
    let value: serde_json::Value = serde_json::from_str(&list).expect("json");
    assert_eq!(value["sessions"].as_array().expect("sessions").len(), 1);
}

#[test]
fn a_session_without_approval_does_not_start() {
    let (mut store, _hash) = created();
    assert_eq!(
        call(&mut store, "autonomy_session_start", &change("1", "\"start-1\"")),
        Err("start approval is required for this autonomous contract".into())
    );
    let mut approve = change("1", "\"approve-1\"");
    approve.push(("approvalId", "\"approval-1\""));
    approve.push(("decisionHash", "\"fnv1a64:other\""));
    assert_eq!(
        call(&mut store, "autonomy_contract_approve", &approve),
        Err("approval decision hash does not match the persisted contract".into())
    );
}

#[test]
fn changes_name_the_version_and_a_fresh_key() {
    let (mut store, _hash) = created();
    assert_eq!(
        call(&mut store, "autonomy_session_pause", &change("7", "\"pause-1\"")),
        Err("expected state version does not match persisted state".into())
    );
    assert_eq!(
        call(&mut store, "autonomy_session_pause", &change("1", "\"no slug\"")),
        Err("idempotency key is invalid".into())
    );
    let paused = call(&mut store, "autonomy_session_pause", &change("1", "\"pause-1\"")).expect("pause");
    assert_eq!(state_of(&paused), "PAUSED");
    assert_eq!(
        call(&mut store, "autonomy_session_resume", &change("2", "\"pause-1\"")),
        Err("idempotency key was previously used for a different action".into())
    );
    let resumed = call(&mut store, "autonomy_session_resume", &change("2", "\"resume-1\"")).expect("resume");
    assert_eq!(state_of(&resumed), "QUEUED");
    let cancelled = call(&mut store, "autonomy_session_cancel", &change("3", "\"cancel-1\"")).expect("cancel");
    assert_eq!(state_of(&cancelled), "CANCELLED");
    assert_eq!(
        call(&mut store, "autonomy_session_pause", &change("4", "\"pause-2\"")),
        Err("terminal autonomous session cannot be changed".into())
    );
    assert!(store.load_session("session-1").expect("state").cancellation_requested);
}

#[test]
fn busy_sessions_are_not_changed() {
    let (mut store, _hash) = created();
    let lock = store.acquire_lock("session-1", "owner").expect("lock");
    assert_eq!(
        call(&mut store, "autonomy_session_pause", &change("1", "\"pause-1\"")),
        Err("autonomy session is busy".into())
    );
    lock.release(&mut store).expect("release");
    assert!(call(&mut store, "autonomy_session_pause", &change("1", "\"pause-1\"")).is_ok());
}

#[test]
fn leases_are_renewed_in_the_stored_contract() {
    let (mut store, hash) = created();
    let mut renew = change("1", "\"renew-1\"");
    renew.push(("newExpiryUnix", "150"));
    assert_eq!(
        call(&mut store, "autonomy_session_renew_lease", &renew),
        Ok("{\"renewed\":true,\"sessionId\":\"session-1\"}".into())
    );
    let kept = store.load_contract("session-1", true).expect("contract");
    assert_eq!(kept.autonomy_lease.expires_at_unix, 150);
    assert_ne!(kept.decision_hash().expect("hash"), hash);
    let mut late = change("2", "\"renew-2\"");
    late.push(("newExpiryUnix", "10"));
    assert_eq!(
        call(&mut store, "autonomy_session_renew_lease", &late),
        Err("autonomy lease renewal was rejected".into())
    );
}

#[test]
fn replies_let_a_waiting_session_go_on() {
    let (mut store, _hash) = created();
    let mut reply = change("1", "\"reply-1\"");
    reply.push(("decisionHash", "\"hash\""));
    assert_eq!(
        call(&mut store, "autonomy_session_reply", &reply),
        Err("autonomy session is not awaiting a planner reply".into())
    );
    let mut snapshot = store.load_session("session-1").expect("state");
    snapshot.state = AutonomousSessionStateV1::WaitingForChatgpt;
    store.save_session(&snapshot).expect("saved");
    let answered = call(&mut store, "autonomy_session_reply", &reply).expect("reply");
    assert_eq!(state_of(&answered), "QUEUED");
}

#[test]
fn questions_are_answered_within_bounds() {
    let (mut store, hash) = created();
    let session = [("sessionId", "\"session-1\"")];
    assert_eq!(
        call(&mut store, "autonomy_contract_validate", &session),
        Ok(format!("{{\"contractHash\":\"{hash}\",\"valid\":true}}"))
    );
    let events = call(&mut store, "autonomy_session_events", &session).expect("events");
    let value: serde_json::Value = serde_json::from_str(&events).expect("json");
    assert_eq!(value["events"][0]["kind"], "contract_created");
    assert_eq!(value["nextSequence"], 1);
    let none = call(
        &mut store,
        "autonomy_session_events",
        &[("sessionId", "\"session-1\""), ("maxBytes", "10")],
    )
    .expect("events");
    let value: serde_json::Value = serde_json::from_str(&none).expect("json");
    assert!(value["events"].as_array().expect("list").is_empty());
    assert_eq!(value["nextSequence"], 0);
    assert_eq!(
        call(&mut store, "autonomy_queue_status", &session),
        Ok("{\"schemaVersion\":1,\"tasks\":[{\"dependsOn\":[],\"priority\":1,\"state\":\"READY\",\"taskId\":\"work\"}]}".into())
    );
    assert_eq!(
        call(&mut store, "autonomy_session_get_escalation", &session),
        Ok("{\"available\":false}".into())
    );
    let status = call(&mut store, "autonomy_session_status", &session).expect("status");
    assert_eq!(
        status,
        "{\"active\":true,\"providerThreadCaptured\":false,\"providerTurnCount\":0,\"repairAttempts\":0,\"retryNotBeforeUnix\":null,\"sessionId\":\"session-1\",\"state\":\"DRAFT\",\"stateVersion\":1}"
    );
}

#[test]
fn calls_are_read_strictly() {
    let (mut store, _hash) = created();
    let answer = |store: &mut AutonomousStateStoreV1, name: &str, members: &[(&str, &str)]| {
        call(store, name, members).unwrap_err()
    };
    assert_eq!(answer(&mut store, "nonsense", &[]), "unknown autonomous supervisor tool");
    assert_eq!(answer(&mut store, "autonomy_contract_create", &[]), "contract is required");
    assert_eq!(
        answer(&mut store, "autonomy_contract_create", &[("contract", "{}")]),
        "autonomous contract schema is invalid"
    );
    assert_eq!(answer(&mut store, "autonomy_session_status", &[]), "sessionId is required");
    assert_eq!(
        answer(&mut store, "autonomy_session_status", &[("sessionId", "7")]),
        "sessionId must be a non-empty string"
    );
    assert_eq!(
        answer(&mut store, "autonomy_session_status", &[("sessionId", "\"a b\"")]),
        "sessionId is invalid"
    );
    assert_eq!(
        answer(&mut store, "autonomy_session_status", &[("sessionId", "\"other\"")]),
        "autonomous session is unavailable"
    );
    assert_eq!(
        answer(
            &mut store,
            "autonomy_session_start",
            &[("sessionId", "\"session-1\""), ("expectedStateVersion", "-1")]
        ),
        "expectedStateVersion must be an integer"
    );
}

#[test]
fn contracts_are_created_once_and_for_this_workspace() {
    let (mut store, _hash) = created();
    let create = |store: &mut AutonomousStateStoreV1, paths: &ContractPathsV1, root: &Vec<String>| {
        handle_tool(
            store,
            "autonomy_contract_create",
            &record(&[("contract", "{}")]),
            Some(contract()),
            paths,
            root,
            20,
        )
    };
    assert_eq!(
        create(&mut store, &paths(), &root()),
        Err("autonomous session already exists or could not be created".into())
    );
    let mut fresh = AutonomousStateStoreV1::new();
    assert_eq!(
        create(&mut fresh, &paths(), &vec!["/".into(), "other".into()]),
        Err("autonomous contract workspace must match the MCP workspace".into())
    );
    let mut missing = paths();
    missing.workspace = ResolvedPath::Missing;
    assert_eq!(
        create(&mut fresh, &missing, &root()),
        Err("autonomous contract policy rejected the request".into())
    );
    assert!(fresh.list_sessions().is_empty());
}

#[test]
fn tools_are_described_and_marked() {
    assert!(is_autonomy_mcp_tool("provider_status"));
    assert!(!is_autonomy_mcp_tool("read"));
    let schemas = tool_schemas();
    assert_eq!(schemas.len(), AUTONOMY_MCP_TOOL_NAMES.len());
    for (schema, name) in schemas.iter().zip(AUTONOMY_MCP_TOOL_NAMES.iter()) {
        let value: serde_json::Value = serde_json::from_str(schema).expect("json");
        assert_eq!(value["name"], *name);
        assert_eq!(value["title"], name.replace('_', " "));
        assert_eq!(
            value["annotations"]["destructiveHint"],
            *name == "autonomy_session_cancel"
        );
        assert_eq!(value["inputSchema"]["properties"]["limit"]["maximum"], 100);
    }
    let mut store = AutonomousStateStoreV1::new();
    let answer = call(&mut store, "provider_status", &[]).expect("answer");
    let value: serde_json::Value = serde_json::from_str(&answer).expect("json");
    assert_eq!(value["status"], "OPERATOR_CONFIGURATION_REQUIRED");
    let answer = call(&mut store, "autonomy_session_get_diff", &[]).expect("answer");
    let value: serde_json::Value = serde_json::from_str(&answer).expect("json");
    assert_eq!(value["available"], false);
}

#[test]
fn the_operator_names_the_program() {
    let facts = CodexPathFactsV1 {
        executable_extension: "exe".into(),
        executable_is_file: true,
        working_directory_is_dir: true,
    };
    let config = operator_config(Some("/bin/codex".into()), "/work".into(), "m".into(), &facts)
        .expect("config");
    assert_eq!(config.model_id.as_deref(), Some("m"));
    assert!(matches!(
        operator_configuration_available(None, "/work".into(), "m".into(), &facts),
        Err(RuntimeError::Validation(message)) if message.contains("CATDESK_CODEX_CLI_EXECUTABLE")
    ));
    assert_eq!(controller_key("/work", "s"), "/work:s");
    assert!(stored_policy(contract(), &paths()).is_ok());
    let mut missing = paths();
    missing.allowed = vec![ResolvedPath::Missing];
    assert!(matches!(
        stored_policy(contract(), &missing),
        Err(RuntimeError::Validation(message))
            if message.starts_with("persisted autonomous contract rejected: Validation(\"")
    ));
}
