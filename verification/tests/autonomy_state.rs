use catdesk_delegated::autonomy_state::{
    repaired_length, AutonomousQueueTaskStateV1, AutonomousQueueTaskV1, AutonomousQueueV1,
    AutonomousSessionStateV1, AutonomousStateStoreV1, AutonomyStateError, SessionRecordV1,
};
use catdesk_delegated::coordinator::{VerificationStatusV1, VerificationSummaryV1};
use catdesk_delegated::provider::RuntimeError;

fn task(id: &str, priority: u32, depends_on: &[&str], state: AutonomousQueueTaskStateV1) -> AutonomousQueueTaskV1 {
    AutonomousQueueTaskV1 {
        task_id: id.into(),
        priority,
        depends_on: depends_on.iter().map(|id| id.to_string()).collect(),
        state,
    }
}

fn queue() -> AutonomousQueueV1 {
    AutonomousQueueV1::new(vec![
        task("analysis", 10, &[], AutonomousQueueTaskStateV1::Ready),
        task("repair", 99, &["analysis"], AutonomousQueueTaskStateV1::Ready),
    ])
    .expect("valid queue")
}

#[test]
fn queue_selects_highest_priority_ready_task_with_satisfied_dependencies() {
    let mut queue = queue();
    assert_eq!(
        queue.next_ready_task().map(|task| task.task_id.as_str()),
        Some("analysis")
    );
    queue.tasks[0].state = AutonomousQueueTaskStateV1::CompletedVerified;
    assert_eq!(
        queue.next_ready_task().map(|task| task.task_id.as_str()),
        Some("repair")
    );
}

#[test]
fn queue_rejects_duplicate_and_missing_dependencies() {
    let duplicate = AutonomousQueueV1::new(vec![
        task("same", 1, &[], AutonomousQueueTaskStateV1::Planned),
        task("same", 2, &[], AutonomousQueueTaskStateV1::Planned),
    ]);
    assert!(duplicate.is_err());
    let missing = AutonomousQueueV1::new(vec![task(
        "task",
        1,
        &["missing"],
        AutonomousQueueTaskStateV1::Planned,
    )]);
    assert!(missing.is_err());
}

#[test]
fn queue_refusals_are_told_apart() {
    let refused = |tasks| match AutonomousQueueV1::new(tasks) {
        Err(RuntimeError::Validation(message)) => message,
        other => panic!("{other:?}"),
    };
    assert_eq!(
        refused(vec![task("a b", 1, &[], AutonomousQueueTaskStateV1::Ready)]),
        "autonomous queue task id must be a conservative non-empty slug"
    );
    assert_eq!(
        refused(vec![task("a", 1, &["a"], AutonomousQueueTaskStateV1::Ready)]),
        "autonomous queue task cannot depend on itself"
    );
    assert_eq!(
        refused(vec![task("a", 1, &["x y"], AutonomousQueueTaskStateV1::Ready)]),
        "autonomous queue dependency must be a conservative non-empty slug"
    );
    assert_eq!(
        refused(vec![task("a", 1, &["b"], AutonomousQueueTaskStateV1::Ready)]),
        "autonomous queue dependency does not exist"
    );
    let mut old = queue();
    old.schema_version = 2;
    assert!(matches!(
        old.validate(),
        Err(RuntimeError::Validation(message))
            if message == "unsupported autonomous queue schema version"
    ));
}

#[test]
fn equal_priorities_go_by_name() {
    let queue = AutonomousQueueV1::new(vec![
        task("b", 5, &[], AutonomousQueueTaskStateV1::Ready),
        task("a", 5, &[], AutonomousQueueTaskStateV1::Ready),
        task("z", 4, &[], AutonomousQueueTaskStateV1::Ready),
    ])
    .expect("queue");
    assert_eq!(queue.next_ready_task().expect("task").task_id, "a");
    let idle = AutonomousQueueV1::new(vec![task("a", 5, &[], AutonomousQueueTaskStateV1::Planned)])
        .expect("queue");
    assert!(idle.next_ready_task().is_none());
}

#[test]
fn state_events_and_cursor_round_trip_durably() {
    let mut store = AutonomousStateStoreV1::new();
    store
        .create_session("session-one", queue())
        .expect("session");
    let first = store
        .append_event("session-one", "session_created", "session created")
        .expect("first event");
    let second = store
        .append_event("session-one", "state_queued", "session queued")
        .expect("second event");
    assert_eq!((first.sequence, second.sequence), (1, 2));
    let events = store.poll_events("session-one", 1).expect("poll");
    assert_eq!(events.len(), 1);
    assert_eq!(events[0].sequence, 2);
    assert_eq!(
        store
            .load_session("session-one")
            .expect("load")
            .last_event_sequence,
        2
    );
}

#[test]
fn escalation_packet_is_bounded_and_round_trips() {
    let mut store = AutonomousStateStoreV1::new();
    store
        .create_session("session-one", queue())
        .expect("session");
    let packet = store
        .write_escalation(
            "session-one",
            AutonomousSessionStateV1::WaitingForChatgpt,
            "provider_terminal_error",
        )
        .expect("packet");
    assert_eq!(packet.reason, "provider_terminal_error");
    assert_eq!(packet.escalation_id, "esc-1");
    assert_eq!(store.load_escalation("session-one").expect("read"), packet);
    assert!(store
        .write_escalation(
            "session-one",
            AutonomousSessionStateV1::WaitingForChatgpt,
            "contains spaces",
        )
        .is_err());
}

#[test]
fn planner_reply_and_completion_artifacts_round_trip_durably() {
    let mut store = AutonomousStateStoreV1::new();
    store
        .create_session("session-one", queue())
        .expect("session");
    let escalation = store
        .write_escalation(
            "session-one",
            AutonomousSessionStateV1::WaitingForChatgpt,
            "provider_terminal_error",
        )
        .expect("escalation");
    let constraints = vec!["preserve policy".into()];
    store
        .write_planner_reply(
            "session-one",
            &escalation.escalation_id,
            "decision-hash",
            "select the bounded repair",
            &constraints,
        )
        .expect("planner reply");
    assert!(
        !store
            .load_planner_reply("session-one")
            .expect("reply")
            .consumed
    );
    store
        .mark_planner_reply_consumed("session-one")
        .expect("consume reply");
    assert!(
        store
            .load_planner_reply("session-one")
            .expect("consumed reply")
            .consumed
    );

    let verification = VerificationSummaryV1 {
        status: VerificationStatusV1::Passed,
        command: "cargo test".into(),
        summary: "passed".into(),
    };
    store
        .write_completion_artifacts(
            "session-one",
            &verification,
            "diff --git a/src/lib.rs b/src/lib.rs",
            "independent final review passed",
        )
        .expect("completion artifacts");
    let artifacts = store
        .load_completion_artifacts("session-one")
        .expect("load completion artifacts");
    assert_eq!(artifacts.verification, verification);
    assert!(artifacts.authoritative_diff.starts_with("diff --git"));
}

#[test]
fn replies_are_bounded_and_answer_the_open_escalation() {
    let mut store = AutonomousStateStoreV1::new();
    store.create_session("s", queue()).expect("session");
    let none: Vec<String> = Vec::new();
    assert!(matches!(
        store.write_planner_reply("s", "esc-1", "hash", "do it", &none),
        Err(AutonomyStateError::Io(_))
    ));
    store
        .write_escalation("s", AutonomousSessionStateV1::WaitingForUser, "why")
        .expect("escalation");
    let refusal = |result: Result<_, AutonomyStateError>| match result {
        Err(AutonomyStateError::Validation(message)) => message,
        _ => panic!("not refused"),
    };
    let outside = "autonomous planner reply is outside bounded policy";
    assert_eq!(
        refusal(store.write_planner_reply("s", "esc-1", " ", "do it", &none).map(|_| ())),
        outside
    );
    assert_eq!(
        refusal(
            store
                .write_planner_reply("s", "esc-1", "hash", &"x".repeat(4097), &none)
                .map(|_| ())
        ),
        outside
    );
    assert_eq!(
        refusal(
            store
                .write_planner_reply("s", "esc-1", "hash", "do it", &vec!["a".into(); 21])
                .map(|_| ())
        ),
        outside
    );
    assert_eq!(
        refusal(
            store
                .write_planner_reply("s", "esc-1", "hash", "do it", &vec!["x".repeat(513)])
                .map(|_| ())
        ),
        outside
    );
    assert_eq!(
        refusal(store.write_planner_reply("s", "esc-9", "hash", "do it", &none).map(|_| ())),
        "autonomous planner reply does not match the current escalation"
    );
    assert!(store.write_planner_reply("s", "esc-1", "hash", "do it", &none).is_ok());
}

#[test]
fn completion_evidence_is_bounded() {
    let mut store = AutonomousStateStoreV1::new();
    store.create_session("s", queue()).expect("session");
    let verification = VerificationSummaryV1 {
        status: VerificationStatusV1::Passed,
        command: "c".into(),
        summary: "s".into(),
    };
    assert!(store.write_completion_artifacts("s", &verification, " ", "review").is_err());
    assert!(store.write_completion_artifacts("s", &verification, "diff", "").is_err());
    assert!(store
        .write_completion_artifacts("s", &verification, &"d".repeat(524_289), "review")
        .is_err());
    assert!(store
        .write_completion_artifacts("s", &verification, "diff", &"r".repeat(24_577))
        .is_err());
    assert!(store.load_completion_artifacts("s").is_err());
    assert!(store
        .write_completion_artifacts("s", &verification, &"d".repeat(524_288), &"r".repeat(24_576))
        .is_ok());
}

#[test]
fn torn_terminal_event_is_repaired_without_losing_prior_events() {
    let whole = "{\"sequence\":1}\n".to_string();
    let torn = format!("{whole}{{not-json");
    let kept = repaired_length(&torn.clone().into_bytes()).expect("repaired");
    assert_eq!(&torn[..kept], whole);
    assert_eq!(repaired_length(&whole.clone().into_bytes()), Ok(whole.len()));
    assert!(matches!(
        repaired_length(&format!("{{not-json\n{whole}").into_bytes()),
        Err(AutonomyStateError::Serde(_))
    ));
    assert_eq!(repaired_length(&Vec::new()), Ok(0));
}

#[test]
fn lock_prevents_second_owner_and_release_is_owner_scoped() {
    let mut store = AutonomousStateStoreV1::new();
    store
        .create_session("session-one", queue())
        .expect("session");
    let lock = store.acquire_lock("session-one", "owner-a").expect("lock");
    assert!(matches!(
        store.acquire_lock("session-one", "owner-b"),
        Err(AutonomyStateError::LockHeld(_))
    ));
    lock.release(&mut store).expect("release");
    let mut foreign = store
        .acquire_lock("session-one", "owner-b")
        .expect("second owner");
    foreign.owner_id = "owner-a".into();
    assert!(matches!(
        foreign.release(&mut store),
        Err(AutonomyStateError::LockOwnership(_))
    ));
}

#[test]
fn restart_recovery_never_relaunches_inflight_work() {
    let mut store = AutonomousStateStoreV1::new();
    let mut snapshot = store
        .create_session("session-one", queue())
        .expect("session");
    snapshot.state = AutonomousSessionStateV1::Running;
    snapshot.current_task_id = Some("analysis".into());
    store.save_session(&snapshot).expect("save running");
    let recovered = store.recover_interrupted_sessions().expect("recover");
    assert_eq!(recovered.len(), 1);
    assert_eq!(
        recovered[0].state,
        AutonomousSessionStateV1::RecoveringAfterRestart
    );
    assert_eq!(
        store.poll_events("session-one", 0).expect("events")[0].kind,
        "restart_recovery_required"
    );
    assert!(store.recover_interrupted_sessions().expect("again").is_empty());
}

#[test]
fn terminal_state_and_active_flag_must_agree() {
    let mut store = AutonomousStateStoreV1::new();
    let mut snapshot = store
        .create_session("session-one", queue())
        .expect("session");
    snapshot.state = AutonomousSessionStateV1::CompletedVerified;
    assert!(store.save_session(&snapshot).is_err());
    snapshot.active = false;
    store.save_session(&snapshot).expect("terminal state saves");
}

#[test]
fn sessions_are_listed_in_order_and_opened_once() {
    let mut store = AutonomousStateStoreV1::new();
    for id in ["b", "c", "a"] {
        store.create_session(id, queue()).expect("session");
    }
    let ids: Vec<String> = store.list_sessions().into_iter().map(|s| s.session_id).collect();
    assert_eq!(ids, vec!["a", "b", "c"]);
    assert!(matches!(
        store.create_session("b", queue()),
        Err(AutonomyStateError::SessionExists(id)) if id == "b"
    ));
    assert!(matches!(
        store.load_session("d"),
        Err(AutonomyStateError::SessionNotFound(id)) if id == "d"
    ));
    assert!(matches!(
        store.load_session("no slug"),
        Err(AutonomyStateError::Validation(message))
            if message == "Validation(\"autonomous session id must be a conservative non-empty slug\")"
    ));
}

#[test]
fn events_are_checked_before_the_session_is_looked_for() {
    let mut store = AutonomousStateStoreV1::new();
    store.create_session("s", queue()).expect("session");
    let refusal = |result: Result<_, AutonomyStateError>| match result {
        Err(AutonomyStateError::Validation(message)) => message,
        _ => panic!("not refused"),
    };
    assert!(refusal(store.append_event("s", "two words", "x").map(|_| ()))
        .contains("autonomous event kind"));
    assert_eq!(
        refusal(store.append_event("s", "kind", " ").map(|_| ())),
        "autonomous event summary must not be empty"
    );
    assert_eq!(
        refusal(store.append_event("s", "kind", &"x".repeat(4097)).map(|_| ())),
        "autonomous event summary exceeds bounded storage"
    );
    let mut ahead = store.load_session("s").expect("session");
    ahead.last_event_sequence = 9;
    store.save_session(&ahead).expect("saved");
    assert_eq!(
        refusal(store.append_event("s", "kind", "x").map(|_| ())),
        "autonomous state sequence is ahead of its event journal"
    );
}

#[test]
fn kept_sessions_are_checked_when_they_come_back() {
    let mut source = AutonomousStateStoreV1::new();
    source.create_session("s", queue()).expect("session");
    let mut record: SessionRecordV1 = source.sessions.remove(0);
    record.queue.schema_version = 7;
    let mut store = AutonomousStateStoreV1::new();
    assert!(store.restore_session(record).is_err());
    let mut source = AutonomousStateStoreV1::new();
    source.create_session("s", queue()).expect("session");
    store.restore_session(source.sessions.remove(0)).expect("restored");
    assert_eq!(store.list_sessions().len(), 1);
}

#[test]
fn store_errors_reach_the_runtime_as_provider_errors() {
    let error = AutonomyStateError::SessionNotFound("a\"b".into()).into_runtime_error();
    assert_eq!(
        error,
        RuntimeError::Provider("autonomy state error: SessionNotFound(\"a\\\"b\")".into())
    );
}
