use catdesk_delegated::contracts::{RunId, RunState};
use catdesk_delegated::events::{
    poll_events, validate_append_order, EventCursor, EventEnvelopeV1, EventPayloadV1,
    LifecycleEvent,
};

fn event(sequence: u64) -> EventEnvelopeV1 {
    EventEnvelopeV1 {
        schema_version: 1,
        event_sequence: sequence,
        run_id: RunId::new("run-t0013").expect("run id"),
        worker_session_id: None,
        turn_id: None,
        item_id: None,
        lifecycle_event: LifecycleEvent::Created,
        request_hash: "fnv1a64:abc".into(),
        result_hash: None,
        payload: EventPayloadV1::RunStateChanged {
            state: RunState::Draft,
        },
    }
    .with_result_hash()
    .expect("hash")
}

#[test]
fn events_validate_sequence_ordering() {
    validate_append_order(None, &event(1)).expect("first event");
    validate_append_order(Some(1), &event(2)).expect("second event");
    assert!(validate_append_order(Some(2), &event(4)).is_err());
}

#[test]
fn event_polling_is_ordered_and_idempotent() {
    let events = vec![event(3), event(1), event(2)];
    let page = poll_events(
        &events,
        EventCursor {
            after_sequence: 1,
            limit: 10,
        },
    );
    assert_eq!(
        page.iter()
            .map(|event| event.event_sequence)
            .collect::<Vec<_>>(),
        vec![2, 3]
    );
    let replay = poll_events(
        &events,
        EventCursor {
            after_sequence: 1,
            limit: 10,
        },
    );
    assert_eq!(page, replay);
}

#[test]
fn pages_meet_without_overlap() {
    let events = vec![event(4), event(2), event(1), event(3)];
    let first = poll_events(&events, EventCursor { after_sequence: 0, limit: 2 });
    let second = poll_events(&events, EventCursor { after_sequence: 2, limit: 2 });
    let numbers: Vec<u64> = first
        .iter()
        .chain(second.iter())
        .map(|event| event.event_sequence)
        .collect();
    assert_eq!(numbers, vec![1, 2, 3, 4]);
}

#[test]
fn out_of_order_events_name_what_was_expected() {
    assert_eq!(
        validate_append_order(Some(2), &event(4)).unwrap_err(),
        "out-of-order event_sequence 4; expected 3"
    );
    let mut bare = event(1);
    bare.request_hash = "  ".into();
    assert_eq!(bare.validate().unwrap_err(), "request_hash must not be empty");
    let mut zero = event(1);
    zero.event_sequence = 0;
    assert_eq!(zero.validate().unwrap_err(), "event_sequence must start at 1");
    let mut version = event(1);
    version.schema_version = 9;
    assert_eq!(version.validate().unwrap_err(), "unsupported event schema_version");
}

#[test]
fn result_hash_is_that_of_the_payload() {
    assert_eq!(event(1).result_hash, event(2).result_hash);
    let mut other = event(1);
    other.payload = EventPayloadV1::Delta { text: "a \"quoted\" note".into() };
    let other = other.with_result_hash().expect("hash");
    assert_ne!(other.result_hash, event(1).result_hash);
}
