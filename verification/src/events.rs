//! The ordered record of what happens in a run.

use vstd::prelude::*;
use vstd::string::*;
use vstd::seq_lib::*;
use crate::advisor::{AdviceRequestV1, AdviceResponseV1};
use crate::contracts::{
    ApprovalId, ArtifactId, EscalationPacketV1, ItemId, RunId, RunState, ToolCallId, TurnId,
    WorkerSessionId,
};
use crate::hash::{fingerprint, stable_hash};
use crate::json::{
    field, field_text, json_string, object, object_text, optional_number, optional_number_text,
    optional_string, optional_string_text, quoted, string_array, string_array_text,
};
use crate::EXECUTION_CONTRACT_SCHEMA_VERSION;
use crate::sorting::{derefs, lemma_filter_last, lemma_insert_at, lemma_sorted, sorted};
use crate::text::{blank, decimal, is_blank, opt_text, text, texts, to_decimal};

verus! {

/// What an event reports of the thing it is about.
#[derive(Clone, Copy, Debug, PartialEq, Eq, Structural)]
pub enum LifecycleEvent {
    Created,
    Started,
    Delta,
    Completed,
    Failed,
    Cancelled,
    OutcomeUnknown,
}

/// One event of a run.
#[derive(Clone, Debug, PartialEq, Eq)]
pub struct EventEnvelopeV1 {
    pub schema_version: u32,
    pub event_sequence: u64,
    pub run_id: RunId,
    pub worker_session_id: Option<WorkerSessionId>,
    pub turn_id: Option<TurnId>,
    pub item_id: Option<ItemId>,
    pub lifecycle_event: LifecycleEvent,
    pub request_hash: String,
    pub result_hash: Option<String>,
    pub payload: EventPayloadV1,
}

impl EventEnvelopeV1 {
    /// Why an event is refused, if it is.
    pub open spec fn refusal(self) -> Option<Seq<char>> {
        if self.schema_version != EXECUTION_CONTRACT_SCHEMA_VERSION {
            Some("unsupported event schema_version"@)
        } else if self.event_sequence == 0 {
            Some("event_sequence must start at 1"@)
        } else if blank(self.request_hash@) {
            Some("request_hash must not be empty"@)
        } else {
            None
        }
    }

    /// Accepts an event of this schema version with a sequence number and a request
    /// hash.
    pub fn validate(&self) -> (r: Result<(), String>)
        ensures
            match r {
                Ok(_) => self.refusal() is None,
                Err(message) => self.refusal() == Some(message@),
            },
    {
        if self.schema_version != EXECUTION_CONTRACT_SCHEMA_VERSION {
            return Err(text("unsupported event schema_version"));
        }
        if self.event_sequence == 0 {
            return Err(text("event_sequence must start at 1"));
        }
        if is_blank(self.request_hash.as_str()) {
            return Err(text("request_hash must not be empty"));
        }
        Ok(())
    }

    /// The event with the fingerprint of its payload as its result hash.
    pub fn with_result_hash(self) -> (r: Result<Self, String>)
        ensures
            r is Ok,
            r->Ok_0 == (EventEnvelopeV1 { result_hash: r->Ok_0.result_hash, ..self }),
            opt_text(r->Ok_0.result_hash) == Some(fingerprint(self.payload.json())),
    {
        let hash: String = stable_hash(self.payload.to_json().as_str());
        let mut event: EventEnvelopeV1 = self;
        event.result_hash = Some(hash);
        Ok(event)
    }
}

/// What an event carries.
#[derive(Clone, Debug, PartialEq, Eq)]
pub enum EventPayloadV1 {
    RunStateChanged { state: RunState },
    Delta { text: String },
    Item { item: Box<TurnItemV1> },
    AdviceRequest { request: Box<AdviceRequestV1> },
    AdviceResponse { response: Box<AdviceResponseV1> },
    AdvisorEvent {
        event: String,
        request_id: Option<String>,
        generation_id: Option<String>,
        advisor_id: Option<String>,
        status: Option<String>,
        request_bytes: Option<usize>,
        response_bytes: Option<usize>,
        request_hash: Option<String>,
        response_hash: Option<String>,
        selected_source_paths: Vec<String>,
        artifact_reference: Option<String>,
        timestamp_unix_ms: u64,
    },
    Failed { error: String },
    Cancelled { reason: String },
    OutcomeUnknown { reason: String },
}

/// One item of a worker's turn.
#[derive(Clone, Debug, PartialEq, Eq)]
pub enum TurnItemV1 {
    AgentMessage(AgentMessageItem),
    ToolCall(ToolCallItem),
    ApprovalRequest(ApprovalRequestItem),
    ToolResult(ToolResultItem),
    DiffArtifact(DiffArtifact),
    VerificationArtifact(VerificationArtifact),
    EscalationArtifact(EscalationArtifact),
}

/// Something the worker said.
#[derive(Clone, Debug, PartialEq, Eq)]
pub struct AgentMessageItem {
    pub item_id: ItemId,
    pub text: String,
}

/// A tool that the worker called.
#[derive(Clone, Debug, PartialEq, Eq)]
pub struct ToolCallItem {
    pub item_id: ItemId,
    pub tool_call_id: ToolCallId,
    pub tool_name: String,
    pub request_hash: String,
}

/// An approval that the worker asked for.
#[derive(Clone, Debug, PartialEq, Eq)]
pub struct ApprovalRequestItem {
    pub item_id: ItemId,
    pub approval_id: ApprovalId,
    pub request_hash: String,
    pub reason: String,
}

/// What a tool gave back.
#[derive(Clone, Debug, PartialEq, Eq)]
pub struct ToolResultItem {
    pub item_id: ItemId,
    pub tool_call_id: ToolCallId,
    pub result_hash: String,
    pub summary: String,
}

/// A change to the workspace.
#[derive(Clone, Debug, PartialEq, Eq)]
pub struct DiffArtifact {
    pub artifact_id: ArtifactId,
    pub path: String,
    pub summary: String,
}

/// The outcome of a verification.
#[derive(Clone, Debug, PartialEq, Eq)]
pub struct VerificationArtifact {
    pub artifact_id: ArtifactId,
    pub status: String,
    pub summary: String,
}

/// An escalation to the supervisor.
#[derive(Clone, Debug, PartialEq, Eq)]
pub struct EscalationArtifact {
    pub artifact_id: ArtifactId,
    pub packet: EscalationPacketV1,
}

impl AgentMessageItem {
    /// The item's fields, behind the tag that tells it apart.
    pub open spec fn json_fields(self) -> Seq<Seq<char>> {
        seq![
            field("kind"@, "\"agentMessage\""@),
            field("itemId"@, json_string(self.item_id@)),
            field("text"@, json_string(self.text@)),
        ]
    }

    /// The item as compact JSON.
    pub open spec fn json(self) -> Seq<char> {
        object(self.json_fields())
    }

    fn to_json(&self) -> (r: String)
        ensures
            r@ == self.json(),
    {
        let mut fields: Vec<String> = Vec::new();
        fields.push(field_text("kind", "\"agentMessage\""));
        fields.push(field_text("itemId", quoted(self.item_id.as_str()).as_str()));
        fields.push(field_text("text", quoted(self.text.as_str()).as_str()));
        assert(texts(fields@) =~= self.json_fields());
        object_text(&fields)
    }
}

impl ToolCallItem {
    /// The item's fields, behind the tag that tells it apart.
    pub open spec fn json_fields(self) -> Seq<Seq<char>> {
        seq![
            field("kind"@, "\"toolCall\""@),
            field("itemId"@, json_string(self.item_id@)),
            field("toolCallId"@, json_string(self.tool_call_id@)),
            field("toolName"@, json_string(self.tool_name@)),
            field("requestHash"@, json_string(self.request_hash@)),
        ]
    }

    /// The item as compact JSON.
    pub open spec fn json(self) -> Seq<char> {
        object(self.json_fields())
    }

    fn to_json(&self) -> (r: String)
        ensures
            r@ == self.json(),
    {
        let mut fields: Vec<String> = Vec::new();
        fields.push(field_text("kind", "\"toolCall\""));
        fields.push(field_text("itemId", quoted(self.item_id.as_str()).as_str()));
        fields.push(field_text("toolCallId", quoted(self.tool_call_id.as_str()).as_str()));
        fields.push(field_text("toolName", quoted(self.tool_name.as_str()).as_str()));
        fields.push(field_text("requestHash", quoted(self.request_hash.as_str()).as_str()));
        assert(texts(fields@) =~= self.json_fields());
        object_text(&fields)
    }
}

impl ApprovalRequestItem {
    /// The item's fields, behind the tag that tells it apart.
    pub open spec fn json_fields(self) -> Seq<Seq<char>> {
        seq![
            field("kind"@, "\"approvalRequest\""@),
            field("itemId"@, json_string(self.item_id@)),
            field("approvalId"@, json_string(self.approval_id@)),
            field("requestHash"@, json_string(self.request_hash@)),
            field("reason"@, json_string(self.reason@)),
        ]
    }

    /// The item as compact JSON.
    pub open spec fn json(self) -> Seq<char> {
        object(self.json_fields())
    }

    fn to_json(&self) -> (r: String)
        ensures
            r@ == self.json(),
    {
        let mut fields: Vec<String> = Vec::new();
        fields.push(field_text("kind", "\"approvalRequest\""));
        fields.push(field_text("itemId", quoted(self.item_id.as_str()).as_str()));
        fields.push(field_text("approvalId", quoted(self.approval_id.as_str()).as_str()));
        fields.push(field_text("requestHash", quoted(self.request_hash.as_str()).as_str()));
        fields.push(field_text("reason", quoted(self.reason.as_str()).as_str()));
        assert(texts(fields@) =~= self.json_fields());
        object_text(&fields)
    }
}

impl ToolResultItem {
    /// The item's fields, behind the tag that tells it apart.
    pub open spec fn json_fields(self) -> Seq<Seq<char>> {
        seq![
            field("kind"@, "\"toolResult\""@),
            field("itemId"@, json_string(self.item_id@)),
            field("toolCallId"@, json_string(self.tool_call_id@)),
            field("resultHash"@, json_string(self.result_hash@)),
            field("summary"@, json_string(self.summary@)),
        ]
    }

    /// The item as compact JSON.
    pub open spec fn json(self) -> Seq<char> {
        object(self.json_fields())
    }

    fn to_json(&self) -> (r: String)
        ensures
            r@ == self.json(),
    {
        let mut fields: Vec<String> = Vec::new();
        fields.push(field_text("kind", "\"toolResult\""));
        fields.push(field_text("itemId", quoted(self.item_id.as_str()).as_str()));
        fields.push(field_text("toolCallId", quoted(self.tool_call_id.as_str()).as_str()));
        fields.push(field_text("resultHash", quoted(self.result_hash.as_str()).as_str()));
        fields.push(field_text("summary", quoted(self.summary.as_str()).as_str()));
        assert(texts(fields@) =~= self.json_fields());
        object_text(&fields)
    }
}

impl DiffArtifact {
    /// The item's fields, behind the tag that tells it apart.
    pub open spec fn json_fields(self) -> Seq<Seq<char>> {
        seq![
            field("kind"@, "\"diffArtifact\""@),
            field("artifactId"@, json_string(self.artifact_id@)),
            field("path"@, json_string(self.path@)),
            field("summary"@, json_string(self.summary@)),
        ]
    }

    /// The item as compact JSON.
    pub open spec fn json(self) -> Seq<char> {
        object(self.json_fields())
    }

    fn to_json(&self) -> (r: String)
        ensures
            r@ == self.json(),
    {
        let mut fields: Vec<String> = Vec::new();
        fields.push(field_text("kind", "\"diffArtifact\""));
        fields.push(field_text("artifactId", quoted(self.artifact_id.as_str()).as_str()));
        fields.push(field_text("path", quoted(self.path.as_str()).as_str()));
        fields.push(field_text("summary", quoted(self.summary.as_str()).as_str()));
        assert(texts(fields@) =~= self.json_fields());
        object_text(&fields)
    }
}

impl VerificationArtifact {
    /// The item's fields, behind the tag that tells it apart.
    pub open spec fn json_fields(self) -> Seq<Seq<char>> {
        seq![
            field("kind"@, "\"verificationArtifact\""@),
            field("artifactId"@, json_string(self.artifact_id@)),
            field("status"@, json_string(self.status@)),
            field("summary"@, json_string(self.summary@)),
        ]
    }

    /// The item as compact JSON.
    pub open spec fn json(self) -> Seq<char> {
        object(self.json_fields())
    }

    fn to_json(&self) -> (r: String)
        ensures
            r@ == self.json(),
    {
        let mut fields: Vec<String> = Vec::new();
        fields.push(field_text("kind", "\"verificationArtifact\""));
        fields.push(field_text("artifactId", quoted(self.artifact_id.as_str()).as_str()));
        fields.push(field_text("status", quoted(self.status.as_str()).as_str()));
        fields.push(field_text("summary", quoted(self.summary.as_str()).as_str()));
        assert(texts(fields@) =~= self.json_fields());
        object_text(&fields)
    }
}

impl EscalationArtifact {
    /// The item's fields, behind the tag that tells it apart.
    pub open spec fn json_fields(self) -> Seq<Seq<char>> {
        seq![
            field("kind"@, "\"escalationArtifact\""@),
            field("artifactId"@, json_string(self.artifact_id@)),
            field("packet"@, self.packet.json()),
        ]
    }

    /// The item as compact JSON.
    pub open spec fn json(self) -> Seq<char> {
        object(self.json_fields())
    }

    fn to_json(&self) -> (r: String)
        ensures
            r@ == self.json(),
    {
        let mut fields: Vec<String> = Vec::new();
        fields.push(field_text("kind", "\"escalationArtifact\""));
        fields.push(field_text("artifactId", quoted(self.artifact_id.as_str()).as_str()));
        fields.push(field_text("packet", self.packet.to_json().as_str()));
        assert(texts(fields@) =~= self.json_fields());
        object_text(&fields)
    }
}

impl TurnItemV1 {
    /// The item as compact JSON.
    pub open spec fn json(self) -> Seq<char> {
        match self {
            TurnItemV1::AgentMessage(item) => item.json(),
            TurnItemV1::ToolCall(item) => item.json(),
            TurnItemV1::ApprovalRequest(item) => item.json(),
            TurnItemV1::ToolResult(item) => item.json(),
            TurnItemV1::DiffArtifact(item) => item.json(),
            TurnItemV1::VerificationArtifact(item) => item.json(),
            TurnItemV1::EscalationArtifact(item) => item.json(),
        }
    }

    /// Prints the item as compact JSON.
    pub fn to_json(&self) -> (r: String)
        ensures
            r@ == self.json(),
    {
        match self {
            TurnItemV1::AgentMessage(item) => item.to_json(),
            TurnItemV1::ToolCall(item) => item.to_json(),
            TurnItemV1::ApprovalRequest(item) => item.to_json(),
            TurnItemV1::ToolResult(item) => item.to_json(),
            TurnItemV1::DiffArtifact(item) => item.to_json(),
            TurnItemV1::VerificationArtifact(item) => item.to_json(),
            TurnItemV1::EscalationArtifact(item) => item.to_json(),
        }
    }
}

impl EventPayloadV1 {
    /// The payload's fields, behind the tag that tells it apart.
    pub open spec fn json_fields(self) -> Seq<Seq<char>> {
        match self {
            EventPayloadV1::RunStateChanged { state } => seq![
                field("kind"@, "\"runStateChanged\""@),
                field("state"@, state.json()),
            ],
            EventPayloadV1::Delta { text } => seq![
                field("kind"@, "\"delta\""@),
                field("text"@, json_string(text@)),
            ],
            EventPayloadV1::Item { item } => seq![
                field("kind"@, "\"item\""@),
                field("item"@, item.json()),
            ],
            EventPayloadV1::AdviceRequest { request } => seq![
                field("kind"@, "\"adviceRequest\""@),
                field("request"@, request.json()),
            ],
            EventPayloadV1::AdviceResponse { response } => seq![
                field("kind"@, "\"adviceResponse\""@),
                field("response"@, response.json()),
            ],
            EventPayloadV1::AdvisorEvent {
                event,
                request_id,
                generation_id,
                advisor_id,
                status,
                request_bytes,
                response_bytes,
                request_hash,
                response_hash,
                selected_source_paths,
                artifact_reference,
                timestamp_unix_ms,
            } => seq![
                field("kind"@, "\"advisorEvent\""@),
                field("event"@, json_string(event@)),
                field("request_id"@, optional_string(opt_text(request_id))),
                field("generation_id"@, optional_string(opt_text(generation_id))),
                field("advisor_id"@, optional_string(opt_text(advisor_id))),
                field("status"@, optional_string(opt_text(status))),
                field("request_bytes"@, optional_number(request_bytes)),
                field("response_bytes"@, optional_number(response_bytes)),
                field("request_hash"@, optional_string(opt_text(request_hash))),
                field("response_hash"@, optional_string(opt_text(response_hash))),
                field("selected_source_paths"@, string_array(texts(selected_source_paths@))),
                field("artifact_reference"@, optional_string(opt_text(artifact_reference))),
                field("timestamp_unix_ms"@, decimal(timestamp_unix_ms as nat)),
            ],
            EventPayloadV1::Failed { error } => seq![
                field("kind"@, "\"failed\""@),
                field("error"@, json_string(error@)),
            ],
            EventPayloadV1::Cancelled { reason } => seq![
                field("kind"@, "\"cancelled\""@),
                field("reason"@, json_string(reason@)),
            ],
            EventPayloadV1::OutcomeUnknown { reason } => seq![
                field("kind"@, "\"outcomeUnknown\""@),
                field("reason"@, json_string(reason@)),
            ],
        }
    }

    /// The payload as compact JSON.
    pub open spec fn json(self) -> Seq<char> {
        object(self.json_fields())
    }

    /// Prints the payload as compact JSON.
    pub fn to_json(&self) -> (r: String)
        ensures
            r@ == self.json(),
    {
        let mut fields: Vec<String> = Vec::new();
        match self {
            EventPayloadV1::RunStateChanged { state } => {
                fields.push(field_text("kind", "\"runStateChanged\""));
                fields.push(field_text("state", state.to_json().as_str()));
            },
            EventPayloadV1::Delta { text } => {
                fields.push(field_text("kind", "\"delta\""));
                fields.push(field_text("text", quoted(text.as_str()).as_str()));
            },
            EventPayloadV1::Item { item } => {
                fields.push(field_text("kind", "\"item\""));
                fields.push(field_text("item", item.to_json().as_str()));
            },
            EventPayloadV1::AdviceRequest { request } => {
                fields.push(field_text("kind", "\"adviceRequest\""));
                fields.push(field_text("request", request.to_json().as_str()));
            },
            EventPayloadV1::AdviceResponse { response } => {
                fields.push(field_text("kind", "\"adviceResponse\""));
                fields.push(field_text("response", response.to_json().as_str()));
            },
            EventPayloadV1::AdvisorEvent {
                event,
                request_id,
                generation_id,
                advisor_id,
                status,
                request_bytes,
                response_bytes,
                request_hash,
                response_hash,
                selected_source_paths,
                artifact_reference,
                timestamp_unix_ms,
            } => {
                fields.push(field_text("kind", "\"advisorEvent\""));
                fields.push(field_text("event", quoted(event.as_str()).as_str()));
                fields.push(field_text("request_id", optional_string_text(request_id).as_str()));
                fields.push(field_text("generation_id", optional_string_text(generation_id).as_str()));
                fields.push(field_text("advisor_id", optional_string_text(advisor_id).as_str()));
                fields.push(field_text("status", optional_string_text(status).as_str()));
                fields.push(field_text("request_bytes", optional_number_text(*request_bytes).as_str()));
                fields.push(field_text("response_bytes", optional_number_text(*response_bytes).as_str()));
                fields.push(field_text("request_hash", optional_string_text(request_hash).as_str()));
                fields.push(field_text("response_hash", optional_string_text(response_hash).as_str()));
                fields.push(field_text("selected_source_paths", string_array_text(selected_source_paths).as_str()));
                fields.push(field_text("artifact_reference", optional_string_text(artifact_reference).as_str()));
                fields.push(field_text("timestamp_unix_ms", to_decimal(*timestamp_unix_ms as u64).as_str()));
            },
            EventPayloadV1::Failed { error } => {
                fields.push(field_text("kind", "\"failed\""));
                fields.push(field_text("error", quoted(error.as_str()).as_str()));
            },
            EventPayloadV1::Cancelled { reason } => {
                fields.push(field_text("kind", "\"cancelled\""));
                fields.push(field_text("reason", quoted(reason.as_str()).as_str()));
            },
            EventPayloadV1::OutcomeUnknown { reason } => {
                fields.push(field_text("kind", "\"outcomeUnknown\""));
                fields.push(field_text("reason", quoted(reason.as_str()).as_str()));
            },
        }
        assert(texts(fields@) =~= self.json_fields());
        object_text(&fields)
    }
}

/// Where a reader of events stands, and how many it takes at once.
#[derive(Clone, Copy, Debug, PartialEq, Eq)]
pub struct EventCursor {
    pub after_sequence: u64,
    pub limit: usize,
}

/// The sequence number that comes next.
pub open spec fn next_sequence(last_sequence: Option<u64>) -> u64 {
    let last = match last_sequence {
        Some(n) => n,
        None => 0,
    };
    if last == u64::MAX {
        last
    } else {
        (last + 1) as u64
    }
}

/// Why an event cannot be appended behind the last one, if it cannot.
pub open spec fn append_refusal(last_sequence: Option<u64>, event: EventEnvelopeV1) -> Option<
    Seq<char>,
> {
    if event.refusal() is Some {
        event.refusal()
    } else if event.event_sequence != next_sequence(last_sequence) {
        Some(
            "out-of-order event_sequence "@ + decimal(event.event_sequence as nat) + "; expected "@
                + decimal(next_sequence(last_sequence) as nat),
        )
    } else {
        None
    }
}

/// Accepts the event that comes directly behind the last one.
pub fn validate_append_order(last_sequence: Option<u64>, event: &EventEnvelopeV1) -> (r: Result<
    (),
    String,
>)
    ensures
        match r {
            Ok(_) => append_refusal(last_sequence, *event) is None,
            Err(message) => append_refusal(last_sequence, *event) == Some(message@),
        },
{
    event.validate()?;
    let expected: u64 = last_sequence.unwrap_or(0).saturating_add(1);
    if event.event_sequence != expected {
        let found: String = to_decimal(event.event_sequence);
        let wanted: String = to_decimal(expected);
        return Err(
            text("out-of-order event_sequence ").concat(found.as_str()).concat(
                "; expected ",
            ).concat(wanted.as_str()),
        );
    }
    Ok(())
}

/// Events by their sequence number.
pub open spec fn sequence_less() -> spec_fn(EventEnvelopeV1, EventEnvelopeV1) -> bool {
    |a: EventEnvelopeV1, b: EventEnvelopeV1| a.event_sequence < b.event_sequence
}

/// The events behind a sequence number.
pub open spec fn is_behind(after_sequence: u64) -> spec_fn(EventEnvelopeV1) -> bool {
    |e: EventEnvelopeV1| e.event_sequence > after_sequence
}

/// The first `limit` events behind the cursor, by sequence number.
pub open spec fn page(events: Seq<EventEnvelopeV1>, cursor: EventCursor) -> Seq<EventEnvelopeV1> {
    let all = sorted(events.filter(is_behind(cursor.after_sequence)), sequence_less());
    if all.len() <= cursor.limit {
        all
    } else {
        all.take(cursor.limit as int)
    }
}

/// Reads the next page of events.
pub fn poll_events<'a>(events: &'a Vec<EventEnvelopeV1>, cursor: EventCursor) -> (r: Vec<
    &'a EventEnvelopeV1,
>)
    ensures
        derefs(r@) == page(events@, cursor),
{
    let mut found: Vec<&'a EventEnvelopeV1> = Vec::new();
    let ghost keep = is_behind(cursor.after_sequence);
    let ghost less = sequence_less();
    let mut i: usize = 0;
    proof {
        reveal(Seq::filter);
        assert(derefs(found@) =~= sorted(events@.take(0).filter(keep), less));
    }
    while i < events.len()
        invariant
            i <= events@.len(),
            keep == is_behind(cursor.after_sequence),
            less == sequence_less(),
            derefs(found@) == sorted(events@.take(i as int).filter(keep), less),
        decreases events@.len() - i,
    {
        let event: &'a EventEnvelopeV1 = &events[i];
        let ghost so_far = events@.take(i + 1);
        proof {
            lemma_filter_last(so_far, keep);
            assert(so_far.drop_last() =~= events@.take(i as int));
        }
        if event.event_sequence > cursor.after_sequence {
            let mut at: usize = found.len();
            while at > 0 && event.event_sequence < found[at - 1].event_sequence
                invariant
                    at <= found@.len(),
                    less == sequence_less(),
                    forall|k: int|
                        at <= k < found@.len() ==> less(*event, #[trigger] derefs(found@)[k]),
                decreases at,
            {
                at -= 1;
            }
            let ghost prior = found@;
            proof {
                lemma_insert_at(derefs(prior), *event, less, at as int);
                assert(so_far.filter(keep).drop_last() =~= events@.take(i as int).filter(keep));
            }
            found.insert(at, event);
            assert(derefs(found@) =~= derefs(prior).insert(at as int, *event));
        }
        i += 1;
    }
    assert(events@.take(events@.len() as int) =~= events@);
    if found.len() > cursor.limit {
        let ghost all = found@;
        found.truncate(cursor.limit);
        assert(derefs(found@) =~= derefs(all).take(cursor.limit as int));
    }
    found
}

/// A page is ordered by sequence number, holds only events behind the cursor, and is
/// no longer than the limit.
pub proof fn lemma_page_is_ordered(events: Seq<EventEnvelopeV1>, cursor: EventCursor)
    ensures
        page(events, cursor).len() <= cursor.limit,
        forall|i: int, j: int|
            0 <= i < j < page(events, cursor).len() ==> (#[trigger] page(
                events,
                cursor,
            )[i]).event_sequence <= (#[trigger] page(events, cursor)[j]).event_sequence,
        forall|i: int|
            0 <= i < page(events, cursor).len() ==> (#[trigger] page(
                events,
                cursor,
            )[i]).event_sequence > cursor.after_sequence,
        forall|i: int|
            0 <= i < page(events, cursor).len() ==> events.contains(
                #[trigger] page(events, cursor)[i],
            ),
{
    broadcast use group_to_multiset_ensures;

    let keep = is_behind(cursor.after_sequence);
    let chosen = events.filter(keep);
    let less = sequence_less();
    let all = sorted(chosen, less);
    lemma_sorted(chosen, less);
    let p = page(events, cursor);
    assert forall|i: int, j: int| 0 <= i < j < p.len() implies (#[trigger] p[i]).event_sequence <= (
    #[trigger] p[j]).event_sequence by {
        assert(!less(all[j], all[i]));
    }
    assert forall|i: int| 0 <= i < p.len() implies (#[trigger] p[i]).event_sequence
        > cursor.after_sequence && events.contains(p[i]) by {
        assert(all.contains(all[i]));
        assert(all.to_multiset().count(all[i]) > 0);
        assert(chosen.to_multiset().count(all[i]) > 0);
        assert(chosen.contains(all[i]));
        let k = choose|k: int| 0 <= k < chosen.len() && chosen[k] == all[i];
        events.lemma_filter_pred(keep, k);
        events.lemma_filter_contains_rev(keep, all[i]);
    }
}

/// Reading on from the last event of a page that was cut short gives the next events:
/// an event that was read is not read again.
pub proof fn lemma_pages_do_not_overlap(
    events: Seq<EventEnvelopeV1>,
    cursor: EventCursor,
    i: int,
    j: int,
)
    requires
        0 <= i < page(events, cursor).len(),
        0 <= j < page(
            events,
            (EventCursor { after_sequence: page(events, cursor).last().event_sequence, ..cursor }),
        ).len(),
    ensures
        page(events, cursor)[i].event_sequence < page(
            events,
            (EventCursor { after_sequence: page(events, cursor).last().event_sequence, ..cursor }),
        )[j].event_sequence,
{
    let last = page(events, cursor).last().event_sequence;
    lemma_page_is_ordered(events, cursor);
    lemma_page_is_ordered(events, (EventCursor { after_sequence: last, ..cursor }));
    assert(page(events, cursor)[i].event_sequence <= last) by {
        if i < page(events, cursor).len() - 1 {
            assert(page(events, cursor)[i].event_sequence <= page(events, cursor)[page(
                events,
                cursor,
            ).len() - 1].event_sequence);
        }
    }
}

} // verus!
