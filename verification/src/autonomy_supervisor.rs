//! The operations by which autonomous sessions are supervised from outside.
//!
//! Every change names the version of the state that it was decided on and a key that
//! makes it safe to ask twice. Nothing here selects a program or reads a credential.

use vstd::prelude::*;
use vstd::string::*;
use crate::autonomous_contract::{
    AutonomousDevelopmentContractV1, AutonomyLeaseV1, ResolvedPath, autonomous_refusal,
    components, enforced_paths, engine_refusal, is_slug, validate_slug,
};
use crate::autonomy_state::{
    AUTONOMY_STATE_SCHEMA_VERSION, AutonomousEventV1, AutonomousQueueTaskStateV1,
    AutonomousQueueTaskV1, AutonomousQueueV1, AutonomousSessionSnapshotV1,
    AutonomousSessionStateV1, AutonomousStateStoreV1, AutonomyStateError, SessionRecordV1,
    dependencies_refusal, event_refusal, events_behind, is_event, is_logged, is_new_snapshot,
    tasks_refusal,
};
use crate::hash::fingerprint;
use crate::json::{
    JsonValue, JsonView, array, array_text, as_number, as_text, field, field_text, json_string,
    member, number_in, object, object_text, quoted, text_in, truth, truth_text,
};
use crate::text::{
    blank, byte_len, chars_of, decimal, is_alnum, is_blank, is_white, lemma_ascii_utf8_len,
    opt_text, plus, replace_char, same, same_list, text, texts, to_decimal, utf8_len,
    with_replaced,
};

verus! {

/// The names of the operations.
pub const AUTONOMY_MCP_TOOL_NAMES: [&'static str; 18] = [
    "autonomy_contract_create",
    "autonomy_contract_validate",
    "autonomy_contract_approve",
    "autonomy_session_start",
    "autonomy_session_status",
    "autonomy_session_events",
    "autonomy_session_reply",
    "autonomy_session_pause",
    "autonomy_session_resume",
    "autonomy_session_cancel",
    "autonomy_session_renew_lease",
    "autonomy_session_get_checkpoint",
    "autonomy_session_get_diff",
    "autonomy_session_get_escalation",
    "autonomy_session_get_final_review",
    "autonomy_session_list",
    "provider_status",
    "autonomy_queue_status",
];

/// The names of the operations.
pub open spec fn tool_names() -> Seq<Seq<char>> {
    AUTONOMY_MCP_TOOL_NAMES@.map_values(|name: &'static str| name@)
}

/// Whether an operation has this name.
pub fn is_autonomy_mcp_tool(name: &str) -> (r: bool)
    ensures
        r == tool_names().contains(name@),
{
    let mut i: usize = 0;
    while i < 18
        invariant
            i <= 18,
            tool_names().len() == 18,
            forall|j: int| 0 <= j < i ==> tool_names()[j] != name@,
        decreases 18 - i,
    {
        if same(AUTONOMY_MCP_TOOL_NAMES[i], name) {
            assert(tool_names()[i as int] == name@);
            return true;
        }
        i += 1;
    }
    false
}

/// The operation changes nothing.
pub open spec fn is_read_only(name: Seq<char>) -> bool {
    ||| name == "autonomy_contract_validate"@
    ||| name == "autonomy_session_status"@
    ||| name == "autonomy_session_events"@
    ||| name == "autonomy_session_get_checkpoint"@
    ||| name == "autonomy_session_get_diff"@
    ||| name == "autonomy_session_get_escalation"@
    ||| name == "autonomy_session_get_final_review"@
    ||| name == "autonomy_session_list"@
    ||| name == "provider_status"@
    ||| name == "autonomy_queue_status"@
}

fn read_only(name: &str) -> (r: bool)
    ensures
        r == is_read_only(name@),
{
    same(name, "autonomy_contract_validate") || same(name, "autonomy_session_status") || same(
        name,
        "autonomy_session_events",
    ) || same(name, "autonomy_session_get_checkpoint") || same(name, "autonomy_session_get_diff")
        || same(name, "autonomy_session_get_escalation") || same(
        name,
        "autonomy_session_get_final_review",
    ) || same(name, "autonomy_session_list") || same(name, "provider_status") || same(
        name,
        "autonomy_queue_status",
    )
}

/// What every operation takes, as a JSON schema.
pub const INPUT_SCHEMA: &'static str = "{\"properties\":{\"afterSequence\":{\"minimum\":0,\"type\":\"integer\"},\"approvalId\":{\"pattern\":\"^[A-Za-z0-9_-]{1,128}$\",\"type\":\"string\"},\"constraints\":{\"items\":{\"maxLength\":512,\"type\":\"string\"},\"maxItems\":20,\"type\":\"array\"},\"contract\":{\"type\":\"object\"},\"decision\":{\"maxLength\":4000,\"minLength\":1,\"type\":\"string\"},\"decisionHash\":{\"maxLength\":256,\"minLength\":1,\"type\":\"string\"},\"expectedStateVersion\":{\"minimum\":0,\"type\":\"integer\"},\"idempotencyKey\":{\"pattern\":\"^[A-Za-z0-9_-]{1,128}$\",\"type\":\"string\"},\"limit\":{\"maximum\":100,\"minimum\":1,\"type\":\"integer\"},\"maxBytes\":{\"maximum\":24000,\"minimum\":1,\"type\":\"integer\"},\"newExpiryUnix\":{\"minimum\":1,\"type\":\"integer\"},\"sessionId\":{\"pattern\":\"^[A-Za-z0-9_-]{1,128}$\",\"type\":\"string\"}},\"type\":\"object\"}";

/// What is said of every operation.
pub const TOOL_DESCRIPTION: &'static str = "CatDesk autonomous-development control-plane operation. Operator executable and authentication configuration are never accepted through MCP.";

/// How an operation is described to its callers, as JSON.
pub open spec fn schema_of(name: Seq<char>) -> Seq<char> {
    object(
        seq![
            field(
                "annotations"@,
                object(
                    seq![
                        field("destructiveHint"@, truth(name == "autonomy_session_cancel"@)),
                        field("openWorldHint"@, truth(false)),
                        field("readOnlyHint"@, truth(is_read_only(name))),
                    ],
                ),
            ),
            field("description"@, json_string(TOOL_DESCRIPTION@)),
            field("inputSchema"@, INPUT_SCHEMA@),
            field("name"@, json_string(name)),
            field("title"@, json_string(with_replaced(name, '_', ' '))),
        ],
    )
}

fn schema(name: &str) -> (r: String)
    ensures
        r@ == schema_of(name@),
{
    let hints: Vec<String> = vec![
        field_text("destructiveHint", truth_text(same(name, "autonomy_session_cancel")).as_str()),
        field_text("openWorldHint", truth_text(false).as_str()),
        field_text("readOnlyHint", truth_text(read_only(name)).as_str()),
    ];
    assert(texts(hints@) =~= seq![
        field("destructiveHint"@, truth(name@ == "autonomy_session_cancel"@)),
        field("openWorldHint"@, truth(false)),
        field("readOnlyHint"@, truth(is_read_only(name@))),
    ]);
    let fields: Vec<String> = vec![
        field_text("annotations", object_text(&hints).as_str()),
        field_text("description", quoted(TOOL_DESCRIPTION).as_str()),
        field_text("inputSchema", INPUT_SCHEMA),
        field_text("name", quoted(name).as_str()),
        field_text("title", quoted(replace_char(name, '_', ' ').as_str()).as_str()),
    ];
    assert(texts(fields@) =~= seq![
        field("annotations"@, object(texts(hints@))),
        field("description"@, json_string(TOOL_DESCRIPTION@)),
        field("inputSchema"@, INPUT_SCHEMA@),
        field("name"@, json_string(name@)),
        field("title"@, json_string(with_replaced(name@, '_', ' '))),
    ]);
    object_text(&fields)
}

/// How the operations are described to their callers, each as JSON.
pub fn tool_schemas() -> (r: Vec<String>)
    ensures
        texts(r@) == tool_names().map_values(|name: Seq<char>| schema_of(name)),
{
    let ghost all = tool_names().map_values(|name: Seq<char>| schema_of(name));
    let mut r: Vec<String> = Vec::new();
    let mut i: usize = 0;
    while i < 18
        invariant
            i <= 18,
            tool_names().len() == 18,
            all == tool_names().map_values(|name: Seq<char>| schema_of(name)),
            texts(r@) == all.take(i as int),
        decreases 18 - i,
    {
        let ghost prior = texts(r@);
        r.push(schema(AUTONOMY_MCP_TOOL_NAMES[i]));
        i += 1;
        assert(texts(r@) =~= prior.push(all[i - 1]));
        assert(all.take(i as int) =~= all.take(i - 1).push(all[i - 1]));
    }
    assert(all.take(i as int) =~= all);
    r
}

// ---------------------------------------------------------------------------
// What is asked for

/// What is asked for.
#[derive(Debug)]
pub enum SupervisorRequestV1 {
    CreateContract,
    ValidateContract(String),
    Approve { session_id: String, expected: u64, key: String, decision_hash: String },
    Start { session_id: String, expected: u64, key: String },
    Status(String),
    Events { session_id: String, after: u64, limit: u64, max_bytes: u64 },
    Pause { session_id: String, expected: u64, key: String },
    Resume { session_id: String, expected: u64, key: String },
    Cancel { session_id: String, expected: u64, key: String },
    RenewLease { session_id: String, expected: u64, key: String, new_expiry: u64 },
    Escalation(String),
    Artifact,
    Reply { session_id: String, expected: u64, key: String, decision_hash: String },
    List,
    Queue(String),
    ProviderStatus,
}

/// What is asked for, as values.
pub ghost enum RequestView {
    CreateContract,
    ValidateContract(Seq<char>),
    Approve { session_id: Seq<char>, expected: u64, key: Seq<char>, decision_hash: Seq<char> },
    Start { session_id: Seq<char>, expected: u64, key: Seq<char> },
    Status(Seq<char>),
    Events { session_id: Seq<char>, after: u64, limit: u64, max_bytes: u64 },
    Pause { session_id: Seq<char>, expected: u64, key: Seq<char> },
    Resume { session_id: Seq<char>, expected: u64, key: Seq<char> },
    Cancel { session_id: Seq<char>, expected: u64, key: Seq<char> },
    RenewLease { session_id: Seq<char>, expected: u64, key: Seq<char>, new_expiry: u64 },
    Escalation(Seq<char>),
    Artifact,
    Reply { session_id: Seq<char>, expected: u64, key: Seq<char>, decision_hash: Seq<char> },
    List,
    Queue(Seq<char>),
    ProviderStatus,
}

impl View for SupervisorRequestV1 {
    type V = RequestView;

    open spec fn view(&self) -> RequestView {
        match *self {
            SupervisorRequestV1::CreateContract => RequestView::CreateContract,
            SupervisorRequestV1::ValidateContract(s) => RequestView::ValidateContract(s@),
            SupervisorRequestV1::Approve { session_id, expected, key, decision_hash } => {
                RequestView::Approve {
                    session_id: session_id@,
                    expected,
                    key: key@,
                    decision_hash: decision_hash@,
                }
            },
            SupervisorRequestV1::Start { session_id, expected, key } => RequestView::Start {
                session_id: session_id@,
                expected,
                key: key@,
            },
            SupervisorRequestV1::Status(s) => RequestView::Status(s@),
            SupervisorRequestV1::Events { session_id, after, limit, max_bytes } => {
                RequestView::Events { session_id: session_id@, after, limit, max_bytes }
            },
            SupervisorRequestV1::Pause { session_id, expected, key } => RequestView::Pause {
                session_id: session_id@,
                expected,
                key: key@,
            },
            SupervisorRequestV1::Resume { session_id, expected, key } => RequestView::Resume {
                session_id: session_id@,
                expected,
                key: key@,
            },
            SupervisorRequestV1::Cancel { session_id, expected, key } => RequestView::Cancel {
                session_id: session_id@,
                expected,
                key: key@,
            },
            SupervisorRequestV1::RenewLease { session_id, expected, key, new_expiry } => {
                RequestView::RenewLease { session_id: session_id@, expected, key: key@, new_expiry }
            },
            SupervisorRequestV1::Escalation(s) => RequestView::Escalation(s@),
            SupervisorRequestV1::Artifact => RequestView::Artifact,
            SupervisorRequestV1::Reply { session_id, expected, key, decision_hash } => {
                RequestView::Reply {
                    session_id: session_id@,
                    expected,
                    key: key@,
                    decision_hash: decision_hash@,
                }
            },
            SupervisorRequestV1::List => RequestView::List,
            SupervisorRequestV1::Queue(s) => RequestView::Queue(s@),
            SupervisorRequestV1::ProviderStatus => RequestView::ProviderStatus,
        }
    }
}

/// A text that must be there and must not be empty.
pub open spec fn need_text(args: JsonView, name: Seq<char>) -> Result<Seq<char>, Seq<char>> {
    if member(args, name) is None {
        Err(name + " is required"@)
    } else {
        match as_text(member(args, name)) {
            Some(t) => if t.len() > 0 {
                Ok(t)
            } else {
                Err(name + " must be a non-empty string"@)
            },
            None => Err(name + " must be a non-empty string"@),
        }
    }
}

/// A number that must be there.
pub open spec fn need_number(args: JsonView, name: Seq<char>) -> Result<u64, Seq<char>> {
    if member(args, name) is None {
        Err(name + " is required"@)
    } else {
        match as_number(member(args, name)) {
            Some(n) => Ok(n),
            None => Err(name + " must be an integer"@),
        }
    }
}

/// The session that is meant.
pub open spec fn need_session(args: JsonView) -> Result<Seq<char>, Seq<char>> {
    match need_text(args, "sessionId"@) {
        Ok(id) => if is_slug(id) {
            Ok(id)
        } else {
            Err("sessionId is invalid"@)
        },
        Err(e) => Err(e),
    }
}

/// The session, the version of its state and the key of a change.
pub open spec fn need_change(args: JsonView) -> Result<(Seq<char>, u64, Seq<char>), Seq<char>> {
    match need_session(args) {
        Ok(id) => match need_number(args, "expectedStateVersion"@) {
            Ok(expected) => match need_text(args, "idempotencyKey"@) {
                Ok(key) => Ok((id, expected, key)),
                Err(e) => Err(e),
            },
            Err(e) => Err(e),
        },
        Err(e) => Err(e),
    }
}

fn required_text(args: &JsonValue, name: &str) -> (r: Result<String, String>)
    ensures
        match r {
            Ok(t) => need_text(args@, name@) == Ok::<Seq<char>, Seq<char>>(t@),
            Err(e) => need_text(args@, name@) == Err::<Seq<char>, Seq<char>>(e@),
        },
{
    let found: Option<String> = args.get(name);
    if found.is_none() {
        return Err(plus(name, " is required"));
    }
    match text_in(&found) {
        Some(t) => if chars_of(t.as_str()).len() > 0 {
            Ok(t)
        } else {
            Err(plus(name, " must be a non-empty string"))
        },
        None => Err(plus(name, " must be a non-empty string")),
    }
}

fn required_number(args: &JsonValue, name: &str) -> (r: Result<u64, String>)
    ensures
        match r {
            Ok(n) => need_number(args@, name@) == Ok::<u64, Seq<char>>(n),
            Err(e) => need_number(args@, name@) == Err::<u64, Seq<char>>(e@),
        },
{
    let found: Option<String> = args.get(name);
    if found.is_none() {
        return Err(plus(name, " is required"));
    }
    match number_in(&found) {
        Some(n) => Ok(n),
        None => Err(plus(name, " must be an integer")),
    }
}

fn required_session(args: &JsonValue) -> (r: Result<String, String>)
    ensures
        match r {
            Ok(t) => need_session(args@) == Ok::<Seq<char>, Seq<char>>(t@),
            Err(e) => need_session(args@) == Err::<Seq<char>, Seq<char>>(e@),
        },
{
    let id: String = required_text(args, "sessionId")?;
    if validate_slug(id.as_str(), "sessionId").is_ok() {
        Ok(id)
    } else {
        Err(text("sessionId is invalid"))
    }
}

fn required_change(args: &JsonValue) -> (r: Result<(String, u64, String), String>)
    ensures
        match r {
            Ok(c) => need_change(args@) == Ok::<(Seq<char>, u64, Seq<char>), Seq<char>>(
                (c.0@, c.1, c.2@),
            ),
            Err(e) => need_change(args@) == Err::<(Seq<char>, u64, Seq<char>), Seq<char>>(e@),
        },
{
    let session_id: String = required_session(args)?;
    let expected: u64 = required_number(args, "expectedStateVersion")?;
    let key: String = required_text(args, "idempotencyKey")?;
    Ok((session_id, expected, key))
}

/// A number, or another where there is none, and at most a bound.
pub open spec fn number_or(args: JsonView, name: Seq<char>, other: u64, bound: u64) -> u64 {
    let n = match as_number(member(args, name)) {
        Some(n) => n,
        None => other,
    };
    if n < bound {
        n
    } else {
        bound
    }
}

fn optional_number_or(args: &JsonValue, name: &str, other: u64, bound: u64) -> (r: u64)
    ensures
        r == number_or(args@, name@, other, bound),
{
    let n: u64 = match number_in(&args.get(name)) {
        Some(n) => n,
        None => other,
    };
    if n < bound {
        n
    } else {
        bound
    }
}

/// What a call asks for.
pub open spec fn request_of(name: Seq<char>, args: JsonView) -> Result<RequestView, Seq<char>> {
    if name == "autonomy_contract_create"@ {
        if member(args, "contract"@) is Some {
            Ok(RequestView::CreateContract)
        } else {
            Err("contract"@ + " is required"@)
        }
    } else if name == "autonomy_contract_validate"@ {
        match need_session(args) {
            Ok(id) => Ok(RequestView::ValidateContract(id)),
            Err(e) => Err(e),
        }
    } else if name == "autonomy_contract_approve"@ {
        match need_change(args) {
            Ok(c) => match need_text(args, "approvalId"@) {
                Ok(_) => match need_text(args, "decisionHash"@) {
                    Ok(hash) => Ok(
                        RequestView::Approve {
                            session_id: c.0,
                            expected: c.1,
                            key: c.2,
                            decision_hash: hash,
                        },
                    ),
                    Err(e) => Err(e),
                },
                Err(e) => Err(e),
            },
            Err(e) => Err(e),
        }
    } else if name == "autonomy_session_start"@ {
        match need_change(args) {
            Ok(c) => Ok(RequestView::Start { session_id: c.0, expected: c.1, key: c.2 }),
            Err(e) => Err(e),
        }
    } else if name == "autonomy_session_status"@ || name == "autonomy_session_get_checkpoint"@ {
        match need_session(args) {
            Ok(id) => Ok(RequestView::Status(id)),
            Err(e) => Err(e),
        }
    } else if name == "autonomy_session_events"@ {
        match need_session(args) {
            Ok(id) => Ok(
                RequestView::Events {
                    session_id: id,
                    after: number_or(args, "afterSequence"@, 0, u64::MAX),
                    limit: number_or(args, "limit"@, 50, 100),
                    max_bytes: number_or(args, "maxBytes"@, 24_000, 24_000),
                },
            ),
            Err(e) => Err(e),
        }
    } else if name == "autonomy_session_pause"@ {
        match need_change(args) {
            Ok(c) => Ok(RequestView::Pause { session_id: c.0, expected: c.1, key: c.2 }),
            Err(e) => Err(e),
        }
    } else if name == "autonomy_session_resume"@ {
        match need_change(args) {
            Ok(c) => Ok(RequestView::Resume { session_id: c.0, expected: c.1, key: c.2 }),
            Err(e) => Err(e),
        }
    } else if name == "autonomy_session_cancel"@ {
        match need_change(args) {
            Ok(c) => Ok(RequestView::Cancel { session_id: c.0, expected: c.1, key: c.2 }),
            Err(e) => Err(e),
        }
    } else if name == "autonomy_session_renew_lease"@ {
        match need_change(args) {
            Ok(c) => match need_number(args, "newExpiryUnix"@) {
                Ok(n) => Ok(
                    RequestView::RenewLease {
                        session_id: c.0,
                        expected: c.1,
                        key: c.2,
                        new_expiry: n,
                    },
                ),
                Err(e) => Err(e),
            },
            Err(e) => Err(e),
        }
    } else if name == "autonomy_session_get_escalation"@ {
        match need_session(args) {
            Ok(id) => Ok(RequestView::Escalation(id)),
            Err(e) => Err(e),
        }
    } else if name == "autonomy_session_get_diff"@ || name == "autonomy_session_get_final_review"@ {
        Ok(RequestView::Artifact)
    } else if name == "autonomy_session_reply"@ {
        match need_change(args) {
            Ok(c) => match need_text(args, "decisionHash"@) {
                Ok(hash) => Ok(
                    RequestView::Reply {
                        session_id: c.0,
                        expected: c.1,
                        key: c.2,
                        decision_hash: hash,
                    },
                ),
                Err(e) => Err(e),
            },
            Err(e) => Err(e),
        }
    } else if name == "autonomy_session_list"@ {
        Ok(RequestView::List)
    } else if name == "autonomy_queue_status"@ {
        match need_session(args) {
            Ok(id) => Ok(RequestView::Queue(id)),
            Err(e) => Err(e),
        }
    } else if name == "provider_status"@ {
        Ok(RequestView::ProviderStatus)
    } else {
        Err("unknown autonomous supervisor tool"@)
    }
}

/// Reads what a call asks for.
pub fn read_request(name: &str, args: &JsonValue) -> (r: Result<SupervisorRequestV1, String>)
    ensures
        match r {
            Ok(request) => request_of(name@, args@) == Ok::<RequestView, Seq<char>>(request@),
            Err(e) => request_of(name@, args@) == Err::<RequestView, Seq<char>>(e@),
        },
{
    if same(name, "autonomy_contract_create") {
        if args.get("contract").is_some() {
            return Ok(SupervisorRequestV1::CreateContract);
        }
        return Err(plus("contract", " is required"));
    }
    if same(name, "autonomy_contract_validate") {
        return Ok(SupervisorRequestV1::ValidateContract(required_session(args)?));
    }
    if same(name, "autonomy_contract_approve") {
        let (session_id, expected, key): (String, u64, String) = required_change(args)?;
        let _approval_id: String = required_text(args, "approvalId")?;
        let decision_hash: String = required_text(args, "decisionHash")?;
        return Ok(SupervisorRequestV1::Approve { session_id, expected, key, decision_hash });
    }
    if same(name, "autonomy_session_start") {
        let (session_id, expected, key): (String, u64, String) = required_change(args)?;
        return Ok(SupervisorRequestV1::Start { session_id, expected, key });
    }
    if same(name, "autonomy_session_status") || same(name, "autonomy_session_get_checkpoint") {
        return Ok(SupervisorRequestV1::Status(required_session(args)?));
    }
    if same(name, "autonomy_session_events") {
        let session_id: String = required_session(args)?;
        return Ok(
            SupervisorRequestV1::Events {
                session_id,
                after: optional_number_or(args, "afterSequence", 0, u64::MAX),
                limit: optional_number_or(args, "limit", 50, 100),
                max_bytes: optional_number_or(args, "maxBytes", 24_000, 24_000),
            },
        );
    }
    if same(name, "autonomy_session_pause") {
        let (session_id, expected, key): (String, u64, String) = required_change(args)?;
        return Ok(SupervisorRequestV1::Pause { session_id, expected, key });
    }
    if same(name, "autonomy_session_resume") {
        let (session_id, expected, key): (String, u64, String) = required_change(args)?;
        return Ok(SupervisorRequestV1::Resume { session_id, expected, key });
    }
    if same(name, "autonomy_session_cancel") {
        let (session_id, expected, key): (String, u64, String) = required_change(args)?;
        return Ok(SupervisorRequestV1::Cancel { session_id, expected, key });
    }
    if same(name, "autonomy_session_renew_lease") {
        let (session_id, expected, key): (String, u64, String) = required_change(args)?;
        let new_expiry: u64 = required_number(args, "newExpiryUnix")?;
        return Ok(SupervisorRequestV1::RenewLease { session_id, expected, key, new_expiry });
    }
    if same(name, "autonomy_session_get_escalation") {
        return Ok(SupervisorRequestV1::Escalation(required_session(args)?));
    }
    if same(name, "autonomy_session_get_diff") || same(name, "autonomy_session_get_final_review") {
        return Ok(SupervisorRequestV1::Artifact);
    }
    if same(name, "autonomy_session_reply") {
        let (session_id, expected, key): (String, u64, String) = required_change(args)?;
        let decision_hash: String = required_text(args, "decisionHash")?;
        return Ok(SupervisorRequestV1::Reply { session_id, expected, key, decision_hash });
    }
    if same(name, "autonomy_session_list") {
        return Ok(SupervisorRequestV1::List);
    }
    if same(name, "autonomy_queue_status") {
        return Ok(SupervisorRequestV1::Queue(required_session(args)?));
    }
    if same(name, "provider_status") {
        return Ok(SupervisorRequestV1::ProviderStatus);
    }
    Err(text("unknown autonomous supervisor tool"))
}

// ---------------------------------------------------------------------------
// Changes

/// The call fails with this message.
pub open spec fn fails(r: Result<String, String>, message: Seq<char>) -> bool {
    r matches Err(e) && e@ == message
}

/// The call gives this JSON.
pub open spec fn gives(r: Result<String, String>, json: Seq<char>) -> bool {
    r matches Ok(j) && j@ == json
}

/// An unsigned number or `null`.
pub open spec fn number_or_null(n: Option<u64>) -> Seq<char> {
    match n {
        Some(k) => decimal(k as nat),
        None => "null"@,
    }
}

/// What is told of a session, as JSON.
pub open spec fn status_json(s: AutonomousSessionSnapshotV1) -> Seq<char> {
    object(
        seq![
            field("active"@, truth(s.active)),
            field("providerThreadCaptured"@, truth(s.provider_thread_id is Some)),
            field("providerTurnCount"@, decimal(s.provider_turn_count as nat)),
            field("repairAttempts"@, decimal(s.repair_attempts as nat)),
            field("retryNotBeforeUnix"@, number_or_null(s.retry_not_before_unix)),
            field("sessionId"@, json_string(s.session_id@)),
            field("state"@, s.state.json()),
            field("stateVersion"@, decimal(s.last_event_sequence as nat)),
        ],
    )
}

/// Tells how a session stands.
pub fn status_text(s: &AutonomousSessionSnapshotV1) -> (r: String)
    ensures
        r@ == status_json(*s),
{
    let retry: String = match s.retry_not_before_unix {
        Some(n) => to_decimal(n),
        None => text("null"),
    };
    let fields: Vec<String> = vec![
        field_text("active", truth_text(s.active).as_str()),
        field_text("providerThreadCaptured", truth_text(s.provider_thread_id.is_some()).as_str()),
        field_text("providerTurnCount", to_decimal(s.provider_turn_count as u64).as_str()),
        field_text("repairAttempts", to_decimal(s.repair_attempts as u64).as_str()),
        field_text("retryNotBeforeUnix", retry.as_str()),
        field_text("sessionId", quoted(s.session_id.as_str()).as_str()),
        field_text("state", s.state.to_json().as_str()),
        field_text("stateVersion", to_decimal(s.last_event_sequence).as_str()),
    ];
    assert(texts(fields@) =~= seq![
        field("active"@, truth(s.active)),
        field("providerThreadCaptured"@, truth(s.provider_thread_id is Some)),
        field("providerTurnCount"@, decimal(s.provider_turn_count as nat)),
        field("repairAttempts"@, decimal(s.repair_attempts as nat)),
        field("retryNotBeforeUnix"@, number_or_null(s.retry_not_before_unix)),
        field("sessionId"@, json_string(s.session_id@)),
        field("state"@, s.state.json()),
        field("stateVersion"@, decimal(s.last_event_sequence as nat)),
    ]);
    object_text(&fields)
}

/// A change of a session.
#[derive(Debug)]
pub enum SessionChangeV1 {
    /// Approve the contract of this hash.
    Approve(String),
    /// Start, where the contract of this hash is approved if it has to be.
    Start { approval_required: bool, contract_hash: String },
    Pause,
    Resume,
    Cancel,
    RenewLease,
    PlannerReply,
}

impl SessionChangeV1 {
    /// The change's name.
    pub open spec fn name(self) -> Seq<char> {
        match self {
            SessionChangeV1::Approve(_) => "approve"@,
            SessionChangeV1::Start { .. } => "start"@,
            SessionChangeV1::Pause => "session_paused"@,
            SessionChangeV1::Resume => "session_resumed"@,
            SessionChangeV1::Cancel => "cancel"@,
            SessionChangeV1::RenewLease => "renew_lease"@,
            SessionChangeV1::PlannerReply => "planner_reply"@,
        }
    }

    /// The change's name.
    pub fn as_str(&self) -> (r: &'static str)
        ensures
            r@ == self.name(),
    {
        match self {
            SessionChangeV1::Approve(_) => "approve",
            SessionChangeV1::Start { .. } => "start",
            SessionChangeV1::Pause => "session_paused",
            SessionChangeV1::Resume => "session_resumed",
            SessionChangeV1::Cancel => "cancel",
            SessionChangeV1::RenewLease => "renew_lease",
            SessionChangeV1::PlannerReply => "planner_reply",
        }
    }
}

/// Why a change is refused, if it is.
pub open spec fn change_refusal(s: AutonomousSessionSnapshotV1, change: SessionChangeV1) -> Option<
    Seq<char>,
> {
    match change {
        SessionChangeV1::Start { approval_required, contract_hash } => if approval_required
            && opt_text(s.approved_contract_hash) != Some(contract_hash@) {
            Some("start approval is required for this autonomous contract"@)
        } else if s.state != AutonomousSessionStateV1::Queued {
            Some("autonomy session is not ready to start"@)
        } else {
            None
        },
        SessionChangeV1::Pause | SessionChangeV1::Resume => if s.state.is_end() {
            Some("terminal autonomous session cannot be changed"@)
        } else {
            None
        },
        SessionChangeV1::PlannerReply => if s.state != AutonomousSessionStateV1::WaitingForChatgpt {
            Some("autonomy session is not awaiting a planner reply"@)
        } else {
            None
        },
        SessionChangeV1::Approve(_) | SessionChangeV1::Cancel | SessionChangeV1::RenewLease => None,
    }
}

/// The state that a change leaves the session in.
pub open spec fn changed_state(
    s: AutonomousSessionSnapshotV1,
    change: SessionChangeV1,
) -> AutonomousSessionStateV1 {
    match change {
        SessionChangeV1::Pause => AutonomousSessionStateV1::Paused,
        SessionChangeV1::Cancel => AutonomousSessionStateV1::Cancelled,
        SessionChangeV1::RenewLease => s.state,
        _ => AutonomousSessionStateV1::Queued,
    }
}

/// What a key is bound to: the change, and the version that it was decided on.
pub open spec fn change_hash(change: SessionChangeV1, expected: u64) -> Seq<char> {
    change.name() + ":"@ + decimal(expected as nat)
}

/// `after` is `before` with the change made and its key used.
pub open spec fn is_changed(
    before: SessionRecordV1,
    after: SessionRecordV1,
    expected: u64,
    key: Seq<char>,
    change: SessionChangeV1,
) -> bool {
    let state = changed_state(before.snapshot, change);
    &&& after == (SessionRecordV1 {
        snapshot: AutonomousSessionSnapshotV1 {
            state,
            active: !state.is_end(),
            cancellation_requested: before.snapshot.cancellation_requested
                || change is Cancel,
            approved_contract_hash: match change {
                SessionChangeV1::Approve(hash) => Some(hash),
                _ => before.snapshot.approved_contract_hash,
            },
            consumed_idempotency_keys: after.snapshot.consumed_idempotency_keys,
            ..before.snapshot
        },
        ..before
    })
    &&& after.snapshot.consumed_idempotency_keys@.len()
        == before.snapshot.consumed_idempotency_keys@.len() + 1
    &&& after.snapshot.consumed_idempotency_keys@.drop_last()
        == before.snapshot.consumed_idempotency_keys@
    &&& after.snapshot.consumed_idempotency_keys@.last().0@ == key
    &&& after.snapshot.consumed_idempotency_keys@.last().1@ == change_hash(change, expected)
}

/// What a key was used for, looking from `from` on.
pub open spec fn used_for(pairs: Seq<(String, String)>, key: Seq<char>, from: int) -> Option<
    Seq<char>,
>
    decreases pairs.len() - from,
{
    if from < 0 || from >= pairs.len() {
        None
    } else if pairs[from].0@ == key {
        Some(pairs[from].1@)
    } else {
        used_for(pairs, key, from + 1)
    }
}

fn find_use(pairs: &Vec<(String, String)>, key: &str) -> (r: Option<String>)
    ensures
        opt_text(r) == used_for(pairs@, key@, 0),
{
    let mut i: usize = 0;
    while i < pairs.len()
        invariant
            i <= pairs@.len(),
            used_for(pairs@, key@, 0) == used_for(pairs@, key@, i as int),
        decreases pairs@.len() - i,
    {
        if same(pairs[i].0.as_str(), key) {
            return Some(pairs[i].1.clone());
        }
        i += 1;
    }
    None
}

/// What asking for a change of a session does.
pub open spec fn session_mutates(
    before: SessionRecordV1,
    after: SessionRecordV1,
    expected: u64,
    key: Seq<char>,
    change: SessionChangeV1,
    r: Result<String, String>,
) -> bool {
    if before.lock_owner is Some {
        after == before && fails(r, "autonomy session is busy"@)
    } else if let Some(used) = used_for(before.snapshot.consumed_idempotency_keys@, key, 0) {
        after == before && if used == change_hash(change, expected) {
            gives(r, status_json(before.snapshot))
        } else {
            fails(r, "idempotency key was previously used for a different action"@)
        }
    } else if before.snapshot.last_event_sequence != expected {
        after == before && fails(r, "expected state version does not match persisted state"@)
    } else if let Some(refusal) = change_refusal(before.snapshot, change) {
        after == before && fails(r, refusal)
    } else {
        exists|changed: SessionRecordV1| #[trigger]
            is_changed(before, changed, expected, key, change) && if changed.is_ahead() {
                after == changed && fails(r, "autonomy event could not be persisted"@)
            } else {
                is_logged(changed, after, change.name(), "autonomous MCP state change"@) && gives(
                    r,
                    status_json(after.snapshot),
                )
            }
    }
}

fn check_change(s: &AutonomousSessionSnapshotV1, change: &SessionChangeV1) -> (r: Result<(), String>)
    ensures
        match r {
            Ok(_) => change_refusal(*s, *change) is None,
            Err(e) => change_refusal(*s, *change) == Some(e@),
        },
{
    match change {
        SessionChangeV1::Start { approval_required, contract_hash } => {
            let approved: bool = match &s.approved_contract_hash {
                Some(hash) => same(hash.as_str(), contract_hash.as_str()),
                None => false,
            };
            if *approval_required && !approved {
                return Err(text("start approval is required for this autonomous contract"));
            }
            if s.state != AutonomousSessionStateV1::Queued {
                return Err(text("autonomy session is not ready to start"));
            }
            Ok(())
        },
        SessionChangeV1::Pause | SessionChangeV1::Resume => if s.state.is_terminal() {
            Err(text("terminal autonomous session cannot be changed"))
        } else {
            Ok(())
        },
        SessionChangeV1::PlannerReply => if s.state != AutonomousSessionStateV1::WaitingForChatgpt {
            Err(text("autonomy session is not awaiting a planner reply"))
        } else {
            Ok(())
        },
        SessionChangeV1::Approve(_) | SessionChangeV1::Cancel | SessionChangeV1::RenewLease => Ok(
            (),
        ),
    }
}

/// Makes a change of a session, once for each key.
pub fn mutate_session(
    session: &mut SessionRecordV1,
    expected: u64,
    key: &str,
    change: &SessionChangeV1,
) -> (r: Result<String, String>)
    requires
        old(session).wf(),
    ensures
        final(session).wf(),
        final(session).id() == old(session).id(),
        session_mutates(*old(session), *final(session), expected, key@, *change, r),
{
    if session.lock_owner.is_some() {
        return Err(text("autonomy session is busy"));
    }
    let hash: String = text(change.as_str()).concat(":").concat(to_decimal(expected).as_str());
    if let Some(used) = find_use(&session.snapshot.consumed_idempotency_keys, key) {
        if same(used.as_str(), hash.as_str()) {
            return Ok(status_text(&session.snapshot));
        }
        return Err(text("idempotency key was previously used for a different action"));
    }
    if session.snapshot.last_event_sequence != expected {
        return Err(text("expected state version does not match persisted state"));
    }
    check_change(&session.snapshot, change)?;
    match change {
        SessionChangeV1::Approve(approved) => {
            session.snapshot.approved_contract_hash = Some(approved.clone());
            session.snapshot.state = AutonomousSessionStateV1::Queued;
        },
        SessionChangeV1::Pause => {
            session.snapshot.state = AutonomousSessionStateV1::Paused;
        },
        SessionChangeV1::Cancel => {
            session.snapshot.cancellation_requested = true;
            session.snapshot.state = AutonomousSessionStateV1::Cancelled;
        },
        SessionChangeV1::RenewLease => {},
        SessionChangeV1::Start { .. } | SessionChangeV1::Resume | SessionChangeV1::PlannerReply => {
            session.snapshot.state = AutonomousSessionStateV1::Queued;
        },
    }
    session.snapshot.active = !session.snapshot.state.is_terminal();
    session.snapshot.consumed_idempotency_keys.push((text(key), hash));
    let ghost changed = *session;
    proof {
        assert(changed.snapshot.consumed_idempotency_keys@.drop_last() =~= old(session).snapshot.consumed_idempotency_keys@);
        assert(is_changed(*old(session), changed, expected, key@, *change));
    }
    match session.log(change.as_str(), "autonomous MCP state change") {
        Ok(_) => Ok(status_text(&session.snapshot)),
        Err(_) => Err(text("autonomy event could not be persisted")),
    }
}

/// Asking twice is asking once: after a change was made, the same call with the same
/// key changes nothing and tells how the session stands.
pub proof fn lemma_change_is_made_once(
    before: SessionRecordV1,
    after: SessionRecordV1,
    again: SessionRecordV1,
    expected: u64,
    key: Seq<char>,
    change: SessionChangeV1,
    first: Result<String, String>,
    second: Result<String, String>,
)
    requires
        session_mutates(before, after, expected, key, change, first),
        first is Ok,
        session_mutates(after, again, expected, key, change, second),
    ensures
        again == after,
        gives(second, status_json(after.snapshot)),
{
    let keys = before.snapshot.consumed_idempotency_keys@;
    if used_for(keys, key, 0) is None {
        let now = after.snapshot.consumed_idempotency_keys@;
        lemma_used_for_last(keys, now, key, 0);
    }
}

proof fn lemma_used_for_last(
    keys: Seq<(String, String)>,
    now: Seq<(String, String)>,
    key: Seq<char>,
    from: int,
)
    requires
        0 <= from <= keys.len(),
        now.len() == keys.len() + 1,
        now.drop_last() == keys,
        now.last().0@ == key,
        used_for(keys, key, from) is None,
    ensures
        used_for(now, key, from) == Some(now.last().1@),
    decreases keys.len() - from,
{
    if from < keys.len() {
        assert(now[from] == now.drop_last()[from]);
        lemma_used_for_last(keys, now, key, from + 1);
    }
}

/// No change is made on a state that has moved on since it was decided: every change
/// that goes through has named the version that it found.
pub proof fn lemma_stale_change_is_refused(
    before: SessionRecordV1,
    after: SessionRecordV1,
    expected: u64,
    key: Seq<char>,
    change: SessionChangeV1,
    r: Result<String, String>,
)
    requires
        session_mutates(before, after, expected, key, change, r),
        before.snapshot.last_event_sequence != expected,
    ensures
        after == before,
        r is Ok ==> used_for(before.snapshot.consumed_idempotency_keys@, key, 0) == Some(
            change_hash(change, expected),
        ),
{
}

/// No session whose contract asks for approval starts before it is approved.
pub proof fn lemma_start_needs_approval(
    before: SessionRecordV1,
    after: SessionRecordV1,
    expected: u64,
    key: Seq<char>,
    contract_hash: String,
    r: Result<String, String>,
)
    requires
        session_mutates(
            before,
            after,
            expected,
            key,
            SessionChangeV1::Start { approval_required: true, contract_hash },
            r,
        ),
        after != before,
    ensures
        opt_text(before.snapshot.approved_contract_hash) == Some(contract_hash@),
{
}

// ---------------------------------------------------------------------------
// The operations

/// What the file system says of the paths of a contract.
#[derive(Debug)]
pub struct ContractPathsV1 {
    pub workspace: ResolvedPath,
    pub allowed: Vec<ResolvedPath>,
    pub forbidden: Vec<ResolvedPath>,
}

impl ContractPathsV1 {
    /// Why a contract cannot be enforced on these paths, if it cannot.
    pub open spec fn refuse(self, contract: AutonomousDevelopmentContractV1) -> bool {
        engine_refusal(contract, self.workspace, self.allowed@, self.forbidden@) is Some
    }

    /// The workspace is there.
    pub open spec fn has_workspace(self) -> bool {
        !(self.workspace is Missing)
    }

    fn workspace_is_dir(&self) -> (r: bool)
        ensures
            r == self.has_workspace(),
    {
        !matches!(self.workspace, ResolvedPath::Missing)
    }
}

/// The stored contract of a session can be read.
pub open spec fn has_contract(store: AutonomousStateStoreV1, id: Seq<char>, paths: ContractPathsV1) -> bool {
    &&& store.reaches(id)
    &&& store.session(id).contract is Some
    &&& autonomous_refusal(store.session(id).contract->0, paths.has_workspace()) is None
}

/// Why the policy of a session cannot be had, if it cannot.
pub open spec fn policy_refusal(
    store: AutonomousStateStoreV1,
    id: Seq<char>,
    paths: ContractPathsV1,
) -> Option<Seq<char>> {
    if !has_contract(store, id, paths) {
        Some("autonomous contract is unavailable"@)
    } else if paths.refuse(store.session(id).contract->0) {
        Some("persisted autonomous contract is invalid"@)
    } else {
        None
    }
}

/// The hash of a session's contract.
pub open spec fn stored_hash(store: AutonomousStateStoreV1, id: Seq<char>) -> Seq<char> {
    fingerprint(store.session(id).contract->0.json())
}

fn load_policy<'a>(store: &'a AutonomousStateStoreV1, session_id: &str, paths: &ContractPathsV1) -> (r: Result<
    (&'a AutonomousDevelopmentContractV1, String),
    String,
>)
    ensures
        match r {
            Ok((contract, hash)) => policy_refusal(*store, session_id@, *paths) is None
                && store.session(session_id@).contract == Some(*contract) && hash@ == stored_hash(
                *store,
                session_id@,
            ),
            Err(e) => policy_refusal(*store, session_id@, *paths) == Some(e@),
        },
{
    let contract: &AutonomousDevelopmentContractV1 = match store.load_contract(
        session_id,
        paths.workspace_is_dir(),
    ) {
        Ok(contract) => contract,
        Err(_) => return Err(text("autonomous contract is unavailable")),
    };
    if enforced_paths(contract, &paths.workspace, &paths.allowed, &paths.forbidden).is_err() {
        return Err(text("persisted autonomous contract is invalid"));
    }
    match contract.decision_hash() {
        Ok(hash) => Ok((contract, hash)),
        Err(_) => Err(text("persisted autonomous contract is invalid")),
    }
}

/// What asking for a change of a session does to the store.
pub open spec fn mutates(
    before: AutonomousStateStoreV1,
    after: AutonomousStateStoreV1,
    id: Seq<char>,
    expected: u64,
    key: Seq<char>,
    change: SessionChangeV1,
    r: Result<String, String>,
) -> bool {
    if !is_slug(key) {
        after.sessions@ == before.sessions@ && fails(r, "idempotency key is invalid"@)
    } else if !before.reaches(id) {
        after.sessions@ == before.sessions@ && fails(r, "autonomy session is busy"@)
    } else {
        &&& after.replaces(before, id, after.session(id))
        &&& session_mutates(before.session(id), after.session(id), expected, key, change, r)
    }
}

fn mutate(
    store: &mut AutonomousStateStoreV1,
    session_id: &str,
    expected: u64,
    key: &str,
    change: &SessionChangeV1,
) -> (r: Result<String, String>)
    requires
        old(store).wf(),
    ensures
        final(store).wf(),
        mutates(*old(store), *final(store), session_id@, expected, key@, *change, r),
{
    if validate_slug(key, "idempotency key").is_err() {
        return Err(text("idempotency key is invalid"));
    }
    let i: usize = match store.locate(session_id) {
        Ok(i) => i,
        Err(_) => return Err(text("autonomy session is busy")),
    };
    let r: Result<String, String> = mutate_session(&mut store.sessions[i], expected, key, change);
    proof {
        store.lemma_replaced(*old(store), i as int, session_id@);
    }
    r
}

/// The answer to a contract that was created.
pub open spec fn created_json(id: Seq<char>, hash: Seq<char>) -> Seq<char> {
    object(
        seq![
            field("contractHash"@, json_string(hash)),
            field("sessionId"@, json_string(id)),
            field("state"@, json_string("DRAFT"@)),
        ],
    )
}

fn created_text(id: &str, hash: &str) -> (r: String)
    ensures
        r@ == created_json(id@, hash@),
{
    let fields: Vec<String> = vec![
        field_text("contractHash", quoted(hash).as_str()),
        field_text("sessionId", quoted(id).as_str()),
        field_text("state", quoted("DRAFT").as_str()),
    ];
    assert(texts(fields@) =~= seq![
        field("contractHash"@, json_string(hash@)),
        field("sessionId"@, json_string(id@)),
        field("state"@, json_string("DRAFT"@)),
    ]);
    object_text(&fields)
}

/// A session that was opened for a contract: its queue holds the contract's one task,
/// its log the event of its creation.
pub open spec fn is_created(
    session: SessionRecordV1,
    contract: AutonomousDevelopmentContractV1,
) -> bool {
    &&& is_new_snapshot(
        (AutonomousSessionSnapshotV1 { last_event_sequence: 0, ..session.snapshot }),
        contract.contract_id@,
    )
    &&& session.snapshot.last_event_sequence == 1
    &&& session.queue.schema_version == AUTONOMY_STATE_SCHEMA_VERSION
    &&& session.queue.tasks@.len() == 1
    &&& session.queue.tasks@[0].task_id@ == contract.task_id@
    &&& session.queue.tasks@[0].priority == 1
    &&& session.queue.tasks@[0].depends_on@.len() == 0
    &&& session.queue.tasks@[0].state == AutonomousQueueTaskStateV1::Ready
    &&& session.contract == Some(contract)
    &&& session.events@.len() == 1
    &&& is_event(
        session.events@[0],
        contract.contract_id@,
        1,
        "contract_created"@,
        "contract persisted and awaiting approval"@,
    )
    &&& session.escalation is None
    &&& session.planner_reply is None
    &&& session.completion is None
    &&& session.lock_owner is None
}

/// Why a contract is not created, if it is not.
pub open spec fn create_refusal(
    store: AutonomousStateStoreV1,
    contract: AutonomousDevelopmentContractV1,
    paths: ContractPathsV1,
    workspace: Seq<Seq<char>>,
) -> Option<Seq<char>> {
    if paths.refuse(contract) {
        Some("autonomous contract policy rejected the request"@)
    } else if components(paths.workspace) != workspace {
        Some("autonomous contract workspace must match the MCP workspace"@)
    } else if store.has(contract.contract_id@) {
        Some("autonomous session already exists or could not be created"@)
    } else {
        None
    }
}

proof fn lemma_creation_event()
    ensures
        event_refusal("contract_created"@, "contract persisted and awaiting approval"@) is None,
{
    reveal_strlit("contract_created");
    let kind = "contract_created"@;
    assert forall|i: int| 0 <= i < kind.len() implies (is_alnum(#[trigger] kind[i]) || kind[i]
        == '_') && (kind[i] as nat) < 128 by {}
    assert(vstd::utf8::is_ascii_chars(kind));
    lemma_ascii_utf8_len(kind);
    reveal_strlit("contract persisted and awaiting approval");
    let s = "contract persisted and awaiting approval"@;
    assert(!is_white(s[0]));
    assert forall|i: int| 0 <= i < s.len() implies (#[trigger] s[i] as nat) < 128 by {}
    assert(vstd::utf8::is_ascii_chars(s));
    lemma_ascii_utf8_len(s);
}

fn contract_queue(contract: &AutonomousDevelopmentContractV1) -> (r: AutonomousQueueV1)
    requires
        is_slug(contract.task_id@),
    ensures
        r.refusal() is None,
        r.schema_version == AUTONOMY_STATE_SCHEMA_VERSION,
        r.tasks@.len() == 1,
        r.tasks@[0].task_id@ == contract.task_id@,
        r.tasks@[0].priority == 1,
        r.tasks@[0].depends_on@.len() == 0,
        r.tasks@[0].state == AutonomousQueueTaskStateV1::Ready,
{
    let mut tasks: Vec<AutonomousQueueTaskV1> = Vec::new();
    tasks.push(
        AutonomousQueueTaskV1 {
            task_id: contract.task_id.clone(),
            priority: 1,
            depends_on: Vec::new(),
            state: AutonomousQueueTaskStateV1::Ready,
        },
    );
    proof {
        assert(tasks_refusal(tasks@, 1) is None);
        assert(texts(tasks@[0].depends_on@) =~= Seq::<Seq<char>>::empty());
        assert(dependencies_refusal(tasks@, tasks@[0].depends_on@, 0) is None);
    }
    AutonomousQueueV1 { schema_version: AUTONOMY_STATE_SCHEMA_VERSION, tasks }
}

fn open_session(
    store: &mut AutonomousStateStoreV1,
    contract: AutonomousDevelopmentContractV1,
    is_dir: bool,
)
    requires
        old(store).wf(),
        autonomous_refusal(contract, is_dir) is None,
        !old(store).has(contract.contract_id@),
    ensures
        final(store).wf(),
        final(store).reaches(contract.contract_id@),
        final(store).sessions@ == old(store).sessions@.insert(
            final(store).at(contract.contract_id@),
            final(store).session(contract.contract_id@),
        ),
        is_created(final(store).session(contract.contract_id@), contract),
{
    let session_id: String = contract.contract_id.clone();
    let queue: AutonomousQueueV1 = contract_queue(&contract);
    let created: Result<AutonomousSessionSnapshotV1, AutonomyStateError> = store.create_session(
        session_id.as_str(),
        queue,
    );
    assert(created is Ok);
    let ghost opened = *store;
    let bound: Result<(), AutonomyStateError> = store.save_contract(
        session_id.as_str(),
        contract,
        is_dir,
    );
    assert(bound is Ok);
    let ghost held = *store;
    assert(!held.session(session_id@).is_ahead());
    proof {
        lemma_creation_event();
    }
    let logged: Result<AutonomousEventV1, AutonomyStateError> = store.append_event(
        session_id.as_str(),
        "contract_created",
        "contract persisted and awaiting approval",
    );
    assert(logged is Ok);
    proof {
        let at = opened.at(session_id@);
        let session = store.session(session_id@);
        assert(session.events@.last() == session.events@[0]);
        assert(store.sessions@ =~= old(store).sessions@.insert(at, session));
    }
}

/// Opens a session for a contract.
pub fn create_contract(
    store: &mut AutonomousStateStoreV1,
    contract: AutonomousDevelopmentContractV1,
    paths: &ContractPathsV1,
    workspace: &Vec<String>,
) -> (r: Result<String, String>)
    requires
        old(store).wf(),
    ensures
        final(store).wf(),
        creates(*old(store), *final(store), contract, *paths, texts(workspace@), r),
{
    let components: Vec<String> = match enforced_paths(
        &contract,
        &paths.workspace,
        &paths.allowed,
        &paths.forbidden,
    ) {
        Ok(enforced) => enforced.workspace,
        Err(_) => return Err(text("autonomous contract policy rejected the request")),
    };
    if !same_list(&components, workspace) {
        return Err(text("autonomous contract workspace must match the MCP workspace"));
    }
    let hash: String = match contract.decision_hash() {
        Ok(hash) => hash,
        Err(_) => return Err(text("autonomous contract policy rejected the request")),
    };
    let session_id: String = contract.contract_id.clone();
    if store.locate(session_id.as_str()).is_ok() {
        return Err(text("autonomous session already exists or could not be created"));
    }
    let is_dir: bool = paths.workspace_is_dir();
    open_session(store, contract, is_dir);
    Ok(created_text(session_id.as_str(), hash.as_str()))
}

/// What creating a contract does.
pub open spec fn creates(
    before: AutonomousStateStoreV1,
    after: AutonomousStateStoreV1,
    contract: AutonomousDevelopmentContractV1,
    paths: ContractPathsV1,
    workspace: Seq<Seq<char>>,
    r: Result<String, String>,
) -> bool {
    let id = contract.contract_id@;
    match create_refusal(before, contract, paths, workspace) {
        Some(refusal) => after.sessions@ == before.sessions@ && fails(r, refusal),
        None => {
            &&& after.reaches(id)
            &&& after.sessions@ == before.sessions@.insert(after.at(id), after.session(id))
            &&& is_created(after.session(id), contract)
            &&& gives(r, created_json(id, fingerprint(contract.json())))
        },
    }
}

/// The answer to a contract that is valid.
pub open spec fn valid_json(hash: Seq<char>) -> Seq<char> {
    object(seq![field("contractHash"@, json_string(hash)), field("valid"@, truth(true))])
}

/// Says whether the stored contract of a session can be enforced.
pub fn validate_stored_contract(
    store: &AutonomousStateStoreV1,
    session_id: &str,
    paths: &ContractPathsV1,
) -> (r: Result<String, String>)
    ensures
        match policy_refusal(*store, session_id@, *paths) {
            Some(refusal) => fails(r, refusal),
            None => gives(r, valid_json(stored_hash(*store, session_id@))),
        },
{
    let (_contract, hash): (&AutonomousDevelopmentContractV1, String) = load_policy(
        store,
        session_id,
        paths,
    )?;
    let fields: Vec<String> = vec![
        field_text("contractHash", quoted(hash.as_str()).as_str()),
        field_text("valid", truth_text(true).as_str()),
    ];
    assert(texts(fields@) =~= seq![
        field("contractHash"@, json_string(hash@)),
        field("valid"@, truth(true)),
    ]);
    Ok(object_text(&fields))
}

/// What approving a contract does.
pub open spec fn approves(
    before: AutonomousStateStoreV1,
    after: AutonomousStateStoreV1,
    id: Seq<char>,
    expected: u64,
    key: Seq<char>,
    decision_hash: Seq<char>,
    paths: ContractPathsV1,
    r: Result<String, String>,
) -> bool {
    if let Some(refusal) = policy_refusal(before, id, paths) {
        after.sessions@ == before.sessions@ && fails(r, refusal)
    } else if decision_hash != stored_hash(before, id) {
        after.sessions@ == before.sessions@ && fails(
            r,
            "approval decision hash does not match the persisted contract"@,
        )
    } else {
        exists|hash: String|
            hash@ == decision_hash && #[trigger] mutates(
                before,
                after,
                id,
                expected,
                key,
                SessionChangeV1::Approve(hash),
                r,
            )
    }
}

/// Approves the contract of a session, if it is the one that was decided on.
pub fn approve(
    store: &mut AutonomousStateStoreV1,
    session_id: &str,
    expected: u64,
    key: &str,
    decision_hash: &str,
    paths: &ContractPathsV1,
) -> (r: Result<String, String>)
    requires
        old(store).wf(),
    ensures
        final(store).wf(),
        approves(
            *old(store),
            *final(store),
            session_id@,
            expected,
            key@,
            decision_hash@,
            *paths,
            r,
        ),
{
    let hash: String = {
        let (_contract, hash): (&AutonomousDevelopmentContractV1, String) = load_policy(
            store,
            session_id,
            paths,
        )?;
        hash
    };
    if !same(decision_hash, hash.as_str()) {
        return Err(text("approval decision hash does not match the persisted contract"));
    }
    let change: SessionChangeV1 = SessionChangeV1::Approve(text(decision_hash));
    let r: Result<String, String> = mutate(store, session_id, expected, key, &change);
    assert(change->Approve_0@ == decision_hash@);
    r
}

/// What starting a session does.
pub open spec fn starts(
    before: AutonomousStateStoreV1,
    after: AutonomousStateStoreV1,
    id: Seq<char>,
    expected: u64,
    key: Seq<char>,
    paths: ContractPathsV1,
    r: Result<String, String>,
) -> bool {
    match policy_refusal(before, id, paths) {
        Some(refusal) => after.sessions@ == before.sessions@ && fails(r, refusal),
        None => exists|hash: String|
            hash@ == stored_hash(before, id) && #[trigger] mutates(
                before,
                after,
                id,
                expected,
                key,
                SessionChangeV1::Start {
                    approval_required: before.session(
                        id,
                    ).contract->0.autonomy_lease.start_approval_required,
                    contract_hash: hash,
                },
                r,
            ),
    }
}

/// Starts a session whose contract is approved, if it has to be.
pub fn start(
    store: &mut AutonomousStateStoreV1,
    session_id: &str,
    expected: u64,
    key: &str,
    paths: &ContractPathsV1,
) -> (r: Result<String, String>)
    requires
        old(store).wf(),
    ensures
        final(store).wf(),
        starts(*old(store), *final(store), session_id@, expected, key@, *paths, r),
{
    let (approval_required, contract_hash): (bool, String) = {
        let (contract, hash): (&AutonomousDevelopmentContractV1, String) = load_policy(
            store,
            session_id,
            paths,
        )?;
        (contract.autonomy_lease.start_approval_required, hash)
    };
    let ghost hash = contract_hash;
    let change: SessionChangeV1 = SessionChangeV1::Start { approval_required, contract_hash };
    let r: Result<String, String> = mutate(store, session_id, expected, key, &change);
    assert(mutates(
        *old(store),
        *store,
        session_id@,
        expected,
        key@,
        SessionChangeV1::Start { approval_required, contract_hash: hash },
        r,
    ));
    r
}

/// The answer to a question for a session.
pub open spec fn tells_status(store: AutonomousStateStoreV1, id: Seq<char>, r: Result<String, String>) -> bool {
    if store.reaches(id) {
        gives(r, status_json(store.session(id).snapshot))
    } else {
        fails(r, "autonomous session is unavailable"@)
    }
}

/// Tells how a session stands.
pub fn status(store: &AutonomousStateStoreV1, session_id: &str) -> (r: Result<String, String>)
    ensures
        tells_status(*store, session_id@, r),
{
    match store.locate(session_id) {
        Ok(i) => Ok(status_text(&store.sessions[i].snapshot)),
        Err(_) => Err(text("autonomous session is unavailable")),
    }
}

/// How many of the events from `from` on fit, when `count` of them with `used` bytes
/// are there already.
pub open spec fn fitting_events(
    events: Seq<AutonomousEventV1>,
    from: int,
    used: int,
    limit: u64,
    max_bytes: u64,
) -> int
    decreases events.len() - from,
{
    if from < 0 || from >= events.len() || from >= limit || used + utf8_len(events[from].json())
        > max_bytes {
        from
    } else {
        fitting_events(events, from + 1, used + utf8_len(events[from].json()), limit, max_bytes)
    }
}

proof fn lemma_fitting_events(
    events: Seq<AutonomousEventV1>,
    from: int,
    used: int,
    limit: u64,
    max_bytes: u64,
)
    requires
        0 <= from <= events.len(),
    ensures
        from <= fitting_events(events, from, used, limit, max_bytes) <= events.len(),
    decreases events.len() - from,
{
    if !(from >= events.len() || from >= limit || used + utf8_len(events[from].json()) > max_bytes) {
        lemma_fitting_events(
            events,
            from + 1,
            used + utf8_len(events[from].json()),
            limit,
            max_bytes,
        );
    }
}

/// The JSON texts of events.
pub open spec fn event_texts(events: Seq<AutonomousEventV1>) -> Seq<Seq<char>> {
    events.map_values(|e: AutonomousEventV1| e.json())
}

/// The answer to a question for events: as many of those behind a number as the bounds
/// let through, and the number that they end with.
pub open spec fn events_json(
    session: SessionRecordV1,
    after: u64,
    limit: u64,
    max_bytes: u64,
) -> Seq<char> {
    let all = events_behind(session.events@, after);
    let n = fitting_events(all, 0, 0, limit, max_bytes);
    let chosen = all.take(n);
    object(
        seq![
            field("events"@, array(event_texts(chosen))),
            field("hasMore"@, truth(false)),
            field(
                "nextSequence"@,
                decimal(
                    if n > 0 {
                        chosen.last().sequence as nat
                    } else {
                        after as nat
                    },
                ),
            ),
            field("sessionState"@, session.snapshot.state.json()),
        ],
    )
}

/// The answer to a question for events.
pub open spec fn tells_events(
    store: AutonomousStateStoreV1,
    id: Seq<char>,
    after: u64,
    limit: u64,
    max_bytes: u64,
    r: Result<String, String>,
) -> bool {
    if store.reaches(id) {
        gives(r, events_json(store.session(id), after, limit, max_bytes))
    } else {
        fails(r, "autonomy events are unavailable"@)
    }
}

/// Tells the events of a session behind a number, within bounds.
pub fn events(
    store: &AutonomousStateStoreV1,
    session_id: &str,
    after: u64,
    limit: u64,
    max_bytes: u64,
) -> (r: Result<String, String>)
    ensures
        tells_events(*store, session_id@, after, limit, max_bytes, r),
{
    let all: Vec<AutonomousEventV1> = match store.poll_events(session_id, after) {
        Ok(all) => all,
        Err(_) => return Err(text("autonomy events are unavailable")),
    };
    let state: AutonomousSessionStateV1 = match store.locate(session_id) {
        Ok(i) => store.sessions[i].snapshot.state,
        Err(_) => return Err(text("autonomy events are unavailable")),
    };
    let ghost n = fitting_events(all@, 0, 0, limit, max_bytes);
    let mut selected: Vec<String> = Vec::new();
    let mut used: u64 = 0;
    let mut next: u64 = after;
    let mut i: usize = 0;
    let mut full: bool = false;
    proof {
        lemma_fitting_events(all@, 0, 0, limit, max_bytes);
        assert(texts(selected@) =~= event_texts(all@.take(0)));
    }
    while !full && i < all.len()
        invariant
            i <= all@.len(),
            used <= max_bytes,
            n == fitting_events(all@, 0, 0, limit, max_bytes),
            0 <= n <= all@.len(),
            n == fitting_events(all@, i as int, used as int, limit, max_bytes),
            full ==> n == i,
            texts(selected@) == event_texts(all@.take(i as int)),
            next == if i > 0 {
                all@[i - 1].sequence
            } else {
                after
            },
        decreases all@.len() - i + if full {
            0int
        } else {
            1
        },
    {
        let item: String = all[i].to_json();
        let bytes: u64 = byte_len(item.as_str()) as u64;
        if i as u64 >= limit || bytes > max_bytes - used {
            full = true;
        } else {
            used = used + bytes;
            next = all[i].sequence;
            let ghost prior = texts(selected@);
            selected.push(item);
            i += 1;
            proof {
                assert(texts(selected@) =~= prior.push(all@[i - 1].json()));
                assert(event_texts(all@.take(i as int)) =~= event_texts(all@.take(i - 1)).push(
                    all@[i - 1].json(),
                ));
            }
        }
    }
    assert(n == i);
    let fields: Vec<String> = vec![
        field_text("events", array_text(&selected).as_str()),
        field_text("hasMore", truth_text(false).as_str()),
        field_text("nextSequence", to_decimal(next).as_str()),
        field_text("sessionState", state.to_json().as_str()),
    ];
    assert(texts(fields@) =~= seq![
        field("events"@, array(event_texts(all@.take(n)))),
        field("hasMore"@, truth(false)),
        field(
            "nextSequence"@,
            decimal(
                if n > 0 {
                    all@.take(n).last().sequence as nat
                } else {
                    after as nat
                },
            ),
        ),
        field("sessionState"@, state.json()),
    ]);
    Ok(object_text(&fields))
}

/// `session` with its lease renewed.
pub open spec fn with_lease(session: SessionRecordV1, new_expiry: u64) -> SessionRecordV1 {
    let contract = session.contract->0;
    SessionRecordV1 {
        contract: Some(
            AutonomousDevelopmentContractV1 {
                autonomy_lease: AutonomyLeaseV1 {
                    expires_at_unix: new_expiry,
                    ..contract.autonomy_lease
                },
                ..contract
            },
        ),
        ..session
    }
}

/// The answer to a lease that was renewed.
pub open spec fn renewed_json(id: Seq<char>) -> Seq<char> {
    object(seq![field("renewed"@, truth(true)), field("sessionId"@, json_string(id))])
}

/// What renewing a lease does.
pub open spec fn renews(
    before: AutonomousStateStoreV1,
    after: AutonomousStateStoreV1,
    id: Seq<char>,
    expected: u64,
    key: Seq<char>,
    new_expiry: u64,
    now_unix: u64,
    paths: ContractPathsV1,
    r: Result<String, String>,
) -> bool {
    if !has_contract(before, id, paths) {
        after.sessions@ == before.sessions@ && fails(r, "autonomous contract is unavailable"@)
    } else if !before.session(id).contract->0.autonomy_lease.can_renew(now_unix, new_expiry) {
        after.sessions@ == before.sessions@ && fails(r, "autonomy lease renewal was rejected"@)
    } else {
        exists|changed: AutonomousStateStoreV1, told: Result<String, String>| #[trigger]
            mutates(before, changed, id, expected, key, SessionChangeV1::RenewLease, told)
                && match told {
                Err(e) => after.sessions@ == changed.sessions@ && fails(r, e@),
                Ok(_) => if autonomous_refusal(
                    with_lease(changed.session(id), new_expiry).contract->0,
                    paths.has_workspace(),
                ) is Some {
                    after.sessions@ == changed.sessions@ && fails(
                        r,
                        "renewed contract could not be persisted"@,
                    )
                } else {
                    after.replaces(
                        changed,
                        id,
                        with_lease(changed.session(id), new_expiry),
                    ) && gives(r, renewed_json(id))
                },
            }
    }
}

/// Renews the lease of a session.
pub fn renew_lease(
    store: &mut AutonomousStateStoreV1,
    session_id: &str,
    expected: u64,
    key: &str,
    new_expiry: u64,
    now_unix: u64,
    paths: &ContractPathsV1,
) -> (r: Result<String, String>)
    requires
        old(store).wf(),
    ensures
        final(store).wf(),
        renews(
            *old(store),
            *final(store),
            session_id@,
            expected,
            key@,
            new_expiry,
            now_unix,
            *paths,
            r,
        ),
{
    let is_dir: bool = paths.workspace_is_dir();
    let mut lease: AutonomyLeaseV1 = match store.load_contract(session_id, is_dir) {
        Ok(contract) => contract.autonomy_lease,
        Err(_) => return Err(text("autonomous contract is unavailable")),
    };
    if lease.renew(now_unix, new_expiry).is_err() {
        return Err(text("autonomy lease renewal was rejected"));
    }
    let told: Result<String, String> = mutate(
        store,
        session_id,
        expected,
        key,
        &SessionChangeV1::RenewLease,
    );
    let ghost changed = *store;
    let ghost answer = told;
    assert(mutates(
        *old(store),
        changed,
        session_id@,
        expected,
        key@,
        SessionChangeV1::RenewLease,
        answer,
    ));
    if let Err(e) = told {
        return Err(e);
    }
    let i: usize = match store.locate(session_id) {
        Ok(i) => i,
        Err(_) => return Err(text("renewed contract could not be persisted")),
    };
    let kept: Option<AutonomousDevelopmentContractV1> = store.sessions[i].contract.take();
    let mut contract: AutonomousDevelopmentContractV1 = match kept {
        Some(contract) => contract,
        None => return Err(text("renewed contract could not be persisted")),
    };
    let prior: AutonomyLeaseV1 = contract.autonomy_lease;
    contract.autonomy_lease = lease;
    let valid: bool = contract.validate(is_dir).is_ok();
    if !valid {
        contract.autonomy_lease = prior;
    }
    store.sessions[i].contract = Some(contract);
    proof {
        store.lemma_replaced(changed, i as int, session_id@);
        if !valid {
            assert(store.sessions@ =~= changed.sessions@);
        }
    }
    if !valid {
        return Err(text("renewed contract could not be persisted"));
    }
    let fields: Vec<String> = vec![
        field_text("renewed", truth_text(true).as_str()),
        field_text("sessionId", quoted(session_id).as_str()),
    ];
    assert(texts(fields@) =~= seq![
        field("renewed"@, truth(true)),
        field("sessionId"@, json_string(session_id@)),
    ]);
    Ok(object_text(&fields))
}

/// What a planner's reply does.
pub open spec fn replies(
    before: AutonomousStateStoreV1,
    after: AutonomousStateStoreV1,
    id: Seq<char>,
    expected: u64,
    key: Seq<char>,
    decision_hash: Seq<char>,
    r: Result<String, String>,
) -> bool {
    if blank(decision_hash) {
        after.sessions@ == before.sessions@ && fails(r, "planner decision hash is required"@)
    } else {
        mutates(before, after, id, expected, key, SessionChangeV1::PlannerReply, r)
    }
}

/// Lets a session go on that waits for a decision.
pub fn reply(
    store: &mut AutonomousStateStoreV1,
    session_id: &str,
    expected: u64,
    key: &str,
    decision_hash: &str,
) -> (r: Result<String, String>)
    requires
        old(store).wf(),
    ensures
        final(store).wf(),
        replies(*old(store), *final(store), session_id@, expected, key@, decision_hash@, r),
{
    if is_blank(decision_hash) {
        return Err(text("planner decision hash is required"));
    }
    mutate(store, session_id, expected, key, &SessionChangeV1::PlannerReply)
}

/// The answer where there is nothing.
pub open spec fn unavailable_json() -> Seq<char> {
    object(seq![field("available"@, truth(false))])
}

/// The answer to a question for the open request for a decision.
pub open spec fn escalation_json(store: AutonomousStateStoreV1, id: Seq<char>) -> Seq<char> {
    if store.reaches(id) && store.session(id).escalation is Some {
        store.session(id).escalation->0.json()
    } else {
        unavailable_json()
    }
}

/// Tells the open request for a decision.
pub fn escalation(store: &AutonomousStateStoreV1, session_id: &str) -> (r: String)
    ensures
        r@ == escalation_json(*store, session_id@),
{
    match store.load_escalation(session_id) {
        Ok(packet) => packet.to_json(),
        Err(_) => {
            let fields: Vec<String> = vec![field_text("available", truth_text(false).as_str())];
            assert(texts(fields@) =~= seq![field("available"@, truth(false))]);
            object_text(&fields)
        },
    }
}

/// Tells the queue of a session.
pub fn queue(store: &AutonomousStateStoreV1, session_id: &str) -> (r: Result<String, String>)
    ensures
        if store.reaches(session_id@) {
            gives(r, store.session(session_id@).queue.json())
        } else {
            fails(r, "autonomy queue is unavailable"@)
        },
{
    match store.load_queue(session_id) {
        Ok(queue) => Ok(queue.to_json()),
        Err(_) => Err(text("autonomy queue is unavailable")),
    }
}

/// What the list tells of a session.
pub open spec fn listed_json(s: AutonomousSessionSnapshotV1) -> Seq<char> {
    object(
        seq![
            field("active"@, truth(s.active)),
            field("sessionId"@, json_string(s.session_id@)),
            field("state"@, s.state.json()),
            field("stateVersion"@, decimal(s.last_event_sequence as nat)),
        ],
    )
}

/// The list of sessions.
pub open spec fn list_json(sessions: Seq<SessionRecordV1>) -> Seq<char> {
    object(
        seq![
            field(
                "sessions"@,
                array(sessions.map_values(|s: SessionRecordV1| listed_json(s.snapshot))),
            ),
        ],
    )
}

/// Lists the sessions in the order of their ids.
pub fn list(store: &AutonomousStateStoreV1) -> (r: String)
    ensures
        r@ == list_json(store.sessions@),
{
    let ghost all = store.sessions@.map_values(|s: SessionRecordV1| listed_json(s.snapshot));
    let mut parts: Vec<String> = Vec::new();
    let mut i: usize = 0;
    while i < store.sessions.len()
        invariant
            i <= store.sessions@.len(),
            all == store.sessions@.map_values(|s: SessionRecordV1| listed_json(s.snapshot)),
            texts(parts@) == all.take(i as int),
        decreases store.sessions@.len() - i,
    {
        let s: &AutonomousSessionSnapshotV1 = &store.sessions[i].snapshot;
        let fields: Vec<String> = vec![
            field_text("active", truth_text(s.active).as_str()),
            field_text("sessionId", quoted(s.session_id.as_str()).as_str()),
            field_text("state", s.state.to_json().as_str()),
            field_text("stateVersion", to_decimal(s.last_event_sequence).as_str()),
        ];
        assert(texts(fields@) =~= seq![
            field("active"@, truth(s.active)),
            field("sessionId"@, json_string(s.session_id@)),
            field("state"@, s.state.json()),
            field("stateVersion"@, decimal(s.last_event_sequence as nat)),
        ]);
        let ghost prior = texts(parts@);
        parts.push(object_text(&fields));
        i += 1;
        assert(texts(parts@) =~= prior.push(all[i - 1]));
        assert(all.take(i as int) =~= all.take(i - 1).push(all[i - 1]));
    }
    assert(all.take(i as int) =~= all);
    let fields: Vec<String> = vec![field_text("sessions", array_text(&parts).as_str())];
    assert(texts(fields@) =~= seq![field("sessions"@, array(all))]);
    object_text(&fields)
}

/// The answer to a question for an artifact.
pub const ARTIFACT_ANSWER: &'static str = "{\"available\":false,\"reason\":\"artifact is unavailable until the controller reaches verified completion\"}";

/// The answer to a question for the provider.
pub const PROVIDER_ANSWER: &'static str = "{\"detail\":\"MCP cannot select an executable or read authentication files.\",\"providerId\":\"codex-cli\",\"status\":\"OPERATOR_CONFIGURATION_REQUIRED\"}";

/// What a call does.
pub open spec fn is_handled(
    before: AutonomousStateStoreV1,
    after: AutonomousStateStoreV1,
    request: RequestView,
    contract: Option<AutonomousDevelopmentContractV1>,
    paths: ContractPathsV1,
    workspace: Seq<Seq<char>>,
    now_unix: u64,
    r: Result<String, String>,
) -> bool {
    match request {
        RequestView::CreateContract => match contract {
            Some(contract) => creates(before, after, contract, paths, workspace, r),
            None => after.sessions@ == before.sessions@ && fails(
                r,
                "autonomous contract schema is invalid"@,
            ),
        },
        RequestView::ValidateContract(id) => after.sessions@ == before.sessions@
            && match policy_refusal(before, id, paths) {
            Some(refusal) => fails(r, refusal),
            None => gives(r, valid_json(stored_hash(before, id))),
        },
        RequestView::Approve { session_id, expected, key, decision_hash } => approves(
            before,
            after,
            session_id,
            expected,
            key,
            decision_hash,
            paths,
            r,
        ),
        RequestView::Start { session_id, expected, key } => starts(
            before,
            after,
            session_id,
            expected,
            key,
            paths,
            r,
        ),
        RequestView::Status(id) => after.sessions@ == before.sessions@ && tells_status(before, id, r),
        RequestView::Events { session_id, after: behind, limit, max_bytes } => after.sessions@
            == before.sessions@ && tells_events(before, session_id, behind, limit, max_bytes, r),
        RequestView::Pause { session_id, expected, key } => mutates(
            before,
            after,
            session_id,
            expected,
            key,
            SessionChangeV1::Pause,
            r,
        ),
        RequestView::Resume { session_id, expected, key } => mutates(
            before,
            after,
            session_id,
            expected,
            key,
            SessionChangeV1::Resume,
            r,
        ),
        RequestView::Cancel { session_id, expected, key } => mutates(
            before,
            after,
            session_id,
            expected,
            key,
            SessionChangeV1::Cancel,
            r,
        ),
        RequestView::RenewLease { session_id, expected, key, new_expiry } => renews(
            before,
            after,
            session_id,
            expected,
            key,
            new_expiry,
            now_unix,
            paths,
            r,
        ),
        RequestView::Escalation(id) => after.sessions@ == before.sessions@ && gives(
            r,
            escalation_json(before, id),
        ),
        RequestView::Artifact => after.sessions@ == before.sessions@ && gives(r, ARTIFACT_ANSWER@),
        RequestView::Reply { session_id, expected, key, decision_hash } => replies(
            before,
            after,
            session_id,
            expected,
            key,
            decision_hash,
            r,
        ),
        RequestView::List => after.sessions@ == before.sessions@ && gives(
            r,
            list_json(before.sessions@),
        ),
        RequestView::Queue(id) => after.sessions@ == before.sessions@ && if before.reaches(id) {
            gives(r, before.session(id).queue.json())
        } else {
            fails(r, "autonomy queue is unavailable"@)
        },
        RequestView::ProviderStatus => after.sessions@ == before.sessions@ && gives(
            r,
            PROVIDER_ANSWER@,
        ),
    }
}

/// Does what is asked for. The contract is the one that comes with the call, where one
/// could be read; the paths are those of that contract, or of the stored one.
pub fn handle_request(
    store: &mut AutonomousStateStoreV1,
    request: SupervisorRequestV1,
    contract: Option<AutonomousDevelopmentContractV1>,
    paths: &ContractPathsV1,
    workspace: &Vec<String>,
    now_unix: u64,
) -> (r: Result<String, String>)
    requires
        old(store).wf(),
    ensures
        final(store).wf(),
        is_handled(
            *old(store),
            *final(store),
            request@,
            contract,
            *paths,
            texts(workspace@),
            now_unix,
            r,
        ),
{
    match request {
        SupervisorRequestV1::CreateContract => match contract {
            Some(contract) => create_contract(store, contract, paths, workspace),
            None => Err(text("autonomous contract schema is invalid")),
        },
        SupervisorRequestV1::ValidateContract(id) => validate_stored_contract(
            store,
            id.as_str(),
            paths,
        ),
        SupervisorRequestV1::Approve { session_id, expected, key, decision_hash } => approve(
            store,
            session_id.as_str(),
            expected,
            key.as_str(),
            decision_hash.as_str(),
            paths,
        ),
        SupervisorRequestV1::Start { session_id, expected, key } => start(
            store,
            session_id.as_str(),
            expected,
            key.as_str(),
            paths,
        ),
        SupervisorRequestV1::Status(id) => status(store, id.as_str()),
        SupervisorRequestV1::Events { session_id, after, limit, max_bytes } => events(
            store,
            session_id.as_str(),
            after,
            limit,
            max_bytes,
        ),
        SupervisorRequestV1::Pause { session_id, expected, key } => mutate(
            store,
            session_id.as_str(),
            expected,
            key.as_str(),
            &SessionChangeV1::Pause,
        ),
        SupervisorRequestV1::Resume { session_id, expected, key } => mutate(
            store,
            session_id.as_str(),
            expected,
            key.as_str(),
            &SessionChangeV1::Resume,
        ),
        SupervisorRequestV1::Cancel { session_id, expected, key } => mutate(
            store,
            session_id.as_str(),
            expected,
            key.as_str(),
            &SessionChangeV1::Cancel,
        ),
        SupervisorRequestV1::RenewLease { session_id, expected, key, new_expiry } => renew_lease(
            store,
            session_id.as_str(),
            expected,
            key.as_str(),
            new_expiry,
            now_unix,
            paths,
        ),
        SupervisorRequestV1::Escalation(id) => Ok(escalation(store, id.as_str())),
        SupervisorRequestV1::Artifact => Ok(text(ARTIFACT_ANSWER)),
        SupervisorRequestV1::Reply { session_id, expected, key, decision_hash } => reply(
            store,
            session_id.as_str(),
            expected,
            key.as_str(),
            decision_hash.as_str(),
        ),
        SupervisorRequestV1::List => Ok(list(store)),
        SupervisorRequestV1::Queue(id) => queue(store, id.as_str()),
        SupervisorRequestV1::ProviderStatus => Ok(text(PROVIDER_ANSWER)),
    }
}

/// Does what a call asks for.
pub fn handle_tool(
    store: &mut AutonomousStateStoreV1,
    name: &str,
    args: &JsonValue,
    contract: Option<AutonomousDevelopmentContractV1>,
    paths: &ContractPathsV1,
    workspace: &Vec<String>,
    now_unix: u64,
) -> (r: Result<String, String>)
    requires
        old(store).wf(),
    ensures
        final(store).wf(),
        match request_of(name@, args@) {
            Ok(request) => is_handled(
                *old(store),
                *final(store),
                request,
                contract,
                *paths,
                texts(workspace@),
                now_unix,
                r,
            ),
            Err(e) => *final(store) == *old(store) && fails(r, e),
        },
{
    let request: SupervisorRequestV1 = read_request(name, args)?;
    handle_request(store, request, contract, paths, workspace, now_unix)
}

} // verus!
