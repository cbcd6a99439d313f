//! What providers and workers exchange.

use vstd::prelude::*;
use vstd::string::*;
use crate::contracts::{RunId, ToolCallId, TurnId, WorkerSessionId};
use crate::journal::ToolMutationKind;
use crate::json::{
    array, array_text, field, field_text, json_string, object, object_text, optional_string,
    optional_string_text, quoted,
};
use crate::text::{
    contains, copy_opt, debug_variant, debug_variant_text, has_text, lowered, opt_text, text,
    texts, to_lower,
};

verus! {

/// One message of a worker's conversation.
#[derive(Debug, PartialEq, Eq)]
pub struct ProviderMessageV1 {
    pub role: String,
    pub content: String,
    pub tool_call_id: Option<String>,
    pub tool_name: Option<String>,
}

impl Clone for ProviderMessageV1 {
    fn clone(&self) -> (r: Self)
        ensures
            r == *self,
    {
        ProviderMessageV1 {
            role: self.role.clone(),
            content: self.content.clone(),
            tool_call_id: copy_opt(&self.tool_call_id),
            tool_name: copy_opt(&self.tool_name),
        }
    }
}

/// The message is plain text of this role.
pub open spec fn is_plain_message(message: ProviderMessageV1, role: Seq<char>, content: Seq<char>) -> bool {
    &&& message.role@ == role
    &&& message.content@ == content
    &&& message.tool_call_id is None
    &&& message.tool_name is None
}

/// A message of plain text.
pub fn plain_message(role: &str, content: String) -> (r: ProviderMessageV1)
    ensures
        is_plain_message(r, role@, content@),
        r.content == content,
{
    ProviderMessageV1 { role: text(role), content, tool_call_id: None, tool_name: None }
}

/// Why work with a provider goes wrong.
#[derive(Debug, PartialEq, Eq)]
pub enum RuntimeError {
    Validation(String),
    BudgetExceeded(String),
    Provider(String),
    MalformedOutput(String),
    Journal(String),
}

impl RuntimeError {
    /// The error as `{:?}` prints it.
    pub open spec fn debug(self) -> Seq<char> {
        match self {
            RuntimeError::Validation(s) => debug_variant("Validation"@, s@),
            RuntimeError::BudgetExceeded(s) => debug_variant("BudgetExceeded"@, s@),
            RuntimeError::Provider(s) => debug_variant("Provider"@, s@),
            RuntimeError::MalformedOutput(s) => debug_variant("MalformedOutput"@, s@),
            RuntimeError::Journal(s) => debug_variant("Journal"@, s@),
        }
    }

    /// Prints the error as `{:?}` does.
    pub fn debug_text(&self) -> (r: String)
        ensures
            r@ == self.debug(),
    {
        match self {
            RuntimeError::Validation(s) => debug_variant_text("Validation", s.as_str()),
            RuntimeError::BudgetExceeded(s) => debug_variant_text("BudgetExceeded", s.as_str()),
            RuntimeError::Provider(s) => debug_variant_text("Provider", s.as_str()),
            RuntimeError::MalformedOutput(s) => debug_variant_text("MalformedOutput", s.as_str()),
            RuntimeError::Journal(s) => debug_variant_text("Journal", s.as_str()),
        }
    }
}

/// What an event of a provider is about.
#[derive(Clone, Copy, Debug, PartialEq, Eq, Structural)]
pub enum NormalizedProviderEventKind {
    TextDelta,
    ToolCall,
    CompletionClaim,
    MalformedResponse,
    CancelAck,
    TerminalError,
}

/// A tool call as a provider makes it. The arguments are JSON text.
#[derive(Debug, PartialEq, Eq)]
pub struct NormalizedToolCallV1 {
    pub tool_call_id: ToolCallId,
    pub tool_name: String,
    pub arguments_hash: String,
    pub arguments: String,
}

impl Clone for NormalizedToolCallV1 {
    fn clone(&self) -> (r: Self)
        ensures
            r == *self,
    {
        NormalizedToolCallV1 {
            tool_call_id: self.tool_call_id.clone(),
            tool_name: self.tool_name.clone(),
            arguments_hash: self.arguments_hash.clone(),
            arguments: self.arguments.clone(),
        }
    }
}

/// One event of a provider, in the form that all providers share.
#[derive(Debug, PartialEq, Eq)]
pub struct NormalizedProviderEventV1 {
    pub provider_id: String,
    pub turn_id: TurnId,
    pub kind: NormalizedProviderEventKind,
    pub text: Option<String>,
    pub tool_call: Option<NormalizedToolCallV1>,
}

impl Clone for NormalizedProviderEventV1 {
    fn clone(&self) -> (r: Self)
        ensures
            r == *self,
    {
        NormalizedProviderEventV1 {
            provider_id: self.provider_id.clone(),
            turn_id: self.turn_id.clone(),
            kind: self.kind,
            text: copy_opt(&self.text),
            tool_call: match &self.tool_call {
                Some(call) => Some(call.clone()),
                None => None,
            },
        }
    }
}

/// The providers that can work on a run.
#[derive(Clone, Copy, Debug, PartialEq, Eq, Structural)]
pub enum ProviderIdV1 {
    CodexCli,
    Ollama,
    Fake,
}

impl ProviderIdV1 {
    /// The provider's name.
    pub open spec fn name(self) -> Seq<char> {
        match self {
            ProviderIdV1::CodexCli => "codex-cli"@,
            ProviderIdV1::Ollama => "ollama"@,
            ProviderIdV1::Fake => "fake"@,
        }
    }

    /// The provider's name.
    pub fn as_str(&self) -> (r: &'static str)
        ensures
            r@ == self.name(),
    {
        match self {
            ProviderIdV1::CodexCli => "codex-cli",
            ProviderIdV1::Ollama => "ollama",
            ProviderIdV1::Fake => "fake",
        }
    }
}

/// What kind of service a provider is.
#[derive(Clone, Copy, Debug, PartialEq, Eq, Structural)]
pub enum ProviderType {
    LocalApi,
    RemoteApi,
    Fake,
}

/// What a provider can do.
#[derive(Clone, Debug, PartialEq, Eq)]
pub struct ProviderCapabilitiesV1 {
    pub provider_id: String,
    pub provider_type: ProviderType,
    pub supports_streaming: bool,
    pub supports_native_tool_calls: bool,
    pub supports_session_continuity: bool,
    pub supports_cancellation: bool,
    pub context_limit: usize,
    pub output_limit: usize,
}

/// A conversation with a provider.
#[derive(Debug, PartialEq, Eq)]
pub struct ProviderSessionV1 {
    pub provider_id: String,
    pub provider_session_id: String,
    pub model_id: String,
    pub keep_alive: Option<String>,
}

/// A tool as a model sees it. The input schema is JSON text.
#[derive(Debug, PartialEq, Eq)]
pub struct ToolDefinitionV1 {
    pub name: String,
    pub description: String,
    pub input_schema: String,
    pub mutation_kind: ToolMutationKind,
}

impl Clone for ToolDefinitionV1 {
    fn clone(&self) -> (r: Self)
        ensures
            r == *self,
    {
        ToolDefinitionV1 {
            name: self.name.clone(),
            description: self.description.clone(),
            input_schema: self.input_schema.clone(),
            mutation_kind: self.mutation_kind,
        }
    }
}

/// One turn that a provider is asked for. The context is JSON text.
#[derive(Clone, Debug, PartialEq, Eq)]
pub struct ProviderTurnRequestV1 {
    pub run_id: RunId,
    pub worker_session_id: WorkerSessionId,
    pub turn_id: TurnId,
    pub model_id: String,
    pub context_json: String,
    pub tool_definitions: Vec<ToolDefinitionV1>,
    pub max_output_bytes: usize,
}

/// A turn, with the conversation that it continues.
#[derive(Debug, PartialEq, Eq)]
pub struct WorkerProviderTurnRequestV1 {
    pub provider_session: ProviderSessionV1,
    pub turn: ProviderTurnRequestV1,
    pub history: Vec<ProviderMessageV1>,
    pub json_envelope_recovery: bool,
}

/// A turn that a provider is working on.
#[derive(Debug, PartialEq, Eq)]
pub struct ProviderTurnHandleV1 {
    pub provider_id: ProviderIdV1,
    pub handle_id: String,
    pub provider_session_id: String,
    pub worker_session_id: WorkerSessionId,
    pub turn_id: TurnId,
}

impl Clone for ProviderTurnHandleV1 {
    fn clone(&self) -> (r: Self)
        ensures
            r == *self,
    {
        ProviderTurnHandleV1 {
            provider_id: self.provider_id,
            handle_id: self.handle_id.clone(),
            provider_session_id: self.provider_session_id.clone(),
            worker_session_id: self.worker_session_id.clone(),
            turn_id: self.turn_id.clone(),
        }
    }
}

/// The events that a turn has brought since the last look.
#[derive(Clone, Debug, PartialEq, Eq)]
pub struct ProviderEventBatchV1 {
    pub events: Vec<NormalizedProviderEventV1>,
    pub next_cursor: u64,
    pub terminal: bool,
    pub provider_session_id: Option<String>,
}

/// Whether a provider can be used.
#[derive(Clone, Copy, Debug, PartialEq, Eq, Structural)]
pub enum ProviderHealthStatus {
    Available,
    Unavailable,
}

/// How a provider does.
#[derive(Clone, Debug, PartialEq, Eq)]
pub struct ProviderHealthV1 {
    pub provider_id: String,
    pub status: ProviderHealthStatus,
    pub available_models: Vec<String>,
    pub detail: String,
}

/// A text that speaks of a rate limit.
pub open spec fn speaks_of_rate_limit(text: Seq<char>) -> bool {
    let t = lowered(text);
    ||| has_text(t, "rate limit"@)
    ||| has_text(t, "too many requests"@)
    ||| has_text(t, "http 429"@)
    ||| has_text(t, "status 429"@)
}

/// Whether a text speaks of a rate limit.
pub fn is_rate_limit_text(value: &str) -> (r: bool)
    ensures
        r == speaks_of_rate_limit(value@),
{
    let t: String = to_lower(value);
    contains(t.as_str(), "rate limit") || contains(t.as_str(), "too many requests") || contains(
        t.as_str(),
        "http 429",
    ) || contains(t.as_str(), "status 429")
}

/// An event that ends a turn because of a rate limit.
pub open spec fn is_rate_limit(event: NormalizedProviderEventV1) -> bool {
    event.kind == NormalizedProviderEventKind::TerminalError && event.text is Some
        && speaks_of_rate_limit(event.text->0@)
}

/// Whether an event ends a turn because of a rate limit.
pub fn is_rate_limit_event(event: &NormalizedProviderEventV1) -> (r: bool)
    ensures
        r == is_rate_limit(*event),
{
    if event.kind != NormalizedProviderEventKind::TerminalError {
        return false;
    }
    match &event.text {
        Some(t) => is_rate_limit_text(t.as_str()),
        None => false,
    }
}

/// An event of this kind is among the events.
pub open spec fn has_kind(events: Seq<NormalizedProviderEventV1>, kind: NormalizedProviderEventKind) -> bool {
    exists|i: int| 0 <= i < events.len() && (#[trigger] events[i]).kind == kind
}

/// Whether an event of this kind is among the events.
pub fn any_of_kind(events: &Vec<NormalizedProviderEventV1>, kind: NormalizedProviderEventKind) -> (r: bool)
    ensures
        r == has_kind(events@, kind),
{
    let mut i: usize = 0;
    while i < events.len()
        invariant
            i <= events@.len(),
            forall|j: int| 0 <= j < i ==> (#[trigger] events@[j]).kind != kind,
        decreases events@.len() - i,
    {
        if events[i].kind == kind {
            assert(events@[i as int].kind == kind);
            return true;
        }
        i += 1;
    }
    false
}

/// A rate limit is among the events.
pub open spec fn has_rate_limit(events: Seq<NormalizedProviderEventV1>) -> bool {
    exists|i: int| 0 <= i < events.len() && is_rate_limit(#[trigger] events[i])
}

/// Whether a rate limit is among the events.
pub fn any_rate_limit(events: &Vec<NormalizedProviderEventV1>) -> (r: bool)
    ensures
        r == has_rate_limit(events@),
{
    let mut i: usize = 0;
    while i < events.len()
        invariant
            i <= events@.len(),
            forall|j: int| 0 <= j < i ==> !is_rate_limit(#[trigger] events@[j]),
        decreases events@.len() - i,
    {
        if is_rate_limit_event(&events[i]) {
            assert(is_rate_limit(events@[i as int]));
            return true;
        }
        i += 1;
    }
    false
}

impl ProviderMessageV1 {
    /// The fields of the message, as JSON.
    pub open spec fn json_fields(self) -> Seq<Seq<char>> {
        seq![
            field("role"@, json_string(self.role@)),
            field("content"@, json_string(self.content@)),
            field("toolCallId"@, optional_string(opt_text(self.tool_call_id))),
            field("toolName"@, optional_string(opt_text(self.tool_name))),
        ]
    }

    /// The message as compact JSON.
    pub open spec fn json(self) -> Seq<char> {
        object(self.json_fields())
    }

    /// Prints the message as compact JSON.
    pub fn to_json(&self) -> (r: String)
        ensures
            r@ == self.json(),
    {
        let mut fields: Vec<String> = Vec::new();
        fields.push(field_text("role", quoted(self.role.as_str()).as_str()));
        fields.push(field_text("content", quoted(self.content.as_str()).as_str()));
        fields.push(field_text("toolCallId", optional_string_text(&self.tool_call_id).as_str()));
        fields.push(field_text("toolName", optional_string_text(&self.tool_name).as_str()));
        assert(texts(fields@) =~= self.json_fields());
        object_text(&fields)
    }
}

/// Messages as a JSON list.
pub open spec fn messages_json(items: Seq<ProviderMessageV1>) -> Seq<char> {
    array(items.map_values(|x: ProviderMessageV1| x.json()))
}

/// Prints messages as a JSON list.
pub fn messages_to_json(items: &Vec<ProviderMessageV1>) -> (r: String)
    ensures
        r@ == messages_json(items@),
{
    let mut parts: Vec<String> = Vec::new();
    let ghost all = items@.map_values(|x: ProviderMessageV1| x.json());
    let mut i: usize = 0;
    while i < items.len()
        invariant
            i <= items@.len(),
            all == items@.map_values(|x: ProviderMessageV1| x.json()),
            texts(parts@) == all.take(i as int),
        decreases items@.len() - i,
    {
        let ghost prior = texts(parts@);
        parts.push(items[i].to_json());
        i += 1;
        assert(texts(parts@) =~= prior.push(all[i - 1]));
        assert(all.take(i as int) =~= all.take(i - 1).push(all[i - 1]));
    }
    assert(all.take(all.len() as int) =~= all);
    array_text(&parts)
}

} // verus!
