//! Turns of a command-line provider that is run as a process of its own.
//!
//! What a process prints is data: it is bounded and stripped of secrets before
//! anything is kept of it.

use vstd::prelude::*;
use vstd::string::*;
use crate::contracts::{TurnId, WorkerSessionId};
use crate::json::{
    JsonValue, JsonView, array, array_text, as_number, as_text, field, field_text, inner_member,
    json_parsed, json_string, member, member_in, number_in, object, object_text, parse_json,
    quoted, string_array, string_array_text, text_in,
};
use crate::laws_provider::lemma_kinds_of_events;
use crate::provider::{
    NormalizedProviderEventKind, NormalizedProviderEventV1, ProviderCapabilitiesV1,
    ProviderEventBatchV1, ProviderHealthStatus, ProviderHealthV1, ProviderIdV1,
    ProviderMessageV1, ProviderSessionV1, ProviderTurnHandleV1, ProviderTurnRequestV1,
    ProviderType, RuntimeError, WorkerProviderTurnRequestV1, any_of_kind, has_kind,
    has_rate_limit, is_rate_limit, is_rate_limit_text, speaks_of_rate_limit,
};
use crate::redaction::{output_redacted, redact_output};
use crate::text::{
    begins_with, blank, byte_len, chars_of, contains, copy_opt, decimal, decode_lossy, has_text,
    is_blank, lemma_ascii_utf8_len, lemma_shortened_is_bounded, lemma_utf8_len_concat,
    lossy_decoded, lowered, occurs_at, opt_text, plus, same, shorten, shortened, starts_with,
    text, texts, to_decimal, to_lower, trim, trimmed, utf8_len,
};

verus! {

const DEFAULT_MAX_EVENT_BYTES: usize = 65_536;

const DEFAULT_MAX_DIAGNOSTIC_BYTES: usize = 8_192;

const MAX_PROMPT_BYTES: usize = 24_576;

/// What a process may do to the workspace.
#[derive(Clone, Copy, Debug, PartialEq, Eq, Structural)]
pub enum CodexCliSandboxV1 {
    ReadOnly,
    WorkspaceWrite,
}

impl CodexCliSandboxV1 {
    /// The value of the flag that asks for this sandbox.
    pub open spec fn flag(self) -> Seq<char> {
        match self {
            CodexCliSandboxV1::ReadOnly => "read-only"@,
            CodexCliSandboxV1::WorkspaceWrite => "workspace-write"@,
        }
    }

    /// The value of the flag that asks for this sandbox.
    pub fn as_flag_value(&self) -> (r: &'static str)
        ensures
            r@ == self.flag(),
    {
        match self {
            CodexCliSandboxV1::ReadOnly => "read-only",
            CodexCliSandboxV1::WorkspaceWrite => "workspace-write",
        }
    }
}

/// How the process is run. Paths are given as text.
#[derive(Clone, Debug, PartialEq, Eq)]
pub struct CodexCliConfigV1 {
    pub executable: String,
    pub working_directory: String,
    pub model_id: Option<String>,
    pub sandbox: CodexCliSandboxV1,
    pub max_event_bytes: usize,
    pub max_diagnostic_bytes: usize,
}

/// What the file system says of the paths of a configuration.
#[derive(Clone, Debug, PartialEq, Eq)]
pub struct CodexPathFactsV1 {
    /// The extension of the executable's file name, empty where it has none.
    pub executable_extension: String,
    pub executable_is_file: bool,
    pub working_directory_is_dir: bool,
}

impl CodexCliConfigV1 {
    /// Why the configuration is refused, if it is.
    pub open spec fn refusal(self, facts: CodexPathFactsV1) -> Option<Seq<char>> {
        let extension = lowered(facts.executable_extension@);
        if extension == "cmd"@ || extension == "bat"@ || extension == "ps1"@ {
            Some("Codex CLI executable must be a direct executable, not a shell shim"@)
        } else if !facts.executable_is_file {
            Some("Codex CLI executable must be an existing file"@)
        } else if !facts.working_directory_is_dir {
            Some("Codex CLI working directory must be an existing directory"@)
        } else if self.max_event_bytes == 0 || self.max_diagnostic_bytes == 0 {
            Some("Codex CLI byte limits must be positive"@)
        } else {
            None
        }
    }

    /// A configuration with the usual limits.
    pub fn new(executable: String, working_directory: String, facts: &CodexPathFactsV1) -> (r: Result<
        Self,
        RuntimeError,
    >)
        ensures
            ({
                let config = CodexCliConfigV1 {
                    executable,
                    working_directory,
                    model_id: None,
                    sandbox: CodexCliSandboxV1::WorkspaceWrite,
                    max_event_bytes: 65_536,
                    max_diagnostic_bytes: 8_192,
                };
                match r {
                    Ok(c) => config.refusal(*facts) is None && c == config,
                    Err(RuntimeError::Validation(message)) => config.refusal(*facts) == Some(
                        message@,
                    ),
                    Err(_) => false,
                }
            }),
    {
        let config: CodexCliConfigV1 = CodexCliConfigV1 {
            executable,
            working_directory,
            model_id: None,
            sandbox: CodexCliSandboxV1::WorkspaceWrite,
            max_event_bytes: DEFAULT_MAX_EVENT_BYTES,
            max_diagnostic_bytes: DEFAULT_MAX_DIAGNOSTIC_BYTES,
        };
        match config.validate(facts) {
            Ok(_) => Ok(config),
            Err(e) => Err(e),
        }
    }

    /// Accepts an executable that is no script of a shell, in a directory that exists.
    pub fn validate(&self, facts: &CodexPathFactsV1) -> (r: Result<(), RuntimeError>)
        ensures
            match r {
                Ok(_) => self.refusal(*facts) is None,
                Err(RuntimeError::Validation(message)) => self.refusal(*facts) == Some(message@),
                Err(_) => false,
            },
    {
        let extension: String = to_lower(facts.executable_extension.as_str());
        if same(extension.as_str(), "cmd") || same(extension.as_str(), "bat") || same(
            extension.as_str(),
            "ps1",
        ) {
            return Err(
                RuntimeError::Validation(
                    text("Codex CLI executable must be a direct executable, not a shell shim"),
                ),
            );
        }
        if !facts.executable_is_file {
            return Err(
                RuntimeError::Validation(text("Codex CLI executable must be an existing file")),
            );
        }
        if !facts.working_directory_is_dir {
            return Err(
                RuntimeError::Validation(
                    text("Codex CLI working directory must be an existing directory"),
                ),
            );
        }
        if self.max_event_bytes == 0 || self.max_diagnostic_bytes == 0 {
            return Err(RuntimeError::Validation(text("Codex CLI byte limits must be positive")));
        }
        Ok(())
    }
}

/// `value` without secrets, and cut to a bound.
pub open spec fn bounded_redacted(value: Seq<char>, max_bytes: nat) -> Seq<char> {
    shortened(output_redacted(value), max_bytes)
}

/// Takes secrets out of a text and cuts it to a bound.
pub fn bounded_redacted_text(value: &str, max_bytes: usize) -> (r: String)
    ensures
        r@ == bounded_redacted(value@, max_bytes as nat),
{
    shorten(redact_output(value).as_str(), max_bytes)
}

/// What the installed command line can do.
#[derive(Clone, Debug, PartialEq, Eq)]
pub struct CodexCliCapabilitiesV1 {
    pub cli_version: String,
    pub supports_jsonl: bool,
    pub supports_resume: bool,
    pub supports_explicit_session_id: bool,
    pub supports_read_only_sandbox: bool,
    pub supports_workspace_write_sandbox: bool,
    pub supports_output_schema: bool,
    pub supports_output_last_message: bool,
    pub supports_owned_process_cancellation: bool,
}

/// The capabilities are those that these texts tell of.
pub open spec fn are_told_of(
    c: CodexCliCapabilitiesV1,
    version: Seq<char>,
    exec_help: Seq<char>,
    resume_help: Seq<char>,
) -> bool {
    &&& c.cli_version@ == bounded_redacted(trimmed(version), 128)
    &&& c.supports_jsonl == (has_text(exec_help, "--json"@) && has_text(resume_help, "--json"@))
    &&& c.supports_resume == (has_text(exec_help, "resume"@) && has_text(
        resume_help,
        "Resume a previous session"@,
    ))
    &&& c.supports_explicit_session_id == has_text(resume_help, "[SESSION_ID]"@)
    &&& c.supports_read_only_sandbox == has_text(exec_help, "read-only"@)
    &&& c.supports_workspace_write_sandbox == has_text(exec_help, "workspace-write"@)
    &&& c.supports_output_schema == has_text(exec_help, "--output-schema"@)
    &&& c.supports_output_last_message == has_text(exec_help, "--output-last-message"@)
    &&& c.supports_owned_process_cancellation
}

impl CodexCliCapabilitiesV1 {
    /// Everything that an autonomous session needs is there.
    pub open spec fn suffices(self) -> bool {
        self.supports_jsonl && self.supports_resume && self.supports_explicit_session_id
            && self.supports_read_only_sandbox && self.supports_workspace_write_sandbox
            && self.supports_owned_process_cancellation
    }

    /// Reads the capabilities off what the command line prints of itself. Nothing is
    /// taken for granted that is not printed.
    pub fn from_command_output(version: &str, exec_help: &str, resume_help: &str) -> (r: Result<
        Self,
        RuntimeError,
    >)
        ensures
            match r {
                Ok(c) => begins_with(trimmed(version@), "codex-cli "@) && are_told_of(
                    c,
                    version@,
                    exec_help@,
                    resume_help@,
                ),
                Err(RuntimeError::Validation(message)) => !begins_with(
                    trimmed(version@),
                    "codex-cli "@,
                ) && message@ == "Codex CLI version output did not have the expected prefix"@,
                Err(_) => false,
            },
    {
        let version: String = trim(version);
        if !starts_with(version.as_str(), "codex-cli ") {
            return Err(
                RuntimeError::Validation(
                    text("Codex CLI version output did not have the expected prefix"),
                ),
            );
        }
        Ok(
            CodexCliCapabilitiesV1 {
                cli_version: bounded_redacted_text(version.as_str(), 128),
                supports_jsonl: contains(exec_help, "--json") && contains(resume_help, "--json"),
                supports_resume: contains(exec_help, "resume") && contains(
                    resume_help,
                    "Resume a previous session",
                ),
                supports_explicit_session_id: contains(resume_help, "[SESSION_ID]"),
                supports_read_only_sandbox: contains(exec_help, "read-only"),
                supports_workspace_write_sandbox: contains(exec_help, "workspace-write"),
                supports_output_schema: contains(exec_help, "--output-schema"),
                supports_output_last_message: contains(exec_help, "--output-last-message"),
                supports_owned_process_cancellation: true,
            },
        )
    }

    /// Accepts a command line that can do everything that an autonomous session needs.
    pub fn required_for_autonomous_loop(&self) -> (r: Result<(), RuntimeError>)
        ensures
            match r {
                Ok(_) => self.suffices(),
                Err(RuntimeError::Validation(message)) => !self.suffices() && message@
                    == "installed Codex CLI lacks a required autonomous-loop capability"@,
                Err(_) => false,
            },
    {
        if self.supports_jsonl && self.supports_resume && self.supports_explicit_session_id
            && self.supports_read_only_sandbox && self.supports_workspace_write_sandbox
            && self.supports_owned_process_cancellation {
            Ok(())
        } else {
            Err(
                RuntimeError::Validation(
                    text("installed Codex CLI lacks a required autonomous-loop capability"),
                ),
            )
        }
    }
}

/// A turn that the process is asked for.
#[derive(Clone, Debug, PartialEq, Eq)]
pub struct CodexCliTurnRequestV1 {
    pub worker_session_id: WorkerSessionId,
    pub turn_id: TurnId,
    pub prompt: String,
}

/// A prompt that is refused, and how.
pub open spec fn prompt_is_refused(prompt: Seq<char>, e: RuntimeError) -> bool {
    if blank(prompt) {
        e matches RuntimeError::Validation(message) && message@ == "Codex prompt must not be empty"@
    } else {
        utf8_len(prompt) > 24_576 && (e matches RuntimeError::BudgetExceeded(message) && message@
            == "Codex prompt exceeds bounded adapter input"@)
    }
}

/// A prompt that can be handed to the process.
pub open spec fn prompt_is_bounded(prompt: Seq<char>) -> bool {
    !blank(prompt) && utf8_len(prompt) <= 24_576
}

impl CodexCliTurnRequestV1 {
    /// Accepts a prompt that is neither blank nor too long.
    pub fn validate(&self) -> (r: Result<(), RuntimeError>)
        ensures
            match r {
                Ok(_) => prompt_is_bounded(self.prompt@),
                Err(e) => prompt_is_refused(self.prompt@, e),
            },
    {
        if is_blank(self.prompt.as_str()) {
            return Err(RuntimeError::Validation(text("Codex prompt must not be empty")));
        }
        if byte_len(self.prompt.as_str()) > MAX_PROMPT_BYTES {
            return Err(
                RuntimeError::BudgetExceeded(text("Codex prompt exceeds bounded adapter input")),
            );
        }
        Ok(())
    }
}

/// A turn that a process works on.
#[derive(Debug, PartialEq, Eq)]
pub struct CodexCliTurnHandleV1 {
    pub handle_id: String,
    pub worker_session_id: WorkerSessionId,
    pub turn_id: TurnId,
    pub resumed_thread_id: Option<String>,
}

impl Clone for CodexCliTurnHandleV1 {
    fn clone(&self) -> (r: Self)
        ensures
            r == *self,
    {
        CodexCliTurnHandleV1 {
            handle_id: self.handle_id.clone(),
            worker_session_id: self.worker_session_id.clone(),
            turn_id: self.turn_id.clone(),
            resumed_thread_id: copy_opt(&self.resumed_thread_id),
        }
    }
}

/// What is needed to take up a conversation again.
#[derive(Clone, Debug, PartialEq, Eq)]
pub struct CodexCliSessionSnapshotV1 {
    pub codex_thread_id: String,
    pub provider_version: String,
    pub model_id: Option<String>,
    pub working_directory: String,
    pub last_completed_turn: Option<TurnId>,
    pub last_event_sequence: u64,
}

/// One event that the process printed.
#[derive(Debug, PartialEq, Eq)]
pub struct CodexCliEventV1 {
    pub event_type: String,
    pub thread_id: Option<String>,
    pub item_type: Option<String>,
    pub text: Option<String>,
    pub retry_after_seconds: Option<u64>,
    pub bounded_summary: String,
}

impl Clone for CodexCliEventV1 {
    fn clone(&self) -> (r: Self)
        ensures
            r == *self,
    {
        CodexCliEventV1 {
            event_type: self.event_type.clone(),
            thread_id: copy_opt(&self.thread_id),
            item_type: copy_opt(&self.item_type),
            text: copy_opt(&self.text),
            retry_after_seconds: self.retry_after_seconds,
            bounded_summary: self.bounded_summary.clone(),
        }
    }
}

/// How a turn stands.
#[derive(Clone, Copy, Debug, PartialEq, Eq, Structural)]
pub enum CodexCliTurnStateV1 {
    Running,
    Completed,
    Failed,
    Cancelled,
    RateLimited,
}

/// The events that a turn has brought since the last look.
#[derive(Clone, Debug, PartialEq, Eq)]
pub struct CodexCliEventBatchV1 {
    pub events: Vec<CodexCliEventV1>,
    pub normalized_events: Vec<NormalizedProviderEventV1>,
    pub next_cursor: u64,
    pub thread_id: Option<String>,
    pub state: CodexCliTurnStateV1,
    pub terminal: bool,
}

/// What comes out of the pipes of a process.
#[derive(Debug)]
pub enum StreamMessage {
    Event(CodexCliEventV1),
    ParseError(String),
    Stderr(String),
}

// ---------------------------------------------------------------------------
// Reading what a process prints

/// The fields of an event, before anything is bounded.
#[derive(Debug)]
pub struct CodexRawEventV1 {
    pub event_type: Option<String>,
    pub thread_id: Option<String>,
    pub item_type: Option<String>,
    pub text: Option<String>,
    pub retry_after_seconds: Option<u64>,
}

/// What is kept of an event in words.
pub open spec fn event_summary(
    event_type: Seq<char>,
    item_type: Option<Seq<char>>,
    retry_after: Option<u64>,
) -> Seq<char> {
    "Codex event type="@ + event_type + "; itemType="@ + match item_type {
        Some(t) => t,
        None => "<none>"@,
    } + "; retryAfter="@ + match retry_after {
        Some(n) => decimal(n as nat),
        None => "<none>"@,
    }
}

/// The event is the one that these fields make.
pub open spec fn is_event_of(
    event: CodexCliEventV1,
    raw: CodexRawEventV1,
    max_event_bytes: usize,
) -> bool {
    &&& Some(event.event_type) == raw.event_type
    &&& event.thread_id == raw.thread_id
    &&& event.item_type == raw.item_type
    &&& opt_text(event.text) == match raw.text {
        Some(t) => Some(bounded_redacted(t@, max_event_bytes as nat)),
        None => None,
    }
    &&& event.retry_after_seconds == raw.retry_after_seconds
    &&& event.bounded_summary@ == bounded_redacted(
        event_summary(event.event_type@, opt_text(raw.item_type), raw.retry_after_seconds),
        if max_event_bytes < 8_192 {
            max_event_bytes as nat
        } else {
            8_192
        },
    )
}

/// Makes an event of its fields: it must have a type, and its texts are bounded.
pub fn event_of(raw: CodexRawEventV1, max_event_bytes: usize) -> (r: Result<
    CodexCliEventV1,
    RuntimeError,
>)
    ensures
        match r {
            Ok(event) => raw.event_type is Some && raw.event_type->0@.len() > 0 && is_event_of(
                event,
                raw,
                max_event_bytes,
            ),
            Err(RuntimeError::MalformedOutput(message)) => (raw.event_type is None
                || raw.event_type->0@.len() == 0) && message@ == "Codex event omitted type"@,
            Err(_) => false,
        },
{
    let event_type: String = match &raw.event_type {
        Some(t) => t.clone(),
        None => return Err(RuntimeError::MalformedOutput(text("Codex event omitted type"))),
    };
    if chars_of(event_type.as_str()).len() == 0 {
        return Err(RuntimeError::MalformedOutput(text("Codex event omitted type")));
    }
    let item: String = match &raw.item_type {
        Some(t) => t.clone(),
        None => text("<none>"),
    };
    let retry: String = match raw.retry_after_seconds {
        Some(n) => to_decimal(n),
        None => text("<none>"),
    };
    let summary: String = text("Codex event type=").concat(event_type.as_str()).concat(
        "; itemType=",
    ).concat(item.as_str()).concat("; retryAfter=").concat(retry.as_str());
    let summary_limit: usize = if max_event_bytes < DEFAULT_MAX_DIAGNOSTIC_BYTES {
        max_event_bytes
    } else {
        DEFAULT_MAX_DIAGNOSTIC_BYTES
    };
    Ok(
        CodexCliEventV1 {
            event_type,
            thread_id: raw.thread_id,
            item_type: raw.item_type,
            text: match &raw.text {
                Some(t) => Some(bounded_redacted_text(t.as_str(), max_event_bytes)),
                None => None,
            },
            retry_after_seconds: raw.retry_after_seconds,
            bounded_summary: bounded_redacted_text(summary.as_str(), summary_limit),
        },
    )
}

/// `a`, or `b` where there is no `a`.
pub open spec fn first_of(a: Option<Seq<char>>, b: Option<Seq<char>>) -> Option<Seq<char>> {
    if a is Some {
        a
    } else {
        b
    }
}

/// The fields are those of this JSON value.
pub open spec fn are_fields_of(raw: CodexRawEventV1, value: JsonView) -> bool {
    let item = member(value, "item"@);
    &&& opt_text(raw.event_type) == as_text(member(value, "type"@))
    &&& opt_text(raw.thread_id) == as_text(member(value, "thread_id"@))
    &&& opt_text(raw.item_type) == as_text(inner_member(item, "type"@))
    &&& opt_text(raw.text) == as_text(
        first_of(inner_member(item, "text"@), member(value, "message"@)),
    )
    &&& raw.retry_after_seconds == as_number(
        first_of(member(value, "retry_after"@), member(value, "retryAfter"@)),
    )
}

/// Reads the fields of an event off a JSON value.
pub fn raw_event(value: &JsonValue) -> (r: CodexRawEventV1)
    ensures
        are_fields_of(r, value@),
{
    let item: Option<String> = value.get("item");
    let inner_text: Option<String> = member_in(&item, "text");
    let said: Option<String> = if inner_text.is_some() {
        inner_text
    } else {
        value.get("message")
    };
    let snake: Option<String> = value.get("retry_after");
    let retry: Option<String> = if snake.is_some() {
        snake
    } else {
        value.get("retryAfter")
    };
    CodexRawEventV1 {
        event_type: text_in(&value.get("type")),
        thread_id: text_in(&value.get("thread_id")),
        item_type: text_in(&member_in(&item, "type")),
        text: text_in(&said),
        retry_after_seconds: number_in(&retry),
    }
}

/// The event is the one that this line holds.
pub open spec fn is_event_in(event: CodexCliEventV1, line: Seq<char>, max_event_bytes: usize) -> bool {
    &&& json_parsed(line) is Ok
    &&& exists|raw: CodexRawEventV1|
        are_fields_of(raw, json_parsed(line)->Ok_0) && #[trigger] is_event_of(
            event,
            raw,
            max_event_bytes,
        )
}

/// A line that holds no event, and what is said of it.
pub open spec fn line_is_refused(line: Seq<char>, max_event_bytes: usize, e: RuntimeError) -> bool {
    if utf8_len(line) > max_event_bytes {
        e matches RuntimeError::BudgetExceeded(message) && message@
            == "Codex JSONL event exceeds configured byte limit"@
    } else {
        match json_parsed(line) {
            Err(problem) => e matches RuntimeError::MalformedOutput(message) && message@
                == "invalid Codex JSONL event: "@ + problem,
            Ok(value) => {
                &&& as_text(member(value, "type"@)) is None || as_text(
                    member(value, "type"@),
                )->0.len() == 0
                &&& e matches RuntimeError::MalformedOutput(message) && message@
                    == "Codex event omitted type"@
            },
        }
    }
}

/// Reads one line of output.
pub fn parse_codex_jsonl_event(line: &str, max_event_bytes: usize) -> (r: Result<
    CodexCliEventV1,
    RuntimeError,
>)
    ensures
        match r {
            Ok(event) => utf8_len(line@) <= max_event_bytes && event.event_type@.len() > 0
                && is_event_in(event, line@, max_event_bytes),
            Err(e) => line_is_refused(line@, max_event_bytes, e),
        },
{
    if byte_len(line) > max_event_bytes {
        return Err(
            RuntimeError::BudgetExceeded(text("Codex JSONL event exceeds configured byte limit")),
        );
    }
    match parse_json(line) {
        Err(problem) => Err(
            RuntimeError::MalformedOutput(plus("invalid Codex JSONL event: ", problem.as_str())),
        ),
        Ok(value) => {
            let raw: CodexRawEventV1 = raw_event(&value);
            let ghost fields = raw;
            let r: Result<CodexCliEventV1, RuntimeError> = event_of(raw, max_event_bytes);
            proof {
                if r is Ok {
                    assert(is_event_of(r->Ok_0, fields, max_event_bytes));
                }
            }
            r
        },
    }
}

/// How long a rate limit asks to wait, if the event speaks of one: zero where it does
/// not say.
pub open spec fn rate_limit_wait(event: CodexCliEventV1) -> Option<u64> {
    if event.retry_after_seconds is Some {
        event.retry_after_seconds
    } else if speaks_of_rate_limit(event.bounded_summary@) || (event.text is Some
        && speaks_of_rate_limit(event.text->0@)) {
        Some(0)
    } else {
        None
    }
}

/// Says how long a rate limit asks to wait, if the event speaks of one.
pub fn classify_rate_limit(event: &CodexCliEventV1) -> (r: Option<u64>)
    ensures
        r == rate_limit_wait(*event),
{
    if event.retry_after_seconds.is_some() {
        return event.retry_after_seconds;
    }
    if is_rate_limit_text(event.bounded_summary.as_str()) {
        return Some(0);
    }
    match &event.text {
        Some(t) => if is_rate_limit_text(t.as_str()) {
            Some(0)
        } else {
            None
        },
        None => None,
    }
}

/// What one line of the process's output becomes.
pub fn stdout_message(line: &str, max_event_bytes: usize) -> (r: StreamMessage)
    ensures
        match r {
            StreamMessage::Event(event) => utf8_len(line@) <= max_event_bytes
                && event.event_type@.len() > 0 && is_event_in(event, line@, max_event_bytes),
            StreamMessage::ParseError(problem) => if utf8_len(line@) > max_event_bytes {
                problem@ == "Codex JSONL event exceeded configured byte limit"@
            } else {
                exists|e: RuntimeError| #[trigger]
                    line_is_refused(line@, max_event_bytes, e) && problem@ == e.debug()
            },
            StreamMessage::Stderr(_) => false,
        },
{
    if byte_len(line) > max_event_bytes {
        return StreamMessage::ParseError(text("Codex JSONL event exceeded configured byte limit"));
    }
    match parse_codex_jsonl_event(line, max_event_bytes) {
        Ok(event) => StreamMessage::Event(event),
        Err(e) => {
            assert(line_is_refused(line@, max_event_bytes, e));
            StreamMessage::ParseError(e.debug_text())
        },
    }
}

/// What one line of the process's diagnostics becomes.
pub fn stderr_message(line: &str, max_bytes: usize) -> (r: StreamMessage)
    ensures
        r matches StreamMessage::Stderr(kept) && kept@ == bounded_redacted(line@, max_bytes as nat),
{
    StreamMessage::Stderr(bounded_redacted_text(line, max_bytes))
}

// ---------------------------------------------------------------------------
// One turn

/// What is known of a turn that a process works on.
#[derive(Debug)]
pub struct CodexTurnV1 {
    pub events: Vec<CodexCliEventV1>,
    pub normalized_events: Vec<NormalizedProviderEventV1>,
    pub thread_id: Option<String>,
    pub stderr: String,
    /// Whether the process succeeded, once it has ended.
    pub exited: Option<bool>,
    pub cancelled: bool,
    pub cancel_event_emitted: bool,
}

/// What kind of event an event of the process is, in the form that all providers share.
pub open spec fn shared_kind(event_type: Seq<char>) -> NormalizedProviderEventKind {
    if event_type == "turn.completed"@ {
        NormalizedProviderEventKind::CompletionClaim
    } else if event_type == "turn.failed"@ || event_type == "error"@ {
        NormalizedProviderEventKind::TerminalError
    } else {
        NormalizedProviderEventKind::TextDelta
    }
}

/// A provider event of this kind, with this text.
pub open spec fn is_shared_event(
    event: NormalizedProviderEventV1,
    turn_id: TurnId,
    kind: NormalizedProviderEventKind,
    said: Seq<char>,
) -> bool {
    &&& event.provider_id@ == ProviderIdV1::CodexCli.name()
    &&& event.turn_id == turn_id
    &&& event.kind == kind
    &&& opt_text(event.text) == Some(said)
    &&& event.tool_call is None
}

fn shared_event(turn_id: &TurnId, kind: NormalizedProviderEventKind, said: &str) -> (r:
    NormalizedProviderEventV1)
    ensures
        is_shared_event(r, *turn_id, kind, said@),
{
    NormalizedProviderEventV1 {
        provider_id: text(ProviderIdV1::CodexCli.as_str()),
        turn_id: turn_id.clone(),
        kind,
        text: Some(text(said)),
        tool_call: None,
    }
}

/// Brings an event into the form that all providers share.
pub fn normalize_codex_event(event: &CodexCliEventV1, turn_id: &TurnId) -> (r:
    NormalizedProviderEventV1)
    ensures
        is_shared_event(
            r,
            *turn_id,
            shared_kind(event.event_type@),
            match event.text {
                Some(t) => t@,
                None => event.bounded_summary@,
            },
        ),
        r.kind == NormalizedProviderEventKind::CompletionClaim <==> event.event_type@
            == "turn.completed"@,
        r.kind == NormalizedProviderEventKind::TerminalError <==> event.event_type@
            == "turn.failed"@ || event.event_type@ == "error"@,
        event.text is Some ==> r.text is Some && r.text->0@ == event.text->0@,
        event.text is None ==> r.text is Some && r.text->0@ == event.bounded_summary@,
        r.turn_id == *turn_id,
{
    proof {
        lemma_kinds_of_events(event.event_type@);
    }
    let name: &str = event.event_type.as_str();
    let kind: NormalizedProviderEventKind = if same(name, "turn.completed") {
        NormalizedProviderEventKind::CompletionClaim
    } else if same(name, "turn.failed") || same(name, "error") {
        NormalizedProviderEventKind::TerminalError
    } else {
        NormalizedProviderEventKind::TextDelta
    };
    match &event.text {
        Some(t) => shared_event(turn_id, kind, t.as_str()),
        None => shared_event(turn_id, kind, event.bounded_summary.as_str()),
    }
}

/// Diagnostics with one line more, as far as the bound lets them grow.
pub open spec fn with_line(target: Seq<char>, line: Seq<char>, max_bytes: nat) -> Seq<char> {
    if utf8_len(target) >= max_bytes {
        target
    } else {
        let begun = if target.len() == 0 {
            target
        } else {
            target + "\n"@
        };
        let left = if utf8_len(begun) <= max_bytes {
            (max_bytes - utf8_len(begun)) as nat
        } else {
            0
        };
        begun + bounded_redacted(line, left)
    }
}

/// Appends a line of diagnostics, as far as the bound lets them grow.
pub fn append_bounded(target: &str, line: &str, max_bytes: usize) -> (r: String)
    ensures
        r@ == with_line(target@, line@, max_bytes as nat),
{
    if byte_len(target) >= max_bytes {
        return text(target);
    }
    let begun: String = if chars_of(target).len() == 0 {
        text(target)
    } else {
        plus(target, "\n")
    };
    let remaining: usize = max_bytes.saturating_sub(byte_len(begun.as_str()));
    begun.concat(bounded_redacted_text(line, remaining).as_str())
}

/// Diagnostics that have reached their bound grow no more, and never grow by more than
/// the bound leaves, a line break and three dots.
pub proof fn lemma_diagnostics_are_bounded(target: Seq<char>, line: Seq<char>, max_bytes: nat)
    requires
        utf8_len(target) <= max_bytes + 4,
    ensures
        utf8_len(with_line(target, line, max_bytes)) <= max_bytes + 4,
{
    reveal_strlit("\n");
    lemma_ascii_utf8_len("\n"@);
    lemma_utf8_len_concat(target, "\n"@);
    if utf8_len(target) < max_bytes {
        let begun = if target.len() == 0 {
            target
        } else {
            target + "\n"@
        };
        let left = if utf8_len(begun) <= max_bytes {
            (max_bytes - utf8_len(begun)) as nat
        } else {
            0
        };
        lemma_shortened_is_bounded(output_redacted(line), left);
        lemma_utf8_len_concat(begun, bounded_redacted(line, left));
    }
}

/// An event speaks of a rate limit.
pub open spec fn is_limited(event: CodexCliEventV1) -> bool {
    event.retry_after_seconds is Some || speaks_of_rate_limit(event.bounded_summary@)
}

/// An event among these speaks of a rate limit.
pub open spec fn some_limited(events: Seq<CodexCliEventV1>) -> bool {
    exists|i: int| 0 <= i < events.len() && is_limited(#[trigger] events[i])
}

fn any_limited(events: &Vec<CodexCliEventV1>) -> (r: bool)
    ensures
        r == some_limited(events@),
{
    let mut i: usize = 0;
    while i < events.len()
        invariant
            i <= events@.len(),
            forall|j: int| 0 <= j < i ==> !is_limited(#[trigger] events@[j]),
        decreases events@.len() - i,
    {
        if events[i].retry_after_seconds.is_some() || is_rate_limit_text(
            events[i].bounded_summary.as_str(),
        ) {
            assert(is_limited(events@[i as int]));
            return true;
        }
        i += 1;
    }
    false
}

/// The event by which a turn says that it was cancelled.
pub open spec fn is_cancel_event(event: CodexCliEventV1, thread_id: Option<String>) -> bool {
    &&& event.event_type@ == "cancelled"@
    &&& event.thread_id == thread_id
    &&& event.item_type is None
    &&& event.text is None
    &&& event.retry_after_seconds is None
    &&& event.bounded_summary@ == "Codex child process cancelled by CatDesk"@
}

/// The event that stands for output that could not be read.
pub open spec fn is_problem_event(
    event: CodexCliEventV1,
    thread_id: Option<String>,
    problem: Seq<char>,
) -> bool {
    &&& event.event_type@ == "parse.error"@
    &&& event.thread_id == thread_id
    &&& event.item_type is None
    &&& event.text is None
    &&& event.retry_after_seconds is None
    &&& event.bounded_summary@ == problem
}

/// `after` is `before` with one message of the process taken in.
pub open spec fn takes_in(
    before: CodexTurnV1,
    after: CodexTurnV1,
    message: StreamMessage,
    turn_id: TurnId,
    max_diagnostic_bytes: usize,
) -> bool {
    match message {
        StreamMessage::Event(event) => {
            &&& after.events@ == before.events@.push(event)
            &&& after.normalized_events@.len() == before.normalized_events@.len() + 1
            &&& after.normalized_events@.drop_last() == before.normalized_events@
            &&& is_shared_event(
                after.normalized_events@.last(),
                turn_id,
                shared_kind(event.event_type@),
                match event.text {
                    Some(t) => t@,
                    None => event.bounded_summary@,
                },
            )
            &&& after == (CodexTurnV1 {
                events: after.events,
                normalized_events: after.normalized_events,
                thread_id: if event.thread_id is Some {
                    event.thread_id
                } else {
                    before.thread_id
                },
                ..before
            })
        },
        StreamMessage::ParseError(problem) => {
            let said = bounded_redacted(problem@, max_diagnostic_bytes as nat);
            &&& after.events@.len() == before.events@.len() + 1
            &&& after.events@.drop_last() == before.events@
            &&& is_problem_event(after.events@.last(), before.thread_id, said)
            &&& after.normalized_events@.len() == before.normalized_events@.len() + 1
            &&& after.normalized_events@.drop_last() == before.normalized_events@
            &&& is_shared_event(
                after.normalized_events@.last(),
                turn_id,
                NormalizedProviderEventKind::TerminalError,
                said,
            )
            &&& after == (CodexTurnV1 {
                events: after.events,
                normalized_events: after.normalized_events,
                ..before
            })
        },
        StreamMessage::Stderr(line) => {
            &&& after.stderr@ == with_line(before.stderr@, line@, max_diagnostic_bytes as nat)
            &&& after == (CodexTurnV1 { stderr: after.stderr, ..before })
        },
    }
}

/// The events of a batch are those behind a cursor.
pub open spec fn behind<A>(all: Seq<A>, cursor: u64) -> Seq<A> {
    if cursor >= all.len() {
        Seq::empty()
    } else {
        all.skip(cursor as int)
    }
}

/// The batch tells how the turn stands, from a cursor on.
pub open spec fn is_batch(batch: CodexCliEventBatchV1, turn: CodexTurnV1, cursor: u64) -> bool {
    &&& batch.events@ == behind(turn.events@, cursor)
    &&& batch.normalized_events@ == behind(turn.normalized_events@, cursor)
    &&& batch.next_cursor == turn.events@.len()
    &&& batch.thread_id == turn.thread_id
    &&& batch.state == turn.standing()
    &&& batch.terminal == (turn.standing() != CodexCliTurnStateV1::Running)
}

/// `after` is `before` with the cancellation told, where it was not told yet.
pub open spec fn tells_cancellation(before: CodexTurnV1, after: CodexTurnV1, turn_id: TurnId) -> bool {
    if before.cancelled && !before.cancel_event_emitted {
        &&& after.events@.len() == before.events@.len() + 1
        &&& after.events@.drop_last() == before.events@
        &&& is_cancel_event(after.events@.last(), before.thread_id)
        &&& after.normalized_events@.len() == before.normalized_events@.len() + 1
        &&& after.normalized_events@.drop_last() == before.normalized_events@
        &&& is_shared_event(
            after.normalized_events@.last(),
            turn_id,
            NormalizedProviderEventKind::CancelAck,
            "Codex child process cancelled by CatDesk"@,
        )
        &&& after == (CodexTurnV1 {
            events: after.events,
            normalized_events: after.normalized_events,
            cancel_event_emitted: true,
            ..before
        })
    } else {
        after == before
    }
}

impl CodexTurnV1 {
    /// Each event stands in both forms.
    pub open spec fn wf(self) -> bool {
        self.events@.len() == self.normalized_events@.len()
    }

    /// How the turn stands.
    pub open spec fn standing(self) -> CodexCliTurnStateV1 {
        if self.cancelled {
            CodexCliTurnStateV1::Cancelled
        } else if some_limited(self.events@) || speaks_of_rate_limit(self.stderr@) {
            CodexCliTurnStateV1::RateLimited
        } else {
            match self.exited {
                Some(true) => CodexCliTurnStateV1::Completed,
                Some(false) => CodexCliTurnStateV1::Failed,
                None => CodexCliTurnStateV1::Running,
            }
        }
    }

    /// A turn of which nothing is known yet but the thread that it goes on with.
    pub fn new(resume_thread_id: &Option<String>) -> (r: Self)
        ensures
            r.wf(),
            r.is_fresh(*resume_thread_id),
    {
        CodexTurnV1 {
            events: Vec::new(),
            normalized_events: Vec::new(),
            thread_id: copy_opt(resume_thread_id),
            stderr: String::new(),
            exited: None,
            cancelled: false,
            cancel_event_emitted: false,
        }
    }

    /// Nothing is known of the turn yet but the thread that it goes on with.
    pub open spec fn is_fresh(self, thread: Option<String>) -> bool {
        &&& self.events@.len() == 0
        &&& self.normalized_events@.len() == 0
        &&& self.thread_id == thread
        &&& self.stderr@ == Seq::<char>::empty()
        &&& self.exited is None
        &&& !self.cancelled
        &&& !self.cancel_event_emitted
    }

    /// Takes in one message of the process.
    pub fn accept(&mut self, message: StreamMessage, turn_id: &TurnId, max_diagnostic_bytes: usize)
        requires
            old(self).wf(),
        ensures
            final(self).wf(),
            takes_in(*old(self), *final(self), message, *turn_id, max_diagnostic_bytes),
    {
        match message {
            StreamMessage::Event(event) => {
                if event.thread_id.is_some() {
                    self.thread_id = copy_opt(&event.thread_id);
                }
                self.normalized_events.push(normalize_codex_event(&event, turn_id));
                self.events.push(event);
            },
            StreamMessage::ParseError(problem) => {
                let said: String = bounded_redacted_text(problem.as_str(), max_diagnostic_bytes);
                self.normalized_events.push(
                    shared_event(
                        turn_id,
                        NormalizedProviderEventKind::TerminalError,
                        said.as_str(),
                    ),
                );
                self.events.push(
                    CodexCliEventV1 {
                        event_type: text("parse.error"),
                        thread_id: copy_opt(&self.thread_id),
                        item_type: None,
                        text: None,
                        retry_after_seconds: None,
                        bounded_summary: said,
                    },
                );
                assert(self.events@.drop_last() =~= old(self).events@);
            },
            StreamMessage::Stderr(line) => {
                self.stderr = append_bounded(
                    self.stderr.as_str(),
                    line.as_str(),
                    max_diagnostic_bytes,
                );
            },
        }
        proof {
            if self.normalized_events@.len() > old(self).normalized_events@.len() {
                assert(self.normalized_events@.drop_last() =~= old(self).normalized_events@);
            }
        }
    }

    /// How the turn stands.
    pub fn state(&self) -> (r: CodexCliTurnStateV1)
        ensures
            r == self.standing(),
    {
        if self.cancelled {
            return CodexCliTurnStateV1::Cancelled;
        }
        if any_limited(&self.events) || is_rate_limit_text(self.stderr.as_str()) {
            return CodexCliTurnStateV1::RateLimited;
        }
        match self.exited {
            Some(success) => if success {
                CodexCliTurnStateV1::Completed
            } else {
                CodexCliTurnStateV1::Failed
            },
            None => CodexCliTurnStateV1::Running,
        }
    }

    /// Tells how the turn stands, with the events behind a cursor. A cancellation that
    /// was not told yet comes last.
    pub fn poll(&mut self, turn_id: &TurnId, after_cursor: u64) -> (r: Result<
        CodexCliEventBatchV1,
        RuntimeError,
    >)
        requires
            old(self).wf(),
        ensures
            final(self).wf(),
            match r {
                Ok(batch) => {
                    &&& after_cursor <= usize::MAX
                    &&& tells_cancellation(*old(self), *final(self), *turn_id)
                    &&& after_cursor <= old(self).events@.len() ==> is_batch(
                        batch,
                        *final(self),
                        after_cursor,
                    )
                    &&& after_cursor > old(self).events@.len() ==> is_batch(
                        batch,
                        *final(self),
                        old(self).events@.len() as u64,
                    )
                },
                Err(RuntimeError::Validation(message)) => after_cursor > usize::MAX && *final(self)
                    == *old(self) && message@ == "Codex event cursor is too large"@,
                Err(_) => false,
            },
    {
        if after_cursor > usize::MAX as u64 {
            return Err(RuntimeError::Validation(text("Codex event cursor is too large")));
        }
        let known: usize = self.events.len();
        let start: usize = if after_cursor > known as u64 {
            known
        } else {
            after_cursor as usize
        };
        if self.cancelled && !self.cancel_event_emitted {
            self.cancel_event_emitted = true;
            self.events.push(
                CodexCliEventV1 {
                    event_type: text("cancelled"),
                    thread_id: copy_opt(&self.thread_id),
                    item_type: None,
                    text: None,
                    retry_after_seconds: None,
                    bounded_summary: text("Codex child process cancelled by CatDesk"),
                },
            );
            self.normalized_events.push(
                shared_event(
                    turn_id,
                    NormalizedProviderEventKind::CancelAck,
                    "Codex child process cancelled by CatDesk",
                ),
            );
            assert(self.events@.drop_last() =~= old(self).events@);
            assert(self.normalized_events@.drop_last() =~= old(self).normalized_events@);
        }
        let mut events: Vec<CodexCliEventV1> = Vec::new();
        let mut normalized_events: Vec<NormalizedProviderEventV1> = Vec::new();
        let len: usize = self.events.len();
        let ghost now = *self;
        let mut i: usize = start;
        while i < len
            invariant
                *self == now,
                now.wf(),
                len == now.events@.len(),
                start <= i <= len,
                events@ == now.events@.subrange(start as int, i as int),
                normalized_events@ == now.normalized_events@.subrange(start as int, i as int),
            decreases len - i,
        {
            events.push(self.events[i].clone());
            normalized_events.push(self.normalized_events[i].clone());
            i += 1;
            assert(events@ =~= now.events@.subrange(start as int, i as int));
            assert(normalized_events@ =~= now.normalized_events@.subrange(start as int, i as int));
        }
        assert(events@ =~= behind(now.events@, start as u64));
        assert(normalized_events@ =~= behind(now.normalized_events@, start as u64));
        let state: CodexCliTurnStateV1 = self.state();
        Ok(
            CodexCliEventBatchV1 {
                events,
                normalized_events,
                next_cursor: len as u64,
                thread_id: copy_opt(&self.thread_id),
                state,
                terminal: state != CodexCliTurnStateV1::Running,
            },
        )
    }
}

/// Reading on from where a batch ended gives nothing twice and leaves nothing out:
/// what was read and what is read next make up what is there.
pub proof fn lemma_batches_meet<A>(seen: Seq<A>, all: Seq<A>, cursor: u64)
    requires
        seen.len() <= all.len(),
        all.take(seen.len() as int) == seen,
        cursor <= seen.len() <= u64::MAX,
    ensures
        behind(seen, cursor) + behind(all, seen.len() as u64) == behind(all, cursor),
{
    assert(behind(seen, cursor) + behind(all, seen.len() as u64) =~= behind(all, cursor));
}

/// A turn that was cancelled stays cancelled, whatever the process still prints.
pub proof fn lemma_cancelled_turn_stays_cancelled(
    before: CodexTurnV1,
    after: CodexTurnV1,
    message: StreamMessage,
    turn_id: TurnId,
    max_diagnostic_bytes: usize,
)
    requires
        before.cancelled,
        takes_in(before, after, message, turn_id, max_diagnostic_bytes),
    ensures
        after.standing() == CodexCliTurnStateV1::Cancelled,
{
}

// ---------------------------------------------------------------------------
// Running the process

/// The arguments of the process.
pub open spec fn turn_arguments(
    config: CodexCliConfigV1,
    prompt: Seq<char>,
    resume_thread_id: Option<Seq<char>>,
) -> Seq<Seq<char>> {
    seq!["exec"@] + match resume_thread_id {
        Some(thread) => seq!["resume"@, thread],
        None => seq![],
    } + seq!["--json"@, "--ignore-user-config"@, "--color"@, "never"@] + match resume_thread_id {
        Some(_) => seq![],
        None => seq!["--sandbox"@, config.sandbox.flag()],
    } + match config.model_id {
        Some(model) => seq!["--model"@, model@],
        None => seq![],
    } + seq![prompt]
}

/// Puts the arguments of the process together.
pub fn turn_command(config: &CodexCliConfigV1, prompt: &str, resume_thread_id: &Option<String>) -> (r:
    Vec<String>)
    ensures
        texts(r@) == turn_arguments(*config, prompt@, opt_text(*resume_thread_id)),
{
    let mut r: Vec<String> = Vec::new();
    r.push(text("exec"));
    if let Some(thread) = resume_thread_id {
        r.push(text("resume"));
        r.push(thread.clone());
    }
    r.push(text("--json"));
    r.push(text("--ignore-user-config"));
    r.push(text("--color"));
    r.push(text("never"));
    if resume_thread_id.is_none() {
        r.push(text("--sandbox"));
        r.push(text(config.sandbox.as_flag_value()));
    }
    if let Some(model) = &config.model_id {
        r.push(text("--model"));
        r.push(model.clone());
    }
    r.push(text(prompt));
    assert(texts(r@) =~= turn_arguments(*config, prompt@, opt_text(*resume_thread_id)));
    r
}

/// The names of the environment variables that hold credentials.
pub open spec fn credential_names() -> Seq<Seq<char>> {
    seq!["CODEX_API_KEY"@, "OPENAI_API_KEY"@, "CONTROL_PLANE_API_KEY"@]
}

/// The environment variables that the process must not see.
pub fn credential_variables() -> (r: Vec<String>)
    ensures
        texts(r@) == credential_names(),
{
    let r: Vec<String> = vec![
        text("CODEX_API_KEY"),
        text("OPENAI_API_KEY"),
        text("CONTROL_PLANE_API_KEY"),
    ];
    assert(texts(r@) =~= credential_names());
    r
}

/// A number with its sign.
pub open spec fn signed(n: int) -> Seq<char> {
    if n < 0 {
        "-"@ + decimal((-n) as nat)
    } else {
        decimal(n as nat)
    }
}

/// An exit code as `{:?}` prints it.
pub open spec fn exit_code_debug(code: Option<i32>) -> Seq<char> {
    match code {
        Some(n) => "Some("@ + signed(n as int) + ")"@,
        None => "None"@,
    }
}

fn exit_code_text(code: Option<i32>) -> (r: String)
    ensures
        r@ == exit_code_debug(code),
{
    match code {
        Some(n) => if n < 0 {
            text("Some(").concat("-").concat(to_decimal((-(n as i64)) as u64).as_str()).concat(")")
        } else {
            text("Some(").concat(to_decimal(n as u64).as_str()).concat(")")
        },
        None => text("None"),
    }
}

/// What is kept of a command that asks the command line about itself.
pub fn command_output(
    success: bool,
    code: Option<i32>,
    stdout: &[u8],
    stderr: &[u8],
    max_bytes: usize,
) -> (r: Result<String, RuntimeError>)
    ensures
        match r {
            Ok(kept) => success && kept@ == bounded_redacted(
                lossy_decoded(stdout@),
                max_bytes as nat,
            ),
            Err(RuntimeError::Provider(message)) => !success && message@
                == "Codex CLI command failed with "@ + exit_code_debug(code) + ": "@
                + bounded_redacted(lossy_decoded(stderr@), max_bytes as nat),
            Err(_) => false,
        },
{
    if !success {
        return Err(
            RuntimeError::Provider(
                text("Codex CLI command failed with ").concat(exit_code_text(code).as_str()).concat(
                    ": ",
                ).concat(
                    bounded_redacted_text(decode_lossy(stderr).as_str(), max_bytes).as_str(),
                ),
            ),
        );
    }
    Ok(bounded_redacted_text(decode_lossy(stdout).as_str(), max_bytes))
}

// ---------------------------------------------------------------------------
// What the process is told

/// A message as the process sees it.
pub open spec fn message_json(message: ProviderMessageV1) -> Seq<char> {
    object(
        seq![
            field("content"@, json_string(message.content@)),
            field("role"@, json_string(message.role@)),
        ],
    )
}

/// The messages of a conversation as the process sees them.
pub open spec fn history_json(history: Seq<ProviderMessageV1>) -> Seq<char> {
    array(history.map_values(|m: ProviderMessageV1| message_json(m)))
}

fn history_text(history: &Vec<ProviderMessageV1>) -> (r: String)
    ensures
        r@ == history_json(history@),
{
    let mut parts: Vec<String> = Vec::new();
    let ghost all = history@.map_values(|m: ProviderMessageV1| message_json(m));
    let mut i: usize = 0;
    while i < history.len()
        invariant
            i <= history@.len(),
            all == history@.map_values(|m: ProviderMessageV1| message_json(m)),
            texts(parts@) == all.take(i as int),
        decreases history@.len() - i,
    {
        let ghost prior = texts(parts@);
        let fields: Vec<String> = vec![
            field_text("content", quoted(history[i].content.as_str()).as_str()),
            field_text("role", quoted(history[i].role.as_str()).as_str()),
        ];
        assert(texts(fields@) =~= seq![
            field("content"@, json_string(history@[i as int].content@)),
            field("role"@, json_string(history@[i as int].role@)),
        ]);
        parts.push(object_text(&fields));
        i += 1;
        assert(texts(parts@) =~= prior.push(all[i - 1]));
        assert(all.take(i as int) =~= all.take(i - 1).push(all[i - 1]));
    }
    assert(all.take(all.len() as int) =~= all);
    array_text(&parts)
}

/// What the process must keep to.
pub open spec fn prompt_restrictions() -> Seq<Seq<char>> {
    seq![
        "Do not use CatDesk MCP tools or receive CatDesk tool definitions."@,
        "Operate only within the already approved workspace and stop when the task is complete."@,
        "Treat verification as CatDesk-controlled and do not claim verified completion."@,
    ]
}

/// The prompt of a turn: the contract, the messages and what to keep to, and nothing
/// of the tools.
pub open spec fn prompt_of(context_json: Seq<char>, history: Seq<ProviderMessageV1>) -> Seq<char> {
    object(
        seq![
            field("contract"@, context_json),
            field("messages"@, history_json(history)),
            field("protocol"@, json_string("catdesk.autonomous.v1"@)),
            field("restrictions"@, string_array(prompt_restrictions())),
        ],
    )
}

/// Writes the prompt of a turn.
pub fn autonomous_prompt(request: &WorkerProviderTurnRequestV1) -> (r: Result<String, RuntimeError>)
    ensures
        ({
            let prompt = prompt_of(request.turn.context_json@, request.history@);
            match r {
                Ok(p) => p@ == prompt && utf8_len(prompt) <= 24_576,
                Err(RuntimeError::BudgetExceeded(message)) => utf8_len(prompt) > 24_576 && message@
                    == "Codex autonomous prompt exceeds bounded adapter input"@,
                Err(_) => false,
            }
        }),
{
    let restrictions: Vec<String> = vec![
        text("Do not use CatDesk MCP tools or receive CatDesk tool definitions."),
        text("Operate only within the already approved workspace and stop when the task is complete."),
        text("Treat verification as CatDesk-controlled and do not claim verified completion."),
    ];
    assert(texts(restrictions@) =~= prompt_restrictions());
    let fields: Vec<String> = vec![
        field_text("contract", request.turn.context_json.as_str()),
        field_text("messages", history_text(&request.history).as_str()),
        field_text("protocol", quoted("catdesk.autonomous.v1").as_str()),
        field_text("restrictions", string_array_text(&restrictions).as_str()),
    ];
    assert(texts(fields@) =~= seq![
        field("contract"@, request.turn.context_json@),
        field("messages"@, history_json(request.history@)),
        field("protocol"@, json_string("catdesk.autonomous.v1"@)),
        field("restrictions"@, string_array(prompt_restrictions())),
    ]);
    let prompt: String = object_text(&fields);
    if byte_len(prompt.as_str()) > MAX_PROMPT_BYTES {
        return Err(
            RuntimeError::BudgetExceeded(
                text("Codex autonomous prompt exceeds bounded adapter input"),
            ),
        );
    }
    Ok(prompt)
}

/// The tools of a turn never reach the process: two turns that differ in nothing but
/// their tools have the same prompt.
pub proof fn lemma_prompt_hides_tools(
    a: WorkerProviderTurnRequestV1,
    b: WorkerProviderTurnRequestV1,
)
    requires
        a == (WorkerProviderTurnRequestV1 {
            turn: ProviderTurnRequestV1 {
                tool_definitions: a.turn.tool_definitions,
                ..b.turn
            },
            ..b
        }),
    ensures
        prompt_of(a.turn.context_json@, a.history@) == prompt_of(b.turn.context_json@, b.history@),
{
}

// ---------------------------------------------------------------------------
// The provider

/// A turn with its handle.
#[derive(Debug)]
pub struct CodexHeldTurnV1 {
    pub handle: CodexCliTurnHandleV1,
    pub turn: CodexTurnV1,
    /// The turn was started for a worker.
    pub for_worker: bool,
}

/// A turn resumes only a thread that has a name. This is asked before anything is started.
pub fn check_resumed_thread(thread_id: &str) -> (r: Result<(), RuntimeError>)
    ensures
        r is Ok <==> !blank(thread_id@),
        r matches Err(e) ==> (e matches RuntimeError::Validation(message) && message@
            == "Codex resume requires a non-empty captured thread id"@),
{
    if is_blank(thread_id) {
        return Err(
            RuntimeError::Validation(text("Codex resume requires a non-empty captured thread id")),
        );
    }
    Ok(())
}

/// The turns of a command line.
#[derive(Debug)]
pub struct CodexCliProviderV1 {
    pub config: CodexCliConfigV1,
    pub capabilities: CodexCliCapabilitiesV1,
    pub turns: Vec<CodexHeldTurnV1>,
    pub next_handle_sequence: u64,
}

/// The position of the last turn of this handle among the first `n`, or -1.
pub open spec fn turn_upto(turns: Seq<CodexHeldTurnV1>, id: Seq<char>, n: int) -> int
    decreases n,
{
    if n <= 0 {
        -1
    } else if turns[n - 1].handle.handle_id@ == id {
        n - 1
    } else {
        turn_upto(turns, id, n - 1)
    }
}

proof fn lemma_turn_upto(before: Seq<CodexHeldTurnV1>, after: Seq<CodexHeldTurnV1>, id: Seq<char>, n: int)
    requires
        0 <= n <= before.len(),
        before.len() == after.len(),
        forall|i: int| 0 <= i < before.len() ==> (#[trigger] after[i]).handle == before[i].handle,
    ensures
        turn_upto(after, id, n) == turn_upto(before, id, n),
        -1 <= turn_upto(before, id, n) < n,
    decreases n,
{
    if n > 0 {
        assert(after[n - 1].handle == before[n - 1].handle);
        lemma_turn_upto(before, after, id, n - 1);
    }
}

/// The name of a conversation that has no thread yet.
pub open spec fn unbound_thread(worker: Seq<char>) -> Seq<char> {
    "codex-unbound-"@ + worker
}

/// Why a worker's turn is refused before its prompt is written, if it is.
pub open spec fn worker_turn_refusal(
    request: WorkerProviderTurnRequestV1,
    model_id: Option<String>,
) -> Option<Seq<char>> {
    if request.provider_session.provider_id@ != "codex-cli"@
        || request.turn.tool_definitions@.len() > 0 {
        Some(
            "Codex autonomous turns require a matching session and no CatDesk tool definitions"@,
        )
    } else if model_id is Some && model_id->0@ != request.turn.model_id@ {
        Some("Codex worker model does not match the discovered local configuration"@)
    } else {
        None
    }
}

/// What a turn that ended badly without saying so is given.
pub open spec fn missing_error(batch: CodexCliEventBatchV1) -> Option<Seq<char>> {
    if has_kind(batch.normalized_events@, NormalizedProviderEventKind::TerminalError) {
        None
    } else if batch.state == CodexCliTurnStateV1::RateLimited {
        Some("Codex CLI rate limited"@)
    } else if batch.state == CodexCliTurnStateV1::Failed {
        Some("Codex CLI turn failed without structured error"@)
    } else {
        None
    }
}

/// The worker's batch is that of the turn, with the error that is missing.
pub open spec fn is_worker_batch(
    r: ProviderEventBatchV1,
    batch: CodexCliEventBatchV1,
    turn_id: TurnId,
    resumed_thread_id: Option<String>,
) -> bool {
    &&& match missing_error(batch) {
        Some(said) => {
            &&& r.events@.len() == batch.normalized_events@.len() + 1
            &&& r.events@.drop_last() == batch.normalized_events@
            &&& is_shared_event(
                r.events@.last(),
                turn_id,
                NormalizedProviderEventKind::TerminalError,
                said,
            )
        },
        None => r.events@ == batch.normalized_events@,
    }
    &&& r.next_cursor == batch.next_cursor
    &&& r.terminal == batch.terminal
    &&& r.provider_session_id == if batch.thread_id is Some {
        batch.thread_id
    } else {
        resumed_thread_id
    }
}

/// Makes a worker's batch of a turn's. A turn that failed or was limited always tells
/// of an error.
pub fn worker_batch(
    batch: CodexCliEventBatchV1,
    turn_id: &TurnId,
    resumed_thread_id: &Option<String>,
) -> (r: ProviderEventBatchV1)
    ensures
        is_worker_batch(r, batch, *turn_id, *resumed_thread_id),
{
    let told: bool = any_of_kind(
        &batch.normalized_events,
        NormalizedProviderEventKind::TerminalError,
    );
    let ghost before = batch.normalized_events@;
    let mut events: Vec<NormalizedProviderEventV1> = batch.normalized_events;
    if !told && batch.state == CodexCliTurnStateV1::RateLimited {
        events.push(
            shared_event(
                turn_id,
                NormalizedProviderEventKind::TerminalError,
                "Codex CLI rate limited",
            ),
        );
        assert(events@.drop_last() =~= before);
    } else if !told && batch.state == CodexCliTurnStateV1::Failed {
        events.push(
            shared_event(
                turn_id,
                NormalizedProviderEventKind::TerminalError,
                "Codex CLI turn failed without structured error",
            ),
        );
        assert(events@.drop_last() =~= before);
    }
    ProviderEventBatchV1 {
        events,
        next_cursor: batch.next_cursor,
        terminal: batch.terminal,
        provider_session_id: if batch.thread_id.is_some() {
            batch.thread_id
        } else {
            copy_opt(resumed_thread_id)
        },
    }
}

/// A turn that failed or was limited always tells the worker of an error, and one that
/// was limited without saying so tells of a rate limit.
pub proof fn lemma_bad_ends_are_told(
    r: ProviderEventBatchV1,
    batch: CodexCliEventBatchV1,
    turn_id: TurnId,
    resumed_thread_id: Option<String>,
)
    requires
        is_worker_batch(r, batch, turn_id, resumed_thread_id),
        batch.state == CodexCliTurnStateV1::RateLimited || batch.state
            == CodexCliTurnStateV1::Failed,
    ensures
        has_kind(r.events@, NormalizedProviderEventKind::TerminalError),
        batch.state == CodexCliTurnStateV1::RateLimited && !has_kind(
            batch.normalized_events@,
            NormalizedProviderEventKind::TerminalError,
        ) ==> has_rate_limit(r.events@),
{
    if missing_error(batch) is Some {
        let last = r.events@.len() - 1;
        assert(r.events@[last].kind == NormalizedProviderEventKind::TerminalError);
        if batch.state == CodexCliTurnStateV1::RateLimited {
            let t = lowered("Codex CLI rate limited"@);
            reveal_strlit("Codex CLI rate limited");
            reveal_strlit("rate limit");
            assert(t.subrange(10, 20) =~= "rate limit"@);
            assert(occurs_at(t, "rate limit"@, 10));
            assert(is_rate_limit(r.events@[last]));
        }
    }
}

impl CodexCliProviderV1 {
    /// Each event of each turn stands in both forms.
    pub open spec fn wf(self) -> bool {
        forall|i: int| 0 <= i < self.turns@.len() ==> (#[trigger] self.turns@[i]).turn.wf()
    }

    /// The position of a turn, or -1.
    pub open spec fn at(self, id: Seq<char>) -> int {
        turn_upto(self.turns@, id, self.turns@.len() as int)
    }

    /// A turn of this handle is known.
    pub open spec fn knows(self, id: Seq<char>) -> bool {
        self.at(id) >= 0
    }

    /// The turn of this handle.
    pub open spec fn held(self, id: Seq<char>) -> CodexHeldTurnV1 {
        self.turns@[self.at(id)]
    }

    /// This provider is `before` with one turn replaced.
    pub open spec fn replaces(self, before: CodexCliProviderV1, id: Seq<char>, turn: CodexTurnV1) -> bool {
        &&& before.knows(id)
        &&& self.at(id) == before.at(id)
        &&& self.turns@ == before.turns@.update(
            before.at(id),
            (CodexHeldTurnV1 { turn, ..before.held(id) }),
        )
        &&& self == (CodexCliProviderV1 { turns: self.turns, ..before })
    }

    /// A provider of what the command line says of itself.
    pub fn discover(
        config: CodexCliConfigV1,
        facts: &CodexPathFactsV1,
        version: &str,
        exec_help: &str,
        resume_help: &str,
    ) -> (r: Result<Self, RuntimeError>)
        ensures
            match r {
                Ok(provider) => {
                    &&& config.refusal(*facts) is None
                    &&& begins_with(trimmed(version@), "codex-cli "@)
                    &&& are_told_of(provider.capabilities, version@, exec_help@, resume_help@)
                    &&& provider.capabilities.suffices()
                    &&& provider.config == config
                    &&& provider.turns@.len() == 0
                    &&& provider.next_handle_sequence == 1
                    &&& provider.wf()
                },
                Err(RuntimeError::Validation(message)) => if config.refusal(*facts) is Some {
                    config.refusal(*facts) == Some(message@)
                } else if !begins_with(trimmed(version@), "codex-cli "@) {
                    message@ == "Codex CLI version output did not have the expected prefix"@
                } else {
                    &&& message@
                        == "installed Codex CLI lacks a required autonomous-loop capability"@
                    &&& exists|c: CodexCliCapabilitiesV1| #[trigger]
                        are_told_of(c, version@, exec_help@, resume_help@) && !c.suffices()
                },
                Err(_) => false,
            },
    {
        config.validate(facts)?;
        let capabilities: CodexCliCapabilitiesV1 = CodexCliCapabilitiesV1::from_command_output(
            version,
            exec_help,
            resume_help,
        )?;
        if let Err(e) = capabilities.required_for_autonomous_loop() {
            assert(are_told_of(capabilities, version@, exec_help@, resume_help@));
            return Err(e);
        }
        Ok(
            CodexCliProviderV1 {
                config,
                capabilities,
                turns: Vec::new(),
                next_handle_sequence: 1,
            },
        )
    }

    /// What the command line can do.
    pub fn capabilities(&self) -> (r: &CodexCliCapabilitiesV1)
        ensures
            *r == self.capabilities,
    {
        &self.capabilities
    }

    /// Names the provider.
    pub fn provider_id(&self) -> (r: ProviderIdV1)
        ensures
            r == ProviderIdV1::CodexCli,
    {
        ProviderIdV1::CodexCli
    }

    /// What the provider can do for a worker.
    pub fn worker_capabilities(&self) -> (r: ProviderCapabilitiesV1)
        ensures
            r.provider_id@ == "codex-cli"@,
            r.provider_type == ProviderType::LocalApi,
            r.supports_streaming,
            !r.supports_native_tool_calls,
            r.supports_session_continuity == self.capabilities.supports_resume,
            r.supports_cancellation == self.capabilities.supports_owned_process_cancellation,
            r.context_limit == 24_576,
            r.output_limit == self.config.max_event_bytes,
    {
        ProviderCapabilitiesV1 {
            provider_id: text(self.provider_id().as_str()),
            provider_type: ProviderType::LocalApi,
            supports_streaming: true,
            supports_native_tool_calls: false,
            supports_session_continuity: self.capabilities.supports_resume,
            supports_cancellation: self.capabilities.supports_owned_process_cancellation,
            context_limit: MAX_PROMPT_BYTES,
            output_limit: self.config.max_event_bytes,
        }
    }

    /// Opens a conversation for a worker. It has no thread yet.
    pub fn create_session(&self, model_id: &str, worker_session_id: &WorkerSessionId) -> (r:
        ProviderSessionV1)
        ensures
            r.provider_id@ == "codex-cli"@,
            r.provider_session_id@ == unbound_thread(worker_session_id@),
            r.model_id@ == model_id@,
            r.keep_alive is None,
    {
        ProviderSessionV1 {
            provider_id: text(self.provider_id().as_str()),
            provider_session_id: plus("codex-unbound-", worker_session_id.as_str()),
            model_id: text(model_id),
            keep_alive: None,
        }
    }

    /// How the provider does.
    pub fn status(&self) -> (r: ProviderHealthV1)
        ensures
            r.provider_id@ == "codex-cli"@,
            r.status == ProviderHealthStatus::Available,
            r.available_models@ == match self.config.model_id {
                Some(model) => seq![model],
                None => seq![],
            },
            r.detail@ == "Codex CLI capabilities were discovered before controller launch"@,
    {
        let mut available_models: Vec<String> = Vec::new();
        if let Some(model) = &self.config.model_id {
            available_models.push(model.clone());
        }
        assert(available_models@ =~= match self.config.model_id {
            Some(model) => seq![model],
            None => seq![],
        });
        ProviderHealthV1 {
            provider_id: text(self.provider_id().as_str()),
            status: ProviderHealthStatus::Available,
            available_models,
            detail: text("Codex CLI capabilities were discovered before controller launch"),
        }
    }

    /// Takes up a turn whose process is running.
    fn hold(&mut self, request: CodexCliTurnRequestV1, resume_thread_id: Option<String>, for_worker: bool) -> (r:
        CodexCliTurnHandleV1)
        requires
            old(self).wf(),
            old(self).next_handle_sequence < u64::MAX,
        ensures
            final(self).wf(),
            is_held(*old(self), *final(self), r, request, resume_thread_id, for_worker),
    {
        let handle: CodexCliTurnHandleV1 = CodexCliTurnHandleV1 {
            handle_id: plus("codex-cli-turn-", to_decimal(self.next_handle_sequence).as_str()),
            worker_session_id: request.worker_session_id,
            turn_id: request.turn_id,
            resumed_thread_id: copy_opt(&resume_thread_id),
        };
        self.next_handle_sequence = self.next_handle_sequence + 1;
        self.turns.push(
            CodexHeldTurnV1 {
                handle: handle.clone(),
                turn: CodexTurnV1::new(&resume_thread_id),
                for_worker,
            },
        );
        assert(self.turns@.drop_last() =~= old(self).turns@);
        handle
    }

    /// Takes up a turn of a new conversation.
    pub fn start_turn(&mut self, request: CodexCliTurnRequestV1) -> (r: Result<
        CodexCliTurnHandleV1,
        RuntimeError,
    >)
        requires
            old(self).wf(),
            old(self).next_handle_sequence < u64::MAX,
        ensures
            final(self).wf(),
            match r {
                Ok(handle) => prompt_is_bounded(request.prompt@) && is_held(
                    *old(self),
                    *final(self),
                    handle,
                    request,
                    None,
                    false,
                ),
                Err(e) => prompt_is_refused(request.prompt@, e) && *final(self) == *old(self),
            },
    {
        request.validate()?;
        Ok(self.hold(request, None, false))
    }

    /// Takes up a turn of a conversation that has a thread.
    pub fn resume_turn(&mut self, thread_id: &str, request: CodexCliTurnRequestV1) -> (r: Result<
        CodexCliTurnHandleV1,
        RuntimeError,
    >)
        requires
            old(self).wf(),
            old(self).next_handle_sequence < u64::MAX,
        ensures
            final(self).wf(),
            match r {
                Ok(handle) => prompt_is_bounded(request.prompt@) && !blank(thread_id@) && opt_text(
                    handle.resumed_thread_id,
                ) == Some(thread_id@) && is_held(
                    *old(self),
                    *final(self),
                    handle,
                    request,
                    handle.resumed_thread_id,
                    false,
                ),
                Err(e) => *final(self) == *old(self) && if prompt_is_bounded(request.prompt@) {
                    blank(thread_id@) && (e matches RuntimeError::Validation(message) && message@
                        == "Codex resume requires a non-empty captured thread id"@)
                } else {
                    prompt_is_refused(request.prompt@, e)
                },
            },
    {
        request.validate()?;
        check_resumed_thread(thread_id)?;
        Ok(self.hold(request, Some(text(thread_id)), false))
    }

    /// What a worker's turn asks of the process. A conversation is only taken up again
    /// by the thread that the process gave it.
    pub fn worker_request(&self, request: &WorkerProviderTurnRequestV1, resumes: bool) -> (r: Result<
        CodexCliTurnRequestV1,
        RuntimeError,
    >)
        ensures
            match r {
                Ok(turn) => {
                    &&& worker_refusal(*request, self.config.model_id, resumes) is None
                    &&& turn.worker_session_id == request.turn.worker_session_id
                    &&& turn.turn_id == request.turn.turn_id
                    &&& turn.prompt@ == prompt_of(request.turn.context_json@, request.history@)
                    &&& utf8_len(turn.prompt@) <= 24_576
                },
                Err(RuntimeError::Validation(message)) => worker_refusal(
                    *request,
                    self.config.model_id,
                    resumes,
                ) == Some(message@),
                Err(RuntimeError::BudgetExceeded(message)) => worker_refusal(
                    *request,
                    self.config.model_id,
                    resumes,
                ) is None && utf8_len(prompt_of(request.turn.context_json@, request.history@))
                    > 24_576 && message@
                    == "Codex autonomous prompt exceeds bounded adapter input"@,
                Err(_) => false,
            },
    {
        if resumes && starts_with(
            request.provider_session.provider_session_id.as_str(),
            "codex-unbound-",
        ) {
            return Err(
                RuntimeError::Validation(
                    text("Codex continuation requires a captured provider thread id"),
                ),
            );
        }
        if !same(request.provider_session.provider_id.as_str(), self.provider_id().as_str())
            || request.turn.tool_definitions.len() > 0 {
            return Err(
                RuntimeError::Validation(
                    text(
                        "Codex autonomous turns require a matching session and no CatDesk tool definitions",
                    ),
                ),
            );
        }
        if let Some(configured) = &self.config.model_id {
            if !same(configured.as_str(), request.turn.model_id.as_str()) {
                return Err(
                    RuntimeError::Validation(
                        text("Codex worker model does not match the discovered local configuration"),
                    ),
                );
            }
        }
        let prompt: String = autonomous_prompt(request)?;
        Ok(
            CodexCliTurnRequestV1 {
                worker_session_id: request.turn.worker_session_id.clone(),
                turn_id: request.turn.turn_id.clone(),
                prompt,
            },
        )
    }

    /// Takes up a worker's turn whose process is running.
    pub fn start_worker_turn(&mut self, request: CodexCliTurnRequestV1, resume_thread_id: Option<String>) -> (r:
        Result<ProviderTurnHandleV1, RuntimeError>)
        requires
            old(self).wf(),
            old(self).next_handle_sequence < u64::MAX,
        ensures
            final(self).wf(),
            match r {
                Ok(handle) => {
                    &&& prompt_is_bounded(request.prompt@)
                    &&& resume_thread_id is Some ==> !blank(resume_thread_id->0@)
                    &&& handle.provider_id == ProviderIdV1::CodexCli
                    &&& handle.worker_session_id == request.worker_session_id
                    &&& handle.turn_id == request.turn_id
                    &&& handle.provider_session_id@ == match resume_thread_id {
                        Some(thread) => thread@,
                        None => unbound_thread(request.worker_session_id@),
                    }
                    &&& final(self).turns@.len() > 0
                    &&& final(self).turns@.last().handle.handle_id == handle.handle_id
                    &&& is_held(
                        *old(self),
                        *final(self),
                        final(self).turns@.last().handle,
                        request,
                        resume_thread_id,
                        true,
                    )
                },
                Err(e) => *final(self) == *old(self) && if prompt_is_bounded(request.prompt@) {
                    resume_thread_id is Some && blank(resume_thread_id->0@) && (e matches
                        RuntimeError::Validation(message) && message@
                        == "Codex resume requires a non-empty captured thread id"@)
                } else {
                    prompt_is_refused(request.prompt@, e)
                },
            },
    {
        request.validate()?;
        let provider_session_id: String = match &resume_thread_id {
            Some(thread) => {
                check_resumed_thread(thread.as_str())?;
                thread.clone()
            },
            None => plus("codex-unbound-", request.worker_session_id.as_str()),
        };
        let worker_session_id: WorkerSessionId = request.worker_session_id.clone();
        let turn_id: TurnId = request.turn_id.clone();
        let handle: CodexCliTurnHandleV1 = self.hold(request, resume_thread_id, true);
        Ok(
            ProviderTurnHandleV1 {
                provider_id: ProviderIdV1::CodexCli,
                handle_id: handle.handle_id,
                provider_session_id,
                worker_session_id,
                turn_id,
            },
        )
    }

    fn find(&self, id: &str) -> (r: Option<usize>)
        ensures
            match r {
                Some(i) => i == self.at(id@) && i < self.turns@.len(),
                None => !self.knows(id@),
            },
    {
        let mut n: usize = self.turns.len();
        while n > 0
            invariant
                n <= self.turns@.len(),
                self.at(id@) == turn_upto(self.turns@, id@, n as int),
            decreases n,
        {
            if same(self.turns[n - 1].handle.handle_id.as_str(), id) {
                return Some(n - 1);
            }
            n -= 1;
        }
        None
    }

    fn locate(&self, id: &str) -> (r: Result<usize, RuntimeError>)
        ensures
            match r {
                Ok(i) => i == self.at(id@) && i < self.turns@.len(),
                Err(e) => !self.knows(id@) && is_unknown_turn(e),
            },
    {
        match self.find(id) {
            Some(i) => Ok(i),
            None => Err(RuntimeError::Validation(text("unknown Codex CLI turn handle"))),
        }
    }

    proof fn lemma_replaced(self, before: CodexCliProviderV1, i: int, id: Seq<char>)
        requires
            before.wf(),
            i == before.at(id),
            0 <= i < before.turns@.len(),
            self.turns@.len() == before.turns@.len(),
            self.turns@[i].turn.wf(),
            self.turns@[i] == (CodexHeldTurnV1 {
                turn: self.turns@[i].turn,
                ..before.turns@[i]
            }),
            forall|j: int|
                0 <= j < before.turns@.len() && j != i ==> #[trigger] self.turns@[j]
                    == before.turns@[j],
            self == (CodexCliProviderV1 { turns: self.turns, ..before }),
        ensures
            self.wf(),
            self.replaces(before, id, self.turns@[i].turn),
            self.held(id) == self.turns@[i],
    {
        lemma_turn_upto(before.turns@, self.turns@, id, before.turns@.len() as int);
        assert(self.turns@ =~= before.turns@.update(i, self.turns@[i]));
    }

    /// Takes in one message of the process of a turn. Its events are told of under the
    /// turn that the handle names.
    pub fn accept(&mut self, handle: &CodexCliTurnHandleV1, message: StreamMessage) -> (r: Result<
        (),
        RuntimeError,
    >)
        requires
            old(self).wf(),
        ensures
            final(self).wf(),
            match r {
                Ok(_) => {
                    let before = old(self).held(handle.handle_id@);
                    let after = final(self).held(handle.handle_id@);
                    &&& final(self).replaces(*old(self), handle.handle_id@, after.turn)
                    &&& takes_in(
                        before.turn,
                        after.turn,
                        message,
                        handle.turn_id,
                        old(self).config.max_diagnostic_bytes,
                    )
                },
                Err(e) => !old(self).knows(handle.handle_id@) && is_unknown_turn(e)
                    && *final(self) == *old(self),
            },
    {
        let i: usize = self.locate(handle.handle_id.as_str())?;
        let limit: usize = self.config.max_diagnostic_bytes;
        self.turns[i].turn.accept(message, &handle.turn_id, limit);
        proof {
            self.lemma_replaced(*old(self), i as int, handle.handle_id@);
        }
        Ok(())
    }

    /// Notes that the process of a turn has ended, if that was not noted yet.
    pub fn note_exit(&mut self, handle_id: &str, success: bool) -> (r: Result<(), RuntimeError>)
        requires
            old(self).wf(),
        ensures
            final(self).wf(),
            match r {
                Ok(_) => {
                    let before = old(self).held(handle_id@).turn;
                    final(self).replaces(
                        *old(self),
                        handle_id@,
                        (CodexTurnV1 {
                            exited: if before.exited is Some {
                                before.exited
                            } else {
                                Some(success)
                            },
                            ..before
                        }),
                    )
                },
                Err(e) => !old(self).knows(handle_id@) && is_unknown_turn(e) && *final(self)
                    == *old(self),
            },
    {
        let i: usize = self.locate(handle_id)?;
        if self.turns[i].turn.exited.is_none() {
            self.turns[i].turn.exited = Some(success);
        }
        proof {
            self.lemma_replaced(*old(self), i as int, handle_id@);
        }
        Ok(())
    }

    /// Tells how a turn stands, with the events behind a cursor.
    pub fn poll_events(&mut self, handle: &CodexCliTurnHandleV1, after_cursor: u64) -> (r: Result<
        CodexCliEventBatchV1,
        RuntimeError,
    >)
        requires
            old(self).wf(),
        ensures
            final(self).wf(),
            match r {
                Ok(batch) => {
                    let before = old(self).held(handle.handle_id@).turn;
                    let after = final(self).held(handle.handle_id@).turn;
                    &&& final(self).replaces(*old(self), handle.handle_id@, after)
                    &&& tells_cancellation(before, after, handle.turn_id)
                    &&& is_batch(
                        batch,
                        after,
                        if after_cursor <= before.events@.len() {
                            after_cursor
                        } else {
                            before.events@.len() as u64
                        },
                    )
                },
                Err(e) => final(self).turns@ == old(self).turns@ && if old(self).knows(
                    handle.handle_id@,
                ) {
                    after_cursor > usize::MAX && (e matches RuntimeError::Validation(message)
                        && message@ == "Codex event cursor is too large"@)
                } else {
                    is_unknown_turn(e)
                },
            },
    {
        let i: usize = self.locate(handle.handle_id.as_str())?;
        let r: Result<CodexCliEventBatchV1, RuntimeError> = self.turns[i].turn.poll(
            &handle.turn_id,
            after_cursor,
        );
        proof {
            self.lemma_replaced(*old(self), i as int, handle.handle_id@);
            if r is Err {
                assert(self.turns@ =~= old(self).turns@);
            }
        }
        r
    }

    /// Tells a worker how its turn stands.
    pub fn poll_worker_events(&mut self, handle: &ProviderTurnHandleV1, after_cursor: u64) -> (r: Result<
        ProviderEventBatchV1,
        RuntimeError,
    >)
        requires
            old(self).wf(),
        ensures
            final(self).wf(),
            match r {
                Ok(batch) => {
                    let before = old(self).held(handle.handle_id@);
                    let after = final(self).held(handle.handle_id@);
                    &&& before.for_worker
                    &&& final(self).replaces(*old(self), handle.handle_id@, after.turn)
                    &&& tells_cancellation(before.turn, after.turn, before.handle.turn_id)
                    &&& exists|told: CodexCliEventBatchV1|
                        is_batch(
                            told,
                            after.turn,
                            if after_cursor <= before.turn.events@.len() {
                                after_cursor
                            } else {
                                before.turn.events@.len() as u64
                            },
                        ) && #[trigger] is_worker_batch(
                            batch,
                            told,
                            handle.turn_id,
                            before.handle.resumed_thread_id,
                        )
                },
                Err(RuntimeError::Validation(message)) => final(self).turns@ == old(self).turns@
                    && if old(self).knows(handle.handle_id@) && old(self).held(
                    handle.handle_id@,
                ).for_worker {
                    after_cursor > usize::MAX && message@ == "Codex event cursor is too large"@
                } else {
                    message@ == "unknown Codex worker handle"@
                },
                Err(_) => false,
            },
    {
        let i: usize = match self.find(handle.handle_id.as_str()) {
            Some(i) => i,
            None => return Err(RuntimeError::Validation(text("unknown Codex worker handle"))),
        };
        if !self.turns[i].for_worker {
            return Err(RuntimeError::Validation(text("unknown Codex worker handle")));
        }
        let resumed: Option<String> = copy_opt(&self.turns[i].handle.resumed_thread_id);
        let turn_id: TurnId = self.turns[i].handle.turn_id.clone();
        let r: Result<CodexCliEventBatchV1, RuntimeError> = self.turns[i].turn.poll(
            &turn_id,
            after_cursor,
        );
        proof {
            self.lemma_replaced(*old(self), i as int, handle.handle_id@);
            if r is Err {
                assert(self.turns@ =~= old(self).turns@);
            }
        }
        match r {
            Ok(batch) => {
                let ghost told = batch;
                let out: ProviderEventBatchV1 = worker_batch(batch, &handle.turn_id, &resumed);
                assert(is_worker_batch(out, told, handle.turn_id, resumed));
                Ok(out)
            },
            Err(e) => Err(e),
        }
    }

    /// Whether a turn can be cancelled: it is known, and its process has not ended.
    pub fn check_cancel(&self, handle_id: &str) -> (r: Result<(), RuntimeError>)
        ensures
            match r {
                Ok(_) => self.knows(handle_id@) && self.held(handle_id@).turn.exited is None,
                Err(e) => if self.knows(handle_id@) {
                    self.held(handle_id@).turn.exited is Some && (e matches
                        RuntimeError::Validation(message) && message@
                        == "cannot cancel a completed Codex CLI turn"@)
                } else {
                    is_unknown_turn(e)
                },
            },
    {
        let i: usize = self.locate(handle_id)?;
        if self.turns[i].turn.exited.is_some() {
            return Err(
                RuntimeError::Validation(text("cannot cancel a completed Codex CLI turn")),
            );
        }
        Ok(())
    }

    /// Notes that the process of a turn was stopped, and how it ended where that is
    /// known.
    pub fn note_cancelled(&mut self, handle_id: &str, exited: Option<bool>) -> (r: Result<
        (),
        RuntimeError,
    >)
        requires
            old(self).wf(),
        ensures
            final(self).wf(),
            match r {
                Ok(_) => final(self).replaces(
                    *old(self),
                    handle_id@,
                    (CodexTurnV1 {
                        cancelled: true,
                        exited,
                        ..old(self).held(handle_id@).turn
                    }),
                ),
                Err(e) => !old(self).knows(handle_id@) && is_unknown_turn(e) && *final(self)
                    == *old(self),
            },
    {
        let i: usize = self.locate(handle_id)?;
        self.turns[i].turn.cancelled = true;
        self.turns[i].turn.exited = exited;
        proof {
            self.lemma_replaced(*old(self), i as int, handle_id@);
        }
        Ok(())
    }

    /// The thread of a turn, as far as it is known.
    pub fn captured_thread_id(&self, handle: &CodexCliTurnHandleV1) -> (r: Option<String>)
        ensures
            r == if self.knows(handle.handle_id@) {
                self.held(handle.handle_id@).turn.thread_id
            } else {
                None
            },
    {
        match self.find(handle.handle_id.as_str()) {
            Some(i) => copy_opt(&self.turns[i].turn.thread_id),
            None => None,
        }
    }

    /// What is needed to take up the conversation of a turn again.
    pub fn session_snapshot(&self, handle: &CodexCliTurnHandleV1) -> (r: Result<
        CodexCliSessionSnapshotV1,
        RuntimeError,
    >)
        ensures
            match r {
                Ok(snapshot) => {
                    let turn = self.held(handle.handle_id@).turn;
                    &&& self.knows(handle.handle_id@)
                    &&& turn.thread_id == Some(snapshot.codex_thread_id)
                    &&& snapshot.provider_version == self.capabilities.cli_version
                    &&& snapshot.model_id == self.config.model_id
                    &&& snapshot.working_directory == self.config.working_directory
                    &&& snapshot.last_completed_turn == if turn.exited == Some(true) {
                        Some(handle.turn_id)
                    } else {
                        None
                    }
                    &&& snapshot.last_event_sequence == turn.events@.len()
                },
                Err(e) => if self.knows(handle.handle_id@) {
                    self.held(handle.handle_id@).turn.thread_id is None && (e matches
                        RuntimeError::Validation(message) && message@
                        == "Codex CLI thread id has not been observed"@)
                } else {
                    is_unknown_turn(e)
                },
            },
    {
        let i: usize = self.locate(handle.handle_id.as_str())?;
        let turn: &CodexTurnV1 = &self.turns[i].turn;
        let codex_thread_id: String = match &turn.thread_id {
            Some(thread) => thread.clone(),
            None => return Err(
                RuntimeError::Validation(text("Codex CLI thread id has not been observed")),
            ),
        };
        let completed: bool = match turn.exited {
            Some(success) => success,
            None => false,
        };
        Ok(
            CodexCliSessionSnapshotV1 {
                codex_thread_id,
                provider_version: self.capabilities.cli_version.clone(),
                model_id: copy_opt(&self.config.model_id),
                working_directory: self.config.working_directory.clone(),
                last_completed_turn: if completed {
                    Some(handle.turn_id.clone())
                } else {
                    None
                },
                last_event_sequence: turn.events.len() as u64,
            },
        )
    }

    /// The diagnostics of a turn.
    pub fn bounded_stderr(&self, handle: &CodexCliTurnHandleV1) -> (r: Option<String>)
        ensures
            r == if self.knows(handle.handle_id@) {
                Some(self.held(handle.handle_id@).turn.stderr)
            } else {
                None
            },
    {
        match self.find(handle.handle_id.as_str()) {
            Some(i) => Some(self.turns[i].turn.stderr.clone()),
            None => None,
        }
    }
}

/// `e` says that no turn of the handle is known.
pub open spec fn is_unknown_turn(e: RuntimeError) -> bool {
    e matches RuntimeError::Validation(message) && message@ == "unknown Codex CLI turn handle"@
}

/// Why a worker's turn is refused before its prompt is written, if it is.
pub open spec fn worker_refusal(
    request: WorkerProviderTurnRequestV1,
    model_id: Option<String>,
    resumes: bool,
) -> Option<Seq<char>> {
    if resumes && begins_with(request.provider_session.provider_session_id@, "codex-unbound-"@) {
        Some("Codex continuation requires a captured provider thread id"@)
    } else {
        worker_turn_refusal(request, model_id)
    }
}

/// `after` is `before` with one turn more, which is fresh and known by the handle.
pub open spec fn is_held(
    before: CodexCliProviderV1,
    after: CodexCliProviderV1,
    handle: CodexCliTurnHandleV1,
    request: CodexCliTurnRequestV1,
    resume_thread_id: Option<String>,
    for_worker: bool,
) -> bool {
    &&& handle.handle_id@ == "codex-cli-turn-"@ + decimal(before.next_handle_sequence as nat)
    &&& handle.worker_session_id == request.worker_session_id
    &&& handle.turn_id == request.turn_id
    &&& handle.resumed_thread_id == resume_thread_id
    &&& after.next_handle_sequence == before.next_handle_sequence + 1
    &&& after.turns@.len() == before.turns@.len() + 1
    &&& after.turns@.drop_last() == before.turns@
    &&& after.turns@.last().handle == handle
    &&& after.turns@.last().for_worker == for_worker
    &&& after.turns@.last().turn.is_fresh(resume_thread_id)
    &&& after == (CodexCliProviderV1 {
        turns: after.turns,
        next_handle_sequence: after.next_handle_sequence,
        ..before
    })
}

} // verus!
