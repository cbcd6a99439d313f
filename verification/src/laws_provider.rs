//! What the providers of turns promise: how events are told, how turns stand, and how a
//! process is started.

use vstd::prelude::*;
use vstd::string::*;
use crate::autonomy_runtime::operator_settings;
use crate::codex_cli::{
    CodexCliCapabilitiesV1, CodexCliConfigV1, CodexCliEventBatchV1, CodexCliEventV1,
    CodexCliProviderV1, CodexCliSandboxV1, CodexCliTurnHandleV1, CodexCliTurnRequestV1,
    CodexHeldTurnV1, CodexPathFactsV1, CodexRawEventV1, CodexTurnV1, StreamMessage,
    are_fields_of, are_told_of, bounded_redacted, credential_names, exit_code_debug,
    history_json, is_batch, is_event_in, is_event_of, is_held, is_limited, is_worker_batch,
    line_is_refused, message_json, missing_error, prompt_is_bounded, prompt_of,
    prompt_restrictions, rate_limit_wait, shared_kind, some_limited, takes_in,
    tells_cancellation, turn_arguments, turn_upto, with_line, worker_refusal,
    worker_turn_refusal,
};
use crate::contracts::TurnId;
use crate::json::{
    as_number, as_text, field, json_parsed, json_string, member, string_array,
};
use crate::laws_records::lemma_written_records;
use crate::laws_text::{lemma_decimal_is_injective, lemma_has_text_within};
use crate::provider::{
    NormalizedProviderEventKind, NormalizedProviderEventV1, ProviderEventBatchV1,
    ProviderMessageV1, RuntimeError, WorkerProviderTurnRequestV1, has_kind, is_rate_limit,
    speaks_of_rate_limit,
};
use crate::text::{begins_with, decimal, has_text, is_white, lowered, utf8_len};

verus! {

/// An event is told as a claim of completion only if its name is `turn.completed`, as an
/// error only if it is `turn.failed` or `error`, and as a piece of text otherwise.
pub proof fn lemma_kinds_of_events(event_type: Seq<char>)
    ensures
        shared_kind(event_type) is CompletionClaim <==> event_type == "turn.completed"@,
        shared_kind(event_type) is TerminalError <==> event_type == "turn.failed"@ || event_type
            == "error"@,
        shared_kind(event_type) is TextDelta <==> event_type != "turn.completed"@ && event_type
            != "turn.failed"@ && event_type != "error"@,
{
    reveal_strlit("turn.completed");
    reveal_strlit("turn.failed");
    reveal_strlit("error");
    assert("turn.completed"@.len() == 14);
    assert("turn.failed"@.len() == 11);
    assert("error"@.len() == 5);
}

/// A text speaks of a rate limit exactly where it holds one of four phrases, in capitals
/// or not.
pub proof fn lemma_rate_limit_phrases(text: Seq<char>)
    ensures
        speaks_of_rate_limit(text) <==> has_text(lowered(text), "rate limit"@) || has_text(
            lowered(text),
            "too many requests"@,
        ) || has_text(lowered(text), "http 429"@) || has_text(lowered(text), "status 429"@),
        speaks_of_rate_limit(lowered(text)) == speaks_of_rate_limit(text),
{
    assert(lowered(lowered(text)) =~= lowered(text));
}

/// A text that holds a text which speaks of a rate limit speaks of it too.
pub proof fn lemma_rate_limit_within(a: Seq<char>, text: Seq<char>, b: Seq<char>)
    requires
        speaks_of_rate_limit(text),
    ensures
        speaks_of_rate_limit(a + text + b),
{
    let (x, t, y) = (lowered(a), lowered(text), lowered(b));
    assert(lowered(a + text + b) =~= x + t + y);
    if has_text(t, "rate limit"@) {
        lemma_has_text_within(x, t, y, "rate limit"@);
    }
    if has_text(t, "too many requests"@) {
        lemma_has_text_within(x, t, y, "too many requests"@);
    }
    if has_text(t, "http 429"@) {
        lemma_has_text_within(x, t, y, "http 429"@);
    }
    if has_text(t, "status 429"@) {
        lemma_has_text_within(x, t, y, "status 429"@);
    }
}

/// An event ends a turn for a rate limit only if it is an error that speaks of one.
pub proof fn lemma_rate_limit_events(event: NormalizedProviderEventV1)
    ensures
        is_rate_limit(event) <==> event.kind is TerminalError && event.text is Some
            && speaks_of_rate_limit(event.text->0@),
{
}

/// How long an event of the command line asks to wait: as long as it says, and where it
/// only speaks of a rate limit, an unknown while.
pub proof fn lemma_waits(event: CodexCliEventV1)
    ensures
        event.retry_after_seconds is Some ==> rate_limit_wait(event) == event.retry_after_seconds,
        event.retry_after_seconds is None ==> (rate_limit_wait(event) is Some <==> (
        speaks_of_rate_limit(event.bounded_summary@) || (event.text is Some
            && speaks_of_rate_limit(event.text->0@)))),
        event.retry_after_seconds is None && rate_limit_wait(event) is Some ==> rate_limit_wait(
            event,
        )->0 == 0,
{
}

/// How a turn stands: cancelled before all, then rate limited, then as its process ended,
/// and running while it has not.
pub proof fn lemma_standings(turn: CodexTurnV1)
    ensures
        ({
            let limited = speaks_of_rate_limit(turn.stderr@) || exists|i: int|
                0 <= i < turn.events@.len() && ((
                #[trigger] turn.events@[i]).retry_after_seconds is Some || speaks_of_rate_limit(
                    turn.events@[i].bounded_summary@,
                ));
            &&& turn.standing() is Cancelled <==> turn.cancelled
            &&& turn.standing() is RateLimited <==> !turn.cancelled && limited
            &&& turn.standing() is Completed <==> !turn.cancelled && !limited && turn.exited == Some(
                true,
            )
            &&& turn.standing() is Failed <==> !turn.cancelled && !limited && turn.exited == Some(
                false,
            )
            &&& turn.standing() is Running <==> !turn.cancelled && !limited && turn.exited is None
        }),
{
    let events = turn.events@;
    if some_limited(events) {
        let i = choose|i: int| 0 <= i < events.len() && is_limited(#[trigger] events[i]);
        assert(events[i].retry_after_seconds is Some || speaks_of_rate_limit(
            events[i].bounded_summary@,
        ));
    }
    if exists|i: int|
        0 <= i < events.len() && ((#[trigger] events[i]).retry_after_seconds is Some
            || speaks_of_rate_limit(events[i].bounded_summary@)) {
        let i = choose|i: int|
            0 <= i < events.len() && ((#[trigger] events[i]).retry_after_seconds is Some
                || speaks_of_rate_limit(events[i].bounded_summary@));
        assert(is_limited(events[i]));
    }
}

/// What is taken in is put behind what was there, and what was told before stays told.
pub proof fn lemma_told_events_stay(
    before: CodexTurnV1,
    after: CodexTurnV1,
    message: StreamMessage,
    turn_id: TurnId,
    max: usize,
    i: int,
)
    requires
        takes_in(before, after, message, turn_id, max),
        0 <= i < before.events@.len(),
        i < before.normalized_events@.len(),
    ensures
        after.events@[i] == before.events@[i],
        after.normalized_events@[i] == before.normalized_events@[i],
        message is ParseError ==> after.normalized_events@.last().kind is TerminalError,
        message is ParseError ==> after.events@.last().event_type@ == "parse.error"@
            && after.events@.last().thread_id == before.thread_id,
        message matches StreamMessage::Event(event) ==> after.events@.last() == event && (
        after.normalized_events@.last().kind is CompletionClaim <==> event.event_type@
            == "turn.completed"@) && (after.normalized_events@.last().kind is TerminalError
            <==> event.event_type@ == "turn.failed"@ || event.event_type@ == "error"@),
        message is Stderr ==> after.events == before.events && after.normalized_events
            == before.normalized_events,
        message matches StreamMessage::Stderr(line) ==> after.stderr@ == with_line(
            before.stderr@,
            line@,
            max as nat,
        ),
        !(message is Stderr) ==> after.stderr == before.stderr,
        message matches StreamMessage::Event(event) ==> (if event.thread_id is Some {
            after.thread_id == event.thread_id
        } else {
            after.thread_id == before.thread_id
        }),
        after.exited == before.exited,
        after.cancelled == before.cancelled,
{
    if message is Event {
        lemma_kinds_of_events(message->Event_0.event_type@);
        assert(after.normalized_events@.drop_last()[i] == before.normalized_events@[i]);
    }
    if message is ParseError {
        assert(after.events@.drop_last()[i] == before.events@[i]);
        assert(after.normalized_events@.drop_last()[i] == before.normalized_events@[i]);
    }
}

/// A batch holds what comes behind the cursor, no more and no less, and the next cursor
/// stands behind all of it.
pub proof fn lemma_batch_is_the_rest(batch: CodexCliEventBatchV1, turn: CodexTurnV1, cursor: u64)
    requires
        is_batch(batch, turn, cursor),
    ensures
        cursor <= turn.events@.len() ==> turn.events@ == turn.events@.take(cursor as int)
            + batch.events@,
        cursor >= turn.events@.len() ==> batch.events@.len() == 0,
        batch.next_cursor == turn.events@.len(),
        batch.terminal <==> !(turn.standing() is Running),
        batch.thread_id == turn.thread_id,
        batch.state == turn.standing(),
{
    if cursor <= turn.events@.len() {
        assert(turn.events@ =~= turn.events@.take(cursor as int) + batch.events@);
    }
}

/// A turn that ended badly is never told without an error.
pub proof fn lemma_bad_turns_tell_an_error(
    r: ProviderEventBatchV1,
    batch: CodexCliEventBatchV1,
    turn_id: TurnId,
    thread: Option<String>,
)
    requires
        is_worker_batch(r, batch, turn_id, thread),
        batch.state is Failed || batch.state is RateLimited,
    ensures
        exists|i: int| 0 <= i < r.events@.len() && (#[trigger] r.events@[i]).kind is TerminalError,
        r.terminal == batch.terminal,
        batch.thread_id is Some ==> r.provider_session_id == batch.thread_id,
{
    let told = batch.normalized_events@;
    if has_kind(told, NormalizedProviderEventKind::TerminalError) {
        let i = choose|i: int|
            0 <= i < told.len() && (#[trigger] told[i]).kind
                == NormalizedProviderEventKind::TerminalError;
        assert(r.events@[i].kind is TerminalError);
    } else {
        assert(r.events@[r.events@.len() - 1].kind is TerminalError);
    }
}

/// A turn that did not end badly is told as it was, with no error put in.
pub proof fn lemma_good_turns_are_told_as_they_were(
    r: ProviderEventBatchV1,
    batch: CodexCliEventBatchV1,
    turn_id: TurnId,
    thread: Option<String>,
)
    requires
        is_worker_batch(r, batch, turn_id, thread),
        !(batch.state is Failed || batch.state is RateLimited),
    ensures
        r.events@ == batch.normalized_events@,
{
}

/// The command line of a turn ends with the prompt and asks for machine-readable events.
/// A new turn names the sandbox of the configuration; a resumed one names its thread.
pub proof fn lemma_turn_arguments(
    config: CodexCliConfigV1,
    prompt: Seq<char>,
    thread: Option<Seq<char>>,
)
    ensures
        ({
            let r = turn_arguments(config, prompt, thread);
            &&& r.len() > 0
            &&& r[0] == "exec"@
            &&& r.last() == prompt
            &&& r.contains("--json"@)
            &&& r.contains("--ignore-user-config"@)
            &&& thread is Some ==> r[1] == "resume"@ && r[2] == thread->0
            &&& thread is None ==> r.len() > 6 && r[5] == "--sandbox"@ && (
            config.sandbox is ReadOnly ==> r[6] == "read-only"@) && (
            config.sandbox is WorkspaceWrite ==> r[6] == "workspace-write"@)
            &&& config.model_id is Some ==> r[r.len() - 3] == "--model"@ && r[r.len() - 2]
                == config.model_id->0@
        }),
{
    let r = turn_arguments(config, prompt, thread);
    if thread is Some {
        assert(r[3] == "--json"@);
        assert(r[4] == "--ignore-user-config"@);
    } else {
        assert(r[1] == "--json"@);
        assert(r[2] == "--ignore-user-config"@);
    }
}

/// Three names of keys are kept from a turn's process.
pub proof fn lemma_credentials_are_kept_back()
    ensures
        credential_names().contains("CODEX_API_KEY"@),
        credential_names().contains("OPENAI_API_KEY"@),
        credential_names().contains("CONTROL_PLANE_API_KEY"@),
{
    assert(credential_names()[0] == "CODEX_API_KEY"@);
    assert(credential_names()[1] == "OPENAI_API_KEY"@);
    assert(credential_names()[2] == "CONTROL_PLANE_API_KEY"@);
}

/// A configuration is accepted exactly where the program is a file and no script, the
/// directory is there, and the limits let something through.
pub proof fn lemma_configurations_accepted(config: CodexCliConfigV1, facts: CodexPathFactsV1)
    ensures
        config.refusal(facts) is None <==> {
            let kind = lowered(facts.executable_extension@);
            &&& kind != "cmd"@ && kind != "bat"@ && kind != "ps1"@
            &&& facts.executable_is_file
            &&& facts.working_directory_is_dir
            &&& config.max_event_bytes > 0
            &&& config.max_diagnostic_bytes > 0
        },
{
}

/// A command line can be used exactly where it has each of these abilities.
pub proof fn lemma_needed_abilities(c: CodexCliCapabilitiesV1)
    ensures
        c.suffices() <==> c.supports_jsonl && c.supports_resume && c.supports_explicit_session_id
            && c.supports_read_only_sandbox && c.supports_workspace_write_sandbox
            && c.supports_owned_process_cancellation,
{
}

/// A prompt is sent exactly where it says something and is short enough.
pub proof fn lemma_prompts_sent(prompt: Seq<char>)
    ensures
        prompt_is_bounded(prompt) <==> utf8_len(prompt) <= 24_576 && exists|i: int|
            0 <= i < prompt.len() && !is_white(#[trigger] prompt[i]),
{
}

/// A worker's turn is accepted exactly where its session is one of this provider, it
/// brings no tools, and its model is the one that is configured; a turn that goes on needs
/// a thread that was really given.
pub proof fn lemma_worker_turns_accepted(
    request: WorkerProviderTurnRequestV1,
    model_id: Option<String>,
    resumes: bool,
)
    ensures
        worker_refusal(request, model_id, resumes) is None <==> {
            &&& request.provider_session.provider_id@ == "codex-cli"@
            &&& request.turn.tool_definitions@.len() == 0
            &&& model_id is Some ==> model_id->0@ == request.turn.model_id@
            &&& resumes ==> !begins_with(
                request.provider_session.provider_session_id@,
                "codex-unbound-"@,
            )
        },
{
}

/// Diagnostics grow by whole lines at their end, and once they are full they stay.
pub proof fn lemma_diagnostics_grow(target: Seq<char>, line: Seq<char>, max: nat)
    ensures
        begins_with(with_line(target, line, max), target),
        utf8_len(target) >= max ==> with_line(target, line, max) == target,
{
    let r = with_line(target, line, max);
    assert(r.take(target.len() as int) =~= target);
}

// ---------------------------------------------------------------------------
// What a command line says, and what it is asked

/// What a command line can do is what its help says.
pub proof fn lemma_abilities_are_told(
    c: CodexCliCapabilitiesV1,
    version: Seq<char>,
    exec_help: Seq<char>,
    resume_help: Seq<char>,
)
    requires
        are_told_of(c, version, exec_help, resume_help),
    ensures
        c.supports_jsonl <==> has_text(exec_help, "--json"@) && has_text(resume_help, "--json"@),
        c.supports_resume <==> has_text(exec_help, "resume"@) && has_text(
            resume_help,
            "Resume a previous session"@,
        ),
        c.supports_explicit_session_id <==> has_text(resume_help, "[SESSION_ID]"@),
        c.supports_read_only_sandbox <==> has_text(exec_help, "read-only"@),
        c.supports_workspace_write_sandbox <==> has_text(exec_help, "workspace-write"@),
        c.supports_output_schema <==> has_text(exec_help, "--output-schema"@),
        c.supports_output_last_message <==> has_text(exec_help, "--output-last-message"@),
        c.supports_owned_process_cancellation,
{
}

/// A line is refused when it is too long, when it is no record, or when it names no type;
/// the first of these is what is said.
pub proof fn lemma_refused_lines(line: Seq<char>, max_event_bytes: usize, e: RuntimeError)
    requires
        line_is_refused(line, max_event_bytes, e),
    ensures
        e is BudgetExceeded <==> utf8_len(line) > max_event_bytes,
        e is BudgetExceeded || e is MalformedOutput,
        e is MalformedOutput ==> json_parsed(line) is Err || as_text(
            member(json_parsed(line)->Ok_0, "type"@),
        ) is None || as_text(member(json_parsed(line)->Ok_0, "type"@))->0.len() == 0,
{
}

/// An event is what its line says: its type, its thread and its item, its text redacted
/// and bounded, and how long to wait.
pub proof fn lemma_lines_are_read(event: CodexCliEventV1, line: Seq<char>, max_event_bytes: usize)
    requires
        is_event_in(event, line, max_event_bytes),
    ensures
        json_parsed(line) is Ok,
        as_text(member(json_parsed(line)->Ok_0, "type"@)) == Some(event.event_type@),
        event.thread_id is Some ==> as_text(member(json_parsed(line)->Ok_0, "thread_id"@)) == Some(
            event.thread_id->0@,
        ),
        event.thread_id is None ==> as_text(member(json_parsed(line)->Ok_0, "thread_id"@)) is None,
        event.text is Some ==> exists|said: Seq<char>|
            event.text->0@ == #[trigger] bounded_redacted(said, max_event_bytes as nat),
        member(json_parsed(line)->Ok_0, "retry_after"@) is Some ==> event.retry_after_seconds
            == as_number(member(json_parsed(line)->Ok_0, "retry_after"@)),
        member(json_parsed(line)->Ok_0, "retry_after"@) is None ==> event.retry_after_seconds
            == as_number(member(json_parsed(line)->Ok_0, "retryAfter"@)),
        member(json_parsed(line)->Ok_0, "item"@) is None ==> event.item_type is None,
{
    let value = json_parsed(line)->Ok_0;
    let raw = choose|raw: CodexRawEventV1|
        are_fields_of(raw, value) && #[trigger] is_event_of(event, raw, max_event_bytes);
    assert(is_event_of(event, raw, max_event_bytes));
}

/// A cancellation is told once, as such, behind everything that was told before.
pub proof fn lemma_cancellations_are_told_once(
    before: CodexTurnV1,
    after: CodexTurnV1,
    turn_id: TurnId,
)
    requires
        tells_cancellation(before, after, turn_id),
    ensures
        after == before <==> !(before.cancelled && !before.cancel_event_emitted),
        before.cancelled ==> after.cancel_event_emitted,
        before.cancelled && !before.cancel_event_emitted ==> after.normalized_events@.len()
            == before.normalized_events@.len() + 1 && after.normalized_events@.last().kind
            is CancelAck && after.normalized_events@.last().turn_id == turn_id
            && after.events@.last().event_type@ == "cancelled"@ && after.events@.drop_last()
            == before.events@ && after.normalized_events@.drop_last() == before.normalized_events@,
        after.cancelled == before.cancelled,
        after.exited == before.exited,
        after.thread_id == before.thread_id,
{
}

/// A prompt holds the contract and the whole conversation, and says what is not allowed.
pub proof fn lemma_prompts_hold_the_conversation(
    context_json: Seq<char>,
    history: Seq<ProviderMessageV1>,
    i: int,
)
    requires
        0 <= i < history.len(),
    ensures
        has_text(prompt_of(context_json, history), field("contract"@, context_json)),
        has_text(prompt_of(context_json, history), field("messages"@, history_json(history))),
        has_text(history_json(history), message_json(history[i])),
        has_text(message_json(history[i]), field("content"@, json_string(history[i].content@))),
        has_text(message_json(history[i]), field("role"@, json_string(history[i].role@))),
        has_text(
            prompt_of(context_json, history),
            field("restrictions"@, string_array(prompt_restrictions())),
        ),
        prompt_restrictions().contains(
            "Do not use CatDesk MCP tools or receive CatDesk tool definitions."@,
        ),
        prompt_restrictions().contains(
            "Treat verification as CatDesk-controlled and do not claim verified completion."@,
        ),
{
    let parts = seq![
        field("contract"@, context_json),
        field("messages"@, history_json(history)),
        field("protocol"@, json_string("catdesk.autonomous.v1"@)),
        field("restrictions"@, string_array(prompt_restrictions())),
    ];
    lemma_written_records(parts, 0);
    lemma_written_records(parts, 1);
    lemma_written_records(parts, 3);
    let told = history.map_values(|m: ProviderMessageV1| message_json(m));
    lemma_written_records(told, i);
    assert(told[i] == message_json(history[i]));
    let fields = seq![
        field("content"@, json_string(history[i].content@)),
        field("role"@, json_string(history[i].role@)),
    ];
    lemma_written_records(fields, 0);
    lemma_written_records(fields, 1);
    assert(prompt_restrictions()[0]
        == "Do not use CatDesk MCP tools or receive CatDesk tool definitions."@);
    assert(prompt_restrictions()[2]
        == "Treat verification as CatDesk-controlled and do not claim verified completion."@);
}

/// A turn of a worker is taken on a session of this provider, without tools, and on the
/// model that is configured.
pub proof fn lemma_worker_turns_fit(
    request: WorkerProviderTurnRequestV1,
    model_id: Option<String>,
)
    ensures
        worker_turn_refusal(request, model_id) is None
            <==> request.provider_session.provider_id@ == "codex-cli"@
            && request.turn.tool_definitions@.len() == 0 && (model_id is Some ==> model_id->0@
            == request.turn.model_id@),
{
}

/// An error is added to a batch only where a turn ended badly and no error was told.
pub proof fn lemma_missing_errors(batch: CodexCliEventBatchV1)
    ensures
        missing_error(batch) is Some <==> (batch.state is RateLimited || batch.state is Failed)
            && !has_kind(batch.normalized_events@, NormalizedProviderEventKind::TerminalError),
        missing_error(batch) is Some && batch.state is RateLimited ==> missing_error(batch)->0
            == "Codex CLI rate limited"@,
{
}

/// A turn that is taken is held under a name of its own, behind the others, and has told
/// nothing yet.
pub proof fn lemma_turns_are_held(
    before: CodexCliProviderV1,
    after: CodexCliProviderV1,
    handle: CodexCliTurnHandleV1,
    request: CodexCliTurnRequestV1,
    resume_thread_id: Option<String>,
    for_worker: bool,
    i: int,
)
    requires
        is_held(before, after, handle, request, resume_thread_id, for_worker),
        0 <= i < before.turns@.len(),
    ensures
        after.turns@.len() == before.turns@.len() + 1,
        after.turns@[i] == before.turns@[i],
        after.turns@.last().handle == handle,
        after.turns@.last().turn.normalized_events@.len() == 0,
        after.turns@.last().turn.exited is None,
        !after.turns@.last().turn.cancelled,
        after.turns@.last().turn.thread_id == resume_thread_id,
        handle.turn_id == request.turn_id,
        handle.worker_session_id == request.worker_session_id,
        handle.handle_id@ == "codex-cli-turn-"@ + decimal(before.next_handle_sequence as nat),
        after.next_handle_sequence == before.next_handle_sequence + 1,
{
    assert(after.turns@.drop_last()[i] == before.turns@[i]);
}

/// Two turns that are held one behind the other never share a name.
pub proof fn lemma_handles_differ(first: nat, second: nat)
    requires
        first != second,
    ensures
        "codex-cli-turn-"@ + decimal(first) != "codex-cli-turn-"@ + decimal(second),
{
    let head = "codex-cli-turn-"@;
    if head + decimal(first) == head + decimal(second) {
        assert((head + decimal(first)).skip(head.len() as int) =~= decimal(first));
        assert((head + decimal(second)).skip(head.len() as int) =~= decimal(second));
        lemma_decimal_is_injective(first, second);
    }
}

/// The turn of a name is the last that carries it.
pub proof fn lemma_turns_are_found(turns: Seq<CodexHeldTurnV1>, id: Seq<char>, n: int)
    requires
        0 <= n <= turns.len(),
    ensures
        -1 <= turn_upto(turns, id, n) < n,
        turn_upto(turns, id, n) >= 0 ==> turns[turn_upto(turns, id, n)].handle.handle_id@ == id,
        turn_upto(turns, id, n) < 0 ==> forall|j: int|
            0 <= j < n ==> (#[trigger] turns[j]).handle.handle_id@ != id,
    decreases n,
{
    if n > 0 && turns[n - 1].handle.handle_id@ != id {
        lemma_turns_are_found(turns, id, n - 1);
    }
}

/// A sandbox is named for what it allows, and a code for what it is.
pub proof fn lemma_flags_and_codes(sandbox: CodexCliSandboxV1, code: Option<i32>)
    ensures
        sandbox is ReadOnly ==> sandbox.flag() == "read-only"@,
        sandbox is WorkspaceWrite ==> sandbox.flag() == "workspace-write"@,
        code is None ==> exit_code_debug(code) == "None"@,
        code is Some && code->0 >= 0 ==> exit_code_debug(code) == "Some("@ + decimal(
            code->0 as nat,
        ) + ")"@,
        code is Some && code->0 < 0 ==> exit_code_debug(code) == "Some("@ + ("-"@ + decimal(
            (-(code->0)) as nat,
        )) + ")"@,
{
}

/// An operator's provider may write in the workspace, on the model that was chosen.
pub proof fn lemma_operator_providers(executable: String, workspace: String, model_id: String)
    ensures
        operator_settings(executable, workspace, model_id).executable == executable,
        operator_settings(executable, workspace, model_id).working_directory == workspace,
        operator_settings(executable, workspace, model_id).model_id == Some(model_id),
        operator_settings(executable, workspace, model_id).sandbox is WorkspaceWrite,
        operator_settings(executable, workspace, model_id).max_event_bytes == 65536,
        operator_settings(executable, workspace, model_id).max_diagnostic_bytes == 8192,
{
}

} // verus!
