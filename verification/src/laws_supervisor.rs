//! What a supervisor's tools and the independent verifier promise.

use vstd::prelude::*;
use vstd::string::*;
use crate::autonomous_contract::{
    AutonomousCommandProfileV1, AutonomousDevelopmentContractV1, components, engine_refusal,
    is_slug, runs_profile,
};
use crate::autonomous_controller::{
    AutonomousControllerOutcomeV1, escalates, frees_next, frees_next_through, instruction,
    is_prepared, is_reviewed, numbered_steps,
};
use crate::autonomy_state::{
    AutonomousEventV1, AutonomousQueueTaskV1, AutonomousStateStoreV1, SessionRecordV1, can_start,
    comes_behind, events_behind, session_from, task_from,
};
use crate::autonomy_supervisor::{
    ContractPathsV1, RequestView, SessionChangeV1, create_refusal, fitting_events, is_created,
    is_handled, is_read_only, mutates, need_number, need_session, need_text, number_or,
    policy_refusal, renews, request_of, with_lease,
};
use crate::autonomy_verifier::{
    identity_refusal, is_allowed_command, is_sensitive, kept_diff, kept_output, lines_redacted,
    profile_refusal, shown_line,
};
use crate::coordinator::VerificationSummaryV1;
use crate::json::{JsonView, as_number, as_text, member};
use crate::laws_session::lemma_tools_ask_for_their_own;
use crate::laws_text::lemma_shortened;
use crate::provider::RuntimeError;
use crate::text::{
    blank, fitting_prefix, has_text, is_white, joined, lossy_decoded, lowered, occurs_at,
    shortened, trimmed, utf8_len,
};

verus! {

// ---------------------------------------------------------------------------
// Arguments

/// A text is taken from the arguments exactly where it is there, is a text and is not
/// empty; a number exactly where it is there and is one.
pub proof fn lemma_arguments_needed(args: JsonView, name: Seq<char>)
    ensures
        need_text(args, name) is Ok <==> as_text(member(args, name)) is Some && as_text(
            member(args, name),
        )->0.len() > 0,
        need_text(args, name) is Ok ==> Some(need_text(args, name)->Ok_0) == as_text(
            member(args, name),
        ),
        need_number(args, name) is Ok <==> as_number(member(args, name)) is Some,
        need_number(args, name) is Ok ==> Some(need_number(args, name)->Ok_0) == as_number(
            member(args, name),
        ),
        need_session(args) is Ok <==> need_text(args, "sessionId"@) is Ok && is_slug(
            need_text(args, "sessionId"@)->Ok_0,
        ),
        need_session(args) is Ok ==> need_session(args) == need_text(args, "sessionId"@),
{
}

/// A number with a bound is the one that was given, or else the other, and never beyond
/// the bound.
pub proof fn lemma_bounded_numbers(args: JsonView, name: Seq<char>, other: u64, bound: u64)
    ensures
        number_or(args, name, other, bound) <= bound,
        as_number(member(args, name)) is Some && as_number(member(args, name))->0 <= bound
            ==> number_or(args, name, other, bound) == as_number(member(args, name))->0,
        as_number(member(args, name)) is None && other <= bound ==> number_or(
            args,
            name,
            other,
            bound,
        ) == other,
{
}

/// What changes a session says which session, in which state it is taken to be, and under
/// which key; the arguments of these names say so.
pub proof fn lemma_changes_are_addressed(name: Seq<char>, args: JsonView)
    ensures
        request_of(name, args) matches Ok(RequestView::Start { session_id, expected, key }) ==> {
            &&& as_text(member(args, "sessionId"@)) == Some(session_id)
            &&& as_number(member(args, "expectedStateVersion"@)) == Some(expected)
            &&& as_text(member(args, "idempotencyKey"@)) == Some(key)
        },
        request_of(name, args) matches Ok(RequestView::Pause { session_id, expected, key }) ==> {
            &&& as_text(member(args, "sessionId"@)) == Some(session_id)
            &&& as_number(member(args, "expectedStateVersion"@)) == Some(expected)
            &&& as_text(member(args, "idempotencyKey"@)) == Some(key)
        },
        request_of(name, args) matches Ok(RequestView::Resume { session_id, expected, key }) ==> {
            &&& as_text(member(args, "sessionId"@)) == Some(session_id)
            &&& as_number(member(args, "expectedStateVersion"@)) == Some(expected)
            &&& as_text(member(args, "idempotencyKey"@)) == Some(key)
        },
        request_of(name, args) matches Ok(RequestView::Cancel { session_id, expected, key }) ==> {
            &&& as_text(member(args, "sessionId"@)) == Some(session_id)
            &&& as_number(member(args, "expectedStateVersion"@)) == Some(expected)
            &&& as_text(member(args, "idempotencyKey"@)) == Some(key)
        },
        request_of(name, args) matches Ok(
            RequestView::Approve { session_id, expected, key, decision_hash },
        ) ==> {
            &&& as_text(member(args, "sessionId"@)) == Some(session_id)
            &&& as_number(member(args, "expectedStateVersion"@)) == Some(expected)
            &&& as_text(member(args, "idempotencyKey"@)) == Some(key)
            &&& as_text(member(args, "decisionHash"@)) == Some(decision_hash)
            &&& as_text(member(args, "approvalId"@)) is Some
        },
        request_of(name, args) matches Ok(
            RequestView::Reply { session_id, expected, key, decision_hash },
        ) ==> {
            &&& as_text(member(args, "sessionId"@)) == Some(session_id)
            &&& as_number(member(args, "expectedStateVersion"@)) == Some(expected)
            &&& as_text(member(args, "idempotencyKey"@)) == Some(key)
            &&& as_text(member(args, "decisionHash"@)) == Some(decision_hash)
        },
        request_of(name, args) matches Ok(
            RequestView::RenewLease { session_id, expected, key, new_expiry },
        ) ==> {
            &&& as_text(member(args, "sessionId"@)) == Some(session_id)
            &&& as_number(member(args, "expectedStateVersion"@)) == Some(expected)
            &&& as_text(member(args, "idempotencyKey"@)) == Some(key)
            &&& as_number(member(args, "newExpiryUnix"@)) == Some(new_expiry)
        },
{
}

/// A page of events is never more than a hundred events or twenty-four thousand bytes.
pub proof fn lemma_pages_are_small(name: Seq<char>, args: JsonView)
    ensures
        request_of(name, args) matches Ok(
            RequestView::Events { session_id, after, limit, max_bytes },
        ) ==> {
            &&& as_text(member(args, "sessionId"@)) == Some(session_id)
            &&& limit <= 100
            &&& max_bytes <= 24_000
            &&& as_number(member(args, "limit"@)) is None ==> limit == 50
            &&& as_number(member(args, "afterSequence"@)) is None ==> after == 0
            &&& as_number(member(args, "afterSequence"@)) is Some ==> Some(after) == as_number(
                member(args, "afterSequence"@),
            )
        },
{
}

// ---------------------------------------------------------------------------
// Reading and changing

/// What only asks for something leaves every session as it is.
pub proof fn lemma_questions_change_nothing(
    before: AutonomousStateStoreV1,
    after: AutonomousStateStoreV1,
    request: RequestView,
    contract: Option<AutonomousDevelopmentContractV1>,
    paths: ContractPathsV1,
    workspace: Seq<Seq<char>>,
    now_unix: u64,
    r: Result<String, String>,
)
    requires
        is_handled(before, after, request, contract, paths, workspace, now_unix, r),
        request is ValidateContract || request is Status || request is Events
            || request is Escalation || request is Artifact || request is List || request is Queue
            || request is ProviderStatus,
    ensures
        after.sessions@ == before.sessions@,
{
}

/// The tools that are said to only read are those that only ask.
pub proof fn lemma_read_only_tools(name: Seq<char>, args: JsonView)
    requires
        request_of(name, args) is Ok,
    ensures
        is_read_only(name) <==> ({
            let request = request_of(name, args)->Ok_0;
            request is ValidateContract || request is Status || request is Events
                || request is Escalation || request is Artifact || request is List
                || request is Queue || request is ProviderStatus
        }),
{
    lemma_tools_ask_for_their_own(name, args);
}

/// Whatever is asked about one session leaves the others as they are.
pub proof fn lemma_other_sessions_stay(
    before: AutonomousStateStoreV1,
    after: AutonomousStateStoreV1,
    id: Seq<char>,
    expected: u64,
    key: Seq<char>,
    change: SessionChangeV1,
    r: Result<String, String>,
    i: int,
)
    requires
        mutates(before, after, id, expected, key, change, r),
        0 <= i < before.sessions@.len(),
        before.sessions@[i].id() != id,
    ensures
        after.sessions@.len() == before.sessions@.len(),
        after.sessions@[i] == before.sessions@[i],
{
    if is_slug(key) && before.reaches(id) {
        lemma_session_from(before.sessions@, id, 0);
    }
}

proof fn lemma_session_from(sessions: Seq<SessionRecordV1>, id: Seq<char>, from: int)
    requires
        0 <= from <= sessions.len(),
    ensures
        from <= session_from(sessions, id, from) <= sessions.len(),
        session_from(sessions, id, from) < sessions.len() ==> sessions[session_from(
            sessions,
            id,
            from,
        )].id() == id,
        forall|j: int|
            from <= j < session_from(sessions, id, from) ==> (#[trigger] sessions[j]).id() != id,
    decreases sessions.len() - from,
{
    if from < sessions.len() && sessions[from].id() != id {
        lemma_session_from(sessions, id, from + 1);
    }
}

/// The session of a name is the one that carries it.
pub proof fn lemma_sessions_are_found(store: AutonomousStateStoreV1, id: Seq<char>)
    ensures
        store.has(id) <==> exists|i: int|
            0 <= i < store.sessions@.len() && (#[trigger] store.sessions@[i]).id() == id,
        store.has(id) ==> store.session(id).id() == id,
{
    lemma_session_from(store.sessions@, id, 0);
    if store.has(id) {
        assert(store.sessions@[store.at(id)].id() == id);
    }
}

/// A contract is taken on exactly where its policy accepts it, it is about this workspace,
/// and no session has its name.
pub proof fn lemma_contracts_taken_on(
    store: AutonomousStateStoreV1,
    contract: AutonomousDevelopmentContractV1,
    paths: ContractPathsV1,
    workspace: Seq<Seq<char>>,
)
    ensures
        create_refusal(store, contract, paths, workspace) is None <==> {
            &&& engine_refusal(contract, paths.workspace, paths.allowed@, paths.forbidden@) is None
            &&& components(paths.workspace) == workspace
            &&& forall|i: int|
                0 <= i < store.sessions@.len() ==> (#[trigger] store.sessions@[i]).id()
                    != contract.contract_id@
        },
{
    lemma_sessions_are_found(store, contract.contract_id@);
}

/// A session that was just made is a draft with one task that is ready, has used nothing
/// up, and is approved by nobody.
pub proof fn lemma_new_sessions(
    session: SessionRecordV1,
    contract: AutonomousDevelopmentContractV1,
)
    requires
        is_created(session, contract),
    ensures
        session.snapshot.state is Draft,
        session.snapshot.active,
        session.snapshot.approved_contract_hash is None,
        !session.snapshot.cancellation_requested,
        session.snapshot.provider_turn_count == 0,
        session.snapshot.repair_attempts == 0,
        session.snapshot.provider_thread_id is None,
        session.snapshot.session_id@ == contract.contract_id@,
        session.queue.tasks@.len() == 1,
        session.queue.tasks@[0].state is Ready,
        session.queue.tasks@[0].task_id@ == contract.task_id@,
        session.contract == Some(contract),
        session.completion is None,
{
}

/// A contract that is kept can be worked under exactly where it is there and is still
/// accepted.
pub proof fn lemma_kept_contracts(
    store: AutonomousStateStoreV1,
    id: Seq<char>,
    paths: ContractPathsV1,
)
    ensures
        policy_refusal(store, id, paths) is None <==> {
            &&& is_slug(id) && store.has(id)
            &&& store.session(id).contract matches Some(contract)
            &&& engine_refusal(contract, paths.workspace, paths.allowed@, paths.forbidden@) is None
        },
{
}

/// A renewal changes when the lease runs out and nothing else of the contract.
pub proof fn lemma_renewed_contracts(session: SessionRecordV1, new_expiry: u64)
    requires
        session.contract is Some,
    ensures
        ({
            let renewed = with_lease(session, new_expiry);
            let a = session.contract->0;
            let b = renewed.contract->0;
            &&& renewed.contract is Some
            &&& b.autonomy_lease.expires_at_unix == new_expiry
            &&& b.autonomy_lease.issued_at_unix == a.autonomy_lease.issued_at_unix
            &&& b.autonomy_lease.maximum_provider_turns == a.autonomy_lease.maximum_provider_turns
            &&& b.autonomy_lease.renewal_allowed == a.autonomy_lease.renewal_allowed
            &&& b.autonomy_lease.start_approval_required == a.autonomy_lease.start_approval_required
            &&& b.git_policy == a.git_policy
            &&& b.allowed_paths == a.allowed_paths
            &&& b.forbidden_paths == a.forbidden_paths
            &&& b.allowed_command_profiles == a.allowed_command_profiles
            &&& b.verification_policy == a.verification_policy
            &&& renewed.snapshot == session.snapshot
            &&& renewed.queue == session.queue
        }),
{
}

/// A lease is renewed only where the contract allows it, it has not run out, and the new
/// end lies ahead.
pub proof fn lemma_renewals(
    before: AutonomousStateStoreV1,
    after: AutonomousStateStoreV1,
    id: Seq<char>,
    expected: u64,
    key: Seq<char>,
    new_expiry: u64,
    now_unix: u64,
    paths: ContractPathsV1,
    r: Result<String, String>,
)
    requires
        renews(before, after, id, expected, key, new_expiry, now_unix, paths, r),
        after.sessions@ != before.sessions@,
    ensures
        before.session(id).contract is Some,
        before.session(id).contract->0.autonomy_lease.renewal_allowed,
        now_unix <= before.session(id).contract->0.autonomy_lease.expires_at_unix,
        new_expiry > now_unix,
{
}

/// As many events are told as fit: within the number and the bytes that were asked for,
/// and the next one would be too much.
pub proof fn lemma_fitting_events(
    events: Seq<AutonomousEventV1>,
    from: int,
    used: int,
    limit: u64,
    max_bytes: u64,
)
    requires
        0 <= from <= events.len(),
        from <= limit,
        0 <= used <= max_bytes,
    ensures
        ({
            let n = fitting_events(events, from, used, limit, max_bytes);
            &&& from <= n <= events.len()
            &&& n <= limit
            &&& used + bytes_of(events, from, n) <= max_bytes
            &&& n < events.len() && n < limit ==> used + bytes_of(events, from, n + 1) > max_bytes
        }),
    decreases events.len() - from,
{
    let n = fitting_events(events, from, used, limit, max_bytes);
    let more = used + utf8_len(events[from].json());
    if from < events.len() && from < limit && more <= max_bytes {
        lemma_fitting_events(events, from + 1, more, limit, max_bytes);
        lemma_bytes_from(events, from, n);
        if n < events.len() {
            lemma_bytes_from(events, from, n + 1);
        }
    } else if from < events.len() && from < limit {
        lemma_bytes_from(events, from, from + 1);
        assert(bytes_of(events, from + 1, from + 1) == 0);
    }
}

/// The bytes of the events from one place up to another.
pub open spec fn bytes_of(events: Seq<AutonomousEventV1>, from: int, to: int) -> int
    decreases to - from,
{
    if from >= to {
        0
    } else {
        bytes_of(events, from, to - 1) + utf8_len(events[to - 1].json())
    }
}

proof fn lemma_bytes_from(events: Seq<AutonomousEventV1>, from: int, to: int)
    requires
        from < to,
    ensures
        bytes_of(events, from, to) == utf8_len(events[from].json()) + bytes_of(events, from + 1, to),
    decreases to - from,
{
    if from + 1 < to {
        lemma_bytes_from(events, from, to - 1);
    } else {
        assert(bytes_of(events, from, to - 1) == 0);
        assert(bytes_of(events, from + 1, to) == 0);
    }
}

/// The events behind a number are those with a greater one.
pub proof fn lemma_events_behind_a_number(events: Seq<AutonomousEventV1>, after: u64, i: int)
    ensures
        0 <= i < events_behind(events, after).len() ==> events_behind(events, after)[i].sequence
            > after && events.contains(events_behind(events, after)[i]),
        0 <= i < events.len() && events[i].sequence > after ==> events_behind(
            events,
            after,
        ).contains(events[i]),
{
    let told = events_behind(events, after);
    events.filter_lemma(comes_behind(after));
    if 0 <= i < told.len() {
        assert(comes_behind(after)(told[i]));
        assert(told.contains(told[i]));
        events.lemma_filter_contains_rev(comes_behind(after), told[i]);
    }
    if 0 <= i < events.len() && events[i].sequence > after {
        assert(comes_behind(after)(events[i]));
    }
}

// ---------------------------------------------------------------------------
// The steps of a session

/// An escalation leaves a session waiting for a decision, with the reason on record.
pub proof fn lemma_escalated_sessions(
    before: SessionRecordV1,
    after: SessionRecordV1,
    reason: Seq<char>,
    logged: bool,
)
    requires
        escalates(before, after, reason, logged),
    ensures
        after.snapshot.state is WaitingForChatgpt,
        after.escalation is Some,
        after.escalation->0.reason@ == reason,
        after.escalation->0.session_id@ == before.snapshot.session_id@,
        after.escalation->0.repair_attempts == before.snapshot.repair_attempts,
        after.queue == before.queue,
        after.completion == before.completion,
        logged ==> after.events@.last().kind@ == reason,
{
}

/// What a turn is prepared with: one turn more is counted, the pause is over, and the
/// session runs on its task.
pub proof fn lemma_prepared_turns(
    before: SessionRecordV1,
    after: SessionRecordV1,
    task_id: Seq<char>,
    thread: Seq<char>,
)
    requires
        is_prepared(before, after, task_id, thread),
    ensures
        after.snapshot.state is Running,
        after.snapshot.current_task_id is Some && after.snapshot.current_task_id->0@ == task_id,
        after.snapshot.provider_thread_id is Some && after.snapshot.provider_thread_id->0@
            == thread,
        before.snapshot.provider_turn_count < u32::MAX ==> after.snapshot.provider_turn_count
            == before.snapshot.provider_turn_count + 1,
        after.snapshot.retry_not_before_unix is None,
        after.snapshot.rate_limited_since_unix is None,
        after.snapshot.repair_attempts == before.snapshot.repair_attempts,
        after.queue == before.queue,
{
}

/// A task that is verified while others wait is complete, and the session is queued for
/// the next.
pub proof fn lemma_next_task_is_freed(
    before: SessionRecordV1,
    after: SessionRecordV1,
    logged: bool,
)
    requires
        frees_next(before, after, logged),
        before.snapshot.current_task_id is Some,
    ensures
        after.snapshot.state is Queued,
        after.completion == before.completion,
        exists|i: int| #[trigger] can_start(after.queue.tasks@, i),
        exists|i: int|
            0 <= i < after.queue.tasks@.len() && (#[trigger] after.queue.tasks@[i]).task_id@
                == before.snapshot.current_task_id->0@
                && after.queue.tasks@[i].state is CompletedVerified,
{
    let set = choose|set: SessionRecordV1| #[trigger]
        frees_next_through(before, set, after, logged);
    assert(after.queue == set.queue);
    let i = choose|i: int| can_start(set.queue.tasks@, i);
    assert(can_start(after.queue.tasks@, i));
    let id = before.snapshot.current_task_id->0@;
    let at = task_from(before.queue.tasks@, id, 0);
    lemma_first_task(before.queue.tasks@, id, 0);
    assert(after.queue.tasks@[at].task_id@ == id);
}

proof fn lemma_first_task(tasks: Seq<AutonomousQueueTaskV1>, id: Seq<char>, from: int)
    requires
        0 <= from <= tasks.len(),
    ensures
        from <= task_from(tasks, id, from) <= tasks.len(),
        task_from(tasks, id, from) < tasks.len() ==> tasks[task_from(tasks, id, from)].task_id@
            == id,
    decreases tasks.len() - from,
{
    if from < tasks.len() && tasks[from].task_id@ != id {
        lemma_first_task(tasks, id, from + 1);
    }
}

/// The last word of a review: a session is complete only with a review that says
/// something; without one it waits for a decision.
pub proof fn lemma_reviews_decide(
    before: SessionRecordV1,
    after: SessionRecordV1,
    require_final_review: bool,
    provider_events: usize,
    verification: VerificationSummaryV1,
    diff: Seq<char>,
    review: Option<Seq<char>>,
    r: Result<AutonomousControllerOutcomeV1, RuntimeError>,
)
    requires
        is_reviewed(
            before,
            after,
            require_final_review,
            provider_events,
            verification,
            diff,
            review,
            r,
        ),
    ensures
        review is None ==> after.snapshot.state is WaitingForChatgpt && after.completion
            == before.completion,
        r is Ok && r->Ok_0.state is CompletedVerified ==> {
            &&& review is Some
            &&& exists|i: int| 0 <= i < review->0.len() && !is_white(#[trigger] review->0[i])
            &&& exists|i: int| 0 <= i < diff.len() && !is_white(#[trigger] diff[i])
            &&& after.completion is Some
            &&& after.completion->0.final_review@ == review->0
            &&& after.completion->0.authoritative_diff@ == diff
            &&& after.completion->0.verification == verification
        },
        r is Ok && review is Some && require_final_review && (forall|i: int|
            0 <= i < review->0.len() ==> is_white(#[trigger] review->0[i]))
            ==> after.snapshot.state is WaitingForChatgpt,
        r is Ok ==> after.snapshot.state == r->Ok_0.state,
{
}

/// What a provider is told: a planner's decision before all, then what verification
/// found, and at the start the objective and the task.
pub proof fn lemma_instructions(
    session: SessionRecordV1,
    contract: AutonomousDevelopmentContractV1,
    task_id: Seq<char>,
)
    ensures
        ({
            let told = instruction(session, contract, task_id);
            let open = session.planner_reply is Some && !session.planner_reply->0.consumed;
            let resumed = session.snapshot.provider_thread_id is Some;
            &&& open ==> has_text(told, session.planner_reply->0.decision@)
            &&& !open && resumed && session.snapshot.last_verification_summary is Some ==> has_text(
                told,
                session.snapshot.last_verification_summary->0@,
            )
            &&& !open && !resumed ==> has_text(told, task_id) && has_text(
                told,
                fitting_prefix(contract.objective@, 4096),
            )
        }),
{
    let told = instruction(session, contract, task_id);
    let open = session.planner_reply is Some && !session.planner_reply->0.consumed;
    let resumed = session.snapshot.provider_thread_id is Some;
    if open {
        let part = session.planner_reply->0.decision@;
        let at = "A persisted planner decision applies to this turn. Decision: "@.len() as int;
        assert(told.subrange(at, at + part.len()) =~= part);
        assert(occurs_at(told, part, at));
    } else if resumed {
        if session.snapshot.last_verification_summary is Some {
            let part = session.snapshot.last_verification_summary->0@;
            let at = "Independent verification did not pass. Bounded verifier evidence:\n"@.len() as int;
            assert(told.subrange(at, at + part.len()) =~= part);
            assert(occurs_at(told, part, at));
        }
    } else {
        let objective = fitting_prefix(contract.objective@, 4096);
        let at = "Approved objective:\n"@.len() as int;
        assert(told.subrange(at, at + objective.len()) =~= objective);
        assert(occurs_at(told, objective, at));
        let head = "Approved objective:\n"@ + objective + "\n\nOrdered work:\n"@ + joined(
            numbered_steps(contract.ordered_steps@),
            "\n"@,
        ) + "\n\nExecute only task "@;
        let from = head.len() as int;
        assert(told.subrange(from, from + task_id.len()) =~= task_id);
        assert(occurs_at(told, task_id, from));
    }
}

/// A session that a restart interrupted is marked as recovering and keeps all the rest.
pub proof fn lemma_recovered_sessions(before: SessionRecordV1, after: SessionRecordV1)
    requires
        crate::autonomy_state::is_recovered(before, after),
    ensures
        after.snapshot.state is RecoveringAfterRestart,
        after.snapshot.active,
        after.queue == before.queue,
        after.snapshot.provider_thread_id == before.snapshot.provider_thread_id,
        after.snapshot.current_task_id == before.snapshot.current_task_id,
        after.completion == before.completion,
        after.events@.last().kind@ == "restart_recovery_required"@,
{
}

// ---------------------------------------------------------------------------
// The verifier

/// A line is kept back exactly where it holds one of five assignments, in capitals or not;
/// every other line is shown as it is.
pub proof fn lemma_sensitive_lines(line: Seq<char>)
    ensures
        is_sensitive(line) <==> has_text(lowered(line), "token="@) || has_text(
            lowered(line),
            "password="@,
        ) || has_text(lowered(line), "secret="@) || has_text(lowered(line), "api_key="@)
            || has_text(lowered(line), "apikey="@),
        is_sensitive(line) ==> shown_line(line) == "<redacted-sensitive-output>"@,
        !is_sensitive(line) ==> shown_line(line) == line,
{
}

/// A workspace is verified exactly where it stands on the contract's branch, which is not
/// the main one, at the contract's origin, and behind the contract's base.
pub proof fn lemma_verified_identity(
    contract: AutonomousDevelopmentContractV1,
    branch: Seq<char>,
    origin: Seq<char>,
    base_is_ancestor: bool,
)
    ensures
        identity_refusal(contract, branch, origin, base_is_ancestor) is None <==> trimmed(branch)
            == contract.feature_branch@ && trimmed(branch) != "main"@ && trimmed(origin)
            == contract.expected_origin@ && base_is_ancestor,
{
}

/// Only a command that the contract allows, word for word, is run to verify.
pub proof fn lemma_verification_commands(
    contract: AutonomousDevelopmentContractV1,
    profile: AutonomousCommandProfileV1,
)
    ensures
        profile_refusal(contract, profile) is None <==> profile.argv().len() > 0 && exists|i: int|
            0 <= i < contract.allowed_command_profiles@.len() && (
            #[trigger] contract.allowed_command_profiles@[i]).argv() == profile.argv(),
{
    let list = contract.allowed_command_profiles@;
    if is_allowed_command(contract, profile.argv()) {
        let i = choose|i: int|
            0 <= i < list.len() && runs_profile(profile.argv(), #[trigger] list[i]);
        assert(list[i].argv() == profile.argv());
    }
    if profile.argv().len() > 0 && exists|i: int|
        0 <= i < list.len() && (#[trigger] list[i]).argv() == profile.argv() {
        let i = choose|i: int| 0 <= i < list.len() && (#[trigger] list[i]).argv() == profile.argv();
        assert(runs_profile(profile.argv(), list[i]));
    }
}

/// A diff that a verifier keeps is never blank: where nothing changed it says so.
pub proof fn lemma_kept_diffs(stdout: Seq<u8>, stderr: Seq<u8>)
    ensures
        !blank(kept_diff(stdout, stderr)),
        blank(kept_output(stdout, stderr)) ==> kept_diff(stdout, stderr)
            == "authoritative-diff: clean"@,
        !blank(kept_output(stdout, stderr)) ==> kept_diff(stdout, stderr) == kept_output(
            stdout,
            stderr,
        ),
{
    reveal_strlit("authoritative-diff: clean");
    assert(!is_white("authoritative-diff: clean"@[0]));
}

/// What is kept of a command is what it said, with what went wrong behind it, every line
/// redacted, within 24 KiB.
pub proof fn lemma_kept_outputs(stdout: Seq<u8>, stderr: Seq<u8>)
    ensures
        ({
            let said = if stderr.len() == 0 {
                lossy_decoded(stdout)
            } else {
                lossy_decoded(stdout) + "\n"@ + lossy_decoded(stderr)
            };
            &&& utf8_len(lines_redacted(said)) <= 24576 ==> kept_output(stdout, stderr)
                == lines_redacted(said)
            &&& utf8_len(lines_redacted(said)) > 24576 ==> kept_output(stdout, stderr) == shortened(
                lines_redacted(said),
                24576,
            )
        }),
{
    let said = if stderr.len() == 0 {
        lossy_decoded(stdout)
    } else {
        lossy_decoded(stdout) + "\n"@ + lossy_decoded(stderr)
    };
    lemma_shortened(lines_redacted(said), 24576, 0);
}

} // verus!
