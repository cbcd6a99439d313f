//! What the steps of a session promise: how a turn begins, what is kept of it, what ends
//! it, and what is left of a log that was cut short.

use vstd::prelude::*;
use vstd::string::*;
use crate::autonomous_contract::{AutonomousDevelopmentContractV1, is_slug};
use crate::autonomous_controller::{
    AutonomousControllerOutcomeV1, AutonomousVerifierV1, ControllerParts, WorkerProviderV1,
    completes, current_task_refusal, has_open_reply, instruction, is_completed_outcome,
    is_noted_for_repair, is_started, is_step, is_turn_stopped, is_verified_turn, is_work,
    is_work_request, numbered_steps, step_of, verdict_of, work_refusal,
};
use crate::autonomy_state::{
    AutonomousCompletionArtifactsV1, AutonomousPlannerReplyV1, AutonomousQueueTaskStateV1,
    AutonomousQueueTaskV1, AutonomousSessionSnapshotV1, AutonomousStateStoreV1,
    AutonomyStateError, SessionRecordV1, can_start, completion_is_valid, evidence_is_bounded,
    is_new_snapshot, is_reply, is_task_set, json_accepts, kept_length, line_end,
    recovered_snapshots, recovered_upto, reply_is_bounded, reply_is_valid, some_can_start,
    task_from, tasks_are_distinct, was_interrupted, with_reply_consumed,
};
use crate::contracts::is_identifier;
use crate::coordinator::VerificationSummaryV1;
use crate::provider::{
    ProviderCapabilitiesV1, ProviderEventBatchV1, ProviderTurnHandleV1, RuntimeError,
    WorkerProviderTurnRequestV1,
};
use crate::text::{begins_with, decimal, fitting, fitting_prefix, lemma_fitting};

verus! {

/// A batch ends a turn by what it says: one that still runs leaves the session running, a
/// limit pauses it, an error asks the supervisor, and nothing but a finished turn is
/// verified.
pub proof fn lemma_batches_decide<V: AutonomousVerifierV1>(
    contract: AutonomousDevelopmentContractV1,
    checks: V,
    new_checks: V,
    before: SessionRecordV1,
    after: SessionRecordV1,
    handle: Option<ProviderTurnHandleV1>,
    new_handle: Option<ProviderTurnHandleV1>,
    batch: ProviderEventBatchV1,
    now_unix: u64,
    r: Result<AutonomousControllerOutcomeV1, RuntimeError>,
)
    requires
        crate::autonomous_controller::is_finished(
            contract,
            checks,
            new_checks,
            before,
            after,
            handle,
            new_handle,
            batch,
            now_unix,
            r,
        ),
    ensures
        verdict_of(batch) is StillRunning ==> r is Ok && r->Ok_0.state is Running
            && r->Ok_0.verification is None,
        verdict_of(batch) is RateLimited && r is Ok ==> r->Ok_0.state is RateLimited
            && after.snapshot.state is RateLimited,
        verdict_of(batch) is TerminalError && r is Ok ==> r->Ok_0.state is WaitingForChatgpt
            && after.snapshot.state is WaitingForChatgpt && after.escalation is Some
            && after.escalation->0.reason@ == "provider_terminal_error"@,
        !(verdict_of(batch) is Verify) ==> new_checks == checks,
        !(verdict_of(batch) is Verify) ==> after.queue == before.queue && after.completion
            == before.completion,
        verdict_of(batch) is StillRunning && handle is Some ==> after.snapshot.provider_event_cursor
            == batch.next_cursor && after.snapshot.provider_handle_id == Some(handle->0.handle_id),
        new_handle is Some <==> handle is Some,
        handle is Some && batch.provider_session_id is Some ==> new_handle->0.provider_session_id
            == batch.provider_session_id->0,
        handle is Some && batch.provider_session_id is None ==> new_handle == handle,
{
}

/// A turn begins on the thread that the session has, or on the one that was opened; a
/// reply of the planner is used up by it, and the turn counts.
pub proof fn lemma_turns_begin(
    before: SessionRecordV1,
    prepared: SessionRecordV1,
    started: SessionRecordV1,
    task_id: Seq<char>,
    thread: Seq<char>,
    logged: bool,
)
    requires
        is_started(before, prepared, started, task_id, thread, logged),
        before.snapshot.provider_turn_count < u32::MAX,
    ensures
        started.snapshot.state is Running,
        started.snapshot.active,
        started.snapshot.provider_turn_count == before.snapshot.provider_turn_count + 1,
        started.snapshot.current_task_id is Some,
        started.snapshot.current_task_id->0@ == task_id,
        started.snapshot.provider_thread_id is Some,
        started.snapshot.provider_thread_id->0@ == thread,
        before.snapshot.provider_thread_id is Some ==> thread
            == before.snapshot.provider_thread_id->0@,
        started.snapshot.retry_not_before_unix is None,
        started.snapshot.rate_limited_since_unix is None,
        before.planner_reply is Some ==> started.planner_reply is Some
            && started.planner_reply->0.consumed && started.planner_reply->0.decision
            == before.planner_reply->0.decision,
        logged ==> started.events@.len() == before.events@.len() + 1,
        logged && before.snapshot.provider_thread_id is Some ==> started.events@.last().kind@
            == "provider_repair_resumed"@,
        logged && before.snapshot.provider_thread_id is None ==> started.events@.last().kind@
            == "provider_turn_started"@,
        started.queue == before.queue,
        started.completion == before.completion,
{
}

/// What a worker is asked for: the turn of the task, on the model of the contract, without
/// tools, with the instruction as the only message.
pub proof fn lemma_work_is_asked(
    request: WorkerProviderTurnRequestV1,
    session: SessionRecordV1,
    contract: AutonomousDevelopmentContractV1,
    contract_hash: Seq<char>,
    task_id: Seq<char>,
)
    requires
        is_work_request(request, session, contract, contract_hash, task_id),
    ensures
        request.history@.len() == 1,
        request.history@[0].role@ == "user"@,
        request.history@[0].content@ == instruction(session, contract, task_id),
        request.turn.model_id == contract.provider_policy.primary_model,
        request.turn.tool_definitions@.len() == 0,
        request.turn.max_output_bytes == 16384,
        request.turn.run_id@ == session.id(),
        request.turn.worker_session_id@ == "autonomy-"@ + session.id(),
        request.turn.turn_id@ == task_id + "-turn-1"@,
        !request.json_envelope_recovery,
        session.snapshot.provider_thread_id is Some
            ==> request.provider_session.provider_session_id
            == session.snapshot.provider_thread_id->0,
{
}

/// Work is refused for a name only where a name that is made of it is no identifier.
pub proof fn lemma_work_names(session_id: Seq<char>, task_id: Seq<char>)
    ensures
        work_refusal(session_id, task_id) is None <==> is_identifier("autonomy-"@ + session_id)
            && is_identifier(session_id) && is_identifier(task_id + "-turn-1"@),
{
}

/// Work begins only where some task can start, and then with the first of them; where a
/// budget is used up the supervisor is asked instead, and no worker is.
pub proof fn lemma_work_begins<P: WorkerProviderV1, V: AutonomousVerifierV1>(
    old_controller: ControllerParts<P, V>,
    new_controller: ControllerParts<P, V>,
    before: SessionRecordV1,
    after: SessionRecordV1,
    now_unix: u64,
    r: Result<AutonomousControllerOutcomeV1, RuntimeError>,
)
    requires
        is_work(old_controller, new_controller, before, after, now_unix, r),
    ensures
        !some_can_start(before.queue.tasks@) ==> after == before && r is Err
            && new_controller.provider == old_controller.provider && new_controller.verifier
            == old_controller.verifier && new_controller.last_handle == old_controller.last_handle,
        r is Ok ==> exists|i: int| #[trigger] can_start(before.queue.tasks@, i),
        r is Ok && crate::autonomous_controller::exhausted_budget(
            before.snapshot,
            old_controller.policy.terms(),
        ) is Some ==> r->Ok_0.state is WaitingForChatgpt && after.snapshot.state
            is WaitingForChatgpt && after.snapshot.provider_turn_count
            == before.snapshot.provider_turn_count && new_controller.last_handle
            == old_controller.last_handle,
{
}

/// A session that completes keeps what proves it, and is over.
pub proof fn lemma_sessions_complete(
    before: SessionRecordV1,
    after: SessionRecordV1,
    verification: VerificationSummaryV1,
    diff: Seq<char>,
    review: Seq<char>,
    logged: bool,
)
    requires
        completes(before, after, verification, diff, review, logged),
    ensures
        after.snapshot.state is CompletedVerified,
        !after.snapshot.active,
        after.completion is Some,
        after.completion->0.verification == verification,
        after.completion->0.authoritative_diff@ == diff,
        after.completion->0.final_review@ == review,
        after.completion->0.session_id@ == before.id(),
        after.queue == before.queue,
        logged ==> after.events@.len() == before.events@.len() + 1 && after.events@.last().kind@
            == "completed_verified"@,
{
}

/// What a completed session reports is what it was judged by.
pub proof fn lemma_completed_outcomes(
    outcome: AutonomousControllerOutcomeV1,
    provider_events: usize,
    verification: VerificationSummaryV1,
    diff: Seq<char>,
    review: Seq<char>,
)
    requires
        is_completed_outcome(outcome, provider_events, verification, diff, review),
    ensures
        outcome.state is CompletedVerified,
        outcome.provider_events == provider_events,
        outcome.verification == Some(verification),
        outcome.authoritative_diff is Some,
        outcome.authoritative_diff->0@ == diff,
        outcome.final_review is Some,
        outcome.final_review->0@ == review,
{
}

/// Verification begins with an entry in the log, and its failure to run is the step's own
/// failure.
pub proof fn lemma_verification_begins<V: AutonomousVerifierV1>(
    before: SessionRecordV1,
    verifying: SessionRecordV1,
    after: SessionRecordV1,
    checks: V,
    require_final_review: bool,
    provider_events: usize,
    r: Result<AutonomousControllerOutcomeV1, RuntimeError>,
    logged: bool,
)
    requires
        is_verified_turn(
            before,
            verifying,
            after,
            checks,
            require_final_review,
            provider_events,
            r,
            logged,
        ),
    ensures
        verifying.snapshot.state is Verifying,
        verifying.queue == before.queue,
        logged ==> verifying.events@.len() == before.events@.len() + 1
            && verifying.events@.last().kind@ == "independent_verification_started"@,
        !logged ==> r is Err && after == verifying,
{
}

/// Work that needs repair is noted with what was wrong, and nothing else changes.
pub proof fn lemma_repairs_are_noted(
    before: SessionRecordV1,
    after: SessionRecordV1,
    repair_attempts: u32,
    summary: Seq<char>,
)
    requires
        is_noted_for_repair(before, after, repair_attempts, summary),
    ensures
        after.snapshot.repair_attempts == repair_attempts,
        after.snapshot.last_verification_summary is Some,
        begins_with(summary, after.snapshot.last_verification_summary->0@),
        after.snapshot.state == before.snapshot.state,
        after.queue == before.queue,
        after.events == before.events,
{
    lemma_fitting(summary, 2048);
    assert(summary.take(fitting(summary, 2048) as int).len() == fitting(summary, 2048));
}

/// A turn is stopped only where there is one and its provider can stop it; else stopping
/// does nothing and succeeds.
pub proof fn lemma_turns_are_stopped<P: WorkerProviderV1>(
    provider: P,
    new_provider: P,
    handle: Option<ProviderTurnHandleV1>,
    r: Result<(), RuntimeError>,
)
    requires
        is_turn_stopped(provider, new_provider, handle, r),
    ensures
        handle is None ==> r is Ok && new_provider == provider,
        handle is Some && (forall|c: ProviderCapabilitiesV1|
            call_ensures(P::capabilities, (&provider,), c) ==> !(#[trigger] c.supports_cancellation))
            ==> r is Ok && new_provider == provider,
{
}

// ---------------------------------------------------------------------------
// The queue and the store

proof fn lemma_task_from(tasks: Seq<AutonomousQueueTaskV1>, id: Seq<char>, from: int)
    requires
        0 <= from <= tasks.len(),
    ensures
        task_from(tasks, id, from) < tasks.len() ==> from <= task_from(tasks, id, from)
            && tasks[task_from(tasks, id, from)].task_id@ == id,
        forall|j: int|
            from <= j < task_from(tasks, id, from) && j < tasks.len() ==> (
            #[trigger] tasks[j]).task_id@ != id,
    decreases tasks.len() - from,
{
    if from < tasks.len() && tasks[from].task_id@ != id {
        lemma_task_from(tasks, id, from + 1);
    }
}

/// A task that is set gets the state; every other task, and all else, stays.
pub proof fn lemma_tasks_are_set(
    before: SessionRecordV1,
    after: SessionRecordV1,
    task_id: Seq<char>,
    state: AutonomousQueueTaskStateV1,
    i: int,
)
    requires
        is_task_set(before, after, task_id, state),
        tasks_are_distinct(before.queue.tasks@),
        0 <= i < before.queue.tasks@.len(),
    ensures
        after.queue.tasks@.len() == before.queue.tasks@.len(),
        before.queue.tasks@[i].task_id@ == task_id ==> after.queue.tasks@[i].state == state
            && after.queue.tasks@[i].depends_on == before.queue.tasks@[i].depends_on
            && after.queue.tasks@[i].task_id == before.queue.tasks@[i].task_id,
        before.queue.tasks@[i].task_id@ != task_id ==> after.queue.tasks@[i]
            == before.queue.tasks@[i],
        after.snapshot == before.snapshot,
        after.events == before.events,
{
    lemma_task_from(before.queue.tasks@, task_id, 0);
    let at = task_from(before.queue.tasks@, task_id, 0);
    if before.queue.tasks@[i].task_id@ == task_id && i != at {
        assert(before.queue.tasks@[at].task_id@ == task_id);
        if i < at {
            assert(before.queue.tasks@[i].task_id@ != before.queue.tasks@[at].task_id@);
        } else {
            assert(before.queue.tasks@[at].task_id@ != before.queue.tasks@[i].task_id@);
        }
    }
}

/// A reply of the planner is taken up as it was given, and is open until a turn uses it.
pub proof fn lemma_replies_are_open(
    reply: AutonomousPlannerReplyV1,
    session_id: Seq<char>,
    escalation_id: Seq<char>,
    decision_hash: Seq<char>,
    decision: Seq<char>,
    constraints: Seq<String>,
    session: SessionRecordV1,
)
    requires
        is_reply(reply, session_id, escalation_id, decision_hash, decision, constraints),
        session.planner_reply == Some(reply),
    ensures
        has_open_reply(session),
        !has_open_reply(with_reply_consumed(session)),
        reply.decision@ == decision,
        reply.constraints@ == constraints,
        reply.escalation_id@ == escalation_id,
        with_reply_consumed(session).planner_reply->0.decision@ == decision,
        with_reply_consumed(session).snapshot == session.snapshot,
{
}

/// A kept reply, and a kept completion, belong to the session and say something.
pub proof fn lemma_kept_parts(
    reply: AutonomousPlannerReplyV1,
    artifacts: AutonomousCompletionArtifactsV1,
    session_id: Seq<char>,
)
    ensures
        reply_is_valid(reply, session_id) <==> reply.schema_version == 1 && reply.session_id@
            == session_id && is_slug(reply.escalation_id@) && reply_is_bounded(
            reply.decision_hash@,
            reply.decision@,
            reply.constraints@,
        ),
        completion_is_valid(artifacts, session_id) <==> artifacts.schema_version == 1
            && artifacts.session_id@ == session_id && evidence_is_bounded(
            artifacts.authoritative_diff@,
            artifacts.final_review@,
        ),
{
}

/// A new session is a draft that has done nothing and allows nothing.
pub proof fn lemma_new_snapshots(snapshot: AutonomousSessionSnapshotV1, session_id: Seq<char>)
    requires
        is_new_snapshot(snapshot, session_id),
    ensures
        snapshot.state is Draft,
        snapshot.active,
        snapshot.session_id@ == session_id,
        snapshot.approved_contract_hash is None,
        !snapshot.cancellation_requested,
        snapshot.provider_turn_count == 0,
        snapshot.repair_attempts == 0,
        snapshot.last_event_sequence == 0,
        snapshot.consumed_idempotency_keys@.len() == 0,
        snapshot.provider_thread_id is None,
        snapshot.current_task_id is None,
{
}

/// After a restart exactly the interrupted sessions are told.
pub proof fn lemma_recovered_sessions_are_told(
    before: Seq<SessionRecordV1>,
    after: Seq<SessionRecordV1>,
    n: int,
    i: int,
)
    requires
        0 <= i < n <= before.len(),
        recovered_upto(before, after, n),
    ensures
        was_interrupted(before[i]) ==> recovered_snapshots(before, after, n).contains(
            after[i].snapshot,
        ),
        !was_interrupted(before[i]) ==> after[i] == before[i],
        was_interrupted(before[i]) ==> after[i].id() == before[i].id(),
        recovered_snapshots(before, after, n).len() <= n,
    decreases n,
{
    assert(after[i] == after[i]);
    lemma_recovered_count(before, after, n);
    let told = recovered_snapshots(before, after, n);
    let less = recovered_snapshots(before, after, n - 1);
    if i < n - 1 {
        lemma_recovered_sessions_are_told(before, after, n - 1, i);
        if was_interrupted(before[i]) {
            let j = choose|j: int| 0 <= j < less.len() && less[j] == after[i].snapshot;
            assert(told[j] == after[i].snapshot);
        }
    } else if was_interrupted(before[i]) {
        assert(told[told.len() - 1] == after[i].snapshot);
    }
}

proof fn lemma_recovered_count(
    before: Seq<SessionRecordV1>,
    after: Seq<SessionRecordV1>,
    n: int,
)
    requires
        0 <= n,
    ensures
        recovered_snapshots(before, after, n).len() <= n,
    decreases n,
{
    if n > 0 {
        lemma_recovered_count(before, after, n - 1);
    }
}

/// A session that is not there is told by its name; one whose name is no proper name is
/// refused for that.
pub proof fn lemma_missing_sessions(
    store: AutonomousStateStoreV1,
    id: Seq<char>,
    e: AutonomyStateError,
)
    requires
        store.misses(id, e),
    ensures
        is_slug(id) ==> (e matches AutonomyStateError::SessionNotFound(name) && name@ == id),
        is_slug(id) ==> !store.has(id),
        !is_slug(id) ==> e is Validation,
{
}

// ---------------------------------------------------------------------------
// A log that was cut short

/// The bytes from `a` to `b` are one line: a break or an end stands on either side, and
/// none within.
pub open spec fn is_line(bytes: Seq<u8>, a: int, b: int) -> bool {
    &&& 0 <= a <= b <= bytes.len()
    &&& a == 0 || bytes[a - 1] == 10u8
    &&& b == bytes.len() || bytes[b] == 10u8
    &&& forall|j: int| a <= j < b ==> #[trigger] bytes[j] != 10u8
}

proof fn lemma_line_end(bytes: Seq<u8>, from: int)
    requires
        0 <= from <= bytes.len(),
    ensures
        from <= line_end(bytes, from) <= bytes.len(),
        line_end(bytes, from) < bytes.len() ==> bytes[line_end(bytes, from)] == 10u8,
        forall|j: int| from <= j < line_end(bytes, from) ==> #[trigger] bytes[j] != 10u8,
    decreases bytes.len() - from,
{
    if from < bytes.len() && bytes[from] != 10u8 {
        lemma_line_end(bytes, from + 1);
    }
}

/// Of a log everything is kept up to its last line if that line is broken, and the whole
/// log if no line is.
pub proof fn lemma_broken_end_is_dropped(bytes: Seq<u8>, from: int)
    requires
        0 <= from <= bytes.len(),
        from == 0 || from == bytes.len() || bytes[from - 1] == 10u8,
    ensures
        kept_length(bytes, from) matches Some(n) ==> {
            &&& from <= n <= bytes.len()
            &&& forall|a: int, b: int|
                #![trigger is_line(bytes, a, b)]
                is_line(bytes, a, b) && from <= a < n && a < b ==> json_accepts(
                    bytes.subrange(a, b),
                )
            &&& n < bytes.len() ==> exists|b: int|
                n < b && bytes.len() <= b + 1 && #[trigger] is_line(bytes, n, b) && !json_accepts(
                    bytes.subrange(n, b),
                )
        },
        kept_length(bytes, from) is None ==> exists|a: int, b: int|
            from <= a < b && b + 1 < bytes.len() && #[trigger] is_line(bytes, a, b)
                && !json_accepts(bytes.subrange(a, b)),
    decreases bytes.len() - from,
{
    if from < bytes.len() {
        lemma_line_end(bytes, from);
        let end = line_end(bytes, from);
        let next = if end < bytes.len() {
            end + 1
        } else {
            end
        };
        assert(is_line(bytes, from, end));
        if end > from && !json_accepts(bytes.subrange(from, end)) {
        } else {
            lemma_broken_end_is_dropped(bytes, next);
            if let Some(n) = kept_length(bytes, from) {
                assert forall|a: int, b: int|
                    #![trigger is_line(bytes, a, b)]
                    is_line(bytes, a, b) && from <= a < n && a < b implies json_accepts(
                    bytes.subrange(a, b),
                ) by {
                    if a < next {
                        if a > from {
                            assert(bytes[a - 1] == 10u8);
                            assert(a - 1 == end);
                        }
                        assert(a == from);
                        if b < end {
                            assert(bytes[b] != 10u8);
                        }
                        if end < b {
                            assert(bytes[end] != 10u8);
                        }
                        assert(b == end);
                    }
                }
            }
        }
    }
}

/// A log with a broken line in its middle is refused.
pub proof fn lemma_broken_middle_is_refused(bytes: Seq<u8>, a: int, b: int)
    requires
        is_line(bytes, a, b),
        a < b,
        b + 1 < bytes.len(),
        !json_accepts(bytes.subrange(a, b)),
    ensures
        kept_length(bytes, 0) is None,
{
    lemma_broken_end_is_dropped(bytes, 0);
    if let Some(n) = kept_length(bytes, 0) {
        if n <= a {
            let e = choose|e: int|
                n < e && bytes.len() <= e + 1 && #[trigger] is_line(bytes, n, e) && !json_accepts(
                    bytes.subrange(n, e),
                );
            assert(bytes[b] == 10u8);
            assert(n <= b < e);
        }
    }
}

// ---------------------------------------------------------------------------
// Steps that ask nobody

/// A step that cancels, reports, escalates or ends a lease asks neither the provider nor
/// the verifier, and what it reports is the state that the session is in then.
pub proof fn lemma_quiet_steps<P: WorkerProviderV1, V: AutonomousVerifierV1>(
    old_controller: ControllerParts<P, V>,
    new_controller: ControllerParts<P, V>,
    cancel_requested: bool,
    before: SessionRecordV1,
    after: SessionRecordV1,
    now_unix: u64,
    r: Result<AutonomousControllerOutcomeV1, RuntimeError>,
)
    requires
        is_step(old_controller, new_controller, cancel_requested, before, after, now_unix, r),
    ensures
        ({
            let step = step_of(
                before.snapshot,
                old_controller.policy.terms(),
                cancel_requested,
                old_controller.last_handle is Some,
                now_unix,
            );
            let quiet = step is Cancel || step is Report || step is Escalate || step is ExpireLease;
            &&& quiet ==> new_controller.provider == old_controller.provider
                && new_controller.verifier == old_controller.verifier && new_controller.last_handle
                == old_controller.last_handle
            &&& quiet && r is Ok ==> r->Ok_0.provider_events == 0 && r->Ok_0.verification is None
                && r->Ok_0.authoritative_diff is None && r->Ok_0.final_review is None
            &&& quiet ==> after.queue == before.queue && after.completion == before.completion
            &&& step is Cancel ==> after.snapshot.state is Cancelled && !after.snapshot.active && (
            r is Ok ==> r->Ok_0.state is Cancelled)
            &&& step is Report ==> after == before && r is Ok && r->Ok_0.state == step->Report_0
            &&& step is Escalate ==> after.snapshot.state is WaitingForChatgpt && after.escalation
                is Some && after.escalation->0.reason@ == step->Escalate_0.name() && (r is Ok
                ==> r->Ok_0.state is WaitingForChatgpt)
            &&& step is ExpireLease ==> after.snapshot.state is LeaseExpired
                && !after.snapshot.active && (r is Ok ==> r->Ok_0.state is LeaseExpired)
        }),
{
}

/// A turn can be judged only if its task is known and stands in the queue.
pub proof fn lemma_tasks_under_way(session: SessionRecordV1)
    ensures
        current_task_refusal(session) is None <==> session.snapshot.current_task_id is Some
            && exists|i: int|
            0 <= i < session.queue.tasks@.len() && (#[trigger] session.queue.tasks@[i]).task_id@
                == session.snapshot.current_task_id->0@,
{
    if session.snapshot.current_task_id is Some {
        lemma_task_from(session.queue.tasks@, session.snapshot.current_task_id->0@, 0);
    }
}

/// An instruction lists at most twenty steps, numbered from one on, in their order.
pub proof fn lemma_listed_steps(steps: Seq<String>, i: int)
    ensures
        numbered_steps(steps).len() == if steps.len() < 20 {
            steps.len()
        } else {
            20
        },
        0 <= i < numbered_steps(steps).len() ==> numbered_steps(steps)[i] == decimal(
            (i + 1) as nat,
        ) + ". "@ + fitting_prefix(steps[i]@, 512),
{
}

} // verus!
