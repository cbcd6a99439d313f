//! What autonomous sessions promise: which task comes next, which step is taken, what
//! counts as complete, and what a supervisor can change.

use vstd::prelude::*;
use vstd::string::*;
use crate::autonomous_contract::{AutonomousDevelopmentContractV1, is_slug};
use crate::autonomous_controller::{
    AutonomousControllerOutcomeV1, AutonomousVerifierV1, ControllerParts, ControllerStepV1,
    EscalationReasonV1, TurnCallV1, WorkerProviderV1, call_for, current_task_refusal, is_judged,
    is_proven, is_step, is_verified_work, moves, one_more, paused_for_rate_limit, repairs,
    repairs_through, step_of, verdict_of,
};
use crate::autonomy_state::{
    AutonomousEscalationPacketV1, AutonomousQueueTaskV1, AutonomousQueueV1,
    AutonomousSessionSnapshotV1, AutonomousSessionStateV1, AutonomousStateStoreV1,
    SessionRecordV1, all_verified, can_start, dependencies_refusal, escalation_refusal,
    event_refusal, evidence_is_bounded, goes_before, has_task, is_logged, is_next, is_verified,
    reply_is_bounded, snapshot_refusal, task_from, tasks_refusal, was_interrupted,
};
use crate::autonomy_supervisor::{
    ContractPathsV1, SessionChangeV1, approves, change_refusal, is_changed, mutates, request_of,
    session_mutates, starts, stored_hash, used_for,
};
use crate::coordinator::VerificationSummaryV1;
use crate::hash::fingerprint;
use crate::json::JsonView;
use crate::provider::{
    NormalizedProviderEventKind, ProviderEventBatchV1, RuntimeError, has_kind, has_rate_limit,
    is_rate_limit, speaks_of_rate_limit,
};
use crate::text::{blank, is_white, text_before, texts, utf8_len};

verus! {

/// A session is over in these states and in no other.
pub proof fn lemma_sessions_that_are_over(state: AutonomousSessionStateV1)
    ensures
        state.is_end() <==> (state is CompletedVerified || state is Blocked || state is Failed
            || state is Cancelled || state is LeaseExpired || state is CreditBudgetExhausted),
        state.in_flight() <==> (state is Running || state is Verifying),
{
}

/// Work is interrupted by a restart exactly where an active session was running or
/// verifying.
pub proof fn lemma_interrupted_sessions(session: SessionRecordV1)
    ensures
        was_interrupted(session) <==> session.snapshot.active && (session.snapshot.state is Running
            || session.snapshot.state is Verifying),
{
}

// ---------------------------------------------------------------------------
// The queue

proof fn lemma_task_from(tasks: Seq<AutonomousQueueTaskV1>, id: Seq<char>, from: int)
    requires
        0 <= from <= tasks.len(),
    ensures
        from <= task_from(tasks, id, from) <= tasks.len(),
        task_from(tasks, id, from) < tasks.len() ==> tasks[task_from(tasks, id, from)].task_id@
            == id,
        forall|j: int|
            from <= j < task_from(tasks, id, from) ==> (#[trigger] tasks[j]).task_id@ != id,
    decreases tasks.len() - from,
{
    if from < tasks.len() && tasks[from].task_id@ != id {
        lemma_task_from(tasks, id, from + 1);
    }
}

/// A task can start only while it is ready, and only after every task that it depends on
/// was verified as complete. A task that failed, was cancelled or is still under way does
/// not let those start that depend on it.
pub proof fn lemma_dependencies_are_complete(tasks: Seq<AutonomousQueueTaskV1>, i: int, k: int)
    requires
        can_start(tasks, i),
        0 <= k < tasks[i].depends_on@.len(),
    ensures
        tasks[i].state is Ready,
        exists|j: int|
            0 <= j < tasks.len() && (#[trigger] tasks[j]).task_id@ == tasks[i].depends_on@[k]@
                && tasks[j].state is CompletedVerified,
{
    let id = tasks[i].depends_on@[k]@;
    lemma_task_from(tasks, id, 0);
    assert(is_verified(tasks, tasks[i].depends_on@[k]@));
    let j = task_from(tasks, id, 0);
    assert(tasks[j].task_id@ == id && tasks[j].state is CompletedVerified);
}

/// In a queue without two tasks of one name, a task can start exactly where it is ready
/// and each of its dependencies is the name of a task that is verified as complete.
pub proof fn lemma_tasks_that_can_start(tasks: Seq<AutonomousQueueTaskV1>, i: int)
    requires
        0 <= i < tasks.len(),
        forall|a: int, b: int|
            0 <= a < b < tasks.len() ==> (#[trigger] tasks[a]).task_id@ != (
            #[trigger] tasks[b]).task_id@,
    ensures
        can_start(tasks, i) <==> tasks[i].state is Ready && forall|k: int|
            0 <= k < tasks[i].depends_on@.len() ==> exists|j: int|
                0 <= j < tasks.len() && (#[trigger] tasks[j]).task_id@ == (
                #[trigger] tasks[i].depends_on@[k])@ && tasks[j].state is CompletedVerified,
{
    let ids = tasks[i].depends_on@;
    if can_start(tasks, i) {
        assert forall|k: int| 0 <= k < ids.len() implies exists|j: int|
            0 <= j < tasks.len() && (#[trigger] tasks[j]).task_id@ == (#[trigger] ids[k])@
                && tasks[j].state is CompletedVerified by {
            lemma_dependencies_are_complete(tasks, i, k);
        }
    }
    if tasks[i].state is Ready && forall|k: int|
        0 <= k < ids.len() ==> exists|j: int|
            0 <= j < tasks.len() && (#[trigger] tasks[j]).task_id@ == (#[trigger] ids[k])@
                && tasks[j].state is CompletedVerified {
        assert forall|k: int| 0 <= k < ids.len() implies is_verified(
            tasks,
            (#[trigger] ids[k])@,
        ) by {
            let j = choose|j: int|
                0 <= j < tasks.len() && (#[trigger] tasks[j]).task_id@ == ids[k]@
                    && tasks[j].state is CompletedVerified;
            lemma_task_from(tasks, ids[k]@, 0);
            let f = task_from(tasks, ids[k]@, 0);
            if f < j {
                assert(tasks[f].task_id@ != tasks[j].task_id@);
            }
        }
        assert(all_verified(tasks, ids));
    }
}

/// The task to take up next is one that can start, and none that can start has a higher
/// priority; of those of the same priority none has a name that goes before its name.
pub proof fn lemma_next_task_is_the_first(tasks: Seq<AutonomousQueueTaskV1>, i: int, j: int)
    requires
        is_next(tasks, i),
        can_start(tasks, j),
    ensures
        can_start(tasks, i),
        tasks[j].priority <= tasks[i].priority,
        tasks[j].priority == tasks[i].priority ==> !text_before(
            tasks[j].task_id@,
            tasks[i].task_id@,
        ),
{
    assert(!goes_before(tasks[j], tasks[i]));
}

proof fn lemma_dependencies_refusal(
    tasks: Seq<AutonomousQueueTaskV1>,
    depends_on: Seq<String>,
    from: int,
)
    requires
        0 <= from <= depends_on.len(),
    ensures
        dependencies_refusal(tasks, depends_on, from) is None <==> forall|k: int|
            from <= k < depends_on.len() ==> is_slug((#[trigger] depends_on[k])@) && has_task(
                tasks,
                depends_on[k]@,
            ),
    decreases depends_on.len() - from,
{
    if from < depends_on.len() {
        lemma_dependencies_refusal(tasks, depends_on, from + 1);
    }
}

/// What a queue owes a task: a proper name, no dependency on itself, and dependencies
/// that are tasks of the queue.
pub open spec fn is_sound_task(tasks: Seq<AutonomousQueueTaskV1>, i: int) -> bool {
    let task = tasks[i];
    &&& is_slug(task.task_id@)
    &&& forall|k: int|
        0 <= k < task.depends_on@.len() ==> (#[trigger] task.depends_on@[k])@ != task.task_id@
            && is_slug(task.depends_on@[k]@) && exists|j: int|
            0 <= j < tasks.len() && (#[trigger] tasks[j]).task_id@ == task.depends_on@[k]@
}

proof fn lemma_tasks_refusal(tasks: Seq<AutonomousQueueTaskV1>, from: int)
    requires
        0 <= from <= tasks.len(),
    ensures
        tasks_refusal(tasks, from) is None <==> forall|i: int|
            from <= i < tasks.len() ==> #[trigger] is_sound_task(tasks, i),
    decreases tasks.len() - from,
{
    if from < tasks.len() {
        lemma_tasks_refusal(tasks, from + 1);
        let task = tasks[from];
        let ids = task.depends_on@;
        lemma_dependencies_refusal(tasks, ids, 0);
        let t = texts(ids);
        assert(t.contains(task.task_id@) <==> exists|k: int|
            0 <= k < ids.len() && (#[trigger] ids[k])@ == task.task_id@) by {
            if t.contains(task.task_id@) {
                let k = choose|k: int| 0 <= k < t.len() && t[k] == task.task_id@;
                assert(ids[k]@ == task.task_id@);
            }
            if exists|k: int| 0 <= k < ids.len() && (#[trigger] ids[k])@ == task.task_id@ {
                let k = choose|k: int| 0 <= k < ids.len() && (#[trigger] ids[k])@ == task.task_id@;
                assert(t[k] == task.task_id@);
            }
        }
        let rest_sound = forall|i: int|
            from + 1 <= i < tasks.len() ==> #[trigger] is_sound_task(tasks, i);
        if tasks_refusal(tasks, from) is None {
            assert(is_sound_task(tasks, from));
            assert forall|i: int| from <= i < tasks.len() implies #[trigger] is_sound_task(
                tasks,
                i,
            ) by {}
        }
        if forall|i: int| from <= i < tasks.len() ==> #[trigger] is_sound_task(tasks, i) {
            assert(is_sound_task(tasks, from));
            assert forall|k: int| 0 <= k < ids.len() implies is_slug((#[trigger] ids[k])@)
                && has_task(tasks, ids[k]@) by {}
        }
    }
}

/// A queue is accepted exactly where no two tasks share a name and every task is sound.
pub proof fn lemma_queue_accepted(queue: AutonomousQueueV1)
    ensures
        queue.refusal() is None <==> {
            &&& queue.schema_version == 1
            &&& forall|a: int, b: int|
                0 <= a < b < queue.tasks@.len() ==> (#[trigger] queue.tasks@[a]).task_id@ != (
                #[trigger] queue.tasks@[b]).task_id@
            &&& forall|i: int|
                0 <= i < queue.tasks@.len() ==> #[trigger] is_sound_task(queue.tasks@, i)
        },
{
    lemma_tasks_refusal(queue.tasks@, 0);
}

// ---------------------------------------------------------------------------
// What is kept of a session

/// A session's snapshot is accepted exactly where it is about the session, and is active
/// exactly while the session is not over.
pub proof fn lemma_snapshot_accepted(snapshot: AutonomousSessionSnapshotV1, id: Seq<char>)
    ensures
        snapshot_refusal(snapshot, id) is None <==> {
            &&& snapshot.schema_version == 1
            &&& is_slug(snapshot.session_id@)
            &&& snapshot.session_id@ == id
            &&& snapshot.active == !(snapshot.state is CompletedVerified || snapshot.state is Blocked
                || snapshot.state is Failed || snapshot.state is Cancelled
                || snapshot.state is LeaseExpired || snapshot.state is CreditBudgetExhausted)
            &&& snapshot.current_task_id is Some ==> is_slug(snapshot.current_task_id->0@)
        },
{
}

/// An escalation is accepted exactly where it is about the session and its names are
/// proper.
pub proof fn lemma_escalation_accepted(packet: AutonomousEscalationPacketV1, id: Seq<char>)
    ensures
        escalation_refusal(packet, id) is None <==> packet.schema_version == 1
            && packet.session_id@ == id && is_slug(packet.escalation_id@) && is_slug(
            packet.reason@,
        ),
{
}

/// A planner's reply is accepted exactly where it decides something, is bound to a
/// decision, and is short.
pub proof fn lemma_reply_accepted(hash: Seq<char>, decision: Seq<char>, constraints: Seq<String>)
    ensures
        reply_is_bounded(hash, decision, constraints) <==> {
            &&& exists|i: int| 0 <= i < hash.len() && !is_white(#[trigger] hash[i])
            &&& exists|i: int| 0 <= i < decision.len() && !is_white(#[trigger] decision[i])
            &&& utf8_len(decision) <= 4096
            &&& constraints.len() <= 20
            &&& forall|k: int|
                0 <= k < constraints.len() ==> !blank((#[trigger] constraints[k])@) && utf8_len(
                    constraints[k]@,
                ) <= 512
        },
{
}

/// The evidence of a completion is a diff and a review that say something, and neither is
/// too long to be kept.
pub proof fn lemma_evidence_says_something(diff: Seq<char>, review: Seq<char>)
    ensures
        evidence_is_bounded(diff, review) <==> {
            &&& exists|i: int| 0 <= i < diff.len() && !is_white(#[trigger] diff[i])
            &&& exists|i: int| 0 <= i < review.len() && !is_white(#[trigger] review[i])
            &&& utf8_len(diff) <= 524_288
            &&& utf8_len(review) <= 24_576
        },
{
}

/// An event is accepted exactly where its kind is a proper name and its summary says
/// something in few words.
pub proof fn lemma_event_accepted(kind: Seq<char>, summary: Seq<char>)
    ensures
        event_refusal(kind, summary) is None <==> is_slug(kind) && !blank(summary) && utf8_len(
            summary,
        ) <= 4096,
{
}

/// A logged event carries the next number, and nothing but the log and its number
/// changes.
pub proof fn lemma_log_grows_by_one(
    before: SessionRecordV1,
    after: SessionRecordV1,
    kind: Seq<char>,
    summary: Seq<char>,
)
    requires
        is_logged(before, after, kind, summary),
    ensures
        after.events@.len() == before.events@.len() + 1,
        forall|i: int| 0 <= i < before.events@.len() ==> #[trigger] after.events@[i] == before.events@[i],
        after.events@.last().kind@ == kind,
        after.events@.last().summary@ == summary,
        before.events@.len() == 0 ==> after.events@.last().sequence == 1,
        before.events@.len() > 0 && before.events@.last().sequence < u64::MAX
            ==> after.events@.last().sequence == before.events@.last().sequence + 1,
        after.snapshot.last_event_sequence == after.events@.last().sequence,
        after.snapshot.state == before.snapshot.state,
        after.queue == before.queue,
        after.completion == before.completion,
        after.contract == before.contract,
        after.planner_reply == before.planner_reply,
        after.escalation == before.escalation,
{
    assert forall|i: int| 0 <= i < before.events@.len() implies #[trigger] after.events@[i]
        == before.events@[i] by {
        assert(after.events@.drop_last()[i] == before.events@[i]);
    }
}

/// A session that moves takes the state it moves to, and stays active unless it is over.
pub proof fn lemma_moved_session(
    before: SessionRecordV1,
    after: SessionRecordV1,
    state: AutonomousSessionStateV1,
    event: Seq<char>,
    logged: bool,
)
    requires
        moves(before, after, state, event, logged),
    ensures
        after.snapshot.state == state,
        after.snapshot.active == !state.is_end(),
        after.queue == before.queue,
        after.completion == before.completion,
        after.snapshot.repair_attempts == before.snapshot.repair_attempts,
        after.snapshot.provider_thread_id == before.snapshot.provider_thread_id,
        logged ==> after.events@.len() == before.events@.len() + 1 && after.events@.last().kind@
            == event,
        !logged ==> after.events == before.events,
        logged <==> before.events@.len() == 0 && before.snapshot.last_event_sequence == 0 || (
        before.events@.len() > 0 && before.snapshot.last_event_sequence
            <= before.events@.last().sequence),
{
}

// ---------------------------------------------------------------------------
// The steps of a controller

/// Which step is taken. A wish to cancel comes first, then a session that is over; no
/// step works or looks at a turn outside the lease, while a pause lasts, or after a
/// restart that lost the conversation.
pub proof fn lemma_steps(
    snapshot: AutonomousSessionSnapshotV1,
    contract: AutonomousDevelopmentContractV1,
    cancel_requested: bool,
    has_handle: bool,
    now_unix: u64,
)
    ensures
        ({
            let step = step_of(snapshot, contract, cancel_requested, has_handle, now_unix);
            let state = snapshot.state;
            let lease = contract.autonomy_lease;
            let stop = cancel_requested || snapshot.cancellation_requested;
            let over = state is CompletedVerified || state is Blocked || state is Failed
                || state is Cancelled || state is LeaseExpired || state is CreditBudgetExhausted;
            let lost = state is RecoveringAfterRestart && snapshot.provider_thread_id is None;
            let held = lease.issued_at_unix <= now_unix && now_unix < lease.expires_at_unix;
            let limited = state is RateLimited;
            let too_long = limited && snapshot.rate_limited_since_unix is Some && now_unix
                > snapshot.rate_limited_since_unix->0
                + contract.rate_limit_policy.maximum_rate_limited_seconds;
            let waits = limited && snapshot.retry_not_before_unix is Some && now_unix
                < snapshot.retry_not_before_unix->0;
            let may_work = !stop && !over && !lost && held && !too_long && !waits;
            &&& step is Cancel <==> stop
            &&& !stop && over ==> step == ControllerStepV1::Report(state)
            &&& step == ControllerStepV1::Escalate(
                EscalationReasonV1::RestartSessionContinuityMissing,
            ) <==> !stop && !over && lost
            &&& step is ExpireLease <==> !stop && !over && !lost && !held
            &&& step == ControllerStepV1::Escalate(EscalationReasonV1::RateLimitDurationExhausted)
                <==> !stop && !over && !lost && held && too_long
            &&& !stop && !over && !lost && held && !too_long && waits ==> step
                == ControllerStepV1::Report(AutonomousSessionStateV1::RateLimited)
            &&& step is Poll <==> may_work && state is Running && has_handle
            &&& step is Poll ==> step->Poll_0 == snapshot.provider_event_cursor
            &&& step is Work <==> may_work && !(state is Running && has_handle)
        }),
{
}

/// A batch is judged by its events: while the turn goes on nothing is decided; a rate
/// limit pauses, any other error escalates, and only a turn that ended without an error
/// is verified.
pub proof fn lemma_verdicts(batch: ProviderEventBatchV1)
    ensures
        ({
            let events = batch.events@;
            let failed = exists|i: int|
                0 <= i < events.len() && (#[trigger] events[i]).kind is TerminalError;
            let limited = exists|i: int|
                0 <= i < events.len() && (#[trigger] events[i]).kind is TerminalError
                    && events[i].text is Some && speaks_of_rate_limit(events[i].text->0@);
            &&& verdict_of(batch) is StillRunning <==> !batch.terminal
            &&& verdict_of(batch) is RateLimited <==> batch.terminal && limited
            &&& verdict_of(batch) is TerminalError <==> batch.terminal && failed && !limited
            &&& verdict_of(batch) is Verify <==> batch.terminal && !failed
        }),
{
    let events = batch.events@;
    if has_rate_limit(events) {
        let i = choose|i: int| 0 <= i < events.len() && is_rate_limit(#[trigger] events[i]);
        assert(events[i].kind is TerminalError);
    }
    if exists|i: int|
        0 <= i < events.len() && (#[trigger] events[i]).kind is TerminalError && events[i].text is Some
            && speaks_of_rate_limit(events[i].text->0@) {
        let i = choose|i: int|
            0 <= i < events.len() && (#[trigger] events[i]).kind is TerminalError
                && events[i].text is Some && speaks_of_rate_limit(events[i].text->0@);
        assert(is_rate_limit(events[i]));
    }
    if has_kind(events, NormalizedProviderEventKind::TerminalError) {
        let i = choose|i: int|
            0 <= i < events.len() && (#[trigger] events[i]).kind
                == NormalizedProviderEventKind::TerminalError;
        assert(events[i].kind is TerminalError);
    }
}

/// A pause for a rate limit remembers when the first one began, and lasts for the
/// contract's first wait.
pub proof fn lemma_pause_lasts(session: SessionRecordV1, wait: u64, now_unix: u64)
    ensures
        ({
            let paused = paused_for_rate_limit(session, wait, now_unix);
            &&& paused.snapshot.state is RateLimited
            &&& paused.snapshot.retry_not_before_unix is Some
            &&& now_unix + wait <= u64::MAX ==> paused.snapshot.retry_not_before_unix->0 == now_unix
                + wait
            &&& now_unix + wait > u64::MAX ==> paused.snapshot.retry_not_before_unix->0 == u64::MAX
            &&& session.snapshot.rate_limited_since_unix is Some
                ==> paused.snapshot.rate_limited_since_unix
                == session.snapshot.rate_limited_since_unix
            &&& session.snapshot.rate_limited_since_unix is None
                ==> paused.snapshot.rate_limited_since_unix == Some(now_unix)
            &&& paused.queue == session.queue
            &&& paused.snapshot.provider_thread_id == session.snapshot.provider_thread_id
            &&& paused.snapshot.repair_attempts == session.snapshot.repair_attempts
        }),
{
}

/// The budgets of a session: no turn is taken once the lease's turns are used up, and no
/// repair once there were more than the contract's repairs.
pub proof fn lemma_session_budgets(
    snapshot: AutonomousSessionSnapshotV1,
    contract: AutonomousDevelopmentContractV1,
)
    ensures
        ({
            let r = crate::autonomous_controller::exhausted_budget(snapshot, contract);
            let turns = snapshot.provider_turn_count
                >= contract.autonomy_lease.maximum_provider_turns;
            let repairs = snapshot.provider_thread_id is Some && snapshot.repair_attempts
                > contract.verification_policy.max_repair_cycles;
            &&& r == Some(EscalationReasonV1::ProviderTurnBudgetExhausted) <==> turns
            &&& r == Some(EscalationReasonV1::RepairBudgetExhausted) <==> !turns && repairs
            &&& r is None <==> !turns && !repairs
        }),
{
}

/// A session goes on in the conversation that it has.
pub proof fn lemma_conversation_goes_on(snapshot: AutonomousSessionSnapshotV1)
    ensures
        call_for(snapshot) is Start <==> snapshot.provider_thread_id is None,
        snapshot.provider_thread_id is Some ==> call_for(snapshot) == TurnCallV1::Resume(
            snapshot.provider_thread_id->0,
        ),
{
}

/// The work of a turn counts exactly where verification passed and the diff holds at
/// least one character that is not white space.
pub proof fn lemma_verified_work(verification: VerificationSummaryV1, diff: Seq<char>)
    ensures
        is_verified_work(verification, diff) <==> verification.status is Passed && exists|i: int|
            0 <= i < diff.len() && !is_white(#[trigger] diff[i]),
{
}

/// However a session is judged: it is not reported as complete, and no task of it is
/// newly marked as complete, unless verification passed and the diff holds a character
/// that is not white space.
pub proof fn lemma_no_task_completes_without_a_diff<V: AutonomousVerifierV1>(
    before: SessionRecordV1,
    after: SessionRecordV1,
    require_final_review: bool,
    provider_events: usize,
    verification: VerificationSummaryV1,
    diff: Seq<char>,
    r: Result<AutonomousControllerOutcomeV1, RuntimeError>,
    i: int,
)
    requires
        is_judged::<V>(
            before,
            after,
            require_final_review,
            provider_events,
            verification,
            diff,
            r,
        ),
        (r is Ok && r->Ok_0.state is CompletedVerified) || (0 <= i < before.queue.tasks@.len()
            && !(before.queue.tasks@[i].state is CompletedVerified)
            && after.queue.tasks@[i].state is CompletedVerified),
    ensures
        verification.status is Passed,
        exists|k: int| 0 <= k < diff.len() && !is_white(#[trigger] diff[k]),
{
    lemma_verified_work(verification, diff);
    if !is_verified_work(verification, diff) && current_task_refusal(before) is None {
        let (set, noted) = choose|set: SessionRecordV1, noted: SessionRecordV1| #[trigger]
            repairs_through(
                before,
                set,
                noted,
                after,
                one_more(before.snapshot.repair_attempts),
                verification.summary@,
                r is Ok,
            );
        assert(after.queue == set.queue);
        let at = task_from(before.queue.tasks@, before.snapshot.current_task_id->0@, 0);
        assert(i == at || after.queue.tasks@[i] == before.queue.tasks@[i]);
    }
}

/// Work that does not count goes back to be repaired: the task is ready again, one
/// attempt more is counted, and the session is queued.
pub proof fn lemma_unfinished_work_goes_back(
    before: SessionRecordV1,
    after: SessionRecordV1,
    repair_attempts: u32,
    summary: Seq<char>,
    logged: bool,
)
    requires
        repairs(before, after, repair_attempts, summary, logged),
        before.snapshot.current_task_id is Some,
    ensures
        after.snapshot.state is Queued,
        after.snapshot.repair_attempts == repair_attempts,
        after.snapshot.provider_thread_id == before.snapshot.provider_thread_id,
        after.completion == before.completion,
        logged ==> after.events@.last().kind@ == "verification_or_diff_incomplete"@,
        exists|j: int|
            0 <= j < after.queue.tasks@.len() && (#[trigger] after.queue.tasks@[j]).task_id@
                == before.snapshot.current_task_id->0@ && after.queue.tasks@[j].state is Ready,
{
    let (set, noted) = choose|set: SessionRecordV1, noted: SessionRecordV1| #[trigger]
        repairs_through(before, set, noted, after, repair_attempts, summary, logged);
    let id = before.snapshot.current_task_id->0@;
    lemma_task_from(before.queue.tasks@, id, 0);
    let at = task_from(before.queue.tasks@, id, 0);
    assert(after.queue == set.queue);
    assert(set.queue.tasks@[at].task_id@ == id);
    assert(after.queue.tasks@[at].state is Ready);
}

/// However a provider and a verifier behave: a step that reports a session as complete,
/// which was not over, leaves it with evidence that verification passed, with a diff and a
/// review that both hold a character that is not white space, and with no task that could
/// still start.
pub proof fn lemma_completion_has_evidence<P: WorkerProviderV1, V: AutonomousVerifierV1>(
    old_controller: ControllerParts<P, V>,
    new_controller: ControllerParts<P, V>,
    cancel_requested: bool,
    before: SessionRecordV1,
    after: SessionRecordV1,
    now_unix: u64,
    outcome: AutonomousControllerOutcomeV1,
)
    requires
        is_step(old_controller, new_controller, cancel_requested, before, after, now_unix, Ok(outcome)),
        !(before.snapshot.state is CompletedVerified),
        outcome.state is CompletedVerified,
    ensures
        after.snapshot.state is CompletedVerified,
        after.completion is Some,
        after.completion->0.verification.status is Passed,
        exists|i: int|
            0 <= i < after.completion->0.authoritative_diff@.len() && !is_white(
                #[trigger] after.completion->0.authoritative_diff@[i],
            ),
        exists|i: int|
            0 <= i < after.completion->0.final_review@.len() && !is_white(
                #[trigger] after.completion->0.final_review@[i],
            ),
        outcome.verification == Some(after.completion->0.verification),
        outcome.authoritative_diff is Some && outcome.authoritative_diff->0@
            == after.completion->0.authoritative_diff@,
        outcome.final_review is Some && outcome.final_review->0@
            == after.completion->0.final_review@,
        forall|i: int| !#[trigger] can_start(after.queue.tasks@, i),
{
    assert(is_proven(outcome, after));
}

/// A session that is over, or that is to be cancelled, never reaches its provider or its
/// verifier.
pub proof fn lemma_nobody_is_asked_after_the_end<P: WorkerProviderV1, V: AutonomousVerifierV1>(
    old_controller: ControllerParts<P, V>,
    new_controller: ControllerParts<P, V>,
    cancel_requested: bool,
    before: SessionRecordV1,
    after: SessionRecordV1,
    now_unix: u64,
    r: Result<AutonomousControllerOutcomeV1, RuntimeError>,
)
    requires
        is_step(old_controller, new_controller, cancel_requested, before, after, now_unix, r),
        cancel_requested || before.snapshot.cancellation_requested
            || before.snapshot.state is CompletedVerified || before.snapshot.state is Failed
            || before.snapshot.state is Cancelled || now_unix
            >= old_controller.policy.terms().autonomy_lease.expires_at_unix,
    ensures
        new_controller.provider == old_controller.provider,
        new_controller.verifier == old_controller.verifier,
        after.snapshot.provider_turn_count == before.snapshot.provider_turn_count,
        cancel_requested || before.snapshot.cancellation_requested
            ==> after.snapshot.state is Cancelled,
{
}

// ---------------------------------------------------------------------------
// What a supervisor can change

/// What each change of a supervisor makes of a session.
pub proof fn lemma_supervisor_changes(
    before: SessionRecordV1,
    after: SessionRecordV1,
    expected: u64,
    key: Seq<char>,
    change: SessionChangeV1,
)
    requires
        is_changed(before, after, expected, key, change),
    ensures
        change is Pause ==> after.snapshot.state is Paused,
        change is Cancel ==> after.snapshot.state is Cancelled
            && after.snapshot.cancellation_requested && !after.snapshot.active,
        change is Resume || change is Start || change is PlannerReply || change is Approve
            ==> after.snapshot.state is Queued && after.snapshot.active,
        change is RenewLease ==> after.snapshot.state == before.snapshot.state,
        !(change is Cancel) ==> after.snapshot.cancellation_requested
            == before.snapshot.cancellation_requested,
        change is Approve ==> after.snapshot.approved_contract_hash == Some(change->Approve_0),
        !(change is Approve) ==> after.snapshot.approved_contract_hash
            == before.snapshot.approved_contract_hash,
        after.queue == before.queue,
        after.contract == before.contract,
        after.completion == before.completion,
        after.snapshot.repair_attempts == before.snapshot.repair_attempts,
        after.snapshot.provider_turn_count == before.snapshot.provider_turn_count,
        after.snapshot.consumed_idempotency_keys@.last().0@ == key,
{
}

/// Which changes a session refuses: a start without the approval that the contract asks
/// for, or of a session that is not queued; a pause or a new start of one that is over;
/// a reply that nobody waits for.
pub proof fn lemma_refused_changes(s: AutonomousSessionSnapshotV1, change: SessionChangeV1)
    ensures
        change is Start ==> (change_refusal(s, change) is None <==> s.state is Queued && (
        !change->approval_required || (s.approved_contract_hash is Some
            && s.approved_contract_hash->0@ == change->contract_hash@))),
        change is Pause || change is Resume ==> (change_refusal(s, change) is None <==> !(
        s.state is CompletedVerified || s.state is Blocked || s.state is Failed
            || s.state is Cancelled || s.state is LeaseExpired
            || s.state is CreditBudgetExhausted)),
        change is PlannerReply ==> (change_refusal(s, change) is None
            <==> s.state is WaitingForChatgpt),
        change is Approve || change is Cancel || change is RenewLease ==> change_refusal(s, change) is None,
{
}

proof fn lemma_used_for(pairs: Seq<(String, String)>, key: Seq<char>, from: int)
    requires
        0 <= from <= pairs.len(),
    ensures
        used_for(pairs, key, from) is None <==> forall|i: int|
            from <= i < pairs.len() ==> (#[trigger] pairs[i]).0@ != key,
    decreases pairs.len() - from,
{
    if from < pairs.len() && pairs[from].0@ != key {
        lemma_used_for(pairs, key, from + 1);
    }
}

/// A session is changed only where nobody holds it, the key was not used before, the
/// caller knows the state that it is in, and the change is not refused. Anything else
/// leaves it as it is.
pub proof fn lemma_session_changes_only_when_asked_rightly(
    before: SessionRecordV1,
    after: SessionRecordV1,
    expected: u64,
    key: Seq<char>,
    change: SessionChangeV1,
    r: Result<String, String>,
)
    requires
        session_mutates(before, after, expected, key, change, r),
        after != before,
    ensures
        before.lock_owner is None,
        forall|i: int|
            0 <= i < before.snapshot.consumed_idempotency_keys@.len() ==> (
            #[trigger] before.snapshot.consumed_idempotency_keys@[i]).0@ != key,
        before.snapshot.last_event_sequence == expected,
        change_refusal(before.snapshot, change) is None,
{
    lemma_used_for(before.snapshot.consumed_idempotency_keys@, key, 0);
}

/// Of two changes with one key the second does nothing: it is answered like the first if
/// it is the same change, and refused if it is another.
pub proof fn lemma_used_key_changes_nothing(
    before: SessionRecordV1,
    after: SessionRecordV1,
    expected: u64,
    key: Seq<char>,
    change: SessionChangeV1,
    r: Result<String, String>,
    i: int,
)
    requires
        session_mutates(before, after, expected, key, change, r),
        0 <= i < before.snapshot.consumed_idempotency_keys@.len(),
        before.snapshot.consumed_idempotency_keys@[i].0@ == key,
    ensures
        after == before,
{
    lemma_used_for(before.snapshot.consumed_idempotency_keys@, key, 0);
}

/// An approval takes effect only with the hash of the contract that is kept.
pub proof fn lemma_approval_needs_the_hash(
    before: AutonomousStateStoreV1,
    after: AutonomousStateStoreV1,
    id: Seq<char>,
    expected: u64,
    key: Seq<char>,
    decision_hash: Seq<char>,
    paths: ContractPathsV1,
    r: Result<String, String>,
)
    requires
        approves(before, after, id, expected, key, decision_hash, paths, r),
        after.sessions@ != before.sessions@,
    ensures
        before.session(id).contract is Some,
        decision_hash == fingerprint(before.session(id).contract->0.json()),
        after.session(id).snapshot.approved_contract_hash is Some,
        after.session(id).snapshot.approved_contract_hash->0@ == decision_hash,
{
    let hash = choose|hash: String|
        hash@ == decision_hash && #[trigger] mutates(
            before,
            after,
            id,
            expected,
            key,
            SessionChangeV1::Approve(hash),
            r,
        );
    let a = before.session(id);
    let b = after.session(id);
    if a == b {
        assert(before.sessions@.update(before.at(id), a) =~= before.sessions@);
    }
    assert(session_mutates(a, b, expected, key, SessionChangeV1::Approve(hash), r));
}

/// A session is started only where it is queued, and where its contract asks for an
/// approval, only with the approval of that very contract.
pub proof fn lemma_start_goes_by_the_contract(
    before: AutonomousStateStoreV1,
    after: AutonomousStateStoreV1,
    id: Seq<char>,
    expected: u64,
    key: Seq<char>,
    paths: ContractPathsV1,
    r: Result<String, String>,
)
    requires
        starts(before, after, id, expected, key, paths, r),
        after.sessions@ != before.sessions@,
    ensures
        before.session(id).snapshot.state is Queued,
        before.session(id).contract is Some,
        before.session(id).contract->0.autonomy_lease.start_approval_required ==> {
            &&& before.session(id).snapshot.approved_contract_hash is Some
            &&& before.session(id).snapshot.approved_contract_hash->0@ == fingerprint(
                before.session(id).contract->0.json(),
            )
        },
{
    let hash = choose|hash: String|
        hash@ == stored_hash(before, id) && #[trigger] mutates(
            before,
            after,
            id,
            expected,
            key,
            SessionChangeV1::Start {
                approval_required: before.session(
                    id,
                ).contract->0.autonomy_lease.start_approval_required,
                contract_hash: hash,
            },
            r,
        );
    let a = before.session(id);
    let b = after.session(id);
    if a == b {
        assert(before.sessions@.update(before.at(id), a) =~= before.sessions@);
    }
}

/// Each tool of a supervisor asks for the thing of its own name.
pub proof fn lemma_tools_ask_for_their_own(name: Seq<char>, args: JsonView)
    ensures
        request_of(name, args) matches Ok(request) ==> {
            &&& request is CreateContract <==> name == "autonomy_contract_create"@
            &&& request is ValidateContract <==> name == "autonomy_contract_validate"@
            &&& request is Approve <==> name == "autonomy_contract_approve"@
            &&& request is Start <==> name == "autonomy_session_start"@
            &&& request is Events <==> name == "autonomy_session_events"@
            &&& request is Pause <==> name == "autonomy_session_pause"@
            &&& request is Resume <==> name == "autonomy_session_resume"@
            &&& request is Cancel <==> name == "autonomy_session_cancel"@
            &&& request is RenewLease <==> name == "autonomy_session_renew_lease"@
            &&& request is Escalation <==> name == "autonomy_session_get_escalation"@
            &&& request is Reply <==> name == "autonomy_session_reply"@
            &&& request is List <==> name == "autonomy_session_list"@
            &&& request is Queue <==> name == "autonomy_queue_status"@
            &&& request is ProviderStatus <==> name == "provider_status"@
            &&& request is Status <==> name == "autonomy_session_status"@ || name
                == "autonomy_session_get_checkpoint"@
            &&& request is Artifact <==> name == "autonomy_session_get_diff"@ || name
                == "autonomy_session_get_final_review"@
        },
{
    lemma_tool_names_differ();
}

proof fn lemma_tool_names_differ()
    ensures
        "autonomy_contract_create"@.len() == 24,
        "autonomy_contract_validate"@.len() == 26,
        "autonomy_contract_approve"@.len() == 25,
        "autonomy_session_start"@.len() == 22,
        "autonomy_session_status"@.len() == 23,
        "autonomy_session_get_checkpoint"@.len() == 31,
        "autonomy_session_events"@.len() == 23,
        "autonomy_session_pause"@.len() == 22,
        "autonomy_session_resume"@.len() == 23,
        "autonomy_session_cancel"@.len() == 23,
        "autonomy_session_renew_lease"@.len() == 28,
        "autonomy_session_get_escalation"@.len() == 31,
        "autonomy_session_get_diff"@.len() == 25,
        "autonomy_session_get_final_review"@.len() == 33,
        "autonomy_session_reply"@.len() == 22,
        "autonomy_session_list"@.len() == 21,
        "autonomy_queue_status"@.len() == 21,
        "provider_status"@.len() == 15,
        "autonomy_contract_approve"@[9] != "autonomy_session_get_diff"@[9],
        "autonomy_session_start"@[17] != "autonomy_session_pause"@[17],
        "autonomy_session_start"@[17] != "autonomy_session_reply"@[17],
        "autonomy_session_pause"@[17] != "autonomy_session_reply"@[17],
        "autonomy_session_status"@[17] != "autonomy_session_events"@[17],
        "autonomy_session_status"@[17] != "autonomy_session_resume"@[17],
        "autonomy_session_status"@[17] != "autonomy_session_cancel"@[17],
        "autonomy_session_events"@[17] != "autonomy_session_resume"@[17],
        "autonomy_session_events"@[17] != "autonomy_session_cancel"@[17],
        "autonomy_session_resume"@[17] != "autonomy_session_cancel"@[17],
        "autonomy_session_get_checkpoint"@[21] != "autonomy_session_get_escalation"@[21],
        "autonomy_session_list"@[9] != "autonomy_queue_status"@[9],
{
    reveal_strlit("autonomy_contract_create");
    reveal_strlit("autonomy_contract_validate");
    reveal_strlit("autonomy_contract_approve");
    reveal_strlit("autonomy_session_start");
    reveal_strlit("autonomy_session_status");
    reveal_strlit("autonomy_session_get_checkpoint");
    reveal_strlit("autonomy_session_events");
    reveal_strlit("autonomy_session_pause");
    reveal_strlit("autonomy_session_resume");
    reveal_strlit("autonomy_session_cancel");
    reveal_strlit("autonomy_session_renew_lease");
    reveal_strlit("autonomy_session_get_escalation");
    reveal_strlit("autonomy_session_get_diff");
    reveal_strlit("autonomy_session_get_final_review");
    reveal_strlit("autonomy_session_reply");
    reveal_strlit("autonomy_session_list");
    reveal_strlit("autonomy_queue_status");
    reveal_strlit("provider_status");
}

} // verus!
