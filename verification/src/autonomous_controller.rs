//! Runs a session under its contract: turns of a provider, then verification that
//! does not take the provider's word for anything.

use vstd::prelude::*;
use vstd::string::*;
use crate::autonomous_contract::{AutonomousDevelopmentContractV1, AutonomousPolicyEngineV1, is_slug};
use crate::autonomy_state::{
    AutonomousEscalationPacketV1, AutonomousQueueTaskStateV1, AutonomousQueueTaskV1,
    AutonomousSessionSnapshotV1, AutonomousSessionStateV1, AutonomousStateStoreV1,
    AutonomyStateError, SessionRecordV1, can_start, evidence_is_bounded, has_task, is_completion,
    is_escalation, is_logged, is_next, is_store_failure, is_task_set, moved_to, some_can_start,
    tasks_refusal, with_reply_consumed,
};
use crate::contracts::{RunId, TurnId, WorkerSessionId, identifier_message, is_identifier};
use crate::coordinator::{VerificationStatusV1, VerificationSummaryV1};
use crate::json::{field, field_text, json_string, object, object_text, quoted};
use crate::laws_session::lemma_completion_has_evidence;
use crate::provider::{
    NormalizedProviderEventKind, ProviderCapabilitiesV1, ProviderEventBatchV1, ProviderIdV1,
    ProviderMessageV1, ProviderSessionV1, ProviderTurnHandleV1, ProviderTurnRequestV1,
    RuntimeError, WorkerProviderTurnRequestV1, any_of_kind, any_rate_limit, has_kind,
    has_rate_limit, is_plain_message, plain_message,
};
use crate::text::{
    blank, debug_variant, decimal, fitting_prefix, is_alnum, is_blank, is_white, join, joined,
    lemma_ascii_utf8_len, opt_text, plus, prefix_within, text, texts, to_decimal,
};

verus! {

/// Checks the work of a provider independently.
pub trait AutonomousVerifierV1: Sized {
    /// Runs the checks, and gives their summary with the diff of the work.
    fn verify(&mut self) -> (r: Result<(VerificationSummaryV1, String), RuntimeError>);

    /// Gives a bounded review of its own. A provider's claim never stands in for it.
    fn final_review(
        &mut self,
        verification: &VerificationSummaryV1,
        authoritative_diff: &str,
    ) -> (r: Result<String, RuntimeError>)
        default_ensures
            r matches Err(RuntimeError::Validation(message)) && message@
                == "autonomous verifier did not provide a final review artifact"@,
            *final(self) == *old(self),
    {
        Err(
            RuntimeError::Validation(
                text("autonomous verifier did not provide a final review artifact"),
            ),
        )
    }
}

/// Works on turns.
pub trait WorkerProviderV1 {
    /// Names the provider.
    fn provider_id(&self) -> (r: ProviderIdV1);

    /// What the provider can do.
    fn capabilities(&self) -> (r: ProviderCapabilitiesV1);

    /// Opens a conversation.
    fn create_session(&mut self, model: &str, worker: &WorkerSessionId) -> (r: ProviderSessionV1);

    /// Starts a turn.
    fn start_turn(&mut self, request: WorkerProviderTurnRequestV1) -> (r: Result<
        ProviderTurnHandleV1,
        RuntimeError,
    >);

    /// Goes on with a conversation.
    fn resume_turn(&mut self, request: WorkerProviderTurnRequestV1) -> (r: Result<
        ProviderTurnHandleV1,
        RuntimeError,
    >);

    /// The events of a turn behind a cursor.
    fn poll_events(&mut self, handle: &ProviderTurnHandleV1, cursor: u64) -> (r: Result<
        ProviderEventBatchV1,
        RuntimeError,
    >);

    /// Stops a turn.
    fn cancel(&mut self, handle: &ProviderTurnHandleV1) -> (r: Result<(), RuntimeError>);
}

/// The verifier, told to run its checks, finds this.
pub open spec fn verifies<V: AutonomousVerifierV1>(
    checks: V,
    r: Result<(VerificationSummaryV1, String), RuntimeError>,
) -> bool {
    exists|line: &mut V| #[trigger]
        call_ensures(V::verify, (line,), r) && mut_ref_current(line) == checks
}

/// The verifier, told to review this work, says this.
pub open spec fn reviews<V: AutonomousVerifierV1>(
    reviewer: V,
    verification: VerificationSummaryV1,
    diff: Seq<char>,
    r: Result<String, RuntimeError>,
) -> bool {
    exists|line: &mut V, shown: &str| #[trigger]
        call_ensures(V::final_review, (line, &verification, shown), r) && mut_ref_current(line)
            == reviewer && shown@ == diff
}

/// A call that tells a verifier to review a piece of work, and what it says.
pub open spec fn is_reviewing<V: AutonomousVerifierV1>(
    line: &mut V,
    verification: VerificationSummaryV1,
    diff: Seq<char>,
    r: Result<String, RuntimeError>,
) -> bool {
    exists|shown: &str| #[trigger]
        call_ensures(V::final_review, (line, &verification, shown), r) && shown@ == diff
}

/// The verifier is called twice at most: the call `checking` runs its checks, and the call
/// `reviewing` asks for a review of what they found. It is left as the last of these calls
/// left it.
#[verifier::opaque]
pub open spec fn is_checked_by<V: AutonomousVerifierV1>(
    before: V,
    after: V,
    checking: &mut V,
    checked: V,
    reviewing: &mut V,
    reviewed: V,
) -> bool {
    exists|found: Result<(VerificationSummaryV1, String), RuntimeError>| #[trigger]
        call_ensures(V::verify, (checking,), found) && mut_ref_current(checking) == before && (after
            == checked || {
            &&& found is Ok
            &&& mut_ref_current(reviewing) == checked
            &&& after == reviewed
            &&& exists|review: Result<String, RuntimeError>| #[trigger]
                is_reviewing(reviewing, found->Ok_0.0, found->Ok_0.1@, review)
        })
}

/// The provider opens this conversation with a model, for a worker.
pub open spec fn opens_session<P: WorkerProviderV1>(
    provider: P,
    model: Seq<char>,
    worker: Seq<char>,
    r: ProviderSessionV1,
) -> bool {
    exists|line: &mut P, model_name: &str, worker_name: &WorkerSessionId| #[trigger]
        call_ensures(P::create_session, (line, model_name, worker_name), r) && mut_ref_current(line)
            == provider && model_name@ == model && worker_name@ == worker
}

/// The provider, asked for a turn by this call, answers this.
pub open spec fn takes_turn<P: WorkerProviderV1>(
    provider: P,
    call: TurnCallV1,
    request: WorkerProviderTurnRequestV1,
    r: Result<ProviderTurnHandleV1, RuntimeError>,
) -> bool {
    match call {
        TurnCallV1::Start => exists|line: &mut P| #[trigger]
            call_ensures(P::start_turn, (line, request), r) && mut_ref_current(line) == provider,
        TurnCallV1::Resume(_) => exists|line: &mut P| #[trigger]
            call_ensures(P::resume_turn, (line, request), r) && mut_ref_current(line) == provider,
    }
}

/// The provider, asked for the events of a turn behind a cursor, answers this.
pub open spec fn polls<P: WorkerProviderV1>(
    provider: P,
    handle: ProviderTurnHandleV1,
    cursor: u64,
    r: Result<ProviderEventBatchV1, RuntimeError>,
) -> bool {
    exists|line: &mut P| #[trigger]
        call_ensures(P::poll_events, (line, &handle, cursor), r) && mut_ref_current(line)
            == provider
}

/// The provider, told to stop a turn, answers this.
pub open spec fn stops_turn<P: WorkerProviderV1>(
    provider: P,
    handle: ProviderTurnHandleV1,
    r: Result<(), RuntimeError>,
) -> bool {
    exists|line: &mut P| #[trigger]
        call_ensures(P::cancel, (line, &handle), r) && mut_ref_current(line) == provider
}

/// A call that opens a conversation with a model, for a worker, and what it gives back.
pub open spec fn is_opening<P: WorkerProviderV1>(
    line: &mut P,
    model: Seq<char>,
    worker: Seq<char>,
    r: ProviderSessionV1,
) -> bool {
    exists|model_name: &str, worker_name: &WorkerSessionId| #[trigger]
        call_ensures(P::create_session, (line, model_name, worker_name), r) && model_name@ == model
            && worker_name@ == worker
}

/// A call that asks for a turn, and what it gives back.
pub open spec fn is_taking<P: WorkerProviderV1>(
    line: &mut P,
    call: TurnCallV1,
    request: WorkerProviderTurnRequestV1,
    r: Result<ProviderTurnHandleV1, RuntimeError>,
) -> bool {
    match call {
        TurnCallV1::Start => call_ensures(P::start_turn, (line, request), r),
        TurnCallV1::Resume(_) => call_ensures(P::resume_turn, (line, request), r),
    }
}

/// A call that asks for the events of a turn, and what it gives back.
pub open spec fn is_polling<P: WorkerProviderV1>(
    line: &mut P,
    handle: ProviderTurnHandleV1,
    cursor: u64,
    r: Result<ProviderEventBatchV1, RuntimeError>,
) -> bool {
    call_ensures(P::poll_events, (line, &handle, cursor), r)
}

/// A call that stops a turn, and what it gives back.
pub open spec fn is_stopping<P: WorkerProviderV1>(
    line: &mut P,
    handle: ProviderTurnHandleV1,
    r: Result<(), RuntimeError>,
) -> bool {
    call_ensures(P::cancel, (line, &handle), r)
}

/// The provider is called twice at most: the call `taking` asks for a turn, and the call
/// `polling` for what has come of it. It is left as the last of these calls left it.
#[verifier::opaque]
pub open spec fn is_turn_asked<P: WorkerProviderV1>(
    before: P,
    after: P,
    taking: &mut P,
    taken: P,
    polling: &mut P,
    polled: P,
    call: TurnCallV1,
    request: WorkerProviderTurnRequestV1,
) -> bool {
    exists|answer: Result<ProviderTurnHandleV1, RuntimeError>| #[trigger]
        is_taking(taking, call, request, answer) && mut_ref_current(taking) == before
            && match answer {
            Err(_) => after == taken,
            Ok(handle) => {
                &&& mut_ref_current(polling) == taken
                &&& after == polled
                &&& exists|batch: Result<ProviderEventBatchV1, RuntimeError>| #[trigger]
                    is_polling(polling, handle, 0, batch)
            },
        }
}

/// How a provider is asked for a turn.
#[derive(Clone, Debug, PartialEq, Eq)]
pub enum TurnCallV1 {
    /// A conversation begins.
    Start,
    /// The conversation of this thread goes on.
    Resume(String),
}

/// Decides how the provider is asked for the next turn of a session: a session that has
/// a thread goes on with it.
pub fn turn_call(snapshot: &AutonomousSessionSnapshotV1) -> (r: TurnCallV1)
    ensures
        r == call_for(*snapshot),
{
    match &snapshot.provider_thread_id {
        Some(thread) => TurnCallV1::Resume(thread.clone()),
        None => TurnCallV1::Start,
    }
}

/// How the provider is asked for the next turn of a session.
pub open spec fn call_for(snapshot: AutonomousSessionSnapshotV1) -> TurnCallV1 {
    match snapshot.provider_thread_id {
        Some(thread) => TurnCallV1::Resume(thread),
        None => TurnCallV1::Start,
    }
}

/// The turn that a provider is told to stop, if there is one and the provider can.
pub fn turn_to_stop(
    handle: &Option<ProviderTurnHandleV1>,
    capabilities: &ProviderCapabilitiesV1,
) -> (r: Option<ProviderTurnHandleV1>)
    ensures
        r == if capabilities.supports_cancellation {
            *handle
        } else {
            None
        },
{
    match handle {
        Some(handle) => if capabilities.supports_cancellation {
            Some(handle.clone())
        } else {
            None
        },
        None => None,
    }
}

/// How one step of a session came out.
#[derive(Debug, PartialEq, Eq)]
pub struct AutonomousControllerOutcomeV1 {
    pub state: AutonomousSessionStateV1,
    pub provider_events: usize,
    pub verification: Option<VerificationSummaryV1>,
    pub authoritative_diff: Option<String>,
    pub final_review: Option<String>,
}

/// An outcome that brings no evidence.
pub open spec fn bare_outcome(
    state: AutonomousSessionStateV1,
    provider_events: usize,
) -> AutonomousControllerOutcomeV1 {
    AutonomousControllerOutcomeV1 {
        state,
        provider_events,
        verification: None,
        authoritative_diff: None,
        final_review: None,
    }
}

fn bare(state: AutonomousSessionStateV1, provider_events: usize) -> (r: AutonomousControllerOutcomeV1)
    ensures
        r == bare_outcome(state, provider_events),
{
    AutonomousControllerOutcomeV1 {
        state,
        provider_events,
        verification: None,
        authoritative_diff: None,
        final_review: None,
    }
}

/// Why a session asks for a decision.
#[derive(Clone, Copy, Debug, PartialEq, Eq, Structural)]
pub enum EscalationReasonV1 {
    RestartSessionContinuityMissing,
    RateLimitDurationExhausted,
    ProviderTurnBudgetExhausted,
    RepairBudgetExhausted,
    ProviderTerminalError,
    FinalReviewUnavailable,
}

impl EscalationReasonV1 {
    /// The reason's name.
    pub open spec fn name(self) -> Seq<char> {
        match self {
            EscalationReasonV1::RestartSessionContinuityMissing =>
                "restart_session_continuity_missing"@,
            EscalationReasonV1::RateLimitDurationExhausted => "rate_limit_duration_exhausted"@,
            EscalationReasonV1::ProviderTurnBudgetExhausted => "provider_turn_budget_exhausted"@,
            EscalationReasonV1::RepairBudgetExhausted => "repair_budget_exhausted"@,
            EscalationReasonV1::ProviderTerminalError => "provider_terminal_error"@,
            EscalationReasonV1::FinalReviewUnavailable => "final_review_unavailable"@,
        }
    }

    /// The reason's name.
    pub fn as_str(&self) -> (r: &'static str)
        ensures
            r@ == self.name(),
            is_slug(r@),
    {
        proof {
            lemma_reason_is_slug(*self);
        }
        match self {
            EscalationReasonV1::RestartSessionContinuityMissing =>
                "restart_session_continuity_missing",
            EscalationReasonV1::RateLimitDurationExhausted => "rate_limit_duration_exhausted",
            EscalationReasonV1::ProviderTurnBudgetExhausted => "provider_turn_budget_exhausted",
            EscalationReasonV1::RepairBudgetExhausted => "repair_budget_exhausted",
            EscalationReasonV1::ProviderTerminalError => "provider_terminal_error",
            EscalationReasonV1::FinalReviewUnavailable => "final_review_unavailable",
        }
    }
}

proof fn lemma_reason_is_slug(reason: EscalationReasonV1)
    ensures
        is_slug(reason.name()),
{
    reveal_strlit("restart_session_continuity_missing");
    reveal_strlit("rate_limit_duration_exhausted");
    reveal_strlit("provider_turn_budget_exhausted");
    reveal_strlit("repair_budget_exhausted");
    reveal_strlit("provider_terminal_error");
    reveal_strlit("final_review_unavailable");
    let s = reason.name();
    assert forall|i: int| 0 <= i < s.len() implies (is_alnum(#[trigger] s[i]) || s[i] == '_')
        && (s[i] as nat) < 128 by {}
    assert(vstd::utf8::is_ascii_chars(s));
    lemma_ascii_utf8_len(s);
}

/// What a session does next.
#[derive(Clone, Copy, Debug, PartialEq, Eq, Structural)]
pub enum ControllerStepV1 {
    /// Stop: it was cancelled.
    Cancel,
    /// Nothing: say where it stands.
    Report(AutonomousSessionStateV1),
    /// Ask for a decision.
    Escalate(EscalationReasonV1),
    /// Stop: the lease is over.
    ExpireLease,
    /// Look at the turn that is under way, from this cursor on.
    Poll(u64),
    /// Give the provider a turn.
    Work,
}

/// What a session does next.
pub open spec fn step_of(
    snapshot: AutonomousSessionSnapshotV1,
    contract: AutonomousDevelopmentContractV1,
    cancel_requested: bool,
    has_handle: bool,
    now_unix: u64,
) -> ControllerStepV1 {
    let limited = snapshot.state == AutonomousSessionStateV1::RateLimited;
    if cancel_requested || snapshot.cancellation_requested {
        ControllerStepV1::Cancel
    } else if snapshot.state.is_end() {
        ControllerStepV1::Report(snapshot.state)
    } else if snapshot.state == AutonomousSessionStateV1::RecoveringAfterRestart
        && snapshot.provider_thread_id is None {
        ControllerStepV1::Escalate(EscalationReasonV1::RestartSessionContinuityMissing)
    } else if !contract.autonomy_lease.holds_at(now_unix) {
        ControllerStepV1::ExpireLease
    } else if limited && snapshot.rate_limited_since_unix is Some && now_unix
        - snapshot.rate_limited_since_unix->0
        > contract.rate_limit_policy.maximum_rate_limited_seconds {
        ControllerStepV1::Escalate(EscalationReasonV1::RateLimitDurationExhausted)
    } else if limited && snapshot.retry_not_before_unix is Some && now_unix
        < snapshot.retry_not_before_unix->0 {
        ControllerStepV1::Report(AutonomousSessionStateV1::RateLimited)
    } else if snapshot.state == AutonomousSessionStateV1::Running && has_handle {
        ControllerStepV1::Poll(snapshot.provider_event_cursor)
    } else {
        ControllerStepV1::Work
    }
}

/// Decides what a session does next.
pub fn decide_step(
    snapshot: &AutonomousSessionSnapshotV1,
    contract: &AutonomousDevelopmentContractV1,
    cancel_requested: bool,
    has_handle: bool,
    now_unix: u64,
) -> (r: ControllerStepV1)
    ensures
        r == step_of(*snapshot, *contract, cancel_requested, has_handle, now_unix),
{
    if cancel_requested || snapshot.cancellation_requested {
        return ControllerStepV1::Cancel;
    }
    if snapshot.state.is_terminal() {
        return ControllerStepV1::Report(snapshot.state);
    }
    if snapshot.state == AutonomousSessionStateV1::RecoveringAfterRestart
        && snapshot.provider_thread_id.is_none() {
        return ControllerStepV1::Escalate(EscalationReasonV1::RestartSessionContinuityMissing);
    }
    if !contract.autonomy_lease.valid_at(now_unix) {
        return ControllerStepV1::ExpireLease;
    }
    if snapshot.state == AutonomousSessionStateV1::RateLimited {
        if let Some(started) = snapshot.rate_limited_since_unix {
            if now_unix.saturating_sub(started)
                > contract.rate_limit_policy.maximum_rate_limited_seconds {
                return ControllerStepV1::Escalate(EscalationReasonV1::RateLimitDurationExhausted);
            }
        }
        if let Some(retry_at) = snapshot.retry_not_before_unix {
            if now_unix < retry_at {
                return ControllerStepV1::Report(AutonomousSessionStateV1::RateLimited);
            }
        }
    }
    if snapshot.state == AutonomousSessionStateV1::Running && has_handle {
        return ControllerStepV1::Poll(snapshot.provider_event_cursor);
    }
    ControllerStepV1::Work
}

/// A session that is over never goes on, whatever the clock says and whatever the
/// contract allows: it is reported, or cancelled once more.
pub proof fn lemma_ended_session_never_works(
    snapshot: AutonomousSessionSnapshotV1,
    contract: AutonomousDevelopmentContractV1,
    cancel_requested: bool,
    has_handle: bool,
    now_unix: u64,
)
    requires
        snapshot.state.is_end(),
    ensures
        step_of(snapshot, contract, cancel_requested, has_handle, now_unix) == ControllerStepV1::Cancel || step_of(
            snapshot,
            contract,
            cancel_requested,
            has_handle,
            now_unix,
        ) == ControllerStepV1::Report(snapshot.state),
{
}

/// No provider is asked and no turn is looked at once the lease is over, a
/// cancellation was asked for, or the thread of an interrupted session is lost.
pub proof fn lemma_no_work_without_authority(
    snapshot: AutonomousSessionSnapshotV1,
    contract: AutonomousDevelopmentContractV1,
    cancel_requested: bool,
    has_handle: bool,
    now_unix: u64,
)
    requires
        cancel_requested || snapshot.cancellation_requested || !contract.autonomy_lease.holds_at(now_unix) || (
        snapshot.state == AutonomousSessionStateV1::RecoveringAfterRestart
            && snapshot.provider_thread_id is None),
    ensures
        !(step_of(snapshot, contract, cancel_requested, has_handle, now_unix) is Work),
        !(step_of(snapshot, contract, cancel_requested, has_handle, now_unix) is Poll),
{
}

/// A session that paused for want of capacity waits until the time that was set, and
/// asks for a decision once it has waited too long.
pub proof fn lemma_rate_limited_session_waits(
    snapshot: AutonomousSessionSnapshotV1,
    contract: AutonomousDevelopmentContractV1,
    cancel_requested: bool,
    has_handle: bool,
    now_unix: u64,
)
    requires
        snapshot.state == AutonomousSessionStateV1::RateLimited,
        !cancel_requested && !snapshot.cancellation_requested,
        contract.autonomy_lease.holds_at(now_unix),
        snapshot.retry_not_before_unix is Some,
        now_unix < snapshot.retry_not_before_unix->0,
    ensures
        ({
            let step = step_of(snapshot, contract, cancel_requested, has_handle, now_unix);
            step == ControllerStepV1::Report(AutonomousSessionStateV1::RateLimited) || step
                == ControllerStepV1::Escalate(EscalationReasonV1::RateLimitDurationExhausted)
        }),
{
}

// ---------------------------------------------------------------------------
// Moving a session

/// What every move of the controller is logged with.
pub open spec fn transition_summary() -> Seq<char> {
    "autonomous controller transition"@
}

/// `after` is `before` moved to a state and, if `logged`, with the event of the move.
/// Only a session whose snapshot is ahead of its log cannot log.
pub open spec fn moves(
    before: SessionRecordV1,
    after: SessionRecordV1,
    state: AutonomousSessionStateV1,
    event: Seq<char>,
    logged: bool,
) -> bool {
    &&& logged == !before.is_ahead()
    &&& if logged {
        is_logged(moved_to(before, state), after, event, transition_summary())
    } else {
        after == moved_to(before, state)
    }
}

/// `e` reports that a session's snapshot is ahead of its log.
pub open spec fn is_ahead_failure(e: RuntimeError) -> bool {
    e matches RuntimeError::Provider(message) && message@ == "autonomy state error: "@
        + debug_variant(
        "Validation"@,
        "autonomous state sequence is ahead of its event journal"@,
    )
}

fn transition(session: &mut SessionRecordV1, state: AutonomousSessionStateV1, event: &str) -> (r: Result<
    (),
    RuntimeError,
>)
    requires
        old(session).wf(),
    ensures
        final(session).wf(),
        moves(*old(session), *final(session), state, event@, r is Ok),
        r is Err ==> is_ahead_failure(r->Err_0),
{
    session.move_to(state);
    match session.log(event, "autonomous controller transition") {
        Ok(_) => Ok(()),
        Err(e) => Err(e.into_runtime_error()),
    }
}

/// Moves a session to a state and reports it.
fn stop(session: &mut SessionRecordV1, state: AutonomousSessionStateV1, event: &str) -> (r: Result<
    AutonomousControllerOutcomeV1,
    RuntimeError,
>)
    requires
        old(session).wf(),
    ensures
        final(session).wf(),
        moves(*old(session), *final(session), state, event@, r is Ok),
        match r {
            Ok(outcome) => outcome == bare_outcome(state, 0),
            Err(e) => is_ahead_failure(e),
        },
{
    transition(session, state, event)?;
    Ok(bare(state, 0))
}

/// `after` is `before` with a request for a decision, moved to wait for it.
pub open spec fn escalates(
    before: SessionRecordV1,
    after: SessionRecordV1,
    reason: Seq<char>,
    logged: bool,
) -> bool {
    &&& after.escalation is Some
    &&& is_escalation(
        after.escalation->0,
        before.snapshot,
        AutonomousSessionStateV1::WaitingForChatgpt,
        reason,
    )
    &&& moves(
        (SessionRecordV1 { escalation: after.escalation, ..before }),
        after,
        AutonomousSessionStateV1::WaitingForChatgpt,
        reason,
        logged,
    )
}

/// Asks for a decision, and waits for it.
pub fn escalate(session: &mut SessionRecordV1, reason: EscalationReasonV1) -> (r: Result<
    AutonomousControllerOutcomeV1,
    RuntimeError,
>)
    requires
        old(session).wf(),
    ensures
        final(session).wf(),
        escalates(*old(session), *final(session), reason.name(), r is Ok),
        match r {
            Ok(outcome) => outcome == bare_outcome(AutonomousSessionStateV1::WaitingForChatgpt, 0),
            Err(e) => is_ahead_failure(e),
        },
{
    let _packet: AutonomousEscalationPacketV1 = session.escalate(
        AutonomousSessionStateV1::WaitingForChatgpt,
        reason.as_str(),
    );
    stop(session, AutonomousSessionStateV1::WaitingForChatgpt, reason.as_str())
}

/// `session` with a turn prepared for a task.
pub open spec fn is_prepared(
    before: SessionRecordV1,
    after: SessionRecordV1,
    task_id: Seq<char>,
    provider_session_id: Seq<char>,
) -> bool {
    &&& after == (SessionRecordV1 {
        snapshot: AutonomousSessionSnapshotV1 {
            current_task_id: after.snapshot.current_task_id,
            provider_thread_id: after.snapshot.provider_thread_id,
            provider_handle_id: None,
            provider_event_cursor: 0,
            retry_not_before_unix: None,
            rate_limited_since_unix: None,
            provider_turn_count: if before.snapshot.provider_turn_count < u32::MAX {
                (before.snapshot.provider_turn_count + 1) as u32
            } else {
                u32::MAX
            },
            state: AutonomousSessionStateV1::Running,
            ..before.snapshot
        },
        ..before
    })
    &&& opt_text(after.snapshot.current_task_id) == Some(task_id)
    &&& opt_text(after.snapshot.provider_thread_id) == Some(provider_session_id)
}

fn prepare_turn(session: &mut SessionRecordV1, task_id: &str, provider_session_id: &str)
    requires
        old(session).wf(),
        !old(session).snapshot.state.is_end(),
        is_slug(task_id@),
    ensures
        final(session).wf(),
        is_prepared(*old(session), *final(session), task_id@, provider_session_id@),
{
    session.snapshot.current_task_id = Some(text(task_id));
    session.snapshot.provider_thread_id = Some(text(provider_session_id));
    session.snapshot.provider_handle_id = None;
    session.snapshot.provider_event_cursor = 0;
    session.snapshot.retry_not_before_unix = None;
    session.snapshot.rate_limited_since_unix = None;
    session.snapshot.provider_turn_count = session.snapshot.provider_turn_count.saturating_add(1);
    session.snapshot.state = AutonomousSessionStateV1::Running;
}

/// `session` with the handle of its turn and the cursor that it has come to.
pub open spec fn with_handle(
    session: SessionRecordV1,
    thread: String,
    handle_id: String,
    cursor: u64,
) -> SessionRecordV1 {
    SessionRecordV1 {
        snapshot: AutonomousSessionSnapshotV1 {
            provider_thread_id: Some(thread),
            provider_handle_id: Some(handle_id),
            provider_event_cursor: cursor,
            state: AutonomousSessionStateV1::Running,
            active: true,
            ..session.snapshot
        },
        ..session
    }
}

fn persist_handle(session: &mut SessionRecordV1, handle: &ProviderTurnHandleV1, cursor: u64)
    requires
        old(session).wf(),
    ensures
        final(session).wf(),
        *final(session) == with_handle(
            *old(session),
            handle.provider_session_id,
            handle.handle_id,
            cursor,
        ),
{
    session.snapshot.provider_thread_id = Some(handle.provider_session_id.clone());
    session.snapshot.provider_handle_id = Some(handle.handle_id.clone());
    session.snapshot.provider_event_cursor = cursor;
    session.snapshot.state = AutonomousSessionStateV1::Running;
    session.snapshot.active = true;
}

/// `session` paused for want of capacity.
pub open spec fn paused_for_rate_limit(
    session: SessionRecordV1,
    backoff_seconds: u64,
    now_unix: u64,
) -> SessionRecordV1 {
    SessionRecordV1 {
        snapshot: AutonomousSessionSnapshotV1 {
            state: AutonomousSessionStateV1::RateLimited,
            rate_limited_since_unix: Some(
                match session.snapshot.rate_limited_since_unix {
                    Some(since) => since,
                    None => now_unix,
                },
            ),
            retry_not_before_unix: Some(
                if now_unix + backoff_seconds <= u64::MAX {
                    (now_unix + backoff_seconds) as u64
                } else {
                    u64::MAX
                },
            ),
            ..session.snapshot
        },
        ..session
    }
}

/// Pauses a session whose provider has no capacity.
pub fn pause_for_rate_limit(
    session: &mut SessionRecordV1,
    initial_backoff_seconds: u64,
    now_unix: u64,
    provider_events: usize,
) -> (r: Result<AutonomousControllerOutcomeV1, RuntimeError>)
    requires
        old(session).wf(),
        !old(session).snapshot.state.is_end(),
    ensures
        final(session).wf(),
        ({
            let paused = paused_for_rate_limit(*old(session), initial_backoff_seconds, now_unix);
            match r {
                Ok(outcome) => !old(session).is_ahead() && outcome == bare_outcome(
                    AutonomousSessionStateV1::RateLimited,
                    provider_events,
                ) && is_logged(
                    paused,
                    *final(session),
                    "provider_rate_limited"@,
                    "provider capacity pause persisted"@,
                ),
                Err(e) => old(session).is_ahead() && is_ahead_failure(e) && *final(session)
                    == paused,
            }
        }),
{
    session.snapshot.state = AutonomousSessionStateV1::RateLimited;
    session.snapshot.rate_limited_since_unix = Some(
        match session.snapshot.rate_limited_since_unix {
            Some(since) => since,
            None => now_unix,
        },
    );
    session.snapshot.retry_not_before_unix = Some(now_unix.saturating_add(initial_backoff_seconds));
    match session.log("provider_rate_limited", "provider capacity pause persisted") {
        Ok(_) => Ok(bare(AutonomousSessionStateV1::RateLimited, provider_events)),
        Err(e) => Err(e.into_runtime_error()),
    }
}

// ---------------------------------------------------------------------------
// The queue of a session

/// Why the current task of a session cannot be moved, if it cannot.
pub open spec fn current_task_refusal(session: SessionRecordV1) -> Option<Seq<char>> {
    if session.snapshot.current_task_id is None {
        Some("autonomous task was not persisted"@)
    } else if !has_task(session.queue.tasks@, session.snapshot.current_task_id->0@) {
        Some("autonomous task is absent from queue"@)
    } else {
        None
    }
}

fn set_current_task(session: &mut SessionRecordV1, state: AutonomousQueueTaskStateV1) -> (r: Result<
    (),
    RuntimeError,
>)
    requires
        old(session).wf(),
    ensures
        final(session).wf(),
        match r {
            Ok(_) => current_task_refusal(*old(session)) is None && is_task_set(
                *old(session),
                *final(session),
                old(session).snapshot.current_task_id->0@,
                state,
            ),
            Err(RuntimeError::Validation(message)) => current_task_refusal(*old(session)) == Some(
                message@,
            ) && *final(session) == *old(session),
            Err(_) => false,
        },
{
    let task_id: String = match &session.snapshot.current_task_id {
        Some(id) => id.clone(),
        None => return Err(RuntimeError::Validation(text("autonomous task was not persisted"))),
    };
    if session.set_task_state(task_id.as_str(), state) {
        Ok(())
    } else {
        Err(RuntimeError::Validation(text("autonomous task is absent from queue")))
    }
}

/// `session` with what the verifier found, for the next turn.
pub open spec fn is_noted_for_repair(
    before: SessionRecordV1,
    after: SessionRecordV1,
    repair_attempts: u32,
    summary: Seq<char>,
) -> bool {
    &&& after == (SessionRecordV1 {
        snapshot: AutonomousSessionSnapshotV1 {
            repair_attempts,
            last_verification_summary: after.snapshot.last_verification_summary,
            ..before.snapshot
        },
        ..before
    })
    &&& opt_text(after.snapshot.last_verification_summary) == Some(fitting_prefix(summary, 2048))
}

fn note_for_repair(session: &mut SessionRecordV1, repair_attempts: u32, summary: &str)
    requires
        old(session).wf(),
    ensures
        final(session).wf(),
        is_noted_for_repair(*old(session), *final(session), repair_attempts, summary@),
{
    session.snapshot.repair_attempts = repair_attempts;
    session.snapshot.last_verification_summary = Some(prefix_within(summary, 2_048));
}

/// The turn that a session is in is the same.
pub open spec fn keeps_turn(before: SessionRecordV1, after: SessionRecordV1) -> bool {
    &&& after.id() == before.id()
    &&& after.snapshot.current_task_id == before.snapshot.current_task_id
    &&& after.snapshot.provider_turn_count == before.snapshot.provider_turn_count
    &&& after.snapshot.cancellation_requested == before.snapshot.cancellation_requested
    &&& after.planner_reply == before.planner_reply
}

// ---------------------------------------------------------------------------
// What a turn brought

/// What a batch of events calls for.
#[derive(Clone, Copy, Debug, PartialEq, Eq, Structural)]
pub enum BatchVerdictV1 {
    StillRunning,
    RateLimited,
    TerminalError,
    Verify,
}

/// What a batch of events calls for. A claim of completion calls for verification, as
/// does any other end without an error.
pub open spec fn verdict_of(batch: ProviderEventBatchV1) -> BatchVerdictV1 {
    if !batch.terminal {
        BatchVerdictV1::StillRunning
    } else if has_rate_limit(batch.events@) {
        BatchVerdictV1::RateLimited
    } else if has_kind(batch.events@, NormalizedProviderEventKind::TerminalError) {
        BatchVerdictV1::TerminalError
    } else {
        BatchVerdictV1::Verify
    }
}

/// Decides what a batch of events calls for.
pub fn judge_batch(batch: &ProviderEventBatchV1) -> (r: BatchVerdictV1)
    ensures
        r == verdict_of(*batch),
{
    if !batch.terminal {
        BatchVerdictV1::StillRunning
    } else if any_rate_limit(&batch.events) {
        BatchVerdictV1::RateLimited
    } else if any_of_kind(&batch.events, NormalizedProviderEventKind::TerminalError) {
        BatchVerdictV1::TerminalError
    } else {
        BatchVerdictV1::Verify
    }
}

/// Verification passed, and there is a diff.
pub open spec fn is_verified_work(verification: VerificationSummaryV1, diff: Seq<char>) -> bool {
    verification.status == VerificationStatusV1::Passed && !blank(diff)
}

/// The session is complete, with this evidence.
pub open spec fn completes(
    before: SessionRecordV1,
    after: SessionRecordV1,
    verification: VerificationSummaryV1,
    diff: Seq<char>,
    review: Seq<char>,
    logged: bool,
) -> bool {
    &&& after.completion is Some
    &&& is_completion(after.completion->0, before.id(), verification, diff, review)
    &&& evidence_is_bounded(diff, review)
    &&& moves(
        (SessionRecordV1 { completion: after.completion, ..before }),
        after,
        AutonomousSessionStateV1::CompletedVerified,
        "completed_verified"@,
        logged,
    )
}

/// The outcome of a session that is complete.
pub open spec fn is_completed_outcome(
    outcome: AutonomousControllerOutcomeV1,
    provider_events: usize,
    verification: VerificationSummaryV1,
    diff: Seq<char>,
    review: Seq<char>,
) -> bool {
    &&& outcome.state == AutonomousSessionStateV1::CompletedVerified
    &&& outcome.provider_events == provider_events
    &&& outcome.verification == Some(verification)
    &&& opt_text(outcome.authoritative_diff) == Some(diff)
    &&& opt_text(outcome.final_review) == Some(review)
}

/// What follows verification: the session stops, or its work is reviewed.
#[derive(Debug)]
pub enum VerifiedStepV1 {
    Stopped(AutonomousControllerOutcomeV1),
    Review,
}

/// The attempts at repair after one more.
pub open spec fn one_more(n: u32) -> u32 {
    if n < u32::MAX {
        (n + 1) as u32
    } else {
        n
    }
}

/// Work that did not pass goes back to the queue for repair; work that did makes room
/// for the next task; and if there is none, the session is reviewed.
pub fn settle_verification(
    session: &mut SessionRecordV1,
    repair_attempts: u32,
    verification: &VerificationSummaryV1,
    diff: &str,
) -> (r: Result<VerifiedStepV1, RuntimeError>)
    requires
        old(session).wf(),
    ensures
        final(session).wf(),
        keeps_turn(*old(session), *final(session)),
        current_task_refusal(*old(session)) is Some ==> *final(session) == *old(session) && (r
            matches Err(RuntimeError::Validation(message)) && current_task_refusal(*old(session))
            == Some(message@)),
        current_task_refusal(*old(session)) is None && !is_verified_work(*verification, diff@)
            ==> repairs(
            *old(session),
            *final(session),
            one_more(repair_attempts),
            verification.summary@,
            r is Ok,
        ) && match r {
            Ok(VerifiedStepV1::Stopped(outcome)) => outcome == bare_outcome(
                AutonomousSessionStateV1::Queued,
                0,
            ),
            Ok(VerifiedStepV1::Review) => false,
            Err(e) => is_ahead_failure(e),
        },
        current_task_refusal(*old(session)) is None && is_verified_work(*verification, diff@)
            ==> match r {
            Ok(VerifiedStepV1::Stopped(outcome)) => outcome == bare_outcome(
                AutonomousSessionStateV1::Queued,
                0,
            ) && frees_next(*old(session), *final(session), true),
            Ok(VerifiedStepV1::Review) => is_task_set(
                *old(session),
                *final(session),
                old(session).snapshot.current_task_id->0@,
                AutonomousQueueTaskStateV1::CompletedVerified,
            ) && !some_can_start(final(session).queue.tasks@),
            Err(e) => is_ahead_failure(e) && frees_next(*old(session), *final(session), false),
        },
        (r is Ok && r->Ok_0 is Review) || (exists|i: int|
            0 <= i < old(session).queue.tasks@.len() && !((
            #[trigger] old(session).queue.tasks@[i]).state is CompletedVerified)
                && final(session).queue.tasks@[i].state is CompletedVerified)
            ==> verification.status == VerificationStatusV1::Passed && exists|k: int|
            0 <= k < diff@.len() && !is_white(#[trigger] diff@[k]),
{
    if verification.status != VerificationStatusV1::Passed || is_blank(diff) {
        set_current_task(session, AutonomousQueueTaskStateV1::Ready)?;
        let ghost set = *session;
        note_for_repair(session, repair_attempts.saturating_add(1), verification.summary.as_str());
        let ghost noted = *session;
        let stopped: Result<AutonomousControllerOutcomeV1, RuntimeError> = stop(
            session,
            AutonomousSessionStateV1::Queued,
            "verification_or_diff_incomplete",
        );
        proof {
            assert(repairs_through(
                *old(session),
                set,
                noted,
                *session,
                one_more(repair_attempts),
                verification.summary@,
                stopped is Ok,
            ));
        }
        return match stopped {
            Ok(outcome) => Ok(VerifiedStepV1::Stopped(outcome)),
            Err(e) => Err(e),
        };
    }
    set_current_task(session, AutonomousQueueTaskStateV1::CompletedVerified)?;
    if session.queue.next_ready_task().is_some() {
        let ghost set = *session;
        proof {
            assert(some_can_start(set.queue.tasks@)) by {
                let i = choose|i: int| #[trigger] is_next(set.queue.tasks@, i);
                assert(can_start(set.queue.tasks@, i));
            }
        }
        let stopped: Result<AutonomousControllerOutcomeV1, RuntimeError> = stop(
            session,
            AutonomousSessionStateV1::Queued,
            "task_verified_next_task_queued",
        );
        assert(frees_next_through(*old(session), set, *session, stopped is Ok));
        return match stopped {
            Ok(outcome) => Ok(VerifiedStepV1::Stopped(outcome)),
            Err(e) => Err(e),
        };
    }
    Ok(VerifiedStepV1::Review)
}

/// The current task went back to the queue, what the verifier found was noted, and the
/// session was queued.
pub open spec fn repairs_through(
    before: SessionRecordV1,
    set: SessionRecordV1,
    noted: SessionRecordV1,
    after: SessionRecordV1,
    repair_attempts: u32,
    summary: Seq<char>,
    logged: bool,
) -> bool {
    &&& is_task_set(
        before,
        set,
        before.snapshot.current_task_id->0@,
        AutonomousQueueTaskStateV1::Ready,
    )
    &&& is_noted_for_repair(set, noted, repair_attempts, summary)
    &&& moves(
        noted,
        after,
        AutonomousSessionStateV1::Queued,
        "verification_or_diff_incomplete"@,
        logged,
    )
}

/// The work went back for repair.
pub open spec fn repairs(
    before: SessionRecordV1,
    after: SessionRecordV1,
    repair_attempts: u32,
    summary: Seq<char>,
    logged: bool,
) -> bool {
    exists|set: SessionRecordV1, noted: SessionRecordV1| #[trigger]
        repairs_through(before, set, noted, after, repair_attempts, summary, logged)
}

/// The current task is verified, another can start, and the session was queued.
pub open spec fn frees_next_through(
    before: SessionRecordV1,
    set: SessionRecordV1,
    after: SessionRecordV1,
    logged: bool,
) -> bool {
    &&& is_task_set(
        before,
        set,
        before.snapshot.current_task_id->0@,
        AutonomousQueueTaskStateV1::CompletedVerified,
    )
    &&& some_can_start(set.queue.tasks@)
    &&& moves(
        set,
        after,
        AutonomousSessionStateV1::Queued,
        "task_verified_next_task_queued"@,
        logged,
    )
}

/// The work made room for the next task.
pub open spec fn frees_next(before: SessionRecordV1, after: SessionRecordV1, logged: bool) -> bool {
    exists|set: SessionRecordV1| #[trigger] frees_next_through(before, set, after, logged)
}

/// How a session whose work is verified ends: without a review it waits, with one it is
/// complete.
pub open spec fn is_reviewed(
    before: SessionRecordV1,
    after: SessionRecordV1,
    require_final_review: bool,
    provider_events: usize,
    verification: VerificationSummaryV1,
    diff: Seq<char>,
    review: Option<Seq<char>>,
    r: Result<AutonomousControllerOutcomeV1, RuntimeError>,
) -> bool {
    match review {
        None => escalates(before, after, "final_review_unavailable"@, r is Ok) && match r {
            Ok(outcome) => outcome == bare_outcome(AutonomousSessionStateV1::WaitingForChatgpt, 0),
            Err(e) => is_ahead_failure(e),
        },
        Some(review) => if require_final_review && blank(review) {
            moves(
                before,
                after,
                AutonomousSessionStateV1::WaitingForChatgpt,
                "final_review_missing"@,
                r is Ok,
            ) && match r {
                Ok(outcome) => outcome == bare_outcome(
                    AutonomousSessionStateV1::WaitingForChatgpt,
                    0,
                ),
                Err(e) => is_ahead_failure(e),
            }
        } else if !evidence_is_bounded(diff, review) {
            after == before && (r matches Err(RuntimeError::Provider(message)) && message@
                == "autonomy state error: "@ + debug_variant(
                "Validation"@,
                "autonomous completion artifact exceeds bounded storage"@,
            ))
        } else {
            completes(before, after, verification, diff, review, r is Ok) && match r {
                Ok(outcome) => is_completed_outcome(
                    outcome,
                    provider_events,
                    verification,
                    diff,
                    review,
                ),
                Err(e) => is_ahead_failure(e),
            }
        },
    }
}

/// Ends a session whose work is verified: without a review it waits, with one it is
/// complete.
pub fn settle_review(
    session: &mut SessionRecordV1,
    require_final_review: bool,
    provider_events: usize,
    verification: VerificationSummaryV1,
    diff: String,
    review: Option<String>,
) -> (r: Result<AutonomousControllerOutcomeV1, RuntimeError>)
    requires
        old(session).wf(),
    ensures
        final(session).wf(),
        keeps_turn(*old(session), *final(session)),
        is_reviewed(
            *old(session),
            *final(session),
            require_final_review,
            provider_events,
            verification,
            diff@,
            opt_text(review),
            r,
        ),
{
    let review: String = match review {
        Some(review) => review,
        None => return escalate(session, EscalationReasonV1::FinalReviewUnavailable),
    };
    if require_final_review && is_blank(review.as_str()) {
        return stop(session, AutonomousSessionStateV1::WaitingForChatgpt, "final_review_missing");
    }
    if let Err(e) = session.keep_completion(&verification, diff.as_str(), review.as_str()) {
        return Err(e.into_runtime_error());
    }
    transition(session, AutonomousSessionStateV1::CompletedVerified, "completed_verified")?;
    Ok(
        AutonomousControllerOutcomeV1 {
            state: AutonomousSessionStateV1::CompletedVerified,
            provider_events,
            verification: Some(verification),
            authoritative_diff: Some(diff),
            final_review: Some(review),
        },
    )
}

// ---------------------------------------------------------------------------
// Asking for a turn

/// The steps of a contract as a turn is told of them: the first twenty, numbered.
pub open spec fn numbered_steps(steps: Seq<String>) -> Seq<Seq<char>> {
    Seq::new(
        if steps.len() < 20 {
            steps.len()
        } else {
            20
        },
        |i: int| decimal((i + 1) as nat) + ". "@ + fitting_prefix(steps[i]@, 512),
    )
}

fn number_steps(steps: &Vec<String>) -> (r: Vec<String>)
    ensures
        texts(r@) == numbered_steps(steps@),
{
    let mut r: Vec<String> = Vec::new();
    let mut i: usize = 0;
    assert(texts(r@) =~= numbered_steps(steps@).take(0));
    while i < steps.len() && i < 20
        invariant
            i <= steps@.len(),
            i <= 20,
            texts(r@) == numbered_steps(steps@).take(i as int),
        decreases steps@.len() - i,
    {
        let ghost prior = texts(r@);
        r.push(
            to_decimal(i as u64 + 1).concat(". ").concat(
                prefix_within(steps[i].as_str(), 512).as_str(),
            ),
        );
        assert(texts(r@) =~= prior.push(numbered_steps(steps@)[i as int]));
        i += 1;
        assert(texts(r@) =~= numbered_steps(steps@).take(i as int));
    }
    assert(numbered_steps(steps@).take(i as int) =~= numbered_steps(steps@));
    r
}

/// A reply is there and was not used yet.
pub open spec fn has_open_reply(session: SessionRecordV1) -> bool {
    session.planner_reply is Some && !session.planner_reply->0.consumed
}

/// What the worker is told.
pub open spec fn instruction(
    session: SessionRecordV1,
    contract: AutonomousDevelopmentContractV1,
    task_id: Seq<char>,
) -> Seq<char> {
    if has_open_reply(session) {
        "A persisted planner decision applies to this turn. Decision: "@
            + session.planner_reply->0.decision@ + "\nConstraints: "@ + joined(
            texts(session.planner_reply->0.constraints@),
            "; "@,
        )
            + "\nResume only the existing approved task and preserve CatDesk verification requirements."@
    } else if session.snapshot.provider_thread_id is Some {
        "Independent verification did not pass. Bounded verifier evidence:\n"@ + match session.snapshot.last_verification_summary {
            Some(summary) => summary@,
            None => "no bounded verifier detail was persisted"@,
        }
            + "\nRepair only the unmet criteria, then wait for CatDesk verification and diff capture."@
    } else {
        "Approved objective:\n"@ + fitting_prefix(contract.objective@, 4096)
            + "\n\nOrdered work:\n"@ + joined(
            numbered_steps(contract.ordered_steps@),
            "\n"@,
        ) + "\n\nExecute only task "@ + task_id
            + " inside the approved workspace. Do not change Git branches, publish Git changes, access credentials, or modify files outside the contract. CatDesk independently verifies completion."@
    }
}

/// Writes what the worker is told.
pub fn worker_instruction(
    session: &SessionRecordV1,
    contract: &AutonomousDevelopmentContractV1,
    task_id: &str,
) -> (r: String)
    ensures
        r@ == instruction(*session, *contract, task_id@),
{
    if let Some(reply) = &session.planner_reply {
        if !reply.consumed {
            return text("A persisted planner decision applies to this turn. Decision: ").concat(
                reply.decision.as_str(),
            ).concat("\nConstraints: ").concat(join(&reply.constraints, "; ").as_str()).concat(
                "\nResume only the existing approved task and preserve CatDesk verification requirements.",
            );
        }
    }
    if session.snapshot.provider_thread_id.is_some() {
        let evidence: String = match &session.snapshot.last_verification_summary {
            Some(summary) => summary.clone(),
            None => text("no bounded verifier detail was persisted"),
        };
        return text(
            "Independent verification did not pass. Bounded verifier evidence:\n",
        ).concat(evidence.as_str()).concat(
            "\nRepair only the unmet criteria, then wait for CatDesk verification and diff capture.",
        );
    }
    text("Approved objective:\n").concat(
        prefix_within(contract.objective.as_str(), 4_096).as_str(),
    ).concat("\n\nOrdered work:\n").concat(
        join(&number_steps(&contract.ordered_steps), "\n").as_str(),
    ).concat("\n\nExecute only task ").concat(task_id).concat(
        " inside the approved workspace. Do not change Git branches, publish Git changes, access credentials, or modify files outside the contract. CatDesk independently verifies completion.",
    )
}

/// The name under which a session works.
pub open spec fn worker_name(session_id: Seq<char>) -> Seq<char> {
    "autonomy-"@ + session_id
}

/// The name of a task's turn.
pub open spec fn turn_name(task_id: Seq<char>) -> Seq<char> {
    task_id + "-turn-1"@
}

/// What the provider is told of the contract.
pub open spec fn turn_context(contract_hash: Seq<char>, task_id: Seq<char>) -> Seq<char> {
    object(
        seq![
            field("contractHash"@, json_string(contract_hash)),
            field("taskId"@, json_string(task_id)),
        ],
    )
}

/// The turn that is asked for.
pub open spec fn is_turn(
    turn: ProviderTurnRequestV1,
    session_id: Seq<char>,
    contract: AutonomousDevelopmentContractV1,
    contract_hash: Seq<char>,
    task_id: Seq<char>,
) -> bool {
    &&& turn.run_id@ == session_id
    &&& turn.worker_session_id@ == worker_name(session_id)
    &&& turn.turn_id@ == turn_name(task_id)
    &&& turn.model_id == contract.provider_policy.primary_model
    &&& turn.context_json@ == turn_context(contract_hash, task_id)
    &&& turn.tool_definitions@.len() == 0
    &&& turn.max_output_bytes == 16_384
}

/// Why no turn can be named, if it cannot.
pub open spec fn turn_refusal(session_id: Seq<char>, task_id: Seq<char>) -> Option<Seq<char>> {
    if !is_identifier(session_id) {
        Some(identifier_message("RunId"@))
    } else if !is_identifier(turn_name(task_id)) {
        Some(identifier_message("TurnId"@))
    } else {
        None
    }
}

/// Names the turn of a task.
pub fn turn_request(
    session_id: &str,
    worker: WorkerSessionId,
    contract: &AutonomousDevelopmentContractV1,
    contract_hash: &str,
    task_id: &str,
) -> (r: Result<ProviderTurnRequestV1, RuntimeError>)
    requires
        worker@ == worker_name(session_id@),
    ensures
        match r {
            Ok(turn) => turn_refusal(session_id@, task_id@) is None && is_turn(
                turn,
                session_id@,
                *contract,
                contract_hash@,
                task_id@,
            ),
            Err(RuntimeError::Validation(message)) => turn_refusal(session_id@, task_id@) == Some(
                message@,
            ),
            Err(_) => false,
        },
{
    let run_id: RunId = match RunId::new(session_id) {
        Ok(id) => id,
        Err(message) => return Err(RuntimeError::Validation(message)),
    };
    let turn_id: TurnId = match TurnId::new(plus(task_id, "-turn-1").as_str()) {
        Ok(id) => id,
        Err(message) => return Err(RuntimeError::Validation(message)),
    };
    let fields: Vec<String> = vec![
        field_text("contractHash", quoted(contract_hash).as_str()),
        field_text("taskId", quoted(task_id).as_str()),
    ];
    assert(texts(fields@) =~= seq![
        field("contractHash"@, json_string(contract_hash@)),
        field("taskId"@, json_string(task_id@)),
    ]);
    Ok(
        ProviderTurnRequestV1 {
            run_id,
            worker_session_id: worker,
            turn_id,
            model_id: contract.provider_policy.primary_model.clone(),
            context_json: object_text(&fields),
            tool_definitions: Vec::new(),
            max_output_bytes: 16_384,
        },
    )
}

/// The budget that is used up, if one is.
pub open spec fn exhausted_budget(
    snapshot: AutonomousSessionSnapshotV1,
    contract: AutonomousDevelopmentContractV1,
) -> Option<EscalationReasonV1> {
    if snapshot.provider_turn_count >= contract.autonomy_lease.maximum_provider_turns {
        Some(EscalationReasonV1::ProviderTurnBudgetExhausted)
    } else if snapshot.provider_thread_id is Some && snapshot.repair_attempts
        > contract.verification_policy.max_repair_cycles {
        Some(EscalationReasonV1::RepairBudgetExhausted)
    } else {
        None
    }
}

/// Says which budget is used up, if one is.
pub fn find_exhausted_budget(
    snapshot: &AutonomousSessionSnapshotV1,
    contract: &AutonomousDevelopmentContractV1,
) -> (r: Option<EscalationReasonV1>)
    ensures
        r == exhausted_budget(*snapshot, *contract),
{
    if snapshot.provider_turn_count >= contract.autonomy_lease.maximum_provider_turns {
        Some(EscalationReasonV1::ProviderTurnBudgetExhausted)
    } else if snapshot.provider_thread_id.is_some() && snapshot.repair_attempts
        > contract.verification_policy.max_repair_cycles {
        Some(EscalationReasonV1::RepairBudgetExhausted)
    } else {
        None
    }
}

/// What is handed to the provider.
pub open spec fn is_work_request(
    request: WorkerProviderTurnRequestV1,
    session: SessionRecordV1,
    contract: AutonomousDevelopmentContractV1,
    contract_hash: Seq<char>,
    task_id: Seq<char>,
) -> bool {
    &&& is_turn(request.turn, session.id(), contract, contract_hash, task_id)
    &&& request.history@.len() == 1
    &&& is_plain_message(
        request.history@[0],
        "user"@,
        instruction(session, contract, task_id),
    )
    &&& !request.json_envelope_recovery
    &&& session.snapshot.provider_thread_id is Some ==> Some(
        request.provider_session.provider_session_id,
    ) == session.snapshot.provider_thread_id
}

/// Puts together what is handed to the provider. A session that has a thread keeps it.
pub fn work_request(
    session: &SessionRecordV1,
    contract: &AutonomousDevelopmentContractV1,
    contract_hash: &str,
    task_id: &str,
    provider_session: ProviderSessionV1,
    turn: ProviderTurnRequestV1,
) -> (r: WorkerProviderTurnRequestV1)
    requires
        is_turn(turn, session.id(), *contract, contract_hash@, task_id@),
    ensures
        is_work_request(r, *session, *contract, contract_hash@, task_id@),
        r.provider_session == (ProviderSessionV1 {
            provider_session_id: match session.snapshot.provider_thread_id {
                Some(thread) => thread,
                None => provider_session.provider_session_id,
            },
            ..provider_session
        }),
{
    let mut provider_session: ProviderSessionV1 = provider_session;
    if let Some(thread) = &session.snapshot.provider_thread_id {
        provider_session.provider_session_id = thread.clone();
    }
    let mut history: Vec<ProviderMessageV1> = Vec::new();
    history.push(plain_message("user", worker_instruction(session, contract, task_id)));
    WorkerProviderTurnRequestV1 { provider_session, turn, history, json_envelope_recovery: false }
}

// ---------------------------------------------------------------------------
// The controller

/// Runs one session.
pub struct AutonomousControllerV1<P, V> {
    pub policy: AutonomousPolicyEngineV1,
    pub provider: P,
    pub verifier: V,
    pub session_id: String,
    pub last_handle: Option<ProviderTurnHandleV1>,
    pub repair_attempts: u32,
    pub cancel_requested: bool,
}

/// What a step of a controller goes by and what it leaves behind.
pub ghost struct ControllerParts<P, V> {
    pub policy: AutonomousPolicyEngineV1,
    pub provider: P,
    pub verifier: V,
    pub last_handle: Option<ProviderTurnHandleV1>,
}

impl<P, V> AutonomousControllerV1<P, V> {
    /// What a step of the controller goes by.
    pub open spec fn parts(self) -> ControllerParts<P, V> {
        ControllerParts {
            policy: self.policy,
            provider: self.provider,
            verifier: self.verifier,
            last_handle: self.last_handle,
        }
    }
}

/// The session is complete, and the evidence that is kept is the evidence reported:
/// verification passed, there is a diff and there is a review.
pub open spec fn is_proven(outcome: AutonomousControllerOutcomeV1, session: SessionRecordV1) -> bool {
    &&& session.snapshot.state == AutonomousSessionStateV1::CompletedVerified
    &&& session.completion is Some
    &&& session.completion->0.verification.status == VerificationStatusV1::Passed
    &&& evidence_is_bounded(
        session.completion->0.authoritative_diff@,
        session.completion->0.final_review@,
    )
    &&& outcome.verification == Some(session.completion->0.verification)
    &&& opt_text(outcome.authoritative_diff) == Some(session.completion->0.authoritative_diff@)
    &&& opt_text(outcome.final_review) == Some(session.completion->0.final_review@)
    &&& !some_can_start(session.queue.tasks@)
}

/// The session with the thread that the provider has named since.
pub open spec fn with_new_thread(
    session: SessionRecordV1,
    handle: Option<ProviderTurnHandleV1>,
    batch: ProviderEventBatchV1,
) -> SessionRecordV1 {
    match (batch.provider_session_id, handle) {
        (Some(thread), Some(handle)) => with_handle(
            session,
            thread,
            handle.handle_id,
            batch.next_cursor,
        ),
        _ => session,
    }
}

/// The handle with the thread that the provider has named since.
pub open spec fn with_thread(
    handle: Option<ProviderTurnHandleV1>,
    batch: ProviderEventBatchV1,
) -> Option<ProviderTurnHandleV1> {
    match (batch.provider_session_id, handle) {
        (Some(thread), Some(handle)) => Some(
            ProviderTurnHandleV1 { provider_session_id: thread, ..handle },
        ),
        _ => handle,
    }
}

/// The current task is verified and no other can start, so the work was reviewed.
pub open spec fn is_last_task_reviewed<V: AutonomousVerifierV1>(
    before: SessionRecordV1,
    set: SessionRecordV1,
    after: SessionRecordV1,
    reviewer: V,
    require_final_review: bool,
    provider_events: usize,
    verification: VerificationSummaryV1,
    diff: Seq<char>,
    review: Result<String, RuntimeError>,
    r: Result<AutonomousControllerOutcomeV1, RuntimeError>,
) -> bool {
    &&& is_task_set(
        before,
        set,
        before.snapshot.current_task_id->0@,
        AutonomousQueueTaskStateV1::CompletedVerified,
    )
    &&& !some_can_start(set.queue.tasks@)
    &&& reviews(reviewer, verification, diff, review)
    &&& is_reviewed(
        set,
        after,
        require_final_review,
        provider_events,
        verification,
        diff,
        match review {
            Ok(said) => Some(said@),
            Err(_) => None,
        },
        r,
    )
}

/// How a session goes on from what the verifier found and, of the last task, from its
/// review.
pub open spec fn is_judged<V: AutonomousVerifierV1>(
    before: SessionRecordV1,
    after: SessionRecordV1,
    require_final_review: bool,
    provider_events: usize,
    verification: VerificationSummaryV1,
    diff: Seq<char>,
    r: Result<AutonomousControllerOutcomeV1, RuntimeError>,
) -> bool {
    let queued = match r {
        Ok(outcome) => outcome == bare_outcome(AutonomousSessionStateV1::Queued, 0),
        Err(e) => is_ahead_failure(e),
    };
    if current_task_refusal(before) is Some {
        after == before && (r matches Err(RuntimeError::Validation(message)) && Some(message@)
            == current_task_refusal(before))
    } else if !is_verified_work(verification, diff) {
        queued && repairs(
            before,
            after,
            one_more(before.snapshot.repair_attempts),
            verification.summary@,
            r is Ok,
        )
    } else {
        ||| queued && frees_next(before, after, r is Ok)
        ||| exists|set: SessionRecordV1, reviewer: V, review: Result<String, RuntimeError>| #[trigger]
            is_last_task_reviewed(
                before,
                set,
                after,
                reviewer,
                require_final_review,
                provider_events,
                verification,
                diff,
                review,
                r,
            )
    }
}

/// The session was moved on to verification, and went on from what the verifier found.
/// The error of a verifier that could not be run is handed on.
pub open spec fn is_verified_turn<V: AutonomousVerifierV1>(
    before: SessionRecordV1,
    verifying: SessionRecordV1,
    after: SessionRecordV1,
    checks: V,
    require_final_review: bool,
    provider_events: usize,
    r: Result<AutonomousControllerOutcomeV1, RuntimeError>,
    logged: bool,
) -> bool {
    &&& moves(
        before,
        verifying,
        AutonomousSessionStateV1::Verifying,
        "independent_verification_started"@,
        logged,
    )
    &&& if logged {
        exists|found: Result<(VerificationSummaryV1, String), RuntimeError>| #[trigger]
            verifies(checks, found) && match found {
                Ok((verification, diff)) => is_judged::<V>(
                    verifying,
                    after,
                    require_final_review,
                    provider_events,
                    verification,
                    diff@,
                    r,
                ),
                Err(e) => after == verifying && r == Err::<
                    AutonomousControllerOutcomeV1,
                    RuntimeError,
                >(e),
            }
    } else {
        after == verifying && r is Err && is_ahead_failure(r->Err_0)
    }
}

/// The controller has asked neither its provider nor its verifier, and goes on with the
/// turn that it had.
pub open spec fn is_untouched<P, V>(
    old_controller: ControllerParts<P, V>,
    new_controller: ControllerParts<P, V>,
) -> bool {
    &&& new_controller.provider == old_controller.provider
    &&& new_controller.verifier == old_controller.verifier
    &&& new_controller.last_handle == old_controller.last_handle
}

/// How a batch of events leaves the session and the controller.
pub open spec fn is_finished<V: AutonomousVerifierV1>(
    contract: AutonomousDevelopmentContractV1,
    checks: V,
    new_checks: V,
    before: SessionRecordV1,
    after: SessionRecordV1,
    handle: Option<ProviderTurnHandleV1>,
    new_handle: Option<ProviderTurnHandleV1>,
    batch: ProviderEventBatchV1,
    now_unix: u64,
    r: Result<AutonomousControllerOutcomeV1, RuntimeError>,
) -> bool {
    let known = with_new_thread(before, handle, batch);
    &&& new_handle == with_thread(handle, batch)
    &&& !(verdict_of(batch) is Verify) ==> new_checks == checks
    &&& match verdict_of(batch) {
        BatchVerdictV1::StillRunning => {
            &&& r == Ok::<AutonomousControllerOutcomeV1, RuntimeError>(
                bare_outcome(AutonomousSessionStateV1::Running, batch.events@.len() as usize),
            )
            &&& match with_thread(handle, batch) {
                Some(handle) => after == with_handle(
                    known,
                    handle.provider_session_id,
                    handle.handle_id,
                    batch.next_cursor,
                ),
                None => after == known,
            }
        },
        BatchVerdictV1::RateLimited => {
            let paused = paused_for_rate_limit(
                known,
                contract.rate_limit_policy.initial_backoff_seconds,
                now_unix,
            );
            match r {
                Ok(outcome) => !known.is_ahead() && outcome == bare_outcome(
                    AutonomousSessionStateV1::RateLimited,
                    batch.events@.len() as usize,
                ) && is_logged(
                    paused,
                    after,
                    "provider_rate_limited"@,
                    "provider capacity pause persisted"@,
                ),
                Err(e) => known.is_ahead() && is_ahead_failure(e) && after == paused,
            }
        },
        BatchVerdictV1::TerminalError => {
            &&& escalates(known, after, "provider_terminal_error"@, r is Ok)
            &&& match r {
                Ok(outcome) => outcome == bare_outcome(
                    AutonomousSessionStateV1::WaitingForChatgpt,
                    0,
                ),
                Err(e) => is_ahead_failure(e),
            }
        },
        BatchVerdictV1::Verify => exists|verifying: SessionRecordV1, logged: bool| #[trigger]
            is_verified_turn(
                known,
                verifying,
                after,
                checks,
                contract.verification_policy.require_final_review,
                batch.events@.len() as usize,
                r,
                logged,
            ),
    }
}

/// Why a session cannot work on a task, if it cannot.
pub open spec fn work_refusal(session_id: Seq<char>, task_id: Seq<char>) -> Option<Seq<char>> {
    if !is_identifier(worker_name(session_id)) {
        Some(identifier_message("WorkerSessionId"@))
    } else {
        turn_refusal(session_id, task_id)
    }
}

/// The session has taken up a task: the turn is prepared, a reply that was open is
/// used, and the start is logged.
pub open spec fn is_started(
    before: SessionRecordV1,
    prepared: SessionRecordV1,
    started: SessionRecordV1,
    task_id: Seq<char>,
    thread: Seq<char>,
    logged: bool,
) -> bool {
    &&& is_prepared(with_reply_consumed(before), prepared, task_id, thread)
    &&& before.snapshot.provider_thread_id is Some ==> thread
        == before.snapshot.provider_thread_id->0@
    &&& moves(
        prepared,
        started,
        AutonomousSessionStateV1::Running,
        if before.snapshot.provider_thread_id is Some {
            "provider_repair_resumed"@
        } else {
            "provider_turn_started"@
        },
        logged,
    )
}

/// How a turn that a provider works on leaves the session and the controller.
pub open spec fn handle_goes_on<P: WorkerProviderV1, V: AutonomousVerifierV1>(
    contract: AutonomousDevelopmentContractV1,
    checks: V,
    new_checks: V,
    started: SessionRecordV1,
    after: SessionRecordV1,
    handle: ProviderTurnHandleV1,
    new_handle: Option<ProviderTurnHandleV1>,
    now_unix: u64,
    r: Result<AutonomousControllerOutcomeV1, RuntimeError>,
) -> bool {
    let held = with_handle(started, handle.provider_session_id, handle.handle_id, 0);
    exists|provider: P, polled: Result<ProviderEventBatchV1, RuntimeError>| #[trigger]
        polls(provider, handle, 0, polled) && match polled {
            Ok(batch) => is_finished(
                contract,
                checks,
                new_checks,
                held,
                after,
                Some(handle),
                new_handle,
                batch,
                now_unix,
                r,
            ),
            Err(e) => {
                &&& after == held
                &&& new_handle == Some(handle)
                &&& new_checks == checks
                &&& r == Err::<AutonomousControllerOutcomeV1, RuntimeError>(e)
            },
        }
}

/// How a turn that was asked for leaves the session and the controller: the provider
/// refuses it, or works on it.
pub open spec fn turn_goes_on<P: WorkerProviderV1, V: AutonomousVerifierV1>(
    contract: AutonomousDevelopmentContractV1,
    checks: V,
    new_checks: V,
    started: SessionRecordV1,
    after: SessionRecordV1,
    last_handle: Option<ProviderTurnHandleV1>,
    new_handle: Option<ProviderTurnHandleV1>,
    call: TurnCallV1,
    request: WorkerProviderTurnRequestV1,
    now_unix: u64,
    r: Result<AutonomousControllerOutcomeV1, RuntimeError>,
) -> bool {
    exists|provider: P, taken: Result<ProviderTurnHandleV1, RuntimeError>| #[trigger]
        takes_turn(provider, call, request, taken) && match taken {
            Ok(handle) => handle_goes_on::<P, V>(
                contract,
                checks,
                new_checks,
                started,
                after,
                handle,
                new_handle,
                now_unix,
                r,
            ),
            Err(e) => {
                &&& after == started
                &&& new_handle == last_handle
                &&& new_checks == checks
                &&& r == Err::<AutonomousControllerOutcomeV1, RuntimeError>(e)
            },
        }
}

/// The request for a turn on a task: the conversation is the one that the provider opens,
/// or the one of the session's thread.
pub open spec fn is_request_of<P: WorkerProviderV1, V>(
    controller: ControllerParts<P, V>,
    before: SessionRecordV1,
    task_id: Seq<char>,
    opened: ProviderSessionV1,
    request: WorkerProviderTurnRequestV1,
) -> bool {
    let contract = controller.policy.terms();
    &&& opens_session(
        controller.provider,
        contract.provider_policy.primary_model@,
        worker_name(before.id()),
        opened,
    )
    &&& is_work_request(request, before, contract, controller.policy.hash(), task_id)
    &&& request.provider_session == (ProviderSessionV1 {
        provider_session_id: match before.snapshot.provider_thread_id {
            Some(thread) => thread,
            None => opened.provider_session_id,
        },
        ..opened
    })
}

/// The provider is called three times at most: the call `opening` opens a conversation, and
/// where the session takes up a task, a turn is asked for with the request for that task. It
/// is left as the last of these calls left it.
#[verifier::opaque]
pub open spec fn is_work_asked<P: WorkerProviderV1, V>(
    controller: ControllerParts<P, V>,
    after: P,
    opening: &mut P,
    opened: P,
    taking: &mut P,
    taken: P,
    polling: &mut P,
    polled: P,
    before: SessionRecordV1,
) -> bool {
    exists|session: ProviderSessionV1| #[trigger]
        is_opening(
            opening,
            controller.policy.terms().provider_policy.primary_model@,
            worker_name(before.id()),
            session,
        ) && mut_ref_current(opening) == controller.provider && (after == opened || exists|
            task_id: Seq<char>,
            request: WorkerProviderTurnRequestV1,
        | #[trigger]
            is_request_of(controller, before, task_id, session, request) && is_turn_asked(
                opened,
                after,
                taking,
                taken,
                polling,
                polled,
                call_for(before.snapshot),
                request,
            ))
}

/// A step that reaches its provider works on a task, or looks at the turn that is under way
/// by the one call `polling`.
#[verifier::opaque]
pub open spec fn is_step_asked<P: WorkerProviderV1, V>(
    controller: ControllerParts<P, V>,
    after: P,
    opening: &mut P,
    opened: P,
    taking: &mut P,
    taken: P,
    polling: &mut P,
    polled: P,
    before: SessionRecordV1,
) -> bool {
    ||| is_work_asked(controller, after, opening, opened, taking, taken, polling, polled, before)
    ||| exists|
        handle: ProviderTurnHandleV1,
        cursor: u64,
        batch: Result<ProviderEventBatchV1, RuntimeError>,
    | #[trigger]
        is_polling(polling, handle, cursor, batch) && controller.last_handle == Some(handle)
            && mut_ref_current(polling) == controller.provider && after == polled
}

/// What working on a task does.
pub open spec fn is_worked<P: WorkerProviderV1, V: AutonomousVerifierV1>(
    old_controller: ControllerParts<P, V>,
    new_controller: ControllerParts<P, V>,
    before: SessionRecordV1,
    after: SessionRecordV1,
    task_id: Seq<char>,
    now_unix: u64,
    r: Result<AutonomousControllerOutcomeV1, RuntimeError>,
) -> bool {
    let contract = old_controller.policy.terms();
    if work_refusal(before.id(), task_id) is Some {
        &&& after == before
        &&& new_controller.last_handle == old_controller.last_handle
        &&& new_controller.verifier == old_controller.verifier
        &&& r matches Err(RuntimeError::Validation(message)) && Some(message@) == work_refusal(
            before.id(),
            task_id,
        )
    } else if let Some(reason) = exhausted_budget(before.snapshot, contract) {
        &&& escalates(before, after, reason.name(), r is Ok)
        &&& new_controller.last_handle == old_controller.last_handle
        &&& new_controller.verifier == old_controller.verifier
        &&& match r {
            Ok(outcome) => outcome == bare_outcome(AutonomousSessionStateV1::WaitingForChatgpt, 0),
            Err(e) => is_ahead_failure(e),
        }
    } else {
        &&& exists|opened: ProviderSessionV1, request: WorkerProviderTurnRequestV1| #[trigger]
            is_request_of(old_controller, before, task_id, opened, request) && is_taken_up::<P, V>(
                contract,
                old_controller.verifier,
                new_controller.verifier,
                before,
                after,
                old_controller.last_handle,
                new_controller.last_handle,
                task_id,
                request,
                now_unix,
                r,
            )
        &&& after.snapshot.provider_turn_count == one_more(before.snapshot.provider_turn_count)
        &&& opt_text(after.snapshot.current_task_id) == Some(task_id)
        &&& !has_open_reply(after)
        &&& r is Ok && r->Ok_0.state == AutonomousSessionStateV1::CompletedVerified ==> is_proven(
            r->Ok_0,
            after,
        )
    }
}

/// The session takes up a task, and the provider is asked for a turn with this request.
pub open spec fn is_taken_up<P: WorkerProviderV1, V: AutonomousVerifierV1>(
    contract: AutonomousDevelopmentContractV1,
    checks: V,
    new_checks: V,
    before: SessionRecordV1,
    after: SessionRecordV1,
    last_handle: Option<ProviderTurnHandleV1>,
    new_handle: Option<ProviderTurnHandleV1>,
    task_id: Seq<char>,
    request: WorkerProviderTurnRequestV1,
    now_unix: u64,
    r: Result<AutonomousControllerOutcomeV1, RuntimeError>,
) -> bool {
    exists|prepared: SessionRecordV1, started: SessionRecordV1, logged: bool| #[trigger]
        is_started(
            before,
            prepared,
            started,
            task_id,
            request.provider_session.provider_session_id@,
            logged,
        ) && if logged {
            turn_goes_on::<P, V>(
                contract,
                checks,
                new_checks,
                started,
                after,
                last_handle,
                new_handle,
                call_for(before.snapshot),
                request,
                now_unix,
                r,
            )
        } else {
            &&& after == started
            &&& new_handle == last_handle
            &&& new_checks == checks
            &&& r is Err && is_ahead_failure(r->Err_0)
        }
}

impl<P: WorkerProviderV1, V: AutonomousVerifierV1> AutonomousControllerV1<P, V> {
    /// A controller of one session.
    pub fn new(policy: AutonomousPolicyEngineV1, provider: P, verifier: V, session_id: String) -> (r:
        Self)
        ensures
            r == (AutonomousControllerV1 {
                policy,
                provider,
                verifier,
                session_id,
                last_handle: None,
                repair_attempts: 0,
                cancel_requested: false,
            }),
    {
        AutonomousControllerV1 {
            policy,
            provider,
            verifier,
            session_id,
            last_handle: None,
            repair_attempts: 0,
            cancel_requested: false,
        }
    }

    /// Takes a session one step further.
    pub fn run_once(&mut self, store: &mut AutonomousStateStoreV1, now_unix: u64) -> (r: Result<
        AutonomousControllerOutcomeV1,
        RuntimeError,
    >)
        requires
            old(store).wf(),
        ensures
            final(store).wf(),
            final(self).policy == old(self).policy,
            final(self).session_id == old(self).session_id,
            ({
                let id = old(self).session_id@;
                let before = old(store).session(id);
                let after = final(store).session(id);
                if !old(store).reaches(id) {
                    &&& *final(store) == *old(store)
                    &&& *final(self) == *old(self)
                    &&& r is Err
                    &&& exists|e: AutonomyStateError| #[trigger]
                        old(store).misses(id, e) && is_store_failure(r->Err_0, e)
                } else {
                    &&& final(store).replaces(*old(store), id, after)
                    &&& final(self).cancel_requested == (old(self).cancel_requested
                        || before.snapshot.cancellation_requested)
                    &&& !old(self).cancel_requested && r is Ok ==> final(self).repair_attempts
                        == after.snapshot.repair_attempts
                    &&& is_step(
                        old(self).parts(),
                        final(self).parts(),
                        old(self).cancel_requested,
                        before, after, now_unix, r)
                    &&& !(before.snapshot.state is CompletedVerified) && r is Ok
                        && r->Ok_0.state is CompletedVerified ==> {
                        &&& after.completion is Some
                        &&& after.completion->0.verification.status is Passed
                        &&& exists|k: int|
                            0 <= k < after.completion->0.authoritative_diff@.len() && !is_white(
                                #[trigger] after.completion->0.authoritative_diff@[k],
                            )
                        &&& exists|k: int|
                            0 <= k < after.completion->0.final_review@.len() && !is_white(
                                #[trigger] after.completion->0.final_review@[k],
                            )
                    }
                }
            }),
            final(self).provider == old(self).provider || exists|
                opening: &mut P,
                taking: &mut P,
                polling: &mut P,
            | #[trigger]
                is_step_asked(
                    old(self).parts(),
                    final(self).provider,
                    opening,
                    mut_ref_future(opening),
                    taking,
                    mut_ref_future(taking),
                    polling,
                    mut_ref_future(polling),
                    old(store).session(old(self).session_id@),
                ),
            final(self).verifier == old(self).verifier || exists|checking: &mut V, reviewing: &mut V|
                #[trigger]
                is_checked_by(
                    old(self).verifier,
                    final(self).verifier,
                    checking,
                    mut_ref_future(checking),
                    reviewing,
                    mut_ref_future(reviewing),
                ),
    {
        let i: usize = match store.locate(self.session_id.as_str()) {
            Ok(i) => i,
            Err(e) => {
                assert(old(store).misses(old(self).session_id@, e));
                return Err(e.into_runtime_error());
            },
        };
        let ghost id = self.session_id@;
        let r: Result<AutonomousControllerOutcomeV1, RuntimeError> = self.run_session(
            &mut store.sessions[i],
            now_unix,
        );
        proof {
            store.lemma_replaced(*old(store), i as int, id);
            let before = old(store).session(id);
            if !(before.snapshot.state is CompletedVerified) && r is Ok
                && r->Ok_0.state is CompletedVerified {
                lemma_completion_has_evidence(
                    old(self).parts(),
                    self.parts(),
                    old(self).cancel_requested,
                    before,
                    store.session(id),
                    now_unix,
                    r->Ok_0,
                );
            }
        }
        r
    }

    fn run_session(&mut self, session: &mut SessionRecordV1, now_unix: u64) -> (r: Result<
        AutonomousControllerOutcomeV1,
        RuntimeError,
    >)
        requires
            old(session).wf(),
        ensures
            final(session).wf(),
            final(session).id() == old(session).id(),
            final(self).policy == old(self).policy,
            final(self).session_id == old(self).session_id,
            final(self).cancel_requested == (old(self).cancel_requested || old(session).snapshot.cancellation_requested),
            !old(self).cancel_requested && r is Ok ==> final(self).repair_attempts == final(session).snapshot.repair_attempts,
            final(self).provider == old(self).provider || exists|
                opening: &mut P,
                taking: &mut P,
                polling: &mut P,
            | #[trigger]
                is_step_asked(
                    old(self).parts(),
                    final(self).provider,
                    opening,
                    mut_ref_future(opening),
                    taking,
                    mut_ref_future(taking),
                    polling,
                    mut_ref_future(polling),
                    *old(session),
                ),
            final(self).verifier == old(self).verifier || exists|checking: &mut V, reviewing: &mut V|
                #[trigger]
                is_checked_by(
                    old(self).verifier,
                    final(self).verifier,
                    checking,
                    mut_ref_future(checking),
                    reviewing,
                    mut_ref_future(reviewing),
                ),
            is_step(
                old(self).parts(),
                final(self).parts(),
                old(self).cancel_requested,
                *old(session), *final(session), now_unix, r),
    {
        let step: ControllerStepV1 = decide_step(
            &session.snapshot,
            self.policy.contract(),
            self.cancel_requested,
            self.last_handle.is_some(),
            now_unix,
        );
        if !self.cancel_requested {
            self.cancel_requested = session.snapshot.cancellation_requested;
            self.repair_attempts = session.snapshot.repair_attempts;
        }
        match step {
            ControllerStepV1::Cancel => stop(
                session,
                AutonomousSessionStateV1::Cancelled,
                "cancellation_requested",
            ),
            ControllerStepV1::Report(state) => Ok(bare(state, 0)),
            ControllerStepV1::Escalate(reason) => escalate(session, reason),
            ControllerStepV1::ExpireLease => stop(
                session,
                AutonomousSessionStateV1::LeaseExpired,
                "lease_expired",
            ),
            ControllerStepV1::Poll(cursor) => {
                let handle: ProviderTurnHandleV1 = match &self.last_handle {
                    Some(handle) => handle.clone(),
                    None => return Ok(bare(session.snapshot.state, 0)),
                };
                let polled: Result<ProviderEventBatchV1, RuntimeError> = self.look_at_turn(
                    &handle,
                    cursor,
                );
                proof {
                    let line = choose|line: &mut P| #[trigger]
                        is_polling(line, handle, cursor, polled) && mut_ref_current(line) == old(self).provider
                            && mut_ref_future(line) == self.provider;
                    assert(is_step_asked(
                        old(self).parts(),
                        self.provider,
                        line,
                        mut_ref_future(line),
                        line,
                        mut_ref_future(line),
                        line,
                        mut_ref_future(line),
                        *old(session),
                    )) by {
                        reveal(is_step_asked);
                    }
                }
                assert(polls(old(self).parts().provider, handle, cursor, polled));
                let r: Result<AutonomousControllerOutcomeV1, RuntimeError> = match polled {
                    Ok(batch) => self.finish_turn(session, batch, now_unix),
                    Err(e) => Err(e),
                };
                assert(is_looked_at(
                    old(self).parts(),
                    self.parts(),
                    *old(session),
                    *session,
                    handle,
                    cursor,
                    now_unix,
                    r,
                ));
                r
            },
            ControllerStepV1::Work => {
                let r: Result<AutonomousControllerOutcomeV1, RuntimeError> = self.work(
                    session,
                    now_unix,
                );
                proof {
                    reveal(is_step_asked);
                    if self.provider != old(self).provider {
                        let (opening, taking, polling) = choose|
                            opening: &mut P,
                            taking: &mut P,
                            polling: &mut P,
                        | #[trigger]
                            is_work_asked(
                                old(self).parts(),
                                self.provider,
                                opening,
                                mut_ref_future(opening),
                                taking,
                                mut_ref_future(taking),
                                polling,
                                mut_ref_future(polling),
                                *old(session),
                            );
                        assert(is_step_asked(
                            old(self).parts(),
                            self.provider,
                            opening,
                            mut_ref_future(opening),
                            taking,
                            mut_ref_future(taking),
                            polling,
                            mut_ref_future(polling),
                            *old(session),
                        ));
                    }
                }
                r
            },
        }
    }

    fn look_at_turn(&mut self, handle: &ProviderTurnHandleV1, cursor: u64) -> (r: Result<
        ProviderEventBatchV1,
        RuntimeError,
    >)
        ensures
            *final(self) == (AutonomousControllerV1 { provider: final(self).provider, ..*old(self) }),
            polls(old(self).provider, *handle, cursor, r),
            exists|line: &mut P| #[trigger]
                is_polling(line, *handle, cursor, r) && mut_ref_current(line) == old(self).provider
                    && mut_ref_future(line) == final(self).provider,
    {
        let r: Result<ProviderEventBatchV1, RuntimeError> = self.provider.poll_events(
            handle,
            cursor,
        );
        proof {
            let line = choose|line: &mut P| #[trigger]
                call_ensures(P::poll_events, (line, handle, cursor), r) && mut_ref_current(line)
                    == old(self).provider && mut_ref_future(line) == self.provider;
            assert(is_polling(line, *handle, cursor, r));
        }
        r
    }

    fn ask_for_turn(&mut self, call: &TurnCallV1, request: WorkerProviderTurnRequestV1) -> (r:
        Result<ProviderTurnHandleV1, RuntimeError>)
        ensures
            *final(self) == (AutonomousControllerV1 { provider: final(self).provider, ..*old(self) }),
            takes_turn(old(self).provider, *call, request, r),
            exists|line: &mut P| #[trigger]
                is_taking(line, *call, request, r) && mut_ref_current(line) == old(self).provider
                    && mut_ref_future(line) == final(self).provider,
    {
        match call {
            TurnCallV1::Resume(_) => {
                let r: Result<ProviderTurnHandleV1, RuntimeError> = self.provider.resume_turn(
                    request,
                );
                proof {
                    let line = choose|line: &mut P| #[trigger]
                        call_ensures(P::resume_turn, (line, request), r) && mut_ref_current(line)
                            == old(self).provider && mut_ref_future(line) == self.provider;
                    assert(is_taking(line, *call, request, r));
                }
                r
            },
            TurnCallV1::Start => {
                let r: Result<ProviderTurnHandleV1, RuntimeError> = self.provider.start_turn(
                    request,
                );
                proof {
                    let line = choose|line: &mut P| #[trigger]
                        call_ensures(P::start_turn, (line, request), r) && mut_ref_current(line)
                            == old(self).provider && mut_ref_future(line) == self.provider;
                    assert(is_taking(line, *call, request, r));
                }
                r
            },
        }
    }

    fn open_conversation(&mut self, worker: &WorkerSessionId) -> (r: ProviderSessionV1)
        ensures
            *final(self) == (AutonomousControllerV1 { provider: final(self).provider, ..*old(self) }),
            opens_session(
                old(self).provider,
                old(self).policy.terms().provider_policy.primary_model@,
                worker@,
                r,
            ),
            exists|line: &mut P| #[trigger]
                is_opening(
                    line,
                    old(self).policy.terms().provider_policy.primary_model@,
                    worker@,
                    r,
                ) && mut_ref_current(line) == old(self).provider && mut_ref_future(line) == final(self).provider,
    {
        let contract: &AutonomousDevelopmentContractV1 = self.policy.contract();
        let r: ProviderSessionV1 = self.provider.create_session(
            contract.provider_policy.primary_model.as_str(),
            worker,
        );
        proof {
            let model = contract.provider_policy.primary_model@;
            let (line, model_name) = choose|line: &mut P, model_name: &str| #[trigger]
                call_ensures(P::create_session, (line, model_name, worker), r)
                    && mut_ref_current(line) == old(self).provider && mut_ref_future(line)
                    == self.provider && model_name@ == model;
            assert(is_opening(line, model, worker@, r));
        }
        r
    }

    fn work(&mut self, session: &mut SessionRecordV1, now_unix: u64) -> (r: Result<
        AutonomousControllerOutcomeV1,
        RuntimeError,
    >)
        requires
            old(session).wf(),
            !old(session).snapshot.state.is_end(),
            !old(self).cancel_requested,
            old(self).repair_attempts == old(session).snapshot.repair_attempts,
        ensures
            final(session).wf(),
            final(session).id() == old(session).id(),
            final(self).policy == old(self).policy,
            final(self).session_id == old(self).session_id,
            final(self).cancel_requested == old(self).cancel_requested,
            r is Ok ==> final(self).repair_attempts == final(session).snapshot.repair_attempts,
            final(self).provider == old(self).provider || exists|
                opening: &mut P,
                taking: &mut P,
                polling: &mut P,
            | #[trigger]
                is_work_asked(
                    old(self).parts(),
                    final(self).provider,
                    opening,
                    mut_ref_future(opening),
                    taking,
                    mut_ref_future(taking),
                    polling,
                    mut_ref_future(polling),
                    *old(session),
                ),
            final(self).verifier == old(self).verifier || exists|checking: &mut V, reviewing: &mut V|
                #[trigger]
                is_checked_by(
                    old(self).verifier,
                    final(self).verifier,
                    checking,
                    mut_ref_future(checking),
                    reviewing,
                    mut_ref_future(reviewing),
                ),
            is_work(old(self).parts(), final(self).parts(), *old(session), *final(session), now_unix, r),
    {
        let task_id: String = match session.queue.next_ready_task() {
            Some(task) => task.task_id.clone(),
            None => return Err(
                RuntimeError::Validation(
                    text("no dependency-satisfied autonomous task is ready"),
                ),
            ),
        };
        let ghost tasks = old(session).queue.tasks@;
        let ghost at = choose|i: int| #[trigger] is_next(tasks, i) && tasks[i].task_id == task_id;
        proof {
            lemma_task_ids_are_slugs(tasks, 0, at);
            assert(can_start(tasks, at));
        }
        let session_id: String = session.snapshot.session_id.clone();
        let worker: WorkerSessionId = match WorkerSessionId::new(
            plus("autonomy-", session_id.as_str()).as_str(),
        ) {
            Ok(worker) => worker,
            Err(message) => return Err(RuntimeError::Validation(message)),
        };
        let provider_session: ProviderSessionV1 = self.open_conversation(&worker);
        let ghost opening = choose|line: &mut P| #[trigger]
            is_opening(
                line,
                old(self).policy.terms().provider_policy.primary_model@,
                worker@,
                provider_session,
            ) && mut_ref_current(line) == old(self).provider && mut_ref_future(line)
                == self.provider;
        let ghost with_line = self.provider;
        assert(worker@ == worker_name(old(session).id()));
        assert(is_opening(
            opening,
            old(self).parts().policy.terms().provider_policy.primary_model@,
            worker_name(old(session).id()),
            provider_session,
        ));
        assert(is_work_asked(
            old(self).parts(),
            with_line,
            opening,
            mut_ref_future(opening),
            opening,
            mut_ref_future(opening),
            opening,
            mut_ref_future(opening),
            *old(session),
        )) by {
            reveal(is_work_asked);
        }
        let contract: &AutonomousDevelopmentContractV1 = self.policy.contract();
        let turn: ProviderTurnRequestV1 = turn_request(
            session_id.as_str(),
            worker,
            contract,
            self.policy.contract_hash(),
            task_id.as_str(),
        )?;
        if let Some(reason) = find_exhausted_budget(&session.snapshot, contract) {
            return escalate(session, reason);
        }
        let call: TurnCallV1 = turn_call(&session.snapshot);
        let ghost opened = provider_session;
        let request: WorkerProviderTurnRequestV1 = work_request(
            session,
            contract,
            self.policy.contract_hash(),
            task_id.as_str(),
            provider_session,
            turn,
        );
        assert(is_request_of(old(self).parts(), *old(session), task_id@, opened, request));
        prepare_turn(
            session,
            task_id.as_str(),
            request.provider_session.provider_session_id.as_str(),
        );
        session.consume_reply();
        let ghost prepared = *session;
        let ghost thread = request.provider_session.provider_session_id@;
        let event: &str = match &call {
            TurnCallV1::Resume(_) => "provider_repair_resumed",
            TurnCallV1::Start => "provider_turn_started",
        };
        let moved: Result<(), RuntimeError> = transition(
            session,
            AutonomousSessionStateV1::Running,
            event,
        );
        let ghost started = *session;
        assert(is_started(*old(session), prepared, started, task_id@, thread, moved is Ok));
        moved?;
        let ghost asked_for = request;
        let r: Result<AutonomousControllerOutcomeV1, RuntimeError> = self.take_turn(
            session,
            call,
            request,
            now_unix,
        );
        proof {
            let (taking, polling) = choose|taking: &mut P, polling: &mut P| #[trigger]
                is_turn_asked(
                    with_line,
                    self.provider,
                    taking,
                    mut_ref_future(taking),
                    polling,
                    mut_ref_future(polling),
                    call_for(old(session).snapshot),
                    asked_for,
                );
            assert(is_work_asked(
                old(self).parts(),
                self.provider,
                opening,
                mut_ref_future(opening),
                taking,
                mut_ref_future(taking),
                polling,
                mut_ref_future(polling),
                *old(session),
            )) by {
                reveal(is_work_asked);
            }
        }
        assert(is_taken_up::<P, V>(
            old(self).policy.terms(),
            old(self).verifier,
            self.verifier,
            *old(session),
            *session,
            old(self).last_handle,
            self.last_handle,
            task_id@,
            asked_for,
            now_unix,
            r,
        ));
        r
    }

    /// Asks the provider for a turn, and looks at what has come of it.
    fn take_turn(
        &mut self,
        session: &mut SessionRecordV1,
        call: TurnCallV1,
        request: WorkerProviderTurnRequestV1,
        now_unix: u64,
    ) -> (r: Result<AutonomousControllerOutcomeV1, RuntimeError>)
        requires
            old(session).wf(),
            old(session).snapshot.state == AutonomousSessionStateV1::Running,
            old(self).repair_attempts == old(session).snapshot.repair_attempts,
            !old(self).cancel_requested,
        ensures
            final(session).wf(),
            keeps_turn(*old(session), *final(session)),
            final(self).policy == old(self).policy,
            final(self).session_id == old(self).session_id,
            final(self).cancel_requested == old(self).cancel_requested,
            r is Ok ==> final(self).repair_attempts == final(session).snapshot.repair_attempts,
            exists|taking: &mut P, polling: &mut P| #[trigger]
                is_turn_asked(
                    old(self).provider,
                    final(self).provider,
                    taking,
                    mut_ref_future(taking),
                    polling,
                    mut_ref_future(polling),
                    call,
                    request,
                ),
            final(self).verifier == old(self).verifier || exists|checking: &mut V, reviewing: &mut V|
                #[trigger]
                is_checked_by(
                    old(self).verifier,
                    final(self).verifier,
                    checking,
                    mut_ref_future(checking),
                    reviewing,
                    mut_ref_future(reviewing),
                ),
            turn_goes_on::<P, V>(
                old(self).policy.terms(),
                old(self).verifier,
                final(self).verifier,
                *old(session),
                *final(session),
                old(self).last_handle,
                final(self).last_handle,
                call,
                request,
                now_unix,
                r,
            ),
            r is Ok && r->Ok_0.state == AutonomousSessionStateV1::CompletedVerified ==> is_proven(
                r->Ok_0,
                *final(session),
            ),
    {
        let ghost asked_for = request;
        let taken: Result<ProviderTurnHandleV1, RuntimeError> = self.ask_for_turn(&call, request);
        let ghost answer = taken;
        let ghost taking = choose|line: &mut P| #[trigger]
            is_taking(line, call, asked_for, answer) && mut_ref_current(line) == old(self).provider
                && mut_ref_future(line) == self.provider;
        let handle: ProviderTurnHandleV1 = match taken {
            Ok(handle) => handle,
            Err(e) => {
                assert(is_turn_asked(
                    old(self).provider,
                    self.provider,
                    taking,
                    mut_ref_future(taking),
                    taking,
                    mut_ref_future(taking),
                    call,
                    asked_for,
                )) by {
                    reveal(is_turn_asked);
                }
                return Err(e);
            },
        };
        self.last_handle = Some(handle.clone());
        persist_handle(session, &handle, 0);
        let ghost held = *session;
        let ghost looked_at = self.provider;
        let polled: Result<ProviderEventBatchV1, RuntimeError> = self.look_at_turn(&handle, 0);
        proof {
            let polling = choose|line: &mut P| #[trigger]
                is_polling(line, handle, 0, polled) && mut_ref_current(line) == looked_at
                    && mut_ref_future(line) == self.provider;
            assert(is_turn_asked(
                old(self).provider,
                self.provider,
                taking,
                mut_ref_future(taking),
                polling,
                mut_ref_future(polling),
                call,
                asked_for,
            )) by {
                reveal(is_turn_asked);
            }
        }
        let r: Result<AutonomousControllerOutcomeV1, RuntimeError> = match polled {
            Ok(batch) => self.finish_turn(session, batch, now_unix),
            Err(e) => Err(e),
        };
        assert(handle_goes_on::<P, V>(
            old(self).policy.terms(),
            old(self).verifier,
            self.verifier,
            *old(session),
            *session,
            handle,
            self.last_handle,
            now_unix,
            r,
        ));
        r
    }

    fn finish_turn(
        &mut self,
        session: &mut SessionRecordV1,
        batch: ProviderEventBatchV1,
        now_unix: u64,
    ) -> (r: Result<AutonomousControllerOutcomeV1, RuntimeError>)
        requires
            old(session).wf(),
            old(session).snapshot.state == AutonomousSessionStateV1::Running,
            old(self).repair_attempts == old(session).snapshot.repair_attempts,
            !old(self).cancel_requested,
        ensures
            final(session).wf(),
            keeps_turn(*old(session), *final(session)),
            final(self).policy == old(self).policy,
            final(self).session_id == old(self).session_id,
            final(self).cancel_requested == old(self).cancel_requested,
            final(self).provider == old(self).provider,
            final(self).verifier == old(self).verifier || exists|checking: &mut V, reviewing: &mut V|
                #[trigger]
                is_checked_by(
                    old(self).verifier,
                    final(self).verifier,
                    checking,
                    mut_ref_future(checking),
                    reviewing,
                    mut_ref_future(reviewing),
                ),
            r is Ok ==> final(self).repair_attempts == final(session).snapshot.repair_attempts,
            is_finished(
                old(self).policy.terms(),
                old(self).verifier,
                final(self).verifier,
                *old(session),
                *final(session),
                old(self).last_handle,
                final(self).last_handle,
                batch,
                now_unix,
                r,
            ),
            r is Ok && r->Ok_0.state == AutonomousSessionStateV1::CompletedVerified ==> is_proven(
                r->Ok_0,
                *final(session),
            ),
    {
        if let Some(thread) = &batch.provider_session_id {
            let handle: Option<ProviderTurnHandleV1> = self.last_handle.take();
            if let Some(handle) = handle {
                let renamed: ProviderTurnHandleV1 = ProviderTurnHandleV1 {
                    provider_id: handle.provider_id,
                    handle_id: handle.handle_id,
                    provider_session_id: thread.clone(),
                    worker_session_id: handle.worker_session_id,
                    turn_id: handle.turn_id,
                };
                persist_handle(session, &renamed, batch.next_cursor);
                self.last_handle = Some(renamed);
            }
        }
        match judge_batch(&batch) {
            BatchVerdictV1::StillRunning => {
                if let Some(handle) = &self.last_handle {
                    persist_handle(session, handle, batch.next_cursor);
                }
                Ok(bare(AutonomousSessionStateV1::Running, batch.events.len()))
            },
            BatchVerdictV1::RateLimited => pause_for_rate_limit(
                session,
                self.policy.contract().rate_limit_policy.initial_backoff_seconds,
                now_unix,
                batch.events.len(),
            ),
            BatchVerdictV1::TerminalError => escalate(
                session,
                EscalationReasonV1::ProviderTerminalError,
            ),
            BatchVerdictV1::Verify => self.verify_turn(session, batch.events.len()),
        }
    }

    /// Has the work of a turn verified, and reviewed where it is the last.
    fn verify_turn(&mut self, session: &mut SessionRecordV1, provider_events: usize) -> (r: Result<
        AutonomousControllerOutcomeV1,
        RuntimeError,
    >)
        requires
            old(session).wf(),
            old(self).repair_attempts == old(session).snapshot.repair_attempts,
        ensures
            final(session).wf(),
            keeps_turn(*old(session), *final(session)),
            final(self).policy == old(self).policy,
            final(self).session_id == old(self).session_id,
            final(self).cancel_requested == old(self).cancel_requested,
            r is Ok ==> final(self).repair_attempts == final(session).snapshot.repair_attempts,
            final(self).provider == old(self).provider,
            final(self).verifier == old(self).verifier || exists|checking: &mut V, reviewing: &mut V|
                #[trigger]
                is_checked_by(
                    old(self).verifier,
                    final(self).verifier,
                    checking,
                    mut_ref_future(checking),
                    reviewing,
                    mut_ref_future(reviewing),
                ),
            final(self).last_handle == old(self).last_handle,
            exists|verifying: SessionRecordV1, logged: bool| #[trigger]
                is_verified_turn(
                    *old(session),
                    verifying,
                    *final(session),
                    old(self).verifier,
                    old(self).policy.terms().verification_policy.require_final_review,
                    provider_events,
                    r,
                    logged,
                ),
            r is Ok && r->Ok_0.state == AutonomousSessionStateV1::CompletedVerified ==> is_proven(
                r->Ok_0,
                *final(session),
            ),
    {
        let ghost required = self.policy.terms().verification_policy.require_final_review;
        let moved: Result<(), RuntimeError> = transition(
            session,
            AutonomousSessionStateV1::Verifying,
            "independent_verification_started",
        );
        let ghost verifying = *session;
        if let Err(e) = moved {
            let r: Result<AutonomousControllerOutcomeV1, RuntimeError> = Err(e);
            assert(is_verified_turn(
                *old(session),
                verifying,
                *session,
                old(self).verifier,
                required,
                provider_events,
                r,
                false,
            ));
            return r;
        }
        let checked: Result<(VerificationSummaryV1, String), RuntimeError> = self.verifier.verify();
        assert(verifies(old(self).verifier, checked));
        let ghost checks = self.verifier;
        assert(exists|line: &mut V| #[trigger]
            call_ensures(V::verify, (line,), checked) && mut_ref_current(line) == old(self).verifier
                && mut_ref_future(line) == checks);
        let ghost told = checked;
        let ghost checking = choose|line: &mut V| #[trigger]
            call_ensures(V::verify, (line,), told) && mut_ref_current(line) == old(self).verifier
                && mut_ref_future(line) == checks;
        assert(is_checked_by(
            old(self).verifier,
            checks,
            checking,
            mut_ref_future(checking),
            checking,
            mut_ref_future(checking),
        )) by {
            reveal(is_checked_by);
        }
        let (verification, diff): (VerificationSummaryV1, String) = match checked {
            Ok(found) => found,
            Err(e) => {
                let r: Result<AutonomousControllerOutcomeV1, RuntimeError> = Err(e);
                assert(is_verified_turn(
                    *old(session),
                    verifying,
                    *session,
                    old(self).verifier,
                    required,
                    provider_events,
                    r,
                    true,
                ));
                return r;
            },
        };
        let ghost found = verification;
        let ghost found_diff = diff@;
        let r: Result<AutonomousControllerOutcomeV1, RuntimeError> = self.judge_work(
            session,
            provider_events,
            verification,
            diff,
        );
        assert(is_judged::<V>(verifying, *session, required, provider_events, found, found_diff, r));
        proof {
            if self.verifier != checks {
                let (line, review) = choose|line: &mut V, review: Result<String, RuntimeError>|
                    #[trigger]
                    is_reviewing(line, found, found_diff, review) && mut_ref_current(line) == checks
                        && mut_ref_future(line) == self.verifier;
                assert(is_checked_by(
                    old(self).verifier,
                    self.verifier,
                    checking,
                    mut_ref_future(checking),
                    line,
                    mut_ref_future(line),
                )) by {
                    reveal(is_checked_by);
                }
            }
        }
        assert(is_verified_turn(
            *old(session),
            verifying,
            *session,
            old(self).verifier,
            required,
            provider_events,
            r,
            true,
        ));
        r
    }

    /// Goes on from what the verifier found.
    fn judge_work(
        &mut self,
        session: &mut SessionRecordV1,
        provider_events: usize,
        verification: VerificationSummaryV1,
        diff: String,
    ) -> (r: Result<AutonomousControllerOutcomeV1, RuntimeError>)
        requires
            old(session).wf(),
            old(self).repair_attempts == old(session).snapshot.repair_attempts,
        ensures
            final(session).wf(),
            keeps_turn(*old(session), *final(session)),
            final(self).policy == old(self).policy,
            final(self).session_id == old(self).session_id,
            final(self).cancel_requested == old(self).cancel_requested,
            r is Ok ==> final(self).repair_attempts == final(session).snapshot.repair_attempts,
            final(self).provider == old(self).provider,
            final(self).verifier == old(self).verifier || exists|
                line: &mut V,
                review: Result<String, RuntimeError>,
            | #[trigger]
                is_reviewing(line, verification, diff@, review) && mut_ref_current(line) == old(self).verifier
                    && mut_ref_future(line) == final(self).verifier,
            final(self).last_handle == old(self).last_handle,
            is_judged::<V>(
                *old(session),
                *final(session),
                old(self).policy.terms().verification_policy.require_final_review,
                provider_events,
                verification,
                diff@,
                r,
            ),
            r is Ok && r->Ok_0.state == AutonomousSessionStateV1::CompletedVerified ==> is_proven(
                r->Ok_0,
                *final(session),
            ),
    {
        let settled: VerifiedStepV1 = settle_verification(
            session,
            self.repair_attempts,
            &verification,
            diff.as_str(),
        )?;
        match settled {
            VerifiedStepV1::Stopped(outcome) => {
                self.repair_attempts = session.snapshot.repair_attempts;
                Ok(outcome)
            },
            VerifiedStepV1::Review => {
                let ghost set = *session;
                let ghost reviewer = self.verifier;
                let reviewed: Result<String, RuntimeError> = self.verifier.final_review(
                    &verification,
                    diff.as_str(),
                );
                assert(reviews(reviewer, verification, diff@, reviewed));
                proof {
                    let (line, shown) = choose|line: &mut V, shown: &str| #[trigger]
                        call_ensures(V::final_review, (line, &verification, shown), reviewed)
                            && mut_ref_current(line) == reviewer && mut_ref_future(line)
                            == self.verifier && shown@ == diff@;
                    assert(is_reviewing(line, verification, diff@, reviewed));
                }
                let ghost answered = reviewed;
                let review: Option<String> = match reviewed {
                    Ok(review) => Some(review),
                    Err(_) => None,
                };
                let required: bool = self.policy.contract().verification_policy.require_final_review;
                let ghost found = verification;
                let ghost found_diff = diff@;
                let r: Result<AutonomousControllerOutcomeV1, RuntimeError> = settle_review(
                    session,
                    required,
                    provider_events,
                    verification,
                    diff,
                    review,
                );
                assert(is_last_task_reviewed(
                    *old(session),
                    set,
                    *session,
                    reviewer,
                    required,
                    provider_events,
                    found,
                    found_diff,
                    answered,
                    r,
                ));
                r
            },
        }
    }

    /// Stops a session: the turn that is under way, where the provider can, and then
    /// the session itself.
    pub fn cancel(&mut self, store: &mut AutonomousStateStoreV1) -> (r: Result<(), RuntimeError>)
        requires
            old(store).wf(),
        ensures
            final(store).wf(),
            final(self).cancel_requested,
            final(self).policy == old(self).policy,
            final(self).session_id == old(self).session_id,
            final(self).last_handle == old(self).last_handle,
            final(self).repair_attempts == old(self).repair_attempts,
            final(self).verifier == old(self).verifier,
            ({
                let id = old(self).session_id@;
                let before = old(store).session(id);
                let after = final(store).session(id);
                if !old(store).reaches(id) {
                    &&& *final(store) == *old(store)
                    &&& final(self).provider == old(self).provider
                    &&& r is Err
                    &&& exists|e: AutonomyStateError| #[trigger]
                        old(store).misses(id, e) && is_store_failure(r->Err_0, e)
                } else {
                    &&& final(store).replaces(*old(store), id, after)
                    &&& exists|stopped: Result<(), RuntimeError>| #[trigger]
                        is_turn_stopped(
                            old(self).provider,
                            final(self).provider,
                            old(self).last_handle,
                            stopped,
                        ) && match stopped {
                            Ok(_) => moves(
                                with_cancellation(before),
                                after,
                                AutonomousSessionStateV1::Cancelled,
                                "cancellation_requested"@,
                                r is Ok,
                            ) && (r is Err ==> is_ahead_failure(r->Err_0)),
                            Err(e) => after == with_cancellation(before) && r == Err::<
                                (),
                                RuntimeError,
                            >(e),
                        }
                }
            }),
            final(self).provider == old(self).provider || exists|
                line: &mut P,
                stopped: Result<(), RuntimeError>,
            | #[trigger]
                is_stopping(line, old(self).last_handle->0, stopped) && mut_ref_current(line) == old(self).provider
                    && mut_ref_future(line) == final(self).provider,
    {
        self.cancel_requested = true;
        let i: usize = match store.locate(self.session_id.as_str()) {
            Ok(i) => i,
            Err(e) => {
                assert(old(store).misses(old(self).session_id@, e));
                return Err(e.into_runtime_error());
            },
        };
        let ghost id = self.session_id@;
        store.sessions[i].snapshot.cancellation_requested = true;
        proof {
            store.lemma_replaced(*old(store), i as int, id);
        }
        let stopped: Result<(), RuntimeError> = self.stop_turn();
        assert(is_turn_stopped(
            old(self).provider,
            self.provider,
            old(self).last_handle,
            stopped,
        ));
        if let Err(e) = stopped {
            return Err(e);
        }
        let r: Result<(), RuntimeError> = transition(
            &mut store.sessions[i],
            AutonomousSessionStateV1::Cancelled,
            "cancellation_requested",
        );
        proof {
            store.lemma_replaced(*old(store), i as int, id);
        }
        r
    }

    /// Tells the provider to stop the turn that is under way, where there is one and the
    /// provider can.
    fn stop_turn(&mut self) -> (r: Result<(), RuntimeError>)
        ensures
            *final(self) == (AutonomousControllerV1 { provider: final(self).provider, ..*old(self) }),
            is_turn_stopped(old(self).provider, final(self).provider, old(self).last_handle, r),
            final(self).provider == old(self).provider || exists|
                line: &mut P,
                stopped: Result<(), RuntimeError>,
            | #[trigger]
                is_stopping(line, old(self).last_handle->0, stopped) && mut_ref_current(line) == old(self).provider
                    && mut_ref_future(line) == final(self).provider,
    {
        if self.last_handle.is_none() {
            return Ok(());
        }
        let capabilities: ProviderCapabilitiesV1 = self.provider.capabilities();
        let ghost asked = self.provider;
        assert(call_ensures(P::capabilities, (&asked,), capabilities));
        match turn_to_stop(&self.last_handle, &capabilities) {
            Some(handle) => {
                let told: Result<(), RuntimeError> = self.provider.cancel(&handle);
                assert(stops_turn(asked, handle, told));
                proof {
                    let line = choose|line: &mut P| #[trigger]
                        call_ensures(P::cancel, (line, &handle), told) && mut_ref_current(line)
                            == asked && mut_ref_future(line) == self.provider;
                    assert(is_stopping(line, old(self).last_handle->0, told));
                }
                told
            },
            None => Ok(()),
        }
    }
}

/// The turn that was under way is stopped: where there is one, the provider says what it
/// can do, and is told to stop the turn if it can.
pub open spec fn is_turn_stopped<P: WorkerProviderV1>(
    provider: P,
    new_provider: P,
    handle: Option<ProviderTurnHandleV1>,
    r: Result<(), RuntimeError>,
) -> bool {
    match handle {
        None => new_provider == provider && r is Ok,
        Some(handle) => exists|capabilities: ProviderCapabilitiesV1| #[trigger]
            call_ensures(P::capabilities, (&provider,), capabilities)
                && if capabilities.supports_cancellation {
                stops_turn(provider, handle, r)
            } else {
                new_provider == provider && r is Ok
            },
    }
}

/// `session` with the wish to cancel it noted.
pub open spec fn with_cancellation(session: SessionRecordV1) -> SessionRecordV1 {
    SessionRecordV1 {
        snapshot: AutonomousSessionSnapshotV1 { cancellation_requested: true, ..session.snapshot },
        ..session
    }
}

/// What working does.
pub open spec fn is_work<P: WorkerProviderV1, V: AutonomousVerifierV1>(
    old_controller: ControllerParts<P, V>,
    new_controller: ControllerParts<P, V>,
    before: SessionRecordV1,
    after: SessionRecordV1,
    now_unix: u64,
    r: Result<AutonomousControllerOutcomeV1, RuntimeError>,
) -> bool {
    let tasks = before.queue.tasks@;
    if !some_can_start(tasks) {
        &&& after == before
        &&& is_untouched(old_controller, new_controller)
        &&& r matches Err(RuntimeError::Validation(message)) && message@
            == "no dependency-satisfied autonomous task is ready"@
    } else {
        exists|i: int| #[trigger]
            is_next(tasks, i) && is_worked(
                old_controller,
                new_controller,
                before,
                after,
                tasks[i].task_id@,
                now_unix,
                r,
            )
    }
}

/// What looking at the turn that is under way does.
pub open spec fn is_looked_at<P: WorkerProviderV1, V: AutonomousVerifierV1>(
    old_controller: ControllerParts<P, V>,
    new_controller: ControllerParts<P, V>,
    before: SessionRecordV1,
    after: SessionRecordV1,
    handle: ProviderTurnHandleV1,
    cursor: u64,
    now_unix: u64,
    r: Result<AutonomousControllerOutcomeV1, RuntimeError>,
) -> bool {
    exists|polled: Result<ProviderEventBatchV1, RuntimeError>| #[trigger]
        polls(old_controller.provider, handle, cursor, polled) && match polled {
            Ok(batch) => is_finished(
                old_controller.policy.terms(),
                old_controller.verifier,
                new_controller.verifier,
                before,
                after,
                Some(handle),
                new_controller.last_handle,
                batch,
                now_unix,
                r,
            ),
            Err(e) => {
                &&& after == before
                &&& new_controller.last_handle == Some(handle)
                &&& new_controller.verifier == old_controller.verifier
                &&& r == Err::<AutonomousControllerOutcomeV1, RuntimeError>(e)
            },
        }
}

/// What one step does.
pub open spec fn is_step<P: WorkerProviderV1, V: AutonomousVerifierV1>(
    old_controller: ControllerParts<P, V>,
    new_controller: ControllerParts<P, V>,
    cancel_requested: bool,
    before: SessionRecordV1,
    after: SessionRecordV1,
    now_unix: u64,
    r: Result<AutonomousControllerOutcomeV1, RuntimeError>,
) -> bool {
    let contract = old_controller.policy.terms();
    let handle = old_controller.last_handle;
    match step_of(
        before.snapshot,
        contract,
        cancel_requested,
        handle is Some,
        now_unix,
    ) {
        ControllerStepV1::Cancel => {
            &&& is_untouched(old_controller, new_controller)
            &&& moves(
                before,
                after,
                AutonomousSessionStateV1::Cancelled,
                "cancellation_requested"@,
                r is Ok,
            )
            &&& match r {
                Ok(outcome) => outcome == bare_outcome(AutonomousSessionStateV1::Cancelled, 0),
                Err(e) => is_ahead_failure(e),
            }
        },
        ControllerStepV1::Report(state) => {
            &&& is_untouched(old_controller, new_controller)
            &&& after == before
            &&& r == Ok::<AutonomousControllerOutcomeV1, RuntimeError>(bare_outcome(state, 0))
        },
        ControllerStepV1::Escalate(reason) => {
            &&& is_untouched(old_controller, new_controller)
            &&& escalates(before, after, reason.name(), r is Ok)
            &&& match r {
                Ok(outcome) => outcome == bare_outcome(
                    AutonomousSessionStateV1::WaitingForChatgpt,
                    0,
                ),
                Err(e) => is_ahead_failure(e),
            }
        },
        ControllerStepV1::ExpireLease => {
            &&& is_untouched(old_controller, new_controller)
            &&& moves(
                before,
                after,
                AutonomousSessionStateV1::LeaseExpired,
                "lease_expired"@,
                r is Ok,
            )
            &&& match r {
                Ok(outcome) => outcome == bare_outcome(AutonomousSessionStateV1::LeaseExpired, 0),
                Err(e) => is_ahead_failure(e),
            }
        },
        ControllerStepV1::Poll(cursor) => {
            &&& keeps_turn(before, after)
            &&& is_looked_at(
                old_controller,
                new_controller,
                before,
                after,
                handle->0,
                cursor,
                now_unix,
                r,
            )
            &&& r is Ok && r->Ok_0.state == AutonomousSessionStateV1::CompletedVerified
                ==> is_proven(r->Ok_0, after)
        },
        ControllerStepV1::Work => is_work(
            old_controller,
            new_controller,
            before,
            after,
            now_unix,
            r,
        ),
    }
}

/// However a provider and a verifier behave: a session that was not over is reported
/// as complete only with the evidence that is kept of it, namely that verification
/// passed, a diff and a review.
pub proof fn lemma_completion_is_proven<P: WorkerProviderV1, V: AutonomousVerifierV1>(
    old_controller: ControllerParts<P, V>,
    new_controller: ControllerParts<P, V>,
    cancel_requested: bool,
    before: SessionRecordV1,
    after: SessionRecordV1,
    now_unix: u64,
    outcome: AutonomousControllerOutcomeV1,
)
    requires
        is_step(old_controller, new_controller, cancel_requested, before, after, now_unix, Ok(outcome)),
        !before.snapshot.state.is_end(),
        outcome.state == AutonomousSessionStateV1::CompletedVerified,
    ensures
        is_proven(outcome, after),
{
}

/// However a provider and a verifier behave: no step takes more turns than the lease
/// allows.
pub proof fn lemma_turns_are_bounded<P: WorkerProviderV1, V: AutonomousVerifierV1>(
    old_controller: ControllerParts<P, V>,
    new_controller: ControllerParts<P, V>,
    cancel_requested: bool,
    before: SessionRecordV1,
    after: SessionRecordV1,
    now_unix: u64,
    r: Result<AutonomousControllerOutcomeV1, RuntimeError>,
)
    requires
        is_step(old_controller, new_controller, cancel_requested, before, after, now_unix, r),
    ensures
        after.snapshot.provider_turn_count == before.snapshot.provider_turn_count || (
        after.snapshot.provider_turn_count == before.snapshot.provider_turn_count + 1
            && after.snapshot.provider_turn_count
            <= old_controller.policy.terms().autonomy_lease.maximum_provider_turns),
{
}

proof fn lemma_task_ids_are_slugs(tasks: Seq<AutonomousQueueTaskV1>, from: int, at: int)
    requires
        tasks_refusal(tasks, from) is None,
        0 <= from <= at < tasks.len(),
    ensures
        is_slug(tasks[at].task_id@),
    decreases at - from,
{
    if from < at {
        lemma_task_ids_are_slugs(tasks, from + 1, at);
    }
}

} // verus!
