//! The lasting state of autonomous sessions: where each stands, its queue of tasks,
//! its events, its escalation and the answer to it, and the evidence of completion.
//!
//! No credential and no path of a program is kept. A restart leaves work that was in
//! flight as `RecoveringAfterRestart`: nothing is taken up again before continuity
//! and policy were looked at.

use vstd::prelude::*;
use vstd::string::*;
use crate::autonomous_contract::{
    AutonomousDevelopmentContractV1, autonomous_refusal, is_slug, validate_slug,
};
use crate::coordinator::VerificationSummaryV1;
use crate::json::{
    array, array_text, field, field_text, json_string, object, object_text, quoted, string_array,
    string_array_text,
};
use crate::laws_session::lemma_dependencies_are_complete;
use crate::provider::RuntimeError;
use crate::sorting::lemma_filter_last;
use crate::text::{
    before, blank, byte_len, copy_list, copy_opt, debug_variant, debug_variant_text, decimal,
    is_alnum, is_blank, lemma_ascii_utf8_len, lemma_decimal, lemma_text_before, list_has,
    opt_text, plus, same, text, text_before, texts, to_decimal, utf8_len,
};

verus! {

/// The version of every record of this module.
pub const AUTONOMY_STATE_SCHEMA_VERSION: u32 = 1;

/// Where a session stands.
#[derive(Clone, Copy, Debug, PartialEq, Eq, Structural)]
pub enum AutonomousSessionStateV1 {
    Draft,
    Queued,
    Running,
    Verifying,
    WaitingForChatgpt,
    WaitingForUser,
    RateLimited,
    Paused,
    CompletedVerified,
    Blocked,
    Failed,
    Cancelled,
    LeaseExpired,
    CreditBudgetExhausted,
    RecoveringAfterRestart,
}

impl AutonomousSessionStateV1 {
    /// The session is over.
    pub open spec fn is_end(self) -> bool {
        self == AutonomousSessionStateV1::CompletedVerified || self
            == AutonomousSessionStateV1::Blocked || self == AutonomousSessionStateV1::Failed || self
            == AutonomousSessionStateV1::Cancelled || self == AutonomousSessionStateV1::LeaseExpired
            || self == AutonomousSessionStateV1::CreditBudgetExhausted
    }

    /// Work is in flight.
    pub open spec fn in_flight(self) -> bool {
        self == AutonomousSessionStateV1::Running || self == AutonomousSessionStateV1::Verifying
    }

    /// Whether the session is over.
    pub fn is_terminal(&self) -> (r: bool)
        ensures
            r == self.is_end(),
    {
        matches!(
            self,
            AutonomousSessionStateV1::CompletedVerified
                | AutonomousSessionStateV1::Blocked
                | AutonomousSessionStateV1::Failed
                | AutonomousSessionStateV1::Cancelled
                | AutonomousSessionStateV1::LeaseExpired
                | AutonomousSessionStateV1::CreditBudgetExhausted
        )
    }

    fn needs_restart_recovery(&self) -> (r: bool)
        ensures
            r == self.in_flight(),
    {
        matches!(self, AutonomousSessionStateV1::Running | AutonomousSessionStateV1::Verifying)
    }
}

/// How far a task of the queue has come.
#[derive(Clone, Copy, Debug, PartialEq, Eq, Structural)]
pub enum AutonomousQueueTaskStateV1 {
    Planned,
    Ready,
    Running,
    Verifying,
    WaitingForChatgpt,
    WaitingForUser,
    RateLimited,
    Paused,
    CompletedVerified,
    Failed,
    Cancelled,
}

/// Where a session stands, with all that is needed to take it up again.
#[derive(Debug, PartialEq, Eq)]
pub struct AutonomousSessionSnapshotV1 {
    pub schema_version: u32,
    pub session_id: String,
    pub state: AutonomousSessionStateV1,
    pub current_task_id: Option<String>,
    pub provider_thread_id: Option<String>,
    pub provider_handle_id: Option<String>,
    pub provider_event_cursor: u64,
    pub repair_attempts: u32,
    pub last_verification_summary: Option<String>,
    pub provider_turn_count: u32,
    pub retry_not_before_unix: Option<u64>,
    pub rate_limited_since_unix: Option<u64>,
    pub cancellation_requested: bool,
    pub approved_contract_hash: Option<String>,
    /// Each key, with the hash of the action that it was used for.
    pub consumed_idempotency_keys: Vec<(String, String)>,
    pub last_event_sequence: u64,
    pub active: bool,
}

/// Two snapshots hold the same.
pub open spec fn same_snapshot(
    a: AutonomousSessionSnapshotV1,
    b: AutonomousSessionSnapshotV1,
) -> bool {
    &&& a == (AutonomousSessionSnapshotV1 {
        consumed_idempotency_keys: a.consumed_idempotency_keys,
        ..b
    })
    &&& a.consumed_idempotency_keys@ == b.consumed_idempotency_keys@
}

/// Two lists of snapshots hold the same.
pub open spec fn same_snapshots(
    a: Seq<AutonomousSessionSnapshotV1>,
    b: Seq<AutonomousSessionSnapshotV1>,
) -> bool {
    &&& a.len() == b.len()
    &&& forall|i: int| 0 <= i < a.len() ==> same_snapshot(#[trigger] a[i], b[i])
}

fn copy_pairs(pairs: &Vec<(String, String)>) -> (r: Vec<(String, String)>)
    ensures
        r@ == pairs@,
{
    let mut r: Vec<(String, String)> = Vec::new();
    let mut i: usize = 0;
    while i < pairs.len()
        invariant
            i <= pairs@.len(),
            r@ == pairs@.take(i as int),
        decreases pairs@.len() - i,
    {
        r.push((pairs[i].0.clone(), pairs[i].1.clone()));
        assert(r@ =~= pairs@.take(i + 1));
        i += 1;
    }
    assert(pairs@.take(i as int) =~= pairs@);
    r
}

impl Clone for AutonomousSessionSnapshotV1 {
    fn clone(&self) -> (r: Self)
        ensures
            same_snapshot(r, *self),
    {
        AutonomousSessionSnapshotV1 {
            schema_version: self.schema_version,
            session_id: self.session_id.clone(),
            state: self.state,
            current_task_id: copy_opt(&self.current_task_id),
            provider_thread_id: copy_opt(&self.provider_thread_id),
            provider_handle_id: copy_opt(&self.provider_handle_id),
            provider_event_cursor: self.provider_event_cursor,
            repair_attempts: self.repair_attempts,
            last_verification_summary: copy_opt(&self.last_verification_summary),
            provider_turn_count: self.provider_turn_count,
            retry_not_before_unix: self.retry_not_before_unix,
            rate_limited_since_unix: self.rate_limited_since_unix,
            cancellation_requested: self.cancellation_requested,
            approved_contract_hash: copy_opt(&self.approved_contract_hash),
            consumed_idempotency_keys: copy_pairs(&self.consumed_idempotency_keys),
            last_event_sequence: self.last_event_sequence,
            active: self.active,
        }
    }
}

/// A task, with the tasks that must be verified before it can start.
#[derive(Clone, Debug, PartialEq, Eq)]
pub struct AutonomousQueueTaskV1 {
    pub task_id: String,
    pub priority: u32,
    pub depends_on: Vec<String>,
    pub state: AutonomousQueueTaskStateV1,
}

/// The tasks of a session.
#[derive(Clone, Debug, PartialEq, Eq)]
pub struct AutonomousQueueV1 {
    pub schema_version: u32,
    pub tasks: Vec<AutonomousQueueTaskV1>,
}

impl Default for AutonomousQueueV1 {
    fn default() -> (r: Self)
        ensures
            r.schema_version == 0,
            r.tasks@.len() == 0,
    {
        AutonomousQueueV1 { schema_version: 0, tasks: Vec::new() }
    }
}

/// One thing that happened in a session.
#[derive(Debug, PartialEq, Eq)]
pub struct AutonomousEventV1 {
    pub schema_version: u32,
    pub session_id: String,
    pub sequence: u64,
    pub kind: String,
    pub summary: String,
}

impl Clone for AutonomousEventV1 {
    fn clone(&self) -> (r: Self)
        ensures
            r == *self,
    {
        AutonomousEventV1 {
            schema_version: self.schema_version,
            session_id: self.session_id.clone(),
            sequence: self.sequence,
            kind: self.kind.clone(),
            summary: self.summary.clone(),
        }
    }
}

/// A bounded request for a decision. It holds no transcript of a provider, no
/// credential, no endpoint and no diagnostics without a bound.
#[derive(Debug, PartialEq, Eq)]
pub struct AutonomousEscalationPacketV1 {
    pub schema_version: u32,
    pub session_id: String,
    pub escalation_id: String,
    pub state: AutonomousSessionStateV1,
    pub reason: String,
    pub repair_attempts: u32,
}

impl Clone for AutonomousEscalationPacketV1 {
    fn clone(&self) -> (r: Self)
        ensures
            r == *self,
    {
        AutonomousEscalationPacketV1 {
            schema_version: self.schema_version,
            session_id: self.session_id.clone(),
            escalation_id: self.escalation_id.clone(),
            state: self.state,
            reason: self.reason.clone(),
            repair_attempts: self.repair_attempts,
        }
    }
}

/// A bounded answer to an escalation. It is used once, before the session goes on.
#[derive(Clone, Debug, PartialEq, Eq)]
pub struct AutonomousPlannerReplyV1 {
    pub schema_version: u32,
    pub session_id: String,
    pub escalation_id: String,
    pub decision_hash: String,
    pub decision: String,
    pub constraints: Vec<String>,
    pub consumed: bool,
}

/// The evidence without which no session is complete. It is kept before the session
/// ends.
#[derive(Clone, Debug, PartialEq, Eq)]
pub struct AutonomousCompletionArtifactsV1 {
    pub schema_version: u32,
    pub session_id: String,
    pub verification: VerificationSummaryV1,
    pub authoritative_diff: String,
    pub final_review: String,
}

/// Why the store refuses something.
#[derive(Debug, PartialEq, Eq)]
pub enum AutonomyStateError {
    Io(String),
    Serde(String),
    Validation(String),
    SessionExists(String),
    SessionNotFound(String),
    LockHeld(String),
    LockOwnership(String),
}

impl AutonomyStateError {
    /// The error as `{:?}` prints it.
    pub open spec fn debug(self) -> Seq<char> {
        match self {
            AutonomyStateError::Io(s) => debug_variant("Io"@, s@),
            AutonomyStateError::Serde(s) => debug_variant("Serde"@, s@),
            AutonomyStateError::Validation(s) => debug_variant("Validation"@, s@),
            AutonomyStateError::SessionExists(s) => debug_variant("SessionExists"@, s@),
            AutonomyStateError::SessionNotFound(s) => debug_variant("SessionNotFound"@, s@),
            AutonomyStateError::LockHeld(s) => debug_variant("LockHeld"@, s@),
            AutonomyStateError::LockOwnership(s) => debug_variant("LockOwnership"@, s@),
        }
    }

    /// Prints the error as `{:?}` does.
    pub fn debug_text(&self) -> (r: String)
        ensures
            r@ == self.debug(),
    {
        match self {
            AutonomyStateError::Io(s) => debug_variant_text("Io", s.as_str()),
            AutonomyStateError::Serde(s) => debug_variant_text("Serde", s.as_str()),
            AutonomyStateError::Validation(s) => debug_variant_text("Validation", s.as_str()),
            AutonomyStateError::SessionExists(s) => debug_variant_text("SessionExists", s.as_str()),
            AutonomyStateError::SessionNotFound(s) => debug_variant_text(
                "SessionNotFound",
                s.as_str(),
            ),
            AutonomyStateError::LockHeld(s) => debug_variant_text("LockHeld", s.as_str()),
            AutonomyStateError::LockOwnership(s) => debug_variant_text("LockOwnership", s.as_str()),
        }
    }

    /// An error of the store, as those who work with providers see it.
    pub fn into_runtime_error(&self) -> (r: RuntimeError)
        ensures
            is_store_failure(r, *self),
    {
        RuntimeError::Provider(plus("autonomy state error: ", self.debug_text().as_str()))
    }
}

/// `r` reports the store's error `e`.
pub open spec fn is_store_failure(r: RuntimeError, e: AutonomyStateError) -> bool {
    r matches RuntimeError::Provider(message) && message@ == "autonomy state error: "@ + e.debug()
}

// ---------------------------------------------------------------------------
// Names

/// What is said of a value that is no slug.
pub open spec fn no_slug_message(label: Seq<char>) -> Seq<char> {
    label + " must be a conservative non-empty slug"@
}

/// How a refusal reads once the store has passed it on.
pub open spec fn passed_on(message: Seq<char>) -> Seq<char> {
    debug_variant("Validation"@, message)
}

fn check_slug(value: &str, label: &str) -> (r: Result<(), RuntimeError>)
    ensures
        match r {
            Ok(_) => is_slug(value@),
            Err(RuntimeError::Validation(message)) => !is_slug(value@) && message@
                == no_slug_message(label@),
            Err(_) => false,
        },
{
    match validate_slug(value, label) {
        Ok(_) => Ok(()),
        Err(_) => Err(
            RuntimeError::Validation(plus(label, " must be a conservative non-empty slug")),
        ),
    }
}

fn validation_error(error: &RuntimeError) -> (r: AutonomyStateError)
    ensures
        r matches AutonomyStateError::Validation(message) && message@ == error.debug(),
{
    AutonomyStateError::Validation(error.debug_text())
}

fn stored_slug(value: &str, label: &str) -> (r: Result<(), AutonomyStateError>)
    ensures
        match r {
            Ok(_) => is_slug(value@),
            Err(AutonomyStateError::Validation(message)) => !is_slug(value@) && message@
                == passed_on(no_slug_message(label@)),
            Err(_) => false,
        },
{
    match check_slug(value, label) {
        Ok(_) => Ok(()),
        Err(error) => Err(validation_error(&error)),
    }
}

proof fn lemma_numbered_slug(n: u64)
    ensures
        is_slug("esc-"@ + decimal(n as nat)),
{
    let word = "esc-"@;
    let whole = word + decimal(n as nat);
    reveal_strlit("esc-");
    lemma_decimal(n as nat);
    assert forall|i: int| 0 <= i < whole.len() implies (is_alnum(#[trigger] whole[i]) || whole[i]
        == '-') && (whole[i] as nat) < 128 by {
        if i >= word.len() {
            assert(whole[i] == decimal(n as nat)[i - word.len()]);
        }
    }
    assert(vstd::utf8::is_ascii_chars(whole));
    lemma_ascii_utf8_len(whole);
}

// ---------------------------------------------------------------------------
// The queue

/// The task of this id is in the list.
pub open spec fn has_task(tasks: Seq<AutonomousQueueTaskV1>, id: Seq<char>) -> bool {
    exists|i: int| 0 <= i < tasks.len() && (#[trigger] tasks[i]).task_id@ == id
}

/// No two tasks have the same id.
pub open spec fn tasks_are_distinct(tasks: Seq<AutonomousQueueTaskV1>) -> bool {
    forall|i: int, j: int|
        0 <= i < j < tasks.len() ==> (#[trigger] tasks[i]).task_id@ != (#[trigger] tasks[j]).task_id@
}

/// Why the dependencies from `from` on are refused, if they are.
pub open spec fn dependencies_refusal(
    tasks: Seq<AutonomousQueueTaskV1>,
    depends_on: Seq<String>,
    from: int,
) -> Option<Seq<char>>
    decreases depends_on.len() - from,
{
    if from < 0 || from >= depends_on.len() {
        None
    } else if !is_slug(depends_on[from]@) {
        Some(no_slug_message("autonomous queue dependency"@))
    } else if !has_task(tasks, depends_on[from]@) {
        Some("autonomous queue dependency does not exist"@)
    } else {
        dependencies_refusal(tasks, depends_on, from + 1)
    }
}

/// Why the tasks from `from` on are refused, if they are.
pub open spec fn tasks_refusal(tasks: Seq<AutonomousQueueTaskV1>, from: int) -> Option<Seq<char>>
    decreases tasks.len() - from,
{
    if from < 0 || from >= tasks.len() {
        None
    } else if !is_slug(tasks[from].task_id@) {
        Some(no_slug_message("autonomous queue task id"@))
    } else if texts(tasks[from].depends_on@).contains(tasks[from].task_id@) {
        Some("autonomous queue task cannot depend on itself"@)
    } else if dependencies_refusal(tasks, tasks[from].depends_on@, 0) is Some {
        dependencies_refusal(tasks, tasks[from].depends_on@, 0)
    } else {
        tasks_refusal(tasks, from + 1)
    }
}

/// Every one of these tasks is verified.
pub open spec fn all_verified(tasks: Seq<AutonomousQueueTaskV1>, ids: Seq<String>) -> bool {
    forall|k: int| 0 <= k < ids.len() ==> is_verified(tasks, (#[trigger] ids[k])@)
}

/// The position of the first task of this id at or behind `from`, or the number of
/// tasks.
pub open spec fn task_from(tasks: Seq<AutonomousQueueTaskV1>, id: Seq<char>, from: int) -> int
    decreases tasks.len() - from,
{
    if from < 0 || from >= tasks.len() {
        tasks.len() as int
    } else if tasks[from].task_id@ == id {
        from
    } else {
        task_from(tasks, id, from + 1)
    }
}

/// The task of this id is verified.
pub open spec fn is_verified(tasks: Seq<AutonomousQueueTaskV1>, id: Seq<char>) -> bool {
    let i = task_from(tasks, id, 0);
    i < tasks.len() && tasks[i].state == AutonomousQueueTaskStateV1::CompletedVerified
}

/// The task at `i` can start.
pub open spec fn can_start(tasks: Seq<AutonomousQueueTaskV1>, i: int) -> bool {
    &&& 0 <= i < tasks.len()
    &&& tasks[i].state == AutonomousQueueTaskStateV1::Ready
    &&& all_verified(tasks, tasks[i].depends_on@)
}

/// `a` goes before `b`: it has the higher priority, or the smaller id at the same.
pub open spec fn goes_before(a: AutonomousQueueTaskV1, b: AutonomousQueueTaskV1) -> bool {
    a.priority > b.priority || (a.priority == b.priority && text_before(a.task_id@, b.task_id@))
}

/// The task at `i` is the one to take up next.
pub open spec fn is_next(tasks: Seq<AutonomousQueueTaskV1>, i: int) -> bool {
    &&& can_start(tasks, i)
    &&& forall|j: int| #[trigger] can_start(tasks, j) ==> !goes_before(tasks[j], tasks[i])
    &&& forall|j: int|
        #[trigger] can_start(tasks, j) && j < i ==> goes_before(tasks[i], tasks[j])
}

/// Some task can start.
pub open spec fn some_can_start(tasks: Seq<AutonomousQueueTaskV1>) -> bool {
    exists|i: int| can_start(tasks, i)
}

/// At most one task is the one to take up next, and there is one as soon as any task
/// can start.
pub proof fn lemma_next_task_is_unique(tasks: Seq<AutonomousQueueTaskV1>, i: int, j: int)
    requires
        is_next(tasks, i),
        is_next(tasks, j),
    ensures
        i == j,
{
    if i < j {
        assert(goes_before(tasks[j], tasks[i]));
    } else if j < i {
        assert(goes_before(tasks[i], tasks[j]));
    }
}

proof fn lemma_goes_before(a: AutonomousQueueTaskV1, b: AutonomousQueueTaskV1, c: AutonomousQueueTaskV1)
    ensures
        !goes_before(a, a),
        goes_before(a, b) ==> !goes_before(b, a),
        goes_before(a, b) && goes_before(b, c) ==> goes_before(a, c),
        goes_before(a, b) && !goes_before(c, b) ==> goes_before(a, c),
        goes_before(a, b) && !goes_before(a, c) ==> goes_before(c, b),
{
    lemma_text_before(a.task_id@, b.task_id@, c.task_id@);
    lemma_text_before(a.task_id@, c.task_id@, b.task_id@);
    lemma_text_before(b.task_id@, c.task_id@, a.task_id@);
    lemma_text_before(c.task_id@, a.task_id@, b.task_id@);
    lemma_text_before(c.task_id@, b.task_id@, a.task_id@);
}

impl AutonomousQueueV1 {
    /// Why the queue is refused, if it is.
    pub open spec fn refusal(self) -> Option<Seq<char>> {
        if self.schema_version != AUTONOMY_STATE_SCHEMA_VERSION {
            Some("unsupported autonomous queue schema version"@)
        } else if !tasks_are_distinct(self.tasks@) {
            Some("autonomous queue task ids must be unique"@)
        } else {
            tasks_refusal(self.tasks@, 0)
        }
    }

    /// A queue of these tasks.
    pub fn new(tasks: Vec<AutonomousQueueTaskV1>) -> (r: Result<Self, RuntimeError>)
        ensures
            ({
                let queue = AutonomousQueueV1 { schema_version: AUTONOMY_STATE_SCHEMA_VERSION, tasks };
                match r {
                    Ok(q) => queue.refusal() is None && q == queue,
                    Err(RuntimeError::Validation(message)) => queue.refusal() == Some(message@),
                    Err(_) => false,
                }
            }),
    {
        let queue: AutonomousQueueV1 = AutonomousQueueV1 {
            schema_version: AUTONOMY_STATE_SCHEMA_VERSION,
            tasks,
        };
        match queue.validate() {
            Ok(_) => Ok(queue),
            Err(error) => Err(error),
        }
    }

    /// Accepts a queue whose ids are distinct slugs and whose tasks depend on others
    /// in it.
    pub fn validate(&self) -> (r: Result<(), RuntimeError>)
        ensures
            match r {
                Ok(_) => self.refusal() is None,
                Err(RuntimeError::Validation(message)) => self.refusal() == Some(message@),
                Err(_) => false,
            },
    {
        if self.schema_version != AUTONOMY_STATE_SCHEMA_VERSION {
            return Err(RuntimeError::Validation(text("unsupported autonomous queue schema version")));
        }
        if !distinct_tasks(&self.tasks) {
            return Err(RuntimeError::Validation(text("autonomous queue task ids must be unique")));
        }
        let mut i: usize = 0;
        while i < self.tasks.len()
            invariant
                i <= self.tasks@.len(),
                self.refusal() == tasks_refusal(self.tasks@, i as int),
            decreases self.tasks@.len() - i,
        {
            let task: &AutonomousQueueTaskV1 = &self.tasks[i];
            check_slug(task.task_id.as_str(), "autonomous queue task id")?;
            if list_has(&task.depends_on, task.task_id.as_str()) {
                return Err(
                    RuntimeError::Validation(text("autonomous queue task cannot depend on itself")),
                );
            }
            self.check_dependencies(i)?;
            i += 1;
        }
        Ok(())
    }

    fn check_dependencies(&self, at: usize) -> (r: Result<(), RuntimeError>)
        requires
            at < self.tasks@.len(),
        ensures
            ({
                let refusal = dependencies_refusal(self.tasks@, self.tasks@[at as int].depends_on@, 0);
                match r {
                    Ok(_) => refusal is None,
                    Err(RuntimeError::Validation(message)) => refusal == Some(message@),
                    Err(_) => false,
                }
            }),
    {
        let depends_on: &Vec<String> = &self.tasks[at].depends_on;
        let mut k: usize = 0;
        while k < depends_on.len()
            invariant
                at < self.tasks@.len(),
                depends_on@ == self.tasks@[at as int].depends_on@,
                k <= depends_on@.len(),
                dependencies_refusal(self.tasks@, depends_on@, 0) == dependencies_refusal(
                    self.tasks@,
                    depends_on@,
                    k as int,
                ),
            decreases depends_on@.len() - k,
        {
            check_slug(depends_on[k].as_str(), "autonomous queue dependency")?;
            if !self.holds(depends_on[k].as_str()) {
                return Err(
                    RuntimeError::Validation(text("autonomous queue dependency does not exist")),
                );
            }
            k += 1;
        }
        Ok(())
    }

    fn holds(&self, id: &str) -> (r: bool)
        ensures
            r == has_task(self.tasks@, id@),
    {
        let i: usize = self.find(id);
        if i < self.tasks.len() {
            assert(self.tasks@[i as int].task_id@ == id@);
            true
        } else {
            false
        }
    }

    fn find(&self, id: &str) -> (r: usize)
        ensures
            r == task_from(self.tasks@, id@, 0),
            r <= self.tasks@.len(),
            r < self.tasks@.len() ==> self.tasks@[r as int].task_id@ == id@,
            forall|j: int| 0 <= j < r ==> (#[trigger] self.tasks@[j]).task_id@ != id@,
    {
        let mut i: usize = 0;
        while i < self.tasks.len()
            invariant
                i <= self.tasks@.len(),
                task_from(self.tasks@, id@, 0) == task_from(self.tasks@, id@, i as int),
                forall|j: int| 0 <= j < i ==> (#[trigger] self.tasks@[j]).task_id@ != id@,
            decreases self.tasks@.len() - i,
        {
            if same(self.tasks[i].task_id.as_str(), id) {
                return i;
            }
            i += 1;
        }
        i
    }

    fn is_startable(&self, at: usize) -> (r: bool)
        requires
            at < self.tasks@.len(),
        ensures
            r == can_start(self.tasks@, at as int),
    {
        if self.tasks[at].state != AutonomousQueueTaskStateV1::Ready {
            return false;
        }
        let depends_on: &Vec<String> = &self.tasks[at].depends_on;
        let mut k: usize = 0;
        while k < depends_on.len()
            invariant
                at < self.tasks@.len(),
                depends_on@ == self.tasks@[at as int].depends_on@,
                k <= depends_on@.len(),
                forall|j: int| 0 <= j < k ==> is_verified(self.tasks@, (#[trigger] depends_on@[j])@),
            decreases depends_on@.len() - k,
        {
            let i: usize = self.find(depends_on[k].as_str());
            if i >= self.tasks.len() || self.tasks[i].state
                != AutonomousQueueTaskStateV1::CompletedVerified {
                assert(!is_verified(self.tasks@, depends_on@[k as int]@));
                return false;
            }
            k += 1;
        }
        true
    }

    fn first_startable(&self) -> (r: Option<usize>)
        ensures
            match r {
                Some(i) => is_next(self.tasks@, i as int),
                None => !some_can_start(self.tasks@),
            },
    {
        let mut best: Option<usize> = None;
        let mut i: usize = 0;
        while i < self.tasks.len()
            invariant
                i <= self.tasks@.len(),
                match best {
                    Some(b) => {
                        &&& b < i
                        &&& can_start(self.tasks@, b as int)
                        &&& forall|j: int|
                            #[trigger] can_start(self.tasks@, j) && j < i ==> !goes_before(
                                self.tasks@[j],
                                self.tasks@[b as int],
                            )
                        &&& forall|j: int|
                            #[trigger] can_start(self.tasks@, j) && j < b ==> goes_before(
                                self.tasks@[b as int],
                                self.tasks@[j],
                            )
                    },
                    None => forall|j: int| #[trigger] can_start(self.tasks@, j) ==> j >= i,
                },
            decreases self.tasks@.len() - i,
        {
            if self.is_startable(i) {
                let better: bool = match best {
                    Some(b) => before_in_queue(&self.tasks[i], &self.tasks[b]),
                    None => true,
                };
                proof {
                    let t = self.tasks@;
                    assert forall|j: int| #[trigger] can_start(t, j) && j < i implies (better
                        ==> goes_before(t[i as int], t[j]) && !goes_before(t[j], t[i as int])) by {
                        if let Some(b) = best {
                            lemma_goes_before(t[i as int], t[b as int], t[j]);
                            lemma_goes_before(t[j], t[i as int], t[b as int]);
                        }
                    }
                    lemma_goes_before(t[i as int], t[i as int], t[i as int]);
                }
                if better {
                    best = Some(i);
                }
            }
            i += 1;
        }
        best
    }

    /// The task to take up next: of those that are ready and whose dependencies are
    /// all verified, the one of the highest priority.
    pub fn next_ready_task(&self) -> (r: Option<&AutonomousQueueTaskV1>)
        ensures
            match r {
                Some(task) => exists|i: int|
                    #[trigger] is_next(self.tasks@, i) && *task == self.tasks@[i],
                None => !some_can_start(self.tasks@),
            },
            r matches Some(task) ==> task.state == AutonomousQueueTaskStateV1::Ready && forall|k: int|
                0 <= k < task.depends_on@.len() ==> exists|j: int|
                    0 <= j < self.tasks@.len() && (#[trigger] self.tasks@[j]).task_id@ == (
                    #[trigger] task.depends_on@[k])@ && self.tasks@[j].state
                        == AutonomousQueueTaskStateV1::CompletedVerified,
    {
        match self.first_startable() {
            Some(i) => {
                assert(is_next(self.tasks@, i as int));
                proof {
                    let tasks = self.tasks@;
                    let ids = tasks[i as int].depends_on@;
                    assert forall|k: int| 0 <= k < ids.len() implies exists|j: int|
                        0 <= j < tasks.len() && (#[trigger] tasks[j]).task_id@ == (
                        #[trigger] ids[k])@ && tasks[j].state
                            == AutonomousQueueTaskStateV1::CompletedVerified by {
                        lemma_dependencies_are_complete(tasks, i as int, k);
                        let j = choose|j: int|
                            0 <= j < tasks.len() && (#[trigger] tasks[j]).task_id@ == ids[k]@
                                && tasks[j].state is CompletedVerified;
                        assert(tasks[j].state == AutonomousQueueTaskStateV1::CompletedVerified);
                    }
                }
                Some(&self.tasks[i])
            },
            None => None,
        }
    }
}

fn distinct_tasks(tasks: &Vec<AutonomousQueueTaskV1>) -> (r: bool)
    ensures
        r == tasks_are_distinct(tasks@),
{
    let mut j: usize = 0;
    while j < tasks.len()
        invariant
            j <= tasks@.len(),
            forall|a: int, b: int|
                0 <= a < b < j ==> (#[trigger] tasks@[a]).task_id@ != (#[trigger] tasks@[b]).task_id@,
        decreases tasks@.len() - j,
    {
        let mut i: usize = 0;
        while i < j
            invariant
                i <= j < tasks@.len(),
                forall|a: int| 0 <= a < i ==> (#[trigger] tasks@[a]).task_id@ != tasks@[j as int].task_id@,
            decreases j - i,
        {
            if same(tasks[i].task_id.as_str(), tasks[j].task_id.as_str()) {
                assert(tasks@[i as int].task_id@ == tasks@[j as int].task_id@);
                return false;
            }
            i += 1;
        }
        j += 1;
    }
    true
}

fn before_in_queue(a: &AutonomousQueueTaskV1, b: &AutonomousQueueTaskV1) -> (r: bool)
    ensures
        r == goes_before(*a, *b),
{
    a.priority > b.priority || (a.priority == b.priority && before(
        a.task_id.as_str(),
        b.task_id.as_str(),
    ))
}

/// Verifying a task never takes away what could start, but the task itself.
pub proof fn lemma_verifying_frees_dependents(
    before: Seq<AutonomousQueueTaskV1>,
    after: Seq<AutonomousQueueTaskV1>,
    at: int,
    j: int,
)
    requires
        0 <= at < before.len(),
        j != at,
        after == before.update(
            at,
            (AutonomousQueueTaskV1 {
                state: AutonomousQueueTaskStateV1::CompletedVerified,
                ..before[at]
            }),
        ),
        can_start(before, j),
    ensures
        can_start(after, j),
{
    assert forall|k: int| 0 <= k < before[j].depends_on@.len() implies is_verified(
        after,
        (#[trigger] before[j].depends_on@[k])@,
    ) by {
        let id = before[j].depends_on@[k]@;
        assert(is_verified(before, id));
        lemma_task_from_update(before, after, at, id, 0);
    }
}

proof fn lemma_task_from_update(
    before: Seq<AutonomousQueueTaskV1>,
    after: Seq<AutonomousQueueTaskV1>,
    at: int,
    id: Seq<char>,
    from: int,
)
    requires
        0 <= from <= before.len(),
        0 <= at < before.len(),
        after.len() == before.len(),
        after[at].task_id == before[at].task_id,
        forall|i: int| 0 <= i < before.len() && i != at ==> after[i] == before[i],
    ensures
        task_from(after, id, from) == task_from(before, id, from),
        from <= task_from(before, id, from) <= before.len(),
    decreases before.len() - from,
{
    if from < before.len() {
        lemma_task_from_update(before, after, at, id, from + 1);
    }
}

// ---------------------------------------------------------------------------
// One session

/// Everything that is kept of one session.
#[derive(Debug)]
pub struct SessionRecordV1 {
    pub snapshot: AutonomousSessionSnapshotV1,
    pub queue: AutonomousQueueV1,
    pub contract: Option<AutonomousDevelopmentContractV1>,
    pub events: Vec<AutonomousEventV1>,
    pub escalation: Option<AutonomousEscalationPacketV1>,
    pub planner_reply: Option<AutonomousPlannerReplyV1>,
    pub completion: Option<AutonomousCompletionArtifactsV1>,
    pub lock_owner: Option<String>,
}

/// Why a snapshot is refused, if it is.
pub open spec fn snapshot_refusal(
    snapshot: AutonomousSessionSnapshotV1,
    expected_session_id: Seq<char>,
) -> Option<Seq<char>> {
    if snapshot.schema_version != AUTONOMY_STATE_SCHEMA_VERSION {
        Some("unsupported autonomous state schema version"@)
    } else if !is_slug(snapshot.session_id@) {
        Some(passed_on(no_slug_message("autonomous session id"@)))
    } else if snapshot.session_id@ != expected_session_id {
        Some("autonomous state session id does not match storage location"@)
    } else if snapshot.active == snapshot.state.is_end() {
        Some("autonomous state active flag contradicts terminal state"@)
    } else if snapshot.current_task_id is Some && !is_slug(snapshot.current_task_id->0@) {
        Some(passed_on(no_slug_message("autonomous current task id"@)))
    } else {
        None
    }
}

fn validate_snapshot(snapshot: &AutonomousSessionSnapshotV1, expected_session_id: &str) -> (r: Result<
    (),
    AutonomyStateError,
>)
    ensures
        match r {
            Ok(_) => snapshot_refusal(*snapshot, expected_session_id@) is None,
            Err(AutonomyStateError::Validation(message)) => snapshot_refusal(
                *snapshot,
                expected_session_id@,
            ) == Some(message@),
            Err(_) => false,
        },
{
    if snapshot.schema_version != AUTONOMY_STATE_SCHEMA_VERSION {
        return Err(
            AutonomyStateError::Validation(text("unsupported autonomous state schema version")),
        );
    }
    stored_slug(snapshot.session_id.as_str(), "autonomous session id")?;
    if !same(snapshot.session_id.as_str(), expected_session_id) {
        return Err(
            AutonomyStateError::Validation(
                text("autonomous state session id does not match storage location"),
            ),
        );
    }
    if snapshot.active == snapshot.state.is_terminal() {
        return Err(
            AutonomyStateError::Validation(
                text("autonomous state active flag contradicts terminal state"),
            ),
        );
    }
    if let Some(task_id) = &snapshot.current_task_id {
        stored_slug(task_id.as_str(), "autonomous current task id")?;
    }
    Ok(())
}

/// Why an escalation cannot be read, if it cannot.
pub open spec fn escalation_refusal(
    packet: AutonomousEscalationPacketV1,
    session_id: Seq<char>,
) -> Option<Seq<char>> {
    if !is_slug(packet.reason@) {
        Some(passed_on(no_slug_message("autonomous escalation reason"@)))
    } else if packet.schema_version != AUTONOMY_STATE_SCHEMA_VERSION || packet.session_id@
        != session_id || !is_slug(packet.escalation_id@) {
        Some("autonomous escalation packet is invalid for this session"@)
    } else {
        None
    }
}

fn validate_escalation(packet: &AutonomousEscalationPacketV1, session_id: &str) -> (r: Result<
    (),
    AutonomyStateError,
>)
    ensures
        match r {
            Ok(_) => escalation_refusal(*packet, session_id@) is None,
            Err(AutonomyStateError::Validation(message)) => escalation_refusal(*packet, session_id@)
                == Some(message@),
            Err(_) => false,
        },
{
    stored_slug(packet.reason.as_str(), "autonomous escalation reason")?;
    if packet.schema_version != AUTONOMY_STATE_SCHEMA_VERSION || !same(
        packet.session_id.as_str(),
        session_id,
    ) || check_slug(packet.escalation_id.as_str(), "autonomous escalation id").is_err() {
        return Err(
            AutonomyStateError::Validation(
                text("autonomous escalation packet is invalid for this session"),
            ),
        );
    }
    Ok(())
}

/// A decision, its hash and its constraints stay within bounds.
pub open spec fn reply_is_bounded(
    decision_hash: Seq<char>,
    decision: Seq<char>,
    constraints: Seq<String>,
) -> bool {
    &&& !blank(decision_hash)
    &&& !blank(decision)
    &&& utf8_len(decision) <= 4096
    &&& constraints.len() <= 20
    &&& forall|i: int|
        0 <= i < constraints.len() ==> !blank((#[trigger] constraints[i])@) && utf8_len(
            constraints[i]@,
        ) <= 512
}

fn bounded_reply(decision_hash: &str, decision: &str, constraints: &Vec<String>) -> (r: bool)
    ensures
        r == reply_is_bounded(decision_hash@, decision@, constraints@),
{
    if is_blank(decision_hash) || is_blank(decision) || byte_len(decision) > 4096
        || constraints.len() > 20 {
        return false;
    }
    let mut i: usize = 0;
    while i < constraints.len()
        invariant
            i <= constraints@.len(),
            forall|j: int|
                0 <= j < i ==> !blank((#[trigger] constraints@[j])@) && utf8_len(constraints@[j]@)
                    <= 512,
        decreases constraints@.len() - i,
    {
        let constraint: &str = constraints[i].as_str();
        if is_blank(constraint) || byte_len(constraint) > 512 {
            assert(blank(constraints@[i as int]@) || utf8_len(constraints@[i as int]@) > 512);
            return false;
        }
        i += 1;
    }
    true
}

/// A planner's reply is one for this session.
pub open spec fn reply_is_valid(reply: AutonomousPlannerReplyV1, session_id: Seq<char>) -> bool {
    &&& reply.schema_version == AUTONOMY_STATE_SCHEMA_VERSION
    &&& reply.session_id@ == session_id
    &&& is_slug(reply.escalation_id@)
    &&& reply_is_bounded(reply.decision_hash@, reply.decision@, reply.constraints@)
}

/// The evidence of completion is there, and stays within bounds.
pub open spec fn evidence_is_bounded(diff: Seq<char>, review: Seq<char>) -> bool {
    &&& !blank(diff)
    &&& !blank(review)
    &&& utf8_len(diff) <= 524_288
    &&& utf8_len(review) <= 24_576
}

fn bounded_evidence(diff: &str, review: &str) -> (r: bool)
    ensures
        r == evidence_is_bounded(diff@, review@),
{
    !is_blank(diff) && !is_blank(review) && byte_len(diff) <= 524_288 && byte_len(review) <= 24_576
}

/// The evidence of completion is one for this session.
pub open spec fn completion_is_valid(
    artifacts: AutonomousCompletionArtifactsV1,
    session_id: Seq<char>,
) -> bool {
    &&& artifacts.schema_version == AUTONOMY_STATE_SCHEMA_VERSION
    &&& artifacts.session_id@ == session_id
    &&& evidence_is_bounded(artifacts.authoritative_diff@, artifacts.final_review@)
}

/// The number of the last event, or zero.
pub open spec fn last_number(events: Seq<AutonomousEventV1>) -> u64 {
    if events.len() == 0 {
        0
    } else {
        events.last().sequence
    }
}

/// The number behind `n`, as far as there is one.
pub open spec fn number_after(n: u64) -> u64 {
    if n < u64::MAX {
        (n + 1) as u64
    } else {
        n
    }
}

/// The events are numbered from one without a gap.
pub open spec fn is_numbered(events: Seq<AutonomousEventV1>) -> bool {
    forall|i: int| 0 <= i < events.len() ==> (#[trigger] events[i]).sequence == i + 1
}

/// The event records this.
pub open spec fn is_event(
    event: AutonomousEventV1,
    session_id: Seq<char>,
    sequence: u64,
    kind: Seq<char>,
    summary: Seq<char>,
) -> bool {
    &&& event.schema_version == AUTONOMY_STATE_SCHEMA_VERSION
    &&& event.session_id@ == session_id
    &&& event.sequence == sequence
    &&& event.kind@ == kind
    &&& event.summary@ == summary
}

/// `after` is `before` with one event more, and knows its number.
pub open spec fn is_logged(
    before: SessionRecordV1,
    after: SessionRecordV1,
    kind: Seq<char>,
    summary: Seq<char>,
) -> bool {
    let n = number_after(last_number(before.events@));
    &&& after == (SessionRecordV1 {
        snapshot: AutonomousSessionSnapshotV1 { last_event_sequence: n, ..before.snapshot },
        events: after.events,
        ..before
    })
    &&& after.events@.len() == before.events@.len() + 1
    &&& after.events@.drop_last() == before.events@
    &&& is_event(after.events@.last(), before.snapshot.session_id@, n, kind, summary)
}

/// Logging an event keeps what was logged, and keeps the numbers without a gap.
pub proof fn lemma_log_has_no_gap(
    before: SessionRecordV1,
    after: SessionRecordV1,
    kind: Seq<char>,
    summary: Seq<char>,
)
    requires
        is_logged(before, after, kind, summary),
        is_numbered(before.events@),
        before.events@.len() < u64::MAX,
    ensures
        is_numbered(after.events@),
        after.snapshot.last_event_sequence == after.events@.len(),
        forall|i: int| 0 <= i < before.events@.len() ==> after.events@[i] == before.events@[i],
{
    assert forall|i: int| 0 <= i < after.events@.len() implies (#[trigger] after.events@[i]).sequence
        == i + 1 by {
        if i < before.events@.len() {
            assert(after.events@.drop_last()[i] == after.events@[i]);
        }
    }
    assert forall|i: int| 0 <= i < before.events@.len() implies after.events@[i]
        == before.events@[i] by {
        assert(after.events@.drop_last()[i] == after.events@[i]);
    }
}

/// `session` moved to a state, and active until the state ends it.
pub open spec fn moved_to(session: SessionRecordV1, state: AutonomousSessionStateV1) -> SessionRecordV1 {
    SessionRecordV1 {
        snapshot: AutonomousSessionSnapshotV1 { state, active: !state.is_end(), ..session.snapshot },
        ..session
    }
}

/// The packet asks for a decision on this session.
pub open spec fn is_escalation(
    packet: AutonomousEscalationPacketV1,
    snapshot: AutonomousSessionSnapshotV1,
    state: AutonomousSessionStateV1,
    reason: Seq<char>,
) -> bool {
    &&& packet.schema_version == AUTONOMY_STATE_SCHEMA_VERSION
    &&& packet.session_id@ == snapshot.session_id@
    &&& packet.escalation_id@ == "esc-"@ + decimal(
        number_after(snapshot.last_event_sequence) as nat,
    )
    &&& packet.state == state
    &&& packet.reason@ == reason
    &&& packet.repair_attempts == snapshot.repair_attempts
}

impl SessionRecordV1 {
    /// The id of the session.
    pub open spec fn id(self) -> Seq<char> {
        self.snapshot.session_id@
    }

    /// Everything that is kept can be read again.
    pub open spec fn wf(self) -> bool {
        &&& snapshot_refusal(self.snapshot, self.id()) is None
        &&& self.queue.refusal() is None
        &&& self.escalation is Some ==> escalation_refusal(self.escalation->0, self.id()) is None
        &&& self.planner_reply is Some ==> reply_is_valid(self.planner_reply->0, self.id())
        &&& self.completion is Some ==> completion_is_valid(self.completion->0, self.id())
    }

    /// The snapshot knows of an event that is not in the log.
    pub open spec fn is_ahead(self) -> bool {
        self.snapshot.last_event_sequence > last_number(self.events@)
    }

    /// Appends an event. A snapshot that lags behind the log catches up.
    pub fn log(&mut self, kind: &str, summary: &str) -> (r: Result<AutonomousEventV1, AutonomyStateError>)
        requires
            old(self).wf(),
        ensures
            final(self).wf(),
            match r {
                Ok(event) => !old(self).is_ahead() && is_logged(
                    *old(self),
                    *final(self),
                    kind@,
                    summary@,
                ) && event == final(self).events@.last(),
                Err(AutonomyStateError::Validation(message)) => old(self).is_ahead() && *final(self)
                    == *old(self) && message@
                    == "autonomous state sequence is ahead of its event journal"@,
                Err(_) => false,
            },
    {
        let n: usize = self.events.len();
        let last: u64 = if n == 0 {
            0
        } else {
            self.events[n - 1].sequence
        };
        if self.snapshot.last_event_sequence > last {
            return Err(
                AutonomyStateError::Validation(
                    text("autonomous state sequence is ahead of its event journal"),
                ),
            );
        }
        let event: AutonomousEventV1 = AutonomousEventV1 {
            schema_version: AUTONOMY_STATE_SCHEMA_VERSION,
            session_id: self.snapshot.session_id.clone(),
            sequence: last.saturating_add(1),
            kind: text(kind),
            summary: text(summary),
        };
        self.snapshot.last_event_sequence = event.sequence;
        self.events.push(event.clone());
        assert(self.events@.drop_last() =~= old(self).events@);
        Ok(event)
    }

    /// Moves the session to a state.
    pub fn move_to(&mut self, state: AutonomousSessionStateV1)
        requires
            old(self).wf(),
        ensures
            final(self).wf(),
            *final(self) == moved_to(*old(self), state),
    {
        self.snapshot.active = !state.is_terminal();
        self.snapshot.state = state;
    }

    /// Keeps a request for a decision.
    pub fn escalate(&mut self, state: AutonomousSessionStateV1, reason: &str) -> (r:
        AutonomousEscalationPacketV1)
        requires
            old(self).wf(),
            is_slug(reason@),
        ensures
            final(self).wf(),
            is_escalation(r, old(self).snapshot, state, reason@),
            *final(self) == (SessionRecordV1 { escalation: Some(r), ..*old(self) }),
    {
        let number: u64 = self.snapshot.last_event_sequence.saturating_add(1);
        let packet: AutonomousEscalationPacketV1 = AutonomousEscalationPacketV1 {
            schema_version: AUTONOMY_STATE_SCHEMA_VERSION,
            session_id: self.snapshot.session_id.clone(),
            escalation_id: plus("esc-", to_decimal(number).as_str()),
            state,
            reason: text(reason),
            repair_attempts: self.snapshot.repair_attempts,
        };
        proof {
            lemma_numbered_slug(number);
        }
        self.escalation = Some(packet.clone());
        packet
    }

    /// Marks the reply, if there is one, as used.
    pub fn consume_reply(&mut self)
        requires
            old(self).wf(),
        ensures
            final(self).wf(),
            *final(self) == with_reply_consumed(*old(self)),
    {
        let reply: Option<AutonomousPlannerReplyV1> = self.planner_reply.take();
        if let Some(reply) = reply {
            self.planner_reply = Some(
                AutonomousPlannerReplyV1 {
                    schema_version: reply.schema_version,
                    session_id: reply.session_id,
                    escalation_id: reply.escalation_id,
                    decision_hash: reply.decision_hash,
                    decision: reply.decision,
                    constraints: reply.constraints,
                    consumed: true,
                },
            );
        }
    }

    /// Keeps the evidence of completion.
    pub fn keep_completion(
        &mut self,
        verification: &VerificationSummaryV1,
        authoritative_diff: &str,
        final_review: &str,
    ) -> (r: Result<(), AutonomyStateError>)
        requires
            old(self).wf(),
        ensures
            final(self).wf(),
            match r {
                Ok(_) => {
                    &&& final(self).completion is Some
                    &&& is_completion(
                        final(self).completion->0,
                        old(self).id(),
                        *verification,
                        authoritative_diff@,
                        final_review@,
                    )
                    &&& evidence_is_bounded(authoritative_diff@, final_review@)
                    &&& *final(self) == (SessionRecordV1 {
                        completion: final(self).completion,
                        ..*old(self)
                    })
                },
                Err(AutonomyStateError::Validation(message)) => !evidence_is_bounded(
                    authoritative_diff@,
                    final_review@,
                ) && message@ == "autonomous completion artifact exceeds bounded storage"@
                    && *final(self) == *old(self),
                Err(_) => false,
            },
    {
        if !bounded_evidence(authoritative_diff, final_review) {
            return Err(
                AutonomyStateError::Validation(
                    text("autonomous completion artifact exceeds bounded storage"),
                ),
            );
        }
        self.completion = Some(
            AutonomousCompletionArtifactsV1 {
                schema_version: AUTONOMY_STATE_SCHEMA_VERSION,
                session_id: self.snapshot.session_id.clone(),
                verification: verification.clone(),
                authoritative_diff: text(authoritative_diff),
                final_review: text(final_review),
            },
        );
        Ok(())
    }

    /// Moves the task of this id, if the queue holds it, to a state.
    pub fn set_task_state(&mut self, task_id: &str, state: AutonomousQueueTaskStateV1) -> (r: bool)
        requires
            old(self).wf(),
        ensures
            final(self).wf(),
            r == has_task(old(self).queue.tasks@, task_id@),
            r ==> is_task_set(*old(self), *final(self), task_id@, state),
            !r ==> *final(self) == *old(self),
    {
        let i: usize = self.queue.find(task_id);
        if i >= self.queue.tasks.len() {
            return false;
        }
        assert(self.queue.tasks@[i as int].task_id@ == task_id@);
        self.queue.tasks[i].state = state;
        proof {
            let before = old(self).queue.tasks@;
            let after = self.queue.tasks@;
            assert(after =~= before.update(
                i as int,
                (AutonomousQueueTaskV1 { state, ..before[i as int] }),
            ));
            assert(tasks_are_distinct(after));
            lemma_task_update_keeps_refusal(before, after, i as int, state, 0);
        }
        true
    }
}

/// `after` is `before` with the state of one task changed.
pub open spec fn is_task_set(
    before: SessionRecordV1,
    after: SessionRecordV1,
    task_id: Seq<char>,
    state: AutonomousQueueTaskStateV1,
) -> bool {
    let at = task_from(before.queue.tasks@, task_id, 0);
    &&& 0 <= at < before.queue.tasks@.len()
    &&& after.queue.schema_version == before.queue.schema_version
    &&& after.queue.tasks@ == before.queue.tasks@.update(
        at,
        (AutonomousQueueTaskV1 { state, ..before.queue.tasks@[at] }),
    )
    &&& after == (SessionRecordV1 { queue: after.queue, ..before })
}

/// `session` with its reply, if it has one, marked as used.
pub open spec fn with_reply_consumed(session: SessionRecordV1) -> SessionRecordV1 {
    SessionRecordV1 {
        planner_reply: match session.planner_reply {
            Some(reply) => Some(AutonomousPlannerReplyV1 { consumed: true, ..reply }),
            None => None,
        },
        ..session
    }
}

/// The evidence of completion holds this.
pub open spec fn is_completion(
    artifacts: AutonomousCompletionArtifactsV1,
    session_id: Seq<char>,
    verification: VerificationSummaryV1,
    diff: Seq<char>,
    review: Seq<char>,
) -> bool {
    &&& artifacts.schema_version == AUTONOMY_STATE_SCHEMA_VERSION
    &&& artifacts.session_id@ == session_id
    &&& artifacts.verification == verification
    &&& artifacts.authoritative_diff@ == diff
    &&& artifacts.final_review@ == review
}

proof fn lemma_task_update_keeps_refusal(
    before: Seq<AutonomousQueueTaskV1>,
    after: Seq<AutonomousQueueTaskV1>,
    at: int,
    state: AutonomousQueueTaskStateV1,
    from: int,
)
    requires
        0 <= from <= before.len(),
        0 <= at < before.len(),
        after == before.update(
            at,
            (AutonomousQueueTaskV1 { state, ..before[at] }),
        ),
    ensures
        tasks_refusal(after, from) == tasks_refusal(before, from),
    decreases before.len() - from,
{
    if from < before.len() {
        lemma_task_update_keeps_refusal(before, after, at, state, from + 1);
        lemma_dependencies_update(before, after, before[from].depends_on@, at, 0);
        assert(after[from].task_id == before[from].task_id && after[from].depends_on
            == before[from].depends_on);
    }
}

proof fn lemma_dependencies_update(
    before: Seq<AutonomousQueueTaskV1>,
    after: Seq<AutonomousQueueTaskV1>,
    depends_on: Seq<String>,
    at: int,
    from: int,
)
    requires
        0 <= from <= depends_on.len(),
        before.len() == after.len(),
        forall|i: int| 0 <= i < before.len() ==> (#[trigger] after[i]).task_id == before[i].task_id,
    ensures
        dependencies_refusal(after, depends_on, from) == dependencies_refusal(
            before,
            depends_on,
            from,
        ),
    decreases depends_on.len() - from,
{
    if from < depends_on.len() {
        lemma_dependencies_update(before, after, depends_on, at, from + 1);
        let id = depends_on[from]@;
        if has_task(before, id) {
            let i = choose|i: int| 0 <= i < before.len() && (#[trigger] before[i]).task_id@ == id;
            assert(after[i].task_id@ == id);
        }
        if has_task(after, id) {
            let i = choose|i: int| 0 <= i < after.len() && (#[trigger] after[i]).task_id@ == id;
            assert(before[i].task_id@ == id);
        }
    }
}

// ---------------------------------------------------------------------------
// All sessions

/// Everything that is kept of the autonomous sessions.
#[derive(Debug)]
pub struct AutonomousStateStoreV1 {
    pub sessions: Vec<SessionRecordV1>,
}

/// The right to work on a session.
#[derive(Debug)]
pub struct AutonomousSessionLockV1 {
    pub session_id: String,
    pub owner_id: String,
}

/// The position of the session `id` at or behind `from`, or the number of sessions.
pub open spec fn session_from(sessions: Seq<SessionRecordV1>, id: Seq<char>, from: int) -> int
    decreases sessions.len() - from,
{
    if from < 0 || from >= sessions.len() {
        sessions.len() as int
    } else if sessions[from].id() == id {
        from
    } else {
        session_from(sessions, id, from + 1)
    }
}

proof fn lemma_session_from(sessions: Seq<SessionRecordV1>, id: Seq<char>, from: int)
    requires
        0 <= from <= sessions.len(),
    ensures
        from <= session_from(sessions, id, from) <= sessions.len(),
        session_from(sessions, id, from) < sessions.len() ==> sessions[session_from(
            sessions,
            id,
            from,
        )].id() == id,
        forall|j: int|
            from <= j < session_from(sessions, id, from) ==> (#[trigger] sessions[j]).id() != id,
    decreases sessions.len() - from,
{
    if from < sessions.len() && sessions[from].id() != id {
        lemma_session_from(sessions, id, from + 1);
    }
}

proof fn lemma_session_update(
    before: Seq<SessionRecordV1>,
    after: Seq<SessionRecordV1>,
    i: int,
    id: Seq<char>,
)
    requires
        before.len() == after.len(),
        0 <= i < before.len(),
        session_from(before, id, 0) == i,
        forall|j: int| 0 <= j < before.len() ==> (#[trigger] after[j]).id() == before[j].id(),
    ensures
        session_from(after, id, 0) == i,
{
    lemma_session_from(before, id, 0);
    lemma_session_from(after, id, 0);
    assert(after[i].id() == id);
    let k = session_from(after, id, 0);
    if k < i {
        assert(before[k].id() == id);
    }
}

/// The sessions stand in the order of their ids, each once.
pub open spec fn sessions_in_order(sessions: Seq<SessionRecordV1>) -> bool {
    forall|i: int, j: int|
        0 <= i < j < sessions.len() ==> text_before(
            (#[trigger] sessions[i]).id(),
            (#[trigger] sessions[j]).id(),
        )
}

/// The position at which a session goes into the list.
pub open spec fn session_slot(sessions: Seq<SessionRecordV1>, id: Seq<char>, at: int) -> bool {
    &&& 0 <= at <= sessions.len()
    &&& forall|k: int| 0 <= k < at ==> text_before((#[trigger] sessions[k]).id(), id)
    &&& forall|k: int| at <= k < sessions.len() ==> text_before(id, (#[trigger] sessions[k]).id())
}

/// A session as it is opened.
pub open spec fn is_new_snapshot(snapshot: AutonomousSessionSnapshotV1, session_id: Seq<char>) -> bool {
    &&& snapshot == (AutonomousSessionSnapshotV1 {
        schema_version: AUTONOMY_STATE_SCHEMA_VERSION,
        session_id: snapshot.session_id,
        state: AutonomousSessionStateV1::Draft,
        current_task_id: None,
        provider_thread_id: None,
        provider_handle_id: None,
        provider_event_cursor: 0,
        repair_attempts: 0,
        last_verification_summary: None,
        provider_turn_count: 0,
        retry_not_before_unix: None,
        rate_limited_since_unix: None,
        cancellation_requested: false,
        approved_contract_hash: None,
        consumed_idempotency_keys: snapshot.consumed_idempotency_keys,
        last_event_sequence: 0,
        active: true,
    })
    &&& snapshot.session_id@ == session_id
    &&& snapshot.consumed_idempotency_keys@.len() == 0
}

/// A session of which nothing is kept but where it stands and its queue.
pub open spec fn is_bare(session: SessionRecordV1, queue: AutonomousQueueV1) -> bool {
    &&& session.queue == queue
    &&& session.contract is None
    &&& session.events@.len() == 0
    &&& session.escalation is None
    &&& session.planner_reply is None
    &&& session.completion is None
    &&& session.lock_owner is None
}

/// Why an event is refused, whatever the session, if it is.
pub open spec fn event_refusal(kind: Seq<char>, summary: Seq<char>) -> Option<Seq<char>> {
    if !is_slug(kind) {
        Some(passed_on(no_slug_message("autonomous event kind"@)))
    } else if blank(summary) {
        Some("autonomous event summary must not be empty"@)
    } else if utf8_len(summary) > 4096 {
        Some("autonomous event summary exceeds bounded storage"@)
    } else {
        None
    }
}

fn bounded_summary(value: &str) -> (r: Result<(), AutonomyStateError>)
    ensures
        match r {
            Ok(_) => !blank(value@) && utf8_len(value@) <= 4096,
            Err(AutonomyStateError::Validation(message)) => (blank(value@) || utf8_len(value@)
                > 4096) && message@ == if blank(value@) {
                "autonomous event summary must not be empty"@
            } else {
                "autonomous event summary exceeds bounded storage"@
            },
            Err(_) => false,
        },
{
    if is_blank(value) {
        return Err(
            AutonomyStateError::Validation(text("autonomous event summary must not be empty")),
        );
    }
    if byte_len(value) > 4096 {
        return Err(
            AutonomyStateError::Validation(
                text("autonomous event summary exceeds bounded storage"),
            ),
        );
    }
    Ok(())
}

/// The event that a restart leaves behind.
pub open spec fn is_recovered(before: SessionRecordV1, after: SessionRecordV1) -> bool {
    is_logged(
        moved_to(before, AutonomousSessionStateV1::RecoveringAfterRestart),
        after,
        "restart_recovery_required"@,
        "in-flight autonomy work requires continuity and policy review after restart"@,
    )
}

/// The session was at work when the process stopped.
pub open spec fn was_interrupted(session: SessionRecordV1) -> bool {
    session.snapshot.active && session.snapshot.state.in_flight()
}

/// The snapshots of the interrupted ones of the first `n` sessions, as they are now.
pub open spec fn recovered_snapshots(
    before: Seq<SessionRecordV1>,
    after: Seq<SessionRecordV1>,
    n: int,
) -> Seq<AutonomousSessionSnapshotV1>
    decreases n,
{
    if n <= 0 {
        Seq::empty()
    } else if was_interrupted(before[n - 1]) {
        recovered_snapshots(before, after, n - 1).push(after[n - 1].snapshot)
    } else {
        recovered_snapshots(before, after, n - 1)
    }
}

/// The first `n` sessions are recovered where they were interrupted.
pub open spec fn recovered_upto(
    before: Seq<SessionRecordV1>,
    after: Seq<SessionRecordV1>,
    n: int,
) -> bool {
    &&& after.len() == before.len()
    &&& forall|i: int|
        0 <= i < n ==> if was_interrupted(before[i]) {
            is_recovered(before[i], #[trigger] after[i])
        } else {
            after[i] == before[i]
        }
}

impl AutonomousStateStoreV1 {
    /// The sessions stand in order, and everything kept of them can be read again.
    pub open spec fn wf(self) -> bool {
        &&& sessions_in_order(self.sessions@)
        &&& forall|i: int| 0 <= i < self.sessions@.len() ==> (#[trigger] self.sessions@[i]).wf()
    }

    /// The position of a session, or the number of sessions.
    pub open spec fn at(self, id: Seq<char>) -> int {
        session_from(self.sessions@, id, 0)
    }

    /// Whether a session is kept.
    pub open spec fn has(self, id: Seq<char>) -> bool {
        self.at(id) < self.sessions@.len()
    }

    /// What is kept of a session.
    pub open spec fn session(self, id: Seq<char>) -> SessionRecordV1 {
        self.sessions@[self.at(id)]
    }

    /// This store is `before` with one session replaced.
    pub open spec fn replaces(
        self,
        before: AutonomousStateStoreV1,
        id: Seq<char>,
        session: SessionRecordV1,
    ) -> bool {
        &&& before.has(id)
        &&& 0 <= before.at(id) == self.at(id)
        &&& self.sessions@ == before.sessions@.update(before.at(id), session)
    }

    /// `e` says why the session cannot be reached.
    pub open spec fn misses(self, id: Seq<char>, e: AutonomyStateError) -> bool {
        match e {
            AutonomyStateError::Validation(message) => !is_slug(id) && message@ == passed_on(
                no_slug_message("autonomous session id"@),
            ),
            AutonomyStateError::SessionNotFound(name) => is_slug(id) && !self.has(id) && name@ == id,
            _ => false,
        }
    }

    /// A session can be reached.
    pub open spec fn reaches(self, id: Seq<char>) -> bool {
        is_slug(id) && self.has(id)
    }

    /// A store without sessions.
    pub fn new() -> (r: Self)
        ensures
            r.wf(),
            r.sessions@.len() == 0,
    {
        AutonomousStateStoreV1 { sessions: Vec::new() }
    }

    fn find(&self, id: &str) -> (r: usize)
        ensures
            r == self.at(id@),
            r <= self.sessions@.len(),
            r < self.sessions@.len() ==> self.sessions@[r as int].id() == id@,
            forall|j: int| 0 <= j < r ==> (#[trigger] self.sessions@[j]).id() != id@,
    {
        let mut i: usize = 0;
        while i < self.sessions.len()
            invariant
                i <= self.sessions@.len(),
                session_from(self.sessions@, id@, 0) == session_from(self.sessions@, id@, i as int),
                forall|j: int| 0 <= j < i ==> (#[trigger] self.sessions@[j]).id() != id@,
            decreases self.sessions@.len() - i,
        {
            if same(self.sessions[i].snapshot.session_id.as_str(), id) {
                return i;
            }
            i += 1;
        }
        i
    }

    /// Where a session stands in the list.
    pub fn locate(&self, session_id: &str) -> (r: Result<usize, AutonomyStateError>)
        ensures
            match r {
                Ok(i) => self.reaches(session_id@) && i == self.at(session_id@)
                    && self.sessions@[i as int].id() == session_id@,
                Err(e) => self.misses(session_id@, e),
            },
    {
        stored_slug(session_id, "autonomous session id")?;
        let i: usize = self.find(session_id);
        if i < self.sessions.len() {
            Ok(i)
        } else {
            Err(AutonomyStateError::SessionNotFound(text(session_id)))
        }
    }

    fn slot(&self, id: &str) -> (r: usize)
        requires
            self.wf(),
            !self.has(id@),
        ensures
            session_slot(self.sessions@, id@, r as int),
    {
        let mut i: usize = 0;
        while i < self.sessions.len() && before(self.sessions[i].snapshot.session_id.as_str(), id)
            invariant
                i <= self.sessions@.len(),
                forall|j: int| 0 <= j < i ==> text_before((#[trigger] self.sessions@[j]).id(), id@),
            decreases self.sessions@.len() - i,
        {
            i += 1;
        }
        proof {
            lemma_session_from(self.sessions@, id@, 0);
            assert forall|k: int| i <= k < self.sessions@.len() implies text_before(
                id@,
                (#[trigger] self.sessions@[k]).id(),
            ) by {
                lemma_text_before(id@, self.sessions@[i as int].id(), self.sessions@[k].id());
                if k > i {
                    assert(text_before(self.sessions@[i as int].id(), self.sessions@[k].id()));
                }
            }
        }
        i
    }

    fn put(&mut self, session: SessionRecordV1) -> (at: Ghost<int>)
        requires
            old(self).wf(),
            session.wf(),
            !old(self).has(session.id()),
        ensures
            final(self).wf(),
            session_slot(old(self).sessions@, session.id(), at@),
            final(self).sessions@ == old(self).sessions@.insert(at@, session),
            final(self).has(session.id()),
            final(self).at(session.id()) == at@,
    {
        let at: usize = self.slot(session.snapshot.session_id.as_str());
        let ghost id = session.id();
        self.sessions.insert(at, session);
        proof {
            let now = self.sessions@;
            assert forall|i: int, j: int| 0 <= i < j < now.len() implies text_before(
                (#[trigger] now[i]).id(),
                (#[trigger] now[j]).id(),
            ) by {
                let before = old(self).sessions@;
                if i < at && j > at {
                    assert(text_before(before[i].id(), before[j - 1].id()));
                } else if i > at {
                    assert(text_before(before[i - 1].id(), before[j - 1].id()));
                } else if j < at {
                    assert(text_before(before[i].id(), before[j].id()));
                }
            }
            assert(now[at as int].id() == id);
            lemma_session_from(now, id, 0);
            let k = session_from(now, id, 0);
            if k < at {
                lemma_text_before(id, id, id);
                assert(text_before(now[k].id(), now[at as int].id()));
            }
        }
        Ghost(at as int)
    }

    /// Opens a session with a queue.
    pub fn create_session(&mut self, session_id: &str, queue: AutonomousQueueV1) -> (r: Result<
        AutonomousSessionSnapshotV1,
        AutonomyStateError,
    >)
        requires
            old(self).wf(),
        ensures
            final(self).wf(),
            match r {
                Ok(snapshot) => {
                    let session = final(self).session(session_id@);
                    &&& is_slug(session_id@)
                    &&& queue.refusal() is None
                    &&& !old(self).has(session_id@)
                    &&& is_new_snapshot(snapshot, session_id@)
                    &&& same_snapshot(snapshot, session.snapshot)
                    &&& is_bare(session, queue)
                    &&& final(self).reaches(session_id@)
                    &&& 0 <= final(self).at(session_id@) <= old(self).sessions@.len()
                    &&& final(self).sessions@ == old(self).sessions@.insert(
                        final(self).at(session_id@),
                        session,
                    )
                },
                Err(e) => {
                    &&& *final(self) == *old(self)
                    &&& if !is_slug(session_id@) {
                        e matches AutonomyStateError::Validation(message) && message@ == passed_on(
                            no_slug_message("autonomous session id"@),
                        )
                    } else if queue.refusal() is Some {
                        e matches AutonomyStateError::Validation(message) && message@ == passed_on(
                            queue.refusal()->0,
                        )
                    } else {
                        e matches AutonomyStateError::SessionExists(name) && name@ == session_id@
                            && old(self).has(session_id@)
                    }
                },
            },
    {
        stored_slug(session_id, "autonomous session id")?;
        if let Err(error) = queue.validate() {
            return Err(validation_error(&error));
        }
        if self.find(session_id) < self.sessions.len() {
            return Err(AutonomyStateError::SessionExists(text(session_id)));
        }
        let snapshot: AutonomousSessionSnapshotV1 = AutonomousSessionSnapshotV1 {
            schema_version: AUTONOMY_STATE_SCHEMA_VERSION,
            session_id: text(session_id),
            state: AutonomousSessionStateV1::Draft,
            current_task_id: None,
            provider_thread_id: None,
            provider_handle_id: None,
            provider_event_cursor: 0,
            repair_attempts: 0,
            last_verification_summary: None,
            provider_turn_count: 0,
            retry_not_before_unix: None,
            rate_limited_since_unix: None,
            cancellation_requested: false,
            approved_contract_hash: None,
            consumed_idempotency_keys: Vec::new(),
            last_event_sequence: 0,
            active: true,
        };
        let session: SessionRecordV1 = SessionRecordV1 {
            snapshot: snapshot.clone(),
            queue,
            contract: None,
            events: Vec::new(),
            escalation: None,
            planner_reply: None,
            completion: None,
            lock_owner: None,
        };
        let _at: Ghost<int> = self.put(session);
        Ok(snapshot)
    }

    /// Takes in a session that was kept elsewhere, after the checks that reading each
    /// part of it makes.
    pub fn restore_session(&mut self, session: SessionRecordV1) -> (r: Result<
        (),
        AutonomyStateError,
    >)
        requires
            old(self).wf(),
        ensures
            final(self).wf(),
            match r {
                Ok(_) => session.wf() && !old(self).has(session.id()) && final(self).sessions@
                    == old(self).sessions@.insert(final(self).at(session.id()), session)
                    && final(self).reaches(session.id()) && 0 <= final(self).at(session.id())
                    <= old(self).sessions@.len(),
                Err(e) => *final(self) == *old(self) && if snapshot_refusal(
                    session.snapshot,
                    session.id(),
                ) is Some {
                    e matches AutonomyStateError::Validation(message) && Some(message@)
                        == snapshot_refusal(session.snapshot, session.id())
                } else if session.queue.refusal() is Some {
                    e matches AutonomyStateError::Validation(message) && message@ == passed_on(
                        session.queue.refusal()->0,
                    )
                } else if session.escalation is Some && escalation_refusal(
                    session.escalation->0,
                    session.id(),
                ) is Some {
                    e matches AutonomyStateError::Validation(message) && Some(message@)
                        == escalation_refusal(session.escalation->0, session.id())
                } else if session.planner_reply is Some && !reply_is_valid(
                    session.planner_reply->0,
                    session.id(),
                ) {
                    e matches AutonomyStateError::Validation(message) && message@
                        == "autonomous planner reply is invalid for this session"@
                } else if session.completion is Some && !completion_is_valid(
                    session.completion->0,
                    session.id(),
                ) {
                    e matches AutonomyStateError::Validation(message) && message@
                        == "autonomous completion artifact is invalid for this session"@
                } else {
                    e matches AutonomyStateError::SessionExists(name) && name@ == session.id()
                        && old(self).has(session.id())
                },
            },
    {
        let id: String = session.snapshot.session_id.clone();
        validate_snapshot(&session.snapshot, id.as_str())?;
        if let Err(error) = session.queue.validate() {
            return Err(validation_error(&error));
        }
        if let Some(packet) = &session.escalation {
            validate_escalation(packet, id.as_str())?;
        }
        if let Some(reply) = &session.planner_reply {
            if reply.schema_version != AUTONOMY_STATE_SCHEMA_VERSION || !same(
                reply.session_id.as_str(),
                id.as_str(),
            ) || check_slug(reply.escalation_id.as_str(), "autonomous escalation id").is_err()
                || !bounded_reply(
                reply.decision_hash.as_str(),
                reply.decision.as_str(),
                &reply.constraints,
            ) {
                return Err(
                    AutonomyStateError::Validation(
                        text("autonomous planner reply is invalid for this session"),
                    ),
                );
            }
        }
        if let Some(artifacts) = &session.completion {
            if artifacts.schema_version != AUTONOMY_STATE_SCHEMA_VERSION || !same(
                artifacts.session_id.as_str(),
                id.as_str(),
            ) || !bounded_evidence(
                artifacts.authoritative_diff.as_str(),
                artifacts.final_review.as_str(),
            ) {
                return Err(
                    AutonomyStateError::Validation(
                        text("autonomous completion artifact is invalid for this session"),
                    ),
                );
            }
        }
        if self.find(id.as_str()) < self.sessions.len() {
            return Err(AutonomyStateError::SessionExists(id));
        }
        let _at: Ghost<int> = self.put(session);
        Ok(())
    }

    /// Where a session stands.
    pub fn load_session(&self, session_id: &str) -> (r: Result<
        AutonomousSessionSnapshotV1,
        AutonomyStateError,
    >)
        ensures
            match r {
                Ok(snapshot) => self.reaches(session_id@) && same_snapshot(
                    snapshot,
                    self.session(session_id@).snapshot,
                ),
                Err(e) => self.misses(session_id@, e),
            },
    {
        let i: usize = self.locate(session_id)?;
        Ok(self.sessions[i].snapshot.clone())
    }

    /// Keeps where a session stands.
    pub fn save_session(&mut self, snapshot: &AutonomousSessionSnapshotV1) -> (r: Result<
        (),
        AutonomyStateError,
    >)
        requires
            old(self).wf(),
        ensures
            final(self).wf(),
            ({
                let id = snapshot.session_id@;
                let refusal = snapshot_refusal(*snapshot, id);
                match r {
                    Ok(_) => refusal is None && old(self).reaches(id) && same_snapshot(
                        final(self).session(id).snapshot,
                        *snapshot,
                    ) && final(self).replaces(
                        *old(self),
                        id,
                        (SessionRecordV1 {
                            snapshot: final(self).session(id).snapshot,
                            ..old(self).session(id)
                        }),
                    ),
                    Err(e) => *final(self) == *old(self) && if refusal is Some {
                        e matches AutonomyStateError::Validation(message) && refusal == Some(
                            message@,
                        )
                    } else {
                        old(self).misses(id, e)
                    },
                }
            }),
    {
        validate_snapshot(snapshot, snapshot.session_id.as_str())?;
        let i: usize = self.locate(snapshot.session_id.as_str())?;
        self.sessions[i].snapshot = snapshot.clone();
        proof {
            self.lemma_replaced(*old(self), i as int, snapshot.session_id@);
        }
        Ok(())
    }

    /// Replacing a session by one of the same id leaves the others where they are.
    pub proof fn lemma_replaced(self, before: AutonomousStateStoreV1, i: int, id: Seq<char>)
        requires
            before.wf(),
            0 <= i < before.sessions@.len(),
            i == before.at(id),
            self.sessions@.len() == before.sessions@.len(),
            self.sessions@[i].id() == before.sessions@[i].id(),
            self.sessions@[i].wf(),
            forall|j: int|
                0 <= j < before.sessions@.len() && j != i ==> #[trigger] self.sessions@[j]
                    == before.sessions@[j],
        ensures
            self.wf(),
            self.at(id) == i,
            self.session(id) == self.sessions@[i],
            self.replaces(before, id, self.sessions@[i]),
    {
        lemma_session_update(before.sessions@, self.sessions@, i, id);
        assert(self.sessions@ =~= before.sessions@.update(i, self.sessions@[i]));
        assert forall|a: int, b: int| 0 <= a < b < self.sessions@.len() implies text_before(
            (#[trigger] self.sessions@[a]).id(),
            (#[trigger] self.sessions@[b]).id(),
        ) by {
            assert(text_before(before.sessions@[a].id(), before.sessions@[b].id()));
        }
    }

    /// The queue of a session.
    pub fn load_queue(&self, session_id: &str) -> (r: Result<&AutonomousQueueV1, AutonomyStateError>)
        ensures
            match r {
                Ok(queue) => self.reaches(session_id@) && *queue == self.session(session_id@).queue,
                Err(e) => self.misses(session_id@, e),
            },
    {
        let i: usize = self.locate(session_id)?;
        Ok(&self.sessions[i].queue)
    }

    /// Keeps the queue of a session.
    pub fn save_queue(&mut self, session_id: &str, queue: AutonomousQueueV1) -> (r: Result<
        (),
        AutonomyStateError,
    >)
        requires
            old(self).wf(),
        ensures
            final(self).wf(),
            match r {
                Ok(_) => old(self).reaches(session_id@) && queue.refusal() is None && final(self).replaces(
                    *old(self),
                    session_id@,
                    (SessionRecordV1 { queue, ..old(self).session(session_id@) }),
                ),
                Err(e) => *final(self) == *old(self) && if old(self).reaches(session_id@) {
                    e matches AutonomyStateError::Validation(message) && queue.refusal() is Some
                        && message@ == passed_on(queue.refusal()->0)
                } else {
                    old(self).misses(session_id@, e)
                },
            },
    {
        let i: usize = self.locate(session_id)?;
        if let Err(error) = queue.validate() {
            return Err(validation_error(&error));
        }
        self.sessions[i].queue = queue;
        proof {
            self.lemma_replaced(*old(self), i as int, session_id@);
        }
        Ok(())
    }

    /// Keeps the contract of a session.
    pub fn save_contract(
        &mut self,
        session_id: &str,
        contract: AutonomousDevelopmentContractV1,
        workspace_is_dir: bool,
    ) -> (r: Result<(), AutonomyStateError>)
        requires
            old(self).wf(),
        ensures
            final(self).wf(),
            match r {
                Ok(_) => old(self).reaches(session_id@) && autonomous_refusal(
                    contract,
                    workspace_is_dir,
                ) is None && final(self).replaces(
                    *old(self),
                    session_id@,
                    (SessionRecordV1 {
                        contract: Some(contract),
                        ..old(self).session(session_id@)
                    }),
                ),
                Err(e) => *final(self) == *old(self) && if old(self).reaches(session_id@) {
                    autonomous_refusal(contract, workspace_is_dir) is Some && (e matches
                        AutonomyStateError::Validation(message) && message@
                        == "autonomous contract is invalid"@)
                } else {
                    old(self).misses(session_id@, e)
                },
            },
    {
        let i: usize = self.locate(session_id)?;
        if contract.validate(workspace_is_dir).is_err() {
            return Err(AutonomyStateError::Validation(text("autonomous contract is invalid")));
        }
        self.sessions[i].contract = Some(contract);
        proof {
            self.lemma_replaced(*old(self), i as int, session_id@);
        }
        Ok(())
    }

    /// The contract of a session.
    pub fn load_contract(&self, session_id: &str, workspace_is_dir: bool) -> (r: Result<
        &AutonomousDevelopmentContractV1,
        AutonomyStateError,
    >)
        ensures
            match r {
                Ok(contract) => self.reaches(session_id@) && self.session(session_id@).contract
                    == Some(*contract) && autonomous_refusal(*contract, workspace_is_dir) is None,
                Err(e) => if !self.reaches(session_id@) {
                    self.misses(session_id@, e)
                } else if self.session(session_id@).contract is None {
                    is_absent(e)
                } else {
                    autonomous_refusal(self.session(session_id@).contract->0, workspace_is_dir) is Some
                        && (e matches AutonomyStateError::Validation(message) && message@
                        == "autonomous contract is invalid"@)
                },
            },
    {
        let i: usize = self.locate(session_id)?;
        match &self.sessions[i].contract {
            None => Err(absent()),
            Some(contract) => {
                if contract.validate(workspace_is_dir).is_err() {
                    return Err(
                        AutonomyStateError::Validation(text("autonomous contract is invalid")),
                    );
                }
                Ok(contract)
            },
        }
    }

    /// Appends an event to a session.
    pub fn append_event(&mut self, session_id: &str, kind: &str, summary: &str) -> (r: Result<
        AutonomousEventV1,
        AutonomyStateError,
    >)
        requires
            old(self).wf(),
        ensures
            final(self).wf(),
            match r {
                Ok(event) => {
                    let after = final(self).session(session_id@);
                    &&& event_refusal(kind@, summary@) is None
                    &&& old(self).reaches(session_id@)
                    &&& !old(self).session(session_id@).is_ahead()
                    &&& is_logged(old(self).session(session_id@), after, kind@, summary@)
                    &&& event == after.events@.last()
                    &&& final(self).replaces(*old(self), session_id@, after)
                },
                Err(e) => final(self).sessions@ == old(self).sessions@ && if event_refusal(kind@, summary@) is Some {
                    e matches AutonomyStateError::Validation(message) && event_refusal(
                        kind@,
                        summary@,
                    ) == Some(message@)
                } else if !old(self).reaches(session_id@) {
                    old(self).misses(session_id@, e)
                } else {
                    old(self).session(session_id@).is_ahead() && (e matches
                        AutonomyStateError::Validation(message) && message@
                        == "autonomous state sequence is ahead of its event journal"@)
                },
            },
    {
        stored_slug(kind, "autonomous event kind")?;
        bounded_summary(summary)?;
        let i: usize = self.locate(session_id)?;
        match self.sessions[i].log(kind, summary) {
            Ok(event) => {
                proof {
                    self.lemma_replaced(*old(self), i as int, session_id@);
                }
                Ok(event)
            },
            Err(e) => {
                assert(self.sessions@ =~= old(self).sessions@);
                Err(e)
            },
        }
    }

    /// The events of a session that come behind a number.
    pub fn poll_events(&self, session_id: &str, after_sequence: u64) -> (r: Result<
        Vec<AutonomousEventV1>,
        AutonomyStateError,
    >)
        ensures
            match r {
                Ok(events) => self.reaches(session_id@) && events@ == events_behind(
                    self.session(session_id@).events@,
                    after_sequence,
                ),
                Err(e) => self.misses(session_id@, e),
            },
    {
        let i: usize = self.locate(session_id)?;
        let all: &Vec<AutonomousEventV1> = &self.sessions[i].events;
        let mut events: Vec<AutonomousEventV1> = Vec::new();
        let mut k: usize = 0;
        assert(all@.take(0) =~= Seq::empty());
        while k < all.len()
            invariant
                k <= all@.len(),
                events@ == events_behind(all@.take(k as int), after_sequence),
            decreases all@.len() - k,
        {
            proof {
                lemma_filter_last(all@.take(k + 1), comes_behind(after_sequence));
                assert(all@.take(k + 1).drop_last() =~= all@.take(k as int));
            }
            if all[k].sequence > after_sequence {
                events.push(all[k].clone());
            }
            k += 1;
        }
        assert(all@.take(k as int) =~= all@);
        Ok(events)
    }

    /// Keeps a request for a decision on a session.
    pub fn write_escalation(
        &mut self,
        session_id: &str,
        state: AutonomousSessionStateV1,
        reason: &str,
    ) -> (r: Result<AutonomousEscalationPacketV1, AutonomyStateError>)
        requires
            old(self).wf(),
        ensures
            final(self).wf(),
            match r {
                Ok(packet) => {
                    let before = old(self).session(session_id@);
                    &&& old(self).reaches(session_id@)
                    &&& is_slug(reason@)
                    &&& is_escalation(packet, before.snapshot, state, reason@)
                    &&& final(self).replaces(
                        *old(self),
                        session_id@,
                        (SessionRecordV1 { escalation: Some(packet), ..before }),
                    )
                },
                Err(e) => *final(self) == *old(self) && if old(self).reaches(session_id@) {
                    !is_slug(reason@) && (e matches AutonomyStateError::Validation(message)
                        && message@ == passed_on(no_slug_message("autonomous escalation reason"@)))
                } else {
                    old(self).misses(session_id@, e)
                },
            },
    {
        let i: usize = self.locate(session_id)?;
        stored_slug(reason, "autonomous escalation reason")?;
        let packet: AutonomousEscalationPacketV1 = self.sessions[i].escalate(state, reason);
        proof {
            self.lemma_replaced(*old(self), i as int, session_id@);
        }
        Ok(packet)
    }

    /// The request for a decision that was last kept.
    pub fn load_escalation(&self, session_id: &str) -> (r: Result<
        AutonomousEscalationPacketV1,
        AutonomyStateError,
    >)
        ensures
            match r {
                Ok(packet) => self.reaches(session_id@) && self.session(session_id@).escalation
                    == Some(packet),
                Err(e) => if self.reaches(session_id@) {
                    self.session(session_id@).escalation is None && is_absent(e)
                } else {
                    self.misses(session_id@, e)
                },
            },
    {
        let i: usize = self.locate(session_id)?;
        match &self.sessions[i].escalation {
            Some(packet) => Ok(packet.clone()),
            None => Err(absent()),
        }
    }

    /// Keeps the answer to the escalation that is open.
    pub fn write_planner_reply(
        &mut self,
        session_id: &str,
        escalation_id: &str,
        decision_hash: &str,
        decision: &str,
        constraints: &Vec<String>,
    ) -> (r: Result<&AutonomousPlannerReplyV1, AutonomyStateError>)
        requires
            old(self).wf(),
        ensures
            final(self).wf(),
            match r {
                Ok(reply) => {
                    let before = old(self).session(session_id@);
                    &&& old(self).reaches(session_id@)
                    &&& is_slug(escalation_id@)
                    &&& reply_is_bounded(decision_hash@, decision@, constraints@)
                    &&& before.escalation is Some
                    &&& before.escalation->0.escalation_id@ == escalation_id@
                    &&& is_reply(
                        *reply,
                        session_id@,
                        escalation_id@,
                        decision_hash@,
                        decision@,
                        constraints@,
                    )
                    &&& final(self).replaces(
                        *old(self),
                        session_id@,
                        (SessionRecordV1 { planner_reply: Some(*reply), ..before }),
                    )
                },
                Err(e) => *final(self) == *old(self) && if !old(self).reaches(session_id@) {
                    old(self).misses(session_id@, e)
                } else if !is_slug(escalation_id@) {
                    e matches AutonomyStateError::Validation(message) && message@ == passed_on(
                        no_slug_message("autonomous escalation id"@),
                    )
                } else if !reply_is_bounded(decision_hash@, decision@, constraints@) {
                    e matches AutonomyStateError::Validation(message) && message@
                        == "autonomous planner reply is outside bounded policy"@
                } else if old(self).session(session_id@).escalation is None {
                    is_absent(e)
                } else {
                    old(self).session(session_id@).escalation->0.escalation_id@ != escalation_id@
                        && (e matches AutonomyStateError::Validation(message) && message@
                        == "autonomous planner reply does not match the current escalation"@)
                },
            },
    {
        let i: usize = self.locate(session_id)?;
        stored_slug(escalation_id, "autonomous escalation id")?;
        if !bounded_reply(decision_hash, decision, constraints) {
            return Err(
                AutonomyStateError::Validation(
                    text("autonomous planner reply is outside bounded policy"),
                ),
            );
        }
        let matches_open: bool = match &self.sessions[i].escalation {
            Some(packet) => same(packet.escalation_id.as_str(), escalation_id),
            None => return Err(absent()),
        };
        if !matches_open {
            return Err(
                AutonomyStateError::Validation(
                    text("autonomous planner reply does not match the current escalation"),
                ),
            );
        }
        let reply: AutonomousPlannerReplyV1 = AutonomousPlannerReplyV1 {
            schema_version: AUTONOMY_STATE_SCHEMA_VERSION,
            session_id: text(session_id),
            escalation_id: text(escalation_id),
            decision_hash: text(decision_hash),
            decision: text(decision),
            constraints: copy_list(constraints),
            consumed: false,
        };
        self.sessions[i].planner_reply = Some(reply);
        proof {
            self.lemma_replaced(*old(self), i as int, session_id@);
        }
        self.load_planner_reply(session_id)
    }

    /// The answer that was last kept.
    pub fn load_planner_reply(&self, session_id: &str) -> (r: Result<
        &AutonomousPlannerReplyV1,
        AutonomyStateError,
    >)
        ensures
            match r {
                Ok(reply) => self.reaches(session_id@) && self.session(session_id@).planner_reply
                    == Some(*reply),
                Err(e) => if self.reaches(session_id@) {
                    self.session(session_id@).planner_reply is None && is_absent(e)
                } else {
                    self.misses(session_id@, e)
                },
            },
    {
        let i: usize = self.locate(session_id)?;
        match &self.sessions[i].planner_reply {
            Some(reply) => Ok(reply),
            None => Err(absent()),
        }
    }

    /// Marks the answer as used.
    pub fn mark_planner_reply_consumed(&mut self, session_id: &str) -> (r: Result<
        (),
        AutonomyStateError,
    >)
        requires
            old(self).wf(),
        ensures
            final(self).wf(),
            match r {
                Ok(_) => old(self).reaches(session_id@) && old(self).session(
                    session_id@,
                ).planner_reply is Some && final(self).replaces(
                    *old(self),
                    session_id@,
                    with_reply_consumed(old(self).session(session_id@)),
                ),
                Err(e) => *final(self) == *old(self) && if old(self).reaches(session_id@) {
                    old(self).session(session_id@).planner_reply is None && is_absent(e)
                } else {
                    old(self).misses(session_id@, e)
                },
            },
    {
        let i: usize = self.locate(session_id)?;
        if self.sessions[i].planner_reply.is_none() {
            return Err(absent());
        }
        self.sessions[i].consume_reply();
        proof {
            self.lemma_replaced(*old(self), i as int, session_id@);
        }
        Ok(())
    }

    /// Keeps the evidence that a session is complete.
    pub fn write_completion_artifacts(
        &mut self,
        session_id: &str,
        verification: &VerificationSummaryV1,
        authoritative_diff: &str,
        final_review: &str,
    ) -> (r: Result<(), AutonomyStateError>)
        requires
            old(self).wf(),
        ensures
            final(self).wf(),
            match r {
                Ok(_) => {
                    let after = final(self).session(session_id@);
                    &&& old(self).reaches(session_id@)
                    &&& evidence_is_bounded(authoritative_diff@, final_review@)
                    &&& after.completion is Some
                    &&& is_completion(
                        after.completion->0,
                        session_id@,
                        *verification,
                        authoritative_diff@,
                        final_review@,
                    )
                    &&& final(self).replaces(
                        *old(self),
                        session_id@,
                        (SessionRecordV1 {
                            completion: after.completion,
                            ..old(self).session(session_id@)
                        }),
                    )
                },
                Err(e) => final(self).sessions@ == old(self).sessions@ && if old(self).reaches(session_id@) {
                    !evidence_is_bounded(authoritative_diff@, final_review@) && (e matches
                        AutonomyStateError::Validation(message) && message@
                        == "autonomous completion artifact exceeds bounded storage"@)
                } else {
                    old(self).misses(session_id@, e)
                },
            },
    {
        let i: usize = self.locate(session_id)?;
        match self.sessions[i].keep_completion(verification, authoritative_diff, final_review) {
            Ok(_) => {
                proof {
                    self.lemma_replaced(*old(self), i as int, session_id@);
                }
                Ok(())
            },
            Err(e) => {
                assert(self.sessions@ =~= old(self).sessions@);
                Err(e)
            },
        }
    }

    /// The evidence that a session is complete.
    pub fn load_completion_artifacts(&self, session_id: &str) -> (r: Result<
        &AutonomousCompletionArtifactsV1,
        AutonomyStateError,
    >)
        ensures
            match r {
                Ok(artifacts) => self.reaches(session_id@) && self.session(session_id@).completion
                    == Some(*artifacts),
                Err(e) => if self.reaches(session_id@) {
                    self.session(session_id@).completion is None && is_absent(e)
                } else {
                    self.misses(session_id@, e)
                },
            },
    {
        let i: usize = self.locate(session_id)?;
        match &self.sessions[i].completion {
            Some(artifacts) => Ok(artifacts),
            None => Err(absent()),
        }
    }

    /// Takes the right to work on a session, if nobody has it.
    pub fn acquire_lock(&mut self, session_id: &str, owner_id: &str) -> (r: Result<
        AutonomousSessionLockV1,
        AutonomyStateError,
    >)
        requires
            old(self).wf(),
        ensures
            final(self).wf(),
            match r {
                Ok(lock) => {
                    let before = old(self).session(session_id@);
                    &&& old(self).reaches(session_id@)
                    &&& is_slug(owner_id@)
                    &&& before.lock_owner is None
                    &&& lock.session_id@ == session_id@
                    &&& lock.owner_id@ == owner_id@
                    &&& final(self).replaces(
                        *old(self),
                        session_id@,
                        (SessionRecordV1 { lock_owner: Some(lock.owner_id), ..before }),
                    )
                },
                Err(e) => *final(self) == *old(self) && if !old(self).reaches(session_id@) {
                    old(self).misses(session_id@, e)
                } else if !is_slug(owner_id@) {
                    e matches AutonomyStateError::Validation(message) && message@ == passed_on(
                        no_slug_message("autonomous lock owner id"@),
                    )
                } else {
                    old(self).session(session_id@).lock_owner is Some && (e matches
                        AutonomyStateError::LockHeld(name) && name@ == session_id@)
                },
            },
    {
        let i: usize = self.locate(session_id)?;
        stored_slug(owner_id, "autonomous lock owner id")?;
        if self.sessions[i].lock_owner.is_some() {
            return Err(AutonomyStateError::LockHeld(text(session_id)));
        }
        let lock: AutonomousSessionLockV1 = AutonomousSessionLockV1 {
            session_id: text(session_id),
            owner_id: text(owner_id),
        };
        self.sessions[i].lock_owner = Some(lock.owner_id.clone());
        proof {
            self.lemma_replaced(*old(self), i as int, session_id@);
        }
        Ok(lock)
    }

    /// After a restart, marks every session that was at work as one to be looked at,
    /// and gives those sessions. Nothing is started.
    pub fn recover_interrupted_sessions(&mut self) -> (r: Result<
        Vec<AutonomousSessionSnapshotV1>,
        AutonomyStateError,
    >)
        requires
            old(self).wf(),
        ensures
            final(self).wf(),
            match r {
                Ok(list) => {
                    let before = old(self).sessions@;
                    let after = final(self).sessions@;
                    &&& recovered_upto(before, after, before.len() as int)
                    &&& same_snapshots(
                        list@,
                        recovered_snapshots(before, after, before.len() as int),
                    )
                    &&& forall|i: int|
                        0 <= i < after.len() ==> !was_interrupted(#[trigger] after[i])
                },
                Err(AutonomyStateError::Validation(message)) => {
                    &&& message@ == "autonomous state sequence is ahead of its event journal"@
                    &&& exists|k: int| #[trigger]
                        recovery_stopped_at(old(self).sessions@, final(self).sessions@, k)
                },
                Err(_) => false,
            },
    {
        let mut recovered: Vec<AutonomousSessionSnapshotV1> = Vec::new();
        let ghost before = self.sessions@;
        let mut i: usize = 0;
        while i < self.sessions.len()
            invariant
                i <= self.sessions@.len(),
                before == old(self).sessions@,
                old(self).wf(),
                self.wf(),
                recovered_upto(before, self.sessions@, i as int),
                forall|j: int| i <= j < before.len() ==> #[trigger] self.sessions@[j] == before[j],
                forall|j: int| 0 <= j < before.len() ==> (#[trigger] self.sessions@[j]).id()
                    == before[j].id(),
                forall|j: int| 0 <= j < i ==> !was_interrupted(#[trigger] self.sessions@[j]),
                same_snapshots(
                    recovered@,
                    recovered_snapshots(before, self.sessions@, i as int),
                ),
            decreases self.sessions@.len() - i,
        {
            let ghost prior = *self;
            assert(self.sessions@[i as int] == before[i as int]);
            if self.sessions[i].snapshot.active
                && self.sessions[i].snapshot.state.needs_restart_recovery() {
                proof {
                    lemma_position(*self, i as int);
                }
                self.sessions[i].move_to(AutonomousSessionStateV1::RecoveringAfterRestart);
                let outcome: Result<AutonomousEventV1, AutonomyStateError> = self.sessions[i].log(
                    "restart_recovery_required",
                    "in-flight autonomy work requires continuity and policy review after restart",
                );
                proof {
                    self.lemma_replaced(prior, i as int, prior.sessions@[i as int].id());
                    lemma_recovered_same(before, prior.sessions@, self.sessions@, i as int);
                }
                match outcome {
                    Ok(_) => {
                        let snapshot: AutonomousSessionSnapshotV1 =
                            self.sessions[i].snapshot.clone();
                        recovered.push(snapshot);
                    },
                    Err(e) => {
                        assert(recovery_stopped_at(before, self.sessions@, i as int));
                        return Err(e);
                    },
                }
            }
            i += 1;
        }
        Ok(recovered)
    }

    /// Where every session stands, in the order of their ids.
    pub fn list_sessions(&self) -> (r: Vec<AutonomousSessionSnapshotV1>)
        requires
            self.wf(),
        ensures
            same_snapshots(r@, self.sessions@.map_values(|s: SessionRecordV1| s.snapshot)),
            forall|i: int, j: int|
                0 <= i < j < r@.len() ==> text_before(
                    (#[trigger] r@[i]).session_id@,
                    (#[trigger] r@[j]).session_id@,
                ),
    {
        let mut r: Vec<AutonomousSessionSnapshotV1> = Vec::new();
        let mut i: usize = 0;
        while i < self.sessions.len()
            invariant
                i <= self.sessions@.len(),
                r@.len() == i,
                forall|j: int| 0 <= j < i ==> same_snapshot(#[trigger] r@[j], self.sessions@[j].snapshot),
            decreases self.sessions@.len() - i,
        {
            r.push(self.sessions[i].snapshot.clone());
            i += 1;
        }
        assert forall|i: int, j: int| 0 <= i < j < r@.len() implies text_before(
            (#[trigger] r@[i]).session_id@,
            (#[trigger] r@[j]).session_id@,
        ) by {
            assert(text_before(self.sessions@[i].id(), self.sessions@[j].id()));
        }
        r
    }
}

/// Recovery stopped at the session at `k`, whose snapshot is ahead of its log: those
/// before it are recovered, it is moved and nothing is logged, the rest is as it was.
pub open spec fn recovery_stopped_at(
    before: Seq<SessionRecordV1>,
    after: Seq<SessionRecordV1>,
    k: int,
) -> bool {
    &&& 0 <= k < before.len()
    &&& recovered_upto(before, after, k)
    &&& was_interrupted(before[k])
    &&& before[k].is_ahead()
    &&& after[k] == moved_to(before[k], AutonomousSessionStateV1::RecoveringAfterRestart)
    &&& forall|j: int| k < j < before.len() ==> #[trigger] after[j] == before[j]
}

proof fn lemma_position(store: AutonomousStateStoreV1, i: int)
    requires
        store.wf(),
        0 <= i < store.sessions@.len(),
    ensures
        store.at(store.sessions@[i].id()) == i,
{
    let id = store.sessions@[i].id();
    lemma_session_from(store.sessions@, id, 0);
    let k = store.at(id);
    if k < i {
        assert(text_before(store.sessions@[k].id(), store.sessions@[i].id()));
        lemma_text_before(id, id, id);
    }
}

proof fn lemma_recovered_same(
    before: Seq<SessionRecordV1>,
    a: Seq<SessionRecordV1>,
    b: Seq<SessionRecordV1>,
    n: int,
)
    requires
        forall|j: int| 0 <= j < n ==> #[trigger] a[j] == b[j],
    ensures
        recovered_snapshots(before, a, n) == recovered_snapshots(before, b, n),
    decreases n,
{
    if n > 0 {
        lemma_recovered_same(before, a, b, n - 1);
    }
}

/// `event` comes behind a number.
pub open spec fn comes_behind(after_sequence: u64) -> spec_fn(AutonomousEventV1) -> bool {
    |event: AutonomousEventV1| event.sequence > after_sequence
}

/// The events that come behind a number.
pub open spec fn events_behind(
    events: Seq<AutonomousEventV1>,
    after_sequence: u64,
) -> Seq<AutonomousEventV1> {
    events.filter(comes_behind(after_sequence))
}

/// The reply holds this, and is not used yet.
pub open spec fn is_reply(
    reply: AutonomousPlannerReplyV1,
    session_id: Seq<char>,
    escalation_id: Seq<char>,
    decision_hash: Seq<char>,
    decision: Seq<char>,
    constraints: Seq<String>,
) -> bool {
    &&& reply.schema_version == AUTONOMY_STATE_SCHEMA_VERSION
    &&& reply.session_id@ == session_id
    &&& reply.escalation_id@ == escalation_id
    &&& reply.decision_hash@ == decision_hash
    &&& reply.decision@ == decision
    &&& reply.constraints@ == constraints
    &&& !reply.consumed
}

/// `e` says that the artifact was never written.
pub open spec fn is_absent(e: AutonomyStateError) -> bool {
    e matches AutonomyStateError::Io(message) && message@
        == "autonomous artifact was not written"@
}

fn absent() -> (e: AutonomyStateError)
    ensures
        is_absent(e),
{
    AutonomyStateError::Io(text("autonomous artifact was not written"))
}

impl AutonomousSessionLockV1 {
    /// Gives the right to work on the session back.
    pub fn release(self, store: &mut AutonomousStateStoreV1) -> (r: Result<(), AutonomyStateError>)
        requires
            old(store).wf(),
        ensures
            final(store).wf(),
            match r {
                Ok(_) => {
                    let before = old(store).session(self.session_id@);
                    &&& old(store).reaches(self.session_id@)
                    &&& opt_text(before.lock_owner) == Some(self.owner_id@)
                    &&& final(store).replaces(
                        *old(store),
                        self.session_id@,
                        (SessionRecordV1 { lock_owner: None, ..before }),
                    )
                },
                Err(e) => *final(store) == *old(store) && if old(store).reaches(self.session_id@) {
                    opt_text(old(store).session(self.session_id@).lock_owner) != Some(
                        self.owner_id@,
                    ) && (e matches AutonomyStateError::LockOwnership(message) && message@
                        == "autonomous lock content did not match owner"@)
                } else {
                    old(store).misses(self.session_id@, e)
                },
            },
    {
        let i: usize = store.locate(self.session_id.as_str())?;
        let owned: bool = match &store.sessions[i].lock_owner {
            Some(owner) => same(owner.as_str(), self.owner_id.as_str()),
            None => false,
        };
        if !owned {
            return Err(
                AutonomyStateError::LockOwnership(
                    text("autonomous lock content did not match owner"),
                ),
            );
        }
        store.sessions[i].lock_owner = None;
        proof {
            store.lemma_replaced(*old(store), i as int, self.session_id@);
        }
        Ok(())
    }
}

/// Taking the right to work on a session and giving it back leaves everything as it
/// was.
pub proof fn lemma_released_lock_leaves_no_trace(
    before: AutonomousStateStoreV1,
    locked: AutonomousStateStoreV1,
    released: AutonomousStateStoreV1,
    id: Seq<char>,
    owner: String,
)
    requires
        before.session(id).lock_owner is None,
        locked.replaces(
            before,
            id,
            (SessionRecordV1 { lock_owner: Some(owner), ..before.session(id) }),
        ),
        released.replaces(
            locked,
            id,
            (SessionRecordV1 { lock_owner: None, ..locked.session(id) }),
        ),
    ensures
        locked.session(id).lock_owner == Some(owner),
        released.sessions@ == before.sessions@,
{
    assert(released.sessions@ =~= before.sessions@);
}

/// A logged event is the last one that a reader sees, whatever numbered event the
/// reader has come to, and the reader sees nothing else that is new.
pub proof fn lemma_logged_event_is_seen(
    before: SessionRecordV1,
    after: SessionRecordV1,
    kind: Seq<char>,
    summary: Seq<char>,
    cursor: u64,
)
    requires
        is_logged(before, after, kind, summary),
        last_number(before.events@) < u64::MAX,
        cursor <= last_number(before.events@),
    ensures
        events_behind(after.events@, cursor) == events_behind(before.events@, cursor).push(
            after.events@.last(),
        ),
{
    lemma_filter_last(after.events@, comes_behind(cursor));
}

/// What a snapshot that was accepted says of the end of a session: it is active
/// exactly until then.
pub proof fn lemma_active_until_the_end(session: SessionRecordV1)
    requires
        session.wf(),
    ensures
        session.snapshot.active <==> !session.snapshot.state.is_end(),
{
}

// ---------------------------------------------------------------------------
// Repair of a log whose last record was cut off

/// Whether these bytes are a JSON value, as `serde_json::from_slice` reads one.
pub uninterp spec fn json_accepts(bytes: Seq<u8>) -> bool;

/// Calls `serde_json::from_slice` for a `serde_json::Value`, and says whether it
/// succeeds.
#[verifier::external_body]
fn is_json(bytes: &[u8]) -> (r: bool)
    ensures
        r == json_accepts(bytes@),
{
    serde_json::from_slice::<serde_json::Value>(bytes).is_ok()
}

/// The position of the first line feed at or behind `from`, or the number of bytes.
pub open spec fn line_end(bytes: Seq<u8>, from: int) -> int
    decreases bytes.len() - from,
{
    if from < 0 || from >= bytes.len() {
        bytes.len() as int
    } else if bytes[from] == 10u8 {
        from
    } else {
        line_end(bytes, from + 1)
    }
}

/// How many bytes of a log are kept, when the records before `from` are whole: all of
/// them, or all but a last record that is no JSON. `None` where a record before the
/// last one is no JSON.
pub open spec fn kept_length(bytes: Seq<u8>, from: int) -> Option<int>
    decreases bytes.len() - from,
    via kept_length_decreases
{
    if from < 0 || from >= bytes.len() {
        Some(bytes.len() as int)
    } else {
        let end = line_end(bytes, from);
        let next = if end < bytes.len() {
            end + 1
        } else {
            end
        };
        if end > from && !json_accepts(bytes.subrange(from, end)) {
            if next == bytes.len() {
                Some(from)
            } else {
                None
            }
        } else {
            kept_length(bytes, next)
        }
    }
}

#[via_fn]
proof fn kept_length_decreases(bytes: Seq<u8>, from: int) {
    if 0 <= from < bytes.len() {
        lemma_line_end(bytes, from);
    }
}

proof fn lemma_line_end(bytes: Seq<u8>, from: int)
    requires
        0 <= from <= bytes.len(),
    ensures
        from <= line_end(bytes, from) <= bytes.len(),
        line_end(bytes, from) < bytes.len() ==> bytes[line_end(bytes, from)] == 10u8,
        forall|i: int| from <= i < line_end(bytes, from) ==> bytes[i] != 10u8,
    decreases bytes.len() - from,
{
    if from < bytes.len() && bytes[from] != 10u8 {
        lemma_line_end(bytes, from + 1);
    }
}

/// How many bytes of a log of events are kept.
pub fn repaired_length(bytes: &Vec<u8>) -> (r: Result<usize, AutonomyStateError>)
    ensures
        match r {
            Ok(n) => kept_length(bytes@, 0) == Some(n as int),
            Err(AutonomyStateError::Serde(message)) => kept_length(bytes@, 0) is None && message@
                == "autonomous event journal has malformed non-terminal record"@,
            Err(_) => false,
        },
{
    let len: usize = bytes.len();
    let mut offset: usize = 0;
    while offset < len
        invariant
            len == bytes@.len(),
            offset <= len,
            kept_length(bytes@, 0) == kept_length(bytes@, offset as int),
        decreases len - offset,
    {
        let mut end: usize = offset;
        proof {
            lemma_line_end(bytes@, offset as int);
        }
        while end < len && bytes[end] != 10
            invariant
                len == bytes@.len(),
                offset <= end <= len,
                line_end(bytes@, offset as int) == line_end(bytes@, end as int),
            decreases len - end,
        {
            end += 1;
        }
        let next: usize = if end < len {
            end + 1
        } else {
            end
        };
        if end > offset {
            let line: &[u8] = vstd::slice::slice_subrange(bytes.as_slice(), offset, end);
            if !is_json(line) {
                if next != len {
                    return Err(
                        AutonomyStateError::Serde(
                            text("autonomous event journal has malformed non-terminal record"),
                        ),
                    );
                }
                return Ok(offset);
            }
        }
        offset = next;
    }
    Ok(len)
}

/// The records that end at or before `to` are whole: every one of them is empty or
/// JSON, and `to` is where a record starts or where the log ends.
pub open spec fn records_are_whole(bytes: Seq<u8>, from: int, to: int) -> bool
    decreases bytes.len() - from,
    via records_are_whole_decreases
{
    if from < 0 || from >= to || to > bytes.len() {
        from == to
    } else {
        let end = line_end(bytes, from);
        let next = if end < bytes.len() {
            end + 1
        } else {
            end
        };
        (end > from ==> json_accepts(bytes.subrange(from, end))) && records_are_whole(
            bytes,
            next,
            to,
        )
    }
}

#[via_fn]
proof fn records_are_whole_decreases(bytes: Seq<u8>, from: int, to: int) {
    if 0 <= from < bytes.len() {
        lemma_line_end(bytes, from);
    }
}

/// Repair keeps every record but the last, and the last one too unless it is no JSON;
/// what it keeps is whole.
pub proof fn lemma_repair_keeps_whole_records(bytes: Seq<u8>, from: int)
    requires
        0 <= from <= bytes.len(),
        kept_length(bytes, from) is Some,
    ensures
        ({
            let n = kept_length(bytes, from)->0;
            &&& from <= n <= bytes.len()
            &&& records_are_whole(bytes, from, n)
            &&& n < bytes.len() ==> {
                let end = line_end(bytes, n);
                &&& end > n
                &&& end + 1 >= bytes.len()
                &&& !json_accepts(bytes.subrange(n, end))
            }
        }),
    decreases bytes.len() - from,
{
    if from < bytes.len() {
        lemma_line_end(bytes, from);
        let end = line_end(bytes, from);
        let next = if end < bytes.len() {
            end + 1
        } else {
            end
        };
        if !(end > from && !json_accepts(bytes.subrange(from, end))) {
            lemma_repair_keeps_whole_records(bytes, next);
        }
    }
}

/// What repair has kept, a second repair keeps.
pub proof fn lemma_repair_is_idempotent(bytes: Seq<u8>)
    requires
        kept_length(bytes, 0) is Some,
    ensures
        ({
            let n = kept_length(bytes, 0)->0;
            kept_length(bytes.take(n), 0) == Some(n)
        }),
{
    lemma_repair_keeps_whole_records(bytes, 0);
    lemma_whole_records_are_kept(bytes, 0, kept_length(bytes, 0)->0);
}

proof fn lemma_whole_records_are_kept(bytes: Seq<u8>, from: int, n: int)
    requires
        0 <= from <= n <= bytes.len(),
        records_are_whole(bytes, from, n),
    ensures
        kept_length(bytes.take(n), from) == Some(n),
    decreases bytes.len() - from,
{
    let part = bytes.take(n);
    if from < n {
        lemma_line_end(bytes, from);
        lemma_line_end_of_part(bytes, from, n);
        let end = line_end(bytes, from);
        let next = if end < bytes.len() {
            end + 1
        } else {
            end
        };
        reveal_with_fuel(records_are_whole, 2);
        assert(next <= n);
        if end < n {
            assert(part.subrange(from, end) =~= bytes.subrange(from, end));
        } else {
            assert(part =~= bytes);
        }
        lemma_whole_records_are_kept(bytes, next, n);
    }
}

proof fn lemma_line_end_of_part(bytes: Seq<u8>, from: int, n: int)
    requires
        0 <= from <= n <= bytes.len(),
    ensures
        line_end(bytes, from) < n ==> line_end(bytes.take(n), from) == line_end(bytes, from),
        line_end(bytes, from) >= n ==> line_end(bytes.take(n), from) == n,
    decreases n - from,
{
    if from < n && bytes[from] != 10u8 {
        lemma_line_end_of_part(bytes, from + 1, n);
    } else if from == n {
        lemma_line_end(bytes, from);
    }
}

// ---------------------------------------------------------------------------
// As JSON, with the members in the order of their names

impl AutonomousSessionStateV1 {
    /// The state as JSON.
    pub open spec fn json(self) -> Seq<char> {
        match self {
            AutonomousSessionStateV1::Draft => "\"DRAFT\""@,
            AutonomousSessionStateV1::Queued => "\"QUEUED\""@,
            AutonomousSessionStateV1::Running => "\"RUNNING\""@,
            AutonomousSessionStateV1::Verifying => "\"VERIFYING\""@,
            AutonomousSessionStateV1::WaitingForChatgpt => "\"WAITING_FOR_CHATGPT\""@,
            AutonomousSessionStateV1::WaitingForUser => "\"WAITING_FOR_USER\""@,
            AutonomousSessionStateV1::RateLimited => "\"RATE_LIMITED\""@,
            AutonomousSessionStateV1::Paused => "\"PAUSED\""@,
            AutonomousSessionStateV1::CompletedVerified => "\"COMPLETED_VERIFIED\""@,
            AutonomousSessionStateV1::Blocked => "\"BLOCKED\""@,
            AutonomousSessionStateV1::Failed => "\"FAILED\""@,
            AutonomousSessionStateV1::Cancelled => "\"CANCELLED\""@,
            AutonomousSessionStateV1::LeaseExpired => "\"LEASE_EXPIRED\""@,
            AutonomousSessionStateV1::CreditBudgetExhausted => "\"CREDIT_BUDGET_EXHAUSTED\""@,
            AutonomousSessionStateV1::RecoveringAfterRestart => "\"RECOVERING_AFTER_RESTART\""@,
        }
    }

    /// Prints the label as JSON.
    pub fn to_json(&self) -> (r: String)
        ensures
            r@ == self.json(),
    {
        match self {
            AutonomousSessionStateV1::Draft => text("\"DRAFT\""),
            AutonomousSessionStateV1::Queued => text("\"QUEUED\""),
            AutonomousSessionStateV1::Running => text("\"RUNNING\""),
            AutonomousSessionStateV1::Verifying => text("\"VERIFYING\""),
            AutonomousSessionStateV1::WaitingForChatgpt => text("\"WAITING_FOR_CHATGPT\""),
            AutonomousSessionStateV1::WaitingForUser => text("\"WAITING_FOR_USER\""),
            AutonomousSessionStateV1::RateLimited => text("\"RATE_LIMITED\""),
            AutonomousSessionStateV1::Paused => text("\"PAUSED\""),
            AutonomousSessionStateV1::CompletedVerified => text("\"COMPLETED_VERIFIED\""),
            AutonomousSessionStateV1::Blocked => text("\"BLOCKED\""),
            AutonomousSessionStateV1::Failed => text("\"FAILED\""),
            AutonomousSessionStateV1::Cancelled => text("\"CANCELLED\""),
            AutonomousSessionStateV1::LeaseExpired => text("\"LEASE_EXPIRED\""),
            AutonomousSessionStateV1::CreditBudgetExhausted => text("\"CREDIT_BUDGET_EXHAUSTED\""),
            AutonomousSessionStateV1::RecoveringAfterRestart => text("\"RECOVERING_AFTER_RESTART\""),
        }
    }
}

impl AutonomousQueueTaskStateV1 {
    /// The state as JSON.
    pub open spec fn json(self) -> Seq<char> {
        match self {
            AutonomousQueueTaskStateV1::Planned => "\"PLANNED\""@,
            AutonomousQueueTaskStateV1::Ready => "\"READY\""@,
            AutonomousQueueTaskStateV1::Running => "\"RUNNING\""@,
            AutonomousQueueTaskStateV1::Verifying => "\"VERIFYING\""@,
            AutonomousQueueTaskStateV1::WaitingForChatgpt => "\"WAITING_FOR_CHATGPT\""@,
            AutonomousQueueTaskStateV1::WaitingForUser => "\"WAITING_FOR_USER\""@,
            AutonomousQueueTaskStateV1::RateLimited => "\"RATE_LIMITED\""@,
            AutonomousQueueTaskStateV1::Paused => "\"PAUSED\""@,
            AutonomousQueueTaskStateV1::CompletedVerified => "\"COMPLETED_VERIFIED\""@,
            AutonomousQueueTaskStateV1::Failed => "\"FAILED\""@,
            AutonomousQueueTaskStateV1::Cancelled => "\"CANCELLED\""@,
        }
    }

    /// Prints the label as JSON.
    pub fn to_json(&self) -> (r: String)
        ensures
            r@ == self.json(),
    {
        match self {
            AutonomousQueueTaskStateV1::Planned => text("\"PLANNED\""),
            AutonomousQueueTaskStateV1::Ready => text("\"READY\""),
            AutonomousQueueTaskStateV1::Running => text("\"RUNNING\""),
            AutonomousQueueTaskStateV1::Verifying => text("\"VERIFYING\""),
            AutonomousQueueTaskStateV1::WaitingForChatgpt => text("\"WAITING_FOR_CHATGPT\""),
            AutonomousQueueTaskStateV1::WaitingForUser => text("\"WAITING_FOR_USER\""),
            AutonomousQueueTaskStateV1::RateLimited => text("\"RATE_LIMITED\""),
            AutonomousQueueTaskStateV1::Paused => text("\"PAUSED\""),
            AutonomousQueueTaskStateV1::CompletedVerified => text("\"COMPLETED_VERIFIED\""),
            AutonomousQueueTaskStateV1::Failed => text("\"FAILED\""),
            AutonomousQueueTaskStateV1::Cancelled => text("\"CANCELLED\""),
        }
    }
}

impl AutonomousEventV1 {
    /// The fields of the event, as JSON.
    pub open spec fn json_fields(self) -> Seq<Seq<char>> {
        seq![
            field("kind"@, json_string(self.kind@)),
            field("schemaVersion"@, decimal(self.schema_version as nat)),
            field("sequence"@, decimal(self.sequence as nat)),
            field("sessionId"@, json_string(self.session_id@)),
            field("summary"@, json_string(self.summary@)),
        ]
    }

    /// The event as compact JSON.
    pub open spec fn json(self) -> Seq<char> {
        object(self.json_fields())
    }

    /// Prints the event as compact JSON.
    pub fn to_json(&self) -> (r: String)
        ensures
            r@ == self.json(),
    {
        let mut fields: Vec<String> = Vec::new();
        fields.push(field_text("kind", quoted(self.kind.as_str()).as_str()));
        fields.push(field_text("schemaVersion", to_decimal(self.schema_version as u64).as_str()));
        fields.push(field_text("sequence", to_decimal(self.sequence as u64).as_str()));
        fields.push(field_text("sessionId", quoted(self.session_id.as_str()).as_str()));
        fields.push(field_text("summary", quoted(self.summary.as_str()).as_str()));
        assert(texts(fields@) =~= self.json_fields());
        object_text(&fields)
    }
}

impl AutonomousEscalationPacketV1 {
    /// The fields of the request, as JSON.
    pub open spec fn json_fields(self) -> Seq<Seq<char>> {
        seq![
            field("escalationId"@, json_string(self.escalation_id@)),
            field("reason"@, json_string(self.reason@)),
            field("repairAttempts"@, decimal(self.repair_attempts as nat)),
            field("schemaVersion"@, decimal(self.schema_version as nat)),
            field("sessionId"@, json_string(self.session_id@)),
            field("state"@, self.state.json()),
        ]
    }

    /// The request as compact JSON.
    pub open spec fn json(self) -> Seq<char> {
        object(self.json_fields())
    }

    /// Prints the request as compact JSON.
    pub fn to_json(&self) -> (r: String)
        ensures
            r@ == self.json(),
    {
        let mut fields: Vec<String> = Vec::new();
        fields.push(field_text("escalationId", quoted(self.escalation_id.as_str()).as_str()));
        fields.push(field_text("reason", quoted(self.reason.as_str()).as_str()));
        fields.push(field_text("repairAttempts", to_decimal(self.repair_attempts as u64).as_str()));
        fields.push(field_text("schemaVersion", to_decimal(self.schema_version as u64).as_str()));
        fields.push(field_text("sessionId", quoted(self.session_id.as_str()).as_str()));
        fields.push(field_text("state", self.state.to_json().as_str()));
        assert(texts(fields@) =~= self.json_fields());
        object_text(&fields)
    }
}

impl AutonomousQueueTaskV1 {
    /// The fields of the task, as JSON.
    pub open spec fn json_fields(self) -> Seq<Seq<char>> {
        seq![
            field("dependsOn"@, string_array(texts(self.depends_on@))),
            field("priority"@, decimal(self.priority as nat)),
            field("state"@, self.state.json()),
            field("taskId"@, json_string(self.task_id@)),
        ]
    }

    /// The task as compact JSON.
    pub open spec fn json(self) -> Seq<char> {
        object(self.json_fields())
    }

    /// Prints the task as compact JSON.
    pub fn to_json(&self) -> (r: String)
        ensures
            r@ == self.json(),
    {
        let mut fields: Vec<String> = Vec::new();
        fields.push(field_text("dependsOn", string_array_text(&self.depends_on).as_str()));
        fields.push(field_text("priority", to_decimal(self.priority as u64).as_str()));
        fields.push(field_text("state", self.state.to_json().as_str()));
        fields.push(field_text("taskId", quoted(self.task_id.as_str()).as_str()));
        assert(texts(fields@) =~= self.json_fields());
        object_text(&fields)
    }
}

/// Tasks as a JSON list.
pub open spec fn queue_tasks_json(items: Seq<AutonomousQueueTaskV1>) -> Seq<char> {
    array(items.map_values(|x: AutonomousQueueTaskV1| x.json()))
}

fn queue_tasks_to_json(items: &Vec<AutonomousQueueTaskV1>) -> (r: String)
    ensures
        r@ == queue_tasks_json(items@),
{
    let mut parts: Vec<String> = Vec::new();
    let ghost all = items@.map_values(|x: AutonomousQueueTaskV1| x.json());
    let mut i: usize = 0;
    while i < items.len()
        invariant
            i <= items@.len(),
            all == items@.map_values(|x: AutonomousQueueTaskV1| x.json()),
            texts(parts@) == all.take(i as int),
        decreases items@.len() - i,
    {
        let ghost prior = texts(parts@);
        parts.push(items[i].to_json());
        i += 1;
        assert(texts(parts@) =~= prior.push(all[i - 1]));
        assert(all.take(i as int) =~= all.take(i - 1).push(all[i - 1]));
    }
    assert(all.take(all.len() as int) =~= all);
    array_text(&parts)
}

impl AutonomousQueueV1 {
    /// The fields of the queue, as JSON.
    pub open spec fn json_fields(self) -> Seq<Seq<char>> {
        seq![
            field("schemaVersion"@, decimal(self.schema_version as nat)),
            field("tasks"@, queue_tasks_json(self.tasks@)),
        ]
    }

    /// The queue as compact JSON.
    pub open spec fn json(self) -> Seq<char> {
        object(self.json_fields())
    }

    /// Prints the queue as compact JSON.
    pub fn to_json(&self) -> (r: String)
        ensures
            r@ == self.json(),
    {
        let mut fields: Vec<String> = Vec::new();
        fields.push(field_text("schemaVersion", to_decimal(self.schema_version as u64).as_str()));
        fields.push(field_text("tasks", queue_tasks_to_json(&self.tasks).as_str()));
        assert(texts(fields@) =~= self.json_fields());
        object_text(&fields)
    }
}

} // verus!
