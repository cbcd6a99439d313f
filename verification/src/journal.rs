//! The journal of delegated runs: their states, their events, and every tool call
//! and patch, so that nothing that was done is done again.

use vstd::prelude::*;
use vstd::string::*;
use vstd::utf8::*;
use vstd::seq_lib::*;
use crate::contracts::{
    ArtifactId, ExecutionContractV1, PatchId, RunId, RunState, ToolCallId, TurnId,
    identifier_message, is_identifier, is_terminal, is_terminal_state, validate_contract,
};
use crate::events::{
    EventCursor, EventEnvelopeV1, append_refusal, next_sequence, page, poll_events,
    validate_append_order,
};
use crate::hash::{fingerprint, fnv1a64, fnv_of, stable_hash};
use crate::json::{json_string, quoted};
use crate::EXECUTION_CONTRACT_SCHEMA_VERSION;
use crate::sorting::{derefs, lemma_filter_last, lemma_insert_at, sorted};
use crate::text::{
    alnum, before, blank, chars_of, copy_opt, debug_quoted, debug_string, debug_variant,
    debug_variant_text, hex_digits, is_alnum, is_blank, lemma_text_before, lines_of, same,
    split_lines, text, text_before, texts, to_hex,
};

verus! {

/// Everything that is recorded of the delegated runs.
#[derive(Debug)]
pub struct DelegatedJournal {
    pub runs: Vec<RunJournalV1>,
}

/// Everything that is recorded of one run.
#[derive(Debug)]
pub struct RunJournalV1 {
    pub snapshot: RunSnapshotV1,
    pub tool_calls: Vec<ToolCallRecordV1>,
    pub patch_proposals: Vec<PatchProposalRecordV1>,
    pub patch_applications: Vec<PatchApplicationRecordV1>,
    pub events: Vec<EventEnvelopeV1>,
    pub advice_artifacts: Vec<AdviceArtifactV1>,
}

/// A request or a response of an advisor that is kept with the run.
#[derive(Clone, Debug, PartialEq, Eq)]
pub struct AdviceArtifactV1 {
    pub reference: String,
    pub json: String,
}

/// Where a run stands.
#[derive(Debug, PartialEq, Eq)]
pub struct RunSnapshotV1 {
    pub schema_version: u32,
    pub run_id: RunId,
    pub state: RunState,
    pub contract_hash: String,
    pub last_event_sequence: u64,
    pub active: bool,
}

impl Clone for RunSnapshotV1 {
    fn clone(&self) -> (r: Self)
        ensures
            r == *self,
    {
        RunSnapshotV1 {
            schema_version: self.schema_version,
            run_id: self.run_id.clone(),
            state: self.state,
            contract_hash: self.contract_hash.clone(),
            last_event_sequence: self.last_event_sequence,
            active: self.active,
        }
    }
}

/// How far a tool call has come.
#[derive(Clone, Copy, Debug, PartialEq, Eq, Structural)]
pub enum ToolCallStatus {
    Requested,
    PolicyAllowed,
    ApprovalRequired,
    Approved,
    Executing,
    Completed,
    Failed,
    OutcomeUnknown,
}

/// Whether a tool can change the workspace.
#[derive(Clone, Copy, Debug, PartialEq, Eq, Structural)]
pub enum ToolMutationKind {
    ReadOnly,
    Mutating,
}

/// One tool call.
#[derive(Debug, PartialEq, Eq)]
pub struct ToolCallRecordV1 {
    pub schema_version: u32,
    pub run_id: RunId,
    pub tool_call_id: ToolCallId,
    pub tool_name: String,
    pub request_hash: String,
    pub arguments_hash: String,
    pub mutation_kind: ToolMutationKind,
    pub status: ToolCallStatus,
    pub result_hash: Option<String>,
    pub outcome_summary: Option<String>,
}

impl Clone for ToolCallRecordV1 {
    fn clone(&self) -> (r: Self)
        ensures
            r == *self,
    {
        ToolCallRecordV1 {
            schema_version: self.schema_version,
            run_id: self.run_id.clone(),
            tool_call_id: self.tool_call_id.clone(),
            tool_name: self.tool_name.clone(),
            request_hash: self.request_hash.clone(),
            arguments_hash: self.arguments_hash.clone(),
            mutation_kind: self.mutation_kind,
            status: self.status,
            result_hash: copy_opt(&self.result_hash),
            outcome_summary: copy_opt(&self.outcome_summary),
        }
    }
}

/// How the application of a patch came out.
#[derive(Clone, Copy, Debug, PartialEq, Eq, Structural)]
pub enum PatchApplicationStatus {
    Applied,
    Rejected,
    Conflicted,
    OutcomeUnknown,
}

/// A patch that was proposed.
#[derive(Clone, Debug, PartialEq, Eq)]
pub struct PatchProposalRecordV1 {
    pub schema_version: u32,
    pub patch_id: PatchId,
    pub parent_patch_id: Option<PatchId>,
    pub run_id: RunId,
    pub turn_id: TurnId,
    pub base_snapshot_hash: String,
    pub target_paths: Vec<String>,
    pub expected_preimage_hashes: Vec<String>,
    pub proposed_diff_hash: String,
    pub model_rationale: String,
}

/// A patch that was applied, or that was tried.
#[derive(Clone, Debug, PartialEq, Eq)]
pub struct PatchApplicationRecordV1 {
    pub schema_version: u32,
    pub patch_id: PatchId,
    pub tool_call_id: ToolCallId,
    pub status: PatchApplicationStatus,
    pub actual_paths_changed: Vec<String>,
    pub before_hashes: Vec<String>,
    pub after_hashes: Vec<String>,
    pub result_hash: String,
    pub diff_artifact_id: ArtifactId,
}

/// Why the journal refuses something.
#[derive(Debug, PartialEq, Eq)]
pub enum JournalError {
    Io(String),
    Serde(String),
    Validation(String),
    DuplicateRun(String),
    RunNotFound(String),
    DuplicateToolCall(String),
    MissingToolCall(String),
    InvalidToolTransition { tool_call_id: String, from: ToolCallStatus, to: ToolCallStatus },
    CompletedToolCallWillNotReplay(String),
    OutcomeUnknownRequiresSupervisor(String),
}

// ---------------------------------------------------------------------------
// The life of a tool call

/// The steps that a tool call can take.
pub open spec fn is_tool_step(from: ToolCallStatus, to: ToolCallStatus) -> bool {
    match from {
        ToolCallStatus::Requested => to == ToolCallStatus::PolicyAllowed || to
            == ToolCallStatus::ApprovalRequired || to == ToolCallStatus::Failed,
        ToolCallStatus::PolicyAllowed => to == ToolCallStatus::ApprovalRequired || to
            == ToolCallStatus::Executing || to == ToolCallStatus::Failed,
        ToolCallStatus::ApprovalRequired => to == ToolCallStatus::Approved || to
            == ToolCallStatus::Failed,
        ToolCallStatus::Approved => to == ToolCallStatus::Executing || to == ToolCallStatus::Failed,
        ToolCallStatus::Executing => to == ToolCallStatus::Completed || to == ToolCallStatus::Failed
            || to == ToolCallStatus::OutcomeUnknown,
        ToolCallStatus::Completed | ToolCallStatus::Failed | ToolCallStatus::OutcomeUnknown => false,
    }
}

fn is_valid_tool_transition(from: &ToolCallStatus, to: &ToolCallStatus) -> (r: bool)
    ensures
        r == is_tool_step(*from, *to),
{
    match from {
        ToolCallStatus::Requested => matches!(
            to,
            ToolCallStatus::PolicyAllowed | ToolCallStatus::ApprovalRequired
                | ToolCallStatus::Failed
        ),
        ToolCallStatus::PolicyAllowed => matches!(
            to,
            ToolCallStatus::ApprovalRequired | ToolCallStatus::Executing | ToolCallStatus::Failed
        ),
        ToolCallStatus::ApprovalRequired => matches!(
            to,
            ToolCallStatus::Approved | ToolCallStatus::Failed
        ),
        ToolCallStatus::Approved => matches!(to, ToolCallStatus::Executing | ToolCallStatus::Failed),
        ToolCallStatus::Executing => matches!(
            to,
            ToolCallStatus::Completed | ToolCallStatus::Failed | ToolCallStatus::OutcomeUnknown
        ),
        ToolCallStatus::Completed | ToolCallStatus::Failed | ToolCallStatus::OutcomeUnknown => false,
    }
}

/// A tool call that has ended never moves again, and one that has not can always
/// fail; nothing executes unless policy or an approval let it, and nothing completes
/// unless it was executing.
pub proof fn lemma_tool_call_life(from: ToolCallStatus, to: ToolCallStatus)
    ensures
        from == ToolCallStatus::Completed || from == ToolCallStatus::Failed || from
            == ToolCallStatus::OutcomeUnknown ==> !is_tool_step(from, to),
        from != ToolCallStatus::Completed && from != ToolCallStatus::Failed && from
            != ToolCallStatus::OutcomeUnknown ==> is_tool_step(from, ToolCallStatus::Failed),
        is_tool_step(from, ToolCallStatus::Executing) ==> from == ToolCallStatus::PolicyAllowed
            || from == ToolCallStatus::Approved,
        is_tool_step(from, ToolCallStatus::Completed) ==> from == ToolCallStatus::Executing,
        is_tool_step(from, ToolCallStatus::OutcomeUnknown) ==> from == ToolCallStatus::Executing,
        !is_tool_step(from, ToolCallStatus::Requested),
{
}

fn guard_replay(tool_call_id: &ToolCallId, status: &ToolCallStatus) -> (r: Result<(), JournalError>)
    ensures
        match r {
            Ok(_) => *status != ToolCallStatus::Completed && *status
                != ToolCallStatus::OutcomeUnknown,
            Err(JournalError::CompletedToolCallWillNotReplay(id)) => *status
                == ToolCallStatus::Completed && id@ == tool_call_id@,
            Err(JournalError::OutcomeUnknownRequiresSupervisor(id)) => *status
                == ToolCallStatus::OutcomeUnknown && id@ == tool_call_id@,
            Err(_) => false,
        },
{
    match status {
        ToolCallStatus::Completed => Err(
            JournalError::CompletedToolCallWillNotReplay(text(tool_call_id.as_str())),
        ),
        ToolCallStatus::OutcomeUnknown => Err(
            JournalError::OutcomeUnknownRequiresSupervisor(text(tool_call_id.as_str())),
        ),
        _ => Ok(()),
    }
}

// ---------------------------------------------------------------------------
// The journal as a whole

/// The position of the run `id` at or behind `from`, or the number of runs.
pub open spec fn run_from(runs: Seq<RunJournalV1>, id: Seq<char>, from: int) -> int
    decreases runs.len() - from,
{
    if from < 0 || from >= runs.len() {
        runs.len() as int
    } else if runs[from].snapshot.run_id@ == id {
        from
    } else {
        run_from(runs, id, from + 1)
    }
}

/// The position of the tool call `id` at or behind `from`, or the number of calls.
pub open spec fn call_from(calls: Seq<ToolCallRecordV1>, id: Seq<char>, from: int) -> int
    decreases calls.len() - from,
{
    if from < 0 || from >= calls.len() {
        calls.len() as int
    } else if calls[from].tool_call_id@ == id {
        from
    } else {
        call_from(calls, id, from + 1)
    }
}

/// The tool calls stand in the order of their ids, each id once.
pub open spec fn calls_in_order(calls: Seq<ToolCallRecordV1>) -> bool {
    forall|i: int, j: int|
        0 <= i < j < calls.len() ==> text_before(
            (#[trigger] calls[i]).tool_call_id@,
            (#[trigger] calls[j]).tool_call_id@,
        )
}

/// The sequence number of the event at position `i`.
pub open spec fn sequence_at(i: int) -> int {
    if i < u64::MAX {
        i + 1
    } else {
        u64::MAX as int
    }
}

impl RunJournalV1 {
    /// The events are numbered from one without a gap, the snapshot knows the last of
    /// them and is active exactly until the run ends, and the tool calls are in order.
    pub open spec fn wf(self) -> bool {
        &&& forall|i: int|
            0 <= i < self.events@.len() ==> (#[trigger] self.events@[i]).event_sequence
                == sequence_at(i)
        &&& self.snapshot.last_event_sequence == if self.events@.len() == 0 {
            0
        } else {
            sequence_at(self.events@.len() - 1)
        }
        &&& self.snapshot.active == !is_terminal_state(self.snapshot.state)
        &&& calls_in_order(self.tool_calls@)
    }

    /// All of `wf` but that the snapshot knows the last event.
    pub open spec fn is_ordered(self) -> bool {
        self.caught_up().wf()
    }

    /// The record, with a snapshot that knows the last event.
    pub open spec fn caught_up(self) -> RunJournalV1 {
        RunJournalV1 {
            snapshot: RunSnapshotV1 {
                last_event_sequence: if self.events@.len() == 0 {
                    0
                } else {
                    self.events@.last().event_sequence
                },
                ..self.snapshot
            },
            ..self
        }
    }

    fn in_order(&self) -> (r: bool)
        ensures
            r == self.is_ordered(),
    {
        if self.snapshot.active == is_terminal(&self.snapshot.state) {
            return false;
        }
        let mut i: usize = 0;
        let mut number: u64 = 0;
        while i < self.events.len()
            invariant
                i <= self.events@.len(),
                number == if i == 0 { 0 } else { sequence_at(i - 1) },
                forall|k: int|
                    0 <= k < i ==> (#[trigger] self.events@[k]).event_sequence == sequence_at(k),
            decreases self.events@.len() - i,
        {
            number = number.saturating_add(1);
            if self.events[i].event_sequence != number {
                assert(self.events@[i as int].event_sequence != sequence_at(i as int));
                return false;
            }
            i += 1;
        }
        let mut j: usize = 1;
        while j < self.tool_calls.len()
            invariant
                1 <= j,
                j <= self.tool_calls@.len() || self.tool_calls@.len() == 0,
                calls_in_order(self.tool_calls@.take(if j <= self.tool_calls@.len() { j as int } else { 0 })),
            decreases self.tool_calls@.len() - j,
        {
            if !before(
                self.tool_calls[j - 1].tool_call_id.as_str(),
                self.tool_calls[j].tool_call_id.as_str(),
            ) {
                return false;
            }
            proof {
                let head = self.tool_calls@.take(j as int);
                let more = self.tool_calls@.take(j + 1);
                assert forall|a: int, b: int| 0 <= a < b < more.len() implies text_before(
                    (#[trigger] more[a]).tool_call_id@,
                    (#[trigger] more[b]).tool_call_id@,
                ) by {
                    if b < j {
                        assert(text_before(head[a].tool_call_id@, head[b].tool_call_id@));
                    } else if a < j - 1 {
                        assert(text_before(head[a].tool_call_id@, head[j - 1].tool_call_id@));
                        lemma_text_before(
                            more[a].tool_call_id@,
                            more[j - 1].tool_call_id@,
                            more[b].tool_call_id@,
                        );
                    }
                }
            }
            j += 1;
        }
        proof {
            let all = self.tool_calls@;
            assert(all.take(all.len() as int) =~= all);
        }
        true
    }
}

/// The position at which a tool call goes into an ordered list.
pub open spec fn call_slot(calls: Seq<ToolCallRecordV1>, id: Seq<char>, at: int) -> bool {
    &&& 0 <= at <= calls.len()
    &&& forall|k: int| 0 <= k < at ==> text_before((#[trigger] calls[k]).tool_call_id@, id)
    &&& forall|k: int|
        at <= k < calls.len() ==> text_before(id, (#[trigger] calls[k]).tool_call_id@)
}

/// Runs by their ids.
pub open spec fn snapshot_less() -> spec_fn(RunSnapshotV1, RunSnapshotV1) -> bool {
    |a: RunSnapshotV1, b: RunSnapshotV1| text_before(a.run_id@, b.run_id@)
}

/// The snapshots of the runs that can go on.
pub open spec fn active_snapshots(runs: Seq<RunJournalV1>) -> Seq<RunSnapshotV1> {
    runs.map_values(|r: RunJournalV1| r.snapshot).filter(
        |s: RunSnapshotV1| s.active && !is_terminal_state(s.state),
    )
}

/// Whether a patch of this id was proposed.
pub open spec fn has_proposal(proposals: Seq<PatchProposalRecordV1>, id: Seq<char>) -> bool {
    exists|i: int| 0 <= i < proposals.len() && (#[trigger] proposals[i]).patch_id@ == id
}

fn proposal_known(proposals: &Vec<PatchProposalRecordV1>, id: &PatchId) -> (r: bool)
    ensures
        r == has_proposal(proposals@, id@),
{
    let mut i: usize = 0;
    while i < proposals.len()
        invariant
            i <= proposals@.len(),
            forall|j: int| 0 <= j < i ==> (#[trigger] proposals@[j]).patch_id@ != id@,
        decreases proposals@.len() - i,
    {
        if same(proposals[i].patch_id.as_str(), id.as_str()) {
            assert(proposals@[i as int].patch_id@ == id@);
            return true;
        }
        i += 1;
    }
    false
}

/// Why a patch proposal is refused, if it is.
pub open spec fn proposal_refusal(
    proposals: Seq<PatchProposalRecordV1>,
    proposal: PatchProposalRecordV1,
) -> Option<Seq<char>> {
    if has_proposal(proposals, proposal.patch_id@) {
        Some("duplicate patch proposal"@)
    } else if proposal.parent_patch_id is Some && !has_proposal(
        proposals,
        proposal.parent_patch_id->0@,
    ) {
        Some("parent patch proposal is missing"@)
    } else {
        None
    }
}

/// `e` says that there is no record to read.
pub open spec fn is_missing_record(e: JournalError) -> bool {
    e matches JournalError::Io(message) && message@ == "run record was not found"@
}

impl DelegatedJournal {
    /// Each run stands once, and each run's record is in order.
    pub open spec fn wf(self) -> bool {
        &&& forall|i: int, j: int|
            0 <= i < j < self.runs@.len() ==> (#[trigger] self.runs@[i]).snapshot.run_id@ != (
            #[trigger] self.runs@[j]).snapshot.run_id@
        &&& forall|i: int| 0 <= i < self.runs@.len() ==> (#[trigger] self.runs@[i]).wf()
    }

    /// The position of a run, or the number of runs.
    pub open spec fn run_at(self, id: Seq<char>) -> int {
        run_from(self.runs@, id, 0)
    }

    /// Whether a run is recorded.
    pub open spec fn has_run(self, id: Seq<char>) -> bool {
        self.run_at(id) < self.runs@.len()
    }

    /// The record of a run.
    pub open spec fn run(self, id: Seq<char>) -> RunJournalV1 {
        self.runs@[self.run_at(id)]
    }

    /// This journal is `before` with the record of one run replaced.
    pub open spec fn replaces(self, before: DelegatedJournal, id: Seq<char>, run: RunJournalV1) -> bool {
        &&& before.has_run(id)
        &&& 0 <= before.run_at(id) == self.run_at(id)
        &&& self.runs@ == before.runs@.update(before.run_at(id), run)
    }

    /// A journal without runs.
    pub fn new() -> (r: Self)
        ensures
            r.wf(),
            r.runs@.len() == 0,
    {
        DelegatedJournal { runs: Vec::new() }
    }

    fn find(&self, run_id: &RunId) -> (r: Option<usize>)
        ensures
            match r {
                Some(i) => i == self.run_at(run_id@) && i < self.runs@.len()
                    && self.runs@[i as int].snapshot.run_id@ == run_id@,
                None => !self.has_run(run_id@) && forall|j: int|
                    0 <= j < self.runs@.len() ==> (#[trigger] self.runs@[j]).snapshot.run_id@
                        != run_id@,
            },
    {
        let mut i: usize = 0;
        while i < self.runs.len()
            invariant
                i <= self.runs@.len(),
                run_from(self.runs@, run_id@, 0) == run_from(self.runs@, run_id@, i as int),
                forall|j: int|
                    0 <= j < i ==> (#[trigger] self.runs@[j]).snapshot.run_id@ != run_id@,
            decreases self.runs@.len() - i,
        {
            if same(self.runs[i].snapshot.run_id.as_str(), run_id.as_str()) {
                return Some(i);
            }
            i += 1;
        }
        None
    }

    fn locate(&self, run_id: &RunId) -> (r: Result<usize, JournalError>)
        ensures
            match r {
                Ok(i) => i == self.run_at(run_id@) && i < self.runs@.len()
                    && self.runs@[i as int].snapshot.run_id@ == run_id@,
                Err(JournalError::RunNotFound(id)) => !self.has_run(run_id@) && id@ == run_id@,
                Err(_) => false,
            },
    {
        match self.find(run_id) {
            Some(i) => Ok(i),
            None => Err(JournalError::RunNotFound(text(run_id.as_str()))),
        }
    }

    fn opened(&self, run_id: &RunId) -> (r: Result<usize, JournalError>)
        ensures
            match r {
                Ok(i) => i == self.run_at(run_id@) && i < self.runs@.len()
                    && self.runs@[i as int].snapshot.run_id@ == run_id@,
                Err(e) => !self.has_run(run_id@) && is_missing_record(e),
            },
    {
        match self.find(run_id) {
            Some(i) => Ok(i),
            None => Err(JournalError::Io(text("run record was not found"))),
        }
    }

    /// Opens the record of a new run, ready and active.
    pub fn create_run(&mut self, contract: &ExecutionContractV1) -> (r: Result<
        RunSnapshotV1,
        JournalError,
    >)
        requires
            old(self).wf(),
        ensures
            final(self).wf(),
            match r {
                Ok(snapshot) => {
                    &&& contract.refusal() is None
                    &&& is_identifier(contract.task_id@)
                    &&& !old(self).has_run(contract.task_id@)
                    &&& snapshot.schema_version == EXECUTION_CONTRACT_SCHEMA_VERSION
                    &&& snapshot.run_id@ == contract.task_id@
                    &&& snapshot.state == RunState::Ready
                    &&& snapshot.contract_hash@ == fingerprint(contract.json())
                    &&& snapshot.last_event_sequence == 0
                    &&& snapshot.active
                    &&& final(self).runs@.len() == old(self).runs@.len() + 1
                    &&& final(self).runs@.drop_last() == old(self).runs@
                    &&& final(self).runs@.last().snapshot == snapshot
                    &&& final(self).runs@.last().tool_calls@.len() == 0
                    &&& final(self).runs@.last().patch_proposals@.len() == 0
                    &&& final(self).runs@.last().patch_applications@.len() == 0
                    &&& final(self).runs@.last().events@.len() == 0
                    &&& final(self).runs@.last().advice_artifacts@.len() == 0
                },
                Err(e) => {
                    &&& final(self).runs@ == old(self).runs@
                    &&& if contract.refusal() is Some {
                        e matches JournalError::Validation(message) && contract.refusal() == Some(
                            message@,
                        )
                    } else if !is_identifier(contract.task_id@) {
                        e matches JournalError::Validation(message) && message@
                            == identifier_message("RunId"@)
                    } else {
                        e matches JournalError::DuplicateRun(id) && old(self).has_run(
                            contract.task_id@,
                        ) && id@ == contract.task_id@
                    }
                },
            },
    {
        if let Err(message) = validate_contract(contract) {
            return Err(JournalError::Validation(message));
        }
        let run_id: RunId = match RunId::new(contract.task_id.as_str()) {
            Ok(id) => id,
            Err(message) => return Err(JournalError::Validation(message)),
        };
        if let Some(_i) = self.find(&run_id) {
            return Err(JournalError::DuplicateRun(text(run_id.as_str())));
        }
        let contract_hash: String = match contract.request_hash() {
            Ok(hash) => hash,
            Err(message) => return Err(JournalError::Validation(message)),
        };
        let snapshot: RunSnapshotV1 = RunSnapshotV1 {
            schema_version: EXECUTION_CONTRACT_SCHEMA_VERSION,
            run_id,
            state: RunState::Ready,
            contract_hash,
            last_event_sequence: 0,
            active: true,
        };
        self.runs.push(
            RunJournalV1 {
                snapshot: snapshot.clone(),
                tool_calls: Vec::new(),
                patch_proposals: Vec::new(),
                patch_applications: Vec::new(),
                events: Vec::new(),
                advice_artifacts: Vec::new(),
            },
        );
        assert(self.runs@.drop_last() =~= old(self).runs@);
        Ok(snapshot)
    }

    /// Takes in the record of a run that was kept elsewhere. Its events must be numbered
    /// from one without a gap, its tool calls stand by their ids, and it must be active
    /// exactly until it has ended. A snapshot that missed an event catches up.
    pub fn restore_run(&mut self, run: RunJournalV1) -> (r: Result<(), JournalError>)
        requires
            old(self).wf(),
        ensures
            final(self).wf(),
            match r {
                Ok(_) => {
                    &&& run.is_ordered()
                    &&& !old(self).has_run(run.snapshot.run_id@)
                    &&& final(self).runs@ == old(self).runs@.push(run.caught_up())
                },
                Err(e) => {
                    &&& final(self).runs@ == old(self).runs@
                    &&& if !run.is_ordered() {
                        e matches JournalError::Validation(message) && message@
                            == "run record is out of order"@
                    } else {
                        e matches JournalError::DuplicateRun(id) && old(self).has_run(
                            run.snapshot.run_id@,
                        ) && id@ == run.snapshot.run_id@
                    }
                },
            },
    {
        if !run.in_order() {
            return Err(JournalError::Validation(text("run record is out of order")));
        }
        if let Some(_i) = self.find(&run.snapshot.run_id) {
            return Err(JournalError::DuplicateRun(text(run.snapshot.run_id.as_str())));
        }
        let ghost given = run;
        let mut run: RunJournalV1 = run;
        let n: usize = run.events.len();
        run.snapshot.last_event_sequence = if n == 0 {
            0
        } else {
            run.events[n - 1].event_sequence
        };
        assert(run == given.caught_up());
        self.runs.push(run);
        Ok(())
    }

    /// Where a run stands.
    pub fn load_run(&self, run_id: &RunId) -> (r: Result<RunSnapshotV1, JournalError>)
        ensures
            match r {
                Ok(snapshot) => self.has_run(run_id@) && snapshot == self.run(run_id@).snapshot,
                Err(e) => !self.has_run(run_id@) && is_missing_record(e),
            },
    {
        let i: usize = self.opened(run_id)?;
        Ok(self.runs[i].snapshot.clone())
    }

    /// Moves a run to a state. The run stays active until the state is terminal.
    pub fn update_run_state(&mut self, run_id: &RunId, state: RunState) -> (r: Result<
        RunSnapshotV1,
        JournalError,
    >)
        requires
            old(self).wf(),
        ensures
            final(self).wf(),
            match r {
                Ok(snapshot) => {
                    &&& snapshot == (RunSnapshotV1 {
                        state,
                        active: !is_terminal_state(state),
                        ..old(self).run(run_id@).snapshot
                    })
                    &&& final(self).replaces(
                        *old(self),
                        run_id@,
                        (RunJournalV1 { snapshot, ..old(self).run(run_id@) }),
                    )
                },
                Err(e) => !old(self).has_run(run_id@) && is_missing_record(e) && final(self).runs@
                    == old(self).runs@,
            },
    {
        let i: usize = self.opened(run_id)?;
        let mut snapshot: RunSnapshotV1 = self.runs[i].snapshot.clone();
        snapshot.active = !is_terminal(&state);
        snapshot.state = state;
        proof {
            lemma_run_from_same(old(self).runs@, i as int, run_id@);
        }
        self.runs[i].snapshot = snapshot.clone();
        proof {
            lemma_run_from_update(old(self).runs@, self.runs@, i as int, run_id@);
            assert(self.runs@ =~= old(self).runs@.update(i as int, self.runs@[i as int]));
        }
        Ok(snapshot)
    }

    /// Appends the event that comes next in its run.
    pub fn append_event(&mut self, event: EventEnvelopeV1) -> (r: Result<(), JournalError>)
        requires
            old(self).wf(),
        ensures
            final(self).wf(),
            match r {
                Ok(_) => {
                    let id = event.run_id@;
                    let before = old(self).run(id);
                    let after = final(self).run(id);
                    &&& append_refusal(last_sequence(before.events@), event) is None
                    &&& after.events@ == before.events@.push(event)
                    &&& after.snapshot == (RunSnapshotV1 {
                        last_event_sequence: event.event_sequence,
                        ..before.snapshot
                    })
                    &&& after == (RunJournalV1 {
                        snapshot: after.snapshot,
                        events: after.events,
                        ..before
                    })
                    &&& final(self).replaces(*old(self), id, after)
                },
                Err(e) => {
                    &&& final(self).runs@ == old(self).runs@
                    &&& if !old(self).has_run(event.run_id@) {
                        e matches JournalError::RunNotFound(id) && id@ == event.run_id@
                    } else {
                        e matches JournalError::Validation(message) && append_refusal(
                            last_sequence(old(self).run(event.run_id@).events@),
                            event,
                        ) == Some(message@)
                    }
                },
            },
    {
        let i: usize = self.locate(&event.run_id)?;
        let n: usize = self.runs[i].events.len();
        let last: Option<u64> = if n == 0 {
            None
        } else {
            Some(self.runs[i].events[n - 1].event_sequence)
        };
        if let Err(message) = validate_append_order(last, &event) {
            return Err(JournalError::Validation(message));
        }
        let sequence: u64 = event.event_sequence;
        proof {
            lemma_run_from_same(old(self).runs@, i as int, event.run_id@);
        }
        self.runs[i].events.push(event);
        self.runs[i].snapshot.last_event_sequence = sequence;
        proof {
            lemma_run_from_update(old(self).runs@, self.runs@, i as int, event.run_id@);
            let after = self.runs@[i as int];
            assert forall|k: int| 0 <= k < after.events@.len() implies (
            #[trigger] after.events@[k]).event_sequence == sequence_at(k) by {
                if k < n {
                    assert(after.events@[k] == old(self).runs@[i as int].events@[k]);
                }
            }
            assert(after.wf());
            assert(self.runs@ =~= old(self).runs@.update(i as int, after));
        }
        Ok(())
    }

    /// The sequence number that the next event of a run takes.
    pub fn next_event_sequence(&self, run_id: &RunId) -> (r: Result<u64, JournalError>)
        requires
            self.wf(),
        ensures
            match r {
                Ok(n) => self.has_run(run_id@) && n == next_sequence(
                    last_sequence(self.run(run_id@).events@),
                ) && n > 0,
                Err(JournalError::RunNotFound(id)) => !self.has_run(run_id@) && id@ == run_id@,
                Err(_) => false,
            },
    {
        let i: usize = self.locate(run_id)?;
        let n: usize = self.runs[i].events.len();
        let last: u64 = if n == 0 {
            self.runs[i].snapshot.last_event_sequence
        } else {
            self.runs[i].events[n - 1].event_sequence
        };
        assert(self.runs@[i as int].wf());
        Ok(last.saturating_add(1))
    }

    /// Keeps a request or a response of an advisor with the run, and gives a reference
    /// to it.
    pub fn write_advice_artifact(&mut self, run_id: &RunId, kind: &str, json: &str) -> (r: Result<
        String,
        JournalError,
    >)
        requires
            old(self).wf(),
        ensures
            final(self).wf(),
            match r {
                Ok(reference) => {
                    let before = old(self).run(run_id@);
                    let after = final(self).run(run_id@);
                    &&& reference@ == artifact_reference(kind@, json@)
                    &&& after.advice_artifacts@.len() == before.advice_artifacts@.len() + 1
                    &&& after.advice_artifacts@.drop_last() == before.advice_artifacts@
                    &&& after.advice_artifacts@.last().reference@ == reference@
                    &&& after.advice_artifacts@.last().json@ == json@
                    &&& after == (RunJournalV1 { advice_artifacts: after.advice_artifacts, ..before })
                    &&& final(self).replaces(*old(self), run_id@, after)
                },
                Err(JournalError::RunNotFound(id)) => !old(self).has_run(run_id@) && id@ == run_id@
                    && final(self).runs@ == old(self).runs@,
                Err(_) => false,
            },
    {
        let i: usize = self.locate(run_id)?;
        let reference: String = advice_reference(kind, json);
        proof {
            lemma_run_from_same(old(self).runs@, i as int, run_id@);
        }
        self.runs[i].advice_artifacts.push(
            AdviceArtifactV1 { reference: reference.clone(), json: text(json) },
        );
        proof {
            lemma_run_from_update(old(self).runs@, self.runs@, i as int, run_id@);
            assert(self.runs@ =~= old(self).runs@.update(i as int, self.runs@[i as int]));
            assert(self.runs@[i as int].advice_artifacts@.drop_last() =~= old(self).runs@[i as int].advice_artifacts@);
        }
        Ok(reference)
    }

    /// Reads the next page of a run's events. A run that is not recorded has none.
    pub fn poll_events(&self, run_id: &RunId, cursor: EventCursor) -> (r: Result<
        Vec<&EventEnvelopeV1>,
        JournalError,
    >)
        ensures
            r is Ok,
            derefs(r->Ok_0@) == if self.has_run(run_id@) {
                page(self.run(run_id@).events@, cursor)
            } else {
                Seq::empty()
            },
    {
        match self.find(run_id) {
            Some(i) => Ok(poll_events(&self.runs[i].events, cursor)),
            None => {
                let none: Vec<&EventEnvelopeV1> = Vec::new();
                assert(derefs(none@) =~= Seq::empty());
                Ok(none)
            },
        }
    }

    /// The runs that a restart goes on with, by id.
    pub fn restore_active_runs(&self) -> (r: Vec<RunSnapshotV1>)
        ensures
            r@ == sorted(active_snapshots(self.runs@), snapshot_less()),
    {
        let mut found: Vec<RunSnapshotV1> = Vec::new();
        let ghost keep = |s: RunSnapshotV1| s.active && !is_terminal_state(s.state);
        let ghost less = snapshot_less();
        let ghost all = self.runs@.map_values(|r: RunJournalV1| r.snapshot);
        let mut i: usize = 0;
        proof {
            reveal(Seq::filter);
            assert(found@ =~= sorted(all.take(0).filter(keep), less));
        }
        while i < self.runs.len()
            invariant
                i <= self.runs@.len(),
                keep == (|s: RunSnapshotV1| s.active && !is_terminal_state(s.state)),
                less == snapshot_less(),
                all == self.runs@.map_values(|r: RunJournalV1| r.snapshot),
                found@ == sorted(all.take(i as int).filter(keep), less),
            decreases self.runs@.len() - i,
        {
            let snapshot: &RunSnapshotV1 = &self.runs[i].snapshot;
            let ghost so_far = all.take(i + 1);
            proof {
                lemma_filter_last(so_far, keep);
                assert(so_far.drop_last() =~= all.take(i as int));
                assert(so_far.last() == *snapshot);
            }
            if snapshot.active && !is_terminal(&snapshot.state) {
                let mut at: usize = found.len();
                while at > 0 && before(snapshot.run_id.as_str(), found[at - 1].run_id.as_str())
                    invariant
                        at <= found@.len(),
                        less == snapshot_less(),
                        forall|k: int|
                            at <= k < found@.len() ==> less(*snapshot, #[trigger] found@[k]),
                    decreases at,
                {
                    at -= 1;
                }
                proof {
                    lemma_insert_at(found@, *snapshot, less, at as int);
                    assert(so_far.filter(keep).drop_last() =~= all.take(i as int).filter(keep));
                }
                found.insert(at, snapshot.clone());
            }
            i += 1;
        }
        assert(all.take(all.len() as int) =~= all);
        found
    }

    /// Records a tool call that has just been requested.
    pub fn record_tool_call_requested(&mut self, record: ToolCallRecordV1) -> (r: Result<
        (),
        JournalError,
    >)
        requires
            old(self).wf(),
        ensures
            final(self).wf(),
            match r {
                Ok(_) => {
                    let id = record.run_id@;
                    let before = old(self).run(id);
                    let after = final(self).run(id);
                    &&& record.status == ToolCallStatus::Requested
                    &&& call_from(before.tool_calls@, record.tool_call_id@, 0)
                        == before.tool_calls@.len()
                    &&& exists|at: int|
                        #[trigger] call_slot(before.tool_calls@, record.tool_call_id@, at)
                            && after.tool_calls@ == before.tool_calls@.insert(at, record)
                    &&& after == (RunJournalV1 { tool_calls: after.tool_calls, ..before })
                    &&& final(self).replaces(*old(self), id, after)
                },
                Err(e) => {
                    &&& final(self).runs@ == old(self).runs@
                    &&& if record.status != ToolCallStatus::Requested {
                        e matches JournalError::Validation(message) && message@
                            == "new tool-call records must start as REQUESTED"@
                    } else if !old(self).has_run(record.run_id@) {
                        e matches JournalError::RunNotFound(id) && id@ == record.run_id@
                    } else {
                        e matches JournalError::DuplicateToolCall(id) && id@ == record.tool_call_id@
                            && call_from(
                            old(self).run(record.run_id@).tool_calls@,
                            record.tool_call_id@,
                            0,
                        ) < old(self).run(record.run_id@).tool_calls@.len()
                    }
                },
            },
    {
        if record.status != ToolCallStatus::Requested {
            return Err(
                JournalError::Validation(text("new tool-call records must start as REQUESTED")),
            );
        }
        let i: usize = self.locate(&record.run_id)?;
        if let Some(_k) = find_call(&self.runs[i].tool_calls, &record.tool_call_id) {
            return Err(JournalError::DuplicateToolCall(text(record.tool_call_id.as_str())));
        }
        let ghost calls = self.runs@[i as int].tool_calls@;
        let ghost id = record.tool_call_id@;
        let mut at: usize = self.runs[i].tool_calls.len();
        while at > 0 && before(
            record.tool_call_id.as_str(),
            self.runs[i].tool_calls[at - 1].tool_call_id.as_str(),
        )
            invariant
                i < self.runs@.len(),
                calls == self.runs@[i as int].tool_calls@,
                id == record.tool_call_id@,
                at <= calls.len(),
                forall|k: int|
                    at <= k < calls.len() ==> text_before(
                        id,
                        (#[trigger] calls[k]).tool_call_id@,
                    ),
            decreases at,
        {
            at -= 1;
        }
        proof {
            lemma_run_from_same(old(self).runs@, i as int, record.run_id@);
            assert forall|k: int| 0 <= k < at implies text_before(
                (#[trigger] calls[k]).tool_call_id@,
                id,
            ) by {
                lemma_text_before(calls[at - 1].tool_call_id@, id, id);
                if k < at - 1 {
                    lemma_text_before(calls[k].tool_call_id@, calls[at - 1].tool_call_id@, id);
                }
            }
            assert(call_slot(calls, id, at as int));
        }
        let ghost run_id = record.run_id@;
        let ghost added = record;
        self.runs[i].tool_calls.insert(at, record);
        proof {
            lemma_run_from_update(old(self).runs@, self.runs@, i as int, run_id);
            let after = self.runs@[i as int];
            assert(after.tool_calls@ == calls.insert(at as int, added));
            lemma_ordered_insert(calls, added, at as int);
            assert(after.wf());
            assert(self.runs@ =~= old(self).runs@.update(i as int, after));
        }
        Ok(())
    }

    /// Moves a tool call on. A call that completed is not run again, and one whose
    /// outcome is unknown waits for the supervisor.
    pub fn transition_tool_call(
        &mut self,
        run_id: &RunId,
        tool_call_id: &ToolCallId,
        next: ToolCallStatus,
        result_hash: Option<String>,
        outcome_summary: Option<String>,
    ) -> (r: Result<ToolCallRecordV1, JournalError>)
        requires
            old(self).wf(),
        ensures
            final(self).wf(),
            match r {
                Ok(record) => {
                    let before = old(self).run(run_id@);
                    let after = final(self).run(run_id@);
                    let k = call_from(before.tool_calls@, tool_call_id@, 0);
                    &&& k < before.tool_calls@.len()
                    &&& is_tool_step(before.tool_calls@[k].status, next)
                    &&& record == (ToolCallRecordV1 {
                        status: next,
                        result_hash: if result_hash is Some {
                            result_hash
                        } else {
                            before.tool_calls@[k].result_hash
                        },
                        outcome_summary: if outcome_summary is Some {
                            outcome_summary
                        } else {
                            before.tool_calls@[k].outcome_summary
                        },
                        ..before.tool_calls@[k]
                    })
                    &&& after.tool_calls@ == before.tool_calls@.update(k, record)
                    &&& after == (RunJournalV1 { tool_calls: after.tool_calls, ..before })
                    &&& final(self).replaces(*old(self), run_id@, after)
                },
                Err(e) => {
                    let calls = old(self).run(run_id@).tool_calls@;
                    let k = call_from(calls, tool_call_id@, 0);
                    &&& final(self).runs@ == old(self).runs@
                    &&& if !old(self).has_run(run_id@) {
                        is_missing_record(e)
                    } else if k >= calls.len() {
                        e matches JournalError::MissingToolCall(id) && id@ == tool_call_id@
                    } else if calls[k].status == ToolCallStatus::Completed {
                        e matches JournalError::CompletedToolCallWillNotReplay(id) && id@
                            == tool_call_id@
                    } else if calls[k].status == ToolCallStatus::OutcomeUnknown {
                        e matches JournalError::OutcomeUnknownRequiresSupervisor(id) && id@
                            == tool_call_id@
                    } else {
                        e matches JournalError::InvalidToolTransition { tool_call_id: id, from, to }
                            && id@ == tool_call_id@ && from == calls[k].status && to == next
                            && !is_tool_step(from, to)
                    }
                },
            },
    {
        let i: usize = self.opened(run_id)?;
        let k: usize = match find_call(&self.runs[i].tool_calls, tool_call_id) {
            Some(k) => k,
            None => return Err(JournalError::MissingToolCall(text(tool_call_id.as_str()))),
        };
        let mut record: ToolCallRecordV1 = self.runs[i].tool_calls[k].clone();
        guard_replay(tool_call_id, &record.status)?;
        if !is_valid_tool_transition(&record.status, &next) {
            return Err(
                JournalError::InvalidToolTransition {
                    tool_call_id: text(tool_call_id.as_str()),
                    from: record.status,
                    to: next,
                },
            );
        }
        record.status = next;
        if result_hash.is_some() {
            record.result_hash = result_hash;
        }
        if outcome_summary.is_some() {
            record.outcome_summary = outcome_summary;
        }
        proof {
            lemma_run_from_same(old(self).runs@, i as int, run_id@);
        }
        self.runs[i].tool_calls[k] = record.clone();
        proof {
            lemma_run_from_update(old(self).runs@, self.runs@, i as int, run_id@);
            let after = self.runs@[i as int];
            let calls = old(self).runs@[i as int].tool_calls@;
            assert(after.tool_calls@ == calls.update(k as int, record));
            assert(calls_in_order(after.tool_calls@)) by {
                assert forall|x: int, y: int| 0 <= x < y < calls.len() implies text_before(
                    (#[trigger] after.tool_calls@[x]).tool_call_id@,
                    (#[trigger] after.tool_calls@[y]).tool_call_id@,
                ) by {
                    assert(text_before(calls[x].tool_call_id@, calls[y].tool_call_id@));
                }
            }
            assert(after.wf());
            assert(self.runs@ =~= old(self).runs@.update(i as int, after));
        }
        Ok(record)
    }

    /// The tool calls of a run, by id.
    pub fn load_tool_calls(&self, run_id: &RunId) -> (r: Result<
        &Vec<ToolCallRecordV1>,
        JournalError,
    >)
        ensures
            match r {
                Ok(calls) => self.has_run(run_id@) && *calls == self.run(run_id@).tool_calls,
                Err(e) => !self.has_run(run_id@) && is_missing_record(e),
            },
    {
        let i: usize = self.opened(run_id)?;
        Ok(&self.runs[i].tool_calls)
    }

    /// Records a patch that is new, and whose parent, if it names one, is known.
    pub fn record_patch_proposal(&mut self, proposal: PatchProposalRecordV1) -> (r: Result<
        (),
        JournalError,
    >)
        requires
            old(self).wf(),
        ensures
            final(self).wf(),
            match r {
                Ok(_) => {
                    let id = proposal.run_id@;
                    let before = old(self).run(id);
                    let after = final(self).run(id);
                    &&& proposal_refusal(before.patch_proposals@, proposal) is None
                    &&& after.patch_proposals@ == before.patch_proposals@.push(proposal)
                    &&& after == (RunJournalV1 { patch_proposals: after.patch_proposals, ..before })
                    &&& final(self).replaces(*old(self), id, after)
                },
                Err(e) => {
                    &&& final(self).runs@ == old(self).runs@
                    &&& if !old(self).has_run(proposal.run_id@) {
                        e matches JournalError::RunNotFound(id) && id@ == proposal.run_id@
                    } else {
                        e matches JournalError::Validation(message) && proposal_refusal(
                            old(self).run(proposal.run_id@).patch_proposals@,
                            proposal,
                        ) == Some(message@)
                    }
                },
            },
    {
        let i: usize = self.locate(&proposal.run_id)?;
        if proposal_known(&self.runs[i].patch_proposals, &proposal.patch_id) {
            return Err(JournalError::Validation(text("duplicate patch proposal")));
        }
        if let Some(parent) = &proposal.parent_patch_id {
            if !proposal_known(&self.runs[i].patch_proposals, parent) {
                return Err(JournalError::Validation(text("parent patch proposal is missing")));
            }
        }
        let ghost id = proposal.run_id@;
        proof {
            lemma_run_from_same(old(self).runs@, i as int, id);
        }
        self.runs[i].patch_proposals.push(proposal);
        proof {
            lemma_run_from_update(old(self).runs@, self.runs@, i as int, id);
            assert(self.runs@ =~= old(self).runs@.update(i as int, self.runs@[i as int]));
        }
        Ok(())
    }

    /// The patches that were proposed in a run, the first proposed first.
    pub fn load_patch_proposals(&self, run_id: &RunId) -> (r: Result<
        &Vec<PatchProposalRecordV1>,
        JournalError,
    >)
        ensures
            match r {
                Ok(list) => self.has_run(run_id@) && *list == self.run(run_id@).patch_proposals,
                Err(e) => !self.has_run(run_id@) && is_missing_record(e),
            },
    {
        let i: usize = self.opened(run_id)?;
        Ok(&self.runs[i].patch_proposals)
    }

    /// Records the application of a patch that was proposed.
    pub fn record_patch_application(
        &mut self,
        run_id: &RunId,
        application: PatchApplicationRecordV1,
    ) -> (r: Result<(), JournalError>)
        requires
            old(self).wf(),
        ensures
            final(self).wf(),
            match r {
                Ok(_) => {
                    let before = old(self).run(run_id@);
                    let after = final(self).run(run_id@);
                    &&& has_proposal(before.patch_proposals@, application.patch_id@)
                    &&& after.patch_applications@ == before.patch_applications@.push(application)
                    &&& after == (RunJournalV1 {
                        patch_applications: after.patch_applications,
                        ..before
                    })
                    &&& final(self).replaces(*old(self), run_id@, after)
                },
                Err(e) => {
                    &&& final(self).runs@ == old(self).runs@
                    &&& if !old(self).has_run(run_id@) {
                        e matches JournalError::RunNotFound(id) && id@ == run_id@
                    } else {
                        e matches JournalError::Validation(message) && !has_proposal(
                            old(self).run(run_id@).patch_proposals@,
                            application.patch_id@,
                        ) && message@ == "patch application references an unknown proposal"@
                    }
                },
            },
    {
        let i: usize = self.locate(run_id)?;
        if !proposal_known(&self.runs[i].patch_proposals, &application.patch_id) {
            return Err(
                JournalError::Validation(text("patch application references an unknown proposal")),
            );
        }
        proof {
            lemma_run_from_same(old(self).runs@, i as int, run_id@);
        }
        self.runs[i].patch_applications.push(application);
        proof {
            lemma_run_from_update(old(self).runs@, self.runs@, i as int, run_id@);
            assert(self.runs@ =~= old(self).runs@.update(i as int, self.runs@[i as int]));
        }
        Ok(())
    }

    /// The patches that were applied in a run, the first applied first.
    pub fn load_patch_applications(&self, run_id: &RunId) -> (r: Result<
        &Vec<PatchApplicationRecordV1>,
        JournalError,
    >)
        ensures
            match r {
                Ok(list) => self.has_run(run_id@) && *list == self.run(run_id@).patch_applications,
                Err(e) => !self.has_run(run_id@) && is_missing_record(e),
            },
    {
        let i: usize = self.opened(run_id)?;
        Ok(&self.runs[i].patch_applications)
    }
}

/// The reference to a kept request or response.
pub open spec fn artifact_reference(kind: Seq<char>, json: Seq<char>) -> Seq<char> {
    "local-journal-artifact:"@ + kind + "-"@ + fingerprint(json)
}

/// The reference under which an advisor's request or response is kept.
pub fn advice_reference(kind: &str, json: &str) -> (r: String)
    ensures
        r@ == artifact_reference(kind@, json@),
{
    text("local-journal-artifact:").concat(kind).concat("-").concat(stable_hash(json).as_str())
}

impl ToolCallStatus {
    /// The name of the status.
    pub open spec fn name(self) -> Seq<char> {
        match self {
            ToolCallStatus::Requested => "Requested"@,
            ToolCallStatus::PolicyAllowed => "PolicyAllowed"@,
            ToolCallStatus::ApprovalRequired => "ApprovalRequired"@,
            ToolCallStatus::Approved => "Approved"@,
            ToolCallStatus::Executing => "Executing"@,
            ToolCallStatus::Completed => "Completed"@,
            ToolCallStatus::Failed => "Failed"@,
            ToolCallStatus::OutcomeUnknown => "OutcomeUnknown"@,
        }
    }

    fn name_text(&self) -> (r: &'static str)
        ensures
            r@ == self.name(),
    {
        match self {
            ToolCallStatus::Requested => "Requested",
            ToolCallStatus::PolicyAllowed => "PolicyAllowed",
            ToolCallStatus::ApprovalRequired => "ApprovalRequired",
            ToolCallStatus::Approved => "Approved",
            ToolCallStatus::Executing => "Executing",
            ToolCallStatus::Completed => "Completed",
            ToolCallStatus::Failed => "Failed",
            ToolCallStatus::OutcomeUnknown => "OutcomeUnknown",
        }
    }
}

impl JournalError {
    /// The error as `{:?}` prints it.
    pub open spec fn debug(self) -> Seq<char> {
        match self {
            JournalError::Io(s) => debug_variant("Io"@, s@),
            JournalError::Serde(s) => debug_variant("Serde"@, s@),
            JournalError::Validation(s) => debug_variant("Validation"@, s@),
            JournalError::DuplicateRun(s) => debug_variant("DuplicateRun"@, s@),
            JournalError::RunNotFound(s) => debug_variant("RunNotFound"@, s@),
            JournalError::DuplicateToolCall(s) => debug_variant("DuplicateToolCall"@, s@),
            JournalError::MissingToolCall(s) => debug_variant("MissingToolCall"@, s@),
            JournalError::InvalidToolTransition { tool_call_id, from, to } => {
                "InvalidToolTransition { tool_call_id: "@ + debug_string(tool_call_id@)
                    + ", from: "@ + from.name() + ", to: "@ + to.name() + " }"@
            },
            JournalError::CompletedToolCallWillNotReplay(s) => debug_variant(
                "CompletedToolCallWillNotReplay"@,
                s@,
            ),
            JournalError::OutcomeUnknownRequiresSupervisor(s) => debug_variant(
                "OutcomeUnknownRequiresSupervisor"@,
                s@,
            ),
        }
    }

    /// Prints the error as `{:?}` does.
    pub fn debug_text(&self) -> (r: String)
        ensures
            r@ == self.debug(),
    {
        match self {
            JournalError::Io(s) => debug_variant_text("Io", s.as_str()),
            JournalError::Serde(s) => debug_variant_text("Serde", s.as_str()),
            JournalError::Validation(s) => debug_variant_text("Validation", s.as_str()),
            JournalError::DuplicateRun(s) => debug_variant_text("DuplicateRun", s.as_str()),
            JournalError::RunNotFound(s) => debug_variant_text("RunNotFound", s.as_str()),
            JournalError::DuplicateToolCall(s) => debug_variant_text(
                "DuplicateToolCall",
                s.as_str(),
            ),
            JournalError::MissingToolCall(s) => debug_variant_text("MissingToolCall", s.as_str()),
            JournalError::InvalidToolTransition { tool_call_id, from, to } => {
                text("InvalidToolTransition { tool_call_id: ").concat(
                    debug_quoted(tool_call_id.as_str()).as_str(),
                ).concat(", from: ").concat(from.name_text()).concat(", to: ").concat(
                    to.name_text(),
                ).concat(" }")
            },
            JournalError::CompletedToolCallWillNotReplay(s) => debug_variant_text(
                "CompletedToolCallWillNotReplay",
                s.as_str(),
            ),
            JournalError::OutcomeUnknownRequiresSupervisor(s) => debug_variant_text(
                "OutcomeUnknownRequiresSupervisor",
                s.as_str(),
            ),
        }
    }
}

/// The sequence number of the last event, if there is one.
pub open spec fn last_sequence(events: Seq<EventEnvelopeV1>) -> Option<u64> {
    if events.len() == 0 {
        None
    } else {
        Some(events.last().event_sequence)
    }
}

fn find_call(calls: &Vec<ToolCallRecordV1>, id: &ToolCallId) -> (r: Option<usize>)
    ensures
        match r {
            Some(k) => k == call_from(calls@, id@, 0) && k < calls@.len()
                && calls@[k as int].tool_call_id@ == id@,
            None => call_from(calls@, id@, 0) == calls@.len() && forall|j: int|
                0 <= j < calls@.len() ==> (#[trigger] calls@[j]).tool_call_id@ != id@,
        },
{
    let mut k: usize = 0;
    while k < calls.len()
        invariant
            k <= calls@.len(),
            call_from(calls@, id@, 0) == call_from(calls@, id@, k as int),
            forall|j: int| 0 <= j < k ==> (#[trigger] calls@[j]).tool_call_id@ != id@,
        decreases calls@.len() - k,
    {
        if same(calls[k].tool_call_id.as_str(), id.as_str()) {
            return Some(k);
        }
        k += 1;
    }
    None
}

proof fn lemma_ordered_insert(calls: Seq<ToolCallRecordV1>, record: ToolCallRecordV1, at: int)
    requires
        calls_in_order(calls),
        call_slot(calls, record.tool_call_id@, at),
    ensures
        calls_in_order(calls.insert(at, record)),
{
    let after = calls.insert(at, record);
    assert forall|x: int, y: int| 0 <= x < y < after.len() implies text_before(
        (#[trigger] after[x]).tool_call_id@,
        (#[trigger] after[y]).tool_call_id@,
    ) by {
        let a = if x < at { x } else { x - 1 };
        let b = if y < at { y } else { y - 1 };
        if x == at {
            assert(after[y] == calls[b]);
        } else if y == at {
            assert(after[x] == calls[a]);
        } else {
            assert(after[x] == calls[a]);
            assert(after[y] == calls[b]);
        }
    }
}

/// A call that was put into an ordered list is found where it was put.
pub proof fn lemma_inserted_call_is_found(
    calls: Seq<ToolCallRecordV1>,
    record: ToolCallRecordV1,
    at: int,
)
    requires
        call_slot(calls, record.tool_call_id@, at),
    ensures
        call_from(calls.insert(at, record), record.tool_call_id@, 0) == at,
{
    let after = calls.insert(at, record);
    let id = record.tool_call_id@;
    assert forall|j: int| 0 <= j < at implies (#[trigger] after[j]).tool_call_id@ != id by {
        assert(after[j] == calls[j]);
        lemma_text_before(id, id, id);
    }
    lemma_call_from(after, id, 0, at);
}

proof fn lemma_call_from(calls: Seq<ToolCallRecordV1>, id: Seq<char>, from: int, at: int)
    requires
        0 <= from <= at < calls.len(),
        calls[at].tool_call_id@ == id,
        forall|j: int| from <= j < at ==> (#[trigger] calls[j]).tool_call_id@ != id,
    ensures
        call_from(calls, id, from) == at,
    decreases at - from,
{
    if from < at {
        lemma_call_from(calls, id, from + 1, at);
    }
}

proof fn lemma_run_from_same(runs: Seq<RunJournalV1>, i: int, id: Seq<char>)
    requires
        run_from(runs, id, 0) == i,
        0 <= i < runs.len(),
    ensures
        runs[i].snapshot.run_id@ == id,
        forall|j: int| 0 <= j < i ==> (#[trigger] runs[j]).snapshot.run_id@ != id,
{
    lemma_run_from_bounds(runs, id, 0);
}

proof fn lemma_run_from_bounds(runs: Seq<RunJournalV1>, id: Seq<char>, from: int)
    requires
        0 <= from <= runs.len(),
    ensures
        from <= run_from(runs, id, from) <= runs.len(),
        run_from(runs, id, from) < runs.len() ==> runs[run_from(runs, id, from)].snapshot.run_id@
            == id,
        forall|j: int|
            from <= j < run_from(runs, id, from) ==> (#[trigger] runs[j]).snapshot.run_id@ != id,
    decreases runs.len() - from,
{
    if from < runs.len() && runs[from].snapshot.run_id@ != id {
        lemma_run_from_bounds(runs, id, from + 1);
    }
}

proof fn lemma_run_from_update(
    before: Seq<RunJournalV1>,
    after: Seq<RunJournalV1>,
    i: int,
    id: Seq<char>,
)
    requires
        before.len() == after.len(),
        0 <= i < before.len(),
        run_from(before, id, 0) == i,
        forall|j: int|
            0 <= j < before.len() ==> (#[trigger] after[j]).snapshot.run_id@
                == before[j].snapshot.run_id@,
    ensures
        run_from(after, id, 0) == i,
{
    lemma_run_from_bounds(before, id, 0);
    lemma_run_from_bounds(after, id, 0);
    assert(after[i].snapshot.run_id@ == id);
    let k = run_from(after, id, 0);
    if k < i {
        assert(before[k].snapshot.run_id@ == id);
    }
}

/// A run that is appended to the journal is found at the end of it.
pub proof fn lemma_new_run_is_found(before: DelegatedJournal, after: DelegatedJournal, id: Seq<char>)
    requires
        !before.has_run(id),
        after.runs@.len() == before.runs@.len() + 1,
        after.runs@.drop_last() == before.runs@,
        after.runs@.last().snapshot.run_id@ == id,
    ensures
        after.has_run(id),
        after.run_at(id) == before.runs@.len(),
        after.run(id) == after.runs@.last(),
{
    lemma_run_from_bounds(before.runs@, id, 0);
    lemma_run_from_bounds(after.runs@, id, 0);
    let k = after.run_at(id);
    let last = before.runs@.len() as int;
    assert(after.runs@[last].snapshot.run_id@ == id);
    if k < last {
        assert(after.runs@.drop_last()[k] == after.runs@[k]);
    }
}

/// A character that may stand in the name of a run's directory.
pub open spec fn segment_char(c: char) -> char {
    if is_alnum(c) || c == '-' || c == '_' || c == '.' {
        c
    } else {
        '_'
    }
}

/// The name of a run's directory: the id with other characters than letters, digits,
/// `-`, `_` and `.` replaced and cut after 48 of them, and the hash of the whole id.
pub open spec fn run_segment(id: Seq<char>) -> Seq<char> {
    let safe = id.map_values(|c: char| segment_char(c));
    let head = if safe.len() > 48 {
        safe.take(48)
    } else {
        safe
    };
    head + "-"@ + hex_digits(fnv1a64(encode_utf8(json_string(id))) as nat, 16)
}

/// The name of a run's directory.
pub fn safe_run_segment(run_id: &RunId) -> (r: String)
    ensures
        r@ == run_segment(run_id@),
{
    let hash: u64 = fnv_of(quoted(run_id.as_str()).as_str());
    let chars: Vec<char> = chars_of(run_id.as_str());
    let ghost safe = run_id@.map_values(|c: char| segment_char(c));
    let mut segment: String = String::new();
    let mut i: usize = 0;
    while i < chars.len() && i < 48
        invariant
            i <= chars@.len(),
            i <= 48,
            chars@ == run_id@,
            safe == run_id@.map_values(|c: char| segment_char(c)),
            segment@ == safe.take(i as int),
        decreases chars@.len() - i,
    {
        let c: char = chars[i];
        if alnum(c) || c == '-' || c == '_' || c == '.' {
            segment.push(c);
        } else {
            segment.push('_');
        }
        i += 1;
        assert(safe.take(i as int) =~= safe.take(i - 1).push(safe[i - 1]));
    }
    assert(safe.take(safe.len() as int) =~= safe);
    segment.concat("-").concat(to_hex(hash, 16).as_str())
}

/// The lines of a JSON-lines file that hold a record.
pub open spec fn record_lines(text: Seq<char>) -> Seq<Seq<char>> {
    lines_of(text).filter(|line: Seq<char>| !blank(line))
}

/// The lines of a JSON-lines file that hold a record; blank lines hold none.
pub fn jsonl_records(file: &str) -> (r: Vec<String>)
    ensures
        texts(r@) == record_lines(file@),
{
    let lines: Vec<String> = split_lines(file);
    let ghost all = texts(lines@);
    let ghost keep = |line: Seq<char>| !blank(line);
    let mut r: Vec<String> = Vec::new();
    let mut i: usize = 0;
    proof {
        reveal(Seq::filter);
        assert(texts(r@) =~= all.take(0).filter(keep));
    }
    while i < lines.len()
        invariant
            i <= lines@.len(),
            all == texts(lines@),
            keep == (|line: Seq<char>| !blank(line)),
            texts(r@) == all.take(i as int).filter(keep),
        decreases lines@.len() - i,
    {
        proof {
            lemma_filter_last(all.take(i + 1), keep);
            assert(all.take(i + 1).drop_last() =~= all.take(i as int));
        }
        if !is_blank(lines[i].as_str()) {
            let ghost prior = texts(r@);
            r.push(lines[i].clone());
            assert(texts(r@) =~= prior.push(all[i as int]));
        }
        i += 1;
    }
    assert(all.take(all.len() as int) =~= all);
    r
}

/// Every event of a run carries the number of its place: the log has no gap and no
/// event twice.
pub proof fn lemma_log_has_no_gap(run: RunJournalV1, i: int, j: int)
    requires
        run.wf(),
        0 <= i < j < run.events@.len() <= u64::MAX,
    ensures
        run.events@[i].event_sequence == i + 1,
        run.events@[i].event_sequence < run.events@[j].event_sequence,
{
    assert(run.events@[i].event_sequence == sequence_at(i));
    assert(run.events@[j].event_sequence == sequence_at(j));
}

/// A run is restored after a restart exactly if its state is not terminal.
pub proof fn lemma_restored_runs_are_unfinished(journal: DelegatedJournal, i: int)
    requires
        journal.wf(),
        0 <= i < journal.runs@.len(),
    ensures
        active_snapshots(journal.runs@).contains(journal.runs@[i].snapshot) == !is_terminal_state(
            journal.runs@[i].snapshot.state,
        ),
{
    let all = journal.runs@.map_values(|r: RunJournalV1| r.snapshot);
    let keep = |s: RunSnapshotV1| s.active && !is_terminal_state(s.state);
    assert(all[i] == journal.runs@[i].snapshot);
    assert(journal.runs@[i].wf());
    if active_snapshots(journal.runs@).contains(journal.runs@[i].snapshot) {
        let k = choose|k: int|
            0 <= k < all.filter(keep).len() && all.filter(keep)[k] == journal.runs@[i].snapshot;
        all.lemma_filter_pred(keep, k);
    } else if !is_terminal_state(journal.runs@[i].snapshot.state) {
        all.lemma_filter_contains(keep, i);
    }
}

/// A run that was in order is taken in again just as it was kept: a restart loses
/// nothing of it.
pub proof fn lemma_kept_run_is_unchanged(run: RunJournalV1)
    requires
        run.wf(),
    ensures
        run.is_ordered(),
        run.caught_up() == run,
{
    if run.events@.len() > 0 {
        assert(run.events@.last().event_sequence == sequence_at(run.events@.len() - 1));
    }
}

} // verus!
