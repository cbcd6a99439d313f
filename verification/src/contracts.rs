//! Execution contracts: what a delegated run may do, and the records that a
//! supervisor and a worker exchange about it.

use vstd::prelude::*;
use vstd::string::*;
use crate::hash::{fingerprint, stable_hash};
use crate::json::{
    array, array_text, field, field_text, json_string, object, object_text, quoted, string_array,
    string_array_text, truth, truth_text,
};
use crate::{EXECUTION_CONTRACT_SCHEMA_VERSION, EXECUTION_PROTOCOL_VERSION};
use crate::text::{
    alnum, begins_with, blank, byte_len, chars_of, contains, contains_char, decimal, has_char,
    has_text, is_alnum, is_blank, is_white, lemma_ascii_utf8_len, lemma_decimal,
    lemma_trimmed_same, lowered, plus, replace_char, same, same_list, split_at_either,
    split_either, starts_with, text, texts, to_decimal, to_lower, trim, trimmed, utf8_len,
    with_replaced,
};

verus! {

const MAX_OBJECTIVE_CHARS: usize = 8_000;

const MAX_PATH_CHARS: usize = 260;

const MAX_IDENTIFIER_CHARS: usize = 120;

// ---------------------------------------------------------------------------
// Identifiers

/// A character that an identifier may hold.
pub open spec fn is_identifier_char(c: char) -> bool {
    is_alnum(c) || c == '-' || c == '_' || c == ':' || c == '.'
}

/// A conservative identifier: without the white space at its ends it has between 1
/// and 120 bytes, all of them letters, digits, `-`, `_`, `:` or `.`.
pub open spec fn is_identifier(value: Seq<char>) -> bool {
    let inner = trimmed(value);
    &&& inner.len() > 0
    &&& utf8_len(inner) <= 120
    &&& forall|i: int| 0 <= i < inner.len() ==> is_identifier_char(#[trigger] inner[i])
}

/// What is said of a value that is no identifier.
pub open spec fn identifier_message(label: Seq<char>) -> Seq<char> {
    label + " must be a conservative non-empty identifier"@
}

fn validate_identifier(label: &str, value: &str) -> (r: Result<(), String>)
    ensures
        match r {
            Ok(_) => is_identifier(value@),
            Err(message) => !is_identifier(value@) && message@ == identifier_message(label@),
        },
{
    let inner: String = trim(value);
    let chars: Vec<char> = chars_of(inner.as_str());
    let mut ok: bool = chars.len() > 0 && byte_len(inner.as_str()) <= MAX_IDENTIFIER_CHARS;
    let mut i: usize = 0;
    while ok && i < chars.len()
        invariant
            i <= chars@.len(),
            chars@ == inner@,
            inner@ == trimmed(value@),
            ok ==> inner@.len() > 0 && utf8_len(inner@) <= 120,
            ok ==> forall|j: int| 0 <= j < i ==> is_identifier_char(#[trigger] inner@[j]),
            !ok ==> !is_identifier(value@),
        decreases chars@.len() - i,
    {
        let c: char = chars[i];
        if !(alnum(c) || c == '-' || c == '_' || c == ':' || c == '.') {
            assert(!is_identifier_char(inner@[i as int]));
            ok = false;
        }
        i += 1;
    }
    if ok {
        Ok(())
    } else {
        Err(plus(label, " must be a conservative non-empty identifier"))
    }
}

/// A short word of identifier characters with a number behind it is an identifier.
pub proof fn lemma_numbered_identifier(word: Seq<char>, n: u64)
    requires
        word.len() <= 100,
        forall|i: int| 0 <= i < word.len() ==> is_identifier_char(#[trigger] word[i]),
    ensures
        is_identifier(word + decimal(n as nat)),
{
    let whole = word + decimal(n as nat);
    lemma_decimal(n as nat);
    assert forall|i: int| 0 <= i < whole.len() implies is_identifier_char(#[trigger] whole[i])
        && !is_white(whole[i]) by {
        if i >= word.len() {
            assert(whole[i] == decimal(n as nat)[i - word.len()]);
        } else {
            assert(is_identifier_char(word[i]));
        }
    }
    lemma_trimmed_same(whole);
    assert(vstd::utf8::is_ascii_chars(whole)) by {
        assert forall|i: int| 0 <= i < whole.len() implies (0 <= #[trigger] whole[i] as nat && (
        whole[i] as nat) < 128) by {
            assert(is_identifier_char(whole[i]));
        }
    }
    lemma_ascii_utf8_len(whole);
}

/// Names a run.
#[derive(Debug, PartialEq, Eq, PartialOrd, Ord, Hash)]
pub struct RunId(pub String);

impl View for RunId {
    type V = Seq<char>;

    open spec fn view(&self) -> Seq<char> {
        self.0@
    }
}

impl Clone for RunId {
    fn clone(&self) -> (r: Self)
        ensures
            r == *self,
    {
        RunId(self.0.clone())
    }
}

impl RunId {
    /// Takes a conservative identifier as it stands.
    pub fn new(value: &str) -> (r: Result<Self, String>)
        ensures
            match r {
                Ok(id) => is_identifier(value@) && id@ == value@,
                Err(message) => !is_identifier(value@) && message@ == identifier_message(
                    "RunId"@,
                ),
            },
    {
        validate_identifier("RunId", value)?;
        Ok(RunId(text(value)))
    }

    /// The identifier's text.
    pub fn as_str(&self) -> (r: &str)
        ensures
            r@ == self@,
    {
        self.0.as_str()
    }
}

/// Names a worker session.
#[derive(Debug, PartialEq, Eq, PartialOrd, Ord, Hash)]
pub struct WorkerSessionId(pub String);

impl View for WorkerSessionId {
    type V = Seq<char>;

    open spec fn view(&self) -> Seq<char> {
        self.0@
    }
}

impl Clone for WorkerSessionId {
    fn clone(&self) -> (r: Self)
        ensures
            r == *self,
    {
        WorkerSessionId(self.0.clone())
    }
}

impl WorkerSessionId {
    /// Takes a conservative identifier as it stands.
    pub fn new(value: &str) -> (r: Result<Self, String>)
        ensures
            match r {
                Ok(id) => is_identifier(value@) && id@ == value@,
                Err(message) => !is_identifier(value@) && message@ == identifier_message(
                    "WorkerSessionId"@,
                ),
            },
    {
        validate_identifier("WorkerSessionId", value)?;
        Ok(WorkerSessionId(text(value)))
    }

    /// The identifier's text.
    pub fn as_str(&self) -> (r: &str)
        ensures
            r@ == self@,
    {
        self.0.as_str()
    }
}

/// Names one turn of a worker.
#[derive(Debug, PartialEq, Eq, PartialOrd, Ord, Hash)]
pub struct TurnId(pub String);

impl View for TurnId {
    type V = Seq<char>;

    open spec fn view(&self) -> Seq<char> {
        self.0@
    }
}

impl Clone for TurnId {
    fn clone(&self) -> (r: Self)
        ensures
            r == *self,
    {
        TurnId(self.0.clone())
    }
}

impl TurnId {
    /// Takes a conservative identifier as it stands.
    pub fn new(value: &str) -> (r: Result<Self, String>)
        ensures
            match r {
                Ok(id) => is_identifier(value@) && id@ == value@,
                Err(message) => !is_identifier(value@) && message@ == identifier_message(
                    "TurnId"@,
                ),
            },
    {
        validate_identifier("TurnId", value)?;
        Ok(TurnId(text(value)))
    }

    /// The identifier's text.
    pub fn as_str(&self) -> (r: &str)
        ensures
            r@ == self@,
    {
        self.0.as_str()
    }
}

/// Names one item of a turn.
#[derive(Debug, PartialEq, Eq, PartialOrd, Ord, Hash)]
pub struct ItemId(pub String);

impl View for ItemId {
    type V = Seq<char>;

    open spec fn view(&self) -> Seq<char> {
        self.0@
    }
}

impl Clone for ItemId {
    fn clone(&self) -> (r: Self)
        ensures
            r == *self,
    {
        ItemId(self.0.clone())
    }
}

impl ItemId {
    /// Takes a conservative identifier as it stands.
    pub fn new(value: &str) -> (r: Result<Self, String>)
        ensures
            match r {
                Ok(id) => is_identifier(value@) && id@ == value@,
                Err(message) => !is_identifier(value@) && message@ == identifier_message(
                    "ItemId"@,
                ),
            },
    {
        validate_identifier("ItemId", value)?;
        Ok(ItemId(text(value)))
    }

    /// The identifier's text.
    pub fn as_str(&self) -> (r: &str)
        ensures
            r@ == self@,
    {
        self.0.as_str()
    }
}

/// Names one tool call.
#[derive(Debug, PartialEq, Eq, PartialOrd, Ord, Hash)]
pub struct ToolCallId(pub String);

impl View for ToolCallId {
    type V = Seq<char>;

    open spec fn view(&self) -> Seq<char> {
        self.0@
    }
}

impl Clone for ToolCallId {
    fn clone(&self) -> (r: Self)
        ensures
            r == *self,
    {
        ToolCallId(self.0.clone())
    }
}

impl ToolCallId {
    /// Takes a conservative identifier as it stands.
    pub fn new(value: &str) -> (r: Result<Self, String>)
        ensures
            match r {
                Ok(id) => is_identifier(value@) && id@ == value@,
                Err(message) => !is_identifier(value@) && message@ == identifier_message(
                    "ToolCallId"@,
                ),
            },
    {
        validate_identifier("ToolCallId", value)?;
        Ok(ToolCallId(text(value)))
    }

    /// The identifier's text.
    pub fn as_str(&self) -> (r: &str)
        ensures
            r@ == self@,
    {
        self.0.as_str()
    }
}

/// Names an approval request.
#[derive(Debug, PartialEq, Eq, PartialOrd, Ord, Hash)]
pub struct ApprovalId(pub String);

impl View for ApprovalId {
    type V = Seq<char>;

    open spec fn view(&self) -> Seq<char> {
        self.0@
    }
}

impl Clone for ApprovalId {
    fn clone(&self) -> (r: Self)
        ensures
            r == *self,
    {
        ApprovalId(self.0.clone())
    }
}

impl ApprovalId {
    /// Takes a conservative identifier as it stands.
    pub fn new(value: &str) -> (r: Result<Self, String>)
        ensures
            match r {
                Ok(id) => is_identifier(value@) && id@ == value@,
                Err(message) => !is_identifier(value@) && message@ == identifier_message(
                    "ApprovalId"@,
                ),
            },
    {
        validate_identifier("ApprovalId", value)?;
        Ok(ApprovalId(text(value)))
    }

    /// The identifier's text.
    pub fn as_str(&self) -> (r: &str)
        ensures
            r@ == self@,
    {
        self.0.as_str()
    }
}

/// Names an artifact.
#[derive(Debug, PartialEq, Eq, PartialOrd, Ord, Hash)]
pub struct ArtifactId(pub String);

impl View for ArtifactId {
    type V = Seq<char>;

    open spec fn view(&self) -> Seq<char> {
        self.0@
    }
}

impl Clone for ArtifactId {
    fn clone(&self) -> (r: Self)
        ensures
            r == *self,
    {
        ArtifactId(self.0.clone())
    }
}

impl ArtifactId {
    /// Takes a conservative identifier as it stands.
    pub fn new(value: &str) -> (r: Result<Self, String>)
        ensures
            match r {
                Ok(id) => is_identifier(value@) && id@ == value@,
                Err(message) => !is_identifier(value@) && message@ == identifier_message(
                    "ArtifactId"@,
                ),
            },
    {
        validate_identifier("ArtifactId", value)?;
        Ok(ArtifactId(text(value)))
    }

    /// The identifier's text.
    pub fn as_str(&self) -> (r: &str)
        ensures
            r@ == self@,
    {
        self.0.as_str()
    }
}

/// Names a proposed patch.
#[derive(Debug, PartialEq, Eq, PartialOrd, Ord, Hash)]
pub struct PatchId(pub String);

impl View for PatchId {
    type V = Seq<char>;

    open spec fn view(&self) -> Seq<char> {
        self.0@
    }
}

impl Clone for PatchId {
    fn clone(&self) -> (r: Self)
        ensures
            r == *self,
    {
        PatchId(self.0.clone())
    }
}

impl PatchId {
    /// Takes a conservative identifier as it stands.
    pub fn new(value: &str) -> (r: Result<Self, String>)
        ensures
            match r {
                Ok(id) => is_identifier(value@) && id@ == value@,
                Err(message) => !is_identifier(value@) && message@ == identifier_message(
                    "PatchId"@,
                ),
            },
    {
        validate_identifier("PatchId", value)?;
        Ok(PatchId(text(value)))
    }

    /// The identifier's text.
    pub fn as_str(&self) -> (r: &str)
        ensures
            r@ == self@,
    {
        self.0.as_str()
    }
}

// ---------------------------------------------------------------------------
// Runs and contracts

/// Where a run stands.
#[derive(Clone, Copy, Debug, PartialEq, Eq, Structural)]
pub enum RunState {
    Draft,
    AwaitingApproval,
    Ready,
    Starting,
    Running,
    Paused,
    NeedsSupervisor,
    CancelRequested,
    Verifying,
    CompletedVerified,
    Failed,
    Cancelled,
}

/// The states that a run does not leave.
pub open spec fn is_terminal_state(state: RunState) -> bool {
    state == RunState::CompletedVerified || state == RunState::Failed || state
        == RunState::Cancelled
}

/// Whether a run in this state has ended.
pub fn is_terminal(state: &RunState) -> (r: bool)
    ensures
        r == is_terminal_state(*state),
{
    matches!(state, RunState::CompletedVerified | RunState::Failed | RunState::Cancelled)
}

/// The immutable intent and the budgets of one delegated run.
#[derive(Clone, Debug, PartialEq, Eq)]
pub struct ExecutionContractV1 {
    pub schema_version: u32,
    pub task_id: String,
    pub objective: String,
    pub workspace: String,
    pub feature_branch: String,
    pub allowed_paths: Vec<String>,
    pub forbidden_paths: Vec<String>,
    pub allowed_command_profiles: Vec<String>,
    pub ordered_steps: Vec<String>,
    pub acceptance_criteria: Vec<String>,
    pub retry_budget: u32,
    pub max_turns: u32,
    pub max_tool_calls: u32,
    pub max_elapsed_seconds: u64,
    pub provider_policy: ProviderPolicyV1,
    pub advisor_policy: Option<AdvisorPolicyV1>,
    pub escalation_conditions: Vec<String>,
    pub approval_requirements: Vec<ApprovalRequirementV1>,
    pub expected_artifacts: Vec<ExpectedArtifactV1>,
    pub verification_profile: String,
}

/// Which providers may work on a run.
#[derive(Clone, Debug, PartialEq, Eq)]
pub struct ProviderPolicyV1 {
    pub primary_provider_id: String,
    pub primary_model_id: String,
    pub fallback_provider_ids: Vec<String>,
    pub require_tool_calls: bool,
    pub allow_paid_fallbacks: bool,
}

/// How far advice from outside may be drawn on in a run.
#[derive(Clone, Debug, PartialEq, Eq)]
pub struct AdvisorPolicyV1 {
    pub enabled: bool,
    pub advisor_id: String,
    pub disclosure_classification: AdvisorDisclosureClassificationV1,
    pub maximum_response_length: usize,
    pub maximum_consultations_per_run: u32,
    pub advice_required: bool,
}

/// Whether what an advisor is told may leave the machine.
#[derive(Clone, Copy, Debug, PartialEq, Eq, Structural)]
pub enum AdvisorDisclosureClassificationV1 {
    LocalOnly,
    RemoteAllowed,
}

/// What an approval is asked for.
#[derive(Clone, Copy, Debug, PartialEq, Eq, Structural)]
pub enum ApprovalRequirementKind {
    RunStart,
    ToolException,
    UnrestrictedShell,
    GitPush,
    Merge,
}

/// An approval that a contract asks for.
#[derive(Clone, Debug, PartialEq, Eq)]
pub struct ApprovalRequirementV1 {
    pub kind: ApprovalRequirementKind,
    pub required: bool,
    pub reason: String,
}

/// The kinds of artifact that a run can be asked to leave.
#[derive(Clone, Copy, Debug, PartialEq, Eq, Structural)]
pub enum ExpectedArtifactKind {
    Diff,
    Verification,
    Escalation,
    FinalReview,
    Log,
}

/// An artifact that a run is asked to leave.
#[derive(Clone, Debug, PartialEq, Eq)]
pub struct ExpectedArtifactV1 {
    pub kind: ExpectedArtifactKind,
    pub name: String,
    pub required: bool,
}

/// What a worker says of itself when it connects.
#[derive(Clone, Debug, PartialEq, Eq)]
pub struct ProtocolHandshakeV1 {
    pub protocol_version: String,
    pub contract_schema_version: u32,
    pub worker_runtime: String,
    pub supports_delta_events: bool,
    pub supports_event_cursor: bool,
}

/// `label` with what is said of an empty value.
pub open spec fn empty_message(label: Seq<char>) -> Seq<char> {
    label + " must not be empty"@
}

/// `label` with what is said of a budget of zero.
pub open spec fn budget_message(label: Seq<char>) -> Seq<char> {
    label + " must be greater than zero"@
}

/// `found` and `expected` version numbers in one message.
pub open spec fn version_message(label: Seq<char>, found: Seq<char>, expected: Seq<char>) -> Seq<
    char,
> {
    label + " `"@ + found + "`; expected `"@ + expected + "`"@
}

fn version_text(label: &str, found: &str, expected: &str) -> (r: String)
    ensures
        r@ == version_message(label@, found@, expected@),
{
    label.to_owned().concat(" `").concat(found).concat("`; expected `").concat(expected).concat("`")
}

impl ProtocolHandshakeV1 {
    /// Why a handshake is refused, if it is.
    pub open spec fn refusal(self) -> Option<Seq<char>> {
        if self.protocol_version@ != EXECUTION_PROTOCOL_VERSION@ {
            Some(
                version_message(
                    "unsupported protocol_version"@,
                    self.protocol_version@,
                    EXECUTION_PROTOCOL_VERSION@,
                ),
            )
        } else if self.contract_schema_version != EXECUTION_CONTRACT_SCHEMA_VERSION {
            Some(
                version_message(
                    "unsupported contract_schema_version"@,
                    decimal(self.contract_schema_version as nat),
                    decimal(EXECUTION_CONTRACT_SCHEMA_VERSION as nat),
                ),
            )
        } else if blank(self.worker_runtime@) {
            Some(empty_message("worker_runtime"@))
        } else {
            None
        }
    }

    /// Accepts a handshake for this protocol version, this schema version and a
    /// named worker runtime.
    pub fn validate(&self) -> (r: Result<(), String>)
        ensures
            match r {
                Ok(_) => self.refusal() is None,
                Err(message) => self.refusal() == Some(message@),
            },
    {
        if !same(self.protocol_version.as_str(), EXECUTION_PROTOCOL_VERSION) {
            return Err(
                version_text(
                    "unsupported protocol_version",
                    self.protocol_version.as_str(),
                    EXECUTION_PROTOCOL_VERSION,
                ),
            );
        }
        if self.contract_schema_version != EXECUTION_CONTRACT_SCHEMA_VERSION {
            let found: String = to_decimal(self.contract_schema_version as u64);
            let expected: String = to_decimal(EXECUTION_CONTRACT_SCHEMA_VERSION as u64);
            return Err(
                version_text(
                    "unsupported contract_schema_version",
                    found.as_str(),
                    expected.as_str(),
                ),
            );
        }
        validate_non_empty("worker_runtime", self.worker_runtime.as_str())
    }
}

/// What a worker hands to the supervisor when it cannot go on alone.
#[derive(Clone, Debug, PartialEq, Eq)]
pub struct EscalationPacketV1 {
    pub schema_version: u32,
    pub run_id: RunId,
    pub blocking_question: String,
    pub blocking_condition: String,
    pub evidence: Vec<String>,
    pub attempts: Vec<String>,
    pub changed_files: Vec<String>,
    pub tests_and_command_results: Vec<String>,
    pub options: Vec<String>,
    pub recommendation: String,
    pub confidence: Confidence,
    pub current_checkpoint: String,
}

/// How sure a recommendation is.
#[derive(Clone, Copy, Debug, PartialEq, Eq, Structural)]
pub enum Confidence {
    Low,
    Medium,
    High,
}

/// What a supervisor decides.
#[derive(Clone, Copy, Debug, PartialEq, Eq, Structural)]
pub enum SupervisorDecisionKind {
    Continue,
    ModifyPlan,
    ApproveNarrowException,
    Rollback,
    Cancel,
}

/// A supervisor's answer to one request.
#[derive(Clone, Debug, PartialEq, Eq)]
pub struct SupervisorDecisionV1 {
    pub schema_version: u32,
    pub decision_id: String,
    pub run_id: RunId,
    pub approval_id: Option<ApprovalId>,
    pub request_hash: String,
    pub kind: SupervisorDecisionKind,
    pub rationale: String,
    pub expires_at_sequence: u64,
}

/// A request that waits for a supervisor.
#[derive(Clone, Debug, PartialEq, Eq)]
pub struct ApprovalRequestV1 {
    pub approval_id: ApprovalId,
    pub run_id: RunId,
    pub request_hash: String,
    pub reason: String,
    pub expires_at_sequence: u64,
    pub consumed: bool,
}

impl ApprovalRequestV1 {
    /// Why a decision does not settle this request at this point, if it does not.
    pub open spec fn refusal(self, decision: SupervisorDecisionV1, current_sequence: u64) -> Option<
        Seq<char>,
    > {
        if decision.schema_version != EXECUTION_CONTRACT_SCHEMA_VERSION {
            Some("unsupported supervisor decision schema_version"@)
        } else if decision.run_id@ != self.run_id@ {
            Some("supervisor decision is for a different run"@)
        } else if decision.approval_id is None || decision.approval_id->0@ != self.approval_id@ {
            Some("supervisor decision is not tied to this approval request"@)
        } else if decision.request_hash@ != self.request_hash@ {
            Some("supervisor decision request_hash does not match approval request"@)
        } else if self.consumed {
            Some("approval request was already consumed"@)
        } else if current_sequence > self.expires_at_sequence || current_sequence
            > decision.expires_at_sequence {
            Some("supervisor decision or approval request is stale"@)
        } else {
            None
        }
    }

    /// Accepts a decision that answers exactly this request, once, and in time.
    pub fn validate_decision(
        &self,
        decision: &SupervisorDecisionV1,
        current_sequence: u64,
    ) -> (r: Result<(), String>)
        ensures
            match r {
                Ok(_) => self.refusal(*decision, current_sequence) is None,
                Err(message) => self.refusal(*decision, current_sequence) == Some(message@),
            },
    {
        if decision.schema_version != EXECUTION_CONTRACT_SCHEMA_VERSION {
            return Err(text("unsupported supervisor decision schema_version"));
        }
        if !same(decision.run_id.as_str(), self.run_id.as_str()) {
            return Err(text("supervisor decision is for a different run"));
        }
        let tied: bool = match &decision.approval_id {
            Some(id) => same(id.as_str(), self.approval_id.as_str()),
            None => false,
        };
        if !tied {
            return Err(text("supervisor decision is not tied to this approval request"));
        }
        if !same(decision.request_hash.as_str(), self.request_hash.as_str()) {
            return Err(text("supervisor decision request_hash does not match approval request"));
        }
        if self.consumed {
            return Err(text("approval request was already consumed"));
        }
        if current_sequence > self.expires_at_sequence || current_sequence
            > decision.expires_at_sequence {
            return Err(text("supervisor decision or approval request is stale"));
        }
        Ok(())
    }
}

/// A decision that once settled a request and is tested again later is accepted
/// only as long as neither has expired: approval does not come back.
pub proof fn lemma_approval_expires(
    request: ApprovalRequestV1,
    decision: SupervisorDecisionV1,
    earlier: u64,
    later: u64,
)
    requires
        earlier <= later,
        request.refusal(decision, later) is None,
    ensures
        request.refusal(decision, earlier) is None,
{
}

/// What a run leaves behind when it ends.
#[derive(Clone, Debug, PartialEq, Eq)]
pub struct FinalRunResultV1 {
    pub schema_version: u32,
    pub status: RunState,
    pub objective: String,
    pub branch: String,
    pub files_changed: Vec<String>,
    pub verification: String,
    pub diff_artifacts: Vec<ArtifactId>,
    pub provider_history: Vec<String>,
    pub unresolved_warnings: Vec<String>,
    pub final_recommendation: String,
}

// ---------------------------------------------------------------------------
// Validation

fn validate_non_empty(label: &str, value: &str) -> (r: Result<(), String>)
    ensures
        match r {
            Ok(_) => !blank(value@),
            Err(message) => blank(value@) && message@ == empty_message(label@),
        },
{
    if is_blank(value) {
        Err(plus(label, " must not be empty"))
    } else {
        Ok(())
    }
}

/// A list with at least one entry, none of them blank.
pub open spec fn filled_list(values: Seq<Seq<char>>) -> bool {
    values.len() > 0 && forall|i: int| 0 <= i < values.len() ==> !blank(#[trigger] values[i])
}

fn validate_non_empty_list(label: &str, values: &Vec<String>) -> (r: Result<(), String>)
    ensures
        match r {
            Ok(_) => filled_list(texts(values@)),
            Err(message) => !filled_list(texts(values@)) && message@ == empty_message(label@),
        },
{
    if values.len() == 0 {
        return Err(plus(label, " must not be empty"));
    }
    let mut i: usize = 0;
    while i < values.len()
        invariant
            i <= values@.len(),
            forall|j: int| 0 <= j < i ==> !blank(#[trigger] texts(values@)[j]),
        decreases values@.len() - i,
    {
        let checked: Result<(), String> = validate_non_empty(label, values[i].as_str());
        if checked.is_err() {
            assert(blank(texts(values@)[i as int]));
            return checked;
        }
        i += 1;
    }
    Ok(())
}

fn validate_positive_budget(label: &str, value: u64) -> (r: Result<(), String>)
    ensures
        match r {
            Ok(_) => value > 0,
            Err(message) => value == 0 && message@ == budget_message(label@),
        },
{
    if value == 0 {
        Err(plus(label, " must be greater than zero"))
    } else {
        Ok(())
    }
}

impl ProviderPolicyV1 {
    /// Why a provider policy is refused, if it is.
    pub open spec fn refusal(self) -> Option<Seq<char>> {
        if blank(self.primary_provider_id@) {
            Some(empty_message("primary_provider_id"@))
        } else if blank(self.primary_model_id@) {
            Some(empty_message("primary_model_id"@))
        } else if exists|i: int|
            0 <= i < self.fallback_provider_ids@.len() && blank(
                #[trigger] texts(self.fallback_provider_ids@)[i],
            ) {
            Some(empty_message("fallback_provider_id"@))
        } else {
            None
        }
    }

    /// Accepts a policy whose provider and model names are all filled in.
    pub fn validate(&self) -> (r: Result<(), String>)
        ensures
            match r {
                Ok(_) => self.refusal() is None,
                Err(message) => self.refusal() == Some(message@),
            },
    {
        let checked: Result<(), String> = validate_non_empty(
            "primary_provider_id",
            self.primary_provider_id.as_str(),
        );
        if checked.is_err() {
            return checked;
        }
        let checked: Result<(), String> = validate_non_empty(
            "primary_model_id",
            self.primary_model_id.as_str(),
        );
        if checked.is_err() {
            return checked;
        }
        let mut i: usize = 0;
        while i < self.fallback_provider_ids.len()
            invariant
                i <= self.fallback_provider_ids@.len(),
                !blank(self.primary_provider_id@),
                !blank(self.primary_model_id@),
                forall|j: int|
                    0 <= j < i ==> !blank(#[trigger] texts(self.fallback_provider_ids@)[j]),
            decreases self.fallback_provider_ids@.len() - i,
        {
            let checked: Result<(), String> = validate_non_empty(
                "fallback_provider_id",
                self.fallback_provider_ids[i].as_str(),
            );
            if checked.is_err() {
                assert(blank(texts(self.fallback_provider_ids@)[i as int]));
                return checked;
            }
            i += 1;
        }
        Ok(())
    }
}

/// A character that a branch name may hold.
pub open spec fn is_branch_char(c: char) -> bool {
    is_alnum(c) || c == '/' || c == '-' || c == '_' || c == '.'
}

/// Why a branch name is refused, if it is.
pub open spec fn branch_refusal(branch: Seq<char>) -> Option<Seq<char>> {
    let name = trimmed(branch);
    if name.len() == 0 || name[0] == '-' || name.last() == '/' || has_text(name, ".."@) || has_text(
        name,
        "//"@,
    ) {
        Some("invalid feature branch"@)
    } else if exists|i: int| 0 <= i < name.len() && !is_branch_char(#[trigger] name[i]) {
        Some("feature branch may contain only ASCII letters, numbers, '/', '-', '_', and '.'"@)
    } else {
        None
    }
}

/// Accepts a conservative Git branch name.
pub fn validate_branch_name(branch: &str) -> (r: Result<(), String>)
    ensures
        match r {
            Ok(_) => branch_refusal(branch@) is None,
            Err(message) => branch_refusal(branch@) == Some(message@),
        },
{
    let name: String = trim(branch);
    let chars: Vec<char> = chars_of(name.as_str());
    if chars.len() == 0 || chars[0] == '-' || chars[chars.len() - 1] == '/' || contains(
        name.as_str(),
        "..",
    ) || contains(name.as_str(), "//") {
        return Err(text("invalid feature branch"));
    }
    let mut i: usize = 0;
    while i < chars.len()
        invariant
            i <= chars@.len(),
            chars@ == trimmed(branch@),
            chars@.len() > 0,
            chars@[0] != '-',
            chars@.last() != '/',
            !has_text(chars@, ".."@),
            !has_text(chars@, "//"@),
            forall|j: int| 0 <= j < i ==> is_branch_char(#[trigger] chars@[j]),
        decreases chars@.len() - i,
    {
        let c: char = chars[i];
        if !(alnum(c) || c == '/' || c == '-' || c == '_' || c == '.') {
            assert(!is_branch_char(chars@[i as int]));
            return Err(
                text(
                    "feature branch may contain only ASCII letters, numbers, '/', '-', '_', and '.'",
                ),
            );
        }
        i += 1;
    }
    Ok(())
}

/// A path component that leads nowhere or out of the directory it stands in.
pub open spec fn is_loose_component(part: Seq<char>) -> bool {
    part == ""@ || part == "."@ || part == ".."@
}

/// Between `/` and `\`, one of the components leads nowhere or upwards.
pub open spec fn has_loose_component(path: Seq<char>) -> bool {
    let parts = split_at_either(path, '/', '\\');
    exists|i: int| 0 <= i < parts.len() && is_loose_component(#[trigger] parts[i])
}

/// Whether a path has a component that leads nowhere or upwards.
pub fn loose_component(path: &str) -> (r: bool)
    ensures
        r == has_loose_component(path@),
{
    let parts: Vec<String> = split_either(path, '/', '\\');
    let mut i: usize = 0;
    while i < parts.len()
        invariant
            i <= parts@.len(),
            texts(parts@) == split_at_either(path@, '/', '\\'),
            forall|j: int| 0 <= j < i ==> !is_loose_component(#[trigger] texts(parts@)[j]),
        decreases parts@.len() - i,
    {
        let part: &str = parts[i].as_str();
        if same(part, "") || same(part, ".") || same(part, "..") {
            assert(is_loose_component(texts(parts@)[i as int]));
            return true;
        }
        i += 1;
    }
    false
}

/// A path below `.git`, or `.git` itself, in any case and with either separator.
pub open spec fn targets_git(path: Seq<char>) -> bool {
    let normalized = lowered(with_replaced(path, '\\', '/'));
    normalized == ".git"@ || begins_with(normalized, ".git/"@)
}

/// Why a path is refused in a contract, if it is.
pub open spec fn path_refusal(path: Seq<char>, protected_allowed: bool) -> Option<Seq<char>> {
    let inner = trimmed(path);
    if inner.len() == 0 || utf8_len(inner) > 260 {
        Some("invalid contract path `"@ + path + "`"@)
    } else if inner[0] == '-' || inner[0] == '/' || inner[0] == '\\' || has_char(inner, ':')
        || has_char(inner, '\0') || has_loose_component(inner) {
        Some("contract path must be a relative contained path: `"@ + path + "`"@)
    } else if !protected_allowed && targets_git(inner) {
        Some("contract paths may not target .git"@)
    } else {
        None
    }
}

fn validate_contract_path(path: &str, allow_forbidden_protected_path: bool) -> (r: Result<
    (),
    String,
>)
    ensures
        match r {
            Ok(_) => path_refusal(path@, allow_forbidden_protected_path) is None,
            Err(message) => path_refusal(path@, allow_forbidden_protected_path) == Some(message@),
        },
{
    let inner: String = trim(path);
    let chars: Vec<char> = chars_of(inner.as_str());
    if chars.len() == 0 || byte_len(inner.as_str()) > MAX_PATH_CHARS {
        return Err(text("invalid contract path `").concat(path).concat("`"));
    }
    if chars[0] == '-' || chars[0] == '/' || chars[0] == '\\' || contains_char(inner.as_str(), ':')
        || contains_char(inner.as_str(), '\0') || loose_component(inner.as_str()) {
        return Err(
            text("contract path must be a relative contained path: `").concat(path).concat("`"),
        );
    }
    let normalized: String = to_lower(replace_char(inner.as_str(), '\\', '/').as_str());
    if !allow_forbidden_protected_path && (same(normalized.as_str(), ".git") || starts_with(
        normalized.as_str(),
        ".git/",
    )) {
        return Err(text("contract paths may not target .git"));
    }
    Ok(())
}

/// Why the first refused path at or after `from` is refused, if one is.
pub open spec fn paths_refusal(paths: Seq<String>, from: int, protected_allowed: bool) -> Option<
    Seq<char>,
>
    decreases paths.len() - from,
{
    if from < 0 || from >= paths.len() {
        None
    } else if path_refusal(paths[from]@, protected_allowed) is Some {
        path_refusal(paths[from]@, protected_allowed)
    } else {
        paths_refusal(paths, from + 1, protected_allowed)
    }
}

fn validate_paths(paths: &Vec<String>, protected_allowed: bool) -> (r: Result<(), String>)
    ensures
        match r {
            Ok(_) => paths_refusal(paths@, 0, protected_allowed) is None,
            Err(message) => paths_refusal(paths@, 0, protected_allowed) == Some(message@),
        },
{
    let mut i: usize = 0;
    while i < paths.len()
        invariant
            i <= paths@.len(),
            paths_refusal(paths@, 0, protected_allowed) == paths_refusal(
                paths@,
                i as int,
                protected_allowed,
            ),
        decreases paths@.len() - i,
    {
        let checked: Result<(), String> = validate_contract_path(
            paths[i].as_str(),
            protected_allowed,
        );
        if checked.is_err() {
            return checked;
        }
        i += 1;
    }
    Ok(())
}

impl ExecutionContractV1 {
    /// Why the fields before the provider policy are refused, if one is.
    pub open spec fn field_refusal(self) -> Option<Seq<char>> {
        if self.schema_version != EXECUTION_CONTRACT_SCHEMA_VERSION {
            Some(
                version_message(
                    "unsupported schema_version"@,
                    decimal(self.schema_version as nat),
                    decimal(EXECUTION_CONTRACT_SCHEMA_VERSION as nat),
                ),
            )
        } else if blank(self.task_id@) {
            Some(empty_message("task_id"@))
        } else if blank(self.objective@) {
            Some(empty_message("objective"@))
        } else if utf8_len(self.objective@) > 8_000 {
            Some("objective is too large"@)
        } else if blank(self.workspace@) {
            Some(empty_message("workspace"@))
        } else if branch_refusal(self.feature_branch@) is Some {
            branch_refusal(self.feature_branch@)
        } else if !filled_list(texts(self.allowed_paths@)) {
            Some(empty_message("allowed_paths"@))
        } else if !filled_list(texts(self.allowed_command_profiles@)) {
            Some(empty_message("allowed_command_profiles"@))
        } else if !filled_list(texts(self.ordered_steps@)) {
            Some(empty_message("ordered_steps"@))
        } else if !filled_list(texts(self.acceptance_criteria@)) {
            Some(empty_message("acceptance_criteria"@))
        } else if blank(self.verification_profile@) {
            Some(empty_message("verification_profile"@))
        } else if self.retry_budget == 0 {
            Some(budget_message("retry_budget"@))
        } else if self.max_turns == 0 {
            Some(budget_message("max_turns"@))
        } else if self.max_tool_calls == 0 {
            Some(budget_message("max_tool_calls"@))
        } else if self.max_elapsed_seconds == 0 {
            Some(budget_message("max_elapsed_seconds"@))
        } else {
            None
        }
    }

    /// Why a contract is refused, if it is.
    pub open spec fn refusal(self) -> Option<Seq<char>> {
        if self.field_refusal() is Some {
            self.field_refusal()
        } else if self.provider_policy.refusal() is Some {
            self.provider_policy.refusal()
        } else if paths_refusal(self.allowed_paths@, 0, false) is Some {
            paths_refusal(self.allowed_paths@, 0, false)
        } else {
            paths_refusal(self.forbidden_paths@, 0, true)
        }
    }

    /// The parts of a contract that a worker may not alter are the same in both.
    pub open spec fn same_intent(self, other: ExecutionContractV1) -> bool {
        &&& self.schema_version == other.schema_version
        &&& self.task_id@ == other.task_id@
        &&& self.objective@ == other.objective@
        &&& self.workspace@ == other.workspace@
        &&& self.feature_branch@ == other.feature_branch@
        &&& texts(self.allowed_paths@) == texts(other.allowed_paths@)
        &&& texts(self.forbidden_paths@) == texts(other.forbidden_paths@)
        &&& texts(self.acceptance_criteria@) == texts(other.acceptance_criteria@)
    }

    fn validate_fields(&self) -> (r: Result<(), String>)
        ensures
            match r {
                Ok(_) => self.field_refusal() is None,
                Err(message) => self.field_refusal() == Some(message@),
            },
    {
        if self.schema_version != EXECUTION_CONTRACT_SCHEMA_VERSION {
            let found: String = to_decimal(self.schema_version as u64);
            let expected: String = to_decimal(EXECUTION_CONTRACT_SCHEMA_VERSION as u64);
            return Err(
                version_text("unsupported schema_version", found.as_str(), expected.as_str()),
            );
        }
        validate_non_empty("task_id", self.task_id.as_str())?;
        validate_non_empty("objective", self.objective.as_str())?;
        if byte_len(self.objective.as_str()) > MAX_OBJECTIVE_CHARS {
            return Err(text("objective is too large"));
        }
        validate_non_empty("workspace", self.workspace.as_str())?;
        validate_branch_name(self.feature_branch.as_str())?;
        validate_non_empty_list("allowed_paths", &self.allowed_paths)?;
        validate_non_empty_list("allowed_command_profiles", &self.allowed_command_profiles)?;
        validate_non_empty_list("ordered_steps", &self.ordered_steps)?;
        validate_non_empty_list("acceptance_criteria", &self.acceptance_criteria)?;
        validate_non_empty("verification_profile", self.verification_profile.as_str())?;
        validate_positive_budget("retry_budget", self.retry_budget as u64)?;
        validate_positive_budget("max_turns", self.max_turns as u64)?;
        validate_positive_budget("max_tool_calls", self.max_tool_calls as u64)?;
        validate_positive_budget("max_elapsed_seconds", self.max_elapsed_seconds)
    }

    /// The fingerprint of a valid contract.
    pub fn request_hash(&self) -> (r: Result<String, String>)
        ensures
            match r {
                Ok(hash) => self.refusal() is None && hash@ == fingerprint(self.json()),
                Err(message) => self.refusal() == Some(message@),
            },
    {
        validate_contract(self)?;
        Ok(stable_hash(self.to_json().as_str()))
    }

    /// Refuses a contract that a worker hands back with another intent.
    pub fn ensure_same_immutable_intent(&self, original: &ExecutionContractV1) -> (r: Result<
        (),
        String,
    >)
        ensures
            match r {
                Ok(_) => self.same_intent(*original),
                Err(message) => !self.same_intent(*original) && message@
                    == "worker output attempted to alter immutable execution contract intent"@,
            },
    {
        if self.schema_version != original.schema_version || !same(
            self.task_id.as_str(),
            original.task_id.as_str(),
        ) || !same(self.objective.as_str(), original.objective.as_str()) || !same(
            self.workspace.as_str(),
            original.workspace.as_str(),
        ) || !same(self.feature_branch.as_str(), original.feature_branch.as_str()) || !same_list(
            &self.allowed_paths,
            &original.allowed_paths,
        ) || !same_list(&self.forbidden_paths, &original.forbidden_paths) || !same_list(
            &self.acceptance_criteria,
            &original.acceptance_criteria,
        ) {
            return Err(
                text("worker output attempted to alter immutable execution contract intent"),
            );
        }
        Ok(())
    }
}

/// Accepts a contract that is complete, bounded and confined to its workspace.
pub fn validate_contract(contract: &ExecutionContractV1) -> (r: Result<(), String>)
    ensures
        match r {
            Ok(_) => contract.refusal() is None,
            Err(message) => contract.refusal() == Some(message@),
        },
{
    contract.validate_fields()?;
    contract.provider_policy.validate()?;
    validate_paths(&contract.allowed_paths, false)?;
    validate_paths(&contract.forbidden_paths, true)
}

// ---------------------------------------------------------------------------
// JSON

impl RunState {
    /// The state as JSON.
    pub open spec fn json(self) -> Seq<char> {
        match self {
            RunState::Draft => "\"DRAFT\""@,
            RunState::AwaitingApproval => "\"AWAITING_APPROVAL\""@,
            RunState::Ready => "\"READY\""@,
            RunState::Starting => "\"STARTING\""@,
            RunState::Running => "\"RUNNING\""@,
            RunState::Paused => "\"PAUSED\""@,
            RunState::NeedsSupervisor => "\"NEEDS_SUPERVISOR\""@,
            RunState::CancelRequested => "\"CANCEL_REQUESTED\""@,
            RunState::Verifying => "\"VERIFYING\""@,
            RunState::CompletedVerified => "\"COMPLETED_VERIFIED\""@,
            RunState::Failed => "\"FAILED\""@,
            RunState::Cancelled => "\"CANCELLED\""@,
        }
    }

    /// Prints the label as JSON.
    pub fn to_json(&self) -> (r: String)
        ensures
            r@ == self.json(),
    {
        match self {
            RunState::Draft => text("\"DRAFT\""),
            RunState::AwaitingApproval => text("\"AWAITING_APPROVAL\""),
            RunState::Ready => text("\"READY\""),
            RunState::Starting => text("\"STARTING\""),
            RunState::Running => text("\"RUNNING\""),
            RunState::Paused => text("\"PAUSED\""),
            RunState::NeedsSupervisor => text("\"NEEDS_SUPERVISOR\""),
            RunState::CancelRequested => text("\"CANCEL_REQUESTED\""),
            RunState::Verifying => text("\"VERIFYING\""),
            RunState::CompletedVerified => text("\"COMPLETED_VERIFIED\""),
            RunState::Failed => text("\"FAILED\""),
            RunState::Cancelled => text("\"CANCELLED\""),
        }
    }
}

impl ApprovalRequirementKind {
    /// The kind as JSON.
    pub open spec fn json(self) -> Seq<char> {
        match self {
            ApprovalRequirementKind::RunStart => "\"RUN_START\""@,
            ApprovalRequirementKind::ToolException => "\"TOOL_EXCEPTION\""@,
            ApprovalRequirementKind::UnrestrictedShell => "\"UNRESTRICTED_SHELL\""@,
            ApprovalRequirementKind::GitPush => "\"GIT_PUSH\""@,
            ApprovalRequirementKind::Merge => "\"MERGE\""@,
        }
    }

    /// Prints the label as JSON.
    pub fn to_json(&self) -> (r: String)
        ensures
            r@ == self.json(),
    {
        match self {
            ApprovalRequirementKind::RunStart => text("\"RUN_START\""),
            ApprovalRequirementKind::ToolException => text("\"TOOL_EXCEPTION\""),
            ApprovalRequirementKind::UnrestrictedShell => text("\"UNRESTRICTED_SHELL\""),
            ApprovalRequirementKind::GitPush => text("\"GIT_PUSH\""),
            ApprovalRequirementKind::Merge => text("\"MERGE\""),
        }
    }
}

impl ExpectedArtifactKind {
    /// The kind as JSON.
    pub open spec fn json(self) -> Seq<char> {
        match self {
            ExpectedArtifactKind::Diff => "\"DIFF\""@,
            ExpectedArtifactKind::Verification => "\"VERIFICATION\""@,
            ExpectedArtifactKind::Escalation => "\"ESCALATION\""@,
            ExpectedArtifactKind::FinalReview => "\"FINAL_REVIEW\""@,
            ExpectedArtifactKind::Log => "\"LOG\""@,
        }
    }

    /// Prints the label as JSON.
    pub fn to_json(&self) -> (r: String)
        ensures
            r@ == self.json(),
    {
        match self {
            ExpectedArtifactKind::Diff => text("\"DIFF\""),
            ExpectedArtifactKind::Verification => text("\"VERIFICATION\""),
            ExpectedArtifactKind::Escalation => text("\"ESCALATION\""),
            ExpectedArtifactKind::FinalReview => text("\"FINAL_REVIEW\""),
            ExpectedArtifactKind::Log => text("\"LOG\""),
        }
    }
}

impl Confidence {
    /// The confidence as JSON.
    pub open spec fn json(self) -> Seq<char> {
        match self {
            Confidence::Low => "\"LOW\""@,
            Confidence::Medium => "\"MEDIUM\""@,
            Confidence::High => "\"HIGH\""@,
        }
    }

    /// Prints the label as JSON.
    pub fn to_json(&self) -> (r: String)
        ensures
            r@ == self.json(),
    {
        match self {
            Confidence::Low => text("\"LOW\""),
            Confidence::Medium => text("\"MEDIUM\""),
            Confidence::High => text("\"HIGH\""),
        }
    }
}

impl AdvisorDisclosureClassificationV1 {
    /// The classification as JSON.
    pub open spec fn json(self) -> Seq<char> {
        match self {
            AdvisorDisclosureClassificationV1::LocalOnly => "\"LOCAL_ONLY\""@,
            AdvisorDisclosureClassificationV1::RemoteAllowed => "\"REMOTE_ALLOWED\""@,
        }
    }

    /// Prints the label as JSON.
    pub fn to_json(&self) -> (r: String)
        ensures
            r@ == self.json(),
    {
        match self {
            AdvisorDisclosureClassificationV1::LocalOnly => text("\"LOCAL_ONLY\""),
            AdvisorDisclosureClassificationV1::RemoteAllowed => text("\"REMOTE_ALLOWED\""),
        }
    }
}

impl ProviderPolicyV1 {
    /// The fields of the policy, as JSON.
    pub open spec fn json_fields(self) -> Seq<Seq<char>> {
        seq![
            field("primaryProviderId"@, json_string(self.primary_provider_id@)),
            field("primaryModelId"@, json_string(self.primary_model_id@)),
            field("fallbackProviderIds"@, string_array(texts(self.fallback_provider_ids@))),
            field("requireToolCalls"@, truth(self.require_tool_calls)),
            field("allowPaidFallbacks"@, truth(self.allow_paid_fallbacks)),
        ]
    }

    /// The policy as compact JSON.
    pub open spec fn json(self) -> Seq<char> {
        object(self.json_fields())
    }

    /// Prints the policy as compact JSON.
    pub fn to_json(&self) -> (r: String)
        ensures
            r@ == self.json(),
    {
        let mut fields: Vec<String> = Vec::new();
        fields.push(field_text("primaryProviderId", quoted(self.primary_provider_id.as_str()).as_str()));
        fields.push(field_text("primaryModelId", quoted(self.primary_model_id.as_str()).as_str()));
        fields.push(field_text("fallbackProviderIds", string_array_text(&self.fallback_provider_ids).as_str()));
        fields.push(field_text("requireToolCalls", truth_text(self.require_tool_calls).as_str()));
        fields.push(field_text("allowPaidFallbacks", truth_text(self.allow_paid_fallbacks).as_str()));
        assert(texts(fields@) =~= self.json_fields());
        object_text(&fields)
    }
}

impl AdvisorPolicyV1 {
    /// The fields of the policy, as JSON.
    pub open spec fn json_fields(self) -> Seq<Seq<char>> {
        seq![
            field("enabled"@, truth(self.enabled)),
            field("advisorId"@, json_string(self.advisor_id@)),
            field("disclosureClassification"@, self.disclosure_classification.json()),
            field("maximumResponseLength"@, decimal(self.maximum_response_length as nat)),
            field("maximumConsultationsPerRun"@, decimal(self.maximum_consultations_per_run as nat)),
            field("adviceRequired"@, truth(self.advice_required)),
        ]
    }

    /// The policy as compact JSON.
    pub open spec fn json(self) -> Seq<char> {
        object(self.json_fields())
    }

    /// Prints the policy as compact JSON.
    pub fn to_json(&self) -> (r: String)
        ensures
            r@ == self.json(),
    {
        let mut fields: Vec<String> = Vec::new();
        fields.push(field_text("enabled", truth_text(self.enabled).as_str()));
        fields.push(field_text("advisorId", quoted(self.advisor_id.as_str()).as_str()));
        fields.push(field_text("disclosureClassification", self.disclosure_classification.to_json().as_str()));
        fields.push(field_text("maximumResponseLength", to_decimal(self.maximum_response_length as u64).as_str()));
        fields.push(field_text("maximumConsultationsPerRun", to_decimal(self.maximum_consultations_per_run as u64).as_str()));
        fields.push(field_text("adviceRequired", truth_text(self.advice_required).as_str()));
        assert(texts(fields@) =~= self.json_fields());
        object_text(&fields)
    }
}

/// An advisor policy or `null`.
pub open spec fn advisor_policy_json(policy: Option<AdvisorPolicyV1>) -> Seq<char> {
    match policy {
        Some(p) => p.json(),
        None => "null"@,
    }
}

fn advisor_policy_to_json(policy: &Option<AdvisorPolicyV1>) -> (r: String)
    ensures
        r@ == advisor_policy_json(*policy),
{
    match policy {
        Some(p) => p.to_json(),
        None => text("null"),
    }
}

impl ApprovalRequirementV1 {
    /// The fields of the requirement, as JSON.
    pub open spec fn json_fields(self) -> Seq<Seq<char>> {
        seq![
            field("kind"@, self.kind.json()),
            field("required"@, truth(self.required)),
            field("reason"@, json_string(self.reason@)),
        ]
    }

    /// The requirement as compact JSON.
    pub open spec fn json(self) -> Seq<char> {
        object(self.json_fields())
    }

    /// Prints the requirement as compact JSON.
    pub fn to_json(&self) -> (r: String)
        ensures
            r@ == self.json(),
    {
        let mut fields: Vec<String> = Vec::new();
        fields.push(field_text("kind", self.kind.to_json().as_str()));
        fields.push(field_text("required", truth_text(self.required).as_str()));
        fields.push(field_text("reason", quoted(self.reason.as_str()).as_str()));
        assert(texts(fields@) =~= self.json_fields());
        object_text(&fields)
    }
}

impl ExpectedArtifactV1 {
    /// The fields of the artifact, as JSON.
    pub open spec fn json_fields(self) -> Seq<Seq<char>> {
        seq![
            field("kind"@, self.kind.json()),
            field("name"@, json_string(self.name@)),
            field("required"@, truth(self.required)),
        ]
    }

    /// The artifact as compact JSON.
    pub open spec fn json(self) -> Seq<char> {
        object(self.json_fields())
    }

    /// Prints the artifact as compact JSON.
    pub fn to_json(&self) -> (r: String)
        ensures
            r@ == self.json(),
    {
        let mut fields: Vec<String> = Vec::new();
        fields.push(field_text("kind", self.kind.to_json().as_str()));
        fields.push(field_text("name", quoted(self.name.as_str()).as_str()));
        fields.push(field_text("required", truth_text(self.required).as_str()));
        assert(texts(fields@) =~= self.json_fields());
        object_text(&fields)
    }
}

/// Approval requirements as a JSON list.
pub open spec fn requirements_json(items: Seq<ApprovalRequirementV1>) -> Seq<char> {
    array(items.map_values(|x: ApprovalRequirementV1| x.json()))
}

fn requirements_to_json(items: &Vec<ApprovalRequirementV1>) -> (r: String)
    ensures
        r@ == requirements_json(items@),
{
    let mut parts: Vec<String> = Vec::new();
    let ghost all = items@.map_values(|x: ApprovalRequirementV1| x.json());
    let mut i: usize = 0;
    while i < items.len()
        invariant
            i <= items@.len(),
            all == items@.map_values(|x: ApprovalRequirementV1| x.json()),
            texts(parts@) == all.take(i as int),
        decreases items@.len() - i,
    {
        let ghost prior = texts(parts@);
        parts.push(items[i].to_json());
        i += 1;
        assert(texts(parts@) =~= prior.push(all[i - 1]));
        assert(all.take(i as int) =~= all.take(i - 1).push(all[i - 1]));
    }
    assert(all.take(all.len() as int) =~= all);
    array_text(&parts)
}

/// Expected artifacts as a JSON list.
pub open spec fn artifacts_json(items: Seq<ExpectedArtifactV1>) -> Seq<char> {
    array(items.map_values(|x: ExpectedArtifactV1| x.json()))
}

fn artifacts_to_json(items: &Vec<ExpectedArtifactV1>) -> (r: String)
    ensures
        r@ == artifacts_json(items@),
{
    let mut parts: Vec<String> = Vec::new();
    let ghost all = items@.map_values(|x: ExpectedArtifactV1| x.json());
    let mut i: usize = 0;
    while i < items.len()
        invariant
            i <= items@.len(),
            all == items@.map_values(|x: ExpectedArtifactV1| x.json()),
            texts(parts@) == all.take(i as int),
        decreases items@.len() - i,
    {
        let ghost prior = texts(parts@);
        parts.push(items[i].to_json());
        i += 1;
        assert(texts(parts@) =~= prior.push(all[i - 1]));
        assert(all.take(i as int) =~= all.take(i - 1).push(all[i - 1]));
    }
    assert(all.take(all.len() as int) =~= all);
    array_text(&parts)
}

impl ExecutionContractV1 {
    /// The fields of the contract, as JSON.
    pub open spec fn json_fields(self) -> Seq<Seq<char>> {
        seq![
            field("schemaVersion"@, decimal(self.schema_version as nat)),
            field("taskId"@, json_string(self.task_id@)),
            field("objective"@, json_string(self.objective@)),
            field("workspace"@, json_string(self.workspace@)),
            field("featureBranch"@, json_string(self.feature_branch@)),
            field("allowedPaths"@, string_array(texts(self.allowed_paths@))),
            field("forbiddenPaths"@, string_array(texts(self.forbidden_paths@))),
            field("allowedCommandProfiles"@, string_array(texts(self.allowed_command_profiles@))),
            field("orderedSteps"@, string_array(texts(self.ordered_steps@))),
            field("acceptanceCriteria"@, string_array(texts(self.acceptance_criteria@))),
            field("retryBudget"@, decimal(self.retry_budget as nat)),
            field("maxTurns"@, decimal(self.max_turns as nat)),
            field("maxToolCalls"@, decimal(self.max_tool_calls as nat)),
            field("maxElapsedSeconds"@, decimal(self.max_elapsed_seconds as nat)),
            field("providerPolicy"@, self.provider_policy.json()),
            field("advisorPolicy"@, advisor_policy_json(self.advisor_policy)),
            field("escalationConditions"@, string_array(texts(self.escalation_conditions@))),
            field("approvalRequirements"@, requirements_json(self.approval_requirements@)),
            field("expectedArtifacts"@, artifacts_json(self.expected_artifacts@)),
            field("verificationProfile"@, json_string(self.verification_profile@)),
        ]
    }

    /// The contract as compact JSON.
    pub open spec fn json(self) -> Seq<char> {
        object(self.json_fields())
    }

    /// Prints the contract as compact JSON.
    pub fn to_json(&self) -> (r: String)
        ensures
            r@ == self.json(),
    {
        let mut fields: Vec<String> = Vec::new();
        fields.push(field_text("schemaVersion", to_decimal(self.schema_version as u64).as_str()));
        fields.push(field_text("taskId", quoted(self.task_id.as_str()).as_str()));
        fields.push(field_text("objective", quoted(self.objective.as_str()).as_str()));
        fields.push(field_text("workspace", quoted(self.workspace.as_str()).as_str()));
        fields.push(field_text("featureBranch", quoted(self.feature_branch.as_str()).as_str()));
        fields.push(field_text("allowedPaths", string_array_text(&self.allowed_paths).as_str()));
        fields.push(field_text("forbiddenPaths", string_array_text(&self.forbidden_paths).as_str()));
        fields.push(field_text("allowedCommandProfiles", string_array_text(&self.allowed_command_profiles).as_str()));
        fields.push(field_text("orderedSteps", string_array_text(&self.ordered_steps).as_str()));
        fields.push(field_text("acceptanceCriteria", string_array_text(&self.acceptance_criteria).as_str()));
        fields.push(field_text("retryBudget", to_decimal(self.retry_budget as u64).as_str()));
        fields.push(field_text("maxTurns", to_decimal(self.max_turns as u64).as_str()));
        fields.push(field_text("maxToolCalls", to_decimal(self.max_tool_calls as u64).as_str()));
        fields.push(field_text("maxElapsedSeconds", to_decimal(self.max_elapsed_seconds as u64).as_str()));
        fields.push(field_text("providerPolicy", self.provider_policy.to_json().as_str()));
        fields.push(field_text("advisorPolicy", advisor_policy_to_json(&self.advisor_policy).as_str()));
        fields.push(field_text("escalationConditions", string_array_text(&self.escalation_conditions).as_str()));
        fields.push(field_text("approvalRequirements", requirements_to_json(&self.approval_requirements).as_str()));
        fields.push(field_text("expectedArtifacts", artifacts_to_json(&self.expected_artifacts).as_str()));
        fields.push(field_text("verificationProfile", quoted(self.verification_profile.as_str()).as_str()));
        assert(texts(fields@) =~= self.json_fields());
        object_text(&fields)
    }
}

impl EscalationPacketV1 {
    /// The fields of the packet, as JSON.
    pub open spec fn json_fields(self) -> Seq<Seq<char>> {
        seq![
            field("schemaVersion"@, decimal(self.schema_version as nat)),
            field("runId"@, json_string(self.run_id@)),
            field("blockingQuestion"@, json_string(self.blocking_question@)),
            field("blockingCondition"@, json_string(self.blocking_condition@)),
            field("evidence"@, string_array(texts(self.evidence@))),
            field("attempts"@, string_array(texts(self.attempts@))),
            field("changedFiles"@, string_array(texts(self.changed_files@))),
            field("testsAndCommandResults"@, string_array(texts(self.tests_and_command_results@))),
            field("options"@, string_array(texts(self.options@))),
            field("recommendation"@, json_string(self.recommendation@)),
            field("confidence"@, self.confidence.json()),
            field("currentCheckpoint"@, json_string(self.current_checkpoint@)),
        ]
    }

    /// The packet as compact JSON.
    pub open spec fn json(self) -> Seq<char> {
        object(self.json_fields())
    }

    /// Prints the packet as compact JSON.
    pub fn to_json(&self) -> (r: String)
        ensures
            r@ == self.json(),
    {
        let mut fields: Vec<String> = Vec::new();
        fields.push(field_text("schemaVersion", to_decimal(self.schema_version as u64).as_str()));
        fields.push(field_text("runId", quoted(self.run_id.as_str()).as_str()));
        fields.push(field_text("blockingQuestion", quoted(self.blocking_question.as_str()).as_str()));
        fields.push(field_text("blockingCondition", quoted(self.blocking_condition.as_str()).as_str()));
        fields.push(field_text("evidence", string_array_text(&self.evidence).as_str()));
        fields.push(field_text("attempts", string_array_text(&self.attempts).as_str()));
        fields.push(field_text("changedFiles", string_array_text(&self.changed_files).as_str()));
        fields.push(field_text("testsAndCommandResults", string_array_text(&self.tests_and_command_results).as_str()));
        fields.push(field_text("options", string_array_text(&self.options).as_str()));
        fields.push(field_text("recommendation", quoted(self.recommendation.as_str()).as_str()));
        fields.push(field_text("confidence", self.confidence.to_json().as_str()));
        fields.push(field_text("currentCheckpoint", quoted(self.current_checkpoint.as_str()).as_str()));
        assert(texts(fields@) =~= self.json_fields());
        object_text(&fields)
    }
}

/// No path that a valid contract allows lies in `.git` or climbs out of the
/// workspace.
pub proof fn lemma_allowed_paths_are_contained(contract: ExecutionContractV1, i: int)
    requires
        contract.refusal() is None,
        0 <= i < contract.allowed_paths@.len(),
    ensures
        !has_loose_component(trimmed(contract.allowed_paths@[i]@)),
        !targets_git(trimmed(contract.allowed_paths@[i]@)),
{
    lemma_each_path_accepted(contract.allowed_paths@, 0, i, false);
}

proof fn lemma_each_path_accepted(paths: Seq<String>, from: int, i: int, protected_allowed: bool)
    requires
        paths_refusal(paths, from, protected_allowed) is None,
        0 <= from <= i < paths.len(),
    ensures
        path_refusal(paths[i]@, protected_allowed) is None,
    decreases paths.len() - from,
{
    if from < i {
        lemma_each_path_accepted(paths, from + 1, i, protected_allowed);
    }
}

/// A contract has the intent of itself, and sameness of intent is symmetric and
/// transitive.
pub proof fn lemma_same_intent(a: ExecutionContractV1, b: ExecutionContractV1, c: ExecutionContractV1)
    ensures
        a.same_intent(a),
        a.same_intent(b) ==> b.same_intent(a),
        a.same_intent(b) && b.same_intent(c) ==> a.same_intent(c),
{
}

} // verus!
