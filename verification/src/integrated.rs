//! A delegated run with its worker: what it may do next, what it is told, and when it
//! is complete.

use vstd::prelude::*;
use vstd::string::*;
use crate::advisor::{
    AdviceDisclosureClassification, BoundedSourceExcerptV1, advice_shown, redact_and_bound,
};
use crate::context::{
    ContextBudgetPolicyV1, ContextBuilderV1, ContextBundleV1, ContextClass, ContextError,
    ContextItemKind, ContextItemV1, DisclosurePolicy, can_cut, contract_summary, is_capped,
    is_inline, lemma_capped_items_are_bounded, total_byte_count, total_token_count,
};
use crate::contracts::{
    ExecutionContractV1, FinalRunResultV1, ItemId, RunId, RunState, ToolCallId, TurnId,
    WorkerSessionId, identifier_message, is_identifier, is_terminal_state,
    lemma_numbered_identifier,
};
use crate::coordinator::{
    CoordinatorError, FinalReviewPackageV1, RunCoordinator, VerificationStatusV1,
    VerificationSummaryV1,
};
use crate::events::{
    EventCursor, EventEnvelopeV1, EventPayloadV1, LifecycleEvent, append_refusal, next_sequence,
    page,
};
use crate::hash::{fingerprint, stable_text_hash};
use crate::journal::{
    DelegatedJournal, JournalError, PatchApplicationRecordV1, PatchProposalRecordV1,
    RunJournalV1, RunSnapshotV1, ToolCallRecordV1, ToolCallStatus, last_sequence,
    lemma_new_run_is_found,
};
use crate::json::{
    field, field_text, json_string, object, object_text, optional_string, optional_string_text,
    quoted,
};
use crate::laws_run::{lemma_diff_paths_accepted, lemma_lies_under};
use crate::EXECUTION_CONTRACT_SCHEMA_VERSION;
use crate::patching::{ActualDiffArtifactV1, PatchProposalV1};
use crate::provider::{
    NormalizedProviderEventKind, NormalizedProviderEventV1, NormalizedToolCallV1,
    ProviderMessageV1, RuntimeError, ToolDefinitionV1, is_plain_message, messages_json,
    messages_to_json, plain_message,
};
use crate::redaction::context_redacted;
use crate::sorting::{derefs, lemma_filter_last};
use crate::text::{
    begins_with, blank, byte_len, chars_of, copy_list, copy_opt, debug_variant,
    debug_variant_text, decimal, has_char, is_blank, is_white, join, joined, lemma_decimal,
    lowered, opt_text, plus, replace_char, same, split_words, starts_with, string_of, text,
    texts, to_decimal, to_lower, utf8_len, with_replaced, words,
};

verus! {

/// Why a run cannot go on.
#[derive(Debug, PartialEq, Eq)]
pub enum IntegratedError {
    Io(String),
    Json(String),
    Runtime(String),
    Journal(String),
    Patch(String),
    Tool(String),
    Verification(String),
    Supervisor(String),
}

impl IntegratedError {
    /// The error as `{:?}` prints it.
    pub open spec fn debug(self) -> Seq<char> {
        match self {
            IntegratedError::Io(s) => debug_variant("Io"@, s@),
            IntegratedError::Json(s) => debug_variant("Json"@, s@),
            IntegratedError::Runtime(s) => debug_variant("Runtime"@, s@),
            IntegratedError::Journal(s) => debug_variant("Journal"@, s@),
            IntegratedError::Patch(s) => debug_variant("Patch"@, s@),
            IntegratedError::Tool(s) => debug_variant("Tool"@, s@),
            IntegratedError::Verification(s) => debug_variant("Verification"@, s@),
            IntegratedError::Supervisor(s) => debug_variant("Supervisor"@, s@),
        }
    }

    /// Prints the error as `{:?}` does.
    pub fn debug_text(&self) -> (r: String)
        ensures
            r@ == self.debug(),
    {
        match self {
            IntegratedError::Io(s) => debug_variant_text("Io", s.as_str()),
            IntegratedError::Json(s) => debug_variant_text("Json", s.as_str()),
            IntegratedError::Runtime(s) => debug_variant_text("Runtime", s.as_str()),
            IntegratedError::Journal(s) => debug_variant_text("Journal", s.as_str()),
            IntegratedError::Patch(s) => debug_variant_text("Patch", s.as_str()),
            IntegratedError::Tool(s) => debug_variant_text("Tool", s.as_str()),
            IntegratedError::Verification(s) => debug_variant_text("Verification", s.as_str()),
            IntegratedError::Supervisor(s) => debug_variant_text("Supervisor", s.as_str()),
        }
    }
}

/// `e` is a tool error with this message.
pub open spec fn is_tool_error(e: IntegratedError, message: Seq<char>) -> bool {
    e matches IntegratedError::Tool(m) && m@ == message
}

/// `e` is a verification error with this message.
pub open spec fn is_verification_error(e: IntegratedError, message: Seq<char>) -> bool {
    e matches IntegratedError::Verification(m) && m@ == message
}

/// `e` says that the journal does not know the run.
pub open spec fn is_unrecorded_run(e: IntegratedError) -> bool {
    e matches IntegratedError::Journal(m) && m@ == debug_variant("Io"@, "run record was not found"@)
}

/// `e` reports why no run can be begun under this contract.
pub open spec fn is_begin_failure(e: IntegratedError, contract: ExecutionContractV1) -> bool {
    e matches IntegratedError::Journal(m) && m@ == debug_variant(
        "Validation"@,
        match contract.refusal() {
            Some(refusal) => refusal,
            None => identifier_message("RunId"@),
        },
    )
}

/// `e` reports that the journal knows no such run to add to.
pub open spec fn is_unknown_run(e: IntegratedError, run_id: Seq<char>) -> bool {
    e matches IntegratedError::Journal(m) && m@ == debug_variant("RunNotFound"@, run_id)
}

/// A tool error with this message.
pub fn tool_error<T>(message: &str) -> (r: Result<T, IntegratedError>)
    ensures
        r is Err,
        is_tool_error(r->Err_0, message@),
{
    Err(IntegratedError::Tool(text(message)))
}

/// `e` passes an error of the journal on.
pub open spec fn is_journal_failure(e: IntegratedError, j: JournalError) -> bool {
    e matches IntegratedError::Journal(m) && m@ == j.debug()
}

/// An error of the journal, as the run passes it on.
pub fn journal_error(e: &JournalError) -> (r: IntegratedError)
    ensures
        is_journal_failure(r, *e),
{
    IntegratedError::Journal(e.debug_text())
}

/// How a run is set up. Paths are given as text.
#[derive(Clone, Debug, PartialEq, Eq)]
pub struct IntegratedRunConfigV1 {
    pub journal_root: String,
    pub job_root: String,
    pub ollama_base_url: String,
    pub model_id: String,
    pub advisor: Option<IntegratedAdvisorConfigV1>,
}

/// How a run asks an advisor.
#[derive(Debug, PartialEq, Eq)]
pub struct IntegratedAdvisorConfigV1 {
    pub enabled: bool,
    pub advisor_id: String,
    pub disclosure_classification: AdviceDisclosureClassification,
    pub maximum_response_length: usize,
    pub maximum_consultations_per_run: u32,
    pub advice_required: bool,
    pub local_runtime: Option<IntegratedAdvisorLocalRuntimeConfigV1>,
}

impl Clone for IntegratedAdvisorConfigV1 {
    fn clone(&self) -> (r: Self)
        ensures
            r == *self,
    {
        IntegratedAdvisorConfigV1 {
            enabled: self.enabled,
            advisor_id: self.advisor_id.clone(),
            disclosure_classification: self.disclosure_classification,
            maximum_response_length: self.maximum_response_length,
            maximum_consultations_per_run: self.maximum_consultations_per_run,
            advice_required: self.advice_required,
            local_runtime: match &self.local_runtime {
                Some(runtime) => Some(runtime.clone()),
                None => None,
            },
        }
    }
}

/// The program that an advisor is reached through.
#[derive(Debug, PartialEq, Eq)]
pub struct IntegratedAdvisorLocalRuntimeConfigV1 {
    pub python_executable: String,
    pub adapter_script: String,
    pub profile_dir: String,
    pub selectors_path: Option<String>,
    pub headed: bool,
    pub allow_env_login: bool,
}

impl Clone for IntegratedAdvisorLocalRuntimeConfigV1 {
    fn clone(&self) -> (r: Self)
        ensures
            r == *self,
    {
        IntegratedAdvisorLocalRuntimeConfigV1 {
            python_executable: self.python_executable.clone(),
            adapter_script: self.adapter_script.clone(),
            profile_dir: self.profile_dir.clone(),
            selectors_path: copy_opt(&self.selectors_path),
            headed: self.headed,
            allow_env_login: self.allow_env_login,
        }
    }
}

/// What a tool gives back. The payload is JSON text.
#[derive(Debug, PartialEq, Eq)]
pub struct IntegratedToolResultV1 {
    pub tool_name: String,
    pub summary: String,
    pub payload: String,
    pub bounded_text: String,
}

/// Where a run stands.
#[derive(Debug, PartialEq, Eq)]
pub struct IntegratedRunSnapshotV1 {
    pub run_id: RunId,
    pub state: RunState,
    pub checkpoint: String,
    pub completed_tool_call_ids: Vec<String>,
}

/// Which providers a run may use.
#[derive(Debug, PartialEq, Eq)]
pub struct ProviderRoutingPolicyV1 {
    pub primary_provider_id: String,
    pub fallback_provider_ids: Vec<String>,
    pub disclosure_policy: DisclosurePolicy,
}

/// A delegated run with its worker. Everything is kept, so that a restart goes on where
/// the run stopped.
#[derive(Debug)]
pub struct IntegratedDelegatedService {
    pub run_id: RunId,
    pub worker_session_id: WorkerSessionId,
    pub contract: ExecutionContractV1,
    pub config: IntegratedRunConfigV1,
    pub tools: Vec<ToolDefinitionV1>,
    pub patch_proposals: Vec<PatchProposalV1>,
    pub last_verification: Option<VerificationSummaryV1>,
    pub last_diff: Option<ActualDiffArtifactV1>,
    pub completed_tool_call_ids: Vec<String>,
    pub provider_history: Vec<ProviderMessageV1>,
    pub completed_tool_calls: u32,
    pub consecutive_failed_verifications: u32,
    pub advice_consulted_for_current_failure: bool,
    pub advisor_consultations_used: u32,
    pub recent_read_excerpts: Vec<BoundedSourceExcerptV1>,
    pub next_event_sequence: u64,
    pub current_turn_id: Option<TurnId>,
    pub corrective_turns_used: u32,
    pub json_tool_recovery_turns_remaining: u32,
}

/// How many corrections a run may use.
pub const MAX_CORRECTIVE_TURNS_PER_RUN: u32 = 2;

/// How many bytes of conversation a provider is sent.
pub const MAX_PROVIDER_INPUT_BYTES: usize = 49_152;

// ---------------------------------------------------------------------------
// Paths and criteria

/// `s` without leading occurrences of `c`.
pub open spec fn stripped_start(s: Seq<char>, c: char) -> Seq<char>
    decreases s.len(),
{
    if s.len() > 0 && s[0] == c {
        stripped_start(s.drop_first(), c)
    } else {
        s
    }
}

/// `s` without trailing occurrences of `c`.
pub open spec fn stripped_end(s: Seq<char>, c: char) -> Seq<char>
    decreases s.len(),
{
    if s.len() > 0 && s.last() == c {
        stripped_end(s.drop_last(), c)
    } else {
        s
    }
}

/// `s` without occurrences of `c` at its ends.
pub open spec fn stripped(s: Seq<char>, c: char) -> Seq<char> {
    stripped_end(stripped_start(s, c), c)
}

fn strip(s: &str, c: char) -> (r: String)
    ensures
        r@ == stripped(s@, c),
{
    let v: Vec<char> = chars_of(s);
    let mut from: usize = 0;
    assert(s@.skip(0) =~= s@);
    while from < v.len() && v[from] == c
        invariant
            v@ == s@,
            from <= v@.len(),
            stripped_start(s@, c) == stripped_start(s@.skip(from as int), c),
        decreases v@.len() - from,
    {
        assert(s@.skip(from as int).drop_first() =~= s@.skip(from + 1));
        from += 1;
    }
    let ghost rest = s@.skip(from as int);
    assert(stripped_start(s@, c) == rest);
    let mut to: usize = v.len();
    assert(rest.take((to - from) as int) =~= rest);
    while to > from && v[to - 1] == c
        invariant
            v@ == s@,
            rest == s@.skip(from as int),
            from <= to <= v@.len(),
            stripped_end(rest, c) == stripped_end(rest.take((to - from) as int), c),
        decreases to,
    {
        assert(rest.take((to - from) as int).drop_last() =~= rest.take((to - 1 - from) as int));
        to -= 1;
    }
    assert(v@.subrange(from as int, to as int) =~= rest.take((to - from) as int));
    string_of(&v, from, to)
}

/// A path is one of a contract's paths, or lies below it.
pub open spec fn lies_under(path: Seq<char>, scope: Seq<char>) -> bool {
    let p = with_replaced(path, '\\', '/');
    let s = with_replaced(stripped(scope, '/'), '\\', '/');
    p == s || begins_with(p, s + "/"@)
}

/// Whether a path is one of a contract's paths, or lies below it.
pub fn path_is_under_contract_path(path: &str, scope: &str) -> (r: bool)
    ensures
        r == lies_under(path@, scope@),
        !has_char(path@, '\\') && !has_char(scope@, '\\') && (scope@.len() > 0 ==> scope@[0] != '/'
            && scope@.last() != '/') ==> (r <==> path@ == scope@ || exists|rest: Seq<char>|
            path@ == #[trigger] (scope@ + "/"@ + rest)),
{
    proof {
        if !has_char(path@, '\\') && !has_char(scope@, '\\') && (scope@.len() > 0 ==> scope@[0]
            != '/' && scope@.last() != '/') {
            lemma_lies_under(path@, scope@);
        }
    }
    let path: String = replace_char(path, '\\', '/');
    let scope: String = replace_char(strip(scope, '/').as_str(), '\\', '/');
    if same(path.as_str(), scope.as_str()) {
        return true;
    }
    starts_with(path.as_str(), plus(scope.as_str(), "/").as_str())
}

/// A path lies under one of these.
pub open spec fn lies_under_one(path: Seq<char>, scopes: Seq<String>) -> bool {
    exists|i: int| 0 <= i < scopes.len() && lies_under(path, (#[trigger] scopes[i])@)
}

/// Whether a path lies under one of these.
pub fn is_under_one(path: &str, scopes: &Vec<String>) -> (r: bool)
    ensures
        r == lies_under_one(path@, scopes@),
{
    let mut i: usize = 0;
    while i < scopes.len()
        invariant
            i <= scopes@.len(),
            forall|j: int| 0 <= j < i ==> !lies_under(path@, (#[trigger] scopes@[j])@),
        decreases scopes@.len() - i,
    {
        if path_is_under_contract_path(path, scopes[i].as_str()) {
            assert(lies_under(path@, scopes@[i as int]@));
            return true;
        }
        i += 1;
    }
    false
}

/// A path that the contract lets the worker change.
pub open spec fn is_in_scope(contract: ExecutionContractV1, path: Seq<char>) -> bool {
    let p = with_replaced(path, '\\', '/');
    !lies_under_one(p, contract.forbidden_paths@) && lies_under_one(p, contract.allowed_paths@)
}

/// Why changed paths are refused, looking from `from` on, if they are.
pub open spec fn paths_refusal(contract: ExecutionContractV1, paths: Seq<String>, from: int) -> Option<
    Seq<char>,
>
    decreases paths.len() - from,
{
    if from < 0 || from >= paths.len() {
        None
    } else {
        let p = with_replaced(paths[from]@, '\\', '/');
        if lies_under_one(p, contract.forbidden_paths@) {
            Some("changed forbidden path "@ + paths[from]@)
        } else if !lies_under_one(p, contract.allowed_paths@) {
            Some("changed path outside allowed scope "@ + paths[from]@)
        } else {
            paths_refusal(contract, paths, from + 1)
        }
    }
}

/// What is changed within a contract's paths stays within them.
pub proof fn lemma_accepted_paths_are_in_scope(
    contract: ExecutionContractV1,
    paths: Seq<String>,
    from: int,
    at: int,
)
    requires
        0 <= from <= at < paths.len(),
        paths_refusal(contract, paths, from) is None,
    ensures
        is_in_scope(contract, paths[at]@),
    decreases at - from,
{
    if from < at {
        lemma_accepted_paths_are_in_scope(contract, paths, from + 1, at);
    }
}

/// Accepts a diff that changes nothing but what the contract allows.
pub fn ensure_diff_paths_allowed(contract: &ExecutionContractV1, diff: &ActualDiffArtifactV1) -> (r:
    Result<(), IntegratedError>)
    ensures
        match r {
            Ok(_) => paths_refusal(*contract, diff.paths@, 0) is None,
            Err(IntegratedError::Verification(message)) => paths_refusal(*contract, diff.paths@, 0)
                == Some(message@),
            Err(_) => false,
        },
        r is Ok <==> forall|i: int|
            0 <= i < diff.paths@.len() ==> is_in_scope(*contract, (#[trigger] diff.paths@[i])@),
{
    proof {
        lemma_diff_paths_accepted(*contract, diff.paths@, 0);
    }
    let mut i: usize = 0;
    while i < diff.paths.len()
        invariant
            i <= diff.paths@.len(),
            paths_refusal(*contract, diff.paths@, 0) == paths_refusal(
                *contract,
                diff.paths@,
                i as int,
            ),
        decreases diff.paths@.len() - i,
    {
        let normalized: String = replace_char(diff.paths[i].as_str(), '\\', '/');
        if is_under_one(normalized.as_str(), &contract.forbidden_paths) {
            return Err(
                IntegratedError::Verification(
                    plus("changed forbidden path ", diff.paths[i].as_str()),
                ),
            );
        }
        if !is_under_one(normalized.as_str(), &contract.allowed_paths) {
            return Err(
                IntegratedError::Verification(
                    plus("changed path outside allowed scope ", diff.paths[i].as_str()),
                ),
            );
        }
        i += 1;
    }
    Ok(())
}

/// A criterion without regard to case and spacing.
pub open spec fn normal_criterion(criterion: Seq<char>) -> Seq<char> {
    lowered(joined(words(criterion), " "@))
}

/// A criterion without regard to case and spacing.
pub fn normalize_acceptance_criterion(criterion: &str) -> (r: String)
    ensures
        r@ == normal_criterion(criterion@),
{
    to_lower(join(&split_words(criterion), " ").as_str())
}

/// Why one criterion is not met, if it is not.
pub open spec fn criterion_refusal(
    criterion: Seq<char>,
    verification: VerificationSummaryV1,
    diff: ActualDiffArtifactV1,
) -> Option<Seq<char>> {
    let n = normal_criterion(criterion);
    if n == "cargo tests pass"@ || n == "cargo verification passes"@ || n == "verification passes"@ {
        if verification.status != VerificationStatusV1::Passed {
            Some("acceptance criterion is not satisfied: "@ + criterion)
        } else {
            None
        }
    } else if n == "authoritative diff is captured"@ {
        if blank(diff.diff@) {
            Some("acceptance criterion is not satisfied: "@ + criterion)
        } else {
            None
        }
    } else {
        Some("unsupported v1 acceptance criterion: "@ + criterion)
    }
}

/// Why the criteria from `from` on are not met, if they are not.
pub open spec fn criteria_refusal(
    criteria: Seq<String>,
    verification: VerificationSummaryV1,
    diff: ActualDiffArtifactV1,
    from: int,
) -> Option<Seq<char>>
    decreases criteria.len() - from,
{
    if from < 0 || from >= criteria.len() {
        None
    } else if criterion_refusal(criteria[from]@, verification, diff) is Some {
        criterion_refusal(criteria[from]@, verification, diff)
    } else {
        criteria_refusal(criteria, verification, diff, from + 1)
    }
}

/// Accepts work that meets every criterion. A criterion that is not known is not met.
pub fn evaluate_acceptance_criteria_v1(
    criteria: &Vec<String>,
    verification: &VerificationSummaryV1,
    diff: &ActualDiffArtifactV1,
) -> (r: Result<(), IntegratedError>)
    ensures
        match r {
            Ok(_) => criteria_refusal(criteria@, *verification, *diff, 0) is None,
            Err(IntegratedError::Verification(message)) => criteria_refusal(
                criteria@,
                *verification,
                *diff,
                0,
            ) == Some(message@),
            Err(_) => false,
        },
{
    let mut i: usize = 0;
    while i < criteria.len()
        invariant
            i <= criteria@.len(),
            criteria_refusal(criteria@, *verification, *diff, 0) == criteria_refusal(
                criteria@,
                *verification,
                *diff,
                i as int,
            ),
        decreases criteria@.len() - i,
    {
        let criterion: &str = criteria[i].as_str();
        let normal: String = normalize_acceptance_criterion(criterion);
        let name: &str = normal.as_str();
        if same(name, "cargo tests pass") || same(name, "cargo verification passes") || same(
            name,
            "verification passes",
        ) {
            if verification.status != VerificationStatusV1::Passed {
                return Err(
                    IntegratedError::Verification(
                        plus("acceptance criterion is not satisfied: ", criterion),
                    ),
                );
            }
        } else if same(name, "authoritative diff is captured") {
            if is_blank(diff.diff.as_str()) {
                return Err(
                    IntegratedError::Verification(
                        plus("acceptance criterion is not satisfied: ", criterion),
                    ),
                );
            }
        } else {
            return Err(
                IntegratedError::Verification(
                    plus("unsupported v1 acceptance criterion: ", criterion),
                ),
            );
        }
        i += 1;
    }
    Ok(())
}

// ---------------------------------------------------------------------------
// What the journal says

/// The position of the first call whose outcome is unknown, at or behind `from`, or the
/// number of calls.
pub open spec fn unknown_from(calls: Seq<ToolCallRecordV1>, from: int) -> int
    decreases calls.len() - from,
{
    if from < 0 || from >= calls.len() {
        calls.len() as int
    } else if calls[from].status == ToolCallStatus::OutcomeUnknown {
        from
    } else {
        unknown_from(calls, from + 1)
    }
}

fn first_unknown(calls: &Vec<ToolCallRecordV1>) -> (r: usize)
    ensures
        r == unknown_from(calls@, 0),
        r <= calls@.len(),
{
    let mut i: usize = 0;
    while i < calls.len()
        invariant
            i <= calls@.len(),
            unknown_from(calls@, 0) == unknown_from(calls@, i as int),
        decreases calls@.len() - i,
    {
        if calls[i].status == ToolCallStatus::OutcomeUnknown {
            return i;
        }
        i += 1;
    }
    i
}

/// A patch of this id was applied.
pub open spec fn was_applied(applications: Seq<PatchApplicationRecordV1>, id: Seq<char>) -> bool {
    exists|i: int| 0 <= i < applications.len() && (#[trigger] applications[i]).patch_id@ == id
}

fn is_applied(applications: &Vec<PatchApplicationRecordV1>, id: &str) -> (r: bool)
    ensures
        r == was_applied(applications@, id@),
{
    let mut i: usize = 0;
    while i < applications.len()
        invariant
            i <= applications@.len(),
            forall|j: int| 0 <= j < i ==> (#[trigger] applications@[j]).patch_id@ != id@,
        decreases applications@.len() - i,
    {
        if same(applications[i].patch_id.as_str(), id) {
            assert(applications@[i as int].patch_id@ == id@);
            return true;
        }
        i += 1;
    }
    false
}

/// The last of the first `n` proposals that was not applied.
pub open spec fn unapplied_upto(
    proposals: Seq<PatchProposalRecordV1>,
    applications: Seq<PatchApplicationRecordV1>,
    n: int,
) -> Option<Seq<char>>
    decreases n,
{
    if n <= 0 {
        None
    } else if !was_applied(applications, proposals[n - 1].patch_id@) {
        Some(proposals[n - 1].patch_id@)
    } else {
        unapplied_upto(proposals, applications, n - 1)
    }
}

/// The last proposal of a run that was not applied.
pub open spec fn latest_unapplied(run: RunJournalV1) -> Option<Seq<char>> {
    unapplied_upto(
        run.patch_proposals@,
        run.patch_applications@,
        run.patch_proposals@.len() as int,
    )
}

fn find_unapplied(
    proposals: &Vec<PatchProposalRecordV1>,
    applications: &Vec<PatchApplicationRecordV1>,
) -> (r: Option<String>)
    ensures
        opt_text(r) == unapplied_upto(proposals@, applications@, proposals@.len() as int),
{
    let mut n: usize = proposals.len();
    while n > 0
        invariant
            n <= proposals@.len(),
            unapplied_upto(proposals@, applications@, proposals@.len() as int) == unapplied_upto(
                proposals@,
                applications@,
                n as int,
            ),
        decreases n,
    {
        let id: &str = proposals[n - 1].patch_id.as_str();
        if !is_applied(applications, id) {
            return Some(text(id));
        }
        n -= 1;
    }
    None
}

/// The name of a verification's outcome.
pub open spec fn outcome_name(status: VerificationStatusV1) -> Seq<char> {
    match status {
        VerificationStatusV1::Passed => "Passed"@,
        VerificationStatusV1::Failed => "Failed"@,
        VerificationStatusV1::NotConfigured => "NotConfigured"@,
    }
}

/// The name of a verification's outcome.
pub fn outcome_name_text(status: &VerificationStatusV1) -> (r: &'static str)
    ensures
        r@ == outcome_name(*status),
{
    match status {
        VerificationStatusV1::Passed => "Passed",
        VerificationStatusV1::Failed => "Failed",
        VerificationStatusV1::NotConfigured => "NotConfigured",
    }
}

/// What is said of the last verification.
pub open spec fn verification_label(last: Option<VerificationSummaryV1>) -> Seq<char> {
    match last {
        Some(summary) => outcome_name(summary.status),
        None => "not-run"@,
    }
}

fn verification_label_text(last: &Option<VerificationSummaryV1>) -> (r: &'static str)
    ensures
        r@ == verification_label(*last),
{
    match last {
        Some(summary) => outcome_name_text(&summary.status),
        None => "not-run",
    }
}

/// What is said of the last diff.
pub open spec fn diff_label(last: Option<ActualDiffArtifactV1>) -> Seq<char> {
    match last {
        Some(diff) => diff.diff_hash@,
        None => "none"@,
    }
}

fn diff_label_text(last: &Option<ActualDiffArtifactV1>) -> (r: String)
    ensures
        r@ == diff_label(*last),
{
    match last {
        Some(diff) => diff.diff_hash.clone(),
        None => text("none"),
    }
}

/// The conversation as JSON.
pub open spec fn history_bytes(history: Seq<ProviderMessageV1>) -> nat {
    utf8_len(messages_json(history))
}

/// A diagnostic text, without secrets and within a bound.
pub fn bounded_diagnostic_text(value: &str, max_bytes: usize) -> (r: String)
    ensures
        r@ == advice_shown(value@, max_bytes as nat),
        utf8_len(r@) <= max_bytes,
{
    redact_and_bound(value, max_bytes)
}

/// What a worker is told of its role.
pub const WORKER_SYSTEM_PROMPT: &'static str = "You are the delegated CatDesk worker.\nYou have no direct filesystem, shell, Git, patch, process, browser, or network authority.\nUse only the CatDesk tool schemas provided by the host.\nKeep using tools until the execution contract is satisfied.\nWhen verification fails, inspect the bounded failure and propose a revised child patch.\nVerifier output is authoritative and overrides source comments or earlier assumptions.\nDo not add or edit tests unless the execution contract explicitly allows test paths.\nDo not claim completion until verify.run passes and diff.actual captures the authoritative diff.\nReturn at most one tool call per turn when a tool is needed.";

/// What a worker is told of its role.
pub fn worker_system_prompt() -> (r: String)
    ensures
        r@ == WORKER_SYSTEM_PROMPT@,
{
    text(WORKER_SYSTEM_PROMPT)
}

// ---------------------------------------------------------------------------
// The run

/// The name under which a run's worker works.
pub open spec fn worker_session_name(run_id: Seq<char>) -> Seq<char> {
    "worker-session-"@ + run_id
}

/// A tool that a worker is shown: not one that starts jobs.
pub open spec fn is_worker_tool() -> spec_fn(ToolDefinitionV1) -> bool {
    |tool: ToolDefinitionV1| !begins_with(tool.name@, "job."@)
}

/// A tool of this name is among these.
pub open spec fn has_tool(tools: Seq<ToolDefinitionV1>, name: Seq<char>) -> bool {
    exists|i: int| 0 <= i < tools.len() && (#[trigger] tools[i]).name@ == name
}

/// The position of the first tool of this name at or behind `from`, or the number of
/// tools.
pub open spec fn tool_from(tools: Seq<ToolDefinitionV1>, name: Seq<char>, from: int) -> int
    decreases tools.len() - from,
{
    if from < 0 || from >= tools.len() {
        tools.len() as int
    } else if tools[from].name@ == name {
        from
    } else {
        tool_from(tools, name, from + 1)
    }
}

/// The position of the first tool of this name, or the number of tools.
pub fn find_tool(tools: &Vec<ToolDefinitionV1>, name: &str) -> (r: usize)
    ensures
        r == tool_from(tools@, name@, 0),
        r <= tools@.len(),
        r < tools@.len() <==> has_tool(tools@, name@),
{
    let mut i: usize = 0;
    while i < tools.len()
        invariant
            i <= tools@.len(),
            tool_from(tools@, name@, 0) == tool_from(tools@, name@, i as int),
            forall|j: int| 0 <= j < i ==> (#[trigger] tools@[j]).name@ != name@,
        decreases tools@.len() - i,
    {
        if same(tools[i].name.as_str(), name) {
            assert(tools@[i as int].name@ == name@);
            return i;
        }
        i += 1;
    }
    i
}

/// The event records a payload of the run.
pub open spec fn is_run_event(
    event: EventEnvelopeV1,
    sequence: u64,
    service: IntegratedDelegatedService,
    lifecycle_event: LifecycleEvent,
    payload: EventPayloadV1,
) -> bool {
    &&& event.schema_version == EXECUTION_CONTRACT_SCHEMA_VERSION
    &&& event.event_sequence == sequence
    &&& event.run_id@ == service.run_id@
    &&& event.worker_session_id == Some(service.worker_session_id)
    &&& event.turn_id == service.current_turn_id
    &&& event.item_id is Some
    &&& event.item_id->0@ == "item-"@ + decimal(sequence as nat)
    &&& event.lifecycle_event == lifecycle_event
    &&& event.request_hash@ == "fnv1a64:integrated"@
    &&& opt_text(event.result_hash) == Some(fingerprint(payload.json()))
    &&& event.payload == payload
}

/// `after` is `before` with one event more in the run's log.
pub open spec fn logs(
    before: DelegatedJournal,
    after: DelegatedJournal,
    service: IntegratedDelegatedService,
    lifecycle_event: LifecycleEvent,
    payload: EventPayloadV1,
) -> bool {
    let id = service.run_id@;
    let old_run = before.run(id);
    let new_run = after.run(id);
    let n = next_sequence(last_sequence(old_run.events@));
    &&& new_run.events@.len() == old_run.events@.len() + 1
    &&& new_run.events@.drop_last() == old_run.events@
    &&& is_run_event(new_run.events@.last(), n, service, lifecycle_event, payload)
    &&& new_run == (RunJournalV1 {
        snapshot: RunSnapshotV1 { last_event_sequence: n, ..old_run.snapshot },
        events: new_run.events,
        ..old_run
    })
    &&& after.replaces(before, id, new_run)
}

/// The number behind `n`, as far as there is one.
pub open spec fn behind_number(n: u64) -> u64 {
    if n < u64::MAX {
        (n + 1) as u64
    } else {
        n
    }
}

/// The number behind the last event of a run's log.
pub open spec fn behind_log(journal: DelegatedJournal, id: Seq<char>) -> u64 {
    next_sequence(last_sequence(journal.run(id).events@))
}

/// What is to be done next, from what is kept of a run: a patch that was proposed is
/// applied, then the work is verified, then its diff is captured.
pub open spec fn required_action(
    run: RunJournalV1,
    last_verification: Option<VerificationSummaryV1>,
    has_diff: bool,
) -> Option<Seq<char>> {
    match latest_unapplied(run) {
        Some(id) => Some(
            "call patch.apply with patchId "@ + id
                + ", or make one explicit abandonment/escalation tool decision if applying it is no longer safe"@,
        ),
        None => match last_verification {
            None => Some(
                "call verify.run next if no source mutation is required; otherwise inspect with read/search and use patch.preview before any patch.apply"@,
            ),
            Some(summary) => if summary.status != VerificationStatusV1::Passed {
                Some(
                    "diagnose the failed verifier output, inspect bounded source as needed, then call patch.preview for a corrected child patch within the repair budget"@,
                )
            } else if !has_diff {
                Some(
                    "call diff.actual for the contract allowed paths so CatDesk has authoritative diff evidence"@,
                )
            } else {
                None
            },
        },
    }
}

/// A run has nothing more to do only when every patch was applied, verification passed
/// and the diff was captured.
pub proof fn lemma_nothing_left_means_evidence(
    run: RunJournalV1,
    last_verification: Option<VerificationSummaryV1>,
    has_diff: bool,
)
    requires
        required_action(run, last_verification, has_diff) is None,
    ensures
        latest_unapplied(run) is None,
        last_verification is Some,
        last_verification->0.status == VerificationStatusV1::Passed,
        has_diff,
{
}

impl IntegratedDelegatedService {
    /// The run and its worker are named after the contract's task.
    pub open spec fn wf(self) -> bool {
        &&& self.run_id@ == self.contract.task_id@
        &&& self.worker_session_id@ == worker_session_name(self.contract.task_id@)
    }

    /// A run of a contract, of which nothing is done yet.
    pub fn new(
        contract: ExecutionContractV1,
        config: IntegratedRunConfigV1,
        tools: Vec<ToolDefinitionV1>,
    ) -> (r: Result<Self, IntegratedError>)
        ensures
            match r {
                Ok(service) => {
                    &&& is_identifier(contract.task_id@)
                    &&& is_identifier(worker_session_name(contract.task_id@))
                    &&& service.wf()
                    &&& service.is_fresh(contract, config, tools)
                },
                Err(e) => if !is_identifier(contract.task_id@) {
                    is_tool_error(e, identifier_message("RunId"@))
                } else {
                    !is_identifier(worker_session_name(contract.task_id@)) && is_tool_error(
                        e,
                        identifier_message("WorkerSessionId"@),
                    )
                },
            },
    {
        let run_id: RunId = match RunId::new(contract.task_id.as_str()) {
            Ok(id) => id,
            Err(message) => return Err(IntegratedError::Tool(message)),
        };
        let worker_session_id: WorkerSessionId = match WorkerSessionId::new(
            plus("worker-session-", contract.task_id.as_str()).as_str(),
        ) {
            Ok(id) => id,
            Err(message) => return Err(IntegratedError::Tool(message)),
        };
        Ok(
            IntegratedDelegatedService {
                run_id,
                worker_session_id,
                contract,
                config,
                tools,
                patch_proposals: Vec::new(),
                last_verification: None,
                last_diff: None,
                completed_tool_call_ids: Vec::new(),
                provider_history: Vec::new(),
                completed_tool_calls: 0,
                consecutive_failed_verifications: 0,
                advice_consulted_for_current_failure: false,
                advisor_consultations_used: 0,
                recent_read_excerpts: Vec::new(),
                next_event_sequence: 1,
                current_turn_id: None,
                corrective_turns_used: 0,
                json_tool_recovery_turns_remaining: 0,
            },
        )
    }

    /// Nothing of the run is done yet.
    pub open spec fn is_fresh(
        self,
        contract: ExecutionContractV1,
        config: IntegratedRunConfigV1,
        tools: Vec<ToolDefinitionV1>,
    ) -> bool {
        &&& self.contract == contract
        &&& self.config == config
        &&& self.tools == tools
        &&& self.patch_proposals@.len() == 0
        &&& self.last_verification is None
        &&& self.last_diff is None
        &&& self.completed_tool_call_ids@.len() == 0
        &&& self.provider_history@.len() == 0
        &&& self.completed_tool_calls == 0
        &&& self.consecutive_failed_verifications == 0
        &&& !self.advice_consulted_for_current_failure
        &&& self.advisor_consultations_used == 0
        &&& self.recent_read_excerpts@.len() == 0
        &&& self.next_event_sequence == 1
        &&& self.current_turn_id is None
        &&& self.corrective_turns_used == 0
        &&& self.json_tool_recovery_turns_remaining == 0
    }

    /// The tools that the worker is shown.
    pub fn tool_definitions(&self) -> (r: Vec<ToolDefinitionV1>)
        ensures
            r@ == self.tools@.filter(is_worker_tool()),
    {
        let mut r: Vec<ToolDefinitionV1> = Vec::new();
        let mut i: usize = 0;
        proof {
            reveal(Seq::filter);
        }
        assert(r@ =~= self.tools@.take(0).filter(is_worker_tool()));
        while i < self.tools.len()
            invariant
                i <= self.tools@.len(),
                r@ == self.tools@.take(i as int).filter(is_worker_tool()),
            decreases self.tools@.len() - i,
        {
            proof {
                lemma_filter_last(self.tools@.take(i + 1), is_worker_tool());
                assert(self.tools@.take(i + 1).drop_last() =~= self.tools@.take(i as int));
            }
            if !starts_with(self.tools[i].name.as_str(), "job.") {
                r.push(self.tools[i].clone());
            }
            i += 1;
        }
        assert(self.tools@.take(i as int) =~= self.tools@);
        r
    }

    /// The providers that the run may use.
    pub fn provider_policy(&self) -> (r: ProviderRoutingPolicyV1)
        ensures
            r.primary_provider_id@ == "ollama"@,
            texts(r.fallback_provider_ids@) == seq!["fake"@],
            r.disclosure_policy == DisclosurePolicy::LocalOnly,
    {
        let fallback_provider_ids: Vec<String> = vec![text("fake")];
        assert(texts(fallback_provider_ids@) =~= seq!["fake"@]);
        ProviderRoutingPolicyV1 {
            primary_provider_id: text("ollama"),
            fallback_provider_ids,
            disclosure_policy: ContextBudgetPolicyV1::local_default().disclosure_policy,
        }
    }

    /// The run's name.
    pub fn run_id(&self) -> (r: RunId)
        ensures
            r == self.run_id,
    {
        self.run_id.clone()
    }

    /// The position of a patch among the first `n` that were proposed, the last one
    /// first, or -1.
    pub open spec fn patch_upto(self, id: Seq<char>, n: int) -> int
        decreases n,
    {
        if n <= 0 {
            -1
        } else if self.patch_proposals@[n - 1].patch_id@ == id {
            n - 1
        } else {
            self.patch_upto(id, n - 1)
        }
    }

    /// The position of a patch, or -1.
    pub open spec fn patch_at(self, id: Seq<char>) -> int {
        self.patch_upto(id, self.patch_proposals@.len() as int)
    }

    /// A patch that was proposed.
    pub fn patch_proposal(&self, patch_id: &str) -> (r: Option<&PatchProposalV1>)
        ensures
            match r {
                Some(proposal) => 0 <= self.patch_at(patch_id@) < self.patch_proposals@.len()
                    && *proposal == self.patch_proposals@[self.patch_at(patch_id@)],
                None => self.patch_at(patch_id@) < 0,
            },
    {
        let mut n: usize = self.patch_proposals.len();
        while n > 0
            invariant
                n <= self.patch_proposals@.len(),
                self.patch_at(patch_id@) == self.patch_upto(patch_id@, n as int),
            decreases n,
        {
            if same(self.patch_proposals[n - 1].patch_id.as_str(), patch_id) {
                return Some(&self.patch_proposals[n - 1]);
            }
            n -= 1;
        }
        None
    }

    /// The diff that was last captured, if it is the one of this hash.
    pub fn actual_diff(&self, diff_hash: &str) -> (r: Option<&ActualDiffArtifactV1>)
        ensures
            match r {
                Some(diff) => self.last_diff == Some(*diff) && diff.diff_hash@ == diff_hash@,
                None => self.last_diff is None || self.last_diff->0.diff_hash@ != diff_hash@,
            },
    {
        match &self.last_diff {
            Some(diff) => if same(diff.diff_hash.as_str(), diff_hash) {
                Some(diff)
            } else {
                None
            },
            None => None,
        }
    }

    /// The diff that was last captured.
    pub fn last_actual_diff(&self) -> (r: Option<&ActualDiffArtifactV1>)
        ensures
            match r {
                Some(diff) => self.last_diff == Some(*diff),
                None => self.last_diff is None,
            },
    {
        self.last_diff.as_ref()
    }

    /// Takes over the number that the journal gives the next event.
    pub fn refresh_next_event_sequence(&mut self, journal: &DelegatedJournal) -> (r: Result<
        (),
        IntegratedError,
    >)
        requires
            journal.wf(),
        ensures
            match r {
                Ok(_) => journal.has_run(old(self).run_id@) && *final(self) == (
                IntegratedDelegatedService {
                    next_event_sequence: next_sequence(
                        last_sequence(journal.run(old(self).run_id@).events@),
                    ),
                    ..*old(self)
                }),
                Err(e) => !journal.has_run(old(self).run_id@) && is_unrecorded_run(e)
                    && *final(self) == *old(self),
            },
    {
        if let Err(e) = journal.load_run(&self.run_id) {
            return Err(journal_error(&e));
        }
        match journal.next_event_sequence(&self.run_id) {
            Ok(n) => {
                self.next_event_sequence = n;
                Ok(())
            },
            Err(e) => Err(journal_error(&e)),
        }
    }

    /// Logs an event of the run.
    pub fn append_event(
        &mut self,
        journal: &mut DelegatedJournal,
        lifecycle_event: LifecycleEvent,
        payload: EventPayloadV1,
    ) -> (r: Result<(), IntegratedError>)
        requires
            old(journal).wf(),
        ensures
            final(journal).wf(),
            match r {
                Ok(_) => {
                    &&& old(journal).has_run(old(self).run_id@)
                    &&& logs(*old(journal), *final(journal), *old(self), lifecycle_event, payload)
                    &&& *final(self) == (IntegratedDelegatedService {
                        next_event_sequence: behind_number(
                            next_sequence(last_sequence(old(journal).run(old(self).run_id@).events@)),
                        ),
                        ..*old(self)
                    })
                },
                Err(e) => {
                    &&& !old(journal).has_run(old(self).run_id@)
                    &&& is_unrecorded_run(e)
                    &&& *final(self) == *old(self)
                    &&& *final(journal) == *old(journal)
                },
            },
    {
        self.refresh_next_event_sequence(journal)?;
        let sequence: u64 = self.next_event_sequence;
        proof {
            reveal_strlit("item-");
            lemma_numbered_identifier("item-"@, sequence);
        }
        let item_id: ItemId = match ItemId::new(
            plus("item-", to_decimal(sequence).as_str()).as_str(),
        ) {
            Ok(id) => id,
            Err(message) => return Err(IntegratedError::Tool(message)),
        };
        let ghost before = *self;
        let ghost given = payload;
        let bare: EventEnvelopeV1 = EventEnvelopeV1 {
            schema_version: EXECUTION_CONTRACT_SCHEMA_VERSION,
            event_sequence: sequence,
            run_id: self.run_id.clone(),
            worker_session_id: Some(self.worker_session_id.clone()),
            turn_id: match &self.current_turn_id {
                Some(id) => Some(id.clone()),
                None => None,
            },
            item_id: Some(item_id),
            lifecycle_event,
            request_hash: text("fnv1a64:integrated"),
            result_hash: None,
            payload,
        };
        let event: EventEnvelopeV1 = match bare.with_result_hash() {
            Ok(event) => event,
            Err(message) => return Err(IntegratedError::Tool(message)),
        };
        self.next_event_sequence = sequence.saturating_add(1);
        let ghost logged = event;
        proof {
            reveal_strlit("fnv1a64:integrated");
            assert(!is_white("fnv1a64:integrated"@[0]));
            assert(append_refusal(
                last_sequence(old(journal).run(old(self).run_id@).events@),
                event,
            ) is None);
        }
        match journal.append_event(event) {
            Ok(_) => {
                proof {
                    let id = old(self).run_id@;
                    let old_events = old(journal).run(id).events@;
                    let new_events = journal.run(id).events@;
                    assert(new_events.drop_last() =~= old_events);
                    assert(is_run_event(
                        new_events.last(),
                        sequence,
                        *old(self),
                        lifecycle_event,
                        given,
                    ));
                }
                Ok(())
            },
            Err(e) => Err(journal_error(&e)),
        }
    }

    fn begin(&self, journal: &mut DelegatedJournal) -> (r: Result<(), IntegratedError>)
        requires
            self.wf(),
            old(journal).wf(),
        ensures
            final(journal).wf(),
            match r {
                Ok(_) => self.contract.refusal() is None && is_begun(
                    *old(journal),
                    *final(journal),
                    *self,
                ),
                Err(e) => {
                    &&& self.contract.refusal() is Some || !is_identifier(self.contract.task_id@)
                    &&& final(journal).runs@ == old(journal).runs@
                    &&& is_begin_failure(e, self.contract)
                },
            },
    {
        match journal.create_run(&self.contract) {
            Ok(_) => {
                let ghost known = *journal;
                proof {
                    lemma_new_run_is_found(*old(journal), known, self.run_id@);
                }
                match journal.update_run_state(&self.run_id, RunState::Running) {
                    Ok(_) => {
                        assert(journal.runs@.drop_last() =~= old(journal).runs@);
                        assert(journal.runs@.last() == journal.run(self.run_id@));
                        Ok(())
                    },
                    Err(e) => Err(journal_error(&e)),
                }
            },
            Err(JournalError::DuplicateRun(_)) => {
                match journal.update_run_state(&self.run_id, RunState::Running) {
                    Ok(_) => Ok(()),
                    Err(e) => Err(journal_error(&e)),
                }
            },
            Err(e) => Err(journal_error(&e)),
        }
    }

    /// Starts the run, or takes up one that the journal knows.
    pub fn start(&mut self, journal: &mut DelegatedJournal) -> (r: Result<
        IntegratedRunSnapshotV1,
        IntegratedError,
    >)
        requires
            old(self).wf(),
            old(journal).wf(),
        ensures
            final(journal).wf(),
            match r {
                Ok(snapshot) => {
                    let id = old(self).run_id@;
                    &&& old(self).contract.refusal() is None
                    &&& final(journal).has_run(id)
                    &&& final(journal).run(id).snapshot.state == RunState::Running
                    &&& final(journal).run(id).snapshot.active
                    &&& exists|begun: DelegatedJournal| #[trigger]
                        is_begun(*old(journal), begun, *old(self)) && logs(
                            begun,
                            *final(journal),
                            *old(self),
                            LifecycleEvent::Started,
                            EventPayloadV1::RunStateChanged { state: RunState::Running },
                        )
                    &&& *final(self) == (IntegratedDelegatedService {
                        next_event_sequence: behind_log(*final(journal), old(self).run_id@),
                        ..*old(self)
                    })
                    &&& snapshot.run_id == old(self).run_id
                    &&& snapshot.state == RunState::Running
                    &&& snapshot.checkpoint@ == "run started"@
                    &&& snapshot.completed_tool_call_ids@ == old(self).completed_tool_call_ids@
                },
                Err(e) => {
                    &&& old(self).contract.refusal() is Some || !is_identifier(
                        old(self).contract.task_id@,
                    )
                    &&& final(journal).runs@ == old(journal).runs@
                    &&& *final(self) == *old(self)
                    &&& is_begin_failure(e, old(self).contract)
                },
            },
    {
        self.begin(journal)?;
        let ghost begun = *journal;
        assert(is_begun(*old(journal), begun, *old(self)));
        match self.append_event(
            journal,
            LifecycleEvent::Started,
            EventPayloadV1::RunStateChanged { state: RunState::Running },
        ) {
            Ok(_) => {},
            Err(e) => return Err(e),
        }
        Ok(
            IntegratedRunSnapshotV1 {
                run_id: self.run_id.clone(),
                state: RunState::Running,
                checkpoint: text("run started"),
                completed_tool_call_ids: copy_list(&self.completed_tool_call_ids),
            },
        )
    }

    /// What is kept of a run, in short.
    pub open spec fn state_label(self, run: RunJournalV1) -> Seq<char> {
        "patchProposals="@ + decimal(self.patch_proposals@.len()) + "; patchApplications="@
            + decimal(run.patch_applications@.len()) + "; verification="@ + verification_label(
            self.last_verification,
        ) + "; diff="@ + diff_label(self.last_diff) + "; completedToolCalls="@ + decimal(
            self.completed_tool_call_ids@.len(),
        )
    }

    /// Says what is kept of the run, in short.
    pub fn persisted_run_state_label(&self, journal: &DelegatedJournal) -> (r: Result<
        String,
        IntegratedError,
    >)
        ensures
            match r {
                Ok(label) => journal.has_run(self.run_id@) && label@ == self.state_label(
                    journal.run(self.run_id@),
                ),
                Err(e) => !journal.has_run(self.run_id@) && is_unrecorded_run(e),
            },
    {
        let applications: usize = match journal.load_patch_applications(&self.run_id) {
            Ok(list) => list.len(),
            Err(e) => return Err(journal_error(&e)),
        };
        Ok(
            text("patchProposals=").concat(
                to_decimal(self.patch_proposals.len() as u64).as_str(),
            ).concat("; patchApplications=").concat(
                to_decimal(applications as u64).as_str(),
            ).concat("; verification=").concat(
                verification_label_text(&self.last_verification),
            ).concat("; diff=").concat(diff_label_text(&self.last_diff).as_str()).concat(
                "; completedToolCalls=",
            ).concat(to_decimal(self.completed_tool_call_ids.len() as u64).as_str()),
        )
    }

    /// What the run has to do next.
    pub fn next_required_action_from_persisted_state(&self, journal: &DelegatedJournal) -> (r: Result<
        Option<String>,
        IntegratedError,
    >)
        ensures
            match r {
                Ok(action) => journal.has_run(self.run_id@) && opt_text(action) == required_action(
                    journal.run(self.run_id@),
                    self.last_verification,
                    self.last_diff is Some,
                ),
                Err(e) => !journal.has_run(self.run_id@) && is_unrecorded_run(e),
            },
    {
        if let Some(id) = self.latest_unapplied_patch_id(journal)? {
            return Ok(
                Some(
                    text("call patch.apply with patchId ").concat(id.as_str()).concat(
                        ", or make one explicit abandonment/escalation tool decision if applying it is no longer safe",
                    ),
                ),
            );
        }
        match &self.last_verification {
            None => Ok(
                Some(
                    text(
                        "call verify.run next if no source mutation is required; otherwise inspect with read/search and use patch.preview before any patch.apply",
                    ),
                ),
            ),
            Some(summary) => if summary.status != VerificationStatusV1::Passed {
                Ok(
                    Some(
                        text(
                            "diagnose the failed verifier output, inspect bounded source as needed, then call patch.preview for a corrected child patch within the repair budget",
                        ),
                    ),
                )
            } else if self.last_diff.is_none() {
                Ok(
                    Some(
                        text(
                            "call diff.actual for the contract allowed paths so CatDesk has authoritative diff evidence",
                        ),
                    ),
                )
            } else {
                Ok(None)
            },
        }
    }

    /// The last patch that was proposed and not applied.
    pub fn latest_unapplied_patch_id(&self, journal: &DelegatedJournal) -> (r: Result<
        Option<String>,
        IntegratedError,
    >)
        ensures
            match r {
                Ok(id) => journal.has_run(self.run_id@) && opt_text(id) == latest_unapplied(
                    journal.run(self.run_id@),
                ),
                Err(e) => !journal.has_run(self.run_id@) && is_unrecorded_run(e),
            },
    {
        let applications: &Vec<PatchApplicationRecordV1> = match journal.load_patch_applications(
            &self.run_id,
        ) {
            Ok(list) => list,
            Err(e) => return Err(journal_error(&e)),
        };
        let proposals: &Vec<PatchProposalRecordV1> = match journal.load_patch_proposals(
            &self.run_id,
        ) {
            Ok(list) => list,
            Err(e) => return Err(journal_error(&e)),
        };
        Ok(find_unapplied(proposals, applications))
    }

    /// The last patch that was proposed.
    pub fn latest_patch_proposal_id(&self, journal: &DelegatedJournal) -> (r: Result<
        Option<String>,
        IntegratedError,
    >)
        ensures
            match r {
                Ok(id) => journal.has_run(self.run_id@) && opt_text(id) == latest_proposed(
                    journal.run(self.run_id@),
                ),
                Err(e) => !journal.has_run(self.run_id@) && is_unrecorded_run(e),
            },
    {
        let proposals: &Vec<PatchProposalRecordV1> = match journal.load_patch_proposals(
            &self.run_id,
        ) {
            Ok(list) => list,
            Err(e) => return Err(journal_error(&e)),
        };
        let n: usize = proposals.len();
        if n == 0 {
            Ok(None)
        } else {
            Ok(Some(text(proposals[n - 1].patch_id.as_str())))
        }
    }

    /// The last tool call that was completed.
    pub open spec fn last_call(self) -> Option<Seq<char>> {
        if self.completed_tool_call_ids@.len() == 0 {
            None
        } else {
            Some(self.completed_tool_call_ids@.last()@)
        }
    }

    /// The last tool call that was completed.
    pub fn last_completed_tool_call_id(&self) -> (r: Option<String>)
        ensures
            opt_text(r) == self.last_call(),
    {
        let n: usize = self.completed_tool_call_ids.len();
        if n == 0 {
            None
        } else {
            Some(self.completed_tool_call_ids[n - 1].clone())
        }
    }
}

/// The last patch that was proposed.
pub open spec fn latest_proposed(run: RunJournalV1) -> Option<Seq<char>> {
    if run.patch_proposals@.len() == 0 {
        None
    } else {
        Some(run.patch_proposals@.last().patch_id@)
    }
}

/// The journal knows the run, as a new one where it did not, and the run is running.
pub open spec fn is_begun(
    before: DelegatedJournal,
    begun: DelegatedJournal,
    service: IntegratedDelegatedService,
) -> bool {
    let id = service.run_id@;
    let run = begun.run(id);
    &&& begun.has_run(id)
    &&& run.snapshot.state == RunState::Running
    &&& run.snapshot.active
    &&& if before.has_run(id) {
        begun.replaces(
            before,
            id,
            (RunJournalV1 {
                snapshot: RunSnapshotV1 {
                    state: RunState::Running,
                    active: true,
                    ..before.run(id).snapshot
                },
                ..before.run(id)
            }),
        )
    } else {
        &&& begun.runs@.len() == before.runs@.len() + 1
        &&& begun.runs@.drop_last() == before.runs@
        &&& begun.runs@.last() == run
        &&& run.snapshot.schema_version == EXECUTION_CONTRACT_SCHEMA_VERSION
        &&& run.snapshot.run_id@ == id
        &&& run.snapshot.contract_hash@ == fingerprint(service.contract.json())
        &&& run.snapshot.last_event_sequence == 0
        &&& run.tool_calls@.len() == 0
        &&& run.patch_proposals@.len() == 0
        &&& run.patch_applications@.len() == 0
        &&& run.events@.len() == 0
        &&& run.advice_artifacts@.len() == 0
    }
}

// ---------------------------------------------------------------------------
// Corrections

/// A member of a record that is printed on several lines.
pub open spec fn pretty_field(key: Seq<char>, value: Seq<char>) -> Seq<char> {
    "  \""@ + key + "\": "@ + value
}

/// A record that is printed on several lines.
pub open spec fn pretty_object(fields: Seq<Seq<char>>) -> Seq<char> {
    "{\n"@ + joined(fields, ",\n"@) + "\n}"@
}

fn pretty_field_text(key: &str, value: &str) -> (r: String)
    ensures
        r@ == pretty_field(key@, value@),
{
    text("  \"").concat(key).concat("\": ").concat(value)
}

/// Why a correction was needed, as JSON.
pub open spec fn correction_fields(
    service: IntegratedDelegatedService,
    run: RunJournalV1,
    kind: Seq<char>,
    turn: u32,
    stop_reason: Option<Seq<char>>,
) -> Seq<Seq<char>> {
    seq![
        pretty_field(
            "correctiveTurnNumber"@,
            decimal((service.corrective_turns_used + 1) as nat),
        ),
        pretty_field("historyBytes"@, decimal(history_bytes(service.provider_history@))),
        pretty_field("kind"@, json_string(kind)),
        pretty_field("lastCompletedToolCallId"@, optional_string(service.last_call())),
        pretty_field("maxCorrectiveTurns"@, decimal(MAX_CORRECTIVE_TURNS_PER_RUN as nat)),
        pretty_field("modelId"@, json_string(service.config.model_id@)),
        pretty_field("persistedRunState"@, json_string(service.state_label(run))),
        pretty_field("runId"@, json_string(service.run_id@)),
        pretty_field(
            "stopReason"@,
            json_string(
                match stop_reason {
                    Some(reason) => reason,
                    None => "unknown"@,
                },
            ),
        ),
        pretty_field("turn"@, decimal(turn as nat)),
    ]
}

/// What the worker is told when it is corrected.
pub open spec fn correction_message(fields: Seq<Seq<char>>, instruction: Seq<char>) -> Seq<char> {
    "<catdesk_corrective_continuation>\n"@ + pretty_object(fields) + "\n"@ + advice_shown(
        instruction,
        2048,
    ) + "\n</catdesk_corrective_continuation>"@
}

/// What the log says of a correction.
pub open spec fn correction_event(kind: Seq<char>, instruction: Seq<char>) -> Seq<char> {
    "corrective continuation "@ + kind + " issued: "@ + advice_shown(instruction, 256)
}

/// What is said when no correction is left.
pub open spec fn correction_budget_message(
    service: IntegratedDelegatedService,
    run: RunJournalV1,
    turn: u32,
) -> Seq<char> {
    "corrective turn budget exhausted after "@ + decimal(service.corrective_turns_used as nat)
        + " corrections; model="@ + service.config.model_id@ + "; runId="@ + service.run_id@
        + "; turn="@ + decimal(turn as nat) + "; persistedState="@ + service.state_label(run)
        + "; lastCompletedToolCallId="@ + match service.last_call() {
        Some(id) => id,
        None => "none"@,
    }
}

/// `after` is `before` with one message more, which is plain text of this role.
pub open spec fn says(
    before: Seq<ProviderMessageV1>,
    after: Seq<ProviderMessageV1>,
    role: Seq<char>,
    content: Seq<char>,
) -> bool {
    &&& after.len() == before.len() + 1
    &&& after.drop_last() == before
    &&& is_plain_message(after.last(), role, content)
}

/// The log holds one more note.
pub open spec fn notes(
    before: DelegatedJournal,
    after: DelegatedJournal,
    service: IntegratedDelegatedService,
    note: Seq<char>,
) -> bool {
    exists|said: String|
        said@ == note && #[trigger] logs(
            before,
            after,
            service,
            LifecycleEvent::Delta,
            EventPayloadV1::Delta { text: said },
        )
}

/// The worker was corrected.
pub open spec fn is_corrected(
    before: IntegratedDelegatedService,
    after: IntegratedDelegatedService,
    old_journal: DelegatedJournal,
    new_journal: DelegatedJournal,
    kind: Seq<char>,
    turn: u32,
    stop_reason: Option<Seq<char>>,
    instruction: Seq<char>,
) -> bool {
    &&& before.corrective_turns_used < MAX_CORRECTIVE_TURNS_PER_RUN
    &&& after == (IntegratedDelegatedService {
        corrective_turns_used: (before.corrective_turns_used + 1) as u32,
        provider_history: after.provider_history,
        next_event_sequence: behind_log(new_journal, before.run_id@),
        ..before
    })
    &&& says(
        before.provider_history@,
        after.provider_history@,
        "user"@,
        correction_message(
            correction_fields(before, old_journal.run(before.run_id@), kind, turn, stop_reason),
            instruction,
        ),
    )
    &&& notes(old_journal, new_journal, before, correction_event(kind, instruction))
}

/// What asking for a correction does.
pub open spec fn is_correction(
    before: IntegratedDelegatedService,
    after: IntegratedDelegatedService,
    old_journal: DelegatedJournal,
    new_journal: DelegatedJournal,
    kind: Seq<char>,
    turn: u32,
    stop_reason: Option<Seq<char>>,
    instruction: Seq<char>,
    r: Result<bool, IntegratedError>,
) -> bool {
    match r {
        Ok(corrected) => corrected && is_corrected(
            before,
            after,
            old_journal,
            new_journal,
            kind,
            turn,
            stop_reason,
            instruction,
        ),
        Err(e) => {
            &&& before.corrective_turns_used >= MAX_CORRECTIVE_TURNS_PER_RUN
            &&& is_tool_error(
                e,
                correction_budget_message(before, old_journal.run(before.run_id@), turn),
            )
            &&& after == before
            &&& new_journal == old_journal
        },
    }
}

/// What is told to a worker whose tool call could not be read.
pub open spec fn malformed_instruction(action: Seq<char>) -> Seq<char> {
    "The previous provider continuation failed because the model emitted malformed native tool-call syntax. The next continuation will use CatDesk JSON-envelope recovery without native Ollama tool definitions. Do not repeat prose, XML, markdown, or multiple calls. Return exactly one JSON object shaped as {\"tool\":\"tool.name\",\"arguments\":{...}}. CatDesk will validate the tool name and arguments before execution. Continue from the persisted run state; completed tool calls are authoritative and must not be replayed. Required next action: "@
        + action
}

/// What is told to a worker that claims to be done too early.
pub open spec fn premature_completion_instruction(error: Seq<char>, action: Seq<char>) -> Seq<char> {
    "The previous response claimed completion before CatDesk accepted the final evidence. Gate error: "@
        + advice_shown(error, 512) + ". Required next action: "@ + action
}

/// What is told to a worker that stops too early.
pub open spec fn premature_stop_instruction(
    action: Seq<char>,
    prompt_eval_count: Option<u64>,
) -> Seq<char> {
    "The provider stopped without a CatDesk tool call before the run was verified. Required next action: "@
        + action + match prompt_eval_count {
        Some(tokens) => " PromptEvalCount="@ + decimal(tokens as nat) + "."@,
        None => ""@,
    }
}

/// The stop reason that a premature claim is corrected with.
pub open spec fn claim_stop_reason(
    stop_reason: Option<Seq<char>>,
    prompt_eval_count: Option<u64>,
) -> Option<Seq<char>> {
    if stop_reason is Some {
        stop_reason
    } else if prompt_eval_count is Some {
        Some("prompt-eval-count-present"@)
    } else {
        None
    }
}

impl IntegratedDelegatedService {
    /// What the run has to do next.
    pub open spec fn next_action(self, journal: DelegatedJournal) -> Option<Seq<char>> {
        required_action(
            journal.run(self.run_id@),
            self.last_verification,
            self.last_diff is Some,
        )
    }

    /// Corrects the worker, as long as corrections are left.
    pub fn push_corrective_continuation(
        &mut self,
        journal: &mut DelegatedJournal,
        kind: &str,
        turn: u32,
        stop_reason: &Option<String>,
        instruction: &str,
    ) -> (r: Result<bool, IntegratedError>)
        requires
            old(journal).wf(),
            old(journal).has_run(old(self).run_id@),
        ensures
            final(journal).wf(),
            is_correction(
                *old(self),
                *final(self),
                *old(journal),
                *final(journal),
                kind@,
                turn,
                opt_text(*stop_reason),
                instruction@,
                r,
            ),
    {
        let state: String = self.persisted_run_state_label(journal)?;
        let last: Option<String> = self.last_completed_tool_call_id();
        if self.corrective_turns_used >= MAX_CORRECTIVE_TURNS_PER_RUN {
            let last: String = match last {
                Some(id) => id,
                None => text("none"),
            };
            return Err(
                IntegratedError::Tool(
                    text("corrective turn budget exhausted after ").concat(
                        to_decimal(self.corrective_turns_used as u64).as_str(),
                    ).concat(" corrections; model=").concat(self.config.model_id.as_str()).concat(
                        "; runId=",
                    ).concat(self.run_id.as_str()).concat("; turn=").concat(
                        to_decimal(turn as u64).as_str(),
                    ).concat("; persistedState=").concat(state.as_str()).concat(
                        "; lastCompletedToolCallId=",
                    ).concat(last.as_str()),
                ),
            );
        }
        let bytes: usize = byte_len(messages_to_json(&self.provider_history).as_str());
        let reason: String = match stop_reason {
            Some(reason) => reason.clone(),
            None => text("unknown"),
        };
        let fields: Vec<String> = vec![
            pretty_field_text(
                "correctiveTurnNumber",
                to_decimal(self.corrective_turns_used as u64 + 1).as_str(),
            ),
            pretty_field_text("historyBytes", to_decimal(bytes as u64).as_str()),
            pretty_field_text("kind", quoted(kind).as_str()),
            pretty_field_text("lastCompletedToolCallId", optional_string_text(&last).as_str()),
            pretty_field_text(
                "maxCorrectiveTurns",
                to_decimal(MAX_CORRECTIVE_TURNS_PER_RUN as u64).as_str(),
            ),
            pretty_field_text("modelId", quoted(self.config.model_id.as_str()).as_str()),
            pretty_field_text("persistedRunState", quoted(state.as_str()).as_str()),
            pretty_field_text("runId", quoted(self.run_id.as_str()).as_str()),
            pretty_field_text("stopReason", quoted(reason.as_str()).as_str()),
            pretty_field_text("turn", to_decimal(turn as u64).as_str()),
        ];
        assert(texts(fields@) =~= correction_fields(
            *old(self),
            old(journal).run(old(self).run_id@),
            kind@,
            turn,
            opt_text(*stop_reason),
        ));
        let message: String = text("<catdesk_corrective_continuation>\n").concat("{\n").concat(
            join(&fields, ",\n").as_str(),
        ).concat("\n}").concat("\n").concat(
            bounded_diagnostic_text(instruction, 2048).as_str(),
        ).concat("\n</catdesk_corrective_continuation>");
        assert(message@ =~= correction_message(texts(fields@), instruction@));
        let note: String = text("corrective continuation ").concat(kind).concat(
            " issued: ",
        ).concat(bounded_diagnostic_text(instruction, 256).as_str());
        let ghost said = note;
        let logged: Result<(), IntegratedError> = self.append_event(
            journal,
            LifecycleEvent::Delta,
            EventPayloadV1::Delta { text: note },
        );
        assert(logged is Ok);
        assert(logs(
            *old(journal),
            *journal,
            *old(self),
            LifecycleEvent::Delta,
            EventPayloadV1::Delta { text: said },
        ));
        self.corrective_turns_used = self.corrective_turns_used + 1;
        self.provider_history.push(plain_message("user", message));
        assert(self.provider_history@.drop_last() =~= old(self).provider_history@);
        Ok(true)
    }

    /// Corrects a worker whose tool call could not be read, and reads its next turn as a
    /// JSON envelope.
    pub fn push_malformed_tool_syntax_correction(
        &mut self,
        journal: &mut DelegatedJournal,
        turn: u32,
        is_malformed_syntax: bool,
    ) -> (r: Result<bool, IntegratedError>)
        requires
            old(journal).wf(),
            old(journal).has_run(old(self).run_id@),
        ensures
            final(journal).wf(),
            if is_malformed_syntax {
                is_correction(
                    (IntegratedDelegatedService {
                        json_tool_recovery_turns_remaining: 1,
                        ..*old(self)
                    }),
                    *final(self),
                    *old(journal),
                    *final(journal),
                    "malformed-tool-call"@,
                    turn,
                    None,
                    malformed_instruction(
                        match old(self).next_action(*old(journal)) {
                            Some(action) => action,
                            None => "make a concise final completion claim"@,
                        },
                    ),
                    r,
                )
            } else {
                r == Ok::<bool, IntegratedError>(false) && *final(self) == *old(self) && *final(journal) == *old(journal)
            },
    {
        if !is_malformed_syntax {
            return Ok(false);
        }
        let action: String = match self.next_required_action_from_persisted_state(journal)? {
            Some(action) => action,
            None => text("make a concise final completion claim"),
        };
        let instruction: String = text(
            "The previous provider continuation failed because the model emitted malformed native tool-call syntax. The next continuation will use CatDesk JSON-envelope recovery without native Ollama tool definitions. Do not repeat prose, XML, markdown, or multiple calls. Return exactly one JSON object shaped as {\"tool\":\"tool.name\",\"arguments\":{...}}. CatDesk will validate the tool name and arguments before execution. Continue from the persisted run state; completed tool calls are authoritative and must not be replayed. Required next action: ",
        ).concat(action.as_str());
        self.json_tool_recovery_turns_remaining = 1;
        self.push_corrective_continuation(
            journal,
            "malformed-tool-call",
            turn,
            &None,
            instruction.as_str(),
        )
    }

    /// Corrects a worker that claims to be done too early, if there is anything left to
    /// do.
    pub fn push_premature_completion_correction(
        &mut self,
        journal: &mut DelegatedJournal,
        turn: u32,
        error: &IntegratedError,
        stop_reason: &Option<String>,
        prompt_eval_count: Option<u64>,
    ) -> (r: Result<bool, IntegratedError>)
        requires
            old(journal).wf(),
            old(journal).has_run(old(self).run_id@),
        ensures
            final(journal).wf(),
            match old(self).next_action(*old(journal)) {
                Some(action) => is_correction(
                    *old(self),
                    *final(self),
                    *old(journal),
                    *final(journal),
                    "premature-completion"@,
                    turn,
                    claim_stop_reason(opt_text(*stop_reason), prompt_eval_count),
                    premature_completion_instruction(error.debug(), action),
                    r,
                ),
                None => r == Ok::<bool, IntegratedError>(false) && *final(self) == *old(self)
                    && *final(journal) == *old(journal),
            },
    {
        let action: String = match self.next_required_action_from_persisted_state(journal)? {
            Some(action) => action,
            None => return Ok(false),
        };
        let instruction: String = text(
            "The previous response claimed completion before CatDesk accepted the final evidence. Gate error: ",
        ).concat(bounded_diagnostic_text(error.debug_text().as_str(), 512).as_str()).concat(
            ". Required next action: ",
        ).concat(action.as_str());
        let reason: Option<String> = match stop_reason {
            Some(reason) => Some(reason.clone()),
            None => match prompt_eval_count {
                Some(_) => Some(text("prompt-eval-count-present")),
                None => None,
            },
        };
        self.push_corrective_continuation(
            journal,
            "premature-completion",
            turn,
            &reason,
            instruction.as_str(),
        )
    }

    /// Corrects a worker that stops too early, if there is anything left to do.
    pub fn push_premature_stop_correction(
        &mut self,
        journal: &mut DelegatedJournal,
        turn: u32,
        stop_reason: &Option<String>,
        prompt_eval_count: Option<u64>,
    ) -> (r: Result<bool, IntegratedError>)
        requires
            old(journal).wf(),
            old(journal).has_run(old(self).run_id@),
        ensures
            final(journal).wf(),
            match old(self).next_action(*old(journal)) {
                Some(action) => is_correction(
                    *old(self),
                    *final(self),
                    *old(journal),
                    *final(journal),
                    "premature-stop"@,
                    turn,
                    opt_text(*stop_reason),
                    premature_stop_instruction(action, prompt_eval_count),
                    r,
                ),
                None => r == Ok::<bool, IntegratedError>(false) && *final(self) == *old(self)
                    && *final(journal) == *old(journal),
            },
    {
        let action: String = match self.next_required_action_from_persisted_state(journal)? {
            Some(action) => action,
            None => return Ok(false),
        };
        let count: String = match prompt_eval_count {
            Some(tokens) => text(" PromptEvalCount=").concat(to_decimal(tokens).as_str()).concat(
                ".",
            ),
            None => text(""),
        };
        let instruction: String = text(
            "The provider stopped without a CatDesk tool call before the run was verified. Required next action: ",
        ).concat(action.as_str()).concat(count.as_str());
        self.push_corrective_continuation(
            journal,
            "premature-stop",
            turn,
            stop_reason,
            instruction.as_str(),
        )
    }
}

/// A run is corrected at most twice, whatever its worker does: no correction is given
/// beyond the budget, and each one that is given counts.
pub proof fn lemma_corrections_are_bounded(
    before: IntegratedDelegatedService,
    after: IntegratedDelegatedService,
    old_journal: DelegatedJournal,
    new_journal: DelegatedJournal,
    kind: Seq<char>,
    turn: u32,
    stop_reason: Option<Seq<char>>,
    instruction: Seq<char>,
    r: Result<bool, IntegratedError>,
)
    requires
        is_correction(
            before,
            after,
            old_journal,
            new_journal,
            kind,
            turn,
            stop_reason,
            instruction,
            r,
        ),
    ensures
        r is Ok <==> before.corrective_turns_used < MAX_CORRECTIVE_TURNS_PER_RUN,
        r is Ok ==> after.corrective_turns_used == before.corrective_turns_used + 1,
        after.corrective_turns_used <= MAX_CORRECTIVE_TURNS_PER_RUN || after == before,
{
}

// ---------------------------------------------------------------------------
// The conversation

/// What a worker is told in place of the part of the conversation that is dropped.
pub open spec fn checkpoint_summary(service: IntegratedDelegatedService, run: RunJournalV1) -> Seq<
    char,
> {
    let c = service.contract;
    "Compacted checkpoint:\nobjective: "@ + c.objective@ + "\nallowed_paths: "@ + joined(
        texts(c.allowed_paths@),
        ", "@,
    ) + "\nforbidden_paths: "@ + joined(texts(c.forbidden_paths@), ", "@)
        + "\nacceptance_criteria: "@ + joined(texts(c.acceptance_criteria@), "; "@)
        + "\nlatest_patch: "@ + match latest_proposed(run) {
        Some(id) => id,
        None => "none"@,
    } + "\nverification_status: "@ + verification_label(service.last_verification)
        + "\nlatest_diff: "@ + diff_label(service.last_diff) + "\nremaining_turn_budget: "@
        + decimal(c.max_turns as nat) + "\nremaining_tool_budget: "@ + decimal(
        if c.max_tool_calls >= service.completed_tool_calls {
            (c.max_tool_calls - service.completed_tool_calls) as nat
        } else {
            0
        },
    )
}

/// The conversation is too long for the provider, and long enough to be shortened.
pub open spec fn needs_compaction(history: Seq<ProviderMessageV1>) -> bool {
    history_bytes(history) > MAX_PROVIDER_INPUT_BYTES && history.len() > 10
}

/// `after` keeps the first two and the last eight messages of `before`, with a
/// checkpoint between them.
pub open spec fn is_compacted(
    before: Seq<ProviderMessageV1>,
    after: Seq<ProviderMessageV1>,
    checkpoint: Seq<char>,
) -> bool {
    &&& before.len() > 10
    &&& after.len() == 11
    &&& after.take(2) == before.take(2)
    &&& is_plain_message(after[2], "user"@, checkpoint)
    &&& after.skip(3) == before.skip(before.len() - 8)
}

/// Shortening keeps what a worker must not lose: its role, its contract and the last
/// eight messages.
pub proof fn lemma_compaction_keeps_the_frame(
    before: Seq<ProviderMessageV1>,
    after: Seq<ProviderMessageV1>,
    checkpoint: Seq<char>,
)
    requires
        is_compacted(before, after, checkpoint),
    ensures
        after[0] == before[0],
        after[1] == before[1],
        forall|i: int| 0 <= i < 8 ==> #[trigger] after[3 + i] == before[before.len() - 8 + i],
        after.len() <= before.len(),
{
    assert(after.take(2)[0] == before.take(2)[0]);
    assert(after.take(2)[1] == before.take(2)[1]);
    assert forall|i: int| 0 <= i < 8 implies #[trigger] after[3 + i] == before[before.len() - 8
        + i] by {
        assert(after.skip(3)[i] == before.skip(before.len() - 8)[i]);
    }
}

impl IntegratedDelegatedService {
    /// Sums the run up for a worker.
    pub fn context_checkpoint_summary(&self, journal: &DelegatedJournal) -> (r: Result<
        String,
        IntegratedError,
    >)
        ensures
            match r {
                Ok(summary) => journal.has_run(self.run_id@) && summary@ == checkpoint_summary(
                    *self,
                    journal.run(self.run_id@),
                ),
                Err(e) => !journal.has_run(self.run_id@) && is_unrecorded_run(e),
            },
    {
        let latest: String = match self.latest_patch_proposal_id(journal)? {
            Some(id) => id,
            None => text("none"),
        };
        let left: u32 = self.contract.max_tool_calls.saturating_sub(self.completed_tool_calls);
        Ok(
            text("Compacted checkpoint:\nobjective: ").concat(
                self.contract.objective.as_str(),
            ).concat("\nallowed_paths: ").concat(
                join(&self.contract.allowed_paths, ", ").as_str(),
            ).concat("\nforbidden_paths: ").concat(
                join(&self.contract.forbidden_paths, ", ").as_str(),
            ).concat("\nacceptance_criteria: ").concat(
                join(&self.contract.acceptance_criteria, "; ").as_str(),
            ).concat("\nlatest_patch: ").concat(latest.as_str()).concat(
                "\nverification_status: ",
            ).concat(verification_label_text(&self.last_verification)).concat(
                "\nlatest_diff: ",
            ).concat(diff_label_text(&self.last_diff).as_str()).concat(
                "\nremaining_turn_budget: ",
            ).concat(to_decimal(self.contract.max_turns as u64).as_str()).concat(
                "\nremaining_tool_budget: ",
            ).concat(to_decimal(left as u64).as_str()),
        )
    }

    /// Shortens the conversation where it has become too long for the provider.
    pub fn compact_provider_history_if_needed(&mut self, journal: &DelegatedJournal) -> (r: Result<
        (),
        IntegratedError,
    >)
        requires
            journal.has_run(old(self).run_id@),
        ensures
            *final(self) == (IntegratedDelegatedService {
                provider_history: final(self).provider_history,
                ..*old(self)
            }),
            if needs_compaction(old(self).provider_history@) {
                &&& is_compacted(
                    old(self).provider_history@,
                    final(self).provider_history@,
                    checkpoint_summary(*old(self), journal.run(old(self).run_id@)),
                )
                &&& r is Ok <==> history_bytes(final(self).provider_history@)
                    <= MAX_PROVIDER_INPUT_BYTES
            } else {
                r is Ok && final(self).provider_history@ == old(self).provider_history@
            },
            r is Err ==> is_tool_error(
                r->Err_0,
                "serialized provider input exceeded 49152 bytes after compaction"@,
            ),
    {
        let len: usize = self.provider_history.len();
        if byte_len(messages_to_json(&self.provider_history).as_str()) <= MAX_PROVIDER_INPUT_BYTES
            || len <= 10 {
            return Ok(());
        }
        let checkpoint: String = self.context_checkpoint_summary(journal)?;
        let mut next: Vec<ProviderMessageV1> = Vec::new();
        next.push(self.provider_history[0].clone());
        next.push(self.provider_history[1].clone());
        next.push(plain_message("user", checkpoint));
        let ghost start = next@;
        let ghost old_history = self.provider_history@;
        let first: usize = len - 8;
        let mut i: usize = first;
        while i < len
            invariant
                self.provider_history@ == old_history,
                len == old_history.len(),
                first == len - 8,
                first <= i <= len,
                start.len() == 3,
                next@ == start + old_history.subrange(first as int, i as int),
            decreases len - i,
        {
            next.push(self.provider_history[i].clone());
            i += 1;
            assert(next@ =~= start + old_history.subrange(first as int, i as int));
        }
        self.provider_history = next;
        proof {
            let now = self.provider_history@;
            assert(now.take(2) =~= old_history.take(2));
            assert(now.skip(3) =~= old_history.skip(old_history.len() - 8));
        }
        if byte_len(messages_to_json(&self.provider_history).as_str()) > MAX_PROVIDER_INPUT_BYTES {
            return tool_error("serialized provider input exceeded 49152 bytes after compaction");
        }
        Ok(())
    }
}

// ---------------------------------------------------------------------------
// When a run is complete

/// The evidence lets a claim of completion through: verification passed, the diff was
/// captured, the claim agrees with both, every criterion is met, nothing was changed
/// outside the contract's paths, and the outcome of every tool call is known.
pub open spec fn gate_is_open(
    service: IntegratedDelegatedService,
    run: RunJournalV1,
    claim_holds: bool,
) -> bool {
    &&& service.last_verification is Some
    &&& service.last_verification->0.status == VerificationStatusV1::Passed
    &&& service.last_diff is Some
    &&& claim_holds
    &&& criteria_refusal(
        service.contract.acceptance_criteria@,
        service.last_verification->0,
        service.last_diff->0,
        0,
    ) is None
    &&& paths_refusal(service.contract, service.last_diff->0.paths@, 0) is None
    &&& unknown_from(run.tool_calls@, 0) == run.tool_calls@.len()
}

/// Why a claim of completion is not let through.
pub open spec fn gate_refuses(
    service: IntegratedDelegatedService,
    run: RunJournalV1,
    claim: Result<(), String>,
    e: IntegratedError,
) -> bool {
    if service.last_verification is None {
        is_verification_error(e, "verification has not run"@)
    } else if service.last_verification->0.status != VerificationStatusV1::Passed {
        is_verification_error(e, "verification has not passed"@)
    } else if service.last_diff is None {
        is_verification_error(e, "actual diff has not been captured"@)
    } else if let Err(problem) = claim {
        e == IntegratedError::Patch(problem)
    } else if let Some(refusal) = criteria_refusal(
        service.contract.acceptance_criteria@,
        service.last_verification->0,
        service.last_diff->0,
        0,
    ) {
        is_verification_error(e, refusal)
    } else if let Some(refusal) = paths_refusal(
        service.contract,
        service.last_diff->0.paths@,
        0,
    ) {
        is_verification_error(e, refusal)
    } else {
        let k = unknown_from(run.tool_calls@, 0);
        k < run.tool_calls@.len() && is_verification_error(
            e,
            "tool call "@ + run.tool_calls@[k].tool_call_id@ + " has OUTCOME_UNKNOWN status"@,
        )
    }
}

/// What a run that is complete leaves for review.
pub open spec fn is_review(package: FinalReviewPackageV1, service: IntegratedDelegatedService) -> bool {
    &&& package.schema_version == EXECUTION_CONTRACT_SCHEMA_VERSION
    &&& package.run_id == service.run_id
    &&& Some(package.verification) == service.last_verification
    &&& package.actual_diff_summary@ == decimal(utf8_len(service.last_diff->0.diff@))
        + " bytes of authoritative diff"@
    &&& !package.pushed
    &&& !package.merged
    &&& package.final_result.schema_version == EXECUTION_CONTRACT_SCHEMA_VERSION
    &&& package.final_result.status == RunState::CompletedVerified
    &&& package.final_result.objective == service.contract.objective
    &&& package.final_result.branch == service.contract.feature_branch
    &&& package.final_result.files_changed@ == service.last_diff->0.paths@
    &&& package.final_result.verification == service.last_verification->0.summary
    &&& package.final_result.diff_artifacts@.len() == 0
    &&& texts(package.final_result.provider_history@) == seq![service.config.model_id@]
    &&& package.final_result.unresolved_warnings@.len() == 0
    &&& package.final_result.final_recommendation@ == "ready for human review"@
}

impl IntegratedDelegatedService {
    /// Accepts a run in which the outcome of every tool call is known.
    pub fn ensure_no_outcome_unknown(&self, journal: &DelegatedJournal) -> (r: Result<
        (),
        IntegratedError,
    >)
        ensures
            match r {
                Ok(_) => journal.has_run(self.run_id@) && unknown_from(
                    journal.run(self.run_id@).tool_calls@,
                    0,
                ) == journal.run(self.run_id@).tool_calls@.len(),
                Err(e) => if journal.has_run(self.run_id@) {
                    let calls = journal.run(self.run_id@).tool_calls@;
                    let k = unknown_from(calls, 0);
                    k < calls.len() && is_verification_error(
                        e,
                        "tool call "@ + calls[k].tool_call_id@ + " has OUTCOME_UNKNOWN status"@,
                    )
                } else {
                    is_unrecorded_run(e)
                },
            },
    {
        let calls: &Vec<ToolCallRecordV1> = match journal.load_tool_calls(&self.run_id) {
            Ok(calls) => calls,
            Err(e) => return Err(journal_error(&e)),
        };
        let k: usize = first_unknown(calls);
        if k < calls.len() {
            return Err(
                IntegratedError::Verification(
                    text("tool call ").concat(calls[k].tool_call_id.as_str()).concat(
                        " has OUTCOME_UNKNOWN status",
                    ),
                ),
            );
        }
        Ok(())
    }

    /// Lets a claim of completion through, if the evidence does. Whether the claim
    /// itself agrees with the verification and the diff is decided elsewhere.
    pub fn verify_completion_gate(&self, journal: &DelegatedJournal, claim: Result<(), String>) -> (r:
        Result<(), IntegratedError>)
        requires
            journal.has_run(self.run_id@),
        ensures
            match r {
                Ok(_) => gate_is_open(*self, journal.run(self.run_id@), claim is Ok),
                Err(e) => gate_refuses(*self, journal.run(self.run_id@), claim, e)
                    && !gate_is_open(*self, journal.run(self.run_id@), claim is Ok),
            },
    {
        let verification: &VerificationSummaryV1 = match &self.last_verification {
            Some(verification) => verification,
            None => return Err(
                IntegratedError::Verification(text("verification has not run")),
            ),
        };
        if verification.status != VerificationStatusV1::Passed {
            return Err(IntegratedError::Verification(text("verification has not passed")));
        }
        let diff: &ActualDiffArtifactV1 = match &self.last_diff {
            Some(diff) => diff,
            None => return Err(
                IntegratedError::Verification(text("actual diff has not been captured")),
            ),
        };
        if let Err(problem) = claim {
            return Err(IntegratedError::Patch(problem));
        }
        evaluate_acceptance_criteria_v1(&self.contract.acceptance_criteria, verification, diff)?;
        ensure_diff_paths_allowed(&self.contract, diff)?;
        self.ensure_no_outcome_unknown(journal)
    }

    /// Packs a run for review. Nothing is pushed or merged.
    pub fn final_review(&self) -> (r: Result<FinalReviewPackageV1, IntegratedError>)
        ensures
            match r {
                Ok(package) => {
                    &&& self.last_verification is Some
                    &&& self.last_verification->0.status == VerificationStatusV1::Passed
                    &&& self.last_diff is Some
                    &&& is_review(package, *self)
                },
                Err(e) => if self.last_verification is None {
                    is_verification_error(e, "verification has not run"@)
                } else if self.last_diff is None {
                    is_verification_error(e, "actual diff has not been captured"@)
                } else {
                    &&& self.last_verification->0.status != VerificationStatusV1::Passed
                    &&& is_verification_error(
                        e,
                        debug_variant(
                            "VerificationRequired"@,
                            "final completion requires passed verification"@,
                        ),
                    )
                },
            },
    {
        let verification: VerificationSummaryV1 = match &self.last_verification {
            Some(verification) => verification.clone(),
            None => return Err(
                IntegratedError::Verification(text("verification has not run")),
            ),
        };
        let diff: &ActualDiffArtifactV1 = match &self.last_diff {
            Some(diff) => diff,
            None => return Err(
                IntegratedError::Verification(text("actual diff has not been captured")),
            ),
        };
        let model: Vec<String> = vec![self.config.model_id.clone()];
        assert(texts(model@) =~= seq![self.config.model_id@]);
        let result: FinalRunResultV1 = FinalRunResultV1 {
            schema_version: EXECUTION_CONTRACT_SCHEMA_VERSION,
            status: RunState::CompletedVerified,
            objective: self.contract.objective.clone(),
            branch: self.contract.feature_branch.clone(),
            files_changed: copy_list(&diff.paths),
            verification: verification.summary.clone(),
            diff_artifacts: Vec::new(),
            provider_history: model,
            unresolved_warnings: Vec::new(),
            final_recommendation: text("ready for human review"),
        };
        let summary: String = to_decimal(byte_len(diff.diff.as_str()) as u64).concat(
            " bytes of authoritative diff",
        );
        proof {
            lemma_decimal(utf8_len(diff.diff@));
            let c = summary@[0];
            assert(c == decimal(utf8_len(diff.diff@))[0]);
            assert(!is_white(c));
        }
        let coordinator: RunCoordinator = RunCoordinator::new();
        match coordinator.final_review_package(
            self.run_id.clone(),
            result,
            verification,
            summary,
        ) {
            Ok(package) => Ok(package),
            Err(CoordinatorError::VerificationRequired(message)) => Err(
                IntegratedError::Verification(
                    debug_variant_text("VerificationRequired", message.as_str()),
                ),
            ),
            Err(_) => Err(IntegratedError::Verification(text(""))),
        }
    }

    /// The events of the run behind a number.
    pub fn events<'a>(&self, journal: &'a DelegatedJournal, after_sequence: u64, limit: usize) -> (r: Result<
        Vec<&'a EventEnvelopeV1>,
        IntegratedError,
    >)
        ensures
            match r {
                Ok(events) => derefs(events@) == if journal.has_run(self.run_id@) {
                    page(journal.run(self.run_id@).events@, EventCursor { after_sequence, limit })
                } else {
                    Seq::empty()
                },
                Err(_) => false,
            },
    {
        match journal.poll_events(&self.run_id, EventCursor { after_sequence, limit }) {
            Ok(events) => Ok(events),
            Err(e) => Err(journal_error(&e)),
        }
    }
}

/// A run whose evidence lets a claim of completion through is packed for review, and
/// what is packed is that evidence.
pub proof fn lemma_open_gate_gives_a_review(
    service: IntegratedDelegatedService,
    run: RunJournalV1,
    package: FinalReviewPackageV1,
)
    requires
        gate_is_open(service, run, true),
        is_review(package, service),
    ensures
        package.verification.status == VerificationStatusV1::Passed,
        !package.pushed && !package.merged,
        forall|i: int|
            0 <= i < package.final_result.files_changed@.len() ==> is_in_scope(
                service.contract,
                #[trigger] package.final_result.files_changed@[i]@,
            ),
{
    assert forall|i: int| 0 <= i < package.final_result.files_changed@.len() implies is_in_scope(
        service.contract,
        #[trigger] package.final_result.files_changed@[i]@,
    ) by {
        lemma_accepted_paths_are_in_scope(service.contract, service.last_diff->0.paths@, 0, i);
    }
}

// ---------------------------------------------------------------------------
// The worker's turns

/// What a provider is asked for.
#[derive(Debug)]
pub struct TurnAskV1 {
    pub turn_id: TurnId,
    /// The tool call is expected as a JSON envelope in the text.
    pub json_envelope: bool,
}

/// What an event of a turn calls for.
#[derive(Debug)]
pub enum EventStepV1 {
    /// The next event.
    Next,
    /// A tool.
    Call(NormalizedToolCallV1),
    /// The worker was corrected, and the turn is over.
    Corrected,
    /// The run is complete.
    Complete,
}

/// What the worker is given at the start.
pub open spec fn first_message(contract_text: Seq<char>) -> Seq<char> {
    "Execution contract:\n"@ + contract_text
        + "\nUse CatDesk tools until the acceptance criteria are verified. Do not claim completion until verify.run passes and diff.actual has captured the authoritative diff."@
}

/// The journal notes that a run has come to a state.
pub open spec fn moves_run(
    before: DelegatedJournal,
    after: DelegatedJournal,
    id: Seq<char>,
    state: RunState,
) -> bool {
    after.replaces(
        before,
        id,
        (RunJournalV1 {
            snapshot: RunSnapshotV1 {
                state,
                active: !is_terminal_state(state),
                ..before.run(id).snapshot
            },
            ..before.run(id)
        }),
    )
}

/// The time is up.
pub open spec fn is_over_time(contract: ExecutionContractV1, elapsed_nanos: u128) -> bool {
    elapsed_nanos > contract.max_elapsed_seconds * 1_000_000_000
}

/// The tool call that a worker is recorded to have made.
pub open spec fn is_recorded_call(
    call: NormalizedToolCallV1,
    asked: NormalizedToolCallV1,
    turn: u32,
) -> bool {
    &&& call.tool_call_id@ == "tc-prod-"@ + decimal(turn as nat)
    &&& call.arguments_hash@ == fingerprint(asked.arguments@)
    &&& call.tool_name == asked.tool_name
    &&& call.arguments == asked.arguments
}

/// A tool call as the conversation shows it.
pub open spec fn call_json(call: NormalizedToolCallV1) -> Seq<char> {
    object(
        seq![
            field("arguments"@, call.arguments@),
            field("tool"@, json_string(call.tool_name@)),
        ],
    )
}

/// A message that belongs to a tool call.
pub open spec fn is_tool_message(
    message: ProviderMessageV1,
    role: Seq<char>,
    content: Seq<char>,
    call: NormalizedToolCallV1,
) -> bool {
    &&& message.role@ == role
    &&& message.content@ == content
    &&& opt_text(message.tool_call_id) == Some(call.tool_call_id@)
    &&& message.tool_name == Some(call.tool_name)
}

/// A message that belongs to a tool call.
pub fn tool_message(role: &str, content: String, call: &NormalizedToolCallV1) -> (r: ProviderMessageV1)
    ensures
        is_tool_message(r, role@, content@, *call),
{
    ProviderMessageV1 {
        role: text(role),
        content,
        tool_call_id: Some(text(call.tool_call_id.as_str())),
        tool_name: Some(call.tool_name.clone()),
    }
}

/// `after` is `before` with one message more, which belongs to a tool call.
pub open spec fn says_of_tool(
    before: Seq<ProviderMessageV1>,
    after: Seq<ProviderMessageV1>,
    role: Seq<char>,
    content: Seq<char>,
    call: NormalizedToolCallV1,
) -> bool {
    &&& after.len() == before.len() + 1
    &&& after.drop_last() == before
    &&& is_tool_message(after.last(), role, content, call)
}

/// The text of an event, or another.
pub open spec fn event_text(event: NormalizedProviderEventV1, other: Seq<char>) -> Seq<char> {
    match event.text {
        Some(t) => t@,
        None => other,
    }
}

/// `service` with one message more of this role.
pub open spec fn has_said(
    before: IntegratedDelegatedService,
    after: IntegratedDelegatedService,
    role: Seq<char>,
    content: Seq<char>,
) -> bool {
    &&& after == (IntegratedDelegatedService { provider_history: after.provider_history, ..before })
    &&& says(before.provider_history@, after.provider_history@, role, content)
}

/// What a claim of completion does: it is let through, or the worker is corrected, or
/// the run stops.
pub open spec fn is_claim_step(
    before: IntegratedDelegatedService,
    after: IntegratedDelegatedService,
    old_journal: DelegatedJournal,
    new_journal: DelegatedJournal,
    turn: u32,
    said: Seq<char>,
    claim: Result<(), String>,
    stop_reason: Option<Seq<char>>,
    prompt_eval_count: Option<u64>,
    r: Result<EventStepV1, IntegratedError>,
) -> bool {
    let run = old_journal.run(before.run_id@);
    exists|heard: IntegratedDelegatedService| #[trigger]
        has_said(before, heard, "assistant"@, said) && if gate_is_open(before, run, claim is Ok) {
            &&& r is Ok && r->Ok_0 is Complete
            &&& after == heard
            &&& moves_run(old_journal, new_journal, before.run_id@, RunState::CompletedVerified)
        } else {
            exists|e: IntegratedError| #[trigger]
                gate_refuses(before, run, claim, e) && match heard.next_action(old_journal) {
                    Some(action) => {
                        let corrected = match r {
                            Ok(_) => Ok(true),
                            Err(x) => Err(x),
                        };
                        &&& r is Ok ==> r->Ok_0 is Corrected
                        &&& is_correction(
                            heard,
                            after,
                            old_journal,
                            new_journal,
                            "premature-completion"@,
                            turn,
                            claim_stop_reason(stop_reason, prompt_eval_count),
                            premature_completion_instruction(e.debug(), action),
                            corrected,
                        )
                    },
                    None => {
                        &&& r == Err::<EventStepV1, IntegratedError>(e)
                        &&& after == heard
                        &&& new_journal == old_journal
                    },
                }
        }
}

impl IntegratedDelegatedService {
    /// Starts the run and gives the worker its role and its contract.
    pub fn begin_worker_loop(&mut self, journal: &mut DelegatedJournal, contract_text: &str) -> (r: Result<
        IntegratedRunSnapshotV1,
        IntegratedError,
    >)
        requires
            old(self).wf(),
            old(journal).wf(),
        ensures
            final(journal).wf(),
            match r {
                Ok(snapshot) => {
                    let id = old(self).run_id@;
                    &&& old(self).contract.refusal() is None
                    &&& final(journal).has_run(id)
                    &&& final(journal).run(id).snapshot.state == RunState::Running
                    &&& exists|begun: DelegatedJournal| #[trigger]
                        is_begun(*old(journal), begun, *old(self)) && logs(
                            begun,
                            *final(journal),
                            *old(self),
                            LifecycleEvent::Started,
                            EventPayloadV1::RunStateChanged { state: RunState::Running },
                        )
                    &&& *final(self) == (IntegratedDelegatedService {
                        provider_history: final(self).provider_history,
                        next_event_sequence: behind_log(*final(journal), old(self).run_id@),
                        ..*old(self)
                    })
                    &&& snapshot.run_id == old(self).run_id
                    &&& snapshot.state == RunState::Running
                    &&& snapshot.checkpoint@ == "run started"@
                    &&& snapshot.completed_tool_call_ids@ == old(self).completed_tool_call_ids@
                    &&& final(self).provider_history@.len() == 2
                    &&& is_plain_message(
                        final(self).provider_history@[0],
                        "system"@,
                        WORKER_SYSTEM_PROMPT@,
                    )
                    &&& is_plain_message(
                        final(self).provider_history@[1],
                        "user"@,
                        first_message(contract_text@),
                    )
                },
                Err(e) => {
                    &&& old(self).contract.refusal() is Some || !is_identifier(
                        old(self).contract.task_id@,
                    )
                    &&& final(journal).runs@ == old(journal).runs@
                    &&& *final(self) == *old(self)
                    &&& is_begin_failure(e, old(self).contract)
                },
            },
    {
        let snapshot: IntegratedRunSnapshotV1 = self.start(journal)?;
        let mut history: Vec<ProviderMessageV1> = Vec::new();
        history.push(plain_message("system", worker_system_prompt()));
        history.push(
            plain_message(
                "user",
                text("Execution contract:\n").concat(contract_text).concat(
                    "\nUse CatDesk tools until the acceptance criteria are verified. Do not claim completion until verify.run passes and diff.actual has captured the authoritative diff.",
                ),
            ),
        );
        self.provider_history = history;
        Ok(snapshot)
    }

    /// Decides whether a turn can be asked for, and what for. A run that was cancelled
    /// or whose time is up ends here.
    pub fn before_turn(
        &mut self,
        journal: &mut DelegatedJournal,
        turn: u32,
        cancel_requested: bool,
        elapsed_nanos: u128,
    ) -> (r: Result<TurnAskV1, IntegratedError>)
        requires
            old(journal).wf(),
            old(journal).has_run(old(self).run_id@),
        ensures
            final(journal).wf(),
            ({
                let id = old(self).run_id@;
                if turn > old(self).contract.max_turns {
                    &&& *final(self) == *old(self) && *final(journal) == *old(journal)
                    &&& r is Err && is_tool_error(r->Err_0, "turn budget exceeded"@)
                } else if cancel_requested {
                    &&& *final(self) == *old(self)
                    &&& moves_run(*old(journal), *final(journal), id, RunState::Cancelled)
                    &&& r is Err && is_tool_error(r->Err_0, "run cancelled at turn boundary"@)
                } else if is_over_time(old(self).contract, elapsed_nanos) {
                    &&& *final(self) == *old(self)
                    &&& moves_run(*old(journal), *final(journal), id, RunState::Failed)
                    &&& r is Err && is_tool_error(r->Err_0, "elapsed budget exceeded"@)
                } else {
                    &&& *final(journal) == *old(journal)
                    &&& final(self).current_turn_id is Some
                    &&& final(self).current_turn_id->0@ == "turn-"@ + decimal(turn as nat)
                    &&& *final(self) == (IntegratedDelegatedService {
                        current_turn_id: final(self).current_turn_id,
                        provider_history: final(self).provider_history,
                        ..*old(self)
                    })
                    &&& if needs_compaction(old(self).provider_history@) {
                        &&& is_compacted(
                            old(self).provider_history@,
                            final(self).provider_history@,
                            checkpoint_summary(*old(self), old(journal).run(id)),
                        )
                        &&& r is Ok <==> history_bytes(final(self).provider_history@)
                            <= MAX_PROVIDER_INPUT_BYTES
                    } else {
                        r is Ok && final(self).provider_history@ == old(self).provider_history@
                    }
                    &&& r is Ok ==> Some(r->Ok_0.turn_id) == final(self).current_turn_id
                        && r->Ok_0.json_envelope == (old(self).json_tool_recovery_turns_remaining
                        > 0)
                    &&& r is Err ==> is_tool_error(
                        r->Err_0,
                        "serialized provider input exceeded 49152 bytes after compaction"@,
                    )
                }
            }),
    {
        if turn > self.contract.max_turns {
            return tool_error("turn budget exceeded");
        }
        if cancel_requested {
            let moved: Result<RunSnapshotV1, JournalError> = journal.update_run_state(
                &self.run_id,
                RunState::Cancelled,
            );
            assert(moved is Ok);
            return tool_error("run cancelled at turn boundary");
        }
        if elapsed_nanos > self.contract.max_elapsed_seconds as u128 * 1_000_000_000 {
            let moved: Result<RunSnapshotV1, JournalError> = journal.update_run_state(
                &self.run_id,
                RunState::Failed,
            );
            assert(moved is Ok);
            return tool_error("elapsed budget exceeded");
        }
        proof {
            reveal_strlit("turn-");
            lemma_numbered_identifier("turn-"@, turn as u64);
        }
        let turn_id: TurnId = match TurnId::new(
            plus("turn-", to_decimal(turn as u64).as_str()).as_str(),
        ) {
            Ok(id) => id,
            Err(message) => return Err(IntegratedError::Tool(message)),
        };
        self.current_turn_id = Some(turn_id.clone());
        self.compact_provider_history_if_needed(journal)?;
        Ok(TurnAskV1 { turn_id, json_envelope: self.json_tool_recovery_turns_remaining > 0 })
    }

    /// Takes in whether the provider answered, and how long the answer is. The turn goes
    /// on where it did; where its tool call could not be read, the worker is corrected
    /// and the turn is over.
    pub fn after_reply(
        &mut self,
        journal: &mut DelegatedJournal,
        turn: u32,
        reply: Result<usize, RuntimeError>,
        is_malformed_syntax: bool,
    ) -> (r: Result<bool, IntegratedError>)
        requires
            old(journal).wf(),
            old(journal).has_run(old(self).run_id@),
        ensures
            final(journal).wf(),
            ({
                let heard = IntegratedDelegatedService {
                    json_tool_recovery_turns_remaining: 0,
                    ..*old(self)
                };
                match reply {
                    Ok(output_bytes) => {
                        &&& *final(self) == heard
                        &&& *final(journal) == *old(journal)
                        &&& if output_bytes > 65_536 {
                            r is Err && is_tool_error(
                                r->Err_0,
                                "provider output exceeded CatDesk bound"@,
                            )
                        } else {
                            r == Ok::<bool, IntegratedError>(true)
                        }
                    },
                    Err(e) => if is_malformed_syntax {
                        let corrected = match r {
                            Ok(go_on) => Ok(!go_on),
                            Err(x) => Err(x),
                        };
                        is_correction(
                            (IntegratedDelegatedService {
                                json_tool_recovery_turns_remaining: 1,
                                ..*old(self)
                            }),
                            *final(self),
                            *old(journal),
                            *final(journal),
                            "malformed-tool-call"@,
                            turn,
                            None,
                            malformed_instruction(
                                match old(self).next_action(*old(journal)) {
                                    Some(action) => action,
                                    None => "make a concise final completion claim"@,
                                },
                            ),
                            corrected,
                        )
                    } else {
                        &&& *final(self) == heard
                        &&& *final(journal) == *old(journal)
                        &&& r matches Err(IntegratedError::Runtime(m)) && m@ == e.debug()
                    },
                }
            }),
    {
        self.json_tool_recovery_turns_remaining = 0;
        match reply {
            Ok(output_bytes) => {
                if output_bytes > 65_536 {
                    return tool_error("provider output exceeded CatDesk bound");
                }
                Ok(true)
            },
            Err(e) => match self.push_malformed_tool_syntax_correction(
                journal,
                turn,
                is_malformed_syntax,
            ) {
                Ok(corrected) => if corrected {
                    Ok(false)
                } else {
                    Err(IntegratedError::Runtime(e.debug_text()))
                },
                Err(x) => Err(x),
            },
        }
    }

    fn take_call(&mut self, turn: u32, asked: &Option<NormalizedToolCallV1>) -> (r: Result<
        EventStepV1,
        IntegratedError,
    >)
        ensures
            takes_call(*old(self), *final(self), turn, *asked, r),
    {
        let asked: &NormalizedToolCallV1 = match asked {
            Some(asked) => asked,
            None => return tool_error("provider omitted tool call payload"),
        };
        proof {
            reveal_strlit("tc-prod-");
            lemma_numbered_identifier("tc-prod-"@, turn as u64);
        }
        let tool_call_id: ToolCallId = match ToolCallId::new(
            plus("tc-prod-", to_decimal(turn as u64).as_str()).as_str(),
        ) {
            Ok(id) => id,
            Err(message) => return Err(IntegratedError::Tool(message)),
        };
        let call: NormalizedToolCallV1 = NormalizedToolCallV1 {
            tool_call_id,
            tool_name: asked.tool_name.clone(),
            arguments_hash: stable_text_hash(asked.arguments.as_str()),
            arguments: asked.arguments.clone(),
        };
        let fields: Vec<String> = vec![
            field_text("arguments", call.arguments.as_str()),
            field_text("tool", quoted(call.tool_name.as_str()).as_str()),
        ];
        assert(texts(fields@) =~= seq![
            field("arguments"@, call.arguments@),
            field("tool"@, json_string(call.tool_name@)),
        ]);
        let message: ProviderMessageV1 = tool_message("assistant", object_text(&fields), &call);
        self.provider_history.push(message);
        assert(self.provider_history@.drop_last() =~= old(self).provider_history@);
        Ok(EventStepV1::Call(call))
    }

    fn take_claim(
        &mut self,
        journal: &mut DelegatedJournal,
        turn: u32,
        said: String,
        claim: Result<(), String>,
        stop_reason: &Option<String>,
        prompt_eval_count: Option<u64>,
    ) -> (r: Result<EventStepV1, IntegratedError>)
        requires
            old(journal).wf(),
            old(journal).has_run(old(self).run_id@),
        ensures
            final(journal).wf(),
            is_claim_step(
                *old(self),
                *final(self),
                *old(journal),
                *final(journal),
                turn,
                said@,
                claim,
                opt_text(*stop_reason),
                prompt_eval_count,
                r,
            ),
    {
        self.provider_history.push(plain_message("assistant", said));
        assert(self.provider_history@.drop_last() =~= old(self).provider_history@);
        let ghost heard = *self;
        assert(has_said(*old(self), heard, "assistant"@, said@));
        match self.verify_completion_gate(journal, claim) {
            Ok(_) => {
                let moved: Result<RunSnapshotV1, JournalError> = journal.update_run_state(
                    &self.run_id,
                    RunState::CompletedVerified,
                );
                assert(moved is Ok);
                Ok(EventStepV1::Complete)
            },
            Err(e) => {
                assert(gate_refuses(*old(self), old(journal).run(old(self).run_id@), claim, e));
                match self.push_premature_completion_correction(
                    journal,
                    turn,
                    &e,
                    stop_reason,
                    prompt_eval_count,
                ) {
                    Ok(corrected) => if corrected {
                        Ok(EventStepV1::Corrected)
                    } else {
                        Err(e)
                    },
                    Err(x) => Err(x),
                }
            },
        }
    }

    /// Takes in one event of a turn.
    pub fn take_event(
        &mut self,
        journal: &mut DelegatedJournal,
        turn: u32,
        event: &NormalizedProviderEventV1,
        claim: Result<(), String>,
        stop_reason: &Option<String>,
        prompt_eval_count: Option<u64>,
    ) -> (r: Result<EventStepV1, IntegratedError>)
        requires
            old(journal).wf(),
            old(journal).has_run(old(self).run_id@),
        ensures
            final(journal).wf(),
            is_event_step(
                *old(self),
                *final(self),
                *old(journal),
                *final(journal),
                turn,
                *event,
                claim,
                opt_text(*stop_reason),
                prompt_eval_count,
                r,
            ),
    {
        match event.kind {
            NormalizedProviderEventKind::ToolCall => self.take_call(turn, &event.tool_call),
            NormalizedProviderEventKind::TextDelta => {
                let said: String = event_text_or(event, "");
                self.provider_history.push(plain_message("assistant", said));
                assert(self.provider_history@.drop_last() =~= old(self).provider_history@);
                Ok(EventStepV1::Next)
            },
            NormalizedProviderEventKind::CompletionClaim => {
                let said: String = event_text_or(event, "");
                self.take_claim(journal, turn, said, claim, stop_reason, prompt_eval_count)
            },
            NormalizedProviderEventKind::MalformedResponse => Err(
                IntegratedError::Tool(event_text_or(event, "malformed provider response")),
            ),
            NormalizedProviderEventKind::CancelAck => tool_error("provider cancelled run"),
            NormalizedProviderEventKind::TerminalError => Err(
                IntegratedError::Tool(event_text_or(event, "provider terminal error")),
            ),
        }
    }

    /// Takes in how a tool call came out. Says whether the advisor may be asked, which is
    /// after a verification. A patch that could not be applied ends the run.
    pub fn after_tool(&mut self, call: &NormalizedToolCallV1, outcome: &Result<(), IntegratedError>) -> (r:
        Result<bool, IntegratedError>)
        ensures
            match *outcome {
                Ok(_) => *final(self) == *old(self) && r == Ok::<bool, IntegratedError>(
                    call.tool_name@ == "verify.run"@,
                ),
                Err(e) => if call.tool_name@ == "patch.apply"@ {
                    *final(self) == *old(self) && r is Err && is_tool_error(
                        r->Err_0,
                        tool_failure_message(call.tool_name@, e),
                    )
                } else {
                    &&& r == Ok::<bool, IntegratedError>(false)
                    &&& *final(self) == (IntegratedDelegatedService {
                        provider_history: final(self).provider_history,
                        ..*old(self)
                    })
                    &&& says_of_tool(
                        old(self).provider_history@,
                        final(self).provider_history@,
                        "user"@,
                        tool_failure_message(call.tool_name@, e),
                        *call,
                    )
                },
            },
    {
        match outcome {
            Ok(_) => Ok(same(call.tool_name.as_str(), "verify.run")),
            Err(e) => {
                let message: String = text("Tool ").concat(call.tool_name.as_str()).concat(
                    " failed under CatDesk policy and was journaled. Error: ",
                ).concat(e.debug_text().as_str()).concat(
                    ". Choose a permitted next CatDesk tool call; do not retry the same invalid request.",
                );
                if same(call.tool_name.as_str(), "patch.apply") {
                    return Err(IntegratedError::Tool(message));
                }
                self.provider_history.push(tool_message("user", message, call));
                assert(self.provider_history@.drop_last() =~= old(self).provider_history@);
                Ok(false)
            },
        }
    }

    /// Ends a turn. A worker that stopped without a tool call is corrected, or the run
    /// stops.
    pub fn end_turn(
        &mut self,
        journal: &mut DelegatedJournal,
        turn: u32,
        saw_tool: bool,
        terminal: bool,
        stop_reason: &Option<String>,
        prompt_eval_count: Option<u64>,
    ) -> (r: Result<(), IntegratedError>)
        requires
            old(journal).wf(),
            old(journal).has_run(old(self).run_id@),
        ensures
            final(journal).wf(),
            if saw_tool || !terminal {
                r is Ok && *final(self) == *old(self) && *final(journal) == *old(journal)
            } else {
                match old(self).next_action(*old(journal)) {
                    Some(action) => {
                        let corrected = match r {
                            Ok(_) => Ok(true),
                            Err(e) => Err(e),
                        };
                        is_correction(
                            *old(self),
                            *final(self),
                            *old(journal),
                            *final(journal),
                            "premature-stop"@,
                            turn,
                            opt_text(*stop_reason),
                            premature_stop_instruction(action, prompt_eval_count),
                            corrected,
                        )
                    },
                    None => r is Err && is_tool_error(
                        r->Err_0,
                        "provider stopped before CatDesk verification and diff completed"@,
                    ) && *final(self) == *old(self) && *final(journal) == *old(journal),
                }
            },
    {
        if saw_tool || !terminal {
            return Ok(());
        }
        match self.push_premature_stop_correction(journal, turn, stop_reason, prompt_eval_count) {
            Ok(corrected) => if corrected {
                Ok(())
            } else {
                tool_error("provider stopped before CatDesk verification and diff completed")
            },
            Err(e) => Err(e),
        }
    }
}

/// What a worker is told of a tool call that failed.
pub open spec fn tool_failure_message(tool_name: Seq<char>, e: IntegratedError) -> Seq<char> {
    "Tool "@ + tool_name + " failed under CatDesk policy and was journaled. Error: "@ + e.debug()
        + ". Choose a permitted next CatDesk tool call; do not retry the same invalid request."@
}

fn event_text_or(event: &NormalizedProviderEventV1, other: &str) -> (r: String)
    ensures
        r@ == event_text(*event, other@),
{
    match &event.text {
        Some(t) => t.clone(),
        None => text(other),
    }
}

/// What an event with a tool call does.
pub open spec fn takes_call(
    before: IntegratedDelegatedService,
    after: IntegratedDelegatedService,
    turn: u32,
    asked: Option<NormalizedToolCallV1>,
    r: Result<EventStepV1, IntegratedError>,
) -> bool {
    match asked {
        None => after == before && r is Err && is_tool_error(
            r->Err_0,
            "provider omitted tool call payload"@,
        ),
        Some(asked) => {
            &&& r is Ok && r->Ok_0 is Call
            &&& is_recorded_call(r->Ok_0->Call_0, asked, turn)
            &&& after == (IntegratedDelegatedService {
                provider_history: after.provider_history,
                ..before
            })
            &&& says_of_tool(
                before.provider_history@,
                after.provider_history@,
                "assistant"@,
                call_json(asked),
                r->Ok_0->Call_0,
            )
        },
    }
}

/// What an event of a turn does.
pub open spec fn is_event_step(
    before: IntegratedDelegatedService,
    after: IntegratedDelegatedService,
    old_journal: DelegatedJournal,
    new_journal: DelegatedJournal,
    turn: u32,
    event: NormalizedProviderEventV1,
    claim: Result<(), String>,
    stop_reason: Option<Seq<char>>,
    prompt_eval_count: Option<u64>,
    r: Result<EventStepV1, IntegratedError>,
) -> bool {
    match event.kind {
        NormalizedProviderEventKind::ToolCall => new_journal == old_journal && takes_call(
            before,
            after,
            turn,
            event.tool_call,
            r,
        ),
        NormalizedProviderEventKind::TextDelta => {
            &&& new_journal == old_journal
            &&& r is Ok && r->Ok_0 is Next
            &&& has_said(before, after, "assistant"@, event_text(event, ""@))
        },
        NormalizedProviderEventKind::CompletionClaim => is_claim_step(
            before,
            after,
            old_journal,
            new_journal,
            turn,
            event_text(event, ""@),
            claim,
            stop_reason,
            prompt_eval_count,
            r,
        ),
        NormalizedProviderEventKind::MalformedResponse => {
            &&& new_journal == old_journal && after == before
            &&& r is Err && is_tool_error(
                r->Err_0,
                event_text(event, "malformed provider response"@),
            )
        },
        NormalizedProviderEventKind::CancelAck => {
            &&& new_journal == old_journal && after == before
            &&& r is Err && is_tool_error(r->Err_0, "provider cancelled run"@)
        },
        NormalizedProviderEventKind::TerminalError => {
            &&& new_journal == old_journal && after == before
            &&& r is Err && is_tool_error(r->Err_0, event_text(event, "provider terminal error"@))
        },
    }
}

/// Whatever a provider says: a run is complete only when its evidence lets the claim
/// through.
pub proof fn lemma_no_completion_without_evidence(
    before: IntegratedDelegatedService,
    after: IntegratedDelegatedService,
    old_journal: DelegatedJournal,
    new_journal: DelegatedJournal,
    turn: u32,
    event: NormalizedProviderEventV1,
    claim: Result<(), String>,
    stop_reason: Option<Seq<char>>,
    prompt_eval_count: Option<u64>,
    r: Result<EventStepV1, IntegratedError>,
)
    requires
        is_event_step(
            before,
            after,
            old_journal,
            new_journal,
            turn,
            event,
            claim,
            stop_reason,
            prompt_eval_count,
            r,
        ),
        r is Ok,
        r->Ok_0 is Complete,
    ensures
        gate_is_open(before, old_journal.run(before.run_id@), true),
        moves_run(old_journal, new_journal, before.run_id@, RunState::CompletedVerified),
{
}

// ---------------------------------------------------------------------------
// Restart

/// What is kept of a run besides its journal.
#[derive(Debug)]
pub struct IntegratedDurableStateV1 {
    pub schema_version: u32,
    pub run_id: RunId,
    pub patch_proposals: Vec<PatchProposalV1>,
    pub last_verification: Option<VerificationSummaryV1>,
    pub last_diff: Option<ActualDiffArtifactV1>,
    pub completed_tool_call_ids: Vec<String>,
    pub provider_history: Vec<ProviderMessageV1>,
    pub completed_tool_calls: u32,
    pub consecutive_failed_verifications: u32,
    pub advice_consulted_for_current_failure: bool,
    pub advisor_consultations_used: u32,
    pub recent_read_excerpts: Vec<BoundedSourceExcerptV1>,
    pub next_event_sequence: u64,
    pub corrective_turns_used: u32,
    pub json_tool_recovery_turns_remaining: u32,
}

/// The ids of the calls that were completed, among the first `n`.
pub open spec fn completed_ids(calls: Seq<ToolCallRecordV1>, n: int) -> Seq<Seq<char>>
    decreases n,
{
    if n <= 0 {
        Seq::empty()
    } else if calls[n - 1].status == ToolCallStatus::Completed {
        completed_ids(calls, n - 1).push(calls[n - 1].tool_call_id@)
    } else {
        completed_ids(calls, n - 1)
    }
}

fn collect_completed(calls: &Vec<ToolCallRecordV1>) -> (r: Vec<String>)
    ensures
        texts(r@) == completed_ids(calls@, calls@.len() as int),
        r@.len() <= calls@.len(),
{
    let mut r: Vec<String> = Vec::new();
    let mut i: usize = 0;
    assert(texts(r@) =~= completed_ids(calls@, 0));
    while i < calls.len()
        invariant
            i <= calls@.len(),
            r@.len() <= i,
            texts(r@) == completed_ids(calls@, i as int),
        decreases calls@.len() - i,
    {
        if calls[i].status == ToolCallStatus::Completed {
            let ghost prior = texts(r@);
            r.push(text(calls[i].tool_call_id.as_str()));
            assert(texts(r@) =~= prior.push(calls@[i as int].tool_call_id@));
        }
        i += 1;
    }
    r
}

/// A run that was taken up again from the journal alone.
pub open spec fn is_recovered_from_journal(
    service: IntegratedDelegatedService,
    run: RunJournalV1,
    contract: ExecutionContractV1,
    config: IntegratedRunConfigV1,
    tools: Vec<ToolDefinitionV1>,
) -> bool {
    let ids = completed_ids(run.tool_calls@, run.tool_calls@.len() as int);
    &&& service.contract == contract
    &&& service.config == config
    &&& service.tools == tools
    &&& service.patch_proposals@.len() == 0
    &&& service.last_verification is None
    &&& service.last_diff is None
    &&& texts(service.completed_tool_call_ids@) == ids
    &&& service.provider_history@.len() == 0
    &&& service.completed_tool_calls == ids.len() as u32
    &&& service.consecutive_failed_verifications == 0
    &&& !service.advice_consulted_for_current_failure
    &&& service.advisor_consultations_used == 0
    &&& service.recent_read_excerpts@.len() == 0
    &&& service.next_event_sequence == behind_number(run.snapshot.last_event_sequence)
    &&& service.current_turn_id is None
    &&& service.corrective_turns_used == 0
    &&& service.json_tool_recovery_turns_remaining == 0
}

/// A run that was taken up again with everything that was kept of it.
pub open spec fn is_recovered_with_state(
    service: IntegratedDelegatedService,
    run: RunJournalV1,
    contract: ExecutionContractV1,
    config: IntegratedRunConfigV1,
    tools: Vec<ToolDefinitionV1>,
    state: IntegratedDurableStateV1,
) -> bool {
    let number = behind_number(run.snapshot.last_event_sequence);
    &&& service.contract == contract
    &&& service.config == config
    &&& service.tools == tools
    &&& service.patch_proposals == state.patch_proposals
    &&& service.last_verification == state.last_verification
    &&& service.last_diff == state.last_diff
    &&& service.completed_tool_call_ids == state.completed_tool_call_ids
    &&& service.provider_history == state.provider_history
    &&& service.completed_tool_calls == state.completed_tool_calls
    &&& service.consecutive_failed_verifications == state.consecutive_failed_verifications
    &&& service.advice_consulted_for_current_failure == state.advice_consulted_for_current_failure
    &&& service.advisor_consultations_used == state.advisor_consultations_used
    &&& service.recent_read_excerpts == state.recent_read_excerpts
    &&& service.next_event_sequence == if number > state.next_event_sequence {
        number
    } else {
        state.next_event_sequence
    }
    &&& service.current_turn_id is None
    &&& service.corrective_turns_used == state.corrective_turns_used
    &&& service.json_tool_recovery_turns_remaining == state.json_tool_recovery_turns_remaining
}

impl IntegratedDelegatedService {
    /// Takes a run up again after a restart: from the journal, and from what else was
    /// kept of it. What the journal does not know is a new run.
    pub fn recover(
        contract: ExecutionContractV1,
        config: IntegratedRunConfigV1,
        tools: Vec<ToolDefinitionV1>,
        journal: &DelegatedJournal,
        state: Option<IntegratedDurableStateV1>,
    ) -> (r: Result<Self, IntegratedError>)
        ensures
            match r {
                Ok(service) => {
                    &&& service.wf()
                    &&& if !journal.has_run(contract.task_id@) {
                        service.is_fresh(contract, config, tools)
                    } else {
                        match state {
                            None => is_recovered_from_journal(
                                service,
                                journal.run(contract.task_id@),
                                contract,
                                config,
                                tools,
                            ),
                            Some(state) => is_recovered_with_state(
                                service,
                                journal.run(contract.task_id@),
                                contract,
                                config,
                                tools,
                                state,
                            ),
                        }
                    }
                },
                Err(e) => if !is_identifier(contract.task_id@) {
                    is_tool_error(e, identifier_message("RunId"@))
                } else {
                    !is_identifier(worker_session_name(contract.task_id@)) && is_tool_error(
                        e,
                        identifier_message("WorkerSessionId"@),
                    )
                },
            },
    {
        let mut service: IntegratedDelegatedService = IntegratedDelegatedService::new(
            contract,
            config,
            tools,
        )?;
        let run: RunSnapshotV1 = match journal.load_run(&service.run_id) {
            Ok(run) => run,
            Err(_) => return Ok(service),
        };
        service.next_event_sequence = run.last_event_sequence.saturating_add(1);
        if let Ok(calls) = journal.load_tool_calls(&service.run_id) {
            service.completed_tool_call_ids = collect_completed(calls);
            assert(texts(service.completed_tool_call_ids@).len()
                == service.completed_tool_call_ids@.len());
            service.completed_tool_calls = count_of(service.completed_tool_call_ids.len());
        }
        if let Some(state) = state {
            service.patch_proposals = state.patch_proposals;
            service.last_verification = state.last_verification;
            service.last_diff = state.last_diff;
            service.completed_tool_call_ids = state.completed_tool_call_ids;
            service.provider_history = state.provider_history;
            service.completed_tool_calls = state.completed_tool_calls;
            service.consecutive_failed_verifications = state.consecutive_failed_verifications;
            service.advice_consulted_for_current_failure =
                state.advice_consulted_for_current_failure;
            service.advisor_consultations_used = state.advisor_consultations_used;
            service.recent_read_excerpts = state.recent_read_excerpts;
            if state.next_event_sequence > service.next_event_sequence {
                service.next_event_sequence = state.next_event_sequence;
            }
            service.corrective_turns_used = state.corrective_turns_used;
            service.json_tool_recovery_turns_remaining = state.json_tool_recovery_turns_remaining;
        }
        Ok(service)
    }

    /// Puts the context of a turn together. There is none where the summary of the
    /// contract would have to be cut within a character.
    pub fn build_context(&self, turn_id: &str) -> (r: Result<
        Option<ContextBundleV1>,
        IntegratedError,
    >)
        ensures
            ({
                let shown = context_redacted(contract_summary(self.contract));
                match r {
                    Ok(Some(bundle)) => {
                        &&& is_identifier(turn_id@)
                        &&& self.contract.refusal() is None
                        &&& can_cut(shown, 12_288)
                        &&& bundle.schema_version == EXECUTION_CONTRACT_SCHEMA_VERSION
                        &&& bundle.run_id == self.run_id
                        &&& bundle.turn_id@ == turn_id@
                        &&& bundle.disclosure_policy == DisclosurePolicy::LocalOnly
                        &&& bundle.items@.len() == 1
                        &&& bundle.total_bytes == bundle.items@[0].byte_count
                        &&& bundle.estimated_tokens == bundle.items@[0].estimated_tokens
                        &&& bundle.truncated == (utf8_len(shown) > 12_288)
                        &&& exists|item: ContextItemV1|
                            is_capped(item, bundle.items@[0], 12_288) && #[trigger] is_inline(
                                item,
                                ContextItemKind::ContractSummary,
                                ContextClass::Permanent,
                                "execution-contract"@,
                                "Execution contract constraints"@,
                                contract_summary(self.contract),
                                false,
                            )
                    },
                    Ok(None) => is_identifier(turn_id@) && self.contract.refusal() is None
                        && !can_cut(shown, 12_288),
                    Err(e) => if !is_identifier(turn_id@) {
                        is_tool_error(e, identifier_message("TurnId"@))
                    } else {
                        self.contract.refusal() is Some && is_tool_error(
                            e,
                            debug_variant("Validation"@, self.contract.refusal()->0),
                        )
                    },
                }
            }),
    {
        let turn: TurnId = match TurnId::new(turn_id) {
            Ok(id) => id,
            Err(message) => return Err(IntegratedError::Tool(message)),
        };
        let mut builder: ContextBuilderV1 = ContextBuilderV1::new(
            self.run_id.clone(),
            turn,
            ContextBudgetPolicyV1::local_default(),
        );
        match builder.try_add_contract_summary(&self.contract) {
            None => return Ok(None),
            Some(Ok(_)) => {},
            Some(Err(ContextError::Validation(message))) => return Err(
                IntegratedError::Tool(debug_variant_text("Validation", message.as_str())),
            ),
            Some(Err(_)) => return Ok(None),
        }
        proof {
            let items = builder.gathered();
            assert(items.drop_last() =~= Seq::<ContextItemV1>::empty());
            assert(total_byte_count(items.drop_last()) == 0);
            assert(total_token_count(items.drop_last()) == 0);
            assert(items.last() == items[0]);
            let item = choose|item: ContextItemV1|
                is_capped(item, items[0], 12_288) && #[trigger] is_inline(
                    item,
                    ContextItemKind::ContractSummary,
                    ContextClass::Permanent,
                    "execution-contract"@,
                    "Execution contract constraints"@,
                    contract_summary(self.contract),
                    false,
                );
            lemma_capped_items_are_bounded(item, items[0], 12_288);
            assert(items[0].byte_count <= 12_300);
            assert(items[0].estimated_tokens <= 3_076);
        }
        match builder.build() {
            Ok(bundle) => Ok(Some(bundle)),
            Err(_) => Ok(None),
        }
    }
}

#[verifier::truncate]
fn count_of(n: usize) -> (r: u32)
    ensures
        r == n as u32,
{
    n as u32
}

/// After a restart no call that the journal has seen complete is made again, even where
/// nothing but the journal was kept.
pub proof fn lemma_recovery_knows_completed_calls(
    service: IntegratedDelegatedService,
    run: RunJournalV1,
    contract: ExecutionContractV1,
    config: IntegratedRunConfigV1,
    tools: Vec<ToolDefinitionV1>,
    k: int,
)
    requires
        is_recovered_from_journal(service, run, contract, config, tools),
        0 <= k < run.tool_calls@.len(),
        run.tool_calls@[k].status == ToolCallStatus::Completed,
    ensures
        texts(service.completed_tool_call_ids@).contains(run.tool_calls@[k].tool_call_id@),
{
    lemma_completed_ids(run.tool_calls@, run.tool_calls@.len() as int, k);
}

proof fn lemma_completed_ids(calls: Seq<ToolCallRecordV1>, n: int, k: int)
    requires
        0 <= k < n <= calls.len(),
        calls[k].status == ToolCallStatus::Completed,
    ensures
        completed_ids(calls, n).contains(calls[k].tool_call_id@),
    decreases n,
{
    let before = completed_ids(calls, n - 1);
    if k == n - 1 {
        assert(completed_ids(calls, n).last() == calls[k].tool_call_id@);
    } else {
        lemma_completed_ids(calls, n - 1, k);
        let i = choose|i: int| 0 <= i < before.len() && before[i] == calls[k].tool_call_id@;
        assert(completed_ids(calls, n)[i] == before[i]);
    }
}

} // verus!
