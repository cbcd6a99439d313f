//! The contract of an autonomous development session, and the policy that it sets.

use vstd::prelude::*;
use vstd::string::*;
use crate::hash::{fingerprint, stable_hash};
use crate::json::{
    array, array_text, field, field_text, json_string, object, object_text, quoted, string_array,
    string_array_text, truth, truth_text,
};
use crate::text::{
    alnum, blank, byte_len, chars_of, copy_list, debug_variant, debug_variant_text, decimal,
    is_alnum, is_blank, plus, same, same_list, text, texts, to_decimal, utf8_len,
};

verus! {

/// The version of autonomous contracts and approvals.
pub const AUTONOMOUS_DEVELOPMENT_CONTRACT_SCHEMA_VERSION: u32 = 1;

/// What an autonomous session is to do, and how far it may go. Paths are given as text.
#[derive(Clone, Debug, PartialEq, Eq)]
pub struct AutonomousDevelopmentContractV1 {
    pub schema_version: u32,
    pub contract_id: String,
    pub task_id: String,
    pub project_id: String,
    pub mode: String,
    pub objective: String,
    pub workspace: String,
    pub base_branch: String,
    pub feature_branch: String,
    pub base_commit: String,
    pub expected_origin: String,
    pub ordered_steps: Vec<String>,
    pub allowed_paths: Vec<String>,
    pub forbidden_paths: Vec<String>,
    pub allowed_command_profiles: Vec<AutonomousCommandProfileV1>,
    pub git_policy: AutonomousGitPolicyV1,
    pub provider_policy: AutonomousProviderPolicyV1,
    pub verification_policy: AutonomousVerificationPolicyV1,
    pub rate_limit_policy: AutonomousRateLimitPolicyV1,
    pub autonomy_lease: AutonomyLeaseV1,
    pub hard_stop_conditions: Vec<AutonomousHardStopV1>,
}

/// A command that a contract can allow.
#[derive(Clone, Copy, Debug, PartialEq, Eq, PartialOrd, Ord, Structural)]
pub enum AutonomousCommandProfileV1 {
    CargoFmt,
    CargoClippy,
    CargoTest,
    CargoBuildRelease,
    GitStatus,
    GitDiff,
    ApprovedProjectTests,
}

impl AutonomousCommandProfileV1 {
    /// The arguments that the profile stands for, the program first.
    pub open spec fn argv(self) -> Seq<Seq<char>> {
        match self {
            AutonomousCommandProfileV1::CargoFmt => seq!["cargo"@, "fmt"@, "--check"@],
            AutonomousCommandProfileV1::CargoClippy => seq![
                "cargo"@,
                "clippy"@,
                "--all-targets"@,
                "--all-features"@,
                "--"@,
                "-D"@,
                "warnings"@,
            ],
            AutonomousCommandProfileV1::CargoTest => seq!["cargo"@, "test"@],
            AutonomousCommandProfileV1::CargoBuildRelease => seq![
                "cargo"@,
                "build"@,
                "--release"@,
            ],
            AutonomousCommandProfileV1::GitStatus => seq!["git"@, "status"@, "--short"@],
            AutonomousCommandProfileV1::GitDiff => seq!["git"@, "diff"@, "--check"@],
            AutonomousCommandProfileV1::ApprovedProjectTests => seq![],
        }
    }

    /// The arguments that the profile stands for, the program first.
    pub fn exact_argv(&self) -> (r: Vec<String>)
        ensures
            texts(r@) == self.argv(),
    {
        let mut r: Vec<String> = Vec::new();
        match self {
            AutonomousCommandProfileV1::CargoFmt => {
                r.push(text("cargo"));
                r.push(text("fmt"));
                r.push(text("--check"));
            },
            AutonomousCommandProfileV1::CargoClippy => {
                r.push(text("cargo"));
                r.push(text("clippy"));
                r.push(text("--all-targets"));
                r.push(text("--all-features"));
                r.push(text("--"));
                r.push(text("-D"));
                r.push(text("warnings"));
            },
            AutonomousCommandProfileV1::CargoTest => {
                r.push(text("cargo"));
                r.push(text("test"));
            },
            AutonomousCommandProfileV1::CargoBuildRelease => {
                r.push(text("cargo"));
                r.push(text("build"));
                r.push(text("--release"));
            },
            AutonomousCommandProfileV1::GitStatus => {
                r.push(text("git"));
                r.push(text("status"));
                r.push(text("--short"));
            },
            AutonomousCommandProfileV1::GitDiff => {
                r.push(text("git"));
                r.push(text("diff"));
                r.push(text("--check"));
            },
            AutonomousCommandProfileV1::ApprovedProjectTests => {},
        }
        assert(texts(r@) =~= self.argv());
        r
    }
}

/// Which Git operations a session may do.
#[derive(Clone, Copy, Debug, PartialEq, Eq, Structural)]
pub struct AutonomousGitPolicyV1 {
    pub create_branch: bool,
    pub create_worktree: bool,
    pub local_commits: bool,
    pub push_feature_branch: bool,
    pub open_pull_request: bool,
    pub merge: bool,
    pub force_push: bool,
    pub modify_main: bool,
}

/// A Git operation.
#[derive(Clone, Copy, Debug, PartialEq, Eq, Structural)]
pub enum AutonomousGitActionV1 {
    CreateBranch,
    CreateWorktree,
    LocalCommit,
    PushFeatureBranch,
    OpenPullRequest,
    Merge,
    ForcePush,
    ModifyMain,
}

/// Which providers a session may use.
#[derive(Clone, Debug, PartialEq, Eq)]
pub struct AutonomousProviderPolicyV1 {
    pub primary_provider: String,
    pub primary_model: String,
    pub routine_provider: String,
    pub routine_model: String,
    pub allow_paid_fallback: bool,
    pub allow_cloud_fallback: bool,
}

/// What a session has to pass before it is complete.
#[derive(Clone, Debug, PartialEq, Eq)]
pub struct AutonomousVerificationPolicyV1 {
    pub profile: String,
    pub required_commands: Vec<AutonomousCommandProfileV1>,
    pub max_repair_cycles: u32,
    pub require_authoritative_diff: bool,
    pub require_final_review: bool,
}

/// What a session does when its provider has no capacity.
#[derive(Clone, Copy, Debug, PartialEq, Eq, Structural)]
pub struct AutonomousRateLimitPolicyV1 {
    pub automatic_pause: bool,
    pub automatic_resume: bool,
    pub initial_backoff_seconds: u64,
    pub maximum_backoff_seconds: u64,
    pub maximum_rate_limited_seconds: u64,
    pub honor_provider_retry_after: bool,
}

/// How long a session may work on its own.
#[derive(Clone, Copy, Debug, PartialEq, Eq, Structural)]
pub struct AutonomyLeaseV1 {
    pub start_approval_required: bool,
    pub renewal_allowed: bool,
    pub issued_at_unix: u64,
    pub expires_at_unix: u64,
    pub maximum_total_elapsed_seconds: u64,
    pub maximum_provider_turns: u32,
    pub maximum_tool_calls: u32,
    pub maximum_consecutive_failures: u32,
    pub maximum_repair_cycles: u32,
}

impl AutonomyLeaseV1 {
    /// The lease has begun and has not run out.
    pub open spec fn holds_at(self, now_unix: u64) -> bool {
        self.issued_at_unix <= now_unix < self.expires_at_unix
    }

    /// The lease may be renewed to this time.
    pub open spec fn can_renew(self, now_unix: u64, new_expiry_unix: u64) -> bool {
        self.renewal_allowed && now_unix <= self.expires_at_unix && new_expiry_unix > now_unix
    }

    /// Whether the lease has begun and has not run out.
    pub fn valid_at(&self, now_unix: u64) -> (r: bool)
        ensures
            r == self.holds_at(now_unix),
    {
        now_unix >= self.issued_at_unix && now_unix < self.expires_at_unix
    }

    /// Renews the lease, if it allows that and has not run out.
    pub fn renew(&mut self, now_unix: u64, new_expiry_unix: u64) -> (r: Result<
        (),
        ContractPolicyError,
    >)
        ensures
            match r {
                Ok(_) => old(self).can_renew(now_unix, new_expiry_unix) && *final(self) == (
                AutonomyLeaseV1 { expires_at_unix: new_expiry_unix, ..*old(self) }),
                Err(ContractPolicyError::Lease(message)) => !old(self).can_renew(
                    now_unix,
                    new_expiry_unix,
                ) && message@ == "autonomy lease renewal is not permitted"@ && *final(self) == *old(self),
                Err(_) => false,
            },
    {
        if !self.renewal_allowed || now_unix > self.expires_at_unix || new_expiry_unix <= now_unix {
            return Err(
                ContractPolicyError::Lease(text("autonomy lease renewal is not permitted")),
            );
        }
        self.expires_at_unix = new_expiry_unix;
        Ok(())
    }
}

/// A lease that held when it was renewed holds from then until its new end.
pub proof fn lemma_renewed_lease_holds(
    lease: AutonomyLeaseV1,
    now_unix: u64,
    new_expiry_unix: u64,
    later: u64,
)
    requires
        lease.holds_at(now_unix),
        lease.can_renew(now_unix, new_expiry_unix),
        now_unix <= later < new_expiry_unix,
    ensures
        (AutonomyLeaseV1 { expires_at_unix: new_expiry_unix, ..lease }).holds_at(later),
{
}

/// What makes a session stop at once.
#[derive(Clone, Copy, Debug, PartialEq, Eq, Structural)]
pub enum AutonomousHardStopV1 {
    SecretExposure,
    WorkspaceContainmentFailure,
    ProtectedBranchModification,
    ForcePushOrMergeAttempt,
    RollbackCheckpointUnavailable,
    LeaseExpired,
    CancellationRequested,
}

/// What an approval of an autonomous session is for.
#[derive(Clone, Copy, Debug, PartialEq, Eq, Structural)]
pub enum AutonomousApprovalKindV1 {
    RunStart,
    GitPush,
    Merge,
    UnrestrictedShell,
}

/// An approval for one contract.
#[derive(Clone, Debug, PartialEq, Eq)]
pub struct AutonomousApprovalV1 {
    pub schema_version: u32,
    pub approval_id: String,
    pub contract_hash: String,
    pub kind: AutonomousApprovalKindV1,
    pub idempotency_key: String,
    pub expires_at_unix: u64,
    pub consumed: bool,
}

/// Why the policy of an autonomous contract refuses something.
#[derive(Debug, PartialEq, Eq)]
pub enum ContractPolicyError {
    Validation(String),
    Denied(String),
    Lease(String),
    Approval(String),
    Idempotency(String),
}

impl ContractPolicyError {
    /// The error as `{:?}` prints it.
    pub open spec fn debug(self) -> Seq<char> {
        match self {
            ContractPolicyError::Validation(s) => debug_variant("Validation"@, s@),
            ContractPolicyError::Denied(s) => debug_variant("Denied"@, s@),
            ContractPolicyError::Lease(s) => debug_variant("Lease"@, s@),
            ContractPolicyError::Approval(s) => debug_variant("Approval"@, s@),
            ContractPolicyError::Idempotency(s) => debug_variant("Idempotency"@, s@),
        }
    }

    /// Prints the error as `{:?}` does.
    pub fn debug_text(&self) -> (r: String)
        ensures
            r@ == self.debug(),
    {
        match self {
            ContractPolicyError::Validation(s) => debug_variant_text("Validation", s.as_str()),
            ContractPolicyError::Denied(s) => debug_variant_text("Denied", s.as_str()),
            ContractPolicyError::Lease(s) => debug_variant_text("Lease", s.as_str()),
            ContractPolicyError::Approval(s) => debug_variant_text("Approval", s.as_str()),
            ContractPolicyError::Idempotency(s) => debug_variant_text("Idempotency", s.as_str()),
        }
    }
}

// ---------------------------------------------------------------------------
// Slugs and idempotency

/// A slug has between 1 and 128 characters, all of them letters, digits, `-` or `_`.
pub open spec fn is_slug(value: Seq<char>) -> bool {
    &&& value.len() > 0
    &&& utf8_len(value) <= 128
    &&& forall|i: int|
        0 <= i < value.len() ==> is_alnum(#[trigger] value[i]) || value[i] == '-' || value[i] == '_'
}

/// What is said of a value that is no slug.
pub open spec fn slug_message(label: Seq<char>) -> Seq<char> {
    label + " must be a conservative slug"@
}

/// Accepts a slug.
pub fn validate_slug(value: &str, label: &str) -> (r: Result<(), ContractPolicyError>)
    ensures
        match r {
            Ok(_) => is_slug(value@),
            Err(ContractPolicyError::Validation(message)) => !is_slug(value@) && message@
                == slug_message(label@),
            Err(_) => false,
        },
{
    let chars: Vec<char> = chars_of(value);
    let mut ok: bool = chars.len() > 0 && byte_len(value) <= 128;
    let mut i: usize = 0;
    while ok && i < chars.len()
        invariant
            i <= chars@.len(),
            chars@ == value@,
            ok ==> value@.len() > 0 && utf8_len(value@) <= 128,
            ok ==> forall|j: int|
                0 <= j < i ==> is_alnum(#[trigger] value@[j]) || value@[j] == '-' || value@[j]
                    == '_',
            !ok ==> !is_slug(value@),
        decreases chars@.len() - i,
    {
        let c: char = chars[i];
        if !(alnum(c) || c == '-' || c == '_') {
            assert(!(is_alnum(value@[i as int]) || value@[i as int] == '-' || value@[i as int]
                == '_'));
            ok = false;
        }
        i += 1;
    }
    if ok {
        Ok(())
    } else {
        Err(ContractPolicyError::Validation(plus(label, " must be a conservative slug")))
    }
}

/// Remembers which action each idempotency key was used for.
#[derive(Debug)]
pub struct AutonomousIdempotencyRegistryV1 {
    keys: Vec<String>,
    action_hashes: Vec<String>,
}

impl Default for AutonomousIdempotencyRegistryV1 {
    fn default() -> (r: Self)
        ensures
            r.wf(),
            r.actions() == Map::<Seq<char>, Seq<char>>::empty(),
    {
        let r: AutonomousIdempotencyRegistryV1 = AutonomousIdempotencyRegistryV1 {
            keys: Vec::new(),
            action_hashes: Vec::new(),
        };
        assert(r.actions() =~= Map::<Seq<char>, Seq<char>>::empty());
        r
    }
}

impl AutonomousIdempotencyRegistryV1 {
    /// Each key stands once, with its action.
    pub closed spec fn wf(self) -> bool {
        self.keys@.len() == self.action_hashes@.len() && texts(self.keys@).no_duplicates()
    }

    /// The action that each key was used for.
    pub closed spec fn actions(self) -> Map<Seq<char>, Seq<char>> {
        Map::new(
            |k: Seq<char>| texts(self.keys@).contains(k),
            |k: Seq<char>| texts(self.action_hashes@)[texts(self.keys@).index_of(k)],
        )
    }

    /// Uses a key for an action: `true` the first time, `false` when the same action is
    /// repeated. A key is not used for another action.
    pub fn register(&mut self, key: &str, action_hash: &str) -> (r: Result<
        bool,
        ContractPolicyError,
    >)
        requires
            old(self).wf(),
        ensures
            final(self).wf(),
            match r {
                Ok(first) => {
                    &&& is_slug(key@)
                    &&& !blank(action_hash@)
                    &&& first == !old(self).actions().dom().contains(key@)
                    &&& !first ==> old(self).actions()[key@] == action_hash@
                    &&& final(self).actions() == old(self).actions().insert(key@, action_hash@)
                },
                Err(e) => {
                    &&& final(self).actions() == old(self).actions()
                    &&& if !is_slug(key@) {
                        e matches ContractPolicyError::Validation(message) && message@
                            == slug_message("idempotency key"@)
                    } else if blank(action_hash@) {
                        e matches ContractPolicyError::Validation(message) && message@
                            == "idempotency action hash is empty"@
                    } else {
                        e matches ContractPolicyError::Idempotency(message) && message@
                            == "idempotency key was already used for a different action"@ && old(self).actions().dom().contains(key@) && old(self).actions()[key@]
                            != action_hash@
                    }
                },
            },
    {
        validate_slug(key, "idempotency key")?;
        if is_blank(action_hash) {
            return Err(
                ContractPolicyError::Validation(text("idempotency action hash is empty")),
            );
        }
        let ghost keys = texts(self.keys@);
        let ghost hashes = texts(self.action_hashes@);
        let mut i: usize = 0;
        while i < self.keys.len()
            invariant
                i <= self.keys@.len(),
                *self == *old(self),
                self.wf(),
                keys == texts(self.keys@),
                hashes == texts(self.action_hashes@),
                is_slug(key@),
                !blank(action_hash@),
                forall|j: int| 0 <= j < i ==> keys[j] != key@,
            decreases self.keys@.len() - i,
        {
            if same(self.keys[i].as_str(), key) {
                proof {
                    assert(keys[i as int] == key@);
                    assert(keys.contains(key@));
                    keys.index_of_first_ensures(key@);
                    assert(keys.index_of(key@) == i);
                    assert(self.actions()[key@] == hashes[i as int]);
                    assert(self.actions().dom().contains(key@));
                }
                if same(self.action_hashes[i].as_str(), action_hash) {
                    assert(self.actions() =~= self.actions().insert(key@, action_hash@));
                    return Ok(false);
                }
                return Err(
                    ContractPolicyError::Idempotency(
                        text("idempotency key was already used for a different action"),
                    ),
                );
            }
            i += 1;
        }
        assert(!keys.contains(key@));
        self.keys.push(text(key));
        self.action_hashes.push(text(action_hash));
        proof {
            let k2 = texts(self.keys@);
            let h2 = texts(self.action_hashes@);
            assert(k2 =~= keys.push(key@));
            assert(h2 =~= hashes.push(action_hash@));
            assert forall|k: Seq<char>| k2.contains(k) == (keys.contains(k) || k == key@) by {
                if keys.contains(k) {
                    let j = choose|j: int| 0 <= j < keys.len() && keys[j] == k;
                    assert(k2[j] == k);
                }
                assert(k2[keys.len() as int] == key@);
            }
            assert forall|k: Seq<char>| keys.contains(k) implies #[trigger] k2.index_of(k)
                == keys.index_of(k) by {
                let a = k2.index_of(k);
                let b = keys.index_of(k);
                assert(keys[b] == k);
                assert(k2[b] == k);
                assert(k2.contains(k));
                assert(k2[a] == k);
                assert(k2.no_duplicates());
            }
            assert(k2.index_of(key@) == keys.len()) by {
                assert(k2[keys.len() as int] == key@);
                assert(k2.contains(key@));
                assert(k2[k2.index_of(key@)] == key@);
                assert(k2.no_duplicates());
            }
            assert(self.actions() =~= old(self).actions().insert(key@, action_hash@));
        }
        Ok(true)
    }
}

/// Repeating a registered action changes nothing, and no other action can take its key.
pub proof fn lemma_registration_is_idempotent(
    actions: Map<Seq<char>, Seq<char>>,
    key: Seq<char>,
    hash: Seq<char>,
)
    ensures
        actions.insert(key, hash).insert(key, hash) == actions.insert(key, hash),
        actions.insert(key, hash).dom().contains(key),
        actions.insert(key, hash)[key] == hash,
{
    assert(actions.insert(key, hash).insert(key, hash) =~= actions.insert(key, hash));
}

// ---------------------------------------------------------------------------
// The contract

/// Why a contract is refused, if it is, given whether its workspace is a directory.
pub open spec fn autonomous_refusal(c: AutonomousDevelopmentContractV1, workspace_is_dir: bool) -> Option<
    Seq<char>,
> {
    if c.schema_version != AUTONOMOUS_DEVELOPMENT_CONTRACT_SCHEMA_VERSION {
        Some("unsupported autonomous contract schema version"@)
    } else if !is_slug(c.contract_id@) {
        Some(slug_message("contract id"@))
    } else if !is_slug(c.task_id@) {
        Some(slug_message("task id"@))
    } else if !is_slug(c.project_id@) {
        Some(slug_message("project id"@))
    } else if c.mode@ != "chatgpt_web_codex_autonomous"@ || blank(c.objective@) || utf8_len(
        c.objective@,
    ) > 8_000 {
        Some("autonomous contract mode or objective is invalid"@)
    } else if !workspace_is_dir || c.allowed_paths@.len() == 0 || c.ordered_steps@.len() == 0 {
        Some("workspace, allowed paths, and ordered steps are required"@)
    } else if blank(c.base_branch@) || blank(c.feature_branch@) || utf8_len(c.base_commit@) < 7
        || blank(c.expected_origin@) {
        Some("autonomous Git identity is incomplete"@)
    } else if c.git_policy.force_push || c.git_policy.modify_main
        || c.provider_policy.allow_paid_fallback || c.provider_policy.allow_cloud_fallback {
        Some("autonomous contract enables a prohibited operation or fallback"@)
    } else if c.provider_policy.primary_provider@ != "codex-cli"@
        || c.provider_policy.routine_provider@ != "ollama"@ {
        Some("autonomous contract provider selection is unsupported"@)
    } else if c.autonomy_lease.expires_at_unix <= c.autonomy_lease.issued_at_unix
        || c.autonomy_lease.maximum_total_elapsed_seconds == 0
        || c.autonomy_lease.maximum_provider_turns == 0 || c.autonomy_lease.maximum_tool_calls == 0
        || c.autonomy_lease.maximum_repair_cycles == 0 {
        Some("autonomy lease budgets are invalid"@)
    } else if !c.allowed_command_profiles@.no_duplicates() || c.allowed_command_profiles@.len()
        == 0 {
        Some("autonomous command profiles must be non-empty and unique"@)
    } else {
        None
    }
}

fn profiles_are_unique(profiles: &Vec<AutonomousCommandProfileV1>) -> (r: bool)
    ensures
        r == profiles@.no_duplicates(),
{
    let mut i: usize = 0;
    while i < profiles.len()
        invariant
            i <= profiles@.len(),
            forall|a: int, b: int| 0 <= a < b < i ==> profiles@[a] != profiles@[b],
        decreases profiles@.len() - i,
    {
        let mut j: usize = 0;
        while j < i
            invariant
                j <= i < profiles@.len(),
                forall|a: int| 0 <= a < j ==> profiles@[a] != profiles@[i as int],
            decreases i - j,
        {
            if profiles[j] == profiles[i] {
                return false;
            }
            j += 1;
        }
        i += 1;
    }
    true
}

impl AutonomousDevelopmentContractV1 {
    /// Accepts a contract that is complete and enables nothing that is prohibited.
    pub fn validate(&self, workspace_is_dir: bool) -> (r: Result<(), ContractPolicyError>)
        ensures
            match r {
                Ok(_) => autonomous_refusal(*self, workspace_is_dir) is None,
                Err(ContractPolicyError::Validation(message)) => autonomous_refusal(
                    *self,
                    workspace_is_dir,
                ) == Some(message@),
                Err(_) => false,
            },
    {
        if self.schema_version != AUTONOMOUS_DEVELOPMENT_CONTRACT_SCHEMA_VERSION {
            return Err(
                ContractPolicyError::Validation(
                    text("unsupported autonomous contract schema version"),
                ),
            );
        }
        validate_slug(self.contract_id.as_str(), "contract id")?;
        validate_slug(self.task_id.as_str(), "task id")?;
        validate_slug(self.project_id.as_str(), "project id")?;
        if !same(self.mode.as_str(), "chatgpt_web_codex_autonomous") || is_blank(
            self.objective.as_str(),
        ) || byte_len(self.objective.as_str()) > 8_000 {
            return Err(
                ContractPolicyError::Validation(
                    text("autonomous contract mode or objective is invalid"),
                ),
            );
        }
        if !workspace_is_dir || self.allowed_paths.len() == 0 || self.ordered_steps.len() == 0 {
            return Err(
                ContractPolicyError::Validation(
                    text("workspace, allowed paths, and ordered steps are required"),
                ),
            );
        }
        if is_blank(self.base_branch.as_str()) || is_blank(self.feature_branch.as_str())
            || byte_len(self.base_commit.as_str()) < 7 || is_blank(self.expected_origin.as_str()) {
            return Err(
                ContractPolicyError::Validation(text("autonomous Git identity is incomplete")),
            );
        }
        if self.git_policy.force_push || self.git_policy.modify_main
            || self.provider_policy.allow_paid_fallback || self.provider_policy.allow_cloud_fallback {
            return Err(
                ContractPolicyError::Validation(
                    text("autonomous contract enables a prohibited operation or fallback"),
                ),
            );
        }
        if !same(self.provider_policy.primary_provider.as_str(), "codex-cli") || !same(
            self.provider_policy.routine_provider.as_str(),
            "ollama",
        ) {
            return Err(
                ContractPolicyError::Validation(
                    text("autonomous contract provider selection is unsupported"),
                ),
            );
        }
        if self.autonomy_lease.expires_at_unix <= self.autonomy_lease.issued_at_unix
            || self.autonomy_lease.maximum_total_elapsed_seconds == 0
            || self.autonomy_lease.maximum_provider_turns == 0
            || self.autonomy_lease.maximum_tool_calls == 0
            || self.autonomy_lease.maximum_repair_cycles == 0 {
            return Err(
                ContractPolicyError::Validation(text("autonomy lease budgets are invalid")),
            );
        }
        if !profiles_are_unique(&self.allowed_command_profiles)
            || self.allowed_command_profiles.len() == 0 {
            return Err(
                ContractPolicyError::Validation(
                    text("autonomous command profiles must be non-empty and unique"),
                ),
            );
        }
        Ok(())
    }

    /// The fingerprint of the contract, to which approvals are bound.
    pub fn decision_hash(&self) -> (r: Result<String, ContractPolicyError>)
        ensures
            r is Ok,
            r->Ok_0@ == fingerprint(self.json()),
    {
        Ok(stable_hash(self.to_json().as_str()))
    }
}

impl AutonomousCommandProfileV1 {
    /// The profile as JSON.
    pub open spec fn json(self) -> Seq<char> {
        match self {
            AutonomousCommandProfileV1::CargoFmt => "\"CARGO_FMT\""@,
            AutonomousCommandProfileV1::CargoClippy => "\"CARGO_CLIPPY\""@,
            AutonomousCommandProfileV1::CargoTest => "\"CARGO_TEST\""@,
            AutonomousCommandProfileV1::CargoBuildRelease => "\"CARGO_BUILD_RELEASE\""@,
            AutonomousCommandProfileV1::GitStatus => "\"GIT_STATUS\""@,
            AutonomousCommandProfileV1::GitDiff => "\"GIT_DIFF\""@,
            AutonomousCommandProfileV1::ApprovedProjectTests => "\"APPROVED_PROJECT_TESTS\""@,
        }
    }

    /// Prints the label as JSON.
    pub fn to_json(&self) -> (r: String)
        ensures
            r@ == self.json(),
    {
        match self {
            AutonomousCommandProfileV1::CargoFmt => text("\"CARGO_FMT\""),
            AutonomousCommandProfileV1::CargoClippy => text("\"CARGO_CLIPPY\""),
            AutonomousCommandProfileV1::CargoTest => text("\"CARGO_TEST\""),
            AutonomousCommandProfileV1::CargoBuildRelease => text("\"CARGO_BUILD_RELEASE\""),
            AutonomousCommandProfileV1::GitStatus => text("\"GIT_STATUS\""),
            AutonomousCommandProfileV1::GitDiff => text("\"GIT_DIFF\""),
            AutonomousCommandProfileV1::ApprovedProjectTests => text("\"APPROVED_PROJECT_TESTS\""),
        }
    }
}

impl AutonomousHardStopV1 {
    /// The condition as JSON.
    pub open spec fn json(self) -> Seq<char> {
        match self {
            AutonomousHardStopV1::SecretExposure => "\"SECRET_EXPOSURE\""@,
            AutonomousHardStopV1::WorkspaceContainmentFailure => "\"WORKSPACE_CONTAINMENT_FAILURE\""@,
            AutonomousHardStopV1::ProtectedBranchModification => "\"PROTECTED_BRANCH_MODIFICATION\""@,
            AutonomousHardStopV1::ForcePushOrMergeAttempt => "\"FORCE_PUSH_OR_MERGE_ATTEMPT\""@,
            AutonomousHardStopV1::RollbackCheckpointUnavailable => "\"ROLLBACK_CHECKPOINT_UNAVAILABLE\""@,
            AutonomousHardStopV1::LeaseExpired => "\"LEASE_EXPIRED\""@,
            AutonomousHardStopV1::CancellationRequested => "\"CANCELLATION_REQUESTED\""@,
        }
    }

    /// Prints the label as JSON.
    pub fn to_json(&self) -> (r: String)
        ensures
            r@ == self.json(),
    {
        match self {
            AutonomousHardStopV1::SecretExposure => text("\"SECRET_EXPOSURE\""),
            AutonomousHardStopV1::WorkspaceContainmentFailure => text("\"WORKSPACE_CONTAINMENT_FAILURE\""),
            AutonomousHardStopV1::ProtectedBranchModification => text("\"PROTECTED_BRANCH_MODIFICATION\""),
            AutonomousHardStopV1::ForcePushOrMergeAttempt => text("\"FORCE_PUSH_OR_MERGE_ATTEMPT\""),
            AutonomousHardStopV1::RollbackCheckpointUnavailable => text("\"ROLLBACK_CHECKPOINT_UNAVAILABLE\""),
            AutonomousHardStopV1::LeaseExpired => text("\"LEASE_EXPIRED\""),
            AutonomousHardStopV1::CancellationRequested => text("\"CANCELLATION_REQUESTED\""),
        }
    }
}

/// Command profiles as a JSON list.
pub open spec fn profiles_json(items: Seq<AutonomousCommandProfileV1>) -> Seq<char> {
    array(items.map_values(|x: AutonomousCommandProfileV1| x.json()))
}

fn profiles_to_json(items: &Vec<AutonomousCommandProfileV1>) -> (r: String)
    ensures
        r@ == profiles_json(items@),
{
    let mut parts: Vec<String> = Vec::new();
    let ghost all = items@.map_values(|x: AutonomousCommandProfileV1| x.json());
    let mut i: usize = 0;
    while i < items.len()
        invariant
            i <= items@.len(),
            all == items@.map_values(|x: AutonomousCommandProfileV1| x.json()),
            texts(parts@) == all.take(i as int),
        decreases items@.len() - i,
    {
        let ghost prior = texts(parts@);
        parts.push(items[i].to_json());
        i += 1;
        assert(texts(parts@) =~= prior.push(all[i - 1]));
        assert(all.take(i as int) =~= all.take(i - 1).push(all[i - 1]));
    }
    assert(all.take(all.len() as int) =~= all);
    array_text(&parts)
}

/// Conditions as a JSON list.
pub open spec fn hard_stops_json(items: Seq<AutonomousHardStopV1>) -> Seq<char> {
    array(items.map_values(|x: AutonomousHardStopV1| x.json()))
}

fn hard_stops_to_json(items: &Vec<AutonomousHardStopV1>) -> (r: String)
    ensures
        r@ == hard_stops_json(items@),
{
    let mut parts: Vec<String> = Vec::new();
    let ghost all = items@.map_values(|x: AutonomousHardStopV1| x.json());
    let mut i: usize = 0;
    while i < items.len()
        invariant
            i <= items@.len(),
            all == items@.map_values(|x: AutonomousHardStopV1| x.json()),
            texts(parts@) == all.take(i as int),
        decreases items@.len() - i,
    {
        let ghost prior = texts(parts@);
        parts.push(items[i].to_json());
        i += 1;
        assert(texts(parts@) =~= prior.push(all[i - 1]));
        assert(all.take(i as int) =~= all.take(i - 1).push(all[i - 1]));
    }
    assert(all.take(all.len() as int) =~= all);
    array_text(&parts)
}

impl AutonomousGitPolicyV1 {
    /// The fields of the policy, as JSON.
    pub open spec fn json_fields(self) -> Seq<Seq<char>> {
        seq![
            field("createBranch"@, truth(self.create_branch)),
            field("createWorktree"@, truth(self.create_worktree)),
            field("localCommits"@, truth(self.local_commits)),
            field("pushFeatureBranch"@, truth(self.push_feature_branch)),
            field("openPullRequest"@, truth(self.open_pull_request)),
            field("merge"@, truth(self.merge)),
            field("forcePush"@, truth(self.force_push)),
            field("modifyMain"@, truth(self.modify_main)),
        ]
    }

    /// The policy as compact JSON.
    pub open spec fn json(self) -> Seq<char> {
        object(self.json_fields())
    }

    /// Prints the policy as compact JSON.
    pub fn to_json(&self) -> (r: String)
        ensures
            r@ == self.json(),
    {
        let mut fields: Vec<String> = Vec::new();
        fields.push(field_text("createBranch", truth_text(self.create_branch).as_str()));
        fields.push(field_text("createWorktree", truth_text(self.create_worktree).as_str()));
        fields.push(field_text("localCommits", truth_text(self.local_commits).as_str()));
        fields.push(field_text("pushFeatureBranch", truth_text(self.push_feature_branch).as_str()));
        fields.push(field_text("openPullRequest", truth_text(self.open_pull_request).as_str()));
        fields.push(field_text("merge", truth_text(self.merge).as_str()));
        fields.push(field_text("forcePush", truth_text(self.force_push).as_str()));
        fields.push(field_text("modifyMain", truth_text(self.modify_main).as_str()));
        assert(texts(fields@) =~= self.json_fields());
        object_text(&fields)
    }
}

impl AutonomousProviderPolicyV1 {
    /// The fields of the policy, as JSON.
    pub open spec fn json_fields(self) -> Seq<Seq<char>> {
        seq![
            field("primaryProvider"@, json_string(self.primary_provider@)),
            field("primaryModel"@, json_string(self.primary_model@)),
            field("routineProvider"@, json_string(self.routine_provider@)),
            field("routineModel"@, json_string(self.routine_model@)),
            field("allowPaidFallback"@, truth(self.allow_paid_fallback)),
            field("allowCloudFallback"@, truth(self.allow_cloud_fallback)),
        ]
    }

    /// The policy as compact JSON.
    pub open spec fn json(self) -> Seq<char> {
        object(self.json_fields())
    }

    /// Prints the policy as compact JSON.
    pub fn to_json(&self) -> (r: String)
        ensures
            r@ == self.json(),
    {
        let mut fields: Vec<String> = Vec::new();
        fields.push(field_text("primaryProvider", quoted(self.primary_provider.as_str()).as_str()));
        fields.push(field_text("primaryModel", quoted(self.primary_model.as_str()).as_str()));
        fields.push(field_text("routineProvider", quoted(self.routine_provider.as_str()).as_str()));
        fields.push(field_text("routineModel", quoted(self.routine_model.as_str()).as_str()));
        fields.push(field_text("allowPaidFallback", truth_text(self.allow_paid_fallback).as_str()));
        fields.push(field_text("allowCloudFallback", truth_text(self.allow_cloud_fallback).as_str()));
        assert(texts(fields@) =~= self.json_fields());
        object_text(&fields)
    }
}

impl AutonomousVerificationPolicyV1 {
    /// The fields of the policy, as JSON.
    pub open spec fn json_fields(self) -> Seq<Seq<char>> {
        seq![
            field("profile"@, json_string(self.profile@)),
            field("requiredCommands"@, profiles_json(self.required_commands@)),
            field("maxRepairCycles"@, decimal(self.max_repair_cycles as nat)),
            field("requireAuthoritativeDiff"@, truth(self.require_authoritative_diff)),
            field("requireFinalReview"@, truth(self.require_final_review)),
        ]
    }

    /// The policy as compact JSON.
    pub open spec fn json(self) -> Seq<char> {
        object(self.json_fields())
    }

    /// Prints the policy as compact JSON.
    pub fn to_json(&self) -> (r: String)
        ensures
            r@ == self.json(),
    {
        let mut fields: Vec<String> = Vec::new();
        fields.push(field_text("profile", quoted(self.profile.as_str()).as_str()));
        fields.push(field_text("requiredCommands", profiles_to_json(&self.required_commands).as_str()));
        fields.push(field_text("maxRepairCycles", to_decimal(self.max_repair_cycles as u64).as_str()));
        fields.push(field_text("requireAuthoritativeDiff", truth_text(self.require_authoritative_diff).as_str()));
        fields.push(field_text("requireFinalReview", truth_text(self.require_final_review).as_str()));
        assert(texts(fields@) =~= self.json_fields());
        object_text(&fields)
    }
}

impl AutonomousRateLimitPolicyV1 {
    /// The fields of the policy, as JSON.
    pub open spec fn json_fields(self) -> Seq<Seq<char>> {
        seq![
            field("automaticPause"@, truth(self.automatic_pause)),
            field("automaticResume"@, truth(self.automatic_resume)),
            field("initialBackoffSeconds"@, decimal(self.initial_backoff_seconds as nat)),
            field("maximumBackoffSeconds"@, decimal(self.maximum_backoff_seconds as nat)),
            field("maximumRateLimitedSeconds"@, decimal(self.maximum_rate_limited_seconds as nat)),
            field("honorProviderRetryAfter"@, truth(self.honor_provider_retry_after)),
        ]
    }

    /// The policy as compact JSON.
    pub open spec fn json(self) -> Seq<char> {
        object(self.json_fields())
    }

    /// Prints the policy as compact JSON.
    pub fn to_json(&self) -> (r: String)
        ensures
            r@ == self.json(),
    {
        let mut fields: Vec<String> = Vec::new();
        fields.push(field_text("automaticPause", truth_text(self.automatic_pause).as_str()));
        fields.push(field_text("automaticResume", truth_text(self.automatic_resume).as_str()));
        fields.push(field_text("initialBackoffSeconds", to_decimal(self.initial_backoff_seconds as u64).as_str()));
        fields.push(field_text("maximumBackoffSeconds", to_decimal(self.maximum_backoff_seconds as u64).as_str()));
        fields.push(field_text("maximumRateLimitedSeconds", to_decimal(self.maximum_rate_limited_seconds as u64).as_str()));
        fields.push(field_text("honorProviderRetryAfter", truth_text(self.honor_provider_retry_after).as_str()));
        assert(texts(fields@) =~= self.json_fields());
        object_text(&fields)
    }
}

impl AutonomyLeaseV1 {
    /// The fields of the lease, as JSON.
    pub open spec fn json_fields(self) -> Seq<Seq<char>> {
        seq![
            field("startApprovalRequired"@, truth(self.start_approval_required)),
            field("renewalAllowed"@, truth(self.renewal_allowed)),
            field("issuedAtUnix"@, decimal(self.issued_at_unix as nat)),
            field("expiresAtUnix"@, decimal(self.expires_at_unix as nat)),
            field("maximumTotalElapsedSeconds"@, decimal(self.maximum_total_elapsed_seconds as nat)),
            field("maximumProviderTurns"@, decimal(self.maximum_provider_turns as nat)),
            field("maximumToolCalls"@, decimal(self.maximum_tool_calls as nat)),
            field("maximumConsecutiveFailures"@, decimal(self.maximum_consecutive_failures as nat)),
            field("maximumRepairCycles"@, decimal(self.maximum_repair_cycles as nat)),
        ]
    }

    /// The lease as compact JSON.
    pub open spec fn json(self) -> Seq<char> {
        object(self.json_fields())
    }

    /// Prints the lease as compact JSON.
    pub fn to_json(&self) -> (r: String)
        ensures
            r@ == self.json(),
    {
        let mut fields: Vec<String> = Vec::new();
        fields.push(field_text("startApprovalRequired", truth_text(self.start_approval_required).as_str()));
        fields.push(field_text("renewalAllowed", truth_text(self.renewal_allowed).as_str()));
        fields.push(field_text("issuedAtUnix", to_decimal(self.issued_at_unix as u64).as_str()));
        fields.push(field_text("expiresAtUnix", to_decimal(self.expires_at_unix as u64).as_str()));
        fields.push(field_text("maximumTotalElapsedSeconds", to_decimal(self.maximum_total_elapsed_seconds as u64).as_str()));
        fields.push(field_text("maximumProviderTurns", to_decimal(self.maximum_provider_turns as u64).as_str()));
        fields.push(field_text("maximumToolCalls", to_decimal(self.maximum_tool_calls as u64).as_str()));
        fields.push(field_text("maximumConsecutiveFailures", to_decimal(self.maximum_consecutive_failures as u64).as_str()));
        fields.push(field_text("maximumRepairCycles", to_decimal(self.maximum_repair_cycles as u64).as_str()));
        assert(texts(fields@) =~= self.json_fields());
        object_text(&fields)
    }
}

impl AutonomousDevelopmentContractV1 {
    /// The fields of the contract, as JSON.
    pub open spec fn json_fields(self) -> Seq<Seq<char>> {
        seq![
            field("schemaVersion"@, decimal(self.schema_version as nat)),
            field("contractId"@, json_string(self.contract_id@)),
            field("taskId"@, json_string(self.task_id@)),
            field("projectId"@, json_string(self.project_id@)),
            field("mode"@, json_string(self.mode@)),
            field("objective"@, json_string(self.objective@)),
            field("workspace"@, json_string(self.workspace@)),
            field("baseBranch"@, json_string(self.base_branch@)),
            field("featureBranch"@, json_string(self.feature_branch@)),
            field("baseCommit"@, json_string(self.base_commit@)),
            field("expectedOrigin"@, json_string(self.expected_origin@)),
            field("orderedSteps"@, string_array(texts(self.ordered_steps@))),
            field("allowedPaths"@, string_array(texts(self.allowed_paths@))),
            field("forbiddenPaths"@, string_array(texts(self.forbidden_paths@))),
            field("allowedCommandProfiles"@, profiles_json(self.allowed_command_profiles@)),
            field("gitPolicy"@, self.git_policy.json()),
            field("providerPolicy"@, self.provider_policy.json()),
            field("verificationPolicy"@, self.verification_policy.json()),
            field("rateLimitPolicy"@, self.rate_limit_policy.json()),
            field("autonomyLease"@, self.autonomy_lease.json()),
            field("hardStopConditions"@, hard_stops_json(self.hard_stop_conditions@)),
        ]
    }

    /// The contract as compact JSON.
    pub open spec fn json(self) -> Seq<char> {
        object(self.json_fields())
    }

    /// Prints the contract as compact JSON.
    pub fn to_json(&self) -> (r: String)
        ensures
            r@ == self.json(),
    {
        let mut fields: Vec<String> = Vec::new();
        fields.push(field_text("schemaVersion", to_decimal(self.schema_version as u64).as_str()));
        fields.push(field_text("contractId", quoted(self.contract_id.as_str()).as_str()));
        fields.push(field_text("taskId", quoted(self.task_id.as_str()).as_str()));
        fields.push(field_text("projectId", quoted(self.project_id.as_str()).as_str()));
        fields.push(field_text("mode", quoted(self.mode.as_str()).as_str()));
        fields.push(field_text("objective", quoted(self.objective.as_str()).as_str()));
        fields.push(field_text("workspace", quoted(self.workspace.as_str()).as_str()));
        fields.push(field_text("baseBranch", quoted(self.base_branch.as_str()).as_str()));
        fields.push(field_text("featureBranch", quoted(self.feature_branch.as_str()).as_str()));
        fields.push(field_text("baseCommit", quoted(self.base_commit.as_str()).as_str()));
        fields.push(field_text("expectedOrigin", quoted(self.expected_origin.as_str()).as_str()));
        fields.push(field_text("orderedSteps", string_array_text(&self.ordered_steps).as_str()));
        fields.push(field_text("allowedPaths", string_array_text(&self.allowed_paths).as_str()));
        fields.push(field_text("forbiddenPaths", string_array_text(&self.forbidden_paths).as_str()));
        fields.push(field_text("allowedCommandProfiles", profiles_to_json(&self.allowed_command_profiles).as_str()));
        fields.push(field_text("gitPolicy", self.git_policy.to_json().as_str()));
        fields.push(field_text("providerPolicy", self.provider_policy.to_json().as_str()));
        fields.push(field_text("verificationPolicy", self.verification_policy.to_json().as_str()));
        fields.push(field_text("rateLimitPolicy", self.rate_limit_policy.to_json().as_str()));
        fields.push(field_text("autonomyLease", self.autonomy_lease.to_json().as_str()));
        fields.push(field_text("hardStopConditions", hard_stops_to_json(&self.hard_stop_conditions).as_str()));
        assert(texts(fields@) =~= self.json_fields());
        object_text(&fields)
    }
}

// ---------------------------------------------------------------------------
// The policy

/// What the file system says of a path: the components of its canonical form.
#[derive(Clone, Debug, PartialEq, Eq)]
pub enum ResolvedPath {
    /// There is nothing of the wanted kind.
    Missing,
    /// It is there, but its canonical form cannot be told.
    Unresolved,
    /// It is there.
    Resolved(Vec<String>),
}

/// The components of a path that could be resolved.
pub open spec fn components(path: ResolvedPath) -> Seq<Seq<char>> {
    match path {
        ResolvedPath::Resolved(parts) => texts(parts@),
        _ => seq![],
    }
}

/// A path lies in a directory, or is the directory.
pub open spec fn lies_in(path: Seq<Seq<char>>, dir: Seq<Seq<char>>) -> bool {
    dir.len() <= path.len() && path.take(dir.len() as int) == dir
}

/// Whether a path lies in a directory, component by component.
pub fn is_in(path: &Vec<String>, dir: &Vec<String>) -> (r: bool)
    ensures
        r == lies_in(texts(path@), texts(dir@)),
{
    if dir.len() > path.len() {
        return false;
    }
    let mut i: usize = 0;
    while i < dir.len()
        invariant
            i <= dir@.len() <= path@.len(),
            forall|j: int| 0 <= j < i ==> texts(path@)[j] == texts(dir@)[j],
        decreases dir@.len() - i,
    {
        if path[i] != dir[i] {
            assert(texts(path@).take(dir@.len() as int)[i as int] != texts(dir@)[i as int]);
            return false;
        }
        i += 1;
    }
    assert(texts(path@).take(dir@.len() as int) =~= texts(dir@));
    true
}

/// Why a directory or a path cannot be used, if it cannot.
pub open spec fn path_problem(path: ResolvedPath, label: Seq<char>, directory: bool) -> Option<
    Seq<char>,
> {
    match path {
        ResolvedPath::Missing => Some(
            label + if directory {
                " must be an existing directory"@
            } else {
                " must exist"@
            },
        ),
        ResolvedPath::Unresolved => Some(label + " could not be canonicalized"@),
        ResolvedPath::Resolved(_) => None,
    }
}

fn resolved(path: &ResolvedPath, label: &str, directory: bool) -> (r: Result<
    Vec<String>,
    ContractPolicyError,
>)
    ensures
        match r {
            Ok(parts) => path_problem(*path, label@, directory) is None && texts(parts@)
                == components(*path),
            Err(ContractPolicyError::Validation(message)) => path_problem(*path, label@, directory)
                == Some(message@),
            Err(_) => false,
        },
{
    match path {
        ResolvedPath::Missing => Err(
            ContractPolicyError::Validation(
                if directory {
                    plus(label, " must be an existing directory")
                } else {
                    plus(label, " must exist")
                },
            ),
        ),
        ResolvedPath::Unresolved => Err(
            ContractPolicyError::Validation(plus(label, " could not be canonicalized")),
        ),
        ResolvedPath::Resolved(parts) => Ok(copy_list(parts)),
    }
}

/// The first problem among paths at or behind `from`, if there is one.
pub open spec fn paths_problem(
    paths: Seq<ResolvedPath>,
    label: Seq<char>,
    directory: bool,
    from: int,
) -> Option<Seq<char>>
    decreases paths.len() - from,
{
    if from < 0 || from >= paths.len() {
        None
    } else if path_problem(paths[from], label, directory) is Some {
        path_problem(paths[from], label, directory)
    } else {
        paths_problem(paths, label, directory, from + 1)
    }
}

/// The components of each path of a list.
pub open spec fn path_list(paths: Seq<Vec<String>>) -> Seq<Seq<Seq<char>>> {
    paths.map_values(|p: Vec<String>| texts(p@))
}

/// The components of each resolved path of a list.
pub open spec fn component_list(paths: Seq<ResolvedPath>) -> Seq<Seq<Seq<char>>> {
    paths.map_values(|p: ResolvedPath| components(p))
}

fn resolved_list(paths: &Vec<ResolvedPath>, label: &str, directory: bool) -> (r: Result<
    Vec<Vec<String>>,
    ContractPolicyError,
>)
    ensures
        match r {
            Ok(list) => paths_problem(paths@, label@, directory, 0) is None && path_list(list@)
                == component_list(paths@),
            Err(ContractPolicyError::Validation(message)) => paths_problem(
                paths@,
                label@,
                directory,
                0,
            ) == Some(message@),
            Err(_) => false,
        },
{
    let mut list: Vec<Vec<String>> = Vec::new();
    let ghost all = component_list(paths@);
    let mut i: usize = 0;
    while i < paths.len()
        invariant
            i <= paths@.len(),
            all == component_list(paths@),
            paths_problem(paths@, label@, directory, 0) == paths_problem(
                paths@,
                label@,
                directory,
                i as int,
            ),
            path_list(list@) == all.take(i as int),
        decreases paths@.len() - i,
    {
        let parts: Vec<String> = resolved(&paths[i], label, directory)?;
        let ghost prior = path_list(list@);
        let ghost added = texts(parts@);
        list.push(parts);
        i += 1;
        assert(path_list(list@) =~= prior.push(added));
        assert(all.take(i as int) =~= all.take(i - 1).push(all[i - 1]));
    }
    assert(all.take(all.len() as int) =~= all);
    Ok(list)
}

/// A path lies in one of the directories.
pub open spec fn lies_in_one(path: Seq<Seq<char>>, dirs: Seq<Seq<Seq<char>>>) -> bool {
    exists|i: int| 0 <= i < dirs.len() && lies_in(path, #[trigger] dirs[i])
}

fn is_in_one(path: &Vec<String>, dirs: &Vec<Vec<String>>) -> (r: bool)
    ensures
        r == lies_in_one(texts(path@), path_list(dirs@)),
{
    let mut i: usize = 0;
    while i < dirs.len()
        invariant
            i <= dirs@.len(),
            forall|j: int|
                0 <= j < i ==> !lies_in(texts(path@), #[trigger] path_list(dirs@)[j]),
        decreases dirs@.len() - i,
    {
        if is_in(path, &dirs[i]) {
            assert(lies_in(texts(path@), path_list(dirs@)[i as int]));
            return true;
        }
        i += 1;
    }
    false
}

/// All paths lie in the directory.
pub open spec fn all_lie_in(paths: Seq<Seq<Seq<char>>>, dir: Seq<Seq<char>>) -> bool {
    forall|i: int| 0 <= i < paths.len() ==> lies_in(#[trigger] paths[i], dir)
}

/// Enforces an autonomous contract.
#[derive(Debug)]
pub struct AutonomousPolicyEngineV1 {
    contract: AutonomousDevelopmentContractV1,
    contract_hash: String,
    workspace: Vec<String>,
    allowed_paths: Vec<Vec<String>>,
    forbidden_paths: Vec<Vec<String>>,
}

/// Why a contract cannot be enforced on these paths, if it cannot.
pub open spec fn engine_refusal(
    contract: AutonomousDevelopmentContractV1,
    workspace: ResolvedPath,
    allowed: Seq<ResolvedPath>,
    forbidden: Seq<ResolvedPath>,
) -> Option<Seq<char>> {
    if autonomous_refusal(contract, !(workspace is Missing)) is Some {
        autonomous_refusal(contract, !(workspace is Missing))
    } else if path_problem(workspace, "workspace"@, true) is Some {
        path_problem(workspace, "workspace"@, true)
    } else if paths_problem(allowed, "allowed path"@, true, 0) is Some {
        paths_problem(allowed, "allowed path"@, true, 0)
    } else if paths_problem(forbidden, "forbidden path"@, false, 0) is Some {
        paths_problem(forbidden, "forbidden path"@, false, 0)
    } else if !all_lie_in(component_list(allowed), components(workspace)) {
        Some("allowed path escapes workspace"@)
    } else {
        None
    }
}

/// The components of the paths that a contract is enforced on.
#[derive(Debug)]
pub struct EnforcedPaths {
    pub workspace: Vec<String>,
    pub allowed: Vec<Vec<String>>,
    pub forbidden: Vec<Vec<String>>,
}

/// Finds the paths that a contract is enforced on, if it can be enforced on them.
pub fn enforced_paths(
    contract: &AutonomousDevelopmentContractV1,
    workspace: &ResolvedPath,
    allowed: &Vec<ResolvedPath>,
    forbidden: &Vec<ResolvedPath>,
) -> (r: Result<EnforcedPaths, ContractPolicyError>)
    ensures
        match r {
            Ok(paths) => {
                &&& engine_refusal(*contract, *workspace, allowed@, forbidden@) is None
                &&& texts(paths.workspace@) == components(*workspace)
                &&& path_list(paths.allowed@) == component_list(allowed@)
                &&& path_list(paths.forbidden@) == component_list(forbidden@)
            },
            Err(ContractPolicyError::Validation(message)) => engine_refusal(
                *contract,
                *workspace,
                allowed@,
                forbidden@,
            ) == Some(message@),
            Err(_) => false,
        },
{
    let is_dir: bool = !matches!(workspace, ResolvedPath::Missing);
    contract.validate(is_dir)?;
    let root: Vec<String> = resolved(workspace, "workspace", true)?;
    let allowed_paths: Vec<Vec<String>> = resolved_list(allowed, "allowed path", true)?;
    let forbidden_paths: Vec<Vec<String>> = resolved_list(forbidden, "forbidden path", false)?;
    let mut i: usize = 0;
    while i < allowed_paths.len()
        invariant
            i <= allowed_paths@.len(),
            path_list(allowed_paths@) == component_list(allowed@),
            texts(root@) == components(*workspace),
            autonomous_refusal(*contract, !(*workspace is Missing)) is None,
            path_problem(*workspace, "workspace"@, true) is None,
            paths_problem(allowed@, "allowed path"@, true, 0) is None,
            paths_problem(forbidden@, "forbidden path"@, false, 0) is None,
            forall|j: int|
                0 <= j < i ==> lies_in(#[trigger] path_list(allowed_paths@)[j], texts(root@)),
        decreases allowed_paths@.len() - i,
    {
        if !is_in(&allowed_paths[i], &root) {
            assert(!lies_in(path_list(allowed_paths@)[i as int], texts(root@)));
            return Err(ContractPolicyError::Validation(text("allowed path escapes workspace")));
        }
        i += 1;
    }
    Ok(EnforcedPaths { workspace: root, allowed: allowed_paths, forbidden: forbidden_paths })
}

/// A path is open to the session: in the workspace, in an allowed directory, and not
/// below anything forbidden.
pub open spec fn is_open_path(
    path: Seq<Seq<char>>,
    workspace: Seq<Seq<char>>,
    allowed: Seq<Seq<Seq<char>>>,
    forbidden: Seq<Seq<Seq<char>>>,
) -> bool {
    lies_in(path, workspace) && !lies_in_one(path, forbidden) && lies_in_one(path, allowed)
}

/// The contract allows a Git operation. Forcing a push and changing the main branch are
/// never allowed.
pub open spec fn allows_git(policy: AutonomousGitPolicyV1, action: AutonomousGitActionV1) -> bool {
    match action {
        AutonomousGitActionV1::CreateBranch => policy.create_branch,
        AutonomousGitActionV1::CreateWorktree => policy.create_worktree,
        AutonomousGitActionV1::LocalCommit => policy.local_commits,
        AutonomousGitActionV1::PushFeatureBranch => policy.push_feature_branch,
        AutonomousGitActionV1::OpenPullRequest => policy.open_pull_request,
        AutonomousGitActionV1::Merge => policy.merge,
        AutonomousGitActionV1::ForcePush | AutonomousGitActionV1::ModifyMain => false,
    }
}

/// A command is exactly what a profile stands for.
pub open spec fn runs_profile(argv: Seq<Seq<char>>, profile: AutonomousCommandProfileV1) -> bool {
    profile.argv().len() > 0 && argv == profile.argv()
}

/// Why an approval does not count, if it does not.
pub open spec fn approval_problem(
    approval: AutonomousApprovalV1,
    contract_hash: Seq<char>,
    now_unix: u64,
) -> bool {
    ||| approval.schema_version != AUTONOMOUS_DEVELOPMENT_CONTRACT_SCHEMA_VERSION
    ||| approval.contract_hash@ != contract_hash
    ||| approval.consumed
    ||| approval.expires_at_unix <= now_unix
}

impl AutonomousPolicyEngineV1 {
    /// The contract that is enforced.
    pub closed spec fn terms(self) -> AutonomousDevelopmentContractV1 {
        self.contract
    }

    /// The fingerprint of the contract.
    pub closed spec fn hash(self) -> Seq<char> {
        self.contract_hash@
    }

    /// The components of the workspace.
    pub closed spec fn root(self) -> Seq<Seq<char>> {
        texts(self.workspace@)
    }

    /// The components of the allowed directories.
    pub closed spec fn allowed(self) -> Seq<Seq<Seq<char>>> {
        path_list(self.allowed_paths@)
    }

    /// The components of the forbidden paths.
    pub closed spec fn forbidden(self) -> Seq<Seq<Seq<char>>> {
        path_list(self.forbidden_paths@)
    }

    /// Enforces a valid contract whose paths exist and whose allowed paths lie in the
    /// workspace.
    pub fn new(
        contract: AutonomousDevelopmentContractV1,
        workspace: &ResolvedPath,
        allowed: &Vec<ResolvedPath>,
        forbidden: &Vec<ResolvedPath>,
    ) -> (r: Result<Self, ContractPolicyError>)
        ensures
            match r {
                Ok(engine) => {
                    &&& engine_refusal(contract, *workspace, allowed@, forbidden@) is None
                    &&& engine.terms() == contract
                    &&& engine.hash() == fingerprint(contract.json())
                    &&& engine.root() == components(*workspace)
                    &&& engine.allowed() == component_list(allowed@)
                    &&& engine.forbidden() == component_list(forbidden@)
                },
                Err(ContractPolicyError::Validation(message)) => engine_refusal(
                    contract,
                    *workspace,
                    allowed@,
                    forbidden@,
                ) == Some(message@),
                Err(_) => false,
            },
    {
        let paths: EnforcedPaths = enforced_paths(&contract, workspace, allowed, forbidden)?;
        let contract_hash: String = contract.decision_hash()?;
        Ok(
            AutonomousPolicyEngineV1 {
                contract,
                contract_hash,
                workspace: paths.workspace,
                allowed_paths: paths.allowed,
                forbidden_paths: paths.forbidden,
            },
        )
    }

    /// The fingerprint of the contract.
    pub fn contract_hash(&self) -> (r: &str)
        ensures
            r@ == self.hash(),
    {
        self.contract_hash.as_str()
    }

    /// The contract that is enforced.
    pub fn contract(&self) -> (r: &AutonomousDevelopmentContractV1)
        ensures
            *r == self.terms(),
    {
        &self.contract
    }

    fn permit_canonical_path(&self, target: &Vec<String>) -> (r: Result<(), ContractPolicyError>)
        ensures
            match r {
                Ok(_) => is_open_path(
                    texts(target@),
                    self.root(),
                    self.allowed(),
                    self.forbidden(),
                ),
                Err(ContractPolicyError::Denied(message)) => !is_open_path(
                    texts(target@),
                    self.root(),
                    self.allowed(),
                    self.forbidden(),
                ) && message@ == "path is outside the autonomous contract allowlist"@,
                Err(_) => false,
            },
    {
        if !is_in(target, &self.workspace) || is_in_one(target, &self.forbidden_paths)
            || !is_in_one(target, &self.allowed_paths) {
            return Err(
                ContractPolicyError::Denied(
                    text("path is outside the autonomous contract allowlist"),
                ),
            );
        }
        Ok(())
    }

    /// Lets the session use a path that exists and is open to it.
    pub fn permit_path(&self, target: &ResolvedPath) -> (r: Result<(), ContractPolicyError>)
        ensures
            match r {
                Ok(_) => path_problem(*target, "operation target"@, false) is None && is_open_path(
                    components(*target),
                    self.root(),
                    self.allowed(),
                    self.forbidden(),
                ),
                Err(ContractPolicyError::Validation(message)) => path_problem(
                    *target,
                    "operation target"@,
                    false,
                ) == Some(message@),
                Err(ContractPolicyError::Denied(message)) => path_problem(
                    *target,
                    "operation target"@,
                    false,
                ) is None && !is_open_path(
                    components(*target),
                    self.root(),
                    self.allowed(),
                    self.forbidden(),
                ) && message@ == "path is outside the autonomous contract allowlist"@,
                Err(_) => false,
            },
    {
        let parts: Vec<String> = resolved(target, "operation target", false)?;
        self.permit_canonical_path(&parts)
    }

    /// Lets the session make something new in a directory that is open to it. `parent` is
    /// that directory, if the path has one, and `names_entry` tells whether the path
    /// names an entry in it.
    pub fn permit_new_path(&self, parent: Option<&ResolvedPath>, names_entry: bool) -> (r: Result<
        (),
        ContractPolicyError,
    >)
        ensures
            match r {
                Ok(_) => parent is Some && names_entry && path_problem(
                    *parent->0,
                    "new operation target parent"@,
                    true,
                ) is None && is_open_path(
                    components(*parent->0),
                    self.root(),
                    self.allowed(),
                    self.forbidden(),
                ),
                Err(ContractPolicyError::Validation(message)) => parent is Some && names_entry
                    && path_problem(*parent->0, "new operation target parent"@, true) == Some(
                    message@,
                ),
                Err(ContractPolicyError::Denied(message)) => if parent is None {
                    message@ == "new path has no parent directory"@
                } else if !names_entry {
                    message@ == "new path must name a file or directory"@
                } else {
                    path_problem(*parent->0, "new operation target parent"@, true) is None
                        && !is_open_path(
                        components(*parent->0),
                        self.root(),
                        self.allowed(),
                        self.forbidden(),
                    ) && message@ == "path is outside the autonomous contract allowlist"@
                },
                Err(_) => false,
            },
    {
        let dir: &ResolvedPath = match parent {
            Some(dir) => dir,
            None => {
                return Err(ContractPolicyError::Denied(text("new path has no parent directory")));
            },
        };
        if !names_entry {
            return Err(
                ContractPolicyError::Denied(text("new path must name a file or directory")),
            );
        }
        let parts: Vec<String> = resolved(dir, "new operation target parent", true)?;
        self.permit_canonical_path(&parts)
    }

    /// Lets the session run a command that is exactly an allowed profile.
    pub fn permit_command(&self, argv: &Vec<String>) -> (r: Result<
        AutonomousCommandProfileV1,
        ContractPolicyError,
    >)
        ensures
            match r {
                Ok(profile) => self.terms().allowed_command_profiles@.contains(profile)
                    && runs_profile(texts(argv@), profile),
                Err(ContractPolicyError::Denied(message)) => message@
                    == "command is not an exact approved profile"@ && forall|i: int|
                    0 <= i < self.terms().allowed_command_profiles@.len() ==> !runs_profile(
                        texts(argv@),
                        #[trigger] self.terms().allowed_command_profiles@[i],
                    ),
                Err(_) => false,
            },
    {
        let mut i: usize = 0;
        while i < self.contract.allowed_command_profiles.len()
            invariant
                i <= self.contract.allowed_command_profiles@.len(),
                forall|j: int|
                    0 <= j < i ==> !runs_profile(
                        texts(argv@),
                        #[trigger] self.contract.allowed_command_profiles@[j],
                    ),
            decreases self.contract.allowed_command_profiles@.len() - i,
        {
            let profile: AutonomousCommandProfileV1 = self.contract.allowed_command_profiles[i];
            let exact: Vec<String> = profile.exact_argv();
            assert(texts(exact@).len() == exact@.len());
            if exact.len() > 0 && same_list(&exact, argv) {
                return Ok(profile);
            }
            i += 1;
        }
        Err(ContractPolicyError::Denied(text("command is not an exact approved profile")))
    }

    /// Lets the session do a Git operation that the contract allows.
    pub fn permit_git_action(&self, action: AutonomousGitActionV1) -> (r: Result<
        (),
        ContractPolicyError,
    >)
        ensures
            match r {
                Ok(_) => allows_git(self.terms().git_policy, action),
                Err(ContractPolicyError::Denied(message)) => !allows_git(
                    self.terms().git_policy,
                    action,
                ) && message@ == "Git action is not allowed by autonomous contract"@,
                Err(_) => false,
            },
            action is CreateBranch ==> (r is Ok <==> self.terms().git_policy.create_branch),
            action is CreateWorktree ==> (r is Ok <==> self.terms().git_policy.create_worktree),
            action is LocalCommit ==> (r is Ok <==> self.terms().git_policy.local_commits),
            action is PushFeatureBranch ==> (r is Ok
                <==> self.terms().git_policy.push_feature_branch),
            action is OpenPullRequest ==> (r is Ok <==> self.terms().git_policy.open_pull_request),
            action is Merge ==> (r is Ok <==> self.terms().git_policy.merge),
            action is ForcePush || action is ModifyMain ==> r is Err,
    {
        let allowed: bool = match action {
            AutonomousGitActionV1::CreateBranch => self.contract.git_policy.create_branch,
            AutonomousGitActionV1::CreateWorktree => self.contract.git_policy.create_worktree,
            AutonomousGitActionV1::LocalCommit => self.contract.git_policy.local_commits,
            AutonomousGitActionV1::PushFeatureBranch => self.contract.git_policy.push_feature_branch,
            AutonomousGitActionV1::OpenPullRequest => self.contract.git_policy.open_pull_request,
            AutonomousGitActionV1::Merge => self.contract.git_policy.merge,
            AutonomousGitActionV1::ForcePush | AutonomousGitActionV1::ModifyMain => false,
        };
        if allowed {
            Ok(())
        } else {
            Err(
                ContractPolicyError::Denied(
                    text("Git action is not allowed by autonomous contract"),
                ),
            )
        }
    }

    /// Accepts an approval that is for this contract, not used up and not expired.
    pub fn validate_approval(&self, approval: &AutonomousApprovalV1, now_unix: u64) -> (r: Result<
        (),
        ContractPolicyError,
    >)
        ensures
            match r {
                Ok(_) => !approval_problem(*approval, self.hash(), now_unix) && is_slug(
                    approval.approval_id@,
                ) && is_slug(approval.idempotency_key@),
                Err(ContractPolicyError::Approval(message)) => approval_problem(
                    *approval,
                    self.hash(),
                    now_unix,
                ) && message@
                    == "autonomous approval is stale, consumed, or for a different contract"@,
                Err(ContractPolicyError::Validation(message)) => !approval_problem(
                    *approval,
                    self.hash(),
                    now_unix,
                ) && if !is_slug(approval.approval_id@) {
                    message@ == slug_message("approval id"@)
                } else {
                    !is_slug(approval.idempotency_key@) && message@ == slug_message(
                        "approval idempotency key"@,
                    )
                },
                Err(_) => false,
            },
    {
        if approval.schema_version != AUTONOMOUS_DEVELOPMENT_CONTRACT_SCHEMA_VERSION || !same(
            approval.contract_hash.as_str(),
            self.contract_hash.as_str(),
        ) || approval.consumed || approval.expires_at_unix <= now_unix {
            return Err(
                ContractPolicyError::Approval(
                    text("autonomous approval is stale, consumed, or for a different contract"),
                ),
            );
        }
        validate_slug(approval.approval_id.as_str(), "approval id")?;
        validate_slug(approval.idempotency_key.as_str(), "approval idempotency key")
    }

    /// Whether the contract makes a session stop on a condition.
    pub fn requires_hard_stop(&self, condition: AutonomousHardStopV1) -> (r: bool)
        ensures
            r == self.terms().hard_stop_conditions@.contains(condition),
    {
        let mut i: usize = 0;
        while i < self.contract.hard_stop_conditions.len()
            invariant
                i <= self.contract.hard_stop_conditions@.len(),
                forall|j: int|
                    0 <= j < i ==> self.contract.hard_stop_conditions@[j] != condition,
            decreases self.contract.hard_stop_conditions@.len() - i,
        {
            if self.contract.hard_stop_conditions[i] == condition {
                assert(self.contract.hard_stop_conditions@[i as int] == condition);
                return true;
            }
            i += 1;
        }
        false
    }
}

/// Whatever a contract says, a push is never forced and the main branch never changed.
pub proof fn lemma_protected_git_actions(policy: AutonomousGitPolicyV1)
    ensures
        !allows_git(policy, AutonomousGitActionV1::ForcePush),
        !allows_git(policy, AutonomousGitActionV1::ModifyMain),
{
}

/// Nothing outside the workspace is ever open to a session, and nothing below a
/// forbidden path is.
pub proof fn lemma_open_paths_are_contained(
    path: Seq<Seq<char>>,
    workspace: Seq<Seq<char>>,
    allowed: Seq<Seq<Seq<char>>>,
    forbidden: Seq<Seq<Seq<char>>>,
    i: int,
)
    requires
        is_open_path(path, workspace, allowed, forbidden),
        0 <= i < forbidden.len(),
    ensures
        lies_in(path, workspace),
        !lies_in(path, forbidden[i]),
{
}

/// An approval for one contract is no approval for a contract with another fingerprint.
pub proof fn lemma_approval_is_bound(
    approval: AutonomousApprovalV1,
    a: Seq<char>,
    b: Seq<char>,
    now_unix: u64,
)
    requires
        a != b,
        !approval_problem(approval, a, now_unix),
    ensures
        approval_problem(approval, b, now_unix),
{
}

} // verus!
