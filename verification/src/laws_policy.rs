//! What contracts, leases and approvals allow, told on the fields that they hold.

use vstd::prelude::*;
use vstd::string::*;
use vstd::utf8::*;
use crate::autonomous_contract::{
    AutonomousApprovalV1, AutonomousCommandProfileV1, AutonomousDevelopmentContractV1,
    AutonomousGitActionV1, AutonomousGitPolicyV1, AutonomyLeaseV1, ResolvedPath, all_lie_in,
    allows_git, approval_problem, autonomous_refusal, component_list, components, engine_refusal,
    is_open_path, is_slug, lies_in, paths_problem, runs_profile,
};
use crate::contracts::{
    ApprovalRequestV1, ExecutionContractV1, RunState, SupervisorDecisionV1, branch_refusal,
    filled_list, is_branch_char, is_identifier, is_identifier_char, is_loose_component,
    is_terminal_state, path_refusal,
};
use crate::job_manager::{is_job_id, is_job_id_char};
use crate::text::{
    begins_with, blank, has_char, has_text, is_white, lemma_ascii_utf8_len, lowered,
    split_at_either, texts, trimmed, utf8_len, with_replaced,
};

verus! {

/// A slug is one to 128 letters, digits, hyphens and underscores.
pub proof fn lemma_slug_shape(v: Seq<char>)
    ensures
        is_slug(v) <==> 0 < v.len() <= 128 && forall|i: int|
            0 <= i < v.len() ==> ('a' <= #[trigger] v[i] && v[i] <= 'z') || ('A' <= v[i] && v[i]
                <= 'Z') || ('0' <= v[i] && v[i] <= '9') || v[i] == '-' || v[i] == '_',
{
    let plain = forall|i: int|
        0 <= i < v.len() ==> ('a' <= #[trigger] v[i] && v[i] <= 'z') || ('A' <= v[i] && v[i]
            <= 'Z') || ('0' <= v[i] && v[i] <= '9') || v[i] == '-' || v[i] == '_';
    if is_slug(v) {
        assert forall|i: int| 0 <= i < v.len() implies ('a' <= #[trigger] v[i] && v[i] <= 'z') || (
        'A' <= v[i] && v[i] <= 'Z') || ('0' <= v[i] && v[i] <= '9') || v[i] == '-' || v[i] == '_' by {}
    }
    if plain {
        assert(is_ascii_chars(v));
        lemma_ascii_utf8_len(v);
    }
}

/// An identifier is one to 120 letters, digits and signs out of `-_:.`, once the blanks
/// around it are taken off.
pub proof fn lemma_identifier_shape(v: Seq<char>)
    ensures
        is_identifier(v) <==> 0 < trimmed(v).len() <= 120 && forall|i: int|
            0 <= i < trimmed(v).len() ==> {
                let c = #[trigger] trimmed(v)[i];
                ('a' <= c && c <= 'z') || ('A' <= c && c <= 'Z') || ('0' <= c && c <= '9') || c
                    == '-' || c == '_' || c == ':' || c == '.'
            },
{
    let t = trimmed(v);
    let plain = forall|i: int|
        0 <= i < t.len() ==> {
            let c = #[trigger] t[i];
            ('a' <= c && c <= 'z') || ('A' <= c && c <= 'Z') || ('0' <= c && c <= '9') || c == '-'
                || c == '_' || c == ':' || c == '.'
        };
    if is_identifier(v) {
        assert forall|i: int| 0 <= i < t.len() implies {
            let c = #[trigger] t[i];
            ('a' <= c && c <= 'z') || ('A' <= c && c <= 'Z') || ('0' <= c && c <= '9') || c == '-'
                || c == '_' || c == ':' || c == '.'
        } by {
            assert(is_identifier_char(t[i]));
        }
    }
    if plain {
        assert(is_ascii_chars(t));
        lemma_ascii_utf8_len(t);
        assert forall|i: int| 0 <= i < t.len() implies is_identifier_char(#[trigger] t[i]) by {}
    }
}

/// The name of a job is one to 128 letters, digits, hyphens and underscores.
pub proof fn lemma_job_name_shape(v: Seq<char>)
    ensures
        is_job_id(v) <==> 0 < v.len() <= 128 && forall|i: int|
            0 <= i < v.len() ==> ('a' <= #[trigger] v[i] && v[i] <= 'z') || ('A' <= v[i] && v[i]
                <= 'Z') || ('0' <= v[i] && v[i] <= '9') || v[i] == '-' || v[i] == '_',
{
    let plain = forall|i: int|
        0 <= i < v.len() ==> ('a' <= #[trigger] v[i] && v[i] <= 'z') || ('A' <= v[i] && v[i]
            <= 'Z') || ('0' <= v[i] && v[i] <= '9') || v[i] == '-' || v[i] == '_';
    if is_job_id(v) {
        assert forall|i: int| 0 <= i < v.len() implies ('a' <= #[trigger] v[i] && v[i] <= 'z') || (
        'A' <= v[i] && v[i] <= 'Z') || ('0' <= v[i] && v[i] <= '9') || v[i] == '-' || v[i] == '_' by {
            assert(is_job_id_char(v[i]));
        }
        assert(is_ascii_chars(v));
        lemma_ascii_utf8_len(v);
    }
    if plain {
        assert(is_ascii_chars(v));
        lemma_ascii_utf8_len(v);
        assert forall|i: int| 0 <= i < v.len() implies is_job_id_char(#[trigger] v[i]) by {}
        if v.len() > 0 {
            assert(!is_white(v[0]));
        }
    }
}

/// A lease holds from the moment it is issued until just before it expires.
pub proof fn lemma_lease_interval(lease: AutonomyLeaseV1, now_unix: u64, later: u64)
    ensures
        lease.holds_at(now_unix) <==> lease.issued_at_unix <= now_unix && now_unix
            < lease.expires_at_unix,
        lease.holds_at(now_unix) && now_unix <= later && later < lease.expires_at_unix
            ==> lease.holds_at(later),
        !lease.holds_at(lease.expires_at_unix),
{
}

/// A lease is renewed only where it may be, before it has run out, and into the future.
pub proof fn lemma_lease_renewal(lease: AutonomyLeaseV1, now_unix: u64, new_expiry_unix: u64)
    ensures
        lease.can_renew(now_unix, new_expiry_unix) <==> lease.renewal_allowed && !(now_unix
            > lease.expires_at_unix) && now_unix < new_expiry_unix,
{
}

/// Every Git operation goes by the flag of its own name and by no other. Forcing a push
/// and changing the main branch go by none.
pub proof fn lemma_git_actions_go_by_their_flags(
    policy: AutonomousGitPolicyV1,
    other: AutonomousGitPolicyV1,
)
    ensures
        allows_git(policy, AutonomousGitActionV1::CreateBranch) <==> policy.create_branch,
        allows_git(policy, AutonomousGitActionV1::CreateWorktree) <==> policy.create_worktree,
        allows_git(policy, AutonomousGitActionV1::LocalCommit) <==> policy.local_commits,
        allows_git(policy, AutonomousGitActionV1::PushFeatureBranch) <==> policy.push_feature_branch,
        allows_git(policy, AutonomousGitActionV1::OpenPullRequest) <==> policy.open_pull_request,
        allows_git(policy, AutonomousGitActionV1::Merge) <==> policy.merge,
        !allows_git(policy, AutonomousGitActionV1::ForcePush),
        !allows_git(policy, AutonomousGitActionV1::ModifyMain),
        policy.merge == other.merge ==> allows_git(policy, AutonomousGitActionV1::Merge)
            == allows_git(other, AutonomousGitActionV1::Merge),
        policy.push_feature_branch == other.push_feature_branch ==> allows_git(
            policy,
            AutonomousGitActionV1::PushFeatureBranch,
        ) == allows_git(other, AutonomousGitActionV1::PushFeatureBranch),
{
}

/// A command is that of a profile only word for word; project tests have no command of
/// their own.
pub proof fn lemma_commands_are_exact(argv: Seq<Seq<char>>)
    ensures
        runs_profile(argv, AutonomousCommandProfileV1::CargoFmt) <==> argv == seq![
            "cargo"@,
            "fmt"@,
            "--check"@,
        ],
        runs_profile(argv, AutonomousCommandProfileV1::CargoClippy) <==> argv == seq![
            "cargo"@,
            "clippy"@,
            "--all-targets"@,
            "--all-features"@,
            "--"@,
            "-D"@,
            "warnings"@,
        ],
        runs_profile(argv, AutonomousCommandProfileV1::CargoTest) <==> argv == seq![
            "cargo"@,
            "test"@,
        ],
        runs_profile(argv, AutonomousCommandProfileV1::CargoBuildRelease) <==> argv == seq![
            "cargo"@,
            "build"@,
            "--release"@,
        ],
        runs_profile(argv, AutonomousCommandProfileV1::GitStatus) <==> argv == seq![
            "git"@,
            "status"@,
            "--short"@,
        ],
        runs_profile(argv, AutonomousCommandProfileV1::GitDiff) <==> argv == seq![
            "git"@,
            "diff"@,
            "--check"@,
        ],
        !runs_profile(argv, AutonomousCommandProfileV1::ApprovedProjectTests),
        argv.len() > 0 ==> forall|p: AutonomousCommandProfileV1| #[trigger]
            p.argv() == argv ==> runs_profile(argv, p),
{
}

/// One word more or less, and a command is no longer that of its profile.
pub proof fn lemma_no_word_can_be_added(
    argv: Seq<Seq<char>>,
    word: Seq<char>,
    profile: AutonomousCommandProfileV1,
)
    requires
        runs_profile(argv, profile),
    ensures
        !runs_profile(argv.push(word), profile),
        !runs_profile(argv.drop_last(), profile),
{
    assert(argv.push(word).len() == argv.len() + 1);
}

/// An approval counts only for the contract of its hash, once, and before it expires.
pub proof fn lemma_approval_counts(approval: AutonomousApprovalV1, hash: Seq<char>, now_unix: u64)
    ensures
        !approval_problem(approval, hash, now_unix) <==> approval.schema_version == 1
            && approval.contract_hash@ == hash && !approval.consumed && now_unix
            < approval.expires_at_unix,
{
}

/// A path lies in a directory if the directory's components are its first.
pub proof fn lemma_lies_in(
    path: Seq<Seq<char>>,
    dir: Seq<Seq<char>>,
    name: Seq<char>,
)
    ensures
        lies_in(path, dir) <==> exists|rest: Seq<Seq<char>>| path == #[trigger] (dir + rest),
        lies_in(path, dir) ==> lies_in(path.push(name), dir),
        lies_in(dir, dir),
{
    if lies_in(path, dir) {
        assert(path =~= dir + path.skip(dir.len() as int));
        assert(path.push(name).take(dir.len() as int) =~= path.take(dir.len() as int));
    }
    if exists|rest: Seq<Seq<char>>| path == #[trigger] (dir + rest) {
        let rest = choose|rest: Seq<Seq<char>>| path == #[trigger] (dir + rest);
        assert(path.take(dir.len() as int) =~= dir);
    }
    assert(dir.take(dir.len() as int) =~= dir);
}

/// A directory in a directory holds nothing that the outer one does not hold.
pub proof fn lemma_lies_in_is_transitive(
    path: Seq<Seq<char>>,
    inner: Seq<Seq<char>>,
    outer: Seq<Seq<char>>,
)
    requires
        lies_in(path, inner),
        lies_in(inner, outer),
    ensures
        lies_in(path, outer),
{
    assert(path.take(outer.len() as int) =~= inner.take(outer.len() as int));
}

/// A path is open exactly where it lies in the workspace and below an allowed path, and
/// below no forbidden one. What lies below an open path is open too, unless something
/// forbids it.
pub proof fn lemma_open_paths(
    path: Seq<Seq<char>>,
    name: Seq<char>,
    workspace: Seq<Seq<char>>,
    allowed: Seq<Seq<Seq<char>>>,
    forbidden: Seq<Seq<Seq<char>>>,
)
    ensures
        is_open_path(path, workspace, allowed, forbidden) <==> lies_in(path, workspace) && (exists|
            i: int,
        |
            0 <= i < allowed.len() && lies_in(path, #[trigger] allowed[i])) && (forall|i: int|
            0 <= i < forbidden.len() ==> !lies_in(path, #[trigger] forbidden[i])),
        is_open_path(path, workspace, allowed, forbidden) && (forall|i: int|
            0 <= i < forbidden.len() ==> path.push(name) != #[trigger] forbidden[i])
            ==> is_open_path(path.push(name), workspace, allowed, forbidden),
{
    let deeper = path.push(name);
    if is_open_path(path, workspace, allowed, forbidden) && (forall|i: int|
        0 <= i < forbidden.len() ==> deeper != #[trigger] forbidden[i]) {
        lemma_lies_in(path, workspace, name);
        let i = choose|i: int| 0 <= i < allowed.len() && lies_in(path, #[trigger] allowed[i]);
        lemma_lies_in(path, allowed[i], name);
        assert(lies_in(deeper, allowed[i]));
        assert forall|k: int| 0 <= k < forbidden.len() implies !lies_in(
            deeper,
            #[trigger] forbidden[k],
        ) by {
            let dir = forbidden[k];
            if lies_in(deeper, dir) {
                if dir.len() <= path.len() {
                    assert(deeper.take(dir.len() as int) =~= path.take(dir.len() as int));
                    assert(lies_in(path, dir));
                } else {
                    assert(deeper.take(dir.len() as int) =~= deeper);
                }
            }
        }
    }
}

/// An autonomous contract is accepted exactly where every one of these holds of it.
pub proof fn lemma_autonomous_contract_accepted(c: AutonomousDevelopmentContractV1, is_dir: bool)
    ensures
        autonomous_refusal(c, is_dir) is None <==> {
            &&& c.schema_version == 1
            &&& is_slug(c.contract_id@) && is_slug(c.task_id@) && is_slug(c.project_id@)
            &&& c.mode@ == "chatgpt_web_codex_autonomous"@
            &&& !blank(c.objective@) && utf8_len(c.objective@) <= 8000
            &&& is_dir && c.allowed_paths@.len() > 0 && c.ordered_steps@.len() > 0
            &&& !blank(c.base_branch@) && !blank(c.feature_branch@)
            &&& utf8_len(c.base_commit@) >= 7 && !blank(c.expected_origin@)
            &&& !c.git_policy.force_push && !c.git_policy.modify_main
            &&& !c.provider_policy.allow_paid_fallback && !c.provider_policy.allow_cloud_fallback
            &&& c.provider_policy.primary_provider@ == "codex-cli"@
            &&& c.provider_policy.routine_provider@ == "ollama"@
            &&& c.autonomy_lease.issued_at_unix < c.autonomy_lease.expires_at_unix
            &&& c.autonomy_lease.maximum_total_elapsed_seconds > 0
            &&& c.autonomy_lease.maximum_provider_turns > 0
            &&& c.autonomy_lease.maximum_tool_calls > 0
            &&& c.autonomy_lease.maximum_repair_cycles > 0
            &&& c.allowed_command_profiles@.len() > 0
            &&& forall|i: int, j: int|
                0 <= i < j < c.allowed_command_profiles@.len() ==> #[trigger] c.allowed_command_profiles@[i]
                    != #[trigger] c.allowed_command_profiles@[j]
        },
{
    let profiles = c.allowed_command_profiles@;
    if forall|i: int, j: int|
        0 <= i < j < profiles.len() ==> #[trigger] profiles[i] != #[trigger] profiles[j] {
        assert forall|i: int, j: int|
            0 <= i < profiles.len() && 0 <= j < profiles.len() && i != j implies profiles[i]
            != profiles[j] by {
            if j < i {
                assert(profiles[j] != profiles[i]);
            }
        }
        assert(profiles.no_duplicates());
    }
}

proof fn lemma_paths_problem(paths: Seq<ResolvedPath>, label: Seq<char>, directory: bool, from: int)
    requires
        0 <= from <= paths.len(),
    ensures
        paths_problem(paths, label, directory, from) is None <==> forall|i: int|
            from <= i < paths.len() ==> (#[trigger] paths[i]) is Resolved,
    decreases paths.len() - from,
{
    if from < paths.len() {
        lemma_paths_problem(paths, label, directory, from + 1);
        if paths_problem(paths, label, directory, from) is None {
            assert forall|i: int| from <= i < paths.len() implies (#[trigger] paths[i]) is Resolved by {}
        }
    }
}

/// A contract comes into force exactly where it is accepted, its workspace and its paths
/// can be found, and what it allows lies in the workspace.
pub proof fn lemma_engine_accepts(
    contract: AutonomousDevelopmentContractV1,
    workspace: ResolvedPath,
    allowed: Seq<ResolvedPath>,
    forbidden: Seq<ResolvedPath>,
)
    ensures
        engine_refusal(contract, workspace, allowed, forbidden) is None <==> {
            &&& autonomous_refusal(contract, true) is None
            &&& workspace is Resolved
            &&& forall|i: int| 0 <= i < allowed.len() ==> (#[trigger] allowed[i]) is Resolved
            &&& forall|i: int| 0 <= i < forbidden.len() ==> (#[trigger] forbidden[i]) is Resolved
            &&& forall|i: int|
                0 <= i < allowed.len() ==> lies_in(
                    components(#[trigger] allowed[i]),
                    components(workspace),
                )
        },
{
    lemma_paths_problem(allowed, "allowed path"@, true, 0);
    lemma_paths_problem(forbidden, "forbidden path"@, false, 0);
    let list = component_list(allowed);
    if all_lie_in(list, components(workspace)) {
        assert forall|i: int| 0 <= i < allowed.len() implies lies_in(
            components(#[trigger] allowed[i]),
            components(workspace),
        ) by {
            assert(list[i] == components(allowed[i]));
        }
    }
}

/// A run is over in three states.
pub proof fn lemma_runs_that_are_over(state: RunState)
    ensures
        is_terminal_state(state) <==> (state is CompletedVerified || state is Failed || state is Cancelled),
{
}

/// A feature branch is accepted exactly where its name could stand in a Git reference.
pub proof fn lemma_branch_accepted(branch: Seq<char>)
    ensures
        branch_refusal(branch) is None <==> {
            let name = trimmed(branch);
            &&& name.len() > 0
            &&& name[0] != '-'
            &&& name[name.len() - 1] != '/'
            &&& !has_text(name, ".."@)
            &&& !has_text(name, "//"@)
            &&& forall|i: int|
                0 <= i < name.len() ==> {
                    let c = #[trigger] name[i];
                    ('a' <= c && c <= 'z') || ('A' <= c && c <= 'Z') || ('0' <= c && c <= '9') || c
                        == '/' || c == '-' || c == '_' || c == '.'
                }
        },
{
    let name = trimmed(branch);
    assert forall|i: int| 0 <= i < name.len() implies (is_branch_char(#[trigger] name[i]) <==> {
        let c = name[i];
        ('a' <= c && c <= 'z') || ('A' <= c && c <= 'Z') || ('0' <= c && c <= '9') || c == '/' || c
            == '-' || c == '_' || c == '.'
    }) by {}
}

/// A path of a contract is accepted exactly where it is short, relative and without steps
/// back, and, unless it is only to be forbidden, not the store of Git.
pub proof fn lemma_contract_path_accepted(path: Seq<char>, protected_allowed: bool)
    ensures
        path_refusal(path, protected_allowed) is None <==> {
            let inner = trimmed(path);
            let parts = split_at_either(inner, '/', '\\');
            &&& 0 < inner.len() && utf8_len(inner) <= 260
            &&& inner[0] != '-' && inner[0] != '/' && inner[0] != '\\'
            &&& !has_char(inner, ':') && !has_char(inner, '\0')
            &&& forall|i: int|
                0 <= i < parts.len() ==> (#[trigger] parts[i]).len() > 0 && parts[i] != "."@
                    && parts[i] != ".."@
            &&& protected_allowed || {
                let plain = lowered(with_replaced(inner, '\\', '/'));
                plain != ".git"@ && !begins_with(plain, ".git/"@)
            }
        },
        path_refusal(path, false) is None ==> path_refusal(path, true) is None,
{
    reveal_strlit("");
    let inner = trimmed(path);
    let parts = split_at_either(inner, '/', '\\');
    assert forall|i: int| 0 <= i < parts.len() implies (is_loose_component(#[trigger] parts[i])
        <==> parts[i].len() == 0 || parts[i] == "."@ || parts[i] == ".."@) by {
        if parts[i].len() == 0 {
            assert(parts[i] =~= ""@);
        }
    }
}

proof fn lemma_contract_paths(paths: Seq<String>, from: int, protected_allowed: bool)
    requires
        0 <= from <= paths.len(),
    ensures
        crate::contracts::paths_refusal(paths, from, protected_allowed) is None <==> forall|i: int|
            from <= i < paths.len() ==> path_refusal((#[trigger] paths[i])@, protected_allowed) is None,
    decreases paths.len() - from,
{
    if from < paths.len() {
        lemma_contract_paths(paths, from + 1, protected_allowed);
    }
}

/// Whether a list is filled: there is something in it, and nothing in it is blank.
pub open spec fn says_something(list: Seq<String>) -> bool {
    list.len() > 0 && forall|i: int| 0 <= i < list.len() ==> !blank((#[trigger] list[i])@)
}

proof fn lemma_filled(list: Seq<String>)
    ensures
        filled_list(texts(list)) <==> says_something(list),
{
    let t = texts(list);
    assert(t.len() == list.len());
    assert forall|i: int| 0 <= i < list.len() implies t[i] == (#[trigger] list[i])@ by {}
    if filled_list(t) {
        assert forall|i: int| 0 <= i < list.len() implies !blank((#[trigger] list[i])@) by {
            assert(!blank(t[i]));
        }
    }
    if says_something(list) {
        assert forall|i: int| 0 <= i < t.len() implies !blank(#[trigger] t[i]) by {
            assert(!blank(list[i]@));
        }
    }
}

/// An execution contract is accepted exactly where every one of these holds of it.
pub proof fn lemma_execution_contract_accepted(c: ExecutionContractV1)
    ensures
        c.refusal() is None <==> {
            &&& c.schema_version == 1
            &&& !blank(c.task_id@)
            &&& !blank(c.objective@) && utf8_len(c.objective@) <= 8000
            &&& !blank(c.workspace@)
            &&& branch_refusal(c.feature_branch@) is None
            &&& says_something(c.allowed_paths@)
            &&& says_something(c.allowed_command_profiles@)
            &&& says_something(c.ordered_steps@)
            &&& says_something(c.acceptance_criteria@)
            &&& !blank(c.verification_profile@)
            &&& c.retry_budget > 0 && c.max_turns > 0 && c.max_tool_calls > 0
            &&& c.max_elapsed_seconds > 0
            &&& !blank(c.provider_policy.primary_provider_id@)
            &&& !blank(c.provider_policy.primary_model_id@)
            &&& forall|i: int|
                0 <= i < c.provider_policy.fallback_provider_ids@.len() ==> !blank(
                    (#[trigger] c.provider_policy.fallback_provider_ids@[i])@,
                )
            &&& forall|i: int|
                0 <= i < c.allowed_paths@.len() ==> path_refusal(
                    (#[trigger] c.allowed_paths@[i])@,
                    false,
                ) is None
            &&& forall|i: int|
                0 <= i < c.forbidden_paths@.len() ==> path_refusal(
                    (#[trigger] c.forbidden_paths@[i])@,
                    true,
                ) is None
        },
{
    lemma_filled(c.allowed_paths@);
    lemma_filled(c.allowed_command_profiles@);
    lemma_filled(c.ordered_steps@);
    lemma_filled(c.acceptance_criteria@);
    lemma_contract_paths(c.allowed_paths@, 0, false);
    lemma_contract_paths(c.forbidden_paths@, 0, true);
    let ids = c.provider_policy.fallback_provider_ids@;
    let t = texts(ids);
    assert forall|i: int| 0 <= i < ids.len() implies t[i] == (#[trigger] ids[i])@ by {}
    if exists|i: int| 0 <= i < ids.len() && blank(#[trigger] t[i]) {
        let i = choose|i: int| 0 <= i < ids.len() && blank(#[trigger] t[i]);
        assert(blank(ids[i]@));
    }
    if exists|i: int| 0 <= i < ids.len() && blank((#[trigger] ids[i])@) {
        let i = choose|i: int| 0 <= i < ids.len() && blank((#[trigger] ids[i])@);
        assert(blank(t[i]));
    }
}

/// A supervisor's decision settles a request for approval exactly where it is about this
/// request, the request is open, and neither has expired.
pub proof fn lemma_decision_settles(
    request: ApprovalRequestV1,
    decision: SupervisorDecisionV1,
    current_sequence: u64,
)
    ensures
        request.refusal(decision, current_sequence) is None <==> {
            &&& decision.schema_version == 1
            &&& decision.run_id@ == request.run_id@
            &&& decision.approval_id is Some
            &&& decision.approval_id->0@ == request.approval_id@
            &&& decision.request_hash@ == request.request_hash@
            &&& !request.consumed
            &&& current_sequence <= request.expires_at_sequence
            &&& current_sequence <= decision.expires_at_sequence
        },
{
}

} // verus!
