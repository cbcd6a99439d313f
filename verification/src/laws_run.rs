//! What delegated runs promise: which paths lie in a contract's scope, what opens the
//! completion gate, which tools may be called, and how the log, the budgets and the
//! context of a run are kept.

use vstd::prelude::*;
use vstd::string::*;
use crate::advisor::BoundedSourceExcerptV1;
use crate::context::{
    ContextBudgetPolicyV1, ContextItemV1, ProviderContextLimitsV1, bad_range, can_cut, cut,
    discloses, exceeds_provider, leaves_workspace, token_estimate, total_byte_count,
    total_token_count,
};
use crate::contracts::{ExecutionContractV1, FinalRunResultV1};
use crate::coordinator::{RunBudgetUsageV1, VerificationSummaryV1, review_refusal};
use crate::events::{
    EventCursor, EventEnvelopeV1, append_refusal, is_behind, page, sequence_less,
};
use crate::integrated::{
    EventStepV1, IntegratedDelegatedService, IntegratedError, criteria_refusal,
    criterion_refusal, gate_is_open, has_tool, is_event_step, is_in_scope, is_over_time,
    is_worker_tool, latest_unapplied, lies_under, required_action, stripped, stripped_end,
    stripped_start, tool_from, unapplied_upto, unknown_from, was_applied,
};
use crate::integrated_tools::{
    call_problem, gates_mutation, is_contained_name, is_loose_part, is_of_other, kind_of,
    policy_problem, remembers, verify_limit, without_source,
};
use crate::job_manager::{CwdCheck, JobExit, JobRecordV1, JobSpecV1, spec_refusal, window_at};
use crate::journal::{
    DelegatedJournal, PatchApplicationRecordV1, PatchProposalRecordV1, RunJournalV1,
    ToolCallRecordV1, ToolCallStatus, ToolMutationKind, is_tool_step, proposal_refusal,
};
use crate::laws_text::lemma_begins_with;
use crate::patching::ActualDiffArtifactV1;
use crate::provider::{NormalizedProviderEventV1, NormalizedToolCallV1, ToolDefinitionV1};
use crate::sorting::{inserted, lemma_sorted_len, sorted};
use crate::text::{
    begins_with, blank, fitting, has_char, is_white, joined, lemma_fitting, lowered,
    split_at_either, texts, utf8_len, with_replaced, words,
};

verus! {

// ---------------------------------------------------------------------------
// Paths

proof fn lemma_stripped_same(s: Seq<char>, c: char)
    requires
        s.len() > 0 ==> s[0] != c && s.last() != c,
    ensures
        stripped(s, c) == s,
{
}

proof fn lemma_stripped_end_shape(s: Seq<char>, c: char)
    ensures
        stripped_end(s, c).len() <= s.len(),
        stripped_end(s, c) == s.take(stripped_end(s, c).len() as int),
        forall|i: int| stripped_end(s, c).len() <= i < s.len() ==> #[trigger] s[i] == c,
        stripped_end(s, c).len() > 0 ==> stripped_end(s, c).last() != c,
    decreases s.len(),
{
    if s.len() > 0 && s.last() == c {
        lemma_stripped_end_shape(s.drop_last(), c);
        let n = stripped_end(s, c).len() as int;
        assert(s.drop_last().take(n) =~= s.take(n));
        assert forall|i: int| n <= i < s.len() implies #[trigger] s[i] == c by {
            if i < s.len() - 1 {
                assert(s.drop_last()[i] == s[i]);
            }
        }
    } else {
        assert(s.take(s.len() as int) =~= s);
    }
}

proof fn lemma_stripped_start_shape(s: Seq<char>, c: char)
    ensures
        stripped_start(s, c).len() <= s.len(),
        stripped_start(s, c) == s.skip(s.len() - stripped_start(s, c).len()),
        forall|i: int| 0 <= i < s.len() - stripped_start(s, c).len() ==> #[trigger] s[i] == c,
        stripped_start(s, c).len() > 0 ==> stripped_start(s, c)[0] != c,
    decreases s.len(),
{
    if s.len() > 0 && s[0] == c {
        let rest = s.drop_first();
        lemma_stripped_start_shape(rest, c);
        let n = s.len() - stripped_start(s, c).len();
        assert(s.skip(n) =~= rest.skip(n - 1));
        assert forall|i: int| 0 <= i < n implies #[trigger] s[i] == c by {
            if i > 0 {
                assert(rest[i - 1] == s[i]);
            }
        }
    } else {
        assert(s.skip(0) =~= s);
    }
}

/// Stripping takes a character off both ends of a text, as often as it stands there, and
/// nothing else.
pub proof fn lemma_stripped_middle(s: Seq<char>, c: char)
    ensures
        exists|a: Seq<char>, b: Seq<char>|
            s == #[trigger] (a + stripped(s, c) + b) && (forall|i: int|
                0 <= i < a.len() ==> #[trigger] a[i] == c) && (forall|i: int|
                0 <= i < b.len() ==> #[trigger] b[i] == c),
        stripped(s, c).len() > 0 ==> stripped(s, c)[0] != c && stripped(s, c).last() != c,
{
    lemma_stripped_start_shape(s, c);
    let m = stripped_start(s, c);
    lemma_stripped_end_shape(m, c);
    let t = stripped(s, c);
    let a = s.take(s.len() - m.len());
    let b = m.skip(t.len() as int);
    assert(s =~= a + t + b);
    assert forall|i: int| 0 <= i < b.len() implies #[trigger] b[i] == c by {
        assert(b[i] == m[t.len() + i]);
    }
    if t.len() > 0 {
        assert(t[0] == m[0]);
    }
}

/// A path lies under a contract's path exactly where it is that path, or where it goes on
/// from it behind a separator, however deep. Both are written with plain separators here,
/// and the contract's path with none at its ends.
pub proof fn lemma_lies_under(path: Seq<char>, scope: Seq<char>)
    requires
        !has_char(path, '\\'),
        !has_char(scope, '\\'),
        scope.len() > 0 ==> scope[0] != '/' && scope.last() != '/',
    ensures
        lies_under(path, scope) <==> path == scope || exists|rest: Seq<char>|
            path == #[trigger] (scope + "/"@ + rest),
{
    lemma_stripped_same(scope, '/');
    assert(with_replaced(path, '\\', '/') =~= path);
    assert(with_replaced(scope, '\\', '/') =~= scope);
    lemma_begins_with(path, scope + "/"@);
}

/// What lies under a contract's path stays under it at any depth.
pub proof fn lemma_lies_under_deeper(path: Seq<char>, scope: Seq<char>, rest: Seq<char>)
    requires
        lies_under(path, scope),
    ensures
        lies_under(path + "/"@ + rest, scope),
{
    reveal_strlit("/");
    let deeper = path + "/"@ + rest;
    let p = with_replaced(path, '\\', '/');
    let q = with_replaced(deeper, '\\', '/');
    let s = with_replaced(stripped(scope, '/'), '\\', '/');
    let head = s + "/"@;
    assert(q.take(p.len() as int) =~= p);
    assert(q[p.len() as int] == '/');
    if p == s {
        assert(q.take(head.len() as int) =~= head);
    } else {
        assert(q.take(head.len() as int) =~= p.take(head.len() as int));
    }
}

/// Both kinds of separator count alike, and separators around a contract's path do not
/// count.
pub proof fn lemma_separators_count_alike(path: Seq<char>, scope: Seq<char>)
    ensures
        lies_under(path, scope) == lies_under(with_replaced(path, '\\', '/'), scope),
        lies_under(path, scope) == lies_under(path, stripped(scope, '/')),
        lies_under(with_replaced(stripped(scope, '/'), '\\', '/'), scope),
{
    let p = with_replaced(path, '\\', '/');
    assert(with_replaced(p, '\\', '/') =~= p);
    lemma_stripped_middle(scope, '/');
    lemma_stripped_same(stripped(scope, '/'), '/');
    let s = with_replaced(stripped(scope, '/'), '\\', '/');
    assert(with_replaced(s, '\\', '/') =~= s);
}

/// A name that only begins like a contract's path does not lie under it.
pub proof fn lemma_a_longer_name_is_another(scope: Seq<char>, c: char, rest: Seq<char>)
    requires
        c != '/',
        c != '\\',
        !has_char(scope, '\\'),
        scope.len() > 0 ==> scope[0] != '/' && scope.last() != '/',
    ensures
        !lies_under(scope.push(c) + rest, scope),
{
    reveal_strlit("/");
    lemma_stripped_same(scope, '/');
    assert(with_replaced(scope, '\\', '/') =~= scope);
    let p = with_replaced(scope.push(c) + rest, '\\', '/');
    let head = scope + "/"@;
    assert(p[scope.len() as int] == c);
    assert(p.len() > scope.len());
    if begins_with(p, head) {
        assert(p.take(head.len() as int)[scope.len() as int] == head[scope.len() as int]);
    }
}

/// A path is in a contract's scope exactly where it lies under an allowed path and under
/// no forbidden one.
pub proof fn lemma_scope(contract: ExecutionContractV1, path: Seq<char>)
    requires
        !has_char(path, '\\'),
    ensures
        is_in_scope(contract, path) <==> (exists|i: int|
            0 <= i < contract.allowed_paths@.len() && lies_under(
                path,
                (#[trigger] contract.allowed_paths@[i])@,
            )) && (forall|i: int|
            0 <= i < contract.forbidden_paths@.len() ==> !lies_under(
                path,
                (#[trigger] contract.forbidden_paths@[i])@,
            )),
{
    assert(with_replaced(path, '\\', '/') =~= path);
}

/// The changes of a diff are accepted exactly where every changed path is in scope.
pub proof fn lemma_diff_paths_accepted(contract: ExecutionContractV1, paths: Seq<String>, from: int)
    requires
        0 <= from <= paths.len(),
    ensures
        crate::integrated::paths_refusal(contract, paths, from) is None <==> forall|i: int|
            from <= i < paths.len() ==> is_in_scope(contract, (#[trigger] paths[i])@),
    decreases paths.len() - from,
{
    if from < paths.len() {
        lemma_diff_paths_accepted(contract, paths, from + 1);
    }
}

// ---------------------------------------------------------------------------
// The completion gate

/// An acceptance criterion is met only if it is one of those that can be checked, and its
/// evidence is there: a verification that passed, or a diff that is not blank.
pub proof fn lemma_criterion_met(
    criterion: Seq<char>,
    verification: VerificationSummaryV1,
    diff: ActualDiffArtifactV1,
)
    ensures
        criterion_refusal(criterion, verification, diff) is None <==> {
            let n = lowered(joined(words(criterion), " "@));
            ||| (n == "cargo tests pass"@ || n == "cargo verification passes"@ || n
                == "verification passes"@) && verification.status is Passed
            ||| n == "authoritative diff is captured"@ && exists|i: int|
                0 <= i < diff.diff@.len() && !is_white(#[trigger] diff.diff@[i])
        },
{
    reveal_strlit("cargo tests pass");
    reveal_strlit("cargo verification passes");
    reveal_strlit("verification passes");
    reveal_strlit("authoritative diff is captured");
    assert("cargo tests pass"@.len() == 16);
    assert("cargo verification passes"@.len() == 25);
    assert("verification passes"@.len() == 19);
    assert("authoritative diff is captured"@.len() == 30);
}

proof fn lemma_criteria_met(
    criteria: Seq<String>,
    verification: VerificationSummaryV1,
    diff: ActualDiffArtifactV1,
    from: int,
)
    requires
        0 <= from <= criteria.len(),
    ensures
        criteria_refusal(criteria, verification, diff, from) is None <==> forall|i: int|
            from <= i < criteria.len() ==> criterion_refusal(
                (#[trigger] criteria[i])@,
                verification,
                diff,
            ) is None,
    decreases criteria.len() - from,
{
    if from < criteria.len() {
        lemma_criteria_met(criteria, verification, diff, from + 1);
    }
}

proof fn lemma_unknown_from(calls: Seq<ToolCallRecordV1>, from: int)
    requires
        0 <= from <= calls.len(),
    ensures
        from <= unknown_from(calls, from) <= calls.len(),
        unknown_from(calls, from) == calls.len() <==> forall|i: int|
            from <= i < calls.len() ==> !((#[trigger] calls[i]).status is OutcomeUnknown),
    decreases calls.len() - from,
{
    if from < calls.len() && calls[from].status != ToolCallStatus::OutcomeUnknown {
        lemma_unknown_from(calls, from + 1);
    }
}

/// The completion gate opens exactly where verification passed, a diff was captured, the
/// claim was confirmed, every criterion is met, every changed path is in scope, and no
/// tool call has an unknown outcome.
pub proof fn lemma_gate(service: IntegratedDelegatedService, run: RunJournalV1, claim_holds: bool)
    ensures
        gate_is_open(service, run, claim_holds) <==> {
            &&& service.last_verification is Some
            &&& service.last_verification->0.status is Passed
            &&& service.last_diff is Some
            &&& claim_holds
            &&& forall|i: int|
                0 <= i < service.contract.acceptance_criteria@.len() ==> criterion_refusal(
                    (#[trigger] service.contract.acceptance_criteria@[i])@,
                    service.last_verification->0,
                    service.last_diff->0,
                ) is None
            &&& forall|i: int|
                0 <= i < service.last_diff->0.paths@.len() ==> is_in_scope(
                    service.contract,
                    (#[trigger] service.last_diff->0.paths@[i])@,
                )
            &&& forall|i: int|
                0 <= i < run.tool_calls@.len() ==> !((
                #[trigger] run.tool_calls@[i]).status is OutcomeUnknown)
        },
{
    if service.last_verification is Some && service.last_diff is Some {
        lemma_criteria_met(
            service.contract.acceptance_criteria@,
            service.last_verification->0,
            service.last_diff->0,
            0,
        );
        lemma_diff_paths_accepted(service.contract, service.last_diff->0.paths@, 0);
    }
    lemma_unknown_from(run.tool_calls@, 0);
}

/// Whatever event a provider sends: a run becomes complete only by a claim of completion
/// against which nothing stands, and such a claim is let through.
pub proof fn lemma_only_a_claim_completes(
    before: IntegratedDelegatedService,
    after: IntegratedDelegatedService,
    old_journal: DelegatedJournal,
    new_journal: DelegatedJournal,
    turn: u32,
    event: NormalizedProviderEventV1,
    claim: Result<(), String>,
    stop_reason: Option<Seq<char>>,
    prompt_eval_count: Option<u64>,
    r: Result<EventStepV1, IntegratedError>,
)
    requires
        is_event_step(
            before,
            after,
            old_journal,
            new_journal,
            turn,
            event,
            claim,
            stop_reason,
            prompt_eval_count,
            r,
        ),
    ensures
        r is Ok && r->Ok_0 is Complete <==> event.kind is CompletionClaim && gate_is_open(
            before,
            old_journal.run(before.run_id@),
            claim is Ok,
        ),
{
}

proof fn lemma_unapplied_upto(
    proposals: Seq<PatchProposalRecordV1>,
    applications: Seq<PatchApplicationRecordV1>,
    n: int,
)
    requires
        0 <= n <= proposals.len(),
    ensures
        match unapplied_upto(proposals, applications, n) {
            None => forall|i: int|
                0 <= i < n ==> was_applied(applications, (#[trigger] proposals[i]).patch_id@),
            Some(id) => exists|k: int|
                0 <= k < n && (#[trigger] proposals[k]).patch_id@ == id && !was_applied(
                    applications,
                    id,
                ) && forall|i: int|
                    k < i < n ==> was_applied(applications, (#[trigger] proposals[i]).patch_id@),
        },
    decreases n,
{
    if n > 0 {
        if was_applied(applications, proposals[n - 1].patch_id@) {
            lemma_unapplied_upto(proposals, applications, n - 1);
        } else {
            assert(proposals[n - 1].patch_id@ == unapplied_upto(proposals, applications, n)->0);
        }
    }
}

/// The patch to apply next is the last one that was proposed and not applied.
pub proof fn lemma_latest_unapplied(run: RunJournalV1)
    ensures
        match latest_unapplied(run) {
            None => forall|i: int|
                0 <= i < run.patch_proposals@.len() ==> exists|j: int|
                    0 <= j < run.patch_applications@.len() && (
                    #[trigger] run.patch_applications@[j]).patch_id@ == (
                    #[trigger] run.patch_proposals@[i]).patch_id@,
            Some(id) => {
                &&& forall|j: int|
                    0 <= j < run.patch_applications@.len() ==> (
                    #[trigger] run.patch_applications@[j]).patch_id@ != id
                &&& exists|k: int|
                    0 <= k < run.patch_proposals@.len() && (
                    #[trigger] run.patch_proposals@[k]).patch_id@ == id && forall|i: int|
                        k < i < run.patch_proposals@.len() ==> was_applied(
                            run.patch_applications@,
                            (#[trigger] run.patch_proposals@[i]).patch_id@,
                        )
            },
        },
{
    let proposals = run.patch_proposals@;
    let applications = run.patch_applications@;
    lemma_unapplied_upto(proposals, applications, proposals.len() as int);
    if latest_unapplied(run) is None {
        assert forall|i: int| 0 <= i < proposals.len() implies exists|j: int|
            0 <= j < applications.len() && (#[trigger] applications[j]).patch_id@ == (
            #[trigger] proposals[i]).patch_id@ by {
            assert(was_applied(applications, proposals[i].patch_id@));
        }
    }
}

/// Nothing is left for the worker to do exactly where no patch waits, verification passed
/// and the diff was captured.
pub proof fn lemma_nothing_left_to_do(
    run: RunJournalV1,
    last: Option<VerificationSummaryV1>,
    has_diff: bool,
)
    ensures
        required_action(run, last, has_diff) is None <==> latest_unapplied(run) is None
            && last is Some && last->0.status is Passed && has_diff,
{
}

// ---------------------------------------------------------------------------
// Tools

/// A tool is called only within the budget, only if the worker was given it and it is not
/// a job tool, and one that changes something only if no approval is asked for it.
pub proof fn lemma_tool_policy(
    service: IntegratedDelegatedService,
    name: Seq<char>,
    kind: ToolMutationKind,
)
    ensures
        policy_problem(service, name, kind) is None <==> {
            &&& service.completed_tool_calls < service.contract.max_tool_calls
            &&& !begins_with(name, "job."@)
            &&& exists|i: int|
                0 <= i < service.tools@.len() && (#[trigger] service.tools@[i]).name@ == name
            &&& kind is Mutating ==> forall|i: int|
                0 <= i < service.contract.approval_requirements@.len() ==> !({
                    let asked = #[trigger] service.contract.approval_requirements@[i];
                    asked.required && (asked.kind is ToolException || asked.kind is UnrestrictedShell)
                })
        },
{
    let tools = service.tools@;
    let shown = tools.filter(is_worker_tool());
    tools.filter_lemma(is_worker_tool());
    if has_tool(shown, name) {
        let i = choose|i: int| 0 <= i < shown.len() && (#[trigger] shown[i]).name@ == name;
        assert(is_worker_tool()(shown[i]));
        assert(shown.contains(shown[i]));
        assert(tools.contains(shown[i])) by {
            tools.lemma_filter_contains_rev(is_worker_tool(), shown[i]);
        }
        let j = choose|j: int| 0 <= j < tools.len() && tools[j] == shown[i];
        assert(tools[j].name@ == name);
    }
    if !begins_with(name, "job."@) && exists|i: int|
        0 <= i < tools.len() && (#[trigger] tools[i]).name@ == name {
        let i = choose|i: int| 0 <= i < tools.len() && (#[trigger] tools[i]).name@ == name;
        assert(is_worker_tool()(tools[i]));
        assert(shown.contains(tools[i]));
        let j = choose|j: int| 0 <= j < shown.len() && shown[j] == tools[i];
        assert(shown[j].name@ == name);
    }
    let asked = service.contract.approval_requirements@;
    assert forall|i: int| 0 <= i < asked.len() implies (gates_mutation(#[trigger] asked[i]) <==> (
    asked[i].required && (asked[i].kind is ToolException || asked[i].kind is UnrestrictedShell))) by {}
}

/// A tool that the worker was not given counts as one that changes something.
pub proof fn lemma_unknown_tools_are_mutating(service: IntegratedDelegatedService, name: Seq<char>)
    requires
        !has_tool(service.tools@.filter(is_worker_tool()), name),
    ensures
        kind_of(service, name) is Mutating,
{
    let tools = service.tools@.filter(is_worker_tool());
    lemma_no_tool_from(tools, name, 0);
}

proof fn lemma_no_tool_from(tools: Seq<ToolDefinitionV1>, name: Seq<char>, from: int)
    requires
        0 <= from,
        !has_tool(tools, name),
    ensures
        tool_from(tools, name, from) >= tools.len(),
    decreases tools.len() - from,
{
    if from < tools.len() {
        lemma_no_tool_from(tools, name, from + 1);
    }
}

/// A call is made only if none of its name was completed before, and the policy allows it.
pub proof fn lemma_calls_made(service: IntegratedDelegatedService, call: NormalizedToolCallV1)
    ensures
        call_problem(service, call) is None <==> {
            &&& forall|i: int|
                0 <= i < service.completed_tool_call_ids@.len() ==> (
                #[trigger] service.completed_tool_call_ids@[i])@ != call.tool_call_id@
            &&& policy_problem(service, call.tool_name@, kind_of(service, call.tool_name@)) is None
        },
{
    let ids = service.completed_tool_call_ids@;
    let t = texts(ids);
    let id = call.tool_call_id@;
    if t.contains(id) {
        let i = choose|i: int| 0 <= i < t.len() && t[i] == id;
        assert(ids[i]@ == id);
    }
    if exists|i: int| 0 <= i < ids.len() && (#[trigger] ids[i])@ == id {
        let i = choose|i: int| 0 <= i < ids.len() && (#[trigger] ids[i])@ == id;
        assert(t[i] == id);
    }
}

/// A tool call goes on only along these steps; what is completed, has failed or has an
/// unknown outcome goes on no more.
pub proof fn lemma_tool_call_steps(from: ToolCallStatus, to: ToolCallStatus)
    ensures
        is_tool_step(from, to) <==> {
            ||| to is PolicyAllowed && from is Requested
            ||| to is ApprovalRequired && (from is Requested || from is PolicyAllowed)
            ||| to is Approved && from is ApprovalRequired
            ||| to is Executing && (from is PolicyAllowed || from is Approved)
            ||| to is Completed && from is Executing
            ||| to is OutcomeUnknown && from is Executing
            ||| to is Failed && !(from is Completed || from is Failed || from is OutcomeUnknown)
        },
{
}

/// A limit for a verification is kept between half a minute and five minutes; without one
/// it is two minutes.
pub proof fn lemma_verify_limit(asked: Option<u64>)
    ensures
        30_000 <= verify_limit(asked) <= 300_000,
        asked is None ==> verify_limit(asked) == 120_000,
        asked is Some && 30_000 <= asked->0 && asked->0 <= 300_000 ==> verify_limit(asked)
            == asked->0,
        asked is Some && asked->0 > 300_000 ==> verify_limit(asked) == 300_000,
        asked is Some && asked->0 < 30_000 ==> verify_limit(asked) == 30_000,
{
}

/// A name stays within a directory exactly where it has no drive and no step that is
/// empty, stays or goes back.
pub proof fn lemma_contained_names(value: Seq<char>)
    ensures
        is_contained_name(value) <==> !has_char(value, ':') && forall|i: int|
            0 <= i < split_at_either(value, '/', '\\').len() ==> {
                let part = #[trigger] split_at_either(value, '/', '\\')[i];
                part.len() > 0 && part != "."@ && part != ".."@
            },
{
    let parts = split_at_either(value, '/', '\\');
    assert forall|i: int| 0 <= i < parts.len() implies (is_loose_part(#[trigger] parts[i])
        <==> parts[i].len() == 0 || parts[i] == "."@ || parts[i] == ".."@) by {
        if parts[i].len() == 0 {
            assert(parts[i] =~= Seq::<char>::empty());
        }
    }
}

/// A patch can be proposed exactly where none of its name was, and its parent was.
pub proof fn lemma_proposals_accepted(
    proposals: Seq<PatchProposalRecordV1>,
    proposal: PatchProposalRecordV1,
)
    ensures
        proposal_refusal(proposals, proposal) is None <==> {
            &&& forall|i: int|
                0 <= i < proposals.len() ==> (#[trigger] proposals[i]).patch_id@
                    != proposal.patch_id@
            &&& proposal.parent_patch_id is Some ==> exists|i: int|
                0 <= i < proposals.len() && (#[trigger] proposals[i]).patch_id@
                    == proposal.parent_patch_id->0@
        },
{
}

/// At most three files that were read are remembered, each once, and the last one read is
/// among them.
pub proof fn lemma_remembered_files(
    before: Seq<BoundedSourceExcerptV1>,
    after: Seq<BoundedSourceExcerptV1>,
    source: Seq<char>,
    content: Seq<char>,
    i: int,
)
    requires
        remembers(before, after, source, content),
        0 <= i < after.len() - 1,
    ensures
        after.len() <= 3,
        after.last().source@ == source,
        after[i].source@ != source,
        before.contains(after[i]),
{
    let others = without_source(before, source);
    before.filter_lemma(is_of_other(source));
    let k = i + others.len() - (after.len() - 1);
    assert(after.drop_last()[i] == others[k]);
    assert(is_of_other(source)(others[k]));
    assert(others.contains(others[k]));
    before.lemma_filter_contains_rev(is_of_other(source), others[k]);
}

// ---------------------------------------------------------------------------
// The log and the budgets

/// An event is appended exactly where it is sound and carries the number behind the last.
pub proof fn lemma_appended_events(last: Option<u64>, event: EventEnvelopeV1)
    ensures
        append_refusal(last, event) is None <==> {
            &&& event.schema_version == 1
            &&& event.event_sequence > 0
            &&& !blank(event.request_hash@)
            &&& last is None ==> event.event_sequence == 1
            &&& last is Some && last->0 < u64::MAX ==> event.event_sequence == last->0 + 1
            &&& last is Some && last->0 == u64::MAX ==> event.event_sequence == u64::MAX
        },
{
}

/// Events are told in the order of their numbers, and those that come behind a number are
/// all that are told.
pub proof fn lemma_events_behind(events: Seq<EventEnvelopeV1>, cursor: EventCursor, i: int)
    requires
        0 <= i < page(events, cursor).len(),
    ensures
        page(events, cursor)[i].event_sequence > cursor.after_sequence,
        page(events, cursor).len() <= cursor.limit,
        events.contains(page(events, cursor)[i]),
{
    let behind = events.filter(is_behind(cursor.after_sequence));
    events.filter_lemma(is_behind(cursor.after_sequence));
    let all = sorted(behind, sequence_less());
    lemma_sorted_len(behind, sequence_less());
    lemma_sorted_elements(behind, i);
    assert(page(events, cursor)[i] == all[i]);
    events.lemma_filter_contains_rev(is_behind(cursor.after_sequence), all[i]);
}

/// Where fewer events are told than were asked for, none that comes behind the number is
/// missing.
pub proof fn lemma_no_event_is_missing(events: Seq<EventEnvelopeV1>, cursor: EventCursor, i: int)
    requires
        0 <= i < events.len(),
        events[i].event_sequence > cursor.after_sequence,
        page(events, cursor).len() < cursor.limit,
    ensures
        page(events, cursor).contains(events[i]),
{
    let behind = events.filter(is_behind(cursor.after_sequence));
    events.filter_lemma(is_behind(cursor.after_sequence));
    assert(is_behind(cursor.after_sequence)(events[i]));
    assert(behind.contains(events[i]));
    let k = choose|k: int| 0 <= k < behind.len() && behind[k] == events[i];
    lemma_sorted_keeps(behind, k);
}

proof fn lemma_inserted_keeps(s: Seq<EventEnvelopeV1>, x: EventEnvelopeV1, y: EventEnvelopeV1)
    requires
        y == x || s.contains(y),
    ensures
        inserted(s, x, sequence_less()).contains(y),
    decreases s.len(),
{
    let r = inserted(s, x, sequence_less());
    if s.len() == 0 || !sequence_less()(x, s.last()) {
        if y == x {
            assert(r[s.len() as int] == y);
        } else {
            let k = choose|k: int| 0 <= k < s.len() && s[k] == y;
            assert(r[k] == y);
        }
    } else {
        let head = inserted(s.drop_last(), x, sequence_less());
        if y != x && y == s.last() {
            assert(r[head.len() as int] == y);
        } else {
            if y != x {
                let k = choose|k: int| 0 <= k < s.len() && s[k] == y;
                assert(s.drop_last()[k] == y);
            }
            lemma_inserted_keeps(s.drop_last(), x, y);
            let k = choose|k: int| 0 <= k < head.len() && head[k] == y;
            assert(r[k] == y);
        }
    }
}

proof fn lemma_sorted_keeps(s: Seq<EventEnvelopeV1>, i: int)
    requires
        0 <= i < s.len(),
    ensures
        sorted(s, sequence_less()).contains(s[i]),
    decreases s.len(),
{
    let head = sorted(s.drop_last(), sequence_less());
    if i < s.len() - 1 {
        lemma_sorted_keeps(s.drop_last(), i);
        assert(s.drop_last()[i] == s[i]);
    }
    lemma_inserted_keeps(head, s.last(), s[i]);
}

proof fn lemma_inserted_elements(s: Seq<EventEnvelopeV1>, x: EventEnvelopeV1, i: int)
    requires
        0 <= i < inserted(s, x, sequence_less()).len(),
    ensures
        inserted(s, x, sequence_less())[i] == x || s.contains(inserted(s, x, sequence_less())[i]),
    decreases s.len(),
{
    let r = inserted(s, x, sequence_less());
    if s.len() == 0 || !sequence_less()(x, s.last()) {
        if i < s.len() {
            assert(r[i] == s[i]);
        }
    } else {
        let head = inserted(s.drop_last(), x, sequence_less());
        if i < head.len() {
            lemma_inserted_elements(s.drop_last(), x, i);
            assert(r[i] == head[i]);
            if s.drop_last().contains(head[i]) {
                let k = choose|k: int| 0 <= k < s.drop_last().len() && s.drop_last()[k] == head[i];
                assert(s[k] == head[i]);
            }
        } else {
            assert(r[i] == s[s.len() - 1]);
        }
    }
}

proof fn lemma_sorted_elements(s: Seq<EventEnvelopeV1>, i: int)
    requires
        0 <= i < sorted(s, sequence_less()).len(),
    ensures
        s.contains(sorted(s, sequence_less())[i]),
    decreases s.len(),
{
    if s.len() > 0 {
        let head = sorted(s.drop_last(), sequence_less());
        lemma_inserted_elements(head, s.last(), i);
        let x = sorted(s, sequence_less())[i];
        if x == s.last() {
            assert(s[s.len() - 1] == x);
        } else {
            let k = choose|k: int| 0 <= k < head.len() && head[k] == x;
            lemma_sorted_elements(s.drop_last(), k);
            let j = choose|j: int| 0 <= j < s.drop_last().len() && s.drop_last()[j] == x;
            assert(s[j] == x);
        }
    }
}

/// The budgets of a run, each with its own name.
pub proof fn lemma_run_budgets(contract: ExecutionContractV1, usage: RunBudgetUsageV1)
    ensures
        ({
            let r = crate::coordinator::exhausted_budget(contract, usage);
            let turns = usage.turns_used >= contract.max_turns;
            let calls = usage.tool_calls_used >= contract.max_tool_calls;
            let time = usage.elapsed_nanos >= contract.max_elapsed_seconds * 1_000_000_000;
            &&& r is None <==> !turns && !calls && !time
            &&& turns ==> r == Some("turn budget exhausted"@)
            &&& !turns && calls ==> r == Some("tool-call budget exhausted"@)
            &&& !turns && !calls && time ==> r == Some("elapsed-time budget exhausted"@)
        }),
{
}

/// A run is over time once more than its seconds have gone by.
pub proof fn lemma_over_time(contract: ExecutionContractV1, nanos: u128)
    ensures
        is_over_time(contract, nanos) <==> nanos > 1_000_000_000 * contract.max_elapsed_seconds,
{
}

/// A final review is made only of a run that is complete, with a verification that passed
/// and a diff that says something.
pub proof fn lemma_final_review_needs_evidence(
    result: FinalRunResultV1,
    verification: VerificationSummaryV1,
    diff: Seq<char>,
)
    ensures
        review_refusal(result, verification, diff) is None <==> verification.status is Passed
            && result.status is CompletedVerified && exists|i: int|
            0 <= i < diff.len() && !is_white(#[trigger] diff[i]),
{
}

// ---------------------------------------------------------------------------
// The context

/// Nothing goes to a provider beyond this machine unless the policy allows it, and nothing
/// that the provider cannot take.
pub proof fn lemma_context_limits(policy: ContextBudgetPolicyV1, limits: ProviderContextLimitsV1)
    ensures
        discloses(policy, limits) <==> !(limits.privacy_boundary is LocalOnly) && !(
        policy.disclosure_policy is RemoteAllowed),
        !exceeds_provider(policy, limits) <==> policy.max_bundle_bytes <= limits.max_input_bytes
            && policy.max_estimated_tokens <= limits.max_input_tokens,
{
}

/// Four bytes count as a token, a part of four as well, and nothing as one.
pub proof fn lemma_token_estimate(s: Seq<char>)
    ensures
        token_estimate(s) >= 1,
        4 * token_estimate(s) >= utf8_len(s),
        utf8_len(s) > 0 ==> 4 * (token_estimate(s) - 1) < utf8_len(s),
        utf8_len(s) == 0 ==> token_estimate(s) == 1,
{
}

/// A text is cut at its longest beginning within the limit, and marked.
pub proof fn lemma_cut_text(s: Seq<char>, max: usize)
    ensures
        exists|n: int|
            0 <= n <= s.len() && cut(s, max) == #[trigger] s.take(n) + "\n[truncated]"@ && utf8_len(
                s.take(n),
            ) <= max && (n < s.len() ==> utf8_len(s.take(n + 1)) > max),
        utf8_len(s) <= max ==> can_cut(s, max),
{
    lemma_fitting(s, max as nat);
    let n = fitting(s, max as nat) as int;
    assert(cut(s, max) == s.take(n) + "\n[truncated]"@);
}

/// A bundle's sizes are the sums over its items.
pub proof fn lemma_sums_over_items(items: Seq<ContextItemV1>, item: ContextItemV1)
    ensures
        total_byte_count(items.push(item)) == total_byte_count(items) + item.byte_count,
        total_token_count(items.push(item)) == total_token_count(items) + item.estimated_tokens,
        total_byte_count(Seq::empty()) == 0,
        total_token_count(Seq::empty()) == 0,
{
    assert(items.push(item).drop_last() =~= items);
}

/// A file excerpt is asked for in lines that are counted from one, the first not behind
/// the last.
pub proof fn lemma_excerpt_ranges(start: usize, end: usize)
    ensures
        !bad_range(start, end) <==> 1 <= start && start <= end,
{
}

/// A path leaves the workspace exactly where it is absolute, holds a zero, or has a step
/// back among its parts.
pub proof fn lemma_paths_that_leave(path: Seq<char>)
    ensures
        leaves_workspace(path) <==> {
            ||| path.len() > 0 && path[0] == '/'
            ||| exists|i: int| 0 <= i < path.len() && #[trigger] path[i] == '\0'
            ||| exists|i: int|
                0 <= i < split_at_either(path, '/', '/').len() && #[trigger] split_at_either(
                    path,
                    '/',
                    '/',
                )[i] == ".."@
        },
{
    reveal_strlit("/");
    if path.len() > 0 && path[0] == '/' {
        assert(path.take(1) =~= "/"@);
    }
    if begins_with(path, "/"@) {
        assert(path.take(1)[0] == '/');
    }
    let parts = split_at_either(path, '/', '/');
    if parts.contains(".."@) {
        let i = choose|i: int| 0 <= i < parts.len() && parts[i] == ".."@;
        assert(parts[i] == ".."@);
    }
}

// ---------------------------------------------------------------------------
// Jobs

/// A job is accepted exactly where it says what to run and as what, where it can run, and
/// how much of its output is kept.
pub proof fn lemma_jobs_accepted(job: JobSpecV1, cwd: CwdCheck)
    ensures
        spec_refusal(job, cwd) is None <==> !blank(job.command@) && !blank(job.command_profile@)
            && !(cwd is Missing) && !(cwd is NotADirectory) && job.max_log_bytes > 0,
{
}

/// A job that ended well has succeeded, one that ended otherwise has failed, and one whose
/// end nobody saw is lost.
pub proof fn lemma_ends_of_jobs(
    before: JobRecordV1,
    after: JobRecordV1,
    exit: JobExit,
    now_ms: u128,
)
    requires
        crate::job_manager::is_finished(before, after, exit, now_ms),
    ensures
        after.status is Succeeded <==> (exit matches JobExit::Exited { success, .. } && success),
        after.status is Failed <==> (exit matches JobExit::Exited { success, .. } && !success),
        after.status is Lost <==> exit is Unobserved,
        after.finished_at_ms == Some(now_ms),
        after.job_id == before.job_id,
        exit matches JobExit::Exited { code, .. } ==> after.exit_code == code,
{
}

/// A look at a log begins where it was asked to, or at the start of a log that has become
/// shorter, and takes no more than was asked for and no more than the most.
pub proof fn lemma_looks_at_logs(len: int, offset: u64, max_bytes: usize)
    ensures
        ({
            let window = window_at(len, offset, max_bytes);
            &&& window.rotated <==> offset > len
            &&& window.rotated ==> window.offset == 0
            &&& !window.rotated ==> window.offset == offset
            &&& 0 < window.limit <= 65_536
            &&& 0 < max_bytes <= 65_536 ==> window.limit == max_bytes
            &&& max_bytes == 0 ==> window.limit == 16_384
            &&& max_bytes > 65_536 ==> window.limit == 65_536
        }),
{
}

proof fn lemma_tool_from(tools: Seq<ToolDefinitionV1>, name: Seq<char>, from: int, i: int)
    requires
        0 <= from <= i < tools.len(),
        tools[i].name@ == name,
        forall|j: int| from <= j < i ==> (#[trigger] tools[j]).name@ != name,
    ensures
        tool_from(tools, name, from) == i,
    decreases i - from,
{
    if from < i {
        assert(tools[from].name@ != name);
        lemma_tool_from(tools, name, from + 1, i);
    }
}

/// A tool that a worker has does what its first definition says.
pub proof fn lemma_kinds_of_tools(service: IntegratedDelegatedService, name: Seq<char>, i: int)
    requires
        0 <= i < service.tools@.filter(is_worker_tool()).len(),
        service.tools@.filter(is_worker_tool())[i].name@ == name,
        forall|j: int|
            0 <= j < i ==> (#[trigger] service.tools@.filter(is_worker_tool())[j]).name@ != name,
    ensures
        kind_of(service, name) == service.tools@.filter(is_worker_tool())[i].mutation_kind,
{
    lemma_tool_from(service.tools@.filter(is_worker_tool()), name, 0, i);
}

} // verus!
