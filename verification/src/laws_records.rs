//! What records promise: how they are written down, found again, counted and bounded.

use vstd::prelude::*;
use vstd::string::*;
use vstd::utf8::*;
use crate::autonomous_contract::{ResolvedPath, path_problem};
use crate::autonomy_verifier::{diff_arguments, review_of};
use crate::codex_cli::bounded_redacted;
use crate::context::{
    CheckpointSummaryV1, ContextBudgetPolicyV1, ContextBuilderV1, ContextBundleV1, ContextClass,
    ContextItemKind, ContextItemV1, InstructionFileV1, carried, compaction_too_large,
    contract_summary, existing, inspection_entry, instruction_path_list, is_capped,
    is_compact_bundle, is_inline, is_instruction, is_reference, numbered_lines, shown_output,
    total_byte_count, total_token_count, within_budget,
};
use crate::contracts::{ApprovalRequirementV1, ExecutionContractV1, is_terminal_state};
use crate::coordinator::{approval_kind_name, approval_line, required_approvals};
use crate::events::next_sequence;
use crate::hash::{fingerprint, fnv1a64};
use crate::job_manager::{JobRecordV1, JobStatus, LogWindow, piece_of, poll_limit, running};
use crate::journal::{
    DelegatedJournal, RunJournalV1, RunSnapshotV1, active_snapshots, artifact_reference,
    last_sequence, record_lines, run_from, run_segment, segment_char,
};
use crate::json::{
    JsonView, array, as_elements, as_number, as_text, as_truth, field, json_parsed, json_string,
    object, optional_string, truth,
};
use crate::laws_text::{lemma_has_text_within, lemma_shortened};
use crate::redaction::{
    API_KEY_VALUE, ASSIGNED_SECRET, BEARER_TOKEN, NAMED_SECRET, PASSWORD_VALUE, PREFIXED_TOKEN,
    SECRET_VALUE, SK_API_KEY, TOKEN_VALUE, advice_redacted, context_redacted, output_redacted,
    regex_replaced,
};
use crate::sorting::without_repeats;
use crate::text::{
    begins_with, blank, decimal, has_text, hex_digits, joined, lines_of, occurs_at, texts,
    utf8_len,
};

verus! {

// ---------------------------------------------------------------------------
// Written forms

/// Joined pieces hold every piece.
pub proof fn lemma_joined_holds(parts: Seq<Seq<char>>, sep: Seq<char>, i: int)
    requires
        0 <= i < parts.len(),
    ensures
        has_text(joined(parts, sep), parts[i]),
    decreases parts.len(),
{
    let all = joined(parts, sep);
    if parts.len() == 1 {
        assert(all.subrange(0, all.len() as int) =~= parts[0]);
        assert(occurs_at(all, parts[i], 0));
    } else if i == parts.len() - 1 {
        let at = joined(parts.drop_last(), sep).len() + sep.len();
        assert(all.subrange(at as int, (at + parts[i].len()) as int) =~= parts[i]);
        assert(occurs_at(all, parts[i], at as int));
    } else {
        lemma_joined_holds(parts.drop_last(), sep, i);
        let head = joined(parts.drop_last(), sep);
        lemma_has_text_within(Seq::empty(), head, sep + parts.last(), parts[i]);
        assert(Seq::<char>::empty() + head + (sep + parts.last()) =~= all);
    }
}

/// A record that is written down holds each of its fields, between braces; a list holds
/// each of its items, between brackets.
pub proof fn lemma_written_records(parts: Seq<Seq<char>>, i: int)
    requires
        0 <= i < parts.len(),
    ensures
        has_text(object(parts), parts[i]),
        has_text(array(parts), parts[i]),
        object(parts) == "{"@ + joined(parts, ","@) + "}"@,
        array(parts) == "["@ + joined(parts, ","@) + "]"@,
{
    lemma_joined_holds(parts, ","@, i);
    lemma_has_text_within("{"@, joined(parts, ","@), "}"@, parts[i]);
    lemma_has_text_within("["@, joined(parts, ","@), "]"@, parts[i]);
}

/// A field is its name in quotation marks, a colon and its value; truth is written in
/// words, and what is not there as `null`.
pub proof fn lemma_written_values(key: Seq<char>, value: Seq<char>, b: bool, s: Option<Seq<char>>)
    ensures
        field(key, value) == "\""@ + key + "\":"@ + value,
        truth(b) == "true"@ <==> b,
        truth(b) == "false"@ <==> !b,
        s is None ==> optional_string(s) == "null"@,
        s is Some ==> optional_string(s) == json_string(s->0),
{
    reveal_strlit("true");
    reveal_strlit("false");
    assert("true"@.len() == 4);
    assert("false"@.len() == 5);
}

/// What is read of a value is what the value is: a text of a text, a number of a number,
/// truth of truth, items of a list, and nothing of anything else.
pub proof fn lemma_values_read(json: Seq<char>)
    ensures
        as_text(Some(json)) is Some <==> json_parsed(json) is Ok && json_parsed(json)->Ok_0 is Text,
        as_truth(Some(json)) is Some <==> json_parsed(json) is Ok && json_parsed(json)->Ok_0 is Bool,
        as_elements(Some(json)) is Some <==> json_parsed(json) is Ok
            && json_parsed(json)->Ok_0 is List,
        as_number(Some(json)) is Some ==> json_parsed(json) is Ok
            && json_parsed(json)->Ok_0 is Number,
        as_text(Some(json)) matches Some(t) ==> json_parsed(json)->Ok_0 == JsonView::Text(t),
        as_truth(Some(json)) matches Some(b) ==> json_parsed(json)->Ok_0 == JsonView::Bool(b),
        as_elements(Some(json)) matches Some(items) ==> json_parsed(json)->Ok_0 == JsonView::List(
            items,
        ),
        as_number(Some(json)) matches Some(n) ==> json_parsed(json)->Ok_0 == JsonView::Number(
            Some(n),
        ),
        as_text(None) is None,
        as_number(None) is None,
        as_truth(None) is None,
        as_elements(None) is None,
{
}

/// The fingerprint of bytes: it starts from a fixed number, and each byte is mixed in and
/// spread by a fixed prime.
pub proof fn lemma_fingerprints_grow(bytes: Seq<u8>, b: u8)
    ensures
        fnv1a64(Seq::empty()) == 14695981039346656037u64,
        fnv1a64(bytes.push(b)) == (fnv1a64(bytes) ^ (b as u64)).wrapping_mul(1099511628211u64),
{
    assert(bytes.push(b).drop_last() =~= bytes);
}

/// Sixteen digits of the first sixteen characters of `0-9a-f` are written for a
/// fingerprint.
pub proof fn lemma_hex_digits(n: nat, width: nat, i: int)
    requires
        0 <= i < hex_digits(n, width).len(),
    ensures
        hex_digits(n, width).len() == width,
        ({
            let c = hex_digits(n, width)[i];
            ('0' <= c && c <= '9') || ('a' <= c && c <= 'f')
        }),
    decreases width,
{
    if width > 0 {
        let head = hex_digits(n / 16, (width - 1) as nat);
        lemma_hex_len(n / 16, (width - 1) as nat);
        if i < head.len() {
            lemma_hex_digits(n / 16, (width - 1) as nat, i);
            assert(hex_digits(n, width)[i] == head[i]);
        }
    }
}

proof fn lemma_hex_len(n: nat, width: nat)
    ensures
        hex_digits(n, width).len() == width,
    decreases width,
{
    if width > 0 {
        lemma_hex_len(n / 16, (width - 1) as nat);
    }
}

/// What an advisor, a log or a worker is shown has gone through every pattern that is
/// meant for it, one behind the other.
pub proof fn lemma_redactions(text: Seq<char>)
    ensures
        advice_redacted(text) == ({
            let a = regex_replaced(ASSIGNED_SECRET@, text, "$1=<redacted>"@)->0;
            let b = regex_replaced(BEARER_TOKEN@, a, "Bearer <redacted>"@)->0;
            regex_replaced(PREFIXED_TOKEN@, b, "$1_<redacted>"@)->0
        }),
        output_redacted(text) == ({
            let a = regex_replaced(NAMED_SECRET@, text, "$1=<redacted>"@)->0;
            regex_replaced(SK_API_KEY@, a, "<redacted-api-key>"@)->0
        }),
        context_redacted(text) == ({
            let a = regex_replaced(API_KEY_VALUE@, text, "${1}<redacted>"@)->0;
            let b = regex_replaced(TOKEN_VALUE@, a, "${1}<redacted>"@)->0;
            let c = regex_replaced(SECRET_VALUE@, b, "${1}<redacted>"@)->0;
            regex_replaced(PASSWORD_VALUE@, c, "${1}<redacted>"@)->0
        }),
{
}

/// What a command said is shown redacted first and shortened then.
pub proof fn lemma_shown_output(value: Seq<char>, max: nat)
    ensures
        utf8_len(output_redacted(value)) <= max ==> bounded_redacted(value, max)
            == output_redacted(value),
        utf8_len(output_redacted(value)) > max ==> exists|n: int|
            0 <= n < output_redacted(value).len() && bounded_redacted(value, max)
                == #[trigger] output_redacted(value).take(n) + "..."@,
{
    lemma_shortened(output_redacted(value), max, 0);
}

// ---------------------------------------------------------------------------
// The journal

proof fn lemma_run_from(runs: Seq<RunJournalV1>, id: Seq<char>, from: int)
    requires
        0 <= from <= runs.len(),
    ensures
        from <= run_from(runs, id, from) <= runs.len(),
        run_from(runs, id, from) < runs.len() ==> runs[run_from(
            runs,
            id,
            from,
        )].snapshot.run_id@ == id,
        forall|j: int|
            from <= j < run_from(runs, id, from) ==> (#[trigger] runs[j]).snapshot.run_id@ != id,
    decreases runs.len() - from,
{
    if from < runs.len() && runs[from].snapshot.run_id@ != id {
        lemma_run_from(runs, id, from + 1);
    }
}

/// The run of a name is the one that carries it.
pub proof fn lemma_runs_are_found(journal: DelegatedJournal, id: Seq<char>)
    ensures
        journal.has_run(id) <==> exists|i: int|
            0 <= i < journal.runs@.len() && (#[trigger] journal.runs@[i]).snapshot.run_id@ == id,
        journal.has_run(id) ==> journal.run(id).snapshot.run_id@ == id,
{
    lemma_run_from(journal.runs@, id, 0);
    if journal.has_run(id) {
        assert(journal.runs@[journal.run_at(id)].snapshot.run_id@ == id);
    }
}

/// What is put in place of one run leaves the others as they are.
pub proof fn lemma_other_runs_stay(
    before: DelegatedJournal,
    after: DelegatedJournal,
    id: Seq<char>,
    run: RunJournalV1,
    i: int,
)
    requires
        after.replaces(before, id, run),
        0 <= i < before.runs@.len(),
        before.runs@[i].snapshot.run_id@ != id,
    ensures
        after.runs@.len() == before.runs@.len(),
        after.runs@[i] == before.runs@[i],
        after.run(id) == run,
{
    lemma_run_from(before.runs@, id, 0);
}

/// The runs that are taken up again are those that are active and not over.
pub proof fn lemma_active_runs(runs: Seq<RunJournalV1>, i: int)
    ensures
        0 <= i < active_snapshots(runs).len() ==> active_snapshots(runs)[i].active && !(
        active_snapshots(runs)[i].state is CompletedVerified || active_snapshots(
            runs,
        )[i].state is Failed || active_snapshots(runs)[i].state is Cancelled),
        0 <= i < active_snapshots(runs).len() ==> exists|j: int|
            0 <= j < runs.len() && (#[trigger] runs[j]).snapshot == active_snapshots(runs)[i],
        active_snapshots(runs).len() <= runs.len(),
{
    let all = runs.map_values(|r: RunJournalV1| r.snapshot);
    let f = |s: RunSnapshotV1| s.active && !is_terminal_state(s.state);
    let told = all.filter(f);
    all.filter_lemma(f);
    assert(active_snapshots(runs) =~= told);
    if 0 <= i < told.len() {
        assert(f(told[i]));
        assert(told.contains(told[i]));
        all.lemma_filter_contains_rev(f, told[i]);
        let j = choose|j: int| 0 <= j < all.len() && all[j] == told[i];
        assert(runs[j].snapshot == told[i]);
    }
}

/// The directory of a run is named after it, in plain characters only, with a fingerprint
/// behind.
pub proof fn lemma_run_directories(id: Seq<char>, i: int)
    requires
        0 <= i < run_segment(id).len(),
    ensures
        run_segment(id).len() == if id.len() > 48 {
            65
        } else {
            id.len() + 17
        },
        ({
            let c = run_segment(id)[i];
            ('a' <= c && c <= 'z') || ('A' <= c && c <= 'Z') || ('0' <= c && c <= '9') || c == '-'
                || c == '_' || c == '.'
        }),
{
    reveal_strlit("-");
    let n = fnv1a64(encode_utf8(json_string(id))) as nat;
    let tail = hex_digits(n, 16);
    lemma_hex_len(n, 16);
    let safe = id.map_values(|c: char| segment_char(c));
    let k = if safe.len() > 48 {
        48
    } else {
        safe.len() as int
    };
    if i < k {
        assert(run_segment(id)[i] == segment_char(id[i]));
    } else if i > k {
        lemma_hex_digits(n, 16, i - k - 1);
        assert(run_segment(id)[i] == tail[i - k - 1]);
    } else {
        assert(run_segment(id)[i] == '-');
    }
}

/// What is kept is known by its kind and the fingerprint of what it says.
pub proof fn lemma_artifact_references(kind: Seq<char>, json: Seq<char>)
    ensures
        artifact_reference(kind, json) == "local-journal-artifact:"@ + kind + "-"@ + fingerprint(
            json,
        ),
        fingerprint(json) == "fnv1a64:"@ + hex_digits(fnv1a64(encode_utf8(json)) as nat, 16),
{
}

// ---------------------------------------------------------------------------
// The context of a turn

/// What goes into a context in words is redacted, measured and fingerprinted as it is
/// shown, and says whether it was redacted.
pub proof fn lemma_inline_items(
    item: ContextItemV1,
    kind: ContextItemKind,
    class: ContextClass,
    source: Seq<char>,
    summary: Seq<char>,
    content: Seq<char>,
    labeled: bool,
)
    requires
        is_inline(item, kind, class, source, summary, content, labeled),
    ensures
        item.content is Some,
        item.content->0@ == context_redacted(content),
        item.byte_count == utf8_len(context_redacted(content)),
        item.content_hash@ == fingerprint(context_redacted(content)),
        item.redacted <==> context_redacted(content) != content,
        item.kind == kind,
        item.class == class,
        item.prompt_injection_labeled == labeled,
        4 * item.estimated_tokens >= item.byte_count,
{
}

/// Output that was sent before is not sent again: it is referred to by its fingerprint.
pub proof fn lemma_output_is_sent_once(
    after: ContextBuilderV1,
    before: ContextBuilderV1,
    source: Seq<char>,
    raw: Seq<char>,
)
    requires
        after.adds_output(before, source, raw),
    ensures
        after.sent().contains(fingerprint(raw)),
        before.sent().contains(fingerprint(raw)) ==> after.gathered().last().content is None
            && after.gathered().last().byte_count == 0 && after.gathered().last().content_hash@
            == fingerprint(raw),
        !before.sent().contains(fingerprint(raw)) ==> after.gathered().last().content is Some,
        !before.sent().contains(fingerprint(raw)) && utf8_len(raw)
            > before.budget().max_command_output_bytes ==> after.was_cut(),
        before.was_cut() ==> after.was_cut(),
        after.gathered().len() == before.gathered().len() + 1,
        after.gathered().drop_last() == before.gathered(),
        after.budget() == before.budget(),
        utf8_len(raw) <= before.budget().max_command_output_bytes ==> shown_output(
            raw,
            before.budget().max_command_output_bytes,
        ) == raw,
{
    if !before.sent().contains(fingerprint(raw)) {
        let n = before.sent().len() as int;
        assert(after.sent()[n] == fingerprint(raw));
        let item = choose|item: ContextItemV1| #[trigger]
            is_inline(
                item,
                ContextItemKind::CommandOutput,
                ContextClass::TurnDynamic,
                source,
                "Bounded command output"@,
                shown_output(raw, before.budget().max_command_output_bytes),
                true,
            ) && is_capped(item, after.gathered().last(), before.budget().max_item_bytes)
                && after.was_cut() == (before.was_cut() || utf8_len(raw)
                > before.budget().max_command_output_bytes || item.byte_count
                > before.budget().max_item_bytes);
        assert(item.content is Some);
    }
}

/// The lines of an excerpt are those of the range, each with its number before it.
pub proof fn lemma_numbered_lines(lines: Seq<Seq<char>>, start: int, end: int, n: int, i: int)
    requires
        1 <= start <= end,
        0 <= n <= lines.len(),
        0 <= i < numbered_lines(lines, start, end, n).len(),
    ensures
        numbered_lines(lines, start, end, n).len() == if n < start {
            0
        } else if n <= end {
            n - start + 1
        } else {
            end - start + 1
        },
        numbered_lines(lines, start, end, n)[i] == decimal((start + i) as nat) + ": "@ + lines[start
            + i - 1],
    decreases n,
{
    lemma_numbered_len(lines, start, end, n);
    let before = numbered_lines(lines, start, end, n - 1);
    lemma_numbered_len(lines, start, end, n - 1);
    if i < before.len() {
        lemma_numbered_lines(lines, start, end, n - 1, i);
        assert(numbered_lines(lines, start, end, n)[i] == before[i]);
    }
}

proof fn lemma_numbered_len(lines: Seq<Seq<char>>, start: int, end: int, n: int)
    requires
        1 <= start <= end,
    ensures
        numbered_lines(lines, start, end, n).len() == if n < start {
            0
        } else if n <= end {
            n - start + 1
        } else {
            end - start + 1
        },
    decreases n,
{
    if n > 0 {
        lemma_numbered_len(lines, start, end, n - 1);
    }
}

/// A compaction carries over nothing that is permanent, and everything else.
pub proof fn lemma_carried_items(items: Seq<ContextItemV1>, i: int)
    ensures
        0 <= i < carried(items).len() ==> !(carried(items)[i].class is Permanent)
            && items.contains(carried(items)[i]),
        0 <= i < items.len() && !(items[i].class is Permanent) ==> carried(items).contains(items[i]),
{
    let f = |x: ContextItemV1| x.class != ContextClass::Permanent;
    let told = items.filter(f);
    items.filter_lemma(f);
    assert(carried(items) =~= told);
    if 0 <= i < told.len() {
        assert(f(told[i]));
        assert(told.contains(told[i]));
        items.lemma_filter_contains_rev(f, told[i]);
    }
    if 0 <= i < items.len() && !(items[i].class is Permanent) {
        assert(f(items[i]));
    }
}

/// A compacted bundle fits, sums up its items, and says whether anything was cut.
pub proof fn lemma_compacted_bundles(
    bundle: ContextBundleV1,
    contract: ExecutionContractV1,
    checkpoint: CheckpointSummaryV1,
    recent: Seq<ContextItemV1>,
    policy: ContextBudgetPolicyV1,
)
    requires
        is_compact_bundle(bundle, contract, checkpoint, recent, policy),
    ensures
        bundle.total_bytes <= policy.max_bundle_bytes,
        bundle.estimated_tokens <= policy.max_estimated_tokens,
        bundle.items@.len() == carried(recent).len() + 2,
        bundle.items@[0].kind is ContractSummary,
        bundle.items@[1].kind is CheckpointSummary,
        bundle.truncated <==> utf8_len(context_redacted(contract_summary(contract)))
            > policy.max_item_bytes || utf8_len(context_redacted(checkpoint.json()))
            > policy.max_item_bytes || exists|i: int|
            0 <= i < carried(recent).len() && (#[trigger] carried(recent)[i]).byte_count
                > policy.max_item_bytes,
{
}

/// A summary of a contract says what is to be done, where, where not, and what is asked.
pub proof fn lemma_contract_summaries(contract: ExecutionContractV1)
    ensures
        has_text(contract_summary(contract), contract.objective@),
        has_text(contract_summary(contract), joined(texts(contract.allowed_paths@), ", "@)),
        has_text(contract_summary(contract), joined(texts(contract.forbidden_paths@), ", "@)),
        has_text(contract_summary(contract), joined(texts(contract.acceptance_criteria@), "; "@)),
{
    let all = contract_summary(contract);
    let o = contract.objective@;
    let a = joined(texts(contract.allowed_paths@), ", "@);
    let f = joined(texts(contract.forbidden_paths@), ", "@);
    let c = joined(texts(contract.acceptance_criteria@), "; "@);
    let i = "Objective: "@.len() as int;
    let j = i + o.len() + "\nAllowed paths: "@.len();
    let k = j + a.len() + "\nForbidden paths: "@.len();
    let l = k + f.len() + "\nAcceptance: "@.len();
    assert(all.subrange(i, i + o.len()) =~= o);
    assert(all.subrange(j, j + a.len()) =~= a);
    assert(all.subrange(k, k + f.len()) =~= f);
    assert(all.subrange(l, l + c.len()) =~= c);
    assert(occurs_at(all, o, i));
    assert(occurs_at(all, a, j));
    assert(occurs_at(all, f, k));
    assert(occurs_at(all, c, l));
}

// ---------------------------------------------------------------------------
// Jobs and approvals

/// After a restart a job is lost unless its process is known and alive.
pub proof fn lemma_jobs_after_a_restart(
    before: JobRecordV1,
    after: JobRecordV1,
    alive: bool,
    now_ms: u128,
)
    requires
        crate::job_manager::is_recovered(before, after, alive, now_ms),
        before.status is Running,
    ensures
        after.status is Lost <==> !(alive && before.pid is Some),
        alive && before.pid is Some ==> after == before,
        after.status is Lost ==> after.finished_at_ms == Some(now_ms),
        after.job_id == before.job_id,
{
}

/// The jobs to look after are those that run.
pub proof fn lemma_running_jobs(records: Seq<JobRecordV1>, i: int)
    ensures
        0 <= i < running(records).len() ==> running(records)[i].status is Running
            && records.contains(running(records)[i]),
        0 <= i < records.len() && records[i].status is Running ==> running(records).contains(
            records[i],
        ),
{
    let f = |r: JobRecordV1| r.status == JobStatus::Running;
    let told = records.filter(f);
    records.filter_lemma(f);
    assert(running(records) =~= told);
    if 0 <= i < told.len() {
        assert(f(told[i]));
        assert(told.contains(told[i]));
        records.lemma_filter_contains_rev(f, told[i]);
    }
    if 0 <= i < records.len() && records[i].status is Running {
        assert(f(records[i]));
    }
}

/// The approvals that a run waits for are those that are required.
pub proof fn lemma_required_approvals(requirements: Seq<ApprovalRequirementV1>, i: int)
    ensures
        0 <= i < required_approvals(requirements).len() ==> required_approvals(
            requirements,
        )[i].required && requirements.contains(required_approvals(requirements)[i]),
        0 <= i < requirements.len() && requirements[i].required ==> required_approvals(
            requirements,
        ).contains(requirements[i]),
{
    let f = |a: ApprovalRequirementV1| a.required;
    let told = requirements.filter(f);
    requirements.filter_lemma(f);
    assert(required_approvals(requirements) =~= told);
    if 0 <= i < told.len() {
        assert(f(told[i]));
        assert(told.contains(told[i]));
        requirements.lemma_filter_contains_rev(f, told[i]);
    }
    if 0 <= i < requirements.len() && requirements[i].required {
        assert(f(requirements[i]));
    }
}

// ---------------------------------------------------------------------------
// What goes into a context

/// An item that is added comes behind the others, within the limit, and it is remembered
/// that something was cut.
pub proof fn lemma_added_items(
    after: ContextBuilderV1,
    before: ContextBuilderV1,
    item: ContextItemV1,
    i: int,
)
    requires
        after.adds(before, item),
        0 <= i < before.gathered().len(),
    ensures
        after.gathered().len() == before.gathered().len() + 1,
        after.gathered()[i] == before.gathered()[i],
        item.byte_count <= before.budget().max_item_bytes ==> after.gathered().last() == item,
        after.was_cut() <==> before.was_cut() || item.byte_count > before.budget().max_item_bytes,
        after.sent() == before.sent(),
        after.budget() == before.budget(),
{
    assert(after.gathered().drop_last()[i] == before.gathered()[i]);
}

/// A builder is within its budget by the sums over what it gathered.
pub proof fn lemma_within_budget(builder: ContextBuilderV1)
    ensures
        within_budget(builder) <==> total_byte_count(builder.gathered())
            <= builder.budget().max_bundle_bytes && total_token_count(builder.gathered())
            <= builder.budget().max_estimated_tokens,
{
}

/// Instructions of a repository are looked for in three files, are permanent, and are
/// marked as content that is not trusted.
pub proof fn lemma_repository_instructions(
    item: ContextItemV1,
    file: InstructionFileV1,
    max: usize,
)
    requires
        is_instruction(item, file, max),
    ensures
        instruction_path_list().len() == 3,
        instruction_path_list()[0] == "AGENTS.md"@,
        instruction_path_list()[2] == ".github/copilot-instructions.md"@,
        item.class is Permanent,
        item.kind is RepositoryInstruction,
        item.prompt_injection_labeled,
        item.source@ == file.relative_path@,
        item.content is Some,
        item.content->0@ == context_redacted(shown_output(file.content->0@, max)),
{
}

/// Only files that are there give instructions.
pub proof fn lemma_existing_files(files: Seq<InstructionFileV1>, i: int)
    ensures
        0 <= i < existing(files).len() ==> existing(files)[i].content is Some && files.contains(
            existing(files)[i],
        ),
        0 <= i < files.len() && files[i].content is Some ==> existing(files).contains(files[i]),
{
    let f = |x: InstructionFileV1| x.content is Some;
    let told = files.filter(f);
    files.filter_lemma(f);
    assert(existing(files) =~= told);
    if 0 <= i < told.len() {
        assert(f(told[i]));
        assert(told.contains(told[i]));
        files.lemma_filter_contains_rev(f, told[i]);
    }
    if 0 <= i < files.len() && files[i].content is Some {
        assert(f(files[i]));
    }
}

/// A reference carries no content, only the fingerprint of it.
pub proof fn lemma_references(
    item: ContextItemV1,
    kind: ContextItemKind,
    class: ContextClass,
    source: Seq<char>,
    summary: Seq<char>,
    content_hash: Seq<char>,
)
    requires
        is_reference(item, kind, class, source, summary, content_hash),
    ensures
        item.content is None,
        item.byte_count == 0,
        item.content_hash@ == content_hash,
        item.source@ == source,
        item.kind == kind,
        item.class == class,
{
}

/// What is shown of an item on inspection says its source and its fingerprint, and its
/// content redacted.
pub proof fn lemma_inspected_items(item: ContextItemV1)
    ensures
        begins_with(inspection_entry(item), item.source@),
        has_text(inspection_entry(item), item.content_hash@),
        item.content is Some ==> has_text(
            inspection_entry(item),
            context_redacted(item.content->0@),
        ),
{
    let all = inspection_entry(item);
    let said = context_redacted(
        match item.content {
            Some(c) => c@,
            None => "[artifact reference]"@,
        },
    );
    let i = item.source@.len() + " ["@.len();
    let j = all.len() - said.len();
    assert(all.take(item.source@.len() as int) =~= item.source@);
    assert(all.subrange(i as int, (i + item.content_hash@.len()) as int) =~= item.content_hash@);
    assert(occurs_at(all, item.content_hash@, i as int));
    assert(all.subrange(j, j + said.len()) =~= said);
    assert(occurs_at(all, said, j));
}

/// A compaction is too large exactly when what it comes to goes beyond the budget, and a
/// bundle is never both.
pub proof fn lemma_compactions_that_fit(
    items: Seq<ContextItemV1>,
    contract: ExecutionContractV1,
    checkpoint: CheckpointSummaryV1,
    recent: Seq<ContextItemV1>,
    policy: ContextBudgetPolicyV1,
)
    requires
        crate::context::is_compacted(items, contract, checkpoint, recent, policy.max_item_bytes),
    ensures
        total_byte_count(items) > policy.max_bundle_bytes || total_token_count(items)
            > policy.max_estimated_tokens ==> compaction_too_large(
            contract,
            checkpoint,
            recent,
            policy,
        ),
        items.len() == carried(recent).len() + 2,
{
}

/// The number behind the last is one more; behind none it is one.
pub proof fn lemma_next_numbers(last: u64)
    ensures
        next_sequence(None) == 1,
        last < u64::MAX ==> next_sequence(Some(last)) == last + 1,
{
}

/// An approval is named for what it allows, with its reason.
pub proof fn lemma_named_approvals(approval: ApprovalRequirementV1)
    ensures
        approval.kind is RunStart ==> approval_kind_name(approval.kind) == "RunStart"@,
        approval.kind is ToolException ==> approval_kind_name(approval.kind) == "ToolException"@,
        approval.kind is UnrestrictedShell ==> approval_kind_name(approval.kind)
            == "UnrestrictedShell"@,
        approval.kind is GitPush ==> approval_kind_name(approval.kind) == "GitPush"@,
        approval.kind is Merge ==> approval_kind_name(approval.kind) == "Merge"@,
        approval_line(approval) == approval_kind_name(approval.kind) + ": "@ + approval.reason@,
{
}

/// Two contracts have the same intent when they say the same of what is to be done, where,
/// and how it is judged; this holds both ways and from one to the next.
pub proof fn lemma_same_intent(
    a: ExecutionContractV1,
    b: ExecutionContractV1,
    c: ExecutionContractV1,
)
    ensures
        a.same_intent(a),
        a.same_intent(b) ==> b.same_intent(a),
        a.same_intent(b) && b.same_intent(c) ==> a.same_intent(c),
        a.same_intent(b) ==> a.objective@ == b.objective@ && a.workspace@ == b.workspace@
            && a.feature_branch@ == b.feature_branch@ && texts(a.allowed_paths@) == texts(
            b.allowed_paths@,
        ) && texts(a.forbidden_paths@) == texts(b.forbidden_paths@) && texts(
            a.acceptance_criteria@,
        ) == texts(b.acceptance_criteria@) && a.task_id@ == b.task_id@,
        a.objective@ != b.objective@ ==> !a.same_intent(b),
{
}

/// A path that is not there, or that cannot be followed, is a problem; one that is found
/// is none.
pub proof fn lemma_paths_found(path: ResolvedPath, label: Seq<char>, directory: bool)
    ensures
        path_problem(path, label, directory) is None <==> path is Resolved,
        path is Missing && directory ==> path_problem(path, label, directory) == Some(
            label + " must be an existing directory"@,
        ),
        path is Missing && !directory ==> path_problem(path, label, directory) == Some(
            label + " must exist"@,
        ),
        path is Unresolved ==> path_problem(path, label, directory) == Some(
            label + " could not be canonicalized"@,
        ),
{
}

/// A review that was made locally says so, says that verification passed, and that nothing
/// was published.
pub proof fn lemma_local_reviews(diff: Seq<char>)
    ensures
        has_text(review_of(diff), field("automaticGitPublication"@, "false"@)),
        has_text(review_of(diff), field("diffBytes"@, decimal(utf8_len(diff)))),
        has_text(review_of(diff), field("verificationStatus"@, json_string("PASSED"@))),
        has_text(review_of(diff), field("result"@, json_string("reviewed locally"@))),
{
    let parts = seq![
        field("automaticGitPublication"@, truth(false)),
        field("diffBytes"@, decimal(utf8_len(diff))),
        field("result"@, json_string("reviewed locally"@)),
        field("schemaVersion"@, decimal(1)),
        field("verificationStatus"@, json_string("PASSED"@)),
    ];
    lemma_written_records(parts, 0);
    lemma_written_records(parts, 1);
    lemma_written_records(parts, 2);
    lemma_written_records(parts, 4);
}

/// The diff is taken without a pager, without helpers, and whole.
pub proof fn lemma_how_a_diff_is_taken()
    ensures
        diff_arguments() == seq![
            "git"@,
            "--no-pager"@,
            "diff"@,
            "--no-ext-diff"@,
            "--binary"@,
            "--"@,
        ],
{
}

// ---------------------------------------------------------------------------
// Order and pieces

/// A list without repeats holds what the list held, and nothing twice in a row.
pub proof fn lemma_without_repeats(s: Seq<Seq<char>>, x: Seq<char>)
    ensures
        without_repeats(s).contains(x) <==> s.contains(x),
        without_repeats(s).len() <= s.len(),
        s.len() > 0 ==> without_repeats(s).len() > 0 && without_repeats(s).last() == s.last(),
        forall|i: int|
            0 < i < without_repeats(s).len() ==> #[trigger] without_repeats(s)[i]
                != without_repeats(s)[i - 1],
    decreases s.len(),
{
    if s.len() >= 2 {
        let rest = s.drop_last();
        lemma_without_repeats(rest, x);
        assert(rest.last() == s[s.len() - 2]);
        assert(s == rest.push(s.last()));
        if rest.contains(x) {
            let j = choose|j: int| 0 <= j < rest.len() && rest[j] == x;
            assert(s[j] == x);
        }
        if s.contains(x) && !rest.contains(x) {
            let j = choose|j: int| 0 <= j < s.len() && s[j] == x;
            if j < rest.len() {
                assert(rest[j] == x);
            }
            assert(x == s.last());
        }
        if s.last() != s[s.len() - 2] {
            let less = without_repeats(rest);
            let all = less.push(s.last());
            assert(without_repeats(s) == all);
            assert(all[less.len() as int] == s.last());
            assert(s[s.len() - 1] == s.last());
            if less.contains(x) {
                let j = choose|j: int| 0 <= j < less.len() && less[j] == x;
                assert(all[j] == x);
            }
            if all.contains(x) && x != s.last() {
                let j = choose|j: int| 0 <= j < all.len() && all[j] == x;
                assert(less[j] == x);
            }
        } else {
            assert(s.contains(s[s.len() - 2]));
            if x == s.last() {
                assert(rest[rest.len() - 1] == x);
            }
        }
    }
}

/// Lines that say nothing are no records.
pub proof fn lemma_record_lines(text: Seq<char>, i: int)
    ensures
        0 <= i < record_lines(text).len() ==> !blank(record_lines(text)[i]) && lines_of(
            text,
        ).contains(record_lines(text)[i]),
        0 <= i < lines_of(text).len() && !blank(lines_of(text)[i]) ==> record_lines(text).contains(
            lines_of(text)[i],
        ),
{
    let lines = lines_of(text);
    let f = |line: Seq<char>| !blank(line);
    let told = lines.filter(f);
    lines.filter_lemma(f);
    assert(record_lines(text) =~= told);
    if 0 <= i < told.len() {
        assert(f(told[i]));
        assert(told.contains(told[i]));
        lines.lemma_filter_contains_rev(f, told[i]);
    }
    if 0 <= i < lines.len() && !blank(lines[i]) {
        assert(f(lines[i]));
    }
}

/// A look at a log takes as much as was asked for, 16 KiB if nothing was, and never more
/// than 64 KiB.
pub proof fn lemma_looks_are_bounded(max_bytes: usize)
    ensures
        max_bytes == 0 ==> poll_limit(max_bytes) == 16384,
        1 <= max_bytes <= 65536 ==> poll_limit(max_bytes) == max_bytes,
        max_bytes > 65536 ==> poll_limit(max_bytes) == 65536,
{
}

/// A piece of a log is what stands there from the offset on.
pub proof fn lemma_pieces_of_logs(log: Seq<u8>, window: LogWindow, i: int)
    requires
        window.offset <= log.len(),
        0 <= i < piece_of(log, window).len(),
    ensures
        piece_of(log, window)[i] == log[window.offset + i],
        piece_of(log, window).len() <= window.limit,
        piece_of(log, window).len() == window.limit || window.offset + piece_of(log, window).len()
            == log.len(),
{
}

/// A run that is well kept numbers its events from one on, and is active until it is over.
pub proof fn lemma_kept_runs(run: RunJournalV1, i: int)
    requires
        run.wf(),
        0 <= i < run.events@.len() < u64::MAX,
    ensures
        run.events@[i].event_sequence == i + 1,
        run.snapshot.last_event_sequence == run.events@.len(),
        run.snapshot.active <==> !(run.snapshot.state is CompletedVerified || run.snapshot.state
            is Failed || run.snapshot.state is Cancelled),
        last_sequence(run.events@) == Some(run.snapshot.last_event_sequence),
{
}

/// Catching up sets the last number to that of the last event, and changes nothing else.
pub proof fn lemma_caught_up(run: RunJournalV1)
    ensures
        run.events@.len() == 0 ==> run.caught_up().snapshot.last_event_sequence == 0,
        run.events@.len() > 0 ==> run.caught_up().snapshot.last_event_sequence
            == run.events@.last().event_sequence,
        run.caught_up().events == run.events,
        run.caught_up().tool_calls == run.tool_calls,
        run.caught_up().snapshot.state == run.snapshot.state,
        run.wf() ==> run.caught_up() == run,
{
}

} // verus!
