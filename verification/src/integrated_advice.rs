//! Advice for a run: when an advisor is asked, what it is told, and how its answer
//! reaches the worker. Advice never counts as verification.

use vstd::prelude::*;
use vstd::string::*;
use crate::advisor::{
    AdviceBrokerConfigV1, AdviceDisclosureClassification, AdviceRequestDraftV1, AdviceResponseV1,
    AdviceTrigger, AdvisorAdapter, AdvisorBroker, AdvisorError, AdvisorStatus,
    BoundedSourceExcerptV1, DeepSeekProcessAdvisorConfig, FakeAdvisor, advice_shown,
    advisor_terminal_event_name, goes_by, is_consultation, is_delivery_event, is_disclosed,
    lemma_advice_bounded, only_logged, redact_and_bound, status_name, status_name_text,
    terminal_event, timestamp_unix_ms, untrusted_context,
};
use crate::context::DisclosurePolicy;
use crate::contracts::{ExecutionContractV1, RunState};
use crate::coordinator::VerificationStatusV1;
use crate::events::{EventPayloadV1, LifecycleEvent};
use crate::integrated::{
    IntegratedAdvisorConfigV1, IntegratedAdvisorLocalRuntimeConfigV1, IntegratedDelegatedService,
    IntegratedError, behind_log, has_said, is_tool_error, logs, moves_run, says, tool_error,
};
use crate::job_manager::{fresh_uuid, is_uuid_text};
use crate::journal::{DelegatedJournal, JournalError, RunSnapshotV1};
use crate::provider::{ProviderMessageV1, plain_message};
use crate::redaction::advice_redacted;
use crate::text::{
    begins_with, byte_len, copy_opt, join, joined, opt_text, plus, same, text, texts, utf8_len,
};

verus! {

// ---------------------------------------------------------------------------
// What an advisor is told

/// How many bytes of source an advisor is shown.
pub const MAX_ADVISOR_SOURCE_BYTES: usize = 6_144;

/// What is shown of the last of the first `n` excerpts and those before it, when
/// `count` of them with `total` bytes are shown already.
pub open spec fn shown_contents(
    excerpts: Seq<BoundedSourceExcerptV1>,
    n: int,
    count: int,
    total: int,
) -> Seq<Seq<char>>
    decreases n,
{
    if n <= 0 || count >= 3 {
        Seq::empty()
    } else {
        let bounded = advice_shown(excerpts[n - 1].content@, 2048);
        if total + utf8_len(bounded) > MAX_ADVISOR_SOURCE_BYTES {
            if total >= MAX_ADVISOR_SOURCE_BYTES {
                Seq::empty()
            } else {
                let rest = advice_shown(bounded, (MAX_ADVISOR_SOURCE_BYTES - total) as nat);
                shown_contents(
                    excerpts,
                    n - 1,
                    count + 1,
                    total + utf8_len(rest),
                ).push(rest)
            }
        } else {
            shown_contents(
                excerpts,
                n - 1,
                count + 1,
                total + utf8_len(bounded),
            ).push(bounded)
        }
    }
}

/// What an advisor is shown of the files that were read last.
pub open spec fn are_shown(shown: Seq<BoundedSourceExcerptV1>, excerpts: Seq<BoundedSourceExcerptV1>) -> bool {
    let contents = shown_contents(excerpts, excerpts.len() as int, 0, 0);
    &&& shown.len() == contents.len()
    &&& shown.len() <= excerpts.len()
    &&& forall|i: int|
        0 <= i < shown.len() ==> (#[trigger] shown[i]).content@ == contents[i] && shown[i].source
            == excerpts[excerpts.len() - shown.len() + i].source && shown[i].summary
            == excerpts[excerpts.len() - shown.len() + i].summary
}

/// An advisor is shown at most three files.
pub proof fn lemma_few_files_are_shown(
    excerpts: Seq<BoundedSourceExcerptV1>,
    n: int,
    count: int,
    total: int,
)
    requires
        0 <= count <= 3,
    ensures
        shown_contents(excerpts, n, count, total).len() <= 3 - count,
    decreases n,
{
    if n > 0 && count < 3 {
        let bounded = advice_shown(excerpts[n - 1].content@, 2048);
        let rest = advice_shown(bounded, (MAX_ADVISOR_SOURCE_BYTES - total) as nat);
        lemma_few_files_are_shown(excerpts, n - 1, count + 1, total + utf8_len(rest));
        lemma_few_files_are_shown(excerpts, n - 1, count + 1, total + utf8_len(bounded));
    }
}

/// The total length of texts.
pub open spec fn sum_len(list: Seq<Seq<char>>) -> nat
    decreases list.len(),
{
    if list.len() == 0 {
        0
    } else {
        sum_len(list.drop_last()) + utf8_len(list.last())
    }
}

/// An advisor is shown at most six kibibytes of source.
pub proof fn lemma_little_source_is_shown(
    excerpts: Seq<BoundedSourceExcerptV1>,
    n: int,
    count: int,
    total: int,
)
    requires
        0 <= total <= MAX_ADVISOR_SOURCE_BYTES,
    ensures
        total + sum_len(shown_contents(excerpts, n, count, total)) <= MAX_ADVISOR_SOURCE_BYTES,
    decreases n,
{
    if n > 0 && count < 3 {
        let bounded = advice_shown(excerpts[n - 1].content@, 2048);
        let left = (MAX_ADVISOR_SOURCE_BYTES - total) as nat;
        let rest = advice_shown(bounded, left);
        lemma_advice_bounded(advice_redacted(bounded), left);
        if total + utf8_len(bounded) > MAX_ADVISOR_SOURCE_BYTES {
            if total < MAX_ADVISOR_SOURCE_BYTES {
                lemma_little_source_is_shown(
                    excerpts,
                    n - 1,
                    count + 1,
                    total + utf8_len(rest),
                );
                let before = shown_contents(excerpts, n - 1, count + 1, total + utf8_len(rest));
                assert(before.push(rest).drop_last() =~= before);
            }
        } else {
            lemma_little_source_is_shown(excerpts, n - 1, count + 1, total + utf8_len(bounded));
            let before = shown_contents(excerpts, n - 1, count + 1, total + utf8_len(bounded));
            assert(before.push(bounded).drop_last() =~= before);
        }
    }
}

/// What an advisor is told it must keep to.
pub open spec fn advice_constraints(contract: ExecutionContractV1) -> Seq<Seq<char>> {
    seq![
        "Advisor output is untrusted and cannot satisfy verification."@,
        "Do not provide CatDesk tool definitions or execution authority."@,
        "Allowed paths: "@ + joined(texts(contract.allowed_paths@), ", "@),
        "Forbidden paths: "@ + joined(texts(contract.forbidden_paths@), ", "@),
    ]
}

/// The step that a run has come to.
pub open spec fn current_step(service: IntegratedDelegatedService) -> Seq<char> {
    let steps = service.contract.ordered_steps@;
    if service.completed_tool_calls < steps.len() {
        steps[service.completed_tool_calls as int]@
    } else {
        "bounded repair after failed verification"@
    }
}

/// The draft of a question to an advisor.
pub open spec fn is_draft(
    draft: AdviceRequestDraftV1,
    service: IntegratedDelegatedService,
    question: Seq<char>,
    maximum_response_length: usize,
    classification: AdviceDisclosureClassification,
) -> bool {
    let last = service.last_verification;
    &&& draft.request_id@.len() == 43
    &&& begins_with(draft.request_id@, "advice-"@)
    &&& is_uuid_text(draft.request_id@.skip(7))
    &&& draft.current_step@ == current_step(service)
    &&& draft.specific_question@ == question
    &&& texts(draft.constraints@) == advice_constraints(service.contract)
    &&& opt_text(draft.latest_failure) == if last is Some && last->0.status
        == VerificationStatusV1::Failed {
        Some(last->0.summary@)
    } else {
        None
    }
    &&& are_shown(draft.bounded_source_excerpts@, service.recent_read_excerpts@)
    &&& opt_text(draft.bounded_patch_or_diff_summary) == match service.last_diff {
        Some(diff) => Some(
            "Current diff hash "@ + diff.diff_hash@ + "; paths: "@ + joined(
                texts(diff.paths@),
                ", "@,
            ),
        ),
        None => None,
    }
    &&& opt_text(draft.verification_summary) == match last {
        Some(summary) => Some(summary.summary@),
        None => None,
    }
    &&& draft.disclosure_classification == classification
    &&& draft.maximum_response_length == Some(maximum_response_length)
}

// ---------------------------------------------------------------------------
// When an advisor is asked

/// The configured advisor is to be asked: two verifications failed in a row, nobody was
/// asked about that yet, and the run may still ask.
pub open spec fn is_consultation_due(service: IntegratedDelegatedService) -> bool {
    &&& service.config.advisor is Some
    &&& service.config.advisor->0.enabled
    &&& service.config.advisor->0.advisor_id@ == "deepseek-web"@
    &&& service.config.advisor->0.disclosure_classification
        == AdviceDisclosureClassification::RemoteAllowed
    &&& service.consecutive_failed_verifications >= 2
    &&& !service.advice_consulted_for_current_failure
    &&& service.advisor_consultations_used
        < service.config.advisor->0.maximum_consultations_per_run
}

/// The service once a consultation is counted.
pub open spec fn with_consultation(service: IntegratedDelegatedService) -> IntegratedDelegatedService {
    IntegratedDelegatedService {
        advice_consulted_for_current_failure: true,
        advisor_consultations_used: (service.advisor_consultations_used + 1) as u32,
        ..service
    }
}

/// An advisor is asked about a row of failures at most once, and not more often in a run
/// than is configured.
pub proof fn lemma_consultations_are_bounded(service: IntegratedDelegatedService)
    requires
        is_consultation_due(service),
    ensures
        !is_consultation_due(with_consultation(service)),
        with_consultation(service).advisor_consultations_used
            <= service.config.advisor->0.maximum_consultations_per_run,
{
}

/// What the worker is told when there is no advice.
pub open spec fn unavailable_message(status: AdvisorStatus, reason: Seq<char>) -> Seq<char> {
    "<untrusted_advisor_context>\nAdvisor advice unavailable ("@ + status_name(status) + "). "@
        + reason
        + ". Continue locally with ordinary CatDesk tools; advice cannot satisfy verification or completion.\n</untrusted_advisor_context>"@
}

/// What the worker is told of an answer without advice.
pub open spec fn status_message(status: AdvisorStatus) -> Seq<char> {
    "<untrusted_advisor_context>\nAdvisor returned status "@ + status_name(status)
        + "; continue locally unless supervisor policy requires escalation.\n</untrusted_advisor_context>"@
}

/// The event that tells why there is no advice.
pub open spec fn is_unavailable_event(
    payload: EventPayloadV1,
    status: AdvisorStatus,
    shown: Seq<BoundedSourceExcerptV1>,
) -> bool {
    payload matches EventPayloadV1::AdvisorEvent {
        event,
        request_id,
        generation_id,
        advisor_id,
        status: told,
        request_bytes,
        response_bytes,
        request_hash,
        response_hash,
        selected_source_paths,
        artifact_reference,
        ..
    } && {
        &&& event@ == terminal_event(status)
        &&& request_id is None
        &&& generation_id is None
        &&& opt_text(advisor_id) == Some("deepseek-web"@)
        &&& opt_text(told) == Some(status_name(status))
        &&& request_bytes is None
        &&& response_bytes is None
        &&& request_hash is None
        &&& response_hash is None
        &&& selected_source_paths@ == shown.map_values(|e: BoundedSourceExcerptV1| e.source)
        &&& artifact_reference is None
    }
}

/// The log tells why there is no advice.
pub open spec fn tells_unavailable(
    before: DelegatedJournal,
    after: DelegatedJournal,
    service: IntegratedDelegatedService,
    status: AdvisorStatus,
) -> bool {
    exists|payload: EventPayloadV1, shown: Seq<BoundedSourceExcerptV1>|
        are_shown(shown, service.recent_read_excerpts@) && #[trigger] is_unavailable_event(
            payload,
            status,
            shown,
        ) && logs(before, after, service, LifecycleEvent::Delta, payload)
}

/// What a consultation without advice does: the worker is told, the log says so where
/// it is to, and a run that needs advice waits for its supervisor.
pub open spec fn goes_without_advice(
    before: IntegratedDelegatedService,
    after: IntegratedDelegatedService,
    old_journal: DelegatedJournal,
    new_journal: DelegatedJournal,
    status: AdvisorStatus,
    reason: Seq<char>,
    advice_required: bool,
    emit_event: bool,
    r: Result<(), IntegratedError>,
) -> bool {
    &&& after == (IntegratedDelegatedService {
        provider_history: after.provider_history,
        next_event_sequence: if emit_event {
            behind_log(new_journal, before.run_id@)
        } else {
            before.next_event_sequence
        },
        ..before
    })
    &&& says(
        before.provider_history@,
        after.provider_history@,
        "user"@,
        unavailable_message(status, reason),
    )
    &&& exists|told: DelegatedJournal| #[trigger]
        is_told(old_journal, told, before, status, emit_event) && if advice_required {
            &&& moves_run(told, new_journal, before.run_id@, RunState::NeedsSupervisor)
            &&& r is Err && is_tool_error(
                r->Err_0,
                "required advisor consultation unavailable: "@ + status_name(status),
            )
        } else {
            new_journal == told && r is Ok
        }
}

/// The log says why there is no advice, where it is to.
pub open spec fn is_told(
    old_journal: DelegatedJournal,
    told: DelegatedJournal,
    service: IntegratedDelegatedService,
    status: AdvisorStatus,
    emit_event: bool,
) -> bool {
    if emit_event {
        tells_unavailable(old_journal, told, service, status)
    } else {
        told == old_journal
    }
}

/// The worker has the advice, and the log says so.
pub open spec fn is_delivered(
    before: IntegratedDelegatedService,
    after: IntegratedDelegatedService,
    old_journal: DelegatedJournal,
    new_journal: DelegatedJournal,
    response: AdviceResponseV1,
) -> bool {
    let old_events = old_journal.run(before.run_id@).events@;
    let new_events = new_journal.run(before.run_id@).events@;
    &&& after == (IntegratedDelegatedService {
        provider_history: after.provider_history,
        next_event_sequence: behind_log(new_journal, before.run_id@),
        ..before
    })
    &&& says(
        before.provider_history@,
        after.provider_history@,
        "user"@,
        untrusted_context(response),
    )
    &&& new_events.len() == old_events.len() + 1
    &&& new_events.drop_last() == old_events
    &&& is_delivery_event(new_events.last().payload, response)
    &&& only_logged(old_journal, new_journal, before.run_id@)
}

/// What a consultation that ended does.
pub open spec fn is_finished_consultation(
    before: IntegratedDelegatedService,
    after: IntegratedDelegatedService,
    old_journal: DelegatedJournal,
    new_journal: DelegatedJournal,
    advice_required: bool,
    cancelled: bool,
    response: Result<AdviceResponseV1, AdvisorError>,
    r: Result<(), IntegratedError>,
) -> bool {
    if cancelled || (response is Ok && response->Ok_0.status == AdvisorStatus::Cancelled) {
        goes_without_advice(
            before,
            after,
            old_journal,
            new_journal,
            AdvisorStatus::Cancelled,
            "advisor consultation was cancelled with the CatDesk run"@,
            advice_required,
            false,
            r,
        )
    } else {
        match response {
            Ok(answer) => if answer.status == AdvisorStatus::Completed {
                r is Ok && is_delivered(before, after, old_journal, new_journal, answer)
            } else {
                goes_without_advice(
                    before,
                    after,
                    old_journal,
                    new_journal,
                    answer.status,
                    "advisor returned a non-completed terminal status"@,
                    advice_required,
                    true,
                    r,
                )
            },
            Err(e) => goes_without_advice(
                before,
                after,
                old_journal,
                new_journal,
                AdvisorStatus::Failed,
                "advisor unavailable: "@ + e.debug(),
                advice_required,
                true,
                r,
            ),
        }
    }
}

/// How the configured advisor is asked.
pub open spec fn is_broker_config(config: AdviceBrokerConfigV1, advisor: IntegratedAdvisorConfigV1) -> bool {
    config == (AdviceBrokerConfigV1 {
        advisor_enabled: true,
        allowed_advisor_id: Some(advisor.advisor_id),
        disclosure_policy: DisclosurePolicy::RemoteAllowed,
        max_excerpt_bytes: 4_096,
        max_total_serialized_bytes: 24_576,
        default_maximum_response_length: advisor.maximum_response_length,
        timeout_seconds: 180,
    })
}

/// How the configured advisor is asked.
pub fn broker_config(advisor: &IntegratedAdvisorConfigV1) -> (r: AdviceBrokerConfigV1)
    ensures
        is_broker_config(r, *advisor),
{
    let mut config: AdviceBrokerConfigV1 = AdviceBrokerConfigV1::remote_advisory_default();
    config.allowed_advisor_id = Some(advisor.advisor_id.clone());
    config.default_maximum_response_length = advisor.maximum_response_length;
    config.timeout_seconds = 180;
    config
}

/// The program that the configured advisor is reached through.
pub fn advisor_process_config(runtime: &IntegratedAdvisorLocalRuntimeConfigV1) -> (r:
    DeepSeekProcessAdvisorConfig)
    ensures
        r.python_executable@ == runtime.python_executable@,
        r.adapter_script@ == runtime.adapter_script@,
        r.profile_dir@ == runtime.profile_dir@,
        r.selectors_path == runtime.selectors_path,
        r.headed == runtime.headed,
        r.allow_env_login == runtime.allow_env_login,
        begins_with(r.auth_token@, "catdesk-advisor-"@),
        is_uuid_text(r.auth_token@.skip("catdesk-advisor-"@.len() as int)),
        r.public_advisor_id@ == "deepseek-web"@,
        r.sidecar_advisor_id@ == "deepseek-web-advisor-experimental"@,
        r.extra_env@.len() == 0,
{
    let mut config: DeepSeekProcessAdvisorConfig = DeepSeekProcessAdvisorConfig::new(
        runtime.python_executable.as_str(),
        runtime.adapter_script.as_str(),
        runtime.profile_dir.as_str(),
    );
    config.selectors_path = copy_opt(&runtime.selectors_path);
    config.headed = runtime.headed;
    config.allow_env_login = runtime.allow_env_login;
    config
}

fn copy_sources(shown: &Vec<BoundedSourceExcerptV1>) -> (r: Vec<String>)
    ensures
        r@ == shown@.map_values(|e: BoundedSourceExcerptV1| e.source),
{
    let mut r: Vec<String> = Vec::new();
    let ghost all = shown@.map_values(|e: BoundedSourceExcerptV1| e.source);
    let mut i: usize = 0;
    while i < shown.len()
        invariant
            i <= shown@.len(),
            all == shown@.map_values(|e: BoundedSourceExcerptV1| e.source),
            r@ == all.take(i as int),
        decreases shown@.len() - i,
    {
        let ghost prior = r@;
        r.push(shown[i].source.clone());
        i += 1;
        assert(r@ =~= prior.push(all[i - 1]));
        assert(all.take(i as int) =~= all.take(i - 1).push(all[i - 1]));
    }
    assert(all.take(i as int) =~= all);
    r
}

impl IntegratedDelegatedService {
    /// What an advisor is shown of the files that were read last.
    pub fn bounded_advisor_source_excerpts(&self) -> (r: Vec<BoundedSourceExcerptV1>)
        ensures
            are_shown(r@, self.recent_read_excerpts@),
    {
        let ghost all = self.recent_read_excerpts@;
        let ghost goal = shown_contents(all, all.len() as int, 0, 0);
        let mut shown: Vec<BoundedSourceExcerptV1> = Vec::new();
        let mut total: usize = 0;
        let mut n: usize = self.recent_read_excerpts.len();
        let mut full: bool = false;
        assert(goal =~= shown_contents(all, all.len() as int, 0, 0) + Seq::<Seq<char>>::empty());
        assert(contents_of(shown@) =~= Seq::<Seq<char>>::empty());
        while !full && n > 0 && shown.len() < 3
            invariant
                all == self.recent_read_excerpts@,
                goal == shown_contents(all, all.len() as int, 0, 0),
                n <= all.len(),
                shown@.len() == all.len() - n,
                shown@.len() <= 3,
                total <= MAX_ADVISOR_SOURCE_BYTES,
                goal == shown_contents(all, n as int, shown@.len() as int, total as int)
                    + contents_of(shown@),
                full ==> goal == contents_of(shown@),
                forall|i: int|
                    0 <= i < shown@.len() ==> (#[trigger] shown@[i]).source == all[n + i].source
                        && shown@[i].summary == all[n + i].summary,
            decreases n + if full {
                0int
            } else {
                1
            },
        {
            let excerpt: &BoundedSourceExcerptV1 = &self.recent_read_excerpts[n - 1];
            let mut content: String = redact_and_bound(excerpt.content.as_str(), 2_048);
            let len: usize = byte_len(content.as_str());
            let ghost prior = shown@;
            let ghost before = shown_contents(
                all,
                n as int,
                shown@.len() as int,
                total as int,
            );
            if len > MAX_ADVISOR_SOURCE_BYTES - total && total == MAX_ADVISOR_SOURCE_BYTES {
                full = true;
                assert(before =~= Seq::<Seq<char>>::empty());
                assert(goal =~= contents_of(shown@));
            } else {
                if len > MAX_ADVISOR_SOURCE_BYTES - total {
                    content = redact_and_bound(
                        content.as_str(),
                        MAX_ADVISOR_SOURCE_BYTES - total,
                    );
                }
                total = total + byte_len(content.as_str());
                let ghost shown_text = content@;
                shown.insert(
                    0,
                    BoundedSourceExcerptV1 {
                        source: excerpt.source.clone(),
                        summary: excerpt.summary.clone(),
                        content,
                    },
                );
                n = n - 1;
                proof {
                    let rest = shown_contents(
                        all,
                        n as int,
                        shown@.len() as int,
                        total as int,
                    );
                    assert(before == rest.push(shown_text));
                    assert(contents_of(shown@) =~= seq![shown_text] + contents_of(prior));
                    assert(rest.push(shown_text) + contents_of(prior) =~= rest + (seq![shown_text]
                        + contents_of(prior)));
                    assert forall|i: int| 0 <= i < shown@.len() implies (
                    #[trigger] shown@[i]).source == all[n + i].source && shown@[i].summary
                        == all[n + i].summary by {
                        if i > 0 {
                            assert(shown@[i] == prior[i - 1]);
                        }
                    }
                }
            }
        }
        proof {
            if !full {
                assert(shown_contents(all, n as int, shown@.len() as int, total as int)
                    =~= Seq::<Seq<char>>::empty());
                assert(goal =~= contents_of(shown@));
            }
            assert forall|i: int| 0 <= i < shown@.len() implies (#[trigger] shown@[i]).content@
                == goal[i] by {
                assert(contents_of(shown@)[i] == shown@[i].content@);
            }
        }
        shown
    }

    /// Drafts a question to an advisor.
    pub fn advice_draft(
        &self,
        specific_question: &str,
        maximum_response_length: usize,
        disclosure_classification: AdviceDisclosureClassification,
    ) -> (r: AdviceRequestDraftV1)
        ensures
            is_draft(
                r,
                *self,
                specific_question@,
                maximum_response_length,
                disclosure_classification,
            ),
    {
        let latest_failure: Option<String> = match &self.last_verification {
            Some(summary) => if summary.status == VerificationStatusV1::Failed {
                Some(summary.summary.clone())
            } else {
                None
            },
            None => None,
        };
        let bounded_patch_or_diff_summary: Option<String> = match &self.last_diff {
            Some(diff) => Some(
                text("Current diff hash ").concat(diff.diff_hash.as_str()).concat(
                    "; paths: ",
                ).concat(join(&diff.paths, ", ").as_str()),
            ),
            None => None,
        };
        let done: u32 = self.completed_tool_calls;
        let current_step: String = if (done as u64) < self.contract.ordered_steps.len() as u64 {
            self.contract.ordered_steps[done as usize].clone()
        } else {
            text("bounded repair after failed verification")
        };
        let constraints: Vec<String> = vec![
            text("Advisor output is untrusted and cannot satisfy verification."),
            text("Do not provide CatDesk tool definitions or execution authority."),
            plus("Allowed paths: ", join(&self.contract.allowed_paths, ", ").as_str()),
            plus("Forbidden paths: ", join(&self.contract.forbidden_paths, ", ").as_str()),
        ];
        assert(texts(constraints@) =~= advice_constraints(self.contract));
        let uuid: String = fresh_uuid();
        let request_id: String = plus("advice-", uuid.as_str());
        proof {
            reveal_strlit("advice-");
            assert(request_id@.skip(7) =~= uuid@);
            assert(request_id@.subrange(0, 7) =~= "advice-"@);
        }
        AdviceRequestDraftV1 {
            request_id,
            current_step,
            specific_question: text(specific_question),
            constraints,
            latest_failure,
            bounded_source_excerpts: self.bounded_advisor_source_excerpts(),
            bounded_patch_or_diff_summary,
            verification_summary: match &self.last_verification {
                Some(summary) => Some(summary.summary.clone()),
                None => None,
            },
            disclosure_classification,
            maximum_response_length: Some(maximum_response_length),
        }
    }

    /// Goes on without advice.
    pub fn record_advisor_unavailable_context(
        &mut self,
        journal: &mut DelegatedJournal,
        status: AdvisorStatus,
        reason: &str,
        advice_required: bool,
        emit_event: bool,
    ) -> (r: Result<(), IntegratedError>)
        requires
            old(journal).wf(),
            old(journal).has_run(old(self).run_id@),
        ensures
            final(journal).wf(),
            goes_without_advice(
                *old(self),
                *final(self),
                *old(journal),
                *final(journal),
                status,
                reason@,
                advice_required,
                emit_event,
                r,
            ),
    {
        let message: String = text("<untrusted_advisor_context>\nAdvisor advice unavailable (").concat(
            status_name_text(&status),
        ).concat("). ").concat(reason).concat(
            ". Continue locally with ordinary CatDesk tools; advice cannot satisfy verification or completion.\n</untrusted_advisor_context>",
        );
        if emit_event {
            let shown: Vec<BoundedSourceExcerptV1> = self.bounded_advisor_source_excerpts();
            let payload: EventPayloadV1 = EventPayloadV1::AdvisorEvent {
                event: text(advisor_terminal_event_name(&status)),
                request_id: None,
                generation_id: None,
                advisor_id: Some(text("deepseek-web")),
                status: Some(text(status_name_text(&status))),
                request_bytes: None,
                response_bytes: None,
                request_hash: None,
                response_hash: None,
                selected_source_paths: copy_sources(&shown),
                artifact_reference: None,
                timestamp_unix_ms: timestamp_unix_ms(),
            };
            let ghost given = payload;
            let logged: Result<(), IntegratedError> = self.append_event(
                journal,
                LifecycleEvent::Delta,
                payload,
            );
            assert(logged is Ok);
            assert(is_unavailable_event(given, status, shown@));
            assert(tells_unavailable(*old(journal), *journal, *old(self), status));
        }
        let ghost told = *journal;
        assert(is_told(*old(journal), told, *old(self), status, emit_event));
        self.provider_history.push(plain_message("user", message));
        assert(self.provider_history@.drop_last() =~= old(self).provider_history@);
        if advice_required {
            let moved: Result<RunSnapshotV1, JournalError> = journal.update_run_state(
                &self.run_id,
                RunState::NeedsSupervisor,
            );
            assert(moved is Ok);
            return Err(
                IntegratedError::Tool(
                    plus(
                        "required advisor consultation unavailable: ",
                        status_name_text(&status),
                    ),
                ),
            );
        }
        Ok(())
    }

    /// Begins a consultation of the configured advisor, if one is due: it is counted,
    /// and what the advisor is asked comes back. A run that has no program to reach the
    /// advisor through goes on without advice.
    pub fn begin_configured_consultation(&mut self, journal: &mut DelegatedJournal) -> (r: Result<
        Option<AdviceRequestDraftV1>,
        IntegratedError,
    >)
        requires
            old(journal).wf(),
            old(journal).has_run(old(self).run_id@),
        ensures
            final(journal).wf(),
            if !is_consultation_due(*old(self)) {
                &&& r matches Ok(None)
                &&& *final(self) == *old(self)
                &&& *final(journal) == *old(journal)
            } else if old(self).config.advisor->0.local_runtime is None {
                &&& r matches Ok(draft) ==> draft is None
                &&& goes_without_advice(
                    with_consultation(*old(self)),
                    *final(self),
                    *old(journal),
                    *final(journal),
                    AdvisorStatus::Unavailable,
                    "advisor local sidecar configuration is unavailable"@,
                    old(self).config.advisor->0.advice_required,
                    true,
                    match r {
                        Ok(_) => Ok(()),
                        Err(e) => Err(e),
                    },
                )
            } else {
                &&& *final(self) == with_consultation(*old(self))
                &&& *final(journal) == *old(journal)
                &&& r is Ok && r->Ok_0 is Some
                &&& is_draft(
                    r->Ok_0->0,
                    *old(self),
                    consultation_question(),
                    old(self).config.advisor->0.maximum_response_length,
                    old(self).config.advisor->0.disclosure_classification,
                )
            },
    {
        let advisor: IntegratedAdvisorConfigV1 = match &self.config.advisor {
            Some(advisor) => advisor.clone(),
            None => return Ok(None),
        };
        if !advisor.enabled || !same(advisor.advisor_id.as_str(), "deepseek-web")
            || advisor.disclosure_classification != AdviceDisclosureClassification::RemoteAllowed
            || self.consecutive_failed_verifications < 2
            || self.advice_consulted_for_current_failure || self.advisor_consultations_used
            >= advisor.maximum_consultations_per_run {
            return Ok(None);
        }
        self.advice_consulted_for_current_failure = true;
        self.advisor_consultations_used = self.advisor_consultations_used + 1;
        if advisor.local_runtime.is_none() {
            return match self.record_advisor_unavailable_context(
                journal,
                AdvisorStatus::Unavailable,
                "advisor local sidecar configuration is unavailable",
                advisor.advice_required,
                true,
            ) {
                Ok(_) => Ok(None),
                Err(e) => Err(e),
            };
        }
        let draft: AdviceRequestDraftV1 = self.advice_draft(
            "Two consecutive bounded verification attempts failed. Provide advisory-only diagnosis and next-step suggestions based only on the bounded context supplied.",
            advisor.maximum_response_length,
            advisor.disclosure_classification,
        );
        Ok(Some(draft))
    }

    /// Ends a consultation of the configured advisor. What comes of one that was
    /// cancelled never reaches the worker.
    pub fn finish_configured_consultation(
        &mut self,
        journal: &mut DelegatedJournal,
        advice_required: bool,
        cancelled: bool,
        response: Result<AdviceResponseV1, AdvisorError>,
    ) -> (r: Result<(), IntegratedError>)
        requires
            old(journal).wf(),
            old(journal).has_run(old(self).run_id@),
        ensures
            final(journal).wf(),
            is_finished_consultation(
                *old(self),
                *final(self),
                *old(journal),
                *final(journal),
                advice_required,
                cancelled,
                response,
                r,
            ),
    {
        if cancelled {
            return self.record_advisor_unavailable_context(
                journal,
                AdvisorStatus::Cancelled,
                "advisor consultation was cancelled with the CatDesk run",
                advice_required,
                false,
            );
        }
        match response {
            Ok(answer) => match answer.status {
                AdvisorStatus::Cancelled => self.record_advisor_unavailable_context(
                    journal,
                    AdvisorStatus::Cancelled,
                    "advisor consultation was cancelled with the CatDesk run",
                    advice_required,
                    false,
                ),
                AdvisorStatus::Completed => {
                    self.deliver_advice(journal, &answer);
                    Ok(())
                },
                status => self.record_advisor_unavailable_context(
                    journal,
                    status,
                    "advisor returned a non-completed terminal status",
                    advice_required,
                    true,
                ),
            },
            Err(e) => {
                let reason: String = plus("advisor unavailable: ", e.debug_text().as_str());
                self.record_advisor_unavailable_context(
                    journal,
                    AdvisorStatus::Failed,
                    reason.as_str(),
                    advice_required,
                    true,
                )
            },
        }
    }

    fn deliver_advice(&mut self, journal: &mut DelegatedJournal, answer: &AdviceResponseV1)
        requires
            old(journal).wf(),
            old(journal).has_run(old(self).run_id@),
        ensures
            final(journal).wf(),
            is_delivered(*old(self), *final(self), *old(journal), *final(journal), *answer),
    {
        let context: ProviderMessageV1 =
            AdvisorBroker::<FakeAdvisor>::untrusted_context_for_qwen(answer);
        self.provider_history.push(context);
        assert(self.provider_history@.drop_last() =~= old(self).provider_history@);
        let broker: AdvisorBroker<FakeAdvisor> = AdvisorBroker::new(
            FakeAdvisor::success(),
            AdviceBrokerConfigV1::remote_advisory_default(),
        ).with_worker_session_id(self.worker_session_id.clone());
        let recorded: Result<(), AdvisorError> = broker.record_advice_delivered_to_worker(
            journal,
            &self.run_id,
            answer,
        );
        assert(recorded is Ok);
        proof {
            reveal(only_logged);
        }
        let refreshed: Result<(), IntegratedError> = self.refresh_next_event_sequence(journal);
        assert(refreshed is Ok);
    }
}

/// What comes of asking an advisor that is at hand.
pub open spec fn is_asked(
    before: IntegratedDelegatedService,
    after: IntegratedDelegatedService,
    old_journal: DelegatedJournal,
    new_journal: DelegatedJournal,
    trigger: AdviceTrigger,
    asked: DelegatedJournal,
    answer: Result<AdviceResponseV1, AdvisorError>,
    r: Result<AdviceResponseV1, IntegratedError>,
) -> bool {
    match answer {
        Err(e) => {
            &&& after == before
            &&& new_journal == asked
            &&& r is Err && is_tool_error(r->Err_0, e.debug())
        },
        Ok(response) => {
            &&& r == Ok::<AdviceResponseV1, IntegratedError>(response)
            &&& if response.status == AdvisorStatus::Completed {
                is_delivered(before, after, asked, new_journal, response)
            } else {
                new_journal == asked && has_said(
                    before,
                    after,
                    "user"@,
                    status_message(response.status),
                )
            }
        },
    }
}

/// The advisor was consulted, with a draft of this run.
pub open spec fn is_consulted<A: AdvisorAdapter>(
    service: IntegratedDelegatedService,
    old_journal: DelegatedJournal,
    asked: DelegatedJournal,
    at_hand: A,
    handed_back: A,
    trigger: AdviceTrigger,
    question: Seq<char>,
    config: AdviceBrokerConfigV1,
    draft: AdviceRequestDraftV1,
    answer: Result<AdviceResponseV1, AdvisorError>,
) -> bool {
    let advisor = service.config.advisor->0;
    &&& is_broker_config(config, advisor)
    &&& is_draft(
        draft,
        service,
        question,
        advisor.maximum_response_length,
        advisor.disclosure_classification,
    )
    &&& is_consultation(
        answer,
        at_hand,
        handed_back,
        config,
        Some(service.worker_session_id),
        old_journal,
        asked,
        service.contract,
        draft,
        trigger,
        false,
    )
}

/// The advisor has been in touch over a draft of this run and over nothing else.
#[verifier::opaque]
pub open spec fn is_let_in<A: AdvisorAdapter>(
    service: IntegratedDelegatedService,
    at_hand: A,
    handed_back: A,
    line: &mut A,
    readied: A,
    asked: &mut A,
    answered: A,
    trigger: AdviceTrigger,
    question: Seq<char>,
) -> bool {
    let advisor = service.config.advisor->0;
    exists|config: AdviceBrokerConfigV1, draft: AdviceRequestDraftV1| #[trigger]
        is_disclosed(
            at_hand,
            handed_back,
            line,
            readied,
            asked,
            answered,
            config,
            service.contract,
            draft,
            trigger,
            false,
        ) && is_broker_config(config, advisor) && is_draft(
            draft,
            service,
            question,
            advisor.maximum_response_length,
            advisor.disclosure_classification,
        )
}

/// Why an advisor is not asked, if it is not.
pub open spec fn advisor_problem(
    config: Option<IntegratedAdvisorConfigV1>,
    advisor_id: Seq<char>,
) -> Option<Seq<char>> {
    match config {
        None => Some("advisor integration is not configured"@),
        Some(advisor) => if !advisor.enabled {
            Some("advisor integration is disabled"@)
        } else if advisor.advisor_id@ != advisor_id {
            Some("advisor "@ + advisor_id + " is not explicitly configured"@)
        } else {
            None
        },
    }
}

/// What asking an advisor does.
#[verifier::opaque]
pub open spec fn consults<A: AdvisorAdapter>(
    before: IntegratedDelegatedService,
    after: IntegratedDelegatedService,
    old_journal: DelegatedJournal,
    new_journal: DelegatedJournal,
    at_hand: A,
    handed_back: A,
    advisor_id: Seq<char>,
    trigger: AdviceTrigger,
    question: Seq<char>,
    r: Result<AdviceResponseV1, IntegratedError>,
) -> bool {
    match advisor_problem(before.config.advisor, advisor_id) {
        Some(problem) => {
            &&& after == before
            &&& new_journal == old_journal
            &&& handed_back == at_hand
            &&& r is Err && is_tool_error(r->Err_0, problem)
        },
        None => exists|
            asked: DelegatedJournal,
            config: AdviceBrokerConfigV1,
            draft: AdviceRequestDraftV1,
            answer: Result<AdviceResponseV1, AdvisorError>,
        | #[trigger]
            is_consulted(
                before,
                old_journal,
                asked,
                at_hand,
                handed_back,
                trigger,
                question,
                config,
                draft,
                answer,
            ) && is_asked(before, after, old_journal, new_journal, trigger, asked, answer, r),
    }
}

impl IntegratedDelegatedService {
    /// Asks an advisor that is at hand, and hands it back with what came of it.
    pub fn consult_advisor<A: AdvisorAdapter>(
        &mut self,
        journal: &mut DelegatedJournal,
        advisor: A,
        trigger: AdviceTrigger,
        specific_question: &str,
    ) -> (r: (A, Result<AdviceResponseV1, IntegratedError>))
        requires
            old(self).wf(),
            old(journal).wf(),
        ensures
            final(journal).wf(),
            exists|name: Seq<char>| #[trigger]
                goes_by(advisor, name) && consults(
                    *old(self),
                    *final(self),
                    *old(journal),
                    *final(journal),
                    advisor,
                    r.0,
                    name,
                    trigger,
                    specific_question@,
                    r.1,
                ),
            r.0 == advisor || exists|line: &mut A, asked: &mut A| #[trigger]
                is_let_in(
                    *old(self),
                    advisor,
                    r.0,
                    line,
                    mut_ref_future(line),
                    asked,
                    mut_ref_future(asked),
                    trigger,
                    specific_question@,
                ),
    {
        proof {
            reveal(consults);
        }
        let name: String = text(advisor.advisor_id());
        assert(goes_by(advisor, name@));
        let advisor_config: IntegratedAdvisorConfigV1 = match &self.config.advisor {
            Some(config) => config.clone(),
            None => return (advisor, tool_error("advisor integration is not configured")),
        };
        if !advisor_config.enabled {
            return (advisor, tool_error("advisor integration is disabled"));
        }
        if !same(advisor_config.advisor_id.as_str(), name.as_str()) {
            let message: String = text("advisor ").concat(name.as_str()).concat(
                " is not explicitly configured",
            );
            return (advisor, Err(IntegratedError::Tool(message)));
        }
        let draft: AdviceRequestDraftV1 = self.advice_draft(
            specific_question,
            advisor_config.maximum_response_length,
            advisor_config.disclosure_classification,
        );
        let ghost at_hand = advisor;
        let mut broker: AdvisorBroker<A> = AdvisorBroker {
            adapter: advisor,
            config: broker_config(&advisor_config),
            worker_session_id: Some(self.worker_session_id.clone()),
        };
        let ghost config = broker.config;
        let answer: Result<AdviceResponseV1, AdvisorError> = broker.consult(
            journal,
            &self.contract,
            &draft,
            trigger,
        );
        let ghost asked = *journal;
        assert(is_consulted(
            *old(self),
            *old(journal),
            asked,
            at_hand,
            broker.adapter,
            trigger,
            specific_question@,
            config,
            draft,
            answer,
        ));
        proof {
            if broker.adapter != at_hand {
                let (line, put) = choose|line: &mut A, put: &mut A| #[trigger]
                    is_disclosed(
                        at_hand,
                        broker.adapter,
                        line,
                        mut_ref_future(line),
                        put,
                        mut_ref_future(put),
                        config,
                        self.contract,
                        draft,
                        trigger,
                        false,
                    );
                assert(is_let_in(
                    *old(self),
                    at_hand,
                    broker.adapter,
                    line,
                    mut_ref_future(line),
                    put,
                    mut_ref_future(put),
                    trigger,
                    specific_question@,
                )) by {
                    reveal(is_let_in);
                }
            }
        }
        match answer {
            Err(e) => (broker.adapter, Err(IntegratedError::Tool(e.debug_text()))),
            Ok(response) => {
                match response.status {
                    AdvisorStatus::Completed => {
                        proof {
                            reveal(only_logged);
                            assert(journal.has_run(self.run_id@));
                        }
                        self.deliver_advice(journal, &response);
                    },
                    status => {
                        let message: String = text(
                            "<untrusted_advisor_context>\nAdvisor returned status ",
                        ).concat(status_name_text(&status)).concat(
                            "; continue locally unless supervisor policy requires escalation.\n</untrusted_advisor_context>",
                        );
                        self.provider_history.push(plain_message("user", message));
                        assert(self.provider_history@.drop_last() =~= old(self).provider_history@);
                    },
                }
                (broker.adapter, Ok(response))
            },
        }
    }

    /// Asks an advisor that is at hand, if two verifications failed in a row and nobody
    /// was asked about that yet.
    pub fn maybe_consult_advisor_after_failed_repairs<A: AdvisorAdapter>(
        &mut self,
        journal: &mut DelegatedJournal,
        advisor: A,
        specific_question: &str,
    ) -> (r: (A, Result<Option<AdviceResponseV1>, IntegratedError>))
        requires
            old(self).wf(),
            old(journal).wf(),
        ensures
            final(journal).wf(),
            if old(self).consecutive_failed_verifications < 2 || old(self).advice_consulted_for_current_failure {
                &&& r.1 matches Ok(None)
                &&& r.0 == advisor
                &&& *final(self) == *old(self)
                &&& *final(journal) == *old(journal)
            } else {
                exists|name: Seq<char>| #[trigger]
                    goes_by(advisor, name) && consults_on_repairs(
                        *old(self),
                        *final(self),
                        *old(journal),
                        *final(journal),
                        advisor,
                        r.0,
                        name,
                        specific_question@,
                        r.1,
                    )
            },
            r.0 == advisor || exists|line: &mut A, asked: &mut A| #[trigger]
                is_let_in(
                    *old(self),
                    advisor,
                    r.0,
                    line,
                    mut_ref_future(line),
                    asked,
                    mut_ref_future(asked),
                    AdviceTrigger::TwoFailedBoundedRepairAttempts {
                        failed_attempts: old(self).consecutive_failed_verifications,
                    },
                    specific_question@,
                ),
    {
        if self.consecutive_failed_verifications < 2 || self.advice_consulted_for_current_failure {
            return (advisor, Ok(None));
        }
        let trigger: AdviceTrigger = AdviceTrigger::TwoFailedBoundedRepairAttempts {
            failed_attempts: self.consecutive_failed_verifications,
        };
        let ghost at_hand = advisor;
        let (advisor, told): (A, Result<AdviceResponseV1, IntegratedError>) =
            self.consult_advisor(journal, advisor, trigger, specific_question);
        let ghost asked = *self;
        let ghost said = told;
        let ghost name = choose|name: Seq<char>| #[trigger]
            goes_by(at_hand, name) && consults(
                *old(self),
                asked,
                *old(journal),
                *journal,
                at_hand,
                advisor,
                name,
                trigger,
                specific_question@,
                told,
            );
        assert(goes_by(at_hand, name) && consults(
            *old(self),
            asked,
            *old(journal),
            *journal,
            at_hand,
            advisor,
            name,
            AdviceTrigger::TwoFailedBoundedRepairAttempts {
                failed_attempts: old(self).consecutive_failed_verifications,
            },
            specific_question@,
            said,
        ));
        let r: Result<Option<AdviceResponseV1>, IntegratedError> = match told {
            Ok(response) => {
                self.advice_consulted_for_current_failure = true;
                Ok(Some(response))
            },
            Err(e) => Err(e),
        };
        assert(is_marked(asked, *self, said, r));
        assert(consults_on_repairs(
            *old(self),
            *self,
            *old(journal),
            *journal,
            at_hand,
            advisor,
            name,
            specific_question@,
            r,
        ));
        (advisor, r)
    }
}

/// What asking an advisor about failed repairs does.
pub open spec fn consults_on_repairs<A: AdvisorAdapter>(
    before: IntegratedDelegatedService,
    after: IntegratedDelegatedService,
    old_journal: DelegatedJournal,
    new_journal: DelegatedJournal,
    at_hand: A,
    handed_back: A,
    name: Seq<char>,
    question: Seq<char>,
    r: Result<Option<AdviceResponseV1>, IntegratedError>,
) -> bool {
    exists|asked: IntegratedDelegatedService, told: Result<AdviceResponseV1, IntegratedError>| #[trigger]
        consults(
            before,
            asked,
            old_journal,
            new_journal,
            at_hand,
            handed_back,
            name,
            AdviceTrigger::TwoFailedBoundedRepairAttempts {
                failed_attempts: before.consecutive_failed_verifications,
            },
            question,
            told,
        ) && is_marked(asked, after, told, r)
}

/// The failure is marked as one that an advisor was asked about, where it could be.
pub open spec fn is_marked(
    asked: IntegratedDelegatedService,
    after: IntegratedDelegatedService,
    told: Result<AdviceResponseV1, IntegratedError>,
    r: Result<Option<AdviceResponseV1>, IntegratedError>,
) -> bool {
    match told {
        Ok(response) => r == Ok::<Option<AdviceResponseV1>, IntegratedError>(Some(response))
            && after == (IntegratedDelegatedService {
            advice_consulted_for_current_failure: true,
            ..asked
        }),
        Err(e) => r == Err::<Option<AdviceResponseV1>, IntegratedError>(e) && after == asked,
    }
}

/// What the configured advisor is asked.
pub open spec fn consultation_question() -> Seq<char> {
    "Two consecutive bounded verification attempts failed. Provide advisory-only diagnosis and next-step suggestions based only on the bounded context supplied."@
}

/// The contents of excerpts.
pub open spec fn contents_of(excerpts: Seq<BoundedSourceExcerptV1>) -> Seq<Seq<char>> {
    excerpts.map_values(|e: BoundedSourceExcerptV1| e.content@)
}

/// Whatever an advisor answers, and whether it answers at all, neither the verification
/// nor the diff that a run is judged by changes: advice opens no gate.
pub proof fn lemma_advice_is_no_evidence(
    before: IntegratedDelegatedService,
    after: IntegratedDelegatedService,
    old_journal: DelegatedJournal,
    new_journal: DelegatedJournal,
    advice_required: bool,
    cancelled: bool,
    response: Result<AdviceResponseV1, AdvisorError>,
    r: Result<(), IntegratedError>,
)
    requires
        is_finished_consultation(
            before,
            after,
            old_journal,
            new_journal,
            advice_required,
            cancelled,
            response,
            r,
        ),
    ensures
        after.last_verification == before.last_verification,
        after.last_diff == before.last_diff,
        after.contract == before.contract,
        after.completed_tool_call_ids == before.completed_tool_call_ids,
{
}

} // verus!
