//! Long-running commands of delegated runs: their records and their logs.

use vstd::prelude::*;
use vstd::string::*;
use vstd::seq_lib::*;
use crate::EXECUTION_CONTRACT_SCHEMA_VERSION;
use crate::sorting::{lemma_filter_last, lemma_insert_at, sorted};
use crate::text::{
    alnum, before, begins_with, blank, byte_len, chars_of, copy_opt, debug_variant,
    debug_variant_text, decode_lossy, is_alnum, is_blank, is_white, lemma_ascii_utf8_len,
    lossy_decoded, opt_text, text, text_before, utf8_len,
};

verus! {

const DEFAULT_MAX_LOG_BYTES: u64 = 1_048_576;

const DEFAULT_POLL_BYTES: usize = 16_384;

const MAX_POLL_BYTES: usize = 65_536;

const MAX_JOB_ID_BYTES: usize = 128;

/// A UUID as text: 36 characters, dashes at four places and small hexadecimal digits at
/// the others.
pub open spec fn is_uuid_text(s: Seq<char>) -> bool {
    &&& s.len() == 36
    &&& forall|i: int|
        0 <= i < 36 ==> if i == 8 || i == 13 || i == 18 || i == 23 {
            #[trigger] s[i] == '-'
        } else {
            ('0' <= s[i] && s[i] <= '9') || ('a' <= s[i] && s[i] <= 'f')
        }
}

/// A random UUID from `uuid::Uuid::new_v4`, printed in its hyphenated form. Only the form
/// is claimed: the digits are random.
#[verifier::external_body]
pub(crate) fn fresh_uuid() -> (r: String)
    ensures
        is_uuid_text(r@),
{
    uuid::Uuid::new_v4().to_string()
}

/// Names a job. The name is also the name of the job's directory.
#[derive(Debug, PartialEq, Eq, PartialOrd, Ord, Hash)]
pub struct JobId(String);

/// A character that a job id may hold.
pub open spec fn is_job_id_char(c: char) -> bool {
    is_alnum(c) || c == '-' || c == '_'
}

/// A job id has between 1 and 128 characters, all of them letters, digits, `-` or `_`.
pub open spec fn is_job_id(value: Seq<char>) -> bool {
    &&& !blank(value)
    &&& utf8_len(value) <= 128
    &&& forall|i: int| 0 <= i < value.len() ==> is_job_id_char(#[trigger] value[i])
}

impl View for JobId {
    type V = Seq<char>;

    closed spec fn view(&self) -> Seq<char> {
        self.0@
    }
}

impl Clone for JobId {
    fn clone(&self) -> (r: Self)
        ensures
            r == *self,
    {
        JobId(self.0.clone())
    }
}

impl JobId {
    /// Takes a text that can be a job id.
    pub fn new(value: &str) -> (r: Result<Self, JobError>)
        ensures
            match r {
                Ok(id) => is_job_id(value@) && id@ == value@,
                Err(JobError::Validation(message)) => !is_job_id(value@) && message@
                    == "invalid job id"@,
                Err(_) => false,
            },
    {
        let chars: Vec<char> = chars_of(value);
        let mut ok: bool = !is_blank(value) && byte_len(value) <= MAX_JOB_ID_BYTES;
        let mut i: usize = 0;
        while ok && i < chars.len()
            invariant
                i <= chars@.len(),
                chars@ == value@,
                ok ==> !blank(value@) && utf8_len(value@) <= 128,
                ok ==> forall|j: int| 0 <= j < i ==> is_job_id_char(#[trigger] value@[j]),
                !ok ==> !is_job_id(value@),
            decreases chars@.len() - i,
        {
            let c: char = chars[i];
            if !(alnum(c) || c == '-' || c == '_') {
                assert(!is_job_id_char(value@[i as int]));
                ok = false;
            }
            i += 1;
        }
        if ok {
            Ok(JobId(text(value)))
        } else {
            Err(JobError::Validation(text("invalid job id")))
        }
    }

    /// A job id that was not used before.
    pub fn fresh() -> (r: Self)
        ensures
            is_job_id(r@),
            begins_with(r@, "job-"@),
            is_uuid_text(r@.skip(4)),
    {
        let unique: String = fresh_uuid();
        let name: String = text("job-").concat(unique.as_str());
        proof {
            reveal_strlit("job-");
            assert("job-"@ =~= seq!['j', 'o', 'b', '-']);
            assert(name@.take(4) =~= "job-"@);
            assert(name@.skip(4) =~= unique@);
            assert forall|i: int| 0 <= i < name@.len() implies is_job_id_char(#[trigger] name@[i])
                && (name@[i] as nat) < 128 by {
                if i >= 4 {
                    assert(name@[i] == unique@[i - 4]);
                }
            }
            lemma_ascii_utf8_len(name@);
            assert(!is_white(name@[0]));
        }
        JobId(name)
    }

    /// The job id's text.
    pub fn as_str(&self) -> (r: &str)
        ensures
            r@ == self@,
    {
        self.0.as_str()
    }
}

/// How a job stands.
#[derive(Clone, Copy, Debug, PartialEq, Eq, Structural)]
pub enum JobStatus {
    Running,
    Succeeded,
    Failed,
    Cancelled,
    Lost,
}

impl JobStatus {
    /// Whether the job has ended.
    pub fn is_terminal(&self) -> (r: bool)
        ensures
            r == (*self != JobStatus::Running),
    {
        matches!(
            self,
            JobStatus::Succeeded | JobStatus::Failed | JobStatus::Cancelled | JobStatus::Lost
        )
    }
}

/// The outputs of a job.
#[derive(Clone, Copy, Debug, PartialEq, Eq, Structural)]
pub enum LogStream {
    Stdout,
    Stderr,
}

/// What a job is to do. Paths are given as text.
#[derive(Clone, Debug, PartialEq, Eq)]
pub struct JobSpecV1 {
    pub command: String,
    pub cwd: String,
    pub command_profile: String,
    pub max_log_bytes: u64,
}

impl JobSpecV1 {
    /// A job with the default profile and log size.
    pub fn new(command: &str, cwd: &str) -> (r: Self)
        ensures
            r.command@ == command@,
            r.cwd@ == cwd@,
            r.command_profile@ == "default"@,
            r.max_log_bytes == 1_048_576,
    {
        JobSpecV1 {
            command: text(command),
            cwd: text(cwd),
            command_profile: text("default"),
            max_log_bytes: DEFAULT_MAX_LOG_BYTES,
        }
    }
}

/// What is recorded of a job.
#[derive(Debug, PartialEq, Eq)]
pub struct JobRecordV1 {
    pub schema_version: u32,
    pub job_id: JobId,
    pub status: JobStatus,
    pub command: String,
    pub cwd: String,
    pub command_profile: String,
    pub pid: Option<u32>,
    pub exit_code: Option<i32>,
    pub started_at_ms: u128,
    pub finished_at_ms: Option<u128>,
    pub stdout_log: String,
    pub stderr_log: String,
    pub max_log_bytes: u64,
    pub status_detail: Option<String>,
}

impl Clone for JobRecordV1 {
    fn clone(&self) -> (r: Self)
        ensures
            r == *self,
    {
        JobRecordV1 {
            schema_version: self.schema_version,
            job_id: self.job_id.clone(),
            status: self.status,
            command: self.command.clone(),
            cwd: self.cwd.clone(),
            command_profile: self.command_profile.clone(),
            pid: self.pid,
            exit_code: self.exit_code,
            started_at_ms: self.started_at_ms,
            finished_at_ms: self.finished_at_ms,
            stdout_log: self.stdout_log.clone(),
            stderr_log: self.stderr_log.clone(),
            max_log_bytes: self.max_log_bytes,
            status_detail: copy_opt(&self.status_detail),
        }
    }
}

/// A piece of a log.
#[derive(Clone, Debug, PartialEq, Eq)]
pub struct LogPoll {
    pub text: String,
    pub offset: u64,
    pub next_offset: u64,
    pub truncated: bool,
    pub rotated: bool,
    pub local_path: String,
}

/// Why a job is refused.
#[derive(Debug, PartialEq, Eq)]
pub enum JobError {
    Io(String),
    Serde(String),
    Validation(String),
    Policy(String),
    NotFound(String),
    Timeout(String),
}

impl JobError {
    /// The error as `{:?}` prints it.
    pub open spec fn debug(self) -> Seq<char> {
        match self {
            JobError::Io(s) => debug_variant("Io"@, s@),
            JobError::Serde(s) => debug_variant("Serde"@, s@),
            JobError::Validation(s) => debug_variant("Validation"@, s@),
            JobError::Policy(s) => debug_variant("Policy"@, s@),
            JobError::NotFound(s) => debug_variant("NotFound"@, s@),
            JobError::Timeout(s) => debug_variant("Timeout"@, s@),
        }
    }

    /// Prints the error as `{:?}` does.
    pub fn debug_text(&self) -> (r: String)
        ensures
            r@ == self.debug(),
    {
        match self {
            JobError::Io(s) => debug_variant_text("Io", s.as_str()),
            JobError::Serde(s) => debug_variant_text("Serde", s.as_str()),
            JobError::Validation(s) => debug_variant_text("Validation", s.as_str()),
            JobError::Policy(s) => debug_variant_text("Policy", s.as_str()),
            JobError::NotFound(s) => debug_variant_text("NotFound", s.as_str()),
            JobError::Timeout(s) => debug_variant_text("Timeout", s.as_str()),
        }
    }
}

/// What the file system says of a job's working directory.
#[derive(Clone, Debug, PartialEq, Eq)]
pub enum CwdCheck {
    Missing(String),
    NotADirectory,
    Directory,
}

/// Why a job is not started, if it is not.
pub open spec fn spec_refusal(spec: JobSpecV1, cwd: CwdCheck) -> Option<Seq<char>> {
    if blank(spec.command@) {
        Some("command must not be empty"@)
    } else if blank(spec.command_profile@) {
        Some("command_profile must not be empty"@)
    } else if cwd is Missing {
        Some("cwd must exist: "@ + cwd->Missing_0@)
    } else if cwd is NotADirectory {
        Some("cwd must be a directory"@)
    } else if spec.max_log_bytes == 0 {
        Some("max_log_bytes must be greater than zero"@)
    } else {
        None
    }
}

/// Accepts a job that has a command, a profile, a directory and room for its log.
pub fn validate_spec(spec: &JobSpecV1, cwd: &CwdCheck) -> (r: Result<(), JobError>)
    ensures
        match r {
            Ok(_) => spec_refusal(*spec, *cwd) is None,
            Err(JobError::Validation(message)) => spec_refusal(*spec, *cwd) == Some(message@),
            Err(_) => false,
        },
{
    if is_blank(spec.command.as_str()) {
        return Err(JobError::Validation(text("command must not be empty")));
    }
    if is_blank(spec.command_profile.as_str()) {
        return Err(JobError::Validation(text("command_profile must not be empty")));
    }
    match cwd {
        CwdCheck::Missing(why) => {
            return Err(JobError::Validation(text("cwd must exist: ").concat(why.as_str())));
        },
        CwdCheck::NotADirectory => {
            return Err(JobError::Validation(text("cwd must be a directory")));
        },
        CwdCheck::Directory => {},
    }
    if spec.max_log_bytes == 0 {
        return Err(JobError::Validation(text("max_log_bytes must be greater than zero")));
    }
    Ok(())
}

/// The record of a job that has just been started.
pub fn started_record(
    spec: JobSpecV1,
    job_id: JobId,
    pid: Option<u32>,
    started_at_ms: u128,
    stdout_log: &str,
    stderr_log: &str,
) -> (r: JobRecordV1)
    ensures
        r.schema_version == EXECUTION_CONTRACT_SCHEMA_VERSION,
        r.job_id == job_id,
        r.status == JobStatus::Running,
        r.command == spec.command,
        r.cwd == spec.cwd,
        r.command_profile == spec.command_profile,
        r.pid == pid,
        r.exit_code is None,
        r.started_at_ms == started_at_ms,
        r.finished_at_ms is None,
        r.stdout_log@ == stdout_log@,
        r.stderr_log@ == stderr_log@,
        r.max_log_bytes == spec.max_log_bytes,
        r.status_detail is None,
{
    JobRecordV1 {
        schema_version: EXECUTION_CONTRACT_SCHEMA_VERSION,
        job_id,
        status: JobStatus::Running,
        command: spec.command,
        cwd: spec.cwd,
        command_profile: spec.command_profile,
        pid,
        exit_code: None,
        started_at_ms,
        finished_at_ms: None,
        stdout_log: text(stdout_log),
        stderr_log: text(stderr_log),
        max_log_bytes: spec.max_log_bytes,
        status_detail: None,
    }
}

/// How the process of a job ended.
#[derive(Clone, Debug, PartialEq, Eq)]
pub enum JobExit {
    Exited { success: bool, code: Option<i32> },
    Unobserved(String),
}

/// What the end of its process makes of a running job's record.
pub open spec fn is_finished(
    before: JobRecordV1,
    after: JobRecordV1,
    exit: JobExit,
    now_ms: u128,
) -> bool {
    &&& after == (JobRecordV1 {
        status: after.status,
        exit_code: after.exit_code,
        status_detail: after.status_detail,
        finished_at_ms: Some(now_ms),
        ..before
    })
    &&& match exit {
        JobExit::Exited { success, code } => {
            &&& after.status == if success {
                JobStatus::Succeeded
            } else {
                JobStatus::Failed
            }
            &&& after.exit_code == code
            &&& opt_text(after.status_detail) == Some(
                if success {
                    "process exited successfully"@
                } else {
                    "process exited unsuccessfully"@
                },
            )
        },
        JobExit::Unobserved(why) => {
            &&& after.status == JobStatus::Lost
            &&& after.exit_code == before.exit_code
            &&& opt_text(after.status_detail) == Some("failed to observe process exit: "@ + why@)
        },
    }
}

/// Settles the record of a job whose process has ended. A job that has ended in another
/// way before stays as it is.
pub fn finish_record(record: &JobRecordV1, exit: &JobExit, now_ms: u128) -> (r: Option<JobRecordV1>)
    ensures
        match r {
            Some(after) => record.status == JobStatus::Running && is_finished(
                *record,
                after,
                *exit,
                now_ms,
            ),
            None => record.status != JobStatus::Running,
        },
{
    if record.status.is_terminal() {
        return None;
    }
    let mut after: JobRecordV1 = record.clone();
    match exit {
        JobExit::Exited { success, code } => {
            after.exit_code = *code;
            if *success {
                after.status = JobStatus::Succeeded;
                after.status_detail = Some(text("process exited successfully"));
            } else {
                after.status = JobStatus::Failed;
                after.status_detail = Some(text("process exited unsuccessfully"));
            }
        },
        JobExit::Unobserved(why) => {
            after.status = JobStatus::Lost;
            after.status_detail = Some(
                text("failed to observe process exit: ").concat(why.as_str()),
            );
        },
    }
    after.finished_at_ms = Some(now_ms);
    Some(after)
}

/// What to do about a request to cancel a job.
#[derive(Debug, PartialEq, Eq)]
pub enum CancelStep {
    /// The job has ended already.
    Nothing,
    /// The process tree of this process is to be ended first.
    Kill { pid: u32 },
    /// There is no process to end.
    Record,
}

/// Decides what to do about a request to cancel a job.
pub fn cancel_step(record: &JobRecordV1) -> (r: CancelStep)
    ensures
        r == if record.status != JobStatus::Running {
            CancelStep::Nothing
        } else {
            match record.pid {
                Some(pid) => CancelStep::Kill { pid },
                None => CancelStep::Record,
            }
        },
{
    if record.status.is_terminal() {
        return CancelStep::Nothing;
    }
    match record.pid {
        Some(pid) => CancelStep::Kill { pid },
        None => CancelStep::Record,
    }
}

/// The record of a job that has been cancelled. A job that has ended stays as it is.
pub fn cancelled_record(record: &JobRecordV1, now_ms: u128) -> (r: JobRecordV1)
    ensures
        record.status != JobStatus::Running ==> r == *record,
        record.status == JobStatus::Running ==> r == (JobRecordV1 {
            status: JobStatus::Cancelled,
            finished_at_ms: Some(now_ms),
            status_detail: r.status_detail,
            ..*record
        }) && opt_text(r.status_detail) == Some("cancelled by supervisor"@),
{
    let mut after: JobRecordV1 = record.clone();
    if record.status.is_terminal() {
        return after;
    }
    after.status = JobStatus::Cancelled;
    after.finished_at_ms = Some(now_ms);
    after.status_detail = Some(text("cancelled by supervisor"));
    after
}

/// What a restart makes of a running job's record.
pub open spec fn is_recovered(
    before: JobRecordV1,
    after: JobRecordV1,
    alive: bool,
    now_ms: u128,
) -> bool {
    if alive && before.pid is Some {
        after == before
    } else {
        after == (JobRecordV1 {
            status: JobStatus::Lost,
            finished_at_ms: Some(now_ms),
            status_detail: after.status_detail,
            ..before
        }) && opt_text(after.status_detail) == Some("process missing during restart recovery"@)
    }
}

/// The record of a running job after a restart: lost, if its process is gone or was never
/// known.
pub fn recovered_record(record: &JobRecordV1, alive: bool, now_ms: u128) -> (r: JobRecordV1)
    ensures
        is_recovered(*record, r, alive, now_ms),
{
    let mut after: JobRecordV1 = record.clone();
    if !alive || record.pid.is_none() {
        after.status = JobStatus::Lost;
        after.finished_at_ms = Some(now_ms);
        after.status_detail = Some(text("process missing during restart recovery"));
    }
    after
}

/// The records of the jobs that run.
pub open spec fn running(records: Seq<JobRecordV1>) -> Seq<JobRecordV1> {
    records.filter(|r: JobRecordV1| r.status == JobStatus::Running)
}

/// Looks after the jobs that ran before a restart. `alive` tells, for each record, whether
/// its process is still there.
pub fn recover_running_jobs(records: &Vec<JobRecordV1>, alive: &Vec<bool>, now_ms: u128) -> (r: Vec<
    JobRecordV1,
>)
    requires
        alive@.len() == records@.len(),
    ensures
        r@.len() == running(records@).len(),
        exists|kept: Seq<int>| #[trigger]
            are_running_positions(kept, records@) && kept.len() == r@.len() && forall|i: int|
                0 <= i < r@.len() ==> is_recovered(
                    records@[kept[i]],
                    #[trigger] r@[i],
                    alive@[kept[i]],
                    now_ms,
                ),
{
    let mut r: Vec<JobRecordV1> = Vec::new();
    let ghost keep = |x: JobRecordV1| x.status == JobStatus::Running;
    let ghost mut kept: Seq<int> = seq![];
    let mut i: usize = 0;
    proof {
        reveal(Seq::filter);
    }
    while i < records.len()
        invariant
            i <= records@.len(),
            alive@.len() == records@.len(),
            keep == (|x: JobRecordV1| x.status == JobStatus::Running),
            r@.len() == records@.take(i as int).filter(keep).len(),
            kept.len() == r@.len(),
            forall|k: int| 0 <= k < kept.len() ==> 0 <= #[trigger] kept[k] < i,
            forall|k: int|
                0 <= k < kept.len() ==> records@[#[trigger] kept[k]].status == JobStatus::Running,
            forall|k: int, l: int|
                0 <= k < l < kept.len() ==> #[trigger] kept[k] < #[trigger] kept[l],
            forall|j: int|
                0 <= j < i && (#[trigger] records@[j]).status == JobStatus::Running
                    ==> kept.contains(j),
            forall|k: int|
                0 <= k < r@.len() ==> is_recovered(
                    records@[kept[k]],
                    #[trigger] r@[k],
                    alive@[kept[k]],
                    now_ms,
                ),
        decreases records@.len() - i,
    {
        proof {
            lemma_filter_last(records@.take(i + 1), keep);
            assert(records@.take(i + 1).drop_last() =~= records@.take(i as int));
        }
        if records[i].status == JobStatus::Running {
            let ghost before = kept;
            r.push(recovered_record(&records[i], alive[i], now_ms));
            proof {
                kept = before.push(i as int);
                assert forall|j: int|
                    0 <= j < i + 1 && (#[trigger] records@[j]).status
                        == JobStatus::Running implies kept.contains(j) by {
                    if j < i {
                        let k = choose|k: int| 0 <= k < before.len() && before[k] == j;
                        assert(kept[k] == j);
                    } else {
                        assert(kept[before.len() as int] == j);
                    }
                }
            }
        }
        i += 1;
    }
    assert(records@.take(records@.len() as int) =~= records@);
    assert(running(records@) == records@.filter(keep));
    assert(are_running_positions(kept, records@));
    r
}

/// The positions of the running jobs, in order.
pub open spec fn are_running_positions(kept: Seq<int>, records: Seq<JobRecordV1>) -> bool {
    &&& forall|k: int| 0 <= k < kept.len() ==> 0 <= #[trigger] kept[k] < records.len()
    &&& forall|k: int|
        0 <= k < kept.len() ==> records[#[trigger] kept[k]].status == JobStatus::Running
    &&& forall|k: int, l: int| 0 <= k < l < kept.len() ==> #[trigger] kept[k] < #[trigger] kept[l]
    &&& forall|j: int|
        0 <= j < records.len() && (#[trigger] records[j]).status == JobStatus::Running
            ==> kept.contains(j)
}

/// Jobs by their ids.
pub open spec fn job_less() -> spec_fn(JobRecordV1, JobRecordV1) -> bool {
    |a: JobRecordV1, b: JobRecordV1| text_before(a.job_id@, b.job_id@)
}

/// The records of all jobs, by id.
pub fn list_jobs(records: &Vec<JobRecordV1>) -> (r: Vec<JobRecordV1>)
    ensures
        r@ == sorted(records@, job_less()),
{
    let mut r: Vec<JobRecordV1> = Vec::new();
    let ghost less = job_less();
    let mut i: usize = 0;
    while i < records.len()
        invariant
            i <= records@.len(),
            less == job_less(),
            r@ == sorted(records@.take(i as int), less),
        decreases records@.len() - i,
    {
        let mut at: usize = r.len();
        while at > 0 && before(records[i].job_id.as_str(), r[at - 1].job_id.as_str())
            invariant
                i < records@.len(),
                at <= r@.len(),
                less == job_less(),
                forall|k: int| at <= k < r@.len() ==> less(records@[i as int], #[trigger] r@[k]),
            decreases at,
        {
            at -= 1;
        }
        proof {
            lemma_insert_at(r@, records@[i as int], less, at as int);
            assert(records@.take(i + 1).drop_last() =~= records@.take(i as int));
        }
        r.insert(at, records[i].clone());
        i += 1;
    }
    assert(records@.take(records@.len() as int) =~= records@);
    r
}

/// What to do while the end of a job is waited for.
#[derive(Debug, PartialEq, Eq)]
pub enum WaitStep {
    /// The job has ended.
    Done,
    /// The time is up.
    TimedOut(JobError),
    /// Look again a little later.
    Sleep { millis: u64 },
}

/// Decides what to do while the end of a job is waited for.
pub fn wait_step(record: &JobRecordV1, deadline_passed: bool) -> (r: WaitStep)
    ensures
        match r {
            WaitStep::Done => record.status != JobStatus::Running,
            WaitStep::TimedOut(JobError::Timeout(message)) => record.status == JobStatus::Running
                && deadline_passed && message@ == "job "@ + record.job_id@
                + " did not finish before timeout"@,
            WaitStep::TimedOut(_) => false,
            WaitStep::Sleep { millis } => record.status == JobStatus::Running && !deadline_passed
                && millis == 25,
        },
{
    if record.status.is_terminal() {
        return WaitStep::Done;
    }
    if deadline_passed {
        return WaitStep::TimedOut(
            JobError::Timeout(
                text("job ").concat(record.job_id.as_str()).concat(
                    " did not finish before timeout",
                ),
            ),
        );
    }
    WaitStep::Sleep { millis: 25 }
}

/// How many bytes of a log are read at once.
pub open spec fn poll_limit(max_bytes: usize) -> usize {
    if max_bytes == 0 {
        16_384
    } else if max_bytes <= 65_536 {
        max_bytes
    } else {
        65_536
    }
}

/// Where to read in a log, and how much.
#[derive(Clone, Copy, Debug, PartialEq, Eq)]
pub struct LogWindow {
    pub offset: u64,
    pub limit: usize,
    pub rotated: bool,
}

/// Where to read in a log of `len` bytes.
pub open spec fn window_at(len: int, offset: u64, max_bytes: usize) -> LogWindow {
    LogWindow {
        offset: if offset > len {
            0
        } else {
            offset
        },
        limit: poll_limit(max_bytes),
        rotated: offset > len,
    }
}

/// What a window shows of a log.
pub open spec fn piece_of(log: Seq<u8>, window: LogWindow) -> Seq<u8> {
    let end = window.offset + window.limit;
    log.subrange(
        window.offset as int,
        if end < log.len() {
            end
        } else {
            log.len() as int
        },
    )
}

/// Decides where to read in a log of `len` bytes. An offset behind the end means that the
/// log was rotated meanwhile: reading starts again at the beginning.
pub fn log_window(len: u64, offset: u64, max_bytes: usize) -> (r: LogWindow)
    ensures
        r == window_at(len as int, offset, max_bytes),
        r.offset <= len,
{
    let limit: usize = if max_bytes == 0 {
        DEFAULT_POLL_BYTES
    } else if max_bytes <= MAX_POLL_BYTES {
        max_bytes
    } else {
        MAX_POLL_BYTES
    };
    let rotated: bool = offset > len;
    LogWindow { offset: if rotated { 0 } else { offset }, limit, rotated }
}

/// The piece of a log of `len` bytes that was read from a window, as text.
pub fn log_poll(window: LogWindow, len: u64, bytes: &[u8], local_path: &str) -> (r: LogPoll)
    requires
        window.offset + bytes@.len() <= u64::MAX,
    ensures
        r.text@ == lossy_decoded(bytes@),
        r.offset == window.offset,
        r.next_offset == window.offset + bytes@.len(),
        r.truncated == (window.offset + bytes@.len() < len),
        r.rotated == window.rotated,
        r.local_path@ == local_path@,
{
    let next_offset: u64 = window.offset + bytes.len() as u64;
    LogPoll {
        text: decode_lossy(bytes),
        offset: window.offset,
        next_offset,
        truncated: next_offset < len,
        rotated: window.rotated,
        local_path: text(local_path),
    }
}

/// What is read of a log that does not exist.
pub fn missing_log_poll(offset: u64, local_path: &str) -> (r: LogPoll)
    ensures
        r.text@.len() == 0,
        r.offset == offset,
        r.next_offset == offset,
        !r.truncated,
        !r.rotated,
        r.local_path@ == local_path@,
{
    LogPoll {
        text: String::new(),
        offset,
        next_offset: offset,
        truncated: false,
        rotated: false,
        local_path: text(local_path),
    }
}

/// One step of writing to a log that is rotated when it is full.
#[derive(Clone, Copy, Debug, PartialEq, Eq)]
pub struct LogWrite {
    /// The log is full: it is moved aside, and a new one begun.
    pub rotate: bool,
    /// How many bytes are written.
    pub take: usize,
    /// How many bytes the log holds then.
    pub len: u64,
}

/// Decides how the next bytes go into a log of at most `max_log_bytes` bytes.
pub fn next_log_write(current_len: u64, max_log_bytes: u64, pending: usize) -> (r: LogWrite)
    requires
        pending > 0,
        max_log_bytes > 0,
    ensures
        r.rotate == (current_len >= max_log_bytes),
        0 < r.take <= pending,
        r.len == (if r.rotate {
            0
        } else {
            current_len as int
        }) + r.take,
        r.len <= max_log_bytes,
        r.take == pending || r.len == max_log_bytes,
{
    let rotate: bool = current_len >= max_log_bytes;
    let used: u64 = if rotate {
        0
    } else {
        current_len
    };
    let room: u64 = max_log_bytes - used;
    let take: usize = if (pending as u64) < room {
        pending
    } else {
        room as usize
    };
    LogWrite { rotate, take, len: used + take as u64 }
}

/// The extension of the log that was moved aside.
pub fn rotated_extension(extension: &str) -> (r: String)
    ensures
        r@ == if extension@.len() == 0 {
            "1"@
        } else {
            extension@ + ".1"@
        },
{
    if extension.is_empty() {
        text("1")
    } else {
        text(extension).concat(".1")
    }
}

/// Reading on where the last piece ended misses nothing and reads nothing twice, as long
/// as the log only grows.
pub proof fn lemma_polls_are_contiguous(
    log: Seq<u8>,
    grown: Seq<u8>,
    offset: u64,
    max_bytes: usize,
    next_max_bytes: usize,
)
    requires
        offset <= log.len() <= grown.len() <= u64::MAX,
        grown.take(log.len() as int) == log,
    ensures
        ({
            let window = window_at(log.len() as int, offset, max_bytes);
            let piece = piece_of(log, window);
            let next_offset = (window.offset + piece.len()) as u64;
            let next = window_at(grown.len() as int, next_offset, next_max_bytes);
            let next_piece = piece_of(grown, next);
            &&& !next.rotated
            &&& next.offset == offset + piece.len()
            &&& piece + next_piece == grown.subrange(offset as int, next.offset + next_piece.len())
        }),
{
    let window = window_at(log.len() as int, offset, max_bytes);
    let piece = piece_of(log, window);
    let next = window_at(
        grown.len() as int,
        (window.offset + piece.len()) as u64,
        next_max_bytes,
    );
    let next_piece = piece_of(grown, next);
    assert forall|i: int| 0 <= i < log.len() implies log[i] == #[trigger] grown[i] by {
        assert(grown.take(log.len() as int)[i] == grown[i]);
    }
    assert(piece + next_piece =~= grown.subrange(offset as int, next.offset + next_piece.len()));
}

} // verus!
