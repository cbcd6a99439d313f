use catdesk_delegated::job_manager::{
    cancel_step, cancelled_record, finish_record, list_jobs, log_poll, log_window,
    missing_log_poll, next_log_write, recover_running_jobs, rotated_extension, started_record,
    validate_spec, wait_step, CancelStep, CwdCheck, JobError, JobExit, JobId, JobRecordV1,
    JobSpecV1, JobStatus, WaitStep,
};

fn record(id: &str, status: JobStatus, started_at_ms: u128) -> JobRecordV1 {
    let mut record = started_record(
        JobSpecV1::new("sleep forever", "/work"),
        JobId::new(id).expect("job id"),
        Some(999_999),
        started_at_ms,
        "/jobs/stdout.log",
        "/jobs/stderr.log",
    );
    record.status = status;
    record
}

#[test]
fn lost_process_is_marked_during_restart_recovery() {
    let job = record("job-lost", JobStatus::Running, 1);
    let recovered = recover_running_jobs(&vec![job], &vec![false], 2);
    assert_eq!(recovered.len(), 1);
    assert_eq!(recovered[0].status, JobStatus::Lost);
}

#[test]
fn living_and_ended_jobs_are_left_alone() {
    let jobs = vec![
        record("job-a", JobStatus::Running, 1),
        record("job-b", JobStatus::Succeeded, 2),
        record("job-c", JobStatus::Running, 3),
    ];
    let recovered = recover_running_jobs(&jobs, &vec![true, false, false], 9);
    assert_eq!(recovered.len(), 2);
    assert_eq!(recovered[0].status, JobStatus::Running);
    assert_eq!(recovered[1].status, JobStatus::Lost);
}

#[test]
fn jobs_need_a_command_a_profile_a_directory_and_a_log() {
    let refused = |spec: &JobSpecV1, cwd: &CwdCheck| match validate_spec(spec, cwd) {
        Err(JobError::Validation(message)) => message,
        other => panic!("{other:?}"),
    };
    let spec = JobSpecV1::new("cargo test", "/work");
    assert!(validate_spec(&spec, &CwdCheck::Directory).is_ok());
    assert_eq!(refused(&JobSpecV1::new(" ", "/work"), &CwdCheck::Directory), "command must not be empty");
    let mut bare = spec.clone();
    bare.command_profile = "".into();
    assert_eq!(refused(&bare, &CwdCheck::Directory), "command_profile must not be empty");
    assert_eq!(refused(&spec, &CwdCheck::Missing("gone".into())), "cwd must exist: gone");
    assert_eq!(refused(&spec, &CwdCheck::NotADirectory), "cwd must be a directory");
    let mut silent = spec;
    silent.max_log_bytes = 0;
    assert_eq!(refused(&silent, &CwdCheck::Directory), "max_log_bytes must be greater than zero");
}

#[test]
fn a_job_ends_once() {
    let running = record("job-1", JobStatus::Running, 1);
    let done = finish_record(&running, &JobExit::Exited { success: true, code: Some(0) }, 5).expect("ended");
    assert_eq!(done.status, JobStatus::Succeeded);
    assert_eq!(done.exit_code, Some(0));
    assert_eq!(done.finished_at_ms, Some(5));
    assert!(finish_record(&done, &JobExit::Exited { success: false, code: Some(7) }, 6).is_none());
    let failed = finish_record(&running, &JobExit::Exited { success: false, code: Some(7) }, 5).expect("ended");
    assert_eq!(failed.status, JobStatus::Failed);
    assert_eq!(failed.exit_code, Some(7));
    assert_eq!(cancel_step(&running), CancelStep::Kill { pid: 999_999 });
    assert_eq!(cancel_step(&failed), CancelStep::Nothing);
    assert_eq!(cancelled_record(&running, 8).status, JobStatus::Cancelled);
}

#[test]
fn waiting_ends_with_the_job_or_the_deadline() {
    let running = record("job-1", JobStatus::Running, 1);
    assert!(matches!(wait_step(&running, false), WaitStep::Sleep { .. }));
    assert!(matches!(
        wait_step(&running, true),
        WaitStep::TimedOut(JobError::Timeout(message))
            if message == "job job-1 did not finish before timeout"
    ));
    assert!(matches!(wait_step(&record("job-2", JobStatus::Lost, 1), true), WaitStep::Done));
}

#[test]
fn jobs_are_listed_by_their_start() {
    let jobs = vec![
        record("job-b", JobStatus::Running, 2),
        record("job-a", JobStatus::Running, 1),
    ];
    let listed: Vec<String> = list_jobs(&jobs).iter().map(|job| job.job_id.as_str().to_string()).collect();
    assert_eq!(listed.len(), 2);
    assert!(listed.contains(&"job-a".to_string()));
}

#[test]
fn logs_are_read_in_pieces_and_rotated_when_full() {
    let window = log_window(1000, 100, 128);
    assert_eq!((window.offset, window.limit, window.rotated), (100, 128, false));
    let piece = log_poll(window, 1000, "x".repeat(128).as_bytes(), "/jobs/stdout.log");
    assert!(piece.truncated);
    assert_eq!(piece.next_offset, 228);
    let restarted = log_window(10, 100, 128);
    assert_eq!((restarted.offset, restarted.rotated), (0, true));
    assert_eq!(missing_log_poll(7, "/jobs/x").next_offset, 7);
    let write = next_log_write(1000, 1024, 100);
    assert_eq!((write.rotate, write.take, write.len), (false, 24, 1024));
    let write = next_log_write(1024, 1024, 76);
    assert_eq!((write.rotate, write.take, write.len), (true, 76, 76));
    assert_eq!(rotated_extension("log"), "log.1");
    assert_eq!(rotated_extension(""), "1");
}

#[test]
fn job_ids_are_fresh_and_plain() {
    let first = JobId::fresh();
    let second = JobId::fresh();
    assert_ne!(first.as_str(), second.as_str());
    assert!(first.as_str().starts_with("job-"));
    assert!(JobId::new("../x").is_err());
}

#[test]
fn jobs_without_a_process_are_lost() {
    let mut job = record("job-none", JobStatus::Running, 1);
    job.pid = None;
    let recovered = recover_running_jobs(&vec![job], &vec![true], 2);
    assert_eq!(recovered[0].status, JobStatus::Lost);
}

#[test]
fn polls_read_on_where_they_ended() {
    let log = b"one two three";
    let window = log_window(7, 0, 4);
    let first = log_poll(window, 7, &log[..4], "/jobs/stdout.log");
    assert_eq!((first.text.as_str(), first.next_offset), ("one ", 4));
    let window = log_window(13, first.next_offset, 64);
    assert_eq!((window.offset, window.rotated), (4, false));
    let second = log_poll(window, 13, &log[4..], "/jobs/stdout.log");
    assert_eq!(second.text, "two three");
    assert!(!second.truncated);
}
