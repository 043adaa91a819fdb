use object0::jobs::progress::{job_ending, sample_progress, JobEnding, SpeedReading, SpeedSample};
use object0::jobs::scheduler::{retain_terminal_history, CancelOutcome, JobRuntime};
use object0::jobs::types::{
    calculate_percentage, is_terminal_job_status, job_to_complete_event, job_to_progress_event,
    JobInfo, JobStatus, JobTask, JobTaskKind, JobType,
};
use object0::transfer::errors::TransferError;

fn kind() -> JobTaskKind {
    JobTaskKind::Upload {
        profile_id: "p".to_string(),
        bucket: "b".to_string(),
        key: "k".to_string(),
        local_path: "/tmp/f".to_string(),
    }
}

fn enqueue(rt: &mut JobRuntime, id: &str, total: i64) -> JobInfo {
    rt.enqueue_job_with(
        id.to_string(),
        "t0".to_string(),
        JobType::Upload,
        format!("{id}.bin"),
        format!("Upload {id}"),
        total,
        kind(),
    )
}

fn running_count(rt: &JobRuntime) -> usize {
    rt.list_jobs().iter().filter(|j| j.status == JobStatus::Running).count()
}

fn status_of(rt: &JobRuntime, id: &str) -> JobStatus {
    rt.list_jobs().iter().find(|j| j.id == id).unwrap().status
}

fn done(id: &str, status: JobStatus) -> JobInfo {
    JobInfo {
        id: id.to_string(),
        job_type: JobType::Download,
        status,
        file_name: "f".to_string(),
        description: "d".to_string(),
        bytes_transferred: 1,
        bytes_total: 1,
        percentage: 100,
        speed: 0,
        eta: 0,
        error: None,
        created_at: "t".to_string(),
        started_at: None,
        completed_at: Some("t".to_string()),
    }
}

#[test]
fn percentages_are_rounded() {
    assert_eq!(calculate_percentage(0, 0), 0);
    assert_eq!(calculate_percentage(5, 0), 0);
    assert_eq!(calculate_percentage(5, -1), 0);
    assert_eq!(calculate_percentage(0, 10), 0);
    assert_eq!(calculate_percentage(5, 10), 50);
    assert_eq!(calculate_percentage(10, 10), 100);
    assert_eq!(calculate_percentage(1, 3), 33);
    assert_eq!(calculate_percentage(2, 3), 67);
    assert_eq!(calculate_percentage(1, 8), 13);
    assert_eq!(calculate_percentage(1, 200), 1);
    assert_eq!(calculate_percentage(1, 201), 0);
    assert_eq!(calculate_percentage(15, 10), 150);
    assert_eq!(calculate_percentage(-1, 8), -13);
    assert_eq!(calculate_percentage(i64::MAX, 1), i64::MAX);
    assert_eq!(calculate_percentage(i64::MAX, i64::MAX), 100);
}

#[test]
fn percentages_agree_with_rounding_in_floating_point() {
    for total in [1i64, 3, 7, 10, 64, 1000, 4096, 5_242_880] {
        for transferred in [0i64, 1, 2, 5, 9, 63, 999, 4095, 2_621_440, 5_242_880] {
            let expected = (((transferred as f64) / (total as f64)) * 100.0).round() as i64;
            assert_eq!(calculate_percentage(transferred, total), expected);
        }
    }
}

#[test]
fn terminal_statuses() {
    assert!(!is_terminal_job_status(JobStatus::Queued));
    assert!(!is_terminal_job_status(JobStatus::Running));
    assert!(is_terminal_job_status(JobStatus::Completed));
    assert!(is_terminal_job_status(JobStatus::Failed));
    assert!(is_terminal_job_status(JobStatus::Cancelled));
    assert_eq!(JobStatus::Cancelled.as_str(), "cancelled");
    assert_eq!(JobType::FolderSync.as_str(), "folder-sync");
}

#[test]
fn a_new_scheduler_runs_three_at_a_time() {
    let rt = JobRuntime::new();
    assert_eq!(rt.get_concurrency(), 3);
    assert!(rt.list_jobs().is_empty());
    assert_eq!(JobRuntime::default(), rt);
}

#[test]
fn enqueue_puts_the_job_first_and_queued() {
    let mut rt = JobRuntime::new();
    let a = enqueue(&mut rt, "a", -5);
    assert_eq!(a.status, JobStatus::Queued);
    assert_eq!(a.bytes_total, 0);
    assert_eq!(a.bytes_transferred, 0);
    assert_eq!(a.percentage, 0);
    assert_eq!(a.created_at, "t0");
    assert_eq!(a.started_at, None);
    let b = enqueue(&mut rt, "b", 10);
    assert_eq!(b.bytes_total, 10);
    assert_eq!(rt.order, vec!["b", "a"]);
    assert_eq!(rt.queue.len(), 2);
    assert_eq!(rt.queue[0].id, "a");
    assert!(rt.knows("a"));
    assert!(!rt.knows("zzz"));
    assert!(!rt.is_cancelled("a"));
    let listed: Vec<String> = rt.list_jobs().iter().map(|j| j.id.clone()).collect();
    assert_eq!(listed, vec!["b", "a"]);
}

#[test]
fn never_more_running_than_the_limit() {
    for limit in 1u8..=10 {
        let mut rt = JobRuntime::new();
        assert_eq!(rt.set_concurrency(limit), limit);
        for i in 0..25 {
            enqueue(&mut rt, &format!("job-{i}"), 10);
            rt.try_start_queued_jobs("t1");
            assert!(rt.running.len() <= limit as usize);
            assert!(running_count(&rt) <= limit as usize);
        }
        assert_eq!(rt.running.len(), limit as usize);
        for i in 0..25 {
            rt.finish_job(&format!("job-{i}"), JobStatus::Completed, None, Some(10), "t2");
            let started = rt.try_start_queued_jobs("t3");
            assert!(started.len() <= 1);
            assert!(rt.running.len() <= limit as usize);
            assert!(running_count(&rt) <= limit as usize);
        }
        assert_eq!(rt.running.len(), 0);
        assert!(rt.queue.is_empty());
    }
}

#[test]
fn jobs_start_in_the_order_of_the_queue() {
    let mut rt = JobRuntime::new();
    rt.set_concurrency(2);
    for id in ["a", "b", "c", "d"] {
        enqueue(&mut rt, id, 1);
    }
    let started = rt.try_start_queued_jobs("t1");
    let ids: Vec<String> = started.iter().map(|s| s.task.id.clone()).collect();
    assert_eq!(ids, vec!["a", "b"]);
    let snapshot = started[0].snapshot.clone().unwrap();
    assert_eq!(snapshot.status, JobStatus::Running);
    assert_eq!(snapshot.started_at, Some("t1".to_string()));
    assert!(rt.try_start_queued_jobs("t1").is_empty());
    rt.finish_job("b", JobStatus::Failed, Some("x".to_string()), None, "t2");
    let started = rt.try_start_queued_jobs("t3");
    assert_eq!(started.len(), 1);
    assert_eq!(started[0].task.id, "c");
    assert_eq!(rt.running, vec!["a", "c"]);
}

#[test]
fn concurrency_is_clamped() {
    let mut rt = JobRuntime::new();
    assert_eq!(rt.set_concurrency(0), 1);
    assert_eq!(rt.set_concurrency(1), 1);
    assert_eq!(rt.set_concurrency(10), 10);
    assert_eq!(rt.set_concurrency(11), 10);
    assert_eq!(rt.set_concurrency(255), 10);
    assert_eq!(rt.get_concurrency(), 10);
}

#[test]
fn lowering_the_limit_starts_nothing_new() {
    let mut rt = JobRuntime::new();
    rt.set_concurrency(3);
    for id in ["a", "b", "c", "d"] {
        enqueue(&mut rt, id, 1);
    }
    rt.try_start_queued_jobs("t");
    assert_eq!(rt.running.len(), 3);
    rt.set_concurrency(1);
    assert!(rt.try_start_queued_jobs("t").is_empty());
    rt.finish_job("a", JobStatus::Completed, None, None, "t");
    assert!(rt.try_start_queued_jobs("t").is_empty());
    rt.finish_job("b", JobStatus::Completed, None, None, "t");
    rt.finish_job("c", JobStatus::Completed, None, None, "t");
    assert_eq!(rt.try_start_queued_jobs("t").len(), 1);
}

#[test]
fn cancel_before_start_yields_cancelled_and_never_runs() {
    let mut rt = JobRuntime::new();
    rt.set_concurrency(1);
    enqueue(&mut rt, "a", 1);
    rt.try_start_queued_jobs("t");
    enqueue(&mut rt, "b", 1);
    enqueue(&mut rt, "c", 1);
    let outcome = rt.cancel_job("b", "t-cancel");
    match outcome {
        CancelOutcome::Dequeued(Some(job)) => {
            assert_eq!(job.id, "b");
            assert_eq!(job.status, JobStatus::Cancelled);
            assert_eq!(job.error, Some("Job cancelled".to_string()));
            assert_eq!(job.completed_at, Some("t-cancel".to_string()));
            assert_eq!(job.started_at, None);
        }
        other => panic!("{other:?}"),
    }
    assert!(!rt.is_cancelled("b"));
    rt.finish_job("a", JobStatus::Completed, None, None, "t");
    let started = rt.try_start_queued_jobs("t");
    assert_eq!(started.len(), 1);
    assert_eq!(started[0].task.id, "c");
    rt.finish_job("c", JobStatus::Completed, None, None, "t");
    assert!(rt.try_start_queued_jobs("t").is_empty());
    assert_eq!(status_of(&rt, "b"), JobStatus::Cancelled);
    assert!(rt.list_jobs().iter().find(|j| j.id == "b").unwrap().started_at.is_none());
}

#[test]
fn cancelling_a_running_job_raises_its_flag() {
    let mut rt = JobRuntime::new();
    enqueue(&mut rt, "a", 1);
    rt.try_start_queued_jobs("t");
    assert!(!rt.is_cancelled("a"));
    assert_eq!(rt.cancel_job("a", "t"), CancelOutcome::Signalled);
    assert!(rt.is_cancelled("a"));
    assert_eq!(status_of(&rt, "a"), JobStatus::Running);
    assert_eq!(rt.running, vec!["a"]);
    rt.finish_job("a", JobStatus::Cancelled, Some("Job cancelled".to_string()), None, "t");
    assert!(!rt.is_cancelled("a"));
    assert_eq!(rt.cancel_job("a", "t"), CancelOutcome::Unknown);
    assert_eq!(rt.cancel_job("never", "t"), CancelOutcome::Unknown);
}

#[test]
fn progress_reports_update_the_counters() {
    let mut rt = JobRuntime::new();
    enqueue(&mut rt, "a", 200);
    let job = rt.update_job_progress("a", 50, -1, 7, 3).unwrap();
    assert_eq!((job.bytes_transferred, job.bytes_total, job.percentage), (50, 200, 25));
    assert_eq!((job.speed, job.eta), (7, 3));
    let job = rt.update_job_progress("a", -5, 400, -1, -2).unwrap();
    assert_eq!((job.bytes_transferred, job.bytes_total, job.percentage), (0, 400, 0));
    assert_eq!((job.speed, job.eta), (0, 0));
    let job = rt.update_job_progress("a", 100, 0, 0, 0).unwrap();
    assert_eq!((job.bytes_total, job.percentage), (0, 0));
    assert_eq!(rt.update_job_progress("zzz", 1, 1, 1, 1), None);
}

#[test]
fn finished_jobs_are_normalised() {
    let mut rt = JobRuntime::new();
    enqueue(&mut rt, "a", 200);
    enqueue(&mut rt, "b", 0);
    enqueue(&mut rt, "c", 200);
    enqueue(&mut rt, "d", 0);
    rt.set_concurrency(4);
    rt.try_start_queued_jobs("t");
    let a = rt.finish_job("a", JobStatus::Completed, None, Some(150), "end").unwrap();
    assert_eq!(a.status, JobStatus::Completed);
    assert_eq!((a.bytes_transferred, a.bytes_total, a.percentage), (200, 200, 100));
    assert_eq!(a.completed_at, Some("end".to_string()));
    let b = rt.finish_job("b", JobStatus::Completed, None, Some(64), "end").unwrap();
    assert_eq!((b.bytes_transferred, b.bytes_total, b.percentage), (64, 64, 100));
    let c = rt.finish_job("c", JobStatus::Failed, Some("boom".to_string()), None, "end").unwrap();
    assert_eq!(c.status, JobStatus::Failed);
    assert_eq!(c.error, Some("boom".to_string()));
    assert_eq!((c.bytes_transferred, c.bytes_total, c.percentage), (0, 200, 0));
    let d = rt.finish_job("d", JobStatus::Completed, None, Some(0), "end").unwrap();
    assert_eq!((d.bytes_transferred, d.bytes_total, d.percentage), (0, 0, 0));
    assert!(rt.running.is_empty());
    assert_eq!(rt.finish_job("zzz", JobStatus::Failed, None, None, "end"), None);
}

#[test]
fn clear_keeps_what_is_queued_or_running() {
    let mut rt = JobRuntime::new();
    rt.set_concurrency(1);
    for id in ["a", "b", "c", "d"] {
        enqueue(&mut rt, id, 1);
    }
    rt.try_start_queued_jobs("t");
    rt.finish_job("a", JobStatus::Completed, None, None, "t");
    rt.try_start_queued_jobs("t");
    rt.cancel_job("c", "t");
    rt.clear_finished_jobs();
    let listed: Vec<String> = rt.list_jobs().iter().map(|j| j.id.clone()).collect();
    assert_eq!(listed, vec!["d", "b"]);
    assert_eq!(rt.order, vec!["d", "b"]);
    assert_eq!(rt.running, vec!["b"]);
    assert_eq!(rt.queue.len(), 1);
    assert_eq!(rt.queue[0].id, "d");
}

#[test]
fn history_holds_terminal_jobs_newest_first() {
    let mut rt = JobRuntime::new();
    rt.set_concurrency(2);
    for id in ["a", "b", "c", "d"] {
        enqueue(&mut rt, id, 1);
    }
    rt.try_start_queued_jobs("t");
    rt.finish_job("a", JobStatus::Completed, None, None, "t");
    rt.cancel_job("d", "t");
    let history: Vec<String> = rt.history_snapshot().iter().map(|j| j.id.clone()).collect();
    assert_eq!(history, vec!["d", "a"]);
}

#[test]
fn history_is_capped_at_one_hundred() {
    let mut rt = JobRuntime::new();
    for i in 0..130 {
        let id = format!("j{i}");
        enqueue(&mut rt, &id, 1);
        rt.cancel_job(&id, "t");
    }
    let history = rt.history_snapshot();
    assert_eq!(history.len(), 100);
    assert_eq!(history[0].id, "j129");
    assert_eq!(history[99].id, "j30");
}

#[test]
fn the_table_is_capped_at_two_hundred() {
    let mut rt = JobRuntime::new();
    rt.set_concurrency(1);
    enqueue(&mut rt, "first", 1);
    rt.try_start_queued_jobs("t");
    for i in 0..220 {
        let id = format!("j{i}");
        enqueue(&mut rt, &id, 1);
        rt.cancel_job(&id, "t");
    }
    assert_eq!(rt.order.len(), 200);
    assert_eq!(rt.order[0], "j219");
    assert!(rt.jobs.iter().any(|j| j.id == "first"));
    assert!(!rt.jobs.iter().any(|j| j.id == "j0"));
    assert_eq!(rt.jobs.len(), 201);
    assert_eq!(rt.list_jobs().len(), 201);
    assert_eq!(rt.list_jobs()[200].id, "first");
}

#[test]
fn a_persisted_history_is_taken_in() {
    let mut rt = JobRuntime::new();
    enqueue(&mut rt, "live", 1);
    let history = vec![
        done("h1", JobStatus::Completed),
        done("h2", JobStatus::Running),
        done("live", JobStatus::Failed),
        done("h3", JobStatus::Cancelled),
        done("h1", JobStatus::Failed),
    ];
    rt.hydrate_job_history_runtime(&history);
    let listed: Vec<String> = rt.list_jobs().iter().map(|j| j.id.clone()).collect();
    assert_eq!(listed, vec!["live", "h1", "h3"]);
    assert_eq!(status_of(&rt, "live"), JobStatus::Queued);
    assert_eq!(status_of(&rt, "h1"), JobStatus::Completed);
    let kept = retain_terminal_history(&history);
    let ids: Vec<String> = kept.iter().map(|j| j.id.clone()).collect();
    assert_eq!(ids, vec!["h1", "live", "h3", "h1"]);
    let many: Vec<JobInfo> = (0..150).map(|i| done(&format!("x{i}"), JobStatus::Failed)).collect();
    assert_eq!(retain_terminal_history(&many).len(), 100);
    assert_eq!(retain_terminal_history(&many)[99].id, "x99");
}

#[test]
fn enqueue_with_a_fresh_identity_starts_what_fits() {
    let mut rt = JobRuntime::new();
    rt.set_concurrency(1);
    let first = rt.enqueue_job(JobType::Copy, "f".to_string(), "d".to_string(), 5, kind());
    assert_eq!(first.job.status, JobStatus::Queued);
    assert_eq!(first.job.job_type, JobType::Copy);
    assert_eq!(first.started.len(), 1);
    assert_eq!(first.started[0].task.id, first.job.id);
    assert_eq!(first.started[0].task.kind, kind());
    let second = rt.enqueue_job(JobType::Copy, "g".to_string(), "d".to_string(), 5, kind());
    assert!(second.started.is_empty());
    assert_ne!(first.job.id, second.job.id);
    assert_eq!(rt.running, vec![first.job.id.clone()]);
    assert_eq!(rt.queue.len(), 1);
    let task: &JobTask = &rt.queue[0];
    assert_eq!(task.id, second.job.id);
}

#[test]
fn events_show_the_job() {
    let mut job = done("a", JobStatus::Completed);
    job.error = Some("e".to_string());
    let progress = job_to_progress_event(&job);
    assert_eq!(progress.job_id, "a");
    assert_eq!(progress.status, JobStatus::Completed);
    assert_eq!(progress.percentage, 100);
    assert_eq!(progress.error, Some("e".to_string()));
    let complete = job_to_complete_event(&job);
    assert!(complete.success);
    assert_eq!(complete.file_name, Some("f".to_string()));
    job.status = JobStatus::Failed;
    assert!(!job_to_complete_event(&job).success);
}

#[test]
fn speed_is_sampled_after_four_tenths_of_a_second() {
    let start = SpeedSample { at_nanos: 1_000_000_000, bytes: 0 };
    let early = sample_progress(start, 1_400_000_000, 1_000_000, 10_000_000);
    assert_eq!(early, SpeedReading { sample: start, speed: 0, eta: 0 });
    let later = sample_progress(start, 1_500_000_000, 1_000_000, 10_000_000);
    assert_eq!(
        later,
        SpeedReading {
            sample: SpeedSample { at_nanos: 1_500_000_000, bytes: 1_000_000 },
            speed: 2_000_000,
            eta: 4
        }
    );
    let done = sample_progress(start, 3_000_000_000, 10_000_000, 10_000_000);
    assert_eq!(done.speed, 5_000_000);
    assert_eq!(done.eta, 0);
    let back = sample_progress(SpeedSample { at_nanos: 0, bytes: 1000 }, 1_000_000_000, 0, 5000);
    assert_eq!(back.speed, -1000);
    assert_eq!(back.eta, 0);
    let odd = sample_progress(SpeedSample { at_nanos: 0, bytes: 0 }, 3_000_000_000, 10, 100);
    assert_eq!(odd.speed, 3);
    assert_eq!(odd.eta, 30);
    let clock_back = sample_progress(SpeedSample { at_nanos: 10, bytes: 0 }, 5, 10, 100);
    assert_eq!(clock_back.speed, 0);
}

#[test]
fn the_end_of_a_transfer_settles_the_job() {
    assert_eq!(
        job_ending(Ok(42)),
        JobEnding { status: JobStatus::Completed, error: None, bytes_transferred: Some(42) }
    );
    assert_eq!(
        job_ending(Err(TransferError::Cancelled)),
        JobEnding {
            status: JobStatus::Cancelled,
            error: Some("Job cancelled".to_string()),
            bytes_transferred: None
        }
    );
    assert_eq!(
        job_ending(Err(TransferError::Failed("Job cancelled".to_string()))).status,
        JobStatus::Cancelled
    );
    assert_eq!(
        job_ending(Err(TransferError::Failed("Access Denied".to_string()))),
        JobEnding {
            status: JobStatus::Failed,
            error: Some("Access Denied".to_string()),
            bytes_transferred: None
        }
    );
    assert_eq!(job_ending(Err(TransferError::NoParts)).status, JobStatus::Failed);
}

#[test]
fn kinds_and_statuses_are_read_from_their_names() {
    for kind in [
        JobType::Upload,
        JobType::Download,
        JobType::Copy,
        JobType::Move,
        JobType::Sync,
        JobType::Delete,
        JobType::Archive,
        JobType::FolderSync,
    ] {
        assert_eq!(JobType::parse(kind.as_str()), Some(kind));
    }
    for status in [
        JobStatus::Queued,
        JobStatus::Running,
        JobStatus::Completed,
        JobStatus::Failed,
        JobStatus::Cancelled,
    ] {
        assert_eq!(JobStatus::parse(status.as_str()), Some(status));
    }
    assert_eq!(JobType::parse("Upload"), None);
    assert_eq!(JobStatus::parse(""), None);
    assert_eq!(JobType::Upload.as_str(), "upload");
    assert_eq!(JobStatus::Queued.as_str(), "queued");
}

#[test]
fn the_invariant_can_be_asked_for() {
    let mut rt = JobRuntime::new();
    assert!(rt.is_well_formed());
    enqueue(&mut rt, "a", 1);
    enqueue(&mut rt, "b", 1);
    rt.try_start_queued_jobs("t");
    assert!(rt.is_well_formed());
    rt.running.push("a".to_string());
    assert!(!rt.is_well_formed());
    rt.running.pop();
    assert!(rt.is_well_formed());
    rt.concurrency = 0;
    assert!(!rt.is_well_formed());
    rt.concurrency = 3;
    rt.running.clear();
    assert!(!rt.is_well_formed());
}

#[test]
fn an_identity_that_is_new_stays_as_it_was_drawn() {
    let mut rt = JobRuntime::new();
    enqueue(&mut rt, "abc", 1);
    assert_eq!(rt.new_identity("x".to_string()), "x");
    assert_eq!(rt.new_identity("abcd".to_string()), "abcd");
    assert_eq!(JobRuntime::new().new_identity(String::new()), "");
}

#[test]
fn an_identity_that_is_taken_is_lengthened_past_the_longest() {
    let mut rt = JobRuntime::new();
    enqueue(&mut rt, "x", 1);
    enqueue(&mut rt, "abc", 1);
    assert_eq!(rt.new_identity("x".to_string()), "x---");
    assert_eq!(rt.new_identity("abc".to_string()), "abc-");
    assert!(!rt.knows("x---"));
    assert!(rt.knows("x"));
}

#[test]
fn enqueueing_always_adds_a_job() {
    let mut rt = JobRuntime::new();
    for n in 0..25 {
        let e = rt.enqueue_job(JobType::Upload, format!("f{n}"), "d".to_string(), -3, kind());
        assert_eq!(e.job.bytes_total, 0);
        assert_eq!(e.job.file_name, format!("f{n}"));
        assert!(rt.knows(&e.job.id));
        assert_eq!(rt.list_jobs().len(), n + 1);
    }
    assert!(rt.is_well_formed());
    assert_eq!(running_count(&rt), rt.get_concurrency() as usize);
}
