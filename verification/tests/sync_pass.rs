use object0::sync::diff::{FolderSyncDiffEntryRecord, FolderSyncDiffRecord};
use object0::sync::pass::{
    failure_message, files_watching, local_deletion_error, saturating_sum, FolderSyncProgress,
    LocalDeletion, PassOutcome, PassStage, PassStep, SyncPass,
};
use object0::sync::records::SyncOutcomeStatus;
use object0::sync::runtime::{
    after_pass, conflict_event_payload, folder_sync_status_payload, loop_turn, poll_wait_ms,
    status_after_exit, AfterPass, FolderSyncConflictEventPayload, FolderSyncRuntime,
    FolderSyncStateRecord, LoopExit, LoopTurn, PassResult, SyncStatusTag, TriggerAction, Wake,
};
use object0::sync::types::{FolderSyncRuleRecord, SyncAction, SyncDirection, SyncReason};

fn entry(path: &str, action: SyncAction, local: Option<i64>, remote: Option<i64>)
    -> FolderSyncDiffEntryRecord {
    FolderSyncDiffEntryRecord {
        relative_path: path.to_string(),
        action,
        reason: SyncReason::NewLocal,
        local_size: local,
        local_mtime: local,
        remote_size: remote,
        remote_last_modified: None,
        remote_etag: None,
    }
}

fn diff(up: &[&str], down: &[&str], del_local: &[&str], del_remote: &[&str])
    -> FolderSyncDiffRecord {
    FolderSyncDiffRecord {
        uploads: up.iter().map(|p| entry(p, SyncAction::Upload, Some(10), None)).collect(),
        downloads: down.iter().map(|p| entry(p, SyncAction::Download, None, Some(100))).collect(),
        delete_local: del_local
            .iter()
            .map(|p| entry(p, SyncAction::DeleteLocal, Some(1), None))
            .collect(),
        delete_remote: del_remote
            .iter()
            .map(|p| entry(p, SyncAction::DeleteRemote, None, Some(1)))
            .collect(),
        conflicts: Vec::new(),
        unchanged: 0,
    }
}

fn rule(direction: &str, enabled: bool, poll: i64) -> FolderSyncRuleRecord {
    FolderSyncRuleRecord {
        id: "r".to_string(),
        profile_id: "p".to_string(),
        bucket: "b".to_string(),
        bucket_prefix: "".to_string(),
        local_path: "/data".to_string(),
        direction: direction.to_string(),
        enabled,
        conflict_resolution: "manual".to_string(),
        poll_interval_ms: poll,
        exclude_patterns: Vec::new(),
        last_sync_at: None,
        last_sync_status: None,
        last_sync_error: None,
        created_at: "t".to_string(),
    }
}

#[test]
fn an_empty_diff_finishes_at_once_with_success() {
    let mut pass = SyncPass::begin(diff(&[], &[], &[], &[]), "docs", "bidirectional");
    assert!(!pass.has_work());
    assert_eq!(
        pass.next_step(false, false),
        PassStep::Finished(PassOutcome {
            status: SyncOutcomeStatus::Success,
            first_error: None,
            report: None
        })
    );
    assert_eq!(pass.next_step(true, true), pass.next_step(false, false));
}

#[test]
fn a_pass_applies_uploads_downloads_local_and_remote_deletions_in_order() {
    let mut pass = SyncPass::begin(
        diff(&["u1", "u2"], &["d1"], &["l1"], &["r1", "r2"]),
        "docs",
        "bidirectional",
    );
    assert!(pass.has_work());
    assert_eq!(pass.bucket_prefix, "docs/");
    assert_eq!(pass.files_watching, 1);
    assert_eq!(
        pass.progress(),
        FolderSyncProgress { completed: 0, total: 6, bytes_transferred: 0, bytes_total: 120 }
    );
    assert_eq!(
        pass.next_step(false, false),
        PassStep::Upload {
            index: 0,
            relative_path: "u1".to_string(),
            remote_key: "docs/u1".to_string()
        }
    );
    assert_eq!(pass.progress_during(4).bytes_transferred, 4);
    assert!(pass.record_transfer(Ok(10)));
    assert_eq!(
        pass.next_step(false, false),
        PassStep::Upload {
            index: 1,
            relative_path: "u2".to_string(),
            remote_key: "docs/u2".to_string()
        }
    );
    assert!(pass.record_transfer(Ok(-5)));
    assert_eq!(
        pass.progress(),
        FolderSyncProgress { completed: 2, total: 6, bytes_transferred: 10, bytes_total: 120 }
    );
    assert_eq!(
        pass.next_step(false, false),
        PassStep::Download {
            index: 0,
            relative_path: "d1".to_string(),
            remote_key: "docs/d1".to_string()
        }
    );
    assert!(pass.record_transfer(Ok(100)));
    assert_eq!(
        pass.next_step(false, false),
        PassStep::DeleteLocal { index: 0, relative_path: "l1".to_string() }
    );
    assert!(!pass.record_transfer(Ok(1)));
    assert!(pass.record_done(None));
    assert_eq!(
        pass.next_step(false, false),
        PassStep::DeleteRemote { keys: vec!["docs/r1".to_string(), "docs/r2".to_string()] }
    );
    assert!(!pass.record_done(None));
    assert!(pass.record_remote_delete(None));
    assert_eq!(
        pass.next_step(true, true),
        PassStep::ForgetRemote { index: 0, relative_path: "r1".to_string() }
    );
    assert!(pass.record_done(None));
    assert_eq!(
        pass.next_step(false, false),
        PassStep::ForgetRemote { index: 1, relative_path: "r2".to_string() }
    );
    assert!(pass.record_done(None));
    assert_eq!(
        pass.progress(),
        FolderSyncProgress { completed: 6, total: 6, bytes_transferred: 110, bytes_total: 120 }
    );
    assert!(!pass.has_work());
    assert_eq!(pass.stage, PassStage::Finished);
    assert_eq!(
        pass.next_step(false, false),
        PassStep::Finished(PassOutcome {
            status: SyncOutcomeStatus::Success,
            first_error: None,
            report: None
        })
    );
    assert!(!pass.record_done(None));
    assert!(!pass.record_remote_delete(None));
}

#[test]
fn pausing_stops_a_pass_before_its_next_entry() {
    let mut pass = SyncPass::begin(diff(&["u1"], &["d1"], &["l1"], &["r1"]), "", "bidirectional");
    let before = pass.progress();
    assert_eq!(pass.next_step(false, true), PassStep::Paused);
    assert_eq!(pass.progress(), before);
    assert_eq!(pass.stage, PassStage::Uploads);
    assert!(matches!(pass.next_step(false, false), PassStep::Upload { .. }));
    pass.record_transfer(Ok(1));
    assert_eq!(pass.next_step(false, true), PassStep::Paused);
    assert!(matches!(pass.next_step(false, false), PassStep::Download { .. }));
    pass.record_transfer(Ok(1));
    assert_eq!(pass.next_step(false, true), PassStep::Paused);
    assert!(matches!(pass.next_step(false, false), PassStep::DeleteLocal { .. }));
    pass.record_done(None);
    assert_eq!(pass.next_step(false, true), PassStep::Paused);
    assert!(matches!(pass.next_step(false, false), PassStep::DeleteRemote { .. }));
}

#[test]
fn cancelling_gives_a_pass_up_and_comes_before_pausing() {
    let mut pass = SyncPass::begin(diff(&["u1"], &[], &[], &[]), "", "bidirectional");
    assert_eq!(pass.next_step(true, true), PassStep::Cancelled);
    assert_eq!(pass.next_step(true, false), PassStep::Cancelled);
    assert_eq!(pass.stage, PassStage::Uploads);
    assert_eq!(pass.completed, 0);
}

#[test]
fn failures_are_collected_and_the_pass_goes_on() {
    let mut pass = SyncPass::begin(diff(&["u1", "../u2"], &["d1"], &[], &["r1"]), "", "x");
    pass.next_step(false, false);
    pass.record_transfer(Err("boom".to_string()));
    assert_eq!(pass.next_step(false, false), PassStep::Skipped);
    assert_eq!(pass.completed, 2);
    pass.next_step(false, false);
    pass.record_transfer(Ok(100));
    pass.next_step(false, false);
    assert!(pass.record_remote_delete(Some("denied".to_string())));
    assert!(!pass.record_done(None));
    assert_eq!(
        pass.errors,
        vec![
            "Upload u1: boom".to_string(),
            "Upload ../u2: invalid relative path".to_string(),
            "Delete remote: denied".to_string()
        ]
    );
    assert_eq!(
        pass.outcome(),
        PassOutcome {
            status: SyncOutcomeStatus::Partial,
            first_error: Some("Upload u1: boom".to_string()),
            report: Some(
                "Upload u1: boom; Upload ../u2: invalid relative path; Delete remote: denied"
                    .to_string()
            ),
        }
    );
}

#[test]
fn a_pass_in_which_everything_fails_ends_in_error() {
    let mut pass = SyncPass::begin(diff(&["u1"], &["d1"], &[], &[]), "", "x");
    pass.next_step(false, false);
    pass.record_transfer(Err("a".to_string()));
    pass.next_step(false, false);
    pass.record_transfer(Err("b".to_string()));
    let outcome = pass.outcome();
    assert_eq!(outcome.status, SyncOutcomeStatus::Error);
    assert_eq!(outcome.first_error, Some("Upload u1: a".to_string()));
    assert_eq!(outcome.report, Some("Upload u1: a; Download d1: b".to_string()));
    assert_eq!(SyncOutcomeStatus::Success.as_str(), "success");
    assert_eq!(SyncOutcomeStatus::Partial.as_str(), "partial");
    assert_eq!(SyncOutcomeStatus::Error.as_str(), "error");
}

#[test]
fn invalid_paths_are_skipped_in_every_stage() {
    let mut pass = SyncPass::begin(diff(&["/abs"], &["a/../b"], &[".."], &[]), "p", "x");
    assert_eq!(pass.next_step(false, false), PassStep::Skipped);
    assert_eq!(pass.next_step(false, false), PassStep::Skipped);
    assert_eq!(pass.next_step(false, false), PassStep::Skipped);
    assert!(!pass.has_work());
    assert_eq!(
        pass.errors,
        vec![
            "Upload /abs: invalid relative path".to_string(),
            "Download a/../b: invalid relative path".to_string(),
            "Delete local ..: invalid relative path".to_string()
        ]
    );
    assert_eq!(pass.outcome().status, SyncOutcomeStatus::Error);
}

#[test]
fn pass_helpers() {
    assert_eq!(files_watching(SyncDirection::RemoteToLocal), 0);
    assert_eq!(files_watching(SyncDirection::LocalToRemote), 1);
    assert_eq!(files_watching(SyncDirection::Bidirectional), 1);
    assert_eq!(SyncPass::begin(diff(&[], &[], &[], &[]), "", "remote-to-local").files_watching, 0);
    assert_eq!(saturating_sum(i64::MAX, 1), i64::MAX);
    assert_eq!(saturating_sum(i64::MIN, -1), i64::MIN);
    assert_eq!(saturating_sum(2, 3), 5);
    assert_eq!(failure_message(PassStage::Uploads, "a", "e"), "Upload a: e");
    assert_eq!(failure_message(PassStage::Downloads, "a", "e"), "Download a: e");
    assert_eq!(failure_message(PassStage::DeleteLocal, "a", "e"), "Delete local a: e");
    assert_eq!(failure_message(PassStage::DeleteRemote, "a", "e"), "Delete remote: e");
}

#[test]
fn poll_intervals_are_clamped() {
    assert_eq!(poll_wait_ms(0), 250);
    assert_eq!(poll_wait_ms(-5), 250);
    assert_eq!(poll_wait_ms(249), 250);
    assert_eq!(poll_wait_ms(250), 250);
    assert_eq!(poll_wait_ms(30_000), 30_000);
    assert_eq!(poll_wait_ms(86_400_000), 86_400_000);
    assert_eq!(poll_wait_ms(86_400_001), 86_400_000);
    assert_eq!(poll_wait_ms(i64::MAX), 86_400_000);
}

#[test]
fn loop_turns() {
    let r = rule("bidirectional", true, 1000);
    assert_eq!(loop_turn(true, Some(&r), false), LoopTurn::Exit(LoopExit::Cancelled));
    assert_eq!(loop_turn(true, None, true), LoopTurn::Exit(LoopExit::Cancelled));
    assert_eq!(loop_turn(false, None, false), LoopTurn::Exit(LoopExit::RuleMissing));
    let off = rule("bidirectional", false, 1000);
    assert_eq!(loop_turn(false, Some(&off), false), LoopTurn::Exit(LoopExit::Disabled));
    assert_eq!(loop_turn(false, Some(&r), false), LoopTurn::Run { files_watching: 1 });
    assert_eq!(
        loop_turn(false, Some(&r), true),
        LoopTurn::Rest { files_watching: 1, wait_ms: 1000 }
    );
    let pull = rule("remote-to-local", true, 5);
    assert_eq!(loop_turn(false, Some(&pull), false), LoopTurn::Run { files_watching: 0 });
    assert_eq!(
        loop_turn(false, Some(&pull), true),
        LoopTurn::Rest { files_watching: 0, wait_ms: 250 }
    );
}

#[test]
fn after_a_pass_the_loop_reports_and_waits() {
    assert_eq!(
        after_pass(PassResult::Completed, false, 1000),
        AfterPass::Wait { status: SyncStatusTag::Watching, failure: None, wait_ms: 1000 }
    );
    assert_eq!(
        after_pass(PassResult::Completed, true, 1000),
        AfterPass::Wait { status: SyncStatusTag::Paused, failure: None, wait_ms: 1000 }
    );
    assert_eq!(after_pass(PassResult::Cancelled, false, 1000), AfterPass::Exit);
    assert_eq!(
        after_pass(PassResult::Failed("listing failed".to_string()), true, 10),
        AfterPass::Wait {
            status: SyncStatusTag::Error,
            failure: Some("listing failed".to_string()),
            wait_ms: 250
        }
    );
    assert_eq!(status_after_exit(true), Some(SyncStatusTag::Idle));
    assert_eq!(status_after_exit(false), None);
}

#[test]
fn status_tags_have_their_names() {
    assert_eq!(SyncStatusTag::Idle.as_str(), "idle");
    assert_eq!(SyncStatusTag::Watching.as_str(), "watching");
    assert_eq!(SyncStatusTag::Syncing.as_str(), "syncing");
    assert_eq!(SyncStatusTag::Paused.as_str(), "paused");
    assert_eq!(SyncStatusTag::Error.as_str(), "error");
}

#[test]
fn statuses_are_set_replaced_and_listed_by_rule() {
    let mut rt = FolderSyncRuntime::new();
    let a = rt.set_folder_sync_status("b", SyncStatusTag::Idle, -3, None, None, None);
    assert_eq!(a.files_watching, 0);
    rt.set_folder_sync_status("a", SyncStatusTag::Watching, 1, Some("t".to_string()), None, None);
    rt.set_folder_sync_status("c", SyncStatusTag::Error, 1, None, None, None);
    let progress = FolderSyncProgress { completed: 1, total: 2, bytes_transferred: 3, bytes_total: 4 };
    let record = rt.set_folder_sync_status(
        "b",
        SyncStatusTag::Syncing,
        1,
        None,
        Some("f".to_string()),
        Some(progress),
    );
    assert_eq!(
        record,
        FolderSyncStateRecord {
            rule_id: "b".to_string(),
            status: SyncStatusTag::Syncing,
            files_watching: 1,
            last_change: None,
            current_file: Some("f".to_string()),
            progress: Some(progress),
        }
    );
    assert_eq!(rt.statuses.len(), 3);
    let listed: Vec<String> =
        rt.folder_sync_statuses_snapshot().iter().map(|s| s.rule_id.clone()).collect();
    assert_eq!(listed, vec!["a", "b", "c"]);
    assert_eq!(rt.folder_sync_status_counts(), (1, 1, 0, 1));
    let payload = folder_sync_status_payload(&record);
    assert_eq!(payload.rule_id, "b");
    assert_eq!(payload.status, SyncStatusTag::Syncing);
    assert_eq!(payload.progress, Some(progress));
    rt.remove_status("b");
    assert_eq!(rt.statuses.len(), 2);
    assert_eq!(rt.folder_sync_status_counts(), (0, 1, 0, 1));
}

#[test]
fn a_local_change_is_noted_on_the_status() {
    let mut rt = FolderSyncRuntime::new();
    let first = rt.mark_folder_sync_last_change("r", 1, "t1");
    assert_eq!(first.status, SyncStatusTag::Watching);
    assert_eq!(first.last_change, Some("t1".to_string()));
    rt.set_folder_sync_status("r", SyncStatusTag::Syncing, 1, None, Some("f".to_string()), None);
    let second = rt.mark_folder_sync_last_change("r", -1, "t2");
    assert_eq!(second.status, SyncStatusTag::Syncing);
    assert_eq!(second.current_file, Some("f".to_string()));
    assert_eq!(second.last_change, Some("t2".to_string()));
    assert_eq!(second.files_watching, 0);
    assert_eq!(rt.statuses.len(), 1);
}

#[test]
fn starting_a_rule_replaces_its_loop() {
    let mut rt = FolderSyncRuntime::new();
    assert!(!rt.folder_sync_has_active_tasks());
    assert_eq!(rt.trigger_folder_sync_now("r"), TriggerAction::Start);
    let (first, wakes) = rt.begin_rule("r").unwrap();
    assert!(wakes.is_empty());
    assert!(rt.folder_sync_has_active_tasks());
    assert!(!rt.is_loop_cancelled("r", first));
    assert_eq!(rt.trigger_folder_sync_now("r"), TriggerAction::Wake { token: first });
    let (second, wakes) = rt.begin_rule("r").unwrap();
    assert_ne!(first, second);
    assert_eq!(wakes, vec![Wake { rule_id: "r".to_string(), token: first }]);
    assert!(rt.is_loop_cancelled("r", first));
    assert!(!rt.is_loop_cancelled("r", second));
    assert_eq!(rt.tasks.len(), 1);
    rt.end_loop("r", first);
    assert!(!rt.is_loop_cancelled("r", second));
    assert_eq!(rt.active_rule_ids(), vec!["r".to_string()]);
    rt.end_loop("r", second);
    assert!(!rt.folder_sync_has_active_tasks());
}

#[test]
fn stopping_a_rule_cancels_and_wakes_its_loop() {
    let mut rt = FolderSyncRuntime::new();
    let (a, _) = rt.begin_rule("a").unwrap();
    let (b, _) = rt.begin_rule("b").unwrap();
    let wakes = rt.stop_folder_sync_rule("a");
    assert_eq!(wakes, vec![Wake { rule_id: "a".to_string(), token: a }]);
    assert!(rt.is_loop_cancelled("a", a));
    assert!(!rt.is_loop_cancelled("b", b));
    assert!(rt.stop_folder_sync_rule("zzz").is_empty());
}

#[test]
fn resume_wakes_every_loop_at_once() {
    let mut rt = FolderSyncRuntime::new();
    let (a, _) = rt.begin_rule("a").unwrap();
    let (b, _) = rt.begin_rule("b").unwrap();
    let wakes = rt.pause_all_folder_sync_rules();
    assert_eq!(wakes.len(), 2);
    assert!(rt.is_loop_paused("a", a));
    assert!(rt.is_loop_paused("b", b));
    let r = rule("bidirectional", true, 60_000);
    assert!(matches!(loop_turn(false, Some(&r), rt.is_loop_paused("a", a)), LoopTurn::Rest { .. }));
    let wakes = rt.resume_all_folder_sync_rules();
    assert_eq!(
        wakes,
        vec![
            Wake { rule_id: "a".to_string(), token: a },
            Wake { rule_id: "b".to_string(), token: b }
        ]
    );
    assert!(!rt.is_loop_paused("a", a));
    assert!(!rt.is_loop_paused("b", b));
    assert!(!rt.is_loop_cancelled("a", a));
    assert!(matches!(loop_turn(false, Some(&r), rt.is_loop_paused("a", a)), LoopTurn::Run { .. }));
}

#[test]
fn conflict_events_fill_in_what_is_unknown() {
    let e = FolderSyncDiffEntryRecord {
        relative_path: "a".to_string(),
        action: SyncAction::Conflict,
        reason: SyncReason::BothChanged,
        local_size: Some(10),
        local_mtime: None,
        remote_size: None,
        remote_last_modified: None,
        remote_etag: None,
    };
    assert_eq!(
        conflict_event_payload("r", &e, "now"),
        FolderSyncConflictEventPayload {
            rule_id: "r".to_string(),
            relative_path: "a".to_string(),
            local_size: 10,
            local_mtime: 0,
            remote_size: 0,
            remote_last_modified: "now".to_string(),
        }
    );
}

#[test]
fn a_failed_batch_of_remote_deletions_keeps_the_baseline_records() {
    let mut pass = SyncPass::begin(diff(&["u1"], &[], &[], &["r1", "r2"]), "docs", "x");
    pass.next_step(false, false);
    pass.record_transfer(Ok(10));
    assert_eq!(
        pass.next_step(false, false),
        PassStep::DeleteRemote { keys: vec!["docs/r1".to_string(), "docs/r2".to_string()] }
    );
    assert!(pass.record_remote_delete(Some("denied".to_string())));
    assert_eq!(pass.stage, PassStage::Finished);
    assert!(!pass.has_work());
    assert_eq!(pass.completed, 3);
    assert_eq!(
        pass.next_step(false, false),
        PassStep::Finished(PassOutcome {
            status: SyncOutcomeStatus::Partial,
            first_error: Some("Delete remote: denied".to_string()),
            report: Some("Delete remote: denied".to_string()),
        })
    );
}

#[test]
fn a_batch_of_remote_deletions_that_went_through_drops_the_records() {
    let mut pass = SyncPass::begin(diff(&[], &[], &[], &["r1"]), "", "x");
    assert!(matches!(pass.next_step(false, false), PassStep::DeleteRemote { .. }));
    assert!(pass.record_remote_delete(None));
    assert_eq!(pass.completed, 0);
    assert_eq!(
        pass.next_step(false, false),
        PassStep::ForgetRemote { index: 0, relative_path: "r1".to_string() }
    );
    assert!(pass.record_done(Some("disk full".to_string())));
    assert_eq!(pass.completed, 1);
    assert_eq!(pass.errors, vec!["Delete remote: disk full".to_string()]);
    assert_eq!(pass.outcome().status, SyncOutcomeStatus::Error);
}

#[test]
fn a_local_deletion_that_failed_is_recorded_under_its_path() {
    let mut pass = SyncPass::begin(diff(&[], &[], &["l1", "l2"], &[]), "", "x");
    assert!(matches!(pass.next_step(false, false), PassStep::DeleteLocal { .. }));
    assert!(pass.record_done(Some("permission denied".to_string())));
    assert!(matches!(pass.next_step(false, false), PassStep::DeleteLocal { index: 1, .. }));
    assert!(pass.record_done(None));
    assert_eq!(pass.completed, 2);
    assert_eq!(pass.errors, vec!["Delete local l1: permission denied".to_string()]);
    assert_eq!(pass.outcome().status, SyncOutcomeStatus::Partial);
}

#[test]
fn a_file_that_is_gone_counts_as_deleted() {
    assert_eq!(local_deletion_error(LocalDeletion::Deleted), None);
    assert_eq!(local_deletion_error(LocalDeletion::Missing), None);
    assert_eq!(
        local_deletion_error(LocalDeletion::Failed("busy".to_string())),
        Some("busy".to_string())
    );
}
