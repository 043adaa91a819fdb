use object0::sync::diff::{
    diff_for_paths, generate_folder_sync_diff_for_rule, insert_sorted, remote_relative_path,
    tracked_paths, FolderSyncDiffEntryRecord, FolderSyncDiffRecord,
};
use object0::sync::records::{
    downloaded_record, get_folder_sync_rule, remove_folder_sync_file_record, retain_scanned,
    scanned_file, update_folder_sync_file_record, update_folder_sync_rule_result, uploaded_record,
    RuleError,
};
use object0::sync::types::{
    ConflictPolicy, FolderSyncFileRecord, FolderSyncRuleRecord, LocalFileInfo, RemoteObject,
    SyncAction, SyncDirection, SyncReason,
};

const T: &str = "2024-05-01T10:00:00Z";

fn rule(direction: &str, policy: &str, prefix: &str, patterns: &[&str]) -> FolderSyncRuleRecord {
    FolderSyncRuleRecord {
        id: "rule-1".to_string(),
        profile_id: "p".to_string(),
        bucket: "bucket".to_string(),
        bucket_prefix: prefix.to_string(),
        local_path: "/data".to_string(),
        direction: direction.to_string(),
        enabled: true,
        conflict_resolution: policy.to_string(),
        poll_interval_ms: 30_000,
        exclude_patterns: patterns.iter().map(|s| s.to_string()).collect(),
        last_sync_at: None,
        last_sync_status: None,
        last_sync_error: None,
        created_at: T.to_string(),
    }
}

fn local(path: &str, size: i64, mtime_ms: i64) -> LocalFileInfo {
    LocalFileInfo { relative_path: path.to_string(), size, mtime_ms }
}

fn object(key: &str, size: i64, etag: &str) -> RemoteObject {
    RemoteObject {
        key: key.to_string(),
        size,
        etag: etag.to_string(),
        last_modified: T.to_string(),
    }
}

fn record(path: &str, size: i64, mtime: i64, etag: &str) -> FolderSyncFileRecord {
    FolderSyncFileRecord {
        relative_path: path.to_string(),
        local_mtime: mtime,
        local_size: size,
        remote_etag: etag.to_string(),
        remote_last_modified: T.to_string(),
        remote_size: size,
        synced_at: T.to_string(),
    }
}

fn paths(entries: &[FolderSyncDiffEntryRecord]) -> Vec<String> {
    entries.iter().map(|e| e.relative_path.clone()).collect()
}

fn actionable(diff: &FolderSyncDiffRecord) -> usize {
    diff.uploads.len() + diff.downloads.len() + diff.delete_local.len() + diff.delete_remote.len()
}

#[test]
fn sorted_insert_keeps_order_and_drops_duplicates() {
    let mut v: Vec<String> = Vec::new();
    for s in ["m", "a", "z", "m", "b", "a", ""] {
        insert_sorted(&mut v, s.to_string());
    }
    assert_eq!(v, vec!["", "a", "b", "m", "z"]);
}

#[test]
fn remote_keys_are_read_below_the_prefix() {
    assert_eq!(remote_relative_path("docs/", "docs/a.txt"), Some("a.txt".to_string()));
    assert_eq!(remote_relative_path("docs/", "docs/"), None);
    assert_eq!(remote_relative_path("docs/", "docs/sub/"), None);
    assert_eq!(remote_relative_path("docs/", "other/a.txt"), None);
    assert_eq!(remote_relative_path("", "a.txt"), Some("a.txt".to_string()));
    assert_eq!(remote_relative_path("", "dir/"), None);
}

#[test]
fn tracked_paths_are_the_sorted_union() {
    let locals = vec![local("b.txt", 1, 1), local("a.txt", 1, 1), local("skip.tmp", 1, 1)];
    let remotes =
        vec![object("docs/c.txt", 1, "e"), object("docs/a.txt", 1, "e"), object("x/y", 1, "e")];
    let known = vec![record("old.txt", 1, 1, "e"), record("b.txt", 1, 1, "e")];
    let patterns = vec!["*.tmp".to_string()];
    assert_eq!(
        tracked_paths("docs/", &patterns, &locals, &remotes, &known),
        vec!["a.txt", "b.txt", "c.txt", "old.txt"]
    );
}

#[test]
fn diff_sorts_each_list_by_path() {
    let r = rule("bidirectional", "manual", "docs", &[]);
    let locals = vec![local("z.txt", 1, 1), local("b.txt", 1, 1), local("m.txt", 1, 1)];
    let remotes = vec![object("docs/y.txt", 1, "e"), object("docs/c.txt", 1, "e")];
    let diff = generate_folder_sync_diff_for_rule(&r, &locals, &remotes, &Vec::new());
    assert_eq!(paths(&diff.uploads), vec!["b.txt", "m.txt", "z.txt"]);
    assert_eq!(paths(&diff.downloads), vec!["c.txt", "y.txt"]);
    assert!(diff.delete_local.is_empty());
    assert!(diff.delete_remote.is_empty());
    assert!(diff.conflicts.is_empty());
    assert_eq!(diff.unchanged, 0);
}

#[test]
fn diff_entries_carry_both_sides() {
    let r = rule("bidirectional", "local-wins", "docs/", &[]);
    let locals = vec![local("a.txt", 10, 123)];
    let remotes = vec![object("docs/a.txt", 20, "etag-a")];
    let diff = generate_folder_sync_diff_for_rule(&r, &locals, &remotes, &Vec::new());
    assert_eq!(
        diff.uploads,
        vec![FolderSyncDiffEntryRecord {
            relative_path: "a.txt".to_string(),
            action: SyncAction::Upload,
            reason: SyncReason::LocalWins,
            local_size: Some(10),
            local_mtime: Some(123),
            remote_size: Some(20),
            remote_last_modified: Some(T.to_string()),
            remote_etag: Some("etag-a".to_string()),
        }]
    );
    let diff = generate_folder_sync_diff_for_rule(&r, &locals, &Vec::new(), &Vec::new());
    assert_eq!(
        diff.uploads,
        vec![FolderSyncDiffEntryRecord {
            relative_path: "a.txt".to_string(),
            action: SyncAction::Upload,
            reason: SyncReason::NewLocal,
            local_size: Some(10),
            local_mtime: Some(123),
            remote_size: None,
            remote_last_modified: None,
            remote_etag: None,
        }]
    );
}

#[test]
fn reconciler_is_idempotent_on_a_synced_state() {
    let locals = vec![local("a.txt", 10, 100), local("d/b.txt", 20, 200)];
    let remotes = vec![object("p/a.txt", 10, "ea"), object("p/d/b.txt", 20, "eb")];
    let known = vec![record("a.txt", 10, 100, "ea"), record("d/b.txt", 20, 200, "eb")];
    for direction in ["bidirectional", "local-to-remote", "remote-to-local"] {
        let r = rule(direction, "newer-wins", "p", &[]);
        let first = generate_folder_sync_diff_for_rule(&r, &locals, &remotes, &known);
        let second = generate_folder_sync_diff_for_rule(&r, &locals, &remotes, &known);
        assert_eq!(actionable(&first), 0);
        assert_eq!(first.conflicts.len(), 0);
        assert_eq!(first.unchanged, 2);
        assert_eq!(first, second);
    }
}

#[test]
fn direction_local_to_remote_never_downloads_new_remote_files() {
    let r = rule("local-to-remote", "manual", "", &[]);
    let remotes = vec![object("new.txt", 5, "e")];
    let diff = generate_folder_sync_diff_for_rule(&r, &Vec::new(), &remotes, &Vec::new());
    assert!(diff.downloads.is_empty());
    assert_eq!(actionable(&diff), 0);
    assert_eq!(diff.unchanged, 1);
}

#[test]
fn direction_remote_to_local_never_uploads_new_local_files() {
    let r = rule("remote-to-local", "manual", "", &[]);
    let locals = vec![local("new.txt", 5, 1)];
    let diff = generate_folder_sync_diff_for_rule(&r, &locals, &Vec::new(), &Vec::new());
    assert!(diff.uploads.is_empty());
    assert_eq!(actionable(&diff), 0);
    assert_eq!(diff.unchanged, 1);
}

#[test]
fn deletion_is_propagated_once_per_path() {
    let known = vec![record("gone-remote.txt", 1, 1, "e"), record("gone-local.txt", 1, 1, "e"),
        record("gone-both.txt", 1, 1, "e")];
    let locals = vec![local("gone-remote.txt", 1, 1)];
    let remotes = vec![object("gone-local.txt", 1, "e")];
    let r = rule("bidirectional", "manual", "", &[]);
    let diff = generate_folder_sync_diff_for_rule(&r, &locals, &remotes, &known);
    assert_eq!(paths(&diff.delete_local), vec!["gone-remote.txt"]);
    assert_eq!(paths(&diff.delete_remote), vec!["gone-local.txt"]);
    assert!(diff.uploads.is_empty());
    assert!(diff.downloads.is_empty());
    assert_eq!(diff.unchanged, 1);

    let r = rule("local-to-remote", "manual", "", &[]);
    let diff = generate_folder_sync_diff_for_rule(&r, &locals, &remotes, &known);
    assert_eq!(paths(&diff.uploads), vec!["gone-remote.txt"]);
    assert_eq!(diff.uploads[0].reason, SyncReason::ReuploadRemoteDeleted);
    assert_eq!(paths(&diff.delete_remote), vec!["gone-local.txt"]);
    assert!(diff.delete_local.is_empty());

    let r = rule("remote-to-local", "manual", "", &[]);
    let diff = generate_folder_sync_diff_for_rule(&r, &locals, &remotes, &known);
    assert_eq!(paths(&diff.downloads), vec!["gone-local.txt"]);
    assert_eq!(diff.downloads[0].reason, SyncReason::RedownloadLocalDeleted);
    assert_eq!(paths(&diff.delete_local), vec!["gone-remote.txt"]);
    assert!(diff.delete_remote.is_empty());
}

#[test]
fn no_path_appears_in_two_lists() {
    let locals = vec![local("a", 1, 1), local("b", 2, 1), local("c", 3, 9), local("d", 1, 1)];
    let remotes = vec![object("b", 2, "e"), object("c", 4, "e2"), object("e", 1, "e"),
        object("f", 1, "e")];
    let known = vec![record("c", 1, 1, "e"), record("d", 1, 1, "e"), record("f", 1, 1, "e"),
        record("g", 1, 1, "e")];
    for direction in ["bidirectional", "local-to-remote", "remote-to-local"] {
        for policy in ["manual", "local-wins", "remote-wins", "newer-wins"] {
            let r = rule(direction, policy, "", &[]);
            let diff = generate_folder_sync_diff_for_rule(&r, &locals, &remotes, &known);
            let mut all = paths(&diff.uploads);
            all.extend(paths(&diff.downloads));
            all.extend(paths(&diff.delete_local));
            all.extend(paths(&diff.delete_remote));
            all.extend(paths(&diff.conflicts));
            let count = all.len();
            all.sort();
            all.dedup();
            assert_eq!(all.len(), count);
            assert_eq!(count + diff.unchanged, 7);
        }
    }
}

#[test]
fn excluded_paths_take_no_part() {
    let r = rule("bidirectional", "manual", "", &["*.tmp", ".DS_Store"]);
    let locals = vec![local("a.tmp", 1, 1), local("keep.txt", 1, 1)];
    let remotes = vec![object("sub/.DS_Store", 1, "e"), object("b.tmp", 1, "e")];
    let known = vec![record("c.tmp", 1, 1, "e")];
    let diff = generate_folder_sync_diff_for_rule(&r, &locals, &remotes, &known);
    assert_eq!(paths(&diff.uploads), vec!["keep.txt"]);
    assert_eq!(actionable(&diff), 1);
    assert_eq!(diff.unchanged, 0);
}

#[test]
fn the_last_of_several_entries_of_a_path_counts() {
    let r = rule("bidirectional", "manual", "", &[]);
    let locals = vec![local("a", 1, 1), local("a", 5, 1)];
    let remotes = vec![object("a", 9, "e1"), object("a", 5, "e2")];
    let diff = generate_folder_sync_diff_for_rule(&r, &locals, &remotes, &Vec::new());
    assert_eq!(actionable(&diff), 0);
    assert_eq!(diff.unchanged, 1);
}

#[test]
fn negative_remote_sizes_count_as_zero() {
    let r = rule("bidirectional", "manual", "", &[]);
    let diff = generate_folder_sync_diff_for_rule(
        &r,
        &vec![local("a", 0, 1)],
        &vec![object("a", -7, "e")],
        &Vec::new(),
    );
    assert_eq!(actionable(&diff) + diff.conflicts.len(), 0);
    assert_eq!(diff.unchanged, 1);
}

#[test]
fn diff_for_given_paths_only_looks_at_those() {
    let locals = vec![local("a", 1, 1), local("b", 1, 1)];
    let diff = diff_for_paths(
        &vec!["b".to_string()],
        "",
        &Vec::new(),
        SyncDirection::Bidirectional,
        ConflictPolicy::Manual,
        &locals,
        &Vec::new(),
        &Vec::new(),
    );
    assert_eq!(paths(&diff.uploads), vec!["b"]);
}

#[test]
fn baseline_records_are_replaced_or_appended() {
    let mut records = vec![record("a", 1, 1, "e"), record("b", 1, 1, "e")];
    update_folder_sync_file_record(&mut records, record("a", 9, 9, "e9"));
    assert_eq!(records, vec![record("a", 9, 9, "e9"), record("b", 1, 1, "e")]);
    update_folder_sync_file_record(&mut records, record("c", 3, 3, "e3"));
    assert_eq!(records.len(), 3);
    assert_eq!(records[2], record("c", 3, 3, "e3"));
    remove_folder_sync_file_record(&mut records, "a");
    assert_eq!(records, vec![record("b", 1, 1, "e"), record("c", 3, 3, "e3")]);
    remove_folder_sync_file_record(&mut records, "missing");
    assert_eq!(records.len(), 2);
}

#[test]
fn rules_are_found_by_identity() {
    let mut a = rule("bidirectional", "manual", "", &[]);
    a.id = "a".to_string();
    let mut b = rule("local-to-remote", "manual", "", &[]);
    b.id = "b".to_string();
    let rules = vec![a.clone(), b.clone()];
    assert_eq!(get_folder_sync_rule(&rules, "b"), Ok(b));
    let missing = get_folder_sync_rule(&rules, "zzz");
    assert_eq!(missing, Err(RuleError::NotFound("zzz".to_string())));
    assert_eq!(missing.unwrap_err().message(), "Rule not found: zzz");
}

#[test]
fn the_outcome_of_a_pass_is_recorded_on_its_rule() {
    let mut a = rule("bidirectional", "manual", "", &[]);
    a.id = "a".to_string();
    let mut b = rule("local-to-remote", "manual", "", &["x"]);
    b.id = "b".to_string();
    let mut rules = vec![a.clone(), b.clone()];
    assert!(update_folder_sync_rule_result(&mut rules, "b", Some("partial"), Some("boom"), T));
    assert_eq!(rules[0], a);
    let mut expected = b.clone();
    expected.last_sync_at = Some(T.to_string());
    expected.last_sync_status = Some("partial".to_string());
    expected.last_sync_error = Some("boom".to_string());
    assert_eq!(rules[1], expected);
    assert!(update_folder_sync_rule_result(&mut rules, "b", Some("success"), None, "later"));
    assert_eq!(rules[1].last_sync_error, None);
    assert_eq!(rules[1].last_sync_at, Some("later".to_string()));
    let before = rules.clone();
    assert!(!update_folder_sync_rule_result(&mut rules, "nope", Some("success"), None, T));
    assert_eq!(rules, before);
}

#[test]
fn records_after_a_transfer() {
    let rec = uploaded_record("a.txt", 7, -3, Some("\"abc\""), T.to_string(), Some(-1), "now");
    assert_eq!(
        rec,
        FolderSyncFileRecord {
            relative_path: "a.txt".to_string(),
            local_mtime: 7,
            local_size: 0,
            remote_etag: "abc".to_string(),
            remote_last_modified: T.to_string(),
            remote_size: 0,
            synced_at: "now".to_string(),
        }
    );
    let rec = uploaded_record("a.txt", 7, 12, None, T.to_string(), None, "now");
    assert_eq!(rec.remote_etag, "");
    assert_eq!(rec.remote_size, 0);
    assert_eq!(rec.local_size, 12);

    let entry = FolderSyncDiffEntryRecord {
        relative_path: "b.txt".to_string(),
        action: SyncAction::Download,
        reason: SyncReason::NewRemote,
        local_size: None,
        local_mtime: None,
        remote_size: None,
        remote_last_modified: None,
        remote_etag: None,
    };
    let rec = downloaded_record(&entry, 5, 6, 77, "now");
    assert_eq!(rec.remote_size, 77);
    assert_eq!(rec.remote_last_modified, "now");
    assert_eq!(rec.remote_etag, "");
    assert_eq!(rec.local_size, 6);
    let entry = FolderSyncDiffEntryRecord {
        remote_size: Some(9),
        remote_last_modified: Some(T.to_string()),
        remote_etag: Some("e".to_string()),
        ..entry
    };
    let rec = downloaded_record(&entry, 5, 6, 77, "now");
    assert_eq!(rec.remote_size, 9);
    assert_eq!(rec.remote_last_modified, T);
    assert_eq!(rec.remote_etag, "e");
}

#[test]
fn scans_keep_what_no_pattern_excludes() {
    let files = vec![local("a.txt", 1, 1), local("", 1, 1), local("b.tmp", 1, 1),
        local("d/c.txt", 1, 1)];
    let kept = retain_scanned(&files, &vec!["*.tmp".to_string()]);
    assert_eq!(kept, vec![local("a.txt", 1, 1), local("d/c.txt", 1, 1)]);
    assert_eq!(scanned_file("x".to_string(), -4, 9), local("x", 0, 9));
}
