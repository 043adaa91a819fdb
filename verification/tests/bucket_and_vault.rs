use object0::jobs::scheduler::JobRuntime;
use object0::jobs::types::{JobStatus, JobTaskKind, JobType};
use object0::sync::bucket::{
    execute_sync_diff, generate_sync_diff, plan_sync_jobs, to_sync_object_map, SyncDiffEntryRecord,
    SyncDiffRecord, SyncInput, SyncMode,
};
use object0::sync::types::RemoteObject;
use object0::vault::{
    ensure_unlocked, ensure_writable, generate_recovery_key, lock_vault_runtime, profile_for_id,
    profile_infos, recovery_key_from_bytes, to_profile_info, Profile, VaultData, VaultError,
    VaultRuntime,
};

fn object(key: &str, size: i64, etag: &str) -> RemoteObject {
    RemoteObject {
        key: key.to_string(),
        size,
        etag: etag.to_string(),
        last_modified: "t".to_string(),
    }
}

fn input(mode: &str) -> SyncInput {
    SyncInput {
        source_profile_id: "sp".to_string(),
        source_bucket: "src".to_string(),
        source_prefix: "in".to_string(),
        dest_profile_id: "dp".to_string(),
        dest_bucket: "dst".to_string(),
        dest_prefix: "out/".to_string(),
        mode: mode.to_string(),
    }
}

fn keys(entries: &[SyncDiffEntryRecord]) -> Vec<String> {
    entries.iter().map(|e| e.key.clone()).collect()
}

fn sides() -> (Vec<RemoteObject>, Vec<RemoteObject>) {
    let source = vec![
        object("in/same", 1, "e1"),
        object("in/new", 2, "e2"),
        object("in/changed", 3, "e3"),
        object("in/dir/", 0, "e"),
        object("elsewhere/x", 1, "e"),
        object("in/resized", 4, "e4"),
    ];
    let dest = vec![
        object("out/same", 1, "e1"),
        object("out/changed", 3, "other"),
        object("out/resized", 9, "e4"),
        object("out/extra", 5, "e5"),
        object("out/another", 5, "e5"),
    ];
    (source, dest)
}

#[test]
fn modes_are_read_from_their_names() {
    assert_eq!(SyncMode::parse("mirror"), SyncMode::Mirror);
    assert_eq!(SyncMode::parse("overwrite"), SyncMode::Overwrite);
    assert_eq!(SyncMode::parse("additive"), SyncMode::Additive);
    assert_eq!(SyncMode::parse(""), SyncMode::Additive);
}

#[test]
fn objects_are_mapped_by_their_keys_below_the_prefix() {
    let (source, _) = sides();
    let map = to_sync_object_map(&source, "in");
    let got: Vec<(String, i64)> = map.iter().map(|o| (o.key.clone(), o.size)).collect();
    assert_eq!(
        got,
        vec![
            ("changed".to_string(), 3),
            ("new".to_string(), 2),
            ("resized".to_string(), 4),
            ("same".to_string(), 1)
        ]
    );
    let twice = vec![object("a", 1, "e1"), object("a", -2, "e2")];
    let map = to_sync_object_map(&twice, "");
    assert_eq!(map, vec![object("a", 0, "e2")]);
}

#[test]
fn the_diff_between_buckets_adds_and_updates() {
    let (source, dest) = sides();
    let diff = generate_sync_diff(&input("additive"), &source, &dest);
    assert_eq!(keys(&diff.to_add), vec!["new"]);
    assert_eq!(keys(&diff.to_update), vec!["changed", "resized"]);
    assert!(diff.to_delete.is_empty());
    assert_eq!(diff.unchanged, 1);
    assert_eq!(
        diff.to_update[0],
        SyncDiffEntryRecord {
            key: "changed".to_string(),
            source_size: Some(3),
            dest_size: Some(3),
            source_etag: Some("e3".to_string()),
            dest_etag: Some("other".to_string()),
            source_last_modified: Some("t".to_string()),
            dest_last_modified: Some("t".to_string()),
            selected: true,
        }
    );
    assert_eq!(diff.to_add[0].dest_size, None);
    assert_eq!(diff.to_add[0].source_size, Some(2));
}

#[test]
fn mirror_deletes_what_only_the_destination_has() {
    let (source, dest) = sides();
    let diff = generate_sync_diff(&input("mirror"), &source, &dest);
    assert_eq!(keys(&diff.to_add), vec!["new"]);
    assert_eq!(keys(&diff.to_delete), vec!["another", "extra"]);
    assert_eq!(diff.to_delete[0].source_size, None);
    assert_eq!(diff.to_delete[0].dest_size, Some(5));
}

#[test]
fn overwrite_only_updates() {
    let (source, dest) = sides();
    let diff = generate_sync_diff(&input("overwrite"), &source, &dest);
    assert!(diff.to_add.is_empty());
    assert!(diff.to_delete.is_empty());
    assert_eq!(keys(&diff.to_update), vec!["changed", "resized"]);
    assert_eq!(diff.unchanged, 1);
}

#[test]
fn a_diff_is_carried_out_by_copies_and_one_deletion() {
    let (source, dest) = sides();
    let mut diff = generate_sync_diff(&input("mirror"), &source, &dest);
    diff.to_update[1].selected = false;
    let jobs = plan_sync_jobs(&input("mirror"), &diff);
    assert_eq!(jobs.len(), 3);
    assert_eq!(jobs[0].job_type, JobType::Sync);
    assert_eq!(jobs[0].file_name, "new");
    assert_eq!(jobs[0].description, "Sync src:in/new -> dst:out/new");
    assert_eq!(jobs[0].bytes_total, 2);
    assert_eq!(
        jobs[0].kind,
        JobTaskKind::Copy {
            source_profile_id: "sp".to_string(),
            source_bucket: "src".to_string(),
            source_key: "in/new".to_string(),
            dest_profile_id: "dp".to_string(),
            dest_bucket: "dst".to_string(),
            dest_key: "out/new".to_string(),
        }
    );
    assert_eq!(jobs[1].description, "Sync src:in/changed -> dst:out/changed");
    assert_eq!(jobs[2].job_type, JobType::Delete);
    assert_eq!(jobs[2].file_name, "2 object(s)");
    assert_eq!(jobs[2].description, "Mirror delete on dst");
    assert_eq!(jobs[2].bytes_total, 2);
    assert_eq!(
        jobs[2].kind,
        JobTaskKind::Delete {
            profile_id: "dp".to_string(),
            bucket: "dst".to_string(),
            keys: vec!["out/another".to_string(), "out/extra".to_string()],
        }
    );
    let nothing = SyncDiffRecord {
        to_add: Vec::new(),
        to_update: Vec::new(),
        to_delete: Vec::new(),
        unchanged: 3,
    };
    assert!(plan_sync_jobs(&input("mirror"), &nothing).is_empty());
}

#[test]
fn carrying_out_enqueues_the_jobs() {
    let (source, dest) = sides();
    let diff = generate_sync_diff(&input("mirror"), &source, &dest);
    let mut rt = JobRuntime::new();
    rt.set_concurrency(2);
    let done = execute_sync_diff(&mut rt, &input("mirror"), &diff);
    assert_eq!(done.enqueued.len(), 4);
    assert_eq!(done.job_id, done.enqueued[0].job.id);
    assert_eq!(rt.running.len(), 2);
    assert_eq!(rt.queue.len(), 2);
    let listed = rt.list_jobs();
    assert_eq!(listed.len(), 4);
    assert_eq!(listed.iter().filter(|j| j.status == JobStatus::Running).count(), 2);
    let mut empty = JobRuntime::new();
    let nothing = SyncDiffRecord {
        to_add: Vec::new(),
        to_update: Vec::new(),
        to_delete: Vec::new(),
        unchanged: 0,
    };
    let done = execute_sync_diff(&mut empty, &input("mirror"), &nothing);
    assert!(done.enqueued.is_empty());
    assert_eq!(done.job_id.len(), 36);
}

fn profile(id: &str) -> Profile {
    Profile {
        id: id.to_string(),
        name: format!("name-{id}"),
        provider: "aws".to_string(),
        access_key_id: "AK".to_string(),
        secret_access_key: "SECRET-REDACTED".to_string(),
        session_token: None,
        endpoint: Some("http://e".to_string()),
        region: None,
        default_bucket: Some("b".to_string()),
        created_at: "c".to_string(),
        updated_at: "u".to_string(),
    }
}

fn open_vault() -> VaultRuntime {
    VaultRuntime {
        unlocked: true,
        data: Some(VaultData { profiles: vec![profile("a"), profile("b"), profile("a")] }),
        key: Some([1u8; 32]),
        salt: Some(vec![2u8; 32]),
        recovery_key: None,
        recovery_salt: None,
    }
}

#[test]
fn a_locked_vault_gives_nothing() {
    let vault = VaultRuntime::new();
    assert_eq!(ensure_unlocked(&vault), Err(VaultError::Locked));
    assert_eq!(ensure_writable(&vault), Err(VaultError::Locked));
    assert_eq!(profile_for_id(&vault, "a"), Err(VaultError::Locked));
    assert!(profile_infos(&vault).is_empty());
    assert_eq!(VaultError::Locked.message(), "Vault is locked");
    let mut half = open_vault();
    half.unlocked = false;
    assert_eq!(ensure_unlocked(&half), Err(VaultError::Locked));
    assert_eq!(profile_for_id(&half, "a"), Err(VaultError::Locked));
    assert_eq!(VaultRuntime::default(), VaultRuntime::new());
}

#[test]
fn an_open_vault_resolves_profiles() {
    let vault = open_vault();
    assert_eq!(ensure_unlocked(&vault), Ok(()));
    assert_eq!(ensure_writable(&vault), Ok(()));
    assert_eq!(profile_for_id(&vault, "b"), Ok(profile("b")));
    let missing = profile_for_id(&vault, "zzz");
    assert_eq!(missing, Err(VaultError::ProfileNotFound("zzz".to_string())));
    assert_eq!(missing.unwrap_err().message(), "Profile not found: zzz");
    let infos = profile_infos(&vault);
    assert_eq!(infos.len(), 3);
    assert_eq!(infos[1], to_profile_info(&profile("b")));
    assert_eq!(infos[1].id, "b");
    assert_eq!(infos[1].name, "name-b");
    assert_eq!(infos[1].endpoint, Some("http://e".to_string()));
}

#[test]
fn a_vault_opened_by_recovery_must_be_rekeyed() {
    let mut vault = open_vault();
    vault.key = None;
    assert_eq!(ensure_writable(&vault), Err(VaultError::MustRekey));
    assert_eq!(VaultError::MustRekey.message(), "Vault must be rekeyed before writing");
    let mut vault = open_vault();
    vault.salt = None;
    assert_eq!(ensure_writable(&vault), Err(VaultError::MustRekey));
}

#[test]
fn locking_drops_everything() {
    let mut vault = open_vault();
    vault.recovery_key = Some([3u8; 32]);
    vault.recovery_salt = Some(vec![4u8; 32]);
    lock_vault_runtime(&mut vault);
    assert_eq!(vault, VaultRuntime::new());
}

#[test]
fn recovery_keys_come_in_groups_of_four() {
    let bytes: Vec<u8> = (0u8..24).collect();
    assert_eq!(recovery_key_from_bytes(&bytes), "ABCD-EFGH-JKLM-NPQR-STUV-WXYZ");
    assert_eq!(recovery_key_from_bytes(&vec![24, 25, 31, 32, 33]), "239A-B");
    assert_eq!(recovery_key_from_bytes(&Vec::new()), "");
    assert_eq!(recovery_key_from_bytes(&vec![255]), "9");
    let key = generate_recovery_key();
    assert_eq!(key.len(), 29);
    let groups: Vec<&str> = key.split('-').collect();
    assert_eq!(groups.len(), 6);
    for group in groups {
        assert_eq!(group.len(), 4);
        assert!(group.chars().all(|c| "ABCDEFGHJKLMNPQRSTUVWXYZ23456789".contains(c)));
    }
    assert_ne!(generate_recovery_key(), generate_recovery_key());
}
