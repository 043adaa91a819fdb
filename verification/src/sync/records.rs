//! The persisted lists of a rule: its baseline records, and the rules
//! themselves with the outcome of their last pass.

use crate::sync::types::{FolderSyncFileRecord, FolderSyncRuleRecord, LocalFileInfo};
use crate::text::{concat2, str_eq};
use vstd::prelude::*;

verus! {

/// The position of the first baseline record of `path`.
pub open spec fn is_first_record(records: Seq<FolderSyncFileRecord>, path: Seq<char>, i: int)
    -> bool {
    &&& 0 <= i < records.len()
    &&& records[i].relative_path@ == path
    &&& forall|k: int| 0 <= k < i ==> (#[trigger] records[k]).relative_path@ != path
}

/// Whether the list holds a baseline record of `path`.
pub open spec fn has_record(records: Seq<FolderSyncFileRecord>, path: Seq<char>) -> bool {
    exists|i: int| 0 <= i < records.len() && (#[trigger] records[i]).relative_path@ == path
}

/// The baseline records other than those of `path`, in order.
pub open spec fn records_without(records: Seq<FolderSyncFileRecord>, path: Seq<char>) -> Seq<
    FolderSyncFileRecord,
>
    decreases records.len(),
{
    if records.len() == 0 {
        records
    } else if records.last().relative_path@ == path {
        records_without(records.drop_last(), path)
    } else {
        records_without(records.drop_last(), path).push(records.last())
    }
}

/// Puts the baseline record of a path in the place of the first record of
/// that path, or at the end of the list where the path has none.
pub fn update_folder_sync_file_record(
    records: &mut Vec<FolderSyncFileRecord>,
    record: FolderSyncFileRecord,
)
    ensures
        has_record(old(records)@, record.relative_path@) ==> exists|i: int|
            is_first_record(old(records)@, record.relative_path@, i) && final(records)@ == old(
                records,
            )@.update(i, record),
        !has_record(old(records)@, record.relative_path@) ==> final(records)@ == old(
            records,
        )@.push(record),
{
    let mut i: usize = 0;
    while i < records.len()
        invariant
            0 <= i <= records.len(),
            *records == *old(records),
            forall|k: int|
                0 <= k < i ==> (#[trigger] records@[k]).relative_path@ != record.relative_path@,
        decreases records.len() - i,
    {
        if str_eq(records[i].relative_path.as_str(), record.relative_path.as_str()) {
            assert(is_first_record(old(records)@, record.relative_path@, i as int));
            records.set(i, record);
            return ;
        }
        i += 1;
    }
    records.push(record);
}

/// Takes the baseline records of `relative_path` out of the list.
pub fn remove_folder_sync_file_record(
    records: &mut Vec<FolderSyncFileRecord>,
    relative_path: &str,
)
    ensures
        final(records)@ == records_without(old(records)@, relative_path@),
{
    let ghost before = records@;
    let mut out: Vec<FolderSyncFileRecord> = Vec::new();
    let mut i: usize = 0;
    assert(before.take(0) =~= Seq::<FolderSyncFileRecord>::empty());
    while i < records.len()
        invariant
            0 <= i <= records.len(),
            before == records@,
            out@ == records_without(before.take(i as int), relative_path@),
        decreases records.len() - i,
    {
        assert(before.take(i + 1).drop_last() =~= before.take(i as int));
        if !str_eq(records[i].relative_path.as_str(), relative_path) {
            out.push(records[i].clone());
        }
        i += 1;
    }
    assert(before.take(i as int) =~= before);
    *records = out;
}

/// Once the baseline records of a path are taken out, the list holds none
/// of that path, and of every other path what it held before.
pub proof fn lemma_removed_record_is_gone(
    records: Seq<FolderSyncFileRecord>,
    path: Seq<char>,
    other: Seq<char>,
)
    ensures
        !has_record(records_without(records, path), path),
        other != path ==> has_record(records_without(records, path), other) == has_record(
            records,
            other,
        ),
        records_without(records, path).len() <= records.len(),
    decreases records.len(),
{
    if records.len() > 0 {
        let head = records.drop_last();
        let last = records.last();
        lemma_removed_record_is_gone(head, path, other);
        let out = records_without(records, path);
        let rest = records_without(head, path);
        if has_record(out, path) {
            let k = choose|k: int| 0 <= k < out.len() && (#[trigger] out[k]).relative_path@ == path;
            if k < rest.len() {
                assert(rest[k].relative_path@ == path);
            }
        }
        if other != path {
            if has_record(out, other) {
                let k = choose|k: int|
                    0 <= k < out.len() && (#[trigger] out[k]).relative_path@ == other;
                if k < rest.len() {
                    assert(rest[k].relative_path@ == other);
                    assert(has_record(rest, other));
                    let m = choose|m: int|
                        0 <= m < head.len() && (#[trigger] head[m]).relative_path@ == other;
                    assert(records[m].relative_path@ == other);
                } else {
                    assert(records[records.len() - 1].relative_path@ == other);
                }
            }
            if has_record(records, other) {
                let k = choose|k: int|
                    0 <= k < records.len() && (#[trigger] records[k]).relative_path@ == other;
                if k < head.len() {
                    assert(head[k].relative_path@ == other);
                    assert(has_record(head, other));
                    let m = choose|m: int|
                        0 <= m < rest.len() && (#[trigger] rest[m]).relative_path@ == other;
                    assert(out[m].relative_path@ == other);
                } else {
                    assert(out[out.len() - 1].relative_path@ == other);
                }
            }
        }
    }
}

/// Why a rule could not be had.
#[derive(Debug, PartialEq, Eq)]
pub enum RuleError {
    /// No rule has the identity.
    NotFound(String),
}

impl RuleError {
    pub open spec fn text(self) -> Seq<char> {
        match self {
            RuleError::NotFound(id) => "Rule not found: "@ + id@,
        }
    }

    /// The error as the message shown to the user.
    pub fn message(&self) -> (out: String)
        ensures
            out@ == self.text(),
    {
        match self {
            RuleError::NotFound(id) => concat2("Rule not found: ", id.as_str()),
        }
    }
}

/// The position of the first rule with the identity `id`.
pub open spec fn is_first_rule(rules: Seq<FolderSyncRuleRecord>, id: Seq<char>, i: int) -> bool {
    &&& 0 <= i < rules.len()
    &&& rules[i].id@ == id
    &&& forall|k: int| 0 <= k < i ==> (#[trigger] rules[k]).id@ != id
}

/// Whether the list holds a rule with the identity `id`.
pub open spec fn has_rule(rules: Seq<FolderSyncRuleRecord>, id: Seq<char>) -> bool {
    exists|i: int| 0 <= i < rules.len() && (#[trigger] rules[i]).id@ == id
}

/// The position of the first rule with the identity `id`.
pub fn find_rule(rules: &Vec<FolderSyncRuleRecord>, id: &str) -> (out: Option<usize>)
    ensures
        match out {
            Some(i) => is_first_rule(rules@, id@, i as int),
            None => !has_rule(rules@, id@),
        },
{
    let mut i: usize = 0;
    while i < rules.len()
        invariant
            0 <= i <= rules.len(),
            forall|k: int| 0 <= k < i ==> (#[trigger] rules@[k]).id@ != id@,
        decreases rules.len() - i,
    {
        if str_eq(rules[i].id.as_str(), id) {
            return Some(i);
        }
        i += 1;
    }
    None
}

/// The first rule of the list with the identity `rule_id`, or the error
/// that names the identity.
pub fn get_folder_sync_rule(rules: &Vec<FolderSyncRuleRecord>, rule_id: &str) -> (out: Result<
    FolderSyncRuleRecord,
    RuleError,
>)
    ensures
        match out {
            Ok(rule) => exists|i: int|
                is_first_rule(rules@, rule_id@, i) && rule.same_as(rules@[i]),
            Err(RuleError::NotFound(id)) => !has_rule(rules@, rule_id@) && id@ == rule_id@,
        },
{
    match find_rule(rules, rule_id) {
        Some(i) => Ok(rules[i].clone()),
        None => Err(RuleError::NotFound(rule_id.to_owned())),
    }
}

/// The outcome of a pass, as a rule records it.
#[derive(Clone, Copy, Debug, PartialEq, Eq, Structural)]
pub enum SyncOutcomeStatus {
    Success,
    Partial,
    Error,
}

impl SyncOutcomeStatus {
    pub open spec fn text(self) -> Seq<char> {
        match self {
            SyncOutcomeStatus::Success => "success"@,
            SyncOutcomeStatus::Partial => "partial"@,
            SyncOutcomeStatus::Error => "error"@,
        }
    }

    /// The outcome's name in a rule.
    pub fn as_str(&self) -> (out: &'static str)
        ensures
            out@ == self.text(),
    {
        match self {
            SyncOutcomeStatus::Success => "success",
            SyncOutcomeStatus::Partial => "partial",
            SyncOutcomeStatus::Error => "error",
        }
    }
}

/// The view of an optional string slice.
pub open spec fn text_of(value: Option<&str>) -> Option<Seq<char>> {
    match value {
        Some(s) => Some(s@),
        None => None,
    }
}

/// Whether `after` is `before` with the outcome of a pass at `now`.
pub open spec fn records_outcome(
    before: FolderSyncRuleRecord,
    after: FolderSyncRuleRecord,
    status: Option<Seq<char>>,
    error: Option<Seq<char>>,
    now: Seq<char>,
) -> bool {
    &&& after.id == before.id
    &&& after.profile_id == before.profile_id
    &&& after.bucket == before.bucket
    &&& after.bucket_prefix == before.bucket_prefix
    &&& after.local_path == before.local_path
    &&& after.direction == before.direction
    &&& after.enabled == before.enabled
    &&& after.conflict_resolution == before.conflict_resolution
    &&& after.poll_interval_ms == before.poll_interval_ms
    &&& after.exclude_patterns@ == before.exclude_patterns@
    &&& after.created_at == before.created_at
    &&& after.last_sync_at matches Some(at) && at@ == now
    &&& crate::jobs::types::opt_view(after.last_sync_status) == status
    &&& crate::jobs::types::opt_view(after.last_sync_error) == error
}

/// Records the outcome of a pass on the first rule with the identity
/// `rule_id`: the time, the status and the error. Returns whether the list
/// holds such a rule; without one the list stays as it is.
pub fn update_folder_sync_rule_result(
    rules: &mut Vec<FolderSyncRuleRecord>,
    rule_id: &str,
    sync_status: Option<&str>,
    sync_error: Option<&str>,
    now: &str,
) -> (out: bool)
    ensures
        out == has_rule(old(rules)@, rule_id@),
        !out ==> final(rules)@ == old(rules)@,
        out ==> exists|i: int|
            {
                &&& is_first_rule(old(rules)@, rule_id@, i)
                &&& final(rules)@.len() == old(rules)@.len()
                &&& forall|k: int|
                    0 <= k < old(rules)@.len() && k != i ==> final(rules)@[k] == old(rules)@[k]
                &&& #[trigger] records_outcome(
                    old(rules)@[i],
                    final(rules)@[i],
                    text_of(sync_status),
                    text_of(sync_error),
                    now@,
                )
            },
{
    match find_rule(rules, rule_id) {
        Some(i) => {
            let mut rule = rules[i].clone();
            rule.last_sync_at = Some(now.to_owned());
            rule.last_sync_status = match sync_status {
                Some(s) => Some(s.to_owned()),
                None => None,
            };
            rule.last_sync_error = match sync_error {
                Some(s) => Some(s.to_owned()),
                None => None,
            };
            rules.set(i, rule);
            assert(records_outcome(
                old(rules)@[i as int],
                rules@[i as int],
                text_of(sync_status),
                text_of(sync_error),
                now@,
            ));
            true
        },
        None => false,
    }
}

/// The value, or zero where there is none or where it is negative.
pub open spec fn size_or_zero(value: Option<i64>) -> i64 {
    match value {
        Some(v) => if v < 0 {
            0
        } else {
            v
        },
        None => 0,
    }
}

/// The baseline record of a path after its upload: the local file as it is
/// now, and the object as the store describes it now. A missing entity tag
/// counts as empty and goes without its quotation marks; a missing or
/// negative size counts as zero.
pub fn uploaded_record(
    relative_path: &str,
    local_mtime: i64,
    local_size: i64,
    remote_etag: Option<&str>,
    remote_last_modified: String,
    remote_size: Option<i64>,
    now: &str,
) -> (out: FolderSyncFileRecord)
    ensures
        out.relative_path@ == relative_path@,
        out.local_mtime == local_mtime,
        out.local_size == if local_size < 0 {
            0
        } else {
            local_size
        },
        out.remote_etag@ == match remote_etag {
            Some(e) => crate::transfer::listing::without_quotes(e@),
            None => Seq::empty(),
        },
        out.remote_last_modified == remote_last_modified,
        out.remote_size == size_or_zero(remote_size),
        out.synced_at@ == now@,
{
    FolderSyncFileRecord {
        relative_path: relative_path.to_owned(),
        local_mtime,
        local_size: if local_size < 0 {
            0
        } else {
            local_size
        },
        remote_etag: match remote_etag {
            Some(e) => crate::transfer::listing::trim_quotes(e),
            None => String::new(),
        },
        remote_last_modified,
        remote_size: match remote_size {
            Some(v) => if v < 0 {
                0
            } else {
                v
            },
            None => 0,
        },
        synced_at: now.to_owned(),
    }
}

/// The baseline record of a path after its download: the local file as it
/// is now, and the object as the diff entry describes it; where the entry
/// holds no size, the bytes that were transferred count, and where it holds
/// no modification time, `now`.
pub fn downloaded_record(
    entry: &crate::sync::diff::FolderSyncDiffEntryRecord,
    local_mtime: i64,
    local_size: i64,
    transferred: i64,
    now: &str,
) -> (out: FolderSyncFileRecord)
    ensures
        out.relative_path == entry.relative_path,
        out.local_mtime == local_mtime,
        out.local_size == if local_size < 0 {
            0
        } else {
            local_size
        },
        out.remote_etag@ == match entry.remote_etag {
            Some(e) => e@,
            None => Seq::empty(),
        },
        out.remote_last_modified@ == match entry.remote_last_modified {
            Some(t) => t@,
            None => now@,
        },
        out.remote_size == match entry.remote_size {
            Some(v) => v,
            None => if transferred < 0 {
                0
            } else {
                transferred
            },
        },
        out.synced_at@ == now@,
{
    FolderSyncFileRecord {
        relative_path: entry.relative_path.clone(),
        local_mtime,
        local_size: if local_size < 0 {
            0
        } else {
            local_size
        },
        remote_etag: match &entry.remote_etag {
            Some(e) => e.clone(),
            None => String::new(),
        },
        remote_last_modified: match &entry.remote_last_modified {
            Some(t) => t.clone(),
            None => now.to_owned(),
        },
        remote_size: match entry.remote_size {
            Some(v) => v,
            None => if transferred < 0 {
                0
            } else {
                transferred
            },
        },
        synced_at: now.to_owned(),
    }
}

/// The files of a scan that a rule works on, in the order of the scan:
/// those with a path that no pattern excludes.
pub open spec fn scanned(files: Seq<LocalFileInfo>, patterns: Seq<String>) -> Seq<LocalFileInfo>
    decreases files.len(),
{
    if files.len() == 0 {
        files
    } else if files.last().relative_path@.len() == 0 || crate::glob::is_excluded(
        files.last().relative_path@,
        patterns,
    ) {
        scanned(files.drop_last(), patterns)
    } else {
        scanned(files.drop_last(), patterns).push(files.last())
    }
}

/// Of the regular files found below a local root, those that a rule works
/// on: a file without a relative path and a file that a pattern excludes are
/// left out.
pub fn retain_scanned(files: &Vec<LocalFileInfo>, exclude_patterns: &Vec<String>) -> (out: Vec<
    LocalFileInfo,
>)
    ensures
        out@ == scanned(files@, exclude_patterns@),
{
    let mut out: Vec<LocalFileInfo> = Vec::new();
    let mut i: usize = 0;
    assert(files@.take(0) =~= Seq::<LocalFileInfo>::empty());
    while i < files.len()
        invariant
            0 <= i <= files.len(),
            out@ == scanned(files@.take(i as int), exclude_patterns@),
        decreases files.len() - i,
    {
        assert(files@.take(i + 1).drop_last() =~= files@.take(i as int));
        let path = files[i].relative_path.as_str();
        if !path.is_empty() && !crate::glob::is_excluded_path(path, exclude_patterns) {
            out.push(files[i].clone());
        }
        i += 1;
    }
    assert(files@.take(i as int) =~= files@);
    out
}

/// A local file as a scan counts it: a negative size counts as zero.
pub fn scanned_file(relative_path: String, size: i64, mtime_ms: i64) -> (out: LocalFileInfo)
    ensures
        out.relative_path == relative_path,
        out.size == if size < 0 {
            0
        } else {
            size
        },
        out.mtime_ms == mtime_ms,
{
    LocalFileInfo {
        relative_path,
        size: if size < 0 {
            0
        } else {
            size
        },
        mtime_ms,
    }
}

} // verus!
