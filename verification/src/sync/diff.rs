//! The diff of one rule: every tracked path, in sorted order, with the
//! action that the comparison of both sides and the baseline gives it.

use crate::clock::parse_iso_millis;
use crate::glob::{is_excluded, is_excluded_path};
use crate::keys::{key_below, normalize_prefix, normalized_prefix, strip_key_prefix};
use crate::sync::resolve::{decide_sync_action, in_sync, owned, remote_instant, sync_decision};
use crate::sync::types::{
    direction_of, policy_of, ConflictPolicy, FolderSyncFileRecord, FolderSyncRuleRecord,
    LocalFileInfo, RemoteFileInfo, RemoteObject, SyncAction, SyncDirection, SyncReason,
};
use crate::text::{ends_with_char, lemma_str_before_order, str_before, str_lt, views};
use vstd::prelude::*;

verus! {

/// One path of a diff with its action and what is known of both sides.
#[derive(Debug, PartialEq, Eq)]
pub struct FolderSyncDiffEntryRecord {
    pub relative_path: String,
    pub action: SyncAction,
    pub reason: SyncReason,
    pub local_size: Option<i64>,
    pub local_mtime: Option<i64>,
    pub remote_size: Option<i64>,
    pub remote_last_modified: Option<String>,
    pub remote_etag: Option<String>,
}

impl Clone for FolderSyncDiffEntryRecord {
    fn clone(&self) -> (out: Self)
        ensures
            out == *self,
    {
        FolderSyncDiffEntryRecord {
            relative_path: self.relative_path.clone(),
            action: self.action,
            reason: self.reason,
            local_size: self.local_size,
            local_mtime: self.local_mtime,
            remote_size: self.remote_size,
            remote_last_modified: self.remote_last_modified.clone(),
            remote_etag: self.remote_etag.clone(),
        }
    }
}

/// The diff of one rule, by action, and the number of tracked paths that
/// need none.
#[derive(Debug, PartialEq, Eq)]
pub struct FolderSyncDiffRecord {
    pub uploads: Vec<FolderSyncDiffEntryRecord>,
    pub downloads: Vec<FolderSyncDiffEntryRecord>,
    pub delete_local: Vec<FolderSyncDiffEntryRecord>,
    pub delete_remote: Vec<FolderSyncDiffEntryRecord>,
    pub conflicts: Vec<FolderSyncDiffEntryRecord>,
    pub unchanged: usize,
}

/// What names the paths of a diff: the scan, the listing below the
/// normalised prefix, the baseline, and the exclusion patterns.
pub struct DiffSources {
    pub local: Seq<LocalFileInfo>,
    pub remote: Seq<RemoteObject>,
    pub known: Seq<FolderSyncFileRecord>,
    pub prefix: Seq<char>,
    pub patterns: Seq<String>,
}

/// What a diff is computed from.
pub struct DiffInputs {
    pub sources: DiffSources,
    pub direction: SyncDirection,
    pub policy: ConflictPolicy,
}

/// The local file at `path`: the last one listed under that path.
pub open spec fn local_at(files: Seq<LocalFileInfo>, path: Seq<char>) -> Option<LocalFileInfo>
    decreases files.len(),
{
    if files.len() == 0 {
        None
    } else if files.last().relative_path@ == path {
        Some(files.last())
    } else {
        local_at(files.drop_last(), path)
    }
}

/// The baseline record of `path`: the last one held for that path.
pub open spec fn known_at(records: Seq<FolderSyncFileRecord>, path: Seq<char>) -> Option<
    FolderSyncFileRecord,
>
    decreases records.len(),
{
    if records.len() == 0 {
        None
    } else if records.last().relative_path@ == path {
        Some(records.last())
    } else {
        known_at(records.drop_last(), path)
    }
}

/// The relative path of a listed key below the normalised prefix. Keys
/// outside the prefix, the prefix itself and directory markers, which end
/// in a slash, have none.
pub open spec fn remote_path(prefix: Seq<char>, key: Seq<char>) -> Option<Seq<char>> {
    match key_below(prefix, key) {
        Some(rest) => if rest.len() == 0 || rest.last() == '/' {
            None
        } else {
            Some(rest)
        },
        None => None,
    }
}

/// The listed object at `path`: the last one whose key has that relative
/// path.
pub open spec fn remote_at(objects: Seq<RemoteObject>, prefix: Seq<char>, path: Seq<char>)
    -> Option<RemoteObject>
    decreases objects.len(),
{
    if objects.len() == 0 {
        None
    } else if remote_path(prefix, objects.last().key@) == Some(path) {
        Some(objects.last())
    } else {
        remote_at(objects.drop_last(), prefix, path)
    }
}

/// A listed object as the remote side of a comparison: a negative size
/// counts as zero.
pub open spec fn remote_info(object: RemoteObject) -> RemoteFileInfo {
    RemoteFileInfo {
        size: if object.size < 0 {
            0
        } else {
            object.size
        },
        etag: object.etag,
        last_modified: object.last_modified,
    }
}

impl DiffSources {
    pub open spec fn local_of(self, path: Seq<char>) -> Option<LocalFileInfo> {
        local_at(self.local, path)
    }

    pub open spec fn remote_of(self, path: Seq<char>) -> Option<RemoteFileInfo> {
        match remote_at(self.remote, self.prefix, path) {
            Some(object) => Some(remote_info(object)),
            None => None,
        }
    }

    pub open spec fn known_of(self, path: Seq<char>) -> Option<FolderSyncFileRecord> {
        known_at(self.known, path)
    }

    /// Whether `path` is named by one of the first `a` local files, the
    /// first `b` listed objects or the first `c` baseline records.
    pub open spec fn named_among(self, a: int, b: int, c: int, path: Seq<char>) -> bool {
        ||| local_at(self.local.take(a), path) is Some
        ||| remote_at(self.remote.take(b), self.prefix, path) is Some
        ||| known_at(self.known.take(c), path) is Some
    }

    /// Whether `path` takes part in the diff: some side or the baseline
    /// names it, and no pattern excludes it.
    pub open spec fn takes_part(self, path: Seq<char>) -> bool {
        &&& !is_excluded(path, self.patterns)
        &&& (self.local_of(path) is Some || self.remote_of(path) is Some || self.known_of(path)
            is Some)
    }

}

impl DiffInputs {
    /// The action for `path`, if it needs one.
    pub open spec fn decision(self, path: Seq<char>) -> Option<(SyncAction, SyncReason)> {
        sync_decision(
            self.sources.local_of(path),
            self.sources.remote_of(path),
            self.sources.known_of(path),
            self.direction,
            self.policy,
            remote_instant(self.sources.remote_of(path)),
        )
    }

    /// Whether `entry` is the diff entry of `path`.
    pub open spec fn entry_of(self, path: Seq<char>, entry: FolderSyncDiffEntryRecord) -> bool {
        &&& entry.relative_path@ == path
        &&& self.decision(path) == Some((entry.action, entry.reason))
        &&& match self.sources.local_of(path) {
            Some(l) => entry.local_size == Some(l.size) && entry.local_mtime == Some(l.mtime_ms),
            None => entry.local_size is None && entry.local_mtime is None,
        }
        &&& match self.sources.remote_of(path) {
            Some(r) => {
                &&& entry.remote_size == Some(r.size)
                &&& entry.remote_last_modified matches Some(t) && t@ == r.last_modified@
                &&& entry.remote_etag matches Some(e) && e@ == r.etag@
            },
            None => {
                &&& entry.remote_size is None
                &&& entry.remote_last_modified is None
                &&& entry.remote_etag is None
            },
        }
    }
}

/// Each path sorts before all that follow it.
pub open spec fn strictly_sorted(paths: Seq<Seq<char>>) -> bool {
    forall|i: int, j: int| 0 <= i < j < paths.len() ==> str_before(paths[i], paths[j])
}

/// `paths` is the sorted list of the unexcluded paths named among the first
/// `a` local files, `b` listed objects and `c` baseline records.
pub open spec fn lists_named(paths: Seq<Seq<char>>, inputs: DiffSources, a: int, b: int, c: int)
    -> bool {
    &&& strictly_sorted(paths)
    &&& forall|p: Seq<char>| #[trigger]
        paths.contains(p) <==> (!is_excluded(p, inputs.patterns) && inputs.named_among(a, b, c, p))
}

/// `paths` is the sorted list of the tracked paths.
pub open spec fn lists_tracked(paths: Seq<Seq<char>>, inputs: DiffSources) -> bool {
    &&& strictly_sorted(paths)
    &&& forall|p: Seq<char>| #[trigger] paths.contains(p) <==> inputs.takes_part(p)
}

/// The paths of `paths`, in order, whose action is `action`.
pub open spec fn selected(paths: Seq<Seq<char>>, inputs: DiffInputs, action: SyncAction) -> Seq<
    Seq<char>,
>
    decreases paths.len(),
{
    if paths.len() == 0 {
        Seq::empty()
    } else {
        let rest = selected(paths.drop_last(), inputs, action);
        match inputs.decision(paths.last()) {
            Some((a, _)) => if a == action {
                rest.push(paths.last())
            } else {
                rest
            },
            None => rest,
        }
    }
}

/// How many paths of `paths` need no action.
pub open spec fn unchanged_count(paths: Seq<Seq<char>>, inputs: DiffInputs) -> nat
    decreases paths.len(),
{
    if paths.len() == 0 {
        0
    } else {
        let rest = unchanged_count(paths.drop_last(), inputs);
        if inputs.decision(paths.last()) is None {
            rest + 1
        } else {
            rest
        }
    }
}

/// `entries` holds the diff entries of `paths`, one for one.
pub open spec fn entries_of(
    entries: Seq<FolderSyncDiffEntryRecord>,
    paths: Seq<Seq<char>>,
    inputs: DiffInputs,
) -> bool {
    &&& entries.len() == paths.len()
    &&& forall|i: int| 0 <= i < entries.len() ==> inputs.entry_of(paths[i], #[trigger] entries[i])
}

/// `diff` is the diff of `paths`: each list holds the entries of the paths
/// with its action, in the order of `paths`, and the rest is counted.
pub open spec fn diff_of(diff: FolderSyncDiffRecord, paths: Seq<Seq<char>>, inputs: DiffInputs)
    -> bool {
    &&& entries_of(diff.uploads@, selected(paths, inputs, SyncAction::Upload), inputs)
    &&& entries_of(diff.downloads@, selected(paths, inputs, SyncAction::Download), inputs)
    &&& entries_of(diff.delete_local@, selected(paths, inputs, SyncAction::DeleteLocal), inputs)
    &&& entries_of(diff.delete_remote@, selected(paths, inputs, SyncAction::DeleteRemote), inputs)
    &&& entries_of(diff.conflicts@, selected(paths, inputs, SyncAction::Conflict), inputs)
    &&& diff.unchanged == unchanged_count(paths, inputs)
}

/// `diff` is the diff of `inputs`, and `paths` is the sorted list of the
/// paths that take part in it.
pub open spec fn is_diff_of(diff: FolderSyncDiffRecord, paths: Seq<Seq<char>>, inputs: DiffInputs)
    -> bool {
    lists_tracked(paths, inputs.sources) && diff_of(diff, paths, inputs)
}

/// What the diff of a rule is computed from: the prefix is normalised, the
/// direction and the policy are read from their texts.
pub open spec fn rule_inputs(
    rule: &FolderSyncRuleRecord,
    local: Seq<LocalFileInfo>,
    remote: Seq<RemoteObject>,
    known: Seq<FolderSyncFileRecord>,
) -> DiffInputs {
    DiffInputs {
        sources: DiffSources {
            local,
            remote,
            known,
            prefix: normalized_prefix(rule.bucket_prefix@),
            patterns: rule.exclude_patterns@,
        },
        direction: direction_of(rule.direction@),
        policy: policy_of(rule.conflict_resolution@),
    }
}

/// Puts `path` into the sorted list unless it is there already.
pub fn insert_sorted(paths: &mut Vec<String>, path: String)
    requires
        strictly_sorted(views(old(paths)@)),
    ensures
        strictly_sorted(views(final(paths)@)),
        forall|p: Seq<char>| #[trigger]
            views(final(paths)@).contains(p) <==> (views(old(paths)@).contains(p) || p == path@),
{
    let ghost before = views(paths@);
    let mut i: usize = 0;
    while i < paths.len() && str_lt(paths[i].as_str(), path.as_str())
        invariant
            0 <= i <= paths.len(),
            forall|k: int| 0 <= k < i ==> str_before(#[trigger] paths@[k]@, path@),
        decreases paths.len() - i,
    {
        i += 1;
    }
    if i < paths.len() && paths[i] == path {
        assert(before[i as int] == path@);
        assert(before.contains(path@));
        return ;
    }
    proof {
        if i < paths.len() {
            lemma_str_before_order(paths@[i as int]@, path@, path@);
        }
        assert forall|k: int| i <= k < paths.len() implies str_before(
            path@,
            #[trigger] paths@[k]@,
        ) by {
            if k > i {
                assert(str_before(before[i as int], before[k]));
                lemma_str_before_order(path@, paths@[i as int]@, paths@[k]@);
            }
        }
    }
    paths.insert(i, path);
    proof {
        let after = views(paths@);
        assert forall|a: int, b: int| 0 <= a < b < after.len() implies str_before(
            after[a],
            after[b],
        ) by {
            if b < i {
                assert(str_before(before[a], before[b]));
            } else if b == i {
                assert(after[a] == before[a]);
            } else if a < i {
                assert(str_before(before[a], before[b - 1]));
            } else if a == i {
                assert(after[b] == before[b - 1]);
            } else {
                assert(str_before(before[a - 1], before[b - 1]));
            }
        }
        assert forall|p: Seq<char>| #[trigger]
            after.contains(p) <==> (before.contains(p) || p == path@) by {
            if after.contains(p) {
                let k = choose|k: int| 0 <= k < after.len() && after[k] == p;
                if k < i {
                    assert(before[k] == p);
                } else if k > i {
                    assert(before[k - 1] == p);
                }
            }
            if before.contains(p) {
                let k = choose|k: int| 0 <= k < before.len() && before[k] == p;
                if k < i {
                    assert(after[k] == p);
                } else {
                    assert(after[k + 1] == p);
                }
            }
            if p == path@ {
                assert(after[i as int] == p);
            }
        }
    }
}

/// The relative path of a listed key, if it names a file below the prefix.
pub fn remote_relative_path(prefix: &str, key: &str) -> (out: Option<String>)
    ensures
        match remote_path(prefix@, key@) {
            Some(path) => out matches Some(s) && s@ == path,
            None => out is None,
        },
{
    match strip_key_prefix(prefix, key) {
        Some(rest) => {
            if rest.as_str().is_empty() || ends_with_char(rest.as_str(), '/') {
                None
            } else {
                Some(rest)
            }
        },
        None => None,
    }
}

/// The relative path of every listed object, in the order of the listing.
pub(crate) fn relative_paths(prefix: &str, objects: &Vec<RemoteObject>) -> (out: Vec<Option<String>>)
    ensures
        out.len() == objects.len(),
        forall|i: int|
            0 <= i < out.len() ==> relative_is(
                #[trigger] out@[i],
                remote_path(prefix@, objects@[i].key@),
            ),
{
    let mut out: Vec<Option<String>> = Vec::new();
    let mut i: usize = 0;
    while i < objects.len()
        invariant
            0 <= i <= objects.len(),
            out.len() == i,
            forall|k: int|
                0 <= k < i ==> relative_is(
                    #[trigger] out@[k],
                    remote_path(prefix@, objects@[k].key@),
                ),
        decreases objects.len() - i,
    {
        out.push(remote_relative_path(prefix, objects[i].key.as_str()));
        i += 1;
    }
    out
}

pub open spec fn relative_is(held: Option<String>, path: Option<Seq<char>>) -> bool {
    match path {
        Some(p) => held matches Some(s) && s@ == p,
        None => held is None,
    }
}

/// The sorted list of the tracked paths: every path that a local file, a
/// listed object below the prefix or a baseline record names and that no
/// pattern excludes, each once.
pub fn tracked_paths(
    prefix: &str,
    patterns: &Vec<String>,
    local_files: &Vec<LocalFileInfo>,
    remote_objects: &Vec<RemoteObject>,
    known_records: &Vec<FolderSyncFileRecord>,
) -> (out: Vec<String>)
    ensures
        lists_tracked(
            views(out@),
            DiffSources {
                local: local_files@,
                remote: remote_objects@,
                known: known_records@,
                prefix: prefix@,
                patterns: patterns@,
            },
        ),
{
    let ghost inputs = DiffSources {
        local: local_files@,
        remote: remote_objects@,
        known: known_records@,
        prefix: prefix@,
        patterns: patterns@,
    };
    let relatives = relative_paths(prefix, remote_objects);
    let mut paths: Vec<String> = Vec::new();
    assert(lists_named(views(paths@), inputs, 0, 0, 0));
    let mut a: usize = 0;
    while a < local_files.len()
        invariant
            0 <= a <= local_files.len(),
            inputs.local == local_files@,
            inputs.patterns == patterns@,
            lists_named(views(paths@), inputs, a as int, 0, 0),
        decreases local_files.len() - a,
    {
        let ghost before = views(paths@);
        let name = &local_files[a].relative_path;
        proof {
            assert(inputs.local.take(a + 1).drop_last() =~= inputs.local.take(a as int));
        }
        if !is_excluded_path(name.as_str(), patterns) {
            insert_sorted(&mut paths, name.clone());
        }
        a += 1;
        proof {
            let after = views(paths@);
            assert forall|p: Seq<char>| #[trigger]
                after.contains(p) <==> (!is_excluded(p, inputs.patterns) && inputs.named_among(
                    a as int,
                    0,
                    0,
                    p,
                )) by {
                assert(before.contains(p) <==> (!is_excluded(p, inputs.patterns)
                    && inputs.named_among(a - 1, 0, 0, p)));
            }
        }
    }
    let mut b: usize = 0;
    while b < remote_objects.len()
        invariant
            0 <= b <= remote_objects.len(),
            a == local_files.len(),
            inputs.remote == remote_objects@,
            inputs.prefix == prefix@,
            inputs.patterns == patterns@,
            relatives.len() == remote_objects.len(),
            forall|i: int|
                0 <= i < relatives.len() ==> relative_is(
                    #[trigger] relatives@[i],
                    remote_path(prefix@, remote_objects@[i].key@),
                ),
            lists_named(views(paths@), inputs, a as int, b as int, 0),
        decreases remote_objects.len() - b,
    {
        let ghost before = views(paths@);
        proof {
            assert(inputs.remote.take(b + 1).drop_last() =~= inputs.remote.take(b as int));
            assert(relative_is(relatives@[b as int], remote_path(prefix@, remote_objects@[b as int].key@)));
        }
        match &relatives[b] {
            Some(name) => {
                if !is_excluded_path(name.as_str(), patterns) {
                    insert_sorted(&mut paths, name.clone());
                }
            },
            None => {},
        }
        b += 1;
        proof {
            let after = views(paths@);
            assert forall|p: Seq<char>| #[trigger]
                after.contains(p) <==> (!is_excluded(p, inputs.patterns) && inputs.named_among(
                    a as int,
                    b as int,
                    0,
                    p,
                )) by {
                assert(before.contains(p) <==> (!is_excluded(p, inputs.patterns)
                    && inputs.named_among(a as int, b - 1, 0, p)));
            }
        }
    }
    let mut c: usize = 0;
    while c < known_records.len()
        invariant
            0 <= c <= known_records.len(),
            a == local_files.len(),
            b == remote_objects.len(),
            inputs.known == known_records@,
            inputs.patterns == patterns@,
            lists_named(views(paths@), inputs, a as int, b as int, c as int),
        decreases known_records.len() - c,
    {
        let ghost before = views(paths@);
        let name = &known_records[c].relative_path;
        proof {
            assert(inputs.known.take(c + 1).drop_last() =~= inputs.known.take(c as int));
        }
        if !is_excluded_path(name.as_str(), patterns) {
            insert_sorted(&mut paths, name.clone());
        }
        c += 1;
        proof {
            let after = views(paths@);
            assert forall|p: Seq<char>| #[trigger]
                after.contains(p) <==> (!is_excluded(p, inputs.patterns) && inputs.named_among(
                    a as int,
                    b as int,
                    c as int,
                    p,
                )) by {
                assert(before.contains(p) <==> (!is_excluded(p, inputs.patterns)
                    && inputs.named_among(a as int, b as int, c - 1, p)));
            }
        }
    }
    proof {
        assert(inputs.local.take(a as int) =~= inputs.local);
        assert(inputs.remote.take(b as int) =~= inputs.remote);
        assert(inputs.known.take(c as int) =~= inputs.known);
        assert forall|p: Seq<char>| #[trigger]
            views(paths@).contains(p) <==> inputs.takes_part(p) by {
            assert(views(paths@).contains(p) <==> (!is_excluded(p, inputs.patterns)
                && inputs.named_among(a as int, b as int, c as int, p)));
        }
    }
    paths
}

/// The index of the last local file at `path`.
fn find_local(files: &Vec<LocalFileInfo>, path: &str) -> (out: Option<usize>)
    ensures
        match local_at(files@, path@) {
            Some(f) => out matches Some(i) && i < files.len() && files@[i as int] == f,
            None => out is None,
        },
{
    let mut k: usize = files.len();
    assert(files@.take(k as int) =~= files@);
    while k > 0
        invariant
            0 <= k <= files.len(),
            local_at(files@, path@) == local_at(files@.take(k as int), path@),
        decreases k,
    {
        if crate::text::str_eq(files[k - 1].relative_path.as_str(), path) {
            return Some(k - 1);
        }
        assert(files@.take(k as int).drop_last() =~= files@.take(k - 1));
        k -= 1;
    }
    None
}

/// The index of the last baseline record of `path`.
fn find_known(records: &Vec<FolderSyncFileRecord>, path: &str) -> (out: Option<usize>)
    ensures
        match known_at(records@, path@) {
            Some(r) => out matches Some(i) && i < records.len() && records@[i as int] == r,
            None => out is None,
        },
{
    let mut k: usize = records.len();
    assert(records@.take(k as int) =~= records@);
    while k > 0
        invariant
            0 <= k <= records.len(),
            known_at(records@, path@) == known_at(records@.take(k as int), path@),
        decreases k,
    {
        if crate::text::str_eq(records[k - 1].relative_path.as_str(), path) {
            return Some(k - 1);
        }
        assert(records@.take(k as int).drop_last() =~= records@.take(k - 1));
        k -= 1;
    }
    None
}

/// The index of the last listed object at `path`.
pub(crate) fn find_remote(
    objects: &Vec<RemoteObject>,
    relatives: &Vec<Option<String>>,
    path: &str,
    Ghost(prefix): Ghost<Seq<char>>,
) -> (out: Option<usize>)
    requires
        relatives.len() == objects.len(),
        forall|i: int|
            0 <= i < relatives.len() ==> relative_is(
                #[trigger] relatives@[i],
                remote_path(prefix, objects@[i].key@),
            ),
    ensures
        match remote_at(objects@, prefix, path@) {
            Some(o) => out matches Some(i) && i < objects.len() && objects@[i as int] == o,
            None => out is None,
        },
{
    let mut k: usize = objects.len();
    assert(objects@.take(k as int) =~= objects@);
    while k > 0
        invariant
            0 <= k <= objects.len(),
            relatives.len() == objects.len(),
            forall|i: int|
                0 <= i < relatives.len() ==> relative_is(
                    #[trigger] relatives@[i],
                    remote_path(prefix, objects@[i].key@),
                ),
            remote_at(objects@, prefix, path@) == remote_at(objects@.take(k as int), prefix, path@),
        decreases k,
    {
        assert(relative_is(relatives@[k - 1], remote_path(prefix, objects@[k - 1].key@)));
        let hit = match &relatives[k - 1] {
            Some(name) => crate::text::str_eq(name.as_str(), path),
            None => false,
        };
        if hit {
            return Some(k - 1);
        }
        assert(objects@.take(k as int).drop_last() =~= objects@.take(k - 1));
        k -= 1;
    }
    None
}

/// The diff of the given sorted paths: each path gets the action that both
/// sides and the baseline give it, and its entry goes to the list of that
/// action; paths without an action are counted.
pub fn diff_for_paths(
    paths: &Vec<String>,
    prefix: &str,
    patterns: &Vec<String>,
    direction: SyncDirection,
    policy: ConflictPolicy,
    local_files: &Vec<LocalFileInfo>,
    remote_objects: &Vec<RemoteObject>,
    known_records: &Vec<FolderSyncFileRecord>,
) -> (out: FolderSyncDiffRecord)
    ensures
        diff_of(
            out,
            views(paths@),
            DiffInputs {
                sources: DiffSources {
                    local: local_files@,
                    remote: remote_objects@,
                    known: known_records@,
                    prefix: prefix@,
                    patterns: patterns@,
                },
                direction,
                policy,
            },
        ),
{
    let ghost inputs = DiffInputs {
        sources: DiffSources {
            local: local_files@,
            remote: remote_objects@,
            known: known_records@,
            prefix: prefix@,
            patterns: patterns@,
        },
        direction,
        policy,
    };
    let ghost all = views(paths@);
    let relatives = relative_paths(prefix, remote_objects);
    let mut diff = FolderSyncDiffRecord {
        uploads: Vec::new(),
        downloads: Vec::new(),
        delete_local: Vec::new(),
        delete_remote: Vec::new(),
        conflicts: Vec::new(),
        unchanged: 0,
    };
    let mut i: usize = 0;
    assert(all.take(0) =~= Seq::<Seq<char>>::empty());
    while i < paths.len()
        invariant
            0 <= i <= paths.len(),
            all == views(paths@),
            inputs == (DiffInputs {
                sources: DiffSources {
                    local: local_files@,
                    remote: remote_objects@,
                    known: known_records@,
                    prefix: prefix@,
                    patterns: patterns@,
                },
                direction,
                policy,
            }),
            relatives.len() == remote_objects.len(),
            forall|k: int|
                0 <= k < relatives.len() ==> relative_is(
                    #[trigger] relatives@[k],
                    remote_path(prefix@, remote_objects@[k].key@),
                ),
            diff.unchanged <= i,
            diff_of(diff, all.take(i as int), inputs),
        decreases paths.len() - i,
    {
        let path = &paths[i];
        let ghost p = path@;
        proof {
            assert(all.take(i + 1).drop_last() =~= all.take(i as int));
            assert(all.take(i + 1).last() == p);
        }
        let local = match find_local(local_files, path.as_str()) {
            Some(k) => Some(&local_files[k]),
            None => None,
        };
        let known = match find_known(known_records, path.as_str()) {
            Some(k) => Some(&known_records[k]),
            None => None,
        };
        let remote = match find_remote(remote_objects, &relatives, path.as_str(), Ghost(prefix@)) {
            Some(k) => {
                let object = &remote_objects[k];
                Some(
                    RemoteFileInfo {
                        size: if object.size < 0 {
                            0
                        } else {
                            object.size
                        },
                        etag: object.etag.clone(),
                        last_modified: object.last_modified.clone(),
                    },
                )
            },
            None => None,
        };
        proof {
            assert(inputs.sources.local_of(p) == owned(local));
            assert(inputs.sources.known_of(p) == owned(known));
            assert(inputs.sources.remote_of(p) == remote);
        }
        let remote_ms = match &remote {
            Some(r) => parse_iso_millis(r.last_modified.as_str()),
            None => 0,
        };
        let decision = decide_sync_action(
            local,
            remote.as_ref(),
            known,
            direction,
            policy,
            remote_ms,
        );
        assert(decision == inputs.decision(p));
        match decision {
            None => {
                diff.unchanged = diff.unchanged + 1;
            },
            Some((action, reason)) => {
                let entry = FolderSyncDiffEntryRecord {
                    relative_path: path.clone(),
                    action,
                    reason,
                    local_size: match local {
                        Some(l) => Some(l.size),
                        None => None,
                    },
                    local_mtime: match local {
                        Some(l) => Some(l.mtime_ms),
                        None => None,
                    },
                    remote_size: match &remote {
                        Some(r) => Some(r.size),
                        None => None,
                    },
                    remote_last_modified: match &remote {
                        Some(r) => Some(r.last_modified.clone()),
                        None => None,
                    },
                    remote_etag: match &remote {
                        Some(r) => Some(r.etag.clone()),
                        None => None,
                    },
                };
                assert(inputs.entry_of(p, entry));
                match action {
                    SyncAction::Upload => diff.uploads.push(entry),
                    SyncAction::Download => diff.downloads.push(entry),
                    SyncAction::DeleteLocal => diff.delete_local.push(entry),
                    SyncAction::DeleteRemote => diff.delete_remote.push(entry),
                    SyncAction::Conflict => diff.conflicts.push(entry),
                }
            },
        }
        i += 1;
    }
    assert(all.take(i as int) =~= all);
    diff
}

/// The diff of one rule, from a scan of its local root, a listing of its
/// bucket prefix and its baseline records. The tracked paths are taken in
/// sorted order; each gets the action that the comparison gives it.
pub fn generate_folder_sync_diff_for_rule(
    rule: &FolderSyncRuleRecord,
    local_files: &Vec<LocalFileInfo>,
    remote_objects: &Vec<RemoteObject>,
    known_records: &Vec<FolderSyncFileRecord>,
) -> (out: FolderSyncDiffRecord)
    ensures
        exists|paths: Seq<Seq<char>>|
            is_diff_of(
                out,
                paths,
                rule_inputs(rule, local_files@, remote_objects@, known_records@),
            ),
{
    let prefix = normalize_prefix(rule.bucket_prefix.as_str());
    let direction = SyncDirection::parse(rule.direction.as_str());
    let policy = ConflictPolicy::parse(rule.conflict_resolution.as_str());
    let paths = tracked_paths(
        prefix.as_str(),
        &rule.exclude_patterns,
        local_files,
        remote_objects,
        known_records,
    );
    let diff = diff_for_paths(
        &paths,
        prefix.as_str(),
        &rule.exclude_patterns,
        direction,
        policy,
        local_files,
        remote_objects,
        known_records,
    );
    proof {
        let inputs = rule_inputs(rule, local_files@, remote_objects@, known_records@);
        assert(inputs == (DiffInputs {
            sources: DiffSources {
                local: local_files@,
                remote: remote_objects@,
                known: known_records@,
                prefix: prefix@,
                patterns: rule.exclude_patterns@,
            },
            direction,
            policy,
        }));
        assert(is_diff_of(diff, views(paths@), inputs));
    }
    diff
}

/// The list of the paths that take part in a diff is determined by what
/// names them: two sorted lists of the same paths are the same list.
pub proof fn lemma_tracked_paths_unique(a: Seq<Seq<char>>, b: Seq<Seq<char>>, sources: DiffSources)
    requires
        lists_tracked(a, sources),
        lists_tracked(b, sources),
    ensures
        a == b,
{
    assert forall|p: Seq<char>| #[trigger] a.contains(p) <==> b.contains(p) by {
        assert(a.contains(p) <==> sources.takes_part(p));
        assert(b.contains(p) <==> sources.takes_part(p));
    }
    lemma_sorted_lists_equal(a, b);
}

/// Two sorted lists that hold the same paths are the same list.
pub proof fn lemma_sorted_lists_equal(a: Seq<Seq<char>>, b: Seq<Seq<char>>)
    requires
        strictly_sorted(a),
        strictly_sorted(b),
        forall|p: Seq<char>| #[trigger] a.contains(p) <==> b.contains(p),
    ensures
        a == b,
    decreases a.len(),
{
    if a.len() == 0 {
        if b.len() > 0 {
            assert(b.contains(b[0]));
            assert(a.contains(b[0]));
        }
        assert(a =~= b);
    } else {
        assert(a.contains(a.last()));
        assert(b.contains(a.last()));
        assert(b.len() > 0);
        assert(b.contains(b.last()));
        assert(a.contains(b.last()));
        let i = choose|i: int| 0 <= i < b.len() && b[i] == a.last();
        let j = choose|j: int| 0 <= j < a.len() && a[j] == b.last();
        lemma_str_before_order(a.last(), b.last(), a.last());
        if i < b.len() - 1 {
            assert(str_before(b[i], b[b.len() - 1]));
        }
        if j < a.len() - 1 {
            assert(str_before(a[j], a[a.len() - 1]));
        }
        assert(a.last() == b.last());
        lemma_str_before_order(a.last(), a.last(), a.last());
        let a0 = a.drop_last();
        let b0 = b.drop_last();
        assert forall|p: Seq<char>| #[trigger] a0.contains(p) <==> b0.contains(p) by {
            if a0.contains(p) {
                let k = choose|k: int| 0 <= k < a0.len() && a0[k] == p;
                assert(a[k] == p);
                assert(str_before(a[k], a[a.len() - 1]));
                assert(a.contains(p));
                assert(b.contains(p));
                let m = choose|m: int| 0 <= m < b.len() && b[m] == p;
                assert(m < b.len() - 1);
                assert(b0[m] == p);
            }
            if b0.contains(p) {
                let k = choose|k: int| 0 <= k < b0.len() && b0[k] == p;
                assert(b[k] == p);
                assert(str_before(b[k], b[b.len() - 1]));
                assert(b.contains(p));
                assert(a.contains(p));
                let m = choose|m: int| 0 <= m < a.len() && a[m] == p;
                assert(m < a.len() - 1);
                assert(a0[m] == p);
            }
        }
        lemma_sorted_lists_equal(a0, b0);
        assert(a =~= a0.push(a.last()));
        assert(b =~= b0.push(b.last()));
    }
}

/// Whether a decision is the action `action`.
pub open spec fn has_action(decision: Option<(SyncAction, SyncReason)>, action: SyncAction)
    -> bool {
    match decision {
        Some((a, _)) => a == action,
        None => false,
    }
}

/// The paths selected for an action are paths of the list, each with that
/// action, and they keep the order of the list.
pub proof fn lemma_selected(paths: Seq<Seq<char>>, inputs: DiffInputs, action: SyncAction)
    ensures
        forall|k: int|
            0 <= k < selected(paths, inputs, action).len() ==> {
                let p = #[trigger] selected(paths, inputs, action)[k];
                paths.contains(p) && has_action(inputs.decision(p), action)
            },
        strictly_sorted(paths) ==> strictly_sorted(selected(paths, inputs, action)),
        selected(paths, inputs, action).len() + unchanged_count(paths, inputs) <= paths.len(),
    decreases paths.len(),
{
    if paths.len() > 0 {
        let head = paths.drop_last();
        lemma_selected(head, inputs, action);
        let all = selected(paths, inputs, action);
        let rest = selected(head, inputs, action);
        assert forall|k: int| 0 <= k < all.len() implies {
            let p = #[trigger] all[k];
            paths.contains(p) && has_action(inputs.decision(p), action)
        } by {
            if k < rest.len() {
                let p = rest[k];
                assert(head.contains(p));
                let m = choose|m: int| 0 <= m < head.len() && head[m] == p;
                assert(paths[m] == p);
            } else {
                assert(paths[paths.len() - 1] == all[k]);
            }
        }
        if strictly_sorted(paths) {
            assert(strictly_sorted(head)) by {
                assert forall|i: int, j: int| 0 <= i < j < head.len() implies str_before(
                    head[i],
                    head[j],
                ) by {
                    assert(str_before(paths[i], paths[j]));
                }
            }
            assert forall|i: int, j: int| 0 <= i < j < all.len() implies str_before(
                all[i],
                all[j],
            ) by {
                if j < rest.len() {
                    assert(str_before(rest[i], rest[j]));
                } else {
                    let p = rest[i];
                    assert(head.contains(p));
                    let m = choose|m: int| 0 <= m < head.len() && head[m] == p;
                    assert(str_before(paths[m], paths[paths.len() - 1]));
                }
            }
        }
    }
}

/// Reconciling what is already in step gives nothing to do: when every
/// path that takes part has both sides as its baseline record holds them,
/// the diff has no entry at all and counts every path as unchanged. With no
/// change in between, a second pass starts from the same state and finds
/// the same.
pub proof fn lemma_reconciled_diff_is_empty(
    diff: FolderSyncDiffRecord,
    paths: Seq<Seq<char>>,
    inputs: DiffInputs,
)
    requires
        is_diff_of(diff, paths, inputs),
        forall|p: Seq<char>|
            inputs.sources.takes_part(p) ==> in_sync(
                #[trigger] inputs.sources.local_of(p),
                inputs.sources.remote_of(p),
                inputs.sources.known_of(p),
            ),
    ensures
        diff.uploads@.len() == 0,
        diff.downloads@.len() == 0,
        diff.delete_local@.len() == 0,
        diff.delete_remote@.len() == 0,
        diff.conflicts@.len() == 0,
        diff.unchanged == paths.len(),
{
    assert forall|k: int| 0 <= k < paths.len() implies inputs.sources.takes_part(
        #[trigger] paths[k],
    ) by {
        assert(paths.contains(paths[k]));
    }
    lemma_nothing_selected(paths, inputs, SyncAction::Upload);
    lemma_nothing_selected(paths, inputs, SyncAction::Download);
    lemma_nothing_selected(paths, inputs, SyncAction::DeleteLocal);
    lemma_nothing_selected(paths, inputs, SyncAction::DeleteRemote);
    lemma_nothing_selected(paths, inputs, SyncAction::Conflict);
}

proof fn lemma_nothing_selected(paths: Seq<Seq<char>>, inputs: DiffInputs, action: SyncAction)
    requires
        forall|k: int| 0 <= k < paths.len() ==> inputs.sources.takes_part(#[trigger] paths[k]),
        forall|p: Seq<char>|
            inputs.sources.takes_part(p) ==> in_sync(
                #[trigger] inputs.sources.local_of(p),
                inputs.sources.remote_of(p),
                inputs.sources.known_of(p),
            ),
    ensures
        selected(paths, inputs, action).len() == 0,
        unchanged_count(paths, inputs) == paths.len(),
    decreases paths.len(),
{
    if paths.len() > 0 {
        let head = paths.drop_last();
        assert forall|k: int| 0 <= k < head.len() implies inputs.sources.takes_part(
            #[trigger] head[k],
        ) by {
            assert(head[k] == paths[k]);
        }
        lemma_nothing_selected(head, inputs, action);
        let p = paths.last();
        assert(p == paths[paths.len() - 1]);
        assert(inputs.sources.takes_part(p));
        assert(in_sync(
            inputs.sources.local_of(p),
            inputs.sources.remote_of(p),
            inputs.sources.known_of(p),
        ));
    }
}

/// The list of a diff that holds the entries of `action`.
pub open spec fn entries_with(diff: FolderSyncDiffRecord, action: SyncAction) -> Seq<
    FolderSyncDiffEntryRecord,
> {
    match action {
        SyncAction::Upload => diff.uploads@,
        SyncAction::Download => diff.downloads@,
        SyncAction::DeleteLocal => diff.delete_local@,
        SyncAction::DeleteRemote => diff.delete_remote@,
        SyncAction::Conflict => diff.conflicts@,
    }
}

/// A path has at most one entry in a diff: two entries of the same path
/// are the same entry of the same list. So no path is both uploaded and
/// deleted, nor transferred twice, and every entry carries the action that
/// the comparison gives its path.
pub proof fn lemma_one_entry_per_path(
    diff: FolderSyncDiffRecord,
    paths: Seq<Seq<char>>,
    inputs: DiffInputs,
    first: SyncAction,
    i: int,
    second: SyncAction,
    j: int,
)
    requires
        is_diff_of(diff, paths, inputs),
        0 <= i < entries_with(diff, first).len(),
        0 <= j < entries_with(diff, second).len(),
        entries_with(diff, first)[i].relative_path@ == entries_with(
            diff,
            second,
        )[j].relative_path@,
    ensures
        first == second,
        i == j,
        entries_with(diff, first)[i].action == first,
        inputs.sources.takes_part(entries_with(diff, first)[i].relative_path@),
{
    lemma_selected(paths, inputs, first);
    lemma_selected(paths, inputs, second);
    let a = selected(paths, inputs, first);
    let b = selected(paths, inputs, second);
    assert(inputs.entry_of(a[i], entries_with(diff, first)[i]));
    assert(inputs.entry_of(b[j], entries_with(diff, second)[j]));
    assert(a[i] == b[j]);
    lemma_str_before_order(a[i], a[i], a[i]);
    if i < j {
        assert(str_before(a[i], a[j]));
    } else if j < i {
        assert(str_before(a[j], a[i]));
    }
}

/// With the direction local-to-remote no download is ever planned for a
/// remote object that is new, and with remote-to-local no upload for a
/// local file that is new: every entry of the other kind belongs to a path
/// that the other side or the baseline knows.
pub proof fn lemma_diff_direction_suppression(
    diff: FolderSyncDiffRecord,
    paths: Seq<Seq<char>>,
    inputs: DiffInputs,
    i: int,
)
    requires
        is_diff_of(diff, paths, inputs),
    ensures
        inputs.direction == SyncDirection::LocalToRemote && 0 <= i < diff.downloads@.len() ==> {
            let p = diff.downloads@[i].relative_path@;
            inputs.sources.local_of(p) is Some || inputs.sources.known_of(p) is Some
        },
        inputs.direction == SyncDirection::RemoteToLocal && 0 <= i < diff.uploads@.len() ==> {
            let p = diff.uploads@[i].relative_path@;
            inputs.sources.remote_of(p) is Some || inputs.sources.known_of(p) is Some
        },
{
    if inputs.direction == SyncDirection::LocalToRemote && 0 <= i < diff.downloads@.len() {
        let p = selected(paths, inputs, SyncAction::Download)[i];
        assert(inputs.entry_of(p, diff.downloads@[i]));
    }
    if inputs.direction == SyncDirection::RemoteToLocal && 0 <= i < diff.uploads@.len() {
        let p = selected(paths, inputs, SyncAction::Upload)[i];
        assert(inputs.entry_of(p, diff.uploads@[i]));
    }
}

} // verus!
