//! The one-off synchronisation of one bucket prefix to another: what is
//! added, what is updated, what a mirror deletes, and the jobs that carry it
//! out.

use crate::jobs::scheduler::{Enqueued, JobRuntime};
use crate::jobs::types::{JobTaskKind, JobType};
use crate::keys::{file_name_of_key, join_prefix_key, key_file_name, normalize_prefix, normalized_prefix};
use crate::sync::diff::{
    find_remote, lists_tracked, relative_paths, remote_at, remote_info, remote_path,
    tracked_paths, DiffSources,
};
use crate::sync::types::{FolderSyncFileRecord, LocalFileInfo, RemoteFileInfo, RemoteObject};
use crate::text::{concat2, concat3, decimal, decimal_digits, str_eq, views};
use vstd::prelude::*;

verus! {

/// What is synchronised: a prefix of a source bucket to a prefix of a
/// destination bucket, in a mode.
#[derive(Debug, PartialEq, Eq)]
pub struct SyncInput {
    pub source_profile_id: String,
    pub source_bucket: String,
    pub source_prefix: String,
    pub dest_profile_id: String,
    pub dest_bucket: String,
    pub dest_prefix: String,
    pub mode: String,
}

/// How far a synchronisation goes.
#[derive(Clone, Copy, Debug, PartialEq, Eq, Structural)]
pub enum SyncMode {
    /// What the destination lacks is added, what differs is updated.
    Additive,
    /// As `Additive`, and what only the destination has is deleted.
    Mirror,
    /// Only what differs is updated.
    Overwrite,
}

/// The mode that a text stands for: everything but the two names is
/// additive.
pub open spec fn mode_of(text: Seq<char>) -> SyncMode {
    if text == "mirror"@ {
        SyncMode::Mirror
    } else if text == "overwrite"@ {
        SyncMode::Overwrite
    } else {
        SyncMode::Additive
    }
}

impl SyncMode {
    /// Reads a mode.
    pub fn parse(text: &str) -> (out: SyncMode)
        ensures
            out == mode_of(text@),
    {
        if str_eq(text, "mirror") {
            SyncMode::Mirror
        } else if str_eq(text, "overwrite") {
            SyncMode::Overwrite
        } else {
            SyncMode::Additive
        }
    }
}

/// One key of a diff between buckets, with what is known of both sides.
#[derive(Debug, PartialEq, Eq)]
pub struct SyncDiffEntryRecord {
    pub key: String,
    pub source_size: Option<i64>,
    pub dest_size: Option<i64>,
    pub source_etag: Option<String>,
    pub dest_etag: Option<String>,
    pub source_last_modified: Option<String>,
    pub dest_last_modified: Option<String>,
    pub selected: bool,
}

/// The diff between two bucket prefixes.
#[derive(Debug, PartialEq, Eq)]
pub struct SyncDiffRecord {
    pub to_add: Vec<SyncDiffEntryRecord>,
    pub to_update: Vec<SyncDiffEntryRecord>,
    pub to_delete: Vec<SyncDiffEntryRecord>,
    pub unchanged: usize,
}

/// What a diff between buckets does with a key.
#[derive(Clone, Copy, Debug, PartialEq, Eq, Structural)]
pub enum BucketAction {
    Add,
    Update,
    Delete,
    Keep,
}

/// The two listings of a diff between buckets, each below its normalised
/// prefix.
pub struct BucketSides {
    pub source: Seq<RemoteObject>,
    pub source_prefix: Seq<char>,
    pub dest: Seq<RemoteObject>,
    pub dest_prefix: Seq<char>,
}

impl BucketSides {
    pub open spec fn source_of(self, key: Seq<char>) -> Option<RemoteFileInfo> {
        match remote_at(self.source, self.source_prefix, key) {
            Some(object) => Some(remote_info(object)),
            None => None,
        }
    }

    pub open spec fn dest_of(self, key: Seq<char>) -> Option<RemoteFileInfo> {
        match remote_at(self.dest, self.dest_prefix, key) {
            Some(object) => Some(remote_info(object)),
            None => None,
        }
    }

    /// What is done with a key: a key of the source that the destination
    /// lacks is added; one that both have is updated where the entity tags or
    /// the sizes differ, and kept otherwise; a key that only the destination
    /// has is deleted.
    pub open spec fn action(self, key: Seq<char>) -> BucketAction {
        match (self.source_of(key), self.dest_of(key)) {
            (Some(s), Some(d)) => if s.etag@ != d.etag@ || s.size != d.size {
                BucketAction::Update
            } else {
                BucketAction::Keep
            },
            (Some(_), None) => BucketAction::Add,
            (None, _) => BucketAction::Delete,
        }
    }

    /// Whether `entry` is the diff entry of `key`.
    pub open spec fn entry_of(self, key: Seq<char>, entry: SyncDiffEntryRecord) -> bool {
        &&& entry.key@ == key
        &&& entry.selected
        &&& match self.source_of(key) {
            Some(s) => {
                &&& entry.source_size == Some(s.size)
                &&& entry.source_etag matches Some(e) && e@ == s.etag@
                &&& entry.source_last_modified matches Some(t) && t@ == s.last_modified@
            },
            None => {
                &&& entry.source_size is None
                &&& entry.source_etag is None
                &&& entry.source_last_modified is None
            },
        }
        &&& match self.dest_of(key) {
            Some(d) => {
                &&& entry.dest_size == Some(d.size)
                &&& entry.dest_etag matches Some(e) && e@ == d.etag@
                &&& entry.dest_last_modified matches Some(t) && t@ == d.last_modified@
            },
            None => {
                &&& entry.dest_size is None
                &&& entry.dest_etag is None
                &&& entry.dest_last_modified is None
            },
        }
    }

    /// The sources of the keys of the source, as a listing without files
    /// and baseline.
    pub open spec fn source_keys(self) -> DiffSources {
        DiffSources {
            local: Seq::empty(),
            remote: self.source,
            known: Seq::empty(),
            prefix: self.source_prefix,
            patterns: Seq::empty(),
        }
    }

    /// The sources of the keys of the destination.
    pub open spec fn dest_keys(self) -> DiffSources {
        DiffSources {
            local: Seq::empty(),
            remote: self.dest,
            known: Seq::empty(),
            prefix: self.dest_prefix,
            patterns: Seq::empty(),
        }
    }
}

/// The keys of `keys`, in order, whose action is `action`.
pub open spec fn picked(keys: Seq<Seq<char>>, sides: BucketSides, action: BucketAction) -> Seq<
    Seq<char>,
>
    decreases keys.len(),
{
    if keys.len() == 0 {
        Seq::empty()
    } else if sides.action(keys.last()) == action {
        picked(keys.drop_last(), sides, action).push(keys.last())
    } else {
        picked(keys.drop_last(), sides, action)
    }
}

/// `entries` holds the diff entries of `keys`, one for one.
pub open spec fn bucket_entries_of(
    entries: Seq<SyncDiffEntryRecord>,
    keys: Seq<Seq<char>>,
    sides: BucketSides,
) -> bool {
    &&& entries.len() == keys.len()
    &&& forall|i: int| 0 <= i < entries.len() ==> sides.entry_of(keys[i], #[trigger] entries[i])
}

/// `diff` is the diff of the two sides in the mode `mode`, where
/// `source_keys` and `dest_keys` are the sorted keys of the two sides.
pub open spec fn is_bucket_diff(
    diff: SyncDiffRecord,
    source_keys: Seq<Seq<char>>,
    dest_keys: Seq<Seq<char>>,
    sides: BucketSides,
    mode: SyncMode,
) -> bool {
    &&& lists_tracked(source_keys, sides.source_keys())
    &&& lists_tracked(dest_keys, sides.dest_keys())
    &&& bucket_entries_of(
        diff.to_add@,
        if mode == SyncMode::Overwrite {
            Seq::empty()
        } else {
            picked(source_keys, sides, BucketAction::Add)
        },
        sides,
    )
    &&& bucket_entries_of(diff.to_update@, picked(source_keys, sides, BucketAction::Update), sides)
    &&& bucket_entries_of(
        diff.to_delete@,
        if mode == SyncMode::Mirror {
            picked(dest_keys, sides, BucketAction::Delete)
        } else {
            Seq::empty()
        },
        sides,
    )
    &&& diff.unchanged == picked(source_keys, sides, BucketAction::Keep).len()
}

/// The objects of a listing by their keys below the prefix, sorted by key
/// and each key once: of several objects of one key the last one counts.
/// Keys outside the prefix, the prefix itself and directory markers are left
/// out; a negative size counts as zero.
pub fn to_sync_object_map(objects: &Vec<RemoteObject>, prefix: &str) -> (out: Vec<RemoteObject>)
    ensures
        out@.len() == keys_of(out@).len(),
        lists_tracked(
            keys_of(out@),
            DiffSources {
                local: Seq::empty(),
                remote: objects@,
                known: Seq::empty(),
                prefix: normalized_prefix(prefix@),
                patterns: Seq::empty(),
            },
        ),
        forall|i: int|
            0 <= i < out@.len() ==> match remote_at(
                objects@,
                normalized_prefix(prefix@),
                (#[trigger] out@[i]).key@,
            ) {
                Some(object) => {
                    &&& out@[i].size == remote_info(object).size
                    &&& out@[i].etag == object.etag
                    &&& out@[i].last_modified == object.last_modified
                },
                None => false,
            },
{
    let normalized = normalize_prefix(prefix);
    let no_files: Vec<LocalFileInfo> = Vec::new();
    let no_records: Vec<FolderSyncFileRecord> = Vec::new();
    let no_patterns: Vec<String> = Vec::new();
    assert(no_files@ =~= Seq::<LocalFileInfo>::empty());
    assert(no_records@ =~= Seq::<FolderSyncFileRecord>::empty());
    assert(no_patterns@ =~= Seq::<String>::empty());
    let keys = tracked_paths(normalized.as_str(), &no_patterns, &no_files, objects, &no_records);
    let relatives = relative_paths(normalized.as_str(), objects);
    let ghost sources = DiffSources {
        local: Seq::empty(),
        remote: objects@,
        known: Seq::empty(),
        prefix: normalized@,
        patterns: Seq::empty(),
    };
    let mut out: Vec<RemoteObject> = Vec::new();
    let mut i: usize = 0;
    while i < keys.len()
        invariant
            0 <= i <= keys.len(),
            normalized@ == normalized_prefix(prefix@),
            lists_tracked(views(keys@), sources),
            sources == (DiffSources {
                local: Seq::empty(),
                remote: objects@,
                known: Seq::empty(),
                prefix: normalized@,
                patterns: Seq::empty(),
            }),
            relatives.len() == objects.len(),
            forall|k: int|
                0 <= k < relatives.len() ==> crate::sync::diff::relative_is(
                    #[trigger] relatives@[k],
                    remote_path(normalized@, objects@[k].key@),
                ),
            out@.len() == i,
            forall|k: int| 0 <= k < i ==> (#[trigger] out@[k]).key@ == keys@[k]@,
            forall|k: int|
                0 <= k < i ==> match remote_at(objects@, normalized@, (#[trigger] out@[k]).key@) {
                    Some(object) => {
                        &&& out@[k].size == remote_info(object).size
                        &&& out@[k].etag == object.etag
                        &&& out@[k].last_modified == object.last_modified
                    },
                    None => false,
                },
        decreases keys.len() - i,
    {
        let key = &keys[i];
        proof {
            assert(views(keys@)[i as int] == key@);
            assert(views(keys@).contains(key@));
            assert(sources.takes_part(key@));
            assert(crate::sync::diff::local_at(Seq::<LocalFileInfo>::empty(), key@) is None);
            assert(crate::sync::diff::known_at(Seq::<FolderSyncFileRecord>::empty(), key@)
                is None);
        }
        match find_remote(objects, &relatives, key.as_str(), Ghost(normalized@)) {
            Some(k) => {
                let object = &objects[k];
                out.push(
                    RemoteObject {
                        key: key.clone(),
                        size: if object.size < 0 {
                            0
                        } else {
                            object.size
                        },
                        etag: object.etag.clone(),
                        last_modified: object.last_modified.clone(),
                    },
                );
            },
            None => {
                assert(false);
            },
        }
        i += 1;
    }
    proof {
        assert(keys_of(out@) =~= views(keys@));
    }
    out
}

/// The keys of a list of objects.
pub open spec fn keys_of(objects: Seq<RemoteObject>) -> Seq<Seq<char>> {
    Seq::new(objects.len(), |i: int| objects[i].key@)
}

/// The entry of `key` with what both sides hold of it.
fn bucket_entry(
    key: &String,
    source: &Vec<RemoteObject>,
    source_relatives: &Vec<Option<String>>,
    dest: &Vec<RemoteObject>,
    dest_relatives: &Vec<Option<String>>,
    Ghost(sides): Ghost<BucketSides>,
) -> (out: (SyncDiffEntryRecord, BucketAction))
    requires
        sides.source == source@,
        sides.dest == dest@,
        source_relatives.len() == source.len(),
        dest_relatives.len() == dest.len(),
        forall|k: int|
            0 <= k < source_relatives.len() ==> crate::sync::diff::relative_is(
                #[trigger] source_relatives@[k],
                remote_path(sides.source_prefix, source@[k].key@),
            ),
        forall|k: int|
            0 <= k < dest_relatives.len() ==> crate::sync::diff::relative_is(
                #[trigger] dest_relatives@[k],
                remote_path(sides.dest_prefix, dest@[k].key@),
            ),
    ensures
        sides.entry_of(key@, out.0),
        out.1 == sides.action(key@),
{
    let s = match find_remote(source, source_relatives, key.as_str(), Ghost(sides.source_prefix)) {
        Some(k) => Some(&source[k]),
        None => None,
    };
    let d = match find_remote(dest, dest_relatives, key.as_str(), Ghost(sides.dest_prefix)) {
        Some(k) => Some(&dest[k]),
        None => None,
    };
    let action = match (s, d) {
        (Some(a), Some(b)) => {
            let a_size = if a.size < 0 {
                0
            } else {
                a.size
            };
            let b_size = if b.size < 0 {
                0
            } else {
                b.size
            };
            if a.etag != b.etag || a_size != b_size {
                BucketAction::Update
            } else {
                BucketAction::Keep
            }
        },
        (Some(_), None) => BucketAction::Add,
        (None, _) => BucketAction::Delete,
    };
    let entry = SyncDiffEntryRecord {
        key: key.clone(),
        source_size: match s {
            Some(a) => Some(
                if a.size < 0 {
                    0
                } else {
                    a.size
                },
            ),
            None => None,
        },
        dest_size: match d {
            Some(b) => Some(
                if b.size < 0 {
                    0
                } else {
                    b.size
                },
            ),
            None => None,
        },
        source_etag: match s {
            Some(a) => Some(a.etag.clone()),
            None => None,
        },
        dest_etag: match d {
            Some(b) => Some(b.etag.clone()),
            None => None,
        },
        source_last_modified: match s {
            Some(a) => Some(a.last_modified.clone()),
            None => None,
        },
        dest_last_modified: match d {
            Some(b) => Some(b.last_modified.clone()),
            None => None,
        },
        selected: true,
    };
    (entry, action)
}

/// The diff between a listing of the source prefix and a listing of the
/// destination prefix. The keys are compared below their prefixes, in sorted
/// order. The mode `mirror` also deletes what only the destination has; the
/// mode `overwrite` only updates.
pub fn generate_sync_diff(
    input: &SyncInput,
    source_objects: &Vec<RemoteObject>,
    dest_objects: &Vec<RemoteObject>,
) -> (out: SyncDiffRecord)
    ensures
        exists|source_keys: Seq<Seq<char>>, dest_keys: Seq<Seq<char>>|
            #[trigger] is_bucket_diff(
                out,
                source_keys,
                dest_keys,
                BucketSides {
                    source: source_objects@,
                    source_prefix: normalized_prefix(input.source_prefix@),
                    dest: dest_objects@,
                    dest_prefix: normalized_prefix(input.dest_prefix@),
                },
                mode_of(input.mode@),
            ),
{
    let source_prefix = normalize_prefix(input.source_prefix.as_str());
    let dest_prefix = normalize_prefix(input.dest_prefix.as_str());
    let mode = SyncMode::parse(input.mode.as_str());
    let ghost sides = BucketSides {
        source: source_objects@,
        source_prefix: source_prefix@,
        dest: dest_objects@,
        dest_prefix: dest_prefix@,
    };
    let no_files: Vec<LocalFileInfo> = Vec::new();
    let no_records: Vec<FolderSyncFileRecord> = Vec::new();
    let no_patterns: Vec<String> = Vec::new();
    assert(no_files@ =~= Seq::<LocalFileInfo>::empty());
    assert(no_records@ =~= Seq::<FolderSyncFileRecord>::empty());
    assert(no_patterns@ =~= Seq::<String>::empty());
    let source_keys = tracked_paths(
        source_prefix.as_str(),
        &no_patterns,
        &no_files,
        source_objects,
        &no_records,
    );
    let dest_keys = tracked_paths(
        dest_prefix.as_str(),
        &no_patterns,
        &no_files,
        dest_objects,
        &no_records,
    );
    let source_relatives = relative_paths(source_prefix.as_str(), source_objects);
    let dest_relatives = relative_paths(dest_prefix.as_str(), dest_objects);
    let ghost sk = views(source_keys@);
    let ghost dk = views(dest_keys@);
    let mut to_add: Vec<SyncDiffEntryRecord> = Vec::new();
    let mut to_update: Vec<SyncDiffEntryRecord> = Vec::new();
    let mut to_delete: Vec<SyncDiffEntryRecord> = Vec::new();
    let mut unchanged: usize = 0;
    let mut i: usize = 0;
    assert(sk.take(0) =~= Seq::<Seq<char>>::empty());
    while i < source_keys.len()
        invariant
            0 <= i <= source_keys.len(),
            sk == views(source_keys@),
            sides == (BucketSides {
                source: source_objects@,
                source_prefix: source_prefix@,
                dest: dest_objects@,
                dest_prefix: dest_prefix@,
            }),
            source_relatives.len() == source_objects.len(),
            dest_relatives.len() == dest_objects.len(),
            forall|k: int|
                0 <= k < source_relatives.len() ==> crate::sync::diff::relative_is(
                    #[trigger] source_relatives@[k],
                    remote_path(sides.source_prefix, source_objects@[k].key@),
                ),
            forall|k: int|
                0 <= k < dest_relatives.len() ==> crate::sync::diff::relative_is(
                    #[trigger] dest_relatives@[k],
                    remote_path(sides.dest_prefix, dest_objects@[k].key@),
                ),
            bucket_entries_of(
                to_add@,
                if mode == SyncMode::Overwrite {
                    Seq::empty()
                } else {
                    picked(sk.take(i as int), sides, BucketAction::Add)
                },
                sides,
            ),
            bucket_entries_of(
                to_update@,
                picked(sk.take(i as int), sides, BucketAction::Update),
                sides,
            ),
            unchanged == picked(sk.take(i as int), sides, BucketAction::Keep).len(),
            unchanged <= i,
        decreases source_keys.len() - i,
    {
        proof {
            assert(sk.take(i + 1).drop_last() =~= sk.take(i as int));
            assert(sk.take(i + 1).last() == source_keys@[i as int]@);
        }
        let (entry, action) = bucket_entry(
            &source_keys[i],
            source_objects,
            &source_relatives,
            dest_objects,
            &dest_relatives,
            Ghost(sides),
        );
        match action {
            BucketAction::Add => {
                match mode {
                    SyncMode::Overwrite => {},
                    _ => {
                        to_add.push(entry);
                    },
                }
            },
            BucketAction::Update => {
                to_update.push(entry);
            },
            BucketAction::Keep => {
                unchanged += 1;
            },
            BucketAction::Delete => {},
        }
        i += 1;
    }
    assert(sk.take(i as int) =~= sk);
    let mut j: usize = 0;
    assert(dk.take(0) =~= Seq::<Seq<char>>::empty());
    while j < dest_keys.len()
        invariant
            0 <= j <= dest_keys.len(),
            dk == views(dest_keys@),
            sides == (BucketSides {
                source: source_objects@,
                source_prefix: source_prefix@,
                dest: dest_objects@,
                dest_prefix: dest_prefix@,
            }),
            source_relatives.len() == source_objects.len(),
            dest_relatives.len() == dest_objects.len(),
            forall|k: int|
                0 <= k < source_relatives.len() ==> crate::sync::diff::relative_is(
                    #[trigger] source_relatives@[k],
                    remote_path(sides.source_prefix, source_objects@[k].key@),
                ),
            forall|k: int|
                0 <= k < dest_relatives.len() ==> crate::sync::diff::relative_is(
                    #[trigger] dest_relatives@[k],
                    remote_path(sides.dest_prefix, dest_objects@[k].key@),
                ),
            bucket_entries_of(
                to_delete@,
                if mode == SyncMode::Mirror {
                    picked(dk.take(j as int), sides, BucketAction::Delete)
                } else {
                    Seq::empty()
                },
                sides,
            ),
        decreases dest_keys.len() - j,
    {
        proof {
            assert(dk.take(j + 1).drop_last() =~= dk.take(j as int));
            assert(dk.take(j + 1).last() == dest_keys@[j as int]@);
        }
        match mode {
            SyncMode::Mirror => {
                let (entry, action) = bucket_entry(
                    &dest_keys[j],
                    source_objects,
                    &source_relatives,
                    dest_objects,
                    &dest_relatives,
                    Ghost(sides),
                );
                match action {
                    BucketAction::Delete => {
                        to_delete.push(entry);
                    },
                    _ => {},
                }
            },
            _ => {},
        }
        j += 1;
    }
    assert(dk.take(j as int) =~= dk);
    let out = SyncDiffRecord { to_add, to_update, to_delete, unchanged };
    assert(is_bucket_diff(out, sk, dk, sides, mode));
    out
}

/// A job that is asked for.
#[derive(Debug, PartialEq, Eq)]
pub struct JobRequest {
    pub job_type: JobType,
    pub file_name: String,
    pub description: String,
    pub bytes_total: i64,
    pub kind: JobTaskKind,
}

/// The description of the copy of one key.
pub open spec fn copy_description(input: SyncInput, key: Seq<char>) -> Seq<char> {
    "Sync "@ + input.source_bucket@ + ":"@ + (normalized_prefix(input.source_prefix@) + key)
        + " -> "@ + input.dest_bucket@ + ":"@ + (normalized_prefix(input.dest_prefix@) + key)
}

/// Whether `request` is the copy job of the entry `entry`.
pub open spec fn is_copy_request(input: SyncInput, entry: SyncDiffEntryRecord, request: JobRequest)
    -> bool {
    &&& request.job_type == JobType::Sync
    &&& request.file_name@ == key_file_name(entry.key@)
    &&& request.description@ == copy_description(input, entry.key@)
    &&& request.bytes_total == crate::sync::pass::or_zero(entry.source_size)
    &&& request.kind matches JobTaskKind::Copy {
        source_profile_id,
        source_bucket,
        source_key,
        dest_profile_id,
        dest_bucket,
        dest_key,
    }
    &&& source_profile_id == input.source_profile_id
    &&& source_bucket == input.source_bucket
    &&& source_key@ == normalized_prefix(input.source_prefix@) + entry.key@
    &&& dest_profile_id == input.dest_profile_id
    &&& dest_bucket == input.dest_bucket
    &&& dest_key@ == normalized_prefix(input.dest_prefix@) + entry.key@
}

/// The selected entries, in order.
pub open spec fn chosen(entries: Seq<SyncDiffEntryRecord>) -> Seq<SyncDiffEntryRecord>
    decreases entries.len(),
{
    if entries.len() == 0 {
        entries
    } else if entries.last().selected {
        chosen(entries.drop_last()).push(entries.last())
    } else {
        chosen(entries.drop_last())
    }
}

/// Whether `requests` are the copy jobs of `entries`, one for one.
pub open spec fn are_copy_requests(
    input: SyncInput,
    entries: Seq<SyncDiffEntryRecord>,
    requests: Seq<JobRequest>,
) -> bool {
    &&& requests.len() == entries.len()
    &&& forall|i: int|
        0 <= i < requests.len() ==> is_copy_request(input, entries[i], #[trigger] requests[i])
}

/// Whether `request` is the job that deletes the keys of `entries` from
/// the destination.
pub open spec fn is_delete_request(
    input: SyncInput,
    entries: Seq<SyncDiffEntryRecord>,
    request: JobRequest,
) -> bool {
    &&& request.job_type == JobType::Delete
    &&& request.file_name@ == decimal_digits(entries.len()) + " object(s)"@
    &&& request.description@ == "Mirror delete on "@ + input.dest_bucket@
    &&& request.bytes_total == crate::sync::pass::count_as_i64(entries.len() as int)
    &&& request.kind matches JobTaskKind::Delete { profile_id, bucket, keys }
    &&& profile_id == input.dest_profile_id
    &&& bucket == input.dest_bucket
    &&& keys@.len() == entries.len()
    &&& forall|i: int|
        0 <= i < keys@.len() ==> (#[trigger] keys@[i])@ == normalized_prefix(input.dest_prefix@)
            + entries[i].key@
}

/// Whether `requests` are the jobs that carry a diff out: a copy for each
/// selected entry to add, then one for each selected entry to update, then
/// one job that deletes all selected entries to delete, if there are any.
pub open spec fn carries_out(input: SyncInput, diff: SyncDiffRecord, requests: Seq<JobRequest>)
    -> bool {
    let copies = chosen(diff.to_add@) + chosen(diff.to_update@);
    let deletes = chosen(diff.to_delete@);
    if deletes.len() == 0 {
        are_copy_requests(input, copies, requests)
    } else {
        &&& requests.len() == copies.len() + 1
        &&& are_copy_requests(input, copies, requests.drop_last())
        &&& is_delete_request(input, deletes, requests.last())
    }
}

fn copy_request(input: &SyncInput, entry: &SyncDiffEntryRecord) -> (out: JobRequest)
    ensures
        is_copy_request(*input, *entry, out),
{
    let source_key = join_prefix_key(input.source_prefix.as_str(), entry.key.as_str());
    let dest_key = join_prefix_key(input.dest_prefix.as_str(), entry.key.as_str());
    let a = concat3("Sync ", input.source_bucket.as_str(), ":");
    let b = concat3(a.as_str(), source_key.as_str(), " -> ");
    let c = concat3(b.as_str(), input.dest_bucket.as_str(), ":");
    let description = concat2(c.as_str(), dest_key.as_str());
    JobRequest {
        job_type: JobType::Sync,
        file_name: file_name_of_key(entry.key.as_str()),
        description,
        bytes_total: match entry.source_size {
            Some(n) => n,
            None => 0,
        },
        kind: JobTaskKind::Copy {
            source_profile_id: input.source_profile_id.clone(),
            source_bucket: input.source_bucket.clone(),
            source_key,
            dest_profile_id: input.dest_profile_id.clone(),
            dest_bucket: input.dest_bucket.clone(),
            dest_key,
        },
    }
}

/// The jobs that carry a diff between buckets out: one copy for each
/// selected entry to add and to update, in that order, and one deletion for
/// all selected entries to delete together.
pub fn plan_sync_jobs(input: &SyncInput, diff: &SyncDiffRecord) -> (out: Vec<JobRequest>)
    ensures
        carries_out(*input, *diff, out@),
{
    let mut out: Vec<JobRequest> = Vec::new();
    let mut i: usize = 0;
    assert(diff.to_add@.take(0) =~= Seq::<SyncDiffEntryRecord>::empty());
    while i < diff.to_add.len()
        invariant
            0 <= i <= diff.to_add.len(),
            are_copy_requests(*input, chosen(diff.to_add@.take(i as int)), out@),
        decreases diff.to_add.len() - i,
    {
        assert(diff.to_add@.take(i + 1).drop_last() =~= diff.to_add@.take(i as int));
        if diff.to_add[i].selected {
            out.push(copy_request(input, &diff.to_add[i]));
        }
        i += 1;
    }
    assert(diff.to_add@.take(i as int) =~= diff.to_add@);
    let ghost added = chosen(diff.to_add@);
    let mut j: usize = 0;
    assert(diff.to_update@.take(0) =~= Seq::<SyncDiffEntryRecord>::empty());
    assert(added + chosen(diff.to_update@.take(0)) =~= added);
    while j < diff.to_update.len()
        invariant
            0 <= j <= diff.to_update.len(),
            added == chosen(diff.to_add@),
            are_copy_requests(*input, added + chosen(diff.to_update@.take(j as int)), out@),
        decreases diff.to_update.len() - j,
    {
        assert(diff.to_update@.take(j + 1).drop_last() =~= diff.to_update@.take(j as int));
        let ghost before = chosen(diff.to_update@.take(j as int));
        if diff.to_update[j].selected {
            out.push(copy_request(input, &diff.to_update[j]));
            assert(added + before.push(diff.to_update@[j as int]) =~= (added + before).push(
                diff.to_update@[j as int],
            ));
        }
        j += 1;
    }
    assert(diff.to_update@.take(j as int) =~= diff.to_update@);
    let ghost copies = out@;
    let mut keys: Vec<String> = Vec::new();
    let mut k: usize = 0;
    assert(diff.to_delete@.take(0) =~= Seq::<SyncDiffEntryRecord>::empty());
    while k < diff.to_delete.len()
        invariant
            0 <= k <= diff.to_delete.len(),
            out@ == copies,
            keys@.len() == chosen(diff.to_delete@.take(k as int)).len(),
            keys@.len() <= k,
            forall|m: int|
                0 <= m < keys@.len() ==> (#[trigger] keys@[m])@ == normalized_prefix(
                    input.dest_prefix@,
                ) + chosen(diff.to_delete@.take(k as int))[m].key@,
        decreases diff.to_delete.len() - k,
    {
        assert(diff.to_delete@.take(k + 1).drop_last() =~= diff.to_delete@.take(k as int));
        if diff.to_delete[k].selected {
            keys.push(join_prefix_key(input.dest_prefix.as_str(), diff.to_delete[k].key.as_str()));
        }
        k += 1;
    }
    assert(diff.to_delete@.take(k as int) =~= diff.to_delete@);
    if keys.len() > 0 {
        let count = keys.len();
        let request = JobRequest {
            job_type: JobType::Delete,
            file_name: concat2(decimal(count as u64).as_str(), " object(s)"),
            description: concat2("Mirror delete on ", input.dest_bucket.as_str()),
            bytes_total: if count as u128 > i64::MAX as u128 {
                i64::MAX
            } else {
                count as i64
            },
            kind: JobTaskKind::Delete {
                profile_id: input.dest_profile_id.clone(),
                bucket: input.dest_bucket.clone(),
                keys,
            },
        };
        out.push(request);
        assert(out@.drop_last() =~= copies);
    }
    out
}

/// What carrying a diff out came to.
#[derive(Debug, PartialEq, Eq)]
pub struct SyncExecution {
    /// The identity of the first job, or a fresh identity where no job was
    /// enqueued.
    pub job_id: String,
    /// The jobs that were enqueued, in order, with the tasks that each let
    /// start.
    pub enqueued: Vec<Enqueued>,
}

/// Whether `job` is the job that was enqueued for `request`.
pub open spec fn is_job_of(request: JobRequest, job: crate::jobs::types::JobInfoView) -> bool {
    job == crate::jobs::model::new_job(
        job.id,
        request.job_type,
        request.file_name@,
        request.description@,
        request.bytes_total,
        job.created_at,
    )
}

/// Whether `enqueued` are the jobs of `requests`, one for one.
pub open spec fn enqueued_for(requests: Seq<JobRequest>, enqueued: Seq<Enqueued>) -> bool {
    &&& enqueued.len() == requests.len()
    &&& forall|i: int|
        0 <= i < enqueued.len() ==> is_job_of(requests[i], (#[trigger] enqueued[i]).job@)
}

/// Carries a diff between buckets out: enqueues the jobs that
/// `plan_sync_jobs` gives, all of them and in their order, each under an
/// identity of its own. The scheduler keeps its invariant and its limit.
pub fn execute_sync_diff(runtime: &mut JobRuntime, input: &SyncInput, diff: &SyncDiffRecord) -> (out:
    SyncExecution)
    requires
        old(runtime)@.wf(),
    ensures
        final(runtime)@.wf(),
        old(runtime)@.within_limit() ==> final(runtime)@.within_limit(),
        final(runtime)@.concurrency == old(runtime)@.concurrency,
        out.enqueued@.len() > 0 ==> out.job_id == out.enqueued@[0].job.id,
        exists|requests: Seq<JobRequest>|
            #[trigger] carries_out(*input, *diff, requests) && enqueued_for(
                requests,
                out.enqueued@,
            ),
{
    let requests = plan_sync_jobs(input, diff);
    let ghost planned = requests@;
    let mut requests = requests;
    let mut enqueued: Vec<Enqueued> = Vec::new();
    while requests.len() > 0
        invariant
            runtime@.wf(),
            old(runtime)@.within_limit() ==> runtime@.within_limit(),
            runtime@.concurrency == old(runtime)@.concurrency,
            enqueued@.len() + requests@.len() == planned.len(),
            requests@ == planned.skip(enqueued@.len() as int),
            forall|i: int|
                0 <= i < enqueued@.len() ==> is_job_of(planned[i], (#[trigger] enqueued@[i]).job@),
        decreases requests.len(),
    {
        let ghost done = enqueued@;
        let request = requests.remove(0);
        proof {
            assert(request == planned[done.len() as int]);
            assert(requests@ =~= planned.skip(done.len() as int + 1));
        }
        let e = runtime.enqueue_job(
            request.job_type,
            request.file_name,
            request.description,
            request.bytes_total,
            request.kind,
        );
        enqueued.push(e);
        proof {
            assert forall|i: int| 0 <= i < enqueued@.len() implies is_job_of(
                planned[i],
                (#[trigger] enqueued@[i]).job@,
            ) by {
                if i < done.len() {
                    assert(enqueued@[i] == done[i]);
                }
            }
        }
    }
    let job_id = if enqueued.len() > 0 {
        enqueued[0].job.id.clone()
    } else {
        crate::ids::new_id()
    };
    SyncExecution { job_id, enqueued }
}

} // verus!
