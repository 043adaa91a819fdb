//! The jobs that a request for transfers comes to: which objects are
//! taken, under which names, and what each job is told.

use crate::jobs::scheduler::contains_id;
use crate::jobs::types::{JobTaskKind, JobType};
use crate::keys::{
    file_name_of_key, key_below, key_file_name, last_part_start, normalize_prefix,
    normalized_prefix, strip_key_prefix, trimmed_len,
};
use crate::sync::bucket::JobRequest;
use crate::sync::pass::{sat_add, saturating_sum};
use crate::text::{
    concat2, concat3, decimal, decimal_digits, ends_with, text_of, to_chars, views,
};
use vstd::prelude::*;

verus! {

/// The texts of a list without those that occur earlier in it.
pub open spec fn first_occurrences(keys: Seq<Seq<char>>) -> Seq<Seq<char>>
    decreases keys.len(),
{
    if keys.len() == 0 {
        Seq::empty()
    } else if keys.drop_last().contains(keys.last()) {
        first_occurrences(keys.drop_last())
    } else {
        first_occurrences(keys.drop_last()).push(keys.last())
    }
}

/// Leaving out what occurs earlier leaves out no text altogether, and
/// adds none.
pub proof fn lemma_first_occurrences_hold_the_same(keys: Seq<Seq<char>>, key: Seq<char>)
    ensures
        first_occurrences(keys).contains(key) == keys.contains(key),
    decreases keys.len(),
{
    if keys.len() > 0 {
        let head = keys.drop_last();
        lemma_first_occurrences_hold_the_same(head, key);
        lemma_first_occurrences_hold_the_same(head, keys.last());
        let out = first_occurrences(keys);
        if keys.contains(key) {
            let i = choose|i: int| 0 <= i < keys.len() && keys[i] == key;
            if i < head.len() {
                assert(head[i] == key);
                assert(head.contains(key));
                let j = choose|j: int|
                    0 <= j < first_occurrences(head).len() && first_occurrences(head)[j] == key;
                assert(out[j] == key);
            } else if head.contains(key) {
                let j = choose|j: int|
                    0 <= j < first_occurrences(head).len() && first_occurrences(head)[j] == key;
                assert(out[j] == key);
            } else {
                assert(out.last() == key);
            }
        }
        if out.contains(key) {
            let j = choose|j: int| 0 <= j < out.len() && out[j] == key;
            if j < first_occurrences(head).len() {
                assert(first_occurrences(head)[j] == key);
                assert(first_occurrences(head).contains(key));
                let i = choose|i: int| 0 <= i < head.len() && head[i] == key;
                assert(keys[i] == key);
            } else {
                assert(keys[keys.len() - 1] == key);
            }
        }
    }
}

/// No text occurs twice among the first occurrences.
pub proof fn lemma_first_occurrences_differ(keys: Seq<Seq<char>>)
    ensures
        first_occurrences(keys).no_duplicates(),
    decreases keys.len(),
{
    if keys.len() > 0 {
        let head = keys.drop_last();
        lemma_first_occurrences_differ(head);
        lemma_first_occurrences_hold_the_same(head, keys.last());
    }
}

/// The keys in their order, each once: a key that occurs again is left
/// out where it occurs again.
pub fn unique_keys(keys: &Vec<String>) -> (out: Vec<String>)
    ensures
        views(out@) == first_occurrences(views(keys@)),
{
    let mut out: Vec<String> = Vec::new();
    let mut i: usize = 0;
    assert(views(keys@).take(0) =~= Seq::<Seq<char>>::empty());
    assert(views(out@) =~= Seq::<Seq<char>>::empty());
    while i < keys.len()
        invariant
            0 <= i <= keys.len(),
            views(out@) == first_occurrences(views(keys@).take(i as int)),
        decreases keys.len() - i,
    {
        let ghost before = views(out@);
        proof {
            assert(views(keys@).take(i + 1).drop_last() =~= views(keys@).take(i as int));
            assert(views(keys@).take(i + 1).last() == keys@[i as int]@);
            lemma_first_occurrences_hold_the_same(views(keys@).take(i as int), keys@[i as int]@);
        }
        if !contains_id(&out, keys[i].as_str()) {
            out.push(keys[i].clone());
            assert(views(out@) =~= before.push(keys@[i as int]@));
        }
        i += 1;
    }
    assert(views(keys@).take(i as int) =~= views(keys@));
    out
}

/// An object that was chosen, with its size.
#[derive(Debug, PartialEq, Eq)]
pub struct SizedKey {
    pub key: String,
    pub size: i64,
}

/// The keys of the objects.
pub open spec fn keys_of_sized(items: Seq<SizedKey>) -> Seq<Seq<char>> {
    Seq::new(items.len(), |i: int| items[i].key@)
}

/// A size as it counts: not below zero.
pub open spec fn counted_size(size: i64) -> i64 {
    if size < 0 {
        0
    } else {
        size
    }
}

/// The sizes of the objects together, each object counted where its key
/// occurs first, and the sum kept within the range of `i64`.
pub open spec fn selected_bytes(items: Seq<SizedKey>) -> i64
    decreases items.len(),
{
    if items.len() == 0 {
        0
    } else if keys_of_sized(items.drop_last()).contains(items.last().key@) {
        selected_bytes(items.drop_last())
    } else {
        sat_add(selected_bytes(items.drop_last()), counted_size(items.last().size))
    }
}

/// What goes into an archive: the keys, each once, and their sizes
/// together.
#[derive(Debug, PartialEq, Eq)]
pub struct ArchiveSelection {
    pub keys: Vec<String>,
    pub bytes_total: i64,
}

/// The objects of an archive: each key once, where it occurs first, and the
/// sizes of those together.
pub fn select_for_archive(items: &Vec<SizedKey>) -> (out: ArchiveSelection)
    ensures
        views(out.keys@) == first_occurrences(keys_of_sized(items@)),
        out.bytes_total == selected_bytes(items@),
{
    let mut keys: Vec<String> = Vec::new();
    let mut bytes_total: i64 = 0;
    let mut i: usize = 0;
    assert(keys_of_sized(items@.take(0)) =~= Seq::<Seq<char>>::empty());
    assert(views(keys@) =~= Seq::<Seq<char>>::empty());
    while i < items.len()
        invariant
            0 <= i <= items.len(),
            views(keys@) == first_occurrences(keys_of_sized(items@.take(i as int))),
            bytes_total == selected_bytes(items@.take(i as int)),
        decreases items.len() - i,
    {
        let ghost before = views(keys@);
        let ghost seen = keys_of_sized(items@.take(i as int));
        proof {
            assert(items@.take(i + 1).drop_last() =~= items@.take(i as int));
            assert(keys_of_sized(items@.take(i + 1)).drop_last() =~= seen);
            assert(keys_of_sized(items@.take(i + 1)).last() == items@[i as int].key@);
            lemma_first_occurrences_hold_the_same(seen, items@[i as int].key@);
        }
        if !contains_id(&keys, items[i].key.as_str()) {
            keys.push(items[i].key.clone());
            let size: i64 = if items[i].size < 0 {
                0
            } else {
                items[i].size
            };
            bytes_total = saturating_sum(bytes_total, size);
            assert(views(keys@) =~= before.push(items@[i as int].key@));
        }
        i += 1;
    }
    assert(items@.take(i as int) =~= items@);
    ArchiveSelection { keys, bytes_total }
}

/// Whether a text is empty or ends in a slash.
pub open spec fn is_slashed(text: Seq<char>) -> bool {
    text.len() == 0 || text.last() == '/'
}

/// A key up to its last slash, the slash included; nothing where the key
/// has no slash.
pub open spec fn parent_of(key: Seq<char>) -> Seq<char> {
    key.take(last_part_start(key))
}

/// How many characters two texts share at their start.
pub open spec fn shared_len(a: Seq<char>, b: Seq<char>) -> int
    decreases a.len(),
{
    if a.len() == 0 || b.len() == 0 || a[0] != b[0] {
        0
    } else {
        1 + shared_len(a.drop_first(), b.drop_first())
    }
}

/// The longest start of two texts that is empty or ends in a slash.
pub open spec fn shared_parent(a: Seq<char>, b: Seq<char>) -> Seq<char> {
    parent_of(a.take(shared_len(a, b)))
}

/// The common parent of the keys: what the parents of the keys share, one
/// key after the other.
pub open spec fn common_parent_of(keys: Seq<Seq<char>>) -> Seq<char>
    decreases keys.len(),
{
    if keys.len() == 0 {
        Seq::empty()
    } else if keys.len() == 1 {
        parent_of(keys[0])
    } else {
        shared_parent(common_parent_of(keys.drop_last()), parent_of(keys.last()))
    }
}

/// The last part of a text begins within the text.
pub proof fn lemma_last_part_start_within(s: Seq<char>)
    ensures
        0 <= last_part_start(s) <= s.len(),
    decreases s.len(),
{
    if s.len() > 0 && s.last() != '/' {
        lemma_last_part_start_within(s.drop_last());
    }
}

/// The parent of a key is a start of the key that is empty or ends in a
/// slash, and no such start of the key is longer.
pub proof fn lemma_parent_is_longest(s: Seq<char>, r: Seq<char>)
    ensures
        parent_of(s).is_prefix_of(s),
        is_slashed(parent_of(s)),
        r.is_prefix_of(s) && is_slashed(r) ==> r.is_prefix_of(parent_of(s)),
    decreases s.len(),
{
    lemma_last_part_start_within(s);
    if s.len() > 0 {
        if s.last() == '/' {
            assert(s.take(s.len() as int) =~= s);
        } else {
            let head = s.drop_last();
            lemma_parent_is_longest(head, r);
            lemma_last_part_start_within(head);
            assert(parent_of(s) =~= parent_of(head));
            if r.is_prefix_of(s) && is_slashed(r) {
                if r.len() == s.len() {
                    assert(r.last() == s.last());
                }
                assert(r.is_prefix_of(head));
            }
        }
    }
}

/// Two texts agree on as many characters as they share at their start,
/// and on no longer start.
pub proof fn lemma_shared_len(a: Seq<char>, b: Seq<char>, r: Seq<char>)
    ensures
        0 <= shared_len(a, b) <= a.len(),
        shared_len(a, b) <= b.len(),
        a.take(shared_len(a, b)) == b.take(shared_len(a, b)),
        r.is_prefix_of(a) && r.is_prefix_of(b) ==> r.len() <= shared_len(a, b),
    decreases a.len(),
{
    if a.len() == 0 || b.len() == 0 || a[0] != b[0] {
        assert(a.take(0) =~= b.take(0));
        if r.is_prefix_of(a) && r.is_prefix_of(b) && r.len() > 0 {
            assert(r[0] == a[0]);
            assert(r[0] == b[0]);
        }
    } else {
        let n = shared_len(a.drop_first(), b.drop_first());
        let rest = if r.len() > 0 {
            r.drop_first()
        } else {
            r
        };
        lemma_shared_len(a.drop_first(), b.drop_first(), rest);
        assert(a.take(n + 1) =~= seq![a[0]] + a.drop_first().take(n));
        assert(b.take(n + 1) =~= seq![b[0]] + b.drop_first().take(n));
        if r.is_prefix_of(a) && r.is_prefix_of(b) && r.len() > 0 {
            assert(rest.is_prefix_of(a.drop_first())) by {
                assert(rest =~= a.drop_first().subrange(0, rest.len() as int));
            }
            assert(rest.is_prefix_of(b.drop_first())) by {
                assert(rest =~= b.drop_first().subrange(0, rest.len() as int));
            }
        }
    }
}

/// What two texts share as their parent is a start of both that is empty
/// or ends in a slash, and every such start of both is a start of it.
pub proof fn lemma_shared_parent(a: Seq<char>, b: Seq<char>, r: Seq<char>)
    ensures
        shared_parent(a, b).is_prefix_of(a),
        shared_parent(a, b).is_prefix_of(b),
        is_slashed(shared_parent(a, b)),
        r.is_prefix_of(a) && r.is_prefix_of(b) && is_slashed(r) ==> r.is_prefix_of(
            shared_parent(a, b),
        ),
{
    let n = shared_len(a, b);
    lemma_shared_len(a, b, r);
    let both = a.take(n);
    lemma_parent_is_longest(both, r);
    let p = shared_parent(a, b);
    assert(p.is_prefix_of(a)) by {
        assert(p =~= a.subrange(0, p.len() as int));
    }
    assert(p.is_prefix_of(b)) by {
        assert(both == b.take(n));
        assert(p =~= b.subrange(0, p.len() as int));
    }
    if r.is_prefix_of(a) && r.is_prefix_of(b) && is_slashed(r) {
        assert(r.is_prefix_of(both)) by {
            assert(r =~= both.subrange(0, r.len() as int));
        }
    }
}

/// The common parent of the keys is a start of every key, and is empty or
/// ends in a slash.
pub proof fn lemma_common_parent_is_shared(keys: Seq<Seq<char>>, i: int)
    requires
        0 <= i < keys.len(),
    ensures
        is_slashed(common_parent_of(keys)),
        common_parent_of(keys).is_prefix_of(keys[i]),
    decreases keys.len(),
{
    let c = common_parent_of(keys);
    if keys.len() == 1 {
        lemma_parent_is_longest(keys[0], c);
    } else {
        let head = keys.drop_last();
        let before = common_parent_of(head);
        let parent = parent_of(keys.last());
        lemma_shared_parent(before, parent, c);
        lemma_parent_is_longest(keys.last(), c);
        if i < head.len() {
            lemma_common_parent_is_shared(head, i);
            assert(head[i] == keys[i]);
            assert(c.is_prefix_of(keys[i])) by {
                assert(c =~= keys[i].subrange(0, c.len() as int));
            }
        } else {
            assert(c.is_prefix_of(keys[i])) by {
                assert(c =~= keys[i].subrange(0, c.len() as int));
            }
        }
    }
}

/// No start of every key that is empty or ends in a slash is longer than
/// the common parent of the keys: each is a start of it.
pub proof fn lemma_common_parent_is_longest(keys: Seq<Seq<char>>, r: Seq<char>)
    requires
        keys.len() > 0,
        is_slashed(r),
        forall|i: int| 0 <= i < keys.len() ==> r.is_prefix_of(#[trigger] keys[i]),
    ensures
        r.is_prefix_of(common_parent_of(keys)),
    decreases keys.len(),
{
    if keys.len() == 1 {
        lemma_parent_is_longest(keys[0], r);
    } else {
        let head = keys.drop_last();
        assert forall|i: int| 0 <= i < head.len() implies r.is_prefix_of(#[trigger] head[i]) by {
            assert(head[i] == keys[i]);
        }
        lemma_common_parent_is_longest(head, r);
        lemma_parent_is_longest(keys.last(), r);
        lemma_shared_parent(common_parent_of(head), parent_of(keys.last()), r);
    }
}

fn parent_chars(key: &str) -> (out: Vec<char>)
    ensures
        out@ == parent_of(key@),
{
    let mut v = to_chars(key);
    let mut start: usize = v.len();
    assert(v@.take(start as int) =~= v@);
    while start > 0 && v[start - 1] != '/'
        invariant
            0 <= start <= v.len(),
            v@ == key@,
            last_part_start(v@) == last_part_start(v@.take(start as int)),
        decreases start,
    {
        assert(v@.take(start as int).drop_last() =~= v@.take(start - 1));
        start -= 1;
    }
    proof {
        if start > 0 {
            assert(v@.take(start as int).last() == v@[start - 1]);
        }
    }
    v.truncate(start);
    assert(v@ =~= key@.take(start as int));
    v
}

fn shared_chars(a: &Vec<char>, b: &Vec<char>) -> (out: Vec<char>)
    ensures
        out@ == shared_parent(a@, b@),
{
    let mut n: usize = 0;
    assert(a@.skip(0) =~= a@);
    assert(b@.skip(0) =~= b@);
    while n < a.len() && n < b.len() && a[n] == b[n]
        invariant
            0 <= n <= a.len(),
            n <= b.len(),
            shared_len(a@, b@) == n + shared_len(a@.skip(n as int), b@.skip(n as int)),
        decreases a.len() - n,
    {
        assert(a@.skip(n as int).drop_first() =~= a@.skip(n + 1));
        assert(b@.skip(n as int).drop_first() =~= b@.skip(n + 1));
        n += 1;
    }
    let ghost both = a@.take(n as int);
    let mut start: usize = n;
    assert(both.take(start as int) =~= both);
    while start > 0 && a[start - 1] != '/'
        invariant
            0 <= start <= n <= a.len(),
            both == a@.take(n as int),
            last_part_start(both) == last_part_start(both.take(start as int)),
        decreases start,
    {
        assert(both.take(start as int).drop_last() =~= both.take(start - 1));
        start -= 1;
    }
    proof {
        if start > 0 {
            assert(both.take(start as int).last() == a@[start - 1]);
        }
    }
    let mut out: Vec<char> = Vec::new();
    let mut i: usize = 0;
    while i < start
        invariant
            0 <= i <= start <= a.len(),
            out@ == a@.take(i as int),
        decreases start - i,
    {
        out.push(a[i]);
        assert(out@ =~= a@.take(i + 1));
        i += 1;
    }
    assert(out@ =~= both.take(start as int));
    out
}

/// The common parent of the keys: the longest text that every key begins
/// with and that is empty or ends in a slash. Without keys it is empty.
pub fn common_parent(keys: &Vec<String>) -> (out: String)
    ensures
        out@ == common_parent_of(views(keys@)),
{
    if keys.len() == 0 {
        return String::new();
    }
    let mut common = parent_chars(keys[0].as_str());
    let mut i: usize = 1;
    assert(views(keys@).take(1)[0] == keys@[0]@);
    while i < keys.len()
        invariant
            1 <= i <= keys.len(),
            common@ == common_parent_of(views(keys@).take(i as int)),
        decreases keys.len() - i,
    {
        proof {
            assert(views(keys@).take(i + 1).drop_last() =~= views(keys@).take(i as int));
            assert(views(keys@).take(i + 1).last() == keys@[i as int]@);
        }
        let parent = parent_chars(keys[i].as_str());
        common = shared_chars(&common, &parent);
        i += 1;
    }
    assert(views(keys@).take(i as int) =~= views(keys@));
    crate::text::from_chars(&common, 0, common.len())
}

/// The prefix that the names in an archive leave out: the prefix that was
/// asked for, made to end in a slash, or the common parent of the keys
/// where none was asked for.
pub open spec fn archive_prefix_of(prefix: Seq<char>, keys: Seq<Seq<char>>) -> Seq<char> {
    if prefix.len() > 0 {
        normalized_prefix(prefix)
    } else {
        common_parent_of(keys)
    }
}

/// The prefix that the names in an archive of `keys` leave out.
pub fn archive_prefix(prefix: &str, keys: &Vec<String>) -> (out: String)
    ensures
        out@ == archive_prefix_of(prefix@, views(keys@)),
{
    if !prefix.is_empty() {
        normalize_prefix(prefix)
    } else {
        common_parent(keys)
    }
}

/// The last part of a text between slashes that is not empty, or
/// `fallback` where the text holds nothing but slashes.
pub open spec fn last_part_or(text: Seq<char>, fallback: Seq<char>) -> Seq<char> {
    if trimmed_len(text) == 0 {
        fallback
    } else {
        key_file_name(text)
    }
}

fn holds_a_part(text: &str) -> (out: bool)
    ensures
        out == (trimmed_len(text@) != 0),
{
    let v = to_chars(text);
    let mut end: usize = v.len();
    assert(v@.take(end as int) =~= v@);
    while end > 0 && v[end - 1] == '/'
        invariant
            0 <= end <= v.len(),
            trimmed_len(v@) == trimmed_len(v@.take(end as int)),
        decreases end,
    {
        assert(v@.take(end as int).drop_last() =~= v@.take(end - 1));
        end -= 1;
    }
    proof {
        if end > 0 {
            assert(v@.take(end as int).last() == v@[end - 1]);
        }
    }
    end > 0
}

/// The last part of a text between slashes, or `fallback` where the text
/// has no part.
pub fn last_part_or_else(text: &str, fallback: &str) -> (out: String)
    ensures
        out@ == last_part_or(text@, fallback@),
{
    if holds_a_part(text) {
        file_name_of_key(text)
    } else {
        fallback.to_owned()
    }
}

/// The ending of an archive's name.
pub open spec fn archive_ending() -> Seq<char> {
    ".tar.gz"@
}

/// The name that an archive is offered under: the name that was asked for,
/// or else the last part of the prefix, or `archive` where the prefix has
/// no part, or else the bucket with `-export`; with `.tar.gz` behind it
/// unless it ends so already.
pub open spec fn archive_name_of(name: Option<Seq<char>>, prefix: Seq<char>, bucket: Seq<char>)
    -> Seq<char> {
    let wanted = match name {
        Some(n) => n,
        None => if prefix.len() > 0 {
            last_part_or(prefix, "archive"@) + archive_ending()
        } else {
            bucket + "-export.tar.gz"@
        },
    };
    if archive_ending().is_suffix_of(wanted) {
        wanted
    } else {
        wanted + archive_ending()
    }
}

/// The name that an archive is offered under.
pub fn archive_file_name(archive_name: Option<&str>, prefix: &str, bucket: &str) -> (out: String)
    ensures
        out@ == archive_name_of(text_of(archive_name), prefix@, bucket@),
{
    let wanted: String = match archive_name {
        Some(n) => n.to_owned(),
        None => {
            if !prefix.is_empty() {
                let part = last_part_or_else(prefix, "archive");
                concat2(part.as_str(), ".tar.gz")
            } else {
                concat2(bucket, "-export.tar.gz")
            }
        },
    };
    if ends_with(wanted.as_str(), ".tar.gz") {
        wanted
    } else {
        concat2(wanted.as_str(), ".tar.gz")
    }
}

/// What a job that archives objects is called.
pub open spec fn archive_description(count: nat, bucket: Seq<char>) -> Seq<char> {
    "Archive "@ + decimal_digits(count) + " object(s) from "@ + bucket
}

/// The job that archives the selection into `destination_path`, shown
/// under `file_name`.
pub fn archive_request(
    profile_id: &str,
    bucket: &str,
    selection: ArchiveSelection,
    common_prefix: String,
    destination_path: String,
    file_name: String,
) -> (out: JobRequest)
    ensures
        out.job_type == JobType::Archive,
        out.file_name == file_name,
        out.description@ == archive_description(selection.keys@.len(), bucket@),
        out.bytes_total == selection.bytes_total,
        out.kind matches JobTaskKind::Archive {
            profile_id: p,
            bucket: b,
            keys,
            common_prefix: c,
            destination_path: d,
        } && p@ == profile_id@ && b@ == bucket@ && keys == selection.keys && c == common_prefix
            && d == destination_path,
{
    let count = decimal(selection.keys.len() as u64);
    let head = concat3("Archive ", count.as_str(), " object(s) from ");
    let description = concat2(head.as_str(), bucket);
    JobRequest {
        job_type: JobType::Archive,
        file_name,
        description,
        bytes_total: selection.bytes_total,
        kind: JobTaskKind::Archive {
            profile_id: profile_id.to_owned(),
            bucket: bucket.to_owned(),
            keys: selection.keys,
            common_prefix,
            destination_path,
        },
    }
}

/// The job that uploads the file at `local_path` to `key`, shown under
/// `file_name`.
pub fn upload_request(
    profile_id: &str,
    bucket: &str,
    key: String,
    file_name: String,
    local_path: String,
    bytes_total: i64,
) -> (out: JobRequest)
    ensures
        out.job_type == JobType::Upload,
        out.file_name == file_name,
        out.description@ == "Upload to "@ + bucket@ + "/"@ + key@,
        out.bytes_total == bytes_total,
        out.kind matches JobTaskKind::Upload { profile_id: p, bucket: b, key: k, local_path: l }
            && p@ == profile_id@ && b@ == bucket@ && k == key && l == local_path,
{
    let head = concat3("Upload to ", bucket, "/");
    let description = concat2(head.as_str(), key.as_str());
    JobRequest {
        job_type: JobType::Upload,
        file_name,
        description,
        bytes_total,
        kind: JobTaskKind::Upload {
            profile_id: profile_id.to_owned(),
            bucket: bucket.to_owned(),
            key,
            local_path,
        },
    }
}

/// The job that downloads `key` to the file at `local_path`, shown under
/// `file_name`.
pub fn download_request(
    profile_id: &str,
    bucket: &str,
    key: String,
    file_name: String,
    local_path: String,
    bytes_total: i64,
) -> (out: JobRequest)
    ensures
        out.job_type == JobType::Download,
        out.file_name == file_name,
        out.description@ == "Download "@ + bucket@ + "/"@ + key@,
        out.bytes_total == bytes_total,
        out.kind matches JobTaskKind::Download { profile_id: p, bucket: b, key: k, local_path: l }
            && p@ == profile_id@ && b@ == bucket@ && k == key && l == local_path,
{
    let head = concat3("Download ", bucket, "/");
    let description = concat2(head.as_str(), key.as_str());
    JobRequest {
        job_type: JobType::Download,
        file_name,
        description,
        bytes_total,
        kind: JobTaskKind::Download {
            profile_id: profile_id.to_owned(),
            bucket: bucket.to_owned(),
            key,
            local_path,
        },
    }
}

/// The two ends of a copy.
pub struct CopyEnds {
    pub source_profile_id: String,
    pub source_bucket: String,
    pub dest_profile_id: String,
    pub dest_bucket: String,
}

/// The word for a copy or a move.
pub open spec fn copy_word(is_move: bool) -> Seq<char> {
    if is_move {
        "Move"@
    } else {
        "Copy"@
    }
}

/// Whether `kind` tells a job to copy, or to move, `source_key` to
/// `dest_key` between the ends.
pub open spec fn is_copy_kind(
    kind: JobTaskKind,
    is_move: bool,
    ends: CopyEnds,
    source_key: Seq<char>,
    dest_key: Seq<char>,
) -> bool {
    match kind {
        JobTaskKind::Copy {
            source_profile_id,
            source_bucket,
            source_key: sk,
            dest_profile_id,
            dest_bucket,
            dest_key: dk,
        } => {
            &&& !is_move
            &&& source_profile_id@ == ends.source_profile_id@
            &&& source_bucket@ == ends.source_bucket@
            &&& sk@ == source_key
            &&& dest_profile_id@ == ends.dest_profile_id@
            &&& dest_bucket@ == ends.dest_bucket@
            &&& dk@ == dest_key
        },
        JobTaskKind::Move {
            source_profile_id,
            source_bucket,
            source_key: sk,
            dest_profile_id,
            dest_bucket,
            dest_key: dk,
        } => {
            &&& is_move
            &&& source_profile_id@ == ends.source_profile_id@
            &&& source_bucket@ == ends.source_bucket@
            &&& sk@ == source_key
            &&& dest_profile_id@ == ends.dest_profile_id@
            &&& dest_bucket@ == ends.dest_bucket@
            &&& dk@ == dest_key
        },
        _ => false,
    }
}

fn copy_kind(is_move: bool, ends: &CopyEnds, source_key: &str, dest_key: &str) -> (out:
    JobTaskKind)
    ensures
        is_copy_kind(out, is_move, *ends, source_key@, dest_key@),
{
    if is_move {
        JobTaskKind::Move {
            source_profile_id: ends.source_profile_id.clone(),
            source_bucket: ends.source_bucket.clone(),
            source_key: source_key.to_owned(),
            dest_profile_id: ends.dest_profile_id.clone(),
            dest_bucket: ends.dest_bucket.clone(),
            dest_key: dest_key.to_owned(),
        }
    } else {
        JobTaskKind::Copy {
            source_profile_id: ends.source_profile_id.clone(),
            source_bucket: ends.source_bucket.clone(),
            source_key: source_key.to_owned(),
            dest_profile_id: ends.dest_profile_id.clone(),
            dest_bucket: ends.dest_bucket.clone(),
            dest_key: dest_key.to_owned(),
        }
    }
}

/// What a job that copies or moves one object is called.
pub open spec fn copy_description(
    is_move: bool,
    ends: CopyEnds,
    source_key: Seq<char>,
    dest_key: Seq<char>,
) -> Seq<char> {
    copy_word(is_move) + " "@ + ends.source_bucket@ + "/"@ + source_key + " -> "@
        + ends.dest_bucket@ + "/"@ + dest_key
}

fn word(is_move: bool) -> (out: &'static str)
    ensures
        out@ == copy_word(is_move),
{
    if is_move {
        "Move"
    } else {
        "Copy"
    }
}

/// The job that copies `source_key` to `dest_key`, or moves it there.
pub fn copy_request(is_move: bool, ends: &CopyEnds, source_key: &str, dest_key: &str) -> (out:
    JobRequest)
    ensures
        out.job_type == if is_move {
            JobType::Move
        } else {
            JobType::Copy
        },
        out.file_name@ == key_file_name(source_key@),
        out.description@ == copy_description(is_move, *ends, source_key@, dest_key@),
        out.bytes_total == 0,
        is_copy_kind(out.kind, is_move, *ends, source_key@, dest_key@),
{
    let a = concat3(word(is_move), " ", ends.source_bucket.as_str());
    let b = concat3(a.as_str(), "/", source_key);
    let c = concat3(b.as_str(), " -> ", ends.dest_bucket.as_str());
    let description = concat3(c.as_str(), "/", dest_key);
    JobRequest {
        job_type: if is_move {
            JobType::Move
        } else {
            JobType::Copy
        },
        file_name: file_name_of_key(source_key),
        description,
        bytes_total: 0,
        kind: copy_kind(is_move, ends, source_key, dest_key),
    }
}

/// Where a key goes in a transfer between buckets: behind the prefix of
/// the destination, without the prefix of the source where it begins with
/// that.
pub open spec fn cross_dest_key(source_prefix: Seq<char>, dest_prefix: Seq<char>, key: Seq<char>)
    -> Seq<char> {
    match key_below(source_prefix, key) {
        Some(rest) => dest_prefix + rest,
        None => dest_prefix + key,
    }
}

/// Whether `request` is the job that takes `key` across in a transfer
/// between buckets.
pub open spec fn is_cross_request(
    request: JobRequest,
    is_move: bool,
    ends: CopyEnds,
    source_prefix: Seq<char>,
    dest_prefix: Seq<char>,
    key: Seq<char>,
) -> bool {
    let dest_key = cross_dest_key(source_prefix, dest_prefix, key);
    &&& request.job_type == if is_move {
        JobType::Move
    } else {
        JobType::Copy
    }
    &&& request.file_name@ == key_file_name(key)
    &&& request.description@ == copy_word(is_move) + " -> "@ + ends.dest_bucket@ + "/"@ + dest_key
    &&& request.bytes_total == 0
    &&& is_copy_kind(request.kind, is_move, ends, key, dest_key)
}

/// The jobs of a transfer between buckets: one for each key, where it
/// occurs first, in the order of the keys.
pub fn cross_bucket_requests(
    is_move: bool,
    ends: &CopyEnds,
    source_prefix: &str,
    dest_prefix: &str,
    keys: &Vec<String>,
) -> (out: Vec<JobRequest>)
    ensures
        out@.len() == first_occurrences(views(keys@)).len(),
        forall|i: int|
            0 <= i < out@.len() ==> is_cross_request(
                #[trigger] out@[i],
                is_move,
                *ends,
                source_prefix@,
                dest_prefix@,
                first_occurrences(views(keys@))[i],
            ),
{
    let chosen = unique_keys(keys);
    let mut out: Vec<JobRequest> = Vec::new();
    let mut i: usize = 0;
    while i < chosen.len()
        invariant
            0 <= i <= chosen.len(),
            views(chosen@) == first_occurrences(views(keys@)),
            out@.len() == i,
            forall|k: int|
                0 <= k < i ==> is_cross_request(
                    #[trigger] out@[k],
                    is_move,
                    *ends,
                    source_prefix@,
                    dest_prefix@,
                    chosen@[k]@,
                ),
        decreases chosen.len() - i,
    {
        let key = chosen[i].as_str();
        let dest_key = match strip_key_prefix(source_prefix, key) {
            Some(rest) => concat2(dest_prefix, rest.as_str()),
            None => concat2(dest_prefix, key),
        };
        let a = concat3(word(is_move), " -> ", ends.dest_bucket.as_str());
        let description = concat3(a.as_str(), "/", dest_key.as_str());
        let request = JobRequest {
            job_type: if is_move {
                JobType::Move
            } else {
                JobType::Copy
            },
            file_name: file_name_of_key(key),
            description,
            bytes_total: 0,
            kind: copy_kind(is_move, ends, key, dest_key.as_str()),
        };
        out.push(request);
        i += 1;
    }
    proof {
        assert forall|k: int| 0 <= k < out@.len() implies is_cross_request(
            #[trigger] out@[k],
            is_move,
            *ends,
            source_prefix@,
            dest_prefix@,
            first_occurrences(views(keys@))[k],
        ) by {
            assert(views(chosen@)[k] == chosen@[k]@);
        }
    }
    out
}

} // verus!
