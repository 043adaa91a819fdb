//! Object keys and relative paths: prefixes, last parts, and the check that
//! a relative path stays below its root.

use crate::text::{concat2, ends_with_char, from_chars, starts_with, to_chars};
use vstd::prelude::*;

verus! {

/// A prefix made to end in a slash; the empty prefix stays empty.
pub open spec fn normalized_prefix(prefix: Seq<char>) -> Seq<char> {
    if prefix.len() == 0 || prefix.last() == '/' {
        prefix
    } else {
        prefix.push('/')
    }
}

/// The prefix with exactly the trailing slash that a key is appended to.
pub fn normalize_prefix(prefix: &str) -> (out: String)
    ensures
        out@ == normalized_prefix(prefix@),
{
    if prefix.is_empty() {
        String::new()
    } else if ends_with_char(prefix, '/') {
        prefix.to_owned()
    } else {
        let out = concat2(prefix, "/");
        proof {
            reveal_strlit("/");
            assert(out@ =~= prefix@.push('/'));
        }
        out
    }
}

/// The key that `key` has below `prefix`.
pub fn join_prefix_key(prefix: &str, key: &str) -> (out: String)
    ensures
        out@ == normalized_prefix(prefix@) + key@,
{
    let normalized = normalize_prefix(prefix);
    concat2(normalized.as_str(), key)
}

/// What is left of `key` behind `prefix`; the whole key for the empty
/// prefix, and nothing where the key does not begin with the prefix.
pub open spec fn key_below(prefix: Seq<char>, key: Seq<char>) -> Option<Seq<char>> {
    if prefix.len() == 0 {
        Some(key)
    } else if prefix.is_prefix_of(key) {
        Some(key.skip(prefix.len() as int))
    } else {
        None
    }
}

/// The part of `key` behind `prefix`, if the key lies below the prefix.
pub fn strip_key_prefix(prefix: &str, key: &str) -> (out: Option<String>)
    ensures
        match key_below(prefix@, key@) {
            Some(rest) => out matches Some(s) && s@ == rest,
            None => out is None,
        },
{
    if prefix.is_empty() {
        Some(key.to_owned())
    } else if starts_with(key, prefix) {
        let k = to_chars(key);
        let p = to_chars(prefix);
        let out = from_chars(&k, p.len(), k.len());
        Some(out)
    } else {
        None
    }
}

/// Whether a part of the path, between slashes, is `..`.
pub open spec fn has_parent_part(path: Seq<char>) -> bool {
    exists|i: int| parent_part_at(path, i)
}

/// Whether the part `..` stands at position `i` of the path.
pub open spec fn parent_part_at(path: Seq<char>, i: int) -> bool {
    &&& 0 <= i
    &&& i + 2 <= path.len()
    &&& path[i] == '.'
    &&& path[i + 1] == '.'
    &&& (i == 0 || path[i - 1] == '/')
    &&& (i + 2 == path.len() || path[i + 2] == '/')
}

/// Whether the path is absolute or climbs out of its root.
pub open spec fn escapes_root(path: Seq<char>) -> bool {
    (path.len() > 0 && path[0] == '/') || has_parent_part(path)
}

/// The relative path itself where it stays below its root; nothing where it
/// begins with a slash or holds a part `..`.
pub fn sanitize_relative_path(relative_path: &str) -> (out: Option<String>)
    ensures
        match out {
            Some(path) => path@ == relative_path@ && !escapes_root(relative_path@),
            None => escapes_root(relative_path@),
        },
{
    let v = to_chars(relative_path);
    if v.len() > 0 && v[0] == '/' {
        return None;
    }
    let mut i: usize = 0;
    while v.len() >= 2 && i <= v.len() - 2
        invariant
            0 <= i,
            v@ == relative_path@,
            forall|k: int| 0 <= k < i ==> !parent_part_at(v@, k),
        decreases v.len() - i,
    {
        if v[i] == '.' && v[i + 1] == '.' && (i == 0 || v[i - 1] == '/') && (i + 2 == v.len()
            || v[i + 2] == '/') {
            assert(parent_part_at(v@, i as int));
            return None;
        }
        i += 1;
    }
    Some(relative_path.to_owned())
}

/// The parts in a row, with a slash between them.
pub open spec fn slash_joined(parts: Seq<String>) -> Seq<char>
    decreases parts.len(),
{
    if parts.len() == 0 {
        Seq::empty()
    } else if parts.len() == 1 {
        parts[0]@
    } else {
        slash_joined(parts.drop_last()) + "/"@ + parts.last()@
    }
}

/// A relative path written with slashes: its parts, which are the names
/// of the directories and of the file, with a slash between them.
pub fn normalize_slashes(parts: &Vec<String>) -> (out: String)
    ensures
        out@ == slash_joined(parts@),
{
    if parts.len() == 0 {
        return String::new();
    }
    let mut out = parts[0].clone();
    let mut i: usize = 1;
    assert(parts@.take(1) =~= seq![parts@[0]]);
    while i < parts.len()
        invariant
            1 <= i <= parts.len(),
            out@ == slash_joined(parts@.take(i as int)),
        decreases parts.len() - i,
    {
        assert(parts@.take(i + 1).drop_last() =~= parts@.take(i as int));
        out = crate::text::concat3(out.as_str(), "/", parts[i].as_str());
        i += 1;
    }
    assert(parts@.take(i as int) =~= parts@);
    out
}

/// The length of `s` without the slashes at its end.
pub open spec fn trimmed_len(s: Seq<char>) -> int
    decreases s.len(),
{
    if s.len() == 0 {
        0
    } else if s.last() == '/' {
        trimmed_len(s.drop_last())
    } else {
        s.len() as int
    }
}

/// Where the last part of `s` begins: behind its last slash, or at 0.
pub open spec fn last_part_start(s: Seq<char>) -> int
    decreases s.len(),
{
    if s.len() == 0 {
        0
    } else if s.last() == '/' {
        s.len() as int
    } else {
        last_part_start(s.drop_last())
    }
}

/// The last non-empty part of a key, between slashes; the key itself where
/// it has no such part.
pub open spec fn key_file_name(key: Seq<char>) -> Seq<char> {
    let end = trimmed_len(key);
    if end == 0 {
        key
    } else {
        key.subrange(last_part_start(key.take(end)), end)
    }
}

/// The name under which a key is shown: its last non-empty part.
pub fn file_name_of_key(key: &str) -> (out: String)
    ensures
        out@ == key_file_name(key@),
{
    let v = to_chars(key);
    let mut end: usize = v.len();
    assert(v@.take(end as int) =~= v@);
    while end > 0 && v[end - 1] == '/'
        invariant
            0 <= end <= v.len(),
            trimmed_len(v@) == trimmed_len(v@.take(end as int)),
        decreases end,
    {
        assert(v@.take(end as int).drop_last() =~= v@.take(end - 1));
        end -= 1;
    }
    if end == 0 {
        return key.to_owned();
    }
    let mut start: usize = end;
    let ghost head = v@.take(end as int);
    assert(head.take(start as int) =~= head);
    while start > 0 && v[start - 1] != '/'
        invariant
            0 <= start <= end <= v.len(),
            head == v@.take(end as int),
            last_part_start(head) == last_part_start(head.take(start as int)),
        decreases start,
    {
        assert(head.take(start as int).drop_last() =~= head.take(start - 1));
        start -= 1;
    }
    from_chars(&v, start, end)
}

} // verus!
