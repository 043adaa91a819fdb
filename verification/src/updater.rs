//! The settings of the update check: where the release information is
//! fetched from and which channel is followed, each with the value that
//! the environment may put in place of the default.

use crate::blank::{blank, trim, trimmed};
use crate::text::{from_chars, text_of, to_chars, views};
use vstd::prelude::*;

verus! {

/// Whether a character parts one entry of a list from the next: a comma, a
/// line feed or a carriage return.
pub open spec fn is_separator(c: char) -> bool {
    c == ',' || c == '\n' || c == '\r'
}

/// How many characters stand before the first separator of `s`.
pub open spec fn part_len(s: Seq<char>) -> int
    decreases s.len(),
{
    if s.len() == 0 || is_separator(s[0]) {
        0
    } else {
        1 + part_len(s.drop_first())
    }
}

/// The entries of a list: its parts between separators, each without the
/// white space around it, and without the parts that are blank.
pub open spec fn entries(s: Seq<char>) -> Seq<Seq<char>>
    decreases s.len(),
{
    let n = part_len(s);
    let head = if 0 <= n <= s.len() {
        s.take(n)
    } else {
        s
    };
    let rest = if 0 <= n < s.len() {
        entries(s.skip(n + 1))
    } else {
        Seq::empty()
    };
    if blank(head) {
        rest
    } else {
        seq![trimmed(head)] + rest
    }
}

/// What a variable of the environment sets: its value without the white
/// space around it, and nothing where it is not set or blank.
pub open spec fn setting(value: Option<Seq<char>>) -> Option<Seq<char>> {
    match value {
        Some(v) => if blank(v) {
            None
        } else {
            Some(trimmed(v))
        },
        None => None,
    }
}

/// The endpoints that the environment names, in their order.
pub open spec fn named_endpoints(value: Option<Seq<char>>) -> Seq<Seq<char>> {
    match setting(value) {
        Some(v) => entries(v),
        None => Seq::empty(),
    }
}

/// The address of the release information where the environment names none.
pub open spec fn default_endpoint() -> Seq<char> {
    "https://github.com/sayedhfatimi/object0/releases/latest/download/latest.json"@
}

/// The channel that is followed where the environment names none.
pub open spec fn default_channel() -> Seq<char> {
    "stable"@
}

/// The value of a variable of the environment, without the white space
/// around it; nothing where the variable is not set or its value is blank.
pub fn non_empty_setting(value: Option<&str>) -> (out: Option<String>)
    ensures
        match setting(text_of(value)) {
            Some(v) => out matches Some(s) && s@ == v,
            None => out is None,
        },
{
    match value {
        Some(v) => {
            let t = trim(v);
            if t.as_str().is_empty() {
                None
            } else {
                Some(t)
            }
        },
        None => None,
    }
}

/// The entries of a list whose parts stand between commas and line ends.
pub fn split_entries(list: &str) -> (out: Vec<String>)
    ensures
        views(out@) == entries(list@),
{
    let v = to_chars(list);
    let mut out: Vec<String> = Vec::new();
    let mut start: usize = 0;
    assert(v@.skip(0) =~= v@);
    assert(views(out@) + entries(v@) =~= entries(v@));
    loop
        invariant_except_break
            entries(v@) == views(out@) + entries(v@.skip(start as int)),
        invariant
            start <= v.len(),
            v@ == list@,
        ensures
            views(out@) == entries(list@),
        decreases v.len() - start,
    {
        let ghost rest = v@.skip(start as int);
        let ghost before = views(out@);
        let mut end: usize = start;
        assert(v@.skip(end as int) =~= rest);
        while end < v.len() && !(v[end] == ',' || v[end] == '\n' || v[end] == '\r')
            invariant
                start <= end <= v.len(),
                part_len(rest) == (end - start) + part_len(v@.skip(end as int)),
            decreases v.len() - end,
        {
            assert(v@.skip(end as int).drop_first() =~= v@.skip(end + 1));
            end += 1;
        }
        proof {
            if end < v.len() {
                assert(v@.skip(end as int)[0] == v@[end as int]);
            }
            assert(part_len(rest) == end - start);
            assert(rest.take(end - start) =~= v@.subrange(start as int, end as int));
        }
        let part = from_chars(&v, start, end);
        let t = trim(part.as_str());
        if !t.as_str().is_empty() {
            out.push(t);
            assert(views(out@) =~= before + seq![trimmed(part@)]);
        }
        if end == v.len() {
            proof {
                assert(entries(rest) =~= if blank(part@) {
                    Seq::<Seq<char>>::empty()
                } else {
                    seq![trimmed(part@)]
                });
                assert(views(out@) =~= before + entries(rest));
            }
            break ;
        }
        proof {
            assert(rest.skip(end - start + 1) =~= v@.skip(end + 1));
            assert(views(out@) + entries(v@.skip(end + 1)) =~= before + entries(rest));
        }
        start = end + 1;
    }
    out
}

/// The address that the release information is fetched from: the first
/// endpoint that the variable `OBJECT0_UPDATER_ENDPOINTS` names, whose value
/// is `value`, or the default where it names none.
pub fn updater_local_info_endpoint(value: Option<&str>) -> (out: String)
    ensures
        out@ == if named_endpoints(text_of(value)).len() > 0 {
            named_endpoints(text_of(value))[0]
        } else {
            default_endpoint()
        },
{
    match non_empty_setting(value) {
        Some(v) => {
            let mut names = split_entries(v.as_str());
            if names.len() > 0 {
                let first = names.swap_remove(0);
                first
            } else {
                default_endpoint_text()
            }
        },
        None => default_endpoint_text(),
    }
}

fn default_endpoint_text() -> (out: String)
    ensures
        out@ == default_endpoint(),
{
    "https://github.com/sayedhfatimi/object0/releases/latest/download/latest.json".to_owned()
}

/// The channel that is followed: the value `value` of the variable
/// `OBJECT0_UPDATER_CHANNEL`, or `stable` where it is not set or blank.
pub fn updater_channel(value: Option<&str>) -> (out: String)
    ensures
        out@ == match setting(text_of(value)) {
            Some(v) => v,
            None => default_channel(),
        },
{
    match non_empty_setting(value) {
        Some(v) => v,
        None => "stable".to_owned(),
    }
}

} // verus!
