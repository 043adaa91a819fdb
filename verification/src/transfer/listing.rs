//! The listing of a bucket prefix: what an entry of a page counts as, and
//! whether another page follows.

use crate::clock::{rfc3339_text, s3_datetime_to_iso};
use crate::sync::types::RemoteObject;
use crate::text::{from_chars, to_chars};
use vstd::prelude::*;

verus! {

/// How many quotation marks stand at the start of `s`.
pub open spec fn leading_quotes(s: Seq<char>) -> int
    decreases s.len(),
{
    if s.len() == 0 || s[0] != '"' {
        0
    } else {
        1 + leading_quotes(s.drop_first())
    }
}

/// How many quotation marks stand at the end of `s`.
pub open spec fn trailing_quotes(s: Seq<char>) -> int
    decreases s.len(),
{
    if s.len() == 0 || s.last() != '"' {
        0
    } else {
        1 + trailing_quotes(s.drop_last())
    }
}

/// `s` without the quotation marks at its start and at its end.
pub open spec fn without_quotes(s: Seq<char>) -> Seq<char> {
    if leading_quotes(s) >= s.len() {
        Seq::empty()
    } else {
        s.subrange(leading_quotes(s), s.len() - trailing_quotes(s))
    }
}

/// An entity tag as it is compared: without the quotation marks around
/// it.
pub fn trim_quotes(s: &str) -> (out: String)
    ensures
        out@ == without_quotes(s@),
{
    let v = to_chars(s);
    let mut start: usize = 0;
    assert(v@.skip(0) =~= v@);
    while start < v.len() && v[start] == '"'
        invariant
            0 <= start <= v.len(),
            leading_quotes(v@) == start + leading_quotes(v@.skip(start as int)),
        decreases v.len() - start,
    {
        assert(v@.skip(start as int).drop_first() =~= v@.skip(start + 1));
        start += 1;
    }
    if start == v.len() {
        assert(v@.skip(start as int).len() == 0);
        return String::new();
    }
    let mut end: usize = v.len();
    assert(v@.take(end as int) =~= v@);
    while end > start && v[end - 1] == '"'
        invariant
            start < end <= v.len(),
            v@[start as int] != '"',
            trailing_quotes(v@) == (v.len() - end) + trailing_quotes(v@.take(end as int)),
        decreases end,
    {
        assert(v@.take(end as int).drop_last() =~= v@.take(end - 1));
        end -= 1;
    }
    proof {
        assert(v@.skip(start as int)[0] == v@[start as int]);
        assert(leading_quotes(v@.skip(start as int)) == 0);
        assert(v@.take(end as int).last() == v@[end - 1]);
    }
    from_chars(&v, start, end)
}

/// One entry of a page as the listing counts it: a missing key and a
/// missing entity tag count as empty, a missing or negative size as zero,
/// the entity tag goes without its quotation marks, and a missing or
/// unreadable modification time counts as `now`.
pub fn listed_object(
    key: Option<&str>,
    size: Option<i64>,
    etag: Option<&str>,
    last_modified_millis: Option<i64>,
    now: &str,
) -> (out: RemoteObject)
    ensures
        out.key@ == match key {
            Some(k) => k@,
            None => Seq::empty(),
        },
        out.size == match size {
            Some(n) => if n < 0 {
                0
            } else {
                n
            },
            None => 0,
        },
        out.etag@ == match etag {
            Some(e) => without_quotes(e@),
            None => Seq::empty(),
        },
        out.last_modified@ == match last_modified_millis {
            Some(m) => match rfc3339_text(m) {
                Some(text) => text,
                None => now@,
            },
            None => now@,
        },
{
    let tag = match etag {
        Some(e) => trim_quotes(e),
        None => String::new(),
    };
    proof {
        assert(without_quotes(Seq::<char>::empty()) =~= Seq::<char>::empty());
    }
    RemoteObject {
        key: match key {
            Some(k) => k.to_owned(),
            None => String::new(),
        },
        size: match size {
            Some(n) => if n < 0 {
                0
            } else {
                n
            },
            None => 0,
        },
        etag: tag,
        last_modified: s3_datetime_to_iso(last_modified_millis, now),
    }
}

/// What follows a page of a listing.
#[derive(Debug, PartialEq, Eq)]
pub enum ListingPage {
    /// Another page follows; it is asked for with the token, if the store
    /// gave one.
    More(Option<String>),
    /// The listing is complete.
    Done,
}

/// Whether another page follows: it does where the store says that the
/// page was cut short.
pub fn next_listing_page(is_truncated: Option<bool>, next_token: Option<String>) -> (out:
    ListingPage)
    ensures
        out == match is_truncated {
            Some(true) => ListingPage::More(next_token),
            _ => ListingPage::Done,
        },
{
    match is_truncated {
        Some(true) => ListingPage::More(next_token),
        _ => ListingPage::Done,
    }
}

} // verus!
