//! Timestamps: RFC 3339 text and milliseconds since the Unix epoch.

use vstd::prelude::*;

verus! {

/// The instant that `chrono` reads from RFC 3339 text, in milliseconds since
/// the Unix epoch; `None` where it rejects the text.
pub uninterp spec fn rfc3339_millis(text: Seq<char>) -> Option<i64>;

/// The RFC 3339 text that `chrono` writes for an instant given in
/// milliseconds since the Unix epoch, in UTC; `None` where the instant is out
/// of its range.
pub uninterp spec fn rfc3339_text(millis: i64) -> Option<Seq<char>>;

/// `chrono::DateTime::parse_from_rfc3339`, with the instant handed out by
/// `timestamp_millis`. The contract only names the result: it is a function
/// of the text alone.
#[verifier::external_body]
fn parse_rfc3339(value: &str) -> (out: Option<i64>)
    ensures
        out == rfc3339_millis(value@),
{
    match chrono::DateTime::parse_from_rfc3339(value) {
        Ok(instant) => Some(instant.timestamp_millis()),
        Err(_) => None,
    }
}

/// `chrono::DateTime::<Utc>::from_timestamp_millis`, written out by
/// `to_rfc3339`. The contract only names the result: it is a function of the
/// number alone.
#[verifier::external_body]
fn format_rfc3339(millis: i64) -> (out: Option<String>)
    ensures
        match rfc3339_text(millis) {
            Some(text) => out matches Some(s) && s@ == text,
            None => out is None,
        },
{
    match chrono::DateTime::<chrono::Utc>::from_timestamp_millis(millis) {
        Some(instant) => Some(instant.to_rfc3339()),
        None => None,
    }
}

/// `chrono::Utc::now`, written out by `to_rfc3339`: the current time. It
/// differs from call to call, so nothing is claimed of it.
#[verifier::external_body]
pub(crate) fn now_iso() -> (out: String) {
    chrono::Utc::now().to_rfc3339()
}

/// What a timestamp counts as when it is compared: the instant it names, or
/// zero when it cannot be read.
pub open spec fn iso_millis(text: Seq<char>) -> i64 {
    match rfc3339_millis(text) {
        Some(millis) => millis,
        None => 0,
    }
}

/// The instant named by `value` in milliseconds since the Unix epoch, or zero
/// when `value` is no RFC 3339 timestamp.
pub fn parse_iso_millis(value: &str) -> (out: i64)
    ensures
        out == iso_millis(value@),
{
    millis_or_zero(parse_rfc3339(value))
}

/// The instant that was read, or zero when none was.
pub fn millis_or_zero(parsed: Option<i64>) -> (out: i64)
    ensures
        out == match parsed {
            Some(millis) => millis,
            None => 0,
        },
{
    match parsed {
        Some(millis) => millis,
        None => 0,
    }
}

/// The timestamp of a stored object as text: the store's own instant where
/// it gave one that can be written, else the fallback `now`.
pub fn s3_datetime_to_iso(millis: Option<i64>, now: &str) -> (out: String)
    ensures
        out@ == match millis {
            Some(m) => match rfc3339_text(m) {
                Some(text) => text,
                None => now@,
            },
            None => now@,
        },
{
    match millis {
        Some(m) => timestamp_or(format_rfc3339(m), now),
        None => now.to_owned(),
    }
}

/// The text that was written, or the fallback when none was.
pub fn timestamp_or(written: Option<String>, fallback: &str) -> (out: String)
    ensures
        out@ == match written {
            Some(text) => text@,
            None => fallback@,
        },
{
    match written {
        Some(text) => text,
        None => fallback.to_owned(),
    }
}

} // verus!
