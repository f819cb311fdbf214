//! Moments as texts.

use crate::text::digits::{parse_signed, signed_value};
use vstd::prelude::*;

verus! {

/// The epoch milliseconds of an RFC 3339 moment; `None` where the text is not one.
pub uninterp spec fn rfc3339_millis(s: Seq<char>) -> Option<i64>;

/// Reads a moment with [`chrono::DateTime::parse_from_rfc3339`] and takes its
/// `timestamp_millis`; `None` where that fails. The grammar is left to the name.
#[verifier::external_body]
fn parse_rfc3339(s: &str) -> (r: Option<i64>)
    ensures
        r == rfc3339_millis(s@),
{
    chrono::DateTime::parse_from_rfc3339(s).ok().map(|d| d.timestamp_millis())
}

/// Epoch milliseconds as a UTC moment with millisecond precision, in the form that ClickHouse
/// compares with; `None` outside the calendar.
pub uninterp spec fn utc_text(ms: i64) -> Option<Seq<char>>;

/// Writes epoch milliseconds with [`chrono::DateTime::from_timestamp_millis`] and
/// `format("%Y-%m-%d %H:%M:%S%.3f")`; `None` where the moment is outside the calendar. The
/// calendar arithmetic is left to the name.
#[verifier::external_body]
pub(crate) fn format_utc(ms: i64) -> (r: Option<String>)
    ensures
        match r {
            Some(s) => utc_text(ms) == Some(s@),
            None => utc_text(ms) is None,
        },
{
    chrono::DateTime::from_timestamp_millis(ms)
        .map(|d| d.format("%Y-%m-%d %H:%M:%S%.3f").to_string())
}

/// The epoch milliseconds of a moment given as an integer or in RFC 3339 form, where `other` is
/// the reading of the second form.
pub open spec fn moment(s: Seq<char>, other: Option<i64>) -> Option<i64> {
    match signed_value(s) {
        Some(v) => if i64::MIN <= v <= i64::MAX {
            Some(v as i64)
        } else {
            other
        },
        None => other,
    }
}

/// Reads epoch milliseconds, or else takes `other`.
pub fn millis_or(s: &str, other: Option<i64>) -> (r: Option<i64>)
    ensures
        r == moment(s@, other),
{
    match parse_signed(s) {
        Some(ms) => Some(ms),
        None => other,
    }
}

/// Reads a moment given as epoch milliseconds or in RFC 3339 form.
pub fn parse_ts(s: &str) -> (r: Option<i64>)
    ensures
        r == moment(s@, rfc3339_millis(s@)),
{
    millis_or(s, parse_rfc3339(s))
}

} // verus!
