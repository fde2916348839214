//! Points in time as text.

use chrono::{DateTime, Utc};
use vstd::prelude::*;
use crate::text::opt_text;

verus! {

/// The RFC 3339 text of a number of seconds since the start of 1970 in UTC, where it is a date that
/// can be written.
pub uninterp spec fn rfc3339_of(seconds: i64) -> Option<Seq<char>>;

/// `chrono::DateTime::from_timestamp` with `to_rfc3339`: the text depends on the seconds alone, and
/// there is none where the date is out of range.
#[verifier::external_body]
pub(crate) fn format_seconds(seconds: i64) -> (text: Option<String>)
    ensures
        opt_text(text) == rfc3339_of(seconds),
{
    DateTime::<Utc>::from_timestamp(seconds, 0).map(|date| date.to_rfc3339())
}

} // verus!
