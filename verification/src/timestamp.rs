//! UTC timestamps, as `chrono` represents them.

use chrono::{DateTime, NaiveDateTime};
use vstd::prelude::*;

verus! {

/// `chrono::NaiveDateTime`, carried through the library as an opaque value.
/// Every value the library stores is a date and time in UTC.
#[verifier::external_type_specification]
#[verifier::external_body]
pub struct ExNaiveDateTime(NaiveDateTime);

/// What `chrono::DateTime::from_timestamp(secs, 0)` yields, taken as the
/// date and time in UTC: `None` where `chrono` cannot represent the instant
/// `secs` seconds after 1970-01-01 00:00:00 UTC.
pub uninterp spec fn utc_from_timestamp(secs: int) -> Option<NaiveDateTime>;

/// Calls `chrono::DateTime::from_timestamp` with zero nanoseconds and hands
/// the outcome back as the UTC date and time (`DateTime::naive_utc`). The
/// contract only gives that outcome its name; nothing is claimed about which
/// counts of seconds are representable.
#[verifier::external_body]
pub(crate) fn datetime_from_timestamp(secs: i64) -> (converted: Option<NaiveDateTime>)
    ensures
        converted == utc_from_timestamp(secs as int),
{
    match DateTime::from_timestamp(secs, 0) {
        Some(instant) => Some(instant.naive_utc()),
        None => None,
    }
}

} // verus!
