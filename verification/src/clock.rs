//! Points in time as text.

use vstd::prelude::*;

use crate::json::viewed;

verus! {

/// What `chrono::DateTime::from_timestamp` and then `to_rfc3339_opts`, to the second and with `Z`,
/// give for so many seconds and nanoseconds since the start of 1970.
pub uninterp spec fn rfc3339_text(secs: i64, nanos: u32) -> Option<Seq<char>>;

/// Whether so many seconds and nanoseconds after the start of 1970 is a point in time from there to
/// the end of the year 9999.
pub open spec fn four_digit_year(secs: int, nanos: u32) -> bool {
    0 <= secs <= 253_402_300_799 && nanos < 1_000_000_000
}

/// `chrono::DateTime::from_timestamp` gives the point in time so many seconds and nanoseconds
/// after the start of 1970, or `None` where it cannot hold that point or the nanoseconds are not
/// valid; `to_rfc3339_opts` then writes it as RFC 3339 prescribes. The contract says that the
/// result depends on the two numbers alone, and that from the start of 1970 to the end of the year
/// 9999 there is one, of 20 characters with a `Z` at the end; the calendar is left unsaid.
#[verifier::external_body]
fn rfc3339_seconds(secs: i64, nanos: u32) -> (r: Option<String>)
    ensures
        viewed(r) == rfc3339_text(secs, nanos),
        four_digit_year(secs as int, nanos) ==> r is Some && r->0@.len() == 20 && r->0@.last()
            == 'Z',
{
    chrono::DateTime::<chrono::Utc>::from_timestamp(secs, nanos).map(
        |time| time.to_rfc3339_opts(chrono::SecondsFormat::Secs, true),
    )
}

/// The point in time so many seconds and nanoseconds after the start of 1970, in UTC and to the
/// second, or `None` where the calendar does not reach it.
pub fn utc_iso(secs: u64, nanos: u32) -> (r: Option<String>)
    ensures
        viewed(r) == rfc3339_text(secs as i64, nanos),
        four_digit_year(secs as int, nanos) ==> r is Some && r->0@.len() == 20 && r->0@.last()
            == 'Z',
{
    rfc3339_seconds(secs as i64, nanos)
}

} // verus!
