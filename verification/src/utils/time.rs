//! Timestamps, in seconds since 1970-01-01T00:00:00Z, as protocol text.

use vstd::prelude::*;

verus! {

/// The last second of the year 9999.
pub const MAX_HTTP_TIMESTAMP: i64 = 253_402_300_799;

/// The RFC 3339 text, with milliseconds and `Z`, of the instant `secs`;
/// `None` where the calendar has no such instant.
pub uninterp spec fn rfc3339_millis(secs: int) -> Option<Seq<char>>;

/// The RFC 2822 text of the instant `secs`.
pub uninterp spec fn rfc2822(secs: int) -> Seq<char>;

/// The text of an optional string.
pub open spec fn text_view(o: Option<String>) -> Option<Seq<char>> {
    match o {
        Some(s) => Some(s@),
        None => None,
    }
}

/// Whether the instant `secs` lies in the years 1970 to 9999, the part of
/// the range of RFC 2822 that follows the epoch.
pub open spec fn is_http_timestamp(secs: int) -> bool {
    0 <= secs <= MAX_HTTP_TIMESTAMP
}

/// Calls chrono's `DateTime::from_timestamp` on `secs` and no nanoseconds,
/// and `DateTime::to_rfc3339_opts` with `SecondsFormat::Millis` and `Z` on
/// what it gives. The text depends on `secs` alone, and there is none
/// exactly where `from_timestamp` gives no instant.
#[verifier::external_body]
pub(crate) fn format_rfc3339_millis(secs: i64) -> (r: Option<String>)
    ensures
        text_view(r) == rfc3339_millis(secs as int),
{
    match chrono::DateTime::from_timestamp(secs, 0) {
        Some(t) => Some(t.to_rfc3339_opts(chrono::SecondsFormat::Millis, true)),
        None => None,
    }
}

/// Calls chrono's `DateTime::from_timestamp` on `secs` and no nanoseconds,
/// and `DateTime::to_rfc2822` on what it gives. `to_rfc2822` panics on a
/// year below 0 or above 9999: such instants are left out. The text
/// depends on `secs` alone.
#[verifier::external_body]
pub(crate) fn format_rfc2822(secs: i64) -> (r: String)
    requires
        is_http_timestamp(secs as int),
    ensures
        r@ == rfc2822(secs as int),
{
    match chrono::DateTime::from_timestamp(secs, 0) {
        Some(t) => t.to_rfc2822(),
        None => String::new(),
    }
}

/// The text of the instant `secs` in a listing: its RFC 3339 form, and
/// nothing where the calendar has no such instant.
pub open spec fn listing_time(secs: int) -> Seq<char> {
    match rfc3339_millis(secs) {
        Some(t) => t,
        None => Seq::empty(),
    }
}

/// The text of the instant `secs` in a listing.
pub fn listing_time_text(secs: i64) -> (r: String)
    ensures
        r@ == listing_time(secs as int),
{
    match format_rfc3339_millis(secs) {
        Some(t) => t,
        None => String::new(),
    }
}

/// The text of the instant `secs` in a header; `None` where the instant
/// lies outside the years 1970 to 9999.
pub fn http_time_text(secs: i64) -> (r: Option<String>)
    ensures
        text_view(r) == if is_http_timestamp(secs as int) {
            Some(rfc2822(secs as int))
        } else {
            None
        },
{
    if 0 <= secs && secs <= MAX_HTTP_TIMESTAMP {
        Some(format_rfc2822(secs))
    } else {
        None
    }
}

} // verus!
