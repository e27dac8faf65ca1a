use chrono::Datelike;
use chrono::TimeZone;

use vstd::prelude::*;

verus! {

/// Largest supported timestamp: the first millisecond of the year 10000.
pub open spec fn max_civil_ms() -> int {
    253402300800000
}

/// The civil UTC date (year, month, day) of a millisecond timestamp; it
/// depends on the timestamp alone.
pub uninterp spec fn utc_date_of(ms: int) -> (int, int, int);

/// Relies on chrono's `Utc.timestamp_millis_opt` and `Datelike`: a timestamp
/// between the epoch and the year 10000 has a single civil UTC date, with
/// one-based month and day, as chrono documents.
#[verifier::external_body]
pub fn utc_ymd(ms: i64) -> (r: (u16, u8, u8))
    requires
        0 <= ms < max_civil_ms(),
    ensures
        (r.0 as int, r.1 as int, r.2 as int) == utc_date_of(ms as int),
        1970 <= r.0 <= 9999,
        1 <= r.1 <= 12,
        1 <= r.2 <= 31,
{
    let dt = chrono::Utc.timestamp_millis_opt(ms).unwrap();
    (dt.year() as u16, dt.month() as u8, dt.day() as u8)
}

/// The RFC 3339 rendering of a UTC millisecond timestamp; it depends on the
/// timestamp alone.
pub uninterp spec fn rfc3339_of(ms: int) -> Seq<char>;

/// Relies on chrono's `DateTime::to_rfc3339`: a timestamp between the epoch
/// and the year 10000 has a single RFC 3339 rendering.
#[verifier::external_body]
pub fn unixtime_to_rfc3339(ms: i64) -> (r: String)
    requires
        0 <= ms < max_civil_ms(),
    ensures
        r@ == rfc3339_of(ms as int),
{
    chrono::Utc.timestamp_millis_opt(ms).unwrap().to_rfc3339()
}

/// The millisecond timestamp an RFC 3339 string denotes, if it parses as
/// one; it depends on the string alone.
pub uninterp spec fn rfc3339_ms_of(s: Seq<char>) -> Option<int>;

/// Relies on `DateTime::<Utc>`'s `FromStr`: an RFC 3339 timestamp with any
/// offset parses to a single UTC timestamp; anything else is an error.
#[verifier::external_body]
pub fn rfc3339_to_unixtime(s: &str) -> (r: Option<i64>)
    ensures
        r is Some <==> rfc3339_ms_of(s@) is Some,
        r matches Some(v) ==> rfc3339_ms_of(s@) == Some(v as int),
{
    match s.parse::<chrono::DateTime<chrono::Utc>>() {
        Ok(d) => Some(d.timestamp_millis()),
        Err(_) => None,
    }
}

/// Relies on chrono's `Utc::now`: nothing is assumed of the clock's answer.
#[verifier::external_body]
pub fn now_unixtime_ms() -> (r: i64) {
    chrono::Utc::now().timestamp_millis()
}

} // verus!
