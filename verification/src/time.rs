//! Calendar texts of instants, computed by `chrono`.

use vstd::prelude::*;
use crate::models::Timestamp;
use crate::text::opt_text;

verus! {

/// The `strftime` patterns the workspace formats instants with: the day of
/// a note (`%Y-%m-%d`) and the stamp of a backup (`%Y%m%d-%H%M%S`).
pub open spec fn known_pattern(p: Seq<char>) -> bool {
    p == "%Y-%m-%d"@ || p == "%Y%m%d-%H%M%S"@
}

/// The UTC calendar text of the instant `secs`/`nanos` under a `strftime`
/// pattern, as `chrono` renders it; `None` when chrono cannot represent the
/// instant.
pub uninterp spec fn utc_text(secs: i64, nanos: u32, pattern: Seq<char>) -> Option<Seq<char>>;

/// The RFC 3339 text of the instant `secs`/`nanos` in UTC, as
/// `DateTime::to_rfc3339` writes it; `None` when chrono cannot represent it.
pub uninterp spec fn rfc3339_text(secs: i64, nanos: u32) -> Option<Seq<char>>;

/// The instant an RFC 3339 text denotes, as `DateTime::parse_from_rfc3339`
/// reads it; `None` when chrono refuses the text.
pub uninterp spec fn rfc3339_instant(text: Seq<char>) -> Option<Timestamp>;

/// `chrono::DateTime::<Utc>::from_timestamp` followed by `format(pattern)`:
/// the result is named `utc_text`.  The pattern is restricted to the ones the
/// workspace uses, which chrono always renders (a pattern it cannot render
/// makes `to_string` panic).  Nothing is stated of the text itself.
#[verifier::external_body]
fn format_utc(ts: Timestamp, pattern: &str) -> (r: Option<String>)
    requires
        known_pattern(pattern@),
    ensures
        opt_text(r) == utc_text(ts.secs, ts.nanos, pattern@),
{
    match chrono::DateTime::from_timestamp(ts.secs, ts.nanos) {
        Some(d) => Some(d.format(pattern).to_string()),
        None => None,
    }
}

/// `chrono::DateTime::<Utc>::from_timestamp` followed by `to_rfc3339`: the
/// result is named `rfc3339_text`.  Nothing is stated of the text itself.
#[verifier::external_body]
fn format_rfc3339(ts: Timestamp) -> (r: Option<String>)
    ensures
        opt_text(r) == rfc3339_text(ts.secs, ts.nanos),
{
    match chrono::DateTime::from_timestamp(ts.secs, ts.nanos) {
        Some(d) => Some(d.to_rfc3339()),
        None => None,
    }
}

/// `chrono::DateTime::parse_from_rfc3339`, taken to UTC seconds and
/// nanoseconds: the result is named `rfc3339_instant`.
#[verifier::external_body]
fn parse_rfc3339(s: &str) -> (r: Option<Timestamp>)
    ensures
        r == rfc3339_instant(s@),
{
    match chrono::DateTime::parse_from_rfc3339(s) {
        Ok(d) => Some(Timestamp { secs: d.timestamp(), nanos: d.timestamp_subsec_nanos() }),
        Err(_) => None,
    }
}

/// `chrono::Utc::now`, as seconds and nanoseconds since the epoch.  Which
/// instant comes out is the clock's and is left open.  What is stated holds
/// of every outcome: `Utc::now` builds its result with
/// `DateTime::from_timestamp(secs, subsec_nanos).unwrap()` from a duration
/// since the epoch (it panics on a clock set before the epoch), and chrono
/// documents that `from_timestamp` round-trips with `timestamp` and
/// `timestamp_subsec_nanos`; so the instant is one that `from_timestamp`
/// accepts, and `format_utc` renders it under the day pattern.
#[verifier::external_body]
pub(crate) fn utc_now() -> (r: Timestamp)
    ensures
        r.secs >= 0,
        r.nanos < 1_000_000_000,
        utc_text(r.secs, r.nanos, "%Y-%m-%d"@) is Some,
{
    let d = chrono::Utc::now();
    Timestamp { secs: d.timestamp(), nanos: d.timestamp_subsec_nanos() }
}

/// The day of `ts` as `YYYY-MM-DD` (UTC).
pub fn day_text(ts: Timestamp) -> (r: Option<String>)
    ensures
        opt_text(r) == utc_text(ts.secs, ts.nanos, "%Y-%m-%d"@),
{
    format_utc(ts, "%Y-%m-%d")
}

/// The stamp of a backup taken at `ts`: `YYYYMMDD-HHMMSS` (UTC).
pub fn backup_stamp(ts: Timestamp) -> (r: Option<String>)
    ensures
        opt_text(r) == utc_text(ts.secs, ts.nanos, "%Y%m%d-%H%M%S"@),
{
    format_utc(ts, "%Y%m%d-%H%M%S")
}

/// The RFC 3339 text an instant is stored as.
pub fn stored_time(ts: Timestamp) -> (r: Option<String>)
    ensures
        opt_text(r) == rfc3339_text(ts.secs, ts.nanos),
{
    format_rfc3339(ts)
}

/// The instant a stored text denotes, or `fallback` when it is not RFC 3339.
pub fn read_time(s: &str, fallback: Timestamp) -> (r: Timestamp)
    ensures
        r == match rfc3339_instant(s@) {
            Some(t) => t,
            None => fallback,
        },
{
    match parse_rfc3339(s) {
        Some(t) => t,
        None => fallback,
    }
}

} // verus!
