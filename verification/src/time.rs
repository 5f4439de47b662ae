//! Clock readings and calendar renderings of [`Timestamp`]s, through `chrono`.

use vstd::prelude::*;
use crate::types::Timestamp;

verus! {

/// Reads the system clock: `chrono::Utc::now()`, split into whole seconds since the epoch
/// (`timestamp`) and the nanoseconds within the second (`timestamp_subsec_nanos`).
/// The reading depends on the time of the call, so no property of it is stated.
#[verifier::external_body]
pub(crate) fn now_utc() -> (t: Timestamp) {
    let now = chrono::Utc::now();
    Timestamp { secs: now.timestamp(), nanos: now.timestamp_subsec_nanos() }
}

/// The text that `chrono` renders for the instant `(secs, nanos)` with the pattern `%H:%M:%S`
/// (empty when `chrono::DateTime::from_timestamp` rejects the instant).
pub uninterp spec fn clock_text(secs: i64, nanos: u32) -> Seq<char>;

/// The text that `chrono` renders for the instant `(secs, nanos)` with the pattern
/// `%Y-%m-%d %H:%M:%S UTC` (empty when `chrono::DateTime::from_timestamp` rejects the instant).
pub uninterp spec fn calendar_text(secs: i64, nanos: u32) -> Seq<char>;

/// `chrono::DateTime::from_timestamp(secs, nanos)` formatted with `%H:%M:%S`
/// (`DateTime::format`, then `to_string`); the empty string when the instant is out of
/// chrono's range. The result is named by [`clock_text`], a function of the instant alone.
#[verifier::external_body]
pub(crate) fn format_clock(t: Timestamp) -> (s: String)
    ensures
        s@ == clock_text(t.secs, t.nanos),
{
    match chrono::DateTime::from_timestamp(t.secs, t.nanos) {
        Some(dt) => dt.format("%H:%M:%S").to_string(),
        None => String::new(),
    }
}

/// `chrono::DateTime::from_timestamp(secs, nanos)` formatted with `%Y-%m-%d %H:%M:%S UTC`
/// (`DateTime::format`, then `to_string`); the empty string when the instant is out of
/// chrono's range. The result is named by [`calendar_text`], a function of the instant alone.
#[verifier::external_body]
pub(crate) fn format_calendar(t: Timestamp) -> (s: String)
    ensures
        s@ == calendar_text(t.secs, t.nanos),
{
    match chrono::DateTime::from_timestamp(t.secs, t.nanos) {
        Some(dt) => dt.format("%Y-%m-%d %H:%M:%S UTC").to_string(),
        None => String::new(),
    }
}

} // verus!
