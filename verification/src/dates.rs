//! Dates of stored runs, written in UTC by chrono.
use vstd::prelude::*;
use crate::text::{opt_view, string_from};

verus! {

/// The UTC date and time of `secs` seconds after the Unix epoch, written with the
/// `strftime` pattern `pattern`, as chrono writes it; `None` where chrono's
/// calendar cannot hold that instant.
pub uninterp spec fn utc_time_text(secs: int, pattern: Seq<char>) -> Option<Seq<char>>;

/// The three patterns the runs are shown with; chrono accepts each of them.
pub open spec fn known_pattern(pattern: Seq<char>) -> bool {
    pattern == "%m-%d %H:%M"@ || pattern == "%Y-%m-%d %H:%M"@ || pattern == "%Y-%m-%d %H:%M:%S"@
}

/// Calls `chrono::DateTime::from_timestamp(secs, 0)` and writes the instant with
/// `DateTime::format(pattern)`. The contract claims only that the result is a
/// function of the two arguments (`utc_time_text`): chrono formats in UTC, with no
/// locale and no clock involved. Which instants chrono can hold, and the text
/// itself, are left to chrono. The patterns are limited to the valid ones this
/// library uses, since writing an invalid pattern panics.
#[verifier::external_body]
fn format_utc(secs: i64, pattern: &str) -> (r: Option<String>)
    requires
        known_pattern(pattern@),
    ensures
        opt_view(r) == utc_time_text(secs as int, pattern@),
{
    match chrono::DateTime::from_timestamp(secs, 0) {
        Some(dt) => Some(dt.format(pattern).to_string()),
        None => None,
    }
}

/// The date written, or `fallback` when there is none.
pub open spec fn date_or(date: Option<Seq<char>>, fallback: Seq<char>) -> Seq<char> {
    match date {
        Some(d) => d,
        None => fallback,
    }
}

/// The date written, or `fallback` when the instant could not be written.
pub fn date_text_or(date: Option<String>, fallback: &str) -> (r: String)
    ensures
        r@ == date_or(opt_view(date), fallback@),
{
    match date {
        Some(d) => d,
        None => string_from(fallback),
    }
}

/// The date of a run in the history list: month, day and time to the minute;
/// "-" when it cannot be written.
pub fn history_date_text(ts: i64) -> (r: String)
    ensures
        r@ == date_or(utc_time_text(ts as int, "%m-%d %H:%M"@), "-"@),
{
    date_text_or(format_utc(ts, "%m-%d %H:%M"), "-")
}

/// The date of a run in the comparison dialog and the comparison image: the full
/// date and time to the minute; empty when it cannot be written.
pub fn compare_date_text(ts: i64) -> (r: String)
    ensures
        r@ == date_or(utc_time_text(ts as int, "%Y-%m-%d %H:%M"@), Seq::empty()),
{
    let r = date_text_or(format_utc(ts, "%Y-%m-%d %H:%M"), "");
    proof {
        reveal_strlit("");
    }
    r
}

/// The date of a run in the details dialog and the exported history: the full
/// date and time to the second; "-" when it cannot be written.
pub fn full_date_text(ts: i64) -> (r: String)
    ensures
        r@ == date_or(utc_time_text(ts as int, "%Y-%m-%d %H:%M:%S"@), "-"@),
{
    date_text_or(format_utc(ts, "%Y-%m-%d %H:%M:%S"), "-")
}

} // verus!
