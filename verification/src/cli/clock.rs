//! Wall-clock readings in the machine's local time zone, and date arithmetic.

use vstd::prelude::*;
use chrono::TimeZone;

verus! {

/// Calls `chrono::Local::now()` and formats it with `"%Y-%m-%d"`.
/// Which date it is depends on the clock and the time zone and is not
/// stated; chrono pads `%Y` to at least four digits and `%m`, `%d` to two, so
/// the text has at least ten characters.
#[verifier::external_body]
pub(crate) fn local_today() -> (r: String)
    ensures
        r@.len() >= 10,
{
    chrono::Local::now().format("%Y-%m-%d").to_string()
}

/// The calendar date `days` days before the `YYYY-MM-DD` date `date`, as
/// `YYYY-MM-DD`; `None` where `date` does not parse or the result leaves
/// chrono's date range. It depends on its arguments alone.
pub uninterp spec fn date_minus_days(date: Seq<char>, days: nat) -> Option<Seq<char>>;

/// Parses `date` with `chrono::NaiveDate::parse_from_str(date, "%Y-%m-%d")`,
/// subtracts `days` with `NaiveDate::checked_sub_days` and formats the result
/// with `"%Y-%m-%d"`; a parse error or an out-of-range result gives `None`.
/// The contract only names the result: calendar arithmetic is chrono's.
#[verifier::external_body]
pub(crate) fn date_days_before(date: &str, days: u64) -> (r: Option<String>)
    ensures
        match r {
            Some(s) => date_minus_days(date@, days as nat) == Some(s@),
            None => date_minus_days(date@, days as nat) is None,
        },
{
    match chrono::NaiveDate::parse_from_str(date, "%Y-%m-%d") {
        Ok(d) => match d.checked_sub_days(chrono::Days::new(days)) {
            Some(p) => Some(p.format("%Y-%m-%d").to_string()),
            None => None,
        },
        Err(_) => None,
    }
}

/// Calls `chrono::Local.timestamp_opt(unix, 0).single()` and formats a
/// single local time with `"%H:%M:%S"`; `None` where the local time is not
/// unique. Which time it is depends on the time zone and is not stated;
/// `%H`, `%M` and `%S` are two digits each, so a time has eight characters.
#[verifier::external_body]
pub(crate) fn local_clock_time(unix: i64) -> (r: Option<String>)
    ensures
        r matches Some(t) ==> t@.len() == 8,
{
    match chrono::Local.timestamp_opt(unix, 0).single() {
        Some(dt) => Some(dt.format("%H:%M:%S").to_string()),
        None => None,
    }
}

/// Calls `chrono::Local.timestamp_opt(unix, 0).single()` and formats a
/// single local time with `"%Y-%m-%dT%H:%M:%S"` (no zone suffix); `None`
/// where the local time is not unique. Which time it is depends on the
/// time zone and is not stated; `%Y` has at least four digits and the other
/// fields two, so the text has at least nineteen characters.
#[verifier::external_body]
pub(crate) fn local_date_time(unix: i64) -> (r: Option<String>)
    ensures
        r matches Some(t) ==> t@.len() >= 19,
{
    match chrono::Local.timestamp_opt(unix, 0).single() {
        Some(dt) => Some(dt.format("%Y-%m-%dT%H:%M:%S").to_string()),
        None => None,
    }
}

/// The text shown for a time: the time itself, or `"N/A"` when there is none.
pub open spec fn time_shown(t: Option<Seq<char>>) -> Seq<char> {
    match t {
        Some(s) => s,
        None => "N/A"@,
    }
}

/// The text shown for a formatted time, `"N/A"` when there is none.
pub fn shown_time(t: Option<String>) -> (r: String)
    ensures
        r@ == time_shown(match t {
            Some(s) => Some(s@),
            None => None,
        }),
{
    match t {
        Some(s) => s,
        None => "N/A".to_owned(),
    }
}

/// A shown clock time: eight characters `HH:MM:SS`, or `"N/A"`.
pub open spec fn clock_text(t: Seq<char>) -> bool {
    t.len() == 8 || t == "N/A"@
}

/// A shown date and time: at least nineteen characters
/// `YYYY-MM-DDTHH:MM:SS`, or `"N/A"`.
pub open spec fn date_time_text(t: Seq<char>) -> bool {
    t.len() >= 19 || t == "N/A"@
}

/// A Unix time as local `HH:MM:SS`, or `"N/A"`.
pub(crate) fn format_unix_local(unix: i64) -> (r: String)
    ensures
        clock_text(r@),
{
    shown_time(local_clock_time(unix))
}

/// A Unix time as local `YYYY-MM-DDTHH:MM:SS`, or `"N/A"`.
pub(crate) fn format_unix_iso(unix: i64) -> (r: String)
    ensures
        date_time_text(r@),
{
    shown_time(local_date_time(unix))
}

} // verus!
