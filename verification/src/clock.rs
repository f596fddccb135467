//! Local-time texts of UNIX timestamps. What they give depends on the UTC
//! offset of the machine's time zone at that instant; the contracts state the
//! text exactly for some offset of less than a day, and which offset it was
//! is left open.

use vstd::prelude::*;
use chrono::Datelike;
use chrono::TimeZone;
use crate::text::digit_char;

verus! {

/// The timestamps that `chrono` can place on its calendar: from the first
/// second of -262143-01-01 (day -96465292 of the UNIX epoch, so
/// -96465292 * 86400 seconds) to the last second of 262142-12-31.
/// `DateTime::from_timestamp` returns `None` one second outside either end,
/// and `TimeZone::timestamp_opt` with it, which the original unwraps.
pub open spec fn timestamp_supported_spec(ts: int) -> bool {
    -8334601228800 <= ts <= 8210266876799
}

/// Whether a UNIX timestamp lies in the range the calendar covers.
pub fn timestamp_supported(ts: i64) -> (r: bool)
    ensures
        r == timestamp_supported_spec(ts as int),
{
    -8334601228800i64 <= ts && ts <= 8210266876799i64
}

/// A UTC offset that chrono's `FixedOffset` can hold: less than a day either way.
pub open spec fn offset_in_range(off: int) -> bool {
    -86400 < off < 86400
}

/// The hour (0 to 23) of the local time `ts + off`.
pub open spec fn hour_at(ts: int, off: int) -> int {
    ((ts + off) % 86400) / 3600
}

/// The minute (0 to 59) of the local time `ts + off`.
pub open spec fn minute_at(ts: int, off: int) -> int {
    ((ts + off) % 3600) / 60
}

/// The hour on a 12-hour clock: 12, 1, ..., 11.
pub open spec fn hour12(h: int) -> int {
    if h % 12 == 0 {
        12
    } else {
        h % 12
    }
}

/// A number below 100 in two places, the first padded with `pad` below 10.
pub open spec fn two_places(n: int, pad: char) -> Seq<char> {
    seq![if n < 10 { pad } else { digit_char((n / 10) as nat) }, digit_char((n % 10) as nat)]
}

/// "AM" before noon, "PM" from noon on.
pub open spec fn am_pm(h: int) -> Seq<char> {
    if h < 12 {
        "AM"@
    } else {
        "PM"@
    }
}

/// The two clock patterns the widget writes times with.
pub open spec fn clock_pattern(pattern: Seq<char>) -> bool {
    pattern == "%l:%M %p"@ || pattern == "%l%p"@
}

/// What chrono's `strftime` writes for the instant `ts` at the offset `off`:
/// with `"%l%p"` the 12-hour clock hour padded with a space and "AM"/"PM"
/// (" 3PM"); with `"%l:%M %p"` also the minutes in two digits (" 7:04 AM").
pub open spec fn clock_text_at(ts: int, off: int, pattern: Seq<char>) -> Seq<char> {
    let h = hour_at(ts, off);
    if pattern == "%l%p"@ {
        two_places(hour12(h), ' ') + am_pm(h)
    } else {
        two_places(hour12(h), ' ') + seq![':'] + two_places(minute_at(ts, off), '0') + seq![' ']
            + am_pm(h)
    }
}

/// `s` is what the clock writes for `ts` with `pattern` at some UTC offset.
pub open spec fn is_local_clock_text(s: Seq<char>, ts: int, pattern: Seq<char>) -> bool {
    exists|off: int| offset_in_range(off) && s == #[trigger] clock_text_at(ts, off, pattern)
}

/// The local date of the instant `ts` at the offset `off`, counted in days
/// from the common era as `Datelike::num_days_from_ce` counts them
/// (0001-01-01 is day 1, 1970-01-01 day 719163).
pub open spec fn local_day_at(ts: int, off: int) -> int {
    (ts + off) / 86400 + 719163
}

/// The English abbreviation that `%a` writes for a day counted from the
/// common era (day 1 was a Monday).
pub open spec fn weekday_text(day: int) -> Seq<char> {
    let w = day % 7;
    if w == 0 {
        "Sun"@
    } else if w == 1 {
        "Mon"@
    } else if w == 2 {
        "Tue"@
    } else if w == 3 {
        "Wed"@
    } else if w == 4 {
        "Thu"@
    } else if w == 5 {
        "Fri"@
    } else {
        "Sat"@
    }
}

/// `day` and `weekday` are the local date of `ts` and its weekday, both at
/// one and the same UTC offset.
pub open spec fn is_local_date(day: int, weekday: Seq<char>, ts: int) -> bool {
    exists|off: int|
        offset_in_range(off) && day == #[trigger] local_day_at(ts, off) && weekday == weekday_text(day)
}

/// `Utc.timestamp_opt(ts, 0)`, turned into the machine's local time with
/// `From<DateTime<Utc>> for DateTime<Local>`, written with `DateTime::format`
/// and `to_string`. The local offset is a `FixedOffset`, which chrono keeps
/// within a day either way, and the formatter writes the local time
/// `ts + offset` as `clock_text_at` says. Which offset the zone gives is not
/// stated. For every timestamp the `requires` admits, `timestamp_opt` gives a
/// single value and formatting does not fail; reading the zone panics if the
/// system's zone data cannot classify the instant, which is not stated either.
#[verifier::external_body]
pub(crate) fn local_time_text(ts: i64, pattern: &str) -> (r: String)
    requires
        timestamp_supported_spec(ts as int),
        clock_pattern(pattern@),
    ensures
        is_local_clock_text(r@, ts as int, pattern@),
{
    let local: chrono::DateTime<chrono::Local> = chrono::Utc.timestamp_opt(ts, 0).unwrap().into();
    local.format(pattern).to_string()
}

/// The local date of a timestamp: `Datelike::num_days_from_ce` and the `%a`
/// text of one `DateTime<Local>`, so both belong to the same UTC offset
/// (kept within a day by `FixedOffset`). Both read the local time through
/// chrono's overflowing conversion and do not panic in the calendar's range.
/// Which offset the zone gives is not stated, nor the panic of reading zone
/// data that cannot classify the instant.
#[verifier::external_body]
pub(crate) fn local_date(ts: i64) -> (r: (i32, String))
    requires
        timestamp_supported_spec(ts as int),
    ensures
        is_local_date(r.0 as int, r.1@, ts as int),
{
    let local: chrono::DateTime<chrono::Local> = chrono::Utc.timestamp_opt(ts, 0).unwrap().into();
    (local.num_days_from_ce(), local.format("%a").to_string())
}

} // verus!
