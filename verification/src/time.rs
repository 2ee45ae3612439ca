//! Calendar dates and UTC timestamps.
//!
//! Parsing of `YYYY-MM-DD` dates and rendering of timestamps are done by
//! `chrono`, behind the trusted wrappers of this module; the day count of a
//! civil date (what `NaiveDate::and_hms_opt(0, 0, 0)...timestamp()` yields)
//! is computed and proved here.

use vstd::prelude::*;
use chrono::Datelike;
use vstd::string::*;
use crate::text::digit_char;

verus! {

broadcast use vstd::string::group_string_axioms;

/// Smallest and largest years of a `chrono::NaiveDate` (chrono's
/// `MIN_YEAR` and `MAX_YEAR`).
pub open spec fn min_date_year() -> int { -262143 }

pub open spec fn max_date_year() -> int { 262142 }

pub open spec fn is_leap_year(y: int) -> bool {
    y % 4 == 0 && (y % 100 != 0 || y % 400 == 0)
}

pub open spec fn days_in_month(y: int, m: int) -> int {
    if m == 2 {
        if is_leap_year(y) { 29 } else { 28 }
    } else if m == 4 || m == 6 || m == 9 || m == 11 {
        30
    } else {
        31
    }
}

/// A date of the proleptic Gregorian calendar within chrono's years.
pub open spec fn is_valid_date(y: int, m: int, d: int) -> bool {
    &&& min_date_year() <= y <= max_date_year()
    &&& 1 <= m <= 12
    &&& 1 <= d <= days_in_month(y, m)
}

/// What `NaiveDate::parse_from_str(s, "%Y-%m-%d")` yields, as year, month and day.
pub uninterp spec fn chrono_ymd(s: Seq<char>) -> Option<(i32, u32, u32)>;

/// Calls `chrono::NaiveDate::parse_from_str(s, "%Y-%m-%d")` and reads the
/// year, month and day of the result. The contract names the result
/// `chrono_ymd(s@)` and states what chrono documents of a `NaiveDate`: it is
/// a valid calendar date within chrono's year range. Which strings chrono
/// accepts is not stated.
#[verifier::external_body]
pub(crate) fn parse_ymd(s: &str) -> (res: Option<(i32, u32, u32)>)
    ensures
        res == chrono_ymd(s@),
        res matches Some((y, m, d)) ==> is_valid_date(y as int, m as int, d as int),
{
    match chrono::NaiveDate::parse_from_str(s, "%Y-%m-%d") {
        Ok(date) => Some((date.year(), date.month(), date.day())),
        Err(_) => None,
    }
}

/// Unix seconds of the first and last second that chrono can represent:
/// the start of January 1 of year -262143 and the end of December 31 of
/// year 262142.
pub open spec fn min_instant_secs() -> int { -8_334_601_228_800 }

pub open spec fn max_instant_secs() -> int { 8_210_266_876_799 }

/// Whether `DateTime::from_timestamp(secs, nanos)` gives an instant: the
/// second lies within chrono's years, and the nanoseconds are below one
/// second, or below two on a second that ends a minute (a leap second).
pub open spec fn chrono_instant_exists(secs: int, nanos: int) -> bool {
    &&& min_instant_secs() <= secs <= max_instant_secs()
    &&& (nanos < 1_000_000_000 || (nanos < 2_000_000_000 && (secs % 86400) % 60 == 59))
}

/// What `DateTime::from_timestamp(secs, nanos)` formatted with
/// `"%Y-%m-%dT%H:%M:%S"` yields (`None` where chrono has no such instant).
pub uninterp spec fn chrono_iso_text(secs: i64, nanos: u32) -> Option<Seq<char>>;

/// Calls `chrono::DateTime::from_timestamp(secs, nanos)` and formats the
/// instant with `"%Y-%m-%dT%H:%M:%S"`. The text is named
/// `chrono_iso_text(secs, nanos)`; stated besides is when chrono has an
/// instant at all, as `from_timestamp`, `NaiveDate::from_num_days_from_ce_opt`
/// and `NaiveTime::from_num_seconds_from_midnight_opt` decide it.
#[verifier::external_body]
pub(crate) fn iso_text(secs: i64, nanos: u32) -> (res: Option<String>)
    ensures
        res matches Some(t) ==> chrono_iso_text(secs, nanos) == Some(t@),
        res is None ==> chrono_iso_text(secs, nanos) is None,
        res is Some <==> chrono_instant_exists(secs as int, nanos as int),
{
    match chrono::DateTime::from_timestamp(secs, nanos) {
        Some(instant) => Some(instant.format("%Y-%m-%dT%H:%M:%S").to_string()),
        None => None,
    }
}

/// Two decimal digits of `n` (below 100), as `%H` and `%M` print them.
pub open spec fn two_digits(n: int) -> Seq<char> {
    seq![digit_char((n / 10) as nat), digit_char((n % 10) as nat)]
}

/// The `"%H:%M"` text of the UTC time `secs` seconds after the epoch: the
/// hour and minute of its second of the day.
pub open spec fn hour_minute_of_secs(secs: int) -> Seq<char> {
    let of_day = secs % 86400;
    two_digits(of_day / 3600) + seq![':'] + two_digits((of_day % 3600) / 60)
}

/// Calls `chrono::DateTime::from_timestamp(secs, nanos)` and formats the
/// instant with `"%H:%M"`: the zero-padded hour and minute of the second
/// of the day (`secs.rem_euclid(86_400)`), which is what `from_timestamp`
/// keeps as the time. It has an instant exactly as `iso_text` states.
#[verifier::external_body]
pub(crate) fn hour_minute_text(secs: i64, nanos: u32) -> (res: Option<String>)
    ensures
        res is Some <==> chrono_instant_exists(secs as int, nanos as int),
        res matches Some(t) ==> t@ == hour_minute_of_secs(secs as int),
{
    match chrono::DateTime::from_timestamp(secs, nanos) {
        Some(instant) => Some(instant.format("%H:%M").to_string()),
        None => None,
    }
}

/// A point in time: whole seconds since the Unix epoch and the nanoseconds
/// past that second.
#[derive(Clone, Copy, Debug, PartialEq, Eq, Structural)]
pub struct Instant {
    pub secs: i64,
    pub nanos: u32,
}

/// `a` comes strictly after `b`.
pub open spec fn is_after(a: Instant, b: Instant) -> bool {
    a.secs > b.secs || (a.secs == b.secs && a.nanos > b.nanos)
}

/// `t` moved `secs` seconds later.
pub open spec fn shifted(t: Instant, secs: int) -> Instant {
    Instant { secs: (t.secs + secs) as i64, nanos: t.nanos }
}

/// What `DateTime::parse_from_rfc3339(s)` yields, as its Unix seconds and
/// the nanoseconds past them.
pub uninterp spec fn chrono_rfc3339(s: Seq<char>) -> Option<Instant>;

/// Calls `chrono::DateTime::parse_from_rfc3339(s)` and reads `timestamp()`
/// and `timestamp_subsec_nanos()` of the result. The instant is named
/// `chrono_rfc3339(s@)`; stated besides is what chrono's types hold: a
/// nanosecond count below two seconds (a leap second runs past one) and
/// seconds within chrono's range of about 262,000 years from 1970. Which
/// strings chrono accepts is not stated.
#[verifier::external_body]
pub(crate) fn parse_rfc3339(s: &str) -> (res: Option<Instant>)
    ensures
        res == chrono_rfc3339(s@),
        res matches Some(t) ==> instant_in_range(t),
{
    match chrono::DateTime::parse_from_rfc3339(s) {
        Ok(dt) => Some(Instant { secs: dt.timestamp(), nanos: dt.timestamp_subsec_nanos() }),
        Err(_) => None,
    }
}

/// What `DateTime::parse_from_str(s, "%Y-%m-%dT%H:%M:%S%.f%:z")` yields,
/// as its Unix seconds and the nanoseconds past them.
pub uninterp spec fn chrono_offset_datetime(s: Seq<char>) -> Option<Instant>;

/// Calls `chrono::DateTime::parse_from_str(s, "%Y-%m-%dT%H:%M:%S%.f%:z")`
/// and reads `timestamp()` and `timestamp_subsec_nanos()` of the result.
/// The instant is named `chrono_offset_datetime(s@)`, with the same range
/// facts as `parse_rfc3339`.
#[verifier::external_body]
pub(crate) fn parse_offset_datetime(s: &str) -> (res: Option<Instant>)
    ensures
        res == chrono_offset_datetime(s@),
        res matches Some(t) ==> instant_in_range(t),
{
    match chrono::DateTime::parse_from_str(s, "%Y-%m-%dT%H:%M:%S%.f%:z") {
        Ok(dt) => Some(Instant { secs: dt.timestamp(), nanos: dt.timestamp_subsec_nanos() }),
        Err(_) => None,
    }
}

/// An instant within what chrono can represent.
pub open spec fn instant_in_range(t: Instant) -> bool {
    &&& t.nanos < 2_000_000_000
    &&& -9_000_000_000_000 < t.secs < 9_000_000_000_000
}

/// The instant of an ISO 8601 timestamp: read as RFC 3339 first, then with
/// the pattern `%Y-%m-%dT%H:%M:%S%.f%:z`.
pub open spec fn iso_instant(s: Seq<char>) -> Option<Instant> {
    match chrono_rfc3339(s) {
        Some(t) => Some(t),
        None => chrono_offset_datetime(s),
    }
}

/// Reads an ISO 8601 timestamp, trying RFC 3339 and then the more lenient
/// pattern with a fractional second and a `+hh:mm` offset.
pub fn parse_instant(s: &str) -> (res: Option<Instant>)
    ensures
        res == iso_instant(s@),
        res matches Some(t) ==> instant_in_range(t),
{
    match parse_rfc3339(s) {
        Some(t) => Some(t),
        None => parse_offset_datetime(s),
    }
}

/// Milliseconds since the Unix epoch of `t`, as chrono's
/// `timestamp_millis` counts them.
pub open spec fn instant_millis(t: Instant) -> int {
    t.secs * 1000 + t.nanos / 1_000_000
}

pub fn millis_of(t: Instant) -> (res: i64)
    requires
        instant_in_range(t),
    ensures
        res == instant_millis(t),
{
    t.secs * 1000 + (t.nanos / 1_000_000) as i64
}

pub open spec fn days_in_year(y: int) -> int {
    if is_leap_year(y) { 366 } else { 365 }
}

/// Number of days from January 1, 1970 to January 1 of year `y`
/// (negative before 1970).
pub open spec fn days_before_year(y: int) -> int
    decreases (if y >= 1970 { y - 1970 } else { 1970 - y }),
{
    if y == 1970 {
        0
    } else if y > 1970 {
        days_before_year(y - 1) + days_in_year(y - 1)
    } else {
        days_before_year(y + 1) - days_in_year(y)
    }
}

/// Number of days of year `y` before the first day of month `m`.
pub open spec fn days_before_month(y: int, m: int) -> int
    decreases m,
{
    if m <= 1 {
        0
    } else {
        days_before_month(y, m - 1) + days_in_month(y, m - 1)
    }
}

/// Days from 1970-01-01 to the date `y`-`m`-`d` (negative before).
pub open spec fn epoch_day(y: int, m: int, d: int) -> int {
    days_before_year(y) + days_before_month(y, m) + (d - 1)
}

/// Days from the start of the proleptic year 1 to January 1 of year `y`,
/// in closed form (leap days counted by the rule of 4, 100 and 400).
spec fn year_start(y: int) -> int {
    365 * y + (y - 1) / 4 - (y - 1) / 100 + (y - 1) / 400
}

#[verifier::spinoff_prover]
proof fn lemma_year_start_step(y: int)
    ensures
        year_start(y + 1) - year_start(y) == days_in_year(y),
{
}

proof fn lemma_days_before_year_closed(y: int)
    ensures
        days_before_year(y) == year_start(y) - year_start(1970),
    decreases (if y >= 1970 { y - 1970 } else { 1970 - y }),
{
    if y > 1970 {
        lemma_days_before_year_closed(y - 1);
        lemma_year_start_step(y - 1);
    } else if y < 1970 {
        lemma_days_before_year_closed(y + 1);
        lemma_year_start_step(y);
    }
}

#[verifier::spinoff_prover]
proof fn lemma_year_start_shift(y: int)
    ensures
        year_start(y + 280000) == year_start(y) + 280000 * 365 + 70000 - 2800 + 700,
{
}

proof fn lemma_days_before_month_table(y: int, m: int)
    requires
        1 <= m <= 12,
    ensures
        days_before_month(y, m) == (if m == 1 { 0int } else if m == 2 { 31 } else if m == 3 { 59 }
        else if m == 4 { 90 } else if m == 5 { 120 } else if m == 6 { 151 } else if m == 7 { 181 }
        else if m == 8 { 212 } else if m == 9 { 243 } else if m == 10 { 273 } else if m == 11 {
            304
        } else { 334 }) + (if m > 2 && is_leap_year(y) { 1int } else { 0 }),
    decreases m,
{
    if m > 1 {
        lemma_days_before_month_table(y, m - 1);
    }
}

fn leap_year_exec(y: u64) -> (res: bool)
    ensures
        res == is_leap_year(y as int),
{
    y % 4 == 0 && (y % 100 != 0 || y % 400 == 0)
}

fn year_start_exec(y: u64) -> (res: u64)
    requires
        1 <= y <= 1_000_000,
    ensures
        res == year_start(y as int),
{
    365 * y + (y - 1) / 4 - (y - 1) / 100 + (y - 1) / 400
}

fn days_before_month_exec(y: i32, m: u32) -> (res: u64)
    requires
        1 <= m <= 12,
        min_date_year() <= y <= max_date_year(),
    ensures
        res == days_before_month(y as int, m as int),
        res <= 335,
{
    let leap = leap_year_exec((y as i64 + 280000) as u64);
    proof {
        lemma_days_before_month_table(y as int, m as int);
        assert(is_leap_year(y as int + 280000) == is_leap_year(y as int));
    }
    let table: u64 = if m == 1 {
        0
    } else if m == 2 {
        31
    } else if m == 3 {
        59
    } else if m == 4 {
        90
    } else if m == 5 {
        120
    } else if m == 6 {
        151
    } else if m == 7 {
        181
    } else if m == 8 {
        212
    } else if m == 9 {
        243
    } else if m == 10 {
        273
    } else if m == 11 {
        304
    } else {
        334
    };
    if m > 2 && leap {
        table + 1
    } else {
        table
    }
}

/// The timestamp, in seconds, of midnight UTC at the start of the date
/// `y`-`m`-`d` (what `NaiveDate::and_hms_opt(0, 0, 0)` followed by
/// `and_utc().timestamp()` gives).
pub fn midnight_timestamp(y: i32, m: u32, d: u32) -> (res: i64)
    requires
        is_valid_date(y as int, m as int, d as int),
    ensures
        res == epoch_day(y as int, m as int, d as int) * 86400,
{
    // Shift the year by a multiple of 400 so that all divisions are of
    // positive numbers.
    let start = year_start_exec((y as i64 + 280000) as u64);
    let base = year_start_exec(281970);
    let before_month = days_before_month_exec(y, m);
    proof {
        lemma_days_before_year_closed(y as int);
        lemma_year_start_shift(y as int);
        lemma_year_start_shift(1970);
        assert((y as i64 + 280000) as u64 as int == y as int + 280000);
        assert(start == year_start(y as int + 280000));
        assert(base == year_start(1970int + 280000));
        assert(start - base == days_before_year(y as int));
        assert(before_month <= 335);
    }
    let days: i64 = (start as i64 - base as i64) + before_month as i64 + d as i64 - 1;
    days * 86400
}


/// Seconds of a millisecond timestamp, rounded down (`div_euclid(1000)`).
pub open spec fn floor_secs(ms: i64) -> int {
    ms / 1000
}

/// Nanoseconds of a millisecond timestamp within its second
/// (`rem_euclid(1000) * 1_000_000`).
pub open spec fn floor_nanos(ms: i64) -> int {
    (ms % 1000) * 1_000_000
}

/// Splits a millisecond timestamp the way `DateTime::from_timestamp_millis`
/// does before it calls `DateTime::from_timestamp`.
pub fn split_millis(ms: i64) -> (res: (i64, u32))
    ensures
        res.0 == floor_secs(ms),
        res.1 == floor_nanos(ms),
        res.1 < 1_000_000_000,
{
    if ms >= 0 {
        (ms / 1000, ((ms % 1000) * 1_000_000) as u32)
    } else {
        // -(ms + 1) does not overflow, and for ms < 0:
        // floor(ms / 1000) == -((-(ms + 1)) / 1000) - 1
        let p: i64 = -(ms + 1);
        let q: i64 = p / 1000;
        let secs: i64 = -q - 1;
        let rem: i64 = 999 - p % 1000;
        (secs, (rem * 1_000_000) as u32)
    }
}

/// A millisecond count whose instant chrono can represent.
pub open spec fn millis_in_range(ms: i64) -> bool {
    min_instant_secs() * 1000 <= ms < (max_instant_secs() + 1) * 1000
}

/// The text `"%Y-%m-%dT%H:%M:%S"` of the instant `ms` milliseconds after the
/// epoch, where chrono has one.
pub open spec fn millis_iso_text(ms: i64) -> Option<Seq<char>> {
    chrono_iso_text(floor_secs(ms) as i64, floor_nanos(ms) as u32)
}

/// Formats `DateTime::from_timestamp_millis(ms)` as `"%Y-%m-%dT%H:%M:%S"`,
/// or `"INVALID"` where chrono has no such instant.
pub fn iso_text_of_millis_or_invalid(ms: i64) -> (res: String)
    ensures
        res@ == match millis_iso_text(ms) {
            Some(t) => t,
            None => "INVALID"@,
        },
        millis_iso_text(ms) is Some <==> millis_in_range(ms),
        !millis_in_range(ms) ==> res@ == "INVALID"@,
{
    let (secs, nanos) = split_millis(ms);
    match iso_text(secs, nanos) {
        Some(t) => t,
        None => "INVALID".to_string(),
    }
}

/// The `"%H:%M"` text of `DateTime::from_timestamp_millis(ms)`, falling back
/// to the epoch (`unwrap_or_default`) where chrono has no such instant.
pub open spec fn millis_hour_minute(ms: i64) -> Seq<char> {
    if millis_in_range(ms) {
        hour_minute_of_secs(floor_secs(ms))
    } else {
        hour_minute_of_secs(0)
    }
}

pub fn hour_minute_of_millis(ms: i64) -> (res: String)
    ensures
        res@ == millis_hour_minute(ms),
{
    let (secs, nanos) = split_millis(ms);
    match hour_minute_text(secs, nanos) {
        Some(t) => t,
        None => match hour_minute_text(0, 0) {
            Some(t) => t,
            None => String::new(),
        },
    }
}


proof fn lemma_days_before_month_bound(y: int, m: int)
    requires
        1 <= m <= 12,
    ensures
        days_before_month(y, m) + days_in_month(y, m) <= days_in_year(y),
        days_before_month(y, m) >= 0,
{
    lemma_days_before_month_table(y, m);
}

proof fn lemma_days_before_month_monotone(y: int, m1: int, m2: int)
    requires
        1 <= m1 < m2 <= 12,
    ensures
        days_before_month(y, m1) + days_in_month(y, m1) <= days_before_month(y, m2),
    decreases m2 - m1,
{
    if m2 > m1 + 1 {
        lemma_days_before_month_monotone(y, m1, m2 - 1);
    }
}

proof fn lemma_days_before_year_monotone(y1: int, y2: int)
    requires
        y1 < y2,
    ensures
        days_before_year(y1) + days_in_year(y1) <= days_before_year(y2),
    decreases y2 - y1,
{
    lemma_days_before_year_closed(y1);
    lemma_days_before_year_closed(y1 + 1);
    lemma_year_start_step(y1);
    if y2 > y1 + 1 {
        lemma_days_before_year_monotone(y1 + 1, y2);
        lemma_days_before_year_closed(y2);
    }
}

/// Calendar order of two dates given as (year, month, day).
pub open spec fn date_before(a: (i32, u32, u32), b: (i32, u32, u32)) -> bool {
    ||| a.0 < b.0
    ||| a.0 == b.0 && a.1 < b.1
    ||| a.0 == b.0 && a.1 == b.1 && a.2 < b.2
}

/// One valid date comes before another in the calendar exactly when the
/// timestamp of its midnight is smaller: checking a date range by
/// timestamps (Finage, Finnhub) and by calendar dates (Massive, Tiingo) is
/// the same check.
pub proof fn law_date_order_is_timestamp_order(a: (i32, u32, u32), b: (i32, u32, u32))
    requires
        is_valid_date(a.0 as int, a.1 as int, a.2 as int),
        is_valid_date(b.0 as int, b.1 as int, b.2 as int),
    ensures
        date_before(a, b) <==> epoch_day(a.0 as int, a.1 as int, a.2 as int) < epoch_day(
            b.0 as int,
            b.1 as int,
            b.2 as int,
        ),
        a == b <==> epoch_day(a.0 as int, a.1 as int, a.2 as int) == epoch_day(b.0 as int, b.1 as int, b.2 as int),
{
    assert forall|x: (i32, u32, u32), z: (i32, u32, u32)|
        is_valid_date(x.0 as int, x.1 as int, x.2 as int) && is_valid_date(z.0 as int, z.1 as int, z.2 as int)
            && date_before(x, z) implies epoch_day(x.0 as int, x.1 as int, x.2 as int) < epoch_day(
        z.0 as int,
        z.1 as int,
        z.2 as int,
    ) by {
        lemma_days_before_month_bound(x.0 as int, x.1 as int);
        lemma_days_before_month_bound(z.0 as int, z.1 as int);
        if x.0 < z.0 {
            lemma_days_before_year_monotone(x.0 as int, z.0 as int);
        } else if x.1 < z.1 {
            lemma_days_before_month_monotone(x.0 as int, x.1 as int, z.1 as int);
        }
    }
    if !date_before(a, b) && !date_before(b, a) {
        assert(a == b);
    }
}

/// The first and last seconds that chrono can represent are the first
/// second of its first date and the last second of its last date.
pub proof fn law_instant_bounds_are_date_bounds()
    ensures
        min_instant_secs() == epoch_day(min_date_year(), 1, 1) * 86400,
        max_instant_secs() == (epoch_day(max_date_year(), 12, 31) + 1) * 86400 - 1,
{
    lemma_days_before_year_closed(min_date_year());
    lemma_days_before_year_closed(max_date_year());
    lemma_days_before_month_table(max_date_year(), 12);
    lemma_days_before_month_table(min_date_year(), 1);
    assert(year_start(1970) == 719162 + 365);
    assert(year_start(-262143) == -96465292 + 719162 + 365);
    assert(year_start(262142) == 95026236 - 364 + 719162 + 365);
}

} // verus!
