//! The calendar value model: dates, clock times, and combined instants,
//! together with calendar validity, ordering, weekday and epoch-day
//! arithmetic, and the Unix-timestamp conversion used for a fixed UTC+7
//! wall clock.
//!
//! A `CalendarDate` holds a Gregorian year in 1..=9999; Buddhist-era years
//! appear only in rendered or parsed text, never in stored values. A
//! `ClockTime` holds hour and minute alone: seconds are normalized to zero
//! throughout this crate.

use vstd::prelude::*;

verus! {

/// A Gregorian calendar date.
#[derive(Clone, Copy, PartialEq, Eq, Structural, Debug)]
pub struct CalendarDate {
    pub year: i32,
    pub month: u8,
    pub day: u8,
}

/// A wall-clock time of day, seconds normalized to zero.
#[derive(Clone, Copy, PartialEq, Eq, Structural, Debug)]
pub struct ClockTime {
    pub hour: u8,
    pub minute: u8,
}

/// A calendar date paired with a clock time.
#[derive(Clone, Copy, PartialEq, Eq, Structural, Debug)]
pub struct CalendarInstant {
    pub date: CalendarDate,
    pub time: ClockTime,
}

/// Gregorian leap-year rule.
pub open spec fn is_leap_year(y: int) -> bool {
    y % 4 == 0 && (y % 100 != 0 || y % 400 == 0)
}

/// Number of days of month `m` in year `y`, for `m` in 1..=12.
pub open spec fn days_in_month(y: int, m: int) -> int {
    if m == 2 {
        if is_leap_year(y) {
            29
        } else {
            28
        }
    } else if m == 4 || m == 6 || m == 9 || m == 11 {
        30
    } else {
        31
    }
}

/// A real calendar day with a year this model supports.
pub open spec fn ymd_valid(y: int, m: int, d: int) -> bool {
    1 <= y <= 9999 && 1 <= m <= 12 && 1 <= d <= days_in_month(y, m)
}

/// Validity of a stored date.
pub open spec fn date_valid(d: CalendarDate) -> bool {
    ymd_valid(d.year as int, d.month as int, d.day as int)
}

/// Validity of a stored clock time.
pub open spec fn time_valid(t: ClockTime) -> bool {
    t.hour < 24 && t.minute < 60
}

/// Validity of a stored instant.
pub open spec fn instant_valid(i: CalendarInstant) -> bool {
    date_valid(i.date) && time_valid(i.time)
}

/// Days since 1970-01-01 of the given calendar day (negative before it).
pub open spec fn days_from_epoch(y: int, m: int, d: int) -> int {
    let yy = if m <= 2 {
        y - 1
    } else {
        y
    };
    let era = yy / 400;
    let yoe = yy % 400;
    let mp = if m > 2 {
        m - 3
    } else {
        m + 9
    };
    let doy = (153 * mp + 2) / 5 + d - 1;
    let doe = yoe * 365 + yoe / 4 - yoe / 100 + doy;
    era * 146097 + doe - 719468
}

/// Weekday of a calendar day, 0 = Sunday .. 6 = Saturday.
pub open spec fn weekday_of(y: int, m: int, d: int) -> int {
    (days_from_epoch(y, m, d) + 719163) % 7
}

/// Strict ordering of dates at day resolution.
pub open spec fn date_before(a: CalendarDate, b: CalendarDate) -> bool {
    a.year < b.year || (a.year == b.year && (a.month < b.month || (a.month == b.month && a.day
        < b.day)))
}

/// Strict ordering of instants at minute resolution.
pub open spec fn instant_before(a: CalendarInstant, b: CalendarInstant) -> bool {
    date_before(a.date, b.date) || (a.date == b.date && (a.time.hour < b.time.hour || (a.time.hour
        == b.time.hour && a.time.minute < b.time.minute)))
}

/// The calendar day before `d`, or nothing at the lower edge of the model.
pub open spec fn prev_day_spec(d: CalendarDate) -> Option<CalendarDate> {
    if d.day > 1 {
        Some(CalendarDate { year: d.year, month: d.month, day: (d.day - 1) as u8 })
    } else if d.month > 1 {
        Some(
            CalendarDate {
                year: d.year,
                month: (d.month - 1) as u8,
                day: days_in_month(d.year as int, d.month - 1) as u8,
            },
        )
    } else if d.year > 1 {
        Some(CalendarDate { year: (d.year - 1) as i32, month: 12, day: 31 })
    } else {
        None
    }
}

impl CalendarDate {
    /// Builds a date after checking calendar validity.
    pub fn checked(year: i32, month: u8, day: u8) -> (r: Option<CalendarDate>)
        ensures
            ymd_valid(year as int, month as int, day as int) ==> r == Some(
                CalendarDate { year, month, day },
            ),
            !ymd_valid(year as int, month as int, day as int) ==> r is None,
            r is Some ==> date_valid(r->0),
    {
        if 1 <= year && year <= 9999 && 1 <= month && month <= 12 && 1 <= day && day
            <= month_length(year, month) {
            Some(CalendarDate { year, month, day })
        } else {
            None
        }
    }
}

impl ClockTime {
    /// Builds a time after checking the hour and minute ranges.
    pub fn checked(hour: u8, minute: u8) -> (r: Option<ClockTime>)
        ensures
            hour < 24 && minute < 60 ==> r == Some(ClockTime { hour, minute }),
            !(hour < 24 && minute < 60) ==> r is None,
            r is Some ==> time_valid(r->0),
    {
        if hour < 24 && minute < 60 {
            Some(ClockTime { hour, minute })
        } else {
            None
        }
    }
}

/// Number of days of month `m` in year `y`.
pub fn month_length(y: i32, m: u8) -> (r: u8)
    requires
        1 <= m <= 12,
    ensures
        r == days_in_month(y as int, m as int),
{
    if m == 2 {
        if (y % 4 == 0 && y % 100 != 0) || y % 400 == 0 {
            29
        } else {
            28
        }
    } else if m == 4 || m == 6 || m == 9 || m == 11 {
        30
    } else {
        31
    }
}

/// Days since 1970-01-01.
pub fn day_number(y: i32, m: u8, d: u8) -> (r: i64)
    requires
        ymd_valid(y as int, m as int, d as int),
    ensures
        r == days_from_epoch(y as int, m as int, d as int),
{
    let yy: i64 = if m <= 2 {
        y as i64 - 1
    } else {
        y as i64
    };
    let era: i64 = yy / 400;
    let yoe: i64 = yy % 400;
    let mp: i64 = if m > 2 {
        m as i64 - 3
    } else {
        m as i64 + 9
    };
    let doy: i64 = (153 * mp + 2) / 5 + d as i64 - 1;
    let doe: i64 = yoe * 365 + yoe / 4 - yoe / 100 + doy;
    era * 146097 + doe - 719468
}

/// Weekday of a date, 0 = Sunday .. 6 = Saturday.
pub fn weekday_number(d: &CalendarDate) -> (r: u8)
    requires
        date_valid(*d),
    ensures
        r == weekday_of(d.year as int, d.month as int, d.day as int),
        r < 7,
{
    let days: i64 = day_number(d.year, d.month, d.day);
    ((days + 719163) % 7) as u8
}

/// Whether `a` denotes an earlier day than `b`.
pub fn date_is_before(a: &CalendarDate, b: &CalendarDate) -> (r: bool)
    ensures
        r == date_before(*a, *b),
{
    a.year < b.year || (a.year == b.year && (a.month < b.month || (a.month == b.month && a.day
        < b.day)))
}

/// Whether `a` denotes an earlier minute than `b`.
pub fn instant_is_before(a: &CalendarInstant, b: &CalendarInstant) -> (r: bool)
    ensures
        r == instant_before(*a, *b),
{
    if date_is_before(&a.date, &b.date) {
        true
    } else if a.date == b.date {
        a.time.hour < b.time.hour || (a.time.hour == b.time.hour && a.time.minute < b.time.minute)
    } else {
        false
    }
}

/// The calendar day before `d`, or nothing at the lower edge of the model.
pub fn previous_day(d: &CalendarDate) -> (r: Option<CalendarDate>)
    requires
        date_valid(*d),
    ensures
        r == prev_day_spec(*d),
        r is Some ==> date_valid(r->0),
{
    if d.day > 1 {
        Some(CalendarDate { year: d.year, month: d.month, day: d.day - 1 })
    } else if d.month > 1 {
        Some(
            CalendarDate {
                year: d.year,
                month: d.month - 1,
                day: month_length(d.year, d.month - 1),
            },
        )
    } else if d.year > 1 {
        Some(CalendarDate { year: d.year - 1, month: 12, day: 31 })
    } else {
        None
    }
}

/// Unix timestamp in milliseconds of an instant (plus explicit seconds)
/// read on a UTC+7 wall clock.
pub fn datetime_ts(date_time: &CalendarInstant, second: u8) -> (r: i64)
    requires
        instant_valid(*date_time),
        second < 60,
    ensures
        r == (days_from_epoch(
            date_time.date.year as int,
            date_time.date.month as int,
            date_time.date.day as int,
        ) * 86400 + date_time.time.hour * 3600 + date_time.time.minute * 60 + second - 25200)
            * 1000,
{
    let days: i64 = day_number(date_time.date.year, date_time.date.month, date_time.date.day);
    (days * 86400 + date_time.time.hour as i64 * 3600 + date_time.time.minute as i64 * 60
        + second as i64 - 25200) * 1000
}

/// Minutes-after-midnight key of a clock time, as the picker computes it:
/// the hour scaled by 24 rather than 60, kept for compatibility with the
/// values the picker has always produced.
pub fn minutes_after_midnight(t: &ClockTime) -> (r: u16)
    requires
        time_valid(*t),
    ensures
        r == t.hour * 24 + t.minute,
{
    let h: u16 = t.hour as u16;
    let m: u16 = t.minute as u16;
    h * 24 + m
}

} // verus!
