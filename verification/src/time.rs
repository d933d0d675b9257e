//! Calendar dates, moments of the local clock, the window of a day and
//! wall-clock times of day.

use crate::text::{two_digit_string, two_digits};
use vstd::prelude::*;

verus! {

/// The earliest year that the calendar covers.
pub const MIN_YEAR: i32 = -262143;

/// The latest year that the calendar covers.
pub const MAX_YEAR: i32 = 262142;

/// The seconds of a day.
pub const DAY: i64 = 86400;

/// A bound on the timestamps of the calendar's midnights: every day of the
/// calendar lies within 100 million days of 1970-01-01.
pub const MIDNIGHT_LIMIT: i64 = 8_640_000_000_000;

/// Leap years of the proleptic Gregorian calendar.
pub open spec fn is_leap_year(year: int) -> bool {
    year % 4 == 0 && (year % 100 != 0 || year % 400 == 0)
}

/// The number of days of a month; 0 for a month that does not exist.
pub open spec fn days_in_month(year: int, month: int) -> int {
    if month == 2 {
        if is_leap_year(year) {
            29int
        } else {
            28int
        }
    } else if month == 4 || month == 6 || month == 9 || month == 11 {
        30int
    } else if 1 <= month <= 12 {
        31int
    } else {
        0int
    }
}

/// Whether year, month and day name a day of the calendar.
pub open spec fn is_date(year: int, month: int, day: int) -> bool {
    &&& MIN_YEAR <= year <= MAX_YEAR
    &&& 1 <= month <= 12
    &&& 1 <= day <= days_in_month(year, month)
}

/// The number of days from 0001-01-01 to the first day of `year`: 365 for
/// each year between, and one more for each leap year among them.
pub open spec fn days_before_year(year: int) -> int {
    let past = year - 1;
    365 * past + past / 4 - past / 100 + past / 400
}

/// The number of days from the first day of `year` to the first day of
/// `month`: the lengths of the months before it.
pub open spec fn days_before_month(year: int, month: int) -> int
    decreases month,
{
    if month <= 1 {
        0
    } else {
        days_before_month(year, month - 1) + days_in_month(year, month - 1)
    }
}

/// The number of days from 1970-01-01 to the given date in the proleptic
/// Gregorian calendar; negative before 1970.
pub open spec fn unix_day(year: int, month: int, day: int) -> int {
    days_before_year(year) + days_before_month(year, month) + (day - 1) - 719162
}

/// Minutes past midnight on a clock `offset` seconds east of UTC, at `secs`
/// seconds after the Unix epoch.
pub open spec fn minute_of_day(secs: int, offset: int) -> int {
    ((secs + offset) % 86400) / 60
}

/// The time of day `HH:MM` on a clock `offset` seconds east of UTC, at `secs`
/// seconds after the Unix epoch: 24 hours, zero-padded.
pub open spec fn clock(secs: int, offset: int) -> Seq<char> {
    let m = minute_of_day(secs, offset);
    two_digits(m / 60) + seq![':'] + two_digits(m % 60)
}

/// Whether `year` is a leap year.
pub fn leap_year(year: i32) -> (b: bool)
    ensures
        b == is_leap_year(year as int),
{
    year % 4 == 0 && (year % 100 != 0 || year % 400 == 0)
}

/// Minutes past midnight on a clock `offset` seconds east of UTC, at `secs`
/// seconds after the Unix epoch.
pub fn minute_in_day(secs: i64, offset: i32) -> (m: u32)
    ensures
        m == minute_of_day(secs as int, offset as int),
        m < 1440,
{
    let local: i128 = secs as i128 + offset as i128;
    let within: i128 = local % 86400;
    let second_of_day: i128 = if within < 0 {
        within + 86400
    } else {
        within
    };
    assert(second_of_day == (secs + offset) % 86400);
    (second_of_day / 60) as u32
}

/// Writes the time of day `HH:MM` on a clock `offset` seconds east of UTC, at
/// `secs` seconds after the Unix epoch.
pub fn clock_string(secs: i64, offset: i32) -> (s: String)
    ensures
        s@ == clock(secs as int, offset as int),
{
    let minute = minute_in_day(secs, offset);
    let mut out = two_digit_string(minute / 60);
    out.append(":");
    out.append(two_digit_string(minute % 60).as_str());
    proof {
        reveal_strlit(":");
        assert(out@ =~= clock(secs as int, offset as int));
    }
    out
}

/// A moment of the local clock: the calendar date and time of day that a
/// clock on the wall shows, and the zone's distance from UTC at that moment.
#[derive(Clone, Copy, Debug, PartialEq, Eq)]
pub struct LocalDateTime {
    year: i32,
    month: u32,
    day: u32,
    hour: u32,
    minute: u32,
    second: u32,
    offset: i32,
}

/// What a `LocalDateTime` stands for.
pub struct LocalDateTimeView {
    pub year: int,
    pub month: int,
    pub day: int,
    pub hour: int,
    pub minute: int,
    pub second: int,
    /// Seconds east of UTC.
    pub offset: int,
}

impl LocalDateTimeView {
    /// A date of the calendar, a time of day, and an offset of less than a
    /// day.
    pub open spec fn wf(self) -> bool {
        &&& is_date(self.year, self.month, self.day)
        &&& 0 <= self.hour < 24
        &&& 0 <= self.minute < 60
        &&& 0 <= self.second < 60
        &&& -86400 < self.offset < 86400
    }

    /// Seconds after the Unix epoch of the local midnight that begins this
    /// moment's calendar day, taken at this moment's offset.
    pub open spec fn day_start(self) -> int {
        86400 * unix_day(self.year, self.month, self.day) - self.offset
    }

    /// Seconds after the Unix epoch of this moment.
    pub open spec fn timestamp(self) -> int {
        self.day_start() + 3600 * self.hour + 60 * self.minute + self.second
    }
}

impl View for LocalDateTime {
    type V = LocalDateTimeView;

    closed spec fn view(&self) -> LocalDateTimeView {
        LocalDateTimeView {
            year: self.year as int,
            month: self.month as int,
            day: self.day as int,
            hour: self.hour as int,
            minute: self.minute as int,
            second: self.second as int,
            offset: self.offset as int,
        }
    }
}

/// The Unix timestamp of midnight UTC on a date, from chrono's
/// `NaiveDate::from_ymd_opt`, `NaiveDate::and_hms_opt`,
/// `NaiveDateTime::and_utc` and `DateTime::timestamp`.
///
/// Claimed of chrono: the date is refused exactly when it is no day of the
/// calendar or its year lies outside `MIN_YEAR..=MAX_YEAR`; and the
/// timestamp of a midnight is 86400 times the number of days from 1970-01-01
/// to the date, counted in the proleptic Gregorian calendar.
#[verifier::external_body]
fn midnight_timestamp(year: i32, month: u32, day: u32) -> (r: Option<i64>)
    ensures
        r is Some <==> is_date(year as int, month as int, day as int),
        r matches Some(t) ==> t == 86400 * unix_day(year as int, month as int, day as int),
{
    let date = chrono::NaiveDate::from_ymd_opt(year, month, day)?;
    Some(date.and_hms_opt(0, 0, 0)?.and_utc().timestamp())
}

/// The months before a month of the year hold at most 31 days each.
proof fn lemma_days_before_month_bound(year: int, month: int)
    requires
        1 <= month <= 13,
    ensures
        0 <= days_before_month(year, month) <= 31 * (month - 1),
    decreases month,
{
    if month > 1 {
        lemma_days_before_month_bound(year, month - 1);
    }
}

/// Every day of the calendar lies within 100 million days of 1970-01-01, so
/// the timestamp of its midnight within `MIDNIGHT_LIMIT`.
pub proof fn lemma_unix_day_bound(year: int, month: int, day: int)
    requires
        is_date(year, month, day),
    ensures
        -100_000_000 < unix_day(year, month, day) < 100_000_000,
        -MIDNIGHT_LIMIT < 86400 * unix_day(year, month, day) < MIDNIGHT_LIMIT,
{
    lemma_days_before_month_bound(year, month);
}

/// The day number counts days: 1970-01-01 is day 0; within a month the next
/// day has the next number; the first of a month follows the last day of
/// the month before; and the first of January follows the 31st of December.
pub proof fn lemma_unix_day_counts_days(year: int, month: int, day: int)
    requires
        is_date(year, month, day),
    ensures
        unix_day(1970, 1, 1) == 0,
        day < days_in_month(year, month) ==> unix_day(year, month, day + 1) == unix_day(
            year,
            month,
            day,
        ) + 1,
        day == days_in_month(year, month) && month < 12 ==> unix_day(year, month + 1, 1)
            == unix_day(year, month, day) + 1,
        day == 31 && month == 12 ==> unix_day(year + 1, 1, 1) == unix_day(year, month, day) + 1,
{
    reveal_with_fuel(days_before_month, 13);
}

/// The window of a day on a clock `offset` seconds east of UTC, where
/// `midnight` is the timestamp of midnight UTC on the day's date: from the
/// clock's own midnight to 86400 seconds later.
pub fn window_at(midnight: i64, offset: i32) -> (w: (i64, i64))
    requires
        -MIDNIGHT_LIMIT < midnight < MIDNIGHT_LIMIT,
        -86400 < offset < 86400,
    ensures
        w.0 == midnight - offset,
        w.1 == w.0 + 86400,
{
    let start: i64 = midnight - (offset as i64);
    (start, start + DAY)
}

/// The number of days of a month; 0 for a month that does not exist.
pub fn month_length(year: i32, month: u32) -> (n: u32)
    ensures
        n == days_in_month(year as int, month as int),
{
    if month == 2 {
        if leap_year(year) {
            29
        } else {
            28
        }
    } else if month == 4 || month == 6 || month == 9 || month == 11 {
        30
    } else if 1 <= month && month <= 12 {
        31
    } else {
        0
    }
}

impl LocalDateTime {
    #[verifier::type_invariant]
    spec fn inv(self) -> bool {
        self@.wf()
    }

    /// The moment with the given fields, if they make one.
    pub fn new(
        year: i32,
        month: u32,
        day: u32,
        hour: u32,
        minute: u32,
        second: u32,
        offset: i32,
    ) -> (r: Option<LocalDateTime>)
        ensures
            r is Some <==> (LocalDateTimeView {
                year: year as int,
                month: month as int,
                day: day as int,
                hour: hour as int,
                minute: minute as int,
                second: second as int,
                offset: offset as int,
            }).wf(),
            r matches Some(t) ==> t@ == (LocalDateTimeView {
                year: year as int,
                month: month as int,
                day: day as int,
                hour: hour as int,
                minute: minute as int,
                second: second as int,
                offset: offset as int,
            }),
    {
        if MIN_YEAR <= year && year <= MAX_YEAR && 1 <= month && month <= 12 && 1 <= day && day
            <= month_length(year, month) && hour < 24 && minute < 60 && second < 60 && -86400
            < offset && offset < 86400 {
            Some(LocalDateTime { year, month, day, hour, minute, second, offset })
        } else {
            None
        }
    }

    /// The calendar date of this moment: year, month and day.
    pub fn date(&self) -> (r: (i32, u32, u32))
        ensures
            r.0 == self@.year,
            r.1 == self@.month,
            r.2 == self@.day,
            self@.wf(),
    {
        proof {
            use_type_invariant(self);
        }
        (self.year, self.month, self.day)
    }

    /// The time of day of this moment: hour, minute and second.
    pub fn time(&self) -> (r: (u32, u32, u32))
        ensures
            r.0 == self@.hour,
            r.1 == self@.minute,
            r.2 == self@.second,
            self@.wf(),
    {
        proof {
            use_type_invariant(self);
        }
        (self.hour, self.minute, self.second)
    }

    /// The zone's distance from UTC at this moment, in seconds east.
    pub fn offset(&self) -> (r: i32)
        ensures
            r == self@.offset,
            self@.wf(),
    {
        proof {
            use_type_invariant(self);
        }
        self.offset
    }

    /// Seconds after the Unix epoch of this moment.
    pub fn timestamp(&self) -> (r: i64)
        ensures
            r == self@.timestamp(),
            self@.wf(),
    {
        proof {
            use_type_invariant(self);
            lemma_unix_day_bound(self@.year, self@.month, self@.day);
        }
        let midnight: i64 = midnight_timestamp(self.year, self.month, self.day).unwrap();
        let time_of_day: i64 = 3600 * (self.hour as i64) + 60 * (self.minute as i64) + (
        self.second as i64);
        midnight - (self.offset as i64) + time_of_day
    }

    /// The window of this moment's calendar day: from the local midnight
    /// that begins the day, taken at this moment's offset, to 86400 seconds
    /// later.
    pub fn day_window(&self) -> (w: (i64, i64))
        ensures
            self@.wf(),
            w.0 == self@.day_start(),
            w.1 == w.0 + 86400,
    {
        proof {
            use_type_invariant(self);
            lemma_unix_day_bound(self@.year, self@.month, self@.day);
        }
        let midnight: i64 = midnight_timestamp(self.year, self.month, self.day).unwrap();
        window_at(midnight, self.offset)
    }
}

/// A day's window begins on a day boundary of the local clock, is 86400
/// seconds long and holds the moment it was taken for.
pub proof fn lemma_day_window(now: LocalDateTimeView)
    requires
        now.wf(),
    ensures
        (now.day_start() + now.offset) % 86400 == 0,
        minute_of_day(now.day_start(), now.offset) == 0,
        now.day_start() <= now.timestamp() < now.day_start() + 86400,
{
    let d = unix_day(now.year, now.month, now.day);
    assert((86400 * d) % 86400 == 0) by (nonlinear_arith);
}

} // verus!
