//! Calendar arithmetic on the proleptic Gregorian calendar: leap years, month
//! lengths, day clamping, the day count of a date, and the date type the rest
//! of the crate works with.

use chrono::{Datelike, NaiveDate, TimeDelta};
use vstd::prelude::*;

verus! {

/// The earliest year a [`Date`] can hold.
pub const MIN_YEAR: i32 = -262143;

/// The latest year a [`Date`] can hold.
pub const MAX_YEAR: i32 = 262142;

/// The leap-year rule: divisible by 4, and not by 100 unless also by 400.
pub open spec fn is_leap(year: int) -> bool {
    year % 4 == 0 && (year % 100 != 0 || year % 400 == 0)
}

/// The number of days of a month; 0 for a month outside 1..=12.
pub open spec fn month_length(year: int, month: int) -> int {
    if month == 2 {
        if is_leap(year) {
            29
        } else {
            28
        }
    } else if month == 4 || month == 6 || month == 9 || month == 11 {
        30
    } else if 1 <= month <= 12 {
        31
    } else {
        0
    }
}

/// Whether `year`, `month`, `day` name a day that exists and that a [`Date`]
/// can hold.
pub open spec fn valid_ymd(year: int, month: int, day: int) -> bool {
    &&& MIN_YEAR <= year <= MAX_YEAR
    &&& 1 <= month <= 12
    &&& 1 <= day <= month_length(year, month)
}

/// `day`, or the last day of `month` of `year` where `day` lies beyond it.
pub open spec fn clamped_day(year: int, month: int, day: int) -> int {
    if day <= month_length(year, month) {
        day
    } else {
        month_length(year, month)
    }
}

/// Whether `day` exists in `month` of `year`.
pub open spec fn valid_day(year: int, month: int, day: int) -> bool {
    1 <= month <= 12 && 1 <= day <= month_length(year, month)
}

/// Whether `year` is a leap year.
pub fn is_leap_year(year: i32) -> (leap: bool)
    ensures
        leap == is_leap(year as int),
{
    // 2_147_484_000 is a multiple of 400 above every i32 magnitude, so the
    // shifted year is positive and has the same remainders.
    let shifted: i64 = year as i64 + 2_147_484_000;
    shifted % 4 == 0 && (shifted % 100 != 0 || shifted % 400 == 0)
}

/// The number of days in `month` of `year`: 28, 29, 30 or 31.
pub fn days_in_month(year: i32, month: u32) -> (days: u32)
    requires
        1 <= month <= 12,
    ensures
        days == month_length(year as int, month as int),
        28 <= days <= 31,
{
    if month == 2 {
        if is_leap_year(year) {
            29
        } else {
            28
        }
    } else if month == 4 || month == 6 || month == 9 || month == 11 {
        30
    } else {
        31
    }
}

/// The nearest day that exists in `month` of `year`: `day` itself, or the
/// month's last day where `day` lies beyond it.
pub fn clamp_day(year: i32, month: u32, day: u32) -> (clamped: u32)
    requires
        1 <= month <= 12,
    ensures
        clamped == clamped_day(year as int, month as int, day as int),
        day >= 1 ==> valid_day(year as int, month as int, clamped as int),
{
    let last: u32 = days_in_month(year, month);
    if day <= last {
        day
    } else {
        last
    }
}

/// The days that lie before 1 January of `year`, counted from 1 January of
/// year 1.
pub open spec fn days_before_year(year: int) -> int {
    let y = year - 1;
    365 * y + y / 4 - y / 100 + y / 400
}

/// The days of `year` that lie before the first of `month`.
pub open spec fn days_before_month(year: int, month: int) -> int
    decreases month,
{
    if month <= 1 {
        0
    } else {
        days_before_month(year, month - 1) + month_length(year, month - 1)
    }
}

/// The day count of a date: 1 for 1 January of year 1, and one more for each
/// day after it.
pub open spec fn days_from_ce(year: int, month: int, day: int) -> int {
    days_before_year(year) + days_before_month(year, month) + day
}

/// The day count of the earliest date.
pub open spec fn min_day_number() -> int {
    days_from_ce(MIN_YEAR as int, 1, 1)
}

/// The day count of the latest date.
pub open spec fn max_day_number() -> int {
    days_from_ce(MAX_YEAR as int, 12, 31)
}

/// The weekday of a day count, 0 for Monday through 6 for Sunday.
pub open spec fn weekday_of(day_number: int) -> int {
    (day_number - 1) % 7
}

/// A calendar date without time zone.
#[derive(Clone, Copy, Debug, PartialEq, Eq, Structural, PartialOrd, Ord, Hash)]
pub struct Date {
    pub year: i32,
    pub month: u32,
    pub day: u32,
}

impl Date {
    /// The date names a day that exists, within the years a date can hold.
    pub open spec fn is_valid(self) -> bool {
        valid_ymd(self.year as int, self.month as int, self.day as int)
    }

    /// The date's day count.
    pub open spec fn day_number(self) -> int {
        days_from_ce(self.year as int, self.month as int, self.day as int)
    }

    /// `self` is strictly earlier than `other`.
    pub open spec fn before(self, other: Date) -> bool {
        self.year < other.year || (self.year == other.year && (self.month < other.month || (
        self.month == other.month && self.day < other.day)))
    }

    /// `self` is `other` or earlier.
    pub open spec fn on_or_before(self, other: Date) -> bool {
        self == other || self.before(other)
    }

    /// The date `year`-`month`-`day`, if there is such a day.
    pub fn from_ymd_opt(year: i32, month: u32, day: u32) -> (date: Option<Date>)
        ensures
            date == if valid_ymd(year as int, month as int, day as int) {
                Some(Date { year, month, day })
            } else {
                None
            },
    {
        naive_from_ymd(year, month, day)
    }

    /// The date `days` days after `self` (before it, for a negative count), or
    /// `None` where that day lies outside the dates that can be held.
    pub fn checked_add_days(self, days: i64) -> (moved: Option<Date>)
        requires
            self.is_valid(),
        ensures
            moved is Some <==> min_day_number() <= self.day_number() + days <= max_day_number(),
            moved matches Some(d) ==> d.is_valid() && d.day_number() == self.day_number() + days,
    {
        naive_add_days(self, days)
    }

    /// The number of days from `earlier` to `self`, negative where `self` is
    /// the earlier one.
    pub fn days_since(self, earlier: Date) -> (days: i64)
        requires
            self.is_valid(),
            earlier.is_valid(),
        ensures
            days == self.day_number() - earlier.day_number(),
    {
        naive_days_between(self, earlier)
    }

    /// The weekday, 0 for Monday through 6 for Sunday.
    pub fn weekday(self) -> (index: u32)
        requires
            self.is_valid(),
        ensures
            index == weekday_of(self.day_number()),
    {
        naive_weekday(self)
    }

    /// Whether the date names a day that exists, within the years a date can
    /// hold.
    pub fn check_valid(self) -> (valid: bool)
        ensures
            valid == self.is_valid(),
    {
        MIN_YEAR <= self.year && self.year <= MAX_YEAR && 1 <= self.month && self.month <= 12 && 1
            <= self.day && self.day <= days_in_month(self.year, self.month)
    }

    /// Whether `self` is strictly earlier than `other`.
    pub fn is_before(self, other: Date) -> (earlier: bool)
        ensures
            earlier == self.before(other),
    {
        self.year < other.year || (self.year == other.year && (self.month < other.month || (
        self.month == other.month && self.day < other.day)))
    }

    /// Whether `self` is `other` or earlier.
    pub fn is_on_or_before(self, other: Date) -> (not_after: bool)
        ensures
            not_after == self.on_or_before(other),
    {
        self == other || self.is_before(other)
    }
}

impl Date {
    /// The date `days` days after `self` (before it, for a negative count):
    /// the one valid date with that day count. It is meaningful where that
    /// day count lies within `min_day_number()..=max_day_number()`.
    pub open spec fn plus_days(self, days: int) -> Date {
        choose|moved: Date| moved.is_valid() && moved.day_number() == self.day_number() + days
    }
}

/// A date is the one that `plus_days` names once it is valid and has the day
/// count asked for.
pub proof fn lemma_plus_days(from: Date, days: int, moved: Date)
    requires
        moved.is_valid(),
        moved.day_number() == from.day_number() + days,
    ensures
        from.plus_days(days) == moved,
{
    let chosen = from.plus_days(days);
    lemma_day_number_ordered(chosen, moved);
}

/// The day count of a valid date lies between the first and the last date's.
pub proof fn lemma_day_number_bounds(date: Date)
    requires
        date.is_valid(),
    ensures
        min_day_number() <= date.day_number() <= max_day_number(),
{
    let first = Date { year: MIN_YEAR, month: 1, day: 1 };
    let last = Date { year: MAX_YEAR, month: 12, day: 31 };
    lemma_day_number_ordered(first, date);
    lemma_day_number_ordered(date, last);
}

/// The day after `date` in the calendar.
pub open spec fn day_after(date: Date) -> Date {
    if date.day < month_length(date.year as int, date.month as int) {
        Date { year: date.year, month: date.month, day: (date.day + 1) as u32 }
    } else if date.month < 12 {
        Date { year: date.year, month: (date.month + 1) as u32, day: 1 }
    } else {
        Date { year: (date.year + 1) as i32, month: 1, day: 1 }
    }
}

/// The day after a valid date other than the last one is valid, and its day
/// count is one more.
pub proof fn lemma_day_after(date: Date)
    requires
        date.is_valid(),
        date.day_number() < max_day_number(),
    ensures
        day_after(date).is_valid(),
        day_after(date).day_number() == date.day_number() + 1,
{
    lemma_days_before_month(date.year as int);
    lemma_days_before_month(date.year + 1);
    lemma_days_before_month(MAX_YEAR as int);
    lemma_year_length(date.year as int);
}

/// Every day count from a valid date's up to the last date's is the day count
/// of a valid date, which `plus_days` names.
pub proof fn lemma_reachable(from: Date, days: int)
    requires
        from.is_valid(),
        0 <= days,
        from.day_number() + days <= max_day_number(),
    ensures
        from.plus_days(days).is_valid(),
        from.plus_days(days).day_number() == from.day_number() + days,
    decreases days,
{
    if days == 0 {
        lemma_plus_days(from, 0, from);
    } else {
        lemma_reachable(from, days - 1);
        let before = from.plus_days(days - 1);
        lemma_day_after(before);
        lemma_plus_days(from, days, day_after(before));
    }
}

/// Every day count between the first and the last date's is the day count of
/// a valid date, which `plus_days` names from any date.
pub proof fn lemma_plus_days_valid(from: Date, days: int)
    requires
        min_day_number() <= from.day_number() + days <= max_day_number(),
    ensures
        from.plus_days(days).is_valid(),
        from.plus_days(days).day_number() == from.day_number() + days,
{
    let first = Date { year: MIN_YEAR, month: 1, day: 1 };
    lemma_reachable(first, from.day_number() + days - min_day_number());
    let found = first.plus_days(from.day_number() + days - min_day_number());
    lemma_plus_days(from, days, found);
}

/// A time of day, to the second.
#[derive(Clone, Copy, Debug, PartialEq, Eq, Structural, PartialOrd, Ord, Hash)]
pub struct Time {
    pub hour: u32,
    pub minute: u32,
    pub second: u32,
}

impl Time {
    /// The time names a second of the day.
    pub open spec fn is_valid(self) -> bool {
        self.hour < 24 && self.minute < 60 && self.second < 60
    }

    /// `self` is strictly earlier in the day than `other`.
    pub open spec fn before(self, other: Time) -> bool {
        self.hour < other.hour || (self.hour == other.hour && (self.minute < other.minute || (
        self.minute == other.minute && self.second < other.second)))
    }

    /// The time `hour`:`minute`:`second`, if the day has such a second.
    pub fn from_hms_opt(hour: u32, minute: u32, second: u32) -> (time: Option<Time>)
        ensures
            time == if hour < 24 && minute < 60 && second < 60 {
                Some(Time { hour, minute, second })
            } else {
                None
            },
    {
        if hour < 24 && minute < 60 && second < 60 {
            Some(Time { hour, minute, second })
        } else {
            None
        }
    }

    /// Midnight, the start time that an all-day event carries.
    pub fn midnight() -> (time: Time)
        ensures
            time == (Time { hour: 0, minute: 0, second: 0 }),
    {
        Time { hour: 0, minute: 0, second: 0 }
    }

    /// Whether `self` is strictly earlier in the day than `other`.
    pub fn is_before(self, other: Time) -> (earlier: bool)
        ensures
            earlier == self.before(other),
    {
        self.hour < other.hour || (self.hour == other.hour && (self.minute < other.minute || (
        self.minute == other.minute && self.second < other.second)))
    }
}

/// Calls chrono's `NaiveDate::from_ymd_opt` and copies the fields out. The
/// contract claims what chrono documents: `None` exactly when the month or day
/// is out of range, the day does not exist in that month, or the year is
/// outside `MIN_YEAR..=MAX_YEAR`; otherwise the date with those three fields.
#[verifier::external_body]
fn naive_from_ymd(year: i32, month: u32, day: u32) -> (date: Option<Date>)
    ensures
        date == if valid_ymd(year as int, month as int, day as int) {
            Some(Date { year, month, day })
        } else {
            None
        },
{
    let found = NaiveDate::from_ymd_opt(year, month, day)?;
    Some(Date { year: found.year(), month: found.month(), day: found.day() })
}

/// Calls chrono's `NaiveDate::checked_add_signed` with a `TimeDelta` of whole
/// days. The contract claims that the result is the date whose day count is
/// the sum, and `None` exactly when that sum lies outside the day counts of
/// `NaiveDate::MIN` and `NaiveDate::MAX`.
#[verifier::external_body]
fn naive_add_days(date: Date, days: i64) -> (moved: Option<Date>)
    requires
        date.is_valid(),
    ensures
        moved is Some <==> min_day_number() <= date.day_number() + days <= max_day_number(),
        moved matches Some(d) ==> d.is_valid() && d.day_number() == date.day_number() + days,
{
    let start = NaiveDate::from_ymd_opt(date.year, date.month, date.day)?;
    let found = start.checked_add_signed(TimeDelta::try_days(days)?)?;
    Some(Date { year: found.year(), month: found.month(), day: found.day() })
}

/// Calls chrono's `NaiveDate::signed_duration_since` and reads the whole days
/// of the result. The contract claims that this is the difference of the two
/// day counts.
#[verifier::external_body]
fn naive_days_between(later: Date, earlier: Date) -> (days: i64)
    requires
        later.is_valid(),
        earlier.is_valid(),
    ensures
        days == later.day_number() - earlier.day_number(),
{
    let a = NaiveDate::from_ymd_opt(later.year, later.month, later.day).unwrap();
    let b = NaiveDate::from_ymd_opt(earlier.year, earlier.month, earlier.day).unwrap();
    a.signed_duration_since(b).num_days()
}

/// Calls chrono's `NaiveDate::weekday` and `Weekday::num_days_from_monday`.
/// The contract claims that day count 1 (1 January of year 1) is a Monday and
/// that weekdays repeat every seven days.
#[verifier::external_body]
fn naive_weekday(date: Date) -> (index: u32)
    requires
        date.is_valid(),
    ensures
        index == weekday_of(date.day_number()),
{
    let found = NaiveDate::from_ymd_opt(date.year, date.month, date.day).unwrap();
    found.weekday().num_days_from_monday()
}

/// The days before each month of a year, written out.
pub proof fn lemma_days_before_month(year: int)
    ensures
        days_before_month(year, 1) == 0,
        days_before_month(year, 2) == 31,
        days_before_month(year, 3) == 59 + (if is_leap(year) { 1int } else { 0 }),
        days_before_month(year, 4) == 90 + (if is_leap(year) { 1int } else { 0 }),
        days_before_month(year, 5) == 120 + (if is_leap(year) { 1int } else { 0 }),
        days_before_month(year, 6) == 151 + (if is_leap(year) { 1int } else { 0 }),
        days_before_month(year, 7) == 181 + (if is_leap(year) { 1int } else { 0 }),
        days_before_month(year, 8) == 212 + (if is_leap(year) { 1int } else { 0 }),
        days_before_month(year, 9) == 243 + (if is_leap(year) { 1int } else { 0 }),
        days_before_month(year, 10) == 273 + (if is_leap(year) { 1int } else { 0 }),
        days_before_month(year, 11) == 304 + (if is_leap(year) { 1int } else { 0 }),
        days_before_month(year, 12) == 334 + (if is_leap(year) { 1int } else { 0 }),
        days_before_month(year, 13) == 365 + (if is_leap(year) { 1int } else { 0 }),
{
    reveal_with_fuel(days_before_month, 14);
}

/// A year is 365 days long, 366 where it is a leap year.
pub proof fn lemma_year_length(year: int)
    ensures
        days_before_year(year + 1) - days_before_year(year) == 365 + (if is_leap(year) {
            1int
        } else {
            0
        }),
{
}

/// Later years start later, by at least 365 days for each year between.
pub proof fn lemma_years_ordered(first: int, second: int)
    requires
        first <= second,
    ensures
        days_before_year(second) - days_before_year(first) >= 365 * (second - first),
    decreases second - first,
{
    if first < second {
        lemma_years_ordered(first, second - 1);
        lemma_year_length(second - 1);
    }
}

/// The day count orders valid dates as the calendar does.
pub proof fn lemma_day_number_ordered(a: Date, b: Date)
    requires
        a.is_valid(),
        b.is_valid(),
    ensures
        a.before(b) <==> a.day_number() < b.day_number(),
        a == b <==> a.day_number() == b.day_number(),
{
    lemma_days_before_month(a.year as int);
    lemma_days_before_month(b.year as int);
    if a.year < b.year {
        lemma_year_length(a.year as int);
        lemma_years_ordered(a.year + 1, b.year as int);
    } else if b.year < a.year {
        lemma_year_length(b.year as int);
        lemma_years_ordered(b.year + 1, a.year as int);
    }
}

} // verus!
