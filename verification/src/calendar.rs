//! Calendar dates, times of day, weekdays and ISO weeks as plain values.
//!
//! A [`Date`] and a [`TimeOfDay`] hold their numbers themselves, so that the
//! rest of the library can reason about them. What only a calendar library
//! can say of a date (its weekday, its ISO week, the date some days later) is
//! asked of `chrono`, and named here by a specification function.

use chrono::Datelike;
use chrono::Timelike;
use vstd::prelude::*;

verus! {

/// The earliest year a [`Date`] can hold.
pub const MIN_YEAR: i32 = -262143;

/// The latest year a [`Date`] can hold.
pub const MAX_YEAR: i32 = 262142;

/// Whether `year` is a leap year of the proleptic Gregorian calendar.
pub open spec fn is_leap_year(year: int) -> bool {
    year % 4 == 0 && (year % 100 != 0 || year % 400 == 0)
}

/// The number of days of `month` in `year`; 0 where `month` is no month.
pub open spec fn days_in_month(year: int, month: int) -> int {
    if month == 2 {
        if is_leap_year(year) {
            29
        } else {
            28
        }
    } else if month == 4 || month == 6 || month == 9 || month == 11 {
        30
    } else if 1 <= month <= 12 {
        31
    } else {
        0
    }
}

/// The weekday of the day `year`-`month`-`day`, counted from Monday = 0, as
/// `chrono::Datelike::weekday` gives it for the `chrono::NaiveDate` of these
/// numbers.
pub uninterp spec fn weekday_of(year: int, month: int, day: int) -> int;

/// The ISO 8601 week-numbering year and week number of the day
/// `year`-`month`-`day`, as `chrono::Datelike::iso_week` gives them for the
/// `chrono::NaiveDate` of these numbers.
pub uninterp spec fn iso_week_of(year: int, month: int, day: int) -> (i32, u32);

/// The day `weekday` (counted from Monday = 0) of week `week` of the ISO
/// week-numbering year `year`, as `chrono::NaiveDate::from_isoywd_opt` gives
/// it: year, month and day, or `None` where there is no such day.
pub uninterp spec fn iso_week_day(year: int, week: int, weekday: int) -> Option<(i32, u32, u32)>;

/// The day `days` days after `year`-`month`-`day`, as
/// `chrono::NaiveDate::checked_add_days` gives it: `None` where that day is
/// out of range.
pub uninterp spec fn date_plus_days(year: int, month: int, day: int, days: int) -> Option<
    (i32, u32, u32),
>;

/// The day `days` days before `year`-`month`-`day`, as
/// `chrono::NaiveDate::checked_sub_days` gives it: `None` where that day is
/// out of range.
pub uninterp spec fn date_minus_days(year: int, month: int, day: int, days: int) -> Option<
    (i32, u32, u32),
>;

/// The year, month and day that `chrono::NaiveDate::parse_from_str` reads
/// from `text` under the format `format`, or `None` where it fails.
pub uninterp spec fn parsed_date(text: Seq<char>, format: Seq<char>) -> Option<(i32, u32, u32)>;

/// The hour, minute and second of the time that
/// `chrono::NaiveTime::parse_from_str` reads from `text` under the format
/// `format`, or `None` where it fails.
pub uninterp spec fn parsed_time(text: Seq<char>, format: Seq<char>) -> Option<(u32, u32, u32)>;

/// A day of the week.
#[derive(Clone, Copy, Debug, PartialEq, Eq, Structural)]
pub enum Weekday {
    Mon,
    Tue,
    Wed,
    Thu,
    Fri,
    Sat,
    Sun,
}

impl Weekday {
    /// The number of days since Monday: 0 for Monday, 6 for Sunday.
    pub open spec fn index(self) -> int {
        match self {
            Weekday::Mon => 0,
            Weekday::Tue => 1,
            Weekday::Wed => 2,
            Weekday::Thu => 3,
            Weekday::Fri => 4,
            Weekday::Sat => 5,
            Weekday::Sun => 6,
        }
    }

    /// The number of days since Monday: 0 for Monday, 6 for Sunday.
    pub fn num_days_from_monday(&self) -> (n: u32)
        ensures
            n == self.index(),
    {
        match self {
            Weekday::Mon => 0,
            Weekday::Tue => 1,
            Weekday::Wed => 2,
            Weekday::Thu => 3,
            Weekday::Fri => 4,
            Weekday::Sat => 5,
            Weekday::Sun => 6,
        }
    }

    /// The weekday `n` days after Monday.
    pub fn from_days_from_monday(n: u32) -> (r: Option<Weekday>)
        ensures
            r is Some <==> n < 7,
            r matches Some(w) ==> w.index() == n,
    {
        match n {
            0 => Some(Weekday::Mon),
            1 => Some(Weekday::Tue),
            2 => Some(Weekday::Wed),
            3 => Some(Weekday::Thu),
            4 => Some(Weekday::Fri),
            5 => Some(Weekday::Sat),
            6 => Some(Weekday::Sun),
            _ => None,
        }
    }

    /// Whether this is Saturday or Sunday.
    pub fn is_weekend(&self) -> (r: bool)
        ensures
            r == (self.index() >= 5),
    {
        match self {
            Weekday::Sat | Weekday::Sun => true,
            _ => false,
        }
    }
}

/// A week of the ISO 8601 week-numbering scheme: Monday to Sunday.
///
/// Weeks are ordered by year, then by week number.
#[derive(Clone, Copy, Debug, PartialEq, Eq, Structural)]
pub struct IsoWeek {
    pub year: i32,
    pub week: u32,
}

impl IsoWeek {
    /// Whether this week comes before `other`.
    pub open spec fn before(self, other: IsoWeek) -> bool {
        self.year < other.year || (self.year == other.year && self.week < other.week)
    }

    /// Whether this week comes before `other`.
    pub fn is_before(&self, other: &IsoWeek) -> (r: bool)
        ensures
            r == self.before(*other),
    {
        self.year < other.year || (self.year == other.year && self.week < other.week)
    }

    /// The Monday of this week, if it is a week of the calendar whose Monday
    /// a [`Date`] can hold: a day that lies in this week and is a Monday.
    pub fn monday(&self) -> (r: Option<Date>)
        ensures
            date_view(r) == self.spec_monday(),
            r matches Some(date) ==> date@.iso_week() == *self && date@.weekday() == 0,
    {
        if self.year == i32::MIN || self.year == i32::MAX {
            return None;
        }
        day_of_iso_week(self.year, self.week, Weekday::Mon)
    }

    /// The Monday of this week; none in the two extreme years, which no
    /// [`Date`] comes near.
    pub open spec fn spec_monday(self) -> Option<Ymd> {
        if i32::MIN < self.year < i32::MAX {
            ymd_of(iso_week_day(self.year as int, self.week as int, 0))
        } else {
            None
        }
    }
}

/// A calendar date as three numbers.
pub struct Ymd {
    pub year: int,
    pub month: int,
    pub day: int,
}

/// The date that a triple of year, month and day stands for.
pub open spec fn ymd_of(t: Option<(i32, u32, u32)>) -> Option<Ymd> {
    match t {
        Some((year, month, day)) => Some(
            Ymd { year: year as int, month: month as int, day: day as int },
        ),
        None => None,
    }
}

/// What a date that may be absent holds.
pub open spec fn date_view(d: Option<Date>) -> Option<Ymd> {
    match d {
        Some(date) => Some(date@),
        None => None,
    }
}

impl Ymd {
    /// Whether the three numbers name a day that exists and that a
    /// [`Date`] can hold.
    pub open spec fn is_valid(self) -> bool {
        &&& MIN_YEAR <= self.year <= MAX_YEAR
        &&& 1 <= self.month <= 12
        &&& 1 <= self.day <= days_in_month(self.year, self.month)
    }

    /// Whether this day comes before `other`.
    pub open spec fn before(self, other: Ymd) -> bool {
        ||| self.year < other.year
        ||| (self.year == other.year && self.month < other.month)
        ||| (self.year == other.year && self.month == other.month && self.day < other.day)
    }

    /// The number of days from Monday to this day's weekday.
    pub open spec fn weekday(self) -> int {
        weekday_of(self.year, self.month, self.day)
    }

    /// Whether this day is a Saturday or a Sunday.
    pub open spec fn is_weekend(self) -> bool {
        self.weekday() >= 5
    }

    /// The ISO week this day lies in.
    pub open spec fn iso_week(self) -> IsoWeek {
        let w = iso_week_of(self.year, self.month, self.day);
        IsoWeek { year: w.0, week: w.1 }
    }

    /// The day `days` days later, where a [`Date`] can hold it.
    pub open spec fn plus_days(self, days: int) -> Option<Ymd> {
        ymd_of(date_plus_days(self.year, self.month, self.day, days))
    }

    /// The day `days` days earlier, where a [`Date`] can hold it.
    pub open spec fn minus_days(self, days: int) -> Option<Ymd> {
        ymd_of(date_minus_days(self.year, self.month, self.day, days))
    }
}

/// A day of the proleptic Gregorian calendar, without a time zone.
#[derive(Clone, Copy, Debug, PartialEq, Eq, Structural)]
pub struct Date {
    year: i32,
    month: u32,
    day: u32,
}

impl View for Date {
    type V = Ymd;

    closed spec fn view(&self) -> Ymd {
        Ymd { year: self.year as int, month: self.month as int, day: self.day as int }
    }
}

impl Date {
    /// Every date is a day that exists.
    #[verifier::type_invariant]
    pub open spec fn exists_in_calendar(self) -> bool {
        self@.is_valid()
    }

    /// The date of the given year, month and day, if there is such a day.
    pub fn from_ymd_opt(year: i32, month: u32, day: u32) -> (r: Option<Date>)
        ensures
            r is Some <==> (Ymd {
                year: year as int,
                month: month as int,
                day: day as int,
            }).is_valid(),
            r matches Some(d) ==> d@ == (Ymd {
                year: year as int,
                month: month as int,
                day: day as int,
            }),
    {
        if year < MIN_YEAR || year > MAX_YEAR || month < 1 || month > 12 || day < 1 {
            return None;
        }
        let leap = year % 4 == 0 && (year % 100 != 0 || year % 400 == 0);
        let length: u32 = if month == 2 {
            if leap {
                29
            } else {
                28
            }
        } else if month == 4 || month == 6 || month == 9 || month == 11 {
            30
        } else {
            31
        };
        if day > length {
            return None;
        }
        Some(Date { year, month, day })
    }

    /// The year.
    pub fn year(&self) -> (y: i32)
        ensures
            y == self@.year,
            self@.is_valid(),
    {
        proof {
            use_type_invariant(self);
        }
        self.year
    }

    /// The month, from 1 to 12.
    pub fn month(&self) -> (m: u32)
        ensures
            m == self@.month,
            1 <= m <= 12,
    {
        proof {
            use_type_invariant(self);
        }
        self.month
    }

    /// The day of the month, from 1 to 31.
    pub fn day(&self) -> (d: u32)
        ensures
            d == self@.day,
            1 <= d <= 31,
    {
        proof {
            use_type_invariant(self);
        }
        self.day
    }

    /// Whether this is the same day as `other`.
    pub fn is_same(&self, other: &Date) -> (r: bool)
        ensures
            r == (self@ == other@),
            r == (*self == *other),
    {
        self.year == other.year && self.month == other.month && self.day == other.day
    }

    /// Whether this day comes before `other`.
    pub fn is_before(&self, other: &Date) -> (r: bool)
        ensures
            r == self@.before(other@),
    {
        self.year < other.year || (self.year == other.year && (self.month < other.month || (
        self.month == other.month && self.day < other.day)))
    }

    /// The day of the week.
    pub fn weekday(&self) -> (w: Weekday)
        ensures
            w.index() == self@.weekday(),
    {
        proof {
            use_type_invariant(self);
        }
        let n = days_from_monday(*self);
        match Weekday::from_days_from_monday(n) {
            Some(w) => w,
            None => Weekday::Sun,
        }
    }

    /// The ISO week this day lies in.
    pub fn iso_week(&self) -> (w: IsoWeek)
        ensures
            w == self@.iso_week(),
            1 <= w.week <= 53,
    {
        proof {
            use_type_invariant(self);
        }
        let (year, week) = iso_week_numbers(*self);
        IsoWeek { year, week }
    }

    /// The day `days` days later, or `None` where no [`Date`] can hold it.
    pub fn checked_add_days(&self, days: u64) -> (r: Option<Date>)
        ensures
            date_view(r) == self@.plus_days(days as int),
    {
        proof {
            use_type_invariant(self);
        }
        days_later(*self, days)
    }

    /// The day `days` days earlier, or `None` where no [`Date`] can hold it.
    pub fn checked_sub_days(&self, days: u64) -> (r: Option<Date>)
        ensures
            date_view(r) == self@.minus_days(days as int),
    {
        proof {
            use_type_invariant(self);
        }
        days_earlier(*self, days)
    }
}

/// Whether `date` is a Saturday or a Sunday.
pub fn is_weekend(date: Date) -> (r: bool)
    ensures
        r == date@.is_weekend(),
{
    date.weekday().is_weekend()
}

/// A time of day as three numbers.
pub struct Hms {
    pub hour: int,
    pub minute: int,
    pub second: int,
}

/// The time that a triple of hour, minute and second stands for.
pub open spec fn hms_of(t: Option<(u32, u32, u32)>) -> Option<Hms> {
    match t {
        Some((hour, minute, second)) => Some(
            Hms { hour: hour as int, minute: minute as int, second: second as int },
        ),
        None => None,
    }
}

/// What a time that may be absent holds.
pub open spec fn time_view(t: Option<TimeOfDay>) -> Option<Hms> {
    match t {
        Some(time) => Some(time@),
        None => None,
    }
}

impl Hms {
    /// Whether the three numbers name a second of the day.
    pub open spec fn is_valid(self) -> bool {
        &&& 0 <= self.hour < 24
        &&& 0 <= self.minute < 60
        &&& 0 <= self.second < 60
    }

    /// The number of whole minutes since midnight.
    pub open spec fn minute_of_day(self) -> int {
        self.hour * 60 + self.minute
    }

    /// The number of seconds since midnight.
    pub open spec fn second_of_day(self) -> int {
        self.hour * 3600 + self.minute * 60 + self.second
    }

    /// Whether this time comes before `other`.
    pub open spec fn before(self, other: Hms) -> bool {
        self.second_of_day() < other.second_of_day()
    }

    /// The whole minutes from this time to `end`, rounded towards zero;
    /// negative where `end` comes first.
    pub open spec fn minutes_until(self, end: Hms) -> int {
        let seconds = end.second_of_day() - self.second_of_day();
        if seconds >= 0 {
            seconds / 60
        } else {
            -((-seconds) / 60)
        }
    }
}

/// A time of day to the second, without a time zone.
#[derive(Clone, Copy, Debug, PartialEq, Eq, Structural)]
pub struct TimeOfDay {
    hour: u32,
    minute: u32,
    second: u32,
}

impl View for TimeOfDay {
    type V = Hms;

    closed spec fn view(&self) -> Hms {
        Hms { hour: self.hour as int, minute: self.minute as int, second: self.second as int }
    }
}

impl TimeOfDay {
    /// Every time of day is a second of the day.
    #[verifier::type_invariant]
    pub open spec fn within_day(self) -> bool {
        self@.is_valid()
    }

    /// The time of the given hour, minute and second, if there is one.
    pub fn from_hms_opt(hour: u32, minute: u32, second: u32) -> (r: Option<TimeOfDay>)
        ensures
            r is Some <==> hour < 24 && minute < 60 && second < 60,
            r matches Some(t) ==> t@ == (Hms {
                hour: hour as int,
                minute: minute as int,
                second: second as int,
            }),
    {
        if hour < 24 && minute < 60 && second < 60 {
            Some(TimeOfDay { hour, minute, second })
        } else {
            None
        }
    }

    /// The hour, from 0 to 23.
    pub fn hour(&self) -> (h: u32)
        ensures
            h == self@.hour,
            h < 24,
    {
        proof {
            use_type_invariant(self);
        }
        self.hour
    }

    /// The minute of the hour, from 0 to 59.
    pub fn minute(&self) -> (m: u32)
        ensures
            m == self@.minute,
            m < 60,
    {
        proof {
            use_type_invariant(self);
        }
        self.minute
    }

    /// The second of the minute, from 0 to 59.
    pub fn second(&self) -> (s: u32)
        ensures
            s == self@.second,
            s < 60,
    {
        proof {
            use_type_invariant(self);
        }
        self.second
    }

    /// The number of whole minutes since midnight.
    pub fn minute_of_day(&self) -> (m: u32)
        ensures
            m == self@.minute_of_day(),
            m < 1440,
    {
        proof {
            use_type_invariant(self);
        }
        self.hour * 60 + self.minute
    }

    /// The number of seconds since midnight.
    pub fn second_of_day(&self) -> (s: u32)
        ensures
            s == self@.second_of_day(),
            s < 86400,
    {
        proof {
            use_type_invariant(self);
        }
        self.hour * 3600 + self.minute * 60 + self.second
    }

    /// Whether this is the same time as `other`.
    pub fn is_same(&self, other: &TimeOfDay) -> (r: bool)
        ensures
            r == (self@ == other@),
            r == (*self == *other),
    {
        self.hour == other.hour && self.minute == other.minute && self.second == other.second
    }

    /// Whether this time comes before `other`.
    pub fn is_before(&self, other: &TimeOfDay) -> (r: bool)
        ensures
            r == self@.before(other@),
    {
        self.second_of_day() < other.second_of_day()
    }

    /// The whole minutes from this time to `end`, rounded towards zero;
    /// negative where `end` comes first.
    pub fn minutes_until(&self, end: &TimeOfDay) -> (m: i64)
        ensures
            m == self@.minutes_until(end@),
            -1440 < m < 1440,
    {
        let from: u32 = self.second_of_day();
        let to: u32 = end.second_of_day();
        if to >= from {
            ((to - from) / 60) as i64
        } else {
            -(((from - to) / 60) as i64)
        }
    }
}

/// A date together with a time of day.
#[derive(Clone, Copy, Debug, PartialEq, Eq, Structural)]
pub struct DateTime {
    pub date: Date,
    pub time: TimeOfDay,
}

/// `chrono::Datelike::weekday` on the `chrono::NaiveDate` of `date`, as the
/// number that `chrono::Weekday::num_days_from_monday` gives: 0 for Monday
/// to 6 for Sunday.
#[verifier::external_body]
fn days_from_monday(date: Date) -> (n: u32)
    requires
        date@.is_valid(),
    ensures
        n == weekday_of(date@.year, date@.month, date@.day),
        n < 7,
{
    let day = chrono::NaiveDate::from_ymd_opt(date.year, date.month, date.day).unwrap();
    day.weekday().num_days_from_monday()
}

/// `chrono::Datelike::iso_week` on the `chrono::NaiveDate` of `date`: the
/// week-numbering year, and the week number, which lies between 1 and 53.
#[verifier::external_body]
fn iso_week_numbers(date: Date) -> (w: (i32, u32))
    requires
        date@.is_valid(),
    ensures
        w == iso_week_of(date@.year, date@.month, date@.day),
        1 <= w.1 <= 53,
{
    let week = chrono::NaiveDate::from_ymd_opt(date.year, date.month, date.day).unwrap().iso_week();
    (week.year(), week.week())
}

/// `chrono::NaiveDate::from_isoywd_opt`: the given weekday of the given ISO
/// week, or `None` where the week does not exist or the day is out of range.
/// The day that it makes from a week and a weekday lies in that week and has
/// that weekday.
/// The two extreme years are left out: on them the outside function
/// computes a neighbouring year.
#[verifier::external_body]
fn day_of_iso_week(year: i32, week: u32, weekday: Weekday) -> (r: Option<Date>)
    requires
        i32::MIN < year < i32::MAX,
    ensures
        date_view(r) == ymd_of(iso_week_day(year as int, week as int, weekday.index())),
        r matches Some(date) ==> iso_week_of(date@.year, date@.month, date@.day) == (year, week)
            && weekday_of(date@.year, date@.month, date@.day) == weekday.index(),
{
    let day = match weekday {
        Weekday::Mon => chrono::Weekday::Mon,
        Weekday::Tue => chrono::Weekday::Tue,
        Weekday::Wed => chrono::Weekday::Wed,
        Weekday::Thu => chrono::Weekday::Thu,
        Weekday::Fri => chrono::Weekday::Fri,
        Weekday::Sat => chrono::Weekday::Sat,
        Weekday::Sun => chrono::Weekday::Sun,
    };
    chrono::NaiveDate::from_isoywd_opt(year, week, day).map(
        |d| Date { year: d.year(), month: d.month(), day: d.day() },
    )
}

/// `chrono::NaiveDate::checked_add_days`: the day `days` days after `date`,
/// or `None` where that day is out of range.
#[verifier::external_body]
fn days_later(date: Date, days: u64) -> (r: Option<Date>)
    requires
        date@.is_valid(),
    ensures
        date_view(r) == ymd_of(date_plus_days(date@.year, date@.month, date@.day, days as int)),
{
    let day = chrono::NaiveDate::from_ymd_opt(date.year, date.month, date.day).unwrap();
    day.checked_add_days(chrono::Days::new(days)).map(
        |d| Date { year: d.year(), month: d.month(), day: d.day() },
    )
}

/// `chrono::NaiveDate::checked_sub_days`: the day `days` days before `date`,
/// or `None` where that day is out of range.
#[verifier::external_body]
fn days_earlier(date: Date, days: u64) -> (r: Option<Date>)
    requires
        date@.is_valid(),
    ensures
        date_view(r) == ymd_of(date_minus_days(date@.year, date@.month, date@.day, days as int)),
{
    let day = chrono::NaiveDate::from_ymd_opt(date.year, date.month, date.day).unwrap();
    day.checked_sub_days(chrono::Days::new(days)).map(
        |d| Date { year: d.year(), month: d.month(), day: d.day() },
    )
}

/// `chrono::NaiveDate::parse_from_str`: the date read from `text` under
/// `format`, or `None` where the outside function returns an error.
#[verifier::external_body]
pub(crate) fn read_date(text: &str, format: &str) -> (r: Option<Date>)
    ensures
        date_view(r) == ymd_of(parsed_date(text@, format@)),
{
    chrono::NaiveDate::parse_from_str(text, format).ok().map(
        |d| Date { year: d.year(), month: d.month(), day: d.day() },
    )
}

/// `chrono::NaiveTime::parse_from_str`: the hour, minute and second of the
/// time read from `text` under `format`, or `None` where the outside
/// function returns an error. A fraction of a second, and so a leap second,
/// is not kept.
#[verifier::external_body]
pub(crate) fn read_time(text: &str, format: &str) -> (r: Option<TimeOfDay>)
    ensures
        time_view(r) == hms_of(parsed_time(text@, format@)),
{
    chrono::NaiveTime::parse_from_str(text, format).ok().map(
        |t| TimeOfDay { hour: t.hour(), minute: t.minute(), second: t.second() },
    )
}

} // verus!
