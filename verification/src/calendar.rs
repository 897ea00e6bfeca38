//! Days of the calendar, and what the clock and the calendar of the machine say of them.
use crate::text::{dec, zero_padded};
use chrono::{Datelike, Local, NaiveDate, TimeDelta, Timelike};
use vstd::arithmetic::div_mod::{
    lemma_fundamental_div_mod_converse, lemma_mod_add_multiples_vanish,
};
use vstd::prelude::*;

verus! {

/// The first and the last year in which a date can lie.
pub const MIN_YEAR: i32 = -262143;

pub const MAX_YEAR: i32 = 262142;

/// A day of the Gregorian calendar, which is carried on before its introduction.
#[derive(Debug, Copy, Clone, PartialEq, Eq, Structural)]
pub struct CalendarDate {
    pub year: i32,
    pub month: u32,
    pub day: u32,
}

/// Whether a year has a 29th of February.
pub open spec fn is_leap(year: int) -> bool {
    year % 4 == 0 && (year % 100 != 0 || year % 400 == 0)
}

/// The number of days of a month.
pub open spec fn days_in_month(year: int, month: int) -> int {
    if month == 2 {
        if is_leap(year) {
            29
        } else {
            28
        }
    } else if month == 4 || month == 6 || month == 9 || month == 11 {
        30
    } else {
        31
    }
}

/// The number of days of a year that lie before a month.
pub open spec fn days_before_month(year: int, month: int) -> int
    decreases month,
{
    if month <= 1 {
        0
    } else {
        days_before_month(year, month - 1) + days_in_month(year, month - 1)
    }
}

/// The number of days before a year, counted from the start of the year 1.
pub open spec fn days_before_year(year: int) -> int {
    let y = year - 1;
    365 * y + y / 4 - y / 100 + y / 400
}

/// The number of the first day and of the last day of the calendar.
pub open spec fn min_number() -> int {
    days_before_year(MIN_YEAR as int) + 1
}

pub open spec fn max_number() -> int {
    days_before_year(MAX_YEAR + 1)
}

/// The weekday of the day with this number: 0 is Monday, 6 is Sunday.
pub open spec fn weekday_of(number: int) -> int {
    (number - 1) % 7
}

impl CalendarDate {
    /// Whether there is such a day.
    pub open spec fn valid(self) -> bool {
        &&& MIN_YEAR <= self.year <= MAX_YEAR
        &&& 1 <= self.month <= 12
        &&& 1 <= self.day <= days_in_month(self.year as int, self.month as int)
    }

    /// The day's number: the 1st of January of the year 1 is day 1.
    pub open spec fn number(self) -> int {
        days_before_year(self.year as int) + days_before_month(self.year as int, self.month as int)
            + self.day
    }

    /// The day's weekday: 0 is Monday, 6 is Sunday.
    pub open spec fn weekday(self) -> int {
        weekday_of(self.number())
    }
}

/// `NaiveDate::from_ymd_opt` makes a date of a valid year, month and day, and
/// `Datelike::weekday` with `Weekday::num_days_from_monday` gives its weekday, counted from Monday.
#[verifier::external_body]
pub(crate) fn weekday_number(date: CalendarDate) -> (w: u32)
    requires
        date.valid(),
    ensures
        w == date.weekday(),
        w < 7,
{
    NaiveDate::from_ymd_opt(date.year, date.month, date.day)
        .unwrap()
        .weekday()
        .num_days_from_monday()
}

/// `NaiveDate::checked_add_signed`, with a `TimeDelta` of whole days, gives the date that lies so
/// many days later, and nothing exactly when that leaves the calendar.
#[verifier::external_body]
pub(crate) fn plus_days(date: CalendarDate, days: i64) -> (r: Option<CalendarDate>)
    requires
        date.valid(),
    ensures
        r is Some <==> min_number() <= date.number() + days <= max_number(),
        r matches Some(later) ==> later.valid() && later.number() == date.number() + days,
{
    let later = NaiveDate::from_ymd_opt(date.year, date.month, date.day)
        .unwrap()
        .checked_add_signed(TimeDelta::try_days(days)?)?;
    Some(CalendarDate { year: later.year(), month: later.month(), day: later.day() })
}

/// A year as chrono writes it for `%Y`: four digits, or a sign and at least four digits for a year
/// outside of 0 to 9999.
pub open spec fn year_text(year: int) -> Seq<char> {
    if 0 <= year <= 9999 {
        zero_padded(dec(year as nat), 4)
    } else if year < 0 {
        seq!['-'] + zero_padded(dec((-year) as nat), 4)
    } else {
        seq!['+'] + zero_padded(dec(year as nat), 4)
    }
}

/// Day, month and year with dots between them.
pub open spec fn day_month_year(date: CalendarDate) -> Seq<char> {
    zero_padded(dec(date.day as nat), 2) + seq!['.'] + zero_padded(dec(date.month as nat), 2)
        + seq!['.'] + year_text(date.year as int)
}

/// `NaiveDate::format` with `%d.%m.%Y` writes the day and the month with two digits, and the year
/// as `year_text` says. Nothing is claimed of other formats.
#[verifier::external_body]
pub(crate) fn format_date(date: CalendarDate, format: &str) -> (s: String)
    requires
        date.valid(),
        format@ == "%d.%m.%Y"@,
    ensures
        s@ == day_month_year(date),
{
    NaiveDate::from_ymd_opt(date.year, date.month, date.day).unwrap().format(format).to_string()
}

/// A moment as the clock on the wall shows it, down to the minute.
#[derive(Debug, Copy, Clone, PartialEq, Eq, Structural)]
pub struct LocalNow {
    pub date: CalendarDate,
    pub hour: u32,
    pub minute: u32,
}

/// `Local::now` reads the clock of the machine in its time zone. Which moment it gives is left
/// open; that it is a day of the calendar and a time of that day is not.
#[verifier::external_body]
pub(crate) fn local_now() -> (now: LocalNow)
    ensures
        now.date.valid(),
        now.hour < 24,
        now.minute < 60,
{
    let t = Local::now();
    LocalNow {
        date: CalendarDate { year: t.year(), month: t.month(), day: t.day() },
        hour: t.hour(),
        minute: t.minute(),
    }
}

/// By how much local time is ahead of UTC at a time of today. It remembers for which hour and minute
/// the machine was asked, and there is no other way to one than to ask the machine.
#[derive(Debug, Copy, Clone, PartialEq, Eq, Structural)]
pub struct LocalOffset {
    hour: u32,
    minute: u32,
    ahead: i32,
}

impl LocalOffset {
    /// Whether the machine was asked for this time of day.
    pub closed spec fn is_for(self, hour: u32, minute: u32) -> bool {
        self.hour == hour && self.minute == minute
    }

    /// By how many seconds local time is ahead of UTC.
    pub closed spec fn ahead(self) -> int {
        self.ahead as int
    }

    /// By how many seconds local time is ahead of UTC.
    pub fn seconds(&self) -> (r: i32)
        ensures
            r == self.ahead(),
    {
        self.ahead
    }
}

/// `DateTime::with_hour`, `with_minute` and `with_second` set the time of today's local date, and
/// `DateTime::offset` with `FixedOffset::local_minus_utc` tells by how many seconds local time is
/// ahead of UTC at that moment, which is less than a day. There is no such moment where the hour or
/// the minute is out of its range. Which offset comes out, and that none does for a local time which
/// the time zone skips or repeats today, depends on the machine's time zone and on the day, and is
/// left open.
#[verifier::external_body]
pub(crate) fn utc_offset_today(hour: u32, minute: u32) -> (r: Option<LocalOffset>)
    ensures
        hour >= 24 || minute >= 60 ==> r is None,
        r matches Some(offset) ==> offset.is_for(hour, minute) && -86400 < offset.ahead() < 86400,
{
    let t = Local::now().with_hour(hour)?.with_minute(minute)?.with_second(0)?;
    Some(LocalOffset { hour, minute, ahead: t.offset().local_minus_utc() })
}

/// Which day it is in UTC at a local time of day, if local time is `offset` seconds ahead: -1 for the
/// day before the local one, 0 for the same, 1 for the day after.
pub open spec fn utc_day(hour: int, minute: int, offset: int) -> int {
    (hour * 3600 + minute * 60 - offset) / 86400
}

/// Which day it is in UTC at a local time of day, if local time is `offset` seconds ahead.
pub fn utc_day_of(hour: u32, minute: u32, offset: i32) -> (r: i32)
    requires
        hour < 24,
        minute < 60,
        -86400 < offset < 86400,
    ensures
        r == utc_day(hour as int, minute as int, offset as int),
        -1 <= r <= 1,
{
    let second: i32 = hour as i32 * 3600 + minute as i32 * 60 - offset;
    if second < 0 {
        -1
    } else if second < 86400 {
        0
    } else {
        1
    }
}

/// The minute of the day in UTC at a local time of day, if local time is `offset` seconds ahead.
pub open spec fn utc_minute(hour: int, minute: int, offset: int) -> int {
    (hour * 3600 + minute * 60 - offset) % 86400 / 60
}

/// The time of day in UTC at a local time of day, if local time is `offset` seconds ahead.
pub open spec fn utc_time(hour: int, minute: int, offset: int) -> (int, int) {
    (utc_minute(hour, minute, offset) / 60, utc_minute(hour, minute, offset) % 60)
}

/// The time of day in UTC at a local time of day, if local time is `offset` seconds ahead.
pub fn utc_of(hour: u32, minute: u32, offset: i32) -> (r: (u32, u32))
    requires
        hour < 24,
        minute < 60,
        -86400 < offset < 86400,
    ensures
        (r.0 as int, r.1 as int) == utc_time(hour as int, minute as int, offset as int),
        r.0 < 24,
        r.1 < 60,
{
    let later: i32 = hour as i32 * 3600 + minute as i32 * 60 - offset + 86400;
    proof {
        lemma_mod_add_multiples_vanish(hour * 3600 + minute * 60 - offset, 86400);
    }
    let second: i32 = later % 86400;
    let of_day: i32 = second / 60;
    ((of_day / 60) as u32, (of_day % 60) as u32)
}

/// Counted in seconds or in minutes, the time of day comes out the same.
proof fn lemma_minute_of_day(minutes: int)
    ensures
        minutes * 60 % 86400 / 60 == minutes % 1440,
{
    let days = minutes / 1440;
    let of_day = minutes % 1440;
    lemma_fundamental_div_mod_converse(minutes * 60, 86400, days, of_day * 60);
}

/// A time of day in UTC, moved on by the offset, is the local time of day that it was made from,
/// wherever the offset is one of whole minutes.
pub proof fn law_utc_round_trip(hour: int, minute: int, ahead: int)
    requires
        0 <= hour < 24,
        0 <= minute < 60,
    ensures
        ({
            let utc = utc_time(hour, minute, ahead * 60);
            utc_time(utc.0, utc.1, -(ahead * 60)) == (hour, minute)
        }),
{
    let local = hour * 60 + minute;
    lemma_minute_of_day(local - ahead);
    assert(hour * 3600 + minute * 60 - ahead * 60 == (local - ahead) * 60);
    let of_day = (local - ahead) % 1440;
    let days = (local - ahead) / 1440;
    assert(utc_minute(hour, minute, ahead * 60) == of_day);
    let utc = utc_time(hour, minute, ahead * 60);
    lemma_minute_of_day(of_day + ahead);
    assert(utc.0 * 3600 + utc.1 * 60 + ahead * 60 == (of_day + ahead) * 60);
    lemma_fundamental_div_mod_converse(of_day + ahead, 1440, -days, local);
    assert(utc_minute(utc.0, utc.1, -(ahead * 60)) == local);
}

/// The time of day now: hour and minute.
pub fn time_of_day_now() -> (r: (u32, u32))
    ensures
        r.0 < 24,
        r.1 < 60,
{
    let now = local_now();
    (now.hour, now.minute)
}

/// The day whose plan is shown, and by how many days it lies after the one that was asked for.
#[derive(Debug, Copy, Clone, PartialEq, Eq, Structural)]
pub struct RequestedDay {
    pub date: CalendarDate,
    pub raised: u32,
}

/// By how many days a plan is put off because the canteens are closed: a Saturday and a Sunday give
/// way to the Monday after.
pub open spec fn weekend_raise(number: int) -> int {
    if weekday_of(number) == 5 {
        2
    } else if weekday_of(number) == 6 {
        1
    } else {
        0
    }
}

/// Whether the day that lies `days_forward` days after `today`, and the Monday that takes its place
/// on a weekend, are in the calendar.
pub open spec fn within_calendar(today: CalendarDate, days_forward: int) -> bool {
    let asked = today.number() + days_forward;
    min_number() <= asked && asked + weekend_raise(asked) <= max_number()
}

/// The day whose plan is shown when the plan for `days_forward` days after `today` is asked for. These
/// are days of the calendar, also where the clocks are changed on one of them.
pub fn requested_day(today: CalendarDate, days_forward: i64) -> (r: RequestedDay)
    requires
        today.valid(),
        within_calendar(today, days_forward as int),
    ensures
        r.date.valid(),
        r.date.number() == today.number() + days_forward + weekend_raise(
            today.number() + days_forward,
        ),
        r.raised == weekend_raise(today.number() + days_forward),
{
    let asked = plus_days(today, days_forward).unwrap();
    let weekday = weekday_number(asked);
    if weekday == 5 {
        RequestedDay { date: plus_days(asked, 2).unwrap(), raised: 2 }
    } else if weekday == 6 {
        RequestedDay { date: plus_days(asked, 1).unwrap(), raised: 1 }
    } else {
        RequestedDay { date: asked, raised: 0 }
    }
}

/// Whether `r` is the right answer to a request that is made on `today`: the requested day, or
/// `None` where it lies outside of the calendar.
pub open spec fn answers_request(
    today: CalendarDate,
    days_forward: int,
    r: Option<RequestedDay>,
) -> bool {
    let asked = today.number() + days_forward;
    match r {
        Some(day) => {
            &&& within_calendar(today, days_forward)
            &&& day.date.valid()
            &&& day.date.number() == asked + weekend_raise(asked)
            &&& day.raised == weekend_raise(asked)
        },
        None => !within_calendar(today, days_forward),
    }
}

/// The day whose plan is shown when the plan for `days_forward` days after `today` is asked for.
/// `None` where it lies outside of the calendar.
pub fn requested_day_if_any(today: CalendarDate, days_forward: i64) -> (r: Option<RequestedDay>)
    requires
        today.valid(),
    ensures
        answers_request(today, days_forward as int, r),
{
    match plus_days(today, days_forward) {
        None => None,
        Some(asked) => {
            let weekday = weekday_number(asked);
            let raise: i64 = if weekday == 5 {
                2
            } else if weekday == 6 {
                1
            } else {
                0
            };
            match plus_days(asked, raise) {
                None => None,
                Some(_) => Some(requested_day(today, days_forward)),
            }
        },
    }
}

/// A plan is never shown for a Saturday or a Sunday, and it is shown for the first working day on or
/// after the day that was asked for: any day that is passed over is one of the weekend.
pub proof fn law_first_working_day(asked: int)
    ensures
        weekday_of(asked + weekend_raise(asked)) < 5,
        0 <= weekend_raise(asked) <= 2,
        forall|d: int|
            asked <= d < asked + weekend_raise(asked) ==> #[trigger] weekday_of(d) >= 5,
        weekend_raise(asked) > 0 ==> weekday_of(asked + weekend_raise(asked)) == 0,
{
}

/// The rule for the three days that can be asked for: from a Thursday the third of them is the
/// Monday, from a Friday the second and the third, from a Saturday all three, and from a Sunday the
/// third one is the Tuesday.
pub proof fn law_three_days(today: int)
    ensures
        ({
            let shown = |ahead: int| today + ahead + weekend_raise(today + ahead);
            &&& weekday_of(today) <= 2 ==> shown(0) == today && shown(1) == today + 1 && shown(2)
                == today + 2
            &&& weekday_of(today) == 3 ==> shown(0) == today && shown(1) == today + 1 && shown(2)
                == today + 4
            &&& weekday_of(today) == 4 ==> shown(0) == today && shown(1) == today + 3 && shown(2)
                == today + 3
            &&& weekday_of(today) == 5 ==> shown(0) == today + 2 && shown(1) == today + 2
                && shown(2) == today + 2
            &&& weekday_of(today) == 6 ==> shown(0) == today + 1 && shown(1) == today + 1
                && shown(2) == today + 2
        }),
{
}

proof fn lemma_months(year: int, a: int, b: int)
    requires
        1 <= a < b <= 12,
    ensures
        days_before_month(year, a) + days_in_month(year, a) <= days_before_month(year, b),
    decreases b,
{
    if a < b - 1 {
        lemma_months(year, a, b - 1);
    }
}

/// Going from one number to the next, a quotient grows by one exactly at a multiple of the divisor.
proof fn lemma_next_quotient(year: int, divisor: int)
    requires
        divisor == 4 || divisor == 100 || divisor == 400,
    ensures
        year / divisor - (year - 1) / divisor == if year % divisor == 0 {
            1int
        } else {
            0
        },
{
}

/// The number of days of a year.
pub open spec fn year_length(year: int) -> int {
    if is_leap(year) {
        366
    } else {
        365
    }
}

/// A multiple of 400 is one of 100, and a multiple of 100 is one of 4.
proof fn lemma_multiples(year: int)
    ensures
        year % 400 == 0 ==> year % 100 == 0,
        year % 100 == 0 ==> year % 4 == 0,
{
    if year % 400 == 0 {
        lemma_fundamental_div_mod_converse(year, 100, 4 * (year / 400), 0);
    }
    if year % 100 == 0 {
        lemma_fundamental_div_mod_converse(year, 4, 25 * (year / 100), 0);
    }
}

#[verifier::spinoff_prover]
proof fn lemma_leap_days(year: int)
    ensures
        days_before_year(year + 1) - days_before_year(year) == year_length(year),
{
    lemma_multiples(year);
    lemma_next_quotient(year, 4);
    lemma_next_quotient(year, 100);
    lemma_next_quotient(year, 400);
}

proof fn lemma_month_lengths(year: int)
    ensures
        days_before_month(year, 12) + 31 == year_length(year),
{
    assert(days_before_month(year, 6) == days_in_month(year, 2) + 123) by {
        reveal_with_fuel(days_before_month, 7);
    }
    assert(days_before_month(year, 12) == days_before_month(year, 6) + 183) by {
        reveal_with_fuel(days_before_month, 7);
    }
}

pub proof fn lemma_year_length(year: int)
    ensures
        days_before_year(year + 1) - days_before_year(year) == year_length(year),
        days_before_month(year, 12) + 31 == days_before_year(year + 1) - days_before_year(year),
{
    lemma_leap_days(year);
    lemma_month_lengths(year);
}

proof fn lemma_years(a: int, b: int)
    requires
        a < b,
    ensures
        days_before_year(a + 1) <= days_before_year(b),
    decreases b - a,
{
    if a + 1 < b {
        lemma_years(a, b - 1);
        lemma_year_length(b - 1);
    }
}

proof fn lemma_day_in_year(date: CalendarDate)
    requires
        date.valid(),
    ensures
        days_before_year(date.year as int) < date.number() <= days_before_year(date.year + 1),
        days_before_month(date.year as int, date.month as int) >= 0,
{
    let year = date.year as int;
    let month = date.month as int;
    lemma_year_length(year);
    if month < 12 {
        lemma_months(year, month, 12);
    }
    if month > 1 {
        lemma_months(year, 1, month);
    }
}

/// Two days with the same number are the same day, and the numbers lie within the bounds of the
/// calendar: so a day is pinned down by its number.
pub proof fn law_number_names_day(a: CalendarDate, b: CalendarDate)
    requires
        a.valid(),
        b.valid(),
    ensures
        a.number() == b.number() ==> a == b,
        min_number() <= a.number() <= max_number(),
{
    lemma_day_in_year(a);
    lemma_day_in_year(b);
    if a.year < b.year {
        lemma_years(a.year as int, b.year as int);
    } else if b.year < a.year {
        lemma_years(b.year as int, a.year as int);
    } else if a.month < b.month {
        lemma_months(a.year as int, a.month as int, b.month as int);
    } else if b.month < a.month {
        lemma_months(a.year as int, b.month as int, a.month as int);
    }
    if a.year < MAX_YEAR {
        lemma_years(a.year as int, MAX_YEAR + 1);
    }
    if MIN_YEAR < a.year {
        lemma_years(MIN_YEAR as int, a.year as int);
        lemma_year_length(MIN_YEAR as int);
    }
}

} // verus!
