//! Calendar days and times as plain numbers, with `chrono` doing the calendar
//! work.
//!
//! A [`CalendarDay`] is a day number in the proleptic Gregorian calendar,
//! January 1 of year 1 being day 1 (`Datelike::num_days_from_ce`). The days
//! that `chrono::NaiveDate` can represent run from year -262143 through year
//! 262142.

use vstd::prelude::*;
use chrono::Datelike;
use crate::text::{i64_to_string, int_text, pad_zeros, push_char, push_str, zero_padded};

verus! {

/// The day number of the first date `chrono` represents (-262143-01-01).
pub const MIN_DAY: i32 = -95_746_129;

/// The day number of the last date `chrono` represents (262142-12-31).
pub const MAX_DAY: i32 = 95_745_399;

/// Seconds in a day.
pub const SECONDS_PER_DAY: u32 = 86_400;

/// A calendar day, counted from January 1 of year 1 (day 1).
#[derive(Clone, Copy, Debug, PartialEq, Eq)]
pub struct CalendarDay {
    pub days: i32,
}

/// A moment of a day without time zone, to the second.
#[derive(Clone, Copy, Debug, PartialEq, Eq)]
pub struct CalendarTime {
    pub day: CalendarDay,
    pub seconds: u32,
}

/// The day number is one that `chrono` represents.
pub open spec fn day_exists(days: int) -> bool {
    MIN_DAY <= days <= MAX_DAY
}

impl CalendarDay {
    /// The day is representable.
    pub open spec fn wf(self) -> bool {
        day_exists(self.days as int)
    }
}

impl CalendarTime {
    /// The day is representable and the seconds fall within it.
    pub open spec fn wf(self) -> bool {
        self.day.wf() && self.seconds < SECONDS_PER_DAY
    }
}

/// The day of the week of a day number, 0 for Monday through 6 for Sunday
/// (January 1 of year 1 was a Monday).
pub open spec fn weekday_of(days: int) -> int {
    (days + 6) % 7
}

/// `Datelike::weekday().num_days_from_monday()`.
#[verifier::external_body]
pub(crate) fn weekday_from_monday(day: CalendarDay) -> (r: u32)
    requires
        day.wf(),
    ensures
        r == weekday_of(day.days as int),
{
    chrono::NaiveDate::from_num_days_from_ce_opt(day.days).unwrap().weekday().num_days_from_monday()
}

/// `NaiveDate::succ_opt`: the next day, absent after the last representable
/// date.
#[verifier::external_body]
pub(crate) fn next_day(day: CalendarDay) -> (r: Option<CalendarDay>)
    requires
        day.wf(),
    ensures
        r == (if day.days < MAX_DAY {
            Some(CalendarDay { days: (day.days + 1) as i32 })
        } else {
            None
        }),
{
    chrono::NaiveDate::from_num_days_from_ce_opt(day.days).unwrap().succ_opt().map(
        |d| CalendarDay { days: d.num_days_from_ce() },
    )
}

/// The day number of a year, month and day, when that date exists, as
/// `NaiveDate::from_ymd_opt` finds it.
pub uninterp spec fn day_of_ymd(year: int, month: int, day: int) -> Option<int>;

/// `NaiveDate::from_ymd_opt`.
///
/// Claims that the result is `day_of_ymd` of the arguments and, when present,
/// a representable day whose year, month and day of month are the arguments;
/// how the calendar maps dates to day numbers is left to the names.
#[verifier::external_body]
pub(crate) fn date_from_ymd(year: i32, month: u32, day: u32) -> (r: Option<CalendarDay>)
    ensures
        r matches Some(d) ==> day_of_ymd(year as int, month as int, day as int) == Some(
            d.days as int,
        ) && d.wf() && civil_date(d.days as int) == (year as int, month as int, day as int),
        r is None ==> day_of_ymd(year as int, month as int, day as int) is None,
{
    chrono::NaiveDate::from_ymd_opt(year, month, day).map(|d| CalendarDay { days: d.num_days_from_ce() })
}

/// The year, month (1 to 12) and day of month of a day number (day 1 is
/// 1 January of year 1) in the proleptic Gregorian calendar: counted from
/// 1 March of year 0 (day -305), in eras of 400 years (146,097 days), years
/// that start in March, and months of 153 days per five.
#[verifier::opaque]
pub open spec fn civil_date(days: int) -> (int, int, int) {
    let z = days + 305;
    let era = z / 146_097;
    let doe = z - era * 146_097;
    let yoe = (doe - doe / 1_460 + doe / 36_524 - doe / 146_096) / 365;
    let doy = doe - (365 * yoe + yoe / 4 - yoe / 100);
    let mp = (5 * doy + 2) / 153;
    let day = doy - (153 * mp + 2) / 5 + 1;
    let month = if mp < 10 {
        mp + 3
    } else {
        mp - 9
    };
    let year = yoe + era * 400 + (if month <= 2 {
        1int
    } else {
        0int
    });
    (year, month, day)
}

/// `Datelike::year`, `Datelike::month` and `Datelike::day`.
///
/// Claims that the parts are `civil_date` of the day, with the month from 1
/// to 12 and the day of month from 1 to 31, and that `from_ymd_opt` of the
/// parts gives the day back.
#[verifier::external_body]
pub(crate) fn date_parts(day: CalendarDay) -> (r: (i32, u32, u32))
    requires
        day.wf(),
    ensures
        (r.0 as int, r.1 as int, r.2 as int) == civil_date(day.days as int),
        day_of_ymd(r.0 as int, r.1 as int, r.2 as int) == Some(day.days as int),
        1 <= r.1 <= 12,
        1 <= r.2 <= 31,
        -262_143 <= r.0 <= 262_142,
{
    let d = chrono::NaiveDate::from_num_days_from_ce_opt(day.days).unwrap();
    (d.year(), d.month(), d.day())
}

/// The text `chrono` prints for a day with the given `strftime` pattern.
pub uninterp spec fn day_text(days: int, pattern: Seq<char>) -> Seq<char>;

/// The `strftime` patterns that days are printed with. Each names only date
/// fields (`%Y`, `%m`, `%d`, `%b`, `%-d`, `%B`) that every `NaiveDate` has, so
/// `chrono` prints them without a formatting error.
pub open spec fn day_pattern(pattern: Seq<char>) -> bool {
    ||| pattern == "%Y-%m-%d"@
    ||| pattern == "%b %-d"@
    ||| pattern == "%b %-d, %Y"@
    ||| pattern == "%B %Y"@
}

/// The `strftime` patterns that moments are printed with. Each names only
/// date and time fields (`%Y`, `%m`, `%d`, `%H`, `%M`, `%S`) that every
/// `NaiveDateTime` has, so `chrono` prints them without a formatting error.
pub open spec fn time_pattern(pattern: Seq<char>) -> bool {
    ||| pattern == "%Y-%m-%d %H:%M:%S"@
    ||| pattern == "%Y%m%d_%H%M%S"@
    ||| pattern == "%Y-%m-%d %H:%M:%S UTC"@
}

/// Formats a day with one of the crate's `strftime` patterns
/// (`NaiveDate::format`).
///
/// Claims only that the text is `day_text` of the day and the pattern. Other
/// patterns are not admitted: an unknown specifier or a field a date lacks
/// makes `chrono` report a formatting error, on which `to_string` panics.
#[verifier::external_body]
pub(crate) fn format_day(day: CalendarDay, pattern: &str) -> (r: String)
    requires
        day.wf(),
        day_pattern(pattern@),
    ensures
        r@ == day_text(day.days as int, pattern@),
{
    chrono::NaiveDate::from_num_days_from_ce_opt(day.days).unwrap().format(pattern).to_string()
}

/// The text `chrono` prints for a moment with the given `strftime` pattern.
pub uninterp spec fn time_text(days: int, seconds: int, pattern: Seq<char>) -> Seq<char>;

/// Formats a moment with one of the crate's `strftime` patterns
/// (`NaiveDateTime::format`).
///
/// Claims only that the text is `time_text` of the moment and the pattern.
/// Other patterns are not admitted: an unknown specifier or a field the value
/// lacks (an offset) makes `chrono` report a formatting error, on which
/// `to_string` panics.
#[verifier::external_body]
pub(crate) fn format_time(moment: CalendarTime, pattern: &str) -> (r: String)
    requires
        moment.wf(),
        time_pattern(pattern@),
    ensures
        r@ == time_text(moment.day.days as int, moment.seconds as int, pattern@),
{
    let date = chrono::NaiveDate::from_num_days_from_ce_opt(moment.day.days).unwrap();
    let time = chrono::NaiveTime::from_num_seconds_from_midnight_opt(moment.seconds, 0).unwrap();
    date.and_time(time).format(pattern).to_string()
}

/// A day as `YYYY-MM-DD`, the way `NaiveDate` prints itself.
pub fn iso_date(day: CalendarDay) -> (r: String)
    requires
        day.wf(),
    ensures
        r@ == day_text(day.days as int, "%Y-%m-%d"@),
{
    format_day(day, "%Y-%m-%d")
}

/// A day as month abbreviation and day of month, e.g. `Mar 7`.
pub fn short_date(day: CalendarDay) -> (r: String)
    requires
        day.wf(),
    ensures
        r@ == day_text(day.days as int, "%b %-d"@),
{
    format_day(day, "%b %-d")
}

/// A day as month abbreviation, day of month and year, e.g. `Mar 7, 2026`.
pub fn long_date(day: CalendarDay) -> (r: String)
    requires
        day.wf(),
    ensures
        r@ == day_text(day.days as int, "%b %-d, %Y"@),
{
    format_day(day, "%b %-d, %Y")
}

/// The number of Monday-to-Friday days from `start` through `end`.
pub open spec fn weekdays_between(start: int, end: int) -> int
    decreases end - start + 1,
{
    if end < start {
        0
    } else {
        weekdays_between(start, end - 1) + (if weekday_of(end) < 5 {
            1int
        } else {
            0int
        })
    }
}

/// At most one business day per day of the range.
proof fn lemma_weekdays_bounded(start: int, end: int)
    ensures
        0 <= weekdays_between(start, end),
        weekdays_between(start, end) <= (if end < start {
            0
        } else {
            end - start + 1
        }),
    decreases end - start + 1,
{
    if end >= start {
        lemma_weekdays_bounded(start, end - 1);
    }
}

/// The number of business days (Monday to Friday) from `start` through
/// `end`, both included; zero when `end` comes before `start`.
pub fn business_days(start: CalendarDay, end: CalendarDay) -> (r: u32)
    requires
        start.wf(),
        end.wf(),
    ensures
        r == weekdays_between(start.days as int, end.days as int),
        r <= (if end.days < start.days {
            0
        } else {
            end.days - start.days + 1
        }),
{
    proof {
        lemma_weekdays_bounded(start.days as int, end.days as int);
    }
    if end.days < start.days {
        return 0;
    }
    let mut date = start;
    let mut count: u32 = 0;
    while date.days <= end.days
        invariant_except_break
            start.days <= date.days <= end.days + 1,
            date.wf() || date.days == end.days + 1,
            end.wf(),
            count == weekdays_between(start.days as int, date.days - 1),
            count <= date.days - start.days,
        ensures
            count == weekdays_between(start.days as int, end.days as int),
        decreases end.days + 1 - date.days,
    {
        proof {
            lemma_weekdays_bounded(start.days as int, date.days as int);
        }
        let weekday = weekday_from_monday(date);
        if weekday < 5 {
            count = count + 1;
        }
        match next_day(date) {
            Some(next) => date = next,
            None => {
                break;
            },
        }
    }
    count
}

/// The first day of the month of `day` and the first day of the next month
/// (each falling back as `chrono` may return no date).
pub open spec fn spec_month_bounds(day: int) -> (int, int) {
    let ymd = civil_date(day);
    let start = match day_of_ymd(ymd.0, ymd.1, 1) {
        Some(s) => s,
        None => day,
    };
    let next_ym = if ymd.1 == 12 {
        (ymd.0 + 1, 1int)
    } else {
        (ymd.0, ymd.1 + 1)
    };
    let next = match day_of_ymd(next_ym.0, next_ym.1, 1) {
        Some(n) => n,
        None => start,
    };
    (start, next)
}

/// The first day of the month of `day` and the first day of the following
/// month.
pub fn month_bounds(day: CalendarDay) -> (r: (CalendarDay, CalendarDay))
    requires
        day.wf(),
    ensures
        (r.0.days as int, r.1.days as int) == spec_month_bounds(day.days as int),
        r.0.wf(),
        r.1.wf(),
        r.0 == day || civil_date(r.0.days as int) == (
            civil_date(day.days as int).0,
            civil_date(day.days as int).1,
            1int,
        ),
{
    let (year, month, _) = date_parts(day);
    let start = match date_from_ymd(year, month, 1) {
        Some(s) => s,
        None => day,
    };
    let (next_year, next_month) = if month == 12 {
        (year + 1, 1)
    } else {
        (year, month + 1)
    };
    let next_start = match date_from_ymd(next_year, next_month, 1) {
        Some(n) => n,
        None => start,
    };
    (start, next_start)
}

/// The number of days of a month: the days from its first day to the first
/// day of the next month, or 30 when `chrono` has no such dates.
pub open spec fn spec_days_in_month(year: int, month: int) -> int {
    let next_ym = if month == 12 {
        (year + 1, 1int)
    } else {
        (year, month + 1)
    };
    match (day_of_ymd(year, month, 1), day_of_ymd(next_ym.0, next_ym.1, 1)) {
        (Some(s), Some(n)) => if n - s > 0 {
            n - s
        } else {
            0
        },
        _ => 30,
    }
}

/// The number of days in a month of a year.
pub fn days_in_month(year: i32, month: u32) -> (r: u32)
    requires
        month == 12 ==> year < i32::MAX,
        month < u32::MAX,
    ensures
        r == spec_days_in_month(year as int, month as int),
{
    let start = date_from_ymd(year, month, 1);
    let (next_year, next_month) = if month == 12 {
        (year + 1, 1)
    } else {
        (year, month + 1)
    };
    let next_start = date_from_ymd(next_year, next_month, 1);
    match (start, next_start) {
        (Some(s), Some(n)) => {
            if n.days > s.days {
                (n.days - s.days) as u32
            } else {
                0
            }
        },
        _ => 30,
    }
}

/// How `NaiveDate` displays itself: the year as four digits when it lies from
/// 0 to 9999, otherwise with its sign and at least four digits, then the month
/// and the day of month as two digits each, joined by `-`.
pub open spec fn spec_date_text(days: int) -> Seq<char> {
    let (y, m, d) = civil_date(days);
    let year = if 0 <= y && y <= 9999 {
        zero_padded(int_text(y), 4)
    } else if y < 0 {
        seq!['-'] + zero_padded(int_text(-y), 4)
    } else {
        seq!['+'] + zero_padded(int_text(y), 4)
    };
    year + seq!['-'] + zero_padded(int_text(m), 2) + seq!['-'] + zero_padded(int_text(d), 2)
}

/// `NaiveDate::to_string`.
pub fn date_text(day: CalendarDay) -> (r: String)
    requires
        day.wf(),
    ensures
        r@ == spec_date_text(day.days as int),
{
    let (y, m, d) = date_parts(day);
    let mut out = String::new();
    if 0 <= y && y <= 9999 {
        let digits = i64_to_string(y as i64);
        let year = pad_zeros(digits.as_str(), 4);
        push_str(&mut out, year.as_str());
    } else {
        let magnitude: i64 = if y < 0 { -(y as i64) } else { y as i64 };
        push_char(&mut out, if y < 0 { '-' } else { '+' });
        let digits = i64_to_string(magnitude);
        let year = pad_zeros(digits.as_str(), 4);
        push_str(&mut out, year.as_str());
    }
    push_char(&mut out, '-');
    let month_digits = i64_to_string(m as i64);
    let month = pad_zeros(month_digits.as_str(), 2);
    push_str(&mut out, month.as_str());
    push_char(&mut out, '-');
    let day_digits = i64_to_string(d as i64);
    let day_of_month = pad_zeros(day_digits.as_str(), 2);
    push_str(&mut out, day_of_month.as_str());
    out
}

/// The moment a report was generated, as the PDF heading shows it:
/// `YYYY-MM-DD HH:MM:SS UTC`.
pub fn report_time_text(moment: CalendarTime) -> (r: String)
    requires
        moment.wf(),
    ensures
        r@ == time_text(moment.day.days as int, moment.seconds as int, "%Y-%m-%d %H:%M:%S UTC"@),
{
    format_time(moment, "%Y-%m-%d %H:%M:%S UTC")
}

} // verus!
