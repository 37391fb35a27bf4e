use chrono::Datelike;
use payroll_core::dates::{
    business_days, date_text, days_in_month, report_time_text, iso_date, long_date, month_bounds, short_date,
    CalendarDay, CalendarTime, MAX_DAY, MIN_DAY,
};

fn day(y: i32, m: u32, d: u32) -> CalendarDay {
    CalendarDay { days: chrono::NaiveDate::from_ymd_opt(y, m, d).unwrap().num_days_from_ce() }
}

#[test]
fn dates_display_as_iso() {
    assert_eq!(date_text(day(2024, 3, 7)), "2024-03-07");
    assert_eq!(date_text(day(5, 1, 2)), "0005-01-02");
    assert_eq!(date_text(day(-1, 12, 31)), "-0001-12-31");
    assert_eq!(date_text(day(12345, 6, 7)), "+12345-06-07");
    assert_eq!(iso_date(day(2024, 3, 7)), "2024-03-07");
}

#[test]
fn date_text_matches_chrono_display() {
    for (y, m, d) in [(2024, 2, 29), (1, 1, 1), (9999, 12, 31), (10000, 1, 1), (-44, 3, 15)] {
        let expected = chrono::NaiveDate::from_ymd_opt(y, m, d).unwrap().to_string();
        assert_eq!(date_text(day(y, m, d)), expected);
    }
}

#[test]
fn short_and_long_dates() {
    assert_eq!(short_date(day(2024, 3, 7)), "Mar 7");
    assert_eq!(long_date(day(2024, 3, 7)), "Mar 7, 2024");
}

#[test]
fn representable_days() {
    assert_eq!(day(-262143, 1, 1).days, MIN_DAY);
    assert_eq!(day(262142, 12, 31).days, MAX_DAY);
    assert_eq!(date_text(CalendarDay { days: MIN_DAY }), "-262143-01-01");
    assert_eq!(date_text(CalendarDay { days: MAX_DAY }), "+262142-12-31");
}

#[test]
fn business_days_count_weekdays_inclusive() {
    assert_eq!(business_days(day(2024, 3, 4), day(2024, 3, 15)), 10);
    assert_eq!(business_days(day(2024, 3, 9), day(2024, 3, 10)), 0);
    assert_eq!(business_days(day(2024, 3, 8), day(2024, 3, 8)), 1);
    assert_eq!(business_days(day(2024, 3, 15), day(2024, 3, 4)), 0);
}

#[test]
fn month_bounds_and_lengths() {
    assert_eq!(month_bounds(day(2024, 2, 15)), (day(2024, 2, 1), day(2024, 3, 1)));
    assert_eq!(month_bounds(day(2024, 12, 31)), (day(2024, 12, 1), day(2025, 1, 1)));
    assert_eq!(days_in_month(2024, 2), 29);
    assert_eq!(days_in_month(2023, 2), 28);
    assert_eq!(days_in_month(2024, 12), 31);
    assert_eq!(days_in_month(2024, 4), 30);
}

#[test]
fn report_generation_time() {
    let at = CalendarTime { day: day(2024, 3, 7), seconds: 9 * 3600 + 30 * 60 + 5 };
    assert_eq!(report_time_text(at), "2024-03-07 09:30:05 UTC");
    assert_eq!(days_in_month(i32::MAX, 11), 30);
}
