use payroll_core::dashboard::{
    biweekly_tax, breakdown_year, employee_counts, estimated_gross_pay, estimated_net_pay,
    hires_label, month_breakdown, month_figures_label, monthly_figures,
    needs_year_to_date_contributions, no_pay_period, pay_period_calendar, reference_day,
    title_case_status, MonthlyTotals,
};
use chrono::Datelike;
use payroll_core::dates::CalendarDay;
use payroll_core::decimal::Amount;
use rust_decimal::Decimal;

fn day(y: i32, m: u32, d: u32) -> CalendarDay {
    CalendarDay { days: chrono::NaiveDate::from_ymd_opt(y, m, d).unwrap().num_days_from_ce() }
}

fn dec(a: Amount) -> Decimal {
    Decimal::from_i128_with_scale(a.mantissa, a.scale)
}

fn whole(n: i64) -> Amount {
    Amount::from_int(n)
}

#[test]
fn tax_on_annualized_income() {
    assert_eq!(dec(biweekly_tax(whole(52_000))), Decimal::new(13269, 2));
    assert_eq!(dec(biweekly_tax(whole(29_000))), Decimal::ZERO);
    assert_eq!(dec(biweekly_tax(whole(100_000))), Decimal::new(40962, 2));
}

#[test]
fn estimates_from_compensation() {
    assert_eq!(dec(estimated_gross_pay("salaried", Some(whole(52_000)), None)), Decimal::from(2_000));
    assert_eq!(dec(estimated_gross_pay("hourly", None, Some(whole(25)))), Decimal::from(2_000));
    assert_eq!(dec(estimated_gross_pay("contractor", Some(whole(900)), None)), Decimal::from(900));
    assert_eq!(dec(estimated_gross_pay("temp", Some(whole(900)), None)), Decimal::ZERO);
    assert_eq!(dec(estimated_net_pay("salaried", Some(whole(52_000)), None)), Decimal::new(186731, 2));
    assert_eq!(dec(estimated_net_pay("hourly", None, Some(whole(25)))), Decimal::new(186731, 2));
    assert_eq!(dec(estimated_net_pay("contractor", Some(whole(1_000)), None)), Decimal::from(1_000));
}

#[test]
fn statuses_in_words() {
    assert_eq!(title_case_status("in_review"), "In Review");
    assert_eq!(title_case_status("PAID"), "Paid");
    assert_eq!(title_case_status(""), "");
    assert_eq!(title_case_status("a__b"), "A  B");
}

#[test]
fn counts_by_status() {
    let statuses: Vec<String> = ["active", "inactive", "active", "Active"].iter().map(|s| s.to_string()).collect();
    let c = employee_counts(&statuses);
    assert_eq!((c.total, c.active, c.inactive), (4, 2, 2));
    let none = employee_counts(&Vec::new());
    assert_eq!((none.total, none.active, none.inactive), (0, 0, 0));
}

fn totals(month: i32, total: i64) -> MonthlyTotals {
    MonthlyTotals {
        month,
        total: whole(total),
        base: whole(total),
        tax_paid: Amount::zero(),
        company_contributions: Amount::zero(),
    }
}

#[test]
fn twelve_months_with_the_last_row_winning() {
    let months = month_breakdown(&vec![totals(3, 100), totals(5, 7), totals(5, 9)]);
    assert_eq!(months.len(), 12);
    assert_eq!((months[0].month, months[0].label.as_str()), (1, "Jan"));
    assert_eq!(dec(months[0].total), Decimal::ZERO);
    assert_eq!(dec(months[2].total), Decimal::from(100));
    assert_eq!(dec(months[4].total), Decimal::from(9));
    assert_eq!(months[11].label, "Dec");
}

#[test]
fn breakdown_years() {
    assert_eq!(breakdown_year(Some(2025), 2026), (2025, 2025));
    assert_eq!(breakdown_year(None, 2026), (2026, 2026));
    assert_eq!(breakdown_year(Some(3_000_000_000), 2026), (2026, 2026));
}

#[test]
fn reference_month() {
    let today = day(2024, 4, 10);
    let last = day(2024, 3, 20);
    assert_eq!(reference_day(today, 2, Some(last)), today);
    assert_eq!(reference_day(today, 0, Some(last)), last);
    assert_eq!(reference_day(today, 0, None), today);
}

#[test]
fn labels() {
    assert_eq!(month_figures_label(day(2024, 3, 7), day(2024, 3, 20)), "This Month (March 2024)");
    assert_eq!(month_figures_label(day(2024, 3, 7), day(2024, 4, 1)), "Most Recent (March 2024)");
    assert_eq!(month_figures_label(day(2023, 4, 7), day(2024, 4, 1)), "Most Recent (April 2023)");
    assert_eq!(hires_label(3), "3 added since last month");
    assert_eq!(hires_label(0), "0 added since last month");
}

#[test]
fn year_to_date_contributions_when_none_this_period() {
    assert!(needs_year_to_date_contributions(Amount::zero()));
    assert!(needs_year_to_date_contributions(whole(-1)));
    assert!(!needs_year_to_date_contributions(Amount::new(1, 2)));
}

#[test]
fn pay_period_figures() {
    let c = pay_period_calendar(day(2024, 3, 4), day(2024, 3, 15), day(2024, 3, 20), "processing");
    assert_eq!((c.working_days, c.working_hours), (10, 80));
    assert_eq!(c.label, "Current Pay Period (Processing)");
    assert_eq!((c.start_date.as_str(), c.end_date.as_str()), ("Mar 4", "Mar 15"));
    assert_eq!(c.payday_date, "Mar 20, 2024");
    assert_eq!((c.day_of_month, c.total_days_in_period), (20, 31));
}

#[test]
fn monthly_figures_of_the_dashboard() {
    let f = monthly_figures(
        Amount::new(123456, 3),
        Amount::new(100, 0),
        Amount::zero(),
        -2,
        4,
        day(2024, 3, 7),
        day(2024, 3, 9),
    );
    assert_eq!(f.payroll_total, "123.46");
    assert_eq!(f.deductions_total, "100");
    assert_eq!(f.contributions_total, "0");
    assert_eq!(f.employee_count, 0);
    assert_eq!(f.employee_delta, "4 added since last month");
    assert_eq!(f.payroll_label, "This Month (March 2024)");
    assert_eq!(f.contributions_label, f.deductions_label);
}

#[test]
fn empty_pay_period() {
    let p = no_pay_period();
    assert_eq!(p.label, "Current Pay Period");
    assert_eq!(p.start_date, "\u{2014}");
    assert_eq!(p.payday.total, "$0.00");
    assert_eq!((p.working_days, p.payday.day_of_month), (0, 0));
}
