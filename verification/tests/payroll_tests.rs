use payroll_core::decimal::Amount;
use payroll_core::payroll::{
    biweekly_tax, calculate_payroll_run, capped_company_match, estimated_net_pay,
    parse_employment_type, title_case_status, total_runs, EmploymentType, PayrollRunAmounts,
    PayrollRunInput, TimesheetHours,
};
use payroll_core::payroll::BIWEEKLY_PERIODS_PER_YEAR;
use rust_decimal::Decimal;

fn dec(a: Amount) -> Decimal {
    Decimal::from_i128_with_scale(a.mantissa, a.scale)
}

fn amt(d: Decimal) -> Amount {
    Amount { mantissa: d.mantissa(), scale: d.scale() }
}

fn whole(n: i64) -> Amount {
    Amount::from_int(n)
}

fn cents(n: i64) -> Amount {
    Amount::new(n, 2)
}

#[test]
fn biweekly_tax_follows_flat_rule_after_allowance() {
    let gross_biweekly = amt(Decimal::from(100_000) / Decimal::from(BIWEEKLY_PERIODS_PER_YEAR));
    let tax = biweekly_tax(gross_biweekly);

    assert_eq!(dec(tax), Decimal::new(40962, 2));
}

#[test]
fn company_match_is_capped_by_remaining_annual_limit() {
    let this_period_savings = whole(8_000);
    let already_matched = whole(7_500);
    let company_match = capped_company_match(this_period_savings, already_matched);

    assert_eq!(dec(company_match), Decimal::from(2_500));
}

#[test]
fn company_match_is_zero_when_cap_is_exhausted() {
    let this_period_savings = whole(2_000);
    let already_matched = whole(10_000);
    let company_match = capped_company_match(this_period_savings, already_matched);

    assert_eq!(dec(company_match), Decimal::ZERO);
}

#[test]
fn biweekly_tax_is_zero_within_the_allowance() {
    // 1,000 per period is 26,000 a year, below the 29,000 allowance.
    assert_eq!(dec(biweekly_tax(whole(1_000))), Decimal::ZERO);
    assert_eq!(dec(biweekly_tax(Amount::zero())), Decimal::ZERO);
}

#[test]
fn biweekly_tax_of_a_whole_salary() {
    // 2,000 a period: (52,000 - 29,000) * 15% / 26 = 132.6923... -> 132.69
    assert_eq!(dec(biweekly_tax(whole(2_000))), Decimal::new(13269, 2));
}

#[test]
fn company_match_follows_savings_below_the_cap() {
    let m = capped_company_match(cents(12_345), whole(1_000));
    assert_eq!(dec(m), Decimal::new(12_345, 2));
}

#[test]
fn company_match_of_negative_savings_is_zero() {
    let m = capped_company_match(whole(-50), whole(0));
    assert_eq!(dec(m), Decimal::ZERO);
}

#[test]
fn employment_types_are_read_exactly() {
    assert_eq!(parse_employment_type("salaried"), EmploymentType::Salaried);
    assert_eq!(parse_employment_type("hourly"), EmploymentType::Hourly);
    assert_eq!(parse_employment_type("contractor"), EmploymentType::Contractor);
    assert_eq!(parse_employment_type("Salaried"), EmploymentType::Other);
    assert_eq!(parse_employment_type(""), EmploymentType::Other);
}

fn salaried_input(annual: i64, savings: Amount) -> PayrollRunInput {
    PayrollRunInput {
        employment_type: "salaried".to_string(),
        base_salary: Some(whole(annual)),
        hourly_rate: None,
        timesheet: None,
        earnings_adjustments: Amount::zero(),
        deduction_adjustments: Amount::zero(),
        savings,
        matched_to_date: Amount::zero(),
    }
}

#[test]
fn salaried_run_pays_a_26th_of_the_salary() {
    let run = calculate_payroll_run(&salaried_input(52_000, whole(100)));
    assert_eq!(dec(run.regular_pay), Decimal::from(2_000));
    assert_eq!(dec(run.overtime_pay), Decimal::ZERO);
    assert_eq!(dec(run.bonuses), Decimal::ZERO);
    assert_eq!(dec(run.gross_pay), Decimal::from(2_000));
    assert_eq!(dec(run.tax_deduction), Decimal::new(13269, 2));
    assert_eq!(dec(run.employee_savings), Decimal::from(100));
    assert_eq!(dec(run.company_match), Decimal::from(100));
    assert_eq!(dec(run.total_deductions), Decimal::new(23269, 2));
    assert_eq!(dec(run.net_pay), Decimal::new(176731, 2));
}

#[test]
fn hourly_run_pays_overtime_at_one_and_a_half() {
    let input = PayrollRunInput {
        employment_type: "hourly".to_string(),
        base_salary: None,
        hourly_rate: Some(whole(25)),
        timesheet: Some(TimesheetHours { regular_hours: whole(80), overtime_hours: whole(10) }),
        earnings_adjustments: Amount::zero(),
        deduction_adjustments: Amount::zero(),
        savings: Amount::zero(),
        matched_to_date: Amount::zero(),
    };
    let run = calculate_payroll_run(&input);
    assert_eq!(dec(run.regular_pay), Decimal::from(2_000));
    assert_eq!(dec(run.overtime_pay), Decimal::from(375));
    assert_eq!(dec(run.gross_pay), Decimal::from(2_375));
    // (61,750 - 29,000) * 15% / 26 = 188.9423... -> 188.94
    assert_eq!(dec(run.tax_deduction), Decimal::new(18894, 2));
    assert_eq!(dec(run.company_match), Decimal::ZERO);
    assert_eq!(dec(run.net_pay), Decimal::new(218606, 2));
}

#[test]
fn hourly_run_without_timesheet_pays_nothing() {
    let input = PayrollRunInput {
        employment_type: "hourly".to_string(),
        base_salary: None,
        hourly_rate: Some(whole(25)),
        timesheet: None,
        earnings_adjustments: Amount::zero(),
        deduction_adjustments: Amount::zero(),
        savings: whole(50),
        matched_to_date: Amount::zero(),
    };
    let run = calculate_payroll_run(&input);
    assert_eq!(dec(run.gross_pay), Decimal::ZERO);
    assert_eq!(dec(run.employee_savings), Decimal::ZERO);
    assert_eq!(dec(run.total_deductions), Decimal::ZERO);
    assert_eq!(dec(run.net_pay), Decimal::ZERO);
}

#[test]
fn contractor_run_pays_the_period_amount_with_bonus() {
    let input = PayrollRunInput {
        employment_type: "contractor".to_string(),
        base_salary: Some(whole(1_000)),
        hourly_rate: None,
        timesheet: None,
        earnings_adjustments: whole(200),
        deduction_adjustments: whole(30),
        savings: Amount::zero(),
        matched_to_date: Amount::zero(),
    };
    let run = calculate_payroll_run(&input);
    assert_eq!(dec(run.regular_pay), Decimal::from(1_000));
    assert_eq!(dec(run.bonuses), Decimal::from(200));
    assert_eq!(dec(run.gross_pay), Decimal::from(1_200));
    // 31,200 a year: (31,200 - 29,000) * 15% / 26 = 12.6923... -> 12.69
    assert_eq!(dec(run.tax_deduction), Decimal::new(1269, 2));
    assert_eq!(dec(run.total_deductions), Decimal::new(4269, 2));
    assert_eq!(dec(run.net_pay), Decimal::new(115731, 2));
}

#[test]
fn deductions_leave_at_least_one_cent() {
    let input = PayrollRunInput {
        employment_type: "contractor".to_string(),
        base_salary: Some(whole(100)),
        hourly_rate: None,
        timesheet: None,
        earnings_adjustments: Amount::zero(),
        deduction_adjustments: whole(500),
        savings: whole(40),
        matched_to_date: Amount::zero(),
    };
    let run = calculate_payroll_run(&input);
    assert_eq!(dec(run.gross_pay), Decimal::from(100));
    assert_eq!(dec(run.employee_savings), Decimal::ZERO);
    assert_eq!(dec(run.total_deductions), Decimal::new(9999, 2));
    assert_eq!(dec(run.net_pay), Decimal::new(1, 2));
}

#[test]
fn savings_are_limited_by_what_is_left() {
    let input = PayrollRunInput {
        employment_type: "contractor".to_string(),
        base_salary: Some(whole(100)),
        hourly_rate: None,
        timesheet: None,
        earnings_adjustments: Amount::zero(),
        deduction_adjustments: whole(60),
        savings: whole(70),
        matched_to_date: whole(9_990),
    };
    let run = calculate_payroll_run(&input);
    assert_eq!(dec(run.employee_savings), Decimal::new(3999, 2));
    assert_eq!(dec(run.company_match), Decimal::from(10));
    assert_eq!(dec(run.net_pay), Decimal::new(1, 2));
}

#[test]
fn other_employment_types_are_not_paid() {
    let mut input = salaried_input(52_000, Amount::zero());
    input.employment_type = "intern".to_string();
    let run = calculate_payroll_run(&input);
    assert_eq!(dec(run.gross_pay), Decimal::ZERO);
    assert_eq!(dec(run.net_pay), Decimal::ZERO);
}

#[test]
fn net_and_deductions_make_up_gross() {
    for annual in [0_i64, 20_000, 52_000, 75_310, 250_000] {
        let run = calculate_payroll_run(&salaried_input(annual, whole(123)));
        assert_eq!(dec(run.net_pay) + dec(run.total_deductions), dec(run.gross_pay));
        assert!(dec(run.net_pay) >= Decimal::ZERO);
        assert!(dec(run.company_match) <= Decimal::from(123));
    }
}

#[test]
fn totals_add_up_the_runs() {
    let a = calculate_payroll_run(&salaried_input(52_000, whole(100)));
    let b = calculate_payroll_run(&salaried_input(26_000, Amount::zero()));
    let runs: Vec<PayrollRunAmounts> = vec![a, b];
    let totals = total_runs(&runs);
    assert_eq!(dec(totals.gross_pay), Decimal::from(3_000));
    assert_eq!(dec(totals.deductions), Decimal::new(23269, 2));
    assert_eq!(dec(totals.net_pay), Decimal::new(276731, 2));
    let empty = total_runs(&Vec::new());
    assert_eq!(dec(empty.gross_pay), Decimal::ZERO);
}

#[test]
fn estimated_net_pay_of_each_employment_type() {
    assert_eq!(dec(estimated_net_pay("salaried", Some(whole(52_000)), None)), Decimal::new(186731, 2));
    // 80 hours at 25: 2,000 with the same tax as the salary above.
    assert_eq!(dec(estimated_net_pay("hourly", None, Some(whole(25)))), Decimal::new(186731, 2));
    assert_eq!(dec(estimated_net_pay("contractor", Some(whole(1_000)), None)), Decimal::from(1_000));
    assert_eq!(dec(estimated_net_pay("other", Some(whole(1_000)), None)), Decimal::ZERO);
    assert_eq!(dec(estimated_net_pay("salaried", None, None)), Decimal::ZERO);
}

#[test]
fn payroll_status_is_capitalized() {
    assert_eq!(title_case_status("processing"), "Processing");
    assert_eq!(title_case_status("PAID"), "Paid");
    assert_eq!(title_case_status("in_review"), "In_review");
    assert_eq!(title_case_status(""), "Unknown");
}

#[test]
fn amounts_round_trip_through_decimal() {
    let d = Decimal::new(-12345, 3);
    assert_eq!(dec(amt(d)), d);
}

#[test]
fn salaried_run_above_a_trillion() {
    let run = calculate_payroll_run(&salaried_input(2_000_000_000_000, Amount::zero()));
    assert_eq!(dec(run.gross_pay), Decimal::new(7_692_307_692_308, 2));
    assert_eq!(dec(run.tax_deduction), Decimal::new(1_153_846_137_115, 2));
    assert_eq!(dec(run.employee_savings), Decimal::ZERO);
    assert_eq!(dec(run.total_deductions), Decimal::new(1_153_846_137_115, 2));
    assert_eq!(dec(run.net_pay), Decimal::new(6_538_461_555_193, 2));
}

#[test]
fn estimated_net_pay_above_a_trillion() {
    let net = estimated_net_pay("salaried", Some(whole(2_000_000_000_000)), None);
    assert_eq!(dec(net), Decimal::new(6_538_461_555_193, 2));
}

#[test]
fn large_runs_are_totalled_exactly() {
    let big = PayrollRunAmounts {
        regular_pay: whole(0),
        overtime_pay: whole(0),
        bonuses: whole(0),
        gross_pay: Amount::new(20_000_000_000_000_000, 2),
        tax_deduction: whole(0),
        employee_savings: whole(0),
        company_match: whole(0),
        total_deductions: Amount::new(5_000_000_000_000_000, 2),
        net_pay: Amount::new(15_000_000_000_000_000, 2),
    };
    let totals = total_runs(&vec![big, big]);
    assert_eq!(dec(totals.gross_pay), Decimal::new(40_000_000_000_000_000, 2));
    assert_eq!(dec(totals.deductions), Decimal::new(10_000_000_000_000_000, 2));
    assert_eq!(dec(totals.net_pay), Decimal::new(30_000_000_000_000_000, 2));
}

#[test]
fn deductions_are_never_negative_nor_above_gross() {
    for annual in [0_i64, 1_000, 20_000, 52_000, 2_000_000_000_000] {
        let run = calculate_payroll_run(&salaried_input(annual, whole(500)));
        assert!(dec(run.tax_deduction) >= Decimal::ZERO);
        assert!(dec(run.employee_savings) >= Decimal::ZERO);
        assert!(dec(run.total_deductions) >= Decimal::ZERO);
        assert!(dec(run.total_deductions) <= dec(run.gross_pay));
    }
}
