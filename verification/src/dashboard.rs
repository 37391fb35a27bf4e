//! Dashboard figures: estimated pay for employees without payroll runs,
//! employee counts, the monthly payroll breakdown and display labels.

use vstd::prelude::*;
use crate::decimal::{
    decimal_difference, decimal_div, decimal_lt, decimal_max, decimal_mul, decimal_product,
    decimal_quotient, decimal_sub, difference_fits, lemma_pow10_values, lemma_wf_magnitude, money,
    one_unit, product_fits, rounded, Amount, MAX_MANTISSA,
};
use crate::payroll::{
    amount_or_zero, employment_type_of, estimated_gross, larger, opt_wf, or_zero, spec_biweekly_tax,
    parse_employment_type, salary_per_period, spec_estimated_gross, tax_rate, whole, whole_amount,
    zero_amount,
    EmploymentType, BIWEEKLY_PERIODS_PER_YEAR, HOURLY_FALLBACK_HOURS_PER_PERIOD, TAX_FREE_ALLOWANCE_ANNUAL,
    TAX_RATE_PERCENT,
};
use crate::text::{
    ascii_lower, ascii_upper, char_to_lower, char_to_upper, chars_of, int_text, i64_to_string, push_char,
    push_str, str_eq, to_owned_string,
};
use crate::dates::{
    business_days, civil_date, date_parts, day_text, format_day, long_date, short_date, days_in_month,
    spec_days_in_month, weekdays_between, CalendarDay,
};
use crate::reports::{money_text, spec_money_text, views};
use crate::models::{PayPeriodInfo, PaydayInfo};

verus! {

/// The tax for one period of an annualized income: 15% of the income above
/// the 29,000 allowance, spread over 26 periods, rounded to cents.
pub open spec fn spec_annual_income_tax(annualized_income: Amount) -> Amount {
    let taxable = if whole(29_000).units() < annualized_income.units() {
        decimal_difference(annualized_income, whole(29_000))
    } else {
        zero_amount()
    };
    rounded(decimal_quotient(decimal_product(taxable, tax_rate()), whole(26)), 2)
}

/// The steps of the tax on an annual income stay within what a decimal holds:
/// the subtraction of the allowance and the product with the rate. (Dividing
/// by 26 never overflows.)
pub open spec fn annual_tax_fits(annualized_income: Amount) -> bool {
    let taxable = if whole(29_000).units() < annualized_income.units() {
        decimal_difference(annualized_income, whole(29_000))
    } else {
        zero_amount()
    };
    &&& whole(29_000).units() < annualized_income.units() ==> difference_fits(
        annualized_income,
        whole(29_000),
    )
    &&& product_fits(taxable, tax_rate())
}

/// Tax per period for an annualized income.
pub fn biweekly_tax(annualized_income: Amount) -> (r: Amount)
    requires
        annualized_income.wf(),
        annual_tax_fits(annualized_income),
    ensures
        r == spec_annual_income_tax(annualized_income),
        r.is_cents(),
        r.units() >= 0,
        annualized_income.units() <= 29_000 * one_unit() ==> r.units() == 0,
{
    proof {
        lemma_pow10_values();
    }
    let periods = whole_amount(BIWEEKLY_PERIODS_PER_YEAR);
    let allowance = whole_amount(TAX_FREE_ALLOWANCE_ANNUAL);
    let taxable_income = if decimal_lt(allowance, annualized_income) {
        decimal_sub(annualized_income, allowance)
    } else {
        Amount::zero()
    };
    let rate = Amount::new(TAX_RATE_PERCENT, 2);
    let taxed = decimal_mul(taxable_income, rate);
    proof {
        lemma_wf_magnitude(taxed);
        assert(-(MAX_MANTISSA - 1) * periods.units() <= taxed.units() <= (MAX_MANTISSA - 1)
            * periods.units()) by (nonlinear_arith)
            requires
                one_unit() > 0,
                MAX_MANTISSA > 1,
                periods.units() == 26 * one_unit(),
                -MAX_MANTISSA * one_unit() <= taxed.units() <= MAX_MANTISSA * one_unit(),
        ;
    }
    let divided = decimal_div(taxed, periods);
    money(divided)
}

/// The pay of one period and the annual income it is taxed as, estimated from
/// the current compensation.
pub open spec fn spec_estimated_income(
    kind: EmploymentType,
    base_salary: Option<Amount>,
    hourly_rate: Option<Amount>,
) -> (Amount, Amount) {
    match kind {
        EmploymentType::Salaried => (
            decimal_quotient(or_zero(base_salary), whole(26)),
            or_zero(base_salary),
        ),
        EmploymentType::Hourly => {
            let gross = decimal_product(or_zero(hourly_rate), whole(80));
            (gross, decimal_product(gross, whole(26)))
        },
        EmploymentType::Contractor => (
            or_zero(base_salary),
            decimal_product(or_zero(base_salary), whole(26)),
        ),
        EmploymentType::Other => (zero_amount(), zero_amount()),
    }
}

/// Estimated net pay for an employee without a payroll run: the estimated
/// pay of one period less the tax on the estimated annual income, never below
/// zero, rounded to cents.
pub open spec fn spec_estimated_net_pay(
    kind: EmploymentType,
    base_salary: Option<Amount>,
    hourly_rate: Option<Amount>,
) -> Amount {
    let income = spec_estimated_income(kind, base_salary, hourly_rate);
    rounded(
        larger(decimal_difference(income.0, spec_annual_income_tax(income.1)), zero_amount()),
        2,
    )
}

/// The steps of the estimated net pay stay within what a decimal holds: the
/// hourly and annualizing products, the tax on the estimated annual income,
/// and the subtraction of the tax.
pub open spec fn income_estimate_fits(
    kind: EmploymentType,
    base_salary: Option<Amount>,
    hourly_rate: Option<Amount>,
) -> bool {
    let income = spec_estimated_income(kind, base_salary, hourly_rate);
    &&& kind is Hourly ==> product_fits(or_zero(hourly_rate), whole(80)) && product_fits(
        income.0,
        whole(26),
    )
    &&& kind is Contractor ==> product_fits(or_zero(base_salary), whole(26))
    &&& annual_tax_fits(income.1)
    &&& difference_fits(income.0, spec_annual_income_tax(income.1))
}

/// The tax on an annual income is the biweekly tax of the payroll run on the
/// pay of one period whose 26-fold is that income.
pub proof fn lemma_annual_tax_is_biweekly_tax(gross: Amount)
    ensures
        spec_annual_income_tax(decimal_product(gross, whole(26))) == spec_biweekly_tax(gross),
{
}

/// For hourly staff and contractors, the estimate of the employee list and
/// the dashboard is the estimate of the payroll period details: the pay of one
/// period less the tax on 26 times that pay.
pub proof fn lemma_list_estimate_matches_period_estimate(
    kind: EmploymentType,
    base_salary: Option<Amount>,
    hourly_rate: Option<Amount>,
)
    requires
        kind is Hourly || kind is Contractor,
    ensures
        spec_estimated_net_pay(kind, base_salary, hourly_rate)
            == crate::payroll::spec_estimated_net_pay(kind, base_salary, hourly_rate),
        spec_estimated_income(kind, base_salary, hourly_rate).0 == spec_estimated_gross(
            kind,
            base_salary,
            hourly_rate,
        ),
        spec_estimated_income(kind, base_salary, hourly_rate).1 == decimal_product(
            spec_estimated_gross(kind, base_salary, hourly_rate),
            whole(26),
        ),
{
    lemma_annual_tax_is_biweekly_tax(spec_estimated_gross(kind, base_salary, hourly_rate));
}

/// A contractor's estimate is the estimate of an hourly employee whose 80
/// hours come to the contractor's pay for the period.
pub proof fn lemma_contractor_estimate_as_hourly(
    base_salary: Option<Amount>,
    hourly_rate: Option<Amount>,
    rate: Amount,
)
    requires
        decimal_product(rate, whole(80)) == or_zero(base_salary),
    ensures
        spec_estimated_net_pay(EmploymentType::Contractor, base_salary, hourly_rate)
            == spec_estimated_net_pay(EmploymentType::Hourly, base_salary, Some(rate)),
{
}

/// Estimated net pay for an employee without a payroll run.
pub fn estimated_net_pay(
    employment_type: &str,
    base_salary: Option<Amount>,
    hourly_rate: Option<Amount>,
) -> (r: Amount)
    requires
        opt_wf(base_salary),
        opt_wf(hourly_rate),
        income_estimate_fits(employment_type_of(employment_type@), base_salary, hourly_rate),
    ensures
        r == spec_estimated_net_pay(employment_type_of(employment_type@), base_salary, hourly_rate),
        r.is_cents(),
        r.units() >= 0,
{
    proof {
        lemma_pow10_values();
    }
    let kind = parse_employment_type(employment_type);
    let (gross_biweekly, annualized_income) = match kind {
        EmploymentType::Salaried => {
            let annual = amount_or_zero(base_salary);
            (salary_per_period(annual), annual)
        },
        EmploymentType::Hourly => {
            let gross = decimal_mul(
                amount_or_zero(hourly_rate),
                whole_amount(HOURLY_FALLBACK_HOURS_PER_PERIOD),
            );
            (gross, decimal_mul(gross, whole_amount(BIWEEKLY_PERIODS_PER_YEAR)))
        },
        EmploymentType::Contractor => {
            let biweekly = amount_or_zero(base_salary);
            (biweekly, decimal_mul(biweekly, whole_amount(BIWEEKLY_PERIODS_PER_YEAR)))
        },
        EmploymentType::Other => (Amount::zero(), Amount::zero()),
    };
    let tax = biweekly_tax(annualized_income);
    let net = decimal_max(decimal_sub(gross_biweekly, tax), Amount::zero());
    money(net)
}

/// The gross pay of one period estimated from the current compensation,
/// rounded to cents.
pub fn estimated_gross_pay(
    employment_type: &str,
    base_salary: Option<Amount>,
    hourly_rate: Option<Amount>,
) -> (r: Amount)
    requires
        opt_wf(base_salary),
        opt_wf(hourly_rate),
        employment_type_of(employment_type@) is Hourly ==> product_fits(
            or_zero(hourly_rate),
            whole(80),
        ),
    ensures
        r == rounded(
            spec_estimated_gross(employment_type_of(employment_type@), base_salary, hourly_rate),
            2,
        ),
        r.is_cents(),
{
    let kind = parse_employment_type(employment_type);
    money(estimated_gross(kind, base_salary, hourly_rate))
}

/// The character at position `i` of a status shown in words: an underscore
/// becomes a space, the first character of each underscore-separated part is
/// upper-cased and the others lower-cased (ASCII letters only).
pub open spec fn status_word_char(s: Seq<char>, i: int) -> char {
    if s[i] == '_' {
        ' '
    } else if i == 0 || s[i - 1] == '_' {
        ascii_upper(s[i])
    } else {
        ascii_lower(s[i])
    }
}

/// A stored status in words, e.g. `in_review` as `In Review`.
pub open spec fn spec_title_case_status(status: Seq<char>) -> Seq<char> {
    Seq::new(status.len(), |i: int| status_word_char(status, i))
}

/// Shows a stored status in words: each underscore-separated part
/// capitalized, the parts separated by spaces.
pub fn title_case_status(status: &str) -> (r: String)
    ensures
        r@ == spec_title_case_status(status@),
{
    let chars = chars_of(status);
    let mut out = String::new();
    let mut i: usize = 0;
    while i < chars.len()
        invariant
            i <= chars.len(),
            chars@ == status@,
            out@ == Seq::new(i as nat, |k: int| status_word_char(status@, k)),
        decreases chars.len() - i,
    {
        let c = chars[i];
        let shown = if c == '_' {
            ' '
        } else if i == 0 || chars[i - 1] == '_' {
            char_to_upper(c)
        } else {
            char_to_lower(c)
        };
        push_char(&mut out, shown);
        assert(out@ == Seq::new((i + 1) as nat, |k: int| status_word_char(status@, k)));
        i = i + 1;
    }
    out
}

/// Employee counts of the employee list.
#[derive(Clone, Copy, Debug, PartialEq, Eq)]
pub struct EmployeeCounts {
    pub total: u32,
    pub active: u32,
    pub inactive: u32,
}

/// The number of statuses among the first `n` that are `active`.
pub open spec fn active_count(statuses: Seq<Seq<char>>, n: int) -> int
    decreases n,
{
    if n <= 0 {
        0
    } else {
        active_count(statuses, n - 1) + (if statuses[n - 1] == "active"@ {
            1int
        } else {
            0int
        })
    }
}

proof fn lemma_active_count_bounded(statuses: Seq<Seq<char>>, n: int)
    requires
        0 <= n,
    ensures
        0 <= active_count(statuses, n) <= n,
    decreases n,
{
    if n > 0 {
        lemma_active_count_bounded(statuses, n - 1);
    }
}

/// Counts the employees of the list by status: all of them, the active ones,
/// and the rest (the counts are stored as `u32`, as the list reports them).
pub fn employee_counts(statuses: &Vec<String>) -> (r: EmployeeCounts)
    ensures
        r.total == statuses@.len() as u32,
        r.active == active_count(views(statuses@), statuses@.len() as int) as u32,
        r.inactive == (if r.active <= r.total {
            r.total - r.active
        } else {
            0
        }),
{
    let total = statuses.len() as u32;
    let mut active: usize = 0;
    let mut i: usize = 0;
    while i < statuses.len()
        invariant
            i <= statuses.len(),
            active == active_count(views(statuses@), i as int),
            active <= i,
        decreases statuses.len() - i,
    {
        proof {
            lemma_active_count_bounded(views(statuses@), i as int);
        }
        assert(views(statuses@)[i as int] == statuses@[i as int]@);
        if str_eq(statuses[i].as_str(), "active") {
            active = active + 1;
        }
        i = i + 1;
    }
    let active = active as u32;
    let inactive = if active <= total {
        total - active
    } else {
        0
    };
    EmployeeCounts { total, active, inactive }
}

/// Payroll totals of one month of the year.
#[derive(Clone, Copy, Debug)]
pub struct MonthlyTotals {
    /// Month of the pay date, 1 to 12.
    pub month: i32,
    pub total: Amount,
    pub base: Amount,
    pub tax_paid: Amount,
    pub company_contributions: Amount,
}

/// One month of the payroll breakdown chart.
#[derive(Debug)]
pub struct MonthBreakdownEntry {
    pub month: u32,
    pub label: String,
    pub total: Amount,
    pub base: Amount,
    pub tax_paid: Amount,
    pub company_contributions: Amount,
}

/// The three-letter label of a month 1 to 12.
pub open spec fn month_label(m: int) -> Seq<char> {
    if m == 1 {
        "Jan"@
    } else if m == 2 {
        "Feb"@
    } else if m == 3 {
        "Mar"@
    } else if m == 4 {
        "Apr"@
    } else if m == 5 {
        "May"@
    } else if m == 6 {
        "Jun"@
    } else if m == 7 {
        "Jul"@
    } else if m == 8 {
        "Aug"@
    } else if m == 9 {
        "Sep"@
    } else if m == 10 {
        "Oct"@
    } else if m == 11 {
        "Nov"@
    } else {
        "Dec"@
    }
}

fn month_label_text(m: u32) -> (r: String)
    requires
        1 <= m <= 12,
    ensures
        r@ == month_label(m as int),
{
    let label = if m == 1 {
        "Jan"
    } else if m == 2 {
        "Feb"
    } else if m == 3 {
        "Mar"
    } else if m == 4 {
        "Apr"
    } else if m == 5 {
        "May"
    } else if m == 6 {
        "Jun"
    } else if m == 7 {
        "Jul"
    } else if m == 8 {
        "Aug"
    } else if m == 9 {
        "Sep"
    } else if m == 10 {
        "Oct"
    } else if m == 11 {
        "Nov"
    } else {
        "Dec"
    };
    to_owned_string(label)
}

/// The last of the rows for month `m`, as a map keyed by month keeps it.
pub open spec fn last_row_for(rows: Seq<MonthlyTotals>, m: int) -> Option<MonthlyTotals>
    decreases rows.len(),
{
    if rows.len() == 0 {
        None
    } else if rows.last().month == m {
        Some(rows.last())
    } else {
        last_row_for(rows.drop_last(), m)
    }
}

/// The last row for month `m`, if any.
fn find_month(rows: &Vec<MonthlyTotals>, m: i32) -> (r: Option<MonthlyTotals>)
    ensures
        r == last_row_for(rows@, m as int),
{
    let mut found: Option<MonthlyTotals> = None;
    let mut i: usize = 0;
    while i < rows.len()
        invariant
            i <= rows.len(),
            found == last_row_for(rows@.subrange(0, i as int), m as int),
        decreases rows.len() - i,
    {
        assert(rows@.subrange(0, (i + 1) as int).drop_last() == rows@.subrange(0, i as int));
        if rows[i].month == m {
            found = Some(rows[i]);
        }
        i = i + 1;
    }
    assert(rows@.subrange(0, rows.len() as int) == rows@);
    found
}

/// The twelve months of the breakdown chart, January first: each month takes
/// the totals of the last row for it, and zero totals when there is none.
pub fn month_breakdown(rows: &Vec<MonthlyTotals>) -> (r: Vec<MonthBreakdownEntry>)
    ensures
        r@.len() == 12,
        forall|i: int|
            0 <= i < 12 ==> {
                let e = #[trigger] r@[i];
                &&& e.month == i + 1
                &&& e.label@ == month_label(i + 1)
                &&& match last_row_for(rows@, i + 1) {
                    Some(row) => e.total == row.total && e.base == row.base && e.tax_paid
                        == row.tax_paid && e.company_contributions == row.company_contributions,
                    None => e.total.units() == 0 && e.base.units() == 0 && e.tax_paid.units() == 0
                        && e.company_contributions.units() == 0,
                }
            },
{
    let mut months: Vec<MonthBreakdownEntry> = Vec::new();
    let mut m: u32 = 1;
    while m <= 12
        invariant
            1 <= m <= 13,
            months@.len() == m - 1,
            forall|i: int|
                0 <= i < m - 1 ==> {
                    let e = #[trigger] months@[i];
                    &&& e.month == i + 1
                    &&& e.label@ == month_label(i + 1)
                    &&& match last_row_for(rows@, i + 1) {
                        Some(row) => e.total == row.total && e.base == row.base && e.tax_paid
                            == row.tax_paid && e.company_contributions
                            == row.company_contributions,
                        None => e.total.units() == 0 && e.base.units() == 0 && e.tax_paid.units()
                            == 0 && e.company_contributions.units() == 0,
                    }
                },
        decreases 13 - m,
    {
        let entry = find_month(rows, m as i32);
        let label = month_label_text(m);
        let e = match entry {
            Some(row) => MonthBreakdownEntry {
                month: m,
                label,
                total: row.total,
                base: row.base,
                tax_paid: row.tax_paid,
                company_contributions: row.company_contributions,
            },
            None => MonthBreakdownEntry {
                month: m,
                label,
                total: Amount::zero(),
                base: Amount::zero(),
                tax_paid: Amount::zero(),
                company_contributions: Amount::zero(),
            },
        };
        months.push(e);
        m = m + 1;
    }
    months
}

/// The year a breakdown is asked for, and the year it reports: a requested
/// year that does not fit an `i32` falls back to the current year, and a
/// negative year is reported as the current one.
pub fn breakdown_year(requested: Option<u32>, current_year: i32) -> (r: (i32, u32))
    ensures
        r.0 == (match requested {
            Some(y) => if y <= i32::MAX {
                y as i32
            } else {
                current_year
            },
            None => current_year,
        }),
        r.1 == (if r.0 < 0 {
            current_year as u32
        } else {
            r.0 as u32
        }),
{
    let year = match requested {
        Some(y) => if y <= 2147483647u32 {
            y as i32
        } else {
            current_year
        },
        None => current_year,
    };
    let reported = if year < 0 {
        current_year as u32
    } else {
        year as u32
    };
    (year, reported)
}

/// The day whose month the dashboard reports: today when payroll was paid
/// this month, otherwise the latest pay date with runs, or today when there is
/// none. The latest pay date is only read when there were no runs this month.
pub fn reference_day(today: CalendarDay, runs_this_month: i64, latest_pay_date: Option<CalendarDay>) -> (r:
    CalendarDay)
    ensures
        r == (if runs_this_month > 0 {
            today
        } else {
            match latest_pay_date {
                Some(d) => d,
                None => today,
            }
        }),
{
    if runs_this_month > 0 {
        return today;
    }
    match latest_pay_date {
        Some(d) => d,
        None => today,
    }
}

/// The label of the monthly figures for a reference day.
pub open spec fn spec_month_figures_label(reference: CalendarDay, today: CalendarDay) -> Seq<char> {
    (if civil_date(reference.days as int).0 == civil_date(today.days as int).0 && civil_date(
        reference.days as int,
    ).1 == civil_date(today.days as int).1 {
        "This Month"@
    } else {
        "Most Recent"@
    }) + " ("@ + day_text(reference.days as int, "%B %Y"@) + ")"@
}

/// The label of the monthly figures: `This Month (<Month> <Year>)` when the
/// reference day is in the current month, `Most Recent (...)` otherwise.
pub fn month_figures_label(reference: CalendarDay, today: CalendarDay) -> (r: String)
    requires
        reference.wf(),
        today.wf(),
    ensures
        r@ == spec_month_figures_label(reference, today),
{
    let (ry, rm, _) = date_parts(reference);
    let (ty, tm, _) = date_parts(today);
    let mut label = if ry == ty && rm == tm {
        to_owned_string("This Month")
    } else {
        to_owned_string("Most Recent")
    };
    push_str(&mut label, " (");
    let month_year = format_day(reference, "%B %Y");
    push_str(&mut label, month_year.as_str());
    push_str(&mut label, ")");
    label
}

/// `"<n> added since last month"`.
pub fn hires_label(hires: i64) -> (r: String)
    ensures
        r@ == int_text(hires as int) + " added since last month"@,
{
    let mut s = i64_to_string(hires);
    push_str(&mut s, " added since last month");
    s
}

/// Whether the company contributions of the focus period are shown as they
/// are, or replaced by the year-to-date contributions because the period has
/// none above zero.
pub fn needs_year_to_date_contributions(period_contributions: Amount) -> (r: bool)
    requires
        period_contributions.wf(),
    ensures
        r == (period_contributions.units() <= 0),
{
    !decimal_lt(Amount::zero(), period_contributions)
}

/// The calendar figures of the focus pay period on the dashboard.
#[derive(Debug)]
pub struct PayPeriodCalendar {
    pub working_days: u32,
    pub working_hours: u32,
    pub label: String,
    pub start_date: String,
    pub end_date: String,
    pub payday_date: String,
    pub day_of_month: u32,
    pub total_days_in_period: u32,
}

/// Calendar figures of a pay period: business days from start to end and
/// eight hours for each, the status label, the short start and end dates,
/// the long pay date, its day of month and the length of its month.
pub fn pay_period_calendar(
    start: CalendarDay,
    end: CalendarDay,
    pay_date: CalendarDay,
    status: &str,
) -> (r: PayPeriodCalendar)
    requires
        start.wf(),
        end.wf(),
        pay_date.wf(),
    ensures
        r.working_days == weekdays_between(start.days as int, end.days as int),
        r.working_hours == 8 * r.working_days,
        r.label@ == "Current Pay Period ("@ + spec_title_case_status(status@) + ")"@,
        r.start_date@ == day_text(start.days as int, "%b %-d"@),
        r.end_date@ == day_text(end.days as int, "%b %-d"@),
        r.payday_date@ == day_text(pay_date.days as int, "%b %-d, %Y"@),
        r.day_of_month == civil_date(pay_date.days as int).2,
        r.total_days_in_period == spec_days_in_month(
            civil_date(pay_date.days as int).0,
            civil_date(pay_date.days as int).1,
        ),
{
    let working_days = business_days(start, end);
    assert(working_days <= 200_000_000) by {
        assert(crate::dates::MAX_DAY - crate::dates::MIN_DAY < 200_000_000);
    }
    let mut label = to_owned_string("Current Pay Period (");
    let shown = title_case_status(status);
    push_str(&mut label, shown.as_str());
    push_str(&mut label, ")");
    let (year, month, day) = date_parts(pay_date);
    PayPeriodCalendar {
        working_days,
        working_hours: working_days * 8,
        label,
        start_date: short_date(start),
        end_date: short_date(end),
        payday_date: long_date(pay_date),
        day_of_month: day,
        total_days_in_period: days_in_month(year, month),
    }
}

/// The figures of the reference month on the dashboard.
#[derive(Debug)]
pub struct MonthlyFigures {
    pub payroll_total: String,
    pub payroll_label: String,
    pub employee_count: u32,
    pub employee_delta: String,
    pub deductions_total: String,
    pub deductions_label: String,
    pub contributions_total: String,
    pub contributions_label: String,
}

/// The monthly figures: the totals in cents, each labelled with the reference
/// month, the active employees (never below zero, as `u32`) and the hires of
/// the month.
pub fn monthly_figures(
    payroll_total: Amount,
    deductions_total: Amount,
    contributions_total: Amount,
    active_employees: i64,
    hires: i64,
    reference: CalendarDay,
    today: CalendarDay,
) -> (r: MonthlyFigures)
    requires
        payroll_total.wf(),
        deductions_total.wf(),
        contributions_total.wf(),
        reference.wf(),
        today.wf(),
    ensures
        r.payroll_total@ == spec_money_text(payroll_total),
        r.deductions_total@ == spec_money_text(deductions_total),
        r.contributions_total@ == spec_money_text(contributions_total),
        r.payroll_label@ == spec_month_figures_label(reference, today),
        r.deductions_label@ == spec_month_figures_label(reference, today),
        r.contributions_label@ == spec_month_figures_label(reference, today),
        r.employee_count == (if active_employees > 0 {
            active_employees as u32
        } else {
            0
        }),
        r.employee_delta@ == int_text(hires as int) + " added since last month"@,
{
    MonthlyFigures {
        payroll_total: money_text(payroll_total),
        payroll_label: month_figures_label(reference, today),
        employee_count: if active_employees > 0 {
            active_employees as u32
        } else {
            0
        },
        employee_delta: hires_label(hires),
        deductions_total: money_text(deductions_total),
        deductions_label: month_figures_label(reference, today),
        contributions_total: money_text(contributions_total),
        contributions_label: month_figures_label(reference, today),
    }
}

/// The pay period shown when there is none: no working days, dashes for the
/// dates and zero amounts.
pub fn no_pay_period() -> (r: PayPeriodInfo)
    ensures
        r.working_days == 0,
        r.working_hours == 0,
        r.label@ == "Current Pay Period"@,
        r.start_date@ == "\u{2014}"@,
        r.end_date@ == "\u{2014}"@,
        r.payday.date@ == "\u{2014}"@,
        r.payday.day_of_month == 0,
        r.payday.total_days_in_period == 0,
        r.payday.base_salary@ == "$0.00"@,
        r.payday.tax_paid@ == "$0.00"@,
        r.payday.company_contributions@ == "$0.00"@,
        r.payday.total@ == "$0.00"@,
{
    PayPeriodInfo {
        working_days: 0,
        working_hours: 0,
        label: to_owned_string("Current Pay Period"),
        start_date: to_owned_string("\u{2014}"),
        end_date: to_owned_string("\u{2014}"),
        payday: PaydayInfo {
            date: to_owned_string("\u{2014}"),
            day_of_month: 0,
            total_days_in_period: 0,
            base_salary: to_owned_string("$0.00"),
            tax_paid: to_owned_string("$0.00"),
            company_contributions: to_owned_string("$0.00"),
            total: to_owned_string("$0.00"),
        },
    }
}

} // verus!
