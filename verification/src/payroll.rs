//! Biweekly payroll arithmetic: income tax, capped company savings match,
//! estimated net pay and the per-employee payroll run.

use vstd::prelude::*;
use crate::decimal::{
    cents_of, difference_fits, lemma_wf_magnitude, product_fits, sum_fits, decimal_add, decimal_difference, decimal_max, decimal_min, decimal_sum, decimal_div, decimal_lt, decimal_mul, decimal_product, decimal_quotient,
    decimal_sub, fits_at, lemma_cents_units, lemma_pow10_values, max_scale, money, one_cent, one_unit,
    pow10, rounded, Amount, MAX_MANTISSA, MAX_SCALE,
};


use crate::text::{
    ascii_lower_seq, ascii_upper, char_to_lower, char_to_upper, chars_of, push_char, str_eq, to_owned_string,
};

verus! {

/// Pay periods in a year.
pub const BIWEEKLY_PERIODS_PER_YEAR: i64 = 26;

/// Annual income that is free of tax.
pub const TAX_FREE_ALLOWANCE_ANNUAL: i64 = 29_000;

/// Flat tax rate on income above the allowance, in percent.
pub const TAX_RATE_PERCENT: i64 = 15;

/// Largest company savings match per employee and calendar year.
pub const COMPANY_MATCH_CAP: i64 = 10_000;

/// Overtime multiplier times ten (1.5).
pub const OVERTIME_MULTIPLIER_X10: i64 = 15;

/// Hours per period assumed for hourly staff without a timesheet.
pub const HOURLY_FALLBACK_HOURS_PER_PERIOD: i64 = 80;

/// Smallest net pay, in cents, left to an employee with positive gross pay.
pub const MIN_NET_PAY_CENTS: i64 = 1;

/// Largest magnitude (in whole units, 10^26) of the amounts on which the tax,
/// the deductions and the match are computed exactly: the sums and
/// differences they take then fit a decimal with two fractional digits.
pub open spec fn exact_limit() -> int {
    100_000_000_000_000_000_000_000_000
}

/// A whole number as an amount of scale 0.
pub open spec fn whole(n: int) -> Amount {
    Amount { mantissa: n as i128, scale: 0 }
}

/// `Decimal::ZERO`.
pub open spec fn zero_amount() -> Amount {
    whole(0)
}

/// `Ord::max` on decimals: the second argument unless the first is greater.
pub open spec fn larger(a: Amount, b: Amount) -> Amount {
    if b.units() < a.units() {
        a
    } else {
        b
    }
}

/// `Ord::min` on decimals: the first argument unless it is greater.
pub open spec fn smaller(a: Amount, b: Amount) -> Amount {
    if b.units() < a.units() {
        b
    } else {
        a
    }
}

/// The tax rate as a decimal (0.15).
pub open spec fn tax_rate() -> Amount {
    Amount { mantissa: 15, scale: 2 }
}

/// The overtime multiplier as a decimal (1.5).
pub open spec fn overtime_multiplier() -> Amount {
    Amount { mantissa: 15, scale: 1 }
}

/// The tax withheld from a biweekly gross pay: the pay is annualized over 26
/// periods, the allowance is taken off (never below zero), 15% of the rest is
/// spread back over 26 periods, and the result is rounded to cents.
pub open spec fn spec_biweekly_tax(gross: Amount) -> Amount {
    let annualized = decimal_product(gross, whole(26));
    let taxable = if whole(29_000).units() < annualized.units() {
        decimal_difference(annualized, whole(29_000))
    } else {
        zero_amount()
    };
    rounded(decimal_quotient(decimal_product(taxable, tax_rate()), whole(26)), 2)
}

/// The company match for a period: the employee's savings (never below zero)
/// up to what remains of the annual cap after `matched_to_date`, in cents.
pub open spec fn spec_capped_company_match(savings: Amount, matched_to_date: Amount) -> Amount {
    let remaining = larger(decimal_difference(whole(10_000), matched_to_date), zero_amount());
    rounded(smaller(larger(savings, zero_amount()), remaining), 2)
}

/// `|x * y| <= X * Y` when `|x| <= X` and `|y| <= Y`.
pub(crate) proof fn lemma_mul_bound(x: int, y: int, bx: int, by: int)
    requires
        -bx <= x <= bx,
        -by <= y <= by,
    ensures
        -(bx * by) <= x * y <= bx * by,
{
    assert(-(bx * by) <= x * y <= bx * by) by (nonlinear_arith)
        requires
            -bx <= x <= bx,
            -by <= y <= by,
    ;
}

/// Cancels a positive factor from both sides of a two-sided bound.
pub(crate) proof fn lemma_cancel_factor(d: int, lo: int, hi: int, c: int)
    requires
        c > 0,
        lo * c <= d * c <= hi * c,
    ensures
        lo <= d <= hi,
{
    assert(lo <= d <= hi) by (nonlinear_arith)
        requires
            c > 0,
            lo * c <= d * c <= hi * c,
    ;
}

/// A sum or difference of amounts with at most two fractional digits whose
/// value is at most 7 * 10^54 steps (7 * 10^26 units) fits exactly.
pub(crate) proof fn lemma_fits_cents(u: int, a: Amount, b: Amount)
    requires
        a.scale <= 2,
        b.scale <= 2,
        -7_000_000_000_000_000_000_000_000_000_000_000_000_000_000_000_000_000_000 <= u
            <= 7_000_000_000_000_000_000_000_000_000_000_000_000_000_000_000_000_000_000,
    ensures
        fits_at(u, max_scale(a, b)),
{
    lemma_pow10_values();
    let s = max_scale(a, b);
    assert(s <= 2);
    let p = pow10((MAX_SCALE - s) as nat);
    if s == 0 {
        assert((MAX_SCALE - s) as nat == 28);
    } else if s == 1 {
        assert((MAX_SCALE - s) as nat == 27);
    } else {
        assert((MAX_SCALE - s) as nat == 26);
    }
    assert(p >= 100_000_000_000_000_000_000_000_000);
    assert(MAX_MANTISSA * p >= MAX_MANTISSA * 100_000_000_000_000_000_000_000_000) by (nonlinear_arith)
        requires
            p >= 100_000_000_000_000_000_000_000_000,
    ;
    assert(u <= MAX_MANTISSA * p);
    assert(-MAX_MANTISSA * p == -(MAX_MANTISSA * p)) by (nonlinear_arith);
    assert(-MAX_MANTISSA * p <= u);
    assert(fits_at(u, s));
}

/// `(Decimal::from(a) * b)` for a whole number `a` between 1 and 100 (a small
/// constant factor) stays within one unit of `a` times the value.
pub(crate) proof fn lemma_times_whole(x: Amount, n: int, r: Amount)
    requires
        1 <= n <= 100,
        -one_unit() * one_unit() <= r.units() * one_unit() - x.units() * whole(n).units() <= one_unit()
            * one_unit(),
        whole(n).units() == n * one_unit(),
    ensures
        -one_unit() <= r.units() - n * x.units() <= one_unit(),
{
    lemma_pow10_values();
    assert(x.units() * whole(n).units() == (n * x.units()) * one_unit()) by (nonlinear_arith)
        requires
            whole(n).units() == n * one_unit(),
    ;
    assert((r.units() - n * x.units()) * one_unit() == r.units() * one_unit() - (n * x.units())
        * one_unit()) by (nonlinear_arith);
    lemma_cancel_factor(r.units() - n * x.units(), -one_unit(), one_unit(), one_unit());
}

/// An amount in cents whose value is at most 29,000 / 26 and at least
/// -10^18 has a mantissa below 10^21.
proof fn lemma_small_cents_mantissa(a: Amount)
    requires
        a.is_cents(),
        -one_unit() * 1_000_000_000_000_000_000 <= a.units(),
        26 * a.units() <= 29_000 * one_unit(),
    ensures
        -1_000_000_000_000_000_000_000 <= a.mantissa <= 1_000_000_000_000_000_000_000,
{
    lemma_pow10_values();
    lemma_cents_units(a);
    let c = cents_of(a);
    assert(-100_000_000_000_000_000_000 <= c <= 200_000) by (nonlinear_arith)
        requires
            a.units() == c * one_cent(),
            -one_unit() * 1_000_000_000_000_000_000 <= a.units(),
            26 * a.units() <= 29_000 * one_unit(),
            one_unit() == 100 * one_cent(),
            one_cent() > 0,
    ;
    let p = pow10((2 - a.scale) as nat);
    assert(p == 1 || p == 10 || p == 100);
    assert(-1_000_000_000_000_000_000_000 <= a.mantissa <= 1_000_000_000_000_000_000_000)
        by (nonlinear_arith)
        requires
            c == a.mantissa * p,
            p >= 1,
            -100_000_000_000_000_000_000 <= c <= 200_000,
    ;
}

/// The units of a whole amount.
pub(crate) proof fn lemma_whole_units(n: int)
    requires
        -MAX_MANTISSA <= n <= MAX_MANTISSA,
    ensures
        whole(n).units() == n * one_unit(),
        whole(n).wf(),
{
    lemma_pow10_values();
}

/// `Decimal::from(n)` as an amount.
pub(crate) fn whole_amount(n: i64) -> (r: Amount)
    ensures
        r == whole(n as int),
        r.wf(),
        r.units() == n * one_unit(),
{
    proof {
        lemma_whole_units(n as int);
    }
    Amount { mantissa: n as i128, scale: 0 }
}

/// The steps of the tax on a gross pay stay within what a decimal holds: the
/// annualizing product, the subtraction of the allowance, and the product
/// with the rate. (Dividing by 26 never overflows.)
pub open spec fn tax_fits(gross: Amount) -> bool {
    let annualized = decimal_product(gross, whole(26));
    let taxable = if whole(29_000).units() < annualized.units() {
        decimal_difference(annualized, whole(29_000))
    } else {
        zero_amount()
    };
    &&& product_fits(gross, whole(26))
    &&& whole(29_000).units() < annualized.units() ==> difference_fits(annualized, whole(29_000))
    &&& product_fits(taxable, tax_rate())
}

/// The exact limit as a decimal (10^26).
pub(crate) fn exact_limit_amount() -> (r: Amount)
    ensures
        r.wf(),
        r.units() == exact_limit() * one_unit(),
        r.mantissa == 100_000_000_000_000_000_000_000_000,
        r.scale == 0,
{
    proof {
        lemma_pow10_values();
    }
    Amount { mantissa: 100_000_000_000_000_000_000_000_000, scale: 0 }
}

/// Whether an amount is within 10^26 in magnitude.
pub(crate) fn within_exact_limit(a: Amount) -> (r: bool)
    requires
        a.wf(),
    ensures
        r == a.within(exact_limit()),
{
    let upper = exact_limit_amount();
    let lower = Amount { mantissa: -upper.mantissa, scale: 0 };
    proof {
        lemma_pow10_values();
        assert(lower.units() == -exact_limit() * one_unit());
    }
    !decimal_lt(a, lower) && !decimal_lt(upper, a)
}

/// Tax withheld from a biweekly gross pay (15% of the annualized income above
/// the 29,000 allowance, spread over 26 periods, rounded to cents), for every
/// gross pay on which none of these steps overflows.
pub fn biweekly_tax(gross_biweekly: Amount) -> (r: Amount)
    requires
        gross_biweekly.wf(),
        tax_fits(gross_biweekly),
    ensures
        r == spec_biweekly_tax(gross_biweekly),
        r.is_cents(),
        r.units() >= 0,
        gross_biweekly.within(exact_limit()) ==> r.within(exact_limit()),
        gross_biweekly.is_cents() && gross_biweekly.within(exact_limit()) && 26
            * gross_biweekly.units() <= 29_000 * one_unit() ==> r.units() == 0,
{
    if within_exact_limit(gross_biweekly) {
        return bounded_biweekly_tax(gross_biweekly);
    }
    proof {
        lemma_pow10_values();
        lemma_whole_units(26);
        lemma_whole_units(29_000);
    }
    let periods = whole_amount(BIWEEKLY_PERIODS_PER_YEAR);
    let annualized_income = decimal_mul(gross_biweekly, periods);
    let allowance = whole_amount(TAX_FREE_ALLOWANCE_ANNUAL);
    let taxable_income = if decimal_lt(allowance, annualized_income) {
        decimal_sub(annualized_income, allowance)
    } else {
        Amount::zero()
    };
    let rate = Amount::new(TAX_RATE_PERCENT, 2);
    let taxed = decimal_mul(taxable_income, rate);
    proof {
        lemma_wf_magnitude(taxed);
        assert(-(MAX_MANTISSA - 1) * periods.units() <= taxed.units() <= (MAX_MANTISSA - 1)
            * periods.units()) by (nonlinear_arith)
            requires
                one_unit() > 0,
                MAX_MANTISSA > 1,
                periods.units() == 26 * one_unit(),
                -MAX_MANTISSA * one_unit() <= taxed.units() <= MAX_MANTISSA * one_unit(),
        ;
    }
    let divided = decimal_div(taxed, periods);
    money(divided)
}

/// The tax for a gross pay within 10^26.
fn bounded_biweekly_tax(gross_biweekly: Amount) -> (r: Amount)
    requires
        gross_biweekly.wf(),
        gross_biweekly.within(exact_limit()),
    ensures
        r == spec_biweekly_tax(gross_biweekly),
        r.is_cents(),
        r.units() >= 0,
        r.within(exact_limit()),
        gross_biweekly.is_cents() && 26 * gross_biweekly.units() <= 29_000 * one_unit()
            ==> r.units() == 0,
{
    proof {
        lemma_pow10_values();
        lemma_whole_units(26);
        lemma_whole_units(29_000);
    }
    let periods = whole_amount(BIWEEKLY_PERIODS_PER_YEAR);
    proof {
        lemma_mul_bound(
            gross_biweekly.units(),
            periods.units(),
            exact_limit() * one_unit(),
            26 * one_unit(),
        );
        assert(exact_limit() * one_unit() * (26 * one_unit()) <= (MAX_MANTISSA - 1)
            * one_unit() * one_unit()) by (nonlinear_arith)
            requires
                one_unit() == 10_000_000_000_000_000_000_000_000_000,
        ;
    }
    let annualized_income = decimal_mul(gross_biweekly, periods);
    proof {
        lemma_times_whole(gross_biweekly, 26, annualized_income);
    }
    let allowance = whole_amount(TAX_FREE_ALLOWANCE_ANNUAL);
    let taxable_income = if decimal_lt(allowance, annualized_income) {
        decimal_sub(annualized_income, allowance)
    } else {
        Amount::zero()
    };
    // 0 <= taxable <= annualized <= 26 * limit + 1
    assert(0 <= taxable_income.units() <= 27 * exact_limit() * one_unit());
    let rate = Amount::new(TAX_RATE_PERCENT, 2);
    assert(rate.units() == 15 * one_cent());
    proof {
        lemma_mul_bound(
            taxable_income.units(),
            rate.units(),
            27 * exact_limit() * one_unit(),
            15 * one_cent(),
        );
        assert(27 * exact_limit() * one_unit() * (15 * one_cent()) <= (MAX_MANTISSA - 1)
            * one_unit() * one_unit()) by (nonlinear_arith)
            requires
                one_unit() == 10_000_000_000_000_000_000_000_000_000,
                one_cent() == 100_000_000_000_000_000_000_000_000,
        ;
    }
    let taxed = decimal_mul(taxable_income, rate);
    proof {
        // taxed is at most 0.15 * taxable + 1 unit
        assert(taxable_income.units() * rate.units() <= 27 * exact_limit() * one_unit() * (15
            * one_cent())) by (nonlinear_arith)
            requires
                0 <= taxable_income.units() <= 27 * exact_limit() * one_unit(),
                rate.units() == 15 * one_cent(),
                one_cent() > 0,
        ;
        assert(taxed.units() * one_unit() <= (5 * exact_limit()) * one_unit() * one_unit())
            by (nonlinear_arith)
            requires
                taxed.units() * one_unit() - taxable_income.units() * rate.units() <= one_unit()
                    * one_unit(),
                taxable_income.units() * rate.units() <= 27 * exact_limit() * one_unit() * (15
                    * one_cent()),
                one_unit() == 100 * one_cent(),
                one_cent() > 0,
                exact_limit() >= 1,
        ;
        lemma_cancel_factor(taxed.units(), 0, 5 * exact_limit() * one_unit(), one_unit());
    }
    let divided = decimal_div(taxed, periods);
    proof {
        assert(divided.units() * 26 <= taxed.units() + one_unit() * 26 * one_unit() / one_unit())
            by (nonlinear_arith)
            requires
                divided.units() * (26 * one_unit()) - taxed.units() * one_unit() <= one_unit() * (26
                    * one_unit()),
                one_unit() > 0,
        ;
        assert(divided.units() <= exact_limit() * one_unit() - one_unit()) by (nonlinear_arith)
            requires
                divided.units() * 26 <= taxed.units() + one_unit() * 26,
                taxed.units() <= 5 * exact_limit() * one_unit(),
                exact_limit() == 100_000_000_000_000_000_000_000_000,
                one_unit() == 10_000_000_000_000_000_000_000_000_000,
        ;
    }
    let r = money(divided);
    proof {
        if gross_biweekly.is_cents() && 26 * gross_biweekly.units() <= 29_000 * one_unit() {
            if gross_biweekly.units() >= -one_unit() * 1_000_000_000_000_000_000 {
                lemma_cents_units(gross_biweekly);
                lemma_small_cents_mantissa(gross_biweekly);
                assert(gross_biweekly.scale + periods.scale <= MAX_SCALE);
                assert(-MAX_MANTISSA <= gross_biweekly.mantissa * periods.mantissa <= MAX_MANTISSA);
                assert(annualized_income.units() * one_unit() == gross_biweekly.units()
                    * periods.units());
                assert(annualized_income.units() * one_unit() == (26 * gross_biweekly.units())
                    * one_unit()) by (nonlinear_arith)
                    requires
                        annualized_income.units() * one_unit() == gross_biweekly.units()
                            * periods.units(),
                        periods.units() == 26 * one_unit(),
                ;
                lemma_cancel_factor(
                    annualized_income.units(),
                    26 * gross_biweekly.units(),
                    26 * gross_biweekly.units(),
                    one_unit(),
                );
            }
        }
    }
    r
}

/// The company savings match for a period: the employee's savings (never below
/// zero) up to what remains of the 10,000 annual cap, rounded to cents.
pub fn capped_company_match(employee_savings: Amount, matched_to_date: Amount) -> (r: Amount)
    requires
        employee_savings.wf(),
        matched_to_date.wf(),
        difference_fits(whole(10_000), matched_to_date),
    ensures
        r == spec_capped_company_match(employee_savings, matched_to_date),
        r.is_cents(),
        r.units() >= 0,
        employee_savings.is_cents() && matched_to_date.is_cents() && matched_to_date.within(
            exact_limit(),
        ) ==> {
            &&& r.units() <= (if employee_savings.units() > 0 {
                employee_savings.units()
            } else {
                0
            })
            &&& r.units() <= (if matched_to_date.units() < 10_000 * one_unit() {
                10_000 * one_unit() - matched_to_date.units()
            } else {
                0
            })
            &&& (r.units() == employee_savings.units() || r.units() == 10_000 * one_unit()
                - matched_to_date.units() || r.units() == 0)
        },
{
    proof {
        lemma_pow10_values();
    }
    let cap = whole_amount(COMPANY_MATCH_CAP);
    let remaining = decimal_max(decimal_sub(cap, matched_to_date), Amount::zero());
    let matched = decimal_min(decimal_max(employee_savings, Amount::zero()), remaining);
    assert(matched.units() >= 0);
    proof {
        if employee_savings.is_cents() && matched_to_date.is_cents() && matched_to_date.within(
            exact_limit(),
        ) {
            lemma_fits_cents(cap.units() - matched_to_date.units(), cap, matched_to_date);
            assert(matched.scale <= 2);
        }
    }
    money(matched)
}

/// How an employee is paid, from the `employment_type` column.
#[derive(Clone, Copy, Debug, PartialEq, Eq)]
pub enum EmploymentType {
    /// Annual salary paid over 26 periods.
    Salaried,
    /// Hourly rate times hours worked.
    Hourly,
    /// A fixed amount per period.
    Contractor,
    /// Any other value, which earns nothing.
    Other,
}

/// The employment type a column value names.
pub open spec fn employment_type_of(s: Seq<char>) -> EmploymentType {
    if s == "salaried"@ {
        EmploymentType::Salaried
    } else if s == "hourly"@ {
        EmploymentType::Hourly
    } else if s == "contractor"@ {
        EmploymentType::Contractor
    } else {
        EmploymentType::Other
    }
}

/// Reads an `employment_type` column value.
pub fn parse_employment_type(s: &str) -> (r: EmploymentType)
    ensures
        r == employment_type_of(s@),
{
    if str_eq(s, "salaried") {
        EmploymentType::Salaried
    } else if str_eq(s, "hourly") {
        EmploymentType::Hourly
    } else if str_eq(s, "contractor") {
        EmploymentType::Contractor
    } else {
        EmploymentType::Other
    }
}

/// `value.unwrap_or(Decimal::ZERO)`.
pub open spec fn or_zero(value: Option<Amount>) -> Amount {
    match value {
        Some(v) => v,
        None => zero_amount(),
    }
}

pub(crate) fn amount_or_zero(value: Option<Amount>) -> (r: Amount)
    ensures
        r == or_zero(value),
{
    match value {
        Some(v) => v,
        None => Amount::zero(),
    }
}

/// The gross pay estimated for one period from the current compensation
/// alone: a 26th of the annual salary, 80 hours at the hourly rate, or the
/// contractor's per-period amount.
pub open spec fn spec_estimated_gross(
    kind: EmploymentType,
    base_salary: Option<Amount>,
    hourly_rate: Option<Amount>,
) -> Amount {
    match kind {
        EmploymentType::Salaried => decimal_quotient(or_zero(base_salary), whole(26)),
        EmploymentType::Hourly => decimal_product(or_zero(hourly_rate), whole(80)),
        EmploymentType::Contractor => or_zero(base_salary),
        EmploymentType::Other => zero_amount(),
    }
}

/// The net pay estimated for an employee without a payroll run: the estimated
/// gross pay less its biweekly tax, never below zero, rounded to cents.
pub open spec fn spec_estimated_net_pay(
    kind: EmploymentType,
    base_salary: Option<Amount>,
    hourly_rate: Option<Amount>,
) -> Amount {
    let gross = spec_estimated_gross(kind, base_salary, hourly_rate);
    rounded(larger(decimal_difference(gross, spec_biweekly_tax(gross)), zero_amount()), 2)
}

/// A 26th of an amount: the quotient of a valid decimal by 26 never
/// overflows.
pub(crate) fn salary_per_period(annual: Amount) -> (r: Amount)
    requires
        annual.wf(),
    ensures
        r == decimal_quotient(annual, whole(26)),
        r.wf(),
        annual.units() >= 0 ==> r.units() >= 0,
{
    proof {
        lemma_pow10_values();
        lemma_wf_magnitude(annual);
        assert(-(MAX_MANTISSA - 1) * (26 * one_unit()) <= annual.units() <= (MAX_MANTISSA - 1) * (26
            * one_unit())) by (nonlinear_arith)
            requires
                -MAX_MANTISSA * one_unit() <= annual.units() <= MAX_MANTISSA * one_unit(),
                one_unit() > 0,
                MAX_MANTISSA > 1,
        ;
    }
    let periods = whole_amount(BIWEEKLY_PERIODS_PER_YEAR);
    decimal_div(annual, periods)
}

/// An optional amount is absent or a valid decimal.
pub open spec fn opt_wf(value: Option<Amount>) -> bool {
    match value {
        Some(v) => v.wf(),
        None => true,
    }
}

/// The steps of the estimated net pay stay within what a decimal holds: the
/// hourly product, the tax on the estimated gross pay, and the subtraction of
/// the tax.
pub open spec fn net_estimate_fits(
    kind: EmploymentType,
    base_salary: Option<Amount>,
    hourly_rate: Option<Amount>,
) -> bool {
    let gross = spec_estimated_gross(kind, base_salary, hourly_rate);
    &&& kind is Hourly ==> product_fits(or_zero(hourly_rate), whole(80))
    &&& tax_fits(gross)
    &&& difference_fits(gross, spec_biweekly_tax(gross))
}

/// The gross pay of one period estimated from the current compensation:
/// a 26th of the salary, 80 hours at the rate, or the contractor's amount.
pub(crate) fn estimated_gross(
    kind: EmploymentType,
    base_salary: Option<Amount>,
    hourly_rate: Option<Amount>,
) -> (r: Amount)
    requires
        opt_wf(base_salary),
        opt_wf(hourly_rate),
        kind is Hourly ==> product_fits(or_zero(hourly_rate), whole(80)),
    ensures
        r == spec_estimated_gross(kind, base_salary, hourly_rate),
        r.wf(),
{
    proof {
        lemma_pow10_values();
    }
    match kind {
        EmploymentType::Salaried => salary_per_period(amount_or_zero(base_salary)),
        EmploymentType::Hourly => decimal_mul(
            amount_or_zero(hourly_rate),
            whole_amount(HOURLY_FALLBACK_HOURS_PER_PERIOD),
        ),
        EmploymentType::Contractor => amount_or_zero(base_salary),
        EmploymentType::Other => Amount::zero(),
    }
}

/// Estimated net pay for an employee without a payroll run in the period.
pub fn estimated_net_pay(
    employment_type: &str,
    base_salary: Option<Amount>,
    hourly_rate: Option<Amount>,
) -> (r: Amount)
    requires
        opt_wf(base_salary),
        opt_wf(hourly_rate),
        net_estimate_fits(employment_type_of(employment_type@), base_salary, hourly_rate),
    ensures
        r == spec_estimated_net_pay(employment_type_of(employment_type@), base_salary, hourly_rate),
        r.is_cents(),
        r.units() >= 0,
        ({
            let gross = spec_estimated_gross(
                employment_type_of(employment_type@),
                base_salary,
                hourly_rate,
            );
            let tax = spec_biweekly_tax(gross).units();
            gross.is_cents() && gross.within(exact_limit()) ==> r.units() == (if tax
                <= gross.units() {
                gross.units() - tax
            } else {
                0
            })
        }),
        employment_type_of(employment_type@) is Contractor ==> match base_salary {
            Some(b) => b.is_cents() && b.within(exact_limit()) ==> r.units() == (if spec_biweekly_tax(
                b,
            ).units() <= b.units() {
                b.units() - spec_biweekly_tax(b).units()
            } else {
                0
            }),
            None => r.units() == 0,
        },
{
    proof {
        lemma_pow10_values();
    }
    let kind = parse_employment_type(employment_type);
    let gross_biweekly = estimated_gross(kind, base_salary, hourly_rate);
    let tax = biweekly_tax(gross_biweekly);
    proof {
        if gross_biweekly.is_cents() && gross_biweekly.within(exact_limit()) {
            lemma_fits_cents(gross_biweekly.units() - tax.units(), gross_biweekly, tax);
        }
    }
    let difference = decimal_sub(gross_biweekly, tax);
    let net = decimal_max(difference, Amount::zero());
    assert(net.units() >= 0);
    money(net)
}

/// A contractor's estimate is the estimate of an hourly employee whose 80
/// hours come to the contractor's pay for the period: the same tax is taken
/// off both.
pub proof fn lemma_contractor_estimate_as_hourly(
    base_salary: Option<Amount>,
    hourly_rate: Option<Amount>,
    rate: Amount,
)
    requires
        decimal_product(rate, whole(80)) == or_zero(base_salary),
    ensures
        spec_estimated_net_pay(EmploymentType::Contractor, base_salary, hourly_rate)
            == spec_estimated_net_pay(EmploymentType::Hourly, base_salary, Some(rate)),
{
}

/// Regular and overtime hours from a timesheet.
#[derive(Clone, Copy, Debug)]
pub struct TimesheetHours {
    pub regular_hours: Amount,
    pub overtime_hours: Amount,
}

/// What the payroll run of one employee for one period is computed from.
#[derive(Debug)]
pub struct PayrollRunInput {
    /// The `employment_type` column of the employee.
    pub employment_type: String,
    /// Current base salary (annual for salaried staff, per period for
    /// contractors).
    pub base_salary: Option<Amount>,
    /// Current hourly rate.
    pub hourly_rate: Option<Amount>,
    /// The employee's timesheet for the period, if any.
    pub timesheet: Option<TimesheetHours>,
    /// Sum of the positive adjustments of the period.
    pub earnings_adjustments: Amount,
    /// Sum of the magnitudes of the negative adjustments of the period.
    pub deduction_adjustments: Amount,
    /// Savings contributions dated within the period.
    pub savings: Amount,
    /// Company match already paid this year in earlier periods.
    pub matched_to_date: Amount,
}

/// The amounts recorded for one employee in a payroll run.
#[derive(Clone, Copy, Debug)]
pub struct PayrollRunAmounts {
    pub regular_pay: Amount,
    pub overtime_pay: Amount,
    pub bonuses: Amount,
    pub gross_pay: Amount,
    pub tax_deduction: Amount,
    pub employee_savings: Amount,
    pub company_match: Amount,
    pub total_deductions: Amount,
    pub net_pay: Amount,
}

/// A valid decimal within `bound` units.
pub open spec fn bounded(a: Amount, bound: int) -> bool {
    a.wf() && a.within(bound)
}

impl PayrollRunInput {
    /// Every amount is a valid decimal.
    pub open spec fn well_formed(&self) -> bool {
        &&& opt_wf(self.base_salary)
        &&& opt_wf(self.hourly_rate)
        &&& match self.timesheet {
            Some(t) => t.regular_hours.wf() && t.overtime_hours.wf(),
            None => true,
        }
        &&& self.earnings_adjustments.wf()
        &&& self.deduction_adjustments.wf()
        &&& self.savings.wf()
        &&& self.matched_to_date.wf()
    }

    /// Salary, rate, hours, positive adjustments, deduction adjustments and
    /// savings are none of them negative.
    pub open spec fn nonnegative_pay_inputs(&self) -> bool {
        &&& or_zero(self.base_salary).units() >= 0
        &&& or_zero(self.hourly_rate).units() >= 0
        &&& self.regular_hours().units() >= 0
        &&& self.overtime_hours().units() >= 0
        &&& self.earnings_adjustments.units() >= 0
        &&& self.deduction_adjustments.units() >= 0
        &&& self.savings.units() >= 0
    }

    /// The deduction adjustments, savings and match paid so far are valid
    /// decimals within `bound` units.
    pub open spec fn deduction_inputs_within(&self, bound: int) -> bool {
        &&& bounded(self.deduction_adjustments, bound)
        &&& bounded(self.savings, bound)
        &&& bounded(self.matched_to_date, bound)
    }

    /// Regular hours worked, zero without a timesheet.
    pub open spec fn regular_hours(&self) -> Amount {
        match self.timesheet {
            Some(t) => t.regular_hours,
            None => zero_amount(),
        }
    }

    /// Overtime hours worked, zero without a timesheet.
    pub open spec fn overtime_hours(&self) -> Amount {
        match self.timesheet {
            Some(t) => t.overtime_hours,
            None => zero_amount(),
        }
    }
}

/// Regular and overtime pay before adjustments: a 26th of the annual salary,
/// hours at the hourly rate with overtime at 1.5 times the rate, or the
/// contractor's per-period amount.
pub open spec fn spec_base_pay(
    kind: EmploymentType,
    base_salary: Option<Amount>,
    hourly_rate: Option<Amount>,
    regular_hours: Amount,
    overtime_hours: Amount,
) -> (Amount, Amount) {
    match kind {
        EmploymentType::Salaried => (
            decimal_quotient(or_zero(base_salary), whole(26)),
            zero_amount(),
        ),
        EmploymentType::Hourly => (
            decimal_product(regular_hours, or_zero(hourly_rate)),
            decimal_product(
                decimal_product(overtime_hours, or_zero(hourly_rate)),
                overtime_multiplier(),
            ),
        ),
        EmploymentType::Contractor => (or_zero(base_salary), zero_amount()),
        EmploymentType::Other => (zero_amount(), zero_amount()),
    }
}

/// Employee savings, company match, total deductions and net pay of a run
/// from its gross pay, tax, deduction adjustments, savings and the match paid
/// so far: deductions (tax plus deduction adjustments, then savings) are
/// limited so that at least one cent of net pay is left when gross pay is
/// positive, and the company match is capped.
pub open spec fn spec_settlement(
    gross: Amount,
    tax: Amount,
    deduction_adjustments: Amount,
    savings: Amount,
    matched_to_date: Amount,
) -> (Amount, Amount, Amount, Amount) {
    let minimum_net = if zero_amount().units() < gross.units() {
        Amount { mantissa: 1, scale: 2 }
    } else {
        zero_amount()
    };
    let max_deductions = larger(decimal_difference(gross, minimum_net), zero_amount());
    let fixed = rounded(decimal_sum(tax, deduction_adjustments), 2);
    let capacity = larger(decimal_difference(max_deductions, fixed), zero_amount());
    let employee_savings = rounded(smaller(rounded(savings, 2), capacity), 2);
    let total = rounded(decimal_sum(fixed, employee_savings), 2);
    let deductions = if max_deductions.units() < total.units() {
        max_deductions
    } else {
        total
    };
    (
        employee_savings,
        spec_capped_company_match(employee_savings, matched_to_date),
        deductions,
        rounded(decimal_difference(gross, deductions), 2),
    )
}

/// The steps of [`spec_settlement`] stay within what a decimal holds.
pub open spec fn settlement_fits(
    gross: Amount,
    tax: Amount,
    deduction_adjustments: Amount,
    savings: Amount,
    matched_to_date: Amount,
) -> bool {
    let minimum_net = if zero_amount().units() < gross.units() {
        Amount { mantissa: 1, scale: 2 }
    } else {
        zero_amount()
    };
    let max_deductions = larger(decimal_difference(gross, minimum_net), zero_amount());
    let fixed = rounded(decimal_sum(tax, deduction_adjustments), 2);
    let capacity = larger(decimal_difference(max_deductions, fixed), zero_amount());
    let employee_savings = rounded(smaller(rounded(savings, 2), capacity), 2);
    let total = rounded(decimal_sum(fixed, employee_savings), 2);
    let deductions = if max_deductions.units() < total.units() {
        max_deductions
    } else {
        total
    };
    &&& difference_fits(gross, minimum_net)
    &&& sum_fits(tax, deduction_adjustments)
    &&& difference_fits(max_deductions, fixed)
    &&& difference_fits(whole(10_000), matched_to_date)
    &&& sum_fits(fixed, employee_savings)
    &&& difference_fits(gross, deductions)
}

/// The gross pay of a run: regular pay, overtime pay and the positive
/// adjustments, rounded to cents.
pub open spec fn spec_gross_pay(input: PayrollRunInput) -> Amount {
    let base = spec_base_pay(
        employment_type_of(input.employment_type@),
        input.base_salary,
        input.hourly_rate,
        input.regular_hours(),
        input.overtime_hours(),
    );
    rounded(decimal_sum(decimal_sum(base.0, base.1), input.earnings_adjustments), 2)
}

/// The payroll run of one employee: gross pay in cents; tax; deductions and
/// net pay as [`spec_settlement`] gives them; the capped company match.
pub open spec fn spec_payroll_run(input: PayrollRunInput) -> PayrollRunAmounts {
    let base = spec_base_pay(
        employment_type_of(input.employment_type@),
        input.base_salary,
        input.hourly_rate,
        input.regular_hours(),
        input.overtime_hours(),
    );
    let gross = spec_gross_pay(input);
    let tax = spec_biweekly_tax(gross);
    let settled = spec_settlement(
        gross,
        tax,
        input.deduction_adjustments,
        input.savings,
        input.matched_to_date,
    );
    PayrollRunAmounts {
        regular_pay: rounded(base.0, 2),
        overtime_pay: rounded(base.1, 2),
        bonuses: rounded(input.earnings_adjustments, 2),
        gross_pay: gross,
        tax_deduction: rounded(tax, 2),
        employee_savings: settled.0,
        company_match: settled.1,
        total_deductions: settled.2,
        net_pay: settled.3,
    }
}

/// The steps of a payroll run stay within what a decimal holds: the hourly
/// products, the sums that make up gross pay, its tax, and the settlement of
/// the deductions.
pub open spec fn run_fits(input: PayrollRunInput) -> bool {
    let kind = employment_type_of(input.employment_type@);
    let rate = or_zero(input.hourly_rate);
    let base = spec_base_pay(
        kind,
        input.base_salary,
        input.hourly_rate,
        input.regular_hours(),
        input.overtime_hours(),
    );
    let gross = spec_gross_pay(input);
    &&& kind is Hourly ==> {
        &&& product_fits(input.regular_hours(), rate)
        &&& product_fits(input.overtime_hours(), rate)
        &&& product_fits(decimal_product(input.overtime_hours(), rate), overtime_multiplier())
    }
    &&& sum_fits(base.0, base.1)
    &&& sum_fits(decimal_sum(base.0, base.1), input.earnings_adjustments)
    &&& tax_fits(gross)
    &&& settlement_fits(
        gross,
        spec_biweekly_tax(gross),
        input.deduction_adjustments,
        input.savings,
        input.matched_to_date,
    )
}

/// Regular and overtime pay of an employee for the period.
fn base_pay(
    kind: EmploymentType,
    base_salary: Option<Amount>,
    hourly_rate: Option<Amount>,
    regular_hours: Amount,
    overtime_hours: Amount,
) -> (r: (Amount, Amount))
    requires
        opt_wf(base_salary),
        opt_wf(hourly_rate),
        regular_hours.wf(),
        overtime_hours.wf(),
        kind is Hourly ==> {
            &&& product_fits(regular_hours, or_zero(hourly_rate))
            &&& product_fits(overtime_hours, or_zero(hourly_rate))
            &&& product_fits(
                decimal_product(overtime_hours, or_zero(hourly_rate)),
                overtime_multiplier(),
            )
        },
    ensures
        r == spec_base_pay(kind, base_salary, hourly_rate, regular_hours, overtime_hours),
        r.0.wf(),
        r.1.wf(),
        or_zero(base_salary).units() >= 0 && or_zero(hourly_rate).units() >= 0
            && regular_hours.units() >= 0 && overtime_hours.units() >= 0 ==> r.0.units() >= 0
            && r.1.units() >= 0,
{
    proof {
        lemma_pow10_values();
    }
    match kind {
        EmploymentType::Salaried => {
            let annual_salary = amount_or_zero(base_salary);
            let regular = salary_per_period(annual_salary);
            (regular, Amount::zero())
        },
        EmploymentType::Hourly => {
            let hourly_rate = amount_or_zero(hourly_rate);
            let regular = decimal_mul(regular_hours, hourly_rate);
            let overtime_at_rate = decimal_mul(overtime_hours, hourly_rate);
            let multiplier = Amount::new(OVERTIME_MULTIPLIER_X10, 1);
            let overtime = decimal_mul(overtime_at_rate, multiplier);
            (regular, overtime)
        },
        EmploymentType::Contractor => {
            let biweekly_amount = amount_or_zero(base_salary);
            (biweekly_amount, Amount::zero())
        },
        EmploymentType::Other => (Amount::zero(), Amount::zero()),
    }
}

/// Deductions, savings, company match and net pay for a gross pay in cents,
/// when every amount is at most 10^26 in magnitude (all steps are exact).
fn settle_deductions(
    gross: Amount,
    tax: Amount,
    deduction_adjustments: Amount,
    savings: Amount,
    matched_to_date: Amount,
) -> (r: (Amount, Amount, Amount, Amount))
    requires
        gross.is_cents(),
        gross.within(exact_limit()),
        tax.is_cents(),
        tax.units() >= 0,
        tax.within(exact_limit()),
        bounded(deduction_adjustments, exact_limit()),
        bounded(savings, exact_limit()),
        bounded(matched_to_date, exact_limit()),
    ensures
        r == spec_settlement(gross, tax, deduction_adjustments, savings, matched_to_date),
        r.0.is_cents(),
        r.1.is_cents(),
        r.2.is_cents(),
        r.3.is_cents(),
        r.1.units() >= 0,
        deduction_adjustments.units() >= 0 && savings.units() >= 0 ==> r.0.units() >= 0
            && r.2.units() >= 0,
        r.3.units() + r.2.units() == gross.units(),
        gross.units() > 0 ==> r.3.units() >= one_cent(),
        r.2.units() <= (if gross.units() > 0 {
            gross.units() - one_cent()
        } else {
            0
        }),
        matched_to_date.is_cents() ==> r.1.units() <= (if r.0.units() > 0 {
            r.0.units()
        } else {
            0
        }),
        matched_to_date.is_cents() ==> r.1.units() <= (if matched_to_date.units() < 10_000
            * one_unit() {
            10_000 * one_unit() - matched_to_date.units()
        } else {
            0
        }),
{
    proof {
        lemma_pow10_values();
        lemma_cents_units(gross);
    }
    let zero = Amount::zero();
    let minimum_net = if decimal_lt(zero, gross) {
        Amount::new(MIN_NET_PAY_CENTS, 2)
    } else {
        Amount::zero()
    };
    assert(minimum_net.units() == 0 || minimum_net.units() == one_cent());
    proof {
        lemma_fits_cents(gross.units() - minimum_net.units(), gross, minimum_net);
    }
    let max_deductions = decimal_max(decimal_sub(gross, minimum_net), zero);
    proof {
        // a positive whole number of cents is at least one cent
        if gross.units() > 0 {
            assert(cents_of(gross) >= 1) by (nonlinear_arith)
                requires
                    gross.units() == cents_of(gross) * one_cent(),
                    gross.units() > 0,
                    one_cent() > 0,
            ;
            assert(gross.units() >= one_cent()) by (nonlinear_arith)
                requires
                    gross.units() == cents_of(gross) * one_cent(),
                    cents_of(gross) >= 1,
                    one_cent() > 0,
            ;
        }
    }
    assert(max_deductions.units() == (if gross.units() > 0 {
        gross.units() - one_cent()
    } else {
        0
    }));
    let fixed_deductions = money(decimal_add(tax, deduction_adjustments));
    assert(fixed_deductions.within(2 * exact_limit() + 1));
    proof {
        lemma_fits_cents(
            max_deductions.units() - fixed_deductions.units(),
            max_deductions,
            fixed_deductions,
        );
    }
    let savings_capacity = decimal_max(decimal_sub(max_deductions, fixed_deductions), zero);
    let savings_in_cents = money(savings);
    let employee_savings = money(decimal_min(savings_in_cents, savings_capacity));
    assert(employee_savings.within(2 * exact_limit() + 2));
    let company_match = capped_company_match(employee_savings, matched_to_date);
    proof {
        lemma_fits_cents(
            fixed_deductions.units() + employee_savings.units(),
            fixed_deductions,
            employee_savings,
        );
    }
    let mut deductions_total = money(decimal_add(fixed_deductions, employee_savings));
    if decimal_lt(max_deductions, deductions_total) {
        deductions_total = max_deductions;
    }
    proof {
        lemma_fits_cents(gross.units() - deductions_total.units(), gross, deductions_total);
    }
    let net_pay = money(decimal_sub(gross, deductions_total));
    (employee_savings, company_match, deductions_total, net_pay)
}

/// Deductions, savings, company match and net pay for a gross pay in cents,
/// for amounts of any size on which no step overflows.
fn settle_any_deductions(
    gross: Amount,
    tax: Amount,
    deduction_adjustments: Amount,
    savings: Amount,
    matched_to_date: Amount,
) -> (r: (Amount, Amount, Amount, Amount))
    requires
        gross.is_cents(),
        tax.is_cents(),
        tax.units() >= 0,
        deduction_adjustments.wf(),
        savings.wf(),
        matched_to_date.wf(),
        settlement_fits(gross, tax, deduction_adjustments, savings, matched_to_date),
    ensures
        r == spec_settlement(gross, tax, deduction_adjustments, savings, matched_to_date),
        r.0.is_cents(),
        r.1.is_cents(),
        r.2.is_cents(),
        r.3.is_cents(),
        r.1.units() >= 0,
        deduction_adjustments.units() >= 0 && savings.units() >= 0 ==> r.0.units() >= 0
            && r.2.units() >= 0,
{
    proof {
        lemma_pow10_values();
    }
    let zero = Amount::zero();
    let minimum_net = if decimal_lt(zero, gross) {
        Amount::new(MIN_NET_PAY_CENTS, 2)
    } else {
        Amount::zero()
    };
    let max_deductions = decimal_max(decimal_sub(gross, minimum_net), zero);
    let fixed_deductions = money(decimal_add(tax, deduction_adjustments));
    let savings_capacity = decimal_max(decimal_sub(max_deductions, fixed_deductions), zero);
    let savings_in_cents = money(savings);
    let employee_savings = money(decimal_min(savings_in_cents, savings_capacity));
    let company_match = capped_company_match(employee_savings, matched_to_date);
    let mut deductions_total = money(decimal_add(fixed_deductions, employee_savings));
    if decimal_lt(max_deductions, deductions_total) {
        deductions_total = max_deductions;
    }
    let net_pay = money(decimal_sub(gross, deductions_total));
    (employee_savings, company_match, deductions_total, net_pay)
}

/// Computes the payroll run of one employee for one period.
pub fn calculate_payroll_run(input: &PayrollRunInput) -> (r: PayrollRunAmounts)
    requires
        input.well_formed(),
        run_fits(*input),
    ensures
        r == spec_payroll_run(*input),
        r.regular_pay.is_cents(),
        r.overtime_pay.is_cents(),
        r.bonuses.is_cents(),
        r.gross_pay.is_cents(),
        r.tax_deduction.is_cents(),
        r.employee_savings.is_cents(),
        r.company_match.is_cents(),
        r.total_deductions.is_cents(),
        r.net_pay.is_cents(),
        r.tax_deduction == spec_biweekly_tax(r.gross_pay),
        r.tax_deduction.units() >= 0,
        r.company_match.units() >= 0,
        input.nonnegative_pay_inputs() ==> {
            &&& r.gross_pay.units() >= 0
            &&& r.employee_savings.units() >= 0
            &&& r.total_deductions.units() >= 0
        },
        r.gross_pay.within(exact_limit()) && input.deduction_inputs_within(
            exact_limit(),
        ) ==> {
            &&& r.net_pay.units() + r.total_deductions.units() == r.gross_pay.units()
            &&& r.gross_pay.units() > 0 ==> r.net_pay.units() >= one_cent()
            &&& r.total_deductions.units() <= (if r.gross_pay.units() > 0 {
                r.gross_pay.units() - one_cent()
            } else {
                0
            })
            &&& input.nonnegative_pay_inputs() ==> r.total_deductions.units()
                <= r.gross_pay.units()
            &&& input.matched_to_date.is_cents() ==> r.company_match.units() <= (
            if r.employee_savings.units() > 0 {
                r.employee_savings.units()
            } else {
                0
            })
            &&& input.matched_to_date.is_cents() ==> r.company_match.units() <= (
            if input.matched_to_date.units() < 10_000 * one_unit() {
                10_000 * one_unit() - input.matched_to_date.units()
            } else {
                0
            })
        },
{
    proof {
        lemma_pow10_values();
    }
    let kind = parse_employment_type(input.employment_type.as_str());
    let (regular_hours, overtime_hours) = match input.timesheet {
        Some(t) => (t.regular_hours, t.overtime_hours),
        None => (Amount::zero(), Amount::zero()),
    };
    let (regular_pay, overtime_pay) = base_pay(
        kind,
        input.base_salary,
        input.hourly_rate,
        regular_hours,
        overtime_hours,
    );
    let gross_pay = money(
        decimal_add(decimal_add(regular_pay, overtime_pay), input.earnings_adjustments),
    );
    let tax_deduction = biweekly_tax(gross_pay);
    let exact = within_exact_limit(gross_pay) && within_exact_limit(input.deduction_adjustments)
        && within_exact_limit(input.savings) && within_exact_limit(input.matched_to_date);
    let (employee_savings, company_match, total_deductions, net_pay) = if exact {
        settle_deductions(
            gross_pay,
            tax_deduction,
            input.deduction_adjustments,
            input.savings,
            input.matched_to_date,
        )
    } else {
        settle_any_deductions(
            gross_pay,
            tax_deduction,
            input.deduction_adjustments,
            input.savings,
            input.matched_to_date,
        )
    };
    PayrollRunAmounts {
        regular_pay: money(regular_pay),
        overtime_pay: money(overtime_pay),
        bonuses: money(input.earnings_adjustments),
        gross_pay,
        tax_deduction: money(tax_deduction),
        employee_savings,
        company_match,
        total_deductions,
        net_pay,
    }
}

/// Sum of the gross pay of the runs.
pub open spec fn sum_gross(runs: Seq<PayrollRunAmounts>) -> int
    decreases runs.len(),
{
    if runs.len() == 0 {
        0
    } else {
        sum_gross(runs.drop_last()) + runs.last().gross_pay.units()
    }
}

/// Sum of the total deductions of the runs.
pub open spec fn sum_deductions(runs: Seq<PayrollRunAmounts>) -> int
    decreases runs.len(),
{
    if runs.len() == 0 {
        0
    } else {
        sum_deductions(runs.drop_last()) + runs.last().total_deductions.units()
    }
}

/// Sum of the net pay of the runs.
pub open spec fn sum_net(runs: Seq<PayrollRunAmounts>) -> int
    decreases runs.len(),
{
    if runs.len() == 0 {
        0
    } else {
        sum_net(runs.drop_last()) + runs.last().net_pay.units()
    }
}

/// The running total of the gross pay, as `rust_decimal` adds it up from zero.
pub open spec fn gross_total(runs: Seq<PayrollRunAmounts>) -> Amount
    decreases runs.len(),
{
    if runs.len() == 0 {
        zero_amount()
    } else {
        decimal_sum(gross_total(runs.drop_last()), runs.last().gross_pay)
    }
}

/// The running total of the deductions, as `rust_decimal` adds it up from zero.
pub open spec fn deductions_total(runs: Seq<PayrollRunAmounts>) -> Amount
    decreases runs.len(),
{
    if runs.len() == 0 {
        zero_amount()
    } else {
        decimal_sum(deductions_total(runs.drop_last()), runs.last().total_deductions)
    }
}

/// The running total of the net pay, as `rust_decimal` adds it up from zero.
pub open spec fn net_total(runs: Seq<PayrollRunAmounts>) -> Amount
    decreases runs.len(),
{
    if runs.len() == 0 {
        zero_amount()
    } else {
        decimal_sum(net_total(runs.drop_last()), runs.last().net_pay)
    }
}

/// The sums of the gross pay, deductions and net pay of the first `k` runs are
/// each at most 7 * 10^26 in magnitude.
pub open spec fn running_sums_within(runs: Seq<PayrollRunAmounts>, k: int) -> bool {
    let bound = 7 * exact_limit() * one_unit();
    &&& -bound <= sum_gross(runs.subrange(0, k)) <= bound
    &&& -bound <= sum_deductions(runs.subrange(0, k)) <= bound
    &&& -bound <= sum_net(runs.subrange(0, k)) <= bound
}

/// The gross, deduction and net amounts of each run are in cents, and no
/// running sum of them goes beyond 7 * 10^26 in magnitude.
pub open spec fn runs_summable(runs: Seq<PayrollRunAmounts>) -> bool {
    &&& forall|i: int|
        0 <= i < runs.len() ==> {
            &&& (#[trigger] runs[i]).gross_pay.is_cents()
            &&& runs[i].total_deductions.is_cents()
            &&& runs[i].net_pay.is_cents()
        }
    &&& forall|k: int| 0 <= k <= runs.len() ==> #[trigger] running_sums_within(runs, k)
}

/// The amounts of run `k` are valid decimals, and adding them to the totals of
/// the runs before it does not overflow.
pub open spec fn run_adds_up(runs: Seq<PayrollRunAmounts>, k: int) -> bool {
    &&& runs[k].gross_pay.wf()
    &&& runs[k].total_deductions.wf()
    &&& runs[k].net_pay.wf()
    &&& sum_fits(gross_total(runs.subrange(0, k)), runs[k].gross_pay)
    &&& sum_fits(deductions_total(runs.subrange(0, k)), runs[k].total_deductions)
    &&& sum_fits(net_total(runs.subrange(0, k)), runs[k].net_pay)
}

/// Every amount added up is a valid decimal, and no running total overflows.
pub open spec fn totals_fit(runs: Seq<PayrollRunAmounts>) -> bool {
    forall|k: int| 0 <= k < runs.len() ==> #[trigger] run_adds_up(runs, k)
}

/// Totals of a payroll generation.
#[derive(Clone, Copy, Debug)]
pub struct PayrollTotals {
    pub gross_pay: Amount,
    pub deductions: Amount,
    pub net_pay: Amount,
}

/// Adds up the gross pay, deductions and net pay of the runs, starting from
/// zero, in the order of the runs. The totals are the exact sums when the
/// amounts are in cents and no running sum goes beyond 7 * 10^26.
pub fn total_runs(runs: &Vec<PayrollRunAmounts>) -> (r: PayrollTotals)
    requires
        totals_fit(runs@),
    ensures
        r.gross_pay == gross_total(runs@),
        r.deductions == deductions_total(runs@),
        r.net_pay == net_total(runs@),
        r.gross_pay.wf(),
        r.deductions.wf(),
        r.net_pay.wf(),
        runs_summable(runs@) ==> {
            &&& r.gross_pay.is_cents()
            &&& r.deductions.is_cents()
            &&& r.net_pay.is_cents()
            &&& r.gross_pay.units() == sum_gross(runs@)
            &&& r.deductions.units() == sum_deductions(runs@)
            &&& r.net_pay.units() == sum_net(runs@)
        },
{
    proof {
        lemma_pow10_values();
    }
    let ghost summable = runs_summable(runs@);
    let mut total_gross = Amount::zero();
    let mut total_deductions = Amount::zero();
    let mut total_net = Amount::zero();
    let mut i: usize = 0;
    while i < runs.len()
        invariant
            i <= runs@.len(),
            totals_fit(runs@),
            summable == runs_summable(runs@),
            total_gross.wf(),
            total_deductions.wf(),
            total_net.wf(),
            total_gross == gross_total(runs@.subrange(0, i as int)),
            total_deductions == deductions_total(runs@.subrange(0, i as int)),
            total_net == net_total(runs@.subrange(0, i as int)),
            summable ==> {
                &&& total_gross.is_cents()
                &&& total_deductions.is_cents()
                &&& total_net.is_cents()
                &&& total_gross.units() == sum_gross(runs@.subrange(0, i as int))
                &&& total_deductions.units() == sum_deductions(runs@.subrange(0, i as int))
                &&& total_net.units() == sum_net(runs@.subrange(0, i as int))
            },
        decreases runs@.len() - i,
    {
        proof {
            lemma_pow10_values();
        }
        let run = runs[i];
        assert(run_adds_up(runs@, i as int));
        let ghost next = runs@.subrange(0, (i + 1) as int);
        assert(next.drop_last() == runs@.subrange(0, i as int));
        assert(next.last() == run);
        proof {
            if summable {
                assert(running_sums_within(runs@, i + 1));
                assert(runs@[i as int] == run);
                lemma_fits_cents(
                    total_gross.units() + run.gross_pay.units(),
                    total_gross,
                    run.gross_pay,
                );
                lemma_fits_cents(
                    total_deductions.units() + run.total_deductions.units(),
                    total_deductions,
                    run.total_deductions,
                );
                lemma_fits_cents(total_net.units() + run.net_pay.units(), total_net, run.net_pay);
            }
        }
        total_gross = decimal_add(total_gross, run.gross_pay);
        total_deductions = decimal_add(total_deductions, run.total_deductions);
        total_net = decimal_add(total_net, run.net_pay);
        i = i + 1;
    }
    assert(runs@.subrange(0, runs@.len() as int) == runs@);
    PayrollTotals { gross_pay: total_gross, deductions: total_deductions, net_pay: total_net }
}

/// When every run's net pay and deductions add up to its gross pay, the totals
/// do as well.
pub proof fn lemma_totals_balance(runs: Seq<PayrollRunAmounts>)
    requires
        forall|i: int|
            0 <= i < runs.len() ==> (#[trigger] runs[i]).net_pay.units()
                + runs[i].total_deductions.units() == runs[i].gross_pay.units(),
    ensures
        sum_net(runs) + sum_deductions(runs) == sum_gross(runs),
    decreases runs.len(),
{
    if runs.len() > 0 {
        let init = runs.drop_last();
        assert forall|i: int| 0 <= i < init.len() implies (#[trigger] init[i]).net_pay.units()
            + init[i].total_deductions.units() == init[i].gross_pay.units() by {
            assert(init[i] == runs[i]);
        }
        lemma_totals_balance(init);
        assert(runs.last() == runs[runs.len() - 1]);
    }
}

/// A status shown with its first character in upper case and the rest in
/// lower case (ASCII letters only); `Unknown` for an empty status.
pub open spec fn spec_title_case_status(status: Seq<char>) -> Seq<char> {
    if status.len() == 0 {
        "Unknown"@
    } else {
        seq![ascii_upper(status[0])] + ascii_lower_seq(status.drop_first())
    }
}

/// Formats a stored status for display, e.g. `processing` as `Processing`.
pub fn title_case_status(status: &str) -> (r: String)
    ensures
        r@ == spec_title_case_status(status@),
{
    let chars = chars_of(status);
    if chars.len() == 0 {
        return to_owned_string("Unknown");
    }
    let mut out = String::new();
    push_char(&mut out, char_to_upper(chars[0]));
    let mut i: usize = 1;
    while i < chars.len()
        invariant
            1 <= i <= chars.len(),
            chars@ == status@,
            out@ == seq![ascii_upper(status@[0])] + ascii_lower_seq(status@.subrange(1, i as int)),
        decreases chars.len() - i,
    {
        push_char(&mut out, char_to_lower(chars[i]));
        assert(status@.subrange(1, (i + 1) as int) == status@.subrange(1, i as int).push(
            status@[i as int],
        ));
        i = i + 1;
    }
    assert(status@.subrange(1, status@.len() as int) == status@.drop_first());
    out
}


} // verus!
