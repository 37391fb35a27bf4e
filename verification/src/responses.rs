//! The answers of the payroll service, built from the values its queries
//! return: period lists and details, the outcome of each workflow step, the
//! audit trail, the employee lists, and the signed-in user.

use vstd::prelude::*;
use crate::auth::AuthenticatedUser;
use crate::dates::{day_text, format_time, iso_date, time_text, CalendarDay, CalendarTime};
use crate::decimal::{decimal_quotient, product_fits, Amount};
use crate::models::{
    ApprovePayrollResponse, CurrentUserResponse, ExecutePayrollResponse, GeneratePayrollResponse,
    IndexTemplate, LoginResponse, PayrollPeriodItem,
};
use crate::payroll::{
    employment_type_of, opt_wf, or_zero, spec_estimated_net_pay, whole,
    EmploymentType, PayrollTotals,
};
use crate::report_tables::{full_name, spec_full_name, text_or};
use crate::reports::{money_text, spec_money_text};
use crate::text::to_owned_string;
use crate::workflow::{period_actions, spec_period_actions};

verus! {

/// A payroll period as the period list shows it, with its dates as
/// `YYYY-MM-DD`.
pub fn payroll_period_item(
    id: i32,
    start_date: CalendarDay,
    end_date: CalendarDay,
    pay_date: CalendarDay,
    status: String,
    is_locked: bool,
) -> (r: PayrollPeriodItem)
    requires
        start_date.wf(),
        end_date.wf(),
        pay_date.wf(),
    ensures
        r.id == id,
        r.start_date@ == day_text(start_date.days as int, "%Y-%m-%d"@),
        r.end_date@ == day_text(end_date.days as int, "%Y-%m-%d"@),
        r.pay_date@ == day_text(pay_date.days as int, "%Y-%m-%d"@),
        r.status@ == status@,
        r.is_locked == is_locked,
{
    PayrollPeriodItem {
        id,
        start_date: iso_date(start_date),
        end_date: iso_date(end_date),
        pay_date: iso_date(pay_date),
        status,
        is_locked,
    }
}

/// The answer to a payroll generation: the totals of the new runs in cents,
/// the period left processing and unlocked.
pub fn generate_payroll_response(
    period_id: i32,
    pay_date: CalendarDay,
    employees_processed: usize,
    totals: &PayrollTotals,
) -> (r: GeneratePayrollResponse)
    requires
        pay_date.wf(),
        totals.gross_pay.wf(),
        totals.deductions.wf(),
        totals.net_pay.wf(),
    ensures
        r.payroll_period_id == period_id,
        r.pay_date@ == day_text(pay_date.days as int, "%Y-%m-%d"@),
        r.employees_processed == employees_processed,
        r.total_gross_pay@ == spec_money_text(totals.gross_pay),
        r.total_deductions@ == spec_money_text(totals.deductions),
        r.total_net_pay@ == spec_money_text(totals.net_pay),
        r.status@ == "processing"@,
        !r.is_locked,
{
    GeneratePayrollResponse {
        payroll_period_id: period_id,
        pay_date: iso_date(pay_date),
        employees_processed,
        total_gross_pay: money_text(totals.gross_pay),
        total_deductions: money_text(totals.deductions),
        total_net_pay: money_text(totals.net_pay),
        status: to_owned_string("processing"),
        is_locked: false,
    }
}

/// A run count as a number of employees: never below zero.
pub open spec fn employees_of(run_count: i64) -> usize {
    if run_count > 0 {
        run_count as usize
    } else {
        0
    }
}

fn employees_from_runs(run_count: i64) -> (r: usize)
    ensures
        r == employees_of(run_count),
{
    if run_count > 0 {
        run_count as usize
    } else {
        0
    }
}

/// The answer to a payroll approval: the runs ready to pay, their net total
/// in cents, the period approved and locked.
pub fn approve_payroll_response(
    period_id: i32,
    pay_date: CalendarDay,
    run_count: i64,
    total_net_pay: Amount,
) -> (r: ApprovePayrollResponse)
    requires
        pay_date.wf(),
        total_net_pay.wf(),
    ensures
        r.payroll_period_id == period_id,
        r.pay_date@ == day_text(pay_date.days as int, "%Y-%m-%d"@),
        r.employees_ready == employees_of(run_count),
        r.total_net_pay@ == spec_money_text(total_net_pay),
        r.status@ == "approved"@,
        r.is_locked,
{
    ApprovePayrollResponse {
        payroll_period_id: period_id,
        pay_date: iso_date(pay_date),
        employees_ready: employees_from_runs(run_count),
        total_net_pay: money_text(total_net_pay),
        status: to_owned_string("approved"),
        is_locked: true,
    }
}

/// The answer to a payroll execution: the runs paid, their net total in
/// cents, the period paid and still locked.
pub fn execute_payroll_response(
    period_id: i32,
    pay_date: CalendarDay,
    run_count: i64,
    total_net_pay: Amount,
) -> (r: ExecutePayrollResponse)
    requires
        pay_date.wf(),
        total_net_pay.wf(),
    ensures
        r.payroll_period_id == period_id,
        r.pay_date@ == day_text(pay_date.days as int, "%Y-%m-%d"@),
        r.employees_paid == employees_of(run_count),
        r.total_net_pay@ == spec_money_text(total_net_pay),
        r.status@ == "paid"@,
        r.is_locked,
{
    ExecutePayrollResponse {
        payroll_period_id: period_id,
        pay_date: iso_date(pay_date),
        employees_paid: employees_from_runs(run_count),
        total_net_pay: money_text(total_net_pay),
        status: to_owned_string("paid"),
        is_locked: true,
    }
}

/// Entries shown in the audit trail when the query names no limit.
pub const DEFAULT_AUDIT_LIMIT: u16 = 50;

/// Most entries the audit trail shows.
pub const MAX_AUDIT_LIMIT: u16 = 200;

/// How many audit entries to read: the requested number, 50 when none is
/// requested, kept from 1 to 200.
pub fn audit_limit(limit: Option<u16>) -> (r: i64)
    ensures
        r == (match limit {
            None => 50,
            Some(l) => if l < 1 {
                1
            } else if l > 200 {
                200
            } else {
                l as int
            },
        }),
{
    let requested = match limit {
        Some(l) => l,
        None => DEFAULT_AUDIT_LIMIT,
    };
    let kept = if requested < 1 {
        1
    } else if requested > MAX_AUDIT_LIMIT {
        MAX_AUDIT_LIMIT
    } else {
        requested
    };
    kept as i64
}

/// An entry of the payroll audit trail (without the recorded details).
#[derive(Debug)]
pub struct PayrollAuditEntry {
    pub id: i32,
    pub created_at: String,
    pub action: String,
    pub event: String,
    pub user_name: String,
    pub payroll_period_id: Option<i32>,
}

/// An audit entry as the trail shows it: the moment as
/// `YYYY-MM-DD HH:MM:SS`, `payroll_event` for an entry without an event name
/// and `system` for one without a user.
pub fn payroll_audit_entry(
    id: i32,
    created_at: CalendarTime,
    action: String,
    event_name: Option<String>,
    user_name: Option<String>,
    record_id: Option<i32>,
) -> (r: PayrollAuditEntry)
    requires
        created_at.wf(),
    ensures
        r.id == id,
        r.created_at@ == time_text(
            created_at.day.days as int,
            created_at.seconds as int,
            "%Y-%m-%d %H:%M:%S"@,
        ),
        r.action@ == action@,
        r.event@ == text_or(event_name, "payroll_event"@),
        r.user_name@ == text_or(user_name, "system"@),
        r.payroll_period_id == record_id,
{
    PayrollAuditEntry {
        id,
        created_at: format_time(created_at, "%Y-%m-%d %H:%M:%S"),
        action,
        event: match event_name {
            Some(e) => e,
            None => to_owned_string("payroll_event"),
        },
        user_name: match user_name {
            Some(u) => u,
            None => to_owned_string("system"),
        },
        payroll_period_id: record_id,
    }
}

/// An active employee in the details of a payroll period.
#[derive(Debug)]
pub struct PeriodEmployeeSummary {
    pub employee_name: String,
    pub position: String,
    pub department: String,
    pub net_pay: Amount,
    pub payment_status: String,
}

/// An employee in the details of a period: full name, position and
/// department (`Unassigned` when missing), the net pay of the employee's run in
/// the period or, without a run, the estimated net pay, and the payment status
/// in words (`Pending` without a run).
pub fn period_employee_summary(
    first_name: &str,
    last_name: &str,
    position: Option<String>,
    department: Option<String>,
    net_pay: Option<Amount>,
    employment_type: &str,
    base_salary: Option<Amount>,
    hourly_rate: Option<Amount>,
    payment_status: Option<String>,
) -> (r: PeriodEmployeeSummary)
    requires
        net_pay is None ==> opt_wf(base_salary) && opt_wf(hourly_rate)
            && crate::payroll::net_estimate_fits(
            employment_type_of(employment_type@),
            base_salary,
            hourly_rate,
        ),
    ensures
        r.employee_name@ == spec_full_name(first_name@, last_name@),
        r.position@ == text_or(position, "Unassigned"@),
        r.department@ == text_or(department, "Unassigned"@),
        r.net_pay == (match net_pay {
            Some(n) => n,
            None => spec_estimated_net_pay(
                employment_type_of(employment_type@),
                base_salary,
                hourly_rate,
            ),
        }),
        r.payment_status@ == (match payment_status {
            Some(s) => crate::payroll::spec_title_case_status(s@),
            None => "Pending"@,
        }),
{
    PeriodEmployeeSummary {
        employee_name: full_name(first_name, last_name),
        position: match position {
            Some(p) => p,
            None => to_owned_string("Unassigned"),
        },
        department: match department {
            Some(d) => d,
            None => to_owned_string("Unassigned"),
        },
        net_pay: match net_pay {
            Some(n) => n,
            None => crate::payroll::estimated_net_pay(employment_type, base_salary, hourly_rate),
        },
        payment_status: match payment_status {
            Some(s) => crate::payroll::title_case_status(s.as_str()),
            None => to_owned_string("Pending"),
        },
    }
}

/// The details of a payroll period apart from its money totals and employees.
#[derive(Debug)]
pub struct PeriodDetailsSummary {
    pub period_id: i32,
    pub start_date: String,
    pub end_date: String,
    pub pay_date: String,
    pub status: String,
    pub is_locked: bool,
    pub can_generate: bool,
    pub can_approve: bool,
    pub can_execute: bool,
    pub total_employees: u32,
}

/// The details of a payroll period: its dates as `YYYY-MM-DD`, its status in
/// words, its lock, the workflow steps it offers, and how many employees it
/// lists (as `u32`).
pub fn payroll_period_details(
    period_id: i32,
    start_date: CalendarDay,
    end_date: CalendarDay,
    pay_date: CalendarDay,
    status: &str,
    is_locked: bool,
    run_count: i64,
    employee_count: usize,
) -> (r: PeriodDetailsSummary)
    requires
        start_date.wf(),
        end_date.wf(),
        pay_date.wf(),
    ensures
        r.period_id == period_id,
        r.start_date@ == day_text(start_date.days as int, "%Y-%m-%d"@),
        r.end_date@ == day_text(end_date.days as int, "%Y-%m-%d"@),
        r.pay_date@ == day_text(pay_date.days as int, "%Y-%m-%d"@),
        r.status@ == crate::payroll::spec_title_case_status(status@),
        r.is_locked == is_locked,
        r.can_generate == spec_period_actions(status@, is_locked, run_count as int).can_generate,
        r.can_approve == spec_period_actions(status@, is_locked, run_count as int).can_approve,
        r.can_execute == spec_period_actions(status@, is_locked, run_count as int).can_execute,
        r.total_employees == employee_count as u32,
{
    let actions = period_actions(status, is_locked, run_count);
    PeriodDetailsSummary {
        period_id,
        start_date: iso_date(start_date),
        end_date: iso_date(end_date),
        pay_date: iso_date(pay_date),
        status: crate::payroll::title_case_status(status),
        is_locked,
        can_generate: actions.can_generate,
        can_approve: actions.can_approve,
        can_execute: actions.can_execute,
        total_employees: employee_count as u32,
    }
}

/// An employee in the employee list with the amounts of the latest run.
#[derive(Debug)]
pub struct EmployeeListEntry {
    pub name: String,
    pub position: String,
    pub department: String,
    pub gross_pay: Amount,
    pub net_pay: Amount,
    pub contributions: Amount,
    pub tax_paid: Amount,
}

/// An employee in the employee list: full name, position and department
/// (`Unassigned` when missing), the gross and net pay of the latest run or,
/// without one, the estimates from the current compensation, and the savings
/// and tax of the latest run (zero without one).
pub fn employee_list_entry(
    first_name: &str,
    last_name: &str,
    position: Option<String>,
    department: Option<String>,
    employment_type: &str,
    base_salary: Option<Amount>,
    hourly_rate: Option<Amount>,
    latest_gross_pay: Option<Amount>,
    latest_net_pay: Option<Amount>,
    latest_contributions: Option<Amount>,
    latest_tax_paid: Option<Amount>,
) -> (r: EmployeeListEntry)
    requires
        latest_gross_pay is None || latest_net_pay is None ==> opt_wf(base_salary) && opt_wf(
            hourly_rate,
        ),
        latest_gross_pay is None && employment_type_of(employment_type@) is Hourly ==> product_fits(
            or_zero(hourly_rate),
            whole(80),
        ),
        latest_net_pay is None ==> crate::dashboard::income_estimate_fits(
            employment_type_of(employment_type@),
            base_salary,
            hourly_rate,
        ),
    ensures
        r.name@ == spec_full_name(first_name@, last_name@),
        r.position@ == text_or(position, "Unassigned"@),
        r.department@ == text_or(department, "Unassigned"@),
        r.gross_pay == (match latest_gross_pay {
            Some(g) => g,
            None => crate::decimal::rounded(
                crate::payroll::spec_estimated_gross(
                    employment_type_of(employment_type@),
                    base_salary,
                    hourly_rate,
                ),
                2,
            ),
        }),
        r.net_pay == (match latest_net_pay {
            Some(n) => n,
            None => crate::dashboard::spec_estimated_net_pay(
                employment_type_of(employment_type@),
                base_salary,
                hourly_rate,
            ),
        }),
        r.contributions == or_zero(latest_contributions),
        r.tax_paid == or_zero(latest_tax_paid),
{
    EmployeeListEntry {
        name: full_name(first_name, last_name),
        position: match position {
            Some(p) => p,
            None => to_owned_string("Unassigned"),
        },
        department: match department {
            Some(d) => d,
            None => to_owned_string("Unassigned"),
        },
        gross_pay: match latest_gross_pay {
            Some(g) => g,
            None => crate::dashboard::estimated_gross_pay(employment_type, base_salary, hourly_rate),
        },
        net_pay: match latest_net_pay {
            Some(n) => n,
            None => crate::dashboard::estimated_net_pay(employment_type, base_salary, hourly_rate),
        },
        contributions: match latest_contributions {
            Some(c) => c,
            None => Amount::zero(),
        },
        tax_paid: match latest_tax_paid {
            Some(t) => t,
            None => Amount::zero(),
        },
    }
}

/// A recent payment on the dashboard, its amount still as a decimal.
#[derive(Debug)]
pub struct RecentActivityEntry {
    pub employee_name: String,
    pub position: String,
    pub net_pay: Amount,
    pub status: String,
}

/// A recent payment: full name, position, net pay, and payment status in words.
pub fn recent_activity_entry(
    first_name: &str,
    last_name: &str,
    position: String,
    net_pay: Amount,
    payment_status: &str,
) -> (r: RecentActivityEntry)
    ensures
        r.employee_name@ == spec_full_name(first_name@, last_name@),
        r.position@ == position@,
        r.net_pay == net_pay,
        r.status@ == crate::dashboard::spec_title_case_status(payment_status@),
{
    RecentActivityEntry {
        employee_name: full_name(first_name, last_name),
        position,
        net_pay,
        status: crate::dashboard::title_case_status(payment_status),
    }
}

/// An employee with the current compensation.
#[derive(Debug)]
pub struct EmployeeWithCompensation {
    pub id: i32,
    pub employee_number: String,
    pub first_name: String,
    pub last_name: String,
    pub email: String,
    pub employment_type: String,
    pub status: String,
    pub position: Option<String>,
    pub department_name: Option<String>,
    pub base_salary: Option<Amount>,
    pub hourly_rate: Option<Amount>,
    pub effective_date: Option<CalendarDay>,
}

/// An employee as the employee directory lists it, with the amounts of one
/// pay period.
#[derive(Debug)]
pub struct EmployeeListItem {
    pub id: i32,
    pub employee_number: String,
    pub name: String,
    pub position: Option<String>,
    pub department: Option<String>,
    pub employment_type: String,
    pub status: String,
    pub net_salary: Option<Amount>,
    pub contributions: Option<Amount>,
    pub deductions: Option<Amount>,
}

/// The amounts of one pay period listed for an employee: for a salaried
/// employee with a salary, a 26th of it with no contributions or deductions;
/// for a contractor, the per-period amount with none; otherwise nothing.
pub open spec fn spec_listed_amounts(kind: EmploymentType, base_salary: Option<Amount>) -> (
    Option<Amount>,
    Option<Amount>,
    Option<Amount>,
) {
    let zero = Amount { mantissa: 0, scale: 0 };
    match kind {
        EmploymentType::Salaried => match base_salary {
            Some(annual) => (Some(decimal_quotient(annual, whole(26))), Some(zero), Some(zero)),
            None => (None, None, None),
        },
        EmploymentType::Contractor => (base_salary, Some(zero), Some(zero)),
        _ => (None, None, None),
    }
}


/// Lists an employee in the directory: full name, the stored details, and the
/// amounts of one pay period by employment type.
pub fn employee_list_item(emp: EmployeeWithCompensation) -> (r: EmployeeListItem)
    requires
        emp.base_salary matches Some(a) ==> a.wf(),
    ensures
        r.id == emp.id,
        r.employee_number@ == emp.employee_number@,
        r.name@ == spec_full_name(emp.first_name@, emp.last_name@),
        r.position == emp.position,
        r.department == emp.department_name,
        r.employment_type@ == emp.employment_type@,
        r.status@ == emp.status@,
        (r.net_salary, r.contributions, r.deductions) == spec_listed_amounts(
            employment_type_of(emp.employment_type@),
            emp.base_salary,
        ),
{
    let name = full_name(emp.first_name.as_str(), emp.last_name.as_str());
    let kind = crate::payroll::parse_employment_type(emp.employment_type.as_str());
    let (net_salary, contributions, deductions) = match kind {
        EmploymentType::Salaried => match emp.base_salary {
            Some(annual) => (
                Some(crate::payroll::salary_per_period(annual)),
                Some(Amount::zero()),
                Some(Amount::zero()),
            ),
            None => (None, None, None),
        },
        EmploymentType::Contractor => (emp.base_salary, Some(Amount::zero()), Some(Amount::zero())),
        _ => (None, None, None),
    };
    EmployeeListItem {
        id: emp.id,
        employee_number: emp.employee_number,
        name,
        position: emp.position,
        department: emp.department_name,
        employment_type: emp.employment_type,
        status: emp.status,
        net_salary,
        contributions,
        deductions,
    }
}

/// The answer to a successful login: a fixed message and the user's name,
/// full name and role.
pub fn login_response(user: &AuthenticatedUser) -> (r: LoginResponse)
    ensures
        r.message@ == "Login successful"@,
        r.username@ == user.username@,
        r.full_name@ == user.full_name@,
        r.role@ == user.role@,
{
    LoginResponse {
        message: to_owned_string("Login successful"),
        username: to_owned_string(user.username.as_str()),
        full_name: to_owned_string(user.full_name.as_str()),
        role: to_owned_string(user.role.as_str()),
    }
}

/// The signed-in user's name, full name and role.
pub fn current_user_response(user: AuthenticatedUser) -> (r: CurrentUserResponse)
    ensures
        r.username == user.username,
        r.full_name == user.full_name,
        r.role == user.role,
{
    CurrentUserResponse { username: user.username, full_name: user.full_name, role: user.role }
}

/// The main page greets the signed-in user by full name.
pub fn index_page(user: AuthenticatedUser) -> (r: IndexTemplate)
    ensures
        r.name == user.full_name,
{
    IndexTemplate { name: user.full_name }
}

} // verus!
