use payroll_core::auth::AuthenticatedUser;
use chrono::Datelike;
use payroll_core::dates::{CalendarDay, CalendarTime};
use payroll_core::decimal::Amount;
use payroll_core::payroll::PayrollTotals;
use payroll_core::responses::{
    approve_payroll_response, audit_limit, current_user_response, employee_list_entry,
    employee_list_item, execute_payroll_response, generate_payroll_response, index_page,
    login_response, payroll_audit_entry, payroll_period_details, payroll_period_item,
    period_employee_summary, recent_activity_entry, EmployeeWithCompensation,
};
use rust_decimal::Decimal;

fn day(y: i32, m: u32, d: u32) -> CalendarDay {
    CalendarDay { days: chrono::NaiveDate::from_ymd_opt(y, m, d).unwrap().num_days_from_ce() }
}

fn dec(a: Amount) -> Decimal {
    Decimal::from_i128_with_scale(a.mantissa, a.scale)
}

fn whole(n: i64) -> Amount {
    Amount::from_int(n)
}

#[test]
fn period_list_items() {
    let item = payroll_period_item(3, day(2024, 3, 4), day(2024, 3, 15), day(2024, 3, 20), "draft".to_string(), false);
    assert_eq!(
        (item.id, item.start_date.as_str(), item.end_date.as_str(), item.pay_date.as_str(), item.status.as_str(), item.is_locked),
        (3, "2024-03-04", "2024-03-15", "2024-03-20", "draft", false)
    );
}

#[test]
fn workflow_answers() {
    let totals = PayrollTotals { gross_pay: Amount::new(300000, 2), deductions: Amount::new(232691, 3), net_pay: Amount::new(2767309, 3) };
    let g = generate_payroll_response(3, day(2024, 3, 20), 2, &totals);
    assert_eq!(g.total_gross_pay, "3000.00");
    assert_eq!(g.total_deductions, "232.69");
    assert_eq!(g.total_net_pay, "2767.31");
    assert_eq!((g.status.as_str(), g.is_locked, g.employees_processed), ("processing", false, 2));
    assert_eq!(g.pay_date, "2024-03-20");

    let a = approve_payroll_response(3, day(2024, 3, 20), 2, Amount::new(276731, 2));
    assert_eq!((a.employees_ready, a.status.as_str(), a.is_locked), (2, "approved", true));
    assert_eq!(a.total_net_pay, "2767.31");
    assert_eq!(approve_payroll_response(3, day(2024, 3, 20), -5, Amount::zero()).employees_ready, 0);

    let e = execute_payroll_response(3, day(2024, 3, 20), 7, whole(10));
    assert_eq!((e.employees_paid, e.status.as_str(), e.is_locked), (7, "paid", true));
    assert_eq!(e.total_net_pay, "10");
}

#[test]
fn audit_limits_are_kept_in_range() {
    assert_eq!(audit_limit(None), 50);
    assert_eq!(audit_limit(Some(0)), 1);
    assert_eq!(audit_limit(Some(20)), 20);
    assert_eq!(audit_limit(Some(200)), 200);
    assert_eq!(audit_limit(Some(500)), 200);
}

#[test]
fn audit_entries() {
    let at = CalendarTime { day: day(2024, 3, 7), seconds: 3600 + 2 * 60 + 3 };
    let e = payroll_audit_entry(9, at, "UPDATE".to_string(), None, None, Some(4));
    assert_eq!(e.created_at, "2024-03-07 01:02:03");
    assert_eq!((e.event.as_str(), e.user_name.as_str(), e.payroll_period_id), ("payroll_event", "system", Some(4)));
    let f = payroll_audit_entry(9, at, "UPDATE".to_string(), Some("payroll_paid".to_string()), Some("ana".to_string()), None);
    assert_eq!((f.event.as_str(), f.user_name.as_str()), ("payroll_paid", "ana"));
}

#[test]
fn period_employees() {
    let with_run = period_employee_summary("Ann", "Lee", None, Some("Ops".to_string()), Some(whole(1500)), "salaried", None, None, Some("paid".to_string()));
    assert_eq!(with_run.employee_name, "Ann Lee");
    assert_eq!((with_run.position.as_str(), with_run.department.as_str()), ("Unassigned", "Ops"));
    assert_eq!(dec(with_run.net_pay), Decimal::from(1500));
    assert_eq!(with_run.payment_status, "Paid");
    let without = period_employee_summary("Bo", "Li", Some("Clerk".to_string()), None, None, "salaried", Some(whole(52_000)), None, None);
    assert_eq!(dec(without.net_pay), Decimal::new(186731, 2));
    assert_eq!(without.payment_status, "Pending");
}

#[test]
fn period_details() {
    let d = payroll_period_details(3, day(2024, 3, 4), day(2024, 3, 15), day(2024, 3, 20), "processing", false, 2, 5);
    assert_eq!(d.status, "Processing");
    assert_eq!((d.can_generate, d.can_approve, d.can_execute), (true, true, false));
    assert_eq!(d.total_employees, 5);
    assert_eq!(d.start_date, "2024-03-04");
    let paid = payroll_period_details(3, day(2024, 3, 4), day(2024, 3, 15), day(2024, 3, 20), "paid", true, 2, 0);
    assert_eq!((paid.can_generate, paid.can_approve, paid.can_execute), (false, false, false));
}

#[test]
fn employee_list() {
    let latest = employee_list_entry("Ann", "Lee", None, None, "salaried", Some(whole(52_000)), None, Some(whole(2_100)), Some(whole(1_900)), None, Some(whole(140)));
    assert_eq!(latest.name, "Ann Lee");
    assert_eq!((dec(latest.gross_pay), dec(latest.net_pay)), (Decimal::from(2_100), Decimal::from(1_900)));
    assert_eq!((dec(latest.contributions), dec(latest.tax_paid)), (Decimal::ZERO, Decimal::from(140)));
    let estimated = employee_list_entry("Bo", "Li", Some("Clerk".to_string()), Some("Ops".to_string()), "hourly", None, Some(whole(25)), None, None, None, None);
    assert_eq!((dec(estimated.gross_pay), dec(estimated.net_pay)), (Decimal::from(2_000), Decimal::new(186731, 2)));
    assert_eq!(estimated.department, "Ops");
}

#[test]
fn recent_activity() {
    let r = recent_activity_entry("Ann", "Lee", "Clerk".to_string(), whole(5), "in_review");
    assert_eq!((r.employee_name.as_str(), r.position.as_str(), r.status.as_str()), ("Ann Lee", "Clerk", "In Review"));
}

fn employee(kind: &str, salary: Option<Amount>) -> EmployeeWithCompensation {
    EmployeeWithCompensation {
        id: 1,
        employee_number: "E1".to_string(),
        first_name: "Ann".to_string(),
        last_name: "Lee".to_string(),
        email: "a@x".to_string(),
        employment_type: kind.to_string(),
        status: "active".to_string(),
        position: Some("Clerk".to_string()),
        department_name: None,
        base_salary: salary,
        hourly_rate: None,
        effective_date: None,
    }
}

#[test]
fn directory_items() {
    let s = employee_list_item(employee("salaried", Some(whole(52_000))));
    assert_eq!(s.name, "Ann Lee");
    assert_eq!(s.net_salary.map(dec), Some(Decimal::from(2_000)));
    assert_eq!(s.contributions.map(dec), Some(Decimal::ZERO));
    let no_salary = employee_list_item(employee("salaried", None));
    assert!(no_salary.net_salary.is_none() && no_salary.deductions.is_none());
    let c = employee_list_item(employee("contractor", Some(whole(900))));
    assert_eq!(c.net_salary.map(dec), Some(Decimal::from(900)));
    let h = employee_list_item(employee("hourly", Some(whole(900))));
    assert!(h.net_salary.is_none() && h.contributions.is_none());
    assert_eq!(h.position, Some("Clerk".to_string()));
}

#[test]
fn user_answers() {
    let u = AuthenticatedUser { id: 2, username: "ana".to_string(), full_name: "Ana B".to_string(), role: "admin".to_string() };
    let l = login_response(&u);
    assert_eq!((l.message.as_str(), l.username.as_str(), l.full_name.as_str(), l.role.as_str()), ("Login successful", "ana", "Ana B", "admin"));
    let page = index_page(AuthenticatedUser { id: 2, username: "ana".to_string(), full_name: "Ana B".to_string(), role: "admin".to_string() });
    assert_eq!(page.name, "Ana B");
    let me = current_user_response(u);
    assert_eq!((me.username.as_str(), me.role.as_str()), ("ana", "admin"));
}
