//! Request and response data of the payroll service, as plain values.

use vstd::prelude::*;

verus! {

/// Totals of the current month, recent activity and the focus pay period.
#[derive(Debug)]
pub struct DashboardOverviewResponse {
    pub payroll_total: String,
    pub payroll_label: String,
    pub employee_count: u32,
    pub employee_delta: String,
    pub deductions_total: String,
    pub deductions_label: String,
    pub contributions_total: String,
    pub contributions_label: String,
    pub recent_activity: Vec<RecentActivityRow>,
    pub pay_period: PayPeriodInfo,
}

/// A recent payment on the dashboard.
#[derive(Debug)]
pub struct RecentActivityRow {
    pub employee_name: String,
    pub position: String,
    pub salary_paid: String,
    pub status: String,
}

/// The focus pay period on the dashboard.
#[derive(Debug)]
pub struct PayPeriodInfo {
    pub working_days: u32,
    pub working_hours: u32,
    pub label: String,
    pub start_date: String,
    pub end_date: String,
    pub payday: PaydayInfo,
}

/// The pay day of the focus pay period.
#[derive(Debug)]
pub struct PaydayInfo {
    pub date: String,
    pub day_of_month: u32,
    pub total_days_in_period: u32,
    pub base_salary: String,
    pub tax_paid: String,
    pub company_contributions: String,
    pub total: String,
}

/// The payroll periods of a year.
#[derive(Debug)]
pub struct PayrollPeriodsResponse {
    pub periods: Vec<PayrollPeriodItem>,
}

/// One payroll period in a list.
#[derive(Debug)]
pub struct PayrollPeriodItem {
    pub id: i32,
    pub start_date: String,
    pub end_date: String,
    pub pay_date: String,
    pub status: String,
    pub is_locked: bool,
}

/// A request to generate payroll for a period.
#[derive(Debug)]
pub struct GeneratePayrollRequest {
    pub payroll_period_id: i32,
    pub force_recalculate: bool,
}

/// The outcome of a payroll generation.
#[derive(Debug)]
pub struct GeneratePayrollResponse {
    pub payroll_period_id: i32,
    pub pay_date: String,
    pub employees_processed: usize,
    pub total_gross_pay: String,
    pub total_deductions: String,
    pub total_net_pay: String,
    pub status: String,
    pub is_locked: bool,
}

/// A request to approve the payroll of a period.
#[derive(Debug)]
pub struct ApprovePayrollRequest {
    pub payroll_period_id: i32,
}

/// The outcome of a payroll approval.
#[derive(Debug)]
pub struct ApprovePayrollResponse {
    pub payroll_period_id: i32,
    pub pay_date: String,
    pub employees_ready: usize,
    pub total_net_pay: String,
    pub status: String,
    pub is_locked: bool,
}

/// A request to pay out the approved payroll of a period.
#[derive(Debug)]
pub struct ExecutePayrollRequest {
    pub payroll_period_id: i32,
}

/// The outcome of a payroll execution.
#[derive(Debug)]
pub struct ExecutePayrollResponse {
    pub payroll_period_id: i32,
    pub pay_date: String,
    pub employees_paid: usize,
    pub total_net_pay: String,
    pub status: String,
    pub is_locked: bool,
}

/// A generated report as JSON.
#[derive(Debug)]
pub struct GenerateReportResponse {
    pub report_type: String,
    pub format: String,
    pub generated_at: String,
    pub row_count: usize,
    pub headers: Vec<String>,
    pub rows: Vec<Vec<String>>,
}

/// The choices offered by the report filters.
#[derive(Debug)]
pub struct ReportFilterOptionsResponse {
    pub employees: Vec<ReportEmployeeOption>,
    pub departments: Vec<String>,
    pub statuses: Vec<String>,
}

/// An employee offered by the report filters.
#[derive(Debug)]
pub struct ReportEmployeeOption {
    pub id: i32,
    pub name: String,
    pub status: String,
}

/// Credentials sent to log in.
#[derive(Debug)]
pub struct LoginRequest {
    pub username: String,
    pub password: String,
}

/// The answer to a successful login.
#[derive(Debug)]
pub struct LoginResponse {
    pub message: String,
    pub username: String,
    pub full_name: String,
    pub role: String,
}

/// The signed-in user.
#[derive(Debug)]
pub struct CurrentUserResponse {
    pub username: String,
    pub full_name: String,
    pub role: String,
}

/// Query of the payroll breakdown chart.
#[derive(Debug)]
pub struct PayrollBreakdownQuery {
    pub year: Option<u32>,
}

/// Query of the payroll period details.
#[derive(Debug)]
pub struct PayrollPeriodDetailsQuery {
    pub period_id: Option<i32>,
}

/// Query of the payroll audit trail.
#[derive(Debug)]
pub struct PayrollAuditQuery {
    pub period_id: Option<i32>,
    pub limit: Option<u16>,
}

/// A new department.
#[derive(Debug)]
pub struct CreateDepartment {
    pub name: String,
    pub code: Option<String>,
}

/// An HTML page rendered from a template.
#[derive(Debug)]
pub struct HtmlTemplate<T>(pub T);

/// The main page, greeting the signed-in user by name.
#[derive(Debug)]
pub struct IndexTemplate {
    pub name: String,
}

/// The dashboard overview fragment.
#[derive(Debug)]
pub struct DashboardOverviewTemplate;

/// The page shown for unknown paths.
#[derive(Debug)]
pub struct Error404Template;

} // verus!
