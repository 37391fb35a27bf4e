//! The tables behind the payroll reports: which reports and formats a request
//! may ask for, the columns of each report, how a record becomes a row, and the
//! names under which a report is downloaded.

use vstd::prelude::*;
use crate::dates::{date_text, format_time, spec_date_text, time_text, CalendarDay, CalendarTime};
use crate::decimal::Amount;
use crate::models::{GenerateReportResponse, ReportEmployeeOption, ReportFilterOptionsResponse};
use crate::reports::{
    humanize_event_name, money_opt_text, money_text, spec_humanize_event_name, spec_money_opt_text,
    spec_money_text, views,
};
use crate::text::{
    ascii_lower_seq, i64_to_string, int_text, lowercase_ascii, push_str, str_eq, str_views,
    to_owned_string, trim, trimmed,
};

verus! {

/// The output format of a generated report.
#[derive(Clone, Copy, Debug, PartialEq, Eq, Structural)]
pub enum ReportFormat {
    Json,
    Csv,
    Pdf,
}

/// The reports the service generates.
#[derive(Clone, Copy, Debug, PartialEq, Eq, Structural)]
pub enum ReportKind {
    PayrollPeriodSummary,
    EmployeePayroll,
    EmployeeListing,
    EmployeeProfile,
    DeductionsSummary,
    TaxRegister,
    PayrollApprovalHistory,
}

/// Why a report request is answered without a report.
#[derive(Clone, Copy, Debug, PartialEq, Eq, Structural)]
pub enum ReportRequestError {
    UnsupportedFormat,
    UnsupportedReportType,
    NoPayrollPeriods,
    NoEmployees,
    EmployeeNotFound,
}

/// The text a format is named by in requests and responses.
pub open spec fn format_name(format: ReportFormat) -> Seq<char> {
    match format {
        ReportFormat::Json => "json"@,
        ReportFormat::Csv => "csv"@,
        ReportFormat::Pdf => "pdf"@,
    }
}

/// The format a request names once its text is trimmed and in lowercase.
pub open spec fn spec_format_of(text: Seq<char>) -> Option<ReportFormat> {
    if text == "json"@ {
        Some(ReportFormat::Json)
    } else if text == "csv"@ {
        Some(ReportFormat::Csv)
    } else if text == "pdf"@ {
        Some(ReportFormat::Pdf)
    } else {
        None
    }
}

/// The format a request asks for: JSON when it names none, otherwise the named
/// format with surrounding whitespace and case ignored.
pub open spec fn spec_requested_format(format: Option<Seq<char>>) -> Option<ReportFormat> {
    match format {
        None => Some(ReportFormat::Json),
        Some(f) => spec_format_of(ascii_lower_seq(trimmed(f))),
    }
}

/// The report a `report_type` names, compared exactly.
pub open spec fn spec_kind_of(text: Seq<char>) -> Option<ReportKind> {
    if text == "payroll_period_summary"@ {
        Some(ReportKind::PayrollPeriodSummary)
    } else if text == "employee_payroll"@ {
        Some(ReportKind::EmployeePayroll)
    } else if text == "employee_listing"@ {
        Some(ReportKind::EmployeeListing)
    } else if text == "employee_profile"@ {
        Some(ReportKind::EmployeeProfile)
    } else if text == "deductions_summary"@ {
        Some(ReportKind::DeductionsSummary)
    } else if text == "tax_register"@ {
        Some(ReportKind::TaxRegister)
    } else if text == "payroll_approval_history"@ {
        Some(ReportKind::PayrollApprovalHistory)
    } else {
        None
    }
}

impl ReportFormat {
    /// `json`, `csv` or `pdf`.
    pub fn name(&self) -> (r: String)
        ensures
            r@ == format_name(*self),
    {
        match self {
            ReportFormat::Json => to_owned_string("json"),
            ReportFormat::Csv => to_owned_string("csv"),
            ReportFormat::Pdf => to_owned_string("pdf"),
        }
    }

    /// The media type a report in this format is sent as.
    pub fn content_type(&self) -> (r: String)
        ensures
            r@ == (match *self {
                ReportFormat::Json => "application/json"@,
                ReportFormat::Csv => "text/csv; charset=utf-8"@,
                ReportFormat::Pdf => "application/pdf"@,
            }),
    {
        match self {
            ReportFormat::Json => to_owned_string("application/json"),
            ReportFormat::Csv => to_owned_string("text/csv; charset=utf-8"),
            ReportFormat::Pdf => to_owned_string("application/pdf"),
        }
    }
}

impl ReportRequestError {
    /// The HTTP status the refusal is answered with.
    pub fn status_code(&self) -> (r: u16)
        ensures
            r == (match *self {
                ReportRequestError::UnsupportedFormat => 400u16,
                ReportRequestError::UnsupportedReportType => 400u16,
                _ => 404u16,
            }),
    {
        match self {
            ReportRequestError::UnsupportedFormat => 400,
            ReportRequestError::UnsupportedReportType => 400,
            _ => 404,
        }
    }

    /// The message the refusal is answered with.
    pub fn message(&self) -> (r: String)
        ensures
            r@ == (match *self {
                ReportRequestError::UnsupportedFormat => "Unsupported format. Use 'json', 'csv', or 'pdf'."@,
                ReportRequestError::UnsupportedReportType => "Unsupported report_type. Use payroll_period_summary, employee_payroll, employee_listing, employee_profile, deductions_summary, tax_register, or payroll_approval_history."@,
                ReportRequestError::NoPayrollPeriods => "No payroll periods found"@,
                ReportRequestError::NoEmployees => "No employees found"@,
                ReportRequestError::EmployeeNotFound => "Employee not found"@,
            }),
    {
        match self {
            ReportRequestError::UnsupportedFormat => to_owned_string(
                "Unsupported format. Use 'json', 'csv', or 'pdf'.",
            ),
            ReportRequestError::UnsupportedReportType => to_owned_string(
                "Unsupported report_type. Use payroll_period_summary, employee_payroll, employee_listing, employee_profile, deductions_summary, tax_register, or payroll_approval_history.",
            ),
            ReportRequestError::NoPayrollPeriods => to_owned_string("No payroll periods found"),
            ReportRequestError::NoEmployees => to_owned_string("No employees found"),
            ReportRequestError::EmployeeNotFound => to_owned_string("Employee not found"),
        }
    }
}

/// Reads the requested format: JSON when none is named, otherwise the named
/// one, trimmed and in lowercase, which must be `json`, `csv` or `pdf`.
pub fn parse_report_format(format: Option<&str>) -> (r: Result<ReportFormat, ReportRequestError>)
    ensures
        r == (match spec_requested_format(crate::reports::opt_view(format)) {
            Some(f) => Ok::<ReportFormat, ReportRequestError>(f),
            None => Err(ReportRequestError::UnsupportedFormat),
        }),
{
    match format {
        None => Ok(ReportFormat::Json),
        Some(f) => {
            let trimmed_text = trim(f);
            let text = lowercase_ascii(trimmed_text.as_str());
            if str_eq(text.as_str(), "json") {
                Ok(ReportFormat::Json)
            } else if str_eq(text.as_str(), "csv") {
                Ok(ReportFormat::Csv)
            } else if str_eq(text.as_str(), "pdf") {
                Ok(ReportFormat::Pdf)
            } else {
                Err(ReportRequestError::UnsupportedFormat)
            }
        },
    }
}

/// Reads the requested report type, which must name one of the reports exactly.
pub fn parse_report_kind(report_type: &str) -> (r: Result<ReportKind, ReportRequestError>)
    ensures
        r == (match spec_kind_of(report_type@) {
            Some(k) => Ok::<ReportKind, ReportRequestError>(k),
            None => Err(ReportRequestError::UnsupportedReportType),
        }),
{
    if str_eq(report_type, "payroll_period_summary") {
        Ok(ReportKind::PayrollPeriodSummary)
    } else if str_eq(report_type, "employee_payroll") {
        Ok(ReportKind::EmployeePayroll)
    } else if str_eq(report_type, "employee_listing") {
        Ok(ReportKind::EmployeeListing)
    } else if str_eq(report_type, "employee_profile") {
        Ok(ReportKind::EmployeeProfile)
    } else if str_eq(report_type, "deductions_summary") {
        Ok(ReportKind::DeductionsSummary)
    } else if str_eq(report_type, "tax_register") {
        Ok(ReportKind::TaxRegister)
    } else if str_eq(report_type, "payroll_approval_history") {
        Ok(ReportKind::PayrollApprovalHistory)
    } else {
        Err(ReportRequestError::UnsupportedReportType)
    }
}

/// Checks a report request before any data is read: the format first, then
/// the report type.
pub fn check_report_request(report_type: &str, format: Option<&str>) -> (r: Result<
    (ReportKind, ReportFormat),
    ReportRequestError,
>)
    ensures
        r == (match spec_requested_format(crate::reports::opt_view(format)) {
            None => Err(ReportRequestError::UnsupportedFormat),
            Some(f) => match spec_kind_of(report_type@) {
                None => Err(ReportRequestError::UnsupportedReportType),
                Some(k) => Ok::<(ReportKind, ReportFormat), ReportRequestError>((k, f)),
            },
        }),
{
    let format = match parse_report_format(format) {
        Ok(f) => f,
        Err(e) => return Err(e),
    };
    match parse_report_kind(report_type) {
        Ok(k) => Ok((k, format)),
        Err(e) => Err(e),
    }
}

/// The column names of each report.
pub open spec fn spec_report_headers(kind: ReportKind) -> Seq<Seq<char>> {
    match kind {
        ReportKind::PayrollPeriodSummary => str_views(
            seq![
                "period_id",
                "start_date",
                "end_date",
                "pay_date",
                "status",
                "employee_count",
                "total_gross_pay",
                "total_deductions",
                "total_net_pay",
            ],
        ),
        ReportKind::EmployeePayroll => str_views(
            seq![
                "pay_date",
                "employee_number",
                "employee_name",
                "bank_account_number",
                "employment_type",
                "payment_status",
                "regular_pay",
                "overtime_pay",
                "bonuses",
                "gross_pay",
                "tax_deduction",
                "employee_savings_contribution",
                "company_match_contribution",
                "total_deductions",
                "net_pay",
            ],
        ),
        ReportKind::EmployeeListing => str_views(
            seq![
                "employee_number",
                "employee_name",
                "department",
                "position",
                "employment_type",
                "status",
                "hire_date",
                "base_salary",
                "hourly_rate",
            ],
        ),
        ReportKind::EmployeeProfile => str_views(
            seq![
                "employee_number",
                "employee_name",
                "email",
                "phone",
                "department",
                "position",
                "employment_type",
                "status",
                "hire_date",
                "base_salary",
                "hourly_rate",
            ],
        ),
        ReportKind::DeductionsSummary => str_views(
            seq![
                "period_id",
                "start_date",
                "end_date",
                "tax_deduction_total",
                "employee_savings_total",
                "company_match_total",
                "total_deductions",
            ],
        ),
        ReportKind::TaxRegister => str_views(
            seq!["employee_number", "employee_name", "pay_date", "gross_pay", "tax_deduction"],
        ),
        ReportKind::PayrollApprovalHistory => str_views(
            seq![
                "audit_id",
                "created_at",
                "event",
                "action",
                "user_name",
                "payroll_period_id",
                "start_date",
                "end_date",
                "pay_date",
                "status",
                "employees_impacted",
                "total_net_pay",
            ],
        ),
    }
}

/// Owned copies of string slices, in order.
fn owned_strings(parts: &Vec<&str>) -> (r: Vec<String>)
    ensures
        views(r@) == str_views(parts@),
{
    let mut out: Vec<String> = Vec::new();
    let mut i: usize = 0;
    while i < parts.len()
        invariant
            i <= parts.len(),
            views(out@) == str_views(parts@.take(i as int)),
        decreases parts.len() - i,
    {
        out.push(to_owned_string(parts[i]));
        assert(parts@.take((i + 1) as int) == parts@.take(i as int).push(parts@[i as int]));
        assert(str_views(parts@.take((i + 1) as int)) == str_views(parts@.take(i as int)).push(
            parts@[i as int]@,
        ));
        i = i + 1;
    }
    assert(parts@.take(parts.len() as int) == parts@);
    out
}

/// The column names of a report.
pub fn report_headers(kind: ReportKind) -> (r: Vec<String>)
    ensures
        views(r@) == spec_report_headers(kind),
{
    let parts: Vec<&str> = match kind {
        ReportKind::PayrollPeriodSummary => vec![
            "period_id",
            "start_date",
            "end_date",
            "pay_date",
            "status",
            "employee_count",
            "total_gross_pay",
            "total_deductions",
            "total_net_pay",
        ],
        ReportKind::EmployeePayroll => vec![
            "pay_date",
            "employee_number",
            "employee_name",
            "bank_account_number",
            "employment_type",
            "payment_status",
            "regular_pay",
            "overtime_pay",
            "bonuses",
            "gross_pay",
            "tax_deduction",
            "employee_savings_contribution",
            "company_match_contribution",
            "total_deductions",
            "net_pay",
        ],
        ReportKind::EmployeeListing => vec![
            "employee_number",
            "employee_name",
            "department",
            "position",
            "employment_type",
            "status",
            "hire_date",
            "base_salary",
            "hourly_rate",
        ],
        ReportKind::EmployeeProfile => vec![
            "employee_number",
            "employee_name",
            "email",
            "phone",
            "department",
            "position",
            "employment_type",
            "status",
            "hire_date",
            "base_salary",
            "hourly_rate",
        ],
        ReportKind::DeductionsSummary => vec![
            "period_id",
            "start_date",
            "end_date",
            "tax_deduction_total",
            "employee_savings_total",
            "company_match_total",
            "total_deductions",
        ],
        ReportKind::TaxRegister => vec![
            "employee_number",
            "employee_name",
            "pay_date",
            "gross_pay",
            "tax_deduction",
        ],
        ReportKind::PayrollApprovalHistory => vec![
            "audit_id",
            "created_at",
            "event",
            "action",
            "user_name",
            "payroll_period_id",
            "start_date",
            "end_date",
            "pay_date",
            "status",
            "employees_impacted",
            "total_net_pay",
        ],
    };
    owned_strings(&parts)
}

/// A report laid out as a table, with the stem of its download name.
#[derive(Debug)]
pub struct ReportTable {
    pub file_stem: String,
    pub headers: Vec<String>,
    pub rows: Vec<Vec<String>>,
}

/// The view of an optional string.
pub open spec fn opt_string_view(value: Option<String>) -> Option<Seq<char>> {
    match value {
        Some(v) => Some(v@),
        None => None,
    }
}

/// An optional string, empty when absent.
pub open spec fn text_or_empty(value: Option<String>) -> Seq<char> {
    match value {
        Some(v) => v@,
        None => Seq::empty(),
    }
}

/// An optional string, `default` when absent.
pub open spec fn text_or(value: Option<String>, default: Seq<char>) -> Seq<char> {
    match value {
        Some(v) => v@,
        None => default,
    }
}

/// First and last name joined by a space.
pub open spec fn spec_full_name(first: Seq<char>, last: Seq<char>) -> Seq<char> {
    first + seq![' '] + last
}

/// `format!("{} {}", first, last)`.
pub fn full_name(first: &str, last: &str) -> (r: String)
    ensures
        r@ == spec_full_name(first@, last@),
{
    let mut out = to_owned_string(first);
    push_str(&mut out, " ");
    push_str(&mut out, last);
    proof {
        reveal_strlit(" ");
    }
    out
}

fn text_or_empty_of(value: &Option<String>) -> (r: String)
    ensures
        r@ == text_or_empty(*value),
{
    match value {
        Some(v) => to_owned_string(v.as_str()),
        None => String::new(),
    }
}

fn copy_text(value: &String) -> (r: String)
    ensures
        r@ == value@,
{
    to_owned_string(value.as_str())
}

fn int_cell(v: i64) -> (r: String)
    ensures
        r@ == int_text(v as int),
{
    i64_to_string(v)
}

/// A row of the payroll period summary.
#[derive(Debug)]
pub struct PayrollSummaryRecord {
    pub period_id: i32,
    pub start_date: CalendarDay,
    pub end_date: CalendarDay,
    pub pay_date: CalendarDay,
    pub status: String,
    pub employee_count: Option<i64>,
    pub total_gross_pay: Option<Amount>,
    pub total_deductions: Option<Amount>,
    pub total_net_pay: Option<Amount>,
}

impl PayrollSummaryRecord {
    /// The dates exist and the amounts are valid decimals.
    pub open spec fn wf(&self) -> bool {
        &&& self.start_date.wf()
        &&& self.end_date.wf()
        &&& self.pay_date.wf()
        &&& self.total_gross_pay matches Some(v) ==> v.wf()
        &&& self.total_deductions matches Some(v) ==> v.wf()
        &&& self.total_net_pay matches Some(v) ==> v.wf()
    }
}

/// The cells of a payroll period summary row.
pub open spec fn spec_payroll_summary_row(r: PayrollSummaryRecord) -> Seq<Seq<char>> {
    seq![
        int_text(r.period_id as int),
        spec_date_text(r.start_date.days as int),
        spec_date_text(r.end_date.days as int),
        spec_date_text(r.pay_date.days as int),
        r.status@,
        int_text(
            match r.employee_count {
                Some(c) => c as int,
                None => 0,
            },
        ),
        spec_money_opt_text(r.total_gross_pay),
        spec_money_opt_text(r.total_deductions),
        spec_money_opt_text(r.total_net_pay),
    ]
}

fn payroll_summary_row(r: &PayrollSummaryRecord) -> (row: Vec<String>)
    requires
        r.wf(),
    ensures
        views(row@) == spec_payroll_summary_row(*r),
{
    let mut row: Vec<String> = Vec::new();
    row.push(int_cell(r.period_id as i64));
    row.push(date_text(r.start_date));
    row.push(date_text(r.end_date));
    row.push(date_text(r.pay_date));
    row.push(copy_text(&r.status));
    row.push(
        int_cell(
            match r.employee_count {
                Some(c) => c,
                None => 0,
            },
        ),
    );
    row.push(money_opt_text(r.total_gross_pay));
    row.push(money_opt_text(r.total_deductions));
    row.push(money_opt_text(r.total_net_pay));
    assert(views(row@) =~= spec_payroll_summary_row(*r));
    row
}

/// The payroll period summary: one row per period.
pub fn payroll_period_summary_report(records: &Vec<PayrollSummaryRecord>) -> (r: ReportTable)
    requires
        forall|j: int| 0 <= j < records@.len() ==> (#[trigger] records@[j]).wf(),
    ensures
        r.file_stem@ == "payroll_period_summary"@,
        views(r.headers@) == spec_report_headers(ReportKind::PayrollPeriodSummary),
        r.rows@.len() == records@.len(),
        forall|j: int|
            0 <= j < records@.len() ==> views((#[trigger] r.rows@[j])@)
                == spec_payroll_summary_row(records@[j]),
{
    let mut rows: Vec<Vec<String>> = Vec::new();
    let mut i: usize = 0;
    while i < records.len()
        invariant
            i <= records.len(),
            forall|j: int| 0 <= j < records@.len() ==> (#[trigger] records@[j]).wf(),
            rows@.len() == i,
            forall|j: int|
                0 <= j < i ==> views((#[trigger] rows@[j])@) == spec_payroll_summary_row(records@[j]),
        decreases records.len() - i,
    {
        rows.push(payroll_summary_row(&records[i]));
        i = i + 1;
    }
    ReportTable {
        file_stem: to_owned_string("payroll_period_summary"),
        headers: report_headers(ReportKind::PayrollPeriodSummary),
        rows,
    }
}

/// A payroll run of one employee in the employee payroll report.
#[derive(Debug)]
pub struct EmployeePayrollRecord {
    pub employee_number: String,
    pub first_name: String,
    pub last_name: String,
    pub bank_account_number: Option<String>,
    pub employment_type: String,
    pub pay_date: CalendarDay,
    pub payment_status: String,
    pub regular_pay: Amount,
    pub overtime_pay: Amount,
    pub bonuses: Amount,
    pub gross_pay: Amount,
    pub tax_deduction: Amount,
    pub employee_savings: Amount,
    pub company_match: Amount,
    pub total_deductions: Amount,
    pub net_pay: Amount,
}

impl EmployeePayrollRecord {
    /// The pay date exists and the amounts are valid decimals.
    pub open spec fn wf(&self) -> bool {
        &&& self.pay_date.wf()
        &&& self.regular_pay.wf()
        &&& self.overtime_pay.wf()
        &&& self.bonuses.wf()
        &&& self.gross_pay.wf()
        &&& self.tax_deduction.wf()
        &&& self.employee_savings.wf()
        &&& self.company_match.wf()
        &&& self.total_deductions.wf()
        &&& self.net_pay.wf()
    }
}

/// The cells of an employee payroll row.
pub open spec fn spec_employee_payroll_row(r: EmployeePayrollRecord) -> Seq<Seq<char>> {
    seq![
        spec_date_text(r.pay_date.days as int),
        r.employee_number@,
        spec_full_name(r.first_name@, r.last_name@),
        text_or_empty(r.bank_account_number),
        r.employment_type@,
        r.payment_status@,
        spec_money_text(r.regular_pay),
        spec_money_text(r.overtime_pay),
        spec_money_text(r.bonuses),
        spec_money_text(r.gross_pay),
        spec_money_text(r.tax_deduction),
        spec_money_text(r.employee_savings),
        spec_money_text(r.company_match),
        spec_money_text(r.total_deductions),
        spec_money_text(r.net_pay),
    ]
}

fn employee_payroll_row(r: &EmployeePayrollRecord) -> (row: Vec<String>)
    requires
        r.wf(),
    ensures
        views(row@) == spec_employee_payroll_row(*r),
{
    let mut row: Vec<String> = Vec::new();
    row.push(date_text(r.pay_date));
    row.push(copy_text(&r.employee_number));
    row.push(full_name(r.first_name.as_str(), r.last_name.as_str()));
    row.push(text_or_empty_of(&r.bank_account_number));
    row.push(copy_text(&r.employment_type));
    row.push(copy_text(&r.payment_status));
    row.push(money_text(r.regular_pay));
    row.push(money_text(r.overtime_pay));
    row.push(money_text(r.bonuses));
    row.push(money_text(r.gross_pay));
    row.push(money_text(r.tax_deduction));
    row.push(money_text(r.employee_savings));
    row.push(money_text(r.company_match));
    row.push(money_text(r.total_deductions));
    row.push(money_text(r.net_pay));
    assert(views(row@) =~= spec_employee_payroll_row(*r));
    row
}

/// The stem of the employee payroll report of a period.
pub open spec fn employee_payroll_stem(period_id: i32) -> Seq<char> {
    "employee_payroll_period_"@ + int_text(period_id as int)
}

/// The employee payroll report of a period: one row per paid or pending run.
pub fn employee_payroll_report(period_id: i32, records: &Vec<EmployeePayrollRecord>) -> (r:
    ReportTable)
    requires
        forall|j: int| 0 <= j < records@.len() ==> (#[trigger] records@[j]).wf(),
    ensures
        r.file_stem@ == employee_payroll_stem(period_id),
        views(r.headers@) == spec_report_headers(ReportKind::EmployeePayroll),
        r.rows@.len() == records@.len(),
        forall|j: int|
            0 <= j < records@.len() ==> views((#[trigger] r.rows@[j])@)
                == spec_employee_payroll_row(records@[j]),
{
    let mut rows: Vec<Vec<String>> = Vec::new();
    let mut i: usize = 0;
    while i < records.len()
        invariant
            i <= records.len(),
            forall|j: int| 0 <= j < records@.len() ==> (#[trigger] records@[j]).wf(),
            rows@.len() == i,
            forall|j: int|
                0 <= j < i ==> views((#[trigger] rows@[j])@) == spec_employee_payroll_row(
                    records@[j],
                ),
        decreases records.len() - i,
    {
        rows.push(employee_payroll_row(&records[i]));
        i = i + 1;
    }
    let mut stem = to_owned_string("employee_payroll_period_");
    let id = int_cell(period_id as i64);
    push_str(&mut stem, id.as_str());
    ReportTable { file_stem: stem, headers: report_headers(ReportKind::EmployeePayroll), rows }
}

/// Deduction totals of one period.
#[derive(Debug)]
pub struct DeductionSummaryRecord {
    pub period_id: i32,
    pub start_date: CalendarDay,
    pub end_date: CalendarDay,
    pub tax_deduction_total: Amount,
    pub employee_savings_total: Amount,
    pub company_match_total: Amount,
    pub total_deductions: Amount,
}

impl DeductionSummaryRecord {
    /// The dates exist and the amounts are valid decimals.
    pub open spec fn wf(&self) -> bool {
        &&& self.start_date.wf()
        &&& self.end_date.wf()
        &&& self.tax_deduction_total.wf()
        &&& self.employee_savings_total.wf()
        &&& self.company_match_total.wf()
        &&& self.total_deductions.wf()
    }
}

/// The cells of a deductions summary row.
pub open spec fn spec_deduction_summary_row(r: DeductionSummaryRecord) -> Seq<Seq<char>> {
    seq![
        int_text(r.period_id as int),
        spec_date_text(r.start_date.days as int),
        spec_date_text(r.end_date.days as int),
        spec_money_text(r.tax_deduction_total),
        spec_money_text(r.employee_savings_total),
        spec_money_text(r.company_match_total),
        spec_money_text(r.total_deductions),
    ]
}

fn deduction_summary_row(r: &DeductionSummaryRecord) -> (row: Vec<String>)
    requires
        r.wf(),
    ensures
        views(row@) == spec_deduction_summary_row(*r),
{
    let mut row: Vec<String> = Vec::new();
    row.push(int_cell(r.period_id as i64));
    row.push(date_text(r.start_date));
    row.push(date_text(r.end_date));
    row.push(money_text(r.tax_deduction_total));
    row.push(money_text(r.employee_savings_total));
    row.push(money_text(r.company_match_total));
    row.push(money_text(r.total_deductions));
    assert(views(row@) =~= spec_deduction_summary_row(*r));
    row
}

/// The deductions summary: one row per period.
pub fn deductions_summary_report(records: &Vec<DeductionSummaryRecord>) -> (r: ReportTable)
    requires
        forall|j: int| 0 <= j < records@.len() ==> (#[trigger] records@[j]).wf(),
    ensures
        r.file_stem@ == "deductions_summary"@,
        views(r.headers@) == spec_report_headers(ReportKind::DeductionsSummary),
        r.rows@.len() == records@.len(),
        forall|j: int|
            0 <= j < records@.len() ==> views((#[trigger] r.rows@[j])@)
                == spec_deduction_summary_row(records@[j]),
{
    let mut rows: Vec<Vec<String>> = Vec::new();
    let mut i: usize = 0;
    while i < records.len()
        invariant
            i <= records.len(),
            forall|j: int| 0 <= j < records@.len() ==> (#[trigger] records@[j]).wf(),
            rows@.len() == i,
            forall|j: int|
                0 <= j < i ==> views((#[trigger] rows@[j])@) == spec_deduction_summary_row(
                    records@[j],
                ),
        decreases records.len() - i,
    {
        rows.push(deduction_summary_row(&records[i]));
        i = i + 1;
    }
    ReportTable {
        file_stem: to_owned_string("deductions_summary"),
        headers: report_headers(ReportKind::DeductionsSummary),
        rows,
    }
}

/// An employee in the employee listing.
#[derive(Debug)]
pub struct EmployeeListingRecord {
    pub employee_number: String,
    pub first_name: String,
    pub last_name: String,
    pub department: String,
    pub position: String,
    pub employment_type: String,
    pub status: String,
    pub hire_date: CalendarDay,
    pub base_salary: Option<Amount>,
    pub hourly_rate: Option<Amount>,
}

impl EmployeeListingRecord {
    /// The hire date exists and the amounts are valid decimals.
    pub open spec fn wf(&self) -> bool {
        &&& self.hire_date.wf()
        &&& self.base_salary matches Some(v) ==> v.wf()
        &&& self.hourly_rate matches Some(v) ==> v.wf()
    }
}

/// The cells of an employee listing row.
pub open spec fn spec_employee_listing_row(r: EmployeeListingRecord) -> Seq<Seq<char>> {
    seq![
        r.employee_number@,
        spec_full_name(r.first_name@, r.last_name@),
        r.department@,
        r.position@,
        r.employment_type@,
        r.status@,
        spec_date_text(r.hire_date.days as int),
        spec_money_opt_text(r.base_salary),
        spec_money_opt_text(r.hourly_rate),
    ]
}

fn employee_listing_row(r: &EmployeeListingRecord) -> (row: Vec<String>)
    requires
        r.wf(),
    ensures
        views(row@) == spec_employee_listing_row(*r),
{
    let mut row: Vec<String> = Vec::new();
    row.push(copy_text(&r.employee_number));
    row.push(full_name(r.first_name.as_str(), r.last_name.as_str()));
    row.push(copy_text(&r.department));
    row.push(copy_text(&r.position));
    row.push(copy_text(&r.employment_type));
    row.push(copy_text(&r.status));
    row.push(date_text(r.hire_date));
    row.push(money_opt_text(r.base_salary));
    row.push(money_opt_text(r.hourly_rate));
    assert(views(row@) =~= spec_employee_listing_row(*r));
    row
}

/// The employee listing: one row per employee.
pub fn employee_listing_report(records: &Vec<EmployeeListingRecord>) -> (r: ReportTable)
    requires
        forall|j: int| 0 <= j < records@.len() ==> (#[trigger] records@[j]).wf(),
    ensures
        r.file_stem@ == "employee_listing"@,
        views(r.headers@) == spec_report_headers(ReportKind::EmployeeListing),
        r.rows@.len() == records@.len(),
        forall|j: int|
            0 <= j < records@.len() ==> views((#[trigger] r.rows@[j])@)
                == spec_employee_listing_row(records@[j]),
{
    let mut rows: Vec<Vec<String>> = Vec::new();
    let mut i: usize = 0;
    while i < records.len()
        invariant
            i <= records.len(),
            forall|j: int| 0 <= j < records@.len() ==> (#[trigger] records@[j]).wf(),
            rows@.len() == i,
            forall|j: int|
                0 <= j < i ==> views((#[trigger] rows@[j])@) == spec_employee_listing_row(
                    records@[j],
                ),
        decreases records.len() - i,
    {
        rows.push(employee_listing_row(&records[i]));
        i = i + 1;
    }
    ReportTable {
        file_stem: to_owned_string("employee_listing"),
        headers: report_headers(ReportKind::EmployeeListing),
        rows,
    }
}

/// The profile of one employee.
#[derive(Debug)]
pub struct EmployeeProfileRecord {
    pub employee_number: String,
    pub first_name: String,
    pub last_name: String,
    pub email: String,
    pub phone: Option<String>,
    pub department: String,
    pub position: String,
    pub employment_type: String,
    pub status: String,
    pub hire_date: CalendarDay,
    pub base_salary: Option<Amount>,
    pub hourly_rate: Option<Amount>,
}

impl EmployeeProfileRecord {
    /// The hire date exists and the amounts are valid decimals.
    pub open spec fn wf(&self) -> bool {
        &&& self.hire_date.wf()
        &&& self.base_salary matches Some(v) ==> v.wf()
        &&& self.hourly_rate matches Some(v) ==> v.wf()
    }
}

/// The cells of an employee profile row.
pub open spec fn spec_employee_profile_row(r: EmployeeProfileRecord) -> Seq<Seq<char>> {
    seq![
        r.employee_number@,
        spec_full_name(r.first_name@, r.last_name@),
        r.email@,
        text_or_empty(r.phone),
        r.department@,
        r.position@,
        r.employment_type@,
        r.status@,
        spec_date_text(r.hire_date.days as int),
        spec_money_opt_text(r.base_salary),
        spec_money_opt_text(r.hourly_rate),
    ]
}

fn employee_profile_row(r: &EmployeeProfileRecord) -> (row: Vec<String>)
    requires
        r.wf(),
    ensures
        views(row@) == spec_employee_profile_row(*r),
{
    let mut row: Vec<String> = Vec::new();
    row.push(copy_text(&r.employee_number));
    row.push(full_name(r.first_name.as_str(), r.last_name.as_str()));
    row.push(copy_text(&r.email));
    row.push(text_or_empty_of(&r.phone));
    row.push(copy_text(&r.department));
    row.push(copy_text(&r.position));
    row.push(copy_text(&r.employment_type));
    row.push(copy_text(&r.status));
    row.push(date_text(r.hire_date));
    row.push(money_opt_text(r.base_salary));
    row.push(money_opt_text(r.hourly_rate));
    assert(views(row@) =~= spec_employee_profile_row(*r));
    row
}

/// The stem of the profile report of an employee.
pub open spec fn employee_profile_stem(employee_id: i32) -> Seq<char> {
    "employee_profile_"@ + int_text(employee_id as int)
}

/// The profile report of an employee: a single row, or `EmployeeNotFound`
/// when there is no such employee.
pub fn employee_profile_report(employee_id: i32, record: &Option<EmployeeProfileRecord>) -> (r:
    Result<ReportTable, ReportRequestError>)
    requires
        record matches Some(p) ==> p.wf(),
    ensures
        record is None <==> r == Err::<ReportTable, ReportRequestError>(
            ReportRequestError::EmployeeNotFound,
        ),
        r matches Ok(t) ==> {
            &&& record matches Some(p) && t.rows@.len() == 1 && views(t.rows@[0]@)
                == spec_employee_profile_row(*p)
            &&& t.file_stem@ == employee_profile_stem(employee_id)
            &&& views(t.headers@) == spec_report_headers(ReportKind::EmployeeProfile)
        },
{
    match record {
        None => Err(ReportRequestError::EmployeeNotFound),
        Some(p) => {
            let mut rows: Vec<Vec<String>> = Vec::new();
            rows.push(employee_profile_row(p));
            let mut stem = to_owned_string("employee_profile_");
            let id = int_cell(employee_id as i64);
            push_str(&mut stem, id.as_str());
            Ok(
                ReportTable {
                    file_stem: stem,
                    headers: report_headers(ReportKind::EmployeeProfile),
                    rows,
                },
            )
        },
    }
}

/// Gross pay and tax of one payroll run in the tax register.
#[derive(Debug)]
pub struct TaxRegisterRecord {
    pub employee_number: String,
    pub first_name: String,
    pub last_name: String,
    pub pay_date: CalendarDay,
    pub gross_pay: Amount,
    pub tax_deduction: Amount,
}

impl TaxRegisterRecord {
    /// The pay date exists and the amounts are valid decimals.
    pub open spec fn wf(&self) -> bool {
        &&& self.pay_date.wf()
        &&& self.gross_pay.wf()
        &&& self.tax_deduction.wf()
    }
}

/// The cells of a tax register row.
pub open spec fn spec_tax_register_row(r: TaxRegisterRecord) -> Seq<Seq<char>> {
    seq![
        r.employee_number@,
        spec_full_name(r.first_name@, r.last_name@),
        spec_date_text(r.pay_date.days as int),
        spec_money_text(r.gross_pay),
        spec_money_text(r.tax_deduction),
    ]
}

fn tax_register_row(r: &TaxRegisterRecord) -> (row: Vec<String>)
    requires
        r.wf(),
    ensures
        views(row@) == spec_tax_register_row(*r),
{
    let mut row: Vec<String> = Vec::new();
    row.push(copy_text(&r.employee_number));
    row.push(full_name(r.first_name.as_str(), r.last_name.as_str()));
    row.push(date_text(r.pay_date));
    row.push(money_text(r.gross_pay));
    row.push(money_text(r.tax_deduction));
    assert(views(row@) =~= spec_tax_register_row(*r));
    row
}

/// The tax register: one row per payroll run.
pub fn tax_register_report(records: &Vec<TaxRegisterRecord>) -> (r: ReportTable)
    requires
        forall|j: int| 0 <= j < records@.len() ==> (#[trigger] records@[j]).wf(),
    ensures
        r.file_stem@ == "tax_register"@,
        views(r.headers@) == spec_report_headers(ReportKind::TaxRegister),
        r.rows@.len() == records@.len(),
        forall|j: int|
            0 <= j < records@.len() ==> views((#[trigger] r.rows@[j])@) == spec_tax_register_row(
                records@[j],
            ),
{
    let mut rows: Vec<Vec<String>> = Vec::new();
    let mut i: usize = 0;
    while i < records.len()
        invariant
            i <= records.len(),
            forall|j: int| 0 <= j < records@.len() ==> (#[trigger] records@[j]).wf(),
            rows@.len() == i,
            forall|j: int|
                0 <= j < i ==> views((#[trigger] rows@[j])@) == spec_tax_register_row(records@[j]),
        decreases records.len() - i,
    {
        rows.push(tax_register_row(&records[i]));
        i = i + 1;
    }
    ReportTable {
        file_stem: to_owned_string("tax_register"),
        headers: report_headers(ReportKind::TaxRegister),
        rows,
    }
}

/// An audit entry of a payroll workflow step, with its period.
#[derive(Debug)]
pub struct ApprovalHistoryRecord {
    pub audit_id: i32,
    pub created_at: CalendarTime,
    pub payroll_period_id: Option<i32>,
    pub start_date: Option<CalendarDay>,
    pub end_date: Option<CalendarDay>,
    pub pay_date: Option<CalendarDay>,
    pub event_name: Option<String>,
    pub period_status: Option<String>,
    pub user_name: Option<String>,
    pub action: String,
    pub employees_impacted: Option<String>,
    pub total_net_pay: Option<String>,
}

impl ApprovalHistoryRecord {
    /// The moment and the dates exist.
    pub open spec fn wf(&self) -> bool {
        &&& self.created_at.wf()
        &&& self.start_date matches Some(d) ==> d.wf()
        &&& self.end_date matches Some(d) ==> d.wf()
        &&& self.pay_date matches Some(d) ==> d.wf()
    }
}

/// An optional day as text, empty when absent.
pub open spec fn opt_date_text(day: Option<CalendarDay>) -> Seq<char> {
    match day {
        Some(d) => spec_date_text(d.days as int),
        None => Seq::empty(),
    }
}

/// The cells of an approval history row.
pub open spec fn spec_approval_history_row(r: ApprovalHistoryRecord) -> Seq<Seq<char>> {
    seq![
        int_text(r.audit_id as int),
        time_text(r.created_at.day.days as int, r.created_at.seconds as int, "%Y-%m-%d %H:%M:%S"@),
        spec_humanize_event_name(opt_string_view(r.event_name)),
        r.action@,
        text_or(r.user_name, "system"@),
        match r.payroll_period_id {
            Some(v) => int_text(v as int),
            None => Seq::empty(),
        },
        opt_date_text(r.start_date),
        opt_date_text(r.end_date),
        opt_date_text(r.pay_date),
        text_or_empty(r.period_status),
        text_or_empty(r.employees_impacted),
        text_or_empty(r.total_net_pay),
    ]
}

/// The user cell (the fifth) of an approval history row is the recorded user
/// name, and `system` exactly when no user is recorded; the audit id leads the
/// row and the action is the fourth cell.
pub proof fn lemma_approval_history_cells(r: ApprovalHistoryRecord)
    ensures
        spec_approval_history_row(r).len() == 12,
        spec_approval_history_row(r)[0] == int_text(r.audit_id as int),
        spec_approval_history_row(r)[3] == r.action@,
        r.user_name matches Some(u) ==> spec_approval_history_row(r)[4] == u@,
        r.user_name is None ==> spec_approval_history_row(r)[4] == "system"@,
{
}

fn opt_date_cell(day: Option<CalendarDay>) -> (r: String)
    requires
        day matches Some(d) ==> d.wf(),
    ensures
        r@ == opt_date_text(day),
{
    match day {
        Some(d) => date_text(d),
        None => String::new(),
    }
}

fn approval_history_row(r: &ApprovalHistoryRecord) -> (row: Vec<String>)
    requires
        r.wf(),
    ensures
        views(row@) == spec_approval_history_row(*r),
{
    let mut row: Vec<String> = Vec::new();
    row.push(int_cell(r.audit_id as i64));
    row.push(format_time(r.created_at, "%Y-%m-%d %H:%M:%S"));
    let event = match &r.event_name {
        Some(e) => humanize_event_name(Some(e.as_str())),
        None => humanize_event_name(None),
    };
    row.push(event);
    row.push(copy_text(&r.action));
    row.push(
        match &r.user_name {
            Some(u) => to_owned_string(u.as_str()),
            None => to_owned_string("system"),
        },
    );
    row.push(
        match r.payroll_period_id {
            Some(v) => int_cell(v as i64),
            None => String::new(),
        },
    );
    row.push(opt_date_cell(r.start_date));
    row.push(opt_date_cell(r.end_date));
    row.push(opt_date_cell(r.pay_date));
    row.push(text_or_empty_of(&r.period_status));
    row.push(text_or_empty_of(&r.employees_impacted));
    row.push(text_or_empty_of(&r.total_net_pay));
    assert(views(row@) =~= spec_approval_history_row(*r));
    row
}

/// The payroll approval history: one row per audit entry.
pub fn payroll_approval_history_report(records: &Vec<ApprovalHistoryRecord>) -> (r: ReportTable)
    requires
        forall|j: int| 0 <= j < records@.len() ==> (#[trigger] records@[j]).wf(),
    ensures
        r.file_stem@ == "payroll_approval_history"@,
        views(r.headers@) == spec_report_headers(ReportKind::PayrollApprovalHistory),
        r.rows@.len() == records@.len(),
        forall|j: int|
            0 <= j < records@.len() ==> views((#[trigger] r.rows@[j])@)
                == spec_approval_history_row(records@[j]),
{
    let mut rows: Vec<Vec<String>> = Vec::new();
    let mut i: usize = 0;
    while i < records.len()
        invariant
            i <= records.len(),
            forall|j: int| 0 <= j < records@.len() ==> (#[trigger] records@[j]).wf(),
            rows@.len() == i,
            forall|j: int|
                0 <= j < i ==> views((#[trigger] rows@[j])@) == spec_approval_history_row(
                    records@[j],
                ),
        decreases records.len() - i,
    {
        rows.push(approval_history_row(&records[i]));
        i = i + 1;
    }
    ReportTable {
        file_stem: to_owned_string("payroll_approval_history"),
        headers: report_headers(ReportKind::PayrollApprovalHistory),
        rows,
    }
}

/// The period or employee a report is about: the one the request names, else
/// the one found by default, else `missing`.
pub fn report_subject(requested: Option<i32>, found: Option<i32>, missing: ReportRequestError) -> (r:
    Result<i32, ReportRequestError>)
    ensures
        r == (match requested {
            Some(id) => Ok::<i32, ReportRequestError>(id),
            None => match found {
                Some(id) => Ok::<i32, ReportRequestError>(id),
                None => Err(missing),
            },
        }),
{
    match requested {
        Some(id) => Ok(id),
        None => match found {
            Some(id) => Ok(id),
            None => Err(missing),
        },
    }
}

/// The name a CSV or PDF report is downloaded as: its stem, the moment it was
/// generated as `%Y%m%d_%H%M%S`, and the extension of the format. A JSON
/// report is not downloaded as a file.
pub fn download_file_name(stem: &str, generated: CalendarTime, format: ReportFormat) -> (r: Option<
    String,
>)
    requires
        generated.wf(),
    ensures
        format == ReportFormat::Json <==> r is None,
        r matches Some(name) ==> name@ == stem@ + seq!['_'] + time_text(
            generated.day.days as int,
            generated.seconds as int,
            "%Y%m%d_%H%M%S"@,
        ) + seq!['.'] + format_name(format),
{
    if format == ReportFormat::Json {
        return None;
    }
    let mut name = to_owned_string(stem);
    push_str(&mut name, "_");
    let stamp = format_time(generated, "%Y%m%d_%H%M%S");
    push_str(&mut name, stamp.as_str());
    push_str(&mut name, ".");
    let ext = format.name();
    push_str(&mut name, ext.as_str());
    proof {
        reveal_strlit("_");
        reveal_strlit(".");
    }
    Some(name)
}

/// The `Content-Disposition` value that offers a report as a download.
pub fn content_disposition(file_name: &str) -> (r: String)
    ensures
        r@ == "attachment; filename="@ + seq!['"'] + file_name@ + seq!['"'],
{
    let mut out = to_owned_string("attachment; filename=\"");
    push_str(&mut out, file_name);
    push_str(&mut out, "\"");
    proof {
        reveal_strlit("attachment; filename=\"");
        reveal_strlit("attachment; filename=");
        reveal_strlit("\"");
    }
    out
}

/// The JSON answer to a report request: the report type as requested, the
/// format's name, when it was generated, and the table with its row count.
pub fn report_response(report_type: &str, format: ReportFormat, generated_at: String, table:
    ReportTable) -> (r: GenerateReportResponse)
    ensures
        r.report_type@ == report_type@,
        r.format@ == format_name(format),
        r.generated_at@ == generated_at@,
        r.row_count == table.rows@.len(),
        r.headers@ == table.headers@,
        r.rows@ == table.rows@,
{
    let row_count = table.rows.len();
    GenerateReportResponse {
        report_type: to_owned_string(report_type),
        format: format.name(),
        generated_at,
        row_count,
        headers: table.headers,
        rows: table.rows,
    }
}

/// An employee as the report filters list it.
#[derive(Debug)]
pub struct ReportOptionEmployee {
    pub id: i32,
    pub first_name: String,
    pub last_name: String,
    pub status: String,
}

/// The choices of the report filters: each employee with full name and
/// status, and the departments and statuses as given.
pub fn report_filter_options(
    employees: &Vec<ReportOptionEmployee>,
    departments: Vec<String>,
    statuses: Vec<String>,
) -> (r: ReportFilterOptionsResponse)
    ensures
        r.employees@.len() == employees@.len(),
        forall|j: int|
            0 <= j < employees@.len() ==> {
                &&& (#[trigger] r.employees@[j]).id == employees@[j].id
                &&& r.employees@[j].name@ == spec_full_name(
                    employees@[j].first_name@,
                    employees@[j].last_name@,
                )
                &&& r.employees@[j].status@ == employees@[j].status@
            },
        r.departments@ == departments@,
        r.statuses@ == statuses@,
{
    let mut options: Vec<ReportEmployeeOption> = Vec::new();
    let mut i: usize = 0;
    while i < employees.len()
        invariant
            i <= employees.len(),
            options@.len() == i,
            forall|j: int|
                0 <= j < i ==> {
                    &&& (#[trigger] options@[j]).id == employees@[j].id
                    &&& options@[j].name@ == spec_full_name(
                        employees@[j].first_name@,
                        employees@[j].last_name@,
                    )
                    &&& options@[j].status@ == employees@[j].status@
                },
        decreases employees.len() - i,
    {
        let e = &employees[i];
        options.push(
            ReportEmployeeOption {
                id: e.id,
                name: full_name(e.first_name.as_str(), e.last_name.as_str()),
                status: copy_text(&e.status),
            },
        );
        i = i + 1;
    }
    ReportFilterOptionsResponse { employees: options, departments, statuses }
}

/// Every row of every report has exactly one cell per column of the report.
pub proof fn lemma_rows_fit_headers(
    summary: PayrollSummaryRecord,
    payroll: EmployeePayrollRecord,
    deductions: DeductionSummaryRecord,
    listing: EmployeeListingRecord,
    profile: EmployeeProfileRecord,
    tax: TaxRegisterRecord,
    history: ApprovalHistoryRecord,
)
    ensures
        spec_payroll_summary_row(summary).len() == spec_report_headers(
            ReportKind::PayrollPeriodSummary,
        ).len(),
        spec_employee_payroll_row(payroll).len() == spec_report_headers(
            ReportKind::EmployeePayroll,
        ).len(),
        spec_deduction_summary_row(deductions).len() == spec_report_headers(
            ReportKind::DeductionsSummary,
        ).len(),
        spec_employee_listing_row(listing).len() == spec_report_headers(
            ReportKind::EmployeeListing,
        ).len(),
        spec_employee_profile_row(profile).len() == spec_report_headers(
            ReportKind::EmployeeProfile,
        ).len(),
        spec_tax_register_row(tax).len() == spec_report_headers(ReportKind::TaxRegister).len(),
        spec_approval_history_row(history).len() == spec_report_headers(
            ReportKind::PayrollApprovalHistory,
        ).len(),
{
}

} // verus!
