use chrono::Datelike;
use payroll_core::dates::{CalendarDay, CalendarTime};
use payroll_core::decimal::Amount;
use payroll_core::report_tables::{
    check_report_request, content_disposition, deductions_summary_report, download_file_name,
    employee_listing_report, employee_payroll_report, employee_profile_report, full_name,
    parse_report_format, parse_report_kind, payroll_approval_history_report,
    payroll_period_summary_report, report_filter_options, report_headers, report_response,
    report_subject, tax_register_report, ApprovalHistoryRecord, DeductionSummaryRecord,
    EmployeeListingRecord, EmployeePayrollRecord, EmployeeProfileRecord, PayrollSummaryRecord,
    ReportFormat, ReportKind, ReportOptionEmployee, ReportRequestError, TaxRegisterRecord,
};
use payroll_core::reports::{
    csv_escape, escape_pdf_text, humanize_event_name, money_opt_text, money_text,
    normalized_filter, to_csv, wrap_line,
};

fn day(y: i32, m: u32, d: u32) -> CalendarDay {
    CalendarDay { days: chrono::NaiveDate::from_ymd_opt(y, m, d).unwrap().num_days_from_ce() }
}

fn s(v: &[&str]) -> Vec<String> {
    v.iter().map(|x| x.to_string()).collect()
}

#[test]
fn csv_cells_are_quoted_when_needed() {
    assert_eq!(csv_escape("plain"), "plain");
    assert_eq!(csv_escape("a,b"), "\"a,b\"");
    assert_eq!(csv_escape("say \"hi\""), "\"say \"\"hi\"\"\"");
    assert_eq!(csv_escape("two\nlines"), "\"two\nlines\"");
    assert_eq!(csv_escape(""), "");
}

#[test]
fn csv_document() {
    let csv = to_csv(&s(&["name", "pay"]), &vec![s(&["Ann, B", "10.00"]), s(&["Cy", "5"])]);
    assert_eq!(csv, "name,pay\n\"Ann, B\",10.00\nCy,5\n");
    assert_eq!(to_csv(&s(&["only"]), &Vec::new()), "only\n");
}

#[test]
fn money_is_rounded_to_cents_half_even() {
    assert_eq!(money_text(Amount::new(12345, 3)), "12.34");
    assert_eq!(money_text(Amount::new(12355, 3)), "12.36");
    assert_eq!(money_text(Amount::new(1000, 2)), "10.00");
    assert_eq!(money_text(Amount::new(5, 0)), "5");
    assert_eq!(money_text(Amount::new(-2505, 3)), "-2.50");
    assert_eq!(money_opt_text(None), "0.00");
    assert_eq!(money_opt_text(Some(Amount::new(7, 1))), "0.7");
}

#[test]
fn filters_ignore_blank_and_all() {
    assert_eq!(normalized_filter(Some("  active ")), Some("active".to_string()));
    assert_eq!(normalized_filter(Some("all")), None);
    assert_eq!(normalized_filter(Some(" all ")), None);
    assert_eq!(normalized_filter(Some("   ")), None);
    assert_eq!(normalized_filter(None), None);
    assert_eq!(normalized_filter(Some("All")), Some("All".to_string()));
}

#[test]
fn event_names_in_words() {
    assert_eq!(humanize_event_name(Some("payroll_generated")), "Payroll Generated");
    assert_eq!(humanize_event_name(Some("payroll_paid")), "Payroll Paid");
    assert_eq!(humanize_event_name(Some("a__b")), "A  B");
    assert_eq!(humanize_event_name(Some("  ")), "Payroll Event");
    assert_eq!(humanize_event_name(None), "Payroll Event");
}

#[test]
fn pdf_text_escapes() {
    assert_eq!(escape_pdf_text("a(b)c\\d"), "a\\(b\\)c\\\\d");
    assert_eq!(escape_pdf_text("plain"), "plain");
}

#[test]
fn lines_wrap_at_word_boundaries() {
    assert_eq!(wrap_line("short line", 20), s(&["short line"]));
    assert_eq!(wrap_line("aaa bbb ccc", 7), s(&["aaa bbb", "ccc"]));
    assert_eq!(wrap_line("abcdefghij xy", 4), s(&["abcd", "xy"]));
    assert_eq!(wrap_line("", 5), s(&[""]));
    for line in wrap_line("the quick brown fox jumps over the lazy dog", 9) {
        assert!(line.chars().count() <= 9);
    }
}

#[test]
fn formats_are_read_loosely() {
    assert_eq!(parse_report_format(None), Ok(ReportFormat::Json));
    assert_eq!(parse_report_format(Some(" CSV ")), Ok(ReportFormat::Csv));
    assert_eq!(parse_report_format(Some("Pdf")), Ok(ReportFormat::Pdf));
    assert_eq!(parse_report_format(Some("xml")), Err(ReportRequestError::UnsupportedFormat));
    assert_eq!(parse_report_format(Some("")), Err(ReportRequestError::UnsupportedFormat));
}

#[test]
fn report_types_are_read_exactly() {
    assert_eq!(parse_report_kind("tax_register"), Ok(ReportKind::TaxRegister));
    assert_eq!(parse_report_kind("payroll_approval_history"), Ok(ReportKind::PayrollApprovalHistory));
    assert_eq!(parse_report_kind("Tax_register"), Err(ReportRequestError::UnsupportedReportType));
    assert_eq!(
        check_report_request("bogus", Some("xml")),
        Err(ReportRequestError::UnsupportedFormat)
    );
    assert_eq!(check_report_request("bogus", None), Err(ReportRequestError::UnsupportedReportType));
    assert_eq!(
        check_report_request("employee_listing", Some("csv")),
        Ok((ReportKind::EmployeeListing, ReportFormat::Csv))
    );
}

#[test]
fn report_refusals() {
    assert_eq!(ReportRequestError::UnsupportedFormat.status_code(), 400);
    assert_eq!(ReportRequestError::UnsupportedReportType.status_code(), 400);
    assert_eq!(ReportRequestError::NoPayrollPeriods.status_code(), 404);
    assert_eq!(ReportRequestError::EmployeeNotFound.status_code(), 404);
    assert_eq!(
        ReportRequestError::UnsupportedFormat.message(),
        "Unsupported format. Use 'json', 'csv', or 'pdf'."
    );
    assert_eq!(ReportRequestError::NoEmployees.message(), "No employees found");
    assert_eq!(ReportFormat::Csv.content_type(), "text/csv; charset=utf-8");
    assert_eq!(ReportFormat::Pdf.name(), "pdf");
}

#[test]
fn report_columns() {
    assert_eq!(
        report_headers(ReportKind::TaxRegister),
        s(&["employee_number", "employee_name", "pay_date", "gross_pay", "tax_deduction"])
    );
    assert_eq!(report_headers(ReportKind::EmployeePayroll).len(), 15);
    assert_eq!(report_headers(ReportKind::PayrollApprovalHistory)[11], "total_net_pay");
}

#[test]
fn payroll_summary_rows() {
    let records = vec![PayrollSummaryRecord {
        period_id: 4,
        start_date: day(2024, 3, 4),
        end_date: day(2024, 3, 15),
        pay_date: day(2024, 3, 20),
        status: "paid".to_string(),
        employee_count: None,
        total_gross_pay: Some(Amount::new(123456, 3)),
        total_deductions: None,
        total_net_pay: Some(Amount::new(100, 0)),
    }];
    let t = payroll_period_summary_report(&records);
    assert_eq!(t.file_stem, "payroll_period_summary");
    assert_eq!(
        t.rows,
        vec![s(&["4", "2024-03-04", "2024-03-15", "2024-03-20", "paid", "0", "123.46", "0.00", "100"])]
    );
}

#[test]
fn employee_payroll_rows() {
    let z = Amount::zero();
    let records = vec![EmployeePayrollRecord {
        employee_number: "E-7".to_string(),
        first_name: "Ann".to_string(),
        last_name: "Lee".to_string(),
        bank_account_number: None,
        employment_type: "salaried".to_string(),
        pay_date: day(2024, 3, 20),
        payment_status: "pending".to_string(),
        regular_pay: Amount::new(200000, 2),
        overtime_pay: z,
        bonuses: z,
        gross_pay: Amount::new(200000, 2),
        tax_deduction: Amount::new(13269, 2),
        employee_savings: z,
        company_match: z,
        total_deductions: Amount::new(13269, 2),
        net_pay: Amount::new(186731, 2),
    }];
    let t = employee_payroll_report(12, &records);
    assert_eq!(t.file_stem, "employee_payroll_period_12");
    assert_eq!(
        t.rows[0],
        s(&[
            "2024-03-20", "E-7", "Ann Lee", "", "salaried", "pending", "2000.00", "0", "0",
            "2000.00", "132.69", "0", "0", "132.69", "1867.31",
        ])
    );
}

#[test]
fn deduction_listing_profile_and_tax_rows() {
    let d = deductions_summary_report(&vec![DeductionSummaryRecord {
        period_id: 2,
        start_date: day(2024, 1, 1),
        end_date: day(2024, 1, 14),
        tax_deduction_total: Amount::new(1, 2),
        employee_savings_total: Amount::zero(),
        company_match_total: Amount::new(5, 1),
        total_deductions: Amount::new(51, 2),
    }]);
    assert_eq!(d.rows[0], s(&["2", "2024-01-01", "2024-01-14", "0.01", "0", "0.5", "0.51"]));
    assert_eq!(d.file_stem, "deductions_summary");

    let l = employee_listing_report(&vec![EmployeeListingRecord {
        employee_number: "E1".to_string(),
        first_name: "Bo".to_string(),
        last_name: "Li".to_string(),
        department: "Unassigned".to_string(),
        position: "Clerk".to_string(),
        employment_type: "hourly".to_string(),
        status: "active".to_string(),
        hire_date: day(2020, 6, 1),
        base_salary: None,
        hourly_rate: Some(Amount::new(2250, 2)),
    }]);
    assert_eq!(
        l.rows[0],
        s(&["E1", "Bo Li", "Unassigned", "Clerk", "hourly", "active", "2020-06-01", "0.00", "22.50"])
    );

    let p = employee_profile_report(
        9,
        &Some(EmployeeProfileRecord {
            employee_number: "E9".to_string(),
            first_name: "Cy".to_string(),
            last_name: "Do".to_string(),
            email: "cy@x.io".to_string(),
            phone: Some("555".to_string()),
            department: "Ops".to_string(),
            position: "Lead".to_string(),
            employment_type: "contractor".to_string(),
            status: "active".to_string(),
            hire_date: day(2021, 2, 3),
            base_salary: Some(Amount::new(1000, 0)),
            hourly_rate: None,
        }),
    )
    .unwrap();
    assert_eq!(p.file_stem, "employee_profile_9");
    assert_eq!(
        p.rows,
        vec![s(&["E9", "Cy Do", "cy@x.io", "555", "Ops", "Lead", "contractor", "active", "2021-02-03", "1000", "0.00"])]
    );
    assert_eq!(employee_profile_report(9, &None).unwrap_err(), ReportRequestError::EmployeeNotFound);

    let t = tax_register_report(&vec![TaxRegisterRecord {
        employee_number: "E2".to_string(),
        first_name: "Di".to_string(),
        last_name: "Ng".to_string(),
        pay_date: day(2024, 3, 20),
        gross_pay: Amount::new(300000, 2),
        tax_deduction: Amount::new(24808, 2),
    }]);
    assert_eq!(t.rows[0], s(&["E2", "Di Ng", "2024-03-20", "3000.00", "248.08"]));
}

#[test]
fn approval_history_rows() {
    let rec = ApprovalHistoryRecord {
        audit_id: 31,
        created_at: CalendarTime { day: day(2024, 3, 7), seconds: 9 * 3600 + 30 * 60 + 5 },
        payroll_period_id: Some(4),
        start_date: Some(day(2024, 3, 4)),
        end_date: None,
        pay_date: None,
        event_name: Some("payroll_approved".to_string()),
        period_status: Some("approved".to_string()),
        user_name: None,
        action: "UPDATE".to_string(),
        employees_impacted: Some("3".to_string()),
        total_net_pay: None,
    };
    let t = payroll_approval_history_report(&vec![rec]);
    assert_eq!(
        t.rows[0],
        s(&[
            "31", "2024-03-07 09:30:05", "Payroll Approved", "UPDATE", "system", "4", "2024-03-04",
            "", "", "approved", "3", "",
        ])
    );
    assert_eq!(t.file_stem, "payroll_approval_history");
}

#[test]
fn download_names() {
    let at = CalendarTime { day: day(2024, 3, 7), seconds: 9 * 3600 + 30 * 60 + 5 };
    assert_eq!(
        download_file_name("tax_register", at, ReportFormat::Csv),
        Some("tax_register_20240307_093005.csv".to_string())
    );
    assert_eq!(
        download_file_name("x", at, ReportFormat::Pdf),
        Some("x_20240307_093005.pdf".to_string())
    );
    assert_eq!(download_file_name("x", at, ReportFormat::Json), None);
    assert_eq!(content_disposition("a.csv"), "attachment; filename=\"a.csv\"");
}

#[test]
fn json_report_answer() {
    let t = tax_register_report(&Vec::new());
    let r = report_response("tax_register", ReportFormat::Json, "now".to_string(), t);
    assert_eq!(r.report_type, "tax_register");
    assert_eq!(r.format, "json");
    assert_eq!(r.row_count, 0);
    assert_eq!(r.headers.len(), 5);
}

#[test]
fn filter_options_and_subjects() {
    let o = report_filter_options(
        &vec![ReportOptionEmployee { id: 5, first_name: "Ed".to_string(), last_name: "Fa".to_string(), status: "active".to_string() }],
        s(&["Ops"]),
        s(&["active", "inactive"]),
    );
    assert_eq!((o.employees[0].id, o.employees[0].name.as_str(), o.employees[0].status.as_str()), (5, "Ed Fa", "active"));
    assert_eq!(o.departments, s(&["Ops"]));
    assert_eq!(report_subject(Some(3), Some(8), ReportRequestError::NoEmployees), Ok(3));
    assert_eq!(report_subject(None, Some(8), ReportRequestError::NoEmployees), Ok(8));
    assert_eq!(
        report_subject(None, None, ReportRequestError::NoPayrollPeriods),
        Err(ReportRequestError::NoPayrollPeriods)
    );
    assert_eq!(full_name("Ann", "Lee"), "Ann Lee");
}

#[test]
fn every_row_has_one_cell_per_column() {
    let z = Amount::zero();
    let summary = payroll_period_summary_report(&vec![PayrollSummaryRecord {
        period_id: 1,
        start_date: day(2024, 1, 1),
        end_date: day(2024, 1, 14),
        pay_date: day(2024, 1, 19),
        status: "draft".to_string(),
        employee_count: Some(2),
        total_gross_pay: None,
        total_deductions: None,
        total_net_pay: None,
    }]);
    assert_eq!(summary.rows[0].len(), summary.headers.len());
    let tax = tax_register_report(&vec![TaxRegisterRecord {
        employee_number: "E".to_string(),
        first_name: "A".to_string(),
        last_name: "B".to_string(),
        pay_date: day(2024, 1, 19),
        gross_pay: z,
        tax_deduction: z,
    }]);
    assert_eq!(tax.rows[0].len(), tax.headers.len());
    assert_eq!(report_headers(ReportKind::DeductionsSummary).len(), 7);
    assert_eq!(report_headers(ReportKind::EmployeeListing).len(), 9);
    assert_eq!(report_headers(ReportKind::EmployeeProfile).len(), 11);
    assert_eq!(report_headers(ReportKind::PayrollPeriodSummary).len(), 9);
}

fn read_csv(text: &str) -> Vec<Vec<String>> {
    let mut records = Vec::new();
    let mut fields = Vec::new();
    let mut field = String::new();
    let mut quoted = false;
    let mut after_quote = false;
    for c in text.chars() {
        if quoted {
            if c == '"' {
                quoted = false;
                after_quote = true;
            } else {
                field.push(c);
            }
        } else if c == ',' {
            fields.push(std::mem::take(&mut field));
            after_quote = false;
        } else if c == '\n' {
            fields.push(std::mem::take(&mut field));
            records.push(std::mem::take(&mut fields));
            after_quote = false;
        } else if c == '"' && after_quote {
            field.push('"');
            quoted = true;
            after_quote = false;
        } else if c == '"' && field.is_empty() {
            quoted = true;
        } else {
            field.push(c);
            after_quote = false;
        }
    }
    records
}

#[test]
fn csv_reads_back_as_the_table() {
    let headers = s(&["Name", "Note"]);
    let rows = vec![s(&["Smith, Ann", "said \"hi\""]), s(&["Lee", "two\nlines"]), s(&["", "plain"])];
    let text = to_csv(&headers, &rows);
    let mut expected = vec![headers.clone()];
    expected.extend(rows.iter().cloned());
    assert_eq!(read_csv(&text), expected);
}

#[test]
fn wrapped_lines_are_greedy() {
    let max = 10;
    let lines = wrap_line("the quick brown fox jumps over a lazy extraordinarily dog", max);
    assert_eq!(lines, s(&["the quick", "brown fox", "jumps over", "a lazy", "extraordin", "dog"]));
    for pair in lines.windows(2) {
        let first_word = pair[1].split(' ').next().unwrap();
        assert!(pair[0].chars().count() + 1 + first_word.chars().count() > max);
    }
}
