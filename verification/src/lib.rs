//! Payroll computations, payroll-period workflow rules, report rendering and
//! session helpers for a small payroll management service.

pub mod decimal;
pub mod text;
pub mod payroll;
pub mod auth;
pub mod workflow;
pub mod reports;
pub mod pdf;
pub mod dates;
pub mod dashboard;
pub mod models;
pub mod report_tables;
pub mod responses;
