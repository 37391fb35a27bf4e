# payroll_core

The verified core of a small payroll service: biweekly pay calculation
(income tax over a yearly allowance, overtime, savings and a capped company
match, deductions that always leave a cent of net pay), the rules of the
payroll period workflow (generate, approve, execute), report layout with CSV
and PDF export, session cookies and login checks, and the figures of the
dashboard.

- `src/` — the library, verified with Verus. Money is held as `Amount`
  (mantissa and scale) and computed with `rust_decimal`; calendar days as
  day numbers, with `chrono` doing the calendar work.
- `tests/` — tests run against the compiled library.
- `app/` — the web service around it: `axum` routes, `sqlx` queries against
  PostgreSQL, JSON shapes, HTML pages, and the few amounts shown as
  floating-point numbers.
