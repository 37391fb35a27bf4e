use payroll_core::auth::AuthenticatedUser;
use payroll_core::workflow::{
    authorize_payroll_request, check_approve, check_execute, check_generate, period_actions,
    PayrollAction, PayrollRefusal, PeriodActions,
};

fn user(role: &str) -> AuthenticatedUser {
    AuthenticatedUser {
        id: 1,
        username: "u".to_string(),
        full_name: "U Ser".to_string(),
        role: role.to_string(),
    }
}

#[test]
fn only_payroll_managers_may_act() {
    assert_eq!(authorize_payroll_request(&user("admin"), 3, PayrollAction::Generate), Ok(()));
    assert_eq!(authorize_payroll_request(&user("payroll"), 3, PayrollAction::Approve), Ok(()));
    assert_eq!(
        authorize_payroll_request(&user("viewer"), 3, PayrollAction::Execute),
        Err(PayrollRefusal::NotAllowed(PayrollAction::Execute))
    );
    assert_eq!(
        authorize_payroll_request(&user("Admin"), 3, PayrollAction::Generate),
        Err(PayrollRefusal::NotAllowed(PayrollAction::Generate))
    );
}

#[test]
fn period_id_must_be_positive() {
    assert_eq!(
        authorize_payroll_request(&user("admin"), 0, PayrollAction::Generate),
        Err(PayrollRefusal::InvalidPeriodId)
    );
    assert_eq!(
        authorize_payroll_request(&user("admin"), -4, PayrollAction::Approve),
        Err(PayrollRefusal::InvalidPeriodId)
    );
}

#[test]
fn generation_rules() {
    assert_eq!(check_generate("draft", false, 0, false), Ok(false));
    assert_eq!(check_generate("processing", false, 5, true), Ok(true));
    assert_eq!(check_generate("processing", false, 5, false), Err(PayrollRefusal::RunsAlreadyExist));
    assert_eq!(check_generate("paid", false, 0, true), Err(PayrollRefusal::PaidCannotRegenerate));
    assert_eq!(check_generate("approved", true, 5, true), Err(PayrollRefusal::LockedCannotRegenerate));
}

#[test]
fn approval_rules() {
    assert_eq!(check_approve("processing", false, 3), Ok(()));
    assert_eq!(check_approve("approved", false, 3), Ok(()));
    assert_eq!(check_approve("paid", true, 3), Err(PayrollRefusal::AlreadyPaid));
    assert_eq!(check_approve("draft", false, 0), Err(PayrollRefusal::NotGenerated));
    assert_eq!(check_approve("processing", true, 3), Err(PayrollRefusal::AlreadyLocked));
    assert_eq!(check_approve("cancelled", false, 3), Err(PayrollRefusal::StateCannotBeApproved));
    assert_eq!(check_approve("processing", false, 0), Err(PayrollRefusal::NoRuns));
}

#[test]
fn execution_rules() {
    assert_eq!(check_execute("approved", true, 2), Ok(()));
    assert_eq!(check_execute("paid", true, 2), Err(PayrollRefusal::AlreadyPaid));
    assert_eq!(check_execute("processing", false, 2), Err(PayrollRefusal::NotApproved));
    assert_eq!(check_execute("approved", false, 2), Err(PayrollRefusal::NotLocked));
    assert_eq!(check_execute("approved", true, 0), Err(PayrollRefusal::NoRuns));
}

#[test]
fn offered_actions_match_the_checks() {
    assert_eq!(
        period_actions("processing", false, 4),
        PeriodActions { can_generate: true, can_approve: true, can_execute: false }
    );
    assert_eq!(
        period_actions("approved", true, 4),
        PeriodActions { can_generate: false, can_approve: false, can_execute: true }
    );
    assert_eq!(
        period_actions("paid", true, 4),
        PeriodActions { can_generate: false, can_approve: false, can_execute: false }
    );
    assert_eq!(
        period_actions("draft", false, 0),
        PeriodActions { can_generate: true, can_approve: false, can_execute: false }
    );
}

#[test]
fn lifecycle_draft_to_paid() {
    // generate, approve (locks), execute
    assert!(check_generate("draft", false, 0, false).is_ok());
    assert!(check_approve("processing", false, 3).is_ok());
    assert!(check_execute("approved", true, 3).is_ok());
    // once paid nothing more is accepted
    assert!(check_generate("paid", true, 3, true).is_err());
    assert!(check_approve("paid", true, 3).is_err());
    assert!(check_execute("paid", true, 3).is_err());
}

#[test]
fn refusal_status_codes() {
    assert_eq!(PayrollRefusal::NotAllowed(PayrollAction::Approve).status_code(), 403);
    assert_eq!(PayrollRefusal::InvalidPeriodId.status_code(), 400);
    assert_eq!(PayrollRefusal::PeriodNotFound.status_code(), 404);
    assert_eq!(PayrollRefusal::RunsAlreadyExist.status_code(), 409);
    assert_eq!(PayrollRefusal::NoRuns.status_code(), 409);
}

#[test]
fn refusal_messages() {
    assert_eq!(
        PayrollRefusal::NotAllowed(PayrollAction::Generate).message(""),
        "You are not allowed to generate payroll"
    );
    assert_eq!(
        PayrollRefusal::StateCannotBeApproved.message("cancelled"),
        "Payroll period in 'cancelled' state cannot be approved."
    );
    assert_eq!(
        PayrollRefusal::RunsAlreadyExist.message("processing"),
        "Payroll runs already exist for this period. Set force_recalculate=true to regenerate."
    );
    assert_eq!(
        PayrollRefusal::NotLocked.message("approved"),
        "Payroll period must be locked before execution. Approve payroll first."
    );
}
