//! The payroll-period lifecycle: which requests to generate, approve and
//! execute payroll a period accepts, and the state each one leaves behind.
//!
//! A period moves from `draft` to `processing` when payroll is generated,
//! to `approved` (and locked) when approved, and to `paid` when executed.

use vstd::prelude::*;
use crate::auth::{manages_payroll, AuthenticatedUser};
use crate::text::{push_str, str_eq, to_owned_string};

verus! {

/// A request on a payroll period.
#[derive(Clone, Copy, Debug, PartialEq, Eq)]
pub enum PayrollAction {
    Generate,
    Approve,
    Execute,
}

/// Why a payroll request is refused.
#[derive(Clone, Copy, Debug, PartialEq, Eq)]
pub enum PayrollRefusal {
    /// The user's role may not perform the action.
    NotAllowed(PayrollAction),
    /// The period id is not positive.
    InvalidPeriodId,
    /// No period has the id.
    PeriodNotFound,
    /// Generation was requested for a paid period.
    PaidCannotRegenerate,
    /// Generation was requested for a locked period.
    LockedCannotRegenerate,
    /// Runs exist and recalculation was not forced.
    RunsAlreadyExist,
    /// Approval or execution was requested for a paid period.
    AlreadyPaid,
    /// Approval was requested before payroll was generated.
    NotGenerated,
    /// Approval was requested for a locked period.
    AlreadyLocked,
    /// Approval was requested in a state other than processing or approved.
    StateCannotBeApproved,
    /// The period has no payroll runs.
    NoRuns,
    /// Execution was requested for a period that is not approved.
    NotApproved,
    /// Execution was requested for a period that is not locked.
    NotLocked,
}

/// The HTTP status of a refusal.
pub open spec fn refusal_status(r: PayrollRefusal) -> u16 {
    match r {
        PayrollRefusal::NotAllowed(_) => 403,
        PayrollRefusal::InvalidPeriodId => 400,
        PayrollRefusal::PeriodNotFound => 404,
        _ => 409,
    }
}

impl PayrollRefusal {
    /// The HTTP status code the refusal is answered with.
    pub fn status_code(&self) -> (r: u16)
        ensures
            r == refusal_status(*self),
    {
        match self {
            PayrollRefusal::NotAllowed(_) => 403,
            PayrollRefusal::InvalidPeriodId => 400,
            PayrollRefusal::PeriodNotFound => 404,
            _ => 409,
        }
    }
}

/// The first refusal, if any, of a generation request.
pub open spec fn generate_refusal(
    status: Seq<char>,
    is_locked: bool,
    existing_runs: int,
    force_recalculate: bool,
) -> Option<PayrollRefusal> {
    if status == "paid"@ {
        Some(PayrollRefusal::PaidCannotRegenerate)
    } else if is_locked {
        Some(PayrollRefusal::LockedCannotRegenerate)
    } else if existing_runs > 0 && !force_recalculate {
        Some(PayrollRefusal::RunsAlreadyExist)
    } else {
        None
    }
}

/// The first refusal, if any, of an approval request.
pub open spec fn approve_refusal(status: Seq<char>, is_locked: bool, run_count: int) -> Option<
    PayrollRefusal,
> {
    if status == "paid"@ {
        Some(PayrollRefusal::AlreadyPaid)
    } else if status == "draft"@ {
        Some(PayrollRefusal::NotGenerated)
    } else if is_locked {
        Some(PayrollRefusal::AlreadyLocked)
    } else if status != "processing"@ && status != "approved"@ {
        Some(PayrollRefusal::StateCannotBeApproved)
    } else if run_count <= 0 {
        Some(PayrollRefusal::NoRuns)
    } else {
        None
    }
}

/// The first refusal, if any, of an execution request.
pub open spec fn execute_refusal(status: Seq<char>, is_locked: bool, run_count: int) -> Option<
    PayrollRefusal,
> {
    if status == "paid"@ {
        Some(PayrollRefusal::AlreadyPaid)
    } else if status != "approved"@ {
        Some(PayrollRefusal::NotApproved)
    } else if !is_locked {
        Some(PayrollRefusal::NotLocked)
    } else if run_count <= 0 {
        Some(PayrollRefusal::NoRuns)
    } else {
        None
    }
}

/// Turns an optional refusal into a result.
pub open spec fn as_result<T>(refusal: Option<PayrollRefusal>, ok: T) -> Result<T, PayrollRefusal> {
    match refusal {
        Some(e) => Err(e),
        None => Ok(ok),
    }
}

/// Checks who asks and for which period before any period is read: only
/// payroll managers may act, and the id must be positive.
pub fn authorize_payroll_request(
    user: &AuthenticatedUser,
    payroll_period_id: i32,
    action: PayrollAction,
) -> (r: Result<(), PayrollRefusal>)
    ensures
        r == (if !manages_payroll(user.role@) {
            Err(PayrollRefusal::NotAllowed(action))
        } else if payroll_period_id <= 0 {
            Err(PayrollRefusal::InvalidPeriodId)
        } else {
            Ok(())
        }),
{
    if !user.can_manage_payroll() {
        return Err(PayrollRefusal::NotAllowed(action));
    }
    if payroll_period_id <= 0 {
        return Err(PayrollRefusal::InvalidPeriodId);
    }
    Ok(())
}

/// Decides a generation request for a period in the given state. On success
/// the result says whether the existing runs of the period are deleted first.
pub fn check_generate(
    status: &str,
    is_locked: bool,
    existing_runs: i64,
    force_recalculate: bool,
) -> (r: Result<bool, PayrollRefusal>)
    ensures
        r == as_result(
            generate_refusal(status@, is_locked, existing_runs as int, force_recalculate),
            existing_runs > 0 && force_recalculate,
        ),
{
    if str_eq(status, "paid") {
        return Err(PayrollRefusal::PaidCannotRegenerate);
    }
    if is_locked {
        return Err(PayrollRefusal::LockedCannotRegenerate);
    }
    if existing_runs > 0 && !force_recalculate {
        return Err(PayrollRefusal::RunsAlreadyExist);
    }
    Ok(existing_runs > 0 && force_recalculate)
}

/// Decides an approval request for a period in the given state.
pub fn check_approve(status: &str, is_locked: bool, run_count: i64) -> (r: Result<
    (),
    PayrollRefusal,
>)
    ensures
        r == as_result(approve_refusal(status@, is_locked, run_count as int), ()),
{
    if str_eq(status, "paid") {
        return Err(PayrollRefusal::AlreadyPaid);
    }
    if str_eq(status, "draft") {
        return Err(PayrollRefusal::NotGenerated);
    }
    if is_locked {
        return Err(PayrollRefusal::AlreadyLocked);
    }
    if !str_eq(status, "processing") && !str_eq(status, "approved") {
        return Err(PayrollRefusal::StateCannotBeApproved);
    }
    if run_count <= 0 {
        return Err(PayrollRefusal::NoRuns);
    }
    Ok(())
}

/// Decides an execution request for a period in the given state.
pub fn check_execute(status: &str, is_locked: bool, run_count: i64) -> (r: Result<
    (),
    PayrollRefusal,
>)
    ensures
        r == as_result(execute_refusal(status@, is_locked, run_count as int), ()),
{
    if str_eq(status, "paid") {
        return Err(PayrollRefusal::AlreadyPaid);
    }
    if !str_eq(status, "approved") {
        return Err(PayrollRefusal::NotApproved);
    }
    if !is_locked {
        return Err(PayrollRefusal::NotLocked);
    }
    if run_count <= 0 {
        return Err(PayrollRefusal::NoRuns);
    }
    Ok(())
}

/// The actions a period offers in its details view.
#[derive(Clone, Copy, Debug, PartialEq, Eq)]
pub struct PeriodActions {
    pub can_generate: bool,
    pub can_approve: bool,
    pub can_execute: bool,
}

/// Which actions the details view offers for a period in the given state.
pub open spec fn spec_period_actions(status: Seq<char>, is_locked: bool, run_count: int) -> PeriodActions {
    PeriodActions {
        can_generate: !is_locked && status != "paid"@,
        can_approve: !is_locked && status == "processing"@ && run_count > 0,
        can_execute: is_locked && status == "approved"@ && run_count > 0,
    }
}

/// The actions offered for a period: generation while it is unlocked and
/// unpaid, approval while it is processing with runs and unlocked, execution
/// once it is approved, locked and has runs.
pub fn period_actions(status: &str, is_locked: bool, run_count: i64) -> (r: PeriodActions)
    ensures
        r == spec_period_actions(status@, is_locked, run_count as int),
{
    PeriodActions {
        can_generate: !is_locked && !str_eq(status, "paid"),
        can_approve: !is_locked && str_eq(status, "processing") && run_count > 0,
        can_execute: is_locked && str_eq(status, "approved") && run_count > 0,
    }
}

/// The stored state of a payroll period.
pub struct PeriodState {
    pub status: Seq<char>,
    pub is_locked: bool,
}

/// The state a period is left in by an accepted request.
pub open spec fn state_after(action: PayrollAction) -> PeriodState {
    match action {
        PayrollAction::Generate => PeriodState { status: "processing"@, is_locked: false },
        PayrollAction::Approve => PeriodState { status: "approved"@, is_locked: true },
        PayrollAction::Execute => PeriodState { status: "paid"@, is_locked: true },
    }
}

/// Whether a request is accepted in a state, with the given number of runs
/// (for generation, with recalculation forced).
pub open spec fn accepted(action: PayrollAction, state: PeriodState, run_count: int) -> bool {
    match action {
        PayrollAction::Generate => generate_refusal(state.status, state.is_locked, run_count, true)
            is None,
        PayrollAction::Approve => approve_refusal(state.status, state.is_locked, run_count) is None,
        PayrollAction::Execute => execute_refusal(state.status, state.is_locked, run_count) is None,
    }
}

/// The stored status names are distinct.
proof fn lemma_status_names_distinct()
    ensures
        "paid"@ != "draft"@,
        "paid"@ != "processing"@,
        "paid"@ != "approved"@,
        "draft"@ != "processing"@,
        "draft"@ != "approved"@,
        "processing"@ != "approved"@,
{
    reveal_strlit("paid");
    reveal_strlit("processing");
    reveal_strlit("approved");
    reveal_strlit("draft");
    assert("paid"@.len() == 4);
    assert("draft"@.len() == 5);
    assert("approved"@.len() == 8);
    assert("processing"@.len() == 10);
}

/// The details view offers execution exactly when an execution request would
/// be accepted, and generation exactly when a forced generation would be.
pub proof fn lemma_actions_match_checks(status: Seq<char>, is_locked: bool, run_count: int)
    ensures
        spec_period_actions(status, is_locked, run_count).can_execute <==> execute_refusal(
            status,
            is_locked,
            run_count,
        ) is None,
        spec_period_actions(status, is_locked, run_count).can_generate <==> generate_refusal(
            status,
            is_locked,
            run_count,
            true,
        ) is None,
        spec_period_actions(status, is_locked, run_count).can_generate && run_count <= 0
            <==> generate_refusal(status, is_locked, run_count, false) is None,
        spec_period_actions(status, is_locked, run_count).can_approve ==> approve_refusal(
            status,
            is_locked,
            run_count,
        ) is None,
        spec_period_actions(status, is_locked, run_count).can_approve <==> (status == "processing"@
            && approve_refusal(status, is_locked, run_count) is None),
{
    lemma_status_names_distinct();
}

/// A paid period accepts no further request, whatever its lock and runs.
pub proof fn lemma_paid_is_final(is_locked: bool, run_count: int, force_recalculate: bool)
    ensures
        generate_refusal("paid"@, is_locked, run_count, force_recalculate) is Some,
        approve_refusal("paid"@, is_locked, run_count) is Some,
        execute_refusal("paid"@, is_locked, run_count) is Some,
{
}

/// A locked period cannot be regenerated.
pub proof fn lemma_locked_cannot_regenerate(
    status: Seq<char>,
    run_count: int,
    force_recalculate: bool,
)
    ensures
        generate_refusal(status, true, run_count, force_recalculate) is Some,
{
}

/// The lifecycle: a draft period with runs is accepted for generation, then
/// approval, then execution, each leaving the state the next needs; once
/// executed, it is paid and locked and no request is accepted any more.
pub proof fn lemma_lifecycle(run_count: int)
    requires
        run_count > 0,
    ensures
        accepted(PayrollAction::Generate, PeriodState { status: "draft"@, is_locked: false }, 0),
        accepted(PayrollAction::Approve, state_after(PayrollAction::Generate), run_count),
        accepted(PayrollAction::Execute, state_after(PayrollAction::Approve), run_count),
        state_after(PayrollAction::Execute).status == "paid"@,
        state_after(PayrollAction::Execute).is_locked,
        !accepted(PayrollAction::Generate, state_after(PayrollAction::Execute), run_count),
        !accepted(PayrollAction::Approve, state_after(PayrollAction::Execute), run_count),
        !accepted(PayrollAction::Execute, state_after(PayrollAction::Execute), run_count),
{
    lemma_status_names_distinct();
}

/// Each accepted request leaves the period in a state that the same request
/// refuses when repeated: approval and execution are not repeated, and
/// generation can be repeated only while the period stays unlocked.
pub proof fn lemma_no_repeat(run_count: int)
    ensures
        !accepted(PayrollAction::Approve, state_after(PayrollAction::Approve), run_count),
        !accepted(PayrollAction::Execute, state_after(PayrollAction::Execute), run_count),
        !accepted(PayrollAction::Generate, state_after(PayrollAction::Approve), run_count),
{
    lemma_status_names_distinct();
}

/// The message a refusal is answered with; `status` is the stored status of
/// the period, quoted when the state cannot be approved.
pub open spec fn refusal_message(r: PayrollRefusal, status: Seq<char>) -> Seq<char> {
    match r {
        PayrollRefusal::NotAllowed(PayrollAction::Generate) => "You are not allowed to generate payroll"@,
        PayrollRefusal::NotAllowed(PayrollAction::Approve) => "You are not allowed to approve payroll"@,
        PayrollRefusal::NotAllowed(PayrollAction::Execute) => "You are not allowed to execute payroll"@,
        PayrollRefusal::InvalidPeriodId => "Invalid payroll_period_id"@,
        PayrollRefusal::PeriodNotFound => "Payroll period not found"@,
        PayrollRefusal::PaidCannotRegenerate => "Cannot regenerate payroll for a paid period"@,
        PayrollRefusal::LockedCannotRegenerate => "Payroll period is locked. Unlocking is required before regenerating."@,
        PayrollRefusal::RunsAlreadyExist => "Payroll runs already exist for this period. Set force_recalculate=true to regenerate."@,
        PayrollRefusal::AlreadyPaid => "Payroll period has already been paid"@,
        PayrollRefusal::NotGenerated => "Generate payroll before approval."@,
        PayrollRefusal::AlreadyLocked => "Payroll period is already locked/approved."@,
        PayrollRefusal::StateCannotBeApproved => "Payroll period in '"@ + status
            + "' state cannot be approved."@,
        PayrollRefusal::NoRuns => "No payroll runs found for this period. Generate payroll first."@,
        PayrollRefusal::NotApproved => "Only approved payroll periods can be executed"@,
        PayrollRefusal::NotLocked => "Payroll period must be locked before execution. Approve payroll first."@,
    }
}

impl PayrollRefusal {
    /// The message the refusal is answered with, for a period in `status`.
    pub fn message(&self, status: &str) -> (r: String)
        ensures
            r@ == refusal_message(*self, status@),
    {
        match self {
            PayrollRefusal::NotAllowed(PayrollAction::Generate) => to_owned_string(
                "You are not allowed to generate payroll",
            ),
            PayrollRefusal::NotAllowed(PayrollAction::Approve) => to_owned_string(
                "You are not allowed to approve payroll",
            ),
            PayrollRefusal::NotAllowed(PayrollAction::Execute) => to_owned_string(
                "You are not allowed to execute payroll",
            ),
            PayrollRefusal::InvalidPeriodId => to_owned_string("Invalid payroll_period_id"),
            PayrollRefusal::PeriodNotFound => to_owned_string("Payroll period not found"),
            PayrollRefusal::PaidCannotRegenerate => to_owned_string(
                "Cannot regenerate payroll for a paid period",
            ),
            PayrollRefusal::LockedCannotRegenerate => to_owned_string(
                "Payroll period is locked. Unlocking is required before regenerating.",
            ),
            PayrollRefusal::RunsAlreadyExist => to_owned_string(
                "Payroll runs already exist for this period. Set force_recalculate=true to regenerate.",
            ),
            PayrollRefusal::AlreadyPaid => to_owned_string("Payroll period has already been paid"),
            PayrollRefusal::NotGenerated => to_owned_string("Generate payroll before approval."),
            PayrollRefusal::AlreadyLocked => to_owned_string("Payroll period is already locked/approved."),
            PayrollRefusal::StateCannotBeApproved => {
                let mut m = to_owned_string("Payroll period in '");
                push_str(&mut m, status);
                push_str(&mut m, "' state cannot be approved.");
                m
            },
            PayrollRefusal::NoRuns => to_owned_string(
                "No payroll runs found for this period. Generate payroll first.",
            ),
            PayrollRefusal::NotApproved => to_owned_string(
                "Only approved payroll periods can be executed",
            ),
            PayrollRefusal::NotLocked => to_owned_string(
                "Payroll period must be locked before execution. Approve payroll first.",
            ),
        }
    }
}

} // verus!
