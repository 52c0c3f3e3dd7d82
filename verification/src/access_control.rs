//! Optional participant admission: open by default, a denylist that always
//! wins, and an allowlist mode that admits only listed addresses.
use vstd::prelude::*;

use crate::admin::{admin_gate, require_admin_action, AdminContext};
use crate::errors::ContractError;

verus! {

/// Whether allowlist mode is on; it is off until it is set.
pub fn is_access_control_enabled(stored: Option<bool>) -> (b: bool)
    ensures
        b == (stored == Some(true)),
{
    match stored {
        Some(e) => e,
        None => false,
    }
}

/// The resolved standing of one address.
#[derive(Clone, Copy, Debug, PartialEq, Eq, Structural)]
pub enum AccessState {
    Open,
    Allowlisted,
    Denylisted,
}

/// The list markers held for one address.
#[derive(Clone, Copy, Debug, PartialEq, Eq, Structural)]
pub struct AccessMarks {
    pub allowlisted: bool,
    pub denylisted: bool,
}

/// The standing the markers give: the denylist takes precedence.
pub open spec fn access_state_of(marks: AccessMarks) -> AccessState {
    if marks.denylisted {
        AccessState::Denylisted
    } else if marks.allowlisted {
        AccessState::Allowlisted
    } else {
        AccessState::Open
    }
}

/// Whether an address is admitted: never when denylisted, and in allowlist
/// mode only when allowlisted.
pub open spec fn admitted(enabled: bool, marks: AccessMarks) -> bool {
    !marks.denylisted && (!enabled || marks.allowlisted)
}

/// Turns allowlist mode on or off (admin only); returns the new flag.
pub fn set_access_control_enabled(ctx: &AdminContext, enabled: bool) -> (r: Result<
    bool,
    ContractError,
>)
    ensures
        r == (match admin_gate(*ctx) {
            Err(e) => Err(e),
            Ok(_) => Ok(enabled),
        }),
{
    require_admin_action(ctx)?;
    Ok(enabled)
}

/// Allowlists an address (admin only) and clears a conflicting denylist
/// marker. Returns whether such a marker was cleared.
pub fn add_allowlisted(ctx: &AdminContext, marks: &mut AccessMarks) -> (r: Result<
    bool,
    ContractError,
>)
    ensures
        admin_gate(*ctx) is Err ==> r == Err::<bool, ContractError>(admin_gate(*ctx)->Err_0)
            && *final(marks) == *old(marks),
        admin_gate(*ctx) is Ok ==> r == Ok::<bool, ContractError>(old(marks).denylisted)
            && *final(marks) == (AccessMarks { allowlisted: true, denylisted: false }),
{
    require_admin_action(ctx)?;
    let was_denied = marks.denylisted;
    marks.allowlisted = true;
    marks.denylisted = false;
    Ok(was_denied)
}

/// Removes an address from the allowlist (admin only); idempotent.
pub fn remove_allowlisted(ctx: &AdminContext, marks: &mut AccessMarks) -> (r: Result<
    (),
    ContractError,
>)
    ensures
        r == admin_gate(*ctx),
        admin_gate(*ctx) is Err ==> *final(marks) == *old(marks),
        admin_gate(*ctx) is Ok ==> *final(marks) == (AccessMarks {
            allowlisted: false,
            denylisted: old(marks).denylisted,
        }),
{
    require_admin_action(ctx)?;
    marks.allowlisted = false;
    Ok(())
}

/// Denylists an address (admin only) and clears a conflicting allowlist
/// marker. Returns whether such a marker was cleared.
pub fn add_denylisted(ctx: &AdminContext, marks: &mut AccessMarks) -> (r: Result<
    bool,
    ContractError,
>)
    ensures
        admin_gate(*ctx) is Err ==> r == Err::<bool, ContractError>(admin_gate(*ctx)->Err_0)
            && *final(marks) == *old(marks),
        admin_gate(*ctx) is Ok ==> r == Ok::<bool, ContractError>(old(marks).allowlisted)
            && *final(marks) == (AccessMarks { allowlisted: false, denylisted: true }),
{
    require_admin_action(ctx)?;
    let was_allowed = marks.allowlisted;
    marks.allowlisted = false;
    marks.denylisted = true;
    Ok(was_allowed)
}

/// Removes an address from the denylist (admin only); idempotent.
pub fn remove_denylisted(ctx: &AdminContext, marks: &mut AccessMarks) -> (r: Result<
    (),
    ContractError,
>)
    ensures
        r == admin_gate(*ctx),
        admin_gate(*ctx) is Err ==> *final(marks) == *old(marks),
        admin_gate(*ctx) is Ok ==> *final(marks) == (AccessMarks {
            allowlisted: old(marks).allowlisted,
            denylisted: false,
        }),
{
    require_admin_action(ctx)?;
    marks.denylisted = false;
    Ok(())
}

/// Whether the address carries the allowlist marker.
pub fn is_allowlisted(marks: &AccessMarks) -> (b: bool)
    ensures
        b == marks.allowlisted,
{
    marks.allowlisted
}

/// Whether the address carries the denylist marker.
pub fn is_denylisted(marks: &AccessMarks) -> (b: bool)
    ensures
        b == marks.denylisted,
{
    marks.denylisted
}

/// The resolved standing of an address.
pub fn get_access_state(marks: &AccessMarks) -> (s: AccessState)
    ensures
        s == access_state_of(*marks),
{
    if marks.denylisted {
        AccessState::Denylisted
    } else if marks.allowlisted {
        AccessState::Allowlisted
    } else {
        AccessState::Open
    }
}

/// The policy summary: whether allowlist mode is on, and the standing.
pub fn get_access_policy(enabled: bool, marks: &AccessMarks) -> (p: (bool, AccessState))
    ensures
        p == (enabled, access_state_of(*marks)),
{
    (enabled, get_access_state(marks))
}

/// The admission gate of every betting entry point.
pub fn _enforce_access_control(enabled: bool, marks: &AccessMarks) -> (r: Result<
    (),
    ContractError,
>)
    ensures
        r == (if admitted(enabled, *marks) {
            Ok(())
        } else {
            Err(ContractError::AccessDenied)
        }),
{
    if marks.denylisted {
        return Err(ContractError::AccessDenied);
    }
    if enabled && !marks.allowlisted {
        return Err(ContractError::AccessDenied);
    }
    Ok(())
}

/// Admission follows the resolved standing: a denylisted address is never
/// admitted, an allowlisted one always, an open one exactly when allowlist
/// mode is off.
pub proof fn law_admission_follows_state(enabled: bool, marks: AccessMarks)
    ensures
        access_state_of(marks) == AccessState::Denylisted ==> !admitted(enabled, marks),
        access_state_of(marks) == AccessState::Allowlisted ==> admitted(enabled, marks),
        access_state_of(marks) == AccessState::Open ==> (admitted(enabled, marks) <==> !enabled),
{
}

/// After a successful allowlisting the address is admitted in either mode,
/// and after a successful denylisting it is refused in either mode.
pub proof fn law_list_updates_decide_admission(enabled: bool)
    ensures
        admitted(enabled, AccessMarks { allowlisted: true, denylisted: false }),
        !admitted(enabled, AccessMarks { allowlisted: false, denylisted: true }),
{
}

} // verus!
