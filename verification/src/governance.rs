//! Dual-approval governance of critical administrative actions: one
//! governance user proposes, another approves, then either executes.
//!
//! Addresses are identified by opaque `u64` ids here.
use vstd::prelude::*;

use crate::admin::{_require_supported_schema, schema_supported, RuntimeMode};
use crate::common::DEFAULT_GOV_PROPOSAL_TTL_LEDGERS;
use crate::config::{_validate_protocol_fee_bps, protocol_fee_check};
use crate::errors::ContractError;
use crate::math_common::{payout_add, payout_add_spec};

verus! {

/// A protected administrative action.
#[derive(Clone, Copy, Debug, PartialEq, Eq, Structural)]
pub enum GovAction {
    PauseProtocol,
    UnpauseProtocol,
    SetProtocolFeeBps(Option<u32>),
    /// Recipient and amount.
    WithdrawProtocolFee(u64, i128),
    SetTreasuryAddress(u64),
    SetAdmin(u64),
    SetOracle(u64),
}

/// The life cycle of a proposal.
#[derive(Clone, Copy, Debug, PartialEq, Eq, Structural)]
pub enum GovProposalStatus {
    Pending,
    Approved,
    Executed,
    Cancelled,
    Expired,
}

/// A governance proposal.
#[derive(Clone, Copy, Debug, PartialEq, Eq, Structural)]
pub struct GovProposal {
    pub id: u64,
    pub proposer: u64,
    pub approver: Option<u64>,
    pub action: GovAction,
    pub created_at_ledger: u32,
    pub expires_at_ledger: u32,
    pub status: GovProposalStatus,
}

/// Who may take part in governance: the admin and the optional approver.
#[derive(Clone, Copy, Debug, PartialEq, Eq, Structural)]
pub struct GovRoles {
    pub admin: Option<u64>,
    pub approver: Option<u64>,
}

/// Whether `user` is the admin or the approver.
pub open spec fn gov_user(roles: GovRoles, user: u64) -> bool {
    roles.admin == Some(user) || roles.approver == Some(user)
}

/// Whether `user` is a governance user.
pub fn _is_authorized_gov_user(roles: &GovRoles, user: u64) -> (b: bool)
    ensures
        b == gov_user(*roles, user),
{
    if let Some(a) = roles.admin {
        if a == user {
            return true;
        }
    }
    if let Some(ap) = roles.approver {
        if ap == user {
            return true;
        }
    }
    false
}

/// Whether dual approval is active (an approver is set).
pub fn _is_gov_approver_set(roles: &GovRoles) -> (b: bool)
    ensures
        b == roles.approver is Some,
{
    roles.approver.is_some()
}

/// Sets the secondary approver (admin only). Returns the new roles.
pub fn set_gov_approver(stored_schema: Option<u32>, roles: &GovRoles, approver: u64) -> (r: Result<
    GovRoles,
    ContractError,
>)
    ensures
        r == (if !schema_supported(stored_schema) {
            Err(ContractError::UnsupportedSchemaVersion)
        } else if roles.admin is None {
            Err(ContractError::AdminNotSet)
        } else {
            Ok(GovRoles { admin: roles.admin, approver: Some(approver) })
        }),
{
    _require_supported_schema(stored_schema)?;
    if roles.admin.is_none() {
        return Err(ContractError::AdminNotSet);
    }
    Ok(GovRoles { admin: roles.admin, approver: Some(approver) })
}

/// Validates a new default proposal lifetime in ledgers (admin only).
pub fn set_gov_proposal_ttl(stored_schema: Option<u32>, admin_set: bool, ttl_ledgers: u32) -> (r:
    Result<u32, ContractError>)
    ensures
        r == (if !schema_supported(stored_schema) {
            Err(ContractError::UnsupportedSchemaVersion)
        } else if !admin_set {
            Err(ContractError::AdminNotSet)
        } else if ttl_ledgers == 0 {
            Err(ContractError::WindowOutOfRange)
        } else {
            Ok(ttl_ledgers)
        }),
{
    _require_supported_schema(stored_schema)?;
    if !admin_set {
        return Err(ContractError::AdminNotSet);
    }
    if ttl_ledgers == 0 {
        return Err(ContractError::WindowOutOfRange);
    }
    Ok(ttl_ledgers)
}

/// The default proposal lifetime, 100 ledgers when unset.
pub fn get_gov_proposal_ttl(stored: Option<u32>) -> (t: u32)
    ensures
        t == stored.unwrap_or(DEFAULT_GOV_PROPOSAL_TTL_LEDGERS),
{
    stored.unwrap_or(DEFAULT_GOV_PROPOSAL_TTL_LEDGERS)
}

/// The numeric code of an action, for events.
pub open spec fn action_code(action: GovAction) -> u32 {
    match action {
        GovAction::PauseProtocol => 0,
        GovAction::UnpauseProtocol => 1,
        GovAction::SetProtocolFeeBps(_) => 2,
        GovAction::WithdrawProtocolFee(_, _) => 3,
        GovAction::SetTreasuryAddress(_) => 4,
        GovAction::SetAdmin(_) => 5,
        GovAction::SetOracle(_) => 6,
    }
}

/// The numeric code of an action, for events.
pub fn _action_code(action: &GovAction) -> (c: u32)
    ensures
        c == action_code(*action),
{
    match action {
        GovAction::PauseProtocol => 0,
        GovAction::UnpauseProtocol => 1,
        GovAction::SetProtocolFeeBps(_) => 2,
        GovAction::WithdrawProtocolFee(_, _) => 3,
        GovAction::SetTreasuryAddress(_) => 4,
        GovAction::SetAdmin(_) => 5,
        GovAction::SetOracle(_) => 6,
    }
}

/// `a + b` clamped to `u32::MAX`.
pub open spec fn sat_add_u32(a: u32, b: u32) -> u32 {
    if a + b > u32::MAX {
        u32::MAX
    } else {
        (a + b) as u32
    }
}

/// Proposes an action (governance users only). The proposal takes the next
/// id (1 when none was issued) and expires `ttl` ledgers from now
/// (saturating), `ttl` being `custom_ttl` or the default. Returns the
/// proposal and the next id to store.
pub fn propose(
    stored_schema: Option<u32>,
    roles: &GovRoles,
    proposer: u64,
    action: GovAction,
    custom_ttl: Option<u32>,
    default_ttl: Option<u32>,
    next_id: Option<u64>,
    ledger_sequence: u32,
) -> (r: Result<(GovProposal, u64), ContractError>)
    requires
        next_id.unwrap_or(1u64) < u64::MAX,
    ensures
        r == (if !schema_supported(stored_schema) {
            Err(ContractError::UnsupportedSchemaVersion)
        } else if !gov_user(*roles, proposer) {
            Err(ContractError::GovUnauthorized)
        } else {
            let id = next_id.unwrap_or(1u64);
            let ttl = custom_ttl.unwrap_or(default_ttl.unwrap_or(DEFAULT_GOV_PROPOSAL_TTL_LEDGERS));
            Ok(
                (
                    GovProposal {
                        id,
                        proposer,
                        approver: None,
                        action,
                        created_at_ledger: ledger_sequence,
                        expires_at_ledger: sat_add_u32(ledger_sequence, ttl),
                        status: GovProposalStatus::Pending,
                    },
                    (id + 1) as u64,
                ),
            )
        }),
{
    _require_supported_schema(stored_schema)?;
    if !_is_authorized_gov_user(roles, proposer) {
        return Err(ContractError::GovUnauthorized);
    }
    let proposal_id = next_id.unwrap_or(1);
    let ttl = match custom_ttl {
        Some(t) => t,
        None => get_gov_proposal_ttl(default_ttl),
    };
    let expires_at_ledger = ledger_sequence.saturating_add(ttl);
    Ok(
        (
            GovProposal {
                id: proposal_id,
                proposer,
                approver: None,
                action,
                created_at_ledger: ledger_sequence,
                expires_at_ledger,
                status: GovProposalStatus::Pending,
            },
            proposal_id + 1,
        ),
    )
}

/// The checks `approve` and `execute` share: schema, governance user, the
/// proposal exists and has not expired.
pub open spec fn proposal_gate(
    stored_schema: Option<u32>,
    roles: GovRoles,
    user: u64,
    proposal: Option<GovProposal>,
    ledger_sequence: u32,
) -> Result<GovProposal, ContractError> {
    if !schema_supported(stored_schema) {
        Err(ContractError::UnsupportedSchemaVersion)
    } else if !gov_user(roles, user) {
        Err(ContractError::GovUnauthorized)
    } else if proposal is None {
        Err(ContractError::ProposalNotFound)
    } else if ledger_sequence > proposal->0.expires_at_ledger {
        Err(ContractError::ProposalExpired)
    } else {
        Ok(proposal->0)
    }
}

fn check_proposal(
    stored_schema: Option<u32>,
    roles: &GovRoles,
    user: u64,
    proposal: Option<GovProposal>,
    ledger_sequence: u32,
) -> (r: Result<GovProposal, ContractError>)
    ensures
        r == proposal_gate(stored_schema, *roles, user, proposal, ledger_sequence),
{
    _require_supported_schema(stored_schema)?;
    if !_is_authorized_gov_user(roles, user) {
        return Err(ContractError::GovUnauthorized);
    }
    let p = match proposal {
        Some(p) => p,
        None => return Err(ContractError::ProposalNotFound),
    };
    if ledger_sequence > p.expires_at_ledger {
        return Err(ContractError::ProposalExpired);
    }
    Ok(p)
}

/// The outcome of an approval: only a pending, unexpired proposal can be
/// approved, and only by a governance user other than its proposer.
pub open spec fn approval_outcome(
    stored_schema: Option<u32>,
    roles: GovRoles,
    approver: u64,
    proposal: Option<GovProposal>,
    ledger_sequence: u32,
) -> Result<GovProposal, ContractError> {
    match proposal_gate(stored_schema, roles, approver, proposal, ledger_sequence) {
        Err(e) => Err(e),
        Ok(p) => match p.status {
            GovProposalStatus::Expired => Err(ContractError::ProposalExpired),
            GovProposalStatus::Pending => if p.proposer == approver {
                Err(ContractError::GovInvalidState)
            } else {
                Ok(
                    GovProposal {
                        approver: Some(approver),
                        status: GovProposalStatus::Approved,
                        ..p
                    },
                )
            },
            _ => Err(ContractError::GovInvalidState),
        },
    }
}

/// Approves a pending proposal. An expired proposal is refused (and the
/// refusal leaves nothing written).
pub fn approve(
    stored_schema: Option<u32>,
    roles: &GovRoles,
    approver: u64,
    proposal: Option<GovProposal>,
    ledger_sequence: u32,
) -> (r: Result<GovProposal, ContractError>)
    ensures
        r == approval_outcome(stored_schema, *roles, approver, proposal, ledger_sequence),
{
    let p = check_proposal(stored_schema, roles, approver, proposal, ledger_sequence)?;
    match p.status {
        GovProposalStatus::Cancelled | GovProposalStatus::Executed
        | GovProposalStatus::Approved => return Err(ContractError::GovInvalidState),
        GovProposalStatus::Expired => return Err(ContractError::ProposalExpired),
        GovProposalStatus::Pending => {},
    }
    if p.proposer == approver {
        return Err(ContractError::GovInvalidState);
    }
    Ok(
        GovProposal {
            id: p.id,
            proposer: p.proposer,
            approver: Some(approver),
            action: p.action,
            created_at_ledger: p.created_at_ledger,
            expires_at_ledger: p.expires_at_ledger,
            status: GovProposalStatus::Approved,
        },
    )
}

/// What governance actions change.
#[derive(Clone, Copy, Debug, PartialEq, Eq, Structural)]
pub struct GovState {
    pub runtime_mode: RuntimeMode,
    pub protocol_fee_bps: Option<u32>,
    /// The protocol fee treasury balance.
    pub treasury: i128,
    pub treasury_address: Option<u64>,
    pub admin: Option<u64>,
    pub oracle: Option<u64>,
}

/// The state after an action takes effect, with the withdrawal recipient's
/// new balance (unchanged by other actions).
pub open spec fn action_effect(action: GovAction, s: GovState, recipient_balance: i128) -> Result<
    (GovState, i128),
    ContractError,
> {
    match action {
        GovAction::PauseProtocol => Ok(
            (GovState { runtime_mode: RuntimeMode::FullyPaused, ..s }, recipient_balance),
        ),
        GovAction::UnpauseProtocol => Ok(
            (GovState { runtime_mode: RuntimeMode::Normal, ..s }, recipient_balance),
        ),
        GovAction::SetProtocolFeeBps(bps) => match protocol_fee_check(bps) {
            Err(e) => Err(e),
            Ok(_) => Ok((GovState { protocol_fee_bps: bps, ..s }, recipient_balance)),
        },
        GovAction::WithdrawProtocolFee(_, amount) => match withdraw_fee_effect(
            s.treasury,
            recipient_balance,
            amount,
        ) {
            Err(e) => Err(e),
            Ok((t, b)) => Ok((GovState { treasury: t, ..s }, b)),
        },
        GovAction::SetTreasuryAddress(t) => Ok(
            (GovState { treasury_address: Some(t), ..s }, recipient_balance),
        ),
        GovAction::SetAdmin(a) => Ok((GovState { admin: Some(a), ..s }, recipient_balance)),
        GovAction::SetOracle(o) => Ok((GovState { oracle: Some(o), ..s }, recipient_balance)),
    }
}

/// A fee withdrawal approved by governance: a positive amount held by the
/// treasury moves to the recipient. Returns the new treasury and the
/// recipient's new balance.
pub open spec fn withdraw_fee_effect(treasury: i128, recipient_balance: i128, amount: i128) -> Result<
    (i128, i128),
    ContractError,
> {
    if amount <= 0 {
        Err(ContractError::InvalidBetAmount)
    } else if amount > treasury {
        Err(ContractError::InsufficientBalance)
    } else {
        match payout_add_spec(recipient_balance, amount) {
            Err(e) => Err(e),
            Ok(b) => Ok(((treasury - amount) as i128, b)),
        }
    }
}

fn _execute_withdraw_fee(treasury: i128, recipient_balance: i128, amount: i128) -> (r: Result<
    (i128, i128),
    ContractError,
>)
    ensures
        r == withdraw_fee_effect(treasury, recipient_balance, amount),
{
    if amount <= 0 {
        return Err(ContractError::InvalidBetAmount);
    }
    if amount > treasury {
        return Err(ContractError::InsufficientBalance);
    }
    let b = payout_add(recipient_balance, amount)?;
    Ok((treasury - amount, b))
}

fn apply_action(action: GovAction, s: GovState, recipient_balance: i128) -> (r: Result<
    (GovState, i128),
    ContractError,
>)
    ensures
        r == action_effect(action, s, recipient_balance),
{
    let mut s = s;
    match action {
        GovAction::PauseProtocol => {
            s.runtime_mode = RuntimeMode::FullyPaused;
            Ok((s, recipient_balance))
        },
        GovAction::UnpauseProtocol => {
            s.runtime_mode = RuntimeMode::Normal;
            Ok((s, recipient_balance))
        },
        GovAction::SetProtocolFeeBps(bps) => {
            _validate_protocol_fee_bps(bps)?;
            s.protocol_fee_bps = bps;
            Ok((s, recipient_balance))
        },
        GovAction::WithdrawProtocolFee(_, amount) => {
            let (t, b) = _execute_withdraw_fee(s.treasury, recipient_balance, amount)?;
            s.treasury = t;
            Ok((s, b))
        },
        GovAction::SetTreasuryAddress(t) => {
            s.treasury_address = Some(t);
            Ok((s, recipient_balance))
        },
        GovAction::SetAdmin(a) => {
            s.admin = Some(a);
            Ok((s, recipient_balance))
        },
        GovAction::SetOracle(o) => {
            s.oracle = Some(o);
            Ok((s, recipient_balance))
        },
    }
}

/// The outcome of an execution: only an approved, unexpired proposal runs,
/// and it is marked executed once its action took effect.
pub open spec fn execution_outcome(
    stored_schema: Option<u32>,
    roles: GovRoles,
    executor: u64,
    proposal: Option<GovProposal>,
    ledger_sequence: u32,
    state: GovState,
    recipient_balance: i128,
) -> Result<(GovProposal, GovState, i128), ContractError> {
    match proposal_gate(stored_schema, roles, executor, proposal, ledger_sequence) {
        Err(e) => Err(e),
        Ok(p) => match p.status {
            GovProposalStatus::Expired => Err(ContractError::ProposalExpired),
            GovProposalStatus::Approved => match action_effect(
                p.action,
                state,
                recipient_balance,
            ) {
                Err(e) => Err(e),
                Ok((s, b)) => Ok((GovProposal { status: GovProposalStatus::Executed, ..p }, s, b)),
            },
            _ => Err(ContractError::GovInvalidState),
        },
    }
}

/// Executes an approved proposal. `recipient_balance` is the balance of
/// the recipient of a fee withdrawal (ignored by other actions). Returns
/// the executed proposal, the new state and the recipient's new balance.
pub fn execute(
    stored_schema: Option<u32>,
    roles: &GovRoles,
    executor: u64,
    proposal: Option<GovProposal>,
    ledger_sequence: u32,
    state: GovState,
    recipient_balance: i128,
) -> (r: Result<(GovProposal, GovState, i128), ContractError>)
    ensures
        r == execution_outcome(
            stored_schema,
            *roles,
            executor,
            proposal,
            ledger_sequence,
            state,
            recipient_balance,
        ),
{
    let p = check_proposal(stored_schema, roles, executor, proposal, ledger_sequence)?;
    match p.status {
        GovProposalStatus::Cancelled | GovProposalStatus::Executed
        | GovProposalStatus::Pending => return Err(ContractError::GovInvalidState),
        GovProposalStatus::Expired => return Err(ContractError::ProposalExpired),
        GovProposalStatus::Approved => {},
    }
    let (s, b) = apply_action(p.action, state, recipient_balance)?;
    Ok(
        (
            GovProposal {
                id: p.id,
                proposer: p.proposer,
                approver: p.approver,
                action: p.action,
                created_at_ledger: p.created_at_ledger,
                expires_at_ledger: p.expires_at_ledger,
                status: GovProposalStatus::Executed,
            },
            s,
            b,
        ),
    )
}

/// The outcome of a cancellation: any proposal not yet executed or
/// cancelled can be cancelled by a governance user.
pub open spec fn cancellation_outcome(
    stored_schema: Option<u32>,
    roles: GovRoles,
    canceller: u64,
    proposal: Option<GovProposal>,
) -> Result<GovProposal, ContractError> {
    if !schema_supported(stored_schema) {
        Err(ContractError::UnsupportedSchemaVersion)
    } else if !gov_user(roles, canceller) {
        Err(ContractError::GovUnauthorized)
    } else if proposal is None {
        Err(ContractError::ProposalNotFound)
    } else if proposal->0.status == GovProposalStatus::Executed || proposal->0.status
        == GovProposalStatus::Cancelled {
        Err(ContractError::GovInvalidState)
    } else {
        Ok(GovProposal { status: GovProposalStatus::Cancelled, ..proposal->0 })
    }
}

/// Cancels a proposal that was neither executed nor cancelled.
pub fn cancel(stored_schema: Option<u32>, roles: &GovRoles, canceller: u64, proposal: Option<
    GovProposal,
>) -> (r: Result<GovProposal, ContractError>)
    ensures
        r == cancellation_outcome(stored_schema, *roles, canceller, proposal),
{
    _require_supported_schema(stored_schema)?;
    if !_is_authorized_gov_user(roles, canceller) {
        return Err(ContractError::GovUnauthorized);
    }
    let p = match proposal {
        Some(p) => p,
        None => return Err(ContractError::ProposalNotFound),
    };
    match p.status {
        GovProposalStatus::Executed | GovProposalStatus::Cancelled => {
            return Err(ContractError::GovInvalidState);
        },
        _ => {},
    }
    Ok(
        GovProposal {
            id: p.id,
            proposer: p.proposer,
            approver: p.approver,
            action: p.action,
            created_at_ledger: p.created_at_ledger,
            expires_at_ledger: p.expires_at_ledger,
            status: GovProposalStatus::Cancelled,
        },
    )
}

/// The status a proposal reports at a ledger: a pending or approved one
/// past its expiry reads as expired.
pub open spec fn effective_status(p: GovProposal, ledger_sequence: u32) -> GovProposalStatus {
    if (p.status == GovProposalStatus::Pending || p.status == GovProposalStatus::Approved)
        && ledger_sequence > p.expires_at_ledger {
        GovProposalStatus::Expired
    } else {
        p.status
    }
}

/// A proposal as it reads at a ledger.
pub fn get_gov_proposal(proposal: Option<GovProposal>, ledger_sequence: u32) -> (r: Option<
    GovProposal,
>)
    ensures
        r == (match proposal {
            None => None,
            Some(p) => Some(GovProposal { status: effective_status(p, ledger_sequence), ..p }),
        }),
{
    match proposal {
        None => None,
        Some(p) => {
            let expired = (p.status == GovProposalStatus::Pending || p.status
                == GovProposalStatus::Approved) && ledger_sequence > p.expires_at_ledger;
            let status = if expired {
                GovProposalStatus::Expired
            } else {
                p.status
            };
            Some(
                GovProposal {
                    id: p.id,
                    proposer: p.proposer,
                    approver: p.approver,
                    action: p.action,
                    created_at_ledger: p.created_at_ledger,
                    expires_at_ledger: p.expires_at_ledger,
                    status,
                },
            )
        },
    }
}

/// Dual control: an approval records an approver who is a governance user
/// other than the proposer, and only an approved proposal is ever executed
/// (its approver kept); so no single user can both propose and carry out.
pub proof fn law_dual_control(
    stored_schema: Option<u32>,
    roles: GovRoles,
    user: u64,
    proposal: Option<GovProposal>,
    ledger_sequence: u32,
    state: GovState,
    recipient_balance: i128,
)
    ensures
        approval_outcome(stored_schema, roles, user, proposal, ledger_sequence) is Ok ==> {
            let a = approval_outcome(stored_schema, roles, user, proposal, ledger_sequence)->Ok_0;
            &&& proposal->0.status == GovProposalStatus::Pending
            &&& a.status == GovProposalStatus::Approved
            &&& a.approver == Some(user)
            &&& a.proposer != user
            &&& gov_user(roles, user)
        },
        execution_outcome(
            stored_schema,
            roles,
            user,
            proposal,
            ledger_sequence,
            state,
            recipient_balance,
        ) is Ok ==> {
            let (e, _, _) = execution_outcome(
                stored_schema,
                roles,
                user,
                proposal,
                ledger_sequence,
                state,
                recipient_balance,
            )->Ok_0;
            &&& proposal->0.status == GovProposalStatus::Approved
            &&& e.status == GovProposalStatus::Executed
            &&& e.approver == proposal->0.approver
        },
{
}

/// Executed and cancelled proposals are final: approving, executing or
/// cancelling them again is refused; and nothing is approved or executed
/// after its expiry ledger.
pub proof fn law_terminal_and_expiry(
    stored_schema: Option<u32>,
    roles: GovRoles,
    user: u64,
    p: GovProposal,
    ledger_sequence: u32,
    state: GovState,
    recipient_balance: i128,
)
    ensures
        (p.status == GovProposalStatus::Executed || p.status == GovProposalStatus::Cancelled) ==> {
            &&& approval_outcome(stored_schema, roles, user, Some(p), ledger_sequence) is Err
            &&& execution_outcome(
                stored_schema,
                roles,
                user,
                Some(p),
                ledger_sequence,
                state,
                recipient_balance,
            ) is Err
            &&& cancellation_outcome(stored_schema, roles, user, Some(p)) is Err
        },
        ledger_sequence > p.expires_at_ledger ==> {
            &&& approval_outcome(stored_schema, roles, user, Some(p), ledger_sequence) is Err
            &&& execution_outcome(
                stored_schema,
                roles,
                user,
                Some(p),
                ledger_sequence,
                state,
                recipient_balance,
            ) is Err
        },
{
}

/// A governed fee withdrawal moves exactly the amount from the treasury to
/// the recipient.
pub proof fn law_governed_withdrawal_conserves(
    recipient: u64,
    amount: i128,
    state: GovState,
    recipient_balance: i128,
)
    requires
        action_effect(GovAction::WithdrawProtocolFee(recipient, amount), state, recipient_balance)
            is Ok,
    ensures
        ({
            let (s, b) = action_effect(
                GovAction::WithdrawProtocolFee(recipient, amount),
                state,
                recipient_balance,
            )->Ok_0;
            &&& s.treasury + b == state.treasury + recipient_balance
            &&& s.treasury >= 0
        }),
{
}

} // verus!
