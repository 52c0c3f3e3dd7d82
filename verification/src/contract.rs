//! The contract's own rules that are not delegated to a module: the
//! two-step oracle rotation, the protocol and round status queries, and
//! the contract type with its internal helpers.
use vstd::prelude::*;

use crate::admin::{
    _ensure_not_paused, _policy_gate, _require_supported_schema, admin_gate, blocks,
    require_admin_action, schema_supported, AdminContext, PolicyAction, RuntimeMode,
};
use crate::config::{
    _validate_max_stake, _validate_oracle_max_deviation_bps, _validate_oracle_stale_threshold,
    _validate_protocol_fee_bps, _validate_windows, cap_check, deviation_bps_check,
    protocol_fee_check, stale_threshold_check, windows_check,
};
use crate::errors::ContractError;
use crate::math_common::{fits_i128, payout_add_spec, payout_mul_spec};
use crate::settlement_math::{compute_updown_fee, updown_fee};
use crate::round::{round_phase, Round, RoundPhase};
use crate::settlement::OneSidedPolicy;

verus! {

/// The least time between proposing and accepting an oracle rotation.
pub const MIN_ROTATION_DELAY_SECONDS: u64 = 3_600;

/// The least expiry window a rotation proposal may be given.
pub const MIN_ROTATION_EXPIRY_SECONDS: u64 = 60;

/// A proposed change of the oracle.
#[derive(Clone, Copy, Debug, PartialEq, Eq, Structural)]
pub struct OracleRotationProposal {
    pub new_oracle: u64,
    pub proposed_at: u64,
    pub expires_at: u64,
}

/// The outcome of proposing an oracle rotation at time `now`: refused by the
/// admin gate, `InvalidDuration` for an expiry under the minimum expiry,
/// `Overflow` when the expiry time does not fit; otherwise the proposal.
pub open spec fn rotation_proposal(
    ctx: AdminContext,
    new_oracle: u64,
    expires_in_seconds: u64,
    now: u64,
) -> Result<OracleRotationProposal, ContractError> {
    match admin_gate(ctx) {
        Err(e) => Err(e),
        Ok(_) => if expires_in_seconds < MIN_ROTATION_EXPIRY_SECONDS {
            Err(ContractError::InvalidDuration)
        } else if now + expires_in_seconds > u64::MAX {
            Err(ContractError::Overflow)
        } else {
            Ok(
                OracleRotationProposal {
                    new_oracle,
                    proposed_at: now,
                    expires_at: (now + expires_in_seconds) as u64,
                },
            )
        },
    }
}

/// Proposes a new oracle (admin only), acceptable until `expires_in_seconds`
/// from now; the expiry must be at least `MIN_ROTATION_EXPIRY_SECONDS`.
pub fn propose_oracle_rotation(
    ctx: &AdminContext,
    new_oracle: u64,
    expires_in_seconds: u64,
    now: u64,
) -> (r: Result<OracleRotationProposal, ContractError>)
    ensures
        r == rotation_proposal(*ctx, new_oracle, expires_in_seconds, now),
{
    require_admin_action(ctx)?;
    if expires_in_seconds < MIN_ROTATION_EXPIRY_SECONDS {
        return Err(ContractError::InvalidDuration);
    }
    let expires_at = match now.checked_add(expires_in_seconds) {
        Some(e) => e,
        None => return Err(ContractError::Overflow),
    };
    Ok(OracleRotationProposal { new_oracle, proposed_at: now, expires_at })
}

/// The outcome of accepting the pending rotation (anyone may): only after
/// the rotation delay and not after expiry; returns the new oracle.
pub open spec fn rotation_acceptance(
    stored_schema: Option<u32>,
    runtime_mode: RuntimeMode,
    proposal: Option<OracleRotationProposal>,
    oracle: Option<u64>,
    now: u64,
) -> Result<u64, ContractError> {
    if !schema_supported(stored_schema) {
        Err(ContractError::UnsupportedSchemaVersion)
    } else if runtime_mode == RuntimeMode::FullyPaused {
        Err(ContractError::ContractPaused)
    } else if proposal is None {
        Err(ContractError::NoPendingRotation)
    } else if proposal->0.proposed_at + MIN_ROTATION_DELAY_SECONDS > u64::MAX {
        Err(ContractError::Overflow)
    } else if now < proposal->0.proposed_at + MIN_ROTATION_DELAY_SECONDS {
        Err(ContractError::RotationDelayNotElapsed)
    } else if now > proposal->0.expires_at {
        Err(ContractError::NoPendingRotation)
    } else if oracle is None {
        Err(ContractError::OracleNotSet)
    } else {
        Ok(proposal->0.new_oracle)
    }
}

/// Accepts the pending oracle rotation.
pub fn accept_oracle_rotation(
    stored_schema: Option<u32>,
    runtime_mode: RuntimeMode,
    proposal: Option<OracleRotationProposal>,
    oracle: Option<u64>,
    now: u64,
) -> (r: Result<u64, ContractError>)
    ensures
        r == rotation_acceptance(stored_schema, runtime_mode, proposal, oracle, now),
{
    _require_supported_schema(stored_schema)?;
    _ensure_not_paused(runtime_mode)?;
    let p = match proposal {
        Some(p) => p,
        None => return Err(ContractError::NoPendingRotation),
    };
    let earliest = match p.proposed_at.checked_add(MIN_ROTATION_DELAY_SECONDS) {
        Some(e) => e,
        None => return Err(ContractError::Overflow),
    };
    if now < earliest {
        return Err(ContractError::RotationDelayNotElapsed);
    }
    if now > p.expires_at {
        return Err(ContractError::NoPendingRotation);
    }
    if oracle.is_none() {
        return Err(ContractError::OracleNotSet);
    }
    Ok(p.new_oracle)
}

/// A proposal whose expiry window is shorter than the rotation delay can
/// never be accepted: before the delay has passed acceptance is refused as
/// too early, and afterwards the proposal has expired.
pub proof fn law_short_expiry_never_accepted(
    ctx: AdminContext,
    new_oracle: u64,
    expires_in_seconds: u64,
    proposed_now: u64,
    stored_schema: Option<u32>,
    runtime_mode: RuntimeMode,
    oracle: Option<u64>,
    now: u64,
)
    requires
        rotation_proposal(ctx, new_oracle, expires_in_seconds, proposed_now) is Ok,
        expires_in_seconds < MIN_ROTATION_DELAY_SECONDS,
    ensures
        rotation_acceptance(
            stored_schema,
            runtime_mode,
            Some(rotation_proposal(ctx, new_oracle, expires_in_seconds, proposed_now)->Ok_0),
            oracle,
            now,
        ) is Err,
{
}

/// Withdraws the pending rotation (admin only).
pub fn cancel_oracle_rotation(ctx: &AdminContext, proposal: Option<OracleRotationProposal>) -> (r:
    Result<(), ContractError>)
    ensures
        r == (match admin_gate(*ctx) {
            Err(e) => Err(e),
            Ok(_) => if proposal is None {
                Err(ContractError::NoPendingRotation)
            } else {
                Ok(())
            },
        }),
{
    require_admin_action(ctx)?;
    if proposal.is_none() {
        return Err(ContractError::NoPendingRotation);
    }
    Ok(())
}

/// The pending rotation as it reads now: none once expired.
pub fn get_oracle_rotation_proposal(proposal: Option<OracleRotationProposal>, now: u64) -> (r:
    Option<OracleRotationProposal>)
    ensures
        r == (match proposal {
            Some(p) => if now > p.expires_at {
                None
            } else {
                Some(p)
            },
            None => None,
        }),
{
    match proposal {
        Some(p) => if now > p.expires_at {
            None
        } else {
            Some(p)
        },
        None => None,
    }
}

/// A rotation never takes effect within the delay after it was proposed,
/// nor after it expired.
pub proof fn law_rotation_window(
    stored_schema: Option<u32>,
    runtime_mode: RuntimeMode,
    proposal: Option<OracleRotationProposal>,
    oracle: Option<u64>,
    now: u64,
)
    requires
        rotation_acceptance(stored_schema, runtime_mode, proposal, oracle, now) is Ok,
    ensures
        proposal->0.proposed_at + MIN_ROTATION_DELAY_SECONDS <= now <= proposal->0.expires_at,
        rotation_acceptance(stored_schema, runtime_mode, proposal, oracle, now)->Ok_0
            == proposal->0.new_oracle,
{
}

// ─── Status queries ─────────────────────────────────────────────────────────

/// The protocol's overall status.
#[derive(Clone, Copy, Debug, PartialEq, Eq, Structural)]
pub enum ProtocolStatus {
    Active,
    Paused,
    ClaimsOnly,
}

/// Paused first; otherwise active while a round is open, else claims only.
pub fn get_protocol_status(runtime_mode: RuntimeMode, has_active_round: bool) -> (s: ProtocolStatus)
    ensures
        s == (if runtime_mode == RuntimeMode::FullyPaused {
            ProtocolStatus::Paused
        } else if has_active_round {
            ProtocolStatus::Active
        } else {
            ProtocolStatus::ClaimsOnly
        }),
{
    if runtime_mode == RuntimeMode::FullyPaused {
        ProtocolStatus::Paused
    } else if has_active_round {
        ProtocolStatus::Active
    } else {
        ProtocolStatus::ClaimsOnly
    }
}

/// How an archived round ended.
#[derive(Clone, Copy, Debug, PartialEq, Eq, Structural)]
pub enum RoundArchiveStatus {
    Resolved,
    Cancelled,
    FallbackRefund,
    Voided,
}

/// The status of a round, live or archived.
#[derive(Clone, Copy, Debug, PartialEq, Eq, Structural)]
pub enum RoundStatus {
    Unknown,
    Betting,
    Running,
    AwaitingResolve,
    Resolved,
    Cancelled,
    FallbackRefund,
    Voided,
}

/// The status of `round_id`: derived from the ledger when it is the active
/// round, else from its archive entry, else cancelled when so marked,
/// else unknown.
pub open spec fn round_status(
    active: Option<Round>,
    round_id: u64,
    archived: Option<RoundArchiveStatus>,
    cancelled: bool,
    ledger_sequence: u32,
) -> RoundStatus {
    if active is Some && active->0.round_id == round_id {
        match round_phase(ledger_sequence, active->0) {
            RoundPhase::Betting => RoundStatus::Betting,
            RoundPhase::Running => RoundStatus::Running,
            RoundPhase::Resolvable => RoundStatus::AwaitingResolve,
        }
    } else {
        match archived {
            Some(RoundArchiveStatus::Resolved) => RoundStatus::Resolved,
            Some(RoundArchiveStatus::Cancelled) => RoundStatus::Cancelled,
            Some(RoundArchiveStatus::FallbackRefund) => RoundStatus::FallbackRefund,
            Some(RoundArchiveStatus::Voided) => RoundStatus::Voided,
            None => if cancelled {
                RoundStatus::Cancelled
            } else {
                RoundStatus::Unknown
            },
        }
    }
}

/// Reports the status of a round.
pub fn get_round_status(
    active: Option<Round>,
    round_id: u64,
    archived: Option<RoundArchiveStatus>,
    cancelled: bool,
    ledger_sequence: u32,
) -> (s: RoundStatus)
    ensures
        s == round_status(active, round_id, archived, cancelled, ledger_sequence),
{
    if let Some(r) = active {
        if r.round_id == round_id {
            return match crate::round::_derive_round_phase(ledger_sequence, &r) {
                RoundPhase::Betting => RoundStatus::Betting,
                RoundPhase::Running => RoundStatus::Running,
                RoundPhase::Resolvable => RoundStatus::AwaitingResolve,
            };
        }
    }
    match archived {
        Some(RoundArchiveStatus::Resolved) => RoundStatus::Resolved,
        Some(RoundArchiveStatus::Cancelled) => RoundStatus::Cancelled,
        Some(RoundArchiveStatus::FallbackRefund) => RoundStatus::FallbackRefund,
        Some(RoundArchiveStatus::Voided) => RoundStatus::Voided,
        None => if cancelled {
            RoundStatus::Cancelled
        } else {
            RoundStatus::Unknown
        },
    }
}

/// The one-sided policy in force: always a refund.
pub fn get_one_sided_policy(active: Option<Round>) -> (p: OneSidedPolicy)
    ensures
        p == OneSidedPolicy::Refund,
{
    match active {
        Some(r) => crate::settlement::_select_one_sided_policy(&r),
        None => OneSidedPolicy::Refund,
    }
}

// ─── The contract type ──────────────────────────────────────────────────────

/// The prediction-market contract.
pub struct VirtualTokenContract;

/// The protocol fee treasury after collecting `fee`; a fee that is not
/// positive leaves it unchanged.
pub open spec fn treasury_after(treasury: i128, fee: i128) -> Result<i128, ContractError> {
    if fee <= 0 {
        Ok(treasury)
    } else if !fits_i128(treasury + fee) {
        Err(ContractError::Overflow)
    } else {
        Ok((treasury + fee) as i128)
    }
}

/// The fee the contract takes from a precision pot: `pot * bps / 10_000`,
/// nothing without a fee or for a pot that is not positive.
pub open spec fn contract_precision_fee(bps: Option<u32>, total_pot: i128) -> Result<
    (i128, i128),
    ContractError,
> {
    match bps {
        None => Ok((total_pot, 0)),
        Some(b) => if total_pot <= 0 {
            Ok((total_pot, 0))
        } else if !fits_i128(total_pot * b) {
            Err(ContractError::Overflow)
        } else {
            let fee = (total_pot * b) / 10_000;
            Ok(((total_pot - fee) as i128, fee as i128))
        },
    }
}

impl VirtualTokenContract {
    /// Credits a positive fee to the protocol fee treasury.
    pub fn _collect_protocol_fee(treasury: i128, fee_amount: i128) -> (r: Result<i128, ContractError>)
        ensures
            r == treasury_after(treasury, fee_amount),
    {
        if fee_amount <= 0 {
            return Ok(treasury);
        }
        match treasury.checked_add(fee_amount) {
            Some(t) => Ok(t),
            None => Err(ContractError::Overflow),
        }
    }

    /// Takes the protocol fee from an Up/Down pot (the losing pool first,
    /// then the winning one) and collects it. Returns the pools to pay out
    /// with the fee, and the new treasury.
    pub fn _apply_protocol_fee_updown(
        bps: Option<u32>,
        treasury: i128,
        winning_pool: i128,
        losing_pool: i128,
    ) -> (r: Result<((i128, i128, i128), i128), ContractError>)
        ensures
            r == (match updown_fee(winning_pool, losing_pool, bps) {
                Err(e) => Err(e),
                Ok((w, l, f)) => if f == 0 {
                    Ok(((w, l, f), treasury))
                } else {
                    match treasury_after(treasury, f) {
                        Err(e) => Err(e),
                        Ok(t) => Ok(((w, l, f), t)),
                    }
                },
            }),
            r matches Ok(((w, l, f), _)) ==> w + l + f == winning_pool + losing_pool,
    {
        let (w, l, f) = compute_updown_fee(winning_pool, losing_pool, bps)?;
        if f == 0 {
            return Ok(((w, l, f), treasury));
        }
        let t = Self::_collect_protocol_fee(treasury, f)?;
        Ok(((w, l, f), t))
    }

    /// Takes the protocol fee from a precision pot and collects it. Returns
    /// the distributable amount with the fee, and the new treasury.
    pub fn _apply_protocol_fee_precision(bps: Option<u32>, treasury: i128, total_pot: i128) -> (r:
        Result<((i128, i128), i128), ContractError>)
        ensures
            r == (match contract_precision_fee(bps, total_pot) {
                Err(e) => Err(e),
                Ok((d, f)) => match treasury_after(treasury, f) {
                    Err(e) => Err(e),
                    Ok(t) => Ok(((d, f), t)),
                },
            }),
            r matches Ok(((d, f), _)) ==> d + f == total_pot,
    {
        let b = match bps {
            Some(b) => b,
            None => return Ok(((total_pot, 0), treasury)),
        };
        if total_pot <= 0 {
            return Ok(((total_pot, 0), treasury));
        }
        let product = match total_pot.checked_mul(b as i128) {
            Some(p) => p,
            None => return Err(ContractError::Overflow),
        };
        let fee = product / 10_000;
        assert(0 <= fee <= product);
        let t = Self::_collect_protocol_fee(treasury, fee)?;
        Ok(((total_pot - fee, fee), t))
    }

    /// Checked addition of payout amounts.
    pub fn payout_add(a: i128, b: i128) -> (r: Result<i128, ContractError>)
        ensures
            r == payout_add_spec(a, b),
    {
        crate::math_common::payout_add(a, b)
    }

    /// Checked multiplication of payout amounts.
    pub fn payout_mul(a: i128, b: i128) -> (r: Result<i128, ContractError>)
        ensures
            r == payout_mul_spec(a, b),
    {
        crate::math_common::payout_mul(a, b)
    }

    /// The phase of a round at a ledger.
    pub fn _derive_round_phase(ledger_sequence: u32, round: &Round) -> (p: RoundPhase)
        ensures
            p == round_phase(ledger_sequence, *round),
    {
        crate::round::_derive_round_phase(ledger_sequence, round)
    }

    /// Validates the betting and running windows.
    pub fn _validate_windows(bet_ledgers: u32, run_ledgers: u32) -> (r: Result<(), ContractError>)
        ensures
            r == windows_check(bet_ledgers, run_ledgers),
    {
        _validate_windows(bet_ledgers, run_ledgers)
    }

    /// Validates a maximum stake.
    pub fn _validate_max_stake(max_amount: Option<i128>) -> (r: Result<(), ContractError>)
        ensures
            r == cap_check(max_amount),
    {
        _validate_max_stake(max_amount)
    }

    /// Validates an oracle staleness threshold.
    pub fn _validate_oracle_stale_threshold(seconds: u64) -> (r: Result<(), ContractError>)
        ensures
            r == stale_threshold_check(seconds),
    {
        _validate_oracle_stale_threshold(seconds)
    }

    /// Validates a maximum oracle deviation.
    pub fn _validate_oracle_max_deviation_bps(bps: Option<u32>) -> (r: Result<(), ContractError>)
        ensures
            r == deviation_bps_check(bps),
    {
        _validate_oracle_max_deviation_bps(bps)
    }

    /// Validates a protocol fee.
    pub fn _validate_protocol_fee_bps(bps: Option<u32>) -> (r: Result<(), ContractError>)
        ensures
            r == protocol_fee_check(bps),
    {
        _validate_protocol_fee_bps(bps)
    }

    /// Whether the policy gate admits `action` in `mode`.
    pub fn is_action_allowed(mode: RuntimeMode, action: PolicyAction) -> (b: bool)
        ensures
            b == !blocks(mode, action),
    {
        _policy_gate(mode, action).is_ok()
    }
}

} // verus!
