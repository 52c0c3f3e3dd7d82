//! Protocol configuration: validation rules, the fee models, the timelocked
//! configuration changes and the configuration they act on.
use vstd::prelude::*;

use crate::common::{
    DEFAULT_DISPUTE_LEDGERS, DEFAULT_MAX_PRECISION_PARTICIPANTS,
    MAX_ARCHIVE_RETENTION,
    MAX_BET_WINDOW_LEDGERS, MAX_CLOSE_BUFFER_LEDGERS, MAX_DISPUTE_LEDGERS, MAX_MIN_PARTICIPANTS,
    MAX_ORACLE_DEVIATION_BPS, MAX_ORACLE_STALE_THRESHOLD, MAX_ORACLE_TIMESTAMP_SKEW,
    MAX_PENDING_WINNINGS_EXPIRY, MAX_PRECISION_PARTICIPANTS_LIMIT, MAX_PROTOCOL_FEE_BPS,
    MAX_RUN_WINDOW_LEDGERS, MAX_START_PRICE, MIN_ARCHIVE_RETENTION, MIN_CAP_VALUE,
    MIN_ORACLE_STALE_THRESHOLD, MIN_ORACLE_TIMESTAMP_SKEW, MIN_PENDING_WINNINGS_EXPIRY,
    MIN_START_PRICE,
};
use crate::admin::{admin_gate, require_admin_action, AdminContext, RuntimeMode};
use crate::errors::ContractError;
use crate::math_common::{
    div_trunc, div_trunc_i128, fits_i128, payout_add, payout_add_spec, BPS_DENOMINATOR,
};
use crate::round::{create_round_outcome, RoundCreationContext, RoundTemplate};
use crate::settlement_math::{updown_fee, PrecisionPayoutPolicy};
use crate::insurance::{_collect_protocol_fee, fee_collected, FeeLedger};

verus! {

// ─── Validation rules ───────────────────────────────────────────────────────

/// Pending-winnings expiry: `0` disables it, otherwise it lies within the
/// allowed range.
pub fn _validate_pending_winnings_expiry(ledgers: u32) -> (r: Result<(), ContractError>)
    ensures
        r == (if ledgers != 0 && (ledgers < MIN_PENDING_WINNINGS_EXPIRY || ledgers
            > MAX_PENDING_WINNINGS_EXPIRY) {
            Err(ContractError::InvalidDuration)
        } else {
            Ok(())
        }),
{
    if ledgers != 0 && (ledgers < MIN_PENDING_WINNINGS_EXPIRY || ledgers
        > MAX_PENDING_WINNINGS_EXPIRY) {
        return Err(ContractError::InvalidDuration);
    }
    Ok(())
}

/// A round template: a start price within bounds and mode 0 or 1.
pub open spec fn round_template_check(start_price: u128, mode: Option<u32>) -> Result<(), ContractError> {
    if start_price < MIN_START_PRICE || start_price > MAX_START_PRICE {
        Err(ContractError::InvalidStartPrice)
    } else if mode matches Some(m) && m > 1 {
        Err(ContractError::InvalidMode)
    } else {
        Ok(())
    }
}

/// Validates a round template with the rules round creation applies.
pub fn _validate_round_template(start_price: u128, mode: Option<u32>) -> (r: Result<(), ContractError>)
    ensures
        r == round_template_check(start_price, mode),
{
    if start_price < MIN_START_PRICE || start_price > MAX_START_PRICE {
        return Err(ContractError::InvalidStartPrice);
    }
    if let Some(m) = mode {
        if m > 1 {
            return Err(ContractError::InvalidMode);
        }
    }
    Ok(())
}

/// Betting and running windows: both non-zero, within their maxima, and the
/// betting window strictly shorter than the running window.
pub open spec fn windows_check(bet_ledgers: u32, run_ledgers: u32) -> Result<(), ContractError> {
    if bet_ledgers == 0 || run_ledgers == 0 {
        Err(ContractError::InvalidDuration)
    } else if bet_ledgers > MAX_BET_WINDOW_LEDGERS || run_ledgers > MAX_RUN_WINDOW_LEDGERS {
        Err(ContractError::WindowOutOfRange)
    } else if bet_ledgers >= run_ledgers {
        Err(ContractError::InvalidDuration)
    } else {
        Ok(())
    }
}

/// Validates the betting and running windows.
pub fn _validate_windows(bet_ledgers: u32, run_ledgers: u32) -> (r: Result<(), ContractError>)
    ensures
        r == windows_check(bet_ledgers, run_ledgers),
{
    if bet_ledgers == 0 || run_ledgers == 0 {
        return Err(ContractError::InvalidDuration);
    }
    if bet_ledgers > MAX_BET_WINDOW_LEDGERS || run_ledgers > MAX_RUN_WINDOW_LEDGERS {
        return Err(ContractError::WindowOutOfRange);
    }
    if bet_ledgers >= run_ledgers {
        return Err(ContractError::InvalidDuration);
    }
    Ok(())
}

/// The close buffer is at most its maximum.
pub fn _validate_close_buffer_ledgers(buffer_ledgers: u32) -> (r: Result<(), ContractError>)
    ensures
        r == (if buffer_ledgers > MAX_CLOSE_BUFFER_LEDGERS {
            Err(ContractError::WindowOutOfRange)
        } else {
            Ok(())
        }),
{
    if buffer_ledgers > MAX_CLOSE_BUFFER_LEDGERS {
        return Err(ContractError::WindowOutOfRange);
    }
    Ok(())
}

/// An amount cap: absent, or at least `MIN_CAP_VALUE`.
pub open spec fn cap_check(max_amount: Option<i128>) -> Result<(), ContractError> {
    if max_amount matches Some(v) && v < MIN_CAP_VALUE {
        Err(ContractError::InvalidBetAmount)
    } else {
        Ok(())
    }
}

/// Validates a stake, exposure or pending-winnings cap.
pub fn _validate_max_stake(max_amount: Option<i128>) -> (r: Result<(), ContractError>)
    ensures
        r == cap_check(max_amount),
{
    if let Some(v) = max_amount {
        if v < MIN_CAP_VALUE {
            return Err(ContractError::InvalidBetAmount);
        }
    }
    Ok(())
}

/// Validates the minimum bet: absent, or at least `MIN_CAP_VALUE`.
pub fn _validate_min_bet(min_amount: Option<i128>) -> (r: Result<(), ContractError>)
    ensures
        r == cap_check(min_amount),
{
    if let Some(v) = min_amount {
        if v < MIN_CAP_VALUE {
            return Err(ContractError::InvalidBetAmount);
        }
    }
    Ok(())
}

/// The oracle stale threshold lies within its range.
pub open spec fn stale_threshold_check(seconds: u64) -> Result<(), ContractError> {
    if MIN_ORACLE_STALE_THRESHOLD <= seconds <= MAX_ORACLE_STALE_THRESHOLD {
        Ok(())
    } else {
        Err(ContractError::InvalidDuration)
    }
}

/// Validates the oracle stale threshold.
pub fn _validate_oracle_stale_threshold(seconds: u64) -> (r: Result<(), ContractError>)
    ensures
        r == stale_threshold_check(seconds),
{
    if !(MIN_ORACLE_STALE_THRESHOLD <= seconds && seconds <= MAX_ORACLE_STALE_THRESHOLD) {
        return Err(ContractError::InvalidDuration);
    }
    Ok(())
}

/// The oracle timestamp skew lies within its range.
pub open spec fn timestamp_skew_check(seconds: u64) -> Result<(), ContractError> {
    if MIN_ORACLE_TIMESTAMP_SKEW <= seconds <= MAX_ORACLE_TIMESTAMP_SKEW {
        Ok(())
    } else {
        Err(ContractError::InvalidDuration)
    }
}

/// Validates the oracle timestamp skew.
pub fn _validate_oracle_timestamp_skew(seconds: u64) -> (r: Result<(), ContractError>)
    ensures
        r == timestamp_skew_check(seconds),
{
    if !(MIN_ORACLE_TIMESTAMP_SKEW <= seconds && seconds <= MAX_ORACLE_TIMESTAMP_SKEW) {
        return Err(ContractError::InvalidDuration);
    }
    Ok(())
}

/// The maximum oracle deviation: absent, or in `1..=MAX_ORACLE_DEVIATION_BPS`.
pub open spec fn deviation_bps_check(bps: Option<u32>) -> Result<(), ContractError> {
    if bps matches Some(v) && (v == 0 || v > MAX_ORACLE_DEVIATION_BPS) {
        Err(ContractError::WindowOutOfRange)
    } else {
        Ok(())
    }
}

/// Validates the maximum oracle deviation.
pub fn _validate_oracle_max_deviation_bps(bps: Option<u32>) -> (r: Result<(), ContractError>)
    ensures
        r == deviation_bps_check(bps),
{
    if let Some(v) = bps {
        if v == 0 || v > MAX_ORACLE_DEVIATION_BPS {
            return Err(ContractError::WindowOutOfRange);
        }
    }
    Ok(())
}

/// A protocol fee: absent (disabled), or in `1..=MAX_PROTOCOL_FEE_BPS`.
pub open spec fn protocol_fee_check(bps: Option<u32>) -> Result<(), ContractError> {
    if bps matches Some(v) && (v == 0 || v > MAX_PROTOCOL_FEE_BPS) {
        Err(ContractError::InvalidProtocolFeeBps)
    } else {
        Ok(())
    }
}

/// Validates a protocol fee; `Some(0)` is refused, only `None` disables it.
pub fn _validate_protocol_fee_bps(bps: Option<u32>) -> (r: Result<(), ContractError>)
    ensures
        r == protocol_fee_check(bps),
{
    if let Some(v) = bps {
        if v == 0 || v > MAX_PROTOCOL_FEE_BPS {
            return Err(ContractError::InvalidProtocolFeeBps);
        }
    }
    Ok(())
}

// ─── Fee models ─────────────────────────────────────────────────────────────

/// Whether the protocol fee is charged on the whole pot or on the winnings.
#[derive(Clone, Copy, Debug, PartialEq, Eq, Structural)]
pub enum FeeModel {
    /// The fee is a share of the total pot (default).
    FeeOnPot,
    /// The fee is a share of the net winnings only.
    FeeOnWinnings,
}

/// The fee model used when none is configured.
pub open spec fn default_fee_model() -> FeeModel {
    FeeModel::FeeOnPot
}

/// The UpDown fee split `(dist_winning, dist_losing, fee)` under a fee model.
pub open spec fn protocol_fee_updown(
    bps: Option<u32>,
    model: FeeModel,
    winning_pool: i128,
    losing_pool: i128,
) -> Result<(i128, i128, i128), ContractError> {
    match model {
        FeeModel::FeeOnPot => updown_fee(winning_pool, losing_pool, bps),
        FeeModel::FeeOnWinnings => match bps {
            None => Ok((winning_pool, losing_pool, 0)),
            Some(b) => if !fits_i128(losing_pool * b) {
                Err(ContractError::Overflow)
            } else {
                let fee = div_trunc(losing_pool * b, 10_000);
                if fee == 0 {
                    Ok((winning_pool, losing_pool, 0))
                } else if !fits_i128(losing_pool - fee) {
                    Err(ContractError::Overflow)
                } else {
                    Ok((winning_pool, (losing_pool - fee) as i128, fee as i128))
                }
            },
        },
    }
}

/// Computes the UpDown protocol fee under a fee model: on the whole pot
/// (taken from the losing pool first) or on the losing pool only.
pub fn calculate_protocol_fee_updown(
    bps: Option<u32>,
    model: FeeModel,
    winning_pool: i128,
    losing_pool: i128,
) -> (r: Result<(i128, i128, i128), ContractError>)
    ensures
        r == protocol_fee_updown(bps, model, winning_pool, losing_pool),
        r matches Ok((dw, dl, fee)) ==> dw + dl + fee == winning_pool + losing_pool,
{
    if bps.is_none() {
        return Ok((winning_pool, losing_pool, 0));
    }
    let bps_value = bps.unwrap();
    let fee_amount = match model {
        FeeModel::FeeOnPot => {
            let total_pot = payout_add(winning_pool, losing_pool)?;
            match total_pot.checked_mul(bps_value as i128) {
                Some(p) => div_trunc_i128(p, BPS_DENOMINATOR),
                None => return Err(ContractError::Overflow),
            }
        },
        FeeModel::FeeOnWinnings => {
            match losing_pool.checked_mul(bps_value as i128) {
                Some(p) => div_trunc_i128(p, BPS_DENOMINATOR),
                None => return Err(ContractError::Overflow),
            }
        },
    };
    if fee_amount == 0 {
        return Ok((winning_pool, losing_pool, 0));
    }
    match model {
        FeeModel::FeeOnPot => {
            let fee_from_losing = if fee_amount <= losing_pool {
                fee_amount
            } else {
                losing_pool
            };
            let fee_from_winning = match fee_amount.checked_sub(fee_from_losing) {
                Some(v) => v,
                None => return Err(ContractError::Overflow),
            };
            let dist_winning = match winning_pool.checked_sub(fee_from_winning) {
                Some(v) => v,
                None => return Err(ContractError::Overflow),
            };
            let dist_losing = match losing_pool.checked_sub(fee_from_losing) {
                Some(v) => v,
                None => return Err(ContractError::Overflow),
            };
            Ok((dist_winning, dist_losing, fee_amount))
        },
        FeeModel::FeeOnWinnings => {
            let dist_losing = match losing_pool.checked_sub(fee_amount) {
                Some(v) => v,
                None => return Err(ContractError::Overflow),
            };
            Ok((winning_pool, dist_losing, fee_amount))
        },
    }
}

/// The Precision fee split `(distributable, fee)` under a fee model: on the
/// whole pot, or on the profit over the winners' stakes.
pub open spec fn protocol_fee_precision(
    bps: Option<u32>,
    model: FeeModel,
    total_pot: i128,
    winner_stakes: i128,
) -> Result<(i128, i128), ContractError> {
    match bps {
        None => Ok((total_pot, 0)),
        Some(b) => if total_pot <= 0 {
            Ok((total_pot, 0))
        } else {
            let base: int = match model {
                FeeModel::FeeOnPot => total_pot as int,
                FeeModel::FeeOnWinnings => total_pot - winner_stakes,
            };
            if model == FeeModel::FeeOnWinnings && !fits_i128(base) {
                Err(ContractError::Overflow)
            } else if base <= 0 {
                Ok((total_pot, 0))
            } else if !fits_i128(base * b) {
                Err(ContractError::Overflow)
            } else {
                let fee = (base * b) / 10_000;
                if fee == 0 {
                    Ok((total_pot, 0))
                } else if !fits_i128(total_pot - fee) {
                    Err(ContractError::Overflow)
                } else {
                    Ok(((total_pot - fee) as i128, fee as i128))
                }
            }
        },
    }
}

/// Computes the Precision protocol fee under a fee model.
pub fn calculate_protocol_fee_precision(
    bps: Option<u32>,
    model: FeeModel,
    total_pot: i128,
    winner_stakes: i128,
) -> (r: Result<(i128, i128), ContractError>)
    ensures
        r == protocol_fee_precision(bps, model, total_pot, winner_stakes),
        r matches Ok((dist, fee)) ==> dist + fee == total_pot && fee >= 0,
{
    if bps.is_none() || total_pot <= 0 {
        return Ok((total_pot, 0));
    }
    let bps_value = bps.unwrap();
    let taxable_base = match model {
        FeeModel::FeeOnPot => total_pot,
        FeeModel::FeeOnWinnings => {
            let profit = match total_pot.checked_sub(winner_stakes) {
                Some(v) => v,
                None => return Err(ContractError::Overflow),
            };
            if profit <= 0 {
                return Ok((total_pot, 0));
            }
            profit
        },
    };
    let product = match taxable_base.checked_mul(bps_value as i128) {
        Some(p) => p,
        None => return Err(ContractError::Overflow),
    };
    let fee_amount = product / BPS_DENOMINATOR;
    if fee_amount == 0 {
        return Ok((total_pot, 0));
    }
    let distributable = match total_pot.checked_sub(fee_amount) {
        Some(v) => v,
        None => return Err(ContractError::Overflow),
    };
    Ok((distributable, fee_amount))
}

/// The fee model in force: fee on the pot when none is stored.
pub fn _read_fee_model(stored: Option<FeeModel>) -> (m: FeeModel)
    ensures
        m == stored.unwrap_or(default_fee_model()),
{
    match stored {
        Some(m) => m,
        None => FeeModel::FeeOnPot,
    }
}

/// Takes the protocol fee from a settled Up/Down pot under the configured
/// fee and model, and collects it into the treasury and the insurance fund.
pub fn _apply_protocol_fee_updown(
    bps: Option<u32>,
    model: FeeModel,
    fees: FeeLedger,
    winning_pool: i128,
    losing_pool: i128,
) -> (r: Result<((i128, i128, i128), FeeLedger), ContractError>)
    ensures
        r == (match protocol_fee_updown(bps, model, winning_pool, losing_pool) {
            Err(e) => Err(e),
            Ok((w, l, f)) => if f > 0 {
                match fee_collected(fees, f) {
                    Err(e) => Err(e),
                    Ok(nf) => Ok(((w, l, f), nf)),
                }
            } else {
                Ok(((w, l, f), fees))
            },
        }),
{
    let (w, l, f) = calculate_protocol_fee_updown(bps, model, winning_pool, losing_pool)?;
    if f > 0 {
        let nf = _collect_protocol_fee(fees, f)?;
        return Ok(((w, l, f), nf));
    }
    Ok(((w, l, f), fees))
}

/// Takes the protocol fee from a settled precision pot under the configured
/// fee and model, and collects it into the treasury and the insurance fund.
pub fn _apply_protocol_fee_precision(
    bps: Option<u32>,
    model: FeeModel,
    fees: FeeLedger,
    total_pot: i128,
    winner_stakes: i128,
) -> (r: Result<((i128, i128), FeeLedger), ContractError>)
    ensures
        r == (match protocol_fee_precision(bps, model, total_pot, winner_stakes) {
            Err(e) => Err(e),
            Ok((d, f)) => if f > 0 {
                match fee_collected(fees, f) {
                    Err(e) => Err(e),
                    Ok(nf) => Ok(((d, f), nf)),
                }
            } else {
                Ok(((d, f), fees))
            },
        }),
{
    let (d, f) = calculate_protocol_fee_precision(bps, model, total_pot, winner_stakes)?;
    if f > 0 {
        let nf = _collect_protocol_fee(fees, f)?;
        return Ok(((d, f), nf));
    }
    Ok(((d, f), fees))
}

/// The stored payout-policy code as a policy: `1` is stake-weighted, any
/// other value equal.
pub fn _read_precision_payout_policy(code: u32) -> (p: PrecisionPayoutPolicy)
    ensures
        p == (if code == 1 {
            PrecisionPayoutPolicy::StakeWeighted
        } else {
            PrecisionPayoutPolicy::Equal
        }),
{
    if code == 1 {
        PrecisionPayoutPolicy::StakeWeighted
    } else {
        PrecisionPayoutPolicy::Equal
    }
}

} // verus!

verus! {

// ─── Direct (admin-only) settings ───────────────────────────────────────────

/// An admin-only setting: the admin gate first, then the setting's own
/// validation.
pub open spec fn admin_then<T>(ctx: AdminContext, r: Result<T, ContractError>) -> Result<
    T,
    ContractError,
> {
    match admin_gate(ctx) {
        Err(e) => Err(e),
        Ok(_) => r,
    }
}

/// Sets the fee incidence model (admin only).
pub fn set_fee_model(ctx: &AdminContext, model: FeeModel) -> (r: Result<FeeModel, ContractError>)
    ensures
        r == admin_then(*ctx, Ok(model)),
{
    require_admin_action(ctx)?;
    Ok(model)
}

/// The outcome of a direct fee withdrawal by the admin: only while no
/// governance approver is set, of a positive amount the treasury holds.
/// Returns the new treasury and the recipient's new balance.
pub open spec fn fee_withdrawal(
    ctx: AdminContext,
    gov_approver_set: bool,
    treasury: i128,
    recipient_balance: i128,
    amount: i128,
) -> Result<(i128, i128), ContractError> {
    if !crate::admin::schema_supported(ctx.stored_schema) {
        Err(ContractError::UnsupportedSchemaVersion)
    } else if !ctx.admin_set {
        Err(ContractError::AdminNotSet)
    } else if gov_approver_set {
        Err(ContractError::GovUnauthorized)
    } else if ctx.runtime_mode == RuntimeMode::FullyPaused {
        Err(ContractError::ContractPaused)
    } else if amount <= 0 {
        Err(ContractError::InvalidBetAmount)
    } else if amount > treasury {
        Err(ContractError::InsufficientBalance)
    } else {
        match payout_add_spec(recipient_balance, amount) {
            Err(e) => Err(e),
            Ok(b) => Ok(((treasury - amount) as i128, b)),
        }
    }
}

/// Withdraws protocol fees from the treasury to a recipient (admin only,
/// refused while dual governance is active).
pub fn withdraw_protocol_fee(
    ctx: &AdminContext,
    gov_approver_set: bool,
    treasury: i128,
    recipient_balance: i128,
    amount: i128,
) -> (r: Result<(i128, i128), ContractError>)
    ensures
        r == fee_withdrawal(*ctx, gov_approver_set, treasury, recipient_balance, amount),
{
    crate::admin::_require_supported_schema(ctx.stored_schema)?;
    if !ctx.admin_set {
        return Err(ContractError::AdminNotSet);
    }
    if gov_approver_set {
        return Err(ContractError::GovUnauthorized);
    }
    crate::admin::_ensure_not_paused(ctx.runtime_mode)?;
    if amount <= 0 {
        return Err(ContractError::InvalidBetAmount);
    }
    if amount > treasury {
        return Err(ContractError::InsufficientBalance);
    }
    let new_treasury = treasury - amount;
    let new_balance = payout_add(recipient_balance, amount)?;
    Ok((new_treasury, new_balance))
}

/// Sets the closing buffer before the bet window ends (admin only).
pub fn set_close_buffer_ledgers(ctx: &AdminContext, buffer_ledgers: u32) -> (r: Result<
    u32,
    ContractError,
>)
    ensures
        r == admin_then(
            *ctx,
            if buffer_ledgers > MAX_CLOSE_BUFFER_LEDGERS {
                Err(ContractError::WindowOutOfRange)
            } else {
                Ok(buffer_ledgers)
            },
        ),
{
    require_admin_action(ctx)?;
    _validate_close_buffer_ledgers(buffer_ledgers)?;
    Ok(buffer_ledgers)
}

/// Turns the sealed batch-auction mode on or off (admin only).
pub fn set_sealed_batch_auction(ctx: &AdminContext, enabled: bool) -> (r: Result<
    bool,
    ContractError,
>)
    ensures
        r == admin_then(*ctx, Ok(enabled)),
{
    require_admin_action(ctx)?;
    Ok(enabled)
}

/// Sets (or clears) the minimum number of participants (admin only).
pub fn set_min_participants(ctx: &AdminContext, min: Option<u32>) -> (r: Result<
    Option<u32>,
    ContractError,
>)
    ensures
        r == admin_then(
            *ctx,
            if min matches Some(v) && (v == 0 || v > MAX_MIN_PARTICIPANTS) {
                Err(ContractError::InvalidMinParticipants)
            } else {
                Ok(min)
            },
        ),
{
    require_admin_action(ctx)?;
    if let Some(v) = min {
        if v == 0 || v > MAX_MIN_PARTICIPANTS {
            return Err(ContractError::InvalidMinParticipants);
        }
    }
    Ok(min)
}

/// Sets the cap on Precision participants (admin only).
pub fn set_max_precision_participants(ctx: &AdminContext, max: u32) -> (r: Result<
    u32,
    ContractError,
>)
    ensures
        r == admin_then(
            *ctx,
            if max == 0 || max > MAX_PRECISION_PARTICIPANTS_LIMIT {
                Err(ContractError::InvalidPrecisionCap)
            } else {
                Ok(max)
            },
        ),
{
    require_admin_action(ctx)?;
    if max == 0 || max > MAX_PRECISION_PARTICIPANTS_LIMIT {
        return Err(ContractError::InvalidPrecisionCap);
    }
    Ok(max)
}

/// Sets the Precision payout policy by its code, 0 equal or 1
/// stake-weighted (admin only).
pub fn set_precision_payout_policy(ctx: &AdminContext, policy: u32) -> (r: Result<
    u32,
    ContractError,
>)
    ensures
        r == admin_then(
            *ctx,
            if policy > 1 {
                Err(ContractError::InvalidMode)
            } else {
                Ok(policy)
            },
        ),
{
    require_admin_action(ctx)?;
    if policy > 1 {
        return Err(ContractError::InvalidMode);
    }
    Ok(policy)
}

/// Sets the per-ledger mint limit, 0 for none (admin only).
pub fn set_mint_limit(ctx: &AdminContext, limit: u32) -> (r: Result<u32, ContractError>)
    ensures
        r == admin_then(*ctx, Ok(limit)),
{
    require_admin_action(ctx)?;
    Ok(limit)
}

/// Sets the per-epoch mint budget, 0 for none; never negative (admin only).
pub fn set_epoch_mint_budget(ctx: &AdminContext, budget: i128) -> (r: Result<
    i128,
    ContractError,
>)
    ensures
        r == admin_then(
            *ctx,
            if budget < 0 {
                Err(ContractError::InvalidBetAmount)
            } else {
                Ok(budget)
            },
        ),
{
    require_admin_action(ctx)?;
    if budget < 0 {
        return Err(ContractError::InvalidBetAmount);
    }
    Ok(budget)
}

/// Sets how many archived rounds are kept (admin only).
pub fn set_archive_retention(ctx: &AdminContext, limit: u32) -> (r: Result<u32, ContractError>)
    ensures
        r == admin_then(
            *ctx,
            if limit < MIN_ARCHIVE_RETENTION || limit > MAX_ARCHIVE_RETENTION {
                Err(ContractError::WindowOutOfRange)
            } else {
                Ok(limit)
            },
        ),
{
    require_admin_action(ctx)?;
    if limit < MIN_ARCHIVE_RETENTION || limit > MAX_ARCHIVE_RETENTION {
        return Err(ContractError::WindowOutOfRange);
    }
    Ok(limit)
}

/// Stores the template the keeper opens rounds from (admin only).
pub fn set_round_template(ctx: &AdminContext, start_price: u128, mode: Option<u32>) -> (r: Result<
    RoundTemplate,
    ContractError,
>)
    ensures
        r == admin_then(
            *ctx,
            match round_template_check(start_price, mode) {
                Err(e) => Err(e),
                Ok(_) => Ok(RoundTemplate { start_price, mode }),
            },
        ),
{
    require_admin_action(ctx)?;
    _validate_round_template(start_price, mode)?;
    Ok(RoundTemplate { start_price, mode })
}

/// Removes the round template (admin only); there must be one.
pub fn clear_round_template(ctx: &AdminContext, has_template: bool) -> (r: Result<
    (),
    ContractError,
>)
    ensures
        r == admin_then(
            *ctx,
            if !has_template {
                Err(ContractError::CommitmentNotFound)
            } else {
                Ok(())
            },
        ),
{
    require_admin_action(ctx)?;
    if !has_template {
        return Err(ContractError::CommitmentNotFound);
    }
    Ok(())
}

/// Sets the dispute window of resolved rounds, 0 for none (admin only).
pub fn set_dispute_ledgers(ctx: &AdminContext, ledgers: u32) -> (r: Result<u32, ContractError>)
    ensures
        r == admin_then(
            *ctx,
            if ledgers > MAX_DISPUTE_LEDGERS {
                Err(ContractError::WindowOutOfRange)
            } else {
                Ok(ledgers)
            },
        ),
{
    require_admin_action(ctx)?;
    if ledgers > MAX_DISPUTE_LEDGERS {
        return Err(ContractError::WindowOutOfRange);
    }
    Ok(ledgers)
}

/// Sets (or disables, with `None`) the early cash-out penalty (admin only).
pub fn set_early_cashout_bps(ctx: &AdminContext, bps: Option<u32>) -> (r: Result<
    Option<u32>,
    ContractError,
>)
    ensures
        r == admin_then(
            *ctx,
            if bps matches Some(v) && (v == 0 || v > MAX_PROTOCOL_FEE_BPS) {
                Err(ContractError::InvalidProtocolFeeBps)
            } else {
                Ok(bps)
            },
        ),
{
    require_admin_action(ctx)?;
    if let Some(v) = bps {
        if v == 0 || v > MAX_PROTOCOL_FEE_BPS {
            return Err(ContractError::InvalidProtocolFeeBps);
        }
    }
    Ok(bps)
}

/// The stored dispute window, 0 when unset.
pub fn get_dispute_ledgers(stored: Option<u32>) -> (l: u32)
    ensures
        l == stored.unwrap_or(DEFAULT_DISPUTE_LEDGERS),
{
    stored.unwrap_or(DEFAULT_DISPUTE_LEDGERS)
}

/// The stored cap on Precision participants, the default when unset.
pub fn get_max_precision_participants(stored: Option<u32>) -> (m: u32)
    ensures
        m == stored.unwrap_or(DEFAULT_MAX_PRECISION_PARTICIPANTS),
{
    stored.unwrap_or(DEFAULT_MAX_PRECISION_PARTICIPANTS)
}

/// A direct fee withdrawal moves exactly the amount from the treasury to
/// the recipient and never overdraws the treasury.
pub proof fn law_fee_withdrawal_conserves(
    ctx: AdminContext,
    gov_approver_set: bool,
    treasury: i128,
    recipient_balance: i128,
    amount: i128,
)
    requires
        fee_withdrawal(ctx, gov_approver_set, treasury, recipient_balance, amount) is Ok,
    ensures
        ({
            let (t, b) = fee_withdrawal(
                ctx,
                gov_approver_set,
                treasury,
                recipient_balance,
                amount,
            )->Ok_0;
            &&& t + b == treasury + recipient_balance
            &&& t >= 0
            &&& !gov_approver_set
        }),
{
}

/// A template that passes the template rules is never refused by round
/// creation for its price or its mode: the template rules are the rules of
/// round creation.
pub proof fn law_template_rules_match_creation(
    ctx: RoundCreationContext,
    start_price: u128,
    mode: Option<u32>,
)
    requires
        round_template_check(start_price, mode) is Ok,
    ensures
        create_round_outcome(ctx, start_price, mode) != Err::<crate::round::Round, ContractError>(
            ContractError::InvalidStartPrice,
        ),
        create_round_outcome(ctx, start_price, mode) != Err::<crate::round::Round, ContractError>(
            ContractError::InvalidMode,
        ),
{
}


/// The Precision protocol fee is the fee rate's share of its base, rounded
/// down: the whole pot under `FeeOnPot`, the winners' profit (the pot less
/// their stakes) under `FeeOnWinnings`, and nothing when there is no rate,
/// no pot or no positive base. The rest of the pot is distributable, and
/// the split succeeds whenever the base and its product with the rate fit.
pub proof fn law_precision_fee_is_share_of_base(
    bps: Option<u32>,
    model: FeeModel,
    total_pot: i128,
    winner_stakes: i128,
)
    ensures
        ({
            let base: int = match model {
                FeeModel::FeeOnPot => total_pot as int,
                FeeModel::FeeOnWinnings => total_pot as int - winner_stakes as int,
            };
            let fee: int = match bps {
                None => 0,
                Some(b) => if total_pot <= 0 || base <= 0 {
                    0
                } else {
                    (base * b) / 10_000
                },
            };
            &&& protocol_fee_precision(bps, model, total_pot, winner_stakes) matches Ok((d, f))
                ==> f == fee && d == total_pot - fee
            &&& (fits_i128(base) && (bps matches Some(b) ==> fits_i128(base * b)))
                ==> protocol_fee_precision(bps, model, total_pot, winner_stakes) is Ok
        }),
{
    if let Some(b) = bps {
        let base: int = match model {
            FeeModel::FeeOnPot => total_pot as int,
            FeeModel::FeeOnWinnings => total_pot as int - winner_stakes as int,
        };
        if total_pot > 0 && base > 0 {
            assert(0 <= (base * b) / 10_000 <= base * b) by (nonlinear_arith)
                requires
                    base > 0,
                    b >= 0,
            ;
        }
    }
}

/// The Up/Down protocol fee is the fee rate's share, truncated, of the
/// whole pot under `FeeOnPot` (taken from the losing pool first, the rest
/// from the winning pool) and of the losing pool alone under
/// `FeeOnWinnings` (the winning pool is untouched); no fee, no change.
pub proof fn law_updown_fee_is_share_of_base(
    bps: Option<u32>,
    model: FeeModel,
    winning_pool: i128,
    losing_pool: i128,
)
    ensures
        protocol_fee_updown(bps, model, winning_pool, losing_pool) matches Ok((dw, dl, f)) ==> ({
            let base: int = match model {
                FeeModel::FeeOnPot => winning_pool + losing_pool,
                FeeModel::FeeOnWinnings => losing_pool as int,
            };
            let fee: int = match bps {
                None => 0,
                Some(b) => div_trunc(base * b, 10_000),
            };
            let from_losing: int = if fee <= losing_pool {
                fee
            } else {
                losing_pool as int
            };
            &&& f == fee
            &&& fee == 0 ==> dw == winning_pool && dl == losing_pool
            &&& model == FeeModel::FeeOnWinnings ==> dw == winning_pool && dl == losing_pool - fee
            &&& model == FeeModel::FeeOnPot && fee != 0 ==> dl == losing_pool - from_losing && dw
                == winning_pool - (fee - from_losing)
        }),
{
}
} // verus!
