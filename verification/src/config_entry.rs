//! The configuration entry points: every timelocked setting is scheduled
//! (validated, then held for `CONFIG_TIMELOCK_LEDGERS`), applied once its
//! timelock has run out, and read back from the configuration.
use vstd::prelude::*;

use crate::admin::{
    _ensure_normal_mode, _require_supported_schema, require_admin_action, schema_supported,
    AdminContext, RuntimeMode,
};
use crate::common::CONFIG_TIMELOCK_LEDGERS;
use crate::config::FeeModel;
use crate::config_state::{
    apply_scheduled_change, config_with, payload_check, payload_kind, timelock_gate,
    validate_config_payload, ConfigChangeKind, ConfigChangePayload, ConfigState,
    PendingConfigChange,
};
use crate::errors::ContractError;

verus! {

/// What scheduling a change gives: the schema and the value are checked
/// first, then the admin gate, then that no change of the same kind waits.
pub open spec fn schedule_outcome(
    ctx: AdminContext,
    payload: ConfigChangePayload,
    already_pending: bool,
    current_ledger: u32,
) -> Result<PendingConfigChange, ContractError> {
    if !schema_supported(ctx.stored_schema) {
        Err(ContractError::UnsupportedSchemaVersion)
    } else if payload_check(payload) is Err {
        Err(payload_check(payload)->Err_0)
    } else if !ctx.admin_set {
        Err(ContractError::AdminNotSet)
    } else if ctx.runtime_mode == RuntimeMode::FullyPaused {
        Err(ContractError::ContractPaused)
    } else if already_pending {
        Err(ContractError::RoundAlreadyActive)
    } else if current_ledger + CONFIG_TIMELOCK_LEDGERS > u32::MAX {
        Err(ContractError::Overflow)
    } else {
        Ok(
            PendingConfigChange {
                payload,
                activation_ledger: (current_ledger + CONFIG_TIMELOCK_LEDGERS) as u32,
                scheduled_at_ledger: current_ledger,
            },
        )
    }
}

fn schedule_checked(
    ctx: &AdminContext,
    payload: ConfigChangePayload,
    already_pending: bool,
    current_ledger: u32,
) -> (r: Result<PendingConfigChange, ContractError>)
    ensures
        r == schedule_outcome(*ctx, payload, already_pending, current_ledger),
{
    _require_supported_schema(ctx.stored_schema)?;
    validate_config_payload(&payload)?;
    require_admin_action(ctx)?;
    if already_pending {
        return Err(ContractError::RoundAlreadyActive);
    }
    let activation_ledger = match current_ledger.checked_add(CONFIG_TIMELOCK_LEDGERS) {
        Some(v) => v,
        None => return Err(ContractError::Overflow),
    };
    Ok(PendingConfigChange { payload, activation_ledger, scheduled_at_ledger: current_ledger })
}

/// Schedules new betting and running windows.
pub fn schedule_windows(
    ctx: &AdminContext,
    bet_ledgers: u32,
    run_ledgers: u32,
    already_pending: bool,
    current_ledger: u32,
) -> (r: Result<PendingConfigChange, ContractError>)
    ensures
        r == schedule_outcome(
            *ctx,
            ConfigChangePayload::Windows(bet_ledgers, run_ledgers),
            already_pending,
            current_ledger,
        ),
{
    schedule_checked(
        ctx,
        ConfigChangePayload::Windows(bet_ledgers, run_ledgers),
        already_pending,
        current_ledger,
    )
}

/// Same as [`schedule_windows`].
pub fn set_windows(
    ctx: &AdminContext,
    bet_ledgers: u32,
    run_ledgers: u32,
    already_pending: bool,
    current_ledger: u32,
) -> (r: Result<PendingConfigChange, ContractError>)
    ensures
        r == schedule_outcome(
            *ctx,
            ConfigChangePayload::Windows(bet_ledgers, run_ledgers),
            already_pending,
            current_ledger,
        ),
{
    schedule_windows(ctx, bet_ledgers, run_ledgers, already_pending, current_ledger)
}

/// Schedules a new per-bet stake cap (`None` lifts it).
pub fn schedule_max_stake(
    ctx: &AdminContext,
    max_amount: Option<i128>,
    already_pending: bool,
    current_ledger: u32,
) -> (r: Result<PendingConfigChange, ContractError>)
    ensures
        r == schedule_outcome(
            *ctx,
            ConfigChangePayload::MaxStake(max_amount),
            already_pending,
            current_ledger,
        ),
{
    schedule_checked(ctx, ConfigChangePayload::MaxStake(max_amount), already_pending, current_ledger)
}

/// Same as [`schedule_max_stake`].
pub fn set_max_stake(
    ctx: &AdminContext,
    max_amount: Option<i128>,
    already_pending: bool,
    current_ledger: u32,
) -> (r: Result<PendingConfigChange, ContractError>)
    ensures
        r == schedule_outcome(
            *ctx,
            ConfigChangePayload::MaxStake(max_amount),
            already_pending,
            current_ledger,
        ),
{
    schedule_max_stake(ctx, max_amount, already_pending, current_ledger)
}

/// Schedules a new minimum bet (`None` turns the dust check off).
pub fn schedule_min_bet(
    ctx: &AdminContext,
    min_amount: Option<i128>,
    already_pending: bool,
    current_ledger: u32,
) -> (r: Result<PendingConfigChange, ContractError>)
    ensures
        r == schedule_outcome(
            *ctx,
            ConfigChangePayload::MinBet(min_amount),
            already_pending,
            current_ledger,
        ),
{
    schedule_checked(ctx, ConfigChangePayload::MinBet(min_amount), already_pending, current_ledger)
}

/// Same as [`schedule_min_bet`].
pub fn set_min_bet(
    ctx: &AdminContext,
    min_amount: Option<i128>,
    already_pending: bool,
    current_ledger: u32,
) -> (r: Result<PendingConfigChange, ContractError>)
    ensures
        r == schedule_outcome(
            *ctx,
            ConfigChangePayload::MinBet(min_amount),
            already_pending,
            current_ledger,
        ),
{
    schedule_min_bet(ctx, min_amount, already_pending, current_ledger)
}

/// Schedules a new cap on one user's exposure in a round.
pub fn schedule_max_user_exposure(
    ctx: &AdminContext,
    max_exposure: Option<i128>,
    already_pending: bool,
    current_ledger: u32,
) -> (r: Result<PendingConfigChange, ContractError>)
    ensures
        r == schedule_outcome(
            *ctx,
            ConfigChangePayload::MaxUserRoundExposure(max_exposure),
            already_pending,
            current_ledger,
        ),
{
    schedule_checked(
        ctx,
        ConfigChangePayload::MaxUserRoundExposure(max_exposure),
        already_pending,
        current_ledger,
    )
}

/// Same as [`schedule_max_user_exposure`].
pub fn set_max_user_exposure(
    ctx: &AdminContext,
    max_exposure: Option<i128>,
    already_pending: bool,
    current_ledger: u32,
) -> (r: Result<PendingConfigChange, ContractError>)
    ensures
        r == schedule_outcome(
            *ctx,
            ConfigChangePayload::MaxUserRoundExposure(max_exposure),
            already_pending,
            current_ledger,
        ),
{
    schedule_max_user_exposure(ctx, max_exposure, already_pending, current_ledger)
}

/// Schedules a new cap on a user's unclaimed winnings.
pub fn schedule_max_pending_winnings(
    ctx: &AdminContext,
    max_pending: Option<i128>,
    already_pending: bool,
    current_ledger: u32,
) -> (r: Result<PendingConfigChange, ContractError>)
    ensures
        r == schedule_outcome(
            *ctx,
            ConfigChangePayload::MaxPendingWinnings(max_pending),
            already_pending,
            current_ledger,
        ),
{
    schedule_checked(
        ctx,
        ConfigChangePayload::MaxPendingWinnings(max_pending),
        already_pending,
        current_ledger,
    )
}

/// Same as [`schedule_max_pending_winnings`].
pub fn set_max_pending_winnings(
    ctx: &AdminContext,
    max_pending: Option<i128>,
    already_pending: bool,
    current_ledger: u32,
) -> (r: Result<PendingConfigChange, ContractError>)
    ensures
        r == schedule_outcome(
            *ctx,
            ConfigChangePayload::MaxPendingWinnings(max_pending),
            already_pending,
            current_ledger,
        ),
{
    schedule_max_pending_winnings(ctx, max_pending, already_pending, current_ledger)
}

/// Schedules a new oracle staleness threshold in seconds.
pub fn schedule_oracle_stale_threshold(
    ctx: &AdminContext,
    seconds: u64,
    already_pending: bool,
    current_ledger: u32,
) -> (r: Result<PendingConfigChange, ContractError>)
    ensures
        r == schedule_outcome(
            *ctx,
            ConfigChangePayload::OracleStaleThreshold(seconds),
            already_pending,
            current_ledger,
        ),
{
    schedule_checked(
        ctx,
        ConfigChangePayload::OracleStaleThreshold(seconds),
        already_pending,
        current_ledger,
    )
}

/// Schedules a new bound on how far a settlement price may move from its
/// reference (`None` lifts it).
pub fn schedule_oracle_deviation_bps(
    ctx: &AdminContext,
    bps: Option<u32>,
    already_pending: bool,
    current_ledger: u32,
) -> (r: Result<PendingConfigChange, ContractError>)
    ensures
        r == schedule_outcome(
            *ctx,
            ConfigChangePayload::OracleMaxDeviationBps(bps),
            already_pending,
            current_ledger,
        ),
{
    schedule_checked(
        ctx,
        ConfigChangePayload::OracleMaxDeviationBps(bps),
        already_pending,
        current_ledger,
    )
}

/// Schedules a new allowed skew between oracle and ledger timestamps.
pub fn schedule_oracle_timestamp_skew(
    ctx: &AdminContext,
    seconds: u64,
    already_pending: bool,
    current_ledger: u32,
) -> (r: Result<PendingConfigChange, ContractError>)
    ensures
        r == schedule_outcome(
            *ctx,
            ConfigChangePayload::OracleTimestampSkew(seconds),
            already_pending,
            current_ledger,
        ),
{
    schedule_checked(
        ctx,
        ConfigChangePayload::OracleTimestampSkew(seconds),
        already_pending,
        current_ledger,
    )
}

/// Schedules a new protocol fee in basis points.
pub fn schedule_protocol_fee_bps(
    ctx: &AdminContext,
    bps: Option<u32>,
    already_pending: bool,
    current_ledger: u32,
) -> (r: Result<PendingConfigChange, ContractError>)
    ensures
        r == schedule_outcome(
            *ctx,
            ConfigChangePayload::ProtocolFeeBps(bps),
            already_pending,
            current_ledger,
        ),
{
    schedule_checked(ctx, ConfigChangePayload::ProtocolFeeBps(bps), already_pending, current_ledger)
}

/// Same as [`schedule_protocol_fee_bps`].
pub fn set_protocol_fee_bps(
    ctx: &AdminContext,
    bps: Option<u32>,
    already_pending: bool,
    current_ledger: u32,
) -> (r: Result<PendingConfigChange, ContractError>)
    ensures
        r == schedule_outcome(
            *ctx,
            ConfigChangePayload::ProtocolFeeBps(bps),
            already_pending,
            current_ledger,
        ),
{
    schedule_protocol_fee_bps(ctx, bps, already_pending, current_ledger)
}

/// Schedules a new expiry for unclaimed winnings (`0` turns it off).
pub fn schedule_pending_winnings_expiry(
    ctx: &AdminContext,
    ledgers: u32,
    already_pending: bool,
    current_ledger: u32,
) -> (r: Result<PendingConfigChange, ContractError>)
    ensures
        r == schedule_outcome(
            *ctx,
            ConfigChangePayload::PendingWinningsExpiry(ledgers),
            already_pending,
            current_ledger,
        ),
{
    schedule_checked(
        ctx,
        ConfigChangePayload::PendingWinningsExpiry(ledgers),
        already_pending,
        current_ledger,
    )
}

/// Same as [`schedule_pending_winnings_expiry`].
pub fn set_pending_winnings_expiry(
    ctx: &AdminContext,
    ledgers: u32,
    already_pending: bool,
    current_ledger: u32,
) -> (r: Result<PendingConfigChange, ContractError>)
    ensures
        r == schedule_outcome(
            *ctx,
            ConfigChangePayload::PendingWinningsExpiry(ledgers),
            already_pending,
            current_ledger,
        ),
{
    schedule_pending_winnings_expiry(ctx, ledgers, already_pending, current_ledger)
}

/// What applying the pending change of a kind gives: refused unless the
/// schema is supported and the contract runs normally, when nothing is
/// pending, or before the activation ledger.
pub open spec fn apply_outcome(
    stored_schema: Option<u32>,
    mode: RuntimeMode,
    kind: ConfigChangeKind,
    pending: Option<PendingConfigChange>,
    current_ledger: u32,
) -> Result<(), ContractError> {
    if !schema_supported(stored_schema) {
        Err(ContractError::UnsupportedSchemaVersion)
    } else if mode != RuntimeMode::Normal {
        Err(ContractError::ContractPaused)
    } else if pending is None {
        Err(ContractError::CommitmentNotFound)
    } else if timelock_gate(pending->0, current_ledger) is Err {
        timelock_gate(pending->0, current_ledger)
    } else if payload_kind(pending->0.payload) != kind {
        Err(ContractError::InvalidMode)
    } else {
        payload_check(pending->0.payload)
    }
}

/// Applies the pending change of `kind` to the configuration once its
/// timelock has run out; on success the caller removes the pending entry.
pub fn apply_scheduled_changes(
    config: &mut ConfigState,
    stored_schema: Option<u32>,
    mode: RuntimeMode,
    kind: ConfigChangeKind,
    pending: Option<PendingConfigChange>,
    current_ledger: u32,
) -> (r: Result<(), ContractError>)
    ensures
        r == apply_outcome(stored_schema, mode, kind, pending, current_ledger),
        r is Ok ==> *final(config) == config_with(*old(config), pending->0.payload),
        r is Err ==> *final(config) == *old(config),
{
    _require_supported_schema(stored_schema)?;
    _ensure_normal_mode(mode)?;
    let p = match pending {
        Some(p) => p,
        None => return Err(ContractError::CommitmentNotFound),
    };
    apply_scheduled_change(config, kind, &p, current_ledger)
}

// ─── Reading the configuration ──────────────────────────────────────────────

/// The per-bet stake cap, if any.
pub fn get_max_stake(config: &ConfigState) -> (v: Option<i128>)
    ensures
        v == config.max_stake,
{
    config.max_stake
}

/// The minimum bet, if the dust check is on.
pub fn get_min_bet(config: &ConfigState) -> (v: Option<i128>)
    ensures
        v == config.min_bet,
{
    config.min_bet
}

/// The cap on one user's exposure in a round, if any.
pub fn get_max_user_exposure(config: &ConfigState) -> (v: Option<i128>)
    ensures
        v == config.max_user_round_exposure,
{
    config.max_user_round_exposure
}

/// The cap on a user's unclaimed winnings, if any.
pub fn get_max_pending_winnings(config: &ConfigState) -> (v: Option<i128>)
    ensures
        v == config.max_pending_winnings,
{
    config.max_pending_winnings
}

/// The allowed skew between oracle and ledger timestamps.
pub fn get_oracle_timestamp_skew(config: &ConfigState) -> (v: u64)
    ensures
        v == config.oracle_timestamp_skew,
{
    config.oracle_timestamp_skew
}

/// The oracle staleness threshold in seconds.
pub fn get_oracle_stale_threshold(config: &ConfigState) -> (v: u64)
    ensures
        v == config.oracle_stale_threshold,
{
    config.oracle_stale_threshold
}

/// The bound on a settlement price's deviation, if any.
pub fn get_oracle_max_deviation_bps(config: &ConfigState) -> (v: Option<u32>)
    ensures
        v == config.oracle_max_deviation_bps,
{
    config.oracle_max_deviation_bps
}

/// The protocol fee in basis points, if set.
pub fn get_protocol_fee_bps(config: &ConfigState) -> (v: Option<u32>)
    ensures
        v == config.protocol_fee_bps,
{
    config.protocol_fee_bps
}

/// The fee incidence model.
pub fn get_fee_model(config: &ConfigState) -> (v: FeeModel)
    ensures
        v == config.fee_model,
{
    config.fee_model
}

/// The close buffer in ledgers.
pub fn get_close_buffer_ledgers(config: &ConfigState) -> (v: u32)
    ensures
        v == config.close_buffer_ledgers,
{
    config.close_buffer_ledgers
}

/// The betting window in ledgers.
pub fn get_bet_window_ledgers(config: &ConfigState) -> (v: u32)
    ensures
        v == config.bet_window_ledgers,
{
    config.bet_window_ledgers
}

/// The running window in ledgers.
pub fn get_run_window_ledgers(config: &ConfigState) -> (v: u32)
    ensures
        v == config.run_window_ledgers,
{
    config.run_window_ledgers
}

/// The minimum number of participants, if any.
pub fn get_min_participants(config: &ConfigState) -> (v: Option<u32>)
    ensures
        v == config.min_participants,
{
    config.min_participants
}

/// The precision payout policy code (`0` equal shares, `1` stake weighted).
pub fn get_precision_payout_policy(config: &ConfigState) -> (v: u32)
    ensures
        v == config.precision_payout_policy,
{
    config.precision_payout_policy
}

/// The per-user mint limit.
pub fn get_mint_limit(config: &ConfigState) -> (v: u32)
    ensures
        v == config.mint_limit,
{
    config.mint_limit
}

/// The mint budget of one epoch.
pub fn get_epoch_mint_budget(config: &ConfigState) -> (v: i128)
    ensures
        v == config.epoch_mint_budget,
{
    config.epoch_mint_budget
}

/// How many archived rounds are kept.
pub fn get_archive_retention(config: &ConfigState) -> (v: u32)
    ensures
        v == config.archive_retention,
{
    config.archive_retention
}

/// The early cash-out penalty in basis points, if cash-out is enabled.
pub fn get_early_cashout_bps(config: &ConfigState) -> (v: Option<u32>)
    ensures
        v == config.early_cashout_bps,
{
    config.early_cashout_bps
}

/// The expiry of unclaimed winnings in ledgers (`0`: never).
pub fn get_pending_winnings_expiry(config: &ConfigState) -> (v: u32)
    ensures
        v == config.pending_winnings_expiry,
{
    config.pending_winnings_expiry
}

/// A change scheduled now and applied once its timelock has run out leaves
/// the configuration with exactly the scheduled value of its kind.
pub proof fn law_schedule_then_apply(
    ctx: AdminContext,
    payload: ConfigChangePayload,
    current_ledger: u32,
    later: u32,
)
    requires
        schedule_outcome(ctx, payload, false, current_ledger) is Ok,
        ctx.runtime_mode == RuntimeMode::Normal,
        later >= schedule_outcome(ctx, payload, false, current_ledger)->Ok_0.activation_ledger,
    ensures
        apply_outcome(
            ctx.stored_schema,
            ctx.runtime_mode,
            payload_kind(payload),
            Some(schedule_outcome(ctx, payload, false, current_ledger)->Ok_0),
            later,
        ) is Ok,
        apply_outcome(
            ctx.stored_schema,
            ctx.runtime_mode,
            payload_kind(payload),
            Some(schedule_outcome(ctx, payload, false, current_ledger)->Ok_0),
            current_ledger,
        ) is Err,
{
}

} // verus!
