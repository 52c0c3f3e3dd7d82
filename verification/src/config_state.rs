//! The protocol configuration as one value, and the timelocked changes that
//! act on it: a change is scheduled, becomes applicable after the timelock,
//! and can be cancelled only before that.
use vstd::prelude::*;

use crate::common::{
    CONFIG_TIMELOCK_LEDGERS, DEFAULT_ARCHIVE_RETENTION, DEFAULT_BET_WINDOW_LEDGERS,
    DEFAULT_CLOSE_BUFFER_LEDGERS, DEFAULT_DISPUTE_LEDGERS, DEFAULT_MAX_PRECISION_PARTICIPANTS,
    DEFAULT_ORACLE_STALE_THRESHOLD, DEFAULT_ORACLE_TIMESTAMP_SKEW,
    DEFAULT_PENDING_WINNINGS_EXPIRY, DEFAULT_RUN_WINDOW_LEDGERS, MAX_ARCHIVE_RETENTION,
    MAX_DISPUTE_LEDGERS, MAX_MIN_PARTICIPANTS, MAX_PENDING_WINNINGS_EXPIRY,
    MAX_PRECISION_PARTICIPANTS_LIMIT, MAX_PROTOCOL_FEE_BPS, MIN_ARCHIVE_RETENTION,
    MIN_PENDING_WINNINGS_EXPIRY, MAX_CLOSE_BUFFER_LEDGERS,
};
use crate::config::{
    _validate_close_buffer_ledgers, _validate_max_stake, _validate_min_bet,
    _validate_oracle_max_deviation_bps, _validate_oracle_stale_threshold,
    _validate_oracle_timestamp_skew, _validate_pending_winnings_expiry,
    _validate_protocol_fee_bps, _validate_windows, cap_check, deviation_bps_check,
    protocol_fee_check, stale_threshold_check, timestamp_skew_check, windows_check, FeeModel,
};
use crate::errors::ContractError;

verus! {

/// The kinds of configuration that change through the timelock.
#[derive(Clone, Copy, Debug, PartialEq, Eq, Structural)]
pub enum ConfigChangeKind {
    Windows,
    MaxStake,
    MaxUserRoundExposure,
    MaxPendingWinnings,
    OracleStaleThreshold,
    OracleMaxDeviationBps,
    ProtocolFeeBps,
    MinParticipants,
    MaxPrecisionParticipants,
    MintLimit,
    ArchiveRetention,
    CloseBufferLedgers,
    OracleTimestampSkew,
    PendingWinningsExpiry,
    MinBet,
    EpochMintBudget,
    PrecisionPayoutPolicy,
    DisputeLedgers,
    FeeModel,
    EarlyCashoutBps,
}

/// A configuration value of one kind.
#[derive(Clone, Copy, Debug, PartialEq, Eq, Structural)]
pub enum ConfigChangePayload {
    /// `(bet_ledgers, run_ledgers)`.
    Windows(u32, u32),
    MaxStake(Option<i128>),
    MaxUserRoundExposure(Option<i128>),
    MaxPendingWinnings(Option<i128>),
    OracleStaleThreshold(u64),
    OracleMaxDeviationBps(Option<u32>),
    ProtocolFeeBps(Option<u32>),
    MinParticipants(Option<u32>),
    MaxPrecisionParticipants(u32),
    MintLimit(u32),
    ArchiveRetention(u32),
    CloseBufferLedgers(u32),
    OracleTimestampSkew(u64),
    PendingWinningsExpiry(u32),
    MinBet(Option<i128>),
    EpochMintBudget(i128),
    PrecisionPayoutPolicy(u32),
    DisputeLedgers(u32),
    FeeModel(FeeModel),
    EarlyCashoutBps(Option<u32>),
}

/// The configuration of the protocol; unset entries hold their defaults.
#[derive(Clone, Copy, Debug, PartialEq, Eq, Structural)]
pub struct ConfigState {
    pub bet_window_ledgers: u32,
    pub run_window_ledgers: u32,
    pub max_stake: Option<i128>,
    pub max_user_round_exposure: Option<i128>,
    pub max_pending_winnings: Option<i128>,
    pub oracle_stale_threshold: u64,
    pub oracle_max_deviation_bps: Option<u32>,
    pub protocol_fee_bps: Option<u32>,
    pub min_participants: Option<u32>,
    pub max_precision_participants: u32,
    pub mint_limit: u32,
    pub archive_retention: u32,
    pub close_buffer_ledgers: u32,
    pub oracle_timestamp_skew: u64,
    pub pending_winnings_expiry: u32,
    pub min_bet: Option<i128>,
    pub epoch_mint_budget: i128,
    pub precision_payout_policy: u32,
    pub dispute_ledgers: u32,
    pub fee_model: FeeModel,
    pub early_cashout_bps: Option<u32>,
}

/// The kind of a payload.
pub open spec fn payload_kind(p: ConfigChangePayload) -> ConfigChangeKind {
    match p {
        ConfigChangePayload::Windows(_, _) => ConfigChangeKind::Windows,
        ConfigChangePayload::MaxStake(_) => ConfigChangeKind::MaxStake,
        ConfigChangePayload::MaxUserRoundExposure(_) => ConfigChangeKind::MaxUserRoundExposure,
        ConfigChangePayload::MaxPendingWinnings(_) => ConfigChangeKind::MaxPendingWinnings,
        ConfigChangePayload::OracleStaleThreshold(_) => ConfigChangeKind::OracleStaleThreshold,
        ConfigChangePayload::OracleMaxDeviationBps(_) => ConfigChangeKind::OracleMaxDeviationBps,
        ConfigChangePayload::ProtocolFeeBps(_) => ConfigChangeKind::ProtocolFeeBps,
        ConfigChangePayload::MinParticipants(_) => ConfigChangeKind::MinParticipants,
        ConfigChangePayload::MaxPrecisionParticipants(_) => ConfigChangeKind::MaxPrecisionParticipants,
        ConfigChangePayload::MintLimit(_) => ConfigChangeKind::MintLimit,
        ConfigChangePayload::ArchiveRetention(_) => ConfigChangeKind::ArchiveRetention,
        ConfigChangePayload::CloseBufferLedgers(_) => ConfigChangeKind::CloseBufferLedgers,
        ConfigChangePayload::OracleTimestampSkew(_) => ConfigChangeKind::OracleTimestampSkew,
        ConfigChangePayload::PendingWinningsExpiry(_) => ConfigChangeKind::PendingWinningsExpiry,
        ConfigChangePayload::MinBet(_) => ConfigChangeKind::MinBet,
        ConfigChangePayload::EpochMintBudget(_) => ConfigChangeKind::EpochMintBudget,
        ConfigChangePayload::PrecisionPayoutPolicy(_) => ConfigChangeKind::PrecisionPayoutPolicy,
        ConfigChangePayload::DisputeLedgers(_) => ConfigChangeKind::DisputeLedgers,
        ConfigChangePayload::FeeModel(_) => ConfigChangeKind::FeeModel,
        ConfigChangePayload::EarlyCashoutBps(_) => ConfigChangeKind::EarlyCashoutBps,
    }
}

/// Whether a payload holds an admissible value of its kind.
pub open spec fn payload_check(p: ConfigChangePayload) -> Result<(), ContractError> {
    match p {
        ConfigChangePayload::Windows(bet, run) => windows_check(bet, run),
        ConfigChangePayload::MaxStake(v) => cap_check(v),
        ConfigChangePayload::MaxUserRoundExposure(v) => cap_check(v),
        ConfigChangePayload::MaxPendingWinnings(v) => cap_check(v),
        ConfigChangePayload::OracleStaleThreshold(s) => stale_threshold_check(s),
        ConfigChangePayload::OracleMaxDeviationBps(b) => deviation_bps_check(b),
        ConfigChangePayload::ProtocolFeeBps(b) => protocol_fee_check(b),
        ConfigChangePayload::MinParticipants(m) => if m matches Some(v) && (v == 0 || v
            > MAX_MIN_PARTICIPANTS) {
            Err(ContractError::InvalidMinParticipants)
        } else {
            Ok(())
        },
        ConfigChangePayload::MaxPrecisionParticipants(m) => if m == 0 || m
            > MAX_PRECISION_PARTICIPANTS_LIMIT {
            Err(ContractError::InvalidPrecisionCap)
        } else {
            Ok(())
        },
        ConfigChangePayload::MintLimit(_) => Ok(()),
        ConfigChangePayload::ArchiveRetention(l) => if MIN_ARCHIVE_RETENTION <= l
            <= MAX_ARCHIVE_RETENTION {
            Ok(())
        } else {
            Err(ContractError::WindowOutOfRange)
        },
        ConfigChangePayload::CloseBufferLedgers(b) => if b > MAX_CLOSE_BUFFER_LEDGERS {
            Err(ContractError::WindowOutOfRange)
        } else {
            Ok(())
        },
        ConfigChangePayload::OracleTimestampSkew(s) => timestamp_skew_check(s),
        ConfigChangePayload::PendingWinningsExpiry(l) => if l != 0 && (l
            < MIN_PENDING_WINNINGS_EXPIRY || l > MAX_PENDING_WINNINGS_EXPIRY) {
            Err(ContractError::InvalidDuration)
        } else {
            Ok(())
        },
        ConfigChangePayload::MinBet(v) => cap_check(v),
        ConfigChangePayload::EpochMintBudget(b) => if b < 0 {
            Err(ContractError::InvalidBetAmount)
        } else {
            Ok(())
        },
        ConfigChangePayload::PrecisionPayoutPolicy(p) => if p > 1 {
            Err(ContractError::InvalidMode)
        } else {
            Ok(())
        },
        ConfigChangePayload::DisputeLedgers(l) => if l > MAX_DISPUTE_LEDGERS {
            Err(ContractError::WindowOutOfRange)
        } else {
            Ok(())
        },
        ConfigChangePayload::FeeModel(_) => Ok(()),
        ConfigChangePayload::EarlyCashoutBps(b) => if b matches Some(v) && (v == 0 || v
            > MAX_PROTOCOL_FEE_BPS) {
            Err(ContractError::InvalidProtocolFeeBps)
        } else {
            Ok(())
        },
    }
}

/// The configuration with one payload written into it.
pub open spec fn config_with(c: ConfigState, p: ConfigChangePayload) -> ConfigState {
    match p {
        ConfigChangePayload::Windows(bet, run) => ConfigState {
            bet_window_ledgers: bet,
            run_window_ledgers: run,
            ..c
        },
        ConfigChangePayload::MaxStake(v) => ConfigState { max_stake: v, ..c },
        ConfigChangePayload::MaxUserRoundExposure(v) => ConfigState {
            max_user_round_exposure: v,
            ..c
        },
        ConfigChangePayload::MaxPendingWinnings(v) => ConfigState { max_pending_winnings: v, ..c },
        ConfigChangePayload::OracleStaleThreshold(s) => ConfigState {
            oracle_stale_threshold: s,
            ..c
        },
        ConfigChangePayload::OracleMaxDeviationBps(b) => ConfigState {
            oracle_max_deviation_bps: b,
            ..c
        },
        ConfigChangePayload::ProtocolFeeBps(b) => ConfigState { protocol_fee_bps: b, ..c },
        ConfigChangePayload::MinParticipants(m) => ConfigState { min_participants: m, ..c },
        ConfigChangePayload::MaxPrecisionParticipants(m) => ConfigState {
            max_precision_participants: m,
            ..c
        },
        ConfigChangePayload::MintLimit(l) => ConfigState { mint_limit: l, ..c },
        ConfigChangePayload::ArchiveRetention(l) => ConfigState { archive_retention: l, ..c },
        ConfigChangePayload::CloseBufferLedgers(b) => ConfigState { close_buffer_ledgers: b, ..c },
        ConfigChangePayload::OracleTimestampSkew(s) => ConfigState {
            oracle_timestamp_skew: s,
            ..c
        },
        ConfigChangePayload::PendingWinningsExpiry(l) => ConfigState {
            pending_winnings_expiry: l,
            ..c
        },
        ConfigChangePayload::MinBet(v) => ConfigState { min_bet: v, ..c },
        ConfigChangePayload::EpochMintBudget(b) => ConfigState { epoch_mint_budget: b, ..c },
        ConfigChangePayload::PrecisionPayoutPolicy(p) => ConfigState {
            precision_payout_policy: p,
            ..c
        },
        ConfigChangePayload::DisputeLedgers(l) => ConfigState { dispute_ledgers: l, ..c },
        ConfigChangePayload::FeeModel(m) => ConfigState { fee_model: m, ..c },
        ConfigChangePayload::EarlyCashoutBps(b) => ConfigState { early_cashout_bps: b, ..c },
    }
}

/// The current value of one kind of configuration.
pub open spec fn current_payload(c: ConfigState, kind: ConfigChangeKind) -> ConfigChangePayload {
    match kind {
        ConfigChangeKind::Windows => ConfigChangePayload::Windows(
            c.bet_window_ledgers,
            c.run_window_ledgers,
        ),
        ConfigChangeKind::MaxStake => ConfigChangePayload::MaxStake(c.max_stake),
        ConfigChangeKind::MaxUserRoundExposure => ConfigChangePayload::MaxUserRoundExposure(
            c.max_user_round_exposure,
        ),
        ConfigChangeKind::MaxPendingWinnings => ConfigChangePayload::MaxPendingWinnings(
            c.max_pending_winnings,
        ),
        ConfigChangeKind::OracleStaleThreshold => ConfigChangePayload::OracleStaleThreshold(
            c.oracle_stale_threshold,
        ),
        ConfigChangeKind::OracleMaxDeviationBps => ConfigChangePayload::OracleMaxDeviationBps(
            c.oracle_max_deviation_bps,
        ),
        ConfigChangeKind::ProtocolFeeBps => ConfigChangePayload::ProtocolFeeBps(c.protocol_fee_bps),
        ConfigChangeKind::MinParticipants => ConfigChangePayload::MinParticipants(
            c.min_participants,
        ),
        ConfigChangeKind::MaxPrecisionParticipants => ConfigChangePayload::MaxPrecisionParticipants(
            c.max_precision_participants,
        ),
        ConfigChangeKind::MintLimit => ConfigChangePayload::MintLimit(c.mint_limit),
        ConfigChangeKind::ArchiveRetention => ConfigChangePayload::ArchiveRetention(
            c.archive_retention,
        ),
        ConfigChangeKind::CloseBufferLedgers => ConfigChangePayload::CloseBufferLedgers(
            c.close_buffer_ledgers,
        ),
        ConfigChangeKind::OracleTimestampSkew => ConfigChangePayload::OracleTimestampSkew(
            c.oracle_timestamp_skew,
        ),
        ConfigChangeKind::PendingWinningsExpiry => ConfigChangePayload::PendingWinningsExpiry(
            c.pending_winnings_expiry,
        ),
        ConfigChangeKind::MinBet => ConfigChangePayload::MinBet(c.min_bet),
        ConfigChangeKind::EpochMintBudget => ConfigChangePayload::EpochMintBudget(
            c.epoch_mint_budget,
        ),
        ConfigChangeKind::PrecisionPayoutPolicy => ConfigChangePayload::PrecisionPayoutPolicy(
            c.precision_payout_policy,
        ),
        ConfigChangeKind::DisputeLedgers => ConfigChangePayload::DisputeLedgers(c.dispute_ledgers),
        ConfigChangeKind::FeeModel => ConfigChangePayload::FeeModel(c.fee_model),
        ConfigChangeKind::EarlyCashoutBps => ConfigChangePayload::EarlyCashoutBps(
            c.early_cashout_bps,
        ),
    }
}

impl ConfigState {
    /// The configuration of a fresh deployment: every entry at its default.
    pub fn new() -> (c: ConfigState)
        ensures
            c.bet_window_ledgers == DEFAULT_BET_WINDOW_LEDGERS,
            c.run_window_ledgers == DEFAULT_RUN_WINDOW_LEDGERS,
            c.max_stake is None,
            c.max_user_round_exposure is None,
            c.max_pending_winnings is None,
            c.oracle_stale_threshold == DEFAULT_ORACLE_STALE_THRESHOLD,
            c.oracle_max_deviation_bps is None,
            c.protocol_fee_bps is None,
            c.min_participants is None,
            c.max_precision_participants == DEFAULT_MAX_PRECISION_PARTICIPANTS,
            c.mint_limit == 0,
            c.archive_retention == DEFAULT_ARCHIVE_RETENTION,
            c.close_buffer_ledgers == DEFAULT_CLOSE_BUFFER_LEDGERS,
            c.oracle_timestamp_skew == DEFAULT_ORACLE_TIMESTAMP_SKEW,
            c.pending_winnings_expiry == DEFAULT_PENDING_WINNINGS_EXPIRY,
            c.min_bet is None,
            c.epoch_mint_budget == 0,
            c.precision_payout_policy == 0,
            c.dispute_ledgers == DEFAULT_DISPUTE_LEDGERS,
            c.fee_model == FeeModel::FeeOnPot,
            c.early_cashout_bps is None,
    {
        ConfigState {
            bet_window_ledgers: DEFAULT_BET_WINDOW_LEDGERS,
            run_window_ledgers: DEFAULT_RUN_WINDOW_LEDGERS,
            max_stake: None,
            max_user_round_exposure: None,
            max_pending_winnings: None,
            oracle_stale_threshold: DEFAULT_ORACLE_STALE_THRESHOLD,
            oracle_max_deviation_bps: None,
            protocol_fee_bps: None,
            min_participants: None,
            max_precision_participants: DEFAULT_MAX_PRECISION_PARTICIPANTS,
            mint_limit: 0,
            archive_retention: DEFAULT_ARCHIVE_RETENTION,
            close_buffer_ledgers: DEFAULT_CLOSE_BUFFER_LEDGERS,
            oracle_timestamp_skew: DEFAULT_ORACLE_TIMESTAMP_SKEW,
            pending_winnings_expiry: DEFAULT_PENDING_WINNINGS_EXPIRY,
            min_bet: None,
            epoch_mint_budget: 0,
            precision_payout_policy: 0,
            dispute_ledgers: DEFAULT_DISPUTE_LEDGERS,
            fee_model: FeeModel::FeeOnPot,
            early_cashout_bps: None,
        }
    }
}

/// Validates a payload with the rule of its kind.
pub fn validate_config_payload(payload: &ConfigChangePayload) -> (r: Result<(), ContractError>)
    ensures
        r == payload_check(*payload),
{
    match payload {
        ConfigChangePayload::Windows(bet, run) => _validate_windows(*bet, *run),
        ConfigChangePayload::MaxStake(v) => _validate_max_stake(*v),
        ConfigChangePayload::MaxUserRoundExposure(v) => _validate_max_stake(*v),
        ConfigChangePayload::MaxPendingWinnings(v) => _validate_max_stake(*v),
        ConfigChangePayload::OracleStaleThreshold(s) => _validate_oracle_stale_threshold(*s),
        ConfigChangePayload::OracleMaxDeviationBps(b) => _validate_oracle_max_deviation_bps(*b),
        ConfigChangePayload::ProtocolFeeBps(b) => _validate_protocol_fee_bps(*b),
        ConfigChangePayload::MinParticipants(m) => {
            if let Some(v) = m {
                if *v == 0 || *v > MAX_MIN_PARTICIPANTS {
                    return Err(ContractError::InvalidMinParticipants);
                }
            }
            Ok(())
        },
        ConfigChangePayload::MaxPrecisionParticipants(m) => {
            if *m == 0 || *m > MAX_PRECISION_PARTICIPANTS_LIMIT {
                return Err(ContractError::InvalidPrecisionCap);
            }
            Ok(())
        },
        ConfigChangePayload::MintLimit(_) => Ok(()),
        ConfigChangePayload::ArchiveRetention(l) => {
            if !(MIN_ARCHIVE_RETENTION <= *l && *l <= MAX_ARCHIVE_RETENTION) {
                return Err(ContractError::WindowOutOfRange);
            }
            Ok(())
        },
        ConfigChangePayload::CloseBufferLedgers(b) => _validate_close_buffer_ledgers(*b),
        ConfigChangePayload::OracleTimestampSkew(s) => _validate_oracle_timestamp_skew(*s),
        ConfigChangePayload::PendingWinningsExpiry(l) => _validate_pending_winnings_expiry(*l),
        ConfigChangePayload::MinBet(v) => _validate_min_bet(*v),
        ConfigChangePayload::EpochMintBudget(b) => {
            if *b < 0 {
                return Err(ContractError::InvalidBetAmount);
            }
            Ok(())
        },
        ConfigChangePayload::PrecisionPayoutPolicy(p) => {
            if *p > 1 {
                return Err(ContractError::InvalidMode);
            }
            Ok(())
        },
        ConfigChangePayload::DisputeLedgers(l) => {
            if *l > MAX_DISPUTE_LEDGERS {
                return Err(ContractError::WindowOutOfRange);
            }
            Ok(())
        },
        ConfigChangePayload::FeeModel(_) => Ok(()),
        ConfigChangePayload::EarlyCashoutBps(b) => {
            if let Some(v) = b {
                if *v == 0 || *v > MAX_PROTOCOL_FEE_BPS {
                    return Err(ContractError::InvalidProtocolFeeBps);
                }
            }
            Ok(())
        },
    }
}

/// Reads the current value of one kind of configuration.
pub fn _current_config_payload(config: &ConfigState, kind: ConfigChangeKind) -> (p:
    ConfigChangePayload)
    ensures
        p == current_payload(*config, kind),
        payload_kind(p) == kind,
{
    match kind {
        ConfigChangeKind::Windows => ConfigChangePayload::Windows(
            config.bet_window_ledgers,
            config.run_window_ledgers,
        ),
        ConfigChangeKind::MaxStake => ConfigChangePayload::MaxStake(config.max_stake),
        ConfigChangeKind::MaxUserRoundExposure => ConfigChangePayload::MaxUserRoundExposure(
            config.max_user_round_exposure,
        ),
        ConfigChangeKind::MaxPendingWinnings => ConfigChangePayload::MaxPendingWinnings(
            config.max_pending_winnings,
        ),
        ConfigChangeKind::OracleStaleThreshold => ConfigChangePayload::OracleStaleThreshold(
            config.oracle_stale_threshold,
        ),
        ConfigChangeKind::OracleMaxDeviationBps => ConfigChangePayload::OracleMaxDeviationBps(
            config.oracle_max_deviation_bps,
        ),
        ConfigChangeKind::ProtocolFeeBps => ConfigChangePayload::ProtocolFeeBps(
            config.protocol_fee_bps,
        ),
        ConfigChangeKind::MinParticipants => ConfigChangePayload::MinParticipants(
            config.min_participants,
        ),
        ConfigChangeKind::MaxPrecisionParticipants => ConfigChangePayload::MaxPrecisionParticipants(
            config.max_precision_participants,
        ),
        ConfigChangeKind::MintLimit => ConfigChangePayload::MintLimit(config.mint_limit),
        ConfigChangeKind::ArchiveRetention => ConfigChangePayload::ArchiveRetention(
            config.archive_retention,
        ),
        ConfigChangeKind::CloseBufferLedgers => ConfigChangePayload::CloseBufferLedgers(
            config.close_buffer_ledgers,
        ),
        ConfigChangeKind::OracleTimestampSkew => ConfigChangePayload::OracleTimestampSkew(
            config.oracle_timestamp_skew,
        ),
        ConfigChangeKind::PendingWinningsExpiry => ConfigChangePayload::PendingWinningsExpiry(
            config.pending_winnings_expiry,
        ),
        ConfigChangeKind::MinBet => ConfigChangePayload::MinBet(config.min_bet),
        ConfigChangeKind::EpochMintBudget => ConfigChangePayload::EpochMintBudget(
            config.epoch_mint_budget,
        ),
        ConfigChangeKind::PrecisionPayoutPolicy => ConfigChangePayload::PrecisionPayoutPolicy(
            config.precision_payout_policy,
        ),
        ConfigChangeKind::DisputeLedgers => ConfigChangePayload::DisputeLedgers(
            config.dispute_ledgers,
        ),
        ConfigChangeKind::FeeModel => ConfigChangePayload::FeeModel(config.fee_model),
        ConfigChangeKind::EarlyCashoutBps => ConfigChangePayload::EarlyCashoutBps(
            config.early_cashout_bps,
        ),
    }
}

/// Applies a payload of the given kind: a payload of another kind is refused
/// with `InvalidMode`, an inadmissible value with the error of its rule;
/// otherwise the value is written and nothing else changes.
pub fn _apply_config_payload(
    config: &mut ConfigState,
    kind: ConfigChangeKind,
    payload: &ConfigChangePayload,
) -> (r: Result<(), ContractError>)
    ensures
        r == (if payload_kind(*payload) != kind {
            Err(ContractError::InvalidMode)
        } else {
            payload_check(*payload)
        }),
        r is Ok ==> *final(config) == config_with(*old(config), *payload),
        r is Err ==> *final(config) == *old(config),
{
    let matches_kind = match (kind, payload) {
        (ConfigChangeKind::Windows, ConfigChangePayload::Windows(_, _)) => true,
        (ConfigChangeKind::MaxStake, ConfigChangePayload::MaxStake(_)) => true,
        (ConfigChangeKind::MaxUserRoundExposure, ConfigChangePayload::MaxUserRoundExposure(_)) => true,
        (ConfigChangeKind::MaxPendingWinnings, ConfigChangePayload::MaxPendingWinnings(_)) => true,
        (ConfigChangeKind::OracleStaleThreshold, ConfigChangePayload::OracleStaleThreshold(_)) => true,
        (ConfigChangeKind::OracleMaxDeviationBps, ConfigChangePayload::OracleMaxDeviationBps(_)) => true,
        (ConfigChangeKind::ProtocolFeeBps, ConfigChangePayload::ProtocolFeeBps(_)) => true,
        (ConfigChangeKind::MinParticipants, ConfigChangePayload::MinParticipants(_)) => true,
        (
            ConfigChangeKind::MaxPrecisionParticipants,
            ConfigChangePayload::MaxPrecisionParticipants(_),
        ) => true,
        (ConfigChangeKind::MintLimit, ConfigChangePayload::MintLimit(_)) => true,
        (ConfigChangeKind::ArchiveRetention, ConfigChangePayload::ArchiveRetention(_)) => true,
        (ConfigChangeKind::CloseBufferLedgers, ConfigChangePayload::CloseBufferLedgers(_)) => true,
        (ConfigChangeKind::OracleTimestampSkew, ConfigChangePayload::OracleTimestampSkew(_)) => true,
        (ConfigChangeKind::PendingWinningsExpiry, ConfigChangePayload::PendingWinningsExpiry(_)) => true,
        (ConfigChangeKind::MinBet, ConfigChangePayload::MinBet(_)) => true,
        (ConfigChangeKind::EpochMintBudget, ConfigChangePayload::EpochMintBudget(_)) => true,
        (ConfigChangeKind::PrecisionPayoutPolicy, ConfigChangePayload::PrecisionPayoutPolicy(_)) => true,
        (ConfigChangeKind::DisputeLedgers, ConfigChangePayload::DisputeLedgers(_)) => true,
        (ConfigChangeKind::FeeModel, ConfigChangePayload::FeeModel(_)) => true,
        (ConfigChangeKind::EarlyCashoutBps, ConfigChangePayload::EarlyCashoutBps(_)) => true,
        _ => false,
    };
    if !matches_kind {
        return Err(ContractError::InvalidMode);
    }
    validate_config_payload(payload)?;
    match payload {
        ConfigChangePayload::Windows(bet, run) => {
            config.bet_window_ledgers = *bet;
            config.run_window_ledgers = *run;
        },
        ConfigChangePayload::MaxStake(v) => config.max_stake = *v,
        ConfigChangePayload::MaxUserRoundExposure(v) => config.max_user_round_exposure = *v,
        ConfigChangePayload::MaxPendingWinnings(v) => config.max_pending_winnings = *v,
        ConfigChangePayload::OracleStaleThreshold(s) => config.oracle_stale_threshold = *s,
        ConfigChangePayload::OracleMaxDeviationBps(b) => config.oracle_max_deviation_bps = *b,
        ConfigChangePayload::ProtocolFeeBps(b) => config.protocol_fee_bps = *b,
        ConfigChangePayload::MinParticipants(m) => config.min_participants = *m,
        ConfigChangePayload::MaxPrecisionParticipants(m) => config.max_precision_participants = *m,
        ConfigChangePayload::MintLimit(l) => config.mint_limit = *l,
        ConfigChangePayload::ArchiveRetention(l) => config.archive_retention = *l,
        ConfigChangePayload::CloseBufferLedgers(b) => config.close_buffer_ledgers = *b,
        ConfigChangePayload::OracleTimestampSkew(s) => config.oracle_timestamp_skew = *s,
        ConfigChangePayload::PendingWinningsExpiry(l) => config.pending_winnings_expiry = *l,
        ConfigChangePayload::MinBet(v) => config.min_bet = *v,
        ConfigChangePayload::EpochMintBudget(b) => config.epoch_mint_budget = *b,
        ConfigChangePayload::PrecisionPayoutPolicy(p) => config.precision_payout_policy = *p,
        ConfigChangePayload::DisputeLedgers(l) => config.dispute_ledgers = *l,
        ConfigChangePayload::FeeModel(m) => config.fee_model = *m,
        ConfigChangePayload::EarlyCashoutBps(b) => config.early_cashout_bps = *b,
    }
    Ok(())
}

/// A configuration change waiting for its timelock.
#[derive(Clone, Copy, Debug, PartialEq, Eq, Structural)]
pub struct PendingConfigChange {
    pub payload: ConfigChangePayload,
    pub activation_ledger: u32,
    pub scheduled_at_ledger: u32,
}

/// Schedules a change at `current_ledger`: only one change of a kind may be
/// pending, and the change activates `CONFIG_TIMELOCK_LEDGERS` later.
pub fn _schedule_config_change(
    payload: ConfigChangePayload,
    already_pending: bool,
    current_ledger: u32,
) -> (r: Result<PendingConfigChange, ContractError>)
    ensures
        already_pending ==> r == Err::<PendingConfigChange, ContractError>(
            ContractError::RoundAlreadyActive,
        ),
        !already_pending && current_ledger + CONFIG_TIMELOCK_LEDGERS > u32::MAX ==> r == Err::<
            PendingConfigChange,
            ContractError,
        >(ContractError::Overflow),
        !already_pending && current_ledger + CONFIG_TIMELOCK_LEDGERS <= u32::MAX ==> r == Ok::<
            PendingConfigChange,
            ContractError,
        >(
            PendingConfigChange {
                payload,
                activation_ledger: (current_ledger + CONFIG_TIMELOCK_LEDGERS) as u32,
                scheduled_at_ledger: current_ledger,
            },
        ),
{
    if already_pending {
        return Err(ContractError::RoundAlreadyActive);
    }
    let activation_ledger = match current_ledger.checked_add(CONFIG_TIMELOCK_LEDGERS) {
        Some(v) => v,
        None => return Err(ContractError::Overflow),
    };
    Ok(PendingConfigChange { payload, activation_ledger, scheduled_at_ledger: current_ledger })
}

/// Validates a payload and schedules it, as every `schedule_*` entry point does.
pub fn schedule_config_change(
    payload: ConfigChangePayload,
    already_pending: bool,
    current_ledger: u32,
) -> (r: Result<PendingConfigChange, ContractError>)
    ensures
        payload_check(payload) is Err ==> r == Err::<PendingConfigChange, ContractError>(
            payload_check(payload)->Err_0,
        ),
        payload_check(payload) is Ok ==> r == (if already_pending {
            Err(ContractError::RoundAlreadyActive)
        } else if current_ledger + CONFIG_TIMELOCK_LEDGERS > u32::MAX {
            Err(ContractError::Overflow)
        } else {
            Ok(
                PendingConfigChange {
                    payload,
                    activation_ledger: (current_ledger + CONFIG_TIMELOCK_LEDGERS) as u32,
                    scheduled_at_ledger: current_ledger,
                },
            )
        }),
{
    validate_config_payload(&payload)?;
    _schedule_config_change(payload, already_pending, current_ledger)
}

/// Whether the timelock of a pending change has run out at `ledger`.
pub open spec fn timelock_gate(pending: PendingConfigChange, ledger: u32) -> Result<(), ContractError> {
    if ledger < pending.activation_ledger {
        Err(ContractError::RoundNotEnded)
    } else {
        Ok(())
    }
}

/// Whether a pending change may still be cancelled at `ledger`.
pub open spec fn cancel_check(pending: PendingConfigChange, ledger: u32) -> Result<(), ContractError> {
    if ledger >= pending.activation_ledger {
        Err(ContractError::RoundNotCancellable)
    } else {
        Ok(())
    }
}

/// Applies a pending change once its activation ledger is reached.
pub fn apply_scheduled_change(
    config: &mut ConfigState,
    kind: ConfigChangeKind,
    pending: &PendingConfigChange,
    current_ledger: u32,
) -> (r: Result<(), ContractError>)
    ensures
        timelock_gate(*pending, current_ledger) is Err ==> r == timelock_gate(
            *pending,
            current_ledger,
        ),
        timelock_gate(*pending, current_ledger) is Ok ==> r == (if payload_kind(pending.payload)
            != kind {
            Err(ContractError::InvalidMode)
        } else {
            payload_check(pending.payload)
        }),
        r is Ok ==> *final(config) == config_with(*old(config), pending.payload),
        r is Err ==> *final(config) == *old(config),
{
    if current_ledger < pending.activation_ledger {
        return Err(ContractError::RoundNotEnded);
    }
    _apply_config_payload(config, kind, &pending.payload)
}

/// A pending change may be cancelled only before its activation ledger.
pub fn cancel_config_change(pending: &PendingConfigChange, current_ledger: u32) -> (r: Result<
    (),
    ContractError,
>)
    ensures
        r == cancel_check(*pending, current_ledger),
{
    if current_ledger >= pending.activation_ledger {
        return Err(ContractError::RoundNotCancellable);
    }
    Ok(())
}

/// Writing an admissible value of a kind and reading that kind back gives the
/// value; every other kind reads as before.
pub proof fn law_config_read_after_write(c: ConfigState, p: ConfigChangePayload, other: ConfigChangeKind)
    ensures
        current_payload(config_with(c, p), payload_kind(p)) == p,
        other != payload_kind(p) ==> current_payload(config_with(c, p), other) == current_payload(
            c,
            other,
        ),
{
}

/// A scheduled change activates exactly `CONFIG_TIMELOCK_LEDGERS` after it
/// was scheduled; at every ledger it is either still cancellable or already
/// applicable, never both and never neither.
pub proof fn law_timelock_apply_xor_cancel(pending: PendingConfigChange, ledger: u32)
    requires
        pending.activation_ledger == pending.scheduled_at_ledger + CONFIG_TIMELOCK_LEDGERS,
    ensures
        timelock_gate(pending, ledger) is Ok <==> cancel_check(pending, ledger) is Err,
        ledger < pending.scheduled_at_ledger + CONFIG_TIMELOCK_LEDGERS ==> timelock_gate(
            pending,
            ledger,
        ) is Err,
{
}

} // verus!
