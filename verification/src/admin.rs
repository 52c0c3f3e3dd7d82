//! Runtime modes and the single policy gate, schema versioning, oracle
//! liveness and protocol health, and the maintenance rules of the admin.
use vstd::prelude::*;

use crate::common::{
    CURRENT_SCHEMA_VERSION, DEFAULT_ORACLE_QUORUM_MIN_OBSERVATIONS,
    DEFAULT_ORACLE_QUORUM_THRESHOLD, MAX_ORACLE_OBSERVATIONS, MAX_TWAP_WINDOW_SAMPLES,
    MIN_TWAP_WINDOW_SAMPLES,
};
use crate::errors::ContractError;
use crate::round::{_derive_round_phase, round_phase, Round, RoundPhase};
use crate::math_common::payout_add_spec;
use crate::math_common::payout_add;

use crate::config_entry::{schedule_oracle_deviation_bps, schedule_oracle_stale_threshold, schedule_outcome};
use crate::config_state::{ConfigChangePayload, PendingConfigChange};

verus! {

/// The operating mode of the protocol.
#[derive(Clone, Copy, Debug, PartialEq, Eq, Structural)]
pub enum RuntimeMode {
    Normal,
    ClaimsOnly,
    FullyPaused,
}

/// The class of a state-changing entry point, for the policy gate.
#[derive(Clone, Copy, Debug, PartialEq, Eq, Structural)]
pub enum PolicyAction {
    RoundMutation,
    Claim,
    AdminConfig,
    Settlement,
}

/// Whether `mode` blocks `action`: round mutations run only in `Normal`,
/// every other class is blocked only by `FullyPaused`.
pub open spec fn blocks(mode: RuntimeMode, action: PolicyAction) -> bool {
    match action {
        PolicyAction::RoundMutation => mode != RuntimeMode::Normal,
        _ => mode == RuntimeMode::FullyPaused,
    }
}

/// The single policy gate of every mutating entry point.
pub fn _policy_gate(mode: RuntimeMode, action: PolicyAction) -> (r: Result<(), ContractError>)
    ensures
        r == (if blocks(mode, action) {
            Err(ContractError::ContractPaused)
        } else {
            Ok(())
        }),
{
    let blocked = match action {
        PolicyAction::RoundMutation => mode != RuntimeMode::Normal,
        PolicyAction::Claim | PolicyAction::AdminConfig | PolicyAction::Settlement => mode
            == RuntimeMode::FullyPaused,
    };
    if blocked {
        return Err(ContractError::ContractPaused);
    }
    Ok(())
}

/// Blocked only by `FullyPaused`.
pub fn _ensure_not_paused(mode: RuntimeMode) -> (r: Result<(), ContractError>)
    ensures
        r == (if mode == RuntimeMode::FullyPaused {
            Err(ContractError::ContractPaused)
        } else {
            Ok(())
        }),
{
    _policy_gate(mode, PolicyAction::AdminConfig)
}

/// Blocked by every mode but `Normal`.
pub fn _ensure_normal_mode(mode: RuntimeMode) -> (r: Result<(), ContractError>)
    ensures
        r == (if mode != RuntimeMode::Normal {
            Err(ContractError::ContractPaused)
        } else {
            Ok(())
        }),
{
    _policy_gate(mode, PolicyAction::RoundMutation)
}

/// The numeric code of a mode (0 normal, 1 claims-only, 2 fully paused).
pub open spec fn mode_code(mode: RuntimeMode) -> u32 {
    match mode {
        RuntimeMode::Normal => 0,
        RuntimeMode::ClaimsOnly => 1,
        RuntimeMode::FullyPaused => 2,
    }
}

/// The runtime mode in force: `Normal` when none is stored.
pub fn _current_mode(stored: Option<RuntimeMode>) -> (m: RuntimeMode)
    ensures
        m == stored.unwrap_or(RuntimeMode::Normal),
{
    match stored {
        Some(m) => m,
        None => RuntimeMode::Normal,
    }
}

/// Returns the numeric code of the runtime mode.
pub fn get_runtime_mode(mode: RuntimeMode) -> (c: u32)
    ensures
        c == mode_code(mode),
{
    match mode {
        RuntimeMode::Normal => 0,
        RuntimeMode::ClaimsOnly => 1,
        RuntimeMode::FullyPaused => 2,
    }
}

/// Sets the runtime mode by its code (admin only; callable in every mode):
/// unknown codes are refused.
pub fn set_runtime_mode(stored_schema: Option<u32>, admin_set: bool, code: u32) -> (r: Result<
    RuntimeMode,
    ContractError,
>)
    ensures
        !schema_supported(stored_schema) ==> r == Err::<RuntimeMode, ContractError>(
            ContractError::UnsupportedSchemaVersion,
        ),
        schema_supported(stored_schema) && !admin_set ==> r == Err::<RuntimeMode, ContractError>(
            ContractError::AdminNotSet,
        ),
        schema_supported(stored_schema) && admin_set && code <= 2 ==> (r matches Ok(m)
            && mode_code(m) == code),
        schema_supported(stored_schema) && admin_set && code > 2 ==> r == Err::<
            RuntimeMode,
            ContractError,
        >(ContractError::InvalidMode),
{
    _require_supported_schema(stored_schema)?;
    if !admin_set {
        return Err(ContractError::AdminNotSet);
    }
    match code {
        0 => Ok(RuntimeMode::Normal),
        1 => Ok(RuntimeMode::ClaimsOnly),
        2 => Ok(RuntimeMode::FullyPaused),
        _ => Err(ContractError::InvalidMode),
    }
}

/// The protocol is paused exactly in `FullyPaused`.
pub fn is_paused(mode: RuntimeMode) -> (b: bool)
    ensures
        b == (mode == RuntimeMode::FullyPaused),
{
    mode == RuntimeMode::FullyPaused
}

/// Only a change of mode is recorded (and announced).
pub fn _set_mode(old_mode: RuntimeMode, new_mode: RuntimeMode) -> (changed: bool)
    ensures
        changed == (old_mode != new_mode),
{
    old_mode != new_mode
}

/// `FullyPaused` blocks every class of action, `Normal` none, and
/// `ClaimsOnly` exactly the round mutations.
pub proof fn law_policy_matrix(action: PolicyAction)
    ensures
        blocks(RuntimeMode::FullyPaused, action),
        !blocks(RuntimeMode::Normal, action),
        blocks(RuntimeMode::ClaimsOnly, action) <==> action == PolicyAction::RoundMutation,
{
}

/// A mode survives its round trip through its code.
pub proof fn law_mode_code_round_trip(mode: RuntimeMode)
    ensures
        mode_code(mode) <= 2,
        forall|m: RuntimeMode| mode_code(m) == mode_code(mode) ==> m == mode,
{
}

// ─── Schema versioning ──────────────────────────────────────────────────────

/// Whether a stored schema version (legacy version 1 when unset) is one this
/// code can serve: non-zero and not newer than the code.
pub open spec fn schema_supported(stored: Option<u32>) -> bool {
    let v = stored.unwrap_or(1u32);
    v != 0 && v <= CURRENT_SCHEMA_VERSION
}

/// The stored schema version, legacy version 1 when unset, is accepted when
/// it is non-zero and not newer than the code.
pub fn _require_supported_schema(stored: Option<u32>) -> (r: Result<u32, ContractError>)
    ensures
        ({
            let v = match stored {
                Some(v) => v,
                None => 1u32,
            };
            r == if v == 0 || v > CURRENT_SCHEMA_VERSION {
                Err(ContractError::UnsupportedSchemaVersion)
            } else {
                Ok(v)
            }
        }),
{
    let v = match stored {
        Some(v) => v,
        None => 1,
    };
    if v == 0 || v > CURRENT_SCHEMA_VERSION {
        return Err(ContractError::UnsupportedSchemaVersion);
    }
    Ok(v)
}

/// A schema migration `from_version -> from_version + 1`: refused while a
/// round is active or when the stored version is not `from_version`; the
/// stored version (legacy 1 when unset) is what is checked. Returns whether
/// the new version must be written (not on a dry run).
pub fn migrate_schema_step(
    mode: RuntimeMode,
    has_active_round: bool,
    stored: Option<u32>,
    from_version: u32,
    dry_run: bool,
) -> (r: Result<bool, ContractError>)
    ensures
        mode == RuntimeMode::FullyPaused ==> r == Err::<bool, ContractError>(
            ContractError::ContractPaused,
        ),
        mode != RuntimeMode::FullyPaused && has_active_round ==> r == Err::<bool, ContractError>(
            ContractError::MigrationActiveRound,
        ),
        mode != RuntimeMode::FullyPaused && !has_active_round ==> r == (if (match stored {
            Some(v) => v,
            None => 1u32,
        }) != from_version {
            Err(ContractError::UnsupportedSchemaVersion)
        } else {
            Ok(!dry_run)
        }),
{
    _ensure_not_paused(mode)?;
    if has_active_round {
        return Err(ContractError::MigrationActiveRound);
    }
    let from = match stored {
        Some(v) => v,
        None => 1,
    };
    if from != from_version {
        return Err(ContractError::UnsupportedSchemaVersion);
    }
    Ok(!dry_run)
}

/// The stored schema version; an unset version reads as the legacy version 1.
pub fn get_schema_version(stored: Option<u32>) -> (v: u32)
    ensures
        v == (match stored {
            Some(v) => v,
            None => 1u32,
        }),
{
    match stored {
        Some(v) => v,
        None => 1,
    }
}

/// What a migration from `from_version` to `from_version + 1` gives: the
/// version to store (`None` on a dry run, which checks everything and writes
/// nothing), or the reason it is refused.
pub open spec fn migration_outcome(
    admin_set: bool,
    mode: RuntimeMode,
    has_active_round: bool,
    stored: Option<u32>,
    from_version: u32,
    dry_run: bool,
) -> Result<Option<u32>, ContractError> {
    if !admin_set {
        Err(ContractError::AdminNotSet)
    } else if mode == RuntimeMode::FullyPaused {
        Err(ContractError::ContractPaused)
    } else if has_active_round {
        Err(ContractError::MigrationActiveRound)
    } else if (match stored {
        Some(v) => v,
        None => 1u32,
    }) != from_version {
        Err(ContractError::UnsupportedSchemaVersion)
    } else if dry_run {
        Ok(None)
    } else {
        Ok(Some((from_version + 1) as u32))
    }
}

fn migrate_from(
    admin_set: bool,
    mode: RuntimeMode,
    has_active_round: bool,
    stored: Option<u32>,
    from_version: u32,
    dry_run: bool,
) -> (r: Result<Option<u32>, ContractError>)
    requires
        from_version < u32::MAX,
    ensures
        r == migration_outcome(admin_set, mode, has_active_round, stored, from_version, dry_run),
{
    if !admin_set {
        return Err(ContractError::AdminNotSet);
    }
    let write = migrate_schema_step(mode, has_active_round, stored, from_version, dry_run)?;
    if write {
        Ok(Some(from_version + 1))
    } else {
        Ok(None)
    }
}

/// Migrates the legacy schema version 1 to version 2 (admin only); a dry run
/// performs every check and writes nothing.
pub fn migrate_schema_v1_to_v2(
    admin_set: bool,
    mode: RuntimeMode,
    has_active_round: bool,
    stored: Option<u32>,
    dry_run: bool,
) -> (r: Result<Option<u32>, ContractError>)
    ensures
        r == migration_outcome(admin_set, mode, has_active_round, stored, 1, dry_run),
{
    migrate_from(admin_set, mode, has_active_round, stored, 1, dry_run)
}

/// Migrates schema version 2 to version 3 (admin only); a dry run performs
/// every check and writes nothing. On success the caller also records that
/// the contract was migrated to version 3.
pub fn migrate_schema_v2_to_v3(
    admin_set: bool,
    mode: RuntimeMode,
    has_active_round: bool,
    stored: Option<u32>,
    dry_run: bool,
) -> (r: Result<Option<u32>, ContractError>)
    ensures
        r == migration_outcome(admin_set, mode, has_active_round, stored, 2, dry_run),
{
    migrate_from(admin_set, mode, has_active_round, stored, 2, dry_run)
}

/// Clears an announced next schema version (admin only) and returns it;
/// refused when none was announced.
pub fn clear_next_schema(stored_schema: Option<u32>, admin_set: bool, next: Option<u32>) -> (r:
    Result<u32, ContractError>)
    ensures
        !schema_supported(stored_schema) ==> r == Err::<u32, ContractError>(
            ContractError::UnsupportedSchemaVersion,
        ),
        schema_supported(stored_schema) ==> r == (if !admin_set {
            Err(ContractError::AdminNotSet)
        } else {
            match next {
                Some(v) => Ok(v),
                None => Err(ContractError::UnsupportedSchemaVersion),
            }
        }),
{
    _require_supported_schema(stored_schema)?;
    if !admin_set {
        return Err(ContractError::AdminNotSet);
    }
    match next {
        Some(v) => Ok(v),
        None => Err(ContractError::UnsupportedSchemaVersion),
    }
}

/// Schedules a new bound on a settlement price's deviation through the
/// configuration timelock.
pub fn set_oracle_max_deviation_bps(
    ctx: &AdminContext,
    bps: Option<u32>,
    already_pending: bool,
    current_ledger: u32,
) -> (r: Result<PendingConfigChange, ContractError>)
    ensures
        r == schedule_outcome(
            *ctx,
            ConfigChangePayload::OracleMaxDeviationBps(bps),
            already_pending,
            current_ledger,
        ),
{
    schedule_oracle_deviation_bps(ctx, bps, already_pending, current_ledger)
}

/// Schedules a new oracle staleness threshold through the configuration
/// timelock.
pub fn set_oracle_stale_threshold(
    ctx: &AdminContext,
    seconds: u64,
    already_pending: bool,
    current_ledger: u32,
) -> (r: Result<PendingConfigChange, ContractError>)
    ensures
        r == schedule_outcome(
            *ctx,
            ConfigChangePayload::OracleStaleThreshold(seconds),
            already_pending,
            current_ledger,
        ),
{
    schedule_oracle_stale_threshold(ctx, seconds, already_pending, current_ledger)
}

/// Announces the schema version of the next planned migration (admin only);
/// it must be newer than the current one. Returns the version to record.
pub fn announce_next_schema(stored_schema: Option<u32>, admin_set: bool, target_version: u32) -> (r:
    Result<u32, ContractError>)
    ensures
        r == (if !schema_supported(stored_schema) {
            Err(ContractError::UnsupportedSchemaVersion)
        } else if !admin_set {
            Err(ContractError::AdminNotSet)
        } else if target_version == 0 || target_version <= CURRENT_SCHEMA_VERSION {
            Err(ContractError::UnsupportedSchemaVersion)
        } else {
            Ok(target_version)
        }),
{
    _require_supported_schema(stored_schema)?;
    if !admin_set {
        return Err(ContractError::AdminNotSet);
    }
    if target_version == 0 || target_version <= CURRENT_SCHEMA_VERSION {
        return Err(ContractError::UnsupportedSchemaVersion);
    }
    Ok(target_version)
}

/// Initialization: admin and oracle must differ and it happens once.
pub fn initialize(admin: u64, oracle: u64, already_initialized: bool) -> (r: Result<(), ContractError>)
    ensures
        r == (if admin == oracle {
            Err(ContractError::OracleNetworkMismatch)
        } else if already_initialized {
            Err(ContractError::AlreadyInitialized)
        } else {
            Ok(())
        }),
{
    if admin == oracle {
        return Err(ContractError::OracleNetworkMismatch);
    }
    if already_initialized {
        return Err(ContractError::AlreadyInitialized);
    }
    Ok(())
}

// ─── Storage keys eligible for maintenance ─────────────────────────────────

/// Storage keys of the leaderboard extension.
#[derive(Clone, Copy, Debug, PartialEq, Eq, Structural)]
pub enum DataKeyExt {
    LeaderboardWins,
    LeaderboardStreak,
    SeasonId,
    SeasonLeaderboardWins,
    SeasonLeaderboardStreak,
}

/// The protocol-wide storage keys.
#[derive(Clone, Copy, Debug, PartialEq, Eq, Structural)]
pub enum DataKeyCore {
    AccessControlEnabled,
    ActiveRound,
    Admin,
    ArchiveRetention,
    BetWindowLedgers,
    CloseBufferLedgers,
    EarlyCashoutBps,
    Ext(DataKeyExt),
    FeeModel,
    GovApprover,
    GovProposalTtlLedgers,
    LastRoundId,
    MaxPendingWinnings,
    MaxPrecisionParticipants,
    MaxStake,
    MaxUserRoundExposure,
    MigratedToV3,
    MinBet,
    MinParticipants,
    MintLimitConfig,
    NextGovProposalId,
    NextSchemaVersion,
    Oracle,
    OracleDeviationOverrideArmed,
    OracleHeartbeat,
    OracleMaxDeviationBps,
    OracleMinConfidenceBps,
    OracleQuorum,
    OracleRotationProposal,
    OracleStaleThreshold,
    OracleStrictMode,
    Paused,
    Positions,
    PrecisionPayoutPolicy,
    PrecisionPositions,
    ProtocolFeeBps,
    ProtocolFeeTreasury,
    RecentArchivedRoundIds,
    RoundTemplate,
    RunWindowLedgers,
    SchemaVersion,
    SealedBatchAuction,
    UpDownPositions,
}

/// The system-critical, long-lived keys a maintainer may keep alive.
pub open spec fn ttl_touch_allowed(key: DataKeyCore) -> bool {
    match key {
        DataKeyCore::Admin | DataKeyCore::Oracle | DataKeyCore::SchemaVersion
        | DataKeyCore::Paused | DataKeyCore::BetWindowLedgers | DataKeyCore::RunWindowLedgers
        | DataKeyCore::CloseBufferLedgers | DataKeyCore::MaxStake
        | DataKeyCore::MaxUserRoundExposure | DataKeyCore::MaxPendingWinnings
        | DataKeyCore::MinParticipants | DataKeyCore::MaxPrecisionParticipants
        | DataKeyCore::OracleHeartbeat | DataKeyCore::OracleStaleThreshold
        | DataKeyCore::OracleMaxDeviationBps | DataKeyCore::OracleDeviationOverrideArmed
        | DataKeyCore::OracleMinConfidenceBps | DataKeyCore::OracleStrictMode
        | DataKeyCore::ProtocolFeeBps | DataKeyCore::ProtocolFeeTreasury
        | DataKeyCore::MigratedToV3 | DataKeyCore::ArchiveRetention | DataKeyCore::RoundTemplate
        | DataKeyCore::Ext(_) | DataKeyCore::LastRoundId | DataKeyCore::OracleRotationProposal
        | DataKeyCore::MintLimitConfig => true,
        _ => false,
    }
}

/// Whether a key is eligible for a batch TTL extension.
pub fn _is_ttl_touch_allowed(key: &DataKeyCore) -> (b: bool)
    ensures
        b == ttl_touch_allowed(*key),
{
    match key {
        DataKeyCore::Admin | DataKeyCore::Oracle | DataKeyCore::SchemaVersion
        | DataKeyCore::Paused | DataKeyCore::BetWindowLedgers | DataKeyCore::RunWindowLedgers
        | DataKeyCore::CloseBufferLedgers | DataKeyCore::MaxStake
        | DataKeyCore::MaxUserRoundExposure | DataKeyCore::MaxPendingWinnings
        | DataKeyCore::MinParticipants | DataKeyCore::MaxPrecisionParticipants
        | DataKeyCore::OracleHeartbeat | DataKeyCore::OracleStaleThreshold
        | DataKeyCore::OracleMaxDeviationBps | DataKeyCore::OracleDeviationOverrideArmed
        | DataKeyCore::OracleMinConfidenceBps | DataKeyCore::OracleStrictMode
        | DataKeyCore::ProtocolFeeBps | DataKeyCore::ProtocolFeeTreasury
        | DataKeyCore::MigratedToV3 | DataKeyCore::ArchiveRetention | DataKeyCore::RoundTemplate
        | DataKeyCore::Ext(_) | DataKeyCore::LastRoundId | DataKeyCore::OracleRotationProposal
        | DataKeyCore::MintLimitConfig => true,
        _ => false,
    }
}

/// Number of present keys among the first `n` keys.
pub open spec fn count_present(present: Seq<bool>) -> nat
    decreases present.len(),
{
    if present.len() == 0 {
        0
    } else {
        count_present(present.drop_last()) + if present.last() {
            1nat
        } else {
            0
        }
    }
}

/// A batch TTL extension: refused as a whole if any key is not eligible;
/// otherwise the present keys are touched. Returns `(touched, skipped)`.
pub fn batch_touch_ttl(
    admin_set: bool,
    mode: RuntimeMode,
    keys: &[DataKeyCore],
    present: &[bool],
) -> (r: Result<(u32, u32), ContractError>)
    requires
        keys@.len() == present@.len(),
        keys@.len() <= u32::MAX,
    ensures
        !admin_set ==> r == Err::<(u32, u32), ContractError>(ContractError::AdminNotSet),
        admin_set && mode == RuntimeMode::FullyPaused ==> r == Err::<(u32, u32), ContractError>(
            ContractError::ContractPaused,
        ),
        admin_set && mode != RuntimeMode::FullyPaused && (exists|i: int|
            0 <= i < keys@.len() && !ttl_touch_allowed(#[trigger] keys@[i])) ==> r == Err::<
            (u32, u32),
            ContractError,
        >(ContractError::UnsupportedDataKeyForTtlTouch),
        admin_set && mode != RuntimeMode::FullyPaused && (forall|i: int|
            0 <= i < keys@.len() ==> ttl_touch_allowed(#[trigger] keys@[i])) ==> (r matches Ok(
            (t, s),
        ) && t == count_present(present@) && t + s == keys@.len()),
{
    if !admin_set {
        return Err(ContractError::AdminNotSet);
    }
    _ensure_not_paused(mode)?;
    let mut touched: u32 = 0;
    let mut skipped: u32 = 0;
    let mut i: usize = 0;
    while i < keys.len()
        invariant
            admin_set,
            mode != RuntimeMode::FullyPaused,
            keys@.len() == present@.len(),
            keys@.len() <= u32::MAX,
            i <= keys@.len(),
            forall|k: int| 0 <= k < i ==> ttl_touch_allowed(#[trigger] keys@[k]),
            touched == count_present(present@.take(i as int)),
            touched + skipped == i,
        decreases keys@.len() - i,
    {
        if !_is_ttl_touch_allowed(&keys[i]) {
            return Err(ContractError::UnsupportedDataKeyForTtlTouch);
        }
        proof {
            assert(present@.take(i + 1).drop_last() =~= present@.take(i as int));
        }
        if present[i] {
            touched = touched + 1;
        } else {
            skipped = skipped + 1;
        }
        i = i + 1;
    }
    proof {
        assert(present@.take(present@.len() as int) =~= present@);
    }
    Ok((touched, skipped))
}

// ─── Oracle configuration ───────────────────────────────────────────────────

/// Multi-feed oracle quorum configuration.
#[derive(Clone, Copy, Debug, PartialEq, Eq, Structural)]
pub struct OracleQuorumConfig {
    pub min_observations: u32,
    pub quorum_threshold: u32,
    pub outlier_threshold_bps: u32,
}

/// A quorum configuration: between the default and the maximum number of
/// observations, a threshold between the default and the observations, and
/// an outlier threshold in `1..=10_000` bps.
pub open spec fn quorum_config_check(cfg: OracleQuorumConfig) -> Result<(), ContractError> {
    if cfg.min_observations < DEFAULT_ORACLE_QUORUM_MIN_OBSERVATIONS || cfg.min_observations
        > MAX_ORACLE_OBSERVATIONS {
        Err(ContractError::TooFewObservations)
    } else if cfg.quorum_threshold < DEFAULT_ORACLE_QUORUM_THRESHOLD || cfg.quorum_threshold
        > cfg.min_observations {
        Err(ContractError::InsufficientOracleQuorum)
    } else if cfg.outlier_threshold_bps == 0 || cfg.outlier_threshold_bps > 10_000 {
        Err(ContractError::WindowOutOfRange)
    } else {
        Ok(())
    }
}

/// Validates a quorum configuration.
pub fn _validate_quorum_config(cfg: &OracleQuorumConfig) -> (r: Result<(), ContractError>)
    ensures
        r == quorum_config_check(*cfg),
{
    if cfg.min_observations < DEFAULT_ORACLE_QUORUM_MIN_OBSERVATIONS || cfg.min_observations
        > MAX_ORACLE_OBSERVATIONS {
        return Err(ContractError::TooFewObservations);
    }
    if cfg.quorum_threshold < DEFAULT_ORACLE_QUORUM_THRESHOLD || cfg.quorum_threshold
        > cfg.min_observations {
        return Err(ContractError::InsufficientOracleQuorum);
    }
    if cfg.outlier_threshold_bps == 0 || cfg.outlier_threshold_bps > 10_000 {
        return Err(ContractError::WindowOutOfRange);
    }
    Ok(())
}

/// The reference price of the oracle deviation guardrail.
#[derive(Clone, Copy, Debug, PartialEq, Eq, Structural)]
pub enum DeviationReferenceMode {
    StartPrice,
    Twap,
}

/// The deviation guardrail's reference: the mode and, for the TWAP mode,
/// the number of trailing samples.
#[derive(Clone, Copy, Debug, PartialEq, Eq, Structural)]
pub struct DeviationConfig {
    pub reference_mode: DeviationReferenceMode,
    pub window_samples: u32,
}

/// The deviation configuration in force: the start price, with the
/// smallest TWAP window, when none is stored.
pub fn _load_deviation_config(stored: Option<DeviationConfig>) -> (c: DeviationConfig)
    ensures
        c == stored.unwrap_or(
            DeviationConfig {
                reference_mode: DeviationReferenceMode::StartPrice,
                window_samples: MIN_TWAP_WINDOW_SAMPLES,
            },
        ),
{
    match stored {
        Some(c) => c,
        None => DeviationConfig {
            reference_mode: DeviationReferenceMode::StartPrice,
            window_samples: MIN_TWAP_WINDOW_SAMPLES,
        },
    }
}

/// The configured deviation reference mode.
pub fn get_deviation_ref_mode(config: &DeviationConfig) -> (m: DeviationReferenceMode)
    ensures
        m == config.reference_mode,
{
    config.reference_mode
}

/// The configured TWAP window in samples.
pub fn get_deviation_window_samples(config: &DeviationConfig) -> (n: u32)
    ensures
        n == config.window_samples,
{
    config.window_samples
}

/// Sets the deviation reference mode (admin only); the TWAP mode needs a
/// window within its sample range. Returns the configuration to store.
pub fn set_deviation_ref_mode(ctx: &AdminContext, mode: DeviationReferenceMode, window_samples: u32) -> (r: Result<
    DeviationConfig,
    ContractError,
>)
    ensures
        r == (match admin_gate(*ctx) {
            Err(e) => Err(e),
            Ok(_) => if mode == DeviationReferenceMode::Twap && !(MIN_TWAP_WINDOW_SAMPLES
                <= window_samples <= MAX_TWAP_WINDOW_SAMPLES) {
                Err(ContractError::WindowOutOfRange)
            } else {
                Ok(DeviationConfig { reference_mode: mode, window_samples })
            },
        }),
{
    require_admin_action(ctx)?;
    if mode == DeviationReferenceMode::Twap && !(MIN_TWAP_WINDOW_SAMPLES <= window_samples
        && window_samples <= MAX_TWAP_WINDOW_SAMPLES) {
        return Err(ContractError::WindowOutOfRange);
    }
    Ok(DeviationConfig { reference_mode: mode, window_samples })
}

/// Sets (or clears) the minimum oracle confidence, at most 10 000 bps
/// (admin only).
pub fn set_oracle_min_confidence_bps(ctx: &AdminContext, min_bps: Option<u32>) -> (r: Result<
    Option<u32>,
    ContractError,
>)
    ensures
        r == (match admin_gate(*ctx) {
            Err(e) => Err(e),
            Ok(_) => if min_bps matches Some(b) && b > 10_000 {
                Err(ContractError::WindowOutOfRange)
            } else {
                Ok(min_bps)
            },
        }),
{
    require_admin_action(ctx)?;
    if let Some(bps) = min_bps {
        if bps > 10_000 {
            return Err(ContractError::WindowOutOfRange);
        }
    }
    Ok(min_bps)
}

/// Turns the strict confidence mode on or off (admin only).
pub fn set_oracle_strict_mode(ctx: &AdminContext, enabled: bool) -> (r: Result<bool, ContractError>)
    ensures
        r == (match admin_gate(*ctx) {
            Err(e) => Err(e),
            Ok(_) => Ok(enabled),
        }),
{
    require_admin_action(ctx)?;
    Ok(enabled)
}

/// Sets (or clears) the oracle attestation key (admin only).
pub fn set_attestation_key(ctx: &AdminContext, key: Option<[u8; 32]>) -> (r: Result<
    Option<[u8; 32]>,
    ContractError,
>)
    ensures
        admin_gate(*ctx) is Err ==> r is Err && r->Err_0 == admin_gate(*ctx)->Err_0,
        admin_gate(*ctx) is Ok ==> r is Ok && r->Ok_0 == key,
{
    require_admin_action(ctx)?;
    Ok(key)
}

/// Arms the one-shot deviation override for the next settlement (admin
/// only; no schema check).
pub fn arm_oracle_deviation_override(admin_set: bool, runtime_mode: RuntimeMode) -> (r: Result<
    (),
    ContractError,
>)
    ensures
        r == (if !admin_set {
            Err(ContractError::AdminNotSet)
        } else if runtime_mode == RuntimeMode::FullyPaused {
            Err(ContractError::ContractPaused)
        } else {
            Ok(())
        }),
{
    if !admin_set {
        return Err(ContractError::AdminNotSet);
    }
    _ensure_not_paused(runtime_mode)
}

/// The heartbeat gate configuration.
#[derive(Clone, Copy, Debug, PartialEq, Eq, Structural)]
pub struct HbGateConfig {
    pub strict_mode: bool,
    pub override_armed: bool,
    pub grace_seconds: u64,
}

/// The heartbeat gate configuration in force: off, unarmed, no grace when
/// none is stored.
pub fn _load_hb_config(stored: Option<HbGateConfig>) -> (c: HbGateConfig)
    ensures
        c == stored.unwrap_or(
            HbGateConfig { strict_mode: false, override_armed: false, grace_seconds: 0 },
        ),
{
    match stored {
        Some(c) => c,
        None => HbGateConfig { strict_mode: false, override_armed: false, grace_seconds: 0 },
    }
}

/// Whether the strict heartbeat gate is on.
pub fn get_hb_strict_mode(config: &HbGateConfig) -> (b: bool)
    ensures
        b == config.strict_mode,
{
    config.strict_mode
}

/// Whether the one-shot heartbeat override is armed.
pub fn get_hb_override_armed(config: &HbGateConfig) -> (b: bool)
    ensures
        b == config.override_armed,
{
    config.override_armed
}

/// The heartbeat grace period in seconds.
pub fn get_hb_grace_seconds(config: &HbGateConfig) -> (s: u64)
    ensures
        s == config.grace_seconds,
{
    config.grace_seconds
}

/// Turns the strict heartbeat gate on or off (admin only).
pub fn set_hb_strict_mode(ctx: &AdminContext, config: HbGateConfig, enabled: bool) -> (r: Result<
    HbGateConfig,
    ContractError,
>)
    ensures
        r == (match admin_gate(*ctx) {
            Err(e) => Err(e),
            Ok(_) => Ok(HbGateConfig { strict_mode: enabled, ..config }),
        }),
{
    require_admin_action(ctx)?;
    Ok(HbGateConfig { strict_mode: enabled, override_armed: config.override_armed, grace_seconds: config.grace_seconds })
}

/// Arms the one-shot heartbeat override (admin only; no schema check).
pub fn arm_hb_override(admin_set: bool, runtime_mode: RuntimeMode, config: HbGateConfig) -> (r:
    Result<HbGateConfig, ContractError>)
    ensures
        r == (if !admin_set {
            Err(ContractError::AdminNotSet)
        } else if runtime_mode == RuntimeMode::FullyPaused {
            Err(ContractError::ContractPaused)
        } else {
            Ok(HbGateConfig { override_armed: true, ..config })
        }),
{
    if !admin_set {
        return Err(ContractError::AdminNotSet);
    }
    _ensure_not_paused(runtime_mode)?;
    Ok(HbGateConfig { strict_mode: config.strict_mode, override_armed: true, grace_seconds: config.grace_seconds })
}

/// Sets the heartbeat grace period (admin only).
pub fn set_hb_grace_seconds(ctx: &AdminContext, config: HbGateConfig, seconds: u64) -> (r: Result<
    HbGateConfig,
    ContractError,
>)
    ensures
        r == (match admin_gate(*ctx) {
            Err(e) => Err(e),
            Ok(_) => Ok(HbGateConfig { grace_seconds: seconds, ..config }),
        }),
{
    require_admin_action(ctx)?;
    Ok(HbGateConfig { strict_mode: config.strict_mode, override_armed: config.override_armed, grace_seconds: seconds })
}

/// Uses up the heartbeat override: returns whether it was armed, and the
/// configuration with it disarmed.
pub fn _consume_hb_override(config: HbGateConfig) -> (r: (bool, HbGateConfig))
    ensures
        r == (config.override_armed, HbGateConfig { override_armed: false, ..config }),
{
    (config.override_armed, HbGateConfig { strict_mode: config.strict_mode, override_armed: false, grace_seconds: config.grace_seconds })
}

/// Sets (or clears, with `None`) the multi-feed quorum configuration
/// (admin only); a configuration must be valid.
pub fn set_oracle_quorum_config(ctx: &AdminContext, config: Option<OracleQuorumConfig>) -> (r:
    Result<Option<OracleQuorumConfig>, ContractError>)
    ensures
        r == (match admin_gate(*ctx) {
            Err(e) => Err(e),
            Ok(_) => match config {
                None => Ok(None),
                Some(c) => match quorum_config_check(c) {
                    Err(e) => Err(e),
                    Ok(_) => Ok(Some(c)),
                },
            },
        }),
{
    require_admin_action(ctx)?;
    if let Some(c) = config {
        _validate_quorum_config(&c)?;
    }
    Ok(config)
}

// ─── Oracle heartbeat ───────────────────────────────────────────────────────

/// The last heartbeat of the oracle: when, and its status (2 = offline).
#[derive(Clone, Copy, Debug, PartialEq, Eq, Structural)]
pub struct OracleHeartbeatRecord {
    pub timestamp: u64,
    pub status: u32,
}

/// Records an oracle heartbeat (oracle only): the status must be 0, 1
/// or 2 (2 = offline).
pub fn update_oracle_heartbeat(stored_schema: Option<u32>, oracle_set: bool, status: u32, now: u64) -> (r: Result<
    OracleHeartbeatRecord,
    ContractError,
>)
    ensures
        r == (if !schema_supported(stored_schema) {
            Err(ContractError::UnsupportedSchemaVersion)
        } else if status > 2 {
            Err(ContractError::InvalidMode)
        } else if !oracle_set {
            Err(ContractError::OracleNotSet)
        } else {
            Ok(OracleHeartbeatRecord { timestamp: now, status })
        }),
{
    _require_supported_schema(stored_schema)?;
    if status > 2 {
        return Err(ContractError::InvalidMode);
    }
    if !oracle_set {
        return Err(ContractError::OracleNotSet);
    }
    Ok(OracleHeartbeatRecord { timestamp: now, status })
}

/// `a + b` saturating at `u64::MAX`.
pub open spec fn sat_add_u64(a: u64, b: u64) -> u64 {
    if a + b > u64::MAX {
        u64::MAX
    } else {
        (a + b) as u64
    }
}

/// The oracle is live when it has a heartbeat that is not offline and not
/// older than the stale threshold.
pub open spec fn oracle_live(record: Option<OracleHeartbeatRecord>, threshold: u64, now: u64) -> bool {
    match record {
        None => false,
        Some(r) => r.status != 2 && now <= sat_add_u64(r.timestamp, threshold),
    }
}

/// Whether the oracle is live at `now`.
pub fn is_oracle_live(record: Option<OracleHeartbeatRecord>, threshold: u64, now: u64) -> (b: bool)
    ensures
        b == oracle_live(record, threshold, now),
{
    match record {
        None => false,
        Some(r) => {
            if r.status == 2 {
                return false;
            }
            now <= r.timestamp.saturating_add(threshold)
        },
    }
}

/// The heartbeat gate of settlement blocks without a heartbeat, when the
/// oracle is offline, or once the stale threshold and the grace period have
/// both passed.
pub open spec fn heartbeat_blocked(
    record: Option<OracleHeartbeatRecord>,
    threshold: u64,
    grace: u64,
    now: u64,
) -> bool {
    match record {
        None => true,
        Some(r) => r.status == 2 || now > sat_add_u64(sat_add_u64(r.timestamp, threshold), grace),
    }
}

/// Whether the heartbeat gate blocks settlement at `now`.
pub fn _check_heartbeat_health_blocked(
    record: Option<OracleHeartbeatRecord>,
    threshold: u64,
    grace_seconds: u64,
    now: u64,
) -> (b: bool)
    ensures
        b == heartbeat_blocked(record, threshold, grace_seconds, now),
{
    match record {
        None => true,
        Some(r) => {
            if r.status == 2 {
                return true;
            }
            let deadline = r.timestamp.saturating_add(threshold).saturating_add(grace_seconds);
            now > deadline
        },
    }
}

/// A live oracle never blocks the heartbeat gate: the grace period only
/// extends the time before settlement is blocked.
pub proof fn law_live_oracle_not_blocked(
    record: Option<OracleHeartbeatRecord>,
    threshold: u64,
    grace: u64,
    now: u64,
)
    ensures
        oracle_live(record, threshold, now) ==> !heartbeat_blocked(record, threshold, grace, now),
{
}

/// A composite protocol health report.
#[derive(Clone, Copy, Debug, PartialEq, Eq, Structural)]
pub struct ProtocolHealthStatus {
    pub paused: bool,
    pub oracle_live: bool,
    pub oracle_status: u32,
    pub has_active_round: bool,
    pub active_round_phase: u32,
    pub schema_version: u32,
    pub ledger_sequence: u32,
    pub ledger_timestamp: u64,
    pub status_code: u32,
}

/// The health code: 1 paused, 5 several issues, 6 claims-only, 2 oracle
/// stale, 3 round stale, 4 no active round, 0 healthy.
pub open spec fn health_code(
    paused: bool,
    oracle_live: bool,
    has_active_round: bool,
    phase_code: u32,
    claims_only: bool,
) -> u32 {
    let issues = (if paused {
        1int
    } else {
        0
    }) + (if !oracle_live {
        1int
    } else {
        0
    }) + (if has_active_round && phase_code == 3 {
        1int
    } else {
        0
    });
    if paused {
        1
    } else if issues > 1 {
        5
    } else if claims_only {
        6
    } else if !oracle_live {
        2
    } else if has_active_round && phase_code == 3 {
        3
    } else if !has_active_round {
        4
    } else {
        0
    }
}

/// Builds the health report from what the protocol holds at one ledger.
pub fn get_protocol_health(
    mode: RuntimeMode,
    heartbeat: Option<OracleHeartbeatRecord>,
    stale_threshold: u64,
    active_round_phase: Option<u32>,
    stored_schema: Option<u32>,
    ledger_sequence: u32,
    ledger_timestamp: u64,
) -> (h: ProtocolHealthStatus)
    ensures
        h.paused == (mode == RuntimeMode::FullyPaused),
        h.oracle_live == oracle_live(heartbeat, stale_threshold, ledger_timestamp),
        h.oracle_status == match heartbeat {
            None => 3u32,
            Some(r) => r.status,
        },
        h.has_active_round == active_round_phase is Some,
        h.active_round_phase == match active_round_phase {
            None => 0u32,
            Some(p) => p,
        },
        h.schema_version == match stored_schema {
            None => 1u32,
            Some(v) => v,
        },
        h.ledger_sequence == ledger_sequence,
        h.ledger_timestamp == ledger_timestamp,
        h.status_code == health_code(
            h.paused,
            h.oracle_live,
            h.has_active_round,
            h.active_round_phase,
            mode == RuntimeMode::ClaimsOnly,
        ),
{
    let paused = is_paused(mode);
    let oracle_is_live = is_oracle_live(heartbeat, stale_threshold, ledger_timestamp);
    let oracle_status = match heartbeat {
        None => 3u32,
        Some(r) => r.status,
    };
    let (has_active_round, phase) = match active_round_phase {
        None => (false, 0u32),
        Some(p) => (true, p),
    };
    let schema_version = match stored_schema {
        None => 1u32,
        Some(v) => v,
    };
    let is_claims_only = mode == RuntimeMode::ClaimsOnly;
    let mut issues: u32 = 0;
    if paused {
        issues = issues + 1;
    }
    if !oracle_is_live {
        issues = issues + 1;
    }
    if has_active_round && phase == 3 {
        issues = issues + 1;
    }
    let status_code = if paused {
        1u32
    } else if issues > 1 {
        5u32
    } else if is_claims_only {
        6u32
    } else if !oracle_is_live {
        2u32
    } else if has_active_round && phase == 3 {
        3u32
    } else if !has_active_round {
        4u32
    } else {
        0u32
    };
    ProtocolHealthStatus {
        paused,
        oracle_live: oracle_is_live,
        oracle_status,
        has_active_round,
        active_round_phase: phase,
        schema_version,
        ledger_sequence,
        ledger_timestamp,
        status_code,
    }
}

/// The number of a round phase, in the order the phases are declared.
pub open spec fn phase_code(p: RoundPhase) -> u32 {
    match p {
        RoundPhase::Betting => 0,
        RoundPhase::Running => 1,
        RoundPhase::Resolvable => 2,
    }
}

/// The phase number of the active round at `ledger_sequence`, or `None`
/// when no round is active: what the health report reads of the round.
pub fn active_round_phase_code(ledger_sequence: u32, active: Option<Round>) -> (c: Option<u32>)
    ensures
        c == match active {
            None => None,
            Some(r) => Some(phase_code(round_phase(ledger_sequence, r))),
        },
{
    match active {
        None => None,
        Some(r) => Some(
            match _derive_round_phase(ledger_sequence, &r) {
                RoundPhase::Betting => 0u32,
                RoundPhase::Running => 1u32,
                RoundPhase::Resolvable => 2u32,
            },
        ),
    }
}

// ─── Pending winnings expiry ────────────────────────────────────────────────

/// The outcome of reclaiming a user's expired pending winnings: refused
/// while fully paused; `NoActiveRound` when expiry is disabled (0) or the
/// user has no pending entry; `PendingWinningsNotExpired` before the expiry;
/// otherwise the pending amount and the admin's new balance.
pub open spec fn reclaim_outcome(
    ctx: AdminContext,
    expiry_ledgers: u32,
    pending: i128,
    updated_at: Option<u32>,
    current_ledger: u32,
    admin_balance: i128,
) -> Result<(i128, i128), ContractError> {
    if admin_gate(ctx) is Err {
        Err(admin_gate(ctx)->Err_0)
    } else if expiry_ledgers == 0 || pending == 0 {
        Err(ContractError::NoActiveRound)
    } else {
        match updated_at {
            None => Err(ContractError::NoActiveRound),
            Some(u) => if (if current_ledger >= u {
                current_ledger - u
            } else {
                0
            }) < expiry_ledgers {
                Err(ContractError::PendingWinningsNotExpired)
            } else {
                match payout_add_spec(admin_balance, pending) {
                    Ok(b) => Ok((pending, b)),
                    Err(e) => Err(e),
                }
            },
        }
    }
}

/// Reclaims a user's expired pending winnings for the admin: `NoActiveRound`
/// when expiry is disabled or nothing is pending, `PendingWinningsNotExpired`
/// before the entry is old enough. Returns `(reclaimed, new_admin_balance)`.
pub fn reclaim_expired_pending_winnings(
    ctx: &AdminContext,
    expiry_ledgers: u32,
    pending: i128,
    updated_at: Option<u32>,
    current_ledger: u32,
    admin_balance: i128,
) -> (r: Result<(i128, i128), ContractError>)
    ensures
        r == reclaim_outcome(*ctx, expiry_ledgers, pending, updated_at, current_ledger, admin_balance),
{
    require_admin_action(ctx)?;
    // With expiry disabled, or with no pending entry, the one refusal is
    // the generic "nothing pending" signal.
    if expiry_ledgers == 0 || pending == 0 {
        return Err(ContractError::NoActiveRound);
    }
    let updated = match updated_at {
        Some(u) => u,
        None => return Err(ContractError::NoActiveRound),
    };
    let age = current_ledger.saturating_sub(updated);
    if age < expiry_ledgers {
        return Err(ContractError::PendingWinningsNotExpired);
    }
    let new_admin_balance = payout_add(admin_balance, pending)?;
    Ok((pending, new_admin_balance))
}

} // verus!

verus! {

/// What an admin-only entry point reads before it acts.
#[derive(Clone, Copy, Debug, PartialEq, Eq, Structural)]
pub struct AdminContext {
    pub runtime_mode: RuntimeMode,
    pub stored_schema: Option<u32>,
    pub admin_set: bool,
}

/// Reclaiming expired winnings destroys nothing: exactly the pending amount
/// moves into the admin's balance.
pub proof fn law_reclaim_conserves(
    ctx: AdminContext,
    expiry_ledgers: u32,
    pending: i128,
    updated_at: Option<u32>,
    current_ledger: u32,
    admin_balance: i128,
)
    requires
        reclaim_outcome(ctx, expiry_ledgers, pending, updated_at, current_ledger, admin_balance)
            is Ok,
    ensures
        ({
            let (moved, b) = reclaim_outcome(
                ctx,
                expiry_ledgers,
                pending,
                updated_at,
                current_ledger,
                admin_balance,
            )->Ok_0;
            &&& moved == pending
            &&& b == admin_balance + pending
        }),
{
}

/// The checks every admin-only configuration entry point makes first:
/// a supported schema, an admin on record, and not fully paused.
pub open spec fn admin_gate(ctx: AdminContext) -> Result<(), ContractError> {
    if !schema_supported(ctx.stored_schema) {
        Err(ContractError::UnsupportedSchemaVersion)
    } else if !ctx.admin_set {
        Err(ContractError::AdminNotSet)
    } else if ctx.runtime_mode == RuntimeMode::FullyPaused {
        Err(ContractError::ContractPaused)
    } else {
        Ok(())
    }
}

/// Makes the checks of [`admin_gate`].
pub fn require_admin_action(ctx: &AdminContext) -> (r: Result<(), ContractError>)
    ensures
        r == admin_gate(*ctx),
{
    _require_supported_schema(ctx.stored_schema)?;
    if !ctx.admin_set {
        return Err(ContractError::AdminNotSet);
    }
    _ensure_not_paused(ctx.runtime_mode)
}

} // verus!

verus! {

/// The outcome of an emergency mode change by the admin (pause, unpause):
/// refused while dual governance is active, whatever the current mode.
pub open spec fn mode_change_outcome(
    stored_schema: Option<u32>,
    admin_set: bool,
    gov_approver_set: bool,
    target: RuntimeMode,
) -> Result<RuntimeMode, ContractError> {
    if !schema_supported(stored_schema) {
        Err(ContractError::UnsupportedSchemaVersion)
    } else if !admin_set {
        Err(ContractError::AdminNotSet)
    } else if gov_approver_set {
        Err(ContractError::GovUnauthorized)
    } else {
        Ok(target)
    }
}

/// Pauses the protocol fully (admin only); callable in every mode.
pub fn pause_contract(stored_schema: Option<u32>, admin_set: bool, gov_approver_set: bool) -> (r:
    Result<RuntimeMode, ContractError>)
    ensures
        r == mode_change_outcome(
            stored_schema,
            admin_set,
            gov_approver_set,
            RuntimeMode::FullyPaused,
        ),
{
    _require_supported_schema(stored_schema)?;
    if !admin_set {
        return Err(ContractError::AdminNotSet);
    }
    if gov_approver_set {
        return Err(ContractError::GovUnauthorized);
    }
    Ok(RuntimeMode::FullyPaused)
}

/// Returns the protocol to normal operation (admin only); callable in
/// every mode.
pub fn unpause_contract(stored_schema: Option<u32>, admin_set: bool, gov_approver_set: bool) -> (r:
    Result<RuntimeMode, ContractError>)
    ensures
        r == mode_change_outcome(stored_schema, admin_set, gov_approver_set, RuntimeMode::Normal),
{
    _require_supported_schema(stored_schema)?;
    if !admin_set {
        return Err(ContractError::AdminNotSet);
    }
    if gov_approver_set {
        return Err(ContractError::GovUnauthorized);
    }
    Ok(RuntimeMode::Normal)
}

/// Pausing and unpausing are never blocked by the runtime mode itself, so
/// there is always a way out of an incident; pause then unpause returns to
/// normal operation.
pub proof fn law_pause_unpause_round_trip(stored_schema: Option<u32>, admin_set: bool)
    ensures
        mode_change_outcome(stored_schema, admin_set, false, RuntimeMode::FullyPaused) is Ok
            <==> (schema_supported(stored_schema) && admin_set),
        mode_change_outcome(stored_schema, admin_set, false, RuntimeMode::Normal) is Ok
            ==> mode_change_outcome(stored_schema, admin_set, false, RuntimeMode::Normal)->Ok_0
            == RuntimeMode::Normal,
        mode_change_outcome(stored_schema, admin_set, false, RuntimeMode::Normal) is Ok
            ==> !blocks(
            mode_change_outcome(stored_schema, admin_set, false, RuntimeMode::Normal)->Ok_0,
            PolicyAction::RoundMutation,
        ),
{
}

} // verus!
