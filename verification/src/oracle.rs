//! Acceptance of oracle prices for settlement: the single-oracle payload
//! and the multi-feed payload (median of several feeds, outlier rejection
//! and a quorum of agreeing feeds). Each returns the settlement price, or
//! the first check that refused the payload, in the contract's order.
use vstd::prelude::*;

use crate::admin::{
    _check_heartbeat_health_blocked, _ensure_not_paused, _require_supported_schema,
    heartbeat_blocked, schema_supported, DeviationReferenceMode, HbGateConfig, OracleHeartbeatRecord,
    OracleQuorumConfig, RuntimeMode,
};
use crate::common::{
    DEFAULT_ORACLE_STALE_THRESHOLD, DEFAULT_ORACLE_TIMESTAMP_SKEW, MAX_ORACLE_OBSERVATIONS,
    SECONDS_PER_LEDGER,
};
use crate::errors::ContractError;
use crate::round::Round;
use crate::settlement_math::{compute_deviation_bps, deviation_bps, sort_prices_in_place, sorted};

verus! {

/// A signed price report of the single oracle.
#[derive(Clone, Copy, Debug)]
pub struct OraclePayload {
    /// The start ledger of the round the price is for.
    pub round_id: u32,
    pub price: u128,
    pub timestamp: u64,
    pub nonce: u64,
    pub confidence: Option<u32>,
    pub network_id: [u8; 32],
    /// Whether the payload names this contract.
    pub for_this_contract: bool,
    pub attestation: Option<[u8; 64]>,
}

/// A report carrying several independent feed observations.
#[derive(Clone, Debug)]
pub struct MultiFeedPayload {
    pub round_id: u32,
    pub prices: Vec<u128>,
    pub sources: Vec<u64>,
    pub timestamp: u64,
    pub nonce: u64,
    pub network_id: [u8; 32],
    pub for_this_contract: bool,
}

/// What settling a round reads besides the payload.
#[derive(Clone, Copy, Debug)]
pub struct ResolutionContext {
    pub stored_schema: Option<u32>,
    pub runtime_mode: RuntimeMode,
    pub oracle_set: bool,
    pub heartbeat: Option<OracleHeartbeatRecord>,
    pub stale_threshold: Option<u64>,
    pub hb: HbGateConfig,
    pub network_id: [u8; 32],
    pub attestation_key: Option<[u8; 32]>,
    pub timestamp_skew: Option<u64>,
    pub max_deviation_bps: Option<u32>,
    pub deviation_mode: DeviationReferenceMode,
    /// The reference price of the TWAP mode, as `_twap_reference_price`
    /// computes it from the recorded samples.
    pub twap_reference: Result<u128, ContractError>,
    pub deviation_override_armed: bool,
    pub min_confidence_bps: Option<u32>,
    pub confidence_strict_mode: bool,
    /// Whether the payload's nonce was already used for this round.
    pub nonce_consumed: bool,
    pub ledger_sequence: u32,
    pub ledger_timestamp: u64,
}

/// An accepted settlement price and the one-shot overrides it used up.
#[derive(Clone, Copy, Debug, PartialEq, Eq, Structural)]
pub struct AcceptedPrice {
    pub price: u128,
    pub confidence: Option<u32>,
    /// The armed deviation override was needed and is consumed.
    pub deviation_override_used: bool,
    /// The armed heartbeat override was needed and is consumed.
    pub hb_override_used: bool,
    /// An attestation signature must be verified against the configured key.
    pub attestation_required: bool,
}

/// Whether the heartbeat gate blocks, with the configured threshold.
pub open spec fn hb_blocked(ctx: ResolutionContext) -> bool {
    heartbeat_blocked(
        ctx.heartbeat,
        ctx.stale_threshold.unwrap_or(DEFAULT_ORACLE_STALE_THRESHOLD),
        ctx.hb.grace_seconds,
        ctx.ledger_timestamp,
    )
}

fn check_hb_blocked(ctx: &ResolutionContext) -> (b: bool)
    ensures
        b == hb_blocked(*ctx),
{
    _check_heartbeat_health_blocked(
        ctx.heartbeat,
        ctx.stale_threshold.unwrap_or(DEFAULT_ORACLE_STALE_THRESHOLD),
        ctx.hb.grace_seconds,
        ctx.ledger_timestamp,
    )
}

/// The strict heartbeat gate: when strict mode is on and the heartbeat
/// blocks, an armed override is used up, else settlement is refused.
/// Returns whether the override was used.
pub open spec fn strict_hb_gate(ctx: ResolutionContext) -> Result<bool, ContractError> {
    if ctx.hb.strict_mode && hb_blocked(ctx) {
        if ctx.hb.override_armed {
            Ok(true)
        } else {
            Err(ContractError::OracleNotLive)
        }
    } else {
        Ok(false)
    }
}

fn enforce_strict_hb_gate(ctx: &ResolutionContext) -> (r: Result<bool, ContractError>)
    ensures
        r == strict_hb_gate(*ctx),
{
    if ctx.hb.strict_mode && check_hb_blocked(ctx) {
        if ctx.hb.override_armed {
            return Ok(true);
        }
        return Err(ContractError::OracleNotLive);
    }
    Ok(false)
}

/// `a - b` floored at zero.
pub open spec fn sat_sub_u64(a: u64, b: u64) -> u64 {
    if a >= b {
        (a - b) as u64
    } else {
        0
    }
}

/// `a + b` capped at `u64::MAX`.
pub open spec fn sat_add_u64_cap(a: u64, b: u64) -> u64 {
    if a + b > u64::MAX {
        u64::MAX
    } else {
        (a + b) as u64
    }
}

/// The accepted time window of a round's prices: from its start time to its
/// estimated end time (`SECONDS_PER_LEDGER` per ledger), widened by the
/// skew on both sides.
pub open spec fn price_time_window(round: Round, skew: u64) -> Result<(u64, u64), ContractError> {
    if round.end_ledger < round.start_ledger {
        Err(ContractError::Overflow)
    } else if (round.end_ledger - round.start_ledger) * SECONDS_PER_LEDGER > u64::MAX {
        Err(ContractError::Overflow)
    } else if round.start_timestamp + (round.end_ledger - round.start_ledger) * SECONDS_PER_LEDGER
        > u64::MAX {
        Err(ContractError::Overflow)
    } else {
        let end = (round.start_timestamp + (round.end_ledger - round.start_ledger)
            * SECONDS_PER_LEDGER) as u64;
        Ok((sat_sub_u64(round.start_timestamp, skew), sat_add_u64_cap(end, skew)))
    }
}

/// The timestamp checks: not in the future, and inside the round's window.
pub open spec fn timestamp_check(ctx: ResolutionContext, round: Round, timestamp: u64) -> Result<
    (),
    ContractError,
> {
    if timestamp > ctx.ledger_timestamp {
        Err(ContractError::FutureOracleData)
    } else {
        match price_time_window(round, ctx.timestamp_skew.unwrap_or(DEFAULT_ORACLE_TIMESTAMP_SKEW)) {
            Err(e) => Err(e),
            Ok((lo, hi)) => if timestamp < lo || timestamp > hi {
                Err(ContractError::OracleTimestampOutsideWindow)
            } else {
                Ok(())
            },
        }
    }
}

fn enforce_timestamp(ctx: &ResolutionContext, round: &Round, timestamp: u64) -> (r: Result<
    (),
    ContractError,
>)
    ensures
        r == timestamp_check(*ctx, *round, timestamp),
{
    if timestamp > ctx.ledger_timestamp {
        return Err(ContractError::FutureOracleData);
    }
    let skew = ctx.timestamp_skew.unwrap_or(DEFAULT_ORACLE_TIMESTAMP_SKEW);
    let duration = match round.end_ledger.checked_sub(round.start_ledger) {
        Some(d) => d,
        None => return Err(ContractError::Overflow),
    };
    let span = match (duration as u64).checked_mul(SECONDS_PER_LEDGER) {
        Some(s) => s,
        None => return Err(ContractError::Overflow),
    };
    let end = match round.start_timestamp.checked_add(span) {
        Some(e) => e,
        None => return Err(ContractError::Overflow),
    };
    let lower = round.start_timestamp.saturating_sub(skew);
    let upper = end.saturating_add(skew);
    if timestamp < lower || timestamp > upper {
        return Err(ContractError::OracleTimestampOutsideWindow);
    }
    Ok(())
}

/// The deviation guardrail (when a maximum is configured): the price may
/// deviate from the reference at most by the maximum, unless the one-shot
/// override is armed, which is then used up. Returns whether it was.
pub open spec fn deviation_check(
    max_bps: Option<u32>,
    reference: Result<u128, ContractError>,
    override_armed: bool,
    price: u128,
) -> Result<bool, ContractError> {
    match max_bps {
        None => Ok(false),
        Some(m) => match reference {
            Err(e) => Err(e),
            Ok(rp) => match deviation_bps(price, rp) {
                Err(e) => Err(e),
                Ok(d) => if d > m && !override_armed {
                    Err(ContractError::OracleDeviationExceeded)
                } else {
                    Ok(d > m)
                },
            },
        },
    }
}

fn enforce_deviation(
    max_bps: Option<u32>,
    reference: Result<u128, ContractError>,
    override_armed: bool,
    price: u128,
) -> (r: Result<bool, ContractError>)
    ensures
        r == deviation_check(max_bps, reference, override_armed, price),
{
    match max_bps {
        None => Ok(false),
        Some(m) => {
            let rp = reference?;
            let d = compute_deviation_bps(price, rp)?;
            if d > m && !override_armed {
                return Err(ContractError::OracleDeviationExceeded);
            }
            Ok(d > m)
        },
    }
}

/// The reference price of the configured deviation mode.
pub open spec fn deviation_reference(ctx: ResolutionContext, round: Round) -> Result<
    u128,
    ContractError,
> {
    match ctx.deviation_mode {
        DeviationReferenceMode::StartPrice => Ok(round.price_start),
        DeviationReferenceMode::Twap => ctx.twap_reference,
    }
}

/// The confidence guardrail (when a minimum is configured): a reported
/// confidence must be at most 10 000 bps and at least the minimum; a
/// missing one is refused only in strict mode.
pub open spec fn confidence_check(
    min_confidence_bps: Option<u32>,
    strict: bool,
    confidence: Option<u32>,
) -> Result<(), ContractError> {
    match min_confidence_bps {
        None => Ok(()),
        Some(min) => match confidence {
            None => if strict {
                Err(ContractError::InvalidPrice)
            } else {
                Ok(())
            },
            Some(c) => if c > 10_000 || c < min {
                Err(ContractError::InvalidPrice)
            } else {
                Ok(())
            },
        },
    }
}

fn enforce_confidence(min_confidence_bps: Option<u32>, strict: bool, confidence: Option<u32>) -> (r:
    Result<(), ContractError>)
    ensures
        r == confidence_check(min_confidence_bps, strict, confidence),
{
    if let Some(min) = min_confidence_bps {
        match confidence {
            None => {
                if strict {
                    return Err(ContractError::InvalidPrice);
                }
            },
            Some(c) => {
                if c > 10_000 || c < min {
                    return Err(ContractError::InvalidPrice);
                }
            },
        }
    }
    Ok(())
}

/// Whether two 32-byte identifiers are equal.
fn same_id(a: &[u8; 32], b: &[u8; 32]) -> (e: bool)
    ensures
        e == (a@ == b@),
{
    let mut i: usize = 0;
    while i < 32
        invariant
            i <= 32,
            a@.len() == 32,
            b@.len() == 32,
            forall|k: int| 0 <= k < i ==> a@[k] == b@[k],
        decreases 32 - i,
    {
        if a[i] != b[i] {
            return false;
        }
        i = i + 1;
    }
    proof {
        assert(a@ =~= b@);
    }
    true
}

/// The payload is bound to the active round, this network and this
/// contract.
pub open spec fn binding_check(
    ctx: ResolutionContext,
    round: Round,
    round_id: u32,
    network_id: Seq<u8>,
    for_this_contract: bool,
) -> Result<(), ContractError> {
    if round_id != round.start_ledger {
        Err(ContractError::InvalidOracleRound)
    } else if network_id != ctx.network_id@ || !for_this_contract {
        Err(ContractError::OracleNetworkMismatch)
    } else {
        Ok(())
    }
}

fn enforce_binding(
    ctx: &ResolutionContext,
    round: &Round,
    round_id: u32,
    network_id: &[u8; 32],
    for_this_contract: bool,
) -> (r: Result<(), ContractError>)
    ensures
        r == binding_check(*ctx, *round, round_id, network_id@, for_this_contract),
{
    if round_id != round.start_ledger {
        return Err(ContractError::InvalidOracleRound);
    }
    if !same_id(network_id, &ctx.network_id) {
        return Err(ContractError::OracleNetworkMismatch);
    }
    if !for_this_contract {
        return Err(ContractError::OracleNetworkMismatch);
    }
    Ok(())
}

/// The outcome of a single-oracle settlement report: the first failed
/// check in the contract's order, else the accepted price.
pub open spec fn single_oracle_outcome(
    ctx: ResolutionContext,
    active: Option<Round>,
    payload: OraclePayload,
) -> Result<AcceptedPrice, ContractError> {
    if !schema_supported(ctx.stored_schema) {
        Err(ContractError::UnsupportedSchemaVersion)
    } else if payload.price == 0 {
        Err(ContractError::InvalidPrice)
    } else if !ctx.oracle_set {
        Err(ContractError::OracleNotSet)
    } else if ctx.runtime_mode == RuntimeMode::FullyPaused {
        Err(ContractError::ContractPaused)
    } else if hb_blocked(ctx) {
        Err(ContractError::OracleHeartbeatUnhealthy)
    } else if active is None {
        Err(ContractError::NoActiveRound)
    } else if binding_check(
        ctx,
        active->0,
        payload.round_id,
        payload.network_id@,
        payload.for_this_contract,
    ) is Err {
        Err(
            binding_check(
                ctx,
                active->0,
                payload.round_id,
                payload.network_id@,
                payload.for_this_contract,
            )->Err_0,
        )
    } else if ctx.attestation_key is Some && payload.attestation is None {
        Err(ContractError::WindowOutOfRange)
    } else if timestamp_check(ctx, active->0, payload.timestamp) is Err {
        Err(timestamp_check(ctx, active->0, payload.timestamp)->Err_0)
    } else {
        let dev = deviation_check(
            ctx.max_deviation_bps,
            deviation_reference(ctx, active->0),
            ctx.deviation_override_armed,
            payload.price,
        );
        if dev is Err {
            Err(dev->Err_0)
        } else if confidence_check(
            ctx.min_confidence_bps,
            ctx.confidence_strict_mode,
            payload.confidence,
        ) is Err {
            Err(ContractError::InvalidPrice)
        } else if ctx.nonce_consumed {
            Err(ContractError::OracleNonceReused)
        } else if strict_hb_gate(ctx) is Err {
            Err(ContractError::OracleNotLive)
        } else if ctx.ledger_sequence < active->0.end_ledger {
            Err(ContractError::RoundNotEnded)
        } else {
            Ok(
                AcceptedPrice {
                    price: payload.price,
                    confidence: payload.confidence,
                    deviation_override_used: dev->Ok_0,
                    hb_override_used: strict_hb_gate(ctx)->Ok_0,
                    attestation_required: ctx.attestation_key is Some,
                },
            )
        }
    }
}

/// Accepts or refuses the single oracle's settlement report for the
/// active round. When an attestation key is configured the caller must
/// also verify the payload's signature against it.
pub fn resolve_round(ctx: &ResolutionContext, active: Option<Round>, payload: &OraclePayload) -> (r:
    Result<AcceptedPrice, ContractError>)
    ensures
        r == single_oracle_outcome(*ctx, active, *payload),
{
    _require_supported_schema(ctx.stored_schema)?;
    if payload.price == 0 {
        return Err(ContractError::InvalidPrice);
    }
    if !ctx.oracle_set {
        return Err(ContractError::OracleNotSet);
    }
    _ensure_not_paused(ctx.runtime_mode)?;
    if check_hb_blocked(ctx) {
        return Err(ContractError::OracleHeartbeatUnhealthy);
    }
    let round = match active {
        Some(r) => r,
        None => return Err(ContractError::NoActiveRound),
    };
    enforce_binding(ctx, &round, payload.round_id, &payload.network_id, payload.for_this_contract)?;
    if ctx.attestation_key.is_some() && payload.attestation.is_none() {
        return Err(ContractError::WindowOutOfRange);
    }
    enforce_timestamp(ctx, &round, payload.timestamp)?;
    let reference = match ctx.deviation_mode {
        DeviationReferenceMode::StartPrice => Ok(round.price_start),
        DeviationReferenceMode::Twap => ctx.twap_reference,
    };
    let deviation_override_used = enforce_deviation(
        ctx.max_deviation_bps,
        reference,
        ctx.deviation_override_armed,
        payload.price,
    )?;
    enforce_confidence(ctx.min_confidence_bps, ctx.confidence_strict_mode, payload.confidence)?;
    if ctx.nonce_consumed {
        return Err(ContractError::OracleNonceReused);
    }
    let hb_override_used = enforce_strict_hb_gate(ctx)?;
    if ctx.ledger_sequence < round.end_ledger {
        return Err(ContractError::RoundNotEnded);
    }
    Ok(
        AcceptedPrice {
            price: payload.price,
            confidence: payload.confidence,
            deviation_override_used,
            hb_override_used,
            attestation_required: ctx.attestation_key.is_some(),
        },
    )
}

/// Whether the report is refused by a check made before its signature is
/// verified: the schema, the price, the oracle on record, the pause, the
/// heartbeat gate, the active round, and the report's binding to the round,
/// the network and this contract.
pub open spec fn refused_before_signature(
    ctx: ResolutionContext,
    active: Option<Round>,
    payload: OraclePayload,
) -> bool {
    ||| !schema_supported(ctx.stored_schema)
    ||| payload.price == 0
    ||| !ctx.oracle_set
    ||| ctx.runtime_mode == RuntimeMode::FullyPaused
    ||| hb_blocked(ctx)
    ||| active is None
    ||| binding_check(
        ctx,
        active->0,
        payload.round_id,
        payload.network_id@,
        payload.for_this_contract,
    ) is Err
}

/// Whether the report's signature must be verified against the configured
/// attestation key: a key is configured, the report carries a signature,
/// and no check before the signature refused it. A bad signature then
/// rejects the report before the time, deviation, confidence and nonce
/// checks.
pub fn attestation_check_due(
    ctx: &ResolutionContext,
    active: Option<Round>,
    payload: &OraclePayload,
) -> (b: bool)
    ensures
        b == (ctx.attestation_key is Some && payload.attestation is Some
            && !refused_before_signature(*ctx, active, *payload)),
{
    if ctx.attestation_key.is_none() || payload.attestation.is_none() {
        return false;
    }
    if _require_supported_schema(ctx.stored_schema).is_err() {
        return false;
    }
    if payload.price == 0 || !ctx.oracle_set {
        return false;
    }
    if _ensure_not_paused(ctx.runtime_mode).is_err() {
        return false;
    }
    if check_hb_blocked(ctx) {
        return false;
    }
    match active {
        None => false,
        Some(r) => enforce_binding(
            ctx,
            &r,
            payload.round_id,
            &payload.network_id,
            payload.for_this_contract,
        ).is_ok(),
    }
}

/// A report refused before its signature is verified is refused by
/// `resolve_round`, so skipping the signature there accepts nothing.
pub proof fn law_refused_before_signature_is_refused(
    ctx: ResolutionContext,
    active: Option<Round>,
    payload: OraclePayload,
)
    requires
        refused_before_signature(ctx, active, payload),
    ensures
        single_oracle_outcome(ctx, active, payload) is Err,
{
}

/// No settlement price is accepted before the round's end ledger, from a
/// replayed nonce, for another round, or out of the round's time window;
/// and an accepted price is the reported one.
pub proof fn law_accepted_price_is_timely(
    ctx: ResolutionContext,
    active: Option<Round>,
    payload: OraclePayload,
)
    requires
        single_oracle_outcome(ctx, active, payload) is Ok,
    ensures
        active is Some,
        ctx.ledger_sequence >= active->0.end_ledger,
        !ctx.nonce_consumed,
        payload.round_id == active->0.start_ledger,
        payload.timestamp <= ctx.ledger_timestamp,
        payload.price > 0,
        single_oracle_outcome(ctx, active, payload)->Ok_0.price == payload.price,
        ctx.max_deviation_bps is Some && !ctx.deviation_override_armed ==> deviation_bps(
            payload.price,
            deviation_reference(ctx, active->0)->Ok_0,
        )->Ok_0 <= ctx.max_deviation_bps->0,
{
}


// ─── Multi-feed settlement ──────────────────────────────────────────────────

/// No feed source appears twice.
pub open spec fn distinct_sources(s: Seq<u64>) -> bool {
    forall|i: int, j: int| 0 <= i < j < s.len() ==> s[i] != s[j]
}

/// The ascending order of prices.
pub open spec fn price_leq() -> spec_fn(u128, u128) -> bool {
    |a: u128, b: u128| a <= b
}

/// The prices in ascending order.
pub open spec fn ascending_prices(s: Seq<u128>) -> Seq<u128> {
    s.sort_by(price_leq())
}

/// The median of the feeds: the middle price, or the floor average of the
/// two middle prices (their sum checked) for an even count.
pub open spec fn feed_median(prices: Seq<u128>) -> Result<u128, ContractError> {
    let t = ascending_prices(prices);
    let n = prices.len();
    if n % 2 == 1 {
        Ok(t[(n / 2) as int])
    } else if t[n / 2 - 1] + t[(n / 2) as int] > u128::MAX {
        Err(ContractError::Overflow)
    } else {
        Ok(((t[n / 2 - 1] + t[(n / 2) as int]) / 2) as u128)
    }
}

/// How many feeds lie within `threshold` bps of the median (each deviation
/// checked, in order).
pub open spec fn survivors(prices: Seq<u128>, median: u128, threshold: u32) -> Result<
    nat,
    ContractError,
>
    decreases prices.len(),
{
    if prices.len() == 0 {
        Ok(0)
    } else {
        match survivors(prices.drop_last(), median, threshold) {
            Err(e) => Err(e),
            Ok(c) => match deviation_bps(prices.last(), median) {
                Err(e) => Err(e),
                Ok(d) => Ok(
                    if d <= threshold {
                        c + 1
                    } else {
                        c
                    },
                ),
            },
        }
    }
}

/// The outcome of a multi-feed settlement report: the first failed check
/// in the contract's order, else the median as the accepted price.
pub open spec fn multi_feed_outcome(
    ctx: ResolutionContext,
    quorum: Option<OracleQuorumConfig>,
    active: Option<Round>,
    payload: MultiFeedPayload,
) -> Result<AcceptedPrice, ContractError> {
    let prices = payload.prices@;
    let sources = payload.sources@;
    let n = prices.len();
    if !schema_supported(ctx.stored_schema) {
        Err(ContractError::UnsupportedSchemaVersion)
    } else if n == 0 || sources.len() == 0 || n != sources.len() {
        Err(ContractError::TooFewObservations)
    } else if exists|i: int| 0 <= i < n && #[trigger] prices[i] == 0 {
        Err(ContractError::InvalidPrice)
    } else if !ctx.oracle_set {
        Err(ContractError::OracleNotSet)
    } else if ctx.runtime_mode == RuntimeMode::FullyPaused {
        Err(ContractError::ContractPaused)
    } else if quorum is None {
        Err(ContractError::OracleNotSet)
    } else if active is None {
        Err(ContractError::NoActiveRound)
    } else if binding_check(
        ctx,
        active->0,
        payload.round_id,
        payload.network_id@,
        payload.for_this_contract,
    ) is Err {
        Err(
            binding_check(
                ctx,
                active->0,
                payload.round_id,
                payload.network_id@,
                payload.for_this_contract,
            )->Err_0,
        )
    } else if timestamp_check(ctx, active->0, payload.timestamp) is Err {
        Err(timestamp_check(ctx, active->0, payload.timestamp)->Err_0)
    } else if strict_hb_gate(ctx) is Err {
        Err(ContractError::OracleNotLive)
    } else if ctx.nonce_consumed {
        Err(ContractError::OracleNonceReused)
    } else if ctx.ledger_sequence < active->0.end_ledger {
        Err(ContractError::RoundNotEnded)
    } else if n < quorum->0.min_observations || n > MAX_ORACLE_OBSERVATIONS {
        Err(ContractError::TooFewObservations)
    } else if !distinct_sources(sources) {
        Err(ContractError::DuplicateOracleSource)
    } else if feed_median(prices) is Err {
        Err(ContractError::Overflow)
    } else if feed_median(prices)->Ok_0 == 0 {
        Err(ContractError::InvalidPrice)
    } else {
        let median = feed_median(prices)->Ok_0;
        let dev = deviation_check(
            ctx.max_deviation_bps,
            Ok(active->0.price_start),
            ctx.deviation_override_armed,
            median,
        );
        if dev is Err {
            Err(dev->Err_0)
        } else {
            match survivors(prices, median, quorum->0.outlier_threshold_bps) {
                Err(e) => Err(e),
                Ok(c) => if c < quorum->0.quorum_threshold {
                    Err(ContractError::InsufficientOracleQuorum)
                } else {
                    Ok(
                        AcceptedPrice {
                            price: median,
                            confidence: None,
                            deviation_override_used: dev->Ok_0,
                            hb_override_used: strict_hb_gate(ctx)->Ok_0,
                            attestation_required: false,
                        },
                    )
                },
            }
        }
    }
}

fn has_zero_price(prices: &Vec<u128>) -> (b: bool)
    ensures
        b == exists|i: int| 0 <= i < prices@.len() && #[trigger] prices@[i] == 0,
{
    let mut i: usize = 0;
    while i < prices.len()
        invariant
            i <= prices@.len(),
            forall|k: int| 0 <= k < i ==> prices@[k] != 0,
        decreases prices@.len() - i,
    {
        if prices[i] == 0 {
            return true;
        }
        i = i + 1;
    }
    false
}

fn sources_distinct(sources: &Vec<u64>) -> (b: bool)
    ensures
        b == distinct_sources(sources@),
{
    let n = sources.len();
    let mut i: usize = 0;
    while i < n
        invariant
            n == sources@.len(),
            i <= n,
            forall|a: int, b: int| 0 <= a < i && a < b < n ==> sources@[a] != sources@[b],
        decreases n - i,
    {
        let mut j: usize = i + 1;
        while j < n
            invariant
                n == sources@.len(),
                i < n,
                i + 1 <= j <= n,
                forall|a: int, b: int| 0 <= a < i && a < b < n ==> sources@[a] != sources@[b],
                forall|b: int| i < b < j ==> sources@[i as int] != sources@[b],
            decreases n - j,
        {
            if sources[i] == sources[j] {
                return false;
            }
            j = j + 1;
        }
        i = i + 1;
    }
    true
}

proof fn lemma_price_leq_total()
    ensures
        vstd::relations::total_ordering(price_leq()),
{
}

/// The median of the feeds, from an ascending copy of the prices.
fn compute_feed_median(prices: &Vec<u128>) -> (r: Result<u128, ContractError>)
    requires
        prices@.len() > 0,
    ensures
        r == feed_median(prices@),
{
    let mut copy: Vec<u128> = Vec::new();
    let mut i: usize = 0;
    while i < prices.len()
        invariant
            i <= prices@.len(),
            copy@ == prices@.take(i as int),
        decreases prices@.len() - i,
    {
        copy.push(prices[i]);
        i = i + 1;
        proof {
            assert(copy@ =~= prices@.take(i as int));
        }
    }
    proof {
        assert(prices@.take(prices@.len() as int) =~= prices@);
    }
    sort_prices_in_place(copy.as_mut_slice());
    proof {
        lemma_price_leq_total();
        prices@.lemma_sort_by_ensures(price_leq());
        assert(vstd::relations::sorted_by(copy@, price_leq())) by {
            assert(sorted(copy@));
        }
        vstd::seq_lib::lemma_sorted_unique(copy@, ascending_prices(prices@), price_leq());
    }
    let n = copy.len();
    if n % 2 == 1 {
        Ok(copy[n / 2])
    } else {
        let mid1 = copy[n / 2 - 1];
        let mid2 = copy[n / 2];
        match mid1.checked_add(mid2) {
            Some(sum) => Ok(sum / 2),
            None => Err(ContractError::Overflow),
        }
    }
}

fn count_survivors(prices: &Vec<u128>, median: u128, threshold: u32) -> (r: Result<
    u32,
    ContractError,
>)
    requires
        prices@.len() <= MAX_ORACLE_OBSERVATIONS,
    ensures
        match survivors(prices@, median, threshold) {
            Err(e) => r == Err::<u32, ContractError>(e),
            Ok(c) => r == Ok::<u32, ContractError>(c as u32) && c <= prices@.len(),
        },
{
    let mut count: u32 = 0;
    let mut i: usize = 0;
    while i < prices.len()
        invariant
            i <= prices@.len(),
            prices@.len() <= MAX_ORACLE_OBSERVATIONS,
            survivors(prices@.take(i as int), median, threshold) == Ok::<nat, ContractError>(
                count as nat,
            ),
            count <= i,
        decreases prices@.len() - i,
    {
        proof {
            assert(prices@.take(i + 1).drop_last() =~= prices@.take(i as int));
        }
        let d = match compute_deviation_bps(prices[i], median) {
            Ok(d) => d,
            Err(e) => {
                proof {
                    lemma_survivors_err_stays(prices@, median, threshold, i + 1);
                }
                return Err(e);
            },
        };
        if d <= threshold {
            count = count + 1;
        }
        i = i + 1;
    }
    proof {
        assert(prices@.take(prices@.len() as int) =~= prices@);
    }
    Ok(count)
}

proof fn lemma_survivors_err_stays(prices: Seq<u128>, median: u128, threshold: u32, i: int)
    requires
        0 <= i <= prices.len(),
        survivors(prices.take(i), median, threshold) is Err,
    ensures
        survivors(prices, median, threshold) == survivors(prices.take(i), median, threshold),
    decreases prices.len() - i,
{
    if i < prices.len() {
        assert(prices.take(i + 1).drop_last() =~= prices.take(i));
        lemma_survivors_err_stays(prices, median, threshold, i + 1);
    } else {
        assert(prices.take(i) =~= prices);
    }
}

/// Accepts or refuses a multi-feed settlement report for the active round:
/// the median of the feeds is the price, provided enough feeds from
/// distinct sources agree with it within the outlier threshold.
pub fn resolve_round_multi(
    ctx: &ResolutionContext,
    quorum: Option<OracleQuorumConfig>,
    active: Option<Round>,
    payload: &MultiFeedPayload,
) -> (r: Result<AcceptedPrice, ContractError>)
    requires
        payload.prices@.len() <= u32::MAX,
    ensures
        r == multi_feed_outcome(*ctx, quorum, active, *payload),
{
    _require_supported_schema(ctx.stored_schema)?;
    let n = payload.prices.len();
    if n == 0 || payload.sources.len() == 0 || n != payload.sources.len() {
        return Err(ContractError::TooFewObservations);
    }
    if has_zero_price(&payload.prices) {
        return Err(ContractError::InvalidPrice);
    }
    if !ctx.oracle_set {
        return Err(ContractError::OracleNotSet);
    }
    _ensure_not_paused(ctx.runtime_mode)?;
    let cfg = match quorum {
        Some(c) => c,
        None => return Err(ContractError::OracleNotSet),
    };
    let round = match active {
        Some(r) => r,
        None => return Err(ContractError::NoActiveRound),
    };
    enforce_binding(ctx, &round, payload.round_id, &payload.network_id, payload.for_this_contract)?;
    enforce_timestamp(ctx, &round, payload.timestamp)?;
    let hb_override_used = enforce_strict_hb_gate(ctx)?;
    if ctx.nonce_consumed {
        return Err(ContractError::OracleNonceReused);
    }
    if ctx.ledger_sequence < round.end_ledger {
        return Err(ContractError::RoundNotEnded);
    }
    let n32 = n as u32;
    if n32 < cfg.min_observations || n32 > MAX_ORACLE_OBSERVATIONS {
        return Err(ContractError::TooFewObservations);
    }
    if !sources_distinct(&payload.sources) {
        return Err(ContractError::DuplicateOracleSource);
    }
    let median = match compute_feed_median(&payload.prices) {
        Ok(m) => m,
        Err(_) => return Err(ContractError::Overflow),
    };
    if median == 0 {
        return Err(ContractError::InvalidPrice);
    }
    let deviation_override_used = enforce_deviation(
        ctx.max_deviation_bps,
        Ok(round.price_start),
        ctx.deviation_override_armed,
        median,
    )?;
    let count = count_survivors(&payload.prices, median, cfg.outlier_threshold_bps)?;
    if count < cfg.quorum_threshold {
        return Err(ContractError::InsufficientOracleQuorum);
    }
    Ok(
        AcceptedPrice {
            price: median,
            confidence: None,
            deviation_override_used,
            hb_override_used,
            attestation_required: false,
        },
    )
}

/// An accepted multi-feed price is the median of distinct sources, backed
/// by at least the quorum of feeds within the outlier threshold, and at
/// least the minimum number of observations were given.
pub proof fn law_multi_feed_quorum(
    ctx: ResolutionContext,
    quorum: Option<OracleQuorumConfig>,
    active: Option<Round>,
    payload: MultiFeedPayload,
)
    requires
        multi_feed_outcome(ctx, quorum, active, payload) is Ok,
    ensures
        quorum is Some,
        distinct_sources(payload.sources@),
        payload.prices@.len() >= quorum->0.min_observations,
        multi_feed_outcome(ctx, quorum, active, payload)->Ok_0.price == feed_median(
            payload.prices@,
        )->Ok_0,
        survivors(
            payload.prices@,
            feed_median(payload.prices@)->Ok_0,
            quorum->0.outlier_threshold_bps,
        )->Ok_0 >= quorum->0.quorum_threshold,
        ctx.ledger_sequence >= active->0.end_ledger,
{
}


/// The multi-feed price is the median of the feeds: for any ascending
/// arrangement `t` of the prices, the middle feed for an odd count, and for
/// an even count the floor average of the two middle feeds (so it lies
/// between them), refused as an overflow only when their sum does not fit.
pub proof fn law_feed_median_is_middle(prices: Seq<u128>, t: Seq<u128>)
    requires
        prices.len() > 0,
        forall|i: int, j: int| 0 <= i <= j < t.len() ==> t[i] <= t[j],
        t.to_multiset() == prices.to_multiset(),
    ensures
        t.len() == prices.len(),
        prices.len() % 2 == 1 ==> feed_median(prices) == Ok::<u128, ContractError>(
            t[(prices.len() / 2) as int],
        ),
        prices.len() % 2 == 0 && t[prices.len() / 2 - 1] + t[(prices.len() / 2) as int]
            <= u128::MAX ==> feed_median(prices) == Ok::<u128, ContractError>(
            ((t[prices.len() / 2 - 1] + t[(prices.len() / 2) as int]) / 2) as u128,
        ),
        prices.len() % 2 == 0 && t[prices.len() / 2 - 1] + t[(prices.len() / 2) as int]
            > u128::MAX ==> feed_median(prices) == Err::<u128, ContractError>(
            ContractError::Overflow,
        ),
        prices.len() % 2 == 0 ==> (feed_median(prices) matches Ok(m) ==> t[prices.len() / 2 - 1]
            <= m <= t[(prices.len() / 2) as int]),
{
    broadcast use vstd::seq_lib::group_to_multiset_ensures;

    lemma_price_leq_total();
    prices.lemma_sort_by_ensures(price_leq());
    assert(vstd::relations::sorted_by(t, price_leq()));
    vstd::seq_lib::lemma_sorted_unique(t, ascending_prices(prices), price_leq());
    assert(t.len() == t.to_multiset().len());
    assert(prices.len() == prices.to_multiset().len());
    if prices.len() % 2 == 0 {
        assert(t[prices.len() / 2 - 1] <= t[(prices.len() / 2) as int]);
    }
}
} // verus!
