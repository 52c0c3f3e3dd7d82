//! Taking positions in the active round: Up/Down bets, Precision
//! predictions (direct or committed and revealed later), sealed batch
//! orders, early cash-out and the one-time initial mint.
//!
//! Every entry point here is a decision over what the contract reads for
//! one user at one ledger; on success it returns exactly what is to be
//! written back, on failure nothing is written.
use vstd::prelude::*;

use crate::access_control::{_enforce_access_control, admitted, AccessMarks};
use crate::admin::{_ensure_normal_mode, _require_supported_schema, schema_supported, RuntimeMode};
use crate::common::{
    _accumulate_pending, pending_accumulated, DEFAULT_MAX_PRECISION_PARTICIPANTS, EPOCH_LEDGERS,
};
use crate::insurance::{_collect_protocol_fee, fee_collected, FeeLedger};
use crate::errors::ContractError;
use crate::math_common::{fits_i128, sat_add_i128, saturating_add_i128};
use crate::commitment::{
    order_commitment_digest, order_commitment_hash, precision_commitment_digest,
    precision_commitment_hash,
};
use crate::round::{BetSide, Round, RoundMode};
use soroban_sdk::Env;

verus! {

/// The largest price a Precision prediction may name (4 decimal places).
pub const MAX_PREDICTED_PRICE: u128 = 99_999_999;

/// An Up/Down position.
#[derive(Clone, Copy, Debug, PartialEq, Eq, Structural)]
pub struct UserPosition {
    pub amount: i128,
    pub side: BetSide,
}

/// A revealed (or directly placed) Precision prediction.
#[derive(Clone, Copy, Debug, PartialEq, Eq, Structural)]
pub struct PrecisionPrediction {
    pub predicted_price: u128,
    pub amount: i128,
}

/// A committed, not yet revealed, Precision prediction.
#[derive(Clone, Copy, Debug)]
pub struct PrecisionCommitment {
    pub hash: [u8; 32],
    pub amount: i128,
    pub revealed: bool,
}

/// A sealed Up/Down order of the batch-auction mode.
#[derive(Clone, Copy, Debug)]
pub struct SealedOrder {
    pub hash: [u8; 32],
    pub amount: i128,
    pub revealed: bool,
    pub side: BetSide,
    pub price_guess: u128,
}

/// What a betting entry point reads about the protocol and the user.
#[derive(Clone, Copy, Debug, PartialEq, Eq, Structural)]
pub struct BetContext {
    pub runtime_mode: RuntimeMode,
    pub stored_schema: Option<u32>,
    pub access_enabled: bool,
    pub access: AccessMarks,
    pub sealed_batch_auction: bool,
    pub min_bet: Option<i128>,
    pub max_stake: Option<i128>,
    pub max_user_exposure: Option<i128>,
    pub close_buffer_ledgers: Option<u32>,
    pub max_precision_participants: Option<u32>,
    pub ledger_sequence: u32,
    pub balance: i128,
}

/// What the user already holds in the active round.
#[derive(Clone, Copy, Debug)]
pub struct UserRoundState {
    pub position: Option<UserPosition>,
    pub prediction: Option<PrecisionPrediction>,
    pub commitment: Option<PrecisionCommitment>,
    pub sealed_order: Option<SealedOrder>,
}

// ─── Shared checks ──────────────────────────────────────────────────────────

/// Stake of an optional holding, zero when absent.
pub open spec fn stake_of_position(p: Option<UserPosition>) -> i128 {
    match p {
        Some(p) => p.amount,
        None => 0,
    }
}

/// The user's stake already in the round, summed with saturation.
pub open spec fn user_exposure(u: UserRoundState) -> i128 {
    let a = sat_add_i128(0, stake_of_position(u.position));
    let b = sat_add_i128(
        a,
        match u.prediction {
            Some(p) => p.amount,
            None => 0,
        },
    );
    sat_add_i128(
        b,
        match u.commitment {
            Some(c) => c.amount,
            None => 0,
        },
    )
}

/// Sums what the user already staked in the round (position, prediction and
/// commitment), saturating.
pub fn _user_round_exposure(user: &UserRoundState) -> (e: i128)
    ensures
        e == user_exposure(*user),
{
    let mut exposure: i128 = 0;
    if let Some(p) = user.position {
        exposure = saturating_add_i128(exposure, p.amount);
    }
    if let Some(p) = user.prediction {
        exposure = saturating_add_i128(exposure, p.amount);
    }
    if let Some(c) = user.commitment {
        exposure = saturating_add_i128(exposure, c.amount);
    }
    exposure
}

/// The per-user exposure cap: the current exposure plus the new stake may
/// not exceed it (when set).
pub open spec fn exposure_check(max_exposure: Option<i128>, current: i128, additional: i128) -> Result<
    (),
    ContractError,
> {
    match max_exposure {
        None => Ok(()),
        Some(m) => if !fits_i128(current + additional) {
            Err(ContractError::Overflow)
        } else if current + additional > m {
            Err(ContractError::ExposureCapExceeded)
        } else {
            Ok(())
        },
    }
}

/// Enforces the per-user round exposure cap.
pub fn _enforce_user_round_exposure(
    max_exposure: Option<i128>,
    user: &UserRoundState,
    additional_amount: i128,
) -> (r: Result<(), ContractError>)
    ensures
        r == exposure_check(max_exposure, user_exposure(*user), additional_amount),
{
    if let Some(m) = max_exposure {
        let current = _user_round_exposure(user);
        let next = match current.checked_add(additional_amount) {
            Some(n) => n,
            None => return Err(ContractError::Overflow),
        };
        if next > m {
            return Err(ContractError::ExposureCapExceeded);
        }
    }
    Ok(())
}

/// The minimum bet, when set.
pub open spec fn min_bet_check(min_bet: Option<i128>, amount: i128) -> Result<(), ContractError> {
    match min_bet {
        Some(m) => if amount < m {
            Err(ContractError::BelowMinBet)
        } else {
            Ok(())
        },
        None => Ok(()),
    }
}

/// Refuses an amount below the configured minimum bet.
pub fn _enforce_min_bet(min_bet: Option<i128>, amount: i128) -> (r: Result<(), ContractError>)
    ensures
        r == min_bet_check(min_bet, amount),
{
    if let Some(m) = min_bet {
        if amount < m {
            return Err(ContractError::BelowMinBet);
        }
    }
    Ok(())
}

/// The mode and admission checks every participant entry point makes.
pub open spec fn participant_gate(ctx: BetContext) -> Result<(), ContractError> {
    if ctx.runtime_mode != RuntimeMode::Normal {
        Err(ContractError::ContractPaused)
    } else if !admitted(ctx.access_enabled, ctx.access) {
        Err(ContractError::AccessDenied)
    } else {
        Ok(())
    }
}

fn enforce_participant_gate(ctx: &BetContext) -> (r: Result<(), ContractError>)
    ensures
        r == participant_gate(*ctx),
{
    _ensure_normal_mode(ctx.runtime_mode)?;
    _enforce_access_control(ctx.access_enabled, &ctx.access)
}

/// The checks on a new stake: positive, not below the minimum bet, not above
/// the maximum stake.
pub open spec fn stake_check(ctx: BetContext, amount: i128) -> Result<(), ContractError> {
    if amount <= 0 {
        Err(ContractError::InvalidBetAmount)
    } else if min_bet_check(ctx.min_bet, amount) is Err {
        min_bet_check(ctx.min_bet, amount)
    } else if ctx.max_stake is Some && amount > ctx.max_stake->0 {
        Err(ContractError::StakeExceedsMax)
    } else {
        Ok(())
    }
}

fn enforce_stake(ctx: &BetContext, amount: i128) -> (r: Result<(), ContractError>)
    ensures
        r == stake_check(*ctx, amount),
{
    if amount <= 0 {
        return Err(ContractError::InvalidBetAmount);
    }
    _enforce_min_bet(ctx.min_bet, amount)?;
    if let Some(m) = ctx.max_stake {
        if amount > m {
            return Err(ContractError::StakeExceedsMax);
        }
    }
    Ok(())
}

/// Betting is open: the bet window has not ended, nor its closing buffer
/// begun.
pub open spec fn bet_window_check(ctx: BetContext, round: Round) -> Result<(), ContractError> {
    let buffer = ctx.close_buffer_ledgers.unwrap_or(0u32);
    let close_ledger = if round.bet_end_ledger >= buffer {
        round.bet_end_ledger - buffer
    } else {
        0
    };
    if ctx.ledger_sequence >= round.bet_end_ledger {
        Err(ContractError::RoundEnded)
    } else if buffer > 0 && ctx.ledger_sequence >= close_ledger {
        Err(ContractError::RoundEnded)
    } else {
        Ok(())
    }
}

fn enforce_bet_window(ctx: &BetContext, round: &Round) -> (r: Result<(), ContractError>)
    ensures
        r == bet_window_check(*ctx, *round),
{
    let buffer = ctx.close_buffer_ledgers.unwrap_or(0);
    let close_ledger = round.bet_end_ledger.saturating_sub(buffer);
    if ctx.ledger_sequence >= round.bet_end_ledger {
        return Err(ContractError::RoundEnded);
    }
    if buffer > 0 && ctx.ledger_sequence >= close_ledger {
        return Err(ContractError::RoundEnded);
    }
    Ok(())
}

/// Adds a stake to the pool of its side.
pub open spec fn pool_with(round: Round, side: BetSide, amount: i128) -> Result<
    Round,
    ContractError,
> {
    match side {
        BetSide::Up => if !fits_i128(round.pool_up + amount) {
            Err(ContractError::Overflow)
        } else {
            Ok(Round { pool_up: (round.pool_up + amount) as i128, ..round })
        },
        BetSide::Down => if !fits_i128(round.pool_down + amount) {
            Err(ContractError::Overflow)
        } else {
            Ok(Round { pool_down: (round.pool_down + amount) as i128, ..round })
        },
    }
}

fn add_to_pool(round: Round, side: BetSide, amount: i128) -> (r: Result<Round, ContractError>)
    ensures
        r == pool_with(round, side, amount),
{
    let mut round = round;
    match side {
        BetSide::Up => {
            round.pool_up = match round.pool_up.checked_add(amount) {
                Some(p) => p,
                None => return Err(ContractError::Overflow),
            };
        },
        BetSide::Down => {
            round.pool_down = match round.pool_down.checked_add(amount) {
                Some(p) => p,
                None => return Err(ContractError::Overflow),
            };
        },
    }
    Ok(round)
}

// ─── Up/Down bets ───────────────────────────────────────────────────────────

/// The outcome of an Up/Down bet: the first failed check in the contract's
/// order, else the round with the stake added to its side's pool and the
/// user's balance less the stake.
pub open spec fn place_bet_outcome(
    ctx: BetContext,
    user: UserRoundState,
    active: Option<Round>,
    amount: i128,
    side: BetSide,
) -> Result<(Round, i128), ContractError> {
    if !schema_supported(ctx.stored_schema) {
        Err(ContractError::UnsupportedSchemaVersion)
    } else if participant_gate(ctx) is Err {
        Err(participant_gate(ctx)->Err_0)
    } else if ctx.sealed_batch_auction {
        Err(ContractError::InvalidMode)
    } else if stake_check(ctx, amount) is Err {
        Err(stake_check(ctx, amount)->Err_0)
    } else if active is None {
        Err(ContractError::NoActiveRound)
    } else if exposure_check(ctx.max_user_exposure, user_exposure(user), amount) is Err {
        Err(exposure_check(ctx.max_user_exposure, user_exposure(user), amount)->Err_0)
    } else if active->0.mode != RoundMode::UpDown {
        Err(ContractError::WrongModeForPrediction)
    } else if bet_window_check(ctx, active->0) is Err {
        Err(bet_window_check(ctx, active->0)->Err_0)
    } else if ctx.balance < amount {
        Err(ContractError::InsufficientBalance)
    } else if user.position is Some {
        Err(ContractError::AlreadyBet)
    } else {
        match pool_with(active->0, side, amount) {
            Err(e) => Err(e),
            Ok(r) => Ok((r, (ctx.balance - amount) as i128)),
        }
    }
}

/// Places an Up/Down bet in the active round. On success returns the round
/// with the updated pools and the user's new balance; the position to write
/// is `UserPosition { amount, side }`.
pub fn place_bet(
    ctx: &BetContext,
    user: &UserRoundState,
    active: Option<Round>,
    amount: i128,
    side: BetSide,
) -> (r: Result<(Round, i128), ContractError>)
    ensures
        r == place_bet_outcome(*ctx, *user, active, amount, side),
{
    _require_supported_schema(ctx.stored_schema)?;
    enforce_participant_gate(ctx)?;
    if ctx.sealed_batch_auction {
        return Err(ContractError::InvalidMode);
    }
    enforce_stake(ctx, amount)?;
    let round = match active {
        Some(r) => r,
        None => return Err(ContractError::NoActiveRound),
    };
    _enforce_user_round_exposure(ctx.max_user_exposure, user, amount)?;
    if round.mode != RoundMode::UpDown {
        return Err(ContractError::WrongModeForPrediction);
    }
    enforce_bet_window(ctx, &round)?;
    if ctx.balance < amount {
        return Err(ContractError::InsufficientBalance);
    }
    if user.position.is_some() {
        return Err(ContractError::AlreadyBet);
    }
    let new_balance = ctx.balance - amount;
    let round = add_to_pool(round, side, amount)?;
    Ok((round, new_balance))
}

// ─── Precision predictions ──────────────────────────────────────────────────

/// The Precision checks shared by direct predictions and commitments, from
/// the active round on: exposure, mode, bet window.
pub open spec fn precision_round_check(
    ctx: BetContext,
    user: UserRoundState,
    active: Option<Round>,
    amount: i128,
) -> Result<Round, ContractError> {
    if active is None {
        Err(ContractError::NoActiveRound)
    } else if exposure_check(ctx.max_user_exposure, user_exposure(user), amount) is Err {
        Err(exposure_check(ctx.max_user_exposure, user_exposure(user), amount)->Err_0)
    } else if active->0.mode != RoundMode::Precision {
        Err(ContractError::WrongModeForPrediction)
    } else if bet_window_check(ctx, active->0) is Err {
        Err(bet_window_check(ctx, active->0)->Err_0)
    } else {
        Ok(active->0)
    }
}

fn enforce_precision_round(
    ctx: &BetContext,
    user: &UserRoundState,
    active: Option<Round>,
    amount: i128,
) -> (r: Result<Round, ContractError>)
    ensures
        r == precision_round_check(*ctx, *user, active, amount),
{
    let round = match active {
        Some(r) => r,
        None => return Err(ContractError::NoActiveRound),
    };
    _enforce_user_round_exposure(ctx.max_user_exposure, user, amount)?;
    if round.mode != RoundMode::Precision {
        return Err(ContractError::WrongModeForPrediction);
    }
    enforce_bet_window(ctx, &round)?;
    Ok(round)
}

/// The outcome of a direct Precision prediction: the first failed check,
/// else the prediction to record and the user's new balance.
pub open spec fn precision_prediction_outcome(
    ctx: BetContext,
    user: UserRoundState,
    active: Option<Round>,
    participant_count: u32,
    amount: i128,
    predicted_price: u128,
) -> Result<(PrecisionPrediction, i128), ContractError> {
    if !schema_supported(ctx.stored_schema) {
        Err(ContractError::UnsupportedSchemaVersion)
    } else if participant_gate(ctx) is Err {
        Err(participant_gate(ctx)->Err_0)
    } else if stake_check(ctx, amount) is Err {
        Err(stake_check(ctx, amount)->Err_0)
    } else if predicted_price > MAX_PREDICTED_PRICE {
        Err(ContractError::InvalidPrice)
    } else if precision_round_check(ctx, user, active, amount) is Err {
        Err(precision_round_check(ctx, user, active, amount)->Err_0)
    } else if user.prediction is Some || user.commitment is Some {
        Err(ContractError::AlreadyBet)
    } else if participant_count >= ctx.max_precision_participants.unwrap_or(
        DEFAULT_MAX_PRECISION_PARTICIPANTS,
    ) {
        Err(ContractError::PrecisionCapExceeded)
    } else if ctx.balance < amount {
        Err(ContractError::InsufficientBalance)
    } else {
        Ok(
            (
                PrecisionPrediction { predicted_price, amount },
                (ctx.balance - amount) as i128,
            ),
        )
    }
}

/// Places a Precision prediction in the active round. `participant_count`
/// is the number of participants the round already has.
pub fn place_precision_prediction(
    ctx: &BetContext,
    user: &UserRoundState,
    active: Option<Round>,
    participant_count: u32,
    amount: i128,
    predicted_price: u128,
) -> (r: Result<(PrecisionPrediction, i128), ContractError>)
    ensures
        r == precision_prediction_outcome(
            *ctx,
            *user,
            active,
            participant_count,
            amount,
            predicted_price,
        ),
{
    _require_supported_schema(ctx.stored_schema)?;
    enforce_participant_gate(ctx)?;
    enforce_stake(ctx, amount)?;
    if predicted_price > MAX_PREDICTED_PRICE {
        return Err(ContractError::InvalidPrice);
    }
    let _round = enforce_precision_round(ctx, user, active, amount)?;
    if user.prediction.is_some() || user.commitment.is_some() {
        return Err(ContractError::AlreadyBet);
    }
    let cap = ctx.max_precision_participants.unwrap_or(DEFAULT_MAX_PRECISION_PARTICIPANTS);
    if participant_count >= cap {
        return Err(ContractError::PrecisionCapExceeded);
    }
    if ctx.balance < amount {
        return Err(ContractError::InsufficientBalance);
    }
    Ok((PrecisionPrediction { predicted_price, amount }, ctx.balance - amount))
}

/// The same as [`place_precision_prediction`], with the price first.
pub fn predict_price(
    ctx: &BetContext,
    user: &UserRoundState,
    active: Option<Round>,
    participant_count: u32,
    guessed_price: u128,
    amount: i128,
) -> (r: Result<(PrecisionPrediction, i128), ContractError>)
    ensures
        r == precision_prediction_outcome(
            *ctx,
            *user,
            active,
            participant_count,
            amount,
            guessed_price,
        ),
{
    place_precision_prediction(ctx, user, active, participant_count, amount, guessed_price)
}

/// Whether 32 bytes are all zero.
pub open spec fn all_zero(bytes: Seq<u8>) -> bool {
    forall|i: int| 0 <= i < bytes.len() ==> bytes[i] == 0
}

/// Whether a hash is the all-zero placeholder.
pub fn is_zero_bytes32(value: &[u8; 32]) -> (b: bool)
    ensures
        b == all_zero(value@),
{
    let mut i: usize = 0;
    while i < 32
        invariant
            i <= 32,
            value@.len() == 32,
            forall|k: int| 0 <= k < i ==> value@[k] == 0,
        decreases 32 - i,
    {
        if value[i] != 0 {
            return false;
        }
        i = i + 1;
    }
    true
}

/// The outcome of committing a Precision prediction: the first failed
/// check, else the commitment to record and the user's new balance.
pub open spec fn commit_prediction_outcome(
    ctx: BetContext,
    user: UserRoundState,
    active: Option<Round>,
    hash: Seq<u8>,
    amount: i128,
) -> Result<i128, ContractError> {
    if participant_gate(ctx) is Err {
        Err(participant_gate(ctx)->Err_0)
    } else if all_zero(hash) {
        Err(ContractError::InvalidCommitment)
    } else if stake_check(ctx, amount) is Err {
        Err(stake_check(ctx, amount)->Err_0)
    } else if precision_round_check(ctx, user, active, amount) is Err {
        Err(precision_round_check(ctx, user, active, amount)->Err_0)
    } else if ctx.balance < amount {
        Err(ContractError::InsufficientBalance)
    } else if user.prediction is Some || user.commitment is Some {
        Err(ContractError::AlreadyBet)
    } else {
        Ok((ctx.balance - amount) as i128)
    }
}

/// Commits to a Precision prediction by its hash (see
/// [`precision_commitment_digest`]); the all-zero hash is refused before
/// anything else is read. Returns the commitment and the user's new balance.
pub fn commit_prediction(
    ctx: &BetContext,
    user: &UserRoundState,
    active: Option<Round>,
    hash: [u8; 32],
    amount: i128,
) -> (r: Result<(PrecisionCommitment, i128), ContractError>)
    ensures
        match commit_prediction_outcome(*ctx, *user, active, hash@, amount) {
            Err(e) => r == Err::<(PrecisionCommitment, i128), ContractError>(e),
            Ok(b) => r matches Ok((c, nb)) && nb == b && c.hash@ == hash@ && c.amount == amount
                && !c.revealed,
        },
{
    enforce_participant_gate(ctx)?;
    if is_zero_bytes32(&hash) {
        return Err(ContractError::InvalidCommitment);
    }
    enforce_stake(ctx, amount)?;
    let _round = enforce_precision_round(ctx, user, active, amount)?;
    if ctx.balance < amount {
        return Err(ContractError::InsufficientBalance);
    }
    if user.prediction.is_some() || user.commitment.is_some() {
        return Err(ContractError::AlreadyBet);
    }
    Ok((PrecisionCommitment { hash, amount, revealed: false }, ctx.balance - amount))
}

/// A successful bet moves exactly the stake from the user's balance into the
/// pools: balance plus pools is unchanged.
pub proof fn law_bet_conserves_funds(
    ctx: BetContext,
    user: UserRoundState,
    active: Option<Round>,
    amount: i128,
    side: BetSide,
)
    requires
        place_bet_outcome(ctx, user, active, amount, side) is Ok,
    ensures
        ({
            let (r, b) = place_bet_outcome(ctx, user, active, amount, side)->Ok_0;
            &&& b + r.pool_up + r.pool_down == ctx.balance + active->0.pool_up
                + active->0.pool_down
            &&& b == ctx.balance - amount
            &&& r.round_id == active->0.round_id
            &&& r.bet_end_ledger == active->0.bet_end_ledger
        }),
{
}

/// No stake is taken outside the bet window, from a user already holding a
/// position, or beyond the user's balance.
pub proof fn law_bet_refused_outside_rules(
    ctx: BetContext,
    user: UserRoundState,
    active: Option<Round>,
    amount: i128,
    side: BetSide,
)
    requires
        active is Some,
        ctx.ledger_sequence >= active->0.bet_end_ledger || user.position is Some || ctx.balance
            < amount || amount <= 0,
    ensures
        place_bet_outcome(ctx, user, active, amount, side) is Err,
{
}


// ─── Reveals ────────────────────────────────────────────────────────────────

/// A salt is not a trivial placeholder: some byte is non-zero and some
/// byte differs from the first.
pub open spec fn has_min_entropy(salt: Seq<u8>) -> bool {
    &&& exists|i: int| 0 <= i < salt.len() && #[trigger] salt[i] != 0
    &&& exists|i: int| 0 <= i < salt.len() && #[trigger] salt[i] != salt[0]
}

/// Rejects clearly weak salts: all zero, or every byte the same.
pub fn salt_has_minimum_entropy(salt: &[u8; 32]) -> (b: bool)
    ensures
        b == has_min_entropy(salt@),
{
    let first = salt[0];
    let mut saw_nonzero = false;
    let mut saw_different = false;
    let mut i: usize = 0;
    while i < 32
        invariant
            i <= 32,
            salt@.len() == 32,
            first == salt@[0],
            saw_nonzero ==> exists|k: int| 0 <= k < i && #[trigger] salt@[k] != 0,
            !saw_nonzero ==> forall|k: int| 0 <= k < i ==> #[trigger] salt@[k] == 0,
            saw_different ==> exists|k: int| 0 <= k < i && #[trigger] salt@[k] != first,
            !saw_different ==> forall|k: int| 0 <= k < i ==> #[trigger] salt@[k] == first,
        decreases 32 - i,
    {
        if salt[i] != 0 {
            saw_nonzero = true;
        }
        if salt[i] != first {
            saw_different = true;
        }
        i = i + 1;
    }
    saw_nonzero && saw_different
}

/// Whether two 32-byte values are equal.
fn bytes32_eq(a: &[u8; 32], b: &[u8; 32]) -> (e: bool)
    ensures
        e == (a@ == b@),
{
    let mut i: usize = 0;
    while i < 32
        invariant
            i <= 32,
            a@.len() == 32,
            b@.len() == 32,
            forall|k: int| 0 <= k < i ==> a@[k] == b@[k],
        decreases 32 - i,
    {
        if a[i] != b[i] {
            return false;
        }
        i = i + 1;
    }
    proof {
        assert(a@ =~= b@);
    }
    true
}

/// The reveal window: betting has closed and the round has not ended.
pub open spec fn reveal_window_check(ledger: u32, round: Round) -> Result<(), ContractError> {
    if ledger < round.bet_end_ledger || ledger >= round.end_ledger {
        Err(ContractError::InvalidRevealWindow)
    } else {
        Ok(())
    }
}

/// The outcome of revealing a Precision commitment whose recomputed digest
/// is `digest`: the first failed check, else the commitment marked revealed
/// and the prediction to record for resolution.
pub open spec fn prediction_reveal_outcome(
    ctx: BetContext,
    active: Option<Round>,
    commitment: Option<PrecisionCommitment>,
    predicted_price: u128,
    salt: Seq<u8>,
    digest: Seq<u8>,
) -> Result<(PrecisionCommitment, PrecisionPrediction), ContractError> {
    if participant_gate(ctx) is Err {
        Err(participant_gate(ctx)->Err_0)
    } else if !has_min_entropy(salt) {
        Err(ContractError::InvalidSalt)
    } else if active is None {
        Err(ContractError::NoActiveRound)
    } else if active->0.mode != RoundMode::Precision {
        Err(ContractError::WrongModeForPrediction)
    } else if reveal_window_check(ctx.ledger_sequence, active->0) is Err {
        Err(ContractError::InvalidRevealWindow)
    } else if commitment is None {
        Err(ContractError::CommitmentNotFound)
    } else if commitment->0.revealed {
        Err(ContractError::AlreadyRevealed)
    } else if digest != commitment->0.hash@ {
        Err(ContractError::HashMismatch)
    } else {
        Ok(
            (
                PrecisionCommitment { revealed: true, ..commitment->0 },
                PrecisionPrediction { predicted_price, amount: commitment->0.amount },
            ),
        )
    }
}

/// Checks a Precision reveal against an already computed digest
/// `computed_hash` of the revealed price and salt.
pub fn check_prediction_reveal(
    ctx: &BetContext,
    active: Option<Round>,
    commitment: Option<PrecisionCommitment>,
    predicted_price: u128,
    salt: &[u8; 32],
    computed_hash: &[u8; 32],
) -> (r: Result<(PrecisionCommitment, PrecisionPrediction), ContractError>)
    ensures
        r == prediction_reveal_outcome(
            *ctx,
            active,
            commitment,
            predicted_price,
            salt@,
            computed_hash@,
        ),
{
    enforce_participant_gate(ctx)?;
    if !salt_has_minimum_entropy(salt) {
        return Err(ContractError::InvalidSalt);
    }
    let round = match active {
        Some(r) => r,
        None => return Err(ContractError::NoActiveRound),
    };
    if round.mode != RoundMode::Precision {
        return Err(ContractError::WrongModeForPrediction);
    }
    if ctx.ledger_sequence < round.bet_end_ledger || ctx.ledger_sequence >= round.end_ledger {
        return Err(ContractError::InvalidRevealWindow);
    }
    let c = match commitment {
        Some(c) => c,
        None => return Err(ContractError::CommitmentNotFound),
    };
    if c.revealed {
        return Err(ContractError::AlreadyRevealed);
    }
    if !bytes32_eq(computed_hash, &c.hash) {
        return Err(ContractError::HashMismatch);
    }
    Ok(
        (
            PrecisionCommitment { hash: c.hash, amount: c.amount, revealed: true },
            PrecisionPrediction { predicted_price, amount: c.amount },
        ),
    )
}

/// Reveals a committed Precision prediction during the reveal window: the
/// commitment must be the digest of the price and the salt.
pub fn reveal_prediction(
    env: &Env,
    ctx: &BetContext,
    active: Option<Round>,
    commitment: Option<PrecisionCommitment>,
    predicted_price: u128,
    salt: [u8; 32],
) -> (r: Result<(PrecisionCommitment, PrecisionPrediction), ContractError>)
    ensures
        r == prediction_reveal_outcome(
            *ctx,
            active,
            commitment,
            predicted_price,
            salt@,
            precision_commitment_digest(predicted_price, salt@),
        ),
{
    let computed = precision_commitment_hash(env, predicted_price, &salt);
    check_prediction_reveal(ctx, active, commitment, predicted_price, &salt, &computed)
}

// ─── Sealed batch orders ────────────────────────────────────────────────────

/// The outcome of committing a sealed order: the first failed check, else
/// the user's new balance.
pub open spec fn commit_order_outcome(
    ctx: BetContext,
    user: UserRoundState,
    active: Option<Round>,
    amount: i128,
) -> Result<i128, ContractError> {
    if !schema_supported(ctx.stored_schema) {
        Err(ContractError::UnsupportedSchemaVersion)
    } else if participant_gate(ctx) is Err {
        Err(participant_gate(ctx)->Err_0)
    } else if !ctx.sealed_batch_auction {
        Err(ContractError::InvalidMode)
    } else if stake_check(ctx, amount) is Err {
        Err(stake_check(ctx, amount)->Err_0)
    } else if active is None {
        Err(ContractError::NoActiveRound)
    } else if active->0.mode != RoundMode::UpDown {
        Err(ContractError::WrongModeForPrediction)
    } else if bet_window_check(ctx, active->0) is Err {
        Err(bet_window_check(ctx, active->0)->Err_0)
    } else if ctx.max_user_exposure is Some && amount > ctx.max_user_exposure->0 {
        Err(ContractError::ExposureCapExceeded)
    } else if ctx.balance < amount {
        Err(ContractError::InsufficientBalance)
    } else if user.sealed_order is Some || user.position is Some {
        Err(ContractError::AlreadyBet)
    } else {
        Ok((ctx.balance - amount) as i128)
    }
}

/// Commits a sealed Up/Down order in batch-auction mode. Returns the
/// order to store and the user's new balance.
pub fn commit_order(
    ctx: &BetContext,
    user: &UserRoundState,
    active: Option<Round>,
    amount: i128,
    side: BetSide,
    price_guess: u128,
    hash: [u8; 32],
) -> (r: Result<(SealedOrder, i128), ContractError>)
    ensures
        match commit_order_outcome(*ctx, *user, active, amount) {
            Err(e) => r == Err::<(SealedOrder, i128), ContractError>(e),
            Ok(b) => r matches Ok((o, nb)) && nb == b && o.hash@ == hash@ && o.amount == amount
                && !o.revealed && o.side == side && o.price_guess == price_guess,
        },
{
    _require_supported_schema(ctx.stored_schema)?;
    enforce_participant_gate(ctx)?;
    if !ctx.sealed_batch_auction {
        return Err(ContractError::InvalidMode);
    }
    enforce_stake(ctx, amount)?;
    let round = match active {
        Some(r) => r,
        None => return Err(ContractError::NoActiveRound),
    };
    if round.mode != RoundMode::UpDown {
        return Err(ContractError::WrongModeForPrediction);
    }
    enforce_bet_window(ctx, &round)?;
    if let Some(m) = ctx.max_user_exposure {
        if amount > m {
            return Err(ContractError::ExposureCapExceeded);
        }
    }
    if ctx.balance < amount {
        return Err(ContractError::InsufficientBalance);
    }
    if user.sealed_order.is_some() || user.position.is_some() {
        return Err(ContractError::AlreadyBet);
    }
    Ok(
        (
            SealedOrder { hash, amount, revealed: false, side, price_guess },
            ctx.balance - amount,
        ),
    )
}

/// The name a side's variant has in its encoding.
pub open spec fn bet_side_name(side: BetSide) -> Seq<char> {
    match side {
        BetSide::Up => "Up"@,
        BetSide::Down => "Down"@,
    }
}

/// The name of a side's variant.
pub fn bet_side_symbol(side: BetSide) -> (s: &'static str)
    ensures
        s@ == bet_side_name(side),
{
    match side {
        BetSide::Up => "Up",
        BetSide::Down => "Down",
    }
}

/// The outcome of revealing a sealed order whose recomputed digest is
/// `digest`: the first failed check, else the order marked revealed.
pub open spec fn order_reveal_outcome(
    ctx: BetContext,
    active: Option<Round>,
    order: Option<SealedOrder>,
    amount: i128,
    side: BetSide,
    price_guess: u128,
    salt: Seq<u8>,
    digest: Seq<u8>,
) -> Result<SealedOrder, ContractError> {
    if !schema_supported(ctx.stored_schema) {
        Err(ContractError::UnsupportedSchemaVersion)
    } else if participant_gate(ctx) is Err {
        Err(participant_gate(ctx)->Err_0)
    } else if !ctx.sealed_batch_auction {
        Err(ContractError::InvalidMode)
    } else if !has_min_entropy(salt) {
        Err(ContractError::InvalidSalt)
    } else if active is None {
        Err(ContractError::NoActiveRound)
    } else if active->0.mode != RoundMode::UpDown {
        Err(ContractError::WrongModeForPrediction)
    } else if reveal_window_check(ctx.ledger_sequence, active->0) is Err {
        Err(ContractError::InvalidRevealWindow)
    } else if order is None {
        Err(ContractError::CommitmentNotFound)
    } else if order->0.revealed {
        Err(ContractError::AlreadyRevealed)
    } else if order->0.amount != amount || order->0.side != side || order->0.price_guess
        != price_guess {
        Err(ContractError::HashMismatch)
    } else if digest != order->0.hash@ {
        Err(ContractError::HashMismatch)
    } else {
        Ok(SealedOrder { revealed: true, ..order->0 })
    }
}

/// Checks a sealed-order reveal against an already computed digest
/// `computed_hash` of the revealed terms and salt.
pub fn check_order_reveal(
    ctx: &BetContext,
    active: Option<Round>,
    order: Option<SealedOrder>,
    amount: i128,
    side: BetSide,
    price_guess: u128,
    salt: &[u8; 32],
    computed_hash: &[u8; 32],
) -> (r: Result<SealedOrder, ContractError>)
    ensures
        r == order_reveal_outcome(
            *ctx,
            active,
            order,
            amount,
            side,
            price_guess,
            salt@,
            computed_hash@,
        ),
{
    _require_supported_schema(ctx.stored_schema)?;
    enforce_participant_gate(ctx)?;
    if !ctx.sealed_batch_auction {
        return Err(ContractError::InvalidMode);
    }
    if !salt_has_minimum_entropy(salt) {
        return Err(ContractError::InvalidSalt);
    }
    let round = match active {
        Some(r) => r,
        None => return Err(ContractError::NoActiveRound),
    };
    if round.mode != RoundMode::UpDown {
        return Err(ContractError::WrongModeForPrediction);
    }
    if ctx.ledger_sequence < round.bet_end_ledger || ctx.ledger_sequence >= round.end_ledger {
        return Err(ContractError::InvalidRevealWindow);
    }
    let o = match order {
        Some(o) => o,
        None => return Err(ContractError::CommitmentNotFound),
    };
    if o.revealed {
        return Err(ContractError::AlreadyRevealed);
    }
    if o.amount != amount || o.side != side || o.price_guess != price_guess {
        return Err(ContractError::HashMismatch);
    }
    if !bytes32_eq(computed_hash, &o.hash) {
        return Err(ContractError::HashMismatch);
    }
    Ok(
        SealedOrder {
            hash: o.hash,
            amount: o.amount,
            revealed: true,
            side: o.side,
            price_guess: o.price_guess,
        },
    )
}

/// Reveals a sealed order after betting closes: the terms must match the
/// order and its digest.
pub fn reveal_order(
    env: &Env,
    ctx: &BetContext,
    active: Option<Round>,
    order: Option<SealedOrder>,
    amount: i128,
    side: BetSide,
    price_guess: u128,
    salt: [u8; 32],
) -> (r: Result<SealedOrder, ContractError>)
    ensures
        r == order_reveal_outcome(
            *ctx,
            active,
            order,
            amount,
            side,
            price_guess,
            salt@,
            order_commitment_digest(bet_side_name(side), amount, price_guess, salt@),
        ),
{
    let computed = order_commitment_hash(env, bet_side_symbol(side), amount, price_guess, &salt);
    check_order_reveal(ctx, active, order, amount, side, price_guess, &salt, &computed)
}


// ─── Early cash-out ─────────────────────────────────────────────────────────

/// What an early cash-out changes: the round without the stake, the
/// amount credited to the user, the amount forfeited to the protocol, the
/// user's new pending winnings and the fee ledger after the forfeit.
#[derive(Clone, Copy, Debug, PartialEq, Eq, Structural)]
pub struct CashoutOutcome {
    pub round: Round,
    pub cashout: i128,
    pub forfeit: i128,
    pub pending: i128,
    pub fees: FeeLedger,
}

/// The round with a stake taken back out of its side's pool.
pub open spec fn pool_without(round: Round, side: BetSide, stake: i128) -> Result<
    Round,
    ContractError,
> {
    match side {
        BetSide::Up => if !fits_i128(round.pool_up - stake) {
            Err(ContractError::Overflow)
        } else {
            Ok(Round { pool_up: (round.pool_up - stake) as i128, ..round })
        },
        BetSide::Down => if !fits_i128(round.pool_down - stake) {
            Err(ContractError::Overflow)
        } else {
            Ok(Round { pool_down: (round.pool_down - stake) as i128, ..round })
        },
    }
}

/// The outcome of an early cash-out: the first failed check, else the
/// stake leaves the pool, `stake * penalty_bps / 10_000` is forfeited as a
/// protocol fee and the rest is credited to the user's pending winnings.
pub open spec fn cashout_outcome(
    ctx: BetContext,
    position: Option<UserPosition>,
    active: Option<Round>,
    penalty_bps: Option<u32>,
    pending: i128,
    pending_cap: Option<i128>,
    fees: FeeLedger,
) -> Result<CashoutOutcome, ContractError> {
    if !schema_supported(ctx.stored_schema) {
        Err(ContractError::UnsupportedSchemaVersion)
    } else if participant_gate(ctx) is Err {
        Err(participant_gate(ctx)->Err_0)
    } else if penalty_bps is None || penalty_bps->0 == 0 || penalty_bps->0 > 10_000 {
        Err(ContractError::EarlyCashoutDisabled)
    } else if active is None {
        Err(ContractError::NoActiveRound)
    } else if active->0.mode != RoundMode::UpDown {
        Err(ContractError::WrongModeForCashout)
    } else if ctx.ledger_sequence < active->0.bet_end_ledger || ctx.ledger_sequence
        >= active->0.end_ledger {
        Err(ContractError::InvalidPhaseForCashout)
    } else if position is None {
        Err(ContractError::PositionNotFound)
    } else if position->0.amount <= 0 {
        Err(ContractError::InvalidBetAmount)
    } else if !fits_i128(position->0.amount * penalty_bps->0) {
        Err(ContractError::Overflow)
    } else {
        let stake = position->0.amount;
        let forfeit = stake * penalty_bps->0 / 10_000;
        let cashout = stake - forfeit;
        match pool_without(active->0, position->0.side, stake) {
            Err(e) => Err(e),
            Ok(round) => {
                let p = if cashout > 0 {
                    pending_accumulated(pending, cashout as i128, pending_cap)
                } else {
                    Ok(pending)
                };
                match p {
                    Err(e) => Err(e),
                    Ok(new_pending) => match fee_collected(fees, forfeit as i128) {
                        Err(e) => Err(e),
                        Ok(new_fees) => Ok(
                            CashoutOutcome {
                                round,
                                cashout: cashout as i128,
                                forfeit: forfeit as i128,
                                pending: new_pending,
                                fees: new_fees,
                            },
                        ),
                    },
                }
            },
        }
    }
}

/// Exits an Up/Down position while the round runs (betting closed, not yet
/// ended), when early cash-out is enabled: the whole stake leaves the pool,
/// a penalty share of it goes to the protocol and the rest to the user.
pub fn cash_out_early(
    ctx: &BetContext,
    position: Option<UserPosition>,
    active: Option<Round>,
    penalty_bps: Option<u32>,
    pending: i128,
    pending_cap: Option<i128>,
    fees: FeeLedger,
) -> (r: Result<CashoutOutcome, ContractError>)
    ensures
        r == cashout_outcome(*ctx, position, active, penalty_bps, pending, pending_cap, fees),
{
    _require_supported_schema(ctx.stored_schema)?;
    enforce_participant_gate(ctx)?;
    let bps = match penalty_bps {
        Some(b) => b,
        None => return Err(ContractError::EarlyCashoutDisabled),
    };
    if bps == 0 || bps > 10_000 {
        return Err(ContractError::EarlyCashoutDisabled);
    }
    let round = match active {
        Some(r) => r,
        None => return Err(ContractError::NoActiveRound),
    };
    if round.mode != RoundMode::UpDown {
        return Err(ContractError::WrongModeForCashout);
    }
    if ctx.ledger_sequence < round.bet_end_ledger || ctx.ledger_sequence >= round.end_ledger {
        return Err(ContractError::InvalidPhaseForCashout);
    }
    let pos = match position {
        Some(p) => p,
        None => return Err(ContractError::PositionNotFound),
    };
    let stake = pos.amount;
    if stake <= 0 {
        return Err(ContractError::InvalidBetAmount);
    }
    let product = match stake.checked_mul(bps as i128) {
        Some(p) => p,
        None => return Err(ContractError::Overflow),
    };
    let forfeit = product / 10_000;
    proof {
        assert(0 <= forfeit <= stake) by (nonlinear_arith)
            requires
                forfeit == product / 10_000,
                product == stake * bps,
                stake > 0,
                0 < bps <= 10_000,
        ;
    }
    let cashout = stake - forfeit;
    let mut round = round;
    match pos.side {
        BetSide::Up => {
            round.pool_up = match round.pool_up.checked_sub(stake) {
                Some(p) => p,
                None => return Err(ContractError::Overflow),
            };
        },
        BetSide::Down => {
            round.pool_down = match round.pool_down.checked_sub(stake) {
                Some(p) => p,
                None => return Err(ContractError::Overflow),
            };
        },
    }
    let new_pending = if cashout > 0 {
        _accumulate_pending(pending, cashout, pending_cap)?
    } else {
        pending
    };
    let new_fees = _collect_protocol_fee(fees, forfeit)?;
    Ok(CashoutOutcome { round, cashout, forfeit, pending: new_pending, fees: new_fees })
}

/// An early cash-out accounts for the whole stake: what the user is
/// credited and what is forfeited add up to it, both are non-negative, the
/// pools shrink by exactly it, and the fee ledger grows by the forfeit.
pub proof fn law_cashout_accounts_for_stake(
    ctx: BetContext,
    position: Option<UserPosition>,
    active: Option<Round>,
    penalty_bps: Option<u32>,
    pending: i128,
    pending_cap: Option<i128>,
    fees: FeeLedger,
)
    requires
        cashout_outcome(ctx, position, active, penalty_bps, pending, pending_cap, fees) is Ok,
    ensures
        ({
            let o = cashout_outcome(ctx, position, active, penalty_bps, pending, pending_cap, fees)->Ok_0;
            let stake = position->0.amount;
            &&& o.cashout + o.forfeit == stake
            &&& 0 <= o.forfeit <= stake
            &&& o.forfeit == stake * penalty_bps->0 / 10_000
            &&& o.round.pool_up + o.round.pool_down == active->0.pool_up + active->0.pool_down
                - stake
            &&& o.pending == pending + o.cashout
            &&& o.fees.treasury + o.fees.insurance_fund == fees.treasury + fees.insurance_fund
                + o.forfeit
        }),
{
    let stake = position->0.amount;
    let bps = penalty_bps->0;
    assert(0 <= stake * bps / 10_000 <= stake) by (nonlinear_arith)
        requires
            stake > 0,
            0 < bps <= 10_000,
    ;
}

// ─── Initial mint ───────────────────────────────────────────────────────────

/// The amount every new user is minted once (1000 units, 7 decimals).
pub const INITIAL_MINT_AMOUNT: i128 = 1000_0000000;

/// What the initial mint reads besides the participant gate.
#[derive(Clone, Copy, Debug, PartialEq, Eq, Structural)]
pub struct MintContext {
    /// The user's balance, when one was ever written.
    pub existing_balance: Option<i128>,
    /// The per-ledger mint limit, when configured.
    pub mint_limit: Option<u32>,
    /// Mints already made at this ledger.
    pub ledger_mint_count: u32,
    /// The per-epoch mint budget (0 = unlimited).
    pub epoch_budget: i128,
    /// The epoch the consumed amount belongs to.
    pub stored_epoch: u32,
    /// The amount minted in `stored_epoch`.
    pub consumed: i128,
}

/// The amount minted within one epoch.
#[derive(Clone, Copy, Debug, PartialEq, Eq, Structural)]
pub struct EpochMint {
    pub epoch: u32,
    pub consumed: i128,
}

/// What the initial mint writes: the user's balance, and the new per-ledger
/// count and epoch consumption where they change.
#[derive(Clone, Copy, Debug, PartialEq, Eq, Structural)]
pub struct MintOutcome {
    pub balance: i128,
    pub minted: bool,
    pub ledger_mint_count: Option<u32>,
    pub epoch_consumed: Option<EpochMint>,
}

/// The outcome of the initial mint: an existing balance is returned as is;
/// otherwise the per-ledger limit and the epoch budget must allow the mint.
pub open spec fn mint_outcome(ctx: BetContext, m: MintContext) -> Result<MintOutcome, ContractError> {
    let epoch = ctx.ledger_sequence / EPOCH_LEDGERS;
    let consumed = if m.stored_epoch == epoch {
        m.consumed as int
    } else {
        0
    };
    let limited = m.mint_limit is Some && m.mint_limit->0 > 0;
    if !schema_supported(ctx.stored_schema) {
        Err(ContractError::UnsupportedSchemaVersion)
    } else if participant_gate(ctx) is Err {
        Err(participant_gate(ctx)->Err_0)
    } else if m.existing_balance is Some {
        Ok(
            MintOutcome {
                balance: m.existing_balance->0,
                minted: false,
                ledger_mint_count: None,
                epoch_consumed: None,
            },
        )
    } else if limited && m.ledger_mint_count >= m.mint_limit->0 {
        Err(ContractError::MintLimitExceeded)
    } else if m.epoch_budget > 0 && (!fits_i128(consumed + INITIAL_MINT_AMOUNT) || consumed
        + INITIAL_MINT_AMOUNT > m.epoch_budget) {
        Err(ContractError::EpochBudgetExceeded)
    } else {
        Ok(
            MintOutcome {
                balance: INITIAL_MINT_AMOUNT,
                minted: true,
                ledger_mint_count: if limited {
                    Some((m.ledger_mint_count + 1) as u32)
                } else {
                    None
                },
                epoch_consumed: if m.epoch_budget > 0 {
                    Some(EpochMint { epoch: epoch as u32, consumed: (consumed + INITIAL_MINT_AMOUNT) as i128 })
                } else {
                    None
                },
            },
        )
    }
}

/// Mints the initial balance to a new user, once; a user who already has
/// a balance gets it back unchanged. The contract reports a refusal by
/// failing the call with the error.
pub fn mint_initial(ctx: &BetContext, m: &MintContext) -> (r: Result<MintOutcome, ContractError>)
    ensures
        r == mint_outcome(*ctx, *m),
{
    _require_supported_schema(ctx.stored_schema)?;
    enforce_participant_gate(ctx)?;
    if let Some(b) = m.existing_balance {
        return Ok(
            MintOutcome { balance: b, minted: false, ledger_mint_count: None, epoch_consumed: None },
        );
    }
    let mut new_count: Option<u32> = None;
    if let Some(limit) = m.mint_limit {
        if limit > 0 {
            if m.ledger_mint_count >= limit {
                return Err(ContractError::MintLimitExceeded);
            }
            new_count = Some(m.ledger_mint_count + 1);
        }
    }
    let mut epoch_consumed: Option<EpochMint> = None;
    if m.epoch_budget > 0 {
        let current_epoch = ctx.ledger_sequence / EPOCH_LEDGERS;
        let consumed = if m.stored_epoch == current_epoch {
            m.consumed
        } else {
            0
        };
        match consumed.checked_add(INITIAL_MINT_AMOUNT) {
            Some(v) => {
                if v <= m.epoch_budget {
                    epoch_consumed = Some(EpochMint { epoch: current_epoch, consumed: v });
                } else {
                    return Err(ContractError::EpochBudgetExceeded);
                }
            },
            None => return Err(ContractError::EpochBudgetExceeded),
        }
    }
    Ok(
        MintOutcome {
            balance: INITIAL_MINT_AMOUNT,
            minted: true,
            ledger_mint_count: new_count,
            epoch_consumed,
        },
    )
}

/// Minting is one-time: a user with a balance is never minted again, and
/// a mint never pushes the epoch's consumption past a positive budget.
pub proof fn law_mint_once_within_budget(ctx: BetContext, m: MintContext)
    requires
        mint_outcome(ctx, m) is Ok,
    ensures
        m.existing_balance is Some ==> !mint_outcome(ctx, m)->Ok_0.minted
            && mint_outcome(ctx, m)->Ok_0.balance == m.existing_balance->0,
        mint_outcome(ctx, m)->Ok_0.minted ==> m.existing_balance is None,
        mint_outcome(ctx, m)->Ok_0.epoch_consumed matches Some(em) ==> em.consumed <= m.epoch_budget,
{
}


// ─── Sealed batch finalization ──────────────────────────────────────────────

/// One listed participant of the sealed batch: the user, the sealed order
/// still stored for them (if any) and their balance.
#[derive(Clone, Copy, Debug)]
pub struct SealedBatchEntry {
    pub user: u64,
    pub order: Option<SealedOrder>,
    pub balance: i128,
}

/// What finalizing the sealed batch writes: the round with the revealed
/// stakes in its pools, the positions the revealed orders become, the new
/// balances of users whose orders were never revealed (refunded), and the
/// round's participant list.
#[derive(Clone, Debug)]
pub struct SealedBatchOutcome {
    pub round: Round,
    pub positions: Vec<(u64, UserPosition)>,
    pub refunds: Vec<(u64, i128)>,
    pub round_participants: Vec<u64>,
}

/// An unrevealed order can be refunded without overflowing the balance.
pub open spec fn refund_fits(e: SealedBatchEntry) -> bool {
    match e.order {
        Some(o) => o.revealed || fits_i128(e.balance + o.amount),
        None => true,
    }
}

/// Every unrevealed order met before a pool overflows can be refunded:
/// scanning the entries in order, a refund is made only while both pools,
/// grown by the revealed stakes so far, still fit.
pub open spec fn refunds_fit_until_overflow(
    start_up: i128,
    start_down: i128,
    entries: Seq<SealedBatchEntry>,
) -> bool {
    forall|k: int|
        0 <= k < entries.len() && pool_after(start_up, entries.take(k), BetSide::Up) is Some
            && pool_after(start_down, entries.take(k), BetSide::Down) is Some ==> refund_fits(
            #[trigger] entries[k],
        )
}

/// The stake an entry adds to the pool of `side`: that of a revealed order
/// on that side, else nothing.
pub open spec fn revealed_stake(e: SealedBatchEntry, side: BetSide) -> int {
    match e.order {
        Some(o) => if o.revealed && o.side == side {
            o.amount as int
        } else {
            0
        },
        None => 0,
    }
}

/// A pool after adding, in order, the revealed stakes of its side, each
/// addition checked; `None` once one overflows.
pub open spec fn pool_after(start: i128, entries: Seq<SealedBatchEntry>, side: BetSide) -> Option<
    i128,
>
    decreases entries.len(),
{
    if entries.len() == 0 {
        Some(start)
    } else {
        match pool_after(start, entries.drop_last(), side) {
            None => None,
            Some(p) => if fits_i128(p + revealed_stake(entries.last(), side)) {
                Some((p + revealed_stake(entries.last(), side)) as i128)
            } else {
                None
            },
        }
    }
}

/// The sum of the revealed stakes of one side.
pub open spec fn revealed_side_total(entries: Seq<SealedBatchEntry>, side: BetSide) -> int
    decreases entries.len(),
{
    if entries.len() == 0 {
        0
    } else {
        revealed_side_total(entries.drop_last(), side) + revealed_stake(entries.last(), side)
    }
}

/// The positions the revealed orders become, in list order.
pub open spec fn sealed_positions(entries: Seq<SealedBatchEntry>) -> Seq<(u64, UserPosition)>
    decreases entries.len(),
{
    if entries.len() == 0 {
        Seq::empty()
    } else {
        let prev = sealed_positions(entries.drop_last());
        let e = entries.last();
        match e.order {
            Some(o) => if o.revealed {
                prev.push((e.user, UserPosition { amount: o.amount, side: o.side }))
            } else {
                prev
            },
            None => prev,
        }
    }
}

/// The refunds of unrevealed orders: each such user's balance plus the
/// committed amount, in list order.
pub open spec fn sealed_refunds(entries: Seq<SealedBatchEntry>) -> Seq<(u64, i128)>
    decreases entries.len(),
{
    if entries.len() == 0 {
        Seq::empty()
    } else {
        let prev = sealed_refunds(entries.drop_last());
        let e = entries.last();
        match e.order {
            Some(o) => if !o.revealed {
                prev.push((e.user, (e.balance + o.amount) as i128))
            } else {
                prev
            },
            None => prev,
        }
    }
}

/// The round's participants after the revealed users not yet listed are
/// appended, in list order.
pub open spec fn merged_participants(listed: Seq<u64>, entries: Seq<SealedBatchEntry>) -> Seq<u64>
    decreases entries.len(),
{
    if entries.len() == 0 {
        listed
    } else {
        let prev = merged_participants(listed, entries.drop_last());
        let e = entries.last();
        match e.order {
            Some(o) => if o.revealed && !prev.contains(e.user) {
                prev.push(e.user)
            } else {
                prev
            },
            None => prev,
        }
    }
}

/// The checks before the batch is processed: schema, mode, batch mode on,
/// an Up/Down round whose betting has closed.
pub open spec fn sealed_batch_gate(
    runtime_mode: RuntimeMode,
    stored_schema: Option<u32>,
    sealed_batch_auction: bool,
    ledger_sequence: u32,
    active: Option<Round>,
) -> Result<Round, ContractError> {
    if !schema_supported(stored_schema) {
        Err(ContractError::UnsupportedSchemaVersion)
    } else if runtime_mode != RuntimeMode::Normal {
        Err(ContractError::ContractPaused)
    } else if !sealed_batch_auction {
        Err(ContractError::InvalidMode)
    } else if active is None {
        Err(ContractError::NoActiveRound)
    } else if active->0.mode != RoundMode::UpDown {
        Err(ContractError::WrongModeForPrediction)
    } else if ledger_sequence < active->0.bet_end_ledger {
        Err(ContractError::InvalidRevealWindow)
    } else {
        Ok(active->0)
    }
}

proof fn lemma_pool_after_none_stays(start: i128, entries: Seq<SealedBatchEntry>, side: BetSide, i: int, j: int)
    requires
        0 <= i <= j <= entries.len(),
        pool_after(start, entries.take(i), side) is None,
    ensures
        pool_after(start, entries.take(j), side) is None,
    decreases j - i,
{
    if i < j {
        lemma_pool_after_none_stays(start, entries, side, i, j - 1);
        assert(entries.take(j).drop_last() =~= entries.take(j - 1));
    }
}

/// A checked pool that did not overflow is the start plus the side's
/// revealed total.
pub proof fn lemma_pool_after_is_total(start: i128, entries: Seq<SealedBatchEntry>, side: BetSide)
    requires
        pool_after(start, entries, side) is Some,
    ensures
        pool_after(start, entries, side)->0 == start + revealed_side_total(entries, side),
    decreases entries.len(),
{
    if entries.len() > 0 {
        lemma_pool_after_is_total(start, entries.drop_last(), side);
    }
}

fn contains_user(v: &Vec<u64>, user: u64) -> (b: bool)
    ensures
        b == v@.contains(user),
{
    let mut j: usize = 0;
    while j < v.len()
        invariant
            j <= v@.len(),
            forall|k: int| 0 <= k < j ==> v@[k] != user,
        decreases v@.len() - j,
    {
        if v[j] == user {
            return true;
        }
        j = j + 1;
    }
    false
}

/// Finalizes the sealed batch once betting has closed: revealed orders
/// become positions and their stakes enter the pools; unrevealed orders are
/// refunded in full. Each pool addition is checked.
pub fn finalize_sealed_batch(
    runtime_mode: RuntimeMode,
    stored_schema: Option<u32>,
    sealed_batch_auction: bool,
    ledger_sequence: u32,
    active: Option<Round>,
    entries: &Vec<SealedBatchEntry>,
    round_participants: Vec<u64>,
) -> (r: Result<SealedBatchOutcome, ContractError>)
    requires
        ({
            let g = sealed_batch_gate(
                runtime_mode,
                stored_schema,
                sealed_batch_auction,
                ledger_sequence,
                active,
            );
            g is Ok ==> refunds_fit_until_overflow(g->Ok_0.pool_up, g->Ok_0.pool_down, entries@)
        }),
    ensures
        ({
            let g = sealed_batch_gate(
                runtime_mode,
                stored_schema,
                sealed_batch_auction,
                ledger_sequence,
                active,
            );
            &&& g is Err ==> r is Err && r->Err_0 == g->Err_0
            &&& g is Ok ==> {
                let up = pool_after(g->Ok_0.pool_up, entries@, BetSide::Up);
                let down = pool_after(g->Ok_0.pool_down, entries@, BetSide::Down);
                &&& (up is None || down is None) ==> r is Err && r->Err_0
                    == ContractError::Overflow
                &&& (up is Some && down is Some) ==> r is Ok && r->Ok_0.round == (Round {
                    pool_up: up->0,
                    pool_down: down->0,
                    ..g->Ok_0
                }) && r->Ok_0.positions@ == sealed_positions(entries@) && r->Ok_0.refunds@
                    == sealed_refunds(entries@) && r->Ok_0.round_participants@
                    == merged_participants(round_participants@, entries@)
            }
        }),
{
    _require_supported_schema(stored_schema)?;
    _ensure_normal_mode(runtime_mode)?;
    if !sealed_batch_auction {
        return Err(ContractError::InvalidMode);
    }
    let mut round = match active {
        Some(r) => r,
        None => return Err(ContractError::NoActiveRound),
    };
    if round.mode != RoundMode::UpDown {
        return Err(ContractError::WrongModeForPrediction);
    }
    if ledger_sequence < round.bet_end_ledger {
        return Err(ContractError::InvalidRevealWindow);
    }
    let ghost start = round;
    let mut positions: Vec<(u64, UserPosition)> = Vec::new();
    let mut refunds: Vec<(u64, i128)> = Vec::new();
    let mut participants = round_participants;
    let mut i: usize = 0;
    while i < entries.len()
        invariant
            i <= entries@.len(),
            refunds_fit_until_overflow(start.pool_up, start.pool_down, entries@),
            pool_after(start.pool_up, entries@.take(i as int), BetSide::Up) == Some(round.pool_up),
            pool_after(start.pool_down, entries@.take(i as int), BetSide::Down) == Some(
                round.pool_down,
            ),
            round == (Round { pool_up: round.pool_up, pool_down: round.pool_down, ..start }),
            sealed_batch_gate(runtime_mode, stored_schema, sealed_batch_auction, ledger_sequence, active)
                == Ok::<Round, ContractError>(start),
            positions@ == sealed_positions(entries@.take(i as int)),
            refunds@ == sealed_refunds(entries@.take(i as int)),
            participants@ == merged_participants(round_participants@, entries@.take(i as int)),
        decreases entries@.len() - i,
    {
        let e = entries[i];
        proof {
            assert(entries@.take(i + 1).drop_last() =~= entries@.take(i as int));
            assert(entries@.take(i + 1).last() == e);
        }
        match e.order {
            Some(o) => {
                if o.revealed {
                    positions.push((e.user, UserPosition { amount: o.amount, side: o.side }));
                    let present = contains_user(&participants, e.user);
                    if !present {
                        participants.push(e.user);
                    }
                    match o.side {
                        BetSide::Up => {
                            round.pool_up = match round.pool_up.checked_add(o.amount) {
                                Some(p) => p,
                                None => {
                                    proof {
                                        lemma_pool_after_none_stays(
                                            start.pool_up,
                                            entries@,
                                            BetSide::Up,
                                            i + 1,
                                            entries@.len() as int,
                                        );
                                        assert(entries@.take(entries@.len() as int) =~= entries@);
                                    }
                                    return Err(ContractError::Overflow);
                                },
                            };
                        },
                        BetSide::Down => {
                            round.pool_down = match round.pool_down.checked_add(o.amount) {
                                Some(p) => p,
                                None => {
                                    proof {
                                        lemma_pool_after_none_stays(
                                            start.pool_down,
                                            entries@,
                                            BetSide::Down,
                                            i + 1,
                                            entries@.len() as int,
                                        );
                                        assert(entries@.take(entries@.len() as int) =~= entries@);
                                    }
                                    return Err(ContractError::Overflow);
                                },
                            };
                        },
                    }
                } else {
                    assert(refund_fits(entries@[i as int]));
                    refunds.push((e.user, e.balance + o.amount));
                }
            },
            None => {},
        }
        i = i + 1;
    }
    proof {
        assert(entries@.take(entries@.len() as int) =~= entries@);
    }
    Ok(SealedBatchOutcome { round, positions, refunds, round_participants: participants })
}

proof fn lemma_pool_after_step(start: i128, entries: Seq<SealedBatchEntry>, i: int, side: BetSide)
    requires
        0 <= i < entries.len(),
    ensures
        pool_after(start, entries.take(i + 1), side) == match pool_after(
            start,
            entries.take(i),
            side,
        ) {
            None => None,
            Some(p) => if fits_i128(p + revealed_stake(entries[i], side)) {
                Some((p + revealed_stake(entries[i], side)) as i128)
            } else {
                None
            },
        },
{
    assert(entries.take(i + 1).drop_last() =~= entries.take(i));
    assert(entries.take(i + 1).last() == entries[i]);
}

proof fn lemma_refunds_fit_after_overflow(
    start_up: i128,
    start_down: i128,
    entries: Seq<SealedBatchEntry>,
    i: int,
)
    requires
        0 <= i < entries.len(),
        pool_after(start_up, entries.take(i + 1), BetSide::Up) is None || pool_after(
            start_down,
            entries.take(i + 1),
            BetSide::Down,
        ) is None,
        forall|k: int|
            0 <= k <= i && pool_after(start_up, entries.take(k), BetSide::Up) is Some
                && pool_after(start_down, entries.take(k), BetSide::Down) is Some ==> refund_fits(
                #[trigger] entries[k],
            ),
    ensures
        refunds_fit_until_overflow(start_up, start_down, entries),
{
    assert forall|k: int|
        0 <= k < entries.len() && pool_after(start_up, entries.take(k), BetSide::Up) is Some
            && pool_after(start_down, entries.take(k), BetSide::Down) is Some implies refund_fits(
        #[trigger] entries[k],
    ) by {
        if k > i {
            if pool_after(start_up, entries.take(i + 1), BetSide::Up) is None {
                lemma_pool_after_none_stays(start_up, entries, BetSide::Up, i + 1, k);
            } else {
                lemma_pool_after_none_stays(start_down, entries, BetSide::Down, i + 1, k);
            }
        }
    }
}

/// Whether finalizing the batch would refund an unrevealed order whose
/// refund overflows the user's balance: the round may be finalized and, scanning the
/// entries in order, such an order comes before any pool overflows.
/// `finalize_sealed_batch` may be called exactly when this is false.
pub fn sealed_batch_refund_overflows(
    runtime_mode: RuntimeMode,
    stored_schema: Option<u32>,
    sealed_batch_auction: bool,
    ledger_sequence: u32,
    active: Option<Round>,
    entries: &Vec<SealedBatchEntry>,
) -> (b: bool)
    ensures
        b == ({
            let g = sealed_batch_gate(
                runtime_mode,
                stored_schema,
                sealed_batch_auction,
                ledger_sequence,
                active,
            );
            g is Ok && !refunds_fit_until_overflow(g->Ok_0.pool_up, g->Ok_0.pool_down, entries@)
        }),
{
    if _require_supported_schema(stored_schema).is_err() || _ensure_normal_mode(runtime_mode).is_err()
        || !sealed_batch_auction {
        return false;
    }
    let round = match active {
        Some(r) => r,
        None => return false,
    };
    if round.mode != RoundMode::UpDown || ledger_sequence < round.bet_end_ledger {
        return false;
    }
    !refunds_fit_in_order(round.pool_up, round.pool_down, entries)
}

/// Whether every unrevealed order met, in order, before a pool overflows
/// can be refunded, the pools starting at `start_up` and `start_down`.
fn refunds_fit_in_order(start_up: i128, start_down: i128, entries: &Vec<SealedBatchEntry>) -> (b:
    bool)
    ensures
        b == refunds_fit_until_overflow(start_up, start_down, entries@),
{
    let mut up = start_up;
    let mut down = start_down;
    let mut i: usize = 0;
    while i < entries.len()
        invariant
            i <= entries@.len(),
            pool_after(start_up, entries@.take(i as int), BetSide::Up) == Some(up),
            pool_after(start_down, entries@.take(i as int), BetSide::Down) == Some(down),
            forall|k: int| 0 <= k < i ==> refund_fits(#[trigger] entries@[k]),
        decreases entries@.len() - i,
    {
        let e = entries[i];
        proof {
            lemma_pool_after_step(start_up, entries@, i as int, BetSide::Up);
            lemma_pool_after_step(start_down, entries@, i as int, BetSide::Down);
        }
        let mut overflow = false;
        if let Some(o) = e.order {
            if o.revealed {
                match o.side {
                    BetSide::Up => match up.checked_add(o.amount) {
                        Some(p) => {
                            up = p;
                        },
                        None => {
                            overflow = true;
                        },
                    },
                    BetSide::Down => match down.checked_add(o.amount) {
                        Some(p) => {
                            down = p;
                        },
                        None => {
                            overflow = true;
                        },
                    },
                }
            } else if e.balance.checked_add(o.amount).is_none() {
                proof {
                    assert(!refund_fits(entries@[i as int]));
                    assert(pool_after(start_up, entries@.take(i as int), BetSide::Up) is Some);
                }
                return false;
            }
        }
        proof {
            assert(refund_fits(entries@[i as int]));
        }
        if overflow {
            proof {
                lemma_refunds_fit_after_overflow(start_up, start_down, entries@, i as int);
            }
            return true;
        }
        i = i + 1;
    }
    proof {
        assert(entries@.take(entries@.len() as int) =~= entries@);
    }
    true
}

/// Finalizing the batch loses no stake: each pool grows by exactly the
/// revealed stakes of its side.
pub proof fn law_sealed_batch_conserves(round: Round, entries: Seq<SealedBatchEntry>)
    requires
        pool_after(round.pool_up, entries, BetSide::Up) is Some,
        pool_after(round.pool_down, entries, BetSide::Down) is Some,
    ensures
        pool_after(round.pool_up, entries, BetSide::Up)->0 == round.pool_up + revealed_side_total(
            entries,
            BetSide::Up,
        ),
        pool_after(round.pool_down, entries, BetSide::Down)->0 == round.pool_down
            + revealed_side_total(entries, BetSide::Down),
{
    lemma_pool_after_is_total(round.pool_up, entries, BetSide::Up);
    lemma_pool_after_is_total(round.pool_down, entries, BetSide::Down);
}

} // verus!
