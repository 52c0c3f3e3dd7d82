//! Rounds: their shape, their phases, and how a new one is opened.
use vstd::prelude::*;

use crate::admin::{_ensure_not_paused, _require_supported_schema, schema_supported, RuntimeMode};
use crate::common::{
    DEFAULT_BET_WINDOW_LEDGERS, DEFAULT_RUN_WINDOW_LEDGERS, MAX_START_PRICE, MIN_START_PRICE,
};
use crate::errors::ContractError;

verus! {

/// How a round is played.
#[derive(Clone, Copy, Debug, PartialEq, Eq, Structural)]
pub enum RoundMode {
    /// Bettors pick a direction of the price.
    UpDown,
    /// Bettors predict the exact final price.
    Precision,
}

/// The direction an Up/Down bet is placed on.
#[derive(Clone, Copy, Debug, PartialEq, Eq, Structural)]
pub enum BetSide {
    Up,
    Down,
}

/// Where a round stands at a given ledger.
#[derive(Clone, Copy, Debug, PartialEq, Eq, Structural)]
pub enum RoundPhase {
    /// Bets are accepted (`ledger < bet_end_ledger`).
    Betting,
    /// Betting has closed, the round runs (`bet_end_ledger <= ledger < end_ledger`).
    Running,
    /// The round may be resolved (`end_ledger <= ledger`).
    Resolvable,
}

/// An open prediction round.
#[derive(Clone, Copy, Debug, PartialEq, Eq, Structural)]
pub struct Round {
    pub round_id: u64,
    pub price_start: u128,
    pub start_ledger: u32,
    pub bet_end_ledger: u32,
    pub end_ledger: u32,
    pub pool_up: i128,
    pub pool_down: i128,
    pub mode: RoundMode,
    pub start_timestamp: u64,
}

/// The parameters a keeper reuses to open the next round.
#[derive(Clone, Copy, Debug, PartialEq, Eq, Structural)]
pub struct RoundTemplate {
    pub start_price: u128,
    pub mode: Option<u32>,
}

/// The phase of `round` at `ledger`.
pub open spec fn round_phase(ledger: u32, round: Round) -> RoundPhase {
    if ledger < round.bet_end_ledger {
        RoundPhase::Betting
    } else if ledger < round.end_ledger {
        RoundPhase::Running
    } else {
        RoundPhase::Resolvable
    }
}

/// Derives the phase of a round from the ledger sequence.
pub fn _derive_round_phase(ledger_sequence: u32, round: &Round) -> (p: RoundPhase)
    ensures
        p == round_phase(ledger_sequence, *round),
{
    if ledger_sequence < round.bet_end_ledger {
        RoundPhase::Betting
    } else if ledger_sequence < round.end_ledger {
        RoundPhase::Running
    } else {
        RoundPhase::Resolvable
    }
}

/// What opening a round reads from the protocol's state and the ledger.
#[derive(Clone, Copy, Debug, PartialEq, Eq, Structural)]
pub struct RoundCreationContext {
    pub runtime_mode: RuntimeMode,
    pub stored_schema: Option<u32>,
    pub admin_set: bool,
    pub has_active_round: bool,
    pub bet_window_ledgers: Option<u32>,
    pub run_window_ledgers: Option<u32>,
    /// Whether a round already started at this ledger sequence.
    pub start_ledger_taken: bool,
    pub last_round_id: Option<u64>,
    pub ledger_sequence: u32,
    pub ledger_timestamp: u64,
}

/// The mode a mode code names: 0 (or none) Up/Down, 1 Precision.
pub open spec fn mode_of_code(mode: Option<u32>) -> RoundMode {
    if mode.unwrap_or(0u32) == 0 {
        RoundMode::UpDown
    } else {
        RoundMode::Precision
    }
}

/// The outcome of opening a round: the first failed check in the order the
/// contract makes them, else the new round with empty pools.
pub open spec fn create_round_outcome(
    ctx: RoundCreationContext,
    start_price: u128,
    mode: Option<u32>,
) -> Result<Round, ContractError> {
    let bet = ctx.bet_window_ledgers.unwrap_or(DEFAULT_BET_WINDOW_LEDGERS);
    let run = ctx.run_window_ledgers.unwrap_or(DEFAULT_RUN_WINDOW_LEDGERS);
    let next_id = ctx.last_round_id.unwrap_or(0u64) + 1;
    if !schema_supported(ctx.stored_schema) {
        Err(ContractError::UnsupportedSchemaVersion)
    } else if start_price < MIN_START_PRICE || start_price > MAX_START_PRICE {
        Err(ContractError::InvalidStartPrice)
    } else if mode.unwrap_or(0u32) > 1 {
        Err(ContractError::InvalidMode)
    } else if !ctx.admin_set {
        Err(ContractError::AdminNotSet)
    } else if ctx.runtime_mode == RuntimeMode::FullyPaused {
        Err(ContractError::ContractPaused)
    } else if ctx.has_active_round {
        Err(ContractError::RoundAlreadyActive)
    } else if ctx.start_ledger_taken {
        Err(ContractError::RoundStartLedgerReused)
    } else if next_id > u64::MAX || ctx.ledger_sequence + bet > u32::MAX || ctx.ledger_sequence
        + run > u32::MAX {
        Err(ContractError::Overflow)
    } else {
        Ok(
            Round {
                round_id: next_id as u64,
                price_start: start_price,
                start_ledger: ctx.ledger_sequence,
                bet_end_ledger: (ctx.ledger_sequence + bet) as u32,
                end_ledger: (ctx.ledger_sequence + run) as u32,
                pool_up: 0,
                pool_down: 0,
                mode: mode_of_code(mode),
                start_timestamp: ctx.ledger_timestamp,
            },
        )
    }
}

/// Opens a new round at the current ledger (admin only). The round id is
/// the last one plus one; betting closes `bet_window_ledgers` and the round
/// ends `run_window_ledgers` after the start ledger, which no other round may
/// have started at.
pub fn create_round(ctx: &RoundCreationContext, start_price: u128, mode: Option<u32>) -> (r: Result<
    Round,
    ContractError,
>)
    ensures
        r == create_round_outcome(*ctx, start_price, mode),
{
    _require_supported_schema(ctx.stored_schema)?;
    if start_price < MIN_START_PRICE {
        return Err(ContractError::InvalidStartPrice);
    }
    if start_price > MAX_START_PRICE {
        return Err(ContractError::InvalidStartPrice);
    }
    let mode_value = mode.unwrap_or(0);
    if mode_value > 1 {
        return Err(ContractError::InvalidMode);
    }
    let round_mode = if mode_value == 0 {
        RoundMode::UpDown
    } else {
        RoundMode::Precision
    };
    if !ctx.admin_set {
        return Err(ContractError::AdminNotSet);
    }
    _ensure_not_paused(ctx.runtime_mode)?;
    if ctx.has_active_round {
        return Err(ContractError::RoundAlreadyActive);
    }
    let bet_ledgers = ctx.bet_window_ledgers.unwrap_or(DEFAULT_BET_WINDOW_LEDGERS);
    let run_ledgers = ctx.run_window_ledgers.unwrap_or(DEFAULT_RUN_WINDOW_LEDGERS);
    let start_ledger = ctx.ledger_sequence;
    if ctx.start_ledger_taken {
        return Err(ContractError::RoundStartLedgerReused);
    }
    let last_round_id = ctx.last_round_id.unwrap_or(0);
    let round_id = match last_round_id.checked_add(1) {
        Some(id) => id,
        None => return Err(ContractError::Overflow),
    };
    let bet_end_ledger = match start_ledger.checked_add(bet_ledgers) {
        Some(l) => l,
        None => return Err(ContractError::Overflow),
    };
    let end_ledger = match start_ledger.checked_add(run_ledgers) {
        Some(l) => l,
        None => return Err(ContractError::Overflow),
    };
    Ok(
        Round {
            round_id,
            price_start: start_price,
            start_ledger,
            bet_end_ledger,
            end_ledger,
            pool_up: 0,
            pool_down: 0,
            mode: round_mode,
            start_timestamp: ctx.ledger_timestamp,
        },
    )
}

/// Every round opens with the next id, at the current ledger, with empty
/// pools, and betting closes no later than a round running at least as long
/// as its betting window ends.
pub proof fn law_round_opens_fresh(ctx: RoundCreationContext, start_price: u128, mode: Option<u32>)
    requires
        create_round_outcome(ctx, start_price, mode) is Ok,
    ensures
        ({
            let r = create_round_outcome(ctx, start_price, mode)->Ok_0;
            &&& r.round_id == ctx.last_round_id.unwrap_or(0u64) + 1
            &&& r.start_ledger == ctx.ledger_sequence
            &&& r.pool_up == 0 && r.pool_down == 0
            &&& r.price_start == start_price
            &&& ctx.bet_window_ledgers.unwrap_or(DEFAULT_BET_WINDOW_LEDGERS)
                <= ctx.run_window_ledgers.unwrap_or(DEFAULT_RUN_WINDOW_LEDGERS) ==> r.bet_end_ledger
                <= r.end_ledger
        }),
{
}

/// Opens the next round from the stored template (admin only): the same
/// checks as [`create_round`], after the template itself must exist.
pub fn create_next_from_template(
    ctx: &RoundCreationContext,
    template: Option<RoundTemplate>,
) -> (r: Result<Round, ContractError>)
    ensures
        r == (if !schema_supported(ctx.stored_schema) {
            Err(ContractError::UnsupportedSchemaVersion)
        } else if !ctx.admin_set {
            Err(ContractError::AdminNotSet)
        } else if ctx.runtime_mode == RuntimeMode::FullyPaused {
            Err(ContractError::ContractPaused)
        } else {
            match template {
                None => Err(ContractError::NoRoundTemplate),
                Some(t) => create_round_outcome(*ctx, t.start_price, t.mode),
            }
        }),
{
    _require_supported_schema(ctx.stored_schema)?;
    if !ctx.admin_set {
        return Err(ContractError::AdminNotSet);
    }
    _ensure_not_paused(ctx.runtime_mode)?;
    let t = match template {
        Some(t) => t,
        None => return Err(ContractError::NoRoundTemplate),
    };
    create_round(ctx, t.start_price, t.mode)
}

} // verus!
