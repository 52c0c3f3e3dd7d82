//! Archiving a finished round: its summary, the pot it held, and the
//! bounded list of recently archived rounds.
use vstd::prelude::*;

use crate::betting::UserRoundState;
use crate::contract::RoundArchiveStatus;
use crate::math_common::{fits_i128, sat_add_i128};
use crate::round::{Round, RoundMode};
use crate::settlement::{prune_archive, pruned_archive};
use crate::settlement_math::total_pot_updown;
use crate::common::DEFAULT_ARCHIVE_RETENTION;
use crate::config::FeeModel;
use crate::errors::ContractError;
use crate::insurance::FeeLedger;
use crate::settlement::{
    precision_stake, _resolve_precision_mode, _resolve_updown_mode, precision_settlement, updown_settlement,
    PrecisionSettlement, UpDownSettlement, UserStats,
};
use crate::settlement_math::PrecisionPayoutPolicy;

verus! {

/// The permanent summary of an archived round.
#[derive(Clone, Copy, Debug, PartialEq, Eq, Structural)]
pub struct ArchivedRoundSummary {
    pub round_id: u64,
    pub price_start: u128,
    pub price_final: u128,
    pub mode: RoundMode,
    pub status: RoundArchiveStatus,
    pub pool_up: i128,
    pub pool_down: i128,
    pub participant_count: u32,
    pub settled_at_ledger: u32,
}

/// The stakes of the participants summed in order; a stake whose addition
/// would overflow is left out.
pub open spec fn precision_pot(states: Seq<UserRoundState>) -> i128
    decreases states.len(),
{
    if states.len() == 0 {
        0
    } else {
        let prev = precision_pot(states.drop_last());
        let a = precision_stake(states.last());
        if fits_i128(prev + a) {
            (prev + a) as i128
        } else {
            prev
        }
    }
}

/// The pot an archived round held: both pools (saturating) for Up/Down, the
/// participants' stakes for precision rounds.
pub open spec fn archived_pot(round: Round, states: Seq<UserRoundState>) -> i128 {
    match round.mode {
        RoundMode::UpDown => sat_add_i128(round.pool_up, round.pool_down),
        RoundMode::Precision => precision_pot(states),
    }
}

/// The record of an archiving: the summary to store, the pot reported with
/// it, the new recent-archive list and the ids whose entries are pruned.
pub struct ArchiveRecord {
    pub summary: ArchivedRoundSummary,
    pub total_pot: i128,
    pub recent: Vec<u64>,
    pub pruned: Vec<u64>,
}

/// Whether `r` is the archiving of `round` with `status` at `final_price`.
pub open spec fn is_archive_of(
    r: ArchiveRecord,
    round: Round,
    status: RoundArchiveStatus,
    final_price: u128,
    participants: Seq<UserRoundState>,
    settled_at_ledger: u32,
    recent: Seq<u64>,
    retention: Option<u32>,
) -> bool {
    &&& r.summary == (ArchivedRoundSummary {
        round_id: round.round_id,
        price_start: round.price_start,
        price_final: final_price,
        mode: round.mode,
        status,
        pool_up: round.pool_up,
        pool_down: round.pool_down,
        participant_count: participants.len() as u32,
        settled_at_ledger,
    })
    &&& r.total_pot == archived_pot(round, participants)
    &&& ({
        let (l, p) = pruned_archive(
            recent.push(round.round_id),
            retention.unwrap_or(DEFAULT_ARCHIVE_RETENTION) as nat,
        );
        r.recent@ == l && r.pruned@ == p
    })
}

/// Archives a finished round settled at `settled_at_ledger`, `participants`
/// holding each participant's state in the round. The caller also adds the
/// round to each participant's history.
pub fn _archive_round(
    round: &Round,
    status: RoundArchiveStatus,
    final_price: u128,
    participants: &Vec<UserRoundState>,
    settled_at_ledger: u32,
    recent: Vec<u64>,
    retention: Option<u32>,
) -> (r: ArchiveRecord)
    requires
        participants@.len() <= u32::MAX,
    ensures
        is_archive_of(
            r,
            *round,
            status,
            final_price,
            participants@,
            settled_at_ledger,
            recent@,
            retention,
        ),
{
    let summary = ArchivedRoundSummary {
        round_id: round.round_id,
        price_start: round.price_start,
        price_final: final_price,
        mode: round.mode,
        status,
        pool_up: round.pool_up,
        pool_down: round.pool_down,
        participant_count: participants.len() as u32,
        settled_at_ledger,
    };
    let total_pot = match round.mode {
        RoundMode::UpDown => total_pot_updown(round.pool_up, round.pool_down),
        RoundMode::Precision => {
            let mut total: i128 = 0;
            let mut i: usize = 0;
            while i < participants.len()
                invariant
                    i <= participants@.len(),
                    total == precision_pot(participants@.take(i as int)),
                decreases participants@.len() - i,
            {
                proof {
                    assert(participants@.take(i + 1).drop_last() =~= participants@.take(i as int));
                }
                let s = &participants[i];
                let amount: i128 = match s.prediction {
                    Some(p) => p.amount,
                    None => match s.commitment {
                        Some(c) => c.amount,
                        None => 0,
                    },
                };
                total = match total.checked_add(amount) {
                    Some(t) => t,
                    None => total,
                };
                i = i + 1;
            }
            proof {
                assert(participants@.take(participants@.len() as int) =~= participants@);
            }
            total
        },
    };
    let (recent, pruned) = prune_archive(recent, round.round_id, retention);
    ArchiveRecord { summary, total_pot, recent, pruned }
}

/// The payouts of a completed settlement, by round mode.
pub enum CompletedPayouts {
    UpDown(UpDownSettlement),
    Precision(PrecisionSettlement),
}

/// A completed settlement: the payouts, the protocol fee taken, the number
/// of participants and the archiving of the round as resolved.
pub struct CompletedSettlement {
    pub payouts: CompletedPayouts,
    pub fee: i128,
    pub participant_count: u32,
    pub archive: ArchiveRecord,
}

/// Completes the settlement of `round` at `final_price`: pays it out by its
/// mode, then archives it as resolved. The caller then clears the round's
/// positions and the active round.
pub fn _complete_settlement(
    round: &Round,
    final_price: u128,
    fee_bps: Option<u32>,
    fee_model: FeeModel,
    fees: FeeLedger,
    policy: PrecisionPayoutPolicy,
    users: &Vec<UserRoundState>,
    pendings: &Vec<i128>,
    stats: &Vec<Option<UserStats>>,
    cap: Option<i128>,
    settled_at_ledger: u32,
    recent: Vec<u64>,
    retention: Option<u32>,
) -> (r: Result<CompletedSettlement, ContractError>)
    requires
        users@.len() == pendings@.len(),
        users@.len() == stats@.len(),
        users@.len() <= u32::MAX,
        round.pool_up >= 0,
        round.pool_down >= 0,
    ensures
        round.mode == RoundMode::UpDown ==> match updown_settlement(
            *round,
            final_price,
            fee_bps,
            fee_model,
            fees,
            users@,
            pendings@,
            stats@,
            cap,
        ) {
            Err(e) => r == Err::<CompletedSettlement, ContractError>(e),
            Ok((ps, ss, nf, fee)) => r is Ok && (r->Ok_0.payouts matches CompletedPayouts::UpDown(
                u,
            ) && u.pendings@ == ps && u.stats@ == ss && u.fees == nf && u.fee == fee) && r->Ok_0.fee
                == fee,
        },
        round.mode == RoundMode::Precision ==> match precision_settlement(
            final_price,
            fee_bps,
            fee_model,
            fees,
            policy,
            users@,
            pendings@,
            stats@,
            cap,
        ) {
            Err(e) => r == Err::<CompletedSettlement, ContractError>(e),
            Ok((ps, ss, nf, fee)) => r is Ok && (r->Ok_0.payouts matches CompletedPayouts::Precision(
                p,
            ) && p.pendings@ == ps && p.stats@ == ss && p.fees == nf && p.fee == fee)
                && r->Ok_0.fee == fee,
        },
        r is Ok ==> r->Ok_0.participant_count == users@.len() && is_archive_of(
            r->Ok_0.archive,
            *round,
            RoundArchiveStatus::Resolved,
            final_price,
            users@,
            settled_at_ledger,
            recent@,
            retention,
        ),
{
    let (payouts, fee) = match round.mode {
        RoundMode::UpDown => {
            let u = _resolve_updown_mode(
                round,
                final_price,
                fee_bps,
                fee_model,
                fees,
                users,
                pendings,
                stats,
                cap,
            )?;
            let fee = u.fee;
            (CompletedPayouts::UpDown(u), fee)
        },
        RoundMode::Precision => {
            let p = _resolve_precision_mode(
                final_price,
                fee_bps,
                fee_model,
                fees,
                policy,
                users,
                pendings,
                stats,
                cap,
            )?;
            let fee = p.fee;
            (CompletedPayouts::Precision(p), fee)
        },
    };
    let archive = _archive_round(
        round,
        RoundArchiveStatus::Resolved,
        final_price,
        users,
        settled_at_ledger,
        recent,
        retention,
    );
    Ok(
        CompletedSettlement {
            payouts,
            fee,
            participant_count: users.len() as u32,
            archive,
        },
    )
}

} // verus!
