//! Settling rounds: where an accepted price leads (fallback refund, a
//! dispute window, or payout), refunds of cancelled, voided and
//! under-subscribed rounds (with insurance coverage on cancellation),
//! claims of pending winnings, the TWAP price samples and user statistics.
//!
//! Participants are given in the round's participant order, each with what
//! they hold in the round and their pending winnings.
use vstd::prelude::*;

use crate::admin::{_ensure_not_paused, _require_supported_schema, schema_supported, RuntimeMode};
use crate::betting::UserRoundState;
use crate::common::{
    _accumulate_pending, pending_accumulated, DEFAULT_ARCHIVE_RETENTION, MAX_CLAIM_BATCH_SIZE,
    MAX_TWAP_WINDOW_SAMPLES,
};
use crate::errors::ContractError;
use crate::insurance::{
    calculate_coverage_amount, coverage_deduction, deduct_insurance_coverage,
    is_coverage_eligible, reason_whitelisted,
};
use crate::math_common::{
    div_trunc, div_trunc_i128, fits_i128, payout_add, payout_add_spec, payout_mul, payout_mul_spec,
};
use crate::settlement_math::{abs_diff, PrecisionPayoutPolicy};
use crate::config::{
    calculate_protocol_fee_precision, calculate_protocol_fee_updown, protocol_fee_precision,
    protocol_fee_updown, FeeModel,
};
use crate::insurance::{_collect_protocol_fee, fee_collected, FeeLedger};
use crate::round::{BetSide, Round, RoundMode};
use crate::settlement_math::{
    classify_price_direction, compute_updown_winner_payout, is_one_sided_pool, one_sided,
    price_direction, updown_winner_payout, PriceDirection,
};

verus! {

/// Whether a round was cancelled; a round with no mark was not.
pub fn is_round_cancelled(stored: Option<bool>) -> (b: bool)
    ensures
        b == (stored == Some(true)),
{
    match stored {
        Some(c) => c,
        None => false,
    }
}

// ─── Refunds ────────────────────────────────────────────────────────────────

/// The refund a participant is owed when a round does not pay out: an
/// Up/Down position's stake; in Precision the revealed prediction's stake,
/// else the commitment's, when positive.
pub open spec fn refund_due(mode: RoundMode, u: UserRoundState) -> Option<i128> {
    match mode {
        RoundMode::UpDown => match u.position {
            Some(p) => Some(p.amount),
            None => None,
        },
        RoundMode::Precision => {
            let a = match u.prediction {
                Some(p) => p.amount,
                None => match u.commitment {
                    Some(c) => c.amount,
                    None => 0,
                },
            };
            if a > 0 {
                Some(a)
            } else {
                None
            }
        },
    }
}

fn compute_refund_due(mode: RoundMode, u: &UserRoundState) -> (r: Option<i128>)
    ensures
        r == refund_due(mode, *u),
{
    match mode {
        RoundMode::UpDown => match u.position {
            Some(p) => Some(p.amount),
            None => None,
        },
        RoundMode::Precision => {
            let a = match u.prediction {
                Some(p) => p.amount,
                None => match u.commitment {
                    Some(c) => c.amount,
                    None => 0,
                },
            };
            if a > 0 {
                Some(a)
            } else {
                None
            }
        },
    }
}

/// The participants' pending winnings after each owed refund is credited,
/// in order; the first failed credit refuses the whole refund.
pub open spec fn refunded(
    mode: RoundMode,
    users: Seq<UserRoundState>,
    pendings: Seq<i128>,
    cap: Option<i128>,
) -> Result<Seq<i128>, ContractError>
    decreases users.len(),
{
    if users.len() == 0 {
        Ok(Seq::empty())
    } else {
        match refunded(mode, users.drop_last(), pendings, cap) {
            Err(e) => Err(e),
            Ok(prev) => {
                let i = users.len() - 1;
                match refund_due(mode, users.last()) {
                    None => Ok(prev.push(pendings[i])),
                    Some(a) => match pending_accumulated(pendings[i], a, cap) {
                        Err(e) => Err(e),
                        Ok(p) => Ok(prev.push(p)),
                    },
                }
            },
        }
    }
}

proof fn lemma_refunded_err_stays(
    mode: RoundMode,
    users: Seq<UserRoundState>,
    pendings: Seq<i128>,
    cap: Option<i128>,
    i: int,
)
    requires
        0 <= i <= users.len(),
        refunded(mode, users.take(i), pendings, cap) is Err,
    ensures
        refunded(mode, users, pendings, cap) == refunded(mode, users.take(i), pendings, cap),
    decreases users.len() - i,
{
    if i < users.len() {
        assert(users.take(i + 1).drop_last() =~= users.take(i));
        lemma_refunded_err_stays(mode, users, pendings, cap, i + 1);
    } else {
        assert(users.take(i) =~= users);
    }
}

/// Refunds every participant what they are owed, crediting their pending
/// winnings. Returns the new pending winnings, one per participant.
pub fn refund_participants(
    mode: RoundMode,
    users: &Vec<UserRoundState>,
    pendings: &Vec<i128>,
    cap: Option<i128>,
) -> (r: Result<Vec<i128>, ContractError>)
    requires
        users@.len() == pendings@.len(),
    ensures
        match refunded(mode, users@, pendings@, cap) {
            Err(e) => r is Err && r->Err_0 == e,
            Ok(s) => r is Ok && r->Ok_0@ == s,
        },
{
    let mut out: Vec<i128> = Vec::new();
    let mut i: usize = 0;
    while i < users.len()
        invariant
            users@.len() == pendings@.len(),
            i <= users@.len(),
            refunded(mode, users@.take(i as int), pendings@, cap) == Ok::<
                Seq<i128>,
                ContractError,
            >(out@),
        decreases users@.len() - i,
    {
        proof {
            assert(users@.take(i + 1).drop_last() =~= users@.take(i as int));
            assert(users@.take(i + 1).last() == users@[i as int]);
        }
        match compute_refund_due(mode, &users[i]) {
            None => out.push(pendings[i]),
            Some(a) => {
                match _accumulate_pending(pendings[i], a, cap) {
                    Ok(p) => out.push(p),
                    Err(e) => {
                        proof {
                            lemma_refunded_err_stays(mode, users@, pendings@, cap, i + 1);
                        }
                        return Err(e);
                    },
                }
            },
        }
        i = i + 1;
    }
    proof {
        assert(users@.take(users@.len() as int) =~= users@);
    }
    Ok(out)
}

/// The sum of the refunds owed.
pub open spec fn total_refund_due(mode: RoundMode, users: Seq<UserRoundState>) -> int
    decreases users.len(),
{
    if users.len() == 0 {
        0
    } else {
        total_refund_due(mode, users.drop_last()) + match refund_due(mode, users.last()) {
            Some(a) => a as int,
            None => 0,
        }
    }
}

proof fn lemma_refunded_credits(
    mode: RoundMode,
    users: Seq<UserRoundState>,
    pendings: Seq<i128>,
    cap: Option<i128>,
)
    requires
        refunded(mode, users, pendings, cap) is Ok,
        users.len() <= pendings.len(),
    ensures
        refunded(mode, users, pendings, cap)->Ok_0.len() == users.len(),
        forall|i: int|
            0 <= i < users.len() ==> #[trigger] refunded(mode, users, pendings, cap)->Ok_0[i]
                == pendings[i] + match refund_due(mode, users[i]) {
                Some(a) => a as int,
                None => 0,
            },
    decreases users.len(),
{
    if users.len() > 0 {
        lemma_refunded_credits(mode, users.drop_last(), pendings, cap);
        let prev = refunded(mode, users.drop_last(), pendings, cap)->Ok_0;
        assert forall|i: int| 0 <= i < users.len() implies #[trigger] refunded(
            mode,
            users,
            pendings,
            cap,
        )->Ok_0[i] == pendings[i] + match refund_due(mode, users[i]) {
            Some(a) => a as int,
            None => 0,
        } by {
            if i < users.len() - 1 {
                assert(users.drop_last()[i] == users[i]);
                assert(prev[i] == refunded(mode, users.drop_last(), pendings, cap)->Ok_0[i]);
            }
        }
    }
}

/// A refund loses nothing and creates nothing: each participant's pending
/// winnings grow by exactly what they are owed, which is their whole stake.
pub proof fn law_refund_credits_stakes(
    mode: RoundMode,
    users: Seq<UserRoundState>,
    pendings: Seq<i128>,
    cap: Option<i128>,
)
    requires
        refunded(mode, users, pendings, cap) is Ok,
        users.len() == pendings.len(),
    ensures
        refunded(mode, users, pendings, cap)->Ok_0.len() == users.len(),
        forall|i: int|
            0 <= i < users.len() ==> #[trigger] refunded(mode, users, pendings, cap)->Ok_0[i]
                == pendings[i] + match refund_due(mode, users[i]) {
                Some(a) => a as int,
                None => 0,
            },
        forall|i: int|
            0 <= i < users.len() && mode == RoundMode::UpDown && (#[trigger] users[i]).position
                is Some ==> refunded(mode, users, pendings, cap)->Ok_0[i] == pendings[i]
                + users[i].position->0.amount,
{
    lemma_refunded_credits(mode, users, pendings, cap);
}

// ─── Cancellation with insurance coverage ───────────────────────────────────

/// The stakes the coverage is computed on: in Up/Down one per participant
/// holding a position (in order), in Precision one per participant (the
/// prediction's stake, else the commitment's, else 0).
pub open spec fn cancel_stakes(mode: RoundMode, users: Seq<UserRoundState>) -> Seq<i128>
    decreases users.len(),
{
    if users.len() == 0 {
        Seq::empty()
    } else {
        let prev = cancel_stakes(mode, users.drop_last());
        let u = users.last();
        match mode {
            RoundMode::UpDown => match u.position {
                Some(p) => prev.push(p.amount),
                None => prev,
            },
            RoundMode::Precision => prev.push(
                match u.prediction {
                    Some(p) => p.amount,
                    None => match u.commitment {
                        Some(c) => c.amount,
                        None => 0i128,
                    },
                },
            ),
        }
    }
}

/// The total of the stakes, each added only when the sum stays in range.
pub open spec fn lenient_total(stakes: Seq<i128>) -> i128
    decreases stakes.len(),
{
    if stakes.len() == 0 {
        0
    } else {
        let prev = lenient_total(stakes.drop_last());
        if fits_i128(prev + stakes.last()) {
            (prev + stakes.last()) as i128
        } else {
            prev
        }
    }
}

/// The coverage owed on each stake summed (each coverage and each sum
/// checked).
pub open spec fn total_coverage(coverage_bps: u32, stakes: Seq<i128>) -> Result<i128, ContractError>
    decreases stakes.len(),
{
    if stakes.len() == 0 {
        Ok(0)
    } else {
        match total_coverage(coverage_bps, stakes.drop_last()) {
            Err(e) => Err(e),
            Ok(t) => {
                let s = stakes.last();
                let cov = if coverage_bps == 0 || s <= 0 {
                    Ok(0i128)
                } else if !fits_i128(s * coverage_bps) {
                    Err(ContractError::Overflow)
                } else {
                    Ok((s * coverage_bps / 10_000) as i128)
                };
                match cov {
                    Err(e) => Err(e),
                    Ok(c) => payout_add_spec(t, c),
                }
            },
        }
    }
}

/// A participant's share of the distributed coverage: in proportion to the
/// stake at the participant's position in the stake list (rounded down),
/// nothing for a stake that is missing or not positive.
pub open spec fn coverage_share(distributed: i128, total_stake: i128, stakes: Seq<i128>, i: int) -> Result<
    i128,
    ContractError,
> {
    let stake = if i < stakes.len() {
        stakes[i]
    } else {
        0i128
    };
    if stake <= 0 {
        Ok(0)
    } else if !fits_i128(distributed * stake) {
        Err(ContractError::Overflow)
    } else {
        Ok((distributed * stake / (total_stake as int)) as i128)
    }
}

/// The pending winnings after each participant's coverage share is
/// credited, in order.
pub open spec fn covered(
    pendings: Seq<i128>,
    distributed: i128,
    total_stake: i128,
    stakes: Seq<i128>,
    cap: Option<i128>,
) -> Result<Seq<i128>, ContractError>
    decreases pendings.len(),
{
    if pendings.len() == 0 {
        Ok(Seq::empty())
    } else {
        match covered(pendings.drop_last(), distributed, total_stake, stakes, cap) {
            Err(e) => Err(e),
            Ok(prev) => {
                let i = pendings.len() - 1;
                match coverage_share(distributed, total_stake, stakes, i) {
                    Err(e) => Err(e),
                    Ok(c) => if c > 0 {
                        match pending_accumulated(pendings.last(), c, cap) {
                            Err(e) => Err(e),
                            Ok(p) => Ok(prev.push(p)),
                        }
                    } else {
                        Ok(prev.push(pendings.last()))
                    },
                }
            },
        }
    }
}

/// The insurance configuration read on cancellation.
#[derive(Clone, Debug)]
pub struct InsuranceCover {
    pub eligible_events: Vec<u32>,
    pub coverage_bps: u32,
    pub fund: i128,
}

/// What a cancellation writes: the participants' new pending winnings and
/// the insurance fund's new balance.
#[derive(Clone, Debug)]
pub struct CancelOutcome {
    pub pendings: Vec<i128>,
    pub fund: i128,
}

/// The outcome of cancelling the active round (admin only): every
/// participant is refunded, then, when the reason is whitelisted and
/// coverage is configured, the coverage owed on the stakes is paid out of
/// the fund (never more than it holds) in proportion to the stakes.
pub open spec fn cancel_outcome(
    stored_schema: Option<u32>,
    admin_set: bool,
    active: Option<Round>,
    users: Seq<UserRoundState>,
    pendings: Seq<i128>,
    cap: Option<i128>,
    whitelist: Seq<u32>,
    coverage_bps: u32,
    fund: i128,
    reason: u32,
) -> Result<(Seq<i128>, i128), ContractError> {
    if !schema_supported(stored_schema) {
        Err(ContractError::UnsupportedSchemaVersion)
    } else if !admin_set {
        Err(ContractError::AdminNotSet)
    } else if active is None {
        Err(ContractError::RoundNotCancellable)
    } else {
        let mode = active->0.mode;
        let stakes = cancel_stakes(mode, users);
        let eligible = reason_whitelisted(whitelist, reason) && coverage_bps > 0;
        match refunded(mode, users, pendings, cap) {
            Err(e) => Err(e),
            Ok(p1) => if !eligible || stakes.len() == 0 {
                Ok((p1, fund))
            } else {
                match total_coverage(coverage_bps, stakes) {
                    Err(e) => Err(e),
                    Ok(t) => if t <= 0 {
                        Ok((p1, fund))
                    } else {
                        let (distributed, new_fund) = coverage_deduction(fund, t);
                        let total_stake = lenient_total(stakes);
                        if distributed > 0 && total_stake > 0 {
                            match covered(p1, distributed, total_stake, stakes, cap) {
                                Err(e) => Err(e),
                                Ok(p2) => Ok((p2, new_fund)),
                            }
                        } else {
                            Ok((p1, new_fund))
                        }
                    },
                }
            },
        }
    }
}

fn collect_cancel_stakes(mode: RoundMode, users: &Vec<UserRoundState>) -> (r: Vec<i128>)
    ensures
        r@ == cancel_stakes(mode, users@),
{
    let mut out: Vec<i128> = Vec::new();
    let mut i: usize = 0;
    while i < users.len()
        invariant
            i <= users@.len(),
            out@ == cancel_stakes(mode, users@.take(i as int)),
        decreases users@.len() - i,
    {
        proof {
            assert(users@.take(i + 1).drop_last() =~= users@.take(i as int));
        }
        let u = users[i];
        match mode {
            RoundMode::UpDown => {
                if let Some(p) = u.position {
                    out.push(p.amount);
                }
            },
            RoundMode::Precision => {
                let a = match u.prediction {
                    Some(p) => p.amount,
                    None => match u.commitment {
                        Some(c) => c.amount,
                        None => 0,
                    },
                };
                out.push(a);
            },
        }
        i = i + 1;
    }
    proof {
        assert(users@.take(users@.len() as int) =~= users@);
    }
    out
}

fn sum_lenient(stakes: &Vec<i128>) -> (t: i128)
    ensures
        t == lenient_total(stakes@),
{
    let mut t: i128 = 0;
    let mut i: usize = 0;
    while i < stakes.len()
        invariant
            i <= stakes@.len(),
            t == lenient_total(stakes@.take(i as int)),
        decreases stakes@.len() - i,
    {
        proof {
            assert(stakes@.take(i + 1).drop_last() =~= stakes@.take(i as int));
        }
        t = match t.checked_add(stakes[i]) {
            Some(v) => v,
            None => t,
        };
        i = i + 1;
    }
    proof {
        assert(stakes@.take(stakes@.len() as int) =~= stakes@);
    }
    t
}

proof fn lemma_total_coverage_err_stays(coverage_bps: u32, stakes: Seq<i128>, i: int)
    requires
        0 <= i <= stakes.len(),
        total_coverage(coverage_bps, stakes.take(i)) is Err,
    ensures
        total_coverage(coverage_bps, stakes) == total_coverage(coverage_bps, stakes.take(i)),
    decreases stakes.len() - i,
{
    if i < stakes.len() {
        assert(stakes.take(i + 1).drop_last() =~= stakes.take(i));
        lemma_total_coverage_err_stays(coverage_bps, stakes, i + 1);
    } else {
        assert(stakes.take(i) =~= stakes);
    }
}

fn sum_coverage(coverage_bps: u32, stakes: &Vec<i128>) -> (r: Result<i128, ContractError>)
    ensures
        r == total_coverage(coverage_bps, stakes@),
{
    let mut t: i128 = 0;
    let mut i: usize = 0;
    while i < stakes.len()
        invariant
            i <= stakes@.len(),
            total_coverage(coverage_bps, stakes@.take(i as int)) == Ok::<i128, ContractError>(t),
        decreases stakes@.len() - i,
    {
        proof {
            assert(stakes@.take(i + 1).drop_last() =~= stakes@.take(i as int));
        }
        let c = match calculate_coverage_amount(coverage_bps, stakes[i]) {
            Ok(c) => c,
            Err(e) => {
                proof {
                    lemma_total_coverage_err_stays(coverage_bps, stakes@, i + 1);
                }
                return Err(e);
            },
        };
        t = match payout_add(t, c) {
            Ok(v) => v,
            Err(e) => {
                proof {
                    lemma_total_coverage_err_stays(coverage_bps, stakes@, i + 1);
                }
                return Err(e);
            },
        };
        i = i + 1;
    }
    proof {
        assert(stakes@.take(stakes@.len() as int) =~= stakes@);
    }
    Ok(t)
}

proof fn lemma_covered_err_stays(
    pendings: Seq<i128>,
    distributed: i128,
    total_stake: i128,
    stakes: Seq<i128>,
    cap: Option<i128>,
    i: int,
)
    requires
        0 <= i <= pendings.len(),
        covered(pendings.take(i), distributed, total_stake, stakes, cap) is Err,
    ensures
        covered(pendings, distributed, total_stake, stakes, cap) == covered(
            pendings.take(i),
            distributed,
            total_stake,
            stakes,
            cap,
        ),
    decreases pendings.len() - i,
{
    if i < pendings.len() {
        assert(pendings.take(i + 1).drop_last() =~= pendings.take(i));
        lemma_covered_err_stays(pendings, distributed, total_stake, stakes, cap, i + 1);
    } else {
        assert(pendings.take(i) =~= pendings);
    }
}

fn credit_coverage(
    pendings: &Vec<i128>,
    distributed: i128,
    total_stake: i128,
    stakes: &Vec<i128>,
    cap: Option<i128>,
) -> (r: Result<Vec<i128>, ContractError>)
    requires
        total_stake > 0,
        distributed > 0,
    ensures
        match covered(pendings@, distributed, total_stake, stakes@, cap) {
            Err(e) => r is Err && r->Err_0 == e,
            Ok(s) => r is Ok && r->Ok_0@ == s,
        },
{
    let mut out: Vec<i128> = Vec::new();
    let mut i: usize = 0;
    while i < pendings.len()
        invariant
            total_stake > 0,
            distributed > 0,
            i <= pendings@.len(),
            covered(pendings@.take(i as int), distributed, total_stake, stakes@, cap) == Ok::<
                Seq<i128>,
                ContractError,
            >(out@),
        decreases pendings@.len() - i,
    {
        proof {
            assert(pendings@.take(i + 1).drop_last() =~= pendings@.take(i as int));
            assert(pendings@.take(i + 1).last() == pendings@[i as int]);
        }
        let stake: i128 = if i < stakes.len() {
            stakes[i]
        } else {
            0
        };
        let share: i128 = if stake > 0 {
            match distributed.checked_mul(stake) {
                Some(m) => {
                    proof {
                        assert(!(m == i128::MIN && total_stake == -1));
                    }
                    crate::math_common::div_trunc_i128(m, total_stake)
                },
                None => {
                    proof {
                        lemma_covered_err_stays(pendings@, distributed, total_stake, stakes@, cap, i + 1);
                    }
                    return Err(ContractError::Overflow);
                },
            }
        } else {
            0
        };
        if share > 0 {
            match _accumulate_pending(pendings[i], share, cap) {
                Ok(p) => out.push(p),
                Err(e) => {
                    proof {
                        lemma_covered_err_stays(pendings@, distributed, total_stake, stakes@, cap, i + 1);
                    }
                    return Err(e);
                },
            }
        } else {
            out.push(pendings[i]);
        }
        i = i + 1;
    }
    proof {
        assert(pendings@.take(pendings@.len() as int) =~= pendings@);
    }
    Ok(out)
}


/// Cancels the active round (admin only): refunds every participant and
/// pays the insurance coverage a whitelisted reason is owed.
pub fn cancel_round(
    stored_schema: Option<u32>,
    admin_set: bool,
    active: Option<Round>,
    users: &Vec<UserRoundState>,
    pendings: &Vec<i128>,
    cap: Option<i128>,
    insurance: &InsuranceCover,
    reason: u32,
) -> (r: Result<CancelOutcome, ContractError>)
    requires
        users@.len() == pendings@.len(),
    ensures
        match cancel_outcome(
            stored_schema,
            admin_set,
            active,
            users@,
            pendings@,
            cap,
            insurance.eligible_events@,
            insurance.coverage_bps,
            insurance.fund,
            reason,
        ) {
            Err(e) => r is Err && r->Err_0 == e,
            Ok((p, f)) => r is Ok && r->Ok_0.pendings@ == p && r->Ok_0.fund == f,
        },
{
    _require_supported_schema(stored_schema)?;
    if !admin_set {
        return Err(ContractError::AdminNotSet);
    }
    let round = match active {
        Some(r) => r,
        None => return Err(ContractError::RoundNotCancellable),
    };
    let mode = round.mode;
    let eligible = is_coverage_eligible(&insurance.eligible_events, insurance.coverage_bps, reason);
    let stakes = collect_cancel_stakes(mode, users);
    let refunded_pendings = refund_participants(mode, users, pendings, cap)?;
    if !eligible || stakes.len() == 0 {
        return Ok(CancelOutcome { pendings: refunded_pendings, fund: insurance.fund });
    }
    let total = sum_coverage(insurance.coverage_bps, &stakes)?;
    if total <= 0 {
        return Ok(CancelOutcome { pendings: refunded_pendings, fund: insurance.fund });
    }
    let (distributed, new_fund) = deduct_insurance_coverage(insurance.fund, total);
    let total_stake = sum_lenient(&stakes);
    if distributed > 0 && total_stake > 0 {
        let covered_pendings = credit_coverage(
            &refunded_pendings,
            distributed,
            total_stake,
            &stakes,
            cap,
        )?;
        Ok(CancelOutcome { pendings: covered_pendings, fund: new_fund })
    } else {
        Ok(CancelOutcome { pendings: refunded_pendings, fund: new_fund })
    }
}

proof fn lemma_covered_grows(
    pendings: Seq<i128>,
    distributed: i128,
    total_stake: i128,
    stakes: Seq<i128>,
    cap: Option<i128>,
)
    requires
        covered(pendings, distributed, total_stake, stakes, cap) is Ok,
    ensures
        covered(pendings, distributed, total_stake, stakes, cap)->Ok_0.len() == pendings.len(),
        forall|i: int|
            0 <= i < pendings.len() ==> #[trigger] covered(
                pendings,
                distributed,
                total_stake,
                stakes,
                cap,
            )->Ok_0[i] >= pendings[i],
    decreases pendings.len(),
{
    if pendings.len() > 0 {
        lemma_covered_grows(pendings.drop_last(), distributed, total_stake, stakes, cap);
        let prev = covered(pendings.drop_last(), distributed, total_stake, stakes, cap)->Ok_0;
        assert forall|i: int| 0 <= i < pendings.len() implies #[trigger] covered(
            pendings,
            distributed,
            total_stake,
            stakes,
            cap,
        )->Ok_0[i] >= pendings[i] by {
            if i < pendings.len() - 1 {
                assert(pendings.drop_last()[i] == pendings[i]);
                assert(prev[i] >= pendings.drop_last()[i]);
            }
        }
    }
}

/// A cancellation refunds every participant in full and may only add
/// insurance coverage on top; coverage comes out of the fund, which never
/// grows and never goes negative from it.
pub proof fn law_cancel_refunds_and_stays_solvent(
    stored_schema: Option<u32>,
    admin_set: bool,
    active: Option<Round>,
    users: Seq<UserRoundState>,
    pendings: Seq<i128>,
    cap: Option<i128>,
    whitelist: Seq<u32>,
    coverage_bps: u32,
    fund: i128,
    reason: u32,
)
    requires
        users.len() == pendings.len(),
        cancel_outcome(
            stored_schema,
            admin_set,
            active,
            users,
            pendings,
            cap,
            whitelist,
            coverage_bps,
            fund,
            reason,
        ) is Ok,
    ensures
        ({
            let (after, new_fund) = cancel_outcome(
                stored_schema,
                admin_set,
                active,
                users,
                pendings,
                cap,
                whitelist,
                coverage_bps,
                fund,
                reason,
            )->Ok_0;
            &&& after.len() == users.len()
            &&& forall|i: int|
                0 <= i < users.len() ==> #[trigger] after[i] >= pendings[i] + match refund_due(
                    active->0.mode,
                    users[i],
                ) {
                    Some(a) => a as int,
                    None => 0,
                }
            &&& new_fund <= fund || fund < 0
            &&& fund >= 0 ==> new_fund >= 0
        }),
{
    let mode = active->0.mode;
    lemma_refunded_credits(mode, users, pendings, cap);
    let p1 = refunded(mode, users, pendings, cap)->Ok_0;
    let stakes = cancel_stakes(mode, users);
    let eligible = reason_whitelisted(whitelist, reason) && coverage_bps > 0;
    if eligible && stakes.len() > 0 {
        let t = total_coverage(coverage_bps, stakes)->Ok_0;
        if t > 0 {
            let (distributed, new_fund) = coverage_deduction(fund, t);
            let total_stake = lenient_total(stakes);
            if distributed > 0 && total_stake > 0 {
                lemma_covered_grows(p1, distributed, total_stake, stakes, cap);
            }
        }
    }
}


/// Refunds every participant of a round that fell short of the minimum
/// number of participants.
pub fn _refund_under_threshold(
    round: &Round,
    users: &Vec<UserRoundState>,
    pendings: &Vec<i128>,
    cap: Option<i128>,
) -> (r: Result<Vec<i128>, ContractError>)
    requires
        users@.len() == pendings@.len(),
    ensures
        match refunded(round.mode, users@, pendings@, cap) {
            Err(e) => r is Err && r->Err_0 == e,
            Ok(s) => r is Ok && r->Ok_0@ == s,
        },
{
    refund_participants(round.mode, users, pendings, cap)
}

// ─── Where an accepted price leads ──────────────────────────────────────────

/// A resolved round whose payout waits for the dispute window to close.
#[derive(Clone, Copy, Debug, PartialEq, Eq, Structural)]
pub struct PendingDisputeSettlement {
    pub round: Round,
    pub final_price: u128,
    pub confidence: Option<u32>,
    pub resolved_at_ledger: u32,
    pub deadline_ledger: u32,
}

/// Where settlement at an accepted price goes.
#[derive(Clone, Copy, Debug, PartialEq, Eq, Structural)]
pub enum SettlementRoute {
    /// Too few participants: everyone is refunded.
    FallbackRefund,
    /// A dispute window is configured: the result is staged until it closes.
    AwaitDispute(PendingDisputeSettlement),
    /// Payouts are made now.
    Complete,
}

/// Routes settlement at `final_price`: a fallback refund when a minimum of
/// participants is set and not met, else a staged result when a dispute
/// window is configured, else immediate payout.
pub fn _settle_round_with_price(
    round: &Round,
    final_price: u128,
    confidence: Option<u32>,
    min_participants: Option<u32>,
    participant_count: u32,
    dispute_ledgers: u32,
    ledger_sequence: u32,
) -> (r: Result<SettlementRoute, ContractError>)
    ensures
        r == (if min_participants is Some && participant_count < min_participants->0 {
            Ok(SettlementRoute::FallbackRefund)
        } else if dispute_ledgers > 0 {
            if ledger_sequence + dispute_ledgers > u32::MAX {
                Err(ContractError::Overflow)
            } else {
                Ok(
                    SettlementRoute::AwaitDispute(
                        PendingDisputeSettlement {
                            round: *round,
                            final_price,
                            confidence,
                            resolved_at_ledger: ledger_sequence,
                            deadline_ledger: (ledger_sequence + dispute_ledgers) as u32,
                        },
                    ),
                )
            }
        } else {
            Ok(SettlementRoute::Complete)
        }),
{
    if let Some(min) = min_participants {
        if participant_count < min {
            return Ok(SettlementRoute::FallbackRefund);
        }
    }
    if dispute_ledgers > 0 {
        let deadline = match ledger_sequence.checked_add(dispute_ledgers) {
            Some(d) => d,
            None => return Err(ContractError::Overflow),
        };
        return Ok(
            SettlementRoute::AwaitDispute(
                PendingDisputeSettlement {
                    round: *round,
                    final_price,
                    confidence,
                    resolved_at_ledger: ledger_sequence,
                    deadline_ledger: deadline,
                },
            ),
        );
    }
    Ok(SettlementRoute::Complete)
}

/// The checks before a staged result is voided: anyone may void it while
/// its dispute window is open.
pub open spec fn void_gate(
    stored_schema: Option<u32>,
    runtime_mode: RuntimeMode,
    pending: Option<PendingDisputeSettlement>,
    ledger_sequence: u32,
) -> Result<PendingDisputeSettlement, ContractError> {
    if !schema_supported(stored_schema) {
        Err(ContractError::UnsupportedSchemaVersion)
    } else if runtime_mode == RuntimeMode::FullyPaused {
        Err(ContractError::ContractPaused)
    } else if pending is None {
        Err(ContractError::RoundNotCancellable)
    } else if ledger_sequence >= pending->0.deadline_ledger {
        Err(ContractError::RoundNotCancellable)
    } else {
        Ok(pending->0)
    }
}

/// The refunds of a voided round with their running total (each addition
/// checked), in order.
pub open spec fn void_refunds(
    mode: RoundMode,
    users: Seq<UserRoundState>,
    pendings: Seq<i128>,
    cap: Option<i128>,
) -> Result<(Seq<i128>, i128), ContractError>
    decreases users.len(),
{
    if users.len() == 0 {
        Ok((Seq::empty(), 0i128))
    } else {
        match void_refunds(mode, users.drop_last(), pendings, cap) {
            Err(e) => Err(e),
            Ok((prev, total)) => {
                let i = users.len() - 1;
                match refund_due(mode, users.last()) {
                    None => Ok((prev.push(pendings[i]), total)),
                    Some(a) => match payout_add_spec(total, a) {
                        Err(e) => Err(e),
                        Ok(t) => match pending_accumulated(pendings[i], a, cap) {
                            Err(e) => Err(e),
                            Ok(p) => Ok((prev.push(p), t)),
                        },
                    },
                }
            },
        }
    }
}

proof fn lemma_void_refunds_err_stays(
    mode: RoundMode,
    users: Seq<UserRoundState>,
    pendings: Seq<i128>,
    cap: Option<i128>,
    i: int,
)
    requires
        0 <= i <= users.len(),
        void_refunds(mode, users.take(i), pendings, cap) is Err,
    ensures
        void_refunds(mode, users, pendings, cap) == void_refunds(mode, users.take(i), pendings, cap),
    decreases users.len() - i,
{
    if i < users.len() {
        assert(users.take(i + 1).drop_last() =~= users.take(i));
        lemma_void_refunds_err_stays(mode, users, pendings, cap, i + 1);
    } else {
        assert(users.take(i) =~= users);
    }
}

/// Voids a staged result while its dispute window is open: every
/// participant is refunded their stake (no payout, no fee). Returns the new
/// pending winnings and the total refunded.
pub fn void_round(
    stored_schema: Option<u32>,
    runtime_mode: RuntimeMode,
    pending: Option<PendingDisputeSettlement>,
    ledger_sequence: u32,
    users: &Vec<UserRoundState>,
    pendings: &Vec<i128>,
    cap: Option<i128>,
) -> (r: Result<(Vec<i128>, i128), ContractError>)
    requires
        users@.len() == pendings@.len(),
    ensures
        match void_gate(stored_schema, runtime_mode, pending, ledger_sequence) {
            Err(e) => r is Err && r->Err_0 == e,
            Ok(p) => match void_refunds(p.round.mode, users@, pendings@, cap) {
                Err(e) => r is Err && r->Err_0 == e,
                Ok((s, t)) => r is Ok && r->Ok_0.0@ == s && r->Ok_0.1 == t,
            },
        },
{
    _require_supported_schema(stored_schema)?;
    _ensure_not_paused(runtime_mode)?;
    let p = match pending {
        Some(p) => p,
        None => return Err(ContractError::RoundNotCancellable),
    };
    if ledger_sequence >= p.deadline_ledger {
        return Err(ContractError::RoundNotCancellable);
    }
    let mode = p.round.mode;
    let mut out: Vec<i128> = Vec::new();
    let mut total: i128 = 0;
    let mut i: usize = 0;
    while i < users.len()
        invariant
            users@.len() == pendings@.len(),
            i <= users@.len(),
            void_gate(stored_schema, runtime_mode, pending, ledger_sequence) == Ok::<
                PendingDisputeSettlement,
                ContractError,
            >(p),
            mode == p.round.mode,
            void_refunds(mode, users@.take(i as int), pendings@, cap) == Ok::<
                (Seq<i128>, i128),
                ContractError,
            >((out@, total)),
        decreases users@.len() - i,
    {
        proof {
            assert(users@.take(i + 1).drop_last() =~= users@.take(i as int));
            assert(users@.take(i + 1).last() == users@[i as int]);
        }
        match compute_refund_due(mode, &users[i]) {
            None => out.push(pendings[i]),
            Some(a) => {
                total = match payout_add(total, a) {
                    Ok(t) => t,
                    Err(e) => {
                        proof {
                            lemma_void_refunds_err_stays(mode, users@, pendings@, cap, i + 1);
                        }
                        return Err(e);
                    },
                };
                match _accumulate_pending(pendings[i], a, cap) {
                    Ok(np) => out.push(np),
                    Err(e) => {
                        proof {
                            lemma_void_refunds_err_stays(mode, users@, pendings@, cap, i + 1);
                        }
                        return Err(e);
                    },
                }
            },
        }
        i = i + 1;
    }
    proof {
        assert(users@.take(users@.len() as int) =~= users@);
    }
    Ok((out, total))
}

proof fn lemma_void_refunds_credit(
    mode: RoundMode,
    users: Seq<UserRoundState>,
    pendings: Seq<i128>,
    cap: Option<i128>,
)
    requires
        void_refunds(mode, users, pendings, cap) is Ok,
        users.len() <= pendings.len(),
    ensures
        void_refunds(mode, users, pendings, cap)->Ok_0.0.len() == users.len(),
        void_refunds(mode, users, pendings, cap)->Ok_0.1 == total_refund_due(mode, users),
        forall|i: int|
            0 <= i < users.len() ==> #[trigger] void_refunds(mode, users, pendings, cap)->Ok_0.0[i]
                == pendings[i] + match refund_due(mode, users[i]) {
                Some(a) => a as int,
                None => 0,
            },
    decreases users.len(),
{
    if users.len() > 0 {
        lemma_void_refunds_credit(mode, users.drop_last(), pendings, cap);
        let prev = void_refunds(mode, users.drop_last(), pendings, cap)->Ok_0.0;
        assert forall|i: int| 0 <= i < users.len() implies #[trigger] void_refunds(
            mode,
            users,
            pendings,
            cap,
        )->Ok_0.0[i] == pendings[i] + match refund_due(mode, users[i]) {
            Some(a) => a as int,
            None => 0,
        } by {
            if i < users.len() - 1 {
                assert(users.drop_last()[i] == users[i]);
                assert(prev[i] == void_refunds(mode, users.drop_last(), pendings, cap)->Ok_0.0[i]);
            }
        }
    }
}

/// Voiding a staged result refunds exactly the recorded stakes: each
/// participant's pending winnings grow by what they staked, and the total
/// refunded is the sum of the stakes.
pub proof fn law_void_returns_stakes(
    mode: RoundMode,
    users: Seq<UserRoundState>,
    pendings: Seq<i128>,
    cap: Option<i128>,
)
    requires
        void_refunds(mode, users, pendings, cap) is Ok,
        users.len() == pendings.len(),
    ensures
        void_refunds(mode, users, pendings, cap)->Ok_0.0.len() == users.len(),
        void_refunds(mode, users, pendings, cap)->Ok_0.1 == total_refund_due(mode, users),
        forall|i: int|
            0 <= i < users.len() ==> #[trigger] void_refunds(mode, users, pendings, cap)->Ok_0.0[i]
                == pendings[i] + match refund_due(mode, users[i]) {
                Some(a) => a as int,
                None => 0,
            },
{
    lemma_void_refunds_credit(mode, users, pendings, cap);
}

/// The checks before a staged result is finalized: anyone may finalize it
/// once its dispute window has closed (at the deadline ledger or later).
pub open spec fn finalize_gate(
    stored_schema: Option<u32>,
    runtime_mode: RuntimeMode,
    pending: Option<PendingDisputeSettlement>,
    ledger_sequence: u32,
) -> Result<PendingDisputeSettlement, ContractError> {
    if !schema_supported(stored_schema) {
        Err(ContractError::UnsupportedSchemaVersion)
    } else if runtime_mode == RuntimeMode::FullyPaused {
        Err(ContractError::ContractPaused)
    } else if pending is None {
        Err(ContractError::NoActiveRound)
    } else if ledger_sequence < pending->0.deadline_ledger {
        Err(ContractError::RoundNotEnded)
    } else {
        Ok(pending->0)
    }
}

/// Finalizes a staged result once its dispute window closed; the staged
/// round and price are then paid out.
pub fn finalize_round(
    stored_schema: Option<u32>,
    runtime_mode: RuntimeMode,
    pending: Option<PendingDisputeSettlement>,
    ledger_sequence: u32,
) -> (r: Result<PendingDisputeSettlement, ContractError>)
    ensures
        r == finalize_gate(stored_schema, runtime_mode, pending, ledger_sequence),
{
    _require_supported_schema(stored_schema)?;
    _ensure_not_paused(runtime_mode)?;
    let p = match pending {
        Some(p) => p,
        None => return Err(ContractError::NoActiveRound),
    };
    if ledger_sequence < p.deadline_ledger {
        return Err(ContractError::RoundNotEnded);
    }
    Ok(p)
}

/// A staged result can be voided or finalized, never both: at every
/// ledger exactly one of the two is open (void strictly before the
/// deadline, finalize from it on).
pub proof fn law_void_xor_finalize(
    stored_schema: Option<u32>,
    runtime_mode: RuntimeMode,
    pending: PendingDisputeSettlement,
    ledger_sequence: u32,
)
    requires
        schema_supported(stored_schema),
        runtime_mode != RuntimeMode::FullyPaused,
    ensures
        void_gate(stored_schema, runtime_mode, Some(pending), ledger_sequence) is Ok
            <==> finalize_gate(stored_schema, runtime_mode, Some(pending), ledger_sequence) is Err,
        void_gate(stored_schema, runtime_mode, Some(pending), ledger_sequence) is Ok
            <==> ledger_sequence < pending.deadline_ledger,
{
}

// ─── Claims ─────────────────────────────────────────────────────────────────

/// The outcome of a claim: nothing pending claims 0 and changes nothing;
/// otherwise the pending amount moves to the balance.
pub open spec fn claim_outcome(
    stored_schema: Option<u32>,
    runtime_mode: RuntimeMode,
    pending: i128,
    balance: i128,
) -> Result<(i128, i128), ContractError> {
    if !schema_supported(stored_schema) {
        Err(ContractError::UnsupportedSchemaVersion)
    } else if runtime_mode == RuntimeMode::FullyPaused {
        Err(ContractError::ContractPaused)
    } else if pending == 0 {
        Ok((0i128, balance))
    } else {
        match payout_add_spec(balance, pending) {
            Err(e) => Err(e),
            Ok(b) => Ok((pending, b)),
        }
    }
}

/// Claims the user's pending winnings into their balance (allowed in every
/// mode but fully paused). Returns the amount claimed and the new balance;
/// the pending winnings are then cleared.
pub fn claim_winnings(stored_schema: Option<u32>, runtime_mode: RuntimeMode, pending: i128, balance: i128) -> (r:
    Result<(i128, i128), ContractError>)
    ensures
        r == claim_outcome(stored_schema, runtime_mode, pending, balance),
{
    _require_supported_schema(stored_schema)?;
    _ensure_not_paused(runtime_mode)?;
    if pending == 0 {
        return Ok((0, balance));
    }
    let new_balance = payout_add(balance, pending)?;
    Ok((pending, new_balance))
}

/// A claim moves exactly what was pending into the balance, and claiming
/// again right after (nothing pending) claims nothing and changes nothing.
pub proof fn law_claim_moves_pending_once(
    stored_schema: Option<u32>,
    runtime_mode: RuntimeMode,
    pending: i128,
    balance: i128,
)
    requires
        claim_outcome(stored_schema, runtime_mode, pending, balance) is Ok,
    ensures
        ({
            let (claimed, b) = claim_outcome(stored_schema, runtime_mode, pending, balance)->Ok_0;
            &&& claimed == pending
            &&& b == balance + pending
            &&& claim_outcome(stored_schema, runtime_mode, 0, b) == Ok::<
                (i128, i128),
                ContractError,
            >((0, b))
        }),
{
}

/// Whether no user appears twice.
pub open spec fn distinct_users(u: Seq<u64>) -> bool {
    forall|i: int, j: int| 0 <= i < j < u.len() ==> u[i] != u[j]
}

fn users_distinct(users: &Vec<u64>) -> (b: bool)
    ensures
        b == distinct_users(users@),
{
    let n = users.len();
    let mut i: usize = 0;
    while i < n
        invariant
            n == users@.len(),
            i <= n,
            forall|a: int, b: int| 0 <= a < i && a < b < n ==> users@[a] != users@[b],
        decreases n - i,
    {
        let mut j: usize = i + 1;
        while j < n
            invariant
                n == users@.len(),
                i < n,
                i + 1 <= j <= n,
                forall|a: int, b: int| 0 <= a < i && a < b < n ==> users@[a] != users@[b],
                forall|b: int| i < b < j ==> users@[i as int] != users@[b],
            decreases n - j,
        {
            if users[i] == users[j] {
                return false;
            }
            j = j + 1;
        }
        i = i + 1;
    }
    true
}

/// The claims of a batch, in order; the first failed claim refuses the
/// whole batch.
pub open spec fn batch_claims(pendings: Seq<i128>, balances: Seq<i128>) -> Result<
    Seq<(i128, i128)>,
    ContractError,
>
    decreases pendings.len(),
{
    if pendings.len() == 0 {
        Ok(Seq::empty())
    } else {
        match batch_claims(pendings.drop_last(), balances) {
            Err(e) => Err(e),
            Ok(prev) => {
                let i = pendings.len() - 1;
                if pendings[i] == 0 {
                    Ok(prev.push((0i128, balances[i])))
                } else {
                    match payout_add_spec(balances[i], pendings[i]) {
                        Err(e) => Err(e),
                        Ok(b) => Ok(prev.push((pendings[i], b))),
                    }
                }
            },
        }
    }
}

proof fn lemma_batch_claims_err_stays(pendings: Seq<i128>, balances: Seq<i128>, i: int)
    requires
        0 <= i <= pendings.len(),
        batch_claims(pendings.take(i), balances) is Err,
    ensures
        batch_claims(pendings, balances) == batch_claims(pendings.take(i), balances),
    decreases pendings.len() - i,
{
    if i < pendings.len() {
        assert(pendings.take(i + 1).drop_last() =~= pendings.take(i));
        lemma_batch_claims_err_stays(pendings, balances, i + 1);
    } else {
        assert(pendings.take(i) =~= pendings);
    }
}

/// The outcome of a batch claim: at most 50 distinct users, each claiming
/// as a single claim would.
pub open spec fn claim_many_outcome(
    stored_schema: Option<u32>,
    runtime_mode: RuntimeMode,
    users: Seq<u64>,
    pendings: Seq<i128>,
    balances: Seq<i128>,
) -> Result<Seq<(i128, i128)>, ContractError> {
    if !schema_supported(stored_schema) {
        Err(ContractError::UnsupportedSchemaVersion)
    } else if runtime_mode == RuntimeMode::FullyPaused {
        Err(ContractError::ContractPaused)
    } else if users.len() > MAX_CLAIM_BATCH_SIZE {
        Err(ContractError::ClaimBatchTooLarge)
    } else if !distinct_users(users) {
        Err(ContractError::DuplicateClaimAddress)
    } else {
        batch_claims(pendings, balances)
    }
}

proof fn lemma_batch_claims_single(
    stored_schema: Option<u32>,
    runtime_mode: RuntimeMode,
    pendings: Seq<i128>,
    balances: Seq<i128>,
)
    requires
        pendings.len() <= balances.len(),
        schema_supported(stored_schema),
        runtime_mode != RuntimeMode::FullyPaused,
    ensures
        batch_claims(pendings, balances) is Ok ==> batch_claims(pendings, balances)->Ok_0.len()
            == pendings.len() && forall|i: int|
            0 <= i < pendings.len() ==> claim_outcome(
                stored_schema,
                runtime_mode,
                pendings[i],
                balances[i],
            ) == Ok::<(i128, i128), ContractError>(
                #[trigger] batch_claims(pendings, balances)->Ok_0[i],
            ),
        (exists|i: int|
            0 <= i < pendings.len() && (#[trigger] claim_outcome(
                stored_schema,
                runtime_mode,
                pendings[i],
                balances[i],
            )) is Err) ==> batch_claims(pendings, balances) is Err,
    decreases pendings.len(),
{
    if pendings.len() > 0 {
        let prev_p = pendings.drop_last();
        lemma_batch_claims_single(stored_schema, runtime_mode, prev_p, balances);
        let n = pendings.len() - 1;
        if batch_claims(pendings, balances) is Ok {
            let prev = batch_claims(prev_p, balances)->Ok_0;
            assert forall|i: int| 0 <= i < pendings.len() implies claim_outcome(
                stored_schema,
                runtime_mode,
                pendings[i],
                balances[i],
            ) == Ok::<(i128, i128), ContractError>(
                #[trigger] batch_claims(pendings, balances)->Ok_0[i],
            ) by {
                if i < n {
                    assert(prev_p[i] == pendings[i]);
                    assert(claim_outcome(stored_schema, runtime_mode, prev_p[i], balances[i])
                        == Ok::<(i128, i128), ContractError>(prev[i]));
                }
            }
        }
        if exists|i: int|
            0 <= i < pendings.len() && (#[trigger] claim_outcome(
                stored_schema,
                runtime_mode,
                pendings[i],
                balances[i],
            )) is Err {
            let i = choose|i: int|
                0 <= i < pendings.len() && (#[trigger] claim_outcome(
                    stored_schema,
                    runtime_mode,
                    pendings[i],
                    balances[i],
                )) is Err;
            if i < n {
                assert(prev_p[i] == pendings[i]);
                assert(claim_outcome(stored_schema, runtime_mode, prev_p[i], balances[i]) is Err);
            }
        }
    }
}

/// A batch claim is all-or-nothing and gives each user exactly what a single
/// claim would: when it succeeds, entry `i` is user `i`'s single claim; when
/// any user's single claim would be refused, the whole batch is refused.
pub proof fn law_batch_claim_all_or_nothing(
    stored_schema: Option<u32>,
    runtime_mode: RuntimeMode,
    users: Seq<u64>,
    pendings: Seq<i128>,
    balances: Seq<i128>,
)
    requires
        users.len() == pendings.len(),
        users.len() == balances.len(),
    ensures
        claim_many_outcome(stored_schema, runtime_mode, users, pendings, balances) is Ok ==> ({
            let v = claim_many_outcome(stored_schema, runtime_mode, users, pendings, balances)->Ok_0;
            &&& v.len() == users.len()
            &&& forall|i: int|
                0 <= i < users.len() ==> claim_outcome(
                    stored_schema,
                    runtime_mode,
                    pendings[i],
                    balances[i],
                ) == Ok::<(i128, i128), ContractError>(#[trigger] v[i])
        }),
        (exists|i: int|
            0 <= i < users.len() && (#[trigger] claim_outcome(
                stored_schema,
                runtime_mode,
                pendings[i],
                balances[i],
            )) is Err) ==> claim_many_outcome(stored_schema, runtime_mode, users, pendings, balances)
            is Err,
{
    if schema_supported(stored_schema) && runtime_mode != RuntimeMode::FullyPaused {
        lemma_batch_claims_single(stored_schema, runtime_mode, pendings, balances);
    }
}

/// Claims the pending winnings of a batch of distinct users (each user
/// authorizes their own claim). Returns, per user, the amount claimed and
/// the new balance.
pub fn claim_many(
    stored_schema: Option<u32>,
    runtime_mode: RuntimeMode,
    users: &Vec<u64>,
    pendings: &Vec<i128>,
    balances: &Vec<i128>,
) -> (r: Result<Vec<(i128, i128)>, ContractError>)
    requires
        users@.len() == pendings@.len(),
        users@.len() == balances@.len(),
    ensures
        match claim_many_outcome(stored_schema, runtime_mode, users@, pendings@, balances@) {
            Err(e) => r is Err && r->Err_0 == e,
            Ok(s) => r is Ok && r->Ok_0@ == s,
        },
{
    _require_supported_schema(stored_schema)?;
    _ensure_not_paused(runtime_mode)?;
    if users.len() > MAX_CLAIM_BATCH_SIZE as usize {
        return Err(ContractError::ClaimBatchTooLarge);
    }
    if !users_distinct(users) {
        return Err(ContractError::DuplicateClaimAddress);
    }
    let mut out: Vec<(i128, i128)> = Vec::new();
    let mut i: usize = 0;
    while i < pendings.len()
        invariant
            pendings@.len() == balances@.len(),
            users@.len() == pendings@.len(),
            schema_supported(stored_schema),
            runtime_mode != RuntimeMode::FullyPaused,
            users@.len() <= MAX_CLAIM_BATCH_SIZE,
            distinct_users(users@),
            i <= pendings@.len(),
            batch_claims(pendings@.take(i as int), balances@) == Ok::<
                Seq<(i128, i128)>,
                ContractError,
            >(out@),
        decreases pendings@.len() - i,
    {
        proof {
            assert(pendings@.take(i + 1).drop_last() =~= pendings@.take(i as int));
        }
        if pendings[i] == 0 {
            out.push((0, balances[i]));
        } else {
            match payout_add(balances[i], pendings[i]) {
                Ok(b) => out.push((pendings[i], b)),
                Err(e) => {
                    proof {
                        lemma_batch_claims_err_stays(pendings@, balances@, i + 1);
                    }
                    return Err(e);
                },
            }
        }
        i = i + 1;
    }
    proof {
        assert(pendings@.take(pendings@.len() as int) =~= pendings@);
    }
    Ok(out)
}


// ─── TWAP samples ───────────────────────────────────────────────────────────

/// A settled price and when it was reported.
#[derive(Clone, Copy, Debug, PartialEq, Eq, Structural)]
pub struct PriceSample {
    pub price: u128,
    pub timestamp: u64,
}

/// The sum of the samples' prices.
pub open spec fn price_sum(s: Seq<PriceSample>) -> int
    decreases s.len(),
{
    if s.len() == 0 {
        0
    } else {
        price_sum(s.drop_last()) + s.last().price
    }
}

proof fn lemma_price_sum_prefix(s: Seq<PriceSample>, i: int)
    requires
        0 <= i <= s.len(),
    ensures
        0 <= price_sum(s.take(i)) <= price_sum(s),
    decreases s.len() - i,
{
    if i < s.len() {
        lemma_price_sum_prefix(s, i + 1);
        assert(s.take(i + 1).drop_last() =~= s.take(i));
        lemma_price_sum_nonneg(s.take(i));
    } else {
        assert(s.take(i) =~= s);
        lemma_price_sum_nonneg(s);
    }
}

proof fn lemma_price_sum_nonneg(s: Seq<PriceSample>)
    ensures
        price_sum(s) >= 0,
    decreases s.len(),
{
    if s.len() > 0 {
        lemma_price_sum_nonneg(s.drop_last());
    }
}

/// The TWAP reference: the mean (rounded down) of the last `window`
/// samples' prices; refused when fewer samples exist or the window is
/// empty, and when their sum overflows.
pub open spec fn twap_reference(samples: Seq<PriceSample>, window: u32) -> Result<
    u128,
    ContractError,
> {
    if samples.len() < window {
        Err(ContractError::WindowOutOfRange)
    } else {
        let w = samples.subrange(samples.len() - window, samples.len() as int);
        if price_sum(w) > u128::MAX {
            Err(ContractError::Overflow)
        } else if window == 0 {
            Err(ContractError::WindowOutOfRange)
        } else {
            Ok((price_sum(w) / (window as int)) as u128)
        }
    }
}

/// The TWAP reference price of the deviation guardrail.
pub fn _twap_reference_price(samples: &Vec<PriceSample>, window_samples: u32) -> (r: Result<
    u128,
    ContractError,
>)
    ensures
        r == twap_reference(samples@, window_samples),
{
    let n = samples.len();
    if n < window_samples as usize {
        return Err(ContractError::WindowOutOfRange);
    }
    let start = n - window_samples as usize;
    let ghost w = samples@.subrange(start as int, n as int);
    let mut sum: u128 = 0;
    let mut count: u128 = 0;
    let mut i: usize = start;
    while i < n
        invariant
            n == samples@.len(),
            start <= i <= n,
            start == n - window_samples,
            w == samples@.subrange(start as int, n as int),
            sum == price_sum(w.take(i - start)),
            count == i - start,
        decreases n - i,
    {
        proof {
            assert(w.take(i - start + 1).drop_last() =~= w.take(i - start));
            assert(w.take(i - start + 1).last() == samples@[i as int]);
        }
        sum = match sum.checked_add(samples[i].price) {
            Some(v) => v,
            None => {
                proof {
                    lemma_price_sum_prefix(w, i - start + 1);
                }
                return Err(ContractError::Overflow);
            },
        };
        count = count + 1;
        i = i + 1;
    }
    proof {
        assert(w.take(n - start) =~= w);
    }
    if count == 0 {
        return Err(ContractError::WindowOutOfRange);
    }
    Ok(sum / count)
}

/// The sample ring after a new sample: appended, then the oldest dropped
/// while more than the maximum remain.
pub open spec fn samples_after(samples: Seq<PriceSample>, sample: PriceSample) -> Seq<PriceSample> {
    let t = samples.push(sample);
    if t.len() > MAX_TWAP_WINDOW_SAMPLES {
        t.subrange(t.len() - MAX_TWAP_WINDOW_SAMPLES, t.len() as int)
    } else {
        t
    }
}

/// Records a settled price in the sample ring, keeping at most the maximum
/// number of most recent samples.
pub fn _record_twap_sample(samples: &mut Vec<PriceSample>, price: u128, timestamp: u64)
    ensures
        final(samples)@ == samples_after(old(samples)@, PriceSample { price, timestamp }),
{
    let ghost t = old(samples)@.push(PriceSample { price, timestamp });
    samples.push(PriceSample { price, timestamp });
    let ghost mut k: int = 0;
    while samples.len() > MAX_TWAP_WINDOW_SAMPLES as usize
        invariant
            0 <= k <= t.len(),
            samples@ == t.subrange(k, t.len() as int),
            k > 0 ==> samples@.len() >= MAX_TWAP_WINDOW_SAMPLES,
        decreases samples@.len(),
    {
        samples.remove(0);
        proof {
            k = k + 1;
            assert(samples@ =~= t.subrange(k, t.len() as int));
        }
    }
    proof {
        if t.len() > MAX_TWAP_WINDOW_SAMPLES {
            assert(k == t.len() - MAX_TWAP_WINDOW_SAMPLES);
        } else {
            assert(k == 0);
            assert(t.subrange(0, t.len() as int) =~= t);
        }
    }
}

/// The ring never holds more than the maximum, always ends with the newest
/// sample, and keeps the previous samples in order.
pub proof fn law_sample_ring_bounded(samples: Seq<PriceSample>, sample: PriceSample)
    ensures
        samples_after(samples, sample).len() <= MAX_TWAP_WINDOW_SAMPLES,
        samples_after(samples, sample).last() == sample,
        samples.len() < MAX_TWAP_WINDOW_SAMPLES ==> samples_after(samples, sample) =~= samples.push(sample),
{
}

// ─── User statistics ────────────────────────────────────────────────────────

/// A user's win/loss record.
#[derive(Clone, Copy, Debug, PartialEq, Eq, Structural)]
pub struct UserStats {
    pub total_wins: u32,
    pub total_losses: u32,
    pub current_streak: u32,
    pub best_streak: u32,
}

/// The record of a user who has none yet.
pub open spec fn fresh_stats() -> UserStats {
    UserStats { total_wins: 0, total_losses: 0, current_streak: 0, best_streak: 0 }
}

/// Records a win: one more win, the streak grows, and the best streak
/// follows it.
pub fn _update_stats_win(stats: Option<UserStats>) -> (r: Result<UserStats, ContractError>)
    ensures
        ({
            let s = stats.unwrap_or(fresh_stats());
            r == if s.total_wins == u32::MAX || s.current_streak == u32::MAX {
                Err(ContractError::Overflow)
            } else {
                Ok(
                    UserStats {
                        total_wins: (s.total_wins + 1) as u32,
                        total_losses: s.total_losses,
                        current_streak: (s.current_streak + 1) as u32,
                        best_streak: if s.current_streak + 1 > s.best_streak {
                            (s.current_streak + 1) as u32
                        } else {
                            s.best_streak
                        },
                    },
                )
            }
        }),
{
    let mut s = match stats {
        Some(s) => s,
        None => UserStats { total_wins: 0, total_losses: 0, current_streak: 0, best_streak: 0 },
    };
    s.total_wins = match s.total_wins.checked_add(1) {
        Some(v) => v,
        None => return Err(ContractError::Overflow),
    };
    s.current_streak = match s.current_streak.checked_add(1) {
        Some(v) => v,
        None => return Err(ContractError::Overflow),
    };
    if s.current_streak > s.best_streak {
        s.best_streak = s.current_streak;
    }
    Ok(s)
}

/// Records a loss: one more loss and the streak resets.
pub fn _update_stats_loss(stats: Option<UserStats>) -> (r: Result<UserStats, ContractError>)
    ensures
        ({
            let s = stats.unwrap_or(fresh_stats());
            r == if s.total_losses == u32::MAX {
                Err(ContractError::Overflow)
            } else {
                Ok(
                    UserStats {
                        total_wins: s.total_wins,
                        total_losses: (s.total_losses + 1) as u32,
                        current_streak: 0,
                        best_streak: s.best_streak,
                    },
                )
            }
        }),
{
    let mut s = match stats {
        Some(s) => s,
        None => UserStats { total_wins: 0, total_losses: 0, current_streak: 0, best_streak: 0 },
    };
    s.total_losses = match s.total_losses.checked_add(1) {
        Some(v) => v,
        None => return Err(ContractError::Overflow),
    };
    s.current_streak = 0;
    Ok(s)
}

/// The best streak is never below the current one, and every recorded
/// outcome counts exactly once.
pub proof fn law_stats_consistent(s: UserStats)
    requires
        s.best_streak >= s.current_streak,
        s.total_wins < u32::MAX,
        s.total_losses < u32::MAX,
        s.current_streak < u32::MAX,
    ensures
        ({
            let w = UserStats {
                total_wins: (s.total_wins + 1) as u32,
                total_losses: s.total_losses,
                current_streak: (s.current_streak + 1) as u32,
                best_streak: if s.current_streak + 1 > s.best_streak {
                    (s.current_streak + 1) as u32
                } else {
                    s.best_streak
                },
            };
            &&& w.best_streak >= w.current_streak
            &&& w.best_streak >= s.best_streak
            &&& w.total_wins + w.total_losses == s.total_wins + s.total_losses + 1
        }),
{
}

// ─── One-sided rounds ───────────────────────────────────────────────────────

/// What happens to a round with only one side staked.
#[derive(Clone, Copy, Debug, PartialEq, Eq, Structural)]
pub enum OneSidedPolicy {
    Refund,
    Void,
    CarryForward,
}

/// The policy applied to a one-sided round: always a refund.
pub fn _select_one_sided_policy(round: &Round) -> (p: OneSidedPolicy)
    ensures
        p == OneSidedPolicy::Refund,
{
    OneSidedPolicy::Refund
}

/// A summary of a one-sided settlement: the staked side (0 up, 1 down,
/// 2 neither), the amount refunded and the amount carried forward.
#[derive(Clone, Copy, Debug, PartialEq, Eq, Structural)]
pub struct OneSidedSummary {
    pub affected_side: u32,
    pub refund_amount: i128,
    pub carry_amount: i128,
}

/// Settles a one-sided Up/Down round: every position is refunded under
/// every policy; the summary tells how the pot is accounted (refunded, or
/// carried forward). Returns the new pending winnings and the summary.
pub fn _apply_one_sided_policy(
    round: &Round,
    policy: OneSidedPolicy,
    users: &Vec<UserRoundState>,
    pendings: &Vec<i128>,
    cap: Option<i128>,
) -> (r: Result<(Vec<i128>, OneSidedSummary), ContractError>)
    requires
        users@.len() == pendings@.len(),
    ensures
        match refunded(RoundMode::UpDown, users@, pendings@, cap) {
            Err(e) => r is Err && r->Err_0 == e,
            Ok(p) => r is Ok && r->Ok_0.0@ == p && r->Ok_0.1 == (OneSidedSummary {
                affected_side: if round.pool_up > 0 {
                    0u32
                } else if round.pool_down > 0 {
                    1
                } else {
                    2
                },
                refund_amount: if policy == OneSidedPolicy::CarryForward {
                    0i128
                } else {
                    crate::math_common::sat_add_i128(round.pool_up, round.pool_down)
                },
                carry_amount: if policy == OneSidedPolicy::CarryForward {
                    crate::math_common::sat_add_i128(round.pool_up, round.pool_down)
                } else {
                    0i128
                },
            }),
        },
{
    let affected_side: u32 = if round.pool_up > 0 {
        0
    } else if round.pool_down > 0 {
        1
    } else {
        2
    };
    let pot = crate::math_common::saturating_add_i128(round.pool_up, round.pool_down);
    let new_pendings = refund_participants(RoundMode::UpDown, users, pendings, cap)?;
    let (refund_amount, carry_amount) = match policy {
        OneSidedPolicy::Refund | OneSidedPolicy::Void => (pot, 0),
        OneSidedPolicy::CarryForward => (0, pot),
    };
    Ok((new_pendings, OneSidedSummary { affected_side, refund_amount, carry_amount }))
}


// ─── Up/Down payout ─────────────────────────────────────────────────────────

/// The statistics after a win, as `_update_stats_win` computes them.
pub open spec fn stats_after_win(stats: Option<UserStats>) -> Result<UserStats, ContractError> {
    let s = stats.unwrap_or(fresh_stats());
    if s.total_wins == u32::MAX || s.current_streak == u32::MAX {
        Err(ContractError::Overflow)
    } else {
        Ok(
            UserStats {
                total_wins: (s.total_wins + 1) as u32,
                total_losses: s.total_losses,
                current_streak: (s.current_streak + 1) as u32,
                best_streak: if s.current_streak + 1 > s.best_streak {
                    (s.current_streak + 1) as u32
                } else {
                    s.best_streak
                },
            },
        )
    }
}

/// The statistics after a loss, as `_update_stats_loss` computes them.
pub open spec fn stats_after_loss(stats: Option<UserStats>) -> Result<UserStats, ContractError> {
    let s = stats.unwrap_or(fresh_stats());
    if s.total_losses == u32::MAX {
        Err(ContractError::Overflow)
    } else {
        Ok(
            UserStats {
                total_wins: s.total_wins,
                total_losses: (s.total_losses + 1) as u32,
                current_streak: 0,
                best_streak: s.best_streak,
            },
        )
    }
}

/// One participant's record after an Up/Down payout on the winning side
/// `side`: a winner is credited `stake * total / winning_pool` and scores a
/// win, a loser scores a loss, a participant without a position is
/// untouched.
pub open spec fn updown_credit(
    u: UserRoundState,
    pending: i128,
    stats: Option<UserStats>,
    side: BetSide,
    winning_pool: i128,
    total: i128,
    cap: Option<i128>,
) -> Result<(i128, Option<UserStats>), ContractError> {
    match u.position {
        None => Ok((pending, stats)),
        Some(p) => if p.side == side {
            match updown_winner_payout(p.amount, winning_pool, total) {
                Err(e) => Err(e),
                Ok(pay) => match pending_accumulated(pending, pay, cap) {
                    Err(e) => Err(e),
                    Ok(np) => match stats_after_win(stats) {
                        Err(e) => Err(e),
                        Ok(ns) => Ok((np, Some(ns))),
                    },
                },
            }
        } else {
            match stats_after_loss(stats) {
                Err(e) => Err(e),
                Ok(ns) => Ok((pending, Some(ns))),
            }
        },
    }
}

/// All participants' records after the payout, in order.
pub open spec fn updown_credits(
    users: Seq<UserRoundState>,
    pendings: Seq<i128>,
    stats: Seq<Option<UserStats>>,
    side: BetSide,
    winning_pool: i128,
    total: i128,
    cap: Option<i128>,
) -> Result<(Seq<i128>, Seq<Option<UserStats>>), ContractError>
    decreases users.len(),
{
    if users.len() == 0 {
        Ok((Seq::empty(), Seq::empty()))
    } else {
        match updown_credits(users.drop_last(), pendings, stats, side, winning_pool, total, cap) {
            Err(e) => Err(e),
            Ok((ps, ss)) => {
                let i = users.len() - 1;
                match updown_credit(users.last(), pendings[i], stats[i], side, winning_pool, total, cap) {
                    Err(e) => Err(e),
                    Ok((p, st)) => Ok((ps.push(p), ss.push(st))),
                }
            },
        }
    }
}

/// What an Up/Down payout writes.
#[derive(Clone, Debug)]
pub struct UpDownSettlement {
    pub pendings: Vec<i128>,
    pub stats: Vec<Option<UserStats>>,
    pub fees: FeeLedger,
    pub fee: i128,
    pub one_sided: bool,
}

/// The outcome of paying out an Up/Down round at `final_price`: a
/// one-sided round refunds every position; otherwise an unchanged price
/// refunds every position and a move pays the winning side out of both
/// pools after the protocol fee (nothing when the winning pool is empty).
pub open spec fn updown_settlement(
    round: Round,
    final_price: u128,
    fee_bps: Option<u32>,
    fee_model: FeeModel,
    fees: FeeLedger,
    users: Seq<UserRoundState>,
    pendings: Seq<i128>,
    stats: Seq<Option<UserStats>>,
    cap: Option<i128>,
) -> Result<(Seq<i128>, Seq<Option<UserStats>>, FeeLedger, i128), ContractError> {
    let direction = price_direction(round.price_start, final_price);
    if one_sided(round.pool_up, round.pool_down) || direction == PriceDirection::Unchanged {
        match refunded(RoundMode::UpDown, users, pendings, cap) {
            Err(e) => Err(e),
            Ok(p) => Ok((p, stats, fees, 0)),
        }
    } else {
        let (side, wp, lp) = if direction == PriceDirection::Up {
            (BetSide::Up, round.pool_up, round.pool_down)
        } else {
            (BetSide::Down, round.pool_down, round.pool_up)
        };
        if wp == 0 {
            Ok((pendings, stats, fees, 0))
        } else {
            match protocol_fee_updown(fee_bps, fee_model, wp, lp) {
                Err(e) => Err(e),
                Ok((dw, dl, fee)) => {
                    let collected = if fee > 0 {
                        fee_collected(fees, fee)
                    } else {
                        Ok(fees)
                    };
                    match collected {
                        Err(e) => Err(e),
                        Ok(new_fees) => match payout_add_spec(dw, dl) {
                            Err(e) => Err(e),
                            Ok(total) => match updown_credits(users, pendings, stats, side, wp, total, cap) {
                                Err(e) => Err(e),
                                Ok((ps, ss)) => Ok((ps, ss, new_fees, fee)),
                            },
                        },
                    }
                },
            }
        }
    }
}

proof fn lemma_updown_credits_err_stays(
    users: Seq<UserRoundState>,
    pendings: Seq<i128>,
    stats: Seq<Option<UserStats>>,
    side: BetSide,
    wp: i128,
    total: i128,
    cap: Option<i128>,
    i: int,
)
    requires
        0 <= i <= users.len(),
        updown_credits(users.take(i), pendings, stats, side, wp, total, cap) is Err,
    ensures
        updown_credits(users, pendings, stats, side, wp, total, cap) == updown_credits(
            users.take(i),
            pendings,
            stats,
            side,
            wp,
            total,
            cap,
        ),
    decreases users.len() - i,
{
    if i < users.len() {
        assert(users.take(i + 1).drop_last() =~= users.take(i));
        lemma_updown_credits_err_stays(users, pendings, stats, side, wp, total, cap, i + 1);
    } else {
        assert(users.take(i) =~= users);
    }
}

fn _record_winnings_indexed(
    users: &Vec<UserRoundState>,
    pendings: &Vec<i128>,
    stats: &Vec<Option<UserStats>>,
    side: BetSide,
    winning_pool: i128,
    total: i128,
    cap: Option<i128>,
) -> (r: Result<(Vec<i128>, Vec<Option<UserStats>>), ContractError>)
    requires
        users@.len() == pendings@.len(),
        users@.len() == stats@.len(),
        winning_pool > 0,
    ensures
        match updown_credits(users@, pendings@, stats@, side, winning_pool, total, cap) {
            Err(e) => r is Err && r->Err_0 == e,
            Ok((ps, ss)) => r is Ok && r->Ok_0.0@ == ps && r->Ok_0.1@ == ss,
        },
{
    let mut ps: Vec<i128> = Vec::new();
    let mut ss: Vec<Option<UserStats>> = Vec::new();
    let mut i: usize = 0;
    while i < users.len()
        invariant
            users@.len() == pendings@.len(),
            users@.len() == stats@.len(),
            winning_pool > 0,
            i <= users@.len(),
            updown_credits(users@.take(i as int), pendings@, stats@, side, winning_pool, total, cap)
                == Ok::<(Seq<i128>, Seq<Option<UserStats>>), ContractError>((ps@, ss@)),
        decreases users@.len() - i,
    {
        proof {
            assert(users@.take(i + 1).drop_last() =~= users@.take(i as int));
            assert(users@.take(i + 1).last() == users@[i as int]);
        }
        let u = users[i];
        match u.position {
            None => {
                ps.push(pendings[i]);
                ss.push(stats[i]);
            },
            Some(p) => {
                if p.side == side {
                    let pay = match compute_updown_winner_payout(p.amount, winning_pool, total) {
                        Ok(v) => v,
                        Err(e) => {
                            proof {
                                lemma_updown_credits_err_stays(users@, pendings@, stats@, side, winning_pool, total, cap, i + 1);
                            }
                            return Err(e);
                        },
                    };
                    let np = match _accumulate_pending(pendings[i], pay, cap) {
                        Ok(v) => v,
                        Err(e) => {
                            proof {
                                lemma_updown_credits_err_stays(users@, pendings@, stats@, side, winning_pool, total, cap, i + 1);
                            }
                            return Err(e);
                        },
                    };
                    let ns = match _update_stats_win(stats[i]) {
                        Ok(v) => v,
                        Err(e) => {
                            proof {
                                lemma_updown_credits_err_stays(users@, pendings@, stats@, side, winning_pool, total, cap, i + 1);
                            }
                            return Err(e);
                        },
                    };
                    ps.push(np);
                    ss.push(Some(ns));
                } else {
                    let ns = match _update_stats_loss(stats[i]) {
                        Ok(v) => v,
                        Err(e) => {
                            proof {
                                lemma_updown_credits_err_stays(users@, pendings@, stats@, side, winning_pool, total, cap, i + 1);
                            }
                            return Err(e);
                        },
                    };
                    ps.push(pendings[i]);
                    ss.push(Some(ns));
                }
            },
        }
        i = i + 1;
    }
    proof {
        assert(users@.take(users@.len() as int) =~= users@);
    }
    Ok((ps, ss))
}

/// Pays out an Up/Down round at the accepted price, collecting the
/// protocol fee and recording each participant's win or loss.
pub fn _resolve_updown_mode(
    round: &Round,
    final_price: u128,
    fee_bps: Option<u32>,
    fee_model: FeeModel,
    fees: FeeLedger,
    users: &Vec<UserRoundState>,
    pendings: &Vec<i128>,
    stats: &Vec<Option<UserStats>>,
    cap: Option<i128>,
) -> (r: Result<UpDownSettlement, ContractError>)
    requires
        users@.len() == pendings@.len(),
        users@.len() == stats@.len(),
        round.pool_up >= 0,
        round.pool_down >= 0,
    ensures
        match updown_settlement(*round, final_price, fee_bps, fee_model, fees, users@, pendings@, stats@, cap) {
            Err(e) => r is Err && r->Err_0 == e,
            Ok((ps, ss, nf, fee)) => r is Ok && r->Ok_0.pendings@ == ps && r->Ok_0.stats@ == ss
                && r->Ok_0.fees == nf && r->Ok_0.fee == fee && r->Ok_0.one_sided == one_sided(
                round.pool_up,
                round.pool_down,
            ),
        },
{
    let direction = classify_price_direction(round.price_start, final_price);
    let is_one_sided = is_one_sided_pool(round.pool_up, round.pool_down);
    if is_one_sided || direction == PriceDirection::Unchanged {
        let ps = refund_participants(RoundMode::UpDown, users, pendings, cap)?;
        let mut ss: Vec<Option<UserStats>> = Vec::new();
        let mut i: usize = 0;
        while i < stats.len()
            invariant
                i <= stats@.len(),
                ss@ == stats@.take(i as int),
            decreases stats@.len() - i,
        {
            ss.push(stats[i]);
            i = i + 1;
            proof {
                assert(ss@ =~= stats@.take(i as int));
            }
        }
        proof {
            assert(stats@.take(stats@.len() as int) =~= stats@);
        }
        return Ok(UpDownSettlement { pendings: ps, stats: ss, fees, fee: 0, one_sided: is_one_sided });
    }
    let (side, wp, lp) = if direction == PriceDirection::Up {
        (BetSide::Up, round.pool_up, round.pool_down)
    } else {
        (BetSide::Down, round.pool_down, round.pool_up)
    };
    if wp == 0 {
        let mut ps: Vec<i128> = Vec::new();
        let mut ss: Vec<Option<UserStats>> = Vec::new();
        let mut i: usize = 0;
        while i < pendings.len()
            invariant
                pendings@.len() == stats@.len(),
                i <= pendings@.len(),
                ps@ == pendings@.take(i as int),
                ss@ == stats@.take(i as int),
            decreases pendings@.len() - i,
        {
            ps.push(pendings[i]);
            ss.push(stats[i]);
            i = i + 1;
            proof {
                assert(ps@ =~= pendings@.take(i as int));
                assert(ss@ =~= stats@.take(i as int));
            }
        }
        proof {
            assert(pendings@.take(pendings@.len() as int) =~= pendings@);
            assert(stats@.take(stats@.len() as int) =~= stats@);
        }
        return Ok(UpDownSettlement { pendings: ps, stats: ss, fees, fee: 0, one_sided: false });
    }
    let (dw, dl, fee) = calculate_protocol_fee_updown(fee_bps, fee_model, wp, lp)?;
    let new_fees = if fee > 0 {
        _collect_protocol_fee(fees, fee)?
    } else {
        fees
    };
    let total = payout_add(dw, dl)?;
    let (ps, ss) = _record_winnings_indexed(users, pendings, stats, side, wp, total, cap)?;
    Ok(UpDownSettlement { pendings: ps, stats: ss, fees: new_fees, fee, one_sided: false })
}


// ─── Precision payout shares ────────────────────────────────────────────────

/// A sum with every addition checked (`PayoutOverflow` at the first one
/// that does not fit).
pub open spec fn checked_sum(s: Seq<i128>) -> Result<i128, ContractError>
    decreases s.len(),
{
    if s.len() == 0 {
        Ok(0)
    } else {
        match checked_sum(s.drop_last()) {
            Err(e) => Err(e),
            Ok(t) => payout_add_spec(t, s.last()),
        }
    }
}

/// The stake-weighted shares `stake * pool / total` (rounded toward zero),
/// with their running total, each product and addition checked.
pub open spec fn weighted_shares(stakes: Seq<i128>, pool: i128, total: i128) -> Result<
    (Seq<i128>, i128),
    ContractError,
>
    decreases stakes.len(),
{
    if stakes.len() == 0 {
        Ok((Seq::empty(), 0i128))
    } else {
        match weighted_shares(stakes.drop_last(), pool, total) {
            Err(e) => Err(e),
            Ok((prev, paid)) => match payout_mul_spec(stakes.last(), pool) {
                Err(e) => Err(e),
                Ok(m) => {
                    let q = div_trunc(m as int, total as int) as i128;
                    match payout_add_spec(paid, q) {
                        Err(e) => Err(e),
                        Ok(np) => Ok((prev.push(q), np)),
                    }
                },
            },
        }
    }
}

/// The shares before the remainder: equal shares `pool / n` (rounded
/// toward zero), or stake-weighted ones (all zero when the winners' stakes
/// sum to zero or less), with what they pay in total.
pub open spec fn base_shares(policy: PrecisionPayoutPolicy, stakes: Seq<i128>, pool: i128) -> Result<
    (Seq<i128>, i128),
    ContractError,
> {
    let n = stakes.len();
    match policy {
        PrecisionPayoutPolicy::Equal => if n == 0 {
            Ok((Seq::empty(), 0i128))
        } else {
            let per = div_trunc(pool as int, n as int);
            if !fits_i128(per * n) {
                Err(ContractError::PayoutOverflow)
            } else {
                Ok((Seq::new(n, |i: int| per as i128), (per * n) as i128))
            }
        },
        PrecisionPayoutPolicy::StakeWeighted => match checked_sum(stakes) {
            Err(e) => Err(e),
            Ok(t) => if t > 0 {
                weighted_shares(stakes, pool, t)
            } else {
                Ok((Seq::new(n, |i: int| 0i128), 0i128))
            },
        },
    }
}

/// The Precision payouts of the winners: the base shares, with what they
/// leave of the pool added to the first winner's.
pub open spec fn precision_shares(policy: PrecisionPayoutPolicy, stakes: Seq<i128>, pool: i128) -> Result<
    Seq<i128>,
    ContractError,
> {
    match base_shares(policy, stakes, pool) {
        Err(e) => Err(e),
        Ok((shares, paid)) => if !fits_i128(pool - paid) {
            Err(ContractError::PayoutOverflow)
        } else if stakes.len() == 0 {
            Ok(shares)
        } else {
            match payout_add_spec(shares[0], (pool - paid) as i128) {
                Err(e) => Err(e),
                Ok(first) => Ok(shares.update(0, first)),
            }
        },
    }
}

proof fn lemma_checked_sum_err_stays(s: Seq<i128>, i: int)
    requires
        0 <= i <= s.len(),
        checked_sum(s.take(i)) is Err,
    ensures
        checked_sum(s) == checked_sum(s.take(i)),
    decreases s.len() - i,
{
    if i < s.len() {
        assert(s.take(i + 1).drop_last() =~= s.take(i));
        lemma_checked_sum_err_stays(s, i + 1);
    } else {
        assert(s.take(i) =~= s);
    }
}

proof fn lemma_weighted_err_stays(s: Seq<i128>, pool: i128, total: i128, i: int)
    requires
        0 <= i <= s.len(),
        weighted_shares(s.take(i), pool, total) is Err,
    ensures
        weighted_shares(s, pool, total) == weighted_shares(s.take(i), pool, total),
    decreases s.len() - i,
{
    if i < s.len() {
        assert(s.take(i + 1).drop_last() =~= s.take(i));
        lemma_weighted_err_stays(s, pool, total, i + 1);
    } else {
        assert(s.take(i) =~= s);
    }
}

proof fn lemma_equal_overflow_at(per: int, k: int, n: int)
    requires
        0 <= k < n,
        fits_i128(per * k),
        !fits_i128(per * k + per),
    ensures
        !fits_i128(per * n),
{
    assert(per * k + per == per * (k + 1)) by (nonlinear_arith);
    assert(per >= 0 ==> per * (k + 1) <= per * n) by (nonlinear_arith)
        requires
            k + 1 <= n,
    ;
    assert(per < 0 ==> per * n <= per * (k + 1)) by (nonlinear_arith)
        requires
            k + 1 <= n,
    ;
}

/// Splits the Precision payout pool among the winners under the payout
/// policy; what the shares leave of the pool goes to the first winner.
pub fn _calculate_precision_payouts(
    policy: PrecisionPayoutPolicy,
    winner_stakes: &Vec<i128>,
    payout_pool: i128,
) -> (r: Result<Vec<i128>, ContractError>)
    requires
        winner_stakes@.len() <= i128::MAX,
    ensures
        match precision_shares(policy, winner_stakes@, payout_pool) {
            Err(e) => r is Err && r->Err_0 == e,
            Ok(s) => r is Ok && r->Ok_0@ == s,
        },
{
    let n = winner_stakes.len();
    let mut payouts: Vec<i128> = Vec::new();
    let mut total_paid: i128 = 0;
    match policy {
        PrecisionPayoutPolicy::Equal => {
            if n > 0 {
                let count = n as i128;
                let per = div_trunc_i128(payout_pool, count);
                let ghost per_i: int = per as int;
                let mut i: usize = 0;
                while i < n
                    invariant
                        policy == PrecisionPayoutPolicy::Equal,
                        n == winner_stakes@.len(),
                        n > 0,
                        n <= i128::MAX,
                        per == div_trunc(payout_pool as int, n as int),
                        i <= n,
                        payouts@ == Seq::new(i as nat, |k: int| per),
                        total_paid == per * i,
                    decreases n - i,
                {
                    total_paid = match payout_add(total_paid, per) {
                        Ok(t) => t,
                        Err(e) => {
                            proof {
                                lemma_equal_overflow_at(per as int, i as int, n as int);
                            }
                            return Err(e);
                        },
                    };
                    proof {
                        assert(per * i + per == per * (i + 1)) by (nonlinear_arith);
                    }
                    payouts.push(per);
                    i = i + 1;
                    proof {
                        assert(payouts@ =~= Seq::new(i as nat, |k: int| per));
                    }
                }
            }
        },
        PrecisionPayoutPolicy::StakeWeighted => {
            let mut total_stakes: i128 = 0;
            let mut j: usize = 0;
            while j < n
                invariant
                    policy == PrecisionPayoutPolicy::StakeWeighted,
                    n == winner_stakes@.len(),
                    j <= n,
                    checked_sum(winner_stakes@.take(j as int)) == Ok::<i128, ContractError>(
                        total_stakes,
                    ),
                decreases n - j,
            {
                proof {
                    assert(winner_stakes@.take(j + 1).drop_last() =~= winner_stakes@.take(j as int));
                }
                total_stakes = match payout_add(total_stakes, winner_stakes[j]) {
                    Ok(t) => t,
                    Err(e) => {
                        proof {
                            lemma_checked_sum_err_stays(winner_stakes@, j + 1);
                        }
                        return Err(e);
                    },
                };
                j = j + 1;
            }
            proof {
                assert(winner_stakes@.take(n as int) =~= winner_stakes@);
            }
            if total_stakes > 0 {
                let mut i: usize = 0;
                while i < n
                    invariant
                        policy == PrecisionPayoutPolicy::StakeWeighted,
                        n == winner_stakes@.len(),
                        total_stakes > 0,
                        checked_sum(winner_stakes@) == Ok::<i128, ContractError>(total_stakes),
                        i <= n,
                        weighted_shares(winner_stakes@.take(i as int), payout_pool, total_stakes)
                            == Ok::<(Seq<i128>, i128), ContractError>((payouts@, total_paid)),
                    decreases n - i,
                {
                    proof {
                        assert(winner_stakes@.take(i + 1).drop_last() =~= winner_stakes@.take(i as int));
                    }
                    let m = match payout_mul(winner_stakes[i], payout_pool) {
                        Ok(m) => m,
                        Err(e) => {
                            proof {
                                lemma_weighted_err_stays(winner_stakes@, payout_pool, total_stakes, i + 1);
                            }
                            return Err(e);
                        },
                    };
                    let q = div_trunc_i128(m, total_stakes);
                    total_paid = match payout_add(total_paid, q) {
                        Ok(t) => t,
                        Err(e) => {
                            proof {
                                lemma_weighted_err_stays(winner_stakes@, payout_pool, total_stakes, i + 1);
                            }
                            return Err(e);
                        },
                    };
                    payouts.push(q);
                    i = i + 1;
                }
                proof {
                    assert(winner_stakes@.take(n as int) =~= winner_stakes@);
                }
            } else {
                let mut i: usize = 0;
                while i < n
                    invariant
                        policy == PrecisionPayoutPolicy::StakeWeighted,
                        checked_sum(winner_stakes@) == Ok::<i128, ContractError>(total_stakes),
                        total_stakes <= 0,
                        n == winner_stakes@.len(),
                        i <= n,
                        total_paid == 0,
                        payouts@ == Seq::new(i as nat, |k: int| 0i128),
                    decreases n - i,
                {
                    payouts.push(0);
                    i = i + 1;
                    proof {
                        assert(payouts@ =~= Seq::new(i as nat, |k: int| 0i128));
                    }
                }
            }
        },
    }
    proof {
        if policy == PrecisionPayoutPolicy::Equal && n == 0 {
            assert(payouts@ =~= Seq::<i128>::empty());
        }
    }
    let remainder = match payout_pool.checked_sub(total_paid) {
        Some(v) => v,
        None => return Err(ContractError::PayoutOverflow),
    };
    if n > 0 {
        let first = payout_add(payouts[0], remainder)?;
        payouts.set(0, first);
    }
    Ok(payouts)
}

proof fn lemma_constant_sum(c: i128, n: nat)
    ensures
        crate::settlement_math::sum_amounts(Seq::new(n, |i: int| c)) == c * n,
    decreases n,
{
    if n > 0 {
        lemma_constant_sum(c, (n - 1) as nat);
        let sq = Seq::new(n, |i: int| c);
        assert(sq.drop_last() =~= Seq::new((n - 1) as nat, |i: int| c));
        assert(sq.last() == c);
        assert(crate::settlement_math::sum_amounts(sq) == crate::settlement_math::sum_amounts(
            sq.drop_last(),
        ) + sq.last());
        assert(c * ((n - 1) as nat) + c == c * n) by (nonlinear_arith)
            requires
                n > 0,
        ;
    } else {
        assert(c * n == 0) by (nonlinear_arith)
            requires
                n == 0,
        ;
        assert(Seq::new(n, |i: int| c) =~= Seq::<i128>::empty());
    }
}

proof fn lemma_weighted_sum(stakes: Seq<i128>, pool: i128, total: i128)
    requires
        weighted_shares(stakes, pool, total) is Ok,
    ensures
        crate::settlement_math::sum_amounts(weighted_shares(stakes, pool, total)->Ok_0.0)
            == weighted_shares(stakes, pool, total)->Ok_0.1,
    decreases stakes.len(),
{
    if stakes.len() > 0 {
        lemma_weighted_sum(stakes.drop_last(), pool, total);
        let (prev, paid) = weighted_shares(stakes.drop_last(), pool, total)->Ok_0;
        let (cur, _) = weighted_shares(stakes, pool, total)->Ok_0;
        assert(cur.drop_last() =~= prev);
    } else {
        assert(weighted_shares(stakes, pool, total)->Ok_0.0 =~= Seq::<i128>::empty());
    }
}

/// The Precision payouts add up to exactly the payout pool: what the
/// shares leave goes to the first winner, so nothing is created or lost.
pub proof fn law_precision_shares_conserve(policy: PrecisionPayoutPolicy, stakes: Seq<i128>, pool: i128)
    requires
        precision_shares(policy, stakes, pool) is Ok,
        stakes.len() > 0,
    ensures
        precision_shares(policy, stakes, pool)->Ok_0.len() == stakes.len(),
        crate::settlement_math::sum_amounts(precision_shares(policy, stakes, pool)->Ok_0) == pool,
{
    lemma_base_shares_len(policy, stakes, pool);
    let (shares, paid) = base_shares(policy, stakes, pool)->Ok_0;
    match policy {
        PrecisionPayoutPolicy::Equal => {
            let per = div_trunc(pool as int, stakes.len() as int);
            lemma_constant_sum(per as i128, stakes.len());
            assert(shares =~= Seq::new(stakes.len(), |i: int| per as i128));
        },
        PrecisionPayoutPolicy::StakeWeighted => {
            let t = checked_sum(stakes)->Ok_0;
            if t > 0 {
                lemma_weighted_sum(stakes, pool, t);
            } else {
                lemma_constant_sum(0i128, stakes.len());
                assert(shares =~= Seq::new(stakes.len(), |i: int| 0i128));
            }
        },
    }
    let first = (shares[0] + (pool - paid)) as i128;
    crate::settlement_laws::lemma_sum_update(shares, 0, first);
}

proof fn lemma_weighted_len(stakes: Seq<i128>, pool: i128, total: i128)
    requires
        weighted_shares(stakes, pool, total) is Ok,
    ensures
        weighted_shares(stakes, pool, total)->Ok_0.0.len() == stakes.len(),
    decreases stakes.len(),
{
    if stakes.len() > 0 {
        lemma_weighted_len(stakes.drop_last(), pool, total);
    }
}

proof fn lemma_base_shares_len(policy: PrecisionPayoutPolicy, stakes: Seq<i128>, pool: i128)
    requires
        base_shares(policy, stakes, pool) is Ok,
    ensures
        base_shares(policy, stakes, pool)->Ok_0.0.len() == stakes.len(),
{
    if policy == PrecisionPayoutPolicy::StakeWeighted {
        let t = checked_sum(stakes)->Ok_0;
        if t > 0 {
            lemma_weighted_len(stakes, pool, t);
        }
    }
}


// ─── Precision payout ───────────────────────────────────────────────────────

/// A participant's Precision stake: the revealed prediction's, else the
/// commitment's, else nothing.
pub open spec fn precision_stake(u: UserRoundState) -> i128 {
    match u.prediction {
        Some(p) => p.amount,
        None => match u.commitment {
            Some(c) => c.amount,
            None => 0,
        },
    }
}

/// The stakes of all participants, in order.
pub open spec fn precision_stakes(users: Seq<UserRoundState>) -> Seq<i128> {
    Seq::new(users.len(), |i: int| precision_stake(users[i]))
}

/// The smallest distance of a revealed prediction to the final price.
pub open spec fn closest_distance(users: Seq<UserRoundState>, final_price: u128) -> Option<u128>
    decreases users.len(),
{
    if users.len() == 0 {
        None
    } else {
        let prev = closest_distance(users.drop_last(), final_price);
        match users.last().prediction {
            None => prev,
            Some(p) => {
                let d = abs_diff(p.predicted_price, final_price);
                match prev {
                    None => Some(d),
                    Some(m) => if d < m {
                        Some(d)
                    } else {
                        Some(m)
                    },
                }
            },
        }
    }
}

/// Whether a participant is among the closest revealed predictions.
pub open spec fn is_closest(u: UserRoundState, final_price: u128, best: Option<u128>) -> bool {
    match (u.prediction, best) {
        (Some(p), Some(m)) => abs_diff(p.predicted_price, final_price) == m,
        _ => false,
    }
}

/// The winners' stakes, in participant order.
pub open spec fn closest_stakes(users: Seq<UserRoundState>, final_price: u128, best: Option<u128>) -> Seq<i128>
    decreases users.len(),
{
    if users.len() == 0 {
        Seq::empty()
    } else {
        let prev = closest_stakes(users.drop_last(), final_price, best);
        if is_closest(users.last(), final_price, best) {
            prev.push(precision_stake(users.last()))
        } else {
            prev
        }
    }
}

/// The winners' records after their payouts (the k-th winner receives the
/// k-th payout and scores a win), in participant order; others untouched.
pub open spec fn winner_pass(
    users: Seq<UserRoundState>,
    pendings: Seq<i128>,
    stats: Seq<Option<UserStats>>,
    payouts: Seq<i128>,
    final_price: u128,
    best: Option<u128>,
    cap: Option<i128>,
) -> Result<(Seq<i128>, Seq<Option<UserStats>>), ContractError>
    decreases users.len(),
{
    if users.len() == 0 {
        Ok((Seq::empty(), Seq::empty()))
    } else {
        match winner_pass(users.drop_last(), pendings, stats, payouts, final_price, best, cap) {
            Err(e) => Err(e),
            Ok((ps, ss)) => {
                let i = users.len() - 1;
                if is_closest(users.last(), final_price, best) {
                    let k = closest_stakes(users.drop_last(), final_price, best).len();
                    match pending_accumulated(pendings[i], payouts[k as int], cap) {
                        Err(e) => Err(e),
                        Ok(np) => match stats_after_win(stats[i]) {
                            Err(e) => Err(e),
                            Ok(ns) => Ok((ps.push(np), ss.push(Some(ns)))),
                        },
                    }
                } else {
                    Ok((ps.push(pendings[i]), ss.push(stats[i])))
                }
            },
        }
    }
}

/// Every other participant then scores a loss, in participant order.
pub open spec fn loser_pass(
    users: Seq<UserRoundState>,
    stats: Seq<Option<UserStats>>,
    final_price: u128,
    best: Option<u128>,
) -> Result<Seq<Option<UserStats>>, ContractError>
    decreases users.len(),
{
    if users.len() == 0 {
        Ok(Seq::empty())
    } else {
        match loser_pass(users.drop_last(), stats, final_price, best) {
            Err(e) => Err(e),
            Ok(ss) => {
                let i = users.len() - 1;
                if is_closest(users.last(), final_price, best) {
                    Ok(ss.push(stats[i]))
                } else {
                    match stats_after_loss(stats[i]) {
                        Err(e) => Err(e),
                        Ok(ns) => Ok(ss.push(Some(ns))),
                    }
                }
            },
        }
    }
}

/// The outcome of paying out a Precision round at `final_price`: the
/// closest revealed predictions (ties included) share the pot after the
/// protocol fee and score wins, every other participant (unrevealed ones
/// included, whose stakes are forfeited to the pot) scores a loss; when
/// nobody revealed, every stake is refunded.
pub open spec fn precision_settlement(
    final_price: u128,
    fee_bps: Option<u32>,
    fee_model: FeeModel,
    fees: FeeLedger,
    policy: PrecisionPayoutPolicy,
    users: Seq<UserRoundState>,
    pendings: Seq<i128>,
    stats: Seq<Option<UserStats>>,
    cap: Option<i128>,
) -> Result<(Seq<i128>, Seq<Option<UserStats>>, FeeLedger, i128), ContractError> {
    let best = closest_distance(users, final_price);
    let winners = closest_stakes(users, final_price, best);
    match checked_sum(precision_stakes(users)) {
        Err(e) => Err(e),
        Ok(pot) => if winners.len() > 0 && pot > 0 {
            match checked_sum(winners) {
                Err(e) => Err(e),
                Ok(ws) => match protocol_fee_precision(fee_bps, fee_model, pot, ws) {
                    Err(e) => Err(e),
                    Ok((pool, fee)) => {
                        let collected = if fee > 0 {
                            fee_collected(fees, fee)
                        } else {
                            Ok(fees)
                        };
                        match collected {
                            Err(e) => Err(e),
                            Ok(nf) => match precision_shares(policy, winners, pool) {
                                Err(e) => Err(e),
                                Ok(pays) => match winner_pass(users, pendings, stats, pays, final_price, best, cap) {
                                    Err(e) => Err(e),
                                    Ok((ps, ss1)) => match loser_pass(users, ss1, final_price, best) {
                                        Err(e) => Err(e),
                                        Ok(ss2) => Ok((ps, ss2, nf, fee)),
                                    },
                                },
                            },
                        }
                    },
                },
            }
        } else if pot > 0 {
            match refunded(RoundMode::Precision, users, pendings, cap) {
                Err(e) => Err(e),
                Ok(ps) => Ok((ps, stats, fees, 0)),
            }
        } else {
            Ok((pendings, stats, fees, 0))
        },
    }
}

/// The payout passes once the shares are known.
pub open spec fn precision_tail(
    users: Seq<UserRoundState>,
    pendings: Seq<i128>,
    stats: Seq<Option<UserStats>>,
    pays: Seq<i128>,
    final_price: u128,
    best: Option<u128>,
    cap: Option<i128>,
    nf: FeeLedger,
    fee: i128,
) -> Result<(Seq<i128>, Seq<Option<UserStats>>, FeeLedger, i128), ContractError> {
    match winner_pass(users, pendings, stats, pays, final_price, best, cap) {
        Err(e) => Err(e),
        Ok((ps, ss1)) => match loser_pass(users, ss1, final_price, best) {
            Err(e) => Err(e),
            Ok(ss2) => Ok((ps, ss2, nf, fee)),
        },
    }
}

proof fn lemma_precision_shares_len(policy: PrecisionPayoutPolicy, stakes: Seq<i128>, pool: i128)
    requires
        precision_shares(policy, stakes, pool) is Ok,
    ensures
        precision_shares(policy, stakes, pool)->Ok_0.len() == stakes.len(),
{
    lemma_base_shares_len(policy, stakes, pool);
}

proof fn lemma_winner_pass_len(
    users: Seq<UserRoundState>,
    pendings: Seq<i128>,
    stats: Seq<Option<UserStats>>,
    payouts: Seq<i128>,
    final_price: u128,
    best: Option<u128>,
    cap: Option<i128>,
)
    requires
        winner_pass(users, pendings, stats, payouts, final_price, best, cap) is Ok,
    ensures
        winner_pass(users, pendings, stats, payouts, final_price, best, cap)->Ok_0.0.len() == users.len(),
        winner_pass(users, pendings, stats, payouts, final_price, best, cap)->Ok_0.1.len() == users.len(),
    decreases users.len(),
{
    if users.len() > 0 {
        lemma_winner_pass_len(users.drop_last(), pendings, stats, payouts, final_price, best, cap);
    }
}

fn find_closest(users: &Vec<UserRoundState>, final_price: u128) -> (m: Option<u128>)
    ensures
        m == closest_distance(users@, final_price),
{
    let mut best: Option<u128> = None;
    let mut i: usize = 0;
    while i < users.len()
        invariant
            i <= users@.len(),
            best == closest_distance(users@.take(i as int), final_price),
        decreases users@.len() - i,
    {
        proof {
            assert(users@.take(i + 1).drop_last() =~= users@.take(i as int));
        }
        if let Some(p) = users[i].prediction {
            let d = if p.predicted_price >= final_price {
                p.predicted_price - final_price
            } else {
                final_price - p.predicted_price
            };
            best = match best {
                None => Some(d),
                Some(m) => if d < m {
                    Some(d)
                } else {
                    Some(m)
                },
            };
        }
        i = i + 1;
    }
    proof {
        assert(users@.take(users@.len() as int) =~= users@);
    }
    best
}

fn closest(u: &UserRoundState, final_price: u128, best: Option<u128>) -> (b: bool)
    ensures
        b == is_closest(*u, final_price, best),
{
    match (u.prediction, best) {
        (Some(p), Some(m)) => {
            let d = if p.predicted_price >= final_price {
                p.predicted_price - final_price
            } else {
                final_price - p.predicted_price
            };
            d == m
        },
        _ => false,
    }
}

fn stake_of(u: &UserRoundState) -> (a: i128)
    ensures
        a == precision_stake(*u),
{
    match u.prediction {
        Some(p) => p.amount,
        None => match u.commitment {
            Some(c) => c.amount,
            None => 0,
        },
    }
}

fn collect_precision_stakes(users: &Vec<UserRoundState>) -> (r: Vec<i128>)
    ensures
        r@ == precision_stakes(users@),
{
    let mut out: Vec<i128> = Vec::new();
    let mut i: usize = 0;
    while i < users.len()
        invariant
            i <= users@.len(),
            out@ == precision_stakes(users@).take(i as int),
        decreases users@.len() - i,
    {
        out.push(stake_of(&users[i]));
        i = i + 1;
        proof {
            assert(out@ =~= precision_stakes(users@).take(i as int));
        }
    }
    proof {
        assert(precision_stakes(users@).take(users@.len() as int) =~= precision_stakes(users@));
    }
    out
}

fn collect_closest_stakes(users: &Vec<UserRoundState>, final_price: u128, best: Option<u128>) -> (r: Vec<i128>)
    ensures
        r@ == closest_stakes(users@, final_price, best),
{
    let mut out: Vec<i128> = Vec::new();
    let mut i: usize = 0;
    while i < users.len()
        invariant
            i <= users@.len(),
            out@ == closest_stakes(users@.take(i as int), final_price, best),
        decreases users@.len() - i,
    {
        proof {
            assert(users@.take(i + 1).drop_last() =~= users@.take(i as int));
        }
        if closest(&users[i], final_price, best) {
            out.push(stake_of(&users[i]));
        }
        i = i + 1;
    }
    proof {
        assert(users@.take(users@.len() as int) =~= users@);
    }
    out
}

fn sum_checked(s: &Vec<i128>) -> (r: Result<i128, ContractError>)
    ensures
        r == checked_sum(s@),
{
    let mut t: i128 = 0;
    let mut i: usize = 0;
    while i < s.len()
        invariant
            i <= s@.len(),
            checked_sum(s@.take(i as int)) == Ok::<i128, ContractError>(t),
        decreases s@.len() - i,
    {
        proof {
            assert(s@.take(i + 1).drop_last() =~= s@.take(i as int));
        }
        t = match payout_add(t, s[i]) {
            Ok(v) => v,
            Err(e) => {
                proof {
                    lemma_checked_sum_err_stays(s@, i + 1);
                }
                return Err(e);
            },
        };
        i = i + 1;
    }
    proof {
        assert(s@.take(s@.len() as int) =~= s@);
    }
    Ok(t)
}

proof fn lemma_winner_pass_err_stays(
    users: Seq<UserRoundState>,
    pendings: Seq<i128>,
    stats: Seq<Option<UserStats>>,
    payouts: Seq<i128>,
    final_price: u128,
    best: Option<u128>,
    cap: Option<i128>,
    i: int,
)
    requires
        0 <= i <= users.len(),
        winner_pass(users.take(i), pendings, stats, payouts, final_price, best, cap) is Err,
    ensures
        winner_pass(users, pendings, stats, payouts, final_price, best, cap) == winner_pass(
            users.take(i),
            pendings,
            stats,
            payouts,
            final_price,
            best,
            cap,
        ),
    decreases users.len() - i,
{
    if i < users.len() {
        assert(users.take(i + 1).drop_last() =~= users.take(i));
        lemma_winner_pass_err_stays(users, pendings, stats, payouts, final_price, best, cap, i + 1);
    } else {
        assert(users.take(i) =~= users);
    }
}

proof fn lemma_loser_pass_err_stays(
    users: Seq<UserRoundState>,
    stats: Seq<Option<UserStats>>,
    final_price: u128,
    best: Option<u128>,
    i: int,
)
    requires
        0 <= i <= users.len(),
        loser_pass(users.take(i), stats, final_price, best) is Err,
    ensures
        loser_pass(users, stats, final_price, best) == loser_pass(users.take(i), stats, final_price, best),
    decreases users.len() - i,
{
    if i < users.len() {
        assert(users.take(i + 1).drop_last() =~= users.take(i));
        lemma_loser_pass_err_stays(users, stats, final_price, best, i + 1);
    } else {
        assert(users.take(i) =~= users);
    }
}

proof fn lemma_closest_stakes_prefix_len(users: Seq<UserRoundState>, final_price: u128, best: Option<u128>, i: int)
    requires
        0 <= i <= users.len(),
    ensures
        closest_stakes(users.take(i), final_price, best).len() <= closest_stakes(users, final_price, best).len(),
        i < users.len() && is_closest(users[i], final_price, best) ==> closest_stakes(users.take(i), final_price, best).len()
            < closest_stakes(users, final_price, best).len(),
    decreases users.len() - i,
{
    if i < users.len() {
        lemma_closest_stakes_prefix_len(users, final_price, best, i + 1);
        assert(users.take(i + 1).drop_last() =~= users.take(i));
        assert(users.take(i + 1).last() == users[i]);
    } else {
        assert(users.take(i) =~= users);
    }
}

/// What a Precision payout writes.
#[derive(Clone, Debug)]
pub struct PrecisionSettlement {
    pub pendings: Vec<i128>,
    pub stats: Vec<Option<UserStats>>,
    pub fees: FeeLedger,
    pub fee: i128,
}

/// Pays out a Precision round at the accepted price.
pub fn _resolve_precision_mode(
    final_price: u128,
    fee_bps: Option<u32>,
    fee_model: FeeModel,
    fees: FeeLedger,
    policy: PrecisionPayoutPolicy,
    users: &Vec<UserRoundState>,
    pendings: &Vec<i128>,
    stats: &Vec<Option<UserStats>>,
    cap: Option<i128>,
) -> (r: Result<PrecisionSettlement, ContractError>)
    requires
        users@.len() == pendings@.len(),
        users@.len() == stats@.len(),
    ensures
        match precision_settlement(final_price, fee_bps, fee_model, fees, policy, users@, pendings@, stats@, cap) {
            Err(e) => r is Err && r->Err_0 == e,
            Ok((ps, ss, nf, fee)) => r is Ok && r->Ok_0.pendings@ == ps && r->Ok_0.stats@ == ss
                && r->Ok_0.fees == nf && r->Ok_0.fee == fee,
        },
{
    let best = find_closest(users, final_price);
    let all_stakes = collect_precision_stakes(users);
    let pot = sum_checked(&all_stakes)?;
    let winners = collect_closest_stakes(users, final_price, best);
    if winners.len() > 0 && pot > 0 {
        let ws = sum_checked(&winners)?;
        let (pool, fee) = calculate_protocol_fee_precision(fee_bps, fee_model, pot, ws)?;
        let nf = if fee > 0 {
            _collect_protocol_fee(fees, fee)?
        } else {
            fees
        };
        proof {
            lemma_closest_stakes_prefix_len(users@, final_price, best, 0);
        }
        let pays = _calculate_precision_payouts(policy, &winners, pool)?;
        proof {
            lemma_precision_shares_len(policy, winners@, pool);
            assert(precision_settlement(final_price, fee_bps, fee_model, fees, policy, users@, pendings@, stats@, cap)
                == precision_tail(users@, pendings@, stats@, pays@, final_price, best, cap, nf, fee));
        }
        let mut ps: Vec<i128> = Vec::new();
        let mut ss1: Vec<Option<UserStats>> = Vec::new();
        let mut k: usize = 0;
        let mut i: usize = 0;
        while i < users.len()
            invariant
                users@.len() == pendings@.len(),
                users@.len() == stats@.len(),
                pays@.len() == winners@.len(),
                winners@ == closest_stakes(users@, final_price, best),
                precision_settlement(final_price, fee_bps, fee_model, fees, policy, users@, pendings@, stats@, cap)
                    == precision_tail(users@, pendings@, stats@, pays@, final_price, best, cap, nf, fee),
                i <= users@.len(),
                k == closest_stakes(users@.take(i as int), final_price, best).len(),
                winner_pass(users@.take(i as int), pendings@, stats@, pays@, final_price, best, cap)
                    == Ok::<(Seq<i128>, Seq<Option<UserStats>>), ContractError>((ps@, ss1@)),
            decreases users@.len() - i,
        {
            proof {
                assert(users@.take(i + 1).drop_last() =~= users@.take(i as int));
                assert(users@.take(i + 1).last() == users@[i as int]);
                lemma_closest_stakes_prefix_len(users@, final_price, best, i as int);
            }
            if closest(&users[i], final_price, best) {
                let np = match _accumulate_pending(pendings[i], pays[k], cap) {
                    Ok(v) => v,
                    Err(e) => {
                        proof {
                            lemma_winner_pass_err_stays(users@, pendings@, stats@, pays@, final_price, best, cap, i + 1);
                        }
                        return Err(e);
                    },
                };
                let ns = match _update_stats_win(stats[i]) {
                    Ok(v) => v,
                    Err(e) => {
                        proof {
                            lemma_winner_pass_err_stays(users@, pendings@, stats@, pays@, final_price, best, cap, i + 1);
                        }
                        return Err(e);
                    },
                };
                ps.push(np);
                ss1.push(Some(ns));
                k = k + 1;
            } else {
                ps.push(pendings[i]);
                ss1.push(stats[i]);
            }
            i = i + 1;
        }
        proof {
            assert(users@.take(users@.len() as int) =~= users@);
            lemma_winner_pass_len(users@, pendings@, stats@, pays@, final_price, best, cap);
        }
        let ghost ss1_view = ss1@;
        let ghost ps_view = ps@;
        let mut ss2: Vec<Option<UserStats>> = Vec::new();
        let mut j: usize = 0;
        while j < users.len()
            invariant
                users@.len() == ss1@.len(),
                ss1@ == ss1_view,
                ps@ == ps_view,
                precision_settlement(final_price, fee_bps, fee_model, fees, policy, users@, pendings@, stats@, cap)
                    == match loser_pass(users@, ss1_view, final_price, best) {
                    Err(e) => Err(e),
                    Ok(ss2) => Ok((ps_view, ss2, nf, fee)),
                },
                j <= users@.len(),
                loser_pass(users@.take(j as int), ss1_view, final_price, best) == Ok::<
                    Seq<Option<UserStats>>,
                    ContractError,
                >(ss2@),
            decreases users@.len() - j,
        {
            proof {
                assert(users@.take(j + 1).drop_last() =~= users@.take(j as int));
                assert(users@.take(j + 1).last() == users@[j as int]);
            }
            if closest(&users[j], final_price, best) {
                ss2.push(ss1[j]);
            } else {
                let ns = match _update_stats_loss(ss1[j]) {
                    Ok(v) => v,
                    Err(e) => {
                        proof {
                            lemma_loser_pass_err_stays(users@, ss1_view, final_price, best, j + 1);
                        }
                        return Err(e);
                    },
                };
                ss2.push(Some(ns));
            }
            j = j + 1;
        }
        proof {
            assert(users@.take(users@.len() as int) =~= users@);
        }
        return Ok(PrecisionSettlement { pendings: ps, stats: ss2, fees: nf, fee });
    }
    if pot > 0 {
        let ps = refund_participants(RoundMode::Precision, users, pendings, cap)?;
        let ss = copy_stats(stats);
        return Ok(PrecisionSettlement { pendings: ps, stats: ss, fees, fee: 0 });
    }
    let ps = copy_pendings(pendings);
    let ss = copy_stats(stats);
    Ok(PrecisionSettlement { pendings: ps, stats: ss, fees, fee: 0 })
}

fn copy_stats(stats: &Vec<Option<UserStats>>) -> (r: Vec<Option<UserStats>>)
    ensures
        r@ == stats@,
{
    let mut out: Vec<Option<UserStats>> = Vec::new();
    let mut i: usize = 0;
    while i < stats.len()
        invariant
            i <= stats@.len(),
            out@ == stats@.take(i as int),
        decreases stats@.len() - i,
    {
        out.push(stats[i]);
        i = i + 1;
        proof {
            assert(out@ =~= stats@.take(i as int));
        }
    }
    proof {
        assert(stats@.take(stats@.len() as int) =~= stats@);
    }
    out
}

fn copy_pendings(pendings: &Vec<i128>) -> (r: Vec<i128>)
    ensures
        r@ == pendings@,
{
    let mut out: Vec<i128> = Vec::new();
    let mut i: usize = 0;
    while i < pendings.len()
        invariant
            i <= pendings@.len(),
            out@ == pendings@.take(i as int),
        decreases pendings@.len() - i,
    {
        out.push(pendings[i]);
        i = i + 1;
        proof {
            assert(out@ =~= pendings@.take(i as int));
        }
    }
    proof {
        assert(pendings@.take(pendings@.len() as int) =~= pendings@);
    }
    out
}


// ─── Archive retention ──────────────────────────────────────────────────────

/// The recent-archive list after pruning down to `limit`: while it is too
/// long, its oldest id is pruned (its archive entry removed) and the two
/// oldest ids leave the list. Returns the list and the pruned ids.
pub open spec fn pruned_archive(recent: Seq<u64>, limit: nat) -> (Seq<u64>, Seq<u64>)
    decreases recent.len(),
{
    if recent.len() > limit && recent.len() > 0 {
        let rest = if recent.len() >= 2 {
            recent.subrange(2, recent.len() as int)
        } else {
            Seq::empty()
        };
        let (r, p) = pruned_archive(rest, limit);
        (r, seq![recent[0]] + p)
    } else {
        (recent, Seq::empty())
    }
}

/// Appends a newly archived round to the recent-archive list and prunes it
/// to the retention limit (the default when unset). Returns the new list
/// and the ids whose archive entries are to be removed.
pub fn prune_archive(recent: Vec<u64>, round_id: u64, retention: Option<u32>) -> (r: (
    Vec<u64>,
    Vec<u64>,
))
    ensures
        ({
            let (l, p) = pruned_archive(
                recent@.push(round_id),
                retention.unwrap_or(DEFAULT_ARCHIVE_RETENTION) as nat,
            );
            r.0@ == l && r.1@ == p
        }),
{
    let limit = retention.unwrap_or(DEFAULT_ARCHIVE_RETENTION);
    let mut list = recent;
    list.push(round_id);
    let ghost full = list@;
    let mut pruned: Vec<u64> = Vec::new();
    while list.len() > limit as usize
        invariant
            pruned_archive(full, limit as nat) == (
                pruned_archive(list@, limit as nat).0,
                pruned@ + pruned_archive(list@, limit as nat).1,
            ),
        decreases list@.len(),
    {
        let ghost before = list@;
        let oldest = list[0];
        pruned.push(oldest);
        list.remove(0);
        if list.len() > 0 {
            list.remove(0);
        }
        proof {
            let rest = if before.len() >= 2 {
                before.subrange(2, before.len() as int)
            } else {
                Seq::empty()
            };
            assert(list@ =~= rest);
            let (r2, p2) = pruned_archive(rest, limit as nat);
            assert(pruned_archive(before, limit as nat) == (r2, seq![before[0]] + p2));
            assert(pruned@ =~= pruned@.drop_last().push(oldest));
            assert(pruned@.drop_last() + (seq![before[0]] + p2) =~= pruned@ + p2);
        }
    }
    proof {
        assert(pruned_archive(list@, limit as nat) == (list@, Seq::<u64>::empty()));
        assert(pruned@ + Seq::<u64>::empty() =~= pruned@);
    }
    (list, pruned)
}

/// After pruning, the list respects the retention limit.
pub proof fn law_archive_within_retention(recent: Seq<u64>, limit: nat)
    ensures
        pruned_archive(recent, limit).0.len() <= limit || pruned_archive(recent, limit).0.len() == 0,
        pruned_archive(recent, limit).0.len() <= recent.len(),
    decreases recent.len(),
{
    if recent.len() > limit && recent.len() > 0 {
        let rest = if recent.len() >= 2 {
            recent.subrange(2, recent.len() as int)
        } else {
            Seq::empty()
        };
        law_archive_within_retention(rest, limit);
    }
}


/// The distance between a predicted and a final price, as an integer.
pub open spec fn price_distance(predicted: u128, final_price: u128) -> int {
    if predicted >= final_price {
        predicted - final_price
    } else {
        final_price - predicted
    }
}

/// The best distance used to pick Precision winners is the least distance
/// of any revealed prediction: there is one exactly when someone revealed,
/// it is attained by a revealed prediction, and no revealed prediction is
/// closer.
pub proof fn law_closest_distance_is_minimum(users: Seq<UserRoundState>, final_price: u128)
    ensures
        closest_distance(users, final_price) is Some <==> exists|i: int|
            0 <= i < users.len() && (#[trigger] users[i]).prediction is Some,
        forall|i: int|
            0 <= i < users.len() && (#[trigger] users[i]).prediction is Some
                ==> closest_distance(users, final_price)->0 <= price_distance(
                users[i].prediction->0.predicted_price,
                final_price,
            ),
        closest_distance(users, final_price) is Some ==> exists|i: int|
            0 <= i < users.len() && (#[trigger] users[i]).prediction is Some
                && closest_distance(users, final_price)->0 == price_distance(
                users[i].prediction->0.predicted_price,
                final_price,
            ),
    decreases users.len(),
{
    if users.len() > 0 {
        let prev = users.drop_last();
        law_closest_distance_is_minimum(prev, final_price);
        let n = users.len() - 1;
        assert forall|i: int| 0 <= i < n implies #[trigger] users[i] == prev[i] by {}
        if closest_distance(prev, final_price) is Some {
            let w = choose|i: int|
                0 <= i < prev.len() && (#[trigger] prev[i]).prediction is Some
                    && closest_distance(prev, final_price)->0 == price_distance(
                    prev[i].prediction->0.predicted_price,
                    final_price,
                );
            assert(users[w] == prev[w]);
        }
        if users[n].prediction is Some {
            assert(users.last() == users[n]);
        } else {
            if exists|i: int| 0 <= i < users.len() && (#[trigger] users[i]).prediction is Some {
                let i = choose|i: int| 0 <= i < users.len() && (#[trigger] users[i]).prediction is Some;
                assert(i < n);
                assert(prev[i] == users[i]);
            }
        }
    }
}

/// Each Precision winner is no farther from the final price than any
/// revealed prediction, every revealed prediction at that least distance
/// wins (ties all win), and someone wins whenever someone revealed.
pub proof fn law_precision_winners_are_closest(users: Seq<UserRoundState>, final_price: u128)
    ensures
        forall|j: int|
            0 <= j < users.len() && (#[trigger] users[j]).prediction is Some && (forall|k: int|
                0 <= k < users.len() && (#[trigger] users[k]).prediction is Some
                    ==> price_distance(users[j].prediction->0.predicted_price, final_price)
                    <= price_distance(users[k].prediction->0.predicted_price, final_price))
                ==> is_closest(users[j], final_price, closest_distance(users, final_price)),
        forall|i: int, j: int|
            0 <= i < users.len() && 0 <= j < users.len() && is_closest(
                #[trigger] users[i],
                final_price,
                closest_distance(users, final_price),
            ) && (#[trigger] users[j]).prediction is Some ==> price_distance(
                users[i].prediction->0.predicted_price,
                final_price,
            ) <= price_distance(users[j].prediction->0.predicted_price, final_price),
        (exists|j: int| 0 <= j < users.len() && (#[trigger] users[j]).prediction is Some)
            ==> exists|i: int|
            0 <= i < users.len() && is_closest(
                #[trigger] users[i],
                final_price,
                closest_distance(users, final_price),
            ),
{
    law_closest_distance_is_minimum(users, final_price);
    assert forall|i: int, j: int|
        0 <= i < users.len() && 0 <= j < users.len() && is_closest(
            #[trigger] users[i],
            final_price,
            closest_distance(users, final_price),
        ) && (#[trigger] users[j]).prediction is Some implies price_distance(
        users[i].prediction->0.predicted_price,
        final_price,
    ) <= price_distance(users[j].prediction->0.predicted_price, final_price) by {
        assert(users[j].prediction is Some);
    }
    assert forall|j: int|
        0 <= j < users.len() && (#[trigger] users[j]).prediction is Some && (forall|k: int|
            0 <= k < users.len() && (#[trigger] users[k]).prediction is Some
                ==> price_distance(users[j].prediction->0.predicted_price, final_price)
                <= price_distance(users[k].prediction->0.predicted_price, final_price))
        implies is_closest(users[j], final_price, closest_distance(users, final_price)) by {
        let w = choose|i: int|
            0 <= i < users.len() && (#[trigger] users[i]).prediction is Some
                && closest_distance(users, final_price)->0 == price_distance(
                users[i].prediction->0.predicted_price,
                final_price,
            );
        assert(users[w].prediction is Some);
    }
    if exists|j: int| 0 <= j < users.len() && (#[trigger] users[j]).prediction is Some {
        let i = choose|i: int|
            0 <= i < users.len() && (#[trigger] users[i]).prediction is Some
                && closest_distance(users, final_price)->0 == price_distance(
                users[i].prediction->0.predicted_price,
                final_price,
            );
        assert(is_closest(users[i], final_price, closest_distance(users, final_price)));
    }
}


proof fn lemma_winner_pass_keeps_others(
    users: Seq<UserRoundState>,
    pendings: Seq<i128>,
    stats: Seq<Option<UserStats>>,
    payouts: Seq<i128>,
    final_price: u128,
    best: Option<u128>,
    cap: Option<i128>,
)
    requires
        winner_pass(users, pendings, stats, payouts, final_price, best, cap) is Ok,
    ensures
        ({
            let ps = winner_pass(users, pendings, stats, payouts, final_price, best, cap)->Ok_0.0;
            &&& ps.len() == users.len()
            &&& forall|i: int|
                0 <= i < users.len() && !is_closest(#[trigger] users[i], final_price, best)
                    ==> ps[i] == pendings[i]
        }),
    decreases users.len(),
{
    if users.len() > 0 {
        let prev = users.drop_last();
        lemma_winner_pass_keeps_others(prev, pendings, stats, payouts, final_price, best, cap);
        assert forall|i: int| 0 <= i < users.len() - 1 implies #[trigger] users[i] == prev[i] by {}
    }
}

/// Settling a Precision round in which someone revealed pays only the
/// closest revealed predictions: a participant whose pending winnings
/// change revealed a prediction no farther from the final price than any
/// other revealed prediction.
pub proof fn law_precision_settlement_pays_only_closest(
    final_price: u128,
    fee_bps: Option<u32>,
    fee_model: FeeModel,
    fees: FeeLedger,
    policy: PrecisionPayoutPolicy,
    users: Seq<UserRoundState>,
    pendings: Seq<i128>,
    stats: Seq<Option<UserStats>>,
    cap: Option<i128>,
    i: int,
)
    requires
        users.len() == pendings.len(),
        0 <= i < users.len(),
        exists|j: int| 0 <= j < users.len() && (#[trigger] users[j]).prediction is Some,
        precision_settlement(final_price, fee_bps, fee_model, fees, policy, users, pendings, stats, cap)
            is Ok,
        precision_settlement(final_price, fee_bps, fee_model, fees, policy, users, pendings, stats, cap)->Ok_0.0[i]
            != pendings[i],
    ensures
        users[i].prediction is Some,
        forall|k: int|
            0 <= k < users.len() && (#[trigger] users[k]).prediction is Some ==> price_distance(
                users[i].prediction->0.predicted_price,
                final_price,
            ) <= price_distance(users[k].prediction->0.predicted_price, final_price),
{
    let best = closest_distance(users, final_price);
    law_precision_winners_are_closest(users, final_price);
    lemma_closest_stakes_nonempty(users, final_price);
    let winners = closest_stakes(users, final_price, best);
    let pot = checked_sum(precision_stakes(users))->Ok_0;
    assert(winners.len() > 0);
    assert(pot > 0);
    let ws = checked_sum(winners)->Ok_0;
    let (pool, fee) = protocol_fee_precision(fee_bps, fee_model, pot, ws)->Ok_0;
    let pays = precision_shares(policy, winners, pool)->Ok_0;
    lemma_winner_pass_keeps_others(users, pendings, stats, pays, final_price, best, cap);
    assert(is_closest(users[i], final_price, best));
}

proof fn lemma_closest_stakes_nonempty(users: Seq<UserRoundState>, final_price: u128)
    requires
        exists|j: int|
            0 <= j < users.len() && is_closest(
                #[trigger] users[j],
                final_price,
                closest_distance(users, final_price),
            ),
    ensures
        closest_stakes(users, final_price, closest_distance(users, final_price)).len() > 0,
{
    let best = closest_distance(users, final_price);
    let j = choose|j: int| 0 <= j < users.len() && is_closest(#[trigger] users[j], final_price, best);
    lemma_closest_stakes_count(users, final_price, best, j);
}

proof fn lemma_closest_stakes_count(users: Seq<UserRoundState>, final_price: u128, best: Option<u128>, j: int)
    requires
        0 <= j < users.len(),
        is_closest(users[j], final_price, best),
    ensures
        closest_stakes(users, final_price, best).len() > 0,
    decreases users.len(),
{
    if j < users.len() - 1 {
        let prev = users.drop_last();
        assert(prev[j] == users[j]);
        lemma_closest_stakes_count(prev, final_price, best, j);
    }
}
} // verus!
