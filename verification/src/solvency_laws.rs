//! Solvency of settlement: in Up/Down rounds what the participants are
//! credited and the protocol fee together never exceed what the two pools
//! hold; in Precision rounds they make up exactly the pot.
use vstd::prelude::*;

use crate::betting::UserRoundState;
use crate::common::pending_accumulated;
use crate::config::{protocol_fee_precision, protocol_fee_updown, FeeModel};
use crate::insurance::{law_fee_collection_conserves, FeeLedger};
use crate::math_common::{div_trunc, payout_add_spec};
use crate::round::{BetSide, Round, RoundMode};
use crate::settlement::{
    checked_sum, closest_distance, closest_stakes, is_closest, law_precision_shares_conserve,
    precision_settlement, precision_shares, precision_stake, precision_stakes, refund_due,
    refunded, updown_credit, updown_credits, updown_settlement, winner_pass, UserStats,
};
use crate::settlement_laws::lemma_sum_nonneg;
use crate::settlement_math::{
    one_sided, price_direction, sum_amounts, updown_winner_payout, PrecisionPayoutPolicy,
    PriceDirection,
};

verus! {

/// The stake held on `side` by the participants' Up/Down positions.
pub open spec fn side_stake(users: Seq<UserRoundState>, side: BetSide) -> int
    decreases users.len(),
{
    if users.len() == 0 {
        0
    } else {
        side_stake(users.drop_last(), side) + match users.last().position {
            Some(p) => if p.side == side {
                p.amount as int
            } else {
                0
            },
            None => 0,
        }
    }
}

/// What the participants were credited: the growth of their pending
/// winnings, summed.
pub open spec fn credit_total(after: Seq<i128>, before: Seq<i128>) -> int
    decreases after.len(),
{
    if after.len() == 0 {
        0
    } else {
        credit_total(after.drop_last(), before) + (after.last() - before[after.len() - 1])
    }
}

/// Whether every Up/Down stake is non-negative.
pub open spec fn stakes_nonneg(users: Seq<UserRoundState>) -> bool {
    forall|i: int|
        0 <= i < users.len() ==> ((#[trigger] users[i]).position matches Some(p) ==> p.amount >= 0)
}

proof fn lemma_side_stake_nonneg(users: Seq<UserRoundState>, side: BetSide)
    requires
        stakes_nonneg(users),
    ensures
        side_stake(users, side) >= 0,
    decreases users.len(),
{
    if users.len() > 0 {
        assert(stakes_nonneg(users.drop_last())) by {
            assert forall|i: int| 0 <= i < users.drop_last().len() implies ((
            #[trigger] users.drop_last()[i]).position matches Some(p) ==> p.amount >= 0) by {
                assert(users.drop_last()[i] == users[i]);
            }
        }
        lemma_side_stake_nonneg(users.drop_last(), side);
        assert(users.last() == users[users.len() - 1]);
    }
}

proof fn lemma_credit_total_unchanged(after: Seq<i128>, before: Seq<i128>)
    requires
        after.len() <= before.len(),
        forall|i: int| 0 <= i < after.len() ==> after[i] == before[i],
    ensures
        credit_total(after, before) == 0,
    decreases after.len(),
{
    if after.len() > 0 {
        lemma_credit_total_unchanged(after.drop_last(), before);
    }
}

/// Refunding credits exactly the Up/Down stakes.
proof fn lemma_refund_credit_total(users: Seq<UserRoundState>, pendings: Seq<i128>, cap: Option<i128>)
    requires
        refunded(RoundMode::UpDown, users, pendings, cap) is Ok,
        users.len() <= pendings.len(),
    ensures
        refunded(RoundMode::UpDown, users, pendings, cap)->Ok_0.len() == users.len(),
        credit_total(refunded(RoundMode::UpDown, users, pendings, cap)->Ok_0, pendings) == side_stake(
            users,
            BetSide::Up,
        ) + side_stake(users, BetSide::Down),
    decreases users.len(),
{
    if users.len() > 0 {
        let prev_users = users.drop_last();
        lemma_refund_credit_total(prev_users, pendings, cap);
        let prev = refunded(RoundMode::UpDown, prev_users, pendings, cap)->Ok_0;
        let all = refunded(RoundMode::UpDown, users, pendings, cap)->Ok_0;
        assert(all.drop_last() =~= prev);
        let i = users.len() - 1;
        match refund_due(RoundMode::UpDown, users.last()) {
            None => {},
            Some(a) => {
                assert(pending_accumulated(pendings[i], a, cap) is Ok);
            },
        }
    }
}

/// A winner's payout, multiplied back by the winning pool, stays within its
/// share of what is distributed.
proof fn lemma_payout_within_share(stake: i128, wp: i128, total: i128)
    requires
        stake >= 0,
        wp > 0,
        total >= 0,
        updown_winner_payout(stake, wp, total) is Ok,
    ensures
        updown_winner_payout(stake, wp, total)->Ok_0 * wp <= stake * total,
        updown_winner_payout(stake, wp, total)->Ok_0 >= 0,
{
    let x = stake * total;
    assert(x >= 0) by (nonlinear_arith)
        requires
            stake >= 0,
            total >= 0,
            x == stake * total,
    ;
    if x > 0 {
        assert(div_trunc(x, wp as int) == x / (wp as int));
        assert((x / (wp as int)) * wp <= x && 0 <= x / (wp as int) <= x) by (nonlinear_arith)
            requires
                x > 0,
                wp > 0,
        ;
        assert(updown_winner_payout(stake, wp, total)->Ok_0 == x / (wp as int));
    } else {
        assert(div_trunc(x, wp as int) == 0);
        assert(updown_winner_payout(stake, wp, total)->Ok_0 == 0);
    }
}

proof fn lemma_credits_within_share(
    users: Seq<UserRoundState>,
    pendings: Seq<i128>,
    stats: Seq<Option<UserStats>>,
    side: BetSide,
    wp: i128,
    total: i128,
    cap: Option<i128>,
)
    requires
        updown_credits(users, pendings, stats, side, wp, total, cap) is Ok,
        users.len() <= pendings.len(),
        stakes_nonneg(users),
        wp > 0,
        total >= 0,
    ensures
        updown_credits(users, pendings, stats, side, wp, total, cap)->Ok_0.0.len() == users.len(),
        credit_total(updown_credits(users, pendings, stats, side, wp, total, cap)->Ok_0.0, pendings)
            * wp <= side_stake(users, side) * total,
    decreases users.len(),
{
    if users.len() > 0 {
        let prev_users = users.drop_last();
        assert(stakes_nonneg(prev_users)) by {
            assert forall|k: int| 0 <= k < prev_users.len() implies ((
            #[trigger] prev_users[k]).position matches Some(p) ==> p.amount >= 0) by {
                assert(prev_users[k] == users[k]);
            }
        }
        lemma_credits_within_share(prev_users, pendings, stats, side, wp, total, cap);
        let prev = updown_credits(prev_users, pendings, stats, side, wp, total, cap)->Ok_0.0;
        let all = updown_credits(users, pendings, stats, side, wp, total, cap)->Ok_0.0;
        assert(all.drop_last() =~= prev);
        let i = users.len() - 1;
        let u = users.last();
        assert(u == users[i]);
        let c_prev = credit_total(prev, pendings);
        let s_prev = side_stake(prev_users, side);
        assert(c_prev * wp <= s_prev * total);
        let step = all.last() - pendings[i];
        let add = match u.position {
            Some(p) => if p.side == side {
                p.amount as int
            } else {
                0
            },
            None => 0,
        };
        assert(updown_credit(u, pendings[i], stats[i], side, wp, total, cap) is Ok);
        match u.position {
            None => {
                assert(step == 0);
            },
            Some(p) => {
                if p.side == side {
                    lemma_payout_within_share(p.amount, wp, total);
                    let pay = updown_winner_payout(p.amount, wp, total)->Ok_0;
                    assert(pending_accumulated(pendings[i], pay, cap) is Ok);
                    assert(step == pay);
                    assert(step * wp <= add * total);
                } else {
                    assert(step == 0);
                }
            },
        }
        assert(step * wp <= add * total) by (nonlinear_arith)
            requires
                step == 0 ==> add * total >= 0,
                step != 0 ==> step * wp <= add * total,
                add >= 0,
                total >= 0,
        {
            if step == 0 {
                assert(add * total >= 0);
            }
        }
        assert((c_prev + step) * wp <= (s_prev + add) * total) by (nonlinear_arith)
            requires
                c_prev * wp <= s_prev * total,
                step * wp <= add * total,
        ;
    }
}

/// The fee of an Up/Down pot over non-negative pools with a fee of at most
/// the whole pot: non-negative, and what is left to distribute is the pot
/// less the fee.
proof fn lemma_fee_split(fee_bps: Option<u32>, model: FeeModel, wp: i128, lp: i128)
    requires
        wp >= 0,
        lp >= 0,
        fee_bps matches Some(b) ==> b <= 10_000,
        protocol_fee_updown(fee_bps, model, wp, lp) is Ok,
    ensures
        ({
            let (dw, dl, fee) = protocol_fee_updown(fee_bps, model, wp, lp)->Ok_0;
            &&& dw + dl + fee == wp + lp
            &&& fee >= 0
            &&& dw + dl >= 0
        }),
{
    match fee_bps {
        None => {},
        Some(b) => {
            match model {
                FeeModel::FeeOnPot => {
                    let total = wp + lp;
                    let x = total * b;
                    assert(0 <= x <= total * 10_000) by (nonlinear_arith)
                        requires
                            total >= 0,
                            0 <= b <= 10_000,
                            x == total * b,
                    ;
                    if x > 0 {
                        assert(div_trunc(x, 10_000) == x / 10_000);
                        assert(0 <= x / 10_000 <= total) by (nonlinear_arith)
                            requires
                                0 < x <= total * 10_000,
                        ;
                    }
                },
                FeeModel::FeeOnWinnings => {
                    let x = lp * b;
                    assert(0 <= x <= lp * 10_000) by (nonlinear_arith)
                        requires
                            lp >= 0,
                            0 <= b <= 10_000,
                            x == lp * b,
                    ;
                    if x > 0 {
                        assert(div_trunc(x, 10_000) == x / 10_000);
                        assert(0 <= x / 10_000 <= lp) by (nonlinear_arith)
                            requires
                                0 < x <= lp * 10_000,
                        ;
                    }
                },
            }
        },
    }
}

/// An Up/Down settlement is solvent: when the pools hold exactly the
/// stakes of the positions (none negative) and the fee rate is at most the
/// whole pot, what the participants are credited plus the protocol fee
/// never exceeds the two pools, the fee is not negative, and the treasury
/// and insurance fund together grow by exactly the fee.
pub proof fn law_updown_settlement_solvent(
    round: Round,
    final_price: u128,
    fee_bps: Option<u32>,
    fee_model: FeeModel,
    fees: FeeLedger,
    users: Seq<UserRoundState>,
    pendings: Seq<i128>,
    stats: Seq<Option<UserStats>>,
    cap: Option<i128>,
)
    requires
        users.len() == pendings.len(),
        users.len() == stats.len(),
        stakes_nonneg(users),
        round.pool_up == side_stake(users, BetSide::Up),
        round.pool_down == side_stake(users, BetSide::Down),
        fee_bps matches Some(b) ==> b <= 10_000,
        updown_settlement(
            round,
            final_price,
            fee_bps,
            fee_model,
            fees,
            users,
            pendings,
            stats,
            cap,
        ) is Ok,
    ensures
        ({
            let (ps, _, nf, fee) = updown_settlement(
                round,
                final_price,
                fee_bps,
                fee_model,
                fees,
                users,
                pendings,
                stats,
                cap,
            )->Ok_0;
            &&& ps.len() == users.len()
            &&& credit_total(ps, pendings) + fee <= round.pool_up + round.pool_down
            &&& fee >= 0
            &&& nf.treasury + nf.insurance_fund == fees.treasury + fees.insurance_fund + fee
        }),
{
    lemma_side_stake_nonneg(users, BetSide::Up);
    lemma_side_stake_nonneg(users, BetSide::Down);
    let direction = price_direction(round.price_start, final_price);
    if one_sided(round.pool_up, round.pool_down) || direction == PriceDirection::Unchanged {
        lemma_refund_credit_total(users, pendings, cap);
    } else {
        let (side, wp, lp) = if direction == PriceDirection::Up {
            (BetSide::Up, round.pool_up, round.pool_down)
        } else {
            (BetSide::Down, round.pool_down, round.pool_up)
        };
        if wp == 0 {
            lemma_credit_total_unchanged(pendings, pendings);
        } else {
            lemma_fee_split(fee_bps, fee_model, wp, lp);
            let (dw, dl, fee) = protocol_fee_updown(fee_bps, fee_model, wp, lp)->Ok_0;
            if fee > 0 {
                law_fee_collection_conserves(fees, fee);
            }
            let total = payout_add_spec(dw, dl)->Ok_0;
            lemma_credits_within_share(users, pendings, stats, side, wp, total, cap);
            let c = credit_total(
                updown_credits(users, pendings, stats, side, wp, total, cap)->Ok_0.0,
                pendings,
            );
            assert(side_stake(users, side) == wp);
            assert(c <= total) by (nonlinear_arith)
                requires
                    c * wp <= wp * total,
                    wp > 0,
            ;
        }
    }
}

// ─── Precision rounds ───────────────────────────────────────────────────────

proof fn lemma_checked_sum_is_sum(s: Seq<i128>)
    requires
        checked_sum(s) is Ok,
    ensures
        checked_sum(s)->Ok_0 == sum_amounts(s),
    decreases s.len(),
{
    if s.len() > 0 {
        lemma_checked_sum_is_sum(s.drop_last());
    }
}

proof fn lemma_closest_len_grows(users: Seq<UserRoundState>, final_price: u128, best: Option<u128>)
    requires
        users.len() > 0,
    ensures
        closest_stakes(users.drop_last(), final_price, best).len() <= closest_stakes(
            users,
            final_price,
            best,
        ).len(),
{
}

proof fn lemma_winner_pass_credit(
    users: Seq<UserRoundState>,
    pendings: Seq<i128>,
    stats: Seq<Option<UserStats>>,
    payouts: Seq<i128>,
    final_price: u128,
    best: Option<u128>,
    cap: Option<i128>,
)
    requires
        winner_pass(users, pendings, stats, payouts, final_price, best, cap) is Ok,
        users.len() <= pendings.len(),
        closest_stakes(users, final_price, best).len() <= payouts.len(),
    ensures
        winner_pass(users, pendings, stats, payouts, final_price, best, cap)->Ok_0.0.len()
            == users.len(),
        credit_total(winner_pass(users, pendings, stats, payouts, final_price, best, cap)->Ok_0.0, pendings)
            == sum_amounts(payouts.take(closest_stakes(users, final_price, best).len() as int)),
    decreases users.len(),
{
    if users.len() > 0 {
        let prev_users = users.drop_last();
        lemma_closest_len_grows(users, final_price, best);
        lemma_winner_pass_credit(prev_users, pendings, stats, payouts, final_price, best, cap);
        let prev = winner_pass(prev_users, pendings, stats, payouts, final_price, best, cap)->Ok_0.0;
        let all = winner_pass(users, pendings, stats, payouts, final_price, best, cap)->Ok_0.0;
        assert(all.drop_last() =~= prev);
        let i = users.len() - 1;
        let k = closest_stakes(prev_users, final_price, best).len();
        if is_closest(users.last(), final_price, best) {
            assert(pending_accumulated(pendings[i], payouts[k as int], cap) is Ok);
            assert(payouts.take(k + 1 as int).drop_last() =~= payouts.take(k as int));
        }
    }
}

proof fn lemma_precision_refund_credit(users: Seq<UserRoundState>, pendings: Seq<i128>, cap: Option<i128>)
    requires
        refunded(RoundMode::Precision, users, pendings, cap) is Ok,
        users.len() <= pendings.len(),
        forall|i: int| 0 <= i < users.len() ==> precision_stake(#[trigger] users[i]) >= 0,
    ensures
        refunded(RoundMode::Precision, users, pendings, cap)->Ok_0.len() == users.len(),
        credit_total(refunded(RoundMode::Precision, users, pendings, cap)->Ok_0, pendings)
            == sum_amounts(precision_stakes(users)),
    decreases users.len(),
{
    if users.len() > 0 {
        let prev_users = users.drop_last();
        assert forall|i: int| 0 <= i < prev_users.len() implies precision_stake(
            #[trigger] prev_users[i],
        ) >= 0 by {
            assert(prev_users[i] == users[i]);
        }
        lemma_precision_refund_credit(prev_users, pendings, cap);
        let prev = refunded(RoundMode::Precision, prev_users, pendings, cap)->Ok_0;
        let all = refunded(RoundMode::Precision, users, pendings, cap)->Ok_0;
        assert(all.drop_last() =~= prev);
        assert(precision_stakes(users).drop_last() =~= precision_stakes(prev_users));
        let i = users.len() - 1;
        assert(users.last() == users[i]);
        match refund_due(RoundMode::Precision, users.last()) {
            None => {},
            Some(a) => {
                assert(pending_accumulated(pendings[i], a, cap) is Ok);
            },
        }
    }
}

/// A Precision settlement conserves the pot: when no stake is negative, what
/// the participants are credited plus the protocol fee is exactly the sum of
/// the stakes (the winners share the pot after the fee; when nobody revealed,
/// everyone gets their stake back), the fee is not negative, and the
/// treasury and insurance fund together grow by exactly the fee.
pub proof fn law_precision_settlement_conserves(
    final_price: u128,
    fee_bps: Option<u32>,
    fee_model: FeeModel,
    fees: FeeLedger,
    policy: PrecisionPayoutPolicy,
    users: Seq<UserRoundState>,
    pendings: Seq<i128>,
    stats: Seq<Option<UserStats>>,
    cap: Option<i128>,
)
    requires
        users.len() == pendings.len(),
        users.len() == stats.len(),
        forall|i: int| 0 <= i < users.len() ==> precision_stake(#[trigger] users[i]) >= 0,
        precision_settlement(
            final_price,
            fee_bps,
            fee_model,
            fees,
            policy,
            users,
            pendings,
            stats,
            cap,
        ) is Ok,
    ensures
        ({
            let (ps, _, nf, fee) = precision_settlement(
                final_price,
                fee_bps,
                fee_model,
                fees,
                policy,
                users,
                pendings,
                stats,
                cap,
            )->Ok_0;
            &&& ps.len() == users.len()
            &&& credit_total(ps, pendings) + fee == sum_amounts(precision_stakes(users))
            &&& fee >= 0
            &&& nf.treasury + nf.insurance_fund == fees.treasury + fees.insurance_fund + fee
        }),
{
    let best = closest_distance(users, final_price);
    let winners = closest_stakes(users, final_price, best);
    let stakes = precision_stakes(users);
    lemma_checked_sum_is_sum(stakes);
    let pot = checked_sum(stakes)->Ok_0;
    if winners.len() > 0 && pot > 0 {
        let ws = checked_sum(winners)->Ok_0;
        let (pool, fee) = protocol_fee_precision(fee_bps, fee_model, pot, ws)->Ok_0;
        match fee_bps {
            None => {},
            Some(b) => {
                let base: int = match fee_model {
                    FeeModel::FeeOnPot => pot as int,
                    FeeModel::FeeOnWinnings => pot - ws,
                };
                if base > 0 && fee != 0 {
                    assert(base * b >= 0) by (nonlinear_arith)
                        requires
                            base > 0,
                            b >= 0,
                    ;
                }
            },
        }
        assert(pool + fee == pot);
        if fee > 0 {
            law_fee_collection_conserves(fees, fee);
        }
        law_precision_shares_conserve(policy, winners, pool);
        let pays = precision_shares(policy, winners, pool)->Ok_0;
        lemma_winner_pass_credit(users, pendings, stats, pays, final_price, best, cap);
        assert(pays.take(winners.len() as int) =~= pays);
    } else if pot > 0 {
        lemma_precision_refund_credit(users, pendings, cap);
    } else {
        lemma_credit_total_unchanged(pendings, pendings);
        assert forall|i: int| 0 <= i < stakes.len() implies stakes[i] >= 0 by {
            assert(stakes[i] == precision_stake(users[i]));
        }
        lemma_sum_nonneg(stakes);
    }
}

} // verus!
