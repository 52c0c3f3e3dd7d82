//! Properties that hold of the settlement arithmetic as a whole.
use vstd::prelude::*;

use crate::errors::ContractError;
use crate::math_common::{div_trunc, fits_i128};
use crate::settlement_math::{
    equal_split, one_sided, price_direction, proportional_shares, stake_weighted_split,
    sum_amounts, updown_competitive, updown_distributable, updown_payouts,
    updown_refund, updown_settled_entry, winning_pool_of, losing_pool_of, PriceDirection,
    UpDownPayoutEntry, UpDownPosition,
};

verus! {

/// Sum of `s` after replacing one element.
pub(crate) proof fn lemma_sum_update(s: Seq<i128>, i: int, v: i128)
    requires
        0 <= i < s.len(),
    ensures
        sum_amounts(s.update(i, v)) == sum_amounts(s) - s[i] + v,
    decreases s.len(),
{
    if i == s.len() - 1 {
        assert(s.update(i, v).drop_last() =~= s.drop_last());
    } else {
        assert(s.update(i, v).drop_last() =~= s.drop_last().update(i, v));
        lemma_sum_update(s.drop_last(), i, v);
    }
}

/// The equal shares lie within the distributable amount.
proof fn lemma_equal_share_bounds(d: i128, n: nat)
    requires
        0 < n,
        0 < d,
    ensures
        0 <= (d as int) / (n as int) <= d,
        0 <= (d as int) / (n as int) + (d as int) % (n as int) <= d,
        equal_split(d, n)[0] == (d as int) / (n as int) + (d as int) % (n as int),
        forall|i: int| 0 < i < n ==> #[trigger] equal_split(d, n)[i] == (d as int) / (n as int),
{
    let q = (d as int) / (n as int);
    let r = (d as int) % (n as int);
    vstd::arithmetic::div_mod::lemma_fundamental_div_mod(d as int, n as int);
    assert(0 <= q <= d && 0 <= q + r <= d) by (nonlinear_arith)
        requires
            d == n * q + r,
            0 <= r < n,
            0 < n,
            0 < d,
    ;
}

/// Sum of a constant-after-the-first sequence built by `Seq::new`.
proof fn lemma_sum_equal_split(d: i128, n: nat, k: nat)
    requires
        0 < n,
        0 < d,
        k <= n,
    ensures
        sum_amounts(equal_split(d, n).take(k as int)) == if k == 0 {
            0
        } else {
            (d as int) % (n as int) + (k as int) * ((d as int) / (n as int))
        },
    decreases k,
{
    lemma_equal_share_bounds(d, n);
    if k > 0 {
        lemma_sum_equal_split(d, n, (k - 1) as nat);
        assert(equal_split(d, n).take(k as int).drop_last() =~= equal_split(d, n).take(k - 1));
        assert((k as int) * ((d as int) / (n as int)) == (k - 1) * ((d as int) / (n as int)) + (d as int) / (n as int))
            by (nonlinear_arith);
    }
}

/// An equal split pays out exactly the distributable amount, every winner
/// receives at least `distributable / winner_count`, and the first winner
/// additionally receives the remainder.
pub proof fn law_equal_split_conserves(distributable: i128, winner_count: nat)
    requires
        0 < winner_count,
        0 < distributable,
    ensures
        sum_amounts(equal_split(distributable, winner_count)) == distributable,
        equal_split(distributable, winner_count).len() == winner_count,
        forall|i: int|
            0 <= i < winner_count ==> #[trigger] equal_split(distributable, winner_count)[i]
                >= (distributable as int) / (winner_count as int),
        equal_split(distributable, winner_count)[0] == (distributable as int) / (winner_count as int)
            + (distributable as int) % (winner_count as int),
{
    lemma_equal_share_bounds(distributable, winner_count);
    lemma_sum_equal_split(distributable, winner_count, winner_count);
    assert(equal_split(distributable, winner_count).take(winner_count as int) =~= equal_split(
        distributable,
        winner_count,
    ));
    vstd::arithmetic::div_mod::lemma_fundamental_div_mod(distributable as int, winner_count as int);
    assert((winner_count as int) * ((distributable as int) / (winner_count as int)) == ((distributable as int) / (winner_count as int)) * (winner_count as int))
        by (nonlinear_arith);
}

/// `floor(x / t) + floor(y / t) <= floor((x + y) / t)` for non-negative `x, y`.
proof fn lemma_floor_add(x: int, y: int, t: int)
    requires
        0 <= x,
        0 <= y,
        0 < t,
    ensures
        x / t + y / t <= (x + y) / t,
{
    vstd::arithmetic::div_mod::lemma_fundamental_div_mod(x, t);
    vstd::arithmetic::div_mod::lemma_fundamental_div_mod(y, t);
    vstd::arithmetic::div_mod::lemma_fundamental_div_mod(x + y, t);
    let qx = x / t;
    let qy = y / t;
    let q = (x + y) / t;
    assert(x + y == t * (qx + qy) + (x % t + y % t)) by (nonlinear_arith)
        requires
            x == t * qx + x % t,
            y == t * qy + y % t,
    ;
    assert(qx + qy <= q) by (nonlinear_arith)
        requires
            x + y == t * (qx + qy) + (x % t + y % t),
            x + y == t * q + (x + y) % t,
            0 <= x % t,
            0 <= y % t,
            0 <= (x + y) % t < t,
            0 < t,
    ;
}

/// Sum of non-negative amounts is non-negative.
pub(crate) proof fn lemma_sum_nonneg(s: Seq<i128>)
    requires
        forall|i: int| 0 <= i < s.len() ==> s[i] >= 0,
    ensures
        sum_amounts(s) >= 0,
    decreases s.len(),
{
    if s.len() > 0 {
        lemma_sum_nonneg(s.drop_last());
    }
}

/// The rounded-down shares of non-negative stakes sum to at most the
/// rounded-down share of their total.
proof fn lemma_sum_of_floors(stakes: Seq<i128>, d: i128, t: int)
    requires
        0 < t,
        0 <= d,
        forall|i: int| 0 <= i < stakes.len() ==> stakes[i] >= 0,
        forall|i: int| 0 <= i < stakes.len() ==> fits_i128(#[trigger] (stakes[i] * d)),
    ensures
        sum_amounts(
            Seq::new(stakes.len(), |i: int| (div_trunc(stakes[i] * d, t)) as i128),
        ) <= (sum_amounts(stakes) * d) / t,
        forall|i: int|
            0 <= i < stakes.len() ==> 0 <= #[trigger] div_trunc(stakes[i] * d, t) <= stakes[i] * d,
    decreases stakes.len(),
{
    let f = Seq::new(stakes.len(), |i: int| (div_trunc(stakes[i] * d, t)) as i128);
    assert forall|i: int| 0 <= i < stakes.len() implies 0 <= #[trigger] div_trunc(stakes[i] * d, t)
        <= stakes[i] * d by {
        let a = stakes[i] * d;
        assert(a >= 0) by (nonlinear_arith)
            requires
                stakes[i] >= 0,
                d >= 0,
                a == stakes[i] * d,
        ;
        if a > 0 {
            assert(0 <= a / t <= a) by (nonlinear_arith)
                requires
                    a > 0,
                    t > 0,
            ;
        }
    }
    if stakes.len() > 0 {
        let prev = stakes.drop_last();
        lemma_sum_of_floors(prev, d, t);
        let fp = Seq::new(prev.len(), |i: int| (div_trunc(prev[i] * d, t)) as i128);
        assert(f.drop_last() =~= fp);
        lemma_sum_nonneg(prev);
        let last = stakes.last();
        let sp = sum_amounts(prev);
        assert(sp * d >= 0) by (nonlinear_arith)
            requires
                sp >= 0,
                d >= 0,
        ;
        assert(last * d >= 0) by (nonlinear_arith)
            requires
                last >= 0,
                d >= 0,
        ;
        assert(div_trunc(last * d, t) == (last * d) / t);
        lemma_floor_add(sp * d, last * d, t);
        assert((sp + last) * d == sp * d + last * d) by (nonlinear_arith);
    }
}

/// A stake-weighted split of non-negative stakes that succeeds pays out
/// exactly the distributable amount, and each share is non-negative.
pub proof fn law_stake_weighted_split_conserves(distributable: i128, stakes: Seq<i128>)
    requires
        0 < distributable,
        0 < stakes.len(),
        forall|i: int| 0 <= i < stakes.len() ==> stakes[i] >= 0,
    ensures
        stake_weighted_split(distributable, stakes) matches Ok(p) ==> sum_amounts(p)
            == distributable && p.len() == stakes.len() && forall|i: int|
            0 <= i < p.len() ==> #[trigger] p[i] >= 0,
{
    let total = sum_amounts(stakes);
    lemma_sum_nonneg(stakes);
    match stake_weighted_split(distributable, stakes) {
        Ok(p) => {
            if total == 0 {
                law_equal_split_conserves(distributable, stakes.len());
            } else {
                assert(forall|i: int|
                    0 <= i < stakes.len() ==> fits_i128(#[trigger] (stakes[i] * distributable)));
                lemma_sum_of_floors(stakes, distributable, total);
                let raw = proportional_shares(distributable, stakes);
                assert(raw =~= Seq::new(
                    stakes.len(),
                    |i: int| (div_trunc(stakes[i] * distributable, total)) as i128,
                ));
                assert((total * distributable) / total == distributable) by (nonlinear_arith)
                    requires
                        total > 0,
                ;
                let rem = distributable - sum_amounts(raw);
                if rem > 0 {
                    lemma_sum_update(raw, 0, (raw[0] + rem) as i128);
                }
                assert(forall|i: int| 0 <= i < raw.len() ==> #[trigger] raw[i] >= 0);
            }
        },
        Err(_) => {},
    }
}

/// When exactly one pool is empty every position is refunded its stake,
/// whatever the price did.
pub proof fn law_one_sided_refunds_everyone(
    positions: Seq<UpDownPosition>,
    start_price: u128,
    final_price: u128,
    pool_up: i128,
    pool_down: i128,
    fee_bps: Option<u32>,
)
    requires
        one_sided(pool_up, pool_down),
    ensures
        updown_payouts(positions, start_price, final_price, pool_up, pool_down, fee_bps) == Ok::<
            Seq<UpDownPayoutEntry>,
            ContractError,
        >(positions.map_values(|p: UpDownPosition| updown_refund(p))),
        updown_payouts(positions, start_price, final_price, pool_up, pool_down, fee_bps) matches Ok(
            v,
        ) ==> v.len() == positions.len() && forall|i: int|
            0 <= i < v.len() ==> (#[trigger] v[i]).payout == positions[i].amount && v[i].is_refund,
{
}

/// Total stake on one side.
pub open spec fn side_total(positions: Seq<UpDownPosition>, side_up: bool) -> int
    decreases positions.len(),
{
    if positions.len() == 0 {
        0
    } else {
        side_total(positions.drop_last(), side_up) + if positions.last().side_up == side_up {
            positions.last().amount as int
        } else {
            0
        }
    }
}

/// Total amount paid out by a payout vector.
pub open spec fn total_paid(entries: Seq<UpDownPayoutEntry>) -> int
    decreases entries.len(),
{
    if entries.len() == 0 {
        0
    } else {
        total_paid(entries.drop_last()) + entries.last().payout
    }
}

proof fn lemma_side_total_nonneg(ps: Seq<UpDownPosition>, side_up: bool)
    requires
        forall|i: int| 0 <= i < ps.len() ==> ps[i].amount >= 0,
    ensures
        side_total(ps, side_up) >= 0,
    decreases ps.len(),
{
    if ps.len() > 0 {
        lemma_side_total_nonneg(ps.drop_last(), side_up);
    }
}

proof fn lemma_refunds_pay_stakes(ps: Seq<UpDownPosition>)
    ensures
        total_paid(ps.map_values(|p: UpDownPosition| updown_refund(p))) == side_total(ps, true)
            + side_total(ps, false),
    decreases ps.len(),
{
    if ps.len() > 0 {
        assert(ps.map_values(|p: UpDownPosition| updown_refund(p)).drop_last() =~= ps.drop_last().map_values(
            |p: UpDownPosition| updown_refund(p),
        ));
        lemma_refunds_pay_stakes(ps.drop_last());
    }
}

proof fn lemma_settled_total(ps: Seq<UpDownPosition>, up_wins: bool, wp: i128, td: i128)
    requires
        0 < wp,
        0 <= td,
        forall|i: int| 0 <= i < ps.len() ==> ps[i].amount >= 0,
    ensures
        total_paid(ps.map_values(|p: UpDownPosition| updown_settled_entry(p, up_wins, wp, td)))
            <= (side_total(ps, up_wins) * td) / (wp as int),
    decreases ps.len(),
{
    if ps.len() > 0 {
        let prev = ps.drop_last();
        assert(ps.map_values(|p: UpDownPosition| updown_settled_entry(p, up_wins, wp, td)).drop_last()
            =~= prev.map_values(|p: UpDownPosition| updown_settled_entry(p, up_wins, wp, td)));
        lemma_settled_total(prev, up_wins, wp, td);
        lemma_side_total_nonneg(prev, up_wins);
        let sp = side_total(prev, up_wins);
        let a = ps.last().amount as int;
        assert(sp * td >= 0) by (nonlinear_arith)
            requires
                sp >= 0,
                td >= 0,
        ;
        assert(a * td >= 0) by (nonlinear_arith)
            requires
                a >= 0,
                td >= 0,
        ;
        if ps.last().side_up == up_wins {
            assert(div_trunc(a * td, wp as int) == (a * td) / (wp as int));
            lemma_floor_add(sp * td, a * td, wp as int);
            assert((sp + a) * td == sp * td + a * td) by (nonlinear_arith);
            assert(0 <= (a * td) / (wp as int) <= a * td) by (nonlinear_arith)
                requires
                    a * td >= 0,
                    wp > 0,
            ;
        }
    }
}

proof fn lemma_settled_total_nonpos(ps: Seq<UpDownPosition>, up_wins: bool, wp: i128, td: i128)
    requires
        0 < wp,
        td < 0,
        forall|i: int| 0 <= i < ps.len() ==> ps[i].amount >= 0,
        forall|i: int|
            0 <= i < ps.len() && ps[i].side_up == up_wins ==> fits_i128(#[trigger] (ps[i].amount * td)),
    ensures
        total_paid(ps.map_values(|p: UpDownPosition| updown_settled_entry(p, up_wins, wp, td)))
            <= 0,
    decreases ps.len(),
{
    if ps.len() > 0 {
        let prev = ps.drop_last();
        assert(ps.map_values(|p: UpDownPosition| updown_settled_entry(p, up_wins, wp, td)).drop_last()
            =~= prev.map_values(|p: UpDownPosition| updown_settled_entry(p, up_wins, wp, td)));
        lemma_settled_total_nonpos(prev, up_wins, wp, td);
        let a = ps.last().amount as int;
        assert(a * td <= 0) by (nonlinear_arith)
            requires
                a >= 0,
                td < 0,
        ;
        if a * td < 0 && ps.last().side_up == up_wins {
            assert(fits_i128(ps[ps.len() - 1].amount * td));
            assert(0 <= (-(a * td)) / (wp as int) <= -(a * td)) by (nonlinear_arith)
                requires
                    a * td < 0,
                    wp > 0,
            ;
        }
    }
}

/// When the pools hold exactly the stakes of the positions and every stake is
/// non-negative, an UpDown settlement never pays out more than the two
/// pools hold together.
pub proof fn law_updown_payouts_solvent(
    positions: Seq<UpDownPosition>,
    start_price: u128,
    final_price: u128,
    pool_up: i128,
    pool_down: i128,
    fee_bps: Option<u32>,
)
    requires
        forall|i: int| 0 <= i < positions.len() ==> positions[i].amount >= 0,
        pool_up == side_total(positions, true),
        pool_down == side_total(positions, false),
    ensures
        updown_payouts(positions, start_price, final_price, pool_up, pool_down, fee_bps) matches Ok(
            v,
        ) ==> total_paid(v) <= pool_up + pool_down,
{
    lemma_side_total_nonneg(positions, true);
    lemma_side_total_nonneg(positions, false);
    if !updown_competitive(start_price, final_price, pool_up, pool_down) {
        lemma_refunds_pay_stakes(positions);
    } else {
        match updown_distributable(start_price, final_price, pool_up, pool_down, fee_bps) {
            Err(_) => {},
            Ok(td) => {
                let up_wins = price_direction(start_price, final_price) == PriceDirection::Up;
                let wp = winning_pool_of(start_price, final_price, pool_up, pool_down);
                let lp = losing_pool_of(start_price, final_price, pool_up, pool_down);
                assert(wp == side_total(positions, up_wins));
                // the fee is never negative on non-negative pools
                match fee_bps {
                    None => {},
                    Some(bps) => {
                        let total = wp + lp;
                        if fits_i128(total) && fits_i128(total * bps) {
                            assert(total * bps >= 0) by (nonlinear_arith)
                                requires
                                    total >= 0,
                                    bps >= 0,
                            ;
                        }
                    },
                }
                assert(td <= wp + lp);
                if td < 0 && updown_payouts(positions, start_price, final_price, pool_up, pool_down, fee_bps) is Ok {
                    lemma_settled_total_nonpos(positions, up_wins, wp, td);
                } else if td >= 0 && updown_payouts(positions, start_price, final_price, pool_up, pool_down, fee_bps) is Ok {
                    lemma_settled_total(positions, up_wins, wp, td);
                    assert((wp * td) / (wp as int) == td) by (nonlinear_arith)
                        requires
                            wp > 0,
                    ;
                }
            },
        }
    }
}


/// Number of positions on one side.
pub open spec fn side_count(positions: Seq<UpDownPosition>, side_up: bool) -> nat
    decreases positions.len(),
{
    if positions.len() == 0 {
        0
    } else {
        side_count(positions.drop_last(), side_up) + if positions.last().side_up == side_up {
            1nat
        } else {
            0
        }
    }
}

/// Dividing by `d` and rounding toward zero loses less than one unit:
/// `d * q > x - d`, and the quotient lies between zero and `x`.
proof fn lemma_trunc_loses_less_than_one(x: int, d: int)
    requires
        d > 0,
    ensures
        d * div_trunc(x, d) >= x - d + 1,
        x >= 0 ==> 0 <= div_trunc(x, d) <= x,
        x < 0 ==> x <= div_trunc(x, d) <= 0,
{
    if x > 0 {
        vstd::arithmetic::div_mod::lemma_fundamental_div_mod(x, d);
        assert(0 <= x / d <= x) by (nonlinear_arith)
            requires
                x > 0,
                d > 0,
        ;
    } else if x < 0 {
        vstd::arithmetic::div_mod::lemma_fundamental_div_mod(-x, d);
        assert(0 <= (-x) / d <= -x) by (nonlinear_arith)
            requires
                -x > 0,
                d > 0,
        ;
        assert(d * (-((-x) / d)) == -(d * ((-x) / d))) by (nonlinear_arith);
    }
}

proof fn lemma_settled_total_lower(ps: Seq<UpDownPosition>, up_wins: bool, wp: i128, td: i128)
    requires
        0 < wp,
        forall|i: int| 0 <= i < ps.len() ==> ps[i].amount >= 0,
        forall|i: int|
            0 <= i < ps.len() && ps[i].side_up == up_wins ==> fits_i128(
                #[trigger] ps[i].amount * td,
            ),
    ensures
        wp * total_paid(ps.map_values(|p: UpDownPosition| updown_settled_entry(p, up_wins, wp, td)))
            >= side_total(ps, up_wins) * td - side_count(ps, up_wins) * (wp - 1),
        side_count(ps, up_wins) == 0 ==> side_total(ps, up_wins) == 0,
    decreases ps.len(),
{
    if ps.len() > 0 {
        let prev = ps.drop_last();
        let f = |p: UpDownPosition| updown_settled_entry(p, up_wins, wp, td);
        assert(ps.map_values(f).drop_last() =~= prev.map_values(f));
        lemma_settled_total_lower(prev, up_wins, wp, td);
        let t = total_paid(prev.map_values(f));
        let sp = side_total(prev, up_wins);
        let kp = side_count(prev, up_wins) as int;
        let a = ps.last().amount as int;
        if ps.last().side_up == up_wins {
            assert(fits_i128(ps[ps.len() - 1].amount * td));
            lemma_trunc_loses_less_than_one(a * td, wp as int);
            let q = div_trunc(a * td, wp as int);
            assert(ps.map_values(f).last().payout == q);
            assert(wp * (t + q) == wp * t + wp * q) by (nonlinear_arith);
            assert((sp + a) * td == sp * td + a * td) by (nonlinear_arith);
            assert((kp + 1) * (wp - 1) == kp * (wp - 1) + (wp - 1)) by (nonlinear_arith);
        } else {
            assert(ps.map_values(f).last().payout == 0);
        }
    }
}

/// Rounding the Up/Down payouts down loses less than one unit per winner:
/// in a settled competitive round the winners are paid more than the
/// distributable amount minus their number.
pub proof fn law_updown_rounding_loss_below_one_per_winner(
    positions: Seq<UpDownPosition>,
    start_price: u128,
    final_price: u128,
    pool_up: i128,
    pool_down: i128,
    fee_bps: Option<u32>,
)
    requires
        forall|i: int| 0 <= i < positions.len() ==> positions[i].amount >= 0,
        pool_up == side_total(positions, true),
        pool_down == side_total(positions, false),
        updown_competitive(start_price, final_price, pool_up, pool_down),
        updown_payouts(positions, start_price, final_price, pool_up, pool_down, fee_bps) is Ok,
    ensures
        ({
            let up_wins = price_direction(start_price, final_price) == PriceDirection::Up;
            let td = updown_distributable(start_price, final_price, pool_up, pool_down, fee_bps)->Ok_0;
            let v = updown_payouts(positions, start_price, final_price, pool_up, pool_down, fee_bps)->Ok_0;
            &&& side_count(positions, up_wins) > 0
            &&& td - side_count(positions, up_wins) < total_paid(v)
        }),
{
    let up_wins = price_direction(start_price, final_price) == PriceDirection::Up;
    let td = updown_distributable(start_price, final_price, pool_up, pool_down, fee_bps)->Ok_0;
    let wp = winning_pool_of(start_price, final_price, pool_up, pool_down);
    lemma_side_total_nonneg(positions, true);
    lemma_side_total_nonneg(positions, false);
    assert(wp == side_total(positions, up_wins));
    assert(wp > 0);
    lemma_settled_total_lower(positions, up_wins, wp, td);
    let t = total_paid(positions.map_values(|p: UpDownPosition| updown_settled_entry(p, up_wins, wp, td)));
    let k = side_count(positions, up_wins) as int;
    assert(wp * t >= wp * td - k * (wp - 1));
    assert(td - k < t) by (nonlinear_arith)
        requires
            wp > 0,
            k > 0,
            wp * t >= wp * td - k * (wp - 1),
    ;
}

} // verus!
