//! Settlement arithmetic: price direction, protocol fees, pot splitting,
//! winner determination and the full payout vectors of both round modes.
//! Every function here is deterministic in its arguments.
use vstd::prelude::*;

use crate::errors::ContractError;
use crate::math_common::{
    div_trunc, div_trunc_i128, fits_i128, fits_u128, payout_add, payout_add_spec, payout_mul, sat_add_i128, sat_add_u128,
    sat_mul_u128, saturating_add_i128, saturating_mul_u128, BPS_DENOMINATOR,
};

verus! {

/// How a Precision pot is divided among its winners.
#[derive(Clone, Copy, Debug, PartialEq, Eq, Structural)]
pub enum PrecisionPayoutPolicy {
    /// Every winner receives the same share.
    Equal,
    /// Winners share in proportion to their stakes.
    StakeWeighted,
}

/// How a Precision prediction is scored against the final price.
#[derive(Clone, Copy, Debug, PartialEq, Eq, Structural)]
pub enum PrecisionScoringMode {
    /// `|predicted - final|`.
    AbsoluteDistance,
    /// `|predicted - final| * 10_000 / final`, in basis points.
    RelativeDistance,
}

/// Scoring metric plus an optional tolerance band around the best score.
#[derive(Clone, Copy, Debug, PartialEq, Eq, Structural)]
pub struct PrecisionScoringPolicy {
    pub mode: PrecisionScoringMode,
    pub confidence_band: Option<u128>,
}

/// Outcome of comparing the settlement price with the start price.
#[derive(Clone, Copy, Debug, PartialEq, Eq, Structural)]
pub enum PriceDirection {
    /// `final_price > start_price`
    Up,
    /// `final_price < start_price`
    Down,
    /// `final_price == start_price`
    Unchanged,
}

/// Direction of `final_price` relative to `start_price`.
pub open spec fn price_direction(start_price: u128, final_price: u128) -> PriceDirection {
    if final_price > start_price {
        PriceDirection::Up
    } else if final_price < start_price {
        PriceDirection::Down
    } else {
        PriceDirection::Unchanged
    }
}

/// Classifies the price move of a round.
pub fn classify_price_direction(start_price: u128, final_price: u128) -> (d: PriceDirection)
    ensures
        d == price_direction(start_price, final_price),
{
    if final_price > start_price {
        PriceDirection::Up
    } else if final_price < start_price {
        PriceDirection::Down
    } else {
        PriceDirection::Unchanged
    }
}

/// Exactly one of the two pools is empty.
pub open spec fn one_sided(pool_up: i128, pool_down: i128) -> bool {
    (pool_up == 0) != (pool_down == 0)
}

/// Returns `true` when exactly one pool is empty; such rounds refund everyone.
pub fn is_one_sided_pool(pool_up: i128, pool_down: i128) -> (b: bool)
    ensures
        b == one_sided(pool_up, pool_down),
{
    (pool_up == 0) != (pool_down == 0)
}

// ─── Protocol fee math ───────────────────────────────────────────────────────

/// The UpDown fee split: the fee is taken from the losing pool first and any
/// spill-over from the winning pool. Result is `(dist_winning, dist_losing, fee)`.
pub open spec fn updown_fee(winning_pool: i128, losing_pool: i128, fee_bps: Option<u32>) -> Result<
    (i128, i128, i128),
    ContractError,
> {
    match fee_bps {
        None => Ok((winning_pool, losing_pool, 0)),
        Some(bps) => {
            let total = winning_pool + losing_pool;
            if !fits_i128(total) {
                Err(ContractError::PayoutOverflow)
            } else if !fits_i128(total * bps) {
                Err(ContractError::Overflow)
            } else {
                let fee = div_trunc(total * bps, 10_000);
                if fee == 0 {
                    Ok((winning_pool, losing_pool, 0))
                } else {
                    let from_losing = if fee <= losing_pool {
                        fee
                    } else {
                        losing_pool as int
                    };
                    let from_winning = fee - from_losing;
                    if !fits_i128(from_winning) || !fits_i128(winning_pool - from_winning)
                        || !fits_i128(losing_pool - from_losing) {
                        Err(ContractError::Overflow)
                    } else {
                        Ok(
                            (
                                (winning_pool - from_winning) as i128,
                                (losing_pool - from_losing) as i128,
                                fee as i128,
                            ),
                        )
                    }
                }
            }
        },
    }
}

/// Splits a `(winning_pool, losing_pool)` pair into the post-fee pools and the
/// treasury's cut.
pub fn compute_updown_fee(winning_pool: i128, losing_pool: i128, fee_bps: Option<u32>) -> (r:
    Result<(i128, i128, i128), ContractError>)
    ensures
        r == updown_fee(winning_pool, losing_pool, fee_bps),
        r matches Ok((dw, dl, fee)) ==> dw + dl + fee == winning_pool + losing_pool,
{
    if fee_bps.is_none() {
        return Ok((winning_pool, losing_pool, 0));
    }
    let bps_value = fee_bps.unwrap();
    let total_pot = payout_add(winning_pool, losing_pool)?;
    let product = match total_pot.checked_mul(bps_value as i128) {
        Some(p) => p,
        None => return Err(ContractError::Overflow),
    };
    let fee_amount = div_trunc_i128(product, BPS_DENOMINATOR);
    if fee_amount == 0 {
        return Ok((winning_pool, losing_pool, 0));
    }
    let fee_from_losing = if fee_amount <= losing_pool {
        fee_amount
    } else {
        losing_pool
    };
    let fee_from_winning = match fee_amount.checked_sub(fee_from_losing) {
        Some(v) => v,
        None => return Err(ContractError::Overflow),
    };
    let dist_winning = match winning_pool.checked_sub(fee_from_winning) {
        Some(v) => v,
        None => return Err(ContractError::Overflow),
    };
    let dist_losing = match losing_pool.checked_sub(fee_from_losing) {
        Some(v) => v,
        None => return Err(ContractError::Overflow),
    };
    Ok((dist_winning, dist_losing, fee_amount))
}

/// The Precision fee split `(distributable, fee)` of a total pot.
pub open spec fn precision_fee(total_pot: i128, fee_bps: Option<u32>) -> Result<
    (i128, i128),
    ContractError,
> {
    match fee_bps {
        None => Ok((total_pot, 0)),
        Some(bps) => if total_pot <= 0 {
            Ok((total_pot, 0))
        } else if !fits_i128(total_pot * bps) {
            Err(ContractError::PayoutOverflow)
        } else {
            let fee = (total_pot * bps) / 10_000;
            Ok(((total_pot - fee) as i128, fee as i128))
        },
    }
}

/// Splits a Precision `total_pot` into the distributable amount and the
/// treasury's cut.
pub fn compute_precision_fee(total_pot: i128, fee_bps: Option<u32>) -> (r: Result<
    (i128, i128),
    ContractError,
>)
    ensures
        r == precision_fee(total_pot, fee_bps),
        r matches Ok((dist, fee)) ==> dist + fee == total_pot,
{
    if fee_bps.is_none() || total_pot <= 0 {
        return Ok((total_pot, 0));
    }
    let bps_value = fee_bps.unwrap();
    let product = match total_pot.checked_mul(bps_value as i128) {
        Some(p) => p,
        None => return Err(ContractError::PayoutOverflow),
    };
    let fee_amount = product / BPS_DENOMINATOR;
    assert(0 <= fee_amount <= product);
    let distributable = total_pot - fee_amount;
    Ok((distributable, fee_amount))
}

// ─── UpDown payout math ──────────────────────────────────────────────────────

/// `stake * total_distributable / winning_pool`, zero for an empty pool.
pub open spec fn updown_winner_payout(stake: i128, winning_pool: i128, total_distributable: i128) -> Result<
    i128,
    ContractError,
> {
    if winning_pool == 0 {
        Ok(0)
    } else if !fits_i128(stake * total_distributable) {
        Err(ContractError::PayoutOverflow)
    } else {
        Ok(div_trunc(stake * total_distributable, winning_pool as int) as i128)
    }
}

/// The one division whose quotient does not fit an `i128`.
pub open spec fn payout_division_traps(stake: i128, winning_pool: i128, total_distributable: i128) -> bool {
    winning_pool == -1 && stake * total_distributable == i128::MIN
}

/// Gross payout of one UpDown winner: `stake * total_distributable / winning_pool`.
pub fn compute_updown_winner_payout(stake: i128, winning_pool: i128, total_distributable: i128) -> (r:
    Result<i128, ContractError>)
    requires
        !payout_division_traps(stake, winning_pool, total_distributable),
    ensures
        r == updown_winner_payout(stake, winning_pool, total_distributable),
{
    if winning_pool == 0 {
        return Ok(0);
    }
    let product = payout_mul(stake, total_distributable)?;
    Ok(div_trunc_i128(product, winning_pool))
}

// ─── Precision winner determination ──────────────────────────────────────────

/// A single prediction handed to the Precision winner search.
#[derive(Clone, Copy, Debug, PartialEq, Eq, Structural)]
pub struct PrecisionEntry {
    /// Participant index; the caller maps it back to an address.
    pub index: usize,
    /// The predicted price (4 decimal places).
    pub predicted_price: u128,
    /// The amount staked.
    pub amount: i128,
    /// Whether the prediction was revealed.
    pub revealed: bool,
}

/// Result of the Precision winner search.
#[derive(Clone, Debug, PartialEq)]
pub struct PrecisionWinnersResult {
    /// Indices of the winning participants, in entry order.
    pub winner_indices: Vec<usize>,
    /// Saturating sum of every stake.
    pub total_pot: i128,
    /// Indices of every entry that did not win, in entry order.
    pub loser_indices: Vec<usize>,
}

/// `|a - b|`.
pub open spec fn abs_diff(a: u128, b: u128) -> u128 {
    if a >= b {
        (a - b) as u128
    } else {
        (b - a) as u128
    }
}

/// The score of a prediction: lower is better.
pub open spec fn prediction_score(
    predicted_price: u128,
    final_price: u128,
    mode: PrecisionScoringMode,
) -> u128 {
    let d = abs_diff(predicted_price, final_price);
    match mode {
        PrecisionScoringMode::AbsoluteDistance => d,
        PrecisionScoringMode::RelativeDistance => if final_price > 0 {
            sat_mul_u128(d, 10_000) / final_price
        } else {
            d
        },
    }
}

/// `(index, score)` of every revealed entry, in entry order.
pub open spec fn revealed_scores(
    entries: Seq<PrecisionEntry>,
    final_price: u128,
    mode: PrecisionScoringMode,
) -> Seq<(usize, u128)>
    decreases entries.len(),
{
    if entries.len() == 0 {
        Seq::empty()
    } else {
        let prev = revealed_scores(entries.drop_last(), final_price, mode);
        let e = entries.last();
        if e.revealed {
            prev.push((e.index, prediction_score(e.predicted_price, final_price, mode)))
        } else {
            prev
        }
    }
}

/// The smallest score, if there is any.
pub open spec fn best_score(scores: Seq<(usize, u128)>) -> Option<u128>
    decreases scores.len(),
{
    if scores.len() == 0 {
        None
    } else {
        let s = scores.last().1;
        match best_score(scores.drop_last()) {
            None => Some(s),
            Some(m) => if s < m {
                Some(s)
            } else {
                Some(m)
            },
        }
    }
}

/// Whether `score` wins against the best score under the tolerance band.
pub open spec fn score_wins(score: u128, best: u128, band: Option<u128>) -> bool {
    match band {
        None => score == best,
        Some(b) => score <= b || score <= sat_add_u128(best, b),
    }
}

/// Indices of the winning scores, in order.
pub open spec fn winning_indices(scores: Seq<(usize, u128)>, best: u128, band: Option<u128>) -> Seq<
    usize,
>
    decreases scores.len(),
{
    if scores.len() == 0 {
        Seq::empty()
    } else {
        let prev = winning_indices(scores.drop_last(), best, band);
        if score_wins(scores.last().1, best, band) {
            prev.push(scores.last().0)
        } else {
            prev
        }
    }
}

/// The winners of a Precision round: no one when nothing was revealed.
pub open spec fn precision_winners(
    entries: Seq<PrecisionEntry>,
    final_price: u128,
    policy: PrecisionScoringPolicy,
) -> Seq<usize> {
    let scores = revealed_scores(entries, final_price, policy.mode);
    match best_score(scores) {
        None => Seq::empty(),
        Some(best) => winning_indices(scores, best, policy.confidence_band),
    }
}

/// Indices of the entries that are not among `winners`, in entry order.
pub open spec fn loser_indices(entries: Seq<PrecisionEntry>, winners: Seq<usize>) -> Seq<usize>
    decreases entries.len(),
{
    if entries.len() == 0 {
        Seq::empty()
    } else {
        let prev = loser_indices(entries.drop_last(), winners);
        if winners.contains(entries.last().index) {
            prev
        } else {
            prev.push(entries.last().index)
        }
    }
}

/// Saturating sum of the stakes of `entries`.
pub open spec fn saturating_pot(entries: Seq<PrecisionEntry>) -> i128
    decreases entries.len(),
{
    if entries.len() == 0 {
        0
    } else {
        sat_add_i128(saturating_pot(entries.drop_last()), entries.last().amount)
    }
}

/// Whether `v` holds `x`.
fn contains_index(v: &Vec<usize>, x: usize) -> (b: bool)
    ensures
        b == v@.contains(x),
{
    let mut i: usize = 0;
    while i < v.len()
        invariant
            i <= v.len(),
            forall|j: int| 0 <= j < i ==> v@[j] != x,
        decreases v.len() - i,
    {
        if v[i] == x {
            return true;
        }
        i = i + 1;
    }
    false
}

/// Score of one prediction, as in `prediction_score`.
fn score_of(predicted_price: u128, final_price: u128, mode: PrecisionScoringMode) -> (s: u128)
    ensures
        s == prediction_score(predicted_price, final_price, mode),
{
    let abs_diff = if predicted_price >= final_price {
        predicted_price - final_price
    } else {
        final_price - predicted_price
    };
    match mode {
        PrecisionScoringMode::AbsoluteDistance => abs_diff,
        PrecisionScoringMode::RelativeDistance => {
            if final_price > 0 {
                saturating_mul_u128(abs_diff, 10_000) / final_price
            } else {
                abs_diff
            }
        },
    }
}

/// Finds the closest prediction(s) to `final_price` under absolute distance
/// scoring with no tolerance band.
pub fn find_precision_winners(entries: &[PrecisionEntry], final_price: u128) -> (r:
    PrecisionWinnersResult)
    ensures
        r.winner_indices@ == precision_winners(
            entries@,
            final_price,
            PrecisionScoringPolicy {
                mode: PrecisionScoringMode::AbsoluteDistance,
                confidence_band: None,
            },
        ),
        r.loser_indices@ == loser_indices(entries@, r.winner_indices@),
        r.total_pot == saturating_pot(entries@),
{
    find_precision_winners_with_policy(
        entries,
        final_price,
        PrecisionScoringPolicy {
            mode: PrecisionScoringMode::AbsoluteDistance,
            confidence_band: None,
        },
    )
}

/// Finds the Precision winners under an explicit scoring policy: the revealed
/// entries whose score equals the best score, or, with a band, lies within the
/// band of it (or under the band outright).
pub fn find_precision_winners_with_policy(
    entries: &[PrecisionEntry],
    final_price: u128,
    policy: PrecisionScoringPolicy,
) -> (r: PrecisionWinnersResult)
    ensures
        r.winner_indices@ == precision_winners(entries@, final_price, policy),
        r.loser_indices@ == loser_indices(entries@, r.winner_indices@),
        r.total_pot == saturating_pot(entries@),
{
    let ghost es = entries@;
    let mut total_pot: i128 = 0;
    let mut scores: Vec<(usize, u128)> = Vec::new();
    let mut min_score: Option<u128> = None;
    let mut i: usize = 0;
    while i < entries.len()
        invariant
            es == entries@,
            i <= es.len(),
            total_pot == saturating_pot(es.take(i as int)),
            scores@ == revealed_scores(es.take(i as int), final_price, policy.mode),
            min_score == best_score(scores@),
        decreases es.len() - i,
    {
        let entry = entries[i];
        proof {
            assert(es.take(i + 1).drop_last() =~= es.take(i as int));
            assert(es.take(i + 1).last() == entry);
        }
        total_pot = saturating_add_i128(total_pot, entry.amount);
        if entry.revealed {
            let score = score_of(entry.predicted_price, final_price, policy.mode);
            let ghost prev = scores@;
            scores.push((entry.index, score));
            proof {
                assert(scores@.drop_last() =~= prev);
            }
            match min_score {
                None => min_score = Some(score),
                Some(cur_min) => {
                    if score < cur_min {
                        min_score = Some(score);
                    }
                },
            }
        }
        i = i + 1;
    }
    proof {
        assert(es.take(es.len() as int) =~= es);
    }
    let mut winner_indices: Vec<usize> = Vec::new();
    if let Some(best) = min_score {
        let mut j: usize = 0;
        while j < scores.len()
            invariant
                j <= scores@.len(),
                winner_indices@ == winning_indices(
                    scores@.take(j as int),
                    best,
                    policy.confidence_band,
                ),
            decreases scores@.len() - j,
        {
            let (idx, score) = scores[j];
            proof {
                assert(scores@.take(j + 1).drop_last() =~= scores@.take(j as int));
            }
            let is_winner = match policy.confidence_band {
                None => score == best,
                Some(band) => score <= band || score <= best.saturating_add(band),
            };
            if is_winner {
                winner_indices.push(idx);
            }
            j = j + 1;
        }
        proof {
            assert(scores@.take(scores@.len() as int) =~= scores@);
        }
    }
    let mut loser_list: Vec<usize> = Vec::new();
    let mut k: usize = 0;
    while k < entries.len()
        invariant
            es == entries@,
            k <= es.len(),
            loser_list@ == loser_indices(es.take(k as int), winner_indices@),
        decreases es.len() - k,
    {
        let entry = entries[k];
        proof {
            assert(es.take(k + 1).drop_last() =~= es.take(k as int));
        }
        if !contains_index(&winner_indices, entry.index) {
            loser_list.push(entry.index);
        }
        k = k + 1;
    }
    proof {
        assert(es.take(es.len() as int) =~= es);
    }
    PrecisionWinnersResult { winner_indices, total_pot, loser_indices: loser_list }
}

// ─── Precision pot splitting ─────────────────────────────────────────────────

/// The contents of a result vector, or the error.
pub open spec fn viewed<T>(r: Result<Vec<T>, ContractError>) -> Result<Seq<T>, ContractError> {
    match r {
        Ok(v) => Ok(v@),
        Err(e) => Err(e),
    }
}

/// Sum of a sequence of amounts.
pub open spec fn sum_amounts(s: Seq<i128>) -> int
    decreases s.len(),
{
    if s.len() == 0 {
        0
    } else {
        sum_amounts(s.drop_last()) + s.last()
    }
}

/// Every running total of `s` fits an `i128`.
pub open spec fn running_sums_fit(s: Seq<i128>) -> bool {
    forall|k: int| 0 <= k <= s.len() ==> #[trigger] fits_i128(sum_amounts(s.take(k)))
}

/// Equal split of `distributable` among `count` winners; the remainder goes to
/// the first winner. Nothing is paid when there is no winner or nothing to pay.
pub open spec fn equal_split(distributable: i128, count: nat) -> Seq<i128> {
    if count == 0 || distributable <= 0 {
        Seq::empty()
    } else {
        Seq::new(
            count,
            |i: int|
                if i == 0 {
                    ((distributable as int) / (count as int) + (distributable as int) % (count as int)) as i128
                } else {
                    ((distributable as int) / (count as int)) as i128
                },
        )
    }
}

/// Splits `distributable` among `winner_count` winners equally; the
/// remainder `distributable % winner_count` goes to the first winner.
pub fn split_pot_among_winners(distributable: i128, winner_count: usize) -> (r: Result<
    Vec<i128>,
    ContractError,
>)
    ensures
        r matches Ok(v) && v@ == equal_split(distributable, winner_count as nat),
{
    if winner_count == 0 || distributable <= 0 {
        return Ok(Vec::new());
    }
    let count = winner_count as i128;
    let per_winner = distributable / count;
    let remainder = distributable % count;
    assert(per_winner + remainder <= distributable) by (nonlinear_arith)
        requires
            count >= 1,
            distributable > 0,
            per_winner == distributable / count,
            remainder == distributable % count,
    {}
    let mut payouts: Vec<i128> = Vec::new();
    let mut i: usize = 0;
    while i < winner_count
        invariant
            i <= winner_count,
            0 < winner_count,
            0 < distributable,
            count == winner_count,
            per_winner == distributable / count,
            remainder == distributable % count,
            0 <= per_winner,
            per_winner + remainder <= distributable,
            payouts@ == equal_split(distributable, winner_count as nat).take(i as int),
        decreases winner_count - i,
    {
        let payout = if i == 0 {
            per_winner + remainder
        } else {
            per_winner
        };
        proof {
            let n = winner_count as nat;
            assert(equal_split(distributable, n).len() == n);
            assert(per_winner == (distributable as int) / (n as int));
            assert(remainder == (distributable as int) % (n as int));
            assert(equal_split(distributable, n)[i as int] == payout);
        }
        payouts.push(payout);
        proof {
            assert(payouts@ =~= equal_split(distributable, winner_count as nat).take(i + 1));
        }
        i = i + 1;
    }
    proof {
        assert(payouts@ =~= equal_split(distributable, winner_count as nat));
    }
    Ok(payouts)
}

/// The proportional shares before the remainder is added:
/// `stake * distributable / total_stake` for each stake.
pub open spec fn proportional_shares(distributable: i128, stakes: Seq<i128>) -> Seq<i128> {
    Seq::new(
        stakes.len(),
        |i: int|
            div_trunc(stakes[i] * distributable, sum_amounts(stakes)) as i128,
    )
}

/// Stake-weighted split; the integer remainder goes to the first winner.
pub open spec fn stake_weighted_split(distributable: i128, stakes: Seq<i128>) -> Result<
    Seq<i128>,
    ContractError,
> {
    if stakes.len() == 0 || distributable <= 0 {
        Ok(Seq::empty())
    } else if !running_sums_fit(stakes) {
        Err(ContractError::PayoutOverflow)
    } else if sum_amounts(stakes) == 0 {
        Ok(equal_split(distributable, stakes.len()))
    } else if exists|i: int|
        0 <= i < stakes.len() && !fits_i128(#[trigger] stakes[i] * distributable) {
        Err(ContractError::PayoutOverflow)
    } else {
        let raw = proportional_shares(distributable, stakes);
        let remainder = distributable - sum_amounts(raw);
        if !running_sums_fit(raw) || !fits_i128(remainder) {
            Err(ContractError::PayoutOverflow)
        } else if remainder > 0 {
            if !fits_i128(raw[0] + remainder) {
                Err(ContractError::PayoutOverflow)
            } else {
                Ok(raw.update(0, (raw[0] + remainder) as i128))
            }
        } else {
            Ok(raw)
        }
    }
}

/// The single stake-weighted division whose quotient does not fit an `i128`.
pub open spec fn stake_division_traps(distributable: i128, stakes: Seq<i128>) -> bool {
    sum_amounts(stakes) == -1 && exists|i: int|
        0 <= i < stakes.len() && #[trigger] stakes[i] * distributable == i128::MIN
}

proof fn lemma_sum_take_step(s: Seq<i128>, k: int)
    requires
        0 <= k < s.len(),
    ensures
        sum_amounts(s.take(k + 1)) == sum_amounts(s.take(k)) + s[k],
{
    assert(s.take(k + 1).drop_last() =~= s.take(k));
}

/// Splits `distributable` in proportion to the winners' stakes; the integer
/// remainder goes to the first winner so the whole amount is paid out.
pub fn split_pot_stake_weighted(distributable: i128, winner_stakes: &[i128]) -> (r: Result<
    Vec<i128>,
    ContractError,
>)
    requires
        !stake_division_traps(distributable, winner_stakes@),
    ensures
        viewed(r) == stake_weighted_split(distributable, winner_stakes@),
{
    let ghost st = winner_stakes@;
    if winner_stakes.len() == 0 || distributable <= 0 {
        return Ok(Vec::new());
    }
    let mut total_winner_stake: i128 = 0;
    let mut i: usize = 0;
    while i < winner_stakes.len()
        invariant
            st == winner_stakes@,
            i <= st.len(),
            0 < st.len(),
            0 < distributable,
            total_winner_stake == sum_amounts(st.take(i as int)),
            forall|k: int| 0 <= k <= i ==> #[trigger] fits_i128(sum_amounts(st.take(k))),
        decreases st.len() - i,
    {
        proof {
            lemma_sum_take_step(st, i as int);
        }
        match total_winner_stake.checked_add(winner_stakes[i]) {
            Some(t) => total_winner_stake = t,
            None => {
                proof {
                    assert(!fits_i128(sum_amounts(st.take(i + 1))));
                    assert(!running_sums_fit(st));
                }
                return Err(ContractError::PayoutOverflow);
            },
        }
        i = i + 1;
    }
    proof {
        assert(st.take(st.len() as int) =~= st);
        assert(running_sums_fit(st));
    }
    if total_winner_stake == 0 {
        return split_pot_among_winners(distributable, winner_stakes.len());
    }
    let ghost raw = proportional_shares(distributable, st);
    let mut payouts: Vec<i128> = Vec::new();
    let mut total_allocated: i128 = 0;
    let mut j: usize = 0;
    while j < winner_stakes.len()
        invariant
            st == winner_stakes@,
            j <= st.len(),
            0 < st.len(),
            0 < distributable,
            running_sums_fit(st),
            total_winner_stake == sum_amounts(st),
            total_winner_stake != 0,
            !stake_division_traps(distributable, st),
            raw == proportional_shares(distributable, st),
            forall|k: int| 0 <= k < j ==> fits_i128(#[trigger] st[k] * distributable),
            payouts@ == raw.take(j as int),
            total_allocated == sum_amounts(raw.take(j as int)),
            forall|k: int| 0 <= k <= j ==> #[trigger] fits_i128(sum_amounts(raw.take(k))),
        decreases st.len() - j,
    {
        let stake = winner_stakes[j];
        let product = match payout_mul(stake, distributable) {
            Ok(p) => p,
            Err(e) => {
                proof {
                    assert(!fits_i128(st[j as int] * distributable));
                }
                return Err(e);
            },
        };
        assert(!(product == i128::MIN && total_winner_stake == -1));
        let payout = div_trunc_i128(product, total_winner_stake);
        proof {
            lemma_sum_take_step(raw, j as int);
            assert(raw[j as int] == payout);
        }
        payouts.push(payout);
        proof {
            assert(payouts@ =~= raw.take(j + 1));
        }
        match total_allocated.checked_add(payout) {
            Some(t) => total_allocated = t,
            None => {
                proof {
                    assert(!fits_i128(sum_amounts(raw.take(j + 1))));
                    assert(!running_sums_fit(raw));
                }
                return Err(ContractError::PayoutOverflow);
            },
        }
        j = j + 1;
    }
    proof {
        assert(raw.take(raw.len() as int) =~= raw);
    }
    let remainder = match distributable.checked_sub(total_allocated) {
        Some(v) => v,
        None => return Err(ContractError::PayoutOverflow),
    };
    if remainder > 0 && payouts.len() > 0 {
        let first = match payouts[0].checked_add(remainder) {
            Some(v) => v,
            None => return Err(ContractError::PayoutOverflow),
        };
        payouts.set(0, first);
    }
    Ok(payouts)
}

// ─── Composite: full UpDown payout vector ────────────────────────────────────

/// One participant's UpDown position handed to the payout engine.
#[derive(Clone, Copy, Debug, PartialEq, Eq, Structural)]
pub struct UpDownPosition {
    pub index: usize,
    pub amount: i128,
    /// `true` = Up, `false` = Down.
    pub side_up: bool,
}

/// Computed payout for one UpDown participant.
#[derive(Clone, Copy, Debug, PartialEq, Eq, Structural)]
pub struct UpDownPayoutEntry {
    pub index: usize,
    pub stake: i128,
    pub payout: i128,
    pub is_winner: bool,
    pub is_refund: bool,
}

/// A full refund of one position.
pub open spec fn updown_refund(p: UpDownPosition) -> UpDownPayoutEntry {
    UpDownPayoutEntry {
        index: p.index,
        stake: p.amount,
        payout: p.amount,
        is_winner: false,
        is_refund: true,
    }
}

/// The pool of the side that the price move favours.
pub open spec fn winning_pool_of(start_price: u128, final_price: u128, pool_up: i128, pool_down: i128) -> i128 {
    if price_direction(start_price, final_price) == PriceDirection::Up {
        pool_up
    } else {
        pool_down
    }
}

/// The pool of the other side.
pub open spec fn losing_pool_of(start_price: u128, final_price: u128, pool_up: i128, pool_down: i128) -> i128 {
    if price_direction(start_price, final_price) == PriceDirection::Up {
        pool_down
    } else {
        pool_up
    }
}

/// A round is settled competitively when the price moved, both pools hold
/// stakes and the winning pool is not empty; otherwise everyone is refunded.
pub open spec fn updown_competitive(start_price: u128, final_price: u128, pool_up: i128, pool_down: i128) -> bool {
    price_direction(start_price, final_price) != PriceDirection::Unchanged
        && !one_sided(pool_up, pool_down)
        && winning_pool_of(start_price, final_price, pool_up, pool_down) != 0
}

/// The post-fee amount shared by the winners, when the fee succeeds.
pub open spec fn updown_distributable(
    start_price: u128,
    final_price: u128,
    pool_up: i128,
    pool_down: i128,
    fee_bps: Option<u32>,
) -> Result<i128, ContractError> {
    match updown_fee(
        winning_pool_of(start_price, final_price, pool_up, pool_down),
        losing_pool_of(start_price, final_price, pool_up, pool_down),
        fee_bps,
    ) {
        Err(e) => Err(e),
        Ok((dw, dl, _fee)) => payout_add_spec(dw, dl),
    }
}

/// One settled entry of a competitive UpDown round: winners share
/// `td` in proportion to their stake in the winning pool `wp`.
pub open spec fn updown_settled_entry(p: UpDownPosition, up_wins: bool, wp: i128, td: i128) -> UpDownPayoutEntry {
    UpDownPayoutEntry {
        index: p.index,
        stake: p.amount,
        payout: if p.side_up == up_wins {
            div_trunc(p.amount * td, wp as int) as i128
        } else {
            0
        },
        is_winner: p.side_up == up_wins,
        is_refund: false,
    }
}

/// The payout vector of an UpDown round.
pub open spec fn updown_payouts(
    positions: Seq<UpDownPosition>,
    start_price: u128,
    final_price: u128,
    pool_up: i128,
    pool_down: i128,
    fee_bps: Option<u32>,
) -> Result<Seq<UpDownPayoutEntry>, ContractError> {
    if !updown_competitive(start_price, final_price, pool_up, pool_down) {
        Ok(positions.map_values(|p: UpDownPosition| updown_refund(p)))
    } else {
        match updown_distributable(start_price, final_price, pool_up, pool_down, fee_bps) {
            Err(e) => Err(e),
            Ok(td) => {
                let up_wins = price_direction(start_price, final_price) == PriceDirection::Up;
                let wp = winning_pool_of(start_price, final_price, pool_up, pool_down);
                if exists|i: int|
                    0 <= i < positions.len() && positions[i].side_up == up_wins && !fits_i128(
                        #[trigger] positions[i].amount * td,
                    ) {
                    Err(ContractError::PayoutOverflow)
                } else {
                    Ok(
                        positions.map_values(
                            |p: UpDownPosition| updown_settled_entry(p, up_wins, wp, td),
                        ),
                    )
                }
            },
        }
    }
}

/// A winner's payout division whose quotient does not fit an `i128`.
pub open spec fn updown_division_traps(
    positions: Seq<UpDownPosition>,
    start_price: u128,
    final_price: u128,
    pool_up: i128,
    pool_down: i128,
    fee_bps: Option<u32>,
) -> bool {
    updown_competitive(start_price, final_price, pool_up, pool_down) && match updown_distributable(
        start_price,
        final_price,
        pool_up,
        pool_down,
        fee_bps,
    ) {
        Err(_) => false,
        Ok(td) => exists|i: int|
            0 <= i < positions.len() && (positions[i].side_up == (price_direction(
                start_price,
                final_price,
            ) == PriceDirection::Up)) && #[trigger] payout_division_traps(
                positions[i].amount,
                winning_pool_of(start_price, final_price, pool_up, pool_down),
                td,
            ),
    }
}

fn updown_refunds(positions: &[UpDownPosition]) -> (v: Vec<UpDownPayoutEntry>)
    ensures
        v@ == positions@.map_values(|p: UpDownPosition| updown_refund(p)),
{
    let mut results: Vec<UpDownPayoutEntry> = Vec::new();
    let mut i: usize = 0;
    while i < positions.len()
        invariant
            i <= positions@.len(),
            results@ == positions@.take(i as int).map_values(|p: UpDownPosition| updown_refund(p)),
        decreases positions@.len() - i,
    {
        let pos = positions[i];
        results.push(
            UpDownPayoutEntry {
                index: pos.index,
                stake: pos.amount,
                payout: pos.amount,
                is_winner: false,
                is_refund: true,
            },
        );
        proof {
            assert(results@ =~= positions@.take(i + 1).map_values(
                |p: UpDownPosition| updown_refund(p),
            ));
        }
        i = i + 1;
    }
    proof {
        assert(positions@.take(positions@.len() as int) =~= positions@);
    }
    results
}

/// Computes the full payout vector of an UpDown round: one entry per position.
pub fn compute_updown_payouts(
    positions: &[UpDownPosition],
    start_price: u128,
    final_price: u128,
    pool_up: i128,
    pool_down: i128,
    fee_bps: Option<u32>,
) -> (r: Result<Vec<UpDownPayoutEntry>, ContractError>)
    requires
        !updown_division_traps(positions@, start_price, final_price, pool_up, pool_down, fee_bps),
    ensures
        viewed(r) == updown_payouts(positions@, start_price, final_price, pool_up, pool_down, fee_bps),
{
    let direction = classify_price_direction(start_price, final_price);
    let one_sided = is_one_sided_pool(pool_up, pool_down);
    if direction == PriceDirection::Unchanged || one_sided {
        return Ok(updown_refunds(positions));
    }
    let (winning_side_up, winning_pool, losing_pool) = match direction {
        PriceDirection::Up => (true, pool_up, pool_down),
        _ => (false, pool_down, pool_up),
    };
    if winning_pool == 0 {
        return Ok(updown_refunds(positions));
    }
    let (dist_winning, dist_losing, _fee_amount) = compute_updown_fee(
        winning_pool,
        losing_pool,
        fee_bps,
    )?;
    let total_distributable = payout_add(dist_winning, dist_losing)?;
    let ghost ps = positions@;
    let ghost expected = ps.map_values(
        |p: UpDownPosition|
            updown_settled_entry(p, winning_side_up, winning_pool, total_distributable),
    );
    let mut results: Vec<UpDownPayoutEntry> = Vec::new();
    let mut i: usize = 0;
    while i < positions.len()
        invariant
            ps == positions@,
            i <= ps.len(),
            winning_side_up == (price_direction(start_price, final_price) == PriceDirection::Up),
            winning_pool == winning_pool_of(start_price, final_price, pool_up, pool_down),
            updown_competitive(start_price, final_price, pool_up, pool_down),
            updown_distributable(start_price, final_price, pool_up, pool_down, fee_bps) == Ok::<
                i128,
                ContractError,
            >(total_distributable),
            !updown_division_traps(ps, start_price, final_price, pool_up, pool_down, fee_bps),
            forall|k: int|
                0 <= k < i && ps[k].side_up == winning_side_up ==> fits_i128(
                    #[trigger] ps[k].amount * total_distributable,
                ),
            expected == ps.map_values(
                |p: UpDownPosition|
                    updown_settled_entry(p, winning_side_up, winning_pool, total_distributable),
            ),
            results@ == expected.take(i as int),
        decreases ps.len() - i,
    {
        let pos = positions[i];
        let is_winner = pos.side_up == winning_side_up;
        let payout = if is_winner {
            proof {
                assert(!payout_division_traps(pos.amount, winning_pool, total_distributable));
            }
            match compute_updown_winner_payout(pos.amount, winning_pool, total_distributable) {
                Ok(p) => p,
                Err(e) => {
                    proof {
                        assert(!fits_i128(ps[i as int].amount * total_distributable));
                    }
                    return Err(e);
                },
            }
        } else {
            0
        };
        results.push(
            UpDownPayoutEntry {
                index: pos.index,
                stake: pos.amount,
                payout,
                is_winner,
                is_refund: false,
            },
        );
        proof {
            assert(results@ =~= expected.take(i + 1));
        }
        i = i + 1;
    }
    proof {
        assert(expected.take(ps.len() as int) =~= expected);
    }
    Ok(results)
}

// ─── Composite: full Precision payout vector ─────────────────────────────────

/// Computed payout for one Precision participant.
#[derive(Clone, Copy, Debug, PartialEq, Eq, Structural)]
pub struct PrecisionPayoutEntry {
    pub index: usize,
    pub stake: i128,
    pub predicted_price: u128,
    pub payout: i128,
    pub is_winner: bool,
    pub is_refund: bool,
}

/// The first position of `x` in `s`.
pub open spec fn first_position(s: Seq<usize>, x: usize) -> Option<int>
    decreases s.len(),
{
    if s.len() == 0 {
        None
    } else {
        match first_position(s.drop_last(), x) {
            Some(p) => Some(p),
            None => if s.last() == x {
                Some(s.len() - 1)
            } else {
                None
            },
        }
    }
}

/// A Precision entry paid `payout` with the given flags.
pub open spec fn precision_entry(e: PrecisionEntry, payout: i128, is_winner: bool, is_refund: bool) -> PrecisionPayoutEntry {
    PrecisionPayoutEntry {
        index: e.index,
        stake: e.amount,
        predicted_price: e.predicted_price,
        payout,
        is_winner,
        is_refund,
    }
}

/// A settled entry: a winner receives the share at its first position among
/// the winners, everyone else nothing.
pub open spec fn precision_settled_entry(e: PrecisionEntry, winners: Seq<usize>, shares: Seq<i128>) -> PrecisionPayoutEntry {
    match first_position(winners, e.index) {
        Some(p) => precision_entry(e, shares[p], true, false),
        None => precision_entry(e, 0, false, false),
    }
}

/// The stakes of the winners, looked up by winner index.
pub open spec fn winner_stakes_of(entries: Seq<PrecisionEntry>, winners: Seq<usize>) -> Seq<i128> {
    winners.map_values(|idx: usize| entries[idx as int].amount)
}

/// The shares of the winners under a payout policy.
pub open spec fn winner_shares(
    entries: Seq<PrecisionEntry>,
    winners: Seq<usize>,
    distributable: i128,
    policy: PrecisionPayoutPolicy,
) -> Result<Seq<i128>, ContractError> {
    match policy {
        PrecisionPayoutPolicy::Equal => Ok(equal_split(distributable, winners.len())),
        PrecisionPayoutPolicy::StakeWeighted => stake_weighted_split(
            distributable,
            winner_stakes_of(entries, winners),
        ),
    }
}

/// The payout vector of a Precision round: everyone is refunded when nobody
/// revealed, nobody is paid when there is no positive pot, and otherwise the
/// post-fee pot is shared among the winners.
pub open spec fn precision_payouts(
    entries: Seq<PrecisionEntry>,
    final_price: u128,
    fee_bps: Option<u32>,
    scoring: PrecisionScoringPolicy,
    policy: PrecisionPayoutPolicy,
) -> Result<Seq<PrecisionPayoutEntry>, ContractError> {
    let winners = precision_winners(entries, final_price, scoring);
    let pot = saturating_pot(entries);
    if winners.len() == 0 && pot > 0 {
        Ok(entries.map_values(|e: PrecisionEntry| precision_entry(e, e.amount, false, true)))
    } else if pot <= 0 || winners.len() == 0 {
        Ok(entries.map_values(|e: PrecisionEntry| precision_entry(e, 0, false, false)))
    } else {
        match precision_fee(pot, fee_bps) {
            Err(e) => Err(e),
            Ok((dist, _fee)) => match winner_shares(entries, winners, dist, policy) {
                Err(e) => Err(e),
                Ok(shares) => Ok(
                    entries.map_values(
                        |e: PrecisionEntry| precision_settled_entry(e, winners, shares),
                    ),
                ),
            },
        }
    }
}

/// Whether the pot reaches the winners (there are winners and a positive pot
/// whose fee is computable), and with which distributable amount.
pub open spec fn precision_distributable(
    entries: Seq<PrecisionEntry>,
    final_price: u128,
    fee_bps: Option<u32>,
    scoring: PrecisionScoringPolicy,
) -> Option<i128> {
    let winners = precision_winners(entries, final_price, scoring);
    let pot = saturating_pot(entries);
    if winners.len() == 0 || pot <= 0 {
        None
    } else {
        match precision_fee(pot, fee_bps) {
            Err(_) => None,
            Ok((dist, _fee)) => Some(dist),
        }
    }
}

/// The splits that cannot be indexed: the fee takes the whole pot so no share
/// exists for a winner, a winner index does not name an entry, or a
/// stake-weighted division does not fit an `i128`.
pub open spec fn precision_split_traps(
    entries: Seq<PrecisionEntry>,
    final_price: u128,
    fee_bps: Option<u32>,
    scoring: PrecisionScoringPolicy,
    policy: PrecisionPayoutPolicy,
) -> bool {
    let winners = precision_winners(entries, final_price, scoring);
    match precision_distributable(entries, final_price, fee_bps, scoring) {
        None => false,
        Some(dist) => dist <= 0 || (policy == PrecisionPayoutPolicy::StakeWeighted && ((exists|
            k: int,
        |
            0 <= k < winners.len() && #[trigger] winners[k] >= entries.len())
            || stake_division_traps(dist, winner_stakes_of(entries, winners)))),
    }
}

/// Pays every entry a fixed amount with fixed flags.
fn precision_uniform(entries: &[PrecisionEntry], refund: bool) -> (v: Vec<PrecisionPayoutEntry>)
    ensures
        v@ == entries@.map_values(
            |e: PrecisionEntry|
                precision_entry(
                    e,
                    if refund {
                        e.amount
                    } else {
                        0
                    },
                    false,
                    refund,
                ),
        ),
{
    let ghost es = entries@;
    let ghost expected = es.map_values(
        |e: PrecisionEntry|
            precision_entry(
                e,
                if refund {
                    e.amount
                } else {
                    0
                },
                false,
                refund,
            ),
    );
    let mut payouts: Vec<PrecisionPayoutEntry> = Vec::new();
    let mut i: usize = 0;
    while i < entries.len()
        invariant
            es == entries@,
            i <= es.len(),
            expected == es.map_values(
                |e: PrecisionEntry|
                    precision_entry(
                        e,
                        if refund {
                            e.amount
                        } else {
                            0
                        },
                        false,
                        refund,
                    ),
            ),
            payouts@ == expected.take(i as int),
        decreases es.len() - i,
    {
        let entry = entries[i];
        payouts.push(
            PrecisionPayoutEntry {
                index: entry.index,
                stake: entry.amount,
                predicted_price: entry.predicted_price,
                payout: if refund {
                    entry.amount
                } else {
                    0
                },
                is_winner: false,
                is_refund: refund,
            },
        );
        proof {
            assert(payouts@ =~= expected.take(i + 1));
        }
        i = i + 1;
    }
    proof {
        assert(expected.take(es.len() as int) =~= expected);
    }
    payouts
}

/// The first position of `x` in `v`.
fn position_of(v: &Vec<usize>, x: usize) -> (p: Option<usize>)
    ensures
        match first_position(v@, x) {
            Some(q) => p == Some(q as usize),
            None => p is None,
        },
{
    let mut i: usize = 0;
    while i < v.len()
        invariant
            i <= v@.len(),
            first_position(v@.take(i as int), x) is None,
        decreases v@.len() - i,
    {
        proof {
            assert(v@.take(i + 1).drop_last() =~= v@.take(i as int));
        }
        if v[i] == x {
            proof {
                lemma_first_position_prefix(v@, x, i as int + 1);
            }
            return Some(i);
        }
        i = i + 1;
    }
    proof {
        assert(v@.take(v@.len() as int) =~= v@);
    }
    None
}

/// A position found in a prefix is the first position in the whole sequence.
proof fn lemma_first_position_prefix(s: Seq<usize>, x: usize, n: int)
    requires
        0 <= n <= s.len(),
        first_position(s.take(n), x) is Some,
    ensures
        first_position(s, x) == first_position(s.take(n), x),
    decreases s.len() - n,
{
    if n < s.len() {
        assert(s.take(n + 1).drop_last() =~= s.take(n));
        lemma_first_position_prefix(s, x, n + 1);
    } else {
        assert(s.take(n) =~= s);
    }
}

/// The first position found is in range.
proof fn lemma_first_position_bound(s: Seq<usize>, x: usize)
    ensures
        first_position(s, x) matches Some(p) ==> 0 <= p < s.len() && s[p] == x,
    decreases s.len(),
{
    if s.len() > 0 {
        lemma_first_position_bound(s.drop_last(), x);
    }
}

/// Computes the Precision payout vector under absolute scoring and equal
/// split.
pub fn compute_precision_payouts(
    entries: &[PrecisionEntry],
    final_price: u128,
    fee_bps: Option<u32>,
) -> (r: Result<Vec<PrecisionPayoutEntry>, ContractError>)
    requires
        !precision_split_traps(
            entries@,
            final_price,
            fee_bps,
            PrecisionScoringPolicy {
                mode: PrecisionScoringMode::AbsoluteDistance,
                confidence_band: None,
            },
            PrecisionPayoutPolicy::Equal,
        ),
    ensures
        viewed(r) == precision_payouts(
            entries@,
            final_price,
            fee_bps,
            PrecisionScoringPolicy {
                mode: PrecisionScoringMode::AbsoluteDistance,
                confidence_band: None,
            },
            PrecisionPayoutPolicy::Equal,
        ),
{
    compute_precision_payouts_with_policy(
        entries,
        final_price,
        fee_bps,
        PrecisionScoringPolicy {
            mode: PrecisionScoringMode::AbsoluteDistance,
            confidence_band: None,
        },
        PrecisionPayoutPolicy::Equal,
    )
}

/// Computes the Precision payout vector under explicit scoring and payout
/// policies: one entry per prediction, in entry order.
pub fn compute_precision_payouts_with_policy(
    entries: &[PrecisionEntry],
    final_price: u128,
    fee_bps: Option<u32>,
    scoring_policy: PrecisionScoringPolicy,
    payout_policy: PrecisionPayoutPolicy,
) -> (r: Result<Vec<PrecisionPayoutEntry>, ContractError>)
    requires
        !precision_split_traps(entries@, final_price, fee_bps, scoring_policy, payout_policy),
    ensures
        viewed(r) == precision_payouts(
            entries@,
            final_price,
            fee_bps,
            scoring_policy,
            payout_policy,
        ),
{
    let ghost es = entries@;
    let result = find_precision_winners_with_policy(entries, final_price, scoring_policy);
    let ghost winners = result.winner_indices@;
    if result.winner_indices.len() == 0 && result.total_pot > 0 {
        let v = precision_uniform(entries, true);
        assert(v@ =~= es.map_values(
            |e: PrecisionEntry| precision_entry(e, e.amount, false, true),
        ));
        return Ok(v);
    }
    if result.total_pot <= 0 || result.winner_indices.len() == 0 {
        let v = precision_uniform(entries, false);
        assert(v@ =~= es.map_values(|e: PrecisionEntry| precision_entry(e, 0, false, false)));
        return Ok(v);
    }
    let (distributable, _fee_amount) = compute_precision_fee(result.total_pot, fee_bps)?;
    let winner_payouts = match payout_policy {
        PrecisionPayoutPolicy::Equal => {
            match split_pot_among_winners(distributable, result.winner_indices.len()) {
                Ok(v) => v,
                Err(e) => return Err(e),
            }
        },
        PrecisionPayoutPolicy::StakeWeighted => {
            let mut winner_stakes: Vec<i128> = Vec::new();
            let mut k: usize = 0;
            while k < result.winner_indices.len()
                invariant
                    es == entries@,
                    winners == result.winner_indices@,
                    k <= winners.len(),
                    forall|j: int| 0 <= j < winners.len() ==> #[trigger] winners[j] < es.len(),
                    winner_stakes@ == winner_stakes_of(es, winners).take(k as int),
                decreases winners.len() - k,
            {
                let idx = result.winner_indices[k];
                winner_stakes.push(entries[idx].amount);
                proof {
                    assert(winner_stakes@ =~= winner_stakes_of(es, winners).take(k + 1));
                }
                k = k + 1;
            }
            proof {
                assert(winner_stakes_of(es, winners).take(winners.len() as int) =~= winner_stakes_of(es, winners));
            }
            match split_pot_stake_weighted(distributable, winner_stakes.as_slice()) {
                Ok(v) => v,
                Err(e) => return Err(e),
            }
        },
    };
    let ghost shares = winner_payouts@;
    assert(shares.len() == winners.len());
    let mut payouts: Vec<PrecisionPayoutEntry> = Vec::new();
    let mut i: usize = 0;
    while i < entries.len()
        invariant
            es == entries@,
            winners == result.winner_indices@,
            shares == winner_payouts@,
            shares.len() == winners.len(),
            i <= es.len(),
            payouts@ == es.take(i as int).map_values(
                |e: PrecisionEntry| precision_settled_entry(e, winners, shares),
            ),
        decreases es.len() - i,
    {
        let entry = entries[i];
        let winner_pos = position_of(&result.winner_indices, entry.index);
        proof {
            lemma_first_position_bound(winners, entry.index);
        }
        let item = match winner_pos {
            Some(pos) => PrecisionPayoutEntry {
                index: entry.index,
                stake: entry.amount,
                predicted_price: entry.predicted_price,
                payout: winner_payouts[pos],
                is_winner: true,
                is_refund: false,
            },
            None => PrecisionPayoutEntry {
                index: entry.index,
                stake: entry.amount,
                predicted_price: entry.predicted_price,
                payout: 0,
                is_winner: false,
                is_refund: false,
            },
        };
        payouts.push(item);
        proof {
            assert(payouts@ =~= es.take(i + 1).map_values(
                |e: PrecisionEntry| precision_settled_entry(e, winners, shares),
            ));
        }
        i = i + 1;
    }
    proof {
        assert(es.take(es.len() as int) =~= es);
    }
    Ok(payouts)
}

// ─── Oracle deviation math ───────────────────────────────────────────────────

/// `|price - reference| * 10_000 / reference`, in basis points.
pub open spec fn deviation_bps(price: u128, reference: u128) -> Result<u32, ContractError> {
    if reference == 0 {
        Err(ContractError::InvalidPrice)
    } else if !fits_u128(abs_diff(price, reference) * 10_000) {
        Err(ContractError::Overflow)
    } else if (abs_diff(price, reference) * 10_000) / (reference as int) > u32::MAX {
        Err(ContractError::Overflow)
    } else {
        Ok(((abs_diff(price, reference) * 10_000) / (reference as int)) as u32)
    }
}

/// Basis-point deviation of `price` from `reference`.
pub fn compute_deviation_bps(price: u128, reference: u128) -> (r: Result<u32, ContractError>)
    ensures
        r == deviation_bps(price, reference),
{
    if reference == 0 {
        return Err(ContractError::InvalidPrice);
    }
    let diff = if price >= reference {
        price - reference
    } else {
        reference - price
    };
    let scaled = match diff.checked_mul(10_000u128) {
        Some(v) => v,
        None => return Err(ContractError::Overflow),
    };
    let diff_bps = scaled / reference;
    if diff_bps > u32::MAX as u128 {
        return Err(ContractError::Overflow);
    }
    Ok(diff_bps as u32)
}

// ─── Median computation (multi-feed) ─────────────────────────────────────────

/// `s` is in non-decreasing order.
pub open spec fn sorted(s: Seq<u128>) -> bool {
    forall|i: int, j: int| 0 <= i <= j < s.len() ==> s[i] <= s[j]
}

/// Sorts prices in place (insertion sort): the result is ordered and holds
/// the same prices.
pub fn sort_prices_in_place(prices: &mut [u128])
    ensures
        sorted(final(prices)@),
        final(prices)@.to_multiset() == old(prices)@.to_multiset(),
        final(prices)@.len() == old(prices)@.len(),
{
    broadcast use vstd::seq_lib::to_multiset_update;

    let ghost initial = prices@;
    let n = prices.len();
    if n == 0 {
        return;
    }
    let mut i: usize = 1;
    while i < n
        invariant
            n == prices@.len(),
            1 <= i <= n,
            sorted(prices@.take(i as int)),
            prices@.to_multiset() == initial.to_multiset(),
        decreases n - i,
    {
        let key = prices[i];
        proof {
            assert(prices@.update(i as int, key) =~= prices@);
            assert forall|a: int, b: int| 0 <= a <= b < i implies prices@[a] <= prices@[b] by {
                assert(prices@.take(i as int)[a] == prices@[a]);
                assert(prices@.take(i as int)[b] == prices@[b]);
            }
        }
        let mut j: usize = i;
        while j > 0 && prices[j - 1] > key
            invariant
                n == prices@.len(),
                0 <= j <= i < n,
                prices@.update(j as int, key).to_multiset() == initial.to_multiset(),
                // prefix before the hole stays sorted
                forall|a: int, b: int| 0 <= a <= b < j ==> prices@[a] <= prices@[b],
                // the shifted block is sorted and above key
                forall|a: int, b: int| j < a <= b <= i ==> prices@[a] <= prices@[b],
                forall|a: int| j < a <= i ==> prices@[a] > key,
                // the element just below the hole is at most the shifted block
                forall|a: int, b: int| 0 <= a < j && j < b <= i ==> prices@[a] <= prices@[b],
            decreases j,
        {
            let ghost before = prices@;
            let v = prices[j - 1];
            prices[j] = v;
            proof {
                assert(before.update(j as int, key) =~= before.update(j as int, key));
                let s1 = before.update(j as int, key);
                let s2 = prices@.update(j - 1, key);
                // s2 is s1 with the values at j-1 and j exchanged
                assert(s2 =~= s1.update(j - 1, key).update(j as int, v));
                lemma_swap_keeps_multiset(s1, j - 1, j as int);
                assert(s1[j - 1] == v);
                assert(s1[j as int] == key);
            }
            j = j - 1;
        }
        prices[j] = key;
        proof {
            assert(prices@ =~= prices@.update(j as int, key));
        }
        i = i + 1;
    }
    proof {
        assert(prices@.take(n as int) =~= prices@);
    }
}

/// Exchanging two elements keeps the multiset of a sequence.
proof fn lemma_swap_keeps_multiset(s: Seq<u128>, a: int, b: int)
    requires
        0 <= a < s.len(),
        0 <= b < s.len(),
        a != b,
    ensures
        s.update(a, s[b]).update(b, s[a]).to_multiset() == s.to_multiset(),
{
    broadcast use vstd::seq_lib::to_multiset_update;
    broadcast use vstd::multiset::group_multiset_properties;
    broadcast use vstd::multiset::group_multiset_axioms;
    broadcast use vstd::seq_lib::to_multiset_contains;

    let t = s.update(a, s[b]);
    assert(s.contains(s[a]));
    assert(s.to_multiset().count(s[a]) > 0);
    assert(t[b] == s[b]);
    assert(t.to_multiset() == s.to_multiset().insert(s[b]).remove(s[a]));
    assert(t.update(b, s[a]).to_multiset() == t.to_multiset().insert(s[a]).remove(s[b]));
    assert(s.to_multiset().insert(s[b]).remove(s[a]).insert(s[a]).remove(s[b]) =~= s.to_multiset());
}

/// The median of a sorted sequence: the middle element, or the floor
/// average of the two middle elements, taken exactly.
pub open spec fn median(s: Seq<u128>) -> Option<u128> {
    if s.len() == 0 {
        None
    } else if s.len() % 2 == 1 {
        Some(s[(s.len() / 2) as int])
    } else {
        Some(((s[s.len() / 2 - 1] + s[(s.len() / 2) as int]) / 2) as u128)
    }
}

/// Median of a sorted slice of prices; `None` for no prices.
pub fn median_of_sorted(prices: &[u128]) -> (m: Option<u128>)
    ensures
        m == median(prices@),
{
    let n = prices.len();
    if n == 0 {
        return None;
    }
    if n % 2 == 1 {
        Some(prices[n / 2])
    } else {
        let mid1 = prices[n / 2 - 1];
        let mid2 = prices[n / 2];
        // The floor of the exact average, without forming the sum.
        let avg = mid1 / 2 + mid2 / 2 + (mid1 % 2 + mid2 % 2) / 2;
        assert(avg == (mid1 + mid2) / 2);
        Some(avg)
    }
}

/// On a sorted sequence of two or more prices the median lies between the
/// two middle prices (and is the middle one for an odd count).
pub proof fn law_median_between_middles(s: Seq<u128>)
    requires
        s.len() > 0,
        forall|i: int, j: int| 0 <= i <= j < s.len() ==> s[i] <= s[j],
    ensures
        s.len() % 2 == 1 ==> median(s) == Some(s[(s.len() / 2) as int]),
        s.len() % 2 == 0 ==> s[s.len() / 2 - 1] <= median(s)->0 <= s[(s.len() / 2) as int],
{
    if s.len() % 2 == 0 {
        assert(s[s.len() / 2 - 1] <= s[(s.len() / 2) as int]);
    }
}

// ─── Total pot computation ───────────────────────────────────────────────────

/// Total pot of an UpDown round, saturating at the bounds of `i128`.
pub fn total_pot_updown(pool_up: i128, pool_down: i128) -> (t: i128)
    ensures
        t == sat_add_i128(pool_up, pool_down),
{
    saturating_add_i128(pool_up, pool_down)
}

/// Saturating running sum of stakes.
pub open spec fn saturating_sum(s: Seq<i128>) -> i128
    decreases s.len(),
{
    if s.len() == 0 {
        0
    } else {
        sat_add_i128(saturating_sum(s.drop_last()), s.last())
    }
}

/// Total pot of a Precision round, saturating at the bounds of `i128`.
pub fn total_pot_precision(stakes: &[i128]) -> (t: i128)
    ensures
        t == saturating_sum(stakes@),
{
    let mut acc: i128 = 0;
    let mut i: usize = 0;
    while i < stakes.len()
        invariant
            i <= stakes@.len(),
            acc == saturating_sum(stakes@.take(i as int)),
        decreases stakes@.len() - i,
    {
        proof {
            assert(stakes@.take(i + 1).drop_last() =~= stakes@.take(i as int));
        }
        acc = saturating_add_i128(acc, stakes[i]);
        i = i + 1;
    }
    proof {
        assert(stakes@.take(stakes@.len() as int) =~= stakes@);
    }
    acc
}

} // verus!
