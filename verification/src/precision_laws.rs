//! Properties of the Precision winner search and payout vector.
use vstd::prelude::*;

use crate::settlement_math::{
    best_score, loser_indices, precision_payouts, precision_winners, prediction_score,
    revealed_scores, saturating_pot, score_wins, winning_indices, PrecisionEntry,
    PrecisionPayoutPolicy, PrecisionScoringMode, PrecisionScoringPolicy,
};

verus! {

/// The revealed entry that the `k`-th score comes from.
proof fn score_source(
    entries: Seq<PrecisionEntry>,
    final_price: u128,
    mode: PrecisionScoringMode,
    k: int,
) -> (i: int)
    requires
        0 <= k < revealed_scores(entries, final_price, mode).len(),
    ensures
        0 <= i < entries.len(),
        entries[i].revealed,
        entries[i].index == revealed_scores(entries, final_price, mode)[k].0,
        prediction_score(entries[i].predicted_price, final_price, mode) == revealed_scores(
            entries,
            final_price,
            mode,
        )[k].1,
    decreases entries.len(),
{
    let prev = entries.drop_last();
    let sp = revealed_scores(prev, final_price, mode);
    if k < sp.len() {
        let i = score_source(prev, final_price, mode, k);
        assert(entries[i] == prev[i]);
        i
    } else {
        entries.len() - 1
    }
}

/// The position of the score of a revealed entry.
proof fn score_of_entry(
    entries: Seq<PrecisionEntry>,
    final_price: u128,
    mode: PrecisionScoringMode,
    i: int,
) -> (k: int)
    requires
        0 <= i < entries.len(),
        entries[i].revealed,
    ensures
        0 <= k < revealed_scores(entries, final_price, mode).len(),
        revealed_scores(entries, final_price, mode)[k] == (
            entries[i].index,
            prediction_score(entries[i].predicted_price, final_price, mode),
        ),
    decreases entries.len(),
{
    let prev = entries.drop_last();
    let sp = revealed_scores(prev, final_price, mode);
    if i < prev.len() {
        assert(prev[i] == entries[i]);
        score_of_entry(prev, final_price, mode, i)
    } else {
        sp.len() as int
    }
}

/// The best score is at most every score.
proof fn lemma_best_is_lowest(scores: Seq<(usize, u128)>, k: int)
    requires
        0 <= k < scores.len(),
    ensures
        best_score(scores) matches Some(b) && b <= scores[k].1,
    decreases scores.len(),
{
    let prev = scores.drop_last();
    if k < prev.len() {
        lemma_best_is_lowest(prev, k);
    }
}

/// A position holding the best score.
proof fn best_position(scores: Seq<(usize, u128)>) -> (k: int)
    requires
        scores.len() > 0,
    ensures
        0 <= k < scores.len(),
        best_score(scores) == Some(scores[k].1),
    decreases scores.len(),
{
    let prev = scores.drop_last();
    if prev.len() == 0 {
        0
    } else {
        let k0 = best_position(prev);
        if scores.last().1 < prev[k0].1 {
            scores.len() - 1
        } else {
            k0
        }
    }
}

/// The score a winner comes from.
proof fn winner_source(scores: Seq<(usize, u128)>, best: u128, band: Option<u128>, j: int) -> (k:
    int)
    requires
        0 <= j < winning_indices(scores, best, band).len(),
    ensures
        0 <= k < scores.len(),
        scores[k].0 == winning_indices(scores, best, band)[j],
        score_wins(scores[k].1, best, band),
    decreases scores.len(),
{
    let prev = scores.drop_last();
    let wp = winning_indices(prev, best, band);
    if j < wp.len() {
        winner_source(prev, best, band, j)
    } else {
        scores.len() - 1
    }
}

/// A winning score puts its index among the winners.
proof fn lemma_winning_score_wins(scores: Seq<(usize, u128)>, best: u128, band: Option<u128>, k: int)
    requires
        0 <= k < scores.len(),
        score_wins(scores[k].1, best, band),
    ensures
        winning_indices(scores, best, band).contains(scores[k].0),
    decreases scores.len(),
{
    let prev = scores.drop_last();
    let w = winning_indices(scores, best, band);
    if k < prev.len() {
        lemma_winning_score_wins(prev, best, band, k);
        let wp = winning_indices(prev, best, band);
        let j = choose|j: int| 0 <= j < wp.len() && wp[j] == prev[k].0;
        assert(w[j] == wp[j]);
    } else {
        assert(w[w.len() - 1] == scores[k].0);
    }
}

/// Every winner is the index of a revealed entry, and there is a winner
/// exactly when some entry was revealed.
pub proof fn law_winners_are_revealed(
    entries: Seq<PrecisionEntry>,
    final_price: u128,
    policy: PrecisionScoringPolicy,
)
    ensures
        forall|j: int|
            #![trigger precision_winners(entries, final_price, policy)[j]]
            0 <= j < precision_winners(entries, final_price, policy).len() ==> exists|i: int|
                0 <= i < entries.len() && (#[trigger] entries[i]).revealed && entries[i].index
                    == precision_winners(entries, final_price, policy)[j],
        precision_winners(entries, final_price, policy).len() > 0 <==> exists|i: int|
            0 <= i < entries.len() && (#[trigger] entries[i]).revealed,
{
    let scores = revealed_scores(entries, final_price, policy.mode);
    let w = precision_winners(entries, final_price, policy);
    if scores.len() == 0 {
        if exists|i: int| 0 <= i < entries.len() && (#[trigger] entries[i]).revealed {
            let i = choose|i: int| 0 <= i < entries.len() && (#[trigger] entries[i]).revealed;
            let _k = score_of_entry(entries, final_price, policy.mode, i);
        }
    } else {
        let kb = best_position(scores);
        let best = scores[kb].1;
        assert forall|j: int| #![trigger w[j]] 0 <= j < w.len() implies exists|i: int|
            0 <= i < entries.len() && (#[trigger] entries[i]).revealed && entries[i].index
                == w[j] by {
            let k = winner_source(scores, best, policy.confidence_band, j);
            let i = score_source(entries, final_price, policy.mode, k);
            assert(entries[i].revealed);
        }
        lemma_winning_score_wins(scores, best, policy.confidence_band, kb);
        let i = score_source(entries, final_price, policy.mode, kb);
        assert(entries[i].revealed);
    }
}

/// Without a tolerance band no revealed entry scores lower than a winner:
/// every winner's score is the smallest score among the revealed entries.
pub proof fn law_exact_winner_is_closest(
    entries: Seq<PrecisionEntry>,
    final_price: u128,
    mode: PrecisionScoringMode,
    j: int,
    i: int,
)
    requires
        0 <= j < precision_winners(
            entries,
            final_price,
            PrecisionScoringPolicy { mode, confidence_band: None },
        ).len(),
        0 <= i < entries.len(),
        entries[i].revealed,
    ensures
        exists|w: int|
            0 <= w < entries.len() && (#[trigger] entries[w]).revealed && entries[w].index
                == precision_winners(
                entries,
                final_price,
                PrecisionScoringPolicy { mode, confidence_band: None },
            )[j] && prediction_score(entries[w].predicted_price, final_price, mode)
                <= prediction_score(entries[i].predicted_price, final_price, mode),
{
    let scores = revealed_scores(entries, final_price, mode);
    let kb = best_position(scores);
    let best = scores[kb].1;
    let k = winner_source(scores, best, None, j);
    let w = score_source(entries, final_price, mode, k);
    let ki = score_of_entry(entries, final_price, mode, i);
    lemma_best_is_lowest(scores, ki);
    assert(entries[w].revealed);
}

/// Without a tolerance band every revealed entry whose score equals a
/// winner's score is itself a winner.
pub proof fn law_exact_ties_all_win(
    entries: Seq<PrecisionEntry>,
    final_price: u128,
    mode: PrecisionScoringMode,
    w: int,
    i: int,
)
    requires
        0 <= w < entries.len(),
        0 <= i < entries.len(),
        entries[w].revealed,
        entries[i].revealed,
        forall|v: int|
            0 <= v < entries.len() && (#[trigger] entries[v]).revealed ==> prediction_score(
                entries[w].predicted_price,
                final_price,
                mode,
            ) <= prediction_score(entries[v].predicted_price, final_price, mode),
        prediction_score(entries[i].predicted_price, final_price, mode) == prediction_score(
            entries[w].predicted_price,
            final_price,
            mode,
        ),
    ensures
        precision_winners(
            entries,
            final_price,
            PrecisionScoringPolicy { mode, confidence_band: None },
        ).contains(entries[i].index),
{
    let scores = revealed_scores(entries, final_price, mode);
    let kw = score_of_entry(entries, final_price, mode, w);
    let kb = best_position(scores);
    let e = score_source(entries, final_price, mode, kb);
    assert(entries[e].revealed);
    lemma_best_is_lowest(scores, kw);
    let ki = score_of_entry(entries, final_price, mode, i);
    lemma_winning_score_wins(scores, scores[kb].1, None, ki);
}

/// When nobody revealed and the pot is positive, every participant gets
/// their stake back.
pub proof fn law_all_unrevealed_refunds(
    entries: Seq<PrecisionEntry>,
    final_price: u128,
    fee_bps: Option<u32>,
    scoring: PrecisionScoringPolicy,
    policy: PrecisionPayoutPolicy,
)
    requires
        forall|i: int| 0 <= i < entries.len() ==> !(#[trigger] entries[i]).revealed,
        saturating_pot(entries) > 0,
    ensures
        precision_payouts(entries, final_price, fee_bps, scoring, policy) matches Ok(v) && v.len()
            == entries.len() && forall|i: int|
            0 <= i < v.len() ==> (#[trigger] v[i]).payout == entries[i].amount && v[i].is_refund
                && !v[i].is_winner,
{
    law_winners_are_revealed(entries, final_price, scoring);
}

/// Every entry is either among the winners or among the losers.
pub proof fn law_winners_and_losers_cover_entries(
    entries: Seq<PrecisionEntry>,
    final_price: u128,
    policy: PrecisionScoringPolicy,
)
    ensures
        forall|i: int|
            0 <= i < entries.len() ==> precision_winners(entries, final_price, policy).contains(
                (#[trigger] entries[i]).index,
            ) || loser_indices(entries, precision_winners(entries, final_price, policy)).contains(
                entries[i].index,
            ),
{
    let w = precision_winners(entries, final_price, policy);
    assert forall|i: int| 0 <= i < entries.len() implies w.contains((#[trigger] entries[i]).index)
        || loser_indices(entries, w).contains(entries[i].index) by {
        lemma_entry_covered(entries, w, i);
    }
}

proof fn lemma_entry_covered(entries: Seq<PrecisionEntry>, winners: Seq<usize>, i: int)
    requires
        0 <= i < entries.len(),
    ensures
        winners.contains(entries[i].index) || loser_indices(entries, winners).contains(
            entries[i].index,
        ),
    decreases entries.len(),
{
    let prev = entries.drop_last();
    let l = loser_indices(entries, winners);
    let lp = loser_indices(prev, winners);
    if !winners.contains(entries[i].index) {
        if i < prev.len() {
            assert(prev[i] == entries[i]);
            lemma_entry_covered(prev, winners, i);
            let j = choose|j: int| 0 <= j < lp.len() && lp[j] == entries[i].index;
            assert(l[j] == lp[j]);
        } else {
            assert(l[l.len() - 1] == entries[i].index);
        }
    }
}

/// Winning under a band `a` that is no wider than `b` means winning under
/// `b`, score by score: for `a == None` (exact only) and `b` any band, or
/// `a == Some(x)`, `b == Some(y)` with `x <= y`.
pub open spec fn band_within(a: Option<u128>, b: Option<u128>) -> bool {
    match (a, b) {
        (None, _) => true,
        (Some(x), Some(y)) => x <= y,
        (Some(_), None) => false,
    }
}

proof fn lemma_winning_indices_grow(
    scores: Seq<(usize, u128)>,
    best: u128,
    a: Option<u128>,
    b: Option<u128>,
    x: usize,
)
    requires
        band_within(a, b),
        winning_indices(scores, best, a).contains(x),
    ensures
        winning_indices(scores, best, b).contains(x),
    decreases scores.len(),
{
    let prev_a = winning_indices(scores.drop_last(), best, a);
    let prev_b = winning_indices(scores.drop_last(), best, b);
    let s = scores.last().1;
    assert(score_wins(s, best, a) ==> score_wins(s, best, b));
    if prev_a.contains(x) {
        lemma_winning_indices_grow(scores.drop_last(), best, a, b, x);
        if score_wins(s, best, b) {
            let k = choose|k: int| 0 <= k < prev_b.len() && prev_b[k] == x;
            assert(prev_b.push(scores.last().0)[k] == x);
        }
    } else {
        assert(score_wins(s, best, a) && scores.last().0 == x);
        assert(prev_b.push(scores.last().0)[prev_b.len() as int] == x);
    }
}

/// Widening the confidence band never removes a winner: every exact
/// winner wins under any band, and every winner under a band wins under
/// any wider band.
pub proof fn law_winners_grow_with_band(
    entries: Seq<PrecisionEntry>,
    final_price: u128,
    mode: PrecisionScoringMode,
    b1: u128,
    b2: u128,
    x: usize,
)
    requires
        b1 <= b2,
    ensures
        precision_winners(
            entries,
            final_price,
            PrecisionScoringPolicy { mode, confidence_band: None },
        ).contains(x) ==> precision_winners(
            entries,
            final_price,
            PrecisionScoringPolicy { mode, confidence_band: Some(b1) },
        ).contains(x),
        precision_winners(
            entries,
            final_price,
            PrecisionScoringPolicy { mode, confidence_band: Some(b1) },
        ).contains(x) ==> precision_winners(
            entries,
            final_price,
            PrecisionScoringPolicy { mode, confidence_band: Some(b2) },
        ).contains(x),
{
    let scores = revealed_scores(entries, final_price, mode);
    if let Some(best) = best_score(scores) {
        if winning_indices(scores, best, None).contains(x) {
            lemma_winning_indices_grow(scores, best, None, Some(b1), x);
        }
        if winning_indices(scores, best, Some(b1)).contains(x) {
            lemma_winning_indices_grow(scores, best, Some(b1), Some(b2), x);
        }
    }
}


/// The score of a prediction measures its distance to the final price:
/// under `AbsoluteDistance` it is that distance; under `RelativeDistance`
/// (with a positive final price) it is that distance in basis points of
/// the final price, rounded down (saturating where the product overflows),
/// so for one final price a closer prediction never scores worse.
pub proof fn law_score_ranks_by_distance(p1: u128, p2: u128, final_price: u128)
    ensures
        ({
            let d1: int = if p1 >= final_price {
                p1 - final_price
            } else {
                final_price - p1
            };
            let d2: int = if p2 >= final_price {
                p2 - final_price
            } else {
                final_price - p2
            };
            &&& prediction_score(p1, final_price, PrecisionScoringMode::AbsoluteDistance) == d1
            &&& final_price > 0 && d1 * 10_000 <= u128::MAX ==> prediction_score(
                p1,
                final_price,
                PrecisionScoringMode::RelativeDistance,
            ) == (d1 * 10_000) / (final_price as int)
            &&& final_price > 0 && d1 <= d2 ==> prediction_score(
                p1,
                final_price,
                PrecisionScoringMode::RelativeDistance,
            ) <= prediction_score(p2, final_price, PrecisionScoringMode::RelativeDistance)
            &&& d1 <= d2 ==> prediction_score(p1, final_price, PrecisionScoringMode::AbsoluteDistance)
                <= prediction_score(p2, final_price, PrecisionScoringMode::AbsoluteDistance)
        }),
{
    let d1: int = if p1 >= final_price {
        p1 - final_price
    } else {
        final_price - p1
    };
    let d2: int = if p2 >= final_price {
        p2 - final_price
    } else {
        final_price - p2
    };
    if final_price > 0 && d1 <= d2 {
        assert(d1 * 10_000 <= d2 * 10_000) by (nonlinear_arith)
            requires
                0 <= d1 <= d2,
        ;
        let s1: int = if d1 * 10_000 > u128::MAX {
            u128::MAX as int
        } else {
            d1 * 10_000
        };
        let s2: int = if d2 * 10_000 > u128::MAX {
            u128::MAX as int
        } else {
            d2 * 10_000
        };
        assert(0 <= s1 <= s2);
        vstd::arithmetic::div_mod::lemma_div_is_ordered(s1, s2, final_price as int);
    }
}
} // verus!
