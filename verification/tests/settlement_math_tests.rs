//! Golden vectors of the settlement arithmetic.
use contracts::settlement_math::{
    classify_price_direction, compute_deviation_bps, compute_precision_fee,
    compute_precision_payouts_with_policy, compute_updown_fee, compute_updown_payouts,
    compute_updown_winner_payout, find_precision_winners, find_precision_winners_with_policy,
    median_of_sorted, sort_prices_in_place, split_pot_among_winners, split_pot_stake_weighted,
    total_pot_precision, total_pot_updown, PrecisionEntry, PrecisionPayoutPolicy,
    PrecisionScoringMode, PrecisionScoringPolicy, PriceDirection, UpDownPosition,
};

// ─── Price direction tests ───────────────────────────────────────────

#[test]
fn test_price_direction_up() {
    assert_eq!(
        classify_price_direction(1_0000000, 1_5000000),
        PriceDirection::Up
    );
}

#[test]
fn test_price_direction_down() {
    assert_eq!(
        classify_price_direction(2_0000000, 1_5000000),
        PriceDirection::Down
    );
}

#[test]
fn test_price_direction_unchanged() {
    assert_eq!(
        classify_price_direction(1_0000000, 1_0000000),
        PriceDirection::Unchanged
    );
}

// ─── Fee math tests ──────────────────────────────────────────────────

#[test]
fn test_updown_fee_no_fee_config() {
    let (dw, dl, fee) = compute_updown_fee(300, 150, None).unwrap();
    assert_eq!(dw, 300);
    assert_eq!(dl, 150);
    assert_eq!(fee, 0);
}

#[test]
fn test_updown_fee_with_1_percent() {
    // 1% fee on total pot 450 => fee = 4 (floor: 450*100/10000=4)
    let (dw, dl, fee) = compute_updown_fee(300, 150, Some(100)).unwrap();
    assert_eq!(fee, 4);
    // fee_from_losing = min(4, 150) = 4, fee_from_winning = 0
    assert_eq!(dl, 146);
    assert_eq!(dw, 300);
    // conservation: 300+146+4 = 450 ✓
    assert_eq!(dw + dl + fee, 450);
}

#[test]
fn test_updown_fee_thin_losing_pool() {
    // Very thin losing pool: fee > losing_pool
    let (dw, dl, fee) = compute_updown_fee(1000, 10, Some(500)).unwrap();
    // total_pot = 1010, fee = 1010*500/10000 = 50
    assert_eq!(fee, 50);
    // fee_from_losing = min(50, 10) = 10, fee_from_winning = 40
    assert_eq!(dl, 0);
    assert_eq!(dw, 960);
    // conservation: 960+0+50 = 1010 ✓
    assert_eq!(dw + dl + fee, 1010);
}

#[test]
fn test_precision_fee_no_config() {
    let (dist, fee) = compute_precision_fee(500, None).unwrap();
    assert_eq!(dist, 500);
    assert_eq!(fee, 0);
}

#[test]
fn test_precision_fee_with_2_percent() {
    let (dist, fee) = compute_precision_fee(1000, Some(200)).unwrap();
    // fee = 1000*200/10000 = 20
    assert_eq!(fee, 20);
    assert_eq!(dist, 980);
}

// ─── UpDown payout tests ─────────────────────────────────────────────

#[test]
fn test_updown_winner_payout_proportional() {
    // Alice staked 100 of 300 pool_up. Total distributable = 450.
    // payout = 100*450/300 = 150
    let payout = compute_updown_winner_payout(100, 300, 450).unwrap();
    assert_eq!(payout, 150);
}

#[test]
fn test_updown_winner_payout_zero_pool() {
    let payout = compute_updown_winner_payout(100, 0, 450).unwrap();
    assert_eq!(payout, 0);
}

#[test]
fn test_updown_full_payouts_price_up() {
    let positions = vec![
        UpDownPosition {
            index: 0,
            amount: 100,
            side_up: true,
        },
        UpDownPosition {
            index: 1,
            amount: 200,
            side_up: true,
        },
        UpDownPosition {
            index: 2,
            amount: 150,
            side_up: false,
        },
    ];
    let results = compute_updown_payouts(
        &positions, 1_0000000, // start
        1_5000000, // final (up)
        300,       // pool_up
        150,       // pool_down
        None,      // no fee
    )
    .unwrap();

    // Alice (Up): 100 * 450 / 300 = 150
    assert_eq!(results[0].payout, 150);
    assert!(results[0].is_winner);
    // Bob (Up): 200 * 450 / 300 = 300
    assert_eq!(results[1].payout, 300);
    assert!(results[1].is_winner);
    // Charlie (Down): 0
    assert_eq!(results[2].payout, 0);
    assert!(!results[2].is_winner);
}

#[test]
fn test_updown_full_payouts_unchanged_refunds() {
    let positions = vec![
        UpDownPosition {
            index: 0,
            amount: 100,
            side_up: true,
        },
        UpDownPosition {
            index: 1,
            amount: 50,
            side_up: false,
        },
    ];
    let results = compute_updown_payouts(
        &positions, 1_0000000, 1_0000000, // unchanged
        100, 50, None,
    )
    .unwrap();

    assert_eq!(results[0].payout, 100);
    assert!(results[0].is_refund);
    assert_eq!(results[1].payout, 50);
    assert!(results[1].is_refund);
}

#[test]
fn test_updown_full_payouts_one_sided_refunds() {
    let positions = vec![
        UpDownPosition {
            index: 0,
            amount: 100,
            side_up: true,
        },
        UpDownPosition {
            index: 1,
            amount: 200,
            side_up: true,
        },
    ];
    let results = compute_updown_payouts(
        &positions, 1_0000000, 1_5000000, // up
        300, 0, // one-sided (no down pool)
        None,
    )
    .unwrap();

    // One-sided: all refunded
    assert_eq!(results[0].payout, 100);
    assert!(results[0].is_refund);
    assert_eq!(results[1].payout, 200);
    assert!(results[1].is_refund);
}

// ─── Precision winner determination tests ────────────────────────────

#[test]
fn test_find_precision_winners_single_winner() {
    let entries = vec![
        PrecisionEntry {
            index: 0,
            predicted_price: 2297,
            amount: 100,
            revealed: true,
        },
        PrecisionEntry {
            index: 1,
            predicted_price: 2300,
            amount: 150,
            revealed: true,
        },
        PrecisionEntry {
            index: 2,
            predicted_price: 2500,
            amount: 50,
            revealed: true,
        },
    ];
    let result = find_precision_winners(&entries, 2298);
    // Alice (diff 1) wins alone
    assert_eq!(result.winner_indices, vec![0]);
    assert!(result.loser_indices.contains(&1));
    assert!(result.loser_indices.contains(&2));
    assert_eq!(result.total_pot, 300);
}

#[test]
fn test_find_precision_winners_tie() {
    let entries = vec![
        PrecisionEntry {
            index: 0,
            predicted_price: 2100,
            amount: 100,
            revealed: true,
        },
        PrecisionEntry {
            index: 1,
            predicted_price: 2300,
            amount: 150,
            revealed: true,
        },
    ];
    let result = find_precision_winners(&entries, 2200);
    // Both diff 100
    assert_eq!(result.winner_indices.len(), 2);
}

#[test]
fn test_find_precision_winners_exact_match() {
    let entries = vec![
        PrecisionEntry {
            index: 0,
            predicted_price: 2250,
            amount: 100,
            revealed: true,
        },
        PrecisionEntry {
            index: 1,
            predicted_price: 2200,
            amount: 100,
            revealed: true,
        },
    ];
    let result = find_precision_winners(&entries, 2250);
    assert_eq!(result.winner_indices, vec![0]);
}

#[test]
fn test_find_precision_winners_unrevealed_lose() {
    let entries = vec![
        PrecisionEntry {
            index: 0,
            predicted_price: 2297,
            amount: 100,
            revealed: false,
        },
        PrecisionEntry {
            index: 1,
            predicted_price: 3000,
            amount: 100,
            revealed: true,
        },
    ];
    let result = find_precision_winners(&entries, 2298);
    // Only Bob revealed, so Bob wins even though Alice was closer
    assert_eq!(result.winner_indices, vec![1]);
}

#[test]
fn test_find_precision_winners_all_unrevealed() {
    let entries = vec![
        PrecisionEntry {
            index: 0,
            predicted_price: 0,
            amount: 100,
            revealed: false,
        },
        PrecisionEntry {
            index: 1,
            predicted_price: 0,
            amount: 100,
            revealed: false,
        },
    ];
    let result = find_precision_winners(&entries, 2298);
    // No winners — all refund
    assert!(result.winner_indices.is_empty());
}

// ─── Pot splitting tests ─────────────────────────────────────────────

#[test]
fn test_split_pot_even_division() {
    let payouts = split_pot_among_winners(100, 2).unwrap();
    assert_eq!(payouts, vec![50, 50]);
}

#[test]
fn test_split_pot_with_remainder() {
    let payouts = split_pot_among_winners(100, 3).unwrap();
    // 100/3 = 33 remainder 1. First gets 34.
    assert_eq!(payouts, vec![34, 33, 33]);
}

#[test]
fn test_split_pot_large_remainder() {
    let payouts = split_pot_among_winners(103, 5).unwrap();
    // 103/5 = 20 remainder 3. First gets 23.
    assert_eq!(payouts, vec![23, 20, 20, 20, 20]);
}

#[test]
fn test_split_pot_single_winner() {
    let payouts = split_pot_among_winners(500, 1).unwrap();
    assert_eq!(payouts, vec![500]);
}

#[test]
fn test_split_pot_empty() {
    let payouts = split_pot_among_winners(0, 3).unwrap();
    assert!(payouts.is_empty());
}

// ─── Deviation math tests ────────────────────────────────────────────

#[test]
fn test_deviation_bps_exact_5_percent() {
    let bps = compute_deviation_bps(1_0500000, 1_0000000).unwrap();
    assert_eq!(bps, 500);
}

#[test]
fn test_deviation_bps_downward() {
    let bps = compute_deviation_bps(9500000, 1_0000000).unwrap();
    assert_eq!(bps, 500);
}

#[test]
fn test_deviation_bps_no_change() {
    let bps = compute_deviation_bps(1_0000000, 1_0000000).unwrap();
    assert_eq!(bps, 0);
}

// ─── Median tests ────────────────────────────────────────────────────

#[test]
fn test_median_odd() {
    let mut prices = [300u128, 100, 200];
    sort_prices_in_place(&mut prices);
    assert_eq!(prices, [100, 200, 300]);
    assert_eq!(median_of_sorted(&prices), Some(200));
}

#[test]
fn test_median_even() {
    let mut prices = [400u128, 100, 300, 200];
    sort_prices_in_place(&mut prices);
    assert_eq!(prices, [100, 200, 300, 400]);
    // median = (200+300)/2 = 250
    assert_eq!(median_of_sorted(&prices), Some(250));
}

#[test]
fn test_median_single() {
    let prices = [42u128];
    assert_eq!(median_of_sorted(&prices), Some(42));
}

#[test]
fn test_median_empty() {
    let prices: [u128; 0] = [];
    assert_eq!(median_of_sorted(&prices), None);
}

// ─── Total pot tests ─────────────────────────────────────────────────

#[test]
fn test_total_pot_updown() {
    assert_eq!(total_pot_updown(300, 150), 450);
}

#[test]
fn test_total_pot_precision() {
    assert_eq!(total_pot_precision(&[100, 150, 50]), 300);
}

#[test]
fn test_precision_scoring_mode_and_confidence_band() {
    let entries = vec![
        PrecisionEntry {
            index: 0,
            predicted_price: 10_010,
            amount: 1_000,
            revealed: true,
        },
        PrecisionEntry {
            index: 1,
            predicted_price: 10_020,
            amount: 2_000,
            revealed: true,
        },
    ];

    let abs_policy = PrecisionScoringPolicy {
        mode: PrecisionScoringMode::AbsoluteDistance,
        confidence_band: Some(15),
    };
    let res = find_precision_winners_with_policy(&entries, 10_000, abs_policy);
    assert_eq!(res.winner_indices, vec![0, 1]);

    let rel_policy = PrecisionScoringPolicy {
        mode: PrecisionScoringMode::RelativeDistance,
        confidence_band: None,
    };
    let res_rel = find_precision_winners_with_policy(&entries, 10_000, rel_policy);
    assert_eq!(res_rel.winner_indices, vec![0]);
}

#[test]
fn test_split_pot_stake_weighted_math() {
    let payouts = split_pot_stake_weighted(100, &[30, 70]).unwrap();
    assert_eq!(payouts, vec![30, 70]);

    let payouts_policy = compute_precision_payouts_with_policy(
        &[
            PrecisionEntry {
                index: 0,
                predicted_price: 10_000,
                amount: 30,
                revealed: true,
            },
            PrecisionEntry {
                index: 1,
                predicted_price: 10_000,
                amount: 70,
                revealed: true,
            },
        ],
        10_000,
        None,
        PrecisionScoringPolicy {
            mode: PrecisionScoringMode::AbsoluteDistance,
            confidence_band: None,
        },
        PrecisionPayoutPolicy::StakeWeighted,
    )
    .unwrap();

    assert_eq!(payouts_policy[0].payout, 30);
    assert_eq!(payouts_policy[1].payout, 70);
}

#[test]
fn median_of_two_maximal_prices_is_exact() {
    assert_eq!(median_of_sorted(&[u128::MAX, u128::MAX]), Some(u128::MAX));
    assert_eq!(median_of_sorted(&[u128::MAX - 1, u128::MAX]), Some(u128::MAX - 1));
    assert_eq!(median_of_sorted(&[3, 4]), Some(3));
}

#[test]
fn winners_grow_as_the_band_widens() {
    let e = |index: usize, predicted_price: u128| PrecisionEntry { index, predicted_price, amount: 10, revealed: true };
    let entries = vec![e(0, 10_030), e(1, 10_010), e(2, 9_980), e(3, 10_100)];
    let winners = |band: Option<u128>| {
        find_precision_winners_with_policy(
            &entries,
            10_000,
            PrecisionScoringPolicy { mode: PrecisionScoringMode::AbsoluteDistance, confidence_band: band },
        )
        .winner_indices
    };
    assert_eq!(winners(None), vec![1]);
    assert_eq!(winners(Some(10)), vec![1, 2]);
    assert_eq!(winners(Some(20)), vec![0, 1, 2]);
    assert_eq!(winners(Some(1_000)), vec![0, 1, 2, 3]);
}

#[test]
fn updown_rounding_loses_under_one_unit_per_winner() {
    // Up wins; three Up stakes of 1 share 10 losing units: 13 * 1 / 3 = 4 each.
    let positions = vec![
        UpDownPosition { index: 0, amount: 1, side_up: true },
        UpDownPosition { index: 1, amount: 1, side_up: true },
        UpDownPosition { index: 2, amount: 1, side_up: true },
        UpDownPosition { index: 3, amount: 10, side_up: false },
    ];
    let v = compute_updown_payouts(&positions, 100, 200, 3, 10, None).unwrap();
    let paid: i128 = v.iter().map(|e| e.payout).sum();
    assert_eq!(paid, 12);
    assert!(13 - 3 < paid && paid <= 13);
}
