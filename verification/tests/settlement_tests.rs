//! Accepting prices and settling rounds.
use contracts::admin::{DeviationReferenceMode, HbGateConfig, OracleHeartbeatRecord, OracleQuorumConfig, RuntimeMode};
use contracts::betting::{PrecisionCommitment, PrecisionPrediction, UserPosition, UserRoundState};
use contracts::config::FeeModel;
use contracts::errors::ContractError;
use contracts::insurance::FeeLedger;
use contracts::oracle::{resolve_round, resolve_round_multi, MultiFeedPayload, OraclePayload, ResolutionContext};
use contracts::round::{BetSide, Round, RoundMode};
use contracts::settlement::{
    _apply_one_sided_policy, _calculate_precision_payouts, _record_twap_sample,
    _refund_under_threshold, _select_one_sided_policy, _settle_round_with_price,
    _twap_reference_price, _update_stats_loss, _update_stats_win, cancel_round, claim_many,
    claim_winnings, finalize_round, prune_archive, refund_participants, _resolve_precision_mode,
    _resolve_updown_mode, void_round, InsuranceCover, OneSidedPolicy, PendingDisputeSettlement,
    PriceSample, SettlementRoute, UserStats,
};
use contracts::settlement_math::PrecisionPayoutPolicy;
use contracts::archive::{_archive_round, _complete_settlement, CompletedPayouts};
use contracts::config::{_apply_protocol_fee_precision, _apply_protocol_fee_updown};
use contracts::contract::{RoundArchiveStatus, VirtualTokenContract};
use contracts::common::{sort_addresses, AddressKey, Participant};
use contracts::admin::active_round_phase_code;
use contracts::attestation::_build_attestation_message;
use contracts::oracle::attestation_check_due;

fn round(mode: RoundMode) -> Round {
    Round {
        round_id: 4,
        price_start: 1_0000000,
        start_ledger: 100,
        bet_end_ledger: 106,
        end_ledger: 112,
        pool_up: 300,
        pool_down: 150,
        mode,
        start_timestamp: 10_000,
    }
}

fn res_ctx() -> ResolutionContext {
    ResolutionContext {
        stored_schema: Some(3),
        runtime_mode: RuntimeMode::Normal,
        oracle_set: true,
        heartbeat: Some(OracleHeartbeatRecord { timestamp: 10_050, status: 1 }),
        stale_threshold: None,
        hb: HbGateConfig { strict_mode: false, override_armed: false, grace_seconds: 0 },
        network_id: [9u8; 32],
        attestation_key: None,
        timestamp_skew: None,
        max_deviation_bps: None,
        deviation_mode: DeviationReferenceMode::StartPrice,
        twap_reference: Err(ContractError::WindowOutOfRange),
        deviation_override_armed: false,
        min_confidence_bps: None,
        confidence_strict_mode: false,
        nonce_consumed: false,
        ledger_sequence: 112,
        ledger_timestamp: 10_060,
    }
}

fn payload(price: u128) -> OraclePayload {
    OraclePayload {
        round_id: 100,
        price,
        timestamp: 10_055,
        nonce: 1,
        confidence: None,
        network_id: [9u8; 32],
        for_this_contract: true,
        attestation: None,
    }
}

fn pos(amount: i128, side: BetSide) -> UserRoundState {
    UserRoundState {
        position: Some(UserPosition { amount, side }),
        prediction: None,
        commitment: None,
        sealed_order: None,
    }
}

fn pred(amount: i128, price: u128) -> UserRoundState {
    UserRoundState {
        position: None,
        prediction: Some(PrecisionPrediction { predicted_price: price, amount }),
        commitment: None,
        sealed_order: None,
    }
}

fn committed(amount: i128) -> UserRoundState {
    UserRoundState {
        position: None,
        prediction: None,
        commitment: Some(PrecisionCommitment { hash: [1u8; 32], amount, revealed: false }),
        sealed_order: None,
    }
}

fn no_fees() -> FeeLedger {
    FeeLedger { treasury: 0, insurance_fund: 0, insurance_split_bps: 0 }
}

#[test]
fn single_oracle_accepts_a_timely_price() {
    let p = resolve_round(&res_ctx(), Some(round(RoundMode::UpDown)), &payload(1_5000000)).unwrap();
    assert_eq!(p.price, 1_5000000);
    assert!(!p.deviation_override_used);
    assert!(!p.attestation_required);
}

#[test]
fn single_oracle_refusals() {
    let r = Some(round(RoundMode::UpDown));
    let ctx = res_ctx();
    assert_eq!(resolve_round(&ctx, r, &payload(0)).map(|p| p.price), Err(ContractError::InvalidPrice));
    let mut c = ctx;
    c.ledger_sequence = 111;
    assert_eq!(resolve_round(&c, r, &payload(5)).map(|p| p.price), Err(ContractError::RoundNotEnded));
    let mut c = ctx;
    c.nonce_consumed = true;
    assert_eq!(resolve_round(&c, r, &payload(5)).map(|p| p.price), Err(ContractError::OracleNonceReused));
    let mut wrong = payload(5);
    wrong.round_id = 99;
    assert_eq!(resolve_round(&ctx, r, &wrong).map(|p| p.price), Err(ContractError::InvalidOracleRound));
    let mut wrong = payload(5);
    wrong.network_id = [8u8; 32];
    assert_eq!(resolve_round(&ctx, r, &wrong).map(|p| p.price), Err(ContractError::OracleNetworkMismatch));
    let mut wrong = payload(5);
    wrong.timestamp = 10_061;
    assert_eq!(resolve_round(&ctx, r, &wrong).map(|p| p.price), Err(ContractError::FutureOracleData));
    let mut early = ctx;
    early.ledger_timestamp = 20_000;
    early.heartbeat = Some(OracleHeartbeatRecord { timestamp: 19_990, status: 1 });
    let mut old = payload(5);
    old.timestamp = 9_000;
    assert_eq!(
        resolve_round(&early, r, &old).map(|p| p.price),
        Err(ContractError::OracleTimestampOutsideWindow)
    );
    let mut c = ctx;
    c.heartbeat = None;
    assert_eq!(
        resolve_round(&c, r, &payload(5)).map(|p| p.price),
        Err(ContractError::OracleHeartbeatUnhealthy)
    );
    let mut c = ctx;
    c.attestation_key = Some([1u8; 32]);
    assert_eq!(resolve_round(&c, r, &payload(5)).map(|p| p.price), Err(ContractError::WindowOutOfRange));
    let mut signed = payload(5);
    signed.attestation = Some([2u8; 64]);
    assert!(resolve_round(&c, r, &signed).unwrap().attestation_required);
}

#[test]
fn deviation_guardrail_and_override() {
    let r = Some(round(RoundMode::UpDown));
    let mut c = res_ctx();
    c.max_deviation_bps = Some(500);
    // 10% above the start price.
    assert_eq!(
        resolve_round(&c, r, &payload(1_1000000)).map(|p| p.price),
        Err(ContractError::OracleDeviationExceeded)
    );
    assert!(resolve_round(&c, r, &payload(1_0500000)).is_ok());
    c.deviation_override_armed = true;
    let p = resolve_round(&c, r, &payload(1_1000000)).unwrap();
    assert!(p.deviation_override_used);
    c.deviation_mode = DeviationReferenceMode::Twap;
    c.twap_reference = Ok(1_1000000);
    c.deviation_override_armed = false;
    assert!(resolve_round(&c, r, &payload(1_1000000)).is_ok());
}

#[test]
fn confidence_guardrail() {
    let r = Some(round(RoundMode::UpDown));
    let mut c = res_ctx();
    c.min_confidence_bps = Some(8_000);
    let mut p = payload(5);
    p.confidence = Some(7_999);
    assert_eq!(resolve_round(&c, r, &p).map(|a| a.price), Err(ContractError::InvalidPrice));
    p.confidence = Some(10_001);
    assert_eq!(resolve_round(&c, r, &p).map(|a| a.price), Err(ContractError::InvalidPrice));
    p.confidence = None;
    assert!(resolve_round(&c, r, &p).is_ok());
    c.confidence_strict_mode = true;
    assert_eq!(resolve_round(&c, r, &p).map(|a| a.price), Err(ContractError::InvalidPrice));
}

fn multi(prices: Vec<u128>, sources: Vec<u64>) -> MultiFeedPayload {
    MultiFeedPayload {
        round_id: 100,
        prices,
        sources,
        timestamp: 10_055,
        nonce: 3,
        network_id: [9u8; 32],
        for_this_contract: true,
    }
}

#[test]
fn multi_feed_median_and_quorum() {
    let q = Some(OracleQuorumConfig { min_observations: 3, quorum_threshold: 3, outlier_threshold_bps: 500 });
    let r = Some(round(RoundMode::UpDown));
    let ctx = res_ctx();
    let p = resolve_round_multi(&ctx, q, r, &multi(vec![1_0200000, 1_0000000, 1_0100000], vec![1, 2, 3]))
        .unwrap();
    assert_eq!(p.price, 1_0100000);
    let even = resolve_round_multi(
        &ctx,
        Some(OracleQuorumConfig { min_observations: 3, quorum_threshold: 3, outlier_threshold_bps: 500 }),
        r,
        &multi(vec![100, 300, 200, 400], vec![1, 2, 3, 4]),
    );
    // (200 + 300) / 2 = 250; 100 and 400 are outliers, only 2 survive.
    assert_eq!(even.map(|p| p.price), Err(ContractError::InsufficientOracleQuorum));
    assert_eq!(
        resolve_round_multi(&ctx, q, r, &multi(vec![1, 2, 3], vec![1, 1, 3])).map(|p| p.price),
        Err(ContractError::DuplicateOracleSource)
    );
    assert_eq!(
        resolve_round_multi(&ctx, q, r, &multi(vec![1, 2], vec![1, 2])).map(|p| p.price),
        Err(ContractError::TooFewObservations)
    );
    assert_eq!(
        resolve_round_multi(&ctx, q, r, &multi(vec![1, 0, 3], vec![1, 2, 3])).map(|p| p.price),
        Err(ContractError::InvalidPrice)
    );
    assert_eq!(
        resolve_round_multi(&ctx, None, r, &multi(vec![1, 2, 3], vec![1, 2, 3])).map(|p| p.price),
        Err(ContractError::OracleNotSet)
    );
}

#[test]
fn settlement_routes() {
    let r = round(RoundMode::UpDown);
    assert_eq!(_settle_round_with_price(&r, 5, None, Some(3), 2, 10, 200), Ok(SettlementRoute::FallbackRefund));
    assert_eq!(_settle_round_with_price(&r, 5, None, None, 2, 0, 200), Ok(SettlementRoute::Complete));
    match _settle_round_with_price(&r, 5, Some(9_000), Some(2), 2, 10, 200).unwrap() {
        SettlementRoute::AwaitDispute(p) => {
            assert_eq!(p.deadline_ledger, 210);
            assert_eq!(p.final_price, 5);
        },
        _ => panic!("expected a dispute window"),
    }
    assert_eq!(
        _settle_round_with_price(&r, 5, None, None, 0, 10, u32::MAX),
        Err(ContractError::Overflow)
    );
}

#[test]
fn void_before_deadline_finalize_after() {
    let staged = PendingDisputeSettlement {
        round: round(RoundMode::UpDown),
        final_price: 5,
        confidence: None,
        resolved_at_ledger: 200,
        deadline_ledger: 210,
    };
    let users = vec![pos(300, BetSide::Up), pos(150, BetSide::Down)];
    let (pendings, total) =
        void_round(Some(3), RuntimeMode::Normal, Some(staged), 209, &users, &vec![0, 10], None).unwrap();
    assert_eq!(pendings, vec![300, 160]);
    assert_eq!(total, 450);
    assert_eq!(
        void_round(Some(3), RuntimeMode::Normal, Some(staged), 210, &users, &vec![0, 0], None).map(|x| x.1),
        Err(ContractError::RoundNotCancellable)
    );
    assert_eq!(finalize_round(Some(3), RuntimeMode::Normal, Some(staged), 209), Err(ContractError::RoundNotEnded));
    assert_eq!(finalize_round(Some(3), RuntimeMode::Normal, Some(staged), 210), Ok(staged));
    assert_eq!(finalize_round(Some(3), RuntimeMode::Normal, None, 210), Err(ContractError::NoActiveRound));
}

#[test]
fn claims_move_pending_to_balance() {
    assert_eq!(claim_winnings(Some(3), RuntimeMode::ClaimsOnly, 50, 100), Ok((50, 150)));
    assert_eq!(claim_winnings(Some(3), RuntimeMode::Normal, 0, 100), Ok((0, 100)));
    assert_eq!(claim_winnings(Some(3), RuntimeMode::FullyPaused, 50, 100), Err(ContractError::ContractPaused));
    assert_eq!(claim_winnings(Some(3), RuntimeMode::Normal, 1, i128::MAX), Err(ContractError::PayoutOverflow));
    let claims = claim_many(Some(3), RuntimeMode::Normal, &vec![1, 2], &vec![5, 0], &vec![10, 20]).unwrap();
    assert_eq!(claims, vec![(5, 15), (0, 20)]);
    assert_eq!(
        claim_many(Some(3), RuntimeMode::Normal, &vec![1, 1], &vec![5, 0], &vec![10, 20]),
        Err(ContractError::DuplicateClaimAddress)
    );
    // One failing claim refuses the whole batch.
    assert_eq!(
        claim_many(Some(3), RuntimeMode::Normal, &vec![1, 2], &vec![5, 1], &vec![10, i128::MAX]),
        Err(ContractError::PayoutOverflow)
    );
    let many: Vec<u64> = (0..51).collect();
    assert_eq!(
        claim_many(Some(3), RuntimeMode::Normal, &many, &vec![0; 51], &vec![0; 51]),
        Err(ContractError::ClaimBatchTooLarge)
    );
}

#[test]
fn cancellation_refunds_and_covers() {
    let users = vec![pos(300, BetSide::Up), pos(100, BetSide::Down)];
    let cover = InsuranceCover { eligible_events: vec![1], coverage_bps: 5_000, fund: 100 };
    let out = cancel_round(Some(3), true, Some(round(RoundMode::UpDown)), &users, &vec![0, 0], None, &cover, 1)
        .unwrap();
    // Refunds 300 and 100; coverage owed 150 + 50 = 200, the fund holds 100,
    // shared 100 * 300 / 400 = 75 and 100 * 100 / 400 = 25.
    assert_eq!(out.pendings, vec![375, 125]);
    assert_eq!(out.fund, 0);
    let not_covered = cancel_round(Some(3), true, Some(round(RoundMode::UpDown)), &users, &vec![0, 0], None, &cover, 2)
        .unwrap();
    assert_eq!(not_covered.pendings, vec![300, 100]);
    assert_eq!(not_covered.fund, 100);
    assert_eq!(
        cancel_round(Some(3), true, None, &users, &vec![0, 0], None, &cover, 1).map(|o| o.fund),
        Err(ContractError::RoundNotCancellable)
    );
}

#[test]
fn precision_refunds_use_prediction_or_commitment() {
    let users = vec![pred(100, 5), committed(40), pos(7, BetSide::Up)];
    let out = refund_participants(RoundMode::Precision, &users, &vec![1, 1, 1], None).unwrap();
    assert_eq!(out, vec![101, 41, 1]);
    let r = round(RoundMode::Precision);
    assert_eq!(_refund_under_threshold(&r, &users, &vec![0, 0, 0], Some(50)), Err(ContractError::PendingWinningsCapExceeded));
}

#[test]
fn twap_reference_and_ring() {
    let samples = vec![
        PriceSample { price: 100, timestamp: 1 },
        PriceSample { price: 200, timestamp: 2 },
        PriceSample { price: 400, timestamp: 3 },
    ];
    assert_eq!(_twap_reference_price(&samples, 2), Ok(300));
    assert_eq!(_twap_reference_price(&samples, 4), Err(ContractError::WindowOutOfRange));
    assert_eq!(_twap_reference_price(&samples, 0), Err(ContractError::WindowOutOfRange));
    let big = vec![PriceSample { price: u128::MAX, timestamp: 1 }, PriceSample { price: 1, timestamp: 2 }];
    assert_eq!(_twap_reference_price(&big, 2), Err(ContractError::Overflow));
    let mut ring: Vec<PriceSample> = (0..64).map(|i| PriceSample { price: i, timestamp: i as u64 }).collect();
    _record_twap_sample(&mut ring, 999, 999);
    assert_eq!(ring.len(), 64);
    assert_eq!(ring[0].price, 1);
    assert_eq!(ring[63].price, 999);
}

#[test]
fn stats_track_streaks() {
    let w1 = _update_stats_win(None).unwrap();
    let w2 = _update_stats_win(Some(w1)).unwrap();
    assert_eq!(w2, UserStats { total_wins: 2, total_losses: 0, current_streak: 2, best_streak: 2 });
    let l = _update_stats_loss(Some(w2)).unwrap();
    assert_eq!(l, UserStats { total_wins: 2, total_losses: 1, current_streak: 0, best_streak: 2 });
    let maxed = UserStats { total_wins: u32::MAX, total_losses: 0, current_streak: 0, best_streak: 0 };
    assert_eq!(_update_stats_win(Some(maxed)), Err(ContractError::Overflow));
}

#[test]
fn one_sided_rounds_refund() {
    let mut r = round(RoundMode::UpDown);
    r.pool_down = 0;
    assert_eq!(_select_one_sided_policy(&r), OneSidedPolicy::Refund);
    let users = vec![pos(100, BetSide::Up), pos(200, BetSide::Up)];
    let (p, summary) = _apply_one_sided_policy(&r, OneSidedPolicy::Refund, &users, &vec![0, 0], None).unwrap();
    assert_eq!(p, vec![100, 200]);
    assert_eq!((summary.affected_side, summary.refund_amount, summary.carry_amount), (0, 300, 0));
    let (_, carry) = _apply_one_sided_policy(&r, OneSidedPolicy::CarryForward, &users, &vec![0, 0], None).unwrap();
    assert_eq!((carry.refund_amount, carry.carry_amount), (0, 300));
}

#[test]
fn updown_settlement_pays_winners() {
    let r = round(RoundMode::UpDown);
    let users = vec![pos(100, BetSide::Up), pos(200, BetSide::Up), pos(150, BetSide::Down)];
    let out = _resolve_updown_mode(&r, 1_5000000, None, FeeModel::FeeOnPot, no_fees(), &users, &vec![0, 0, 0], &vec![None, None, None], None)
        .unwrap();
    assert_eq!(out.pendings, vec![150, 300, 0]);
    assert_eq!(out.fee, 0);
    assert_eq!(out.stats[0].unwrap().total_wins, 1);
    assert_eq!(out.stats[2].unwrap().total_losses, 1);
    // With a 1% fee on the pot: fee 4, taken from the losing pool.
    let fees = FeeLedger { treasury: 0, insurance_fund: 0, insurance_split_bps: 5_000 };
    let out = _resolve_updown_mode(&r, 1_5000000, Some(100), FeeModel::FeeOnPot, fees, &users, &vec![0, 0, 0], &vec![None, None, None], None)
        .unwrap();
    assert_eq!(out.fee, 4);
    assert_eq!(out.fees.treasury + out.fees.insurance_fund, 4);
    // Credited plus fee stays within the pools.
    assert!(out.pendings.iter().sum::<i128>() + out.fee <= r.pool_up + r.pool_down);
    assert_eq!(out.fees.insurance_fund, 2);
    assert_eq!(out.pendings, vec![148, 297, 0]);
    // Unchanged price refunds.
    let out = _resolve_updown_mode(&r, 1_0000000, None, FeeModel::FeeOnPot, no_fees(), &users, &vec![0, 0, 0], &vec![None, None, None], None)
        .unwrap();
    assert_eq!(out.pendings, vec![100, 200, 150]);
}

#[test]
fn precision_settlement_closest_wins() {
    let users = vec![pred(100, 2_297), pred(150, 2_300), committed(50)];
    let out = _resolve_precision_mode(
        2_298,
        None,
        FeeModel::FeeOnPot,
        no_fees(),
        PrecisionPayoutPolicy::Equal,
        &users,
        &vec![0, 0, 0],
        &vec![None, None, None],
        None,
    )
    .unwrap();
    assert_eq!(out.pendings, vec![300, 0, 0]);
    // The pot is conserved: the stakes (100 + 150 + 50) all go to the winner.
    assert_eq!(out.pendings.iter().sum::<i128>() + out.fee, 300);
    assert_eq!(out.stats[0].unwrap().total_wins, 1);
    assert_eq!(out.stats[1].unwrap().total_losses, 1);
    assert_eq!(out.stats[2].unwrap().total_losses, 1);
    // Nobody revealed: everyone is refunded.
    let hidden = vec![committed(50), committed(70)];
    let out = _resolve_precision_mode(
        2_298,
        Some(100),
        FeeModel::FeeOnPot,
        no_fees(),
        PrecisionPayoutPolicy::Equal,
        &hidden,
        &vec![0, 0],
        &vec![None, None],
        None,
    )
    .unwrap();
    assert_eq!(out.pendings, vec![50, 70]);
    assert_eq!(out.fee, 0);
}

#[test]
fn precision_payout_shares() {
    assert_eq!(_calculate_precision_payouts(PrecisionPayoutPolicy::Equal, &vec![10, 20, 30], 100), Ok(vec![34, 33, 33]));
    assert_eq!(_calculate_precision_payouts(PrecisionPayoutPolicy::StakeWeighted, &vec![30, 70], 101), Ok(vec![31, 70]));
    assert_eq!(_calculate_precision_payouts(PrecisionPayoutPolicy::StakeWeighted, &vec![0, 0], 10), Ok(vec![10, 0]));
    assert_eq!(_calculate_precision_payouts(PrecisionPayoutPolicy::Equal, &vec![], 10), Ok(vec![]));
}

#[test]
fn archive_pruning_keeps_retention() {
    let (list, pruned) = prune_archive(vec![1, 2, 3], 4, Some(3));
    // The oldest id is pruned; the two oldest leave the list.
    assert_eq!(pruned, vec![1]);
    assert_eq!(list, vec![3, 4]);
    let (list, pruned) = prune_archive(vec![1], 2, Some(5));
    assert_eq!((list, pruned), (vec![1, 2], vec![]));
}

#[test]
fn archiving_a_round() {
    let r = round(RoundMode::UpDown);
    let users = vec![pos(100, BetSide::Up), pos(200, BetSide::Down)];
    let rec = _archive_round(&r, RoundArchiveStatus::Resolved, 1_2000000, &users, 500, vec![1, 2, 3], Some(3));
    assert_eq!(rec.summary.round_id, 4);
    assert_eq!(rec.summary.participant_count, 2);
    assert_eq!(rec.summary.settled_at_ledger, 500);
    assert_eq!(rec.summary.price_final, 1_2000000);
    assert_eq!(rec.total_pot, 450);
    assert_eq!(rec.recent, vec![3, 4]);
    assert_eq!(rec.pruned, vec![1]);
    // A precision pot counts revealed predictions, else commitments.
    let p = round(RoundMode::Precision);
    let ps = vec![pred(100, 5), committed(40), pos(999, BetSide::Up)];
    let rec = _archive_round(&p, RoundArchiveStatus::Cancelled, 0, &ps, 9, vec![], None);
    assert_eq!(rec.total_pot, 140);
    assert_eq!(rec.summary.status, RoundArchiveStatus::Cancelled);
    assert!(rec.pruned.is_empty());
}

#[test]
fn completing_a_settlement_archives_it() {
    let r = round(RoundMode::UpDown);
    let users = vec![pos(100, BetSide::Up), pos(200, BetSide::Up), pos(150, BetSide::Down)];
    let done = _complete_settlement(
        &r,
        1_5000000,
        None,
        FeeModel::FeeOnPot,
        no_fees(),
        PrecisionPayoutPolicy::Equal,
        &users,
        &vec![0, 0, 0],
        &vec![None, None, None],
        None,
        200,
        vec![],
        None,
    )
    .unwrap();
    assert_eq!(done.fee, 0);
    assert_eq!(done.participant_count, 3);
    assert_eq!(done.archive.summary.status, RoundArchiveStatus::Resolved);
    assert_eq!(done.archive.recent, vec![4]);
    match done.payouts {
        CompletedPayouts::UpDown(u) => assert_eq!(u.pendings, vec![150, 300, 0]),
        CompletedPayouts::Precision(_) => panic!("an Up/Down round pays out by side"),
    }
}

#[test]
fn protocol_fee_application() {
    let fees = FeeLedger { treasury: 10, insurance_fund: 0, insurance_split_bps: 0 };
    // 1% of a 450 pot, taken from the losing pool.
    let ((w, l, f), nf) = _apply_protocol_fee_updown(Some(100), FeeModel::FeeOnPot, fees, 300, 150).unwrap();
    assert_eq!((w, l, f), (300, 146, 4));
    assert_eq!(nf.treasury, 14);
    // On winnings only: 1% of the losing pool.
    let ((w, l, f), _) = _apply_protocol_fee_updown(Some(100), FeeModel::FeeOnWinnings, fees, 300, 150).unwrap();
    assert_eq!((w, l, f), (300, 149, 1));
    let ((d, f), nf) = _apply_protocol_fee_precision(Some(200), FeeModel::FeeOnPot, fees, 1_000, 400).unwrap();
    assert_eq!((d, f, nf.treasury), (980, 20, 30));
    let ((d, f), nf) = _apply_protocol_fee_precision(None, FeeModel::FeeOnPot, fees, 1_000, 400).unwrap();
    assert_eq!((d, f, nf.treasury), (1_000, 0, 10));
    // The contract's own split: the fee spills into the winning pool when the
    // losing pool is too thin.
    let ((w, l, f), t) = VirtualTokenContract::_apply_protocol_fee_updown(Some(1_000), 5, 1_000, 20).unwrap();
    assert_eq!((w, l, f, t), (918, 0, 102, 107));
    assert_eq!(VirtualTokenContract::_apply_protocol_fee_updown(None, 5, 1_000, 20).unwrap(), ((1_000, 20, 0), 5));
    assert_eq!(VirtualTokenContract::_apply_protocol_fee_precision(Some(250), 0, 400).unwrap(), ((390, 10), 10));
    assert_eq!(
        VirtualTokenContract::_apply_protocol_fee_precision(Some(250), i128::MAX, 400),
        Err(ContractError::Overflow)
    );
    assert_eq!(VirtualTokenContract::_collect_protocol_fee(7, -3), Ok(7));
}

fn key(kind: u32, w0: u64, w3: u64) -> AddressKey {
    AddressKey { kind, w0, w1: 0, w2: 0, w3 }
}

#[test]
fn participants_sorted_by_address_not_by_id() {
    // Ids follow first contact; the order follows the addresses: account
    // addresses (kind 0) before contract addresses (kind 1), then payload.
    let ps = vec![
        Participant { id: 1, key: key(1, 5, 0) },
        Participant { id: 2, key: key(0, 9, 0) },
        Participant { id: 3, key: key(0, 2, 7) },
        Participant { id: 4, key: key(0, 2, 3) },
    ];
    let ids: Vec<u64> = sort_addresses(ps).into_iter().map(|p| p.id).collect();
    assert_eq!(ids, vec![4, 3, 2, 1]);
    assert!(sort_addresses(vec![]).is_empty());
}

#[test]
fn active_round_phase_numbers() {
    let r = round(RoundMode::UpDown);
    assert_eq!(active_round_phase_code(105, Some(r.clone())), Some(0));
    assert_eq!(active_round_phase_code(106, Some(r.clone())), Some(1));
    assert_eq!(active_round_phase_code(112, Some(r)), Some(2));
    assert_eq!(active_round_phase_code(112, None), None);
}

#[test]
fn attestation_message_layout() {
    let env = soroban_sdk::Env::default();
    let mut p = payload(0x0102);
    p.round_id = 7;
    p.timestamp = 0x0A0B;
    p.nonce = 3;
    p.network_id = [1u8; 32];
    let contract_xdr = [0xEEu8, 0xFF];
    let m = _build_attestation_message(&env, &p, &contract_xdr);
    let mut expected: Vec<u8> = b"XELMA_ORACLE_ATTESTATION_V1".to_vec();
    expected.extend_from_slice(&[1u8; 32]);
    expected.extend_from_slice(&[0xEE, 0xFF]);
    expected.extend_from_slice(&[0, 0, 0, 3, 0, 0, 0, 7]);
    expected.extend_from_slice(&[0, 0, 0, 9]);
    expected.extend_from_slice(&[0u8; 14]);
    expected.extend_from_slice(&[0x01, 0x02]);
    expected.extend_from_slice(&[0, 0, 0, 5, 0, 0, 0, 0, 0, 0, 0x0A, 0x0B]);
    expected.extend_from_slice(&[0, 0, 0, 5, 0, 0, 0, 0, 0, 0, 0, 3]);
    assert_eq!(m, expected);
}

#[test]
fn signature_checked_only_after_binding() {
    let mut ctx = res_ctx();
    ctx.attestation_key = Some([2u8; 32]);
    let r = Some(round(RoundMode::UpDown));
    let mut p = payload(1_5000000);
    p.attestation = Some([4u8; 64]);
    assert!(attestation_check_due(&ctx, r, &p));
    // Refused before the signature: no active round, wrong network.
    assert!(!attestation_check_due(&ctx, None, &p));
    let mut other = p.clone();
    other.network_id = [8u8; 32];
    assert!(!attestation_check_due(&ctx, r, &other));
    // No key configured, or no signature carried.
    assert!(!attestation_check_due(&res_ctx(), r, &p));
    let mut unsigned = p.clone();
    unsigned.attestation = None;
    assert!(!attestation_check_due(&ctx, r, &unsigned));
    // A late timestamp is refused only after the signature check.
    let mut late = p.clone();
    late.timestamp = 99_999;
    assert!(attestation_check_due(&ctx, r, &late));
}
