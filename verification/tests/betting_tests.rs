//! Opening rounds and taking positions.
use contracts::access_control::AccessMarks;
use contracts::admin::{AdminContext, RuntimeMode};
use contracts::config::set_round_template;
use contracts::betting::{
    cash_out_early, commit_order, commit_prediction, finalize_sealed_batch, is_zero_bytes32,
    mint_initial, place_bet, place_precision_prediction, predict_price, reveal_order,
    reveal_prediction, salt_has_minimum_entropy, sealed_batch_refund_overflows, BetContext, MintContext, PrecisionCommitment,
    SealedBatchEntry, SealedOrder, UserPosition, UserRoundState, INITIAL_MINT_AMOUNT,
};
use contracts::errors::ContractError;
use contracts::insurance::FeeLedger;
use contracts::round::{
    create_next_from_template, create_round, BetSide, Round, RoundCreationContext, RoundMode,
    RoundTemplate,
};
use soroban_sdk::xdr::ToXdr;
use soroban_sdk::{Bytes, BytesN, Env, Symbol};

fn creation_ctx() -> RoundCreationContext {
    RoundCreationContext {
        runtime_mode: RuntimeMode::Normal,
        stored_schema: Some(3),
        admin_set: true,
        has_active_round: false,
        bet_window_ledgers: None,
        run_window_ledgers: None,
        start_ledger_taken: false,
        last_round_id: Some(7),
        ledger_sequence: 100,
        ledger_timestamp: 5_000,
    }
}

fn round(mode: RoundMode) -> Round {
    Round {
        round_id: 8,
        price_start: 1_0000000,
        start_ledger: 100,
        bet_end_ledger: 106,
        end_ledger: 112,
        pool_up: 0,
        pool_down: 0,
        mode,
        start_timestamp: 5_000,
    }
}

fn bet_ctx(ledger: u32) -> BetContext {
    BetContext {
        runtime_mode: RuntimeMode::Normal,
        stored_schema: Some(3),
        access_enabled: false,
        access: AccessMarks { allowlisted: false, denylisted: false },
        sealed_batch_auction: false,
        min_bet: None,
        max_stake: None,
        max_user_exposure: None,
        close_buffer_ledgers: None,
        max_precision_participants: None,
        ledger_sequence: ledger,
        balance: 1_000,
    }
}

fn empty_user() -> UserRoundState {
    UserRoundState { position: None, prediction: None, commitment: None, sealed_order: None }
}

fn salt() -> [u8; 32] {
    let mut s = [0u8; 32];
    for (i, b) in s.iter_mut().enumerate() {
        *b = i as u8 + 1;
    }
    s
}

fn prediction_digest(env: &Env, price: u128, salt: &[u8; 32]) -> [u8; 32] {
    let mut preimage = Bytes::new(env);
    preimage.append(&price.to_xdr(env));
    preimage.append(&BytesN::from_array(env, salt).to_xdr(env));
    env.crypto().sha256(&preimage).to_array()
}

fn order_digest(env: &Env, side: &str, amount: i128, guess: u128, salt: &[u8; 32]) -> [u8; 32] {
    let side_val = soroban_sdk::Vec::<Symbol>::from_array(env, [Symbol::new(env, side)]);
    let mut preimage = Bytes::new(env);
    preimage.append(&side_val.to_xdr(env));
    preimage.append(&amount.to_xdr(env));
    preimage.append(&guess.to_xdr(env));
    preimage.append(&BytesN::from_array(env, salt).to_xdr(env));
    env.crypto().sha256(&preimage).to_array()
}

#[test]
fn create_round_opens_with_default_windows() {
    let r = create_round(&creation_ctx(), 1_0000000, None).unwrap();
    assert_eq!(r.round_id, 8);
    assert_eq!(r.start_ledger, 100);
    assert_eq!(r.bet_end_ledger, 106);
    assert_eq!(r.end_ledger, 112);
    assert_eq!(r.mode, RoundMode::UpDown);
    assert_eq!((r.pool_up, r.pool_down), (0, 0));
    assert_eq!(r.start_timestamp, 5_000);
}

#[test]
fn create_round_refusals() {
    let ctx = creation_ctx();
    assert_eq!(create_round(&ctx, 0, None), Err(ContractError::InvalidStartPrice));
    assert_eq!(create_round(&ctx, 1, Some(2)), Err(ContractError::InvalidMode));
    let mut c = ctx;
    c.has_active_round = true;
    assert_eq!(create_round(&c, 1, Some(1)), Err(ContractError::RoundAlreadyActive));
    let mut c = ctx;
    c.start_ledger_taken = true;
    assert_eq!(create_round(&c, 1, None), Err(ContractError::RoundStartLedgerReused));
    let mut c = ctx;
    c.runtime_mode = RuntimeMode::FullyPaused;
    assert_eq!(create_round(&c, 1, None), Err(ContractError::ContractPaused));
    let mut c = ctx;
    c.last_round_id = Some(u64::MAX);
    assert_eq!(create_round(&c, 1, None), Err(ContractError::Overflow));
    let mut c = ctx;
    c.stored_schema = Some(9);
    assert_eq!(create_round(&c, 1, None), Err(ContractError::UnsupportedSchemaVersion));
    let mut c = ctx;
    c.admin_set = false;
    assert_eq!(create_round(&c, 1, None), Err(ContractError::AdminNotSet));
}

#[test]
fn create_round_allowed_in_claims_only() {
    let mut c = creation_ctx();
    c.runtime_mode = RuntimeMode::ClaimsOnly;
    c.bet_window_ledgers = Some(10);
    c.run_window_ledgers = Some(20);
    let r = create_round(&c, 5, Some(1)).unwrap();
    assert_eq!(r.mode, RoundMode::Precision);
    assert_eq!((r.bet_end_ledger, r.end_ledger), (110, 120));
}

#[test]
fn template_round_uses_template() {
    let ctx = creation_ctx();
    assert_eq!(create_next_from_template(&ctx, None), Err(ContractError::NoRoundTemplate));
    let t = RoundTemplate { start_price: 42, mode: Some(1) };
    let r = create_next_from_template(&ctx, Some(t)).unwrap();
    assert_eq!(r.price_start, 42);
    assert_eq!(r.mode, RoundMode::Precision);
}

#[test]
fn place_bet_moves_stake_into_pool() {
    let (r, balance) =
        place_bet(&bet_ctx(101), &empty_user(), Some(round(RoundMode::UpDown)), 300, BetSide::Up)
            .unwrap();
    assert_eq!(r.pool_up, 300);
    assert_eq!(r.pool_down, 0);
    assert_eq!(balance, 700);
    let (r2, _) =
        place_bet(&bet_ctx(101), &empty_user(), Some(r), 200, BetSide::Down).unwrap();
    assert_eq!((r2.pool_up, r2.pool_down), (300, 200));
}

#[test]
fn place_bet_refusals() {
    let ctx = bet_ctx(101);
    let r = Some(round(RoundMode::UpDown));
    let u = empty_user();
    assert_eq!(place_bet(&ctx, &u, r, 0, BetSide::Up), Err(ContractError::InvalidBetAmount));
    assert_eq!(place_bet(&ctx, &u, None, 10, BetSide::Up), Err(ContractError::NoActiveRound));
    assert_eq!(
        place_bet(&ctx, &u, Some(round(RoundMode::Precision)), 10, BetSide::Up),
        Err(ContractError::WrongModeForPrediction)
    );
    assert_eq!(place_bet(&bet_ctx(106), &u, r, 10, BetSide::Up), Err(ContractError::RoundEnded));
    assert_eq!(place_bet(&ctx, &u, r, 1_001, BetSide::Up), Err(ContractError::InsufficientBalance));
    let holder = UserRoundState {
        position: Some(UserPosition { amount: 5, side: BetSide::Up }),
        ..empty_user()
    };
    assert_eq!(place_bet(&ctx, &holder, r, 10, BetSide::Down), Err(ContractError::AlreadyBet));
    let mut c = ctx;
    c.min_bet = Some(50);
    assert_eq!(place_bet(&c, &u, r, 10, BetSide::Up), Err(ContractError::BelowMinBet));
    let mut c = ctx;
    c.max_stake = Some(5);
    assert_eq!(place_bet(&c, &u, r, 10, BetSide::Up), Err(ContractError::StakeExceedsMax));
    let mut c = ctx;
    c.max_user_exposure = Some(12);
    assert_eq!(place_bet(&c, &holder, r, 10, BetSide::Up), Err(ContractError::ExposureCapExceeded));
    let mut c = ctx;
    c.sealed_batch_auction = true;
    assert_eq!(place_bet(&c, &u, r, 10, BetSide::Up), Err(ContractError::InvalidMode));
    let mut c = ctx;
    c.close_buffer_ledgers = Some(2);
    c.ledger_sequence = 103;
    assert!(place_bet(&c, &u, r, 10, BetSide::Up).is_ok());
    c.ledger_sequence = 104;
    assert_eq!(place_bet(&c, &u, r, 10, BetSide::Up), Err(ContractError::RoundEnded));
    let mut c = ctx;
    c.runtime_mode = RuntimeMode::ClaimsOnly;
    assert_eq!(place_bet(&c, &u, r, 10, BetSide::Up), Err(ContractError::ContractPaused));
    let mut c = ctx;
    c.access = AccessMarks { allowlisted: false, denylisted: true };
    assert_eq!(place_bet(&c, &u, r, 10, BetSide::Up), Err(ContractError::AccessDenied));
    let mut c = ctx;
    c.access_enabled = true;
    assert_eq!(place_bet(&c, &u, r, 10, BetSide::Up), Err(ContractError::AccessDenied));
    c.access.allowlisted = true;
    assert!(place_bet(&c, &u, r, 10, BetSide::Up).is_ok());
}

#[test]
fn precision_prediction_rules() {
    let ctx = bet_ctx(101);
    let r = Some(round(RoundMode::Precision));
    let u = empty_user();
    let (p, balance) = place_precision_prediction(&ctx, &u, r, 0, 100, 2_298).unwrap();
    assert_eq!((p.predicted_price, p.amount, balance), (2_298, 100, 900));
    assert_eq!(predict_price(&ctx, &u, r, 0, 2_298, 100), Ok((p, 900)));
    assert_eq!(
        place_precision_prediction(&ctx, &u, r, 0, 100, 100_000_000),
        Err(ContractError::InvalidPrice)
    );
    assert_eq!(
        place_precision_prediction(&ctx, &u, r, 1_000, 100, 2_298),
        Err(ContractError::PrecisionCapExceeded)
    );
    assert_eq!(
        place_precision_prediction(&ctx, &u, Some(round(RoundMode::UpDown)), 0, 100, 1),
        Err(ContractError::WrongModeForPrediction)
    );
}

#[test]
fn zero_hash_and_weak_salts_are_refused() {
    assert!(is_zero_bytes32(&[0u8; 32]));
    assert!(!is_zero_bytes32(&salt()));
    assert!(!salt_has_minimum_entropy(&[0u8; 32]));
    assert!(!salt_has_minimum_entropy(&[7u8; 32]));
    assert!(salt_has_minimum_entropy(&salt()));
    let r = Some(round(RoundMode::Precision));
    assert_eq!(
        commit_prediction(&bet_ctx(101), &empty_user(), r, [0u8; 32], 100).map(|x| x.1),
        Err(ContractError::InvalidCommitment)
    );
}

#[test]
fn commit_then_reveal_prediction() {
    let env = Env::default();
    let s = salt();
    let digest = prediction_digest(&env, 2_298, &s);
    let r = Some(round(RoundMode::Precision));
    let (c, balance) = commit_prediction(&bet_ctx(101), &empty_user(), r, digest, 100).unwrap();
    assert_eq!(balance, 900);
    assert!(!c.revealed);
    // The reveal window opens when betting closes.
    assert_eq!(
        reveal_prediction(&env, &bet_ctx(101), r, Some(c), 2_298, s).map(|x| x.1),
        Err(ContractError::InvalidRevealWindow)
    );
    let (c2, p) = reveal_prediction(&env, &bet_ctx(107), r, Some(c), 2_298, s).unwrap();
    assert!(c2.revealed);
    assert_eq!((p.predicted_price, p.amount), (2_298, 100));
    // A different price does not match the commitment.
    assert_eq!(
        reveal_prediction(&env, &bet_ctx(107), r, Some(c), 2_299, s).map(|x| x.1),
        Err(ContractError::HashMismatch)
    );
    assert_eq!(
        reveal_prediction(&env, &bet_ctx(107), r, Some(c2), 2_298, s).map(|x| x.1),
        Err(ContractError::AlreadyRevealed)
    );
    assert_eq!(
        reveal_prediction(&env, &bet_ctx(107), r, None, 2_298, s).map(|x| x.1),
        Err(ContractError::CommitmentNotFound)
    );
    assert_eq!(
        reveal_prediction(&env, &bet_ctx(107), r, Some(c), 2_298, [3u8; 32]).map(|x| x.1),
        Err(ContractError::InvalidSalt)
    );
    // Revealing with the hash itself as price/salt would not pass either.
    let forged = PrecisionCommitment { hash: s, amount: 100, revealed: false };
    assert_eq!(
        reveal_prediction(&env, &bet_ctx(107), r, Some(forged), 2_298, s).map(|x| x.1),
        Err(ContractError::HashMismatch)
    );
}

#[test]
fn sealed_order_commit_reveal_and_finalize() {
    let env = Env::default();
    let s = salt();
    let mut ctx = bet_ctx(101);
    ctx.sealed_batch_auction = true;
    let r = round(RoundMode::UpDown);
    let digest = order_digest(&env, "Up", 300, 7, &s);
    let (order, balance) =
        commit_order(&ctx, &empty_user(), Some(r), 300, BetSide::Up, 7, digest).unwrap();
    assert_eq!(balance, 700);
    let mut reveal_ctx = ctx;
    reveal_ctx.ledger_sequence = 107;
    let revealed =
        reveal_order(&env, &reveal_ctx, Some(r), Some(order), 300, BetSide::Up, 7, s).unwrap();
    assert!(revealed.revealed);
    assert_eq!(
        reveal_order(&env, &reveal_ctx, Some(r), Some(order), 300, BetSide::Down, 7, s).map(|o| o.amount),
        Err(ContractError::HashMismatch)
    );
    let down_digest = order_digest(&env, "Down", 300, 7, &s);
    let down = SealedOrder { hash: down_digest, amount: 300, revealed: false, side: BetSide::Down, price_guess: 7 };
    assert!(reveal_order(&env, &reveal_ctx, Some(r), Some(down), 300, BetSide::Down, 7, s).is_ok());
    let unrevealed = SealedOrder { hash: digest, amount: 50, revealed: false, side: BetSide::Down, price_guess: 1 };
    let entries = vec![
        SealedBatchEntry { user: 1, order: Some(revealed), balance: 700 },
        SealedBatchEntry { user: 2, order: Some(unrevealed), balance: 10 },
        SealedBatchEntry { user: 3, order: None, balance: 0 },
    ];
    let out = finalize_sealed_batch(RuntimeMode::Normal, Some(3), true, 107, Some(r), &entries, vec![9])
        .unwrap();
    assert_eq!((out.round.pool_up, out.round.pool_down), (300, 0));
    assert_eq!(out.positions, vec![(1, UserPosition { amount: 300, side: BetSide::Up })]);
    assert_eq!(out.refunds, vec![(2, 60)]);
    assert_eq!(out.round_participants, vec![9, 1]);
    assert_eq!(
        finalize_sealed_batch(RuntimeMode::Normal, Some(3), true, 105, Some(r), &entries, vec![])
            .map(|o| o.round),
        Err(ContractError::InvalidRevealWindow)
    );
    assert_eq!(
        finalize_sealed_batch(RuntimeMode::Normal, Some(3), false, 107, Some(r), &entries, vec![])
            .map(|o| o.round),
        Err(ContractError::InvalidMode)
    );
}

#[test]
fn cash_out_splits_stake_into_credit_and_forfeit() {
    let mut r = round(RoundMode::UpDown);
    r.pool_up = 1_000;
    r.pool_down = 500;
    let pos = Some(UserPosition { amount: 1_000, side: BetSide::Up });
    let fees = FeeLedger { treasury: 0, insurance_fund: 0, insurance_split_bps: 0 };
    let out = cash_out_early(&bet_ctx(107), pos, Some(r), Some(250), 5, None, fees).unwrap();
    assert_eq!(out.forfeit, 25);
    assert_eq!(out.cashout, 975);
    assert_eq!(out.cashout + out.forfeit, 1_000);
    assert_eq!(out.round.pool_up, 0);
    assert_eq!(out.round.pool_down, 500);
    assert_eq!(out.pending, 980);
    assert_eq!(out.fees.treasury, 25);
    assert_eq!(
        cash_out_early(&bet_ctx(107), pos, Some(r), None, 0, None, fees).map(|o| o.cashout),
        Err(ContractError::EarlyCashoutDisabled)
    );
    assert_eq!(
        cash_out_early(&bet_ctx(101), pos, Some(r), Some(250), 0, None, fees).map(|o| o.cashout),
        Err(ContractError::InvalidPhaseForCashout)
    );
    assert_eq!(
        cash_out_early(&bet_ctx(107), None, Some(r), Some(250), 0, None, fees).map(|o| o.cashout),
        Err(ContractError::PositionNotFound)
    );
    assert_eq!(
        cash_out_early(&bet_ctx(107), pos, Some(r), Some(250), 0, Some(100), fees).map(|o| o.cashout),
        Err(ContractError::PendingWinningsCapExceeded)
    );
}

#[test]
fn mint_is_one_time_and_budgeted() {
    let ctx = bet_ctx(2_880);
    let fresh = MintContext {
        existing_balance: None,
        mint_limit: Some(2),
        ledger_mint_count: 1,
        epoch_budget: 0,
        stored_epoch: 0,
        consumed: 0,
    };
    let out = mint_initial(&ctx, &fresh).unwrap();
    assert!(out.minted);
    assert_eq!(out.balance, INITIAL_MINT_AMOUNT);
    assert_eq!(out.ledger_mint_count, Some(2));
    let again = MintContext { existing_balance: Some(5), ..fresh };
    let out2 = mint_initial(&ctx, &again).unwrap();
    assert!(!out2.minted);
    assert_eq!(out2.balance, 5);
    let full = MintContext { ledger_mint_count: 2, ..fresh };
    assert_eq!(mint_initial(&ctx, &full).map(|o| o.balance), Err(ContractError::MintLimitExceeded));
    let budget = MintContext {
        mint_limit: None,
        epoch_budget: INITIAL_MINT_AMOUNT * 2,
        stored_epoch: 2,
        consumed: INITIAL_MINT_AMOUNT * 2,
        ..fresh
    };
    assert_eq!(mint_initial(&ctx, &budget).map(|o| o.balance), Err(ContractError::EpochBudgetExceeded));
    let new_epoch = MintContext { stored_epoch: 1, ..budget };
    let out3 = mint_initial(&ctx, &new_epoch).unwrap();
    let em = out3.epoch_consumed.unwrap();
    assert_eq!((em.epoch, em.consumed), (2, INITIAL_MINT_AMOUNT));
}

#[test]
fn templates_follow_round_rules() {
    let ctx = AdminContext { runtime_mode: RuntimeMode::Normal, stored_schema: Some(3), admin_set: true };
    // A template accepted by the template rules opens a round.
    assert_eq!(set_round_template(&ctx, 1_0000000, Some(1)), Ok(RoundTemplate { start_price: 1_0000000, mode: Some(1) }));
    let r = create_round(&creation_ctx(), 1_0000000, Some(1)).unwrap();
    assert_eq!(r.mode, RoundMode::Precision);
    assert_eq!(r.round_id, 8);
    // And what the template rules refuse, round creation refuses alike.
    assert_eq!(set_round_template(&ctx, 0, None), Err(ContractError::InvalidStartPrice));
    assert_eq!(create_round(&creation_ctx(), 0, None), Err(ContractError::InvalidStartPrice));
    assert_eq!(set_round_template(&ctx, 5, Some(2)), Err(ContractError::InvalidMode));
    assert_eq!(create_round(&creation_ctx(), 5, Some(2)), Err(ContractError::InvalidMode));
}

#[test]
fn sealed_refund_overflow_only_after_gate_and_before_pool_overflow() {
    let r = round(RoundMode::UpDown);
    let order = |amount: i128, revealed: bool, side: BetSide| SealedOrder {
        hash: [1u8; 32],
        amount,
        revealed,
        side,
        price_guess: 1,
    };
    let overflowing = SealedBatchEntry { user: 2, order: Some(order(1, false, BetSide::Up)), balance: i128::MAX };
    let fine = SealedBatchEntry { user: 1, order: Some(order(5, true, BetSide::Up)), balance: 0 };
    let entries = vec![fine, overflowing];
    assert!(sealed_batch_refund_overflows(RuntimeMode::Normal, Some(3), true, 107, Some(r), &entries));
    // Refused before any refund: too early, or not in batch mode.
    assert!(!sealed_batch_refund_overflows(RuntimeMode::Normal, Some(3), true, 105, Some(r), &entries));
    assert!(!sealed_batch_refund_overflows(RuntimeMode::Normal, Some(3), false, 107, Some(r), &entries));
    // A pool overflow met first ends the batch with an error instead.
    let big = SealedBatchEntry { user: 3, order: Some(order(i128::MAX, true, BetSide::Up)), balance: 0 };
    let first_pool = vec![fine, big, overflowing];
    assert!(!sealed_batch_refund_overflows(RuntimeMode::Normal, Some(3), true, 107, Some(r), &first_pool));
    assert_eq!(
        finalize_sealed_batch(RuntimeMode::Normal, Some(3), true, 107, Some(r), &first_pool, vec![])
            .map(|o| o.round),
        Err(ContractError::Overflow)
    );
}
