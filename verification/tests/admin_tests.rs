//! Modes, schema, configuration, governance, access control, insurance,
//! the oracle committee, collateral and oracle rotation.
use contracts::access_control::{
    _enforce_access_control, add_allowlisted, add_denylisted, get_access_policy,
    get_access_state, is_access_control_enabled, remove_allowlisted, AccessMarks, AccessState,
};
use contracts::admin::{
    _check_heartbeat_health_blocked, _consume_hb_override, _load_hb_config, _policy_gate,
    announce_next_schema, arm_hb_override, batch_touch_ttl, clear_next_schema, get_hb_grace_seconds,
    get_hb_override_armed, get_hb_strict_mode, get_protocol_health, get_runtime_mode,
    get_schema_version, initialize, is_oracle_live, migrate_schema_v1_to_v2,
    migrate_schema_v2_to_v3, pause_contract, reclaim_expired_pending_winnings,
    set_oracle_max_deviation_bps, set_oracle_stale_threshold, set_runtime_mode, unpause_contract,
    update_oracle_heartbeat, AdminContext, DataKeyCore, OracleHeartbeatRecord,
    PolicyAction, RuntimeMode,
};
use contracts::admin::{
    _current_mode, _load_deviation_config, get_deviation_ref_mode, get_deviation_window_samples,
    set_deviation_ref_mode, DeviationConfig, DeviationReferenceMode,
};
use contracts::config::_read_fee_model;
use contracts::collateral::{CollateralAdapter, CollateralMode, StandardCollateralAdapter};
use contracts::common::assert_no_active_round;
use contracts::config::{set_close_buffer_ledgers, withdraw_protocol_fee, FeeModel};
use contracts::config_entry::{
    apply_scheduled_changes, get_bet_window_ledgers, get_close_buffer_ledgers, get_fee_model,
    get_max_stake, get_min_bet, get_oracle_stale_threshold, get_protocol_fee_bps,
    get_run_window_ledgers, schedule_max_stake, schedule_windows, set_min_bet,
    set_pending_winnings_expiry, set_protocol_fee_bps, set_windows,
};
use contracts::config_entry::{
    schedule_max_pending_winnings, schedule_max_user_exposure, schedule_min_bet,
    schedule_oracle_deviation_bps, schedule_oracle_stale_threshold,
    schedule_oracle_timestamp_skew, schedule_pending_winnings_expiry, schedule_protocol_fee_bps,
    set_max_pending_winnings, set_max_stake, set_max_user_exposure,
};
use contracts::config_state::{cancel_config_change, ConfigChangeKind, ConfigChangePayload, ConfigState};
use contracts::contract::{
    accept_oracle_rotation, cancel_oracle_rotation, get_oracle_rotation_proposal,
    get_protocol_status, propose_oracle_rotation, ProtocolStatus,
};
use contracts::errors::ContractError;
use contracts::governance::{
    approve, cancel, execute, get_gov_proposal_ttl, propose, set_gov_proposal_ttl, GovAction,
    GovProposalStatus, GovRoles, GovState,
};
use contracts::insurance::{
    get_insurance_eligible_events, get_insurance_fund_balance, get_insurance_split_bps,
    set_insurance_eligible_events, set_insurance_split_bps, top_up_insurance_fund,
    withdraw_insurance_fund,
};
use contracts::oracle_committee::{CommitteeMember, FeederReport, OracleCommittee};
use contracts::settlement::is_round_cancelled;
use soroban_sdk::testutils::Address as _;
use soroban_sdk::{Address, Env};

fn admin_ctx() -> AdminContext {
    AdminContext { runtime_mode: RuntimeMode::Normal, stored_schema: Some(3), admin_set: true }
}

#[test]
fn policy_gate_by_mode() {
    assert_eq!(_policy_gate(RuntimeMode::Normal, PolicyAction::RoundMutation), Ok(()));
    assert_eq!(
        _policy_gate(RuntimeMode::ClaimsOnly, PolicyAction::RoundMutation),
        Err(ContractError::ContractPaused)
    );
    assert_eq!(_policy_gate(RuntimeMode::ClaimsOnly, PolicyAction::Claim), Ok(()));
    assert_eq!(
        _policy_gate(RuntimeMode::FullyPaused, PolicyAction::Claim),
        Err(ContractError::ContractPaused)
    );
}

#[test]
fn runtime_mode_codes() {
    assert_eq!(get_runtime_mode(RuntimeMode::ClaimsOnly), 1);
    assert_eq!(set_runtime_mode(Some(3), true, 2), Ok(RuntimeMode::FullyPaused));
    assert_eq!(set_runtime_mode(Some(3), true, 3), Err(ContractError::InvalidMode));
    assert_eq!(set_runtime_mode(Some(3), false, 0), Err(ContractError::AdminNotSet));
    assert_eq!(set_runtime_mode(Some(9), true, 0), Err(ContractError::UnsupportedSchemaVersion));
}

#[test]
fn pause_and_unpause() {
    assert_eq!(pause_contract(None, true, false), Ok(RuntimeMode::FullyPaused));
    assert_eq!(unpause_contract(None, true, false), Ok(RuntimeMode::Normal));
    assert_eq!(pause_contract(None, true, true), Err(ContractError::GovUnauthorized));
    assert_eq!(pause_contract(None, false, false), Err(ContractError::AdminNotSet));
}

#[test]
fn schema_versions_and_migrations() {
    assert_eq!(get_schema_version(None), 1);
    assert_eq!(get_schema_version(Some(3)), 3);
    assert_eq!(migrate_schema_v1_to_v2(true, RuntimeMode::Normal, false, None, false), Ok(Some(2)));
    assert_eq!(migrate_schema_v1_to_v2(true, RuntimeMode::Normal, false, None, true), Ok(None));
    assert_eq!(
        migrate_schema_v1_to_v2(true, RuntimeMode::Normal, false, Some(2), false),
        Err(ContractError::UnsupportedSchemaVersion)
    );
    assert_eq!(
        migrate_schema_v2_to_v3(true, RuntimeMode::Normal, true, Some(2), false),
        Err(ContractError::MigrationActiveRound)
    );
    assert_eq!(
        migrate_schema_v2_to_v3(true, RuntimeMode::FullyPaused, false, Some(2), false),
        Err(ContractError::ContractPaused)
    );
    assert_eq!(migrate_schema_v2_to_v3(true, RuntimeMode::ClaimsOnly, false, Some(2), false), Ok(Some(3)));
    assert_eq!(
        migrate_schema_v2_to_v3(false, RuntimeMode::Normal, false, Some(2), false),
        Err(ContractError::AdminNotSet)
    );
}

#[test]
fn next_schema_announcements() {
    assert_eq!(announce_next_schema(Some(3), true, 4), Ok(4));
    assert_eq!(announce_next_schema(Some(3), true, 3), Err(ContractError::UnsupportedSchemaVersion));
    assert_eq!(announce_next_schema(Some(3), false, 4), Err(ContractError::AdminNotSet));
    assert_eq!(clear_next_schema(Some(3), true, Some(4)), Ok(4));
    assert_eq!(clear_next_schema(Some(3), true, None), Err(ContractError::UnsupportedSchemaVersion));
}

#[test]
fn initialization_rules() {
    assert_eq!(initialize(1, 2, false), Ok(()));
    assert_eq!(initialize(1, 2, true), Err(ContractError::AlreadyInitialized));
    assert_eq!(initialize(1, 1, false), Err(ContractError::OracleNetworkMismatch));
}

#[test]
fn ttl_batch_touch() {
    let keys = [DataKeyCore::Admin, DataKeyCore::Oracle, DataKeyCore::MaxStake];
    assert_eq!(batch_touch_ttl(true, RuntimeMode::Normal, &keys, &[true, false, true]), Ok((2, 1)));
    assert_eq!(
        batch_touch_ttl(true, RuntimeMode::FullyPaused, &keys, &[true, true, true]),
        Err(ContractError::ContractPaused)
    );
    assert_eq!(
        batch_touch_ttl(false, RuntimeMode::Normal, &keys, &[true, true, true]),
        Err(ContractError::AdminNotSet)
    );
    // The active round is not a key a maintainer may keep alive.
    let bad = [DataKeyCore::Admin, DataKeyCore::ActiveRound];
    assert_eq!(
        batch_touch_ttl(true, RuntimeMode::Normal, &bad, &[true, true]),
        Err(ContractError::UnsupportedDataKeyForTtlTouch)
    );
}

#[test]
fn heartbeat_liveness_and_gate() {
    let rec = OracleHeartbeatRecord { timestamp: 1_000, status: 1 };
    assert!(is_oracle_live(Some(rec), 60, 1_060));
    assert!(!is_oracle_live(Some(rec), 60, 1_061));
    assert!(!is_oracle_live(None, 60, 0));
    assert!(!_check_heartbeat_health_blocked(Some(rec), 60, 100, 1_160));
    assert!(_check_heartbeat_health_blocked(Some(rec), 60, 100, 1_161));
    let offline = OracleHeartbeatRecord { timestamp: 1_000, status: 2 };
    assert!(_check_heartbeat_health_blocked(Some(offline), 60, 100, 1_000));
    assert_eq!(
        update_oracle_heartbeat(Some(3), true, 1, 77),
        Ok(OracleHeartbeatRecord { timestamp: 77, status: 1 })
    );
    assert!(update_oracle_heartbeat(Some(3), true, 3, 77).is_err());
}

#[test]
fn heartbeat_override_is_one_shot() {
    let cfg = _load_hb_config(None);
    assert!(!get_hb_strict_mode(&cfg));
    assert_eq!(get_hb_grace_seconds(&cfg), 0);
    let armed = arm_hb_override(true, RuntimeMode::Normal, cfg).unwrap();
    assert!(get_hb_override_armed(&armed));
    let (used, after) = _consume_hb_override(armed);
    assert!(used);
    assert!(!get_hb_override_armed(&after));
    let (used_again, _) = _consume_hb_override(after);
    assert!(!used_again);
}

#[test]
fn protocol_health_when_paused() {
    let h = get_protocol_health(RuntimeMode::FullyPaused, None, 60, None, Some(3), 5, 10);
    assert!(h.paused);
    assert_eq!(h.status_code, 1);
    assert!(!h.oracle_live);
}

#[test]
fn expired_winnings_reclaimed() {
    // Expiry 200 ledgers, last update at 100: expired from ledger 300.
    assert_eq!(
        reclaim_expired_pending_winnings(&admin_ctx(), 200, 50, Some(100), 300, 1_000),
        Ok((50, 1_050))
    );
    assert_eq!(
        reclaim_expired_pending_winnings(&admin_ctx(), 200, 50, Some(100), 299, 1_000),
        Err(ContractError::PendingWinningsNotExpired)
    );
    assert_eq!(
        reclaim_expired_pending_winnings(&admin_ctx(), 0, 50, Some(100), 299, 1_000),
        Err(ContractError::NoActiveRound)
    );
    assert_eq!(
        reclaim_expired_pending_winnings(&admin_ctx(), 200, 0, Some(100), 300, 1_000),
        Err(ContractError::NoActiveRound)
    );
    assert_eq!(
        reclaim_expired_pending_winnings(&admin_ctx(), 200, 50, None, 300, 1_000),
        Err(ContractError::NoActiveRound)
    );
    let no_admin = AdminContext { admin_set: false, ..admin_ctx() };
    assert_eq!(
        reclaim_expired_pending_winnings(&no_admin, 200, 50, Some(100), 300, 1_000),
        Err(ContractError::AdminNotSet)
    );
}

#[test]
fn timelocked_config_flow() {
    let ctx = admin_ctx();
    let pending = schedule_windows(&ctx, 10, 20, false, 1_000).unwrap();
    assert_eq!(pending.activation_ledger, 2_440);
    assert_eq!(pending.scheduled_at_ledger, 1_000);
    assert_eq!(schedule_windows(&ctx, 20, 10, false, 1_000), Err(ContractError::InvalidDuration));
    assert_eq!(schedule_windows(&ctx, 10, 20, true, 1_000), Err(ContractError::RoundAlreadyActive));
    assert_eq!(set_windows(&ctx, 10, 20, false, u32::MAX), Err(ContractError::Overflow));

    let mut config = ConfigState::new();
    assert_eq!(get_bet_window_ledgers(&config), 6);
    assert_eq!(
        apply_scheduled_changes(&mut config, Some(3), RuntimeMode::Normal, ConfigChangeKind::Windows, Some(pending), 2_439),
        Err(ContractError::RoundNotEnded)
    );
    assert_eq!(get_bet_window_ledgers(&config), 6);
    assert_eq!(cancel_config_change(&pending, 2_439), Ok(()));
    assert_eq!(cancel_config_change(&pending, 2_440), Err(ContractError::RoundNotCancellable));
    assert_eq!(
        apply_scheduled_changes(&mut config, Some(3), RuntimeMode::ClaimsOnly, ConfigChangeKind::Windows, Some(pending), 2_440),
        Err(ContractError::ContractPaused)
    );
    assert_eq!(
        apply_scheduled_changes(&mut config, Some(3), RuntimeMode::Normal, ConfigChangeKind::Windows, None, 2_440),
        Err(ContractError::CommitmentNotFound)
    );
    assert_eq!(
        apply_scheduled_changes(&mut config, Some(3), RuntimeMode::Normal, ConfigChangeKind::Windows, Some(pending), 2_440),
        Ok(())
    );
    assert_eq!(get_bet_window_ledgers(&config), 10);
    assert_eq!(get_run_window_ledgers(&config), 20);
}

#[test]
fn stake_caps_and_fees_through_the_timelock() {
    let ctx = admin_ctx();
    let mut config = ConfigState::new();
    assert_eq!(get_max_stake(&config), None);
    let p = schedule_max_stake(&ctx, Some(500), false, 0).unwrap();
    assert_eq!(p.payload, ConfigChangePayload::MaxStake(Some(500)));
    apply_scheduled_changes(&mut config, None, RuntimeMode::Normal, ConfigChangeKind::MaxStake, Some(p), 1_440).unwrap();
    assert_eq!(get_max_stake(&config), Some(500));
    assert_eq!(schedule_max_stake(&ctx, Some(0), false, 0), Err(ContractError::InvalidBetAmount));
    assert_eq!(set_protocol_fee_bps(&ctx, Some(1_001), false, 0).map(|p| p.payload), Err(ContractError::InvalidProtocolFeeBps));
    let fee = set_protocol_fee_bps(&ctx, Some(250), false, 0).unwrap();
    apply_scheduled_changes(&mut config, None, RuntimeMode::Normal, ConfigChangeKind::ProtocolFeeBps, Some(fee), 2_000).unwrap();
    assert_eq!(get_protocol_fee_bps(&config), Some(250));
    assert_eq!(get_min_bet(&config), None);
    let mb = set_min_bet(&ctx, Some(10), false, 0).unwrap();
    // A pending change of another kind is refused.
    assert_eq!(
        apply_scheduled_changes(&mut config, None, RuntimeMode::Normal, ConfigChangeKind::MaxStake, Some(mb), 2_000),
        Err(ContractError::InvalidMode)
    );
    assert_eq!(get_fee_model(&config), FeeModel::FeeOnPot);
    assert_eq!(get_close_buffer_ledgers(&config), 0);
    assert!(set_pending_winnings_expiry(&ctx, 5, false, 0).is_err());
    assert!(set_pending_winnings_expiry(&ctx, 0, false, 0).is_ok());
}

#[test]
fn oracle_settings_are_timelocked() {
    let ctx = admin_ctx();
    let mut config = ConfigState::new();
    assert_eq!(get_oracle_stale_threshold(&config), 3_600);
    let p = set_oracle_stale_threshold(&ctx, 120, false, 10).unwrap();
    apply_scheduled_changes(&mut config, Some(3), RuntimeMode::Normal, ConfigChangeKind::OracleStaleThreshold, Some(p), 1_450).unwrap();
    assert_eq!(get_oracle_stale_threshold(&config), 120);
    assert!(set_oracle_stale_threshold(&ctx, 10, false, 10).is_err());
    assert!(set_oracle_max_deviation_bps(&ctx, Some(500), false, 10).is_ok());
    let paused = AdminContext { runtime_mode: RuntimeMode::FullyPaused, ..ctx };
    assert_eq!(
        set_oracle_max_deviation_bps(&paused, Some(500), false, 10),
        Err(ContractError::ContractPaused)
    );
}

#[test]
fn immediate_admin_settings() {
    let ctx = admin_ctx();
    assert_eq!(set_close_buffer_ledgers(&ctx, 10), Ok(10));
    assert_eq!(set_close_buffer_ledgers(&ctx, 1_441), Err(ContractError::WindowOutOfRange));
    let no_admin = AdminContext { admin_set: false, ..ctx };
    assert_eq!(set_close_buffer_ledgers(&no_admin, 10), Err(ContractError::AdminNotSet));
    assert_eq!(withdraw_protocol_fee(&ctx, false, 100, 5, 40), Ok((60, 45)));
    assert_eq!(withdraw_protocol_fee(&ctx, false, 100, 5, 101), Err(ContractError::InsufficientBalance));
    assert_eq!(withdraw_protocol_fee(&ctx, true, 100, 5, 40), Err(ContractError::GovUnauthorized));
}

#[test]
fn governance_dual_control() {
    let roles = GovRoles { admin: Some(1), approver: Some(2) };
    assert_eq!(get_gov_proposal_ttl(None), 100);
    assert_eq!(set_gov_proposal_ttl(Some(3), true, 0), Err(ContractError::WindowOutOfRange));
    let (p, next) = propose(Some(3), &roles, 1, GovAction::WithdrawProtocolFee(9, 30), None, None, None, 50).unwrap();
    assert_eq!(p.id, 1);
    assert_eq!(next, 2);
    assert_eq!(p.expires_at_ledger, 150);
    assert_eq!(p.status, GovProposalStatus::Pending);
    assert!(propose(Some(3), &roles, 3, GovAction::PauseProtocol, None, None, None, 50).is_err());
    // The proposer cannot approve its own proposal.
    assert_eq!(approve(Some(3), &roles, 1, Some(p), 60), Err(ContractError::GovInvalidState));
    let state = GovState {
        runtime_mode: RuntimeMode::Normal,
        protocol_fee_bps: None,
        treasury: 100,
        treasury_address: None,
        admin: Some(1),
        oracle: Some(5),
    };
    // Execution needs approval first.
    assert_eq!(execute(Some(3), &roles, 1, Some(p), 60, state, 0), Err(ContractError::GovInvalidState));
    let approved = approve(Some(3), &roles, 2, Some(p), 60).unwrap();
    assert_eq!(approved.status, GovProposalStatus::Approved);
    assert_eq!(approve(Some(3), &roles, 2, Some(p), 151), Err(ContractError::ProposalExpired));
    let (done, new_state, recipient) = execute(Some(3), &roles, 1, Some(approved), 70, state, 7).unwrap();
    assert_eq!(done.status, GovProposalStatus::Executed);
    assert_eq!(new_state.treasury, 70);
    assert_eq!(recipient, 37);
    assert_eq!(cancel(Some(3), &roles, 2, Some(done)), Err(ContractError::GovInvalidState));
    assert_eq!(cancel(Some(3), &roles, 2, Some(p)).unwrap().status, GovProposalStatus::Cancelled);
}

#[test]
fn access_lists() {
    let ctx = admin_ctx();
    assert!(!is_access_control_enabled(None));
    let mut marks = AccessMarks { allowlisted: false, denylisted: true };
    assert_eq!(add_allowlisted(&ctx, &mut marks), Ok(true));
    assert_eq!(marks, AccessMarks { allowlisted: true, denylisted: false });
    assert_eq!(get_access_state(&marks), AccessState::Allowlisted);
    assert_eq!(_enforce_access_control(true, &marks), Ok(()));
    assert_eq!(add_denylisted(&ctx, &mut marks), Ok(true));
    assert_eq!(get_access_policy(true, &marks), (true, AccessState::Denylisted));
    assert!(_enforce_access_control(true, &marks).is_err());
    assert!(_enforce_access_control(false, &AccessMarks { allowlisted: false, denylisted: false }).is_ok());
    let mut m2 = AccessMarks { allowlisted: true, denylisted: false };
    remove_allowlisted(&ctx, &mut m2).unwrap();
    assert_eq!(get_access_state(&m2), AccessState::Open);
}

#[test]
fn insurance_fund_settings_and_movements() {
    let ctx = admin_ctx();
    assert_eq!(get_insurance_split_bps(None), 0);
    assert_eq!(set_insurance_split_bps(&ctx, 5_000), Ok(5_000));
    assert_eq!(set_insurance_split_bps(&ctx, 5_001), Err(ContractError::InsuranceInvalidSplit));
    // The insurance settings do not look at the stored schema.
    let odd_schema = AdminContext { stored_schema: Some(99), ..ctx };
    assert_eq!(set_insurance_split_bps(&odd_schema, 10), Ok(10));
    assert_eq!(set_insurance_eligible_events(&ctx, vec![1, 3]), Ok(vec![1, 3]));
    assert!(get_insurance_eligible_events(None).is_empty());
    assert_eq!(get_insurance_fund_balance(Some(12)), 12);
    assert_eq!(top_up_insurance_fund(&ctx, 100, 5, 40), Ok((60, 45)));
    assert_eq!(top_up_insurance_fund(&ctx, 10, 5, 40), Err(ContractError::InsufficientBalance));
    assert_eq!(withdraw_insurance_fund(&ctx, false, 45, 0, 45), Ok((0, 45)));
    assert_eq!(withdraw_insurance_fund(&ctx, false, 45, 0, 46), Err(ContractError::InsuranceInsufficientFund));
}

#[test]
fn committee_aggregate_and_slash() {
    let members = vec![
        CommitteeMember { feeder: 1, stake: 600, active: true, registered_at: 0 },
        CommitteeMember { feeder: 2, stake: 400, active: true, registered_at: 0 },
        CommitteeMember { feeder: 3, stake: 900, active: false, registered_at: 0 },
    ];
    let reports = vec![
        FeederReport { feeder: 3, price: 7, timestamp: 1 },
        FeederReport { feeder: 2, price: 11, timestamp: 1 },
    ];
    let agg = OracleCommittee::aggregate_reports(&reports, &members, 5_000).unwrap();
    assert_eq!(agg.price, 11);
    assert_eq!(agg.total_stake_weight, 400);
    assert!(!agg.quorum_reached);
    assert!(OracleCommittee::aggregate_reports(&vec![], &members, 5_000).is_err());
    let mut m = CommitteeMember { feeder: 1, stake: 100, active: true, registered_at: 4 };
    assert_eq!(OracleCommittee::slash_feeder(&mut m, 30), Ok(30));
    assert_eq!(m.stake, 70);
    assert_eq!(OracleCommittee::slash_feeder(&mut m, 500), Ok(70));
    assert_eq!(m.stake, 0);
    assert!(!m.active);
}

#[test]
fn collateral_modes() {
    let env = Env::default();
    let token = Address::generate(&env);
    let v = StandardCollateralAdapter::virtual_mode();
    assert_eq!(v.mode, CollateralMode::Virtual);
    assert_eq!(v.lock(10), Ok(None));
    assert_eq!(v.lock(0), Err(ContractError::InvalidAmount));
    let r = StandardCollateralAdapter::real_mode(token.clone());
    assert_eq!(r.payout(5), Ok(Some(&token)));
    assert_eq!(r.collect_fee(-1), Err(ContractError::InvalidAmount));
}

#[test]
fn oracle_rotation_window() {
    let ctx = admin_ctx();
    let p = propose_oracle_rotation(&ctx, 42, 7_200, 1_000).unwrap();
    assert_eq!(p.expires_at, 8_200);
    assert_eq!(propose_oracle_rotation(&ctx, 42, 10, 1_000), Err(ContractError::InvalidDuration));
    assert_eq!(
        accept_oracle_rotation(Some(3), RuntimeMode::Normal, Some(p), Some(1), 4_599),
        Err(ContractError::RotationDelayNotElapsed)
    );
    assert_eq!(accept_oracle_rotation(Some(3), RuntimeMode::Normal, Some(p), Some(1), 4_600), Ok(42));
    assert_eq!(
        accept_oracle_rotation(Some(3), RuntimeMode::Normal, Some(p), Some(1), 8_201),
        Err(ContractError::NoPendingRotation)
    );
    assert_eq!(get_oracle_rotation_proposal(Some(p), 8_201), None);
    assert_eq!(cancel_oracle_rotation(&ctx, None), Err(ContractError::NoPendingRotation));
}

#[test]
fn short_rotation_expiry_is_proposed_but_never_accepted() {
    let ctx = admin_ctx();
    assert_eq!(propose_oracle_rotation(&ctx, 42, 59, 1_000), Err(ContractError::InvalidDuration));
    let p = propose_oracle_rotation(&ctx, 42, 120, 1_000).unwrap();
    assert_eq!(p.expires_at, 1_120);
    let q = propose_oracle_rotation(&ctx, 42, 60, 1_000).unwrap();
    assert_eq!(q.expires_at, 1_060);
    for now in [1_000u64, 1_120, 4_599, 4_600, 10_000] {
        assert!(accept_oracle_rotation(Some(3), RuntimeMode::Normal, Some(p), Some(1), now).is_err());
    }
    assert_eq!(
        accept_oracle_rotation(Some(3), RuntimeMode::Normal, Some(p), Some(1), 4_600),
        Err(ContractError::NoPendingRotation)
    );
}

#[test]
fn status_queries() {
    assert_eq!(get_protocol_status(RuntimeMode::FullyPaused, true), ProtocolStatus::Paused);
    assert_eq!(get_protocol_status(RuntimeMode::Normal, true), ProtocolStatus::Active);
    assert_eq!(get_protocol_status(RuntimeMode::Normal, false), ProtocolStatus::ClaimsOnly);
    assert!(is_round_cancelled(Some(true)));
    assert!(!is_round_cancelled(None));
    assert_eq!(assert_no_active_round(true), Err(ContractError::RoundAlreadyActive));
    assert_eq!(assert_no_active_round(false), Ok(()));
}

#[test]
fn stored_defaults() {
    assert_eq!(_current_mode(None), RuntimeMode::Normal);
    assert_eq!(_current_mode(Some(RuntimeMode::ClaimsOnly)), RuntimeMode::ClaimsOnly);
    assert_eq!(_read_fee_model(None), FeeModel::FeeOnPot);
    let d = _load_deviation_config(None);
    assert_eq!(get_deviation_ref_mode(&d), DeviationReferenceMode::StartPrice);
    assert_eq!(get_deviation_window_samples(&d), 2);
    let ctx = admin_ctx();
    assert_eq!(
        set_deviation_ref_mode(&ctx, DeviationReferenceMode::Twap, 8),
        Ok(DeviationConfig { reference_mode: DeviationReferenceMode::Twap, window_samples: 8 })
    );
    assert_eq!(
        set_deviation_ref_mode(&ctx, DeviationReferenceMode::Twap, 65),
        Err(ContractError::WindowOutOfRange)
    );
}

#[test]
fn every_timelocked_setting_schedules() {
    let ctx = admin_ctx();
    let at = |p: Result<contracts::config_state::PendingConfigChange, ContractError>| p.map(|p| p.payload);
    assert_eq!(at(schedule_min_bet(&ctx, Some(5), false, 1)), Ok(ConfigChangePayload::MinBet(Some(5))));
    assert_eq!(at(schedule_max_user_exposure(&ctx, Some(9), false, 1)), Ok(ConfigChangePayload::MaxUserRoundExposure(Some(9))));
    assert_eq!(at(set_max_user_exposure(&ctx, Some(0), false, 1)), Err(ContractError::InvalidBetAmount));
    assert_eq!(at(schedule_max_pending_winnings(&ctx, None, false, 1)), Ok(ConfigChangePayload::MaxPendingWinnings(None)));
    assert_eq!(at(set_max_pending_winnings(&ctx, Some(7), false, 1)), Ok(ConfigChangePayload::MaxPendingWinnings(Some(7))));
    assert_eq!(at(set_max_stake(&ctx, Some(7), true, 1)), Err(ContractError::RoundAlreadyActive));
    assert_eq!(at(schedule_oracle_stale_threshold(&ctx, 60, false, 1)), Ok(ConfigChangePayload::OracleStaleThreshold(60)));
    assert!(schedule_oracle_stale_threshold(&ctx, 59, false, 1).is_err());
    assert!(schedule_oracle_deviation_bps(&ctx, Some(100_001), false, 1).is_err());
    assert_eq!(at(schedule_oracle_deviation_bps(&ctx, None, false, 1)), Ok(ConfigChangePayload::OracleMaxDeviationBps(None)));
    assert_eq!(at(schedule_oracle_timestamp_skew(&ctx, 0, false, 1)), Ok(ConfigChangePayload::OracleTimestampSkew(0)));
    assert!(schedule_oracle_timestamp_skew(&ctx, 86_401, false, 1).is_err());
    assert_eq!(at(schedule_protocol_fee_bps(&ctx, Some(1_000), false, 1)), Ok(ConfigChangePayload::ProtocolFeeBps(Some(1_000))));
    assert_eq!(at(schedule_pending_winnings_expiry(&ctx, 128, false, 1)), Ok(ConfigChangePayload::PendingWinningsExpiry(128)));
    // The schema is checked before the value, the value before the admin.
    let bad = AdminContext { stored_schema: Some(0), admin_set: false, ..ctx };
    assert_eq!(at(schedule_min_bet(&bad, Some(0), false, 1)), Err(ContractError::UnsupportedSchemaVersion));
    let no_admin = AdminContext { admin_set: false, ..ctx };
    assert_eq!(at(schedule_min_bet(&no_admin, Some(0), false, 1)), Err(ContractError::InvalidBetAmount));
    assert_eq!(at(schedule_min_bet(&no_admin, Some(1), false, 1)), Err(ContractError::AdminNotSet));
}
