//! Guardians, proposals, merchants' settings and the rotation of the administrator.
use subscription_vault::admin::CONFIG_COOLDOWN_SECS;
use subscription_vault::events::Event;
use subscription_vault::merchants::{MerchantConfigUpdate, OP_REFUND, OP_WITHDRAW};
use subscription_vault::nonce::DOMAIN_ADMIN_ROTATION;
use subscription_vault::records::ProposalKind;
use subscription_vault::scenarios::{
    amount, create_sub, init_vault, ledger_at, set_balance, setup_env,
};
use subscription_vault::types::{vault_address, Address, Error};
use subscription_vault::vault::{Vault, MIN_TIMELOCK_DELAY};

const T0: u64 = 1_000;
const INTERVAL: u64 = 30 * 24 * 60 * 60;
const PREPAID: i128 = 50_000_000;

fn bare_vault() -> Vault {
    let mut v = Vault::new(ledger_at(0, 0));
    v.allow_all = true;
    v
}

/// By default proposals wait for two days. A delay of zero leaves the time to the proposal, which
/// the tests with an hour's notice need.
fn governed_vault(min_timelock_delay: u64) -> (Vault, Address) {
    let scene = init_vault(min_timelock_delay);
    (scene.vault, scene.admin)
}

fn host<T>(r: Result<T, Error>) -> T {
    match r {
        Ok(x) => x,
        Err(Error::AuthRequired) => panic!("Error(Auth, InvalidAction)"),
        Err(e) => panic!("Error(Contract, #{})", e.to_code()),
    }
}

#[test]
fn test_add_and_remove_guardians() {
    let (mut v, admin) = governed_vault(0);
    let guardian1 = v.generate_address();
    let guardian2 = v.generate_address();

    v.add_guardian(&admin, &guardian1, 100).unwrap();
    v.add_guardian(&admin, &guardian2, 50).unwrap();

    assert_eq!(v.get_guardian_weight(&guardian1), 100);
    assert_eq!(v.get_guardian_weight(&guardian2), 50);

    v.remove_guardian(&admin, &guardian1).unwrap();
    assert_eq!(v.get_guardian_weight(&guardian1), 0);
    assert_eq!(v.get_guardian_weight(&guardian2), 50);
}

#[test]
fn test_submit_proposal_rotate_admin() {
    let (mut v, _) = governed_vault(0);
    let new_admin = v.generate_address();

    let current_time = v.ledger.timestamp;
    let eta = current_time + 3600;

    let proposal_id = v.submit_proposal(ProposalKind::RotateAdmin, &new_admin, None, 0, 5000, eta).unwrap();

    assert_eq!(proposal_id, 0);

    let proposal = v.get_proposal(0).unwrap();
    assert_eq!(proposal.kind, ProposalKind::RotateAdmin);
    assert_eq!(proposal.target, new_admin);
    assert_eq!(proposal.quorum_bps, 5000);
    assert_eq!(proposal.executed, false);
}

#[test]
fn test_submit_proposal_set_protocol_fee() {
    let (mut v, _) = governed_vault(0);
    let treasury = v.generate_address();

    let current_time = v.ledger.timestamp;
    let eta = current_time + 3600;

    let proposal_id = v.submit_proposal(
        ProposalKind::SetProtocolFee,
        &treasury,
        None,
        250,
        7500,
        eta,
    ).unwrap();

    assert_eq!(proposal_id, 0);

    let proposal = v.get_proposal(0).unwrap();
    assert_eq!(proposal.kind, ProposalKind::SetProtocolFee);
    assert_eq!(proposal.target3, 250);
}

#[test]
fn test_invalid_quorum_bps() {
    let (mut v, _) = governed_vault(0);
    let new_admin = v.generate_address();

    let current_time = v.ledger.timestamp;
    let eta = current_time + 3600;

    let result = v.submit_proposal(
        ProposalKind::RotateAdmin,
        &new_admin,
        None,
        0,
        10001,
        eta,
    );

    assert!(
        result.is_err(),
        "proposal with quorum > 10000 must be rejected"
    );
}

#[test]
fn test_eta_in_past_rejected() {
    let (mut v, _) = governed_vault(0);
    let new_admin = v.generate_address();

    v.set_timestamp(1_000_000);
    let current_time = v.ledger.timestamp;
    let eta_in_past = current_time - 3600;

    let result = v.submit_proposal(
        ProposalKind::RotateAdmin,
        &new_admin,
        None,
        0,
        5000,
        eta_in_past,
    );

    assert!(result.is_err(), "proposal with past ETA must be rejected");
}

#[test]
fn test_cancel_proposal() {
    let (mut v, _) = governed_vault(0);
    let new_admin = v.generate_address();

    let current_time = v.ledger.timestamp;
    let eta = current_time + 3600;
    let proposal_id = v.submit_proposal(ProposalKind::RotateAdmin, &new_admin, None, 0, 5000, eta).unwrap();

    let reason = b"Superseded by newer proposal";
    v.cancel_proposal(proposal_id, reason).unwrap();

    let proposal = v.get_proposal(proposal_id);
    assert_eq!(proposal.unwrap().executed, true);
}

#[test]
fn test_list_guardians() {
    let (mut v, admin) = governed_vault(0);
    let guardian1 = v.generate_address();
    let guardian2 = v.generate_address();

    v.add_guardian(&admin, &guardian1, 100).unwrap();
    v.add_guardian(&admin, &guardian2, 50).unwrap();

    let guardians = v.list_guardians();
    assert_eq!(guardians.len(), 2);

    let has_guardian1 = guardians.iter().any(|&(g, w)| g == guardian1 && w == 100);
    let has_guardian2 = guardians.iter().any(|&(g, w)| g == guardian2 && w == 50);
    assert!(has_guardian1);
    assert!(has_guardian2);
}

#[test]
fn test_current_proposal_id_counter() {
    let (mut v, _) = governed_vault(0);
    let new_admin1 = v.generate_address();
    let new_admin2 = v.generate_address();

    assert_eq!(v.get_current_proposal_id(), 0);

    let current_time = v.ledger.timestamp;
    let eta = current_time + 3600;
    let id1 = v.submit_proposal(
        ProposalKind::RotateAdmin,
        &new_admin1,
        None,
        0,
        5000,
        eta,
    ).unwrap();

    assert_eq!(id1, 0);
    assert_eq!(v.get_current_proposal_id(), 1);

    let id2 = v.submit_proposal(
        ProposalKind::RotateAdmin,
        &new_admin2,
        None,
        0,
        5000,
        eta,
    ).unwrap();

    assert_eq!(id2, 1);
    assert_eq!(v.get_current_proposal_id(), 2);
}

#[test]
fn test_merchant_config_initialization() {
    let mut v = bare_vault();

    let merchant_a = v.generate_address();
    let payout_address = v.generate_address();
    let redirect_url = b"https://stellabill.io/success";

    let config = v.initialize_merchant_config(
        &merchant_a,
        &payout_address,
        500,
        0x1F,
        None,
        redirect_url,
    ).unwrap();

    assert_eq!(config.fee_bips, 500);
    assert_eq!(config.is_active, true);
    assert_eq!(config.redirect_url, redirect_url);
}

#[test]
fn test_merchant_config_governance_enforced() {
    let mut v = bare_vault();

    let merchant_a = v.generate_address();
    let payout_address = v.generate_address();
    let redirect_url = b"https://stellabill.io/success";

    v.initialize_merchant_config(
        &merchant_a,
        &payout_address,
        500,
        0x1F,
        None,
        redirect_url,
    ).unwrap();

    let updated = v.update_merchant_config(
        &merchant_a,
        MerchantConfigUpdate { payout_address: None, fee_bips: Some(1000), allowed_operations: None, is_active: None, fee_address: None, redirect_url: Some(b"https://new-url.com".to_vec()), paused: None },
    ).unwrap();

    assert_eq!(updated.fee_bips, 1000);
    assert_eq!(
        updated.redirect_url,
        b"https://new-url.com"
    );
}

#[test]
#[should_panic(expected = "Error(Auth, InvalidAction)")]
fn test_unauthorized_merchant_config_update() {
    let mut v = bare_vault();
    v.allow_all = false;

    let merchant = v.generate_address();
    let payout = v.generate_address();

    let _ = host(v.initialize_merchant_config(
            &merchant,
            &payout,
            500,
            0x1F,
            None,
            b"https://malicious.com",
    ));
}

#[test]
fn test_fee_bips_at_maximum_boundary() {
    let mut v = bare_vault();

    let merchant = v.generate_address();
    let payout = v.generate_address();

    let config = v.initialize_merchant_config(&merchant, &payout, 10000, 0x1F, None, b"").unwrap();

    assert_eq!(config.fee_bips, 10000);
}

#[test]
#[should_panic(expected = "Error(Contract, #7001)")]
fn test_fee_bips_exceeds_maximum() {
    let mut v = bare_vault();

    let merchant = v.generate_address();
    let payout = v.generate_address();

    let _ = host(v.initialize_merchant_config(&merchant, &payout, 10001, 0x1F, None, b""));
}

#[test]
#[should_panic(expected = "Error(Contract, #7003)")]
fn test_operations_without_charge_flag() {
    let mut v = bare_vault();

    let merchant = v.generate_address();
    let payout = v.generate_address();

    let _ = host(v.initialize_merchant_config(
            &merchant,
            &payout,
            0,
            OP_WITHDRAW | OP_REFUND,
            None,
            b"",
    ));
}

#[test]
#[should_panic(expected = "Error(Contract, #7002)")]
fn test_operations_with_invalid_bit() {
    let mut v = bare_vault();

    let merchant = v.generate_address();
    let payout = v.generate_address();

    let _ = host(v.initialize_merchant_config(&merchant, &payout, 0, 0x80, None, b""));
}

#[test]
fn test_get_merchant_config_not_found() {
    let mut v = bare_vault();

    let merchant = v.generate_address();

    let config = v.get_merchant_config(&merchant);
    assert!(config.is_none());
}

#[test]
#[should_panic(expected = "Error(Contract, #2001)")]
fn test_update_nonexistent_config() {
    let mut v = bare_vault();

    let merchant = v.generate_address();

    let _ = host(v.update_merchant_config(
            &merchant,
            MerchantConfigUpdate { payout_address: None, fee_bips: Some(500), allowed_operations: None, is_active: None, fee_address: None, redirect_url: None, paused: None },
    ));
}

#[test]
fn test_partial_update_preserves_other_fields() {
    let mut v = bare_vault();

    let merchant = v.generate_address();
    let payout = v.generate_address();

    let initial = v.initialize_merchant_config(
        &merchant,
        &payout,
        500,
        0x0F,
        None,
        b"https://initial.com",
    ).unwrap();

    assert_eq!(initial.fee_bips, 500);
    assert_eq!(initial.allowed_operations, 0x0F);

    let updated = v.update_merchant_config(
        &merchant,
        MerchantConfigUpdate { payout_address: None, fee_bips: Some(1000), allowed_operations: None, is_active: None, fee_address: None, redirect_url: None, paused: None },
    ).unwrap();

    assert_eq!(updated.fee_bips, 1000);
    assert_eq!(updated.allowed_operations, 0x0F);
    assert_eq!(
        updated.redirect_url,
        b"https://initial.com"
    );
}

#[test]
fn test_set_and_get_merchant_config() {
    let mut v = bare_vault();

    let merchant = v.generate_address();
    let payout = v.generate_address();

    v.initialize_merchant_config(
        &merchant,
        &payout,
        250,
        0x1F,
        None,
        b"https://example.com",
    ).unwrap();

    let retrieved = v.get_merchant_config(&merchant).unwrap();

    assert_eq!(retrieved.fee_bips, 250);
    assert_eq!(retrieved.is_active, true);
    assert_eq!(retrieved.allowed_operations, 0x1F);
}

#[test]
fn test_update_deactivate_merchant() {
    let mut v = bare_vault();

    let merchant = v.generate_address();
    let payout = v.generate_address();

    v.initialize_merchant_config(&merchant, &payout, 500, 0x1F, None, b"").unwrap();

    let updated = v.update_merchant_config(
        &merchant,
        MerchantConfigUpdate { payout_address: None, fee_bips: None, allowed_operations: None, is_active: Some(false), fee_address: None, redirect_url: None, paused: None },
    ).unwrap();

    assert_eq!(updated.is_active, false);
}

#[test]
fn test_withdraw_uninitialized_merchant_fails() {
    let mut v = bare_vault();

    let admin = v.generate_address();
    let token = v.generate_address();

    v.init(&token, 6, &admin, 1_000_000i128, 7 * 24 * 60 * 60).unwrap();

    let merchant = v.generate_address();
    let amount = 1_000_000i128;

    let res = v.withdraw_merchant_funds(&merchant, amount);
    assert_eq!(res, Err(Error::NotFound));
}

#[test]
fn test_withdraw_token_uninitialized_merchant_fails() {
    let mut v = bare_vault();

    let admin = v.generate_address();
    let token = v.generate_address();

    v.init(&token, 6, &admin, 1_000_000i128, 7 * 24 * 60 * 60).unwrap();

    let merchant = v.generate_address();
    let amount = 1_000_000i128;

    let res = v.withdraw_merchant_token_funds(&merchant, &token, amount);
    assert_eq!(res, Err(Error::NotFound));
}

#[test]
fn test_merchant_refund_uninitialized_merchant_fails() {
    let mut v = bare_vault();

    let admin = v.generate_address();
    let token = v.generate_address();

    v.init(&token, 6, &admin, 1_000_000i128, 7 * 24 * 60 * 60).unwrap();

    let merchant = v.generate_address();
    let subscriber = v.generate_address();
    let amount = 1_000_000i128;

    let res = v.merchant_refund(&merchant, &subscriber, &token, amount);
    assert_eq!(res, Err(Error::NotFound));
}

#[test]
fn vote_before_timelock_succeeds() {
    let (mut v, admin) = governed_vault(0);
    let guardian1 = v.generate_address();

    v.add_guardian(&admin, &guardian1, 100).unwrap();

    let current_time = v.ledger.timestamp;
    let eta = current_time + 3600;

    let target = v.generate_address();
    let proposal_id = v.submit_proposal(ProposalKind::RotateAdmin, &target, None, 0, 5000, eta).unwrap();

    let result = v.vote_proposal(proposal_id, true);
    assert!(result.is_ok(), "voting before ETA must succeed");
}

#[test]
fn vote_at_exact_timelock_start_rejected() {
    let (mut v, admin) = governed_vault(0);
    let guardian1 = v.generate_address();

    v.add_guardian(&admin, &guardian1, 100).unwrap();

    let current_time = v.ledger.timestamp;
    let eta = current_time + 3600;

    let target = v.generate_address();
    let proposal_id = v.submit_proposal(ProposalKind::RotateAdmin, &target, None, 0, 5000, eta).unwrap();

    v.set_timestamp(eta);

    let result = v.vote_proposal(proposal_id, true);
    assert_eq!(result, Err(Error::InvalidInput), "voting at exact ETA must be rejected");
}

#[test]
fn vote_after_timelock_rejected() {
    let (mut v, admin) = governed_vault(0);
    let guardian1 = v.generate_address();

    v.add_guardian(&admin, &guardian1, 100).unwrap();

    let current_time = v.ledger.timestamp;
    let eta = current_time + 3600;

    let target = v.generate_address();
    let proposal_id = v.submit_proposal(ProposalKind::RotateAdmin, &target, None, 0, 5000, eta).unwrap();

    v.vote_proposal(proposal_id, true).unwrap();

    v.set_timestamp(eta + 100);

    let result = v.vote_proposal(proposal_id, false);
    assert_eq!(
        result,
        Err(Error::InvalidInput),
        "flipping vote after ETA must be rejected"
    );
}

#[test]
fn execute_proposal_after_timelock_still_succeeds() {
    let (mut v, admin) = governed_vault(0);
    let guardian1 = v.generate_address();

    v.add_guardian(&admin, &guardian1, 100).unwrap();

    let current_time = v.ledger.timestamp;
    let eta = current_time + 3600;
    let target = v.generate_address();

    let proposal_id = v.submit_proposal(ProposalKind::RotateAdmin, &target, None, 0, 5000, eta).unwrap();

    v.vote_proposal(proposal_id, true).unwrap();

    v.set_timestamp(eta + 100);

    let result = v.execute_proposal(proposal_id);
    assert!(result.is_ok(), "execution after timelock must still succeed");
}

#[test]
fn cancel_proposal_after_timelock_succeeds() {
    let (mut v, admin) = governed_vault(0);
    let guardian1 = v.generate_address();

    v.add_guardian(&admin, &guardian1, 100).unwrap();

    let current_time = v.ledger.timestamp;
    let eta = current_time + 3600;
    let target = v.generate_address();

    let proposal_id = v.submit_proposal(ProposalKind::RotateAdmin, &target, None, 0, 5000, eta).unwrap();

    v.set_timestamp(eta + 100);

    let reason = b"Timelock reached, but admin cancelled";
    let result = v.cancel_proposal(proposal_id, reason);
    assert!(result.is_ok(), "cancelling after timelock must still succeed");
}

#[test]
fn vote_locked_event_emitted_on_rejected_vote() {
    let (mut v, admin) = governed_vault(0);
    let guardian1 = v.generate_address();

    v.add_guardian(&admin, &guardian1, 100).unwrap();

    let current_time = v.ledger.timestamp;
    let eta = current_time + 3600;
    let target = v.generate_address();

    let proposal_id = v.submit_proposal(ProposalKind::RotateAdmin, &target, None, 0, 5000, eta).unwrap();

    v.vote_proposal(proposal_id, true).unwrap();

    v.set_timestamp(eta + 100);

    let _ = v.vote_proposal(proposal_id, false);

    let has_vote_locked = v.events.contains(&Event::VoteLocked { proposal_id, eta, timestamp: eta + 100 });
    assert!(has_vote_locked, "VoteLockedEvent must be emitted");
}

#[test]
fn submit_with_insufficient_delay_rejected() {
    let (mut v, _) = governed_vault(MIN_TIMELOCK_DELAY);

    let target = v.generate_address();

    let current_time = v.ledger.timestamp;
    let too_soon_eta = current_time + 1000;

    let result = v.submit_proposal(
        ProposalKind::RotateAdmin,
        &target,
        None,
        0,
        5000,
        too_soon_eta,
    );

    assert_eq!(
        result,
        Err(Error::InvalidInput),
        "proposal with insufficient delay must be rejected"
    );
}

#[test]
fn submit_with_sufficient_delay_succeeds() {
    let (mut v, _) = governed_vault(MIN_TIMELOCK_DELAY);

    let target = v.generate_address();

    let current_time = v.ledger.timestamp;
    let good_eta = current_time + MIN_TIMELOCK_DELAY;

    let result = v.submit_proposal(
        ProposalKind::RotateAdmin,
        &target,
        None,
        0,
        5000,
        good_eta,
    );

    assert!(
        result.is_ok(),
        "proposal with sufficient delay must be accepted"
    );
}

#[test]
fn execute_before_min_delay_rejected() {
    let (mut v, admin) = governed_vault(MIN_TIMELOCK_DELAY);
    let guardian = v.generate_address();

    v.add_guardian(&admin, &guardian, 100).unwrap();

    let current_time = v.ledger.timestamp;
    let eta = current_time + MIN_TIMELOCK_DELAY + 1000;

    let proposal_id = v.submit_proposal(
        ProposalKind::RotateAdmin,
        &Address::Contract(77),
        None,
        0,
        5000,
        eta,
    ).unwrap();

    v.vote_proposal(proposal_id, true).unwrap();

    v.set_timestamp(current_time + 86400);

    let result = v.execute_proposal(proposal_id);
    assert_eq!(
        result,
        Err(Error::InvalidInput),
        "execution before MIN_TIMELOCK_DELAY must be rejected"
    );
}

#[test]
fn execute_after_min_delay_succeeds() {
    let (mut v, admin) = governed_vault(MIN_TIMELOCK_DELAY);
    let guardian = v.generate_address();

    v.add_guardian(&admin, &guardian, 100).unwrap();

    let current_time = v.ledger.timestamp;
    let eta = current_time + MIN_TIMELOCK_DELAY;

    let new_admin = v.generate_address();
    let proposal_id = v.submit_proposal(ProposalKind::RotateAdmin, &new_admin, None, 0, 5000, eta).unwrap();

    v.vote_proposal(proposal_id, true).unwrap();

    v.set_timestamp(current_time + MIN_TIMELOCK_DELAY + 1);

    let result = v.execute_proposal(proposal_id);
    assert!(
        result.is_ok(),
        "execution after MIN_TIMELOCK_DELAY must succeed"
    );

    assert_eq!(v.get_admin(), Some(new_admin));
}

#[test]
fn multiple_proposals_independent_delays() {
    let (mut v, admin) = governed_vault(MIN_TIMELOCK_DELAY);
    let guardian = v.generate_address();

    v.add_guardian(&admin, &guardian, 100).unwrap();

    let t0 = v.ledger.timestamp;

    let eta_a = t0 + MIN_TIMELOCK_DELAY;
    let admin_a = v.generate_address();
    let proposal_a = v.submit_proposal(ProposalKind::RotateAdmin, &admin_a, None, 0, 5000, eta_a).unwrap();
    v.vote_proposal(proposal_a, true).unwrap();

    let t1 = t0 + 86400;
    v.set_timestamp(t1);

    let eta_b = t1 + MIN_TIMELOCK_DELAY;
    let admin_b = v.generate_address();
    let proposal_b = v.submit_proposal(ProposalKind::RotateAdmin, &admin_b, None, 0, 5000, eta_b).unwrap();
    v.vote_proposal(proposal_b, true).unwrap();

    v.set_timestamp(t0 + MIN_TIMELOCK_DELAY + 1);

    let a_result = v.execute_proposal(proposal_a);
    assert!(a_result.is_ok(), "proposal A should execute");

    let b_result = v.execute_proposal(proposal_b);
    assert_eq!(
        b_result,
        Err(Error::InvalidInput),
        "proposal B should be rejected (MIN_TIMELOCK_DELAY not reached)"
    );

    v.set_timestamp(t1 + MIN_TIMELOCK_DELAY + 1);

    let guardian2 = v.generate_address();
    let admin_a_now = v.get_admin().unwrap();
    v.add_guardian(&admin_a_now, &guardian2, 100).unwrap();

    let b_result = v.execute_proposal(proposal_b);
    assert!(b_result.is_ok(), "proposal B should execute at its time");
}

#[test]
fn rotate_updates_exactly_one_canonical_admin_key() {
    let mut te = setup_env();
    let new_admin = te.vault.generate_address();

    assert_eq!(te.vault.get_admin(), Some(te.admin));
    te.vault.rotate_admin(&te.admin, &new_admin, 0u64).unwrap();
    assert_eq!(te.vault.get_admin(), Some(new_admin));
}

#[test]
fn rotate_admin_rejected_for_non_admin() {
    let mut te = setup_env();
    let stranger = te.vault.generate_address();
    let target = te.vault.generate_address();

    let result = te.vault.rotate_admin(&stranger, &target, 0u64);
    assert_eq!(result, Err(Error::Unauthorized));
    assert_eq!(te.vault.get_admin(), Some(te.admin));
}

#[test]
fn rotate_admin_self_rotation_rejected() {
    let mut te = setup_env();
    let result = te.vault.rotate_admin(&te.admin, &te.admin, 0u64);
    assert_eq!(result, Err(Error::SelfRotation));
    assert_eq!(te.vault.get_admin(), Some(te.admin));
}

#[test]
fn rotate_admin_to_contract_address_rejected() {
    let mut te = setup_env();
    let result = te.vault.rotate_admin(&te.admin, &vault_address(), 0u64);
    assert_eq!(result, Err(Error::InvalidNewAdmin));
    assert_eq!(te.vault.get_admin(), Some(te.admin));
}

#[test]
fn old_admin_loses_all_admin_only_privileges_after_rotation() {
    let mut te = setup_env();
    let new_admin = te.vault.generate_address();
    let other = te.vault.generate_address();

    te.vault.rotate_admin(&te.admin, &new_admin, 0u64).unwrap();

    assert_eq!(
        te.vault.set_min_topup(&te.admin, 5_000_000i128),
        Err(Error::Unauthorized)
    );
    assert_eq!(
        te.vault.enable_emergency_stop(&te.admin),
        Err(Error::Unauthorized)
    );
    assert_eq!(
        te.vault.disable_emergency_stop(&te.admin),
        Err(Error::Unauthorized)
    );
    assert_eq!(
        te.vault.rotate_admin(&te.admin, &other, 1u64),
        Err(Error::Unauthorized)
    );
}

#[test]
fn new_admin_gains_all_admin_only_privileges_immediately() {
    let mut te = setup_env();
    let new_admin = te.vault.generate_address();

    te.vault.rotate_admin(&te.admin, &new_admin, 0u64).unwrap();

    te.vault.set_min_topup(&new_admin, 3_000_000i128).unwrap();
    assert_eq!(te.vault.get_min_topup(), 3_000_000i128);

    te.vault.enable_emergency_stop(&new_admin).unwrap();
    assert!(te.vault.get_emergency_stop_status());
    te.vault.ledger.timestamp += CONFIG_COOLDOWN_SECS;
    te.vault.disable_emergency_stop(&new_admin).unwrap();
    assert!(!te.vault.get_emergency_stop_status());
}

#[test]
fn rotate_admin_emits_event_with_correct_old_admin_new_admin_and_timestamp() {
    let mut te = setup_env();
    let new_admin = te.vault.generate_address();
    let expected_ts = 42_000u64;
    te.vault.ledger.timestamp = expected_ts;

    te.vault.rotate_admin(&te.admin, &new_admin, 0u64).unwrap();

    let last = te.vault.events.last();
    assert_eq!(last, Some(&Event::AdminRotated { old_admin: te.admin, new_admin, timestamp: expected_ts }));
}

#[test]
fn rotate_admin_wrong_nonce_rejected_state_unchanged() {
    let mut te = setup_env();
    let new_admin = te.vault.generate_address();

    let result = te.vault.rotate_admin(&te.admin, &new_admin, 1u64);
    assert_eq!(result, Err(Error::NonceAlreadyUsed));

    assert_eq!(te.vault.get_admin(), Some(te.admin));
    assert_eq!(te.vault.get_admin_nonce(&te.admin, DOMAIN_ADMIN_ROTATION), 0u64);
}

#[test]
fn rotate_admin_does_not_mutate_subscription_state() {
    let mut te = setup_env();
    let (id, _, _) = create_sub(&mut te.vault, amount(), INTERVAL, false, None).unwrap();
    let before = te.vault.get_subscription(id).unwrap();

    te.vault.rotate_admin(&te.admin, &Address::Contract(77), 0u64).unwrap();

    let after = te.vault.get_subscription(id).unwrap();
    assert_eq!(before.subscriber, after.subscriber);
    assert_eq!(before.merchant, after.merchant);
    assert_eq!(before.amount, after.amount);
    assert_eq!(before.status, after.status);
    assert_eq!(before.prepaid_balance, after.prepaid_balance);
}

#[test]
fn new_admin_can_batch_charge_subscriptions_pending_before_rotation() {
    let mut te = setup_env();
    te.vault.ledger.timestamp = T0;

    let (id, _, _) = create_sub(&mut te.vault, amount(), INTERVAL, false, None).unwrap();
    set_balance(&mut te.vault, id, PREPAID);

    te.vault.ledger.timestamp = T0 + INTERVAL + 1;

    let new_admin = te.vault.generate_address();
    te.vault.rotate_admin(&te.admin, &new_admin, 0u64).unwrap();

    let ids = vec![id];
    let results = te.vault.batch_charge(&ids, 0u64).unwrap();
    assert_eq!(results.len(), 1);
    assert!(results[0].success);
}

#[test]
fn rotate_admin_succeeds_while_emergency_stop_is_active() {
    let mut te = setup_env();
    te.vault.enable_emergency_stop(&te.admin).unwrap();
    assert!(te.vault.get_emergency_stop_status());

    let new_admin = te.vault.generate_address();
    te.vault.rotate_admin(&te.admin, &new_admin, 0u64).unwrap();
    assert_eq!(te.vault.get_admin(), Some(new_admin));
}

#[test]
fn new_admin_can_disable_emergency_stop_after_rotation() {
    let mut te = setup_env();
    te.vault.enable_emergency_stop(&te.admin).unwrap();

    let new_admin = te.vault.generate_address();
    te.vault.rotate_admin(&te.admin, &new_admin, 0u64).unwrap();

    te.vault.ledger.timestamp += CONFIG_COOLDOWN_SECS;
    te.vault.disable_emergency_stop(&new_admin).unwrap();
    assert!(!te.vault.get_emergency_stop_status());

    assert_eq!(
        te.vault.enable_emergency_stop(&te.admin),
        Err(Error::Unauthorized)
    );
}
