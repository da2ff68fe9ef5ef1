//! Inputs that give the errors which no other test asks for.
use subscription_vault::merchants::OP_WITHDRAW;
use subscription_vault::records::ProposalKind;
use subscription_vault::scenarios::{create_and_fund_sub, init_vault, setup_env, THIRTY_DAYS};
use subscription_vault::types::{Address, Error};

#[test]
fn a_vault_is_initialised_once() {
    let mut te = setup_env();
    assert_eq!(
        te.vault.init(&te.token, 6, &te.admin, 1, 1),
        Err(Error::AlreadyInitialized)
    );
}

#[test]
fn unknown_tokens_are_not_accepted() {
    let mut te = setup_env();
    let a = te.vault.generate_address();
    let b = te.vault.generate_address();
    let other = te.vault.generate_address();
    assert_eq!(
        te.vault.create_subscription_with_token(
            &a, &b, &other, 1, 60, false, None, None, None, None
        ),
        Err(Error::TokenNotAccepted)
    );
    te.vault.add_accepted_token(&te.admin, &other, 9).unwrap();
    assert_eq!(te.vault.token_decimals(&other), Some(9));
    let third = te.vault.generate_address();
    assert_eq!(
        te.vault.add_accepted_token(&te.admin, &third, 9),
        Err(Error::CooldownActive)
    );
}

#[test]
fn usage_is_charged_where_it_was_agreed_on() {
    let mut te = setup_env();
    let (id, subscriber, merchant) =
        create_and_fund_sub(&mut te.vault, 1_000, THIRTY_DAYS, false, None, 1_000_000).unwrap();
    assert_eq!(te.vault.charge_usage(id, 1), Err(Error::UsageNotEnabled));
    assert_eq!(te.vault.deposit_funds(id, 1_000_000, None), Err(Error::TokenBalance));
    assert_eq!(
        te.vault.charge_one_off(id, &subscriber, 1, None),
        Err(Error::Unauthorized)
    );
    te.vault.charge_one_off(id, &merchant, 1, None).unwrap();
}

#[test]
fn a_proposal_needs_its_quorum() {
    let scene = init_vault(0);
    let (mut v, admin) = (scene.vault, scene.admin);
    let guardian = v.generate_address();
    let other = v.generate_address();
    v.add_guardian(&admin, &guardian, 40).unwrap();
    v.add_guardian(&admin, &other, 60).unwrap();
    let id = v
        .submit_proposal(ProposalKind::SetProtocolFee, &other, None, 250, 5_000, 3_600)
        .unwrap();
    v.allow_all = false;
    v.signers = vec![guardian];
    v.vote_proposal(id, true).unwrap();
    v.allow_all = true;
    v.set_timestamp(3_600);
    assert_eq!(v.execute_proposal(id), Err(Error::QuorumNotReached));
    assert_eq!(v.get_proposal(id).map(|p| p.executed), Some(false));
}

#[test]
fn a_proposal_with_its_quorum_sets_the_fee() {
    let scene = init_vault(0);
    let (mut v, admin) = (scene.vault, scene.admin);
    let guardian = v.generate_address();
    v.add_guardian(&admin, &guardian, 40).unwrap();
    let id = v
        .submit_proposal(ProposalKind::SetProtocolFee, &guardian, None, 250, 5_000, 3_600)
        .unwrap();
    v.vote_proposal(id, true).unwrap();
    v.set_timestamp(3_600);
    v.execute_proposal(id).unwrap();
    assert_eq!(v.config.protocol_fee_bps, 250);
    assert_eq!(v.config.treasury, guardian);
    assert_eq!(v.execute_proposal(id), Err(Error::InvalidInput));
}

#[test]
fn merchants_cannot_have_any_settings() {
    let mut te = setup_env();
    let m = te.vault.generate_address();
    for (fee, operations, error) in [
        (10_001, 1, Error::InvalidFeeBips),
        (-1, 1, Error::InvalidFeeBips),
        (0, 0x20, Error::InvalidOperations),
        (0, OP_WITHDRAW, Error::MustAllowChargeOperation),
    ] {
        let r = te.vault.initialize_merchant_config(&m, &m, fee, operations, None, b"");
        assert_eq!(r.map(|_| ()), Err(error));
    }
}

#[test]
fn settings_rest_between_changes() {
    let mut te = setup_env();
    let operator = te.vault.generate_address();
    te.vault.set_operator(&te.admin, &operator).unwrap();
    assert_eq!(te.vault.remove_operator(&te.admin), Err(Error::CooldownActive));
    assert_eq!(te.vault.get_operator(), Some(operator));
}

#[test]
fn codes_tell_errors_apart() {
    assert_eq!(Error::Unauthorized.to_code(), 1001);
    assert_eq!(Error::Forbidden.to_code(), 1002);
    assert_eq!(Error::NotFound.to_code(), 2001);
    assert_eq!(Error::InvalidAmount.to_code(), 3001);
    assert_eq!(Error::Replay.to_code(), 4005);
    assert_eq!(Error::EmergencyStopActive.to_code(), 4007);
    assert_eq!(Error::Underflow.to_code(), 5004);
    assert_eq!(Error::LifetimeCapReached.to_code(), 6002);
    assert_eq!(Error::InvalidFeeBips.to_code(), 7001);
    assert_eq!(Error::InvalidOperations.to_code(), 7002);
    assert_eq!(Error::MustAllowChargeOperation.to_code(), 7003);
}

#[test]
fn a_missing_subscription_is_not_found() {
    let mut te = setup_env();
    let who = Address::Contract(50);
    assert_eq!(te.vault.get_subscription(3).map(|_| ()), Err(Error::NotFound));
    assert_eq!(te.vault.schedule_cancel(3, &who, 2_000), Err(Error::NotFound));
    assert_eq!(te.vault.initiate_transfer(3, &who, &te.admin, 2_000), Err(Error::NotFound));
}
