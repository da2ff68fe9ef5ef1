//! Ready-made situations, and the settings that they rest on.
use subscription_vault::dispute_matrix::{
    open_dispute, simulate_partial_resolution_then_resolve, DISPUTE_AMOUNT,
};
use subscription_vault::disputes::DISPUTE_WINDOW_SECS;
use subscription_vault::malicious_token::MaliciousToken;
use subscription_vault::records::{CancellationPolicy, SubscriptionStatus};
use subscription_vault::scenarios::{
    create_and_fund_for, create_and_fund_sub, ledger_at, seed_merchant_balance,
    setup as setup_scene, setup_env, setup_merchant_and_sub, THIRTY_DAYS,
};
use subscription_vault::types::{vault_address, Address, Error};

const PREPAID: i128 = 50_000_000;

#[test]
fn a_merchant_with_a_subscriber() {
    let scene = setup_scene(ledger_at(0, 0), 7, 10, 7 * 24 * 60 * 60);
    let (mut v, token) = (scene.vault, scene.token);
    let (id, merchant, subscriber) = setup_merchant_and_sub(&mut v).unwrap();
    let sub = v.get_subscription(id).unwrap();
    assert_eq!(sub.merchant, merchant);
    assert_eq!(sub.subscriber, subscriber);
    assert_eq!(sub.status, SubscriptionStatus::Active);
    assert_eq!(sub.amount, 100);
    assert_eq!(sub.interval_seconds, 3600);
    assert_eq!(sub.prepaid_balance, 1_000);
    assert_eq!(v.balance(&token, &subscriber), 9_000);
    assert_eq!(v.balance(&token, &vault_address()), 1_000);
}

#[test]
fn a_merchant_with_a_subscriber_below_the_minimum() {
    let scene = setup_scene(ledger_at(0, 0), 7, 1_001, 7 * 24 * 60 * 60);
    let (mut v, token) = (scene.vault, scene.token);
    assert_eq!(setup_merchant_and_sub(&mut v), Err(Error::BelowMinimumTopup));
    assert_eq!(v.balance(&token, &vault_address()), 0);
}

#[test]
fn a_wallet_is_filled_only_where_it_is_short() {
    for (before, after) in [
        (0i128, 50_000_000i128),
        (49_999_999, 99_999_999),
        (50_000_000, 0),
        (70_000_000, 20_000_000),
    ] {
        let scene = setup_scene(ledger_at(1_000, 0), 6, 1_000_000, 86_400);
        let (mut v, token) = (scene.vault, scene.token);
        let subscriber = v.generate_address();
        let merchant = v.generate_address();
        v.mint(&token, &subscriber, before);
        let id = create_and_fund_for(&mut v, &subscriber, &merchant).unwrap();
        assert_eq!(v.balance(&token, &subscriber), after);
        let sub = v.get_subscription(id).unwrap();
        assert_eq!(sub.prepaid_balance, 50_000_000);
        assert_eq!(sub.amount, 10_000_000);
        assert_eq!(sub.interval_seconds, 86_400);
        assert_eq!(v.ledger.timestamp, 1_001);
    }
}

#[test]
fn a_deposit_that_is_too_small_leaves_the_subscription_unfunded() {
    let scene = setup_scene(ledger_at(1_000, 0), 6, 50_000_001, 86_400);
    let (mut v, token) = (scene.vault, scene.token);
    let subscriber = v.generate_address();
    let merchant = v.generate_address();
    assert_eq!(
        create_and_fund_for(&mut v, &subscriber, &merchant),
        Err(Error::BelowMinimumTopup)
    );
    assert_eq!(v.get_subscription(0).unwrap().prepaid_balance, 0);
    assert_eq!(v.balance(&token, &subscriber), 100_000_000);
    assert_eq!(v.ledger.timestamp, 1_000);
}

#[test]
fn disputes_can_be_opened_one_after_the_other() {
    let mut te = setup_env();
    let first = open_dispute(&mut te);
    te.vault.set_timestamp(2_000);
    let second = open_dispute(&mut te);
    assert_eq!(second, (first.0 + 1, first.1 + 1));
    let dispute = te.vault.get_dispute(second.0).unwrap();
    assert_eq!(dispute.amount, DISPUTE_AMOUNT);
    assert_eq!(dispute.subscription_id, second.1);
}

#[test]
fn a_resolution_pays_what_is_left() {
    for (paid_before, left) in [
        (0, DISPUTE_AMOUNT),
        (1, DISPUTE_AMOUNT - 1),
        (DISPUTE_AMOUNT - 1, 1),
    ] {
        let mut te = setup_env();
        let (did, id) = open_dispute(&mut te);
        let subscriber = te.vault.get_subscription(id).unwrap().subscriber;
        let (wallet, vault) = (
            te.vault.balance(&te.token, &subscriber),
            te.vault.balance(&te.token, &vault_address()),
        );
        simulate_partial_resolution_then_resolve(&mut te, did, paid_before, true).unwrap();
        assert_eq!(te.vault.balance(&te.token, &subscriber), wallet + left);
        assert_eq!(te.vault.balance(&te.token, &vault_address()), vault - left);
    }
    let mut te = setup_env();
    let (did, _) = open_dispute(&mut te);
    let vault = te.vault.balance(&te.token, &vault_address());
    assert_eq!(
        simulate_partial_resolution_then_resolve(&mut te, did, DISPUTE_AMOUNT + 1, true),
        Err(Error::InsufficientBalance)
    );
    assert_eq!(te.vault.balance(&te.token, &vault_address()), vault);
    te.vault.set_timestamp(u64::MAX);
    assert_eq!(
        simulate_partial_resolution_then_resolve(&mut te, did, 0, true),
        Err(Error::Overflow)
    );
    assert_eq!(te.vault.balance(&te.token, &vault_address()), vault);
}

#[test]
fn a_transfer_to_oneself_adds_up() {
    let mut v = setup_env().vault;
    v.allow_all = true;
    let me = Address::Contract(1);
    let mut token = MaliciousToken::init(vault_address());
    token.mint(&me, 100);
    token.transfer(&v, &me, &me, 40);
    assert_eq!(token.balance(&me), 140);
    assert!(!token.reentry_attempted);
    token.transfer(&v, &me, &vault_address(), 40);
    assert_eq!(token.balance(&me), 100);
    assert_eq!(token.balance(&vault_address()), 40);
    assert!(token.reentry_attempted);
}

#[test]
fn the_administrator_says_what_a_cancellation_does() {
    for (policy, wallet, prepaid) in [
        (CancellationPolicy::Retain, 0, PREPAID),
        (CancellationPolicy::Refund, PREPAID, 0),
        (CancellationPolicy::Escrow, 0, 0),
    ] {
        let mut te = setup_env();
        let (id, subscriber, merchant) =
            create_and_fund_sub(&mut te.vault, 10_000_000, THIRTY_DAYS, false, None, PREPAID)
                .unwrap();
        assert_eq!(
            te.vault.set_cancellation_policy(&merchant, policy),
            Err(Error::Unauthorized)
        );
        te.vault.set_cancellation_policy(&te.admin, policy).unwrap();
        te.vault.cancel_subscription(id, &subscriber).unwrap();
        assert_eq!(te.vault.balance(&te.token, &subscriber), wallet);
        assert_eq!(te.vault.get_subscription(id).unwrap().prepaid_balance, prepaid);
    }
}

#[test]
fn the_administrator_says_how_long_proposals_wait() {
    let mut te = setup_env();
    let other = te.vault.generate_address();
    assert_eq!(te.vault.set_min_timelock_delay(&other, 7), Err(Error::Unauthorized));
    te.vault.set_min_timelock_delay(&te.admin, 7).unwrap();
    assert_eq!(te.vault.config.min_timelock_delay, 7);
}

#[test]
fn withdrawals_and_refunds_are_counted_apart() {
    let mut te = setup_env();
    let merchant = te.vault.generate_address();
    let subscriber = te.vault.generate_address();
    seed_merchant_balance(&mut te.vault, &merchant, &te.token, 100_000);
    te.vault.mint(&te.token, &vault_address(), 100_000);

    te.vault.withdraw_merchant_funds(&merchant, 30_000).unwrap();
    let e = te.vault.get_merchant_token_earnings(&merchant, &te.token);
    assert_eq!((e.withdrawals, e.refunds), (30_000, 0));

    te.vault.merchant_refund(&merchant, &subscriber, &te.token, 20_000).unwrap();
    let e = te.vault.get_merchant_token_earnings(&merchant, &te.token);
    assert_eq!((e.withdrawals, e.refunds), (30_000, 20_000));
    assert_eq!(te.vault.balance(&te.token, &subscriber), 20_000);
}

#[test]
fn a_locked_vault_moves_no_tokens() {
    let mut te = setup_env();
    let (id, subscriber, merchant) =
        create_and_fund_sub(&mut te.vault, 10_000_000, THIRTY_DAYS, false, None, PREPAID).unwrap();
    let (did, _) = open_dispute(&mut te);
    te.vault.ledger.timestamp += DISPUTE_WINDOW_SECS + 1;
    te.vault.set_cancellation_policy(&te.admin, CancellationPolicy::Refund).unwrap();
    te.vault.mint(&te.token, &subscriber, PREPAID);
    te.vault.config.locked = true;

    let held = te.vault.balance(&te.token, &vault_address());
    let token = te.token;
    let admin = te.admin;
    let v = &mut te.vault;
    assert_eq!(v.deposit_funds(id, PREPAID, None), Err(Error::Reentrancy));
    assert_eq!(v.partial_refund(&admin, id, &subscriber, 1), Err(Error::Reentrancy));
    assert_eq!(v.withdraw_subscriber_funds(id, &subscriber), Err(Error::Reentrancy));
    assert_eq!(v.merchant_refund(&merchant, &subscriber, &token, 1), Err(Error::Reentrancy));
    assert_eq!(v.cancel_subscription(id, &subscriber), Err(Error::Reentrancy));
    assert_eq!(v.resolve_dispute(&admin, did, true), Err(Error::Reentrancy));
    assert_eq!(v.balance(&token, &vault_address()), held);

    v.config.locked = false;
    assert_eq!(v.cancel_subscription(id, &subscriber), Ok(()));
    assert_eq!(v.resolve_dispute(&admin, did, true), Ok(()));
    assert!(!v.config.locked);
    assert_eq!(v.balance(&token, &vault_address()), held - PREPAID - DISPUTE_AMOUNT);
}
