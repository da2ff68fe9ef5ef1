//! Calls that move tokens leave balances and the lock in order, whether they are done or refused.
use subscription_vault::records::SubscriptionStatus;
use subscription_vault::scenarios::{
    create_sub as create_plain, ledger_at, seed_merchant_balance, set_balance,
    setup as setup_scene,
};
use subscription_vault::types::{vault_address, Address, Error};
use subscription_vault::vault::Vault;

const T0: u64 = 1_000;
const INTERVAL: u64 = 30 * 24 * 60 * 60;
const AMOUNT: i128 = 10_000_000;
const PREPAID: i128 = 50_000_000;

fn setup() -> (Vault, Address, Address) {
    let scene = setup_scene(ledger_at(0, 0), 6, 1_000_000, 7 * 24 * 60 * 60);
    (scene.vault, scene.token, scene.admin)
}

fn create_sub(v: &mut Vault, token: &Address) -> (u32, Address, Address) {
    let (id, subscriber, merchant) = create_plain(v, AMOUNT, INTERVAL, false, None).unwrap();
    v.mint(token, &subscriber, PREPAID * 2);
    (id, subscriber, merchant)
}

#[test]
fn test_deposit_state_committed_before_transfer() {
    let (mut v, token, _) = setup();
    let (id, _, _) = create_sub(&mut v, &token);

    let vault_before = v.balance(&token, &vault_address());
    let deposit = 5_000_000i128;

    v.deposit_funds(id, deposit, None).unwrap();

    let sub = v.get_subscription(id).unwrap();
    assert_eq!(sub.prepaid_balance, deposit);

    assert_eq!(v.balance(&token, &vault_address()), vault_before + deposit);
}

#[test]
fn test_deposit_multiple_sequential_consistent_state() {
    let (mut v, token, _) = setup();
    let (id, _, _) = create_sub(&mut v, &token);

    let deposit = 5_000_000i128;
    for i in 1..=5 {
        v.deposit_funds(id, deposit, None).unwrap();
        let sub = v.get_subscription(id).unwrap();
        assert_eq!(sub.prepaid_balance, deposit * i as i128);
    }
}

#[test]
fn test_deposit_failure_leaves_state_unchanged() {
    let (mut v, token, _) = setup();
    let (id, _, _) = create_sub(&mut v, &token);

    let vault_before = v.balance(&token, &vault_address());
    let sub_before = v.get_subscription(id).unwrap();

    let result = v.deposit_funds(id, 500, None);
    assert!(result.is_err());

    let sub_after = v.get_subscription(id).unwrap();
    assert_eq!(sub_after.prepaid_balance, sub_before.prepaid_balance);
    assert_eq!(v.balance(&token, &vault_address()), vault_before);
}

#[test]
fn test_deposit_on_cancelled_subscription_rejected_cleanly() {
    let (mut v, token, _) = setup();
    let (id, subscriber, _) = create_sub(&mut v, &token);

    v.cancel_subscription(id, &subscriber).unwrap();
    let result = v.deposit_funds(id, 5_000_000i128, None);
    assert!(result.is_err());
    let sub = v.get_subscription(id).unwrap();
    assert_eq!(sub.status, SubscriptionStatus::Cancelled);
}

#[test]
fn test_charge_token_conservation_invariant() {
    let (mut v, token, _) = setup();
    let (id, _, merchant) = create_sub(&mut v, &token);

    set_balance(&mut v, id, PREPAID);
    v.mint(&token, &vault_address(), PREPAID);

    v.set_timestamp(T0 + INTERVAL + 1);
    let vault_before = v.balance(&token, &vault_address());

    v.charge_subscription(id, None).unwrap();

    let sub_after = v.get_subscription(id).unwrap();
    let merchant_balance = v.get_merchant_balance(&merchant);

    assert_eq!(sub_after.prepaid_balance, PREPAID - AMOUNT);
    assert_eq!(merchant_balance, AMOUNT);
    assert_eq!(v.balance(&token, &vault_address()), vault_before);
}

#[test]
fn test_charge_insufficient_balance_no_partial_debit() {
    let (mut v, token, _) = setup();
    let (id, _, _) = create_sub(&mut v, &token);

    set_balance(&mut v, id, 0);
    let grace = 7 * 24 * 60 * 60u64;
    v.set_timestamp(T0 + INTERVAL + grace + 1);

    let result = v.charge_subscription(id, None);
    assert!(result.is_ok());

    let sub = v.get_subscription(id).unwrap();
    assert_eq!(sub.prepaid_balance, 0);
    assert_eq!(sub.status, SubscriptionStatus::InsufficientBalance);
}

#[test]
fn test_charge_replay_rejected_no_state_mutation() {
    let (mut v, token, _) = setup();
    let (id, _, merchant) = create_sub(&mut v, &token);

    set_balance(&mut v, id, PREPAID);
    v.mint(&token, &vault_address(), PREPAID);

    v.set_timestamp(T0 + INTERVAL + 1);
    v.charge_subscription(id, None).unwrap();

    let sub_after_first = v.get_subscription(id).unwrap();
    let merchant_after_first = v.get_merchant_balance(&merchant);

    let result = v.charge_subscription(id, None);
    assert_eq!(result, Err(Error::Replay));

    let sub_after_replay = v.get_subscription(id).unwrap();
    assert_eq!(sub_after_replay.prepaid_balance, sub_after_first.prepaid_balance);
    assert_eq!(v.get_merchant_balance(&merchant), merchant_after_first);
}

#[test]
fn test_charge_on_paused_no_state_change() {
    let (mut v, token, _) = setup();
    let (id, subscriber, merchant) = create_sub(&mut v, &token);

    set_balance(&mut v, id, PREPAID);
    v.pause_subscription(id, &subscriber).unwrap();

    v.set_timestamp(T0 + INTERVAL + 1);
    let result = v.charge_subscription(id, None);
    assert_eq!(result, Err(Error::NotActive));

    assert_eq!(v.get_subscription(id).unwrap().prepaid_balance, PREPAID);
    assert_eq!(v.get_merchant_balance(&merchant), 0);
}

#[test]
fn test_charge_lifetime_charged_monotonically_increases() {
    let (mut v, token, _) = setup();
    let (id, _, _) = create_sub(&mut v, &token);

    set_balance(&mut v, id, PREPAID * 10);
    v.mint(&token, &vault_address(), PREPAID * 10);

    let mut prev_lifetime = 0i128;
    for i in 1..=4 {
        v.set_timestamp(T0 + (i as u64 * INTERVAL) + 1);
        v.charge_subscription(id, None).unwrap();
        let sub = v.get_subscription(id).unwrap();
        assert!(sub.lifetime_charged > prev_lifetime);
        prev_lifetime = sub.lifetime_charged;
    }
}

#[test]
fn test_withdraw_subscriber_state_committed_before_transfer() {
    let (mut v, token, _) = setup();
    let (id, subscriber, _) = create_sub(&mut v, &token);

    v.deposit_funds(id, PREPAID, None).unwrap();
    v.cancel_subscription(id, &subscriber).unwrap();

    let vault_before = v.balance(&token, &vault_address());
    let subscriber_before = v.balance(&token, &subscriber);

    v.withdraw_subscriber_funds(id, &subscriber).unwrap();

    assert_eq!(v.get_subscription(id).unwrap().prepaid_balance, 0);
    assert_eq!(v.balance(&token, &vault_address()), vault_before - PREPAID);
    assert_eq!(v.balance(&token, &subscriber), subscriber_before + PREPAID);
}

#[test]
fn test_withdraw_subscriber_double_withdrawal_rejected() {
    let (mut v, token, _) = setup();
    let (id, subscriber, _) = create_sub(&mut v, &token);

    v.deposit_funds(id, PREPAID, None).unwrap();
    v.cancel_subscription(id, &subscriber).unwrap();
    v.withdraw_subscriber_funds(id, &subscriber).unwrap();

    let result = v.withdraw_subscriber_funds(id, &subscriber);
    assert_eq!(result, Err(Error::InvalidAmount));
    assert_eq!(v.get_subscription(id).unwrap().prepaid_balance, 0);
}

#[test]
fn test_withdraw_subscriber_requires_cancelled_status() {
    let (mut v, token, _) = setup();
    let (id, subscriber, _) = create_sub(&mut v, &token);

    v.deposit_funds(id, PREPAID, None).unwrap();
    let result = v.withdraw_subscriber_funds(id, &subscriber);
    assert!(result.is_err());
    assert_eq!(v.get_subscription(id).unwrap().prepaid_balance, PREPAID);
}

#[test]
fn test_withdraw_subscriber_exact_amount_transferred() {
    let (mut v, token, _) = setup();
    let (id, subscriber, _) = create_sub(&mut v, &token);

    let deposit = 7_777_777i128;
    v.deposit_funds(id, deposit, None).unwrap();
    v.cancel_subscription(id, &subscriber).unwrap();

    let subscriber_before = v.balance(&token, &subscriber);
    v.withdraw_subscriber_funds(id, &subscriber).unwrap();

    assert_eq!(
        v.balance(&token, &subscriber),
        subscriber_before + deposit
    );
}

#[test]
fn test_withdraw_merchant_state_committed_before_transfer() {
    let (mut v, token, _) = setup();
    let merchant = v.generate_address();

    seed_merchant_balance(&mut v, &merchant, &token, 9_000_000i128);
    v.mint(&token, &vault_address(), 9_000_000i128);

    let vault_before = v.balance(&token, &vault_address());
    let merchant_before = v.balance(&token, &merchant);

    v.withdraw_merchant_funds(&merchant, 4_000_000i128).unwrap();

    assert_eq!(v.get_merchant_balance(&merchant), 5_000_000i128);
    assert_eq!(v.balance(&token, &vault_address()), vault_before - 4_000_000);
    assert_eq!(v.balance(&token, &merchant), merchant_before + 4_000_000);
}

#[test]
fn test_withdraw_merchant_overdraw_rejected_no_state_change() {
    let (mut v, token, _) = setup();
    let merchant = v.generate_address();

    seed_merchant_balance(&mut v, &merchant, &token, 3_000_000i128);
    v.mint(&token, &vault_address(), 3_000_000i128);

    let result = v.withdraw_merchant_funds(&merchant, 4_000_000i128);
    assert_eq!(result, Err(Error::InsufficientBalance));

    assert_eq!(v.get_merchant_balance(&merchant), 3_000_000i128);
}

#[test]
fn test_withdraw_merchant_sequential_correct_accounting() {
    let (mut v, token, _) = setup();
    let merchant = v.generate_address();

    seed_merchant_balance(&mut v, &merchant, &token, 10_000_000i128);
    v.mint(&token, &vault_address(), 10_000_000i128);

    v.withdraw_merchant_funds(&merchant, 3_000_000i128).unwrap();
    assert_eq!(v.get_merchant_balance(&merchant), 7_000_000i128);

    v.withdraw_merchant_funds(&merchant, 7_000_000i128).unwrap();
    assert_eq!(v.get_merchant_balance(&merchant), 0);

    let result = v.withdraw_merchant_funds(&merchant, 1i128);
    assert_eq!(result, Err(Error::NotFound));
}

#[test]
fn test_merchant_cannot_withdraw_other_merchant() {
    let (mut v, token, _) = setup();
    let merchant_a = v.generate_address();
    let merchant_b = v.generate_address();

    seed_merchant_balance(&mut v, &merchant_a, &token, 10_000_000i128);
    seed_merchant_balance(&mut v, &merchant_b, &token, 5_000_000i128);
    v.mint(&token, &vault_address(), 15_000_000i128);

    let result = v.withdraw_merchant_funds(&merchant_a, 12_000_000i128);
    assert_eq!(result, Err(Error::InsufficientBalance));

    assert_eq!(v.get_merchant_balance(&merchant_a), 10_000_000i128);
    assert_eq!(v.get_merchant_balance(&merchant_b), 5_000_000i128);
}

#[test]
fn test_refund_state_committed_before_transfer() {
    let (mut v, token, admin) = setup();
    let (id, subscriber, _) = create_sub(&mut v, &token);

    v.deposit_funds(id, PREPAID, None).unwrap();

    let vault_before = v.balance(&token, &vault_address());
    let subscriber_before = v.balance(&token, &subscriber);
    let refund = 5_000_000i128;

    v.partial_refund(&admin, id, &subscriber, refund).unwrap();

    assert_eq!(v.get_subscription(id).unwrap().prepaid_balance, PREPAID - refund);
    assert_eq!(v.balance(&token, &vault_address()), vault_before - refund);
    assert_eq!(v.balance(&token, &subscriber), subscriber_before + refund);
}

#[test]
fn test_refund_exceeds_balance_rejected_no_state_change() {
    let (mut v, token, admin) = setup();
    let (id, subscriber, _) = create_sub(&mut v, &token);

    let deposit = 5_000_000i128;
    v.deposit_funds(id, deposit, None).unwrap();

    let vault_before = v.balance(&token, &vault_address());

    let result = v.partial_refund(&admin, id, &subscriber, deposit + 1);
    assert_eq!(result, Err(Error::InsufficientBalance));

    assert_eq!(v.get_subscription(id).unwrap().prepaid_balance, deposit);
    assert_eq!(v.balance(&token, &vault_address()), vault_before);
}

#[test]
fn test_refund_cumulative_cannot_exceed_deposit() {
    let (mut v, token, admin) = setup();
    let (id, subscriber, _) = create_sub(&mut v, &token);

    let deposit = 10_000_000i128;
    v.deposit_funds(id, deposit, None).unwrap();

    v.partial_refund(&admin, id, &subscriber, 5_000_000i128).unwrap();
    v.partial_refund(&admin, id, &subscriber, 5_000_000i128).unwrap();
    assert_eq!(v.get_subscription(id).unwrap().prepaid_balance, 0);

    let result = v.partial_refund(&admin, id, &subscriber, 1i128);
    assert_eq!(result, Err(Error::InsufficientBalance));
}

#[test]
fn test_reentrancy_guard_lock_is_released_after_operation() {
    let (mut v, token, _) = setup();
    let (id, _, _) = create_sub(&mut v, &token);

    v.deposit_funds(id, 5_000_000i128, None).unwrap();

    let result = v.deposit_funds(id, 5_000_000i128, None);
    assert!(result.is_ok(), "second deposit must succeed — lock must be released");
}

#[test]
fn test_reentrancy_guard_released_after_merchant_withdrawal() {
    let (mut v, token, _) = setup();
    let merchant = v.generate_address();

    seed_merchant_balance(&mut v, &merchant, &token, 10_000_000i128);
    v.mint(&token, &vault_address(), 10_000_000i128);

    v.withdraw_merchant_funds(&merchant, 3_000_000i128).unwrap();

    v.withdraw_merchant_funds(&merchant, 3_000_000i128).unwrap();
    assert_eq!(v.get_merchant_balance(&merchant), 4_000_000i128);
}

#[test]
fn test_reentrancy_guard_not_stuck_after_rejection() {
    let (mut v, token, admin) = setup();
    let (id, subscriber, _) = create_sub(&mut v, &token);

    v.deposit_funds(id, 5_000_000i128, None).unwrap();

    let stranger = v.generate_address();
    let _ = v.partial_refund(&stranger, id, &subscriber, 1_000_000i128);

    let result = v.partial_refund(&admin, id, &subscriber, 1_000_000i128);
    assert!(result.is_ok(), "valid refund must work after a rejected one");
}

#[test]
fn test_reentrancy_guard_released_after_deposit_unauthorized_rejection() {
    let (mut v, token, _) = setup();
    let (id, _, _) = create_sub(&mut v, &token);
    let attacker = v.generate_address();
    v.mint(&token, &attacker, 5_000_000i128);

    // The deposit is asked for by somebody else.
    let result = v.do_deposit_funds(&attacker, id, 5_000_000i128, None);
    assert_eq!(result, Err(Error::Unauthorized));

    let success = v.deposit_funds(id, 5_000_000i128, None);
    assert!(success.is_ok(), "valid deposit must succeed after rejected deposit");
    assert_eq!(v.get_subscription(id).unwrap().prepaid_balance, 5_000_000i128);
}

#[test]
fn test_reentrancy_guard_released_after_expired_charge_rejection() {
    let (mut v, token, _) = setup();
    let subscriber = v.generate_address();
    let merchant = v.generate_address();
    v.mint(&token, &subscriber, PREPAID);

    let expires_at = T0 + 1;
    let id = v.create_subscription(
        &subscriber,
        &merchant,
        AMOUNT,
        INTERVAL,
        false,
        None,
        Some(expires_at),
        None,
    ).unwrap();
    v.set_timestamp(T0 + 2);

    let first = v.charge_subscription(id, None);
    assert_eq!(first, Err(Error::SubscriptionExpired));

    let second = v.charge_subscription(id, None);
    assert_eq!(second, Err(Error::SubscriptionExpired));
}

#[test]
fn test_charge_nonexistent_subscription_errors_cleanly() {
    let (mut v, _, _) = setup();
    v.set_timestamp(T0 + INTERVAL + 1);
    let result = v.charge_subscription(9999u32, None);
    assert_eq!(result, Err(Error::NotFound));
}

#[test]
fn test_deposit_nonexistent_subscription_errors_cleanly() {
    let (mut v, token, _) = setup();
    let subscriber = v.generate_address();
    v.mint(&token, &subscriber, PREPAID);
    let result = v.deposit_funds(9999u32, 5_000_000i128, None);
    assert_eq!(result, Err(Error::NotFound));
}

#[test]
fn test_charge_blocked_by_emergency_stop_no_mutation() {
    let (mut v, token, admin) = setup();
    let (id, _, merchant) = create_sub(&mut v, &token);
    set_balance(&mut v, id, PREPAID);

    v.enable_emergency_stop(&admin).unwrap();
    v.set_timestamp(T0 + INTERVAL + 1);

    let result = v.charge_subscription(id, None);
    assert_eq!(result, Err(Error::EmergencyStopActive));

    assert_eq!(v.get_subscription(id).unwrap().prepaid_balance, PREPAID);
    assert_eq!(v.get_merchant_balance(&merchant), 0);
}

#[test]
fn test_deposit_blocked_by_emergency_stop_no_mutation() {
    let (mut v, token, admin) = setup();
    let (id, _, _) = create_sub(&mut v, &token);

    v.enable_emergency_stop(&admin).unwrap();

    let result = v.deposit_funds(id, 5_000_000i128, None);
    assert_eq!(result, Err(Error::EmergencyStopActive));
    assert_eq!(v.get_subscription(id).unwrap().prepaid_balance, 0);
}

#[test]
fn test_withdraw_merchant_blocked_by_emergency_stop_no_mutation() {
    let (mut v, token, admin) = setup();
    let merchant = v.generate_address();

    seed_merchant_balance(&mut v, &merchant, &token, 3_000_000i128);
    v.mint(&token, &vault_address(), 3_000_000i128);

    v.enable_emergency_stop(&admin).unwrap();

    let result = v.withdraw_merchant_funds(&merchant, 1_000_000i128);
    assert_eq!(result, Err(Error::EmergencyStopActive));
    assert_eq!(v.get_merchant_balance(&merchant), 3_000_000i128);
}

#[test]
fn test_withdraw_subscriber_blocked_by_emergency_stop_no_mutation() {
    let (mut v, token, admin) = setup();
    let (id, subscriber, _) = create_sub(&mut v, &token);

    v.deposit_funds(id, PREPAID, None).unwrap();
    v.cancel_subscription(id, &subscriber).unwrap();

    v.enable_emergency_stop(&admin).unwrap();

    let result = v.withdraw_subscriber_funds(id, &subscriber);
    assert_eq!(result, Err(Error::EmergencyStopActive));
    assert_eq!(v.get_subscription(id).unwrap().prepaid_balance, PREPAID);
}

#[test]
fn test_charge_failure_then_topup_then_charge_succeeds() {
    let (mut v, token, _) = setup();
    let (id, subscriber, _) = create_sub(&mut v, &token);

    set_balance(&mut v, id, 0);
    let grace = 7 * 24 * 60 * 60u64;
    v.set_timestamp(T0 + INTERVAL + grace + 1);
    let _ = v.charge_subscription(id, None);
    assert_eq!(
        v.get_subscription(id).unwrap().status,
        SubscriptionStatus::InsufficientBalance
    );

    v.mint(&token, &subscriber, PREPAID);
    v.deposit_funds(id, PREPAID, None).unwrap();
    v.resume_subscription(id, &subscriber).unwrap();
    assert_eq!(
        v.get_subscription(id).unwrap().status,
        SubscriptionStatus::Active
    );

    v.set_timestamp(T0 + INTERVAL + grace + 1 + INTERVAL);
    let result = v.charge_subscription(id, None);
    assert!(result.is_ok());
    assert_eq!(
        v.get_subscription(id).unwrap().prepaid_balance,
        PREPAID - AMOUNT
    );
}
