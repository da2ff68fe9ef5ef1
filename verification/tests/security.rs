//! Locks, authorisation, replays and arithmetic bounds.
use subscription_vault::records::{ChargeExecutionResult, SubscriptionStatus};
use subscription_vault::safe_math::{safe_add, safe_sub};
use subscription_vault::scenarios::{create_sub, set_balance, setup_security_env, Scene};
use subscription_vault::types::{vault_address, Address, Error};
use subscription_vault::vault::Vault;

const T0: u64 = 1_000_000;
const INTERVAL: u64 = 30 * 24 * 60 * 60;
const AMOUNT: i128 = 10_000_000;
const PREPAID: i128 = 50_000_000;

fn setup() -> (Vault, Address, Address) {
    let Scene { vault, token, admin } = setup_security_env();
    (vault, token, admin)
}

fn create_security_subscription(vault: &mut Vault) -> (u32, Address, Address) {
    create_sub(vault, AMOUNT, INTERVAL, false, None).unwrap()
}

fn host<T>(r: Result<T, Error>) -> T {
    match r {
        Ok(x) => x,
        Err(Error::AuthRequired) => panic!("Error(Auth, InvalidAction)"),
        Err(e) => panic!("Error(Contract, #{})", e.to_code()),
    }
}

#[test]
fn test_reentrancy_lock_prevents_recursive_calls() {
    let (mut v, token, _) = setup();

    let (id, subscriber, _) = create_security_subscription(&mut v);
    v.mint(&token, &subscriber, 1_000_000);

    v.deposit_funds(id, 1_000_000, None).unwrap();

    assert!(true);
}

#[test]
fn test_deposit_funds_state_committed_before_transfer() {
    let (mut v, token, _) = setup();
    let (id, subscriber, _) = create_security_subscription(&mut v);

    v.mint(&token, &subscriber, PREPAID);

    v.deposit_funds(id, PREPAID, None).unwrap();

    let sub = v.get_subscription(id).unwrap();
    assert_eq!(sub.prepaid_balance, PREPAID);
}

#[test]
#[should_panic(expected = "Error(Auth, InvalidAction)")]
fn test_pause_subscription_unauthorized_stranger() {
    let (mut v, _, _) = setup();
    let (id, _, _) = create_security_subscription(&mut v);

    v.allow_all = false;
    let stranger = v.generate_address();

    host(v.pause_subscription(id, &stranger));
}

#[test]
#[should_panic(expected = "Error(Contract, #1001)")]
fn test_rotate_admin_unauthorized() {
    let (mut v, _, _) = setup();
    let stranger = v.generate_address();
    let new_admin = v.generate_address();

    v.allow_all = true;
    host(v.rotate_admin(&stranger, &new_admin, 0u64));
}

#[test]
fn test_replay_protection_same_timestamp_rejected() {
    let (mut v, _, _) = setup();
    v.set_timestamp(T0);

    let (id, _, _) = create_security_subscription(&mut v);

    set_balance(&mut v, id, PREPAID);

    v.set_timestamp(T0 + INTERVAL + 1);

    v.charge_subscription(id, None).unwrap();

    let result = v.charge_subscription(id, None);
    assert!(result.is_err());
}

#[test]
fn test_replay_protection_on_batch_charge() {
    let (mut v, _, _) = setup();
    v.set_timestamp(T0);

    let (id, _, _) = create_security_subscription(&mut v);

    set_balance(&mut v, id, PREPAID);

    v.set_timestamp(T0 + INTERVAL + 1);

    let ids = vec![id, id];
    let results = v.batch_charge(&ids, 0u64).unwrap();

    assert_eq!(results.len(), 2);
    assert!(results[0].success);
    assert!(!results[1].success);
    assert_eq!(results[1].error_code, 4005);
}

#[test]
fn test_safe_add_overflow_returns_error() {
    assert_eq!(safe_add(i128::MAX, 1), Err(Error::Overflow));
}

#[test]
fn test_safe_sub_underflow_returns_error() {
    assert_eq!(safe_sub(i128::MIN, 1), Err(Error::Underflow));
}

#[test]
fn test_charge_amount_greater_than_balance_fails() {
    let (mut v, _, _) = setup();
    let (id, _, _) = create_security_subscription(&mut v);

    v.set_timestamp(T0 + INTERVAL + 1);

    let result = v.charge_subscription(id, None);
    assert_eq!(
        result,
        Ok(crate::ChargeExecutionResult::InsufficientBalance)
    );
}

#[test]
fn test_deposit_negative_amount_fails() {
    let (mut v, _, _) = setup();
    let (id, _, _) = create_security_subscription(&mut v);

    let result = v.deposit_funds(id, -1, None);
    assert!(result.is_err());
}

#[test]
fn test_chained_charge_and_cancel_preserves_balance() {
    let (mut v, token, _) = setup();
    v.set_timestamp(T0);

    let (id, subscriber, _) = create_security_subscription(&mut v);

    v.mint(&token, &subscriber, PREPAID);

    set_balance(&mut v, id, PREPAID);

    v.mint(&token, &vault_address(), PREPAID);

    v.set_timestamp(T0 + INTERVAL + 1);
    v.charge_subscription(id, None).unwrap();

    v.cancel_subscription(id, &subscriber).unwrap();

    let final_sub = v.get_subscription(id).unwrap();
    assert_eq!(final_sub.status, SubscriptionStatus::Cancelled);
    assert_eq!(final_sub.prepaid_balance, PREPAID - AMOUNT);

    v.withdraw_subscriber_funds(id, &subscriber).unwrap();
    let final_balance = v.balance(&token, &subscriber);
    assert_eq!(final_balance, 2 * PREPAID - AMOUNT);
}
