//! How subscriptions move from status to status.
use subscription_vault::records::{ChargeExecutionResult, SubscriptionStatus};
use subscription_vault::scenarios::{
    create_sub as create_plain, ledger_at, set_balance, setup as setup_scene,
};
use subscription_vault::types::{Address, Error};
use subscription_vault::vault::Vault;

const T0: u64 = 1_000_000;
const INTERVAL: u64 = 30 * 24 * 60 * 60;
const GRACE_PERIOD: u64 = 7 * 24 * 60 * 60;
const AMOUNT: i128 = 10_000_000;
const PREPAID: i128 = 50_000_000;

fn setup() -> (Vault, Address) {
    let scene = setup_scene(ledger_at(T0, 0), 6, 1_000_000, GRACE_PERIOD);
    (scene.vault, scene.token)
}

fn create_sub(v: &mut Vault) -> (u32, Address, Address) {
    create_plain(v, AMOUNT, INTERVAL, false, None).unwrap()
}

#[test]
fn test_active_to_paused_to_active() {
    let (mut v, token) = setup();
    let (id, subscriber, _) = create_sub(&mut v);

    v.mint(&token, &subscriber, PREPAID);
    v.deposit_funds(id, PREPAID, None).unwrap();

    let initial_balance = v.get_subscription(id).unwrap().prepaid_balance;

    assert_eq!(v.get_subscription(id).unwrap().status, SubscriptionStatus::Active);
    v.pause_subscription(id, &subscriber).unwrap();
    let sub_paused = v.get_subscription(id).unwrap();
    assert_eq!(sub_paused.status, SubscriptionStatus::Paused);
    assert_eq!(sub_paused.prepaid_balance, initial_balance);

    v.resume_subscription(id, &subscriber).unwrap();
    let sub_resumed = v.get_subscription(id).unwrap();
    assert_eq!(sub_resumed.status, SubscriptionStatus::Active);
    assert_eq!(sub_resumed.prepaid_balance, initial_balance);
}

#[test]
fn test_active_to_cancelled() {
    let (mut v, token) = setup();
    let (id, subscriber, _) = create_sub(&mut v);

    v.mint(&token, &subscriber, PREPAID);
    v.deposit_funds(id, PREPAID, None).unwrap();

    let balance_before = v.get_subscription(id).unwrap().prepaid_balance;
    assert_eq!(v.get_subscription(id).unwrap().status, SubscriptionStatus::Active);

    v.cancel_subscription(id, &subscriber).unwrap();

    let sub = v.get_subscription(id).unwrap();
    assert_eq!(sub.status, SubscriptionStatus::Cancelled);
    assert_eq!(sub.prepaid_balance, balance_before);
}

#[test]
fn test_active_to_insufficient_balance_via_underfunded_charge() {
    let (mut v, _) = setup();
    let (id, _, _) = create_sub(&mut v);

    set_balance(&mut v, id, 0);

    v.ledger.timestamp = T0 + INTERVAL + GRACE_PERIOD + 1;

    let sub_before = v.get_subscription(id).unwrap();
    assert_eq!(sub_before.status, SubscriptionStatus::Active);
    assert_eq!(sub_before.lifetime_charged, 0);

    let result = v.charge_subscription(id, None);

    assert_eq!(result, Ok(ChargeExecutionResult::InsufficientBalance));

    let sub_after = v.get_subscription(id).unwrap();
    assert_eq!(sub_after.status, SubscriptionStatus::InsufficientBalance);

    assert_eq!(sub_after.prepaid_balance, 0);
    assert_eq!(sub_after.lifetime_charged, 0);
}

#[test]
fn test_charge_cancelled_subscription_rejected() {
    let (mut v, _) = setup();
    let (id, subscriber, _) = create_sub(&mut v);

    v.cancel_subscription(id, &subscriber).unwrap();
    assert_eq!(v.get_subscription(id).unwrap().status, SubscriptionStatus::Cancelled);

    let result = v.charge_subscription(id, None);
    assert_eq!(result, Err(Error::NotActive));

    assert_eq!(
        v.get_subscription(id).unwrap().status,
        SubscriptionStatus::Cancelled,
    );
}

#[test]
fn test_charge_paused_subscription_rejected() {
    let (mut v, token) = setup();
    let (id, subscriber, _) = create_sub(&mut v);

    v.mint(&token, &subscriber, PREPAID);
    v.deposit_funds(id, PREPAID, None).unwrap();

    v.pause_subscription(id, &subscriber).unwrap();
    assert_eq!(v.get_subscription(id).unwrap().status, SubscriptionStatus::Paused);

    v.ledger.timestamp = T0 + INTERVAL + 1;

    let result = v.charge_subscription(id, None);
    assert_eq!(result, Err(Error::NotActive));

    let sub = v.get_subscription(id).unwrap();
    assert_eq!(sub.status, SubscriptionStatus::Paused);
    assert_eq!(sub.prepaid_balance, PREPAID);
}

#[test]
fn test_resume_active_subscription_is_idempotent() {
    let (mut v, _) = setup();
    let (id, subscriber, _) = create_sub(&mut v);

    assert_eq!(v.get_subscription(id).unwrap().status, SubscriptionStatus::Active);

    let result = v.resume_subscription(id, &subscriber);
    assert_eq!(result, Ok(()));

    assert_eq!(v.get_subscription(id).unwrap().status, SubscriptionStatus::Active);
}

#[test]
fn test_grace_period_to_active_via_resume_subscription() {
    let (mut v, token) = setup();
    let (id, subscriber, _) = create_sub(&mut v);

    v.ledger.timestamp = T0 + INTERVAL + 1;

    let sub_before_charge = v.get_subscription(id).unwrap();
    assert_eq!(sub_before_charge.status, SubscriptionStatus::Active);
    assert_eq!(sub_before_charge.prepaid_balance, 0);

    let charge_result = v.charge_subscription(id, None);
    assert!(charge_result.is_ok(), "charge during grace window should return Ok");

    let sub_in_grace = v.get_subscription(id).unwrap();
    assert_eq!(
        sub_in_grace.status, SubscriptionStatus::GracePeriod,
        "subscription should be in GracePeriod after charge with insufficient balance during grace window"
    );
    assert_eq!(sub_in_grace.prepaid_balance, 0);

    v.mint(&token, &subscriber, AMOUNT);

    let _sub_before_deposit = v.get_subscription(id).unwrap();
    v.do_deposit_funds(&subscriber, id, AMOUNT, None).unwrap();

    let sub_after_deposit = v.get_subscription(id).unwrap();
    assert_eq!(sub_after_deposit.status, SubscriptionStatus::GracePeriod);
    assert_eq!(sub_after_deposit.prepaid_balance, AMOUNT);

    let resume_result = v.resume_subscription(id, &subscriber);
    assert_eq!(
        resume_result, Ok(()),
        "resume_subscription should succeed and return Ok(())"
    );

    let sub_after_resume = v.get_subscription(id).unwrap();
    assert_eq!(
        sub_after_resume.status, SubscriptionStatus::Active,
        "subscription should be Active after resume_subscription"
    );
    assert_eq!(sub_after_resume.prepaid_balance, AMOUNT);
    assert_eq!(sub_after_resume.subscriber, sub_in_grace.subscriber);
    assert_eq!(sub_after_resume.merchant, sub_in_grace.merchant);
    assert_eq!(sub_after_resume.amount, sub_in_grace.amount);
    assert_eq!(sub_after_resume.interval_seconds, sub_in_grace.interval_seconds);
}

#[test]
fn test_resume_grace_period_with_insufficient_balance_rejected() {
    let (mut v, _) = setup();
    let (id, subscriber, _) = create_sub(&mut v);

    v.ledger.timestamp = T0 + INTERVAL + 1;
    let _ = v.charge_subscription(id, None);

    let sub_in_grace = v.get_subscription(id).unwrap();
    assert_eq!(sub_in_grace.status, SubscriptionStatus::GracePeriod);
    assert_eq!(sub_in_grace.prepaid_balance, 0);

    let resume_result = v.resume_subscription(id, &subscriber);
    assert_eq!(
        resume_result,
        Err(Error::InsufficientBalance),
        "resume_subscription must reject GracePeriod subscription with insufficient balance"
    );

    let sub_after_failed_resume = v.get_subscription(id).unwrap();
    assert_eq!(
        sub_after_failed_resume.status,
        SubscriptionStatus::GracePeriod,
        "status must remain GracePeriod after failed resume"
    );
    assert_eq!(sub_after_failed_resume.prepaid_balance, 0);
}
