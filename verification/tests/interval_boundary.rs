//! Charges exactly at the end of an interval and a second before it.
use subscription_vault::records::ChargeExecutionResult;
use subscription_vault::scenarios::{create_sub, ledger_at, setup as setup_scene};
use subscription_vault::types::{Address, Error};
use subscription_vault::vault::Vault;

const T0: u64 = 1_000_000;
const AMOUNT: i128 = 1_000_000;

fn setup_test_env(now: u64) -> (Vault, Address) {
    let scene = setup_scene(ledger_at(now, 0), 6, 1_000_000, 7 * 24 * 60 * 60);
    (scene.vault, scene.token)
}

fn create_and_fund(v: &mut Vault, token: &Address, interval: u64) -> (u32, Address, Address) {
    let (id, subscriber, merchant) = create_sub(v, AMOUNT, interval, false, None).unwrap();
    v.mint(token, &subscriber, 1_000_000_000);
    v.deposit_funds(id, 50_000_000, None).unwrap();
    (id, subscriber, merchant)
}

#[test]
fn test_charge_at_exact_boundary_succeeds() {
    let (mut v, token) = setup_test_env(T0);
    let interval: u64 = 300;
    let (id, _, _) = create_and_fund(&mut v, &token, interval);

    v.ledger.timestamp = T0 + interval;

    let res = v.charge_subscription(id, None);
    assert!(res.is_ok(), "charge at exact boundary must succeed");
    assert_eq!(res.unwrap(), ChargeExecutionResult::Charged);
}

#[test]
fn test_charge_one_second_before_boundary_fails() {
    let (mut v, token) = setup_test_env(T0);
    let interval: u64 = 300;
    let (id, _, _) = create_and_fund(&mut v, &token, interval);

    v.ledger.timestamp = T0 + interval - 1;

    let res = v.charge_subscription(id, None);
    assert_eq!(res, Err(Error::IntervalNotElapsed));
}

#[test]
fn test_back_to_back_charges_at_exact_boundary() {
    let (mut v, token) = setup_test_env(T0);
    let interval: u64 = 300;
    let (id, _, _) = create_and_fund(&mut v, &token, interval);

    v.ledger.timestamp = T0 + interval;
    let r1 = v.charge_subscription(id, None);
    assert_eq!(r1.unwrap(), ChargeExecutionResult::Charged);

    v.ledger.timestamp = T0 + 2 * interval;
    let r2 = v.charge_subscription(id, None);
    assert_eq!(r2.unwrap(), ChargeExecutionResult::Charged);

    let sub = v.get_subscription(id).unwrap();
    assert_eq!(sub.lifetime_charged, AMOUNT * 2);
}

#[test]
fn test_interval_one_second_at_boundary_succeeds() {
    let (mut v, token) = setup_test_env(T0);
    let interval: u64 = 1;
    let (id, _, _) = create_and_fund(&mut v, &token, interval);

    v.ledger.timestamp = T0 + 1;
    let res = v.charge_subscription(id, None);
    assert!(res.is_ok(), "charge at T0+1 with interval=1 must succeed");
    assert_eq!(res.unwrap(), ChargeExecutionResult::Charged);

    v.ledger.timestamp = T0 + 2;
    let res2 = v.charge_subscription(id, None);
    assert!(res2.is_ok(), "charge at T0+2 with interval=1 must succeed");
    assert_eq!(res2.unwrap(), ChargeExecutionResult::Charged);
}

#[test]
fn test_interval_one_second_too_early_fails() {
    let (mut v, token) = setup_test_env(T0);
    let interval: u64 = 1;
    let (id, _, _) = create_and_fund(&mut v, &token, interval);

    v.ledger.timestamp = T0;
    let res = v.charge_subscription(id, None);
    assert_eq!(res, Err(Error::IntervalNotElapsed));
}

#[test]
fn test_rapid_back_to_back_interval_one() {
    let (mut v, token) = setup_test_env(T0);
    let interval: u64 = 1;
    let (id, _, _) = create_and_fund(&mut v, &token, interval);

    for i in 1..=5u64 {
        v.ledger.timestamp = T0 + i;
        let res = v.charge_subscription(id, None);
        assert!(
            res.is_ok(),
            "charge at T0+{i} with interval=1 must succeed"
        );
        assert_eq!(res.unwrap(), ChargeExecutionResult::Charged);
    }

    let sub = v.get_subscription(id).unwrap();
    assert_eq!(sub.lifetime_charged, AMOUNT * 5);
}

#[test]
fn test_minimum_valid_interval_boundary() {
    let (mut v, token) = setup_test_env(T0);
    let interval: u64 = 60;
    let (id, _, _) = create_and_fund(&mut v, &token, interval);

    v.ledger.timestamp = T0 + interval - 1;
    let early = v.charge_subscription(id, None);
    assert_eq!(early, Err(Error::IntervalNotElapsed));

    v.ledger.timestamp = T0 + interval;
    let on_time = v.charge_subscription(id, None);
    assert_eq!(on_time.unwrap(), ChargeExecutionResult::Charged);
}

#[test]
fn test_very_large_interval_boundary() {
    let (mut v, token) = setup_test_env(T0);
    let interval: u64 = u64::MAX / 2;
    let (id, _, _) = create_and_fund(&mut v, &token, interval);

    let boundary = T0 + interval;

    v.ledger.timestamp = boundary - 1;
    let early = v.charge_subscription(id, None);
    assert_eq!(early, Err(Error::IntervalNotElapsed));

    v.ledger.timestamp = boundary;
    let on_time = v.charge_subscription(id, None);
    assert_eq!(on_time.unwrap(), ChargeExecutionResult::Charged);
}

#[test]
fn test_last_payment_timestamp_zero() {
    let (mut v, token) = setup_test_env(0);

    let subscriber = v.generate_address();
    let merchant = v.generate_address();
    let interval: u64 = 120;

    let id = v.create_subscription(
        &subscriber,
        &merchant,
        AMOUNT,
        interval,
        false,
        None,
        None,
        None,
    ).unwrap();

    v.mint(&token, &subscriber, 1_000_000_000i128);
    v.deposit_funds(id, 50_000_000i128, None).unwrap();

    v.ledger.timestamp = interval - 1;
    let early = v.charge_subscription(id, None);
    assert_eq!(early, Err(Error::IntervalNotElapsed));

    v.ledger.timestamp = interval;
    let on_time = v.charge_subscription(id, None);
    assert_eq!(on_time.unwrap(), ChargeExecutionResult::Charged);
}

#[test]
fn test_progressive_approach_to_boundary() {
    let (mut v, token) = setup_test_env(T0);
    let interval: u64 = 300;
    let (id, _, _) = create_and_fund(&mut v, &token, interval);

    for offset in [1, 100, interval - 2, interval - 1] {
        v.ledger.timestamp = T0 + offset;
        let res = v.charge_subscription(id, None);
        assert_eq!(
            res,
            Err(Error::IntervalNotElapsed),
            "charge at T0+{offset} must be rejected"
        );
    }

    v.ledger.timestamp = T0 + interval;
    let res = v.charge_subscription(id, None);
    assert_eq!(res.unwrap(), ChargeExecutionResult::Charged);
}
