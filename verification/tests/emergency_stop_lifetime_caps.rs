//! The emergency stop and lifetime caps, alone and together.
use subscription_vault::admin::CONFIG_COOLDOWN_SECS;
use subscription_vault::events::Event;
use subscription_vault::records::{ChargeExecutionResult, SubscriptionStatus};
use subscription_vault::scenarios::{ledger_at, setup as setup_scene};
use subscription_vault::types::{Address, Error};
use subscription_vault::vault::Vault;

const T0: u64 = 1_700_000_000;
const INTERVAL: u64 = 30 * 24 * 60 * 60;
const DEPOSIT: i128 = 100_000_000;

fn setup() -> (Vault, Address, Address) {
    let scene = setup_scene(ledger_at(T0, 0), 6, 1_000_000, 7 * 24 * 60 * 60);
    (scene.vault, scene.token, scene.admin)
}

fn host<T>(r: Result<T, Error>) -> T {
    match r {
        Ok(x) => x,
        Err(Error::AuthRequired) => panic!("Error(Auth, InvalidAction)"),
        Err(e) => panic!("Error(Contract, #{})", e.to_code()),
    }
}

#[test]
fn test_emergency_stop_blocks_all_critical_create_deposit_charge_paths() {
    let (mut v, token, admin) = setup();
    let subscriber = v.generate_address();
    let merchant = v.generate_address();

    v.mint(&token, &subscriber, DEPOSIT);

    let sub_id = v.create_subscription(
        &subscriber,
        &merchant,
        1_000_000i128,
        INTERVAL,
        true,
        None,
        None,
        None,
    ).unwrap();
    v.deposit_funds(sub_id, 10_000_000i128, None).unwrap();

    let plan_id = v.create_plan_template(&merchant, 1_000_000i128, INTERVAL, false, None).unwrap();

    v.enable_emergency_stop(&admin).unwrap();
    assert!(v.get_emergency_stop_status());

    assert_eq!(
        v.create_subscription(
            &subscriber,
            &merchant,
            1_000_000i128,
            INTERVAL,
            false,
            None,
            None,
            None,
        ), Err(Error::EmergencyStopActive)
    );
    assert_eq!(
        v.create_subscription_with_token(
            &subscriber,
            &merchant,
            &token,
            1_000_000i128,
            INTERVAL,
            false,
            None,
            None,
            None,
            None,
        ), Err(Error::EmergencyStopActive)
    );
    assert_eq!(
        v.create_subscription_from_plan(&subscriber, plan_id),
        Err(Error::EmergencyStopActive)
    );
    assert_eq!(
        v.deposit_funds(sub_id, 1_000_000i128, None),
        Err(Error::EmergencyStopActive)
    );
    assert_eq!(
        v.charge_subscription(sub_id, None),
        Err(Error::EmergencyStopActive)
    );
    assert_eq!(
        v.charge_usage(sub_id, 100_000i128),
        Err(Error::EmergencyStopActive)
    );
    assert_eq!(
        v.charge_usage_with_reference(sub_id, 100_000i128, b"usage-ref"),
        Err(Error::EmergencyStopActive)
    );
    assert_eq!(
        v.charge_one_off(sub_id, &merchant, 100_000i128, None),
        Err(Error::EmergencyStopActive)
    );

    let sub = v.get_subscription(sub_id).unwrap();
    assert_eq!(sub.status, SubscriptionStatus::Active);
    assert_eq!(v.get_admin(), Some(admin));

    v.ledger.timestamp += CONFIG_COOLDOWN_SECS;
    v.disable_emergency_stop(&admin).unwrap();
    assert!(!v.get_emergency_stop_status());

    let resumed_id = v.create_subscription_from_plan(&subscriber, plan_id).unwrap();
    assert_eq!(
        v.get_subscription(resumed_id).unwrap().status,
        SubscriptionStatus::Active
    );
}

#[test]
fn test_emergency_stop_toggle_is_idempotent_and_emits_events_once_per_transition() {
    let (mut v, _, admin) = setup();

    v.enable_emergency_stop(&admin).unwrap();
    assert_eq!(v.events.len(), 1);
    assert!(matches!(v.events[0], Event::EmergencyStopEnabled { .. }));

    v.ledger.timestamp += CONFIG_COOLDOWN_SECS;
    v.enable_emergency_stop(&admin).unwrap();
    assert!(v.events.is_empty());
    assert!(v.get_emergency_stop_status());

    v.ledger.timestamp += CONFIG_COOLDOWN_SECS;
    v.disable_emergency_stop(&admin).unwrap();
    assert_eq!(v.events.len(), 1);
    assert!(matches!(v.events[0], Event::EmergencyStopDisabled { .. }));

    v.ledger.timestamp += CONFIG_COOLDOWN_SECS;
    v.disable_emergency_stop(&admin).unwrap();
    assert!(v.events.is_empty());
    assert!(!v.get_emergency_stop_status());
}

#[test]
#[should_panic(expected = "Error(Contract, #4007)")]
fn test_emergency_stop_blocks_batch_charge() {
    let (mut v, token, admin) = setup();
    let subscriber = v.generate_address();
    let merchant = v.generate_address();
    v.mint(&token, &subscriber, DEPOSIT);

    let sub_id = host(v.create_subscription(
            &subscriber,
            &merchant,
            1_000_000i128,
            INTERVAL,
            false,
            None,
            None,
            None,
    ));
    host(v.deposit_funds(sub_id, 10_000_000i128, None));
    v.set_timestamp(T0 + INTERVAL + 1);

    host(v.enable_emergency_stop(&admin));
    let ids = vec![sub_id];
    host(v.batch_charge(&ids, 0u64));
}

#[test]
fn test_batch_charge_resumes_normally_after_emergency_stop_disabled() {
    let (mut v, token, admin) = setup();
    let subscriber = v.generate_address();
    let merchant = v.generate_address();
    v.mint(&token, &subscriber, DEPOSIT);

    let sub_id = v.create_subscription(
        &subscriber,
        &merchant,
        1_000_000i128,
        INTERVAL,
        false,
        None,
        None,
        None,
    ).unwrap();
    v.deposit_funds(sub_id, 10_000_000i128, None).unwrap();
    v.set_timestamp(T0 + INTERVAL + 1);

    v.enable_emergency_stop(&admin).unwrap();
    v.ledger.timestamp += CONFIG_COOLDOWN_SECS;
    v.disable_emergency_stop(&admin).unwrap();

    let ids = vec![sub_id];
    let results = v.batch_charge(&ids, 0u64).unwrap();
    assert_eq!(results.len(), 1);
    assert!(results[0].success);
}

#[test]
fn test_lifetime_cap_interval_overrun_cancels_without_debiting_or_crediting() {
    let (mut v, token, _) = setup();
    let subscriber = v.generate_address();
    let merchant = v.generate_address();
    v.mint(&token, &subscriber, DEPOSIT);

    let amount = 10_000_000i128;
    let cap = (2 * amount) - 1;
    let sub_id = v.create_subscription(
        &subscriber,
        &merchant,
        amount,
        INTERVAL,
        false,
        Some(cap),
        None,
        None,
    ).unwrap();
    v.deposit_funds(sub_id, cap, None).unwrap();

    v.set_timestamp(T0 + INTERVAL + 1);
    assert_eq!(
        v.charge_subscription(sub_id, None),
        Ok(ChargeExecutionResult::Charged)
    );
    let after_first = v.get_subscription(sub_id).unwrap();
    let merchant_after_first = v.get_merchant_balance(&merchant);

    v.set_timestamp(T0 + (2 * INTERVAL) + 1);
    assert_eq!(
        v.charge_subscription(sub_id, None),
        Ok(ChargeExecutionResult::LifetimeCapReached)
    );

    let after_second = v.get_subscription(sub_id).unwrap();
    assert_eq!(after_second.status, SubscriptionStatus::Cancelled);
    assert_eq!(after_second.prepaid_balance, after_first.prepaid_balance);
    assert_eq!(after_second.lifetime_charged, after_first.lifetime_charged);
    assert_eq!(v.get_merchant_balance(&merchant), merchant_after_first);
}

#[test]
fn test_lifetime_cap_usage_exact_hit_charges_then_auto_cancels() {
    let (mut v, token, _) = setup();
    let subscriber = v.generate_address();
    let merchant = v.generate_address();
    v.mint(&token, &subscriber, DEPOSIT);

    let cap = 50_000_000i128;
    let sub_id = v.create_subscription(
        &subscriber,
        &merchant,
        1i128,
        INTERVAL,
        true,
        Some(cap),
        None,
        None,
    ).unwrap();
    v.deposit_funds(sub_id, cap, None).unwrap();
    v.charge_usage_with_reference(sub_id, cap, b"cap-exact-usage").unwrap();

    let sub = v.get_subscription(sub_id).unwrap();
    assert_eq!(sub.prepaid_balance, 0);
    assert_eq!(sub.lifetime_charged, cap);
    assert_eq!(sub.status, SubscriptionStatus::Cancelled);
    assert_eq!(v.get_merchant_balance(&merchant), cap);
}

#[test]
fn test_lifetime_cap_usage_overrun_cancels_without_financial_side_effects() {
    let (mut v, token, _) = setup();
    let subscriber = v.generate_address();
    let merchant = v.generate_address();
    v.mint(&token, &subscriber, DEPOSIT);

    let cap = 50_000_000i128;
    let sub_id = v.create_subscription(
        &subscriber,
        &merchant,
        1i128,
        INTERVAL,
        true,
        Some(cap),
        None,
        None,
    ).unwrap();
    v.deposit_funds(sub_id, cap, None).unwrap();

    let mut sub = v.get_subscription(sub_id).unwrap();
    sub.lifetime_charged = cap - 1;
    v.subscriptions.insert(sub_id, sub);

    let usage_result = v.charge_usage_with_reference(sub_id, 2i128, b"cap-overrun-usage");
    assert!(usage_result.is_ok());

    let updated = v.get_subscription(sub_id).unwrap();
    assert_eq!(updated.status, SubscriptionStatus::Cancelled);
    assert_eq!(updated.prepaid_balance, cap);
    assert_eq!(updated.lifetime_charged, cap - 1);
    assert_eq!(v.get_merchant_balance(&merchant), 0);
}

#[test]
fn test_lifetime_cap_oneoff_exact_hit_auto_cancels() {
    let (mut v, token, _) = setup();
    let subscriber = v.generate_address();
    let merchant = v.generate_address();
    v.mint(&token, &subscriber, DEPOSIT);

    let cap = 5_000_000i128;
    let sub_id = v.create_subscription(
        &subscriber,
        &merchant,
        1_000_000i128,
        INTERVAL,
        false,
        Some(cap),
        None,
        None,
    ).unwrap();
    v.deposit_funds(sub_id, cap, None).unwrap();
    v.charge_one_off(sub_id, &merchant, cap, None).unwrap();
    let cap_events = v.events.iter().filter(|e| matches!(e, Event::LifetimeCapReached { .. })).count();
    assert_eq!(cap_events, 1);

    let sub = v.get_subscription(sub_id).unwrap();
    assert_eq!(sub.status, SubscriptionStatus::Cancelled);
    assert_eq!(sub.lifetime_charged, cap);
    assert_eq!(sub.prepaid_balance, 0);
    assert_eq!(v.get_merchant_balance(&merchant), cap);
    assert_eq!(
        v.charge_one_off(sub_id, &merchant, 1i128, None),
        Err(Error::LifetimeCapReached)
    );
}

#[test]
fn test_emergency_stop_backlog_charges_respect_lifetime_cap() {
    let (mut v, token, admin) = setup();
    let subscriber = v.generate_address();
    let merchant = v.generate_address();

    let amount: i128 = 10_000_000;
    let cap: i128 = 2 * amount;

    v.mint(&token, &subscriber, cap * 4);

    let sub_id = v.create_subscription(
        &subscriber,
        &merchant,
        amount,
        INTERVAL,
        true,
        Some(cap),
        None,
        None,
    ).unwrap();
    v.deposit_funds(sub_id, cap, None).unwrap();

    v.set_timestamp(T0 + INTERVAL + 1);
    let r1 = v.charge_subscription(sub_id, None);
    assert_eq!(r1, Ok(ChargeExecutionResult::Charged), "period 1 must succeed");

    let sub_after_p1 = v.get_subscription(sub_id).unwrap();
    assert_eq!(sub_after_p1.lifetime_charged, amount, "lifetime_charged after period 1");
    assert_eq!(sub_after_p1.status, SubscriptionStatus::Active);
    let merchant_after_p1 = v.get_merchant_balance(&merchant);

    v.ledger.timestamp += 1;
    v.enable_emergency_stop(&admin).unwrap();
    assert!(v.get_emergency_stop_status());

    v.set_timestamp(T0 + (2 * INTERVAL) + 1);
    assert_eq!(
        v.charge_subscription(sub_id, None),
        Err(Error::EmergencyStopActive),
        "charge must be blocked while stop is active"
    );

    v.set_timestamp(T0 + (3 * INTERVAL) + 1);

    v.ledger.timestamp += CONFIG_COOLDOWN_SECS;
    v.disable_emergency_stop(&admin).unwrap();
    assert!(!v.get_emergency_stop_status());

    let batch_ids = vec![sub_id];
    let results_p2 = v.batch_charge(&batch_ids, 0u64).unwrap();
    assert_eq!(results_p2.len(), 1);
    let r_p2 = results_p2[0];
    assert!(r_p2.success, "period 2 backlog charge must succeed (cap not yet exhausted)");
    assert_eq!(r_p2.error_code, 0);

    let sub_after_p2 = v.get_subscription(sub_id).unwrap();
    assert_eq!(
        sub_after_p2.lifetime_charged,
        cap,
        "lifetime_charged must equal the cap after period 2"
    );
    assert_eq!(
        sub_after_p2.status,
        SubscriptionStatus::Cancelled,
        "subscription must be auto-cancelled once cap is reached"
    );
    let merchant_after_p2 = v.get_merchant_balance(&merchant);
    assert!(
        merchant_after_p2 > merchant_after_p1,
        "merchant balance must increase after period 2 charge"
    );

    v.ledger.timestamp += 1;
    let results_p3 = v.batch_charge(&vec![sub_id], 1u64).unwrap();
    assert_eq!(results_p3.len(), 1);
    let r_p3 = results_p3[0];
    assert!(!r_p3.success, "period 3 charge must fail: cap already exhausted");
    assert_eq!(
        r_p3.error_code,
        Error::LifetimeCapReached.to_code(),
        "error code must be LifetimeCapReached (6002)"
    );

    let sub_final = v.get_subscription(sub_id).unwrap();
    assert_eq!(
        sub_final.lifetime_charged,
        cap,
        "lifetime_charged must not increase beyond cap"
    );
    assert_eq!(
        sub_final.prepaid_balance,
        sub_after_p2.prepaid_balance,
        "prepaid_balance must not change after cap-blocked charge"
    );
    assert_eq!(
        v.get_merchant_balance(&merchant),
        merchant_after_p2,
        "merchant balance must not increase after cap-blocked charge"
    );
}

#[test]
fn test_batch_after_stop_isolates_cap_results_per_subscription() {
    let (mut v, token, admin) = setup();
    let subscriber = v.generate_address();
    let merchant = v.generate_address();
    let amount: i128 = 5_000_000;

    v.mint(&token, &subscriber, amount * 20);

    let sub_ok = v.create_subscription(
        &subscriber,
        &merchant,
        amount,
        INTERVAL,
        true,
        None,
        None,
        None,
    ).unwrap();
    v.deposit_funds(sub_ok, amount * 4, None).unwrap();

    let sub_cap_exact = v.create_subscription(
        &subscriber,
        &merchant,
        amount,
        INTERVAL,
        true,
        Some(amount),
        None,
        None,
    ).unwrap();
    v.deposit_funds(sub_cap_exact, amount, None).unwrap();

    let sub_cap_fresh = v.create_subscription(
        &subscriber,
        &merchant,
        amount,
        INTERVAL,
        true,
        Some(2 * amount),
        None,
        None,
    ).unwrap();
    v.deposit_funds(sub_cap_fresh, 2 * amount, None).unwrap();

    v.set_timestamp(T0 + INTERVAL + 1);
    let r = v.charge_subscription(sub_cap_exact, None);
    assert_eq!(r, Ok(ChargeExecutionResult::Charged));
    let sub_exact_after_first = v.get_subscription(sub_cap_exact).unwrap();
    assert_eq!(sub_exact_after_first.lifetime_charged, amount);
    assert_eq!(sub_exact_after_first.status, SubscriptionStatus::Cancelled);

    v.ledger.timestamp += 1;
    v.enable_emergency_stop(&admin).unwrap();
    v.set_timestamp(T0 + (2 * INTERVAL) + 1 + CONFIG_COOLDOWN_SECS);
    v.disable_emergency_stop(&admin).unwrap();

    let batch_ids = vec![sub_ok, sub_cap_exact, sub_cap_fresh];
    let results = v.batch_charge(&batch_ids, 0u64).unwrap();
    assert_eq!(results.len(), 3);

    let r_ok = results[0];
    assert!(r_ok.success, "sub_ok must charge successfully");
    assert_eq!(r_ok.error_code, 0);

    let r_exact = results[1];
    assert!(!r_exact.success, "sub_cap_exact must fail: cap already exhausted");
    assert_eq!(
        r_exact.error_code,
        Error::LifetimeCapReached.to_code(),
        "sub_cap_exact error must be LifetimeCapReached (6002)"
    );

    let r_fresh = results[2];
    assert!(r_fresh.success, "sub_cap_fresh must charge successfully");
    assert_eq!(r_fresh.error_code, 0);

    let sub_fresh_state = v.get_subscription(sub_cap_fresh).unwrap();
    assert_eq!(sub_fresh_state.lifetime_charged, amount, "sub_cap_fresh: half-cap consumed");
    assert_eq!(sub_fresh_state.status, SubscriptionStatus::Active, "sub_cap_fresh still active");
}
