//! Subscriptions that do not renew.
use subscription_vault::events::Event;
use subscription_vault::nonce::DOMAIN_BATCH_CHARGE;
use subscription_vault::records::{ChargeExecutionResult, SubscriptionStatus};
use subscription_vault::scenarios::{create_sub, ledger_at, set_balance, setup as setup_scene};
use subscription_vault::types::{Address, Error};
use subscription_vault::vault::Vault;

const INTERVAL: u64 = 30 * 24 * 60 * 60;
const AMOUNT: i128 = 10_000_000;
const PREPAID: i128 = 120_000_000;
const T0: u64 = 1_000_000;

fn setup() -> (Vault, Address) {
    let scene = setup_scene(ledger_at(T0, 1), 6, 1_000_000, 7 * 24 * 60 * 60);
    (scene.vault, scene.admin)
}

fn create_funded_subscription(v: &mut Vault) -> (u32, Address, Address) {
    let (id, subscriber, merchant) = create_sub(v, AMOUNT, INTERVAL, false, None).unwrap();
    set_balance(v, id, PREPAID);
    (id, subscriber, merchant)
}

fn advance(v: &mut Vault, delta: u64) {
    v.ledger.timestamp += delta;
}

#[test]
fn test_auto_renew_default_is_true() {
    let (mut v, _admin) = setup();
    let (id, _subscriber, _merchant) = create_funded_subscription(&mut v);

    let sub = v.get_subscription(id).unwrap();
    assert!(
        sub.auto_renew,
        "auto_renew must default to true on creation"
    );
    assert!(
        sub.auto_renew_disabled_at.is_none(),
        "auto_renew_disabled_at must be None on creation"
    );
}

#[test]
fn test_subscriber_can_disable_auto_renew() {
    let (mut v, _admin) = setup();
    let (id, subscriber, _merchant) = create_funded_subscription(&mut v);

    let result = v.set_auto_renew(id, &subscriber, false);
    assert!(result.is_ok(), "subscriber should be allowed to disable auto_renew");

    let sub = v.get_subscription(id).unwrap();
    assert!(!sub.auto_renew, "auto_renew must be false after subscriber disables");
    assert!(
        sub.auto_renew_disabled_at.is_some(),
        "auto_renew_disabled_at must be set after disabling"
    );
    assert_eq!(
        sub.auto_renew_disabled_at.unwrap(),
        T0,
        "disabled_at should equal ledger timestamp at time of disable"
    );
}

#[test]
fn test_merchant_can_disable_auto_renew() {
    let (mut v, _admin) = setup();
    let (id, _subscriber, merchant) = create_funded_subscription(&mut v);

    let result = v.set_auto_renew(id, &merchant, false);
    assert!(result.is_ok(), "merchant should be allowed to disable auto_renew");

    let sub = v.get_subscription(id).unwrap();
    assert!(!sub.auto_renew, "auto_renew must be false after merchant disables");
}

#[test]
fn test_third_party_cannot_set_auto_renew() {
    let (mut v, _admin) = setup();
    let (id, _subscriber, _merchant) = create_funded_subscription(&mut v);

    let attacker = v.generate_address();
    let result = v.set_auto_renew(id, &attacker, false);

    assert_eq!(
        result,
        Err(Error::Forbidden),
        "third party must receive Forbidden"
    );
}

#[test]
fn test_charge_skipped_when_auto_renew_disabled() {
    let (mut v, _admin) = setup();
    let (id, subscriber, _merchant) = create_funded_subscription(&mut v);

    v.set_auto_renew(id, &subscriber, false).unwrap();

    advance(&mut v, INTERVAL + 1);

    let result = v.charge_subscription(id, None);
    assert_eq!(
        result,
        Ok(ChargeExecutionResult::Skipped),
        "charge should be skipped when auto_renew=false and interval has elapsed"
    );

    let sub = v.get_subscription(id).unwrap();
    assert_eq!(
        sub.prepaid_balance, PREPAID,
        "prepaid balance must not change on a skipped charge"
    );
}

#[test]
fn test_charge_proceeds_when_auto_renew_enabled() {
    let (mut v, _admin) = setup();
    let (id, _subscriber, _merchant) = create_funded_subscription(&mut v);

    advance(&mut v, INTERVAL + 1);

    let result = v.charge_subscription(id, None);
    assert!(
        result.is_ok(),
        "charge must not error when auto_renew=true and interval elapsed"
    );
    let charge_result = result.unwrap();
    assert_ne!(
        charge_result,
        ChargeExecutionResult::Skipped,
        "charge result must not be Skipped when auto_renew=true"
    );

    let sub = v.get_subscription(id).unwrap();
    assert!(
        sub.prepaid_balance < PREPAID,
        "balance must decrease after a successful charge"
    );
}

#[test]
fn test_reenable_within_window_succeeds() {
    let (mut v, _admin) = setup();
    let (id, subscriber, _merchant) = create_funded_subscription(&mut v);

    v.set_auto_renew(id, &subscriber, false).unwrap();

    advance(&mut v, INTERVAL - 1);

    let result = v.set_auto_renew(id, &subscriber, true);
    assert!(result.is_ok(), "re-enable within renewal window must succeed");

    let sub = v.get_subscription(id).unwrap();
    assert!(sub.auto_renew, "auto_renew must be true after re-enable");
    assert!(
        sub.auto_renew_disabled_at.is_none(),
        "auto_renew_disabled_at must be cleared after re-enable"
    );
}

#[test]
fn test_reenable_after_window_closed_fails() {
    let (mut v, _admin) = setup();
    let (id, subscriber, _merchant) = create_funded_subscription(&mut v);

    v.set_auto_renew(id, &subscriber, false).unwrap();

    advance(&mut v, INTERVAL + 1);

    let result = v.set_auto_renew(id, &subscriber, true);
    assert_eq!(
        result,
        Err(Error::RenewalWindowClosed),
        "re-enable after window must return RenewalWindowClosed"
    );

    let sub = v.get_subscription(id).unwrap();
    assert!(
        !sub.auto_renew,
        "auto_renew must remain false after failed re-enable"
    );
}

#[test]
fn test_toggle_mid_interval() {
    let (mut v, _admin) = setup();
    let (id, subscriber, _merchant) = create_funded_subscription(&mut v);

    advance(&mut v, INTERVAL / 2);
    v.set_auto_renew(id, &subscriber, false).unwrap();

    let result = v.charge_subscription(id, None);
    assert_eq!(
        result,
        Err(Error::IntervalNotElapsed),
        "charge before interval elapsed must return IntervalNotElapsed even with auto_renew=false"
    );

    advance(&mut v, INTERVAL / 2 + 1);

    let result2 = v.charge_subscription(id, None);
    assert_eq!(
        result2,
        Ok(ChargeExecutionResult::Skipped),
        "charge after interval elapsed with auto_renew=false must be Skipped"
    );
}

#[test]
fn test_toggle_then_cancel() {
    let (mut v, _admin) = setup();
    let (id, subscriber, _merchant) = create_funded_subscription(&mut v);

    v.set_auto_renew(id, &subscriber, false).unwrap();

    let result = v.cancel_subscription(id, &subscriber);
    assert!(result.is_ok(), "cancel after disabling auto_renew must succeed");

    let sub = v.get_subscription(id).unwrap();
    assert_eq!(
        sub.status,
        SubscriptionStatus::Cancelled,
        "subscription must be cancelled"
    );

    let toggle_on_cancelled = v.set_auto_renew(id, &subscriber, true);
    assert_eq!(
        toggle_on_cancelled,
        Err(Error::InvalidStatusTransition),
        "toggle on cancelled subscription must return InvalidStatusTransition"
    );
}

#[test]
fn test_renewal_after_long_dormancy() {
    let (mut v, _admin) = setup();
    let (id, subscriber, _merchant) = create_funded_subscription(&mut v);

    v.set_auto_renew(id, &subscriber, false).unwrap();

    advance(&mut v, INTERVAL * 12);

    let result = v.set_auto_renew(id, &subscriber, true);
    assert_eq!(
        result,
        Err(Error::RenewalWindowClosed),
        "re-enable after long dormancy must return RenewalWindowClosed"
    );

    let charge_result = v.charge_subscription(id, None);
    assert_eq!(
        charge_result,
        Ok(ChargeExecutionResult::Skipped),
        "charge during long dormancy with auto_renew=false must be Skipped"
    );
}

#[test]
fn test_double_disable_preserves_timestamp() {
    let (mut v, _admin) = setup();
    let (id, subscriber, _merchant) = create_funded_subscription(&mut v);

    v.set_auto_renew(id, &subscriber, false).unwrap();
    let first_disabled_at = v.get_subscription(id).unwrap().auto_renew_disabled_at;

    advance(&mut v, 1000);
    v.set_auto_renew(id, &subscriber, false).unwrap();
    let second_disabled_at = v.get_subscription(id).unwrap().auto_renew_disabled_at;

    assert_eq!(
        first_disabled_at, second_disabled_at,
        "second disable must preserve the original disable timestamp, not overwrite it"
    );
}

#[test]
fn test_double_enable_is_noop() {
    let (mut v, _admin) = setup();
    let (id, subscriber, _merchant) = create_funded_subscription(&mut v);

    let result = v.set_auto_renew(id, &subscriber, true);
    assert!(result.is_ok(), "enabling when already enabled must succeed (no-op)");

    let sub = v.get_subscription(id).unwrap();
    assert!(sub.auto_renew, "auto_renew must remain true");
    assert!(
        sub.auto_renew_disabled_at.is_none(),
        "disabled_at must remain None"
    );
}

#[test]
fn test_cancelled_subscription_rejects_toggle() {
    let (mut v, _admin) = setup();
    let (id, subscriber, _merchant) = create_funded_subscription(&mut v);

    v.cancel_subscription(id, &subscriber).unwrap();

    let result = v.set_auto_renew(id, &subscriber, false);
    assert_eq!(
        result,
        Err(Error::InvalidStatusTransition),
        "toggle on cancelled subscription must return InvalidStatusTransition"
    );
}

#[test]
fn test_expired_subscription_rejects_toggle() {
    let (mut v, _admin) = setup();
    let (id, subscriber, _merchant) = {
        let subscriber = v.generate_address();
        let merchant = v.generate_address();
        let expires_at: u64 = T0 + 1000;
        let id = v.create_subscription(
            &subscriber,
            &merchant,
            AMOUNT,
            INTERVAL,
            false,
            None,
            Some(expires_at),
            None,
        ).unwrap();
        set_balance(&mut v, id, PREPAID);
        (id, subscriber, merchant)
    };

    advance(&mut v, 1001);

    let result = v.set_auto_renew(id, &subscriber, false);
    assert_eq!(
        result,
        Err(Error::SubscriptionExpired),
        "toggle on expired subscription must return SubscriptionExpired"
    );
}

#[test]
fn test_nonexistent_subscription_returns_not_found() {
    let (mut v, _admin) = setup();
    let caller = v.generate_address();

    let result = v.set_auto_renew(9999, &caller, false);
    assert_eq!(
        result,
        Err(Error::NotFound),
        "non-existent subscription must return NotFound"
    );
}

#[test]
fn test_auto_renew_event_emitted_on_disable() {
    let (mut v, _admin) = setup();
    let (id, subscriber, merchant) = create_funded_subscription(&mut v);

    v.set_auto_renew(id, &subscriber, false).unwrap();

    assert!(v.events.iter().any(|e| matches!(e, Event::AutoRenewToggled { .. })),
        "at least one event must be emitted when auto_renew is disabled"
    );

    let sub = v.get_subscription(id).unwrap();
    assert!(!sub.auto_renew);
    assert_eq!(sub.subscriber, subscriber);
    assert_eq!(sub.merchant, merchant);
}

#[test]
fn test_auto_renew_event_emitted_on_reenable() {
    let (mut v, _admin) = setup();
    let (id, subscriber, _merchant) = create_funded_subscription(&mut v);

    v.set_auto_renew(id, &subscriber, false).unwrap();
    advance(&mut v, INTERVAL / 2);

    v.set_auto_renew(id, &subscriber, true).unwrap();
    assert!(v.events.iter().any(|e| matches!(e, Event::AutoRenewToggled { .. })),
        "re-enable must also emit an event"
    );

    let sub = v.get_subscription(id).unwrap();
    assert!(sub.auto_renew, "auto_renew must be true after re-enable");
    assert!(
        sub.auto_renew_disabled_at.is_none(),
        "disabled_at must be cleared after re-enable"
    );
}

#[test]
fn test_batch_charge_skips_non_renewing() {
    let (mut v, admin) = setup();
    let (id1, subscriber1, _merchant1) = create_funded_subscription(&mut v);
    let (id2, _subscriber2, _merchant2) = create_funded_subscription(&mut v);

    v.set_auto_renew(id1, &subscriber1, false).unwrap();

    advance(&mut v, INTERVAL + 1);

    let nonce = v.get_admin_nonce(&admin, DOMAIN_BATCH_CHARGE);
    let mut ids = Vec::new();
    ids.push(id1);
    ids.push(id2);

    let results = v.batch_charge(&ids, nonce).unwrap();
    assert_eq!(results.len(), 2, "batch must return one result per id");

    let r1 = results[0];
    assert!(
        r1.success,
        "batch charge of non-renewing subscription must report success (skipped gracefully)"
    );
    assert_eq!(
        r1.error_code, 0,
        "batch charge of non-renewing subscription must have no error code"
    );

    let r2 = results[1];
    assert!(r2.success, "batch charge of active subscription must succeed");
    assert_eq!(r2.error_code, 0);

    assert_eq!(
        v.get_subscription(id1).unwrap().prepaid_balance,
        PREPAID,
        "non-renewing subscription balance must be unchanged"
    );
    assert!(
        v.get_subscription(id2).unwrap().prepaid_balance < PREPAID,
        "active subscription balance must decrease after charge"
    );
}

#[test]
fn test_paused_subscription_can_toggle() {
    let (mut v, _admin) = setup();
    let (id, subscriber, _merchant) = create_funded_subscription(&mut v);

    v.pause_subscription(id, &subscriber).unwrap();
    let sub = v.get_subscription(id).unwrap();
    assert_eq!(sub.status, SubscriptionStatus::Paused);

    let result = v.set_auto_renew(id, &subscriber, false);
    assert!(
        result.is_ok(),
        "disabling auto_renew on a paused subscription must succeed"
    );

    let sub = v.get_subscription(id).unwrap();
    assert!(!sub.auto_renew, "auto_renew must be false");

    advance(&mut v, INTERVAL / 2);
    let result2 = v.set_auto_renew(id, &subscriber, true);
    assert!(
        result2.is_ok(),
        "re-enabling within window on a paused subscription must succeed"
    );
    let sub2 = v.get_subscription(id).unwrap();
    assert!(sub2.auto_renew, "auto_renew must be true after re-enable");
}

#[test]
fn test_auto_renew_extension_overflow_check() {
    let (mut v, _admin) = setup();
    let (id, _, _merchant) = create_funded_subscription(&mut v);

    // Nothing is charged before the interval is over.
    advance(&mut v, INTERVAL);
    v.charge_subscription(id, None).unwrap();
    let sub_charged = v.get_subscription(id).unwrap();
    assert!(sub_charged.prepaid_balance < PREPAID);
}
