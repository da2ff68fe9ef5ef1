//! Subscriptions that end at a time or at a ledger.
use subscription_vault::events::Event;
use subscription_vault::records::{Subscription, SubscriptionStatus};
use subscription_vault::scenarios::{ledger_at, seed_merchant_balance, setup as setup_scene};
use subscription_vault::types::{Address, Error};
use subscription_vault::vault::Vault;

const T0: u64 = 1_000_000;
const INTERVAL: u64 = 60;

fn setup_test_env() -> (Vault, Address, Address) {
    let scene = setup_scene(ledger_at(T0, 0), 6, 1_000_000, 7 * 24 * 60 * 60);
    (scene.vault, scene.token, scene.admin)
}

fn sub_with(expires_at: Option<u64>, expires_at_ledger: Option<u32>) -> Subscription {
    let placeholder = Address::Contract(1);
    Subscription {
        subscriber: placeholder,
        merchant: placeholder,
        token: placeholder,
        amount: 0,
        interval_seconds: 60,
        last_payment_timestamp: 0,
        status: SubscriptionStatus::Active,
        prepaid_balance: 0,
        usage_enabled: false,
        lifetime_cap: None,
        lifetime_charged: 0,
        start_time: 0,
        expires_at,
        grace_start_timestamp: None,
        cancel_at: None,
        expires_at_ledger,
        sub_account_label: None,
        proration_enabled: false,
        auto_renew: true,
        auto_renew_disabled_at: None,
    }
}

fn expected(now: u64, sl: u32, exp_t: Option<u64>, exp_s: Option<u32>) -> bool {
    exp_t.map_or(false, |t| now >= t) || exp_s.map_or(false, |s| sl >= s)
}

#[test]
fn test_restore_snapshot_page_preserves_ledger_bound() {
    let (mut src, src_token, src_admin) = setup_test_env();
    let subscriber = src.generate_address();
    let merchant = src.generate_address();

    let bound_seq = src.ledger.sequence + 75;
    src.mint(&src_token, &subscriber, 1_000_000i128 * 5);
    let sub_id = src
        .create_subscription_with_token(
            &subscriber,
            &merchant,
            &src_token,
            1_000_000,
            INTERVAL,
            false,
            None,
            None,
            Some(bound_seq),
            None,
        )
        .unwrap();
    seed_merchant_balance(&mut src, &merchant, &src_token, 42_000);

    let page = src.export_full_snapshot_page(&src_admin, 0, 10).unwrap();
    assert_eq!(page.subscriptions.len(), 1);
    assert_eq!(
        page.subscriptions[0].record.expires_at_ledger,
        Some(bound_seq),
        "export must carry the ledger bound"
    );

    let (mut target, target_token, target_admin) = setup_test_env();
    assert_eq!(
        target.restore_snapshot_page(
            &target_admin,
            0,
            &page.subscriptions,
            &page.balances,
            page.next_start_id,
        ),
        Err(Error::InvalidInput)
    );
    target.enable_emergency_stop(&target_admin).unwrap();
    assert_eq!(
        target.restore_snapshot_page(
            &target_admin,
            sub_id + 1,
            &page.subscriptions,
            &page.balances,
            page.next_start_id,
        ),
        Err(Error::InvalidInput)
    );
    target
        .restore_snapshot_page(
            &target_admin,
            0,
            &page.subscriptions,
            &page.balances,
            page.next_start_id,
        )
        .unwrap();
    assert_eq!(
        target.get_subscription(sub_id).unwrap().expires_at_ledger,
        Some(bound_seq),
        "restored subscription must preserve the ledger bound across migration"
    );

    let sub_id_none = src
        .create_subscription_with_token(
            &subscriber,
            &merchant,
            &src_token,
            1_000_000,
            INTERVAL,
            false,
            None,
            None,
            None,
            None,
        )
        .unwrap();
    assert_eq!(src.get_subscription(sub_id_none).unwrap().expires_at_ledger, None);

    let page_with_none = src.export_full_snapshot_page(&src_admin, 0, 10).unwrap();
    let none_summary = page_with_none
        .subscriptions
        .iter()
        .find(|s| s.subscription_id == sub_id_none)
        .expect("exported page must contain the subscription without a bound");
    assert_eq!(none_summary.record.expires_at_ledger, None);

    target
        .restore_snapshot_page(
            &target_admin,
            0,
            &page_with_none.subscriptions,
            &page_with_none.balances,
            page_with_none.next_start_id,
        )
        .unwrap();
    assert_eq!(target.get_subscription(sub_id_none).unwrap().expires_at_ledger, None);
    assert_eq!(target.get_merchant_balance_by_token(&merchant, &target_token), 42_000);
}

#[test]
fn test_expiration_timing_and_charging() {
    let (mut v, token, _) = setup_test_env();
    let subscriber = v.generate_address();
    let merchant = v.generate_address();

    let amount = 1_000_000i128;
    let interval = INTERVAL;
    let expires_at = T0 + 2 * INTERVAL;

    let min_topup = 1_000_000i128;
    v.mint(&token, &subscriber, min_topup * 5);

    let sub_id = v.create_subscription_with_token(
        &subscriber,
        &merchant,
        &token,
        amount,
        interval,
        false,
        None,
        Some(expires_at),
        None,
        None,
    ).unwrap();
    v.do_deposit_funds(&subscriber, sub_id, amount * 5, None).unwrap();

    v.ledger.timestamp = T0 + INTERVAL;
    v.charge_subscription(sub_id, None).unwrap();
    assert_eq!(v.get_subscription(sub_id).unwrap().lifetime_charged, amount);

    v.ledger.timestamp = T0 + 2 * INTERVAL;
    let res = v.charge_subscription(sub_id, None);
    assert!(res.is_err(), "charge at expiry should be rejected");

    assert!(v.get_subscription(sub_id).unwrap().expires_at.is_some());

    v.ledger.timestamp = T0 + 3 * INTERVAL;
    let res2 = v.charge_subscription(sub_id, None);
    assert!(res2.is_err(), "charge after expiry should be rejected");

    let initial_balance = v.balance(&token, &subscriber);
    v.withdraw_subscriber_funds(sub_id, &subscriber).unwrap();
    let final_balance = v.balance(&token, &subscriber);
    assert!(final_balance > initial_balance);
}

#[test]
fn test_cleanup_and_archival() {
    let (mut v, token, _) = setup_test_env();
    let subscriber = v.generate_address();
    let merchant = v.generate_address();

    let amount = 1_000_000i128;
    let _expires_at = T0 + 2 * INTERVAL;
    let min_topup = 1_000_000i128;
    v.mint(&token, &subscriber, min_topup * 5);

    let sub_id = v.create_subscription_with_token(
        &subscriber,
        &merchant,
        &token,
        min_topup,
        INTERVAL,
        false,
        None,
        Some(T0 + INTERVAL),
        None,
        None,
    ).unwrap();

    let res = v.cleanup_subscription(sub_id, &subscriber);
    assert!(res.is_err(), "cleanup before expiry should fail");

    v.ledger.timestamp = T0 + 2 * INTERVAL;
    let _ = v.charge_subscription(sub_id, None);

    v.cleanup_subscription(sub_id, &subscriber).unwrap();

    let sub_archived = v.get_subscription(sub_id).unwrap();
    assert_eq!(sub_archived.status, SubscriptionStatus::Archived);
    assert_eq!(sub_archived.amount, min_topup);

    let sub_balance = sub_archived.prepaid_balance;
    assert_eq!(sub_balance, 0, "Funds should have been returned during cleanup");
}

#[test]
fn test_expiration_vs_cancellation() {
    let (mut v, token, _) = setup_test_env();
    let subscriber = v.generate_address();
    let merchant = v.generate_address();
    let min_topup = 1_000_000i128;
    v.mint(&token, &subscriber, min_topup * 5);

    let expires_at = T0 + 2 * INTERVAL;

    let sub_id1 = v.create_subscription_with_token(
        &subscriber,
        &merchant,
        &token,
        min_topup,
        INTERVAL,
        false,
        None,
        Some(T0 + INTERVAL),
        None,
        None,
    ).unwrap();

    v.cancel_subscription(sub_id1, &subscriber).unwrap();
    assert_eq!(
        v.get_subscription(sub_id1).unwrap().status,
        SubscriptionStatus::Cancelled
    );
    v.cancel_subscription(sub_id1, &subscriber).unwrap();
    assert_eq!(v.get_subscription(sub_id1).unwrap().status, SubscriptionStatus::Cancelled);

    v.ledger.timestamp = T0 + 4 * INTERVAL;
    assert_eq!(v.get_subscription(sub_id1).unwrap().status, SubscriptionStatus::Cancelled);

    v.ledger.timestamp = T0 + 3 * INTERVAL;
    assert_eq!(
        v.get_subscription(sub_id1).unwrap().status,
        SubscriptionStatus::Cancelled,
        "status stays Cancelled after expiry time has passed"
    );
    v.cleanup_subscription(sub_id1, &subscriber).unwrap();
    assert_eq!(v.get_subscription(sub_id1).unwrap().status, SubscriptionStatus::Archived);

    // Nothing can be set to end in the past, so this one is made before its end.
    v.set_timestamp(T0);
    let sub_id2 = v.create_subscription_with_token(
        &subscriber,
        &merchant,
        &token,
        1_000_000i128,
        INTERVAL,
        false,
        None,
        Some(expires_at),
        None,
        None,
    ).unwrap();

    v.ledger.timestamp = expires_at + 1;
    let res = v.cancel_subscription(sub_id2, &subscriber);
    assert_eq!(res, Err(Error::SubscriptionExpired));

    v.cleanup_subscription(sub_id2, &subscriber).unwrap();
    assert_eq!(v.get_subscription(sub_id2).unwrap().status, SubscriptionStatus::Archived);
}

#[test]
fn test_deposit_rejected_when_expired() {
    let (mut v, token, _) = setup_test_env();
    let subscriber = v.generate_address();
    let merchant = v.generate_address();

    let min_topup = 1_000_000i128;
    let _expires_at = T0 + 2 * INTERVAL;
    v.mint(&token, &subscriber, min_topup * 5);

    let sub_id = v.create_subscription_with_token(
        &subscriber,
        &merchant,
        &token,
        min_topup,
        INTERVAL,
        false,
        None,
        Some(T0 + INTERVAL),
        None,
        None,
    ).unwrap();

    v.ledger.timestamp = T0 + 100;
    let _ = v.charge_subscription(sub_id, None);

    let res = v.do_deposit_funds(&subscriber, sub_id, min_topup, None);
    assert_eq!(res, Err(Error::SubscriptionExpired));
}

#[test]
fn test_reject_expiration_equal_to_now() {
    let (mut v, token, _) = setup_test_env();
    let subscriber = v.generate_address();
    let merchant = v.generate_address();

    let expires_at = T0;

    let res = v.create_subscription_with_token(
        &subscriber,
        &merchant,
        &token,
        1_000_000i128,
        INTERVAL,
        false,
        None,
        Some(expires_at),
        None,
        None,
    );
    assert_eq!(res, Err(Error::InvalidExpiration));
}

#[test]
fn test_reject_expiration_in_the_past() {
    let (mut v, token, _) = setup_test_env();
    let subscriber = v.generate_address();
    let merchant = v.generate_address();

    let expires_at = T0 - 1;

    let res = v.create_subscription_with_token(
        &subscriber,
        &merchant,
        &token,
        1_000_000i128,
        INTERVAL,
        false,
        None,
        Some(expires_at),
        None,
        None,
    );
    assert_eq!(res, Err(Error::InvalidExpiration));
}

#[test]
fn test_none_expiration_accepted() {
    let (mut v, token, _) = setup_test_env();
    let subscriber = v.generate_address();
    let merchant = v.generate_address();

    let res = v.create_subscription_with_token(
        &subscriber,
        &merchant,
        &token,
        1_000_000i128,
        INTERVAL,
        false,
        None,
        None,
        None,
        None,
    );
    assert!(res.is_ok(), "None expiration must be accepted");

    let sub_id = res.unwrap();
    let sub = v.get_subscription(sub_id).unwrap();
    assert_eq!(sub.expires_at, None);
}

#[test]
fn test_future_expiration_one_second_ahead_accepted() {
    let (mut v, token, _) = setup_test_env();
    let subscriber = v.generate_address();
    let merchant = v.generate_address();

    let expires_at = T0 + 1;

    let res = v.create_subscription_with_token(
        &subscriber,
        &merchant,
        &token,
        1_000_000i128,
        INTERVAL,
        false,
        None,
        Some(expires_at),
        None,
        None,
    );
    assert!(res.is_ok(), "future expiration must be accepted");

    let sub_id = res.unwrap();
    let sub = v.get_subscription(sub_id).unwrap();
    assert_eq!(sub.expires_at, Some(expires_at));
    assert_eq!(sub.status, SubscriptionStatus::Active);
}

#[test]
fn test_rejected_expiration_writes_no_storage() {
    let (mut v, token, _) = setup_test_env();
    let subscriber = v.generate_address();
    let merchant = v.generate_address();

    let _ = v.create_subscription_with_token(
        &subscriber,
        &merchant,
        &token,
        1_000_000i128,
        INTERVAL,
        false,
        None,
        Some(T0),
        None,
        None,
    );

    let _ = v.create_subscription_with_token(
        &subscriber,
        &merchant,
        &token,
        1_000_000i128,
        INTERVAL,
        false,
        None,
        Some(T0 - 1),
        None,
        None,
    );

    let res = v.create_subscription_with_token(
        &subscriber,
        &merchant,
        &token,
        1_000_000i128,
        INTERVAL,
        false,
        None,
        None,
        None,
        None,
    );
    assert!(res.is_ok(), "valid subscription must succeed");
    assert_eq!(res.unwrap(), 0, "first subscription should have id 0");
}

#[test]
fn test_ledger_expiration_none_accepted() {
    let (mut v, token, _) = setup_test_env();
    let subscriber = v.generate_address();
    let merchant = v.generate_address();

    v.mint(&token, &subscriber, 1_000_000i128 * 10);

    let sub_id = v.create_subscription_with_token(
        &subscriber,
        &merchant,
        &token,
        1_000_000i128,
        INTERVAL,
        false,
        None,
        None,
        None,
        None,
    ).unwrap();

    let sub = v.get_subscription(sub_id).unwrap();
    assert_eq!(sub.expires_at_ledger, None, "None ledger bound must persist");
    assert_eq!(sub.expires_at, None);

    v.ledger.timestamp = T0 + 30 * INTERVAL;
    v.ledger.sequence = 1_000_000;
    v.do_deposit_funds(&subscriber, sub_id, 1_000_000i128 * 5, None).unwrap();
    v.charge_subscription(sub_id, None).unwrap();
    assert_eq!(
        v.get_subscription(sub_id).unwrap().status,
        SubscriptionStatus::Active,
        "no bound set → no ledger-driven expiration"
    );
}

#[test]
fn test_ledger_expiration_future_bound_accepted() {
    let (mut v, token, _) = setup_test_env();
    let subscriber = v.generate_address();
    let merchant = v.generate_address();

    let current_seq = v.ledger.sequence;
    let bound_seq = current_seq + 5;

    let sub_id = v.create_subscription_with_token(
        &subscriber,
        &merchant,
        &token,
        1_000_000i128,
        INTERVAL,
        false,
        None,
        None,
        Some(bound_seq),
        None,
    ).unwrap();
    let sub = v.get_subscription(sub_id).unwrap();
    assert_eq!(sub.expires_at_ledger, Some(bound_seq));
    assert_eq!(sub.status, SubscriptionStatus::Active);
}

#[test]
fn test_reject_ledger_expiration_equal_to_now() {
    let (mut v, token, _) = setup_test_env();
    let subscriber = v.generate_address();
    let merchant = v.generate_address();

    let current_seq = v.ledger.sequence;

    let res = v.create_subscription_with_token(
        &subscriber,
        &merchant,
        &token,
        1_000_000i128,
        INTERVAL,
        false,
        None,
        None,
        Some(current_seq),
        None,
    );
    assert_eq!(res, Err(Error::InvalidExpiration));
}

#[test]
fn test_reject_ledger_expiration_in_the_past() {
    let (mut v, token, _) = setup_test_env();
    let subscriber = v.generate_address();
    let merchant = v.generate_address();

    let past_seq = v.ledger.sequence.saturating_sub(1);

    let res = v.create_subscription_with_token(
        &subscriber,
        &merchant,
        &token,
        1_000_000i128,
        INTERVAL,
        false,
        None,
        None,
        Some(past_seq),
        None,
    );
    assert_eq!(res, Err(Error::InvalidExpiration));
}

#[test]
fn test_charge_rejected_when_ledger_bound_met() {
    let (mut v, token, _) = setup_test_env();
    let subscriber = v.generate_address();
    let merchant = v.generate_address();

    v.mint(&token, &subscriber, 1_000_000i128 * 10);

    let current_seq = v.ledger.sequence;
    let bound_seq = current_seq + 3;

    let sub_id = v.create_subscription_with_token(
        &subscriber,
        &merchant,
        &token,
        1_000_000i128,
        INTERVAL,
        false,
        None,
        None,
        Some(bound_seq),
        None,
    ).unwrap();
    v.do_deposit_funds(&subscriber, sub_id, 1_000_000i128 * 5, None).unwrap();

    v.ledger.sequence = bound_seq;
    let res = v.charge_subscription(sub_id, None);
    assert!(
        res.is_err(),
        "charge must be rejected once ledger sequence reaches the bound"
    );

    let sub = v.get_subscription(sub_id).unwrap();
    assert_eq!(sub.status, SubscriptionStatus::Expired);
}

#[test]
fn test_deposit_rejected_when_ledger_bound_met() {
    let (mut v, token, _) = setup_test_env();
    let subscriber = v.generate_address();
    let merchant = v.generate_address();

    v.mint(&token, &subscriber, 1_000_000i128 * 10);

    let current_seq = v.ledger.sequence;
    let bound_seq = current_seq + 2;

    let sub_id = v.create_subscription_with_token(
        &subscriber,
        &merchant,
        &token,
        1_000_000i128,
        INTERVAL,
        false,
        None,
        None,
        Some(bound_seq),
        None,
    ).unwrap();

    v.ledger.sequence = bound_seq + 1;
    let _ = v.charge_subscription(sub_id, None);

    let res = v.do_deposit_funds(&subscriber, sub_id, 1_000_000i128, None);
    assert_eq!(res, Err(Error::SubscriptionExpired));
}

#[test]
fn test_both_bounds_set_ledger_fires_first() {
    let (mut v, token, _) = setup_test_env();
    let subscriber = v.generate_address();
    let merchant = v.generate_address();

    v.mint(&token, &subscriber, 1_000_000i128 * 10);

    let current_seq = v.ledger.sequence;
    let bound_seq = current_seq + 2;
    let wall_bound = T0 + 100 * INTERVAL;

    let sub_id = v.create_subscription_with_token(
        &subscriber,
        &merchant,
        &token,
        1_000_000i128,
        INTERVAL,
        false,
        None,
        Some(wall_bound),
        Some(bound_seq),
        None,
    ).unwrap();
    v.do_deposit_funds(&subscriber, sub_id, 1_000_000i128 * 5, None).unwrap();

    v.ledger.timestamp = T0 + INTERVAL;
    v.ledger.sequence = bound_seq + 1;
    let res = v.charge_subscription(sub_id, None);
    assert!(res.is_err(), "charge must be rejected via the ledger bound");
}

#[test]
fn test_both_bounds_set_wall_clock_fires_first() {
    let (mut v, token, _) = setup_test_env();
    let subscriber = v.generate_address();
    let merchant = v.generate_address();

    v.mint(&token, &subscriber, 1_000_000i128 * 10);

    let current_seq = v.ledger.sequence;
    let bound_seq = current_seq + 10_000;
    let wall_bound = T0 + 2 * INTERVAL;

    let sub_id = v.create_subscription_with_token(
        &subscriber,
        &merchant,
        &token,
        1_000_000i128,
        INTERVAL,
        false,
        None,
        Some(wall_bound),
        Some(bound_seq),
        None,
    ).unwrap();
    v.do_deposit_funds(&subscriber, sub_id, 1_000_000i128 * 5, None).unwrap();

    v.ledger.timestamp = wall_bound + 1;
    v.ledger.sequence = current_seq + 5;
    let res = v.charge_subscription(sub_id, None);
    assert!(res.is_err(), "charge must be rejected via the wall-clock bound");
}

#[test]
fn test_set_ledger_expiration_by_subscriber() {
    let (mut v, token, _) = setup_test_env();
    let subscriber = v.generate_address();
    let merchant = v.generate_address();

    let sub_id = v.create_subscription_with_token(
        &subscriber,
        &merchant,
        &token,
        1_000_000i128,
        INTERVAL,
        false,
        None,
        None,
        None,
        None,
    ).unwrap();

    let current_seq = v.ledger.sequence;
    let new_bound = current_seq + 50;
    v.set_subscription_expiration_ledger(sub_id, &subscriber, Some(new_bound)).unwrap();

    assert_eq!(
        v.get_subscription(sub_id).unwrap().expires_at_ledger,
        Some(new_bound)
    );
}

#[test]
fn test_set_ledger_expiration_by_merchant() {
    let (mut v, token, _) = setup_test_env();
    let subscriber = v.generate_address();
    let merchant = v.generate_address();

    let sub_id = v.create_subscription_with_token(
        &subscriber,
        &merchant,
        &token,
        1_000_000i128,
        INTERVAL,
        false,
        None,
        None,
        None,
        None,
    ).unwrap();

    let current_seq = v.ledger.sequence;
    let new_bound = current_seq + 25;
    v.set_subscription_expiration_ledger(sub_id, &merchant, Some(new_bound)).unwrap();

    assert_eq!(
        v.get_subscription(sub_id).unwrap().expires_at_ledger,
        Some(new_bound)
    );
}

#[test]
fn test_set_ledger_expiration_unauthorized_rejected() {
    let (mut v, token, _) = setup_test_env();
    let subscriber = v.generate_address();
    let merchant = v.generate_address();
    let stranger = v.generate_address();

    let sub_id = v.create_subscription_with_token(
        &subscriber,
        &merchant,
        &token,
        1_000_000i128,
        INTERVAL,
        false,
        None,
        None,
        None,
        None,
    ).unwrap();

    let res = v.set_subscription_expiration_ledger(sub_id, &stranger, Some(100u32));
    assert_eq!(res, Err(Error::Forbidden));
}

#[test]
fn test_set_ledger_expiration_rejects_past_or_equal() {
    let (mut v, token, _) = setup_test_env();
    let subscriber = v.generate_address();
    let merchant = v.generate_address();

    let sub_id = v.create_subscription_with_token(
        &subscriber,
        &merchant,
        &token,
        1_000_000i128,
        INTERVAL,
        false,
        None,
        None,
        None,
        None,
    ).unwrap();

    let current_seq = v.ledger.sequence;

    let res = v.set_subscription_expiration_ledger(sub_id, &subscriber, Some(current_seq));
    assert_eq!(res, Err(Error::InvalidExpiration));

    let res = v.set_subscription_expiration_ledger(
        sub_id,
        &subscriber,
        Some(current_seq.saturating_sub(1)),
    );
    assert_eq!(res, Err(Error::InvalidExpiration));
}

#[test]
fn test_set_ledger_expiration_none_clears_bound() {
    let (mut v, token, _) = setup_test_env();
    let subscriber = v.generate_address();
    let merchant = v.generate_address();

    let current_seq = v.ledger.sequence;
    let sub_id = v.create_subscription_with_token(
        &subscriber,
        &merchant,
        &token,
        1_000_000i128,
        INTERVAL,
        false,
        None,
        None,
        Some(current_seq + 100),
        None,
    ).unwrap();
    assert_eq!(
        v.get_subscription(sub_id).unwrap().expires_at_ledger,
        Some(current_seq + 100)
    );

    v.set_subscription_expiration_ledger(sub_id, &subscriber, None).unwrap();
    assert_eq!(v.get_subscription(sub_id).unwrap().expires_at_ledger, None);

    v.ledger.sequence = current_seq + 100 + 1;
    let sub = v.get_subscription(sub_id).unwrap();
    assert_eq!(sub.status, SubscriptionStatus::Active);
}

#[test]
fn test_set_ledger_expiration_rejects_cancelled() {
    let (mut v, token, _) = setup_test_env();
    let subscriber = v.generate_address();
    let merchant = v.generate_address();

    v.mint(&token, &subscriber, 1_000_000i128 * 5);

    let sub_id = v.create_subscription_with_token(
        &subscriber,
        &merchant,
        &token,
        1_000_000i128,
        INTERVAL,
        false,
        None,
        None,
        None,
        None,
    ).unwrap();

    v.cancel_subscription(sub_id, &subscriber).unwrap();
    assert_eq!(
        v.get_subscription(sub_id).unwrap().status,
        SubscriptionStatus::Cancelled
    );

    let res = v.set_subscription_expiration_ledger(sub_id, &subscriber, Some(100u32));
    assert_eq!(res, Err(Error::InvalidStatusTransition));
}

#[test]
fn test_set_ledger_expiration_emits_event() {
    let (mut v, token, _) = setup_test_env();
    let subscriber = v.generate_address();
    let merchant = v.generate_address();

    let current_seq = v.ledger.sequence;
    let initial_bound = current_seq + 10;

    let sub_id = v.create_subscription_with_token(
        &subscriber,
        &merchant,
        &token,
        1_000_000i128,
        INTERVAL,
        false,
        None,
        None,
        Some(initial_bound),
        None,
    ).unwrap();

    let new_bound = current_seq + 200;
    v.set_subscription_expiration_ledger(sub_id, &subscriber, Some(new_bound)).unwrap();

    let event = Event::ExpirationLedgerSet { subscription_id: sub_id, authorizer: subscriber, expires_at_ledger: Some(new_bound), previous_expires_at_ledger: Some(initial_bound) };
    assert_eq!(v.events, vec![event]);
}

#[test]
fn test_export_subscription_summary_preserves_ledger_bound() {
    let (mut v, token, admin) = setup_test_env();
    let subscriber = v.generate_address();
    let merchant = v.generate_address();

    let current_seq = v.ledger.sequence;
    let bound_seq = current_seq + 50;

    let sub_id = v.create_subscription_with_token(
        &subscriber,
        &merchant,
        &token,
        1_000_000i128,
        INTERVAL,
        false,
        None,
        None,
        Some(bound_seq),
        None,
    ).unwrap();

    let summary = v.export_subscription_summary(&admin, sub_id).unwrap();
    assert_eq!(
        summary.record.expires_at_ledger,
        Some(bound_seq),
        "SubscriptionSummary must carry the ledger bound verbatim"
    );
    assert_eq!(summary.subscription_id, sub_id);
    assert_eq!(summary.record.expires_at, None, "wall-clock bound remains unset");
}

#[test]
fn test_is_expired_dual_bound_invariant() {
    const T: u64 = 1_000_000;
    const S: u32 = 5_000;

    let sub_none_none = sub_with(None, None);
    let sub_time_only = sub_with(Some(T), None);
    let sub_ledger_only = sub_with(None, Some(S));
    let sub_both = sub_with(Some(T), Some(S));

    let samples: [(u64, u32); 7] = [
        (0, 0),
        (T - 1, S - 1),
        (T, S - 1),
        (T - 1, S),
        (T, S),
        (T + 100, S + 100),
        (u64::MAX, u32::MAX),
    ];

    for (now, sl) in samples {
        assert_eq!(
            sub_none_none.is_expired(now, sl),
            false,
            "both-None at (now={}, sl={}) must be false",
            now, sl
        );

        assert_eq!(
            sub_time_only.is_expired(now, sl),
            expected(now, sl, Some(T), None),
            "time-only @ (now={}, sl={}) mismatch", now, sl
        );

        assert_eq!(
            sub_ledger_only.is_expired(now, sl),
            expected(now, sl, None, Some(S)),
            "ledger-only @ (now={}, sl={}) mismatch", now, sl
        );

        assert_eq!(
            sub_both.is_expired(now, sl),
            expected(now, sl, Some(T), Some(S)),
            "both bounds @ (now={}, sl={}) mismatch", now, sl
        );
    }

    assert!(sub_time_only.is_expired(T, 0), "time AT bound must expire");
    assert!(sub_ledger_only.is_expired(0, S), "ledger AT bound must expire");
    assert!(sub_both.is_expired(T, S), "both AT bound must expire");

    assert!(!sub_time_only.is_expired(T - 1, 0), "time one below must NOT expire");
    assert!(!sub_ledger_only.is_expired(0, S - 1), "ledger one below must NOT expire");

    let sub_t_at_only = sub_with(Some(T), None);
    assert!(sub_t_at_only.is_expired(T, 0));
    assert!(!sub_t_at_only.is_expired(T - 1, u32::MAX));
    let sub_s_at_only = sub_with(None, Some(S));
    assert!(sub_s_at_only.is_expired(0, S));
    assert!(!sub_s_at_only.is_expired(u64::MAX, S - 1));
}

#[test]
fn test_is_expired_dual_bound_invariant_randomized() {
    let mut state: u64 = 0xDEAD_BEEF_CAFE_F00D;
    const A: u64 = 6364136223846793005;
    const C: u64 = 1442695040888963407;
    let mut next_u64 = move || -> u64 {
        state = state.wrapping_mul(A).wrapping_add(C);
        state
    };

    for trial in 0..256u64 {
        let r = next_u64();
        let exp_t = match trial % 4 {
            0 => None,
            1 => Some((r % 5_000_000) + 1_000),
            2 => None,
            _ => Some((r % 5_000_000) + 1_000),
        };
        let exp_s = match trial % 4 {
            0 => None,
            1 => None,
            2 => Some((((r >> 16) % 50_000) + 100) as u32),
            _ => Some((((r >> 16) % 50_000) + 100) as u32),
        };
        let sub = sub_with(exp_t, exp_s);

        for _ in 0..4 {
            let now_seed = next_u64();
            let sl_seed = next_u64();
            let (now, sl) = match (exp_t, exp_s) {
                (Some(t), Some(s)) => {
                    let delta_t = (now_seed % 5) as i64 - 2;
                    let delta_s = (sl_seed % 5) as i32 - 2;
                    let t_adj = (t as i64 + delta_t).max(0) as u64;
                    let s_adj = (s as i32 + delta_s).max(0) as u32;
                    (t_adj, s_adj)
                }
                (Some(t), None) => {
                    let delta_t = (now_seed % 5) as i64 - 2;
                    let t_adj = (t as i64 + delta_t).max(0) as u64;
                    (t_adj, (sl_seed % 1_000_000) as u32)
                }
                (None, Some(s)) => {
                    let delta_s = (sl_seed % 5) as i32 - 2;
                    let s_adj = (s as i32 + delta_s).max(0) as u32;
                    ((now_seed % 5_000_000_000) as u64, s_adj)
                }
                (None, None) => {
                    ((now_seed % 5_000_000_000) as u64, (sl_seed % 1_000_000) as u32)
                }
            };

            let got = sub.is_expired(now, sl);
            let want = expected(now, sl, exp_t, exp_s);
            assert_eq!(
                got, want,
                "trial {}: (now={}, sl={}, exp_t={:?}, exp_s={:?})",
                trial, now, sl, exp_t, exp_s
            );
        }
    }
}
