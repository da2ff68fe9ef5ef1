//! Deposits that another party pays under a grant.
use subscription_vault::events::Event;
use subscription_vault::records::SubscriptionStatus;
use subscription_vault::scenarios::{ledger_at, setup as setup_scene};
use subscription_vault::types::{Address, Bytes32, Error};
use subscription_vault::vault::Vault;

fn setup_with(min_topup: i128) -> (Vault, Address, Address, Address, Address) {
    let scene = setup_scene(ledger_at(0, 0), 6, min_topup, 86400);
    let mut v = scene.vault;
    let token = scene.token;
    let merchant = v.generate_address();
    let subscriber = v.generate_address();
    let payer = v.generate_address();
    v.mint(&token, &subscriber, 1000_000_000);
    v.mint(&token, &payer, 1000_000_000);
    v.mint(&token, &merchant, 100_000_000);
    (v, subscriber, merchant, payer, token)
}

fn create_sub(v: &mut Vault, subscriber: &Address, merchant: &Address, token: &Address) -> u32 {
    v.create_subscription_with_token(
        subscriber, merchant, token, 10_000, 86400, false, None, None, None, None,
    )
    .unwrap()
}

#[test]
fn test_grant_and_deposit_on_behalf() {
    // A deposit below the minimum is refused, so the minimum lies below those made here.
    let (mut v, subscriber, merchant, payer, token) = setup_with(5_000);
    let sub_id = create_sub(&mut v, &subscriber, &merchant, &token);

    let expires_at = v.ledger.timestamp + 3600;
    let max_amount: i128 = 100_000;

    v.grant_delegated_payer(&subscriber, &payer, expires_at, max_amount).unwrap();

    v.deposit_funds_on_behalf(sub_id, &payer, 50_000, None).unwrap();

    let sub = v.get_subscription(sub_id).unwrap();
    assert_eq!(sub.prepaid_balance, 50_000);
}

#[test]
fn test_grant_consumed_after_deposit() {
    // A deposit below the minimum is refused, so the minimum lies below those made here.
    let (mut v, subscriber, merchant, payer, token) = setup_with(5_000);
    let sub_id = create_sub(&mut v, &subscriber, &merchant, &token);

    let expires_at = v.ledger.timestamp + 3600;
    let max_amount: i128 = 100_000;

    v.grant_delegated_payer(&subscriber, &payer, expires_at, max_amount).unwrap();

    v.deposit_funds_on_behalf(sub_id, &payer, 50_000, None).unwrap();

    let res = v.deposit_funds_on_behalf(sub_id, &payer, 10_000, None);
    assert_eq!(
        res.unwrap_err().to_code(),
        Error::DelegatedPayerGrantNotFound.to_code(),
    );
}

#[test]
fn test_expired_grant_rejected() {
    let (mut v, subscriber, merchant, payer, token) = setup_with(100_000);
    let sub_id = create_sub(&mut v, &subscriber, &merchant, &token);

    let expires_at = v.ledger.timestamp + 1;
    v.grant_delegated_payer(&subscriber, &payer, expires_at, 100_000).unwrap();

    v.set_timestamp(expires_at + 1);

    let res = v.deposit_funds_on_behalf(sub_id, &payer, 10_000, None);
    assert_eq!(
        res.unwrap_err().to_code(),
        Error::DelegatedPayerGrantExpired.to_code(),
    );
}

#[test]
fn test_over_limit_deposit_rejected() {
    // A deposit below the minimum is refused, so the minimum lies below those made here.
    let (mut v, subscriber, merchant, payer, token) = setup_with(5_000);
    let sub_id = create_sub(&mut v, &subscriber, &merchant, &token);

    let expires_at = v.ledger.timestamp + 3600;
    let max_amount: i128 = 50_000;

    v.grant_delegated_payer(&subscriber, &payer, expires_at, max_amount).unwrap();

    let res = v.deposit_funds_on_behalf(sub_id, &payer, 100_000, None);
    assert_eq!(
        res.unwrap_err().to_code(),
        Error::DelegatedPayerAmountExceeded.to_code(),
    );

    v.deposit_funds_on_behalf(sub_id, &payer, 50_000, None).unwrap();
    let sub = v.get_subscription(sub_id).unwrap();
    assert_eq!(sub.prepaid_balance, 50_000);
}

#[test]
fn test_unauthorized_payer_no_grant() {
    let (mut v, subscriber, merchant, payer, token) = setup_with(100_000);
    let sub_id = create_sub(&mut v, &subscriber, &merchant, &token);

    let res = v.deposit_funds_on_behalf(sub_id, &payer, 10_000, None);
    assert_eq!(
        res.unwrap_err().to_code(),
        Error::DelegatedPayerGrantNotFound.to_code(),
    );
}

#[test]
fn test_revoke_grant() {
    let (mut v, subscriber, merchant, payer, token) = setup_with(100_000);
    let sub_id = create_sub(&mut v, &subscriber, &merchant, &token);

    let expires_at = v.ledger.timestamp + 3600;
    v.grant_delegated_payer(&subscriber, &payer, expires_at, 100_000).unwrap();

    v.revoke_delegated_payer(&subscriber, &payer).unwrap();

    let res = v.deposit_funds_on_behalf(sub_id, &payer, 10_000, None);
    assert_eq!(
        res.unwrap_err().to_code(),
        Error::DelegatedPayerGrantNotFound.to_code(),
    );
}

#[test]
fn test_revoke_nonexistent_grant_fails() {
    let (mut v, subscriber, _merchant, payer, _token) = setup_with(100_000);
    let res = v.revoke_delegated_payer(&subscriber, &payer);
    assert_eq!(
        res.unwrap_err().to_code(),
        Error::DelegatedPayerGrantNotFound.to_code(),
    );
}

#[test]
fn test_grant_past_expiry_rejected() {
    let (mut v, subscriber, _merchant, _payer, _token) = setup_with(100_000);
    let payer = v.generate_address();

    // At time zero nothing lies in the past.
    v.set_timestamp(1_000);
    let expires_at = v.ledger.timestamp - 1;
    let res = v.grant_delegated_payer(&subscriber, &payer, expires_at, 100_000);
    assert_eq!(
        res.unwrap_err().to_code(),
        Error::InvalidInput.to_code(),
    );
}

#[test]
fn test_grant_zero_max_amount_rejected() {
    let (mut v, subscriber, _merchant, _payer, _token) = setup_with(100_000);
    let payer = v.generate_address();

    let expires_at = v.ledger.timestamp + 3600;
    let res = v.grant_delegated_payer(&subscriber, &payer, expires_at, 0);
    assert_eq!(
        res.unwrap_err().to_code(),
        Error::InvalidAmount.to_code(),
    );
}

#[test]
fn test_grant_self_as_payer_rejected() {
    let (mut v, subscriber, _merchant, _payer, _token) = setup_with(100_000);

    let expires_at = v.ledger.timestamp + 3600;
    let res = v.grant_delegated_payer(&subscriber, &subscriber, expires_at, 100_000);
    assert_eq!(
        res.unwrap_err().to_code(),
        Error::InvalidInput.to_code(),
    );
}

#[test]
fn test_below_min_topup() {
    let (mut v, subscriber, merchant, payer, token) = setup_with(100_000);
    let sub_id = create_sub(&mut v, &subscriber, &merchant, &token);

    let expires_at = v.ledger.timestamp + 3600;
    v.grant_delegated_payer(&subscriber, &payer, expires_at, 1_000_000).unwrap();

    let res = v.deposit_funds_on_behalf(sub_id, &payer, 10, None);
    assert_eq!(
        res.unwrap_err().to_code(),
        Error::BelowMinimumTopup.to_code(),
    );
}

#[test]
fn test_deposit_on_behalf_negative_amount() {
    let (mut v, subscriber, merchant, payer, token) = setup_with(100_000);
    let sub_id = create_sub(&mut v, &subscriber, &merchant, &token);

    let expires_at = v.ledger.timestamp + 3600;
    v.grant_delegated_payer(&subscriber, &payer, expires_at, 1_000_000).unwrap();

    let res = v.deposit_funds_on_behalf(sub_id, &payer, -100, None);
    assert_eq!(
        res.unwrap_err().to_code(),
        Error::InvalidAmount.to_code(),
    );
}

#[test]
fn test_deposit_on_behalf_expired_subscription() {
    let (mut v, subscriber, merchant, payer, token) = setup_with(100_000);
    let sub_id = v.create_subscription_with_token(
        &subscriber,
        &merchant,
        &token,
        10_000,
        86400,
        false,
        None,
        Some(v.ledger.timestamp + 1000),
        None,
        None,
    ).unwrap();

    let expires_at = v.ledger.timestamp + 3600;
    v.grant_delegated_payer(&subscriber, &payer, expires_at, 100_000).unwrap();

    v.set_timestamp(v.ledger.timestamp + 2000);

    let res = v.deposit_funds_on_behalf(sub_id, &payer, 10_000, None);
    assert_eq!(
        res.unwrap_err().to_code(),
        Error::SubscriptionExpired.to_code(),
    );
}

#[test]
fn test_deposit_on_behalf_recovery_ready() {
    // A deposit below the minimum is refused, so the minimum lies below those made here.
    let (mut v, subscriber, merchant, payer, token) = setup_with(5_000);
    let sub_id = create_sub(&mut v, &subscriber, &merchant, &token);
    // The interval and the grace period are over, so the charge finds the balance short.
    v.ledger.timestamp += 3 * 86400;

    let expires_at = v.ledger.timestamp + 3600;
    let max_amount: i128 = 200_000;
    v.grant_delegated_payer(&subscriber, &payer, expires_at, max_amount).unwrap();

    v.deposit_funds(sub_id, 5_000, None).unwrap();

    let _ = v.charge_subscription(sub_id, None).unwrap();

    let sub = v.get_subscription(sub_id).unwrap();
    assert_eq!(sub.status, SubscriptionStatus::InsufficientBalance);

    v.grant_delegated_payer(&subscriber, &payer, expires_at, max_amount).unwrap();

    v.deposit_funds_on_behalf(sub_id, &payer, 10_000, None).unwrap();

    let sub = v.get_subscription(sub_id).unwrap();
    assert_eq!(sub.status, SubscriptionStatus::Active);
}

#[test]
fn test_deposit_on_behalf_idempotency() {
    // A deposit below the minimum is refused, so the minimum lies below those made here.
    let (mut v, subscriber, merchant, payer, token) = setup_with(5_000);
    let sub_id = create_sub(&mut v, &subscriber, &merchant, &token);

    let expires_at = v.ledger.timestamp + 3600;
    let max_amount: i128 = 100_000;
    v.grant_delegated_payer(&subscriber, &payer, expires_at, max_amount).unwrap();

    let idem_key =Bytes32 { bytes: [0u8; 32] };

    v.deposit_funds_on_behalf(sub_id, &payer, 50_000, Some(idem_key.clone())).unwrap();

    let sub = v.get_subscription(sub_id).unwrap();
    assert_eq!(sub.prepaid_balance, 50_000);

    let res = v.deposit_funds_on_behalf(sub_id, &payer, 50_000, Some(idem_key));
    assert_eq!(
        res.unwrap_err().to_code(),
        Error::DelegatedPayerGrantNotFound.to_code(),
    );
}

#[test]
fn test_grant_multiple_payers_independent() {
    // A deposit below the minimum is refused, so the minimum lies below those made here.
    let (mut v, subscriber, merchant, payer, token) = setup_with(5_000);
    let sub_id = create_sub(&mut v, &subscriber, &merchant, &token);

    let payer2 = v.generate_address();
    v.mint(&token, &payer2, 1000_000_000);

    let expires_at = v.ledger.timestamp + 3600;

    v.grant_delegated_payer(&subscriber, &payer, expires_at, 100_000).unwrap();
    v.grant_delegated_payer(&subscriber, &payer2, expires_at, 200_000).unwrap();

    v.deposit_funds_on_behalf(sub_id, &payer, 50_000, None).unwrap();
    v.deposit_funds_on_behalf(sub_id, &payer2, 100_000, None).unwrap();

    let sub = v.get_subscription(sub_id).unwrap();
    assert_eq!(sub.prepaid_balance, 150_000);
}

#[test]
fn test_revoke_only_target_payer() {
    // A deposit below the minimum is refused, so the minimum lies below those made here.
    let (mut v, subscriber, merchant, payer, token) = setup_with(5_000);
    let sub_id = create_sub(&mut v, &subscriber, &merchant, &token);

    let payer2 = v.generate_address();
    v.mint(&token, &payer2, 1000_000_000);

    let expires_at = v.ledger.timestamp + 3600;

    v.grant_delegated_payer(&subscriber, &payer, expires_at, 100_000).unwrap();
    v.grant_delegated_payer(&subscriber, &payer2, expires_at, 100_000).unwrap();

    v.revoke_delegated_payer(&subscriber, &payer).unwrap();

    let res = v.deposit_funds_on_behalf(sub_id, &payer, 10_000, None);
    assert_eq!(
        res.unwrap_err().to_code(),
        Error::DelegatedPayerGrantNotFound.to_code(),
    );

    v.deposit_funds_on_behalf(sub_id, &payer2, 50_000, None).unwrap();
    let sub = v.get_subscription(sub_id).unwrap();
    assert_eq!(sub.prepaid_balance, 50_000);
}

#[test]
fn test_deposit_on_behalf_blocklisted_subscriber() {
    let (mut v, subscriber, merchant, payer, token) = setup_with(100_000);
    let sub_id = create_sub(&mut v, &subscriber, &merchant, &token);

    let expires_at = v.ledger.timestamp + 3600;
    v.grant_delegated_payer(&subscriber, &payer, expires_at, 100_000).unwrap();

    let reason = b"fraud".to_vec();
    v.add_to_blocklist(&subscriber, &subscriber, Some(reason)).unwrap();

    let res = v.deposit_funds_on_behalf(sub_id, &payer, 10_000, None);
    assert_eq!(
        res.unwrap_err().to_code(),
        Error::SubscriberBlocklisted.to_code(),
    );
}

#[test]
fn test_deposit_on_behalf_merchant_paused() {
    let (mut v, subscriber, merchant, payer, token) = setup_with(100_000);
    let sub_id = create_sub(&mut v, &subscriber, &merchant, &token);

    let expires_at = v.ledger.timestamp + 3600;
    v.grant_delegated_payer(&subscriber, &payer, expires_at, 100_000).unwrap();

    v.pause_merchant(&merchant).unwrap();

    let res = v.deposit_funds_on_behalf(sub_id, &payer, 10_000, None);
    assert_eq!(
        res.unwrap_err().to_code(),
        Error::MerchantPaused.to_code(),
    );
}

#[test]
fn test_non_subscriber_cannot_grant() {
    let (mut v, _subscriber, _merchant, _payer, _token) = setup_with(100_000);
    let _attacker = v.generate_address();
    let victim = v.generate_address();
    let payer = v.generate_address();

    v.allow_all = false;

    let expires_at = v.ledger.timestamp + 3600;
    let res = v.grant_delegated_payer(&victim, &payer, expires_at, 100_000);
    assert!(res.is_err());
}

#[test]
fn test_deposit_on_behalf_credit_limit_respected() {
    // A deposit below the minimum is refused, so the minimum lies below those made here.
    let (mut v, subscriber, merchant, payer, token) = setup_with(5_000);
    let sub_id = create_sub(&mut v, &subscriber, &merchant, &token);

    v.set_subscriber_credit_limit(&subscriber, &subscriber, &token, 20_000).unwrap();

    let expires_at = v.ledger.timestamp + 3600;
    v.grant_delegated_payer(&subscriber, &payer, expires_at, 100_000).unwrap();

    v.deposit_funds_on_behalf(sub_id, &payer, 10_000, None).unwrap();

    let res = v.deposit_funds_on_behalf(sub_id, &payer, 50_000, None);
    assert_eq!(
        res.unwrap_err().to_code(),
        Error::DelegatedPayerGrantNotFound.to_code(),
    );
}

#[test]
fn test_deposit_on_behalf_lifetime_cap_respected() {
    // A deposit below the minimum is refused, so the minimum lies below those made here.
    let (mut v, subscriber, merchant, payer, token) = setup_with(5_000);
    let sub_id = v.create_subscription_with_token(
        &subscriber,
        &merchant,
        &token,
        10_000,
        86400,
        false,
        Some(50_000i128),
        None,
        None,
        None,
    ).unwrap();

    let expires_at = v.ledger.timestamp + 3600;
    v.grant_delegated_payer(&subscriber, &payer, expires_at, 100_000).unwrap();

    v.deposit_funds_on_behalf(sub_id, &payer, 50_000, None).unwrap();

    let sub = v.get_subscription(sub_id).unwrap();
    assert_eq!(sub.prepaid_balance, 50_000);
}

#[test]
fn test_query_grant_readable() {
    let (mut v, subscriber, _merchant, _payer, _token) = setup_with(100_000);
    let payer = v.generate_address();

    let expires_at = v.ledger.timestamp + 3600;
    v.grant_delegated_payer(&subscriber, &payer, expires_at, 100_000).unwrap();

    let grant = v.grants.get(&(subscriber, payer)).unwrap();
    assert_eq!(grant.subscriber, subscriber);
    assert_eq!(grant.payer, payer);
    assert_eq!(grant.expires_at, expires_at);
    assert_eq!(grant.max_amount, 100_000);
}

#[test]
fn test_deposit_on_behalf_events_emitted() {
    // A deposit below the minimum is refused, so the minimum lies below those made here.
    let (mut v, subscriber, merchant, payer, token) = setup_with(5_000);
    let sub_id = create_sub(&mut v, &subscriber, &merchant, &token);

    let expires_at = v.ledger.timestamp + 3600;
    v.grant_delegated_payer(&subscriber, &payer, expires_at, 100_000).unwrap();

    let _sub_before = v.get_subscription(sub_id).unwrap();

    v.deposit_funds_on_behalf(sub_id, &payer, 50_000, None).unwrap();

    let _sub_after = v.get_subscription(sub_id).unwrap();

    let has_deposit_event = v.events.contains(&Event::DelegatedDeposited { subscription_id: sub_id, payer, amount: 50_000 });
    assert!(has_deposit_event, "Expected delegated_deposited event");
}

#[test]
fn test_unauthorized_payer_different_subscriber() {
    let (mut v, subscriber, merchant, _payer, token) = setup_with(100_000);
    let sub_id = create_sub(&mut v, &subscriber, &merchant, &token);

    let other = v.generate_address();
    let other_payer = v.generate_address();

    let expires_at = v.ledger.timestamp + 3600;
    v.grant_delegated_payer(&subscriber, &other_payer, expires_at, 100_000).unwrap();

    let res = v.deposit_funds_on_behalf(sub_id, &other, 10_000, None);
    assert_eq!(
        res.unwrap_err().to_code(),
        Error::DelegatedPayerGrantNotFound.to_code(),
    );
}

#[test]
fn test_deposit_on_behalf_wrong_subscription() {
    // A deposit below the minimum is refused, so the minimum lies below those made here.
    let (mut v, subscriber, merchant, payer, token) = setup_with(5_000);
    let sub_id_1 = create_sub(&mut v, &subscriber, &merchant, &token);
    let sub_id_2 = create_sub(&mut v, &subscriber, &merchant, &token);

    let expires_at = v.ledger.timestamp + 3600;
    v.grant_delegated_payer(&subscriber, &payer, expires_at, 100_000).unwrap();

    v.deposit_funds_on_behalf(sub_id_1, &payer, 50_000, None).unwrap();

    let res = v.deposit_funds_on_behalf(sub_id_2, &payer, 10_000, None);
    assert_eq!(
        res.unwrap_err().to_code(),
        Error::DelegatedPayerGrantNotFound.to_code(),
    );
}
