//! Handing a subscription over to another subscriber.
use subscription_vault::scenarios::{ledger_at, setup as setup_scene};
use subscription_vault::types::{Address, Error};
use subscription_vault::vault::Vault;

fn setup_with(min_topup: i128) -> (Vault, Address, Address, Address, Address) {
    let scene = setup_scene(ledger_at(0, 0), 6, min_topup, 86400);
    let mut v = scene.vault;
    let token = scene.token;
    let merchant = v.generate_address();
    let subscriber1 = v.generate_address();
    let subscriber2 = v.generate_address();
    v.mint(&token, &subscriber1, 1000_000_000);
    v.mint(&token, &subscriber2, 1000_000_000);
    (v, token, merchant, subscriber1, subscriber2)
}

#[test]
fn test_happy_path_transfer() {
    // A deposit below the minimum is refused, so the minimum lies below this one.
    let (mut v, token, merchant, sub1, sub2) = setup_with(50_000);

    let sub_id = v.create_subscription_with_token(
        &sub1,
        &merchant,
        &token,
        10_000,
        86400,
        false,
        None,
        None,
        None,
        None,
    ).unwrap();

    v.deposit_funds(sub_id, 50_000, None).unwrap();

    let expires_at = v.ledger.timestamp + 3600;
    v.initiate_transfer(sub_id, &sub1, &sub2, expires_at).unwrap();

    v.accept_transfer(sub_id, &sub2).unwrap();

    let sub = v.get_subscription(sub_id).unwrap();
    assert_eq!(sub.subscriber, sub2);
    assert_eq!(sub.prepaid_balance, 50_000);
}

#[test]
fn test_merchant_veto_before_acceptance() {
    let (mut v, token, merchant, sub1, sub2) = setup_with(100_000);

    let sub_id = v.create_subscription_with_token(
        &sub1,
        &merchant,
        &token,
        10_000,
        86400,
        false,
        None,
        None,
        None,
        None,
    ).unwrap();

    let expires_at = v.ledger.timestamp + 3600;
    v.initiate_transfer(sub_id, &sub1, &sub2, expires_at).unwrap();

    v.veto_transfer(sub_id, &merchant).unwrap();

    let res = v.accept_transfer(sub_id, &sub2);
    assert_eq!(res.unwrap_err().to_code(), Error::TransferIntentNotFound.to_code());
}

#[test]
fn test_merchant_veto_after_acceptance() {
    let (mut v, token, merchant, sub1, sub2) = setup_with(100_000);

    let sub_id = v.create_subscription_with_token(
        &sub1,
        &merchant,
        &token,
        10_000,
        86400,
        false,
        None,
        None,
        None,
        None,
    ).unwrap();

    let expires_at = v.ledger.timestamp + 3600;
    v.initiate_transfer(sub_id, &sub1, &sub2, expires_at).unwrap();

    v.accept_transfer(sub_id, &sub2).unwrap();

    let res = v.veto_transfer(sub_id, &merchant);
    assert_eq!(res.unwrap_err().to_code(), Error::TransferIntentNotFound.to_code());
}

#[test]
fn test_expired_intent() {
    let (mut v, token, merchant, sub1, sub2) = setup_with(100_000);

    let sub_id = v.create_subscription_with_token(
        &sub1,
        &merchant,
        &token,
        10_000,
        86400,
        false,
        None,
        None,
        None,
        None,
    ).unwrap();

    let expires_at = v.ledger.timestamp + 3600;
    v.initiate_transfer(sub_id, &sub1, &sub2, expires_at).unwrap();

    v.set_timestamp(expires_at + 1);

    let res = v.accept_transfer(sub_id, &sub2);
    assert_eq!(res.unwrap_err().to_code(), Error::TransferIntentExpired.to_code());
}

#[test]
fn test_transfer_to_self() {
    let (mut v, token, merchant, sub1, _sub2) = setup_with(100_000);

    let sub_id = v.create_subscription_with_token(
        &sub1,
        &merchant,
        &token,
        10_000,
        86400,
        false,
        None,
        None,
        None,
        None,
    ).unwrap();

    let expires_at = v.ledger.timestamp + 3600;
    let res = v.initiate_transfer(sub_id, &sub1, &sub1, expires_at);
    assert_eq!(res.unwrap_err().to_code(), Error::InvalidTransferTarget.to_code());
}
