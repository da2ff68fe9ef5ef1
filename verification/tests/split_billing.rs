//! Charges that are split between payees.
use subscription_vault::merchants::MerchantConfigUpdate;
use subscription_vault::scenarios::{ledger_at, setup as setup_scene};
use subscription_vault::types::{Address, Error};
use subscription_vault::vault::Vault;

fn setup() -> (Vault, Address, Address) {
    let scene = setup_scene(ledger_at(0, 0), 7, 10, 7 * 24 * 60 * 60);
    (scene.vault, scene.token, scene.admin)
}

#[test]
fn test_create_subscription_with_split_validation() {
    let (mut v, _, _) = setup();

    let subscriber = v.generate_address();
    let merchant = v.generate_address();

    v.initialize_merchant_config(
        &merchant,
        &merchant,
        0i32,
        0x1Fi32,
        None,
        b"https://example.com",
    ).unwrap();

    let payee1 = v.generate_address();
    let payee2 = v.generate_address();

    let mut bad_entries1 = Vec::new();
    bad_entries1.push((payee1.clone(), 5_000u32));
    bad_entries1.push((payee2.clone(), 4_999u32));

    let res = v.create_subscription_with_split(
        &subscriber,
        &merchant,
        100i128,
        3600u64,
        false,
        None,
        None,
        bad_entries1,
    );
    assert_eq!(res, Err(Error::InvalidInput));

    let mut bad_entries2 = Vec::new();
    bad_entries2.push((payee1.clone(), 10_000u32));
    bad_entries2.push((payee2.clone(), 0u32));

    let res2 = v.create_subscription_with_split(
        &subscriber,
        &merchant,
        100i128,
        3600u64,
        false,
        None,
        None,
        bad_entries2,
    );
    assert_eq!(res2, Err(Error::InvalidInput));

    let bad_entries3 = Vec::new();
    let res3 = v.create_subscription_with_split(
        &subscriber,
        &merchant,
        100i128,
        3600u64,
        false,
        None,
        None,
        bad_entries3,
    );
    assert_eq!(res3, Err(Error::InvalidInput));
}

#[test]
fn test_split_charge_distribution_and_dust() {
    let (mut v, token, _) = setup();

    let subscriber = v.generate_address();
    let merchant = v.generate_address();

    v.initialize_merchant_config(
        &merchant,
        &merchant,
        0i32,
        0x1Fi32,
        None,
        b"https://example.com",
    ).unwrap();

    let payee0 = v.generate_address();
    let payee1 = v.generate_address();
    let payee2 = v.generate_address();

    for payee in [&payee0, &payee1, &payee2] {
        v.initialize_merchant_config(
            &payee,
            &payee,
            0i32,
            0x1Fi32,
            None,
            b"https://example.com",
        ).unwrap();
    }

    let mut entries = Vec::new();
    entries.push((payee0.clone(), 3333u32));
    entries.push((payee1.clone(), 3333u32));
    entries.push((payee2.clone(), 3334u32));

    let sub_id = v.create_subscription_with_split(
        &subscriber,
        &merchant,
        100i128,
        3600u64,
        false,
        None,
        None,
        entries,
    ).unwrap();

    v.mint(&token, &subscriber, 10_000i128);
    v.deposit_funds(sub_id, 1_000i128, None).unwrap();

    v.set_timestamp(v.ledger.timestamp + 3601);
    v.charge_subscription(sub_id, None).unwrap();

    let earnings0 = v.get_merchant_token_earnings(&payee0, &token);
    let earnings1 = v.get_merchant_token_earnings(&payee1, &token);
    let earnings2 = v.get_merchant_token_earnings(&payee2, &token);

    assert_eq!(earnings0.accruals.interval, 34);
    assert_eq!(earnings1.accruals.interval, 33);
    assert_eq!(earnings2.accruals.interval, 33);

    let saved_split = v.get_split_payees(sub_id).unwrap();
    assert_eq!(saved_split.len(), 3);
    assert_eq!(saved_split[0].0, payee0);
}

#[test]
fn test_split_payees_paused_or_blocklisted() {
    let (mut v, token, admin) = setup();

    let subscriber = v.generate_address();
    let merchant = v.generate_address();

    v.initialize_merchant_config(
        &merchant,
        &merchant,
        0i32,
        0x1Fi32,
        None,
        b"https://example.com",
    ).unwrap();

    let payee0 = v.generate_address();
    let payee1 = v.generate_address();

    for payee in [&payee0, &payee1] {
        v.initialize_merchant_config(
            &payee,
            &payee,
            0i32,
            0x1Fi32,
            None,
            b"https://example.com",
        ).unwrap();
    }

    let mut entries = Vec::new();
    entries.push((payee0.clone(), 5000u32));
    entries.push((payee1.clone(), 5000u32));

    let sub_id = v.create_subscription_with_split(
        &subscriber,
        &merchant,
        100i128,
        3600u64,
        false,
        None,
        None,
        entries,
    ).unwrap();

    v.mint(&token, &subscriber, 10_000i128);
    v.deposit_funds(sub_id, 1_000i128, None).unwrap();

    v.add_to_blocklist(&admin, &payee1, Some(b"Test blocklist".to_vec())).unwrap();

    v.set_timestamp(v.ledger.timestamp + 3601);
    let res = v.charge_subscription(sub_id, None);
    assert_eq!(res, Err(Error::SubscriberBlocklisted));

    v.remove_from_blocklist(&admin, &payee1).unwrap();

    v.update_merchant_config(
        &payee1,
        MerchantConfigUpdate { payout_address: Some(payee1), fee_bips: None, allowed_operations: None, is_active: None, fee_address: None, redirect_url: None, paused: Some(true) },
    ).unwrap();

    let res_paused = v.charge_subscription(sub_id, None);
    assert_eq!(res_paused, Err(Error::MerchantPaused));
}

#[test]
fn test_split_payees_removal_mid_billing() {
    let (mut v, token, _) = setup();

    let subscriber = v.generate_address();
    let merchant = v.generate_address();

    v.initialize_merchant_config(
        &merchant,
        &merchant,
        0i32,
        0x1Fi32,
        None,
        b"https://example.com",
    ).unwrap();

    let payee0 = v.generate_address();
    let payee1 = v.generate_address();

    for payee in [&payee0, &payee1] {
        v.initialize_merchant_config(
            &payee,
            &payee,
            0i32,
            0x1Fi32,
            None,
            b"https://example.com",
        ).unwrap();
    }

    let mut entries = Vec::new();
    entries.push((payee0.clone(), 5000u32));
    entries.push((payee1.clone(), 5000u32));

    let sub_id = v.create_subscription_with_split(
        &subscriber,
        &merchant,
        100i128,
        3600u64,
        false,
        None,
        None,
        entries,
    ).unwrap();

    v.mint(&token, &subscriber, 10_000i128);
    v.deposit_funds(sub_id, 1_000i128, None).unwrap();

    v.update_split_payees(&subscriber, sub_id, None).unwrap();

    assert!(v.get_split_payees(sub_id).is_none());

    v.set_timestamp(v.ledger.timestamp + 3601);
    v.charge_subscription(sub_id, None).unwrap();

    let merchant_earnings = v.get_merchant_token_earnings(&merchant, &token);
    assert_eq!(merchant_earnings.accruals.interval, 100);

    let payee0_earnings = v.get_merchant_token_earnings(&payee0, &token);
    let payee1_earnings = v.get_merchant_token_earnings(&payee1, &token);
    assert_eq!(payee0_earnings.accruals.interval, 0);
    assert_eq!(payee1_earnings.accruals.interval, 0);
}
