//! Fees that the administrator sets for single merchants.
use subscription_vault::merchants::ALL_OPERATIONS;
use subscription_vault::records::UsageLimits;
use subscription_vault::scenarios::{set_balance, setup_env, Scene};
use subscription_vault::types::Address;

const GLOBAL_FEE_BPS: u32 = 500;
const OVERRIDE_FEE_BPS: u32 = 200;
const CHARGE_AMOUNT: i128 = 100_000_000;
const PREPAID: i128 = 1_000_000_000;
const INTERVAL: u64 = 30 * 24 * 60 * 60;

fn setup() -> (Scene, Address) {
    let mut t = setup_env();
    let treasury = t.vault.generate_address();
    t.vault.set_protocol_fee(&t.admin, &treasury, GLOBAL_FEE_BPS).unwrap();
    (t, treasury)
}

fn make_merchant(t: &mut Scene) -> Address {
    let merchant = t.vault.generate_address();
    t.vault
        .initialize_merchant_config(
            &merchant,
            &merchant,
            0,
            ALL_OPERATIONS,
            None,
            b"https://example.com",
        )
        .unwrap();
    merchant
}

fn make_funded_subscription(t: &mut Scene, merchant: &Address) -> u32 {
    let subscriber = t.vault.generate_address();
    let id = t
        .vault
        .create_subscription(&subscriber, merchant, CHARGE_AMOUNT, INTERVAL, false, None, None, None)
        .unwrap();
    set_balance(&mut t.vault, id, PREPAID);
    id
}

fn advance_interval(t: &mut Scene) {
    t.vault.ledger.timestamp += INTERVAL + 1;
}

#[test]
fn test_set_override() {
    let (mut t, _treasury) = setup();
    let merchant = make_merchant(&mut t);

    t.vault.set_merchant_fee_override(&t.admin, &merchant, OVERRIDE_FEE_BPS).unwrap();

    let stored = t.vault.get_merchant_fee_override(&merchant);
    assert_eq!(stored, Some(OVERRIDE_FEE_BPS));
}

#[test]
fn test_override_applied_on_charge() {
    let (mut t, _treasury) = setup();
    let merchant = make_merchant(&mut t);
    let id = make_funded_subscription(&mut t, &merchant);

    t.vault.set_merchant_fee_override(&t.admin, &merchant, OVERRIDE_FEE_BPS).unwrap();

    advance_interval(&mut t);
    t.vault.charge_subscription(id, None).unwrap();

    let merchant_balance = t.vault.get_merchant_balance_by_token(&merchant, &t.token);

    let expected_net = CHARGE_AMOUNT * (10_000 - OVERRIDE_FEE_BPS as i128) / 10_000;
    assert_eq!(
        merchant_balance, expected_net,
        "merchant should receive net after override fee, got {merchant_balance}, expected {expected_net}"
    );
}

#[test]
fn test_clear_override_falls_back_to_global() {
    let (mut t, _treasury) = setup();
    let merchant = make_merchant(&mut t);

    t.vault.set_merchant_fee_override(&t.admin, &merchant, OVERRIDE_FEE_BPS).unwrap();
    t.vault.clear_merchant_fee_override(&t.admin, &merchant).unwrap();

    assert_eq!(t.vault.get_merchant_fee_override(&merchant), None);

    let id = make_funded_subscription(&mut t, &merchant);
    advance_interval(&mut t);
    t.vault.charge_subscription(id, None).unwrap();

    let merchant_balance = t.vault.get_merchant_balance_by_token(&merchant, &t.token);

    let expected_net = CHARGE_AMOUNT * (10_000 - GLOBAL_FEE_BPS as i128) / 10_000;
    assert_eq!(
        merchant_balance, expected_net,
        "after clearing override, merchant should receive global-fee net: got {merchant_balance}, expected {expected_net}"
    );
}

#[test]
fn test_override_greater_than_global_rejected() {
    let (mut t, _treasury) = setup();
    let merchant = make_merchant(&mut t);

    let result = t.vault.set_merchant_fee_override(&t.admin, &merchant, GLOBAL_FEE_BPS + 1);

    assert!(
        result.is_err(),
        "override > global fee should be rejected"
    );
}

#[test]
fn test_override_above_max_fee_bips_rejected() {
    let mut t = setup_env();
    let treasury = t.vault.generate_address();
    t.vault.set_protocol_fee(&t.admin, &treasury, 500).unwrap();
    let merchant = make_merchant(&mut t);

    let result = t.vault.set_merchant_fee_override(&t.admin, &merchant, 10_001u32);
    assert!(result.is_err(), "fee_bps > MAX_FEE_BIPS must be rejected");
}

#[test]
fn test_zero_override_routes_no_fee() {
    let (mut t, _treasury) = setup();
    let merchant = make_merchant(&mut t);
    let id = make_funded_subscription(&mut t, &merchant);

    t.vault.set_merchant_fee_override(&t.admin, &merchant, 0u32).unwrap();

    advance_interval(&mut t);
    t.vault.charge_subscription(id, None).unwrap();

    let merchant_balance = t.vault.get_merchant_balance_by_token(&merchant, &t.token);

    assert_eq!(
        merchant_balance, CHARGE_AMOUNT,
        "zero override: merchant must receive full charge amount"
    );
}

#[test]
fn test_override_non_admin_rejected() {
    let (mut t, _treasury) = setup();
    let merchant = make_merchant(&mut t);
    let stranger = t.vault.generate_address();

    let result = t.vault.set_merchant_fee_override(&stranger, &merchant, OVERRIDE_FEE_BPS);

    assert!(
        result.is_err(),
        "non-admin must not be able to set a fee override"
    );
}

#[test]
fn test_clear_override_non_admin_rejected() {
    let (mut t, _treasury) = setup();
    let merchant = make_merchant(&mut t);
    t.vault.set_merchant_fee_override(&t.admin, &merchant, OVERRIDE_FEE_BPS).unwrap();

    let stranger = t.vault.generate_address();
    let result = t.vault.clear_merchant_fee_override(&stranger, &merchant);

    assert!(result.is_err(), "non-admin must not clear a fee override");
}

#[test]
fn test_clear_idempotent() {
    let (mut t, _treasury) = setup();
    let merchant = make_merchant(&mut t);

    t.vault.clear_merchant_fee_override(&t.admin, &merchant).unwrap();
    assert_eq!(t.vault.get_merchant_fee_override(&merchant), None);
}

#[test]
fn test_usage_charge_respects_override() {
    let (mut t, _treasury) = setup();
    let merchant = make_merchant(&mut t);

    let subscriber = t.vault.generate_address();
    let id = t.vault.create_subscription(
        &subscriber,
        &merchant,
        CHARGE_AMOUNT,
        INTERVAL,
        true,
        None,
        None,
        None,
    ).unwrap();

    t.vault.configure_usage_limits(
        &merchant,
        id,
        UsageLimits { rate_limit_max_calls: None, rate_window_secs: 0, burst_min_interval_secs: 0, usage_cap_units: None },
    ).unwrap();

    set_balance(&mut t.vault, id, PREPAID);

    t.vault.set_merchant_fee_override(&t.admin, &merchant, OVERRIDE_FEE_BPS).unwrap();

    let usage_amount: i128 = 50_000_000;
    t.vault.charge_usage_with_reference(id, usage_amount, b"ref-001").unwrap();

    let merchant_balance = t.vault.get_merchant_balance_by_token(&merchant, &t.token);

    let expected_net = usage_amount * (10_000 - OVERRIDE_FEE_BPS as i128) / 10_000;
    assert_eq!(
        merchant_balance, expected_net,
        "usage charge: merchant net should reflect override fee"
    );
}
