//! Sub-accounts of merchants.
use subscription_vault::scenarios::{create_merchant, ledger_at, setup as setup_scene};
use subscription_vault::types::{vault_address, Address, Error, Symbol};
use subscription_vault::vault::Vault;

fn label(text: &[u8]) -> Symbol {
    Symbol::new(text)
}

fn setup() -> (Vault, Address, Address) {
    let scene = setup_scene(ledger_at(0, 0), 6, 1_000_000, 7 * 24 * 60 * 60);
    (scene.vault, scene.admin, scene.token)
}

#[test]
fn register_sub_account_succeeds() {
    let (mut v, _admin, _token) = setup();
    let merchant = create_merchant(&mut v).unwrap();
    let lbl = label(b"sales");

    v.register_sub_account(&merchant, &lbl).unwrap();

    assert_eq!(v.get_sub_account_list(&merchant), vec![lbl.clone()]);
    assert_eq!(v.get_sub_account_balance(&merchant, &lbl), 0);
}

#[test]
fn register_multiple_sub_accounts() {
    let (mut v, _admin, _token) = setup();
    let merchant = create_merchant(&mut v).unwrap();

    let sales = label(b"sales");
    let support = label(b"support");

    v.register_sub_account(&merchant, &sales).unwrap();
    v.register_sub_account(&merchant, &support).unwrap();

    let list = v.get_sub_account_list(&merchant);
    assert_eq!(list.len(), 2);
    assert!(list.contains(&sales));
    assert!(list.contains(&support));
}

#[test]
fn duplicate_label_rejected() {
    let (mut v, _admin, _token) = setup();
    let merchant = create_merchant(&mut v).unwrap();
    let lbl = label(b"sales");

    v.register_sub_account(&merchant, &lbl).unwrap();
    let result = v.register_sub_account(&merchant, &lbl);
    assert_eq!(result, Err(Error::InvalidInput));
}

#[test]
fn empty_label_rejected() {
    let (mut v, _admin, _token) = setup();
    let merchant = create_merchant(&mut v).unwrap();
    let empty = label(b"");

    let result = v.register_sub_account(&merchant, &empty);
    assert_eq!(result, Err(Error::InvalidInput));
}

#[test]
fn uninitialized_merchant_cannot_register_sub_account() {
    let (mut v, _admin, _token) = setup();
    let merchant = v.generate_address();
    let lbl = label(b"sales");

    let result = v.register_sub_account(&merchant, &lbl);
    assert_eq!(result, Err(Error::NotFound));
}

#[test]
fn sub_account_list_defaults_to_empty() {
    let (mut v, _admin, _token) = setup();
    let merchant = create_merchant(&mut v).unwrap();
    assert_eq!(v.get_sub_account_list(&merchant).len(), 0);
}

#[test]
fn sub_account_balance_defaults_to_zero() {
    let (mut v, _admin, _token) = setup();
    let merchant = create_merchant(&mut v).unwrap();
    let lbl = label(b"sales");
    assert_eq!(v.get_sub_account_balance(&merchant, &lbl), 0);
}

#[test]
fn sub_account_balance_zero_for_unregistered_label() {
    let (mut v, _admin, _token) = setup();
    let merchant = create_merchant(&mut v).unwrap();
    let lbl = label(b"ghost");
    assert_eq!(v.get_sub_account_balance(&merchant, &lbl), 0);
}

#[test]
fn withdraw_sub_account_funds_succeeds() {
    let (mut v, _admin, token) = setup();
    let merchant = create_merchant(&mut v).unwrap();

    v.mint(&token, &vault_address(), 1000);

    let lbl = label(b"sales");
    v.register_sub_account(&merchant, &lbl).unwrap();

    v.credit_sub_account(&merchant, &lbl, &token, 500).unwrap();

    let bal_before = v.get_sub_account_balance(&merchant, &lbl);
    assert_eq!(bal_before, 500);

    v.withdraw_sub_account_funds(&merchant, &lbl, &token, 200).unwrap();
    assert_eq!(v.get_sub_account_balance(&merchant, &lbl), 300);
}

#[test]
fn withdraw_entire_sub_account_balance() {
    let (mut v, _admin, token) = setup();
    let merchant = create_merchant(&mut v).unwrap();

    v.mint(&token, &vault_address(), 500);

    let lbl = label(b"sales");
    v.register_sub_account(&merchant, &lbl).unwrap();
    v.credit_sub_account(&merchant, &lbl, &token, 500).unwrap();

    v.withdraw_sub_account_funds(&merchant, &lbl, &token, 500).unwrap();
    assert_eq!(v.get_sub_account_balance(&merchant, &lbl), 0);
}

#[test]
fn withdraw_from_nonexistent_sub_account_rejected() {
    let (mut v, _admin, token) = setup();
    let merchant = create_merchant(&mut v).unwrap();
    let lbl = label(b"ghost");

    let result = v.withdraw_sub_account_funds(&merchant, &lbl, &token, 100);
    assert_eq!(result, Err(Error::NotFound));
}

#[test]
fn withdraw_zero_amount_rejected() {
    let (mut v, _admin, token) = setup();
    let merchant = create_merchant(&mut v).unwrap();
    let lbl = label(b"sales");
    v.register_sub_account(&merchant, &lbl).unwrap();

    let result = v.withdraw_sub_account_funds(&merchant, &lbl, &token, 0);
    assert_eq!(result, Err(Error::InvalidAmount));
}

#[test]
fn withdraw_negative_amount_rejected() {
    let (mut v, _admin, token) = setup();
    let merchant = create_merchant(&mut v).unwrap();
    let lbl = label(b"sales");
    v.register_sub_account(&merchant, &lbl).unwrap();

    let result = v.withdraw_sub_account_funds(&merchant, &lbl, &token, -100);
    assert_eq!(result, Err(Error::InvalidAmount));
}

#[test]
fn withdraw_exceeding_sub_account_balance_rejected() {
    let (mut v, _admin, token) = setup();
    let merchant = create_merchant(&mut v).unwrap();

    v.mint(&token, &vault_address(), 500);

    let lbl = label(b"sales");
    v.register_sub_account(&merchant, &lbl).unwrap();
    v.credit_sub_account(&merchant, &lbl, &token, 100).unwrap();

    let result = v.withdraw_sub_account_funds(&merchant, &lbl, &token, 200);
    assert_eq!(result, Err(Error::InsufficientBalance));
}

#[test]
fn register_sub_account_emits_event() {
    let (mut v, _admin, _token) = setup();
    let merchant = create_merchant(&mut v).unwrap();
    let lbl = label(b"sales");

    v.register_sub_account(&merchant, &lbl).unwrap();
    assert_eq!(v.events.len(), 1);
}

#[test]
fn withdraw_sub_account_funds_emits_event() {
    let (mut v, _admin, token) = setup();
    let merchant = create_merchant(&mut v).unwrap();

    v.mint(&token, &vault_address(), 500);

    let lbl = label(b"sales");
    v.register_sub_account(&merchant, &lbl).unwrap();
    v.credit_sub_account(&merchant, &lbl, &token, 500).unwrap();

    v.withdraw_sub_account_funds(&merchant, &lbl, &token, 200).unwrap();
    assert_eq!(v.events.len(), 1);
}

#[test]
fn register_does_not_affect_parent_balance() {
    let (mut v, _admin, _token) = setup();
    let merchant = create_merchant(&mut v).unwrap();

    let parent_before = v.get_merchant_balance(&merchant);
    v.register_sub_account(&merchant, &label(b"sales")).unwrap();
    let parent_after = v.get_merchant_balance(&merchant);

    assert_eq!(parent_before, parent_after);
}

#[test]
fn sub_account_labels_independent_per_merchant() {
    let (mut v, _admin, _token) = setup();
    let merchant_a = create_merchant(&mut v).unwrap();
    let merchant_b = create_merchant(&mut v).unwrap();

    v.register_sub_account(&merchant_a, &label(b"sales")).unwrap();
    v.register_sub_account(&merchant_b, &label(b"sales")).unwrap();

    assert_eq!(v.get_sub_account_list(&merchant_a).len(), 1);
    assert_eq!(v.get_sub_account_list(&merchant_b).len(), 1);
    assert_eq!(
        v.get_sub_account_balance(&merchant_a, &label(b"sales")),
        0
    );
    assert_eq!(
        v.get_sub_account_balance(&merchant_b, &label(b"sales")),
        0
    );
}

#[test]
fn create_subscription_with_sub_account_label() {
    let (mut v, admin, token) = setup();
    let merchant = create_merchant(&mut v).unwrap();

    v.register_sub_account(&merchant, &label(b"sales")).unwrap();

    v.set_min_topup(&admin, 1).unwrap();
    let subscriber = v.generate_address();

    v.mint(&token, &subscriber, 10000);

    let sub_id = v.create_subscription_with_token(
        &subscriber,
        &merchant,
        &token,
        1000,
        86400,
        false,
        None,
        None,
        None,
        Some(label(b"sales")),
    )
        .unwrap();

    v.deposit_funds(sub_id, 5000, None).unwrap();
    // Nothing is charged before the interval is over.
    v.ledger.timestamp += 86400;
    v.charge_subscription(sub_id, None).unwrap();

    assert_eq!(v.get_sub_account_balance(&merchant, &label(b"sales")), 1000);
}

#[test]
fn create_subscription_without_sub_account_label_leaves_parent_balance() {
    let (mut v, admin, token) = setup();
    let merchant = create_merchant(&mut v).unwrap();

    v.set_min_topup(&admin, 1).unwrap();
    let subscriber = v.generate_address();

    v.mint(&token, &subscriber, 10000);

    let sub_id = v.create_subscription_with_token(
        &subscriber,
        &merchant,
        &token,
        1000,
        86400,
        false,
        None,
        None,
        None,
        None,
    )
        .unwrap();

    v.deposit_funds(sub_id, 5000, None).unwrap();
    // Nothing is charged before the interval is over.
    v.ledger.timestamp += 86400;
    v.charge_subscription(sub_id, None).unwrap();

    assert_eq!(v.get_merchant_balance(&merchant), 1000);
}

#[test]
fn one_off_charge_routes_to_sub_account() {
    let (mut v, admin, token) = setup();
    let merchant = create_merchant(&mut v).unwrap();

    v.register_sub_account(&merchant, &label(b"sales")).unwrap();

    v.set_min_topup(&admin, 1).unwrap();
    let subscriber = v.generate_address();

    v.mint(&token, &subscriber, 10000);

    let sub_id = v.create_subscription_with_token(
        &subscriber,
        &merchant,
        &token,
        1000,
        86400,
        false,
        None,
        None,
        None,
        Some(label(b"sales")),
    )
        .unwrap();

    v.deposit_funds(sub_id, 5000, None).unwrap();

    v.charge_one_off(sub_id, &merchant, 2000, None).unwrap();

    assert_eq!(v.get_sub_account_balance(&merchant, &label(b"sales")), 2000);
    assert_eq!(v.get_merchant_balance(&merchant), 0);
}

#[test]
fn charge_to_unregistered_sub_account_fails() {
    let (mut v, admin, token) = setup();
    let merchant = create_merchant(&mut v).unwrap();

    v.set_min_topup(&admin, 1).unwrap();
    let subscriber = v.generate_address();

    v.mint(&token, &subscriber, 10000);

    let sub_id = v.create_subscription_with_token(
        &subscriber,
        &merchant,
        &token,
        1000,
        86400,
        false,
        None,
        None,
        None,
        Some(label(b"sales")),
    )
        .unwrap();

    v.deposit_funds(sub_id, 5000, None).unwrap();

    // Nothing is charged before the interval is over.
    v.ledger.timestamp += 86400;
    let result = v.charge_subscription(sub_id, None);
    assert_eq!(result, Err(Error::NotFound));
}

#[test]
fn charge_subscription_to_sub_account_updates_earnings() {
    let (mut v, admin, token) = setup();
    let merchant = create_merchant(&mut v).unwrap();

    v.register_sub_account(&merchant, &label(b"sales")).unwrap();

    v.set_min_topup(&admin, 1).unwrap();
    let subscriber = v.generate_address();

    v.mint(&token, &subscriber, 10000);

    let sub_id = v.create_subscription_with_token(
        &subscriber,
        &merchant,
        &token,
        1000,
        86400,
        false,
        None,
        None,
        None,
        Some(label(b"sales")),
    )
        .unwrap();

    v.deposit_funds(sub_id, 5000, None).unwrap();
    // Nothing is charged before the interval is over.
    v.ledger.timestamp += 86400;
    v.charge_subscription(sub_id, None).unwrap();

    let earnings = v.get_merchant_token_earnings(&merchant, &token);
    assert_eq!(earnings.accruals.interval, 1000);
}
