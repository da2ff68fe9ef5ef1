//! Who has to authorise which call.
use subscription_vault::records::SubscriptionStatus;
use subscription_vault::scenarios::{
    create_sub, ledger_at, seed_merchant_balance, setup as setup_scene,
};
use subscription_vault::types::{vault_address, Address, Error};
use subscription_vault::vault::Vault;

const INTERVAL: u64 = 30 * 24 * 60 * 60;
const AMOUNT: i128 = 10_000_000;
const MIN_TOPUP: i128 = 1_000_000;
const DEPOSIT: i128 = 5_000_000;

fn setup() -> (Vault, Address, Address) {
    let scene = setup_scene(ledger_at(0, 0), 6, MIN_TOPUP, 7 * 24 * 60 * 60);
    (scene.vault, scene.token, scene.admin)
}

fn make_subscription(v: &mut Vault) -> (u32, Address, Address) {
    create_sub(v, AMOUNT, INTERVAL, false, None).unwrap()
}

fn host<T>(r: Result<T, Error>) -> T {
    match r {
        Ok(x) => x,
        Err(Error::AuthRequired) => panic!("Error(Auth, InvalidAction)"),
        Err(e) => panic!("Error(Contract, #{})", e.to_code()),
    }
}

#[test]
#[should_panic(expected = "Error(Auth, InvalidAction)")]
fn create_subscription_missing_auth() {
    let mut v = Vault::new(ledger_at(0, 0));
    let admin = v.generate_address();
    let token = v.generate_address();
    let _ = host(v.init(&token, 6, &admin, MIN_TOPUP, 7 * 24 * 60 * 60));
    let subscriber = v.generate_address();
    let merchant = v.generate_address();
    let _ = host(v.create_subscription(
            &subscriber,
            &merchant,
            AMOUNT,
            INTERVAL,
            false,
            None,
            None,
            None,
    ));
}

#[test]
fn create_subscription_correct_auth() {
    let (mut v, _, _) = setup();
    let subscriber = v.generate_address();
    let merchant = v.generate_address();
    let id = v.create_subscription(
        &subscriber,
        &merchant,
        AMOUNT,
        INTERVAL,
        false,
        None,
        None,
        None,
    ).unwrap();
    let sub = v.get_subscription(id).unwrap();
    assert_eq!(sub.subscriber, subscriber);
    assert_eq!(sub.merchant, merchant);
    assert_eq!(sub.status, SubscriptionStatus::Active);
}

#[test]
#[should_panic(expected = "Error(Auth, InvalidAction)")]
fn deposit_funds_missing_auth() {
    let mut v = Vault::new(ledger_at(0, 0));
    let subscriber = v.generate_address();
    let _ = host(v.do_deposit_funds(&subscriber, 0u32, DEPOSIT, None));
}

#[test]
#[should_panic(expected = "Error(Contract, #1001)")]
fn deposit_funds_wrong_subscriber() {
    let (mut v, token, _) = setup();
    let (id, _, _) = make_subscription(&mut v);
    let attacker = v.generate_address();
    v.mint(&token, &attacker, DEPOSIT);
    let _ = host(v.do_deposit_funds(&attacker, id, DEPOSIT, None));
}

#[test]
fn deposit_funds_correct_auth() {
    let (mut v, token, _) = setup();
    let (id, subscriber, _) = make_subscription(&mut v);
    v.mint(&token, &subscriber, DEPOSIT);
    v.deposit_funds(id, DEPOSIT, None).unwrap();
    let sub = v.get_subscription(id).unwrap();
    assert_eq!(sub.prepaid_balance, DEPOSIT);
}

#[test]
fn deposit_funds_uses_subscription_subscriber() {
    let (mut v, token, _) = setup();
    let (id, subscriber, _) = make_subscription(&mut v);
    let attacker = v.generate_address();
    v.mint(&token, &subscriber, DEPOSIT);

    v.deposit_funds(id, DEPOSIT, None).unwrap();

    let sub = v.get_subscription(id).unwrap();
    assert_eq!(sub.prepaid_balance, DEPOSIT);
    assert_ne!(attacker, subscriber);
}

#[test]
#[should_panic(expected = "Error(Auth, InvalidAction)")]
fn cancel_subscription_missing_auth() {
    let mut v = Vault::new(ledger_at(0, 0));
    let authorizer = v.generate_address();
    let _ = host(v.cancel_subscription(0u32, &authorizer));
}

#[test]
#[should_panic(expected = "Error(Contract, #1002)")]
fn cancel_subscription_wrong_authorizer() {
    let (mut v, _, _) = setup();
    let (id, _, _) = make_subscription(&mut v);
    let third_party = v.generate_address();
    let _ = host(v.cancel_subscription(id, &third_party));
}

#[test]
fn cancel_subscription_by_subscriber() {
    let (mut v, _, _) = setup();
    let (id, subscriber, _) = make_subscription(&mut v);
    v.cancel_subscription(id, &subscriber).unwrap();
    assert_eq!(
        v.get_subscription(id).unwrap().status,
        SubscriptionStatus::Cancelled
    );
}

#[test]
fn cancel_subscription_by_merchant() {
    let (mut v, _, _) = setup();
    let (id, _, merchant) = make_subscription(&mut v);
    v.cancel_subscription(id, &merchant).unwrap();
    assert_eq!(
        v.get_subscription(id).unwrap().status,
        SubscriptionStatus::Cancelled
    );
}

#[test]
#[should_panic(expected = "Error(Auth, InvalidAction)")]
fn pause_subscription_missing_auth() {
    let mut v = Vault::new(ledger_at(0, 0));
    let authorizer = v.generate_address();
    let _ = host(v.pause_subscription(0u32, &authorizer));
}

#[test]
#[should_panic(expected = "Error(Contract, #1002)")]
fn pause_subscription_wrong_authorizer() {
    let (mut v, _, _) = setup();
    let (id, _, _) = make_subscription(&mut v);
    let third_party = v.generate_address();
    let _ = host(v.pause_subscription(id, &third_party));
}

#[test]
fn pause_subscription_by_subscriber() {
    let (mut v, _, _) = setup();
    let (id, subscriber, _) = make_subscription(&mut v);
    v.pause_subscription(id, &subscriber).unwrap();
    assert_eq!(
        v.get_subscription(id).unwrap().status,
        SubscriptionStatus::Paused
    );
}

#[test]
fn pause_subscription_by_merchant() {
    let (mut v, _, _) = setup();
    let (id, _, merchant) = make_subscription(&mut v);
    v.pause_subscription(id, &merchant).unwrap();
    assert_eq!(
        v.get_subscription(id).unwrap().status,
        SubscriptionStatus::Paused
    );
}

#[test]
#[should_panic(expected = "Error(Auth, InvalidAction)")]
fn withdraw_merchant_funds_missing_auth() {
    let mut v = Vault::new(ledger_at(0, 0));
    let admin = v.generate_address();
    let token = v.generate_address();
    let _ = host(v.init(&token, 6, &admin, MIN_TOPUP, 7 * 24 * 60 * 60));
    let merchant = v.generate_address();
    let _ = host(v.withdraw_merchant_funds(&merchant, AMOUNT));
}

#[test]
#[should_panic(expected = "Error(Contract, #2001)")]
fn withdraw_merchant_funds_wrong_merchant() {
    let (mut v, _, _) = setup();
    let wrong_merchant = v.generate_address();
    let _ = host(v.withdraw_merchant_funds(&wrong_merchant, AMOUNT));
}

#[test]
fn withdraw_merchant_funds_correct_auth() {
    let (mut v, token, _) = setup();
    let (id, subscriber, merchant) = make_subscription(&mut v);

    v.mint(&token, &subscriber, DEPOSIT);
    v.deposit_funds(id, DEPOSIT, None).unwrap();

    let withdraw_amount: i128 = 1_000_000;
    seed_merchant_balance(&mut v, &merchant, &token, withdraw_amount);
    v.mint(&token, &vault_address(), withdraw_amount);

    let balance_before = v.get_merchant_balance(&merchant);
    assert_eq!(balance_before, withdraw_amount);
    v.withdraw_merchant_funds(&merchant, withdraw_amount).unwrap();
    assert_eq!(v.get_merchant_balance(&merchant), 0);
}

#[test]
fn set_merchant_multisig_rejects_zero_threshold() {
    let (mut v, _, admin) = setup();
    let merchant = v.generate_address();
    let mut signers = Vec::new();
    signers.push(v.generate_address());

    let res = v.set_merchant_multisig(&admin, &merchant, signers, 0u32);
    assert!(res.is_err());
}

#[test]
fn set_merchant_multisig_rejects_threshold_above_signer_count() {
    let (mut v, _, admin) = setup();
    let merchant = v.generate_address();
    let mut signers = Vec::new();
    signers.push(v.generate_address());

    let res = v.set_merchant_multisig(&admin, &merchant, signers, 2u32);
    assert!(res.is_err());
}

#[test]
fn set_merchant_multisig_rejects_duplicate_signers() {
    let (mut v, _, admin) = setup();
    let merchant = v.generate_address();
    let duplicate = v.generate_address();
    let mut signers = Vec::new();
    signers.push(duplicate.clone());
    signers.push(duplicate);

    let res = v.set_merchant_multisig(&admin, &merchant, signers, 2u32);
    assert!(res.is_err());
}

#[test]
fn withdraw_merchant_funds_without_multisig_config_keeps_merchant_auth_fallback() {
    let (mut v, token, _) = setup();
    let merchant = v.generate_address();
    let withdraw_amount: i128 = 1_000_000;

    seed_merchant_balance(&mut v, &merchant, &token, withdraw_amount);
    v.mint(&token, &vault_address(), withdraw_amount);

    v.withdraw_merchant_funds(&merchant, withdraw_amount).unwrap();
    assert_eq!(v.get_merchant_balance(&merchant), 0);
}

#[test]
#[should_panic(expected = "Error(Auth, InvalidAction)")]
fn set_min_topup_missing_auth() {
    let mut v = Vault::new(ledger_at(0, 0));
    let admin = v.generate_address();
    let _ = host(v.set_min_topup(&admin, 500_000i128));
}

#[test]
#[should_panic(expected = "Error(Contract, #1001)")]
fn set_min_topup_wrong_admin() {
    let (mut v, _, _) = setup();
    let wrong_admin = v.generate_address();
    let _ = host(v.set_min_topup(&wrong_admin, 500_000i128));
}

#[test]
fn set_min_topup_correct_auth() {
    let (mut v, _, admin) = setup();
    let new_topup = 2_000_000i128;
    v.set_min_topup(&admin, new_topup).unwrap();
    assert_eq!(v.get_min_topup(), new_topup);
}

#[test]
#[should_panic(expected = "Error(Contract, #3001)")]
fn init_rejects_zero_min_topup() {
    let mut v = Vault::new(ledger_at(0, 0));
    v.allow_all = true;
    let admin = v.generate_address();
    let token = v.generate_address();
    let _ = host(v.init(&token, 6, &admin, 0i128, 7 * 24 * 60 * 60));
}

#[test]
#[should_panic(expected = "Error(Contract, #3001)")]
fn init_rejects_negative_min_topup() {
    let mut v = Vault::new(ledger_at(0, 0));
    v.allow_all = true;
    let admin = v.generate_address();
    let token = v.generate_address();
    let _ = host(v.init(&token, 6, &admin, -1i128, 7 * 24 * 60 * 60));
}

#[test]
#[should_panic(expected = "Error(Contract, #3001)")]
fn set_min_topup_rejects_zero() {
    let (mut v, _, admin) = setup();
    let _ = host(v.set_min_topup(&admin, 0i128));
}

#[test]
#[should_panic(expected = "Error(Contract, #3001)")]
fn set_min_topup_rejects_negative() {
    let (mut v, _, admin) = setup();
    let _ = host(v.set_min_topup(&admin, -1i128));
}

#[test]
fn get_min_topup_returns_stored_value_unchanged() {
    let (mut v, _, admin) = setup();
    assert_eq!(v.get_min_topup(), MIN_TOPUP);
    let new_topup = 3_000_000i128;
    v.set_min_topup(&admin, new_topup).unwrap();
    assert_eq!(v.get_min_topup(), new_topup);
}

#[test]
#[should_panic(expected = "Error(Contract, #1001)")]
fn bulk_deposit_funds_unauthorized_caller() {
    let (mut v, token, _) = setup();
    let (id, subscriber, _) = make_subscription(&mut v);
    v.mint(&token, &subscriber, DEPOSIT);
    host(v.deposit_funds(id, DEPOSIT, None));

    let random_caller = v.generate_address();
    let mut entries = Vec::new();
    entries.push((id, MIN_TOPUP));

    let res = v.bulk_deposit_funds(&random_caller, &entries, 0u64);
    assert!(res.is_err());
    // The refusal ends the call as the host would end it.
    host(res);
}

#[test]
fn bulk_deposit_funds_empty_vector_no_op() {
    let (mut v, _, _admin) = setup();
    let empty: Vec<(u32, i128)> = Vec::new();
    let random = v.generate_address();
    let results = v.bulk_deposit_funds(&random, &empty, 0u64).unwrap();
    assert_eq!(results.len(), 0);
}

#[test]
#[should_panic(expected = "Error(Contract, #1001)")]
fn operator_charge_usage_missing_operator() {
    let (mut v, token, _) = setup();
    let subscriber = v.generate_address();
    let merchant = v.generate_address();

    let sub_id = host(v.create_subscription(
            &subscriber,
            &merchant,
            AMOUNT,
            INTERVAL,
            true,
            None,
            None,
            None,
    ));
    v.mint(&token, &subscriber, DEPOSIT);
    host(v.deposit_funds(sub_id, DEPOSIT, None));

    let random_caller = v.generate_address();
    let _ = host(v.operator_charge_usage(&random_caller, sub_id, 1_000_000i128));
}

#[test]
#[should_panic(expected = "Error(Contract, #1001)")]
fn operator_charge_usage_wrong_operator() {
    let (mut v, token, admin) = setup();
    let subscriber = v.generate_address();
    let merchant = v.generate_address();
    let operator = v.generate_address();
    let wrong_operator = v.generate_address();

    let sub_id = host(v.create_subscription(
            &subscriber,
            &merchant,
            AMOUNT,
            INTERVAL,
            true,
            None,
            None,
            None,
    ));
    v.mint(&token, &subscriber, DEPOSIT);
    host(v.deposit_funds(sub_id, DEPOSIT, None));

    host(v.set_operator(&admin, &operator));

    let _ = host(v.operator_charge_usage(&wrong_operator, sub_id, 1_000_000i128));
}

#[test]
fn operator_charge_usage_correct_operator() {
    let (mut v, token, admin) = setup();
    let subscriber = v.generate_address();
    let merchant = v.generate_address();
    let operator = v.generate_address();

    let sub_id = v.create_subscription(
        &subscriber,
        &merchant,
        AMOUNT,
        INTERVAL,
        true,
        None,
        None,
        None,
    ).unwrap();
    v.mint(&token, &subscriber, DEPOSIT);
    v.deposit_funds(sub_id, DEPOSIT, None).unwrap();

    v.set_operator(&admin, &operator).unwrap();

    let usage = 1_000_000i128;
    v.operator_charge_usage(&operator, sub_id, usage).unwrap();

    let sub = v.get_subscription(sub_id).unwrap();
    assert_eq!(sub.prepaid_balance, DEPOSIT - usage);
}
