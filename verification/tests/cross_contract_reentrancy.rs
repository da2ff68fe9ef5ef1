//! A token that calls back into the vault, and the lock that keeps it out.
use subscription_vault::admin::CONFIG_COOLDOWN_SECS;
use subscription_vault::malicious_token::{
    deposit_with_callback, withdraw_with_callback, MaliciousToken,
};
use subscription_vault::scenarios::{
    create_sub as create_plain, ledger_at, seed_merchant_balance, setup as setup_scene,
};
use subscription_vault::types::{vault_address, Address, Error};
use subscription_vault::vault::Vault;

fn setup() -> (Vault, Address, Address) {
    let scene = setup_scene(ledger_at(0, 0), 6, 1_000, 7 * 24 * 60 * 60);
    (scene.vault, scene.token, scene.admin)
}

fn create_sub(v: &mut Vault, token: &Address) -> (u32, Address, Address) {
    let (id, subscriber, merchant) = create_plain(v, 10_000, 86_400, false, None).unwrap();
    v.mint(token, &subscriber, 50_000);
    (id, subscriber, merchant)
}

#[test]
fn test_cross_contract_reentrancy_attack_blocked() {
    let (mut v, token, _) = setup();
    let (subscription_id, subscriber, _) = create_sub(&mut v, &token);

    let mut malicious_token = MaliciousToken::init(vault_address());
    malicious_token.mint(&subscriber, 50_000);
    assert!(!malicious_token.reentry_attempted);

    let (result, callback) =
        deposit_with_callback(&mut v, &mut malicious_token, subscription_id, 25_000);
    assert!(result.is_ok(), "Deposit should succeed");
    assert!(malicious_token.reentry_attempted);
    assert_eq!(callback, Some(Err(Error::Reentrancy)));

    let subscription = v.get_subscription(subscription_id).unwrap();
    assert_eq!(subscription.prepaid_balance, 25_000i128, "Balance should be updated exactly once");
    assert_eq!(
        malicious_token.balance(&subscriber),
        25_000i128,
        "Subscriber should have remaining balance"
    );
    assert_eq!(malicious_token.balance(&vault_address()), 25_000);
    assert!(!v.config.locked);
}

#[test]
fn a_token_aimed_elsewhere_does_not_call_back() {
    let (mut v, token, _) = setup();
    let (id, subscriber, _) = create_sub(&mut v, &token);
    let mut honest = MaliciousToken::init(Address::Contract(99));
    honest.mint(&subscriber, 50_000);

    assert_eq!(deposit_with_callback(&mut v, &mut honest, id, 500), (Err(Error::BelowMinimumTopup), None));
    assert_eq!(honest.balance(&subscriber), 50_000);
    assert_eq!(deposit_with_callback(&mut v, &mut honest, id, 25_000), (Ok(()), None));
    assert_eq!(honest.balance(&subscriber), 25_000);

    honest.transfer(&v, &subscriber, &Address::Contract(99), 5_000);
    assert_eq!(honest.balance(&subscriber), 20_000);
    assert!(honest.reentry_attempted);
}

#[test]
fn test_merchant_withdrawal_reentrancy_protection() {
    let (mut v, token, _) = setup();
    let merchant = v.generate_address();
    seed_merchant_balance(&mut v, &merchant, &token, 100_000);
    v.mint(&token, &vault_address(), 100_000);

    let mut malicious_token = MaliciousToken::init(vault_address());
    malicious_token.mint(&vault_address(), 100_000);

    let (result, callback) = withdraw_with_callback(&mut v, &mut malicious_token, &merchant, 50_000);
    assert!(result.is_ok(), "Withdrawal should succeed");
    assert_eq!(callback, Some(Err(Error::Reentrancy)));
    assert!(!v.config.locked);

    assert_eq!(
        v.get_merchant_balance(&merchant),
        50_000i128,
        "Merchant balance should be updated exactly once"
    );
    assert_eq!(
        malicious_token.balance(&merchant),
        50_000i128,
        "Merchant should receive tokens exactly once"
    );
    assert_eq!(v.balance(&token, &merchant), 50_000);

    assert_eq!(
        withdraw_with_callback(&mut v, &mut malicious_token, &merchant, 50_001),
        (Err(Error::InsufficientBalance), None)
    );
    assert_eq!(malicious_token.balance(&merchant), 50_000);

    v.config.locked = true;
    assert_eq!(v.withdraw_merchant_funds(&merchant, 50_000), Err(Error::Reentrancy));
    assert_eq!(v.get_merchant_balance(&merchant), 50_000);
}

#[test]
fn test_same_contract_reentrancy_protection() {
    let (mut v, token, _) = setup();
    let (subscription_id, _, _) = create_sub(&mut v, &token);

    v.deposit_funds(subscription_id, 10_000, None).unwrap();
    let result1 = v.deposit_funds(subscription_id, 5_000, None);
    assert!(result1.is_ok(), "First deposit should succeed");

    let sub = v.get_subscription(subscription_id).unwrap();
    assert_eq!(sub.prepaid_balance, 15_000i128, "Balance should be sum of both deposits");
}

#[test]
fn test_emergency_stop_with_reentrancy_guard() {
    let (mut v, token, admin) = setup();
    let (subscription_id, _, _) = create_sub(&mut v, &token);

    v.deposit_funds(subscription_id, 10_000, None).unwrap();
    v.enable_emergency_stop(&admin).unwrap();

    let result = v.deposit_funds(subscription_id, 5_000, None);
    assert_eq!(result, Err(Error::EmergencyStopActive), "Should be blocked by emergency stop");

    // Settings rest between two changes.
    v.ledger.timestamp += CONFIG_COOLDOWN_SECS;
    v.disable_emergency_stop(&admin).unwrap();

    let result = v.deposit_funds(subscription_id, 5_000, None);
    assert!(result.is_ok(), "Deposit should work after emergency stop disabled");
}
