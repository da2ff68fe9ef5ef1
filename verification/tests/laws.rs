//! What holds over several calls, on concrete values.
use subscription_vault::admin::CONFIG_COOLDOWN_SECS;
use subscription_vault::disputes::DISPUTE_WINDOW_SECS;
use subscription_vault::merchants::OP_CHARGE;
use subscription_vault::multi_token;
use subscription_vault::mutation_calls::{run_all_mutation_calls, CALL_COUNT};
use subscription_vault::records::{
    CancellationPolicy, ChargeExecutionResult, RecoveryReason, SubscriptionStatus,
};
use subscription_vault::scenarios::{
    amount, create_and_fund_sub, create_merchant, make_key, seed_merchant_balance, setup_env,
    setup_security_env, setup_test_env, status, Scene, THIRTY_DAYS,
};
use subscription_vault::types::{vault_address, Address, Error, Symbol};

const PREPAID: i128 = 50_000_000;

fn funded() -> (Scene, u32, Address, Address) {
    let mut te = setup_env();
    let (id, subscriber, merchant) =
        create_and_fund_sub(&mut te.vault, amount(), THIRTY_DAYS, true, None, PREPAID).unwrap();
    (te, id, subscriber, merchant)
}

fn balanced(te: &Scene) -> bool {
    let r = te.vault.get_token_reconciliation(&te.token).unwrap();
    r.is_balanced && r.recoverable_amount == 0
}

#[test]
fn money_is_conserved_along_a_whole_life() {
    let (mut te, id, subscriber, merchant) = funded();
    te.vault.set_cancellation_policy(&te.admin, CancellationPolicy::Escrow).unwrap();
    assert!(balanced(&te));

    te.vault.ledger.timestamp += THIRTY_DAYS;
    te.vault.charge_subscription(id, None).unwrap();
    assert!(balanced(&te));
    te.vault.charge_usage(id, 1_000_000).unwrap();
    te.vault.charge_one_off(id, &merchant, 2_000_000, None).unwrap();
    assert!(balanced(&te));

    let did = te.vault.open_dispute(&subscriber, id, 5_000_000, None).unwrap();
    assert!(balanced(&te));
    te.vault.ledger.timestamp += DISPUTE_WINDOW_SECS + 1;
    te.vault.resolve_dispute(&te.admin, did, true).unwrap();
    assert!(balanced(&te));

    te.vault.withdraw_merchant_funds(&merchant, 3_000_000).unwrap();
    te.vault.merchant_refund(&merchant, &subscriber, &te.token, 1_000_000).unwrap();
    te.vault.partial_refund(&te.admin, id, &subscriber, 1_000_000).unwrap();
    assert!(balanced(&te));

    te.vault.cancel_subscription(id, &subscriber).unwrap();
    assert!(balanced(&te));
    te.vault.ledger.timestamp += 259_201;
    assert_eq!(te.vault.claim_cancellation_escrow(&subscriber, id), Ok(36_000_000));
    assert!(balanced(&te));

    assert_eq!(te.vault.get_merchant_balance(&merchant), 4_000_000);
    assert_eq!(te.vault.balance(&te.token, &subscriber), 43_000_000);
    assert_eq!(te.vault.balance(&te.token, &merchant), 3_000_000);
    assert_eq!(te.vault.balance(&te.token, &vault_address()), 4_000_000);
}

#[test]
fn recovery_takes_no_more_than_the_surplus() {
    let (mut te, _, subscriber, _) = funded();
    te.vault.mint(&te.token, &vault_address(), 100);
    let reason = RecoveryReason::SystemCorrection;
    assert_eq!(
        te.vault.recover_stranded_funds(&te.admin, &te.token, &subscriber, 101, b"a", reason),
        Err(Error::InsufficientBalance)
    );
    assert_eq!(
        te.vault.recover_stranded_funds(&te.admin, &te.token, &subscriber, 100, b"a", reason),
        Ok(())
    );
    assert!(balanced(&te));
    let mut other = setup_test_env();
    assert_eq!(
        other
            .vault
            .get_token_reconciliation(&other.token)
            .unwrap()
            .recoverable_amount,
        1_000_000_000
    );
    let nobody = other.vault.generate_address();
    assert_eq!(other.vault.get_exposure(&nobody, &other.token), 0);
}

#[test]
fn sub_accounts_are_counted_as_debts() {
    let mut te = setup_env();
    let merchant = create_merchant(&mut te.vault).unwrap();
    let label = Symbol::new(b"sales");
    te.vault.register_sub_account(&merchant, &label).unwrap();
    te.vault.mint(&te.token, &vault_address(), 500);
    te.vault.credit_sub_account(&merchant, &label, &te.token, 500).unwrap();
    assert!(balanced(&te));
    te.vault.withdraw_sub_account_funds(&merchant, &label, &te.token, 200).unwrap();
    assert!(balanced(&te));
    assert_eq!(te.vault.get_sub_account_balance(&merchant, &label), 300);
    assert_eq!(
        te.vault.get_merchant_config(&merchant).unwrap().allowed_operations,
        OP_CHARGE
    );
}

#[test]
fn a_cap_is_never_overrun() {
    let mut te = setup_env();
    let (id, _, merchant) = create_and_fund_sub(
        &mut te.vault,
        amount(),
        THIRTY_DAYS,
        true,
        Some(15_000_000),
        15_000_000,
    )
    .unwrap();
    te.vault.ledger.timestamp += THIRTY_DAYS;
    assert_eq!(te.vault.charge_subscription(id, None), Ok(ChargeExecutionResult::Charged));
    te.vault.charge_usage(id, 5_000_000).unwrap();
    assert_eq!(status(&te.vault, id), SubscriptionStatus::Cancelled);
    assert_eq!(te.vault.charge_usage(id, 1), Err(Error::LifetimeCapReached));
    assert_eq!(te.vault.charge_subscription(id, None), Err(Error::LifetimeCapReached));
    assert_eq!(te.vault.get_merchant_balance(&merchant), 15_000_000);
}

#[test]
fn an_interval_is_charged_once() {
    let (mut te, id, _, merchant) = funded();
    te.vault.ledger.timestamp += THIRTY_DAYS;
    assert_eq!(te.vault.charge_subscription(id, None), Ok(ChargeExecutionResult::Charged));
    assert_eq!(te.vault.charge_subscription(id, None), Err(Error::Replay));
    assert_eq!(te.vault.get_merchant_balance(&merchant), amount());
}

#[test]
fn repeated_requests_change_nothing() {
    let (mut te, id, subscriber, merchant) = funded();
    te.vault.mint(&te.token, &subscriber, 5_000_000);
    for _ in 0..3 {
        te.vault.deposit_funds(id, 5_000_000, Some(make_key(1))).unwrap();
        te.vault.charge_one_off(id, &merchant, 1_000_000, Some(make_key(1))).unwrap();
    }
    assert_eq!(te.vault.get_subscription(id).unwrap().prepaid_balance, PREPAID + 4_000_000);
}

#[test]
fn pausing_and_resuming_changes_nothing_else() {
    let (mut te, id, subscriber, _) = funded();
    let before = te.vault.get_subscription(id).unwrap();
    te.vault.pause_subscription(id, &subscriber).unwrap();
    te.vault.resume_subscription(id, &subscriber).unwrap();
    assert_eq!(te.vault.get_subscription(id).unwrap(), before);
}

#[test]
fn ended_subscriptions_do_not_come_back() {
    let (mut te, id, subscriber, _) = funded();
    te.vault.cancel_subscription(id, &subscriber).unwrap();
    assert!(te.vault.resume_subscription(id, &subscriber).is_err());
    assert!(te.vault.pause_subscription(id, &subscriber).is_err());
    te.vault.cleanup_subscription(id, &subscriber).unwrap();
    assert_eq!(status(&te.vault, id), SubscriptionStatus::Archived);
    assert!(te.vault.deposit_funds(id, 1_000_000, None).is_err());
}

#[test]
fn escrow_is_claimed_or_disputed_not_both() {
    let (mut te, id, subscriber, merchant) = funded();
    te.vault.set_cancellation_policy(&te.admin, CancellationPolicy::Escrow).unwrap();
    te.vault.cancel_subscription(id, &subscriber).unwrap();
    assert_eq!(te.vault.claim_cancellation_escrow(&subscriber, id), Err(Error::EscrowNotReleased));
    te.vault.ledger.timestamp += 259_201;
    assert_eq!(te.vault.lodge_escrow_dispute(&merchant, id), Err(Error::EscrowNotReleased));
    assert_eq!(te.vault.claim_cancellation_escrow(&subscriber, id), Ok(PREPAID));
}

#[test]
fn rotation_hands_everything_over() {
    let mut te = setup_security_env();
    let next = te.vault.generate_address();
    te.vault.rotate_admin(&te.admin, &next, 0).unwrap();
    assert_eq!(te.vault.set_min_topup(&te.admin, 5), Err(Error::Unauthorized));
    assert_eq!(te.vault.set_min_topup(&next, 5), Ok(()));
    assert_eq!(te.vault.rotate_admin(&next, &te.admin, 0), Ok(()));
}

#[test]
fn tokens_do_not_mix() {
    let mut f = multi_token::setup();
    f.vault
        .withdraw_merchant_token_funds(&f.merchant, &f.token_b, multi_token::AMOUNT_B)
        .unwrap();
    let s = multi_token::snapshot(&f.vault, &f.merchant, &f.token_a, &f.token_b, &f.token_c);
    assert_eq!(s.merchant_a, multi_token::AMOUNT_A);
    assert_eq!(s.merchant_b, 0);
    assert_eq!(s.vault_c, multi_token::AMOUNT_C);
    assert_eq!(f.vault.get_admin(), Some(f.admin));
}

fn appoint(te: &mut Scene) -> Address {
    let operator = te.vault.generate_address();
    te.vault.set_operator(&te.admin, &operator).unwrap();
    operator
}

#[test]
fn the_emergency_stop_answers_every_call() {
    let (mut te, id, subscriber, merchant) = funded();
    let operator = appoint(&mut te);
    te.vault.enable_emergency_stop(&te.admin).unwrap();
    let results =
        run_all_mutation_calls(&mut te.vault, id, &subscriber, &merchant, &operator, &te.token);
    assert_eq!(results, vec![Err(Error::EmergencyStopActive); CALL_COUNT]);
    assert_eq!(te.vault.get_subscription(id).unwrap().prepaid_balance, PREPAID);

    te.vault.ledger.timestamp += CONFIG_COOLDOWN_SECS;
    te.vault.disable_emergency_stop(&te.admin).unwrap();
    assert_eq!(te.vault.charge_usage(id, 1_000_000).map(|_| ()), Ok(()));
}

#[test]
fn without_the_stop_every_call_is_answered_for_itself() {
    let (mut te, id, subscriber, merchant) = funded();
    let operator = appoint(&mut te);
    te.vault.mint(&te.token, &subscriber, 1_000_000);
    te.vault
        .create_plan_template(&merchant, 1_000_000, THIRTY_DAYS, false, None)
        .unwrap();
    te.vault.ledger.timestamp += THIRTY_DAYS;
    let results =
        run_all_mutation_calls(&mut te.vault, id, &subscriber, &merchant, &operator, &te.token);
    let mut expected = vec![Ok(()); CALL_COUNT];
    expected[9] = Err(Error::Replay);
    assert_eq!(results, expected);
    assert_eq!(te.vault.get_subscription(id).unwrap().prepaid_balance, 39_500_000);
    assert_eq!(te.vault.get_merchant_balance(&merchant), 10_500_000);
}

#[test]
fn a_locked_vault_moves_nothing() {
    let (mut te, id, subscriber, merchant) = funded();
    seed_merchant_balance(&mut te.vault, &merchant, &te.token, 10);
    te.vault.config.locked = true;
    assert_eq!(te.vault.deposit_funds(id, 1_000_000, None), Err(Error::Reentrancy));
    assert_eq!(
        te.vault.partial_refund(&te.admin, id, &subscriber, 1),
        Err(Error::Reentrancy)
    );
    assert_eq!(te.vault.withdraw_merchant_funds(&merchant, 1), Err(Error::Reentrancy));
}

#[test]
fn a_grant_serves_once() {
    let (mut te, id, subscriber, _) = funded();
    let payer = te.vault.generate_address();
    te.vault.mint(&te.token, &payer, 5_000_000);
    let end = te.vault.ledger.timestamp + 60;
    te.vault.grant_delegated_payer(&subscriber, &payer, end, 2_000_000).unwrap();
    te.vault.deposit_funds_on_behalf(id, &payer, 1_000_000, None).unwrap();
    assert_eq!(
        te.vault.deposit_funds_on_behalf(id, &payer, 1_000_000, None),
        Err(Error::DelegatedPayerGrantNotFound)
    );
    assert_eq!(te.vault.balance(&te.token, &payer), 4_000_000);
}
