//! Recovery of stranded funds, and reconciliation of what is held with what is owed.
use subscription_vault::events::Event;
use subscription_vault::reconciliation::PrepaidQueryRequest;
use subscription_vault::records::RecoveryReason;
use subscription_vault::scenarios::setup_env;
use subscription_vault::types::{vault_address, Address, Error};
use subscription_vault::vault::Vault;

const INTERVAL: u64 = 30 * 24 * 60 * 60;

fn setup() -> (Vault, Address, Address) {
    let scene = setup_env();
    (scene.vault, scene.token, scene.admin)
}

#[test]
fn test_recovery_success_all_reasons() {
    let (mut v, token_addr, admin) = setup();
    let recipient = v.generate_address();

    v.mint(&token_addr, &vault_address(), 100_000_000);

    let reasons = [
        RecoveryReason::UserOverpayment,
        RecoveryReason::FailedTransfer,
        RecoveryReason::ExpiredEscrow,
        RecoveryReason::SystemCorrection,
    ];

    for (i, reason) in reasons.iter().enumerate() {
        let recovery_id = format!("rec_{}", i);
        let amount = 10_000_000i128;

        let balance_before = v.balance(&token_addr, &recipient);

        v.recover_stranded_funds(
            &admin,
            &token_addr,
            &recipient,
            amount,
            recovery_id.as_bytes(),
            *reason,
        ).unwrap();

        let balance_after = v.balance(&token_addr, &recipient);
        assert_eq!(balance_after - balance_before, amount);

        assert_eq!(v.events, vec![Event::StrandedFundsRecovered { token: token_addr, recipient, amount, reason: *reason }]);

    }
}

#[test]
fn test_recovery_unauthorized() {
    let (mut v, token_addr, _admin) = setup();
    let recipient = v.generate_address();
    let fake_admin = v.generate_address();

    v.mint(&token_addr, &vault_address(), 100_000_000);

    let recovery_id = b"rec_unauth";

    let result = v.recover_stranded_funds(
        &fake_admin,
        &token_addr,
        &recipient,
        10_000_000,
        recovery_id,
        RecoveryReason::UserOverpayment,
    );
    assert_eq!(result, Err(Error::Unauthorized));
}

#[test]
fn test_recovery_amount_validation() {
    let (mut v, token_addr, admin) = setup();
    let recipient = v.generate_address();

    v.mint(&token_addr, &vault_address(), 100_000_000);

    let rec_zero = b"rec_zero";
    let result = v.recover_stranded_funds(
        &admin,
        &token_addr,
        &recipient,
        0,
        rec_zero,
        RecoveryReason::UserOverpayment,
    );
    assert_eq!(result, Err(Error::InvalidRecoveryAmount));

    let rec_neg = b"rec_neg";
    let result = v.recover_stranded_funds(
        &admin,
        &token_addr,
        &recipient,
        -100,
        rec_neg,
        RecoveryReason::UserOverpayment,
    );
    assert_eq!(result, Err(Error::InvalidRecoveryAmount));

    let rec_over = b"rec_over";
    let result = v.recover_stranded_funds(
        &admin,
        &token_addr,
        &recipient,
        200_000_000,
        rec_over,
        RecoveryReason::UserOverpayment,
    );
    assert_eq!(result, Err(Error::InsufficientBalance));
}

#[test]
fn test_recovery_replay_protection() {
    let (mut v, token_addr, admin) = setup();
    let recipient = v.generate_address();

    v.mint(&token_addr, &vault_address(), 100_000_000);

    let recovery_id = b"rec_replay";

    v.recover_stranded_funds(
        &admin,
        &token_addr,
        &recipient,
        10_000_000,
        recovery_id,
        RecoveryReason::UserOverpayment,
    ).unwrap();

    let result = v.recover_stranded_funds(
        &admin,
        &token_addr,
        &recipient,
        10_000_000,
        recovery_id,
        RecoveryReason::UserOverpayment,
    );
    assert_eq!(result, Err(Error::Replay));
}

#[test]
fn test_state_consistency() {
    let (mut v, token_addr, admin) = setup();
    let subscriber = v.generate_address();
    let merchant = v.generate_address();
    let recipient = v.generate_address();

    v.mint(&token_addr, &subscriber, 50_000_000);

    let sub_id = v.create_subscription(
        &subscriber,
        &merchant,
        10_000_000,
        INTERVAL,
        false,
        None,
        None,
        None,
    ).unwrap();

    v.deposit_funds(sub_id, 50_000_000i128, None).unwrap();

    let rec_id = b"rec_steal";
    let result = v.recover_stranded_funds(
        &admin,
        &token_addr,
        &recipient,
        1,
        rec_id,
        RecoveryReason::UserOverpayment,
    );
    assert_eq!(result, Err(Error::InsufficientBalance));

    v.mint(&token_addr, &vault_address(), 20_000_000);

    let rec_id2 = b"rec_over";
    let result2 = v.recover_stranded_funds(
        &admin,
        &token_addr,
        &recipient,
        20_000_001,
        rec_id2,
        RecoveryReason::UserOverpayment,
    );
    assert_eq!(result2, Err(Error::InsufficientBalance));

    let rec_id3 = b"rec_exact";
    v.recover_stranded_funds(
        &admin,
        &token_addr,
        &recipient,
        20_000_000,
        rec_id3,
        RecoveryReason::UserOverpayment,
    ).unwrap();

    v.cancel_subscription(sub_id, &subscriber).unwrap();
    v.withdraw_subscriber_funds(sub_id, &subscriber).unwrap();

    let sub_balance = v.balance(&token_addr, &subscriber);
    assert_eq!(sub_balance, 50_000_000);
}

#[test]
fn test_get_token_reconciliation_empty_contract() {
    let (v, token_addr, _admin) = setup();

    let reconciliation = v.get_token_reconciliation(&token_addr).unwrap();

    assert_eq!(reconciliation.token, token_addr);
    assert_eq!(reconciliation.total_prepaid, 0);
    assert_eq!(reconciliation.total_merchant_liabilities, 0);
    assert_eq!(reconciliation.recoverable_amount, 0);
    assert_eq!(reconciliation.contract_balance, 0);
    assert_eq!(reconciliation.computed_total, 0);
    assert!(reconciliation.is_balanced);
    assert_eq!(reconciliation.normalized_prepaid, 0);
    assert_eq!(reconciliation.normalized_merchant_liab, 0);
    assert_eq!(reconciliation.normalized_recoverable, 0);
    assert_eq!(reconciliation.normalized_contract_balance, 0);
    assert_eq!(reconciliation.normalized_computed_total, 0);
}

#[test]
fn test_get_token_reconciliation_with_prepaid() {
    let (mut v, token_addr, _admin) = setup();
    let subscriber = v.generate_address();
    let merchant = v.generate_address();

    v.mint(&token_addr, &subscriber, 50_000_000);
    let sub_id = v.create_subscription(
        &subscriber,
        &merchant,
        10_000_000,
        INTERVAL,
        false,
        None,
        None,
        None,
    ).unwrap();
    v.deposit_funds(sub_id, 50_000_000i128, None).unwrap();

    let reconciliation = v.get_token_reconciliation(&token_addr).unwrap();

    assert_eq!(reconciliation.token, token_addr);
    assert_eq!(reconciliation.total_prepaid, 50_000_000);
    assert_eq!(reconciliation.contract_balance, 50_000_000);
    assert_eq!(reconciliation.total_merchant_liabilities, 0);
    assert_eq!(reconciliation.recoverable_amount, 0);
    assert_eq!(reconciliation.computed_total, 50_000_000);
    assert!(reconciliation.is_balanced);
    assert_eq!(reconciliation.normalized_prepaid, 50_000_000_000);
    assert_eq!(reconciliation.normalized_contract_balance, 50_000_000_000);
    assert_eq!(reconciliation.normalized_merchant_liab, 0);
    assert_eq!(reconciliation.normalized_recoverable, 0);
    assert_eq!(reconciliation.normalized_computed_total, 50_000_000_000);
}

#[test]
fn test_get_token_reconciliation_after_charge() {
    let (mut v, token_addr, _) = setup();
    let subscriber = v.generate_address();
    let merchant = v.generate_address();

    v.mint(&token_addr, &subscriber, 50_000_000);
    let sub_id = v.create_subscription(
        &subscriber,
        &merchant,
        10_000_000,
        INTERVAL,
        false,
        None,
        None,
        None,
    ).unwrap();
    v.deposit_funds(sub_id, 50_000_000i128, None).unwrap();

    v.ledger.timestamp = INTERVAL + 1001;
    v.charge_subscription(sub_id, None).unwrap();

    let reconciliation = v.get_token_reconciliation(&token_addr).unwrap();

    assert_eq!(reconciliation.total_prepaid, 40_000_000);
    assert_eq!(reconciliation.contract_balance, 50_000_000);
    assert_eq!(reconciliation.total_merchant_liabilities, 10_000_000);
    assert_eq!(reconciliation.recoverable_amount, 0);
    assert_eq!(reconciliation.computed_total, 50_000_000);
    assert!(reconciliation.is_balanced);
    assert_eq!(reconciliation.normalized_prepaid, 40_000_000_000);
    assert_eq!(reconciliation.normalized_contract_balance, 50_000_000_000);
    assert_eq!(reconciliation.normalized_merchant_liab, 10_000_000_000);
    assert_eq!(reconciliation.normalized_recoverable, 0);
    assert_eq!(reconciliation.normalized_computed_total, 50_000_000_000);
}

#[test]
fn test_get_token_reconciliation_with_recoverable() {
    let (mut v, token_addr, _admin) = setup();
    let subscriber = v.generate_address();
    let merchant = v.generate_address();

    v.mint(&token_addr, &subscriber, 50_000_000);
    let sub_id = v.create_subscription(
        &subscriber,
        &merchant,
        10_000_000,
        INTERVAL,
        false,
        None,
        None,
        None,
    ).unwrap();
    v.deposit_funds(sub_id, 50_000_000i128, None).unwrap();

    v.mint(&token_addr, &vault_address(), 25_000_000);

    let reconciliation = v.get_token_reconciliation(&token_addr).unwrap();

    assert_eq!(reconciliation.total_prepaid, 50_000_000);
    assert_eq!(reconciliation.contract_balance, 75_000_000);
    assert_eq!(reconciliation.total_merchant_liabilities, 0);
    assert_eq!(reconciliation.recoverable_amount, 25_000_000);
    assert_eq!(reconciliation.computed_total, 75_000_000);
    assert!(reconciliation.is_balanced);
    assert_eq!(reconciliation.normalized_prepaid, 50_000_000_000);
    assert_eq!(reconciliation.normalized_contract_balance, 75_000_000_000);
    assert_eq!(reconciliation.normalized_merchant_liab, 0);
    assert_eq!(reconciliation.normalized_recoverable, 25_000_000_000);
    assert_eq!(reconciliation.normalized_computed_total, 75_000_000_000);
}

#[test]
fn test_get_contract_reconciliation_summary() {
    let (v, token_addr, _admin) = setup();

    let summary = v.get_recon_summary(0, 50).unwrap();

    assert_eq!(summary.token_summaries.len(), 1);
    assert!(summary.next_token_index.is_none());

    let token_summary = &summary.token_summaries[0];
    assert_eq!(token_summary.token, token_addr);
    assert_eq!(token_summary.normalized_prepaid, 0);
    assert_eq!(token_summary.normalized_merchant_liab, 0);
}

#[test]
fn test_get_contract_reconciliation_summary_pagination() {
    let (mut v, _, admin) = setup();

    let token2 = v.generate_address();
    v.add_accepted_token(&admin, &token2, 6).unwrap();

    let summary_page1 = v.get_recon_summary(0, 1).unwrap();
    assert_eq!(summary_page1.token_summaries.len(), 1);
    assert!(summary_page1.next_token_index.is_some());
    assert_eq!(summary_page1.next_token_index.unwrap(), 1);

    let summary_page2 = v.get_recon_summary(1, 1).unwrap();
    assert_eq!(summary_page2.token_summaries.len(), 1);
    assert!(summary_page2.next_token_index.is_none());
}

#[test]
fn test_generate_reconciliation_proof() {
    let (mut v, token_addr, _admin) = setup();
    let subscriber = v.generate_address();
    let merchant = v.generate_address();

    v.mint(&token_addr, &subscriber, 50_000_000);
    let sub_id = v.create_subscription(
        &subscriber,
        &merchant,
        10_000_000,
        INTERVAL,
        false,
        None,
        None,
        None,
    ).unwrap();
    v.deposit_funds(sub_id, 50_000_000i128, None).unwrap();

    v.mint(&token_addr, &vault_address(), 10_000_000);

    let proof = v.generate_reconciliation_proof(&token_addr).unwrap();

    assert_eq!(proof.token, token_addr);
    assert_eq!(proof.contract_balance, 60_000_000);
    assert_eq!(proof.total_prepaid, 50_000_000);
    assert_eq!(proof.total_merchant_liabilities, 0);
    assert_eq!(proof.computed_recoverable, 10_000_000);
    assert_eq!(proof.subscription_count, 1);
    assert!(proof.is_valid);
    assert!(proof.timestamp > 0);
    assert!(proof.ledger_sequence > 0);
}

#[test]
fn test_generate_reconciliation_proof_empty() {
    let (v, token_addr, _admin) = setup();

    let proof = v.generate_reconciliation_proof(&token_addr).unwrap();

    assert_eq!(proof.token, token_addr);
    assert_eq!(proof.contract_balance, 0);
    assert_eq!(proof.total_prepaid, 0);
    assert_eq!(proof.total_merchant_liabilities, 0);
    assert_eq!(proof.computed_recoverable, 0);
    assert_eq!(proof.subscription_count, 0);
    assert!(proof.is_valid);
}

#[test]
fn test_query_prepaid_balances_paginated() {
    let (mut v, token_addr, _admin) = setup();
    let subscriber1 = v.generate_address();
    let subscriber2 = v.generate_address();
    let merchant = v.generate_address();

    v.mint(&token_addr, &subscriber1, 30_000_000);
    v.mint(&token_addr, &subscriber2, 20_000_000);

    let sub1 = v.create_subscription(
        &subscriber1,
        &merchant,
        10_000_000,
        INTERVAL,
        false,
        None,
        None,
        None,
    ).unwrap();
    let sub2 = v.create_subscription(
        &subscriber2,
        &merchant,
        10_000_000,
        INTERVAL,
        false,
        None,
        None,
        None,
    ).unwrap();

    v.deposit_funds(sub1, 30_000_000i128, None).unwrap();
    v.deposit_funds(sub2, 20_000_000i128, None).unwrap();

    let request = PrepaidQueryRequest {
        token: token_addr.clone(),
        start_subscription_id: 0,
        scan_limit: 1,
    };

    let result1 = v.query_prepaid_balances_paginated(&request).unwrap();
    assert_eq!(result1.token, token_addr);
    assert_eq!(result1.partial_total, 30_000_000);
    assert_eq!(result1.subscriptions_count, 1);
    assert!(result1.has_more);
    assert!(result1.next_start_id.is_some());

    let request2 = PrepaidQueryRequest {
        token: token_addr.clone(),
        start_subscription_id: result1.next_start_id.unwrap(),
        scan_limit: 1,
    };

    let result2 = v.query_prepaid_balances_paginated(&request2).unwrap();
    assert_eq!(result2.partial_total, 20_000_000);
    assert_eq!(result2.subscriptions_count, 1);
    assert!(!result2.has_more);
    assert!(result2.next_start_id.is_none());
}

#[test]
fn test_query_prepaid_balances_paginated_empty() {
    let (v, token_addr, _admin) = setup();

    let request = PrepaidQueryRequest {
        token: token_addr.clone(),
        start_subscription_id: 0,
        scan_limit: 100,
    };

    let result = v.query_prepaid_balances_paginated(&request).unwrap();

    assert_eq!(result.token, token_addr);
    assert_eq!(result.partial_total, 0);
    assert_eq!(result.subscriptions_count, 0);
    assert!(!result.has_more);
    assert!(result.next_start_id.is_none());
}

#[test]
fn test_query_prepaid_balances_paginated_wrong_token() {
    let (mut v, token_addr, admin) = setup();
    let subscriber = v.generate_address();
    let merchant = v.generate_address();

    v.mint(&token_addr, &subscriber, 50_000_000);
    let sub_id = v.create_subscription(
        &subscriber,
        &merchant,
        10_000_000,
        INTERVAL,
        false,
        None,
        None,
        None,
    ).unwrap();
    v.deposit_funds(sub_id, 50_000_000i128, None).unwrap();

    let token2 = v.generate_address();
    v.add_accepted_token(&admin, &token2, 6).unwrap();

    let request = PrepaidQueryRequest {
        token: token2.clone(),
        start_subscription_id: 0,
        scan_limit: 100,
    };

    let result = v.query_prepaid_balances_paginated(&request).unwrap();

    assert_eq!(result.token, token2);
    assert_eq!(result.partial_total, 0);
    assert_eq!(result.subscriptions_count, 0);
}

#[test]
fn test_query_prepaid_balances_paginated_scan_limit_capped() {
    let (v, token_addr, _admin) = setup();

    let request = PrepaidQueryRequest {
        token: token_addr.clone(),
        start_subscription_id: 0,
        scan_limit: 1000,
    };

    let result = v.query_prepaid_balances_paginated(&request).unwrap();

    assert_eq!(result.token, token_addr);
    assert_eq!(result.partial_total, 0);
}

#[test]
fn test_full_reconciliation_workflow() {
    let (mut v, token_addr, _) = setup();
    let subscriber1 = v.generate_address();
    let subscriber2 = v.generate_address();
    let merchant = v.generate_address();
    let _recipient = v.generate_address();

    v.mint(&token_addr, &subscriber1, 100_000_000);
    v.mint(&token_addr, &subscriber2, 50_000_000);

    let sub1 = v.create_subscription(
        &subscriber1,
        &merchant,
        10_000_000,
        INTERVAL,
        false,
        None,
        None,
        None,
    ).unwrap();
    let sub2 = v.create_subscription(
        &subscriber2,
        &merchant,
        10_000_000,
        INTERVAL,
        false,
        None,
        None,
        None,
    ).unwrap();

    v.deposit_funds(sub1, 100_000_000i128, None).unwrap();
    v.deposit_funds(sub2, 50_000_000i128, None).unwrap();

    v.mint(&token_addr, &vault_address(), 25_000_000);

    v.ledger.timestamp = INTERVAL + 1001;
    v.charge_subscription(sub1, None).unwrap();

    let reconciliation = v.get_token_reconciliation(&token_addr).unwrap();

    assert_eq!(reconciliation.total_prepaid, 140_000_000);
    assert_eq!(reconciliation.total_merchant_liabilities, 10_000_000);
    assert_eq!(reconciliation.contract_balance, 175_000_000);
    assert_eq!(reconciliation.recoverable_amount, 25_000_000);
    assert!(reconciliation.is_balanced);

    v.withdraw_merchant_funds(&merchant, 10_000_000).unwrap();

    let reconciliation_after = v.get_token_reconciliation(&token_addr).unwrap();

    assert_eq!(reconciliation_after.total_merchant_liabilities, 0);
    assert_eq!(reconciliation_after.contract_balance, 165_000_000);
    assert!(reconciliation_after.is_balanced);

    let proof = v.generate_reconciliation_proof(&token_addr).unwrap();
    assert!(proof.is_valid);
    assert_eq!(proof.subscription_count, 2);

    let request = PrepaidQueryRequest {
        token: token_addr.clone(),
        start_subscription_id: 0,
        scan_limit: 500,
    };
    let prepaid_result = v.query_prepaid_balances_paginated(&request).unwrap();
    assert_eq!(prepaid_result.partial_total, 140_000_000);
    assert_eq!(prepaid_result.subscriptions_count, 2);
}
