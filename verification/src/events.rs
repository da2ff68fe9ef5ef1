//! What the vault reports of a call.
use crate::records::RecoveryReason;
use crate::types::{Address, Symbol};
use vstd::prelude::*;

verus! {

/// One report.
#[derive(Clone, Copy, Debug, PartialEq, Eq)]
pub enum Event {
    SubscriptionCreated { subscription_id: u32, subscriber: Address, merchant: Address },
    FundsDeposited { subscription_id: u32, payer: Address, amount: i128 },
    DelegatedDeposited { subscription_id: u32, payer: Address, amount: i128 },
    SubscriptionCharged { subscription_id: u32, merchant: Address, amount: i128 },
    UsageCharged { subscription_id: u32, merchant: Address, amount: i128 },
    OneOffCharged { subscription_id: u32, merchant: Address, amount: i128 },
    ChargeFailed { subscription_id: u32, required: i128, available: i128 },
    LifetimeCapReached { subscription_id: u32, lifetime_cap: i128 },
    SubscriptionPaused { subscription_id: u32, by: Address },
    SubscriptionResumed { subscription_id: u32, by: Address },
    SubscriptionCancelled { subscription_id: u32, by: Address },
    SubscriptionArchived { subscription_id: u32, refunded: i128 },
    CancelScheduled { subscription_id: u32, cancel_at: u64 },
    CancelUnscheduled { subscription_id: u32 },
    AutoRenewToggled { subscription_id: u32, enabled: bool, timestamp: u64 },
    ExpirationLedgerSet {
        subscription_id: u32,
        authorizer: Address,
        expires_at_ledger: Option<u32>,
        previous_expires_at_ledger: Option<u32>,
    },
    SubscriberWithdrawn { subscription_id: u32, subscriber: Address, amount: i128 },
    PartialRefund { subscription_id: u32, subscriber: Address, amount: i128 },
    TransferInitiated { subscription_id: u32, from: Address, to: Address },
    TransferAccepted { subscription_id: u32, to: Address },
    TransferVetoed { subscription_id: u32, merchant: Address },
    GraceBoughtOut { subscription_id: u32, charged: i128, premium: i128 },
    CancellationEscrowOpened {
        subscription_id: u32,
        subscriber: Address,
        merchant: Address,
        amount: i128,
        released_at: u64,
    },
    CancellationEscrowReleased { subscription_id: u32, subscriber: Address, amount: i128 },
    CancellationEscrowDisputed { subscription_id: u32, merchant: Address, amount: i128 },
    DisputeOpened {
        dispute_id: u64,
        subscription_id: u32,
        subscriber: Address,
        merchant: Address,
        amount: i128,
    },
    DisputeResponded { dispute_id: u64, responder: Address },
    DisputeResolved { dispute_id: u64, to_subscriber: bool, amount: i128 },
    NonceConsumed { signer: Address, domain: u32, nonce: u64 },
    AdminRotated { old_admin: Address, new_admin: Address, timestamp: u64 },
    EmergencyStopEnabled { admin: Address, timestamp: u64 },
    EmergencyStopDisabled { admin: Address, timestamp: u64 },
    OperatorSet { admin: Address, operator: Address, timestamp: u64 },
    OperatorRemoved { admin: Address, timestamp: u64 },
    OracleLiveness { last_sample_ts: u64, age: u64, healthy: bool, timestamp: u64 },
    MerchantWithdrawn { merchant: Address, token: Address, amount: i128 },
    MerchantBalanceSnapshot { merchant: Address, token: Address, balance: i128 },
    MerchantRefunded { merchant: Address, subscriber: Address, token: Address, amount: i128 },
    MerchantPaused { merchant: Address },
    VacationStarted { merchant: Address, start_ts: u64, end_ts: u64 },
    VacationEnded { merchant: Address },
    SubAccountRegistered { merchant: Address, label: Symbol },
    SubAccountWithdrawn { merchant: Address, label: Symbol, token: Address, amount: i128 },
    BulkOperation { caller: Address, processed: u64, changed: u64 },
    ProposalSubmitted { proposal_id: u32, eta: u64 },
    VoteCast { proposal_id: u32, support: bool },
    VoteLocked { proposal_id: u32, eta: u64, timestamp: u64 },
    ProposalExecuted { proposal_id: u32 },
    ProposalCancelled { proposal_id: u32 },
    MetadataSet { subscription_id: u32, by: Address },
    MetadataSetSigned { subscription_id: u32, signer: Address, nonce: u64 },
    StrandedFundsRecovered {
        token: Address,
        recipient: Address,
        amount: i128,
        reason: RecoveryReason,
    },
}

} // verus!
