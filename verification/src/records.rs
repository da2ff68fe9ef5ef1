//! The records that the vault keeps.
use crate::types::{Address, Bytes32, Key, Symbol};
use vstd::prelude::*;

verus! {

/// Where a subscription stands in its life.
#[derive(Clone, Copy, Debug, PartialEq, Eq, Structural)]
pub enum SubscriptionStatus {
    Active,
    Paused,
    GracePeriod,
    InsufficientBalance,
    Cancelled,
    Expired,
    Archived,
}

/// Which status may follow which. Staying in a status is always allowed.
pub open spec fn may_follow(from: SubscriptionStatus, to: SubscriptionStatus) -> bool {
    from == to || match from {
        SubscriptionStatus::Active => to is Paused || to is GracePeriod || to
            is InsufficientBalance || to is Cancelled || to is Expired,
        SubscriptionStatus::Paused => to is Active || to is Cancelled || to is Expired,
        SubscriptionStatus::GracePeriod => to is Active || to is InsufficientBalance || to
            is Cancelled || to is Expired || to is Paused,
        SubscriptionStatus::InsufficientBalance => to is Active || to is Cancelled || to
            is Expired || to is Paused,
        SubscriptionStatus::Cancelled => to is Archived,
        SubscriptionStatus::Expired => to is Archived,
        SubscriptionStatus::Archived => false,
    }
}

/// An agreement under which a merchant may charge a subscriber's prepaid balance.
#[derive(Clone, Copy, Debug, PartialEq, Eq)]
pub struct Subscription {
    pub subscriber: Address,
    pub merchant: Address,
    pub token: Address,
    pub amount: i128,
    pub interval_seconds: u64,
    pub last_payment_timestamp: u64,
    pub status: SubscriptionStatus,
    pub prepaid_balance: i128,
    pub usage_enabled: bool,
    pub lifetime_cap: Option<i128>,
    pub lifetime_charged: i128,
    pub start_time: u64,
    pub expires_at: Option<u64>,
    pub grace_start_timestamp: Option<u64>,
    pub cancel_at: Option<u64>,
    pub expires_at_ledger: Option<u32>,
    pub sub_account_label: Option<Symbol>,
    pub proration_enabled: bool,
    pub auto_renew: bool,
    pub auto_renew_disabled_at: Option<u64>,
}

impl View for Subscription {
    type V = Subscription;

    open spec fn view(&self) -> Subscription {
        *self
    }
}

impl Subscription {
    /// Whether the time bound or the ledger bound has been reached. A bound that is not set
    /// never expires the subscription.
    pub open spec fn expired(self, now: u64, sequence: u32) -> bool {
        (self.expires_at matches Some(t) && now >= t) || (self.expires_at_ledger matches Some(l)
            && sequence >= l)
    }

    /// Whether the time bound or the ledger bound has been reached.
    pub fn is_expired(&self, now: u64, sequence: u32) -> (b: bool)
        ensures
            b == self.expired(now, sequence),
    {
        let by_time = match self.expires_at {
            Some(t) => now >= t,
            None => false,
        };
        let by_ledger = match self.expires_at_ledger {
            Some(l) => sequence >= l,
            None => false,
        };
        by_time || by_ledger
    }

    /// Whether the subscription has ended for good.
    pub open spec fn ended(self) -> bool {
        self.status is Cancelled || self.status is Expired || self.status is Archived
    }

    /// Whether the subscription has ended for good.
    pub fn has_ended(&self) -> (b: bool)
        ensures
            b == self.ended(),
    {
        match self.status {
            SubscriptionStatus::Cancelled => true,
            SubscriptionStatus::Expired => true,
            SubscriptionStatus::Archived => true,
            _ => false,
        }
    }

    /// Whether `who` is the subscriber or the merchant.
    pub open spec fn party(self, who: Address) -> bool {
        who == self.subscriber || who == self.merchant
    }

    /// Whether `who` is the subscriber or the merchant.
    pub fn is_party(&self, who: &Address) -> (b: bool)
        ensures
            b == self.party(*who),
    {
        who.same(&self.subscriber) || who.same(&self.merchant)
    }
}

/// What a charge came to.
#[derive(Clone, Copy, Debug, PartialEq, Eq, Structural)]
pub enum ChargeExecutionResult {
    Charged,
    InsufficientBalance,
    LifetimeCapReached,
    Skipped,
    Cancelled,
}

/// What a usage charge came to.
#[derive(Clone, Copy, Debug, PartialEq, Eq, Structural)]
pub enum UsageChargeResult {
    Charged,
    LifetimeCapReached,
}

/// What a merchant has taken in and paid out, in one token.
#[derive(Clone, Copy, Debug, PartialEq, Eq, Structural)]
pub struct TokenEarnings {
    pub accruals: crate::statements::ChargeTotals,
    pub withdrawals: i128,
    pub refunds: i128,
}

impl View for TokenEarnings {
    type V = TokenEarnings;

    open spec fn view(&self) -> TokenEarnings {
        *self
    }
}

/// A cancelled subscription's balance, held back while the merchant may dispute it.
#[derive(Clone, Copy, Debug, PartialEq, Eq)]
pub struct CancellationEscrow {
    pub subscription_id: u32,
    pub amount: i128,
    pub token: Address,
    pub subscriber: Address,
    pub merchant: Address,
    pub released_at: u64,
}

impl View for CancellationEscrow {
    type V = CancellationEscrow;

    open spec fn view(&self) -> CancellationEscrow {
        *self
    }
}

/// Where a dispute stands.
#[derive(Clone, Copy, Debug, PartialEq, Eq, Structural)]
pub enum DisputeStatus {
    Open,
    Responded,
    ResolvedToMerchant,
    ResolvedToSubscriber,
}

/// A claim on money that a merchant was paid or is to be paid.
#[derive(Clone, Copy, Debug, PartialEq, Eq)]
pub struct Dispute {
    pub subscription_id: u32,
    pub subscriber: Address,
    pub merchant: Address,
    pub token: Address,
    pub amount: i128,
    pub status: DisputeStatus,
    pub opened_at: u64,
    pub evidence: Option<Bytes32>,
    pub response: Option<Bytes32>,
}

impl View for Dispute {
    type V = Dispute;

    open spec fn view(&self) -> Dispute {
        *self
    }
}

/// How much of a disputed amount has been paid out.
#[derive(Clone, Copy, Debug, PartialEq, Eq)]
pub struct DisputeEscrowLedger {
    pub token: Address,
    pub original_amount: i128,
    pub total_disbursed: i128,
}

impl View for DisputeEscrowLedger {
    type V = DisputeEscrowLedger;

    open spec fn view(&self) -> DisputeEscrowLedger {
        *self
    }
}

/// A subscriber's offer to hand a subscription over.
#[derive(Clone, Copy, Debug, PartialEq, Eq)]
pub struct TransferIntent {
    pub from: Address,
    pub to: Address,
    pub expires_at: u64,
}

impl View for TransferIntent {
    type V = TransferIntent;

    open spec fn view(&self) -> TransferIntent {
        *self
    }
}

/// Leave for another payer to make one deposit for a subscriber.
#[derive(Clone, Copy, Debug, PartialEq, Eq)]
pub struct DelegatedPayerGrant {
    pub subscriber: Address,
    pub payer: Address,
    pub expires_at: u64,
    pub max_amount: i128,
}

impl View for DelegatedPayerGrant {
    type V = DelegatedPayerGrant;

    open spec fn view(&self) -> DelegatedPayerGrant {
        *self
    }
}

/// A span of time in which a merchant takes no charges, without its end.
#[derive(Clone, Copy, Debug, PartialEq, Eq, Structural)]
pub struct MerchantVacation {
    pub start_ts: u64,
    pub end_ts: u64,
}

impl View for MerchantVacation {
    type V = MerchantVacation;

    open spec fn view(&self) -> MerchantVacation {
        *self
    }
}

impl MerchantVacation {
    /// Whether `now` lies in the span.
    pub open spec fn covers(self, now: u64) -> bool {
        self.start_ts <= now < self.end_ts
    }
}

/// Terms that a merchant offers to any subscriber.
#[derive(Clone, Copy, Debug, PartialEq, Eq)]
pub struct PlanTemplate {
    pub merchant: Address,
    pub token: Address,
    pub amount: i128,
    pub interval_seconds: u64,
    pub usage_enabled: bool,
    pub lifetime_cap: Option<i128>,
}

impl View for PlanTemplate {
    type V = PlanTemplate;

    open spec fn view(&self) -> PlanTemplate {
        *self
    }
}

/// Limits on usage charges that a merchant has set down. The vault keeps them on record; no charge
/// is measured against them.
#[derive(Clone, Copy, Debug, PartialEq, Eq, Structural)]
pub struct UsageLimits {
    pub rate_limit_max_calls: Option<u32>,
    pub rate_window_secs: u64,
    pub burst_min_interval_secs: u64,
    pub usage_cap_units: Option<i128>,
}

impl View for UsageLimits {
    type V = UsageLimits;

    open spec fn view(&self) -> UsageLimits {
        *self
    }
}

/// What a proposal changes.
#[derive(Clone, Copy, Debug, PartialEq, Eq, Structural)]
pub enum ProposalKind {
    RotateAdmin,
    SetProtocolFee,
}

/// A change that guardians vote on.
#[derive(Clone, Copy, Debug, PartialEq, Eq)]
pub struct Proposal {
    pub kind: ProposalKind,
    pub target: Address,
    pub target2: Option<Address>,
    pub target3: u32,
    pub quorum_bps: u32,
    pub created_at: u64,
    pub eta: u64,
    pub executed: bool,
}

impl View for Proposal {
    type V = Proposal;

    open spec fn view(&self) -> Proposal {
        *self
    }
}

/// What becomes of a prepaid balance when its subscription is cancelled.
#[derive(Clone, Copy, Debug, PartialEq, Eq, Structural)]
pub enum CancellationPolicy {
    /// It stays with the subscription until the subscriber withdraws it.
    Retain,
    /// It is held in escrow while the merchant may dispute it.
    Escrow,
    /// It is paid back at once.
    Refund,
}

/// The settings whose changes are spaced by a cooldown.
#[derive(Clone, Copy, Debug, PartialEq, Eq, Structural)]
pub enum ConfigKey {
    EmergencyStop,
    Operator,
    OracleConfig,
    AcceptedTokens,
}

impl View for ConfigKey {
    type V = ConfigKey;

    open spec fn view(&self) -> ConfigKey {
        *self
    }
}

impl Key for ConfigKey {
    fn same(&self, other: &Self) -> (b: bool) {
        *self == *other
    }
}

/// Whether and how the liveness of a price feed is reported.
#[derive(Clone, Copy, Debug, PartialEq, Eq)]
pub struct OracleFeed {
    pub enabled: bool,
    pub oracle: Option<Address>,
    pub max_age_seconds: u64,
}

/// How a merchant wants to be paid and what it lets the vault do. The vault checks these settings
/// when they are made and keeps them on record; no call is allowed or refused by
/// `allowed_operations` or `is_active`.
#[derive(Debug, PartialEq, Eq)]
pub struct MerchantConfig {
    pub payout_address: Address,
    pub fee_bips: i32,
    pub allowed_operations: i32,
    pub is_active: bool,
    pub fee_address: Option<Address>,
    pub redirect_url: Vec<u8>,
}

/// A merchant's settings.
#[verifier::ext_equal]
pub struct MerchantConfigState {
    pub payout_address: Address,
    pub fee_bips: i32,
    pub allowed_operations: i32,
    pub is_active: bool,
    pub fee_address: Option<Address>,
    pub redirect_url: Seq<u8>,
}

impl View for MerchantConfig {
    type V = MerchantConfigState;

    open spec fn view(&self) -> MerchantConfigState {
        MerchantConfigState {
            payout_address: self.payout_address,
            fee_bips: self.fee_bips,
            allowed_operations: self.allowed_operations,
            is_active: self.is_active,
            fee_address: self.fee_address,
            redirect_url: self.redirect_url@,
        }
    }
}

impl MerchantConfig {
    /// A copy of the settings.
    pub fn copy(&self) -> (c: MerchantConfig)
        ensures
            c@ == self@,
    {
        MerchantConfig {
            payout_address: self.payout_address,
            fee_bips: self.fee_bips,
            allowed_operations: self.allowed_operations,
            is_active: self.is_active,
            fee_address: self.fee_address,
            redirect_url: crate::encoding::copy_bytes(self.redirect_url.as_slice()),
        }
    }
}

/// Who must agree to a merchant's withdrawals, and how many of them.
#[derive(Debug, PartialEq, Eq)]
pub struct MerchantMultisig {
    pub signers: Vec<Address>,
    pub threshold: u32,
}

/// Who must agree to a merchant's withdrawals, and how many of them.
#[verifier::ext_equal]
pub struct MultisigState {
    pub signers: Seq<Address>,
    pub threshold: u32,
}

impl View for MerchantMultisig {
    type V = MultisigState;

    open spec fn view(&self) -> MultisigState {
        MultisigState { signers: self.signers@, threshold: self.threshold }
    }
}

/// Why stranded funds are recovered.
#[derive(Clone, Copy, Debug, PartialEq, Eq, Structural)]
pub enum RecoveryReason {
    UserOverpayment,
    FailedTransfer,
    ExpiredEscrow,
    SystemCorrection,
}

/// How one subscription fared in a batch charge.
#[derive(Clone, Copy, Debug, PartialEq, Eq, Structural)]
pub struct BatchChargeResult {
    pub success: bool,
    pub error_code: u32,
}

/// How one subscription fared in a bulk call.
#[derive(Clone, Copy, Debug, PartialEq, Eq, Structural)]
pub struct BulkSubscriptionResult {
    pub subscription_id: u32,
    pub success: bool,
    pub changed: bool,
    pub error_code: u32,
}

} // verus!
