//! Which reason a call is refused for where several speak against it: the first, in a fixed order.
use crate::agreement_laws::{is_accepted, law_accepted_tokens_are_those_listed};
use crate::billing::{one_off_refusal, usage_refusal};
use crate::charge_laws::{
    cap_used_up, lemma_parties, lemma_settle_refusal, no_such_sub_account, over_cap, running,
    some_away, some_blocked, some_sum_overflows, some_switched_off,
};
use crate::deposits::{
    deposit_funds_refusal, deposit_refusal, do_deposit_refusal, on_behalf_refusal,
};
use crate::disputes::{
    claim_refusal, lodge_refusal, open_refusal, resolve_refusal, respond_refusal,
};
use crate::funding_laws::{
    law_exposure_counts_balances_and_next_charges, over_credit_limit, short_of_tokens, wallet_full,
};
use crate::governance::{execute_refusal, submit_refusal};
use crate::governance_laws::{all_weight, law_quorum_counts_support, yes_weight};
use crate::idempotency::{served, IDEM_DEPOSIT, IDEM_ONE_OFF};
use crate::lifecycle::{
    accept_refusal, auto_renew_refusal, cancel_refusal, close_refusal, initiate_refusal,
    pause_refusal, refund_refusal, resume_refusal, veto_refusal, withdraw_refusal,
};
use crate::measures::{agrees, away, credit, run_out, sub_credit, switched_off};
use crate::merchant_laws::{has_sub_account, law_signers_must_consent, may_withdraw};
use crate::merchants::{
    merchant_refund_refusal, merchant_withdraw_refusal, sub_withdraw_refusal,
};
use crate::subscriptions::{create_refusal, Terms};
use crate::types::{vault, Address, Bytes32, Error, Symbol};
use crate::vault::State;
use vstd::prelude::*;

verus! {

/// The first reason on a list that holds, from a place on.
pub open spec fn first_from(reasons: Seq<(bool, Error)>, i: int) -> Option<Error>
    decreases reasons.len() - i,
{
    if i < 0 || reasons.len() <= i {
        None
    } else if reasons[i].0 {
        Some(reasons[i].1)
    } else {
        first_from(reasons, i + 1)
    }
}

/// The first reason on a list that holds, if one does.
pub open spec fn first_of(reasons: Seq<(bool, Error)>) -> Option<Error> {
    first_from(reasons, 0)
}

/// The reasons against a deposit into a subscription, whoever pays, in their order.
pub open spec fn deposit_reasons(s: State, id: u32, payer: Address, amount: i128) -> Seq<
    (bool, Error),
> {
    let sub = s.subscriptions[id];
    seq![
        (amount <= 0, Error::InvalidAmount),
        (run_out(s, sub), Error::SubscriptionExpired),
        (sub.status is Cancelled || sub.status is Archived, Error::NotActive),
        (s.blocklist.dom().contains(sub.subscriber), Error::SubscriberBlocklisted),
        (switched_off(s, sub.merchant), Error::MerchantPaused),
        (away(s, sub.merchant, s.ledger.timestamp as int), Error::VacationActive),
        (amount < s.config.min_topup, Error::BelowMinimumTopup),
        (sub.lifetime_cap is Some && amount > sub.lifetime_cap->0, Error::LifetimeCapReached),
        (over_credit_limit(s, id, amount as int), Error::CreditLimitExceeded),
        (sub.prepaid_balance + amount > i128::MAX, Error::Overflow),
        (short_of_tokens(s, sub.token, payer, amount as int), Error::TokenBalance),
        (wallet_full(s, sub.token, payer, vault(), amount as int), Error::Overflow),
    ]
}

/// A deposit is refused for the first reason against it.
pub proof fn law_deposit_reasons(s: State, id: u32, payer: Address, amount: i128)
    requires
        s.subscriptions.dom().finite(),
    ensures
        deposit_refusal(s, id, payer, amount) == first_of(deposit_reasons(s, id, payer, amount)),
{
    reveal_with_fuel(first_from, 14);
    let sub = s.subscriptions[id];
    law_exposure_counts_balances_and_next_charges(s, sub.subscriber, sub.token);
}

/// A subscriber's deposit is refused for the first reason against it, and only then for those that
/// hold whoever pays.
pub proof fn law_subscriber_deposit_reasons(
    s: State,
    who: Address,
    id: u32,
    amount: i128,
    key: Option<Bytes32>,
)
    requires
        !served(s.rings, IDEM_DEPOSIT, id, key),
    ensures
        ({
            let first = first_of(
                seq![
                    (!agrees(s, who), Error::AuthRequired),
                    (s.config.locked, Error::Reentrancy),
                    (s.config.emergency_stop, Error::EmergencyStopActive),
                    (!s.subscriptions.dom().contains(id), Error::NotFound),
                    (who != s.subscriptions[id].subscriber, Error::Unauthorized),
                ],
            );
            do_deposit_refusal(s, who, id, amount, key) == (if first is Some {
                first
            } else {
                deposit_refusal(s, id, who, amount)
            })
        }),
        s.config.emergency_stop ==> deposit_funds_refusal(s, id, amount, key) == Some(
            Error::EmergencyStopActive,
        ),
        !s.config.emergency_stop && !s.subscriptions.dom().contains(id) ==> deposit_funds_refusal(
            s,
            id,
            amount,
            key,
        ) == Some(Error::NotFound),
{
    reveal_with_fuel(first_from, 7);
}

/// A payer's deposit is refused for the first reason against it.
pub proof fn law_payer_deposit_reasons(
    s: State,
    id: u32,
    payer: Address,
    amount: i128,
    key: Option<Bytes32>,
)
    requires
        !served(s.rings, IDEM_DEPOSIT, id, key),
    ensures
        ({
            let g = (s.subscriptions[id].subscriber, payer);
            let first = first_of(
                seq![
                    (!agrees(s, payer), Error::AuthRequired),
                    (s.config.locked, Error::Reentrancy),
                    (s.config.emergency_stop, Error::EmergencyStopActive),
                    (!s.subscriptions.dom().contains(id), Error::NotFound),
                    (amount <= 0, Error::InvalidAmount),
                    (!s.grants.dom().contains(g), Error::DelegatedPayerGrantNotFound),
                    (
                        s.grants[g].expires_at < s.ledger.timestamp,
                        Error::DelegatedPayerGrantExpired,
                    ),
                    (s.grants[g].max_amount < amount, Error::DelegatedPayerAmountExceeded),
                ],
            );
            on_behalf_refusal(s, id, payer, amount, key) == (if first is Some {
                first
            } else {
                deposit_refusal(s, id, payer, amount)
            })
        }),
{
    reveal_with_fuel(first_from, 10);
}

/// A usage charge is refused for the first reason against it; one over the cap is not refused for
/// what the balance lacks.
pub proof fn law_usage_reasons(s: State, id: u32, amount: i128, reference: Option<Seq<u8>>)
    ensures
        ({
            let sub = s.subscriptions[id];
            let within = !over_cap(s, id, amount as int);
            usage_refusal(s, id, amount, reference) == first_of(
                seq![
                    (s.config.emergency_stop, Error::EmergencyStopActive),
                    (!s.subscriptions.dom().contains(id), Error::NotFound),
                    (run_out(s, sub), Error::SubscriptionExpired),
                    (!sub.usage_enabled, Error::UsageNotEnabled),
                    (amount <= 0, Error::InvalidAmount),
                    (
                        reference is Some && s.usage_references.dom().contains((id, reference->0)),
                        Error::Replay,
                    ),
                    (cap_used_up(s, id), Error::LifetimeCapReached),
                    (!running(s, id), Error::NotActive),
                    (some_blocked(s, id), Error::SubscriberBlocklisted),
                    (some_switched_off(s, id), Error::MerchantPaused),
                    (some_away(s, id), Error::VacationActive),
                    (within && sub.prepaid_balance < amount, Error::InsufficientBalance),
                    (within && no_such_sub_account(s, id), Error::NotFound),
                    (within && some_sum_overflows(s, id, amount as int), Error::Overflow),
                ],
            )
        }),
{
    reveal_with_fuel(first_from, 16);
    lemma_parties(s, id);
    if amount > 0 {
        lemma_settle_refusal(s, id, amount);
    }
}

/// A one-off charge is refused for the first reason against it.
pub proof fn law_one_off_reasons(
    s: State,
    id: u32,
    merchant: Address,
    amount: i128,
    key: Option<Bytes32>,
)
    requires
        !served(s.rings, IDEM_ONE_OFF, id, key),
    ensures
        ({
            let sub = s.subscriptions[id];
            one_off_refusal(s, id, merchant, amount, key) == first_of(
                seq![
                    (!agrees(s, merchant), Error::AuthRequired),
                    (s.config.emergency_stop, Error::EmergencyStopActive),
                    (!s.subscriptions.dom().contains(id), Error::NotFound),
                    (merchant != sub.merchant, Error::Unauthorized),
                    (amount <= 0, Error::InvalidAmount),
                    (run_out(s, sub), Error::SubscriptionExpired),
                    (cap_used_up(s, id), Error::LifetimeCapReached),
                    (!running(s, id), Error::NotActive),
                    (some_blocked(s, id), Error::SubscriberBlocklisted),
                    (some_switched_off(s, id), Error::MerchantPaused),
                    (some_away(s, id), Error::VacationActive),
                    (over_cap(s, id, amount as int), Error::LifetimeCapReached),
                    (sub.prepaid_balance < amount, Error::InsufficientBalance),
                    (no_such_sub_account(s, id), Error::NotFound),
                    (some_sum_overflows(s, id, amount as int), Error::Overflow),
                ],
            )
        }),
{
    reveal_with_fuel(first_from, 17);
    lemma_parties(s, id);
    if amount > 0 {
        lemma_settle_refusal(s, id, amount);
    }
}

/// A subscription is refused for the first reason against it.
pub proof fn law_creation_reasons(s: State, t: Terms)
    ensures
        ({
            let now = s.ledger.timestamp;
            create_refusal(s, t) == first_of(
                seq![
                    (!agrees(s, t.subscriber), Error::AuthRequired),
                    (s.config.emergency_stop, Error::EmergencyStopActive),
                    (s.blocklist.dom().contains(t.subscriber), Error::SubscriberBlocklisted),
                    (!is_accepted(s, t.token), Error::TokenNotAccepted),
                    (t.amount <= 0, Error::InvalidAmount),
                    (t.interval_seconds == 0, Error::InvalidInput),
                    (t.lifetime_cap is Some && t.lifetime_cap->0 <= 0, Error::InvalidAmount),
                    (
                        t.expires_at is Some && t.expires_at->0 <= now && 0 < now,
                        Error::InvalidExpiration,
                    ),
                    (
                        t.expires_at_ledger is Some && t.expires_at_ledger->0 <= s.ledger.sequence,
                        Error::InvalidExpiration,
                    ),
                    (s.config.next_subscription_id == u32::MAX, Error::Overflow),
                ],
            )
        }),
{
    reveal_with_fuel(first_from, 12);
    law_accepted_tokens_are_those_listed(s, t.token);
}

/// The calls of a subscription's parties are refused for the first reason against them.
pub proof fn law_party_reasons(s: State, id: u32, who: Address, on: bool)
    ensures
        ({
            let sub = s.subscriptions[id];
            let gone = sub.status is Cancelled || sub.status is Archived;
            let dry = sub.status is GracePeriod || sub.status is InsufficientBalance;
            let stranger = who != sub.subscriber && who != sub.merchant;
            let late = on && !sub.auto_renew && sub.auto_renew_disabled_at is Some
                && sub.auto_renew_disabled_at->0 + sub.interval_seconds < s.ledger.timestamp;
            &&& pause_refusal(s, id, who) == first_of(
                seq![
                    (!agrees(s, who), Error::AuthRequired),
                    (!s.subscriptions.dom().contains(id), Error::NotFound),
                    (stranger, Error::Forbidden),
                    (gone, Error::InvalidStatusTransition),
                    (run_out(s, sub), Error::SubscriptionExpired),
                ],
            )
            &&& resume_refusal(s, id, who) == first_of(
                seq![
                    (!agrees(s, who), Error::AuthRequired),
                    (!s.subscriptions.dom().contains(id), Error::NotFound),
                    (stranger, Error::Forbidden),
                    (gone, Error::InvalidStatusTransition),
                    (run_out(s, sub), Error::SubscriptionExpired),
                    (dry && sub.prepaid_balance < sub.amount, Error::InsufficientBalance),
                ],
            )
            &&& auto_renew_refusal(s, id, who, on) == first_of(
                seq![
                    (!agrees(s, who), Error::AuthRequired),
                    (!s.subscriptions.dom().contains(id), Error::NotFound),
                    (stranger, Error::Forbidden),
                    (gone, Error::InvalidStatusTransition),
                    (run_out(s, sub), Error::SubscriptionExpired),
                    (late, Error::RenewalWindowClosed),
                ],
            )
            &&& sub.status is Cancelled || cancel_refusal(s, id, who) == (if first_of(
                seq![
                    (!agrees(s, who), Error::AuthRequired),
                    (!s.subscriptions.dom().contains(id), Error::NotFound),
                    (stranger, Error::Forbidden),
                    (gone, Error::InvalidStatusTransition),
                    (run_out(s, sub), Error::SubscriptionExpired),
                ],
            ) is Some {
                first_of(
                    seq![
                        (!agrees(s, who), Error::AuthRequired),
                        (!s.subscriptions.dom().contains(id), Error::NotFound),
                        (stranger, Error::Forbidden),
                        (gone, Error::InvalidStatusTransition),
                        (run_out(s, sub), Error::SubscriptionExpired),
                    ],
                )
            } else {
                close_refusal(s, s.config.cancellation, id)
            })
        }),
{
    reveal_with_fuel(first_from, 8);
}

/// A subscriber's withdrawal, and a refund, are refused for the first reason against them.
pub proof fn law_payback_reasons(s: State, id: u32, who: Address, subscriber: Address, amount: i128)
    ensures
        ({
            let sub = s.subscriptions[id];
            let b = sub.prepaid_balance as int;
            let ended = sub.status is Cancelled || sub.status is Archived || run_out(s, sub);
            &&& withdraw_refusal(s, id, who) == first_of(
                seq![
                    (!agrees(s, who), Error::AuthRequired),
                    (s.config.locked, Error::Reentrancy),
                    (s.config.emergency_stop, Error::EmergencyStopActive),
                    (!s.subscriptions.dom().contains(id), Error::NotFound),
                    (who != sub.subscriber, Error::Unauthorized),
                    (!ended, Error::InvalidStatusTransition),
                    (b <= 0, Error::InvalidAmount),
                    (short_of_tokens(s, sub.token, vault(), b), Error::TokenBalance),
                    (wallet_full(s, sub.token, vault(), sub.subscriber, b), Error::Overflow),
                ],
            )
            &&& refund_refusal(s, who, id, subscriber, amount) == first_of(
                seq![
                    (!agrees(s, who), Error::AuthRequired),
                    (s.config.admin != Some(who), Error::Unauthorized),
                    (s.config.locked, Error::Reentrancy),
                    (s.config.emergency_stop, Error::EmergencyStopActive),
                    (!s.subscriptions.dom().contains(id), Error::NotFound),
                    (subscriber != sub.subscriber, Error::Unauthorized),
                    (amount <= 0, Error::InvalidAmount),
                    (sub.prepaid_balance < amount, Error::InsufficientBalance),
                    (short_of_tokens(s, sub.token, vault(), amount as int), Error::TokenBalance),
                    (
                        wallet_full(s, sub.token, vault(), sub.subscriber, amount as int),
                        Error::Overflow,
                    ),
                ],
            )
        }),
{
    reveal_with_fuel(first_from, 12);
}

/// A hand-over is refused, accepted or vetoed for the first reason against it.
pub proof fn law_hand_over_reasons(s: State, id: u32, from: Address, to: Address, until: u64)
    ensures
        ({
            let sub = s.subscriptions[id];
            let o = s.transfers[id];
            &&& initiate_refusal(s, id, from, to, until) == first_of(
                seq![
                    (!agrees(s, from), Error::AuthRequired),
                    (!s.subscriptions.dom().contains(id), Error::NotFound),
                    (from != sub.subscriber, Error::Unauthorized),
                    (to == from, Error::InvalidTransferTarget),
                    (
                        sub.status is Cancelled || sub.status is Expired || sub.status is Archived,
                        Error::InvalidStatusTransition,
                    ),
                    (until <= s.ledger.timestamp, Error::InvalidInput),
                ],
            )
            &&& accept_refusal(s, id, to) == first_of(
                seq![
                    (!agrees(s, to), Error::AuthRequired),
                    (!s.subscriptions.dom().contains(id), Error::NotFound),
                    (!s.transfers.dom().contains(id), Error::TransferIntentNotFound),
                    (to != o.to, Error::Unauthorized),
                    (o.expires_at < s.ledger.timestamp, Error::TransferIntentExpired),
                ],
            )
            &&& veto_refusal(s, id, from) == first_of(
                seq![
                    (!agrees(s, from), Error::AuthRequired),
                    (!s.subscriptions.dom().contains(id), Error::NotFound),
                    (from != sub.merchant, Error::Forbidden),
                    (!s.transfers.dom().contains(id), Error::TransferIntentNotFound),
                ],
            )
        }),
{
    reveal_with_fuel(first_from, 8);
}

/// The reasons against a payment out of a merchant's credit, in their order.
pub open spec fn payment_reasons(
    s: State,
    merchant: Address,
    token: Address,
    to: Address,
    amount: i128,
    agreed: bool,
) -> Seq<(bool, Error)> {
    let there = credit(s, merchant, token);
    seq![
        (!agreed, Error::AuthRequired),
        (s.config.locked, Error::Reentrancy),
        (s.config.emergency_stop, Error::EmergencyStopActive),
        (there <= 0, Error::NotFound),
        (amount <= 0, Error::InvalidAmount),
        (there < amount, Error::InsufficientBalance),
        (short_of_tokens(s, token, vault(), amount as int), Error::TokenBalance),
        (wallet_full(s, token, vault(), to, amount as int), Error::Overflow),
    ]
}

/// A merchant's withdrawal, refund or withdrawal from a sub-account is refused for the first reason
/// against it.
pub proof fn law_merchant_payment_reasons(
    s: State,
    merchant: Address,
    label: Symbol,
    token: Address,
    to: Address,
    amount: i128,
)
    ensures
        merchant_withdraw_refusal(s, merchant, token, amount) == first_of(
            payment_reasons(s, merchant, token, merchant, amount, may_withdraw(s, merchant)),
        ),
        merchant_refund_refusal(s, merchant, to, token, amount) == first_of(
            payment_reasons(s, merchant, token, to, amount, agrees(s, merchant)),
        ),
        sub_withdraw_refusal(s, merchant, label, token, amount) == first_of(
            seq![
                (!agrees(s, merchant), Error::AuthRequired),
                (s.config.locked, Error::Reentrancy),
                (s.config.emergency_stop, Error::EmergencyStopActive),
                (!has_sub_account(s, merchant, label), Error::NotFound),
                (amount <= 0, Error::InvalidAmount),
                (sub_credit(s, merchant, label, token) < amount, Error::InsufficientBalance),
                (short_of_tokens(s, token, vault(), amount as int), Error::TokenBalance),
                (wallet_full(s, token, vault(), merchant, amount as int), Error::Overflow),
            ],
        ),
{
    reveal_with_fuel(first_from, 10);
    law_signers_must_consent(s, merchant);
}

/// What is done about a dispute or an escrow is refused for the first reason against it.
pub proof fn law_dispute_reasons(s: State, who: Address, id: u32, did: u64, amount: i128, to_subscriber: bool)
    ensures
        ({
            let sub = s.subscriptions[id];
            let d = s.disputes[did];
            let e = s.escrows[id];
            let there = s.dispute_ledgers.dom().contains(did);
            let left = s.dispute_ledgers[did].original_amount - s.dispute_ledgers[did].total_disbursed;
            let over = d.status is ResolvedToMerchant || d.status is ResolvedToSubscriber;
            let ripe = d.status is Responded || (d.status is Open && to_subscriber && d.opened_at
                + 604_800 < s.ledger.timestamp);
            &&& open_refusal(s, who, id, amount) == first_of(
                seq![
                    (!agrees(s, who), Error::AuthRequired),
                    (!s.subscriptions.dom().contains(id), Error::NotFound),
                    (who != sub.subscriber, Error::Unauthorized),
                    (s.open_disputes.dom().contains(id), Error::DisputeAlreadyOpen),
                    (amount <= 0, Error::InvalidAmount),
                    (credit(s, sub.merchant, sub.token) < amount, Error::InsufficientBalance),
                    (s.config.next_dispute_id == u64::MAX, Error::Overflow),
                ],
            )
            &&& respond_refusal(s, who, did) == first_of(
                seq![
                    (!agrees(s, who), Error::AuthRequired),
                    (!s.disputes.dom().contains(did), Error::DisputeNotFound),
                    (s.config.admin != Some(who) && who != d.merchant, Error::Unauthorized),
                    (!(d.status is Open), Error::DisputeAlreadyResponded),
                ],
            )
            &&& resolve_refusal(s, who, did, to_subscriber) == first_of(
                seq![
                    (!agrees(s, who), Error::AuthRequired),
                    (s.config.admin != Some(who), Error::Unauthorized),
                    (!s.disputes.dom().contains(did), Error::DisputeNotFound),
                    (there && left <= 0, Error::InsufficientBalance),
                    (over, Error::DisputeAlreadyResolved),
                    (!ripe, Error::DisputeNotResponded),
                    (!there, Error::InsufficientBalance),
                    (left > i128::MAX, Error::Overflow),
                    (to_subscriber && s.config.locked, Error::Reentrancy),
                    (
                        to_subscriber && short_of_tokens(s, d.token, vault(), left),
                        Error::TokenBalance,
                    ),
                    (
                        to_subscriber && wallet_full(s, d.token, vault(), d.subscriber, left),
                        Error::Overflow,
                    ),
                    (
                        !to_subscriber && credit(s, d.merchant, d.token) + left > i128::MAX,
                        Error::Overflow,
                    ),
                ],
            )
            &&& claim_refusal(s, who, id) == first_of(
                seq![
                    (!agrees(s, who), Error::AuthRequired),
                    (s.open_disputes.dom().contains(id), Error::DisputeAlreadyOpen),
                    (!s.escrows.dom().contains(id), Error::EscrowNotFound),
                    (who != e.subscriber, Error::Unauthorized),
                    (s.ledger.timestamp <= e.released_at, Error::EscrowNotReleased),
                    (s.config.locked, Error::Reentrancy),
                    (
                        e.amount < 0 || short_of_tokens(s, e.token, vault(), e.amount as int),
                        Error::TokenBalance,
                    ),
                    (
                        wallet_full(s, e.token, vault(), e.subscriber, e.amount as int),
                        Error::Overflow,
                    ),
                ],
            )
            &&& lodge_refusal(s, who, id) == first_of(
                seq![
                    (!agrees(s, who), Error::AuthRequired),
                    (s.open_disputes.dom().contains(id), Error::DisputeAlreadyOpen),
                    (!s.escrows.dom().contains(id), Error::EscrowNotFound),
                    (who != e.merchant, Error::Unauthorized),
                    (e.released_at <= s.ledger.timestamp, Error::EscrowNotReleased),
                    (s.config.next_dispute_id == u64::MAX, Error::Overflow),
                ],
            )
        }),
{
    reveal_with_fuel(first_from, 14);
}

/// A proposal is not submitted, or not executed, for the first reason against it.
pub proof fn law_proposal_reasons(s: State, id: u32, quorum_bps: u32, eta: u64)
    requires
        s.guardians.dom().finite(),
    ensures
        ({
            let p = s.proposals[id];
            let now = s.ledger.timestamp;
            let reached = 0 < all_weight(s) && p.quorum_bps * all_weight(s) <= yes_weight(s, id)
                * 10_000;
            &&& submit_refusal(s, quorum_bps, eta) == first_of(
                seq![
                    (s.config.admin is None, Error::Unauthorized),
                    (!agrees(s, s.config.admin->0), Error::AuthRequired),
                    (
                        quorum_bps > 10_000 || eta <= now || eta < now
                            + s.config.min_timelock_delay,
                        Error::InvalidInput,
                    ),
                    (s.config.next_proposal_id == u32::MAX, Error::Overflow),
                ],
            )
            &&& execute_refusal(s, id) == first_of(
                seq![
                    (!s.proposals.dom().contains(id), Error::NotFound),
                    (
                        p.executed || now < p.eta || now < p.created_at
                            + s.config.min_timelock_delay,
                        Error::InvalidInput,
                    ),
                    (!reached, Error::QuorumNotReached),
                    (p.kind is RotateAdmin && p.target == vault(), Error::InvalidNewAdmin),
                    (p.kind is SetProtocolFee && p.target3 > 500, Error::InvalidFeeBips),
                ],
            )
        }),
{
    reveal_with_fuel(first_from, 7);
    law_quorum_counts_support(s, id);
}

} // verus!
