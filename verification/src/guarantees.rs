//! What the vault guarantees to each of its parties.
use crate::accounts::{finite, holdings, liabilities};
use crate::admin::{
    accept_token_refusal, fee_refusal, min_topup_refusal, operator_refusal, operator_removed,
    operator_set_refusal, override_refusal, rotate_refusal, setting_refusal,
};
use crate::batch::{
    cancel_item, cancelled_in_turn, operator_batch_refusal, pause_item, paused_in_turn, succeeded,
};
use crate::billing::{
    after_path, cancel_due, charge_done, charge_path, is_due, one_off_charged,
    one_off_refusal, parties_refusal, usage_charged, usage_refusal, ChargePath,
};
use crate::buyout::{bought_out, buyout_refusal};
use crate::charging::{
    cap_hit, fee_bps, lemma_payouts, net_amount, payout_sum, payouts, settle_refusal, settled,
    to_sub_account,
};
use crate::deposits::{do_deposit_refusal, on_behalf_refusal};
use crate::disputes::{claim_refusal, lodge_refusal, open_refusal, resolve_refusal, respond_refusal};
use crate::governance::{
    execute_refusal, executed, proposal_cancelled, vote_late, vote_locked, vote_refusal,
};
use crate::idempotency::{served, IDEM_BUYOUT};
use crate::lifecycle::{
    accept_refusal, accepted, auto_renew_refusal, auto_renew_set, cancel_refusal, initiate_refusal,
    offered, pause_refusal, refund_refusal, resume_refusal, schedule_refusal,
    scheduled, unscheduled, veto_refusal, vetoed, withdraw_refusal,
};
use crate::merchants::{merchant_refund_refusal, merchant_withdraw_refusal, merchant_withdrawn};
use crate::reconciliation::{recon_of, recon_refusal, recover_refusal};
use crate::records::{ConfigKey, Subscription};
use crate::statements::BillingChargeKind;
use crate::subscriptions::{create_refusal, Terms};
use crate::types::{Address, Bytes32, Error};
use crate::vault::State;
use vstd::prelude::*;

verus! {

/// Nobody is charged, paid or moved without their word: a call in the name of an address that has
/// not authorised it is refused, whatever it asks for.
pub proof fn law_nothing_happens_without_authorisation(
    s: State,
    who: Address,
    t: Terms,
    id: u32,
    did: u64,
    amount: i128,
    time: u64,
    key: Option<Bytes32>,
    other: Address,
)
    requires
        !s.authorized(who),
        t.subscriber == who,
        !s.multisigs.dom().contains(who),
    ensures
        create_refusal(s, t) == Some(Error::AuthRequired),
        do_deposit_refusal(s, who, id, amount, key) == Some(Error::AuthRequired),
        on_behalf_refusal(s, id, who, amount, key) == Some(Error::AuthRequired),
        pause_refusal(s, id, who) == Some(Error::AuthRequired),
        resume_refusal(s, id, who) == Some(Error::AuthRequired),
        cancel_refusal(s, id, who) == Some(Error::AuthRequired),
        schedule_refusal(s, id, who, time) == Some(Error::AuthRequired),
        auto_renew_refusal(s, id, who, true) == Some(Error::AuthRequired),
        withdraw_refusal(s, id, who) == Some(Error::AuthRequired),
        initiate_refusal(s, id, who, other, time) == Some(Error::AuthRequired),
        accept_refusal(s, id, who) == Some(Error::AuthRequired),
        veto_refusal(s, id, who) == Some(Error::AuthRequired),
        merchant_withdraw_refusal(s, who, other, amount) == Some(Error::AuthRequired),
        merchant_refund_refusal(s, who, other, other, amount) == Some(Error::AuthRequired),
        open_refusal(s, who, id, amount) == Some(Error::AuthRequired),
        respond_refusal(s, who, did) == Some(Error::AuthRequired),
        claim_refusal(s, who, id) == Some(Error::AuthRequired),
        lodge_refusal(s, who, id) == Some(Error::AuthRequired),
        buyout_refusal(s, id, who, amount, key) == Some(Error::AuthRequired),
        s.admin_refusal(who) == Some(Error::AuthRequired),
{
}

/// Only the administrator governs: anyone else, the operator included, is refused every setting,
/// refund, resolution and recovery, though they authorise the call.
pub proof fn law_only_the_administrator_governs(
    s: State,
    who: Address,
    other: Address,
    id: u32,
    did: u64,
    amount: i128,
    bps: u32,
    nonce: u64,
    tag: Seq<u8>,
    key: ConfigKey,
)
    requires
        s.authorized(who),
        !s.is_admin(who),
    ensures
        s.admin_refusal(who) == Some(Error::Unauthorized),
        setting_refusal(s, who, key) == Some(Error::Unauthorized),
        min_topup_refusal(s, who, amount) == Some(Error::Unauthorized),
        rotate_refusal(s, who, other, nonce) == Some(Error::Unauthorized),
        operator_set_refusal(s, who, other) == Some(Error::Unauthorized),
        accept_token_refusal(s, who, other) == Some(Error::Unauthorized),
        fee_refusal(s, who, bps) == Some(Error::Unauthorized),
        override_refusal(s, who, bps) == Some(Error::Unauthorized),
        refund_refusal(s, who, id, other, amount) == Some(Error::Unauthorized),
        resolve_refusal(s, who, did, true) == Some(Error::Unauthorized),
        resolve_refusal(s, who, did, false) == Some(Error::Unauthorized),
        recover_refusal(s, who, other, other, amount, tag) == Some(Error::Unauthorized),
{
}

/// An operator that was dismissed can charge nothing any more.
pub proof fn law_dismissal_takes_effect_at_once(s: State, admin: Address, operator: Address, nonce: u64)
    ensures
        operator_refusal(operator_removed(s, admin), operator) == Some(Error::Unauthorized),
        operator_batch_refusal(operator_removed(s, admin), operator, nonce) == Some(
            Error::Unauthorized,
        ),
{
}

/// A charge of any kind leaves every other subscription as it was.
pub proof fn law_charges_touch_one_subscription(
    s: State,
    id: u32,
    other: u32,
    who: Address,
    amount: i128,
    key: Option<Bytes32>,
    reference: Option<Seq<u8>>,
)
    requires
        other != id,
    ensures
        untouched(s, charge_done(s, id, key), other),
        usage_refusal(s, id, amount, reference) is None ==> untouched(
            s,
            usage_charged(s, id, amount, reference),
            other,
        ),
        one_off_refusal(s, id, who, amount, key) is None ==> untouched(
            s,
            one_off_charged(s, id, amount, key),
            other,
        ),
{
}

/// Whether a subscription is the same in two states.
pub open spec fn untouched(before: State, after: State, id: u32) -> bool {
    &&& after.subscriptions.dom().contains(id) == before.subscriptions.dom().contains(id)
    &&& after.subscriptions[id] == before.subscriptions[id]
}

/// What a payer is charged is what the payees and the treasury get, to the last unit.
pub proof fn law_fee_and_payouts_make_the_charge(s: State, id: u32, amount: i128)
    requires
        0 <= amount,
    ensures
        ({
            let list = payouts(s, id, amount);
            let fee = amount - net_amount(s, id, amount);
            &&& payout_sum(list, list.len() as int) + fee == amount
            &&& 0 <= fee
            &&& fee_bps(s, s.subscriptions[id].merchant) == 0 ==> fee == 0
        }),
{
    lemma_payouts(s, id, amount);
    assert((amount * 10_000) / 10_000 == amount) by (nonlinear_arith);
}

/// An interval charge is taken from the first second at which the interval is over, and not a
/// second before.
pub proof fn law_not_charged_before_due(s: State, id: u32)
    requires
        s.subscriptions.dom().contains(id),
    ensures
        ({
            let sub = s.subscriptions[id];
            let due_at = sub.last_payment_timestamp + sub.interval_seconds;
            &&& is_due(s, sub) == (s.ledger.timestamp >= due_at)
            &&& s.ledger.timestamp < due_at ==> !(charge_path(s, id) is Charge)
        }),
{
}

/// While the merchant or a payee is away, paused or on the blocklist, or the subscriber is on it,
/// no charge is taken.
pub proof fn law_absent_parties_are_not_charged(
    s: State,
    id: u32,
    amount: i128,
    reference: Option<Seq<u8>>,
)
    requires
        parties_refusal(s, id) is Some,
    ensures
        !(charge_path(s, id) is Charge),
        usage_refusal(s, id, amount, reference) is Some,
{
}

/// A subscription that does not renew is not charged for another interval, and its balance stays.
pub proof fn law_no_renewal_no_charge(s: State, id: u32, key: Option<Bytes32>)
    requires
        s.subscriptions.dom().contains(id),
        !s.subscriptions[id].auto_renew,
        !cancel_due(s, s.subscriptions[id]),
    ensures
        !(charge_path(s, id) is Charge),
        charge_done(s, id, key).subscriptions[id].prepaid_balance
            == s.subscriptions[id].prepaid_balance,
{
}

/// Renewal that was switched off and on again within the window leaves the subscription as it was.
pub proof fn law_renewal_round_trip(s: State, id: u32, who: Address)
    requires
        auto_renew_refusal(s, id, who, false) is None,
        s.subscriptions[id].auto_renew,
        s.subscriptions[id].auto_renew_disabled_at is None,
    ensures
        ({
            let off = auto_renew_set(s, id, false);
            &&& auto_renew_refusal(off, id, who, true) is None
            &&& auto_renew_set(off, id, true).subscriptions[id] == s.subscriptions[id]
        }),
{
}

/// A cancellation that was scheduled and called off leaves the subscription as it was; one that has
/// come due is carried out in place of the charge.
pub proof fn law_scheduled_cancellation(s: State, id: u32, who: Address, at: u64, key: Option<Bytes32>)
    requires
        schedule_refusal(s, id, who, at) is None,
    ensures
        s.subscriptions[id].cancel_at is None ==> unscheduled(
            scheduled(s, id, at),
            id,
        ).subscriptions[id] == s.subscriptions[id],
        charge_path(s, id) is Cancel ==> {
            let after = after_path(s, id, ChargePath::Cancel, key);
            &&& after.subscriptions[id].status is Cancelled
            &&& after.subscriptions[id].cancel_at is None
            &&& after.merchant_balances == s.merchant_balances
        },
{
}

/// A hand-over changes nothing of a subscription but its subscriber, and uses the offer up, as a
/// veto does.
pub proof fn law_transfer_moves_only_the_subscriber(
    s: State,
    id: u32,
    from: Address,
    to: Address,
    merchant: Address,
    time: u64,
)
    requires
        initiate_refusal(s, id, from, to, time) is None,
    ensures
        ({
            let o = offered(s, id, from, to, time);
            let a = accepted(o, id, to);
            &&& o.subscriptions == s.subscriptions
            &&& o.authorized(to) ==> accept_refusal(o, id, to) is None
            &&& a.subscriptions[id] == (Subscription { subscriber: to, ..s.subscriptions[id] })
            &&& a.tokens == s.tokens
            &&& a.authorized(to) ==> accept_refusal(a, id, to) == Some(
                Error::TransferIntentNotFound,
            )
            &&& veto_refusal(o, id, merchant) is None ==> veto_refusal(a, id, merchant) == Some(
                Error::TransferIntentNotFound,
            )
            &&& o.authorized(to) ==> accept_refusal(vetoed(o, id, merchant), id, to) == Some(
                Error::TransferIntentNotFound,
            )
        }),
{
}

/// A buyout ends the grace period, unless it used the lifetime cap up, and leaves on the balance
/// what was deposited beyond the charge.
pub proof fn law_buyout_ends_the_grace_period(
    s: State,
    id: u32,
    subscriber: Address,
    deposit: i128,
    key: Option<Bytes32>,
)
    requires
        buyout_refusal(s, id, subscriber, deposit, key) is None,
        !served(s.rings, IDEM_BUYOUT, id, key),
    ensures
        ({
            let sub = s.subscriptions[id];
            let end = bought_out(s, id, subscriber, deposit, key).subscriptions[id];
            &&& end.prepaid_balance == sub.prepaid_balance + deposit - sub.amount
            &&& !cap_hit(sub, sub.amount) ==> end.status is Active
            &&& end.last_payment_timestamp == s.ledger.timestamp
        }),
{
}

/// A merchant that has withdrawn everything has nothing left to withdraw.
pub proof fn law_drained_merchant_is_refused(s: State, merchant: Address, token: Address, amount: i128)
    requires
        merchant_withdraw_refusal(s, merchant, token, s.merchant_balance(merchant, token)) is None,
    ensures
        ({
            let s2 = merchant_withdrawn(
                s,
                merchant,
                token,
                s.merchant_balance(merchant, token),
            );
            &&& s2.merchant_balance(merchant, token) == 0
            &&& crate::merchants::payment_refusal(s2, merchant, token, merchant, amount) == Some(
                Error::NotFound,
            )
        }),
{
}

/// Votes are locked once the time of a proposal has come: a late vote is refused and changes no
/// vote.
pub proof fn law_late_votes_change_nothing(s: State, id: u32)
    requires
        s.proposals.dom().contains(id),
        s.ledger.timestamp >= s.proposals[id].eta,
    ensures
        vote_refusal(s, id) == Some(Error::InvalidInput),
        vote_late(s, id) ==> vote_locked(s, id).votes == s.votes,
{
}

/// A proposal takes effect once, not before its time and the waiting time, and not at all once it
/// was cancelled.
pub proof fn law_proposals_take_effect_once(s: State, id: u32, reason: Seq<u8>)
    requires
        execute_refusal(s, id) is None,
    ensures
        s.ledger.timestamp >= s.proposals[id].eta,
        s.ledger.timestamp >= s.proposals[id].created_at + s.config.min_timelock_delay,
        execute_refusal(executed(s, id), id) == Some(Error::InvalidInput),
        execute_refusal(proposal_cancelled(s, id, reason), id) == Some(Error::InvalidInput),
{
}

/// A subscription that occurs more than once in a bulk call is paused or cancelled, and paid back,
/// once: the second time it is passed over.
pub proof fn law_bulk_items_count_once(s: State, id: u32, caller: Address)
    ensures
        pause_item(s, id).changed ==> {
            let p = paused_in_turn(s, id, caller);
            pause_item(p, id) == succeeded(id, false) && paused_in_turn(p, id, caller) == p
        },
        cancel_item(s, id).changed ==> {
            let c = cancelled_in_turn(s, id, caller);
            cancel_item(c, id) == succeeded(id, false) && cancelled_in_turn(c, id, caller) == c
        },
{
}

/// A charge that goes to a sub-account leaves the merchant's own balance alone, unless the merchant
/// is the treasury, which takes the fee.
pub proof fn law_sub_accounts_spare_the_merchant(
    s: State,
    id: u32,
    amount: i128,
    kind: BillingChargeKind,
)
    requires
        settle_refusal(s, id, amount) is None,
        to_sub_account(s, id),
        s.config.treasury != s.subscriptions[id].merchant,
    ensures
        ({
            let sub = s.subscriptions[id];
            let label = sub.sub_account_label->0;
            let end = settled(s, id, amount, kind);
            &&& end.merchant_balance(sub.merchant, sub.token) == s.merchant_balance(
                sub.merchant,
                sub.token,
            )
            &&& end.sub_balance(sub.merchant, label, sub.token) == s.sub_balance(
                sub.merchant,
                label,
                sub.token,
            ) + net_amount(s, id, amount)
        }),
{
    lemma_payouts(s, id, amount);
}

/// The books of a token balance exactly where the vault holds at least what it owes.
pub proof fn law_balanced_means_covered(s: State, token: Address)
    requires
        finite(s),
        recon_refusal(s, token) is None,
    ensures
        recon_of(s, token).is_balanced == (holdings(s, token) >= liabilities(s, token)),
        recon_of(s, token).is_balanced ==> recon_of(s, token).recoverable_amount == holdings(
            s,
            token,
        ) - liabilities(s, token),
{
    crate::reconciliation::lemma_books(s, token);
}

} // verus!
