//! What disputes and escrows do: who can bring them, where the money waits, and where it goes.
use crate::disputes::{
    claim_refusal, claimed, lodge_refusal, lodged, open_refusal, opened, resolve_refusal, resolved,
    respond_refusal, responded,
};
use crate::events::Event;
use crate::funding_laws::{short_of_tokens, wallet_full};
use crate::measures::{agrees, credit, moved, only_credit, wallet};
use crate::records::{Dispute, DisputeEscrowLedger, DisputeStatus};
use crate::settings_laws::rules;
use crate::types::{vault, Address, Bytes32, Error};
use crate::vault::{Config, State};
use vstd::prelude::*;

verus! {

/// Whether a dispute was entered under the next number, between the given parties and over the given
/// amount, all of which waits in its ledger; and no other dispute was touched.
pub open spec fn enters(
    s: State,
    s2: State,
    id: u32,
    subscriber: Address,
    merchant: Address,
    token: Address,
    amount: i128,
    evidence: Option<Bytes32>,
) -> bool {
    let did = s.config.next_dispute_id;
    &&& s2.config == (Config { next_dispute_id: s2.config.next_dispute_id, ..s.config })
    &&& s2.config.next_dispute_id == did + 1
    &&& s2.disputes.dom().contains(did)
    &&& s2.disputes[did] == (Dispute {
        subscription_id: id,
        subscriber,
        merchant,
        token,
        amount,
        status: DisputeStatus::Open,
        opened_at: s.ledger.timestamp,
        evidence,
        response: None,
    })
    &&& s2.dispute_ledgers.dom().contains(did)
    &&& s2.dispute_ledgers[did] == (DisputeEscrowLedger {
        token,
        original_amount: amount,
        total_disbursed: 0,
    })
    &&& s2.open_disputes.dom().contains(id) && s2.open_disputes[id] == did
    &&& forall|other: u64|
        other != did ==> (#[trigger] s2.disputes.dom().contains(other)
            == s.disputes.dom().contains(other)) && s2.disputes[other] == s.disputes[other]
    &&& forall|other: u64|
        other != did ==> (#[trigger] s2.dispute_ledgers.dom().contains(other)
            == s.dispute_ledgers.dom().contains(other)) && s2.dispute_ledgers[other]
            == s.dispute_ledgers[other]
    &&& forall|other: u32|
        other != id ==> (#[trigger] s2.open_disputes.dom().contains(other)
            == s.open_disputes.dom().contains(other)) && s2.open_disputes[other]
            == s.open_disputes[other]
}

/// The subscriber of a subscription can dispute up to what its merchant has to its credit in its
/// token, one dispute at a time. The amount leaves the merchant's credit and waits.
pub proof fn law_opening_a_dispute(
    s: State,
    who: Address,
    id: u32,
    amount: i128,
    evidence: Option<Bytes32>,
)
    ensures
        ({
            let sub = s.subscriptions[id];
            let s2 = opened(s, id, amount, evidence);
            match open_refusal(s, who, id, amount) {
                Some(Error::AuthRequired) => !agrees(s, who),
                Some(Error::NotFound) => !s.subscriptions.dom().contains(id),
                Some(Error::Unauthorized) => who != sub.subscriber,
                Some(Error::DisputeAlreadyOpen) => s.open_disputes.dom().contains(id),
                Some(Error::InvalidAmount) => amount <= 0,
                Some(Error::InsufficientBalance) => credit(s, sub.merchant, sub.token) < amount,
                Some(Error::Overflow) => s.config.next_dispute_id == u64::MAX,
                Some(_) => false,
                None => {
                    &&& agrees(s, who)
                    &&& s.subscriptions.dom().contains(id)
                    &&& who == sub.subscriber
                    &&& !s.open_disputes.dom().contains(id)
                    &&& 0 < amount <= credit(s, sub.merchant, sub.token)
                    &&& enters(
                        s,
                        s2,
                        id,
                        sub.subscriber,
                        sub.merchant,
                        sub.token,
                        amount,
                        evidence,
                    )
                    &&& only_credit(s, s2, sub.merchant, sub.token, -amount)
                    &&& s2.events == seq![
                        Event::DisputeOpened {
                            dispute_id: s.config.next_dispute_id,
                            subscription_id: id,
                            subscriber: sub.subscriber,
                            merchant: sub.merchant,
                            amount,
                        },
                    ]
                    &&& s2 == (State {
                        config: s2.config,
                        merchant_balances: s2.merchant_balances,
                        disputes: s2.disputes,
                        open_disputes: s2.open_disputes,
                        dispute_ledgers: s2.dispute_ledgers,
                        events: s2.events,
                        ..s
                    })
                },
            }
        }),
{
    let s2 = opened(s, id, amount, evidence);
    assert(s2 =~= State {
        config: s2.config,
        merchant_balances: s2.merchant_balances,
        disputes: s2.disputes,
        open_disputes: s2.open_disputes,
        dispute_ledgers: s2.dispute_ledgers,
        events: s2.events,
        ..s
    });
}

/// The merchant of a dispute, or the administrator, can respond to it once while it is open; the
/// response is kept, and no money moves.
pub proof fn law_responding(s: State, who: Address, did: u64, response: Option<Bytes32>)
    ensures
        ({
            let d = s.disputes[did];
            let s2 = responded(s, who, did, response);
            &&& match respond_refusal(s, who, did) {
                Some(Error::AuthRequired) => !agrees(s, who),
                Some(Error::DisputeNotFound) => !s.disputes.dom().contains(did),
                Some(Error::Unauthorized) => s.config.admin != Some(who) && who != d.merchant,
                Some(Error::DisputeAlreadyResponded) => !(d.status is Open),
                Some(_) => false,
                None => agrees(s, who) && s.disputes.dom().contains(did) && (s.config.admin
                    == Some(who) || who == d.merchant) && d.status is Open,
            }
            &&& s2.events == seq![Event::DisputeResponded { dispute_id: did, responder: who }]
            &&& s2.disputes.dom().contains(did)
            &&& s2.disputes[did] == (Dispute {
                status: DisputeStatus::Responded,
                response,
                ..d
            })
            &&& forall|other: u64|
                other != did ==> (#[trigger] s2.disputes.dom().contains(other)
                    == s.disputes.dom().contains(other)) && s2.disputes[other]
                    == s.disputes[other]
            &&& s2 == (State { disputes: s2.disputes, events: s2.events, ..s })
        }),
{
    let s2 = responded(s, who, did, response);
    assert(s2 =~= State { disputes: s2.disputes, events: s2.events, ..s });
}

/// What still waits in a dispute's ledger.
pub open spec fn waiting(s: State, did: u64) -> int {
    s.dispute_ledgers[did].original_amount - s.dispute_ledgers[did].total_disbursed
}

/// The administrator resolves a dispute once: after a response, or for the subscriber after a week
/// without one. All that waits goes to the subscriber's wallet or to the merchant's credit, as was
/// decided, and nowhere else; then nothing waits any more, and the subscription can be disputed
/// again.
pub proof fn law_resolution(s: State, who: Address, did: u64, to_subscriber: bool)
    ensures
        ({
            let d = s.disputes[did];
            let s2 = resolved(s, did, to_subscriber);
            let left = waiting(s, did);
            let there = s.dispute_ledgers.dom().contains(did);
            let over = d.status is ResolvedToMerchant || d.status is ResolvedToSubscriber;
            let ripe = d.status is Responded || (d.status is Open && to_subscriber && d.opened_at
                + 604_800 < s.ledger.timestamp);
            match resolve_refusal(s, who, did, to_subscriber) {
                Some(Error::AuthRequired) => !agrees(s, who),
                Some(Error::Unauthorized) => s.config.admin != Some(who),
                Some(Error::DisputeNotFound) => !s.disputes.dom().contains(did),
                Some(Error::InsufficientBalance) => !there || left <= 0,
                Some(Error::DisputeAlreadyResolved) => over,
                Some(Error::DisputeNotResponded) => !over && !ripe,
                Some(Error::Reentrancy) => to_subscriber && s.config.locked,
                Some(Error::TokenBalance) => to_subscriber && short_of_tokens(
                    s,
                    d.token,
                    vault(),
                    left,
                ),
                Some(Error::Overflow) => left > i128::MAX || (if to_subscriber {
                    wallet_full(s, d.token, vault(), d.subscriber, left)
                } else {
                    credit(s, d.merchant, d.token) + left > i128::MAX
                }),
                Some(_) => false,
                None => {
                    &&& rules(s, who)
                    &&& s.disputes.dom().contains(did)
                    &&& there && 0 < left
                    &&& ripe
                    &&& s2.disputes.dom().contains(did)
                    &&& s2.disputes[did] == (Dispute {
                        status: (if to_subscriber {
                            DisputeStatus::ResolvedToSubscriber
                        } else {
                            DisputeStatus::ResolvedToMerchant
                        }),
                        ..d
                    })
                    &&& to_subscriber ==> moved(s, s2, d.token, vault(), d.subscriber, left)
                        && s2.merchant_balances == s.merchant_balances
                    &&& !to_subscriber ==> only_credit(s, s2, d.merchant, d.token, left)
                        && s2.tokens == s.tokens
                    &&& s2.dispute_ledgers.dom().contains(did) ==> waiting(s2, did) == 0
                    &&& !s2.open_disputes.dom().contains(d.subscription_id)
                    &&& s2.events == seq![
                        Event::DisputeResolved {
                            dispute_id: did,
                            to_subscriber,
                            amount: left as i128,
                        },
                    ]
                    &&& forall|other: u64|
                        other != did ==> (#[trigger] s2.disputes.dom().contains(other)
                            == s.disputes.dom().contains(other)) && s2.disputes[other]
                            == s.disputes[other]
                    &&& forall|other: u64|
                        other != did ==> (#[trigger] s2.dispute_ledgers.dom().contains(other)
                            == s.dispute_ledgers.dom().contains(other)) && s2.dispute_ledgers[other]
                            == s.dispute_ledgers[other]
                    &&& forall|other: u32|
                        other != d.subscription_id ==> (#[trigger] s2.open_disputes.dom().contains(
                            other,
                        ) == s.open_disputes.dom().contains(other)) && s2.open_disputes[other]
                            == s.open_disputes[other]
                    &&& s2 == (State {
                        tokens: s2.tokens,
                        merchant_balances: s2.merchant_balances,
                        disputes: s2.disputes,
                        open_disputes: s2.open_disputes,
                        dispute_ledgers: s2.dispute_ledgers,
                        events: s2.events,
                        ..s
                    })
                },
            }
        }),
{
    let s2 = resolved(s, did, to_subscriber);
    assert(s2 =~= State {
        tokens: s2.tokens,
        merchant_balances: s2.merchant_balances,
        disputes: s2.disputes,
        open_disputes: s2.open_disputes,
        dispute_ledgers: s2.dispute_ledgers,
        events: s2.events,
        ..s
    });
}

/// Whether one escrow is gone, and no other was touched.
pub open spec fn escrow_gone(s: State, s2: State, id: u32) -> bool {
    &&& !s2.escrows.dom().contains(id)
    &&& forall|other: u32|
        other != id ==> (#[trigger] s2.escrows.dom().contains(other) == s.escrows.dom().contains(
            other,
        )) && s2.escrows[other] == s.escrows[other]
}

/// The subscriber of an escrow gets all of it, into its own wallet, once its time is over and
/// nothing is disputed.
pub proof fn law_claiming_an_escrow(s: State, who: Address, id: u32)
    ensures
        ({
            let e = s.escrows[id];
            let s2 = claimed(s, id);
            match claim_refusal(s, who, id) {
                Some(Error::AuthRequired) => !agrees(s, who),
                Some(Error::DisputeAlreadyOpen) => s.open_disputes.dom().contains(id),
                Some(Error::EscrowNotFound) => !s.escrows.dom().contains(id),
                Some(Error::Unauthorized) => who != e.subscriber,
                Some(Error::EscrowNotReleased) => s.ledger.timestamp <= e.released_at,
                Some(Error::Reentrancy) => s.config.locked,
                Some(Error::TokenBalance) => e.amount < 0 || short_of_tokens(
                    s,
                    e.token,
                    vault(),
                    e.amount as int,
                ),
                Some(Error::Overflow) => wallet_full(
                    s,
                    e.token,
                    vault(),
                    e.subscriber,
                    e.amount as int,
                ),
                Some(_) => false,
                None => {
                    &&& agrees(s, who)
                    &&& s.escrows.dom().contains(id)
                    &&& !s.open_disputes.dom().contains(id)
                    &&& who == e.subscriber
                    &&& e.released_at < s.ledger.timestamp
                    &&& !s.config.locked
                    &&& moved(s, s2, e.token, vault(), e.subscriber, e.amount as int)
                    &&& s2.events == seq![
                        Event::CancellationEscrowReleased {
                            subscription_id: id,
                            subscriber: e.subscriber,
                            amount: e.amount,
                        },
                    ]
                    &&& escrow_gone(s, s2, id)
                    &&& s2 == (State {
                        tokens: s2.tokens,
                        escrows: s2.escrows,
                        events: s2.events,
                        ..s
                    })
                },
            }
        }),
{
    let s2 = claimed(s, id);
    assert(s2 =~= State { tokens: s2.tokens, escrows: s2.escrows, events: s2.events, ..s });
}

/// The merchant of an escrow can dispute it before its time is over. All of it then waits for the
/// outcome of the dispute, and no money moves.
pub proof fn law_disputing_an_escrow(s: State, who: Address, id: u32)
    ensures
        ({
            let e = s.escrows[id];
            let s2 = lodged(s, id);
            match lodge_refusal(s, who, id) {
                Some(Error::AuthRequired) => !agrees(s, who),
                Some(Error::DisputeAlreadyOpen) => s.open_disputes.dom().contains(id),
                Some(Error::EscrowNotFound) => !s.escrows.dom().contains(id),
                Some(Error::Unauthorized) => who != e.merchant,
                Some(Error::EscrowNotReleased) => e.released_at <= s.ledger.timestamp,
                Some(Error::Overflow) => s.config.next_dispute_id == u64::MAX,
                Some(_) => false,
                None => {
                    &&& agrees(s, who)
                    &&& s.escrows.dom().contains(id)
                    &&& !s.open_disputes.dom().contains(id)
                    &&& who == e.merchant
                    &&& s.ledger.timestamp < e.released_at
                    &&& enters(s, s2, id, e.subscriber, e.merchant, e.token, e.amount, None)
                    &&& s2.events == seq![
                        Event::CancellationEscrowDisputed {
                            subscription_id: id,
                            merchant: e.merchant,
                            amount: e.amount,
                        },
                        Event::DisputeOpened {
                            dispute_id: s.config.next_dispute_id,
                            subscription_id: id,
                            subscriber: e.subscriber,
                            merchant: e.merchant,
                            amount: e.amount,
                        },
                    ]
                    &&& escrow_gone(s, s2, id)
                    &&& s2 == (State {
                        config: s2.config,
                        escrows: s2.escrows,
                        disputes: s2.disputes,
                        open_disputes: s2.open_disputes,
                        dispute_ledgers: s2.dispute_ledgers,
                        events: s2.events,
                        ..s
                    })
                },
            }
        }),
{
    let s2 = lodged(s, id);
    assert(s2 =~= State {
        config: s2.config,
        escrows: s2.escrows,
        disputes: s2.disputes,
        open_disputes: s2.open_disputes,
        dispute_ledgers: s2.dispute_ledgers,
        events: s2.events,
        ..s
    });
}

} // verus!
