//! Disputes over what merchants were paid, and over escrowed balances of cancelled subscriptions.
use crate::dispute_laws::{
    law_claiming_an_escrow, law_opening_a_dispute, law_resolution, waiting,
};
use crate::events::Event;
use crate::measures::{moved, only_credit};
use crate::payments::{handed_over, hands_over, Payment};
use crate::records::{
    CancellationEscrow, Dispute, DisputeEscrowLedger, DisputeStatus,
};
use crate::safe_math::is_amount;
use crate::token::{check_transfer, transfer_refusal, transferred};
use crate::types::{names, vault, vault_address, Address, Bytes32, Error, Key};
use crate::vault::{ends, Config, State, Vault};
use vstd::prelude::*;

verus! {

/// How long a merchant's side has to respond to a dispute.
pub const DISPUTE_WINDOW_SECS: u64 = 604_800;

/// Why a dispute is not opened.
pub open spec fn open_refusal(s: State, subscriber: Address, id: u32, amount: i128) -> Option<Error> {
    if !s.authorized(subscriber) {
        Some(Error::AuthRequired)
    } else if !s.subscriptions.dom().contains(id) {
        Some(Error::NotFound)
    } else {
        let sub = s.subscriptions[id];
        if subscriber != sub.subscriber {
            Some(Error::Unauthorized)
        } else if s.open_disputes.dom().contains(id) {
            Some(Error::DisputeAlreadyOpen)
        } else if amount <= 0 {
            Some(Error::InvalidAmount)
        } else if amount > s.merchant_balance(sub.merchant, sub.token) {
            Some(Error::InsufficientBalance)
        } else if s.config.next_dispute_id == u64::MAX {
            Some(Error::Overflow)
        } else {
            None
        }
    }
}

/// The state in which a dispute over `d.amount` has been entered, whatever it is held from.
pub open spec fn entered(s: State, d: Dispute) -> State {
    let did = s.config.next_dispute_id;
    State {
        config: Config { next_dispute_id: (did + 1) as u64, ..s.config },
        disputes: s.disputes.insert(did, d),
        open_disputes: s.open_disputes.insert(d.subscription_id, did),
        dispute_ledgers: s.dispute_ledgers.insert(
            did,
            DisputeEscrowLedger {
                token: d.token,
                original_amount: d.amount,
                total_disbursed: 0,
            },
        ),
        ..s
    }
}

/// The report of a new dispute.
pub open spec fn opened_report(s: State, d: Dispute) -> Event {
    Event::DisputeOpened {
        dispute_id: s.config.next_dispute_id,
        subscription_id: d.subscription_id,
        subscriber: d.subscriber,
        merchant: d.merchant,
        amount: d.amount,
    }
}

/// A dispute over a charge.
pub open spec fn dispute_of(s: State, id: u32, amount: i128, evidence: Option<Bytes32>) -> Dispute {
    let sub = s.subscriptions[id];
    Dispute {
        subscription_id: id,
        subscriber: sub.subscriber,
        merchant: sub.merchant,
        token: sub.token,
        amount,
        status: DisputeStatus::Open,
        opened_at: s.ledger.timestamp,
        evidence,
        response: None,
    }
}

/// The state after a dispute was opened: the amount leaves the merchant's balance.
pub open spec fn opened(s: State, id: u32, amount: i128, evidence: Option<Bytes32>) -> State {
    let d = dispute_of(s, id, amount, evidence);
    State {
        merchant_balances: s.merchant_balances.insert(
            (d.merchant, d.token),
            (s.merchant_balance(d.merchant, d.token) - amount) as i128,
        ),
        events: seq![opened_report(s, d)],
        ..entered(s, d)
    }
}

/// Why a response to a dispute is refused.
pub open spec fn respond_refusal(s: State, responder: Address, did: u64) -> Option<Error> {
    if !s.authorized(responder) {
        Some(Error::AuthRequired)
    } else if !s.disputes.dom().contains(did) {
        Some(Error::DisputeNotFound)
    } else if !s.is_admin(responder) && responder != s.disputes[did].merchant {
        Some(Error::Unauthorized)
    } else if !(s.disputes[did].status is Open) {
        Some(Error::DisputeAlreadyResponded)
    } else {
        None
    }
}

/// The state after a response to a dispute.
pub open spec fn responded(s: State, responder: Address, did: u64, response: Option<Bytes32>) -> State {
    State {
        disputes: s.disputes.insert(
            did,
            Dispute { status: DisputeStatus::Responded, response, ..s.disputes[did] },
        ),
        events: seq![Event::DisputeResponded { dispute_id: did, responder }],
        ..s
    }
}

/// What is left of a disputed amount.
pub open spec fn remaining(l: DisputeEscrowLedger) -> int {
    l.original_amount - l.total_disbursed
}

/// Whether a dispute can be decided: there was a response, or the time for one has run out and
/// the subscriber is to be paid.
pub open spec fn decidable(s: State, d: Dispute, to_subscriber: bool) -> bool {
    d.status is Responded || (d.status is Open && to_subscriber && s.ledger.timestamp > d.opened_at
        + DISPUTE_WINDOW_SECS)
}

/// Why a dispute is not resolved.
pub open spec fn resolve_refusal(s: State, admin: Address, did: u64, to_subscriber: bool) -> Option<
    Error,
> {
    if s.admin_refusal(admin) is Some {
        s.admin_refusal(admin)
    } else if !s.disputes.dom().contains(did) {
        Some(Error::DisputeNotFound)
    } else {
        let d = s.disputes[did];
        let has_ledger = s.dispute_ledgers.dom().contains(did);
        let left = remaining(s.dispute_ledgers[did]);
        if has_ledger && left <= 0 {
            Some(Error::InsufficientBalance)
        } else if d.status is ResolvedToMerchant || d.status is ResolvedToSubscriber {
            Some(Error::DisputeAlreadyResolved)
        } else if !decidable(s, d, to_subscriber) {
            Some(Error::DisputeNotResponded)
        } else if !has_ledger {
            Some(Error::InsufficientBalance)
        } else if !is_amount(left) {
            Some(Error::Overflow)
        } else if to_subscriber && s.config.locked {
            Some(Error::Reentrancy)
        } else if to_subscriber {
            transfer_refusal(s.tokens, d.token, vault(), d.subscriber, left as i128)
        } else if s.merchant_balance(d.merchant, d.token) + left > i128::MAX {
            Some(Error::Overflow)
        } else {
            None
        }
    }
}

/// The transfer that a resolution makes. What a merchant gets stays in the vault.
pub open spec fn resolve_payment(s: State, did: u64, to_subscriber: bool) -> Option<Payment> {
    let d = s.disputes[did];
    if to_subscriber {
        Some(
            Payment {
                token: d.token,
                from: vault(),
                to: d.subscriber,
                amount: remaining(s.dispute_ledgers[did]) as i128,
            },
        )
    } else {
        None
    }
}

/// The state after a dispute was resolved: what was left goes to the one side or the other. The
/// escrow ledger stays on record only where part had been paid out before.
pub open spec fn resolved(s: State, did: u64, to_subscriber: bool) -> State {
    let d = s.disputes[did];
    let l = s.dispute_ledgers[did];
    let left = remaining(l) as i128;
    State {
        disputes: s.disputes.insert(
            did,
            Dispute {
                status: if to_subscriber {
                    DisputeStatus::ResolvedToSubscriber
                } else {
                    DisputeStatus::ResolvedToMerchant
                },
                ..d
            },
        ),
        open_disputes: s.open_disputes.remove(d.subscription_id),
        dispute_ledgers: if l.total_disbursed == 0 {
            s.dispute_ledgers.remove(did)
        } else {
            s.dispute_ledgers.insert(
                did,
                DisputeEscrowLedger { total_disbursed: l.original_amount, ..l },
            )
        },
        tokens: if to_subscriber {
            transferred(s.tokens, d.token, vault(), d.subscriber, left)
        } else {
            s.tokens
        },
        merchant_balances: if to_subscriber {
            s.merchant_balances
        } else {
            s.merchant_balances.insert(
                (d.merchant, d.token),
                (s.merchant_balance(d.merchant, d.token) + left) as i128,
            )
        },
        events: seq![Event::DisputeResolved { dispute_id: did, to_subscriber, amount: left }],
        ..s
    }
}

/// Why an escrowed balance is not paid back.
pub open spec fn claim_refusal(s: State, subscriber: Address, id: u32) -> Option<Error> {
    if !s.authorized(subscriber) {
        Some(Error::AuthRequired)
    } else if s.open_disputes.dom().contains(id) {
        Some(Error::DisputeAlreadyOpen)
    } else if !s.escrows.dom().contains(id) {
        Some(Error::EscrowNotFound)
    } else {
        let e = s.escrows[id];
        if subscriber != e.subscriber {
            Some(Error::Unauthorized)
        } else if s.ledger.timestamp <= e.released_at {
            Some(Error::EscrowNotReleased)
        } else if s.config.locked {
            Some(Error::Reentrancy)
        } else {
            transfer_refusal(s.tokens, e.token, vault(), e.subscriber, e.amount)
        }
    }
}

/// The transfer that pays an escrowed balance back.
pub open spec fn claim_payment(s: State, id: u32) -> Payment {
    let e = s.escrows[id];
    Payment { token: e.token, from: vault(), to: e.subscriber, amount: e.amount }
}

/// The state after an escrowed balance was paid back.
pub open spec fn claimed(s: State, id: u32) -> State {
    let e = s.escrows[id];
    State {
        escrows: s.escrows.remove(id),
        tokens: transferred(s.tokens, e.token, vault(), e.subscriber, e.amount),
        events: seq![
            Event::CancellationEscrowReleased {
                subscription_id: id,
                subscriber: e.subscriber,
                amount: e.amount,
            },
        ],
        ..s
    }
}

/// Why a merchant's dispute over an escrowed balance is refused.
pub open spec fn lodge_refusal(s: State, merchant: Address, id: u32) -> Option<Error> {
    if !s.authorized(merchant) {
        Some(Error::AuthRequired)
    } else if s.open_disputes.dom().contains(id) {
        Some(Error::DisputeAlreadyOpen)
    } else if !s.escrows.dom().contains(id) {
        Some(Error::EscrowNotFound)
    } else if merchant != s.escrows[id].merchant {
        Some(Error::Unauthorized)
    } else if s.ledger.timestamp >= s.escrows[id].released_at {
        Some(Error::EscrowNotReleased)
    } else if s.config.next_dispute_id == u64::MAX {
        Some(Error::Overflow)
    } else {
        None
    }
}

/// A dispute over an escrowed balance.
pub open spec fn escrow_dispute(s: State, id: u32) -> Dispute {
    let e = s.escrows[id];
    Dispute {
        subscription_id: id,
        subscriber: e.subscriber,
        merchant: e.merchant,
        token: e.token,
        amount: e.amount,
        status: DisputeStatus::Open,
        opened_at: s.ledger.timestamp,
        evidence: None,
        response: None,
    }
}

/// The state after a merchant disputed an escrowed balance.
pub open spec fn lodged(s: State, id: u32) -> State {
    let d = escrow_dispute(s, id);
    State {
        escrows: s.escrows.remove(id),
        events: seq![
            Event::CancellationEscrowDisputed {
                subscription_id: id,
                merchant: d.merchant,
                amount: d.amount,
            },
            opened_report(s, d),
        ],
        ..entered(s, d)
    }
}

impl Vault {
    /// Enters a dispute and reports it.
    fn enter(&mut self, d: Dispute) -> (did: u64)
        requires
            old(self)@.config.next_dispute_id < u64::MAX,
        ensures
            did == old(self)@.config.next_dispute_id,
            final(self)@ == (State {
                events: old(self)@.events.push(opened_report(old(self)@, d)),
                ..entered(old(self)@, d)
            }),
    {
        let did: u64 = self.config.next_dispute_id;
        self.config.next_dispute_id = did + 1;
        self.disputes.insert(did, d);
        self.open_disputes.insert(d.subscription_id, did);
        self.dispute_ledgers.insert(
            did,
            DisputeEscrowLedger {
                token: d.token,
                original_amount: d.amount,
                total_disbursed: 0,
            },
        );
        self.events.push(
            Event::DisputeOpened {
                dispute_id: did,
                subscription_id: d.subscription_id,
                subscriber: d.subscriber,
                merchant: d.merchant,
                amount: d.amount,
            },
        );
        did
    }

    /// Opens a dispute over what a subscription's merchant was paid.
    pub fn open_dispute(
        &mut self,
        subscriber: &Address,
        id: u32,
        amount: i128,
        evidence: Option<Bytes32>,
    ) -> (r: Result<u64, Error>)
        ensures
            ends(
                r,
                old(self)@,
                final(self)@,
                open_refusal(old(self)@, *subscriber, id, amount),
                old(self)@.config.next_dispute_id,
                opened(old(self)@, id, amount, evidence),
            ),
            r is Ok ==> only_credit(
                old(self)@,
                final(self)@,
                old(self)@.subscriptions[id].merchant,
                old(self)@.subscriptions[id].token,
                -amount,
            ),
    {
        proof {
            law_opening_a_dispute(self@, *subscriber, id, amount, evidence);
        }
        let authorized = self.has_authorized(subscriber);
        self.events.clear();
        if !authorized {
            return Err(Error::AuthRequired);
        }
        let sub = match self.subscriptions.get(&id) {
            Some(s) => *s,
            None => {
                return Err(Error::NotFound);
            },
        };
        if !subscriber.same(&sub.subscriber) {
            return Err(Error::Unauthorized);
        }
        if self.open_disputes.contains(&id) {
            return Err(Error::DisputeAlreadyOpen);
        }
        if amount <= 0 {
            return Err(Error::InvalidAmount);
        }
        let balance: i128 = self.get_merchant_balance_by_token(&sub.merchant, &sub.token);
        if amount > balance {
            return Err(Error::InsufficientBalance);
        }
        if self.config.next_dispute_id == u64::MAX {
            return Err(Error::Overflow);
        }
        self.merchant_balances.insert((sub.merchant, sub.token), balance - amount);
        let did: u64 = self.enter(
            Dispute {
                subscription_id: id,
                subscriber: sub.subscriber,
                merchant: sub.merchant,
                token: sub.token,
                amount,
                status: DisputeStatus::Open,
                opened_at: self.ledger.timestamp,
                evidence,
                response: None,
            },
        );
        assert(self@ =~= opened(old(self)@, id, amount, evidence));
        Ok(did)
    }

    /// A dispute.
    pub fn get_dispute(&self, did: u64) -> (r: Result<Dispute, Error>)
        ensures
            r == (if self@.disputes.dom().contains(did) {
                Ok::<Dispute, Error>(self@.disputes[did])
            } else {
                Err::<Dispute, Error>(Error::DisputeNotFound)
            }),
    {
        match self.disputes.get(&did) {
            Some(d) => Ok(*d),
            None => Err(Error::DisputeNotFound),
        }
    }

    /// Responds to a dispute.
    pub fn respond_dispute(&mut self, responder: &Address, did: u64, response: Option<Bytes32>) -> (r: Result<
        (),
        Error,
    >)
        ensures
            ends(
                r,
                old(self)@,
                final(self)@,
                respond_refusal(old(self)@, *responder, did),
                (),
                responded(old(self)@, *responder, did, response),
            ),
    {
        let authorized = self.has_authorized(responder);
        self.events.clear();
        if !authorized {
            return Err(Error::AuthRequired);
        }
        let mut d = match self.disputes.get(&did) {
            Some(d) => *d,
            None => {
                return Err(Error::DisputeNotFound);
            },
        };
        if !names(&self.config.admin, responder) && !responder.same(&d.merchant) {
            return Err(Error::Unauthorized);
        }
        if d.status != DisputeStatus::Open {
            return Err(Error::DisputeAlreadyResponded);
        }
        d.status = DisputeStatus::Responded;
        d.response = response;
        self.disputes.insert(did, d);
        self.events.push(Event::DisputeResponded { dispute_id: did, responder: *responder });
        assert(self@ =~= responded(old(self)@, *responder, did, response));
        Ok(())
    }

    fn check_resolve(&self, admin: &Address, did: u64, to_subscriber: bool) -> (r: Option<Error>)
        ensures
            r == resolve_refusal(self@, *admin, did, to_subscriber),
    {
        match self.check_admin(admin) {
            Some(e) => {
                return Some(e);
            },
            None => {},
        }
        let d = match self.disputes.get(&did) {
            Some(d) => *d,
            None => {
                return Some(Error::DisputeNotFound);
            },
        };
        let ledger = self.dispute_ledgers.get(&did);
        match ledger {
            Some(l) => {
                if l.original_amount <= l.total_disbursed {
                    return Some(Error::InsufficientBalance);
                }
            },
            None => {},
        }
        match d.status {
            DisputeStatus::ResolvedToMerchant => {
                return Some(Error::DisputeAlreadyResolved);
            },
            DisputeStatus::ResolvedToSubscriber => {
                return Some(Error::DisputeAlreadyResolved);
            },
            DisputeStatus::Open => {
                if !(to_subscriber && self.ledger.timestamp as u128 > d.opened_at as u128
                    + DISPUTE_WINDOW_SECS as u128) {
                    return Some(Error::DisputeNotResponded);
                }
            },
            DisputeStatus::Responded => {},
        }
        let left: i128 = match ledger {
            Some(l) => match l.original_amount.checked_sub(l.total_disbursed) {
                Some(x) => x,
                None => {
                    return Some(Error::Overflow);
                },
            },
            None => {
                return Some(Error::InsufficientBalance);
            },
        };
        if to_subscriber {
            if self.config.locked {
                return Some(Error::Reentrancy);
            }
            return check_transfer(&self.tokens, &d.token, &vault_address(), &d.subscriber, left);
        }
        if self.get_merchant_balance_by_token(&d.merchant, &d.token).checked_add(left).is_none() {
            return Some(Error::Overflow);
        }
        None
    }

    /// The first step of a resolution.
    pub(crate) fn begin_resolution(&mut self, admin: &Address, did: u64, to_subscriber: bool) -> (r:
        Result<Option<Payment>, Error>)
        ensures
            hands_over(
                r,
                old(self)@,
                final(self)@,
                resolve_refusal(old(self)@, *admin, did, to_subscriber),
                resolve_payment(old(self)@, did, to_subscriber),
                resolved(old(self)@, did, to_subscriber),
            ),
    {
        let refusal = self.check_resolve(admin, did, to_subscriber);
        self.events.clear();
        match refusal {
            Some(e) => {
                return Err(e);
            },
            None => {},
        }
        let mut d = match self.disputes.get(&did) {
            Some(d) => *d,
            None => {
                return Err(Error::DisputeNotFound);
            },
        };
        let mut ledger = match self.dispute_ledgers.get(&did) {
            Some(l) => *l,
            None => {
                return Err(Error::InsufficientBalance);
            },
        };
        let left: i128 = ledger.original_amount - ledger.total_disbursed;
        let mut p: Option<Payment> = None;
        if to_subscriber {
            p = Some(
                Payment { token: d.token, from: vault_address(), to: d.subscriber, amount: left },
            );
            self.config.locked = true;
            d.status = DisputeStatus::ResolvedToSubscriber;
        } else {
            let b: i128 = self.get_merchant_balance_by_token(&d.merchant, &d.token);
            self.merchant_balances.insert((d.merchant, d.token), b + left);
            d.status = DisputeStatus::ResolvedToMerchant;
        }
        self.disputes.insert(did, d);
        self.open_disputes.remove(&d.subscription_id);
        if ledger.total_disbursed == 0 {
            self.dispute_ledgers.remove(&did);
        } else {
            ledger.total_disbursed = ledger.original_amount;
            self.dispute_ledgers.insert(did, ledger);
        }
        self.events.push(Event::DisputeResolved { dispute_id: did, to_subscriber, amount: left });
        assert(self@ =~= handed_over(old(self)@, p, resolved(old(self)@, did, to_subscriber)));
        Ok(p)
    }

    /// Resolves a dispute: what is left of the amount goes to the subscriber or to the merchant.
    pub fn resolve_dispute(&mut self, admin: &Address, did: u64, to_subscriber: bool) -> (r: Result<
        (),
        Error,
    >)
        ensures
            ends(
                r,
                old(self)@,
                final(self)@,
                resolve_refusal(old(self)@, *admin, did, to_subscriber),
                (),
                resolved(old(self)@, did, to_subscriber),
            ),
            r is Ok && to_subscriber ==> moved(
                old(self)@,
                final(self)@,
                old(self)@.disputes[did].token,
                vault(),
                old(self)@.disputes[did].subscriber,
                waiting(old(self)@, did),
            ),
            r is Ok && !to_subscriber ==> only_credit(
                old(self)@,
                final(self)@,
                old(self)@.disputes[did].merchant,
                old(self)@.disputes[did].token,
                waiting(old(self)@, did),
            ),
    {
        proof {
            law_resolution(self@, *admin, did, to_subscriber);
        }
        match self.begin_resolution(admin, did, to_subscriber) {
            Err(e) => Err(e),
            Ok(p) => {
                self.finish_payment(&p);
                assert(self@ =~= resolved(old(self)@, did, to_subscriber));
                Ok(())
            },
        }
    }

    /// The escrow of a cancelled subscription's balance.
    pub fn get_cancellation_escrow(&self, id: u32) -> (r: Result<CancellationEscrow, Error>)
        ensures
            r == (if self@.escrows.dom().contains(id) {
                Ok::<CancellationEscrow, Error>(self@.escrows[id])
            } else {
                Err::<CancellationEscrow, Error>(Error::EscrowNotFound)
            }),
    {
        match self.escrows.get(&id) {
            Some(e) => Ok(*e),
            None => Err(Error::EscrowNotFound),
        }
    }

    /// The first step of paying an escrowed balance back.
    pub(crate) fn begin_claim(&mut self, subscriber: &Address, id: u32) -> (r: Result<
        Option<Payment>,
        Error,
    >)
        ensures
            hands_over(
                r,
                old(self)@,
                final(self)@,
                claim_refusal(old(self)@, *subscriber, id),
                Some(claim_payment(old(self)@, id)),
                claimed(old(self)@, id),
            ),
    {
        let authorized = self.has_authorized(subscriber);
        self.events.clear();
        if !authorized {
            return Err(Error::AuthRequired);
        }
        if self.open_disputes.contains(&id) {
            return Err(Error::DisputeAlreadyOpen);
        }
        let e = match self.escrows.get(&id) {
            Some(e) => *e,
            None => {
                return Err(Error::EscrowNotFound);
            },
        };
        if !subscriber.same(&e.subscriber) {
            return Err(Error::Unauthorized);
        }
        if self.ledger.timestamp <= e.released_at {
            return Err(Error::EscrowNotReleased);
        }
        if self.config.locked {
            return Err(Error::Reentrancy);
        }
        match check_transfer(&self.tokens, &e.token, &vault_address(), &e.subscriber, e.amount) {
            Some(x) => {
                return Err(x);
            },
            None => {},
        }
        self.escrows.remove(&id);
        self.events.push(
            Event::CancellationEscrowReleased {
                subscription_id: id,
                subscriber: e.subscriber,
                amount: e.amount,
            },
        );
        self.config.locked = true;
        let p = Some(
            Payment { token: e.token, from: vault_address(), to: e.subscriber, amount: e.amount },
        );
        assert(self@ =~= handed_over(old(self)@, p, claimed(old(self)@, id)));
        Ok(p)
    }

    /// Pays an escrowed balance back once the time for a dispute has run out, and returns it.
    pub fn claim_cancellation_escrow(&mut self, subscriber: &Address, id: u32) -> (r: Result<
        i128,
        Error,
    >)
        ensures
            ends(
                r,
                old(self)@,
                final(self)@,
                claim_refusal(old(self)@, *subscriber, id),
                old(self)@.escrows[id].amount,
                claimed(old(self)@, id),
            ),
            r matches Ok(amount) ==> moved(
                old(self)@,
                final(self)@,
                old(self)@.escrows[id].token,
                vault(),
                old(self)@.escrows[id].subscriber,
                amount as int,
            ) && *subscriber == old(self)@.escrows[id].subscriber,
    {
        proof {
            law_claiming_an_escrow(self@, *subscriber, id);
        }
        match self.begin_claim(subscriber, id) {
            Err(e) => Err(e),
            Ok(p) => {
                self.finish_payment(&p);
                assert(self@ =~= claimed(old(self)@, id));
                match p {
                    Some(x) => Ok(x.amount),
                    None => Ok(0),
                }
            },
        }
    }

    /// Lets the merchant dispute an escrowed balance while the time for it runs.
    pub fn lodge_escrow_dispute(&mut self, merchant: &Address, id: u32) -> (r: Result<u64, Error>)
        ensures
            ends(
                r,
                old(self)@,
                final(self)@,
                lodge_refusal(old(self)@, *merchant, id),
                old(self)@.config.next_dispute_id,
                lodged(old(self)@, id),
            ),
    {
        let authorized = self.has_authorized(merchant);
        self.events.clear();
        if !authorized {
            return Err(Error::AuthRequired);
        }
        if self.open_disputes.contains(&id) {
            return Err(Error::DisputeAlreadyOpen);
        }
        let e = match self.escrows.get(&id) {
            Some(e) => *e,
            None => {
                return Err(Error::EscrowNotFound);
            },
        };
        if !merchant.same(&e.merchant) {
            return Err(Error::Unauthorized);
        }
        if self.ledger.timestamp >= e.released_at {
            return Err(Error::EscrowNotReleased);
        }
        if self.config.next_dispute_id == u64::MAX {
            return Err(Error::Overflow);
        }
        self.escrows.remove(&id);
        self.events.push(
            Event::CancellationEscrowDisputed {
                subscription_id: id,
                merchant: e.merchant,
                amount: e.amount,
            },
        );
        let did: u64 = self.enter(
            Dispute {
                subscription_id: id,
                subscriber: e.subscriber,
                merchant: e.merchant,
                token: e.token,
                amount: e.amount,
                status: DisputeStatus::Open,
                opened_at: self.ledger.timestamp,
                evidence: None,
                response: None,
            },
        );
        assert(self@ =~= lodged(old(self)@, id));
        Ok(did)
    }
}

} // verus!
