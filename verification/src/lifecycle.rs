//! What the parties can do to a subscription between its start and its end.
use crate::agreement_laws::{
    ends_by_cancellation, law_cancellation, law_partial_refund, law_withdrawal, pays_back,
};
use crate::events::Event;
use crate::payments::{handed_over, hands_over, Payment};
use crate::records::{
    CancellationEscrow, CancellationPolicy, Subscription, SubscriptionStatus, TransferIntent,
};
use crate::token::{check_transfer, transfer_refusal, transferred};
use crate::types::{vault, vault_address, Address, Error, Key};
use crate::vault::{ends, State, Vault};
use vstd::prelude::*;

verus! {

/// How long a cancelled subscription's balance is held for the merchant to dispute.
pub const CANCELLATION_ESCROW_WINDOW_SECS: u64 = 259_200;

/// Why a call by one of a subscription's parties is refused.
pub open spec fn party_refusal(s: State, id: u32, who: Address) -> Option<Error> {
    if !s.authorized(who) {
        Some(Error::AuthRequired)
    } else if !s.subscriptions.dom().contains(id) {
        Some(Error::NotFound)
    } else if !s.subscriptions[id].party(who) {
        Some(Error::Forbidden)
    } else {
        None
    }
}

/// The state in which a subscription has been replaced, and one thing reported.
pub open spec fn with_sub(s: State, id: u32, sub: Subscription, e: Event) -> State {
    State { subscriptions: s.subscriptions.insert(id, sub), events: seq![e], ..s }
}

/// Why a subscription is not paused.
pub open spec fn pause_refusal(s: State, id: u32, who: Address) -> Option<Error> {
    if party_refusal(s, id, who) is Some {
        party_refusal(s, id, who)
    } else if s.subscriptions[id].status is Cancelled || s.subscriptions[id].status is Archived {
        Some(Error::InvalidStatusTransition)
    } else if s.is_over(s.subscriptions[id]) {
        Some(Error::SubscriptionExpired)
    } else {
        None
    }
}

/// The state after a subscription was paused. Pausing twice changes nothing.
pub open spec fn paused(s: State, id: u32, who: Address) -> State {
    let sub = s.subscriptions[id];
    if sub.status is Paused {
        s.quiet()
    } else {
        with_sub(
            s,
            id,
            Subscription { status: SubscriptionStatus::Paused, ..sub },
            Event::SubscriptionPaused { subscription_id: id, by: who },
        )
    }
}

/// Why a subscription is not resumed.
pub open spec fn resume_refusal(s: State, id: u32, who: Address) -> Option<Error> {
    if party_refusal(s, id, who) is Some {
        party_refusal(s, id, who)
    } else {
        let sub = s.subscriptions[id];
        if sub.status is Cancelled || sub.status is Archived {
            Some(Error::InvalidStatusTransition)
        } else if s.is_over(sub) {
            Some(Error::SubscriptionExpired)
        } else if (sub.status is GracePeriod || sub.status is InsufficientBalance)
            && sub.prepaid_balance < sub.amount {
            Some(Error::InsufficientBalance)
        } else {
            None
        }
    }
}

/// The state after a subscription was resumed. Resuming an active one changes nothing.
pub open spec fn resumed(s: State, id: u32, who: Address) -> State {
    let sub = s.subscriptions[id];
    if sub.status is Active {
        s.quiet()
    } else {
        with_sub(
            s,
            id,
            Subscription {
                status: SubscriptionStatus::Active,
                grace_start_timestamp: None,
                ..sub
            },
            Event::SubscriptionResumed { subscription_id: id, by: who },
        )
    }
}

/// Why a subscription's balance cannot be dealt with as the cancellation policy asks.
pub open spec fn close_refusal(s: State, policy: CancellationPolicy, id: u32) -> Option<Error> {
    let sub = s.subscriptions[id];
    if sub.prepaid_balance <= 0 {
        None
    } else {
        match policy {
            CancellationPolicy::Retain => None,
            CancellationPolicy::Escrow => if s.ledger.timestamp + CANCELLATION_ESCROW_WINDOW_SECS
                > u64::MAX {
                Some(Error::Overflow)
            } else {
                None
            },
            CancellationPolicy::Refund => if s.config.locked {
                Some(Error::Reentrancy)
            } else {
                balance_payment(s, id, sub.prepaid_balance).refusal(s.tokens)
            },
        }
    }
}

/// A transfer out of a subscription's balance to its subscriber.
pub open spec fn balance_payment(s: State, id: u32, amount: i128) -> Payment {
    let sub = s.subscriptions[id];
    Payment { token: sub.token, from: vault(), to: sub.subscriber, amount }
}

/// The transfer that a cancellation makes.
pub open spec fn close_payment(s: State, policy: CancellationPolicy, id: u32) -> Option<Payment> {
    let balance = s.subscriptions[id].prepaid_balance;
    if balance > 0 && policy is Refund {
        Some(balance_payment(s, id, balance))
    } else {
        None
    }
}

/// The escrow that holds a cancelled subscription's balance.
pub open spec fn escrow_of(s: State, id: u32) -> CancellationEscrow {
    let sub = s.subscriptions[id];
    CancellationEscrow {
        subscription_id: id,
        amount: sub.prepaid_balance,
        token: sub.token,
        subscriber: sub.subscriber,
        merchant: sub.merchant,
        released_at: (s.ledger.timestamp + CANCELLATION_ESCROW_WINDOW_SECS) as u64,
    }
}

/// The state after a subscription was cancelled and its balance kept, held in escrow or paid
/// back, as the policy says.
pub open spec fn closed(s: State, policy: CancellationPolicy, id: u32, by: Address) -> State {
    let sub = s.subscriptions[id];
    let ended = Subscription { status: SubscriptionStatus::Cancelled, cancel_at: None, ..sub };
    let report = Event::SubscriptionCancelled { subscription_id: id, by };
    if sub.prepaid_balance <= 0 || policy is Retain {
        with_sub(s, id, ended, report)
    } else if policy is Escrow {
        State {
            subscriptions: s.subscriptions.insert(id, Subscription { prepaid_balance: 0, ..ended }),
            escrows: s.escrows.insert(id, escrow_of(s, id)),
            events: seq![
                report,
                Event::CancellationEscrowOpened {
                    subscription_id: id,
                    subscriber: sub.subscriber,
                    merchant: sub.merchant,
                    amount: sub.prepaid_balance,
                    released_at: escrow_of(s, id).released_at,
                },
            ],
            ..s
        }
    } else {
        State {
            subscriptions: s.subscriptions.insert(id, Subscription { prepaid_balance: 0, ..ended }),
            tokens: transferred(s.tokens, sub.token, vault(), sub.subscriber, sub.prepaid_balance),
            events: seq![report],
            ..s
        }
    }
}

/// Why a subscription is not cancelled.
pub open spec fn cancel_refusal(s: State, id: u32, who: Address) -> Option<Error> {
    if party_refusal(s, id, who) is Some {
        party_refusal(s, id, who)
    } else {
        let sub = s.subscriptions[id];
        if sub.status is Cancelled {
            None
        } else if sub.status is Archived {
            Some(Error::InvalidStatusTransition)
        } else if s.is_over(sub) {
            Some(Error::SubscriptionExpired)
        } else {
            close_refusal(s, s.config.cancellation, id)
        }
    }
}

/// The state after a subscription was cancelled. Cancelling twice changes nothing.
pub open spec fn cancelled(s: State, id: u32, who: Address) -> State {
    if s.subscriptions[id].status is Cancelled {
        s.quiet()
    } else {
        closed(s, s.config.cancellation, id, who)
    }
}

/// Why a cancellation is not scheduled.
pub open spec fn schedule_refusal(s: State, id: u32, who: Address, cancel_at: u64) -> Option<Error> {
    if party_refusal(s, id, who) is Some {
        party_refusal(s, id, who)
    } else if s.subscriptions[id].ended() {
        Some(Error::InvalidStatusTransition)
    } else if s.is_over(s.subscriptions[id]) {
        Some(Error::SubscriptionExpired)
    } else if cancel_at <= s.ledger.timestamp {
        Some(Error::InvalidInput)
    } else {
        None
    }
}

/// The state after a cancellation was scheduled.
pub open spec fn scheduled(s: State, id: u32, cancel_at: u64) -> State {
    with_sub(
        s,
        id,
        Subscription { cancel_at: Some(cancel_at), ..s.subscriptions[id] },
        Event::CancelScheduled { subscription_id: id, cancel_at },
    )
}

/// The state after a scheduled cancellation was called off, if there was one.
pub open spec fn unscheduled(s: State, id: u32) -> State {
    let sub = s.subscriptions[id];
    if sub.cancel_at is None {
        s.quiet()
    } else {
        with_sub(
            s,
            id,
            Subscription { cancel_at: None, ..sub },
            Event::CancelUnscheduled { subscription_id: id },
        )
    }
}

/// Why renewal is not switched.
pub open spec fn auto_renew_refusal(s: State, id: u32, who: Address, enabled: bool) -> Option<Error> {
    if party_refusal(s, id, who) is Some {
        party_refusal(s, id, who)
    } else {
        let sub = s.subscriptions[id];
        if sub.status is Cancelled || sub.status is Archived {
            Some(Error::InvalidStatusTransition)
        } else if s.is_over(sub) {
            Some(Error::SubscriptionExpired)
        } else if enabled && !sub.auto_renew && (sub.auto_renew_disabled_at matches Some(at)
            && s.ledger.timestamp > at + sub.interval_seconds) {
            Some(Error::RenewalWindowClosed)
        } else {
            None
        }
    }
}

/// The state after renewal was switched. The time of the first of several switches off stays.
pub open spec fn auto_renew_set(s: State, id: u32, enabled: bool) -> State {
    let sub = s.subscriptions[id];
    if sub.auto_renew == enabled {
        s.quiet()
    } else {
        with_sub(
            s,
            id,
            Subscription {
                auto_renew: enabled,
                auto_renew_disabled_at: (if enabled {
                    None
                } else {
                    Some(s.ledger.timestamp)
                }),
                ..sub
            },
            Event::AutoRenewToggled {
                subscription_id: id,
                enabled,
                timestamp: s.ledger.timestamp,
            },
        )
    }
}

/// Why the ledger bound is not changed.
pub open spec fn ledger_bound_refusal(
    s: State,
    id: u32,
    who: Address,
    bound: Option<u32>,
) -> Option<Error> {
    if party_refusal(s, id, who) is Some {
        party_refusal(s, id, who)
    } else if s.subscriptions[id].ended() {
        Some(Error::InvalidStatusTransition)
    } else if s.is_over(s.subscriptions[id]) {
        Some(Error::SubscriptionExpired)
    } else if bound matches Some(b) && b <= s.ledger.sequence {
        Some(Error::InvalidExpiration)
    } else {
        None
    }
}

/// The state after the ledger bound was changed.
pub open spec fn ledger_bound_set(s: State, id: u32, who: Address, bound: Option<u32>) -> State {
    let sub = s.subscriptions[id];
    with_sub(
        s,
        id,
        Subscription { expires_at_ledger: bound, ..sub },
        Event::ExpirationLedgerSet {
            subscription_id: id,
            authorizer: who,
            expires_at_ledger: bound,
            previous_expires_at_ledger: sub.expires_at_ledger,
        },
    )
}

/// Why an ended subscription is not archived.
pub open spec fn cleanup_refusal(s: State, id: u32, who: Address) -> Option<Error> {
    if party_refusal(s, id, who) is Some {
        party_refusal(s, id, who)
    } else {
        let sub = s.subscriptions[id];
        if sub.status is Archived || !(sub.status is Cancelled || s.is_over(sub)) {
            Some(Error::InvalidStatusTransition)
        } else if sub.prepaid_balance <= 0 {
            None
        } else if s.config.locked {
            Some(Error::Reentrancy)
        } else {
            balance_payment(s, id, sub.prepaid_balance).refusal(s.tokens)
        }
    }
}

/// The transfer that archiving a subscription makes.
pub open spec fn cleanup_payment(s: State, id: u32) -> Option<Payment> {
    let balance = s.subscriptions[id].prepaid_balance;
    if balance > 0 {
        Some(balance_payment(s, id, balance))
    } else {
        None
    }
}

/// The state after an ended subscription was archived and what was left of its balance paid back.
pub open spec fn archived(s: State, id: u32) -> State {
    let sub = s.subscriptions[id];
    let refunded: i128 = if sub.prepaid_balance > 0 {
        sub.prepaid_balance
    } else {
        0
    };
    State {
        subscriptions: s.subscriptions.insert(
            id,
            Subscription {
                status: SubscriptionStatus::Archived,
                prepaid_balance: (sub.prepaid_balance - refunded) as i128,
                ..sub
            },
        ),
        tokens: if refunded > 0 {
            transferred(s.tokens, sub.token, vault(), sub.subscriber, refunded)
        } else {
            s.tokens
        },
        events: seq![Event::SubscriptionArchived { subscription_id: id, refunded }],
        ..s
    }
}

/// Why a subscriber's withdrawal is refused.
pub open spec fn withdraw_refusal(s: State, id: u32, who: Address) -> Option<Error> {
    if !s.authorized(who) {
        Some(Error::AuthRequired)
    } else if s.config.locked {
        Some(Error::Reentrancy)
    } else if s.config.emergency_stop {
        Some(Error::EmergencyStopActive)
    } else if !s.subscriptions.dom().contains(id) {
        Some(Error::NotFound)
    } else {
        let sub = s.subscriptions[id];
        if who != sub.subscriber {
            Some(Error::Unauthorized)
        } else if !sub.ended() && !s.is_over(sub) {
            Some(Error::InvalidStatusTransition)
        } else if sub.prepaid_balance <= 0 {
            Some(Error::InvalidAmount)
        } else {
            transfer_refusal(s.tokens, sub.token, vault(), sub.subscriber, sub.prepaid_balance)
        }
    }
}

/// The state after a subscriber withdrew all that was left.
pub open spec fn withdrawn(s: State, id: u32) -> State {
    let sub = s.subscriptions[id];
    State {
        subscriptions: s.subscriptions.insert(id, Subscription { prepaid_balance: 0, ..sub }),
        tokens: transferred(s.tokens, sub.token, vault(), sub.subscriber, sub.prepaid_balance),
        events: seq![
            Event::SubscriberWithdrawn {
                subscription_id: id,
                subscriber: sub.subscriber,
                amount: sub.prepaid_balance,
            },
        ],
        ..s
    }
}

/// Why a partial refund is refused.
pub open spec fn refund_refusal(
    s: State,
    admin: Address,
    id: u32,
    subscriber: Address,
    amount: i128,
) -> Option<Error> {
    if s.admin_refusal(admin) is Some {
        s.admin_refusal(admin)
    } else if s.config.locked {
        Some(Error::Reentrancy)
    } else if s.config.emergency_stop {
        Some(Error::EmergencyStopActive)
    } else if !s.subscriptions.dom().contains(id) {
        Some(Error::NotFound)
    } else {
        let sub = s.subscriptions[id];
        if subscriber != sub.subscriber {
            Some(Error::Unauthorized)
        } else if amount <= 0 {
            Some(Error::InvalidAmount)
        } else if amount > sub.prepaid_balance {
            Some(Error::InsufficientBalance)
        } else {
            transfer_refusal(s.tokens, sub.token, vault(), sub.subscriber, amount)
        }
    }
}

/// The state after part of a prepaid balance was paid back.
pub open spec fn refunded(s: State, id: u32, amount: i128) -> State {
    let sub = s.subscriptions[id];
    State {
        subscriptions: s.subscriptions.insert(
            id,
            Subscription { prepaid_balance: (sub.prepaid_balance - amount) as i128, ..sub },
        ),
        tokens: transferred(s.tokens, sub.token, vault(), sub.subscriber, amount),
        events: seq![
            Event::PartialRefund { subscription_id: id, subscriber: sub.subscriber, amount },
        ],
        ..s
    }
}

/// Why an offer to hand a subscription over is refused.
pub open spec fn initiate_refusal(
    s: State,
    id: u32,
    from: Address,
    to: Address,
    expires_at: u64,
) -> Option<Error> {
    if !s.authorized(from) {
        Some(Error::AuthRequired)
    } else if !s.subscriptions.dom().contains(id) {
        Some(Error::NotFound)
    } else if from != s.subscriptions[id].subscriber {
        Some(Error::Unauthorized)
    } else if to == from {
        Some(Error::InvalidTransferTarget)
    } else if s.subscriptions[id].ended() {
        Some(Error::InvalidStatusTransition)
    } else if expires_at <= s.ledger.timestamp {
        Some(Error::InvalidInput)
    } else {
        None
    }
}

/// The state after a subscription was offered.
pub open spec fn offered(s: State, id: u32, from: Address, to: Address, expires_at: u64) -> State {
    State {
        transfers: s.transfers.insert(id, TransferIntent { from, to, expires_at }),
        events: seq![Event::TransferInitiated { subscription_id: id, from, to }],
        ..s
    }
}

/// Why an offer cannot be accepted.
pub open spec fn accept_refusal(s: State, id: u32, to: Address) -> Option<Error> {
    if !s.authorized(to) {
        Some(Error::AuthRequired)
    } else if !s.subscriptions.dom().contains(id) {
        Some(Error::NotFound)
    } else if !s.transfers.dom().contains(id) {
        Some(Error::TransferIntentNotFound)
    } else if to != s.transfers[id].to {
        Some(Error::Unauthorized)
    } else if s.ledger.timestamp > s.transfers[id].expires_at {
        Some(Error::TransferIntentExpired)
    } else {
        None
    }
}

/// The state after a subscription was handed over.
pub open spec fn accepted(s: State, id: u32, to: Address) -> State {
    State {
        subscriptions: s.subscriptions.insert(
            id,
            Subscription { subscriber: to, ..s.subscriptions[id] },
        ),
        transfers: s.transfers.remove(id),
        events: seq![Event::TransferAccepted { subscription_id: id, to }],
        ..s
    }
}

/// Why an offer cannot be vetoed.
pub open spec fn veto_refusal(s: State, id: u32, merchant: Address) -> Option<Error> {
    if !s.authorized(merchant) {
        Some(Error::AuthRequired)
    } else if !s.subscriptions.dom().contains(id) {
        Some(Error::NotFound)
    } else if merchant != s.subscriptions[id].merchant {
        Some(Error::Forbidden)
    } else if !s.transfers.dom().contains(id) {
        Some(Error::TransferIntentNotFound)
    } else {
        None
    }
}

/// The state after an offer was vetoed.
pub open spec fn vetoed(s: State, id: u32, merchant: Address) -> State {
    State {
        transfers: s.transfers.remove(id),
        events: seq![Event::TransferVetoed { subscription_id: id, merchant }],
        ..s
    }
}

impl Vault {
    /// Why a call by one of a subscription's parties is refused, or the subscription.
    pub(crate) fn load_for(&self, id: u32, who: &Address) -> (r: Result<Subscription, Error>)
        ensures
            match party_refusal(self@, id, *who) {
                Some(e) => r == Err::<Subscription, Error>(e),
                None => r == Ok::<Subscription, Error>(self@.subscriptions[id])
                    && self@.subscriptions.dom().contains(id),
            },
    {
        if !self.has_authorized(who) {
            return Err(Error::AuthRequired);
        }
        match self.subscriptions.get(&id) {
            None => Err(Error::NotFound),
            Some(sub) => {
                if sub.is_party(who) {
                    Ok(*sub)
                } else {
                    Err(Error::Forbidden)
                }
            },
        }
    }

    /// Pauses a subscription.
    pub fn pause_subscription(&mut self, id: u32, who: &Address) -> (r: Result<(), Error>)
        ensures
            ends(
                r,
                old(self)@,
                final(self)@,
                pause_refusal(old(self)@, id, *who),
                (),
                paused(old(self)@, id, *who),
            ),
    {
        let loaded = self.load_for(id, who);
        self.events.clear();
        let mut sub = match loaded {
            Ok(s) => s,
            Err(e) => {
                return Err(e);
            },
        };
        match sub.status {
            SubscriptionStatus::Cancelled => {
                return Err(Error::InvalidStatusTransition);
            },
            SubscriptionStatus::Archived => {
                return Err(Error::InvalidStatusTransition);
            },
            _ => {},
        }
        if self.has_run_out(&sub) {
            return Err(Error::SubscriptionExpired);
        }
        if sub.status == SubscriptionStatus::Paused {
            return Ok(());
        }
        sub.status = SubscriptionStatus::Paused;
        self.subscriptions.insert(id, sub);
        self.events.push(Event::SubscriptionPaused { subscription_id: id, by: *who });
        assert(self@ =~= paused(old(self)@, id, *who));
        Ok(())
    }

    /// Resumes a subscription. One that ran out of money must be able to pay again.
    pub fn resume_subscription(&mut self, id: u32, who: &Address) -> (r: Result<(), Error>)
        ensures
            ends(
                r,
                old(self)@,
                final(self)@,
                resume_refusal(old(self)@, id, *who),
                (),
                resumed(old(self)@, id, *who),
            ),
    {
        let loaded = self.load_for(id, who);
        self.events.clear();
        let mut sub = match loaded {
            Ok(s) => s,
            Err(e) => {
                return Err(e);
            },
        };
        match sub.status {
            SubscriptionStatus::Cancelled => {
                return Err(Error::InvalidStatusTransition);
            },
            SubscriptionStatus::Archived => {
                return Err(Error::InvalidStatusTransition);
            },
            _ => {},
        }
        if self.has_run_out(&sub) {
            return Err(Error::SubscriptionExpired);
        }
        if (sub.status == SubscriptionStatus::GracePeriod || sub.status
            == SubscriptionStatus::InsufficientBalance) && sub.prepaid_balance < sub.amount {
            return Err(Error::InsufficientBalance);
        }
        if sub.status == SubscriptionStatus::Active {
            return Ok(());
        }
        sub.status = SubscriptionStatus::Active;
        sub.grace_start_timestamp = None;
        self.subscriptions.insert(id, sub);
        self.events.push(Event::SubscriptionResumed { subscription_id: id, by: *who });
        assert(self@ =~= resumed(old(self)@, id, *who));
        Ok(())
    }

    /// Why a subscription's balance cannot be dealt with as the cancellation policy asks.
    pub(crate) fn check_close(&self, policy: CancellationPolicy, id: u32, sub: &Subscription) -> (r: Option<
        Error,
    >)
        requires
            self@.subscriptions.dom().contains(id),
            *sub == self@.subscriptions[id],
        ensures
            r == close_refusal(self@, policy, id),
    {
        if sub.prepaid_balance <= 0 {
            return None;
        }
        match policy {
            CancellationPolicy::Retain => None,
            CancellationPolicy::Escrow => {
                if self.ledger.timestamp.checked_add(CANCELLATION_ESCROW_WINDOW_SECS).is_none() {
                    Some(Error::Overflow)
                } else {
                    None
                }
            },
            CancellationPolicy::Refund => if self.config.locked {
                Some(Error::Reentrancy)
            } else {
                check_transfer(
                    &self.tokens,
                    &sub.token,
                    &vault_address(),
                    &sub.subscriber,
                    sub.prepaid_balance,
                )
            },
        }
    }

    /// The first step of a cancellation.
    fn begin_close(
        &mut self,
        policy: CancellationPolicy,
        id: u32,
        sub: &Subscription,
        by: &Address,
    ) -> (p: Option<Payment>)
        requires
            old(self)@.subscriptions.dom().contains(id),
            *sub == old(self)@.subscriptions[id],
            close_refusal(old(self)@, policy, id) is None,
        ensures
            p == close_payment(old(self)@, policy, id),
            final(self)@ == handed_over(old(self)@, p, closed(old(self)@, policy, id, *by)),
    {
        let mut p: Option<Payment> = None;
        self.events.clear();
        self.events.push(Event::SubscriptionCancelled { subscription_id: id, by: *by });
        let mut ended = *sub;
        ended.status = SubscriptionStatus::Cancelled;
        ended.cancel_at = None;
        if sub.prepaid_balance > 0 {
            match policy {
                CancellationPolicy::Retain => {},
                CancellationPolicy::Escrow => {
                    let released_at: u64 = self.ledger.timestamp + CANCELLATION_ESCROW_WINDOW_SECS;
                    self.escrows.insert(
                        id,
                        CancellationEscrow {
                            subscription_id: id,
                            amount: sub.prepaid_balance,
                            token: sub.token,
                            subscriber: sub.subscriber,
                            merchant: sub.merchant,
                            released_at,
                        },
                    );
                    self.events.push(
                        Event::CancellationEscrowOpened {
                            subscription_id: id,
                            subscriber: sub.subscriber,
                            merchant: sub.merchant,
                            amount: sub.prepaid_balance,
                            released_at,
                        },
                    );
                    ended.prepaid_balance = 0;
                },
                CancellationPolicy::Refund => {
                    p = Some(
                        Payment {
                            token: sub.token,
                            from: vault_address(),
                            to: sub.subscriber,
                            amount: sub.prepaid_balance,
                        },
                    );
                    self.config.locked = true;
                    ended.prepaid_balance = 0;
                },
            }
        }
        self.subscriptions.insert(id, ended);
        assert(self@ =~= handed_over(old(self)@, p, closed(old(self)@, policy, id, *by)));
        p
    }

    /// Cancels a subscription and deals with its balance as the policy says.
    pub(crate) fn close(
        &mut self,
        policy: CancellationPolicy,
        id: u32,
        sub: &Subscription,
        by: &Address,
    )
        requires
            old(self)@.subscriptions.dom().contains(id),
            *sub == old(self)@.subscriptions[id],
            close_refusal(old(self)@, policy, id) is None,
        ensures
            final(self)@ == closed(old(self)@, policy, id, *by),
    {
        let p = self.begin_close(policy, id, sub, by);
        self.finish_payment(&p);
        assert(self@ =~= closed(old(self)@, policy, id, *by));
    }

    /// Cancels a subscription.
    pub fn cancel_subscription(&mut self, id: u32, who: &Address) -> (r: Result<(), Error>)
        ensures
            ends(
                r,
                old(self)@,
                final(self)@,
                cancel_refusal(old(self)@, id, *who),
                (),
                cancelled(old(self)@, id, *who),
            ),
            r is Ok && !(old(self)@.subscriptions[id].status is Cancelled) ==> ends_by_cancellation(
                old(self)@,
                final(self)@,
                old(self)@.config.cancellation,
                id,
            ),
    {
        proof {
            law_cancellation(self@, id, *who);
        }
        let sub = match self.load_for(id, who) {
            Ok(s) => s,
            Err(e) => {
                self.events.clear();
                return Err(e);
            },
        };
        match sub.status {
            SubscriptionStatus::Cancelled => {
                self.events.clear();
                return Ok(());
            },
            SubscriptionStatus::Archived => {
                self.events.clear();
                return Err(Error::InvalidStatusTransition);
            },
            _ => {},
        }
        if self.has_run_out(&sub) {
            self.events.clear();
            return Err(Error::SubscriptionExpired);
        }
        let policy = self.config.cancellation;
        match self.check_close(policy, id, &sub) {
            Some(e) => {
                self.events.clear();
                Err(e)
            },
            None => {
                self.close(policy, id, &sub, who);
                Ok(())
            },
        }
    }

    /// Schedules the cancellation of a subscription.
    pub fn schedule_cancel(&mut self, id: u32, who: &Address, cancel_at: u64) -> (r: Result<
        (),
        Error,
    >)
        ensures
            ends(
                r,
                old(self)@,
                final(self)@,
                schedule_refusal(old(self)@, id, *who, cancel_at),
                (),
                scheduled(old(self)@, id, cancel_at),
            ),
    {
        let loaded = self.load_for(id, who);
        self.events.clear();
        let mut sub = match loaded {
            Ok(s) => s,
            Err(e) => {
                return Err(e);
            },
        };
        if sub.has_ended() {
            return Err(Error::InvalidStatusTransition);
        }
        if self.has_run_out(&sub) {
            return Err(Error::SubscriptionExpired);
        }
        if cancel_at <= self.ledger.timestamp {
            return Err(Error::InvalidInput);
        }
        sub.cancel_at = Some(cancel_at);
        self.subscriptions.insert(id, sub);
        self.events.push(Event::CancelScheduled { subscription_id: id, cancel_at });
        assert(self@ =~= scheduled(old(self)@, id, cancel_at));
        Ok(())
    }

    /// Calls off a scheduled cancellation, if there is one.
    pub fn unschedule_cancel(&mut self, id: u32, who: &Address) -> (r: Result<(), Error>)
        ensures
            ends(
                r,
                old(self)@,
                final(self)@,
                party_refusal(old(self)@, id, *who),
                (),
                unscheduled(old(self)@, id),
            ),
    {
        let loaded = self.load_for(id, who);
        self.events.clear();
        let mut sub = match loaded {
            Ok(s) => s,
            Err(e) => {
                return Err(e);
            },
        };
        if sub.cancel_at.is_none() {
            return Ok(());
        }
        sub.cancel_at = None;
        self.subscriptions.insert(id, sub);
        self.events.push(Event::CancelUnscheduled { subscription_id: id });
        assert(self@ =~= unscheduled(old(self)@, id));
        Ok(())
    }

    /// Switches renewal on or off.
    pub fn set_auto_renew(&mut self, id: u32, who: &Address, enabled: bool) -> (r: Result<
        (),
        Error,
    >)
        ensures
            ends(
                r,
                old(self)@,
                final(self)@,
                auto_renew_refusal(old(self)@, id, *who, enabled),
                (),
                auto_renew_set(old(self)@, id, enabled),
            ),
    {
        let loaded = self.load_for(id, who);
        self.events.clear();
        let mut sub = match loaded {
            Ok(s) => s,
            Err(e) => {
                return Err(e);
            },
        };
        match sub.status {
            SubscriptionStatus::Cancelled => {
                return Err(Error::InvalidStatusTransition);
            },
            SubscriptionStatus::Archived => {
                return Err(Error::InvalidStatusTransition);
            },
            _ => {},
        }
        if self.has_run_out(&sub) {
            return Err(Error::SubscriptionExpired);
        }
        let now: u64 = self.ledger.timestamp;
        if enabled && !sub.auto_renew {
            match sub.auto_renew_disabled_at {
                Some(at) => {
                    if now as u128 > at as u128 + sub.interval_seconds as u128 {
                        return Err(Error::RenewalWindowClosed);
                    }
                },
                None => {},
            }
        }
        if sub.auto_renew == enabled {
            return Ok(());
        }
        sub.auto_renew = enabled;
        sub.auto_renew_disabled_at = if enabled {
            None
        } else {
            Some(now)
        };
        self.subscriptions.insert(id, sub);
        self.events.push(Event::AutoRenewToggled { subscription_id: id, enabled, timestamp: now });
        assert(self@ =~= auto_renew_set(old(self)@, id, enabled));
        Ok(())
    }

    /// Sets or clears the ledger bound of a subscription.
    pub fn set_subscription_expiration_ledger(
        &mut self,
        id: u32,
        who: &Address,
        bound: Option<u32>,
    ) -> (r: Result<(), Error>)
        ensures
            ends(
                r,
                old(self)@,
                final(self)@,
                ledger_bound_refusal(old(self)@, id, *who, bound),
                (),
                ledger_bound_set(old(self)@, id, *who, bound),
            ),
    {
        let loaded = self.load_for(id, who);
        self.events.clear();
        let mut sub = match loaded {
            Ok(s) => s,
            Err(e) => {
                return Err(e);
            },
        };
        if sub.has_ended() {
            return Err(Error::InvalidStatusTransition);
        }
        if self.has_run_out(&sub) {
            return Err(Error::SubscriptionExpired);
        }
        match bound {
            Some(b) => {
                if b <= self.ledger.sequence {
                    return Err(Error::InvalidExpiration);
                }
            },
            None => {},
        }
        let previous = sub.expires_at_ledger;
        sub.expires_at_ledger = bound;
        self.subscriptions.insert(id, sub);
        self.events.push(
            Event::ExpirationLedgerSet {
                subscription_id: id,
                authorizer: *who,
                expires_at_ledger: bound,
                previous_expires_at_ledger: previous,
            },
        );
        assert(self@ =~= ledger_bound_set(old(self)@, id, *who, bound));
        Ok(())
    }

    /// The first step of archiving a subscription.
    pub(crate) fn begin_cleanup(&mut self, id: u32, who: &Address) -> (r: Result<
        Option<Payment>,
        Error,
    >)
        ensures
            hands_over(
                r,
                old(self)@,
                final(self)@,
                cleanup_refusal(old(self)@, id, *who),
                cleanup_payment(old(self)@, id),
                archived(old(self)@, id),
            ),
    {
        let loaded = self.load_for(id, who);
        self.events.clear();
        let mut sub = match loaded {
            Ok(s) => s,
            Err(e) => {
                return Err(e);
            },
        };
        if sub.status == SubscriptionStatus::Archived || !(sub.status
            == SubscriptionStatus::Cancelled || self.has_run_out(&sub)) {
            return Err(Error::InvalidStatusTransition);
        }
        let mut refunded: i128 = 0;
        let mut p: Option<Payment> = None;
        if sub.prepaid_balance > 0 {
            refunded = sub.prepaid_balance;
            if self.config.locked {
                return Err(Error::Reentrancy);
            }
            match check_transfer(
                &self.tokens,
                &sub.token,
                &vault_address(),
                &sub.subscriber,
                refunded,
            ) {
                Some(e) => {
                    return Err(e);
                },
                None => {},
            }
            p = Some(
                Payment {
                    token: sub.token,
                    from: vault_address(),
                    to: sub.subscriber,
                    amount: refunded,
                },
            );
            self.config.locked = true;
            sub.prepaid_balance = 0;
        }
        sub.status = SubscriptionStatus::Archived;
        self.subscriptions.insert(id, sub);
        self.events.push(Event::SubscriptionArchived { subscription_id: id, refunded });
        assert(self@ =~= handed_over(old(self)@, p, archived(old(self)@, id)));
        Ok(p)
    }

    /// Archives a subscription that has ended and pays back what is left.
    pub fn cleanup_subscription(&mut self, id: u32, who: &Address) -> (r: Result<(), Error>)
        ensures
            ends(
                r,
                old(self)@,
                final(self)@,
                cleanup_refusal(old(self)@, id, *who),
                (),
                archived(old(self)@, id),
            ),
    {
        match self.begin_cleanup(id, who) {
            Err(e) => Err(e),
            Ok(p) => {
                self.finish_payment(&p);
                assert(self@ =~= archived(old(self)@, id));
                Ok(())
            },
        }
    }

    /// The first step of a subscriber's withdrawal.
    pub(crate) fn begin_withdrawal(&mut self, id: u32, who: &Address) -> (r: Result<
        Option<Payment>,
        Error,
    >)
        ensures
            hands_over(
                r,
                old(self)@,
                final(self)@,
                withdraw_refusal(old(self)@, id, *who),
                Some(
                    balance_payment(
                        old(self)@,
                        id,
                        old(self)@.subscriptions[id].prepaid_balance,
                    ),
                ),
                withdrawn(old(self)@, id),
            ),
    {
        let authorized = self.has_authorized(who);
        self.events.clear();
        if !authorized {
            return Err(Error::AuthRequired);
        }
        if self.config.locked {
            return Err(Error::Reentrancy);
        }
        if self.config.emergency_stop {
            return Err(Error::EmergencyStopActive);
        }
        let mut sub = match self.subscriptions.get(&id) {
            Some(s) => *s,
            None => {
                return Err(Error::NotFound);
            },
        };
        if !who.same(&sub.subscriber) {
            return Err(Error::Unauthorized);
        }
        if !sub.has_ended() && !self.has_run_out(&sub) {
            return Err(Error::InvalidStatusTransition);
        }
        let amount: i128 = sub.prepaid_balance;
        if amount <= 0 {
            return Err(Error::InvalidAmount);
        }
        match check_transfer(&self.tokens, &sub.token, &vault_address(), &sub.subscriber, amount) {
            Some(e) => {
                return Err(e);
            },
            None => {},
        }
        sub.prepaid_balance = 0;
        self.subscriptions.insert(id, sub);
        self.events.push(
            Event::SubscriberWithdrawn { subscription_id: id, subscriber: sub.subscriber, amount },
        );
        self.config.locked = true;
        let p = Some(
            Payment { token: sub.token, from: vault_address(), to: sub.subscriber, amount },
        );
        assert(self@ =~= handed_over(old(self)@, p, withdrawn(old(self)@, id)));
        Ok(p)
    }

    /// Pays the balance of an ended subscription back to its subscriber.
    pub fn withdraw_subscriber_funds(&mut self, id: u32, who: &Address) -> (r: Result<(), Error>)
        ensures
            ends(
                r,
                old(self)@,
                final(self)@,
                withdraw_refusal(old(self)@, id, *who),
                (),
                withdrawn(old(self)@, id),
            ),
            r is Ok ==> pays_back(
                old(self)@,
                final(self)@,
                id,
                old(self)@.subscriptions[id].prepaid_balance as int,
            ) && *who == old(self)@.subscriptions[id].subscriber,
    {
        proof {
            law_withdrawal(self@, id, *who);
        }
        match self.begin_withdrawal(id, who) {
            Err(e) => Err(e),
            Ok(p) => {
                self.finish_payment(&p);
                assert(self@ =~= withdrawn(old(self)@, id));
                Ok(())
            },
        }
    }

    /// The first step of a partial refund.
    pub(crate) fn begin_partial_refund(
        &mut self,
        admin: &Address,
        id: u32,
        subscriber: &Address,
        amount: i128,
    ) -> (r: Result<Option<Payment>, Error>)
        ensures
            hands_over(
                r,
                old(self)@,
                final(self)@,
                refund_refusal(old(self)@, *admin, id, *subscriber, amount),
                Some(balance_payment(old(self)@, id, amount)),
                refunded(old(self)@, id, amount),
            ),
    {
        let refusal = self.check_admin(admin);
        self.events.clear();
        match refusal {
            Some(e) => {
                return Err(e);
            },
            None => {},
        }
        if self.config.locked {
            return Err(Error::Reentrancy);
        }
        if self.config.emergency_stop {
            return Err(Error::EmergencyStopActive);
        }
        let mut sub = match self.subscriptions.get(&id) {
            Some(s) => *s,
            None => {
                return Err(Error::NotFound);
            },
        };
        if !subscriber.same(&sub.subscriber) {
            return Err(Error::Unauthorized);
        }
        if amount <= 0 {
            return Err(Error::InvalidAmount);
        }
        if amount > sub.prepaid_balance {
            return Err(Error::InsufficientBalance);
        }
        match check_transfer(&self.tokens, &sub.token, &vault_address(), &sub.subscriber, amount) {
            Some(e) => {
                return Err(e);
            },
            None => {},
        }
        sub.prepaid_balance = sub.prepaid_balance - amount;
        self.subscriptions.insert(id, sub);
        self.events.push(
            Event::PartialRefund { subscription_id: id, subscriber: sub.subscriber, amount },
        );
        self.config.locked = true;
        let p = Some(
            Payment { token: sub.token, from: vault_address(), to: sub.subscriber, amount },
        );
        assert(self@ =~= handed_over(old(self)@, p, refunded(old(self)@, id, amount)));
        Ok(p)
    }

    /// Pays part of a prepaid balance back, at the administrator's word.
    pub fn partial_refund(
        &mut self,
        admin: &Address,
        id: u32,
        subscriber: &Address,
        amount: i128,
    ) -> (r: Result<(), Error>)
        ensures
            ends(
                r,
                old(self)@,
                final(self)@,
                refund_refusal(old(self)@, *admin, id, *subscriber, amount),
                (),
                refunded(old(self)@, id, amount),
            ),
            r is Ok ==> pays_back(old(self)@, final(self)@, id, amount as int) && *subscriber == old(
                self,
            )@.subscriptions[id].subscriber,
    {
        proof {
            law_partial_refund(self@, *admin, id, *subscriber, amount);
        }
        match self.begin_partial_refund(admin, id, subscriber, amount) {
            Err(e) => Err(e),
            Ok(p) => {
                self.finish_payment(&p);
                assert(self@ =~= refunded(old(self)@, id, amount));
                Ok(())
            },
        }
    }

    /// Offers a subscription to another subscriber.
    pub fn initiate_transfer(
        &mut self,
        id: u32,
        from: &Address,
        to: &Address,
        expires_at: u64,
    ) -> (r: Result<(), Error>)
        ensures
            ends(
                r,
                old(self)@,
                final(self)@,
                initiate_refusal(old(self)@, id, *from, *to, expires_at),
                (),
                offered(old(self)@, id, *from, *to, expires_at),
            ),
    {
        let authorized = self.has_authorized(from);
        self.events.clear();
        if !authorized {
            return Err(Error::AuthRequired);
        }
        let sub = match self.subscriptions.get(&id) {
            Some(s) => *s,
            None => {
                return Err(Error::NotFound);
            },
        };
        if !from.same(&sub.subscriber) {
            return Err(Error::Unauthorized);
        }
        if to.same(from) {
            return Err(Error::InvalidTransferTarget);
        }
        if sub.has_ended() {
            return Err(Error::InvalidStatusTransition);
        }
        if expires_at <= self.ledger.timestamp {
            return Err(Error::InvalidInput);
        }
        self.transfers.insert(id, TransferIntent { from: *from, to: *to, expires_at });
        self.events.push(Event::TransferInitiated { subscription_id: id, from: *from, to: *to });
        assert(self@ =~= offered(old(self)@, id, *from, *to, expires_at));
        Ok(())
    }

    /// Accepts an offered subscription.
    pub fn accept_transfer(&mut self, id: u32, to: &Address) -> (r: Result<(), Error>)
        ensures
            ends(
                r,
                old(self)@,
                final(self)@,
                accept_refusal(old(self)@, id, *to),
                (),
                accepted(old(self)@, id, *to),
            ),
            r is Ok ==> final(self)@.subscriptions[id] == (Subscription {
                subscriber: *to,
                ..old(self)@.subscriptions[id]
            }),
    {
        let authorized = self.has_authorized(to);
        self.events.clear();
        if !authorized {
            return Err(Error::AuthRequired);
        }
        let mut sub = match self.subscriptions.get(&id) {
            Some(s) => *s,
            None => {
                return Err(Error::NotFound);
            },
        };
        let intent = match self.transfers.get(&id) {
            Some(i) => *i,
            None => {
                return Err(Error::TransferIntentNotFound);
            },
        };
        if !to.same(&intent.to) {
            return Err(Error::Unauthorized);
        }
        if self.ledger.timestamp > intent.expires_at {
            return Err(Error::TransferIntentExpired);
        }
        sub.subscriber = *to;
        self.subscriptions.insert(id, sub);
        self.transfers.remove(&id);
        self.events.push(Event::TransferAccepted { subscription_id: id, to: *to });
        assert(self@ =~= accepted(old(self)@, id, *to));
        Ok(())
    }

    /// Lets the merchant veto an offer.
    pub fn veto_transfer(&mut self, id: u32, merchant: &Address) -> (r: Result<(), Error>)
        ensures
            ends(
                r,
                old(self)@,
                final(self)@,
                veto_refusal(old(self)@, id, *merchant),
                (),
                vetoed(old(self)@, id, *merchant),
            ),
    {
        let authorized = self.has_authorized(merchant);
        self.events.clear();
        if !authorized {
            return Err(Error::AuthRequired);
        }
        let sub = match self.subscriptions.get(&id) {
            Some(s) => *s,
            None => {
                return Err(Error::NotFound);
            },
        };
        if !merchant.same(&sub.merchant) {
            return Err(Error::Forbidden);
        }
        if !self.transfers.contains(&id) {
            return Err(Error::TransferIntentNotFound);
        }
        self.transfers.remove(&id);
        self.events.push(Event::TransferVetoed { subscription_id: id, merchant: *merchant });
        assert(self@ =~= vetoed(old(self)@, id, *merchant));
        Ok(())
    }
}

} // verus!
