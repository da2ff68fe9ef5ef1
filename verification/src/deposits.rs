//! How prepaid balances are filled, by the subscriber or by a payer with a grant.
use crate::events::Event;
use crate::funding_laws::{deposits, lemma_deposited};
use crate::idempotency::{is_served, record, recorded, served, IDEM_DEPOSIT};
use crate::payments::{handed_over, hands_over, Payment};
use crate::records::{DelegatedPayerGrant, Subscription, SubscriptionStatus};
use crate::safe_math::{clamped, clamped_add};
use crate::token::{check_transfer, transfer_refusal, transferred};
use crate::totals::{lemma_listed_total, listed_total, total};
use crate::types::{vault, vault_address, Address, Bytes32, Error, Key};
use crate::vault::{ends, State, Vault};
use vstd::prelude::*;

verus! {

/// `x`, or zero if it is negative.
pub open spec fn at_least_zero(x: i128) -> int {
    if x > 0 {
        x as int
    } else {
        0
    }
}

/// What a subscription adds to its subscriber's exposure in a token: its balance, and the next
/// charge while it is active.
pub open spec fn exposure_of(
    subscriber: Address,
    token: Address,
) -> spec_fn(u32, Subscription) -> int {
    |id: u32, sub: Subscription|
        if sub.subscriber == subscriber && sub.token == token {
            at_least_zero(sub.prepaid_balance) + (if sub.status is Active {
                at_least_zero(sub.amount)
            } else {
                0
            })
        } else {
            0
        }
}

/// A subscriber's exposure in a token over all subscriptions.
pub open spec fn exposure(s: State, subscriber: Address, token: Address) -> int {
    total(s.subscriptions, exposure_of(subscriber, token))
}

/// Whether a deposit would take a subscriber over the credit limit, if there is one.
pub open spec fn over_limit(s: State, subscriber: Address, token: Address, amount: i128) -> bool {
    s.credit_limits.dom().contains((subscriber, token)) && exposure(s, subscriber, token) + amount
        > s.credit_limits[(subscriber, token)]
}

/// Why a deposit into an existing subscription is refused, whoever pays.
pub open spec fn deposit_refusal(s: State, id: u32, payer: Address, amount: i128) -> Option<Error> {
    let sub = s.subscriptions[id];
    if amount <= 0 {
        Some(Error::InvalidAmount)
    } else if s.is_over(sub) {
        Some(Error::SubscriptionExpired)
    } else if sub.status is Cancelled || sub.status is Archived {
        Some(Error::NotActive)
    } else if s.blocked(sub.subscriber) {
        Some(Error::SubscriberBlocklisted)
    } else if s.paused(sub.merchant) {
        Some(Error::MerchantPaused)
    } else if s.on_vacation(sub.merchant) {
        Some(Error::VacationActive)
    } else if amount < s.config.min_topup {
        Some(Error::BelowMinimumTopup)
    } else if sub.lifetime_cap matches Some(c) && amount > c {
        Some(Error::LifetimeCapReached)
    } else if over_limit(s, sub.subscriber, sub.token, amount) {
        Some(Error::CreditLimitExceeded)
    } else if sub.prepaid_balance + amount > i128::MAX {
        Some(Error::Overflow)
    } else {
        transfer_refusal(s.tokens, sub.token, payer, vault(), amount)
    }
}

/// The status after a deposit: a subscription that ran out of money recovers once it can pay.
pub open spec fn status_after_deposit(sub: Subscription, balance: int) -> SubscriptionStatus {
    if sub.status is InsufficientBalance && balance >= sub.amount {
        SubscriptionStatus::Active
    } else {
        sub.status
    }
}

/// A subscription with `amount` more on its balance.
pub open spec fn funded(sub: Subscription, amount: i128) -> Subscription {
    Subscription {
        prepaid_balance: (sub.prepaid_balance + amount) as i128,
        status: status_after_deposit(sub, sub.prepaid_balance + amount),
        ..sub
    }
}

/// The state after `payer` deposited `amount`.
pub open spec fn deposited(
    s: State,
    id: u32,
    payer: Address,
    amount: i128,
    key: Option<Bytes32>,
) -> State {
    let sub = s.subscriptions[id];
    State {
        subscriptions: s.subscriptions.insert(id, funded(sub, amount)),
        tokens: transferred(s.tokens, sub.token, payer, vault(), amount),
        rings: recorded(s.rings, IDEM_DEPOSIT, id, key),
        events: seq![Event::FundsDeposited { subscription_id: id, payer, amount }],
        ..s
    }
}

/// The transfer that a deposit makes.
pub open spec fn deposit_payment(s: State, id: u32, payer: Address, amount: i128) -> Payment {
    Payment { token: s.subscriptions[id].token, from: payer, to: vault(), amount }
}

/// Why a subscriber's deposit is refused. A request that was served before is not.
pub open spec fn do_deposit_refusal(
    s: State,
    subscriber: Address,
    id: u32,
    amount: i128,
    key: Option<Bytes32>,
) -> Option<Error> {
    if !s.authorized(subscriber) {
        Some(Error::AuthRequired)
    } else if s.config.locked {
        Some(Error::Reentrancy)
    } else if s.config.emergency_stop {
        Some(Error::EmergencyStopActive)
    } else if !s.subscriptions.dom().contains(id) {
        Some(Error::NotFound)
    } else if subscriber != s.subscriptions[id].subscriber {
        Some(Error::Unauthorized)
    } else if served(s.rings, IDEM_DEPOSIT, id, key) {
        None
    } else {
        deposit_refusal(s, id, subscriber, amount)
    }
}

/// The state after a subscriber's deposit; a request that was served before changes nothing.
pub open spec fn deposit_done(
    s: State,
    subscriber: Address,
    id: u32,
    amount: i128,
    key: Option<Bytes32>,
) -> State {
    if served(s.rings, IDEM_DEPOSIT, id, key) {
        s.quiet()
    } else {
        deposited(s, id, subscriber, amount, key)
    }
}

/// Why a deposit by the subscription's own subscriber is refused.
pub open spec fn deposit_funds_refusal(
    s: State,
    id: u32,
    amount: i128,
    key: Option<Bytes32>,
) -> Option<Error> {
    if s.config.emergency_stop {
        Some(Error::EmergencyStopActive)
    } else if !s.subscriptions.dom().contains(id) {
        Some(Error::NotFound)
    } else {
        do_deposit_refusal(s, s.subscriptions[id].subscriber, id, amount, key)
    }
}

/// Why a grant is refused.
pub open spec fn grant_refusal(
    s: State,
    subscriber: Address,
    payer: Address,
    expires_at: u64,
    max_amount: i128,
) -> Option<Error> {
    if !s.authorized(subscriber) {
        Some(Error::AuthRequired)
    } else if payer == subscriber {
        Some(Error::InvalidInput)
    } else if expires_at <= s.ledger.timestamp {
        Some(Error::InvalidInput)
    } else if max_amount <= 0 {
        Some(Error::InvalidAmount)
    } else {
        None
    }
}

/// The state after a grant, which replaces an earlier one to the same payer.
pub open spec fn granted(
    s: State,
    subscriber: Address,
    payer: Address,
    expires_at: u64,
    max_amount: i128,
) -> State {
    State {
        grants: s.grants.insert(
            (subscriber, payer),
            DelegatedPayerGrant { subscriber, payer, expires_at, max_amount },
        ),
        ..s.quiet()
    }
}

/// Why a grant is not revoked.
pub open spec fn revoke_refusal(s: State, subscriber: Address, payer: Address) -> Option<Error> {
    if !s.authorized(subscriber) {
        Some(Error::AuthRequired)
    } else if !s.grants.dom().contains((subscriber, payer)) {
        Some(Error::DelegatedPayerGrantNotFound)
    } else {
        None
    }
}

/// The state after a grant was revoked.
pub open spec fn revoked(s: State, subscriber: Address, payer: Address) -> State {
    State { grants: s.grants.remove((subscriber, payer)), ..s.quiet() }
}

/// Why a deposit by a payer with a grant is refused.
pub open spec fn on_behalf_refusal(
    s: State,
    id: u32,
    payer: Address,
    amount: i128,
    key: Option<Bytes32>,
) -> Option<Error> {
    if !s.authorized(payer) {
        Some(Error::AuthRequired)
    } else if s.config.locked {
        Some(Error::Reentrancy)
    } else if s.config.emergency_stop {
        Some(Error::EmergencyStopActive)
    } else if !s.subscriptions.dom().contains(id) {
        Some(Error::NotFound)
    } else if amount <= 0 {
        Some(Error::InvalidAmount)
    } else {
        let grant = (s.subscriptions[id].subscriber, payer);
        if !s.grants.dom().contains(grant) {
            Some(Error::DelegatedPayerGrantNotFound)
        } else if s.ledger.timestamp > s.grants[grant].expires_at {
            Some(Error::DelegatedPayerGrantExpired)
        } else if amount > s.grants[grant].max_amount {
            Some(Error::DelegatedPayerAmountExceeded)
        } else if served(s.rings, IDEM_DEPOSIT, id, key) {
            None
        } else {
            deposit_refusal(s, id, payer, amount)
        }
    }
}

/// The state after a deposit by a payer, which uses the grant up.
pub open spec fn deposited_on_behalf(
    s: State,
    id: u32,
    payer: Address,
    amount: i128,
    key: Option<Bytes32>,
) -> State {
    if served(s.rings, IDEM_DEPOSIT, id, key) {
        s.quiet()
    } else {
        State {
            grants: s.grants.remove((s.subscriptions[id].subscriber, payer)),
            events: seq![Event::DelegatedDeposited { subscription_id: id, payer, amount }],
            ..deposited(s, id, payer, amount, key)
        }
    }
}

/// Why a setting about `who` is refused: the administrator or `who` must ask for it.
pub open spec fn own_setting_refusal(s: State, authorizer: Address, who: Address) -> Option<Error> {
    if !s.authorized(authorizer) {
        Some(Error::AuthRequired)
    } else if !s.is_admin(authorizer) && authorizer != who {
        Some(Error::Unauthorized)
    } else {
        None
    }
}

/// The state after a credit limit was set.
pub open spec fn limited(s: State, subscriber: Address, token: Address, limit: i128) -> State {
    State { credit_limits: s.credit_limits.insert((subscriber, token), limit), ..s.quiet() }
}

/// A reason, empty where none was given.
pub open spec fn stated(reason: Option<Vec<u8>>) -> Seq<u8> {
    match reason {
        Some(text) => text@,
        None => Seq::empty(),
    }
}

/// The state after `who` was put on the blocklist.
pub open spec fn listed(s: State, who: Address, reason: Seq<u8>) -> State {
    State { blocklist: s.blocklist.insert(who, reason), ..s.quiet() }
}

/// The state after `who` was taken off the blocklist.
pub open spec fn unlisted(s: State, who: Address) -> State {
    State { blocklist: s.blocklist.remove(who), ..s.quiet() }
}

impl Vault {
    /// A subscriber's exposure in a token, or the largest amount if it is larger.
    pub fn get_exposure(&self, subscriber: &Address, token: &Address) -> (e: i128)
        ensures
            e == clamped(exposure(self@, *subscriber, *token)),
            0 <= exposure(self@, *subscriber, *token),
    {
        let n: usize = self.subscriptions.len();
        let ghost f = exposure_of(*subscriber, *token);
        let ghost m = self.subscriptions@;
        let ghost keys = self.subscriptions.keys();
        let mut sum: i128 = 0;
        let mut i: usize = 0;
        while i < n
            invariant
                i <= n,
                n == self.subscriptions.keys().len(),
                m == self.subscriptions@,
                keys == self.subscriptions.keys(),
                f == exposure_of(*subscriber, *token),
                0 <= listed_total(m, keys, i as int, f),
                sum == clamped(listed_total(m, keys, i as int, f)),
            decreases n - i,
        {
            let (id, sub) = self.subscriptions.at(i);
            if sub.subscriber.same(subscriber) && sub.token.same(token) {
                if sub.prepaid_balance > 0 {
                    sum = clamped_add(sum, sub.prepaid_balance);
                }
                if sub.status == SubscriptionStatus::Active && sub.amount > 0 {
                    sum = clamped_add(sum, sub.amount);
                }
            }
            assert(listed_total(m, keys, i + 1, f) == listed_total(m, keys, i as int, f) + f(
                keys[i as int],
                m[keys[i as int]],
            ));
            i += 1;
        }
        proof {
            lemma_listed_total(m, keys, f);
        }
        sum
    }

    fn exceeds_limit(&self, subscriber: &Address, token: &Address, amount: i128) -> (b: bool)
        requires
            amount > 0,
        ensures
            b == over_limit(self@, *subscriber, *token, amount),
    {
        match self.credit_limits.get(&(*subscriber, *token)) {
            None => false,
            Some(limit) => {
                let e: i128 = self.get_exposure(subscriber, token);
                match e.checked_add(amount) {
                    None => true,
                    Some(x) => x > *limit,
                }
            },
        }
    }

    /// Why a deposit into an existing subscription is refused, whoever pays.
    pub(crate) fn check_deposit(&self, id: u32, sub: &Subscription, payer: &Address, amount: i128) -> (r: Option<
        Error,
    >)
        requires
            self@.subscriptions.dom().contains(id),
            *sub == self@.subscriptions[id],
        ensures
            r == deposit_refusal(self@, id, *payer, amount),
    {
        if amount <= 0 {
            return Some(Error::InvalidAmount);
        }
        if self.has_run_out(sub) {
            return Some(Error::SubscriptionExpired);
        }
        if sub.status == SubscriptionStatus::Cancelled || sub.status
            == SubscriptionStatus::Archived {
            return Some(Error::NotActive);
        }
        if self.is_blocked(&sub.subscriber) {
            return Some(Error::SubscriberBlocklisted);
        }
        if self.is_merchant_paused(&sub.merchant) {
            return Some(Error::MerchantPaused);
        }
        if self.is_merchant_in_vacation(&sub.merchant, self.ledger.timestamp) {
            return Some(Error::VacationActive);
        }
        if amount < self.config.min_topup {
            return Some(Error::BelowMinimumTopup);
        }
        match sub.lifetime_cap {
            Some(c) => {
                if amount > c {
                    return Some(Error::LifetimeCapReached);
                }
            },
            None => {},
        }
        if self.exceeds_limit(&sub.subscriber, &sub.token, amount) {
            return Some(Error::CreditLimitExceeded);
        }
        if sub.prepaid_balance.checked_add(amount).is_none() {
            return Some(Error::Overflow);
        }
        check_transfer(&self.tokens, &sub.token, payer, &vault_address(), amount)
    }

    /// Books a deposit that nothing speaks against, up to the transfer, which is returned.
    pub(crate) fn book_deposit(
        &mut self,
        id: u32,
        sub: &Subscription,
        payer: &Address,
        amount: i128,
        key: &Option<Bytes32>,
    ) -> (p: Option<Payment>)
        requires
            old(self)@.subscriptions.dom().contains(id),
            *sub == old(self)@.subscriptions[id],
            deposit_refusal(old(self)@, id, *payer, amount) is None,
        ensures
            p == Some(deposit_payment(old(self)@, id, *payer, amount)),
            final(self)@ == handed_over(
                old(self)@,
                p,
                deposited(old(self)@, id, *payer, amount, *key),
            ),
    {
        self.events.clear();
        let mut after = *sub;
        after.prepaid_balance = sub.prepaid_balance + amount;
        if sub.status == SubscriptionStatus::InsufficientBalance && after.prepaid_balance
            >= sub.amount {
            after.status = SubscriptionStatus::Active;
        }
        self.subscriptions.insert(id, after);
        record(&mut self.rings, IDEM_DEPOSIT, id, key);
        self.events.push(Event::FundsDeposited { subscription_id: id, payer: *payer, amount });
        self.config.locked = true;
        let p = Some(Payment { token: sub.token, from: *payer, to: vault_address(), amount });
        assert(self@ =~= handed_over(
            old(self)@,
            p,
            deposited(old(self)@, id, *payer, amount, *key),
        ));
        p
    }

    /// Makes a deposit that nothing speaks against.
    pub(crate) fn apply_deposit(
        &mut self,
        id: u32,
        sub: &Subscription,
        payer: &Address,
        amount: i128,
        key: &Option<Bytes32>,
    )
        requires
            old(self)@.subscriptions.dom().contains(id),
            *sub == old(self)@.subscriptions[id],
            !old(self)@.config.locked,
            deposit_refusal(old(self)@, id, *payer, amount) is None,
        ensures
            final(self)@ == deposited(old(self)@, id, *payer, amount, *key),
    {
        let p = self.book_deposit(id, sub, payer, amount, key);
        self.finish_payment(&p);
        assert(self@ =~= deposited(old(self)@, id, *payer, amount, *key));
    }

    /// The first step of a subscriber's deposit. A request that was served before leads to no
    /// transfer.
    pub(crate) fn begin_deposit(
        &mut self,
        subscriber: &Address,
        id: u32,
        amount: i128,
        key: Option<Bytes32>,
    ) -> (r: Result<Option<Payment>, Error>)
        ensures
            hands_over(
                r,
                old(self)@,
                final(self)@,
                do_deposit_refusal(old(self)@, *subscriber, id, amount, key),
                (if served(old(self)@.rings, IDEM_DEPOSIT, id, key) {
                    None
                } else {
                    Some(deposit_payment(old(self)@, id, *subscriber, amount))
                }),
                deposit_done(old(self)@, *subscriber, id, amount, key),
            ),
    {
        if !self.has_authorized(subscriber) {
            self.events.clear();
            return Err(Error::AuthRequired);
        }
        if self.config.locked {
            self.events.clear();
            return Err(Error::Reentrancy);
        }
        if self.config.emergency_stop {
            self.events.clear();
            return Err(Error::EmergencyStopActive);
        }
        let sub = match self.subscriptions.get(&id) {
            Some(s) => *s,
            None => {
                self.events.clear();
                return Err(Error::NotFound);
            },
        };
        if !subscriber.same(&sub.subscriber) {
            self.events.clear();
            return Err(Error::Unauthorized);
        }
        if is_served(&self.rings, IDEM_DEPOSIT, id, &key) {
            self.events.clear();
            return Ok(None);
        }
        match self.check_deposit(id, &sub, subscriber, amount) {
            Some(e) => {
                self.events.clear();
                Err(e)
            },
            None => Ok(self.book_deposit(id, &sub, subscriber, amount, &key)),
        }
    }

    /// Lets `subscriber` deposit into a subscription, which must be the subscriber's own.
    pub fn do_deposit_funds(
        &mut self,
        subscriber: &Address,
        id: u32,
        amount: i128,
        key: Option<Bytes32>,
    ) -> (r: Result<(), Error>)
        ensures
            ends(
                r,
                old(self)@,
                final(self)@,
                do_deposit_refusal(old(self)@, *subscriber, id, amount, key),
                (),
                deposit_done(old(self)@, *subscriber, id, amount, key),
            ),
            r is Ok && !served(old(self)@.rings, IDEM_DEPOSIT, id, key) ==> deposits(
                old(self)@,
                final(self)@,
                id,
                *subscriber,
                amount as int,
            ),
    {
        proof {
            if self@.subscriptions.dom().contains(id) && deposit_refusal(
                self@,
                id,
                *subscriber,
                amount,
            ) is None {
                lemma_deposited(self@, id, *subscriber, amount, key);
            }
        }
        match self.begin_deposit(subscriber, id, amount, key) {
            Err(e) => Err(e),
            Ok(p) => {
                self.finish_payment(&p);
                assert(self@ =~= deposit_done(old(self)@, *subscriber, id, amount, key));
                Ok(())
            },
        }
    }

    /// The first step of a deposit by the subscription's own subscriber.
    pub(crate) fn begin_deposit_funds(&mut self, id: u32, amount: i128, key: Option<Bytes32>) -> (r:
        Result<Option<Payment>, Error>)
        ensures
            ({
                let payer = old(self)@.subscriptions[id].subscriber;
                hands_over(
                    r,
                    old(self)@,
                    final(self)@,
                    deposit_funds_refusal(old(self)@, id, amount, key),
                    (if served(old(self)@.rings, IDEM_DEPOSIT, id, key) {
                        None
                    } else {
                        Some(deposit_payment(old(self)@, id, payer, amount))
                    }),
                    deposit_done(old(self)@, payer, id, amount, key),
                )
            }),
    {
        if self.config.emergency_stop {
            self.events.clear();
            return Err(Error::EmergencyStopActive);
        }
        let sub = match self.subscriptions.get(&id) {
            Some(s) => *s,
            None => {
                self.events.clear();
                return Err(Error::NotFound);
            },
        };
        self.begin_deposit(&sub.subscriber, id, amount, key)
    }

    /// Deposits into a subscription from its own subscriber.
    pub fn deposit_funds(&mut self, id: u32, amount: i128, key: Option<Bytes32>) -> (r: Result<
        (),
        Error,
    >)
        ensures
            ends(
                r,
                old(self)@,
                final(self)@,
                deposit_funds_refusal(old(self)@, id, amount, key),
                (),
                deposit_done(
                    old(self)@,
                    old(self)@.subscriptions[id].subscriber,
                    id,
                    amount,
                    key,
                ),
            ),
            r is Ok && !served(old(self)@.rings, IDEM_DEPOSIT, id, key) ==> deposits(
                old(self)@,
                final(self)@,
                id,
                old(self)@.subscriptions[id].subscriber,
                amount as int,
            ),
    {
        proof {
            let payer = self@.subscriptions[id].subscriber;
            if self@.subscriptions.dom().contains(id) && deposit_refusal(self@, id, payer, amount) is None {
                lemma_deposited(self@, id, payer, amount, key);
            }
        }
        match self.begin_deposit_funds(id, amount, key) {
            Err(e) => Err(e),
            Ok(p) => {
                self.finish_payment(&p);
                assert(self@ =~= deposit_done(
                    old(self)@,
                    old(self)@.subscriptions[id].subscriber,
                    id,
                    amount,
                    key,
                ));
                Ok(())
            },
        }
    }

    /// Lets a payer make one deposit for a subscriber, up to an amount and a time.
    pub fn grant_delegated_payer(
        &mut self,
        subscriber: &Address,
        payer: &Address,
        expires_at: u64,
        max_amount: i128,
    ) -> (r: Result<(), Error>)
        ensures
            ends(
                r,
                old(self)@,
                final(self)@,
                grant_refusal(old(self)@, *subscriber, *payer, expires_at, max_amount),
                (),
                granted(old(self)@, *subscriber, *payer, expires_at, max_amount),
            ),
    {
        let authorized = self.has_authorized(subscriber);
        self.events.clear();
        if !authorized {
            return Err(Error::AuthRequired);
        }
        if payer.same(subscriber) {
            return Err(Error::InvalidInput);
        }
        if expires_at <= self.ledger.timestamp {
            return Err(Error::InvalidInput);
        }
        if max_amount <= 0 {
            return Err(Error::InvalidAmount);
        }
        self.grants.insert(
            (*subscriber, *payer),
            DelegatedPayerGrant { subscriber: *subscriber, payer: *payer, expires_at, max_amount },
        );
        Ok(())
    }

    /// Takes a grant back.
    pub fn revoke_delegated_payer(&mut self, subscriber: &Address, payer: &Address) -> (r: Result<
        (),
        Error,
    >)
        ensures
            ends(
                r,
                old(self)@,
                final(self)@,
                revoke_refusal(old(self)@, *subscriber, *payer),
                (),
                revoked(old(self)@, *subscriber, *payer),
            ),
    {
        let authorized = self.has_authorized(subscriber);
        self.events.clear();
        if !authorized {
            return Err(Error::AuthRequired);
        }
        if !self.grants.contains(&(*subscriber, *payer)) {
            return Err(Error::DelegatedPayerGrantNotFound);
        }
        self.grants.remove(&(*subscriber, *payer));
        Ok(())
    }

    /// The first step of a deposit by a payer.
    pub(crate) fn begin_deposit_on_behalf(
        &mut self,
        id: u32,
        payer: &Address,
        amount: i128,
        key: Option<Bytes32>,
    ) -> (r: Result<Option<Payment>, Error>)
        ensures
            hands_over(
                r,
                old(self)@,
                final(self)@,
                on_behalf_refusal(old(self)@, id, *payer, amount, key),
                (if served(old(self)@.rings, IDEM_DEPOSIT, id, key) {
                    None
                } else {
                    Some(deposit_payment(old(self)@, id, *payer, amount))
                }),
                deposited_on_behalf(old(self)@, id, *payer, amount, key),
            ),
    {
        if !self.has_authorized(payer) {
            self.events.clear();
            return Err(Error::AuthRequired);
        }
        if self.config.locked {
            self.events.clear();
            return Err(Error::Reentrancy);
        }
        if self.config.emergency_stop {
            self.events.clear();
            return Err(Error::EmergencyStopActive);
        }
        let sub = match self.subscriptions.get(&id) {
            Some(s) => *s,
            None => {
                self.events.clear();
                return Err(Error::NotFound);
            },
        };
        if amount <= 0 {
            self.events.clear();
            return Err(Error::InvalidAmount);
        }
        let grant = match self.grants.get(&(sub.subscriber, *payer)) {
            Some(g) => *g,
            None => {
                self.events.clear();
                return Err(Error::DelegatedPayerGrantNotFound);
            },
        };
        if self.ledger.timestamp > grant.expires_at {
            self.events.clear();
            return Err(Error::DelegatedPayerGrantExpired);
        }
        if amount > grant.max_amount {
            self.events.clear();
            return Err(Error::DelegatedPayerAmountExceeded);
        }
        if is_served(&self.rings, IDEM_DEPOSIT, id, &key) {
            self.events.clear();
            return Ok(None);
        }
        match self.check_deposit(id, &sub, payer, amount) {
            Some(e) => {
                self.events.clear();
                Err(e)
            },
            None => {
                let p = self.book_deposit(id, &sub, payer, amount, &key);
                self.events.clear();
                self.events.push(
                    Event::DelegatedDeposited { subscription_id: id, payer: *payer, amount },
                );
                self.grants.remove(&(sub.subscriber, *payer));
                assert(self@ =~= handed_over(
                    old(self)@,
                    p,
                    deposited_on_behalf(old(self)@, id, *payer, amount, key),
                ));
                Ok(p)
            },
        }
    }

    /// Deposits into a subscription from a payer that its subscriber has given a grant.
    pub fn deposit_funds_on_behalf(
        &mut self,
        id: u32,
        payer: &Address,
        amount: i128,
        key: Option<Bytes32>,
    ) -> (r: Result<(), Error>)
        ensures
            ends(
                r,
                old(self)@,
                final(self)@,
                on_behalf_refusal(old(self)@, id, *payer, amount, key),
                (),
                deposited_on_behalf(old(self)@, id, *payer, amount, key),
            ),
    {
        match self.begin_deposit_on_behalf(id, payer, amount, key) {
            Err(e) => Err(e),
            Ok(p) => {
                self.finish_payment(&p);
                assert(self@ =~= deposited_on_behalf(old(self)@, id, *payer, amount, key));
                Ok(())
            },
        }
    }

    fn check_own_setting(&self, authorizer: &Address, who: &Address) -> (r: Option<Error>)
        ensures
            r == own_setting_refusal(self@, *authorizer, *who),
    {
        match self.check_admin(authorizer) {
            None => None,
            Some(e) => {
                if e == Error::AuthRequired || !authorizer.same(who) {
                    Some(e)
                } else {
                    None
                }
            },
        }
    }

    /// Limits a subscriber's exposure in a token.
    pub fn set_subscriber_credit_limit(
        &mut self,
        authorizer: &Address,
        subscriber: &Address,
        token: &Address,
        limit: i128,
    ) -> (r: Result<(), Error>)
        ensures
            ends(
                r,
                old(self)@,
                final(self)@,
                own_setting_refusal(old(self)@, *authorizer, *subscriber),
                (),
                limited(old(self)@, *subscriber, *token, limit),
            ),
    {
        let refusal = self.check_own_setting(authorizer, subscriber);
        self.events.clear();
        match refusal {
            Some(e) => Err(e),
            None => {
                self.credit_limits.insert((*subscriber, *token), limit);
                Ok(())
            },
        }
    }

    /// Puts an address on the blocklist, for a reason if one is given.
    pub fn add_to_blocklist(
        &mut self,
        authorizer: &Address,
        who: &Address,
        reason: Option<Vec<u8>>,
    ) -> (r: Result<(), Error>)
        ensures
            ends(
                r,
                old(self)@,
                final(self)@,
                own_setting_refusal(old(self)@, *authorizer, *who),
                (),
                listed(old(self)@, *who, stated(reason)),
            ),
    {
        let refusal = self.check_own_setting(authorizer, who);
        self.events.clear();
        match refusal {
            Some(e) => Err(e),
            None => {
                let text = match reason {
                    Some(text) => text,
                    None => {
                        let none: Vec<u8> = Vec::new();
                        assert(none@ =~= Seq::empty());
                        none
                    },
                };
                self.blocklist.insert(*who, text);
                Ok(())
            },
        }
    }

    /// Takes an address off the blocklist, at the administrator's word.
    pub fn remove_from_blocklist(&mut self, admin: &Address, who: &Address) -> (r: Result<
        (),
        Error,
    >)
        ensures
            ends(
                r,
                old(self)@,
                final(self)@,
                old(self)@.admin_refusal(*admin),
                (),
                unlisted(old(self)@, *who),
            ),
    {
        let refusal = self.check_admin(admin);
        self.events.clear();
        match refusal {
            Some(e) => Err(e),
            None => {
                self.blocklist.remove(who);
                Ok(())
            },
        }
    }
}

} // verus!
