//! How subscriptions come about.
use crate::agreement_laws::{
    adds_subscription, is_new, law_creation, law_creation_with_payees,
    law_plan_is_taken_up_as_offered,
};
use crate::charge_core::{is_valid_split, valid_split};
use crate::events::Event;
use crate::measures::shares_out;
use crate::records::{PlanTemplate, Subscription, SubscriptionStatus};
use crate::types::{Address, Error, Key, Symbol};
use crate::vault::{ends, State, Vault};
use vstd::prelude::*;

verus! {

/// The terms of a subscription.
#[derive(Clone, Copy, Debug, PartialEq, Eq)]
pub struct Terms {
    pub subscriber: Address,
    pub merchant: Address,
    pub token: Address,
    pub amount: i128,
    pub interval_seconds: u64,
    pub usage_enabled: bool,
    pub lifetime_cap: Option<i128>,
    pub expires_at: Option<u64>,
    pub expires_at_ledger: Option<u32>,
    pub sub_account_label: Option<Symbol>,
}

/// The decimals of an accepted token among the first `n` of a list.
pub open spec fn listed_decimals(list: Seq<(Address, u32)>, n: int, token: Address) -> Option<u32>
    decreases n,
{
    if n <= 0 {
        None
    } else if listed_decimals(list, n - 1, token) is Some {
        listed_decimals(list, n - 1, token)
    } else if list[n - 1].0 == token {
        Some(list[n - 1].1)
    } else {
        None
    }
}

/// The decimals of a token, if it is accepted.
pub open spec fn decimals_of(s: State, token: Address) -> Option<u32> {
    listed_decimals(s.accepted_tokens, s.accepted_tokens.len() as int, token)
}

/// Whether a time has come, so that nothing can be set to end at it. While the clock stands at
/// zero, no time has.
pub open spec fn is_past(s: State, at: u64) -> bool {
    at <= s.ledger.timestamp && s.ledger.timestamp > 0
}

/// Why amounts, times and bounds cannot make a subscription.
pub open spec fn terms_refusal(s: State, t: Terms) -> Option<Error> {
    if decimals_of(s, t.token) is None {
        Some(Error::TokenNotAccepted)
    } else if t.amount <= 0 {
        Some(Error::InvalidAmount)
    } else if t.interval_seconds == 0 {
        Some(Error::InvalidInput)
    } else if t.lifetime_cap matches Some(c) && c <= 0 {
        Some(Error::InvalidAmount)
    } else if t.expires_at matches Some(at) && is_past(s, at) {
        Some(Error::InvalidExpiration)
    } else if t.expires_at_ledger matches Some(at) && at <= s.ledger.sequence {
        Some(Error::InvalidExpiration)
    } else {
        None
    }
}

/// Why a subscription is not created.
pub open spec fn create_refusal(s: State, t: Terms) -> Option<Error> {
    if !s.authorized(t.subscriber) {
        Some(Error::AuthRequired)
    } else if s.config.emergency_stop {
        Some(Error::EmergencyStopActive)
    } else if s.blocked(t.subscriber) {
        Some(Error::SubscriberBlocklisted)
    } else if terms_refusal(s, t) is Some {
        terms_refusal(s, t)
    } else if s.config.next_subscription_id == u32::MAX {
        Some(Error::Overflow)
    } else {
        None
    }
}

/// A subscription at its start: active, unfunded and renewing.
pub open spec fn fresh(s: State, t: Terms) -> Subscription {
    Subscription {
        subscriber: t.subscriber,
        merchant: t.merchant,
        token: t.token,
        amount: t.amount,
        interval_seconds: t.interval_seconds,
        last_payment_timestamp: s.ledger.timestamp,
        status: SubscriptionStatus::Active,
        prepaid_balance: 0,
        usage_enabled: t.usage_enabled,
        lifetime_cap: t.lifetime_cap,
        lifetime_charged: 0,
        start_time: s.ledger.timestamp,
        expires_at: t.expires_at,
        grace_start_timestamp: None,
        cancel_at: None,
        expires_at_ledger: t.expires_at_ledger,
        sub_account_label: t.sub_account_label,
        proration_enabled: false,
        auto_renew: true,
        auto_renew_disabled_at: None,
    }
}

/// The state after a subscription was created.
pub open spec fn created(s: State, t: Terms) -> State {
    let id = s.config.next_subscription_id;
    State {
        config: crate::vault::Config { next_subscription_id: (id + 1) as u32, ..s.config },
        subscriptions: s.subscriptions.insert(id, fresh(s, t)),
        events: seq![
            Event::SubscriptionCreated {
                subscription_id: id,
                subscriber: t.subscriber,
                merchant: t.merchant,
            },
        ],
        ..s
    }
}

/// Why a subscription whose charges are split is not created.
pub open spec fn create_split_refusal(
    s: State,
    t: Terms,
    entries: Seq<(Address, u32)>,
) -> Option<Error> {
    if create_refusal(s, t) is Some {
        create_refusal(s, t)
    } else if !valid_split(entries) {
        Some(Error::InvalidInput)
    } else {
        None
    }
}

/// The state after a subscription whose charges are split was created.
pub open spec fn created_split(s: State, t: Terms, entries: Seq<(Address, u32)>) -> State {
    State { splits: s.splits.insert(s.config.next_subscription_id, entries), ..created(s, t) }
}

/// The terms that a plan offers to a subscriber.
pub open spec fn plan_terms(p: PlanTemplate, subscriber: Address) -> Terms {
    Terms {
        subscriber,
        merchant: p.merchant,
        token: p.token,
        amount: p.amount,
        interval_seconds: p.interval_seconds,
        usage_enabled: p.usage_enabled,
        lifetime_cap: p.lifetime_cap,
        expires_at: None,
        expires_at_ledger: None,
        sub_account_label: None,
    }
}

/// Why a plan is not offered.
pub open spec fn plan_refusal(s: State, p: PlanTemplate) -> Option<Error> {
    if !s.authorized(p.merchant) {
        Some(Error::AuthRequired)
    } else if terms_refusal(s, plan_terms(p, p.merchant)) is Some {
        terms_refusal(s, plan_terms(p, p.merchant))
    } else if s.config.next_plan_id == u32::MAX {
        Some(Error::Overflow)
    } else {
        None
    }
}

/// The plan that a merchant offers in the default token.
pub open spec fn plan_of(
    s: State,
    merchant: Address,
    amount: i128,
    interval_seconds: u64,
    usage_enabled: bool,
    lifetime_cap: Option<i128>,
) -> PlanTemplate {
    PlanTemplate {
        merchant,
        token: s.config.token,
        amount,
        interval_seconds,
        usage_enabled,
        lifetime_cap,
    }
}

/// The state after a plan was offered.
pub open spec fn plan_created(s: State, p: PlanTemplate) -> State {
    State {
        config: crate::vault::Config {
            next_plan_id: (s.config.next_plan_id + 1) as u32,
            ..s.config
        },
        plans: s.plans.insert(s.config.next_plan_id, p),
        ..s.quiet()
    }
}

/// Why a subscription to a plan is not created.
pub open spec fn from_plan_refusal(s: State, subscriber: Address, plan_id: u32) -> Option<Error> {
    if !s.authorized(subscriber) {
        Some(Error::AuthRequired)
    } else if s.config.emergency_stop {
        Some(Error::EmergencyStopActive)
    } else if !s.plans.dom().contains(plan_id) {
        Some(Error::NotFound)
    } else {
        create_refusal(s, plan_terms(s.plans[plan_id], subscriber))
    }
}

impl Vault {
    /// The decimals of a token, if it is accepted.
    pub fn token_decimals(&self, token: &Address) -> (r: Option<u32>)
        ensures
            r == decimals_of(self@, *token),
    {
        let mut i: usize = 0;
        while i < self.accepted_tokens.len()
            invariant
                i <= self.accepted_tokens@.len(),
                listed_decimals(self.accepted_tokens@, i as int, *token) is None,
            decreases self.accepted_tokens@.len() - i,
        {
            if self.accepted_tokens[i].0.same(token) {
                let d: u32 = self.accepted_tokens[i].1;
                proof {
                    lemma_listed_decimals(
                        self.accepted_tokens@,
                        i + 1,
                        self.accepted_tokens@.len() as int,
                        *token,
                    );
                }
                return Some(d);
            }
            i += 1;
        }
        None
    }

    fn check_terms(&self, t: &Terms) -> (r: Option<Error>)
        ensures
            r == terms_refusal(self@, *t),
    {
        if self.token_decimals(&t.token).is_none() {
            return Some(Error::TokenNotAccepted);
        }
        if t.amount <= 0 {
            return Some(Error::InvalidAmount);
        }
        if t.interval_seconds == 0 {
            return Some(Error::InvalidInput);
        }
        match t.lifetime_cap {
            Some(c) => {
                if c <= 0 {
                    return Some(Error::InvalidAmount);
                }
            },
            None => {},
        }
        match t.expires_at {
            Some(at) => {
                if at <= self.ledger.timestamp && self.ledger.timestamp > 0 {
                    return Some(Error::InvalidExpiration);
                }
            },
            None => {},
        }
        match t.expires_at_ledger {
            Some(at) => {
                if at <= self.ledger.sequence {
                    return Some(Error::InvalidExpiration);
                }
            },
            None => {},
        }
        None
    }

    fn check_create(&self, t: &Terms) -> (r: Option<Error>)
        ensures
            r == create_refusal(self@, *t),
    {
        if !self.has_authorized(&t.subscriber) {
            return Some(Error::AuthRequired);
        }
        if self.config.emergency_stop {
            return Some(Error::EmergencyStopActive);
        }
        if self.is_blocked(&t.subscriber) {
            return Some(Error::SubscriberBlocklisted);
        }
        match self.check_terms(t) {
            Some(e) => {
                return Some(e);
            },
            None => {},
        }
        if self.config.next_subscription_id == u32::MAX {
            return Some(Error::Overflow);
        }
        None
    }

    /// Creates a subscription on the given terms and returns its number.
    pub fn create(&mut self, t: &Terms) -> (r: Result<u32, Error>)
        ensures
            ends(
                r,
                old(self)@,
                final(self)@,
                create_refusal(old(self)@, *t),
                old(self)@.config.next_subscription_id,
                created(old(self)@, *t),
            ),
    {
        let refusal = self.check_create(t);
        self.events.clear();
        match refusal {
            Some(e) => {
                return Err(e);
            },
            None => {},
        }
        let id: u32 = self.config.next_subscription_id;
        self.config.next_subscription_id = id + 1;
        let now: u64 = self.ledger.timestamp;
        self.subscriptions.insert(
            id,
            Subscription {
                subscriber: t.subscriber,
                merchant: t.merchant,
                token: t.token,
                amount: t.amount,
                interval_seconds: t.interval_seconds,
                last_payment_timestamp: now,
                status: SubscriptionStatus::Active,
                prepaid_balance: 0,
                usage_enabled: t.usage_enabled,
                lifetime_cap: t.lifetime_cap,
                lifetime_charged: 0,
                start_time: now,
                expires_at: t.expires_at,
                grace_start_timestamp: None,
                cancel_at: None,
                expires_at_ledger: t.expires_at_ledger,
                sub_account_label: t.sub_account_label,
                proration_enabled: false,
                auto_renew: true,
                auto_renew_disabled_at: None,
            },
        );
        self.events.push(
            Event::SubscriptionCreated {
                subscription_id: id,
                subscriber: t.subscriber,
                merchant: t.merchant,
            },
        );
        assert(self@ =~= created(old(self)@, *t));
        Ok(id)
    }

    /// Creates a subscription in the default token.
    pub fn create_subscription(
        &mut self,
        subscriber: &Address,
        merchant: &Address,
        amount: i128,
        interval_seconds: u64,
        usage_enabled: bool,
        lifetime_cap: Option<i128>,
        expires_at: Option<u64>,
        expires_at_ledger: Option<u32>,
    ) -> (r: Result<u32, Error>)
        ensures
            ({
                let t = Terms {
                    subscriber: *subscriber,
                    merchant: *merchant,
                    token: old(self)@.config.token,
                    amount,
                    interval_seconds,
                    usage_enabled,
                    lifetime_cap,
                    expires_at,
                    expires_at_ledger,
                    sub_account_label: None,
                };
                ends(
                    r,
                    old(self)@,
                    final(self)@,
                    create_refusal(old(self)@, t),
                    old(self)@.config.next_subscription_id,
                    created(old(self)@, t),
                )
            }),
            r matches Ok(id) ==> {
                let sub = final(self)@.subscriptions[id];
                &&& id == old(self)@.config.next_subscription_id
                &&& adds_subscription(old(self)@, final(self)@)
                &&& is_new(
                    old(self)@,
                    sub,
                    *subscriber,
                    *merchant,
                    old(self)@.config.token,
                    amount,
                    interval_seconds,
                )
                &&& sub.usage_enabled == usage_enabled
                &&& sub.lifetime_cap == lifetime_cap
                &&& sub.expires_at == expires_at
                &&& sub.expires_at_ledger == expires_at_ledger
                &&& sub.sub_account_label is None
            },
    {
        proof {
            law_creation(
                self@,
                Terms {
                    subscriber: *subscriber,
                    merchant: *merchant,
                    token: self.config.token,
                    amount,
                    interval_seconds,
                    usage_enabled,
                    lifetime_cap,
                    expires_at,
                    expires_at_ledger,
                    sub_account_label: None,
                },
            );
        }
        let t = Terms {
            subscriber: *subscriber,
            merchant: *merchant,
            token: self.config.token,
            amount,
            interval_seconds,
            usage_enabled,
            lifetime_cap,
            expires_at,
            expires_at_ledger,
            sub_account_label: None,
        };
        self.create(&t)
    }

    /// Creates a subscription in a given token, whose charges may go to a sub-account.
    pub fn create_subscription_with_token(
        &mut self,
        subscriber: &Address,
        merchant: &Address,
        token: &Address,
        amount: i128,
        interval_seconds: u64,
        usage_enabled: bool,
        lifetime_cap: Option<i128>,
        expires_at: Option<u64>,
        expires_at_ledger: Option<u32>,
        sub_account_label: Option<Symbol>,
    ) -> (r: Result<u32, Error>)
        ensures
            ({
                let t = Terms {
                    subscriber: *subscriber,
                    merchant: *merchant,
                    token: *token,
                    amount,
                    interval_seconds,
                    usage_enabled,
                    lifetime_cap,
                    expires_at,
                    expires_at_ledger,
                    sub_account_label,
                };
                ends(
                    r,
                    old(self)@,
                    final(self)@,
                    create_refusal(old(self)@, t),
                    old(self)@.config.next_subscription_id,
                    created(old(self)@, t),
                )
            }),
            r matches Ok(id) ==> {
                let sub = final(self)@.subscriptions[id];
                &&& id == old(self)@.config.next_subscription_id
                &&& adds_subscription(old(self)@, final(self)@)
                &&& is_new(
                    old(self)@,
                    sub,
                    *subscriber,
                    *merchant,
                    *token,
                    amount,
                    interval_seconds,
                )
                &&& sub.usage_enabled == usage_enabled
                &&& sub.lifetime_cap == lifetime_cap
                &&& sub.expires_at == expires_at
                &&& sub.expires_at_ledger == expires_at_ledger
                &&& sub.sub_account_label == sub_account_label
            },
    {
        proof {
            law_creation(
                self@,
                Terms {
                    subscriber: *subscriber,
                    merchant: *merchant,
                    token: *token,
                    amount,
                    interval_seconds,
                    usage_enabled,
                    lifetime_cap,
                    expires_at,
                    expires_at_ledger,
                    sub_account_label,
                },
            );
        }
        let t = Terms {
            subscriber: *subscriber,
            merchant: *merchant,
            token: *token,
            amount,
            interval_seconds,
            usage_enabled,
            lifetime_cap,
            expires_at,
            expires_at_ledger,
            sub_account_label,
        };
        self.create(&t)
    }

    /// Creates a subscription in the default token whose charges are split between payees.
    pub fn create_subscription_with_split(
        &mut self,
        subscriber: &Address,
        merchant: &Address,
        amount: i128,
        interval_seconds: u64,
        usage_enabled: bool,
        lifetime_cap: Option<i128>,
        expires_at: Option<u64>,
        entries: Vec<(Address, u32)>,
    ) -> (r: Result<u32, Error>)
        ensures
            ({
                let t = Terms {
                    subscriber: *subscriber,
                    merchant: *merchant,
                    token: old(self)@.config.token,
                    amount,
                    interval_seconds,
                    usage_enabled,
                    lifetime_cap,
                    expires_at,
                    expires_at_ledger: None,
                    sub_account_label: None,
                };
                ends(
                    r,
                    old(self)@,
                    final(self)@,
                    create_split_refusal(old(self)@, t, entries@),
                    old(self)@.config.next_subscription_id,
                    created_split(old(self)@, t, entries@),
                )
            }),
            r matches Ok(id) ==> {
                let sub = final(self)@.subscriptions[id];
                &&& id == old(self)@.config.next_subscription_id
                &&& adds_subscription(old(self)@, final(self)@)
                &&& is_new(
                    old(self)@,
                    sub,
                    *subscriber,
                    *merchant,
                    old(self)@.config.token,
                    amount,
                    interval_seconds,
                )
                &&& sub.usage_enabled == usage_enabled
                &&& sub.lifetime_cap == lifetime_cap
                &&& sub.expires_at == expires_at
                &&& sub.expires_at_ledger is None
                &&& sub.sub_account_label is None
                &&& final(self)@.splits[id] == entries@
                &&& shares_out(entries@)
            },
    {
        proof {
            let t = Terms {
                subscriber: *subscriber,
                merchant: *merchant,
                token: self.config.token,
                amount,
                interval_seconds,
                usage_enabled,
                lifetime_cap,
                expires_at,
                expires_at_ledger: None,
                sub_account_label: None,
            };
            law_creation(self@, t);
            law_creation_with_payees(self@, t, entries@);
        }
        let t = Terms {
            subscriber: *subscriber,
            merchant: *merchant,
            token: self.config.token,
            amount,
            interval_seconds,
            usage_enabled,
            lifetime_cap,
            expires_at,
            expires_at_ledger: None,
            sub_account_label: None,
        };
        match self.check_create(&t) {
            Some(e) => {
                self.events.clear();
                Err(e)
            },
            None => {
                if !is_valid_split(&entries) {
                    self.events.clear();
                    return Err(Error::InvalidInput);
                }
                let r = self.create(&t);
                match r {
                    Ok(id) => {
                        self.splits.insert(id, entries);
                    },
                    Err(_) => {},
                }
                assert(self@ =~= created_split(old(self)@, t, entries@));
                r
            },
        }
    }

    /// Offers a plan in the default token and returns its number.
    pub fn create_plan_template(
        &mut self,
        merchant: &Address,
        amount: i128,
        interval_seconds: u64,
        usage_enabled: bool,
        lifetime_cap: Option<i128>,
    ) -> (r: Result<u32, Error>)
        ensures
            ({
                let p = plan_of(
                    old(self)@,
                    *merchant,
                    amount,
                    interval_seconds,
                    usage_enabled,
                    lifetime_cap,
                );
                ends(
                    r,
                    old(self)@,
                    final(self)@,
                    plan_refusal(old(self)@, p),
                    old(self)@.config.next_plan_id,
                    plan_created(old(self)@, p),
                )
            }),
            r matches Ok(id) ==> {
                let p = final(self)@.plans[id];
                &&& id == old(self)@.config.next_plan_id
                &&& p.merchant == *merchant
                &&& p.token == old(self)@.config.token
                &&& p.amount == amount
                &&& p.interval_seconds == interval_seconds
                &&& p.usage_enabled == usage_enabled
                &&& p.lifetime_cap == lifetime_cap
            },
    {
        let t = Terms {
            subscriber: *merchant,
            merchant: *merchant,
            token: self.config.token,
            amount,
            interval_seconds,
            usage_enabled,
            lifetime_cap,
            expires_at: None,
            expires_at_ledger: None,
            sub_account_label: None,
        };
        let authorized = self.has_authorized(merchant);
        let refusal = self.check_terms(&t);
        self.events.clear();
        if !authorized {
            return Err(Error::AuthRequired);
        }
        match refusal {
            Some(e) => {
                return Err(e);
            },
            None => {},
        }
        let id: u32 = self.config.next_plan_id;
        if id == u32::MAX {
            return Err(Error::Overflow);
        }
        self.config.next_plan_id = id + 1;
        self.plans.insert(
            id,
            PlanTemplate {
                merchant: *merchant,
                token: t.token,
                amount,
                interval_seconds,
                usage_enabled,
                lifetime_cap,
            },
        );
        Ok(id)
    }

    /// Subscribes to a plan.
    pub fn create_subscription_from_plan(&mut self, subscriber: &Address, plan_id: u32) -> (r: Result<
        u32,
        Error,
    >)
        ensures
            ends(
                r,
                old(self)@,
                final(self)@,
                from_plan_refusal(old(self)@, *subscriber, plan_id),
                old(self)@.config.next_subscription_id,
                created(old(self)@, plan_terms(old(self)@.plans[plan_id], *subscriber)),
            ),
            r matches Ok(id) ==> {
                let sub = final(self)@.subscriptions[id];
                &&& id == old(self)@.config.next_subscription_id
                &&& adds_subscription(old(self)@, final(self)@)
                &&& is_new(
                    old(self)@,
                    sub,
                    *subscriber,
                    old(self)@.plans[plan_id].merchant,
                    old(self)@.plans[plan_id].token,
                    old(self)@.plans[plan_id].amount,
                    old(self)@.plans[plan_id].interval_seconds,
                )
                &&& sub.usage_enabled == old(self)@.plans[plan_id].usage_enabled
                &&& sub.lifetime_cap == old(self)@.plans[plan_id].lifetime_cap
                &&& sub.expires_at is None
                &&& sub.sub_account_label is None
            },
    {
        proof {
            law_plan_is_taken_up_as_offered(self@, *subscriber, plan_id);
        }
        if !self.has_authorized(subscriber) {
            self.events.clear();
            return Err(Error::AuthRequired);
        }
        if self.config.emergency_stop {
            self.events.clear();
            return Err(Error::EmergencyStopActive);
        }
        match self.plans.get(&plan_id) {
            None => {
                self.events.clear();
                Err(Error::NotFound)
            },
            Some(p) => {
                let t = Terms {
                    subscriber: *subscriber,
                    merchant: p.merchant,
                    token: p.token,
                    amount: p.amount,
                    interval_seconds: p.interval_seconds,
                    usage_enabled: p.usage_enabled,
                    lifetime_cap: p.lifetime_cap,
                    expires_at: None,
                    expires_at_ledger: None,
                    sub_account_label: None,
                };
                self.create(&t)
            },
        }
    }
}

proof fn lemma_listed_decimals(list: Seq<(Address, u32)>, i: int, n: int, token: Address)
    requires
        0 <= i <= n,
        listed_decimals(list, i, token) is Some,
    ensures
        listed_decimals(list, n, token) == listed_decimals(list, i, token),
    decreases n,
{
    if i < n {
        lemma_listed_decimals(list, i, n - 1, token);
    }
}

} // verus!
