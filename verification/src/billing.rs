//! When a subscription is charged: the decisions behind interval, usage and one-off charges.
use crate::charge_laws::{
    charges, law_interval_charge_is_made, law_one_off_charge, law_usage_charge,
};
use crate::charging::{cap_exceeded, cap_exhausted, has_split, settle_refusal, settled};
use crate::events::Event;
use crate::idempotency::{is_served, record, recorded, served, IDEM_CHARGE, IDEM_ONE_OFF};
use crate::lifecycle::{close_refusal, closed, with_sub};
use crate::records::{
    ChargeExecutionResult, Subscription, SubscriptionStatus, UsageChargeResult,
};
use crate::statements::BillingChargeKind;
use crate::types::{vault, vault_address, Address, Bytes32, Error, Key};
use crate::vault::{ends, State, Vault};
use vstd::prelude::*;

verus! {

/// Whether the merchant or, where charges are split, one of the payees is on the blocklist.
pub open spec fn payee_blocked(s: State, id: u32) -> bool {
    ||| s.blocked(s.subscriptions[id].merchant)
    ||| has_split(s, id) && exists|i: int|
        0 <= i < s.splits[id].len() && s.blocked((#[trigger] s.splits[id][i]).0)
}

/// Whether the merchant or one of the payees is paused.
pub open spec fn payee_paused(s: State, id: u32) -> bool {
    ||| s.paused(s.subscriptions[id].merchant)
    ||| has_split(s, id) && exists|i: int|
        0 <= i < s.splits[id].len() && s.paused((#[trigger] s.splits[id][i]).0)
}

/// Whether the merchant or one of the payees is on vacation.
pub open spec fn payee_on_vacation(s: State, id: u32) -> bool {
    ||| s.on_vacation(s.subscriptions[id].merchant)
    ||| has_split(s, id) && exists|i: int|
        0 <= i < s.splits[id].len() && s.on_vacation((#[trigger] s.splits[id][i]).0)
}

/// Why nobody may be charged or paid under a subscription now.
pub open spec fn parties_refusal(s: State, id: u32) -> Option<Error> {
    if s.blocked(s.subscriptions[id].subscriber) || payee_blocked(s, id) {
        Some(Error::SubscriberBlocklisted)
    } else if payee_paused(s, id) {
        Some(Error::MerchantPaused)
    } else if payee_on_vacation(s, id) {
        Some(Error::VacationActive)
    } else {
        None
    }
}

/// Whether a billing interval has passed since the last payment.
pub open spec fn is_due(s: State, sub: Subscription) -> bool {
    s.ledger.timestamp - sub.last_payment_timestamp >= sub.interval_seconds
}

/// Whether a scheduled cancellation has come due.
pub open spec fn cancel_due(s: State, sub: Subscription) -> bool {
    sub.cancel_at matches Some(at) && at <= s.ledger.timestamp
}

/// Whether the time to make up for a missed payment is still running.
pub open spec fn in_grace(s: State, sub: Subscription) -> bool {
    s.ledger.timestamp < sub.last_payment_timestamp + sub.interval_seconds + s.config.grace_period
}

/// What becomes of an interval charge.
#[derive(Clone, Copy, Debug, PartialEq, Eq, Structural)]
pub enum ChargePath {
    /// It is refused.
    Refuse(Error),
    /// The subscription is found to have expired.
    Expire,
    /// A scheduled cancellation takes its place.
    Cancel,
    /// The subscription does not renew.
    Skip,
    /// It would go over the lifetime cap.
    CapOut,
    /// The prepaid balance does not cover it.
    RunDry,
    /// It is taken.
    Charge,
}

/// Why a usage, one-off or interval charge under a subscription is refused before its amount
/// matters.
pub open spec fn chargeable_refusal(s: State, id: u32) -> Option<Error> {
    let sub = s.subscriptions[id];
    if cap_exhausted(sub) {
        Some(Error::LifetimeCapReached)
    } else if !(sub.status is Active || sub.status is GracePeriod) {
        Some(Error::NotActive)
    } else {
        None
    }
}

/// What becomes of an interval charge now.
pub open spec fn charge_path(s: State, id: u32) -> ChargePath {
    if s.config.emergency_stop {
        ChargePath::Refuse(Error::EmergencyStopActive)
    } else if !s.subscriptions.dom().contains(id) {
        ChargePath::Refuse(Error::NotFound)
    } else {
        let sub = s.subscriptions[id];
        if s.is_over(sub) {
            ChargePath::Expire
        } else if chargeable_refusal(s, id) is Some {
            ChargePath::Refuse(chargeable_refusal(s, id)->0)
        } else if cancel_due(s, sub) {
            match close_refusal(s, s.config.cancellation, id) {
                Some(e) => ChargePath::Refuse(e),
                None => ChargePath::Cancel,
            }
        } else if parties_refusal(s, id) is Some {
            ChargePath::Refuse(parties_refusal(s, id)->0)
        } else if !is_due(s, sub) {
            ChargePath::Refuse(
                if s.charged.dom().contains(id) {
                    Error::Replay
                } else {
                    Error::IntervalNotElapsed
                },
            )
        } else if !sub.auto_renew {
            ChargePath::Skip
        } else if cap_exceeded(sub, sub.amount) {
            ChargePath::CapOut
        } else if sub.prepaid_balance < sub.amount {
            ChargePath::RunDry
        } else {
            match settle_refusal(s, id, sub.amount) {
                Some(e) => ChargePath::Refuse(e),
                None => ChargePath::Charge,
            }
        }
    }
}

/// The state after a subscription was found to have expired. An ended one stays as it is.
pub open spec fn found_expired(s: State, id: u32) -> State {
    let sub = s.subscriptions[id];
    if sub.ended() {
        s.quiet()
    } else {
        State {
            subscriptions: s.subscriptions.insert(
                id,
                Subscription { status: SubscriptionStatus::Expired, ..sub },
            ),
            ..s.quiet()
        }
    }
}

/// The state after a charge would have gone over the cap: cancelled, with nothing moved.
pub open spec fn capped_out(s: State, id: u32) -> State {
    let sub = s.subscriptions[id];
    with_sub(
        s,
        id,
        Subscription { status: SubscriptionStatus::Cancelled, ..sub },
        Event::LifetimeCapReached { subscription_id: id, lifetime_cap: sub.lifetime_cap->0 },
    )
}

/// The state after a charge was not covered: in grace while that lasts, then out of money.
pub open spec fn ran_dry(s: State, id: u32) -> State {
    let sub = s.subscriptions[id];
    with_sub(
        s,
        id,
        if in_grace(s, sub) {
            Subscription {
                status: SubscriptionStatus::GracePeriod,
                grace_start_timestamp: (if sub.grace_start_timestamp is Some {
                    sub.grace_start_timestamp
                } else {
                    Some(s.ledger.timestamp)
                }),
                ..sub
            }
        } else {
            Subscription { status: SubscriptionStatus::InsufficientBalance, ..sub }
        },
        Event::ChargeFailed {
            subscription_id: id,
            required: sub.amount,
            available: sub.prepaid_balance,
        },
    )
}

/// What an interval charge that is not refused returns.
pub open spec fn charge_value(path: ChargePath) -> ChargeExecutionResult {
    match path {
        ChargePath::Cancel => ChargeExecutionResult::Cancelled,
        ChargePath::Skip => ChargeExecutionResult::Skipped,
        ChargePath::CapOut => ChargeExecutionResult::LifetimeCapReached,
        ChargePath::RunDry => ChargeExecutionResult::InsufficientBalance,
        _ => ChargeExecutionResult::Charged,
    }
}

/// The state after an interval charge has gone its way.
pub open spec fn after_path(s: State, id: u32, path: ChargePath, key: Option<Bytes32>) -> State {
    match path {
        ChargePath::Refuse(_) => s.quiet(),
        ChargePath::Expire => found_expired(s, id),
        ChargePath::Cancel => closed(s, s.config.cancellation, id, vault()),
        ChargePath::Skip => s.quiet(),
        ChargePath::CapOut => capped_out(s, id),
        ChargePath::RunDry => ran_dry(s, id),
        ChargePath::Charge => State {
            rings: recorded(s.rings, IDEM_CHARGE, id, key),
            ..settled(s, id, s.subscriptions[id].amount, BillingChargeKind::Interval)
        },
    }
}

/// What an interval charge returns.
pub open spec fn charge_result(path: ChargePath) -> Result<ChargeExecutionResult, Error> {
    match path {
        ChargePath::Refuse(e) => Err(e),
        ChargePath::Expire => Err(Error::SubscriptionExpired),
        _ => Ok(charge_value(path)),
    }
}

/// Whether an interval charge repeats a request that was served before.
pub open spec fn charge_repeated(s: State, id: u32, key: Option<Bytes32>) -> bool {
    !s.config.emergency_stop && s.subscriptions.dom().contains(id) && served(
        s.rings,
        IDEM_CHARGE,
        id,
        key,
    )
}

/// What an interval charge returns. A request that was served before is answered as it was then.
pub open spec fn charge_answer(s: State, id: u32, key: Option<Bytes32>) -> Result<
    ChargeExecutionResult,
    Error,
> {
    if charge_repeated(s, id, key) {
        Ok(ChargeExecutionResult::Charged)
    } else {
        charge_result(charge_path(s, id))
    }
}

/// The state after an interval charge. A request that was served before changes nothing.
pub open spec fn charge_done(s: State, id: u32, key: Option<Bytes32>) -> State {
    if charge_repeated(s, id, key) {
        s.quiet()
    } else {
        after_path(s, id, charge_path(s, id), key)
    }
}

/// What an optional byte string holds.
pub open spec fn tag_of(reference: Option<Vec<u8>>) -> Option<Seq<u8>> {
    match reference {
        Some(tag) => Some(tag@),
        None => None,
    }
}

/// Why a usage charge is refused.
pub open spec fn usage_refusal(
    s: State,
    id: u32,
    amount: i128,
    reference: Option<Seq<u8>>,
) -> Option<Error> {
    if s.config.emergency_stop {
        Some(Error::EmergencyStopActive)
    } else if !s.subscriptions.dom().contains(id) {
        Some(Error::NotFound)
    } else {
        let sub = s.subscriptions[id];
        if s.is_over(sub) {
            Some(Error::SubscriptionExpired)
        } else if !sub.usage_enabled {
            Some(Error::UsageNotEnabled)
        } else if amount <= 0 {
            Some(Error::InvalidAmount)
        } else if reference matches Some(tag) && s.usage_references.dom().contains((id, tag)) {
            Some(Error::Replay)
        } else if chargeable_refusal(s, id) is Some {
            chargeable_refusal(s, id)
        } else if parties_refusal(s, id) is Some {
            parties_refusal(s, id)
        } else if cap_exceeded(sub, amount) {
            None
        } else if sub.prepaid_balance < amount {
            Some(Error::InsufficientBalance)
        } else {
            settle_refusal(s, id, amount)
        }
    }
}

/// The usage references after a charge that carries one.
pub open spec fn referenced(
    refs: Map<(u32, Seq<u8>), bool>,
    id: u32,
    reference: Option<Seq<u8>>,
) -> Map<(u32, Seq<u8>), bool> {
    match reference {
        Some(tag) => refs.insert((id, tag), true),
        None => refs,
    }
}

/// The state after a usage charge; one over the cap cancels the subscription and moves nothing.
pub open spec fn usage_charged(s: State, id: u32, amount: i128, reference: Option<Seq<u8>>) -> State {
    if cap_exceeded(s.subscriptions[id], amount) {
        capped_out(s, id)
    } else {
        State {
            usage_references: referenced(s.usage_references, id, reference),
            ..settled(s, id, amount, BillingChargeKind::Usage)
        }
    }
}

/// What a usage charge that is not refused returns.
pub open spec fn usage_value(s: State, id: u32, amount: i128) -> UsageChargeResult {
    if cap_exceeded(s.subscriptions[id], amount) {
        UsageChargeResult::LifetimeCapReached
    } else {
        UsageChargeResult::Charged
    }
}

/// Why a one-off charge is refused. A request that was served before is not.
pub open spec fn one_off_refusal(
    s: State,
    id: u32,
    merchant: Address,
    amount: i128,
    key: Option<Bytes32>,
) -> Option<Error> {
    if !s.authorized(merchant) {
        Some(Error::AuthRequired)
    } else if s.config.emergency_stop {
        Some(Error::EmergencyStopActive)
    } else if !s.subscriptions.dom().contains(id) {
        Some(Error::NotFound)
    } else {
        let sub = s.subscriptions[id];
        if merchant != sub.merchant {
            Some(Error::Unauthorized)
        } else if served(s.rings, IDEM_ONE_OFF, id, key) {
            None
        } else if amount <= 0 {
            Some(Error::InvalidAmount)
        } else if s.is_over(sub) {
            Some(Error::SubscriptionExpired)
        } else if chargeable_refusal(s, id) is Some {
            chargeable_refusal(s, id)
        } else if parties_refusal(s, id) is Some {
            parties_refusal(s, id)
        } else if cap_exceeded(sub, amount) {
            Some(Error::LifetimeCapReached)
        } else if sub.prepaid_balance < amount {
            Some(Error::InsufficientBalance)
        } else {
            settle_refusal(s, id, amount)
        }
    }
}

/// The state after a one-off charge. A request that was served before changes nothing.
pub open spec fn one_off_charged(s: State, id: u32, amount: i128, key: Option<Bytes32>) -> State {
    if served(s.rings, IDEM_ONE_OFF, id, key) {
        s.quiet()
    } else {
        State {
            rings: recorded(s.rings, IDEM_ONE_OFF, id, key),
            ..settled(s, id, amount, BillingChargeKind::OneOff)
        }
    }
}

impl Vault {
    fn check_parties(&self, id: u32, sub: &Subscription) -> (r: Option<Error>)
        requires
            self@.subscriptions.dom().contains(id),
            *sub == self@.subscriptions[id],
        ensures
            r == parties_refusal(self@, id),
    {
        let mut blocked = self.is_blocked(&sub.subscriber) || self.is_blocked(&sub.merchant);
        let mut paused = self.is_merchant_paused(&sub.merchant);
        let mut away = self.is_merchant_in_vacation(&sub.merchant, self.ledger.timestamp);
        if self.is_split(id) {
            match self.splits.get(&id) {
                None => {},
                Some(entries) => {
                    let ghost list = self@.splits[id];
                    let ghost b0 = blocked;
                    let ghost p0 = paused;
                    let ghost a0 = away;
                    let mut i: usize = 0;
                    while i < entries.len()
                        invariant
                            i <= entries@.len(),
                            entries@ == list,
                            blocked == (b0 || exists|j: int|
                                0 <= j < i && self@.blocked((#[trigger] list[j]).0)),
                            paused == (p0 || exists|j: int|
                                0 <= j < i && self@.paused((#[trigger] list[j]).0)),
                            away == (a0 || exists|j: int|
                                0 <= j < i && self@.on_vacation((#[trigger] list[j]).0)),
                        decreases entries@.len() - i,
                    {
                        let who = entries[i].0;
                        assert(list[i as int].0 == who);
                        if self.is_blocked(&who) {
                            blocked = true;
                        }
                        if self.is_merchant_paused(&who) {
                            paused = true;
                        }
                        if self.is_merchant_in_vacation(&who, self.ledger.timestamp) {
                            away = true;
                        }
                        i += 1;
                    }
                },
            }
        }
        if blocked {
            return Some(Error::SubscriberBlocklisted);
        }
        if paused {
            return Some(Error::MerchantPaused);
        }
        if away {
            return Some(Error::VacationActive);
        }
        None
    }

    fn check_chargeable(&self, id: u32, sub: &Subscription) -> (r: Option<Error>)
        requires
            self@.subscriptions.dom().contains(id),
            *sub == self@.subscriptions[id],
        ensures
            r == chargeable_refusal(self@, id),
    {
        match sub.lifetime_cap {
            Some(c) => {
                if sub.lifetime_charged >= c {
                    return Some(Error::LifetimeCapReached);
                }
            },
            None => {},
        }
        match sub.status {
            SubscriptionStatus::Active => None,
            SubscriptionStatus::GracePeriod => None,
            _ => Some(Error::NotActive),
        }
    }

    /// What becomes of an interval charge now.
    pub fn decide_charge(&self, id: u32) -> (path: ChargePath)
        ensures
            path == charge_path(self@, id),
    {
        if self.config.emergency_stop {
            return ChargePath::Refuse(Error::EmergencyStopActive);
        }
        let sub = match self.subscriptions.get(&id) {
            Some(s) => *s,
            None => {
                return ChargePath::Refuse(Error::NotFound);
            },
        };
        if self.has_run_out(&sub) {
            return ChargePath::Expire;
        }
        match self.check_chargeable(id, &sub) {
            Some(e) => {
                return ChargePath::Refuse(e);
            },
            None => {},
        }
        let now: u64 = self.ledger.timestamp;
        match sub.cancel_at {
            Some(at) => {
                if at <= now {
                    return match self.check_close(self.config.cancellation, id, &sub) {
                        Some(e) => ChargePath::Refuse(e),
                        None => ChargePath::Cancel,
                    };
                }
            },
            None => {},
        }
        match self.check_parties(id, &sub) {
            Some(e) => {
                return ChargePath::Refuse(e);
            },
            None => {},
        }
        if now < sub.last_payment_timestamp || now - sub.last_payment_timestamp
            < sub.interval_seconds {
            return ChargePath::Refuse(
                if self.charged.contains(&id) {
                    Error::Replay
                } else {
                    Error::IntervalNotElapsed
                },
            );
        }
        if !sub.auto_renew {
            return ChargePath::Skip;
        }
        if exceeds_cap(&sub, sub.amount) {
            return ChargePath::CapOut;
        }
        if sub.prepaid_balance < sub.amount {
            return ChargePath::RunDry;
        }
        match self.check_settle(id, &sub, sub.amount) {
            Some(e) => ChargePath::Refuse(e),
            None => ChargePath::Charge,
        }
    }

    fn cap_out(&mut self, id: u32, sub: &Subscription, cap: i128)
        requires
            old(self)@.subscriptions.dom().contains(id),
            *sub == old(self)@.subscriptions[id],
            sub.lifetime_cap == Some(cap),
        ensures
            final(self)@ == capped_out(old(self)@, id),
    {
        self.events.clear();
        let mut after = *sub;
        after.status = SubscriptionStatus::Cancelled;
        self.subscriptions.insert(id, after);
        self.events.push(Event::LifetimeCapReached { subscription_id: id, lifetime_cap: cap });
        assert(self@ =~= capped_out(old(self)@, id));
    }

    fn run_dry(&mut self, id: u32, sub: &Subscription)
        requires
            old(self)@.subscriptions.dom().contains(id),
            *sub == old(self)@.subscriptions[id],
        ensures
            final(self)@ == ran_dry(old(self)@, id),
    {
        self.events.clear();
        let now: u64 = self.ledger.timestamp;
        let limit: u128 = sub.last_payment_timestamp as u128 + sub.interval_seconds as u128
            + self.config.grace_period as u128;
        let mut after = *sub;
        if (now as u128) < limit {
            after.status = SubscriptionStatus::GracePeriod;
            if sub.grace_start_timestamp.is_none() {
                after.grace_start_timestamp = Some(now);
            }
        } else {
            after.status = SubscriptionStatus::InsufficientBalance;
        }
        self.subscriptions.insert(id, after);
        self.events.push(
            Event::ChargeFailed {
                subscription_id: id,
                required: sub.amount,
                available: sub.prepaid_balance,
            },
        );
        assert(self@ =~= ran_dry(old(self)@, id));
    }

    /// Carries out what was decided about an interval charge.
    fn follow_path(&mut self, id: u32, path: ChargePath, key: &Option<Bytes32>) -> (r: Result<
        ChargeExecutionResult,
        Error,
    >)
        requires
            path == charge_path(old(self)@, id),
        ensures
            r == charge_result(path),
            final(self)@ == after_path(old(self)@, id, path, *key),
    {
        let sub = match path {
            ChargePath::Refuse(e) => {
                self.events.clear();
                return Err(e);
            },
            ChargePath::Skip => {
                self.events.clear();
                return Ok(ChargeExecutionResult::Skipped);
            },
            _ => match self.subscriptions.get(&id) {
                Some(s) => *s,
                None => {
                    self.events.clear();
                    return Err(Error::NotFound);
                },
            },
        };
        match path {
            ChargePath::Expire => {
                self.events.clear();
                if !sub.has_ended() {
                    let mut after = sub;
                    after.status = SubscriptionStatus::Expired;
                    self.subscriptions.insert(id, after);
                }
                assert(self@ =~= found_expired(old(self)@, id));
                Err(Error::SubscriptionExpired)
            },
            ChargePath::Cancel => {
                let policy = self.config.cancellation;
                self.close(policy, id, &sub, &vault_address());
                Ok(ChargeExecutionResult::Cancelled)
            },
            ChargePath::CapOut => {
                match sub.lifetime_cap {
                    Some(c) => {
                        self.cap_out(id, &sub, c);
                    },
                    None => {},
                }
                Ok(ChargeExecutionResult::LifetimeCapReached)
            },
            ChargePath::RunDry => {
                self.run_dry(id, &sub);
                Ok(ChargeExecutionResult::InsufficientBalance)
            },
            _ => {
                self.settle(id, &sub, sub.amount, BillingChargeKind::Interval);
                record(&mut self.rings, IDEM_CHARGE, id, key);
                assert(self@ =~= after_path(old(self)@, id, path, *key));
                Ok(ChargeExecutionResult::Charged)
            },
        }
    }

    /// Charges a subscription for an interval.
    pub fn charge_subscription(&mut self, id: u32, key: Option<Bytes32>) -> (r: Result<
        ChargeExecutionResult,
        Error,
    >)
        ensures
            r == charge_answer(old(self)@, id, key),
            final(self)@ == charge_done(old(self)@, id, key),
            r == Ok::<ChargeExecutionResult, Error>(ChargeExecutionResult::Charged) && !served(
                old(self)@.rings,
                IDEM_CHARGE,
                id,
                key,
            ) ==> charges(
                old(self)@,
                final(self)@,
                id,
                old(self)@.subscriptions[id].amount as int,
                BillingChargeKind::Interval,
            ),
    {
        proof {
            if charge_answer(self@, id, key) == Ok::<ChargeExecutionResult, Error>(
                ChargeExecutionResult::Charged,
            ) && !served(self@.rings, IDEM_CHARGE, id, key) {
                law_interval_charge_is_made(self@, id, key);
            }
        }
        if !self.config.emergency_stop && self.subscriptions.contains(&id) && is_served(
            &self.rings,
            IDEM_CHARGE,
            id,
            &key,
        ) {
            self.events.clear();
            return Ok(ChargeExecutionResult::Charged);
        }
        let path = self.decide_charge(id);
        self.follow_path(id, path, &key)
    }

    /// Why a usage charge is refused.
    fn check_usage(&self, id: u32, amount: i128, reference: &Option<Vec<u8>>) -> (r: Option<Error>)
        ensures
            r == usage_refusal(
                self@,
                id,
                amount,
                tag_of(*reference),
            ),
    {
        if self.config.emergency_stop {
            return Some(Error::EmergencyStopActive);
        }
        let sub = match self.subscriptions.get(&id) {
            Some(s) => *s,
            None => {
                return Some(Error::NotFound);
            },
        };
        if self.has_run_out(&sub) {
            return Some(Error::SubscriptionExpired);
        }
        if !sub.usage_enabled {
            return Some(Error::UsageNotEnabled);
        }
        if amount <= 0 {
            return Some(Error::InvalidAmount);
        }
        match reference {
            Some(tag) => {
                if self.usage_references.contains(
                    &(id, crate::encoding::copy_bytes(tag.as_slice())),
                ) {
                    return Some(Error::Replay);
                }
            },
            None => {},
        }
        match self.check_chargeable(id, &sub) {
            Some(e) => {
                return Some(e);
            },
            None => {},
        }
        match self.check_parties(id, &sub) {
            Some(e) => {
                return Some(e);
            },
            None => {},
        }
        if exceeds_cap(&sub, amount) {
            return None;
        }
        if sub.prepaid_balance < amount {
            return Some(Error::InsufficientBalance);
        }
        self.check_settle(id, &sub, amount)
    }

    fn do_charge_usage(&mut self, id: u32, amount: i128, reference: Option<Vec<u8>>) -> (r: Result<
        UsageChargeResult,
        Error,
    >)
        ensures
            ({
                let tag = tag_of(reference);
                ends(
                    r,
                    old(self)@,
                    final(self)@,
                    usage_refusal(old(self)@, id, amount, tag),
                    usage_value(old(self)@, id, amount),
                    usage_charged(old(self)@, id, amount, tag),
                )
            }),
    {
        let ghost tag = tag_of(reference);
        match self.check_usage(id, amount, &reference) {
            Some(e) => {
                self.events.clear();
                return Err(e);
            },
            None => {},
        }
        let sub = match self.subscriptions.get(&id) {
            Some(s) => *s,
            None => {
                self.events.clear();
                return Err(Error::NotFound);
            },
        };
        if exceeds_cap(&sub, amount) {
            match sub.lifetime_cap {
                Some(c) => {
                    self.cap_out(id, &sub, c);
                },
                None => {},
            }
            return Ok(UsageChargeResult::LifetimeCapReached);
        }
        self.settle(id, &sub, amount, BillingChargeKind::Usage);
        match reference {
            Some(t) => {
                self.usage_references.insert((id, t), true);
            },
            None => {},
        }
        assert(self@ =~= usage_charged(old(self)@, id, amount, tag));
        Ok(UsageChargeResult::Charged)
    }

    /// Charges a subscription for usage.
    pub fn charge_usage(&mut self, id: u32, amount: i128) -> (r: Result<UsageChargeResult, Error>)
        ensures
            ends(
                r,
                old(self)@,
                final(self)@,
                usage_refusal(old(self)@, id, amount, None),
                usage_value(old(self)@, id, amount),
                usage_charged(old(self)@, id, amount, None),
            ),
            r == Ok::<UsageChargeResult, Error>(UsageChargeResult::Charged) ==> charges(
                old(self)@,
                final(self)@,
                id,
                amount as int,
                BillingChargeKind::Usage,
            ),
    {
        proof {
            law_usage_charge(self@, id, amount, None);
        }
        self.do_charge_usage(id, amount, None)
    }

    /// Charges a subscription for usage, once per reference.
    pub fn charge_usage_with_reference(&mut self, id: u32, amount: i128, reference: &[u8]) -> (r: Result<
        UsageChargeResult,
        Error,
    >)
        ensures
            ends(
                r,
                old(self)@,
                final(self)@,
                usage_refusal(old(self)@, id, amount, Some(reference@)),
                usage_value(old(self)@, id, amount),
                usage_charged(old(self)@, id, amount, Some(reference@)),
            ),
            r == Ok::<UsageChargeResult, Error>(UsageChargeResult::Charged) ==> charges(
                old(self)@,
                final(self)@,
                id,
                amount as int,
                BillingChargeKind::Usage,
            ),
    {
        proof {
            law_usage_charge(self@, id, amount, Some(reference@));
        }
        self.do_charge_usage(id, amount, Some(crate::encoding::copy_bytes(reference)))
    }

    /// Charges a subscription once, at its merchant's word.
    pub fn charge_one_off(
        &mut self,
        id: u32,
        merchant: &Address,
        amount: i128,
        key: Option<Bytes32>,
    ) -> (r: Result<(), Error>)
        ensures
            ends(
                r,
                old(self)@,
                final(self)@,
                one_off_refusal(old(self)@, id, *merchant, amount, key),
                (),
                one_off_charged(old(self)@, id, amount, key),
            ),
            r is Ok && !served(old(self)@.rings, IDEM_ONE_OFF, id, key) ==> charges(
                old(self)@,
                final(self)@,
                id,
                amount as int,
                BillingChargeKind::OneOff,
            ),
    {
        proof {
            if !served(self@.rings, IDEM_ONE_OFF, id, key) {
                law_one_off_charge(self@, id, *merchant, amount, key);
            }
        }
        let refusal = self.check_one_off(id, merchant, amount, &key);
        match refusal {
            Some(e) => {
                self.events.clear();
                return Err(e);
            },
            None => {},
        }
        if is_served(&self.rings, IDEM_ONE_OFF, id, &key) {
            self.events.clear();
            return Ok(());
        }
        let sub = match self.subscriptions.get(&id) {
            Some(s) => *s,
            None => {
                self.events.clear();
                return Err(Error::NotFound);
            },
        };
        self.settle(id, &sub, amount, BillingChargeKind::OneOff);
        record(&mut self.rings, IDEM_ONE_OFF, id, &key);
        assert(self@ =~= one_off_charged(old(self)@, id, amount, key));
        Ok(())
    }

    fn check_one_off(&self, id: u32, merchant: &Address, amount: i128, key: &Option<Bytes32>) -> (r: Option<
        Error,
    >)
        ensures
            r == one_off_refusal(self@, id, *merchant, amount, *key),
    {
        if !self.has_authorized(merchant) {
            return Some(Error::AuthRequired);
        }
        if self.config.emergency_stop {
            return Some(Error::EmergencyStopActive);
        }
        let sub = match self.subscriptions.get(&id) {
            Some(s) => *s,
            None => {
                return Some(Error::NotFound);
            },
        };
        if !merchant.same(&sub.merchant) {
            return Some(Error::Unauthorized);
        }
        if is_served(&self.rings, IDEM_ONE_OFF, id, key) {
            return None;
        }
        if amount <= 0 {
            return Some(Error::InvalidAmount);
        }
        if self.has_run_out(&sub) {
            return Some(Error::SubscriptionExpired);
        }
        match self.check_chargeable(id, &sub) {
            Some(e) => {
                return Some(e);
            },
            None => {},
        }
        match self.check_parties(id, &sub) {
            Some(e) => {
                return Some(e);
            },
            None => {},
        }
        if exceeds_cap(&sub, amount) {
            return Some(Error::LifetimeCapReached);
        }
        if sub.prepaid_balance < amount {
            return Some(Error::InsufficientBalance);
        }
        self.check_settle(id, &sub, amount)
    }
}

/// Whether a charge of `amount` goes over the lifetime cap.
pub(crate) fn exceeds_cap(sub: &Subscription, amount: i128) -> (b: bool)
    ensures
        b == cap_exceeded(*sub, amount),
{
    match sub.lifetime_cap {
        Some(c) => match sub.lifetime_charged.checked_add(amount) {
            Some(x) => x > c,
            None => amount > 0,
        },
        None => false,
    }
}

} // verus!
