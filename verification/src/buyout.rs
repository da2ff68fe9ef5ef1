//! Buying a subscription out of its grace period: a deposit and the missed charge in one call.
use crate::billing::exceeds_cap;
use crate::charge_core::{mul_div, part_of, BPS_SCALE};
use crate::charging::{cap_exceeded, has_room, payouts, settle_refusal, settled};
use crate::deposits::{deposit_payment, deposit_refusal, deposited};
use crate::events::Event;
use crate::idempotency::{is_served, record, recorded, served, IDEM_BUYOUT};
use crate::payments::{handed_over, Payment};
use crate::records::SubscriptionStatus;
use crate::statements::BillingChargeKind;
use crate::types::{Address, Bytes32, Error, Key};
use crate::vault::{ends, State, Vault};
use vstd::prelude::*;

verus! {

/// What must be deposited on top of the charge.
pub open spec fn premium_of(s: State, amount: i128) -> int {
    part_of(amount as int, s.config.buyout_premium_bps as int, BPS_SCALE as int)
}

/// Why a buyout is refused. A request that was served before is not.
pub open spec fn buyout_refusal(
    s: State,
    id: u32,
    subscriber: Address,
    deposit: i128,
    key: Option<Bytes32>,
) -> Option<Error> {
    if !s.authorized(subscriber) {
        Some(Error::AuthRequired)
    } else if s.config.locked {
        Some(Error::Reentrancy)
    } else if s.config.emergency_stop {
        Some(Error::EmergencyStopActive)
    } else if !s.subscriptions.dom().contains(id) {
        Some(Error::NotFound)
    } else {
        let sub = s.subscriptions[id];
        if subscriber != sub.subscriber {
            Some(Error::Unauthorized)
        } else if served(s.rings, IDEM_BUYOUT, id, key) {
            None
        } else if !(sub.status is GracePeriod) {
            Some(Error::NotInGracePeriod)
        } else if sub.amount <= 0 {
            Some(Error::InvalidAmount)
        } else if s.config.buyout_premium_bps > BPS_SCALE || sub.amount + premium_of(s, sub.amount)
            > i128::MAX {
            Some(Error::Overflow)
        } else if deposit < sub.amount + premium_of(s, sub.amount) || sub.prepaid_balance + deposit
            < sub.amount {
            Some(Error::InsufficientBalance)
        } else if cap_exceeded(sub, sub.amount) {
            Some(Error::LifetimeCapReached)
        } else if deposit_refusal(s, id, subscriber, deposit) is Some {
            deposit_refusal(s, id, subscriber, deposit)
        } else {
            settle_refusal(s, id, sub.amount)
        }
    }
}

/// What a buyout that is not refused returns: the charge and the premium.
pub open spec fn buyout_value(s: State, id: u32, key: Option<Bytes32>) -> (i128, i128) {
    if served(s.rings, IDEM_BUYOUT, id, key) {
        (0, 0)
    } else {
        (s.subscriptions[id].amount, premium_of(s, s.subscriptions[id].amount) as i128)
    }
}

/// The state after a buyout: the deposit taken in, then the missed charge settled. What was
/// deposited beyond the charge stays on the balance.
pub open spec fn bought_out(
    s: State,
    id: u32,
    subscriber: Address,
    deposit: i128,
    key: Option<Bytes32>,
) -> State {
    if served(s.rings, IDEM_BUYOUT, id, key) {
        s.quiet()
    } else {
        let amount = s.subscriptions[id].amount;
        State {
            rings: recorded(s.rings, IDEM_BUYOUT, id, key),
            events: seq![
                Event::GraceBoughtOut {
                    subscription_id: id,
                    charged: amount,
                    premium: premium_of(s, amount) as i128,
                },
            ],
            ..settled(
                deposited(s, id, subscriber, deposit, None),
                id,
                amount,
                BillingChargeKind::Interval,
            )
        }
    }
}

/// The transfer that a buyout makes.
pub open spec fn buyout_payment(
    s: State,
    id: u32,
    subscriber: Address,
    deposit: i128,
    key: Option<Bytes32>,
) -> Option<Payment> {
    if served(s.rings, IDEM_BUYOUT, id, key) {
        None
    } else {
        Some(deposit_payment(s, id, subscriber, deposit))
    }
}

/// Neither a deposit nor the lock bears on how a charge is settled.
proof fn lemma_deposit_keeps_settlement(
    s: State,
    id: u32,
    payer: Address,
    deposit: i128,
    amount: i128,
    kind: BillingChargeKind,
)
    requires
        s.subscriptions.dom().contains(id),
        settle_refusal(s, id, amount) is None,
    ensures
        ({
            let d = deposited(s, id, payer, deposit, None);
            let p = Some(deposit_payment(s, id, payer, deposit));
            &&& settle_refusal(handed_over(s, p, d), id, amount) is None
            &&& settled(handed_over(s, p, d), id, amount, kind) == handed_over(
                s,
                p,
                settled(d, id, amount, kind),
            )
        }),
{
    let d = deposited(s, id, payer, deposit, None);
    let p = Some(deposit_payment(s, id, payer, deposit));
    let s1 = handed_over(s, p, d);
    assert(payouts(s1, id, amount) =~= payouts(s, id, amount));
    assert(payouts(d, id, amount) =~= payouts(s, id, amount));
    let sub = s.subscriptions[id];
    assert(has_room(s1, id, amount)) by {
        let list = payouts(s, id, amount);
        assert forall|i: int| 0 <= i < list.len() implies s1.merchant_balance(
            (#[trigger] list[i]).0,
            sub.token,
        ) + amount <= i128::MAX by {
            assert(s.merchant_balance(list[i].0, sub.token) + amount <= i128::MAX);
        }
    }
    assert(settled(s1, id, amount, kind) =~= handed_over(s, p, settled(d, id, amount, kind)));
}

/// A deposit does not bear on whether a charge can be settled.
pub(crate) proof fn lemma_deposit_keeps_charge(
    s: State,
    id: u32,
    payer: Address,
    deposit: i128,
    amount: i128,
)
    requires
        s.subscriptions.dom().contains(id),
        settle_refusal(s, id, amount) is None,
    ensures
        settle_refusal(deposited(s, id, payer, deposit, None), id, amount) is None,
{
    lemma_deposit_keeps_settlement(s, id, payer, deposit, amount, BillingChargeKind::Interval);
    let d = deposited(s, id, payer, deposit, None);
    let p = Some(deposit_payment(s, id, payer, deposit));
    let s1 = handed_over(s, p, d);
    assert(payouts(s1, id, amount) =~= payouts(d, id, amount));
    assert(has_room(d, id, amount)) by {
        let list = payouts(d, id, amount);
        assert forall|i: int| 0 <= i < list.len() implies d.merchant_balance(
            (#[trigger] list[i]).0,
            d.subscriptions[id].token,
        ) + amount <= i128::MAX by {
            assert(s1.merchant_balance(list[i].0, d.subscriptions[id].token) + amount
                <= i128::MAX);
        }
    }
}

impl Vault {
    fn check_buyout(
        &self,
        id: u32,
        subscriber: &Address,
        deposit: i128,
        key: &Option<Bytes32>,
    ) -> (r: Option<Error>)
        ensures
            r == buyout_refusal(self@, id, *subscriber, deposit, *key),
    {
        if !self.has_authorized(subscriber) {
            return Some(Error::AuthRequired);
        }
        if self.config.locked {
            return Some(Error::Reentrancy);
        }
        if self.config.emergency_stop {
            return Some(Error::EmergencyStopActive);
        }
        let sub = match self.subscriptions.get(&id) {
            Some(s) => *s,
            None => {
                return Some(Error::NotFound);
            },
        };
        if !subscriber.same(&sub.subscriber) {
            return Some(Error::Unauthorized);
        }
        if is_served(&self.rings, IDEM_BUYOUT, id, key) {
            return None;
        }
        if sub.status != SubscriptionStatus::GracePeriod {
            return Some(Error::NotInGracePeriod);
        }
        if sub.amount <= 0 {
            return Some(Error::InvalidAmount);
        }
        let bps: u32 = self.config.buyout_premium_bps;
        if bps > BPS_SCALE {
            return Some(Error::Overflow);
        }
        let premium: i128 = mul_div(sub.amount, bps as u64, BPS_SCALE as u64);
        let required: i128 = match sub.amount.checked_add(premium) {
            Some(x) => x,
            None => {
                return Some(Error::Overflow);
            },
        };
        if deposit < required {
            return Some(Error::InsufficientBalance);
        }
        match sub.prepaid_balance.checked_add(deposit) {
            Some(x) => {
                if x < sub.amount {
                    return Some(Error::InsufficientBalance);
                }
            },
            None => {},
        }
        if exceeds_cap(&sub, sub.amount) {
            return Some(Error::LifetimeCapReached);
        }
        match self.check_deposit(id, &sub, subscriber, deposit) {
            Some(e) => {
                return Some(e);
            },
            None => {},
        }
        self.check_settle(id, &sub, sub.amount)
    }

    /// The first step of a buyout: the transfer that is to be made, the charge and the premium.
    pub(crate) fn begin_buyout(
        &mut self,
        id: u32,
        subscriber: &Address,
        deposit: i128,
        key: Option<Bytes32>,
    ) -> (r: Result<(Option<Payment>, i128, i128), Error>)
        ensures
            ({
                let p = buyout_payment(old(self)@, id, *subscriber, deposit, key);
                let value = buyout_value(old(self)@, id, key);
                ends(
                    r,
                    old(self)@,
                    final(self)@,
                    buyout_refusal(old(self)@, id, *subscriber, deposit, key),
                    (p, value.0, value.1),
                    handed_over(
                        old(self)@,
                        p,
                        bought_out(old(self)@, id, *subscriber, deposit, key),
                    ),
                )
            }),
    {
        match self.check_buyout(id, subscriber, deposit, &key) {
            Some(e) => {
                self.events.clear();
                return Err(e);
            },
            None => {},
        }
        if is_served(&self.rings, IDEM_BUYOUT, id, &key) {
            self.events.clear();
            return Ok((None, 0, 0));
        }
        let sub = match self.subscriptions.get(&id) {
            Some(s) => *s,
            None => {
                self.events.clear();
                return Err(Error::NotFound);
            },
        };
        let premium: i128 = mul_div(
            sub.amount,
            self.config.buyout_premium_bps as u64,
            BPS_SCALE as u64,
        );
        proof {
            lemma_deposit_keeps_settlement(
                self@,
                id,
                *subscriber,
                deposit,
                sub.amount,
                BillingChargeKind::Interval,
            );
        }
        let p = self.book_deposit(id, &sub, subscriber, deposit, &None);
        match self.subscriptions.get(&id) {
            Some(s) => {
                let funded = *s;
                self.settle(id, &funded, sub.amount, BillingChargeKind::Interval);
            },
            None => {},
        }
        record(&mut self.rings, IDEM_BUYOUT, id, &key);
        self.events.clear();
        self.events.push(
            Event::GraceBoughtOut { subscription_id: id, charged: sub.amount, premium },
        );
        assert(self@ =~= handed_over(
            old(self)@,
            p,
            bought_out(old(self)@, id, *subscriber, deposit, key),
        ));
        Ok((p, sub.amount, premium))
    }

    /// Deposits enough to pay the missed charge and a premium, and pays the charge.
    pub fn grace_buyout(
        &mut self,
        id: u32,
        subscriber: &Address,
        deposit: i128,
        key: Option<Bytes32>,
    ) -> (r: Result<(i128, i128), Error>)
        ensures
            ends(
                r,
                old(self)@,
                final(self)@,
                buyout_refusal(old(self)@, id, *subscriber, deposit, key),
                buyout_value(old(self)@, id, key),
                bought_out(old(self)@, id, *subscriber, deposit, key),
            ),
    {
        match self.begin_buyout(id, subscriber, deposit, key) {
            Err(e) => Err(e),
            Ok((p, charged, premium)) => {
                self.finish_payment(&p);
                assert(self@ =~= bought_out(old(self)@, id, *subscriber, deposit, key));
                Ok((charged, premium))
            },
        }
    }
}

} // verus!
