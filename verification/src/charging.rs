//! How prepaid balances are charged, and where the money goes.
use crate::charge_core::{
    law_shares_add_up, lemma_part_bounds, lemma_share_bounds, net_of, net_of_fee, share_of,
    share_sum, split_shares, valid_split, BPS_SCALE,
};
use crate::events::Event;
use crate::records::{Subscription, SubscriptionStatus, TokenEarnings};
use crate::safe_math::{clamped, clamped_add};
use crate::statements::{append_statement, BillingChargeKind, BillingStatement, ChargeTotals};
use crate::table::Table;
use crate::types::{Address, Error, Key, Symbol};
use crate::vault::{State, Vault};
use vstd::prelude::*;

verus! {

/// The fee on a merchant's charges in basis points: its override, or the protocol's.
pub open spec fn fee_bps(s: State, merchant: Address) -> u32 {
    let bps = if s.fee_overrides.dom().contains(merchant) {
        s.fee_overrides[merchant]
    } else {
        s.config.protocol_fee_bps
    };
    if bps > BPS_SCALE {
        BPS_SCALE
    } else {
        bps
    }
}

/// What is left of a charge after the fee.
pub open spec fn net_amount(s: State, id: u32, amount: i128) -> int {
    net_of(amount as int, fee_bps(s, s.subscriptions[id].merchant) as int)
}

/// Whether a subscription's charges are split between payees.
pub open spec fn has_split(s: State, id: u32) -> bool {
    s.splits.dom().contains(id) && valid_split(s.splits[id])
}

/// Whether a subscription's charges go to a sub-account of its merchant.
pub open spec fn to_sub_account(s: State, id: u32) -> bool {
    !has_split(s, id) && s.subscriptions[id].sub_account_label is Some
}

/// Who earns what of a charge.
pub open spec fn payouts(s: State, id: u32, amount: i128) -> Seq<(Address, i128)> {
    let net = net_amount(s, id, amount);
    if has_split(s, id) {
        Seq::new(
            s.splits[id].len(),
            |i: int| (s.splits[id][i].0, share_of(net, s.splits[id], i) as i128),
        )
    } else {
        seq![(s.subscriptions[id].merchant, net as i128)]
    }
}

/// The balance under a key, zero if there is none.
pub open spec fn entry<K>(m: Map<K, i128>, k: K) -> i128 {
    if m.dom().contains(k) {
        m[k]
    } else {
        0
    }
}

/// The balances after the first `n` payouts of a list.
pub open spec fn credited(
    m: Map<(Address, Address), i128>,
    token: Address,
    list: Seq<(Address, i128)>,
    n: int,
) -> Map<(Address, Address), i128>
    decreases n,
{
    if n <= 0 {
        m
    } else {
        let before = credited(m, token, list, n - 1);
        let k = (list[n - 1].0, token);
        before.insert(k, (entry(before, k) + list[n - 1].1) as i128)
    }
}

/// What the first `n` payouts of a list come to.
pub open spec fn payout_sum(list: Seq<(Address, i128)>, n: int) -> int
    decreases n,
{
    if n <= 0 {
        0
    } else {
        payout_sum(list, n - 1) + list[n - 1].1
    }
}

/// The earnings of a merchant that has earned nothing.
pub open spec fn no_earnings() -> TokenEarnings {
    TokenEarnings {
        accruals: ChargeTotals { interval: 0, usage: 0, one_off: 0 },
        withdrawals: 0,
        refunds: 0,
    }
}

/// A merchant's earnings in a token.
pub open spec fn earned(
    m: Map<(Address, Address), TokenEarnings>,
    merchant: Address,
    token: Address,
) -> TokenEarnings {
    if m.dom().contains((merchant, token)) {
        m[(merchant, token)]
    } else {
        no_earnings()
    }
}

/// Earnings with one more accrual. A total that would leave the range stays at its edge.
pub open spec fn with_accrual(e: TokenEarnings, kind: BillingChargeKind, amount: i128) -> TokenEarnings {
    TokenEarnings {
        accruals: match kind {
            BillingChargeKind::Interval => ChargeTotals {
                interval: clamped(e.accruals.interval + amount),
                ..e.accruals
            },
            BillingChargeKind::Usage => ChargeTotals {
                usage: clamped(e.accruals.usage + amount),
                ..e.accruals
            },
            BillingChargeKind::OneOff => ChargeTotals {
                one_off: clamped(e.accruals.one_off + amount),
                ..e.accruals
            },
        },
        ..e
    }
}

/// The earnings after the first `n` payouts of a list.
pub open spec fn accrued(
    m: Map<(Address, Address), TokenEarnings>,
    token: Address,
    list: Seq<(Address, i128)>,
    kind: BillingChargeKind,
    n: int,
) -> Map<(Address, Address), TokenEarnings>
    decreases n,
{
    if n <= 0 {
        m
    } else {
        let before = accrued(m, token, list, kind, n - 1);
        let who = list[n - 1].0;
        before.insert((who, token), with_accrual(earned(before, who, token), kind, list[n - 1].1))
    }
}

/// Whether a merchant has a sub-account of that label.
pub open spec fn registered(s: State, merchant: Address, label: Symbol) -> bool {
    s.sub_accounts.dom().contains(merchant) && s.sub_accounts[merchant].contains(label)
}

/// Whether every balance that a charge may go to has room for all of it.
pub open spec fn has_room(s: State, id: u32, amount: i128) -> bool {
    let sub = s.subscriptions[id];
    let list = payouts(s, id, amount);
    &&& sub.lifetime_charged + amount <= i128::MAX
    &&& s.merchant_balance(s.config.treasury, sub.token) + amount <= i128::MAX
    &&& forall|i: int|
        0 <= i < list.len() ==> s.merchant_balance((#[trigger] list[i]).0, sub.token) + amount
            <= i128::MAX
    &&& sub.sub_account_label matches Some(label) ==> s.sub_balance(sub.merchant, label, sub.token)
        + amount <= i128::MAX
}

/// Why a charge that is due and covered cannot be settled.
pub open spec fn settle_refusal(s: State, id: u32, amount: i128) -> Option<Error> {
    let sub = s.subscriptions[id];
    if amount <= 0 {
        Some(Error::InvalidAmount)
    } else if to_sub_account(s, id) && !registered(s, sub.merchant, sub.sub_account_label->0) {
        Some(Error::NotFound)
    } else if !has_room(s, id, amount) {
        Some(Error::Overflow)
    } else {
        None
    }
}

/// Whether a charge of `amount` uses the lifetime cap up.
pub open spec fn cap_hit(sub: Subscription, amount: i128) -> bool {
    sub.lifetime_cap matches Some(c) && sub.lifetime_charged + amount >= c
}

/// Whether a charge of `amount` goes over the lifetime cap.
pub open spec fn cap_exceeded(sub: Subscription, amount: i128) -> bool {
    sub.lifetime_cap matches Some(c) && sub.lifetime_charged + amount > c
}

/// Whether the lifetime cap has been used up.
pub open spec fn cap_exhausted(sub: Subscription) -> bool {
    sub.lifetime_cap matches Some(c) && sub.lifetime_charged >= c
}

/// A subscription after it was charged. One whose cap is used up is cancelled.
pub open spec fn charged_sub(
    sub: Subscription,
    amount: i128,
    kind: BillingChargeKind,
    now: u64,
) -> Subscription {
    let charged = Subscription {
        prepaid_balance: (sub.prepaid_balance - amount) as i128,
        lifetime_charged: (sub.lifetime_charged + amount) as i128,
        ..sub
    };
    let timed = if kind is Interval {
        Subscription {
            last_payment_timestamp: now,
            status: SubscriptionStatus::Active,
            grace_start_timestamp: None,
            ..charged
        }
    } else {
        charged
    };
    if cap_hit(sub, amount) {
        Subscription { status: SubscriptionStatus::Cancelled, ..timed }
    } else {
        timed
    }
}

/// What a charge reports.
pub open spec fn charge_reports(
    sub: Subscription,
    id: u32,
    amount: i128,
    kind: BillingChargeKind,
) -> Seq<Event> {
    let report = match kind {
        BillingChargeKind::Interval => Event::SubscriptionCharged {
            subscription_id: id,
            merchant: sub.merchant,
            amount,
        },
        BillingChargeKind::Usage => Event::UsageCharged {
            subscription_id: id,
            merchant: sub.merchant,
            amount,
        },
        BillingChargeKind::OneOff => Event::OneOffCharged {
            subscription_id: id,
            merchant: sub.merchant,
            amount,
        },
    };
    if cap_hit(sub, amount) {
        seq![
            report,
            Event::LifetimeCapReached { subscription_id: id, lifetime_cap: sub.lifetime_cap->0 },
        ]
    } else {
        seq![report]
    }
}

/// The merchants' balances after a charge: the payouts, and the fee for the treasury.
pub open spec fn balances_after(s: State, id: u32, amount: i128) -> Map<(Address, Address), i128> {
    let token = s.subscriptions[id].token;
    let list = payouts(s, id, amount);
    let paid = if to_sub_account(s, id) {
        s.merchant_balances
    } else {
        credited(s.merchant_balances, token, list, list.len() as int)
    };
    let fee = amount - net_amount(s, id, amount);
    if fee > 0 {
        let k = (s.config.treasury, token);
        paid.insert(k, (entry(paid, k) + fee) as i128)
    } else {
        paid
    }
}

/// The sub-accounts' balances after a charge.
pub open spec fn sub_balances_after(s: State, id: u32, amount: i128) -> Map<
    (Address, Symbol, Address),
    i128,
> {
    let sub = s.subscriptions[id];
    if to_sub_account(s, id) {
        let k = (sub.merchant, sub.sub_account_label->0, sub.token);
        s.sub_balances.insert(k, (entry(s.sub_balances, k) + net_amount(s, id, amount)) as i128)
    } else {
        s.sub_balances
    }
}

/// The statement of a charge.
pub open spec fn statement_of(s: State, id: u32, amount: i128, kind: BillingChargeKind) -> BillingStatement {
    let sub = s.subscriptions[id];
    BillingStatement {
        subscription_id: id,
        amount,
        merchant: sub.merchant,
        token: sub.token,
        kind,
        period_start: sub.last_payment_timestamp,
        period_end: s.ledger.timestamp,
    }
}

/// The state after `amount` was charged.
pub open spec fn settled(s: State, id: u32, amount: i128, kind: BillingChargeKind) -> State {
    let sub = s.subscriptions[id];
    let list = payouts(s, id, amount);
    State {
        subscriptions: s.subscriptions.insert(
            id,
            charged_sub(sub, amount, kind, s.ledger.timestamp),
        ),
        merchant_balances: balances_after(s, id, amount),
        sub_balances: sub_balances_after(s, id, amount),
        earnings: accrued(s.earnings, sub.token, list, kind, list.len() as int),
        charged: if kind is Interval {
            s.charged.insert(id, s.ledger.timestamp)
        } else {
            s.charged
        },
        statements: s.statements.appended(statement_of(s, id, amount, kind)),
        events: charge_reports(sub, id, amount, kind),
        ..s
    }
}

proof fn lemma_payout_sum_split(net: int, entries: Seq<(Address, u32)>, list: Seq<(Address, i128)>, n: int)
    requires
        0 <= net <= i128::MAX,
        valid_split(entries),
        0 <= n <= entries.len(),
        list.len() == entries.len(),
        forall|i: int|
            0 <= i < entries.len() ==> (#[trigger] list[i]) == (
                entries[i].0,
                share_of(net, entries, i) as i128,
            ),
    ensures
        payout_sum(list, n) == share_sum(net, entries, n),
    decreases n,
{
    if n > 0 {
        lemma_payout_sum_split(net, entries, list, n - 1);
        lemma_share_bounds(net, entries, n - 1);
        assert(list[n - 1] == (entries[n - 1].0, share_of(net, entries, n - 1) as i128));
    }
}

/// The payouts of a charge are not negative and come to what is left after the fee.
pub proof fn lemma_payouts(s: State, id: u32, amount: i128)
    requires
        0 <= amount,
    ensures
        0 <= net_amount(s, id, amount) <= amount,
        forall|i: int|
            0 <= i < payouts(s, id, amount).len() ==> (#[trigger] payouts(s, id, amount)[i]).1 >= 0,
        payout_sum(payouts(s, id, amount), payouts(s, id, amount).len() as int) == net_amount(
            s,
            id,
            amount,
        ),
{
    let bps = fee_bps(s, s.subscriptions[id].merchant);
    lemma_part_bounds(amount as int, BPS_SCALE - bps, BPS_SCALE as int);
    let net = net_amount(s, id, amount);
    let list = payouts(s, id, amount);
    if has_split(s, id) {
        let entries = s.splits[id];
        assert forall|i: int| 0 <= i < list.len() implies (#[trigger] list[i]).1 >= 0 by {
            lemma_share_bounds(net, entries, i);
        }
        lemma_payout_sum_split(net, entries, list, entries.len() as int);
        law_shares_add_up(net, entries);
    } else {
        reveal_with_fuel(payout_sum, 2);
    }
}

/// Credits a list of payouts to the merchants' balances.
fn credit_all(
    balances: &mut Table<(Address, Address), i128>,
    token: &Address,
    list: &Vec<(Address, i128)>,
)
    requires
        forall|i: int| 0 <= i < list@.len() ==> (#[trigger] list@[i]).1 >= 0,
        forall|i: int|
            0 <= i < list@.len() ==> entry(old(balances)@, ((#[trigger] list@[i]).0, *token))
                + payout_sum(list@, list@.len() as int) <= i128::MAX,
    ensures
        final(balances)@ == credited(old(balances)@, *token, list@, list@.len() as int),
        forall|a: Address|
            entry(old(balances)@, (a, *token)) <= #[trigger] entry(final(balances)@, (a, *token))
                <= entry(old(balances)@, (a, *token)) + payout_sum(list@, list@.len() as int),
{
    let n: usize = list.len();
    let ghost start = balances@;
    let mut i: usize = 0;
    while i < n
        invariant
            i <= n,
            n == list@.len(),
            start == old(balances)@,
            forall|j: int| 0 <= j < n ==> (#[trigger] list@[j]).1 >= 0,
            forall|j: int|
                0 <= j < n ==> entry(start, ((#[trigger] list@[j]).0, *token)) + payout_sum(
                    list@,
                    n as int,
                ) <= i128::MAX,
            balances@ == credited(start, *token, list@, i as int),
            forall|a: Address|
                entry(start, (a, *token)) <= #[trigger] entry(balances@, (a, *token)) <= entry(
                    start,
                    (a, *token),
                ) + payout_sum(list@, i as int),
        decreases n - i,
    {
        let (who, amount) = list[i];
        let ghost before = balances@;
        let b: i128 = match balances.get(&(who, *token)) {
            Some(b) => *b,
            None => 0,
        };
        proof {
            lemma_payout_sum_monotone(list@, i + 1, n as int);
            assert(list@[i as int] == (who, amount));
            assert(entry(before, (who, *token)) == b);
        }
        balances.insert((who, *token), b + amount);
        proof {
            assert forall|a: Address|
                entry(start, (a, *token)) <= #[trigger] entry(balances@, (a, *token)) && entry(
                    balances@,
                    (a, *token),
                ) <= entry(start, (a, *token)) + payout_sum(list@, i + 1) by {
                assert(entry(start, (a, *token)) <= entry(before, (a, *token)));
            }
        }
        i += 1;
    }
}

proof fn lemma_payout_sum_monotone(list: Seq<(Address, i128)>, i: int, n: int)
    requires
        0 <= i <= n <= list.len(),
        forall|j: int| 0 <= j < n ==> (#[trigger] list[j]).1 >= 0,
    ensures
        0 <= payout_sum(list, i) <= payout_sum(list, n),
    decreases n,
{
    if n > 0 {
        if i < n {
            lemma_payout_sum_monotone(list, i, n - 1);
        } else {
            lemma_payout_sum_monotone(list, n - 1, n - 1);
        }
    }
}

/// Adds a list of payouts to the merchants' earnings.
fn accrue_all(
    earnings: &mut Table<(Address, Address), TokenEarnings>,
    token: &Address,
    list: &Vec<(Address, i128)>,
    kind: BillingChargeKind,
)
    ensures
        final(earnings)@ == accrued(old(earnings)@, *token, list@, kind, list@.len() as int),
{
    let n: usize = list.len();
    let ghost start = earnings@;
    let mut i: usize = 0;
    while i < n
        invariant
            i <= n,
            n == list@.len(),
            start == old(earnings)@,
            earnings@ == accrued(start, *token, list@, kind, i as int),
        decreases n - i,
    {
        let (who, amount) = list[i];
        let mut e: TokenEarnings = match earnings.get(&(who, *token)) {
            Some(e) => *e,
            None => TokenEarnings {
                accruals: ChargeTotals { interval: 0, usage: 0, one_off: 0 },
                withdrawals: 0,
                refunds: 0,
            },
        };
        match kind {
            BillingChargeKind::Interval => {
                e.accruals.interval = clamped_add(e.accruals.interval, amount);
            },
            BillingChargeKind::Usage => {
                e.accruals.usage = clamped_add(e.accruals.usage, amount);
            },
            BillingChargeKind::OneOff => {
                e.accruals.one_off = clamped_add(e.accruals.one_off, amount);
            },
        }
        earnings.insert((who, *token), e);
        i += 1;
    }
}

impl Vault {
    /// The fee on a merchant's charges in basis points.
    pub fn get_fee_bps(&self, merchant: &Address) -> (bps: u32)
        ensures
            bps == fee_bps(self@, *merchant),
            bps <= BPS_SCALE,
    {
        let bps: u32 = match self.fee_overrides.get(merchant) {
            Some(b) => *b,
            None => self.config.protocol_fee_bps,
        };
        if bps > BPS_SCALE {
            BPS_SCALE
        } else {
            bps
        }
    }

    /// Whether a subscription's charges are split between payees.
    pub(crate) fn is_split(&self, id: u32) -> (b: bool)
        ensures
            b == has_split(self@, id),
    {
        match self.splits.get(&id) {
            Some(entries) => crate::charge_core::is_valid_split(entries),
            None => false,
        }
    }

    /// Who earns what of a charge.
    pub fn payouts_of(&self, id: u32, amount: i128) -> (list: Vec<(Address, i128)>)
        requires
            amount >= 0,
            self@.subscriptions.dom().contains(id),
        ensures
            list@ == payouts(self@, id, amount),
    {
        let mut list: Vec<(Address, i128)> = Vec::new();
        match self.subscriptions.get(&id) {
            None => {},
            Some(sub) => {
                let bps: u32 = self.get_fee_bps(&sub.merchant);
                let net: i128 = net_of_fee(amount, bps);
                if self.is_split(id) {
                    match self.splits.get(&id) {
                        Some(entries) => {
                            list = split_shares(net, entries);
                        },
                        None => {},
                    }
                    assert(list@ =~= payouts(self@, id, amount));
                } else {
                    list.push((sub.merchant, net));
                    assert(list@ =~= payouts(self@, id, amount));
                }
            },
        }
        list
    }

    /// Whether a merchant has a sub-account of that label.
    pub fn is_registered(&self, merchant: &Address, label: &Symbol) -> (b: bool)
        ensures
            b == registered(self@, *merchant, *label),
    {
        match self.sub_accounts.get(merchant) {
            None => false,
            Some(list) => {
                let mut i: usize = 0;
                while i < list.len()
                    invariant
                        i <= list@.len(),
                        self@.sub_accounts.dom().contains(*merchant),
                        list@ == self@.sub_accounts[*merchant],
                        forall|j: int| 0 <= j < i ==> list@[j] != *label,
                    decreases list@.len() - i,
                {
                    if list[i].same(label) {
                        assert(list@[i as int] == *label);
                        return true;
                    }
                    i += 1;
                }
                false
            },
        }
    }

    /// What a sub-account can withdraw in a token.
    pub fn sub_account_balance(&self, merchant: &Address, label: &Symbol, token: &Address) -> (b: i128)
        ensures
            b == self@.sub_balance(*merchant, *label, *token),
    {
        match self.sub_balances.get(&(*merchant, *label, *token)) {
            Some(b) => *b,
            None => 0,
        }
    }

    fn fits(&self, id: u32, sub: &Subscription, amount: i128) -> (b: bool)
        requires
            amount > 0,
            self@.subscriptions.dom().contains(id),
            *sub == self@.subscriptions[id],
        ensures
            b == has_room(self@, id, amount),
    {
        if sub.lifetime_charged.checked_add(amount).is_none() {
            return false;
        }
        let treasury = self.config.treasury;
        if self.get_merchant_balance_by_token(&treasury, &sub.token).checked_add(amount).is_none() {
            return false;
        }
        let list = self.payouts_of(id, amount);
        let mut i: usize = 0;
        while i < list.len()
            invariant
                i <= list@.len(),
                amount > 0,
                list@ == payouts(self@, id, amount),
                *sub == self@.subscriptions[id],
                forall|j: int|
                    0 <= j < i ==> self@.merchant_balance((#[trigger] list@[j]).0, sub.token)
                        + amount <= i128::MAX,
            decreases list@.len() - i,
        {
            if self.get_merchant_balance_by_token(&list[i].0, &sub.token).checked_add(
                amount,
            ).is_none() {
                assert(self@.merchant_balance(list@[i as int].0, sub.token) + amount > i128::MAX);
                return false;
            }
            i += 1;
        }
        match &sub.sub_account_label {
            Some(label) => {
                if self.sub_account_balance(&sub.merchant, label, &sub.token).checked_add(
                    amount,
                ).is_none() {
                    return false;
                }
            },
            None => {},
        }
        true
    }

    /// Why a charge that is due and covered cannot be settled.
    pub(crate) fn check_settle(&self, id: u32, sub: &Subscription, amount: i128) -> (r: Option<
        Error,
    >)
        requires
            self@.subscriptions.dom().contains(id),
            *sub == self@.subscriptions[id],
        ensures
            r == settle_refusal(self@, id, amount),
    {
        if amount <= 0 {
            return Some(Error::InvalidAmount);
        }
        if !self.is_split(id) {
            match &sub.sub_account_label {
                Some(label) => {
                    if !self.is_registered(&sub.merchant, label) {
                        return Some(Error::NotFound);
                    }
                },
                None => {},
            }
        }
        if !self.fits(id, sub, amount) {
            return Some(Error::Overflow);
        }
        None
    }

    /// Takes a charge from the prepaid balance and pays it out.
    pub(crate) fn settle(
        &mut self,
        id: u32,
        sub: &Subscription,
        amount: i128,
        kind: BillingChargeKind,
    )
        requires
            old(self)@.subscriptions.dom().contains(id),
            *sub == old(self)@.subscriptions[id],
            settle_refusal(old(self)@, id, amount) is None,
            sub.prepaid_balance >= amount,
        ensures
            final(self)@ == settled(old(self)@, id, amount, kind),
    {
        let ghost s0 = self@;
        let list = self.payouts_of(id, amount);
        let bps: u32 = self.get_fee_bps(&sub.merchant);
        let net: i128 = net_of_fee(amount, bps);
        let fee: i128 = amount - net;
        let split = self.is_split(id);
        let now: u64 = self.ledger.timestamp;
        proof {
            lemma_payouts(s0, id, amount);
            assert(net == net_amount(s0, id, amount));
        }
        let to_sub = !split && sub.sub_account_label.is_some();
        if to_sub {
            match &sub.sub_account_label {
                Some(label) => {
                    let b: i128 = self.sub_account_balance(&sub.merchant, label, &sub.token);
                    self.sub_balances.insert((sub.merchant, *label, sub.token), b + net);
                },
                None => {},
            }
        } else {
            proof {
                assert forall|i: int| 0 <= i < list@.len() implies entry(
                    self.merchant_balances@,
                    ((#[trigger] list@[i]).0, sub.token),
                ) + payout_sum(list@, list@.len() as int) <= i128::MAX by {
                    assert(s0.merchant_balance(list@[i].0, sub.token) + amount <= i128::MAX);
                }
            }
            credit_all(&mut self.merchant_balances, &sub.token, &list);
        }
        if fee > 0 {
            let treasury = self.config.treasury;
            proof {
                assert(entry(self.merchant_balances@, (treasury, sub.token)) <= entry(
                    s0.merchant_balances,
                    (treasury, sub.token),
                ) + net);
                assert(s0.merchant_balance(treasury, sub.token) + amount <= i128::MAX);
            }
            let b: i128 = self.get_merchant_balance_by_token(&treasury, &sub.token);
            self.merchant_balances.insert((treasury, sub.token), b + fee);
        }
        accrue_all(&mut self.earnings, &sub.token, &list, kind);
        self.events.clear();
        let mut after = *sub;
        after.prepaid_balance = sub.prepaid_balance - amount;
        after.lifetime_charged = sub.lifetime_charged + amount;
        match kind {
            BillingChargeKind::Interval => {
                after.last_payment_timestamp = now;
                after.status = SubscriptionStatus::Active;
                after.grace_start_timestamp = None;
                self.charged.insert(id, now);
                self.events.push(
                    Event::SubscriptionCharged {
                        subscription_id: id,
                        merchant: sub.merchant,
                        amount,
                    },
                );
            },
            BillingChargeKind::Usage => {
                self.events.push(
                    Event::UsageCharged { subscription_id: id, merchant: sub.merchant, amount },
                );
            },
            BillingChargeKind::OneOff => {
                self.events.push(
                    Event::OneOffCharged { subscription_id: id, merchant: sub.merchant, amount },
                );
            },
        }
        match sub.lifetime_cap {
            Some(c) => {
                if after.lifetime_charged >= c {
                    after.status = SubscriptionStatus::Cancelled;
                    self.events.push(
                        Event::LifetimeCapReached { subscription_id: id, lifetime_cap: c },
                    );
                }
            },
            None => {},
        }
        self.subscriptions.insert(id, after);
        let _ = append_statement(
            &mut self.statements,
            BillingStatement {
                subscription_id: id,
                amount,
                merchant: sub.merchant,
                token: sub.token,
                kind,
                period_start: sub.last_payment_timestamp,
                period_end: now,
            },
        );
        assert(self@.events =~= charge_reports(*sub, id, amount, kind));
        assert(self@ =~= settled(s0, id, amount, kind));
    }
}

} // verus!
