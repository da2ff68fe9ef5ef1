//! What charges do: who pays, who is paid how much, and when.
use crate::agreement_laws::{ends_by_cancellation, law_closing};
use crate::billing::{
    charge_answer, charge_done, charge_path, charge_repeated, one_off_charged,
    one_off_refusal, parties_refusal, usage_charged, usage_refusal, usage_value,
};
use crate::buyout::{bought_out, buyout_refusal, buyout_value};
use crate::charge_core::{later_shares, share_of, valid_split, weight_sum};
use crate::charging::{
    accrued, credited, earned, has_room, has_split, lemma_payouts, net_amount, payout_sum, payouts,
    settle_refusal, settled, to_sub_account,
};
use crate::deposits::{deposit_done, deposited_on_behalf, do_deposit_refusal};
use crate::events::Event;
use crate::idempotency::{served, IDEM_BUYOUT, IDEM_CHARGE, IDEM_DEPOSIT, IDEM_ONE_OFF};
use crate::measures::{
    agrees, amount_at, away, credit, fee_rate, only_subscription, parts, run_out, shares_out,
    sub_credit, switched_off,
};
use crate::records::{ChargeExecutionResult, Subscription, SubscriptionStatus, TokenEarnings};
use crate::statements::{BillingChargeKind, BillingStatement};
use crate::types::{vault, Address, Bytes32, Error, Symbol};
use crate::vault::State;
use vstd::prelude::*;

verus! {

/// What the payees of a list after the first get together, up to the `n`th: each its part, rounded
/// down.
pub open spec fn rounded_parts(net: int, entries: Seq<(Address, u32)>, n: int) -> int
    decreases n,
{
    if n <= 1 {
        0
    } else {
        rounded_parts(net, entries, n - 1) + net * entries[n - 1].1 / 10_000
    }
}

/// What an address gets as one of the first `n` payees of a list. The first payee gets what the
/// others leave.
pub open spec fn got_by(net: int, entries: Seq<(Address, u32)>, who: Address, n: int) -> int
    decreases n,
{
    if n <= 0 {
        0
    } else {
        got_by(net, entries, who, n - 1) + (if entries[n - 1].0 != who {
            0
        } else if n == 1 {
            net - rounded_parts(net, entries, entries.len() as int)
        } else {
            net * entries[n - 1].1 / 10_000
        })
    }
}

/// Whether a subscription's charges are shared out between payees.
pub open spec fn is_shared(s: State, id: u32) -> bool {
    s.splits.dom().contains(id) && shares_out(s.splits[id])
}

/// What is left of a charge once the fee is taken.
pub open spec fn left_after_fee(s: State, id: u32, amount: int) -> int {
    amount * (10_000 - fee_rate(s, s.subscriptions[id].merchant)) / 10_000
}

/// What an address earns by a charge, before it is said which account it goes to.
pub open spec fn earns(s: State, id: u32, amount: int, who: Address) -> int {
    let net = left_after_fee(s, id, amount);
    if is_shared(s, id) {
        got_by(net, s.splits[id], who, s.splits[id].len() as int)
    } else if who == s.subscriptions[id].merchant {
        net
    } else {
        0
    }
}

/// Whether a charge goes to a sub-account.
pub open spec fn is_put_aside(s: State, id: u32) -> bool {
    !is_shared(s, id) && s.subscriptions[id].sub_account_label is Some
}

/// Whether the money of a charge has gone where it belongs: each payee's credit has grown by what
/// it earned, the treasury's by the fee, a sub-account's by what was put aside there, and no other
/// credit has changed, in this token or another.
pub open spec fn pays_out(s: State, s2: State, id: u32, amount: int) -> bool {
    let sub = s.subscriptions[id];
    let net = left_after_fee(s, id, amount);
    &&& forall|a: Address, t: Address|
        #[trigger] credit(s2, a, t) == credit(s, a, t) + (if t != sub.token || is_put_aside(s, id) {
            0
        } else {
            earns(s, id, amount, a)
        }) + (if t == sub.token && a == s.config.treasury {
            amount - net
        } else {
            0
        })
    &&& forall|a: Address, l: Symbol, t: Address|
        #[trigger] sub_credit(s2, a, l, t) == sub_credit(s, a, l, t) + (if is_put_aside(s, id) && a
            == sub.merchant && sub.sub_account_label == Some(l) && t == sub.token {
            net
        } else {
            0
        })
}

/// What a merchant has taken in by one kind of charge.
pub open spec fn taken_in(s: State, who: Address, token: Address, kind: BillingChargeKind) -> int {
    if s.earnings.dom().contains((who, token)) {
        let a = s.earnings[(who, token)].accruals;
        match kind {
            BillingChargeKind::Interval => a.interval as int,
            BillingChargeKind::Usage => a.usage as int,
            BillingChargeKind::OneOff => a.one_off as int,
        }
    } else {
        0
    }
}

/// What a merchant has withdrawn and paid back.
pub open spec fn given_out(s: State, who: Address, token: Address) -> (int, int) {
    if s.earnings.dom().contains((who, token)) {
        (
            s.earnings[(who, token)].withdrawals as int,
            s.earnings[(who, token)].refunds as int,
        )
    } else {
        (0, 0)
    }
}

/// The smaller of two numbers.
pub open spec fn lesser(a: int, b: int) -> int {
    if a < b {
        a
    } else {
        b
    }
}

/// Whether the earnings of every payee have grown by what it earned, under the kind of charge that
/// was made, and no other earnings have changed. A sum that would leave the range stays at its edge.
pub open spec fn books_earnings(
    s: State,
    s2: State,
    id: u32,
    amount: int,
    kind: BillingChargeKind,
) -> bool {
    forall|a: Address, t: Address, k: BillingChargeKind|
        #![trigger taken_in(s2, a, t, k)]
        {
            &&& taken_in(s2, a, t, k) == (if t == s.subscriptions[id].token && k == kind {
                lesser(taken_in(s, a, t, k) + earns(s, id, amount, a), i128::MAX as int)
            } else {
                taken_in(s, a, t, k)
            })
            &&& given_out(s2, a, t) == given_out(s, a, t)
        }
}

/// Whether a charge has gone on record: one statement more at the end of the subscription's list.
pub open spec fn puts_on_record(
    s: State,
    s2: State,
    id: u32,
    amount: int,
    kind: BillingChargeKind,
) -> bool {
    let sub = s.subscriptions[id];
    let before = if s.statements.lists.dom().contains(id) {
        s.statements.lists[id]
    } else {
        Seq::empty()
    };
    &&& s2.statements.aggregates == s.statements.aggregates
    &&& s2.statements.retention == s.statements.retention
    &&& s2.statements.lists.dom().contains(id)
    &&& s2.statements.lists[id].len() == before.len() + 1
    &&& forall|i: int|
        0 <= i < before.len() ==> #[trigger] s2.statements.lists[id][i] == before[i]
    &&& s2.statements.lists[id].last() == (BillingStatement {
        subscription_id: id,
        amount: amount as i128,
        merchant: sub.merchant,
        token: sub.token,
        kind,
        period_start: sub.last_payment_timestamp,
        period_end: s.ledger.timestamp,
    })
    &&& forall|other: u32|
        other != id ==> (#[trigger] s2.statements.lists.dom().contains(other)
            == s.statements.lists.dom().contains(other)) && s2.statements.lists[other]
            == s.statements.lists[other]
}

/// Whether a charge was taken from a subscription: its balance is down and its lifetime total up by
/// the amount. It is cancelled if the total has come to the cap. A charge for an interval starts
/// the next one and ends a grace period.
pub open spec fn takes_from(
    s: State,
    s2: State,
    id: u32,
    amount: int,
    kind: BillingChargeKind,
) -> bool {
    let sub = s.subscriptions[id];
    let sub2 = s2.subscriptions[id];
    &&& only_subscription(s, s2, id)
    &&& sub2.prepaid_balance == sub.prepaid_balance - amount
    &&& sub2.lifetime_charged == sub.lifetime_charged + amount
    &&& sub2.status is Cancelled <==> (sub.lifetime_cap is Some && sub2.lifetime_charged
        >= sub.lifetime_cap->0)
    &&& !(sub2.status is Cancelled) ==> sub2.status is Active || sub2.status == sub.status
    &&& kind is Interval ==> {
        &&& sub2.last_payment_timestamp == s.ledger.timestamp
        &&& sub2.grace_start_timestamp is None
        &&& sub2.status is Cancelled || sub2.status is Active
        &&& s2.charged.dom().contains(id) && s2.charged[id] == s.ledger.timestamp
    }
    &&& !(kind is Interval) ==> {
        &&& sub2.last_payment_timestamp == sub.last_payment_timestamp
        &&& sub2.grace_start_timestamp == sub.grace_start_timestamp
        &&& sub2.status is Cancelled || sub2.status == sub.status
        &&& s2.charged == s.charged
    }
    &&& sub2 == (Subscription {
        prepaid_balance: sub2.prepaid_balance,
        lifetime_charged: sub2.lifetime_charged,
        status: sub2.status,
        last_payment_timestamp: sub2.last_payment_timestamp,
        grace_start_timestamp: sub2.grace_start_timestamp,
        ..sub
    })
    &&& forall|other: u32|
        other != id ==> (#[trigger] s2.charged.dom().contains(other) == s.charged.dom().contains(
            other,
        )) && s2.charged[other] == s.charged[other]
}

/// Whether a charge has been made, as a whole: taken from the subscription, paid out, booked and put
/// on record, with nothing changed besides but what requests leave behind.
pub open spec fn charges(
    s: State,
    s2: State,
    id: u32,
    amount: int,
    kind: BillingChargeKind,
) -> bool {
    &&& takes_from(s, s2, id, amount, kind)
    &&& pays_out(s, s2, id, amount)
    &&& books_earnings(s, s2, id, amount, kind)
    &&& puts_on_record(s, s2, id, amount, kind)
    &&& s2 == (State {
        subscriptions: s2.subscriptions,
        merchant_balances: s2.merchant_balances,
        sub_balances: s2.sub_balances,
        earnings: s2.earnings,
        charged: s2.charged,
        statements: s2.statements,
        rings: s2.rings,
        usage_references: s2.usage_references,
        events: s2.events,
        ..s
    })
}

proof fn lemma_parts(entries: Seq<(Address, u32)>, n: int)
    ensures
        parts(entries, n) == weight_sum(entries, n),
    decreases n,
{
    if n > 0 {
        lemma_parts(entries, n - 1);
    }
}

/// A list of payees is accepted exactly where it shares out a whole.
pub proof fn law_payees_share_out_a_whole(entries: Seq<(Address, u32)>)
    ensures
        valid_split(entries) == shares_out(entries),
{
    lemma_parts(entries, entries.len() as int);
}

proof fn lemma_rounded_parts(net: int, entries: Seq<(Address, u32)>, n: int)
    ensures
        rounded_parts(net, entries, n) == later_shares(net, entries, n),
    decreases n,
{
    if n > 1 {
        lemma_rounded_parts(net, entries, n - 1);
    }
}

/// What an address gets by the first `n` payouts of a list.
spec fn named_sum(list: Seq<(Address, i128)>, who: Address, n: int) -> int
    decreases n,
{
    if n <= 0 {
        0
    } else {
        named_sum(list, who, n - 1) + (if list[n - 1].0 == who {
            list[n - 1].1 as int
        } else {
            0
        })
    }
}

proof fn lemma_named_sum_bounds(list: Seq<(Address, i128)>, who: Address, n: int)
    requires
        0 <= n <= list.len(),
        forall|i: int| 0 <= i < list.len() ==> (#[trigger] list[i]).1 >= 0,
    ensures
        0 <= named_sum(list, who, n) <= payout_sum(list, n),
    decreases n,
{
    if n > 0 {
        lemma_named_sum_bounds(list, who, n - 1);
        assert(list[n - 1].1 >= 0);
    }
}

proof fn lemma_payout_sum_grows(list: Seq<(Address, i128)>, i: int, n: int)
    requires
        0 <= i <= n <= list.len(),
        forall|j: int| 0 <= j < list.len() ==> (#[trigger] list[j]).1 >= 0,
    ensures
        payout_sum(list, i) <= payout_sum(list, n),
    decreases n - i,
{
    if i < n {
        lemma_payout_sum_grows(list, i + 1, n);
        assert(list[i].1 >= 0);
    }
}

proof fn lemma_credited_by_name(
    m: Map<(Address, Address), i128>,
    token: Address,
    list: Seq<(Address, i128)>,
    n: int,
    limit: int,
    a: Address,
    t: Address,
)
    requires
        0 <= n <= list.len(),
        forall|i: int| 0 <= i < list.len() ==> (#[trigger] list[i]).1 >= 0,
        payout_sum(list, list.len() as int) <= limit,
        forall|i: int|
            0 <= i < list.len() ==> amount_at(m, ((#[trigger] list[i]).0, token)) + limit
                <= i128::MAX,
    ensures
        amount_at(credited(m, token, list, n), (a, t)) == amount_at(m, (a, t)) + (if t == token {
            named_sum(list, a, n)
        } else {
            0
        }),
    decreases n,
{
    if n > 0 {
        lemma_credited_by_name(m, token, list, n - 1, limit, a, t);
        let who = list[n - 1].0;
        lemma_credited_by_name(m, token, list, n - 1, limit, who, token);
        lemma_named_sum_bounds(list, who, n);
        lemma_named_sum_bounds(list, who, n - 1);
        lemma_payout_sum_grows(list, n, list.len() as int);
        assert(list[n - 1].1 >= 0);
        assert(amount_at(m, (list[n - 1].0, token)) + limit <= i128::MAX);
    }
}

proof fn lemma_named_shares(
    net: int,
    entries: Seq<(Address, u32)>,
    list: Seq<(Address, i128)>,
    who: Address,
    n: int,
)
    requires
        0 <= net <= i128::MAX,
        valid_split(entries),
        0 <= n <= entries.len(),
        list.len() == entries.len(),
        forall|i: int|
            0 <= i < entries.len() ==> (#[trigger] list[i]) == (
                entries[i].0,
                share_of(net, entries, i) as i128,
            ),
    ensures
        named_sum(list, who, n) == got_by(net, entries, who, n),
    decreases n,
{
    if n > 0 {
        lemma_named_shares(net, entries, list, who, n - 1);
        crate::charge_core::lemma_share_bounds(net, entries, n - 1);
        assert(list[n - 1] == (entries[n - 1].0, share_of(net, entries, n - 1) as i128));
        lemma_rounded_parts(net, entries, entries.len() as int);
    }
}

/// Who is named in the payouts of a charge gets what it earns.
proof fn lemma_payouts_by_name(s: State, id: u32, amount: i128, who: Address)
    requires
        0 <= amount,
    ensures
        ({
            let list = payouts(s, id, amount);
            named_sum(list, who, list.len() as int) == earns(s, id, amount as int, who)
        }),
        net_amount(s, id, amount) == left_after_fee(s, id, amount as int),
        has_split(s, id) == is_shared(s, id),
        to_sub_account(s, id) == is_put_aside(s, id),
{
    lemma_payouts(s, id, amount);
    if s.splits.dom().contains(id) {
        law_payees_share_out_a_whole(s.splits[id]);
    }
    let list = payouts(s, id, amount);
    let net = net_amount(s, id, amount);
    if has_split(s, id) {
        lemma_named_shares(net, s.splits[id], list, who, list.len() as int);
    } else {
        reveal_with_fuel(named_sum, 2);
    }
}

proof fn lemma_accrued_by_name(
    m: Map<(Address, Address), TokenEarnings>,
    token: Address,
    list: Seq<(Address, i128)>,
    kind: BillingChargeKind,
    n: int,
    a: Address,
    t: Address,
)
    requires
        0 <= n <= list.len(),
        forall|i: int| 0 <= i < list.len() ==> (#[trigger] list[i]).1 >= 0,
    ensures
        ({
            let before = earned(m, a, t);
            let after = earned(accrued(m, token, list, kind, n), a, t);
            let gain = if t == token {
                named_sum(list, a, n)
            } else {
                0
            };
            &&& after.withdrawals == before.withdrawals
            &&& after.refunds == before.refunds
            &&& after.accruals.interval == (if kind is Interval {
                lesser(before.accruals.interval + gain, i128::MAX as int)
            } else {
                before.accruals.interval as int
            })
            &&& after.accruals.usage == (if kind is Usage {
                lesser(before.accruals.usage + gain, i128::MAX as int)
            } else {
                before.accruals.usage as int
            })
            &&& after.accruals.one_off == (if kind is OneOff {
                lesser(before.accruals.one_off + gain, i128::MAX as int)
            } else {
                before.accruals.one_off as int
            })
        }),
    decreases n,
{
    if n > 0 {
        lemma_accrued_by_name(m, token, list, kind, n - 1, a, t);
        lemma_named_sum_bounds(list, a, n - 1);
        assert(list[n - 1].1 >= 0);
    }
}

/// A charge that is settled is made as a whole.
pub(crate) proof fn lemma_settled_charges(s: State, id: u32, amount: i128, kind: BillingChargeKind)
    requires
        s.subscriptions.dom().contains(id),
        settle_refusal(s, id, amount) is None,
        s.subscriptions[id].prepaid_balance >= amount,
        !(s.subscriptions[id].status is Cancelled),
    ensures
        charges(s, settled(s, id, amount, kind), id, amount as int, kind),
{
    let s2 = settled(s, id, amount, kind);
    let sub = s.subscriptions[id];
    let token = sub.token;
    let list = payouts(s, id, amount);
    let net = net_amount(s, id, amount);
    lemma_payouts(s, id, amount);
    lemma_payouts_by_name(s, id, amount, sub.merchant);
    assert forall|i: int| 0 <= i < list.len() implies amount_at(
        s.merchant_balances,
        ((#[trigger] list[i]).0, token),
    ) + amount <= i128::MAX by {
        assert(s.merchant_balance(list[i].0, token) + amount <= i128::MAX);
    }
    assert forall|a: Address, t: Address| #[trigger] credit(s2, a, t) == credit(s, a, t) + (if t
        != token || is_put_aside(s, id) {
        0
    } else {
        earns(s, id, amount as int, a)
    }) + (if t == token && a == s.config.treasury {
        amount - net
    } else {
        0
    }) by {
        lemma_payouts_by_name(s, id, amount, a);
        lemma_payouts_by_name(s, id, amount, s.config.treasury);
        let n = list.len() as int;
        lemma_named_sum_bounds(list, s.config.treasury, n);
        if !to_sub_account(s, id) {
            lemma_credited_by_name(s.merchant_balances, token, list, n, amount as int, a, t);
            lemma_credited_by_name(
                s.merchant_balances,
                token,
                list,
                n,
                amount as int,
                s.config.treasury,
                token,
            );
        }
        assert(s.merchant_balance(s.config.treasury, token) + amount <= i128::MAX);
    }
    assert forall|a: Address, t: Address, k: BillingChargeKind|
        #![trigger taken_in(s2, a, t, k)]
        {
            &&& taken_in(s2, a, t, k) == (if t == token && k == kind {
                lesser(taken_in(s, a, t, k) + earns(s, id, amount as int, a), i128::MAX as int)
            } else {
                taken_in(s, a, t, k)
            })
            &&& given_out(s2, a, t) == given_out(s, a, t)
        } by {
        lemma_payouts_by_name(s, id, amount, a);
        lemma_accrued_by_name(s.earnings, token, list, kind, list.len() as int, a, t);
    }
    assert(takes_from(s, s2, id, amount as int, kind));
    assert(pays_out(s, s2, id, amount as int));
    assert(books_earnings(s, s2, id, amount as int, kind));
    assert(puts_on_record(s, s2, id, amount as int, kind));
    assert(s2 =~= State {
        subscriptions: s2.subscriptions,
        merchant_balances: s2.merchant_balances,
        sub_balances: s2.sub_balances,
        earnings: s2.earnings,
        charged: s2.charged,
        statements: s2.statements,
        rings: s2.rings,
        usage_references: s2.usage_references,
        events: s2.events,
        ..s
    });
}

/// Whether an address is to be paid by a subscription's charges.
pub open spec fn is_paid_by(s: State, id: u32, who: Address) -> bool {
    who == s.subscriptions[id].merchant || (is_shared(s, id) && exists|i: int|
        0 <= i < s.splits[id].len() && (#[trigger] s.splits[id][i]).0 == who)
}

/// Whether somebody that a charge concerns is on the blocklist.
pub open spec fn some_blocked(s: State, id: u32) -> bool {
    s.blocklist.dom().contains(s.subscriptions[id].subscriber) || exists|a: Address|
        #[trigger] is_paid_by(s, id, a) && s.blocklist.dom().contains(a)
}

/// Whether somebody that is to be paid takes no money now.
pub open spec fn some_switched_off(s: State, id: u32) -> bool {
    exists|a: Address| #[trigger] is_paid_by(s, id, a) && switched_off(s, a)
}

/// Whether somebody that is to be paid is away now.
pub open spec fn some_away(s: State, id: u32) -> bool {
    exists|a: Address| #[trigger] is_paid_by(s, id, a) && away(s, a, s.ledger.timestamp as int)
}

/// Whether a charge of an amount has no room in one of the sums that it adds to.
pub open spec fn some_sum_overflows(s: State, id: u32, amount: int) -> bool {
    let sub = s.subscriptions[id];
    ||| sub.lifetime_charged + amount > i128::MAX
    ||| credit(s, s.config.treasury, sub.token) + amount > i128::MAX
    ||| exists|a: Address|
        #[trigger] is_paid_by(s, id, a) && (is_shared(s, id) ==> exists|i: int|
            0 <= i < s.splits[id].len() && (#[trigger] s.splits[id][i]).0 == a) && credit(
            s,
            a,
            sub.token,
        ) + amount > i128::MAX
    ||| sub.sub_account_label is Some && sub_credit(
        s,
        sub.merchant,
        sub.sub_account_label->0,
        sub.token,
    ) + amount > i128::MAX
}

/// Whether the sub-account that a charge would go to does not exist.
pub open spec fn no_such_sub_account(s: State, id: u32) -> bool {
    let sub = s.subscriptions[id];
    is_put_aside(s, id) && !(s.sub_accounts.dom().contains(sub.merchant) && exists|i: int|
        0 <= i < s.sub_accounts[sub.merchant].len() && s.sub_accounts[sub.merchant][i]
            == sub.sub_account_label->0)
}

pub(crate) proof fn lemma_parties(s: State, id: u32)
    ensures
        parties_refusal(s, id) == (if some_blocked(s, id) {
            Some(Error::SubscriberBlocklisted)
        } else if some_switched_off(s, id) {
            Some(Error::MerchantPaused)
        } else if some_away(s, id) {
            Some(Error::VacationActive)
        } else {
            None
        }),
{
    if s.splits.dom().contains(id) {
        law_payees_share_out_a_whole(s.splits[id]);
    }
    let merchant = s.subscriptions[id].merchant;
    assert(is_paid_by(s, id, merchant));
    if has_split(s, id) {
        assert forall|i: int| 0 <= i < s.splits[id].len() implies is_paid_by(
            s,
            id,
            (#[trigger] s.splits[id][i]).0,
        ) by {}
    }
}

pub(crate) proof fn lemma_settle_refusal(s: State, id: u32, amount: i128)
    requires
        amount > 0,
    ensures
        settle_refusal(s, id, amount) == (if no_such_sub_account(s, id) {
            Some(Error::NotFound)
        } else if some_sum_overflows(s, id, amount as int) {
            Some(Error::Overflow)
        } else {
            None
        }),
{
    lemma_payouts_by_name(s, id, amount, s.config.treasury);
    let sub = s.subscriptions[id];
    let list = payouts(s, id, amount);
    let room = has_room(s, id, amount);
    if room {
        if some_sum_overflows(s, id, amount as int) {
            let a = choose|a: Address|
                #[trigger] is_paid_by(s, id, a) && (is_shared(s, id) ==> exists|i: int|
                    0 <= i < s.splits[id].len() && (#[trigger] s.splits[id][i]).0 == a) && credit(
                    s,
                    a,
                    sub.token,
                ) + amount > i128::MAX;
            if is_shared(s, id) {
                let i = choose|i: int|
                    0 <= i < s.splits[id].len() && (#[trigger] s.splits[id][i]).0 == a;
                assert(list[i].0 == a);
            } else {
                assert(list[0].0 == a);
            }
        }
    } else {
        if !some_sum_overflows(s, id, amount as int) {
            assert forall|i: int| 0 <= i < list.len() implies s.merchant_balance(
                (#[trigger] list[i]).0,
                sub.token,
            ) + amount <= i128::MAX by {
                if is_shared(s, id) {
                    assert(s.splits[id][i].0 == list[i].0);
                }
                assert(is_paid_by(s, id, list[i].0));
            }
        }
    }
}

/// Whether a charge is reported, and with it that it used up the lifetime cap, where it did.
pub open spec fn reports(s: State, s2: State, id: u32, report: Event) -> bool {
    let sub = s.subscriptions[id];
    if sub.lifetime_cap is Some && s2.subscriptions[id].lifetime_charged >= sub.lifetime_cap->0 {
        s2.events == seq![
            report,
            Event::LifetimeCapReached { subscription_id: id, lifetime_cap: sub.lifetime_cap->0 },
        ]
    } else {
        s2.events == seq![report]
    }
}

/// An interval charge that is answered as charged, and was not before, is made as a whole, for the
/// amount of the subscription.
pub proof fn law_interval_charge_is_made(s: State, id: u32, key: Option<Bytes32>)
    requires
        charge_answer(s, id, key) == Ok::<ChargeExecutionResult, Error>(
            ChargeExecutionResult::Charged,
        ),
        !served(s.rings, IDEM_CHARGE, id, key),
    ensures
        ({
            let s2 = charge_done(s, id, key);
            let sub = s.subscriptions[id];
            &&& charges(s, s2, id, sub.amount as int, BillingChargeKind::Interval)
            &&& s2.usage_references == s.usage_references
            &&& key is None ==> s2.rings == s.rings
            &&& reports(
                s,
                s2,
                id,
                Event::SubscriptionCharged {
                    subscription_id: id,
                    merchant: sub.merchant,
                    amount: sub.amount,
                },
            )
        }),
{
    lemma_settled_charges(s, id, s.subscriptions[id].amount, BillingChargeKind::Interval);
    let s1 = settled(s, id, s.subscriptions[id].amount, BillingChargeKind::Interval);
    let s2 = charge_done(s, id, key);
    lemma_charges_frame(s, s1, s2, id, s.subscriptions[id].amount, BillingChargeKind::Interval);
}

/// What requests leave behind does not bear on whether a charge was made.
proof fn lemma_charges_frame(
    s: State,
    s1: State,
    s2: State,
    id: u32,
    amount: i128,
    kind: BillingChargeKind,
)
    requires
        charges(s, s1, id, amount as int, kind),
        s2 == (State {
            rings: s2.rings,
            usage_references: s2.usage_references,
            events: s2.events,
            ..s1
        }),
    ensures
        charges(s, s2, id, amount as int, kind),
{
    assert forall|a: Address, t: Address| #[trigger] credit(s2, a, t) == credit(s1, a, t) by {}
    assert forall|a: Address, l: Symbol, t: Address| #[trigger]
        sub_credit(s2, a, l, t) == sub_credit(s1, a, l, t) by {}
    assert forall|a: Address, t: Address, k: BillingChargeKind|
        #![trigger taken_in(s2, a, t, k)]
        taken_in(s2, a, t, k) == taken_in(s1, a, t, k) && given_out(s2, a, t) == given_out(
            s1,
            a,
            t,
        ) by {}
    assert(s2 =~= State {
        subscriptions: s2.subscriptions,
        merchant_balances: s2.merchant_balances,
        sub_balances: s2.sub_balances,
        earnings: s2.earnings,
        charged: s2.charged,
        statements: s2.statements,
        rings: s2.rings,
        usage_references: s2.usage_references,
        events: s2.events,
        ..s
    });
}

/// Whether an interval charge is due: a whole interval has passed since the last payment.
pub open spec fn interval_over(s: State, id: u32) -> bool {
    s.subscriptions[id].last_payment_timestamp + s.subscriptions[id].interval_seconds
        <= s.ledger.timestamp
}

/// Whether a scheduled cancellation has come due.
pub open spec fn called_off(s: State, id: u32) -> bool {
    s.subscriptions[id].cancel_at is Some && s.subscriptions[id].cancel_at->0 <= s.ledger.timestamp
}

/// Whether a charge of an amount would take a subscription over its lifetime cap.
pub open spec fn over_cap(s: State, id: u32, amount: int) -> bool {
    s.subscriptions[id].lifetime_cap is Some && s.subscriptions[id].lifetime_charged + amount
        > s.subscriptions[id].lifetime_cap->0
}

/// Whether a subscription has come to its lifetime cap.
pub open spec fn cap_used_up(s: State, id: u32) -> bool {
    s.subscriptions[id].lifetime_cap is Some && s.subscriptions[id].lifetime_charged
        >= s.subscriptions[id].lifetime_cap->0
}

/// Whether a subscription is in a status in which it can be charged.
pub open spec fn running(s: State, id: u32) -> bool {
    s.subscriptions[id].status is Active || s.subscriptions[id].status is GracePeriod
}

/// Whether nothing but the status of one subscription has changed.
pub open spec fn only_status(s: State, s2: State, id: u32, status: SubscriptionStatus) -> bool {
    &&& only_subscription(s, s2, id)
    &&& s2.subscriptions[id] == (Subscription { status, ..s.subscriptions[id] })
    &&& s2 == (State { subscriptions: s2.subscriptions, events: s2.events, ..s })
}

/// An interval charge is answered for its cause, whatever the answer, and is taken wherever there
/// is no cause against it. Where it is not taken, no money moves.
pub proof fn law_interval_charge_has_its_cause(s: State, id: u32)
    ensures
        ({
            let sub = s.subscriptions[id];
            let now = s.ledger.timestamp;
            let s2 = charge_done(s, id, None);
            match charge_answer(s, id, None) {
                Err(Error::EmergencyStopActive) => s.config.emergency_stop && s2 == s.quiet(),
                Err(Error::NotFound) => (!s.subscriptions.dom().contains(id)
                    || no_such_sub_account(s, id)) && s2 == s.quiet(),
                Err(Error::SubscriptionExpired) => run_out(s, sub) && (if sub.status is Cancelled
                    || sub.status is Archived || sub.status is Expired {
                    s2 == s.quiet()
                } else {
                    only_status(s, s2, id, SubscriptionStatus::Expired)
                }),
                Err(Error::LifetimeCapReached) => cap_used_up(s, id) && s2 == s.quiet(),
                Err(Error::NotActive) => !running(s, id) && s2 == s.quiet(),
                Err(Error::SubscriberBlocklisted) => some_blocked(s, id) && s2 == s.quiet(),
                Err(Error::MerchantPaused) => some_switched_off(s, id) && s2 == s.quiet(),
                Err(Error::VacationActive) => some_away(s, id) && s2 == s.quiet(),
                Err(Error::Replay) => !interval_over(s, id) && s.charged.dom().contains(id) && s2
                    == s.quiet(),
                Err(Error::IntervalNotElapsed) => !interval_over(s, id)
                    && !s.charged.dom().contains(id) && s2 == s.quiet(),
                Err(Error::InvalidAmount) => sub.amount <= 0 && s2 == s.quiet(),
                Err(Error::Overflow) => s2 == s.quiet() && (some_sum_overflows(
                    s,
                    id,
                    sub.amount as int,
                ) || called_off(s, id)),
                Err(Error::TokenBalance) => s2 == s.quiet() && called_off(s, id),
                Err(Error::Reentrancy) => s2 == s.quiet() && called_off(s, id) && s.config.locked,
                Err(_) => false,
                Ok(ChargeExecutionResult::Cancelled) => called_off(s, id) && ends_by_cancellation(
                    s,
                    s2,
                    s.config.cancellation,
                    id,
                ),
                Ok(ChargeExecutionResult::Skipped) => interval_over(s, id) && !sub.auto_renew && s2
                    == s.quiet(),
                Ok(ChargeExecutionResult::LifetimeCapReached) => over_cap(
                    s,
                    id,
                    sub.amount as int,
                ) && only_status(s, s2, id, SubscriptionStatus::Cancelled) && s2.events == seq![
                    Event::LifetimeCapReached {
                        subscription_id: id,
                        lifetime_cap: sub.lifetime_cap->0,
                    },
                ],
                Ok(ChargeExecutionResult::InsufficientBalance) => sub.prepaid_balance < sub.amount
                    && s2.events == seq![
                    Event::ChargeFailed {
                        subscription_id: id,
                        required: sub.amount,
                        available: sub.prepaid_balance,
                    },
                ] && (if now < sub.last_payment_timestamp + sub.interval_seconds
                    + s.config.grace_period {
                    &&& s2.subscriptions[id].status is GracePeriod
                    &&& s2.subscriptions[id].grace_start_timestamp == (
                    if sub.grace_start_timestamp is Some {
                        sub.grace_start_timestamp
                    } else {
                        Some(now)
                    })
                    &&& only_subscription(s, s2, id)
                    &&& s2.subscriptions[id] == (Subscription {
                        status: s2.subscriptions[id].status,
                        grace_start_timestamp: s2.subscriptions[id].grace_start_timestamp,
                        ..sub
                    })
                    &&& s2 == (State { subscriptions: s2.subscriptions, events: s2.events, ..s })
                } else {
                    only_status(s, s2, id, SubscriptionStatus::InsufficientBalance)
                }),
                Ok(ChargeExecutionResult::Charged) => {
                    &&& s.subscriptions.dom().contains(id)
                    &&& !s.config.emergency_stop
                    &&& !run_out(s, sub)
                    &&& running(s, id)
                    &&& !called_off(s, id)
                    &&& interval_over(s, id)
                    &&& sub.auto_renew
                    &&& 0 < sub.amount <= sub.prepaid_balance
                    &&& !over_cap(s, id, sub.amount as int)
                    &&& !cap_used_up(s, id)
                    &&& !some_blocked(s, id)
                    &&& !some_switched_off(s, id)
                    &&& !some_away(s, id)
                },
            }
        }),
{
    lemma_parties(s, id);
    let sub = s.subscriptions[id];
    if sub.amount > 0 {
        lemma_settle_refusal(s, id, sub.amount);
    }
    let s2 = charge_done(s, id, None);
    if s.subscriptions.dom().contains(id) {
        law_closing(s, s.config.cancellation, id, vault());
    }
    assert(s2 =~= State { subscriptions: s2.subscriptions, events: s2.events, ..s }
        || !(charge_path(s, id) is CapOut || charge_path(s, id) is RunDry || charge_path(s, id)
            is Expire));
}

/// What comes first decides: the emergency stop, then whether there is such a subscription, whether
/// it has run out, whether its cap is used up, whether it is running, whether it was called off,
/// whether all parties are there, whether the interval is over, whether it renews, whether the cap
/// allows the charge, and last whether the balance covers it.
pub proof fn law_what_comes_first_decides(s: State, id: u32)
    ensures
        ({
            let sub = s.subscriptions[id];
            let there = !s.config.emergency_stop && s.subscriptions.dom().contains(id);
            let alive = there && !run_out(s, sub);
            let open = alive && !cap_used_up(s, id) && running(s, id);
            let wanted = open && !called_off(s, id);
            let present = wanted && !some_blocked(s, id) && !some_switched_off(s, id) && !some_away(
                s,
                id,
            );
            let due = present && interval_over(s, id);
            let renewing = due && sub.auto_renew;
            let allowed = renewing && !over_cap(s, id, sub.amount as int);
            &&& s.config.emergency_stop ==> charge_answer(s, id, None) == Err::<
                ChargeExecutionResult,
                Error,
            >(Error::EmergencyStopActive)
            &&& there && !alive ==> charge_answer(s, id, None) == Err::<
                ChargeExecutionResult,
                Error,
            >(Error::SubscriptionExpired)
            &&& alive && cap_used_up(s, id) ==> charge_answer(s, id, None) == Err::<
                ChargeExecutionResult,
                Error,
            >(Error::LifetimeCapReached)
            &&& alive && !cap_used_up(s, id) && !running(s, id) ==> charge_answer(s, id, None)
                == Err::<ChargeExecutionResult, Error>(Error::NotActive)
            &&& wanted && some_blocked(s, id) ==> charge_answer(s, id, None) == Err::<
                ChargeExecutionResult,
                Error,
            >(Error::SubscriberBlocklisted)
            &&& present && !due ==> charge_answer(s, id, None) == Err::<
                ChargeExecutionResult,
                Error,
            >(
                if s.charged.dom().contains(id) {
                    Error::Replay
                } else {
                    Error::IntervalNotElapsed
                },
            )
            &&& due && !renewing ==> charge_answer(s, id, None) == Ok::<
                ChargeExecutionResult,
                Error,
            >(ChargeExecutionResult::Skipped)
            &&& renewing && !allowed ==> charge_answer(s, id, None) == Ok::<
                ChargeExecutionResult,
                Error,
            >(ChargeExecutionResult::LifetimeCapReached)
            &&& allowed && sub.prepaid_balance < sub.amount ==> charge_answer(s, id, None) == Ok::<
                ChargeExecutionResult,
                Error,
            >(ChargeExecutionResult::InsufficientBalance)
            &&& allowed && 0 < sub.amount <= sub.prepaid_balance && !no_such_sub_account(s, id)
                && !some_sum_overflows(s, id, sub.amount as int) ==> charge_answer(s, id, None)
                == Ok::<ChargeExecutionResult, Error>(ChargeExecutionResult::Charged)
        }),
{
    lemma_parties(s, id);
    if s.subscriptions[id].amount > 0 {
        lemma_settle_refusal(s, id, s.subscriptions[id].amount);
    }
}

/// A request for an interval charge that was served before is answered as it was, and changes
/// nothing; so are a deposit, a one-off charge and a buyout.
pub proof fn law_served_requests(
    s: State,
    id: u32,
    who: Address,
    amount: i128,
    key: Option<Bytes32>,
)
    requires
        s.subscriptions.dom().contains(id),
        !s.config.emergency_stop,
        !s.config.locked,
        agrees(s, who),
    ensures
        served(s.rings, IDEM_CHARGE, id, key) ==> charge_answer(s, id, key) == Ok::<
            ChargeExecutionResult,
            Error,
        >(ChargeExecutionResult::Charged) && charge_done(s, id, key) == s.quiet(),
        served(s.rings, IDEM_ONE_OFF, id, key) && who == s.subscriptions[id].merchant
            ==> one_off_refusal(s, id, who, amount, key) is None && one_off_charged(
            s,
            id,
            amount,
            key,
        ) == s.quiet(),
        served(s.rings, IDEM_BUYOUT, id, key) && who == s.subscriptions[id].subscriber
            ==> buyout_refusal(s, id, who, amount, key) is None && bought_out(
            s,
            id,
            who,
            amount,
            key,
        ) == s.quiet() && buyout_value(s, id, key) == (0i128, 0i128),
        served(s.rings, IDEM_DEPOSIT, id, key) ==> deposited_on_behalf(s, id, who, amount, key)
            == s.quiet(),
        served(s.rings, IDEM_DEPOSIT, id, key) && who == s.subscriptions[id].subscriber
            ==> do_deposit_refusal(s, who, id, amount, key) is None && deposit_done(
            s,
            who,
            id,
            amount,
            key,
        ) == s.quiet(),
{
}

/// A request that is made with a key is remembered for what it was: the same request with the same
/// key is then known as served. The purposes that keys are used for are kept apart.
pub proof fn law_requests_are_remembered(
    s: State,
    id: u32,
    who: Address,
    amount: i128,
    key: Option<Bytes32>,
)
    requires
        key is Some,
    ensures
        charge_path(s, id) is Charge && !charge_repeated(s, id, key) ==> served(
            charge_done(s, id, key).rings,
            IDEM_CHARGE,
            id,
            key,
        ),
        served(one_off_charged(s, id, amount, key).rings, IDEM_ONE_OFF, id, key),
        served(bought_out(s, id, who, amount, key).rings, IDEM_BUYOUT, id, key),
        served(deposit_done(s, who, id, amount, key).rings, IDEM_DEPOSIT, id, key),
        IDEM_DEPOSIT != IDEM_CHARGE && IDEM_DEPOSIT != IDEM_ONE_OFF && IDEM_DEPOSIT != IDEM_BUYOUT,
        IDEM_CHARGE != IDEM_ONE_OFF && IDEM_CHARGE != IDEM_BUYOUT && IDEM_ONE_OFF != IDEM_BUYOUT,
{
    crate::book_laws::law_request_keys(s.rings, IDEM_CHARGE, id, key, id);
    crate::book_laws::law_request_keys(s.rings, IDEM_ONE_OFF, id, key, id);
    crate::book_laws::law_request_keys(s.rings, IDEM_BUYOUT, id, key, id);
    crate::book_laws::law_request_keys(s.rings, IDEM_DEPOSIT, id, key, id);
}

/// A usage charge is refused for its cause, and made as a whole where there is none; one that would
/// go over the lifetime cap ends the subscription instead and moves no money.
pub proof fn law_usage_charge(s: State, id: u32, amount: i128, reference: Option<Seq<u8>>)
    ensures
        ({
            let sub = s.subscriptions[id];
            let s2 = usage_charged(s, id, amount, reference);
            let used = reference is Some && s.usage_references.dom().contains((id, reference->0));
            match usage_refusal(s, id, amount, reference) {
                Some(Error::EmergencyStopActive) => s.config.emergency_stop,
                Some(Error::NotFound) => !s.subscriptions.dom().contains(id)
                    || no_such_sub_account(s, id),
                Some(Error::SubscriptionExpired) => run_out(s, sub),
                Some(Error::UsageNotEnabled) => !sub.usage_enabled,
                Some(Error::InvalidAmount) => amount <= 0,
                Some(Error::Replay) => used,
                Some(Error::LifetimeCapReached) => cap_used_up(s, id),
                Some(Error::NotActive) => !running(s, id),
                Some(Error::SubscriberBlocklisted) => some_blocked(s, id),
                Some(Error::MerchantPaused) => some_switched_off(s, id),
                Some(Error::VacationActive) => some_away(s, id),
                Some(Error::InsufficientBalance) => sub.prepaid_balance < amount && !over_cap(
                    s,
                    id,
                    amount as int,
                ),
                Some(Error::Overflow) => some_sum_overflows(s, id, amount as int),
                Some(_) => false,
                None => {
                    &&& s.subscriptions.dom().contains(id)
                    &&& !s.config.emergency_stop
                    &&& !run_out(s, sub)
                    &&& sub.usage_enabled
                    &&& 0 < amount
                    &&& !used
                    &&& running(s, id)
                    &&& !cap_used_up(s, id)
                    &&& !some_blocked(s, id)
                    &&& !some_switched_off(s, id)
                    &&& !some_away(s, id)
                    &&& if over_cap(s, id, amount as int) {
                        &&& usage_value(s, id, amount) is LifetimeCapReached
                        &&& only_status(s, s2, id, SubscriptionStatus::Cancelled)
                    } else {
                        &&& usage_value(s, id, amount) is Charged
                        &&& amount <= sub.prepaid_balance
                        &&& charges(s, s2, id, amount as int, BillingChargeKind::Usage)
                        &&& s2.rings == s.rings
                        &&& forall|k: (u32, Seq<u8>)|
                            #[trigger] s2.usage_references.dom().contains(k) <==> (
                            s.usage_references.dom().contains(k) || (reference is Some && k == (
                                id,
                                reference->0,
                            )))
                        &&& reports(
                            s,
                            s2,
                            id,
                            Event::UsageCharged {
                                subscription_id: id,
                                merchant: sub.merchant,
                                amount,
                            },
                        )
                    }
                },
            }
        }),
{
    lemma_parties(s, id);
    if amount > 0 {
        lemma_settle_refusal(s, id, amount);
    }
    let s2 = usage_charged(s, id, amount, reference);
    if usage_refusal(s, id, amount, reference) is None {
        if over_cap(s, id, amount as int) {
            assert(s2 =~= State { subscriptions: s2.subscriptions, events: s2.events, ..s });
        } else {
            let s1 = settled(s, id, amount, BillingChargeKind::Usage);
            lemma_settled_charges(s, id, amount, BillingChargeKind::Usage);
            lemma_charges_frame(s, s1, s2, id, amount, BillingChargeKind::Usage);
        }
    }
}

/// A one-off charge is refused for its cause, and made as a whole where there is none, unless it
/// repeats a request that was served.
pub proof fn law_one_off_charge(
    s: State,
    id: u32,
    merchant: Address,
    amount: i128,
    key: Option<Bytes32>,
)
    requires
        !served(s.rings, IDEM_ONE_OFF, id, key),
    ensures
        ({
            let sub = s.subscriptions[id];
            let s2 = one_off_charged(s, id, amount, key);
            match one_off_refusal(s, id, merchant, amount, key) {
                Some(Error::AuthRequired) => !agrees(s, merchant),
                Some(Error::EmergencyStopActive) => s.config.emergency_stop,
                Some(Error::NotFound) => !s.subscriptions.dom().contains(id)
                    || no_such_sub_account(s, id),
                Some(Error::Unauthorized) => merchant != sub.merchant,
                Some(Error::SubscriptionExpired) => run_out(s, sub),
                Some(Error::InvalidAmount) => amount <= 0,
                Some(Error::LifetimeCapReached) => cap_used_up(s, id) || over_cap(
                    s,
                    id,
                    amount as int,
                ),
                Some(Error::NotActive) => !running(s, id),
                Some(Error::SubscriberBlocklisted) => some_blocked(s, id),
                Some(Error::MerchantPaused) => some_switched_off(s, id),
                Some(Error::VacationActive) => some_away(s, id),
                Some(Error::InsufficientBalance) => sub.prepaid_balance < amount && !over_cap(
                    s,
                    id,
                    amount as int,
                ),
                Some(Error::Overflow) => some_sum_overflows(s, id, amount as int),
                Some(_) => false,
                None => {
                    &&& agrees(s, merchant)
                    &&& s.subscriptions.dom().contains(id)
                    &&& merchant == sub.merchant
                    &&& !s.config.emergency_stop
                    &&& !run_out(s, sub)
                    &&& 0 < amount <= sub.prepaid_balance
                    &&& running(s, id)
                    &&& !cap_used_up(s, id)
                    &&& !over_cap(s, id, amount as int)
                    &&& !some_blocked(s, id)
                    &&& !some_switched_off(s, id)
                    &&& !some_away(s, id)
                    &&& charges(s, s2, id, amount as int, BillingChargeKind::OneOff)
                    &&& s2.usage_references == s.usage_references
                    &&& key is None ==> s2.rings == s.rings
                    &&& reports(
                        s,
                        s2,
                        id,
                        Event::OneOffCharged {
                            subscription_id: id,
                            merchant: sub.merchant,
                            amount,
                        },
                    )
                },
            }
        }),
{
    lemma_parties(s, id);
    if amount > 0 {
        lemma_settle_refusal(s, id, amount);
    }
    let s2 = one_off_charged(s, id, amount, key);
    if one_off_refusal(s, id, merchant, amount, key) is None {
        let s1 = settled(s, id, amount, BillingChargeKind::OneOff);
        lemma_settled_charges(s, id, amount, BillingChargeKind::OneOff);
        lemma_charges_frame(s, s1, s2, id, amount, BillingChargeKind::OneOff);
    }
}

} // verus!
