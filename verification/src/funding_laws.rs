//! What deposits do: who may make them, how much may be held, and what they change.
use crate::buyout::{bought_out, buyout_refusal, buyout_value};
use crate::charge_laws::{
    books_earnings, given_out, lemma_settle_refusal, lemma_settled_charges, no_such_sub_account,
    over_cap, pays_out, puts_on_record, some_sum_overflows, taken_in,
};
use crate::charging::settled;
use crate::deposits::{
    deposit_done, deposit_funds_refusal, deposit_refusal, deposited, deposited_on_behalf,
    do_deposit_refusal, exposure, exposure_of, grant_refusal, granted, limited, listed,
    on_behalf_refusal, own_setting_refusal, revoke_refusal, revoked, unlisted,
};
use crate::events::Event;
use crate::idempotency::{served, IDEM_BUYOUT, IDEM_DEPOSIT};
use crate::measures::{
    agrees, away, credit, moved, only_subscription, run_out, sub_credit, switched_off,
    wallet,
};
use crate::records::{Subscription, SubscriptionStatus};
use crate::statements::BillingChargeKind;
use crate::totals::{lemma_total_insert, total};
use crate::types::{vault, Address, Bytes32, Error, Symbol};
use crate::vault::State;
use vstd::prelude::*;

verus! {

/// What a subscription holds for a subscriber in a token.
pub open spec fn prepaid_for(subscriber: Address, token: Address) -> spec_fn(
    u32,
    Subscription,
) -> int {
    |id: u32, sub: Subscription|
        if sub.subscriber == subscriber && sub.token == token && sub.prepaid_balance > 0 {
            sub.prepaid_balance as int
        } else {
            0
        }
}

/// What a subscription is to be charged next, if it is active.
pub open spec fn next_charge_for(subscriber: Address, token: Address) -> spec_fn(
    u32,
    Subscription,
) -> int {
    |id: u32, sub: Subscription|
        if sub.subscriber == subscriber && sub.token == token && sub.status is Active && sub.amount
            > 0 {
            sub.amount as int
        } else {
            0
        }
}

/// What a subscriber has prepaid in a token, over all subscriptions.
pub open spec fn prepaid_in_all(s: State, subscriber: Address, token: Address) -> int {
    total(s.subscriptions, prepaid_for(subscriber, token))
}

/// What a subscriber's active subscriptions are to be charged next in a token.
pub open spec fn next_charges_in_all(s: State, subscriber: Address, token: Address) -> int {
    total(s.subscriptions, next_charge_for(subscriber, token))
}

proof fn lemma_total_sum<K, V>(
    m: Map<K, V>,
    f: spec_fn(K, V) -> int,
    g: spec_fn(K, V) -> int,
    h: spec_fn(K, V) -> int,
)
    requires
        m.dom().finite(),
        forall|k: K| #[trigger] m.dom().contains(k) ==> f(k, m[k]) == g(k, m[k]) + h(k, m[k]),
    ensures
        total(m, f) == total(m, g) + total(m, h),
    decreases m.dom().len(),
{
    if m.dom().len() > 0 {
        let c = m.dom().choose();
        assert(m.dom().contains(c));
        let m2 = m.remove(c);
        assert forall|k: K| #[trigger] m2.dom().contains(k) implies f(k, m2[k]) == g(k, m2[k]) + h(
            k,
            m2[k],
        ) by {
            assert(m.dom().contains(k));
        }
        lemma_total_sum(m2, f, g, h);
    }
}

proof fn lemma_total_not_negative<K, V>(m: Map<K, V>, f: spec_fn(K, V) -> int)
    requires
        m.dom().finite(),
        forall|k: K| #[trigger] m.dom().contains(k) ==> f(k, m[k]) >= 0,
    ensures
        total(m, f) >= 0,
{
    crate::totals::lemma_total_bounds(m, f);
}

/// A subscriber's exposure is what is prepaid and what the active subscriptions are to be charged
/// next.
pub proof fn law_exposure_counts_balances_and_next_charges(
    s: State,
    subscriber: Address,
    token: Address,
)
    requires
        s.subscriptions.dom().finite(),
    ensures
        exposure(s, subscriber, token) == prepaid_in_all(s, subscriber, token)
            + next_charges_in_all(s, subscriber, token),
        0 <= prepaid_in_all(s, subscriber, token),
        0 <= next_charges_in_all(s, subscriber, token),
{
    lemma_total_sum(
        s.subscriptions,
        exposure_of(subscriber, token),
        prepaid_for(subscriber, token),
        next_charge_for(subscriber, token),
    );
    lemma_total_not_negative(s.subscriptions, prepaid_for(subscriber, token));
    lemma_total_not_negative(s.subscriptions, next_charge_for(subscriber, token));
}

/// Whether a deposit would take a subscriber's balances and next charges over the limit.
pub open spec fn over_credit_limit(s: State, id: u32, amount: int) -> bool {
    let sub = s.subscriptions[id];
    s.credit_limits.dom().contains((sub.subscriber, sub.token)) && prepaid_in_all(
        s,
        sub.subscriber,
        sub.token,
    ) + next_charges_in_all(s, sub.subscriber, sub.token) + amount > s.credit_limits[(
        sub.subscriber,
        sub.token,
    )]
}

/// Whether the payer lacks the tokens for a deposit.
pub open spec fn short_of_tokens(s: State, token: Address, from: Address, amount: int) -> bool {
    wallet(s, token, from) < amount
}

/// Whether somebody's wallet has no room for a transfer.
pub open spec fn wallet_full(s: State, token: Address, from: Address, to: Address, amount: int) -> bool {
    from != to && wallet(s, token, to) + amount > i128::MAX
}

/// Whether an error is the right one for a deposit, whoever pays; no error is right where nothing
/// speaks against the deposit.
pub open spec fn deposit_cause(
    s: State,
    id: u32,
    payer: Address,
    amount: i128,
    refusal: Option<Error>,
) -> bool {
    let sub = s.subscriptions[id];
    match refusal {
        Some(Error::InvalidAmount) => amount <= 0,
        Some(Error::SubscriptionExpired) => run_out(s, sub),
        Some(Error::NotActive) => sub.status is Cancelled || sub.status is Archived,
        Some(Error::SubscriberBlocklisted) => s.blocklist.dom().contains(sub.subscriber),
        Some(Error::MerchantPaused) => switched_off(s, sub.merchant),
        Some(Error::VacationActive) => away(s, sub.merchant, s.ledger.timestamp as int),
        Some(Error::BelowMinimumTopup) => amount < s.config.min_topup,
        Some(Error::LifetimeCapReached) => sub.lifetime_cap is Some && amount
            > sub.lifetime_cap->0,
        Some(Error::CreditLimitExceeded) => over_credit_limit(s, id, amount as int),
        Some(Error::Overflow) => sub.prepaid_balance + amount > i128::MAX || wallet_full(
            s,
            sub.token,
            payer,
            vault(),
            amount as int,
        ),
        Some(Error::TokenBalance) => short_of_tokens(s, sub.token, payer, amount as int),
        Some(_) => false,
        None => {
            &&& 0 < amount
            &&& !run_out(s, sub)
            &&& !(sub.status is Cancelled || sub.status is Archived)
            &&& !s.blocklist.dom().contains(sub.subscriber)
            &&& !switched_off(s, sub.merchant)
            &&& !away(s, sub.merchant, s.ledger.timestamp as int)
            &&& s.config.min_topup <= amount
            &&& sub.lifetime_cap is Some ==> amount <= sub.lifetime_cap->0
            &&& !over_credit_limit(s, id, amount as int)
            &&& !short_of_tokens(s, sub.token, payer, amount as int)
        },
    }
}

/// Whether a deposit was made: the balance of the subscription is up by it, the tokens have gone
/// from the payer to the vault, a subscription that had run out of money is active again once it
/// can pay, and nothing else has changed but what requests leave behind.
pub open spec fn deposits(s: State, s2: State, id: u32, payer: Address, amount: int) -> bool {
    let sub = s.subscriptions[id];
    let sub2 = s2.subscriptions[id];
    &&& only_subscription(s, s2, id)
    &&& sub2.prepaid_balance == sub.prepaid_balance + amount
    &&& sub2.status == (if sub.status is InsufficientBalance && sub2.prepaid_balance >= sub.amount {
        SubscriptionStatus::Active
    } else {
        sub.status
    })
    &&& sub2 == (Subscription {
        prepaid_balance: sub2.prepaid_balance,
        status: sub2.status,
        ..sub
    })
    &&& moved(s, s2, sub.token, payer, vault(), amount)
    &&& s2 == (State {
        subscriptions: s2.subscriptions,
        tokens: s2.tokens,
        rings: s2.rings,
        grants: s2.grants,
        events: s2.events,
        ..s
    })
}

pub(crate) proof fn lemma_deposit_cause(s: State, id: u32, payer: Address, amount: i128)
    requires
        s.subscriptions.dom().finite(),
    ensures
        deposit_cause(s, id, payer, amount, deposit_refusal(s, id, payer, amount)),
{
    let sub = s.subscriptions[id];
    law_exposure_counts_balances_and_next_charges(s, sub.subscriber, sub.token);
}

pub(crate) proof fn lemma_deposited(s: State, id: u32, payer: Address, amount: i128, key: Option<Bytes32>)
    requires
        s.subscriptions.dom().contains(id),
        deposit_refusal(s, id, payer, amount) is None,
    ensures
        deposits(s, deposited(s, id, payer, amount, key), id, payer, amount as int),
{
    let s2 = deposited(s, id, payer, amount, key);
    assert(s2 =~= State {
        subscriptions: s2.subscriptions,
        tokens: s2.tokens,
        rings: s2.rings,
        grants: s2.grants,
        events: s2.events,
        ..s
    });
}

/// A subscriber's deposit is refused for its cause, and made where there is none, unless it repeats
/// a request that was served.
pub proof fn law_deposit(s: State, who: Address, id: u32, amount: i128, key: Option<Bytes32>)
    requires
        s.subscriptions.dom().finite(),
        !served(s.rings, IDEM_DEPOSIT, id, key),
    ensures
        ({
            let sub = s.subscriptions[id];
            let s2 = deposit_done(s, who, id, amount, key);
            match do_deposit_refusal(s, who, id, amount, key) {
                Some(Error::AuthRequired) => !agrees(s, who),
                Some(Error::Reentrancy) => s.config.locked,
                Some(Error::EmergencyStopActive) => s.config.emergency_stop,
                Some(Error::NotFound) => !s.subscriptions.dom().contains(id),
                Some(Error::Unauthorized) => who != sub.subscriber,
                Some(e) => deposit_cause(s, id, who, amount, Some(e)),
                None => {
                    &&& agrees(s, who)
                    &&& !s.config.locked
                    &&& !s.config.emergency_stop
                    &&& s.subscriptions.dom().contains(id)
                    &&& who == sub.subscriber
                    &&& deposit_cause(s, id, who, amount, None)
                    &&& deposits(s, s2, id, who, amount as int)
                    &&& s2.grants == s.grants
                    &&& key is None ==> s2.rings == s.rings
                    &&& s2.events == seq![
                        Event::FundsDeposited { subscription_id: id, payer: who, amount },
                    ]
                },
            }
        }),
        s.subscriptions.dom().contains(id) && agrees(s, s.subscriptions[id].subscriber)
            && !s.config.emergency_stop ==> deposit_funds_refusal(s, id, amount, key)
            == do_deposit_refusal(s, s.subscriptions[id].subscriber, id, amount, key),
{
    lemma_deposit_cause(s, id, who, amount);
    if do_deposit_refusal(s, who, id, amount, key) is None {
        lemma_deposited(s, id, who, amount, key);
    }
}

/// A deposit that is taken raises the subscriber's exposure by at least what was deposited, and
/// leaves what the subscriber has prepaid in the token within the limit, if there is one.
pub proof fn law_credit_limit_bounds_what_is_prepaid(
    s: State,
    id: u32,
    payer: Address,
    amount: i128,
    key: Option<Bytes32>,
)
    requires
        s.subscriptions.dom().finite(),
        s.subscriptions.dom().contains(id),
        deposit_refusal(s, id, payer, amount) is None,
    ensures
        ({
            let sub = s.subscriptions[id];
            let s2 = deposited(s, id, payer, amount, key);
            &&& 0 <= sub.prepaid_balance ==> exposure(s2, sub.subscriber, sub.token) >= exposure(
                s,
                sub.subscriber,
                sub.token,
            ) + amount
            &&& s.credit_limits.dom().contains((sub.subscriber, sub.token)) ==> prepaid_in_all(
                s2,
                sub.subscriber,
                sub.token,
            ) <= s.credit_limits[(sub.subscriber, sub.token)]
        }),
{
    let sub = s.subscriptions[id];
    let s2 = deposited(s, id, payer, amount, key);
    let sub2 = s2.subscriptions[id];
    law_exposure_counts_balances_and_next_charges(s, sub.subscriber, sub.token);
    lemma_total_insert(s.subscriptions, prepaid_for(sub.subscriber, sub.token), id, sub2);
    lemma_total_insert(s.subscriptions, next_charge_for(sub.subscriber, sub.token), id, sub2);
    law_exposure_counts_balances_and_next_charges(s2, sub.subscriber, sub.token);
}

/// A subscriber without a limit, or within it, is not refused for it; the limit is counted in the
/// token and for the subscriber that it was set for, and no other.
pub proof fn law_credit_limits_are_kept_apart(
    s: State,
    subscriber: Address,
    token: Address,
    limit: i128,
    other: Address,
    other_token: Address,
)
    ensures
        ({
            let s2 = limited(s, subscriber, token, limit);
            &&& s2.credit_limits.dom().contains((subscriber, token))
            &&& s2.credit_limits[(subscriber, token)] == limit
            &&& (other, other_token) != (subscriber, token) ==> {
                &&& s2.credit_limits.dom().contains((other, other_token))
                    == s.credit_limits.dom().contains((other, other_token))
                &&& s2.credit_limits[(other, other_token)] == s.credit_limits[(other, other_token)]
            }
            &&& s2 == (State { credit_limits: s2.credit_limits, events: s2.events, ..s })
        }),
{
    let s2 = limited(s, subscriber, token, limit);
    assert(s2 =~= State { credit_limits: s2.credit_limits, events: s2.events, ..s });
}

/// A grant names who may pay for whom, until when and how much; only the subscriber can give it,
/// and it changes no other grant.
pub proof fn law_grant(s: State, subscriber: Address, payer: Address, until: u64, most: i128)
    ensures
        ({
            let s2 = granted(s, subscriber, payer, until, most);
            &&& match grant_refusal(s, subscriber, payer, until, most) {
                Some(Error::AuthRequired) => !agrees(s, subscriber),
                Some(Error::InvalidInput) => payer == subscriber || until <= s.ledger.timestamp,
                Some(Error::InvalidAmount) => most <= 0,
                Some(_) => false,
                None => agrees(s, subscriber) && payer != subscriber && s.ledger.timestamp < until
                    && 0 < most,
            }
            &&& s2.grants.dom().contains((subscriber, payer))
            &&& s2.grants[(subscriber, payer)].subscriber == subscriber
            &&& s2.grants[(subscriber, payer)].payer == payer
            &&& s2.grants[(subscriber, payer)].expires_at == until
            &&& s2.grants[(subscriber, payer)].max_amount == most
            &&& forall|k: (Address, Address)|
                k != (subscriber, payer) ==> (#[trigger] s2.grants.dom().contains(k)
                    == s.grants.dom().contains(k)) && s2.grants[k] == s.grants[k]
            &&& s2 == (State { grants: s2.grants, events: s2.events, ..s })
        }),
{
    let s2 = granted(s, subscriber, payer, until, most);
    assert(s2 =~= State { grants: s2.grants, events: s2.events, ..s });
}

/// Only the subscriber can take a grant back, and no other grant goes with it.
pub proof fn law_revocation(s: State, subscriber: Address, payer: Address)
    ensures
        ({
            let s2 = revoked(s, subscriber, payer);
            &&& match revoke_refusal(s, subscriber, payer) {
                Some(Error::AuthRequired) => !agrees(s, subscriber),
                Some(Error::DelegatedPayerGrantNotFound) => !s.grants.dom().contains(
                    (subscriber, payer),
                ),
                Some(_) => false,
                None => agrees(s, subscriber) && s.grants.dom().contains((subscriber, payer)),
            }
            &&& !s2.grants.dom().contains((subscriber, payer))
            &&& forall|k: (Address, Address)|
                k != (subscriber, payer) ==> (#[trigger] s2.grants.dom().contains(k)
                    == s.grants.dom().contains(k)) && s2.grants[k] == s.grants[k]
            &&& s2 == (State { grants: s2.grants, events: s2.events, ..s })
        }),
{
    let s2 = revoked(s, subscriber, payer);
    assert(s2 =~= State { grants: s2.grants, events: s2.events, ..s });
}

/// A payer's deposit needs a grant of the subscription's own subscriber that has not run out and
/// covers the amount. The payer's tokens move, nobody else's, and the grant is used up.
pub proof fn law_deposit_on_behalf(
    s: State,
    id: u32,
    payer: Address,
    amount: i128,
    key: Option<Bytes32>,
)
    requires
        s.subscriptions.dom().finite(),
        !served(s.rings, IDEM_DEPOSIT, id, key),
    ensures
        ({
            let sub = s.subscriptions[id];
            let g = (sub.subscriber, payer);
            let s2 = deposited_on_behalf(s, id, payer, amount, key);
            match on_behalf_refusal(s, id, payer, amount, key) {
                Some(Error::AuthRequired) => !agrees(s, payer),
                Some(Error::Reentrancy) => s.config.locked,
                Some(Error::EmergencyStopActive) => s.config.emergency_stop,
                Some(Error::NotFound) => !s.subscriptions.dom().contains(id),
                Some(Error::DelegatedPayerGrantNotFound) => !s.grants.dom().contains(g),
                Some(Error::DelegatedPayerGrantExpired) => s.grants.dom().contains(g)
                    && s.grants[g].expires_at < s.ledger.timestamp,
                Some(Error::DelegatedPayerAmountExceeded) => s.grants.dom().contains(g)
                    && s.grants[g].max_amount < amount,
                Some(e) => deposit_cause(s, id, payer, amount, Some(e)),
                None => {
                    &&& agrees(s, payer)
                    &&& !s.config.locked
                    &&& !s.config.emergency_stop
                    &&& s.subscriptions.dom().contains(id)
                    &&& s.grants.dom().contains(g)
                    &&& s.ledger.timestamp <= s.grants[g].expires_at
                    &&& amount <= s.grants[g].max_amount
                    &&& deposit_cause(s, id, payer, amount, None)
                    &&& deposits(s, s2, id, payer, amount as int)
                    &&& !s2.grants.dom().contains(g)
                    &&& forall|k: (Address, Address)|
                        k != g ==> (#[trigger] s2.grants.dom().contains(k)
                            == s.grants.dom().contains(k)) && s2.grants[k] == s.grants[k]
                    &&& key is None ==> s2.rings == s.rings
                    &&& s2.events == seq![
                        Event::DelegatedDeposited { subscription_id: id, payer, amount },
                    ]
                },
            }
        }),
{
    lemma_deposit_cause(s, id, payer, amount);
    if on_behalf_refusal(s, id, payer, amount, key) is None {
        lemma_deposited(s, id, payer, amount, key);
        let s1 = deposited(s, id, payer, amount, key);
        let s2 = deposited_on_behalf(s, id, payer, amount, key);
        assert forall|t: Address, a: Address| #[trigger]
            wallet(s2, t, a) == wallet(s1, t, a) by {}
        assert(s2 =~= State {
            subscriptions: s2.subscriptions,
            tokens: s2.tokens,
            rings: s2.rings,
            grants: s2.grants,
            events: s2.events,
            ..s
        });
    }
}

/// The blocklist holds who was put on it, with the reason, until taken off; nobody else is added
/// or dropped.
pub proof fn law_blocklist(s: State, authorizer: Address, who: Address, reason: Seq<u8>)
    ensures
        ({
            let on = listed(s, who, reason);
            let off = unlisted(s, who);
            &&& on.blocklist.dom().contains(who) && on.blocklist[who] == reason
            &&& !off.blocklist.dom().contains(who)
            &&& forall|a: Address|
                a != who ==> #[trigger] on.blocklist.dom().contains(a) == s.blocklist.dom().contains(a)
            &&& forall|a: Address|
                a != who ==> #[trigger] off.blocklist.dom().contains(a)
                    == s.blocklist.dom().contains(a)
            &&& forall|a: Address| a != who ==> #[trigger] on.blocklist[a] == s.blocklist[a]
            &&& forall|a: Address| a != who ==> #[trigger] off.blocklist[a] == s.blocklist[a]
            &&& on == (State { blocklist: on.blocklist, events: on.events, ..s })
            &&& off == (State { blocklist: off.blocklist, events: off.events, ..s })
        }),
        match own_setting_refusal(s, authorizer, who) {
            Some(Error::AuthRequired) => !agrees(s, authorizer),
            Some(Error::Unauthorized) => s.config.admin != Some(authorizer) && authorizer != who,
            Some(_) => false,
            None => agrees(s, authorizer) && (s.config.admin == Some(authorizer) || authorizer
                == who),
        },
{
    let on = listed(s, who, reason);
    let off = unlisted(s, who);
    assert(on =~= State { blocklist: on.blocklist, events: on.events, ..s });
    assert(off =~= State { blocklist: off.blocklist, events: off.events, ..s });
}

/// What must be deposited on top of a charge to buy a subscription out of its grace period.
pub open spec fn premium_on(s: State, amount: int) -> int {
    amount * s.config.buyout_premium_bps / 10_000
}

/// A buyout is for the subscriber of a subscription in its grace period, and takes a deposit that
/// covers the missed charge and the premium. It takes the deposit from the subscriber, charges the
/// missed amount, pays it out as any charge, and leaves the rest on the balance.
pub proof fn law_buyout(s: State, id: u32, who: Address, deposit: i128, key: Option<Bytes32>)
    requires
        s.subscriptions.dom().finite(),
        !served(s.rings, IDEM_BUYOUT, id, key),
    ensures
        ({
            let sub = s.subscriptions[id];
            let s2 = bought_out(s, id, who, deposit, key);
            let sub2 = s2.subscriptions[id];
            let premium = premium_on(s, sub.amount as int);
            match buyout_refusal(s, id, who, deposit, key) {
                Some(Error::AuthRequired) => !agrees(s, who),
                Some(Error::Reentrancy) => s.config.locked,
                Some(Error::EmergencyStopActive) => s.config.emergency_stop,
                Some(Error::Unauthorized) => who != sub.subscriber,
                Some(Error::NotInGracePeriod) => !(sub.status is GracePeriod),
                Some(Error::InsufficientBalance) => deposit < sub.amount + premium
                    || sub.prepaid_balance + deposit < sub.amount,
                None => {
                    &&& agrees(s, who)
                    &&& !s.config.locked
                    &&& !s.config.emergency_stop
                    &&& s.subscriptions.dom().contains(id)
                    &&& who == sub.subscriber
                    &&& sub.status is GracePeriod
                    &&& 0 < sub.amount
                    &&& sub.amount + premium <= deposit
                    &&& !over_cap(s, id, sub.amount as int)
                    &&& deposit_cause(s, id, who, deposit, None)
                    &&& buyout_value(s, id, key).0 == sub.amount
                    &&& buyout_value(s, id, key).1 == premium
                    &&& moved(s, s2, sub.token, who, vault(), deposit as int)
                    &&& only_subscription(s, s2, id)
                    &&& sub2.prepaid_balance == sub.prepaid_balance + deposit - sub.amount
                    &&& sub2.lifetime_charged == sub.lifetime_charged + sub.amount
                    &&& sub2.last_payment_timestamp == s.ledger.timestamp
                    &&& sub2.grace_start_timestamp is None
                    &&& sub2.status is Cancelled <==> (sub.lifetime_cap is Some
                        && sub2.lifetime_charged >= sub.lifetime_cap->0)
                    &&& sub2.status is Cancelled || sub2.status is Active
                    &&& sub2 == (Subscription {
                        prepaid_balance: sub2.prepaid_balance,
                        lifetime_charged: sub2.lifetime_charged,
                        status: sub2.status,
                        last_payment_timestamp: sub2.last_payment_timestamp,
                        grace_start_timestamp: sub2.grace_start_timestamp,
                        ..sub
                    })
                    &&& pays_out(s, s2, id, sub.amount as int)
                    &&& books_earnings(s, s2, id, sub.amount as int, BillingChargeKind::Interval)
                    &&& puts_on_record(s, s2, id, sub.amount as int, BillingChargeKind::Interval)
                    &&& s2.charged.dom().contains(id) && s2.charged[id] == s.ledger.timestamp
                    &&& key is None ==> s2.rings == s.rings
                    &&& s2.events == seq![
                        Event::GraceBoughtOut {
                            subscription_id: id,
                            charged: sub.amount,
                            premium: premium as i128,
                        },
                    ]
                    &&& s2 == (State {
                        subscriptions: s2.subscriptions,
                        tokens: s2.tokens,
                        merchant_balances: s2.merchant_balances,
                        sub_balances: s2.sub_balances,
                        earnings: s2.earnings,
                        charged: s2.charged,
                        statements: s2.statements,
                        rings: s2.rings,
                        events: s2.events,
                        ..s
                    })
                },
                Some(Error::NotFound) => !s.subscriptions.dom().contains(id)
                    || no_such_sub_account(s, id),
                Some(Error::InvalidAmount) => sub.amount <= 0 || deposit <= 0,
                Some(Error::LifetimeCapReached) => over_cap(s, id, sub.amount as int) || (
                sub.lifetime_cap is Some && deposit > sub.lifetime_cap->0),
                Some(Error::Overflow) => {
                    ||| s.config.buyout_premium_bps > 10_000
                    ||| sub.amount + premium > i128::MAX
                    ||| deposit_cause(s, id, who, deposit, Some(Error::Overflow))
                    ||| some_sum_overflows(s, id, sub.amount as int)
                },
                Some(e) => deposit_cause(s, id, who, deposit, Some(e)),
            }
        }),
{
    lemma_deposit_cause(s, id, who, deposit);
    if s.subscriptions[id].amount > 0 {
        lemma_settle_refusal(s, id, s.subscriptions[id].amount);
    }
    if buyout_refusal(s, id, who, deposit, key) is None {
        let sub = s.subscriptions[id];
        lemma_deposited(s, id, who, deposit, None);
        let s1 = deposited(s, id, who, deposit, None);
        crate::buyout::lemma_deposit_keeps_charge(s, id, who, deposit, sub.amount);
        lemma_settled_charges(s1, id, sub.amount, BillingChargeKind::Interval);
        let m = settled(s1, id, sub.amount, BillingChargeKind::Interval);
        let s2 = bought_out(s, id, who, deposit, key);
        assert forall|t: Address, a: Address| #[trigger]
            wallet(s2, t, a) == wallet(s1, t, a) by {}
        assert forall|a: Address, t: Address| #[trigger] credit(s2, a, t) == credit(m, a, t)
            && credit(s1, a, t) == credit(s, a, t) by {}
        assert forall|a: Address, l: Symbol, t: Address| #[trigger]
            sub_credit(s2, a, l, t) == sub_credit(m, a, l, t) && sub_credit(s1, a, l, t)
                == sub_credit(s, a, l, t) by {}
        assert forall|a: Address, t: Address, k: BillingChargeKind|
            #![trigger taken_in(s2, a, t, k)]
            taken_in(s2, a, t, k) == taken_in(m, a, t, k) && taken_in(s1, a, t, k) == taken_in(
                s,
                a,
                t,
                k,
            ) && given_out(s2, a, t) == given_out(m, a, t) && given_out(s1, a, t) == given_out(
                s,
                a,
                t,
            ) by {}
        crate::charge_core::lemma_part_bounds(
            sub.amount as int,
            s.config.buyout_premium_bps as int,
            10_000,
        );
        assert(s2 =~= State {
            subscriptions: s2.subscriptions,
            tokens: s2.tokens,
            merchant_balances: s2.merchant_balances,
            sub_balances: s2.sub_balances,
            earnings: s2.earnings,
            charged: s2.charged,
            statements: s2.statements,
            rings: s2.rings,
            events: s2.events,
            ..s
        });
    }
}

} // verus!
