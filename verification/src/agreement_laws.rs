//! What creating, changing, ending and handing over a subscription do.
use crate::events::Event;
use crate::funding_laws::{short_of_tokens, wallet_full};
use crate::lifecycle::{
    accept_refusal, accepted, archived, auto_renew_refusal, auto_renew_set, cancel_refusal,
    cancelled, cleanup_refusal, close_refusal, closed, initiate_refusal, ledger_bound_refusal,
    ledger_bound_set, offered, party_refusal, pause_refusal, paused, refund_refusal, refunded,
    resume_refusal, resumed, schedule_refusal, scheduled, unscheduled, veto_refusal, vetoed,
    withdraw_refusal, withdrawn,
};
use crate::measures::{agrees, moved, only_subscription, run_out, shares_out, wallet};
use crate::records::{CancellationPolicy, Subscription, SubscriptionStatus, TransferIntent};
use crate::subscriptions::{
    create_refusal, create_split_refusal, created, created_split, decimals_of, from_plan_refusal,
    listed_decimals, plan_created, plan_of, plan_refusal, plan_terms, Terms,
};
use crate::types::{vault, Address, Error};
use crate::vault::{Config, State};
use vstd::prelude::*;

verus! {

/// Whether a token is among those accepted.
pub open spec fn is_accepted(s: State, token: Address) -> bool {
    exists|i: int| 0 <= i < s.accepted_tokens.len() && (#[trigger] s.accepted_tokens[i]).0 == token
}

proof fn lemma_listed(list: Seq<(Address, u32)>, n: int, token: Address)
    requires
        0 <= n <= list.len(),
    ensures
        listed_decimals(list, n, token) is None ==> forall|i: int|
            0 <= i < n ==> (#[trigger] list[i]).0 != token,
        listed_decimals(list, n, token) is Some ==> exists|i: int|
            0 <= i < n && (#[trigger] list[i]).0 == token && list[i].1 == listed_decimals(
                list,
                n,
                token,
            )->0 && forall|j: int| 0 <= j < i ==> (#[trigger] list[j]).0 != token,
    decreases n,
{
    if n > 0 {
        lemma_listed(list, n - 1, token);
    }
}

/// A token is accepted exactly where it is on the list, and has the decimals that it was first
/// listed with.
pub proof fn law_accepted_tokens_are_those_listed(s: State, token: Address)
    ensures
        decimals_of(s, token) is Some <==> is_accepted(s, token),
        decimals_of(s, token) is Some ==> exists|i: int|
            0 <= i < s.accepted_tokens.len() && (#[trigger] s.accepted_tokens[i]) == (
                token,
                decimals_of(s, token)->0,
            ) && forall|j: int| 0 <= j < i ==> (#[trigger] s.accepted_tokens[j]).0 != token,
{
    lemma_listed(s.accepted_tokens, s.accepted_tokens.len() as int, token);
    if decimals_of(s, token) is Some {
        let i = choose|i: int|
            0 <= i < s.accepted_tokens.len() && (#[trigger] s.accepted_tokens[i]).0 == token
                && s.accepted_tokens[i].1 == decimals_of(s, token)->0 && forall|j: int|
                0 <= j < i ==> (#[trigger] s.accepted_tokens[j]).0 != token;
        assert(s.accepted_tokens[i] == (token, decimals_of(s, token)->0));
    }
}

/// Whether a subscription is new: it has the parties, the token and the terms that were asked for,
/// nothing on its balance, and starts now.
pub open spec fn is_new(
    s: State,
    sub: Subscription,
    subscriber: Address,
    merchant: Address,
    token: Address,
    amount: i128,
    interval: u64,
) -> bool {
    &&& sub.subscriber == subscriber
    &&& sub.merchant == merchant
    &&& sub.token == token
    &&& sub.amount == amount
    &&& sub.interval_seconds == interval
    &&& sub.status is Active
    &&& sub.prepaid_balance == 0
    &&& sub.lifetime_charged == 0
    &&& sub.last_payment_timestamp == s.ledger.timestamp
    &&& sub.start_time == s.ledger.timestamp
    &&& sub.grace_start_timestamp is None
    &&& sub.cancel_at is None
    &&& sub.auto_renew
    &&& sub.auto_renew_disabled_at is None
    &&& !sub.proration_enabled
}

/// Whether one subscription was added under the next number, and nothing else changed.
pub open spec fn adds_subscription(s: State, s2: State) -> bool {
    let id = s.config.next_subscription_id;
    &&& only_subscription(s, s2, id)
    &&& s2.config == (Config { next_subscription_id: s2.config.next_subscription_id, ..s.config })
    &&& s2.config.next_subscription_id == id + 1
    &&& s2 == (State {
        config: s2.config,
        subscriptions: s2.subscriptions,
        splits: s2.splits,
        events: s2.events,
        ..s
    })
}

/// Whether an error is the right one for the terms of a subscription.
pub open spec fn terms_cause(s: State, t: Terms, refusal: Option<Error>) -> bool {
    let now = s.ledger.timestamp;
    match refusal {
        Some(Error::TokenNotAccepted) => !is_accepted(s, t.token),
        Some(Error::InvalidAmount) => t.amount <= 0 || (t.lifetime_cap is Some && t.lifetime_cap->0
            <= 0),
        Some(Error::InvalidInput) => t.interval_seconds == 0,
        Some(Error::InvalidExpiration) => (t.expires_at is Some && t.expires_at->0 <= now && 0
            < now) || (t.expires_at_ledger is Some && t.expires_at_ledger->0
            <= s.ledger.sequence),
        Some(_) => false,
        None => {
            &&& is_accepted(s, t.token)
            &&& 0 < t.amount
            &&& 0 < t.interval_seconds
            &&& t.lifetime_cap is Some ==> 0 < t.lifetime_cap->0
            &&& t.expires_at is Some && 0 < now ==> now < t.expires_at->0
            &&& t.expires_at_ledger is Some ==> s.ledger.sequence < t.expires_at_ledger->0
        },
    }
}

/// A subscription is refused for its cause. Where there is none, it is created between the parties
/// and on the terms that were asked for.
pub proof fn law_creation(s: State, t: Terms)
    ensures
        ({
            let s2 = created(s, t);
            let sub = s2.subscriptions[s.config.next_subscription_id];
            match create_refusal(s, t) {
                Some(Error::AuthRequired) => !agrees(s, t.subscriber),
                Some(Error::EmergencyStopActive) => s.config.emergency_stop,
                Some(Error::SubscriberBlocklisted) => s.blocklist.dom().contains(t.subscriber),
                Some(Error::Overflow) => s.config.next_subscription_id == u32::MAX,
                Some(e) => terms_cause(s, t, Some(e)),
                None => {
                    &&& agrees(s, t.subscriber)
                    &&& !s.config.emergency_stop
                    &&& !s.blocklist.dom().contains(t.subscriber)
                    &&& terms_cause(s, t, None)
                    &&& adds_subscription(s, s2)
                    &&& is_new(
                        s,
                        sub,
                        t.subscriber,
                        t.merchant,
                        t.token,
                        t.amount,
                        t.interval_seconds,
                    )
                    &&& sub.usage_enabled == t.usage_enabled
                    &&& sub.lifetime_cap == t.lifetime_cap
                    &&& sub.expires_at == t.expires_at
                    &&& sub.expires_at_ledger == t.expires_at_ledger
                    &&& sub.sub_account_label == t.sub_account_label
                    &&& s2.splits == s.splits
                    &&& s2.events == seq![
                        Event::SubscriptionCreated {
                            subscription_id: s.config.next_subscription_id,
                            subscriber: t.subscriber,
                            merchant: t.merchant,
                        },
                    ]
                },
            }
        }),
{
    law_accepted_tokens_are_those_listed(s, t.token);
    let s2 = created(s, t);
    assert(s2 =~= State {
        config: s2.config,
        subscriptions: s2.subscriptions,
        splits: s2.splits,
        events: s2.events,
        ..s
    });
}

/// A subscription with payees is created as any other, and its list of payees is kept as it was
/// given. A list that does not share out a whole is refused.
pub proof fn law_creation_with_payees(s: State, t: Terms, entries: Seq<(Address, u32)>)
    ensures
        ({
            let s1 = created(s, t);
            let s2 = created_split(s, t, entries);
            let id = s.config.next_subscription_id;
            &&& create_refusal(s, t) is Some ==> create_split_refusal(s, t, entries)
                == create_refusal(s, t)
            &&& create_refusal(s, t) is None ==> create_split_refusal(s, t, entries) == (
            if shares_out(entries) {
                None
            } else {
                Some(Error::InvalidInput)
            })
            &&& s2.splits.dom().contains(id) && s2.splits[id] == entries
            &&& forall|other: u32|
                other != id ==> (#[trigger] s2.splits.dom().contains(other)
                    == s.splits.dom().contains(other)) && s2.splits[other] == s.splits[other]
            &&& s2 == (State { splits: s2.splits, ..s1 })
        }),
{
    crate::charge_laws::law_payees_share_out_a_whole(entries);
    let s1 = created(s, t);
    let s2 = created_split(s, t, entries);
    assert(s2 =~= State { splits: s2.splits, ..s1 });
}

/// A plan is offered by its merchant, in the default token, on the terms that were given, under the
/// next number; offering it touches no other plan.
pub proof fn law_plan_is_kept_as_offered(
    s: State,
    merchant: Address,
    amount: i128,
    interval: u64,
    usage: bool,
    cap: Option<i128>,
)
    ensures
        ({
            let p = plan_of(s, merchant, amount, interval, usage, cap);
            let s2 = plan_created(s, p);
            let id = s.config.next_plan_id;
            &&& match plan_refusal(s, p) {
                Some(Error::AuthRequired) => !agrees(s, merchant),
                Some(Error::TokenNotAccepted) => !is_accepted(s, s.config.token),
                Some(Error::InvalidAmount) => amount <= 0 || (cap is Some && cap->0 <= 0),
                Some(Error::InvalidInput) => interval == 0,
                Some(Error::Overflow) => id == u32::MAX,
                Some(_) => false,
                None => {
                    &&& agrees(s, merchant)
                    &&& is_accepted(s, s.config.token)
                    &&& 0 < amount
                    &&& 0 < interval
                    &&& cap is Some ==> 0 < cap->0
                    &&& s2.config.next_plan_id == id + 1
                },
            }
            &&& s2.plans.dom().contains(id)
            &&& s2.plans[id].merchant == merchant
            &&& s2.plans[id].token == s.config.token
            &&& s2.plans[id].amount == amount
            &&& s2.plans[id].interval_seconds == interval
            &&& s2.plans[id].usage_enabled == usage
            &&& s2.plans[id].lifetime_cap == cap
            &&& forall|other: u32|
                other != id ==> (#[trigger] s2.plans.dom().contains(other)
                    == s.plans.dom().contains(other)) && s2.plans[other] == s.plans[other]
            &&& s2.config == (Config { next_plan_id: s2.config.next_plan_id, ..s.config })
            &&& s2 == (State { config: s2.config, plans: s2.plans, events: s2.events, ..s })
        }),
{
    law_accepted_tokens_are_those_listed(s, s.config.token);
    let p = plan_of(s, merchant, amount, interval, usage, cap);
    let s2 = plan_created(s, p);
    assert(s2 =~= State { config: s2.config, plans: s2.plans, events: s2.events, ..s });
}

/// Who takes up a plan becomes the subscriber of the merchant that offered it, in the plan's token
/// and on the plan's terms, and has no bound but those.
pub proof fn law_plan_is_taken_up_as_offered(s: State, subscriber: Address, plan_id: u32)
    ensures
        ({
            let p = s.plans[plan_id];
            let s2 = created(s, plan_terms(p, subscriber));
            let sub = s2.subscriptions[s.config.next_subscription_id];
            match from_plan_refusal(s, subscriber, plan_id) {
                Some(Error::AuthRequired) => !agrees(s, subscriber),
                Some(Error::EmergencyStopActive) => s.config.emergency_stop,
                Some(Error::NotFound) => !s.plans.dom().contains(plan_id),
                Some(Error::SubscriberBlocklisted) => s.blocklist.dom().contains(subscriber),
                Some(Error::TokenNotAccepted) => !is_accepted(s, p.token),
                Some(Error::InvalidAmount) => p.amount <= 0 || (p.lifetime_cap is Some
                    && p.lifetime_cap->0 <= 0),
                Some(Error::InvalidInput) => p.interval_seconds == 0,
                Some(Error::Overflow) => s.config.next_subscription_id == u32::MAX,
                Some(_) => false,
                None => {
                    &&& agrees(s, subscriber)
                    &&& s.plans.dom().contains(plan_id)
                    &&& !s.config.emergency_stop
                    &&& !s.blocklist.dom().contains(subscriber)
                    &&& adds_subscription(s, s2)
                    &&& is_new(
                        s,
                        sub,
                        subscriber,
                        p.merchant,
                        p.token,
                        p.amount,
                        p.interval_seconds,
                    )
                    &&& sub.usage_enabled == p.usage_enabled
                    &&& sub.lifetime_cap == p.lifetime_cap
                    &&& sub.expires_at is None
                    &&& sub.expires_at_ledger is None
                    &&& sub.sub_account_label is None
                    &&& s2.splits == s.splits
                },
            }
        }),
{
    law_creation(s, plan_terms(s.plans[plan_id], subscriber));
}

/// A plan that was offered and is then taken up binds the subscriber to the merchant that offered
/// it, on the terms that it offered.
pub proof fn law_offer_and_acceptance(
    s: State,
    merchant: Address,
    amount: i128,
    interval: u64,
    usage: bool,
    cap: Option<i128>,
    subscriber: Address,
)
    requires
        plan_refusal(s, plan_of(s, merchant, amount, interval, usage, cap)) is None,
        agrees(s, subscriber),
        !s.config.emergency_stop,
        !s.blocklist.dom().contains(subscriber),
        s.config.next_subscription_id < u32::MAX,
    ensures
        ({
            let id = s.config.next_plan_id;
            let s1 = plan_created(s, plan_of(s, merchant, amount, interval, usage, cap));
            let s2 = created(s1, plan_terms(s1.plans[id], subscriber));
            let sub = s2.subscriptions[s.config.next_subscription_id];
            &&& from_plan_refusal(s1, subscriber, id) is None
            &&& sub.subscriber == subscriber
            &&& sub.merchant == merchant
            &&& sub.token == s.config.token
            &&& sub.amount == amount
            &&& sub.interval_seconds == interval
            &&& sub.usage_enabled == usage
            &&& sub.lifetime_cap == cap
        }),
{
    law_plan_is_kept_as_offered(s, merchant, amount, interval, usage, cap);
    let s1 = plan_created(s, plan_of(s, merchant, amount, interval, usage, cap));
    law_accepted_tokens_are_those_listed(s1, s.config.token);
    law_accepted_tokens_are_those_listed(s, s.config.token);
    assert forall|i: int| 0 <= i < s.signers.len() && s.signers[i] == subscriber implies s1.authorized(
        subscriber,
    ) by {
        assert(s1.signers.contains(subscriber));
    }
}

/// Whether a party that calls is refused for its cause: it did not give its word, there is no such
/// subscription, or it is neither the subscriber nor the merchant.
pub open spec fn party_cause(s: State, id: u32, who: Address, e: Error) -> bool {
    match e {
        Error::AuthRequired => !agrees(s, who),
        Error::NotFound => !s.subscriptions.dom().contains(id),
        Error::Forbidden => who != s.subscriptions[id].subscriber && who
            != s.subscriptions[id].merchant,
        _ => false,
    }
}

/// Whether a party may call.
pub open spec fn party_may(s: State, id: u32, who: Address) -> bool {
    &&& agrees(s, who)
    &&& s.subscriptions.dom().contains(id)
    &&& who == s.subscriptions[id].subscriber || who == s.subscriptions[id].merchant
}

/// Whether nothing has changed but one subscription.
pub open spec fn only_this_subscription(s: State, s2: State, id: u32) -> bool {
    &&& only_subscription(s, s2, id)
    &&& s2 == (State { subscriptions: s2.subscriptions, events: s2.events, ..s })
}

/// Either party can pause a subscription that has not ended; only its status changes.
pub proof fn law_pause(s: State, id: u32, who: Address)
    ensures
        ({
            let sub = s.subscriptions[id];
            let s2 = paused(s, id, who);
            match pause_refusal(s, id, who) {
                Some(Error::InvalidStatusTransition) => sub.status is Cancelled || sub.status
                    is Archived,
                Some(Error::SubscriptionExpired) => run_out(s, sub),
                Some(e) => party_cause(s, id, who, e),
                None => {
                    &&& party_may(s, id, who)
                    &&& !run_out(s, sub)
                    &&& !(sub.status is Cancelled || sub.status is Archived)
                    &&& only_this_subscription(s, s2, id)
                    &&& s2.subscriptions[id] == (Subscription {
                        status: SubscriptionStatus::Paused,
                        ..sub
                    })
                    &&& !(sub.status is Paused) ==> s2.events == seq![
                        Event::SubscriptionPaused { subscription_id: id, by: who },
                    ]
                    &&& sub.status is Paused ==> s2.events.len() == 0
                },
            }
        }),
{
    let s2 = paused(s, id, who);
    assert(s2 =~= State { subscriptions: s2.subscriptions, events: s2.events, ..s });
}

/// Either party can resume a subscription that has not ended; one that ran out of money must be
/// able to pay. It is active again, out of its grace period, and otherwise as it was.
pub proof fn law_resume(s: State, id: u32, who: Address)
    ensures
        ({
            let sub = s.subscriptions[id];
            let s2 = resumed(s, id, who);
            let sub2 = s2.subscriptions[id];
            let dry = sub.status is GracePeriod || sub.status is InsufficientBalance;
            match resume_refusal(s, id, who) {
                Some(Error::InvalidStatusTransition) => sub.status is Cancelled || sub.status
                    is Archived,
                Some(Error::SubscriptionExpired) => run_out(s, sub),
                Some(Error::InsufficientBalance) => dry && sub.prepaid_balance < sub.amount,
                Some(e) => party_cause(s, id, who, e),
                None => {
                    &&& party_may(s, id, who)
                    &&& !run_out(s, sub)
                    &&& !(sub.status is Cancelled || sub.status is Archived)
                    &&& dry ==> sub.amount <= sub.prepaid_balance
                    &&& only_this_subscription(s, s2, id)
                    &&& sub2.status is Active
                    &&& !(sub.status is Active) ==> sub2.grace_start_timestamp is None
                    &&& sub.status is Active ==> sub2 == sub && s2.events.len() == 0
                    &&& !(sub.status is Active) ==> s2.events == seq![
                        Event::SubscriptionResumed { subscription_id: id, by: who },
                    ]
                    &&& sub2 == (Subscription {
                        status: sub2.status,
                        grace_start_timestamp: sub2.grace_start_timestamp,
                        ..sub
                    })
                },
            }
        }),
{
    let s2 = resumed(s, id, who);
    assert(s2 =~= State { subscriptions: s2.subscriptions, events: s2.events, ..s });
}

/// What becomes of the balance of a subscription that is cancelled: it stays where it is, goes into
/// an escrow for its subscriber, or goes back to the subscriber's wallet, in full either way.
pub open spec fn ends_by_cancellation(
    s: State,
    s2: State,
    policy: CancellationPolicy,
    id: u32,
) -> bool {
    let sub = s.subscriptions[id];
    let sub2 = s2.subscriptions[id];
    let balance = sub.prepaid_balance;
    &&& only_subscription(s, s2, id)
    &&& sub2.status is Cancelled
    &&& sub2.cancel_at is None
    &&& sub2 == (Subscription {
        status: sub2.status,
        cancel_at: sub2.cancel_at,
        prepaid_balance: sub2.prepaid_balance,
        ..sub
    })
    &&& balance <= 0 || policy is Retain ==> {
        &&& sub2.prepaid_balance == balance
        &&& s2.tokens == s.tokens
        &&& s2.escrows == s.escrows
    }
    &&& balance > 0 && policy is Escrow ==> {
        &&& sub2.prepaid_balance == 0
        &&& s2.tokens == s.tokens
        &&& s2.escrows.dom().contains(id)
        &&& s2.escrows[id].subscription_id == id
        &&& s2.escrows[id].amount == balance
        &&& s2.escrows[id].token == sub.token
        &&& s2.escrows[id].subscriber == sub.subscriber
        &&& s2.escrows[id].merchant == sub.merchant
        &&& s2.escrows[id].released_at == s.ledger.timestamp + 259_200
        &&& s2.events.len() >= 1
        &&& s2.events.last() == (Event::CancellationEscrowOpened {
            subscription_id: id,
            subscriber: sub.subscriber,
            merchant: sub.merchant,
            amount: balance,
            released_at: s2.escrows[id].released_at,
        })
        &&& forall|other: u32|
            other != id ==> (#[trigger] s2.escrows.dom().contains(other)
                == s.escrows.dom().contains(other)) && s2.escrows[other] == s.escrows[other]
    }
    &&& balance > 0 && policy is Refund ==> {
        &&& sub2.prepaid_balance == 0
        &&& moved(s, s2, sub.token, vault(), sub.subscriber, balance as int)
        &&& s2.escrows == s.escrows
    }
    &&& s2 == (State {
        subscriptions: s2.subscriptions,
        tokens: s2.tokens,
        escrows: s2.escrows,
        events: s2.events,
        ..s
    })
}

/// A cancellation deals with the whole balance as the policy says, and with nothing else.
pub proof fn law_closing(s: State, policy: CancellationPolicy, id: u32, by: Address)
    requires
        s.subscriptions.dom().contains(id),
    ensures
        ({
            let sub = s.subscriptions[id];
            let b = sub.prepaid_balance as int;
            match close_refusal(s, policy, id) {
                Some(Error::Overflow) => b > 0 && ((policy is Escrow && s.ledger.timestamp + 259_200
                    > u64::MAX) || (policy is Refund && wallet_full(
                    s,
                    sub.token,
                    vault(),
                    sub.subscriber,
                    b,
                ))),
                Some(Error::Reentrancy) => b > 0 && policy is Refund && s.config.locked,
                Some(Error::TokenBalance) => b > 0 && policy is Refund && short_of_tokens(
                    s,
                    sub.token,
                    vault(),
                    b,
                ),
                Some(_) => false,
                None => ends_by_cancellation(s, closed(s, policy, id, by), policy, id),
            }
        }),
{
    let s2 = closed(s, policy, id, by);
    assert(s2 =~= State {
        subscriptions: s2.subscriptions,
        tokens: s2.tokens,
        escrows: s2.escrows,
        events: s2.events,
        ..s
    });
}

/// Either party can cancel a subscription that has not ended, once; the second time nothing
/// changes.
pub proof fn law_cancellation(s: State, id: u32, who: Address)
    ensures
        ({
            let sub = s.subscriptions[id];
            let s2 = cancelled(s, id, who);
            match cancel_refusal(s, id, who) {
                Some(Error::InvalidStatusTransition) => sub.status is Archived,
                Some(Error::SubscriptionExpired) => run_out(s, sub),
                Some(Error::AuthRequired) => !agrees(s, who),
                Some(Error::NotFound) => !s.subscriptions.dom().contains(id),
                Some(Error::Forbidden) => who != sub.subscriber && who != sub.merchant,
                Some(e) => close_refusal(s, s.config.cancellation, id) == Some(e),
                None => {
                    &&& party_may(s, id, who)
                    &&& !(sub.status is Archived)
                    &&& sub.status is Cancelled ==> s2 == s.quiet()
                    &&& !(sub.status is Cancelled) ==> {
                        &&& !run_out(s, sub)
                        &&& ends_by_cancellation(s, s2, s.config.cancellation, id)
                        &&& s2.events.len() >= 1
                        &&& s2.events[0] == (Event::SubscriptionCancelled {
                            subscription_id: id,
                            by: who,
                        })
                    }
                },
            }
        }),
{
    if s.subscriptions.dom().contains(id) {
        law_closing(s, s.config.cancellation, id, who);
    }
}

/// A cancellation can be set for a later time and called off again; nothing but the time is noted.
pub proof fn law_scheduling(s: State, id: u32, who: Address, at: u64)
    ensures
        ({
            let sub = s.subscriptions[id];
            let s2 = scheduled(s, id, at);
            let s3 = unscheduled(s, id);
            &&& match schedule_refusal(s, id, who, at) {
                Some(Error::InvalidStatusTransition) => sub.status is Cancelled || sub.status
                    is Archived || sub.status is Expired,
                Some(Error::SubscriptionExpired) => run_out(s, sub),
                Some(Error::InvalidInput) => at <= s.ledger.timestamp,
                Some(e) => party_cause(s, id, who, e),
                None => {
                    &&& party_may(s, id, who)
                    &&& !run_out(s, sub)
                    &&& !(sub.status is Cancelled || sub.status is Archived)
                    &&& s.ledger.timestamp < at
                    &&& only_this_subscription(s, s2, id)
                    &&& s2.subscriptions[id] == (Subscription { cancel_at: Some(at), ..sub })
                    &&& s2.events == seq![Event::CancelScheduled { subscription_id: id, cancel_at: at }]
                },
            }
            &&& match party_refusal(s, id, who) {
                Some(e) => party_cause(s, id, who, e),
                None => {
                    &&& party_may(s, id, who)
                    &&& only_this_subscription(s, s3, id)
                    &&& s3.subscriptions[id] == (Subscription { cancel_at: None, ..sub })
                    &&& sub.cancel_at is Some ==> s3.events == seq![
                        Event::CancelUnscheduled { subscription_id: id },
                    ]
                    &&& sub.cancel_at is None ==> s3.events.len() == 0
                },
            }
        }),
{
    let s2 = scheduled(s, id, at);
    let s3 = unscheduled(s, id);
    assert(s2 =~= State { subscriptions: s2.subscriptions, events: s2.events, ..s });
    assert(s3 =~= State { subscriptions: s3.subscriptions, events: s3.events, ..s });
}

/// Renewal is switched by either party while the subscription has not ended; it can be switched on
/// again for one interval after it was switched off. The time at which it was switched off is kept.
pub proof fn law_renewal(s: State, id: u32, who: Address, on: bool)
    ensures
        ({
            let sub = s.subscriptions[id];
            let s2 = auto_renew_set(s, id, on);
            let sub2 = s2.subscriptions[id];
            match auto_renew_refusal(s, id, who, on) {
                Some(Error::InvalidStatusTransition) => sub.status is Cancelled || sub.status
                    is Archived,
                Some(Error::SubscriptionExpired) => run_out(s, sub),
                Some(Error::RenewalWindowClosed) => on && !sub.auto_renew
                    && sub.auto_renew_disabled_at is Some && sub.auto_renew_disabled_at->0
                    + sub.interval_seconds < s.ledger.timestamp,
                Some(e) => party_cause(s, id, who, e),
                None => {
                    &&& party_may(s, id, who)
                    &&& !run_out(s, sub)
                    &&& !(sub.status is Cancelled || sub.status is Archived)
                    &&& on && !sub.auto_renew && sub.auto_renew_disabled_at is Some
                        ==> s.ledger.timestamp <= sub.auto_renew_disabled_at->0
                        + sub.interval_seconds
                    &&& only_this_subscription(s, s2, id)
                    &&& sub2.auto_renew == on
                    &&& sub.auto_renew == on ==> sub2 == sub && s2.events.len() == 0
                    &&& sub.auto_renew != on ==> s2.events == seq![
                        Event::AutoRenewToggled {
                            subscription_id: id,
                            enabled: on,
                            timestamp: s.ledger.timestamp,
                        },
                    ]
                    &&& on && !sub.auto_renew ==> sub2.auto_renew_disabled_at is None
                    &&& !on && sub.auto_renew ==> sub2.auto_renew_disabled_at == Some(
                        s.ledger.timestamp,
                    )
                    &&& sub2 == (Subscription {
                        auto_renew: sub2.auto_renew,
                        auto_renew_disabled_at: sub2.auto_renew_disabled_at,
                        ..sub
                    })
                },
            }
        }),
{
    let s2 = auto_renew_set(s, id, on);
    assert(s2 =~= State { subscriptions: s2.subscriptions, events: s2.events, ..s });
}

/// The ledger bound of a subscription that has not ended can be set to a ledger to come, or lifted,
/// by either party; nothing else changes.
pub proof fn law_ledger_bound(s: State, id: u32, who: Address, bound: Option<u32>)
    ensures
        ({
            let sub = s.subscriptions[id];
            let s2 = ledger_bound_set(s, id, who, bound);
            match ledger_bound_refusal(s, id, who, bound) {
                Some(Error::InvalidStatusTransition) => sub.status is Cancelled || sub.status
                    is Archived || sub.status is Expired,
                Some(Error::SubscriptionExpired) => run_out(s, sub),
                Some(Error::InvalidExpiration) => bound is Some && bound->0 <= s.ledger.sequence,
                Some(e) => party_cause(s, id, who, e),
                None => {
                    &&& party_may(s, id, who)
                    &&& !run_out(s, sub)
                    &&& !(sub.status is Cancelled || sub.status is Archived)
                    &&& bound is Some ==> s.ledger.sequence < bound->0
                    &&& only_this_subscription(s, s2, id)
                    &&& s2.subscriptions[id] == (Subscription { expires_at_ledger: bound, ..sub })
                    &&& s2.events == seq![
                        Event::ExpirationLedgerSet {
                            subscription_id: id,
                            authorizer: who,
                            expires_at_ledger: bound,
                            previous_expires_at_ledger: sub.expires_at_ledger,
                        },
                    ]
                },
            }
        }),
{
    let s2 = ledger_bound_set(s, id, who, bound);
    assert(s2 =~= State { subscriptions: s2.subscriptions, events: s2.events, ..s });
}

/// Whether money has left one subscription for its subscriber's wallet, and nothing else changed
/// but the subscription itself.
pub open spec fn pays_back(s: State, s2: State, id: u32, amount: int) -> bool {
    let sub = s.subscriptions[id];
    &&& only_subscription(s, s2, id)
    &&& s2.subscriptions[id].prepaid_balance == sub.prepaid_balance - amount
    &&& moved(s, s2, sub.token, vault(), sub.subscriber, amount)
    &&& s2 == (State {
        subscriptions: s2.subscriptions,
        tokens: s2.tokens,
        events: s2.events,
        ..s
    })
}

/// Archiving is for either party, once a subscription is cancelled or has run out. What is left of
/// the balance goes to the subscriber.
pub proof fn law_archiving(s: State, id: u32, who: Address)
    ensures
        ({
            let sub = s.subscriptions[id];
            let s2 = archived(s, id);
            let back = if sub.prepaid_balance > 0 {
                sub.prepaid_balance as int
            } else {
                0
            };
            match cleanup_refusal(s, id, who) {
                Some(Error::InvalidStatusTransition) => sub.status is Archived || !(sub.status
                    is Cancelled || run_out(s, sub)),
                Some(Error::Reentrancy) => back > 0 && s.config.locked,
                Some(Error::TokenBalance) => short_of_tokens(s, sub.token, vault(), back),
                Some(Error::Overflow) => wallet_full(s, sub.token, vault(), sub.subscriber, back),
                Some(e) => party_cause(s, id, who, e),
                None => {
                    &&& party_may(s, id, who)
                    &&& !(sub.status is Archived)
                    &&& sub.status is Cancelled || run_out(s, sub)
                    &&& pays_back(s, s2, id, back)
                    &&& s2.subscriptions[id] == (Subscription {
                        status: SubscriptionStatus::Archived,
                        prepaid_balance: s2.subscriptions[id].prepaid_balance,
                        ..sub
                    })
                    &&& s2.events == seq![
                        Event::SubscriptionArchived { subscription_id: id, refunded: back as i128 },
                    ]
                },
            }
        }),
{
    let s2 = archived(s, id);
    assert(s2 =~= State {
        subscriptions: s2.subscriptions,
        tokens: s2.tokens,
        events: s2.events,
        ..s
    });
}

/// A subscriber can withdraw the whole balance of a subscription that has ended, to the
/// subscriber's own wallet.
pub proof fn law_withdrawal(s: State, id: u32, who: Address)
    ensures
        ({
            let sub = s.subscriptions[id];
            let s2 = withdrawn(s, id);
            let ended = sub.status is Cancelled || sub.status is Archived || run_out(s, sub);
            let b = sub.prepaid_balance as int;
            match withdraw_refusal(s, id, who) {
                Some(Error::AuthRequired) => !agrees(s, who),
                Some(Error::Reentrancy) => s.config.locked,
                Some(Error::EmergencyStopActive) => s.config.emergency_stop,
                Some(Error::NotFound) => !s.subscriptions.dom().contains(id),
                Some(Error::Unauthorized) => who != sub.subscriber,
                Some(Error::InvalidStatusTransition) => !ended,
                Some(Error::InvalidAmount) => b <= 0,
                Some(Error::TokenBalance) => short_of_tokens(s, sub.token, vault(), b),
                Some(Error::Overflow) => wallet_full(s, sub.token, vault(), sub.subscriber, b),
                Some(_) => false,
                None => {
                    &&& agrees(s, who)
                    &&& !s.config.locked
                    &&& !s.config.emergency_stop
                    &&& s.subscriptions.dom().contains(id)
                    &&& who == sub.subscriber
                    &&& ended
                    &&& 0 < b
                    &&& pays_back(s, s2, id, b)
                    &&& s2.subscriptions[id] == (Subscription { prepaid_balance: 0, ..sub })
                    &&& s2.events == seq![
                        Event::SubscriberWithdrawn {
                            subscription_id: id,
                            subscriber: who,
                            amount: sub.prepaid_balance,
                        },
                    ]
                },
            }
        }),
{
    let s2 = withdrawn(s, id);
    assert(s2 =~= State {
        subscriptions: s2.subscriptions,
        tokens: s2.tokens,
        events: s2.events,
        ..s
    });
}

/// The administrator can pay part of a balance back to the subscription's own subscriber, and no
/// more than is there.
pub proof fn law_partial_refund(s: State, admin: Address, id: u32, subscriber: Address, amount: i128)
    ensures
        ({
            let sub = s.subscriptions[id];
            let s2 = refunded(s, id, amount);
            match refund_refusal(s, admin, id, subscriber, amount) {
                Some(Error::AuthRequired) => !agrees(s, admin),
                Some(Error::Unauthorized) => s.config.admin != Some(admin) || subscriber
                    != sub.subscriber,
                Some(Error::Reentrancy) => s.config.locked,
                Some(Error::EmergencyStopActive) => s.config.emergency_stop,
                Some(Error::NotFound) => !s.subscriptions.dom().contains(id),
                Some(Error::InvalidAmount) => amount <= 0,
                Some(Error::InsufficientBalance) => sub.prepaid_balance < amount,
                Some(Error::TokenBalance) => short_of_tokens(
                    s,
                    sub.token,
                    vault(),
                    amount as int,
                ),
                Some(Error::Overflow) => wallet_full(
                    s,
                    sub.token,
                    vault(),
                    sub.subscriber,
                    amount as int,
                ),
                Some(_) => false,
                None => {
                    &&& agrees(s, admin)
                    &&& s.config.admin == Some(admin)
                    &&& !s.config.locked
                    &&& !s.config.emergency_stop
                    &&& s.subscriptions.dom().contains(id)
                    &&& subscriber == sub.subscriber
                    &&& 0 < amount <= sub.prepaid_balance
                    &&& pays_back(s, s2, id, amount as int)
                    &&& s2.subscriptions[id] == (Subscription {
                        prepaid_balance: s2.subscriptions[id].prepaid_balance,
                        ..sub
                    })
                    &&& s2.events == seq![
                        Event::PartialRefund { subscription_id: id, subscriber, amount },
                    ]
                },
            }
        }),
{
    let s2 = refunded(s, id, amount);
    assert(s2 =~= State {
        subscriptions: s2.subscriptions,
        tokens: s2.tokens,
        events: s2.events,
        ..s
    });
}

/// Only the subscriber can offer a subscription that has not ended, to somebody else and for a time
/// to come. The offer is kept as it was made and changes nothing yet.
pub proof fn law_offer(s: State, id: u32, from: Address, to: Address, until: u64)
    ensures
        ({
            let sub = s.subscriptions[id];
            let s2 = offered(s, id, from, to, until);
            &&& match initiate_refusal(s, id, from, to, until) {
                Some(Error::AuthRequired) => !agrees(s, from),
                Some(Error::NotFound) => !s.subscriptions.dom().contains(id),
                Some(Error::Unauthorized) => from != sub.subscriber,
                Some(Error::InvalidTransferTarget) => to == from,
                Some(Error::InvalidStatusTransition) => sub.status is Cancelled || sub.status
                    is Expired || sub.status is Archived,
                Some(Error::InvalidInput) => until <= s.ledger.timestamp,
                Some(_) => false,
                None => {
                    &&& agrees(s, from)
                    &&& s.subscriptions.dom().contains(id)
                    &&& from == sub.subscriber
                    &&& to != from
                    &&& !(sub.status is Cancelled || sub.status is Expired || sub.status
                        is Archived)
                    &&& s.ledger.timestamp < until
                },
            }
            &&& s2.transfers.dom().contains(id)
            &&& s2.transfers[id] == (TransferIntent { from, to, expires_at: until })
            &&& s2.events == seq![Event::TransferInitiated { subscription_id: id, from, to }]
            &&& forall|other: u32|
                other != id ==> (#[trigger] s2.transfers.dom().contains(other)
                    == s.transfers.dom().contains(other)) && s2.transfers[other]
                    == s.transfers[other]
            &&& s2 == (State { transfers: s2.transfers, events: s2.events, ..s })
        }),
{
    let s2 = offered(s, id, from, to, until);
    assert(s2 =~= State { transfers: s2.transfers, events: s2.events, ..s });
}

/// An offer can be accepted only by the one it was made to, up to its time. The subscription then
/// has another subscriber, and is otherwise the same, with all its balance.
pub proof fn law_acceptance(s: State, id: u32, to: Address)
    ensures
        ({
            let s2 = accepted(s, id, to);
            let o = s.transfers[id];
            match accept_refusal(s, id, to) {
                Some(Error::AuthRequired) => !agrees(s, to),
                Some(Error::NotFound) => !s.subscriptions.dom().contains(id),
                Some(Error::TransferIntentNotFound) => !s.transfers.dom().contains(id),
                Some(Error::Unauthorized) => o.to != to,
                Some(Error::TransferIntentExpired) => o.expires_at < s.ledger.timestamp,
                Some(_) => false,
                None => {
                    &&& agrees(s, to)
                    &&& s.subscriptions.dom().contains(id)
                    &&& s.transfers.dom().contains(id)
                    &&& o.to == to
                    &&& s.ledger.timestamp <= o.expires_at
                    &&& only_subscription(s, s2, id)
                    &&& s2.subscriptions[id] == (Subscription {
                        subscriber: to,
                        ..s.subscriptions[id]
                    })
                    &&& s2.events == seq![Event::TransferAccepted { subscription_id: id, to }]
                    &&& !s2.transfers.dom().contains(id)
                    &&& forall|other: u32|
                        other != id ==> (#[trigger] s2.transfers.dom().contains(other)
                            == s.transfers.dom().contains(other)) && s2.transfers[other]
                            == s.transfers[other]
                    &&& s2 == (State {
                        subscriptions: s2.subscriptions,
                        transfers: s2.transfers,
                        events: s2.events,
                        ..s
                    })
                },
            }
        }),
{
    let s2 = accepted(s, id, to);
    assert(s2 =~= State {
        subscriptions: s2.subscriptions,
        transfers: s2.transfers,
        events: s2.events,
        ..s
    });
}

/// The merchant of a subscription can veto an offer of it, which is then gone; the subscription
/// stays with its subscriber.
pub proof fn law_veto(s: State, id: u32, merchant: Address)
    ensures
        ({
            let s2 = vetoed(s, id, merchant);
            &&& match veto_refusal(s, id, merchant) {
                Some(Error::AuthRequired) => !agrees(s, merchant),
                Some(Error::NotFound) => !s.subscriptions.dom().contains(id),
                Some(Error::Forbidden) => merchant != s.subscriptions[id].merchant,
                Some(Error::TransferIntentNotFound) => !s.transfers.dom().contains(id),
                Some(_) => false,
                None => agrees(s, merchant) && s.subscriptions.dom().contains(id) && merchant
                    == s.subscriptions[id].merchant && s.transfers.dom().contains(id),
            }
            &&& s2.events == seq![Event::TransferVetoed { subscription_id: id, merchant }]
            &&& !s2.transfers.dom().contains(id)
            &&& forall|other: u32|
                other != id ==> (#[trigger] s2.transfers.dom().contains(other)
                    == s.transfers.dom().contains(other)) && s2.transfers[other]
                    == s.transfers[other]
            &&& s2 == (State { transfers: s2.transfers, events: s2.events, ..s })
        }),
{
    let s2 = vetoed(s, id, merchant);
    assert(s2 =~= State { transfers: s2.transfers, events: s2.events, ..s });
}

} // verus!
