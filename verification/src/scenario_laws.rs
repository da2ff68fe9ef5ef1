//! What the ready-made situations are, and what their steps do.
use crate::admin::operator_refusal;
use crate::agreement_laws::{
    adds_subscription, is_new, law_creation, law_partial_refund, law_plan_is_taken_up_as_offered,
    pays_back,
};
use crate::billing::{charge_answer, usage_value};
use crate::charge_laws::{
    charges, law_interval_charge_is_made, law_one_off_charge, law_usage_charge,
};
use crate::dispute_matrix::{acted, action_refusal, before_dispute, disputed, matrix, Action};
use crate::disputes::{resolve_refusal, respond_refusal};
use crate::events::Event;
use crate::funding_laws::{deposits, lemma_deposited};
use crate::measures::{credit, wallet};
use crate::mutation_calls::{after_calls, call_answer, call_refusal, called, Parties};
use crate::records::{ChargeExecutionResult, DisputeStatus, Subscription};
use crate::scenarios::{
    address_at, at_time, known_statement, named, plain_terms, set_up, snapshots_in,
    with_balance, with_known, with_minted, MerchantBalanceSnapshotEvent,
};
use crate::statements::{BillingChargeKind, StatementState};
use crate::types::{vault, Address, Error};
use crate::vault::{Config, Ledger, State};
use vstd::prelude::*;

verus! {

/// A scene is a vault with an administrator and one accepted token, which is the default one; the
/// smallest deposit and the grace period are those asked for, everybody agrees to everything, and
/// nobody has done anything yet.
pub proof fn law_scene(ledger: Ledger, decimals: u32, min_topup: i128, grace: u64)
    ensures
        ({
            let s = set_up(ledger, decimals, min_topup, grace);
            let admin = Address::Contract(1);
            let token = Address::Contract(2);
            &&& s.ledger == ledger
            &&& s.allow_all
            &&& s.config.admin == Some(admin)
            &&& s.config.token == token
            &&& s.config.min_topup == min_topup
            &&& s.config.grace_period == grace
            &&& s.accepted_tokens == seq![(token, decimals)]
            &&& s.config.next_address == 3
            &&& s.config.operator is None
            &&& !s.config.emergency_stop
            &&& !s.config.locked
            &&& s.config.protocol_fee_bps == 0
            &&& s.config.cancellation is Retain
            &&& s.subscriptions.dom().is_empty()
            &&& s.tokens.dom().is_empty()
            &&& s.merchant_balances.dom().is_empty()
            &&& s.disputes.dom().is_empty()
            &&& s.blocklist.dom().is_empty()
        }),
{
}

/// The steps of a scene: the clock moves and nothing else, tokens are given to one holder, new
/// addresses are new, and a balance is overwritten for one subscription.
pub proof fn law_scene_steps(
    s: State,
    time: u64,
    token: Address,
    to: Address,
    amount: i128,
    id: u32,
    n: int,
    m: int,
)
    requires
        i128::MIN <= wallet(s, token, to) + amount <= i128::MAX,
        0 <= n < m,
        s.config.next_address + m <= u64::MAX,
    ensures
        ({
            let later = at_time(s, time);
            let richer = with_minted(s, token, to, amount);
            let seeded = with_balance(s, id, amount);
            &&& later.ledger.timestamp == time
            &&& later.ledger.sequence == s.ledger.sequence
            &&& later.ledger.network_id == s.ledger.network_id
            &&& later == (State { ledger: later.ledger, ..s })
            &&& wallet(richer, token, to) == wallet(s, token, to) + amount
            &&& forall|t: Address, a: Address|
                t != token || a != to ==> #[trigger] wallet(richer, t, a) == wallet(s, t, a)
            &&& richer == (State { tokens: richer.tokens, ..s })
            &&& address_at(s, n) != address_at(s, m)
            &&& address_at(named(s, n), 0) == address_at(s, n)
            &&& s.config.next_address > 0 ==> address_at(s, n) != vault()
            &&& named(s, n) == (State { config: named(s, n).config, ..s })
            &&& named(s, n).config == (Config {
                next_address: named(s, n).config.next_address,
                ..s.config
            })
            &&& s.subscriptions.dom().contains(id) ==> seeded.subscriptions[id] == (Subscription {
                prepaid_balance: amount,
                ..s.subscriptions[id]
            })
            &&& forall|other: u32|
                other != id ==> (#[trigger] seeded.subscriptions.dom().contains(other)
                    == s.subscriptions.dom().contains(other)) && seeded.subscriptions[other]
                    == s.subscriptions[other]
            &&& seeded == (State { subscriptions: seeded.subscriptions, ..s })
        }),
{
    let later = at_time(s, time);
    let richer = with_minted(s, token, to, amount);
    let seeded = with_balance(s, id, amount);
    assert(later =~= State { ledger: later.ledger, ..s });
    assert(richer =~= State { tokens: richer.tokens, ..s });
    assert(seeded =~= State { subscriptions: seeded.subscriptions, ..s });
    assert(named(s, n) =~= State { config: named(s, n).config, ..s });
}

/// A plain subscription is between the next two new addresses, the subscriber first, in the default
/// token and without bounds.
pub proof fn law_plain_terms(s: State, amount: i128, interval: u64, usage: bool, cap: Option<i128>)
    ensures
        ({
            let t = plain_terms(s, amount, interval, usage, cap);
            &&& t.subscriber == address_at(s, 0)
            &&& t.merchant == address_at(s, 1)
            &&& t.token == s.config.token
            &&& t.amount == amount
            &&& t.interval_seconds == interval
            &&& t.usage_enabled == usage
            &&& t.lifetime_cap == cap
            &&& t.expires_at is None
            &&& t.expires_at_ledger is None
            &&& t.sub_account_label is None
        }),
{
}

/// The known statements are numbered from zero; the first is of one hundred, each is of a hundred
/// more than the one before it, and their kinds take turns.
pub proof fn law_known_statements(
    b: StatementState,
    id: u32,
    merchant: Address,
    token: Address,
    n: u32,
    i: int,
)
    requires
        0 <= i < n,
    ensures
        ({
            let after = with_known(b, id, merchant, token, n as int);
            let k = b.list(id).len();
            let one = after.list(id)[k + i];
            &&& after.list(id).len() == k + n
            &&& one.subscription_id == id
            &&& one.amount == 100 * (i + 1)
            &&& one.merchant == merchant
            &&& one.token == token
            &&& one.period_start == i
            &&& one.period_end == i + 1000
            &&& i % 3 == 0 ==> one.kind is Interval
            &&& i % 3 == 1 ==> one.kind is Usage
            &&& i % 3 == 2 ==> one.kind is OneOff
            &&& forall|j: int| 0 <= j < k ==> #[trigger] after.list(id)[j] == b.list(id)[j]
            &&& forall|other: u32|
                other != id ==> #[trigger] after.list(other) == b.list(other)
            &&& after.aggregates == b.aggregates
            &&& after.retention == b.retention
        }),
{
    lemma_known(b, id, merchant, token, n as int);
    let after = with_known(b, id, merchant, token, n as int);
    assert(after.list(id)[b.list(id).len() + i] == known_statement(id, merchant, token, i));
}

proof fn lemma_known(b: StatementState, id: u32, merchant: Address, token: Address, n: int)
    requires
        0 <= n,
    ensures
        ({
            let after = with_known(b, id, merchant, token, n);
            let k = b.list(id).len();
            &&& after.list(id).len() == k + n
            &&& forall|j: int| 0 <= j < k ==> #[trigger] after.list(id)[j] == b.list(id)[j]
            &&& forall|j: int|
                k <= j < k + n ==> #[trigger] after.list(id)[j] == known_statement(
                    id,
                    merchant,
                    token,
                    j - k,
                )
            &&& forall|other: u32| other != id ==> #[trigger] after.list(other) == b.list(other)
            &&& after.aggregates == b.aggregates
            &&& after.retention == b.retention
        }),
    decreases n,
{
    if n > 0 {
        lemma_known(b, id, merchant, token, n - 1);
        let prev = with_known(b, id, merchant, token, n - 1);
        let after = with_known(b, id, merchant, token, n);
        assert(after.list(id) == prev.list(id).push(known_statement(id, merchant, token, n - 1)));
        assert forall|other: u32| other != id implies #[trigger] after.list(other) == b.list(
            other,
        ) by {
            assert(prev.list(other) == b.list(other));
        }
    }
}

proof fn lemma_snapshots_frame(a: Seq<Event>, b: Seq<Event>, n: int)
    requires
        n <= a.len(),
        n <= b.len(),
        forall|i: int| 0 <= i < n ==> #[trigger] a[i] == b[i],
    ensures
        snapshots_in(a, n) == snapshots_in(b, n),
    decreases n,
{
    if n > 0 {
        assert(a[n - 1] == b[n - 1]);
        lemma_snapshots_frame(a, b, n - 1);
    }
}

/// The reports of balances are those among all reports that are of a balance, in their order and with
/// what they say.
pub proof fn law_snapshot_reports(events: Seq<Event>, merchant: Address, token: Address, balance: i128, e: Event)
    ensures
        ({
            let n = events.len() as int;
            let found = snapshots_in(events, n);
            let report = Event::MerchantBalanceSnapshot { merchant, token, balance };
            &&& snapshots_in(Seq::empty(), 0) == Seq::<MerchantBalanceSnapshotEvent>::empty()
            &&& snapshots_in(events.push(report), n + 1) == found.push(
                MerchantBalanceSnapshotEvent { merchant, token, balance },
            )
            &&& !(e is MerchantBalanceSnapshot) ==> snapshots_in(events.push(e), n + 1) == found
        }),
{
    let n = events.len() as int;
    let report = Event::MerchantBalanceSnapshot { merchant, token, balance };
    lemma_snapshots_frame(events.push(report), events, n);
    lemma_snapshots_frame(events.push(e), events, n);
}

/// A step on a dispute is taken where it is its turn: a response to an open dispute, a decision
/// after a response, or a decision for the subscriber on an open one once its time has run out.
/// Nothing is taken on a decided dispute.
pub proof fn law_dispute_matrix(from: DisputeStatus, action: Action, late: bool)
    ensures
        matrix(from, action, late) is Ok <==> {
            ||| from is Open && action is Respond
            ||| from is Responded && !(action is Respond)
            ||| from is Open && action is ResolveToSubscriber && late
        },
        matrix(from, action, late) == Err::<(), Error>(Error::DisputeAlreadyResponded) <==> !(from
            is Open) && action is Respond,
        matrix(from, action, late) == Err::<(), Error>(Error::DisputeNotResponded) <==> from is Open
            && !(action is Respond) && !(action is ResolveToSubscriber && late),
        matrix(from, action, late) == Err::<(), Error>(Error::DisputeAlreadyResolved) <==> (from
            is ResolvedToMerchant || from is ResolvedToSubscriber) && !(action is Respond),
{
}

/// The step that is asked for is the one that is taken.
pub proof fn law_dispute_steps(s: State, admin: Address, did: u64)
    ensures
        action_refusal(s, admin, did, Action::Respond) == respond_refusal(s, admin, did),
        action_refusal(s, admin, did, Action::ResolveToMerchant) == resolve_refusal(
            s,
            admin,
            did,
            false,
        ),
        action_refusal(s, admin, did, Action::ResolveToSubscriber) == resolve_refusal(
            s,
            admin,
            did,
            true,
        ),
        acted(s, admin, did, Action::Respond).disputes[did].status is Responded,
        acted(s, admin, did, Action::Respond).disputes[did].response is None,
        acted(s, admin, did, Action::ResolveToMerchant).disputes[did].status is ResolvedToMerchant,
        acted(s, admin, did, Action::ResolveToSubscriber).disputes[did].status
            is ResolvedToSubscriber,
{
}

/// The first calls create subscriptions between the parties: in the default token, in the given one,
/// and from the plan.
pub proof fn law_creating_calls(s: State, p: Parties)
    ensures
        ({
            let id = s.config.next_subscription_id;
            let a = called(s, p, 0);
            let b = called(s, p, 1);
            let c = called(s, p, 2);
            let plan = s.plans[p.subscription_id];
            &&& call_refusal(s, p, 0) is None ==> adds_subscription(s, a) && is_new(
                s,
                a.subscriptions[id],
                p.subscriber,
                p.merchant,
                s.config.token,
                1_000_000,
                2_592_000,
            )
            &&& call_refusal(s, p, 1) is None ==> adds_subscription(s, b) && is_new(
                s,
                b.subscriptions[id],
                p.subscriber,
                p.merchant,
                p.token,
                1_000_000,
                2_592_000,
            )
            &&& call_refusal(s, p, 2) is None ==> adds_subscription(s, c) && is_new(
                s,
                c.subscriptions[id],
                p.subscriber,
                plan.merchant,
                plan.token,
                plan.amount,
                plan.interval_seconds,
            )
        }),
{
    law_creation(s, crate::mutation_calls::call_terms(p, s.config.token));
    law_creation(s, crate::mutation_calls::call_terms(p, p.token));
    law_plan_is_taken_up_as_offered(s, p.subscriber, p.subscription_id);
}

/// The other calls fund, charge and refund the one subscription: a deposit, charges for the
/// interval, for usage and once, the same at the operator's word, and a refund.
pub proof fn law_funding_and_charging_calls(s: State, p: Parties)
    ensures
        ({
            let id = p.subscription_id;
            let sub = s.subscriptions[id];
            &&& call_refusal(s, p, 3) is None ==> deposits(
                s,
                called(s, p, 3),
                id,
                sub.subscriber,
                1_000_000,
            )
            &&& charge_answer(s, id, None) == Ok::<ChargeExecutionResult, Error>(
                ChargeExecutionResult::Charged,
            ) ==> charges(
                s,
                called(s, p, 4),
                id,
                sub.amount as int,
                BillingChargeKind::Interval,
            )
            &&& call_refusal(s, p, 5) is None && usage_value(s, id, 100_000) is Charged ==> charges(
                s,
                called(s, p, 5),
                id,
                100_000,
                BillingChargeKind::Usage,
            )
            &&& call_refusal(s, p, 6) is None && usage_value(s, id, 100_000) is Charged ==> charges(
                s,
                called(s, p, 6),
                id,
                100_000,
                BillingChargeKind::Usage,
            )
            &&& call_refusal(s, p, 7) is None ==> charges(
                s,
                called(s, p, 7),
                id,
                100_000,
                BillingChargeKind::OneOff,
            )
            &&& operator_refusal(s, p.operator) is None && charge_answer(s, id, None) == Ok::<
                ChargeExecutionResult,
                Error,
            >(ChargeExecutionResult::Charged) ==> charges(
                s,
                called(s, p, 9),
                id,
                sub.amount as int,
                BillingChargeKind::Interval,
            )
            &&& call_refusal(s, p, 10) is None && usage_value(s, id, 100_000) is Charged
                ==> charges(s, called(s, p, 10), id, 100_000, BillingChargeKind::Usage)
            &&& call_refusal(s, p, 11) is None && usage_value(s, id, 100_000) is Charged
                ==> charges(s, called(s, p, 11), id, 100_000, BillingChargeKind::Usage)
            &&& call_refusal(s, p, 12) is None ==> pays_back(s, called(s, p, 12), id, 1_000_000)
            &&& forall|i: int|
                9 <= i <= 11 && operator_refusal(s, p.operator) is Some ==> #[trigger] call_refusal(
                    s,
                    p,
                    i,
                ) == operator_refusal(s, p.operator)
        }),
{
    let id = p.subscription_id;
    let sub = s.subscriptions[id];
    if call_refusal(s, p, 3) is None {
        lemma_deposited(s, id, sub.subscriber, 1_000_000, None);
    }
    if charge_answer(s, id, None) == Ok::<ChargeExecutionResult, Error>(
        ChargeExecutionResult::Charged,
    ) {
        law_interval_charge_is_made(s, id, None);
    }
    law_usage_charge(s, id, 100_000, None);
    law_usage_charge(s, id, 100_000, Some(crate::mutation_calls::usage_reference()));
    law_usage_charge(s, id, 100_000, Some(crate::mutation_calls::operator_reference()));
    law_one_off_charge(s, id, p.merchant, 100_000, None);
    law_partial_refund(s, p.admin, id, p.subscriber, 1_000_000);
}

/// The calls are made one after the other, each in the state that the one before it left, and each
/// is answered for itself.
pub proof fn law_calls_in_a_row(s: State, p: Parties, i: int)
    requires
        0 <= i,
    ensures
        after_calls(s, p, 0) == s,
        after_calls(s, p, i + 1) == called(after_calls(s, p, i), p, i),
        call_answer(s, p, i) is Ok <==> call_refusal(after_calls(s, p, i), p, i) is None,
        call_answer(s, p, i) is Err ==> call_refusal(after_calls(s, p, i), p, i) == Some(
            call_answer(s, p, i)->Err_0,
        ),
{
}

/// A dispute scene is a new subscription between two new parties, with all that is disputed to the
/// merchant's credit and in the vault, and then all of it waiting.
pub proof fn law_dispute_scene(s: State)
    requires
        s.config.next_subscription_id < u32::MAX,
        s.config.next_dispute_id < u64::MAX,
        s.config.next_address < u64::MAX - 1,
        i128::MIN <= wallet(s, s.config.token, vault()) + 5_000_000 <= i128::MAX,
    ensures
        ({
            let before = before_dispute(s);
            let after = disputed(s);
            let id = s.config.next_subscription_id;
            let did = s.config.next_dispute_id;
            let subscriber = address_at(s, 0);
            let merchant = address_at(s, 1);
            let token = s.config.token;
            &&& before.subscriptions[id].subscriber == subscriber
            &&& before.subscriptions[id].merchant == merchant
            &&& before.subscriptions[id].token == token
            &&& credit(before, merchant, token) == 5_000_000
            &&& wallet(before, token, vault()) == wallet(s, token, vault()) + 5_000_000
            &&& credit(after, merchant, token) == 0
            &&& wallet(after, token, vault()) == wallet(before, token, vault())
            &&& after.disputes[did].subscription_id == id
            &&& after.disputes[did].subscriber == subscriber
            &&& after.disputes[did].merchant == merchant
            &&& after.disputes[did].token == token
            &&& after.disputes[did].amount == 5_000_000
            &&& after.disputes[did].status is Open
            &&& after.disputes[did].opened_at == s.ledger.timestamp
            &&& after.dispute_ledgers[did].original_amount == 5_000_000
            &&& after.dispute_ledgers[did].total_disbursed == 0
        }),
{
}

} // verus!
