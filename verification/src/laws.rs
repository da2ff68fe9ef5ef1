//! What holds of the vault across its calls: money is conserved, statuses follow their graph, and
//! what was refused or done once stays so.
use crate::accounts::{finite, holdings, liabilities, owed, stakes, surplus, Stake};
use crate::admin::{rotate_refusal, rotated};
use crate::batch::{deposit_item, failed};
use crate::billing::{
    after_path, charge_answer, charge_done, charge_path, charge_repeated, one_off_charged,
    one_off_refusal, parties_refusal, usage_charged, usage_refusal, ChargePath,
};
use crate::buyout::buyout_refusal;
use crate::charging::{
    cap_hit, charged_sub, credited, earned, entry, lemma_payouts, net_amount, payout_sum, payouts,
    settle_refusal, settled, to_sub_account,
};
use crate::deposits::{
    deposit_done, deposit_funds_refusal, deposit_payment, deposit_refusal, deposited,
    deposited_on_behalf, do_deposit_refusal, funded, on_behalf_refusal,
};
use crate::disputes::{
    claim_refusal, claimed, lodge_refusal, lodged, open_refusal, opened, remaining, resolve_refusal,
    resolved,
};
use crate::idempotency::{served, IDEM_CHARGE, IDEM_DEPOSIT, IDEM_ONE_OFF};
use crate::lifecycle::{
    archived, balance_payment, cancel_refusal, cancelled, cleanup_payment, cleanup_refusal,
    close_payment, close_refusal, closed, pause_refusal,
    paused, refund_refusal, refunded, resume_refusal, resumed, withdraw_refusal, withdrawn,
};
use crate::merchants::{
    lemma_same_authorization, merchant_payment, merchant_refund_refusal, merchant_refunded,
    merchant_withdraw_refusal, merchant_withdrawn, paid_out, payment_refusal, sub_withdraw_refusal,
    sub_withdrawn,
};
use crate::payments::{completed, handed_over, law_two_steps_make_a_call};
use crate::reconciliation::{lemma_books, recover_refusal, recovered};
use crate::records::{
    may_follow, CancellationEscrow, CancellationPolicy, DisputeEscrowLedger, RecoveryReason,
    Subscription,
};
use crate::safe_math::clamped;
use crate::statements::BillingChargeKind;
use crate::subscriptions::{create_refusal, Terms};
use crate::totals::{lemma_total_insert, lemma_total_remove};
use crate::types::{vault, Address, Bytes32, Error, Symbol};
use crate::vault::State;
use vstd::prelude::*;

verus! {

/// How replacing a subscription changes what is prepaid.
proof fn lemma_sub_replaced(s: State, id: u32, sub: Subscription, t: Address)
    requires
        s.subscriptions.dom().finite(),
        s.subscriptions.dom().contains(id),
    ensures
        s.subscriptions.insert(id, sub).dom().finite(),
        owed::<u32, Subscription>(s.subscriptions.insert(id, sub), t) == owed::<u32, Subscription>(
            s.subscriptions,
            t,
        ) - <Subscription as Stake<u32>>::stake(id, s.subscriptions[id], t)
            + <Subscription as Stake<u32>>::stake(id, sub, t),
{
    lemma_total_insert(s.subscriptions, stakes::<u32, Subscription>(t), id, sub);
}

/// How replacing a balance changes what merchants are owed.
proof fn lemma_balance_replaced(
    m: Map<(Address, Address), i128>,
    k: (Address, Address),
    v: i128,
    t: Address,
)
    requires
        m.dom().finite(),
    ensures
        m.insert(k, v).dom().finite(),
        owed::<(Address, Address), i128>(m.insert(k, v), t) == owed::<(Address, Address), i128>(
            m,
            t,
        ) + (if k.1 == t {
            v - entry(m, k)
        } else {
            0
        }),
{
    lemma_total_insert(m, stakes::<(Address, Address), i128>(t), k, v);
}

/// How a list of payouts changes what merchants are owed.
proof fn lemma_credited(
    m: Map<(Address, Address), i128>,
    token: Address,
    list: Seq<(Address, i128)>,
    n: int,
    limit: int,
    t: Address,
)
    requires
        m.dom().finite(),
        0 <= n <= list.len(),
        forall|i: int| 0 <= i < list.len() ==> (#[trigger] list[i]).1 >= 0,
        payout_sum(list, n) <= limit,
        forall|i: int|
            0 <= i < list.len() ==> entry(m, ((#[trigger] list[i]).0, token)) + limit <= i128::MAX,
    ensures
        credited(m, token, list, n).dom().finite(),
        0 <= payout_sum(list, n),
        owed::<(Address, Address), i128>(credited(m, token, list, n), t) == owed::<
            (Address, Address),
            i128,
        >(m, t) + (if t == token {
            payout_sum(list, n)
        } else {
            0
        }),
        forall|a: Address|
            entry(m, (a, token)) <= #[trigger] entry(credited(m, token, list, n), (a, token))
                <= entry(m, (a, token)) + payout_sum(list, n),
    decreases n,
{
    if n > 0 {
        lemma_credited(m, token, list, n - 1, limit, t);
        let before = credited(m, token, list, n - 1);
        let k = (list[n - 1].0, token);
        assert(entry(before, (list[n - 1].0, token)) <= entry(m, (list[n - 1].0, token))
            + payout_sum(list, n - 1));
        let v = (entry(before, k) + list[n - 1].1) as i128;
        lemma_balance_replaced(before, k, v, t);
        assert forall|a: Address|
            entry(m, (a, token)) <= #[trigger] entry(credited(m, token, list, n), (a, token))
                && entry(credited(m, token, list, n), (a, token)) <= entry(m, (a, token))
                + payout_sum(list, n) by {
            assert(entry(m, (a, token)) <= entry(before, (a, token)));
        }
    }
}

/// A charge only moves money within the vault: what the subscriber no longer has, the payees and
/// the treasury have.
pub proof fn law_charge_conserves(s: State, id: u32, amount: i128, kind: BillingChargeKind, t: Address)
    requires
        finite(s),
        s.subscriptions.dom().contains(id),
        settle_refusal(s, id, amount) is None,
        s.subscriptions[id].prepaid_balance >= amount,
    ensures
        finite(settled(s, id, amount, kind)),
        liabilities(settled(s, id, amount, kind), t) == liabilities(s, t),
        settled(s, id, amount, kind).tokens == s.tokens,
        surplus(settled(s, id, amount, kind), t) == surplus(s, t),
{
    let s2 = settled(s, id, amount, kind);
    let sub = s.subscriptions[id];
    let token = sub.token;
    let list = payouts(s, id, amount);
    let net = net_amount(s, id, amount);
    lemma_payouts(s, id, amount);
    lemma_sub_replaced(s, id, charged_sub(sub, amount, kind, s.ledger.timestamp), t);
    let paid = if to_sub_account(s, id) {
        s.merchant_balances
    } else {
        credited(s.merchant_balances, token, list, list.len() as int)
    };
    if !to_sub_account(s, id) {
        assert forall|i: int| 0 <= i < list.len() implies entry(
            s.merchant_balances,
            ((#[trigger] list[i]).0, token),
        ) + amount <= i128::MAX by {
            assert(s.merchant_balance(list[i].0, token) + amount <= i128::MAX);
        }
        lemma_credited(s.merchant_balances, token, list, list.len() as int, amount as int, t);
    } else {
        let k = (sub.merchant, sub.sub_account_label->0, token);
        lemma_total_insert(
            s.sub_balances,
            stakes::<(Address, Symbol, Address), i128>(t),
            k,
            (entry(s.sub_balances, k) + net) as i128,
        );
        assert(s.sub_balance(sub.merchant, sub.sub_account_label->0, token) + amount <= i128::MAX);
    }
    let fee = amount - net;
    if fee > 0 {
        let k = (s.config.treasury, token);
        assert(s.merchant_balance(s.config.treasury, token) + amount <= i128::MAX);
        assert(entry(paid, (s.config.treasury, token)) <= entry(s.merchant_balances, k) + net);
        lemma_balance_replaced(paid, k, (entry(paid, k) + fee) as i128, t);
    }
}

/// A deposit adds the same to what the vault holds and to what it owes.
pub proof fn law_deposit_conserves(
    s: State,
    id: u32,
    payer: Address,
    amount: i128,
    key: Option<Bytes32>,
    t: Address,
)
    requires
        finite(s),
        s.subscriptions.dom().contains(id),
        deposit_refusal(s, id, payer, amount) is None,
        payer != vault(),
    ensures
        finite(deposited(s, id, payer, amount, key)),
        surplus(deposited(s, id, payer, amount, key), t) == surplus(s, t),
{
    let sub = s.subscriptions[id];
    lemma_sub_replaced(s, id, funded(sub, amount), t);
}

/// Cancelling a subscription keeps its balance, moves it to escrow or pays it back: either way the
/// vault is left with the same surplus.
pub proof fn law_cancel_conserves(
    s: State,
    policy: CancellationPolicy,
    id: u32,
    by: Address,
    t: Address,
)
    requires
        finite(s),
        s.subscriptions.dom().contains(id),
        close_refusal(s, policy, id) is None,
        !s.escrows.dom().contains(id),
        s.subscriptions[id].subscriber != vault(),
    ensures
        finite(closed(s, policy, id, by)),
        surplus(closed(s, policy, id, by), t) == surplus(s, t),
{
    let s2 = closed(s, policy, id, by);
    lemma_sub_replaced(s, id, s2.subscriptions[id], t);
    lemma_total_insert(
        s.escrows,
        stakes::<u32, CancellationEscrow>(t),
        id,
        crate::lifecycle::escrow_of(s, id),
    );
}

/// What a subscriber withdraws, gets back in part or gets back on archival leaves the vault's
/// surplus as it was.
pub proof fn law_subscriber_payments_conserve(s: State, id: u32, amount: i128, t: Address)
    requires
        finite(s),
        s.subscriptions.dom().contains(id),
        s.subscriptions[id].subscriber != vault(),
    ensures
        forall|who: Address|
            #[trigger] withdraw_refusal(s, id, who) is None ==> surplus(withdrawn(s, id), t)
                == surplus(s, t),
        forall|who: Address|
            #[trigger] cleanup_refusal(s, id, who) is None ==> surplus(archived(s, id), t)
                == surplus(s, t),
        forall|admin: Address, who: Address|
            #[trigger] refund_refusal(s, admin, id, who, amount) is None ==> surplus(
                refunded(s, id, amount),
                t,
            ) == surplus(s, t),
{
    lemma_sub_replaced(s, id, withdrawn(s, id).subscriptions[id], t);
    lemma_sub_replaced(s, id, archived(s, id).subscriptions[id], t);
    lemma_sub_replaced(s, id, refunded(s, id, amount).subscriptions[id], t);
}

/// What a merchant withdraws or refunds leaves the vault's surplus as it was.
pub proof fn law_merchant_payments_conserve(
    s: State,
    merchant: Address,
    token: Address,
    to: Address,
    amount: i128,
    withdrawal: bool,
    t: Address,
)
    requires
        finite(s),
        payment_refusal(s, merchant, token, to, amount) is None,
        to != vault(),
    ensures
        finite(paid_out(s, merchant, token, to, amount, withdrawal)),
        surplus(paid_out(s, merchant, token, to, amount, withdrawal), t) == surplus(s, t),
{
    lemma_balance_replaced(
        s.merchant_balances,
        (merchant, token),
        (s.merchant_balance(merchant, token) - amount) as i128,
        t,
    );
}

/// What is withdrawn from a sub-account leaves the vault's surplus as it was.
pub proof fn law_sub_account_payments_conserve(
    s: State,
    merchant: Address,
    label: Symbol,
    token: Address,
    amount: i128,
    t: Address,
)
    requires
        finite(s),
        sub_withdraw_refusal(s, merchant, label, token, amount) is None,
        merchant != vault(),
    ensures
        finite(sub_withdrawn(s, merchant, label, token, amount)),
        surplus(sub_withdrawn(s, merchant, label, token, amount), t) == surplus(s, t),
{
    lemma_total_insert(
        s.sub_balances,
        stakes::<(Address, Symbol, Address), i128>(t),
        (merchant, label, token),
        (s.sub_balance(merchant, label, token) - amount) as i128,
    );
}

/// Opening a dispute moves the amount from the merchant's balance into the dispute's escrow.
pub proof fn law_open_dispute_conserves(
    s: State,
    subscriber: Address,
    id: u32,
    amount: i128,
    evidence: Option<Bytes32>,
    t: Address,
)
    requires
        finite(s),
        open_refusal(s, subscriber, id, amount) is None,
        !s.dispute_ledgers.dom().contains(s.config.next_dispute_id),
    ensures
        finite(opened(s, id, amount, evidence)),
        surplus(opened(s, id, amount, evidence), t) == surplus(s, t),
{
    let sub = s.subscriptions[id];
    lemma_balance_replaced(
        s.merchant_balances,
        (sub.merchant, sub.token),
        (s.merchant_balance(sub.merchant, sub.token) - amount) as i128,
        t,
    );
    lemma_total_insert(
        s.dispute_ledgers,
        stakes::<u64, DisputeEscrowLedger>(t),
        s.config.next_dispute_id,
        DisputeEscrowLedger { token: sub.token, original_amount: amount, total_disbursed: 0 },
    );
}

/// Disputing an escrowed balance moves it from the one escrow into the other, and paying it back
/// takes it out of the vault's holdings and debts alike.
pub proof fn law_escrow_conserves(s: State, id: u32, t: Address)
    requires
        finite(s),
        s.escrows.dom().contains(id),
        !s.dispute_ledgers.dom().contains(s.config.next_dispute_id),
        s.escrows[id].subscriber != vault(),
    ensures
        forall|who: Address|
            #[trigger] lodge_refusal(s, who, id) is None ==> surplus(lodged(s, id), t) == surplus(
                s,
                t,
            ),
        forall|who: Address|
            #[trigger] claim_refusal(s, who, id) is None ==> surplus(claimed(s, id), t) == surplus(
                s,
                t,
            ),
{
    let e = s.escrows[id];
    lemma_total_remove(s.escrows, stakes::<u32, CancellationEscrow>(t), id);
    lemma_total_insert(
        s.dispute_ledgers,
        stakes::<u64, DisputeEscrowLedger>(t),
        s.config.next_dispute_id,
        DisputeEscrowLedger { token: e.token, original_amount: e.amount, total_disbursed: 0 },
    );
}

/// Resolving a dispute pays what is left of the amount, to the one side or the other, and no more.
pub proof fn law_resolve_conserves(s: State, admin: Address, did: u64, to_subscriber: bool, t: Address)
    requires
        finite(s),
        resolve_refusal(s, admin, did, to_subscriber) is None,
        s.disputes[did].subscriber != vault(),
        s.disputes[did].token == s.dispute_ledgers[did].token,
    ensures
        finite(resolved(s, did, to_subscriber)),
        surplus(resolved(s, did, to_subscriber), t) == surplus(s, t),
{
    let d = s.disputes[did];
    let l = s.dispute_ledgers[did];
    let left = remaining(l) as i128;
    lemma_total_remove(s.dispute_ledgers, stakes::<u64, DisputeEscrowLedger>(t), did);
    lemma_total_insert(
        s.dispute_ledgers,
        stakes::<u64, DisputeEscrowLedger>(t),
        did,
        DisputeEscrowLedger { total_disbursed: l.original_amount, ..l },
    );
    lemma_balance_replaced(
        s.merchant_balances,
        (d.merchant, d.token),
        (s.merchant_balance(d.merchant, d.token) + left) as i128,
        t,
    );
}

/// Recovery takes no more than the surplus: what the vault owes stays covered.
pub proof fn law_recovery_leaves_debts_covered(
    s: State,
    admin: Address,
    token: Address,
    recipient: Address,
    amount: i128,
    recovery_id: Seq<u8>,
    reason: RecoveryReason,
    t: Address,
)
    requires
        finite(s),
        recover_refusal(s, admin, token, recipient, amount, recovery_id) is None,
        recipient != vault(),
    ensures
        surplus(recovered(s, token, recipient, amount, recovery_id, reason), token) == surplus(
            s,
            token,
        ) - amount,
        surplus(recovered(s, token, recipient, amount, recovery_id, reason), token) >= 0,
        t != token ==> surplus(recovered(s, token, recipient, amount, recovery_id, reason), t)
            == surplus(s, t),
        recover_refusal(
            recovered(s, token, recipient, amount, recovery_id, reason),
            admin,
            token,
            recipient,
            amount,
            recovery_id,
        ) == Some(Error::Replay),
{
    lemma_books(s, token);
}

/// A status only changes along the graph of [`may_follow`].
pub open spec fn statuses_follow(s: State, s2: State, id: u32) -> bool {
    s2.subscriptions.dom().contains(id) && may_follow(
        s.subscriptions[id].status,
        s2.subscriptions[id].status,
    )
}

/// Whatever a subscription goes through, its status only changes along the graph; what is archived
/// had been cancelled or had expired.
pub proof fn law_statuses_follow_the_graph(
    s: State,
    id: u32,
    who: Address,
    amount: i128,
    key: Option<Bytes32>,
    other: u32,
)
    requires
        s.subscriptions.dom().contains(other),
    ensures
        statuses_follow(s, charge_done(s, id, key), other),
        usage_refusal(s, id, amount, None) is None ==> statuses_follow(
            s,
            usage_charged(s, id, amount, None),
            other,
        ),
        one_off_refusal(s, id, who, amount, key) is None ==> statuses_follow(
            s,
            one_off_charged(s, id, amount, key),
            other,
        ),
        pause_refusal(s, id, who) is None ==> statuses_follow(s, paused(s, id, who), other),
        resume_refusal(s, id, who) is None ==> statuses_follow(s, resumed(s, id, who), other),
        cancel_refusal(s, id, who) is None ==> statuses_follow(s, cancelled(s, id, who), other),
        cleanup_refusal(s, id, who) is None ==> (s.subscriptions[id].status is Cancelled
            || s.is_over(s.subscriptions[id])) && archived(s, id).subscriptions[id].status
            is Archived && (other != id ==> archived(s, id).subscriptions[other]
            == s.subscriptions[other]),
        deposit_refusal(s, id, who, amount) is None ==> statuses_follow(
            s,
            deposited(s, id, who, amount, key),
            other,
        ),
{
}

/// The lifetime cap is never overrun: a charge of any kind leaves what was charged at or below it.
pub proof fn law_lifetime_cap_holds(
    s: State,
    id: u32,
    who: Address,
    amount: i128,
    key: Option<Bytes32>,
    cap: i128,
)
    requires
        s.subscriptions.dom().contains(id),
        s.subscriptions[id].lifetime_cap == Some(cap),
        s.subscriptions[id].lifetime_charged <= cap,
    ensures
        charge_done(s, id, key).subscriptions[id].lifetime_charged <= cap,
        usage_refusal(s, id, amount, None) is None ==> usage_charged(
            s,
            id,
            amount,
            None,
        ).subscriptions[id].lifetime_charged <= cap,
        one_off_refusal(s, id, who, amount, key) is None ==> one_off_charged(
            s,
            id,
            amount,
            key,
        ).subscriptions[id].lifetime_charged <= cap,
{
}

/// A subscription whose cap a charge used up is cancelled, and every later charge is refused for it.
pub proof fn law_exhausted_cap_ends_charging(s: State, id: u32, key: Option<Bytes32>)
    requires
        charge_path(s, id) is Charge,
        cap_hit(s.subscriptions[id], s.subscriptions[id].amount),
    ensures
        ({
            let s2 = after_path(s, id, ChargePath::Charge, key);
            &&& s2.subscriptions[id].status is Cancelled
            &&& charge_path(s2, id) == ChargePath::Refuse(Error::LifetimeCapReached)
        }),
{
}

/// An interval is charged once: right after a charge, another one is refused as a replay.
pub proof fn law_interval_charged_once(s: State, id: u32, key: Option<Bytes32>)
    requires
        charge_path(s, id) is Charge,
        !cap_hit(s.subscriptions[id], s.subscriptions[id].amount),
        s.subscriptions[id].interval_seconds > 0,
    ensures
        charge_path(after_path(s, id, ChargePath::Charge, key), id) == ChargePath::Refuse(
            Error::Replay,
        ),
{
    let s2 = after_path(s, id, ChargePath::Charge, key);
    assert(parties_refusal(s2, id) == parties_refusal(s, id));
}

/// A request that carries a key it was served under before is answered with success and changes
/// nothing.
pub proof fn law_repeated_requests_change_nothing(
    s: State,
    id: u32,
    who: Address,
    amount: i128,
    key: Option<Bytes32>,
)
    requires
        s.subscriptions.dom().contains(id),
        !s.config.emergency_stop,
    ensures
        served(s.rings, IDEM_CHARGE, id, key) ==> charge_done(s, id, key) == s.quiet()
            && charge_answer(s, id, key) is Ok,
        served(s.rings, IDEM_DEPOSIT, id, key) ==> deposit_done(s, who, id, amount, key)
            == s.quiet(),
        served(s.rings, IDEM_ONE_OFF, id, key) ==> one_off_charged(s, id, amount, key) == s.quiet(),
{
}

/// While the emergency stop is on, nothing is created, deposited, charged, refunded or withdrawn.
pub proof fn law_emergency_stop_blocks(
    s: State,
    t: Terms,
    id: u32,
    who: Address,
    token: Address,
    amount: i128,
    key: Option<Bytes32>,
    reference: Option<Seq<u8>>,
)
    requires
        s.config.emergency_stop,
        !s.config.locked,
        s.allow_all,
        !s.multisigs.dom().contains(who),
    ensures
        create_refusal(s, t) == Some(Error::EmergencyStopActive),
        deposit_funds_refusal(s, id, amount, key) == Some(Error::EmergencyStopActive),
        on_behalf_refusal(s, id, who, amount, key) == Some(Error::EmergencyStopActive),
        charge_answer(s, id, key) == Err::<crate::records::ChargeExecutionResult, Error>(
            Error::EmergencyStopActive,
        ),
        charge_done(s, id, key) == s.quiet(),
        usage_refusal(s, id, amount, reference) == Some(Error::EmergencyStopActive),
        one_off_refusal(s, id, who, amount, key) == Some(Error::EmergencyStopActive),
        withdraw_refusal(s, id, who) == Some(Error::EmergencyStopActive),
        merchant_withdraw_refusal(s, who, token, amount) == Some(Error::EmergencyStopActive),
        s.is_admin(who) ==> refund_refusal(s, who, id, who, amount) == Some(
            Error::EmergencyStopActive,
        ),
{
}

/// While the vault is locked, a call that would move tokens is refused.
pub proof fn law_lock_refuses_reentry(
    s: State,
    id: u32,
    did: u64,
    who: Address,
    token: Address,
    label: Symbol,
    amount: i128,
    key: Option<Bytes32>,
    policy: CancellationPolicy,
    tag: Seq<u8>,
)
    requires
        s.config.locked,
        s.authorized(who),
        !s.multisigs.dom().contains(who),
    ensures
        do_deposit_refusal(s, who, id, amount, key) == Some(Error::Reentrancy),
        on_behalf_refusal(s, id, who, amount, key) == Some(Error::Reentrancy),
        deposit_item(s, id, amount, who) == failed(id, Error::Reentrancy),
        buyout_refusal(s, id, who, amount, key) == Some(Error::Reentrancy),
        withdraw_refusal(s, id, who) == Some(Error::Reentrancy),
        merchant_withdraw_refusal(s, who, token, amount) == Some(Error::Reentrancy),
        merchant_refund_refusal(s, who, who, token, amount) == Some(Error::Reentrancy),
        sub_withdraw_refusal(s, who, label, token, amount) == Some(Error::Reentrancy),
        s.is_admin(who) ==> refund_refusal(s, who, id, who, amount) == Some(Error::Reentrancy),
        s.is_admin(who) ==> recover_refusal(s, who, token, who, amount, tag) == Some(
            Error::Reentrancy,
        ),
        close_payment(s, policy, id) is Some ==> close_refusal(s, policy, id) == Some(
            Error::Reentrancy,
        ),
        cleanup_payment(s, id) is Some ==> cleanup_refusal(s, id, who) is Some,
        resolve_refusal(s, who, did, true) is Some,
        claim_refusal(s, who, id) is Some,
{
}

/// A deposit is on the books, and the vault locked, before the token is given control: until it
/// gives control back no token has moved, and the same deposit is refused.
pub proof fn law_deposit_is_booked_before_it_is_paid(
    s: State,
    id: u32,
    amount: i128,
    key: Option<Bytes32>,
    again: Option<Bytes32>,
)
    requires
        deposit_funds_refusal(s, id, amount, key) is None,
        !served(s.rings, IDEM_DEPOSIT, id, key),
    ensures
        ({
            let payer = s.subscriptions[id].subscriber;
            let p = deposit_payment(s, id, payer, amount);
            let done = deposit_done(s, payer, id, amount, key);
            let waiting = handed_over(s, Some(p), done);
            &&& waiting.config.locked
            &&& waiting.tokens == s.tokens
            &&& waiting.subscriptions[id].prepaid_balance == s.subscriptions[id].prepaid_balance
                + amount
            &&& deposit_funds_refusal(waiting, id, amount, again) == Some(Error::Reentrancy)
            &&& p.refusal(waiting.tokens) is None
            &&& completed(waiting, Some(p)) == done
        }),
{
    let payer = s.subscriptions[id].subscriber;
    law_two_steps_make_a_call(
        s,
        deposit_payment(s, id, payer, amount),
        deposit_done(s, payer, id, amount, key),
    );
}

/// A subscriber's balance is zero, and the vault locked, before the token that pays it back is
/// given control.
pub proof fn law_withdrawal_is_booked_before_it_is_paid(s: State, id: u32, who: Address)
    requires
        withdraw_refusal(s, id, who) is None,
    ensures
        ({
            let p = balance_payment(s, id, s.subscriptions[id].prepaid_balance);
            let waiting = handed_over(s, Some(p), withdrawn(s, id));
            &&& waiting.config.locked
            &&& waiting.tokens == s.tokens
            &&& waiting.subscriptions[id].prepaid_balance == 0
            &&& withdraw_refusal(waiting, id, who) == Some(Error::Reentrancy)
            &&& p.refusal(waiting.tokens) is None
            &&& completed(waiting, Some(p)) == withdrawn(s, id)
        }),
{
    law_two_steps_make_a_call(
        s,
        balance_payment(s, id, s.subscriptions[id].prepaid_balance),
        withdrawn(s, id),
    );
}

/// A refund is off the balance, and the vault locked, before the token that pays it is given
/// control.
pub proof fn law_refund_is_booked_before_it_is_paid(
    s: State,
    admin: Address,
    id: u32,
    subscriber: Address,
    amount: i128,
)
    requires
        refund_refusal(s, admin, id, subscriber, amount) is None,
    ensures
        ({
            let p = balance_payment(s, id, amount);
            let waiting = handed_over(s, Some(p), refunded(s, id, amount));
            &&& waiting.config.locked
            &&& waiting.tokens == s.tokens
            &&& waiting.subscriptions[id].prepaid_balance == s.subscriptions[id].prepaid_balance
                - amount
            &&& refund_refusal(waiting, admin, id, subscriber, amount) == Some(Error::Reentrancy)
            &&& p.refusal(waiting.tokens) is None
            &&& completed(waiting, Some(p)) == refunded(s, id, amount)
        }),
{
    law_two_steps_make_a_call(s, balance_payment(s, id, amount), refunded(s, id, amount));
}

/// A merchant's withdrawal is off the merchant's balance, and the vault locked, before the token
/// that pays it is given control.
pub proof fn law_merchant_withdrawal_is_booked_before_it_is_paid(
    s: State,
    merchant: Address,
    token: Address,
    amount: i128,
)
    requires
        merchant_withdraw_refusal(s, merchant, token, amount) is None,
    ensures
        ({
            let p = merchant_payment(token, merchant, amount);
            let done = merchant_withdrawn(s, merchant, token, amount);
            let waiting = handed_over(s, Some(p), done);
            &&& waiting.config.locked
            &&& waiting.tokens == s.tokens
            &&& waiting.merchant_balance(merchant, token) == s.merchant_balance(merchant, token)
                - amount
            &&& merchant_withdraw_refusal(waiting, merchant, token, amount) == Some(
                Error::Reentrancy,
            )
            &&& p.refusal(waiting.tokens) is None
            &&& completed(waiting, Some(p)) == done
        }),
{
    let p = merchant_payment(token, merchant, amount);
    let done = merchant_withdrawn(s, merchant, token, amount);
    law_two_steps_make_a_call(s, p, done);
    lemma_same_authorization(s, handed_over(s, Some(p), done), merchant);
}

/// A payment out of a merchant's balance counts as a withdrawal or as a refund, never as both.
pub proof fn law_earnings_tell_withdrawals_from_refunds(
    s: State,
    merchant: Address,
    subscriber: Address,
    token: Address,
    amount: i128,
)
    ensures
        ({
            let before = earned(s.earnings, merchant, token);
            let w = earned(
                merchant_withdrawn(s, merchant, token, amount).earnings,
                merchant,
                token,
            );
            let r = earned(
                merchant_refunded(s, merchant, subscriber, token, amount).earnings,
                merchant,
                token,
            );
            &&& w.refunds == before.refunds
            &&& w.withdrawals == clamped(before.withdrawals + amount)
            &&& r.withdrawals == before.withdrawals
            &&& r.refunds == clamped(before.refunds + amount)
        }),
{
}

/// A withdrawal in one token leaves every other balance, of the merchant and of the vault, as it
/// was.
pub proof fn law_tokens_are_isolated(
    s: State,
    merchant: Address,
    token: Address,
    amount: i128,
    other_merchant: Address,
    other_token: Address,
)
    requires
        merchant_withdraw_refusal(s, merchant, token, amount) is None,
        token != other_token,
        merchant != vault(),
    ensures
        ({
            let s2 = merchant_withdrawn(s, merchant, token, amount);
            &&& s2.merchant_balance(other_merchant, other_token) == s.merchant_balance(
                other_merchant,
                other_token,
            )
            &&& holdings(s2, other_token) == holdings(s, other_token)
            &&& s2.merchant_balance(merchant, token) == s.merchant_balance(merchant, token) - amount
            &&& holdings(s2, token) == holdings(s, token) - amount
        }),
{
}

/// Pausing an active subscription and resuming it gives the subscription back as it was.
pub proof fn law_pause_resume_round_trip(s: State, id: u32, who: Address)
    requires
        pause_refusal(s, id, who) is None,
        s.subscriptions[id].status is Active,
        s.subscriptions[id].grace_start_timestamp is None,
    ensures
        ({
            let s2 = paused(s, id, who);
            &&& resume_refusal(s2, id, who) is None
            &&& resumed(s2, id, who).subscriptions[id] == s.subscriptions[id]
        }),
{
}

/// A grant pays for one deposit: after it, the payer has none.
pub proof fn law_grant_is_single_use(
    s: State,
    id: u32,
    payer: Address,
    amount: i128,
    key: Option<Bytes32>,
    next: Option<Bytes32>,
)
    requires
        on_behalf_refusal(s, id, payer, amount, key) is None,
        !served(s.rings, IDEM_DEPOSIT, id, key),
    ensures
        on_behalf_refusal(deposited_on_behalf(s, id, payer, amount, key), id, payer, amount, next)
            == Some(Error::DelegatedPayerGrantNotFound),
{
}

/// A dispute never pays out more than was disputed, and once resolved it is not resolved again.
pub proof fn law_dispute_never_overpays(s: State, admin: Address, did: u64, to_subscriber: bool, again: bool)
    requires
        resolve_refusal(s, admin, did, to_subscriber) is None,
        s.dispute_ledgers[did].total_disbursed >= 0,
    ensures
        ({
            let s2 = resolved(s, did, to_subscriber);
            let l = s.dispute_ledgers[did];
            &&& 0 < remaining(l) <= l.original_amount
            &&& l.total_disbursed + remaining(l) == l.original_amount
            &&& s2.dispute_ledgers.dom().contains(did) ==> remaining(s2.dispute_ledgers[did]) == 0
            &&& resolve_refusal(s2, admin, did, again) == (if l.total_disbursed == 0 {
                Some(Error::DisputeAlreadyResolved)
            } else {
                Some(Error::InsufficientBalance)
            })
        }),
{
}

/// An escrowed balance can be disputed or claimed, never both at one time.
pub proof fn law_escrow_is_disputed_or_claimed(s: State, id: u32, subscriber: Address, merchant: Address)
    ensures
        !(claim_refusal(s, subscriber, id) is None && lodge_refusal(s, merchant, id) is None),
{
}

/// Replacing the administrator hands over all privileges at once, and leaves the operator, the
/// subscriptions and every balance as they were.
pub proof fn law_rotation_hands_over(s: State, admin: Address, new_admin: Address, nonce: u64)
    requires
        rotate_refusal(s, admin, new_admin, nonce) is None,
    ensures
        ({
            let s2 = rotated(s, admin, new_admin, nonce);
            &&& s2.admin_refusal(admin) == Some(Error::Unauthorized)
            &&& s2.authorized(new_admin) ==> s2.admin_refusal(new_admin) is None
            &&& s2.config.operator == s.config.operator
            &&& s2.subscriptions == s.subscriptions
            &&& s2.tokens == s.tokens
            &&& s2.merchant_balances == s.merchant_balances
        }),
{
}

/// Once a subscription has expired it stays so as the clock and the ledger go on.
pub proof fn law_expiry_is_final(
    sub: Subscription,
    now: u64,
    later: u64,
    sequence: u32,
    later_sequence: u32,
)
    requires
        sub.expired(now, sequence),
        now <= later,
        sequence <= later_sequence,
    ensures
        sub.expired(later, later_sequence),
{
}

/// A subscription that was found to have expired is not charged, and moves no money.
pub proof fn law_expired_is_not_charged(s: State, id: u32, key: Option<Bytes32>)
    requires
        s.subscriptions.dom().contains(id),
        s.is_over(s.subscriptions[id]),
        !s.config.emergency_stop,
        !charge_repeated(s, id, key),
    ensures
        charge_answer(s, id, key) == Err::<crate::records::ChargeExecutionResult, Error>(
            Error::SubscriptionExpired,
        ),
        charge_done(s, id, key).merchant_balances == s.merchant_balances,
        charge_done(s, id, key).subscriptions[id].prepaid_balance
            == s.subscriptions[id].prepaid_balance,
        charge_done(s, id, key).is_over(charge_done(s, id, key).subscriptions[id]),
{
}

} // verus!
