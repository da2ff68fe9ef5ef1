//! What calls over many subscriptions do: each item as it would fare alone, one after the other.
use crate::agreement_laws::{ends_by_cancellation, law_closing};
use crate::batch::{
    after_cancels, after_charges, after_deposits, after_pauses, batch_refusal, bulk_refusal,
    cancel_results, change_count, charge_results, deposit_results, nonce_used,
    operator_batch_refusal, pause_results, summed_up,
};
use crate::billing::{charge_answer, charge_done};
use crate::deposits::deposited;
use crate::events::Event;
use crate::funding_laws::{deposit_cause, deposits, lemma_deposit_cause, lemma_deposited};
use crate::lifecycle::close_refusal;
use crate::measures::{agrees, only_subscription, run_out, wallet};
use crate::nonce::{DOMAIN_BATCH_CHARGE, DOMAIN_OPERATOR_BATCH_CHARGE};
use crate::records::{BulkSubscriptionResult, CancellationPolicy, Subscription, SubscriptionStatus};
use crate::settings_laws::{counter, counts_one};
use crate::types::{code_of, Address, Error};
use crate::vault::State;
use vstd::prelude::*;

verus! {

/// The administrator's batch of charges needs the administrator's word and next nonce of batches;
/// the operator's needs the operator's. While the emergency stop is on there is none.
pub proof fn law_batches_are_authorised(s: State, operator: Address, nonce: u64)
    ensures
        match batch_refusal(s, nonce) {
            Some(Error::Unauthorized) => s.config.admin is None,
            Some(Error::AuthRequired) => s.config.admin is Some && !agrees(s, s.config.admin->0),
            Some(Error::EmergencyStopActive) => s.config.emergency_stop,
            Some(Error::NonceAlreadyUsed) => s.config.admin is Some && nonce != counter(
                s,
                s.config.admin->0,
                0,
            ),
            Some(Error::Overflow) => nonce == u64::MAX,
            Some(_) => false,
            None => {
                &&& s.config.admin is Some
                &&& agrees(s, s.config.admin->0)
                &&& !s.config.emergency_stop
                &&& nonce == counter(s, s.config.admin->0, 0)
                &&& counts_one(
                    s,
                    nonce_used(s, s.config.admin->0, DOMAIN_BATCH_CHARGE, nonce),
                    s.config.admin->0,
                    0,
                )
            },
        },
        match operator_batch_refusal(s, operator, nonce) {
            Some(Error::Unauthorized) => s.config.operator != Some(operator),
            Some(Error::AuthRequired) => !agrees(s, operator),
            Some(Error::EmergencyStopActive) => s.config.emergency_stop,
            Some(Error::NonceAlreadyUsed) => nonce != counter(s, operator, 2),
            Some(Error::Overflow) => nonce == u64::MAX,
            Some(_) => false,
            None => {
                &&& s.config.operator == Some(operator)
                &&& agrees(s, operator)
                &&& !s.config.emergency_stop
                &&& nonce == counter(s, operator, 2)
                &&& counts_one(
                    s,
                    nonce_used(s, operator, DOMAIN_OPERATOR_BATCH_CHARGE, nonce),
                    operator,
                    2,
                )
            },
        },
{
}

/// A bulk call is for the administrator or the operator, over at most fifty items, with the caller's
/// next nonce.
pub proof fn law_bulk_calls_are_authorised(s: State, caller: Address, len: int, nonce: u64)
    ensures
        ({
            let s2 = nonce_used(s, caller, DOMAIN_OPERATOR_BATCH_CHARGE, nonce);
            match bulk_refusal(s, caller, len, nonce) {
                Some(Error::BatchTooLarge) => len > 50,
                Some(Error::AuthRequired) => !agrees(s, caller),
                Some(Error::Unauthorized) => s.config.admin != Some(caller) && s.config.operator
                    != Some(caller),
                Some(Error::NonceAlreadyUsed) => nonce != counter(s, caller, 2),
                Some(Error::Overflow) => nonce == u64::MAX,
                Some(_) => false,
                None => {
                    &&& len <= 50
                    &&& agrees(s, caller)
                    &&& s.config.admin == Some(caller) || s.config.operator == Some(caller)
                    &&& nonce == counter(s, caller, 2)
                    &&& counts_one(s, s2, caller, 2)
                    &&& s2 == (State { nonces: s2.nonces, events: s2.events, ..s })
                },
            }
        }),
{
    let s2 = nonce_used(s, caller, DOMAIN_OPERATOR_BATCH_CHARGE, nonce);
    assert(s2 =~= State { nonces: s2.nonces, events: s2.events, ..s });
}

/// A batch charges each of its subscriptions once, in turn, exactly as a charge of its own would,
/// and its reports are those of the charges one after the other. Before the first item nothing has
/// changed.
pub proof fn law_batch_charges_in_turn(s: State, ids: Seq<u32>, i: int)
    requires
        0 <= i < ids.len(),
    ensures
        ({
            let before = after_charges(s, ids, i);
            let after = after_charges(s, ids, i + 1);
            let alone = charge_done(before, ids[i], None);
            let answer = charge_answer(before, ids[i], None);
            let r = charge_results(s, ids)[i];
            &&& after_charges(s, ids, 0) == s
            &&& after == (State { events: after.events, ..alone })
            &&& after.events == before.events + alone.events
            &&& charge_results(s, ids).len() == ids.len()
            &&& r.success <==> (answer is Ok && !(answer->Ok_0 is InsufficientBalance)
                && !(answer->Ok_0 is LifetimeCapReached))
            &&& r.success ==> r.error_code == 0
            &&& answer is Err ==> r.error_code == code_of(answer->Err_0)
            &&& answer is Ok && answer->Ok_0 is InsufficientBalance ==> r.error_code == code_of(
                Error::InsufficientBalance,
            )
            &&& answer is Ok && answer->Ok_0 is LifetimeCapReached ==> r.error_code == code_of(
                Error::LifetimeCapReached,
            )
        }),
{
    let before = after_charges(s, ids, i);
    let after = after_charges(s, ids, i + 1);
    let alone = charge_done(before, ids[i], None);
    assert(after =~= State { events: after.events, ..alone });
}

/// Whether a result says that an item failed for its cause.
pub open spec fn says_failed(r: BulkSubscriptionResult, id: u32, e: Error) -> bool {
    r.subscription_id == id && !r.success && !r.changed && r.error_code == code_of(e)
}

/// Whether a result says that an item was dealt with.
pub open spec fn says_done(r: BulkSubscriptionResult, id: u32, changed: bool) -> bool {
    r.subscription_id == id && r.success && r.changed == changed && r.error_code == 0
}

/// A bulk pause pauses each subscription that has not ended, and changes nothing else of it or of any
/// other; one that is paused already is passed over, and one that cannot be paused is left alone.
pub proof fn law_bulk_pause(s: State, ids: Seq<u32>, caller: Address, i: int)
    requires
        0 <= i < ids.len(),
    ensures
        ({
            let before = after_pauses(s, ids, caller, i);
            let after = after_pauses(s, ids, caller, i + 1);
            let id = ids[i];
            let sub = before.subscriptions[id];
            let r = pause_results(s, ids, caller)[i];
            &&& after_pauses(s, ids, caller, 0) == s
            &&& pause_results(s, ids, caller).len() == ids.len()
            &&& if !before.subscriptions.dom().contains(id) {
                says_failed(r, id, Error::NotFound) && after == before
            } else if sub.status is Cancelled || sub.status is Archived {
                says_failed(r, id, Error::InvalidStatusTransition) && after == before
            } else if run_out(before, sub) {
                says_failed(r, id, Error::SubscriptionExpired) && after == before
            } else if sub.status is Paused {
                says_done(r, id, false) && after == before
            } else {
                &&& says_done(r, id, true)
                &&& only_subscription(before, after, id)
                &&& after.subscriptions[id] == (Subscription {
                    status: SubscriptionStatus::Paused,
                    ..sub
                })
                &&& after == (State {
                    subscriptions: after.subscriptions,
                    events: after.events,
                    ..before
                })
                &&& after.events == before.events.push(
                    Event::SubscriptionPaused { subscription_id: id, by: caller },
                )
            }
        }),
{
    let before = after_pauses(s, ids, caller, i);
    let after = after_pauses(s, ids, caller, i + 1);
    assert(after =~= State {
        subscriptions: after.subscriptions,
        events: after.events,
        ..before
    });
}

/// A bulk cancellation ends each subscription that has not ended and pays its whole balance back to
/// its subscriber; one that was cancelled already is passed over.
pub proof fn law_bulk_cancellation(s: State, ids: Seq<u32>, caller: Address, i: int)
    requires
        0 <= i < ids.len(),
    ensures
        ({
            let before = after_cancels(s, ids, caller, i);
            let after = after_cancels(s, ids, caller, i + 1);
            let id = ids[i];
            let sub = before.subscriptions[id];
            let r = cancel_results(s, ids, caller)[i];
            &&& after_cancels(s, ids, caller, 0) == s
            &&& cancel_results(s, ids, caller).len() == ids.len()
            &&& if !before.subscriptions.dom().contains(id) {
                says_failed(r, id, Error::NotFound) && after == before
            } else if sub.status is Cancelled {
                says_done(r, id, false) && after == before
            } else if sub.status is Archived {
                says_failed(r, id, Error::InvalidStatusTransition) && after == before
            } else if run_out(before, sub) {
                says_failed(r, id, Error::SubscriptionExpired) && after == before
            } else if close_refusal(before, CancellationPolicy::Refund, id) is Some {
                says_failed(r, id, close_refusal(before, CancellationPolicy::Refund, id)->0)
                    && after == before
            } else {
                says_done(r, id, true) && ends_by_cancellation(
                    before,
                    after,
                    CancellationPolicy::Refund,
                    id,
                )
            }
        }),
{
    let before = after_cancels(s, ids, caller, i);
    let after = after_cancels(s, ids, caller, i + 1);
    let id = ids[i];
    if before.subscriptions.dom().contains(id) {
        law_closing(before, CancellationPolicy::Refund, id, caller);
        let alone = crate::lifecycle::closed(before, CancellationPolicy::Refund, id, caller);
        assert forall|t: Address, a: Address| after.tokens == alone.tokens implies #[trigger] wallet(
            after,
            t,
            a,
        ) == wallet(alone, t, a) by {}
        assert(after =~= State {
            subscriptions: after.subscriptions,
            tokens: after.tokens,
            escrows: after.escrows,
            events: after.events,
            ..before
        });
    }
}

/// A bulk deposit makes each deposit that nothing speaks against, out of the caller's own wallet.
pub proof fn law_bulk_deposit(s: State, entries: Seq<(u32, i128)>, caller: Address, i: int)
    requires
        0 <= i < entries.len(),
        after_deposits(s, entries, caller, i).subscriptions.dom().finite(),
    ensures
        ({
            let before = after_deposits(s, entries, caller, i);
            let after = after_deposits(s, entries, caller, i + 1);
            let (id, amount) = entries[i];
            let r = deposit_results(s, entries, caller)[i];
            &&& after_deposits(s, entries, caller, 0) == s
            &&& deposit_results(s, entries, caller).len() == entries.len()
            &&& r.subscription_id == id
            &&& r.success == r.changed
            &&& r.success ==> {
                &&& r.error_code == 0
                &&& !before.config.locked
                &&& !before.config.emergency_stop
                &&& before.subscriptions.dom().contains(id)
                &&& deposit_cause(before, id, caller, amount, None)
                &&& deposits(before, after, id, caller, amount as int)
                &&& after.grants == before.grants
                &&& after.rings == before.rings
            }
            &&& !r.success ==> {
                &&& after == before
                &&& exists|e: Error|
                    #[trigger] code_of(e) == r.error_code && (match e {
                        Error::Reentrancy => before.config.locked,
                        Error::EmergencyStopActive => before.config.emergency_stop,
                        Error::NotFound => !before.subscriptions.dom().contains(id),
                        _ => deposit_cause(before, id, caller, amount, Some(e)),
                    })
            }
        }),
{
    let before = after_deposits(s, entries, caller, i);
    let after = after_deposits(s, entries, caller, i + 1);
    let (id, amount) = entries[i];
    lemma_deposit_cause(before, id, caller, amount);
    let r = deposit_results(s, entries, caller)[i];
    if r.success {
        lemma_deposited(before, id, caller, amount, None);
        let alone = deposited(before, id, caller, amount, None);
        assert forall|t: Address, a: Address| #[trigger]
            wallet(after, t, a) == wallet(alone, t, a) by {}
        assert(after =~= State {
            subscriptions: after.subscriptions,
            tokens: after.tokens,
            rings: after.rings,
            grants: after.grants,
            events: after.events,
            ..before
        });
    } else {
        let e = if before.config.locked {
            Error::Reentrancy
        } else if before.config.emergency_stop {
            Error::EmergencyStopActive
        } else if !before.subscriptions.dom().contains(id) {
            Error::NotFound
        } else {
            crate::deposits::deposit_refusal(before, id, caller, amount)->0
        };
        assert(code_of(e) == r.error_code);
    }
}

/// A bulk call is summed up by how many items it had and how many of them it changed, and the sum
/// changes nothing.
pub proof fn law_bulk_sum(s: State, caller: Address, results: Seq<BulkSubscriptionResult>)
    ensures
        ({
            let s2 = summed_up(s, caller, results);
            &&& s2 == (State { events: s2.events, ..s })
            &&& s2.events == s.events.push(s2.events.last())
            &&& change_count(results, results.len() as int) == results.filter(
                |r: BulkSubscriptionResult| r.changed,
            ).len()
            &&& results.len() <= u64::MAX ==> s2.events.last() == (Event::BulkOperation {
                caller,
                processed: results.len() as u64,
                changed: results.filter(|r: BulkSubscriptionResult| r.changed).len() as u64,
            })
        }),
{
    let s2 = summed_up(s, caller, results);
    assert(s2 =~= State { events: s2.events, ..s });
    lemma_change_count(results, results.len() as int);
    assert(results.take(results.len() as int) =~= results);
    assert(s2.events =~= s.events.push(s2.events.last()));
}

proof fn lemma_change_count(results: Seq<BulkSubscriptionResult>, n: int)
    requires
        0 <= n <= results.len(),
    ensures
        change_count(results, n) == results.take(n).filter(
            |r: BulkSubscriptionResult| r.changed,
        ).len(),
    decreases n,
{
    reveal(Seq::filter);
    if n == 0 {
        assert(results.take(0) =~= Seq::empty());
    } else {
        lemma_change_count(results, n - 1);
        assert(results.take(n) =~= results.take(n - 1).push(results[n - 1]));
        assert(results.take(n).drop_last() =~= results.take(n - 1));
    }
}

} // verus!
