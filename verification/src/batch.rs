//! Calls on many subscriptions at once, by the administrator or the operator.
use crate::admin::operator_refusal;
use crate::billing::{charge_answer, charge_done, usage_charged, usage_refusal, usage_value};
use crate::deposits::{deposit_refusal, deposited};
use crate::events::Event;
use crate::lifecycle::{close_refusal, closed};
use crate::nonce::{
    check_and_advance, domain_number, next_nonce, nonce_consumed, nonce_refusal, NonceDomain,
    DOMAIN_BATCH_CHARGE, DOMAIN_OPERATOR_BATCH_CHARGE,
};
use crate::records::{
    BatchChargeResult, BulkSubscriptionResult, CancellationPolicy, ChargeExecutionResult,
    Subscription, SubscriptionStatus, UsageChargeResult,
};
use crate::types::{code_of, names, Address, Error};
use crate::vault::{ends, State, Vault};
use vstd::prelude::*;

verus! {

/// How many items a bulk call may have.
pub const BATCH_MAX_SIZE: u32 = 50;

/// The state after a signer's nonce was consumed and that was reported.
pub open spec fn nonce_used(s: State, signer: Address, domain: NonceDomain, nonce: u64) -> State {
    State {
        nonces: nonce_consumed(s.nonces, signer, domain),
        events: seq![Event::NonceConsumed { signer, domain: domain_number(domain), nonce }],
        ..s
    }
}

/// The state after one charge of a batch; the batch reports what all of its charges report.
pub open spec fn charged_in_turn(s: State, id: u32) -> State {
    State {
        events: s.events + charge_done(s, id, None).events,
        ..charge_done(s, id, None)
    }
}

/// The state after the first `n` charges of a batch.
pub open spec fn after_charges(s: State, ids: Seq<u32>, n: int) -> State
    decreases n,
{
    if n <= 0 {
        s
    } else {
        charged_in_turn(after_charges(s, ids, n - 1), ids[n - 1])
    }
}

/// How a charge of a batch is reported to the caller.
pub open spec fn item_result(r: Result<ChargeExecutionResult, Error>) -> BatchChargeResult {
    match r {
        Ok(ChargeExecutionResult::InsufficientBalance) => BatchChargeResult {
            success: false,
            error_code: code_of(Error::InsufficientBalance),
        },
        Ok(ChargeExecutionResult::LifetimeCapReached) => BatchChargeResult {
            success: false,
            error_code: code_of(Error::LifetimeCapReached),
        },
        Ok(_) => BatchChargeResult { success: true, error_code: 0 },
        Err(e) => BatchChargeResult { success: false, error_code: code_of(e) },
    }
}

/// What a batch of charges returns: one result per item, each charged in the state that the items
/// before it left.
pub open spec fn charge_results(s: State, ids: Seq<u32>) -> Seq<BatchChargeResult> {
    Seq::new(
        ids.len(),
        |i: int| item_result(charge_answer(after_charges(s, ids, i), ids[i], None)),
    )
}

/// Why the administrator's batch of charges is refused.
pub open spec fn batch_refusal(s: State, nonce: u64) -> Option<Error> {
    match s.config.admin {
        None => Some(Error::Unauthorized),
        Some(admin) => if !s.authorized(admin) {
            Some(Error::AuthRequired)
        } else if s.config.emergency_stop {
            Some(Error::EmergencyStopActive)
        } else {
            nonce_refusal(next_nonce(s.nonces, admin, DOMAIN_BATCH_CHARGE), nonce)
        },
    }
}

/// Why the operator's batch of charges is refused.
pub open spec fn operator_batch_refusal(s: State, operator: Address, nonce: u64) -> Option<Error> {
    if operator_refusal(s, operator) is Some {
        operator_refusal(s, operator)
    } else if s.config.emergency_stop {
        Some(Error::EmergencyStopActive)
    } else {
        nonce_refusal(next_nonce(s.nonces, operator, DOMAIN_OPERATOR_BATCH_CHARGE), nonce)
    }
}

/// Why a bulk call of `len` items is refused.
pub open spec fn bulk_refusal(s: State, caller: Address, len: int, nonce: u64) -> Option<Error> {
    if len > BATCH_MAX_SIZE {
        Some(Error::BatchTooLarge)
    } else if !s.authorized(caller) {
        Some(Error::AuthRequired)
    } else if !s.is_admin(caller) && s.config.operator != Some(caller) {
        Some(Error::Unauthorized)
    } else {
        nonce_refusal(next_nonce(s.nonces, caller, DOMAIN_OPERATOR_BATCH_CHARGE), nonce)
    }
}

/// A result of a bulk call for an item that failed.
pub open spec fn failed(id: u32, e: Error) -> BulkSubscriptionResult {
    BulkSubscriptionResult {
        subscription_id: id,
        success: false,
        changed: false,
        error_code: code_of(e),
    }
}

/// A result of a bulk call for an item that did not fail.
pub open spec fn succeeded(id: u32, changed: bool) -> BulkSubscriptionResult {
    BulkSubscriptionResult { subscription_id: id, success: true, changed, error_code: 0 }
}

/// What a bulk pause does with one subscription.
pub open spec fn pause_item(s: State, id: u32) -> BulkSubscriptionResult {
    if !s.subscriptions.dom().contains(id) {
        failed(id, Error::NotFound)
    } else {
        let sub = s.subscriptions[id];
        if sub.status is Cancelled || sub.status is Archived {
            failed(id, Error::InvalidStatusTransition)
        } else if s.is_over(sub) {
            failed(id, Error::SubscriptionExpired)
        } else {
            succeeded(id, !(sub.status is Paused))
        }
    }
}

/// The state after a bulk pause dealt with one subscription.
pub open spec fn paused_in_turn(s: State, id: u32, caller: Address) -> State {
    if pause_item(s, id).changed {
        State {
            subscriptions: s.subscriptions.insert(
                id,
                Subscription { status: SubscriptionStatus::Paused, ..s.subscriptions[id] },
            ),
            events: s.events.push(Event::SubscriptionPaused { subscription_id: id, by: caller }),
            ..s
        }
    } else {
        s
    }
}

/// The state after the first `n` items of a bulk pause.
pub open spec fn after_pauses(s: State, ids: Seq<u32>, caller: Address, n: int) -> State
    decreases n,
{
    if n <= 0 {
        s
    } else {
        paused_in_turn(after_pauses(s, ids, caller, n - 1), ids[n - 1], caller)
    }
}

/// What a bulk pause returns.
pub open spec fn pause_results(s: State, ids: Seq<u32>, caller: Address) -> Seq<
    BulkSubscriptionResult,
> {
    Seq::new(ids.len(), |i: int| pause_item(after_pauses(s, ids, caller, i), ids[i]))
}

/// What a bulk cancellation does with one subscription.
pub open spec fn cancel_item(s: State, id: u32) -> BulkSubscriptionResult {
    if !s.subscriptions.dom().contains(id) {
        failed(id, Error::NotFound)
    } else {
        let sub = s.subscriptions[id];
        if sub.status is Cancelled {
            succeeded(id, false)
        } else if sub.status is Archived {
            failed(id, Error::InvalidStatusTransition)
        } else if s.is_over(sub) {
            failed(id, Error::SubscriptionExpired)
        } else {
            match close_refusal(s, CancellationPolicy::Refund, id) {
                Some(e) => failed(id, e),
                None => succeeded(id, true),
            }
        }
    }
}

/// The state after a bulk cancellation dealt with one subscription: its balance is paid back.
pub open spec fn cancelled_in_turn(s: State, id: u32, caller: Address) -> State {
    if cancel_item(s, id).changed {
        let done = closed(s, CancellationPolicy::Refund, id, caller);
        State { events: s.events + done.events, ..done }
    } else {
        s
    }
}

/// The state after the first `n` items of a bulk cancellation.
pub open spec fn after_cancels(s: State, ids: Seq<u32>, caller: Address, n: int) -> State
    decreases n,
{
    if n <= 0 {
        s
    } else {
        cancelled_in_turn(after_cancels(s, ids, caller, n - 1), ids[n - 1], caller)
    }
}

/// What a bulk cancellation returns.
pub open spec fn cancel_results(s: State, ids: Seq<u32>, caller: Address) -> Seq<
    BulkSubscriptionResult,
> {
    Seq::new(ids.len(), |i: int| cancel_item(after_cancels(s, ids, caller, i), ids[i]))
}

/// What a bulk deposit does with one subscription. The caller pays.
pub open spec fn deposit_item(s: State, id: u32, amount: i128, caller: Address) -> BulkSubscriptionResult {
    if s.config.locked {
        failed(id, Error::Reentrancy)
    } else if s.config.emergency_stop {
        failed(id, Error::EmergencyStopActive)
    } else if !s.subscriptions.dom().contains(id) {
        failed(id, Error::NotFound)
    } else {
        match deposit_refusal(s, id, caller, amount) {
            Some(e) => failed(id, e),
            None => succeeded(id, true),
        }
    }
}

/// The state after a bulk deposit dealt with one subscription.
pub open spec fn deposited_in_turn(s: State, id: u32, amount: i128, caller: Address) -> State {
    if deposit_item(s, id, amount, caller).changed {
        let done = deposited(s, id, caller, amount, None);
        State { events: s.events + done.events, ..done }
    } else {
        s
    }
}

/// The state after the first `n` items of a bulk deposit.
pub open spec fn after_deposits(s: State, entries: Seq<(u32, i128)>, caller: Address, n: int) -> State
    decreases n,
{
    if n <= 0 {
        s
    } else {
        deposited_in_turn(
            after_deposits(s, entries, caller, n - 1),
            entries[n - 1].0,
            entries[n - 1].1,
            caller,
        )
    }
}

/// What a bulk deposit returns.
pub open spec fn deposit_results(s: State, entries: Seq<(u32, i128)>, caller: Address) -> Seq<
    BulkSubscriptionResult,
> {
    Seq::new(
        entries.len(),
        |i: int|
            deposit_item(
                after_deposits(s, entries, caller, i),
                entries[i].0,
                entries[i].1,
                caller,
            ),
    )
}

/// How many of the first `n` results changed something.
pub open spec fn change_count(results: Seq<BulkSubscriptionResult>, n: int) -> int
    decreases n,
{
    if n <= 0 {
        0
    } else {
        change_count(results, n - 1) + (if results[n - 1].changed {
            1int
        } else {
            0
        })
    }
}

/// The state in which a bulk call has been summed up.
pub open spec fn summed_up(s: State, caller: Address, results: Seq<BulkSubscriptionResult>) -> State {
    State {
        events: s.events.push(
            Event::BulkOperation {
                caller,
                processed: results.len() as u64,
                changed: change_count(results, results.len() as int) as u64,
            },
        ),
        ..s
    }
}

/// How a bulk call ends. Without items it does nothing at all, whoever asks.
pub open spec fn bulk_ends(
    r: Result<Vec<BulkSubscriptionResult>, Error>,
    before: State,
    after: State,
    len: int,
    refusal: Option<Error>,
    results: Seq<BulkSubscriptionResult>,
    done: State,
    caller: Address,
) -> bool {
    if len == 0 {
        r matches Ok(list) && list@.len() == 0 && after == before
    } else {
        match refusal {
            Some(e) => r == Err::<Vec<BulkSubscriptionResult>, Error>(e) && after == before.quiet(),
            None => r matches Ok(list) && list@ == results && after == summed_up(
                done,
                caller,
                results,
            ),
        }
    }
}

fn result_of(r: &Result<ChargeExecutionResult, Error>) -> (out: BatchChargeResult)
    ensures
        out == item_result(*r),
{
    match r {
        Ok(v) => match v {
            ChargeExecutionResult::InsufficientBalance => BatchChargeResult {
                success: false,
                error_code: Error::InsufficientBalance.to_code(),
            },
            ChargeExecutionResult::LifetimeCapReached => BatchChargeResult {
                success: false,
                error_code: Error::LifetimeCapReached.to_code(),
            },
            _ => BatchChargeResult { success: true, error_code: 0 },
        },
        Err(e) => BatchChargeResult { success: false, error_code: e.to_code() },
    }
}

fn failure(id: u32, e: Error) -> (r: BulkSubscriptionResult)
    ensures
        r == failed(id, e),
{
    BulkSubscriptionResult {
        subscription_id: id,
        success: false,
        changed: false,
        error_code: e.to_code(),
    }
}

fn success(id: u32, changed: bool) -> (r: BulkSubscriptionResult)
    ensures
        r == succeeded(id, changed),
{
    BulkSubscriptionResult { subscription_id: id, success: true, changed, error_code: 0 }
}

/// A copy of a list of reports.
fn copy_events(events: &Vec<Event>) -> (out: Vec<Event>)
    ensures
        out@ == events@,
{
    let mut out: Vec<Event> = Vec::new();
    append_events(&mut out, events);
    assert(out@ =~= events@);
    out
}

/// Appends a list of reports to another.
fn append_events(out: &mut Vec<Event>, events: &Vec<Event>)
    ensures
        final(out)@ == old(out)@ + events@,
{
    let mut i: usize = 0;
    while i < events.len()
        invariant
            i <= events@.len(),
            out@ == old(out)@ + events@.take(i as int),
        decreases events@.len() - i,
    {
        out.push(events[i]);
        assert(events@.take(i + 1) =~= events@.take(i as int).push(events@[i as int]));
        i += 1;
    }
    assert(events@.take(i as int) =~= events@);
}

impl Vault {
    fn use_nonce(&mut self, signer: &Address, domain: NonceDomain, nonce: u64) -> (r: Result<
        (),
        Error,
    >)
        ensures
            ends(
                r,
                old(self)@,
                final(self)@,
                nonce_refusal(next_nonce(old(self)@.nonces, *signer, domain), nonce),
                (),
                nonce_used(old(self)@, *signer, domain, nonce),
            ),
    {
        self.events.clear();
        match check_and_advance(&mut self.nonces, signer, domain, nonce) {
            Err(e) => Err(e),
            Ok(_) => {
                self.events.push(
                    Event::NonceConsumed { signer: *signer, domain: domain.as_u32(), nonce },
                );
                assert(self@ =~= nonce_used(old(self)@, *signer, domain, nonce));
                Ok(())
            },
        }
    }

    /// Charges a list of subscriptions one after the other.
    fn charge_each(&mut self, ids: &Vec<u32>) -> (results: Vec<BatchChargeResult>)
        ensures
            results@ == charge_results(old(self)@, ids@),
            final(self)@ == after_charges(old(self)@, ids@, ids@.len() as int),
    {
        let ghost s0 = self@;
        let mut results: Vec<BatchChargeResult> = Vec::new();
        let mut i: usize = 0;
        while i < ids.len()
            invariant
                i <= ids@.len(),
                s0 == old(self)@,
                self@ == after_charges(s0, ids@, i as int),
                results@.len() == i,
                forall|j: int|
                    0 <= j < i ==> #[trigger] results@[j] == charge_results(s0, ids@)[j],
            decreases ids@.len() - i,
        {
            let id: u32 = ids[i];
            let ghost si = self@;
            let mut log = copy_events(&self.events);
            let r = self.charge_subscription(id, None);
            results.push(result_of(&r));
            append_events(&mut log, &self.events);
            self.events = log;
            assert(self@ =~= charged_in_turn(si, id));
            i += 1;
        }
        assert(results@ =~= charge_results(s0, ids@));
        results
    }

    /// Charges a list of subscriptions, at the administrator's word.
    pub fn batch_charge(&mut self, ids: &Vec<u32>, nonce: u64) -> (r: Result<
        Vec<BatchChargeResult>,
        Error,
    >)
        ensures
            match batch_refusal(old(self)@, nonce) {
                Some(e) => r == Err::<Vec<BatchChargeResult>, Error>(e) && final(self)@ == old(
                    self,
                )@.quiet(),
                None => {
                    let s = nonce_used(
                        old(self)@,
                        old(self)@.config.admin->0,
                        DOMAIN_BATCH_CHARGE,
                        nonce,
                    );
                    &&& r matches Ok(results)
                    &&& results@ == charge_results(s, ids@)
                    &&& final(self)@ == after_charges(s, ids@, ids@.len() as int)
                },
            },
    {
        let admin = match self.config.admin {
            Some(a) => a,
            None => {
                self.events.clear();
                return Err(Error::Unauthorized);
            },
        };
        if !self.has_authorized(&admin) {
            self.events.clear();
            return Err(Error::AuthRequired);
        }
        if self.config.emergency_stop {
            self.events.clear();
            return Err(Error::EmergencyStopActive);
        }
        match self.use_nonce(&admin, DOMAIN_BATCH_CHARGE, nonce) {
            Err(e) => Err(e),
            Ok(_) => Ok(self.charge_each(ids)),
        }
    }

    /// Charges a list of subscriptions, at the operator's word.
    pub fn operator_batch_charge(&mut self, operator: &Address, ids: &Vec<u32>, nonce: u64) -> (r: Result<
        Vec<BatchChargeResult>,
        Error,
    >)
        ensures
            match operator_batch_refusal(old(self)@, *operator, nonce) {
                Some(e) => r == Err::<Vec<BatchChargeResult>, Error>(e) && final(self)@ == old(
                    self,
                )@.quiet(),
                None => {
                    let s = nonce_used(
                        old(self)@,
                        *operator,
                        DOMAIN_OPERATOR_BATCH_CHARGE,
                        nonce,
                    );
                    &&& r matches Ok(results)
                    &&& results@ == charge_results(s, ids@)
                    &&& final(self)@ == after_charges(s, ids@, ids@.len() as int)
                },
            },
    {
        match self.check_operator(operator) {
            Some(e) => {
                self.events.clear();
                return Err(e);
            },
            None => {},
        }
        if self.config.emergency_stop {
            self.events.clear();
            return Err(Error::EmergencyStopActive);
        }
        match self.use_nonce(operator, DOMAIN_OPERATOR_BATCH_CHARGE, nonce) {
            Err(e) => Err(e),
            Ok(_) => Ok(self.charge_each(ids)),
        }
    }

    /// Charges a subscription for an interval, at the operator's word.
    pub fn operator_charge_subscription(&mut self, operator: &Address, id: u32) -> (r: Result<
        ChargeExecutionResult,
        Error,
    >)
        ensures
            match operator_refusal(old(self)@, *operator) {
                Some(e) => r == Err::<ChargeExecutionResult, Error>(e) && final(self)@ == old(
                    self,
                )@.quiet(),
                None => r == charge_answer(old(self)@, id, None) && final(self)@ == charge_done(
                    old(self)@,
                    id,
                    None,
                ),
            },
    {
        match self.check_operator(operator) {
            Some(e) => {
                self.events.clear();
                Err(e)
            },
            None => self.charge_subscription(id, None),
        }
    }

    /// Charges a subscription for usage, at the operator's word.
    pub fn operator_charge_usage(&mut self, operator: &Address, id: u32, amount: i128) -> (r: Result<
        UsageChargeResult,
        Error,
    >)
        ensures
            ends(
                r,
                old(self)@,
                final(self)@,
                match operator_refusal(old(self)@, *operator) {
                    Some(e) => Some(e),
                    None => usage_refusal(old(self)@, id, amount, None),
                },
                usage_value(old(self)@, id, amount),
                usage_charged(old(self)@, id, amount, None),
            ),
    {
        match self.check_operator(operator) {
            Some(e) => {
                self.events.clear();
                Err(e)
            },
            None => self.charge_usage(id, amount),
        }
    }

    /// Charges a subscription for usage, once per reference, at the operator's word.
    pub fn operator_charge_usage_with_ref(
        &mut self,
        operator: &Address,
        id: u32,
        amount: i128,
        reference: &[u8],
    ) -> (r: Result<UsageChargeResult, Error>)
        ensures
            ends(
                r,
                old(self)@,
                final(self)@,
                match operator_refusal(old(self)@, *operator) {
                    Some(e) => Some(e),
                    None => usage_refusal(old(self)@, id, amount, Some(reference@)),
                },
                usage_value(old(self)@, id, amount),
                usage_charged(old(self)@, id, amount, Some(reference@)),
            ),
    {
        match self.check_operator(operator) {
            Some(e) => {
                self.events.clear();
                Err(e)
            },
            None => self.charge_usage_with_reference(id, amount, reference),
        }
    }

    /// Lets a bulk call begin, or says why not.
    fn begin_bulk(&mut self, caller: &Address, len: usize, nonce: u64) -> (r: Result<(), Error>)
        ensures
            ends(
                r,
                old(self)@,
                final(self)@,
                bulk_refusal(old(self)@, *caller, len as int, nonce),
                (),
                nonce_used(old(self)@, *caller, DOMAIN_OPERATOR_BATCH_CHARGE, nonce),
            ),
    {
        let authorized = self.has_authorized(caller);
        if len > BATCH_MAX_SIZE as usize {
            self.events.clear();
            return Err(Error::BatchTooLarge);
        }
        if !authorized {
            self.events.clear();
            return Err(Error::AuthRequired);
        }
        if !names(&self.config.admin, caller) && !names(&self.config.operator, caller) {
            self.events.clear();
            return Err(Error::Unauthorized);
        }
        self.use_nonce(caller, DOMAIN_OPERATOR_BATCH_CHARGE, nonce)
    }

    /// Sums a bulk call up.
    fn sum_up(&mut self, caller: &Address, results: &Vec<BulkSubscriptionResult>)
        ensures
            final(self)@ == summed_up(old(self)@, *caller, results@),
    {
        let mut changed: u64 = 0;
        let mut i: usize = 0;
        while i < results.len()
            invariant
                i <= results@.len(),
                changed <= i,
                changed == change_count(results@, i as int),
            decreases results@.len() - i,
        {
            if results[i].changed {
                changed += 1;
            }
            i += 1;
        }
        self.events.push(
            Event::BulkOperation { caller: *caller, processed: results.len() as u64, changed },
        );
    }

    fn pause_one(&mut self, id: u32, caller: &Address) -> (r: BulkSubscriptionResult)
        ensures
            r == pause_item(old(self)@, id),
            final(self)@ == paused_in_turn(old(self)@, id, *caller),
    {
        let mut sub = match self.subscriptions.get(&id) {
            Some(s) => *s,
            None => {
                return failure(id, Error::NotFound);
            },
        };
        if sub.status == SubscriptionStatus::Cancelled || sub.status
            == SubscriptionStatus::Archived {
            return failure(id, Error::InvalidStatusTransition);
        }
        if self.has_run_out(&sub) {
            return failure(id, Error::SubscriptionExpired);
        }
        if sub.status == SubscriptionStatus::Paused {
            return success(id, false);
        }
        sub.status = SubscriptionStatus::Paused;
        self.subscriptions.insert(id, sub);
        self.events.push(Event::SubscriptionPaused { subscription_id: id, by: *caller });
        assert(self@ =~= paused_in_turn(old(self)@, id, *caller));
        success(id, true)
    }

    /// Pauses a list of subscriptions.
    pub fn bulk_pause_subscriptions(&mut self, caller: &Address, ids: &Vec<u32>, nonce: u64) -> (r: Result<
        Vec<BulkSubscriptionResult>,
        Error,
    >)
        ensures
            ({
                let s = nonce_used(old(self)@, *caller, DOMAIN_OPERATOR_BATCH_CHARGE, nonce);
                bulk_ends(
                    r,
                    old(self)@,
                    final(self)@,
                    ids@.len() as int,
                    bulk_refusal(old(self)@, *caller, ids@.len() as int, nonce),
                    pause_results(s, ids@, *caller),
                    after_pauses(s, ids@, *caller, ids@.len() as int),
                    *caller,
                )
            }),
    {
        let mut results: Vec<BulkSubscriptionResult> = Vec::new();
        if ids.len() == 0 {
            return Ok(results);
        }
        match self.begin_bulk(caller, ids.len(), nonce) {
            Err(e) => {
                return Err(e);
            },
            Ok(_) => {},
        }
        let ghost s0 = self@;
        let mut i: usize = 0;
        while i < ids.len()
            invariant
                i <= ids@.len(),
                self@ == after_pauses(s0, ids@, *caller, i as int),
                results@.len() == i,
                forall|j: int|
                    0 <= j < i ==> #[trigger] results@[j] == pause_results(s0, ids@, *caller)[j],
            decreases ids@.len() - i,
        {
            let item = self.pause_one(ids[i], caller);
            results.push(item);
            i += 1;
        }
        assert(results@ =~= pause_results(s0, ids@, *caller));
        self.sum_up(caller, &results);
        Ok(results)
    }

    fn cancel_one(&mut self, id: u32, caller: &Address) -> (r: BulkSubscriptionResult)
        ensures
            r == cancel_item(old(self)@, id),
            final(self)@ == cancelled_in_turn(old(self)@, id, *caller),
    {
        let sub = match self.subscriptions.get(&id) {
            Some(s) => *s,
            None => {
                return failure(id, Error::NotFound);
            },
        };
        if sub.status == SubscriptionStatus::Cancelled {
            return success(id, false);
        }
        if sub.status == SubscriptionStatus::Archived {
            return failure(id, Error::InvalidStatusTransition);
        }
        if self.has_run_out(&sub) {
            return failure(id, Error::SubscriptionExpired);
        }
        match self.check_close(CancellationPolicy::Refund, id, &sub) {
            Some(e) => failure(id, e),
            None => {
                let mut log = copy_events(&self.events);
                self.close(CancellationPolicy::Refund, id, &sub, caller);
                append_events(&mut log, &self.events);
                self.events = log;
                assert(self@ =~= cancelled_in_turn(old(self)@, id, *caller));
                success(id, true)
            },
        }
    }

    /// Cancels a list of subscriptions and pays their balances back.
    pub fn bulk_cancel_subscriptions(&mut self, caller: &Address, ids: &Vec<u32>, nonce: u64) -> (r: Result<
        Vec<BulkSubscriptionResult>,
        Error,
    >)
        ensures
            ({
                let s = nonce_used(old(self)@, *caller, DOMAIN_OPERATOR_BATCH_CHARGE, nonce);
                bulk_ends(
                    r,
                    old(self)@,
                    final(self)@,
                    ids@.len() as int,
                    bulk_refusal(old(self)@, *caller, ids@.len() as int, nonce),
                    cancel_results(s, ids@, *caller),
                    after_cancels(s, ids@, *caller, ids@.len() as int),
                    *caller,
                )
            }),
    {
        let mut results: Vec<BulkSubscriptionResult> = Vec::new();
        if ids.len() == 0 {
            return Ok(results);
        }
        match self.begin_bulk(caller, ids.len(), nonce) {
            Err(e) => {
                return Err(e);
            },
            Ok(_) => {},
        }
        let ghost s0 = self@;
        let mut i: usize = 0;
        while i < ids.len()
            invariant
                i <= ids@.len(),
                self@ == after_cancels(s0, ids@, *caller, i as int),
                results@.len() == i,
                forall|j: int|
                    0 <= j < i ==> #[trigger] results@[j] == cancel_results(s0, ids@, *caller)[j],
            decreases ids@.len() - i,
        {
            let item = self.cancel_one(ids[i], caller);
            results.push(item);
            i += 1;
        }
        assert(results@ =~= cancel_results(s0, ids@, *caller));
        self.sum_up(caller, &results);
        Ok(results)
    }

    fn deposit_one(&mut self, id: u32, amount: i128, caller: &Address) -> (r: BulkSubscriptionResult)
        ensures
            r == deposit_item(old(self)@, id, amount, *caller),
            final(self)@ == deposited_in_turn(old(self)@, id, amount, *caller),
    {
        if self.config.locked {
            return failure(id, Error::Reentrancy);
        }
        if self.config.emergency_stop {
            return failure(id, Error::EmergencyStopActive);
        }
        let sub = match self.subscriptions.get(&id) {
            Some(s) => *s,
            None => {
                return failure(id, Error::NotFound);
            },
        };
        match self.check_deposit(id, &sub, caller, amount) {
            Some(e) => failure(id, e),
            None => {
                let mut log = copy_events(&self.events);
                self.apply_deposit(id, &sub, caller, amount, &None);
                append_events(&mut log, &self.events);
                self.events = log;
                assert(self@ =~= deposited_in_turn(old(self)@, id, amount, *caller));
                success(id, true)
            },
        }
    }

    /// Deposits into a list of subscriptions from the caller.
    pub fn bulk_deposit_funds(&mut self, caller: &Address, entries: &Vec<(u32, i128)>, nonce: u64) -> (r: Result<
        Vec<BulkSubscriptionResult>,
        Error,
    >)
        ensures
            ({
                let s = nonce_used(old(self)@, *caller, DOMAIN_OPERATOR_BATCH_CHARGE, nonce);
                bulk_ends(
                    r,
                    old(self)@,
                    final(self)@,
                    entries@.len() as int,
                    bulk_refusal(old(self)@, *caller, entries@.len() as int, nonce),
                    deposit_results(s, entries@, *caller),
                    after_deposits(s, entries@, *caller, entries@.len() as int),
                    *caller,
                )
            }),
    {
        let mut results: Vec<BulkSubscriptionResult> = Vec::new();
        if entries.len() == 0 {
            return Ok(results);
        }
        match self.begin_bulk(caller, entries.len(), nonce) {
            Err(e) => {
                return Err(e);
            },
            Ok(_) => {},
        }
        let ghost s0 = self@;
        let mut i: usize = 0;
        while i < entries.len()
            invariant
                i <= entries@.len(),
                self@ == after_deposits(s0, entries@, *caller, i as int),
                results@.len() == i,
                forall|j: int|
                    0 <= j < i ==> #[trigger] results@[j] == deposit_results(
                        s0,
                        entries@,
                        *caller,
                    )[j],
            decreases entries@.len() - i,
        {
            let (id, amount) = entries[i];
            let item = self.deposit_one(id, amount, caller);
            results.push(item);
            i += 1;
        }
        assert(results@ =~= deposit_results(s0, entries@, *caller));
        self.sum_up(caller, &results);
        Ok(results)
    }
}

} // verus!
