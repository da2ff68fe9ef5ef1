//! One call of each kind that creates, funds, charges or refunds, in a row.
use crate::admin::operator_refusal;
use crate::batch::{after_charges, nonce_used, operator_batch_refusal};
use crate::billing::{
    charge_answer, charge_done, one_off_charged, one_off_refusal, usage_charged, usage_refusal,
};
use crate::deposits::{deposit_done, deposit_funds_refusal};
use crate::lifecycle::{refund_refusal, refunded};
use crate::nonce::DOMAIN_OPERATOR_BATCH_CHARGE;
use crate::scenarios::THIRTY_DAYS;
use crate::subscriptions::{create_refusal, created, from_plan_refusal, plan_terms, Terms};
use crate::types::{vault, vault_address, Address, Error};
use crate::vault::{next, State, Vault};
use vstd::prelude::*;

verus! {

/// What is charged, deposited and refunded.
pub const CALL_AMOUNT: i128 = 1_000_000;

/// What is charged for usage and once.
pub const CALL_USAGE: i128 = 100_000;

/// How many calls are made.
pub const CALL_COUNT: usize = 13;

/// Who and what the calls are about.
#[derive(Clone, Copy)]
pub struct Parties {
    pub subscription_id: u32,
    pub admin: Address,
    pub subscriber: Address,
    pub merchant: Address,
    pub operator: Address,
    pub token: Address,
}

/// The reference of the usage charge.
pub open spec fn usage_reference() -> Seq<u8> {
    seq![117u8, 115, 97, 103, 101, 45, 114, 101, 102]
}

/// The reference of the operator's usage charge.
pub open spec fn operator_reference() -> Seq<u8> {
    seq![111u8, 114, 101, 102]
}

/// The terms of a subscription that one of the calls creates.
pub open spec fn call_terms(p: Parties, token: Address) -> Terms {
    Terms {
        subscriber: p.subscriber,
        merchant: p.merchant,
        token,
        amount: CALL_AMOUNT,
        interval_seconds: THIRTY_DAYS,
        usage_enabled: false,
        lifetime_cap: None,
        expires_at: None,
        expires_at_ledger: None,
        sub_account_label: None,
    }
}

/// Why a call at the operator's word is refused.
pub open spec fn or_operator_refusal(s: State, operator: Address, refusal: Option<Error>) -> Option<
    Error,
> {
    if operator_refusal(s, operator) is Some {
        operator_refusal(s, operator)
    } else {
        refusal
    }
}

/// The error of a result.
pub open spec fn error_of<T>(r: Result<T, Error>) -> Option<Error> {
    match r {
        Ok(_) => None,
        Err(e) => Some(e),
    }
}

/// Why the call at a position is refused.
pub open spec fn call_refusal(s: State, p: Parties, i: int) -> Option<Error> {
    let id = p.subscription_id;
    if i == 0 {
        create_refusal(s, call_terms(p, s.config.token))
    } else if i == 1 {
        create_refusal(s, call_terms(p, p.token))
    } else if i == 2 {
        from_plan_refusal(s, p.subscriber, id)
    } else if i == 3 {
        deposit_funds_refusal(s, id, CALL_AMOUNT, None)
    } else if i == 4 {
        error_of(charge_answer(s, id, None))
    } else if i == 5 {
        usage_refusal(s, id, CALL_USAGE, None)
    } else if i == 6 {
        usage_refusal(s, id, CALL_USAGE, Some(usage_reference()))
    } else if i == 7 {
        one_off_refusal(s, id, p.merchant, CALL_USAGE, None)
    } else if i == 8 {
        operator_batch_refusal(s, p.operator, 0)
    } else if i == 9 {
        or_operator_refusal(s, p.operator, error_of(charge_answer(s, id, None)))
    } else if i == 10 {
        or_operator_refusal(s, p.operator, usage_refusal(s, id, CALL_USAGE, None))
    } else if i == 11 {
        or_operator_refusal(
            s,
            p.operator,
            usage_refusal(s, id, CALL_USAGE, Some(operator_reference())),
        )
    } else {
        refund_refusal(s, p.admin, id, p.subscriber, CALL_AMOUNT)
    }
}

/// The state after the call at a position.
pub open spec fn called(s: State, p: Parties, i: int) -> State {
    let id = p.subscription_id;
    let refusal = call_refusal(s, p, i);
    if i == 0 {
        next(s, refusal, created(s, call_terms(p, s.config.token)))
    } else if i == 1 {
        next(s, refusal, created(s, call_terms(p, p.token)))
    } else if i == 2 {
        next(s, refusal, created(s, plan_terms(s.plans[id], p.subscriber)))
    } else if i == 3 {
        next(s, refusal, deposit_done(s, s.subscriptions[id].subscriber, id, CALL_AMOUNT, None))
    } else if i == 4 {
        charge_done(s, id, None)
    } else if i == 5 {
        next(s, refusal, usage_charged(s, id, CALL_USAGE, None))
    } else if i == 6 {
        next(s, refusal, usage_charged(s, id, CALL_USAGE, Some(usage_reference())))
    } else if i == 7 {
        next(s, refusal, one_off_charged(s, id, CALL_USAGE, None))
    } else if i == 8 {
        next(
            s,
            refusal,
            after_charges(
                nonce_used(s, p.operator, DOMAIN_OPERATOR_BATCH_CHARGE, 0),
                seq![id],
                1,
            ),
        )
    } else if i == 9 {
        next(s, operator_refusal(s, p.operator), charge_done(s, id, None))
    } else if i == 10 {
        next(s, refusal, usage_charged(s, id, CALL_USAGE, None))
    } else if i == 11 {
        next(s, refusal, usage_charged(s, id, CALL_USAGE, Some(operator_reference())))
    } else {
        next(s, refusal, refunded(s, id, CALL_AMOUNT))
    }
}

/// The state after the first `n` calls.
pub open spec fn after_calls(s: State, p: Parties, n: int) -> State
    decreases n,
{
    if n <= 0 {
        s
    } else {
        called(after_calls(s, p, n - 1), p, n - 1)
    }
}

/// What the call at a position returns.
pub open spec fn call_answer(s: State, p: Parties, i: int) -> Result<(), Error> {
    match call_refusal(after_calls(s, p, i), p, i) {
        Some(e) => Err(e),
        None => Ok(()),
    }
}

/// A result without its value.
fn outcome<T>(r: Result<T, Error>) -> (o: Result<(), Error>)
    ensures
        o == (match error_of(r) {
            Some(e) => Err::<(), Error>(e),
            None => Ok::<(), Error>(()),
        }),
{
    match r {
        Ok(_) => Ok(()),
        Err(e) => Err(e),
    }
}

/// Makes the call at a position.
fn make_call(host: &mut Vault, p: &Parties, i: usize) -> (r: Result<(), Error>)
    requires
        i < CALL_COUNT,
    ensures
        r == (match call_refusal(old(host)@, *p, i as int) {
            Some(e) => Err::<(), Error>(e),
            None => Ok::<(), Error>(()),
        }),
        final(host)@ == called(old(host)@, *p, i as int),
{
    let id: u32 = p.subscription_id;
    match i {
        0 => outcome(
            host.create_subscription(
                &p.subscriber,
                &p.merchant,
                CALL_AMOUNT,
                THIRTY_DAYS,
                false,
                None,
                None,
                None,
            ),
        ),
        1 => outcome(
            host.create_subscription_with_token(
                &p.subscriber,
                &p.merchant,
                &p.token,
                CALL_AMOUNT,
                THIRTY_DAYS,
                false,
                None,
                None,
                None,
                None,
            ),
        ),
        2 => outcome(host.create_subscription_from_plan(&p.subscriber, id)),
        3 => host.deposit_funds(id, CALL_AMOUNT, None),
        4 => outcome(host.charge_subscription(id, None)),
        5 => outcome(host.charge_usage(id, CALL_USAGE)),
        6 => {
            let reference: [u8; 9] = [117, 115, 97, 103, 101, 45, 114, 101, 102];
            assert(reference@ =~= usage_reference());
            outcome(host.charge_usage_with_reference(id, CALL_USAGE, &reference))
        },
        7 => host.charge_one_off(id, &p.merchant, CALL_USAGE, None),
        8 => {
            let mut ids: Vec<u32> = Vec::new();
            ids.push(id);
            assert(ids@ =~= seq![id]);
            outcome(host.operator_batch_charge(&p.operator, &ids, 0))
        },
        9 => outcome(host.operator_charge_subscription(&p.operator, id)),
        10 => outcome(host.operator_charge_usage(&p.operator, id, CALL_USAGE)),
        11 => {
            let reference: [u8; 4] = [111, 114, 101, 102];
            assert(reference@ =~= operator_reference());
            outcome(host.operator_charge_usage_with_ref(&p.operator, id, CALL_USAGE, &reference))
        },
        _ => host.partial_refund(&p.admin, id, &p.subscriber, CALL_AMOUNT),
    }
}

/// The parties of the calls, with the administrator on record.
pub open spec fn parties_of(
    s: State,
    sub_id: u32,
    subscriber: Address,
    merchant: Address,
    operator: Address,
    token: Address,
) -> Parties {
    Parties {
        subscription_id: sub_id,
        admin: match s.config.admin {
            Some(admin) => admin,
            None => vault(),
        },
        subscriber,
        merchant,
        operator,
        token,
    }
}

/// Makes one call of each kind, in a row, and returns what came of each.
#[verifier::spinoff_prover]
pub fn run_all_mutation_calls(
    host: &mut Vault,
    sub_id: u32,
    subscriber: &Address,
    merchant: &Address,
    operator: &Address,
    token: &Address,
) -> (results: Vec<Result<(), Error>>)
    ensures
        ({
            let s = old(host)@;
            let p = parties_of(s, sub_id, *subscriber, *merchant, *operator, *token);
            &&& results@ == Seq::new(CALL_COUNT as nat, |i: int| call_answer(s, p, i))
            &&& final(host)@ == after_calls(s, p, CALL_COUNT as int)
        }),
{
    let ghost s = host@;
    let p = Parties {
        subscription_id: sub_id,
        admin: match host.config.admin {
            Some(admin) => admin,
            None => vault_address(),
        },
        subscriber: *subscriber,
        merchant: *merchant,
        operator: *operator,
        token: *token,
    };
    assert(p == parties_of(s, sub_id, *subscriber, *merchant, *operator, *token));
    let mut results: Vec<Result<(), Error>> = Vec::new();
    let mut i: usize = 0;
    while i < CALL_COUNT
        invariant
            i <= CALL_COUNT,
            host@ == after_calls(s, p, i as int),
            results@ == Seq::new(i as nat, |j: int| call_answer(s, p, j)),
        decreases CALL_COUNT - i,
    {
        let r = make_call(host, &p, i);
        results.push(r);
        i += 1;
        assert(results@ =~= Seq::new(i as nat, |j: int| call_answer(s, p, j)));
    }
    results
}

/// While the emergency stop is on, every one of the calls is answered with it, and together they
/// change nothing.
#[verifier::spinoff_prover]
pub proof fn law_emergency_stop_answers_every_call(s: State, p: Parties, i: int)
    requires
        s.config.emergency_stop,
        !s.config.locked,
        s.allow_all,
        s.is_admin(p.admin),
        s.config.operator == Some(p.operator),
        0 <= i < CALL_COUNT,
    ensures
        call_answer(s, p, i) == Err::<(), Error>(Error::EmergencyStopActive),
        after_calls(s, p, i + 1) == s.quiet(),
    decreases i,
{
    if i > 0 {
        law_emergency_stop_answers_every_call(s, p, i - 1);
    }
    let before = after_calls(s, p, i);
    assert(before.quiet() =~= s.quiet());
    assert(called(before, p, i) == before.quiet());
}

} // verus!
