//! The transfers that calls of the vault make, in two steps: a call does everything else first and
//! locks the vault, and only then the token is given control. The lock is lifted when it gives
//! control back.
use crate::token::{transfer, transfer_refusal, transferred};
use crate::types::{Address, Error};
use crate::vault::{Config, State, Vault};
use vstd::prelude::*;

verus! {

/// A transfer that a call has decided on.
#[derive(Clone, Copy, Debug, PartialEq, Eq)]
pub struct Payment {
    pub token: Address,
    pub from: Address,
    pub to: Address,
    pub amount: i128,
}

impl Payment {
    /// Why the token would refuse the transfer.
    pub open spec fn refusal(self, tokens: Map<(Address, Address), i128>) -> Option<Error> {
        transfer_refusal(tokens, self.token, self.from, self.to, self.amount)
    }

    /// The balances after the transfer.
    pub open spec fn made(self, tokens: Map<(Address, Address), i128>) -> Map<
        (Address, Address),
        i128,
    > {
        transferred(tokens, self.token, self.from, self.to, self.amount)
    }
}

/// The state that a call which started in `before` and is to end in `done` leaves after its first
/// step. Where a transfer is to be made, everything is done but the transfer, and the vault is
/// locked: in this state the token is given control. Where none is, the call is over.
pub open spec fn handed_over(before: State, payment: Option<Payment>, done: State) -> State {
    if payment is Some {
        State { tokens: before.tokens, config: Config { locked: true, ..done.config }, ..done }
    } else {
        done
    }
}

/// The state after the token made the transfer, if there is one, and gave control back.
pub open spec fn completed(s: State, payment: Option<Payment>) -> State {
    match payment {
        Some(p) => State {
            tokens: p.made(s.tokens),
            config: Config { locked: false, ..s.config },
            ..s
        },
        None => s,
    }
}

/// How the first step of a call ends: refused, with nothing changed and nothing reported, or with
/// the transfer that is to be made, in the state that the token is given control in.
pub open spec fn hands_over(
    r: Result<Option<Payment>, Error>,
    before: State,
    after: State,
    refusal: Option<Error>,
    payment: Option<Payment>,
    done: State,
) -> bool {
    match refusal {
        Some(e) => r == Err::<Option<Payment>, Error>(e) && after == before.quiet(),
        None => r == Ok::<Option<Payment>, Error>(payment) && after == handed_over(
            before,
            payment,
            done,
        ),
    }
}

/// The two steps together make the whole call. In between, while the token has control, the vault
/// is locked, the tokens are where they were, and every record is as the call leaves it.
pub proof fn law_two_steps_make_a_call(before: State, payment: Payment, done: State)
    requires
        done.tokens == payment.made(before.tokens),
        !done.config.locked,
    ensures
        ({
            let waiting = handed_over(before, Some(payment), done);
            &&& waiting.config.locked
            &&& waiting.tokens == before.tokens
            &&& (State { tokens: done.tokens, config: done.config, ..waiting }) == done
            &&& completed(waiting, Some(payment)) == done
        }),
{
    let waiting = handed_over(before, Some(payment), done);
    assert((State { tokens: done.tokens, config: done.config, ..waiting }) =~= done);
    assert(completed(waiting, Some(payment)) =~= done);
}

impl Vault {
    /// The second step of a call: the token makes the transfer, and the lock is lifted.
    pub(crate) fn finish_payment(&mut self, payment: &Option<Payment>)
        requires
            payment matches Some(p) ==> p.refusal(old(self)@.tokens) is None,
        ensures
            final(self)@ == completed(old(self)@, *payment),
    {
        match payment {
            Some(p) => {
                let _ = transfer(&mut self.tokens, &p.token, &p.from, &p.to, p.amount);
                self.config.locked = false;
            },
            None => {},
        }
        assert(self@ =~= completed(old(self)@, *payment));
    }
}

} // verus!
