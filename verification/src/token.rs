//! Token balances and transfers between holders.
use crate::table::Table;
use crate::totals::{lemma_total_insert, total};
use crate::types::{Address, Error, Key};
use vstd::prelude::*;

verus! {

/// Who holds how much: balances by token and holder.
pub type TokenLedger = Table<(Address, Address), i128>;

/// The balance of `who` in `token`: zero unless something was put there.
pub open spec fn held(
    tokens: Map<(Address, Address), i128>,
    token: Address,
    who: Address,
) -> i128 {
    if tokens.dom().contains((token, who)) {
        tokens[(token, who)]
    } else {
        0
    }
}

/// The balance of `who` in `token`.
pub fn token_balance(tokens: &TokenLedger, token: &Address, who: &Address) -> (b: i128)
    ensures
        b == held(tokens@, *token, *who),
{
    match tokens.get(&(*token, *who)) {
        Some(b) => *b,
        None => 0,
    }
}

/// Why a transfer is refused.
pub open spec fn transfer_refusal(
    tokens: Map<(Address, Address), i128>,
    token: Address,
    from: Address,
    to: Address,
    amount: i128,
) -> Option<Error> {
    if amount < 0 || held(tokens, token, from) < amount {
        Some(Error::TokenBalance)
    } else if from != to && held(tokens, token, to) + amount > i128::MAX {
        Some(Error::Overflow)
    } else {
        None
    }
}

/// The balances after a transfer.
pub open spec fn transferred(
    tokens: Map<(Address, Address), i128>,
    token: Address,
    from: Address,
    to: Address,
    amount: i128,
) -> Map<(Address, Address), i128> {
    if from == to {
        tokens
    } else {
        tokens.insert((token, from), (held(tokens, token, from) - amount) as i128).insert(
            (token, to),
            (held(tokens, token, to) + amount) as i128,
        )
    }
}

/// Why a transfer would be refused.
pub fn check_transfer(
    tokens: &TokenLedger,
    token: &Address,
    from: &Address,
    to: &Address,
    amount: i128,
) -> (r: Option<Error>)
    ensures
        r == transfer_refusal(tokens@, *token, *from, *to, amount),
{
    if amount < 0 || token_balance(tokens, token, from) < amount {
        return Some(Error::TokenBalance);
    }
    if !from.same(to) && token_balance(tokens, token, to).checked_add(amount).is_none() {
        return Some(Error::Overflow);
    }
    None
}

/// Moves `amount` from one holder to another.
pub fn transfer(
    tokens: &mut TokenLedger,
    token: &Address,
    from: &Address,
    to: &Address,
    amount: i128,
) -> (r: Result<(), Error>)
    ensures
        match transfer_refusal(old(tokens)@, *token, *from, *to, amount) {
            Some(e) => r == Err::<(), Error>(e) && final(tokens)@ == old(tokens)@,
            None => r == Ok::<(), Error>(()) && final(tokens)@ == transferred(
                old(tokens)@,
                *token,
                *from,
                *to,
                amount,
            ),
        },
{
    match check_transfer(tokens, token, from, to, amount) {
        Some(e) => Err(e),
        None => {
            if !from.same(to) {
                let a: i128 = token_balance(tokens, token, from);
                let b: i128 = token_balance(tokens, token, to);
                tokens.insert((*token, *from), a - amount);
                tokens.insert((*token, *to), b + amount);
            }
            Ok(())
        },
    }
}

/// The balances after `amount` new tokens were given to `to`.
pub open spec fn minted(
    tokens: Map<(Address, Address), i128>,
    token: Address,
    to: Address,
    amount: i128,
) -> Map<(Address, Address), i128> {
    tokens.insert((token, to), (held(tokens, token, to) + amount) as i128)
}

/// Gives `amount` new tokens to `to`.
pub fn mint(tokens: &mut TokenLedger, token: &Address, to: &Address, amount: i128)
    requires
        i128::MIN <= held(old(tokens)@, *token, *to) + amount <= i128::MAX,
    ensures
        final(tokens)@ == minted(old(tokens)@, *token, *to, amount),
{
    let b: i128 = token_balance(tokens, token, to);
    tokens.insert((*token, *to), b + amount);
}

/// The part of a balance that is in `token`.
pub open spec fn in_token(token: Address) -> spec_fn((Address, Address), i128) -> int {
    |k: (Address, Address), v: i128|
        if k.0 == token {
            v as int
        } else {
            0
        }
}

/// What all holders of a token hold together.
pub open spec fn supply(tokens: Map<(Address, Address), i128>, token: Address) -> int {
    total(tokens, in_token(token))
}

/// A transfer neither makes nor destroys tokens, of any kind.
pub proof fn law_transfer_conserves_supply(
    tokens: Map<(Address, Address), i128>,
    token: Address,
    from: Address,
    to: Address,
    amount: i128,
    any: Address,
)
    requires
        tokens.dom().finite(),
        transfer_refusal(tokens, token, from, to, amount) is None,
    ensures
        supply(transferred(tokens, token, from, to, amount), any) == supply(tokens, any),
{
    let f = in_token(any);
    if from != to {
        let t1 = tokens.insert((token, from), (held(tokens, token, from) - amount) as i128);
        lemma_total_insert(tokens, f, (token, from), (held(tokens, token, from) - amount) as i128);
        lemma_total_insert(t1, f, (token, to), (held(tokens, token, to) + amount) as i128);
    }
}

} // verus!
