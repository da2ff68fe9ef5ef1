//! What the vault owes in a token, and what it holds.
use crate::records::{CancellationEscrow, DisputeEscrowLedger, Subscription};
use crate::table::Table;
use crate::token::held;
use crate::totals::{lemma_listed_total, listed_total, total};
use crate::types::{vault, Address, Error, Key, Symbol};
use crate::vault::State;
use vstd::prelude::*;

verus! {

/// A record under which the vault owes something.
pub trait Stake<K: View>: View + Sized {
    /// What is owed in `token` under the record.
    spec fn stake(k: K::V, v: Self::V, token: Address) -> int;

    /// Whether the record is in `token` but states less than nothing.
    spec fn flawed(k: K::V, v: Self::V, token: Address) -> bool;

    /// Whether the record is flawed, and what is owed under it if it is not.
    fn measure(k: &K, v: &Self, token: &Address) -> (r: (bool, i128))
        ensures
            r.0 == Self::flawed(k@, v@, *token),
            !r.0 ==> r.1 == Self::stake(k@, v@, *token) && r.1 >= 0,
    ;
}

impl Stake<u32> for Subscription {
    open spec fn stake(k: u32, v: Subscription, token: Address) -> int {
        if v.token == token {
            v.prepaid_balance as int
        } else {
            0
        }
    }

    open spec fn flawed(k: u32, v: Subscription, token: Address) -> bool {
        v.token == token && v.prepaid_balance < 0
    }

    fn measure(k: &u32, v: &Subscription, token: &Address) -> (r: (bool, i128)) {
        if v.token.same(token) {
            (v.prepaid_balance < 0, v.prepaid_balance)
        } else {
            (false, 0)
        }
    }
}

impl Stake<(Address, Address)> for i128 {
    open spec fn stake(k: (Address, Address), v: i128, token: Address) -> int {
        if k.1 == token {
            v as int
        } else {
            0
        }
    }

    open spec fn flawed(k: (Address, Address), v: i128, token: Address) -> bool {
        k.1 == token && v < 0
    }

    fn measure(k: &(Address, Address), v: &i128, token: &Address) -> (r: (bool, i128)) {
        if k.1.same(token) {
            (*v < 0, *v)
        } else {
            (false, 0)
        }
    }
}

impl Stake<(Address, Symbol, Address)> for i128 {
    open spec fn stake(k: (Address, Symbol, Address), v: i128, token: Address) -> int {
        if k.2 == token {
            v as int
        } else {
            0
        }
    }

    open spec fn flawed(k: (Address, Symbol, Address), v: i128, token: Address) -> bool {
        k.2 == token && v < 0
    }

    fn measure(k: &(Address, Symbol, Address), v: &i128, token: &Address) -> (r: (bool, i128)) {
        if k.2.same(token) {
            (*v < 0, *v)
        } else {
            (false, 0)
        }
    }
}

impl Stake<u32> for CancellationEscrow {
    open spec fn stake(k: u32, v: CancellationEscrow, token: Address) -> int {
        if v.token == token {
            v.amount as int
        } else {
            0
        }
    }

    open spec fn flawed(k: u32, v: CancellationEscrow, token: Address) -> bool {
        v.token == token && v.amount < 0
    }

    fn measure(k: &u32, v: &CancellationEscrow, token: &Address) -> (r: (bool, i128)) {
        if v.token.same(token) {
            (v.amount < 0, v.amount)
        } else {
            (false, 0)
        }
    }
}

impl Stake<u64> for DisputeEscrowLedger {
    open spec fn stake(k: u64, v: DisputeEscrowLedger, token: Address) -> int {
        if v.token == token {
            v.original_amount - v.total_disbursed
        } else {
            0
        }
    }

    open spec fn flawed(k: u64, v: DisputeEscrowLedger, token: Address) -> bool {
        v.token == token && (v.total_disbursed < 0 || v.original_amount < v.total_disbursed)
    }

    fn measure(k: &u64, v: &DisputeEscrowLedger, token: &Address) -> (r: (bool, i128)) {
        if v.token.same(token) {
            if v.total_disbursed < 0 || v.original_amount < v.total_disbursed {
                (true, 0)
            } else {
                (false, v.original_amount - v.total_disbursed)
            }
        } else {
            (false, 0)
        }
    }
}

/// What is owed in `token` under a record.
pub open spec fn stakes<K: View, V: Stake<K>>(token: Address) -> spec_fn(K::V, V::V) -> int {
    |k: K::V, v: V::V| V::stake(k, v, token)
}

/// What is owed in `token` under all records of a table.
pub open spec fn owed<K: View, V: Stake<K>>(m: Map<K::V, V::V>, token: Address) -> int {
    total(m, stakes::<K, V>(token))
}

/// Whether a table holds a flawed record in `token`.
pub open spec fn has_flaw<K: View, V: Stake<K>>(m: Map<K::V, V::V>, token: Address) -> bool {
    exists|k: K::V| #[trigger] m.dom().contains(k) && V::flawed(k, m[k], token)
}

/// What is owed in `token` under all records of a table, if none is flawed.
pub fn tally<K: Key, V: Stake<K>>(t: &Table<K, V>, token: &Address) -> (r: Result<i128, Error>)
    ensures
        r == tally_of::<K, V>(t@, *token),
        r matches Ok(x) ==> x >= 0,
{
    let n: usize = t.len();
    let ghost m = t@;
    let ghost keys = t.keys();
    let ghost f = stakes::<K, V>(*token);
    let mut sum: Option<i128> = Some(0);
    let mut i: usize = 0;
    while i < n
        invariant
            i <= n,
            n == keys.len(),
            m == t@,
            keys == t.keys(),
            f == stakes::<K, V>(*token),
            0 <= listed_total(m, keys, i as int, f),
            sum == fitted(listed_total(m, keys, i as int, f)),
            forall|j: int| 0 <= j < i ==> !V::flawed(#[trigger] keys[j], m[keys[j]], *token),
        decreases n - i,
    {
        let (k, v) = t.at(i);
        let (flaw, x) = V::measure(k, v, token);
        if flaw {
            assert(m.dom().contains(keys[i as int]));
            return Err(Error::InvalidAmount);
        }
        assert(listed_total(m, keys, i + 1, f) == listed_total(m, keys, i as int, f) + f(
            keys[i as int],
            m[keys[i as int]],
        ));
        sum = match sum {
            Some(s) => s.checked_add(x),
            None => None,
        };
        i += 1;
    }
    proof {
        lemma_listed_total(m, keys, f);
        assert forall|k: K::V| #[trigger] m.dom().contains(k) implies !V::flawed(k, m[k], *token) by {
            let j = choose|j: int| 0 <= j < keys.len() && #[trigger] keys[j] == k;
            assert(!V::flawed(keys[j], m[keys[j]], *token));
        }
    }
    match sum {
        Some(s) => Ok(s),
        None => Err(Error::Overflow),
    }
}

/// A sum that is not negative, if it is an amount.
pub open spec fn fitted(x: int) -> Option<i128> {
    if x <= i128::MAX {
        Some(x as i128)
    } else {
        None
    }
}

/// What is owed in `token` under all records of a table, or why that cannot be told.
pub open spec fn tally_of<K: View, V: Stake<K>>(m: Map<K::V, V::V>, token: Address) -> Result<
    i128,
    Error,
> {
    if has_flaw::<K, V>(m, token) {
        Err(Error::InvalidAmount)
    } else if owed::<K, V>(m, token) > i128::MAX {
        Err(Error::Overflow)
    } else {
        Ok(owed::<K, V>(m, token) as i128)
    }
}

/// What subscribers have prepaid in `token`.
pub open spec fn total_prepaid(s: State, token: Address) -> int {
    owed::<u32, Subscription>(s.subscriptions, token)
}

/// What merchants can withdraw in `token`, their sub-accounts included.
pub open spec fn total_merchant(s: State, token: Address) -> int {
    owed::<(Address, Address), i128>(s.merchant_balances, token) + owed::<
        (Address, Symbol, Address),
        i128,
    >(s.sub_balances, token)
}

/// What is held in escrow in `token`, of cancelled subscriptions and of disputes.
pub open spec fn total_escrowed(s: State, token: Address) -> int {
    owed::<u32, CancellationEscrow>(s.escrows, token) + owed::<u64, DisputeEscrowLedger>(
        s.dispute_ledgers,
        token,
    )
}

/// Everything that the vault owes in `token`.
pub open spec fn liabilities(s: State, token: Address) -> int {
    total_prepaid(s, token) + total_merchant(s, token) + total_escrowed(s, token)
}

/// What the vault holds in `token`.
pub open spec fn holdings(s: State, token: Address) -> i128 {
    held(s.tokens, token, vault())
}

/// What the vault holds in `token` beyond what it owes.
pub open spec fn surplus(s: State, token: Address) -> int {
    holdings(s, token) - liabilities(s, token)
}

/// Whether all tables that say what is owed are finite, as those of a vault are.
pub open spec fn finite(s: State) -> bool {
    &&& s.subscriptions.dom().finite()
    &&& s.merchant_balances.dom().finite()
    &&& s.sub_balances.dom().finite()
    &&& s.escrows.dom().finite()
    &&& s.dispute_ledgers.dom().finite()
    &&& s.tokens.dom().finite()
}

} // verus!
