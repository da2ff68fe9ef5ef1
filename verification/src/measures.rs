//! Plain measures of a state: what each party holds, owes and is owed, read off the records.
use crate::records::Subscription;
use crate::types::{Address, Symbol};
use crate::vault::State;
use vstd::prelude::*;

verus! {

/// The amount under a key, zero where there is none.
pub open spec fn amount_at<K>(m: Map<K, i128>, k: K) -> int {
    if m.dom().contains(k) {
        m[k] as int
    } else {
        0
    }
}

/// What an address holds of a token.
pub open spec fn wallet(s: State, token: Address, who: Address) -> int {
    amount_at(s.tokens, (token, who))
}

/// What an address can withdraw in a token as a merchant.
pub open spec fn credit(s: State, who: Address, token: Address) -> int {
    amount_at(s.merchant_balances, (who, token))
}

/// What a merchant can withdraw in a token from a sub-account.
pub open spec fn sub_credit(s: State, merchant: Address, label: Symbol, token: Address) -> int {
    amount_at(s.sub_balances, (merchant, label, token))
}

/// Whether an address has given its word to the call.
pub open spec fn agrees(s: State, who: Address) -> bool {
    s.allow_all || exists|i: int| 0 <= i < s.signers.len() && s.signers[i] == who
}

/// Whether a subscription has come to one of its bounds, or was found to have.
pub open spec fn run_out(s: State, sub: Subscription) -> bool {
    ||| (sub.expires_at is Some && sub.expires_at->0 <= s.ledger.timestamp)
    ||| (sub.expires_at_ledger is Some && sub.expires_at_ledger->0 <= s.ledger.sequence)
    ||| sub.status is Expired
}

/// Whether a merchant takes no money now, by its own switch.
pub open spec fn switched_off(s: State, who: Address) -> bool {
    s.paused_merchants.dom().contains(who) && s.paused_merchants[who]
}

/// Whether an address is away at a time.
pub open spec fn away(s: State, who: Address, at: int) -> bool {
    s.vacations.dom().contains(who) && s.vacations[who].start_ts <= at && at
        < s.vacations[who].end_ts
}

/// The fee on a merchant's charges, in parts of ten thousand.
pub open spec fn fee_rate(s: State, merchant: Address) -> int {
    let rate = if s.fee_overrides.dom().contains(merchant) {
        s.fee_overrides[merchant] as int
    } else {
        s.config.protocol_fee_bps as int
    };
    if rate > 10_000 {
        10_000
    } else {
        rate
    }
}

/// Whether tokens have gone from one holder to another, and nowhere else.
pub open spec fn moved(
    s: State,
    s2: State,
    token: Address,
    from: Address,
    to: Address,
    amount: int,
) -> bool {
    forall|t: Address, a: Address|
        #[trigger] wallet(s2, t, a) == wallet(s, t, a) + (if t == token && a == to {
            amount
        } else {
            0
        }) - (if t == token && a == from {
            amount
        } else {
            0
        })
}

/// Whether one subscription was replaced, or added, and no other touched.
pub open spec fn only_subscription(s: State, s2: State, id: u32) -> bool {
    &&& s2.subscriptions.dom().contains(id)
    &&& forall|other: u32|
        other != id ==> (#[trigger] s2.subscriptions.dom().contains(other)
            == s.subscriptions.dom().contains(other))
    &&& forall|other: u32|
        other != id && s.subscriptions.dom().contains(other) ==> #[trigger] s2.subscriptions[other]
            == s.subscriptions[other]
}

/// Whether only the balance of a merchant in one token has changed, by an amount.
pub open spec fn only_credit(s: State, s2: State, who: Address, token: Address, change: int) -> bool {
    forall|a: Address, t: Address|
        #[trigger] credit(s2, a, t) == credit(s, a, t) + (if a == who && t == token {
            change
        } else {
            0
        })
}

/// What the parts of ten thousand of a list come to, up to the `n`th.
pub open spec fn parts(entries: Seq<(Address, u32)>, n: int) -> int
    decreases n,
{
    if n <= 0 {
        0
    } else {
        parts(entries, n - 1) + entries[n - 1].1
    }
}

/// Whether a list of payees shares out a whole: it is not empty, everybody on it has a part, and
/// the parts come to ten thousand.
pub open spec fn shares_out(entries: Seq<(Address, u32)>) -> bool {
    &&& 0 < entries.len()
    &&& forall|i: int| 0 <= i < entries.len() ==> 0 < (#[trigger] entries[i]).1
    &&& parts(entries, entries.len() as int) == 10_000
}

} // verus!
