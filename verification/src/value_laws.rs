//! What the arithmetic of amounts and balances means.
use crate::charge_core::{law_shares_add_up, net_of, part_of, prorated, share_of};
use crate::encoding::{be32, be64};
use crate::idempotency::idem_message;
use crate::malicious_token::MaliciousState;
use crate::measures::{amount_at, shares_out};
use crate::metadata::{metadata_message, PayloadState};
use crate::records::{may_follow, SubscriptionStatus};
use crate::safe_math::clamped;
use crate::token::{held, minted, transfer_refusal, transferred};
use crate::types::{Address, Bytes32, Error};
use vstd::arithmetic::div_mod::lemma_fundamental_div_mod;
use vstd::prelude::*;

verus! {

/// A part of an amount is the largest whole number that is not above the exact part.
pub proof fn law_parts_are_rounded_down(amount: int, num: int, den: int)
    requires
        0 < den,
    ensures
        part_of(amount, num, den) * den <= amount * num,
        amount * num < part_of(amount, num, den) * den + den,
{
    lemma_fundamental_div_mod(amount * num, den);
    let q = (amount * num) / den;
    assert(q * den == den * q) by (nonlinear_arith);
}

/// A first charge is the part of the amount that the rest of the interval is of the whole, rounded
/// down; for a whole interval or more it is the whole amount.
pub proof fn law_first_charge(amount: int, interval: int, rest: int)
    requires
        0 < interval,
        0 <= rest,
        0 <= amount,
    ensures
        interval <= rest ==> prorated(amount, interval, rest) == amount,
        rest < interval ==> prorated(amount, interval, rest) * interval <= amount * rest < prorated(
            amount,
            interval,
            rest,
        ) * interval + interval,
        rest == 0 ==> prorated(amount, interval, rest) == 0,
{
    law_parts_are_rounded_down(amount, rest, interval);
    if rest == 0 {
        assert(amount * 0 == 0) by (nonlinear_arith);
        vstd::arithmetic::div_mod::lemma_div_basics(interval);
    }
}

/// The fee on an amount is its part, rounded up to a whole unit: what is left is rounded down, and
/// fee and rest make the amount.
pub proof fn law_fee_on_an_amount(amount: int, bps: int)
    requires
        0 <= amount,
        0 <= bps <= 10_000,
    ensures
        ({
            let rest = net_of(amount, bps);
            let fee = amount - rest;
            &&& 0 <= rest <= amount
            &&& rest * 10_000 <= amount * (10_000 - bps) < rest * 10_000 + 10_000
            &&& amount * bps <= fee * 10_000 < amount * bps + 10_000
            &&& bps == 0 ==> fee == 0
            &&& bps == 10_000 ==> rest == 0
        }),
{
    let rest = net_of(amount, bps);
    law_parts_are_rounded_down(amount, 10_000 - bps, 10_000);
    crate::charge_core::lemma_part_bounds(amount, 10_000 - bps, 10_000);
    assert(amount * (10_000 - bps) == amount * 10_000 - amount * bps) by (nonlinear_arith);
    assert((amount - rest) * 10_000 == amount * 10_000 - rest * 10_000) by (nonlinear_arith);
    if bps == 0 {
        assert(amount * 0 == 0) by (nonlinear_arith);
    }
}

/// Every payee but the first gets its part of the amount, rounded down; the first gets at least its
/// part, and all that rounding leaves.
pub proof fn law_shares(amount: int, entries: Seq<(Address, u32)>, i: int)
    requires
        0 <= amount,
        shares_out(entries),
        0 <= i < entries.len(),
    ensures
        0 < i ==> share_of(amount, entries, i) * 10_000 <= amount * entries[i].1 < share_of(
            amount,
            entries,
            i,
        ) * 10_000 + 10_000,
        crate::charge_core::share_sum(amount, entries, entries.len() as int) == amount,
        0 <= share_of(amount, entries, i) <= amount,
{
    crate::charge_laws::law_payees_share_out_a_whole(entries);
    law_shares_add_up(amount, entries);
    if 0 < i {
        law_parts_are_rounded_down(amount, entries[i].1 as int, 10_000);
    }
}

/// A sum that leaves the range of an amount stays at the nearer edge; any other is itself.
pub proof fn law_edges(x: int)
    ensures
        i128::MIN <= x <= i128::MAX ==> clamped(x) == x,
        x > i128::MAX ==> clamped(x) == i128::MAX,
        x < i128::MIN ==> clamped(x) == i128::MIN,
{
}

/// A transfer of tokens takes from the one holder what it gives to the other, and touches nobody
/// else and no other token. It is refused where the holder has less, or the other has no room.
pub proof fn law_transfer(
    m: Map<(Address, Address), i128>,
    token: Address,
    from: Address,
    to: Address,
    amount: i128,
    t: Address,
    a: Address,
)
    ensures
        match transfer_refusal(m, token, from, to, amount) {
            Some(Error::TokenBalance) => amount < 0 || amount_at(m, (token, from)) < amount,
            Some(Error::Overflow) => from != to && amount_at(m, (token, to)) + amount > i128::MAX,
            Some(_) => false,
            None => {
                let m2 = transferred(m, token, from, to, amount);
                &&& 0 <= amount <= amount_at(m, (token, from))
                &&& amount_at(m2, (t, a)) == amount_at(m, (t, a)) + (if t == token && a == to {
                    amount as int
                } else {
                    0
                }) - (if t == token && a == from {
                    amount as int
                } else {
                    0
                })
            },
        },
{
}

/// New tokens go to one holder, and to nobody else.
pub proof fn law_minting(
    m: Map<(Address, Address), i128>,
    token: Address,
    to: Address,
    amount: i128,
    t: Address,
    a: Address,
)
    requires
        i128::MIN <= amount_at(m, (token, to)) + amount <= i128::MAX,
    ensures
        amount_at(minted(m, token, to, amount), (t, a)) == amount_at(m, (t, a)) + (if t == token && a
            == to {
            amount as int
        } else {
            0
        }),
{
}

/// In the token that calls back, too, a transfer between two holders takes from the one what it
/// gives to the other, and nobody else is touched. It is noted as an occasion to call back exactly
/// where it goes to the vault.
pub proof fn law_transfer_with_callback(
    s: MaliciousState,
    from: Address,
    to: Address,
    amount: i128,
    a: Address,
)
    requires
        i128::MIN <= s.held(from) - amount <= i128::MAX,
        i128::MIN <= s.held(to) + amount <= i128::MAX,
    ensures
        ({
            let s2 = s.transferred(from, to, amount);
            &&& from != to ==> s2.held(from) == s.held(from) - amount
            &&& s2.held(to) == s.held(to) + amount
            &&& a != from && a != to ==> s2.held(a) == s.held(a)
            &&& s2.vault_contract == s.vault_contract
            &&& s2.reentry_attempted <==> s.reentry_attempted || to == s.vault_contract
        }),
{
}

/// What has ended stays ended: from cancelled or expired the only way is to the archive, and from
/// there none. Nothing becomes active again that was archived, cancelled or expired.
pub proof fn law_ends_are_final(from: SubscriptionStatus, to: SubscriptionStatus)
    ensures
        may_follow(from, from),
        from is Archived ==> (may_follow(from, to) <==> to is Archived),
        from is Cancelled ==> (may_follow(from, to) <==> to is Cancelled || to is Archived),
        from is Expired ==> (may_follow(from, to) <==> to is Expired || to is Archived),
        may_follow(from, SubscriptionStatus::Active) ==> !(from is Archived || from is Cancelled
            || from is Expired),
        !(from is Archived || from is Cancelled || from is Expired) ==> may_follow(
            from,
            SubscriptionStatus::Cancelled,
        ) && may_follow(from, SubscriptionStatus::Expired),
        from is Paused ==> !may_follow(from, SubscriptionStatus::GracePeriod) && !may_follow(
            from,
            SubscriptionStatus::InsufficientBalance,
        ),
{
}

/// The number that four bytes stand for, the most significant first.
pub open spec fn number_of(b: Seq<u8>) -> int {
    b[0] * 16_777_216 + b[1] * 65_536 + b[2] * 256 + b[3]
}

/// Four bytes stand for the number that they were made of, and eight for theirs.
pub proof fn law_encodings_are_read_back(x: u32, y: u64)
    ensures
        be32(x).len() == 4,
        number_of(be32(x)) == x,
        be64(y).len() == 8,
        number_of(be64(y).subrange(0, 4)) * 4_294_967_296 + number_of(be64(y).subrange(4, 8)) == y,
{
    assert(be64(y).subrange(0, 4) =~= be32((y / 0x1_0000_0000) as u32));
    assert(be64(y).subrange(4, 8) =~= be32((y % 0x1_0000_0000) as u32));
    lemma_number(x);
    lemma_number((y / 0x1_0000_0000) as u32);
    lemma_number((y % 0x1_0000_0000) as u32);
}

proof fn lemma_number(x: u32)
    ensures
        number_of(be32(x)) == x,
{
    assert(x / 0x100_0000 <= 0xFF);
}

/// What is signed for a note is, in this order: the mark of such messages, the subscription, the key
/// and the value with their lengths, the nonce, the chain with its length, and the time.
pub proof fn law_message_layout(p: PayloadState, chain: Seq<u8>)
    requires
        p.key.len() <= 32,
        p.value.len() <= 256,
        chain.len() == 32,
    ensures
        ({
            let m = metadata_message(p, chain);
            let k = p.key.len() as int;
            let v = p.value.len() as int;
            &&& m.len() == 26 + 4 + 4 + k + 4 + v + 8 + 4 + 32 + 8
            &&& m.subrange(26, 30) == be32(p.subscription_id)
            &&& m.subrange(30, 34) == be32(p.key.len() as u32)
            &&& m.subrange(34, 34 + k) == p.key
            &&& m.subrange(34 + k, 38 + k) == be32(p.value.len() as u32)
            &&& m.subrange(38 + k, 38 + k + v) == p.value
            &&& m.subrange(38 + k + v, 46 + k + v) == be64(p.nonce)
            &&& m.subrange(46 + k + v, 50 + k + v) == be32(32)
            &&& m.subrange(50 + k + v, 82 + k + v) == chain
            &&& m.subrange(82 + k + v, 90 + k + v) == be64(p.expires_at)
        }),
{
    let m = metadata_message(p, chain);
    let k = p.key.len() as int;
    let v = p.value.len() as int;
    assert(m.subrange(26, 30) =~= be32(p.subscription_id));
    assert(m.subrange(30, 34) =~= be32(p.key.len() as u32));
    assert(m.subrange(34, 34 + k) =~= p.key);
    assert(m.subrange(34 + k, 38 + k) =~= be32(p.value.len() as u32));
    assert(m.subrange(38 + k, 38 + k + v) =~= p.value);
    assert(m.subrange(38 + k + v, 46 + k + v) =~= be64(p.nonce));
    assert(m.subrange(46 + k + v, 50 + k + v) =~= be32(32));
    assert(m.subrange(50 + k + v, 82 + k + v) =~= chain);
    assert(m.subrange(82 + k + v, 90 + k + v) =~= be64(p.expires_at));
}

/// What is hashed for a request key names the purpose and the subscription before the key itself.
pub proof fn law_request_key_layout(domain: u32, id: u32, raw: Bytes32)
    ensures
        ({
            let m = idem_message(domain, id, raw);
            &&& m.len() == 40
            &&& m.subrange(0, 4) == be32(domain)
            &&& m.subrange(4, 8) == be32(id)
            &&& m.subrange(8, 40) == raw@
        }),
{
    let m = idem_message(domain, id, raw);
    assert(m.subrange(0, 4) =~= be32(domain));
    assert(m.subrange(4, 8) =~= be32(id));
    assert(m.subrange(8, 40) =~= raw@);
}

} // verus!
