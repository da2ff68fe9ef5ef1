//! How an amount is prorated, reduced by a fee and split between payees.
use crate::types::{Address, Error};
use vstd::arithmetic::div_mod::{
    lemma_div_is_ordered, lemma_div_multiples_vanish_fancy, lemma_fundamental_div_mod,
    lemma_div_pos_is_pos, lemma_hoist_over_denominator,
};
use vstd::arithmetic::mul::{lemma_mul_is_commutative, lemma_mul_nonnegative};
use vstd::prelude::*;

verus! {

/// A whole, in basis points.
pub const BPS_SCALE: u32 = 10_000;

/// The part `num / den` of `amount`, rounded down.
pub open spec fn part_of(amount: int, num: int, den: int) -> int {
    (amount * num) / den
}

/// A part of a whole is neither negative nor more than the whole.
pub proof fn lemma_part_bounds(amount: int, num: int, den: int)
    requires
        0 <= amount,
        0 <= num <= den,
        0 < den,
    ensures
        0 <= part_of(amount, num, den) <= amount,
{
    lemma_mul_nonnegative(amount, num);
    lemma_div_pos_is_pos(amount * num, den);
    assert(amount * num <= amount * den) by (nonlinear_arith)
        requires
            0 <= amount,
            num <= den,
    ;
    lemma_div_is_ordered(amount * num, amount * den, den);
    assert(amount * den / den == amount) by {
        lemma_div_multiples_vanish_fancy(amount, 0, den);
        assert(den * amount + 0 == amount * den) by {
            lemma_mul_is_commutative(den, amount);
        }
    }
}

/// A larger numerator gives at least as large a part.
pub proof fn lemma_part_monotone(amount: int, num: int, num2: int, den: int)
    requires
        0 <= amount,
        num <= num2,
        0 < den,
    ensures
        part_of(amount, num, den) <= part_of(amount, num2, den),
{
    assert(amount * num <= amount * num2) by (nonlinear_arith)
        requires
            0 <= amount,
            num <= num2,
    ;
    lemma_div_is_ordered(amount * num, amount * num2, den);
}

/// The part `num / den` of `amount`, rounded down, without overflow on the way.
pub fn mul_div(amount: i128, num: u64, den: u64) -> (r: i128)
    requires
        0 <= amount,
        num <= den,
        0 < den,
    ensures
        r == part_of(amount as int, num as int, den as int),
        0 <= r <= amount,
{
    let a: u128 = amount as u128;
    let d: u128 = den as u128;
    let n: u128 = num as u128;
    let q: u128 = a / d;
    let rem: u128 = a % d;
    proof {
        lemma_fundamental_div_mod(a as int, d as int);
        assert(q * n <= q * d) by (nonlinear_arith)
            requires
                n <= d,
                0 <= q,
        ;
        assert(d * q == q * d) by {
            lemma_mul_is_commutative(d as int, q as int);
        }
        assert(q * n <= a);
        assert(rem * n <= u64::MAX * u64::MAX) by (nonlinear_arith)
            requires
                0 <= rem < d,
                d <= u64::MAX,
                0 <= n <= u64::MAX,
        ;
        lemma_part_bounds(amount as int, num as int, den as int);
    }
    let whole: u128 = q * n;
    let low: u128 = rem * n;
    let frac: u128 = low / d;
    proof {
        // a * n == d * (q * n) + rem * n
        assert(a * n == d * (q * n) + rem * n) by (nonlinear_arith)
            requires
                a == d * q + rem,
        ;
        lemma_hoist_over_denominator(low as int, whole as int, d as nat);
        assert(low as int / d as int + whole as int == (low + whole * d) / d as int);
        assert(whole * d == d * (q * n)) by {
            lemma_mul_is_commutative(whole as int, d as int);
        }
    }
    (whole + frac) as i128
}

/// What the first charge of a cycle comes to when `remaining` of `interval` seconds are left.
pub open spec fn prorated(amount: int, interval: int, remaining: int) -> int {
    if remaining >= interval {
        amount
    } else {
        part_of(amount, remaining, interval)
    }
}

/// The first charge of a cycle of which `remaining_seconds` are left, rounded down.
pub fn calculate_prorated_first_charge(
    amount: i128,
    interval: u64,
    remaining_seconds: u64,
) -> (r: Result<i128, Error>)
    ensures
        r == (if amount < 0 {
            Err::<i128, Error>(Error::InvalidAmount)
        } else if interval == 0 {
            Err::<i128, Error>(Error::InvalidInput)
        } else {
            Ok::<i128, Error>(
                prorated(amount as int, interval as int, remaining_seconds as int) as i128,
            )
        }),
{
    if amount < 0 {
        return Err(Error::InvalidAmount);
    }
    if interval == 0 {
        return Err(Error::InvalidInput);
    }
    if remaining_seconds >= interval {
        return Ok(amount);
    }
    Ok(mul_div(amount, remaining_seconds, interval))
}

/// A prorated charge lies between nothing and the full amount.
pub proof fn law_proration_bounds(amount: int, interval: int, remaining: int)
    requires
        0 <= amount,
        0 < interval,
        0 <= remaining,
    ensures
        0 <= prorated(amount, interval, remaining) <= amount,
        remaining == 0 ==> prorated(amount, interval, remaining) == 0,
        remaining >= interval ==> prorated(amount, interval, remaining) == amount,
{
    if remaining < interval {
        lemma_part_bounds(amount, remaining, interval);
        if remaining == 0 {
            assert(amount * 0 == 0) by (nonlinear_arith);
            assert(0int / interval == 0) by {
                lemma_div_multiples_vanish_fancy(0, 0, interval);
                assert(interval * 0 + 0 == 0) by (nonlinear_arith);
            }
        }
    }
}

/// More remaining time never makes the first charge smaller.
pub proof fn law_proration_monotone(amount: int, interval: int, less: int, more: int)
    requires
        0 <= amount,
        0 < interval,
        0 <= less <= more,
    ensures
        prorated(amount, interval, less) <= prorated(amount, interval, more),
{
    if more < interval {
        lemma_part_monotone(amount, less, more, interval);
    } else if less < interval {
        lemma_part_bounds(amount, less, interval);
    }
}

/// What is left of `amount` after a fee of `bps` basis points, rounded down.
pub open spec fn net_of(amount: int, bps: int) -> int {
    part_of(amount, BPS_SCALE - bps, BPS_SCALE as int)
}

/// What is left of `amount` after a fee of `bps` basis points, rounded down.
pub fn net_of_fee(amount: i128, bps: u32) -> (net: i128)
    requires
        0 <= amount,
        bps <= BPS_SCALE,
    ensures
        net == net_of(amount as int, bps as int),
        0 <= net <= amount,
{
    mul_div(amount, (BPS_SCALE - bps) as u64, BPS_SCALE as u64)
}

/// The sum of the weights of the first `n` payees.
pub open spec fn weight_sum(entries: Seq<(Address, u32)>, n: int) -> int
    decreases n,
{
    if n <= 0 {
        0
    } else {
        weight_sum(entries, n - 1) + entries[n - 1].1
    }
}

/// A split names at least one payee, gives each a weight, and the weights make up a whole.
pub open spec fn valid_split(entries: Seq<(Address, u32)>) -> bool {
    &&& entries.len() > 0
    &&& forall|i: int| 0 <= i < entries.len() ==> (#[trigger] entries[i]).1 > 0
    &&& weight_sum(entries, entries.len() as int) == BPS_SCALE
}

/// What the payees from the second up to the `n`th get together.
pub open spec fn later_shares(amount: int, entries: Seq<(Address, u32)>, n: int) -> int
    decreases n,
{
    if n <= 1 {
        0
    } else {
        later_shares(amount, entries, n - 1) + part_of(
            amount,
            entries[n - 1].1 as int,
            BPS_SCALE as int,
        )
    }
}

/// What payee `i` gets: its weight's part rounded down, and the first payee all that is left.
pub open spec fn share_of(amount: int, entries: Seq<(Address, u32)>, i: int) -> int {
    if i == 0 {
        amount - later_shares(amount, entries, entries.len() as int)
    } else {
        part_of(amount, entries[i].1 as int, BPS_SCALE as int)
    }
}

/// What the first `n` payees get together.
pub open spec fn share_sum(amount: int, entries: Seq<(Address, u32)>, n: int) -> int
    decreases n,
{
    if n <= 0 {
        0
    } else {
        share_sum(amount, entries, n - 1) + share_of(amount, entries, n - 1)
    }
}

proof fn lemma_weight_sum_nonneg(entries: Seq<(Address, u32)>, n: int)
    ensures
        0 <= weight_sum(entries, n),
    decreases n,
{
    if n > 0 {
        lemma_weight_sum_nonneg(entries, n - 1);
    }
}

proof fn lemma_weight_sum_monotone(entries: Seq<(Address, u32)>, i: int, n: int)
    requires
        0 <= i <= n,
    ensures
        weight_sum(entries, i) <= weight_sum(entries, n),
    decreases n,
{
    if i < n {
        lemma_weight_sum_monotone(entries, i, n - 1);
    }
}

/// Rounded parts of weights add up to at most the part of the summed weights.
proof fn lemma_later_shares_bound(amount: int, entries: Seq<(Address, u32)>, n: int)
    requires
        0 <= amount,
        1 <= n <= entries.len(),
    ensures
        0 <= later_shares(amount, entries, n),
        later_shares(amount, entries, n) * BPS_SCALE <= amount * (weight_sum(entries, n)
            - entries[0].1),
    decreases n,
{
    reveal_with_fuel(weight_sum, 2);
    reveal_with_fuel(later_shares, 2);
    if n == 1 {
        assert(amount * 0 == 0) by (nonlinear_arith);
    } else {
        lemma_later_shares_bound(amount, entries, n - 1);
        let w = entries[n - 1].1 as int;
        let p = part_of(amount, w, BPS_SCALE as int);
        lemma_mul_nonnegative(amount, w);
        lemma_div_pos_is_pos(amount * w, BPS_SCALE as int);
        assert(p * BPS_SCALE <= amount * w) by {
            lemma_fundamental_div_mod(amount * w, BPS_SCALE as int);
        }
        let before = weight_sum(entries, n - 1) - entries[0].1;
        assert(amount * (before + w) == amount * before + amount * w) by (nonlinear_arith);
    }
}

/// No payee of a valid split gets less than nothing or more than the amount.
pub proof fn lemma_share_bounds(amount: int, entries: Seq<(Address, u32)>, i: int)
    requires
        0 <= amount,
        valid_split(entries),
        0 <= i < entries.len(),
    ensures
        0 <= share_of(amount, entries, i) <= amount,
{
    let n = entries.len() as int;
    lemma_weight_sum_nonneg(entries, i);
    lemma_weight_sum_monotone(entries, i + 1, n);
    if i == 0 {
        lemma_later_shares_bound(amount, entries, n);
        let w = weight_sum(entries, n) - entries[0].1;
        assert(entries[0].1 > 0);
        assert(later_shares(amount, entries, n) <= amount) by (nonlinear_arith)
            requires
                later_shares(amount, entries, n) * 10_000 <= amount * w,
                w <= 10_000,
                0 <= amount,
        ;
    } else {
        lemma_part_bounds(amount, entries[i].1 as int, BPS_SCALE as int);
    }
}

proof fn lemma_share_sum(amount: int, entries: Seq<(Address, u32)>, n: int)
    requires
        1 <= n <= entries.len(),
    ensures
        share_sum(amount, entries, n) == amount - later_shares(
            amount,
            entries,
            entries.len() as int,
        ) + later_shares(amount, entries, n),
    decreases n,
{
    reveal_with_fuel(share_sum, 2);
    if n > 1 {
        lemma_share_sum(amount, entries, n - 1);
    }
}

/// The shares of a valid split add up to the amount: nothing is lost to rounding.
pub proof fn law_shares_add_up(amount: int, entries: Seq<(Address, u32)>)
    requires
        0 <= amount,
        valid_split(entries),
    ensures
        share_sum(amount, entries, entries.len() as int) == amount,
        forall|i: int|
            0 <= i < entries.len() ==> 0 <= #[trigger] share_of(amount, entries, i) <= amount,
{
    lemma_share_sum(amount, entries, entries.len() as int);
    assert forall|i: int| 0 <= i < entries.len() implies 0 <= #[trigger] share_of(amount, entries, i)
        <= amount by {
        lemma_share_bounds(amount, entries, i);
    }
}

/// Whether a list of payees is a valid split.
pub fn is_valid_split(entries: &Vec<(Address, u32)>) -> (b: bool)
    ensures
        b == valid_split(entries@),
{
    if entries.len() == 0 {
        return false;
    }
    let mut sum: u32 = 0;
    let mut i: usize = 0;
    while i < entries.len()
        invariant
            i <= entries@.len(),
            sum == weight_sum(entries@, i as int),
            sum <= BPS_SCALE,
            forall|j: int| 0 <= j < i ==> (#[trigger] entries@[j]).1 > 0,
        decreases entries@.len() - i,
    {
        let w: u32 = entries[i].1;
        if w == 0 {
            assert(entries@[i as int].1 == 0);
            return false;
        }
        if w > BPS_SCALE - sum {
            proof {
                lemma_weight_sum_monotone(entries@, i + 1, entries@.len() as int);
            }
            return false;
        }
        sum = sum + w;
        i += 1;
    }
    sum == BPS_SCALE
}

/// What each payee of a split gets of `amount`.
pub fn split_shares(amount: i128, entries: &Vec<(Address, u32)>) -> (shares: Vec<(Address, i128)>)
    requires
        0 <= amount,
        valid_split(entries@),
    ensures
        shares@.len() == entries@.len(),
        forall|i: int|
            0 <= i < entries@.len() ==> (#[trigger] shares@[i]).0 == entries@[i].0 && shares@[i].1
                == share_of(amount as int, entries@, i),
{
    let n: usize = entries.len();
    let mut later: i128 = 0;
    let mut tail: Vec<(Address, i128)> = Vec::new();
    proof {
        lemma_share_bounds(amount as int, entries@, 0);
    }
    let mut i: usize = 1;
    while i < n
        invariant
            1 <= i <= n,
            n == entries@.len(),
            0 <= amount,
            valid_split(entries@),
            0 <= later,
            later == later_shares(amount as int, entries@, i as int),
            tail@.len() == i - 1,
            forall|j: int|
                1 <= j < i ==> (#[trigger] tail@[j - 1]).0 == entries@[j].0 && tail@[j - 1].1
                    == share_of(amount as int, entries@, j),
        decreases n - i,
    {
        proof {
            lemma_weight_sum_nonneg(entries@, i as int);
            lemma_weight_sum_monotone(entries@, i + 1, n as int);
            lemma_later_shares_bound(amount as int, entries@, i + 1);
            let w = weight_sum(entries@, i + 1) - entries@[0].1;
            assert(later_shares(amount as int, entries@, i + 1) <= amount) by (nonlinear_arith)
                requires
                    later_shares(amount as int, entries@, i + 1) * 10_000 <= amount * w,
                    w <= 10_000,
                    0 <= amount,
            ;
        }
        let share: i128 = mul_div(amount, entries[i].1 as u64, BPS_SCALE as u64);
        later = later + share;
        tail.push((entries[i].0, share));
        i += 1;
    }
    let mut shares: Vec<(Address, i128)> = Vec::new();
    proof {
        lemma_later_shares_bound(amount as int, entries@, n as int);
    }
    shares.push((entries[0].0, amount - later));
    let mut k: usize = 0;
    while k < tail.len()
        invariant
            n == entries@.len(),
            tail@.len() == n - 1,
            k <= tail@.len(),
            shares@.len() == k + 1,
            forall|j: int|
                1 <= j < n ==> (#[trigger] tail@[j - 1]).0 == entries@[j].0 && tail@[j - 1].1
                    == share_of(amount as int, entries@, j),
            forall|j: int|
                0 <= j <= k ==> (#[trigger] shares@[j]).0 == entries@[j].0 && shares@[j].1
                    == share_of(amount as int, entries@, j),
        decreases tail@.len() - k,
    {
        assert(tail@[(k + 1) - 1].0 == entries@[k + 1].0);
        shares.push(tail[k]);
        k += 1;
    }
    shares
}

} // verus!
