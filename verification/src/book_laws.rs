//! What the books say: statements, totals owed, recoveries, exports, notes and request keys.
use crate::accounts::{
    finite, holdings, stakes, total_escrowed, total_merchant, total_prepaid, Stake,
};
use crate::agreement_laws::{
    is_accepted, law_accepted_tokens_are_those_listed, party_cause, party_may,
};
use crate::encoding::be32;
use crate::events::Event;
use crate::funding_laws::{short_of_tokens, wallet_full};
use crate::governance_laws::lemma_total_same;
use crate::idempotency::{
    history, recorded, remembered, served, sha256_digest, IDEM_HISTORY,
};
use crate::measures::{agrees, moved, wallet};
use crate::metadata::{
    key_count, metadata_set, one_per_key, set_refusal, signed_refusal, signed_set, PayloadState,
};
use crate::reconciliation::{
    books, lemma_books, lemma_normalized_monotone, normalized, one_per_sub, page_refusal, proof_of,
    query_of, recon_of, recon_refusal, recover_refusal, recovered, scan_count, scan_sum, scanned,
    shortened, PrepaidQueryRequest,
};
use crate::records::{CancellationEscrow, DisputeEscrowLedger, RecoveryReason, Subscription};
use crate::settings_laws::{counter, counts_one, rules};
use crate::snapshots::{
    number_after, page_end, restore_refusal, restored, summaries, with_balances, with_summaries,
    MerchantBalanceEntry, SubscriptionSummary,
};
use crate::statements::{
    amount_sum, compacted, compaction_refusal, kind_sum, page_of, pruned_of,
    retained_of, BillingChargeKind, BillingStatement, StatementState,
};
use crate::subscriptions::decimals_of;
use crate::totals::total;
use crate::types::{lemma_bytes32_view, vault, Address, Bytes32, Error, Symbol};
use crate::vault::{Config, State};
use vstd::prelude::*;

verus! {

/// A page of statements holds those from the offset on, at most as many as were asked for and as
/// many as there are, from the oldest or from the newest.
pub proof fn law_pages(list: Seq<BillingStatement>, offset: int, limit: int, newest_first: bool)
    requires
        0 <= offset,
        0 <= limit,
    ensures
        ({
            let page = page_of(list, offset, limit, newest_first);
            &&& page.len() <= limit
            &&& offset + page.len() <= list.len() || page.len() == 0
            &&& page.len() < limit ==> list.len() <= offset + page.len()
            &&& forall|i: int|
                0 <= i < page.len() && !newest_first ==> #[trigger] page[i] == list[offset + i]
            &&& forall|i: int|
                0 <= i < page.len() && newest_first ==> #[trigger] page[i] == list[list.len()
                    - offset - i - 1]
        }),
{
}

/// Sums over statements: nothing comes to nothing, one more adds its amount, to the whole and to its
/// kind alone, and the kinds make up the whole.
pub proof fn law_statement_sums(list: Seq<BillingStatement>, one: BillingStatement, kind: BillingChargeKind)
    ensures
        amount_sum(Seq::empty()) == 0,
        kind_sum(Seq::empty(), kind) == 0,
        amount_sum(list.push(one)) == amount_sum(list) + one.amount,
        kind_sum(list.push(one), kind) == kind_sum(list, kind) + (if one.kind == kind {
            one.amount as int
        } else {
            0
        }),
        amount_sum(list) == kind_sum(list, BillingChargeKind::Interval) + kind_sum(
            list,
            BillingChargeKind::Usage,
        ) + kind_sum(list, BillingChargeKind::OneOff),
    decreases list.len(),
{
    assert(list.push(one).drop_last() =~= list);
    if list.len() > 0 {
        law_statement_sums(list.drop_last(), list.last(), kind);
    }
}

/// A subscription's statements, oldest first.
pub open spec fn statements_of(book: StatementState, id: u32) -> Seq<BillingStatement> {
    if book.lists.dom().contains(id) {
        book.lists[id]
    } else {
        Seq::empty()
    }
}

/// How many of a subscription's statements are beyond the number that is to be kept.
pub open spec fn surplus_statements(book: StatementState, id: u32, keep: Option<u32>) -> int {
    let most = if keep is Some {
        keep->0 as int
    } else {
        book.retention as int
    };
    if statements_of(book, id).len() > most {
        statements_of(book, id).len() - most
    } else {
        0
    }
}

/// Whether the oldest statements of a subscription, `drop` of them, were dropped, counted and added
/// up, in all and by kind, and the span that they cover noted. The others are kept in their order,
/// and no other subscription was touched.
pub open spec fn compacts(
    book: StatementState,
    after: StatementState,
    id: u32,
    drop: int,
) -> bool {
    let list = statements_of(book, id);
    let dropped = list.subrange(0, drop);
    let a = book.aggregate(id);
    let b = after.aggregate(id);
    &&& statements_of(after, id) == list.subrange(drop, list.len() as int)
    &&& b.pruned_count == a.pruned_count + drop
    &&& b.total_amount == a.total_amount + amount_sum(dropped)
    &&& b.totals.interval == a.totals.interval + kind_sum(dropped, BillingChargeKind::Interval)
    &&& b.totals.usage == a.totals.usage + kind_sum(dropped, BillingChargeKind::Usage)
    &&& b.totals.one_off == a.totals.one_off + kind_sum(dropped, BillingChargeKind::OneOff)
    &&& drop > 0 ==> b.newest_period_end == Some(list[drop - 1].period_end)
    &&& drop > 0 && a.oldest_period_start is Some ==> b.oldest_period_start
        == a.oldest_period_start
    &&& drop > 0 && a.oldest_period_start is None ==> b.oldest_period_start == Some(
        list[0].period_start,
    )
    &&& drop == 0 ==> after == book
    &&& after.retention == book.retention
    &&& forall|other: u32|
        other != id ==> #[trigger] statements_of(after, other) == statements_of(book, other)
    &&& forall|other: u32|
        other != id ==> #[trigger] after.aggregate(other) == book.aggregate(other)
}

/// A compaction drops the oldest statements beyond the number that was asked for, and keeps the rest.
pub proof fn law_compaction(book: StatementState, id: u32, keep: Option<u32>)
    ensures
        ({
            let list = statements_of(book, id);
            let drop = surplus_statements(book, id, keep);
            &&& pruned_of(book, id, keep) == list.subrange(0, drop)
            &&& retained_of(book, id, keep) == list.subrange(drop, list.len() as int)
            &&& match compaction_refusal(book, id, keep) {
                Some(Error::InvalidAmount) => exists|i: int|
                    0 <= i < drop && (#[trigger] list[i]).amount < 0,
                Some(Error::Overflow) => true,
                Some(_) => false,
                None => {
                    &&& forall|i: int| 0 <= i < drop ==> (#[trigger] list[i]).amount >= 0
                    &&& compacts(book, compacted(book, id, keep), id, drop)
                },
            }
        }),
{
    let list = statements_of(book, id);
    let pruned = pruned_of(book, id, keep);
    let drop = surplus_statements(book, id, keep);
    assert(book.list(id) == list);
    assert(pruned =~= list.subrange(0, drop));
    assert(retained_of(book, id, keep) =~= list.subrange(drop, list.len() as int));
    if compaction_refusal(book, id, keep) == Some(Error::InvalidAmount) {
        let i = choose|i: int| 0 <= i < pruned.len() && (#[trigger] pruned[i]).amount < 0;
        assert(list[i].amount < 0);
    }
    if compaction_refusal(book, id, keep) is None {
        assert forall|i: int| 0 <= i < drop implies (#[trigger] list[i]).amount >= 0 by {
            assert(pruned[i].amount >= 0);
        }
        lemma_sums_not_negative(pruned);
        assert(kind_sum(pruned, BillingChargeKind::Interval) >= 0);
        assert(kind_sum(pruned, BillingChargeKind::Usage) >= 0);
        assert(kind_sum(pruned, BillingChargeKind::OneOff) >= 0);
        let after = compacted(book, id, keep);
        if drop == 0 {
            assert(pruned =~= Seq::empty());
            assert(list.subrange(0, list.len() as int) =~= list);
        }
        assert(compacts(book, after, id, drop));
    }
}

proof fn lemma_sums_not_negative(list: Seq<BillingStatement>)
    requires
        forall|i: int| 0 <= i < list.len() ==> (#[trigger] list[i]).amount >= 0,
    ensures
        amount_sum(list) >= 0,
        forall|k: BillingChargeKind| #[trigger] kind_sum(list, k) >= 0,
    decreases list.len(),
{
    if list.len() > 0 {
        let front = list.drop_last();
        assert forall|i: int| 0 <= i < front.len() implies (#[trigger] front[i]).amount >= 0 by {
            assert(list[i].amount >= 0);
        }
        lemma_sums_not_negative(front);
        assert(list[list.len() - 1].amount >= 0);
        assert forall|k: BillingChargeKind| #[trigger] kind_sum(list, k) >= 0 by {
            assert(kind_sum(front, k) >= 0);
        }
    }
}

/// What a subscription has prepaid in a token.
pub open spec fn prepaid_under(token: Address) -> spec_fn(u32, Subscription) -> int {
    |id: u32, sub: Subscription|
        if sub.token == token {
            sub.prepaid_balance as int
        } else {
            0
        }
}

/// What a merchant can withdraw in a token.
pub open spec fn credit_under(token: Address) -> spec_fn((Address, Address), i128) -> int {
    |k: (Address, Address), v: i128|
        if k.1 == token {
            v as int
        } else {
            0
        }
}

/// What a sub-account can withdraw in a token.
pub open spec fn sub_credit_under(token: Address) -> spec_fn((Address, Symbol, Address), i128) -> int {
    |k: (Address, Symbol, Address), v: i128|
        if k.2 == token {
            v as int
        } else {
            0
        }
}

/// What an escrow holds in a token.
pub open spec fn escrow_under(token: Address) -> spec_fn(u32, CancellationEscrow) -> int {
    |id: u32, e: CancellationEscrow|
        if e.token == token {
            e.amount as int
        } else {
            0
        }
}

/// What waits in a dispute in a token.
pub open spec fn dispute_under(token: Address) -> spec_fn(u64, DisputeEscrowLedger) -> int {
    |id: u64, l: DisputeEscrowLedger|
        if l.token == token {
            l.original_amount - l.total_disbursed
        } else {
            0
        }
}

/// All that the vault owes in a token: to subscribers, to merchants and their sub-accounts, and
/// what waits in escrows and disputes.
pub open spec fn all_owed(s: State, token: Address) -> int {
    total(s.subscriptions, prepaid_under(token)) + (total(s.merchant_balances, credit_under(token))
        + total(s.sub_balances, sub_credit_under(token))) + (total(s.escrows, escrow_under(token))
        + total(s.dispute_ledgers, dispute_under(token)))
}

proof fn lemma_owed(s: State, token: Address)
    requires
        finite(s),
    ensures
        total_prepaid(s, token) == total(s.subscriptions, prepaid_under(token)),
        total_merchant(s, token) == total(s.merchant_balances, credit_under(token)) + total(
            s.sub_balances,
            sub_credit_under(token),
        ),
        total_escrowed(s, token) == total(s.escrows, escrow_under(token)) + total(
            s.dispute_ledgers,
            dispute_under(token),
        ),
{
    lemma_total_same(s.subscriptions, stakes::<u32, Subscription>(token), prepaid_under(token));
    lemma_total_same(
        s.merchant_balances,
        stakes::<(Address, Address), i128>(token),
        credit_under(token),
    );
    lemma_total_same(
        s.sub_balances,
        stakes::<(Address, Symbol, Address), i128>(token),
        sub_credit_under(token),
    );
    lemma_total_same(s.escrows, stakes::<u32, CancellationEscrow>(token), escrow_under(token));
    lemma_total_same(
        s.dispute_ledgers,
        stakes::<u64, DisputeEscrowLedger>(token),
        dispute_under(token),
    );
}

/// The books of a token list what is prepaid, what merchants can withdraw and what waits, each in
/// full. What the vault holds beyond that could be recovered; the books balance where it holds at
/// least that much.
pub proof fn law_books(s: State, token: Address)
    requires
        finite(s),
        recon_refusal(s, token) is None,
    ensures
        ({
            let r = recon_of(s, token);
            let p = proof_of(s, token);
            let due = all_owed(s, token);
            let decimals = decimals_of(s, token)->0;
            &&& r.token == token
            &&& r.total_prepaid == total(s.subscriptions, prepaid_under(token))
            &&& r.total_merchant_liabilities == total(s.merchant_balances, credit_under(token))
                + total(s.sub_balances, sub_credit_under(token))
            &&& r.total_escrowed == total(s.escrows, escrow_under(token)) + total(
                s.dispute_ledgers,
                dispute_under(token),
            )
            &&& r.contract_balance == wallet(s, token, vault())
            &&& r.recoverable_amount == (if wallet(s, token, vault()) > due {
                wallet(s, token, vault()) - due
            } else {
                0
            })
            &&& r.is_balanced <==> due <= wallet(s, token, vault())
            &&& r.computed_total == due + r.recoverable_amount
            &&& r.normalized_prepaid == normalized(r.total_prepaid as int, decimals)
            &&& r.normalized_merchant_liab == normalized(
                r.total_merchant_liabilities as int,
                decimals,
            )
            &&& r.normalized_recoverable == normalized(r.recoverable_amount as int, decimals)
            &&& r.normalized_contract_balance == normalized(r.contract_balance as int, decimals)
            &&& r.normalized_computed_total == normalized(r.computed_total as int, decimals)
            &&& p.subscription_count == total(s.subscriptions, in_token(token)) as u64
            &&& p.token == token
            &&& p.contract_balance == r.contract_balance
            &&& p.total_prepaid == r.total_prepaid
            &&& p.total_merchant_liabilities == r.total_merchant_liabilities
            &&& p.computed_recoverable == r.recoverable_amount
            &&& p.is_valid == r.is_balanced
            &&& p.timestamp == s.ledger.timestamp
            &&& p.ledger_sequence == s.ledger.sequence
        }),
{
    lemma_books(s, token);
    lemma_owed(s, token);
    lemma_total_same(s.subscriptions, one_per_sub(token), in_token(token));
    let b = books(s, token)->Ok_0;
    let due = b.0 + b.1 + b.2;
    let free = crate::reconciliation::recoverable(holdings(s, token), due);
    let decimals = decimals_of(s, token)->0;
    lemma_normalized_monotone(b.0 as int, due + free, decimals);
    lemma_normalized_monotone(b.1 as int, due + free, decimals);
    lemma_normalized_monotone(free, due + free, decimals);
    lemma_normalized_monotone(holdings(s, token) as int, due + free, decimals);
    lemma_normalized_monotone(0, b.0 as int, decimals);
    lemma_normalized_monotone(0, b.1 as int, decimals);
    lemma_normalized_monotone(0, free, decimals);
    lemma_normalized_monotone(0, holdings(s, token) as int, decimals);
    lemma_normalized_monotone(0, due + free, decimals);
}

/// The books of a token that is not accepted are not drawn up, nor those of one with a record below
/// nothing.
pub proof fn law_books_are_refused_for_cause(s: State, token: Address)
    requires
        finite(s),
    ensures
        recon_refusal(s, token) == Some(Error::TokenNotAccepted) <==> !is_accepted(s, token),
        recon_refusal(s, token) == Some(Error::InvalidAmount) <==> is_accepted(s, token) && (books(
            s,
            token,
        ) == Err::<(i128, i128, i128), Error>(Error::InvalidAmount) || (books(s, token) is Ok
            && wallet(s, token, vault()) < 0)),
        recon_refusal(s, token) is None ==> is_accepted(s, token) && books(s, token) is Ok && 0
            <= wallet(s, token, vault()),
        books(s, token) is Ok ==> forall|id: u32|
            #[trigger] s.subscriptions.dom().contains(id) && s.subscriptions[id].token == token
                ==> s.subscriptions[id].prepaid_balance >= 0,
        books(s, token) is Ok ==> forall|k: (Address, Address)|
            #[trigger] s.merchant_balances.dom().contains(k) && k.1 == token
                ==> s.merchant_balances[k] >= 0,
{
    law_accepted_tokens_are_those_listed(s, token);
    if books(s, token) is Ok {
        assert forall|id: u32|
            #[trigger] s.subscriptions.dom().contains(id) && s.subscriptions[id].token
                == token implies s.subscriptions[id].prepaid_balance >= 0 by {
            assert(!<Subscription as Stake<u32>>::flawed(id, s.subscriptions[id], token));
        }
        assert forall|k: (Address, Address)|
            #[trigger] s.merchant_balances.dom().contains(k) && k.1
                == token implies s.merchant_balances[k] >= 0 by {
            assert(!<i128 as Stake<(Address, Address)>>::flawed(
                k,
                s.merchant_balances[k],
                token,
            ));
        }
    }
}

/// The books of several tokens are drawn up where those of each can be, and are refused for the
/// first that cannot.
pub proof fn law_books_of_several_tokens(s: State, start: int, n: int)
    requires
        0 <= n,
    ensures
        page_refusal(s, start, n) is None ==> forall|i: int|
            0 <= i < n ==> recon_refusal(s, (#[trigger] s.accepted_tokens[start + i]).0) is None,
        page_refusal(s, start, n) is Some ==> exists|i: int|
            0 <= i < n && recon_refusal(s, (#[trigger] s.accepted_tokens[start + i]).0)
                == page_refusal(s, start, n) && forall|j: int|
                0 <= j < i ==> recon_refusal(s, (#[trigger] s.accepted_tokens[start + j]).0) is None,
    decreases n,
{
    if n > 0 {
        law_books_of_several_tokens(s, start, n - 1);
        if page_refusal(s, start, n - 1) is None {
            let i = n - 1;
            assert(s.accepted_tokens[start + i] == s.accepted_tokens[start + n - 1]);
        }
    }
}

/// One for each subscription in a token.
pub open spec fn in_token(token: Address) -> spec_fn(u32, Subscription) -> int {
    |id: u32, sub: Subscription|
        if sub.token == token {
            1
        } else {
            0
        }
}

/// Only the administrator can recover, once per recovery, and no more than the vault holds beyond
/// what it owes in that token. It goes from the vault to the recipient, and nothing else changes.
pub proof fn law_recovery(
    s: State,
    who: Address,
    token: Address,
    recipient: Address,
    amount: i128,
    tag: Seq<u8>,
    reason: RecoveryReason,
)
    requires
        finite(s),
    ensures
        ({
            let s2 = recovered(s, token, recipient, amount, tag, reason);
            let free = wallet(s, token, vault()) - all_owed(s, token);
            match recover_refusal(s, who, token, recipient, amount, tag) {
                Some(Error::AuthRequired) => !agrees(s, who),
                Some(Error::Unauthorized) => s.config.admin != Some(who),
                Some(Error::Reentrancy) => s.config.locked,
                Some(Error::InvalidRecoveryAmount) => amount <= 0,
                Some(Error::Replay) => s.recovery_ids.dom().contains(tag),
                Some(Error::InsufficientBalance) => free < amount,
                Some(e) => books(s, token) == Err::<(i128, i128, i128), Error>(e) || (e
                    == Error::TokenBalance && short_of_tokens(s, token, vault(), amount as int))
                    || (e == Error::Overflow && wallet_full(
                    s,
                    token,
                    vault(),
                    recipient,
                    amount as int,
                )),
                None => {
                    &&& rules(s, who)
                    &&& !s.config.locked
                    &&& !s.recovery_ids.dom().contains(tag)
                    &&& 0 < amount <= free
                    &&& moved(s, s2, token, vault(), recipient, amount as int)
                    &&& s2.recovery_ids.dom().contains(tag)
                    &&& forall|other: Seq<u8>|
                        other != tag ==> #[trigger] s2.recovery_ids.dom().contains(other)
                            == s.recovery_ids.dom().contains(other)
                    &&& s2 == (State {
                        tokens: s2.tokens,
                        recovery_ids: s2.recovery_ids,
                        events: s2.events,
                        ..s
                    })
                    &&& s2.events == seq![
                        Event::StrandedFundsRecovered { token, recipient, amount, reason },
                    ]
                },
            }
        }),
{
    lemma_books(s, token);
    lemma_owed(s, token);
    let s2 = recovered(s, token, recipient, amount, tag, reason);
    assert(s2 =~= State {
        tokens: s2.tokens,
        recovery_ids: s2.recovery_ids,
        events: s2.events,
        ..s
    });
}

/// Amounts are normalised to nine decimals: an amount with nine stays as it is, one decimal fewer
/// makes it ten times as much, and one more takes a digit off.
pub proof fn law_normal_amounts(x: int, decimals: u32)
    requires
        0 <= x,
        decimals < u32::MAX,
    ensures
        normalized(x, 9) == x,
        decimals < 9 ==> normalized(x, decimals) == 10 * normalized(x, (decimals + 1) as u32),
        9 <= decimals ==> normalized(x, (decimals + 1) as u32) == normalized(x, decimals) / 10,
{
    if decimals < 9 {
        let n = (9 - decimals) as nat;
        let p = crate::reconciliation::pow10((n - 1) as nat);
        assert(crate::reconciliation::pow10(n) == 10 * p);
        assert(x * (10 * p) == 10 * (x * p)) by (nonlinear_arith);
    } else {
        lemma_shortened(x, (decimals - 9) as nat);
    }
}

proof fn lemma_shortened(x: int, n: nat)
    ensures
        shortened(x, n + 1) == shortened(x, n) / 10,
    decreases n,
{
    if n > 0 {
        lemma_shortened(x / 10, (n - 1) as nat);
        assert(shortened(x, n + 1) == shortened(x / 10, n));
        assert(shortened(x, n) == shortened(x / 10, (n - 1) as nat));
    } else {
        reveal_with_fuel(shortened, 3);
    }
}

/// What the subscriptions in a token numbered from `lo` on and below `hi` have prepaid, and how many
/// they are.
pub open spec fn prepaid_between(s: State, token: Address, lo: int, hi: int) -> (int, int)
    decreases hi - lo,
{
    if hi <= lo {
        (0, 0)
    } else {
        let before = prepaid_between(s, token, lo, hi - 1);
        let id = (hi - 1) as u32;
        if s.subscriptions.dom().contains(id) && s.subscriptions[id].token == token {
            (before.0 + s.subscriptions[id].prepaid_balance, before.1 + 1)
        } else {
            before
        }
    }
}

proof fn lemma_scan(s: State, token: Address, start: int, n: int)
    requires
        0 <= n,
    ensures
        scan_sum(s, token, start, n) == prepaid_between(s, token, start, start + n).0,
        scan_count(s, token, start, n) == prepaid_between(s, token, start, start + n).1,
        0 <= scan_count(s, token, start, n) <= n,
    decreases n,
{
    if n > 0 {
        lemma_scan(s, token, start, n - 1);
    }
}

proof fn lemma_scan_not_negative(s: State, token: Address, start: int, n: int)
    requires
        0 <= n,
        !crate::reconciliation::scan_flaw(s, token, start, n),
    ensures
        0 <= scan_sum(s, token, start, n),
    decreases n,
{
    if n > 0 {
        assert(!crate::reconciliation::scan_flaw(s, token, start, n - 1)) by {
            if crate::reconciliation::scan_flaw(s, token, start, n - 1) {
                let i = choose|i: int|
                    0 <= i < n - 1 && #[trigger] scanned(s, token, (start + i) as u32)
                        && s.subscriptions[(start + i) as u32].prepaid_balance < 0;
                assert(scanned(s, token, (start + i) as u32));
            }
        }
        lemma_scan_not_negative(s, token, start, n - 1);
        let i = n - 1;
        if scanned(s, token, (start + i) as u32) {
            assert(s.subscriptions[(start + i) as u32].prepaid_balance >= 0);
        }
    }
}

/// A query over prepaid balances adds up those in the token among the numbers that it looks at: from
/// the start on, at most as many as were asked for and five hundred, up to the last. It says where to
/// go on exactly where numbers are left.
pub proof fn law_prepaid_query(s: State, r: PrepaidQueryRequest)
    ensures
        query_of(s, r) matches Ok(q) ==> {
            let start = r.start_subscription_id as int;
            let last = s.config.next_subscription_id as int;
            let most = if r.scan_limit > 500 {
                500
            } else {
                r.scan_limit as int
            };
            let end = if last <= start {
                start
            } else if last < start + most {
                last
            } else {
                start + most
            };
            &&& q.token == r.token
            &&& q.partial_total == prepaid_between(s, r.token, start, end).0
            &&& q.subscriptions_count == prepaid_between(s, r.token, start, end).1
            &&& q.has_more <==> end < last
            &&& q.has_more ==> q.next_start_id == Some(end as u32)
            &&& !q.has_more ==> q.next_start_id is None
        },
{
    let n = crate::reconciliation::scan_len(s, r);
    lemma_scan(s, r.token, r.start_subscription_id as int, n);
    if query_of(s, r) is Ok {
        lemma_scan_not_negative(s, r.token, r.start_subscription_id as int, n);
    }
}

proof fn lemma_summaries_are(s: State, lo: int, hi: int)
    requires
        0 <= lo,
        hi <= u32::MAX,
    ensures
        ({
            let list = summaries(s, lo, hi);
            &&& forall|i: int|
                0 <= i < list.len() ==> lo <= (#[trigger] list[i]).subscription_id < hi
                    && s.subscriptions.dom().contains(list[i].subscription_id) && list[i].record
                    == s.subscriptions[list[i].subscription_id]
            &&& forall|i: int, j: int|
                0 <= i < j < list.len() ==> (#[trigger] list[i]).subscription_id < (
                #[trigger] list[j]).subscription_id
            &&& forall|id: u32|
                lo <= id < hi && #[trigger] s.subscriptions.dom().contains(id) ==> exists|i: int|
                    0 <= i < list.len() && (#[trigger] list[i]).subscription_id == id
        }),
    decreases hi - lo,
{
    if hi > lo {
        lemma_summaries_are(s, lo, hi - 1);
        let list = summaries(s, lo, hi);
        let before = summaries(s, lo, hi - 1);
        assert forall|id: u32|
            lo <= id < hi && #[trigger] s.subscriptions.dom().contains(id) implies exists|i: int|
            0 <= i < list.len() && (#[trigger] list[i]).subscription_id == id by {
            if id == hi - 1 {
                assert(list[list.len() - 1].subscription_id == id);
            } else {
                let i = choose|i: int|
                    0 <= i < before.len() && (#[trigger] before[i]).subscription_id == id;
                assert(list[i].subscription_id == id);
            }
        }
    }
}

/// An exported page holds every subscription numbered from its start on and below its end, as it
/// stands, in the order of their numbers, and nothing else.
pub proof fn law_exported_page(s: State, start: u32, limit: u32)
    ensures
        ({
            let end = page_end(s, start, limit);
            let list = summaries(s, start as int, end);
            &&& end <= start + limit
            &&& end <= s.config.next_subscription_id
            &&& end == start + limit || end == s.config.next_subscription_id
            &&& forall|i: int|
                0 <= i < list.len() ==> start <= (#[trigger] list[i]).subscription_id < end
                    && s.subscriptions.dom().contains(list[i].subscription_id) && list[i].record
                    == s.subscriptions[list[i].subscription_id]
            &&& forall|i: int, j: int|
                0 <= i < j < list.len() ==> (#[trigger] list[i]).subscription_id < (
                #[trigger] list[j]).subscription_id
            &&& forall|id: u32|
                start <= id < end && #[trigger] s.subscriptions.dom().contains(id) ==> exists|i: int|
                    0 <= i < list.len() && (#[trigger] list[i]).subscription_id == id
        }),
{
    lemma_summaries_are(s, start as int, page_end(s, start, limit));
}

proof fn lemma_with_summaries_keeps(m: Map<u32, Subscription>, list: Seq<SubscriptionSummary>, n: int, id: u32)
    requires
        0 <= n <= list.len(),
    ensures
        ({
            let m2 = with_summaries(m, list, n);
            &&& (forall|i: int| 0 <= i < n ==> (#[trigger] list[i]).subscription_id != id) ==> (
            m2.dom().contains(id) == m.dom().contains(id)) && m2[id] == m[id]
            &&& forall|i: int|
                0 <= i < n && (#[trigger] list[i]).subscription_id == id && (forall|j: int|
                    i < j < n ==> (#[trigger] list[j]).subscription_id != id)
                    ==> m2.dom().contains(id) && m2[id] == list[i].record
        }),
    decreases n,
{
    if n > 0 {
        lemma_with_summaries_keeps(m, list, n - 1, id);
    }
}

proof fn lemma_with_balances_keeps(
    m: Map<(Address, Address), i128>,
    list: Seq<MerchantBalanceEntry>,
    n: int,
    k: (Address, Address),
)
    requires
        0 <= n <= list.len(),
    ensures
        ({
            let m2 = with_balances(m, list, n);
            &&& (forall|i: int|
                0 <= i < n ==> ((#[trigger] list[i]).merchant, list[i].token) != k) ==> (
            m2.dom().contains(k) == m.dom().contains(k)) && m2[k] == m[k]
            &&& forall|i: int|
                0 <= i < n && ((#[trigger] list[i]).merchant, list[i].token) == k && (forall|j: int|
                    i < j < n ==> ((#[trigger] list[j]).merchant, list[j].token) != k)
                    ==> m2.dom().contains(k) && m2[k] == list[i].balance
        }),
    decreases n,
{
    if n > 0 {
        lemma_with_balances_keeps(m, list, n - 1, k);
    }
}

proof fn lemma_number_after_bounds(next: u32, list: Seq<SubscriptionSummary>, n: int)
    requires
        0 <= n <= list.len(),
    ensures
        next <= number_after(next, list, n),
        forall|i: int|
            0 <= i < n ==> (#[trigger] list[i]).subscription_id < number_after(next, list, n),
        number_after(next, list, n) == next || exists|i: int|
            0 <= i < n && (#[trigger] list[i]).subscription_id + 1 == number_after(next, list, n),
    decreases n,
{
    if n > 0 {
        lemma_number_after_bounds(next, list, n - 1);
        assert(list[n - 1].subscription_id == list[n - 1].subscription_id);
    }
}

/// A page is restored by the administrator while the emergency stop is on. Each subscription and
/// each balance that it lists is then on record as listed, every other is as it was, and the next
/// number is above all of them.
pub proof fn law_restoring(
    s: State,
    who: Address,
    start: u32,
    subs: Seq<SubscriptionSummary>,
    balances: Seq<MerchantBalanceEntry>,
    next: Option<u32>,
    id: u32,
    k: (Address, Address),
)
    ensures
        ({
            let s2 = restored(s, subs, balances);
            let outside = exists|i: int|
                0 <= i < subs.len() && ((#[trigger] subs[i]).subscription_id < start || (next is Some
                    && next->0 <= subs[i].subscription_id));
            match restore_refusal(s, who, start, subs, next) {
                Some(Error::AuthRequired) => !agrees(s, who),
                Some(Error::Unauthorized) => s.config.admin != Some(who),
                Some(Error::InvalidInput) => !s.config.emergency_stop || outside,
                Some(Error::Overflow) => exists|i: int|
                    0 <= i < subs.len() && (#[trigger] subs[i]).subscription_id == u32::MAX,
                Some(_) => false,
                None => {
                    &&& rules(s, who)
                    &&& s.config.emergency_stop
                    &&& !outside
                    &&& (forall|i: int|
                        0 <= i < subs.len() ==> (#[trigger] subs[i]).subscription_id != id) ==> (
                    s2.subscriptions.dom().contains(id) == s.subscriptions.dom().contains(id))
                        && s2.subscriptions[id] == s.subscriptions[id]
                    &&& forall|i: int|
                        0 <= i < subs.len() && (#[trigger] subs[i]).subscription_id == id && (
                        forall|j: int|
                            i < j < subs.len() ==> (#[trigger] subs[j]).subscription_id != id)
                            ==> s2.subscriptions.dom().contains(id) && s2.subscriptions[id]
                            == subs[i].record
                    &&& (forall|i: int|
                        0 <= i < balances.len() ==> ((#[trigger] balances[i]).merchant, balances[i].token)
                            != k) ==> (s2.merchant_balances.dom().contains(k)
                        == s.merchant_balances.dom().contains(k)) && s2.merchant_balances[k]
                        == s.merchant_balances[k]
                    &&& forall|i: int|
                        0 <= i < balances.len() && ((#[trigger] balances[i]).merchant, balances[i].token)
                            == k && (forall|j: int|
                            i < j < balances.len() ==> ((#[trigger] balances[j]).merchant, balances[j].token)
                                != k) ==> s2.merchant_balances.dom().contains(k)
                            && s2.merchant_balances[k] == balances[i].balance
                    &&& s.config.next_subscription_id <= s2.config.next_subscription_id
                    &&& forall|i: int|
                        0 <= i < subs.len() ==> (#[trigger] subs[i]).subscription_id
                            < s2.config.next_subscription_id
                    &&& s2.config == (Config {
                        next_subscription_id: s2.config.next_subscription_id,
                        ..s.config
                    })
                    &&& s2 == (State {
                        config: s2.config,
                        subscriptions: s2.subscriptions,
                        merchant_balances: s2.merchant_balances,
                        events: s2.events,
                        ..s
                    })
                },
            }
        }),
{
    let s2 = restored(s, subs, balances);
    lemma_with_summaries_keeps(s.subscriptions, subs, subs.len() as int, id);
    lemma_with_balances_keeps(s.merchant_balances, balances, balances.len() as int, k);
    lemma_number_after_bounds(s.config.next_subscription_id, subs, subs.len() as int);
    assert(s2 =~= State {
        config: s2.config,
        subscriptions: s2.subscriptions,
        merchant_balances: s2.merchant_balances,
        events: s2.events,
        ..s
    });
}

/// One for each key that a subscription has a note under.
pub open spec fn notes_of(id: u32) -> spec_fn((u32, Seq<u8>), Seq<u8>) -> int {
    |k: (u32, Seq<u8>), v: Seq<u8>|
        if k.0 == id {
            1
        } else {
            0
        }
}

/// Whether an error is the right one for a note.
pub open spec fn note_cause(s: State, id: u32, key: Seq<u8>, value: Seq<u8>, e: Error) -> bool {
    match e {
        Error::InvalidInput => key.len() == 0 || value.len() == 0,
        Error::MetadataKeyTooLong => key.len() > 32,
        Error::MetadataValueTooLong => value.len() > 256,
        Error::MetadataKeyLimitReached => !s.metadata.dom().contains((id, key)) && total(
            s.metadata,
            notes_of(id),
        ) >= 10,
        _ => false,
    }
}

/// Whether a note can be kept.
pub open spec fn note_fits(s: State, id: u32, key: Seq<u8>, value: Seq<u8>) -> bool {
    &&& 1 <= key.len() <= 32
    &&& 1 <= value.len() <= 256
    &&& s.metadata.dom().contains((id, key)) || total(s.metadata, notes_of(id)) < 10
}

/// Whether one note was written, and no other touched.
pub open spec fn writes_note(s: State, s2: State, id: u32, key: Seq<u8>, value: Seq<u8>) -> bool {
    &&& s2.metadata.dom().contains((id, key)) && s2.metadata[(id, key)] == value
    &&& forall|k: (u32, Seq<u8>)|
        k != (id, key) ==> (#[trigger] s2.metadata.dom().contains(k) == s.metadata.dom().contains(
            k,
        )) && s2.metadata[k] == s.metadata[k]
}

/// Either party can note something under a subscription: up to ten keys, none too long. Only that
/// note is written.
pub proof fn law_notes(s: State, id: u32, who: Address, key: Seq<u8>, value: Seq<u8>)
    requires
        s.metadata.dom().finite(),
    ensures
        ({
            let s2 = metadata_set(s, id, who, key, value);
            &&& key_count(s, id) == total(s.metadata, notes_of(id))
            &&& match set_refusal(s, id, who, key, value) {
                Some(e) => party_cause(s, id, who, e) || note_cause(s, id, key, value, e),
                None => party_may(s, id, who) && note_fits(s, id, key, value),
            }
            &&& writes_note(s, s2, id, key, value)
            &&& s2.events == seq![Event::MetadataSet { subscription_id: id, by: who }]
            &&& s2 == (State { metadata: s2.metadata, events: s2.events, ..s })
        }),
{
    lemma_total_same(s.metadata, one_per_key(id), notes_of(id));
    let s2 = metadata_set(s, id, who, key, value);
    assert(s2 =~= State { metadata: s2.metadata, events: s2.events, ..s });
}

/// A signed note needs no word of the moment: it is taken from whoever hands it in, if the account
/// whose key signed it is a party, the signature verifies, its time has not come and its nonce is
/// the next. The nonce is then used up.
pub proof fn law_signed_notes(s: State, pubkey: Bytes32, p: PayloadState, verified: bool)
    requires
        s.metadata.dom().finite(),
    ensures
        ({
            let id = p.subscription_id;
            let signer = Address::Account(pubkey);
            let s2 = signed_set(s, pubkey, p);
            match signed_refusal(s, pubkey, p, verified) {
                Some(Error::NotFound) => !s.subscriptions.dom().contains(id),
                Some(Error::Forbidden) => signer != s.subscriptions[id].subscriber && signer
                    != s.subscriptions[id].merchant,
                Some(Error::InvalidSignature) => !verified,
                Some(Error::NonceAlreadyUsed) => p.nonce != counter(s, signer, 3),
                Some(Error::Overflow) => p.nonce == u64::MAX,
                Some(e) => note_cause(s, id, p.key, p.value, e) || (e == Error::InvalidInput
                    && p.expires_at <= s.ledger.timestamp),
                None => {
                    &&& s.subscriptions.dom().contains(id)
                    &&& s.ledger.timestamp < p.expires_at
                    &&& signer == s.subscriptions[id].subscriber || signer
                        == s.subscriptions[id].merchant
                    &&& verified
                    &&& p.nonce == counter(s, signer, 3)
                    &&& note_fits(s, id, p.key, p.value)
                    &&& writes_note(s, s2, id, p.key, p.value)
                    &&& counts_one(s, s2, signer, 3)
                    &&& s2.events == seq![
                        Event::NonceConsumed { signer, domain: 3, nonce: p.nonce },
                        Event::MetadataSetSigned { subscription_id: id, signer, nonce: p.nonce },
                    ]
                    &&& s2 == (State {
                        metadata: s2.metadata,
                        nonces: s2.nonces,
                        events: s2.events,
                        ..s
                    })
                },
            }
        }),
{
    lemma_total_same(s.metadata, one_per_key(p.subscription_id), notes_of(p.subscription_id));
    let s2 = signed_set(s, pubkey, p);
    assert(s2 =~= State {
        metadata: s2.metadata,
        nonces: s2.nonces,
        events: s2.events,
        ..s
    });
}

/// A request that was served with a key is known as served from then on, under the subscription and
/// for the purpose that it was served for. Other subscriptions remember what they did. A request
/// without a key leaves nothing behind and is never known.
pub proof fn law_request_keys(
    rings: Map<u32, Seq<Bytes32>>,
    domain: u32,
    id: u32,
    key: Option<Bytes32>,
    other: u32,
)
    ensures
        ({
            let after = recorded(rings, domain, id, key);
            &&& key is Some ==> served(after, domain, id, key)
            &&& key is None ==> !served(rings, domain, id, key) && after == rings
            &&& other != id ==> (after.dom().contains(other) == rings.dom().contains(other))
                && after[other] == rings[other]
            &&& key is Some ==> after.dom().contains(id) && after[id].len() >= 1
            &&& !rings.dom().contains(id) ==> !served(rings, domain, id, key)
        }),
{
    if key is Some {
        let after = recorded(rings, domain, id, key);
        let h = history(after, id);
        assert(h[h.len() - 1] == crate::idempotency::hashed_key(domain, id, key->0));
    }
}

/// A request is known as served exactly where the digest of its purpose, its subscription and its
/// key is among those that the subscription remembers; serving it puts that digest last.
pub proof fn law_requests_are_known_by_digest(
    rings: Map<u32, Seq<Bytes32>>,
    domain: u32,
    id: u32,
    raw: Bytes32,
    h: Bytes32,
)
    requires
        h@ == sha256_digest(be32(domain) + be32(id) + raw@),
    ensures
        served(rings, domain, id, Some(raw)) <==> rings.dom().contains(id) && exists|i: int|
            0 <= i < rings[id].len() && rings[id][i] == h,
        recorded(rings, domain, id, Some(raw))[id].last() == h,
{
    lemma_bytes32_view(crate::idempotency::hashed_key(domain, id, raw), h);
}

/// A subscription remembers the latest keys, in the order in which they came, and no more than its
/// history holds; the newest is always among them, and only the oldest goes.
pub proof fn law_memory(h: Seq<Bytes32>, key: Bytes32)
    requires
        h.len() <= IDEM_HISTORY,
    ensures
        ({
            let after = remembered(h, key);
            let gone = h.len() + 1 - after.len();
            &&& after.last() == key
            &&& 1 <= after.len() <= IDEM_HISTORY
            &&& after.len() == h.len() + 1 || after.len() == IDEM_HISTORY
            &&& forall|i: int| 0 <= i < after.len() - 1 ==> #[trigger] after[i] == h[i + gone]
        }),
{
}

} // verus!
