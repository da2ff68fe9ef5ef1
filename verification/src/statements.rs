//! Billing statements of each subscription, and their compaction into running totals.
use crate::table::Table;
use crate::types::{Address, Error};
use vstd::prelude::*;

verus! {

/// What a charge was for.
#[derive(Clone, Copy, Debug, PartialEq, Eq, Structural)]
pub enum BillingChargeKind {
    Interval,
    Usage,
    OneOff,
}

/// One charge on the record.
#[derive(Clone, Copy, Debug, PartialEq, Eq)]
pub struct BillingStatement {
    pub subscription_id: u32,
    pub amount: i128,
    pub merchant: Address,
    pub token: Address,
    pub kind: BillingChargeKind,
    pub period_start: u64,
    pub period_end: u64,
}

impl View for BillingStatement {
    type V = BillingStatement;

    open spec fn view(&self) -> BillingStatement {
        *self
    }
}

/// Amounts by kind of charge.
#[derive(Clone, Copy, Debug, PartialEq, Eq, Structural)]
pub struct ChargeTotals {
    pub interval: i128,
    pub usage: i128,
    pub one_off: i128,
}

/// What is kept of the statements that were pruned.
#[derive(Clone, Copy, Debug, PartialEq, Eq, Structural)]
pub struct CompactedAggregate {
    pub pruned_count: u64,
    pub total_amount: i128,
    pub totals: ChargeTotals,
    pub oldest_period_start: Option<u64>,
    pub newest_period_end: Option<u64>,
}

impl View for CompactedAggregate {
    type V = CompactedAggregate;

    open spec fn view(&self) -> CompactedAggregate {
        *self
    }
}

/// What one compaction did.
#[derive(Clone, Copy, Debug, PartialEq, Eq, Structural)]
pub struct CompactionSummary {
    pub pruned_count: u64,
    pub kept_count: u64,
    pub total_pruned_amount: i128,
}

/// Some of a subscription's statements, and how many there are in all.
#[derive(Debug, PartialEq, Eq)]
pub struct StatementPage {
    pub statements: Vec<BillingStatement>,
    pub total: u64,
}

/// How many statements a compaction keeps when nothing else is configured.
pub const DEFAULT_RETENTION: u32 = 100;

/// All statements on record.
pub struct StatementBook {
    pub lists: Table<u32, Vec<BillingStatement>>,
    pub aggregates: Table<u32, CompactedAggregate>,
    pub retention: u32,
}

/// The statements on record: each subscription's retained statements, oldest first, what was
/// pruned before them, and how many a compaction keeps by default.
#[verifier::ext_equal]
pub struct StatementState {
    pub lists: Map<u32, Seq<BillingStatement>>,
    pub aggregates: Map<u32, CompactedAggregate>,
    pub retention: u32,
}

impl View for StatementBook {
    type V = StatementState;

    open spec fn view(&self) -> StatementState {
        StatementState {
            lists: self.lists@,
            aggregates: self.aggregates@,
            retention: self.retention,
        }
    }
}

/// The aggregate of a subscription of which nothing was pruned.
pub open spec fn empty_aggregate() -> CompactedAggregate {
    CompactedAggregate {
        pruned_count: 0,
        total_amount: 0,
        totals: ChargeTotals { interval: 0, usage: 0, one_off: 0 },
        oldest_period_start: None,
        newest_period_end: None,
    }
}

impl StatementState {
    /// The retained statements of a subscription, oldest first.
    pub open spec fn list(self, subscription_id: u32) -> Seq<BillingStatement> {
        if self.lists.dom().contains(subscription_id) {
            self.lists[subscription_id]
        } else {
            Seq::empty()
        }
    }

    /// What was pruned of a subscription's statements.
    pub open spec fn aggregate(self, subscription_id: u32) -> CompactedAggregate {
        if self.aggregates.dom().contains(subscription_id) {
            self.aggregates[subscription_id]
        } else {
            empty_aggregate()
        }
    }

    /// The record with one more statement at the end of its subscription's list.
    pub open spec fn appended(self, s: BillingStatement) -> StatementState {
        StatementState {
            lists: self.lists.insert(s.subscription_id, self.list(s.subscription_id).push(s)),
            ..self
        }
    }
}

/// The sum of the amounts of a list of statements.
pub open spec fn amount_sum(list: Seq<BillingStatement>) -> int
    decreases list.len(),
{
    if list.len() == 0 {
        0
    } else {
        amount_sum(list.drop_last()) + list.last().amount
    }
}

/// The sum of the amounts of those statements of a list that are of one kind.
pub open spec fn kind_sum(list: Seq<BillingStatement>, kind: BillingChargeKind) -> int
    decreases list.len(),
{
    if list.len() == 0 {
        0
    } else {
        kind_sum(list.drop_last(), kind) + (if list.last().kind == kind {
            list.last().amount as int
        } else {
            0
        })
    }
}

/// Whether a list holds a negative amount.
pub open spec fn has_negative(list: Seq<BillingStatement>) -> bool {
    exists|i: int| 0 <= i < list.len() && (#[trigger] list[i]).amount < 0
}

/// Sums over a concatenation.
pub proof fn lemma_sums_concat(a: Seq<BillingStatement>, b: Seq<BillingStatement>)
    ensures
        amount_sum(a + b) == amount_sum(a) + amount_sum(b),
        forall|k: BillingChargeKind| #[trigger]
            kind_sum(a + b, k) == kind_sum(a, k) + kind_sum(b, k),
    decreases b.len(),
{
    if b.len() == 0 {
        assert(a + b =~= a);
    } else {
        lemma_sums_concat(a, b.drop_last());
        assert((a + b).drop_last() =~= a + b.drop_last());
        assert((a + b).last() == b.last());
        assert forall|k: BillingChargeKind| #[trigger] kind_sum(a + b, k) == kind_sum(a, k)
            + kind_sum(b, k) by {
            assert(kind_sum(a + b.drop_last(), k) == kind_sum(a, k) + kind_sum(b.drop_last(), k));
        }
    }
}

proof fn lemma_sums_monotone(list: Seq<BillingStatement>, n: int)
    requires
        0 <= n <= list.len(),
        !has_negative(list),
    ensures
        amount_sum(list.take(n)) <= amount_sum(list),
        forall|k: BillingChargeKind| #[trigger] kind_sum(list.take(n), k) <= kind_sum(list, k),
    decreases list.len(),
{
    if n == list.len() {
        assert(list.take(n) =~= list);
    } else {
        let front = list.drop_last();
        assert(!has_negative(front)) by {
            if has_negative(front) {
                let i = choose|i: int| 0 <= i < front.len() && (#[trigger] front[i]).amount < 0;
                assert(list[i].amount < 0);
            }
        }
        assert(list[list.len() - 1].amount >= 0);
        lemma_sums_monotone(front, n);
        assert(front.take(n) =~= list.take(n));
    }
}

impl StatementBook {
    /// A record without statements, with the default retention.
    pub fn new() -> (b: StatementBook)
        ensures
            b@ == (StatementState {
                lists: Map::empty(),
                aggregates: Map::empty(),
                retention: DEFAULT_RETENTION,
            }),
    {
        let b = StatementBook {
            lists: Table::new(),
            aggregates: Table::new(),
            retention: DEFAULT_RETENTION,
        };
        assert(b@.lists =~= Map::empty());
        b
    }
}

/// Appends a statement to its subscription's record. A negative amount is refused.
pub fn append_statement(book: &mut StatementBook, statement: BillingStatement) -> (r: Result<(), Error>)
    ensures
        if statement.amount < 0 {
            r == Err::<(), Error>(Error::InvalidAmount) && final(book)@ == old(book)@
        } else {
            r == Ok::<(), Error>(()) && final(book)@ == old(book)@.appended(statement)
        },
{
    if statement.amount < 0 {
        return Err(Error::InvalidAmount);
    }
    let mut list: Vec<BillingStatement> = match book.lists.take(&statement.subscription_id) {
        Some(l) => l,
        None => Vec::new(),
    };
    list.push(statement);
    book.lists.insert(statement.subscription_id, list);
    assert(book@ =~= old(book)@.appended(statement));
    Ok(())
}

/// Sets how many statements a compaction keeps when the call does not say.
pub fn set_retention_config(book: &mut StatementBook, keep_recent: u32)
    ensures
        final(book)@ == (StatementState { retention: keep_recent, ..old(book)@ }),
{
    book.retention = keep_recent;
}

/// What was pruned of a subscription's statements.
pub fn get_compacted_aggregate(book: &StatementBook, subscription_id: u32) -> (a: CompactedAggregate)
    ensures
        a == book@.aggregate(subscription_id),
{
    match book.aggregates.get(&subscription_id) {
        Some(a) => *a,
        None => CompactedAggregate {
            pruned_count: 0,
            total_amount: 0,
            totals: ChargeTotals { interval: 0, usage: 0, one_off: 0 },
            oldest_period_start: None,
            newest_period_end: None,
        },
    }
}

/// How many statements a page holds.
pub open spec fn page_len(len: int, offset: int, limit: int) -> int {
    if offset >= len {
        0
    } else if len - offset < limit {
        len - offset
    } else {
        limit
    }
}

/// The statements of a page: up to `limit` of them from `offset` on, in the chosen direction.
pub open spec fn page_of(
    list: Seq<BillingStatement>,
    offset: int,
    limit: int,
    newest_first: bool,
) -> Seq<BillingStatement> {
    Seq::new(
        page_len(list.len() as int, offset, limit) as nat,
        |i: int|
            if newest_first {
                list[list.len() - 1 - (offset + i)]
            } else {
                list[offset + i]
            },
    )
}

/// Up to `limit` of a subscription's retained statements, from `offset` on.
pub fn get_statements_by_subscription_offset(
    book: &StatementBook,
    subscription_id: u32,
    offset: u32,
    limit: u32,
    newest_first: bool,
) -> (page: StatementPage)
    ensures
        page.statements@ == page_of(
            book@.list(subscription_id),
            offset as int,
            limit as int,
            newest_first,
        ),
        page.total == book@.list(subscription_id).len(),
{
    let ghost list = book@.list(subscription_id);
    let mut out: Vec<BillingStatement> = Vec::new();
    match book.lists.get(&subscription_id) {
        None => {
            assert(out@ =~= page_of(list, offset as int, limit as int, newest_first));
            StatementPage { statements: out, total: 0 }
        },
        Some(l) => {
            let len: usize = l.len();
            let from: usize = offset as usize;
            let mut i: usize = 0;
            while from < len && i < len - from && i < limit as usize
                invariant
                    l@ == list,
                    len == list.len(),
                    from == offset,
                    from < len ==> i <= len - from,
                    from >= len ==> i == 0,
                    i <= limit,
                    out@.len() == i,
                    forall|j: int|
                        0 <= j < i ==> #[trigger] out@[j] == (if newest_first {
                            list[len - 1 - (from + j)]
                        } else {
                            list[from + j]
                        }),
                decreases len - i,
            {
                let at: usize = if newest_first {
                    len - 1 - (from + i)
                } else {
                    from + i
                };
                out.push(l[at]);
                i += 1;
            }
            assert(out@ =~= page_of(list, offset as int, limit as int, newest_first));
            StatementPage { statements: out, total: len as u64 }
        },
    }
}

/// How many of `len` statements a compaction that keeps `keep` prunes.
pub open spec fn prune_len(len: int, keep: int) -> int {
    if len > keep {
        len - keep
    } else {
        0
    }
}

/// How many statements a compaction keeps.
pub open spec fn kept_by(book: StatementState, keep_recent: Option<u32>) -> int {
    match keep_recent {
        Some(n) => n as int,
        None => book.retention as int,
    }
}

/// The statements that a compaction prunes: the oldest ones.
pub open spec fn pruned_of(
    book: StatementState,
    subscription_id: u32,
    keep_recent: Option<u32>,
) -> Seq<BillingStatement> {
    let list = book.list(subscription_id);
    list.take(prune_len(list.len() as int, kept_by(book, keep_recent)))
}

/// The statements that a compaction retains: the newest ones.
pub open spec fn retained_of(
    book: StatementState,
    subscription_id: u32,
    keep_recent: Option<u32>,
) -> Seq<BillingStatement> {
    let list = book.list(subscription_id);
    list.skip(prune_len(list.len() as int, kept_by(book, keep_recent)))
}

/// Whether an aggregate has room for a list of statements.
pub open spec fn aggregate_fits(a: CompactedAggregate, pruned: Seq<BillingStatement>) -> bool {
    &&& a.total_amount + amount_sum(pruned) <= i128::MAX
    &&& a.totals.interval + kind_sum(pruned, BillingChargeKind::Interval) <= i128::MAX
    &&& a.totals.usage + kind_sum(pruned, BillingChargeKind::Usage) <= i128::MAX
    &&& a.totals.one_off + kind_sum(pruned, BillingChargeKind::OneOff) <= i128::MAX
    &&& a.pruned_count + pruned.len() <= u64::MAX
    &&& amount_sum(pruned) <= i128::MAX
}

/// Why a compaction is refused.
pub open spec fn compaction_refusal(
    book: StatementState,
    subscription_id: u32,
    keep_recent: Option<u32>,
) -> Option<Error> {
    let pruned = pruned_of(book, subscription_id, keep_recent);
    if has_negative(pruned) {
        Some(Error::InvalidAmount)
    } else if !aggregate_fits(book.aggregate(subscription_id), pruned) {
        Some(Error::Overflow)
    } else {
        None
    }
}

/// An aggregate that has taken in a list of pruned statements.
pub open spec fn absorbed(a: CompactedAggregate, pruned: Seq<BillingStatement>) -> CompactedAggregate {
    if pruned.len() == 0 {
        a
    } else {
        CompactedAggregate {
            pruned_count: (a.pruned_count + pruned.len()) as u64,
            total_amount: (a.total_amount + amount_sum(pruned)) as i128,
            totals: ChargeTotals {
                interval: (a.totals.interval + kind_sum(pruned, BillingChargeKind::Interval)) as i128,
                usage: (a.totals.usage + kind_sum(pruned, BillingChargeKind::Usage)) as i128,
                one_off: (a.totals.one_off + kind_sum(pruned, BillingChargeKind::OneOff)) as i128,
            },
            oldest_period_start: (if a.oldest_period_start is Some {
                a.oldest_period_start
            } else {
                Some(pruned.first().period_start)
            }),
            newest_period_end: Some(pruned.last().period_end),
        }
    }
}

/// The record after a compaction.
pub open spec fn compacted(
    book: StatementState,
    subscription_id: u32,
    keep_recent: Option<u32>,
) -> StatementState {
    let pruned = pruned_of(book, subscription_id, keep_recent);
    if pruned.len() == 0 {
        book
    } else {
        StatementState {
            lists: book.lists.insert(
                subscription_id,
                retained_of(book, subscription_id, keep_recent),
            ),
            aggregates: book.aggregates.insert(
                subscription_id,
                absorbed(book.aggregate(subscription_id), pruned),
            ),
            ..book
        }
    }
}

fn find_negative(list: &Vec<BillingStatement>, n: usize) -> (b: bool)
    requires
        n <= list@.len(),
    ensures
        b == has_negative(list@.take(n as int)),
{
    let mut i: usize = 0;
    while i < n
        invariant
            i <= n <= list@.len(),
            forall|j: int| 0 <= j < i ==> (#[trigger] list@[j]).amount >= 0,
        decreases n - i,
    {
        if list[i].amount < 0 {
            assert(list@.take(n as int)[i as int].amount < 0);
            return true;
        }
        i += 1;
    }
    assert(!has_negative(list@.take(n as int)));
    false
}

fn add_capped(a: i128, b: i128) -> (r: Option<i128>)
    requires
        b >= 0,
    ensures
        r == (if a + b <= i128::MAX {
            Some((a + b) as i128)
        } else {
            None
        }),
{
    a.checked_add(b)
}

/// An aggregate with the first `n` statements of a list taken in, if they fit.
fn absorb(a: CompactedAggregate, list: &Vec<BillingStatement>, n: usize) -> (r: Option<
    (CompactedAggregate, i128),
>)
    requires
        n <= list@.len(),
        !has_negative(list@.take(n as int)),
    ensures
        match r {
            Some((b, sum)) => aggregate_fits(a, list@.take(n as int)) && b == absorbed(
                a,
                list@.take(n as int),
            ) && sum == amount_sum(list@.take(n as int)),
            None => !aggregate_fits(a, list@.take(n as int)),
        },
{
    let ghost all = list@.take(n as int);
    let mut sum: i128 = 0;
    let mut b: CompactedAggregate = a;
    let mut i: usize = 0;
    proof {
        lemma_sums_monotone(all, 0);
        assert(all.take(0) =~= Seq::<BillingStatement>::empty());
    }
    while i < n
        invariant
            i <= n <= list@.len(),
            all == list@.take(n as int),
            !has_negative(all),
            sum == amount_sum(all.take(i as int)),
            b.pruned_count == a.pruned_count + i,
            b.total_amount == a.total_amount + sum,
            b.totals.interval == a.totals.interval + kind_sum(
                all.take(i as int),
                BillingChargeKind::Interval,
            ),
            b.totals.usage == a.totals.usage + kind_sum(
                all.take(i as int),
                BillingChargeKind::Usage,
            ),
            b.totals.one_off == a.totals.one_off + kind_sum(
                all.take(i as int),
                BillingChargeKind::OneOff,
            ),
            b.oldest_period_start == (if i == 0 || a.oldest_period_start is Some {
                a.oldest_period_start
            } else {
                Some(all[0].period_start)
            }),
            b.newest_period_end == (if i == 0 {
                a.newest_period_end
            } else {
                Some(all[i - 1].period_end)
            }),
        decreases n - i,
    {
        let s: BillingStatement = list[i];
        proof {
            assert(all[i as int] == s);
            assert(s.amount >= 0);
            assert(all.take(i + 1).drop_last() =~= all.take(i as int));
            assert(all.take(i + 1).last() == s);
            lemma_sums_monotone(all, i + 1);
            assert(kind_sum(all.take(i + 1), BillingChargeKind::Interval) <= kind_sum(
                all,
                BillingChargeKind::Interval,
            ));
            assert(kind_sum(all.take(i + 1), BillingChargeKind::Usage) <= kind_sum(
                all,
                BillingChargeKind::Usage,
            ));
            assert(kind_sum(all.take(i + 1), BillingChargeKind::OneOff) <= kind_sum(
                all,
                BillingChargeKind::OneOff,
            ));
        }
        if b.pruned_count == u64::MAX {
            return None;
        }
        b.pruned_count = b.pruned_count + 1;
        match add_capped(sum, s.amount) {
            Some(x) => {
                sum = x;
            },
            None => {
                return None;
            },
        }
        match add_capped(b.total_amount, s.amount) {
            Some(x) => {
                b.total_amount = x;
            },
            None => {
                return None;
            },
        }
        let t: i128 = match s.kind {
            BillingChargeKind::Interval => b.totals.interval,
            BillingChargeKind::Usage => b.totals.usage,
            BillingChargeKind::OneOff => b.totals.one_off,
        };
        match add_capped(t, s.amount) {
            Some(x) => {
                match s.kind {
                    BillingChargeKind::Interval => {
                        b.totals.interval = x;
                    },
                    BillingChargeKind::Usage => {
                        b.totals.usage = x;
                    },
                    BillingChargeKind::OneOff => {
                        b.totals.one_off = x;
                    },
                }
            },
            None => {
                return None;
            },
        }
        if b.oldest_period_start.is_none() {
            b.oldest_period_start = Some(s.period_start);
        }
        b.newest_period_end = Some(s.period_end);
        i += 1;
    }
    assert(all.take(n as int) =~= all);
    Some((b, sum))
}

/// Prunes all but the newest statements of a subscription into its aggregate.
pub fn compact_subscription_statements(
    book: &mut StatementBook,
    subscription_id: u32,
    keep_recent: Option<u32>,
) -> (r: Result<CompactionSummary, Error>)
    ensures
        match compaction_refusal(old(book)@, subscription_id, keep_recent) {
            Some(e) => r == Err::<CompactionSummary, Error>(e) && final(book)@ == old(book)@,
            None => {
                &&& final(book)@ == compacted(old(book)@, subscription_id, keep_recent)
                &&& r matches Ok(summary)
                &&& summary.pruned_count == pruned_of(old(book)@, subscription_id, keep_recent).len()
                &&& summary.kept_count == retained_of(
                    old(book)@,
                    subscription_id,
                    keep_recent,
                ).len()
                &&& summary.total_pruned_amount == amount_sum(
                    pruned_of(old(book)@, subscription_id, keep_recent),
                )
            },
        },
{
    let keep: usize = match keep_recent {
        Some(n) => n as usize,
        None => book.retention as usize,
    };
    let ghost list0 = book@.list(subscription_id);
    let ghost pruned = pruned_of(book@, subscription_id, keep_recent);
    let ghost retained = retained_of(book@, subscription_id, keep_recent);
    let len: usize = match book.lists.get(&subscription_id) {
        Some(l) => l.len(),
        None => 0,
    };
    if len <= keep {
        assert(pruned =~= Seq::<BillingStatement>::empty());
        assert(retained =~= list0);
        return Ok(
            CompactionSummary { pruned_count: 0, kept_count: len as u64, total_pruned_amount: 0 },
        );
    }
    let n: usize = len - keep;
    let aggregate = get_compacted_aggregate(book, subscription_id);
    match book.lists.get(&subscription_id) {
        Some(l) => {
            if find_negative(l, n) {
                return Err(Error::InvalidAmount);
            }
            match absorb(aggregate, l, n) {
                None => Err(Error::Overflow),
                Some((b, sum)) => {
                    let mut tail: Vec<BillingStatement> = Vec::new();
                    let mut i: usize = n;
                    while i < len
                        invariant
                            n <= i <= len,
                            len == l@.len(),
                            tail@ == l@.subrange(n as int, i as int),
                        decreases len - i,
                    {
                        tail.push(l[i]);
                        assert(l@.subrange(n as int, i + 1) =~= l@.subrange(
                            n as int,
                            i as int,
                        ).push(l@[i as int]));
                        i += 1;
                    }
                    assert(tail@ =~= retained);
                    book.lists.insert(subscription_id, tail);
                    book.aggregates.insert(subscription_id, b);
                    assert(book@ =~= compacted(old(book)@, subscription_id, keep_recent));
                    Ok(
                        CompactionSummary {
                            pruned_count: n as u64,
                            kept_count: keep as u64,
                            total_pruned_amount: sum,
                        },
                    )
                },
            }
        },
        None => Err(Error::NotFound),
    }
}

/// Compaction loses nothing: what was pruned and what is retained add up as before, in all and
/// for every kind of charge, and no other subscription changes.
pub proof fn law_compaction_preserves_totals(
    book: StatementState,
    subscription_id: u32,
    keep_recent: Option<u32>,
    kind: BillingChargeKind,
    other: u32,
)
    requires
        compaction_refusal(book, subscription_id, keep_recent) is None,
    ensures
        ({
            let after = compacted(book, subscription_id, keep_recent);
            &&& after.aggregate(subscription_id).total_amount + amount_sum(
                after.list(subscription_id),
            ) == book.aggregate(subscription_id).total_amount + amount_sum(
                book.list(subscription_id),
            )
            &&& kind_total(after.aggregate(subscription_id), kind) + kind_sum(
                after.list(subscription_id),
                kind,
            ) == kind_total(book.aggregate(subscription_id), kind) + kind_sum(
                book.list(subscription_id),
                kind,
            )
            &&& after.aggregate(subscription_id).pruned_count + after.list(subscription_id).len()
                == book.aggregate(subscription_id).pruned_count + book.list(subscription_id).len()
            &&& other != subscription_id ==> after.list(other) == book.list(other)
                && after.aggregate(other) == book.aggregate(other)
        }),
{
    let pruned = pruned_of(book, subscription_id, keep_recent);
    let retained = retained_of(book, subscription_id, keep_recent);
    assert(pruned + retained =~= book.list(subscription_id));
    lemma_sums_concat(pruned, retained);
    assert(kind_sum(pruned + retained, kind) == kind_sum(pruned, kind) + kind_sum(retained, kind));
    lemma_sums_monotone(pruned, 0);
    assert(pruned.take(0) =~= Seq::<BillingStatement>::empty());
    assert(kind_sum(pruned.take(0), BillingChargeKind::Interval) <= kind_sum(
        pruned,
        BillingChargeKind::Interval,
    ));
    assert(kind_sum(pruned.take(0), BillingChargeKind::Usage) <= kind_sum(
        pruned,
        BillingChargeKind::Usage,
    ));
    assert(kind_sum(pruned.take(0), BillingChargeKind::OneOff) <= kind_sum(
        pruned,
        BillingChargeKind::OneOff,
    ));
}

/// The part of an aggregate that is of one kind.
pub open spec fn kind_total(a: CompactedAggregate, kind: BillingChargeKind) -> int {
    match kind {
        BillingChargeKind::Interval => a.totals.interval as int,
        BillingChargeKind::Usage => a.totals.usage as int,
        BillingChargeKind::OneOff => a.totals.one_off as int,
    }
}

} // verus!
