//! Exporting what a vault holds on record, and restoring it in another vault.
use crate::records::Subscription;
use crate::table::Table;
use crate::types::{Address, Error};
use crate::vault::{ends, Config, State, Vault};
use vstd::prelude::*;

verus! {

/// The settings of a vault.
#[derive(Clone, Copy, Debug, PartialEq, Eq)]
pub struct ContractSnapshot {
    pub admin: Address,
    pub token: Address,
    pub min_topup: i128,
    pub next_id: u32,
    pub timestamp: u64,
}

/// A subscription, with its number.
#[derive(Clone, Copy, Debug, PartialEq, Eq)]
pub struct SubscriptionSummary {
    pub subscription_id: u32,
    pub record: Subscription,
}

/// What a merchant can withdraw in a token.
#[derive(Clone, Copy, Debug, PartialEq, Eq)]
pub struct MerchantBalanceEntry {
    pub merchant: Address,
    pub token: Address,
    pub balance: i128,
}

/// Some of a vault's subscriptions, and all of its merchants' balances.
pub struct SnapshotPage {
    pub subscriptions: Vec<SubscriptionSummary>,
    pub balances: Vec<MerchantBalanceEntry>,
    pub next_start_id: Option<u32>,
}

/// Where a page ends that starts at `start` and spans `limit` numbers.
pub open spec fn page_end(s: State, start: u32, limit: u32) -> int {
    if start + limit < s.config.next_subscription_id {
        start + limit
    } else {
        s.config.next_subscription_id as int
    }
}

/// The subscriptions numbered from `start` up to, not including, `end`, in order.
pub open spec fn summaries(s: State, start: int, end: int) -> Seq<SubscriptionSummary>
    decreases end - start,
{
    if end <= start {
        Seq::empty()
    } else {
        let before = summaries(s, start, end - 1);
        let id = (end - 1) as u32;
        if s.subscriptions.dom().contains(id) {
            before.push(SubscriptionSummary { subscription_id: id, record: s.subscriptions[id] })
        } else {
            before
        }
    }
}

/// Whether a list holds each balance of a record once, and nothing else.
pub open spec fn lists_balances(
    list: Seq<MerchantBalanceEntry>,
    m: Map<(Address, Address), i128>,
) -> bool {
    &&& forall|i: int|
        0 <= i < list.len() ==> m.dom().contains(
            ((#[trigger] list[i]).merchant, list[i].token),
        ) && m[(list[i].merchant, list[i].token)] == list[i].balance
    &&& forall|i: int, j: int|
        0 <= i < j < list.len() ==> ((#[trigger] list[i]).merchant, list[i].token) != ((
        #[trigger] list[j]).merchant, list[j].token)
    &&& forall|k: (Address, Address)| #[trigger]
        m.dom().contains(k) ==> exists|i: int|
            0 <= i < list.len() && ((#[trigger] list[i]).merchant, list[i].token) == k
}

/// A record of subscriptions with the first `n` of a list put into it.
pub open spec fn with_summaries(
    m: Map<u32, Subscription>,
    list: Seq<SubscriptionSummary>,
    n: int,
) -> Map<u32, Subscription>
    decreases n,
{
    if n <= 0 {
        m
    } else {
        with_summaries(m, list, n - 1).insert(list[n - 1].subscription_id, list[n - 1].record)
    }
}

/// A record of balances with the first `n` of a list put into it.
pub open spec fn with_balances(
    m: Map<(Address, Address), i128>,
    list: Seq<MerchantBalanceEntry>,
    n: int,
) -> Map<(Address, Address), i128>
    decreases n,
{
    if n <= 0 {
        m
    } else {
        with_balances(m, list, n - 1).insert(
            (list[n - 1].merchant, list[n - 1].token),
            list[n - 1].balance,
        )
    }
}

/// The first number above `next` and above the numbers of the first `n` of a list.
pub open spec fn number_after(next: u32, list: Seq<SubscriptionSummary>, n: int) -> int
    decreases n,
{
    if n <= 0 {
        next as int
    } else {
        let before = number_after(next, list, n - 1);
        if list[n - 1].subscription_id >= before {
            list[n - 1].subscription_id + 1
        } else {
            before
        }
    }
}

/// Whether all subscriptions of a list are numbered from `start` on, and below `next` if there is
/// one.
pub open spec fn within_page(list: Seq<SubscriptionSummary>, start: u32, next: Option<u32>) -> bool {
    forall|i: int|
        0 <= i < list.len() ==> start <= (#[trigger] list[i]).subscription_id && (next matches Some(
            n,
        ) ==> list[i].subscription_id < n)
}

/// Why a page is not restored.
pub open spec fn restore_refusal(
    s: State,
    admin: Address,
    start: u32,
    list: Seq<SubscriptionSummary>,
    next: Option<u32>,
) -> Option<Error> {
    if s.admin_refusal(admin) is Some {
        s.admin_refusal(admin)
    } else if !s.config.emergency_stop || !within_page(list, start, next) {
        Some(Error::InvalidInput)
    } else if number_after(s.config.next_subscription_id, list, list.len() as int) > u32::MAX {
        Some(Error::Overflow)
    } else {
        None
    }
}

/// The state after a page was restored.
pub open spec fn restored(
    s: State,
    subs: Seq<SubscriptionSummary>,
    balances: Seq<MerchantBalanceEntry>,
) -> State {
    State {
        subscriptions: with_summaries(s.subscriptions, subs, subs.len() as int),
        merchant_balances: with_balances(s.merchant_balances, balances, balances.len() as int),
        config: Config {
            next_subscription_id: number_after(
                s.config.next_subscription_id,
                subs,
                subs.len() as int,
            ) as u32,
            ..s.config
        },
        ..s.quiet()
    }
}

/// All of a record of balances, as a list.
fn list_balances(m: &Table<(Address, Address), i128>) -> (list: Vec<MerchantBalanceEntry>)
    ensures
        lists_balances(list@, m@),
{
    let n: usize = m.len();
    let mut list: Vec<MerchantBalanceEntry> = Vec::new();
    let mut i: usize = 0;
    while i < n
        invariant
            i <= n,
            n == m.keys().len(),
            list@.len() == i,
            forall|j: int|
                0 <= j < i ==> ((#[trigger] list@[j]).merchant, list@[j].token) == m.keys()[j]
                    && m@.dom().contains(m.keys()[j]) && list@[j].balance == m@[m.keys()[j]],
        decreases n - i,
    {
        let (key, balance) = m.at(i);
        list.push(MerchantBalanceEntry { merchant: key.0, token: key.1, balance: *balance });
        i += 1;
    }
    proof {
        assert forall|k: (Address, Address)| #[trigger] m@.dom().contains(k) implies exists|i: int|
            0 <= i < list@.len() && ((#[trigger] list@[i]).merchant, list@[i].token) == k by {
            let i = choose|i: int| 0 <= i < m.keys().len() && #[trigger] m.keys()[i] == k;
            assert((list@[i].merchant, list@[i].token) == k);
        }
        assert forall|i: int, j: int| 0 <= i < j < list@.len() implies ((
        #[trigger] list@[i]).merchant, list@[i].token) != ((#[trigger] list@[j]).merchant, list@[j].token) by {
            assert(m.keys()[i] != m.keys()[j]);
        }
    }
    list
}

impl Vault {
    /// The settings, for the administrator.
    pub fn export_contract_snapshot(&self, admin: &Address) -> (r: Result<ContractSnapshot, Error>)
        ensures
            r == (match self@.admin_refusal(*admin) {
                Some(e) => Err::<ContractSnapshot, Error>(e),
                None => Ok::<ContractSnapshot, Error>(
                    ContractSnapshot {
                        admin: *admin,
                        token: self@.config.token,
                        min_topup: self@.config.min_topup,
                        next_id: self@.config.next_subscription_id,
                        timestamp: self@.ledger.timestamp,
                    },
                ),
            }),
    {
        match self.check_admin(admin) {
            Some(e) => Err(e),
            None => Ok(
                ContractSnapshot {
                    admin: *admin,
                    token: self.config.token,
                    min_topup: self.config.min_topup,
                    next_id: self.config.next_subscription_id,
                    timestamp: self.ledger.timestamp,
                },
            ),
        }
    }

    /// A subscription as it stands, with both of its bounds, for the administrator.
    pub fn export_subscription_summary(&self, admin: &Address, id: u32) -> (r: Result<
        SubscriptionSummary,
        Error,
    >)
        ensures
            r == (match self@.admin_refusal(*admin) {
                Some(e) => Err::<SubscriptionSummary, Error>(e),
                None => if self@.subscriptions.dom().contains(id) {
                    Ok::<SubscriptionSummary, Error>(
                        SubscriptionSummary {
                            subscription_id: id,
                            record: self@.subscriptions[id],
                        },
                    )
                } else {
                    Err::<SubscriptionSummary, Error>(Error::NotFound)
                },
            }),
    {
        match self.check_admin(admin) {
            Some(e) => Err(e),
            None => match self.get_subscription(id) {
                Ok(record) => Ok(SubscriptionSummary { subscription_id: id, record }),
                Err(e) => Err(e),
            },
        }
    }

    /// The subscriptions among `limit` numbers from `start_id` on, all merchants' balances, and
    /// where the next page starts if there is one, for the administrator.
    pub fn export_full_snapshot_page(&self, admin: &Address, start_id: u32, limit: u32) -> (r: Result<
        SnapshotPage,
        Error,
    >)
        ensures
            match self@.admin_refusal(*admin) {
                Some(e) => r == Err::<SnapshotPage, Error>(e),
                None => {
                    let end = page_end(self@, start_id, limit);
                    &&& r matches Ok(page)
                    &&& page.subscriptions@ == summaries(self@, start_id as int, end)
                    &&& lists_balances(page.balances@, self@.merchant_balances)
                    &&& page.next_start_id == (if start_id + limit
                        < self@.config.next_subscription_id {
                        Some((start_id + limit) as u32)
                    } else {
                        None
                    })
                },
            },
    {
        match self.check_admin(admin) {
            Some(e) => {
                return Err(e);
            },
            None => {},
        }
        let next: u32 = self.config.next_subscription_id;
        let reach: u64 = start_id as u64 + limit as u64;
        let end: u32 = if reach < next as u64 {
            reach as u32
        } else {
            next
        };
        let mut list: Vec<SubscriptionSummary> = Vec::new();
        let mut id: u32 = start_id;
        while id < end
            invariant
                start_id <= id,
                id <= end || id == start_id,
                list@ == summaries(self@, start_id as int, id as int),
            decreases end - id,
        {
            match self.subscriptions.get(&id) {
                Some(record) => {
                    list.push(SubscriptionSummary { subscription_id: id, record: *record });
                },
                None => {},
            }
            id += 1;
        }
        assert(list@ =~= summaries(self@, start_id as int, end as int));
        Ok(
            SnapshotPage {
                subscriptions: list,
                balances: list_balances(&self.merchant_balances),
                next_start_id: if reach < next as u64 {
                    Some(reach as u32)
                } else {
                    None
                },
            },
        )
    }

    /// Puts the subscriptions and balances of a page on record, while the emergency stop keeps
    /// everything else still. A page holds only subscriptions between its own start and the start
    /// of the next.
    pub fn restore_snapshot_page(
        &mut self,
        admin: &Address,
        start_id: u32,
        subscriptions: &Vec<SubscriptionSummary>,
        balances: &Vec<MerchantBalanceEntry>,
        next_start_id: Option<u32>,
    ) -> (r: Result<(), Error>)
        ensures
            ends(
                r,
                old(self)@,
                final(self)@,
                restore_refusal(
                    old(self)@,
                    *admin,
                    start_id,
                    subscriptions@,
                    next_start_id,
                ),
                (),
                restored(old(self)@, subscriptions@, balances@),
            ),
    {
        let ghost s = self@;
        let refusal = self.check_admin(admin);
        self.events.clear();
        match refusal {
            Some(e) => {
                return Err(e);
            },
            None => {},
        }
        if !self.config.emergency_stop {
            return Err(Error::InvalidInput);
        }
        let mut next: u64 = self.config.next_subscription_id as u64;
        let mut i: usize = 0;
        while i < subscriptions.len()
            invariant
                i <= subscriptions@.len(),
                next <= u32::MAX + 1,
                next == number_after(s.config.next_subscription_id, subscriptions@, i as int),
                forall|j: int|
                    0 <= j < i ==> start_id <= (#[trigger] subscriptions@[j]).subscription_id && (
                    next_start_id matches Some(n) ==> subscriptions@[j].subscription_id < n),
                s.admin_refusal(*admin) is None,
                s.config.emergency_stop,
                s == old(self)@,
                self@ == s.quiet(),
            decreases subscriptions@.len() - i,
        {
            let number: u32 = subscriptions[i].subscription_id;
            let in_page = start_id <= number && match next_start_id {
                Some(n) => number < n,
                None => true,
            };
            if !in_page {
                assert(!within_page(subscriptions@, start_id, next_start_id));
                return Err(Error::InvalidInput);
            }
            let id: u64 = number as u64;
            if id >= next {
                next = id + 1;
            }
            i += 1;
        }
        if next > u32::MAX as u64 {
            return Err(Error::Overflow);
        }
        let mut i: usize = 0;
        while i < subscriptions.len()
            invariant
                i <= subscriptions@.len(),
                self@ == (State {
                    subscriptions: with_summaries(s.subscriptions, subscriptions@, i as int),
                    ..s.quiet()
                }),
            decreases subscriptions@.len() - i,
        {
            let entry = subscriptions[i];
            self.subscriptions.insert(entry.subscription_id, entry.record);
            i += 1;
        }
        let ghost s1 = self@;
        let mut i: usize = 0;
        while i < balances.len()
            invariant
                i <= balances@.len(),
                s1.merchant_balances == s.merchant_balances,
                self@ == (State {
                    merchant_balances: with_balances(s.merchant_balances, balances@, i as int),
                    ..s1
                }),
            decreases balances@.len() - i,
        {
            let entry = balances[i];
            self.merchant_balances.insert((entry.merchant, entry.token), entry.balance);
            i += 1;
        }
        self.config.next_subscription_id = next as u32;
        assert(self@ =~= restored(s, subscriptions@, balances@));
        Ok(())
    }
}

proof fn lemma_with_summaries(s: State, m: Map<u32, Subscription>, start: int, end: int)
    requires
        0 <= start,
        end <= u32::MAX,
    ensures
        ({
            let list = summaries(s, start, end);
            let after = with_summaries(m, list, list.len() as int);
            forall|id: u32|
                if start <= id < end && s.subscriptions.dom().contains(id) {
                    #[trigger] after.dom().contains(id) && after[id] == s.subscriptions[id]
                } else {
                    after.dom().contains(id) == m.dom().contains(id) && after[id] == m[id]
                }
        }),
    decreases end - start,
{
    if end > start {
        lemma_with_summaries(s, m, start, end - 1);
        let before = summaries(s, start, end - 1);
        let list = summaries(s, start, end);
        lemma_with_prefix(m, before, list, before.len() as int);
    }
}

proof fn lemma_with_prefix(
    m: Map<u32, Subscription>,
    a: Seq<SubscriptionSummary>,
    b: Seq<SubscriptionSummary>,
    n: int,
)
    requires
        n <= a.len(),
        n <= b.len(),
        forall|i: int| 0 <= i < n ==> a[i] == b[i],
    ensures
        with_summaries(m, a, n) == with_summaries(m, b, n),
    decreases n,
{
    if n > 0 {
        lemma_with_prefix(m, a, b, n - 1);
    }
}

proof fn lemma_with_balances(
    base: Map<(Address, Address), i128>,
    list: Seq<MerchantBalanceEntry>,
    m: Map<(Address, Address), i128>,
    n: int,
)
    requires
        lists_balances(list, m),
        0 <= n <= list.len(),
    ensures
        ({
            let after = with_balances(base, list, n);
            forall|k: (Address, Address)|
                if exists|i: int|
                    0 <= i < n && ((#[trigger] list[i]).merchant, list[i].token) == k {
                    #[trigger] after.dom().contains(k) && after[k] == m[k]
                } else {
                    after.dom().contains(k) == base.dom().contains(k) && after[k] == base[k]
                }
        }),
    decreases n,
{
    if n > 0 {
        lemma_with_balances(base, list, m, n - 1);
        let after = with_balances(base, list, n);
        let before = with_balances(base, list, n - 1);
        let last = (list[n - 1].merchant, list[n - 1].token);
        assert forall|k: (Address, Address)|
            if exists|i: int| 0 <= i < n && ((#[trigger] list[i]).merchant, list[i].token) == k {
                #[trigger] after.dom().contains(k) && after[k] == m[k]
            } else {
                after.dom().contains(k) == base.dom().contains(k) && after[k] == base[k]
            } by {
            assert(before.dom().contains(k) || !before.dom().contains(k));
            if k == last {
                assert((list[n - 1].merchant, list[n - 1].token) == k);
            } else {
                if exists|i: int|
                    0 <= i < n && ((#[trigger] list[i]).merchant, list[i].token) == k {
                    let i = choose|i: int|
                        0 <= i < n && ((#[trigger] list[i]).merchant, list[i].token) == k;
                    assert(i < n - 1);
                    assert((list[i].merchant, list[i].token) == k);
                }
            }
        }
    }
}

/// The subscriptions of a page are numbered within the page.
proof fn lemma_summaries_within(s: State, start: int, end: int)
    requires
        0 <= start,
        end <= u32::MAX,
    ensures
        forall|i: int|
            0 <= i < summaries(s, start, end).len() ==> start <= (#[trigger] summaries(
                s,
                start,
                end,
            )[i]).subscription_id < end,
    decreases end - start,
{
    if end > start {
        lemma_summaries_within(s, start, end - 1);
    }
}

/// A page as it was exported lies between its own start and the start of the next, so that nothing
/// but the target's own state speaks against restoring it.
pub proof fn law_exported_pages_can_be_restored(
    source: State,
    target: State,
    admin: Address,
    start: u32,
    limit: u32,
    next: Option<u32>,
)
    requires
        target.admin_refusal(admin) is None,
        target.config.emergency_stop,
        next == (if start + limit < source.config.next_subscription_id {
            Some((start + limit) as u32)
        } else {
            None
        }),
    ensures
        ({
            let list = summaries(source, start as int, page_end(source, start, limit));
            &&& within_page(list, start, next)
            &&& restore_refusal(target, admin, start, list, next) is None
        }),
{
    let end = page_end(source, start, limit);
    let list = summaries(source, start as int, end);
    lemma_summaries_within(source, start as int, end);
    lemma_number_after(target.config.next_subscription_id, list, list.len() as int);
}

/// A number after those of a list is one more than one of them, or the number at hand.
proof fn lemma_number_after(next: u32, list: Seq<SubscriptionSummary>, n: int)
    requires
        n <= list.len(),
        forall|i: int| 0 <= i < list.len() ==> (#[trigger] list[i]).subscription_id < u32::MAX,
    ensures
        number_after(next, list, n) <= u32::MAX,
    decreases n,
{
    if n > 0 {
        lemma_number_after(next, list, n - 1);
        assert(list[n - 1].subscription_id < u32::MAX);
    }
}

/// What was exported from one vault and restored in another that has nothing on record comes out
/// there unchanged: every subscription with both of its bounds, and every merchant's balance.
pub proof fn law_restore_gives_back_what_was_exported(
    source: State,
    target: State,
    balances: Seq<MerchantBalanceEntry>,
)
    requires
        lists_balances(balances, source.merchant_balances),
        forall|id: u32| #[trigger]
            source.subscriptions.dom().contains(id) ==> id < source.config.next_subscription_id,
        target.subscriptions == Map::<u32, Subscription>::empty(),
        target.merchant_balances == Map::<(Address, Address), i128>::empty(),
    ensures
        ({
            let list = summaries(source, 0, source.config.next_subscription_id as int);
            let end = restored(target, list, balances);
            &&& end.subscriptions == source.subscriptions
            &&& end.merchant_balances == source.merchant_balances
        }),
{
    let n = source.config.next_subscription_id as int;
    let list = summaries(source, 0, n);
    lemma_with_summaries(source, target.subscriptions, 0, n);
    lemma_with_balances(
        target.merchant_balances,
        balances,
        source.merchant_balances,
        balances.len() as int,
    );
    let end = restored(target, list, balances);
    assert(end.subscriptions =~= source.subscriptions);
    assert(end.merchant_balances =~= source.merchant_balances);
}

} // verus!
