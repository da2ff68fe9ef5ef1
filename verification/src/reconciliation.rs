//! Comparing what the vault holds with what it owes, and recovering what is stranded in it.
use crate::accounts::{
    finite, has_flaw, holdings, liabilities, owed, stakes, tally, tally_of, total_escrowed,
    total_merchant, total_prepaid, Stake,
};
use crate::encoding::copy_bytes;
use crate::events::Event;
use crate::payments::{handed_over, hands_over, Payment};
use crate::records::{CancellationEscrow, DisputeEscrowLedger, RecoveryReason, Subscription};
use crate::statements::page_len;
use crate::subscriptions::decimals_of;
use crate::token::{check_transfer, transfer_refusal, transferred};
use crate::totals::{lemma_listed_total, lemma_total_bounds, listed_total, total};
use crate::types::{vault, vault_address, Address, Error, Key, Symbol};
use crate::vault::{ends, State, Vault};
use vstd::prelude::*;

verus! {

/// How many subscriptions one prepaid query looks at.
pub const MAX_PREPAID_SCAN_DEPTH: u32 = 500;

/// How many decimals normalised amounts have.
pub const NORMALIZED_DECIMALS: u32 = 9;

/// A token's books.
#[derive(Clone, Copy, Debug, PartialEq, Eq)]
pub struct TokenReconciliation {
    pub token: Address,
    pub total_prepaid: i128,
    pub total_merchant_liabilities: i128,
    pub total_escrowed: i128,
    pub recoverable_amount: i128,
    pub contract_balance: i128,
    pub computed_total: i128,
    pub is_balanced: bool,
    pub normalized_prepaid: i128,
    pub normalized_merchant_liab: i128,
    pub normalized_recoverable: i128,
    pub normalized_contract_balance: i128,
    pub normalized_computed_total: i128,
}

/// The books of several tokens, and where to go on.
#[derive(Debug, PartialEq, Eq)]
pub struct ReconSummary {
    pub token_summaries: Vec<TokenReconciliation>,
    pub next_token_index: Option<u32>,
}

/// A token's books at a point in time.
#[derive(Clone, Copy, Debug, PartialEq, Eq)]
pub struct ReconciliationProof {
    pub token: Address,
    pub contract_balance: i128,
    pub total_prepaid: i128,
    pub total_merchant_liabilities: i128,
    pub computed_recoverable: i128,
    pub subscription_count: u64,
    pub is_valid: bool,
    pub timestamp: u64,
    pub ledger_sequence: u32,
}

/// Which prepaid balances to add up.
#[derive(Clone, Copy, Debug, PartialEq, Eq)]
pub struct PrepaidQueryRequest {
    pub token: Address,
    pub start_subscription_id: u32,
    pub scan_limit: u32,
}

/// Some of the prepaid balances in a token, and where to go on.
#[derive(Clone, Copy, Debug, PartialEq, Eq)]
pub struct PrepaidQueryResult {
    pub token: Address,
    pub partial_total: i128,
    pub subscriptions_count: u32,
    pub has_more: bool,
    pub next_start_id: Option<u32>,
}

/// What the vault owes in a token to subscribers, to merchants and under escrow, or why that
/// cannot be told.
pub open spec fn books(s: State, token: Address) -> Result<(i128, i128, i128), Error> {
    match tally_of::<u32, Subscription>(s.subscriptions, token) {
        Err(e) => Err(e),
        Ok(prepaid) => match tally_of::<(Address, Address), i128>(s.merchant_balances, token) {
            Err(e) => Err(e),
            Ok(main) => match tally_of::<(Address, Symbol, Address), i128>(s.sub_balances, token) {
                Err(e) => Err(e),
                Ok(subs) => match tally_of::<u32, CancellationEscrow>(s.escrows, token) {
                    Err(e) => Err(e),
                    Ok(escrows) => match tally_of::<u64, DisputeEscrowLedger>(
                        s.dispute_ledgers,
                        token,
                    ) {
                        Err(e) => Err(e),
                        Ok(disputes) => if main + subs > i128::MAX || escrows + disputes
                            > i128::MAX || prepaid + main + subs + escrows + disputes > i128::MAX {
                            Err(Error::Overflow)
                        } else {
                            Ok((prepaid, (main + subs) as i128, (escrows + disputes) as i128))
                        },
                    },
                },
            },
        },
    }
}

/// Nothing flawed adds up to less than nothing.
proof fn lemma_owed_not_negative<K: View, V: Stake<K>>(m: Map<K::V, V::V>, token: Address)
    requires
        m.dom().finite(),
        !has_flaw::<K, V>(m, token),
        forall|k: K::V, v: V::V| !#[trigger] V::flawed(k, v, token) ==> V::stake(k, v, token) >= 0,
    ensures
        owed::<K, V>(m, token) >= 0,
{
    let f = stakes::<K, V>(token);
    assert forall|k: K::V| #[trigger] m.dom().contains(k) implies f(k, m[k]) >= 0 by {
        assert(!V::flawed(k, m[k], token));
    }
    lemma_total_bounds(m, f);
}

/// The books, where they can be told, add up to what the vault owes, and no part of them is
/// negative.
pub proof fn lemma_books(s: State, token: Address)
    requires
        finite(s),
    ensures
        books(s, token) matches Ok(b) ==> b.0 == total_prepaid(s, token) && b.1 == total_merchant(
            s,
            token,
        ) && b.2 == total_escrowed(s, token) && b.0 + b.1 + b.2 == liabilities(s, token) && b.0 >= 0
            && b.1 >= 0 && b.2 >= 0,
{
    if books(s, token) is Ok {
        lemma_owed_not_negative::<u32, Subscription>(s.subscriptions, token);
        lemma_owed_not_negative::<(Address, Address), i128>(s.merchant_balances, token);
        lemma_owed_not_negative::<(Address, Symbol, Address), i128>(s.sub_balances, token);
        lemma_owed_not_negative::<u32, CancellationEscrow>(s.escrows, token);
        lemma_owed_not_negative::<u64, DisputeEscrowLedger>(s.dispute_ledgers, token);
    }
}

/// Why stranded funds are not recovered.
pub open spec fn recover_refusal(
    s: State,
    admin: Address,
    token: Address,
    recipient: Address,
    amount: i128,
    recovery_id: Seq<u8>,
) -> Option<Error> {
    if s.admin_refusal(admin) is Some {
        s.admin_refusal(admin)
    } else if s.config.locked {
        Some(Error::Reentrancy)
    } else if amount <= 0 {
        Some(Error::InvalidRecoveryAmount)
    } else if s.recovery_ids.dom().contains(recovery_id) {
        Some(Error::Replay)
    } else {
        match books(s, token) {
            Err(e) => Some(e),
            Ok(b) => if amount > holdings(s, token) - (b.0 + b.1 + b.2) {
                Some(Error::InsufficientBalance)
            } else {
                transfer_refusal(s.tokens, token, vault(), recipient, amount)
            },
        }
    }
}

/// The state after stranded funds were recovered.
pub open spec fn recovered(
    s: State,
    token: Address,
    recipient: Address,
    amount: i128,
    recovery_id: Seq<u8>,
    reason: RecoveryReason,
) -> State {
    State {
        tokens: transferred(s.tokens, token, vault(), recipient, amount),
        recovery_ids: s.recovery_ids.insert(recovery_id, true),
        events: seq![Event::StrandedFundsRecovered { token, recipient, amount, reason }],
        ..s
    }
}

/// Ten to a power.
pub open spec fn pow10(n: nat) -> int
    decreases n,
{
    if n == 0 {
        1
    } else {
        10 * pow10((n - 1) as nat)
    }
}

/// `x` without its last `n` digits.
pub open spec fn shortened(x: int, n: nat) -> int
    decreases n,
{
    if n == 0 {
        x
    } else {
        shortened(x / 10, (n - 1) as nat)
    }
}

/// An amount of a token with the given decimals, at the normalised number of decimals.
pub open spec fn normalized(x: int, decimals: u32) -> int {
    if decimals <= NORMALIZED_DECIMALS {
        x * pow10((NORMALIZED_DECIMALS - decimals) as nat)
    } else {
        shortened(x, (decimals - NORMALIZED_DECIMALS) as nat)
    }
}

/// What could be recovered in a token.
pub open spec fn recoverable(held: i128, due: int) -> int {
    if held > due {
        held - due
    } else {
        0
    }
}

/// Why a token's books are not drawn up.
pub open spec fn recon_refusal(s: State, token: Address) -> Option<Error> {
    match decimals_of(s, token) {
        None => Some(Error::TokenNotAccepted),
        Some(decimals) => match books(s, token) {
            Err(e) => Some(e),
            Ok(b) => {
                let due = b.0 + b.1 + b.2;
                if holdings(s, token) < 0 {
                    Some(Error::InvalidAmount)
                } else if normalized(
                    due + recoverable(holdings(s, token), due),
                    decimals,
                ) > i128::MAX {
                    Some(Error::Overflow)
                } else {
                    None
                }
            },
        },
    }
}

/// A token's books.
pub open spec fn recon_of(s: State, token: Address) -> TokenReconciliation {
    let b = books(s, token)->Ok_0;
    let decimals = decimals_of(s, token)->0;
    let due = b.0 + b.1 + b.2;
    let free = recoverable(holdings(s, token), due);
    TokenReconciliation {
        token,
        total_prepaid: b.0,
        total_merchant_liabilities: b.1,
        total_escrowed: b.2,
        recoverable_amount: free as i128,
        contract_balance: holdings(s, token),
        computed_total: (due + free) as i128,
        is_balanced: due + free == holdings(s, token),
        normalized_prepaid: normalized(b.0 as int, decimals) as i128,
        normalized_merchant_liab: normalized(b.1 as int, decimals) as i128,
        normalized_recoverable: normalized(free, decimals) as i128,
        normalized_contract_balance: normalized(holdings(s, token) as int, decimals) as i128,
        normalized_computed_total: normalized(due + free, decimals) as i128,
    }
}

/// Why the books of `n` tokens from `start` on are not drawn up: the first reason among them.
pub open spec fn page_refusal(s: State, start: int, n: int) -> Option<Error>
    decreases n,
{
    if n <= 0 {
        None
    } else if page_refusal(s, start, n - 1) is Some {
        page_refusal(s, start, n - 1)
    } else {
        recon_refusal(s, s.accepted_tokens[start + n - 1].0)
    }
}

/// One for each subscription in a token.
pub open spec fn one_per_sub(token: Address) -> spec_fn(u32, Subscription) -> int {
    |id: u32, sub: Subscription|
        if sub.token == token {
            1
        } else {
            0
        }
}

/// A token's books at the current time.
pub open spec fn proof_of(s: State, token: Address) -> ReconciliationProof {
    let r = recon_of(s, token);
    ReconciliationProof {
        token,
        contract_balance: r.contract_balance,
        total_prepaid: r.total_prepaid,
        total_merchant_liabilities: r.total_merchant_liabilities,
        computed_recoverable: r.recoverable_amount,
        subscription_count: total(s.subscriptions, one_per_sub(token)) as u64,
        is_valid: r.is_balanced,
        timestamp: s.ledger.timestamp,
        ledger_sequence: s.ledger.sequence,
    }
}

/// Whether a number belongs to a subscription in a token.
pub open spec fn scanned(s: State, token: Address, id: u32) -> bool {
    s.subscriptions.dom().contains(id) && s.subscriptions[id].token == token
}

/// What the subscriptions in a token among `n` numbers from `start` on have prepaid.
pub open spec fn scan_sum(s: State, token: Address, start: int, n: int) -> int
    decreases n,
{
    if n <= 0 {
        0
    } else {
        let id = (start + n - 1) as u32;
        scan_sum(s, token, start, n - 1) + (if scanned(s, token, id) {
            s.subscriptions[id].prepaid_balance as int
        } else {
            0
        })
    }
}

/// How many subscriptions in a token there are among `n` numbers from `start` on.
pub open spec fn scan_count(s: State, token: Address, start: int, n: int) -> int
    decreases n,
{
    if n <= 0 {
        0
    } else {
        scan_count(s, token, start, n - 1) + (if scanned(s, token, (start + n - 1) as u32) {
            1int
        } else {
            0
        })
    }
}

/// Whether one of the subscriptions in a token among `n` numbers from `start` on has less than
/// nothing.
pub open spec fn scan_flaw(s: State, token: Address, start: int, n: int) -> bool {
    exists|i: int|
        0 <= i < n && #[trigger] scanned(s, token, (start + i) as u32) && s.subscriptions[(start
            + i) as u32].prepaid_balance < 0
}

/// How many numbers a prepaid query looks at.
pub open spec fn scan_len(s: State, r: PrepaidQueryRequest) -> int {
    page_len(
        s.config.next_subscription_id as int,
        r.start_subscription_id as int,
        if r.scan_limit > MAX_PREPAID_SCAN_DEPTH {
            MAX_PREPAID_SCAN_DEPTH as int
        } else {
            r.scan_limit as int
        },
    )
}

/// What a prepaid query returns.
pub open spec fn query_of(s: State, r: PrepaidQueryRequest) -> Result<PrepaidQueryResult, Error> {
    let start = r.start_subscription_id as int;
    let n = scan_len(s, r);
    if scan_flaw(s, r.token, start, n) {
        Err(Error::InvalidAmount)
    } else if scan_sum(s, r.token, start, n) > i128::MAX {
        Err(Error::Overflow)
    } else {
        Ok(
            PrepaidQueryResult {
                token: r.token,
                partial_total: scan_sum(s, r.token, start, n) as i128,
                subscriptions_count: scan_count(s, r.token, start, n) as u32,
                has_more: start + n < s.config.next_subscription_id,
                next_start_id: if start + n < s.config.next_subscription_id {
                    Some((start + n) as u32)
                } else {
                    None
                },
            },
        )
    }
}

proof fn lemma_pow10_values()
    ensures
        pow10(0) == 1,
        pow10(1) == 10,
        pow10(2) == 100,
        pow10(3) == 1_000,
        pow10(4) == 10_000,
        pow10(5) == 100_000,
        pow10(6) == 1_000_000,
        pow10(7) == 10_000_000,
        pow10(8) == 100_000_000,
        pow10(9) == 1_000_000_000,
{
    reveal_with_fuel(pow10, 10);
}

proof fn lemma_shortened_monotone(x: int, y: int, n: nat)
    requires
        0 <= x <= y,
    ensures
        0 <= shortened(x, n) <= shortened(y, n),
        shortened(x, n) <= x,
    decreases n,
{
    if n > 0 {
        lemma_shortened_monotone(x / 10, y / 10, (n - 1) as nat);
    }
}

/// A smaller amount is not larger when normalised.
pub(crate) proof fn lemma_normalized_monotone(x: int, y: int, decimals: u32)
    requires
        0 <= x <= y,
    ensures
        0 <= normalized(x, decimals) <= normalized(y, decimals),
{
    if decimals <= NORMALIZED_DECIMALS {
        lemma_pow10_values();
        let f = pow10((NORMALIZED_DECIMALS - decimals) as nat);
        assert(f >= 1);
        assert(0 <= x * f <= y * f) by (nonlinear_arith)
            requires
                0 <= x <= y,
                f >= 1,
        ;
    } else {
        lemma_shortened_monotone(x, y, (decimals - NORMALIZED_DECIMALS) as nat);
    }
}

fn scale_of(decimals: u32) -> (f: i128)
    requires
        decimals <= NORMALIZED_DECIMALS,
    ensures
        f == pow10((NORMALIZED_DECIMALS - decimals) as nat),
        1 <= f,
{
    proof {
        lemma_pow10_values();
    }
    match decimals {
        0 => 1_000_000_000,
        1 => 100_000_000,
        2 => 10_000_000,
        3 => 1_000_000,
        4 => 100_000,
        5 => 10_000,
        6 => 1_000,
        7 => 100,
        8 => 10,
        _ => 1,
    }
}

/// An amount at the normalised number of decimals, if it fits.
pub fn normalize(x: i128, decimals: u32) -> (r: Option<i128>)
    requires
        x >= 0,
    ensures
        r == (if normalized(x as int, decimals) <= i128::MAX {
            Some(normalized(x as int, decimals) as i128)
        } else {
            None
        }),
{
    proof {
        lemma_normalized_monotone(0, x as int, decimals);
    }
    if decimals <= NORMALIZED_DECIMALS {
        return x.checked_mul(scale_of(decimals));
    }
    let n: u32 = decimals - NORMALIZED_DECIMALS;
    let mut y: i128 = x;
    let mut i: u32 = 0;
    proof {
        lemma_shortened_monotone(x as int, x as int, n as nat);
    }
    while i < n
        invariant
            i <= n,
            0 <= y,
            shortened(x as int, n as nat) == shortened(y as int, (n - i) as nat),
        decreases n - i,
    {
        y = y / 10;
        i += 1;
    }
    Some(y)
}

impl Vault {
    fn draw_books(&self, token: &Address) -> (r: Result<(i128, i128, i128), Error>)
        ensures
            r == books(self@, *token),
            r matches Ok(b) ==> b.0 >= 0 && b.1 >= 0 && b.2 >= 0 && b.0 + b.1 + b.2 <= i128::MAX,
    {
        let prepaid: i128 = match tally(&self.subscriptions, token) {
            Err(e) => {
                return Err(e);
            },
            Ok(x) => x,
        };
        let main: i128 = match tally(&self.merchant_balances, token) {
            Err(e) => {
                return Err(e);
            },
            Ok(x) => x,
        };
        let subs: i128 = match tally(&self.sub_balances, token) {
            Err(e) => {
                return Err(e);
            },
            Ok(x) => x,
        };
        let escrows: i128 = match tally(&self.escrows, token) {
            Err(e) => {
                return Err(e);
            },
            Ok(x) => x,
        };
        let disputes: i128 = match tally(&self.dispute_ledgers, token) {
            Err(e) => {
                return Err(e);
            },
            Ok(x) => x,
        };
        let merchant: i128 = match main.checked_add(subs) {
            None => {
                return Err(Error::Overflow);
            },
            Some(x) => x,
        };
        let escrowed: i128 = match escrows.checked_add(disputes) {
            None => {
                return Err(Error::Overflow);
            },
            Some(x) => x,
        };
        match prepaid.checked_add(merchant) {
            None => Err(Error::Overflow),
            Some(x) => match x.checked_add(escrowed) {
                None => Err(Error::Overflow),
                Some(_) => Ok((prepaid, merchant, escrowed)),
            },
        }
    }

    /// The first step of a recovery.
    pub(crate) fn begin_recovery(
        &mut self,
        admin: &Address,
        token: &Address,
        recipient: &Address,
        amount: i128,
        recovery_id: &[u8],
        reason: RecoveryReason,
    ) -> (r: Result<Option<Payment>, Error>)
        ensures
            hands_over(
                r,
                old(self)@,
                final(self)@,
                recover_refusal(old(self)@, *admin, *token, *recipient, amount, recovery_id@),
                Some(Payment { token: *token, from: vault(), to: *recipient, amount }),
                recovered(old(self)@, *token, *recipient, amount, recovery_id@, reason),
            ),
    {
        let refusal = self.check_admin(admin);
        let books = self.draw_books(token);
        self.events.clear();
        match refusal {
            Some(e) => {
                return Err(e);
            },
            None => {},
        }
        if self.config.locked {
            return Err(Error::Reentrancy);
        }
        if amount <= 0 {
            return Err(Error::InvalidRecoveryAmount);
        }
        let id = copy_bytes(recovery_id);
        if self.recovery_ids.contains(&id) {
            return Err(Error::Replay);
        }
        let (a, b, c) = match books {
            Err(e) => {
                return Err(e);
            },
            Ok(x) => x,
        };
        let free: i128 = match self.balance(token, &vault_address()).checked_sub(a + b + c) {
            None => {
                return Err(Error::InsufficientBalance);
            },
            Some(x) => x,
        };
        if amount > free {
            return Err(Error::InsufficientBalance);
        }
        match check_transfer(&self.tokens, token, &vault_address(), recipient, amount) {
            Some(e) => {
                return Err(e);
            },
            None => {},
        }
        self.recovery_ids.insert(id, true);
        self.events.push(
            Event::StrandedFundsRecovered { token: *token, recipient: *recipient, amount, reason },
        );
        self.config.locked = true;
        let p = Some(
            Payment { token: *token, from: vault_address(), to: *recipient, amount },
        );
        assert(self@ =~= handed_over(
            old(self)@,
            p,
            recovered(old(self)@, *token, *recipient, amount, recovery_id@, reason),
        ));
        Ok(p)
    }

    /// Pays out what the vault holds in a token beyond what it owes, once per recovery.
    pub fn recover_stranded_funds(
        &mut self,
        admin: &Address,
        token: &Address,
        recipient: &Address,
        amount: i128,
        recovery_id: &[u8],
        reason: RecoveryReason,
    ) -> (r: Result<(), Error>)
        ensures
            ends(
                r,
                old(self)@,
                final(self)@,
                recover_refusal(old(self)@, *admin, *token, *recipient, amount, recovery_id@),
                (),
                recovered(old(self)@, *token, *recipient, amount, recovery_id@, reason),
            ),
    {
        match self.begin_recovery(admin, token, recipient, amount, recovery_id, reason) {
            Err(e) => Err(e),
            Ok(p) => {
                self.finish_payment(&p);
                assert(self@ =~= recovered(
                    old(self)@,
                    *token,
                    *recipient,
                    amount,
                    recovery_id@,
                    reason,
                ));
                Ok(())
            },
        }
    }

    /// A token's books.
    pub fn get_token_reconciliation(&self, token: &Address) -> (r: Result<
        TokenReconciliation,
        Error,
    >)
        ensures
            match recon_refusal(self@, *token) {
                Some(e) => r == Err::<TokenReconciliation, Error>(e),
                None => r == Ok::<TokenReconciliation, Error>(recon_of(self@, *token)),
            },
    {
        let decimals: u32 = match self.token_decimals(token) {
            None => {
                return Err(Error::TokenNotAccepted);
            },
            Some(d) => d,
        };
        let (prepaid, merchant, escrowed) = match self.draw_books(token) {
            Err(e) => {
                return Err(e);
            },
            Ok(x) => x,
        };
        let due: i128 = prepaid + merchant + escrowed;
        let held: i128 = self.balance(token, &vault_address());
        if held < 0 {
            return Err(Error::InvalidAmount);
        }
        let free: i128 = if held > due {
            held - due
        } else {
            0
        };
        let computed: i128 = due + free;
        proof {
            lemma_normalized_monotone(prepaid as int, computed as int, decimals);
            lemma_normalized_monotone(merchant as int, computed as int, decimals);
            lemma_normalized_monotone(free as int, computed as int, decimals);
            lemma_normalized_monotone(held as int, computed as int, decimals);
        }
        match (
            normalize(prepaid, decimals),
            normalize(merchant, decimals),
            normalize(free, decimals),
            normalize(held, decimals),
            normalize(computed, decimals),
        ) {
            (Some(a), Some(b), Some(c), Some(d), Some(e)) => Ok(
                TokenReconciliation {
                    token: *token,
                    total_prepaid: prepaid,
                    total_merchant_liabilities: merchant,
                    total_escrowed: escrowed,
                    recoverable_amount: free,
                    contract_balance: held,
                    computed_total: computed,
                    is_balanced: computed == held,
                    normalized_prepaid: a,
                    normalized_merchant_liab: b,
                    normalized_recoverable: c,
                    normalized_contract_balance: d,
                    normalized_computed_total: e,
                },
            ),
            _ => Err(Error::Overflow),
        }
    }

    /// The books of up to `limit` accepted tokens, from number `start` on.
    pub fn get_recon_summary(&self, start: u32, limit: u32) -> (r: Result<ReconSummary, Error>)
        ensures
            ({
                let tokens = self@.accepted_tokens;
                let n = page_len(tokens.len() as int, start as int, limit as int);
                match page_refusal(self@, start as int, n) {
                    Some(e) => r == Err::<ReconSummary, Error>(e),
                    None => {
                        &&& r matches Ok(summary)
                        &&& summary.token_summaries@ == Seq::new(
                            n as nat,
                            |i: int| recon_of(self@, tokens[start + i].0),
                        )
                        &&& summary.next_token_index == (if start + n < tokens.len() && start + n
                            <= u32::MAX {
                            Some((start + n) as u32)
                        } else {
                            None
                        })
                    },
                }
            }),
    {
        let ghost tokens = self@.accepted_tokens;
        let len: usize = self.accepted_tokens.len();
        let from: usize = start as usize;
        let n: usize = if from >= len {
            0
        } else if len - from < limit as usize {
            len - from
        } else {
            limit as usize
        };
        let mut list: Vec<TokenReconciliation> = Vec::new();
        let mut i: usize = 0;
        while i < n
            invariant
                i <= n,
                from == start,
                tokens == self@.accepted_tokens,
                len == tokens.len(),
                len == self.accepted_tokens@.len(),
                n == page_len(len as int, start as int, limit as int),
                n > 0 ==> from + n <= len,
                page_refusal(self@, start as int, i as int) is None,
                list@.len() == i,
                forall|j: int|
                    0 <= j < i ==> #[trigger] list@[j] == recon_of(self@, tokens[start + j].0),
            decreases n - i,
        {
            let token = self.accepted_tokens[from + i].0;
            match self.get_token_reconciliation(&token) {
                Err(e) => {
                    proof {
                        lemma_page_refusal(self@, start as int, i + 1, n as int);
                    }
                    return Err(e);
                },
                Ok(r) => {
                    list.push(r);
                },
            }
            i += 1;
        }
        assert(list@ =~= Seq::new(n as nat, |i: int| recon_of(self@, tokens[start + i].0)));
        let next: Option<u32> = if n < len && from < len - n && from as u64 + n as u64
            <= u32::MAX as u64 {
            Some((from + n) as u32)
        } else {
            None
        };
        Ok(ReconSummary { token_summaries: list, next_token_index: next })
    }

    fn count_in_token(&self, token: &Address) -> (count: usize)
        ensures
            count == total(self@.subscriptions, one_per_sub(*token)),
    {
        let n: usize = self.subscriptions.len();
        let ghost keys = self.subscriptions.keys();
        let ghost m = self@.subscriptions;
        let ghost f = one_per_sub(*token);
        let mut count: usize = 0;
        let mut i: usize = 0;
        while i < n
            invariant
                i <= n,
                n == keys.len(),
                keys == self.subscriptions.keys(),
                m == self@.subscriptions,
                f == one_per_sub(*token),
                count <= i,
                count == listed_total(m, keys, i as int, f),
            decreases n - i,
        {
            let (_, sub) = self.subscriptions.at(i);
            assert(listed_total(m, keys, i + 1, f) == listed_total(m, keys, i as int, f) + f(
                keys[i as int],
                m[keys[i as int]],
            ));
            if sub.token.same(token) {
                count += 1;
            }
            i += 1;
        }
        proof {
            lemma_listed_total(m, keys, f);
        }
        count
    }

    /// A token's books at the current time.
    pub fn generate_reconciliation_proof(&self, token: &Address) -> (r: Result<
        ReconciliationProof,
        Error,
    >)
        ensures
            match recon_refusal(self@, *token) {
                Some(e) => r == Err::<ReconciliationProof, Error>(e),
                None => r == Ok::<ReconciliationProof, Error>(proof_of(self@, *token)),
            },
    {
        match self.get_token_reconciliation(token) {
            Err(e) => Err(e),
            Ok(b) => Ok(
                ReconciliationProof {
                    token: *token,
                    contract_balance: b.contract_balance,
                    total_prepaid: b.total_prepaid,
                    total_merchant_liabilities: b.total_merchant_liabilities,
                    computed_recoverable: b.recoverable_amount,
                    subscription_count: self.count_in_token(token) as u64,
                    is_valid: b.is_balanced,
                    timestamp: self.ledger.timestamp,
                    ledger_sequence: self.ledger.sequence,
                },
            ),
        }
    }

    /// What the subscriptions in a token have prepaid, a page of them at a time.
    pub fn query_prepaid_balances_paginated(&self, request: &PrepaidQueryRequest) -> (r: Result<
        PrepaidQueryResult,
        Error,
    >)
        ensures
            r == query_of(self@, *request),
    {
        let end: u32 = self.config.next_subscription_id;
        let start: u32 = request.start_subscription_id;
        let limit: u32 = if request.scan_limit > MAX_PREPAID_SCAN_DEPTH {
            MAX_PREPAID_SCAN_DEPTH
        } else {
            request.scan_limit
        };
        let n: u32 = if start >= end {
            0
        } else if end - start < limit {
            end - start
        } else {
            limit
        };
        let mut sum: Option<i128> = Some(0);
        let mut count: u32 = 0;
        let mut i: u32 = 0;
        while i < n
            invariant
                i <= n,
                n > 0 ==> start + n <= end,
                start == request.start_subscription_id,
                n == scan_len(self@, *request),
                0 <= scan_sum(self@, request.token, start as int, i as int),
                sum == crate::accounts::fitted(
                    scan_sum(self@, request.token, start as int, i as int),
                ),
                count <= i,
                count == scan_count(self@, request.token, start as int, i as int),
                forall|j: int|
                    0 <= j < i && #[trigger] scanned(self@, request.token, (start + j) as u32)
                        ==> self@.subscriptions[(start + j) as u32].prepaid_balance >= 0,
            decreases n - i,
        {
            let id: u32 = start + i;
            match self.subscriptions.get(&id) {
                Some(sub) => {
                    if sub.token.same(&request.token) {
                        if sub.prepaid_balance < 0 {
                            assert(scanned(self@, request.token, (start + i as int) as u32));
                            assert(scan_flaw(self@, request.token, start as int, n as int));
                            return Err(Error::InvalidAmount);
                        }
                        sum = match sum {
                            Some(s) => s.checked_add(sub.prepaid_balance),
                            None => None,
                        };
                        count += 1;
                    }
                },
                None => {},
            }
            i += 1;
        }
        assert(!scan_flaw(self@, request.token, start as int, n as int));
        let more = start < end && n < end - start;
        match sum {
            None => Err(Error::Overflow),
            Some(s) => Ok(
                PrepaidQueryResult {
                    token: request.token,
                    partial_total: s,
                    subscriptions_count: count,
                    has_more: more,
                    next_start_id: if more {
                        Some(start + n)
                    } else {
                        None
                    },
                },
            ),
        }
    }
}

proof fn lemma_page_refusal(s: State, start: int, i: int, n: int)
    requires
        0 <= i <= n,
        page_refusal(s, start, i) is Some,
    ensures
        page_refusal(s, start, n) == page_refusal(s, start, i),
    decreases n,
{
    if i < n {
        lemma_page_refusal(s, start, i, n - 1);
    }
}

} // verus!
