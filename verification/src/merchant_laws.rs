//! What merchants can set, and how they are paid.
use crate::charge_laws::{given_out, lesser, taken_in};
use crate::charging::registered;
use crate::events::Event;
use crate::funding_laws::{short_of_tokens, wallet_full};
use crate::measures::{
    agrees, away, credit, moved, only_credit, shares_out, sub_credit, switched_off, wallet,
};
use crate::merchants::{
    config_refusal, configured, distinct, labels_of, limits_refusal, limits_set, merchant_paused,
    merchant_refund_refusal, merchant_refunded, merchant_withdraw_refusal, merchant_withdrawn,
    multisig_refusal, multisig_set, own_refusal, register_refusal, signed, split_refusal,
    split_set, sub_account_added, sub_credit_refusal, sub_credited, sub_withdraw_refusal,
    sub_withdrawn, update_refusal, updated, updated_config, vacation_cleared, vacation_refusal,
    vacation_set, withdrawal_authorized, MerchantConfigUpdate,
};
use crate::records::{MerchantConfigState, UsageLimits};
use crate::settings_laws::rules;
use crate::statements::BillingChargeKind;
use crate::types::{vault, Address, Error, Symbol};
use crate::vault::State;
use vstd::prelude::*;

verus! {

/// How many of a list of signers have given their word, each counted once where nobody is on the
/// list twice.
pub open spec fn consenting(s: State, signers: Seq<Address>) -> int {
    signers.filter(|a: Address| agrees(s, a)).len() as int
}

proof fn lemma_consenting(s: State, signers: Seq<Address>, n: int)
    requires
        0 <= n <= signers.len(),
    ensures
        signed(s, signers, n) == consenting(s, signers.take(n)),
    decreases n,
{
    let f = |a: Address| agrees(s, a);
    if n == 0 {
        assert(signers.take(0) =~= Seq::empty());
        reveal(Seq::filter);
    } else {
        lemma_consenting(s, signers, n - 1);
        let front = signers.take(n - 1);
        assert(signers.take(n) =~= front.push(signers[n - 1]));
        assert(signers.take(n).drop_last() =~= front);
        reveal(Seq::filter);
        assert(agrees(s, signers[n - 1]) == s.authorized(signers[n - 1]));
    }
}

/// Who may withdraw for a merchant: the merchant itself, or, where it has signers, as many of them
/// as it takes.
pub open spec fn may_withdraw(s: State, merchant: Address) -> bool {
    if s.multisigs.dom().contains(merchant) {
        s.multisigs[merchant].threshold <= consenting(s, s.multisigs[merchant].signers)
    } else {
        agrees(s, merchant)
    }
}

/// A withdrawal is authorised by the merchant itself, or by enough of its signers.
pub proof fn law_signers_must_consent(s: State, merchant: Address)
    ensures
        withdrawal_authorized(s, merchant) == may_withdraw(s, merchant),
{
    if s.multisigs.dom().contains(merchant) {
        let list = s.multisigs[merchant].signers;
        lemma_consenting(s, list, list.len() as int);
        assert(list.take(list.len() as int) =~= list);
    }
}

/// A merchant is given signers by the administrator: a list without repetition, and how many of it
/// it takes, at least one and no more than there are. No other merchant is touched.
pub proof fn law_signers(s: State, who: Address, merchant: Address, list: Seq<Address>, threshold: u32)
    ensures
        ({
            let s2 = multisig_set(s, merchant, list, threshold);
            &&& match multisig_refusal(s, who, list, threshold) {
                Some(Error::AuthRequired) => !agrees(s, who),
                Some(Error::Unauthorized) => s.config.admin != Some(who),
                Some(Error::InvalidInput) => threshold == 0 || threshold > list.len()
                    || !list.no_duplicates(),
                Some(_) => false,
                None => rules(s, who) && 1 <= threshold <= list.len() && list.no_duplicates(),
            }
            &&& s2.multisigs.dom().contains(merchant)
            &&& s2.multisigs[merchant].signers == list
            &&& s2.multisigs[merchant].threshold == threshold
            &&& forall|m: Address|
                m != merchant ==> (#[trigger] s2.multisigs.dom().contains(m)
                    == s.multisigs.dom().contains(m)) && s2.multisigs[m] == s.multisigs[m]
            &&& s2 == (State { multisigs: s2.multisigs, events: s2.events, ..s })
        }),
{
    let s2 = multisig_set(s, merchant, list, threshold);
    assert(s2 =~= State { multisigs: s2.multisigs, events: s2.events, ..s });
    if distinct(list) {
        assert forall|i: int, j: int| 0 <= i < list.len() && 0 <= j < list.len() && i != j implies list[i]
            != list[j] by {
            if i < j {
                assert(list[i] != list[j]);
            } else {
                assert(list[j] != list[i]);
            }
        }
        assert(list.no_duplicates());
    } else {
        let (i, j) = choose|i: int, j: int|
            0 <= i < j < list.len() && list[i] == list[j];
        assert(list[i] == list[j]);
        assert(!list.no_duplicates());
    }
}

/// Whether an error is the right one for a payment out of a merchant's credit.
pub open spec fn payment_cause(
    s: State,
    merchant: Address,
    token: Address,
    to: Address,
    amount: i128,
    refusal: Option<Error>,
) -> bool {
    let there = credit(s, merchant, token);
    match refusal {
        Some(Error::Reentrancy) => s.config.locked,
        Some(Error::EmergencyStopActive) => s.config.emergency_stop,
        Some(Error::NotFound) => there <= 0,
        Some(Error::InvalidAmount) => amount <= 0,
        Some(Error::InsufficientBalance) => there < amount,
        Some(Error::TokenBalance) => short_of_tokens(s, token, vault(), amount as int),
        Some(Error::Overflow) => wallet_full(s, token, vault(), to, amount as int),
        Some(_) => false,
        None => {
            &&& !s.config.locked
            &&& !s.config.emergency_stop
            &&& 0 < amount <= there
            &&& !short_of_tokens(s, token, vault(), amount as int)
        },
    }
}

/// Whether a merchant's credit in a token has gone down by an amount, the amount has gone from the
/// vault to a wallet, and no other credit or wallet was touched, nor anything else but the records
/// of what was given out.
pub open spec fn pays_from_credit(
    s: State,
    s2: State,
    merchant: Address,
    token: Address,
    to: Address,
    amount: int,
) -> bool {
    &&& only_credit(s, s2, merchant, token, -amount)
    &&& moved(s, s2, token, vault(), to, amount)
    &&& forall|a: Address, t: Address, k: BillingChargeKind|
        #[trigger] taken_in(s2, a, t, k) == taken_in(s, a, t, k)
    &&& forall|a: Address, t: Address|
        a != merchant || t != token ==> #[trigger] given_out(s2, a, t) == given_out(s, a, t)
    &&& s2 == (State {
        merchant_balances: s2.merchant_balances,
        earnings: s2.earnings,
        tokens: s2.tokens,
        events: s2.events,
        ..s
    })
}

/// A merchant that may withdraw gets what it asks for, to its own wallet and out of its own credit in
/// that token, and the withdrawal is counted as one.
pub proof fn law_merchant_withdrawal(s: State, merchant: Address, token: Address, amount: i128)
    ensures
        ({
            let s2 = merchant_withdrawn(s, merchant, token, amount);
            match merchant_withdraw_refusal(s, merchant, token, amount) {
                Some(Error::AuthRequired) => !may_withdraw(s, merchant),
                Some(e) => payment_cause(s, merchant, token, merchant, amount, Some(e)),
                None => {
                    &&& may_withdraw(s, merchant)
                    &&& payment_cause(s, merchant, token, merchant, amount, None)
                    &&& pays_from_credit(s, s2, merchant, token, merchant, amount as int)
                    &&& given_out(s2, merchant, token).0 == lesser(
                        given_out(s, merchant, token).0 + amount,
                        i128::MAX as int,
                    )
                    &&& given_out(s2, merchant, token).1 == given_out(s, merchant, token).1
                    &&& s2.events == seq![
                        Event::MerchantWithdrawn { merchant, token, amount },
                        Event::MerchantBalanceSnapshot {
                            merchant,
                            token,
                            balance: (credit(s, merchant, token) - amount) as i128,
                        },
                    ]
                },
            }
        }),
{
    law_signers_must_consent(s, merchant);
    let s2 = merchant_withdrawn(s, merchant, token, amount);
    assert(s2 =~= State {
        merchant_balances: s2.merchant_balances,
        earnings: s2.earnings,
        tokens: s2.tokens,
        events: s2.events,
        ..s
    });
}

/// A merchant can pay a subscriber out of its own credit in a token; this counts as a refund.
pub proof fn law_merchant_refund(
    s: State,
    merchant: Address,
    subscriber: Address,
    token: Address,
    amount: i128,
)
    ensures
        ({
            let s2 = merchant_refunded(s, merchant, subscriber, token, amount);
            match merchant_refund_refusal(s, merchant, subscriber, token, amount) {
                Some(Error::AuthRequired) => !agrees(s, merchant),
                Some(e) => payment_cause(s, merchant, token, subscriber, amount, Some(e)),
                None => {
                    &&& agrees(s, merchant)
                    &&& payment_cause(s, merchant, token, subscriber, amount, None)
                    &&& pays_from_credit(s, s2, merchant, token, subscriber, amount as int)
                    &&& given_out(s2, merchant, token).0 == given_out(s, merchant, token).0
                    &&& given_out(s2, merchant, token).1 == lesser(
                        given_out(s, merchant, token).1 + amount,
                        i128::MAX as int,
                    )
                    &&& s2.events == seq![
                        Event::MerchantRefunded { merchant, subscriber, token, amount },
                    ]
                },
            }
        }),
{
    let s2 = merchant_refunded(s, merchant, subscriber, token, amount);
    assert(s2 =~= State {
        merchant_balances: s2.merchant_balances,
        earnings: s2.earnings,
        tokens: s2.tokens,
        events: s2.events,
        ..s
    });
}

/// Whether a merchant has a sub-account under a label.
pub open spec fn has_sub_account(s: State, merchant: Address, label: Symbol) -> bool {
    s.sub_accounts.dom().contains(merchant) && exists|i: int|
        0 <= i < s.sub_accounts[merchant].len() && s.sub_accounts[merchant][i] == label
}

/// A merchant with settings can add a sub-account under a new label that is not empty; it joins the
/// end of that merchant's list, and nobody else's list changes.
pub proof fn law_adding_a_sub_account(s: State, merchant: Address, label: Symbol)
    ensures
        ({
            let s2 = sub_account_added(s, merchant, label);
            let before = if s.sub_accounts.dom().contains(merchant) {
                s.sub_accounts[merchant]
            } else {
                Seq::empty()
            };
            &&& match register_refusal(s, merchant, label) {
                Some(Error::AuthRequired) => !agrees(s, merchant),
                Some(Error::NotFound) => !s.merchant_configs.dom().contains(merchant),
                Some(Error::InvalidInput) => label.is_blank() || has_sub_account(
                    s,
                    merchant,
                    label,
                ),
                Some(_) => false,
                None => agrees(s, merchant) && s.merchant_configs.dom().contains(merchant)
                    && !label.is_blank() && !has_sub_account(s, merchant, label),
            }
            &&& s2.sub_accounts.dom().contains(merchant)
            &&& s2.sub_accounts[merchant] == before.push(label)
            &&& s2.events == seq![Event::SubAccountRegistered { merchant, label }]
            &&& forall|m: Address|
                m != merchant ==> (#[trigger] s2.sub_accounts.dom().contains(m)
                    == s.sub_accounts.dom().contains(m)) && s2.sub_accounts[m] == s.sub_accounts[m]
            &&& s2 == (State { sub_accounts: s2.sub_accounts, events: s2.events, ..s })
            &&& labels_of(s, merchant) == before
            &&& registered(s, merchant, label) == has_sub_account(s, merchant, label)
        }),
{
    let s2 = sub_account_added(s, merchant, label);
    assert(s2 =~= State { sub_accounts: s2.sub_accounts, events: s2.events, ..s });
}

/// Whether one sub-account's credit in a token has changed by an amount, and no other's.
pub open spec fn only_sub_credit(
    s: State,
    s2: State,
    merchant: Address,
    label: Symbol,
    token: Address,
    change: int,
) -> bool {
    forall|a: Address, l: Symbol, t: Address|
        #[trigger] sub_credit(s2, a, l, t) == sub_credit(s, a, l, t) + (if a == merchant && l
            == label && t == token {
            change
        } else {
            0
        })
}

/// Crediting a sub-account adds to it and to nothing else; withdrawing takes from it what goes to
/// its merchant's wallet, and from nothing else.
pub proof fn law_sub_accounts(
    s: State,
    merchant: Address,
    label: Symbol,
    token: Address,
    amount: i128,
)
    ensures
        ({
            let up = sub_credited(s, merchant, label, token, amount);
            let down = sub_withdrawn(s, merchant, label, token, amount);
            let there = sub_credit(s, merchant, label, token);
            &&& match sub_credit_refusal(s, merchant, label, token, amount) {
                Some(Error::NotFound) => !has_sub_account(s, merchant, label),
                Some(Error::InvalidAmount) => amount <= 0,
                Some(Error::Overflow) => there + amount > i128::MAX,
                Some(_) => false,
                None => {
                    &&& has_sub_account(s, merchant, label)
                    &&& 0 < amount
                    &&& only_sub_credit(s, up, merchant, label, token, amount as int)
                    &&& up == (State { sub_balances: up.sub_balances, events: up.events, ..s })
                },
            }
            &&& match sub_withdraw_refusal(s, merchant, label, token, amount) {
                Some(Error::AuthRequired) => !agrees(s, merchant),
                Some(Error::Reentrancy) => s.config.locked,
                Some(Error::EmergencyStopActive) => s.config.emergency_stop,
                Some(Error::NotFound) => !has_sub_account(s, merchant, label),
                Some(Error::InvalidAmount) => amount <= 0,
                Some(Error::InsufficientBalance) => there < amount,
                Some(Error::TokenBalance) => short_of_tokens(s, token, vault(), amount as int),
                Some(Error::Overflow) => wallet_full(s, token, vault(), merchant, amount as int),
                Some(_) => false,
                None => {
                    &&& agrees(s, merchant)
                    &&& !s.config.locked
                    &&& !s.config.emergency_stop
                    &&& has_sub_account(s, merchant, label)
                    &&& 0 < amount <= there
                    &&& only_sub_credit(s, down, merchant, label, token, -amount)
                    &&& moved(s, down, token, vault(), merchant, amount as int)
                    &&& down.events == seq![
                        Event::SubAccountWithdrawn { merchant, label, token, amount },
                    ]
                    &&& down == (State {
                        sub_balances: down.sub_balances,
                        tokens: down.tokens,
                        events: down.events,
                        ..s
                    })
                },
            }
        }),
{
    let up = sub_credited(s, merchant, label, token, amount);
    let down = sub_withdrawn(s, merchant, label, token, amount);
    assert(up =~= State { sub_balances: up.sub_balances, events: up.events, ..s });
    assert(down =~= State {
        sub_balances: down.sub_balances,
        tokens: down.tokens,
        events: down.events,
        ..s
    });
}

/// A merchant can set off for a time that has not begun, and come back early. While it is away, from
/// the first second to before the last, it is away, and nobody else is.
pub proof fn law_going_away(s: State, merchant: Address, start: u64, end: u64, who: Address, at: u64)
    ensures
        ({
            let gone = vacation_set(s, merchant, start, end);
            let back = vacation_cleared(s, merchant);
            &&& match vacation_refusal(s, merchant, start, end) {
                Some(Error::AuthRequired) => !agrees(s, merchant),
                Some(Error::InvalidInput) => end <= start,
                Some(Error::InvalidExpiration) => start < s.ledger.timestamp,
                Some(_) => false,
                None => agrees(s, merchant) && s.ledger.timestamp <= start < end,
            }
            &&& away(gone, merchant, at as int) <==> start <= at < end
            &&& !away(back, merchant, at as int)
            &&& who != merchant ==> away(gone, who, at as int) == away(s, who, at as int)
            &&& who != merchant ==> away(back, who, at as int) == away(s, who, at as int)
            &&& gone.vacations.dom().contains(merchant)
            &&& gone.vacations[merchant].start_ts == start
            &&& gone.vacations[merchant].end_ts == end
            &&& gone.events == seq![
                Event::VacationStarted { merchant, start_ts: start, end_ts: end },
            ]
            &&& s.vacations.dom().contains(merchant) ==> back.events == seq![
                Event::VacationEnded { merchant },
            ]
            &&& !s.vacations.dom().contains(merchant) ==> back.events.len() == 0
            &&& !back.vacations.dom().contains(merchant)
            &&& gone == (State { vacations: gone.vacations, events: gone.events, ..s })
            &&& back == (State { vacations: back.vacations, events: back.events, ..s })
            &&& own_refusal(s, merchant) == (if agrees(s, merchant) {
                None
            } else {
                Some(Error::AuthRequired)
            })
        }),
{
    let gone = vacation_set(s, merchant, start, end);
    let back = vacation_cleared(s, merchant);
    assert(gone =~= State { vacations: gone.vacations, events: gone.events, ..s });
    assert(back =~= State { vacations: back.vacations, events: back.events, ..s });
}

/// A merchant that has paused itself is switched off, and nobody else is.
pub proof fn law_merchant_pause(s: State, merchant: Address, who: Address)
    ensures
        ({
            let s2 = merchant_paused(s, merchant);
            &&& switched_off(s2, merchant)
            &&& s2.events == seq![Event::MerchantPaused { merchant }]
            &&& who != merchant ==> switched_off(s2, who) == switched_off(s, who)
            &&& s2 == (State {
                paused_merchants: s2.paused_merchants,
                events: s2.events,
                ..s
            })
        }),
{
    let s2 = merchant_paused(s, merchant);
    assert(s2 =~= State { paused_merchants: s2.paused_merchants, events: s2.events, ..s });
}

/// Only the subscriber can change who shares a subscription's charges, to a list that shares out a
/// whole or to none; the list is kept as given, and no other subscription's list changes.
pub proof fn law_changing_payees(
    s: State,
    who: Address,
    id: u32,
    entries: Option<Seq<(Address, u32)>>,
)
    ensures
        ({
            let s2 = split_set(s, id, entries);
            &&& match split_refusal(s, who, id, entries) {
                Some(Error::AuthRequired) => !agrees(s, who),
                Some(Error::NotFound) => !s.subscriptions.dom().contains(id),
                Some(Error::Unauthorized) => who != s.subscriptions[id].subscriber,
                Some(Error::InvalidInput) => entries is Some && !shares_out(entries->0),
                Some(_) => false,
                None => {
                    &&& agrees(s, who)
                    &&& s.subscriptions.dom().contains(id)
                    &&& who == s.subscriptions[id].subscriber
                    &&& entries is Some ==> shares_out(entries->0)
                },
            }
            &&& entries is Some ==> s2.splits.dom().contains(id) && s2.splits[id] == entries->0
            &&& entries is None ==> !s2.splits.dom().contains(id)
            &&& forall|other: u32|
                other != id ==> (#[trigger] s2.splits.dom().contains(other)
                    == s.splits.dom().contains(other)) && s2.splits[other] == s.splits[other]
            &&& s2 == (State { splits: s2.splits, events: s2.events, ..s })
        }),
{
    if entries is Some {
        crate::charge_laws::law_payees_share_out_a_whole(entries->0);
    }
    let s2 = split_set(s, id, entries);
    assert(s2 =~= State { splits: s2.splits, events: s2.events, ..s });
}

/// Whether a fee and a set of operations are ones that a merchant can have: a fee within the whole,
/// and operations out of the five there are, with charging among them.
pub open spec fn values_fit(fee: i32, operations: i32) -> bool {
    0 <= fee <= 10_000 && 0 <= operations <= 31 && operations % 2 == 1
}

/// A merchant's settings are made once, by itself, and are kept as they were given.
pub proof fn law_merchant_settings(
    s: State,
    merchant: Address,
    c: MerchantConfigState,
)
    ensures
        ({
            let s2 = configured(s, merchant, c);
            &&& match config_refusal(s, merchant, c.fee_bips, c.allowed_operations) {
                Some(Error::AuthRequired) => !agrees(s, merchant),
                Some(Error::AlreadyInitialized) => s.merchant_configs.dom().contains(merchant),
                Some(Error::InvalidFeeBips) => c.fee_bips < 0 || c.fee_bips > 10_000,
                Some(Error::InvalidOperations) => c.allowed_operations < 0 || c.allowed_operations
                    > 31,
                Some(Error::MustAllowChargeOperation) => c.allowed_operations % 2 == 0,
                Some(_) => false,
                None => agrees(s, merchant) && !s.merchant_configs.dom().contains(merchant)
                    && values_fit(c.fee_bips, c.allowed_operations),
            }
            &&& s2.merchant_configs.dom().contains(merchant)
            &&& s2.merchant_configs[merchant] == c
            &&& forall|m: Address|
                m != merchant ==> (#[trigger] s2.merchant_configs.dom().contains(m)
                    == s.merchant_configs.dom().contains(m)) && s2.merchant_configs[m]
                    == s.merchant_configs[m]
            &&& s2 == (State { merchant_configs: s2.merchant_configs, events: s2.events, ..s })
        }),
{
    let s2 = configured(s, merchant, c);
    assert(s2 =~= State { merchant_configs: s2.merchant_configs, events: s2.events, ..s });
}

/// A change of a merchant's settings replaces what it names and keeps the rest.
pub proof fn law_changing_merchant_settings(s: State, merchant: Address, u: MerchantConfigUpdate)
    ensures
        ({
            let s2 = updated(s, merchant, u);
            let c = s.merchant_configs[merchant];
            let d = s2.merchant_configs[merchant];
            &&& match update_refusal(s, merchant, u) {
                Some(Error::AuthRequired) => !agrees(s, merchant),
                Some(Error::NotFound) => !s.merchant_configs.dom().contains(merchant),
                Some(Error::InvalidFeeBips) => d.fee_bips < 0 || d.fee_bips > 10_000,
                Some(Error::InvalidOperations) => d.allowed_operations < 0 || d.allowed_operations
                    > 31,
                Some(Error::MustAllowChargeOperation) => d.allowed_operations % 2 == 0,
                Some(_) => false,
                None => agrees(s, merchant) && s.merchant_configs.dom().contains(merchant)
                    && values_fit(d.fee_bips, d.allowed_operations),
            }
            &&& d == updated_config(c, u)
            &&& d.payout_address == (if u.payout_address is Some {
                u.payout_address->0
            } else {
                c.payout_address
            })
            &&& d.fee_bips == (if u.fee_bips is Some {
                u.fee_bips->0
            } else {
                c.fee_bips
            })
            &&& d.allowed_operations == (if u.allowed_operations is Some {
                u.allowed_operations->0
            } else {
                c.allowed_operations
            })
            &&& d.is_active == (if u.is_active is Some {
                u.is_active->0
            } else {
                c.is_active
            })
            &&& u.fee_address is Some ==> d.fee_address == u.fee_address
            &&& u.fee_address is None ==> d.fee_address == c.fee_address
            &&& u.redirect_url is Some ==> d.redirect_url == u.redirect_url->0@
            &&& u.redirect_url is None ==> d.redirect_url == c.redirect_url
            &&& u.paused is Some ==> switched_off(s2, merchant) == u.paused->0
            &&& u.paused is None ==> s2.paused_merchants == s.paused_merchants
            &&& forall|m: Address|
                m != merchant ==> (#[trigger] s2.merchant_configs.dom().contains(m)
                    == s.merchant_configs.dom().contains(m)) && s2.merchant_configs[m]
                    == s.merchant_configs[m]
            &&& forall|m: Address|
                m != merchant ==> #[trigger] switched_off(s2, m) == switched_off(s, m)
            &&& s2 == (State {
                merchant_configs: s2.merchant_configs,
                paused_merchants: s2.paused_merchants,
                events: s2.events,
                ..s
            })
        }),
{
    let s2 = updated(s, merchant, u);
    assert(s2 =~= State {
        merchant_configs: s2.merchant_configs,
        paused_merchants: s2.paused_merchants,
        events: s2.events,
        ..s
    });
}

/// Only the merchant of a subscription can set down limits on its usage; they are kept as given.
pub proof fn law_usage_limits(s: State, merchant: Address, id: u32, limits: UsageLimits)
    ensures
        ({
            let s2 = limits_set(s, id, limits);
            &&& match limits_refusal(s, merchant, id) {
                Some(Error::AuthRequired) => !agrees(s, merchant),
                Some(Error::NotFound) => !s.subscriptions.dom().contains(id),
                Some(Error::Unauthorized) => merchant != s.subscriptions[id].merchant,
                Some(_) => false,
                None => agrees(s, merchant) && s.subscriptions.dom().contains(id) && merchant
                    == s.subscriptions[id].merchant,
            }
            &&& s2.usage_limits.dom().contains(id) && s2.usage_limits[id] == limits
            &&& forall|other: u32|
                other != id ==> (#[trigger] s2.usage_limits.dom().contains(other)
                    == s.usage_limits.dom().contains(other)) && s2.usage_limits[other]
                    == s.usage_limits[other]
            &&& s2 == (State { usage_limits: s2.usage_limits, events: s2.events, ..s })
        }),
{
    let s2 = limits_set(s, id, limits);
    assert(s2 =~= State { usage_limits: s2.usage_limits, events: s2.events, ..s });
}

} // verus!
