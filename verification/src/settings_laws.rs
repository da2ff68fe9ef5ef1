//! What the administrator's settings do, and who may make them.
use crate::admin::{
    accept_token_refusal, cancellation_set, cooling_down, fee_refusal, fee_set, init_refusal,
    initialised, liveness, liveness_refusal, liveness_reported, min_topup_refusal, min_topup_set,
    operator_refusal, operator_removed, operator_set, operator_set_refusal, oracle_set,
    override_cleared, override_refusal, override_set, rotate_refusal, rotated, setting_refusal,
    stop_set, timelock_set, token_accepted,
};
use crate::agreement_laws::{is_accepted, law_accepted_tokens_are_those_listed};
use crate::batch::bulk_ends;
use crate::events::Event;
use crate::measures::{agrees, away, fee_rate, run_out, switched_off};
use crate::nonce::{next_nonce, nonce_consumed, nonce_refusal, NonceDomain};
use crate::oracle_adapter::{price_refusal, OracleConfig, OraclePrice};
use crate::payments::{hands_over, Payment};
use crate::records::{
    BulkSubscriptionResult, CancellationPolicy, ConfigKey, OracleFeed, Subscription,
};
use crate::types::{vault, Address, Error};
use crate::vault::{blank, ends, next, Config, Ledger, State};
use vstd::prelude::*;

verus! {

/// Whether nothing has changed but the settings.
pub open spec fn only_config(s: State, s2: State) -> bool {
    s2 == (State { config: s2.config, events: s2.events, ..s })
}

/// Whether an address rules: it is the administrator, and has given its word.
pub open spec fn rules(s: State, who: Address) -> bool {
    agrees(s, who) && s.config.admin is Some && s.config.admin->0 == who
}

/// What the plain questions about a state mean: who has agreed, who rules, who is blocked, paused
/// or away, what has run out, and what anybody can withdraw.
pub proof fn law_plain_questions(s: State, who: Address, token: Address, sub: Subscription, at: u64)
    ensures
        s.authorized(who) == agrees(s, who),
        s.is_admin(who) <==> s.config.admin is Some && s.config.admin->0 == who,
        match s.admin_refusal(who) {
            Some(Error::AuthRequired) => !agrees(s, who),
            Some(Error::Unauthorized) => s.config.admin != Some(who),
            Some(_) => false,
            None => rules(s, who),
        },
        s.blocked(who) == s.blocklist.dom().contains(who),
        s.paused(who) == switched_off(s, who),
        s.on_vacation_at(who, at) == away(s, who, at as int),
        s.on_vacation(who) == away(s, who, s.ledger.timestamp as int),
        s.is_over(sub) == run_out(s, sub),
        s.merchant_balance(who, token) == crate::measures::credit(s, who, token),
        crate::token::held(s.tokens, token, who) == crate::measures::wallet(s, token, who),
        s.quiet() == (State { events: Seq::empty(), ..s }),
        crate::charging::fee_bps(s, who) == fee_rate(s, who),
{
}

/// A vault is set up once, with a positive smallest deposit. From then on the administrator, the
/// default token, the smallest deposit and the grace period are those given, and the token is
/// accepted with its decimals.
pub proof fn law_setting_up(
    s: State,
    token: Address,
    decimals: u32,
    admin: Address,
    min_topup: i128,
    grace: u64,
)
    ensures
        ({
            let s2 = initialised(s, token, decimals, admin, min_topup, grace);
            &&& match init_refusal(s, min_topup) {
                Some(Error::AlreadyInitialized) => s.config.admin is Some,
                Some(Error::InvalidAmount) => min_topup <= 0,
                Some(_) => false,
                None => s.config.admin is None && 0 < min_topup,
            }
            &&& s2.config == (Config {
                admin: Some(admin),
                token,
                min_topup,
                grace_period: grace,
                ..s.config
            })
            &&& s2.accepted_tokens.len() == s.accepted_tokens.len() + 1
            &&& s2.accepted_tokens.last() == (token, decimals)
            &&& forall|i: int|
                0 <= i < s.accepted_tokens.len() ==> #[trigger] s2.accepted_tokens[i]
                    == s.accepted_tokens[i]
            &&& s2 == (State {
                config: s2.config,
                accepted_tokens: s2.accepted_tokens,
                events: s2.events,
                ..s
            })
            &&& init_refusal(s2, min_topup) == Some(Error::AlreadyInitialized)
        }),
{
    let s2 = initialised(s, token, decimals, admin, min_topup, grace);
    assert(s2 =~= State {
        config: s2.config,
        accepted_tokens: s2.accepted_tokens,
        events: s2.events,
        ..s
    });
}

/// The smallest deposit is the administrator's to set, to something positive.
pub proof fn law_smallest_deposit(s: State, who: Address, min_topup: i128)
    ensures
        ({
            let s2 = min_topup_set(s, min_topup);
            &&& match min_topup_refusal(s, who, min_topup) {
                Some(Error::AuthRequired) => !agrees(s, who),
                Some(Error::Unauthorized) => s.config.admin != Some(who),
                Some(Error::InvalidAmount) => min_topup <= 0,
                Some(_) => false,
                None => rules(s, who) && 0 < min_topup,
            }
            &&& s2.config == (Config { min_topup, ..s.config })
            &&& only_config(s, s2)
        }),
{
    let s2 = min_topup_set(s, min_topup);
    assert(s2 =~= State { config: s2.config, events: s2.events, ..s });
}

/// The nonce that a signer must use next, read off the counters.
pub open spec fn counter(s: State, signer: Address, number: u32) -> int {
    if s.nonces.dom().contains((signer, number)) {
        s.nonces[(signer, number)] as int
    } else {
        0
    }
}

/// Whether one counter has moved on by one, and no other has moved.
pub open spec fn counts_one(s: State, s2: State, signer: Address, number: u32) -> bool {
    forall|a: Address, n: u32|
        #[trigger] counter(s2, a, n) == counter(s, a, n) + (if a == signer && n == number {
            1int
        } else {
            0
        })
}

/// The administrator is replaced at its own word, by somebody else that is not the vault, and with
/// the next nonce of rotations. Only the office and that counter change.
pub proof fn law_rotation(s: State, who: Address, new_admin: Address, nonce: u64)
    ensures
        ({
            let s2 = rotated(s, who, new_admin, nonce);
            match rotate_refusal(s, who, new_admin, nonce) {
                Some(Error::AuthRequired) => !agrees(s, who),
                Some(Error::Unauthorized) => s.config.admin != Some(who),
                Some(Error::SelfRotation) => new_admin == who,
                Some(Error::InvalidNewAdmin) => new_admin == vault(),
                Some(Error::NonceAlreadyUsed) => nonce != counter(s, who, 1),
                Some(Error::Overflow) => nonce == u64::MAX,
                Some(_) => false,
                None => {
                    &&& rules(s, who)
                    &&& new_admin != who
                    &&& new_admin != vault()
                    &&& nonce == counter(s, who, 1)
                    &&& s2.config == (Config { admin: Some(new_admin), ..s.config })
                    &&& counts_one(s, s2, who, 1)
                    &&& s2.events == seq![
                        Event::NonceConsumed { signer: who, domain: 1, nonce },
                        Event::AdminRotated {
                            old_admin: who,
                            new_admin,
                            timestamp: s.ledger.timestamp,
                        },
                    ]
                    &&& s2 == (State {
                        config: s2.config,
                        nonces: s2.nonces,
                        events: s2.events,
                        ..s
                    })
                },
            }
        }),
{
    let s2 = rotated(s, who, new_admin, nonce);
    assert(s2 =~= State { config: s2.config, nonces: s2.nonces, events: s2.events, ..s });
}

/// A nonce is taken exactly where it is the signer's next one in the domain, and then that counter
/// alone moves on by one. Different domains have different counters.
pub proof fn law_counting(s: State, signer: Address, domain: NonceDomain, nonce: u64)
    ensures
        ({
            let number = crate::nonce::domain_number(domain);
            let s2 = State { nonces: nonce_consumed(s.nonces, signer, domain), ..s };
            &&& next_nonce(s.nonces, signer, domain) == counter(s, signer, number)
            &&& match nonce_refusal(next_nonce(s.nonces, signer, domain), nonce) {
                Some(Error::NonceAlreadyUsed) => nonce != counter(s, signer, number),
                Some(Error::Overflow) => nonce == u64::MAX,
                Some(_) => false,
                None => nonce == counter(s, signer, number) && counts_one(s, s2, signer, number),
            }
        }),
        forall|other: NonceDomain|
            #[trigger] crate::nonce::domain_number(other) == crate::nonce::domain_number(domain)
                ==> other == domain,
        domain is BatchCharge ==> crate::nonce::domain_number(domain) == 0,
        domain is AdminRotation ==> crate::nonce::domain_number(domain) == 1,
        domain is OperatorBatchCharge ==> crate::nonce::domain_number(domain) == 2,
        domain is MetadataSigned ==> crate::nonce::domain_number(domain) == 3,
        domain is ChargeInterval ==> crate::nonce::domain_number(domain) == 4,
        domain is DepositFunds ==> crate::nonce::domain_number(domain) == 5,
        domain is ChargeOneOff ==> crate::nonce::domain_number(domain) == 6,
        domain is MerchantRotation ==> crate::nonce::domain_number(domain) == 7,
{
}

/// Whether a setting was changed less than six hours ago.
pub open spec fn rests(s: State, key: ConfigKey) -> bool {
    s.cooldowns.dom().contains(key) && s.ledger.timestamp < s.cooldowns[key] + 21_600
}

/// Whether a change of one setting is noted with the present time, and no other.
pub open spec fn notes_change(s: State, s2: State, key: ConfigKey) -> bool {
    &&& s2.cooldowns.dom().contains(key)
    &&& s2.cooldowns[key] == s.ledger.timestamp
    &&& forall|k: ConfigKey|
        k != key ==> (#[trigger] s2.cooldowns.dom().contains(k) == s.cooldowns.dom().contains(k))
            && s2.cooldowns[k] == s.cooldowns[k]
}

/// A setting that rests between changes can be changed by the administrator alone, and not again
/// for six hours.
pub proof fn law_settings_rest(s: State, who: Address, key: ConfigKey)
    ensures
        cooling_down(s, key) == rests(s, key),
        match setting_refusal(s, who, key) {
            Some(Error::AuthRequired) => !agrees(s, who),
            Some(Error::Unauthorized) => s.config.admin != Some(who),
            Some(Error::CooldownActive) => rests(s, key),
            Some(_) => false,
            None => rules(s, who) && !rests(s, key),
        },
{
}

/// The emergency stop is on or off as it was last switched. A switch is noted, unless it changes
/// nothing.
pub proof fn law_emergency_switch(s: State, who: Address, on: bool)
    ensures
        ({
            let s2 = stop_set(s, who, on);
            &&& s2.config == (Config { emergency_stop: on, ..s.config })
            &&& s.config.emergency_stop == on ==> s2 == s.quiet()
            &&& s.config.emergency_stop != on ==> notes_change(s, s2, ConfigKey::EmergencyStop)
            &&& s.config.emergency_stop != on && on ==> s2.events == seq![
                Event::EmergencyStopEnabled { admin: who, timestamp: s.ledger.timestamp },
            ]
            &&& s.config.emergency_stop != on && !on ==> s2.events == seq![
                Event::EmergencyStopDisabled { admin: who, timestamp: s.ledger.timestamp },
            ]
            &&& s2 == (State {
                config: s2.config,
                cooldowns: s2.cooldowns,
                events: s2.events,
                ..s
            })
        }),
{
    let s2 = stop_set(s, who, on);
    assert(s2 =~= State { config: s2.config, cooldowns: s2.cooldowns, events: s2.events, ..s });
}

/// The operator is whom the administrator appointed last, until dismissed; the vault cannot be it.
/// Only the operator in office that gives its word passes as the operator.
pub proof fn law_operator(s: State, who: Address, operator: Address)
    ensures
        ({
            let on = operator_set(s, who, operator);
            let off = operator_removed(s, who);
            &&& match operator_set_refusal(s, who, operator) {
                Some(Error::AuthRequired) => !agrees(s, who),
                Some(Error::Unauthorized) => s.config.admin != Some(who),
                Some(Error::InvalidInput) => operator == vault(),
                Some(Error::CooldownActive) => rests(s, ConfigKey::Operator),
                Some(_) => false,
                None => rules(s, who) && operator != vault() && !rests(s, ConfigKey::Operator),
            }
            &&& on.config == (Config { operator: Some(operator), ..s.config })
            &&& notes_change(s, on, ConfigKey::Operator)
            &&& on.events == seq![
                Event::OperatorSet { admin: who, operator, timestamp: s.ledger.timestamp },
            ]
            &&& on == (State {
                config: on.config,
                cooldowns: on.cooldowns,
                events: on.events,
                ..s
            })
            &&& off.config == (Config { operator: None, ..s.config })
            &&& s.config.operator is Some ==> notes_change(s, off, ConfigKey::Operator)
            &&& s.config.operator is None ==> off == s.quiet()
            &&& s.config.operator is Some ==> off.events == seq![
                Event::OperatorRemoved {
                    admin: who,
                    timestamp: (if s.cooldowns.dom().contains(ConfigKey::Operator) {
                        s.cooldowns[ConfigKey::Operator]
                    } else {
                        s.ledger.timestamp
                    }),
                },
            ]
            &&& off == (State {
                config: off.config,
                cooldowns: off.cooldowns,
                events: off.events,
                ..s
            })
            &&& match operator_refusal(s, operator) {
                Some(Error::Unauthorized) => s.config.operator != Some(operator),
                Some(Error::AuthRequired) => !agrees(s, operator),
                Some(_) => false,
                None => s.config.operator == Some(operator) && agrees(s, operator),
            }
        }),
{
    let on = operator_set(s, who, operator);
    let off = operator_removed(s, who);
    assert(on =~= State { config: on.config, cooldowns: on.cooldowns, events: on.events, ..s });
    assert(off =~= State { config: off.config, cooldowns: off.cooldowns, events: off.events, ..s });
}

/// A token that is accepted joins the end of the list with its decimals; one that is on the list
/// already is refused.
pub proof fn law_accepting_a_token(s: State, who: Address, token: Address, decimals: u32)
    ensures
        ({
            let s2 = token_accepted(s, token, decimals);
            &&& match accept_token_refusal(s, who, token) {
                Some(Error::AuthRequired) => !agrees(s, who),
                Some(Error::Unauthorized) => s.config.admin != Some(who),
                Some(Error::CooldownActive) => rests(s, ConfigKey::AcceptedTokens),
                Some(Error::InvalidInput) => is_accepted(s, token),
                Some(_) => false,
                None => rules(s, who) && !rests(s, ConfigKey::AcceptedTokens) && !is_accepted(
                    s,
                    token,
                ),
            }
            &&& s2.accepted_tokens.len() == s.accepted_tokens.len() + 1
            &&& s2.accepted_tokens.last() == (token, decimals)
            &&& forall|i: int|
                0 <= i < s.accepted_tokens.len() ==> #[trigger] s2.accepted_tokens[i]
                    == s.accepted_tokens[i]
            &&& notes_change(s, s2, ConfigKey::AcceptedTokens)
            &&& s2 == (State {
                accepted_tokens: s2.accepted_tokens,
                cooldowns: s2.cooldowns,
                events: s2.events,
                ..s
            })
        }),
{
    law_accepted_tokens_are_those_listed(s, token);
    let s2 = token_accepted(s, token, decimals);
    assert(s2 =~= State {
        accepted_tokens: s2.accepted_tokens,
        cooldowns: s2.cooldowns,
        events: s2.events,
        ..s
    });
}

/// The fee and the treasury that takes it are the administrator's to set, up to five in a hundred.
/// A merchant can be given a lower fee of its own, which counts for that merchant alone until it is
/// dropped.
pub proof fn law_fees(s: State, who: Address, treasury: Address, merchant: Address, bps: u32, other: Address)
    ensures
        ({
            let s2 = fee_set(s, treasury, bps);
            let own = override_set(s, merchant, bps);
            let none = override_cleared(s, merchant);
            &&& match fee_refusal(s, who, bps) {
                Some(Error::AuthRequired) => !agrees(s, who),
                Some(Error::Unauthorized) => s.config.admin != Some(who),
                Some(Error::InvalidFeeBips) => bps > 500,
                Some(_) => false,
                None => rules(s, who) && bps <= 500,
            }
            &&& s2.config == (Config { treasury, protocol_fee_bps: bps, ..s.config })
            &&& only_config(s, s2)
            &&& match override_refusal(s, who, bps) {
                Some(Error::AuthRequired) => !agrees(s, who),
                Some(Error::Unauthorized) => s.config.admin != Some(who),
                Some(Error::InvalidFeeBips) => bps > 10_000 || bps > s.config.protocol_fee_bps,
                Some(_) => false,
                None => rules(s, who) && bps <= 10_000 && bps <= s.config.protocol_fee_bps,
            }
            &&& bps <= 10_000 ==> fee_rate(own, merchant) == bps
            &&& other != merchant ==> fee_rate(own, other) == fee_rate(s, other)
            &&& s.config.protocol_fee_bps <= 10_000 ==> fee_rate(none, merchant)
                == s.config.protocol_fee_bps
            &&& other != merchant ==> fee_rate(none, other) == fee_rate(s, other)
            &&& own.fee_overrides.dom().contains(merchant) && own.fee_overrides[merchant] == bps
            &&& !none.fee_overrides.dom().contains(merchant)
            &&& own == (State { fee_overrides: own.fee_overrides, events: own.events, ..s })
            &&& none == (State { fee_overrides: none.fee_overrides, events: none.events, ..s })
        }),
{
    let s2 = fee_set(s, treasury, bps);
    let own = override_set(s, merchant, bps);
    let none = override_cleared(s, merchant);
    assert(s2 =~= State { config: s2.config, events: s2.events, ..s });
    assert(own =~= State { fee_overrides: own.fee_overrides, events: own.events, ..s });
    assert(none =~= State { fee_overrides: none.fee_overrides, events: none.events, ..s });
}

/// What becomes of the balances of cancelled subscriptions, and how long proposals wait, is what was
/// set last.
pub proof fn law_policies(s: State, policy: CancellationPolicy, delay: u64)
    ensures
        cancellation_set(s, policy).config == (Config { cancellation: policy, ..s.config }),
        only_config(s, cancellation_set(s, policy)),
        timelock_set(s, delay).config == (Config { min_timelock_delay: delay, ..s.config }),
        only_config(s, timelock_set(s, delay)),
{
    let a = cancellation_set(s, policy);
    let b = timelock_set(s, delay);
    assert(a =~= State { config: a.config, events: a.events, ..s });
    assert(b =~= State { config: b.config, events: b.events, ..s });
}

/// The price feed is configured as it was asked for, and its liveness is reported as healthy while
/// the sample, a minute old at most, is at most half as old as a price may be.
pub proof fn law_price_feed(s: State, feed: OracleFeed)
    ensures
        ({
            let s2 = oracle_set(s, feed);
            let l = liveness(s);
            let s3 = liveness_reported(s);
            let now = s.ledger.timestamp;
            &&& s2.config == (Config { oracle: feed, ..s.config })
            &&& notes_change(s, s2, ConfigKey::OracleConfig)
            &&& s2 == (State {
                config: s2.config,
                cooldowns: s2.cooldowns,
                events: s2.events,
                ..s
            })
            &&& liveness_refusal(s) == (if s.config.oracle.enabled && s.config.oracle.oracle is Some
                && s.config.oracle.max_age_seconds > 0 {
                None
            } else {
                Some(Error::OracleNotConfigured)
            })
            &&& l.timestamp == now
            &&& l.last_sample_ts + l.age == now
            &&& l.age == (if now < 60 {
                now
            } else {
                60
            })
            &&& l.healthy <==> l.age * 2 <= s.config.oracle.max_age_seconds
            &&& s3 == (State { events: s3.events, ..s })
            &&& s3.events == seq![
                Event::OracleLiveness {
                    last_sample_ts: l.last_sample_ts,
                    age: l.age,
                    healthy: l.healthy,
                    timestamp: l.timestamp,
                },
            ]
        }),
{
    let s2 = oracle_set(s, feed);
    assert(s2 =~= State { config: s2.config, cooldowns: s2.cooldowns, events: s2.events, ..s });
}

/// A price can be used where it is positive, not older than allowed, and within the band, if there
/// is one. It is refused as stale or invalid for that cause alone.
pub proof fn law_prices(now: u64, p: OraclePrice, c: OracleConfig)
    ensures
        match price_refusal(now, p, c) {
            Some(Error::OraclePriceStale) => p.timestamp + c.max_age_seconds < now,
            Some(Error::OraclePriceInvalid) => p.price <= 0 || (c.oracle_price_min is Some && p.price
                < c.oracle_price_min->0) || (c.oracle_price_max is Some && c.oracle_price_max->0
                < p.price),
            Some(_) => false,
            None => {
                &&& 0 < p.price
                &&& now <= p.timestamp + c.max_age_seconds
                &&& c.oracle_price_min is Some ==> c.oracle_price_min->0 <= p.price
                &&& c.oracle_price_max is Some ==> p.price <= c.oracle_price_max->0
            },
        },
{
}

/// A call that is refused says why and changes nothing; it reports nothing either. A call that is
/// not refused is done.
pub proof fn law_how_calls_end(
    r: Result<(), Error>,
    before: State,
    after: State,
    refusal: Option<Error>,
    done: State,
)
    requires
        ends(r, before, after, refusal, (), done),
    ensures
        refusal is Some ==> {
            &&& r == Err::<(), Error>(refusal->0)
            &&& after == (State { events: after.events, ..before })
            &&& after.events.len() == 0
        },
        refusal is None ==> r is Ok && after == done,
        next(before, refusal, done) == after,
{
}

/// A call that makes a transfer and is refused changes nothing; one that is not leaves the vault
/// locked, with every record as it is to be and the tokens still where they were, until the transfer
/// is made.
pub proof fn law_how_transfers_begin(
    r: Result<Option<Payment>, Error>,
    before: State,
    after: State,
    refusal: Option<Error>,
    payment: Option<Payment>,
    done: State,
)
    requires
        hands_over(r, before, after, refusal, payment, done),
    ensures
        refusal is Some ==> {
            &&& r == Err::<Option<Payment>, Error>(refusal->0)
            &&& after == (State { events: after.events, ..before })
            &&& after.events.len() == 0
        },
        refusal is None ==> r == Ok::<Option<Payment>, Error>(payment),
        refusal is None && payment is Some ==> {
            &&& after.config.locked
            &&& after.tokens == before.tokens
            &&& after == (State { tokens: after.tokens, config: after.config, ..done })
            &&& after.config == (Config { locked: true, ..done.config })
        },
        refusal is None && payment is None ==> after == done,
{
    if refusal is None && payment is Some {
        assert(after =~= State { tokens: after.tokens, config: after.config, ..done });
    }
}

/// A bulk call without items does nothing at all; a refused one changes nothing; any other gives
/// back its results, one for each item, and sums up what it did.
pub proof fn law_how_bulk_calls_end(
    r: Result<Vec<BulkSubscriptionResult>, Error>,
    before: State,
    after: State,
    len: int,
    refusal: Option<Error>,
    results: Seq<BulkSubscriptionResult>,
    done: State,
    caller: Address,
)
    requires
        bulk_ends(r, before, after, len, refusal, results, done, caller),
    ensures
        len == 0 ==> r is Ok && r->Ok_0@.len() == 0 && after == before,
        len != 0 && refusal is Some ==> {
            &&& r is Err && r->Err_0 == refusal->0
            &&& after == (State { events: after.events, ..before })
            &&& after.events.len() == 0
        },
        len != 0 && refusal is None ==> {
            &&& r is Ok && r->Ok_0@ == results
            &&& after == (State { events: after.events, ..done })
        },
{
    if len != 0 && refusal is None {
        assert(after =~= State { events: after.events, ..done });
    }
}

/// A new vault has no administrator, no operator and nothing on record. It is neither stopped nor
/// locked, takes no fee and asks no premium, keeps the balances of cancelled subscriptions, makes
/// proposals wait two days, and nobody has agreed to anything.
pub proof fn law_new_vault(ledger: Ledger, who: Address, token: Address)
    ensures
        ({
            let s = blank(ledger);
            &&& s.ledger == ledger
            &&& !agrees(s, who)
            &&& s.config.admin is None
            &&& s.config.operator is None
            &&& !s.config.emergency_stop
            &&& !s.config.locked
            &&& s.config.protocol_fee_bps == 0
            &&& s.config.buyout_premium_bps == 0
            &&& s.config.cancellation is Retain
            &&& s.config.min_timelock_delay == 172_800
            &&& !s.config.oracle.enabled
            &&& s.config.next_subscription_id == 0
            &&& s.config.next_plan_id == 0
            &&& s.config.next_dispute_id == 1
            &&& s.config.next_proposal_id == 0
            &&& s.subscriptions.dom().is_empty()
            &&& s.plans.dom().is_empty()
            &&& s.tokens.dom().is_empty()
            &&& s.merchant_balances.dom().is_empty()
            &&& s.sub_balances.dom().is_empty()
            &&& s.escrows.dom().is_empty()
            &&& s.disputes.dom().is_empty()
            &&& s.dispute_ledgers.dom().is_empty()
            &&& s.guardians.dom().is_empty()
            &&& s.proposals.dom().is_empty()
            &&& s.votes.dom().is_empty()
            &&& s.grants.dom().is_empty()
            &&& s.blocklist.dom().is_empty()
            &&& s.nonces.dom().is_empty()
            &&& s.rings.dom().is_empty()
            &&& s.metadata.dom().is_empty()
            &&& s.fee_overrides.dom().is_empty()
            &&& s.splits.dom().is_empty()
            &&& s.accepted_tokens.len() == 0
            &&& s.events.len() == 0
            &&& crate::measures::wallet(s, token, who) == 0
            &&& crate::measures::credit(s, who, token) == 0
            &&& fee_rate(s, who) == 0
        }),
{
}

} // verus!
