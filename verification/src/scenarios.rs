//! Ready-made situations: vaults with an administrator and a token, funded subscriptions, merchants
//! with balances.
use crate::billing::charge_done;
use crate::deposits::{deposit_done, deposit_funds_refusal};
use crate::events::Event;
use crate::lifecycle::cancelled;
use crate::merchants::{config_refusal, configured, ALL_OPERATIONS, OP_CHARGE};
use crate::records::{CancellationPolicy, MerchantConfigState, Subscription, SubscriptionStatus};
use crate::statements::{
    append_statement, BillingChargeKind, BillingStatement, StatementBook, StatementState,
};
use crate::subscriptions::{create_refusal, created, Terms};
use crate::token::{held, mint, minted};
use crate::types::{bytes32, Address, Bytes32, Error};
use crate::vault::{blank, Config, Ledger, State, Vault};
use vstd::prelude::*;

verus! {

/// Thirty days.
pub const THIRTY_DAYS: u64 = 2_592_000;

/// A charge of ten units of a token with six decimals.
pub fn amount() -> (a: i128)
    ensures
        a == 10_000_000,
{
    10_000_000
}

/// A smallest deposit of one unit of a token with six decimals.
pub fn min_topup() -> (a: i128)
    ensures
        a == 1_000_000,
{
    1_000_000
}

/// A grace period of seven days.
pub fn grace_period() -> (secs: u64)
    ensures
        secs == 7 * 24 * 60 * 60,
{
    604_800
}

/// The time one hour from now.
pub fn one_hour_from_now(vault: &Vault) -> (t: u64)
    requires
        vault@.ledger.timestamp + 3600 <= u64::MAX,
    ensures
        t == vault@.ledger.timestamp + 3600,
{
    vault.ledger.timestamp + 3600
}

/// A key of zero bytes, but for the last.
pub fn make_key(last: u8) -> (k: Bytes32)
    ensures
        k@ == Seq::new(
            32,
            |i: int|
                if i == 31 {
                    last
                } else {
                    0u8
                },
        ),
{
    let mut bytes: [u8; 32] = [0u8;32];
    bytes[31] = last;
    let k = Bytes32 { bytes };
    assert(k@ =~= Seq::new(
        32,
        |i: int|
            if i == 31 {
                last
            } else {
                0u8
            },
    ));
    k
}

/// A clock at the given time, on the chain whose name is empty.
pub fn ledger_at(timestamp: u64, sequence: u32) -> (l: Ledger)
    ensures
        l.timestamp == timestamp,
        l.sequence == sequence,
        l.network_id@ == crate::types::padded32(Seq::empty()),
{
    let name: [u8; 0] = [];
    let l = Ledger { timestamp, sequence, network_id: bytes32(&name) };
    assert(name@ =~= Seq::empty());
    l
}

/// The state after `n` new addresses were handed out.
pub open spec fn named(s: State, n: int) -> State {
    State { config: Config { next_address: (s.config.next_address + n) as u64, ..s.config }, ..s }
}

/// The address that is handed out after `n` others.
pub open spec fn address_at(s: State, n: int) -> Address {
    Address::Contract((s.config.next_address + n) as u64)
}

/// The state after tokens were given to a holder.
pub open spec fn with_minted(s: State, token: Address, to: Address, amount: i128) -> State {
    State { tokens: minted(s.tokens, token, to, amount), ..s }
}

impl Vault {
    /// An address that was not handed out before.
    pub fn generate_address(&mut self) -> (a: Address)
        requires
            old(self)@.config.next_address < u64::MAX,
        ensures
            a == address_at(old(self)@, 0),
            final(self)@ == named(old(self)@, 1),
    {
        let n: u64 = self.config.next_address;
        self.config.next_address = n + 1;
        Address::Contract(n)
    }

    /// Gives new tokens to a holder.
    pub fn mint(&mut self, token: &Address, to: &Address, amount: i128)
        requires
            i128::MIN <= held(old(self)@.tokens, *token, *to) + amount <= i128::MAX,
        ensures
            final(self)@ == with_minted(old(self)@, *token, *to, amount),
    {
        mint(&mut self.tokens, token, to, amount);
    }

    /// Moves the clock.
    pub fn set_timestamp(&mut self, timestamp: u64)
        ensures
            final(self)@ == at_time(old(self)@, timestamp),
    {
        self.ledger.timestamp = timestamp;
    }
}

/// The state at another time.
pub open spec fn at_time(s: State, timestamp: u64) -> State {
    State { ledger: Ledger { timestamp, ..s.ledger }, ..s }
}

/// A vault that has been initialised, with its token and its administrator.
pub struct Scene {
    pub vault: Vault,
    pub token: Address,
    pub admin: Address,
}

/// The administrator of every scene.
pub open spec fn scene_admin() -> Address {
    Address::Contract(1)
}

/// The default token of every scene.
pub open spec fn scene_token() -> Address {
    Address::Contract(2)
}

/// The state of a vault that was just initialised, in which every party counts as having
/// authorised every call.
pub open spec fn set_up(ledger: Ledger, decimals: u32, min_topup: i128, grace_period: u64) -> State {
    crate::admin::initialised(
        named(State { allow_all: true, ..blank(ledger) }, 2),
        scene_token(),
        decimals,
        scene_admin(),
        min_topup,
        grace_period,
    )
}

/// A vault that was just initialised.
pub fn setup(ledger: Ledger, decimals: u32, min_topup: i128, grace_period: u64) -> (scene: Scene)
    requires
        min_topup > 0,
    ensures
        scene.vault@ == set_up(ledger, decimals, min_topup, grace_period),
        scene.token == scene_token(),
        scene.admin == scene_admin(),
{
    let mut vault = Vault::new(ledger);
    vault.allow_all = true;
    let admin = vault.generate_address();
    let token = vault.generate_address();
    let _ = vault.init(&token, decimals, &admin, min_topup, grace_period);
    assert(vault@ =~= set_up(ledger, decimals, min_topup, grace_period));
    Scene { vault, token, admin }
}

/// A vault at a time shortly after the epoch, on its first ledger.
pub fn setup_env() -> (scene: Scene)
    ensures
        scene.token == scene_token(),
        scene.admin == scene_admin(),
        scene.vault@.ledger.timestamp == 1_000,
        scene.vault@.ledger.sequence == 1,
        scene.vault@.ledger.network_id@ == crate::types::padded32(Seq::empty()),
        scene.vault@ == set_up(scene.vault@.ledger, 6, 1_000_000, 604_800),
{
    setup(ledger_at(1_000, 1), 6, min_topup(), grace_period())
}

/// A vault at the time one million, which holds tokens of nobody's.
pub fn setup_test_env() -> (scene: Scene)
    ensures
        scene.token == scene_token(),
        scene.admin == scene_admin(),
        scene.vault@.ledger.timestamp == 1_000_000,
        scene.vault@.ledger.sequence == 0,
        scene.vault@.ledger.network_id@ == crate::types::padded32(Seq::empty()),
        scene.vault@ == with_minted(
            set_up(scene.vault@.ledger, 6, 1_000_000, 604_800),
            scene_token(),
            crate::types::vault(),
            1_000_000_000,
        ),
{
    let mut scene = setup(ledger_at(1_000_000, 0), 6, min_topup(), grace_period());
    let token = scene.token;
    scene.vault.mint(&token, &crate::types::vault_address(), 1_000_000_000);
    scene
}

/// A vault at the epoch.
pub fn setup_security_env() -> (scene: Scene)
    ensures
        scene.token == scene_token(),
        scene.admin == scene_admin(),
        scene.vault@.ledger.timestamp == 0,
        scene.vault@.ledger.sequence == 0,
        scene.vault@.ledger.network_id@ == crate::types::padded32(Seq::empty()),
        scene.vault@ == set_up(scene.vault@.ledger, 6, 1_000_000, 604_800),
{
    setup(ledger_at(0, 0), 6, min_topup(), grace_period())
}

/// A vault with a large smallest deposit and a grace period of a day, whose proposals have to wait
/// for `min_timelock_delay` seconds.
pub fn init_vault(min_timelock_delay: u64) -> (scene: Scene)
    ensures
        scene.token == scene_token(),
        scene.admin == scene_admin(),
        scene.vault@.ledger.timestamp == 0,
        scene.vault@.ledger.sequence == 0,
        scene.vault@.ledger.network_id@ == crate::types::padded32(Seq::empty()),
        ({
            let s = set_up(scene.vault@.ledger, 6, 10_000_000, 86_400);
            scene.vault@ == (State {
                config: Config { min_timelock_delay, ..s.config },
                ..s
            })
        }),
{
    let mut scene = setup(ledger_at(0, 0), 6, 10_000_000, 86_400);
    let admin = scene.admin;
    let _ = scene.vault.set_min_timelock_delay(&admin, min_timelock_delay);
    scene
}

/// The status of a subscription.
pub fn status(vault: &Vault, id: u32) -> (s: SubscriptionStatus)
    requires
        vault@.subscriptions.dom().contains(id),
    ensures
        s == vault@.subscriptions[id].status,
{
    match vault.subscriptions.get(&id) {
        Some(sub) => sub.status,
        None => SubscriptionStatus::Archived,
    }
}

/// Plain terms in the default token between two new parties.
pub open spec fn plain_terms(s: State, amount: i128, interval: u64, usage: bool, cap: Option<i128>) -> Terms {
    Terms {
        subscriber: address_at(s, 0),
        merchant: address_at(s, 1),
        token: s.config.token,
        amount,
        interval_seconds: interval,
        usage_enabled: usage,
        lifetime_cap: cap,
        expires_at: None,
        expires_at_ledger: None,
        sub_account_label: None,
    }
}

/// A subscription between two new parties: its number, the subscriber and the merchant.
pub fn create_sub(
    vault: &mut Vault,
    amount: i128,
    interval: u64,
    usage_enabled: bool,
    lifetime_cap: Option<i128>,
) -> (r: Result<(u32, Address, Address), Error>)
    requires
        old(vault)@.config.next_address < u64::MAX - 1,
    ensures
        ({
            let s = old(vault)@;
            let t = plain_terms(s, amount, interval, usage_enabled, lifetime_cap);
            match create_refusal(named(s, 2), t) {
                Some(e) => r == Err::<(u32, Address, Address), Error>(e) && final(vault)@ == named(
                    s,
                    2,
                ).quiet(),
                None => r == Ok::<(u32, Address, Address), Error>(
                    (s.config.next_subscription_id, t.subscriber, t.merchant),
                ) && final(vault)@ == created(named(s, 2), t),
            }
        }),
        r matches Ok((id, subscriber, merchant)) ==> {
            let sub = final(vault)@.subscriptions[id];
            &&& sub.subscriber == subscriber
            &&& sub.merchant == merchant
            &&& sub.token == old(vault)@.config.token
            &&& sub.amount == amount
            &&& sub.interval_seconds == interval
            &&& sub.usage_enabled == usage_enabled
            &&& sub.lifetime_cap == lifetime_cap
            &&& sub.prepaid_balance == 0
            &&& sub.status is Active
        },
{
    let ghost s = vault@;
    let subscriber = vault.generate_address();
    let merchant = vault.generate_address();
    assert(vault@ =~= named(s, 2));
    match vault.create_subscription(
        &subscriber,
        &merchant,
        amount,
        interval,
        usage_enabled,
        lifetime_cap,
        None,
        None,
    ) {
        Err(e) => Err(e),
        Ok(id) => Ok((id, subscriber, merchant)),
    }
}

/// Why a new subscription is not funded.
pub open spec fn fund_refusal(
    s: State,
    amount: i128,
    interval: u64,
    usage: bool,
    cap: Option<i128>,
    deposit: i128,
) -> Option<Error> {
    let t = plain_terms(s, amount, interval, usage, cap);
    if create_refusal(named(s, 2), t) is Some {
        create_refusal(named(s, 2), t)
    } else {
        deposit_funds_refusal(
            with_minted(created(named(s, 2), t), t.token, t.subscriber, deposit),
            s.config.next_subscription_id,
            deposit,
            None,
        )
    }
}

/// The state in which a new subscription was not funded: without it, or with it unfunded.
pub open spec fn left_unfunded(
    s: State,
    amount: i128,
    interval: u64,
    usage: bool,
    cap: Option<i128>,
    deposit: i128,
) -> State {
    let t = plain_terms(s, amount, interval, usage, cap);
    if create_refusal(named(s, 2), t) is Some {
        named(s, 2).quiet()
    } else {
        with_minted(created(named(s, 2), t), t.token, t.subscriber, deposit).quiet()
    }
}

/// The state after a new subscription was created and funded.
pub open spec fn created_and_funded(
    s: State,
    amount: i128,
    interval: u64,
    usage: bool,
    cap: Option<i128>,
    deposit: i128,
) -> State {
    let t = plain_terms(s, amount, interval, usage, cap);
    deposit_done(
        with_minted(created(named(s, 2), t), t.token, t.subscriber, deposit),
        t.subscriber,
        s.config.next_subscription_id,
        deposit,
        None,
    )
}

/// A subscription between two new parties, into which the subscriber has deposited.
pub fn create_and_fund_sub(
    vault: &mut Vault,
    amount: i128,
    interval: u64,
    usage_enabled: bool,
    lifetime_cap: Option<i128>,
    deposit: i128,
) -> (r: Result<(u32, Address, Address), Error>)
    requires
        old(vault)@.config.next_address < u64::MAX - 1,
        i128::MIN <= held(
            old(vault)@.tokens,
            old(vault)@.config.token,
            address_at(old(vault)@, 0),
        ) + deposit <= i128::MAX,
    ensures
        ({
            let s = old(vault)@;
            match fund_refusal(s, amount, interval, usage_enabled, lifetime_cap, deposit) {
                Some(e) => r == Err::<(u32, Address, Address), Error>(e) && final(vault)@
                    == left_unfunded(s, amount, interval, usage_enabled, lifetime_cap, deposit),
                None => r == Ok::<(u32, Address, Address), Error>(
                    (s.config.next_subscription_id, address_at(s, 0), address_at(s, 1)),
                ) && final(vault)@ == created_and_funded(
                    s,
                    amount,
                    interval,
                    usage_enabled,
                    lifetime_cap,
                    deposit,
                ),
            }
        }),
        r matches Ok((id, subscriber, merchant)) ==> {
            let sub = final(vault)@.subscriptions[id];
            let token = old(vault)@.config.token;
            &&& sub.subscriber == subscriber
            &&& sub.merchant == merchant
            &&& sub.token == token
            &&& sub.amount == amount
            &&& sub.interval_seconds == interval
            &&& sub.prepaid_balance == deposit
            &&& sub.status is Active
            &&& subscriber != crate::types::vault() ==> held(
                final(vault)@.tokens,
                token,
                subscriber,
            ) == held(old(vault)@.tokens, token, subscriber)
            &&& subscriber != crate::types::vault() ==> held(
                final(vault)@.tokens,
                token,
                crate::types::vault(),
            ) == held(old(vault)@.tokens, token, crate::types::vault()) + deposit
        },
{
    let token = vault.config.token;
    match create_sub(vault, amount, interval, usage_enabled, lifetime_cap) {
        Err(e) => Err(e),
        Ok((id, subscriber, merchant)) => {
            vault.mint(&token, &subscriber, deposit);
            match vault.deposit_funds(id, deposit, None) {
                Err(e) => Err(e),
                Ok(_) => Ok((id, subscriber, merchant)),
            }
        },
    }
}

/// What [`create_and_fund_for`] charges per interval.
pub const DAILY_AMOUNT: i128 = 10_000_000;

/// What [`create_and_fund_for`] deposits.
pub const DAILY_DEPOSIT: i128 = 50_000_000;

/// What [`create_and_fund_for`] gives a subscriber that cannot make the deposit.
pub const DAILY_TOP_UP: i128 = 100_000_000;

/// The terms of [`create_and_fund_for`].
pub open spec fn daily_terms(s: State, subscriber: Address, merchant: Address) -> Terms {
    Terms {
        subscriber,
        merchant,
        token: s.config.token,
        amount: DAILY_AMOUNT,
        interval_seconds: 86_400,
        usage_enabled: false,
        lifetime_cap: None,
        expires_at: None,
        expires_at_ledger: None,
        sub_account_label: None,
    }
}

/// The state with a subscriber given [`DAILY_TOP_UP`] tokens if they hold less than
/// [`DAILY_DEPOSIT`].
pub open spec fn topped_up(s: State, subscriber: Address) -> State {
    if held(s.tokens, s.config.token, subscriber) < DAILY_DEPOSIT {
        with_minted(s, s.config.token, subscriber, DAILY_TOP_UP)
    } else {
        s
    }
}

/// The state in which [`create_and_fund_for`] deposits.
pub open spec fn before_daily_deposit(s: State, subscriber: Address, merchant: Address) -> State {
    topped_up(created(s, daily_terms(s, subscriber, merchant)), subscriber)
}

/// Why [`create_and_fund_for`] fails.
pub open spec fn fund_for_refusal(s: State, subscriber: Address, merchant: Address) -> Option<Error> {
    let t = daily_terms(s, subscriber, merchant);
    if create_refusal(s, t) is Some {
        create_refusal(s, t)
    } else {
        deposit_funds_refusal(
            before_daily_deposit(s, subscriber, merchant),
            s.config.next_subscription_id,
            DAILY_DEPOSIT,
            None,
        )
    }
}

/// The state in which [`create_and_fund_for`] fails.
pub open spec fn fund_for_left(s: State, subscriber: Address, merchant: Address) -> State {
    if create_refusal(s, daily_terms(s, subscriber, merchant)) is Some {
        s.quiet()
    } else {
        before_daily_deposit(s, subscriber, merchant).quiet()
    }
}

/// The state after [`create_and_fund_for`].
pub open spec fn funded_for(s: State, subscriber: Address, merchant: Address) -> State {
    at_time(
        deposit_done(
            before_daily_deposit(s, subscriber, merchant),
            subscriber,
            s.config.next_subscription_id,
            DAILY_DEPOSIT,
            None,
        ),
        (s.ledger.timestamp + 1) as u64,
    )
}

/// A daily subscription between two given parties, into which the subscriber has deposited, with
/// new tokens where they held too few. A second passes.
pub fn create_and_fund_for(vault: &mut Vault, subscriber: &Address, merchant: &Address) -> (r: Result<
    u32,
    Error,
>)
    requires
        old(vault)@.ledger.timestamp < u64::MAX,
    ensures
        ({
            let s = old(vault)@;
            match fund_for_refusal(s, *subscriber, *merchant) {
                Some(e) => r == Err::<u32, Error>(e) && final(vault)@ == fund_for_left(
                    s,
                    *subscriber,
                    *merchant,
                ),
                None => r == Ok::<u32, Error>(s.config.next_subscription_id) && final(vault)@
                    == funded_for(s, *subscriber, *merchant),
            }
        }),
        r is Ok ==> {
            let s = old(vault)@;
            let id = s.config.next_subscription_id;
            &&& final(vault)@.subscriptions[id].prepaid_balance == 50_000_000
            &&& final(vault)@.ledger.timestamp == s.ledger.timestamp + 1
        },
        r is Ok && *subscriber != crate::types::vault() ==> {
            let s = old(vault)@;
            let b = held(s.tokens, s.config.token, *subscriber);
            held(final(vault)@.tokens, s.config.token, *subscriber) == (if b < 50_000_000 {
                b + 100_000_000
            } else {
                b as int
            }) - 50_000_000
        },
{
    let token = vault.config.token;
    let id: u32 = match vault.create_subscription(
        subscriber,
        merchant,
        DAILY_AMOUNT,
        86_400,
        false,
        None,
        None,
        None,
    ) {
        Err(e) => {
            return Err(e);
        },
        Ok(id) => id,
    };
    if vault.balance(&token, subscriber) < DAILY_DEPOSIT {
        vault.mint(&token, subscriber, DAILY_TOP_UP);
    }
    match vault.deposit_funds(id, DAILY_DEPOSIT, None) {
        Err(e) => {
            return Err(e);
        },
        Ok(_) => {},
    }
    let now: u64 = vault.ledger.timestamp;
    vault.set_timestamp(now + 1);
    Ok(id)
}

/// The state with another prepaid balance.
pub open spec fn with_balance(s: State, id: u32, balance: i128) -> State {
    if s.subscriptions.dom().contains(id) {
        State {
            subscriptions: s.subscriptions.insert(
                id,
                Subscription { prepaid_balance: balance, ..s.subscriptions[id] },
            ),
            ..s
        }
    } else {
        s
    }
}

/// Overwrites a prepaid balance, if there is such a subscription. No tokens move.
pub fn set_balance(vault: &mut Vault, id: u32, balance: i128)
    ensures
        final(vault)@ == with_balance(old(vault)@, id, balance),
{
    match vault.subscriptions.get(&id) {
        None => {},
        Some(s) => {
            let mut sub = *s;
            sub.prepaid_balance = balance;
            vault.subscriptions.insert(id, sub);
        },
    }
}

/// Overwrites a merchant's balance in a token. No tokens move.
pub fn seed_merchant_balance(vault: &mut Vault, merchant: &Address, token: &Address, balance: i128)
    ensures
        final(vault)@ == (State {
            merchant_balances: old(vault)@.merchant_balances.insert((*merchant, *token), balance),
            ..old(vault)@
        }),
{
    vault.merchant_balances.insert((*merchant, *token), balance);
}

/// Sets the premium on buyouts.
pub fn set_buyout_premium(vault: &mut Vault, bps: u32)
    ensures
        final(vault)@ == (State {
            config: Config { buyout_premium_bps: bps, ..old(vault)@.config },
            ..old(vault)@
        }),
{
    vault.config.buyout_premium_bps = bps;
}

/// Empties a subscription's balance and charges it at the given time. Returns whether that put the
/// subscription into its grace period.
pub fn force_into_grace_period(vault: &mut Vault, id: u32, at: u64) -> (in_grace: bool)
    ensures
        final(vault)@ == charge_done(at_time(with_balance(old(vault)@, id, 0), at), id, None),
        in_grace == (final(vault)@.subscriptions.dom().contains(id)
            && final(vault)@.subscriptions[id].status is GracePeriod),
{
    set_balance(vault, id, 0);
    vault.set_timestamp(at);
    let _ = vault.charge_subscription(id, None);
    match vault.subscriptions.get(&id) {
        Some(sub) => sub.status == SubscriptionStatus::GracePeriod,
        None => false,
    }
}

/// The state of [`setup_cancelled_with_balance`] before the cancellation.
pub open spec fn escrow_scene(ledger: Ledger, prepaid: i128) -> State {
    let s = set_up(ledger, 6, 1_000_000, 604_800);
    created_and_funded(
        State { config: Config { cancellation: CancellationPolicy::Escrow, ..s.config }, ..s },
        10_000_000,
        THIRTY_DAYS,
        false,
        None,
        prepaid,
    )
}

/// A vault that holds cancelled balances in escrow, with one subscription that was funded and then
/// cancelled by its subscriber: the vault, the subscription, the subscriber and the merchant.
pub fn setup_cancelled_with_balance(ledger: Ledger, prepaid: i128) -> (r: (
    Scene,
    u32,
    Address,
    Address,
))
    requires
        1_000_000 <= prepaid,
        ledger.timestamp + crate::lifecycle::CANCELLATION_ESCROW_WINDOW_SECS <= u64::MAX,
    ensures
        r.1 == 0,
        r.2 == Address::Contract(3),
        r.3 == Address::Contract(4),
        r.0.token == scene_token(),
        r.0.admin == scene_admin(),
        r.0.vault@ == cancelled(escrow_scene(ledger, prepaid), 0, Address::Contract(3)),
        r.0.vault@.escrows.dom().contains(0),
        r.0.vault@.escrows[0].amount == prepaid,
        r.0.vault@.subscriptions[0].prepaid_balance == 0,
{
    let mut scene = setup(ledger, 6, min_topup(), grace_period());
    let admin = scene.admin;
    let _ = scene.vault.set_cancellation_policy(&admin, CancellationPolicy::Escrow);
    let ghost s = scene.vault@;
    proof {
        lemma_plain_funding(s, prepaid);
    }
    let (id, subscriber, merchant) = match create_and_fund_sub(
        &mut scene.vault,
        amount(),
        THIRTY_DAYS,
        false,
        None,
        prepaid,
    ) {
        Ok(x) => x,
        Err(_) => (0, Address::Contract(3), Address::Contract(4)),
    };
    let _ = scene.vault.cancel_subscription(id, &subscriber);
    (scene, id, subscriber, merchant)
}

/// In a fresh scene, nothing speaks against creating a plain subscription and funding it.
proof fn lemma_plain_funding(s: State, deposit: i128)
    requires
        s == (State {
            config: Config {
                cancellation: CancellationPolicy::Escrow,
                ..set_up(s.ledger, 6, 1_000_000, 604_800).config
            },
            ..set_up(s.ledger, 6, 1_000_000, 604_800)
        }),
        deposit >= 1_000_000,
    ensures
        fund_refusal(s, 10_000_000, THIRTY_DAYS, false, None, deposit) is None,
{
    reveal_with_fuel(crate::subscriptions::listed_decimals, 2);
}

/// The address of a merchant's web page in ready-made settings.
pub open spec fn example_url() -> Seq<u8> {
    seq![104u8, 116, 116, 112, 115, 58, 47, 47, 101, 120, 97, 109, 112, 108, 101, 46, 99, 111, 109]
}

/// A new merchant that allows nothing but charges, is paid at another new address and has no web
/// page.
pub fn create_merchant(vault: &mut Vault) -> (r: Result<Address, Error>)
    requires
        old(vault)@.config.next_address < u64::MAX - 1,
    ensures
        ({
            let s = named(old(vault)@, 2);
            let merchant = address_at(old(vault)@, 0);
            match config_refusal(s, merchant, 0, OP_CHARGE) {
                Some(e) => r == Err::<Address, Error>(e) && final(vault)@ == s.quiet(),
                None => r == Ok::<Address, Error>(merchant) && final(vault)@ == configured(
                    s,
                    merchant,
                    MerchantConfigState {
                        payout_address: address_at(old(vault)@, 1),
                        fee_bips: 0,
                        allowed_operations: OP_CHARGE,
                        is_active: true,
                        fee_address: None,
                        redirect_url: Seq::empty(),
                    },
                ),
            }
        }),
{
    let ghost s0 = vault@;
    let merchant = vault.generate_address();
    let payout = vault.generate_address();
    assert(vault@ =~= named(s0, 2));
    let none: [u8; 0] = [];
    assert(none@ =~= Seq::empty());
    match vault.initialize_merchant_config(&merchant, &payout, 0, OP_CHARGE, None, &none) {
        Err(e) => Err(e),
        Ok(_) => Ok(merchant),
    }
}

/// The settings of the merchant of [`setup_merchant_and_sub`].
pub open spec fn open_config(merchant: Address) -> MerchantConfigState {
    MerchantConfigState {
        payout_address: merchant,
        fee_bips: 0,
        allowed_operations: ALL_OPERATIONS,
        is_active: true,
        fee_address: None,
        redirect_url: example_url(),
    }
}

/// The terms of the subscription of [`setup_merchant_and_sub`].
pub open spec fn hourly_terms(s: State) -> Terms {
    Terms {
        subscriber: address_at(s, 1),
        merchant: address_at(s, 0),
        token: s.config.token,
        amount: 100,
        interval_seconds: 3600,
        usage_enabled: false,
        lifetime_cap: None,
        expires_at: None,
        expires_at_ledger: None,
        sub_account_label: None,
    }
}

/// What the subscriber of [`setup_merchant_and_sub`] is given.
pub const WALLET: i128 = 10_000;

/// What the subscriber of [`setup_merchant_and_sub`] deposits.
pub const FIRST_DEPOSIT: i128 = 1_000;

/// Why [`setup_merchant_and_sub`] fails.
pub open spec fn merchant_and_sub_refusal(s: State) -> Option<Error> {
    let s0 = named(s, 2);
    let merchant = address_at(s, 0);
    let s1 = configured(s0, merchant, open_config(merchant));
    let t = hourly_terms(s);
    if config_refusal(s0, merchant, 0, ALL_OPERATIONS) is Some {
        config_refusal(s0, merchant, 0, ALL_OPERATIONS)
    } else if create_refusal(s1, t) is Some {
        create_refusal(s1, t)
    } else {
        deposit_funds_refusal(
            with_minted(created(s1, t), t.token, t.subscriber, WALLET),
            s.config.next_subscription_id,
            FIRST_DEPOSIT,
            None,
        )
    }
}

/// The state in which [`setup_merchant_and_sub`] fails.
pub open spec fn merchant_and_sub_left(s: State) -> State {
    let s0 = named(s, 2);
    let merchant = address_at(s, 0);
    let s1 = configured(s0, merchant, open_config(merchant));
    let t = hourly_terms(s);
    if config_refusal(s0, merchant, 0, ALL_OPERATIONS) is Some {
        s0.quiet()
    } else if create_refusal(s1, t) is Some {
        s1.quiet()
    } else {
        with_minted(created(s1, t), t.token, t.subscriber, WALLET).quiet()
    }
}

/// The state after [`setup_merchant_and_sub`].
pub open spec fn merchant_and_sub(s: State) -> State {
    let s0 = named(s, 2);
    let merchant = address_at(s, 0);
    let s1 = configured(s0, merchant, open_config(merchant));
    let t = hourly_terms(s);
    deposit_done(
        with_minted(created(s1, t), t.token, t.subscriber, WALLET),
        t.subscriber,
        s.config.next_subscription_id,
        FIRST_DEPOSIT,
        None,
    )
}

/// A new merchant that allows everything, and a new subscriber with [`WALLET`] tokens, of which
/// [`FIRST_DEPOSIT`] go into an hourly subscription: the subscription, the merchant and the
/// subscriber.
pub fn setup_merchant_and_sub(vault: &mut Vault) -> (r: Result<(u32, Address, Address), Error>)
    requires
        old(vault)@.config.next_address < u64::MAX - 1,
        i128::MIN <= held(
            old(vault)@.tokens,
            old(vault)@.config.token,
            address_at(old(vault)@, 1),
        ) + WALLET <= i128::MAX,
    ensures
        match merchant_and_sub_refusal(old(vault)@) {
            Some(e) => r == Err::<(u32, Address, Address), Error>(e) && final(vault)@
                == merchant_and_sub_left(old(vault)@),
            None => r == Ok::<(u32, Address, Address), Error>(
                (
                    old(vault)@.config.next_subscription_id,
                    address_at(old(vault)@, 0),
                    address_at(old(vault)@, 1),
                ),
            ) && final(vault)@ == merchant_and_sub(old(vault)@),
        },
        r is Ok ==> {
            let s = old(vault)@;
            let sub = final(vault)@.subscriptions[s.config.next_subscription_id];
            &&& sub.merchant == address_at(s, 0)
            &&& sub.subscriber == address_at(s, 1)
            &&& sub.status is Active
            &&& sub.amount == 100
            &&& sub.interval_seconds == 3600
            &&& sub.prepaid_balance == FIRST_DEPOSIT
        },
        r is Ok && address_at(old(vault)@, 1) != crate::types::vault() ==> {
            let s = old(vault)@;
            &&& held(final(vault)@.tokens, s.config.token, address_at(s, 1)) == held(
                s.tokens,
                s.config.token,
                address_at(s, 1),
            ) + WALLET - FIRST_DEPOSIT
            &&& held(final(vault)@.tokens, s.config.token, crate::types::vault()) == held(
                s.tokens,
                s.config.token,
                crate::types::vault(),
            ) + FIRST_DEPOSIT
        },
{
    let ghost s = vault@;
    let merchant = vault.generate_address();
    let subscriber = vault.generate_address();
    assert(vault@ =~= named(s, 2));
    let url: [u8; 19] = [
        104u8, 116, 116, 112, 115, 58, 47, 47, 101, 120, 97, 109, 112, 108, 101, 46, 99, 111, 109,
    ];
    assert(url@ =~= example_url());
    match vault.initialize_merchant_config(&merchant, &merchant, 0, ALL_OPERATIONS, None, &url) {
        Err(e) => {
            return Err(e);
        },
        Ok(_) => {},
    }
    let token = vault.config.token;
    let id: u32 = match vault.create_subscription(
        &subscriber,
        &merchant,
        100,
        3600,
        false,
        None,
        None,
        None,
    ) {
        Err(e) => {
            return Err(e);
        },
        Ok(id) => id,
    };
    vault.mint(&token, &subscriber, WALLET);
    match vault.deposit_funds(id, FIRST_DEPOSIT, None) {
        Err(e) => Err(e),
        Ok(_) => Ok((id, merchant, subscriber)),
    }
}

/// A report of a merchant's balance.
#[derive(Clone, Copy, Debug, PartialEq, Eq)]
pub struct MerchantBalanceSnapshotEvent {
    pub merchant: Address,
    pub token: Address,
    pub balance: i128,
}

/// The reports of merchants' balances among the first `n` of a list.
pub open spec fn snapshots_in(events: Seq<Event>, n: int) -> Seq<MerchantBalanceSnapshotEvent>
    decreases n,
{
    if n <= 0 {
        Seq::empty()
    } else {
        match events[n - 1] {
            Event::MerchantBalanceSnapshot { merchant, token, balance } => snapshots_in(
                events,
                n - 1,
            ).push(MerchantBalanceSnapshotEvent { merchant, token, balance }),
            _ => snapshots_in(events, n - 1),
        }
    }
}

/// The reports of merchants' balances that the latest call made.
pub fn find_snapshot_events(vault: &Vault) -> (list: Vec<MerchantBalanceSnapshotEvent>)
    ensures
        list@ == snapshots_in(vault@.events, vault@.events.len() as int),
{
    let mut list: Vec<MerchantBalanceSnapshotEvent> = Vec::new();
    let mut i: usize = 0;
    while i < vault.events.len()
        invariant
            i <= vault.events@.len(),
            list@ == snapshots_in(vault@.events, i as int),
        decreases vault.events@.len() - i,
    {
        match vault.events[i] {
            Event::MerchantBalanceSnapshot { merchant, token, balance } => {
                list.push(MerchantBalanceSnapshotEvent { merchant, token, balance });
            },
            _ => {},
        }
        i += 1;
    }
    list
}

/// The kind of the statement number `i` of [`append_known_sequence`].
pub open spec fn known_kind(i: int) -> BillingChargeKind {
    if i % 3 == 0 {
        BillingChargeKind::Interval
    } else if i % 3 == 1 {
        BillingChargeKind::Usage
    } else {
        BillingChargeKind::OneOff
    }
}

/// The statement number `i` of [`append_known_sequence`].
pub open spec fn known_statement(id: u32, merchant: Address, token: Address, i: int) -> BillingStatement {
    BillingStatement {
        subscription_id: id,
        amount: (100 * (i + 1)) as i128,
        merchant,
        token,
        kind: known_kind(i),
        period_start: i as u64,
        period_end: (i + 1000) as u64,
    }
}

/// The record after the first `n` statements of [`append_known_sequence`].
pub open spec fn with_known(
    b: StatementState,
    id: u32,
    merchant: Address,
    token: Address,
    n: int,
) -> StatementState
    decreases n,
{
    if n <= 0 {
        b
    } else {
        with_known(b, id, merchant, token, n - 1).appended(
            known_statement(id, merchant, token, n - 1),
        )
    }
}

/// Appends `count` statements of 100, 200, 300 and so on, whose kinds take turns, and returns what
/// they come to.
pub fn append_known_sequence(
    book: &mut StatementBook,
    merchant: &Address,
    token: &Address,
    id: u32,
    count: u32,
) -> (total: i128)
    ensures
        final(book)@ == with_known(old(book)@, id, *merchant, *token, count as int),
        total == 50 * count * (count + 1),
{
    let ghost b0 = book@;
    let mut total: i128 = 0;
    let mut i: u32 = 0;
    while i < count
        invariant
            i <= count,
            book@ == with_known(b0, id, *merchant, *token, i as int),
            total == 50 * i * (i + 1),
            total <= 50 * 0xFFFF_FFFF * 0x1_0000_0000,
        decreases count - i,
    {
        let amount: i128 = 100 * (i as i128 + 1);
        let kind = match i % 3 {
            0 => BillingChargeKind::Interval,
            1 => BillingChargeKind::Usage,
            _ => BillingChargeKind::OneOff,
        };
        let _ = append_statement(
            book,
            BillingStatement {
                subscription_id: id,
                amount,
                merchant: *merchant,
                token: *token,
                kind,
                period_start: i as u64,
                period_end: i as u64 + 1000,
            },
        );
        proof {
            assert(50 * (i + 1) * (i + 2) == 50 * i * (i + 1) + 100 * (i + 1)) by (nonlinear_arith);
            assert(50 * (i + 1) * (i + 2) <= 50 * 0xFFFF_FFFF * 0x1_0000_0000) by (nonlinear_arith)
                requires
                    0 <= i < 0xFFFF_FFFF,
            ;
        }
        total = total + amount;
        i += 1;
    }
    total
}

} // verus!
