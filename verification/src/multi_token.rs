//! One merchant with a balance in each of three tokens.
use crate::admin::token_accepted;
use crate::billing::{charge_answer, charge_done};
use crate::charging::{accrued, credited, lemma_payouts};
use crate::deposits::{deposit_done, deposit_funds_refusal};
use crate::merchants::{configured, ALL_OPERATIONS};
use crate::records::{ChargeExecutionResult, MerchantConfigState};
use crate::scenarios::{
    address_at, at_time, ledger_at, named, scene_admin, scene_token, set_up, setup as setup_vault,
    with_minted, THIRTY_DAYS,
};
use crate::subscriptions::{create_refusal, created, decimals_of, listed_decimals, Terms};
use crate::token::held;
use crate::types::{vault, vault_address, Address, Error};
use crate::vault::{Ledger, State, Vault};
use vstd::prelude::*;

verus! {

/// What the merchant earns in each of the three tokens. The amounts differ, so that none can be
/// taken for another.
pub const AMOUNT_A: i128 = 10_000_000;

pub const AMOUNT_B: i128 = 20_000_000;

pub const AMOUNT_C: i128 = 30_000_000;

/// A second more than settings have to rest between two changes.
pub const COOLDOWN: u64 = 21_601;

/// The terms under which [`fund_merchant_balance`] charges.
pub open spec fn funding_terms(s: State, merchant: Address, token: Address, amount: i128) -> Terms {
    Terms {
        subscriber: address_at(s, 0),
        merchant,
        token,
        amount,
        interval_seconds: THIRTY_DAYS,
        usage_enabled: false,
        lifetime_cap: None,
        expires_at: None,
        expires_at_ledger: None,
        sub_account_label: None,
    }
}

/// The state in which [`fund_merchant_balance`] creates its subscription.
pub open spec fn funding_start(s: State, token: Address, amount: i128) -> State {
    with_minted(named(s, 1), token, address_at(s, 0), amount)
}

/// The state in which [`fund_merchant_balance`] charges its subscription.
pub open spec fn funding_due(s: State, merchant: Address, token: Address, amount: i128) -> State {
    let t = funding_terms(s, merchant, token, amount);
    at_time(
        deposit_done(
            created(funding_start(s, token, amount), t),
            t.subscriber,
            s.config.next_subscription_id,
            amount,
            None,
        ),
        (s.ledger.timestamp + THIRTY_DAYS + 1) as u64,
    )
}

/// Why [`fund_merchant_balance`] does not come to charge.
pub open spec fn funding_refusal(s: State, merchant: Address, token: Address, amount: i128) -> Option<
    Error,
> {
    let t = funding_terms(s, merchant, token, amount);
    let s1 = funding_start(s, token, amount);
    if create_refusal(s1, t) is Some {
        create_refusal(s1, t)
    } else {
        deposit_funds_refusal(created(s1, t), s.config.next_subscription_id, amount, None)
    }
}

/// The state in which [`fund_merchant_balance`] does not come to charge.
pub open spec fn funding_left(s: State, merchant: Address, token: Address, amount: i128) -> State {
    let t = funding_terms(s, merchant, token, amount);
    let s1 = funding_start(s, token, amount);
    if create_refusal(s1, t) is Some {
        s1.quiet()
    } else {
        created(s1, t).quiet()
    }
}

/// Lets a merchant earn `amount` in a token: a new subscriber subscribes, deposits the amount and is
/// charged it when the interval is over.
pub fn fund_merchant_balance(vault: &mut Vault, merchant: &Address, token: &Address, amount: i128) -> (r: Result<
    ChargeExecutionResult,
    Error,
>)
    requires
        old(vault)@.config.next_address < u64::MAX,
        old(vault)@.ledger.timestamp + THIRTY_DAYS + 1 <= u64::MAX,
        i128::MIN <= held(old(vault)@.tokens, *token, address_at(old(vault)@, 0)) + amount
            <= i128::MAX,
    ensures
        match funding_refusal(old(vault)@, *merchant, *token, amount) {
            Some(e) => r == Err::<ChargeExecutionResult, Error>(e) && final(vault)@ == funding_left(
                old(vault)@,
                *merchant,
                *token,
                amount,
            ),
            None => {
                let due = funding_due(old(vault)@, *merchant, *token, amount);
                let id = old(vault)@.config.next_subscription_id;
                r == charge_answer(due, id, None) && final(vault)@ == charge_done(due, id, None)
            },
        },
{
    let subscriber = vault.generate_address();
    vault.mint(token, &subscriber, amount);
    let id: u32 = match vault.create_subscription_with_token(
        &subscriber,
        merchant,
        token,
        amount,
        THIRTY_DAYS,
        false,
        None,
        None,
        None,
        None,
    ) {
        Err(e) => {
            return Err(e);
        },
        Ok(id) => id,
    };
    match vault.deposit_funds(id, amount, None) {
        Err(e) => {
            return Err(e);
        },
        Ok(_) => {},
    }
    let now: u64 = vault.ledger.timestamp;
    vault.set_timestamp(now + THIRTY_DAYS + 1);
    vault.charge_subscription(id, None)
}

/// What a merchant can withdraw in three tokens, and what the vault holds in them.
#[derive(Clone, Copy, Debug, PartialEq, Eq, Structural)]
pub struct Balances {
    pub merchant_a: i128,
    pub merchant_b: i128,
    pub merchant_c: i128,
    pub vault_a: i128,
    pub vault_b: i128,
    pub vault_c: i128,
}

/// What a merchant can withdraw in three tokens, and what the vault holds in them.
pub fn snapshot(v: &Vault, merchant: &Address, a: &Address, b: &Address, c: &Address) -> (r: Balances)
    ensures
        r == (Balances {
            merchant_a: v@.merchant_balance(*merchant, *a),
            merchant_b: v@.merchant_balance(*merchant, *b),
            merchant_c: v@.merchant_balance(*merchant, *c),
            vault_a: held(v@.tokens, *a, vault()),
            vault_b: held(v@.tokens, *b, vault()),
            vault_c: held(v@.tokens, *c, vault()),
        }),
{
    let own = vault_address();
    Balances {
        merchant_a: v.get_merchant_balance_by_token(merchant, a),
        merchant_b: v.get_merchant_balance_by_token(merchant, b),
        merchant_c: v.get_merchant_balance_by_token(merchant, c),
        vault_a: v.balance(a, &own),
        vault_b: v.balance(b, &own),
        vault_c: v.balance(c, &own),
    }
}

/// Whether nothing stands in the way of a plain charge in a token.
pub open spec fn calm(s: State, merchant: Address, token: Address, amount: i128) -> bool {
    &&& s.allow_all
    &&& !s.config.emergency_stop
    &&& !s.config.locked
    &&& s.config.protocol_fee_bps == 0
    &&& s.config.min_topup <= amount
    &&& s.config.next_subscription_id < u32::MAX
    &&& s.config.next_address < u64::MAX
    &&& s.config.next_address > 0
    &&& s.ledger.timestamp + THIRTY_DAYS + 1 <= u64::MAX
    &&& decimals_of(s, token) is Some
    &&& s.blocklist =~= Map::empty()
    &&& s.paused_merchants =~= Map::empty()
    &&& s.vacations =~= Map::empty()
    &&& s.splits =~= Map::empty()
    &&& s.credit_limits =~= Map::empty()
    &&& s.fee_overrides =~= Map::empty()
    &&& 0 < amount
    &&& s.merchant_balance(merchant, token) + amount <= i128::MAX
    &&& s.merchant_balance(s.config.treasury, token) + amount <= i128::MAX
    &&& held(s.tokens, token, address_at(s, 0)) == 0
    &&& held(s.tokens, token, vault()) + amount <= i128::MAX
}

/// In a calm state, [`fund_merchant_balance`] moves the amount, in the one token, from a new
/// subscriber to the vault, and credits the merchant with it.
pub proof fn lemma_funding(s: State, merchant: Address, token: Address, amount: i128)
    requires
        calm(s, merchant, token, amount),
    ensures
        funding_refusal(s, merchant, token, amount) is None,
        ({
            let id = s.config.next_subscription_id;
            let due = funding_due(s, merchant, token, amount);
            let end = charge_done(due, id, None);
            &&& charge_answer(due, id, None) == Ok::<ChargeExecutionResult, Error>(
                ChargeExecutionResult::Charged,
            )
            &&& end.allow_all
            &&& end.config.token == s.config.token
            &&& end.config.min_topup == s.config.min_topup
            &&& end.config.emergency_stop == s.config.emergency_stop
            &&& end.config.locked == s.config.locked
            &&& end.config.protocol_fee_bps == s.config.protocol_fee_bps
            &&& end.config.treasury == s.config.treasury
            &&& end.config.next_subscription_id == id + 1
            &&& end.config.next_address == s.config.next_address + 1
            &&& end.ledger.timestamp == s.ledger.timestamp + THIRTY_DAYS + 1
            &&& end.ledger.network_id == s.ledger.network_id
            &&& end.accepted_tokens == s.accepted_tokens
            &&& end.blocklist == s.blocklist
            &&& end.paused_merchants == s.paused_merchants
            &&& end.vacations == s.vacations
            &&& end.splits == s.splits
            &&& end.credit_limits == s.credit_limits
            &&& end.fee_overrides == s.fee_overrides
            &&& end.merchant_balance(merchant, token) == s.merchant_balance(merchant, token)
                + amount
            &&& forall|m: Address, t: Address|
                (m, t) != (merchant, token) ==> #[trigger] end.merchant_balance(m, t)
                    == s.merchant_balance(m, t)
            &&& held(end.tokens, token, vault()) == held(s.tokens, token, vault()) + amount
            &&& forall|t: Address, who: Address|
                !(t == token && (who == vault() || who == address_at(s, 0))) ==> #[trigger] held(
                    end.tokens,
                    t,
                    who,
                ) == held(s.tokens, t, who)
        }),
{
    let id = s.config.next_subscription_id;
    let t = funding_terms(s, merchant, token, amount);
    let s1 = funding_start(s, token, amount);
    let s2 = created(s1, t);
    let due = funding_due(s, merchant, token, amount);
    assert(due.subscriptions[id].prepaid_balance == amount);
    lemma_payouts(due, id, amount);
    assert(crate::charging::net_amount(due, id, amount) == amount) by {
        assert((amount * 10_000) / 10_000 == amount) by (nonlinear_arith);
    }
    let list = crate::charging::payouts(due, id, amount);
    assert(list =~= seq![(merchant, amount)]);
    reveal_with_fuel(credited, 2);
    reveal_with_fuel(accrued, 2);
}

/// A vault with three accepted tokens, and a merchant with a balance in each.
pub struct Fixture {
    pub vault: Vault,
    pub admin: Address,
    pub merchant: Address,
    pub token_a: Address,
    pub token_b: Address,
    pub token_c: Address,
}

/// The address of the web page of the merchant of [`setup`].
pub open spec fn fixture_url() -> Seq<u8> {
    seq![
        104u8, 116, 116, 112, 115, 58, 47, 47, 115, 116, 101, 108, 108, 97, 98, 105, 108, 108, 46,
        105, 111, 47, 115, 117, 99, 99, 101, 115, 115,
    ]
}

/// The state of [`setup`] before the merchant has earned anything.
pub open spec fn before_earnings(ledger: Ledger) -> State {
    let s0 = named(set_up(ledger, 7, 1_000_000, 604_800), 3);
    let s1 = token_accepted(s0, Address::Contract(3), 7);
    let s2 = token_accepted(
        at_time(s1, (ledger.timestamp + COOLDOWN) as u64),
        Address::Contract(4),
        7,
    );
    let merchant = Address::Contract(5);
    configured(
        s2,
        merchant,
        MerchantConfigState {
            payout_address: merchant,
            fee_bips: 0,
            allowed_operations: ALL_OPERATIONS,
            is_active: true,
            fee_address: None,
            redirect_url: fixture_url(),
        },
    )
}

/// The state after a merchant has earned an amount in a token.
pub open spec fn earned_in(s: State, merchant: Address, token: Address, amount: i128) -> State {
    charge_done(
        funding_due(s, merchant, token, amount),
        s.config.next_subscription_id,
        None,
    )
}

/// The state of [`setup`].
pub open spec fn fixture_state(ledger: Ledger) -> State {
    let m = Address::Contract(5);
    let a = earned_in(before_earnings(ledger), m, scene_token(), AMOUNT_A);
    let b = earned_in(a, m, Address::Contract(3), AMOUNT_B);
    earned_in(b, m, Address::Contract(4), AMOUNT_C)
}

/// A vault that accepts three tokens, and one merchant, who takes no part in fees and has earned
/// [`AMOUNT_A`], [`AMOUNT_B`] and [`AMOUNT_C`] in them by charges.
pub fn setup() -> (f: Fixture)
    ensures
        f.admin == scene_admin(),
        f.token_a == scene_token(),
        f.token_b == Address::Contract(3),
        f.token_c == Address::Contract(4),
        f.merchant == Address::Contract(5),
        f.vault@.ledger.network_id@ == crate::types::padded32(Seq::empty()),
        f.vault@ == fixture_state(
            Ledger {
                timestamp: 1_000_000,
                sequence: 0,
                network_id: f.vault@.ledger.network_id,
            },
        ),
        f.vault@.merchant_balance(f.merchant, f.token_a) == AMOUNT_A,
        f.vault@.merchant_balance(f.merchant, f.token_b) == AMOUNT_B,
        f.vault@.merchant_balance(f.merchant, f.token_c) == AMOUNT_C,
        held(f.vault@.tokens, f.token_a, vault()) == AMOUNT_A,
        held(f.vault@.tokens, f.token_b, vault()) == AMOUNT_B,
        held(f.vault@.tokens, f.token_c, vault()) == AMOUNT_C,
{
    let scene = setup_vault(ledger_at(1_000_000, 0), 7, 1_000_000, 604_800);
    let mut vault = scene.vault;
    let admin = scene.admin;
    let token_a = scene.token;
    let token_b = vault.generate_address();
    let token_c = vault.generate_address();
    let merchant = vault.generate_address();
    proof {
        reveal_with_fuel(listed_decimals, 4);
    }
    let _ = vault.add_accepted_token(&admin, &token_b, 7);
    let now: u64 = vault.ledger.timestamp;
    vault.set_timestamp(now + COOLDOWN);
    let _ = vault.add_accepted_token(&admin, &token_c, 7);
    let url: [u8; 29] = [
        104u8, 116, 116, 112, 115, 58, 47, 47, 115, 116, 101, 108, 108, 97, 98, 105, 108, 108, 46,
        105, 111, 47, 115, 117, 99, 99, 101, 115, 115,
    ];
    assert(url@ =~= fixture_url());
    let _ = vault.initialize_merchant_config(&merchant, &merchant, 0, ALL_OPERATIONS, None, &url);
    let ghost start = Ledger {
        timestamp: 1_000_000,
        sequence: 0,
        network_id: vault@.ledger.network_id,
    };
    assert(vault@ =~= before_earnings(start));
    proof {
        lemma_funding(vault@, merchant, token_a, AMOUNT_A);
    }
    let _ = fund_merchant_balance(&mut vault, &merchant, &token_a, AMOUNT_A);
    proof {
        lemma_funding(vault@, merchant, token_b, AMOUNT_B);
    }
    let _ = fund_merchant_balance(&mut vault, &merchant, &token_b, AMOUNT_B);
    proof {
        lemma_funding(vault@, merchant, token_c, AMOUNT_C);
    }
    let _ = fund_merchant_balance(&mut vault, &merchant, &token_c, AMOUNT_C);
    Fixture { vault, admin, merchant, token_a, token_b, token_c }
}

} // verus!
