//! The vault: everything it holds, and the rules that many of its calls share.
use crate::events::Event;
use crate::idempotency::Rings;
use crate::nonce::NonceBook;
use crate::records::{
    CancellationEscrow, CancellationPolicy, ConfigKey, DelegatedPayerGrant, Dispute,
    DisputeEscrowLedger, MerchantConfig, MerchantConfigState, MerchantMultisig, MerchantVacation,
    MultisigState, OracleFeed, PlanTemplate, Proposal, Subscription, TokenEarnings, TransferIntent,
    UsageLimits,
};
use crate::statements::{StatementBook, StatementState, DEFAULT_RETENTION};
use crate::table::Table;
use crate::token::{held, token_balance, TokenLedger};
use crate::types::{vault, vault_address, Address, Bytes32, Error, Key, Symbol};
use vstd::prelude::*;

verus! {

/// The chain's clock and identity.
#[derive(Clone, Copy, Debug, PartialEq, Eq)]
pub struct Ledger {
    pub timestamp: u64,
    pub sequence: u32,
    pub network_id: Bytes32,
}

/// Settings and counters.
#[derive(Clone, Copy, Debug, PartialEq, Eq)]
pub struct Config {
    /// The administrator, once the vault has been initialised.
    pub admin: Option<Address>,
    /// The token that subscriptions use by default.
    pub token: Address,
    pub min_topup: i128,
    pub grace_period: u64,
    pub operator: Option<Address>,
    pub emergency_stop: bool,
    /// Set while a call hands control to a token contract.
    pub locked: bool,
    pub treasury: Address,
    pub protocol_fee_bps: u32,
    pub buyout_premium_bps: u32,
    /// What becomes of the balance of a cancelled subscription.
    pub cancellation: CancellationPolicy,
    /// The shortest time between the submission and the execution of a proposal.
    pub min_timelock_delay: u64,
    pub oracle: OracleFeed,
    pub next_subscription_id: u32,
    pub next_plan_id: u32,
    pub next_dispute_id: u64,
    pub next_proposal_id: u32,
    pub next_address: u64,
}

/// The vault.
pub struct Vault {
    pub ledger: Ledger,
    /// Whether every party is taken to have authorised the current call.
    pub allow_all: bool,
    /// The parties that have authorised the current call.
    pub signers: Vec<Address>,
    pub config: Config,
    pub subscriptions: Table<u32, Subscription>,
    pub tokens: TokenLedger,
    /// What each merchant can withdraw, by merchant and token.
    pub merchant_balances: Table<(Address, Address), i128>,
    pub earnings: Table<(Address, Address), TokenEarnings>,
    pub nonces: NonceBook,
    pub rings: Rings,
    /// When each subscription was last charged for an interval.
    pub charged: Table<u32, u64>,
    pub escrows: Table<u32, CancellationEscrow>,
    pub disputes: Table<u64, Dispute>,
    /// The dispute that is under way for a subscription.
    pub open_disputes: Table<u32, u64>,
    pub dispute_ledgers: Table<u64, DisputeEscrowLedger>,
    pub transfers: Table<u32, TransferIntent>,
    /// Grants by subscriber and payer.
    pub grants: Table<(Address, Address), DelegatedPayerGrant>,
    /// Credit limits by subscriber and token.
    pub credit_limits: Table<(Address, Address), i128>,
    /// Why each address on the blocklist was put there; empty where no reason was given.
    pub blocklist: Table<Address, Vec<u8>>,
    pub paused_merchants: Table<Address, bool>,
    pub vacations: Table<Address, MerchantVacation>,
    pub merchant_configs: Table<Address, MerchantConfig>,
    pub multisigs: Table<Address, MerchantMultisig>,
    pub fee_overrides: Table<Address, u32>,
    pub splits: Table<u32, Vec<(Address, u32)>>,
    pub sub_accounts: Table<Address, Vec<Symbol>>,
    /// What each sub-account can withdraw, by merchant, label and token.
    pub sub_balances: Table<(Address, Symbol, Address), i128>,
    pub guardians: Table<Address, u32>,
    pub proposals: Table<u32, Proposal>,
    /// Votes by proposal and guardian.
    pub votes: Table<(u32, Address), bool>,
    /// Why each cancelled proposal was cancelled.
    pub cancel_reasons: Table<u32, Vec<u8>>,
    /// Metadata by subscription and key.
    pub metadata: Table<(u32, Vec<u8>), Vec<u8>>,
    pub statements: StatementBook,
    pub cooldowns: Table<ConfigKey, u64>,
    /// Accepted tokens with their decimals, in the order in which they were accepted.
    pub accepted_tokens: Vec<(Address, u32)>,
    pub recovery_ids: Table<Vec<u8>, bool>,
    /// References of usage charges, by subscription.
    pub usage_references: Table<(u32, Vec<u8>), bool>,
    pub usage_limits: Table<u32, UsageLimits>,
    pub plans: Table<u32, PlanTemplate>,
    /// What the latest call reported.
    pub events: Vec<Event>,
}

/// What a vault stands for.
#[verifier::ext_equal]
pub struct State {
    pub ledger: Ledger,
    pub allow_all: bool,
    pub signers: Seq<Address>,
    pub config: Config,
    pub subscriptions: Map<u32, Subscription>,
    pub tokens: Map<(Address, Address), i128>,
    pub merchant_balances: Map<(Address, Address), i128>,
    pub earnings: Map<(Address, Address), TokenEarnings>,
    pub nonces: Map<(Address, u32), u64>,
    pub rings: Map<u32, Seq<Bytes32>>,
    pub charged: Map<u32, u64>,
    pub escrows: Map<u32, CancellationEscrow>,
    pub disputes: Map<u64, Dispute>,
    pub open_disputes: Map<u32, u64>,
    pub dispute_ledgers: Map<u64, DisputeEscrowLedger>,
    pub transfers: Map<u32, TransferIntent>,
    pub grants: Map<(Address, Address), DelegatedPayerGrant>,
    pub credit_limits: Map<(Address, Address), i128>,
    pub blocklist: Map<Address, Seq<u8>>,
    pub paused_merchants: Map<Address, bool>,
    pub vacations: Map<Address, MerchantVacation>,
    pub merchant_configs: Map<Address, MerchantConfigState>,
    pub multisigs: Map<Address, MultisigState>,
    pub fee_overrides: Map<Address, u32>,
    pub splits: Map<u32, Seq<(Address, u32)>>,
    pub sub_accounts: Map<Address, Seq<Symbol>>,
    pub sub_balances: Map<(Address, Symbol, Address), i128>,
    pub guardians: Map<Address, u32>,
    pub proposals: Map<u32, Proposal>,
    pub votes: Map<(u32, Address), bool>,
    pub cancel_reasons: Map<u32, Seq<u8>>,
    pub metadata: Map<(u32, Seq<u8>), Seq<u8>>,
    pub statements: StatementState,
    pub cooldowns: Map<ConfigKey, u64>,
    pub accepted_tokens: Seq<(Address, u32)>,
    pub recovery_ids: Map<Seq<u8>, bool>,
    pub usage_references: Map<(u32, Seq<u8>), bool>,
    pub usage_limits: Map<u32, UsageLimits>,
    pub plans: Map<u32, PlanTemplate>,
    pub events: Seq<Event>,
}

impl View for Vault {
    type V = State;

    open spec fn view(&self) -> State {
        State {
            ledger: self.ledger,
            allow_all: self.allow_all,
            signers: self.signers@,
            config: self.config,
            subscriptions: self.subscriptions@,
            tokens: self.tokens@,
            merchant_balances: self.merchant_balances@,
            earnings: self.earnings@,
            nonces: self.nonces@,
            rings: self.rings@,
            charged: self.charged@,
            escrows: self.escrows@,
            disputes: self.disputes@,
            open_disputes: self.open_disputes@,
            dispute_ledgers: self.dispute_ledgers@,
            transfers: self.transfers@,
            grants: self.grants@,
            credit_limits: self.credit_limits@,
            blocklist: self.blocklist@,
            paused_merchants: self.paused_merchants@,
            vacations: self.vacations@,
            merchant_configs: self.merchant_configs@,
            multisigs: self.multisigs@,
            fee_overrides: self.fee_overrides@,
            splits: self.splits@,
            sub_accounts: self.sub_accounts@,
            sub_balances: self.sub_balances@,
            guardians: self.guardians@,
            proposals: self.proposals@,
            votes: self.votes@,
            cancel_reasons: self.cancel_reasons@,
            metadata: self.metadata@,
            statements: self.statements@,
            cooldowns: self.cooldowns@,
            accepted_tokens: self.accepted_tokens@,
            recovery_ids: self.recovery_ids@,
            usage_references: self.usage_references@,
            usage_limits: self.usage_limits@,
            plans: self.plans@,
            events: self.events@,
        }
    }
}

/// The shortest time between the submission and the execution of a proposal.
pub const MIN_TIMELOCK_DELAY: u64 = 172_800;

/// The state of a vault that nobody has used yet.
pub open spec fn blank(ledger: Ledger) -> State {
    State {
        ledger,
        allow_all: false,
        signers: Seq::empty(),
        config: Config {
            admin: None,
            token: vault(),
            min_topup: 0,
            grace_period: 0,
            operator: None,
            emergency_stop: false,
            locked: false,
            treasury: vault(),
            protocol_fee_bps: 0,
            buyout_premium_bps: 0,
            cancellation: CancellationPolicy::Retain,
            min_timelock_delay: MIN_TIMELOCK_DELAY,
            oracle: OracleFeed { enabled: false, oracle: None, max_age_seconds: 0 },
            next_subscription_id: 0,
            next_plan_id: 0,
            next_dispute_id: 1,
            next_proposal_id: 0,
            next_address: 1,
        },
        subscriptions: Map::empty(),
        tokens: Map::empty(),
        merchant_balances: Map::empty(),
        earnings: Map::empty(),
        nonces: Map::empty(),
        rings: Map::empty(),
        charged: Map::empty(),
        escrows: Map::empty(),
        disputes: Map::empty(),
        open_disputes: Map::empty(),
        dispute_ledgers: Map::empty(),
        transfers: Map::empty(),
        grants: Map::empty(),
        credit_limits: Map::empty(),
        blocklist: Map::empty(),
        paused_merchants: Map::empty(),
        vacations: Map::empty(),
        merchant_configs: Map::empty(),
        multisigs: Map::empty(),
        fee_overrides: Map::empty(),
        splits: Map::empty(),
        sub_accounts: Map::empty(),
        sub_balances: Map::empty(),
        guardians: Map::empty(),
        proposals: Map::empty(),
        votes: Map::empty(),
        cancel_reasons: Map::empty(),
        metadata: Map::empty(),
        statements: StatementState {
            lists: Map::empty(),
            aggregates: Map::empty(),
            retention: DEFAULT_RETENTION,
        },
        cooldowns: Map::empty(),
        accepted_tokens: Seq::empty(),
        recovery_ids: Map::empty(),
        usage_references: Map::empty(),
        usage_limits: Map::empty(),
        plans: Map::empty(),
        events: Seq::empty(),
    }
}

impl State {
    /// Whether `who` has authorised the current call.
    pub open spec fn authorized(self, who: Address) -> bool {
        self.allow_all || self.signers.contains(who)
    }

    /// What a merchant can withdraw in a token.
    pub open spec fn merchant_balance(self, merchant: Address, token: Address) -> i128 {
        if self.merchant_balances.dom().contains((merchant, token)) {
            self.merchant_balances[(merchant, token)]
        } else {
            0
        }
    }

    /// What a sub-account can withdraw in a token.
    pub open spec fn sub_balance(self, merchant: Address, label: Symbol, token: Address) -> i128 {
        if self.sub_balances.dom().contains((merchant, label, token)) {
            self.sub_balances[(merchant, label, token)]
        } else {
            0
        }
    }

    /// Whether `who` has been put on the blocklist.
    pub open spec fn blocked(self, who: Address) -> bool {
        self.blocklist.dom().contains(who)
    }

    /// Whether a merchant has paused itself.
    pub open spec fn paused(self, merchant: Address) -> bool {
        self.paused_merchants.dom().contains(merchant) && self.paused_merchants[merchant]
    }

    /// Whether a merchant is on vacation at a time.
    pub open spec fn on_vacation_at(self, merchant: Address, at: u64) -> bool {
        self.vacations.dom().contains(merchant) && self.vacations[merchant].covers(at)
    }

    /// Whether a merchant is on vacation now.
    pub open spec fn on_vacation(self, merchant: Address) -> bool {
        self.on_vacation_at(merchant, self.ledger.timestamp)
    }

    /// Whether a subscription has reached one of its bounds.
    pub open spec fn is_over(self, sub: Subscription) -> bool {
        sub.expired(self.ledger.timestamp, self.ledger.sequence) || sub.status is Expired
    }

    /// Whether `who` is the administrator.
    pub open spec fn is_admin(self, who: Address) -> bool {
        self.config.admin == Some(who)
    }

    /// The same state with nothing reported.
    pub open spec fn quiet(self) -> State {
        State { events: Seq::empty(), ..self }
    }

    /// Why a call that only the administrator may make is refused.
    pub open spec fn admin_refusal(self, who: Address) -> Option<Error> {
        if !self.authorized(who) {
            Some(Error::AuthRequired)
        } else if !self.is_admin(who) {
            Some(Error::Unauthorized)
        } else {
            None
        }
    }
}

/// How a call ends: refused, with nothing changed and nothing reported, or done, with the given
/// result and state.
pub open spec fn ends<T>(
    r: Result<T, Error>,
    before: State,
    after: State,
    refusal: Option<Error>,
    value: T,
    done: State,
) -> bool {
    match refusal {
        Some(e) => r == Err::<T, Error>(e) && after == before.quiet(),
        None => r == Ok::<T, Error>(value) && after == done,
    }
}

/// The state after a call: nothing but its reports changes where it is refused.
pub open spec fn next(s: State, refusal: Option<Error>, done: State) -> State {
    if refusal is Some {
        s.quiet()
    } else {
        done
    }
}

impl Vault {
    /// A vault that nobody has used yet.
    pub fn new(ledger: Ledger) -> (v: Vault)
        ensures
            v@ == blank(ledger),
    {
        let v = Vault {
            ledger,
            allow_all: false,
            signers: Vec::new(),
            config: Config {
                admin: None,
                token: vault_address(),
                min_topup: 0,
                grace_period: 0,
                operator: None,
                emergency_stop: false,
                locked: false,
                treasury: vault_address(),
                protocol_fee_bps: 0,
                buyout_premium_bps: 0,
                cancellation: CancellationPolicy::Retain,
                min_timelock_delay: MIN_TIMELOCK_DELAY,
                oracle: OracleFeed { enabled: false, oracle: None, max_age_seconds: 0 },
                next_subscription_id: 0,
                next_plan_id: 0,
                next_dispute_id: 1,
                next_proposal_id: 0,
                next_address: 1,
            },
            subscriptions: Table::new(),
            tokens: Table::new(),
            merchant_balances: Table::new(),
            earnings: Table::new(),
            nonces: Table::new(),
            rings: Table::new(),
            charged: Table::new(),
            escrows: Table::new(),
            disputes: Table::new(),
            open_disputes: Table::new(),
            dispute_ledgers: Table::new(),
            transfers: Table::new(),
            grants: Table::new(),
            credit_limits: Table::new(),
            blocklist: Table::new(),
            paused_merchants: Table::new(),
            vacations: Table::new(),
            merchant_configs: Table::new(),
            multisigs: Table::new(),
            fee_overrides: Table::new(),
            splits: Table::new(),
            sub_accounts: Table::new(),
            sub_balances: Table::new(),
            guardians: Table::new(),
            proposals: Table::new(),
            votes: Table::new(),
            cancel_reasons: Table::new(),
            metadata: Table::new(),
            statements: StatementBook::new(),
            cooldowns: Table::new(),
            accepted_tokens: Vec::new(),
            recovery_ids: Table::new(),
            usage_references: Table::new(),
            usage_limits: Table::new(),
            plans: Table::new(),
            events: Vec::new(),
        };
        assert(v@ =~= blank(ledger));
        v
    }

    /// Whether `who` has authorised the current call.
    pub fn has_authorized(&self, who: &Address) -> (b: bool)
        ensures
            b == self@.authorized(*who),
    {
        if self.allow_all {
            return true;
        }
        let mut i: usize = 0;
        while i < self.signers.len()
            invariant
                i <= self.signers@.len(),
                forall|j: int| 0 <= j < i ==> self.signers@[j] != *who,
            decreases self.signers@.len() - i,
        {
            if self.signers[i].same(who) {
                assert(self.signers@[i as int] == *who);
                return true;
            }
            i += 1;
        }
        false
    }

    /// Why a call that only the administrator may make is refused.
    pub fn check_admin(&self, who: &Address) -> (r: Option<Error>)
        ensures
            r == self@.admin_refusal(*who),
    {
        if !self.has_authorized(who) {
            return Some(Error::AuthRequired);
        }
        match &self.config.admin {
            Some(a) => {
                if a.same(who) {
                    None
                } else {
                    Some(Error::Unauthorized)
                }
            },
            None => Some(Error::Unauthorized),
        }
    }

    /// What `who` holds in `token`.
    pub fn balance(&self, token: &Address, who: &Address) -> (b: i128)
        ensures
            b == held(self@.tokens, *token, *who),
    {
        token_balance(&self.tokens, token, who)
    }

    /// What a merchant can withdraw in a token.
    pub fn get_merchant_balance_by_token(&self, merchant: &Address, token: &Address) -> (b: i128)
        ensures
            b == self@.merchant_balance(*merchant, *token),
    {
        match self.merchant_balances.get(&(*merchant, *token)) {
            Some(b) => *b,
            None => 0,
        }
    }

    /// What a merchant can withdraw in the default token.
    pub fn get_merchant_balance(&self, merchant: &Address) -> (b: i128)
        ensures
            b == self@.merchant_balance(*merchant, self@.config.token),
    {
        let token = self.config.token;
        self.get_merchant_balance_by_token(merchant, &token)
    }

    /// Whether `who` has been put on the blocklist.
    pub fn is_blocked(&self, who: &Address) -> (b: bool)
        ensures
            b == self@.blocked(*who),
    {
        self.blocklist.contains(who)
    }

    /// Whether a merchant has paused itself.
    pub fn is_merchant_paused(&self, merchant: &Address) -> (b: bool)
        ensures
            b == self@.paused(*merchant),
    {
        match self.paused_merchants.get(merchant) {
            Some(b) => *b,
            None => false,
        }
    }

    /// Whether a merchant is on vacation at a time.
    pub fn is_merchant_in_vacation(&self, merchant: &Address, at: u64) -> (b: bool)
        ensures
            b == self@.on_vacation_at(*merchant, at),
    {
        match self.vacations.get(merchant) {
            Some(v) => v.start_ts <= at && at < v.end_ts,
            None => false,
        }
    }

    /// Whether a subscription has reached one of its bounds.
    pub fn has_run_out(&self, sub: &Subscription) -> (b: bool)
        ensures
            b == self@.is_over(*sub),
    {
        sub.is_expired(self.ledger.timestamp, self.ledger.sequence) || match sub.status {
            crate::records::SubscriptionStatus::Expired => true,
            _ => false,
        }
    }

    /// A subscription.
    pub fn get_subscription(&self, subscription_id: u32) -> (r: Result<Subscription, Error>)
        ensures
            r == (if self@.subscriptions.dom().contains(subscription_id) {
                Ok::<Subscription, Error>(self@.subscriptions[subscription_id])
            } else {
                Err::<Subscription, Error>(Error::NotFound)
            }),
    {
        match self.subscriptions.get(&subscription_id) {
            Some(s) => Ok(*s),
            None => Err(Error::NotFound),
        }
    }
}

} // verus!
