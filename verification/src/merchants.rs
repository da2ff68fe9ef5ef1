//! What merchants set and withdraw.
use crate::charge_core::{is_valid_split, valid_split};
use crate::charging::{earned, registered};
use crate::encoding::copy_bytes;
use crate::events::Event;
use crate::measures::moved;
use crate::merchant_laws::{
    law_merchant_refund, law_merchant_withdrawal, law_sub_accounts, only_sub_credit,
    pays_from_credit,
};
use crate::payments::{handed_over, hands_over, Payment};
use crate::records::{
    MerchantConfig, MerchantConfigState, MerchantMultisig, MerchantVacation, MultisigState,
    TokenEarnings, UsageLimits,
};
use crate::safe_math::{clamped, clamped_add};
use crate::statements::ChargeTotals;
use crate::token::{check_transfer, transfer_refusal, transferred};
use crate::types::{vault, vault_address, Address, Error, Key, Symbol};
use crate::vault::{ends, State, Vault};
use vstd::prelude::*;

verus! {

/// Leave to charge subscriptions, the operation that every merchant must allow.
pub const OP_CHARGE: i32 = 0x01;

/// Leave to withdraw what was earned.
pub const OP_WITHDRAW: i32 = 0x02;

/// Leave to pay subscribers back.
pub const OP_REFUND: i32 = 0x04;

/// All operations that a merchant can allow.
pub const ALL_OPERATIONS: i32 = 0x1F;

/// Why a merchant cannot have a fee or a set of operations.
pub open spec fn values_refusal(fee_bips: i32, operations: i32) -> Option<Error> {
    if fee_bips < 0 || fee_bips > 10_000 {
        Some(Error::InvalidFeeBips)
    } else if operations < 0 || operations > ALL_OPERATIONS {
        Some(Error::InvalidOperations)
    } else if operations % 2 != OP_CHARGE {
        Some(Error::MustAllowChargeOperation)
    } else {
        None
    }
}

/// Why a merchant's settings are not made.
pub open spec fn config_refusal(
    s: State,
    merchant: Address,
    fee_bips: i32,
    operations: i32,
) -> Option<Error> {
    if !s.authorized(merchant) {
        Some(Error::AuthRequired)
    } else if s.merchant_configs.dom().contains(merchant) {
        Some(Error::AlreadyInitialized)
    } else {
        values_refusal(fee_bips, operations)
    }
}

/// The state after a merchant's settings were stored.
pub open spec fn configured(s: State, merchant: Address, c: MerchantConfigState) -> State {
    State { merchant_configs: s.merchant_configs.insert(merchant, c), ..s.quiet() }
}

/// What a merchant asks to change; what is not given stays.
pub struct MerchantConfigUpdate {
    pub payout_address: Option<Address>,
    pub fee_bips: Option<i32>,
    pub allowed_operations: Option<i32>,
    pub is_active: Option<bool>,
    pub fee_address: Option<Address>,
    pub redirect_url: Option<Vec<u8>>,
    pub paused: Option<bool>,
}

/// The value of a field after an update.
pub open spec fn or_kept<T>(new: Option<T>, kept: T) -> T {
    match new {
        Some(x) => x,
        None => kept,
    }
}

/// A merchant's settings after an update.
pub open spec fn updated_config(c: MerchantConfigState, u: MerchantConfigUpdate) -> MerchantConfigState {
    MerchantConfigState {
        payout_address: or_kept(u.payout_address, c.payout_address),
        fee_bips: or_kept(u.fee_bips, c.fee_bips),
        allowed_operations: or_kept(u.allowed_operations, c.allowed_operations),
        is_active: or_kept(u.is_active, c.is_active),
        fee_address: if u.fee_address is Some {
            u.fee_address
        } else {
            c.fee_address
        },
        redirect_url: match u.redirect_url {
            Some(url) => url@,
            None => c.redirect_url,
        },
    }
}

/// Why a merchant's settings are not changed.
pub open spec fn update_refusal(s: State, merchant: Address, u: MerchantConfigUpdate) -> Option<Error> {
    if !s.authorized(merchant) {
        Some(Error::AuthRequired)
    } else if !s.merchant_configs.dom().contains(merchant) {
        Some(Error::NotFound)
    } else {
        let c = updated_config(s.merchant_configs[merchant], u);
        values_refusal(c.fee_bips, c.allowed_operations)
    }
}

/// The state after a merchant's settings were changed.
pub open spec fn updated(s: State, merchant: Address, u: MerchantConfigUpdate) -> State {
    State {
        merchant_configs: s.merchant_configs.insert(
            merchant,
            updated_config(s.merchant_configs[merchant], u),
        ),
        paused_merchants: match u.paused {
            Some(p) => s.paused_merchants.insert(merchant, p),
            None => s.paused_merchants,
        },
        ..s.quiet()
    }
}

/// Why a call that only `who` may make is refused.
pub open spec fn own_refusal(s: State, who: Address) -> Option<Error> {
    if !s.authorized(who) {
        Some(Error::AuthRequired)
    } else {
        None
    }
}

/// The state after a merchant paused itself.
pub open spec fn merchant_paused(s: State, merchant: Address) -> State {
    State {
        paused_merchants: s.paused_merchants.insert(merchant, true),
        events: seq![Event::MerchantPaused { merchant }],
        ..s
    }
}

/// Whether no two of a list of signers are the same.
pub open spec fn distinct(signers: Seq<Address>) -> bool {
    forall|i: int, j: int| 0 <= i < j < signers.len() ==> signers[i] != signers[j]
}

/// Why a set of signers is refused.
pub open spec fn multisig_refusal(
    s: State,
    admin: Address,
    signers: Seq<Address>,
    threshold: u32,
) -> Option<Error> {
    if s.admin_refusal(admin) is Some {
        s.admin_refusal(admin)
    } else if threshold == 0 || threshold > signers.len() || !distinct(signers) {
        Some(Error::InvalidInput)
    } else {
        None
    }
}

/// The state after a merchant was given a set of signers.
pub open spec fn multisig_set(
    s: State,
    merchant: Address,
    signers: Seq<Address>,
    threshold: u32,
) -> State {
    State {
        multisigs: s.multisigs.insert(merchant, MultisigState { signers, threshold }),
        ..s.quiet()
    }
}

/// How many of the first `n` signers have authorised the call.
pub open spec fn signed(s: State, signers: Seq<Address>, n: int) -> int
    decreases n,
{
    if n <= 0 {
        0
    } else {
        signed(s, signers, n - 1) + (if s.authorized(signers[n - 1]) {
            1int
        } else {
            0
        })
    }
}

/// Whether a merchant's withdrawal is authorised: by enough of its signers, or by the merchant
/// where it has none.
pub open spec fn withdrawal_authorized(s: State, merchant: Address) -> bool {
    if s.multisigs.dom().contains(merchant) {
        let m = s.multisigs[merchant];
        signed(s, m.signers, m.signers.len() as int) >= m.threshold
    } else {
        s.authorized(merchant)
    }
}

/// Who may withdraw for a merchant depends on the signatures alone.
pub(crate) proof fn lemma_same_authorization(s: State, t: State, merchant: Address)
    requires
        s.multisigs == t.multisigs,
        s.allow_all == t.allow_all,
        s.signers == t.signers,
    ensures
        withdrawal_authorized(s, merchant) == withdrawal_authorized(t, merchant),
{
    if s.multisigs.dom().contains(merchant) {
        let m = s.multisigs[merchant];
        lemma_same_signatures(s, t, m.signers, m.signers.len() as int);
    }
}

proof fn lemma_same_signatures(s: State, t: State, list: Seq<Address>, n: int)
    requires
        s.allow_all == t.allow_all,
        s.signers == t.signers,
    ensures
        signed(s, list, n) == signed(t, list, n),
    decreases n,
{
    if n > 0 {
        lemma_same_signatures(s, t, list, n - 1);
    }
}

/// Why a merchant's withdrawal is refused.
pub open spec fn merchant_withdraw_refusal(
    s: State,
    merchant: Address,
    token: Address,
    amount: i128,
) -> Option<Error> {
    if !withdrawal_authorized(s, merchant) {
        Some(Error::AuthRequired)
    } else {
        payment_refusal(s, merchant, token, merchant, amount)
    }
}

/// Why a payment out of a merchant's balance is refused.
pub open spec fn payment_refusal(
    s: State,
    merchant: Address,
    token: Address,
    to: Address,
    amount: i128,
) -> Option<Error> {
    if s.config.locked {
        Some(Error::Reentrancy)
    } else if s.config.emergency_stop {
        Some(Error::EmergencyStopActive)
    } else if s.merchant_balance(merchant, token) <= 0 {
        Some(Error::NotFound)
    } else if amount <= 0 {
        Some(Error::InvalidAmount)
    } else if amount > s.merchant_balance(merchant, token) {
        Some(Error::InsufficientBalance)
    } else {
        transfer_refusal(s.tokens, token, vault(), to, amount)
    }
}

/// The transfer that a payment out of a merchant's balance makes.
pub open spec fn merchant_payment(token: Address, to: Address, amount: i128) -> Payment {
    Payment { token, from: vault(), to, amount }
}

/// Earnings after a payment, which counts as a withdrawal or as a refund.
pub open spec fn paid_earnings(e: TokenEarnings, amount: i128, withdrawal: bool) -> TokenEarnings {
    if withdrawal {
        TokenEarnings { withdrawals: clamped(e.withdrawals + amount), ..e }
    } else {
        TokenEarnings { refunds: clamped(e.refunds + amount), ..e }
    }
}

/// The state after a payment out of a merchant's balance, before anything is reported.
pub open spec fn paid_out(
    s: State,
    merchant: Address,
    token: Address,
    to: Address,
    amount: i128,
    withdrawal: bool,
) -> State {
    State {
        merchant_balances: s.merchant_balances.insert(
            (merchant, token),
            (s.merchant_balance(merchant, token) - amount) as i128,
        ),
        earnings: s.earnings.insert(
            (merchant, token),
            paid_earnings(earned(s.earnings, merchant, token), amount, withdrawal),
        ),
        tokens: transferred(s.tokens, token, vault(), to, amount),
        ..s.quiet()
    }
}

/// The state after a merchant's withdrawal.
pub open spec fn merchant_withdrawn(s: State, merchant: Address, token: Address, amount: i128) -> State {
    State {
        events: seq![
            Event::MerchantWithdrawn { merchant, token, amount },
            Event::MerchantBalanceSnapshot {
                merchant,
                token,
                balance: (s.merchant_balance(merchant, token) - amount) as i128,
            },
        ],
        ..paid_out(s, merchant, token, merchant, amount, true)
    }
}

/// Why a merchant's refund is refused.
pub open spec fn merchant_refund_refusal(
    s: State,
    merchant: Address,
    subscriber: Address,
    token: Address,
    amount: i128,
) -> Option<Error> {
    if !s.authorized(merchant) {
        Some(Error::AuthRequired)
    } else {
        payment_refusal(s, merchant, token, subscriber, amount)
    }
}

/// The state after a merchant's refund.
pub open spec fn merchant_refunded(
    s: State,
    merchant: Address,
    subscriber: Address,
    token: Address,
    amount: i128,
) -> State {
    State {
        events: seq![Event::MerchantRefunded { merchant, subscriber, token, amount }],
        ..paid_out(s, merchant, token, subscriber, amount, false)
    }
}

/// A merchant's sub-accounts.
pub open spec fn labels_of(s: State, merchant: Address) -> Seq<Symbol> {
    if s.sub_accounts.dom().contains(merchant) {
        s.sub_accounts[merchant]
    } else {
        Seq::empty()
    }
}

/// Why a sub-account is not registered.
pub open spec fn register_refusal(s: State, merchant: Address, label: Symbol) -> Option<Error> {
    if !s.authorized(merchant) {
        Some(Error::AuthRequired)
    } else if !s.merchant_configs.dom().contains(merchant) {
        Some(Error::NotFound)
    } else if label.is_blank() || registered(s, merchant, label) {
        Some(Error::InvalidInput)
    } else {
        None
    }
}

/// The state after a sub-account was registered.
pub open spec fn sub_account_added(s: State, merchant: Address, label: Symbol) -> State {
    State {
        sub_accounts: s.sub_accounts.insert(merchant, labels_of(s, merchant).push(label)),
        events: seq![Event::SubAccountRegistered { merchant, label }],
        ..s
    }
}

/// Why a sub-account is not credited.
pub open spec fn sub_credit_refusal(
    s: State,
    merchant: Address,
    label: Symbol,
    token: Address,
    amount: i128,
) -> Option<Error> {
    if !registered(s, merchant, label) {
        Some(Error::NotFound)
    } else if amount <= 0 {
        Some(Error::InvalidAmount)
    } else if s.sub_balance(merchant, label, token) + amount > i128::MAX {
        Some(Error::Overflow)
    } else {
        None
    }
}

/// The state after a sub-account was credited.
pub open spec fn sub_credited(
    s: State,
    merchant: Address,
    label: Symbol,
    token: Address,
    amount: i128,
) -> State {
    State {
        sub_balances: s.sub_balances.insert(
            (merchant, label, token),
            (s.sub_balance(merchant, label, token) + amount) as i128,
        ),
        ..s.quiet()
    }
}

/// Why a withdrawal from a sub-account is refused.
pub open spec fn sub_withdraw_refusal(
    s: State,
    merchant: Address,
    label: Symbol,
    token: Address,
    amount: i128,
) -> Option<Error> {
    if !s.authorized(merchant) {
        Some(Error::AuthRequired)
    } else if s.config.locked {
        Some(Error::Reentrancy)
    } else if s.config.emergency_stop {
        Some(Error::EmergencyStopActive)
    } else if !registered(s, merchant, label) {
        Some(Error::NotFound)
    } else if amount <= 0 {
        Some(Error::InvalidAmount)
    } else if amount > s.sub_balance(merchant, label, token) {
        Some(Error::InsufficientBalance)
    } else {
        transfer_refusal(s.tokens, token, vault(), merchant, amount)
    }
}

/// The state after a withdrawal from a sub-account.
pub open spec fn sub_withdrawn(
    s: State,
    merchant: Address,
    label: Symbol,
    token: Address,
    amount: i128,
) -> State {
    State {
        sub_balances: s.sub_balances.insert(
            (merchant, label, token),
            (s.sub_balance(merchant, label, token) - amount) as i128,
        ),
        tokens: transferred(s.tokens, token, vault(), merchant, amount),
        events: seq![Event::SubAccountWithdrawn { merchant, label, token, amount }],
        ..s
    }
}

/// Why a vacation is refused.
pub open spec fn vacation_refusal(s: State, merchant: Address, start: u64, end: u64) -> Option<Error> {
    if !s.authorized(merchant) {
        Some(Error::AuthRequired)
    } else if end <= start {
        Some(Error::InvalidInput)
    } else if start < s.ledger.timestamp {
        Some(Error::InvalidExpiration)
    } else {
        None
    }
}

/// The state after a vacation was set, in place of any other.
pub open spec fn vacation_set(s: State, merchant: Address, start: u64, end: u64) -> State {
    State {
        vacations: s.vacations.insert(merchant, MerchantVacation { start_ts: start, end_ts: end }),
        events: seq![Event::VacationStarted { merchant, start_ts: start, end_ts: end }],
        ..s
    }
}

/// The state after a vacation was called off, if there was one.
pub open spec fn vacation_cleared(s: State, merchant: Address) -> State {
    if s.vacations.dom().contains(merchant) {
        State {
            vacations: s.vacations.remove(merchant),
            events: seq![Event::VacationEnded { merchant }],
            ..s
        }
    } else {
        s.quiet()
    }
}

/// Why a split is not changed.
pub open spec fn split_refusal(
    s: State,
    subscriber: Address,
    id: u32,
    entries: Option<Seq<(Address, u32)>>,
) -> Option<Error> {
    if !s.authorized(subscriber) {
        Some(Error::AuthRequired)
    } else if !s.subscriptions.dom().contains(id) {
        Some(Error::NotFound)
    } else if subscriber != s.subscriptions[id].subscriber {
        Some(Error::Unauthorized)
    } else if entries matches Some(list) && !valid_split(list) {
        Some(Error::InvalidInput)
    } else {
        None
    }
}

/// The state after a split was changed or removed.
pub open spec fn split_set(s: State, id: u32, entries: Option<Seq<(Address, u32)>>) -> State {
    State {
        splits: match entries {
            Some(list) => s.splits.insert(id, list),
            None => s.splits.remove(id),
        },
        ..s.quiet()
    }
}

/// What an optional list holds.
pub open spec fn entries_of(entries: Option<Vec<(Address, u32)>>) -> Option<Seq<(Address, u32)>> {
    match entries {
        Some(list) => Some(list@),
        None => None,
    }
}

/// Why limits on usage charges are not set.
pub open spec fn limits_refusal(s: State, merchant: Address, id: u32) -> Option<Error> {
    if !s.authorized(merchant) {
        Some(Error::AuthRequired)
    } else if !s.subscriptions.dom().contains(id) {
        Some(Error::NotFound)
    } else if merchant != s.subscriptions[id].merchant {
        Some(Error::Unauthorized)
    } else {
        None
    }
}

/// The state after limits on usage charges were set.
pub open spec fn limits_set(s: State, id: u32, limits: UsageLimits) -> State {
    State { usage_limits: s.usage_limits.insert(id, limits), ..s.quiet() }
}

fn check_values(fee_bips: i32, operations: i32) -> (r: Option<Error>)
    ensures
        r == values_refusal(fee_bips, operations),
{
    if fee_bips < 0 || fee_bips > 10_000 {
        return Some(Error::InvalidFeeBips);
    }
    if operations < 0 || operations > ALL_OPERATIONS {
        return Some(Error::InvalidOperations);
    }
    if operations % 2 != OP_CHARGE {
        return Some(Error::MustAllowChargeOperation);
    }
    None
}

fn are_distinct(signers: &Vec<Address>) -> (b: bool)
    ensures
        b == distinct(signers@),
{
    let mut i: usize = 0;
    while i < signers.len()
        invariant
            i <= signers@.len(),
            forall|a: int, b: int| 0 <= a < b < i ==> signers@[a] != signers@[b],
        decreases signers@.len() - i,
    {
        let mut j: usize = 0;
        while j < i
            invariant
                j <= i < signers@.len(),
                forall|a: int| 0 <= a < j ==> signers@[a] != signers@[i as int],
            decreases i - j,
        {
            if signers[j].same(&signers[i]) {
                assert(signers@[j as int] == signers@[i as int]);
                return false;
            }
            j += 1;
        }
        i += 1;
    }
    true
}

impl Vault {
    /// Stores a merchant's settings for the first time.
    pub fn initialize_merchant_config(
        &mut self,
        merchant: &Address,
        payout_address: &Address,
        fee_bips: i32,
        allowed_operations: i32,
        fee_address: Option<Address>,
        redirect_url: &[u8],
    ) -> (r: Result<MerchantConfig, Error>)
        ensures
            match config_refusal(old(self)@, *merchant, fee_bips, allowed_operations) {
                Some(e) => r == Err::<MerchantConfig, Error>(e) && final(self)@ == old(
                    self,
                )@.quiet(),
                None => {
                    let c = MerchantConfigState {
                        payout_address: *payout_address,
                        fee_bips,
                        allowed_operations,
                        is_active: true,
                        fee_address,
                        redirect_url: redirect_url@,
                    };
                    &&& r matches Ok(stored)
                    &&& stored@ == c
                    &&& final(self)@ == configured(old(self)@, *merchant, c)
                },
            },
    {
        let authorized = self.has_authorized(merchant);
        self.events.clear();
        if !authorized {
            return Err(Error::AuthRequired);
        }
        if self.merchant_configs.contains(merchant) {
            return Err(Error::AlreadyInitialized);
        }
        match check_values(fee_bips, allowed_operations) {
            Some(e) => {
                return Err(e);
            },
            None => {},
        }
        let config = MerchantConfig {
            payout_address: *payout_address,
            fee_bips,
            allowed_operations,
            is_active: true,
            fee_address,
            redirect_url: copy_bytes(redirect_url),
        };
        self.merchant_configs.insert(*merchant, config.copy());
        Ok(config)
    }

    /// Changes a merchant's settings.
    pub fn update_merchant_config(&mut self, merchant: &Address, update: MerchantConfigUpdate) -> (r: Result<
        MerchantConfig,
        Error,
    >)
        ensures
            match update_refusal(old(self)@, *merchant, update) {
                Some(e) => r == Err::<MerchantConfig, Error>(e) && final(self)@ == old(
                    self,
                )@.quiet(),
                None => {
                    &&& r matches Ok(stored)
                    &&& stored@ == updated_config(old(self)@.merchant_configs[*merchant], update)
                    &&& final(self)@ == updated(old(self)@, *merchant, update)
                },
            },
    {
        let ghost u = update;
        let authorized = self.has_authorized(merchant);
        self.events.clear();
        if !authorized {
            return Err(Error::AuthRequired);
        }
        let mut config = match self.merchant_configs.get(merchant) {
            Some(c) => c.copy(),
            None => {
                return Err(Error::NotFound);
            },
        };
        match update.payout_address {
            Some(a) => {
                config.payout_address = a;
            },
            None => {},
        }
        match update.fee_bips {
            Some(f) => {
                config.fee_bips = f;
            },
            None => {},
        }
        match update.allowed_operations {
            Some(o) => {
                config.allowed_operations = o;
            },
            None => {},
        }
        match update.is_active {
            Some(b) => {
                config.is_active = b;
            },
            None => {},
        }
        match update.fee_address {
            Some(a) => {
                config.fee_address = Some(a);
            },
            None => {},
        }
        match update.redirect_url {
            Some(url) => {
                config.redirect_url = url;
            },
            None => {},
        }
        assert(config@ =~= updated_config(old(self)@.merchant_configs[*merchant], u));
        match check_values(config.fee_bips, config.allowed_operations) {
            Some(e) => {
                return Err(e);
            },
            None => {},
        }
        match update.paused {
            Some(p) => {
                self.paused_merchants.insert(*merchant, p);
            },
            None => {},
        }
        self.merchant_configs.insert(*merchant, config.copy());
        assert(self@ =~= updated(old(self)@, *merchant, u));
        Ok(config)
    }

    /// A merchant's settings, if there are any.
    pub fn get_merchant_config(&self, merchant: &Address) -> (r: Option<MerchantConfig>)
        ensures
            match r {
                Some(c) => self@.merchant_configs.dom().contains(*merchant) && c@
                    == self@.merchant_configs[*merchant],
                None => !self@.merchant_configs.dom().contains(*merchant),
            },
    {
        match self.merchant_configs.get(merchant) {
            Some(c) => Some(c.copy()),
            None => None,
        }
    }

    /// Lets a merchant pause itself: nothing can be deposited or charged for it.
    pub fn pause_merchant(&mut self, merchant: &Address) -> (r: Result<(), Error>)
        ensures
            ends(
                r,
                old(self)@,
                final(self)@,
                own_refusal(old(self)@, *merchant),
                (),
                merchant_paused(old(self)@, *merchant),
            ),
    {
        let authorized = self.has_authorized(merchant);
        self.events.clear();
        if !authorized {
            return Err(Error::AuthRequired);
        }
        self.paused_merchants.insert(*merchant, true);
        self.events.push(Event::MerchantPaused { merchant: *merchant });
        assert(self@ =~= merchant_paused(old(self)@, *merchant));
        Ok(())
    }

    /// Makes a merchant's withdrawals depend on several signers.
    pub fn set_merchant_multisig(
        &mut self,
        admin: &Address,
        merchant: &Address,
        signers: Vec<Address>,
        threshold: u32,
    ) -> (r: Result<(), Error>)
        ensures
            ends(
                r,
                old(self)@,
                final(self)@,
                multisig_refusal(old(self)@, *admin, signers@, threshold),
                (),
                multisig_set(old(self)@, *merchant, signers@, threshold),
            ),
    {
        let refusal = self.check_admin(admin);
        self.events.clear();
        match refusal {
            Some(e) => {
                return Err(e);
            },
            None => {},
        }
        if threshold == 0 || threshold as usize > signers.len() || !are_distinct(&signers) {
            return Err(Error::InvalidInput);
        }
        self.multisigs.insert(*merchant, MerchantMultisig { signers, threshold });
        Ok(())
    }

    fn is_withdrawal_authorized(&self, merchant: &Address) -> (b: bool)
        ensures
            b == withdrawal_authorized(self@, *merchant),
    {
        match self.multisigs.get(merchant) {
            None => self.has_authorized(merchant),
            Some(m) => {
                let mut count: usize = 0;
                let mut i: usize = 0;
                while i < m.signers.len()
                    invariant
                        i <= m.signers@.len(),
                        count <= i,
                        count == signed(self@, m.signers@, i as int),
                    decreases m.signers@.len() - i,
                {
                    if self.has_authorized(&m.signers[i]) {
                        count += 1;
                    }
                    i += 1;
                }
                count >= m.threshold as usize
            },
        }
    }

    /// A merchant's earnings in a token.
    pub fn get_merchant_token_earnings(&self, merchant: &Address, token: &Address) -> (e: TokenEarnings)
        ensures
            e == earned(self@.earnings, *merchant, *token),
    {
        match self.earnings.get(&(*merchant, *token)) {
            Some(e) => *e,
            None => TokenEarnings {
                accruals: ChargeTotals { interval: 0, usage: 0, one_off: 0 },
                withdrawals: 0,
                refunds: 0,
            },
        }
    }

    /// Books a payment out of a merchant's balance, up to the transfer, or says why not.
    fn book_payment(
        &mut self,
        merchant: &Address,
        token: &Address,
        to: &Address,
        amount: i128,
        withdrawal: bool,
    ) -> (r: Result<Option<Payment>, Error>)
        ensures
            hands_over(
                r,
                old(self)@,
                final(self)@,
                payment_refusal(old(self)@, *merchant, *token, *to, amount),
                Some(merchant_payment(*token, *to, amount)),
                paid_out(old(self)@, *merchant, *token, *to, amount, withdrawal),
            ),
    {
        self.events.clear();
        if self.config.locked {
            return Err(Error::Reentrancy);
        }
        if self.config.emergency_stop {
            return Err(Error::EmergencyStopActive);
        }
        let balance: i128 = self.get_merchant_balance_by_token(merchant, token);
        if balance <= 0 {
            return Err(Error::NotFound);
        }
        if amount <= 0 {
            return Err(Error::InvalidAmount);
        }
        if amount > balance {
            return Err(Error::InsufficientBalance);
        }
        match check_transfer(&self.tokens, token, &vault_address(), to, amount) {
            Some(e) => {
                return Err(e);
            },
            None => {},
        }
        self.merchant_balances.insert((*merchant, *token), balance - amount);
        let mut e = self.get_merchant_token_earnings(merchant, token);
        if withdrawal {
            e.withdrawals = clamped_add(e.withdrawals, amount);
        } else {
            e.refunds = clamped_add(e.refunds, amount);
        }
        self.earnings.insert((*merchant, *token), e);
        self.config.locked = true;
        let p = Some(Payment { token: *token, from: vault_address(), to: *to, amount });
        assert(self@ =~= handed_over(
            old(self)@,
            p,
            paid_out(old(self)@, *merchant, *token, *to, amount, withdrawal),
        ));
        Ok(p)
    }

    /// The first step of a merchant's withdrawal.
    pub(crate) fn begin_merchant_withdrawal(
        &mut self,
        merchant: &Address,
        token: &Address,
        amount: i128,
    ) -> (r: Result<Option<Payment>, Error>)
        ensures
            hands_over(
                r,
                old(self)@,
                final(self)@,
                merchant_withdraw_refusal(old(self)@, *merchant, *token, amount),
                Some(merchant_payment(*token, *merchant, amount)),
                merchant_withdrawn(old(self)@, *merchant, *token, amount),
            ),
    {
        if !self.is_withdrawal_authorized(merchant) {
            self.events.clear();
            return Err(Error::AuthRequired);
        }
        match self.book_payment(merchant, token, merchant, amount, true) {
            Err(e) => Err(e),
            Ok(p) => {
                let balance: i128 = self.get_merchant_balance_by_token(merchant, token);
                self.events.push(
                    Event::MerchantWithdrawn { merchant: *merchant, token: *token, amount },
                );
                self.events.push(
                    Event::MerchantBalanceSnapshot { merchant: *merchant, token: *token, balance },
                );
                assert(self@ =~= handed_over(
                    old(self)@,
                    p,
                    merchant_withdrawn(old(self)@, *merchant, *token, amount),
                ));
                Ok(p)
            },
        }
    }

    /// Pays part of a merchant's balance in a token to the merchant.
    pub fn withdraw_merchant_token_funds(&mut self, merchant: &Address, token: &Address, amount: i128) -> (r: Result<
        (),
        Error,
    >)
        ensures
            ends(
                r,
                old(self)@,
                final(self)@,
                merchant_withdraw_refusal(old(self)@, *merchant, *token, amount),
                (),
                merchant_withdrawn(old(self)@, *merchant, *token, amount),
            ),
            r is Ok ==> pays_from_credit(
                old(self)@,
                final(self)@,
                *merchant,
                *token,
                *merchant,
                amount as int,
            ),
    {
        proof {
            law_merchant_withdrawal(self@, *merchant, *token, amount);
        }
        match self.begin_merchant_withdrawal(merchant, token, amount) {
            Err(e) => Err(e),
            Ok(p) => {
                self.finish_payment(&p);
                assert(self@ =~= merchant_withdrawn(old(self)@, *merchant, *token, amount));
                Ok(())
            },
        }
    }

    /// Pays part of a merchant's balance in the default token to the merchant.
    pub fn withdraw_merchant_funds(&mut self, merchant: &Address, amount: i128) -> (r: Result<
        (),
        Error,
    >)
        ensures
            ends(
                r,
                old(self)@,
                final(self)@,
                merchant_withdraw_refusal(
                    old(self)@,
                    *merchant,
                    old(self)@.config.token,
                    amount,
                ),
                (),
                merchant_withdrawn(old(self)@, *merchant, old(self)@.config.token, amount),
            ),
            r is Ok ==> pays_from_credit(
                old(self)@,
                final(self)@,
                *merchant,
                old(self)@.config.token,
                *merchant,
                amount as int,
            ),
    {
        let token = self.config.token;
        self.withdraw_merchant_token_funds(merchant, &token, amount)
    }

    /// The first step of a merchant's refund.
    pub(crate) fn begin_merchant_refund(
        &mut self,
        merchant: &Address,
        subscriber: &Address,
        token: &Address,
        amount: i128,
    ) -> (r: Result<Option<Payment>, Error>)
        ensures
            hands_over(
                r,
                old(self)@,
                final(self)@,
                merchant_refund_refusal(old(self)@, *merchant, *subscriber, *token, amount),
                Some(merchant_payment(*token, *subscriber, amount)),
                merchant_refunded(old(self)@, *merchant, *subscriber, *token, amount),
            ),
    {
        if !self.has_authorized(merchant) {
            self.events.clear();
            return Err(Error::AuthRequired);
        }
        match self.book_payment(merchant, token, subscriber, amount, false) {
            Err(e) => Err(e),
            Ok(p) => {
                self.events.push(
                    Event::MerchantRefunded {
                        merchant: *merchant,
                        subscriber: *subscriber,
                        token: *token,
                        amount,
                    },
                );
                assert(self@ =~= handed_over(
                    old(self)@,
                    p,
                    merchant_refunded(old(self)@, *merchant, *subscriber, *token, amount),
                ));
                Ok(p)
            },
        }
    }

    /// Pays part of a merchant's balance back to a subscriber.
    pub fn merchant_refund(
        &mut self,
        merchant: &Address,
        subscriber: &Address,
        token: &Address,
        amount: i128,
    ) -> (r: Result<(), Error>)
        ensures
            ends(
                r,
                old(self)@,
                final(self)@,
                merchant_refund_refusal(old(self)@, *merchant, *subscriber, *token, amount),
                (),
                merchant_refunded(old(self)@, *merchant, *subscriber, *token, amount),
            ),
            r is Ok ==> pays_from_credit(
                old(self)@,
                final(self)@,
                *merchant,
                *token,
                *subscriber,
                amount as int,
            ),
    {
        proof {
            law_merchant_refund(self@, *merchant, *subscriber, *token, amount);
        }
        match self.begin_merchant_refund(merchant, subscriber, token, amount) {
            Err(e) => Err(e),
            Ok(p) => {
                self.finish_payment(&p);
                assert(self@ =~= merchant_refunded(
                    old(self)@,
                    *merchant,
                    *subscriber,
                    *token,
                    amount,
                ));
                Ok(())
            },
        }
    }

    /// Registers a sub-account, to which subscriptions can direct their charges.
    pub fn register_sub_account(&mut self, merchant: &Address, label: &Symbol) -> (r: Result<
        (),
        Error,
    >)
        ensures
            ends(
                r,
                old(self)@,
                final(self)@,
                register_refusal(old(self)@, *merchant, *label),
                (),
                sub_account_added(old(self)@, *merchant, *label),
            ),
    {
        let authorized = self.has_authorized(merchant);
        let known = self.is_registered(merchant, label);
        self.events.clear();
        if !authorized {
            return Err(Error::AuthRequired);
        }
        if !self.merchant_configs.contains(merchant) {
            return Err(Error::NotFound);
        }
        if label.is_empty() || known {
            return Err(Error::InvalidInput);
        }
        let mut list: Vec<Symbol> = match self.sub_accounts.take(merchant) {
            Some(l) => l,
            None => Vec::new(),
        };
        list.push(*label);
        self.sub_accounts.insert(*merchant, list);
        self.events.push(Event::SubAccountRegistered { merchant: *merchant, label: *label });
        assert(self@ =~= sub_account_added(old(self)@, *merchant, *label));
        Ok(())
    }

    /// A merchant's sub-accounts, in the order of registration.
    pub fn get_sub_account_list(&self, merchant: &Address) -> (list: Vec<Symbol>)
        ensures
            list@ == labels_of(self@, *merchant),
    {
        let mut out: Vec<Symbol> = Vec::new();
        match self.sub_accounts.get(merchant) {
            None => {},
            Some(l) => {
                let mut i: usize = 0;
                while i < l.len()
                    invariant
                        i <= l@.len(),
                        out@ == l@.take(i as int),
                    decreases l@.len() - i,
                {
                    out.push(l[i]);
                    assert(l@.take(i + 1) =~= l@.take(i as int).push(l@[i as int]));
                    i += 1;
                }
                assert(l@.take(i as int) =~= l@);
            },
        }
        out
    }

    /// What a sub-account can withdraw in the default token.
    pub fn get_sub_account_balance(&self, merchant: &Address, label: &Symbol) -> (b: i128)
        ensures
            b == self@.sub_balance(*merchant, *label, self@.config.token),
    {
        let token = self.config.token;
        self.sub_account_balance(merchant, label, &token)
    }

    /// Credits a sub-account.
    pub fn credit_sub_account(
        &mut self,
        merchant: &Address,
        label: &Symbol,
        token: &Address,
        amount: i128,
    ) -> (r: Result<(), Error>)
        ensures
            ends(
                r,
                old(self)@,
                final(self)@,
                sub_credit_refusal(old(self)@, *merchant, *label, *token, amount),
                (),
                sub_credited(old(self)@, *merchant, *label, *token, amount),
            ),
    {
        let known = self.is_registered(merchant, label);
        self.events.clear();
        if !known {
            return Err(Error::NotFound);
        }
        if amount <= 0 {
            return Err(Error::InvalidAmount);
        }
        match self.sub_account_balance(merchant, label, token).checked_add(amount) {
            None => Err(Error::Overflow),
            Some(b) => {
                self.sub_balances.insert((*merchant, *label, *token), b);
                Ok(())
            },
        }
    }

    /// The first step of a withdrawal from a sub-account.
    pub(crate) fn begin_sub_account_withdrawal(
        &mut self,
        merchant: &Address,
        label: &Symbol,
        token: &Address,
        amount: i128,
    ) -> (r: Result<Option<Payment>, Error>)
        ensures
            hands_over(
                r,
                old(self)@,
                final(self)@,
                sub_withdraw_refusal(old(self)@, *merchant, *label, *token, amount),
                Some(merchant_payment(*token, *merchant, amount)),
                sub_withdrawn(old(self)@, *merchant, *label, *token, amount),
            ),
    {
        let authorized = self.has_authorized(merchant);
        let known = self.is_registered(merchant, label);
        self.events.clear();
        if !authorized {
            return Err(Error::AuthRequired);
        }
        if self.config.locked {
            return Err(Error::Reentrancy);
        }
        if self.config.emergency_stop {
            return Err(Error::EmergencyStopActive);
        }
        if !known {
            return Err(Error::NotFound);
        }
        if amount <= 0 {
            return Err(Error::InvalidAmount);
        }
        let balance: i128 = self.sub_account_balance(merchant, label, token);
        if amount > balance {
            return Err(Error::InsufficientBalance);
        }
        match check_transfer(&self.tokens, token, &vault_address(), merchant, amount) {
            Some(e) => {
                return Err(e);
            },
            None => {},
        }
        self.sub_balances.insert((*merchant, *label, *token), balance - amount);
        self.events.push(
            Event::SubAccountWithdrawn {
                merchant: *merchant,
                label: *label,
                token: *token,
                amount,
            },
        );
        self.config.locked = true;
        let p = Some(
            Payment { token: *token, from: vault_address(), to: *merchant, amount },
        );
        assert(self@ =~= handed_over(
            old(self)@,
            p,
            sub_withdrawn(old(self)@, *merchant, *label, *token, amount),
        ));
        Ok(p)
    }

    /// Pays part of a sub-account's balance to its merchant.
    pub fn withdraw_sub_account_funds(
        &mut self,
        merchant: &Address,
        label: &Symbol,
        token: &Address,
        amount: i128,
    ) -> (r: Result<(), Error>)
        ensures
            ends(
                r,
                old(self)@,
                final(self)@,
                sub_withdraw_refusal(old(self)@, *merchant, *label, *token, amount),
                (),
                sub_withdrawn(old(self)@, *merchant, *label, *token, amount),
            ),
            r is Ok ==> only_sub_credit(old(self)@, final(self)@, *merchant, *label, *token, -amount)
                && moved(old(self)@, final(self)@, *token, vault(), *merchant, amount as int),
    {
        proof {
            law_sub_accounts(self@, *merchant, *label, *token, amount);
        }
        match self.begin_sub_account_withdrawal(merchant, label, token, amount) {
            Err(e) => Err(e),
            Ok(p) => {
                self.finish_payment(&p);
                assert(self@ =~= sub_withdrawn(old(self)@, *merchant, *label, *token, amount));
                Ok(())
            },
        }
    }

    /// Sends a merchant on vacation from `start` until just before `end`.
    pub fn set_merchant_vacation(&mut self, merchant: &Address, start: u64, end: u64) -> (r: Result<
        (),
        Error,
    >)
        ensures
            ends(
                r,
                old(self)@,
                final(self)@,
                vacation_refusal(old(self)@, *merchant, start, end),
                (),
                vacation_set(old(self)@, *merchant, start, end),
            ),
    {
        let authorized = self.has_authorized(merchant);
        self.events.clear();
        if !authorized {
            return Err(Error::AuthRequired);
        }
        if end <= start {
            return Err(Error::InvalidInput);
        }
        if start < self.ledger.timestamp {
            return Err(Error::InvalidExpiration);
        }
        self.vacations.insert(*merchant, MerchantVacation { start_ts: start, end_ts: end });
        self.events.push(
            Event::VacationStarted { merchant: *merchant, start_ts: start, end_ts: end },
        );
        assert(self@ =~= vacation_set(old(self)@, *merchant, start, end));
        Ok(())
    }

    /// Calls a merchant's vacation off, if there is one.
    pub fn clear_merchant_vacation(&mut self, merchant: &Address) -> (r: Result<(), Error>)
        ensures
            ends(
                r,
                old(self)@,
                final(self)@,
                own_refusal(old(self)@, *merchant),
                (),
                vacation_cleared(old(self)@, *merchant),
            ),
    {
        let authorized = self.has_authorized(merchant);
        self.events.clear();
        if !authorized {
            return Err(Error::AuthRequired);
        }
        match self.vacations.take(merchant) {
            Some(_) => {
                self.events.push(Event::VacationEnded { merchant: *merchant });
            },
            None => {},
        }
        assert(self@ =~= vacation_cleared(old(self)@, *merchant));
        Ok(())
    }

    /// A merchant's vacation, if there is one.
    pub fn get_merchant_vacation(&self, merchant: &Address) -> (r: Option<MerchantVacation>)
        ensures
            r == (if self@.vacations.dom().contains(*merchant) {
                Some(self@.vacations[*merchant])
            } else {
                None
            }),
    {
        match self.vacations.get(merchant) {
            Some(v) => Some(*v),
            None => None,
        }
    }

    /// The payees between which a subscription's charges are split, if they are.
    pub fn get_split_payees(&self, id: u32) -> (r: Option<Vec<(Address, u32)>>)
        ensures
            entries_of(r) == (if self@.splits.dom().contains(id) {
                Some(self@.splits[id])
            } else {
                None
            }),
    {
        match self.splits.get(&id) {
            None => None,
            Some(list) => {
                let mut out: Vec<(Address, u32)> = Vec::new();
                let mut i: usize = 0;
                while i < list.len()
                    invariant
                        i <= list@.len(),
                        out@ == list@.take(i as int),
                    decreases list@.len() - i,
                {
                    out.push(list[i]);
                    assert(list@.take(i + 1) =~= list@.take(i as int).push(list@[i as int]));
                    i += 1;
                }
                assert(list@.take(i as int) =~= list@);
                Some(out)
            },
        }
    }

    /// Changes or removes the split of a subscription's charges, at its subscriber's word.
    pub fn update_split_payees(
        &mut self,
        subscriber: &Address,
        id: u32,
        entries: Option<Vec<(Address, u32)>>,
    ) -> (r: Result<(), Error>)
        ensures
            ends(
                r,
                old(self)@,
                final(self)@,
                split_refusal(old(self)@, *subscriber, id, entries_of(entries)),
                (),
                split_set(old(self)@, id, entries_of(entries)),
            ),
    {
        let authorized = self.has_authorized(subscriber);
        self.events.clear();
        if !authorized {
            return Err(Error::AuthRequired);
        }
        match self.subscriptions.get(&id) {
            None => {
                return Err(Error::NotFound);
            },
            Some(sub) => {
                if !subscriber.same(&sub.subscriber) {
                    return Err(Error::Unauthorized);
                }
            },
        }
        match entries {
            Some(list) => {
                if !is_valid_split(&list) {
                    return Err(Error::InvalidInput);
                }
                self.splits.insert(id, list);
            },
            None => {
                self.splits.remove(&id);
            },
        }
        Ok(())
    }

    /// Sets down limits on a subscription's usage charges. They are on record for the merchant's
    /// own systems: no charge of the vault reads them.
    pub fn configure_usage_limits(&mut self, merchant: &Address, id: u32, limits: UsageLimits) -> (r: Result<
        (),
        Error,
    >)
        ensures
            ends(
                r,
                old(self)@,
                final(self)@,
                limits_refusal(old(self)@, *merchant, id),
                (),
                limits_set(old(self)@, id, limits),
            ),
    {
        let authorized = self.has_authorized(merchant);
        self.events.clear();
        if !authorized {
            return Err(Error::AuthRequired);
        }
        match self.subscriptions.get(&id) {
            None => {
                return Err(Error::NotFound);
            },
            Some(sub) => {
                if !merchant.same(&sub.merchant) {
                    return Err(Error::Unauthorized);
                }
            },
        }
        self.usage_limits.insert(id, limits);
        Ok(())
    }

    /// The limits that were set down for a subscription's usage charges, if any.
    pub fn get_usage_limits(&self, id: u32) -> (r: Option<UsageLimits>)
        ensures
            r == (if self@.usage_limits.dom().contains(id) {
                Some(self@.usage_limits[id])
            } else {
                None
            }),
    {
        match self.usage_limits.get(&id) {
            Some(l) => Some(*l),
            None => None,
        }
    }
}

} // verus!
