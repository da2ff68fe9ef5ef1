//! What the administrator sets: limits, fees, tokens, the operator and the emergency stop.
use crate::events::Event;
use crate::nonce::{
    check_and_advance, domain_number, get_nonce, next_nonce, nonce_consumed, nonce_refusal,
    NonceDomain, DOMAIN_ADMIN_ROTATION, DOMAIN_OPERATOR_BATCH_CHARGE,
};
use crate::records::{CancellationPolicy, ConfigKey, OracleFeed};
use crate::types::{names, vault, vault_address, Address, Error, Key};
use crate::vault::{ends, Config, State, Vault};
use vstd::prelude::*;

verus! {

/// The shortest time between two changes of one setting.
pub const CONFIG_COOLDOWN_SECS: u64 = 21_600;

/// The highest protocol fee, in basis points.
pub const MAX_PROTOCOL_FEE_BIPS: u32 = 500;

/// The highest fee that a merchant can be given, in basis points.
pub const MAX_FEE_BIPS: u32 = 10_000;

/// How old the sample of a price feed is taken to be.
pub const SAMPLE_AGE_SECS: u64 = 60;

/// Whether a setting was changed too short a time ago to be changed again.
pub open spec fn cooling_down(s: State, key: ConfigKey) -> bool {
    s.cooldowns.dom().contains(key) && s.ledger.timestamp < s.cooldowns[key] + CONFIG_COOLDOWN_SECS
}

/// Why the administrator's change of a setting is refused.
pub open spec fn setting_refusal(s: State, admin: Address, key: ConfigKey) -> Option<Error> {
    if s.admin_refusal(admin) is Some {
        s.admin_refusal(admin)
    } else if cooling_down(s, key) {
        Some(Error::CooldownActive)
    } else {
        None
    }
}

/// The times of change after a setting was changed now.
pub open spec fn touched(s: State, key: ConfigKey) -> Map<ConfigKey, u64> {
    s.cooldowns.insert(key, s.ledger.timestamp)
}

/// Why a vault is not initialised.
pub open spec fn init_refusal(s: State, min_topup: i128) -> Option<Error> {
    if s.config.admin is Some {
        Some(Error::AlreadyInitialized)
    } else if min_topup <= 0 {
        Some(Error::InvalidAmount)
    } else {
        None
    }
}

/// The state after a vault was initialised.
pub open spec fn initialised(
    s: State,
    token: Address,
    decimals: u32,
    admin: Address,
    min_topup: i128,
    grace_period: u64,
) -> State {
    State {
        config: Config { admin: Some(admin), token, min_topup, grace_period, ..s.config },
        accepted_tokens: s.accepted_tokens.push((token, decimals)),
        ..s.quiet()
    }
}

/// Why the smallest deposit is not changed.
pub open spec fn min_topup_refusal(s: State, admin: Address, min_topup: i128) -> Option<Error> {
    if s.admin_refusal(admin) is Some {
        s.admin_refusal(admin)
    } else if min_topup <= 0 {
        Some(Error::InvalidAmount)
    } else {
        None
    }
}

/// The state after the smallest deposit was changed.
pub open spec fn min_topup_set(s: State, min_topup: i128) -> State {
    State { config: Config { min_topup, ..s.config }, ..s.quiet() }
}

/// Why the administrator is not replaced.
pub open spec fn rotate_refusal(
    s: State,
    admin: Address,
    new_admin: Address,
    nonce: u64,
) -> Option<Error> {
    if s.admin_refusal(admin) is Some {
        s.admin_refusal(admin)
    } else if new_admin == admin {
        Some(Error::SelfRotation)
    } else if new_admin == vault() {
        Some(Error::InvalidNewAdmin)
    } else {
        nonce_refusal(next_nonce(s.nonces, admin, DOMAIN_ADMIN_ROTATION), nonce)
    }
}

/// The state after the administrator was replaced. Nothing else changes hands.
pub open spec fn rotated(s: State, admin: Address, new_admin: Address, nonce: u64) -> State {
    State {
        config: Config { admin: Some(new_admin), ..s.config },
        nonces: nonce_consumed(s.nonces, admin, DOMAIN_ADMIN_ROTATION),
        events: seq![
            Event::NonceConsumed {
                signer: admin,
                domain: domain_number(DOMAIN_ADMIN_ROTATION),
                nonce,
            },
            Event::AdminRotated {
                old_admin: admin,
                new_admin,
                timestamp: s.ledger.timestamp,
            },
        ],
        ..s
    }
}

/// The state after the emergency stop was switched. Switching it to what it is changes nothing.
pub open spec fn stop_set(s: State, admin: Address, on: bool) -> State {
    if s.config.emergency_stop == on {
        s.quiet()
    } else {
        State {
            config: Config { emergency_stop: on, ..s.config },
            cooldowns: touched(s, ConfigKey::EmergencyStop),
            events: seq![
                if on {
                    Event::EmergencyStopEnabled { admin, timestamp: s.ledger.timestamp }
                } else {
                    Event::EmergencyStopDisabled { admin, timestamp: s.ledger.timestamp }
                },
            ],
            ..s
        }
    }
}

/// Why the operator is not appointed.
pub open spec fn operator_set_refusal(s: State, admin: Address, operator: Address) -> Option<Error> {
    if s.admin_refusal(admin) is Some {
        s.admin_refusal(admin)
    } else if operator == vault() {
        Some(Error::InvalidInput)
    } else if cooling_down(s, ConfigKey::Operator) {
        Some(Error::CooldownActive)
    } else {
        None
    }
}

/// The state after an operator was appointed.
pub open spec fn operator_set(s: State, admin: Address, operator: Address) -> State {
    State {
        config: Config { operator: Some(operator), ..s.config },
        cooldowns: touched(s, ConfigKey::Operator),
        events: seq![Event::OperatorSet { admin, operator, timestamp: s.ledger.timestamp }],
        ..s
    }
}

/// Since when the operator has been in office, or now if that is not on record.
pub open spec fn operator_since(s: State) -> u64 {
    if s.cooldowns.dom().contains(ConfigKey::Operator) {
        s.cooldowns[ConfigKey::Operator]
    } else {
        s.ledger.timestamp
    }
}

/// The state after the operator was dismissed, if there was one. The report says since when the
/// operator had been in office.
pub open spec fn operator_removed(s: State, admin: Address) -> State {
    if s.config.operator is None {
        s.quiet()
    } else {
        State {
            config: Config { operator: None, ..s.config },
            cooldowns: touched(s, ConfigKey::Operator),
            events: seq![Event::OperatorRemoved { admin, timestamp: operator_since(s) }],
            ..s
        }
    }
}

/// Why a call that only the operator may make is refused.
pub open spec fn operator_refusal(s: State, operator: Address) -> Option<Error> {
    if s.config.operator != Some(operator) {
        Some(Error::Unauthorized)
    } else if !s.authorized(operator) {
        Some(Error::AuthRequired)
    } else {
        None
    }
}

/// Why a token is not accepted.
pub open spec fn accept_token_refusal(s: State, admin: Address, token: Address) -> Option<Error> {
    if setting_refusal(s, admin, ConfigKey::AcceptedTokens) is Some {
        setting_refusal(s, admin, ConfigKey::AcceptedTokens)
    } else if crate::subscriptions::decimals_of(s, token) is Some {
        Some(Error::InvalidInput)
    } else {
        None
    }
}

/// The state after a token was accepted.
pub open spec fn token_accepted(s: State, token: Address, decimals: u32) -> State {
    State {
        accepted_tokens: s.accepted_tokens.push((token, decimals)),
        cooldowns: touched(s, ConfigKey::AcceptedTokens),
        ..s.quiet()
    }
}

/// Why the protocol fee is not changed.
pub open spec fn fee_refusal(s: State, admin: Address, bps: u32) -> Option<Error> {
    if s.admin_refusal(admin) is Some {
        s.admin_refusal(admin)
    } else if bps > MAX_PROTOCOL_FEE_BIPS {
        Some(Error::InvalidFeeBips)
    } else {
        None
    }
}

/// The state after the protocol fee was changed.
pub open spec fn fee_set(s: State, treasury: Address, bps: u32) -> State {
    State { config: Config { treasury, protocol_fee_bps: bps, ..s.config }, ..s.quiet() }
}

/// The state after it was settled what becomes of the balance of a cancelled subscription.
pub open spec fn cancellation_set(s: State, policy: CancellationPolicy) -> State {
    State { config: Config { cancellation: policy, ..s.config }, ..s.quiet() }
}

/// The state after the shortest waiting time of proposals was set.
pub open spec fn timelock_set(s: State, delay: u64) -> State {
    State { config: Config { min_timelock_delay: delay, ..s.config }, ..s.quiet() }
}

/// Why a merchant is not given a fee of its own.
pub open spec fn override_refusal(s: State, admin: Address, bps: u32) -> Option<Error> {
    if s.admin_refusal(admin) is Some {
        s.admin_refusal(admin)
    } else if bps > MAX_FEE_BIPS || bps > s.config.protocol_fee_bps {
        Some(Error::InvalidFeeBips)
    } else {
        None
    }
}

/// The state after a merchant was given a fee of its own.
pub open spec fn override_set(s: State, merchant: Address, bps: u32) -> State {
    State { fee_overrides: s.fee_overrides.insert(merchant, bps), ..s.quiet() }
}

/// The state after a merchant's own fee was dropped, if there was one.
pub open spec fn override_cleared(s: State, merchant: Address) -> State {
    State { fee_overrides: s.fee_overrides.remove(merchant), ..s.quiet() }
}

/// The state after the price feed was configured.
pub open spec fn oracle_set(s: State, feed: OracleFeed) -> State {
    State {
        config: Config { oracle: feed, ..s.config },
        cooldowns: touched(s, ConfigKey::OracleConfig),
        ..s.quiet()
    }
}

/// What is reported of the liveness of a price feed.
#[derive(Clone, Copy, Debug, PartialEq, Eq, Structural)]
pub struct OracleLivenessEvent {
    pub last_sample_ts: u64,
    pub age: u64,
    pub healthy: bool,
    pub timestamp: u64,
}

/// Why the liveness of the price feed is not reported.
pub open spec fn liveness_refusal(s: State) -> Option<Error> {
    let feed = s.config.oracle;
    if !feed.enabled || feed.oracle is None || feed.max_age_seconds == 0 {
        Some(Error::OracleNotConfigured)
    } else {
        None
    }
}

/// The liveness of the price feed: healthy while the sample is at most half as old as allowed.
pub open spec fn liveness(s: State) -> OracleLivenessEvent {
    let now = s.ledger.timestamp;
    let sampled: u64 = if now >= SAMPLE_AGE_SECS {
        (now - SAMPLE_AGE_SECS) as u64
    } else {
        0
    };
    let age: u64 = (now - sampled) as u64;
    OracleLivenessEvent {
        last_sample_ts: sampled,
        age,
        healthy: age <= s.config.oracle.max_age_seconds / 2,
        timestamp: now,
    }
}

/// The state after the liveness of the price feed was reported.
pub open spec fn liveness_reported(s: State) -> State {
    let l = liveness(s);
    State {
        events: seq![
            Event::OracleLiveness {
                last_sample_ts: l.last_sample_ts,
                age: l.age,
                healthy: l.healthy,
                timestamp: l.timestamp,
            },
        ],
        ..s
    }
}

impl Vault {
    fn is_cooling_down(&self, key: ConfigKey) -> (b: bool)
        ensures
            b == cooling_down(self@, key),
    {
        match self.cooldowns.get(&key) {
            Some(t) => (self.ledger.timestamp as u128) < *t as u128 + CONFIG_COOLDOWN_SECS as u128,
            None => false,
        }
    }

    fn check_setting(&self, admin: &Address, key: ConfigKey) -> (r: Option<Error>)
        ensures
            r == setting_refusal(self@, *admin, key),
    {
        match self.check_admin(admin) {
            Some(e) => Some(e),
            None => if self.is_cooling_down(key) {
                Some(Error::CooldownActive)
            } else {
                None
            },
        }
    }

    /// Initialises the vault, once.
    pub fn init(
        &mut self,
        token: &Address,
        decimals: u32,
        admin: &Address,
        min_topup: i128,
        grace_period: u64,
    ) -> (r: Result<(), Error>)
        ensures
            ends(
                r,
                old(self)@,
                final(self)@,
                init_refusal(old(self)@, min_topup),
                (),
                initialised(old(self)@, *token, decimals, *admin, min_topup, grace_period),
            ),
    {
        self.events.clear();
        if self.config.admin.is_some() {
            return Err(Error::AlreadyInitialized);
        }
        if min_topup <= 0 {
            return Err(Error::InvalidAmount);
        }
        self.config.admin = Some(*admin);
        self.config.token = *token;
        self.config.min_topup = min_topup;
        self.config.grace_period = grace_period;
        self.accepted_tokens.push((*token, decimals));
        Ok(())
    }

    /// The administrator.
    pub fn get_admin(&self) -> (r: Option<Address>)
        ensures
            r == self@.config.admin,
    {
        self.config.admin
    }

    /// The smallest deposit.
    pub fn get_min_topup(&self) -> (r: i128)
        ensures
            r == self@.config.min_topup,
    {
        self.config.min_topup
    }

    /// Sets the smallest deposit.
    pub fn set_min_topup(&mut self, admin: &Address, min_topup: i128) -> (r: Result<(), Error>)
        ensures
            ends(
                r,
                old(self)@,
                final(self)@,
                min_topup_refusal(old(self)@, *admin, min_topup),
                (),
                min_topup_set(old(self)@, min_topup),
            ),
            r is Ok ==> final(self)@.config.min_topup == min_topup,
    {
        let refusal = self.check_admin(admin);
        self.events.clear();
        match refusal {
            Some(e) => {
                return Err(e);
            },
            None => {},
        }
        if min_topup <= 0 {
            return Err(Error::InvalidAmount);
        }
        self.config.min_topup = min_topup;
        Ok(())
    }

    /// The next nonce of a signer in a domain.
    pub fn get_admin_nonce(&self, signer: &Address, domain: NonceDomain) -> (n: u64)
        ensures
            n == next_nonce(self@.nonces, *signer, domain),
    {
        get_nonce(&self.nonces, signer, domain)
    }

    /// The next nonce of an operator's batch charges.
    pub fn get_operator_nonce(&self, operator: &Address) -> (n: u64)
        ensures
            n == next_nonce(self@.nonces, *operator, DOMAIN_OPERATOR_BATCH_CHARGE),
    {
        get_nonce(&self.nonces, operator, DOMAIN_OPERATOR_BATCH_CHARGE)
    }

    /// Replaces the administrator.
    pub fn rotate_admin(&mut self, admin: &Address, new_admin: &Address, nonce: u64) -> (r: Result<
        (),
        Error,
    >)
        ensures
            ends(
                r,
                old(self)@,
                final(self)@,
                rotate_refusal(old(self)@, *admin, *new_admin, nonce),
                (),
                rotated(old(self)@, *admin, *new_admin, nonce),
            ),
            r is Ok ==> final(self)@.config.admin == Some(*new_admin),
    {
        let refusal = self.check_admin(admin);
        self.events.clear();
        match refusal {
            Some(e) => {
                return Err(e);
            },
            None => {},
        }
        if new_admin.same(admin) {
            return Err(Error::SelfRotation);
        }
        if new_admin.same(&vault_address()) {
            return Err(Error::InvalidNewAdmin);
        }
        match check_and_advance(&mut self.nonces, admin, DOMAIN_ADMIN_ROTATION, nonce) {
            Err(e) => {
                return Err(e);
            },
            Ok(_) => {},
        }
        self.config.admin = Some(*new_admin);
        self.events.push(
            Event::NonceConsumed { signer: *admin, domain: DOMAIN_ADMIN_ROTATION.as_u32(), nonce },
        );
        self.events.push(
            Event::AdminRotated {
                old_admin: *admin,
                new_admin: *new_admin,
                timestamp: self.ledger.timestamp,
            },
        );
        assert(self@ =~= rotated(old(self)@, *admin, *new_admin, nonce));
        Ok(())
    }

    /// Whether the emergency stop is on.
    pub fn get_emergency_stop_status(&self) -> (on: bool)
        ensures
            on == self@.config.emergency_stop,
    {
        self.config.emergency_stop
    }

    fn set_stop(&mut self, admin: &Address, on: bool) -> (r: Result<(), Error>)
        ensures
            ends(
                r,
                old(self)@,
                final(self)@,
                setting_refusal(old(self)@, *admin, ConfigKey::EmergencyStop),
                (),
                stop_set(old(self)@, *admin, on),
            ),
    {
        let refusal = self.check_setting(admin, ConfigKey::EmergencyStop);
        self.events.clear();
        match refusal {
            Some(e) => {
                return Err(e);
            },
            None => {},
        }
        if self.config.emergency_stop == on {
            return Ok(());
        }
        let now: u64 = self.ledger.timestamp;
        self.config.emergency_stop = on;
        self.cooldowns.insert(ConfigKey::EmergencyStop, now);
        if on {
            self.events.push(Event::EmergencyStopEnabled { admin: *admin, timestamp: now });
        } else {
            self.events.push(Event::EmergencyStopDisabled { admin: *admin, timestamp: now });
        }
        assert(self@ =~= stop_set(old(self)@, *admin, on));
        Ok(())
    }

    /// Switches the emergency stop on.
    pub fn enable_emergency_stop(&mut self, admin: &Address) -> (r: Result<(), Error>)
        ensures
            ends(
                r,
                old(self)@,
                final(self)@,
                setting_refusal(old(self)@, *admin, ConfigKey::EmergencyStop),
                (),
                stop_set(old(self)@, *admin, true),
            ),
            r is Ok ==> final(self)@.config.emergency_stop,
    {
        self.set_stop(admin, true)
    }

    /// Switches the emergency stop off.
    pub fn disable_emergency_stop(&mut self, admin: &Address) -> (r: Result<(), Error>)
        ensures
            ends(
                r,
                old(self)@,
                final(self)@,
                setting_refusal(old(self)@, *admin, ConfigKey::EmergencyStop),
                (),
                stop_set(old(self)@, *admin, false),
            ),
            r is Ok ==> !final(self)@.config.emergency_stop,
    {
        self.set_stop(admin, false)
    }

    /// The operator, if there is one.
    pub fn get_operator(&self) -> (r: Option<Address>)
        ensures
            r == self@.config.operator,
    {
        self.config.operator
    }

    /// Appoints an operator.
    pub fn set_operator(&mut self, admin: &Address, operator: &Address) -> (r: Result<(), Error>)
        ensures
            ends(
                r,
                old(self)@,
                final(self)@,
                operator_set_refusal(old(self)@, *admin, *operator),
                (),
                operator_set(old(self)@, *admin, *operator),
            ),
            r is Ok ==> final(self)@.config.operator == Some(*operator),
    {
        let refusal = self.check_admin(admin);
        self.events.clear();
        match refusal {
            Some(e) => {
                return Err(e);
            },
            None => {},
        }
        if operator.same(&vault_address()) {
            return Err(Error::InvalidInput);
        }
        if self.is_cooling_down(ConfigKey::Operator) {
            return Err(Error::CooldownActive);
        }
        let now: u64 = self.ledger.timestamp;
        self.config.operator = Some(*operator);
        self.cooldowns.insert(ConfigKey::Operator, now);
        self.events.push(
            Event::OperatorSet { admin: *admin, operator: *operator, timestamp: now },
        );
        assert(self@ =~= operator_set(old(self)@, *admin, *operator));
        Ok(())
    }

    /// Dismisses the operator, if there is one.
    pub fn remove_operator(&mut self, admin: &Address) -> (r: Result<(), Error>)
        ensures
            ends(
                r,
                old(self)@,
                final(self)@,
                setting_refusal(old(self)@, *admin, ConfigKey::Operator),
                (),
                operator_removed(old(self)@, *admin),
            ),
            r is Ok ==> final(self)@.config.operator is None,
    {
        let refusal = self.check_setting(admin, ConfigKey::Operator);
        self.events.clear();
        match refusal {
            Some(e) => {
                return Err(e);
            },
            None => {},
        }
        if self.config.operator.is_none() {
            return Ok(());
        }
        let now: u64 = self.ledger.timestamp;
        let since: u64 = match self.cooldowns.get(&ConfigKey::Operator) {
            Some(t) => *t,
            None => now,
        };
        self.config.operator = None;
        self.cooldowns.insert(ConfigKey::Operator, now);
        self.events.push(Event::OperatorRemoved { admin: *admin, timestamp: since });
        assert(self@ =~= operator_removed(old(self)@, *admin));
        Ok(())
    }

    /// Why a call that only the operator may make is refused.
    pub(crate) fn check_operator(&self, operator: &Address) -> (r: Option<Error>)
        ensures
            r == operator_refusal(self@, *operator),
    {
        if !names(&self.config.operator, operator) {
            return Some(Error::Unauthorized);
        }
        if !self.has_authorized(operator) {
            return Some(Error::AuthRequired);
        }
        None
    }

    /// Settles what becomes of the balance of a cancelled subscription: it is retained, held in
    /// escrow or paid back.
    pub fn set_cancellation_policy(&mut self, admin: &Address, policy: CancellationPolicy) -> (r: Result<
        (),
        Error,
    >)
        ensures
            ends(
                r,
                old(self)@,
                final(self)@,
                old(self)@.admin_refusal(*admin),
                (),
                cancellation_set(old(self)@, policy),
            ),
    {
        let refusal = self.check_admin(admin);
        self.events.clear();
        match refusal {
            Some(e) => Err(e),
            None => {
                self.config.cancellation = policy;
                Ok(())
            },
        }
    }

    /// Sets the shortest time between the submission of a proposal and its execution.
    pub fn set_min_timelock_delay(&mut self, admin: &Address, delay: u64) -> (r: Result<(), Error>)
        ensures
            ends(
                r,
                old(self)@,
                final(self)@,
                old(self)@.admin_refusal(*admin),
                (),
                timelock_set(old(self)@, delay),
            ),
    {
        let refusal = self.check_admin(admin);
        self.events.clear();
        match refusal {
            Some(e) => Err(e),
            None => {
                self.config.min_timelock_delay = delay;
                Ok(())
            },
        }
    }

    /// Lets subscriptions use one more token.
    pub fn add_accepted_token(&mut self, admin: &Address, token: &Address, decimals: u32) -> (r: Result<
        (),
        Error,
    >)
        ensures
            ends(
                r,
                old(self)@,
                final(self)@,
                accept_token_refusal(old(self)@, *admin, *token),
                (),
                token_accepted(old(self)@, *token, decimals),
            ),
    {
        let refusal = self.check_setting(admin, ConfigKey::AcceptedTokens);
        let known = self.token_decimals(token).is_some();
        self.events.clear();
        match refusal {
            Some(e) => {
                return Err(e);
            },
            None => {},
        }
        if known {
            return Err(Error::InvalidInput);
        }
        let now: u64 = self.ledger.timestamp;
        self.accepted_tokens.push((*token, decimals));
        self.cooldowns.insert(ConfigKey::AcceptedTokens, now);
        Ok(())
    }

    /// Sets the protocol fee and who receives it.
    pub fn set_protocol_fee(&mut self, admin: &Address, treasury: &Address, bps: u32) -> (r: Result<
        (),
        Error,
    >)
        ensures
            ends(
                r,
                old(self)@,
                final(self)@,
                fee_refusal(old(self)@, *admin, bps),
                (),
                fee_set(old(self)@, *treasury, bps),
            ),
            r is Ok ==> final(self)@.config.treasury == *treasury,
            r is Ok ==> final(self)@.config.protocol_fee_bps == bps,
    {
        let refusal = self.check_admin(admin);
        self.events.clear();
        match refusal {
            Some(e) => {
                return Err(e);
            },
            None => {},
        }
        if bps > MAX_PROTOCOL_FEE_BIPS {
            return Err(Error::InvalidFeeBips);
        }
        self.config.treasury = *treasury;
        self.config.protocol_fee_bps = bps;
        Ok(())
    }

    /// Gives a merchant a fee of its own, at most the protocol's.
    pub fn set_merchant_fee_override(&mut self, admin: &Address, merchant: &Address, bps: u32) -> (r: Result<
        (),
        Error,
    >)
        ensures
            ends(
                r,
                old(self)@,
                final(self)@,
                override_refusal(old(self)@, *admin, bps),
                (),
                override_set(old(self)@, *merchant, bps),
            ),
    {
        let refusal = self.check_admin(admin);
        self.events.clear();
        match refusal {
            Some(e) => {
                return Err(e);
            },
            None => {},
        }
        if bps > MAX_FEE_BIPS || bps > self.config.protocol_fee_bps {
            return Err(Error::InvalidFeeBips);
        }
        self.fee_overrides.insert(*merchant, bps);
        Ok(())
    }

    /// Drops a merchant's own fee, if there is one.
    pub fn clear_merchant_fee_override(&mut self, admin: &Address, merchant: &Address) -> (r: Result<
        (),
        Error,
    >)
        ensures
            ends(
                r,
                old(self)@,
                final(self)@,
                old(self)@.admin_refusal(*admin),
                (),
                override_cleared(old(self)@, *merchant),
            ),
    {
        let refusal = self.check_admin(admin);
        self.events.clear();
        match refusal {
            Some(e) => Err(e),
            None => {
                self.fee_overrides.remove(merchant);
                Ok(())
            },
        }
    }

    /// A merchant's own fee, if there is one.
    pub fn get_merchant_fee_override(&self, merchant: &Address) -> (r: Option<u32>)
        ensures
            r == (if self@.fee_overrides.dom().contains(*merchant) {
                Some(self@.fee_overrides[*merchant])
            } else {
                None
            }),
    {
        match self.fee_overrides.get(merchant) {
            Some(b) => Some(*b),
            None => None,
        }
    }

    /// Configures the price feed.
    pub fn set_oracle_config(
        &mut self,
        admin: &Address,
        enabled: bool,
        oracle: Option<Address>,
        max_age_seconds: u64,
    ) -> (r: Result<(), Error>)
        ensures
            ends(
                r,
                old(self)@,
                final(self)@,
                setting_refusal(old(self)@, *admin, ConfigKey::OracleConfig),
                (),
                oracle_set(old(self)@, OracleFeed { enabled, oracle, max_age_seconds }),
            ),
    {
        let refusal = self.check_setting(admin, ConfigKey::OracleConfig);
        self.events.clear();
        match refusal {
            Some(e) => {
                return Err(e);
            },
            None => {},
        }
        let now: u64 = self.ledger.timestamp;
        self.config.oracle = OracleFeed { enabled, oracle, max_age_seconds };
        self.cooldowns.insert(ConfigKey::OracleConfig, now);
        Ok(())
    }

    /// The configuration of the price feed.
    pub fn get_oracle_config(&self) -> (feed: OracleFeed)
        ensures
            feed == self@.config.oracle,
    {
        self.config.oracle
    }

    /// Reports the liveness of the price feed. Anyone may ask for it.
    pub fn emit_oracle_liveness(&mut self) -> (r: Result<OracleLivenessEvent, Error>)
        ensures
            ends(
                r,
                old(self)@,
                final(self)@,
                liveness_refusal(old(self)@),
                liveness(old(self)@),
                liveness_reported(old(self)@),
            ),
    {
        self.events.clear();
        let feed = self.config.oracle;
        if !feed.enabled || feed.oracle.is_none() || feed.max_age_seconds == 0 {
            return Err(Error::OracleNotConfigured);
        }
        let now: u64 = self.ledger.timestamp;
        let sampled: u64 = now.saturating_sub(SAMPLE_AGE_SECS);
        let age: u64 = now - sampled;
        let healthy = age <= feed.max_age_seconds / 2;
        self.events.push(
            Event::OracleLiveness { last_sample_ts: sampled, age, healthy, timestamp: now },
        );
        assert(self@ =~= liveness_reported(old(self)@));
        Ok(OracleLivenessEvent { last_sample_ts: sampled, age, healthy, timestamp: now })
    }
}

} // verus!
