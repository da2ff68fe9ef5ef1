//! A token that tries to call back into the vault while the vault is paying with it.
use crate::deposits::{deposit_done, deposit_funds_refusal};
use crate::merchants::{
    lemma_same_authorization, merchant_withdraw_refusal, merchant_withdrawn,
};
use crate::table::Table;
use crate::types::{vault, vault_address, Address, Error, Key};
use crate::vault::Vault;
use vstd::prelude::*;

verus! {

/// A token whose transfers to a vault set off a call back into that vault.
pub struct MaliciousToken {
    pub vault_contract: Address,
    pub balances: Table<Address, i128>,
    pub reentry_attempted: bool,
}

/// What a malicious token holds on record.
#[verifier::ext_equal]
pub struct MaliciousState {
    pub vault_contract: Address,
    pub balances: Map<Address, i128>,
    pub reentry_attempted: bool,
}

impl View for MaliciousToken {
    type V = MaliciousState;

    open spec fn view(&self) -> MaliciousState {
        MaliciousState {
            vault_contract: self.vault_contract,
            balances: self.balances@,
            reentry_attempted: self.reentry_attempted,
        }
    }
}

impl MaliciousState {
    /// What an address holds.
    pub open spec fn held(self, who: Address) -> i128 {
        if self.balances.dom().contains(who) {
            self.balances[who]
        } else {
            0
        }
    }

    /// The record after a transfer. Both balances are read before either is written, so a transfer
    /// to oneself adds to what one holds.
    pub open spec fn transferred(self, from: Address, to: Address, amount: i128) -> MaliciousState {
        MaliciousState {
            balances: self.balances.insert(from, (self.held(from) - amount) as i128).insert(
                to,
                (self.held(to) + amount) as i128,
            ),
            reentry_attempted: self.reentry_attempted || to == self.vault_contract,
            ..self
        }
    }
}

impl MaliciousToken {
    /// A token that nobody holds, aimed at a vault.
    pub fn init(vault_contract: Address) -> (t: MaliciousToken)
        ensures
            t@ == (MaliciousState {
                vault_contract,
                balances: Map::empty(),
                reentry_attempted: false,
            }),
    {
        MaliciousToken { vault_contract, balances: Table::new(), reentry_attempted: false }
    }

    /// What an address holds.
    pub fn balance(&self, addr: &Address) -> (b: i128)
        ensures
            b == self@.held(*addr),
    {
        match self.balances.get(addr) {
            Some(b) => *b,
            None => 0,
        }
    }

    /// Gives new tokens to an address.
    pub fn mint(&mut self, to: &Address, amount: i128)
        requires
            i128::MIN <= old(self)@.held(*to) + amount <= i128::MAX,
        ensures
            final(self)@ == (MaliciousState {
                balances: old(self)@.balances.insert(*to, (old(self)@.held(*to) + amount) as i128),
                ..old(self)@
            }),
    {
        let balance: i128 = self.balance(to);
        self.balances.insert(*to, balance + amount);
    }

    /// Moves tokens at the word of their holder. A transfer to the vault is noted as an occasion to
    /// call back into it.
    pub fn transfer(&mut self, host: &Vault, from: &Address, to: &Address, amount: i128)
        requires
            host@.authorized(*from),
            i128::MIN <= old(self)@.held(*from) - amount <= i128::MAX,
            i128::MIN <= old(self)@.held(*to) + amount <= i128::MAX,
        ensures
            final(self)@ == old(self)@.transferred(*from, *to, amount),
    {
        let from_balance: i128 = self.balance(from);
        let to_balance: i128 = self.balance(to);
        self.balances.insert(*from, from_balance - amount);
        self.balances.insert(*to, to_balance + amount);
        if to.same(&self.vault_contract) {
            self.reentry_attempted = true;
        }
    }
}

/// Makes a deposit in a token that calls back: while the vault waits, locked, for the transfer, the
/// token asks it for the same deposit once more. Returns what came of the deposit, and of the call
/// back if there was one.
pub fn deposit_with_callback(host: &mut Vault, token: &mut MaliciousToken, id: u32, amount: i128) -> (r: (
    Result<(), Error>,
    Option<Result<(), Error>>,
))
    requires
        old(host)@.subscriptions.dom().contains(id) ==> {
            let payer = old(host)@.subscriptions[id].subscriber;
            &&& i128::MIN <= old(token)@.held(payer) - amount <= i128::MAX
            &&& i128::MIN <= old(token)@.held(vault()) + amount <= i128::MAX
        },
    ensures
        ({
            let s = old(host)@;
            match deposit_funds_refusal(s, id, amount, None) {
                Some(e) => {
                    &&& r == (Err::<(), Error>(e), None::<Result<(), Error>>)
                    &&& final(host)@ == s.quiet()
                    &&& final(token)@ == old(token)@
                },
                None => {
                    let payer = s.subscriptions[id].subscriber;
                    let done = deposit_done(s, payer, id, amount, None);
                    let calls = old(token)@.reentry_attempted || old(token)@.vault_contract
                        == vault();
                    &&& r.0 == Ok::<(), Error>(())
                    &&& r.1 == (if calls {
                        Some(Err::<(), Error>(Error::Reentrancy))
                    } else {
                        None
                    })
                    &&& final(host)@ == (if calls {
                        done.quiet()
                    } else {
                        done
                    })
                    &&& final(token)@ == old(token)@.transferred(payer, vault(), amount)
                },
            }
        }),
{
    let payer = match host.get_subscription(id) {
        Ok(sub) => sub.subscriber,
        Err(_) => vault_address(),
    };
    let payment = match host.begin_deposit_funds(id, amount, None) {
        Err(e) => {
            return (Err(e), None);
        },
        Ok(p) => p,
    };
    token.transfer(host, &payer, &vault_address(), amount);
    let callback = if token.reentry_attempted {
        Some(host.deposit_funds(id, amount, None))
    } else {
        None
    };
    host.finish_payment(&payment);
    assert(host@ =~= deposit_done(old(host)@, payer, id, amount, None) || host@ =~= deposit_done(
        old(host)@,
        payer,
        id,
        amount,
        None,
    ).quiet());
    (Ok(()), callback)
}

/// Makes a merchant's withdrawal in a token that calls back: while the vault waits, locked, for the
/// transfer, the token asks it for the same withdrawal once more. Returns what came of the
/// withdrawal, and of the call back if there was one.
pub fn withdraw_with_callback(
    host: &mut Vault,
    token: &mut MaliciousToken,
    merchant: &Address,
    amount: i128,
) -> (r: (Result<(), Error>, Option<Result<(), Error>>))
    requires
        old(host)@.authorized(vault()),
        i128::MIN <= old(token)@.held(vault()) - amount <= i128::MAX,
        i128::MIN <= old(token)@.held(*merchant) + amount <= i128::MAX,
    ensures
        ({
            let s = old(host)@;
            match merchant_withdraw_refusal(s, *merchant, s.config.token, amount) {
                Some(e) => {
                    &&& r == (Err::<(), Error>(e), None::<Result<(), Error>>)
                    &&& final(host)@ == s.quiet()
                    &&& final(token)@ == old(token)@
                },
                None => {
                    &&& r.0 == Ok::<(), Error>(())
                    &&& r.1 == Some(Err::<(), Error>(Error::Reentrancy))
                    &&& final(host)@ == merchant_withdrawn(
                        s,
                        *merchant,
                        s.config.token,
                        amount,
                    ).quiet()
                    &&& final(token)@ == old(token)@.transferred(vault(), *merchant, amount)
                },
            }
        }),
{
    let default_token = host.config.token;
    let payment = match host.begin_merchant_withdrawal(merchant, &default_token, amount) {
        Err(e) => {
            return (Err(e), None);
        },
        Ok(p) => p,
    };
    let ghost waiting = host@;
    proof {
        lemma_same_authorization(old(host)@, waiting, *merchant);
    }
    token.transfer(host, &vault_address(), merchant, amount);
    let callback = host.withdraw_merchant_funds(merchant, amount);
    host.finish_payment(&payment);
    assert(host@ =~= merchant_withdrawn(
        old(host)@,
        *merchant,
        default_token,
        amount,
    ).quiet());
    (Ok(()), Some(callback))
}

} // verus!
