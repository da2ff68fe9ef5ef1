//! Monotonic nonce counters, one per signer and domain.
use crate::table::Table;
use crate::types::{Address, Error};
use vstd::prelude::*;

verus! {

/// What kind of request a nonce counts. Counters of different domains are independent.
#[derive(Clone, Copy, Debug, PartialEq, Eq, Structural)]
pub enum NonceDomain {
    BatchCharge,
    AdminRotation,
    OperatorBatchCharge,
    MetadataSigned,
    ChargeInterval,
    DepositFunds,
    ChargeOneOff,
    MerchantRotation,
}

/// Nonces of the administrator's batch charges.
pub const DOMAIN_BATCH_CHARGE: NonceDomain = NonceDomain::BatchCharge;

/// Nonces of administrator rotations.
pub const DOMAIN_ADMIN_ROTATION: NonceDomain = NonceDomain::AdminRotation;

/// Nonces of the operator's batch charges and of bulk calls.
pub const DOMAIN_OPERATOR_BATCH_CHARGE: NonceDomain = NonceDomain::OperatorBatchCharge;

/// Nonces of signed metadata updates.
pub const DOMAIN_METADATA_SIGNED: NonceDomain = NonceDomain::MetadataSigned;

/// Nonces of interval charges.
pub const DOMAIN_CHARGE_INTERVAL: NonceDomain = NonceDomain::ChargeInterval;

/// Nonces of deposits.
pub const DOMAIN_DEPOSIT_FUNDS: NonceDomain = NonceDomain::DepositFunds;

/// Nonces of one-off charges.
pub const DOMAIN_CHARGE_ONEOFF: NonceDomain = NonceDomain::ChargeOneOff;

/// Nonces of merchant rotations.
pub const DOMAIN_MERCHANT_ROTATION: NonceDomain = NonceDomain::MerchantRotation;

/// The number of a domain.
pub open spec fn domain_number(d: NonceDomain) -> u32 {
    match d {
        NonceDomain::BatchCharge => 0,
        NonceDomain::AdminRotation => 1,
        NonceDomain::OperatorBatchCharge => 2,
        NonceDomain::MetadataSigned => 3,
        NonceDomain::ChargeInterval => 4,
        NonceDomain::DepositFunds => 5,
        NonceDomain::ChargeOneOff => 6,
        NonceDomain::MerchantRotation => 7,
    }
}

impl NonceDomain {
    /// The number of the domain.
    pub fn as_u32(&self) -> (n: u32)
        ensures
            n == domain_number(*self),
    {
        match self {
            NonceDomain::BatchCharge => 0,
            NonceDomain::AdminRotation => 1,
            NonceDomain::OperatorBatchCharge => 2,
            NonceDomain::MetadataSigned => 3,
            NonceDomain::ChargeInterval => 4,
            NonceDomain::DepositFunds => 5,
            NonceDomain::ChargeOneOff => 6,
            NonceDomain::MerchantRotation => 7,
        }
    }
}

/// All counters that differ from zero, by signer and domain number.
pub type NonceBook = Table<(Address, u32), u64>;

/// The nonce that `signer` must use next in `domain`.
pub open spec fn next_nonce(
    book: Map<(Address, u32), u64>,
    signer: Address,
    domain: NonceDomain,
) -> u64 {
    if book.dom().contains((signer, domain_number(domain))) {
        book[(signer, domain_number(domain))]
    } else {
        0
    }
}

/// Why `provided` cannot be consumed from a counter that stands at `stored`.
pub open spec fn nonce_refusal(stored: u64, provided: u64) -> Option<Error> {
    if provided != stored {
        Some(Error::NonceAlreadyUsed)
    } else if stored == u64::MAX {
        Some(Error::Overflow)
    } else {
        None
    }
}

/// The counters after `signer` has consumed a nonce of `domain`.
pub open spec fn nonce_consumed(
    book: Map<(Address, u32), u64>,
    signer: Address,
    domain: NonceDomain,
) -> Map<(Address, u32), u64> {
    book.insert(
        (signer, domain_number(domain)),
        (next_nonce(book, signer, domain) + 1) as u64,
    )
}

/// The value that a counter at `stored` moves to when `provided` is consumed.
pub fn compute_next_nonce(stored: u64, provided: u64) -> (r: Result<u64, Error>)
    ensures
        match nonce_refusal(stored, provided) {
            Some(e) => r == Err::<u64, Error>(e),
            None => r == Ok::<u64, Error>((stored + 1) as u64),
        },
{
    if provided != stored {
        return Err(Error::NonceAlreadyUsed);
    }
    match stored.checked_add(1) {
        Some(n) => Ok(n),
        None => Err(Error::Overflow),
    }
}

/// The nonce that `signer` must use next in `domain`: zero at first.
pub fn get_nonce(book: &NonceBook, signer: &Address, domain: NonceDomain) -> (n: u64)
    ensures
        n == next_nonce(book@, *signer, domain),
{
    match book.get(&(*signer, domain.as_u32())) {
        Some(n) => *n,
        None => 0,
    }
}

/// Consumes `provided` if it is the signer's next nonce in `domain`.
pub fn check_and_advance(
    book: &mut NonceBook,
    signer: &Address,
    domain: NonceDomain,
    provided: u64,
) -> (r: Result<(), Error>)
    ensures
        match nonce_refusal(next_nonce(old(book)@, *signer, domain), provided) {
            Some(e) => r == Err::<(), Error>(e) && final(book)@ == old(book)@,
            None => r == Ok::<(), Error>(()) && final(book)@ == nonce_consumed(
                old(book)@,
                *signer,
                domain,
            ),
        },
{
    let stored: u64 = get_nonce(book, signer, domain);
    match compute_next_nonce(stored, provided) {
        Ok(n) => {
            book.insert((*signer, domain.as_u32()), n);
            Ok(())
        },
        Err(e) => Err(e),
    }
}

/// Consuming a nonce moves the counter of that signer and domain, and no other.
pub proof fn law_nonce_isolation(
    book: Map<(Address, u32), u64>,
    signer: Address,
    domain: NonceDomain,
    other_signer: Address,
    other_domain: NonceDomain,
)
    requires
        signer != other_signer || domain != other_domain,
    ensures
        next_nonce(nonce_consumed(book, signer, domain), other_signer, other_domain)
            == next_nonce(book, other_signer, other_domain),
{
}

/// A nonce can be consumed once: right after, the same nonce is refused.
pub proof fn law_nonce_single_use(
    book: Map<(Address, u32), u64>,
    signer: Address,
    domain: NonceDomain,
    nonce: u64,
)
    requires
        nonce_refusal(next_nonce(book, signer, domain), nonce) is None,
    ensures
        next_nonce(nonce_consumed(book, signer, domain), signer, domain) == nonce + 1,
        nonce_refusal(
            next_nonce(nonce_consumed(book, signer, domain), signer, domain),
            nonce,
        ) == Some(Error::NonceAlreadyUsed),
{
}

} // verus!
