//! The plain values that the vault works with: addresses, errors, records.
use vstd::prelude::*;

verus! {

/// A value that can index a [`crate::table::Table`]: it can be compared by what it stands for.
pub trait Key: View + Sized {
    /// Whether two keys stand for the same value.
    fn same(&self, other: &Self) -> (b: bool)
        ensures
            b == (self@ == other@),
    ;
}

impl Key for u32 {
    fn same(&self, other: &Self) -> (b: bool) {
        *self == *other
    }
}

impl Key for u64 {
    fn same(&self, other: &Self) -> (b: bool) {
        *self == *other
    }
}

impl Key for Vec<u8> {
    fn same(&self, other: &Self) -> (b: bool) {
        crate::encoding::bytes_equal(self.as_slice(), other.as_slice())
    }
}

impl<A: Key, B: Key> Key for (A, B) {
    fn same(&self, other: &Self) -> (b: bool) {
        self.0.same(&other.0) && self.1.same(&other.1)
    }
}

impl<A: Key, B: Key, C: Key> Key for (A, B, C) {
    fn same(&self, other: &Self) -> (b: bool) {
        self.0.same(&other.0) && self.1.same(&other.1) && self.2.same(&other.2)
    }
}

/// Thirty-two raw bytes: a public key, a hash, an idempotency key.
#[derive(Clone, Copy, Debug, PartialEq, Eq)]
pub struct Bytes32 {
    pub bytes: [u8; 32],
}

impl View for Bytes32 {
    type V = Seq<u8>;

    open spec fn view(&self) -> Seq<u8> {
        self.bytes@
    }
}

/// Thirty-two bytes are determined by what they hold.
pub broadcast proof fn lemma_bytes32_view(a: Bytes32, b: Bytes32)
    requires
        #[trigger] a@ == #[trigger] b@,
    ensures
        a == b,
{
    assert(a.bytes =~= b.bytes) by {
        assert forall|i: int| 0 <= i < 32 implies a.bytes[i] == b.bytes[i] by {
            assert(a@[i] == b@[i]);
        }
    }
}

impl Key for Bytes32 {
    fn same(&self, other: &Self) -> (b: bool) {
        let mut i: usize = 0;
        while i < 32
            invariant
                i <= 32,
                forall|j: int| 0 <= j < i ==> self.bytes[j] == other.bytes[j],
            decreases 32 - i,
        {
            if self.bytes[i] != other.bytes[i] {
                assert(self@[i as int] != other@[i as int]);
                return false;
            }
            i += 1;
        }
        assert(self@ =~= other@);
        true
    }
}

/// Who takes part: an account named by its public key, or a contract.
#[derive(Clone, Copy, Debug, PartialEq, Eq)]
pub enum Address {
    Account(Bytes32),
    Contract(u64),
}

impl View for Address {
    type V = Address;

    open spec fn view(&self) -> Address {
        *self
    }
}

impl Key for Address {
    fn same(&self, other: &Self) -> (b: bool) {
        broadcast use lemma_bytes32_view;

        match (self, other) {
            (Address::Account(a), Address::Account(b)) => a.same(b),
            (Address::Contract(a), Address::Contract(b)) => *a == *b,
            _ => false,
        }
    }
}

/// The address under which the vault itself holds tokens.
pub open spec fn vault() -> Address {
    Address::Contract(0)
}

/// The address under which the vault itself holds tokens.
pub fn vault_address() -> (a: Address)
    ensures
        a == vault(),
{
    Address::Contract(0)
}

/// Whether an optional address is present and equal to `who`.
pub fn names(slot: &Option<Address>, who: &Address) -> (b: bool)
    ensures
        b == (*slot == Some(*who)),
{
    match slot {
        Some(a) => a.same(who),
        None => false,
    }
}

/// A short label of at most 32 bytes, padded with zero bytes.
#[derive(Clone, Copy, Debug, PartialEq, Eq)]
pub struct Symbol {
    pub text: Bytes32,
}

/// `text` followed by zero bytes up to 32 bytes.
pub open spec fn padded32(text: Seq<u8>) -> Seq<u8> {
    Seq::new(
        32,
        |i: int|
            if i < text.len() {
                text[i]
            } else {
                0u8
            },
    )
}

impl Symbol {
    /// The label with the given text.
    pub fn new(text: &[u8]) -> (s: Symbol)
        requires
            text@.len() <= 32,
        ensures
            s.text@ == padded32(text@),
    {
        Symbol { text: bytes32(text) }
    }

    /// The empty label has no text at all.
    pub open spec fn is_blank(self) -> bool {
        forall|i: int| 0 <= i < 32 ==> self.text@[i] == 0
    }

    /// Whether the label has no text.
    pub fn is_empty(&self) -> (b: bool)
        ensures
            b == self.is_blank(),
    {
        let mut i: usize = 0;
        while i < 32
            invariant
                i <= 32,
                forall|j: int| 0 <= j < i ==> self.text@[j] == 0,
            decreases 32 - i,
        {
            if self.text.bytes[i] != 0 {
                assert(self.text@[i as int] != 0);
                return false;
            }
            i += 1;
        }
        true
    }
}

impl View for Symbol {
    type V = Symbol;

    open spec fn view(&self) -> Symbol {
        *self
    }
}

impl Key for Symbol {
    fn same(&self, other: &Self) -> (b: bool) {
        broadcast use lemma_bytes32_view;

        self.text.same(&other.text)
    }
}

/// The first 32 bytes of `src`, followed by zero bytes where `src` is shorter.
pub fn bytes32(src: &[u8]) -> (b: Bytes32)
    ensures
        b@ == padded32(src@),
{
    let mut bytes: [u8; 32] = [0u8;32];
    let mut i: usize = 0;
    while i < 32 && i < src.len()
        invariant
            i <= 32,
            i <= src@.len(),
            bytes@.len() == 32,
            forall|j: int| 0 <= j < i ==> bytes@[j] == src@[j],
            forall|j: int| i <= j < 32 ==> bytes@[j] == 0,
        decreases 32 - i,
    {
        bytes[i] = src[i];
        i += 1;
    }
    let out = Bytes32 { bytes };
    assert(out@ =~= padded32(src@));
    out
}

/// Everything that a call can refuse with.
#[derive(Clone, Copy, Debug, PartialEq, Eq, Structural)]
pub enum Error {
    Unauthorized,
    Forbidden,
    AuthRequired,
    SubscriberBlocklisted,
    SelfRotation,
    InvalidNewAdmin,
    InvalidSignature,
    NotFound,
    EscrowNotFound,
    DisputeNotFound,
    DelegatedPayerGrantNotFound,
    TransferIntentNotFound,
    OracleNotConfigured,
    InvalidAmount,
    InvalidInput,
    InvalidExpiration,
    BelowMinimumTopup,
    BatchTooLarge,
    InvalidTransferTarget,
    MetadataKeyTooLong,
    MetadataValueTooLong,
    MetadataKeyLimitReached,
    InvalidRecoveryAmount,
    TokenNotAccepted,
    NotActive,
    InvalidStatusTransition,
    SubscriptionExpired,
    IntervalNotElapsed,
    Replay,
    NonceAlreadyUsed,
    EmergencyStopActive,
    MerchantPaused,
    VacationActive,
    CooldownActive,
    NotInGracePeriod,
    RenewalWindowClosed,
    AlreadyInitialized,
    EscrowNotReleased,
    DisputeAlreadyOpen,
    DisputeAlreadyResponded,
    DisputeNotResponded,
    DisputeAlreadyResolved,
    DelegatedPayerGrantExpired,
    TransferIntentExpired,
    Reentrancy,
    UsageNotEnabled,
    QuorumNotReached,
    InsufficientBalance,
    TokenBalance,
    Overflow,
    Underflow,
    CreditLimitExceeded,
    LifetimeCapReached,
    DelegatedPayerAmountExceeded,
    InvalidFeeBips,
    InvalidOperations,
    MustAllowChargeOperation,
    OraclePriceStale,
    OraclePriceInvalid,
}

/// The number under which an error is reported.
pub open spec fn code_of(e: Error) -> u32 {
    match e {
        Error::Unauthorized => 1001,
        Error::Forbidden => 1002,
        Error::AuthRequired => 1003,
        Error::SubscriberBlocklisted => 1004,
        Error::SelfRotation => 1005,
        Error::InvalidNewAdmin => 1006,
        Error::InvalidSignature => 1007,
        Error::NotFound => 2001,
        Error::EscrowNotFound => 2002,
        Error::DisputeNotFound => 2003,
        Error::DelegatedPayerGrantNotFound => 2004,
        Error::TransferIntentNotFound => 2005,
        Error::OracleNotConfigured => 2006,
        Error::InvalidAmount => 3001,
        Error::InvalidInput => 3002,
        Error::InvalidExpiration => 3003,
        Error::BelowMinimumTopup => 3004,
        Error::BatchTooLarge => 3005,
        Error::InvalidTransferTarget => 3006,
        Error::MetadataKeyTooLong => 3007,
        Error::MetadataValueTooLong => 3008,
        Error::MetadataKeyLimitReached => 3009,
        Error::InvalidRecoveryAmount => 3010,
        Error::TokenNotAccepted => 3011,
        Error::NotActive => 4001,
        Error::InvalidStatusTransition => 4002,
        Error::SubscriptionExpired => 4003,
        Error::IntervalNotElapsed => 4004,
        Error::Replay => 4005,
        Error::NonceAlreadyUsed => 4006,
        Error::EmergencyStopActive => 4007,
        Error::MerchantPaused => 4008,
        Error::VacationActive => 4009,
        Error::CooldownActive => 4010,
        Error::NotInGracePeriod => 4011,
        Error::RenewalWindowClosed => 4012,
        Error::AlreadyInitialized => 4013,
        Error::EscrowNotReleased => 4014,
        Error::DisputeAlreadyOpen => 4015,
        Error::DisputeAlreadyResponded => 4016,
        Error::DisputeNotResponded => 4017,
        Error::DisputeAlreadyResolved => 4018,
        Error::DelegatedPayerGrantExpired => 4019,
        Error::TransferIntentExpired => 4020,
        Error::Reentrancy => 4021,
        Error::UsageNotEnabled => 4022,
        Error::QuorumNotReached => 4023,
        Error::InsufficientBalance => 5001,
        Error::TokenBalance => 5002,
        Error::Overflow => 5003,
        Error::Underflow => 5004,
        Error::CreditLimitExceeded => 6001,
        Error::LifetimeCapReached => 6002,
        Error::DelegatedPayerAmountExceeded => 6003,
        Error::InvalidFeeBips => 7001,
        Error::InvalidOperations => 7002,
        Error::MustAllowChargeOperation => 7003,
        Error::OraclePriceStale => 8001,
        Error::OraclePriceInvalid => 8002,
    }
}

impl Error {
    /// The number under which the error is reported.
    pub fn to_code(&self) -> (code: u32)
        ensures
            code == code_of(*self),
    {
        match self {
            Error::Unauthorized => 1001,
            Error::Forbidden => 1002,
            Error::AuthRequired => 1003,
            Error::SubscriberBlocklisted => 1004,
            Error::SelfRotation => 1005,
            Error::InvalidNewAdmin => 1006,
            Error::InvalidSignature => 1007,
            Error::NotFound => 2001,
            Error::EscrowNotFound => 2002,
            Error::DisputeNotFound => 2003,
            Error::DelegatedPayerGrantNotFound => 2004,
            Error::TransferIntentNotFound => 2005,
            Error::OracleNotConfigured => 2006,
            Error::InvalidAmount => 3001,
            Error::InvalidInput => 3002,
            Error::InvalidExpiration => 3003,
            Error::BelowMinimumTopup => 3004,
            Error::BatchTooLarge => 3005,
            Error::InvalidTransferTarget => 3006,
            Error::MetadataKeyTooLong => 3007,
            Error::MetadataValueTooLong => 3008,
            Error::MetadataKeyLimitReached => 3009,
            Error::InvalidRecoveryAmount => 3010,
            Error::TokenNotAccepted => 3011,
            Error::NotActive => 4001,
            Error::InvalidStatusTransition => 4002,
            Error::SubscriptionExpired => 4003,
            Error::IntervalNotElapsed => 4004,
            Error::Replay => 4005,
            Error::NonceAlreadyUsed => 4006,
            Error::EmergencyStopActive => 4007,
            Error::MerchantPaused => 4008,
            Error::VacationActive => 4009,
            Error::CooldownActive => 4010,
            Error::NotInGracePeriod => 4011,
            Error::RenewalWindowClosed => 4012,
            Error::AlreadyInitialized => 4013,
            Error::EscrowNotReleased => 4014,
            Error::DisputeAlreadyOpen => 4015,
            Error::DisputeAlreadyResponded => 4016,
            Error::DisputeNotResponded => 4017,
            Error::DisputeAlreadyResolved => 4018,
            Error::DelegatedPayerGrantExpired => 4019,
            Error::TransferIntentExpired => 4020,
            Error::Reentrancy => 4021,
            Error::UsageNotEnabled => 4022,
            Error::QuorumNotReached => 4023,
            Error::InsufficientBalance => 5001,
            Error::TokenBalance => 5002,
            Error::Overflow => 5003,
            Error::Underflow => 5004,
            Error::CreditLimitExceeded => 6001,
            Error::LifetimeCapReached => 6002,
            Error::DelegatedPayerAmountExceeded => 6003,
            Error::InvalidFeeBips => 7001,
            Error::InvalidOperations => 7002,
            Error::MustAllowChargeOperation => 7003,
            Error::OraclePriceStale => 8001,
            Error::OraclePriceInvalid => 8002,
        }
    }
}

/// Two errors that report the same number are the same error.
pub proof fn law_error_codes_distinct(a: Error, b: Error)
    requires
        code_of(a) == code_of(b),
    ensures
        a == b,
{
}

} // verus!
