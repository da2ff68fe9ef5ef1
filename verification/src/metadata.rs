//! Metadata of subscriptions, set by a party in a call or by a party's signature.
use crate::crypto::{
    ed25519_signature, ed25519_verifies, has_neutral_point, verify_signature, KeyMaterial,
};
use crate::encoding::{
    be32, be64, copy_bytes, lemma_be32_injective, lemma_be64_injective, push_be32, push_be64,
    push_bytes,
};
use crate::events::Event;
use crate::lifecycle::party_refusal;
use crate::nonce::{
    check_and_advance, domain_number, get_nonce, next_nonce, nonce_consumed, nonce_refusal,
    DOMAIN_METADATA_SIGNED,
};
use crate::totals::{lemma_listed_total, listed_total, total};
use crate::types::{Address, Bytes32, Error};
use crate::vault::{ends, State, Vault};
use vstd::prelude::*;

verus! {

/// How many keys a subscription may have.
pub const MAX_METADATA_KEYS: u32 = 10;

/// How long a key may be.
pub const MAX_METADATA_KEY_LENGTH: u32 = 32;

/// How long a value may be.
pub const MAX_METADATA_VALUE_LENGTH: u32 = 256;

/// A metadata update that a party signs.
#[derive(Debug, PartialEq, Eq)]
pub struct SignedMetadataPayload {
    pub subscription_id: u32,
    pub key: Vec<u8>,
    pub value: Vec<u8>,
    pub nonce: u64,
    pub expires_at: u64,
}

/// What a signed update asks for.
#[verifier::ext_equal]
pub struct PayloadState {
    pub subscription_id: u32,
    pub key: Seq<u8>,
    pub value: Seq<u8>,
    pub nonce: u64,
    pub expires_at: u64,
}

impl View for SignedMetadataPayload {
    type V = PayloadState;

    open spec fn view(&self) -> PayloadState {
        PayloadState {
            subscription_id: self.subscription_id,
            key: self.key@,
            value: self.value@,
            nonce: self.nonce,
            expires_at: self.expires_at,
        }
    }
}

/// What every signed message begins with: `SBL_META_SIGNED_v1` and eight zero bytes.
pub open spec fn message_tag() -> Seq<u8> {
    seq![
        83u8, 66, 76, 95, 77, 69, 84, 65, 95, 83, 73, 71, 78, 69, 68, 95, 118, 49, 0, 0, 0, 0, 0, 0,
        0, 0,
    ]
}

/// A byte string with its length in front.
pub open spec fn framed(data: Seq<u8>) -> Seq<u8> {
    be32(data.len() as u32) + data
}

/// The message that is signed for an update on a chain.
pub open spec fn metadata_message(p: PayloadState, chain: Seq<u8>) -> Seq<u8> {
    message_tag() + message_body(p, chain)
}

/// What a message says of the update.
pub open spec fn message_body(p: PayloadState, chain: Seq<u8>) -> Seq<u8> {
    be32(p.subscription_id) + (framed(p.key) + (framed(p.value) + message_end(p, chain)))
}

/// What a message says of when and where the update counts.
pub open spec fn message_end(p: PayloadState, chain: Seq<u8>) -> Seq<u8> {
    be64(p.nonce) + (framed(chain) + be64(p.expires_at))
}

/// The message that is signed for an update on a chain.
pub fn build_metadata_signed_message(payload: &SignedMetadataPayload, chain: &[u8]) -> (message: Vec<
    u8,
>)
    requires
        payload@.key.len() <= u32::MAX,
        payload@.value.len() <= u32::MAX,
        chain@.len() <= u32::MAX,
    ensures
        message@ == metadata_message(payload@, chain@),
{
    let tag: [u8; 26] = [
        83u8, 66, 76, 95, 77, 69, 84, 65, 95, 83, 73, 71, 78, 69, 68, 95, 118, 49, 0, 0, 0, 0, 0, 0,
        0, 0,
    ];
    let mut message: Vec<u8> = Vec::new();
    push_bytes(&mut message, &tag);
    assert(message@ =~= message_tag());
    push_be32(&mut message, payload.subscription_id);
    push_be32(&mut message, payload.key.len() as u32);
    push_bytes(&mut message, payload.key.as_slice());
    push_be32(&mut message, payload.value.len() as u32);
    push_bytes(&mut message, payload.value.as_slice());
    push_be64(&mut message, payload.nonce);
    push_be32(&mut message, chain.len() as u32);
    push_bytes(&mut message, chain);
    push_be64(&mut message, payload.expires_at);
    assert(message@ =~= metadata_message(payload@, chain@));
    message
}

/// Different updates, or the same update on different chains, have different messages.
pub proof fn law_messages_distinct(
    p: PayloadState,
    chain: Seq<u8>,
    p2: PayloadState,
    chain2: Seq<u8>,
)
    requires
        p.key.len() <= u32::MAX,
        p.value.len() <= u32::MAX,
        chain.len() <= u32::MAX,
        p2.key.len() <= u32::MAX,
        p2.value.len() <= u32::MAX,
        chain2.len() <= u32::MAX,
        metadata_message(p, chain) == metadata_message(p2, chain2),
    ensures
        p == p2,
        chain == chain2,
{
    lemma_cut(message_tag(), message_body(p, chain), message_tag(), message_body(p2, chain2));
    lemma_bodies_distinct(p, chain, p2, chain2);
}

/// A message without what every message begins with says what was asked for.
proof fn lemma_bodies_distinct(
    p: PayloadState,
    chain: Seq<u8>,
    p2: PayloadState,
    chain2: Seq<u8>,
)
    requires
        p.key.len() <= u32::MAX,
        p.value.len() <= u32::MAX,
        chain.len() <= u32::MAX,
        p2.key.len() <= u32::MAX,
        p2.value.len() <= u32::MAX,
        chain2.len() <= u32::MAX,
        message_body(p, chain) == message_body(p2, chain2),
    ensures
        p == p2,
        chain == chain2,
{
    let rest = framed(p.value) + message_end(p, chain);
    let rest2 = framed(p2.value) + message_end(p2, chain2);
    lemma_cut32(p.subscription_id, framed(p.key) + rest, p2.subscription_id, framed(p2.key) + rest2);
    lemma_cut_framed(p.key, rest, p2.key, rest2);
    lemma_cut_framed(p.value, message_end(p, chain), p2.value, message_end(p2, chain2));
    lemma_ends_distinct(p, chain, p2, chain2);
    assert(p =~= p2);
}

/// The last part of a message says which nonce, chain and time it is for.
proof fn lemma_ends_distinct(p: PayloadState, chain: Seq<u8>, p2: PayloadState, chain2: Seq<u8>)
    requires
        chain.len() <= u32::MAX,
        chain2.len() <= u32::MAX,
        message_end(p, chain) == message_end(p2, chain2),
    ensures
        p.nonce == p2.nonce,
        chain == chain2,
        p.expires_at == p2.expires_at,
{
    let last = be64(p.expires_at);
    let last2 = be64(p2.expires_at);
    lemma_cut(be64(p.nonce), framed(chain) + last, be64(p2.nonce), framed(chain2) + last2);
    lemma_be64_injective(p.nonce, p2.nonce);
    lemma_cut_framed(chain, last, chain2, last2);
    lemma_be64_injective(p.expires_at, p2.expires_at);
}

/// Equal strings that begin with numbers begin with the same number.
proof fn lemma_cut32(n: u32, x: Seq<u8>, m: u32, y: Seq<u8>)
    requires
        be32(n) + x == be32(m) + y,
    ensures
        n == m,
        x == y,
{
    lemma_cut(be32(n), x, be32(m), y);
    lemma_be32_injective(n, m);
}

/// Equal strings whose first parts are equally long have equal parts.
proof fn lemma_cut(a: Seq<u8>, x: Seq<u8>, b: Seq<u8>, y: Seq<u8>)
    requires
        a + x == b + y,
        a.len() == b.len(),
    ensures
        a == b,
        x == y,
{
    assert((a + x).take(a.len() as int) =~= a);
    assert((b + y).take(a.len() as int) =~= b);
    assert((a + x).skip(a.len() as int) =~= x);
    assert((b + y).skip(a.len() as int) =~= y);
}

/// A length in front of a part says where it ends.
proof fn lemma_cut_framed(a: Seq<u8>, x: Seq<u8>, b: Seq<u8>, y: Seq<u8>)
    requires
        framed(a) + x == framed(b) + y,
        a.len() <= u32::MAX,
        b.len() <= u32::MAX,
    ensures
        a == b,
        x == y,
{
    assert(framed(a) + x =~= be32(a.len() as u32) + (a + x));
    assert(framed(b) + y =~= be32(b.len() as u32) + (b + y));
    lemma_cut32(a.len() as u32, a + x, b.len() as u32, b + y);
    lemma_cut(a, x, b, y);
}

/// The address of the account that a public key names.
pub fn pubkey_to_address(pubkey: &Bytes32) -> (a: Address)
    ensures
        a == Address::Account(*pubkey),
{
    Address::Account(*pubkey)
}

/// An update of the given contents.
pub fn payload_for(subscription_id: u32, key: &[u8], value: &[u8], nonce: u64, expires_at: u64) -> (p:
    SignedMetadataPayload)
    ensures
        p@ == (PayloadState { subscription_id, key: key@, value: value@, nonce, expires_at }),
{
    SignedMetadataPayload {
        subscription_id,
        key: copy_bytes(key),
        value: copy_bytes(value),
        nonce,
        expires_at,
    }
}

/// The signature of an update on a chain, and the message that was signed.
pub fn sign_payload(key: &KeyMaterial, payload: &SignedMetadataPayload, chain: &Bytes32) -> (r: (
    [u8; 64],
    Vec<u8>,
))
    requires
        payload@.key.len() <= u32::MAX,
        payload@.value.len() <= u32::MAX,
    ensures
        r.1@ == metadata_message(payload@, chain@),
        r.0@ == ed25519_signature(key.secret@, r.1@),
        key.matched() && !has_neutral_point(r.0@) ==> ed25519_verifies(
            key.pub_bytes@,
            metadata_message(payload@, chain@),
            r.0@,
        ),
{
    let message = build_metadata_signed_message(payload, &chain.bytes);
    (key.sign(message.as_slice()), message)
}

/// One for each key of a subscription.
pub open spec fn one_per_key(id: u32) -> spec_fn((u32, Seq<u8>), Seq<u8>) -> int {
    |k: (u32, Seq<u8>), v: Seq<u8>|
        if k.0 == id {
            1
        } else {
            0
        }
}

/// How many keys a subscription has.
pub open spec fn key_count(s: State, id: u32) -> int {
    total(s.metadata, one_per_key(id))
}

/// Why a key and a value cannot be stored.
pub open spec fn entry_refusal(s: State, id: u32, key: Seq<u8>, value: Seq<u8>) -> Option<Error> {
    if key.len() == 0 || value.len() == 0 {
        Some(Error::InvalidInput)
    } else if key.len() > MAX_METADATA_KEY_LENGTH {
        Some(Error::MetadataKeyTooLong)
    } else if value.len() > MAX_METADATA_VALUE_LENGTH {
        Some(Error::MetadataValueTooLong)
    } else {
        None
    }
}

/// Whether a subscription has no room for a new key.
pub open spec fn keys_full(s: State, id: u32, key: Seq<u8>) -> bool {
    !s.metadata.dom().contains((id, key)) && key_count(s, id) >= MAX_METADATA_KEYS
}

/// Why a party's metadata is not stored.
pub open spec fn set_refusal(
    s: State,
    id: u32,
    who: Address,
    key: Seq<u8>,
    value: Seq<u8>,
) -> Option<Error> {
    if party_refusal(s, id, who) is Some {
        party_refusal(s, id, who)
    } else if entry_refusal(s, id, key, value) is Some {
        entry_refusal(s, id, key, value)
    } else if keys_full(s, id, key) {
        Some(Error::MetadataKeyLimitReached)
    } else {
        None
    }
}

/// The state after a party's metadata was stored.
pub open spec fn metadata_set(
    s: State,
    id: u32,
    who: Address,
    key: Seq<u8>,
    value: Seq<u8>,
) -> State {
    State {
        metadata: s.metadata.insert((id, key), value),
        events: seq![Event::MetadataSet { subscription_id: id, by: who }],
        ..s
    }
}

/// Why a signed update is refused, given whether its signature verifies.
pub open spec fn signed_refusal(
    s: State,
    pubkey: Bytes32,
    p: PayloadState,
    verified: bool,
) -> Option<Error> {
    let id = p.subscription_id;
    let signer = Address::Account(pubkey);
    if !s.subscriptions.dom().contains(id) {
        Some(Error::NotFound)
    } else if p.expires_at <= s.ledger.timestamp {
        Some(Error::InvalidInput)
    } else if entry_refusal(s, id, p.key, p.value) is Some {
        entry_refusal(s, id, p.key, p.value)
    } else if !s.subscriptions[id].party(signer) {
        Some(Error::Forbidden)
    } else if !verified {
        Some(Error::InvalidSignature)
    } else if nonce_refusal(next_nonce(s.nonces, signer, DOMAIN_METADATA_SIGNED), p.nonce) is Some {
        nonce_refusal(next_nonce(s.nonces, signer, DOMAIN_METADATA_SIGNED), p.nonce)
    } else if keys_full(s, id, p.key) {
        Some(Error::MetadataKeyLimitReached)
    } else {
        None
    }
}

/// The state after a signed update was stored: its nonce is consumed.
pub open spec fn signed_set(s: State, pubkey: Bytes32, p: PayloadState) -> State {
    let signer = Address::Account(pubkey);
    State {
        metadata: s.metadata.insert((p.subscription_id, p.key), p.value),
        nonces: nonce_consumed(s.nonces, signer, DOMAIN_METADATA_SIGNED),
        events: seq![
            Event::NonceConsumed {
                signer,
                domain: domain_number(DOMAIN_METADATA_SIGNED),
                nonce: p.nonce,
            },
            Event::MetadataSetSigned {
                subscription_id: p.subscription_id,
                signer,
                nonce: p.nonce,
            },
        ],
        ..s
    }
}

/// What a party stores under a key is what is read back, and every other key of every subscription
/// reads as before.
pub proof fn law_metadata_reads_back(
    s: State,
    id: u32,
    who: Address,
    key: Seq<u8>,
    value: Seq<u8>,
    other: (u32, Seq<u8>),
)
    ensures
        ({
            let t = metadata_set(s, id, who, key, value);
            &&& t.metadata.dom().contains((id, key))
            &&& t.metadata[(id, key)] == value
            &&& other != (id, key) ==> t.metadata.dom().contains(other) == s.metadata.dom().contains(
                other,
            ) && t.metadata[other] == s.metadata[other]
        }),
{
}

/// A signed update that was stored is read back, and is not accepted a second time, by whomever it
/// is handed in.
pub proof fn law_signed_update_counts_once(s: State, pubkey: Bytes32, p: PayloadState, verified: bool)
    requires
        signed_refusal(s, pubkey, p, true) is None,
    ensures
        ({
            let t = signed_set(s, pubkey, p);
            &&& t.metadata.dom().contains((p.subscription_id, p.key))
            &&& t.metadata[(p.subscription_id, p.key)] == p.value
            &&& signed_refusal(t, pubkey, p, verified) == Some(
                if verified {
                    Error::NonceAlreadyUsed
                } else {
                    Error::InvalidSignature
                },
            )
        }),
{
}

fn check_entry(key: &[u8], value: &[u8]) -> (r: Option<Error>)
    ensures
        forall|s: State, id: u32| r == #[trigger] entry_refusal(s, id, key@, value@),
{
    if key.len() == 0 || value.len() == 0 {
        return Some(Error::InvalidInput);
    }
    if key.len() > MAX_METADATA_KEY_LENGTH as usize {
        return Some(Error::MetadataKeyTooLong);
    }
    if value.len() > MAX_METADATA_VALUE_LENGTH as usize {
        return Some(Error::MetadataValueTooLong);
    }
    None
}

impl Vault {
    /// How many keys a subscription has.
    pub fn get_metadata_key_count(&self, id: u32) -> (count: usize)
        ensures
            count == key_count(self@, id),
    {
        let n: usize = self.metadata.len();
        let ghost keys = self.metadata.keys();
        let ghost m = self@.metadata;
        let ghost f = one_per_key(id);
        let mut count: usize = 0;
        let mut i: usize = 0;
        while i < n
            invariant
                i <= n,
                n == keys.len(),
                keys == self.metadata.keys(),
                m == self@.metadata,
                f == one_per_key(id),
                count <= i,
                count == listed_total(m, keys, i as int, f),
            decreases n - i,
        {
            let (k, _) = self.metadata.at(i);
            assert(listed_total(m, keys, i + 1, f) == listed_total(m, keys, i as int, f) + f(
                keys[i as int],
                m[keys[i as int]],
            ));
            if k.0 == id {
                count += 1;
            }
            i += 1;
        }
        proof {
            lemma_listed_total(m, keys, f);
        }
        count
    }

    fn are_keys_full(&self, id: u32, key: &[u8]) -> (b: bool)
        ensures
            b == keys_full(self@, id, key@),
    {
        !self.metadata.contains(&(id, copy_bytes(key))) && self.get_metadata_key_count(id)
            >= MAX_METADATA_KEYS as usize
    }

    /// Stores metadata under a key, at a party's word.
    pub fn set_metadata(&mut self, id: u32, who: &Address, key: &[u8], value: &[u8]) -> (r: Result<
        (),
        Error,
    >)
        ensures
            ends(
                r,
                old(self)@,
                final(self)@,
                set_refusal(old(self)@, id, *who, key@, value@),
                (),
                metadata_set(old(self)@, id, *who, key@, value@),
            ),
    {
        let loaded = self.load_for(id, who);
        let full = self.are_keys_full(id, key);
        self.events.clear();
        match loaded {
            Err(e) => {
                return Err(e);
            },
            Ok(_) => {},
        }
        match check_entry(key, value) {
            Some(e) => {
                assert(entry_refusal(old(self)@, id, key@, value@) == Some(e));
                return Err(e);
            },
            None => {},
        }
        assert(entry_refusal(old(self)@, id, key@, value@) is None);
        if full {
            return Err(Error::MetadataKeyLimitReached);
        }
        self.metadata.insert((id, copy_bytes(key)), copy_bytes(value));
        self.events.push(Event::MetadataSet { subscription_id: id, by: *who });
        assert(self@ =~= metadata_set(old(self)@, id, *who, key@, value@));
        Ok(())
    }

    /// The metadata under a key.
    pub fn get_metadata(&self, id: u32, key: &[u8]) -> (r: Result<Vec<u8>, Error>)
        ensures
            match r {
                Ok(v) => self@.metadata.dom().contains((id, key@)) && v@ == self@.metadata[(
                    id,
                    key@,
                )],
                Err(e) => !self@.metadata.dom().contains((id, key@)) && e == Error::NotFound,
            },
    {
        match self.metadata.get(&(id, copy_bytes(key))) {
            Some(v) => Ok(copy_bytes(v.as_slice())),
            None => Err(Error::NotFound),
        }
    }

    /// The next nonce of a signer's signed updates.
    pub fn get_metadata_signed_nonce(&self, signer: &Address) -> (n: u64)
        ensures
            n == next_nonce(self@.nonces, *signer, DOMAIN_METADATA_SIGNED),
    {
        get_nonce(&self.nonces, signer, DOMAIN_METADATA_SIGNED)
    }

    /// Stores a signed update, given whether its signature verifies.
    pub fn apply_signed_metadata(
        &mut self,
        pubkey: &Bytes32,
        payload: &SignedMetadataPayload,
        verified: bool,
    ) -> (r: Result<(), Error>)
        ensures
            ends(
                r,
                old(self)@,
                final(self)@,
                signed_refusal(old(self)@, *pubkey, payload@, verified),
                (),
                signed_set(old(self)@, *pubkey, payload@),
            ),
    {
        let id: u32 = payload.subscription_id;
        let signer = pubkey_to_address(pubkey);
        let full = self.are_keys_full(id, payload.key.as_slice());
        self.events.clear();
        let sub = match self.subscriptions.get(&id) {
            Some(s) => *s,
            None => {
                return Err(Error::NotFound);
            },
        };
        if payload.expires_at <= self.ledger.timestamp {
            return Err(Error::InvalidInput);
        }
        match check_entry(payload.key.as_slice(), payload.value.as_slice()) {
            Some(e) => {
                assert(entry_refusal(old(self)@, id, payload@.key, payload@.value) == Some(e));
                return Err(e);
            },
            None => {},
        }
        assert(entry_refusal(old(self)@, id, payload@.key, payload@.value) is None);
        if !sub.is_party(&signer) {
            return Err(Error::Forbidden);
        }
        if !verified {
            return Err(Error::InvalidSignature);
        }
        let stored: u64 = get_nonce(&self.nonces, &signer, DOMAIN_METADATA_SIGNED);
        match crate::nonce::compute_next_nonce(stored, payload.nonce) {
            Err(e) => {
                return Err(e);
            },
            Ok(_) => {},
        }
        if full {
            return Err(Error::MetadataKeyLimitReached);
        }
        let _ = check_and_advance(&mut self.nonces, &signer, DOMAIN_METADATA_SIGNED, payload.nonce);
        self.metadata.insert(
            (id, copy_bytes(payload.key.as_slice())),
            copy_bytes(payload.value.as_slice()),
        );
        self.events.push(
            Event::NonceConsumed {
                signer,
                domain: DOMAIN_METADATA_SIGNED.as_u32(),
                nonce: payload.nonce,
            },
        );
        self.events.push(
            Event::MetadataSetSigned { subscription_id: id, signer, nonce: payload.nonce },
        );
        assert(self@ =~= signed_set(old(self)@, *pubkey, payload@));
        Ok(())
    }

    /// Stores an update that a party has signed for this chain.
    pub fn set_metadata_signed(
        &mut self,
        pubkey: &Bytes32,
        payload: &SignedMetadataPayload,
        signature: &[u8; 64],
    ) -> (r: Result<(), Error>)
        ensures
            ends(
                r,
                old(self)@,
                final(self)@,
                signed_refusal(
                    old(self)@,
                    *pubkey,
                    payload@,
                    ed25519_verifies(
                        pubkey@,
                        metadata_message(payload@, old(self)@.ledger.network_id@),
                        signature@,
                    ),
                ),
                (),
                signed_set(old(self)@, *pubkey, payload@),
            ),
    {
        if payload.key.len() > MAX_METADATA_KEY_LENGTH as usize || payload.value.len()
            > MAX_METADATA_VALUE_LENGTH as usize {
            // Refused before the signature matters.
            return self.apply_signed_metadata(pubkey, payload, false);
        }
        let message = build_metadata_signed_message(payload, &self.ledger.network_id.bytes);
        let verified = verify_signature(&pubkey.bytes, message.as_slice(), signature);
        self.apply_signed_metadata(pubkey, payload, verified)
    }
}

} // verus!
