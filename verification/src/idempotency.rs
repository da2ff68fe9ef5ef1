//! Idempotency keys: a bounded memory, per subscription, of requests already served.
use crate::encoding::{be32, push_be32, push_bytes};
use crate::table::Table;
use crate::types::{lemma_bytes32_view, Bytes32, Key};
use vstd::prelude::*;

verus! {

/// How many keys are remembered per subscription.
pub const IDEM_HISTORY: u32 = 32;

/// Key domain of deposits.
pub const IDEM_DEPOSIT: u32 = 0;

/// Key domain of interval charges.
pub const IDEM_CHARGE: u32 = 1;

/// Key domain of one-off charges.
pub const IDEM_ONE_OFF: u32 = 2;

/// Key domain of grace-period buyouts.
pub const IDEM_BUYOUT: u32 = 3;

/// What SHA-256 makes of a byte string.
pub uninterp spec fn sha256_digest(data: Seq<u8>) -> Seq<u8>;

/// Calls `soroban_sdk::crypto::Crypto::sha256` in a fresh `Env`, whose budget bounds how much it
/// hashes. The digest of a byte string depends on that byte string alone.
#[verifier::external_body]
fn sha256(data: &[u8]) -> (digest: [u8; 32])
    requires
        data@.len() <= 64,
    ensures
        digest@ == sha256_digest(data@),
{
    let env = soroban_sdk::Env::new_with_config(
        soroban_sdk::testutils::EnvTestConfig { capture_snapshot_at_drop: false },
    );
    env.crypto().sha256(&soroban_sdk::Bytes::from_slice(&env, data)).to_array()
}

/// What is hashed for a key: the domain and the subscription in front of the raw key.
pub open spec fn idem_message(domain: u32, subscription_id: u32, raw: Bytes32) -> Seq<u8> {
    be32(domain) + be32(subscription_id) + raw@
}

/// The stored form of a raw key, so that one raw key can serve several entry points.
pub fn hash_idem_key(domain: u32, subscription_id: u32, raw: &Bytes32) -> (hashed: Bytes32)
    ensures
        hashed@ == sha256_digest(idem_message(domain, subscription_id, *raw)),
{
    let mut message: Vec<u8> = Vec::new();
    push_be32(&mut message, domain);
    push_be32(&mut message, subscription_id);
    push_bytes(&mut message, &raw.bytes);
    assert(message@ =~= idem_message(domain, subscription_id, *raw));
    Bytes32 { bytes: sha256(message.as_slice()) }
}

/// Messages of different entry points, subscriptions or raw keys differ.
pub proof fn law_idem_messages_distinct(
    domain: u32,
    subscription_id: u32,
    raw: Bytes32,
    domain2: u32,
    subscription_id2: u32,
    raw2: Bytes32,
)
    requires
        idem_message(domain, subscription_id, raw) == idem_message(domain2, subscription_id2, raw2),
    ensures
        domain == domain2,
        subscription_id == subscription_id2,
        raw == raw2,
{
    let a = idem_message(domain, subscription_id, raw);
    let b = idem_message(domain2, subscription_id2, raw2);
    assert(a.subrange(0, 4) =~= be32(domain));
    assert(b.subrange(0, 4) =~= be32(domain2));
    assert(a.subrange(4, 8) =~= be32(subscription_id));
    assert(b.subrange(4, 8) =~= be32(subscription_id2));
    assert(a.subrange(8, 40) =~= raw@);
    assert(b.subrange(8, 40) =~= raw2@);
    crate::encoding::lemma_be32_injective(domain, domain2);
    crate::encoding::lemma_be32_injective(subscription_id, subscription_id2);
    assert(raw.bytes =~= raw2.bytes) by {
        assert forall|i: int| 0 <= i < 32 implies raw.bytes[i] == raw2.bytes[i] by {
            assert(raw@[i] == raw2@[i]);
        }
    }
}

/// The last `IDEM_HISTORY` keys, oldest first, after one more key came in.
pub open spec fn remembered(history: Seq<Bytes32>, key: Bytes32) -> Seq<Bytes32> {
    if history.len() < IDEM_HISTORY {
        history.push(key)
    } else {
        history.skip(history.len() - IDEM_HISTORY + 1).push(key)
    }
}

/// A ring of keys: once full, each new key overwrites the oldest.
pub struct Ring {
    slots: Vec<Bytes32>,
    cursor: usize,
}

impl View for Ring {
    /// The keys in the ring, oldest first.
    type V = Seq<Bytes32>;

    closed spec fn view(&self) -> Seq<Bytes32> {
        self.slots@.skip(self.cursor as int) + self.slots@.take(self.cursor as int)
    }
}

impl Ring {
    #[verifier::type_invariant]
    spec fn in_bounds(self) -> bool {
        &&& self.slots@.len() <= IDEM_HISTORY
        &&& self.slots@.len() < IDEM_HISTORY ==> self.cursor == 0
        &&& self.cursor < IDEM_HISTORY
        &&& self.cursor <= self.slots@.len()
    }

    /// The ring without keys.
    pub fn new() -> (r: Ring)
        ensures
            r@ == Seq::<Bytes32>::empty(),
    {
        let r = Ring { slots: Vec::new(), cursor: 0 };
        assert(r@ =~= Seq::<Bytes32>::empty());
        r
    }

    /// Whether `key` is in the ring.
    pub fn contains(&self, key: &Bytes32) -> (b: bool)
        ensures
            b == self@.contains(*key),
    {
        proof {
            use_type_invariant(self);
        }
        let mut i: usize = 0;
        while i < self.slots.len()
            invariant
                i <= self.slots@.len(),
                self.cursor <= self.slots@.len(),
                forall|j: int| 0 <= j < i ==> self.slots@[j] != *key,
            decreases self.slots@.len() - i,
        {
            if self.slots[i].same(key) {
                proof {
                    lemma_bytes32_view(self.slots@[i as int], *key);
                    let at: int = if i >= self.cursor {
                        i - self.cursor
                    } else {
                        self.slots@.len() - self.cursor + i
                    };
                    assert(self@[at] == *key);
                }
                return true;
            }
            i += 1;
        }
        proof {
            assert forall|j: int| 0 <= j < self@.len() implies self@[j] != *key by {
                let at: int = if j < self.slots@.len() - self.cursor {
                    j + self.cursor
                } else {
                    j - (self.slots@.len() - self.cursor)
                };
                assert(self@[j] == self.slots@[at]);
            }
        }
        false
    }

    /// Puts `key` in as the newest; a full ring forgets its oldest key.
    pub fn push(&mut self, key: Bytes32)
        ensures
            final(self)@ == remembered(old(self)@, key),
    {
        proof {
            use_type_invariant(&*self);
        }
        let cursor: usize = self.cursor;
        self.cursor = 0;
        let mut slots: Vec<Bytes32> = Vec::new();
        std::mem::swap(&mut slots, &mut self.slots);
        if slots.len() < IDEM_HISTORY as usize {
            slots.push(key);
            self.slots = slots;
            assert(self@ =~= remembered(old(self)@, key));
        } else {
            slots.set(cursor, key);
            self.slots = slots;
            if cursor + 1 < IDEM_HISTORY as usize {
                self.cursor = cursor + 1;
            }
            assert(self@ =~= remembered(old(self)@, key));
        }
    }
}

/// The rings of all subscriptions.
pub type Rings = Table<u32, Ring>;

/// The keys that a subscription remembers, oldest first.
pub open spec fn history(rings: Map<u32, Seq<Bytes32>>, subscription_id: u32) -> Seq<Bytes32> {
    if rings.dom().contains(subscription_id) {
        rings[subscription_id]
    } else {
        Seq::empty()
    }
}

/// Whether the subscription remembers `key`.
pub fn check_key(rings: &Rings, subscription_id: u32, key: &Bytes32) -> (seen: bool)
    ensures
        seen == history(rings@, subscription_id).contains(*key),
{
    match rings.get(&subscription_id) {
        Some(ring) => ring.contains(key),
        None => false,
    }
}

/// The rings after `subscription_id` has taken in `key`.
pub open spec fn key_pushed(
    rings: Map<u32, Seq<Bytes32>>,
    subscription_id: u32,
    key: Bytes32,
) -> Map<u32, Seq<Bytes32>> {
    rings.insert(subscription_id, remembered(history(rings, subscription_id), key))
}

/// Lets the subscription remember `key`.
pub fn push_key(rings: &mut Rings, subscription_id: u32, key: Bytes32)
    ensures
        final(rings)@ == key_pushed(old(rings)@, subscription_id, key),
{
    let mut ring = match rings.take(&subscription_id) {
        Some(r) => r,
        None => Ring::new(),
    };
    ring.push(key);
    rings.insert(subscription_id, ring);
    assert(rings@ =~= key_pushed(old(rings)@, subscription_id, key));
}

/// The key whose digest is `digest`.
pub open spec fn key_with(digest: Seq<u8>) -> Bytes32 {
    choose|b: Bytes32| b@ == digest
}

/// The stored form of a raw key.
pub open spec fn hashed_key(domain: u32, subscription_id: u32, raw: Bytes32) -> Bytes32 {
    key_with(sha256_digest(idem_message(domain, subscription_id, raw)))
}

/// Whether a request that carries `key` has been served before.
pub open spec fn served(
    rings: Map<u32, Seq<Bytes32>>,
    domain: u32,
    subscription_id: u32,
    key: Option<Bytes32>,
) -> bool {
    match key {
        Some(raw) => history(rings, subscription_id).contains(
            hashed_key(domain, subscription_id, raw),
        ),
        None => false,
    }
}

/// The rings after a request that carries `key` has been served.
pub open spec fn recorded(
    rings: Map<u32, Seq<Bytes32>>,
    domain: u32,
    subscription_id: u32,
    key: Option<Bytes32>,
) -> Map<u32, Seq<Bytes32>> {
    match key {
        Some(raw) => key_pushed(rings, subscription_id, hashed_key(domain, subscription_id, raw)),
        None => rings,
    }
}

/// Whether a request that carries `key` has been served before.
pub fn is_served(rings: &Rings, domain: u32, subscription_id: u32, key: &Option<Bytes32>) -> (b: bool)
    ensures
        b == served(rings@, domain, subscription_id, *key),
{
    match key {
        Some(raw) => {
            let h = hash_idem_key(domain, subscription_id, raw);
            proof {
                lemma_bytes32_view(h, hashed_key(domain, subscription_id, *raw));
            }
            check_key(rings, subscription_id, &h)
        },
        None => false,
    }
}

/// Remembers a request that carries `key` as served.
pub fn record(rings: &mut Rings, domain: u32, subscription_id: u32, key: &Option<Bytes32>)
    ensures
        final(rings)@ == recorded(old(rings)@, domain, subscription_id, *key),
{
    match key {
        Some(raw) => {
            let h = hash_idem_key(domain, subscription_id, raw);
            proof {
                lemma_bytes32_view(h, hashed_key(domain, subscription_id, *raw));
            }
            push_key(rings, subscription_id, h);
        },
        None => {},
    }
}

/// A key is remembered until `IDEM_HISTORY` further keys have come in.
pub proof fn law_key_lives_for_a_window(history: Seq<Bytes32>, key: Bytes32, later: Seq<Bytes32>)
    requires
        history.len() <= IDEM_HISTORY,
        later.len() < IDEM_HISTORY,
    ensures
        later.fold_left(remembered(history, key), |h: Seq<Bytes32>, k: Bytes32| remembered(h, k)).contains(key),
{
    lemma_window(remembered(history, key), remembered(history, key).len() - 1, later);
}

proof fn lemma_window(h: Seq<Bytes32>, at: int, later: Seq<Bytes32>)
    requires
        h.len() <= IDEM_HISTORY,
        0 <= at < h.len(),
        later.len() <= at + (IDEM_HISTORY - h.len()),
    ensures
        later.fold_left(h, |h: Seq<Bytes32>, k: Bytes32| remembered(h, k)).contains(h[at]),
    decreases later.len(),
{
    let f = |h: Seq<Bytes32>, k: Bytes32| remembered(h, k);
    if later.len() == 0 {
        assert(h.contains(h[at]));
    } else {
        later.lemma_fold_left_alt(h, f);
        let h2 = remembered(h, later.first());
        let at2 = if h.len() < IDEM_HISTORY {
            at
        } else {
            at - 1
        };
        let rest = later.subrange(1, later.len() as int);
        assert(h2[at2] == h[at]);
        lemma_window(h2, at2, rest);
        rest.lemma_fold_left_alt(h2, f);
    }
}

} // verus!
