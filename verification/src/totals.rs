//! Sums over finite maps.
use vstd::prelude::*;

verus! {

/// The sum of `f(k, m[k])` over all keys `k` of a finite map.
pub open spec fn total<K, V>(m: Map<K, V>, f: spec_fn(K, V) -> int) -> int
    decreases m.dom().len(),
    when m.dom().finite()
{
    if m.dom().len() == 0 {
        0
    } else {
        let k = m.dom().choose();
        if m.dom().contains(k) {
            f(k, m[k]) + total(m.remove(k), f)
        } else {
            0
        }
    }
}

/// Any key can be taken out of a sum.
pub proof fn lemma_total_split<K, V>(m: Map<K, V>, f: spec_fn(K, V) -> int, k: K)
    requires
        m.dom().finite(),
        m.dom().contains(k),
    ensures
        total(m, f) == f(k, m[k]) + total(m.remove(k), f),
    decreases m.dom().len(),
{
    let c = m.dom().choose();
    assert(m.dom().len() > 0);
    assert(m.dom().contains(c));
    if c != k {
        let mc = m.remove(c);
        let mk = m.remove(k);
        lemma_total_split(mc, f, k);
        lemma_total_split(mk, f, c);
        assert(mc.remove(k) =~= mk.remove(c));
    }
}

/// How putting a value in changes a sum.
pub proof fn lemma_total_insert<K, V>(m: Map<K, V>, f: spec_fn(K, V) -> int, k: K, v: V)
    requires
        m.dom().finite(),
    ensures
        m.insert(k, v).dom().finite(),
        total(m.insert(k, v), f) == total(m, f) - (if m.dom().contains(k) {
            f(k, m[k])
        } else {
            0
        }) + f(k, v),
{
    let m2 = m.insert(k, v);
    lemma_total_split(m2, f, k);
    if m.dom().contains(k) {
        lemma_total_split(m, f, k);
        assert(m2.remove(k) =~= m.remove(k));
    } else {
        assert(m2.remove(k) =~= m);
    }
}

/// How taking a key out changes a sum.
pub proof fn lemma_total_remove<K, V>(m: Map<K, V>, f: spec_fn(K, V) -> int, k: K)
    requires
        m.dom().finite(),
    ensures
        m.remove(k).dom().finite(),
        total(m.remove(k), f) == total(m, f) - (if m.dom().contains(k) {
            f(k, m[k])
        } else {
            0
        }),
{
    if m.dom().contains(k) {
        lemma_total_split(m, f, k);
    } else {
        assert(m.remove(k) =~= m);
    }
}

/// A sum of terms that are not negative is not negative, and no term exceeds it.
pub proof fn lemma_total_bounds<K, V>(m: Map<K, V>, f: spec_fn(K, V) -> int)
    requires
        m.dom().finite(),
        forall|k: K| #[trigger] m.dom().contains(k) ==> f(k, m[k]) >= 0,
    ensures
        total(m, f) >= 0,
    decreases m.dom().len(),
{
    if m.dom().len() > 0 {
        let c = m.dom().choose();
        assert(m.dom().contains(c));
        let m2 = m.remove(c);
        assert forall|k: K| #[trigger] m2.dom().contains(k) implies f(k, m2[k]) >= 0 by {
            assert(m.dom().contains(k));
        }
        lemma_total_bounds(m2, f);
    }
}

/// The sum of `f(k, m[k])` over the first `n` keys of a list.
pub open spec fn listed_total<K, V>(
    m: Map<K, V>,
    keys: Seq<K>,
    n: int,
    f: spec_fn(K, V) -> int,
) -> int
    decreases n,
{
    if n <= 0 {
        0
    } else {
        listed_total(m, keys, n - 1, f) + f(keys[n - 1], m[keys[n - 1]])
    }
}

proof fn lemma_listed_frame<K, V>(
    m: Map<K, V>,
    m2: Map<K, V>,
    keys: Seq<K>,
    keys2: Seq<K>,
    n: int,
    f: spec_fn(K, V) -> int,
)
    requires
        n <= keys.len(),
        n <= keys2.len(),
        forall|i: int| 0 <= i < n ==> keys[i] == #[trigger] keys2[i] && m[keys[i]] == m2[keys[i]],
    ensures
        listed_total(m, keys, n, f) == listed_total(m2, keys2, n, f),
    decreases n,
{
    if n > 0 {
        lemma_listed_frame(m, m2, keys, keys2, n - 1, f);
        assert(keys[n - 1] == keys2[n - 1]);
    }
}

/// Adding up along a list of all keys, each once, gives the sum over the map.
pub proof fn lemma_listed_total<K, V>(m: Map<K, V>, keys: Seq<K>, f: spec_fn(K, V) -> int)
    requires
        m.dom().finite(),
        keys.no_duplicates(),
        forall|i: int| 0 <= i < keys.len() ==> m.dom().contains(#[trigger] keys[i]),
        forall|k: K| #[trigger]
            m.dom().contains(k) ==> exists|i: int|
                0 <= i < keys.len() && #[trigger] keys[i] == k,
    ensures
        listed_total(m, keys, keys.len() as int, f) == total(m, f),
    decreases keys.len(),
{
    if keys.len() == 0 {
        assert(m.dom() =~= Set::empty());
    } else {
        let last = keys.last();
        let front = keys.drop_last();
        let m2 = m.remove(last);
        assert(m.dom().contains(keys[keys.len() - 1]));
        assert forall|i: int| 0 <= i < front.len() implies m2.dom().contains(
            #[trigger] front[i],
        ) by {
            assert(m.dom().contains(keys[i]));
            assert(keys[i] != keys[keys.len() - 1]);
        }
        assert forall|k: K| #[trigger] m2.dom().contains(k) implies exists|i: int|
            0 <= i < front.len() && #[trigger] front[i] == k by {
            assert(m.dom().contains(k));
            let i = choose|i: int| 0 <= i < keys.len() && #[trigger] keys[i] == k;
            assert(front[i] == k);
        }
        lemma_listed_total(m2, front, f);
        lemma_total_split(m, f, last);
        assert forall|i: int| 0 <= i < front.len() implies keys[i] == #[trigger] front[i] && m[keys[i]]
            == m2[keys[i]] by {
            assert(keys[i] != keys[keys.len() - 1]);
        }
        lemma_listed_frame(m, m2, keys, front, front.len() as int, f);
    }
}

} // verus!
