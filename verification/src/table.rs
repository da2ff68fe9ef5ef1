//! A finite map from keys to values, and sums over finite maps.
use crate::types::Key;
use vstd::prelude::*;

verus! {

/// A finite map. Its view maps the view of each key to the view of its value.
pub struct Table<K: Key, V: View> {
    entries: Vec<(K, V)>,
}

/// The map that a sequence of entries with distinct keys stands for.
pub closed spec fn map_of<K: View, V: View>(entries: Seq<(K, V)>) -> Map<K::V, V::V>
    decreases entries.len(),
{
    if entries.len() == 0 {
        Map::empty()
    } else {
        map_of(entries.drop_last()).insert(entries.last().0@, entries.last().1@)
    }
}

spec fn distinct_keys<K: View, V>(entries: Seq<(K, V)>) -> bool {
    forall|i: int, j: int| 0 <= i < j < entries.len() ==> entries[i].0@ != entries[j].0@
}

proof fn lemma_map_of<K: View, V: View>(entries: Seq<(K, V)>)
    requires
        distinct_keys(entries),
    ensures
        map_of(entries).dom().finite(),
        forall|i: int|
            0 <= i < entries.len() ==> #[trigger] map_of(entries).dom().contains(entries[i].0@)
                && map_of(entries)[entries[i].0@] == entries[i].1@,
        forall|k: K::V| #[trigger]
            map_of(entries).dom().contains(k) ==> exists|i: int|
                0 <= i < entries.len() && #[trigger] entries[i].0@ == k,
    decreases entries.len(),
{
    if entries.len() > 0 {
        let front = entries.drop_last();
        lemma_map_of(front);
        assert forall|i: int| 0 <= i < entries.len() implies #[trigger] map_of(
            entries,
        ).dom().contains(entries[i].0@) && map_of(entries)[entries[i].0@] == entries[i].1@ by {
            if i < front.len() {
                assert(front[i] == entries[i]);
                assert(entries[i].0@ != entries.last().0@);
            }
        }
        assert forall|k: K::V| #[trigger] map_of(entries).dom().contains(k) implies exists|i: int|
            0 <= i < entries.len() && #[trigger] entries[i].0@ == k by {
            if k != entries.last().0@ {
                assert(map_of(front).dom().contains(k));
                let i = choose|i: int| 0 <= i < front.len() && #[trigger] front[i].0@ == k;
                assert(entries[i].0@ == k);
            } else {
                assert(entries[entries.len() - 1].0@ == k);
            }
        }
    }
}

/// Changing the value of one entry changes the map at that key only.
proof fn lemma_map_of_update<K: View, V: View>(entries: Seq<(K, V)>, i: int, e: (K, V))
    requires
        distinct_keys(entries),
        0 <= i < entries.len(),
        e.0@ == entries[i].0@,
    ensures
        map_of(entries.update(i, e)) == map_of(entries).insert(e.0@, e.1@),
        distinct_keys(entries.update(i, e)),
{
    let e2 = entries.update(i, e);
    assert(distinct_keys(e2)) by {
        assert forall|a: int, b: int| 0 <= a < b < e2.len() implies e2[a].0@ != e2[b].0@ by {
            assert(entries[a].0@ != entries[b].0@);
        }
    }
    lemma_map_of(entries);
    lemma_map_of(e2);
    let m1 = map_of(e2);
    let m2 = map_of(entries).insert(e.0@, e.1@);
    assert forall|k: K::V| #[trigger] m1.dom().contains(k) == m2.dom().contains(k) by {
        if m1.dom().contains(k) {
            let j = choose|j: int| 0 <= j < e2.len() && #[trigger] e2[j].0@ == k;
            assert(entries[j].0@ == k);
        }
        if m2.dom().contains(k) {
            if k == entries[i].0@ {
                assert(e2[i].0@ == k);
            } else {
                let j = choose|j: int| 0 <= j < entries.len() && #[trigger] entries[j].0@ == k;
                assert(e2[j].0@ == k);
            }
        }
    }
    assert forall|k: K::V| m1.dom().contains(k) implies #[trigger] m1[k] == m2[k] by {
        let j = choose|j: int| 0 <= j < e2.len() && #[trigger] e2[j].0@ == k;
        if j != i {
            assert(entries[j] == e2[j]);
            assert(k != entries[i].0@) by {
                if j < i {
                    assert(entries[j].0@ != entries[i].0@);
                } else {
                    assert(entries[i].0@ != entries[j].0@);
                }
            }
        }
    }
    assert(m1 =~= m2);
}

/// Taking one entry out takes its key out of the map.
proof fn lemma_map_of_remove<K: View, V: View>(entries: Seq<(K, V)>, i: int)
    requires
        distinct_keys(entries),
        0 <= i < entries.len(),
    ensures
        map_of(entries.remove(i)) == map_of(entries).remove(entries[i].0@),
        distinct_keys(entries.remove(i)),
{
    let e2 = entries.remove(i);
    assert(distinct_keys(e2)) by {
        assert forall|a: int, b: int| 0 <= a < b < e2.len() implies e2[a].0@ != e2[b].0@ by {
            let a1 = if a < i {
                a
            } else {
                a + 1
            };
            let b1 = if b < i {
                b
            } else {
                b + 1
            };
            assert(entries[a1].0@ != entries[b1].0@);
        }
    }
    lemma_map_of(entries);
    lemma_map_of(e2);
    let m1 = map_of(e2);
    let m2 = map_of(entries).remove(entries[i].0@);
    assert forall|k: K::V| #[trigger] m1.dom().contains(k) == m2.dom().contains(k) by {
        if m1.dom().contains(k) {
            let j = choose|j: int| 0 <= j < e2.len() && #[trigger] e2[j].0@ == k;
            let j1 = if j < i {
                j
            } else {
                j + 1
            };
            assert(entries[j1].0@ == k);
            if j1 < i {
                assert(entries[j1].0@ != entries[i].0@);
            } else {
                assert(entries[i].0@ != entries[j1].0@);
            }
        }
        if m2.dom().contains(k) {
            let j = choose|j: int| 0 <= j < entries.len() && #[trigger] entries[j].0@ == k;
            if j < i {
                assert(e2[j].0@ == k);
            } else {
                assert(j != i);
                assert(e2[j - 1].0@ == k);
            }
        }
    }
    assert forall|k: K::V| m1.dom().contains(k) implies #[trigger] m1[k] == m2[k] by {
        let j = choose|j: int| 0 <= j < e2.len() && #[trigger] e2[j].0@ == k;
        let j1 = if j < i {
            j
        } else {
            j + 1
        };
        assert(entries[j1] == e2[j]);
    }
    assert(m1 =~= m2);
}

impl<K: Key, V: View> View for Table<K, V> {
    type V = Map<K::V, V::V>;

    closed spec fn view(&self) -> Map<K::V, V::V> {
        map_of(self.entries@)
    }
}

impl<K: Key, V: View> Table<K, V> {
    #[verifier::type_invariant]
    spec fn keys_differ(self) -> bool {
        distinct_keys(self.entries@)
    }

    /// The table without entries.
    pub fn new() -> (t: Self)
        ensures
            t@ == Map::<K::V, V::V>::empty(),
    {
        Table { entries: Vec::new() }
    }

    /// The position of `key` among the entries, if it has one.
    fn find(&self, key: &K) -> (r: Option<usize>)
        ensures
            match r {
                Some(i) => i < self.entries@.len() && self.entries@[i as int].0@ == key@,
                None => forall|i: int| 0 <= i < self.entries@.len() ==> self.entries@[i].0@ != key@,
            },
    {
        let mut i: usize = 0;
        while i < self.entries.len()
            invariant
                i <= self.entries@.len(),
                forall|j: int| 0 <= j < i ==> self.entries@[j].0@ != key@,
            decreases self.entries@.len() - i,
        {
            if self.entries[i].0.same(key) {
                return Some(i);
            }
            i += 1;
        }
        None
    }

    /// The value under `key`, if there is one.
    pub fn get(&self, key: &K) -> (r: Option<&V>)
        ensures
            match r {
                Some(v) => self@.dom().contains(key@) && v@ == self@[key@],
                None => !self@.dom().contains(key@),
            },
    {
        proof {
            use_type_invariant(self);
            lemma_map_of(self.entries@);
        }
        match self.find(key) {
            Some(i) => {
                assert(self@.dom().contains(self.entries@[i as int].0@));
                Some(&self.entries[i].1)
            },
            None => None,
        }
    }

    /// Whether there is a value under `key`.
    pub fn contains(&self, key: &K) -> (b: bool)
        ensures
            b == self@.dom().contains(key@),
    {
        match self.get(key) {
            Some(_) => true,
            None => false,
        }
    }

    /// Puts `value` under `key`, in place of any value that was there.
    pub fn insert(&mut self, key: K, value: V)
        ensures
            final(self)@ == old(self)@.insert(key@, value@),
    {
        proof {
            use_type_invariant(&*self);
        }
        let at = self.find(&key);
        let mut entries: Vec<(K, V)> = Vec::new();
        std::mem::swap(&mut entries, &mut self.entries);
        let ghost before = entries@;
        match at {
            Some(i) => {
                entries.set(i, (key, value));
                proof {
                    lemma_map_of_update(before, i as int, (key, value));
                }
            },
            None => {
                entries.push((key, value));
                proof {
                    assert(entries@.drop_last() =~= before);
                    assert(distinct_keys(entries@));
                }
            },
        }
        self.entries = entries;
    }

    /// The keys, each once, in the order in which they were first put in.
    pub closed spec fn keys(&self) -> Seq<K::V> {
        Seq::new(self.entries@.len(), |i: int| self.entries@[i].0@)
    }

    /// How many entries there are. The keys list the domain of the view, each key once.
    pub fn len(&self) -> (n: usize)
        ensures
            n == self.keys().len(),
            n == self@.dom().len(),
            self@.dom().finite(),
            self.keys().no_duplicates(),
            forall|i: int| 0 <= i < self.keys().len() ==> self@.dom().contains(
                #[trigger] self.keys()[i],
            ),
            forall|k: K::V| #[trigger]
                self@.dom().contains(k) ==> exists|i: int|
                    0 <= i < self.keys().len() && #[trigger] self.keys()[i] == k,
    {
        proof {
            use_type_invariant(self);
            lemma_map_of(self.entries@);
            let keys = self.keys();
            assert forall|i: int, j: int|
                0 <= i < keys.len() && 0 <= j < keys.len() && i != j implies keys[i] != keys[j] by {
                if i < j {
                    assert(self.entries@[i].0@ != self.entries@[j].0@);
                } else {
                    assert(self.entries@[j].0@ != self.entries@[i].0@);
                }
            }
            assert forall|i: int| 0 <= i < keys.len() implies self@.dom().contains(
                #[trigger] keys[i],
            ) by {
                assert(self@.dom().contains(self.entries@[i].0@));
            }
            assert forall|k: K::V| #[trigger] self@.dom().contains(k) implies exists|i: int|
                0 <= i < keys.len() && #[trigger] keys[i] == k by {
                let i = choose|i: int|
                    0 <= i < self.entries@.len() && #[trigger] self.entries@[i].0@ == k;
                assert(keys[i] == k);
            }
            keys.unique_seq_to_set();
            assert(keys.to_set() =~= self@.dom());
        }
        self.entries.len()
    }

    /// The entry at position `i` of [`Table::keys`].
    pub fn at(&self, i: usize) -> (e: (&K, &V))
        requires
            i < self.keys().len(),
        ensures
            e.0@ == self.keys()[i as int],
            self@.dom().contains(e.0@),
            e.1@ == self@[e.0@],
    {
        proof {
            use_type_invariant(self);
            lemma_map_of(self.entries@);
            assert(self@.dom().contains(self.entries@[i as int].0@));
        }
        let e = &self.entries[i];
        (&e.0, &e.1)
    }

    /// Takes the value under `key` out and hands it over, if there is one.
    pub fn take(&mut self, key: &K) -> (r: Option<V>)
        ensures
            final(self)@ == old(self)@.remove(key@),
            match r {
                Some(v) => old(self)@.dom().contains(key@) && v@ == old(self)@[key@],
                None => !old(self)@.dom().contains(key@),
            },
    {
        proof {
            use_type_invariant(&*self);
            lemma_map_of(self.entries@);
        }
        let at = self.find(key);
        let mut entries: Vec<(K, V)> = Vec::new();
        std::mem::swap(&mut entries, &mut self.entries);
        match at {
            Some(i) => {
                proof {
                    lemma_map_of_remove(entries@, i as int);
                    assert(map_of(entries@).dom().contains(entries@[i as int].0@));
                }
                let e = entries.remove(i);
                self.entries = entries;
                Some(e.1)
            },
            None => {
                proof {
                    assert(map_of(entries@).remove(key@) =~= map_of(entries@));
                }
                self.entries = entries;
                None
            },
        }
    }

    /// Takes the value under `key` out, if there is one.
    pub fn remove(&mut self, key: &K)
        ensures
            final(self)@ == old(self)@.remove(key@),
    {
        let _ = self.take(key);
    }
}

} // verus!
