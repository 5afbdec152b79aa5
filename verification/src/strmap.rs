//! A map keyed by strings, holding each key once, in insertion order.

use vstd::prelude::*;

verus! {

/// A finite map from strings to values. Inserting a key that is present replaces
/// its value; the entries keep the order in which their keys were first inserted.
#[derive(Debug)]
pub struct StrMap<V> {
    entries: Vec<(String, V)>,
}

impl<V> StrMap<V> {
    /// The keys, in entry order.
    pub closed spec fn keys(self) -> Seq<Seq<char>> {
        self.entries@.map_values(|e: (String, V)| e.0@)
    }

    /// The entries, in order.
    pub closed spec fn entry_seq(self) -> Seq<(String, V)> {
        self.entries@
    }

    /// The key of entry `i`.
    pub open spec fn key_at(self, i: int) -> Seq<char> {
        self.entry_seq()[i].0@
    }

    /// No key occurs twice.
    #[verifier::type_invariant]
    pub closed spec fn keys_distinct(self) -> bool {
        self.keys().no_duplicates()
    }

    /// The map that the entries describe.
    pub closed spec fn view(self) -> Map<Seq<char>, V> {
        Map::new(
            |k: Seq<char>| self.keys().contains(k),
            |k: Seq<char>| self.entries@[self.keys().index_of(k)].1,
        )
    }

    /// Facts linking the entries, the keys and the map.
    pub proof fn lemma_entries(self)
        requires
            self.keys_distinct(),
        ensures
            self.keys().len() == self.entry_seq().len(),
            forall|i: int| 0 <= i < self.entry_seq().len() ==> #[trigger] self.keys()[i] == self.entry_seq()[i].0@,
            forall|i: int, j: int|
                0 <= i < self.entry_seq().len() && 0 <= j < self.entry_seq().len() && i != j
                    ==> self.key_at(i) != self.key_at(j),
            forall|i: int| 0 <= i < self.entry_seq().len() ==> #[trigger] self.view().contains_key(self.key_at(i))
                && self.view()[self.key_at(i)] == self.entry_seq()[i].1,
            forall|k: Seq<char>| #[trigger] self.view().contains_key(k) ==> exists|i: int| 0 <= i < self.entry_seq().len() && self.key_at(i) == k,
            self.view().dom().len() == self.entry_seq().len(),
            self.view().dom().finite(),
    {
        let ks = self.keys();
        assert forall|i: int, j: int|
            0 <= i < self.entry_seq().len() && 0 <= j < self.entry_seq().len() && i != j
                implies self.key_at(i) != self.key_at(j) by {
            assert(ks[i] == self.key_at(i));
            assert(ks[j] == self.key_at(j));
        }
        assert forall|i: int| 0 <= i < self.entry_seq().len() implies #[trigger] self.view().contains_key(self.key_at(i))
            && self.view()[self.key_at(i)] == self.entry_seq()[i].1 by {
            assert(ks[i] == self.key_at(i));
            assert(ks.contains(self.key_at(i)));
            let j = ks.index_of(self.key_at(i));
            assert(ks[j] == self.key_at(i));
        }
        assert forall|k: Seq<char>| #[trigger] self.view().contains_key(k) implies exists|i: int| 0 <= i < self.entry_seq().len() && self.key_at(i) == k by {
            let i = choose|i: int| 0 <= i < ks.len() && ks[i] == k;
            assert(self.key_at(i) == k);
        }
        assert(self.view().dom() =~= ks.to_set());
        ks.unique_seq_to_set();
    }

    /// An empty map.
    pub fn new() -> (m: Self)
        ensures
            m@ == Map::<Seq<char>, V>::empty(),
            m.entry_seq().len() == 0,
    {
        let m = StrMap { entries: Vec::new() };
        assert(m@ =~= Map::<Seq<char>, V>::empty());
        m
    }

    /// Number of keys.
    pub fn len(&self) -> (n: usize)
        ensures
            n == self@.dom().len(),
            n == self.entry_seq().len(),
    {
        proof {
            use_type_invariant(self);
            self.lemma_entries();
        }
        self.entries.len()
    }

    /// Whether the map has no keys.
    pub fn is_empty(&self) -> (b: bool)
        ensures
            b == (self@.dom().len() == 0),
    {
        self.len() == 0
    }

    /// Position of the entry whose key is `k`.
    fn position(&self, k: &str) -> (r: Option<usize>)
        ensures
            r matches Some(i) ==> i < self.entry_seq().len() && self.key_at(i as int) == k@,
            r is None ==> forall|i: int| 0 <= i < self.entry_seq().len() ==> self.key_at(i) != k@,
    {
        let key: String = k.to_owned();
        let mut i: usize = 0;
        while i < self.entries.len()
            invariant
                key@ == k@,
                i <= self.entries@.len(),
                forall|j: int| 0 <= j < i ==> self.key_at(j) != k@,
            decreases self.entries@.len() - i,
        {
            if self.entries[i].0 == key {
                return Some(i);
            }
            i = i + 1;
        }
        None
    }

    /// Whether `k` is a key.
    pub fn contains_key(&self, k: &str) -> (b: bool)
        ensures
            b == self@.contains_key(k@),
    {
        proof {
            use_type_invariant(self);
            self.lemma_entries();
        }
        self.position(k).is_some()
    }

    /// The value stored under `k`.
    pub fn get(&self, k: &str) -> (r: Option<&V>)
        ensures
            r matches Some(v) ==> self@.contains_key(k@) && *v == self@[k@],
            r is None ==> !self@.contains_key(k@),
    {
        proof {
            use_type_invariant(self);
            self.lemma_entries();
        }
        match self.position(k) {
            Some(i) => Some(&self.entries[i].1),
            None => None,
        }
    }

    /// The key and value of entry `i`.
    pub fn entry(&self, i: usize) -> (r: (&String, &V))
        requires
            i < self.entry_seq().len(),
        ensures
            *r.0 == self.entry_seq()[i as int].0,
            *r.1 == self.entry_seq()[i as int].1,
    {
        (&self.entries[i].0, &self.entries[i].1)
    }

    /// Stores `v` under `k`, replacing the value of an existing key in place.
    pub fn insert(&mut self, k: String, v: V)
        ensures
            final(self)@ == old(self)@.insert(k@, v),
            old(self)@.contains_key(k@) ==> final(self).entry_seq().len() == old(self).entry_seq().len(),
            !old(self)@.contains_key(k@) ==> final(self).entry_seq() == old(self).entry_seq().push((k, v)),
    {
        proof {
            use_type_invariant(&*self);
            self.lemma_entries();
        }
        let ghost old_map = self@;
        let ghost old_keys = self.keys();
        let pos = self.position(k.as_str());
        assert forall|j: int| pos is None && 0 <= j < old_keys.len() implies old_keys[j] != k@ by {
            assert(old_keys[j] == self.key_at(j));
        }
        assert(pos matches Some(i) ==> old_keys[i as int] == k@);
        let ghost kv = (k, v);
        let mut entries: Vec<(String, V)> = Vec::new();
        std::mem::swap(&mut entries, &mut self.entries);
        let ghost k_view = k@;
        let ghost v_val = v;
        match pos {
            Some(i) => {
                let ghost old_entries = entries@;
                entries.set(i, (k, v));
                let ghost new_keys = entries@.map_values(|e: (String, V)| e.0@);
                assert(new_keys =~= old_keys.update(i as int, k_view));
                assert(new_keys.no_duplicates()) by {
                    assert forall|a: int, b: int| 0 <= a < new_keys.len() && 0 <= b < new_keys.len() && a != b
                        implies new_keys[a] != new_keys[b] by {
                        assert(old_keys[a] != old_keys[b]);
                    }
                }
                self.entries = entries;
                assert(self.keys() == new_keys);
                proof {
                    self.lemma_entries();
                }
                assert(self@ =~= old_map.insert(k_view, v_val)) by {
                    assert forall|key: Seq<char>| #[trigger] self@.contains_key(key) == old_map.insert(k_view, v_val).contains_key(key) by {
                        if old_map.contains_key(key) {
                            let j = choose|j: int| 0 <= j < old_entries.len() && old_keys[j] == key;
                            assert(self.key_at(j) == key || j == i);
                        }
                        if self@.contains_key(key) {
                            let j = choose|j: int| 0 <= j < self.entry_seq().len() && self.key_at(j) == key;
                            if j != i {
                                assert(old_keys[j] == key);
                                assert(old_keys.contains(key));
                            }
                        }
                    }
                    assert forall|key: Seq<char>| #[trigger] self@.contains_key(key) implies self@[key] == old_map.insert(k_view, v_val)[key] by {
                        let j = choose|j: int| 0 <= j < self.entry_seq().len() && self.key_at(j) == key;
                        assert(self.entry_seq()[i as int] == kv);
                        if j != i {
                            assert(old_keys[j] == key);
                            assert(old_entries[j] == self.entry_seq()[j]);
                            assert(old_map[old_keys[j]] == old_entries[j].1);
                        }
                    }
                }
            },
            None => {
                let ghost old_entries = entries@;
                entries.push((k, v));
                let ghost new_keys = entries@.map_values(|e: (String, V)| e.0@);
                assert(new_keys =~= old_keys.push(k_view));
                assert(new_keys.no_duplicates()) by {
                    assert forall|a: int, b: int| 0 <= a < new_keys.len() && 0 <= b < new_keys.len() && a != b
                        implies new_keys[a] != new_keys[b] by {
                        if a < old_keys.len() && b < old_keys.len() {
                            assert(old_keys[a] != old_keys[b]);
                        } else if a < old_keys.len() {
                            assert(old_keys[a] != k_view);
                        } else if b < old_keys.len() {
                            assert(old_keys[b] != k_view);
                        }
                    }
                }
                self.entries = entries;
                assert(self.keys() == new_keys);
                proof {
                    self.lemma_entries();
                }
                assert(self@ =~= old_map.insert(k_view, v_val)) by {
                    assert forall|key: Seq<char>| #[trigger] self@.contains_key(key) == old_map.insert(k_view, v_val).contains_key(key) by {
                        if old_map.contains_key(key) {
                            let j = choose|j: int| 0 <= j < old_entries.len() && old_keys[j] == key;
                            assert(self.key_at(j) == key);
                        }
                        if key == k_view {
                            assert(self.entry_seq()[old_entries.len() as int] == kv);
                            assert(self.key_at(old_entries.len() as int) == k_view);
                        }
                        if self@.contains_key(key) {
                            let j = choose|j: int| 0 <= j < self.entry_seq().len() && self.key_at(j) == key;
                            if j < old_entries.len() {
                                assert(old_keys[j] == key);
                                assert(old_keys.contains(key));
                            }
                        }
                    }
                    assert forall|key: Seq<char>| #[trigger] self@.contains_key(key) implies self@[key] == old_map.insert(k_view, v_val)[key] by {
                        let j = choose|j: int| 0 <= j < self.entry_seq().len() && self.key_at(j) == key;
                        if j < old_entries.len() {
                            assert(old_keys[j] == key);
                            assert(old_entries[j] == self.entry_seq()[j]);
                            assert(old_map[old_keys[j]] == old_entries[j].1);
                        }
                    }
                }
            },
        }
    }
}

} // verus!
