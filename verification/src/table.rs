//! A small map kept as a list of entries, for keys that are compared by value.

use vstd::prelude::*;

verus! {

/// A key that can be compared with another by its value.
pub trait Key: View + Sized {
    /// Whether the two keys have the same value.
    fn same(&self, other: &Self) -> (equal: bool)
        ensures
            equal == (self@ == other@),
    ;
}

impl Key for String {
    fn same(&self, other: &String) -> (equal: bool) {
        *self == *other
    }
}

/// A finite map from keys to values. No key occurs twice.
#[derive(Debug)]
pub struct Table<K: Key, V> {
    keys: Vec<K>,
    values: Vec<V>,
}

impl<K: Key, V> Table<K, V> {
    #[verifier::type_invariant]
    spec fn distinct_keys(self) -> bool {
        &&& self.keys@.len() == self.values@.len()
        &&& forall|i: int, j: int|
            0 <= i < j < self.keys@.len() ==> self.keys@[i]@ != self.keys@[j]@
    }

    /// Whether entry `i` holds the key with value `key`.
    #[verifier::inline]
    spec fn holds(self, i: int, key: K::V) -> bool {
        key_at(self.keys@, i, key)
    }

    /// The map this table stands for: from the value of each key to what is stored under it.
    pub closed spec fn view(self) -> Map<K::V, V> {
        entries_map(self.keys@, self.values@)
    }

    /// A table holds finitely many keys.
    pub proof fn lemma_finite(self)
        ensures
            self@.dom().finite(),
    {
        let values = self.keys@.map_values(|key: K| key@);
        vstd::seq_lib::seq_to_set_is_finite(values);
        assert forall|key: K::V| self@.dom().contains(key) == values.to_set().contains(key) by {
            if self@.dom().contains(key) {
                let i = choose|i: int| self.holds(i, key);
                assert(values[i] == key);
            }
            if values.to_set().contains(key) {
                let i = choose|i: int| 0 <= i < values.len() && values[i] == key;
                assert(self.holds(i, key));
            }
        }
        assert(self@.dom() =~= values.to_set());
    }

    /// An empty table.
    pub fn new() -> (table: Table<K, V>)
        ensures
            table@ == Map::<K::V, V>::empty(),
    {
        let table = Table { keys: Vec::new(), values: Vec::new() };
        assert(table@ =~= Map::<K::V, V>::empty());
        table
    }

    /// The position of `key` among the entries, if it is there.
    fn position(&self, key: &K) -> (found: Option<usize>)
        ensures
            match found {
                Some(i) => self.holds(i as int, key@),
                None => forall|i: int| !self.holds(i, key@),
            },
    {
        let mut i: usize = 0;
        while i < self.keys.len()
            invariant
                i <= self.keys@.len(),
                forall|j: int| 0 <= j < i ==> !self.holds(j, key@),
            decreases self.keys@.len() - i,
        {
            if self.keys[i].same(key) {
                return Some(i);
            }
            i += 1;
        }
        None
    }

    /// Whether something is stored under `key`.
    pub fn contains_key(&self, key: &K) -> (found: bool)
        ensures
            found == self@.contains_key(key@),
    {
        self.position(key).is_some()
    }

    /// What is stored under `key`, if anything.
    pub fn get(&self, key: &K) -> (value: Option<&V>)
        ensures
            match value {
                Some(value) => self@.contains_key(key@) && *value == self@[key@],
                None => !self@.contains_key(key@),
            },
    {
        proof {
            use_type_invariant(self);
        }
        match self.position(key) {
            Some(i) => {
                assert(self.holds(i as int, key@));
                Some(&self.values[i])
            },
            None => None,
        }
    }

    /// What is stored under `key`, to be changed in place.
    pub fn get_mut(&mut self, key: &K) -> (value: Option<&mut V>)
        ensures
            match value {
                Some(value) => {
                    &&& old(self)@.contains_key(key@)
                    &&& *value == old(self)@[key@]
                    &&& final(self)@ == old(self)@.insert(key@, *final(value))
                },
                None => !old(self)@.contains_key(key@) && final(self)@ == old(self)@,
            },
    {
        proof {
            use_type_invariant(&*self);
        }
        match self.position(key) {
            Some(i) => {
                assert(self.holds(i as int, key@));
                let ghost before = *self;
                let value = &mut self.values[i];
                proof {
                    lemma_changed_in_place(
                        before.keys@,
                        before.values@,
                        i as int,
                        key@,
                        *final(value),
                    );
                }
                Some(value)
            },
            None => None,
        }
    }

    /// Removes and returns what is stored under `key`, if anything.
    pub fn remove(&mut self, key: &K) -> (value: Option<V>)
        ensures
            final(self)@ == old(self)@.remove(key@),
            match value {
                Some(value) => old(self)@.contains_key(key@) && value == old(self)@[key@],
                None => !old(self)@.contains_key(key@),
            },
    {
        proof {
            use_type_invariant(&*self);
        }
        match self.position(key) {
            Some(i) => {
                assert(self.holds(i as int, key@));
                let ghost before = *self;
                let mut taken: Table<K, V> = Table { keys: Vec::new(), values: Vec::new() };
                std::mem::swap(self, &mut taken);
                let Table { mut keys, mut values } = taken;
                let _ = keys.remove(i);
                let value = values.remove(i);
                *self = Table { keys, values };
                proof {
                    assert forall|k: K::V| #[trigger]
                        self@.contains_key(k) == before@.remove(key@).contains_key(k) by {
                        if self@.contains_key(k) {
                            let j = choose|j: int| self.holds(j, k);
                            assert(before.holds(if j < i { j } else { j + 1 }, k));
                        }
                        if before@.remove(key@).contains_key(k) {
                            let j = choose|j: int| before.holds(j, k);
                            assert(self.holds(if j < i { j } else { j - 1 }, k));
                        }
                    }
                    assert forall|k: K::V| #[trigger] self@.contains_key(k) implies self@[k]
                        == before@.remove(key@)[k] by {
                        let j = choose|j: int| self.holds(j, k);
                        let b = choose|j: int| before.holds(j, k);
                        assert(before.holds(if j < i { j } else { j + 1 }, k));
                    }
                    assert(self@ =~= before@.remove(key@));
                }
                Some(value)
            },
            None => {
                assert(self@ =~= old(self)@.remove(key@));
                None
            },
        }
    }

    /// Stores `value` under `key`, in place of what was stored there.
    pub fn insert(&mut self, key: K, value: V)
        ensures
            final(self)@ == old(self)@.insert(key@, value),
    {
        let ghost before = *self;
        let _ = self.remove(&key);
        let ghost middle = *self;
        proof {
            use_type_invariant(&*self);
            assert(forall|i: int| !middle.holds(i, key@)) by {
                if exists|i: int| middle.holds(i, key@) {
                    assert(middle@.contains_key(key@));
                }
            }
        }
        let mut taken: Table<K, V> = Table { keys: Vec::new(), values: Vec::new() };
        std::mem::swap(self, &mut taken);
        let Table { mut keys, mut values } = taken;
        keys.push(key);
        values.push(value);
        assert forall|i: int, j: int| 0 <= i < j < keys@.len() implies keys@[i]@ != keys@[j]@ by {
            if j == keys@.len() - 1 {
                assert(!middle.holds(i, key@));
            }
        }
        *self = Table { keys, values };
        proof {
            use_type_invariant(&*self);
            let n = middle.keys@.len() as int;
            assert forall|k: K::V| #[trigger]
                self@.contains_key(k) == before@.insert(key@, value).contains_key(k) by {
                if self@.contains_key(k) {
                    let j = choose|j: int| self.holds(j, k);
                    if j < n {
                        assert(middle.holds(j, k));
                        assert(middle@.contains_key(k));
                    }
                }
                if before@.insert(key@, value).contains_key(k) {
                    if k == key@ {
                        assert(self.holds(n, k));
                    } else {
                        assert(middle@.contains_key(k));
                        let j = choose|j: int| middle.holds(j, k);
                        assert(self.holds(j, k));
                    }
                }
            }
            assert forall|k: K::V| #[trigger] self@.contains_key(k) implies self@[k]
                == before@.insert(key@, value)[k] by {
                let j = choose|j: int| self.holds(j, k);
                if k == key@ {
                    assert(self.holds(n, k));
                    assert(j == n);
                } else {
                    assert(middle.holds(j, k));
                    let m = choose|m: int| middle.holds(m, k);
                    assert(m == j);
                    assert(middle@.contains_key(k));
                    assert(middle@[k] == middle.values@[m]);
                }
            }
            assert(self@ =~= before@.insert(key@, value));
        }
    }
}

/// Whether key `i` of the keys has the value `key`.
spec fn key_at<K: Key>(keys: Seq<K>, i: int, key: K::V) -> bool {
    0 <= i < keys.len() && keys[i]@ == key
}

/// The map of the entries: from the value of each key to the value at its place.
spec fn entries_map<K: Key, V>(keys: Seq<K>, values: Seq<V>) -> Map<K::V, V> {
    Map::new(
        |key: K::V| exists|i: int| key_at(keys, i, key),
        |key: K::V| values[choose|i: int| key_at(keys, i, key)],
    )
}

/// Entries of which the value at place `i` was changed stand for the map with
/// the new value under the key at that place.
proof fn lemma_changed_in_place<K: Key, V>(
    keys: Seq<K>,
    values: Seq<V>,
    i: int,
    key: K::V,
    value: V,
)
    requires
        keys.len() == values.len(),
        forall|a: int, b: int| 0 <= a < b < keys.len() ==> keys[a]@ != keys[b]@,
        key_at(keys, i, key),
    ensures
        entries_map(keys, values).contains_key(key),
        entries_map(keys, values)[key] == values[i],
        entries_map(keys, values.update(i, value)) == entries_map(keys, values).insert(key, value),
{
    let before = entries_map(keys, values);
    let after = entries_map(keys, values.update(i, value));
    assert(before.contains_key(key));
    let chosen = choose|j: int| key_at(keys, j, key);
    assert(chosen == i);
    assert forall|k: K::V| #[trigger] after.contains_key(k) implies after[k] == before.insert(
        key,
        value,
    )[k] by {
        let j = choose|j: int| key_at(keys, j, k);
        if k == key {
            assert(j == i);
        }
    }
    assert(after =~= before.insert(key, value));
}

} // verus!
