//! A small map from pairs of ids to values, kept as two parallel lists.

use vstd::prelude::*;

verus! {

/// A pair of ids: class and field, or field and instance.
pub type Key = (usize, usize);

/// Map from pairs of ids to values. Each key occurs once; `values` holds at each place
/// the value of the key at the same place of `keys`.
#[derive(Debug)]
pub struct Table<V> {
    pub keys: Vec<Key>,
    pub values: Vec<V>,
}

/// No key occurs twice.
pub open spec fn distinct_keys(keys: Seq<Key>) -> bool {
    forall|i: int, j: int| 0 <= i < j < keys.len() ==> keys[i] != keys[j]
}

/// The map that two parallel lists stand for.
pub open spec fn map_of<V>(keys: Seq<Key>, values: Seq<V>) -> Map<Key, V> {
    Map::new(|k: Key| keys.contains(k), |k: Key| values[keys.index_of(k)])
}

/// Among distinct keys, the place of a key is the only place where it stands.
pub proof fn lemma_place(keys: Seq<Key>, key: Key, place: int)
    requires
        distinct_keys(keys),
        0 <= place < keys.len(),
        keys[place] == key,
    ensures
        keys.contains(key),
        keys.index_of(key) == place,
{
    assert(keys.contains(key));
    let found = keys.index_of(key);
    assert(keys[found] == key);
}

impl<V> View for Table<V> {
    type V = Map<Key, V>;

    open spec fn view(&self) -> Map<Key, V> {
        map_of(self.keys@, self.values@)
    }
}

impl<V> Table<V> {
    /// The lists are equally long and no key occurs twice.
    pub open spec fn wf(&self) -> bool {
        &&& self.keys@.len() == self.values@.len()
        &&& distinct_keys(self.keys@)
    }

    /// An empty table.
    pub fn new() -> (r: Self)
        ensures
            r.wf(),
            r@ == Map::<Key, V>::empty(),
    {
        let r = Table { keys: Vec::new(), values: Vec::new() };
        assert(r@ =~= Map::<Key, V>::empty());
        r
    }

    /// The place of `key`, if the table holds it.
    pub fn find(&self, key: Key) -> (r: Option<usize>)
        requires
            self.wf(),
        ensures
            match r {
                Some(place) => place < self.keys@.len() && self.keys@[place as int] == key
                    && self@.contains_key(key) && self@[key] == self.values@[place as int],
                None => !self@.contains_key(key) && !self.keys@.contains(key),
            },
    {
        let mut i: usize = 0;
        while i < self.keys.len()
            invariant
                self.wf(),
                i <= self.keys@.len(),
                forall|j: int| 0 <= j < i ==> self.keys@[j] != key,
            decreases self.keys@.len() - i,
        {
            let candidate = self.keys[i];
            if candidate.0 == key.0 && candidate.1 == key.1 {
                proof {
                    lemma_place(self.keys@, key, i as int);
                }
                return Some(i);
            }
            i += 1;
        }
        None
    }

    /// Whether the table holds `key`.
    pub fn contains(&self, key: Key) -> (r: bool)
        requires
            self.wf(),
        ensures
            r == self@.contains_key(key),
    {
        self.find(key).is_some()
    }

    /// The value of `key`, if the table holds it.
    pub fn get(&self, key: Key) -> (r: Option<&V>)
        requires
            self.wf(),
        ensures
            match r {
                Some(value) => self@.contains_key(key) && *value == self@[key],
                None => !self@.contains_key(key),
            },
    {
        match self.find(key) {
            Some(place) => Some(&self.values[place]),
            None => None,
        }
    }

    /// Sets the value of `key`, whether or not the table held it.
    pub fn insert(&mut self, key: Key, value: V)
        requires
            old(self).wf(),
        ensures
            final(self).wf(),
            final(self)@ == old(self)@.insert(key, value),
    {
        let ghost keys = self.keys@;
        let ghost values = self.values@;
        match self.find(key) {
            Some(place) => {
                self.values.set(place, value);
                proof {
                    let after = self.values@;
                    assert forall|k: Key| #[trigger] keys.contains(k) implies map_of(keys, after)[k]
                        == (if k == key {
                        value
                    } else {
                        map_of(keys, values)[k]
                    }) by {
                        let at = keys.index_of(k);
                        assert(keys[at] == k);
                        if k == key {
                            lemma_place(keys, key, place as int);
                        }
                    }
                    assert(self@ =~= map_of(keys, values).insert(key, value));
                }
            },
            None => {
                self.keys.push(key);
                self.values.push(value);
                proof {
                    let more = self.keys@;
                    let after = self.values@;
                    assert forall|i: int, j: int| 0 <= i < j < more.len() implies more[i]
                        != more[j] by {
                        if j == keys.len() {
                            assert(keys.contains(keys[i]));
                        }
                    }
                    assert forall|k: Key| #[trigger] more.contains(k) <==> (keys.contains(k) || k
                        == key) by {
                        if keys.contains(k) {
                            let at = keys.index_of(k);
                            assert(more[at] == k);
                        }
                        if k == key {
                            assert(more[keys.len() as int] == k);
                        }
                        if more.contains(k) {
                            let at = more.index_of(k);
                            assert(more[at] == k);
                            if at < keys.len() {
                                assert(keys[at] == k);
                            }
                        }
                    }
                    assert forall|k: Key| #[trigger] more.contains(k) implies map_of(more, after)[k]
                        == (if k == key {
                        value
                    } else {
                        map_of(keys, values)[k]
                    }) by {
                        if k == key {
                            lemma_place(more, key, keys.len() as int);
                        } else {
                            let at = keys.index_of(k);
                            assert(keys[at] == k);
                            lemma_place(more, k, at);
                        }
                    }
                    assert(self@ =~= map_of(keys, values).insert(key, value));
                }
            },
        }
    }

    /// Takes `key` and its value out of the table, if the table holds it.
    pub fn remove(&mut self, key: Key) -> (r: Option<V>)
        requires
            old(self).wf(),
        ensures
            final(self).wf(),
            final(self)@ == old(self)@.remove(key),
            match r {
                Some(value) => old(self)@.contains_key(key) && value == old(self)@[key],
                None => !old(self)@.contains_key(key),
            },
    {
        let ghost keys = self.keys@;
        let ghost values = self.values@;
        match self.find(key) {
            None => {
                assert(self@ =~= map_of(keys, values).remove(key));
                None
            },
            Some(place) => {
                let _ = self.keys.swap_remove(place);
                let value = self.values.swap_remove(place);
                proof {
                    let fewer = self.keys@;
                    let after = self.values@;
                    let last = keys.len() - 1;
                    assert forall|i: int| 0 <= i < fewer.len() implies #[trigger] fewer[i] == (if i
                        == place {
                        keys[last]
                    } else {
                        keys[i]
                    }) && after[i] == (if i == place {
                        values[last]
                    } else {
                        values[i]
                    }) by {}
                    assert forall|i: int, j: int| 0 <= i < j < fewer.len() implies fewer[i]
                        != fewer[j] by {}
                    assert forall|k: Key| #[trigger] fewer.contains(k) <==> (keys.contains(k) && k
                        != key) by {
                        if fewer.contains(k) {
                            let at = fewer.index_of(k);
                            assert(fewer[at] == k);
                            if at == place {
                                assert(keys[last] == k);
                            } else {
                                assert(keys[at] == k);
                            }
                        }
                        if keys.contains(k) && k != key {
                            let at = keys.index_of(k);
                            assert(keys[at] == k);
                            if at == last {
                                assert(fewer[place as int] == k);
                            } else {
                                assert(fewer[at] == k);
                            }
                        }
                    }
                    assert forall|k: Key| #[trigger] fewer.contains(k) implies map_of(fewer, after)[k]
                        == map_of(keys, values)[k] by {
                        let at = keys.index_of(k);
                        assert(keys[at] == k);
                        if at == last {
                            lemma_place(fewer, k, place as int);
                        } else {
                            lemma_place(fewer, k, at);
                        }
                    }
                    assert(self@ =~= map_of(keys, values).remove(key));
                }
                Some(value)
            },
        }
    }
}

} // verus!
