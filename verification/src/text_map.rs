//! A small map keyed by text, kept in insertion order.
use vstd::prelude::*;

verus! {

/// Whether no two of `keys` hold the same text.
pub open spec fn distinct_keys(keys: Seq<String>) -> bool {
    forall|i: int, j: int| 0 <= i < j < keys.len() ==> keys[i]@ != keys[j]@
}

/// Whether one of `keys` holds the text `key`.
pub open spec fn has_key(keys: Seq<String>, key: Seq<char>) -> bool {
    exists|i: int| 0 <= i < keys.len() && keys[i]@ == key
}

/// An index at which `keys` holds the text `key`, where there is one.
pub open spec fn index_of(keys: Seq<String>, key: Seq<char>) -> int {
    choose|i: int| 0 <= i < keys.len() && keys[i]@ == key
}

/// Two well-formed maps that hold the same keys and values, index by index,
/// have the same view.
pub proof fn lemma_same_entries<V>(left: TextMap<V>, right: TextMap<V>)
    requires
        left.wf(),
        right.wf(),
        left.keys@.len() == right.keys@.len(),
        forall|i: int| 0 <= i < left.keys@.len() ==> left.keys@[i]@ == right.keys@[i]@,
        left.values@ == right.values@,
    ensures
        left@ == right@,
{
    assert forall|k: Seq<char>| #[trigger] left@.contains_key(k) == right@.contains_key(k) by {
        if has_key(left.keys@, k) {
            let i = index_of(left.keys@, k);
            assert(right.keys@[i]@ == k);
        }
        if has_key(right.keys@, k) {
            let i = index_of(right.keys@, k);
            assert(left.keys@[i]@ == k);
        }
    }
    assert forall|k: Seq<char>| #[trigger] left@.contains_key(k) implies left@[k] == right@[k] by {
        assert(has_key(left.keys@, k));
        let i = index_of(left.keys@, k);
        left.lemma_entry(i);
        assert(right.keys@[i]@ == k);
        right.lemma_entry(i);
    }
    assert(left@ =~= right@);
}

/// A map from text to values of `V` in which every key occurs once. New keys
/// are added at the end; removing a key keeps the order of the others.
#[derive(Debug)]
pub struct TextMap<V> {
    pub keys: Vec<String>,
    pub values: Vec<V>,
}

impl<V> View for TextMap<V> {
    type V = Map<Seq<char>, V>;

    open spec fn view(&self) -> Map<Seq<char>, V> {
        Map::new(
            |key: Seq<char>| has_key(self.keys@, key),
            |key: Seq<char>| self.values@[index_of(self.keys@, key)],
        )
    }
}

impl<V> TextMap<V> {
    /// The invariant of the map: one value for each key, and no key twice.
    pub open spec fn wf(&self) -> bool {
        self.keys@.len() == self.values@.len() && distinct_keys(self.keys@)
    }

    /// Number of entries.
    pub open spec fn spec_len(&self) -> nat {
        self.keys@.len()
    }

    /// In a well-formed map the entry at index `i` is what the view holds
    /// under the key at `i`.
    pub proof fn lemma_entry(&self, i: int)
        requires
            self.wf(),
            0 <= i < self.keys@.len(),
        ensures
            self@.contains_key(self.keys@[i]@),
            self@[self.keys@[i]@] == self.values@[i],
            index_of(self.keys@, self.keys@[i]@) == i,
    {
        let key = self.keys@[i]@;
        assert(has_key(self.keys@, key));
        let found = index_of(self.keys@, key);
        assert(found == i) by {
            if found < i {
                assert(self.keys@[found]@ != self.keys@[i]@);
            } else if i < found {
                assert(self.keys@[i]@ != self.keys@[found]@);
            }
        }
    }

    /// A map without entries.
    pub fn new() -> (map: Self)
        ensures
            map.wf(),
            map@ == Map::<Seq<char>, V>::empty(),
            map.spec_len() == 0,
    {
        let map = TextMap { keys: Vec::new(), values: Vec::new() };
        assert(map@ =~= Map::<Seq<char>, V>::empty());
        map
    }

    /// Number of entries.
    pub fn len(&self) -> (count: usize)
        requires
            self.wf(),
        ensures
            count == self.spec_len(),
    {
        self.keys.len()
    }

    /// Index of the entry whose key is `key`.
    pub fn position(&self, key: &str) -> (found: Option<usize>)
        requires
            self.wf(),
        ensures
            match found {
                Some(i) => i < self.keys@.len() && self.keys@[i as int]@ == key@,
                None => !has_key(self.keys@, key@),
            },
            found.is_some() == self@.contains_key(key@),
    {
        let wanted = key.to_owned();
        let mut at: usize = 0;
        while at < self.keys.len()
            invariant
                at <= self.keys@.len(),
                wanted@ == key@,
                forall|j: int| 0 <= j < at ==> self.keys@[j]@ != key@,
            decreases self.keys@.len() - at,
        {
            if self.keys[at] == wanted {
                assert(has_key(self.keys@, key@));
                return Some(at);
            }
            at = at + 1;
        }
        None
    }

    /// Tells whether `key` has an entry.
    pub fn contains_key(&self, key: &str) -> (present: bool)
        requires
            self.wf(),
        ensures
            present == self@.contains_key(key@),
    {
        self.position(key).is_some()
    }

    /// The value stored under `key`.
    pub fn get(&self, key: &str) -> (value: Option<&V>)
        requires
            self.wf(),
        ensures
            match value {
                Some(found) => self@.contains_key(key@) && *found == self@[key@],
                None => !self@.contains_key(key@),
            },
    {
        match self.position(key) {
            Some(at) => {
                proof {
                    self.lemma_entry(at as int);
                }
                Some(&self.values[at])
            },
            None => None,
        }
    }

    /// The key of the entry at index `at`.
    pub fn key_at(&self, at: usize) -> (key: &String)
        requires
            self.wf(),
            at < self.spec_len(),
        ensures
            *key == self.keys@[at as int],
            self@.contains_key(key@),
    {
        proof {
            self.lemma_entry(at as int);
        }
        &self.keys[at]
    }

    /// The value of the entry at index `at`.
    pub fn value_at(&self, at: usize) -> (value: &V)
        requires
            self.wf(),
            at < self.spec_len(),
        ensures
            *value == self.values@[at as int],
            *value == self@[self.keys@[at as int]@],
    {
        proof {
            self.lemma_entry(at as int);
        }
        &self.values[at]
    }

    /// Stores `value` under `key` and hands back what was stored there
    /// before. A new key goes to the end; a known key keeps its place.
    pub fn insert(&mut self, key: String, value: V) -> (previous: Option<V>)
        requires
            old(self).wf(),
        ensures
            final(self).wf(),
            final(self)@ == old(self)@.insert(key@, value),
            previous == (if old(self)@.contains_key(key@) {
                Some(old(self)@[key@])
            } else {
                None
            }),
            old(self)@.contains_key(key@) ==> final(self).keys@ == old(self).keys@
                && final(self).values@ == old(self).values@.update(
                index_of(old(self).keys@, key@),
                value,
            ),
            !old(self)@.contains_key(key@) ==> final(self).keys@ == old(self).keys@.push(key)
                && final(self).values@ == old(self).values@.push(value),
    {
        let ghost before = *self;
        match self.position(key.as_str()) {
            Some(at) => {
                proof {
                    before.lemma_entry(at as int);
                }
                self.values.push(value);
                let previous = self.values.swap_remove(at);
                proof {
                    assert(self.values@ =~= before.values@.update(at as int, value));
                    assert forall|k: Seq<char>| #[trigger]
                        self@.contains_key(k) == before@.insert(key@, value).contains_key(
                            k,
                        ) by {
                        if has_key(before.keys@, k) {
                        }
                    }
                    assert forall|k: Seq<char>| #[trigger]
                        self@.contains_key(k) implies self@[k] == before@.insert(key@, value)[k] by {
                        let found = index_of(self.keys@, k);
                        assert(has_key(self.keys@, k));
                        if k == key@ {
                            self.lemma_entry(at as int);
                        }
                    }
                    assert(self@ =~= before@.insert(key@, value));
                }
                Some(previous)
            },
            None => {
                self.keys.push(key);
                self.values.push(value);
                proof {
                    let last = before.keys@.len() as int;
                    assert forall|i: int, j: int| 0 <= i < j < self.keys@.len() implies self.keys@[i]@
                        != self.keys@[j]@ by {
                        if j == last {
                            assert(before.keys@[i]@ == self.keys@[i]@);
                            if self.keys@[i]@ == key@ {
                                assert(has_key(before.keys@, key@));
                            }
                        } else {
                            assert(before.keys@[i]@ != before.keys@[j]@);
                        }
                    }
                    assert forall|k: Seq<char>| #[trigger]
                        self@.contains_key(k) == before@.insert(key@, value).contains_key(
                            k,
                        ) by {
                        if has_key(before.keys@, k) {
                            let i = index_of(before.keys@, k);
                            assert(self.keys@[i]@ == k);
                        }
                        if k == key@ {
                            assert(self.keys@[last]@ == k);
                        }
                        if has_key(self.keys@, k) {
                            let i = index_of(self.keys@, k);
                            if i < last {
                                assert(before.keys@[i]@ == k);
                            }
                        }
                    }
                    assert forall|k: Seq<char>| #[trigger]
                        self@.contains_key(k) implies self@[k] == before@.insert(key@, value)[k] by {
                        let i = index_of(self.keys@, k);
                        assert(has_key(self.keys@, k));
                        self.lemma_entry(i);
                        if i < last {
                            assert(before.keys@[i]@ == k);
                            before.lemma_entry(i);
                        }
                    }
                    assert(self@ =~= before@.insert(key@, value));
                }
                None
            },
        }
    }

    /// Takes the entry of `key` out and hands its value back; the other
    /// entries keep their order.
    pub fn remove(&mut self, key: &str) -> (taken: Option<V>)
        requires
            old(self).wf(),
        ensures
            final(self).wf(),
            final(self)@ == old(self)@.remove(key@),
            taken == (if old(self)@.contains_key(key@) {
                Some(old(self)@[key@])
            } else {
                None
            }),
            !old(self)@.contains_key(key@) ==> *final(self) == *old(self),
            old(self)@.contains_key(key@) ==> final(self).keys@ == old(self).keys@.remove(
                index_of(old(self).keys@, key@),
            ) && final(self).values@ == old(self).values@.remove(index_of(old(self).keys@, key@)),
    {
        let ghost before = *self;
        match self.position(key) {
            Some(at) => {
                proof {
                    before.lemma_entry(at as int);
                }
                let _ = self.keys.remove(at);
                let taken = self.values.remove(at);
                proof {
                    let gone = at as int;
                    assert forall|i: int, j: int| 0 <= i < j < self.keys@.len() implies self.keys@[i]@
                        != self.keys@[j]@ by {
                        let bi = if i < gone { i } else { i + 1 };
                        let bj = if j < gone { j } else { j + 1 };
                        assert(before.keys@[bi]@ != before.keys@[bj]@);
                    }
                    assert forall|k: Seq<char>| #[trigger]
                        self@.contains_key(k) == before@.remove(key@).contains_key(k) by {
                        if has_key(self.keys@, k) {
                            let i = index_of(self.keys@, k);
                            let bi = if i < gone { i } else { i + 1 };
                            assert(before.keys@[bi]@ == k);
                            assert(has_key(before.keys@, k));
                            if bi < gone {
                                assert(before.keys@[bi]@ != before.keys@[gone]@);
                            } else {
                                assert(before.keys@[gone]@ != before.keys@[bi]@);
                            }
                        }
                        if has_key(before.keys@, k) && k != key@ {
                            let bi = index_of(before.keys@, k);
                            let i = if bi < gone { bi } else { bi - 1 };
                            assert(self.keys@[i]@ == k);
                        }
                    }
                    assert forall|k: Seq<char>| #[trigger]
                        self@.contains_key(k) implies self@[k] == before@.remove(key@)[k] by {
                        assert(has_key(self.keys@, k));
                        let i = index_of(self.keys@, k);
                        self.lemma_entry(i);
                        let bi = if i < gone { i } else { i + 1 };
                        assert(before.keys@[bi]@ == k);
                        before.lemma_entry(bi);
                    }
                    assert(self@ =~= before@.remove(key@));
                }
                Some(taken)
            },
            None => {
                proof {
                    assert(self@ =~= before@.remove(key@));
                }
                None
            },
        }
    }
}

} // verus!
