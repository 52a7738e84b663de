//! A table that lets several text keys lead to one handle, kept in a
//! `multi_key_map::MultiKeyMap`.
//!
//! A handle is a number by which the host finds what was registered: a codec
//! or an observer.
use vstd::prelude::*;
use multi_key_map::MultiKeyMap;
use crate::text::same_text;

verus! {

#[verifier::external_type_specification]
#[verifier::external_body]
#[verifier::reject_recursive_types(K)]
#[verifier::reject_recursive_types(V)]
pub struct ExMultiKeyMap<K: core::hash::Hash + Eq, V>(MultiKeyMap<K, V>);

/// What a lookup finds in `map`: for each key that leads to a handle, that
/// handle.
pub uninterp spec fn table_entries(map: MultiKeyMap<String, u64>) -> Map<Seq<char>, u64>;

/// The keys that `map` knows, whether or not a lookup finds a handle under
/// them.
pub uninterp spec fn table_keys(map: MultiKeyMap<String, u64>) -> Set<Seq<char>>;

/// The texts that `keys` hold.
pub open spec fn spec_key_set(keys: Seq<String>) -> Set<Seq<char>> {
    Set::new(|key: Seq<char>| exists|i: int| 0 <= i < keys.len() && keys[i]@ == key)
}

/// `entries` with `handle` under each text of `keys`.
pub open spec fn spec_with_keys(entries: Map<Seq<char>, u64>, keys: Seq<String>, handle: u64) -> Map<
    Seq<char>,
    u64,
> {
    Map::new(
        |key: Seq<char>| entries.contains_key(key) || spec_key_set(keys).contains(key),
        |key: Seq<char>|
            if spec_key_set(keys).contains(key) {
                handle
            } else {
                entries[key]
            },
    )
}

/// Whether no two of `keys` hold the same text.
pub open spec fn spec_all_distinct(keys: Seq<String>) -> bool {
    forall|i: int, j: int| 0 <= i < j < keys.len() ==> keys[i]@ != keys[j]@
}

/// Makes an empty table with `MultiKeyMap::new`: it knows no key.
#[verifier::external_body]
fn table_new() -> (table: MultiKeyMap<String, u64>)
    ensures
        table_entries(table).dom() == Set::<Seq<char>>::empty(),
        table_keys(table) == Set::<Seq<char>>::empty(),
{
    MultiKeyMap::new()
}

/// Asks `MultiKeyMap::contains_key` whether the table knows `key`.
#[verifier::external_body]
fn table_contains_key(map: &MultiKeyMap<String, u64>, key: &str) -> (known: bool)
    ensures
        known == table_keys(*map).contains(key@),
{
    map.contains_key(key)
}

/// Looks `key` up with `MultiKeyMap::get` and copies the handle found.
#[verifier::external_body]
fn table_get(map: &MultiKeyMap<String, u64>, key: &str) -> (handle: Option<u64>)
    ensures
        handle == (if table_entries(*map).contains_key(key@) {
            Some(table_entries(*map)[key@])
        } else {
            None
        }),
{
    map.get(key).copied()
}

/// Registers `handle` under each of `keys` with `MultiKeyMap::insert_many`.
/// The keys must differ from each other and be new to the table: on a key
/// that occurs twice the outside method panics, and a key that the table
/// knows it may leave without a handle. For such keys every one of them
/// leads to `handle` afterwards, the other keys lead where they led, and
/// nothing is handed back.
#[verifier::external_body]
fn table_insert_many(map: &mut MultiKeyMap<String, u64>, keys: Vec<String>, handle: u64) -> (bumped:
    Vec<u64>)
    requires
        spec_all_distinct(keys@),
        forall|i: int| 0 <= i < keys@.len() ==> !table_keys(*old(map)).contains(keys@[i]@),
    ensures
        table_entries(*final(map)) == spec_with_keys(table_entries(*old(map)), keys@, handle),
        table_keys(*final(map)) == table_keys(*old(map)).union(spec_key_set(keys@)),
        bumped@.len() == 0,
{
    map.insert_many(keys, handle)
}

/// A table from text keys to handles in which every known key leads to a
/// handle.
pub struct Registry {
    pub map: MultiKeyMap<String, u64>,
}

impl View for Registry {
    type V = Map<Seq<char>, u64>;

    open spec fn view(&self) -> Map<Seq<char>, u64> {
        table_entries(self.map)
    }
}

impl Registry {
    /// The invariant: the keys the table knows are those that lead to a
    /// handle.
    pub open spec fn wf(&self) -> bool {
        table_keys(self.map) == table_entries(self.map).dom()
    }

    /// An empty registry.
    pub fn new() -> (registry: Registry)
        ensures
            registry.wf(),
            registry@ == Map::<Seq<char>, u64>::empty(),
    {
        let registry = Registry { map: table_new() };
        assert(registry@ =~= Map::<Seq<char>, u64>::empty());
        registry
    }

    /// The handle registered under `key`.
    pub fn get(&self, key: &str) -> (handle: Option<u64>)
        ensures
            handle == (if self@.contains_key(key@) {
                Some(self@[key@])
            } else {
                None
            }),
    {
        table_get(&self.map, key)
    }

    /// Tells whether a handle is registered under `key`.
    pub fn contains_key(&self, key: &str) -> (known: bool)
        requires
            self.wf(),
        ensures
            known == self@.contains_key(key@),
    {
        table_contains_key(&self.map, key)
    }

    /// Whether `keys` can be registered: they differ from each other and
    /// none of them is registered yet.
    pub open spec fn spec_accepts(&self, keys: Seq<String>) -> bool {
        spec_all_distinct(keys) && forall|i: int|
            0 <= i < keys.len() ==> !self@.contains_key(keys[i]@)
    }

    /// Tells whether `keys` can be registered.
    pub fn accepts(&self, keys: &Vec<String>) -> (accepted: bool)
        requires
            self.wf(),
        ensures
            accepted == self.spec_accepts(keys@),
    {
        let mut at: usize = 0;
        while at < keys.len()
            invariant
                self.wf(),
                at <= keys@.len(),
                forall|i: int, j: int| 0 <= i < j < at ==> keys@[i]@ != keys@[j]@,
                forall|i: int| 0 <= i < at ==> !self@.contains_key(keys@[i]@),
            decreases keys@.len() - at,
        {
            if self.contains_key(keys[at].as_str()) {
                return false;
            }
            let mut earlier: usize = 0;
            while earlier < at
                invariant
                    earlier <= at < keys@.len(),
                    forall|i: int| 0 <= i < earlier ==> keys@[i]@ != keys@[at as int]@,
                decreases at - earlier,
            {
                if same_text(keys[earlier].as_str(), keys[at].as_str()) {
                    return false;
                }
                earlier = earlier + 1;
            }
            at = at + 1;
        }
        true
    }

    /// Registers `handle` under each of `keys` and tells whether it did.
    /// Keys that do not differ from each other, or of which one is
    /// registered already, are refused as a whole, and the registry stays as
    /// it was.
    pub fn insert_many(&mut self, keys: Vec<String>, handle: u64) -> (registered: bool)
        requires
            old(self).wf(),
        ensures
            final(self).wf(),
            registered == old(self).spec_accepts(keys@),
            registered ==> final(self)@ == spec_with_keys(old(self)@, keys@, handle),
            !registered ==> final(self)@ == old(self)@,
    {
        if !self.accepts(&keys) {
            return false;
        }
        let _ = table_insert_many(&mut self.map, keys, handle);
        proof {
            assert(table_keys(self.map) =~= table_entries(self.map).dom());
        }
        true
    }
}

} // verus!
