//! The erased value store: for each key, the handle of the value stored
//! under it. The store hands a handle out or takes one in as a whole; it
//! never looks inside one. Every way out of the store moves the handle,
//! so no value can leave, or be dropped, twice.
use crate::erased::Erased;
use core::hash::Hash;
use std::collections::hash_map::Keys;
use std::collections::hash_map::Values;
use std::collections::HashMap;
use vstd::prelude::*;
use vstd::std_specs::hash::obeys_key_model;
use vstd::std_specs::iter::IteratorSpec;

verus! {

broadcast use vstd::std_specs::hash::group_hash_axioms;

/// `HashMap::get_mut` with the map's own key type. `Some` exactly when
/// the key is present, and then an exclusive reference to the value under
/// it: once the borrow ends the map holds under that key whatever was
/// written, and is otherwise as before.
#[verifier::external_body]
fn entry_mut<'a, K: Hash + Eq, V>(map: &'a mut HashMap<K, V>, key: &K) -> (found: Option<&'a mut V>)
    ensures
        obeys_key_model::<K>() ==> (found is Some <==> old(map)@.contains_key(*key)),
        obeys_key_model::<K>() ==> (found matches Some(value) ==> {
            &&& *value == old(map)@[*key]
            &&& final(map)@ == old(map)@.insert(*key, *final(value))
        }),
        obeys_key_model::<K>() ==> (found is None ==> final(map)@ == old(map)@),
{
    map.get_mut(key)
}

/// The handles of the stored values, by key.
pub struct Store<K> {
    items: HashMap<K, Erased>,
}

impl<K> View for Store<K> {
    type V = Map<K, Erased>;

    closed spec fn view(&self) -> Map<K, Erased> {
        self.items@
    }
}

impl<K: Hash + Eq> Store<K> {
    /// A store without values.
    pub fn new() -> (store: Self)
        ensures
            store@ == Map::<K, Erased>::empty(),
    {
        Store { items: HashMap::new() }
    }

    /// Whether a value is stored under `key`.
    pub fn contains(&self, key: &K) -> (present: bool)
        requires
            obeys_key_model::<K>(),
        ensures
            present == self@.contains_key(*key),
    {
        self.items.contains_key(key)
    }

    /// Puts `handle` under `key` and hands back the handle that was there
    /// before, if any. The caller becomes the owner of what comes back.
    pub fn store(&mut self, key: K, handle: Erased) -> (prior: Option<Erased>)
        requires
            obeys_key_model::<K>(),
        ensures
            final(self)@ == old(self)@.insert(key, handle),
            prior == if old(self)@.contains_key(key) {
                Some(old(self)@[key])
            } else {
                None
            },
    {
        self.items.insert(key, handle)
    }

    /// The handle under `key`, if any.
    pub fn peek(&self, key: &K) -> (found: Option<&Erased>)
        requires
            obeys_key_model::<K>(),
        ensures
            found == if self@.contains_key(*key) {
                Some(&self@[*key])
            } else {
                None
            },
    {
        self.items.get(key)
    }

    /// The handle under `key`, if any, for writing. When the borrow ends
    /// the store holds under `key` what the handle has become.
    pub fn peek_mut(&mut self, key: &K) -> (found: Option<&mut Erased>)
        requires
            obeys_key_model::<K>(),
        ensures
            found is Some <==> old(self)@.contains_key(*key),
            found matches Some(handle) ==> {
                &&& *handle == old(self)@[*key]
                &&& final(self)@ == old(self)@.insert(*key, *final(handle))
            },
            found is None ==> final(self)@ == old(self)@,
    {
        entry_mut(&mut self.items, key)
    }

    /// Removes the handle under `key`, if any, and hands it to the caller.
    pub fn take(&mut self, key: &K) -> (taken: Option<Erased>)
        requires
            obeys_key_model::<K>(),
        ensures
            final(self)@ == old(self)@.remove(*key),
            taken == if old(self)@.contains_key(*key) {
                Some(old(self)@[*key])
            } else {
                None
            },
    {
        self.items.remove(key)
    }

    /// The keys of the stored values, each once, in the order of the
    /// backing table.
    pub fn keys(&self) -> (keys: Keys<'_, K, Erased>)
        requires
            obeys_key_model::<K>(),
        ensures
            keys.remaining().unref().to_set() == self@.dom(),
            keys.remaining().no_duplicates(),
    {
        self.items.keys()
    }

    /// The handles of the stored values, in the order of the backing
    /// table.
    pub fn values(&self) -> (values: Values<'_, K, Erased>)
        requires
            obeys_key_model::<K>(),
        ensures
            values.remaining().unref().to_set() == self@.values(),
            values.remaining().len() == self@.dom().len(),
    {
        self.items.values()
    }
}

} // verus!
