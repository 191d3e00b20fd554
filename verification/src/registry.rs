//! The type relation registry: for each key, the identifier of the type
//! that was first stored under it. The registry never touches a value.
use core::any::TypeId;
use core::hash::Hash;
use crate::erased::same_tag;
use std::collections::HashMap;
use vstd::prelude::*;
use vstd::std_specs::hash::obeys_key_model;

verus! {

broadcast use vstd::std_specs::hash::group_hash_axioms;

/// `Clone::clone` on a key. A key type that obeys the hash-table key
/// model clones to a value identical to the original; that is one of the
/// three conditions the model consists of.
#[verifier::external_body]
fn clone_key<K: Clone>(key: &K) -> (copy: K)
    ensures
        obeys_key_model::<K>() ==> copy == *key,
{
    key.clone()
}

/// Which type each key is bound to.
pub struct Registry<K> {
    relations: HashMap<K, TypeId>,
}

impl<K> View for Registry<K> {
    type V = Map<K, TypeId>;

    closed spec fn view(&self) -> Map<K, TypeId> {
        self.relations@
    }
}

impl<K: Hash + Eq + Clone> Registry<K> {
    /// A registry without relations.
    pub fn new() -> (registry: Self)
        ensures
            registry@ == Map::<K, TypeId>::empty(),
    {
        Registry { relations: HashMap::new() }
    }

    /// The identifier bound to `key`, if there is one.
    pub fn lookup(&self, key: &K) -> (found: Option<TypeId>)
        requires
            obeys_key_model::<K>(),
        ensures
            found == if self@.contains_key(*key) {
                Some(self@[*key])
            } else {
                None
            },
    {
        match self.relations.get(key) {
            Some(tag) => Some(*tag),
            None => None,
        }
    }

    /// Binds `key` to `tag` if `key` is unbound, and reports success; if
    /// `key` is bound already, changes nothing and reports whether it is
    /// bound to `tag`.
    pub fn establish_or_check(&mut self, key: &K, tag: TypeId) -> (ok: bool)
        requires
            obeys_key_model::<K>(),
        ensures
            ok == (old(self)@.contains_key(*key) ==> old(self)@[*key] == tag),
            final(self)@ == if old(self)@.contains_key(*key) {
                old(self)@
            } else {
                old(self)@.insert(*key, tag)
            },
    {
        match self.relations.get(key) {
            Some(actual) => same_tag(actual, &tag),
            None => {
                self.relations.insert(clone_key(key), tag);
                true
            },
        }
    }

    /// Removes the relation of `key`, if there is one.
    pub fn clear(&mut self, key: &K)
        requires
            obeys_key_model::<K>(),
        ensures
            final(self)@ == old(self)@.remove(*key),
    {
        self.relations.remove(key);
    }
}

} // verus!
