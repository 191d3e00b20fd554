//! The map itself: the operations that keep the registry and the store in
//! step and check the type of every access before a value is touched.
use crate::erased::describe_tag;
use crate::erased::erased_type;
use crate::erased::identifies;
use crate::erased::same_tag;
use crate::erased::tag_description;
use crate::erased::type_tag;
use crate::erased::Erased;
use crate::registry::Registry;
use crate::store::Store;
use core::any::TypeId;
use core::fmt::Debug;
use core::hash::Hash;
use std::collections::hash_map::Keys;
use std::collections::hash_map::Values;
use vstd::prelude::*;
use vstd::std_specs::hash::obeys_key_model;
use vstd::std_specs::iter::IteratorSpec;

verus! {

/// Why an insertion was refused.
#[derive(Debug)]
pub enum SafeAnyMapError {
    /// The key is occupied and the map does not allow double inserts.
    DoubleInsert,
    /// The key is occupied by a value of another type. `got` names the
    /// requested type, `exist` describes the type the key is bound to.
    ConflictingValueType { got: &'static str, exist: String },
    /// The value that was stored under the key is not of the type the
    /// registry has for it. A well-formed map never reports this.
    FailedDowncast { got: &'static str },
}

/// What a map holds: the handle and the type identifier under each key,
/// and the double-insert policy.
#[verifier::reject_recursive_types(K)]
pub struct Contents<K> {
    pub handles: Map<K, Erased>,
    pub tags: Map<K, TypeId>,
    pub allow_double_inserts: bool,
}

impl<K> Contents<K> {
    /// No key is occupied.
    pub open spec fn empty(allow_double_inserts: bool) -> Self {
        Contents { handles: Map::empty(), tags: Map::empty(), allow_double_inserts }
    }

    /// The two tables have the same keys, and the identifier under each key
    /// is that of the value under it.
    pub open spec fn consistent(self) -> bool {
        &&& self.tags.dom() =~= self.handles.dom()
        &&& forall|key: K| #[trigger]
            self.handles.contains_key(key) ==> self.tags[key] == erased_type(self.handles[key])
    }

    /// A value is stored under `key`.
    pub open spec fn contains_key(self, key: K) -> bool {
        self.handles.contains_key(key)
    }

    /// `value`, of type `T`, is stored under `key`.
    pub open spec fn has_value<T: 'static>(self, key: K, value: T) -> bool {
        self.handles.contains_key(key) && self.handles[key].holds(value)
    }

    /// Some value of type `T` is stored under `key`.
    pub open spec fn has_some<T: 'static>(self, key: K) -> bool {
        self.handles.contains_key(key) && self.handles[key].holds_some::<T>()
    }

    /// What `insert::<T>(key, value, requested)` may return from `self`, and
    /// the contents it then leaves.
    pub open spec fn insert_outcome<T: 'static>(
        self,
        key: K,
        value: T,
        requested: &'static str,
        result: Result<Option<Box<T>>, SafeAnyMapError>,
        post: Self,
    ) -> bool {
        &&& post.allow_double_inserts == self.allow_double_inserts
        &&& match result {
            Ok(prior) => {
                &&& match prior {
                    Some(previous) => self.allow_double_inserts && self.has_value(key, *previous),
                    None => !self.contains_key(key),
                }
                &&& post.has_value(key, value)
                &&& post.handles == self.handles.insert(key, post.handles[key])
                &&& post.tags == self.tags.insert(key, erased_type(post.handles[key]))
            },
            Err(SafeAnyMapError::DoubleInsert) => {
                &&& !self.allow_double_inserts
                &&& self.contains_key(key)
                &&& post == self
            },
            Err(SafeAnyMapError::ConflictingValueType { got, exist }) => {
                &&& self.allow_double_inserts
                &&& self.contains_key(key)
                &&& !self.has_some::<T>(key)
                &&& got == requested
                &&& exist@ == tag_description(self.tags[key])
                &&& post == self
            },
            Err(SafeAnyMapError::FailedDowncast { .. }) => false,
        }
        &&& forall|previous: T|
            self.allow_double_inserts && #[trigger] self.has_value(key, previous) ==> result
                == Ok::<Option<Box<T>>, SafeAnyMapError>(Some(Box::new(previous)))
    }

    /// What `get::<T>(key)` may return from `self`.
    pub open spec fn get_outcome<T: 'static>(self, key: K, found: Option<&T>) -> bool {
        &&& match found {
            Some(value) => self.has_value(key, *value),
            None => !self.has_some::<T>(key),
        }
        &&& forall|value: T| #[trigger] self.has_value(key, value) ==> found == Some(&value)
    }

    /// What `get_mut::<T>(key)` may find in `self`, and the contents that
    /// are left once `written` has been written through the reference.
    pub open spec fn get_mut_outcome<T: 'static>(
        self,
        key: K,
        found: Option<T>,
        written: Option<T>,
        post: Self,
    ) -> bool {
        &&& post.allow_double_inserts == self.allow_double_inserts
        &&& post.tags == self.tags
        &&& match found {
            Some(value) => {
                &&& self.has_value(key, value)
                &&& written is Some
                &&& post.has_value(key, written->Some_0)
                &&& post.handles == self.handles.insert(key, post.handles[key])
            },
            None => !self.has_some::<T>(key) && post == self,
        }
        &&& forall|value: T| #[trigger] self.has_value(key, value) ==> found == Some(value)
    }

    /// What `remove::<T>(key)` may return from `self`, and the contents it
    /// then leaves.
    pub open spec fn remove_outcome<T: 'static>(self, key: K, taken: Option<T>, post: Self) -> bool {
        &&& post.allow_double_inserts == self.allow_double_inserts
        &&& match taken {
            Some(value) => {
                &&& self.has_value(key, value)
                &&& post.handles == self.handles.remove(key)
                &&& post.tags == self.tags.remove(key)
            },
            None => !self.has_some::<T>(key) && post == self,
        }
        &&& forall|value: T| #[trigger] self.has_value(key, value) ==> taken == Some(value)
    }
}

/// A map from keys of type `K` to values of any `'static` type. The first
/// value stored under a key fixes the type for that key; every later access
/// names a type and is served only if it is that one.
pub struct SafeAnyMap<K> {
    items: Store<K>,
    relations: Registry<K>,
    allow_double_inserts: bool,
}

impl<K> View for SafeAnyMap<K> {
    type V = Contents<K>;

    closed spec fn view(&self) -> Contents<K> {
        Contents {
            handles: self.items@,
            tags: self.relations@,
            allow_double_inserts: self.allow_double_inserts,
        }
    }
}

impl<K> SafeAnyMap<K> where K: Hash + Eq + Clone + Debug {
    /// The key type behaves as a hash-table key should, and the registry
    /// and the store agree.
    pub open spec fn wf(&self) -> bool {
        obeys_key_model::<K>() && self@.consistent()
    }

    /// An empty map that refuses to replace a value.
    pub fn new() -> (map: Self)
        requires
            obeys_key_model::<K>(),
        ensures
            map.wf(),
            map@ == Contents::<K>::empty(false),
    {
        SafeAnyMap { items: Store::new(), relations: Registry::new(), allow_double_inserts: false }
    }

    /// An empty map in which inserting under an occupied key replaces
    /// the value, provided the type is the same.
    pub fn new_double_inserts() -> (map: Self)
        requires
            obeys_key_model::<K>(),
        ensures
            map.wf(),
            map@ == Contents::<K>::empty(true),
    {
        SafeAnyMap { items: Store::new(), relations: Registry::new(), allow_double_inserts: true }
    }

    /// The keys under which a value is stored, each once, in no
    /// particular order.
    pub fn keys(&self) -> (keys: Keys<'_, K, Erased>)
        requires
            self.wf(),
        ensures
            keys.remaining().unref().to_set() == self@.handles.dom(),
            keys.remaining().no_duplicates(),
    {
        self.items.keys()
    }

    /// The handles of the stored values, in no particular order.
    pub fn values(&self) -> (values: Values<'_, K, Erased>)
        requires
            self.wf(),
        ensures
            values.remaining().unref().to_set() == self@.handles.values(),
            values.remaining().len() == self@.handles.dom().len(),
    {
        self.items.values()
    }

    /// Stores `value` under `key`. `requested` names `T` for the error
    /// report.
    ///
    /// An occupied key is refused with `DoubleInsert` unless the map allows
    /// double inserts. If it does, a key occupied by a value of another
    /// type is refused with `ConflictingValueType`, and a key occupied by a
    /// `T` gets the new value while the old one is handed back. A refused
    /// insertion changes nothing.
    pub fn insert<T: Sized>(&mut self, key: K, value: T, requested: &'static str) -> (result: Result<
        Option<Box<T>>,
        SafeAnyMapError,
    >) where T: Hash + 'static
        requires
            old(self).wf(),
        ensures
            final(self).wf(),
            old(self)@.insert_outcome(key, value, requested, result, final(self)@),
    {
        let handle = Erased::new(value);

        if !self.allow_double_inserts && self.items.contains(&key) {
            return Err(SafeAnyMapError::DoubleInsert);
        }
        if !self.check_or_insert_existing_relation::<T>(&key, &handle) {
            proof {
                Self::lemma_tag_mismatch::<T>(old(self)@, key);
            }
            let exist = match self.relations.lookup(&key) {
                Some(actual) => describe_tag(&actual),
                None => String::new(),
            };
            return Err(SafeAnyMapError::ConflictingValueType { got: requested, exist });
        }
        match self.items.store(key, handle) {
            Some(prior) => {
                match prior.downcast::<T>() {
                    Ok(previous) => Ok(Some(previous)),
                    Err(_) => Err(SafeAnyMapError::FailedDowncast { got: requested }),
                }
            },
            None => Ok(None),
        }
    }

    /// A shared reference to the value under `key`, if it is a `T`. A key
    /// that is vacant and a key that holds another type both give `None`.
    pub fn get<T: Sized>(&self, key: &K) -> (found: Option<&T>) where T: Hash + 'static
        requires
            self.wf(),
        ensures
            self@.get_outcome(*key, found),
    {
        match self.relations.lookup(key) {
            Some(actual) => {
                if !same_tag(&actual, &type_tag::<T>()) {
                    proof {
                        Self::lemma_tag_mismatch::<T>(self@, *key);
                    }
                    return None;
                }
                match self.items.peek(key) {
                    Some(item) => item.downcast_ref::<T>(),
                    None => None,
                }
            },
            None => None,
        }
    }

    /// An exclusive reference to the value under `key`, if it is a `T`.
    /// Writing through it replaces the value in place; the type bound to
    /// the key stays.
    pub fn get_mut<T: Sized>(&mut self, key: &K) -> (found: Option<&mut T>) where T: Hash + 'static
        requires
            old(self).wf(),
        ensures
            final(self).wf(),
            old(self)@.get_mut_outcome(
                *key,
                match found {
                    Some(value) => Some(*value),
                    None => None,
                },
                match found {
                    Some(value) => Some(*final(value)),
                    None => None,
                },
                final(self)@,
            ),
    {
        match self.relations.lookup(key) {
            Some(actual) => {
                if !same_tag(&actual, &type_tag::<T>()) {
                    proof {
                        Self::lemma_tag_mismatch::<T>(self@, *key);
                    }
                    return None;
                }
                match self.items.peek_mut(key) {
                    Some(item) => item.downcast_mut::<T>(),
                    None => None,
                }
            },
            None => None,
        }
    }

    /// Removes the value under `key` and hands it over, if it is a `T`.
    /// Otherwise nothing changes.
    pub fn remove<T: Sized>(&mut self, key: &K) -> (taken: Option<T>) where T: Hash + 'static
        requires
            old(self).wf(),
        ensures
            final(self).wf(),
            old(self)@.remove_outcome(*key, taken, final(self)@),
    {
        match self.relations.lookup(key) {
            Some(actual) => {
                if !same_tag(&actual, &type_tag::<T>()) {
                    proof {
                        Self::lemma_tag_mismatch::<T>(self@, *key);
                    }
                    return None;
                }
                if self.items.contains(key) {
                    self.relations.clear(key);
                    match self.items.take(key) {
                        Some(item) => {
                            match item.downcast::<T>() {
                                Ok(value) => Some(*value),
                                Err(_) => None,
                            }
                        },
                        None => None,
                    }
                } else {
                    None
                }
            },
            None => None,
        }
    }

    /// Checks `key` against `T`, binding it to `T` if it is unbound.
    /// `value` is the handle about to be stored; it has to be a `T` too.
    fn check_or_insert_existing_relation<T: 'static>(&mut self, key: &K, value: &Erased) -> (ok:
        bool)
        requires
            obeys_key_model::<K>(),
        ensures
            final(self).items == old(self).items,
            final(self).allow_double_inserts == old(self).allow_double_inserts,
            ok ==> value.has_type::<T>(),
            value.has_type::<T>() ==> ok == (old(self).relations@.contains_key(*key) ==> old(
                self,
            ).relations@[*key] == erased_type(*value)),
            final(self).relations@ == if ok {
                old(self).relations@.insert(*key, erased_type(*value))
            } else {
                old(self).relations@
            },
    {
        let requested_type_id = type_tag::<T>();
        if value.is::<T>() {
            self.relations.establish_or_check(key, requested_type_id)
        } else {
            false
        }
    }

    /// A key whose identifier is not one of `T` holds no `T`.
    proof fn lemma_tag_mismatch<T: 'static>(contents: Contents<K>, key: K)
        requires
            contents.consistent(),
            contents.contains_key(key),
            exists|tag: TypeId| identifies::<T>(tag) && tag != contents.tags[key],
        ensures
            !contents.has_some::<T>(key),
    {
        assert forall|value: T| !contents.handles[key].holds(value) by {
            if contents.handles[key].holds(value) {
                contents.handles[key].lemma_holds_has_type(value);
            }
        }
    }
}

} // verus!
