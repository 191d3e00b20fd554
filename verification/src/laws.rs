//! What holds of the map across operations. Each law speaks of contents
//! and of the outcomes that the operations' contracts allow, so it holds of
//! every run of the verified code.
use crate::erased::differ;
use crate::map::Contents;
use crate::map::SafeAnyMapError;
use vstd::prelude::*;

verus! {

/// The registry and the store of consistent contents have the same keys:
/// a key is bound to a type exactly when a value is stored under it.
pub proof fn law_tables_agree<K>(contents: Contents<K>, key: K)
    requires
        contents.consistent(),
    ensures
        contents.tags.contains_key(key) <==> contents.handles.contains_key(key),
{
}

/// Whatever `insert` returns, it leaves consistent contents consistent.
pub proof fn law_insert_keeps_consistency<K, T: 'static>(
    pre: Contents<K>,
    key: K,
    value: T,
    requested: &'static str,
    result: Result<Option<Box<T>>, SafeAnyMapError>,
    post: Contents<K>,
)
    requires
        pre.consistent(),
        pre.insert_outcome(key, value, requested, result, post),
    ensures
        post.consistent(),
{
}

/// Whatever `get_mut` finds and whatever is written through the reference,
/// consistent contents stay consistent: the written value has the type of
/// the one it replaces.
pub proof fn law_get_mut_keeps_consistency<K, T: 'static>(
    pre: Contents<K>,
    key: K,
    found: Option<T>,
    written: Option<T>,
    post: Contents<K>,
)
    requires
        pre.consistent(),
        pre.get_mut_outcome(key, found, written, post),
    ensures
        post.consistent(),
{
    if let Some(value) = found {
        pre.handles[key].lemma_holds_has_type(value);
        post.handles[key].lemma_holds_has_type(written->Some_0);
    }
}

/// Whatever `remove` returns, it leaves consistent contents consistent.
pub proof fn law_remove_keeps_consistency<K, T: 'static>(
    pre: Contents<K>,
    key: K,
    taken: Option<T>,
    post: Contents<K>,
)
    requires
        pre.consistent(),
        pre.remove_outcome(key, taken, post),
    ensures
        post.consistent(),
{
}

/// Type lock. While a key holds a `T`, every access that names another
/// type `U` is turned away and changes nothing: `insert` fails, with
/// `ConflictingValueType` where double inserts are allowed and with
/// `DoubleInsert` where they are not, and `get` and `remove` find nothing.
pub proof fn law_type_lock<K, T: 'static, U: 'static>(
    contents: Contents<K>,
    key: K,
    value: U,
    requested: &'static str,
    inserted: Result<Option<Box<U>>, SafeAnyMapError>,
    after_insert: Contents<K>,
    found: Option<&U>,
    taken: Option<U>,
    after_remove: Contents<K>,
)
    requires
        differ::<T, U>(),
        contents.has_some::<T>(key),
        contents.insert_outcome(key, value, requested, inserted, after_insert),
        contents.get_outcome(key, found),
        contents.remove_outcome(key, taken, after_remove),
    ensures
        contents.allow_double_inserts ==> inserted matches Err(
            SafeAnyMapError::ConflictingValueType { .. },
        ),
        !contents.allow_double_inserts ==> inserted matches Err(SafeAnyMapError::DoubleInsert),
        after_insert == contents,
        found is None,
        taken is None,
        after_remove == contents,
{
    let held = choose|held: T| contents.handles[key].holds(held);
    contents.handles[key].lemma_one_type::<T, U>(held);
}

/// The lock stays on through every access that names `T` and does not
/// remove the value: after `insert::<T>` or `get_mut::<T>` on a key that
/// holds a `T`, the key holds a `T` still.
pub proof fn law_type_lock_kept<K, T: 'static>(
    contents: Contents<K>,
    key: K,
    value: T,
    requested: &'static str,
    inserted: Result<Option<Box<T>>, SafeAnyMapError>,
    after_insert: Contents<K>,
    found: Option<T>,
    written: Option<T>,
    after_get_mut: Contents<K>,
)
    requires
        contents.has_some::<T>(key),
        contents.insert_outcome(key, value, requested, inserted, after_insert),
        contents.get_mut_outcome(key, found, written, after_get_mut),
    ensures
        after_insert.has_some::<T>(key),
        after_get_mut.has_some::<T>(key),
{
}

/// An access to one key leaves every other key as it was.
pub proof fn law_other_keys_untouched<K, T: 'static>(
    contents: Contents<K>,
    key: K,
    other: K,
    value: T,
    requested: &'static str,
    inserted: Result<Option<Box<T>>, SafeAnyMapError>,
    after_insert: Contents<K>,
    found: Option<T>,
    written: Option<T>,
    after_get_mut: Contents<K>,
    taken: Option<T>,
    after_remove: Contents<K>,
)
    requires
        other != key,
        contents.insert_outcome(key, value, requested, inserted, after_insert),
        contents.get_mut_outcome(key, found, written, after_get_mut),
        contents.remove_outcome(key, taken, after_remove),
    ensures
        after_insert.handles.contains_key(other) == contents.handles.contains_key(other),
        after_insert.handles[other] == contents.handles[other],
        after_get_mut.handles.contains_key(other) == contents.handles.contains_key(other),
        after_get_mut.handles[other] == contents.handles[other],
        after_remove.handles.contains_key(other) == contents.handles.contains_key(other),
        after_remove.handles[other] == contents.handles[other],
{
}

/// Double inserts refused. Where double inserts are not allowed, a
/// second `insert` under a key fails with `DoubleInsert`, changes nothing,
/// and `get` still finds the first value.
pub proof fn law_double_insert_refused<K, T: 'static>(
    start: Contents<K>,
    key: K,
    first_value: T,
    second_value: T,
    requested: &'static str,
    first: Result<Option<Box<T>>, SafeAnyMapError>,
    middle: Contents<K>,
    second: Result<Option<Box<T>>, SafeAnyMapError>,
    end: Contents<K>,
    found: Option<&T>,
)
    requires
        !start.allow_double_inserts,
        start.insert_outcome(key, first_value, requested, first, middle),
        first is Ok,
        middle.insert_outcome(key, second_value, requested, second, end),
        end.get_outcome(key, found),
    ensures
        second matches Err(SafeAnyMapError::DoubleInsert),
        end == middle,
        found == Some(&first_value),
{
}

/// Double inserts allowed. Where they are, a second `insert` of the same
/// type under a key succeeds, hands back the first value, and `get` then
/// finds the second.
pub proof fn law_double_insert_replaces<K, T: 'static>(
    start: Contents<K>,
    key: K,
    first_value: T,
    second_value: T,
    requested: &'static str,
    first: Result<Option<Box<T>>, SafeAnyMapError>,
    middle: Contents<K>,
    second: Result<Option<Box<T>>, SafeAnyMapError>,
    end: Contents<K>,
    found: Option<&T>,
)
    requires
        start.allow_double_inserts,
        start.insert_outcome(key, first_value, requested, first, middle),
        first is Ok,
        middle.insert_outcome(key, second_value, requested, second, end),
        end.get_outcome(key, found),
    ensures
        second == Ok::<Option<Box<T>>, SafeAnyMapError>(Some(Box::new(first_value))),
        found == Some(&second_value),
{
}

/// Ownership round trip. A value that was inserted comes back from
/// `remove` under the same type; after that the key is vacant, so `get`
/// finds nothing and an `insert` of any type `U` succeeds.
pub proof fn law_round_trip<K, T: 'static, U: 'static>(
    start: Contents<K>,
    key: K,
    value: T,
    requested: &'static str,
    inserted: Result<Option<Box<T>>, SafeAnyMapError>,
    stored: Contents<K>,
    taken: Option<T>,
    emptied: Contents<K>,
    found: Option<&T>,
    next_value: U,
    next_requested: &'static str,
    next: Result<Option<Box<U>>, SafeAnyMapError>,
    end: Contents<K>,
)
    requires
        start.insert_outcome(key, value, requested, inserted, stored),
        inserted is Ok,
        stored.remove_outcome(key, taken, emptied),
        emptied.get_outcome(key, found),
        emptied.insert_outcome(key, next_value, next_requested, next, end),
    ensures
        taken == Some(value),
        !emptied.contains_key(key),
        !emptied.tags.contains_key(key),
        found is None,
        next == Ok::<Option<Box<U>>, SafeAnyMapError>(None),
        end.has_value(key, next_value),
{
}

} // verus!
