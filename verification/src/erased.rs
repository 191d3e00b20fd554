//! Owned values whose static type has been erased, and the type
//! identifiers that gate access to them.
//!
//! Verus has no model of `dyn Any`, so a handle is opaque here and
//! everything known about one comes from the contracts of the few functions
//! in this file that touch `core::any`. Two relations carry the typed
//! facts:
//!
//! * [`identifies`] relates a `TypeId` to the type it was computed for;
//! * [`Erased::holds`] relates a handle to the typed value it owns.
//!
//! Both are the input/output relation of the function that creates the
//! thing (`TypeId::of`, boxing a value), in the way `vstd`'s `cloned`
//! is the input/output relation of `Clone::clone`.
use core::any::Any;
use core::any::TypeId;
use vstd::prelude::*;

verus! {

/// `core::any::TypeId`, carried through verified code as an opaque value.
#[verifier::external_type_specification]
#[verifier::external_body]
pub struct ExTypeId(core::any::TypeId);

/// An owned, heap-allocated value of some `'static` type that is no longer
/// known statically. The handle is the only owner of the value: dropping
/// the handle releases it, and moving the value out consumes the handle.
#[verifier::external_body]
pub struct Erased {
    inner: Box<dyn Any>,
}

/// The identifier that `Any::type_id` reports for the value inside `handle`:
/// the identifier of the concrete type the handle was created from.
pub uninterp spec fn erased_type(handle: Erased) -> TypeId;

/// The text that `Debug` prints for `tag`.
pub uninterp spec fn tag_description(tag: TypeId) -> Seq<char>;

/// `tag` is an identifier that `TypeId::of::<T>()` returns.
pub closed spec fn identifies<T: 'static>(tag: TypeId) -> bool {
    call_ensures(type_id_of::<T>, (), tag)
}

/// No identifier stands for both `T` and `U`: the two are different types.
pub open spec fn differ<T: 'static, U: 'static>() -> bool {
    forall|tag: TypeId| !(#[trigger] identifies::<T>(tag) && identifies::<U>(tag))
}

impl Erased {
    /// The value inside the handle has type `T`: the handle's identifier
    /// stands for `T`, and it is the only identifier that does.
    pub open spec fn has_type<T: 'static>(self) -> bool {
        &&& identifies::<T>(erased_type(self))
        &&& forall|tag: TypeId| #[trigger] identifies::<T>(tag) ==> tag == erased_type(self)
    }

    /// The handle owns exactly `value`: erasing `value` yields this handle.
    pub closed spec fn holds<T: 'static>(self, value: T) -> bool {
        call_ensures(erase::<T>, (value,), self)
    }

    /// The handle owns some value of type `T`.
    pub open spec fn holds_some<T: 'static>(self) -> bool {
        exists|value: T| self.holds(value)
    }

    /// A handle that owns a `T` has type `T`.
    pub proof fn lemma_holds_has_type<T: 'static>(self, value: T)
        requires
            self.holds(value),
        ensures
            self.has_type::<T>(),
    {
    }

    /// A handle owns values of one type only.
    pub proof fn lemma_one_type<T: 'static, U: 'static>(self, value: T)
        requires
            self.holds(value),
            differ::<T, U>(),
        ensures
            !self.holds_some::<U>(),
    {
        assert forall|other: U| !self.holds(other) by {
            if self.holds(other) {
                self.lemma_holds_has_type(value);
                self.lemma_holds_has_type(other);
                assert(identifies::<T>(erased_type(self)) && identifies::<U>(erased_type(self)));
            }
        }
    }

    /// Moves `value` to the heap and forgets its type.
    pub fn new<T: 'static>(value: T) -> (handle: Erased)
        ensures
            handle.holds(value),
            handle.has_type::<T>(),
    {
        erase(value)
    }

    /// Whether the value inside has type `T`.
    pub fn is<T: 'static>(&self) -> (yes: bool)
        ensures
            yes == self.has_type::<T>(),
            yes == identifies::<T>(erased_type(*self)),
            !yes ==> !self.holds_some::<T>(),
    {
        let yes = is_type::<T>(self);
        proof {
            if !yes {
                assert forall|value: T| !self.holds(value) by {
                    if self.holds(value) {
                        self.lemma_holds_has_type(value);
                    }
                }
            }
        }
        yes
    }

    /// A shared reference to the value inside, if it has type `T`.
    pub fn downcast_ref<T: 'static>(&self) -> (found: Option<&T>)
        ensures
            found matches Some(value) ==> self.holds(*value),
            forall|value: T| self.holds(value) ==> found == Some(&value),
            found is Some <==> identifies::<T>(erased_type(*self)),
    {
        peek::<T>(self)
    }

    /// An exclusive reference to the value inside, if it has type `T`.
    /// Writing through the reference changes the value the handle owns and
    /// leaves its type as it was.
    pub fn downcast_mut<T: 'static>(&mut self) -> (found: Option<&mut T>)
        ensures
            found matches Some(value) ==> {
                &&& old(self).holds(*value)
                &&& final(self).holds(*final(value))
                &&& erased_type(*final(self)) == erased_type(*old(self))
            },
            found is None ==> *final(self) == *old(self),
            forall|value: T| old(self).holds(value) ==> found is Some && *found->Some_0 == value,
            found is Some <==> identifies::<T>(erased_type(*old(self))),
    {
        peek_mut::<T>(self)
    }

    /// Moves the value out if it has type `T`; otherwise hands the handle
    /// back untouched.
    pub fn downcast<T: 'static>(self) -> (taken: Result<Box<T>, Erased>)
        ensures
            taken matches Ok(value) ==> self.holds(*value),
            taken matches Err(handle) ==> handle == self,
            forall|value: T| self.holds(value) ==> taken is Ok && *taken->Ok_0 == value,
            taken is Ok <==> identifies::<T>(erased_type(self)),
    {
        take::<T>(self)
    }
}

/// The identifier of `T`.
pub fn type_tag<T: 'static>() -> (tag: TypeId)
    ensures
        identifies::<T>(tag),
{
    type_id_of::<T>()
}

/// `TypeId::of::<T>()`. The contract is empty: [`identifies`] is by
/// definition the set of identifiers this call returns, and what is known
/// of that set is stated where a handle is created ([`erase`]).
#[verifier::external_body]
fn type_id_of<T: 'static>() -> (tag: TypeId) {
    TypeId::of::<T>()
}

/// `==` on `TypeId`: two identifiers compare equal exactly when they are
/// the same identifier.
#[verifier::external_body]
pub(crate) fn same_tag(a: &TypeId, b: &TypeId) -> (same: bool)
    ensures
        same == (*a == *b),
{
    *a == *b
}

/// `Debug` formatting of a `TypeId`: the text depends on the identifier
/// alone.
#[verifier::external_body]
pub(crate) fn describe_tag(tag: &TypeId) -> (text: String)
    ensures
        text@ == tag_description(*tag),
{
    format!("{:?}", tag)
}

/// `Box::new` followed by the unsizing coercion to `Box<dyn Any>`. The
/// value inside the new handle reports `TypeId::of::<T>()` as its
/// identifier, and `TypeId::of::<T>()` never returns anything else.
#[verifier::external_body]
fn erase<T: 'static>(value: T) -> (handle: Erased)
    ensures
        handle.has_type::<T>(),
{
    Erased { inner: Box::new(value) }
}

/// `<dyn Any>::is::<T>()`: compares the identifier of the value inside with
/// `TypeId::of::<T>()`.
#[verifier::external_body]
fn is_type<T: 'static>(handle: &Erased) -> (yes: bool)
    ensures
        yes == handle.has_type::<T>(),
        yes == identifies::<T>(erased_type(*handle)),
{
    handle.inner.is::<T>()
}

/// `<dyn Any>::downcast_ref::<T>()`: `Some` exactly when the value inside has
/// type `T`, and then a reference to that very value.
#[verifier::external_body]
fn peek<T: 'static>(handle: &Erased) -> (found: Option<&T>)
    ensures
        found matches Some(value) ==> handle.holds(*value),
        forall|value: T| handle.holds(value) ==> found == Some(&value),
        found is Some <==> identifies::<T>(erased_type(*handle)),
{
    handle.inner.downcast_ref::<T>()
}

/// `<dyn Any>::downcast_mut::<T>()`: `Some` exactly when the value inside has
/// type `T`, and then an exclusive reference to that very value. Whatever
/// is written through it, the handle afterwards owns the written value,
/// still of type `T`. On `None` the handle is untouched.
#[verifier::external_body]
fn peek_mut<T: 'static>(handle: &mut Erased) -> (found: Option<&mut T>)
    ensures
        found matches Some(value) ==> {
            &&& old(handle).holds(*value)
            &&& final(handle).holds(*final(value))
            &&& erased_type(*final(handle)) == erased_type(*old(handle))
        },
        found is None ==> *final(handle) == *old(handle),
        forall|value: T| old(handle).holds(value) ==> found is Some && *found->Some_0 == value,
        found is Some <==> identifies::<T>(erased_type(*old(handle))),
{
    handle.inner.downcast_mut::<T>()
}

/// `Box<dyn Any>::downcast::<T>()`: `Ok` exactly when the value inside has
/// type `T`, and then that very value in its box; otherwise `Err` with the
/// handle as it was.
#[verifier::external_body]
fn take<T: 'static>(handle: Erased) -> (taken: Result<Box<T>, Erased>)
    ensures
        taken matches Ok(value) ==> handle.holds(*value),
        taken matches Err(back) ==> back == handle,
        forall|value: T| handle.holds(value) ==> taken is Ok && *taken->Ok_0 == value,
        taken is Ok <==> identifies::<T>(erased_type(handle)),
{
    match handle.inner.downcast::<T>() {
        Ok(value) => Ok(value),
        Err(inner) => Err(Erased { inner }),
    }
}

} // verus!
