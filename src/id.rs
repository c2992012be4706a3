use std::marker::PhantomData;

use vstd::prelude::*;

verus! {

/// Identifier of an entity of kind `T`.
///
/// The kind is a compile-time tag only: identifiers of different kinds cannot
/// be mixed up, while each one is a plain `i32` at run time. Equality and the
/// conversions go by the integer alone. The value `0` stands for "no reference".
#[derive(Debug)]
pub struct Id<T> {
    id: i32,
    _phantom: PhantomData<T>,
}

impl<T> View for Id<T> {
    type V = i32;

    closed spec fn view(&self) -> i32 {
        self.id
    }
}

impl<T> Id<T> {
    pub fn new(id: i32) -> (r: Self)
        ensures
            r@ == id,
    {
        Id { id, _phantom: PhantomData }
    }

    pub fn as_i32(self) -> (r: i32)
        ensures
            r == self@,
    {
        self.id
    }
}

impl<T> Clone for Id<T> {
    fn clone(&self) -> (r: Self)
        ensures
            r == *self,
    {
        *self
    }
}

impl<T> Copy for Id<T> {
}

impl<T> PartialEq for Id<T> {
    fn eq(&self, other: &Self) -> (r: bool)
        ensures
            r == (self@ == other@),
    {
        self.id == other.id
    }
}

impl<T> vstd::std_specs::cmp::PartialEqSpecImpl for Id<T> {
    open spec fn obeys_eq_spec() -> bool {
        true
    }

    open spec fn eq_spec(&self, other: &Self) -> bool {
        self@ == other@
    }
}

impl<T> Eq for Id<T> {
}

/// Identifiers are ordered by their payload.
pub open spec fn compare(a: i32, b: i32) -> std::cmp::Ordering {
    if a < b {
        std::cmp::Ordering::Less
    } else if a == b {
        std::cmp::Ordering::Equal
    } else {
        std::cmp::Ordering::Greater
    }
}

impl<T> PartialOrd for Id<T> {
    fn partial_cmp(&self, other: &Self) -> (r: Option<std::cmp::Ordering>)
        ensures
            r == Some(compare(self@, other@)),
    {
        if self.id < other.id {
            Some(std::cmp::Ordering::Less)
        } else if self.id == other.id {
            Some(std::cmp::Ordering::Equal)
        } else {
            Some(std::cmp::Ordering::Greater)
        }
    }
}

impl<T> vstd::std_specs::cmp::PartialOrdSpecImpl for Id<T> {
    open spec fn obeys_partial_cmp_spec() -> bool {
        true
    }

    open spec fn partial_cmp_spec(&self, other: &Self) -> Option<std::cmp::Ordering> {
        Some(compare(self@, other@))
    }
}

impl<T> std::hash::Hash for Id<T> {
    /// Relies on `Hasher::write_i32`: hashes the payload alone.
    #[verifier::external_body]
    fn hash<H: std::hash::Hasher>(&self, state: &mut H) {
        state.write_i32(self.id);
    }
}

impl<T> Default for Id<T> {
    fn default() -> (r: Self)
        ensures
            r@ == 0,
    {
        Id::new(0)
    }
}

impl<T> From<i32> for Id<T> {
    fn from(id: i32) -> (r: Self)
        ensures
            r@ == id,
    {
        Id::new(id)
    }
}

impl<T> vstd::std_specs::convert::FromSpecImpl<i32> for Id<T> {
    open spec fn obeys_from_spec() -> bool {
        true
    }

    open spec fn from_spec(id: i32) -> Self {
        Id::<T>::spec_new(id)
    }
}

impl<T> From<Id<T>> for i32 {
    fn from(id: Id<T>) -> (r: i32)
        ensures
            r == id@,
    {
        id.id
    }
}

impl<T> vstd::std_specs::convert::FromSpecImpl<Id<T>> for i32 {
    open spec fn obeys_from_spec() -> bool {
        true
    }

    open spec fn from_spec(id: Id<T>) -> i32 {
        id@
    }
}

impl<T> Id<T> {
    /// The identifier with payload `id`, as a value of the specification.
    pub closed spec fn spec_new(id: i32) -> Self {
        Id { id, _phantom: PhantomData }
    }
}

/// An entity that knows its own identifier.
///
/// The identifier is a pure function of the entity: `id` returns the same value
/// on every call for the entity's whole lifetime.
pub trait Identifiable: Sized {
    fn id(&self) -> Id<Self>;
}

} // verus!
