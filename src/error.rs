use std::marker::PhantomData;

use vstd::prelude::*;

use crate::array;

verus! {

/// Error of a [`Reference`](crate::Reference) of `T`.
#[derive(Debug)]
pub enum Error<T> {
    /// The index was found in a state it should never be in.
    InsertError(String),
    /// A caller-supplied update of an entity failed; the entity is unchanged.
    UpdateError(String),
    /// The backing array failed, above all because its capacity is filled.
    Other(array::Error),
    /// Ties the error to the kind of entity; never constructed.
    _Phantom(PhantomData<T>),
}

impl<T> Error<T> {
    /// A human-readable description of the error.
    pub fn message(&self) -> String {
        match self {
            Error::InsertError(message) => insert_error_message(message),
            Error::UpdateError(message) => update_error_message(message),
            Error::Other(source) => source.message(),
            Error::_Phantom(_) => String::new(),
        }
    }
}

/// Relies on `format!`: prefixes the message.
#[verifier::external_body]
fn insert_error_message(message: &String) -> String {
    format!("Insert error: {}", message)
}

/// Relies on `format!`: prefixes the message.
#[verifier::external_body]
fn update_error_message(message: &String) -> String {
    format!("Update error: {}", message)
}

} // verus!
