//! An identifier-indexed entity store: collections of entities that refer to
//! each other by integer identifier, even before the referenced entity exists.

pub mod array;
mod error;
pub mod history;
mod id;
mod slot;
mod store;
mod sync;
mod table;

pub use array::Array;
pub use error::Error;
pub use id::{Id, Identifiable};
pub use slot::Slot;
pub use store::{Entry, Reference};
pub use sync::Lock;
pub use table::Table;
