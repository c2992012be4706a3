use std::sync::Arc;

use vstd::prelude::*;

verus! {

/// An atomically replaceable cell holding an optional shared snapshot of an
/// entity.
///
/// Loading is wait-free and never blocks a concurrent replacement; a snapshot
/// once loaded stays valid whatever is stored afterwards. What the cell holds
/// changes behind shared references, so it is not part of the cell's value for
/// the verifier: two handles to one cell are the same value.
#[derive(Debug)]
#[verifier::external_body]
#[verifier::reject_recursive_types(T)]
pub struct Slot<T> {
    cell: arc_swap::ArcSwapOption<T>,
}

impl<T> Slot<T> {
    /// Relies on `arc_swap::ArcSwapAny::from_pointee`: a cell holding `value`.
    #[verifier::external_body]
    pub(crate) fn from_pointee(value: Option<T>) -> Slot<T> {
        Slot { cell: arc_swap::ArcSwapOption::from_pointee(value) }
    }

    /// Relies on `arc_swap::ArcSwapAny::load_full`: the snapshot installed last.
    #[verifier::external_body]
    pub(crate) fn load_full(&self) -> Option<Arc<T>> {
        self.cell.load_full()
    }

    /// Relies on `arc_swap::ArcSwapAny::store`: installs `value` in one atomic
    /// step; later loads yield it.
    #[verifier::external_body]
    pub(crate) fn store(&self, value: Option<Arc<T>>) {
        self.cell.store(value)
    }
}

/// Relies on `Arc::clone`: a new handle to the same allocation.
#[verifier::external_body]
pub(crate) fn share<V>(handle: &Arc<V>) -> (r: Arc<V>)
    ensures
        r == *handle,
{
    Arc::clone(handle)
}

} // verus!
