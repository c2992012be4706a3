use std::sync::atomic::{AtomicUsize, Ordering};
use std::sync::Arc;

use vstd::prelude::*;
use vstd::std_specs::iter::IteratorSpec;

use crate::array;
use crate::error::Error;
use crate::id::{Id, Identifiable};
use crate::slot::{share, Slot};
use crate::sync::Lock;
use crate::table::Table;

verus! {

/// A handle to the slot of one entity in a [`Reference`].
///
/// An entry does not own the entity: `load` hands out a snapshot of what the
/// slot holds at that moment. Every entry for an identifier shares that
/// identifier's one slot, so all of them see a replacement at their next load.
/// Entries of one store can be kept in entities of another, to refer to an
/// entity that may not be inserted yet.
#[derive(Debug)]
#[verifier::reject_recursive_types(T)]
pub struct Entry<T> {
    slot: Arc<Slot<T>>,
}

impl<T> Entry<T> {
    /// The slot this entry is a handle to.
    pub closed spec fn slot(&self) -> Arc<Slot<T>> {
        self.slot
    }

    /// A snapshot of the entity, or `None` while the slot is empty. The
    /// snapshot stays valid whatever is stored in the slot afterwards.
    pub fn load(&self) -> Option<Arc<T>> {
        self.slot.load_full()
    }
}

/// The slot an outcome of [`Table::place`] or [`Table::reserve`] refers to.
pub open spec fn slot_result<T>(r: Result<Entry<T>, array::Error>) -> Result<
    Arc<Slot<T>>,
    array::Error,
> {
    match r {
        Ok(entry) => Ok(entry.slot()),
        Err(e) => Err(e),
    }
}

/// The operations of a store on its table, each run with the table's lock held.
impl<T> Table<Arc<Slot<T>>> {
    /// A table for `capacity` identifiers besides the sentinel, whose slot is
    /// empty.
    pub fn with_capacity(capacity: usize) -> (r: Self)
        requires
            capacity < usize::MAX,
        ensures
            r.ids() == seq![0i32],
            r.slots().len() == 1,
            r.capacity() == capacity,
    {
        Table::new(capacity, Arc::new(Slot::from_pointee(None)))
    }

    /// An entry for the slot of `id`, if it has one. The sentinel always has one.
    pub fn lookup(&self, id: i32) -> (r: Option<Entry<T>>)
        ensures
            match self.slot_of(id) {
                Some(slot) => r is Some && r->Some_0.slot() == slot,
                None => r is None,
            },
            id == 0 ==> r is Some,
    {
        let found = self.get(id);
        proof {
            assert(self.ids()[0] == 0);
        }
        match found {
            Some(slot) => Some(Entry { slot: share(slot) }),
            None => None,
        }
    }

    /// Stores `item` in the slot of `id` and returns an entry for it. An
    /// identifier without a slot is given a new one that holds `item` from the
    /// start, so no reader ever sees it empty.
    pub fn place(&mut self, id: i32, item: T) -> (r: Result<Entry<T>, array::Error>)
        ensures
            old(self).acquires(id, *final(self), slot_result(r)),
    {
        match self.lookup(id) {
            Some(entry) => {
                entry.slot.store(Some(Arc::new(item)));
                Ok(entry)
            },
            None => {
                let slot = Arc::new(Slot::from_pointee(Some(item)));
                let handle = share(&slot);
                match self.register(id, slot) {
                    Ok(_) => Ok(Entry { slot: handle }),
                    Err(e) => Err(e),
                }
            },
        }
    }

    /// An entry for the slot of `id`, which is given a new, empty slot when it
    /// has none.
    pub fn reserve(&mut self, id: i32) -> (r: Result<Entry<T>, array::Error>)
        ensures
            old(self).acquires(id, *final(self), slot_result(r)),
    {
        match self.lookup(id) {
            Some(entry) => Ok(entry),
            None => {
                let slot = Arc::new(Slot::from_pointee(None));
                let handle = share(&slot);
                match self.register(id, slot) {
                    Ok(_) => Ok(Entry { slot: handle }),
                    Err(e) => Err(e),
                }
            },
        }
    }

    /// An entry for each slot, by position: the sentinel's first, then in the
    /// order the slots were given out.
    pub fn entries(&self) -> (r: Vec<Entry<T>>)
        ensures
            r@.len() == self.slots().len(),
            forall|p: int| 0 <= p < r@.len() ==> #[trigger] r@[p].slot() == self.slots()[p],
            r@.len() >= 1,
    {
        let len = self.len();
        let mut r: Vec<Entry<T>> = Vec::with_capacity(len);
        let mut p: usize = 0;
        while p < len
            invariant
                len == self.slots().len(),
                p <= len,
                r@.len() == p,
                forall|q: int| 0 <= q < p ==> #[trigger] r@[q].slot() == self.slots()[q],
            decreases len - p,
        {
            match self.slot_at(p) {
                Some(slot) => r.push(Entry { slot: share(slot) }),
                None => {},
            }
            p = p + 1;
        }
        r
    }
}

/// Entity storage of `T`, indexed by identifier.
///
/// Each identifier is given a slot the first time it is inserted or reserved,
/// and keeps it: later inserts replace what the slot holds. Identifier 0 owns
/// a slot from the start that nothing fills, the "no reference" sentinel.
/// Lookups and loads proceed in parallel; only giving an identifier its slot
/// takes the index exclusively.
#[verifier::reject_recursive_types(T)]
pub struct Reference<T> {
    table: Lock<Table<Arc<Slot<T>>>>,
    capacity: usize,
    effective_len: AtomicUsize,
}

impl<T: Identifiable> Reference<T> {
    /// How many identifiers besides the sentinel the store can hold.
    pub closed spec fn spec_capacity(&self) -> usize {
        self.capacity
    }

    /// Creates a store for `capacity` identifiers besides the sentinel.
    pub fn new(capacity: usize) -> (r: Self)
        requires
            capacity < usize::MAX,
        ensures
            r.spec_capacity() == capacity,
    {
        Reference {
            table: Lock::new(Table::with_capacity(capacity)),
            capacity,
            effective_len: AtomicUsize::new(0),
        }
    }

    /// How many identifiers besides the sentinel the store can hold.
    pub fn capacity(&self) -> (r: usize)
        ensures
            r == self.spec_capacity(),
    {
        self.capacity
    }

    /// How many inserts and reservations have succeeded: a diagnostic count of
    /// operations, not of distinct identifiers.
    pub fn effective_len(&self) -> usize {
        self.effective_len.load(Ordering::Relaxed)
    }

    /// Stores `item` in the slot of its identifier, which is given a slot when
    /// it has none; fails only when that needs a slot and every slot is taken.
    /// Replacing what a known identifier holds takes the index shared only.
    pub fn insert(&self, item: T) -> (r: Result<Entry<T>, Error<T>>)
        ensures
            r is Err ==> r == Err::<Entry<T>, Error<T>>(
                Error::Other(array::Error::CapacityExceeded { capacity: self.spec_capacity() }),
            ),
    {
        let id = item.id().as_i32();
        let known = self.table.read(|table: &Table<Arc<Slot<T>>>| table.lookup(id));
        let entry = match known {
            Some(entry) => {
                entry.slot.store(Some(Arc::new(item)));
                entry
            },
            None => match self.table.write(
                move |table: &mut Table<Arc<Slot<T>>>| table.place(id, item),
            ) {
                Ok(entry) => entry,
                Err(_) => {
                    return Err(
                        Error::Other(array::Error::CapacityExceeded { capacity: self.capacity }),
                    );
                },
            },
        };
        self.effective_len.fetch_add(1, Ordering::Relaxed);
        Ok(entry)
    }

    /// The entry of `id`, or `None` if `id` was never inserted or reserved.
    /// The sentinel, identifier 0, always has an entry.
    pub fn get(&self, id: Id<T>) -> (r: Option<Entry<T>>)
        ensures
            id@ == 0 ==> r is Some,
    {
        let id = id.as_i32();
        let found = |table: &Table<Arc<Slot<T>>>| -> (r: Option<Entry<T>>)
            ensures
                id == 0 ==> r is Some,
            { table.lookup(id) };
        self.table.read(found)
    }

    /// Like `get`, but an identifier never inserted or reserved is given an
    /// empty slot, to be filled by a later `insert`; fails only when that needs
    /// a slot and every slot is taken.
    pub fn get_or_reserve(&self, id: Id<T>) -> (r: Result<Entry<T>, Error<T>>)
        ensures
            r is Err ==> r == Err::<Entry<T>, Error<T>>(
                Error::Other(array::Error::CapacityExceeded { capacity: self.spec_capacity() }),
            ),
            id@ == 0 ==> r is Ok,
    {
        let id = id.as_i32();
        let found = |table: &Table<Arc<Slot<T>>>| -> (r: Option<Entry<T>>)
            ensures
                id == 0 ==> r is Some,
            { table.lookup(id) };
        match self.table.read(found) {
            Some(entry) => Ok(entry),
            None => match self.table.write(
                |table: &mut Table<Arc<Slot<T>>>| table.reserve(id),
            ) {
                Ok(entry) => {
                    self.effective_len.fetch_add(1, Ordering::Relaxed);
                    Ok(entry)
                },
                Err(_) => Err(
                    Error::Other(array::Error::CapacityExceeded { capacity: self.capacity }),
                ),
            },
        }
    }

    /// An entry for every slot, the sentinel's first, in the order the slots
    /// were given out. Slots given out after the call are not included.
    pub fn entries(&self) -> (r: Vec<Entry<T>>)
        ensures
            r@.len() >= 1,
    {
        let listed = |table: &Table<Arc<Slot<T>>>| -> (r: Vec<Entry<T>>)
            ensures
                r@.len() >= 1,
            { table.entries() };
        self.table.read(listed)
    }

    /// Iterates over `entries`.
    pub fn iter(&self) -> (r: std::vec::IntoIter<Entry<T>>)
        ensures
            r.remaining().len() >= 1,
    {
        self.entries().into_iter()
    }
}

} // verus!
