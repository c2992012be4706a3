use std::hash::BuildHasherDefault;

use rustc_hash::{FxHashMap, FxHasher};
use vstd::prelude::*;

use crate::array::{Array, Error};

verus! {

/// `rustc_hash`'s hasher, carried opaquely.
#[verifier::external_type_specification]
#[verifier::external_body]
pub struct ExFxHasher(FxHasher);

/// The std builder of default-constructed hashers, carried opaquely.
#[verifier::external_type_specification]
#[verifier::external_body]
#[verifier::reject_recursive_types(H)]
pub struct ExBuildHasherDefault<H>(BuildHasherDefault<H>);

/// Relies on `HashMap::with_capacity_and_hasher`: an empty map with room for at
/// least `capacity` keys before it reallocates.
#[verifier::external_body]
fn positions_with_capacity(capacity: usize) -> (r: FxHashMap<i32, usize>)
    ensures
        r@.dom().is_empty(),
{
    FxHashMap::with_capacity_and_hasher(capacity, BuildHasherDefault::default())
}

/// Relies on `HashMap::get`: the value stored under `key`, if any (`FxHasher`
/// hashes equal keys alike).
#[verifier::external_body]
fn positions_get(positions: &FxHashMap<i32, usize>, key: i32) -> (r: Option<usize>)
    ensures
        r == (if positions@.contains_key(key) { Some(positions@[key]) } else { None::<usize> }),
{
    positions.get(&key).copied()
}

/// Relies on `HashMap::insert`: stores `value` under `key`. It does not unwind:
/// hashing an `i32` with `FxHasher` cannot fail, the map was sized for every
/// key a table holds, and a failed allocation aborts rather than unwinds.
#[verifier::external_body]
fn positions_insert(positions: &mut FxHashMap<i32, usize>, key: i32, value: usize)
    ensures
        final(positions)@ == old(positions)@.insert(key, value),
    no_unwind
{
    positions.insert(key, value);
}

/// The fields of a [`Table`], updated together.
#[verifier::reject_recursive_types(S)]
struct Parts<S> {
    slots: Array<S>,
    positions: FxHashMap<i32, usize>,
    ids: Ghost<Seq<i32>>,
    capacity: usize,
}

impl<S> Parts<S> {
    spec fn consistent(&self) -> bool {
        &&& self.ids@.len() == self.slots@.len()
        &&& 1 <= self.ids@.len() <= self.capacity + 1
        &&& self.ids@[0] == 0
        &&& self.ids@.no_duplicates()
        &&& self.slots.spec_capacity() == self.capacity + 1
        &&& forall|k: i32| #[trigger] self.positions@.contains_key(k) <==> self.ids@.contains(k)
        &&& forall|p: int|
            0 <= p < self.ids@.len() ==> #[trigger] self.positions@[self.ids@[p]] == p
    }

    /// Appends `slot` at the next position and maps `id` to it, if the arena
    /// has room; returns the arena's answer.
    fn append(&mut self, id: i32, slot: S) -> (r: Result<usize, Error>)
        requires
            old(self).consistent(),
            !old(self).ids@.contains(id),
        ensures
            final(self).consistent(),
            final(self).capacity == old(self).capacity,
            final(self).slots.spec_capacity() == old(self).slots.spec_capacity(),
            old(self).slots@.len() < old(self).slots.spec_capacity() ==> {
                &&& r == Ok::<usize, Error>(old(self).slots@.len() as usize)
                &&& final(self).slots@ == old(self).slots@.push(slot)
                &&& final(self).positions@ == old(self).positions@.insert(id, old(self).slots@.len() as usize)
                &&& final(self).ids@ == old(self).ids@.push(id)
            },
            old(self).slots@.len() >= old(self).slots.spec_capacity() ==> {
                &&& r is Err
                &&& final(self).slots@ == old(self).slots@
                &&& final(self).positions@ == old(self).positions@
                &&& final(self).ids@ == old(self).ids@
            },
        no_unwind
    {
        match self.slots.push(slot) {
            Ok(position) => {
                let ghost old_ids = self.ids@;
                positions_insert(&mut self.positions, id, position);
                self.ids = Ghost(self.ids@.push(id));
                proof {
                    let ids = self.ids@;
                    assert(ids[0] == 0);
                    assert forall|k: i32| #[trigger]
                        self.positions@.contains_key(k) <==> ids.contains(k) by {
                        if k == id {
                            assert(ids[position as int] == k);
                        } else if old_ids.contains(k) {
                            let i = old_ids.index_of(k);
                            assert(ids[i] == k);
                        }
                        if ids.contains(k) {
                            let i = ids.index_of(k);
                            if i < old_ids.len() {
                                assert(old_ids[i] == k);
                            }
                        }
                    }
                    assert forall|p: int| 0 <= p < ids.len() implies #[trigger]
                        self.positions@[ids[p]] == p by {
                        if p < old_ids.len() {
                            assert(old_ids[p] != id);
                        }
                    }
                }
                Ok(position)
            },
            Err(e) => Err(e),
        }
    }
}

/// The bookkeeping of an entity store: an arena of slots and the index from
/// identifier to slot position.
///
/// Position 0 belongs to identifier 0, the "no reference" sentinel. Every other
/// identifier gets the next free position the first time it is registered, and
/// keeps it for the lifetime of the table.
#[verifier::reject_recursive_types(S)]
pub struct Table<S> {
    parts: Parts<S>,
}

impl<S> Table<S> {
    #[verifier::type_invariant]
    spec fn inv(self) -> bool {
        self.parts.consistent()
    }

    /// The identifiers, in the order they were given positions: the identifier
    /// at index `p` owns the slot at position `p`.
    pub closed spec fn ids(&self) -> Seq<i32> {
        self.parts.ids@
    }

    /// The slots, by position.
    pub closed spec fn slots(&self) -> Seq<S> {
        self.parts.slots@
    }

    /// How many identifiers besides the sentinel the table can hold.
    pub closed spec fn capacity(&self) -> nat {
        self.parts.capacity as nat
    }

    /// What holds of every table.
    pub open spec fn wf(&self) -> bool {
        &&& self.ids().len() == self.slots().len()
        &&& 1 <= self.ids().len() <= self.capacity() + 1
        &&& self.ids()[0] == 0
        &&& self.ids().no_duplicates()
    }

    /// The position of `id`, if it has one.
    pub open spec fn position(&self, id: i32) -> Option<int> {
        if self.ids().contains(id) {
            Some(self.ids().index_of(id))
        } else {
            None
        }
    }

    /// The slot of `id`, if it has one.
    pub open spec fn slot_of(&self, id: i32) -> Option<S> {
        match self.position(id) {
            Some(p) => Some(self.slots()[p]),
            None => None,
        }
    }

    /// `after` and `r` are an outcome of asking `self` for the slot of `id`,
    /// where an identifier without one is given the next free position: the
    /// slot it already has; or a new slot appended after all the others; or,
    /// when every position is taken, `CapacityExceeded` and no change.
    pub open spec fn acquires(&self, id: i32, after: Self, r: Result<S, Error>) -> bool {
        &&& after.capacity() == self.capacity()
        &&& if self.ids().contains(id) {
            &&& after.ids() == self.ids()
            &&& after.slots() == self.slots()
            &&& r == Ok::<S, Error>(self.slots()[self.ids().index_of(id)])
        } else if self.slots().len() <= self.capacity() {
            &&& r is Ok
            &&& after.ids() == self.ids().push(id)
            &&& after.slots() == self.slots().push(r->Ok_0)
        } else {
            &&& after.ids() == self.ids()
            &&& after.slots() == self.slots()
            &&& r == Err::<S, Error>(Error::CapacityExceeded { capacity: self.capacity() as usize })
        }
    }

    /// Creates a table for `capacity` identifiers besides the sentinel, whose
    /// slot is `sentinel`.
    pub fn new(capacity: usize, sentinel: S) -> (r: Self)
        requires
            capacity < usize::MAX,
        ensures
            r.ids() == seq![0i32],
            r.slots() == seq![sentinel],
            r.capacity() == capacity,
    {
        let mut slots = Array::new(capacity + 1);
        let mut positions = positions_with_capacity(capacity + 1);
        let pushed = slots.push(sentinel);
        assert(pushed == Ok::<usize, Error>(0));
        positions_insert(&mut positions, 0, 0);
        let ghost ids = seq![0i32];
        assert(ids.contains(0i32)) by {
            assert(ids[0] == 0i32);
        }
        assert(slots@ =~= seq![sentinel]);
        Table { parts: Parts { slots, positions, ids: Ghost(ids), capacity } }
    }

    /// The position of `id`, if it has one.
    pub fn position_of(&self, id: i32) -> (r: Option<usize>)
        ensures
            r == (match self.position(id) {
                Some(p) => Some(p as usize),
                None => None,
            }),
            self.wf(),
    {
        proof {
            use_type_invariant(self);
        }
        let r = positions_get(&self.parts.positions, id);
        proof {
            if self.parts.ids@.contains(id) {
                let p = self.parts.ids@.index_of(id);
                assert(self.parts.positions@[self.parts.ids@[p]] == p);
            }
        }
        r
    }

    /// The slot of `id`, if it has one.
    pub fn get(&self, id: i32) -> (r: Option<&S>)
        ensures
            r == (match self.position(id) {
                Some(p) => Some(&self.slots()[p]),
                None => None,
            }),
            self.wf(),
    {
        proof {
            use_type_invariant(self);
        }
        match self.position_of(id) {
            Some(p) => self.parts.slots.get(p),
            None => None,
        }
    }

    /// The number of positions taken, the sentinel's included.
    pub fn len(&self) -> (r: usize)
        ensures
            r == self.slots().len(),
            self.wf(),
    {
        proof {
            use_type_invariant(self);
        }
        self.parts.slots.len()
    }

    /// The slot at `position`, if that position is taken.
    pub fn slot_at(&self, position: usize) -> (r: Option<&S>)
        ensures
            position < self.slots().len() ==> r == Some(&self.slots()[position as int]),
            position >= self.slots().len() ==> r is None,
    {
        self.parts.slots.get(position)
    }

    /// Gives the unregistered `id` the next free position, holding `slot`; fails
    /// when every position is taken, and then changes nothing.
    pub(crate) fn register(&mut self, id: i32, slot: S) -> (r: Result<usize, Error>)
        requires
            !old(self).ids().contains(id),
        ensures
            final(self).capacity() == old(self).capacity(),
            old(self).slots().len() <= old(self).capacity() ==> {
                &&& r == Ok::<usize, Error>(old(self).slots().len() as usize)
                &&& final(self).ids() == old(self).ids().push(id)
                &&& final(self).slots() == old(self).slots().push(slot)
            },
            old(self).slots().len() > old(self).capacity() ==> {
                &&& r == Err::<usize, Error>(Error::CapacityExceeded { capacity: old(self).capacity() as usize })
                &&& final(self).ids() == old(self).ids()
                &&& final(self).slots() == old(self).slots()
            },
    {
        proof {
            use_type_invariant(&*self);
        }
        let r = self.parts.append(id, slot);
        match r {
            Ok(position) => {
                proof {
                    assert(self.parts.ids@ =~= old(self).parts.ids@.push(id));
                }
                Ok(position)
            },
            Err(_) => Err(Error::CapacityExceeded { capacity: self.parts.capacity }),
        }
    }
}

} // verus!
