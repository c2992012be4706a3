use vstd::prelude::*;
use vstd::std_specs::iter::IteratorSpec;

verus! {

/// Error of an [`Array`].
#[derive(Debug, Clone, Copy, PartialEq, Eq, Structural)]
pub enum Error {
    /// An item was pushed to an array whose capacity is already filled.
    CapacityExceeded { capacity: usize },
}

impl Error {
    /// A human-readable description of the error.
    pub fn message(&self) -> String {
        match self {
            Error::CapacityExceeded { capacity } => capacity_exceeded_message(*capacity),
        }
    }
}

/// Relies on `format!`: renders the capacity in decimal.
#[verifier::external_body]
fn capacity_exceeded_message(capacity: usize) -> String {
    format!("Capacity exceeded ({})", capacity)
}

/// A fixed-capacity, append-only array.
///
/// The whole capacity is allocated up front and never grows, so an element
/// never moves once it is stored: its position is a stable handle for the
/// lifetime of the array. Elements are only ever appended; none is removed or
/// reordered. Appending takes `&mut self`, so there is never more than one
/// pusher at a time.
pub struct Array<T> {
    cells: Vec<Option<T>>,
    len: usize,
}

impl<T> View for Array<T> {
    type V = Seq<T>;

    closed spec fn view(&self) -> Seq<T> {
        Seq::new(self.len as nat, |i: int| self.cells@[i]->Some_0)
    }
}

impl<T> Array<T> {
    #[verifier::type_invariant]
    spec fn inv(self) -> bool {
        &&& self.len <= self.cells@.len()
        &&& forall|i: int| 0 <= i < self.len ==> #[trigger] self.cells@[i] is Some
    }

    /// The number of elements the array can ever hold.
    pub closed spec fn spec_capacity(&self) -> nat {
        self.cells@.len()
    }

    /// Creates an empty array with room for exactly `capacity` elements.
    pub fn new(capacity: usize) -> (r: Self)
        ensures
            r@ == Seq::<T>::empty(),
            r.spec_capacity() == capacity,
    {
        let mut cells: Vec<Option<T>> = Vec::with_capacity(capacity);
        let mut i: usize = 0;
        while i < capacity
            invariant
                i <= capacity,
                cells@.len() == i,
            decreases capacity - i,
        {
            cells.push(None);
            i = i + 1;
        }
        Array { cells, len: 0 }
    }

    /// Appends `item` and returns its position, or fails when the array is full;
    /// the item is then not stored.
    pub fn push(&mut self, item: T) -> (r: Result<usize, Error>)
        ensures
            final(self).spec_capacity() == old(self).spec_capacity(),
            old(self)@.len() < old(self).spec_capacity() ==> {
                &&& r == Ok::<usize, Error>(old(self)@.len() as usize)
                &&& final(self)@ == old(self)@.push(item)
            },
            old(self)@.len() >= old(self).spec_capacity() ==> {
                &&& r == Err::<usize, Error>(Error::CapacityExceeded { capacity: old(self).spec_capacity() as usize })
                &&& final(self)@ == old(self)@
            },
        no_unwind
    {
        proof {
            use_type_invariant(&*self);
        }
        let len = self.len;
        if len >= self.cells.len() {
            return Err(Error::CapacityExceeded { capacity: self.cells.len() });
        }
        self.cells[len] = Some(item);
        self.len = len + 1;
        assert(self@ =~= old(self)@.push(item));
        Ok(len)
    }

    /// The element at `idx`, if `idx` is below the current length.
    pub fn get(&self, idx: usize) -> (r: Option<&T>)
        ensures
            idx < self@.len() ==> r == Some(&self@[idx as int]),
            idx >= self@.len() ==> r is None,
    {
        proof {
            use_type_invariant(self);
        }
        if idx < self.len {
            match &self.cells[idx] {
                Some(item) => Some(item),
                None => None,
            }
        } else {
            None
        }
    }

    /// The elements stored so far, in the order they were pushed. Elements
    /// pushed later are not included.
    pub fn iter(&self) -> (r: std::vec::IntoIter<&T>)
        ensures
            r.remaining() == self@.as_ref(),
    {
        let len = self.len();
        let mut items: Vec<&T> = Vec::with_capacity(len);
        let mut p: usize = 0;
        while p < len
            invariant
                len == self@.len(),
                p <= len,
                items@ == self@.as_ref().take(p as int),
            decreases len - p,
        {
            match self.get(p) {
                Some(item) => items.push(item),
                None => {},
            }
            proof {
                assert(self@.as_ref().take(p + 1) =~= self@.as_ref().take(p as int).push(&self@[p as int]));
            }
            p = p + 1;
        }
        proof {
            assert(self@.as_ref().take(len as int) =~= self@.as_ref());
        }
        items.into_iter()
    }

    /// The number of elements stored so far.
    pub fn len(&self) -> (r: usize)
        ensures
            r == self@.len(),
    {
        self.len
    }

    /// The number of elements the array can ever hold.
    pub fn capacity(&self) -> (r: usize)
        ensures
            r == self.spec_capacity(),
    {
        proof {
            use_type_invariant(self);
        }
        self.cells.len()
    }
}

impl<T> From<Vec<T>> for Array<T> {
    /// An array holding `items` in order, with room for one more.
    fn from(items: Vec<T>) -> (r: Array<T>)
        ensures
            r@ == items@,
            items@.len() < usize::MAX ==> r.spec_capacity() == items@.len() + 1,
    {
        let n = items.len();
        let capacity = if n < usize::MAX {
            n + 1
        } else {
            n
        };
        let mut cells: Vec<Option<T>> = Vec::with_capacity(capacity);
        let mut items = items;
        let ghost all = items@;
        let mut reversed: Vec<T> = Vec::with_capacity(n);
        let mut k: usize = 0;
        while k < n
            invariant
                k <= n,
                n == all.len(),
                items@ == all.take(n - k),
                reversed@.len() == k,
                forall|j: int| 0 <= j < k ==> #[trigger] reversed@[j] == all[n - 1 - j],
            decreases n - k,
        {
            proof {
                assert(all.take(n - k - 1) =~= all.take(n - k).drop_last());
            }
            match items.pop() {
                Some(item) => reversed.push(item),
                None => {},
            }
            k = k + 1;
        }
        let mut i: usize = 0;
        while i < n
            invariant
                i <= n,
                n == all.len(),
                cells@.len() == i,
                reversed@.len() == n - i,
                forall|j: int| 0 <= j < i ==> #[trigger] cells@[j] == Some(all[j]),
                forall|j: int| 0 <= j < n - i ==> #[trigger] reversed@[j] == all[n - 1 - j],
            decreases n - i,
        {
            match reversed.pop() {
                Some(item) => cells.push(Some(item)),
                None => {},
            }
            i = i + 1;
        }
        if n < capacity {
            cells.push(None);
        }
        let r = Array { cells, len: n };
        proof {
            assert(r@ =~= all);
        }
        r
    }
}

impl<T> vstd::std_specs::convert::FromSpecImpl<Vec<T>> for Array<T> {
    /// The array's layout has no specification-level constructor: the contract
    /// of `from` itself says what the result holds.
    open spec fn obeys_from_spec() -> bool {
        false
    }

    open spec fn from_spec(items: Vec<T>) -> Array<T> {
        vstd::pervasive::arbitrary()
    }
}

} // verus!
