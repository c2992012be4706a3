//! What holds across a run of requests on a [`Table`]: an identifier keeps its
//! slot, slots are handed out in request order, and capacity is a hard bound.

use vstd::prelude::*;

use crate::array::Error;
use crate::table::Table;

verus! {

/// `tables[i + 1]` and `results[i]` are an outcome of asking `tables[i]` for the
/// slot of `requested[i]`.
pub open spec fn step<S>(
    tables: Seq<Table<S>>,
    requested: Seq<i32>,
    results: Seq<Result<S, Error>>,
    i: int,
) -> bool {
    tables[i].acquires(requested[i], tables[i + 1], results[i])
}

/// `tables[i + 1]` and `results[i]` are an outcome of asking `tables[i]` for the
/// slot of `requested[i]`, for each step `i`. Inserting and reserving both take
/// such a step; they differ only in what they put in the slot.
pub open spec fn is_history<S>(
    tables: Seq<Table<S>>,
    requested: Seq<i32>,
    results: Seq<Result<S, Error>>,
) -> bool {
    &&& tables.len() == requested.len() + 1
    &&& results.len() == requested.len()
    &&& forall|i: int| 0 <= i < requested.len() ==> #[trigger] step(tables, requested, results, i)
    &&& forall|i: int| 0 <= i < tables.len() ==> #[trigger] tables[i].wf()
}

proof fn lemma_index_of_distinct(s: Seq<i32>, i: int)
    requires
        s.no_duplicates(),
        0 <= i < s.len(),
    ensures
        s.contains(s[i]),
        s.index_of(s[i]) == i,
{
    assert(s.contains(s[i]));
}

/// A successful request leaves the identifier with exactly the slot it
/// returned: an insert is found again by the next lookup.
pub proof fn lemma_acquired_slot_is_found<S>(table: Table<S>, id: i32, after: Table<S>, slot: S)
    requires
        table.wf(),
        after.wf(),
        table.acquires(id, after, Ok(slot)),
    ensures
        after.slot_of(id) == Some(slot),
{
    if !table.ids().contains(id) {
        let n = table.ids().len() as int;
        assert(after.ids()[n] == id);
        lemma_index_of_distinct(after.ids(), n);
    }
}

/// An identifier keeps its slot: whatever is requested, every identifier that
/// had a slot still has the same one.
pub proof fn lemma_slot_is_kept<S>(
    table: Table<S>,
    requested: i32,
    after: Table<S>,
    r: Result<S, Error>,
    id: i32,
)
    requires
        table.wf(),
        after.wf(),
        table.acquires(requested, after, r),
        table.slot_of(id) is Some,
    ensures
        after.slot_of(id) == table.slot_of(id),
{
    if !table.ids().contains(requested) && table.slots().len() <= table.capacity() {
        let p = table.ids().index_of(id);
        assert(after.ids()[p] == id);
        lemma_index_of_distinct(after.ids(), p);
    }
}

/// A table whose every position is taken refuses a new identifier with
/// `CapacityExceeded` and stays as it was.
pub proof fn lemma_full_table_refuses_new_identifiers<S>(
    table: Table<S>,
    id: i32,
    after: Table<S>,
    r: Result<S, Error>,
)
    requires
        table.wf(),
        table.slots().len() == table.capacity() + 1,
        !table.ids().contains(id),
        table.acquires(id, after, r),
    ensures
        r == Err::<S, Error>(Error::CapacityExceeded { capacity: table.capacity() as usize }),
        after.ids() == table.ids(),
        after.slots() == table.slots(),
{
}

/// After `capacity` new identifiers have been given slots in a table made for
/// `capacity`, the next new identifier is refused and nothing changes.
pub proof fn lemma_capacity_is_a_bound<S>(
    tables: Seq<Table<S>>,
    requested: Seq<i32>,
    results: Seq<Result<S, Error>>,
    id: i32,
)
    requires
        is_history(tables, requested, results),
        tables[0].ids() == seq![0i32],
        requested.no_duplicates(),
        !requested.contains(0),
        requested.len() == tables[0].capacity() + 1,
        forall|i: int| 0 <= i < requested.len() - 1 ==> #[trigger] results[i] is Ok,
        requested.last() == id,
    ensures
        results.last() == Err::<S, Error>(
            Error::CapacityExceeded { capacity: tables[0].capacity() as usize },
        ),
        tables.last().ids() == tables[requested.len() - 1].ids(),
        tables.last().slots() == tables[requested.len() - 1].slots(),
{
    let n = requested.len() - 1;
    lemma_grows_by_new_identifiers(tables, requested, results, n);
    let t = tables[n];
    assert(!t.ids().contains(id)) by {
        if t.ids().contains(id) {
            let j = t.ids().index_of(id);
            if j == 0 {
                assert(id == 0);
                assert(requested[n] == 0);
            } else {
                assert(t.ids()[j] == requested[j - 1]);
                assert(requested[j - 1] == id);
                assert(requested[n] == id);
            }
        }
    }
    assert(step(tables, requested, results, n));
    assert(t.ids().len() == n + 1);
    lemma_full_table_refuses_new_identifiers(t, id, tables[n + 1], results[n]);
}

/// In a history of distinct new identifiers that all succeed, the table after
/// `k` steps holds the sentinel and then the first `k` identifiers, in order.
proof fn lemma_grows_by_new_identifiers<S>(
    tables: Seq<Table<S>>,
    requested: Seq<i32>,
    results: Seq<Result<S, Error>>,
    k: int,
)
    requires
        is_history(tables, requested, results),
        tables[0].ids() == seq![0i32],
        requested.no_duplicates(),
        !requested.contains(0),
        0 <= k < requested.len(),
        forall|i: int| 0 <= i < k ==> #[trigger] results[i] is Ok,
    ensures
        tables[k].ids() == seq![0i32] + requested.take(k),
        tables[k].capacity() == tables[0].capacity(),
    decreases k,
{
    if k > 0 {
        lemma_grows_by_new_identifiers(tables, requested, results, k - 1);
        let t = tables[k - 1];
        let id = requested[k - 1];
        assert(step(tables, requested, results, k - 1));
        assert(!t.ids().contains(id)) by {
            if t.ids().contains(id) {
                let j = t.ids().index_of(id);
                if j == 0 {
                    assert(requested[k - 1] == 0);
                } else {
                    assert(t.ids()[j] == requested[j - 1]);
                    assert(requested[j - 1] == id);
                }
            }
        }
        assert(results[k - 1] is Ok);
        assert(tables[k].ids() =~= seq![0i32] + requested.take(k));
    }
}

/// An identifier never requested has no slot: looking it up finds nothing.
pub proof fn lemma_unrequested_identifier_is_absent<S>(
    tables: Seq<Table<S>>,
    requested: Seq<i32>,
    results: Seq<Result<S, Error>>,
    id: i32,
)
    requires
        is_history(tables, requested, results),
        tables[0].ids() == seq![0i32],
        id != 0,
        !requested.contains(id),
    ensures
        tables.last().slot_of(id) is None,
{
    lemma_absent_through(tables, requested, results, id, tables.len() - 1);
}

proof fn lemma_absent_through<S>(
    tables: Seq<Table<S>>,
    requested: Seq<i32>,
    results: Seq<Result<S, Error>>,
    id: i32,
    k: int,
)
    requires
        is_history(tables, requested, results),
        tables[0].ids() == seq![0i32],
        id != 0,
        !requested.contains(id),
        0 <= k < tables.len(),
    ensures
        !tables[k].ids().contains(id),
    decreases k,
{
    if k == 0 {
        assert(!tables[0].ids().contains(id)) by {
            if tables[0].ids().contains(id) {
                assert(tables[0].ids()[tables[0].ids().index_of(id)] == 0);
            }
        }
    } else {
        lemma_absent_through(tables, requested, results, id, k - 1);
        let t = tables[k - 1];
        assert(step(tables, requested, results, k - 1));
        assert(requested[k - 1] != id);
        let ids = tables[k].ids();
        assert forall|j: int| 0 <= j < ids.len() implies ids[j] != id by {
            if j < t.ids().len() {
                assert(t.ids()[j] != id);
            }
        }
    }
}

/// Once an identifier has a slot, every later request for it returns that
/// slot: all entries obtained for an identifier, by inserting, reserving or
/// looking up, share one slot, and each later insert fills it.
pub proof fn lemma_requests_share_the_first_slot<S>(
    tables: Seq<Table<S>>,
    requested: Seq<i32>,
    results: Seq<Result<S, Error>>,
    i: int,
    j: int,
)
    requires
        is_history(tables, requested, results),
        0 <= i < j < requested.len(),
        requested[i] == requested[j],
        results[i] is Ok,
    ensures
        results[j] == results[i],
        tables[j + 1].ids() == tables[j].ids(),
        tables[j + 1].slots() == tables[j].slots(),
{
    let id = requested[i];
    let slot = results[i]->Ok_0;
    assert(step(tables, requested, results, i));
    lemma_acquired_slot_is_found(tables[i], id, tables[i + 1], slot);
    lemma_slot_kept_through(tables, requested, results, id, i + 1, j);
    let t = tables[j];
    assert(step(tables, requested, results, j));
    assert(t.ids().contains(id));
}

proof fn lemma_slot_kept_through<S>(
    tables: Seq<Table<S>>,
    requested: Seq<i32>,
    results: Seq<Result<S, Error>>,
    id: i32,
    i: int,
    k: int,
)
    requires
        is_history(tables, requested, results),
        0 <= i <= k < tables.len(),
        tables[i].slot_of(id) is Some,
    ensures
        tables[k].slot_of(id) == tables[i].slot_of(id),
    decreases k - i,
{
    if k > i {
        lemma_slot_kept_through(tables, requested, results, id, i, k - 1);
        assert(step(tables, requested, results, k - 1));
        lemma_slot_is_kept(tables[k - 1], requested[k - 1], tables[k], results[k - 1], id);
    }
}

/// Slots are handed out in request order, whatever the identifiers' values:
/// each step keeps the identifiers and slots before it as a prefix, so a
/// listing of the slots taken at any point is a prefix of every later one.
pub proof fn lemma_slots_in_request_order<S>(
    tables: Seq<Table<S>>,
    requested: Seq<i32>,
    results: Seq<Result<S, Error>>,
    i: int,
    j: int,
)
    requires
        is_history(tables, requested, results),
        0 <= i <= j < tables.len(),
    ensures
        tables[i].ids().is_prefix_of(tables[j].ids()),
        tables[i].slots().is_prefix_of(tables[j].slots()),
    decreases j - i,
{
    if j > i {
        lemma_slots_in_request_order(tables, requested, results, i, j - 1);
        assert(step(tables, requested, results, j - 1));
        let a = tables[i].ids();
        let b = tables[j - 1].ids();
        let c = tables[j].ids();
        assert(c.subrange(0, a.len() as int) =~= b.subrange(0, a.len() as int));
        let sa = tables[i].slots();
        let sb = tables[j - 1].slots();
        let sc = tables[j].slots();
        assert(sc.subrange(0, sa.len() as int) =~= sb.subrange(0, sa.len() as int));
    }
}

} // verus!
