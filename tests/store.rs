use reference::array::Error as ArrayError;
use reference::{Error, Id, Identifiable, Reference};

#[derive(Clone, Debug, PartialEq, Eq)]
struct Item {
    id: Id<Self>,
    name: String,
}

impl Item {
    fn new(id: i32, name: &str) -> Self {
        Item {
            id: Id::new(id),
            name: name.to_string(),
        }
    }
}

impl Identifiable for Item {
    fn id(&self) -> Id<Self> {
        self.id
    }
}

fn names(reference: &Reference<Item>) -> Vec<Option<String>> {
    reference
        .iter()
        .map(|entry| entry.load().map(|item| item.name.clone()))
        .collect()
}

#[test]
fn insert_then_get_scenario() {
    let reference = Reference::new(3);
    reference.insert(Item::new(1, "A")).expect("insert 1");

    assert!(reference.get(Id::new(0)).expect("sentinel").load().is_none());
    let loaded = reference.get(Id::new(1)).expect("get 1").load();
    assert_eq!(loaded.as_deref(), Some(&Item::new(1, "A")));
    assert!(reference.get(Id::new(2)).is_none());
    assert!(reference.get(Id::new(3)).is_none());
}

#[test]
fn reinsert_replaces_content() {
    let reference = Reference::new(3);
    reference.insert(Item::new(1, "A")).expect("insert A");
    reference.insert(Item::new(1, "B")).expect("insert B");

    let loaded = reference.get(Id::new(1)).expect("get 1").load().expect("filled");
    assert_eq!(loaded.name, "B");
    assert_eq!(names(&reference), vec![None, Some("B".to_string())]);
}

#[test]
fn reserved_entry_sees_later_insert() {
    let reference = Reference::new(3);
    let entry = reference.get_or_reserve(Id::new(2)).expect("reserve 2");
    assert!(entry.load().is_none());

    reference.insert(Item::new(2, "two")).expect("insert 2");
    assert_eq!(entry.load().expect("filled").name, "two");
}

#[test]
fn iteration_follows_assignment_order() {
    let reference = Reference::new(4);
    reference.insert(Item::new(1, "one")).expect("insert 1");
    reference.insert(Item::new(4, "four")).expect("insert 4");
    reference.get_or_reserve(Id::new(3)).expect("reserve 3");

    let ids: Vec<Option<i32>> = reference
        .iter()
        .map(|entry| entry.load().map(|item| item.id.as_i32()))
        .collect();
    assert_eq!(ids, vec![None, Some(1), Some(4), None]);
}

#[test]
fn capacity_exceeded_keeps_existing_slots() {
    let reference = Reference::new(2);
    reference.insert(Item::new(1, "one")).expect("insert 1");
    reference.insert(Item::new(2, "two")).expect("insert 2");

    match reference.insert(Item::new(3, "three")) {
        Err(Error::Other(ArrayError::CapacityExceeded { capacity })) => assert_eq!(capacity, 2),
        Err(other) => panic!("unexpected error {:?}", other),
        Ok(_) => panic!("a third identifier fit in a store of two"),
    }

    assert_eq!(reference.get(Id::new(1)).expect("1").load().expect("filled").name, "one");
    assert_eq!(reference.get(Id::new(2)).expect("2").load().expect("filled").name, "two");
    assert!(reference.get(Id::new(3)).is_none());
    assert_eq!(
        names(&reference),
        vec![None, Some("one".to_string()), Some("two".to_string())]
    );
}

#[test]
fn full_store_still_replaces_known_identifiers() {
    let reference = Reference::new(1);
    reference.insert(Item::new(7, "old")).expect("insert 7");
    assert!(reference.get_or_reserve(Id::new(8)).is_err());

    reference.insert(Item::new(7, "new")).expect("replace 7");
    assert_eq!(reference.get(Id::new(7)).expect("7").load().expect("filled").name, "new");
}

#[test]
fn reserve_capacity_error_names_capacity() {
    let reference: Reference<Item> = Reference::new(0);
    match reference.get_or_reserve(Id::new(5)) {
        Err(Error::Other(ArrayError::CapacityExceeded { capacity })) => assert_eq!(capacity, 0),
        _ => panic!("expected a capacity error"),
    }
    assert_eq!(reference.capacity(), 0);
    assert_eq!(names(&reference), vec![None]);
}

#[test]
fn get_or_reserve_twice_shares_one_slot() {
    let reference = Reference::new(2);
    let first = reference.get_or_reserve(Id::new(9)).expect("reserve");
    let second = reference.get_or_reserve(Id::new(9)).expect("reserve again");
    assert_eq!(reference.iter().count(), 2);

    reference.insert(Item::new(9, "nine")).expect("insert 9");
    assert_eq!(first.load().expect("filled").name, "nine");
    assert_eq!(second.load().expect("filled").name, "nine");
}

#[test]
fn earlier_entries_see_every_replacement() {
    let reference = Reference::new(2);
    let inserted = reference.insert(Item::new(1, "a")).expect("insert");
    let fetched = reference.get(Id::new(1)).expect("get");
    let snapshot = inserted.load().expect("filled");

    reference.insert(Item::new(1, "b")).expect("replace");
    assert_eq!(inserted.load().expect("filled").name, "b");
    assert_eq!(fetched.load().expect("filled").name, "b");
    assert_eq!(snapshot.name, "a");
}

#[test]
fn unseen_identifiers_are_absent() {
    let reference = Reference::new(5);
    reference.insert(Item::new(3, "three")).expect("insert");
    reference.get_or_reserve(Id::new(-4)).expect("reserve");
    for id in [1, 2, 4, 5, -3, i32::MAX, i32::MIN] {
        assert!(reference.get(Id::new(id)).is_none(), "identifier {id}");
    }
    assert!(reference.get(Id::new(-4)).is_some());
}

#[test]
fn iterator_length_is_fixed_at_creation() {
    let reference = Reference::new(3);
    reference.insert(Item::new(1, "one")).expect("insert 1");
    let iter = reference.iter();
    reference.insert(Item::new(2, "two")).expect("insert 2");
    assert_eq!(iter.count(), 2);
    assert_eq!(reference.entries().len(), 3);
}

#[test]
fn error_messages() {
    let error: Error<Item> = Error::Other(ArrayError::CapacityExceeded { capacity: 2 });
    assert_eq!(error.message(), "Capacity exceeded (2)");
    let error: Error<Item> = Error::InsertError("broken".to_string());
    assert_eq!(error.message(), "Insert error: broken");
}

#[test]
fn effective_len_counts_operations() {
    let reference = Reference::new(3);
    assert_eq!(reference.effective_len(), 0);
    reference.insert(Item::new(1, "a")).expect("insert");
    reference.insert(Item::new(1, "b")).expect("replace");
    reference.get_or_reserve(Id::new(2)).expect("reserve");
    assert_eq!(reference.effective_len(), 3);
}
