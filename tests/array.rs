use reference::array::Error;
use reference::Array;

#[test]
fn push_returns_positions_until_full() {
    let mut array = Array::new(2);
    assert_eq!(array.capacity(), 2);
    assert_eq!(array.len(), 0);
    assert_eq!(array.push("a"), Ok(0));
    assert_eq!(array.push("b"), Ok(1));
    assert_eq!(array.push("c"), Err(Error::CapacityExceeded { capacity: 2 }));
    assert_eq!(array.len(), 2);
    assert_eq!(array.get(0), Some(&"a"));
    assert_eq!(array.get(1), Some(&"b"));
    assert_eq!(array.get(2), None);
}

#[test]
fn zero_capacity_array_refuses_everything() {
    let mut array: Array<u8> = Array::new(0);
    assert_eq!(array.push(1), Err(Error::CapacityExceeded { capacity: 0 }));
    assert_eq!(array.get(0), None);
}

#[test]
fn capacity_error_message() {
    assert_eq!(
        Error::CapacityExceeded { capacity: 7 }.message(),
        "Capacity exceeded (7)"
    );
}

#[test]
fn iter_lists_elements_pushed_so_far() {
    let mut array = Array::new(3);
    array.push(10).expect("room");
    array.push(20).expect("room");
    let listed: Vec<i32> = array.iter().copied().collect();
    assert_eq!(listed, vec![10, 20]);
}

#[test]
fn from_vec_keeps_order_and_leaves_one_free_position() {
    let mut array = Array::from(vec!['x', 'y', 'z']);
    assert_eq!(array.len(), 3);
    assert_eq!(array.capacity(), 4);
    assert_eq!(array.get(0), Some(&'x'));
    assert_eq!(array.get(2), Some(&'z'));
    assert_eq!(array.push('w'), Ok(3));
    assert_eq!(array.push('v'), Err(Error::CapacityExceeded { capacity: 4 }));
}
