use reference::Lock;

#[test]
fn lock_reads_and_writes() {
    let lock = Lock::new(vec![1, 2]);
    let len = lock.read(|v: &Vec<i32>| v.len());
    assert_eq!(len, 2);
    lock.write(|v: &mut Vec<i32>| v.push(3));
    assert_eq!(lock.read(|v: &Vec<i32>| v.clone()), vec![1, 2, 3]);
}
