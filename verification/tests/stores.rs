use push_and_read::{HashMapChild, HashMapOwner, VecChild, VecOwner};

fn is_send<T: Send>() {}
fn is_sync<T: Sync>() {}

#[test]
fn insert_to_vec() {
    let v = VecOwner::new();
    let mut v = v.child();
    let s1 = v.push(Box::new(String::from("hey")));
    let s2 = v.push(Box::new(String::from("hey 2")));
    assert_eq!("hey", v.get(s1));
    assert_eq!("hey 2", v.get(s2));
}

#[test]
#[should_panic]
fn insert_twice() {
    let files = HashMapOwner::new();
    let mut files = files.child();

    files.insert(String::from("abc"), Box::new(vec![1]));
    files.insert(String::from("abc"), Box::new(vec![1]));
}

#[test]
fn test_auto_traits() {
    type Basic = Box<usize>;
    is_send::<VecOwner<Basic>>();
    is_sync::<VecOwner<Basic>>();
    is_send::<VecChild<Basic>>();
    is_sync::<VecChild<Basic>>();
    is_send::<HashMapOwner<Basic, Basic>>();
    is_sync::<HashMapOwner<Basic, Basic>>();
    is_send::<HashMapChild<Basic, Basic>>();
    is_sync::<HashMapChild<Basic, Basic>>();
}

#[test]
fn push_two_then_read_in_order() {
    let v = VecOwner::new();
    let mut v = v.child();
    let r1 = v.push(Box::new(10));
    let r2 = v.push(Box::new(20));
    assert_eq!(*v.get(r1), 10);
    assert_eq!(*v.get(r2), 20);
    for i in 0..100 {
        v.push(Box::new(i));
    }
    assert_eq!(*v.get(r1), 10);
    assert_eq!(*v.get(r2), 20);
}

#[test]
fn pushed_handles_survive_growth() {
    let v = VecOwner::new();
    let mut v = v.child();
    let mut handles = Vec::new();
    for i in 0..200usize {
        handles.push(v.push(Box::new(i)));
    }
    let owner = v.finish();
    assert_eq!(owner.len(), 200);
    for (i, r) in handles.iter().enumerate() {
        assert_eq!(*owner.get(*r), i);
    }
}

#[test]
fn handles_survive_child_scopes() {
    let owner = VecOwner::new();
    let mut child = owner.child();
    let r1 = child.push(Box::new(1));
    let owner = child.finish();
    assert_eq!(*owner.get(r1), 1);
    let mut child = owner.child();
    let r2 = child.push(Box::new(2));
    assert_eq!(*child.get(r1), 1);
    let owner = child.finish();
    assert_eq!(*owner.get(r1), 1);
    assert_eq!(*owner.get(r2), 2);
    assert_eq!(owner.len(), 2);
}

#[test]
fn reads_are_idempotent() {
    let v = VecOwner::new();
    let mut v = v.child();
    let r = v.push(Box::new(7));
    assert_eq!(*v.get(r), 7);
    v.push(Box::new(8));
    assert_eq!(*v.get(r), 7);
    v.push(Box::new(9));
    assert_eq!(*v.get(r), 7);
    assert_eq!(*v.get(r), 7);
}

#[test]
fn try_insert_fresh_key_succeeds_and_counts() {
    let m = HashMapOwner::new();
    let mut m = m.child();
    let r1 = m.try_insert(String::from("a"), Box::new(1));
    let r1 = r1.expect("fresh key was rejected");
    assert_eq!(*m.get(r1), 1);
    let r2 = m.try_insert(String::from("b"), Box::new(2));
    let r2 = r2.expect("fresh key was rejected");
    assert_eq!(*m.get(r2), 2);
    let owner = m.finish();
    assert_eq!(owner.len(), 2);
}

#[test]
fn try_insert_duplicate_key_changes_nothing() {
    let m = HashMapOwner::new();
    let mut m = m.child();
    let r1 = m.try_insert(String::from("10"), Box::new(10));
    let r1 = r1.expect("fresh key was rejected");
    assert_eq!(*m.get(r1), 10);
    let r2 = m.try_insert(String::from("10"), Box::new(20));
    assert!(r2.is_none());
    assert_eq!(*m.get(r1), 10);
    let owner = m.finish();
    assert_eq!(owner.len(), 1);
    assert_eq!(*owner.get(r1), 10);
}

#[test]
fn insert_fresh_keys_returns_readable_handles() {
    let map = HashMapOwner::new();
    let mut map = map.child();
    let v1 = map.insert(String::from("10"), Box::new(10));
    let v2 = map.insert(String::from("20"), Box::new(20));
    assert_eq!(*map.get(v1), 10);
    assert_eq!(*map.get(v2), 20);
    let owner = map.finish();
    assert_eq!(owner.len(), 2);
}

#[test]
fn map_reads_are_idempotent_across_insertions() {
    let m = HashMapOwner::new();
    let mut m = m.child();
    let r = m.insert(1u64, Box::new(100));
    assert_eq!(*m.get(r), 100);
    m.insert(2u64, Box::new(200));
    assert_eq!(*m.get(r), 100);
    assert!(m.try_insert(1u64, Box::new(300)).is_none());
    assert_eq!(*m.get(r), 100);
    let owner = m.finish();
    assert_eq!(*owner.get(r), 100);
    assert_eq!(owner.len(), 2);
}

#[test]
fn map_handles_survive_child_scopes() {
    let owner = HashMapOwner::new();
    let mut child = owner.child();
    let r1 = child.insert(5usize, Box::new(String::from("five")));
    let owner = child.finish();
    assert_eq!("five", owner.get(r1));
    let mut child = owner.child();
    let r2 = child.insert(6usize, Box::new(String::from("six")));
    assert_eq!("five", child.get(r1));
    let owner = child.finish();
    assert_eq!("five", owner.get(r1));
    assert_eq!("six", owner.get(r2));
}

#[test]
fn empty_stores_have_no_elements() {
    let v: VecOwner<Box<u8>> = VecOwner::new();
    assert_eq!(v.len(), 0);
    let m: HashMapOwner<u64, Box<u8>> = HashMapOwner::new();
    assert_eq!(m.len(), 0);
}
