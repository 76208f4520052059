use gc_rust::{Ptr, Store};

#[test]
fn ptr_new_get_set() {
    let mut store: Store<i32> = Store::new();
    let p = Ptr::new(&mut store, 7);
    assert!(p.is_safe(&store));
    assert_eq!(*p.get(&store), 7);
    p.set(&mut store, 8);
    assert_eq!(*p.get(&store), 8);
    assert_eq!(store.unfreed(), 1);
}

#[test]
fn ptr_dealloc_marks_unsafe() {
    let mut store: Store<i32> = Store::new();
    let mut p = Ptr::new(&mut store, 7);
    let q = Ptr::new(&mut store, 9);
    assert_eq!(store.unfreed(), 2);
    let alias = p;
    p.dealloc(&mut store);
    assert!(!p.is_safe(&store));
    assert!(!alias.is_safe(&store));
    assert!(q.is_safe(&store));
    assert_eq!(*q.get(&store), 9);
    assert_eq!(store.unfreed(), 1);
}

#[test]
fn ptr_outside_store_is_unsafe() {
    let mut store: Store<u8> = Store::new();
    let p = Ptr::new(&mut store, 1);
    let other: Store<u8> = Store::new();
    assert!(!p.is_safe(&other));
    assert_eq!(other.unfreed(), 0);
}
