use gc_rust::{check_heap, Garbage, Heap};

#[test]
fn create_copy_release_scenario() {
    let mut heap: Heap<i32> = Heap::new();
    let mut h = Garbage::new(&mut heap, 27);
    let mut h2 = h.get(&mut heap);
    assert_eq!(h.count(&heap), 2);
    h.collect(&mut heap);
    assert_eq!(h2.count(&heap), 1);
    assert!(h2.is_live(&heap));
    assert_eq!(h2.unwrap(&heap), 27);
    h2.collect(&mut heap);
    assert!(!h2.is_live(&heap));
    assert_eq!(heap.unfreed(), 0);
    assert_eq!(check_heap(&heap), Ok(()));
}

#[test]
fn second_release_is_refused() {
    let mut heap: Heap<i32> = Heap::new();
    let mut h = Garbage::new(&mut heap, 5);
    assert!(h.is_live(&heap));
    h.collect(&mut heap);
    // a second release needs a live handle
    assert!(!h.is_live(&heap));
}

#[test]
fn check_heap_reports_unreleased_handle() {
    let mut heap: Heap<i32> = Heap::new();
    let mut a = Garbage::new(&mut heap, 1);
    let _b = Garbage::new(&mut heap, 2);
    assert_eq!(check_heap(&heap), Err(2));
    a.collect(&mut heap);
    assert_eq!(check_heap(&heap), Err(1));
    assert_eq!(heap.unfreed(), 2);
}

#[test]
fn check_heap_counts_handles_not_copies() {
    let mut heap: Heap<i32> = Heap::new();
    let a = Garbage::new(&mut heap, 1);
    let _c = a.get(&mut heap);
    assert_eq!(check_heap(&heap), Err(1));
}

#[test]
fn empty_heap_has_no_leaks() {
    let heap: Heap<u8> = Heap::new();
    assert_eq!(heap.unfreed(), 0);
    assert_eq!(check_heap(&heap), Ok(()));
}

#[test]
fn create_then_release_balances_blocks() {
    let mut heap: Heap<i32> = Heap::new();
    let _other = Garbage::new(&mut heap, 9);
    assert_eq!(heap.unfreed(), 2);
    let mut h = Garbage::new(&mut heap, 3);
    assert_eq!(heap.unfreed(), 4);
    h.collect(&mut heap);
    assert_eq!(heap.unfreed(), 2);
}

#[test]
fn count_after_copies() {
    let mut heap: Heap<i32> = Heap::new();
    let h = Garbage::new(&mut heap, 0);
    assert_eq!(h.count(&heap), 1);
    let mut copies = Vec::new();
    for _ in 0..5 {
        copies.push(h.get(&mut heap));
    }
    let c = copies[2].get(&mut heap);
    assert_eq!(h.count(&heap), 7);
    assert_eq!(c.count(&heap), 7);
    assert_eq!(heap.unfreed(), 2);
}

#[test]
fn release_above_one_keeps_value() {
    let mut heap: Heap<String> = Heap::new();
    let mut h = Garbage::new(&mut heap, String::from("kept"));
    let h2 = h.get(&mut heap);
    let h3 = h2.get(&mut heap);
    h.collect(&mut heap);
    assert_eq!(h2.count(&heap), 2);
    assert!(h2.is_live(&heap));
    assert!(h3.is_live(&heap));
    assert_eq!(h2.unwrap(&heap), "kept");
    assert_eq!(h3.decay(&heap).as_str(), "kept");
    assert_eq!(heap.unfreed(), 2);
}

#[test]
fn release_to_zero_frees_every_alias() {
    let mut heap: Heap<i32> = Heap::new();
    let mut h = Garbage::new(&mut heap, 11);
    let mut h2 = h.get(&mut heap);
    let h3 = h.get(&mut heap);
    h2.collect(&mut heap);
    h.collect(&mut heap);
    assert_eq!(heap.unfreed(), 2);
    let mut last = h3;
    last.collect(&mut heap);
    assert!(!h.is_live(&heap));
    assert!(!h2.is_live(&heap));
    assert!(!last.is_live(&heap));
    assert_eq!(heap.unfreed(), 0);
}

#[test]
fn freed_handle_stays_freed_after_new_handles() {
    let mut heap: Heap<i32> = Heap::new();
    let mut h = Garbage::new(&mut heap, 1);
    h.collect(&mut heap);
    let n = Garbage::new(&mut heap, 2);
    assert!(!h.is_live(&heap));
    assert!(n.is_live(&heap));
    assert_eq!(n.unwrap(&heap), 2);
}

#[test]
fn set_is_seen_through_aliases() {
    let mut heap: Heap<i32> = Heap::new();
    let mut h = Garbage::new(&mut heap, 1);
    let h2 = h.get(&mut heap);
    h.set(&mut heap, 42);
    assert_eq!(h2.unwrap(&heap), 42);
    assert_eq!(*h.decay(&heap), 42);
    assert_eq!(h.count(&heap), 2);
    assert_eq!(heap.unfreed(), 2);
}

#[test]
fn handles_do_not_share_payloads() {
    let mut heap: Heap<i32> = Heap::new();
    let mut a = Garbage::new(&mut heap, 1);
    let b = Garbage::new(&mut heap, 2);
    a.set(&mut heap, 10);
    assert_eq!(a.unwrap(&heap), 10);
    assert_eq!(b.unwrap(&heap), 2);
    a.collect(&mut heap);
    assert!(b.is_live(&heap));
    assert_eq!(b.count(&heap), 1);
}
