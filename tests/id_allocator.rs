use mittere::id_allocator::IdAllocator;

#[test]
fn allocates_in_order_from_zero() {
    let mut ids = IdAllocator::new();
    assert_eq!(ids.allocate(), 0);
    assert_eq!(ids.allocate(), 1);
    assert_eq!(ids.allocate(), 2);
}

#[test]
fn freed_id_is_reused_before_a_new_one() {
    let mut ids = IdAllocator::new();
    assert_eq!(ids.allocate(), 0);
    assert_eq!(ids.allocate(), 1);
    assert_eq!(ids.allocate(), 2);
    ids.free(1);
    assert_eq!(ids.allocate(), 1);
    assert_eq!(ids.allocate(), 3);
}

#[test]
fn smallest_freed_id_comes_first() {
    let mut ids = IdAllocator::new();
    for _ in 0..5 {
        ids.allocate();
    }
    ids.free(3);
    ids.free(0);
    ids.free(4);
    assert_eq!(ids.allocate(), 0);
    assert_eq!(ids.allocate(), 3);
    assert_eq!(ids.allocate(), 4);
    assert_eq!(ids.allocate(), 5);
}

#[test]
fn freeing_twice_hands_the_id_out_once() {
    let mut ids = IdAllocator::new();
    ids.allocate();
    ids.allocate();
    ids.free(0);
    ids.free(0);
    assert_eq!(ids.allocate(), 0);
    assert_eq!(ids.allocate(), 2);
}

#[test]
fn freeing_an_id_never_handed_out_is_ignored() {
    let mut ids = IdAllocator::new();
    ids.allocate();
    ids.free(7);
    assert_eq!(ids.allocate(), 1);
    assert!(ids.can_allocate());
}
