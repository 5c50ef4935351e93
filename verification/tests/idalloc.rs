//! The id allocator: compact assignment, caps, and recycling.

use classicl_server::ids::IdAllocator;

#[test]
fn ids_are_assigned_from_one() {
    let mut a = IdAllocator::new(None);
    assert_eq!(a.allocate(), Some(1));
    assert_eq!(a.allocate(), Some(2));
    assert_eq!(a.allocate(), Some(3));
}

#[test]
fn freed_id_is_reused_before_the_counter_advances() {
    let mut a = IdAllocator::new(Some(127));
    assert_eq!(a.allocate(), Some(1));
    assert_eq!(a.allocate(), Some(2));
    assert_eq!(a.allocate(), Some(3));
    a.recycle(2);
    assert_eq!(a.allocate(), Some(2));
    assert_eq!(a.current, 3);
    assert_eq!(a.allocate(), Some(4));
}

#[test]
fn limit_caps_allocation() {
    let mut a = IdAllocator::new(Some(2));
    assert_eq!(a.allocate(), Some(1));
    assert_eq!(a.allocate(), Some(2));
    assert_eq!(a.allocate(), None);
    a.recycle(1);
    assert_eq!(a.allocate(), Some(1));
    assert_eq!(a.allocate(), None);
}

#[test]
fn limit_never_exceeds_127() {
    let a = IdAllocator::new(None);
    assert_eq!(a.cap, 127);
    let b = IdAllocator::new(Some(5));
    assert_eq!(b.cap, 5);
}
