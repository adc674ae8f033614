use bevy_webgl2::slots::SlotAllocator;

#[test]
fn repeated_requests_return_the_same_slot() {
    let mut a = SlotAllocator::new();
    let s = a.get_or_create(1, 2);
    assert_eq!(a.get_or_create(1, 2), s);
    assert_eq!(a.get_or_create(1, 2), s);
    assert_eq!(a.len(), 1);
}

#[test]
fn distinct_keys_get_slots_in_request_order() {
    let mut a = SlotAllocator::new();
    assert_eq!(a.get_or_create(3, 0), 0);
    assert_eq!(a.get_or_create(0, 0), 1);
    assert_eq!(a.get_or_create(3, 1), 2);
    assert_eq!(a.get_or_create(3, 0), 0);
    assert_eq!(a.get_or_create(0, 3), 3);
    assert_eq!(a.len(), 4);
    assert_eq!(a.get(3, 1), Some(2));
    assert_eq!(a.get(9, 9), None);
}
