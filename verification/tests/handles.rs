use fizix::BodyHandle;
use std::collections::HashSet;

#[test]
fn handle_keeps_its_index() {
    let handle = BodyHandle::new(7);
    assert_eq!(handle.index(), 7);
    assert_eq!(*handle, 7);
    assert_eq!(handle.0, 7);
}

#[test]
fn handle_zero_is_a_valid_index() {
    assert_eq!(BodyHandle::new(0).index(), 0);
}

#[test]
fn invalid_handle_is_the_largest_index() {
    assert_eq!(BodyHandle::invalid().index(), usize::MAX);
    assert_ne!(BodyHandle::invalid(), BodyHandle::new(0));
}

#[test]
fn handles_compare_by_index() {
    assert_eq!(BodyHandle::new(3), BodyHandle::new(3));
    assert_ne!(BodyHandle::new(3), BodyHandle::new(4));
}

#[test]
fn handles_are_copied_and_hashed() {
    let first = BodyHandle::new(5);
    let second = first;
    assert_eq!(first, second);
    let mut seen = HashSet::new();
    assert!(seen.insert(first));
    assert!(!seen.insert(second));
    assert!(seen.insert(BodyHandle::new(6)));
    assert_eq!(format!("{:?}", first), "BodyHandle(5)");
}
