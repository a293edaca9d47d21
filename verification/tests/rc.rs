use mystd::rc::count_owner;
use mystd::rc::discount_owner;
use mystd::rc::MyInner;

#[test]
fn count_moves_by_one_within_its_range() {
    assert_eq!(count_owner(0), Some(1));
    assert_eq!(count_owner(41), Some(42));
    assert_eq!(count_owner(usize::MAX), None);
    assert_eq!(discount_owner(42), Some(41));
    assert_eq!(discount_owner(1), Some(0));
    assert_eq!(discount_owner(0), None);
}

#[test]
fn last_owner_is_told_to_free() {
    let shared = MyInner::new(42);
    assert_eq!(*shared.get(), 42);
    assert_eq!(shared.owners(), 1);
    assert!(shared.retain());
    assert_eq!(shared.owners(), 2);
    assert!(!shared.release());
    assert_eq!(shared.owners(), 1);
    assert!(shared.release());
    assert_eq!(shared.owners(), 0);
    assert!(!shared.release());
    assert_eq!(shared.owners(), 0);
    assert_eq!(*shared.get(), 42);
}
