use accounts_bench::slots::{Ancestors, SlotSet};

#[test]
fn new_set_is_empty() {
    let set = SlotSet::new();
    assert_eq!(set.len(), 0);
    assert!(set.slots().is_empty());
    assert!(!set.contains(0));
}

#[test]
fn range_holds_the_slots_below_its_count() {
    let set = SlotSet::from_range(5);
    assert_eq!(set.slots(), &vec![0, 1, 2, 3, 4]);
    assert_eq!(set.len(), 5);
    for slot in 0..5 {
        assert!(set.contains(slot));
    }
    assert!(!set.contains(5));
    assert!(!set.contains(u64::MAX));
    assert_eq!(SlotSet::from_range(0).len(), 0);
}

#[test]
fn insert_keeps_the_slots_in_order() {
    let mut set = SlotSet::new();
    assert!(set.insert(7));
    assert!(set.insert(3));
    assert!(set.insert(u64::MAX));
    assert!(set.insert(0));
    assert!(set.insert(5));
    assert_eq!(set.slots(), &vec![0, 3, 5, 7, u64::MAX]);
    assert_eq!(set.len(), 5);
}

#[test]
fn insert_of_a_member_changes_nothing() {
    let mut set = SlotSet::from_range(3);
    assert!(!set.insert(1));
    assert!(!set.insert(0));
    assert!(!set.insert(2));
    assert_eq!(set.slots(), &vec![0, 1, 2]);
}

#[test]
fn contains_finds_members_only() {
    let mut set = SlotSet::new();
    for slot in [10u64, 20, 30, 40, 50, 60, 70] {
        set.insert(slot);
    }
    for slot in 0..80u64 {
        assert_eq!(set.contains(slot), slot >= 10 && slot % 10 == 0);
    }
}

#[test]
fn set_of_a_list_forgets_order_and_repeats() {
    let set: Ancestors = SlotSet::from_slots(&vec![9, 2, 9, 4, 2, 0]);
    assert_eq!(set.slots(), &vec![0, 2, 4, 9]);
    assert!(set.contains(9));
    assert!(!set.contains(1));
    assert_eq!(SlotSet::from_slots(&Vec::new()).len(), 0);
}

#[test]
fn equal_sets_compare_equal() {
    assert_eq!(SlotSet::from_slots(&vec![2, 1, 0]), SlotSet::from_range(3));
    assert_ne!(SlotSet::from_slots(&vec![2, 1]), SlotSet::from_range(3));
}
