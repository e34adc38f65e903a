use pds::g_counter::GCounter;

#[test]
fn value_sums_all_slots() {
    let c = GCounter::new(0, vec![1, 2, 3]);
    assert_eq!(c.value(), 6);
    assert_eq!(GCounter::new(0, vec![]).value(), 0);
}

#[test]
fn increment_bumps_own_slot() {
    let mut c = GCounter::new(1, vec![0, 0, 0]);
    c.increment();
    c.increment();
    assert_eq!(c.value(), 2);
    assert!(c.compare(&GCounter::new(7, vec![0, 2, 0])));
}

#[test]
fn compare_checks_every_slot() {
    let a = GCounter::new(0, vec![1, 2, 3]);
    assert!(a.compare(&GCounter::new(1, vec![1, 2, 3])));
    assert!(!a.compare(&GCounter::new(0, vec![1, 2, 4])));
    assert!(!a.compare(&GCounter::new(0, vec![1, 2])));
}

#[test]
fn merge_takes_slotwise_maximum() {
    let mut a = GCounter::new(0, vec![5, 1, 3]);
    let b = GCounter::new(1, vec![2, 4, 3]);
    let merged = a.merge(&b);
    assert_eq!(merged, vec![5, 4, 3]);
    assert!(a.compare(&GCounter::new(0, vec![5, 4, 3])));
    assert_eq!(a.value(), 12);
}

#[test]
fn merge_keeps_slots_the_other_lacks() {
    let mut a = GCounter::new(0, vec![1, 1, 9]);
    let b = GCounter::new(1, vec![3]);
    assert_eq!(a.merge(&b), vec![3, 1, 9]);
}

#[test]
fn merge_is_order_free_and_idempotent() {
    let mut a = GCounter::new(0, vec![5, 1, 3]);
    let mut b = GCounter::new(1, vec![2, 4, 3]);
    let b_copy = GCounter::new(1, vec![2, 4, 3]);
    let a_copy = GCounter::new(0, vec![5, 1, 3]);
    let ab = a.merge(&b_copy);
    let ba = b.merge(&a_copy);
    assert_eq!(ab, ba);
    let again = a.merge(&GCounter::new(1, ab.clone()));
    assert_eq!(again, ab);
}
