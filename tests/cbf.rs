use pds::cbf::{CountingBloomFilter, FilterError};

fn item(s: &str) -> Vec<u8> {
    s.as_bytes().to_vec()
}

fn filter(m: u32, k: u32) -> CountingBloomFilter {
    match CountingBloomFilter::new(m, k) {
        Ok(f) => f,
        Err(e) => panic!("construction failed: {:?}", e),
    }
}

#[test]
fn new_rejects_zero_slots() {
    assert!(matches!(CountingBloomFilter::new(0, 0), Err(FilterError::InvalidParameters)));
    assert!(matches!(CountingBloomFilter::new(0, 1), Err(FilterError::InvalidParameters)));
}

#[test]
fn new_rejects_zero_hashes() {
    assert!(matches!(CountingBloomFilter::new(16, 0), Err(FilterError::InvalidParameters)));
}

#[test]
fn new_rejects_more_hashes_than_slots() {
    assert!(matches!(CountingBloomFilter::new(4, 5), Err(FilterError::InvalidParameters)));
}

#[test]
fn new_accepts_as_many_hashes_as_slots() {
    let f = filter(3, 3);
    assert_eq!(f.slots(), 3);
    assert_eq!(f.hashes(), 3);
    assert_eq!(f.size(), 0);
    assert!(!f.contains(&item("a")));
}

#[test]
fn concrete_scenario() {
    let mut f = filter(16, 2);
    f.add(&item("a"));
    f.add(&item("b"));
    assert!(f.contains(&item("a")));
    assert!(f.contains(&item("b")));
    f.remove(&item("a"));
    assert!(f.contains(&item("b")));
    f.reset();
    assert!(!f.contains(&item("b")));
    assert_eq!(f.size(), 0);
}

#[test]
fn added_item_survives_other_adds_and_removals() {
    let mut f = filter(64, 3);
    f.add(&item("a"));
    for w in ["b", "c", "x", "y", "z", "apple", "banana"] {
        f.add(&item(w));
        assert!(f.contains(&item("a")));
    }
    f.remove(&item("b"));
    f.remove(&item("banana"));
    assert!(f.contains(&item("a")));
}

#[test]
fn empty_filter_reports_nothing() {
    let f = filter(16, 2);
    for w in ["", "a", "b", "hello"] {
        assert!(!f.contains(&item(w)));
    }
}

#[test]
fn removing_absent_item_keeps_counters_at_zero() {
    let mut f = filter(16, 2);
    for _ in 0..5 {
        f.remove(&item("a"));
    }
    assert_eq!(f.size(), -5);
    assert!(!f.contains(&item("a")));
    f.add(&item("a"));
    assert!(f.contains(&item("a")));
    assert_eq!(f.size(), -4);
}

#[test]
fn removing_absent_item_leaves_others_alone() {
    let mut f = filter(16, 2);
    f.add(&item("b"));
    for _ in 0..10 {
        f.remove(&item("a"));
        f.remove(&item("c"));
    }
    assert!(f.contains(&item("b")));
}

#[test]
fn counters_saturate_instead_of_wrapping() {
    let mut f = filter(16, 2);
    for _ in 0..300 {
        f.add(&item("a"));
    }
    assert!(f.contains(&item("a")));
    // A wrapping 8-bit counter would hold 300 - 256 = 44 here and reach zero.
    for _ in 0..44 {
        f.remove(&item("a"));
    }
    assert!(f.contains(&item("a")));
    for _ in 0..211 {
        f.remove(&item("a"));
    }
    assert!(!f.contains(&item("a")));
    assert_eq!(f.size(), 45);
}

#[test]
fn reset_forgets_everything() {
    let mut f = filter(32, 4);
    for w in ["a", "b", "c", "apple", "banana"] {
        f.add(&item(w));
    }
    f.remove(&item("c"));
    assert_eq!(f.size(), 4);
    f.reset();
    assert_eq!(f.size(), 0);
    assert_eq!(f.slots(), 32);
    assert_eq!(f.hashes(), 4);
    for w in ["a", "b", "c", "apple", "banana", ""] {
        assert!(!f.contains(&item(w)));
    }
    f.reset();
    assert_eq!(f.size(), 0);
}

#[test]
fn size_counts_adds_minus_removes() {
    let mut f = filter(16, 2);
    f.add(&item("a"));
    f.add(&item("a"));
    f.add(&item("b"));
    f.remove(&item("x"));
    assert_eq!(f.size(), 2);
}
