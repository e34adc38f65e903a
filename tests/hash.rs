use pds::hash::{hash_bytes, hash_fn};

#[test]
fn base_hash_exact_values() {
    assert_eq!(hash_bytes(&b"".to_vec()), 17280346270528514342);
    assert_eq!(hash_bytes(&b"a".to_vec()), 9413272369427828315);
    assert_eq!(hash_bytes(&b"ab".to_vec()), 15740586271646006756);
}

#[test]
fn probes_exact_values() {
    let a = b"a".to_vec();
    assert_eq!(hash_fn(0, 16, &a), 11);
    assert_eq!(hash_fn(1, 16, &a), 3);
    assert_eq!(hash_fn(0, 1000, &a), 171);
    assert_eq!(hash_fn(1, 1000, &a), 435);
    assert_eq!(hash_fn(2, 1000, &a), 699);
    assert_eq!(hash_fn(2, 1000, &b"ab".to_vec()), 854);
}

#[test]
fn hash_depends_on_earlier_bytes() {
    // Items that differ only before their last byte must not collide.
    assert_ne!(hash_bytes(&b"ab".to_vec()), hash_bytes(&b"bb".to_vec()));
    assert_ne!(hash_fn(0, 1000, &b"ab".to_vec()), hash_fn(0, 1000, &b"bb".to_vec()));
}

#[test]
fn probes_stay_in_range() {
    let items = [b"".to_vec(), b"x".to_vec(), b"hello world".to_vec(), vec![255u8; 40]];
    for m in [1u32, 2, 7, 16, 1000, u32::MAX] {
        for it in items.iter() {
            for i in 0..8u32 {
                assert!(hash_fn(i, m, it) < m as usize);
            }
        }
    }
}
