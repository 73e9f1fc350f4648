use jrand::cantor_hash;
use std::collections::HashSet;

#[test]
fn cantor_hash_test_collision_test() {
    let mut result_set: HashSet<u64> = HashSet::new();
    let iters = 20;
    for i in -iters..iters {
        for j in -iters..iters {
            assert!(result_set.insert(cantor_hash(i, j)));
        }
    }
}

#[test]
fn cantor_hash_same_sign_values() {
    assert_eq!(cantor_hash(0, 0), 0);
    // x = 6, y = 4: (36 + 6 + 4) / 2
    assert_eq!(cantor_hash(3, 2), 23);
    // x = 2, y = 6: (2 + 36) / 2
    assert_eq!(cantor_hash(1, 3), 19);
    // x = 1, y = 1: (1 + 1 + 1) / 2
    assert_eq!(cantor_hash(-1, -1), 1);
}

#[test]
fn cantor_hash_mixed_sign_values() {
    // x = 2, y = 1: index 3, folded to -4
    assert_eq!(cantor_hash(1, -1), u64::MAX - 3);
    // x = 1, y = 0: index 1, folded to -2
    assert_eq!(cantor_hash(-1, 0), u64::MAX - 1);
}

#[test]
fn cantor_hash_deterministic() {
    for (a, b) in [(0, 0), (5, -9), (-123456, 654321), (i32::MIN, i32::MAX)] {
        assert_eq!(cantor_hash(a, b), cantor_hash(a, b));
    }
}

#[test]
fn cantor_hash_extremes_do_not_collide() {
    let inputs = [i32::MIN, i32::MIN + 1, -1, 0, 1, i32::MAX - 1, i32::MAX];
    let mut seen: HashSet<u64> = HashSet::new();
    for a in inputs {
        for b in inputs {
            assert!(seen.insert(cantor_hash(a, b)));
        }
    }
    // x = y = 2^32 - 1: the largest index, (2^64 - 1) / 2
    assert_eq!(cantor_hash(i32::MIN, i32::MIN), (u64::MAX) / 2);
    // x = 2^32 - 2, y = 0: index ((2^32 - 2)^2 + 2^32 - 2) / 2 = 2^63 - 2^33 + 2^31 + 1
    assert_eq!(cantor_hash(i32::MAX, 0), 0x7FFF_FFFE_8000_0001);
}
