use hyperloglog::estimator::HyperLogLog;
use hyperloglog::estimator::MergeError;

// The precision that the original error-rate setting of 0.00408 derives:
// ceil(log2((1.04 / 0.00408)^2)) == 16.
const P: u8 = 16;
const KEY0: u64 = 0x0123_4567_89ab_cdef;
const KEY1: u64 = 0xfedc_ba98_7654_3210;

/// The small-range (linear counting) estimate: m * ln(m / zeros).  At the
/// cardinalities these tests reach it is far below every threshold, so it
/// is the estimate the counter reports.
fn linear_estimate(h: &HyperLogLog) -> f64 {
    let m = h.register_count() as f64;
    let zeros = h.count_zero_registers() as f64;
    m * (m / zeros).ln()
}

#[test]
fn hyperloglog_test_simple() {
    let mut hll = HyperLogLog::new_from_keys(P, KEY0, KEY1);
    let keys = ["test1", "test2", "test3", "test2", "test2", "test2"];
    for k in &keys {
        hll.insert(k);
    }
    let m = hll.register_count();
    assert_eq!(m - hll.count_zero_registers(), 3);
    assert!((linear_estimate(&hll).round() - 3.0).abs() < f64::EPSILON);
    assert!(!hll.is_empty());
    hll.clear();
    assert!(hll.is_empty());
    assert_eq!(hll.count_zero_registers(), m);
}

#[test]
fn hyperloglog_test_merge() {
    let mut hll = HyperLogLog::new_from_keys(P, KEY0, KEY1);
    let keys = ["test1", "test2", "test3", "test2", "test2", "test2"];
    for k in &keys {
        hll.insert(k);
    }
    assert!((linear_estimate(&hll).round() - 3.0).abs() < f64::EPSILON);

    let mut hll2 = HyperLogLog::new_from_template(&hll);
    let keys2 = ["test3", "test4", "test4", "test4", "test4", "test1"];
    for k in &keys2 {
        hll2.insert(k);
    }
    assert!((linear_estimate(&hll2).round() - 3.0).abs() < f64::EPSILON);

    let before_merge = hll.registers().clone();
    let other = hll2.registers().clone();
    assert!(hll.merge(&hll2).is_ok());
    assert!((linear_estimate(&hll).round() - 4.0).abs() < f64::EPSILON);

    // The merged state is the element-wise maximum of the two counters.
    let merged = hll.registers();
    for i in 0..merged.len() {
        assert_eq!(merged[i], before_merge[i].max(other[i]));
    }

    // And it equals the state of one counter that saw the whole union.
    let mut direct = HyperLogLog::new_from_template(&hll2);
    for k in keys.iter().chain(keys2.iter()) {
        direct.insert(k);
    }
    assert_eq!(direct.registers(), hll.registers());
}

#[test]
fn hyperloglog_test_merge_with_keys() {
    let key0: u64 = 0x5eed_0000_0000_0001;
    let key1: u64 = 0x5eed_0000_0000_0002;

    let mut hll = HyperLogLog::new_from_keys(P, key0, key1);
    let keys = ["test1", "test2", "test3", "test2", "test2", "test2"];
    for k in &keys {
        hll.insert(k);
    }
    assert!((linear_estimate(&hll).round() - 3.0).abs() < f64::EPSILON);

    let mut hll2 = HyperLogLog::new_from_keys(P, key0, key1);
    let keys2 = ["test3", "test4", "test4", "test4", "test4", "test1"];
    for k in &keys2 {
        hll2.insert(k);
    }
    assert!((linear_estimate(&hll2).round() - 3.0).abs() < f64::EPSILON);

    assert!(hll.merge(&hll2).is_ok());
    assert!((linear_estimate(&hll).round() - 4.0).abs() < f64::EPSILON);
}

#[test]
fn merge_with_different_keys_is_refused() {
    let mut a = HyperLogLog::new_from_keys(12, 1, 2);
    let mut b = HyperLogLog::new_from_keys(12, 3, 4);
    a.insert("test1");
    a.insert("test2");
    b.insert("test3");
    let before = a.registers().clone();
    assert_eq!(a.merge(&b), Err(MergeError::KeyMismatch));
    assert_eq!(a.registers(), &before);
}

#[test]
fn insert_is_idempotent() {
    let mut once = HyperLogLog::new_from_keys(10, KEY0, KEY1);
    once.insert("x");
    let mut twice = HyperLogLog::new_from_template(&once);
    twice.insert("x");
    twice.insert("x");
    assert_eq!(once.registers(), twice.registers());
}

#[test]
fn insert_never_lowers_registers() {
    let mut hll = HyperLogLog::new_from_keys(6, KEY0, KEY1);
    let keys = ["a", "b", "c", "a", "d", "e", "b", "f"];
    let mut previous = hll.registers().clone();
    for k in &keys {
        hll.insert(k);
        let current = hll.registers();
        for i in 0..current.len() {
            assert!(current[i] >= previous[i]);
        }
        previous = current.clone();
    }
}

#[test]
fn clear_resets_to_empty() {
    let mut hll = HyperLogLog::new_from_keys(8, 7, 9);
    assert!(hll.is_empty());
    for k in &["one", "two", "three", "four"] {
        hll.insert(k);
    }
    assert!(!hll.is_empty());
    hll.clear();
    assert!(hll.is_empty());
    assert_eq!(hll.count_zero_registers(), hll.register_count());
    assert_eq!(hll.precision(), 8);
    assert_eq!(hll.key0(), 7);
    assert_eq!(hll.key1(), 9);
}

#[test]
fn precision_boundaries_construct() {
    let mut low = HyperLogLog::new_from_keys(4, 1, 2);
    assert_eq!(low.precision(), 4);
    assert_eq!(low.register_count(), 16);
    low.insert("boundary");
    assert!(!low.is_empty());

    let mut high = HyperLogLog::new_from_keys(18, 1, 2);
    assert_eq!(high.precision(), 18);
    assert_eq!(high.register_count(), 262144);
    high.insert("boundary");
    assert!(!high.is_empty());
}

#[test]
fn random_keys_counter_starts_empty() {
    let hll = HyperLogLog::new_with_random_keys(5);
    assert_eq!(hll.precision(), 5);
    assert_eq!(hll.register_count(), 32);
    assert!(hll.is_empty());
}

#[test]
fn insert_by_hash_value_exact_rank() {
    // At precision 4 the low 4 bits select the register and the other 60
    // feed the rank: rank = 60 - bit_length(hash >> 4) + 1.
    let mut hll = HyperLogLog::new_from_keys(4, 0, 0);

    // hash 16: register 0, remainder 1, rank 60.
    hll.insert_by_hash_value(16);
    assert_eq!(hll.registers()[0], 60);

    // hash 0: register 0, remainder 0, maximum rank 61 replaces 60.
    hll.insert_by_hash_value(0);
    assert_eq!(hll.registers()[0], 61);

    // hash 1: register 1, remainder 0, maximum rank 61.
    hll.insert_by_hash_value(1);
    assert_eq!(hll.registers()[1], 61);

    // All remainder bits set: rank 1.
    hll.insert_by_hash_value(u64::MAX);
    assert_eq!(hll.registers()[15], 1);

    // A lower rank never overwrites a higher one.
    hll.insert_by_hash_value(16);
    assert_eq!(hll.registers()[0], 61);
}

#[test]
fn count_zero_registers_counts() {
    let mut registers = vec![0u8; 16];
    registers[3] = 5;
    registers[7] = 61;
    let hll = HyperLogLog::from_parts(4, 1, 2, registers).unwrap();
    assert_eq!(hll.count_zero_registers(), 14);
    assert!(!hll.is_empty());
}

#[test]
fn from_parts_validates() {
    assert!(HyperLogLog::from_parts(3, 1, 2, vec![0u8; 8]).is_none());
    assert!(HyperLogLog::from_parts(19, 1, 2, vec![0u8; 1 << 19]).is_none());
    assert!(HyperLogLog::from_parts(4, 1, 2, vec![0u8; 15]).is_none());
    assert!(HyperLogLog::from_parts(4, 1, 2, vec![62u8; 16]).is_none());
    assert!(HyperLogLog::from_parts(4, 1, 2, vec![61u8; 16]).is_some());

    // Captured parts rebuild the counter exactly.
    let mut original = HyperLogLog::new_from_keys(7, 11, 13);
    for k in &["alpha", "beta", "gamma"] {
        original.insert(k);
    }
    let rebuilt = HyperLogLog::from_parts(
        original.precision(),
        original.key0(),
        original.key1(),
        original.registers().clone(),
    )
    .unwrap();
    assert_eq!(rebuilt.registers(), original.registers());
    assert_eq!(rebuilt.precision(), original.precision());
    assert_eq!(rebuilt.key0(), original.key0());
    assert_eq!(rebuilt.key1(), original.key1());
}

#[test]
fn hash_depends_on_value_and_keys() {
    // Same keys, same value: identical placement.
    let mut a = HyperLogLog::new_from_keys(10, KEY0, KEY1);
    let mut b = HyperLogLog::new_from_keys(10, KEY0, KEY1);
    a.insert("test1");
    b.insert("test1");
    assert_eq!(a.registers(), b.registers());

    // Same keys, different values: different placement.
    let mut c = HyperLogLog::new_from_keys(10, KEY0, KEY1);
    c.insert("test2");
    assert_ne!(a.registers(), c.registers());

    // Different keys, same value: different placement.
    let mut d = HyperLogLog::new_from_keys(10, KEY0.wrapping_add(1), KEY1);
    d.insert("test1");
    assert_ne!(a.registers(), d.registers());
}
