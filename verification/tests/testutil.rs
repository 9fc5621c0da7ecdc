use koffer::testutil::TestRng;

#[test]
fn test_rng_counts_up_from_its_seed() {
    let mut rng = TestRng::new(5);
    assert_eq!(rng.next_u64(), 6);
    assert_eq!(rng.next_u64(), 7);
    assert_eq!(rng.next_u32(), 8);
}

#[test]
fn test_rng_wraps_around() {
    let mut rng = TestRng::new(u64::MAX);
    assert_eq!(rng.next_u64(), 0);
    let mut rng = TestRng::new(u64::MAX - 1);
    assert_eq!(rng.next_u32(), u32::MAX);
}

#[test]
fn test_rng_fill_writes_little_endian_counters() {
    let mut rng = TestRng::new(0);
    let bytes = rng.fill(12);
    assert_eq!(bytes, vec![1, 0, 0, 0, 0, 0, 0, 0, 2, 0, 0, 0]);
    // The partial chunk consumed a whole draw.
    assert_eq!(rng.next_u64(), 3);
    assert!(TestRng::new(0).fill(0).is_empty());
}
