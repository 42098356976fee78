use flappy_core::rng::RandomSource;

#[test]
fn same_seed_same_sequence() {
    let mut a = RandomSource::new_with_seed([10, 13, 14, 15]);
    let mut b = RandomSource::new_with_seed([10, 13, 14, 15]);
    for _ in 0..100 {
        assert_eq!(a.next_value(), b.next_value());
    }
    assert_eq!(a, b);
}

#[test]
fn known_sequence_for_fixed_seed() {
    let mut r = RandomSource::new_with_seed([10, 13, 14, 15]);
    assert_eq!(r.next_value(), 30845);
    assert_eq!(r.next_value(), 2051);
    assert_eq!(r.next_value(), 24678);
    assert_eq!(r.next_value(), 12348);
}

#[test]
fn next_bounded_stays_in_range() {
    let mut r = RandomSource::new_with_seed([1, 2, 3, 4]);
    for n in 1..50u32 {
        let v = r.next_bounded(n);
        assert!(v < n);
    }
}

#[test]
fn next_bounded_matches_raw_draw() {
    let mut a = RandomSource::new_with_seed([10, 13, 14, 15]);
    let mut b = RandomSource::new_with_seed([10, 13, 14, 15]);
    let raw = a.next_value();
    let bounded = b.next_bounded(56);
    assert_eq!(bounded, raw % 56);
    assert_eq!(a, b);
}

#[test]
fn different_seeds_diverge() {
    let mut a = RandomSource::new_with_seed([10, 13, 14, 15]);
    let mut b = RandomSource::new_with_seed([15, 14, 13, 10]);
    assert_ne!(a.next_value(), b.next_value());
}
