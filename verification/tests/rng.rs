use domers::rng::DotNetRandom;

#[test]
fn matches_system_random_seed_zero() {
    let mut rng = DotNetRandom::new(0);
    assert_eq!(rng.next(), 1_559_595_546);
    assert_eq!(rng.next(), 1_755_192_844);
    assert_eq!(rng.next(), 1_649_316_166);
}

#[test]
fn matches_system_random_other_seeds() {
    let mut rng = DotNetRandom::new(42);
    assert_eq!(rng.next(), 1_434_747_710);
    assert_eq!(rng.next(), 302_596_119);
    let mut negative = DotNetRandom::new(-7);
    assert_eq!(negative.next(), 822_959_691);
    assert_eq!(negative.next(), 1_871_007_331);
}

#[test]
fn same_seed_same_sequence() {
    let mut a = DotNetRandom::new(1234);
    let mut b = DotNetRandom::new(1234);
    for _ in 0..200 {
        let x = a.next();
        assert_eq!(x, b.next());
        assert!((0..i32::MAX).contains(&x));
    }
}

#[test]
fn internal_sample_is_next() {
    let mut a = DotNetRandom::new(5);
    let mut b = DotNetRandom::new(5);
    assert_eq!(a.internal_sample(), b.next());
}
