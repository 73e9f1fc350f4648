use jrand::Jrand;

#[test]
fn rnd_test_seed_determinism_test() {
    let mut o = Jrand::new();
    let mut expected: Vec<u32> = Vec::new();
    let mut results: Vec<u32> = Vec::new();
    o.seed = 1;
    for _i in 1..20 {
        expected.push(o.rnd());
    }
    o.seed = 1;
    for _i in 1..20 {
        results.push(o.rnd());
    }
    assert_eq!(expected, results);
}

#[test]
fn rnd_range_test() {
    let mut o = Jrand::new();
    for _i in 0..2000 {
        let result = o.rnd_range(4, 50);
        assert!(result >= 4 && result < 50);
    }
}

#[test]
fn new_starts_at_seed_zero() {
    assert_eq!(Jrand::new().seed, 0);
}

#[test]
fn rnd_advances_seed_by_step() {
    let mut o = Jrand::new();
    o.rnd();
    assert_eq!(o.seed, 0xe120fc15);
    o.seed = u64::MAX;
    o.rnd();
    assert_eq!(o.seed, 0xe120fc14);
}

#[test]
fn rnd_first_values_from_seed_zero() {
    let mut o = Jrand::new();
    assert_eq!(o.rnd(), 3155149531);
    assert_eq!(o.rnd(), 2015331767);
    assert_eq!(o.rnd(), 2991270699);
}

#[test]
fn rnd_first_values_from_seed_one() {
    let mut o = Jrand::new();
    o.seed = 1;
    assert_eq!(o.rnd(), 4169479523);
    assert_eq!(o.rnd(), 2694379270);
    assert_eq!(o.rnd(), 3883289578);
}

#[test]
fn two_generators_with_same_seed_agree() {
    let mut a = Jrand::new();
    let mut b = Jrand::new();
    a.seed = 987654321;
    b.seed = 987654321;
    for _i in 0..100 {
        assert_eq!(a.rnd(), b.rnd());
    }
}

#[test]
fn rnd_range_single_value() {
    let mut o = Jrand::new();
    for min in [0u32, 7, 1000, u32::MAX - 1] {
        for _i in 0..50 {
            assert_eq!(o.rnd_range(min, min + 1), min);
        }
    }
}

#[test]
fn rnd_range_is_draw_mod_span_plus_min() {
    let mut a = Jrand::new();
    let mut b = Jrand::new();
    a.seed = 42;
    b.seed = 42;
    for _i in 0..100 {
        let v = a.rnd();
        assert_eq!(b.rnd_range(10, 17), v % 7 + 10);
    }
}

#[test]
fn rnd_range_full_width() {
    let mut o = Jrand::new();
    for _i in 0..100 {
        let r = o.rnd_range(0, u32::MAX);
        assert!(r < u32::MAX);
    }
}
