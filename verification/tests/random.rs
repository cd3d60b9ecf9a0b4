use ftkit::{next_u64, random_number, RandBound};

#[test]
fn range() {
    let mut state: u64 = 1;
    let mut found = [false; 10];

    for _ in 0..1000 {
        found[random_number(&mut state, RandBound::Included(0), RandBound::Excluded(10)) as usize] =
            true;
    }

    for (i, f) in found.iter().enumerate() {
        assert!(f, "{i} was never generated");
    }
}

#[test]
fn range_inclusive() {
    let mut state: u64 = 1;
    let mut found = [false; 10];

    for _ in 0..1000 {
        found[random_number(&mut state, RandBound::Included(0), RandBound::Excluded(10)) as usize] =
            true;
    }

    for (i, f) in found.iter().enumerate() {
        assert!(f, "{i} was never generated");
    }
}

#[test]
fn generator_formula_gives_exact_values() {
    let mut state: u64 = 0;
    assert_eq!(next_u64(&mut state), 1233057930238600590);
    assert_eq!(state, 0xa0761d6478bd642f);
    assert_eq!(next_u64(&mut state), 14892235431655409005);
    assert_eq!(state, 0x40ec3ac8f17ac85e);

    let mut other: u64 = 1;
    assert_eq!(next_u64(&mut other), 14839104130206199084);
}

#[test]
fn draw_formula_gives_exact_value() {
    let mut state: u64 = 1;
    let r = random_number(&mut state, RandBound::Included(0), RandBound::Excluded(10));
    assert_eq!(r, 4);
    assert_eq!(state, 11562461410679940144);
}

#[test]
fn full_range_reinterprets_low_bits() {
    let mut state: u64 = 123456789;
    let r = random_number(&mut state, RandBound::Unbounded, RandBound::Unbounded);
    assert_eq!(r, 1404587119);
}

#[test]
fn single_point_range() {
    let mut state: u64 = 99;
    let r = random_number(&mut state, RandBound::Included(16), RandBound::Included(16));
    assert_eq!(r, 16);
}

#[test]
fn symmetric_range_stays_in_bounds() {
    let mut state: u64 = 7;
    for _ in 0..200 {
        let r = random_number(&mut state, RandBound::Included(-15), RandBound::Included(15));
        assert!((-15..=15).contains(&r));
    }
}

#[test]
fn excluded_bounds_resolve_to_the_values_next_to_them() {
    let mut state: u64 = 5;
    for _ in 0..200 {
        let r = random_number(&mut state, RandBound::Excluded(11), RandBound::Excluded(15));
        assert!((12..=14).contains(&r));
    }
}
