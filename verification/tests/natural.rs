use pc_checker::natural::Natural;

fn same(a: &Natural, b: &Natural) -> bool {
    a.at_least(b) && b.at_least(a)
}

#[test]
fn sums_and_products_are_exact_beyond_machine_words() {
    let a = Natural::from_u128(u128::MAX);
    let one = Natural::from_u128(1);
    // (2^128 - 1)^2 + 2 (2^128 - 1) + 1 == (2^128)^2
    let square = a.times(&a);
    let power = a.plus(&one);
    let left = square.plus(&a).plus(&a).plus(&one);
    assert!(same(&left, &power.times(&power)));
    assert!(same(&left.minus(&square), &a.plus(&power)));
}

#[test]
fn comparison_does_not_depend_on_leading_zeros() {
    let a = Natural::from_u128(1 << 64);
    let b = Natural::from_u128((1 << 64) - 1);
    assert!(a.at_least(&b));
    assert!(!b.at_least(&a));
    assert!(same(&a.minus(&a), &Natural::from_u128(0)));
    assert!(same(&a.minus(&b), &Natural::from_u128(1)));
}

#[test]
fn quotients_are_rounded_half_to_even() {
    let round = |n: u128, d: u128| {
        Natural::round_quotient(&Natural::from_u128(n), &Natural::from_u128(d), n / d + 1)
    };
    assert_eq!(round(7, 2), 4);
    assert_eq!(round(5, 2), 2);
    assert_eq!(round(10, 3), 3);
    assert_eq!(round(11, 3), 4);
    assert_eq!(round(0, 9), 0);
    assert_eq!(round(u128::MAX, u128::MAX), 1);
}
