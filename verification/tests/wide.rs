use opensentinel::wide::U256;

fn pair(value: U256) -> (u128, u128) {
    (value.hi, value.lo)
}

#[test]
fn widening_keeps_the_value_in_the_low_half() {
    assert_eq!(pair(U256::from_u128(0)), (0, 0));
    assert_eq!(pair(U256::from_u128(u128::MAX)), (0, u128::MAX));
}

#[test]
fn product_of_small_numbers_stays_in_the_low_half() {
    assert_eq!(pair(U256::product(6, 7)), (0, 42));
    assert_eq!(pair(U256::product(0, u128::MAX)), (0, 0));
    assert_eq!(pair(U256::product(u128::MAX, 1)), (0, u128::MAX));
}

#[test]
fn product_of_largest_numbers_is_exact() {
    // (2^128 - 1)^2 = (2^128 - 2) * 2^128 + 1
    assert_eq!(pair(U256::product(u128::MAX, u128::MAX)), (u128::MAX - 1, 1));
}

#[test]
fn product_crosses_into_the_high_half() {
    // 2^64 * 2^64 = 2^128
    assert_eq!(pair(U256::product(1 << 64, 1 << 64)), (1, 0));
    // (2^64 + 1) * (2^64 - 1) = 2^128 - 1
    assert_eq!(pair(U256::product((1 << 64) + 1, (1 << 64) - 1)), (0, u128::MAX));
    // (2^100 + 3) * (2^90 + 5) = 2^190 + 5 * 2^100 + 3 * 2^90 + 15
    assert_eq!(
        pair(U256::product((1 << 100) + 3, (1 << 90) + 5)),
        (1 << 62, 5 * (1 << 100) + 3 * (1 << 90) + 15)
    );
}

#[test]
fn product_carries_from_the_middle_terms() {
    // (2^64 - 1) * 2^64 in both halves: a = b = 2^128 - 2^64.
    // a * b = 2^256 - 2^193 + 2^128.
    let a: u128 = u128::MAX - ((1 << 64) - 1);
    assert_eq!(pair(U256::product(a, a)), (u128::MAX - (1 << 65) + 2, 0));
}

#[test]
fn sum_carries_into_the_high_half() {
    let top = U256 { hi: 7, lo: u128::MAX };
    assert_eq!(pair(top.plus_u128(0)), (7, u128::MAX));
    assert_eq!(pair(top.plus_u128(1)), (8, 0));
    assert_eq!(pair(top.plus_u128(u128::MAX)), (8, u128::MAX - 1));
    assert_eq!(pair(U256 { hi: 0, lo: 40 }.plus_u128(2)), (0, 42));
}

#[test]
fn difference_borrows_from_the_high_half() {
    let a = U256 { hi: 8, lo: 0 };
    assert_eq!(pair(a.minus(U256 { hi: 0, lo: 1 })), (7, u128::MAX));
    assert_eq!(pair(a.minus(U256 { hi: 7, lo: u128::MAX })), (0, 1));
    assert_eq!(pair(a.minus(a)), (0, 0));
    assert_eq!(pair(U256 { hi: 3, lo: 9 }.minus(U256 { hi: 1, lo: 4 })), (2, 5));
}

#[test]
fn scaling_by_a_small_factor_is_exact() {
    assert_eq!(pair(U256 { hi: 5, lo: 9 }.times_u64(0)), (0, 0));
    assert_eq!(pair(U256 { hi: 5, lo: 9 }.times_u64(3)), (15, 27));
    // (2^128 - 1) * 2 = 2^129 - 2
    assert_eq!(pair(U256 { hi: 0, lo: u128::MAX }.times_u64(2)), (1, u128::MAX - 1));
    // (2^192 - 1) * (2^64 - 1) = 2^256 - 2^192 - 2^64 + 1
    let wide = U256 { hi: (1 << 64) - 1, lo: u128::MAX };
    assert_eq!(
        pair(wide.times_u64(u64::MAX)),
        (u128::MAX - (1 << 64), u128::MAX - (1 << 64) + 2)
    );
}

#[test]
fn order_looks_at_the_high_half_first() {
    let small = U256 { hi: 1, lo: u128::MAX };
    let large = U256 { hi: 2, lo: 0 };
    assert!(small.less_than(large));
    assert!(!large.less_than(small));
    assert!(!small.less_than(small));
    assert!(U256 { hi: 2, lo: 3 }.less_than(U256 { hi: 2, lo: 4 }));
    assert!(!U256 { hi: 2, lo: 4 }.less_than(U256 { hi: 2, lo: 3 }));
}
