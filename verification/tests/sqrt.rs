use opensentinel::sqrt::integer_sqrt;

#[test]
fn roots_of_small_numbers_round_down() {
    let expected: [(u128, u64); 10] =
        [(0, 0), (1, 1), (2, 1), (3, 1), (4, 2), (8, 2), (9, 3), (15, 3), (16, 4), (17, 4)];
    for (value, root) in expected {
        assert_eq!(integer_sqrt(value), root, "root of {}", value);
    }
}

#[test]
fn roots_of_perfect_squares_are_exact() {
    for root in [5u64, 1_000, 65_535, 65_536, 4_294_967_295, 4_294_967_296, u64::MAX] {
        let square: u128 = (root as u128) * (root as u128);
        assert_eq!(integer_sqrt(square), root);
        assert_eq!(integer_sqrt(square - 1), root - 1);
        if root < u64::MAX {
            assert_eq!(integer_sqrt(square + 1), root);
        }
    }
}

#[test]
fn root_of_the_largest_number_is_the_largest_root() {
    assert_eq!(integer_sqrt(u128::MAX), u64::MAX);
}

#[test]
fn root_of_a_scaled_distance() {
    // sqrt(2 * 10^12) = 1414213.56...
    assert_eq!(integer_sqrt(2_000_000_000_000), 1_414_213);
    // sqrt(25 * 10^12) = 5 * 10^6
    assert_eq!(integer_sqrt(25_000_000_000_000), 5_000_000);
}
