use collatz_pool::collatz::collatz;

#[test]
fn known_lengths() {
    assert_eq!(collatz(1, None), Some(0));
    assert_eq!(collatz(2, None), Some(1));
    assert_eq!(collatz(6, None), Some(8));
    assert_eq!(collatz(27, None), Some(111));
}

#[test]
fn lengths_for_two_to_ten() {
    let expected: [(u128, u128); 9] =
        [(2, 1), (3, 7), (4, 2), (5, 5), (6, 8), (7, 16), (8, 3), (9, 19), (10, 6)];
    for (n, len) in expected {
        assert_eq!(collatz(n, None), Some(len));
    }
}

#[test]
fn running_count_is_added() {
    assert_eq!(collatz(6, Some(5)), Some(13));
    assert_eq!(collatz(1, Some(7)), Some(7));
    assert_eq!(collatz(6, Some(0)), collatz(6, None));
}

#[test]
fn large_power_of_two() {
    assert_eq!(collatz(1u128 << 127, None), Some(127));
}

#[test]
fn overflowing_trajectory_is_none() {
    assert_eq!(collatz(u128::MAX, None), None);
}

#[test]
fn overflowing_total_is_none() {
    assert_eq!(collatz(2, Some(u128::MAX)), None);
    assert_eq!(collatz(1, Some(u128::MAX)), Some(u128::MAX));
}
