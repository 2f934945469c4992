use toric::fibonacci::{next_fibonacci, previous_fibonacci};
use toric::mutual_credit::limit_within_ceiling;

#[test]
fn next_fibonacci_is_first_above() {
    assert_eq!(next_fibonacci(0), 2);
    assert_eq!(next_fibonacci(1), 2);
    assert_eq!(next_fibonacci(2), 3);
    assert_eq!(next_fibonacci(20), 21);
    assert_eq!(next_fibonacci(21), 34);
    assert_eq!(next_fibonacci(987), 1597);
    assert_eq!(next_fibonacci(1596), 1597);
}

#[test]
fn next_fibonacci_at_the_top_of_u64() {
    // One below F(93): the answer is F(93) itself.
    assert_eq!(next_fibonacci(12200160415121876737), 12200160415121876738);
}

#[test]
fn previous_fibonacci_is_two_places_back() {
    assert_eq!(previous_fibonacci(0), 1);
    assert_eq!(previous_fibonacci(1), 1);
    assert_eq!(previous_fibonacci(3), 1);
    assert_eq!(previous_fibonacci(21), 8);
    assert_eq!(previous_fibonacci(22), 13);
    assert_eq!(previous_fibonacci(34), 13);
}

#[test]
fn credit_limit_is_bounded_by_next_fibonacci() {
    assert_eq!(limit_within_ceiling(-500, 987), -500);
    assert_eq!(limit_within_ceiling(-2000, 987), -1597);
    assert_eq!(limit_within_ceiling(-1597, 987), -1597);
    assert_eq!(limit_within_ceiling(-100, 0), -2);
    assert_eq!(limit_within_ceiling(-1, 0), -1);
}
