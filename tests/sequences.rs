use numeric_core::primes::calculate_prime_numbers;
use numeric_core::sequences::calculate_fibonacci;

#[test]
fn primes_up_to_thirty() {
    assert_eq!(calculate_prime_numbers(30), vec![2, 3, 5, 7, 11, 13, 17, 19, 23, 29]);
}

#[test]
fn primes_up_to_one_is_empty() {
    assert_eq!(calculate_prime_numbers(1), Vec::<u32>::new());
}

#[test]
fn primes_up_to_zero_is_empty() {
    assert_eq!(calculate_prime_numbers(0), Vec::<u32>::new());
}

#[test]
fn primes_up_to_two_includes_the_limit() {
    assert_eq!(calculate_prime_numbers(2), vec![2]);
    assert_eq!(calculate_prime_numbers(29).last(), Some(&29));
}

#[test]
fn primes_below_one_hundred_count() {
    let primes = calculate_prime_numbers(100);
    assert_eq!(primes.len(), 25);
    assert_eq!(primes[24], 97);
}

#[test]
fn prime_squares_are_struck() {
    // 49 and 121 are the first composites struck only by 7 and 11.
    let primes = calculate_prime_numbers(130);
    assert!(!primes.contains(&49));
    assert!(!primes.contains(&121));
    assert!(primes.contains(&127));
}

#[test]
fn fibonacci_first_ten() {
    assert_eq!(calculate_fibonacci(10), vec![0, 1, 1, 2, 3, 5, 8, 13, 21, 34]);
}

#[test]
fn fibonacci_zero_is_empty() {
    assert_eq!(calculate_fibonacci(0), Vec::<u64>::new());
}

#[test]
fn fibonacci_single_term() {
    assert_eq!(calculate_fibonacci(1), vec![0]);
}

#[test]
fn fibonacci_wraps_past_u64() {
    let terms = calculate_fibonacci(96);
    assert_eq!(terms[93], 12200160415121876738);
    // The true 95th term exceeds u64::MAX and wraps modulo 2^64.
    assert_eq!(terms[94], 1293530146158671551);
    assert_eq!(terms[95], terms[93].wrapping_add(terms[94]));
}
