use pi_sentinel::math::gcd;
use pi_sentinel::math::is_prime;
use pi_sentinel::math::lcm;
use pi_sentinel::math::mod_add;
use pi_sentinel::math::mod_mul;
use pi_sentinel::math::mod_pow;
use pi_sentinel::math::mod_sub;
use pi_sentinel::math::next_prime;
use pi_sentinel::math::random_prime;

#[test]
fn gcd_of_known_pairs() {
    assert_eq!(gcd(12, 18), 6);
    assert_eq!(gcd(18, 12), 6);
    assert_eq!(gcd(17, 5), 1);
    assert_eq!(gcd(0, 9), 9);
    assert_eq!(gcd(9, 0), 9);
    assert_eq!(gcd(0, 0), 0);
    assert_eq!(gcd(123456789, 987654321), 9);
}

#[test]
fn lcm_of_known_pairs_and_overflow() {
    assert_eq!(lcm(4, 6), Some(12));
    assert_eq!(lcm(7, 5), Some(35));
    assert_eq!(lcm(0, 9), Some(0));
    assert_eq!(lcm(u64::MAX, u64::MAX - 1), None);
}

#[test]
fn primality_of_small_numbers() {
    let primes = [2u64, 3, 5, 7, 11, 13, 97, 7919];
    for p in primes {
        assert!(is_prime(p), "{p} is prime");
    }
    let composites = [0u64, 1, 4, 6, 9, 15, 25, 7917, 1000000];
    for c in composites {
        assert!(!is_prime(c), "{c} is not prime");
    }
}

#[test]
fn primality_of_large_numbers() {
    assert!(is_prime(1000000007));
    assert!(!is_prime(1000000008));
}

#[test]
fn next_prime_finds_the_smallest_one_above() {
    assert_eq!(next_prime(0), Some(2));
    assert_eq!(next_prime(2), Some(3));
    assert_eq!(next_prime(8), Some(11));
    assert_eq!(next_prime(7918), Some(7919));
    assert_eq!(next_prime(u64::MAX), None);
}

#[test]
fn random_prime_is_prime_and_wide_enough() {
    let p = random_prime(10).expect("a prime above a 10-bit start exists");
    assert!(p >= 512);
    assert!(is_prime(p));
}

#[test]
fn modular_arithmetic_of_known_values() {
    assert_eq!(mod_add(7, 8, 10), 5);
    assert_eq!(mod_add(u64::MAX, u64::MAX, 97), (((u64::MAX as u128) * 2) % 97) as u64);
    assert_eq!(mod_sub(3, 8, 10), 5);
    assert_eq!(mod_sub(8, 3, 10), 5);
    assert_eq!(mod_mul(7, 8, 10), 6);
    assert_eq!(mod_mul(u64::MAX, u64::MAX, 97), (((u64::MAX as u128) % 97).pow(2) % 97) as u64);
}

#[test]
fn modular_exponentiation_of_known_values() {
    assert_eq!(mod_pow(2, 10, 1000), 24);
    assert_eq!(mod_pow(3, 0, 7), 1);
    assert_eq!(mod_pow(5, 3, 1), 0);
    // Fermat: a^(p-1) = 1 mod p for prime p not dividing a.
    assert_eq!(mod_pow(2, 96, 97), 1);
    assert_eq!(mod_pow(123456789, 1000003 - 1, 1000003), 1);
}
