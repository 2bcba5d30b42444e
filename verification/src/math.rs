//! Number-theoretic utilities: greatest common divisor, least common
//! multiple, primality, prime search, and modular arithmetic.

use rand_core::RngCore;
use vstd::calc;
use vstd::arithmetic::div_mod::lemma_fundamental_div_mod;
use vstd::arithmetic::power::pow;
use vstd::prelude::*;

verus! {

/// Whether `d` divides `n` exactly.
pub open spec fn divides(d: int, n: int) -> bool {
    exists|k: int| n == #[trigger] (k * d)
}

/// The greatest common divisor, by Euclid's recurrence.
pub open spec fn spec_gcd(a: nat, b: nat) -> nat
    decreases b,
{
    if b == 0 {
        a
    } else {
        spec_gcd(b, a % b)
    }
}

/// The greatest common divisor of `a` and `b`; `gcd(a, 0) == a`.
pub fn gcd(a: u64, b: u64) -> (r: u64)
    ensures
        r == spec_gcd(a as nat, b as nat),
{
    let mut x = a;
    let mut y = b;
    while y != 0
        invariant
            spec_gcd(x as nat, y as nat) == spec_gcd(a as nat, b as nat),
        decreases y,
    {
        let t = x % y;
        x = y;
        y = t;
    }
    x
}

/// The greatest common divisor divides both of its arguments.
pub proof fn lemma_gcd_divides(a: nat, b: nat)
    ensures
        divides(spec_gcd(a, b) as int, a as int),
        divides(spec_gcd(a, b) as int, b as int),
    decreases b,
{
    if b == 0 {
        assert(a as int == 1 * (a as int));
        assert(0int == 0 * (a as int));
    } else {
        lemma_gcd_divides(b, a % b);
        let g = spec_gcd(b, a % b) as int;
        let k1 = choose|k: int| b as int == #[trigger] (k * g);
        let k2 = choose|k: int| (a % b) as int == #[trigger] (k * g);
        lemma_fundamental_div_mod(a as int, b as int);
        assert(a as int == b as int * (a as int / b as int) + (a % b) as int);
        assert(a as int == ((a as int / b as int) * k1 + k2) * g) by (nonlinear_arith)
            requires
                b as int == k1 * g,
                (a % b) as int == k2 * g,
                a as int == b as int * (a as int / b as int) + (a % b) as int,
        ;
    }
}

/// Every common divisor of `a` and `b` divides their greatest common
/// divisor: what "greatest" means.
pub proof fn lemma_gcd_greatest(a: nat, b: nat, d: int)
    requires
        divides(d, a as int),
        divides(d, b as int),
    ensures
        divides(d, spec_gcd(a, b) as int),
    decreases b,
{
    if b != 0 {
        let ka = choose|k: int| a as int == #[trigger] (k * d);
        let kb = choose|k: int| b as int == #[trigger] (k * d);
        lemma_fundamental_div_mod(a as int, b as int);
        let q = a as int / b as int;
        assert((a % b) as int == (ka - q * kb) * d) by (nonlinear_arith)
            requires
                a as int == ka * d,
                b as int == kb * d,
                a as int == b as int * q + (a % b) as int,
        ;
        lemma_gcd_greatest(b, a % b, d);
    }
}

/// The greatest common divisor of a positive number and anything is
/// positive.
pub proof fn lemma_gcd_nonzero(a: nat, b: nat)
    requires
        a > 0,
    ensures
        spec_gcd(a, b) > 0,
    decreases b,
{
    if b != 0 {
        lemma_gcd_nonzero(b, a % b);
    }
}

/// The least common multiple: 0 when either argument is 0.
pub open spec fn spec_lcm(a: nat, b: nat) -> nat {
    if a == 0 || b == 0 {
        0
    } else {
        (a * b) / spec_gcd(a, b)
    }
}

/// The least common multiple of `a` and `b`, or nothing when it does not
/// fit in a machine word.
pub fn lcm(a: u64, b: u64) -> (r: Option<u64>)
    ensures
        match r {
            Some(l) => l == spec_lcm(a as nat, b as nat),
            None => spec_lcm(a as nat, b as nat) > u64::MAX,
        },
{
    if a == 0 || b == 0 {
        return Some(0);
    }
    let g = gcd(a, b);
    proof {
        lemma_gcd_nonzero(a as nat, b as nat);
    }
    proof {
        assert((a as int) * (b as int) <= u128::MAX) by (nonlinear_arith)
            requires
                a <= u64::MAX,
                b <= u64::MAX,
        ;
    }
    let prod = (a as u128) * (b as u128);
    let l = prod / (g as u128);
    proof {
        assert(l == (a as nat * b as nat) / spec_gcd(a as nat, b as nat));
    }
    if l <= u64::MAX as u128 {
        Some(l as u64)
    } else {
        None
    }
}

/// Primality: at least 2, and divisible by nothing between 1 and itself.
pub open spec fn spec_is_prime(n: nat) -> bool {
    n >= 2 && forall|d: nat| 2 <= d < n ==> #[trigger] (n % d) != 0
}

/// If an odd `n` has a proper divisor, it has an odd one below any bound
/// whose square exceeds `n`.
proof fn lemma_small_odd_factor(n: u64, i: u64, d: u64)
    requires
        n > 3,
        n % 2 != 0,
        (i as int) * (i as int) > n,
        2 <= d < n,
        n % d == 0,
    ensures
        exists|m: u64| 3 <= m < i && m % 2 == 1 && #[trigger] (n % m) == 0,
{
    lemma_fundamental_div_mod(n as int, d as int);
    let e = n as int / d as int;
    assert(n as int == d as int * e + (n % d) as int);
    assert(n as int == e * d as int) by (nonlinear_arith)
        requires
            n as int == d as int * e,
    ;
    assert(1 <= e) by {
        vstd::arithmetic::div_mod::lemma_div_non_zero(n as int, d as int);
    }
    assert(e != 1) by (nonlinear_arith)
        requires
            n as int == e * d as int,
            d < n,
            1 <= e,
    ;
    assert(e < n) by (nonlinear_arith)
        requires
            n as int == e * d as int,
            2 <= d,
            2 <= e,
            n > 3,
    ;
    let m0: int = if d <= e {
        d as int
    } else {
        e
    };
    let w: int = if d <= e {
        e
    } else {
        d as int
    };
    assert(n as int == m0 * w && 2 <= m0 <= w < n);
    assert(m0 < i) by (nonlinear_arith)
        requires
            n as int == m0 * w,
            2 <= m0 <= w,
            (i as int) * (i as int) > n,
            i >= 0,
    ;
    assert(n % (m0 as u64) == 0) by {
        vstd::arithmetic::div_mod::lemma_fundamental_div_mod_converse_mod(
            n as int,
            m0,
            w,
            0,
        );
    }
    assert(m0 % 2 == 1) by {
        if m0 % 2 == 0 {
            let h = m0 / 2;
            assert(m0 == 2 * h) by {
                lemma_fundamental_div_mod(m0, 2);
            }
            assert(n as int == 2 * (h * w)) by (nonlinear_arith)
                requires
                    n as int == m0 * w,
                    m0 == 2 * h,
            ;
            vstd::arithmetic::div_mod::lemma_fundamental_div_mod_converse_mod(
                n as int,
                2,
                h * w,
                0,
            );
            assert(n % 2 == 0);
        }
    }
    assert(3 <= m0);
    assert(3 <= m0 as u64 && (m0 as u64) < i && (m0 as u64) % 2 == 1 && n % (m0 as u64) == 0);
}

/// Whether the square of `i` stays within `n`.
fn square_at_most(i: u64, n: u64) -> (r: bool)
    ensures
        r == ((i as int) * (i as int) <= n as int),
{
    proof {
        assert((i as int) * (i as int) <= u128::MAX) by (nonlinear_arith)
            requires
                i <= u64::MAX,
        ;
    }
    let sq = (i as u128) * (i as u128);
    sq <= n as u128
}

/// Whether `n` is prime, by trial division up to the square root.
pub fn is_prime(n: u64) -> (r: bool)
    ensures
        r == spec_is_prime(n as nat),
{
    if n <= 1 {
        return false;
    }
    if n <= 3 {
        proof {
            assert(spec_is_prime(n as nat)) by {
                assert(forall|d: nat| 2 <= d < n ==> #[trigger] ((n as nat) % d) != 0) by {
                    assert(n == 2 || n == 3);
                    assert(n == 3 ==> (n as nat) % 2 == 1);
                }
            }
        }
        return true;
    }
    if n % 2 == 0 {
        return false;
    }
    let mut i: u64 = 3;
    let mut in_range = square_at_most(i, n);
    while in_range
        invariant
            n > 3,
            n % 2 != 0,
            i >= 3,
            i <= n,
            i % 2 == 1,
            in_range == ((i as int) * (i as int) <= n as int),
            forall|m: u64| 3 <= m < i && m % 2 == 1 ==> #[trigger] (n % m) != 0,
        decreases n - i,
    {
        if n % i == 0 {
            proof {
                assert(2 <= i < n) by (nonlinear_arith)
                    requires
                        (i as int) * (i as int) <= n as int,
                        i >= 3,
                        n % i == 0,
                        n > 3,
                ;
                assert(!spec_is_prime(n as nat)) by {
                    assert((n as nat) % (i as nat) == 0);
                }
            }
            return false;
        }
        proof {
            assert(i + 2 <= n) by (nonlinear_arith)
                requires
                    (i as int) * (i as int) <= n as int,
                    i >= 3,
                    n > 3,
            ;
        }
        i = i + 2;
        in_range = square_at_most(i, n);
    }
    proof {
        assert(spec_is_prime(n as nat)) by {
            assert forall|d: nat| 2 <= d < n implies #[trigger] ((n as nat) % d) != 0 by {
                if (n as nat) % d == 0 {
                    lemma_small_odd_factor(n, i, d as u64);
                }
            }
        }
    }
    true
}

/// The smallest prime strictly above `n`, or nothing if no prime above
/// `n` fits in a machine word.
pub fn next_prime(n: u64) -> (r: Option<u64>)
    ensures
        match r {
            Some(p) => spec_is_prime(p as nat) && p > n && forall|q: u64|
                n < q < p ==> !spec_is_prime(q as nat),
            None => forall|q: u64| q > n ==> !spec_is_prime(q as nat),
        },
{
    if n == u64::MAX {
        return None;
    }
    let mut m = n + 1;
    loop
        invariant
            n < m,
            forall|q: u64| n < q < m ==> !spec_is_prime(q as nat),
        decreases u64::MAX - m,
    {
        if is_prime(m) {
            return Some(m);
        }
        if m == u64::MAX {
            return None;
        }
        m = m + 1;
    }
}

/// Relies on rand_core::OsRng for a draw from the operating system's
/// entropy source; nothing is promised of the value.
#[verifier::external_body]
fn os_random_u64() -> u64 {
    let mut rng = rand_core::OsRng;
    rng.next_u64()
}

/// A prime of at least `bits` significant bits drawn near a random
/// starting point: the start is random, the search above it is
/// deterministic. Nothing below the starting range is ever returned.
pub fn random_prime(bits: usize) -> (r: Option<u64>)
    requires
        2 <= bits <= 63,
    ensures
        match r {
            Some(p) => spec_is_prime(p as nat) && p >= (1u64 << (((bits - 1) as u64))),
            None => true,
        },
{
    let draw = os_random_u64();
    let bits64 = (bits - 1) as u64;
    proof {
        assert(1 <= bits64 <= 62);
        assert(1u64 << bits64 >= 2 && (1u64 << ((bits64 + 1) as u64)) >= 1 || !(1 <= bits64 <= 62))
            by (bit_vector);
    }
    let low = 1u64 << bits64;
    let mask = (1u64 << (bits64 + 1)) - 1;
    let start = (draw & mask) | low;
    proof {
        assert(((draw & mask) | low) >= low) by (bit_vector);
    }
    match next_prime(start - 1) {
        Some(p) => Some(p),
        None => None,
    }
}

// ---------------------------------------------------------------------------
// Modular arithmetic
// ---------------------------------------------------------------------------

/// `(a + b) mod m`.
pub fn mod_add(a: u64, b: u64, m: u64) -> (r: u64)
    requires
        m > 0,
    ensures
        r == (a as int + b as int) % (m as int),
{
    let s = (a as u128) + (b as u128);
    (s % (m as u128)) as u64
}

/// `(a - b) mod m`, always in `[0, m)`.
pub fn mod_sub(a: u64, b: u64, m: u64) -> (r: u64)
    requires
        m > 0,
    ensures
        r == (a as int - b as int) % (m as int),
{
    let am = a % m;
    let bm = b % m;
    let d = if am >= bm {
        am - bm
    } else {
        m - bm + am
    };
    proof {
        vstd::arithmetic::div_mod::lemma_sub_mod_noop(a as int, b as int, m as int);
        vstd::arithmetic::div_mod::lemma_small_mod(d as nat, m as nat);
        if am >= bm {
            assert((am as int - bm as int) % (m as int) == d as int);
        } else {
            vstd::arithmetic::div_mod::lemma_mod_add_multiples_vanish(
                am as int - bm as int,
                m as int,
            );
            assert((am as int - bm as int) % (m as int) == (d as int) % (m as int));
        }
    }
    d
}

/// `(a * b) mod m`.
pub fn mod_mul(a: u64, b: u64, m: u64) -> (r: u64)
    requires
        m > 0,
    ensures
        r == (a as int * b as int) % (m as int),
{
    proof {
        assert((a as int) * (b as int) <= u128::MAX) by (nonlinear_arith)
            requires
                a <= u64::MAX,
                b <= u64::MAX,
        ;
    }
    let p = (a as u128) * (b as u128);
    (p % (m as u128)) as u64
}

/// `(base ^ exponent) mod m`, by square and multiply.
pub fn mod_pow(base: u64, exponent: u64, m: u64) -> (r: u64)
    requires
        m > 0,
    ensures
        r == pow(base as int, exponent as nat) % (m as int),
{
    let mut result: u64 = 1 % m;
    let mut b = base % m;
    let mut e = exponent;
    proof {
        vstd::arithmetic::power::lemma_pow_mod_noop(base as int, exponent as nat, m as int);
        vstd::arithmetic::div_mod::lemma_mul_mod_noop_left(
            1,
            pow((base % m) as int, exponent as nat),
            m as int,
        );
        assert(1 * pow((base % m) as int, exponent as nat) == pow(
            (base % m) as int,
            exponent as nat,
        ));
        vstd::arithmetic::div_mod::lemma_mul_mod_noop_right(
            1,
            pow((base % m) as int, exponent as nat),
            m as int,
        );
        assert((1int % m as int) * pow((base % m) as int, exponent as nat) == (1int % m as int)
            * pow((base % m) as int, exponent as nat));
        vstd::arithmetic::div_mod::lemma_mul_mod_noop_general(
            1,
            pow((base % m) as int, exponent as nat),
            m as int,
        );
    }
    while e > 0
        invariant
            m > 0,
            result < m,
            b < m,
            (result as int * pow(b as int, e as nat)) % (m as int) == pow(
                base as int,
                exponent as nat,
            ) % (m as int),
        decreases e,
    {
        proof {
            lemma_mod_pow_step(result as int, b as int, e as nat, m as int);
        }
        if e % 2 == 1 {
            result = mod_mul(result, b, m);
        }
        b = mod_mul(b, b, m);
        e = e / 2;
    }
    proof {
        vstd::arithmetic::power::lemma_pow0(b as int);
        assert(result as int * 1 == result) by (nonlinear_arith);
        vstd::arithmetic::div_mod::lemma_small_mod(result as nat, m as nat);
    }
    result
}

/// One square-and-multiply step preserves the running congruence.
proof fn lemma_mod_pow_step(result: int, b: int, e: nat, m: int)
    requires
        m > 0,
        0 <= result < m,
        0 <= b < m,
        e > 0,
    ensures
        e % 2 == 1 ==> (((result * b) % m) * pow((b * b) % m, (e / 2) as nat)) % m == (result * pow(
            b,
            e,
        )) % m,
        e % 2 == 0 ==> (result * pow((b * b) % m, (e / 2) as nat)) % m == (result * pow(b, e)) % m,
{
    let h = (e / 2) as nat;
    lemma_fundamental_div_mod(e as int, 2);
    vstd::arithmetic::power::lemma_pow_multiplies(b, 2, h);
    vstd::arithmetic::power::lemma_square_is_pow2(b);
    vstd::arithmetic::power::lemma_pow_mod_noop(b * b, h, m);
    if e % 2 == 1 {
        assert(e == 2 * h + 1);
        vstd::arithmetic::power::lemma_pow1(b);
        vstd::arithmetic::power::lemma_pow_adds(b, (2 * h) as nat, 1);
        assert(pow(b, e) == pow(pow(b, 2), h) * b) by {
            assert(pow(b, (2 * h) as nat) == pow(pow(b, 2), h));
        }
        calc! {
            (==)
            (((result * b) % m) * pow((b * b) % m, h)) % m; {
                vstd::arithmetic::div_mod::lemma_mul_mod_noop_general(
                    result * b,
                    pow((b * b) % m, h),
                    m,
                );
            }
            ((result * b) * (pow((b * b) % m, h) % m)) % m; {
                vstd::arithmetic::power::lemma_pow_mod_noop(b * b, h, m);
            }
            ((result * b) * (pow(b * b, h) % m)) % m; {
                vstd::arithmetic::div_mod::lemma_mul_mod_noop_general(
                    result * b,
                    pow(b * b, h),
                    m,
                );
            }
            ((result * b) * pow(b * b, h)) % m; {
                assert((result * b) * pow(b * b, h) == result * (pow(b * b, h) * b))
                    by (nonlinear_arith);
                assert(pow(b * b, h) == pow(pow(b, 2), h)) by {
                    vstd::arithmetic::power::lemma_square_is_pow2(b);
                    vstd::arithmetic::power::lemma_pow_multiplies(b, 2, h);
                }
            }
            (result * pow(b, e)) % m;
        }
    } else {
        assert(e == 2 * h);
        assert(pow(b, e) == pow(pow(b, 2), h)) by {
            vstd::arithmetic::power::lemma_pow_multiplies(b, 2, h);
        }
        calc! {
            (==)
            (result * pow((b * b) % m, h)) % m; {
                vstd::arithmetic::div_mod::lemma_mul_mod_noop_general(
                    result,
                    pow((b * b) % m, h),
                    m,
                );
            }
            (result * (pow((b * b) % m, h) % m)) % m; {
                vstd::arithmetic::power::lemma_pow_mod_noop(b * b, h, m);
            }
            (result * (pow(b * b, h) % m)) % m; {
                vstd::arithmetic::div_mod::lemma_mul_mod_noop_general(result, pow(b * b, h), m);
            }
            (result * pow(b * b, h)) % m; {
                assert(pow(b * b, h) == pow(pow(b, 2), h)) by {
                    vstd::arithmetic::power::lemma_square_is_pow2(b);
                }
            }
            (result * pow(b, e)) % m;
        }
    }
}

} // verus!
