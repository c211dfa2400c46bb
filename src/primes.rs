use vstd::prelude::*;
use vstd::arithmetic::div_mod::{
    lemma_fundamental_div_mod,
    lemma_fundamental_div_mod_converse,
    lemma_mod_add_multiples_vanish,
    lemma_mod_multiples_basic,
};

verus! {

/// `n` is prime: at least 2, and no integer strictly between 1 and `n` divides it.
pub open spec fn is_prime(n: int) -> bool {
    n >= 2 && forall|d: int| 2 <= d < n ==> #[trigger] (n % d) != 0
}

/// The primes below `n`, in ascending order.
pub open spec fn primes_below(n: nat) -> Seq<u32>
    decreases n,
{
    if n == 0 {
        seq![]
    } else {
        let rest = primes_below((n - 1) as nat);
        if is_prime(n - 1) {
            rest.push((n - 1) as u32)
        } else {
            rest
        }
    }
}

/// `primes_below(n)` lists exactly the primes below `n`, each once, in
/// strictly ascending order.
pub proof fn lemma_primes_below_exact(n: nat)
    requires
        n <= 0x1_0000_0000,
    ensures
        forall|a: int, b: int|
            0 <= a < b < primes_below(n).len() ==> #[trigger] primes_below(n)[a]
                < #[trigger] primes_below(n)[b],
        forall|x: u32| #[trigger] primes_below(n).contains(x) <==> (is_prime(x as int) && x < n),
    decreases n,
{
    if n > 0 {
        let m = (n - 1) as nat;
        let rest = primes_below(m);
        lemma_primes_below_exact(m);
        if is_prime(m as int) {
            let all = rest.push(m as u32);
            assert(all == primes_below(n));
            assert forall|x: u32| #[trigger] all.contains(x) <==> (is_prime(x as int) && x < n) by {
                if x == m {
                    assert(all[rest.len() as int] == x);
                } else if rest.contains(x) {
                    let t = choose|t: int| 0 <= t < rest.len() && rest[t] == x;
                    assert(all[t] == x);
                } else if all.contains(x) {
                    let t = choose|t: int| 0 <= t < all.len() && all[t] == x;
                    assert(rest[t] == x);
                }
            }
            assert forall|a: int, b: int| 0 <= a < b < all.len() implies #[trigger] all[a] < #[trigger] all[b] by {
                if b == rest.len() {
                    assert(rest.contains(rest[a]));
                } else {
                    assert(rest[a] < rest[b]);
                }
            }
        }
    }
}

/// `k` has been struck out by a sieve that has processed every candidate
/// below `i`: some prime `p < i` with `p * p <= k` divides it.
pub open spec fn struck(k: int, i: int) -> bool {
    exists|p: int| 2 <= p < i && is_prime(p) && p * p <= k && #[trigger] (k % p) == 0
}

proof fn lemma_divides_transitive(n: int, p: int, e: int)
    requires
        n > 0,
        p > 0,
        e > 0,
        n % p == 0,
        p % e == 0,
    ensures
        n % e == 0,
{
    lemma_fundamental_div_mod(n, p);
    lemma_fundamental_div_mod(p, e);
    let a = n / p;
    let b = p / e;
    assert(n == (b * a) * e) by (nonlinear_arith)
        requires
            n == p * a,
            p == e * b,
    ;
    lemma_mod_multiples_basic(b * a, e);
}

/// The least divisor of `n` that is at least 2 and at most `d`.
proof fn lemma_least_divisor(n: int, d: int) -> (p: int)
    requires
        2 <= d < n,
        n % d == 0,
    ensures
        2 <= p <= d,
        n % p == 0,
        forall|e: int| 2 <= e < p ==> #[trigger] (n % e) != 0,
    decreases d,
{
    if exists|e: int| 2 <= e < d && #[trigger] (n % e) == 0 {
        let e = choose|e: int| 2 <= e < d && #[trigger] (n % e) == 0;
        lemma_least_divisor(n, e)
    } else {
        d
    }
}

/// A number of at least 2 is struck by the sieve at its own turn exactly
/// when it is not prime.
proof fn lemma_struck_at_own_turn(i: int)
    requires
        i >= 2,
    ensures
        struck(i, i) <==> !is_prime(i),
{
    if !is_prime(i) {
        let d = choose|d: int| 2 <= d < i && #[trigger] (i % d) == 0;
        let p = lemma_least_divisor(i, d);
        assert forall|e: int| 2 <= e < p implies #[trigger] (p % e) != 0 by {
            if p % e == 0 {
                lemma_divides_transitive(i, p, e);
            }
        }
        assert(is_prime(p));
        lemma_fundamental_div_mod(i, p);
        let q = i / p;
        assert(i == p * q);
        assert(q >= 2) by (nonlinear_arith)
            requires
                i == p * q,
                p < i,
                p >= 2,
        ;
        assert(i == q * p) by (nonlinear_arith)
            requires
                i == p * q,
        ;
        lemma_mod_multiples_basic(p, q);
        assert(i % q == 0);
        assert(q >= p);
        assert(p * p <= i) by (nonlinear_arith)
            requires
                i == p * q,
                q >= p,
                p >= 2,
        ;
        assert(struck(i, i));
    }
}

/// Between two consecutive multiples of `i` lies no multiple of `i`.
proof fn lemma_between_multiples(j: int, k: int, i: int)
    requires
        i > 0,
        j >= 0,
        j % i == 0,
        j < k < j + i,
    ensures
        k % i != 0,
{
    lemma_fundamental_div_mod(j, i);
    let q = j / i;
    assert(k == q * i + (k - j)) by (nonlinear_arith)
        requires
            j == i * q + j % i,
            j % i == 0,
    ;
    lemma_fundamental_div_mod_converse(k, i, q, k - j);
}

/// All primes `p` with `2 <= p <= limit`, in ascending order, found with a
/// sieve of Eratosthenes: each prime strikes out its multiples from its
/// square upwards.
pub fn calculate_prime_numbers(limit: u32) -> (r: Vec<u32>)
    requires
        limit as nat + 1 <= usize::MAX,
    ensures
        r@ == primes_below(limit as nat + 1),
{
    let size: usize = limit as usize + 1;
    let mut marks: Vec<bool> = Vec::new();
    let mut t: usize = 0;
    while t < size
        invariant
            t <= size,
            size == limit as nat + 1,
            marks@.len() == t,
            forall|s: int| 0 <= s < t ==> #[trigger] marks@[s] == (s >= 2),
        decreases size - t,
    {
        marks.push(t >= 2);
        t = t + 1;
    }
    let mut primes: Vec<u32> = Vec::new();
    if limit < 2 {
        assert(primes_below(limit as nat + 1) == Seq::<u32>::empty()) by {
            reveal_with_fuel(primes_below, 3);
        }
        return primes;
    }
    assert(primes_below(2) == Seq::<u32>::empty()) by {
        reveal_with_fuel(primes_below, 3);
    }
    let mut i: u64 = 2;
    while i <= limit as u64
        invariant
            2 <= i <= limit as nat + 1,
            marks@.len() == limit as nat + 1,
            primes@ == primes_below(i as nat),
            forall|k: int| 2 <= k <= limit ==> #[trigger] marks@[k] == !struck(k, i as int),
        decreases limit as u64 + 1 - i,
    {
        let ghost before = marks@;
        proof {
            lemma_struck_at_own_turn(i as int);
        }
        if marks[i as usize] {
            primes.push(i as u32);
            assert(i * i <= 0xFFFF_FFFFu64 * 0xFFFF_FFFFu64) by (nonlinear_arith)
                requires
                    i <= 0xFFFF_FFFFu64,
            ;
            let sq: u64 = i * i;
            proof {
                lemma_mod_multiples_basic(i as int, i as int);
            }
            let mut j: u64 = sq;
            while j <= limit as u64
                invariant
                    2 <= i <= limit,
                    sq == i * i,
                    sq <= j,
                    j == sq || j <= limit as nat + i,
                    before.len() == limit as nat + 1,
                    j % i == 0,
                    marks@.len() == limit as nat + 1,
                    forall|k: int|
                        2 <= k <= limit ==> #[trigger] marks@[k] == (before[k] && !(sq <= k < j
                            && k % (i as int) == 0)),
                decreases limit as int + i as int - j as int,
            {
                marks.set(j as usize, false);
                proof {
                    lemma_mod_add_multiples_vanish(j as int, i as int);
                    assert forall|k: int| j < k < j + i implies #[trigger] (k % (i as int)) != 0 by {
                        lemma_between_multiples(j as int, k, i as int);
                    }
                }
                j = j + i;
            }
        }
        assert forall|k: int| 2 <= k <= limit implies #[trigger] marks@[k] == !struck(k, i + 1) by {
            if struck(k, i + 1) && !struck(k, i as int) {
                let p = choose|p: int| 2 <= p < i + 1 && is_prime(p) && p * p <= k && #[trigger] (k % p) == 0;
                assert(p == i);
            }
            if is_prime(i as int) && i * i <= k && k % (i as int) == 0 {
                assert(struck(k, i + 1));
            }
            if struck(k, i as int) {
                let p = choose|p: int| 2 <= p < i && is_prime(p) && p * p <= k && #[trigger] (k % p) == 0;
                assert(struck(k, i + 1));
            }
        }
        i = i + 1;
    }
    primes
}

} // verus!
