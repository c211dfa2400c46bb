use vstd::prelude::*;

verus! {

/// The Fibonacci numbers taken modulo 2^64: each term is the wrapping sum
/// of the two before it.
pub open spec fn fib_wrapping(k: nat) -> u64
    decreases k,
{
    if k == 0 {
        0
    } else if k == 1 {
        1
    } else {
        ((fib_wrapping((k - 2) as nat) + fib_wrapping((k - 1) as nat)) % 0x1_0000_0000_0000_0000) as u64
    }
}

/// The first `n` terms of the Fibonacci sequence, starting at 0, 1.
/// Terms beyond the range of `u64` wrap around.
pub fn calculate_fibonacci(n: u32) -> (r: Vec<u64>)
    ensures
        r@.len() == n,
        forall|k: int| 0 <= k < n ==> r@[k] == fib_wrapping(k as nat),
{
    let mut results: Vec<u64> = Vec::new();
    let mut a: u64 = 0;
    let mut b: u64 = 1;
    let mut i: u32 = 0;
    while i < n
        invariant
            i <= n,
            results@.len() == i,
            forall|k: int| 0 <= k < i ==> results@[k] == fib_wrapping(k as nat),
            a == fib_wrapping(i as nat),
            b == fib_wrapping(i as nat + 1),
        decreases n - i,
    {
        results.push(a);
        let next = a.wrapping_add(b);
        assert(fib_wrapping(i as nat + 2) == next);
        a = b;
        b = next;
        i = i + 1;
    }
    results
}

} // verus!
