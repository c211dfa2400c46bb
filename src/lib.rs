//! Integer logic of a small numeric toolkit: a prime sieve, the Fibonacci
//! sequence in wrapping `u64` arithmetic, shape checking for dense matrix
//! products, the tally behind a Monte Carlo estimate of pi, and the median's
//! positions in a sorted dataset.
use vstd::prelude::*;

pub mod fields;
pub mod matrix;
pub mod montecarlo;
pub mod primes;
pub mod sequences;
pub mod statistics;

verus! {

} // verus!
