//! Random draws. Nothing is promised of a draw but its range; the functions
//! that use one take it as an argument where their result depends on it.
use vstd::prelude::*;
use rand::distributions::{Distribution, Uniform};

verus! {

/// Relies on rand's `Uniform::new(0, n)` sampled with the thread-local
/// generator: a value in `0..n`. `Uniform::new` panics when `n == 0`.
#[verifier::external_body]
pub(crate) fn random_index(n: usize) -> (r: usize)
    requires
        n > 0,
    ensures
        r < n,
{
    Uniform::new(0, n).sample(&mut rand::thread_rng())
}

/// Relies on rand's `seq::index::sample(rng, length, amount)`: exactly
/// `amount` distinct indices in `0..length`. It panics when
/// `amount > length`.
#[verifier::external_body]
pub(crate) fn sample_indices(length: usize, amount: usize) -> (r: Vec<usize>)
    requires
        amount <= length,
    ensures
        r@.len() == amount,
        r@.no_duplicates(),
        forall|i: int| 0 <= i < r@.len() ==> #[trigger] r@[i] < length,
{
    rand::seq::index::sample(&mut rand::thread_rng(), length, amount).into_vec()
}

} // verus!
