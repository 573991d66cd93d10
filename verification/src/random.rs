//! Randomness, drawn from the thread-local generator of the `rand` crate.
//!
//! Nothing here is proved: each function states what `rand` documents of
//! every outcome, and the callers are verified for all of them.

use vstd::prelude::*;

verus! {

/// Calls `rand::seq::index::sample` on the thread-local generator.
///
/// `rand` documents that it picks exactly `amount` distinct indices from
/// `0..length`, in random order, and that it panics when `amount > length`.
#[verifier::external_body]
pub(crate) fn sample_indices(length: usize, amount: usize) -> (indices: Vec<usize>)
    requires
        amount <= length,
    ensures
        indices@.len() == amount,
        indices@.no_duplicates(),
        forall|k: int| 0 <= k < indices@.len() ==> indices@[k] < length,
{
    rand::seq::index::sample(&mut rand::rng(), length, amount).into_vec()
}

/// Calls `Rng::random_range` with `0..bound` on the thread-local generator.
///
/// `rand` documents that the value lies in the range and that an empty
/// range panics.
#[verifier::external_body]
pub(crate) fn random_below(bound: usize) -> (value: usize)
    requires
        bound > 0,
    ensures
        value < bound,
{
    rand::Rng::random_range(&mut rand::rng(), 0..bound)
}

} // verus!
