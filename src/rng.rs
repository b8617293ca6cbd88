//! The one source of randomness: the thread-local generator of `rand`.
use vstd::prelude::*;

verus! {

/// Relies on rand::random: a number drawn from the thread-local generator;
/// nothing is promised of its value.
#[verifier::external_body]
pub(crate) fn random_u64() -> u64 {
    rand::random::<u64>()
}

} // verus!
