use vstd::prelude::*;

verus! {

/// Relies on rand::random: draws a 64-bit value from the thread-local
/// generator.  Nothing is promised of the outcome; every caller must be
/// correct for every value.
#[verifier::external_body]
pub(crate) fn random_u64() -> u64 {
    rand::random::<u64>()
}

} // verus!
