use vstd::prelude::*;

verus! {

/// Relies on rand::random::<u64>: a draw from the thread-local generator.
/// Nothing is promised of the value; callers must hold for every outcome.
#[verifier::external_body]
pub(crate) fn rand_u64() -> u64 {
    rand::random::<u64>()
}

/// Relies on rand::random_range over `0..hi`: a draw from the thread-local
/// generator, uniform in the half-open range, which must not be empty.
#[verifier::external_body]
pub(crate) fn rand_below(hi: u64) -> (r: u64)
    requires
        hi > 0,
    ensures
        r < hi,
{
    rand::random_range(0..hi)
}

} // verus!
