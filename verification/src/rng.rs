//! Source of randomness for picking the next piece kind.
use vstd::prelude::*;

verus! {

/// Relies on rand::random_range over `0..n`: it returns a value drawn
/// from inside the range, and panics on an empty range (excluded here) or
/// if the OS entropy source fails when the thread-local generator is
/// first seeded. Nothing more is assumed of the draw.
#[verifier::external_body]
pub(crate) fn random_below(n: usize) -> (r: usize)
    requires
        1 <= n,
    ensures
        r < n,
{
    rand::random_range(0..n)
}

} // verus!
