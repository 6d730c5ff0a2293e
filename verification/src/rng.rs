//! The one place where the library draws randomness, for shuffling.

use vstd::prelude::*;

verus! {

/// Relies on rand::random_range: it returns a value drawn uniformly from the
/// given range, here 0..4, using the thread-local generator. Nothing beyond
/// membership in the range can be promised of a random draw.
#[verifier::external_body]
pub(crate) fn random_direction_index() -> (r: u8)
    ensures
        r < 4,
{
    rand::random_range(0..4u8)
}

} // verus!
