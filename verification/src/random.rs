//! Randomness.

use rand::Rng;
use vstd::prelude::*;

verus! {

/// `rand::Rng::gen` on `rand::thread_rng` fills 32 bytes; nothing is claimed of them.
#[verifier::external_body]
pub(crate) fn random_bytes() -> (r: [u8; 32]) {
    rand::thread_rng().gen::<[u8; 32]>()
}

/// `rand::Rng::gen_range` on `rand::thread_rng` picks a number that is at least `lower` and below
/// `upper`; it panics on an empty range.
#[verifier::external_body]
pub(crate) fn random_in_range(lower: u16, upper: u16) -> (r: u16)
    requires
        lower < upper,
    ensures
        lower <= r < upper,
{
    rand::thread_rng().gen_range(lower..upper)
}

} // verus!
