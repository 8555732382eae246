//! The source of the bytes that the random instruction uses.

use vstd::prelude::*;

verus! {

/// Calls `rand::random::<u8>()`, which draws a byte from the thread's random
/// number generator. Every byte can come back, so nothing is claimed of it.
/// The generator is seeded from the operating system; the call panics only
/// where that source of entropy fails.
#[verifier::external_body]
pub(crate) fn random_byte() -> (byte: u8) {
    rand::random::<u8>()
}

} // verus!
