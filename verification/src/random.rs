//! The source of the bytes that `CXNN` draws when the host supplies none.

use rand::Rng;
use vstd::prelude::*;

verus! {

/// Draws one byte from `rand`'s thread-local generator, by
/// `rand::thread_rng().gen::<u8>()`. The generator is seeded by the
/// operating system, so nothing is claimed of the byte: callers are proved
/// for every value of it. The call panics only where the operating system
/// cannot seed the generator.
#[verifier::external_body]
pub(crate) fn random_byte() -> (byte: u8) {
    rand::thread_rng().gen::<u8>()
}

} // verus!
