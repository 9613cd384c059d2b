//! The thread-local random source of the `rand` crate.

use vstd::prelude::*;

verus! {

/// `rand::rngs::ThreadRng`, a handle to the generator of the current thread.
#[verifier::external_type_specification]
#[verifier::external_body]
pub struct ExThreadRng(rand::rngs::ThreadRng);

/// `rand::thread_rng`. Nothing is claimed of the handle. The call panics
/// where the system has no seed to give the thread's generator.
pub assume_specification[ rand::thread_rng ]() -> (rng: rand::rngs::ThreadRng);

/// `Rng::gen::<u8>` on the thread's generator. Nothing is claimed of the byte:
/// callers are verified for every value of it. The call panics where the
/// generator is due for a new seed and the system has none to give.
#[verifier::external_body]
pub(crate) fn sample_byte(rng: &mut rand::rngs::ThreadRng) -> (byte: u8) {
    rand::Rng::gen(rng)
}

} // verus!
