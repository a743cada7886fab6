//! Where fresh 64-bit values come from.

use vstd::prelude::*;

verus! {

/// A supply of 64-bit values. Nothing is promised of a value: whoever draws
/// one has to be right whatever it is.
pub trait RandomSource {
    fn next_u64(&mut self) -> u64;
}

/// Calls `rand::random::<u64>`, which draws from the thread's generator.
/// Nothing is claimed of the value.
#[verifier::external_body]
fn thread_random() -> u64 {
    rand::random::<u64>()
}

/// The generator of the running thread.
#[derive(Debug, Clone, Copy)]
pub struct SystemRandom;

impl RandomSource for SystemRandom {
    fn next_u64(&mut self) -> u64 {
        thread_random()
    }
}

} // verus!
