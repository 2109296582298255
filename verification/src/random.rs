use vstd::prelude::*;

use rand::RngExt;

verus! {

/// Declares rand's thread-local generator type, so that a `RandomSource`
/// can hold one; the value is opaque here.
#[verifier::external_type_specification]
#[verifier::external_body]
pub struct ExThreadRng(rand::rngs::ThreadRng);

/// The injected randomness capability. Every system and strategy call that
/// needs chance receives a handle to one of these rather than reaching for
/// implicit global state.
pub struct RandomSource {
    rng: rand::rngs::ThreadRng,
}

impl RandomSource {
    /// Relies on rand::rng: obtains a handle to the thread-local generator.
    #[verifier::external_body]
    pub fn new() -> (r: RandomSource) {
        RandomSource { rng: rand::rng() }
    }

    /// Relies on rand::RngExt::random_range: returns a value of the given
    /// range, which for `0..n` with `n >= 1` is nonempty, so the call does
    /// not panic and the result is below `n`. Nothing more is assumed of
    /// which value comes back.
    #[verifier::external_body]
    pub(crate) fn below(&mut self, n: usize) -> (r: usize)
        requires
            n >= 1,
        ensures
            r < n,
    {
        self.rng.random_range(0..n)
    }
}

} // verus!
