//! Sources of random indices. The deck's shuffling and random removal are
//! generic over a source, so a seeded, deterministic source can stand in for
//! the process entropy source under test.
use rand::Rng;
use vstd::prelude::*;

verus! {

/// A supplier of uniformly distributed indices below a positive bound.
pub trait RandomSource {
    /// Draws an index in [0, bound).
    fn random_below(&mut self, bound: usize) -> (r: usize)
        requires
            bound > 0,
        ensures
            r < bound,
    ;
}

/// The process-local entropy source.
pub struct EntropySource;

/// Relies on rand::thread_rng and rand::Rng::gen_range: a value drawn
/// uniformly from the range [0, bound), which panics only when the range is
/// empty.
#[verifier::external_body]
fn entropy_below(bound: usize) -> (r: usize)
    requires
        bound > 0,
    ensures
        r < bound,
{
    rand::thread_rng().gen_range(0..bound)
}

impl RandomSource for EntropySource {
    fn random_below(&mut self, bound: usize) -> (r: usize) {
        entropy_below(bound)
    }
}

/// One step of the linear congruential generator: the state is multiplied
/// and offset by fixed constants, modulo 2^64.
pub open spec fn lcg_step(state: u64) -> u64 {
    state.wrapping_mul(6364136223846793005).wrapping_add(1442695040888963407)
}

/// The index a stepped generator state yields for a bound: the high 31 bits
/// of the state, reduced modulo the bound.
pub open spec fn lcg_draw(state: u64, bound: usize) -> usize
    recommends
        bound > 0,
{
    ((state >> 33) as usize) % bound
}

/// A deterministic source: a linear congruential generator over a 64-bit
/// state, so a fixed seed reproduces the same index sequence.
pub struct SeededSource {
    pub state: u64,
}

impl SeededSource {
    pub fn new(seed: u64) -> (s: Self)
        ensures
            s.state == seed,
    {
        SeededSource { state: seed }
    }
}

impl RandomSource for SeededSource {
    fn random_below(&mut self, bound: usize) -> (r: usize)
        ensures
            final(self).state == lcg_step(old(self).state),
            r == lcg_draw(final(self).state, bound),
    {
        let st = self.state.wrapping_mul(6364136223846793005).wrapping_add(1442695040888963407);
        self.state = st;
        let high = st >> 33;
        proof {
            assert(st >> 33 < 0x80000000u64) by (bit_vector);
        }
        let x = high as usize;
        x % bound
    }
}

} // verus!
