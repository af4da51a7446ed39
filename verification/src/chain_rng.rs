//! A chained pseudo-random generator for mutation operations.
//!
//! Each draw produces its output from one linear-congruential step of the
//! current state, while the state itself evolves through a separate
//! SplitMix64-style avalanche hash of the pre-step state.  The output domain
//! is thus decorrelated from the seed evolution domain.  Not
//! cryptographically secure; intended only for fuzz testing.

use vstd::prelude::*;

verus! {

/// State a generator holds right after construction.
pub const DEFAULT_STATE: u64 = 4399;

/// Multiplier of the linear-congruential step.
pub const LCG_MUL: u64 = 0x5DEECE66D;

/// Increment of the linear-congruential step.
pub const LCG_ADD: u64 = 0xB;

/// The deterministic generator: a single 64-bit state, owned by the caller
/// and threaded through every draw.
pub struct ChainRng {
    pub state: u64,
}

/// One linear-congruential step (64-bit wraparound); its remainder modulo
/// the requested bound is the output of a draw.
pub open spec fn lcg_step(s: u64) -> u64 {
    s.wrapping_mul(LCG_MUL).wrapping_add(LCG_ADD)
}

/// SplitMix64-style avalanche mix: three xor-shift/multiply rounds.  The
/// state stored after a draw is the mix of the pre-step state.
pub open spec fn mix64(x: u64) -> u64 {
    let a = (x ^ (x >> 30)).wrapping_mul(0xbf58476d1ce4e5b9);
    let b = (a ^ (a >> 27)).wrapping_mul(0x94d049bb133111eb);
    b ^ (b >> 31)
}

/// Output of a draw with bound `max` from state `s`: zero when `max <= 1`,
/// otherwise the linear-congruential step reduced modulo `max`.
pub open spec fn draw_out(s: u64, max: u32) -> u32 {
    if max <= 1 {
        0
    } else {
        (lcg_step(s) % (max as u64)) as u32
    }
}

/// State left behind by a draw with bound `max` from state `s`: unchanged
/// when `max <= 1`, otherwise the avalanche mix of `s`.
pub open spec fn draw_next(s: u64, max: u32) -> u64 {
    if max <= 1 {
        s
    } else {
        mix64(s)
    }
}

/// The avalanche hash in executable form.
pub fn hash64(input: u64) -> (r: u64)
    ensures
        r == mix64(input),
{
    let mut x = input;
    x = (x ^ (x >> 30)).wrapping_mul(0xbf58476d1ce4e5b9);
    x = (x ^ (x >> 27)).wrapping_mul(0x94d049bb133111eb);
    x = x ^ (x >> 31);
    x
}

/// Draw a pseudo-random integer in `[0, max)`.  A bound of zero or one is a
/// defined no-op: the result is zero and no state is consumed.
pub fn ri(rng: &mut ChainRng, max: u32) -> (r: u32)
    ensures
        r == draw_out(old(rng).state, max),
        final(rng).state == draw_next(old(rng).state, max),
        max <= 1 ==> r == 0 && *final(rng) == *old(rng),
        max > 1 ==> r < max,
{
    if max <= 1 {
        return 0;
    }
    let t1 = rng.state.wrapping_mul(LCG_MUL).wrapping_add(LCG_ADD);
    let t2 = t1 % (max as u64);
    rng.state = hash64(rng.state);
    t2 as u32
}

impl ChainRng {
    /// A generator in its default startup state.
    pub fn new() -> (r: ChainRng)
        ensures
            r.state == DEFAULT_STATE,
    {
        ChainRng { state: DEFAULT_STATE }
    }

    /// Install a 32-bit seed, zero-extended into the 64-bit state, for
    /// reproducible replay.
    pub fn set_state(&mut self, seed: u32)
        ensures
            final(self).state == seed as u64,
    {
        self.state = seed as u64;
    }

    /// Read the state back, truncated to the 32-bit external width.
    pub fn get_state(&self) -> (r: u32)
        ensures
            r as u64 == self.state % 0x1_0000_0000,
    {
        (self.state % 0x1_0000_0000) as u32
    }
}

/// The outputs of a fixed sequence of draws, one per bound in `maxes`,
/// starting from state `s`.
pub open spec fn draw_seq(s: u64, maxes: Seq<u32>) -> Seq<u32>
    decreases maxes.len(),
{
    if maxes.len() == 0 {
        Seq::empty()
    } else {
        seq![draw_out(s, maxes[0])] + draw_seq(draw_next(s, maxes[0]), maxes.drop_first())
    }
}

/// Determinism: from equal states, a fixed sequence of draws yields an
/// identical output sequence on every invocation.
pub proof fn lemma_draw_deterministic(s1: u64, s2: u64, maxes: Seq<u32>)
    requires
        s1 == s2,
    ensures
        draw_seq(s1, maxes) == draw_seq(s2, maxes),
{
}

} // verus!
