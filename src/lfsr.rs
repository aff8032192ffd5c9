//! An 8-bit linear-feedback shift register used as the machine's source of
//! pseudo-random bytes.
use vstd::prelude::*;

verus! {

/// One step of the register: bits 7, 5, 4 and 2 are XORed into a new bit,
/// which enters at position 7 while the other bits shift right by one.
pub open spec fn lfsr_step(s: u8) -> u8 {
    ((((s >> 7u8) ^ (s >> 5u8) ^ (s >> 4u8) ^ (s >> 2u8)) << 7u8) | (s >> 1u8)) as u8
}

/// The state reached from `seed` after `n` steps.
pub open spec fn lfsr_state_after(seed: u8, n: nat) -> u8
    decreases n,
{
    if n == 0 {
        seed
    } else {
        lfsr_step(lfsr_state_after(seed, (n - 1) as nat))
    }
}

/// The first `n` values drawn from a register seeded with `seed`.
pub open spec fn lfsr_draws(seed: u8, n: nat) -> Seq<u8>
    decreases n,
{
    if n == 0 {
        Seq::empty()
    } else {
        lfsr_draws(seed, (n - 1) as nat).push(lfsr_state_after(seed, n))
    }
}

/// A deterministic pseudo-random byte generator.
pub struct Lfsr {
    state: u8,
}

impl View for Lfsr {
    type V = u8;

    closed spec fn view(&self) -> u8 {
        self.state
    }
}

impl Lfsr {
    /// Seeds a register. A zero seed would never leave the zero state.
    pub fn new(seed: u8) -> (r: Lfsr)
        requires
            seed != 0,
        ensures
            r@ == seed,
    {
        Lfsr { state: seed }
    }

    /// The current internal state.
    pub fn state(&self) -> (r: u8)
        ensures
            r == self@,
    {
        self.state
    }

    /// Advances the register by one step and returns the new state.
    pub fn next(&mut self) -> (r: u8)
        ensures
            r == lfsr_step(old(self)@),
            final(self)@ == r,
    {
        let s = self.state;
        let bit: u8 = (s >> 7u8) ^ (s >> 5u8) ^ (s >> 4u8) ^ (s >> 2u8);
        self.state = (bit << 7u8) | (s >> 1u8);
        self.state
    }
}

/// A state of at least 4 stays at least 4 after a step: the only states
/// whose successors reach zero are 1, 2 and 3 (and zero itself).
proof fn lemma_step_keeps_large(s: u8)
    requires
        s >= 4,
    ensures
        lfsr_step(s) >= 4,
{
    assert(s >= 4 ==> ((((s >> 7u8) ^ (s >> 5u8) ^ (s >> 4u8) ^ (s >> 2u8)) << 7u8) | (s >> 1u8))
        as u8 >= 4) by (bit_vector);
}

/// Two registers built from the same seed draw the same sequence of values.
pub proof fn lemma_draws_deterministic(a: Lfsr, b: Lfsr, n: nat)
    requires
        a@ == b@,
    ensures
        lfsr_draws(a@, n) == lfsr_draws(b@, n),
{
}

/// For every seed of at least 4 the state never becomes zero, however many
/// values are drawn.
pub proof fn lemma_never_zero(seed: u8, n: nat)
    requires
        seed >= 4,
    ensures
        lfsr_state_after(seed, n) != 0,
        lfsr_state_after(seed, n) >= 4,
    decreases n,
{
    if n > 0 {
        lemma_never_zero(seed, (n - 1) as nat);
        lemma_step_keeps_large(lfsr_state_after(seed, (n - 1) as nat));
    }
}

} // verus!
