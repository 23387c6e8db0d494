//! The deterministic stream generator: an affine recurrence modulo `2^64`,
//! stepped twice for each value it emits.

use vstd::arithmetic::div_mod::lemma_add_mod_noop;
use vstd::arithmetic::div_mod::lemma_mul_mod_noop_right;
use vstd::prelude::*;

verus! {

/// The seed of the reference stream.
pub const DEFAULT_SEED: u128 = 3091352403337663489;

/// The multiplier of the reference recurrence.
pub const DEFAULT_MULTIPLIER: u64 = 3935559000370003845;

/// The increment of the reference recurrence.
pub const DEFAULT_INCREMENT: u64 = 2691343689449507681;

/// The modulus of the recurrence, `2^64`.
pub open spec fn modulus() -> int {
    0x1_0000_0000_0000_0000
}

/// One step of the recurrence `s -> (a * s + c) mod 2^64`.
pub open spec fn step(a: int, c: int, s: int) -> int {
    (a * s + c) % modulus()
}

/// The state that follows `s` once a value has been emitted: two steps on.
pub open spec fn next_state(a: int, c: int, s: int) -> int {
    step(a, c, step(a, c, s))
}

/// The value emitted from state `s`: the high 32 bits of the second step's
/// state kept in place, plus the high 32 bits of the first step's state as the
/// low half, modulo `2^64`.
pub open spec fn emitted(a: int, c: int, s: int) -> int {
    let s1 = step(a, c, s);
    let s2 = step(a, c, s1);
    ((s2 / 0x1_0000_0000) * 0x1_0000_0000 + s1 / 0x1_0000_0000) % modulus()
}

/// The state after `k` values have been emitted, starting from `seed`.
pub open spec fn state_after(a: int, c: int, seed: int, k: nat) -> int
    decreases k,
{
    if k == 0 {
        seed
    } else {
        next_state(a, c, state_after(a, c, seed, (k - 1) as nat))
    }
}

/// The `k`-th value of the stream that starts from `seed` (counting from 0).
pub open spec fn draw(a: int, c: int, seed: int, k: nat) -> int {
    emitted(a, c, state_after(a, c, seed, k))
}

/// Reducing the state modulo `2^64` before a step does not change the step.
proof fn lemma_step_of_low_half(a: int, c: int, s: int)
    ensures
        step(a, c, s % modulus()) == step(a, c, s),
{
    let m = modulus();
    lemma_mul_mod_noop_right(a, s, m);
    lemma_add_mod_noop(a * (s % m), c, m);
    lemma_add_mod_noop(a * s, c, m);
}

/// A generator: the recurrence's two constants and the current state.
#[derive(Clone, Copy, Debug)]
pub struct Generator {
    pub multiplier: u64,
    pub increment: u64,
    pub state: u128,
}

/// One step of the recurrence on machine integers.
fn step_exec(multiplier: u64, increment: u64, state: u128) -> (r: u64)
    ensures
        r as int == step(multiplier as int, increment as int, state as int),
{
    let a: u128 = multiplier as u128;
    let c: u128 = increment as u128;
    let low: u128 = state % 0x1_0000_0000_0000_0000u128;
    assert(a * low + c <= 0xFFFF_FFFF_FFFF_FFFF_FFFF_FFFF_FFFF_FFFF) by (nonlinear_arith)
        requires
            a <= 0xFFFF_FFFF_FFFF_FFFF,
            low <= 0xFFFF_FFFF_FFFF_FFFF,
            c <= 0xFFFF_FFFF_FFFF_FFFF,
    ;
    let next: u128 = (a * low + c) % 0x1_0000_0000_0000_0000u128;
    proof {
        lemma_step_of_low_half(a as int, c as int, state as int);
    }
    next as u64
}

impl Generator {
    /// A generator with the given constants, positioned at `seed`.
    pub fn new(multiplier: u64, increment: u64, seed: u128) -> (r: Self)
        ensures
            r.multiplier == multiplier,
            r.increment == increment,
            r.state == seed,
    {
        Generator { multiplier, increment, state: seed }
    }

    /// Puts the generator back at `seed`; the constants stay.
    pub fn reset(&mut self, seed: u128)
        ensures
            final(self).multiplier == old(self).multiplier,
            final(self).increment == old(self).increment,
            final(self).state == seed,
    {
        self.state = seed;
    }

    /// Emits the next value of the stream and moves the state two steps on.
    pub fn advance(&mut self) -> (raw: u64)
        ensures
            final(self).multiplier == old(self).multiplier,
            final(self).increment == old(self).increment,
            final(self).state as int == next_state(
                old(self).multiplier as int,
                old(self).increment as int,
                old(self).state as int,
            ),
            raw as int == emitted(
                old(self).multiplier as int,
                old(self).increment as int,
                old(self).state as int,
            ),
    {
        let s1: u64 = step_exec(self.multiplier, self.increment, self.state);
        let x1: u64 = s1 >> 32;
        let s2: u64 = step_exec(self.multiplier, self.increment, s1 as u128);
        let high: u64 = s2 & 0xFFFF_FFFF_0000_0000;
        assert(x1 == s1 / 0x1_0000_0000) by (bit_vector)
            requires
                x1 == s1 >> 32,
        ;
        assert(high == (s2 / 0x1_0000_0000) * 0x1_0000_0000 && high <= 0xFFFF_FFFF_0000_0000
            && x1 <= 0xFFFF_FFFF) by (bit_vector)
            requires
                high == s2 & 0xFFFF_FFFF_0000_0000,
                x1 == s1 >> 32,
        ;
        self.state = s2 as u128;
        high + x1
    }
}

} // verus!
