//! Two small pseudo-random number generators: a SplitMix64-style generator
//! and Xoshiro256**, which is seeded from it.

use vstd::arithmetic::div_mod::{lemma_add_mod_noop, lemma_small_mod};
use vstd::prelude::*;
use vstd::wrapping::u64_specs::{wrapping_add, wrapping_mul};

verus! {

/// A source of 64-bit numbers.
pub trait Rng {
    fn gen(&mut self) -> u64;
}

/// The increment of the SplitMix64 state.
pub const GAMMA: u64 = 0x9E3779B97F4A7C15;

/// The state that follows `state`.
pub open spec fn splitmix_advance(state: u64) -> u64 {
    wrapping_add(state, GAMMA)
}

/// The number that the generator gives out when it has reached `state`.
pub open spec fn splitmix_mix(state: u64) -> u64 {
    let a = wrapping_mul(state ^ (state >> 30), 0xBF58476D1CE4E5B9);
    let b = wrapping_mul(a ^ (a >> 37), 0x94D049BB133111EB);
    b ^ (b >> 31)
}

/// The state after `steps` numbers have been drawn from `seed`.
pub open spec fn splitmix_state_after(seed: u64, steps: nat) -> u64
    decreases steps,
{
    if steps == 0 {
        seed
    } else {
        splitmix_advance(splitmix_state_after(seed, (steps - 1) as nat))
    }
}

/// `x` rotated to the left by `k` bits; only `k` modulo 64 counts.
pub open spec fn rotate_left_spec(x: u64, k: u32) -> u64 {
    let by = k % 64;
    if by == 0 {
        x
    } else {
        (x << by) | (x >> ((64 - by) as u32))
    }
}

/// Rotates `x` to the left by `k` bits.
pub fn rotate_left(x: u64, k: u32) -> (r: u64)
    ensures
        r == rotate_left_spec(x, k),
{
    let by: u32 = k % 64;
    if by == 0 {
        x
    } else {
        (x << by) | (x >> (64 - by))
    }
}

#[derive(Debug, Clone, Copy)]
pub struct Splitmix64 {
    state: u64,
}

impl View for Splitmix64 {
    type V = u64;

    closed spec fn view(&self) -> u64 {
        self.state
    }
}

impl Splitmix64 {
    pub fn new(seed: u64) -> (g: Self)
        ensures
            g@ == seed,
    {
        Self { state: seed }
    }

    /// Draws a number without mutation: the result is the generator in its
    /// next state, and the number.
    pub fn gen_const(self) -> (r: (Self, u64))
        ensures
            r.0@ == splitmix_advance(self@),
            r.1 == splitmix_mix(splitmix_advance(self@)),
    {
        let state = self.state.wrapping_add(GAMMA);
        let mut result = state;

        result = (result ^ result.wrapping_shr(30)).wrapping_mul(0xBF58476D1CE4E5B9);
        result = (result ^ result.wrapping_shr(37)).wrapping_mul(0x94D049BB133111EB);

        result = result ^ result.wrapping_shr(31);

        (Self { state }, result)
    }
}

impl Rng for Splitmix64 {
    fn gen(&mut self) -> (n: u64)
        ensures
            final(self)@ == splitmix_advance(old(self)@),
            n == splitmix_mix(final(self)@),
    {
        let (state, result) = self.gen_const();
        *self = state;

        result
    }
}

/// The state advances by [`GAMMA`] with every number drawn, wrapping around.
pub proof fn lemma_splitmix_state_after(seed: u64, steps: nat)
    ensures
        splitmix_state_after(seed, steps) == (seed + steps * GAMMA) % 0x1_0000_0000_0000_0000,
    decreases steps,
{
    if steps > 0 {
        let before = (steps - 1) as nat;
        lemma_splitmix_state_after(seed, before);
        let prev = splitmix_state_after(seed, before);
        let g = GAMMA as int;
        let m = 0x1_0000_0000_0000_0000int;
        let x = seed + before * g;
        assert(x + g == seed + steps * g) by (nonlinear_arith)
            requires
                steps == before + 1,
                x == seed + before * g,
        ;
        lemma_add_mod_noop(x, g, m);
        lemma_small_mod(g as nat, m as nat);
        assert(splitmix_advance(prev) == (prev + g) % m);
    }
}

/// A simple Xoshiro 256** generator.
#[derive(Debug, Clone, Copy)]
pub struct Xoshiro256ss {
    state: [u64; 4],
}

impl View for Xoshiro256ss {
    type V = Seq<u64>;

    closed spec fn view(&self) -> Seq<u64> {
        self.state@
    }
}

/// The four state words after one step of Xoshiro256**.
pub open spec fn xoshiro_advance(s: Seq<u64>) -> Seq<u64>
    recommends
        s.len() == 4,
{
    let t = s[1] << 17;
    let s2 = s[2] ^ s[0];
    let s3 = s[3] ^ s[1];
    let s1 = s[1] ^ s2;
    let s0 = s[0] ^ s3;
    seq![s0, s1, s2 ^ t, rotate_left_spec(s3, 45)]
}

/// The number that Xoshiro256** gives out in state `s`.
pub open spec fn xoshiro_output(s: Seq<u64>) -> u64
    recommends
        s.len() == 4,
{
    wrapping_mul(rotate_left_spec(wrapping_mul(s[1], 5), 7), 9)
}

/// The state that `seed` expands to: the first four numbers of the
/// SplitMix64 generator started at `seed`.
pub open spec fn xoshiro_seeded(seed: u64) -> Seq<u64> {
    seq![
        splitmix_mix(splitmix_state_after(seed, 1)),
        splitmix_mix(splitmix_state_after(seed, 2)),
        splitmix_mix(splitmix_state_after(seed, 3)),
        splitmix_mix(splitmix_state_after(seed, 4)),
    ]
}

impl Xoshiro256ss {
    pub fn new(seed: u64) -> (g: Self)
        ensures
            g@ == xoshiro_seeded(seed),
    {
        let mut seed_gen = Splitmix64::new(seed);
        let mut init = Self { state: [0;4] };

        let (next_seed, tmp) = seed_gen.gen_const();
        init.state[0] = tmp;
        seed_gen = next_seed;
        let (next_seed, tmp) = seed_gen.gen_const();
        init.state[1] = tmp;
        seed_gen = next_seed;
        let (next_seed, tmp) = seed_gen.gen_const();
        init.state[2] = tmp;
        seed_gen = next_seed;
        let (_, tmp) = seed_gen.gen_const();
        init.state[3] = tmp;

        proof {
            reveal_with_fuel(splitmix_state_after, 5);
            assert(init@ =~= xoshiro_seeded(seed));
        }
        init
    }
}

impl Rng for Xoshiro256ss {
    fn gen(&mut self) -> (n: u64)
        ensures
            n == xoshiro_output(old(self)@),
            final(self)@ == xoshiro_advance(old(self)@),
    {
        let res = rotate_left(self.state[1].wrapping_mul(5), 7).wrapping_mul(9);
        let t = self.state[1].wrapping_shl(17);

        self.state[2] ^= self.state[0];
        self.state[3] ^= self.state[1];
        self.state[1] ^= self.state[2];
        self.state[0] ^= self.state[3];

        self.state[2] ^= t;
        self.state[3] = rotate_left(self.state[3], 45);

        proof {
            assert(final(self)@ =~= xoshiro_advance(old(self)@));
        }
        res
    }
}

} // verus!
