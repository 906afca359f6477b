//! SplitMix64: the integer generator behind every seeded draw.
use crate::binary64::UNIT_SPAN;
use vstd::prelude::*;

verus! {

/// The increment of the generator's state.
pub const GAMMA: u64 = 0x9e37_79b9_7f4a_7c15;

/// The first multiplier of the output mix.
pub const MIX_FIRST: u64 = 0xbf58_476d_1ce4_e5b9;

/// The second multiplier of the output mix.
pub const MIX_SECOND: u64 = 0x94d0_49bb_1331_11eb;

/// What a seed is combined with to give the first state.
pub const SEED_MASK: u64 = 0x1234_5678_9abc_def0;

/// The state that follows `state`.
pub open spec fn next_state(state: u64) -> u64 {
    state.wrapping_add(GAMMA)
}

/// The 64-bit output of a state.
pub open spec fn mix(state: u64) -> u64 {
    let a: u64 = (state ^ (state >> 30)).wrapping_mul(MIX_FIRST);
    let b: u64 = (a ^ (a >> 27)).wrapping_mul(MIX_SECOND);
    b ^ (b >> 31)
}

/// The unit draw of a state, as its number of `2^-53` steps.
pub open spec fn unit_draw(state: u64) -> u64 {
    mix(state) >> 11
}

/// The first state of the stream of `seed`.
pub open spec fn first_state(seed: u64) -> u64 {
    seed ^ SEED_MASK
}

/// The state after `n` draws from `state`.
pub open spec fn state_after(state: u64, n: nat) -> u64
    decreases n,
{
    if n == 0 {
        state
    } else {
        next_state(state_after(state, (n - 1) as nat))
    }
}

/// A SplitMix64 generator.
#[derive(Debug)]
pub struct SplitMix64 {
    state: u64,
}

impl View for SplitMix64 {
    type V = u64;

    closed spec fn view(&self) -> u64 {
        self.state
    }
}

impl SplitMix64 {
    /// The generator at the start of the stream of `seed`.
    pub fn new(seed: u64) -> (rng: SplitMix64)
        ensures
            rng@ == first_state(seed),
    {
        SplitMix64 { state: seed ^ SEED_MASK }
    }

    /// The next draw in `[0, 1)`, as its number of `2^-53` steps: the draw itself is
    /// the result over `2^53`, which binary64 holds with nothing rounded.
    pub fn next_unit(&mut self) -> (draw: u64)
        ensures
            final(self)@ == next_state(old(self)@),
            draw == unit_draw(final(self)@),
            draw < UNIT_SPAN,
    {
        self.state = self.state.wrapping_add(GAMMA);
        let mut z: u64 = self.state;
        z = (z ^ (z >> 30)).wrapping_mul(MIX_FIRST);
        z = (z ^ (z >> 27)).wrapping_mul(MIX_SECOND);
        z = z ^ (z >> 31);
        assert(z >> 11 < 0x0020_0000_0000_0000) by (bit_vector);
        z >> 11
    }
}

proof fn lemma_xor_shift_injective(x: u64, y: u64)
    ensures
        x ^ (x >> 30) == y ^ (y >> 30) ==> x == y,
        x ^ (x >> 27) == y ^ (y >> 27) ==> x == y,
        x ^ (x >> 31) == y ^ (y >> 31) ==> x == y,
{
    assert(x ^ (x >> 30) == y ^ (y >> 30) ==> x == y) by (bit_vector);
    assert(x ^ (x >> 27) == y ^ (y >> 27) ==> x == y) by (bit_vector);
    assert(x ^ (x >> 31) == y ^ (y >> 31) ==> x == y) by (bit_vector);
}

/// Multiplying by either (odd) multiplier modulo `2^64` loses nothing: the witness is
/// the multiplier's inverse.
proof fn lemma_multipliers_injective(x: u64, y: u64)
    ensures
        x.wrapping_mul(MIX_FIRST) == y.wrapping_mul(MIX_FIRST) ==> x == y,
        x.wrapping_mul(MIX_SECOND) == y.wrapping_mul(MIX_SECOND) ==> x == y,
{
    let d: int = x - y;
    if x.wrapping_mul(MIX_FIRST) == y.wrapping_mul(MIX_FIRST) {
        let q: int = (x * MIX_FIRST) / 0x1_0000_0000_0000_0000 - (y * MIX_FIRST)
            / 0x1_0000_0000_0000_0000;
        assert(d * 0xbf58_476d_1ce4_e5b9 == 0x1_0000_0000_0000_0000 * q);
        let t: int = q * 0x96de_1b17_3f11_9089 - d * 0x70c3_bca7_8f27_f46c;
        assert(d == 0x1_0000_0000_0000_0000 * t);
    }
    if x.wrapping_mul(MIX_SECOND) == y.wrapping_mul(MIX_SECOND) {
        let q: int = (x * MIX_SECOND) / 0x1_0000_0000_0000_0000 - (y * MIX_SECOND)
            / 0x1_0000_0000_0000_0000;
        assert(d * 0x94d0_49bb_1331_11eb == 0x1_0000_0000_0000_0000 * q);
        let t: int = q * 0x3196_42b2_d24d_8ec3 - d * 0x1cd3_36ed_a85f_1453;
        assert(d == 0x1_0000_0000_0000_0000 * t);
    }
}

/// Distinct states have distinct 64-bit outputs.
pub proof fn lemma_mix_injective(x: u64, y: u64)
    ensures
        mix(x) == mix(y) ==> x == y,
{
    let a = |s: u64| (s ^ (s >> 30)).wrapping_mul(MIX_FIRST);
    let b = |s: u64| (a(s) ^ (a(s) >> 27)).wrapping_mul(MIX_SECOND);
    lemma_xor_shift_injective(b(x), b(y));
    lemma_multipliers_injective(a(x) ^ (a(x) >> 27), a(y) ^ (a(y) >> 27));
    lemma_xor_shift_injective(a(x), a(y));
    lemma_multipliers_injective(x ^ (x >> 30), y ^ (y >> 30));
    lemma_xor_shift_injective(x, y);
}

/// Two streams that start apart stay apart: after any number of draws their states,
/// and with them their 64-bit outputs, differ.
pub proof fn lemma_streams_stay_apart(x: u64, y: u64, n: nat)
    requires
        x != y,
    ensures
        state_after(x, n) != state_after(y, n),
        mix(state_after(x, n)) != mix(state_after(y, n)),
    decreases n,
{
    if n > 0 {
        lemma_streams_stay_apart(x, y, (n - 1) as nat);
    }
    lemma_mix_injective(state_after(x, n), state_after(y, n));
}

/// The state advances by one odd stride, modulo `2^64`.
#[verifier::spinoff_prover]
pub proof fn law_states_are_a_stride_apart(state: u64, n: nat)
    ensures
        next_state(state) == (state + 0x9e37_79b9_7f4a_7c15) % 0x1_0000_0000_0000_0000,
        state_after(state, n) == (state + n * 0x9e37_79b9_7f4a_7c15) % 0x1_0000_0000_0000_0000,
    decreases n,
{
    if n > 0 {
        law_states_are_a_stride_apart(state, (n - 1) as nat);
        let earlier = state_after(state, (n - 1) as nat);
        assert(n * 0x9e37_79b9_7f4a_7c15 == (n - 1) * 0x9e37_79b9_7f4a_7c15
            + 0x9e37_79b9_7f4a_7c15) by (nonlinear_arith);
        assert(next_state(earlier) == (earlier + 0x9e37_79b9_7f4a_7c15)
            % 0x1_0000_0000_0000_0000);
        vstd::arithmetic::div_mod::lemma_add_mod_noop(
            state + (n - 1) * 0x9e37_79b9_7f4a_7c15,
            0x9e37_79b9_7f4a_7c15,
            0x1_0000_0000_0000_0000,
        );
        vstd::arithmetic::div_mod::lemma_add_mod_noop(
            earlier as int,
            0x9e37_79b9_7f4a_7c15,
            0x1_0000_0000_0000_0000,
        );
    }
}

/// Multiplying by a multiplier and then by its inverse, modulo `2^64`, is nothing.
#[verifier::spinoff_prover]
proof fn lemma_multipliers_undone(x: u64)
    ensures
        x.wrapping_mul(0xbf58_476d_1ce4_e5b9).wrapping_mul(0x96de_1b17_3f11_9089) == x,
        x.wrapping_mul(0x94d0_49bb_1331_11eb).wrapping_mul(0x3196_42b2_d24d_8ec3) == x,
{
    let m: int = 0x1_0000_0000_0000_0000;
    vstd::arithmetic::div_mod::lemma_mul_mod_noop_left(
        x * 0xbf58_476d_1ce4_e5b9,
        0x96de_1b17_3f11_9089,
        m,
    );
    vstd::arithmetic::div_mod::lemma_mul_mod_noop_left(
        x * 0x94d0_49bb_1331_11eb,
        0x3196_42b2_d24d_8ec3,
        m,
    );
    assert((x * 0xbf58_476d_1ce4_e5b9) * 0x96de_1b17_3f11_9089 == m * (x
        * 0x70c3_bca7_8f27_f46c) + x);
    assert((x * 0x94d0_49bb_1331_11eb) * 0x3196_42b2_d24d_8ec3 == m * (x
        * 0x1cd3_36ed_a85f_1453) + x);
    vstd::arithmetic::div_mod::lemma_mod_multiples_vanish(
        x * 0x70c3_bca7_8f27_f46c,
        x as int,
        m,
    );
    vstd::arithmetic::div_mod::lemma_mod_multiples_vanish(
        x * 0x1cd3_36ed_a85f_1453,
        x as int,
        m,
    );
    vstd::arithmetic::div_mod::lemma_small_mod(x as nat, m as nat);
}

/// The output mix can be undone: the shifts unfolded, and the multipliers' inverses in
/// the opposite order, give the state back.
#[verifier::spinoff_prover]
pub proof fn law_mix_is_undone(state: u64)
    ensures
        ({
            let a = mix(state) ^ (mix(state) >> 31) ^ (mix(state) >> 62);
            let b = a.wrapping_mul(0x3196_42b2_d24d_8ec3);
            let c = b ^ (b >> 27) ^ (b >> 54);
            let d = c.wrapping_mul(0x96de_1b17_3f11_9089);
            d ^ (d >> 30) ^ (d >> 60) == state
        }),
{
    let x0 = state;
    let x1 = x0 ^ (x0 >> 30);
    let x2 = x1.wrapping_mul(MIX_FIRST);
    let x3 = x2 ^ (x2 >> 27);
    let x4 = x3.wrapping_mul(MIX_SECOND);
    let x5 = x4 ^ (x4 >> 31);
    assert(mix(state) == x5);
    assert((x4 ^ (x4 >> 31)) ^ ((x4 ^ (x4 >> 31)) >> 31) ^ ((x4 ^ (x4 >> 31)) >> 62) == x4)
        by (bit_vector);
    assert((x2 ^ (x2 >> 27)) ^ ((x2 ^ (x2 >> 27)) >> 27) ^ ((x2 ^ (x2 >> 27)) >> 54) == x2)
        by (bit_vector);
    assert((x0 ^ (x0 >> 30)) ^ ((x0 ^ (x0 >> 30)) >> 30) ^ ((x0 ^ (x0 >> 30)) >> 60) == x0)
        by (bit_vector);
    lemma_multipliers_undone(x3);
    lemma_multipliers_undone(x1);
}

/// A unit draw is the top 53 bits of the output, and a stream starts at the whole seed
/// under the mask: it gives the seed back.
pub proof fn law_draws_and_seeds_are_whole(state: u64, seed: u64)
    ensures
        unit_draw(state) == mix(state) / 2048,
        first_state(seed) ^ 0x1234_5678_9abc_def0 == seed,
{
    let z = mix(state);
    assert(z >> 11 == z / 2048) by (bit_vector);
    assert((seed ^ 0x1234_5678_9abc_def0) ^ 0x1234_5678_9abc_def0 == seed) by (bit_vector);
}

/// What calls on a generator do: it starts at the seed under the mask, and a draw moves it
/// by the stride and gives the top 53 bits of the new state's output.
pub proof fn law_calls_on_generators(
    seed: u64,
    new: SplitMix64,
    rng: &mut SplitMix64,
    draw: u64,
)
    requires
        call_ensures(SplitMix64::new, (seed,), new),
        call_ensures(SplitMix64::next_unit, (rng,), draw),
    ensures
        new@ ^ 0x1234_5678_9abc_def0 == seed,
        final(rng)@ == (old(rng)@ + 0x9e37_79b9_7f4a_7c15) % 0x1_0000_0000_0000_0000,
        draw == mix(final(rng)@) / 2048,
{
    law_draws_and_seeds_are_whole(final(rng)@, seed);
    law_states_are_a_stride_apart(old(rng)@, 0);
}

} // verus!
