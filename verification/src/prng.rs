//! The splitmix32 generator: a counter that advances by an odd step, and a
//! finalizer that scrambles the counter.
//!
//! The generator keys the codec's tables and draws the response keys.
use vstd::prelude::*;

verus! {

/// The step of the counter. It is odd, so the counter runs through every
/// 32-bit value before it comes back to one.
pub const SPLITMIX32_GAMMA: u32 = 0x9E3779B9;

/// The multipliers of the finalizer. Both are odd.
pub const MIX_MUL_1: u32 = 0x85EBCA6B;

pub const MIX_MUL_2: u32 = 0xC2B2AE35;

/// The product of `a` and `b`, modulo 2^32.
pub open spec fn mul32(a: u32, b: u32) -> u32 {
    ((a * b) % 0x1_0000_0000) as u32
}

/// The sum of `a` and `b`, modulo 2^32.
pub open spec fn sum32(a: u32, b: u32) -> u32 {
    ((a + b) % 0x1_0000_0000) as u32
}

/// `z` with its high bits folded into its low ones.
pub open spec fn fold(z: u32, by: u32) -> u32 {
    z ^ (z >> by)
}

/// What the finalizer makes of the counter value `z`.
pub open spec fn mix(z: u32) -> u32 {
    fold(mul32(fold(mul32(fold(z, 16), MIX_MUL_1), 13), MIX_MUL_2), 16)
}

/// The counter after `n` steps from `start`.
pub open spec fn counter(start: u32, n: nat) -> u32 {
    ((start + n * SPLITMIX32_GAMMA) % 0x1_0000_0000) as u32
}

/// The `n`-th draw, counted from one, of the generator that starts at `seed`.
pub open spec fn draw(seed: u32, n: nat) -> u32 {
    mix(counter(seed, n))
}

/// Scrambles a counter value.
pub fn splitmix32_finalize(z: u32) -> (r: u32)
    ensures
        r == mix(z),
{
    let mut z: u32 = z;
    z = z ^ (z >> 16);
    z = z.wrapping_mul(MIX_MUL_1);
    z = z ^ (z >> 13);
    z = z.wrapping_mul(MIX_MUL_2);
    z ^ (z >> 16)
}

/// Advances the counter by one step and draws from its new value.
pub fn splitmix32(state: &mut u32) -> (r: u32)
    ensures
        *final(state) == sum32(*old(state), SPLITMIX32_GAMMA),
        *final(state) == (*old(state) + 0x9E3779B9) % 0x1_0000_0000,
        r == mix(*final(state)),
{
    *state = (*state).wrapping_add(SPLITMIX32_GAMMA);
    splitmix32_finalize(*state)
}

/// Multiplying by `m` is undone by multiplying by its inverse `inv` modulo 2^32.
proof fn lemma_mul32_inverse(a: u32, m: u32, inv: u32, k: int)
    requires
        m * inv == 1 + k * 0x1_0000_0000,
    ensures
        mul32(mul32(a, m), inv) == a,
{
    let q = (a * m) / 0x1_0000_0000;
    let r = (a * m) % 0x1_0000_0000;
    let t = a * k - q * inv;
    assert(r * inv == a + t * 0x1_0000_0000) by (nonlinear_arith)
        requires
            a * m == q * 0x1_0000_0000 + r,
            m * inv == 1 + k * 0x1_0000_0000,
            t == a * k - q * inv,
    ;
}

/// Folding by half a word or by thirteen bits loses nothing.
proof fn lemma_fold_injective(a: u32, b: u32)
    ensures
        fold(a, 16) == fold(b, 16) ==> a == b,
        fold(a, 13) == fold(b, 13) ==> a == b,
{
    assert(a ^ (a >> 16) == b ^ (b >> 16) ==> a == b) by (bit_vector);
    assert(a ^ (a >> 13) == b ^ (b >> 13) ==> a == b) by (bit_vector);
}

/// Folding by half a word undoes itself, and folding by thirteen bits is undone
/// by folding in thirteen bits and twice as many.
proof fn lemma_fold_undone(z: u32)
    ensures
        fold(fold(z, 16), 16) == z,
        fold(z, 13) ^ (fold(z, 13) >> 13) ^ (fold(z, 13) >> 26) == z,
{
    assert((z ^ (z >> 16)) ^ ((z ^ (z >> 16)) >> 16) == z) by (bit_vector);
    assert((z ^ (z >> 13)) ^ ((z ^ (z >> 13)) >> 13) ^ ((z ^ (z >> 13)) >> 26) == z)
        by (bit_vector);
}

/// The finalizer can be run backwards, and this is how: every counter value
/// comes back from what the finalizer made of it. The two factors are the
/// inverses of 0xC2B2AE35 and 0x85EBCA6B modulo 2^32. Each step back gives
/// different results for different values, so that the law leaves one result for
/// each counter value.
pub proof fn law_mix_runs_backwards(z: u32)
    ensures
        ({
            let r = mix(z);
            let d = r ^ (r >> 16);
            let c = ((d * 0x7ed1b41d) % 0x1_0000_0000) as u32;
            let b = c ^ (c >> 13) ^ (c >> 26);
            let a = ((b * 0xa5cb9243) % 0x1_0000_0000) as u32;
            z == a ^ (a >> 16)
        }),
        (0xC2B2AE35 * 0x7ed1b41d) % 0x1_0000_0000 == 1,
        (0x85EBCA6B * 0xa5cb9243) % 0x1_0000_0000 == 1,
{
    let z1 = fold(z, 16);
    let z2 = mul32(z1, MIX_MUL_1);
    let z3 = fold(z2, 13);
    let z4 = mul32(z3, MIX_MUL_2);
    lemma_fold_undone(z4);
    lemma_mul32_inverse(z3, MIX_MUL_2, 0x7ed1b41d, 0x60736e9a);
    lemma_fold_undone(z2);
    lemma_mul32_inverse(z1, MIX_MUL_1, 0xa5cb9243, 0x56bb77f4);
    lemma_fold_undone(z);
}

/// The draws of a generator are the finalizer's results for the counter values
/// that its seed leads to in steps of 0x9E3779B9: draw `n` depends on every bit
/// of the seed, and a generator that starts `k` steps further gives the same
/// draws, `k` of them earlier.
pub proof fn law_draws_are_counted(seed: u32, k: nat, n: nat)
    ensures
        draw(seed, n) == mix(((seed + n * 0x9E3779B9) % 0x1_0000_0000) as u32),
        draw(((seed + k * 0x9E3779B9) % 0x1_0000_0000) as u32, n) == draw(seed, k + n),
{
    let (here, rest) = (seed + k * SPLITMIX32_GAMMA, n * SPLITMIX32_GAMMA);
    assert(here + rest == seed + (k + n) * SPLITMIX32_GAMMA) by (nonlinear_arith)
        requires
            here == seed + k * SPLITMIX32_GAMMA,
            rest == n * SPLITMIX32_GAMMA,
    ;
    lemma_sum_after_wrap(here, rest);
}

/// A sum can be reduced modulo 2^32 before the last summand is added.
proof fn lemma_sum_after_wrap(a: int, b: int)
    ensures
        (a % 0x1_0000_0000 + b) % 0x1_0000_0000 == (a + b) % 0x1_0000_0000,
        0 <= a % 0x1_0000_0000 <= u32::MAX,
{
}

/// Adding the same number keeps different 32-bit values apart modulo 2^32.
proof fn lemma_sums_differ(a: u32, b: u32, c: int)
    requires
        a != b,
    ensures
        (a + c) % 0x1_0000_0000 != (b + c) % 0x1_0000_0000,
{
}

/// Different seeds give different draws, at every place.
pub proof fn law_draws_tell_seeds_apart(a: u32, b: u32, n: nat)
    requires
        a != b,
    ensures
        draw(a, n) != draw(b, n),
{
    lemma_sums_differ(a, b, n * SPLITMIX32_GAMMA);
    law_mix_is_injective(counter(a, n), counter(b, n));
}

/// The finalizer gives different results for different counter values.
pub proof fn law_mix_is_injective(a: u32, b: u32)
    ensures
        mix(a) == mix(b) ==> a == b,
{
    let (a1, b1) = (fold(a, 16), fold(b, 16));
    let (a2, b2) = (mul32(a1, MIX_MUL_1), mul32(b1, MIX_MUL_1));
    let (a3, b3) = (fold(a2, 13), fold(b2, 13));
    let (a4, b4) = (mul32(a3, MIX_MUL_2), mul32(b3, MIX_MUL_2));
    lemma_fold_injective(a4, b4);
    lemma_mul32_inverse(a3, MIX_MUL_2, 0x7ed1b41d, 0x60736e9a);
    lemma_mul32_inverse(b3, MIX_MUL_2, 0x7ed1b41d, 0x60736e9a);
    lemma_fold_injective(a2, b2);
    lemma_mul32_inverse(a1, MIX_MUL_1, 0xa5cb9243, 0x56bb77f4);
    lemma_mul32_inverse(b1, MIX_MUL_1, 0xa5cb9243, 0x56bb77f4);
    lemma_fold_injective(a, b);
}

/// One step of the counter takes it from its value after `n` steps to its
/// value after `n + 1`.
pub proof fn lemma_counter_step(start: u32, n: nat)
    ensures
        counter(start, 0) == start,
        counter(start, n + 1) == sum32(counter(start, n), SPLITMIX32_GAMMA),
{
    assert((n + 1) * SPLITMIX32_GAMMA == n * SPLITMIX32_GAMMA + SPLITMIX32_GAMMA)
        by (nonlinear_arith);
}

/// A generator repeats no draw within 2^32 draws, whatever its seed.
pub proof fn law_draws_do_not_repeat(seed: u32, m: nat, n: nat)
    requires
        m < n < m + 0x1_0000_0000,
    ensures
        draw(seed, m) != draw(seed, n),
{
    let d = n - m;
    if counter(seed, m) == counter(seed, n) {
        let a = seed + m * SPLITMIX32_GAMMA;
        let b = seed + n * SPLITMIX32_GAMMA;
        let k = b / 0x1_0000_0000 - a / 0x1_0000_0000;
        assert(d * 0x9E3779B9 == k * 0x1_0000_0000);
        // The inverse of the step turns the multiple of 2^32 into `d` itself.
        assert(d == (k * 0x144cbc89 - d * 0xc8bc280) * 0x1_0000_0000);
        assert(false);
    }
    law_mix_is_injective(counter(seed, m), counter(seed, n));
}

} // verus!
