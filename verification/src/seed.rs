//! The number from which packets are counted, drawn from the noise of the converter.
use vstd::prelude::*;

verus! {

/// Readings that go into a seed, one bit from each.
pub const SEED_BITS: usize = 64;

/// The number whose binary digits are the lowest bits of the first `n` readings, the
/// first reading's bit being the most significant.
pub open spec fn noise_value(readings: Seq<u16>, n: nat) -> nat
    decreases n,
{
    if n == 0 {
        0
    } else {
        2 * noise_value(readings, (n - 1) as nat) + readings[n - 1] as nat % 2
    }
}

/// A number with its bits moved to the right by `by` places, those that fall out coming back
/// in on the left.
pub open spec fn rotated_right(x: u32, by: u32) -> u32 {
    (x >> by) | (x << ((32 - by) % 32) as u32)
}

/// The state of an `oorandom::Rand32` when it has just been made from a seed.
pub open spec fn first_state(seed: u64) -> u64 {
    (((seed + 2885390081777926815) * 6364136223846793005 + 2885390081777926815)
        % 0x1_0000_0000_0000_0000) as u64
}

/// The first number that `oorandom::Rand32` produces from a seed: the folded high bits of
/// its state, rotated by the highest five.
pub open spec fn first_random(seed: u64) -> u32 {
    let state = first_state(seed);
    rotated_right((((state >> 18) ^ state) >> 27) as u32, (state >> 59) as u32)
}

/// The first `oorandom::Rand32::rand_u32` of a generator made with
/// `oorandom::Rand32::new`. The generator is a 64-bit linear congruential one with the
/// library's default increment; its output is the PCG permutation XSH-RR of the state.
#[verifier::external_body]
pub(crate) fn draw(seed: u64) -> (r: u32)
    ensures
        r == first_random(seed),
{
    oorandom::Rand32::new(seed).rand_u32()
}

proof fn lemma_noise_value_bound(readings: Seq<u16>, n: nat)
    ensures
        noise_value(readings, n) < vstd::arithmetic::power2::pow2(n),
    decreases n,
{
    broadcast use vstd::arithmetic::power2::lemma_pow2_unfold;

    vstd::arithmetic::power2::lemma2_to64();
    if n > 0 {
        lemma_noise_value_bound(readings, (n - 1) as nat);
    }
}

/// Gathers a seed from the noisy lowest bits of the readings.
pub fn gather_seed(readings: &[u16; 64]) -> (seed: u64)
    ensures
        seed == noise_value(readings@, SEED_BITS as nat),
{
    let mut seed: u64 = 0;
    let mut i: usize = 0;
    while i < SEED_BITS
        invariant
            i <= SEED_BITS,
            seed == noise_value(readings@, i as nat),
        decreases SEED_BITS - i,
    {
        let reading: u16 = readings[i];
        let bit: u64 = (reading & 0x01) as u64;
        proof {
            assert((reading & 0x01u16) == reading % 2) by (bit_vector);
            lemma_noise_value_bound(readings@, i as nat);
            vstd::arithmetic::power2::lemma2_to64_rest();
            if i < 63 {
                vstd::arithmetic::power2::lemma_pow2_strictly_increases(i as nat, 63);
            }
            assert(seed < 0x8000_0000_0000_0000u64 && bit < 2 ==> ((seed << 1u64) | bit) == 2 * seed
                + bit) by (bit_vector);
        }
        seed = (seed << 1) | bit;
        i = i + 1;
    }
    seed
}

/// The number from which a controller with this seed counts its packets: half of what the
/// generator produced.
pub open spec fn start_of(random: u32) -> u32 {
    random / 2
}

/// Halves a random number, so that packet numbers start in the lower half of their range.
pub fn start_from(random: u32) -> (r: u32)
    ensures
        r == start_of(random),
{
    assert(random >> 1u32 == random / 2) by (bit_vector);
    random >> 1
}

/// The number from which a controller with this seed counts its packets.
pub fn random_start(seed: u64) -> (r: u32)
    ensures
        r == start_of(first_random(seed)),
{
    start_from(draw(seed))
}

/// Whatever was drawn, the packet number can go up at least `2^31` times.
pub proof fn numbers_do_not_run_out(random: u32, sent: nat)
    requires
        sent <= 0x8000_0000,
    ensures
        start_of(random) + sent <= u32::MAX,
{
}

/// Each reading gives one bit of the seed, its own lowest one: the first reading's counts
/// most, and the seed is made of nothing else.
pub proof fn each_reading_gives_its_bit(readings: Seq<u16>, n: nat, i: nat)
    requires
        i < n,
    ensures
        noise_value(readings, n) / vstd::arithmetic::power2::pow2((n - 1 - i) as nat) % 2
            == readings[i as int] % 2,
        noise_value(readings, n) < vstd::arithmetic::power2::pow2(n),
    decreases n,
{
    let m = (n - 1) as nat;
    let low = noise_value(readings, n);
    let high = noise_value(readings, m);
    lemma_noise_value_bound(readings, n);
    vstd::arithmetic::power2::lemma2_to64();
    if i == m {
        assert(low / 1 == low);
    } else {
        each_reading_gives_its_bit(readings, m, i);
        let k = (m - 1 - i) as nat;
        let unit = vstd::arithmetic::power2::pow2(k);
        vstd::arithmetic::power2::lemma_pow2_unfold((k + 1) as nat);
        vstd::arithmetic::power2::lemma_pow2_pos(k);
        assert(low / 2 == high);
        vstd::arithmetic::div_mod::lemma_div_denominator(low as int, 2, unit as int);
    }
}

/// The start is the number that was drawn, halved and rounded down.
pub proof fn start_is_half_of_what_was_drawn(random: u32)
    ensures
        2 * start_of(random) <= random <= 2 * start_of(random) + 1,
{
}

} // verus!
