use vstd::prelude::*;
use vstd::arithmetic::power2::{
    pow2, lemma_pow2_unfold, lemma2_to64, lemma2_to64_rest, lemma_pow2_pos, lemma_pow2_adds,
    lemma_pow2_strictly_increases,
};
use vstd::bits::lemma_u32_shr_is_div;
use concrete_csprng::RandomGenerator;
use crate::error::CipherError;
use crate::nibble::u4;

verus! {

/// The generator of concrete-csprng: AES-128 in counter mode. Verus sees
/// nothing inside it; [`generator_seed`], [`generator_position`] and
/// [`generator_bounded`] name what the contracts need of it.
#[verifier::external_type_specification]
#[verifier::external_body]
pub struct ExRandomGenerator(RandomGenerator);

/// Byte number `index` of the stream that a generator keyed with `seed`
/// gives on a little-endian machine: byte `index % 16` of the AES-128
/// encryption of the counter `index / 16` under the key `seed`, counter and
/// key laid out lowest byte first. The hardware and the software generator
/// of concrete-csprng give the same stream.
pub uninterp spec fn stream_byte(seed: u128, index: nat) -> u8;

/// The AES key of a generator: the seed it was built with, or the one it drew
/// for itself.
pub uninterp spec fn generator_seed(g: RandomGenerator) -> u128;

/// The number of bytes that a generator has given so far.
pub uninterp spec fn generator_position(g: RandomGenerator) -> nat;

/// Whether a generator may only give a limited number of bytes, as the
/// children of a fork do.
pub uninterp spec fn generator_bounded(g: RandomGenerator) -> bool;

/// Calls `RandomGenerator::new` with a seed: the generator is keyed with the
/// seed, stands at the start of its stream and has no bound.
#[verifier::external_body]
fn seeded_generator(seed: u128) -> (g: RandomGenerator)
    ensures
        generator_seed(g) == seed,
        generator_position(g) == 0,
        !generator_bounded(g),
{
    RandomGenerator::new(Some(seed))
}

/// Calls `RandomGenerator::new` without a seed: the generator draws its key
/// from the machine (the `rdseed` instruction, or `/dev/random` where the
/// processor has none), so nothing is known of the key; it stands at the
/// start of its stream and has no bound. On a machine with neither source the
/// call panics.
#[verifier::external_body]
fn fresh_generator() -> (g: RandomGenerator)
    ensures
        generator_position(g) == 0,
        !generator_bounded(g),
{
    RandomGenerator::new(None)
}

/// Calls `RandomGenerator::generate_next`: the next byte of the stream. A
/// generator without a bound never refuses, and stays without one.
#[verifier::external_body]
fn next_byte(g: &mut RandomGenerator) -> (b: u8)
    requires
        !generator_bounded(*old(g)),
    ensures
        b == stream_byte(generator_seed(*old(g)), generator_position(*old(g))),
        generator_seed(*final(g)) == generator_seed(*old(g)),
        generator_position(*final(g)) == generator_position(*old(g)) + 1,
        !generator_bounded(*final(g)),
    no_unwind
{
    g.generate_next()
}

/// The 32-bit word that four bytes of a stream make, the first byte lowest.
pub open spec fn stream_word(seed: u128, index: nat) -> int {
    stream_byte(seed, index) + 0x100 * stream_byte(seed, index + 1) + 0x1_0000 * stream_byte(
        seed,
        index + 2,
    ) + 0x100_0000 * stream_byte(seed, index + 3)
}

/// The `bits` highest bits of the word at `index`, as a number below `2^bits`.
pub open spec fn stream_bits(seed: u128, index: nat, bits: nat) -> int
    recommends
        bits <= 32,
{
    stream_word(seed, index) / (pow2((32 - bits) as nat) as int)
}

/// The number that `count` bytes of a stream make, the first byte lowest.
pub open spec fn stream_number(seed: u128, index: nat, count: nat) -> nat
    decreases count,
{
    if count == 0 {
        0
    } else {
        stream_byte(seed, index) as nat + 256 * stream_number(seed, index + 1, (count - 1) as nat)
    }
}

/// The nibble that the byte at `index` gives: its four lowest bits.
pub open spec fn stream_nibble(seed: u128, index: nat) -> int {
    stream_byte(seed, index) as int % 16
}

/// The number of bits of `x` after its highest set bit: the largest `r` with
/// `2^r <= x`, and 0 for 0.
pub open spec fn floor_log2(x: nat) -> nat
    decreases x,
{
    if x <= 1 {
        0
    } else {
        1 + floor_log2(x / 2)
    }
}

/// `floor_log2(x)` is the largest exponent whose power of two `x` reaches.
pub proof fn lemma_floor_log2_bounds(x: nat)
    requires
        x >= 1,
    ensures
        pow2(floor_log2(x)) <= x < pow2(floor_log2(x) + 1),
    decreases x,
{
    lemma2_to64();
    if x > 1 {
        lemma_floor_log2_bounds(x / 2);
        lemma_pow2_unfold(floor_log2(x / 2) + 1);
        lemma_pow2_unfold(floor_log2(x / 2) + 2);
    }
}

/// Computes [`floor_log2`].
pub fn bit_length(x: usize) -> (r: usize)
    ensures
        r == floor_log2(x as nat),
        r < usize::BITS,
{
    let mut rest: usize = x;
    let mut r: usize = 0;
    proof {
        lemma2_to64();
    }
    while rest > 1
        invariant
            floor_log2(x as nat) == r + floor_log2(rest as nat),
            rest * pow2(r as nat) <= x,
            r < usize::BITS,
        decreases rest,
    {
        proof {
            lemma_pow2_unfold((r + 1) as nat);
            lemma_pow2_pos(r as nat);
            let p = pow2(r as nat) as int;
            assert((rest / 2) * (2 * p) <= rest * p) by (nonlinear_arith)
                requires
                    p > 0,
                    rest >= 0,
            ;
            if r + 1 >= usize::BITS {
                lemma_pow2_adds(32, 32);
                lemma2_to64();
                if usize::BITS == 32 {
                    assert(pow2((r + 1) as nat) == 0x1_0000_0000);
                } else {
                    assert(pow2((r + 1) as nat) == 0x1_0000_0000_0000_0000);
                }
                assert((rest / 2) * pow2((r + 1) as nat) >= pow2((r + 1) as nat)) by (nonlinear_arith)
                    requires
                        rest / 2 >= 1,
                ;
            }
        }
        rest = rest / 2;
        r = r + 1;
    }
    r
}

/// A generator of pseudo-random bytes without a bound: a stream of bytes
/// fixed by its seed, and a position in it.
pub struct Generator {
    inner: RandomGenerator,
}

impl Generator {
    #[verifier::type_invariant]
    spec fn unbounded(&self) -> bool {
        !generator_bounded(self.inner)
    }

    /// The seed that fixes the stream.
    pub closed spec fn seed(&self) -> u128 {
        generator_seed(self.inner)
    }

    /// The number of bytes drawn so far.
    pub closed spec fn position(&self) -> nat {
        generator_position(self.inner)
    }

    /// A generator at the start of the stream of `seed`.
    pub fn new(seed: u128) -> (g: Self)
        ensures
            g.seed() == seed,
            g.position() == 0,
    {
        Generator { inner: seeded_generator(seed) }
    }

    /// A generator at the start of a stream whose seed the machine draws.
    pub fn fresh() -> (g: Self)
        ensures
            g.position() == 0,
    {
        Generator { inner: fresh_generator() }
    }

    /// Draws the next byte of the stream.
    pub fn random_byte(&mut self) -> (r: u8)
        ensures
            r == stream_byte(old(self).seed(), old(self).position()),
            final(self).seed() == old(self).seed(),
            final(self).position() == old(self).position() + 1,
    {
        proof {
            use_type_invariant(&*self);
        }
        next_byte(&mut self.inner)
    }

    /// Draws a 32-bit word, the first byte lowest, and keeps its `bits` highest
    /// bits, as concrete-core's `random_uniform_n_lsb` does for `u32`. No bits at
    /// all still cost the four bytes and give 0.
    pub fn random_bits(&mut self, bits: usize) -> (r: u32)
        requires
            bits <= 32,
        ensures
            r == stream_bits(old(self).seed(), old(self).position(), bits as nat),
            r < pow2(bits as nat),
            final(self).seed() == old(self).seed(),
            final(self).position() == old(self).position() + 4,
    {
        let b0 = self.random_byte();
        let b1 = self.random_byte();
        let b2 = self.random_byte();
        let b3 = self.random_byte();
        let word: u32 = (b0 as u32) + 0x100 * (b1 as u32) + 0x1_0000 * (b2 as u32) + 0x100_0000
            * (b3 as u32);
        proof {
            lemma2_to64();
            lemma_pow2_adds(bits as nat, (32 - bits) as nat);
            lemma_pow2_pos((32 - bits) as nat);
            lemma_pow2_pos(bits as nat);
            let hi = pow2(bits as nat) as int;
            let lo = pow2((32 - bits) as nat) as int;
            let w = word as int;
            assert(w / lo < hi) by (nonlinear_arith)
                requires
                    0 <= w < hi * lo,
                    lo > 0,
            ;
        }
        if bits == 0 {
            0
        } else {
            let shift: u32 = (32 - bits) as u32;
            proof {
                lemma_u32_shr_is_div(word, shift);
            }
            word >> shift
        }
    }

    /// Draws a 128-bit number, the first byte lowest, as concrete-core's
    /// `random_uniform` does for `u128`.
    pub fn random_seed(&mut self) -> (r: u128)
        ensures
            r == stream_number(old(self).seed(), old(self).position(), 16),
            final(self).seed() == old(self).seed(),
            final(self).position() == old(self).position() + 16,
    {
        let ghost seed = self.seed();
        let ghost start = self.position();
        let mut bytes: Vec<u8> = Vec::with_capacity(16);
        let mut k: usize = 0;
        while k < 16
            invariant
                k <= 16,
                bytes@.len() == k,
                self.seed() == seed,
                self.position() == start + k,
                forall|j: int| 0 <= j < k ==> bytes@[j] == stream_byte(seed, (start + j) as nat),
            decreases 16 - k,
        {
            let b = self.random_byte();
            bytes.push(b);
            k += 1;
        }
        let mut acc: u128 = 0;
        let mut k: usize = 0;
        proof {
            lemma2_to64();
        }
        while k < 16
            invariant
                k <= 16,
                bytes@.len() == 16,
                forall|j: int| 0 <= j < 16 ==> bytes@[j] == stream_byte(seed, (start + j) as nat),
                acc == stream_number(seed, (start + 16 - k) as nat, k as nat),
                acc < pow2(8 * k as nat),
            decreases 16 - k,
        {
            let b = bytes[15 - k];
            proof {
                lemma2_to64();
                lemma2_to64_rest();
                lemma_pow2_adds(8 * k as nat, 8);
                lemma_pow2_adds(64, 64);
                if 8 * k + 8 < 128 {
                    lemma_pow2_strictly_increases((8 * k + 8) as nat, 128);
                }
                assert(pow2(128) == 0x1_0000_0000_0000_0000_0000_0000_0000_0000);
                assert(acc * 256 + b < pow2((8 * k + 8) as nat)) by (nonlinear_arith)
                    requires
                        acc < pow2(8 * k as nat),
                        b < 256,
                        pow2((8 * k + 8) as nat) == pow2(8 * k as nat) * 256,
                ;
            }
            acc = acc * 256 + b as u128;
            k += 1;
        }
        acc
    }

    /// Draws a byte and keeps its four lowest bits.
    pub fn random_nibble(&mut self) -> (r: u4)
        ensures
            r.0 == stream_nibble(old(self).seed(), old(self).position()),
            r.is_nibble(),
            final(self).seed() == old(self).seed(),
            final(self).position() == old(self).position() + 1,
    {
        u4(self.random_byte() % 16)
    }
}

/// The index that [`gen_range`] draws in `[min, max)`: `min` plus as many
/// bits of the stream as `floor_log2(max - min)` says.
pub open spec fn range_draw(seed: u128, index: nat, min: int, max: int) -> int {
    min + stream_bits(seed, index, floor_log2((max - min) as nat))
}

/// As many bits of a word as the binary logarithm of a span says make a number
/// below the span, so the index that [`range_draw`] gives lies in the range.
pub proof fn lemma_range_draw_bounds(seed: u128, index: nat, min: int, max: int)
    requires
        0 <= min < max <= u32::MAX,
    ensures
        min <= range_draw(seed, index, min, max) < max,
{
    let bits = floor_log2((max - min) as nat);
    lemma_floor_log2_bounds((max - min) as nat);
    lemma2_to64();
    if bits > 32 {
        lemma_pow2_adds(32, (bits - 32) as nat);
        lemma_pow2_pos((bits - 32) as nat);
        assert(pow2(bits) >= 0x1_0000_0000) by (nonlinear_arith)
            requires
                pow2(bits) == 0x1_0000_0000 * pow2((bits - 32) as nat),
                pow2((bits - 32) as nat) > 0,
        ;
    }
    lemma_pow2_adds(bits, (32 - bits) as nat);
    lemma_pow2_pos((32 - bits) as nat);
    let hi = pow2(bits) as int;
    let lo = pow2((32 - bits) as nat) as int;
    let w = stream_word(seed, index);
    assert(0 <= w / lo < hi) by (nonlinear_arith)
        requires
            0 <= w < hi * lo,
            lo > 0,
    ;
}

/// Draws an index in `[min, max)`. The number of random bits is the floor of
/// the binary logarithm of the span, so a draw never reaches `max` and none
/// is ever rejected; the price is that, unless the span is a power of two,
/// the highest indices of the range never come out.
pub fn draw_index(rng: &mut Generator, min: usize, max: usize) -> (a: usize)
    requires
        min < max <= u32::MAX,
    ensures
        min <= a < max,
        a == range_draw(old(rng).seed(), old(rng).position(), min as int, max as int),
        final(rng).seed() == old(rng).seed(),
        final(rng).position() == old(rng).position() + 4,
{
    let bit_len = bit_length(max - min);
    proof {
        lemma_floor_log2_bounds((max - min) as nat);
        lemma2_to64();
        if bit_len > 32 {
            lemma_pow2_adds(32, (bit_len - 32) as nat);
            lemma_pow2_pos((bit_len - 32) as nat);
            assert(pow2(bit_len as nat) >= 0x1_0000_0000) by (nonlinear_arith)
                requires
                    pow2(bit_len as nat) == 0x1_0000_0000 * pow2((bit_len - 32) as nat),
                    pow2((bit_len - 32) as nat) > 0,
            ;
        }
    }
    let draw = rng.random_bits(bit_len);
    min + draw as usize
}

/// Draws an index in `[min, max)` as [`draw_index`] does. An empty or
/// inverted range is refused, and then nothing is drawn.
pub fn gen_range(rng: &mut Generator, min: usize, max: usize) -> (r: Result<usize, CipherError>)
    requires
        max <= u32::MAX,
    ensures
        r is Err <==> min >= max,
        r matches Err(e) ==> e == CipherError::RandomRangeInvariantViolation,
        r is Err ==> final(rng).position() == old(rng).position(),
        r matches Ok(a) ==> {
            &&& min <= a < max
            &&& a == range_draw(old(rng).seed(), old(rng).position(), min as int, max as int)
            &&& final(rng).position() == old(rng).position() + 4
        },
        final(rng).seed() == old(rng).seed(),
{
    if min >= max {
        return Err(CipherError::RandomRangeInvariantViolation);
    }
    Ok(draw_index(rng, min, max))
}

} // verus!
