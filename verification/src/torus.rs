//! How nibbles are laid out on the torus of 64-bit numbers that encrypted
//! values live on, and the plans that the encrypted representation and the
//! key store follow. The homomorphic operations themselves are not here.

use vstd::prelude::*;
use crate::filter::KeyswitchMode;
use crate::nibble::{u4, ring_neg};

verus! {

/// The numbers that ciphertexts are made of.
pub type Torus = u64;

/// The torus element that stands for a ring element: the nibble in the four
/// highest bits.
pub open spec fn encoded(v: int) -> int {
    v * 0x1000_0000_0000_0000
}

/// The nibble that a torus element is nearest to, the torus taken as a
/// circle: the four highest bits, rounded by the bit below them.
pub open spec fn decoded(t: int) -> int {
    ((t + 0x0800_0000_0000_0000) / 0x1000_0000_0000_0000) % 16
}

/// Puts a nibble in the four highest bits of a torus element.
pub fn encode(u: u4) -> (t: Torus)
    requires
        u.is_nibble(),
    ensures
        t == encoded(u.0 as int),
        decoded(t as int) == u.0,
{
    (u.0 as u64) * 0x1000_0000_0000_0000
}

/// Rounds a torus element to the nearest nibble.
pub fn decode(t: Torus) -> (u: u4)
    ensures
        u.is_nibble(),
        u.0 == decoded(t as int),
{
    let high: u64 = t / 0x0800_0000_0000_0000;
    let rounded: u64 = (high + 1) / 2;
    u4((rounded % 16) as u8)
}

/// The entry of a lookup table that coefficient `i` of an accumulator of `n`
/// coefficients holds: the index is `8 i / n` rounded to the nearest, ties
/// upwards; an index below eight takes the entry of the table, and the index
/// eight the additive inverse of entry 0, which a negacyclic table has at 8.
pub open spec fn accumulator_index(n: int, i: int) -> int {
    (16 * i + n) / (2 * n)
}

/// The ring element that coefficient `i` of the accumulator of a table stands for.
pub open spec fn accumulator_value(sbox: Seq<u4>, n: int, i: int) -> int {
    let d = accumulator_index(n, i);
    if d < 8 {
        sbox[d].0 as int
    } else {
        ring_neg(sbox[d - 8].0 as int)
    }
}

/// The index of an accumulator lies between 0 and 8.
pub proof fn lemma_accumulator_index_bounds(n: int, i: int)
    requires
        0 <= i < n,
    ensures
        0 <= accumulator_index(n, i) <= 8,
{
    let d = (16 * i + n) / (2 * n);
    assert(0 <= d <= 8) by (nonlinear_arith)
        requires
            0 <= i < n,
            d == (16 * i + n) / (2 * n),
    ;
}

/// The accumulator that a programmable bootstrap looks a table up with: a
/// polynomial of `polynomial_size` coefficients, coefficient `i` the encoding
/// of [`accumulator_value`]. Only the first half of the table is read: the
/// bootstrap gives the second half as the inverse of the first, which is what
/// a negacyclic table holds there.
pub fn lookup_accumulator(sbox: &[u4], polynomial_size: usize) -> (acc: Vec<Torus>)
    requires
        sbox@.len() >= 8,
        forall|k: int| 0 <= k < 8 ==> (#[trigger] sbox@[k]).is_nibble(),
        polynomial_size <= usize::MAX / 17,
    ensures
        acc@.len() == polynomial_size,
        forall|i: int|
            0 <= i < polynomial_size ==> #[trigger] acc@[i] == encoded(
                accumulator_value(sbox@, polynomial_size as int, i),
            ),
{
    let mut acc: Vec<Torus> = Vec::with_capacity(polynomial_size);
    let mut i: usize = 0;
    while i < polynomial_size
        invariant
            i <= polynomial_size <= usize::MAX / 17,
            sbox@.len() >= 8,
            forall|k: int| 0 <= k < 8 ==> (#[trigger] sbox@[k]).is_nibble(),
            acc@.len() == i,
            forall|j: int|
                0 <= j < i ==> #[trigger] acc@[j] == encoded(
                    accumulator_value(sbox@, polynomial_size as int, j),
                ),
        decreases polynomial_size - i,
    {
        proof {
            lemma_accumulator_index_bounds(polynomial_size as int, i as int);
        }
        let d: usize = (16 * i + polynomial_size) / (2 * polynomial_size);
        let value: u4 = if d < 8 {
            sbox[d]
        } else {
            u4((16 - sbox[d - 8].0) % 16)
        };
        acc.push(encode(value));
        i += 1;
    }
    acc
}

/// Which of the conversion keys a conversion of parameter domain takes.
#[derive(Clone, Copy, Debug, PartialEq, Eq, Structural)]
pub enum Conversion {
    /// The key that leads from the domain of the lookups to that of the key.
    Forward,
    /// The key that leads back, which only the scheme with two keys has.
    Backward,
}

/// Chooses the conversion of a ciphertext of `lwe_size` numbers, where the
/// forward key gives ciphertexts of `converted_size` numbers. With a single
/// key every conversion goes forward. With two keys a ciphertext that
/// already has the converted size goes back, and any other goes forward.
pub fn conversion(mode: KeyswitchMode, lwe_size: usize, converted_size: usize) -> (c: Conversion)
    ensures
        c == Conversion::Backward <==> mode == KeyswitchMode::TwoKeys && lwe_size
            == converted_size,
{
    match mode {
        KeyswitchMode::OneKey => Conversion::Forward,
        KeyswitchMode::TwoKeys => if lwe_size == converted_size {
            Conversion::Backward
        } else {
            Conversion::Forward
        },
    }
}

/// What the construction of keys does with the key store.
#[derive(Clone, Copy, Debug, PartialEq, Eq, Structural)]
pub enum KeyStorePlan {
    /// No store is configured: generate, and keep nothing.
    Generate,
    /// The store is configured and empty: generate, then write the keys.
    GenerateAndStore,
    /// The store holds keys: read them, and generate nothing.
    Load,
}

/// Plans the construction of keys: a store that holds keys is read, and
/// never written over; fresh keys are written where a store is configured.
pub fn key_store_plan(configured: bool, populated: bool) -> (plan: KeyStorePlan)
    ensures
        plan == KeyStorePlan::Load <==> configured && populated,
        plan == KeyStorePlan::GenerateAndStore <==> configured && !populated,
        plan == KeyStorePlan::Generate <==> !configured,
{
    if !configured {
        KeyStorePlan::Generate
    } else if populated {
        KeyStorePlan::Load
    } else {
        KeyStorePlan::GenerateAndStore
    }
}

} // verus!
