//! What holds of the cipher as a whole, stated over the models that the
//! contracts of the library speak of.

use vstd::prelude::*;
use crate::encrypter::{keystream, encrypted, decrypted};
use crate::filter::{blocks_sum, block_of, block_output, round_output};
use crate::nibble::{ring_add, ring_neg};
use crate::symmetric_key::{SamplerState, is_permutation, lemma_shuffled_permutation};

verus! {

/// Whether two sampler states agree in all that a round depends on: master
/// key, indices, seed, position in the stream and length of a round. The two
/// encrypters of a pair start in such states.
pub open spec fn same_stream(a: SamplerState, b: SamplerState) -> bool {
    &&& a.key == b.key
    &&& a.indices == b.indices
    &&& a.seed == b.seed
    &&& a.position == b.position
    &&& a.round_len == b.round_len
}

/// Whether every entry of a sequence is an element of the ring.
pub open spec fn in_ring(s: Seq<int>) -> bool {
    forall|i: int| 0 <= i < s.len() ==> 0 <= #[trigger] s[i] < 16
}

/// Adding a nibble of keystream and then its additive inverse gives the
/// message nibble back.
pub proof fn law_stream_cancels(stream: int, message: int)
    requires
        0 <= stream < 16,
        0 <= message < 16,
    ensures
        ring_add(ring_neg(stream), ring_add(stream, message)) == message,
{
}

/// Two samplers that agree in key, indices, seed and position draw the same
/// rounds, call for call, and so give the same keystream, however their
/// nibbles are represented. Two samplers built with one seed over keys that
/// stand for the same ring elements start in such states.
pub proof fn law_same_seed_same_rounds(a: SamplerState, b: SamplerState, rounds: nat)
    requires
        same_stream(a, b),
    ensures
        same_stream(a.after(rounds), b.after(rounds)),
        a.after(rounds).round() == b.after(rounds).round(),
        keystream(a, rounds) == keystream(b, rounds),
    decreases rounds,
{
    if rounds > 0 {
        law_same_seed_same_rounds(a, b, (rounds - 1) as nat);
    }
}

/// After any number of rounds the indices are a permutation of the positions
/// of the key: none occurs twice and none is out of range.
pub proof fn law_indices_stay_permutation(s: SamplerState, rounds: nat)
    requires
        s.valid(),
    ensures
        s.after(rounds).valid(),
        is_permutation(s.after(rounds).indices),
        s.after(rounds).key == s.key,
        s.after(rounds).seed == s.seed,
        s.after(rounds).round_len == s.round_len,
        s.after(rounds).position == s.position + 5 * s.round_len * rounds,
    decreases rounds,
{
    if rounds > 0 {
        let before = s.after((rounds - 1) as nat);
        law_indices_stay_permutation(s, (rounds - 1) as nat);
        lemma_shuffled_permutation(before.indices, before.seed, before.position, before.round_len);
        assert(5 * s.round_len * rounds == 5 * s.round_len * (rounds - 1) + 5 * s.round_len)
            by (nonlinear_arith);
    }
}

/// Decrypting what was encrypted gives the message back, where the two
/// operations are driven by encrypters that were derived together. The two
/// may represent their nibbles differently: encrypting in the clear and
/// decrypting on encrypted nibbles gives nibbles that stand for the message.
pub proof fn law_round_trip(a: SamplerState, b: SamplerState, message: Seq<int>)
    requires
        same_stream(a, b),
        in_ring(message),
    ensures
        decrypted(b, encrypted(a, message)) == message,
{
    let c = encrypted(a, message);
    assert forall|i: int| 0 <= i < message.len() implies decrypted(b, c)[i] == message[i] by {
        law_same_seed_same_rounds(a, b, i as nat);
        law_stream_cancels(keystream(a, i as nat), message[i]);
    }
    assert(decrypted(b, c) =~= message);
}

/// The sum of the outputs of the blocks of a round can be taken in two
/// parts, cut after any block: the outputs of the blocks before the cut, and
/// those of the blocks after it taken as a round of their own. So the order in
/// which the blocks of a round are evaluated and their outputs gathered does
/// not change the output of the filter.
pub proof fn law_blocks_sum_splits(round: Seq<int>, first: nat, rest: nat)
    requires
        5 * (first + rest) <= round.len(),
    ensures
        blocks_sum(round, first + rest) == blocks_sum(round, first) + blocks_sum(
            round.skip(5 * first as int),
            rest,
        ),
    decreases rest,
{
    if rest > 0 {
        law_blocks_sum_splits(round, first, (rest - 1) as nat);
        let k = (first + rest - 1) as int;
        assert(block_of(round, k) =~= block_of(round.skip(5 * first as int), rest - 1));
    }
}

/// The output of the filter on a round of one block is the output of the block.
pub proof fn law_single_block(block: Seq<int>)
    requires
        block.len() == 5,
    ensures
        round_output(block) == block_output(block),
{
    reveal(block_output);
    assert(block_of(block, 0) =~= block);
    assert(blocks_sum(block, 1) == blocks_sum(block, 0) + block_output(block_of(block, 0)));
    assert(blocks_sum(block, 0) == 0);
}

} // verus!
