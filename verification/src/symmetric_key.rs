use vstd::prelude::*;
use crate::nibble::{u4, Nibble, Domain, ring_add, values_of, all_in_domain, in_domain};
use crate::random::{Generator, draw_index, range_draw, stream_nibble, lemma_range_draw_bounds};

verus! {

/// Whether a sequence of indices holds each of `0 .. len` once.
pub open spec fn is_permutation(s: Seq<usize>) -> bool {
    &&& forall|i: int| 0 <= i < s.len() ==> #[trigger] s[i] < s.len()
    &&& forall|i: int, j: int| 0 <= i < j < s.len() ==> s[i] != s[j]
}

/// A sequence with the entries at `i` and `j` exchanged.
pub open spec fn swapped(s: Seq<usize>, i: int, j: int) -> Seq<usize> {
    s.update(i, s[j]).update(j, s[i])
}

/// The indices after the first `steps` steps of the shuffle of a round that
/// starts at byte `start` of the stream of `seed`: step `i` draws `j` in
/// `[i, len)` from the four bytes at `start + 4 i` and exchanges the entries
/// at `i` and `j`.
pub open spec fn shuffled(indices: Seq<usize>, seed: u128, start: nat, steps: nat) -> Seq<usize>
    decreases steps,
{
    if steps == 0 {
        indices
    } else {
        let i = (steps - 1) as nat;
        swapped(
            shuffled(indices, seed, start, i),
            i as int,
            range_draw(seed, start + 4 * i, i as int, indices.len() as int),
        )
    }
}

/// Entry `k` of the whitening of a round of `n` nibbles that starts at byte
/// `start` of the stream: the nibble of byte `k` after the `4 n` bytes of the
/// shuffle.
pub open spec fn whitening_at(seed: u128, start: nat, n: nat, k: int) -> int {
    stream_nibble(seed, (start + 4 * n + k) as nat)
}

/// The round of `n` ring elements that a sampler gives from a master key, the
/// indices left by the rounds before it, and the stream from byte `start` on:
/// entry `k` is the key element that the shuffled index `k` points at, plus
/// entry `k` of the whitening.
pub open spec fn round_values(
    key: Seq<int>,
    indices: Seq<usize>,
    seed: u128,
    start: nat,
    n: nat,
) -> Seq<int> {
    Seq::new(
        n,
        |k: int|
            ring_add(key[shuffled(indices, seed, start, n)[k] as int], whitening_at(seed, start, n, k)),
    )
}

/// Exchanging two entries of a permutation gives a permutation.
pub proof fn lemma_swapped_permutation(s: Seq<usize>, i: int, j: int)
    requires
        is_permutation(s),
        0 <= i < s.len(),
        0 <= j < s.len(),
    ensures
        is_permutation(swapped(s, i, j)),
        swapped(s, i, j).len() == s.len(),
{
    let t = swapped(s, i, j);
    assert forall|a: int, b: int| 0 <= a < b < t.len() implies t[a] != t[b] by {
        let sa = if a == i { j } else if a == j { i } else { a };
        let sb = if b == i { j } else if b == j { i } else { b };
        assert(t[a] == s[sa]);
        assert(t[b] == s[sb]);
        if sa < sb {
            assert(s[sa] != s[sb]);
        } else {
            assert(s[sb] != s[sa]);
        }
    }
}

/// The shuffle of a permutation is a permutation of the same length, after
/// any number of steps within that length.
pub proof fn lemma_shuffled_permutation(indices: Seq<usize>, seed: u128, start: nat, steps: nat)
    requires
        is_permutation(indices),
        steps <= indices.len() <= u32::MAX,
    ensures
        shuffled(indices, seed, start, steps).len() == indices.len(),
        is_permutation(shuffled(indices, seed, start, steps)),
    decreases steps,
{
    if steps > 0 {
        let i = (steps - 1) as nat;
        lemma_shuffled_permutation(indices, seed, start, i);
        lemma_range_draw_bounds(seed, start + 4 * i, i as int, indices.len() as int);
        lemma_swapped_permutation(
            shuffled(indices, seed, start, i),
            i as int,
            range_draw(seed, start + 4 * i, i as int, indices.len() as int),
        );
    }
}

/// The indices `0, 1, .., len - 1` in order.
pub open spec fn identity_indices(len: nat) -> Seq<usize> {
    Seq::new(len, |i: int| i as usize)
}

/// What the rounds of a sampler depend on: the ring elements of the master
/// key, the index buffer, the seed of the generator and the number of bytes
/// drawn from it, and the length of a round. It says nothing of how the
/// nibbles are represented.
pub struct SamplerState {
    pub key: Seq<int>,
    pub indices: Seq<usize>,
    pub seed: u128,
    pub position: nat,
    pub round_len: nat,
}

impl SamplerState {
    /// The state of a sampler that has drawn no round yet.
    pub open spec fn initial(key: Seq<int>, round_len: nat, seed: u128) -> SamplerState {
        SamplerState { key, indices: identity_indices(key.len()), seed, position: 0, round_len }
    }

    /// Whether the state is one that a sampler can be in: the indices are a
    /// permutation of the positions of the key, a round is no longer than the
    /// key, and the key holds ring elements.
    pub open spec fn valid(self) -> bool {
        &&& self.indices.len() == self.key.len()
        &&& self.round_len <= self.key.len() <= u32::MAX
        &&& is_permutation(self.indices)
        &&& forall|i: int| 0 <= i < self.key.len() ==> 0 <= #[trigger] self.key[i] < 16
    }

    /// The round that is drawn in this state.
    pub open spec fn round(self) -> Seq<int> {
        round_values(self.key, self.indices, self.seed, self.position, self.round_len)
    }

    /// The state after one round: the indices are shuffled, and the generator
    /// has given four bytes for each index and one for each whitening nibble.
    pub open spec fn next(self) -> SamplerState {
        SamplerState {
            indices: shuffled(self.indices, self.seed, self.position, self.round_len),
            position: self.position + 5 * self.round_len,
            ..self
        }
    }

    /// The state after a number of rounds.
    pub open spec fn after(self, rounds: nat) -> SamplerState
        decreases rounds,
    {
        if rounds == 0 {
            self
        } else {
            self.after((rounds - 1) as nat).next()
        }
    }
}

/// The keyed generator of rounds: a master key, and the state from which each
/// round is drawn.
pub struct SymmetricKey<M: Nibble> {
    key: Vec<M>,
    indices: Vec<usize>,
    key_round: Vec<M>,
    whitening: Vec<u4>,
    rng: Generator,
}

impl<M: Nibble> SymmetricKey<M> {
    /// What the coming rounds depend on.
    pub closed spec fn state(&self) -> SamplerState {
        SamplerState {
            key: values_of(self.key@),
            indices: self.indices@,
            seed: self.rng.seed(),
            position: self.rng.position(),
            round_len: self.whitening@.len(),
        }
    }

    /// The ring elements of the round buffer.
    pub closed spec fn round(&self) -> Seq<int> {
        values_of(self.key_round@)
    }

    /// The invariant of the sampler: the buffers have their lengths, the
    /// nibbles are sound, and the indices are a permutation.
    pub closed spec fn well_formed(&self) -> bool {
        &&& self.indices@.len() == self.key@.len()
        &&& self.key@.len() <= u32::MAX
        &&& self.whitening@.len() <= self.key@.len()
        &&& self.key_round@.len() == self.whitening@.len()
        &&& all_in_domain(self.key@, Domain::Key)
        &&& all_in_domain(self.key_round@, Domain::Key)
        &&& is_permutation(self.indices@)
    }

    /// The state of a sound sampler is a valid one.
    pub proof fn lemma_state_valid(&self)
        requires
            self.well_formed(),
        ensures
            self.state().valid(),
            self.round().len() == self.state().round_len,
    {
        assert forall|i: int| 0 <= i < self.state().key.len() implies 0
            <= #[trigger] self.state().key[i] < 16 by {
            self.key@[i].value_in_ring();
        }
    }

    /// A sampler of rounds of `n` nibbles over a master key, its generator
    /// keyed with `seed`. The indices start in order and the round buffer
    /// holds the first `n` nibbles of the key.
    pub fn new(key: Vec<M>, n: usize, seed: u128) -> (s: Self)
        requires
            n <= key@.len() <= u32::MAX,
            all_in_domain(key@, Domain::Key),
        ensures
            s.well_formed(),
            s.state() == SamplerState::initial(values_of(key@), n as nat, seed),
            s.round() == values_of(key@).take(n as int),
    {
        let key_len = key.len();
        let mut indices: Vec<usize> = Vec::with_capacity(key_len);
        let mut i: usize = 0;
        while i < key_len
            invariant
                i <= key_len,
                indices@.len() == i,
                forall|k: int| 0 <= k < i ==> indices@[k] == k,
            decreases key_len - i,
        {
            indices.push(i);
            i += 1;
        }
        let mut key_round: Vec<M> = Vec::with_capacity(n);
        let mut whitening: Vec<u4> = Vec::with_capacity(n);
        let mut k: usize = 0;
        while k < n
            invariant
                k <= n <= key@.len(),
                all_in_domain(key@, Domain::Key),
                key_round@.len() == k,
                whitening@.len() == k,
                forall|j: int|
                    0 <= j < k ==> (#[trigger] key_round@[j]).well_formed() && in_domain(
                        key_round@[j],
                        Domain::Key,
                    ) && key_round@[j].value() == key@[j].value(),
            decreases n - k,
        {
            key_round.push(key[k].duplicate());
            whitening.push(u4(0));
            k += 1;
        }
        let s = Self { key, indices, key_round, whitening, rng: Generator::new(seed) };
        assert(s.indices@ =~= identity_indices(key@.len()));
        assert(values_of(s.key_round@) =~= values_of(key@).take(n as int));
        s
    }

    /// The index buffer.
    pub fn indices(&self) -> (r: &Vec<usize>)
        ensures
            r@ == self.state().indices,
    {
        &self.indices
    }

    /// The round buffer: the round drawn last, or the start of the key if
    /// none was drawn yet.
    pub fn key_round(&self) -> (r: &Vec<M>)
        ensures
            values_of(r@) == self.round(),
    {
        &self.key_round
    }

    /// Draws the next round: shuffles the first entries of the index buffer,
    /// draws a fresh whitening, and fills the round buffer with the key
    /// elements that the indices point at, each plus its whitening. The
    /// indices are never put back in order, and stay a permutation.
    pub fn random_whitened_subset(&mut self) -> (r: &Vec<M>)
        requires
            old(self).well_formed(),
        ensures
            final(self).well_formed(),
            final(self).state() == old(self).state().next(),
            is_permutation(final(self).state().indices),
            final(self).round() == old(self).state().round(),
            r@.len() == old(self).state().round_len,
            all_in_domain(r@, Domain::Key),
            values_of(r@) == old(self).state().round(),
    {
        let n = self.whitening.len();
        let key_len = self.key.len();
        let ghost seed = self.rng.seed();
        let ghost start = self.rng.position();
        let ghost before = self.indices@;
        let ghost key = values_of(self.key@);

        let mut i: usize = 0;
        while i < n
            invariant
                i <= n <= key_len <= u32::MAX,
                n == self.whitening@.len(),
                key_len == self.key@.len(),
                self.indices@.len() == key_len,
                before.len() == key_len,
                is_permutation(before),
                self.key == old(self).key,
                self.key_round == old(self).key_round,
                self.rng.seed() == seed,
                self.rng.position() == start + 4 * i,
                self.indices@ == shuffled(before, seed, start, i as nat),
                is_permutation(self.indices@),
            decreases n - i,
        {
            let j = draw_index(&mut self.rng, i, key_len);
            let a = self.indices[i];
            let b = self.indices[j];
            proof {
                lemma_swapped_permutation(self.indices@, i as int, j as int);
            }
            self.indices[i] = b;
            self.indices[j] = a;
            i += 1;
        }

        let mut k: usize = 0;
        while k < n
            invariant
                k <= n,
                n == self.whitening@.len(),
                self.key == old(self).key,
                self.key_round == old(self).key_round,
                self.indices@ == shuffled(before, seed, start, n as nat),
                self.rng.seed() == seed,
                self.rng.position() == start + 4 * n + k,
                forall|j: int|
                    0 <= j < k ==> (#[trigger] self.whitening@[j]).0 == whitening_at(
                        seed,
                        start,
                        n as nat,
                        j,
                    ),
            decreases n - k,
        {
            let w = self.rng.random_nibble();
            self.whitening[k] = w;
            k += 1;
        }

        let mut k: usize = 0;
        while k < n
            invariant
                k <= n <= key_len,
                n == self.whitening@.len(),
                n == self.key_round@.len(),
                key_len == self.key@.len(),
                self.indices@.len() == key_len,
                is_permutation(self.indices@),
                all_in_domain(self.key@, Domain::Key),
                key == values_of(self.key@),
                self.key == old(self).key,
                self.indices@ == shuffled(before, seed, start, n as nat),
                self.rng.seed() == seed,
                self.rng.position() == start + 5 * n,
                forall|j: int|
                    0 <= j < n ==> (#[trigger] self.whitening@[j]).0 == whitening_at(
                        seed,
                        start,
                        n as nat,
                        j,
                    ),
                forall|j: int|
                    0 <= j < n ==> (#[trigger] self.key_round@[j]).well_formed() && in_domain(
                        self.key_round@[j],
                        Domain::Key,
                    ),
                forall|j: int|
                    0 <= j < k ==> (#[trigger] self.key_round@[j]).value() == ring_add(
                        key[self.indices@[j] as int],
                        whitening_at(seed, start, n as nat, j),
                    ),
            decreases n - k,
        {
            let idx = self.indices[k];
            let mut key_bit = self.key[idx].duplicate();
            assert(self.whitening@[k as int].0 == whitening_at(seed, start, n as nat, k as int));
            key_bit.add_assign_u4(&self.whitening[k]);
            self.key_round[k] = key_bit;
            k += 1;
        }
        assert(values_of(self.key_round@) =~= round_values(key, before, seed, start, n as nat));
        &self.key_round
    }
}

} // verus!
