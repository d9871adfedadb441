use vstd::prelude::*;
use crate::error::CipherError;
use crate::nibble::{u4, Nibble, Domain, ring_add, values_of, all_in_domain, in_domain};
use vstd::slice::slice_subrange;
use rayon::iter::ParallelIterator;
use rayon::slice::ParallelSlice;

verus! {

/// Number of nibbles that one block of a round holds.
pub const BLOCK_WIDTH: usize = 5;

/// Number of lookup tables of the filter.
pub const SBOX_COUNT: usize = 8;

/// The eight lookup tables of the cipher; table `k` has sixteen entries, and
/// every table is negacyclic: entry `i + 8` is the additive inverse of entry `i`.
#[verifier::opaque]
pub open spec fn sbox_table(k: int) -> Seq<int> {
    if k == 0 {
        seq![0x3, 0x2, 0x6, 0xC, 0xA, 0x0, 0x1, 0xB, 0xD, 0xE, 0xA, 0x4, 0x6, 0x0, 0xF, 0x5]
    } else if k == 1 {
        seq![0x4, 0xB, 0x4, 0x4, 0x4, 0xF, 0x9, 0xC, 0xC, 0x5, 0xC, 0xC, 0xC, 0x1, 0x7, 0x4]
    } else if k == 2 {
        seq![0xB, 0xA, 0xC, 0x2, 0x2, 0xB, 0xD, 0xE, 0x5, 0x6, 0x4, 0xE, 0xE, 0x5, 0x3, 0x2]
    } else if k == 3 {
        seq![0x5, 0x9, 0xD, 0x2, 0xB, 0xA, 0xC, 0x5, 0xB, 0x7, 0x3, 0xE, 0x5, 0x6, 0x4, 0xB]
    } else if k == 4 {
        seq![0x3, 0x0, 0xB, 0x8, 0xD, 0xE, 0xD, 0xB, 0xD, 0x0, 0x5, 0x8, 0x3, 0x2, 0x3, 0x5]
    } else if k == 5 {
        seq![0x8, 0xD, 0xC, 0xC, 0x3, 0xF, 0xC, 0x7, 0x8, 0x3, 0x4, 0x4, 0xD, 0x1, 0x4, 0x9]
    } else if k == 6 {
        seq![0x4, 0x2, 0x9, 0xD, 0xA, 0xC, 0xA, 0x7, 0xC, 0xE, 0x7, 0x3, 0x6, 0x4, 0x6, 0x9]
    } else {
        seq![0xA, 0x2, 0x5, 0x5, 0x3, 0xD, 0xF, 0x1, 0x6, 0xE, 0xB, 0xB, 0xD, 0x3, 0x1, 0xF]
    }
}

/// Output of lookup `i` of the first layer of a block: the sum of entry `i`
/// and its successor among the first four entries, looked up in table `i`.
pub open spec fn first_layer(b: Seq<int>, i: int) -> int {
    sbox_table(i)[ring_add(b[i], b[(i + 1) % 4])]
}

/// Output of lookup `i` of the second layer of a block: entry `i` plus the
/// sum of the two first-layer outputs that follow it, looked up in table `4 + i`.
pub open spec fn second_layer(b: Seq<int>, i: int) -> int {
    sbox_table(4 + i)[ring_add(
        b[i],
        ring_add(first_layer(b, (i + 1) % 4), first_layer(b, (i + 2) % 4)),
    )]
}

/// Output of a block of five ring elements: the four outputs of the second
/// layer and the fifth entry, summed in the ring.
#[verifier::opaque]
pub open spec fn block_output(b: Seq<int>) -> int {
    (second_layer(b, 0) + second_layer(b, 1) + second_layer(b, 2) + second_layer(b, 3) + b[4])
        % 16
}

/// Block `k` of a round: its entries `5 k` to `5 k + 4`.
pub open spec fn block_of(round: Seq<int>, k: int) -> Seq<int> {
    round.subrange(5 * k, 5 * k + 5)
}

/// Sum, as an integer, of the outputs of the first `count` blocks of a round.
pub open spec fn blocks_sum(round: Seq<int>, count: nat) -> int
    decreases count,
{
    if count == 0 {
        0
    } else {
        blocks_sum(round, (count - 1) as nat) + block_output(block_of(round, count - 1))
    }
}

/// Output of the filter on a round whose length is a multiple of five: the
/// sum in the ring of the outputs of its blocks.
pub open spec fn round_output(round: Seq<int>) -> int {
    blocks_sum(round, round.len() / 5) % 16
}

/// The domain that the filter gives its output in, for a round in the domain
/// of the key: with two conversion keys that of the lookups, with a single
/// key that of the key.
pub open spec fn output_domain(mode: KeyswitchMode) -> Domain {
    match mode {
        KeyswitchMode::OneKey => Domain::Key,
        KeyswitchMode::TwoKeys => Domain::Lookup,
    }
}

/// Whether the filter takes a round of this length: a positive multiple of five.
pub open spec fn valid_round_len(len: int) -> bool {
    len > 0 && len % 5 == 0
}

/// Where the filter converts the parameter domain of encrypted nibbles.
#[derive(Clone, Copy, Debug, PartialEq, Eq, Structural)]
pub enum KeyswitchMode {
    /// A single conversion key: the sum of the second layer is converted,
    /// last of all, before the carry of the block is added.
    OneKey,
    /// Two conversion keys: the carry of the block is converted first of all.
    TwoKeys,
}

/// How the filter goes through the blocks of a round.
#[derive(Clone, Copy, Debug, PartialEq, Eq, Structural)]
pub enum Concurrency {
    /// One block after the other.
    Sequential,
    /// The blocks are handed out to worker threads and their outputs gathered.
    Parallel,
}

/// The nonlinear network that turns one round of key material into one nibble
/// of keystream.
pub struct Filter {
    sbox: Vec<[u4; 16]>,
    block_width: usize,
    mode: KeyswitchMode,
    concurrency: Concurrency,
}

impl Filter {
    /// The tables and the block width are fixed once and for all.
    #[verifier::type_invariant]
    spec fn fixed(&self) -> bool {
        &&& self.block_width == BLOCK_WIDTH
        &&& self.sbox@.len() == SBOX_COUNT
        &&& forall|k: int, i: int|
            0 <= k < 8 && 0 <= i < 16 ==> (#[trigger] self.sbox@[k]@[i]).0 == sbox_table(k)[i]
    }

    /// The options that the filter was made with: where it converts
    /// parameter domains, and how it goes through the blocks of a round.
    pub closed spec fn options(&self) -> (KeyswitchMode, Concurrency) {
        (self.mode, self.concurrency)
    }

    /// Generate a new filter: two conversion keys, blocks evaluated in turn.
    pub fn new() -> (f: Self)
        ensures
            f.options() == (KeyswitchMode::TwoKeys, Concurrency::Sequential),
    {
        Self::with_options(KeyswitchMode::TwoKeys, Concurrency::Sequential)
    }

    /// The way in which the filter converts parameter domains.
    pub fn keyswitch_mode(&self) -> (mode: KeyswitchMode)
        ensures
            mode == self.options().0,
    {
        self.mode
    }

    /// The way in which the filter goes through the blocks of a round.
    pub fn concurrency(&self) -> (c: Concurrency)
        ensures
            c == self.options().1,
    {
        self.concurrency
    }

    /// Another filter with the same options.
    pub fn duplicate(&self) -> (f: Self)
        ensures
            f.options() == self.options(),
    {
        Self::with_options(self.keyswitch_mode(), self.concurrency())
    }

    /// Generate a new filter with the given options.
    pub fn with_options(mode: KeyswitchMode, concurrency: Concurrency) -> (f: Self)
        ensures
            f.options() == (mode, concurrency),
    {
        proof {
            reveal(sbox_table);
        }
        let f = Self {
            sbox: vec![
                [
                    u4(0x3),
                    u4(0x2),
                    u4(0x6),
                    u4(0xC),
                    u4(0xA),
                    u4(0x0),
                    u4(0x1),
                    u4(0xB),
                    u4(0xD),
                    u4(0xE),
                    u4(0xA),
                    u4(0x4),
                    u4(0x6),
                    u4(0x0),
                    u4(0xF),
                    u4(0x5),
                ],
                [
                    u4(0x4),
                    u4(0xB),
                    u4(0x4),
                    u4(0x4),
                    u4(0x4),
                    u4(0xF),
                    u4(0x9),
                    u4(0xC),
                    u4(0xC),
                    u4(0x5),
                    u4(0xC),
                    u4(0xC),
                    u4(0xC),
                    u4(0x1),
                    u4(0x7),
                    u4(0x4),
                ],
                [
                    u4(0xB),
                    u4(0xA),
                    u4(0xC),
                    u4(0x2),
                    u4(0x2),
                    u4(0xB),
                    u4(0xD),
                    u4(0xE),
                    u4(0x5),
                    u4(0x6),
                    u4(0x4),
                    u4(0xE),
                    u4(0xE),
                    u4(0x5),
                    u4(0x3),
                    u4(0x2),
                ],
                [
                    u4(0x5),
                    u4(0x9),
                    u4(0xD),
                    u4(0x2),
                    u4(0xB),
                    u4(0xA),
                    u4(0xC),
                    u4(0x5),
                    u4(0xB),
                    u4(0x7),
                    u4(0x3),
                    u4(0xE),
                    u4(0x5),
                    u4(0x6),
                    u4(0x4),
                    u4(0xB),
                ],
                [
                    u4(0x3),
                    u4(0x0),
                    u4(0xB),
                    u4(0x8),
                    u4(0xD),
                    u4(0xE),
                    u4(0xD),
                    u4(0xB),
                    u4(0xD),
                    u4(0x0),
                    u4(0x5),
                    u4(0x8),
                    u4(0x3),
                    u4(0x2),
                    u4(0x3),
                    u4(0x5),
                ],
                [
                    u4(0x8),
                    u4(0xD),
                    u4(0xC),
                    u4(0xC),
                    u4(0x3),
                    u4(0xF),
                    u4(0xC),
                    u4(0x7),
                    u4(0x8),
                    u4(0x3),
                    u4(0x4),
                    u4(0x4),
                    u4(0xD),
                    u4(0x1),
                    u4(0x4),
                    u4(0x9),
                ],
                [
                    u4(0x4),
                    u4(0x2),
                    u4(0x9),
                    u4(0xD),
                    u4(0xA),
                    u4(0xC),
                    u4(0xA),
                    u4(0x7),
                    u4(0xC),
                    u4(0xE),
                    u4(0x7),
                    u4(0x3),
                    u4(0x6),
                    u4(0x4),
                    u4(0x6),
                    u4(0x9),
                ],
                [
                    u4(0xA),
                    u4(0x2),
                    u4(0x5),
                    u4(0x5),
                    u4(0x3),
                    u4(0xD),
                    u4(0xF),
                    u4(0x1),
                    u4(0x6),
                    u4(0xE),
                    u4(0xB),
                    u4(0xB),
                    u4(0xD),
                    u4(0x3),
                    u4(0x1),
                    u4(0xF),
                ],
            ],
            block_width: 5,
            mode,
            concurrency,
        };
        f
    }

    /// Looks a nibble up in table `table` of the filter.
    fn lookup<T: Nibble>(&self, table: usize, input: &T, public_key: Option<&T::Public>) -> (r:
        Result<T, CipherError>)
        requires
            table < 8,
            input.well_formed(),
            in_domain(*input, Domain::Key),
        ensures
            r is Err <==> T::encrypted() && public_key is None,
            r matches Err(e) ==> e == CipherError::MissingPublicMaterial,
            r matches Ok(v) ==> v.well_formed() && in_domain(v, Domain::Lookup) && v.value()
                == sbox_table(table as int)[input.value() as int],
    {
        proof {
            use_type_invariant(self);
            input.value_in_ring();
            lemma_tables_hold_nibbles(table as int);
            assert(forall|i: int|
                0 <= i < 16 ==> (#[trigger] self.sbox@[table as int]@[i]).0 == sbox_table(
                    table as int,
                )[i]);
        }
        input.apply_sbox(self.sbox[table].as_slice(), public_key)
    }

    /// The four lookups of the first layer of a block.
    fn first_layer_outputs<T: Nibble>(&self, block: &[T], public_key: Option<&T::Public>) -> (r:
        Result<Vec<T>, CipherError>)
        requires
            block@.len() == 5,
            all_in_domain(block@, Domain::Key),
        ensures
            r is Err <==> T::encrypted() && public_key is None,
            r matches Err(e) ==> e == CipherError::MissingPublicMaterial,
            r matches Ok(t) ==> t@.len() == 4 && all_in_domain(t@, Domain::Lookup) && forall|j: int|
                0 <= j < 4 ==> (#[trigger] t@[j]).value() == first_layer(values_of(block@), j),
    {
        let ghost b = values_of(block@);
        let mut outputs: Vec<T> = Vec::new();
        let mut i: usize = 0;
        while i < 4
            invariant
                0 <= i <= 4,
                block@.len() == 5,
                all_in_domain(block@, Domain::Key),
                b == values_of(block@),
                outputs@.len() == i,
                i > 0 ==> (T::encrypted() ==> public_key is Some),
                forall|j: int|
                    0 <= j < i ==> (#[trigger] outputs@[j]).well_formed() && in_domain(
                        outputs@[j],
                        Domain::Lookup,
                    ) && outputs@[j].value() == first_layer(b, j),
            decreases 4 - i,
        {
            let sum = block[i].add(&block[(i + 1) % (BLOCK_WIDTH - 1)]);
            match self.lookup(i, &sum, public_key) {
                Ok(t) => {
                    outputs.push(t);
                },
                Err(e) => {
                    return Err(e);
                },
            }
            i += 1;
        }
        Ok(outputs)
    }

    /// The four lookups of the second layer of a block, summed.
    fn second_layer_output<T: Nibble>(
        &self,
        block: &[T],
        first_layer_output: &Vec<T>,
        public_key: Option<&T::Public>,
    ) -> (r: Result<T, CipherError>)
        requires
            block@.len() == 5,
            all_in_domain(block@, Domain::Key),
            first_layer_output@.len() == 4,
            all_in_domain(first_layer_output@, Domain::Lookup),
            forall|j: int|
                0 <= j < 4 ==> (#[trigger] first_layer_output@[j]).value() == first_layer(
                    values_of(block@),
                    j,
                ),
        ensures
            r is Err <==> T::encrypted() && public_key is None,
            r matches Err(e) ==> e == CipherError::MissingPublicMaterial,
            r matches Ok(v) ==> v.well_formed() && in_domain(v, Domain::Lookup) && v.value()
                == second_layer_sum(values_of(block@), 4) % 16,
    {
        let ghost b = values_of(block@);
        let mut total: Option<T> = None;
        let mut i: usize = 0;
        while i < 4
            invariant
                0 <= i <= 4,
                block@.len() == 5,
                all_in_domain(block@, Domain::Key),
                b == values_of(block@),
                first_layer_output@.len() == 4,
                all_in_domain(first_layer_output@, Domain::Lookup),
                forall|j: int|
                    0 <= j < 4 ==> (#[trigger] first_layer_output@[j]).value() == first_layer(b, j),
                i == 0 <==> total is None,
                i > 0 ==> (T::encrypted() ==> public_key is Some),
                total matches Some(acc) ==> acc.well_formed() && in_domain(acc, Domain::Lookup)
                    && acc.value() == second_layer_sum(b, i as int) % 16,
            decreases 4 - i,
        {
            let mut sboxes_sum = first_layer_output[(i + 1) % (BLOCK_WIDTH - 1)].add(
                &first_layer_output[(i + 2) % (BLOCK_WIDTH - 1)],
            );
            match sboxes_sum.keyswitch(self.keyswitch_mode(), public_key) {
                Ok(()) => {},
                Err(e) => {
                    return Err(e);
                },
            }
            let sum = block[i].add(&sboxes_sum);
            let output = match self.lookup(4 + i, &sum, public_key) {
                Ok(u) => u,
                Err(e) => {
                    return Err(e);
                },
            };
            proof {
                output.value_in_ring();
                assert(first_layer_output@[(i + 1) % 4].value() == first_layer(b, (i + 1) % 4));
                assert(first_layer_output@[(i + 2) % 4].value() == first_layer(b, (i + 2) % 4));
                assert(output.value() == second_layer(b, i as int));
                assert(second_layer_sum(b, i + 1) == second_layer_sum(b, i as int) + second_layer(
                    b,
                    i as int,
                ));
                assert(second_layer_sum(b, 0) == 0);
            }
            total = match total {
                None => Some(output),
                Some(acc) => Some(acc.add(&output)),
            };
            i += 1;
        }
        match total {
            Some(acc) => Ok(acc),
            None => Err(CipherError::MissingPublicMaterial),
        }
    }

    /// Evaluates one block of five nibbles.
    ///
    /// The result stands for [`block_output`] of what the block stands for. An
    /// encrypted representation needs the public material; a clear one never
    /// fails. The block has to live in the domain of the key; the result
    /// lives in [`output_domain`].
    pub fn filter_block<T: Nibble>(&self, block: &[T], public_key: Option<&T::Public>) -> (r:
        Result<T, CipherError>)
        requires
            block@.len() == 5,
            all_in_domain(block@, Domain::Key),
        ensures
            block_result(block@, self.options().0, public_key, r),
    {
        let mut last_block = block[BLOCK_WIDTH - 1].duplicate();
        if self.mode == KeyswitchMode::TwoKeys {
            match last_block.keyswitch(KeyswitchMode::TwoKeys, public_key) {
                Ok(()) => {},
                Err(e) => {
                    return Err(e);
                },
            }
        }
        let first_layer_output = match self.first_layer_outputs(block, public_key) {
            Ok(t) => t,
            Err(e) => {
                return Err(e);
            },
        };
        let mut second_layer_output = match self.second_layer_output(
            block,
            &first_layer_output,
            public_key,
        ) {
            Ok(u) => u,
            Err(e) => {
                return Err(e);
            },
        };
        if self.mode == KeyswitchMode::OneKey {
            match second_layer_output.keyswitch(KeyswitchMode::OneKey, public_key) {
                Ok(()) => {},
                Err(e) => {
                    return Err(e);
                },
            }
        }
        proof {
            lemma_block_output_is_sum(values_of(block@));
        }
        Ok(second_layer_output.add(&last_block))
    }

    /// Generates one nibble of keystream from a round of key material.
    ///
    /// A round whose length is zero or no multiple of five is refused. On any
    /// other round the result stands for [`round_output`] of what the round
    /// stands for, whether the blocks are evaluated in turn or handed out to
    /// worker threads. An encrypted representation needs the public material.
    pub fn call<T: Nibble>(&self, keyround: &[T], public_key: Option<&T::Public>) -> (r: Result<
        T,
        CipherError,
    >)
        requires
            all_in_domain(keyround@, Domain::Key),
        ensures
            round_result(keyround@, self.options().0, public_key, r),
    {
        proof {
            use_type_invariant(self);
        }
        let len = keyround.len();
        if len == 0 || len % BLOCK_WIDTH != 0 {
            return Err(CipherError::InvalidRoundSize);
        }
        let blocks: usize = len / BLOCK_WIDTH;
        let ghost round = values_of(keyround@);
        let gathered: Vec<Result<T, CipherError>> = if self.concurrency == Concurrency::Parallel {
            evaluate_blocks_in_parallel(self, keyround, public_key)
        } else {
            Vec::new()
        };
        let mut sum: Option<T> = None;
        let mut k: usize = 0;
        while k < blocks
            invariant
                0 <= k <= blocks,
                len == keyround@.len(),
                blocks * 5 == len,
                all_in_domain(keyround@, Domain::Key),
                round == values_of(keyround@),
                self.concurrency == Concurrency::Parallel ==> gathered@.len() == blocks,
                self.concurrency == Concurrency::Parallel ==> forall|j: int|
                    0 <= j < blocks ==> block_result(
                        keyround@.subrange(5 * j, 5 * j + 5),
                        self.options().0,
                        public_key,
                        #[trigger] gathered@[j],
                    ),
                k > 0 ==> (T::encrypted() ==> public_key is Some),
                partial_sum(round, self.options().0, k as nat, sum),
            decreases blocks - k,
        {
            proof {
                lemma_block_values(keyround@, k as int);
            }
            let next = if self.concurrency == Concurrency::Parallel {
                accumulate(sum, &gathered[k], Ghost(round), Ghost(self.options().0), Ghost(k as nat))
            } else {
                let block = slice_subrange(keyround, BLOCK_WIDTH * k, BLOCK_WIDTH * k + BLOCK_WIDTH);
                let output = self.filter_block(block, public_key);
                accumulate(sum, &output, Ghost(round), Ghost(self.options().0), Ghost(k as nat))
            };
            match next {
                Ok(acc) => {
                    sum = Some(acc);
                },
                Err(e) => {
                    return Err(e);
                },
            }
            k += 1;
        }
        match sum {
            Some(acc) => Ok(acc),
            None => Err(CipherError::InvalidRoundSize),
        }
    }
}

/// Whether `sum` is the sum of the outputs of the first `k` blocks of a
/// round: nothing before the first block, a nibble that stands for the sum
/// after it.
spec fn partial_sum<T: Nibble>(
    round: Seq<int>,
    mode: KeyswitchMode,
    k: nat,
    sum: Option<T>,
) -> bool {
    match sum {
        None => k == 0,
        Some(acc) => k > 0 && acc.well_formed() && in_domain(acc, output_domain(mode))
            && acc.value() == blocks_sum(round, k) % 16,
    }
}

/// Adds the output of block `k` to the sum of the outputs before it; the
/// first output starts the sum, and a block that failed fails the sum.
fn accumulate<T: Nibble>(
    sum: Option<T>,
    output: &Result<T, CipherError>,
    Ghost(round): Ghost<Seq<int>>,
    Ghost(mode): Ghost<KeyswitchMode>,
    Ghost(k): Ghost<nat>,
) -> (r: Result<T, CipherError>)
    requires
        partial_sum(round, mode, k, sum),
        output matches Ok(v) ==> v.well_formed() && in_domain(*v, output_domain(mode))
            && v.value() == block_output(block_of(round, k as int)),
    ensures
        output matches Err(e) ==> r == Err::<T, CipherError>(*e),
        output is Ok ==> r is Ok,
        r matches Ok(w) ==> partial_sum(round, mode, k + 1, Some(w)),
{
    match output {
        Ok(v) => {
            proof {
                assert(blocks_sum(round, k + 1) == blocks_sum(round, k) + block_output(
                    block_of(round, k as int),
                ));
                assert(blocks_sum(round, 0) == 0);
                v.value_in_ring();
                lemma_sum_mod(blocks_sum(round, k), v.value() as int);
            }
            match sum {
                Some(acc) => Ok(acc.add(v)),
                None => Ok(v.duplicate()),
            }
        },
        Err(e) => Err(*e),
    }
}

/// The values of block `k` of a round of nibbles are block `k` of the values
/// of the round.
proof fn lemma_block_values<T: Nibble>(round: Seq<T>, k: int)
    requires
        0 <= k,
        5 * k + 5 <= round.len(),
        all_in_domain(round, Domain::Key),
    ensures
        values_of(round.subrange(5 * k, 5 * k + 5)) == block_of(values_of(round), k),
        all_in_domain(round.subrange(5 * k, 5 * k + 5), Domain::Key),
        0 <= block_output(block_of(values_of(round), k)) < 16,
{
    reveal(block_output);
    assert(values_of(round.subrange(5 * k, 5 * k + 5)) =~= block_of(values_of(round), k));
}

/// What [`Filter::call`] promises of its result `r` on a round.
pub open spec fn round_result<T: Nibble>(
    round: Seq<T>,
    mode: KeyswitchMode,
    public_key: Option<&T::Public>,
    r: Result<T, CipherError>,
) -> bool {
    if valid_round_len(round.len() as int) {
        &&& r is Err <==> T::encrypted() && public_key is None
        &&& r matches Err(e) ==> e == CipherError::MissingPublicMaterial
        &&& r matches Ok(v) ==> v.well_formed() && in_domain(v, output_domain(mode)) && v.value()
            == round_output(values_of(round))
    } else {
        r == Err::<T, CipherError>(CipherError::InvalidRoundSize)
    }
}

/// What [`Filter::filter_block`] promises of its result `r` on a block.
pub open spec fn block_result<T: Nibble>(
    block: Seq<T>,
    mode: KeyswitchMode,
    public_key: Option<&T::Public>,
    r: Result<T, CipherError>,
) -> bool {
    &&& r is Err <==> T::encrypted() && public_key is None
    &&& r matches Err(e) ==> e == CipherError::MissingPublicMaterial
    &&& r matches Ok(v) ==> v.well_formed() && in_domain(v, output_domain(mode)) && v.value()
        == block_output(values_of(block))
}

/// Hands the blocks of a round out to the worker threads of rayon and
/// gathers their outputs: `par_chunks` cuts the round into its blocks, `map`
/// evaluates each with [`Filter::filter_block`], and `collect` returns the
/// outputs in the order of the blocks. Each output is one that
/// `filter_block` returned for its block.
#[verifier::external_body]
fn evaluate_blocks_in_parallel<T: Nibble>(
    filter: &Filter,
    keyround: &[T],
    public_key: Option<&T::Public>,
) -> (outputs: Vec<Result<T, CipherError>>)
    requires
        keyround@.len() % 5 == 0,
        all_in_domain(keyround@, Domain::Key),
    ensures
        outputs@.len() == keyround@.len() / 5,
        forall|k: int|
            0 <= k < outputs@.len() ==> block_result(
                keyround@.subrange(5 * k, 5 * k + 5),
                filter.options().0,
                public_key,
                #[trigger] outputs@[k],
            ),
{
    keyround.par_chunks(BLOCK_WIDTH).map(|block| filter.filter_block(block, public_key)).collect()
}

/// Sum, as an integer, of the first `count` outputs of the second layer.
pub open spec fn second_layer_sum(b: Seq<int>, count: int) -> int
    decreases count,
{
    if count <= 0 {
        0
    } else {
        second_layer_sum(b, count - 1) + second_layer(b, count - 1)
    }
}

/// The output of a block is the sum of the second layer plus the carry.
proof fn lemma_block_output_is_sum(b: Seq<int>)
    ensures
        block_output(b) == ring_add(second_layer_sum(b, 4) % 16, b[4]),
{
    let u0 = second_layer(b, 0);
    let u1 = second_layer(b, 1);
    let u2 = second_layer(b, 2);
    let u3 = second_layer(b, 3);
    assert(second_layer_sum(b, 0) == 0);
    assert(second_layer_sum(b, 1) == second_layer_sum(b, 0) + u0);
    assert(second_layer_sum(b, 2) == second_layer_sum(b, 1) + u1);
    assert(second_layer_sum(b, 3) == second_layer_sum(b, 2) + u2);
    assert(second_layer_sum(b, 4) == second_layer_sum(b, 3) + u3);
    let total = u0 + u1 + u2 + u3;
    assert(block_output(b) == (total + b[4]) % 16) by {
        reveal(block_output);
    }
    lemma_sum_mod(total, b[4]);
}

/// Reducing a term of a sum first does not change the sum in the ring.
proof fn lemma_sum_mod(x: int, y: int)
    ensures
        ((x % 16) + y) % 16 == (x + y) % 16,
{
}

/// Every entry of every table is an element of the ring.
pub proof fn lemma_tables_hold_nibbles(k: int)
    requires
        0 <= k < 8,
    ensures
        sbox_table(k).len() == 16,
        forall|i: int| 0 <= i < 16 ==> 0 <= #[trigger] sbox_table(k)[i] < 16,
{
    reveal(sbox_table);
}

} // verus!
