use vstd::prelude::*;
use crate::error::CipherError;
use crate::filter::{
    Filter, KeyswitchMode, Concurrency, round_output, valid_round_len, output_domain,
};
use crate::nibble::{
    u4, Nibble, Domain, ring_add, ring_neg, values_of, all_in_domain, in_domain, all_nibbles,
    raw_values,
};
use crate::parameters::{Parameters, SystemParameters};
use crate::random::{Generator, stream_nibble, stream_number};
use crate::symmetric_key::{SymmetricKey, SamplerState, identity_indices};

verus! {

/// Nibble `i` of the keystream of a sampler in state `s`: the output of the
/// filter on the round drawn after `i` rounds.
pub open spec fn keystream(s: SamplerState, i: nat) -> int {
    round_output(s.after(i).round())
}

/// The ring elements that a message encrypts to under the keystream of `s`:
/// each nibble plus its nibble of keystream.
pub open spec fn encrypted(s: SamplerState, message: Seq<int>) -> Seq<int> {
    Seq::new(message.len(), |i: int| ring_add(keystream(s, i as nat), message[i]))
}

/// The ring elements that a ciphertext decrypts to under the keystream of
/// `s`: each nibble plus the additive inverse of its nibble of keystream.
pub open spec fn decrypted(s: SamplerState, ciphertext: Seq<int>) -> Seq<int> {
    Seq::new(ciphertext.len(), |i: int| ring_add(ring_neg(keystream(s, i as nat)), ciphertext[i]))
}

/// The nibbles that a generator gives from byte `start` on, one per byte.
pub open spec fn stream_nibbles(seed: u128, start: nat, len: nat) -> Seq<int> {
    Seq::new(len, |i: int| stream_nibble(seed, (start + i) as nat))
}

/// The struct used to encrypt, decrypt and transcrypt nibbles.
pub struct Encrypter<T: Nibble> {
    symmetric_key: SymmetricKey<T>,
    filter: Filter,
    public_key: Option<T::Public>,
}

impl<T: Nibble> Encrypter<T> {
    /// What the coming keystream depends on.
    pub closed spec fn state(&self) -> SamplerState {
        self.symmetric_key.state()
    }

    /// Whether the encrypter holds public material.
    pub closed spec fn has_public_key(&self) -> bool {
        self.public_key is Some
    }

    /// The invariant of the encrypter: its sampler is sound and draws rounds
    /// that the filter takes.
    pub closed spec fn well_formed(&self) -> bool {
        &&& self.symmetric_key.well_formed()
        &&& valid_round_len(self.symmetric_key.state().round_len as int)
    }

    /// How the filter of the encrypter converts parameter domains and goes
    /// through the blocks of a round.
    pub closed spec fn filter_options(&self) -> (KeyswitchMode, Concurrency) {
        self.filter.options()
    }

    /// Whether the keystream can be computed: an encrypted representation
    /// needs the public material.
    pub open spec fn can_stream(&self) -> bool {
        T::encrypted() ==> self.has_public_key()
    }

    /// The state of a sound encrypter is a valid one.
    pub proof fn lemma_state_valid(&self)
        requires
            self.well_formed(),
        ensures
            self.state().valid(),
            valid_round_len(self.state().round_len as int),
    {
        self.symmetric_key.lemma_state_valid();
    }

    /// Builds the two encrypters of a pair from the two encodings of one
    /// master key and from their shared seed.
    ///
    /// Parameters whose round the filter does not take, or whose round is
    /// longer than the key, are refused, and so is a key that has not the
    /// length that the parameters ask for. Both encrypters start at the
    /// beginning of the stream of `seed`, with their indices in order, and
    /// filter as the filter of the parameters does.
    pub fn from_keys<U: Nibble>(
        params: Parameters,
        key1: Vec<T>,
        key2: Vec<U>,
        seed: u128,
        public_key: Option<T::Public>,
        public_key2: Option<U::Public>,
    ) -> (r: Result<(Self, Encrypter<U>), CipherError>)
        requires
            params.key_size <= u32::MAX,
            all_in_domain(key1@, Domain::Key),
            all_in_domain(key2@, Domain::Key),
        ensures
            r is Ok <==> params.usable() && key1@.len() == params.key_size && key2@.len()
                == params.key_size,
            r matches Err(e) ==> e == (if !valid_round_len(params.n as int) {
                CipherError::InvalidRoundSize
            } else if params.n > params.key_size {
                CipherError::RandomRangeInvariantViolation
            } else {
                CipherError::KeyStoreCorrupt
            }),
            r matches Ok(pair) ==> {
                &&& pair.0.well_formed()
                &&& pair.1.well_formed()
                &&& pair.0.state() == SamplerState::initial(values_of(key1@), params.n as nat, seed)
                &&& pair.1.state() == SamplerState::initial(values_of(key2@), params.n as nat, seed)
                &&& pair.0.has_public_key() == (public_key is Some)
                &&& pair.1.has_public_key() == (public_key2 is Some)
                &&& pair.0.filter_options() == params.filter.options()
                &&& pair.1.filter_options() == params.filter.options()
            },
    {
        match params.check() {
            Ok(()) => {},
            Err(e) => {
                return Err(e);
            },
        }
        if key1.len() != params.key_size || key2.len() != params.key_size {
            return Err(CipherError::KeyStoreCorrupt);
        }
        let filter2 = params.filter.duplicate();
        Ok(
            (
                Self {
                    symmetric_key: SymmetricKey::new(key1, params.n, seed),
                    filter: params.filter,
                    public_key,
                },
                Encrypter::<U> {
                    symmetric_key: SymmetricKey::new(key2, params.n, seed),
                    filter: filter2,
                    public_key: public_key2,
                },
            ),
        )
    }

    /// Draws a master key of `len` nibbles from the generator and encodes it
    /// twice, once in each representation: nibble `i` of either key stands for
    /// the nibble of byte `i` that the generator gives.
    ///
    /// An encrypted representation needs its secret material; without it the
    /// first nibble already fails.
    pub fn key_gen<U: Nibble>(
        len: usize,
        secret_key: Option<&T::Secret>,
        secret_key2: Option<&U::Secret>,
        rng: &mut Generator,
    ) -> (r: Result<(Vec<T>, Vec<U>), CipherError>)
        ensures
            final(rng).seed() == old(rng).seed(),
            r is Ok <==> len == 0 || ((T::encrypted() ==> secret_key is Some) && (U::encrypted()
                ==> secret_key2 is Some)),
            r matches Err(e) ==> e == CipherError::MissingSecretMaterial,
            r matches Ok(keys) ==> {
                &&& final(rng).position() == old(rng).position() + len
                &&& keys.0@.len() == len
                &&& keys.1@.len() == len
                &&& all_in_domain(keys.0@, Domain::Key)
                &&& all_in_domain(keys.1@, Domain::Key)
                &&& values_of(keys.0@) == stream_nibbles(old(rng).seed(), old(rng).position(), len as nat)
                &&& values_of(keys.1@) == values_of(keys.0@)
            },
    {
        let ghost seed = rng.seed();
        let ghost start = rng.position();
        let mut key1: Vec<T> = Vec::with_capacity(len);
        let mut key2: Vec<U> = Vec::with_capacity(len);
        let mut i: usize = 0;
        while i < len
            invariant
                i <= len,
                seed == old(rng).seed(),
                start == old(rng).position(),
                rng.seed() == seed,
                rng.position() == start + i,
                key1@.len() == i,
                key2@.len() == i,
                i > 0 ==> (T::encrypted() ==> secret_key is Some) && (U::encrypted()
                    ==> secret_key2 is Some),
                forall|j: int|
                    0 <= j < i ==> (#[trigger] key1@[j]).well_formed() && in_domain(
                        key1@[j],
                        Domain::Key,
                    ) && key1@[j].value()
                        == stream_nibble(seed, (start + j) as nat),
                forall|j: int|
                    0 <= j < i ==> (#[trigger] key2@[j]).well_formed() && in_domain(
                        key2@[j],
                        Domain::Key,
                    ) && key2@[j].value()
                        == stream_nibble(seed, (start + j) as nat),
            decreases len - i,
        {
            let u = rng.random_nibble();
            let k1 = match T::from_u4(u, secret_key) {
                Ok(k) => k,
                Err(e) => {
                    return Err(e);
                },
            };
            let k2 = match U::from_u4(u, secret_key2) {
                Ok(k) => k,
                Err(e) => {
                    return Err(e);
                },
            };
            key1.push(k1);
            key2.push(k2);
            i += 1;
        }
        assert(values_of(key1@) =~= stream_nibbles(seed, start, len as nat));
        assert(values_of(key2@) =~= values_of(key1@));
        Ok((key1, key2))
    }

    /// Generates two new encrypters for the given parameters, as
    /// [`Encrypter::new`] does for a preset.
    ///
    /// Parameters whose round the filter does not take, or whose round is
    /// longer than the key, are refused before anything is drawn. An encrypted
    /// representation needs its secret material, unless the key is empty.
    pub fn with_parameters<U: Nibble>(
        params: Parameters,
        secret_key: Option<&T::Secret>,
        secret_key2: Option<&U::Secret>,
        public_key: Option<T::Public>,
        public_key2: Option<U::Public>,
    ) -> (r: Result<(Self, Encrypter<U>), CipherError>)
        requires
            params.key_size <= u32::MAX,
        ensures
            r is Ok <==> params.usable() && (T::encrypted() ==> secret_key is Some) && (
            U::encrypted() ==> secret_key2 is Some),
            r matches Err(e) ==> e == (if !valid_round_len(params.n as int) {
                CipherError::InvalidRoundSize
            } else if params.n > params.key_size {
                CipherError::RandomRangeInvariantViolation
            } else {
                CipherError::MissingSecretMaterial
            }),
            r matches Ok(pair) ==> {
                &&& pair.0.well_formed()
                &&& pair.1.well_formed()
                &&& pair.0.state() == pair.1.state()
                &&& pair.0.state().key.len() == params.key_size
                &&& pair.0.state().round_len == params.n
                &&& pair.0.state().position == 0
                &&& pair.0.state().indices == identity_indices(params.key_size as nat)
                &&& exists|k: u128|
                    pair.0.state().seed == #[trigger] stream_number(k, 0, 16) && pair.0.state().key
                        == stream_nibbles(k, 16, params.key_size as nat)
                &&& pair.0.has_public_key() == (public_key is Some)
                &&& pair.1.has_public_key() == (public_key2 is Some)
                &&& pair.0.filter_options() == params.filter.options()
                &&& pair.1.filter_options() == params.filter.options()
            },
    {
        match params.check() {
            Ok(()) => {},
            Err(e) => {
                return Err(e);
            },
        }
        let mut rng = Generator::fresh();
        let ghost k = rng.seed();
        let seed = rng.random_seed();
        let (key1, key2) = match Self::key_gen::<U>(
            params.key_size,
            secret_key,
            secret_key2,
            &mut rng,
        ) {
            Ok(keys) => keys,
            Err(e) => {
                return Err(e);
            },
        };
        let r = Self::from_keys::<U>(params, key1, key2, seed, public_key, public_key2);
        proof {
            if r is Ok {
                assert(r->Ok_0.0.state().seed == stream_number(k, 0, 16));
                assert(r->Ok_0.0.state().key == stream_nibbles(k, 16, params.key_size as nat));
            }
        }
        r
    }

    /// Generates two new encrypters, using possibly two different kinds of
    /// nibbles `T` and `U`. One can be used to encrypt nibbles `T` and the
    /// other to transcrypt toward `U`.
    ///
    /// The seed and the master key are drawn from a generator that the machine
    /// seeds: the seed is the number of its first sixteen bytes and the key
    /// the nibbles of the 256 bytes after them. The two encrypters share both,
    /// and so give the same keystream.
    pub fn new<U: Nibble>(
        params: &SystemParameters,
        secret_key: Option<&T::Secret>,
        secret_key2: Option<&U::Secret>,
        public_key: Option<T::Public>,
        public_key2: Option<U::Public>,
    ) -> (r: Result<(Self, Encrypter<U>), CipherError>)
        ensures
            r is Ok <==> (T::encrypted() ==> secret_key is Some) && (U::encrypted()
                ==> secret_key2 is Some),
            r matches Err(e) ==> e == CipherError::MissingSecretMaterial,
            r matches Ok(pair) ==> {
                &&& pair.0.well_formed()
                &&& pair.1.well_formed()
                &&& pair.0.state() == pair.1.state()
                &&& pair.0.state().key.len() == 256
                &&& pair.0.state().round_len == 60
                &&& pair.0.state().position == 0
                &&& pair.0.state().indices == identity_indices(256)
                &&& exists|k: u128|
                    pair.0.state().seed == #[trigger] stream_number(k, 0, 16) && pair.0.state().key
                        == stream_nibbles(k, 16, 256)
                &&& pair.0.has_public_key() == (public_key is Some)
                &&& pair.1.has_public_key() == (public_key2 is Some)
                &&& pair.0.filter_options() == (KeyswitchMode::TwoKeys, Concurrency::Sequential)
                &&& pair.1.filter_options() == (KeyswitchMode::TwoKeys, Concurrency::Sequential)
            },
    {
        Self::with_parameters::<U>(
            params.parameters(),
            secret_key,
            secret_key2,
            public_key,
            public_key2,
        )
    }

    /// Generates the next nibble of keystream. The sampler draws its round
    /// even where the filter then fails for want of public material.
    pub fn stream(&mut self) -> (r: Result<T, CipherError>)
        requires
            old(self).well_formed(),
        ensures
            final(self).well_formed(),
            final(self).state() == old(self).state().next(),
            final(self).has_public_key() == old(self).has_public_key(),
            final(self).filter_options() == old(self).filter_options(),
            r is Ok <==> old(self).can_stream(),
            r matches Err(e) ==> e == CipherError::MissingPublicMaterial,
            r matches Ok(v) ==> v.well_formed() && in_domain(
                v,
                output_domain(old(self).filter_options().0),
            ) && v.value() == keystream(old(self).state(), 0),
    {
        let key_round = self.symmetric_key.random_whitened_subset();
        self.filter.call(key_round.as_slice(), self.public_key.as_ref())
    }

    /// Encrypts the given vector of plaintexts: nibble `i` of `res` becomes
    /// nibble `i` of the keystream plus nibble `i` of the message.
    ///
    /// Buffers of different lengths are refused and nothing is touched. An
    /// encrypted representation without public material fails at the first
    /// nibble.
    pub fn encrypt(&mut self, res: &mut [T], message: &[u4]) -> (r: Result<(), CipherError>)
        requires
            old(self).well_formed(),
            all_nibbles(message@),
        ensures
            final(self).well_formed(),
            final(self).has_public_key() == old(self).has_public_key(),
            final(self).filter_options() == old(self).filter_options(),
            final(res)@.len() == old(res)@.len(),
            old(res)@.len() != message@.len() ==> r == Err::<(), CipherError>(
                CipherError::LengthMismatch,
            ) && final(self).state() == old(self).state() && final(res)@ == old(res)@,
            old(res)@.len() == message@.len() ==> (r is Ok <==> old(self).can_stream()
                || message@.len() == 0),
            r matches Err(e) ==> e == CipherError::LengthMismatch || e
                == CipherError::MissingPublicMaterial,
            r is Ok ==> {
                &&& final(self).state() == old(self).state().after(message@.len())
                &&& all_in_domain(final(res)@, output_domain(old(self).filter_options().0))
                &&& values_of(final(res)@) == encrypted(old(self).state(), raw_values(message@))
            },
    {
        let len = message.len();
        if res.len() != len {
            return Err(CipherError::LengthMismatch);
        }
        let ghost start = self.state();
        let mut i: usize = 0;
        while i < len
            invariant
                i <= len,
                len == message@.len(),
                len == res@.len(),
                len == old(res)@.len(),
                all_nibbles(message@),
                self.well_formed(),
                self.has_public_key() == old(self).has_public_key(),
                self.filter_options() == old(self).filter_options(),
                start == old(self).state(),
                self.state() == start.after(i as nat),
                i > 0 ==> self.can_stream(),
                forall|j: int|
                    0 <= j < i ==> (#[trigger] res@[j]).well_formed() && in_domain(
                        res@[j],
                        output_domain(old(self).filter_options().0),
                    ) && res@[j].value() == ring_add(
                        keystream(start, j as nat),
                        message@[j].0 as int,
                    ),
            decreases len - i,
        {
            let mut c = match self.stream() {
                Ok(c) => c,
                Err(e) => {
                    return Err(e);
                },
            };
            c.add_assign_u4(&message[i]);
            res[i] = c;
            i += 1;
        }
        assert(values_of(res@) =~= encrypted(start, raw_values(message@)));
        Ok(())
    }

    /// Decrypts the given vector of ciphertexts: nibble `i` of `res` becomes
    /// the additive inverse of nibble `i` of the keystream plus nibble `i` of
    /// the ciphertext. With an encrypted representation this transcrypts: the
    /// result is an encryption of the plaintext.
    ///
    /// Buffers of different lengths are refused and nothing is touched. An
    /// encrypted representation without public material fails at the first
    /// nibble.
    pub fn decrypt(&mut self, res: &mut [T], ciphertext: &[u4]) -> (r: Result<(), CipherError>)
        requires
            old(self).well_formed(),
            all_nibbles(ciphertext@),
        ensures
            final(self).well_formed(),
            final(self).has_public_key() == old(self).has_public_key(),
            final(self).filter_options() == old(self).filter_options(),
            final(res)@.len() == old(res)@.len(),
            old(res)@.len() != ciphertext@.len() ==> r == Err::<(), CipherError>(
                CipherError::LengthMismatch,
            ) && final(self).state() == old(self).state() && final(res)@ == old(res)@,
            old(res)@.len() == ciphertext@.len() ==> (r is Ok <==> old(self).can_stream()
                || ciphertext@.len() == 0),
            r matches Err(e) ==> e == CipherError::LengthMismatch || e
                == CipherError::MissingPublicMaterial,
            r is Ok ==> {
                &&& final(self).state() == old(self).state().after(ciphertext@.len())
                &&& all_in_domain(final(res)@, output_domain(old(self).filter_options().0))
                &&& values_of(final(res)@) == decrypted(old(self).state(), raw_values(ciphertext@))
            },
    {
        let len = ciphertext.len();
        if res.len() != len {
            return Err(CipherError::LengthMismatch);
        }
        let ghost start = self.state();
        let mut i: usize = 0;
        while i < len
            invariant
                i <= len,
                len == ciphertext@.len(),
                len == res@.len(),
                len == old(res)@.len(),
                all_nibbles(ciphertext@),
                self.well_formed(),
                self.has_public_key() == old(self).has_public_key(),
                self.filter_options() == old(self).filter_options(),
                start == old(self).state(),
                self.state() == start.after(i as nat),
                i > 0 ==> self.can_stream(),
                forall|j: int|
                    0 <= j < i ==> (#[trigger] res@[j]).well_formed() && in_domain(
                        res@[j],
                        output_domain(old(self).filter_options().0),
                    ) && res@[j].value() == ring_add(
                        ring_neg(keystream(start, j as nat)),
                        ciphertext@[j].0 as int,
                    ),
            decreases len - i,
        {
            let mut d = match self.stream() {
                Ok(d) => d,
                Err(e) => {
                    return Err(e);
                },
            };
            d.negate();
            d.add_assign_u4(&ciphertext[i]);
            res[i] = d;
            i += 1;
        }
        assert(values_of(res@) =~= decrypted(start, raw_values(ciphertext@)));
        Ok(())
    }
}

} // verus!
