use vstd::prelude::*;
use crate::error::CipherError;
use crate::filter::{Filter, KeyswitchMode, Concurrency, valid_round_len};

verus! {

/// A list of preset parameters for Elisabeth.
#[allow(non_camel_case_types)]
#[derive(Clone, Copy, Debug, PartialEq, Eq, Structural)]
pub enum SystemParameters {
    /// Rounds of 60 nibbles over a master key of 256 nibbles.
    n60,
}

/// What a preset fixes of the cipher itself.
pub struct Parameters {
    /// The number of nibbles of a round.
    pub n: usize,
    /// The number of nibbles of the master key.
    pub key_size: usize,
    /// The filter that turns a round into a nibble of keystream.
    pub filter: Filter,
}

impl Parameters {
    /// Whether the parameters describe a cipher: the filter takes rounds of
    /// `n` nibbles, and a round is no longer than the key.
    pub open spec fn usable(&self) -> bool {
        valid_round_len(self.n as int) && self.n <= self.key_size
    }

    /// Checks the parameters: a round length that is zero or no multiple of
    /// five is refused first, then a round that is longer than the key, for
    /// which the range of the last draws of a shuffle would be empty.
    pub fn check(&self) -> (r: Result<(), CipherError>)
        ensures
            r is Ok <==> self.usable(),
            r matches Err(e) ==> e == (if !valid_round_len(self.n as int) {
                CipherError::InvalidRoundSize
            } else {
                CipherError::RandomRangeInvariantViolation
            }),
    {
        if self.n == 0 || self.n % 5 != 0 {
            Err(CipherError::InvalidRoundSize)
        } else if self.n > self.key_size {
            Err(CipherError::RandomRangeInvariantViolation)
        } else {
            Ok(())
        }
    }
}

/// A standard deviation of noise below one, given by the negated binary
/// logarithm in units of one ten-thousandth: the deviation is
/// `2^(-neg_log2_e4 / 10000)`.
#[derive(Clone, Copy, Debug, PartialEq, Eq, Structural)]
pub struct NoiseLevel {
    pub neg_log2_e4: u32,
}

/// The base and the depth of a decomposition.
#[derive(Clone, Copy, Debug, PartialEq, Eq, Structural)]
pub struct Decomposition {
    pub base_log: usize,
    pub level_count: usize,
}

/// What a preset fixes of the homomorphic scheme that encrypted nibbles live in.
#[derive(Clone, Copy, Debug, PartialEq, Eq, Structural)]
pub struct FheParameters {
    pub lwe_dimension: usize,
    pub lwe_noise: NoiseLevel,
    pub glwe_dimension: usize,
    pub polynomial_size: usize,
    pub glwe_noise: NoiseLevel,
    pub bootstrap: Decomposition,
    pub keyswitch: Decomposition,
    /// The conversion back, which only the scheme with two keys has.
    pub reverse_keyswitch: Option<Decomposition>,
}

/// The parameters of the homomorphic scheme of the preset `n60`.
pub open spec fn n60_fhe_parameters(mode: KeyswitchMode) -> FheParameters {
    match mode {
        KeyswitchMode::TwoKeys => FheParameters {
            lwe_dimension: 784,
            lwe_noise: NoiseLevel { neg_log2_e4: 186658 },
            glwe_dimension: 3,
            polynomial_size: 512,
            glwe_noise: NoiseLevel { neg_log2_e4: 384997 },
            bootstrap: Decomposition { base_log: 19, level_count: 1 },
            keyswitch: Decomposition { base_log: 6, level_count: 2 },
            reverse_keyswitch: Some(Decomposition { base_log: 19, level_count: 1 }),
        },
        KeyswitchMode::OneKey => FheParameters {
            lwe_dimension: 754,
            lwe_noise: NoiseLevel { neg_log2_e4: 178700 },
            glwe_dimension: 1,
            polynomial_size: 2048,
            glwe_noise: NoiseLevel { neg_log2_e4: 520000 },
            bootstrap: Decomposition { base_log: 7, level_count: 6 },
            keyswitch: Decomposition { base_log: 2, level_count: 8 },
            reverse_keyswitch: None,
        },
    }
}

impl SystemParameters {
    /// Returns the parameters for a given preset.
    pub fn parameters(&self) -> (p: Parameters)
        ensures
            p.n == 60,
            p.key_size == 256,
            p.filter.options() == (KeyswitchMode::TwoKeys, Concurrency::Sequential),
    {
        match self {
            Self::n60 => Parameters { key_size: 256, n: 60, filter: Filter::new() },
        }
    }

    /// Returns the parameters of the homomorphic scheme for a given preset
    /// and a given way of converting parameter domains.
    pub fn fhe_parameters(&self, mode: KeyswitchMode) -> (p: FheParameters)
        ensures
            p == n60_fhe_parameters(mode),
    {
        match self {
            Self::n60 => match mode {
                KeyswitchMode::TwoKeys => FheParameters {
                    lwe_dimension: 784,
                    lwe_noise: NoiseLevel { neg_log2_e4: 186658 },
                    glwe_dimension: 3,
                    polynomial_size: 512,
                    glwe_noise: NoiseLevel { neg_log2_e4: 384997 },
                    bootstrap: Decomposition { base_log: 19, level_count: 1 },
                    keyswitch: Decomposition { base_log: 6, level_count: 2 },
                    reverse_keyswitch: Some(Decomposition { base_log: 19, level_count: 1 }),
                },
                KeyswitchMode::OneKey => FheParameters {
                    lwe_dimension: 754,
                    lwe_noise: NoiseLevel { neg_log2_e4: 178700 },
                    glwe_dimension: 1,
                    polynomial_size: 2048,
                    glwe_noise: NoiseLevel { neg_log2_e4: 520000 },
                    bootstrap: Decomposition { base_log: 7, level_count: 6 },
                    keyswitch: Decomposition { base_log: 2, level_count: 8 },
                    reverse_keyswitch: None,
                },
            },
        }
    }
}

} // verus!
