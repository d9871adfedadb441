use vstd::prelude::*;

verus! {

/// The ways in which an operation of the cipher is refused.
#[derive(Clone, Copy, Debug, PartialEq, Eq, Structural)]
pub enum CipherError {
    /// A secret-dependent construction was asked for without secret material.
    MissingSecretMaterial,
    /// A table lookup or a domain conversion on an encrypted value was asked
    /// for without public material.
    MissingPublicMaterial,
    /// An input and an output buffer differ in length.
    LengthMismatch,
    /// A round whose length is zero or no multiple of the block width.
    InvalidRoundSize,
    /// The key store could not be read or written.
    KeyStoreIOError,
    /// The key store holds key material that does not fit the parameters.
    KeyStoreCorrupt,
    /// A random index was asked for in an empty or inverted range.
    RandomRangeInvariantViolation,
}

} // verus!
