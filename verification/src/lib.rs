//! Elisabeth: a stream cipher over the ring of integers modulo sixteen whose
//! keystream can be evaluated on clear and on homomorphically encrypted values
//! by one and the same algorithm.
//!
//! A round of key material is drawn by the [`symmetric_key::SymmetricKey`],
//! turned into one nibble of keystream by the [`filter::Filter`], and added to
//! a nibble of the message by the [`encrypter::Encrypter`]. All three are
//! written once, over the [`nibble::Nibble`] trait; [`nibble::u4`] is the
//! clear representation.

pub mod encrypter;
pub mod error;
pub mod filter;
pub mod laws;
pub mod nibble;
pub mod parameters;
pub mod random;
pub mod symmetric_key;
pub mod torus;

pub use encrypter::Encrypter;
pub use error::CipherError;
pub use filter::{Concurrency, Filter, KeyswitchMode};
pub use nibble::{u4, Nibble};
pub use parameters::{FheParameters, Parameters, SystemParameters};
pub use symmetric_key::SymmetricKey;
pub use torus::Torus;
