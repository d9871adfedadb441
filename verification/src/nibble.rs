use vstd::prelude::*;
use crate::error::CipherError;
use crate::filter::KeyswitchMode;

verus! {

/// A clear element of the ring of integers modulo sixteen.
///
/// The field is public, so a value may hold any byte; the operations of the
/// cipher are defined on the values below sixteen (see [`u4::is_nibble`]).
#[allow(non_camel_case_types)]
#[derive(Clone, Copy, Debug)]
pub struct u4(pub u8);

impl u4 {
    /// Whether the byte is an element of the ring, that is, below sixteen.
    pub open spec fn is_nibble(&self) -> bool {
        self.0 < 16
    }
}

/// Sum of two ring elements.
pub open spec fn ring_add(a: int, b: int) -> int {
    (a + b) % 16
}

/// Additive inverse of a ring element.
pub open spec fn ring_neg(a: int) -> int {
    (16 - a) % 16
}

/// The values that a sequence of clear nibbles holds.
pub open spec fn raw_values(s: Seq<u4>) -> Seq<int> {
    Seq::new(s.len(), |i: int| s[i].0 as int)
}

/// Whether every entry of a sequence of clear nibbles is below sixteen.
pub open spec fn all_nibbles(s: Seq<u4>) -> bool {
    forall|i: int| 0 <= i < s.len() ==> (#[trigger] s[i]).is_nibble()
}

/// The parameter domain that an encrypted nibble lives in. Two encrypted
/// nibbles can be added only within one domain.
#[derive(Clone, Copy, Debug, PartialEq, Eq, Structural)]
pub enum Domain {
    /// The domain of the key material, which a table lookup takes its input from.
    Key,
    /// The domain that a table lookup gives its output in.
    Lookup,
}

/// The domain that a conversion leads to. With a single conversion key it
/// leads from the domain of the lookups to that of the key; with two keys it
/// leads from either domain to the other.
pub open spec fn converted(mode: KeyswitchMode, from: Domain) -> Domain {
    match mode {
        KeyswitchMode::OneKey => Domain::Key,
        KeyswitchMode::TwoKeys => match from {
            Domain::Key => Domain::Lookup,
            Domain::Lookup => Domain::Key,
        },
    }
}

/// Whether a nibble lives in the domain `d`. Clear nibbles know no domains
/// and live in each.
pub open spec fn in_domain<T: Nibble>(x: T, d: Domain) -> bool {
    T::encrypted() ==> x.domain() == d
}

/// What a representation of a nibble, clear or encrypted, has to offer so that
/// the cipher can run on it.
///
/// Every value stands for one element of the ring, its [`Nibble::value`]. For
/// an encrypted representation that is the element the value decrypts to, and
/// the contracts below are what its implementation promises of it.
pub trait Nibble: Sized + Send + Sync {
    /// Secret material together with the noise parameter.
    type Secret;

    /// Public material for table lookups and domain conversions.
    type Public: Sync;

    /// Whether the representation is an encrypted one, which needs secret
    /// material to be built from a secret value and public material to be
    /// looked up or converted.
    spec fn encrypted() -> bool;

    /// Whether the value is a sound one of its representation.
    spec fn well_formed(&self) -> bool;

    /// The ring element that the value stands for.
    spec fn value(&self) -> u8;

    /// The parameter domain that an encrypted value lives in. It means nothing
    /// for a clear one.
    spec fn domain(&self) -> Domain;

    /// A sound value stands for an element of the ring.
    proof fn value_in_ring(&self)
        requires
            self.well_formed(),
        ensures
            self.value() < 16,
    ;

    /// Builds a noiseless value from a clear one; an encrypted representation
    /// takes the size of the parameter domain that the value is to live in.
    fn from_u4_with_lwe_size(u: u4, lwe_size: Option<usize>) -> (r: Self)
        requires
            u.is_nibble(),
            Self::encrypted() ==> lwe_size is Some,
        ensures
            r.well_formed(),
            r.value() == u.0,
    ;

    /// Builds a value from a clear one that is to stay secret.
    fn from_u4(u: u4, secret: Option<&Self::Secret>) -> (r: Result<Self, CipherError>)
        requires
            u.is_nibble(),
        ensures
            r is Err <==> Self::encrypted() && secret is None,
            r matches Err(e) ==> e == CipherError::MissingSecretMaterial,
            r matches Ok(v) ==> v.well_formed() && v.value() == u.0 && (Self::encrypted()
                ==> v.domain() == Domain::Key),
    ;

    /// Looks the value up in a table of sixteen entries.
    fn apply_sbox(&self, sbox: &[u4], pk: Option<&Self::Public>) -> (r: Result<Self, CipherError>)
        requires
            self.well_formed(),
            Self::encrypted() ==> self.domain() == Domain::Key,
            sbox@.len() == 16,
            all_nibbles(sbox@),
        ensures
            r is Err <==> Self::encrypted() && pk is None,
            r matches Err(e) ==> e == CipherError::MissingPublicMaterial,
            r matches Ok(v) ==> v.well_formed() && v.value() == sbox@[self.value() as int].0 && (
            Self::encrypted() ==> v.domain() == Domain::Lookup),
    ;

    /// Replaces the value by its additive inverse.
    fn negate(&mut self)
        requires
            old(self).well_formed(),
        ensures
            final(self).well_formed(),
            final(self).value() == ring_neg(old(self).value() as int),
            final(self).domain() == old(self).domain(),
    ;

    /// Moves an encrypted value to the domain that [`converted`] gives; a
    /// clear value stays as it is. The element that the value stands for is
    /// kept. With a single conversion key the value has to come from the
    /// domain of the lookups. Without public material nothing is changed.
    fn keyswitch(&mut self, mode: KeyswitchMode, pk: Option<&Self::Public>) -> (r: Result<
        (),
        CipherError,
    >)
        requires
            old(self).well_formed(),
            mode == KeyswitchMode::OneKey && Self::encrypted() ==> old(self).domain()
                == Domain::Lookup,
        ensures
            r is Err <==> Self::encrypted() && pk is None,
            r matches Err(e) ==> e == CipherError::MissingPublicMaterial,
            final(self).well_formed(),
            final(self).value() == old(self).value(),
            r is Ok && Self::encrypted() ==> final(self).domain() == converted(
                mode,
                old(self).domain(),
            ),
            r is Err ==> final(self).domain() == old(self).domain(),
    ;

    /// Another value that stands for the same element.
    fn duplicate(&self) -> (r: Self)
        requires
            self.well_formed(),
        ensures
            r.well_formed(),
            r.value() == self.value(),
            r.domain() == self.domain(),
    ;

    /// Sum of two values.
    fn add(&self, rhs: &Self) -> (r: Self)
        requires
            self.well_formed(),
            rhs.well_formed(),
            Self::encrypted() ==> self.domain() == rhs.domain(),
        ensures
            r.well_formed(),
            r.value() == ring_add(self.value() as int, rhs.value() as int),
            r.domain() == self.domain(),
    ;

    /// Sum of a value and a clear nibble.
    fn add_u4(&self, rhs: &u4) -> (r: Self)
        requires
            self.well_formed(),
            rhs.is_nibble(),
        ensures
            r.well_formed(),
            r.value() == ring_add(self.value() as int, rhs.0 as int),
            r.domain() == self.domain(),
    ;

    /// Adds a value to this one.
    fn add_assign(&mut self, rhs: &Self)
        requires
            old(self).well_formed(),
            rhs.well_formed(),
            Self::encrypted() ==> old(self).domain() == rhs.domain(),
        ensures
            final(self).well_formed(),
            final(self).value() == ring_add(old(self).value() as int, rhs.value() as int),
            final(self).domain() == old(self).domain(),
    ;

    /// Adds a clear nibble to this value.
    fn add_assign_u4(&mut self, rhs: &u4)
        requires
            old(self).well_formed(),
            rhs.is_nibble(),
        ensures
            final(self).well_formed(),
            final(self).value() == ring_add(old(self).value() as int, rhs.0 as int),
            final(self).domain() == old(self).domain(),
    ;
}

/// The ring elements that a sequence of nibbles stands for.
pub open spec fn values_of<T: Nibble>(s: Seq<T>) -> Seq<int> {
    Seq::new(s.len(), |i: int| s[i].value() as int)
}

/// Whether every nibble of a sequence is a sound value that lives in the
/// domain `d`.
pub open spec fn all_in_domain<T: Nibble>(s: Seq<T>, d: Domain) -> bool {
    forall|i: int| 0 <= i < s.len() ==> (#[trigger] s[i]).well_formed() && in_domain(s[i], d)
}

impl Nibble for u4 {
    type Secret = ();

    type Public = ();

    open spec fn encrypted() -> bool {
        false
    }

    open spec fn well_formed(&self) -> bool {
        self.is_nibble()
    }

    open spec fn value(&self) -> u8 {
        self.0
    }

    open spec fn domain(&self) -> Domain {
        Domain::Key
    }

    proof fn value_in_ring(&self) {
    }

    fn from_u4_with_lwe_size(u: u4, lwe_size: Option<usize>) -> (r: Self) {
        u
    }

    fn from_u4(u: u4, secret: Option<&()>) -> (r: Result<Self, CipherError>) {
        Ok(u)
    }

    fn apply_sbox(&self, sbox: &[u4], pk: Option<&()>) -> (r: Result<Self, CipherError>) {
        let i: usize = self.0 as usize;
        Ok(sbox[i])
    }

    fn negate(&mut self) {
        self.0 = (16 - self.0) % 16;
    }

    fn keyswitch(&mut self, mode: KeyswitchMode, pk: Option<&()>) -> (r: Result<(), CipherError>) {
        Ok(())
    }

    fn duplicate(&self) -> (r: Self) {
        *self
    }

    fn add(&self, rhs: &Self) -> (r: Self) {
        u4((self.0 + rhs.0) % 16)
    }

    fn add_u4(&self, rhs: &u4) -> (r: Self) {
        u4((self.0 + rhs.0) % 16)
    }

    fn add_assign(&mut self, rhs: &Self) {
        self.0 = (self.0 + rhs.0) % 16;
    }

    fn add_assign_u4(&mut self, rhs: &u4) {
        self.0 = (self.0 + rhs.0) % 16;
    }
}

} // verus!
