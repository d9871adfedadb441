use elisabeth::encrypter::Encrypter;
use elisabeth::error::CipherError;
use elisabeth::filter::{Concurrency, Filter, KeyswitchMode};
use elisabeth::nibble::{u4, Domain, Nibble};
use elisabeth::parameters::{Parameters, SystemParameters};

/// A stand-in for an encrypted representation: the nibble shifted by a mask
/// that the secret material holds, and a parameter domain that lookups and
/// conversions change as those of a ciphertext would. Adding across domains
/// panics, as does a lookup or a conversion from the wrong domain.
#[derive(Clone, Debug)]
struct Masked {
    shifted: u8,
    mask: u8,
    domain: Domain,
}

struct Mask(u8);

struct Tables;

impl Masked {
    fn open(&self) -> u8 {
        (self.shifted + 16 - self.mask) % 16
    }

    fn blank() -> Self {
        Masked { shifted: 0, mask: 0, domain: Domain::Key }
    }
}

impl Nibble for Masked {
    type Secret = Mask;
    type Public = Tables;

    fn encrypted() -> bool {
        true
    }

    fn well_formed(&self) -> bool {
        self.shifted < 16 && self.mask < 16
    }

    fn value(&self) -> u8 {
        self.open()
    }

    fn domain(&self) -> Domain {
        self.domain
    }

    fn value_in_ring(&self) {}

    fn from_u4_with_lwe_size(u: u4, _lwe_size: Option<usize>) -> Self {
        Masked { shifted: u.0, mask: 0, domain: Domain::Key }
    }

    fn from_u4(u: u4, secret: Option<&Mask>) -> Result<Self, CipherError> {
        match secret {
            Some(m) => Ok(Masked { shifted: (u.0 + m.0) % 16, mask: m.0, domain: Domain::Key }),
            None => Err(CipherError::MissingSecretMaterial),
        }
    }

    fn apply_sbox(&self, sbox: &[u4], pk: Option<&Tables>) -> Result<Self, CipherError> {
        assert_eq!(self.domain, Domain::Key);
        match pk {
            Some(_) => Ok(Masked {
                shifted: sbox[self.open() as usize].0,
                mask: 0,
                domain: Domain::Lookup,
            }),
            None => Err(CipherError::MissingPublicMaterial),
        }
    }

    fn negate(&mut self) {
        self.shifted = (16 - self.shifted) % 16;
        self.mask = (16 - self.mask) % 16;
    }

    fn keyswitch(&mut self, mode: KeyswitchMode, pk: Option<&Tables>) -> Result<(), CipherError> {
        if pk.is_none() {
            return Err(CipherError::MissingPublicMaterial);
        }
        self.domain = match (mode, self.domain) {
            (KeyswitchMode::OneKey, Domain::Lookup) => Domain::Key,
            (KeyswitchMode::OneKey, Domain::Key) => panic!("conversion from the wrong domain"),
            (KeyswitchMode::TwoKeys, Domain::Key) => Domain::Lookup,
            (KeyswitchMode::TwoKeys, Domain::Lookup) => Domain::Key,
        };
        Ok(())
    }

    fn duplicate(&self) -> Self {
        self.clone()
    }

    fn add(&self, rhs: &Self) -> Self {
        assert_eq!(self.domain, rhs.domain);
        Masked {
            shifted: (self.shifted + rhs.shifted) % 16,
            mask: (self.mask + rhs.mask) % 16,
            domain: self.domain,
        }
    }

    fn add_u4(&self, rhs: &u4) -> Self {
        Masked { shifted: (self.shifted + rhs.0) % 16, mask: self.mask, domain: self.domain }
    }

    fn add_assign(&mut self, rhs: &Self) {
        *self = self.add(rhs);
    }

    fn add_assign_u4(&mut self, rhs: &u4) {
        *self = self.add_u4(rhs);
    }
}

fn n60() -> Parameters {
    SystemParameters::n60.parameters()
}

fn parameters(n: usize, key_size: usize, mode: KeyswitchMode, concurrency: Concurrency) -> Parameters {
    Parameters { n, key_size, filter: Filter::with_options(mode, concurrency) }
}

fn message(len: usize) -> Vec<u4> {
    (0..len).map(|i| u4(((i * 11 + 5) % 16) as u8)).collect()
}

fn raw(values: &[u4]) -> Vec<u8> {
    values.iter().map(|v| v.0).collect()
}

#[test]
fn single_nibble_round_trip() {
    let (mut enc, mut dec) =
        Encrypter::<u4>::new::<u4>(&SystemParameters::n60, None, None, None, None).unwrap();
    let m = vec![u4(0x7)];
    let mut c = vec![u4(0)];
    let mut d = vec![u4(0)];
    assert_eq!(enc.encrypt(&mut c, &m), Ok(()));
    assert_eq!(dec.decrypt(&mut d, &c), Ok(()));
    assert_eq!(d[0].0, 0x7);
}

#[test]
fn clear_round_trip_of_a_long_message() {
    let (mut enc, mut dec) =
        Encrypter::<u4>::new::<u4>(&SystemParameters::n60, None, None, None, None).unwrap();
    let m = message(200);
    let mut c = vec![u4(0); 200];
    let mut d = vec![u4(0); 200];
    enc.encrypt(&mut c, &m).unwrap();
    dec.decrypt(&mut d, &c).unwrap();
    assert_eq!(raw(&d), raw(&m));
}

#[test]
fn zero_key_and_seed_zero_give_a_known_first_nibble() {
    let key = vec![u4(0); 256];
    let (mut a, mut b) = Encrypter::<u4>::from_keys::<u4>(
        n60(),
        key.clone(),
        key,
        0,
        None,
        None,
    )
    .unwrap();
    let x = a.stream().unwrap();
    let y = b.stream().unwrap();
    assert_eq!(x.0, y.0);
    assert!(x.0 < 16);
}

#[test]
fn pair_from_one_key_gives_one_keystream() {
    let key = message(256);
    let (mut a, mut b) = Encrypter::<u4>::from_keys::<u4>(
        n60(),
        key.clone(),
        key,
        0x1234_5678_9abc_def0,
        None,
        None,
    )
    .unwrap();
    for _ in 0..20 {
        assert_eq!(a.stream().unwrap().0, b.stream().unwrap().0);
    }
}

#[test]
fn different_seeds_give_different_keystreams() {
    let key = message(256);
    let (mut a, _) =
        Encrypter::<u4>::from_keys::<u4>(n60(), key.clone(), key.clone(), 1, None, None)
            .unwrap();
    let (mut b, _) =
        Encrypter::<u4>::from_keys::<u4>(n60(), key.clone(), key, 2, None, None)
            .unwrap();
    let mut xs = Vec::new();
    let mut ys = Vec::new();
    for _ in 0..64 {
        xs.push(a.stream().unwrap().0);
        ys.push(b.stream().unwrap().0);
    }
    assert_ne!(xs, ys);
}

#[test]
fn encrypt_adds_the_keystream() {
    let key = message(256);
    let (mut a, mut b) =
        Encrypter::<u4>::from_keys::<u4>(n60(), key.clone(), key, 77, None, None)
            .unwrap();
    let m = message(10);
    let mut c = vec![u4(0); 10];
    a.encrypt(&mut c, &m).unwrap();
    for i in 0..10 {
        let s = b.stream().unwrap();
        assert_eq!(c[i].0, (s.0 + m[i].0) % 16);
    }
}

#[test]
fn decrypt_subtracts_the_keystream() {
    let key = message(256);
    let (mut a, mut b) =
        Encrypter::<u4>::from_keys::<u4>(n60(), key.clone(), key, 78, None, None)
            .unwrap();
    let c = message(10);
    let mut d = vec![u4(0); 10];
    a.decrypt(&mut d, &c).unwrap();
    for i in 0..10 {
        let s = b.stream().unwrap();
        assert_eq!(d[i].0, (16 - s.0 + c[i].0) % 16);
    }
}

#[test]
fn length_mismatch_is_refused_and_nothing_is_drawn() {
    let key = message(256);
    let (mut a, mut b) =
        Encrypter::<u4>::from_keys::<u4>(n60(), key.clone(), key, 5, None, None)
            .unwrap();
    let m = message(3);
    let mut c = vec![u4(9); 2];
    assert_eq!(a.encrypt(&mut c, &m), Err(CipherError::LengthMismatch));
    assert_eq!(raw(&c), vec![9, 9]);
    assert_eq!(a.decrypt(&mut c, &m), Err(CipherError::LengthMismatch));
    assert_eq!(raw(&c), vec![9, 9]);
    assert_eq!(a.stream().unwrap().0, b.stream().unwrap().0);
}

#[test]
fn empty_message_is_accepted() {
    let (mut enc, _) =
        Encrypter::<u4>::new::<u4>(&SystemParameters::n60, None, None, None, None).unwrap();
    let m: Vec<u4> = Vec::new();
    let mut c: Vec<u4> = Vec::new();
    assert_eq!(enc.encrypt(&mut c, &m), Ok(()));
    assert_eq!(enc.decrypt(&mut c, &m), Ok(()));
}

#[test]
fn key_of_wrong_length_is_corrupt() {
    let r = Encrypter::<u4>::from_keys::<u4>(
        n60(),
        message(255),
        message(256),
        0,
        None,
        None,
    );
    assert_eq!(r.err(), Some(CipherError::KeyStoreCorrupt));
    let r = Encrypter::<u4>::from_keys::<u4>(
        n60(),
        message(256),
        message(257),
        0,
        None,
        None,
    );
    assert_eq!(r.err(), Some(CipherError::KeyStoreCorrupt));
}

#[test]
fn transcryption_gives_an_encryption_of_the_message() {
    let mask = Mask(6);
    let (mut client, mut server) = Encrypter::<u4>::new::<Masked>(
        &SystemParameters::n60,
        None,
        Some(&mask),
        None,
        Some(Tables),
    )
    .unwrap();
    let m = message(40);
    let mut c = vec![u4(0); 40];
    client.encrypt(&mut c, &m).unwrap();
    let mut t = vec![Masked::blank(); 40];
    server.decrypt(&mut t, &c).unwrap();
    let opened: Vec<u8> = t.iter().map(|x| x.open()).collect();
    assert_eq!(opened, raw(&m));
}

#[test]
fn encrypted_key_without_secret_material_is_refused() {
    let r = Encrypter::<u4>::new::<Masked>(&SystemParameters::n60, None, None, None, Some(Tables));
    assert_eq!(r.err(), Some(CipherError::MissingSecretMaterial));
}

#[test]
fn encrypted_stream_without_public_material_is_refused() {
    let mask = Mask(3);
    let (_, mut server) =
        Encrypter::<u4>::new::<Masked>(&SystemParameters::n60, None, Some(&mask), None, None)
            .unwrap();
    assert_eq!(server.stream().err(), Some(CipherError::MissingPublicMaterial));
    let c = message(2);
    let mut t = vec![Masked::blank(); 2];
    assert_eq!(server.decrypt(&mut t, &c), Err(CipherError::MissingPublicMaterial));
}

#[test]
fn transcryption_in_every_mode() {
    for mode in [KeyswitchMode::OneKey, KeyswitchMode::TwoKeys] {
        for concurrency in [Concurrency::Sequential, Concurrency::Parallel] {
            let mask = Mask(11);
            let (mut client, mut server) = Encrypter::<u4>::with_parameters::<Masked>(
                parameters(60, 256, mode, concurrency),
                None,
                Some(&mask),
                None,
                Some(Tables),
            )
            .unwrap();
            let m = message(25);
            let mut c = vec![u4(0); 25];
            client.encrypt(&mut c, &m).unwrap();
            let mut t = vec![Masked::blank(); 25];
            server.decrypt(&mut t, &c).unwrap();
            let opened: Vec<u8> = t.iter().map(|x| x.open()).collect();
            assert_eq!(opened, raw(&m));
            let expected = match mode {
                KeyswitchMode::OneKey => Domain::Key,
                KeyswitchMode::TwoKeys => Domain::Lookup,
            };
            assert!(t.iter().all(|x| x.domain == expected));
        }
    }
}

#[test]
fn encrypted_round_trip() {
    let mask = Mask(9);
    let (mut enc, mut dec) = Encrypter::<Masked>::new::<Masked>(
        &SystemParameters::n60,
        Some(&mask),
        Some(&mask),
        Some(Tables),
        Some(Tables),
    )
    .unwrap();
    let m = message(12);
    let mut c = vec![Masked::blank(); 12];
    enc.encrypt(&mut c, &m).unwrap();
    // what the first encrypter gives is the ciphertext under a mask; opened,
    // it is what the second takes
    let opened: Vec<u4> = c.iter().map(|x| u4(x.open())).collect();
    let mut d = vec![Masked::blank(); 12];
    dec.decrypt(&mut d, &opened).unwrap();
    let back: Vec<u8> = d.iter().map(|x| x.open()).collect();
    assert_eq!(back, raw(&m));
}

#[test]
fn round_length_that_the_filter_does_not_take_is_refused() {
    let p = parameters(7, 256, KeyswitchMode::TwoKeys, Concurrency::Sequential);
    let r = Encrypter::<u4>::with_parameters::<u4>(p, None, None, None, None);
    assert_eq!(r.err(), Some(CipherError::InvalidRoundSize));
    let p = parameters(0, 256, KeyswitchMode::TwoKeys, Concurrency::Sequential);
    let r = Encrypter::<u4>::from_keys::<u4>(p, message(256), message(256), 0, None, None);
    assert_eq!(r.err(), Some(CipherError::InvalidRoundSize));
}

#[test]
fn round_longer_than_the_key_is_refused() {
    let p = parameters(60, 59, KeyswitchMode::TwoKeys, Concurrency::Sequential);
    let r = Encrypter::<u4>::with_parameters::<u4>(p, None, None, None, None);
    assert_eq!(r.err(), Some(CipherError::RandomRangeInvariantViolation));
    let p = parameters(60, 59, KeyswitchMode::TwoKeys, Concurrency::Sequential);
    let r = Encrypter::<u4>::from_keys::<u4>(p, message(59), message(59), 0, None, None);
    assert_eq!(r.err(), Some(CipherError::RandomRangeInvariantViolation));
}

#[test]
fn small_parameters_round_trip() {
    let p = parameters(5, 5, KeyswitchMode::OneKey, Concurrency::Parallel);
    let (mut enc, mut dec) =
        Encrypter::<u4>::with_parameters::<u4>(p, None, None, None, None).unwrap();
    let m = message(33);
    let mut c = vec![u4(0); 33];
    let mut d = vec![u4(0); 33];
    enc.encrypt(&mut c, &m).unwrap();
    dec.decrypt(&mut d, &c).unwrap();
    assert_eq!(raw(&d), raw(&m));
}

#[test]
fn zero_key_keystream_is_the_filter_of_the_whitening() {
    let key = vec![u4(0); 256];
    let (mut a, _) = Encrypter::<u4>::from_keys::<u4>(n60(), key.clone(), key, 9, None, None).unwrap();
    let mut theirs = concrete_csprng::RandomGenerator::new(Some(9));
    let filter = Filter::new();
    for _ in 0..4 {
        for _ in 0..240 {
            theirs.generate_next();
        }
        let whitening: Vec<u4> = (0..60).map(|_| u4(theirs.generate_next() % 16)).collect();
        assert_eq!(a.stream().unwrap().0, filter.call(&whitening, None).unwrap().0);
    }
}
