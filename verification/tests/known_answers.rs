use elisabeth::encrypter::Encrypter;
use elisabeth::nibble::u4;
use elisabeth::parameters::SystemParameters;
use elisabeth::random::Generator;
use elisabeth::symmetric_key::SymmetricKey;

fn key() -> Vec<u4> {
    (0..256).map(|i| u4(((i * 11 + 5) % 16) as u8)).collect()
}

fn raw(values: &[u4]) -> Vec<u8> {
    values.iter().map(|v| v.0).collect()
}

#[test]
fn stream_of_seed_zero_starts_with_the_aes_of_zero() {
    // AES-128 of the zero block under the zero key
    let expected = [
        0x66, 0xe9, 0x4b, 0xd4, 0xef, 0x8a, 0x2c, 0x3b, 0x88, 0x4c, 0xfa, 0x59, 0xca, 0x34, 0x2b,
        0x2e,
    ];
    let mut g = Generator::new(0);
    for b in expected {
        assert_eq!(g.random_byte(), b);
    }
}

#[test]
fn stream_of_seed_42() {
    let expected = [
        151, 180, 64, 217, 71, 107, 112, 29, 147, 136, 252, 54, 10, 218, 36, 76, 182, 76, 227, 55,
        98, 252, 86, 45, 15, 65, 152, 109, 233, 64, 212, 106,
    ];
    let mut g = Generator::new(42);
    for b in expected {
        assert_eq!(g.random_byte(), b);
    }
}

#[test]
fn first_round_of_seed_one() {
    let expected = vec![
        1, 10, 7, 13, 0, 15, 15, 6, 13, 15, 5, 7, 7, 2, 13, 6, 0, 7, 11, 8, 3, 12, 2, 1, 1, 14, 8,
        14, 15, 9, 10, 15, 6, 12, 9, 1, 10, 13, 6, 12, 4, 8, 14, 1, 9, 10, 0, 13, 15, 5, 15, 13,
        15, 13, 12, 11, 11, 15, 6, 11,
    ];
    let mut s = SymmetricKey::new(key(), 60, 1);
    assert_eq!(raw(s.random_whitened_subset()), expected);
}

#[test]
fn indices_after_sixteen_rounds_of_seed_one() {
    let mut s = SymmetricKey::new(key(), 60, 1);
    for _ in 0..16 {
        s.random_whitened_subset();
    }
    assert_eq!(s.indices()[..10].to_vec(), vec![74, 157, 4, 107, 56, 106, 14, 40, 86, 208]);
}

#[test]
fn keystream_of_seed_one() {
    let expected = [13, 1, 5, 8, 13, 3, 4, 12, 11, 3, 4, 10, 1, 15, 5, 5];
    let (mut a, _) = Encrypter::<u4>::from_keys::<u4>(
        SystemParameters::n60.parameters(),
        key(),
        key(),
        1,
        None,
        None,
    )
    .unwrap();
    for e in expected {
        assert_eq!(a.stream().unwrap().0, e);
    }
}

#[test]
fn keystream_of_the_zero_key_and_seed_zero() {
    let expected = [6, 9, 4, 9, 7, 2, 10, 5, 13, 8, 2, 11, 13, 8, 15, 3];
    let (mut a, _) = Encrypter::<u4>::from_keys::<u4>(
        SystemParameters::n60.parameters(),
        vec![u4(0); 256],
        vec![u4(0); 256],
        0,
        None,
        None,
    )
    .unwrap();
    for e in expected {
        assert_eq!(a.stream().unwrap().0, e);
    }
}

#[test]
fn encryption_of_seven_under_seed_one() {
    let (mut a, mut b) = Encrypter::<u4>::from_keys::<u4>(
        SystemParameters::n60.parameters(),
        key(),
        key(),
        1,
        None,
        None,
    )
    .unwrap();
    let mut c = vec![u4(0)];
    a.encrypt(&mut c, &[u4(7)]).unwrap();
    assert_eq!(c[0].0, 4);
    let mut d = vec![u4(0)];
    b.decrypt(&mut d, &c).unwrap();
    assert_eq!(d[0].0, 7);
}
