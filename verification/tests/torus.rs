use elisabeth::filter::KeyswitchMode;
use elisabeth::nibble::u4;
use elisabeth::torus::{
    conversion, decode, encode, key_store_plan, lookup_accumulator, Conversion, KeyStorePlan,
};

const SBOX: [u8; 16] = [3, 2, 6, 12, 10, 0, 1, 11, 13, 14, 10, 4, 6, 0, 15, 5];

fn table() -> Vec<u4> {
    SBOX.iter().map(|v| u4(*v)).collect()
}

#[test]
fn encode_puts_the_nibble_on_top() {
    assert_eq!(encode(u4(0)), 0);
    assert_eq!(encode(u4(1)), 1 << 60);
    assert_eq!(encode(u4(7)), 7 << 60);
    assert_eq!(encode(u4(15)), 15 << 60);
}

#[test]
fn decode_rounds_to_the_nearest_nibble() {
    assert_eq!(decode(0).0, 0);
    assert_eq!(decode(7 << 60).0, 7);
    assert_eq!(decode((7 << 60) + (1 << 59) - 1).0, 7);
    assert_eq!(decode((7 << 60) + (1 << 59)).0, 8);
    assert_eq!(decode((7 << 60) - (1 << 59)).0, 7);
    assert_eq!(decode((7 << 60) - (1 << 59) - 1).0, 6);
    assert_eq!(decode(u64::MAX).0, 0);
    assert_eq!(decode((15 << 60) + (1 << 59) - 1).0, 15);
}

#[test]
fn decode_undoes_encode() {
    for v in 0..16u8 {
        assert_eq!(decode(encode(u4(v))).0, v);
    }
}

#[test]
fn accumulator_of_sixteen_coefficients() {
    // index (16 i + 16) / 32: 0, 1, 1, 2, 2, 3, 3, 4, 4, 5, 5, 6, 6, 7, 7, 8
    let acc = lookup_accumulator(&table(), 16);
    let indices = [0usize, 1, 1, 2, 2, 3, 3, 4, 4, 5, 5, 6, 6, 7, 7];
    assert_eq!(acc.len(), 16);
    for i in 0..15 {
        assert_eq!(acc[i], (SBOX[indices[i]] as u64) << 60);
    }
    assert_eq!(acc[15], ((16 - SBOX[0]) as u64) << 60);
}

#[test]
fn accumulator_of_512_coefficients_follows_the_shifted_rounding() {
    let acc = lookup_accumulator(&table(), 512);
    assert_eq!(acc.len(), 512);
    for i in 0..512u64 {
        // the coefficient's place on the torus, rounded to four bits
        let place = i << (63 - 9);
        let d = ((place >> 60) + ((place >> 59) & 1)) as usize;
        let expected = if d < 8 { SBOX[d] } else { (16 - SBOX[d - 8]) % 16 };
        assert_eq!(acc[i as usize], (expected as u64) << 60);
    }
}

#[test]
fn accumulator_of_2048_coefficients_follows_the_shifted_rounding() {
    let acc = lookup_accumulator(&table(), 2048);
    for i in 0..2048u64 {
        let place = i << (63 - 11);
        let d = ((place >> 60) + ((place >> 59) & 1)) as usize;
        let expected = if d < 8 { SBOX[d] } else { (16 - SBOX[d - 8]) % 16 };
        assert_eq!(acc[i as usize], (expected as u64) << 60);
    }
}

#[test]
fn empty_accumulator() {
    assert_eq!(lookup_accumulator(&table(), 0).len(), 0);
}

#[test]
fn single_key_always_converts_forward() {
    assert_eq!(conversion(KeyswitchMode::OneKey, 785, 785), Conversion::Forward);
    assert_eq!(conversion(KeyswitchMode::OneKey, 1537, 785), Conversion::Forward);
}

#[test]
fn two_keys_convert_back_from_the_converted_size() {
    assert_eq!(conversion(KeyswitchMode::TwoKeys, 785, 785), Conversion::Backward);
    assert_eq!(conversion(KeyswitchMode::TwoKeys, 1537, 785), Conversion::Forward);
}

#[test]
fn key_store_plans() {
    assert_eq!(key_store_plan(false, false), KeyStorePlan::Generate);
    assert_eq!(key_store_plan(false, true), KeyStorePlan::Generate);
    assert_eq!(key_store_plan(true, false), KeyStorePlan::GenerateAndStore);
    assert_eq!(key_store_plan(true, true), KeyStorePlan::Load);
}
