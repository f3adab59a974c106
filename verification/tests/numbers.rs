use block_core::{Address, H256, M256, U256};

// the bytes of a small number stand at the end
#[test]
fn u256_from_u64_is_big_endian() {
    let mut expected = [0u8; 32];
    expected[30] = 0x04;
    assert_eq!(U256::from_u64(1024), U256(expected));
    assert_eq!(U256::from_u64(0), U256([0; 32]));
}

// all eight bytes of a u64 are kept
#[test]
fn u256_from_u64_max() {
    let mut expected = [0u8; 32];
    for i in 24..32 {
        expected[i] = 0xff;
    }
    assert_eq!(U256::from_u64(u64::MAX), U256(expected));
    assert_eq!(M256::from_u64(u64::MAX), M256(U256(expected)));
}

// each byte of a u64 lands at its own place
#[test]
fn u256_from_u64_orders_bytes() {
    let mut expected = [0u8; 32];
    for i in 0..8 {
        expected[24 + i] = (i + 1) as u8;
    }
    assert_eq!(U256::from_u64(0x0102030405060708), U256(expected));
}

// an address is the low 160 bits of a number
#[test]
fn address_from_m256_takes_last_20_bytes() {
    let mut bytes = [0u8; 32];
    for i in 0..32 {
        bytes[i] = i as u8;
    }
    let mut expected = [0u8; 20];
    for i in 0..20 {
        expected[i] = (12 + i) as u8;
    }
    assert_eq!(Address::from_m256(M256(U256(bytes))), Address(expected));
}

// a small number gives an address of leading zeros
#[test]
fn address_from_small_m256() {
    let mut expected = [0u8; 20];
    for i in 12..20 {
        expected[i] = 0xff;
    }
    assert_eq!(Address::from_m256(M256::from_u64(u64::MAX)), Address(expected));
}

// number and hash hold the same 32 bytes
#[test]
fn h256_and_m256_convert_both_ways() {
    let mut bytes = [0u8; 32];
    bytes[28] = 0x7f;
    bytes[29] = 0xff;
    bytes[30] = 0xff;
    bytes[31] = 0xff;
    let number = M256::from_u64(i32::MAX as u64);
    assert_eq!(H256::from_m256(number), H256(bytes));
    assert_eq!(M256::from_h256(H256(bytes)), number);
}
