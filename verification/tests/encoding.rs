use block_core::{Address, TransactionAction, CREATE2_TAG, H256, M256, U256};

// The bytes of a salted creation, put together item by item.
fn create2_bytes(salt: &[u8; 32], code_hash: &[u8; 32]) -> Vec<u8> {
    let mut expected: Vec<u8> = vec![0xf8, 0x44, 0x81, 0xc2, 0xa0];
    expected.extend_from_slice(salt);
    expected.push(0xa0);
    expected.extend_from_slice(code_hash);
    expected
}

// a call is the string of its 20 bytes
#[test]
fn encode_call_low_address() {
    let mut address = [0u8; 20];
    address[19] = 0xff;
    let action = TransactionAction::Call(Address(address));
    let mut expected: Vec<u8> = vec![0x94];
    expected.extend_from_slice(&address);
    let encoded = action.encode();
    assert_eq!(encoded, expected);
    assert_eq!(encoded.len(), 21);
    assert_eq!(encoded[20], 0xff);
    assert_eq!(TransactionAction::decode(&expected), Ok(action));
}

// a creation is the empty string
#[test]
fn encode_create() {
    let expected: Vec<u8> = vec![0x80];
    assert_eq!(TransactionAction::Create.encode(), expected);
    assert_eq!(TransactionAction::decode(&expected), Ok(TransactionAction::Create));
}

// a salted creation is the list of tag, salt and code hash
#[test]
fn encode_create2_salt_and_hash() {
    let mut salt = [0u8; 32];
    salt[0] = 0x7f;
    salt[1] = 0xff;
    salt[2] = 0xff;
    salt[3] = 0xff;
    let mut hash_bytes = [0u8; 32];
    hash_bytes[30] = 0x04;
    let action = TransactionAction::Create2(H256(salt), M256::from_u64(1024));
    let encoded = action.encode();
    assert_eq!(encoded, create2_bytes(&salt, &hash_bytes));
    assert_eq!(encoded.len(), 70);
    assert_eq!(encoded[3], CREATE2_TAG);
    assert_eq!(&encoded[5..9], &[0x7f, 0xff, 0xff, 0xff]);
    assert_eq!(&encoded[68..70], &[0x04, 0x00]);
    match TransactionAction::decode(&encoded) {
        Ok(TransactionAction::Create2(read_salt, read_hash)) => {
            assert_eq!(read_salt, H256(salt));
            assert_eq!(read_hash, M256::from_u64(1024));
        }
        other => panic!("{:?}", other),
    }
}

// the largest salt and the largest code hash
#[test]
fn encode_create2_all_ones() {
    let ones = [0xffu8; 32];
    let action = TransactionAction::Create2(H256(ones), M256(U256(ones)));
    let expected = create2_bytes(&ones, &ones);
    assert_eq!(action.encode(), expected);
    assert_eq!(TransactionAction::decode(&expected), Ok(action));
}

// a salt and a code hash of zero keep their 32 bytes
#[test]
fn encode_create2_all_zero() {
    let zeros = [0u8; 32];
    let action = TransactionAction::Create2(H256(zeros), M256::from_u64(0));
    let expected = create2_bytes(&zeros, &zeros);
    assert_eq!(action.encode(), expected);
    assert_eq!(expected.len(), 70);
    assert_eq!(TransactionAction::decode(&expected), Ok(action));
}

// an address of zeros is not the empty string
#[test]
fn encode_call_zero_address() {
    let action = TransactionAction::Call(Address([0; 20]));
    let mut expected: Vec<u8> = vec![0x94];
    expected.extend_from_slice(&[0u8; 20]);
    assert_eq!(action.encode(), expected);
    assert_eq!(TransactionAction::decode(&expected), Ok(action));
}

// the three kinds start with three different bytes
#[test]
fn encodings_differ_in_their_first_byte() {
    let call = TransactionAction::Call(Address([0xc2; 20])).encode();
    let create = TransactionAction::Create.encode();
    let create2 = TransactionAction::Create2(H256([0x94; 32]), M256::from_u64(0x80)).encode();
    assert_eq!(call[0], 0x94);
    assert_eq!(create[0], 0x80);
    assert_eq!(create2[0], 0xf8);
    assert_eq!(call.len(), 21);
    assert_eq!(create.len(), 1);
    assert_eq!(create2.len(), 70);
}
