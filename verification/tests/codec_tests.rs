use l1x_sdk::codec::{bytes_eq, concat_bytes, hex_bytes, hex_decode, le128, le32, le64};
use l1x_sdk::{Address, ContractCall, LookupMap, TestRuntimeVMLogic};

#[test]
fn little_endian_layouts() {
    assert_eq!(le32(0x0403_0201), vec![1, 2, 3, 4]);
    assert_eq!(le64(1), vec![1, 0, 0, 0, 0, 0, 0, 0]);
    assert_eq!(le128(0x10), 0x10u128.to_le_bytes().to_vec());
}

#[test]
fn byte_helpers() {
    assert!(bytes_eq(b"abc", b"abc"));
    assert!(!bytes_eq(b"abc", b"abd"));
    assert!(!bytes_eq(b"abc", b"ab"));
    assert_eq!(concat_bytes(b"ab", b"cd"), b"abcd".to_vec());
}

#[test]
fn hex_spelling() {
    assert_eq!(hex_bytes(&[0x00, 0x0f, 0xa5]), b"000fa5".to_vec());
    assert_eq!(hex_bytes(&[]), Vec::<u8>::new());
}

#[test]
fn hex_decoding() {
    assert_eq!(hex_decode(b"000fa5"), Some(vec![0x00, 0x0f, 0xa5]));
    assert_eq!(hex_decode(b"000FA5"), Some(vec![0x00, 0x0f, 0xa5]));
    assert_eq!(hex_decode(b"0fa"), None);
    assert_eq!(hex_decode(b"zz"), None);
    assert_eq!(hex_decode(b""), Some(vec![]));
}

#[test]
fn contract_call_layout() {
    let call = ContractCall {
        contract_address: Address::test_create_address(&vec![0xab; 20]),
        method_name: "go".to_string(),
        args: vec![9],
        read_only: true,
        fee_limit: 2,
    };
    let mut expected = vec![0xab; 20];
    expected.extend_from_slice(&2u32.to_le_bytes());
    expected.extend_from_slice(b"go");
    expected.extend_from_slice(&1u32.to_le_bytes());
    expected.push(9);
    expected.push(1);
    expected.extend_from_slice(&2u128.to_le_bytes());
    assert_eq!(call.to_bytes(), expected);
}

#[test]
fn call_contract_has_no_callee() {
    let call = ContractCall {
        contract_address: Address::test_create_address(&vec![1; 20]),
        method_name: "ping".to_string(),
        args: vec![],
        read_only: false,
        fee_limit: 0,
    };
    assert!(l1x_sdk::call_contract(&call).is_none());
}

#[test]
fn lookup_map_round_trip() {
    let mut env = TestRuntimeVMLogic::new();
    let mut map: LookupMap<u32, i32> = LookupMap::new(b"m".to_vec());

    assert_eq!(map.get(&mut env, &1), None);
    assert!(!map.contains_key(&mut env, &1));

    assert!(map.insert(&mut env, &1, &-5));
    assert!(map.contains_key(&mut env, &1));
    assert_eq!(map.get(&mut env, &1), Some(-5));

    // Replacing reports "not newly inserted" and serves the new value.
    assert!(!map.insert(&mut env, &1, &6));
    assert_eq!(map.get(&mut env, &1), Some(6));

    assert!(map.remove(&mut env, &1));
    assert!(!map.remove(&mut env, &1));
    assert_eq!(map.get(&mut env, &1), None);
}

#[test]
fn lookup_map_keys_do_not_collide_with_values() {
    let mut env = TestRuntimeVMLogic::new();
    let mut map: LookupMap<u32, u64> = LookupMap::new(b"kv".to_vec());
    map.insert(&mut env, &2, &1000);
    map.insert(&mut env, &3, &2000);
    assert_eq!(map.get(&mut env, &2), Some(1000));
    assert_eq!(map.get(&mut env, &3), Some(2000));
}
