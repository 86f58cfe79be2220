use l1x_sdk::Address;

#[test]
pub fn address_try_from() {
    let addr_vec: Vec<u8> = vec![
        0x11, 0x22, 0x33, 0x44, 0x55, 0x66, 0x77, 0x88, 0x99, 0xaa, 0xbb, 0xcc, 0xdd, 0xee,
        0xff, 0x00, 0x11, 0x22, 0x33, 0x44,
    ];
    let addr_str = "112233445566778899aabbccddeeff0011223344".to_string();
    let test_addr = Address::test_create_address(&addr_vec);

    assert_eq!(Address::from_hex(addr_str.as_str()), Ok(test_addr));
    assert_eq!(Address::from_vec(&addr_vec), Ok(test_addr));
}

#[test]
pub fn address_try_from_incorrect() {
    let addr_vec_too_short: Vec<u8> = vec![
        0x11, 0x22, 0x33, 0x44, 0x55, 0x66, 0x77, 0x88, 0x99, 0xaa, 0xbb, 0xcc, 0xdd, 0xee,
        0xff, 0x00, 0x11, 0x22, 0x33,
    ];
    let addr_vec_too_long: Vec<u8> = vec![
        0x11, 0x22, 0x33, 0x44, 0x55, 0x66, 0x77, 0x88, 0x99, 0xaa, 0xbb, 0xcc, 0xdd, 0xee,
        0xff, 0x00, 0x11, 0x22, 0x33, 0x44, 0xff,
    ];
    let addr_str_short = "112233445566778899aabbccddeeff00112233";
    let addr_str_long = "112233445566778899aabbccddeeff0011223344ff";

    assert!(Address::from_vec(&addr_vec_too_short).is_err());
    assert!(Address::from_vec(&addr_vec_too_long).is_err());

    assert!(Address::from_hex(addr_str_short).is_err());
    assert!(Address::from_hex(addr_str_long).is_err());

    assert!(Address::from_hex("not hex at all!").is_err());
    assert!(Address::from_hex("11223344556677, 899aabbccddeeff00112233").is_err());
}

#[test]
pub fn address_to_string_vec() {
    let addr_vec: Vec<u8> = vec![
        0x11, 0x22, 0x33, 0x44, 0x55, 0x66, 0x77, 0x88, 0x99, 0xaa, 0xbb, 0xcc, 0xdd, 0xee,
        0xff, 0x00, 0x11, 0x22, 0x33, 0x44,
    ];
    let address = Address::test_create_address(&addr_vec);

    assert_eq!(
        address.to_string(),
        "112233445566778899aabbccddeeff0011223344"
    );
    assert_eq!(address.to_vec(), addr_vec);
}

#[test]
pub fn address_hex_round_trip_mixed_case() {
    let upper = "112233445566778899AABBCCDDEEFF0011223344";
    let address = Address::from_hex(upper).unwrap();
    assert_eq!(address.to_string(), upper.to_lowercase());
}

#[test]
pub fn address_default_is_zero() {
    let address = Address::default();
    assert_eq!(address.to_vec(), vec![0u8; 20]);
    assert_eq!(address.to_string(), "0000000000000000000000000000000000000000");
}
