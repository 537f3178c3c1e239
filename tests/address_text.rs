use duopow::address::{digits_match_checksum, Address, AddressError};

fn bytes_of(hex: &str) -> [u8; 20] {
    let mut out = [0u8; 20];
    for i in 0..20 {
        out[i] = u8::from_str_radix(&hex[2 * i..2 * i + 2], 16).unwrap();
    }
    out
}

#[test]
fn parses_lower_case_address() {
    let a = Address::parse("0x5aaeb6053f3e94c9b9a09f33669435e7ef1beaed").unwrap();
    assert_eq!(a.bytes, bytes_of("5aaeb6053f3e94c9b9a09f33669435e7ef1beaed"));
}

#[test]
fn parses_upper_case_address() {
    let a = Address::parse("0x5AAEB6053F3E94C9B9A09F33669435E7EF1BEAED").unwrap();
    assert_eq!(a.bytes, bytes_of("5aaeb6053f3e94c9b9a09f33669435e7ef1beaed"));
}

#[test]
fn parses_checksummed_address() {
    for text in [
        "0x5aAeb6053F3E94C9b9A09f33669435E7Ef1BeAed",
        "0xfB6916095ca1df60bB79Ce92cE3Ea74c37c5d359",
        "0xdbF03B407c01E7cD3CBea99509d93f8DDDC8C6FB",
        "0xD1220A0cf47c7B9Be7A2E6BA89F429762e7b9aDb",
    ] {
        let a = Address::parse(text).unwrap();
        assert_eq!(a.bytes, bytes_of(&text[2..].to_lowercase()));
    }
}

#[test]
fn parses_address_without_prefix() {
    let a = Address::parse("5aAeb6053F3E94C9b9A09f33669435E7Ef1BeAed").unwrap();
    assert_eq!(a.bytes, bytes_of("5aaeb6053f3e94c9b9a09f33669435e7ef1beaed"));
}

#[test]
fn rejects_wrong_checksum() {
    assert_eq!(
        Address::parse("0x5AAeb6053F3E94C9b9A09f33669435E7Ef1BeAed"),
        Err(AddressError::BadChecksum)
    );
}

#[test]
fn rejects_malformed_address_text() {
    assert_eq!(Address::parse(""), Err(AddressError::Malformed));
    assert_eq!(Address::parse("0x"), Err(AddressError::Malformed));
    assert_eq!(
        Address::parse("0x5aaeb6053f3e94c9b9a09f33669435e7ef1bea"),
        Err(AddressError::Malformed)
    );
    assert_eq!(
        Address::parse("0x5aaeb6053f3e94c9b9a09f33669435e7ef1beaed00"),
        Err(AddressError::Malformed)
    );
    assert_eq!(
        Address::parse("0x5aaeb6053f3e94c9b9a09f33669435e7ef1beaeg"),
        Err(AddressError::Malformed)
    );
    assert_eq!(
        Address::parse(" 0x5aaeb6053f3e94c9b9a09f33669435e7ef1beaed"),
        Err(AddressError::Malformed)
    );
}

#[test]
fn address_equality_ignores_text_case() {
    let a = Address::parse("0x5aAeb6053F3E94C9b9A09f33669435E7Ef1BeAed").unwrap();
    let b = Address::parse("0x5aaeb6053f3e94c9b9a09f33669435e7ef1beaed").unwrap();
    let c = Address::parse("0x1111111111111111111111111111111111111111").unwrap();
    assert!(a.same_as(&b));
    assert_eq!(a, b);
    assert!(!a.same_as(&c));
    assert_ne!(a, c);
}

#[test]
fn zero_address_is_zero() {
    assert!(Address { bytes: [0u8; 20] }.is_zero());
    let mut bytes = [0u8; 20];
    bytes[19] = 1;
    assert!(!Address { bytes }.is_zero());
}

#[test]
fn digits_compare_with_checksum_text() {
    let cs = "0x5aAeb6053F3E94C9b9A09f33669435E7Ef1BeAed";
    assert!(digits_match_checksum(cs, cs));
    assert!(digits_match_checksum("5aAeb6053F3E94C9b9A09f33669435E7Ef1BeAed", cs));
    assert!(!digits_match_checksum("0x5aaeb6053f3e94c9b9a09f33669435e7ef1beaed", cs));
    assert!(!digits_match_checksum("0x5aAeb6053F3E94C9b9A09f33669435E7Ef1BeA", cs));
    assert!(!digits_match_checksum(cs, "5aAeb6053F3E94C9b9A09f33669435E7Ef1BeAed"));
}
