//! Identifier codec scenarios: the fixed 16-byte big-endian encoding, the
//! canonical decimal text form, and every rejection case.

use datalink_sqlite::error::Error;
use datalink_sqlite::id::SqlID;

#[test]
fn zero_identifier_is_rejected() {
    assert!(matches!(SqlID::new(0), Err(Error::InvalidID)));
    assert!(SqlID::new(1).is_ok());
}

#[test]
fn bytes_encoding_is_big_endian_sixteen_wide() {
    let id = SqlID::new(1).unwrap();
    assert_eq!(id.to_bytes(), vec![0, 0, 0, 0, 0, 0, 0, 0, 0, 0, 0, 0, 0, 0, 0, 1]);

    let id = SqlID::new(0x0102030405060708090a0b0c0d0e0f10).unwrap();
    assert_eq!(
        id.to_bytes(),
        vec![1, 2, 3, 4, 5, 6, 7, 8, 9, 10, 11, 12, 13, 14, 15, 16]
    );
}

#[test]
fn bytes_round_trip() {
    let id = SqlID::new(0xdeadbeef_00000000_feedface_12345678).unwrap();
    let b = id.to_bytes();
    assert_eq!(b.len(), 16);
    let back = SqlID::from_bytes(&b).unwrap();
    assert_eq!(back, id);
}

#[test]
fn bytes_decoding_rejects_bad_input() {
    // wrong length
    assert!(matches!(SqlID::from_bytes(&vec![1, 2, 3]), Err(Error::InvalidID)));
    // all-zero encoding
    assert!(matches!(SqlID::from_bytes(&vec![0; 16]), Err(Error::InvalidID)));
}

#[test]
fn decimal_parsing_accepts_canonical_text() {
    assert_eq!(SqlID::parse("1").unwrap(), SqlID::new(1).unwrap());
    assert_eq!(SqlID::parse("340282366920938463463374607431768211455").unwrap(),
        SqlID::new(u128::MAX).unwrap());
}

#[test]
fn decimal_parsing_rejects_everything_else() {
    assert!(matches!(SqlID::parse(""), Err(Error::InvalidID)));
    assert!(matches!(SqlID::parse("0"), Err(Error::InvalidID)));
    assert!(matches!(SqlID::parse("01"), Err(Error::InvalidID)));
    assert!(matches!(SqlID::parse("12a"), Err(Error::InvalidID)));
    assert!(matches!(SqlID::parse("-5"), Err(Error::InvalidID)));
    // one past the 128-bit range
    assert!(matches!(
        SqlID::parse("340282366920938463463374607431768211456"),
        Err(Error::InvalidID)
    ));
}

#[test]
fn random_identifiers_are_nonzero_and_distinct() {
    let a = SqlID::new_random();
    let b = SqlID::new_random();
    assert!(a.to_bytes().iter().any(|&x| x != 0));
    assert_ne!(a, b);
}
