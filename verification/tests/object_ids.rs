use webgateway::shared::objectid::{ObjectId, ObjectIdError};

#[test]
fn identifier_is_laid_out_in_three_parts() {
    let id = ObjectId::from_parts(0x0000_0001_6502_0304, [1, 2, 3, 4, 5], 0x1234_5678);
    assert_eq!(id.as_bytes(), &[0x65, 0x02, 0x03, 0x04, 1, 2, 3, 4, 5, 0x34, 0x56, 0x78]);
    assert_eq!(id.timestamp(), 0x6502_0304);
}

#[test]
fn identifier_in_hex_and_back() {
    let id = ObjectId::from_bytes([0x65, 0x02, 0x03, 0x04, 1, 2, 3, 4, 5, 0xaa, 0xbb, 0xcc]);
    assert_eq!(id.to_hex(), "65020304 0102030405 aabbcc".replace(' ', ""));
    assert_eq!(ObjectId::from_hex(&id.to_hex()), Ok(id));
    assert_eq!(ObjectId::from_hex("650203040102030405AABBCC"), Ok(id));
}

#[test]
fn text_that_is_no_identifier_is_refused() {
    assert_eq!(ObjectId::from_hex("xyz"), Err(ObjectIdError::InvalidHex));
    assert_eq!(ObjectId::from_hex("abc"), Err(ObjectIdError::InvalidHex));
    assert_eq!(ObjectId::from_hex("6502030401020304 5aabbcc"), Err(ObjectIdError::InvalidHex));
    assert_eq!(ObjectId::from_hex(""), Err(ObjectIdError::InvalidLength));
    assert_eq!(ObjectId::from_hex("6502"), Err(ObjectIdError::InvalidLength));
    assert_eq!(
        ObjectId::from_hex("650203040102030405aabbccdd"),
        Err(ObjectIdError::InvalidLength)
    );
}

#[test]
fn decoded_bytes_must_be_twelve() {
    assert_eq!(ObjectId::from_decoded(&vec![0; 11]), Err(ObjectIdError::InvalidLength));
    assert_eq!(ObjectId::from_decoded(&vec![7; 12]), Ok(ObjectId::from_bytes([7; 12])));
}

#[test]
fn new_identifier_carries_the_counter_and_the_time() {
    let id = ObjectId::new(0x0102_0304);
    assert_eq!(&id.as_bytes()[9..], &[0x02, 0x03, 0x04]);
    // made after 2020
    assert!(id.timestamp() > 1_577_836_800);
    let other = ObjectId::new(0x0102_0305);
    assert_ne!(id, other);
}

#[test]
fn identifiers_are_ordered_by_their_bytes() {
    let a = ObjectId::from_bytes([0; 12]);
    let b = ObjectId::from_bytes([0, 0, 0, 0, 0, 0, 0, 0, 0, 0, 0, 1]);
    assert!(a < b);
}
