use lighthouse::{ClientID, DeviceID, DevicePassword, Error};

#[test]
fn client_id_hex_is_canonical_lowercase() {
    let id = ClientID::from_bytes([
        0x00, 0x01, 0x0a, 0x0f, 0x10, 0x7f, 0x80, 0xab, 0xcd, 0xef, 0x12, 0x34, 0x56, 0x78, 0x9a,
        0xbc,
    ]);
    assert_eq!(id.to_hex(), "00010a0f107f80abcdef123456789abc");
}

#[test]
fn client_id_hex_round_trip() {
    let bytes = [
        0xde, 0xad, 0xbe, 0xef, 0x00, 0x11, 0x22, 0x33, 0x44, 0x55, 0x66, 0x77, 0x88, 0x99, 0xaa,
        0xbb,
    ];
    let id = ClientID::from_bytes(bytes);
    let hex = id.to_hex();
    let back = ClientID::try_from(hex.as_bytes()).unwrap();
    assert_eq!(back.into_bytes(), bytes);
}

#[test]
fn client_id_accepts_uppercase_hex() {
    let id = ClientID::try_from(b"DEADBEEF00112233445566778899AABB".as_slice()).unwrap();
    assert_eq!(id.to_hex(), "deadbeef00112233445566778899aabb");
}

#[test]
fn client_id_rejects_wrong_length() {
    assert_eq!(
        ClientID::try_from(b"abcd".as_slice()),
        Err(Error::InvalidSize {
            expected: 16,
            received: 2
        })
    );
    assert_eq!(
        ClientID::try_from(b"".as_slice()),
        Err(Error::InvalidSize {
            expected: 16,
            received: 0
        })
    );
    // 34 hex digits: one byte too many
    assert_eq!(
        ClientID::try_from(b"00010a0f107f80abcdef123456789abc00".as_slice()),
        Err(Error::InvalidSize {
            expected: 16,
            received: 17
        })
    );
}

#[test]
fn client_id_rejects_non_hex() {
    assert!(ClientID::try_from(b"zz010a0f107f80abcdef123456789abc".as_slice()).is_err());
}

#[test]
fn client_id_default_is_zero() {
    let id = ClientID::default();
    assert_eq!(id.into_bytes(), [0u8; 16]);
    assert_eq!(id.to_hex(), "00000000000000000000000000000000");
}

#[test]
fn client_id_random_has_fixed_size() {
    let id = ClientID::random();
    assert_eq!(id.to_hex().len(), 32);
}

#[test]
fn device_id_parses_and_encodes() {
    let d = DeviceID::try_from(b"000102030405060708090a0b0c0d0e0f".as_slice()).unwrap();
    assert_eq!(
        d.into_bytes(),
        [0, 1, 2, 3, 4, 5, 6, 7, 8, 9, 10, 11, 12, 13, 14, 15]
    );
    assert_eq!(d.to_hex(), "000102030405060708090a0b0c0d0e0f");
}

#[test]
fn device_id_equality_is_structural() {
    let a = DeviceID::from_bytes([7u8; 16]);
    let b = DeviceID::from_bytes([7u8; 16]);
    let c = DeviceID::from_bytes([8u8; 16]);
    assert!(a.equals(&b));
    assert!(!a.equals(&c));
}

#[test]
fn device_password_equality_is_structural() {
    let a = DevicePassword::from_bytes(b"hunter2".to_vec());
    let b = DevicePassword::from_bytes(b"hunter2".to_vec());
    let c = DevicePassword::from_bytes(b"hunter3".to_vec());
    let d = DevicePassword::from_bytes(b"hunter".to_vec());
    assert!(a.equals(&b));
    assert!(!a.equals(&c));
    assert!(!a.equals(&d));
}
