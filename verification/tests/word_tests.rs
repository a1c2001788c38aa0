use test_infra::word::Word;

#[test]
fn from_u64_fills_the_last_eight_bytes() {
    let word = Word::from_u64(0x0102030405060708);
    let mut expected = [0u8; 32];
    expected[24..].copy_from_slice(&[1, 2, 3, 4, 5, 6, 7, 8]);
    assert_eq!(word.bytes, expected);
    assert_eq!(Word::from_u64(0), Word::zero());
}

#[test]
fn low_u32_is_the_last_four_bytes() {
    assert_eq!(Word::from_u64(0x1_0000_0005).low_u32(), 5);
    assert_eq!(Word::from_u64(u64::MAX).low_u32(), u32::MAX);
    assert_eq!(Word::from_be_bytes([0xab; 32]).low_u32(), 0xabababab);
    assert_eq!(Word::zero().low_u32(), 0);
}

#[test]
fn to_u32_refuses_what_does_not_fit() {
    assert_eq!(Word::from_u64(100).to_u32(), Some(100));
    assert_eq!(Word::from_u64(u32::MAX as u64).to_u32(), Some(u32::MAX));
    assert_eq!(Word::from_u64(u32::MAX as u64 + 1).to_u32(), None);
    let mut bytes = [0u8; 32];
    bytes[0] = 1;
    bytes[31] = 100;
    assert_eq!(Word::from_be_bytes(bytes).to_u32(), None);
}

#[test]
fn fits_u64_at_the_boundary() {
    assert!(Word::from_u64(u64::MAX).fits_u64());
    assert!(Word::zero().fits_u64());
    let mut bytes = [0u8; 32];
    bytes[23] = 1;
    assert!(!Word::from_be_bytes(bytes).fits_u64());
    bytes = [0u8; 32];
    bytes[0] = 0x80;
    assert!(!Word::from_be_bytes(bytes).fits_u64());
}
