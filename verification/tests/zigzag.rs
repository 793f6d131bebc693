use thrift_codec::zigzag;

#[test]
fn zigzag_zigzag_works() {
    assert_eq!(zigzag::from_i32(0), 0);
    assert_eq!(zigzag::from_i32(-1), 1);
    assert_eq!(zigzag::from_i32(1), 2);
    assert_eq!(zigzag::from_i32(-2), 3);
    assert_eq!(zigzag::from_i32(2), 4);

    assert_eq!(zigzag::to_i32(0), 0);
    assert_eq!(zigzag::to_i32(1), -1);
    assert_eq!(zigzag::to_i32(2), 1);
    assert_eq!(zigzag::to_i32(3), -2);
    assert_eq!(zigzag::to_i32(4), 2);
}

#[test]
fn compact_encode_zigzag_works() {
    assert_eq!(zigzag::i32_to_zigzag(0), 0);
    assert_eq!(zigzag::i32_to_zigzag(-1), 1);
    assert_eq!(zigzag::i32_to_zigzag(1), 2);
    assert_eq!(zigzag::i32_to_zigzag(-2), 3);
    assert_eq!(zigzag::i32_to_zigzag(2), 4);
}
