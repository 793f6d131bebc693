use thrift_codec::data::{Data, DataKind, Double, Elements, Field, List, Struct, TMap, TSet, Uuid};
use thrift_codec::{BinaryDecode, BinaryEncode, CompactDecode, CompactEncode, ErrorKind};

fn binary<T: BinaryEncode>(value: T) -> Vec<u8> {
    let mut buf = Vec::new();
    value.binary_encode(&mut buf).unwrap();
    buf
}

fn compact<T: CompactEncode>(value: T) -> Vec<u8> {
    let mut buf = Vec::new();
    value.compact_encode(&mut buf).unwrap();
    buf
}

fn binary_kind<T: BinaryDecode + std::fmt::Debug>(bytes: &[u8]) -> ErrorKind {
    T::binary_decode(&mut &bytes[..]).unwrap_err().kind()
}

fn compact_kind<T: CompactDecode + std::fmt::Debug>(bytes: &[u8]) -> ErrorKind {
    T::compact_decode(&mut &bytes[..]).unwrap_err().kind()
}

#[test]
fn binary_scalars() {
    assert_eq!(binary(true), [1]);
    assert_eq!(binary(false), [0]);
    assert_eq!(binary(-1i8), [0xFF]);
    assert_eq!(binary(0x12i8), [0x12]);
    assert_eq!(binary(0x1234i16), [0x12, 0x34]);
    assert_eq!(binary(-2i16), [0xFF, 0xFE]);
    assert_eq!(binary(0x1234_5678i32), [0x12, 0x34, 0x56, 0x78]);
    assert_eq!(binary(i32::MIN), [0x80, 0, 0, 0]);
    assert_eq!(
        binary(0x0102_0304_0506_0708i64),
        [1, 2, 3, 4, 5, 6, 7, 8]
    );
    assert_eq!(binary(-1i64), [0xFF; 8]);
    assert_eq!(binary(&b"abc"[..]), [0, 0, 0, 3, b'a', b'b', b'c']);
    assert_eq!(binary(&b""[..]), [0, 0, 0, 0]);
}

#[test]
fn compact_scalars() {
    assert_eq!(compact(true), [1]);
    assert_eq!(compact(false), [0]);
    assert_eq!(compact(-1i8), [0xFF]);
    assert_eq!(compact(1i16), [2]);
    assert_eq!(compact(-1i16), [1]);
    assert_eq!(compact(i16::MIN), [0xFF, 0xFF, 0x03]);
    assert_eq!(compact(2i32), [4]);
    assert_eq!(compact(-2i32), [3]);
    assert_eq!(compact(64i32), [0x80, 0x01]);
    assert_eq!(compact(i32::MIN), [0xFF, 0xFF, 0xFF, 0xFF, 0x0F]);
    assert_eq!(compact(i32::MAX), [0xFE, 0xFF, 0xFF, 0xFF, 0x0F]);
    assert_eq!(compact(0i64), [0]);
    assert_eq!(
        compact(i64::MIN),
        [0xFF, 0xFF, 0xFF, 0xFF, 0xFF, 0xFF, 0xFF, 0xFF, 0xFF, 0x01]
    );
    assert_eq!(compact(&b"abc"[..]), [3, b'a', b'b', b'c']);
    assert_eq!(compact(&b""[..]), [0]);
}

#[test]
fn double_endianness() {
    let one = Double::from_bits(1.0f64.to_bits());
    assert_eq!(compact(one), [0x00, 0x00, 0x00, 0x00, 0x00, 0x00, 0xF0, 0x3F]);
    assert_eq!(binary(one), [0x3F, 0xF0, 0x00, 0x00, 0x00, 0x00, 0x00, 0x00]);
    assert_eq!(compact(Data::Double(one)), 1.0f64.to_le_bytes());
    assert_eq!(binary(Data::Double(one)), 1.0f64.to_be_bytes());

    let pi = std::f64::consts::PI;
    let bytes = binary(Double::from_bits(pi.to_bits()));
    let back = Double::binary_decode(&mut &bytes[..]).unwrap();
    assert_eq!(f64::from_bits(back.to_bits()), pi);
    let bytes = compact(Double::from_bits(pi.to_bits()));
    let back = Double::compact_decode(&mut &bytes[..]).unwrap();
    assert_eq!(f64::from_bits(back.to_bits()), pi);

    let nan = Double::from_bits(0x7FF8_0000_0000_0001);
    let bytes = compact(nan);
    assert_eq!(Double::compact_decode(&mut &bytes[..]).unwrap(), nan);
    assert_eq!(binary_kind::<Double>(&[0; 7]), ErrorKind::Other);
    assert_eq!(compact_kind::<Double>(&[0; 7]), ErrorKind::Other);
}

#[test]
fn binary_scalars_read_back() {
    assert_eq!(bool::binary_decode(&mut &[1][..]).unwrap(), true);
    assert_eq!(bool::binary_decode(&mut &[0][..]).unwrap(), false);
    assert_eq!(i8::binary_decode(&mut &[0x80][..]).unwrap(), i8::MIN);
    assert_eq!(i16::binary_decode(&mut &[0x80, 0x01][..]).unwrap(), -32767);
    assert_eq!(i16::binary_decode(&mut &[0x12, 0x34, 9][..]).unwrap(), 0x1234);
    assert_eq!(
        i32::binary_decode(&mut &[0xFF, 0xFF, 0xFF, 0xFE][..]).unwrap(),
        -2
    );
    assert_eq!(
        i64::binary_decode(&mut &[0x80, 0, 0, 0, 0, 0, 0, 1][..]).unwrap(),
        i64::MIN + 1
    );
    let mut reader = &[0, 0, 0, 2, 7, 8, 9][..];
    assert_eq!(Vec::<u8>::binary_decode(&mut reader).unwrap(), [7, 8]);
    assert_eq!(reader, &[9]);
    for v in [i64::MIN, -1, 0, 1, i64::MAX, 0x0102_0304_0506_0708] {
        assert_eq!(i64::binary_decode(&mut &binary(v)[..]).unwrap(), v);
    }
    for v in [i32::MIN, -1, 0, 1, i32::MAX] {
        assert_eq!(i32::binary_decode(&mut &binary(v)[..]).unwrap(), v);
    }
    for v in [i16::MIN, -1, 0, 1, i16::MAX] {
        assert_eq!(i16::binary_decode(&mut &binary(v)[..]).unwrap(), v);
    }
    for v in [i8::MIN, -1, 0, 1, i8::MAX] {
        assert_eq!(i8::binary_decode(&mut &binary(v)[..]).unwrap(), v);
    }
}

#[test]
fn compact_scalars_read_back() {
    for v in [i64::MIN, -1, 0, 1, i64::MAX, 0x0102_0304_0506_0708] {
        assert_eq!(i64::compact_decode(&mut &compact(v)[..]).unwrap(), v);
    }
    for v in [i32::MIN, -1, 0, 1, i32::MAX] {
        assert_eq!(i32::compact_decode(&mut &compact(v)[..]).unwrap(), v);
    }
    for v in [i16::MIN, -1, 0, 1, i16::MAX] {
        assert_eq!(i16::compact_decode(&mut &compact(v)[..]).unwrap(), v);
    }
    for v in [i8::MIN, -1, 0, 1, i8::MAX] {
        assert_eq!(i8::compact_decode(&mut &compact(v)[..]).unwrap(), v);
    }
    let mut reader = &[2, 7, 8, 9][..];
    assert_eq!(Vec::<u8>::compact_decode(&mut reader).unwrap(), [7, 8]);
    assert_eq!(reader, &[9]);
}

#[test]
fn malformed_scalars() {
    assert_eq!(binary_kind::<bool>(&[2]), ErrorKind::InvalidInput);
    assert_eq!(binary_kind::<bool>(&[0xFF]), ErrorKind::InvalidInput);
    assert_eq!(compact_kind::<bool>(&[2]), ErrorKind::InvalidInput);
    assert_eq!(binary_kind::<bool>(&[]), ErrorKind::Other);
    assert_eq!(binary_kind::<i8>(&[]), ErrorKind::Other);
    assert_eq!(binary_kind::<i16>(&[1]), ErrorKind::Other);
    assert_eq!(binary_kind::<i32>(&[1, 2, 3]), ErrorKind::Other);
    assert_eq!(binary_kind::<i64>(&[1, 2, 3, 4, 5, 6, 7]), ErrorKind::Other);
    // a negative length
    assert_eq!(
        binary_kind::<Vec<u8>>(&[0x80, 0, 0, 0]),
        ErrorKind::InvalidInput
    );
    assert_eq!(
        binary_kind::<Vec<u8>>(&[0xFF, 0xFF, 0xFF, 0xFF, 1, 2]),
        ErrorKind::InvalidInput
    );
    // a length beyond the input: nothing is allocated for it
    assert_eq!(
        binary_kind::<Vec<u8>>(&[0x7F, 0xFF, 0xFF, 0xFF, 1, 2]),
        ErrorKind::Other
    );
    assert_eq!(
        compact_kind::<Vec<u8>>(&[0xFF, 0xFF, 0xFF, 0xFF, 0x07, 1, 2]),
        ErrorKind::Other
    );
    // a length over the cap
    assert_eq!(
        compact_kind::<Vec<u8>>(&[0x80, 0x80, 0x80, 0x80, 0x08]),
        ErrorKind::InvalidInput
    );
    // an i16 that does not fit
    assert_eq!(
        compact_kind::<i16>(&compact(0x8000i32)),
        ErrorKind::InvalidInput
    );
    assert_eq!(
        compact_kind::<i16>(&compact(-0x8001i32)),
        ErrorKind::InvalidInput
    );
    // an i32 of more than five bytes or more than 32 bits
    assert_eq!(
        compact_kind::<i32>(&[0x80, 0x80, 0x80, 0x80, 0x80, 0x00]),
        ErrorKind::InvalidInput
    );
    assert_eq!(
        compact_kind::<i32>(&[0xFF, 0xFF, 0xFF, 0xFF, 0x1F]),
        ErrorKind::InvalidInput
    );
    // an i64 of more than ten bytes
    assert_eq!(
        compact_kind::<i64>(&[0x80; 11]),
        ErrorKind::InvalidInput
    );
    assert_eq!(compact_kind::<i64>(&[0x80; 9]), ErrorKind::Other);
}

#[test]
fn binary_containers() {
    let list = List::from(vec![1i16, 2]);
    assert_eq!(binary(list.clone()), [6, 0, 0, 0, 2, 0, 1, 0, 2]);
    assert_eq!(binary(TSet::from(vec![1i16, 2])), binary(list));
    let map = TMap::from_keys_and_values(
        Elements::from(vec![true, false]),
        Elements::from(vec![7i8, 8]),
    )
    .unwrap();
    assert_eq!(binary(map), [2, 3, 0, 0, 0, 2, 1, 7, 0, 8]);
    let s = Struct::new(vec![Field::new(1, 5i8), Field::new(-2, true)]);
    assert_eq!(binary(s), [3, 0, 1, 5, 2, 0xFF, 0xFE, 1, 0]);
    assert_eq!(binary(Struct::new(vec![])), [0]);
}

#[test]
fn binary_empty_map_needs_kinds() {
    let mut buf = vec![1, 2, 3];
    let err = TMap::empty().binary_encode(&mut buf).unwrap_err();
    assert_eq!(err.kind(), ErrorKind::InvalidInput);
    assert_eq!(buf, [1, 2, 3]);

    let kinded =
        TMap::from_keys_and_values(Elements::new(DataKind::I32), Elements::new(DataKind::Bool))
            .unwrap();
    let bytes = binary(kinded.clone());
    assert_eq!(bytes, [8, 2, 0, 0, 0, 0]);
    assert_eq!(TMap::binary_decode(&mut &bytes[..]).unwrap(), kinded);

    // the failure comes from wherever the map stands
    let nested = Struct::from((1, List::from(vec![TMap::empty()])));
    let mut buf = vec![9];
    assert_eq!(
        nested.binary_encode(&mut buf).unwrap_err().kind(),
        ErrorKind::InvalidInput
    );
    // a failed encoding leaves the writer as it was
    assert_eq!(buf, [9]);
    let message = thrift_codec::message::Message::call("m", 1, nested.clone());
    assert_eq!(
        message.binary_encode(&mut buf).unwrap_err().kind(),
        ErrorKind::InvalidInput
    );
    assert_eq!(buf, [9]);
    let mut buf = Vec::new();
    assert!(nested.compact_encode(&mut buf).is_ok());
}

#[test]
fn compact_empty_map_is_one_zero_byte() {
    assert_eq!(compact(TMap::empty()), [0x00]);
    let mut reader = &[0x00, 0x55][..];
    let map = TMap::compact_decode(&mut reader).unwrap();
    assert_eq!(map, TMap::empty());
    assert!(map.is_empty());
    assert_eq!(map.key_kind(), None);
    assert_eq!(map.value_kind(), None);
    assert_eq!(reader, &[0x55]);

    // a map with kinds but without entries is written the same way, and so
    // reads back without its kinds
    let kinded =
        TMap::from_keys_and_values(Elements::new(DataKind::I32), Elements::new(DataKind::Bool))
            .unwrap();
    assert_eq!(compact(kinded), [0x00]);
}

#[test]
fn compact_map_bytes() {
    let map = TMap::from_keys_and_values(
        Elements::from(vec![1i32, 2]),
        Elements::from(vec![true, false]),
    )
    .unwrap();
    let bytes = compact(map.clone());
    assert_eq!(bytes, [2, 0x82, 2, 1, 4, 0]);
    assert_eq!(TMap::compact_decode(&mut &bytes[..]).unwrap(), map);
    assert_eq!(compact_kind::<TMap>(&[1, 0x12, 0, 0]), ErrorKind::InvalidInput);
    assert_eq!(compact_kind::<TMap>(&[1, 0x21, 0, 0]), ErrorKind::InvalidInput);
    assert_eq!(compact_kind::<TMap>(&[]), ErrorKind::Other);
    assert_eq!(compact_kind::<TMap>(&[1]), ErrorKind::Other);
    assert_eq!(compact_kind::<TMap>(&[2, 0x82, 2, 1, 4]), ErrorKind::Other);
}

#[test]
fn compact_list_headers() {
    let short = List::from(vec![1i32; 14]);
    let bytes = compact(short.clone());
    assert_eq!(bytes[0], 0xE8);
    assert_eq!(bytes.len(), 15);
    assert_eq!(List::compact_decode(&mut &bytes[..]).unwrap(), short);

    let long = List::from((0..15).collect::<Vec<i32>>());
    let bytes = compact(long.clone());
    assert_eq!(&bytes[..2], &[0xF8, 0x1E]);
    assert_eq!(bytes.len(), 2 + 15);
    assert_eq!(List::compact_decode(&mut &bytes[..]).unwrap(), long);

    let longer = TSet::from(vec![true; 300]);
    let bytes = compact(longer.clone());
    assert_eq!(&bytes[..3], &[0xF2, 0xD8, 0x04]);
    assert_eq!(TSet::compact_decode(&mut &bytes[..]).unwrap(), longer);

    assert_eq!(compact(List::new(Elements::new(DataKind::Struct))), [0x0C]);
    // a long form that holds less than fifteen, or a negative count
    assert_eq!(compact_kind::<List>(&[0xF8, 0x1C]), ErrorKind::InvalidInput);
    assert_eq!(compact_kind::<List>(&[0xF8, 0x0F]), ErrorKind::InvalidInput);
    // the code of no kind
    assert_eq!(compact_kind::<List>(&[0x11, 0]), ErrorKind::InvalidInput);
    assert_eq!(compact_kind::<TSet>(&[0x00]), ErrorKind::InvalidInput);
    // more elements announced than there are
    assert_eq!(compact_kind::<List>(&[0x32, 1, 0]), ErrorKind::Other);
}

#[test]
fn compact_struct_headers() {
    // identifiers that grow by at most 15: one header byte for each field
    let s = Struct::new(vec![
        Field::new(1, 1i8),
        Field::new(2, 2i8),
        Field::new(17, 3i8),
        Field::new(32, true),
        Field::new(33, false),
    ]);
    let bytes = compact(s.clone());
    assert_eq!(bytes, [0x13, 1, 0x13, 2, 0xF3, 3, 0xF1, 0x12, 0]);
    assert_eq!(Struct::compact_decode(&mut &bytes[..]).unwrap(), s);

    // a gap of 16, a repeated and a falling identifier: the long form
    let s = Struct::new(vec![
        Field::new(16, 1i8),
        Field::new(16, 2i8),
        Field::new(3, 3i8),
        Field::new(-1, true),
        Field::new(0, 4i8),
    ]);
    let bytes = compact(s.clone());
    assert_eq!(
        bytes,
        [0x03, 32, 1, 0x03, 32, 2, 0x03, 6, 3, 0x01, 1, 0x13, 4, 0]
    );
    assert_eq!(Struct::compact_decode(&mut &bytes[..]).unwrap(), s);

    let s = Struct::new(vec![Field::new(i16::MIN, 1i8), Field::new(i16::MAX, 2i8)]);
    let bytes = compact(s.clone());
    assert_eq!(Struct::compact_decode(&mut &bytes[..]).unwrap(), s);
}

#[test]
fn compact_struct_field_kinds() {
    let s = Struct::new(vec![
        Field::new(1, true),
        Field::new(2, 1i8),
        Field::new(3, 1i16),
        Field::new(4, 1i32),
        Field::new(5, 1i64),
        Field::new(6, Double::from_bits(0)),
        Field::new(7, "a"),
        Field::new(8, List::from(vec![true])),
        Field::new(9, TSet::from(vec![true])),
        Field::new(10, TMap::empty()),
        Field::new(11, Struct::new(vec![])),
        Field::new(12, false),
    ]);
    let bytes = compact(s.clone());
    assert_eq!(
        bytes,
        [
            0x11, 0x13, 1, 0x14, 2, 0x15, 2, 0x16, 2, 0x17, 0, 0, 0, 0, 0, 0, 0, 0, 0x18, 1,
            b'a', 0x19, 0x12, 1, 0x1A, 0x12, 1, 0x1B, 0, 0x1C, 0, 0x12, 0
        ]
    );
    assert_eq!(Struct::compact_decode(&mut &bytes[..]).unwrap(), s);
}

#[test]
fn malformed_structs() {
    // the code of no kind
    assert_eq!(binary_kind::<Struct>(&[1, 0, 1, 0]), ErrorKind::InvalidInput);
    assert_eq!(binary_kind::<Struct>(&[16, 0, 1, 0]), ErrorKind::InvalidInput);
    assert_eq!(compact_kind::<Struct>(&[0x1D, 0]), ErrorKind::InvalidInput);
    assert_eq!(compact_kind::<Struct>(&[0x10, 0]), ErrorKind::InvalidInput);
    assert_eq!(compact_kind::<Struct>(&[0x0F, 2, 0]), ErrorKind::InvalidInput);
    // an identifier that leaves the i16 range
    let mut bytes = compact(Struct::new(vec![Field::new(i16::MAX, true)]));
    bytes.pop();
    bytes.extend_from_slice(&[0x11, 0]);
    assert_eq!(compact_kind::<Struct>(&bytes), ErrorKind::InvalidInput);
    // no end
    assert_eq!(binary_kind::<Struct>(&[]), ErrorKind::Other);
    assert_eq!(binary_kind::<Struct>(&[2, 0, 1, 1]), ErrorKind::Other);
    assert_eq!(compact_kind::<Struct>(&[0x11]), ErrorKind::Other);
    // a byte is accepted for an `i8`
    let s = Struct::binary_decode(&mut &[3, 0, 1, 0xFF, 0][..]).unwrap();
    assert_eq!(s, Struct::new(vec![Field::new(1, -1i8)]));
}

#[test]
fn malformed_containers() {
    // negative sizes
    assert_eq!(
        binary_kind::<List>(&[8, 0xFF, 0xFF, 0xFF, 0xFF]),
        ErrorKind::InvalidInput
    );
    assert_eq!(
        binary_kind::<TSet>(&[8, 0x80, 0, 0, 0]),
        ErrorKind::InvalidInput
    );
    assert_eq!(
        binary_kind::<TMap>(&[8, 8, 0xFF, 0xFF, 0xFF, 0xFF]),
        ErrorKind::InvalidInput
    );
    // codes of no kind
    assert_eq!(binary_kind::<List>(&[5, 0, 0, 0, 0]), ErrorKind::InvalidInput);
    assert_eq!(binary_kind::<TMap>(&[8, 9, 0, 0, 0, 0]), ErrorKind::InvalidInput);
    assert_eq!(binary_kind::<TMap>(&[0, 8, 0, 0, 0, 0]), ErrorKind::InvalidInput);
    // a count far beyond the input ends with the input
    assert_eq!(
        binary_kind::<List>(&[2, 0x7F, 0xFF, 0xFF, 0xFF, 1, 0, 1]),
        ErrorKind::Other
    );
    // an invalid boolean among the elements
    assert_eq!(
        binary_kind::<List>(&[2, 0, 0, 0, 2, 1, 2]),
        ErrorKind::InvalidInput
    );
    assert_eq!(compact_kind::<List>(&[0x22, 1, 2]), ErrorKind::InvalidInput);
}

#[test]
fn nested_values_round_trip() {
    let maps = vec![
        TMap::from_keys_and_values(
            Elements::from(vec![List::from(vec![1i64, 2]), List::from(Vec::<i64>::new())]),
            Elements::from(vec![TSet::from(vec![b"x".to_vec()]), TSet::from(vec![vec![], vec![0u8; 200]])]),
        )
        .unwrap(),
        TMap::from_keys_and_values(
            Elements::from(vec![Double::from_bits(1), Double::from_bits(u64::MAX)]),
            Elements::from(vec![Struct::from((1, 2, 3, 4, 5)), Struct::new(vec![])]),
        )
        .unwrap(),
    ];
    let values = vec![
        Data::from(true),
        Data::from(-7i8),
        Data::from(i16::MIN),
        Data::from(i32::MAX),
        Data::from(i64::MIN),
        Data::from(Double::from_bits(0x8000_0000_0000_0000)),
        Data::from("text"),
        Data::from(String::from("owned")),
        Data::from(&[1u8, 2, 3][..]),
        Data::from(vec![0u8; 1000]),
        Data::from(Struct::from((List::from(maps.clone()), "x", false, 7i64))),
        Data::from(maps[0].clone()),
        Data::from(TSet::from(maps.clone())),
        Data::from(List::from(vec![Struct::from((maps[1].clone(),)); 20])),
    ];
    for value in values {
        let bytes = binary(value.clone());
        let mut reader = &bytes[..];
        let back = thrift_codec::binary::decode::decode_data(&mut reader, value.kind()).unwrap();
        assert!(reader.is_empty());
        assert_eq!(back, value);

        let bytes = compact(value.as_ref());
        let mut reader = &bytes[..];
        let back = thrift_codec::compact::decode::decode_data(&mut reader, value.kind()).unwrap();
        assert!(reader.is_empty());
        assert_eq!(back, value);
    }
}

#[test]
fn uuid_is_sixteen_bytes() {
    let uuid = Uuid::new(*b"0123456789abcdef");
    assert_eq!(uuid.get(), *b"0123456789abcdef");
    let mut reader = &b"0123456789abcdef!"[..];
    assert_eq!(Uuid::binary_decode(&mut reader).unwrap(), uuid);
    assert_eq!(reader, b"!");
    assert_eq!(Uuid::compact_decode(&mut &b"0123456789abcdef"[..]).unwrap(), uuid);
    assert_eq!(binary_kind::<Uuid>(b"0123456789abcde"), ErrorKind::Other);
}

#[test]
fn decoders_stop_where_they_fail() {
    // an invalid boolean, third of four elements
    let bytes = [2, 0, 0, 0, 4, 1, 0, 7, 1];
    let mut reader = &bytes[..];
    assert_eq!(
        List::binary_decode(&mut reader).unwrap_err().kind(),
        ErrorKind::InvalidInput
    );
    assert_eq!(bytes.len() - reader.len(), 8);

    // the input ends inside the second field
    let bytes = [8, 0, 1, 0, 0, 0, 5, 8, 0, 2, 0, 0];
    let mut reader = &bytes[..];
    assert_eq!(
        Struct::binary_decode(&mut reader).unwrap_err().kind(),
        ErrorKind::Other
    );
    assert_eq!(bytes.len() - reader.len(), 10);

    // the code of no kind in a field header, after one good field
    let bytes = [0x11, 0x1D, 0];
    let mut reader = &bytes[..];
    assert_eq!(
        Struct::compact_decode(&mut reader).unwrap_err().kind(),
        ErrorKind::InvalidInput
    );
    assert_eq!(bytes.len() - reader.len(), 2);

    // a varint that goes on after its fifth byte
    let bytes = [0x80, 0x80, 0x80, 0x80, 0x80, 0x80, 0x00];
    let mut reader = &bytes[..];
    assert_eq!(
        i32::compact_decode(&mut reader).unwrap_err().kind(),
        ErrorKind::InvalidInput
    );
    assert_eq!(bytes.len() - reader.len(), 5);

    // a negative length
    let bytes = [0xFF, 0xFF, 0xFF, 0xFF, 1, 2, 3];
    let mut reader = &bytes[..];
    assert_eq!(
        Vec::<u8>::binary_decode(&mut reader).unwrap_err().kind(),
        ErrorKind::InvalidInput
    );
    assert_eq!(reader, &[1, 2, 3]);

    // a length beyond the input
    let bytes = [0, 0, 0, 9, 1, 2, 3];
    let mut reader = &bytes[..];
    assert_eq!(
        Vec::<u8>::binary_decode(&mut reader).unwrap_err().kind(),
        ErrorKind::Other
    );
    assert_eq!(reader, &[1, 2, 3]);
}
