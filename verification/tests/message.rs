use thrift_codec::data::{Data, Elements, Field, List, Struct, TMap, TSet};
use thrift_codec::message::{Message, MessageKind};
use thrift_codec::{BinaryDecode, BinaryEncode, CompactDecode, CompactEncode, ErrorKind};

#[test]
fn it_works() {
    let message = Message::oneway("foo_method", 1, Struct::from(("arg1", 2)));
    let mut buf = Vec::new();
    message.compact_encode(&mut buf).unwrap();
    assert_eq!(
        buf,
        [130, 129, 1, 10, 102, 111, 111, 95, 109, 101, 116,
         104, 111, 100, 24, 4, 97, 114, 103, 49, 21, 4, 0]
    );

    let decoded = Message::compact_decode(&mut &buf[..]).unwrap();
    assert_eq!(decoded, message);
}

#[test]
fn compact_oneway_bytes_decode_to_the_message() {
    let bytes = [
        0x82, 0x81, 0x01, 0x0A, 0x66, 0x6F, 0x6F, 0x5F, 0x6D, 0x65, 0x74, 0x68, 0x6F, 0x64,
        0x18, 0x04, 0x61, 0x72, 0x67, 0x31, 0x15, 0x04, 0x00,
    ];
    assert_eq!(bytes.len(), 23);
    let mut reader = &bytes[..];
    let message = Message::compact_decode(&mut reader).unwrap();
    assert!(reader.is_empty());
    assert_eq!(message.method_name(), "foo_method");
    assert_eq!(message.kind(), MessageKind::Oneway);
    assert_eq!(message.sequence_id(), 1);
    let fields = message.body().fields();
    assert_eq!(fields.len(), 2);
    assert_eq!(fields[0].id(), 1);
    assert_eq!(fields[0].data(), &Data::Binary(b"arg1".to_vec()));
    assert_eq!(fields[1].id(), 2);
    assert_eq!(fields[1].data(), &Data::I32(2));

    let mut again = Vec::new();
    message.compact_encode(&mut again).unwrap();
    assert_eq!(again, bytes);
}

fn sample_body() -> Struct {
    let inner = Struct::from((true, -3i8, 1000i16));
    let map = TMap::from_keys_and_values(
        Elements::from(vec![b"a".to_vec(), b"bc".to_vec()]),
        Elements::from(vec![Struct::from((1i64,)), Struct::from((false, "x"))]),
    )
    .unwrap();
    Struct::new(vec![
        Field::new(1, "arg1"),
        Field::new(2, 2),
        Field::new(17, i64::MIN),
        Field::new(18, false),
        Field::new(40, inner),
        Field::new(-5, map),
        Field::new(-5, TSet::from(vec![1i16, 1, -2])),
        Field::new(0, List::from(vec![List::from(vec![true, false]), List::from(vec![true])])),
        Field::new(i16::MAX, thrift_codec::data::Double::from_bits(0x4009_21FB_5444_2D18)),
        Field::new(i16::MIN, i32::MIN),
    ])
}

#[test]
fn binary_message_round_trip() {
    for message in [
        Message::call("foo_method", -5, sample_body()),
        Message::reply("", i32::MAX, Struct::new(vec![])),
        Message::exception("h\u{e9}llo \u{1F600}", i32::MIN, sample_body()),
        Message::oneway("m", 0, sample_body()),
    ] {
        let mut buf = Vec::new();
        message.binary_encode(&mut buf).unwrap();
        let mut reader = &buf[..];
        let decoded = Message::binary_decode(&mut reader).unwrap();
        assert!(reader.is_empty());
        assert_eq!(decoded, message);
    }
}

#[test]
fn compact_message_round_trip() {
    for message in [
        Message::call("foo_method", -5, sample_body()),
        Message::reply("", i32::MAX, Struct::new(vec![])),
        Message::exception("h\u{e9}llo \u{1F600}", i32::MIN, sample_body()),
        Message::oneway("m", 0, sample_body()),
    ] {
        let mut buf = Vec::new();
        message.compact_encode(&mut buf).unwrap();
        let mut reader = &buf[..];
        let decoded = Message::compact_decode(&mut reader).unwrap();
        assert!(reader.is_empty());
        assert_eq!(decoded, message);
    }
}

#[test]
fn decoding_leaves_what_follows_a_message() {
    let message = Message::call("m", 7, sample_body());
    let mut buf = Vec::new();
    message.binary_encode(&mut buf).unwrap();
    let len = buf.len();
    buf.extend_from_slice(&[1, 2, 3]);
    let mut reader = &buf[..];
    assert_eq!(Message::binary_decode(&mut reader).unwrap(), message);
    assert_eq!(reader, &[1, 2, 3]);
    assert_eq!(buf.len() - reader.len(), len);

    let mut buf = Vec::new();
    message.compact_encode(&mut buf).unwrap();
    buf.extend_from_slice(&[9, 8]);
    let mut reader = &buf[..];
    assert_eq!(Message::compact_decode(&mut reader).unwrap(), message);
    assert_eq!(reader, &[9, 8]);
}

#[test]
fn encoding_appends_to_the_writer() {
    let message = Message::call("m", 7, Struct::from((1,)));
    let mut once = Vec::new();
    message.binary_encode(&mut once).unwrap();
    let mut buf = vec![0xAA, 0xBB];
    message.binary_encode(&mut buf).unwrap();
    assert_eq!(&buf[..2], &[0xAA, 0xBB]);
    assert_eq!(&buf[2..], &once[..]);
}

#[test]
fn binary_envelope_starts_with_version_and_kind() {
    for (message, kind) in [
        (Message::call("a", 1, Struct::new(vec![])), 1u8),
        (Message::reply("a", 1, Struct::new(vec![])), 2),
        (Message::exception("a", 1, Struct::new(vec![])), 3),
        (Message::oneway("a", 1, Struct::new(vec![])), 4),
    ] {
        let mut buf = Vec::new();
        message.binary_encode(&mut buf).unwrap();
        assert_eq!(&buf[..4], &[0x80, 0x01, 0x00, kind]);
    }
}

#[test]
fn binary_message_bytes() {
    let message = Message::call("ab", 0x0102_0304, Struct::from((true,)));
    let mut buf = Vec::new();
    message.binary_encode(&mut buf).unwrap();
    assert_eq!(
        buf,
        [
            0x80, 0x01, 0x00, 0x01, // version, unused, kind
            0, 0, 0, 2, b'a', b'b', // name
            1, 2, 3, 4, // sequence id
            2, 0, 1, 1, // field 1: bool true
            0, // end of struct
        ]
    );
}

#[test]
fn binary_kind_byte_ignores_its_high_bits() {
    let bytes = [0x80, 0x01, 0x55, 0xF8 | 2, 0, 0, 0, 0, 0, 0, 0, 9, 0];
    let message = Message::binary_decode(&mut &bytes[..]).unwrap();
    assert_eq!(message.kind(), MessageKind::Reply);
    assert_eq!(message.method_name(), "");
    assert_eq!(message.sequence_id(), 9);
    assert!(message.body().fields().is_empty());
}

#[test]
fn binary_rejects_bad_envelopes() {
    // the old format, without the top bit of the version word
    let old = [0x00, 0x01, 0, 1, 0, 0, 0, 0, 0, 0, 0, 0, 0];
    assert_eq!(
        Message::binary_decode(&mut &old[..]).unwrap_err().kind(),
        ErrorKind::Other
    );
    // a version other than 1
    let version = [0x80, 0x02, 0, 1, 0, 0, 0, 0, 0, 0, 0, 0, 0];
    assert_eq!(
        Message::binary_decode(&mut &version[..]).unwrap_err().kind(),
        ErrorKind::InvalidInput
    );
    // kinds 0 and 5 to 7
    for kind in [0u8, 5, 6, 7] {
        let bytes = [0x80, 0x01, 0, kind, 0, 0, 0, 0, 0, 0, 0, 0, 0];
        assert_eq!(
            Message::binary_decode(&mut &bytes[..]).unwrap_err().kind(),
            ErrorKind::InvalidInput
        );
    }
    // a negative name length
    let negative = [0x80, 0x01, 0, 1, 0xFF, 0xFF, 0xFF, 0xFF, 0, 0, 0, 0, 0];
    assert_eq!(
        Message::binary_decode(&mut &negative[..]).unwrap_err().kind(),
        ErrorKind::InvalidInput
    );
    // a name that is not UTF-8
    let name = [0x80, 0x01, 0, 1, 0, 0, 0, 1, 0xFF, 0, 0, 0, 0, 0];
    assert_eq!(
        Message::binary_decode(&mut &name[..]).unwrap_err().kind(),
        ErrorKind::InvalidInput
    );
    // the input ends early, at every length
    let good = [0x80, 0x01, 0, 1, 0, 0, 0, 1, b'a', 0, 0, 0, 0, 0];
    assert!(Message::binary_decode(&mut &good[..]).is_ok());
    for len in 0..good.len() {
        assert_eq!(
            Message::binary_decode(&mut &good[..len]).unwrap_err().kind(),
            ErrorKind::Other
        );
    }
}

#[test]
fn compact_rejects_bad_envelopes() {
    let good = [0x82, 0x21, 0x05, 1, b'a', 0];
    let message = Message::compact_decode(&mut &good[..]).unwrap();
    assert_eq!(message, Message::call("a", 5, Struct::new(vec![])));
    for len in 0..good.len() {
        assert_eq!(
            Message::compact_decode(&mut &good[..len]).unwrap_err().kind(),
            ErrorKind::Other
        );
    }
    // a wrong protocol id
    let id = [0x83, 0x21, 0x05, 1, b'a', 0];
    assert_eq!(
        Message::compact_decode(&mut &id[..]).unwrap_err().kind(),
        ErrorKind::InvalidInput
    );
    // a version other than 1
    let version = [0x82, 0x22, 0x05, 1, b'a', 0];
    assert_eq!(
        Message::compact_decode(&mut &version[..]).unwrap_err().kind(),
        ErrorKind::InvalidInput
    );
    // kinds 0 and 5 to 7
    for kind in [0u8, 5, 6, 7] {
        let bytes = [0x82, (kind << 5) | 1, 0x05, 1, b'a', 0];
        assert_eq!(
            Message::compact_decode(&mut &bytes[..]).unwrap_err().kind(),
            ErrorKind::InvalidInput
        );
    }
    // a sequence id of more than 32 bits
    let wide = [0x82, 0x21, 0xFF, 0xFF, 0xFF, 0xFF, 0x1F, 1, b'a', 0];
    assert_eq!(
        Message::compact_decode(&mut &wide[..]).unwrap_err().kind(),
        ErrorKind::InvalidInput
    );
    // a name that is not UTF-8
    let name = [0x82, 0x21, 0x05, 2, 0xC3, 0x28, 0];
    assert_eq!(
        Message::compact_decode(&mut &name[..]).unwrap_err().kind(),
        ErrorKind::InvalidInput
    );
}

#[test]
fn compact_sequence_id_is_written_unsigned() {
    let message = Message::call("", -1, Struct::new(vec![]));
    let mut buf = Vec::new();
    message.compact_encode(&mut buf).unwrap();
    assert_eq!(buf, [0x82, 0x21, 0xFF, 0xFF, 0xFF, 0xFF, 0x0F, 0, 0]);
    assert_eq!(Message::compact_decode(&mut &buf[..]).unwrap(), message);
}

#[test]
fn message_accessors_and_clone() {
    let body = Struct::from((1, "two"));
    let message = Message::new("name", MessageKind::Exception, 42, body.clone());
    assert_eq!(message.method_name(), "name");
    assert_eq!(message.kind(), MessageKind::Exception);
    assert_eq!(message.sequence_id(), 42);
    assert_eq!(message.body(), &body);
    assert_eq!(message.clone(), message);
    assert_eq!(MessageKind::from_u8(1), Some(MessageKind::Call));
    assert_eq!(MessageKind::from_u8(4), Some(MessageKind::Oneway));
    assert_eq!(MessageKind::from_u8(0), None);
    assert_eq!(MessageKind::from_u8(5), None);
    assert_eq!(MessageKind::Reply.to_u8(), 2);
    assert!(MessageKind::Call < MessageKind::Oneway);
}

fn jaeger_batch() -> Vec<u8> {
    vec![
        130, 129, 9, 9, 101, 109, 105, 116, 66, 97, 116, 99, 104, 28, 28, 24, 7, 97, 105, 45,
        109, 111, 99, 107, 25, 28, 24, 12, 115, 101, 114, 118, 105, 99, 101, 46, 110, 97, 109,
        101, 21, 0, 24, 7, 97, 105, 45, 109, 111, 99, 107, 0, 0, 25, 28, 22, 226, 139, 190,
        230, 173, 211, 146, 240, 151, 1, 22, 239, 182, 240, 155, 214, 178, 246, 203, 219, 1,
        22, 212, 179, 245, 254, 170, 172, 129, 138, 12, 22, 154, 167, 159, 154, 245, 238, 171,
        137, 126, 24, 57, 72, 84, 84, 80, 32, 80, 79, 83, 84, 32, 47, 112, 105, 112, 101, 108,
        105, 110, 101, 115, 47, 112, 114, 111, 115, 116, 97, 116, 101, 45, 97, 105, 45, 115,
        101, 114, 118, 105, 99, 101, 46, 101, 110, 115, 101, 109, 98, 108, 101, 47, 112, 114,
        101, 100, 105, 99, 116, 37, 2, 22, 216, 160, 202, 241, 167, 164, 141, 6, 22, 182, 163,
        232, 4, 25, 252, 22, 24, 10, 114, 101, 113, 117, 101, 115, 116, 95, 105, 100, 21, 0,
        24, 36, 56, 53, 53, 53, 48, 97, 57, 49, 45, 56, 49, 99, 55, 45, 52, 102, 56, 50, 45,
        57, 49, 102, 54, 45, 49, 53, 49, 50, 100, 48, 48, 101, 99, 52, 48, 55, 0, 24, 11, 116,
        104, 114, 101, 97, 100, 46, 110, 97, 109, 101, 21, 0, 24, 27, 97, 99, 116, 105, 120,
        45, 114, 116, 124, 115, 121, 115, 116, 101, 109, 58, 48, 124, 97, 114, 98, 105, 116,
        101, 114, 58, 49, 0, 24, 9, 104, 116, 116, 112, 46, 104, 111, 115, 116, 21, 0, 24, 14,
        49, 50, 55, 46, 48, 46, 48, 46, 49, 58, 56, 48, 48, 54, 0, 24, 14, 104, 116, 116, 112,
        46, 99, 108, 105, 101, 110, 116, 95, 105, 112, 21, 0, 24, 9, 49, 50, 55, 46, 48, 46,
        48, 46, 49, 0, 24, 16, 104, 116, 116, 112, 46, 115, 116, 97, 116, 117, 115, 95, 99,
        111, 100, 101, 21, 6, 70, 144, 3, 0, 24, 11, 104, 116, 116, 112, 46, 115, 99, 104, 101,
        109, 101, 21, 0, 24, 4, 104, 116, 116, 112, 0, 24, 11, 104, 116, 116, 112, 46, 102,
        108, 97, 118, 111, 114, 21, 0, 24, 3, 49, 46, 49, 0, 24, 13, 99, 111, 100, 101, 46,
        102, 105, 108, 101, 112, 97, 116, 104, 21, 0, 24, 35, 108, 105, 98, 115, 47, 114, 111,
        115, 45, 97, 99, 116, 105, 120, 45, 104, 101, 108, 112, 101, 114, 115, 47, 115, 114,
        99, 47, 116, 114, 97, 99, 101, 46, 114, 115, 0, 24, 11, 104, 116, 116, 112, 46, 109,
        101, 116, 104, 111, 100, 21, 0, 24, 4, 80, 79, 83, 84, 0, 24, 9, 116, 104, 114, 101,
        97, 100, 46, 105, 100, 21, 6, 70, 10, 0, 24, 10, 104, 116, 116, 112, 46, 114, 111, 117,
        116, 101, 21, 0, 24, 47, 47, 112, 105, 112, 101, 108, 105, 110, 101, 115, 47, 112, 114,
        111, 115, 116, 97, 116, 101, 45, 97, 105, 45, 115, 101, 114, 118, 105, 99, 101, 46,
        101, 110, 115, 101, 109, 98, 108, 101, 47, 112, 114, 101, 100, 105, 99, 116, 0, 24, 15,
        104, 116, 116, 112, 46, 117, 115, 101, 114, 95, 97, 103, 101, 110, 116, 21, 0, 24, 0,
        0, 24, 8, 116, 114, 97, 99, 101, 95, 105, 100, 21, 0, 24, 32, 57, 50, 51, 52, 49, 51,
        51, 53, 52, 101, 52, 49, 102, 50, 52, 56, 52, 98, 102, 48, 50, 53, 52, 100, 54, 101,
        54, 55, 99, 50, 102, 49, 0, 24, 7, 105, 100, 108, 101, 95, 110, 115, 21, 6, 70, 162,
        150, 173, 15, 0, 24, 11, 99, 111, 100, 101, 46, 108, 105, 110, 101, 110, 111, 21, 6,
        70, 152, 1, 0, 24, 11, 104, 116, 116, 112, 46, 116, 97, 114, 103, 101, 116, 21, 0, 24,
        47, 47, 112, 105, 112, 101, 108, 105, 110, 101, 115, 47, 112, 114, 111, 115, 116, 97,
        116, 101, 45, 97, 105, 45, 115, 101, 114, 118, 105, 99, 101, 46, 101, 110, 115, 101,
        109, 98, 108, 101, 47, 112, 114, 101, 100, 105, 99, 116, 0, 24, 7, 98, 117, 115, 121,
        95, 110, 115, 21, 6, 70, 254, 146, 170, 191, 37, 0, 24, 14, 99, 111, 100, 101, 46, 110,
        97, 109, 101, 115, 112, 97, 99, 101, 21, 0, 24, 24, 114, 111, 115, 95, 97, 99, 116,
        105, 120, 95, 104, 101, 108, 112, 101, 114, 115, 58, 58, 116, 114, 97, 99, 101, 0, 24,
        17, 111, 116, 101, 108, 46, 108, 105, 98, 114, 97, 114, 121, 46, 110, 97, 109, 101, 21,
        0, 24, 20, 111, 112, 101, 110, 116, 101, 108, 101, 109, 101, 116, 114, 121, 45, 106,
        97, 101, 103, 101, 114, 0, 24, 20, 111, 116, 101, 108, 46, 108, 105, 98, 114, 97, 114,
        121, 46, 118, 101, 114, 115, 105, 111, 110, 21, 0, 24, 6, 48, 46, 49, 55, 46, 48, 0,
        24, 9, 115, 112, 97, 110, 46, 107, 105, 110, 100, 21, 0, 24, 6, 115, 101, 114, 118,
        101, 114, 0, 24, 16, 111, 116, 101, 108, 46, 115, 116, 97, 116, 117, 115, 95, 99, 111,
        100, 101, 21, 0, 24, 2, 79, 75, 0, 0, 0, 0,
    ]
}

#[test]
fn jaeger_batch_list_size_is_read_through_zigzag() {
    // a batch of spans as a tracing agent sends it; its list of 22 tags has
    // the long form of the list header, with the count as a plain varint
    let mut bytes = jaeger_batch();
    let at = 172;
    assert_eq!(&bytes[at..at + 3], &[25, 252, 22]);
    let mut reader = &bytes[..];
    let err = Message::compact_decode(&mut reader).unwrap_err();
    assert_eq!(err.kind(), ErrorKind::InvalidInput);
    assert_eq!(bytes.len() - reader.len(), at + 3);

    // with the count written through ZigZag the batch decodes, and encodes
    // to the same bytes again
    bytes[at + 2] = 44;
    let mut reader = &bytes[..];
    let message = Message::compact_decode(&mut reader).unwrap();
    assert!(reader.is_empty());
    assert_eq!(message.method_name(), "emitBatch");
    assert_eq!(message.kind(), MessageKind::Oneway);
    assert_eq!(message.sequence_id(), 9);
    let mut again = Vec::new();
    message.compact_encode(&mut again).unwrap();
    assert_eq!(again, bytes);
}
