use thrift_codec::varint::{read_varint, read_varint32, write_var32, write_var64, write_varint};
use thrift_codec::zigzag;
use thrift_codec::ErrorKind;

fn varint(n: u64) -> Vec<u8> {
    let mut buf = Vec::new();
    write_varint(&mut buf, n);
    buf
}

#[test]
fn varint_bytes() {
    assert_eq!(varint(0), [0x00]);
    assert_eq!(varint(1), [0x01]);
    assert_eq!(varint(127), [0x7F]);
    assert_eq!(varint(128), [0x80, 0x01]);
    assert_eq!(varint(300), [0xAC, 0x02]);
    assert_eq!(varint(16_383), [0xFF, 0x7F]);
    assert_eq!(varint(16_384), [0x80, 0x80, 0x01]);
    assert_eq!(varint(u32::MAX as u64), [0xFF, 0xFF, 0xFF, 0xFF, 0x0F]);
    assert_eq!(
        varint(u64::MAX),
        [0xFF, 0xFF, 0xFF, 0xFF, 0xFF, 0xFF, 0xFF, 0xFF, 0xFF, 0x01]
    );
}

#[test]
fn varint_reads_back() {
    let mut samples = vec![0u64, 1, 127, 128, 255, 300, u32::MAX as u64, u32::MAX as u64 + 1, u64::MAX];
    for shift in 0..64 {
        samples.push(1u64 << shift);
        samples.push((1u64 << shift) - 1);
        samples.push((1u64 << shift) | 1);
    }
    for n in samples {
        let mut buf = varint(n);
        assert!(1 <= buf.len() && buf.len() <= 10);
        buf.push(0xEE);
        let mut reader = &buf[..];
        assert_eq!(read_varint(&mut reader).unwrap(), n);
        assert_eq!(reader, &[0xEE]);
        if n <= u32::MAX as u64 {
            assert!(buf.len() - 1 <= 5);
            let mut reader = &buf[..];
            assert_eq!(read_varint32(&mut reader).unwrap(), n as u32);
            assert_eq!(reader, &[0xEE]);
        } else {
            assert_eq!(
                read_varint32(&mut &buf[..]).unwrap_err().kind(),
                ErrorKind::InvalidInput
            );
        }
    }
}

#[test]
fn width_specific_writers_write_the_same_varint() {
    for n in [0u32, 1, 127, 128, 300, u32::MAX] {
        let mut a = vec![7];
        write_var32(&mut a, n);
        let mut b = vec![7];
        write_var64(&mut b, n as u64);
        let mut c = vec![7];
        write_varint(&mut c, n as u64);
        assert_eq!(a, b);
        assert_eq!(a, c);
        assert!(a.len() - 1 <= 5);
    }
    let mut buf = Vec::new();
    write_var64(&mut buf, u64::MAX);
    assert_eq!(buf.len(), 10);
}

#[test]
fn varint_of_more_than_ten_bytes_is_invalid() {
    let eleven = [0x80, 0x80, 0x80, 0x80, 0x80, 0x80, 0x80, 0x80, 0x80, 0x80, 0x00];
    assert_eq!(
        read_varint(&mut &eleven[..]).unwrap_err().kind(),
        ErrorKind::InvalidInput
    );
    // ten bytes that all ask for more: invalid before the input is found to end
    assert_eq!(
        read_varint(&mut &eleven[..10]).unwrap_err().kind(),
        ErrorKind::InvalidInput
    );
    let six = [0x80, 0x80, 0x80, 0x80, 0x80, 0x00];
    assert_eq!(
        read_varint32(&mut &six[..]).unwrap_err().kind(),
        ErrorKind::InvalidInput
    );
    assert_eq!(read_varint(&mut &six[..]).unwrap(), 0);
}

#[test]
fn varint_that_overflows_is_invalid() {
    let too_big = [0xFF, 0xFF, 0xFF, 0xFF, 0xFF, 0xFF, 0xFF, 0xFF, 0xFF, 0x02];
    assert_eq!(
        read_varint(&mut &too_big[..]).unwrap_err().kind(),
        ErrorKind::InvalidInput
    );
    let too_big = [0xFF, 0xFF, 0xFF, 0xFF, 0x10];
    assert_eq!(
        read_varint32(&mut &too_big[..]).unwrap_err().kind(),
        ErrorKind::InvalidInput
    );
    assert_eq!(read_varint(&mut &too_big[..]).unwrap(), 0x1_0FFF_FFFF);
}

#[test]
fn varint_that_ends_early_is_other() {
    assert_eq!(read_varint(&mut &[][..]).unwrap_err().kind(), ErrorKind::Other);
    assert_eq!(read_varint(&mut &[0x80][..]).unwrap_err().kind(), ErrorKind::Other);
    assert_eq!(
        read_varint32(&mut &[0xFF, 0xFF, 0xFF, 0xFF][..]).unwrap_err().kind(),
        ErrorKind::Other
    );
}

#[test]
fn non_minimal_varints_are_read() {
    assert_eq!(read_varint(&mut &[0x80, 0x00][..]).unwrap(), 0);
    assert_eq!(read_varint32(&mut &[0x81, 0x80, 0x00][..]).unwrap(), 1);
}

#[test]
fn zigzag_round_trips() {
    for n in [0i32, 1, -1, 2, -2, 63, -64, 64, i32::MAX, i32::MIN, 123_456, -123_456] {
        assert_eq!(zigzag::to_i32(zigzag::from_i32(n)), n);
    }
    for n in [0i64, 1, -1, 2, -2, i64::MAX, i64::MIN, 1 << 40, -(1 << 40)] {
        assert_eq!(zigzag::to_i64(zigzag::from_i64(n)), n);
    }
    for z in [0u32, 1, 2, 3, 4, 1000, u32::MAX, u32::MAX - 1] {
        assert_eq!(zigzag::from_i32(zigzag::to_i32(z)), z);
    }
    for z in [0u64, 1, 2, 3, 4, 1000, u64::MAX, u64::MAX - 1] {
        assert_eq!(zigzag::from_i64(zigzag::to_i64(z)), z);
    }
}

#[test]
fn zigzag_values() {
    assert_eq!(zigzag::from_i32(i32::MAX), u32::MAX - 1);
    assert_eq!(zigzag::from_i32(i32::MIN), u32::MAX);
    assert_eq!(zigzag::from_i64(i64::MAX), u64::MAX - 1);
    assert_eq!(zigzag::from_i64(i64::MIN), u64::MAX);
    assert_eq!(zigzag::from_i64(-1), 1);
    assert_eq!(zigzag::from_i64(2), 4);
    assert_eq!(zigzag::to_i64(3), -2);
    assert_eq!(zigzag::to_i32(u32::MAX), i32::MIN);
    assert_eq!(zigzag::i64_to_zigzag(-3), 5);
    assert_eq!(zigzag::i32_to_zigzag(i32::MIN), u32::MAX);
}
