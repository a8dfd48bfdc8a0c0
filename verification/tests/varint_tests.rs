use kafka_proto::errors::DecodeError;
use kafka_proto::varint::{
    read_uvarint32, read_uvarint64, read_varint32, read_varint64, write_uvarint32,
    write_uvarint64, write_varint32, write_varint64,
};

#[test]
fn uvarint32_boundary_lengths_and_round_trip() {
    let cases: [(u32, usize); 10] = [
        (0, 1),
        (127, 1),
        (128, 2),
        (16383, 2),
        (16384, 3),
        (2097151, 3),
        (2097152, 4),
        (268435455, 4),
        (268435456, 5),
        (0xFFFF_FFFF, 5),
    ];
    for (value, expected_len) in cases {
        let mut buf: Vec<u8> = Vec::new();
        write_uvarint32(&mut buf, value);
        assert_eq!(buf.len(), expected_len, "length for {value}");
        let (back, end) = read_uvarint32(&buf, 0).unwrap();
        assert_eq!(back, value);
        assert_eq!(end, expected_len);
    }
}

#[test]
fn uvarint32_exact_bytes() {
    let mut buf: Vec<u8> = Vec::new();
    write_uvarint32(&mut buf, 300);
    assert_eq!(buf, vec![0xAC, 0x02]);
}

#[test]
fn uvarint32_too_long_is_malformed() {
    let wire = vec![0x80, 0x80, 0x80, 0x80, 0x80, 0x01];
    let err = read_uvarint32(&wire, 0).expect_err("over budget");
    assert_eq!(err, DecodeError::Malformed);
}

#[test]
fn uvarint32_fifth_byte_overflow_is_malformed() {
    // Would be 2^32: the fifth byte carries too many bits.
    let wire = vec![0x80, 0x80, 0x80, 0x80, 0x10];
    let err = read_uvarint32(&wire, 0).expect_err("value overflow");
    assert_eq!(err, DecodeError::Malformed);
}

#[test]
fn uvarint32_truncated_is_eof() {
    let wire = vec![0x80, 0x80];
    let err = read_uvarint32(&wire, 0).expect_err("truncated");
    assert_eq!(err, DecodeError::UnexpectedEof);
    let empty: Vec<u8> = vec![];
    assert_eq!(read_uvarint32(&empty, 0).unwrap_err(), DecodeError::UnexpectedEof);
}

#[test]
fn uvarint64_round_trip() {
    for value in [0u64, 1, 127, 128, 0xFFFF_FFFF, 0x1_0000_0000, u64::MAX] {
        let mut buf: Vec<u8> = Vec::new();
        write_uvarint64(&mut buf, value);
        let (back, end) = read_uvarint64(&buf, 0).unwrap();
        assert_eq!(back, value);
        assert_eq!(end, buf.len());
    }
    let mut buf: Vec<u8> = Vec::new();
    write_uvarint64(&mut buf, u64::MAX);
    assert_eq!(buf.len(), 10);
}

#[test]
fn zigzag32_mapping_and_round_trip() {
    let mut buf: Vec<u8> = Vec::new();
    write_varint32(&mut buf, 0);
    assert_eq!(buf, vec![0x00]);
    buf.clear();
    write_varint32(&mut buf, -1);
    assert_eq!(buf, vec![0x01]);
    buf.clear();
    write_varint32(&mut buf, 1);
    assert_eq!(buf, vec![0x02]);
    for value in [0i32, 1, -1, 63, -64, i32::MAX, i32::MIN] {
        let mut b: Vec<u8> = Vec::new();
        write_varint32(&mut b, value);
        let (back, end) = read_varint32(&b, 0).unwrap();
        assert_eq!(back, value);
        assert_eq!(end, b.len());
    }
}

#[test]
fn zigzag64_round_trip() {
    for value in [0i64, 1, -1, i64::MAX, i64::MIN] {
        let mut b: Vec<u8> = Vec::new();
        write_varint64(&mut b, value);
        let (back, _) = read_varint64(&b, 0).unwrap();
        assert_eq!(back, value);
    }
}
