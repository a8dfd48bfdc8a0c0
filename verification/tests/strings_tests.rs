use kafka_proto::errors::{DecodeError, EncodeError};
use kafka_proto::strings::{
    read_classic_bytes, read_classic_string, read_compact_bytes, read_compact_string,
    write_classic_bytes, write_classic_string, write_compact_bytes, write_compact_string,
};

#[test]
fn null_classic_string_is_two_ff_bytes() {
    let mut buf: Vec<u8> = Vec::new();
    write_classic_string(&mut buf, None, true).unwrap();
    assert_eq!(buf, vec![0xFF, 0xFF]);
    let (value, end) = read_classic_string(&buf, 0, true).unwrap();
    assert_eq!(value, None);
    assert_eq!(end, 2);
}

#[test]
fn null_compact_string_is_one_zero_byte() {
    let mut buf: Vec<u8> = Vec::new();
    write_compact_string(&mut buf, None, true).unwrap();
    assert_eq!(buf, vec![0x00]);
    let (value, end) = read_compact_string(&buf, 0, true).unwrap();
    assert_eq!(value, None);
    assert_eq!(end, 1);
}

#[test]
fn null_into_non_nullable_compact_bytes_is_an_error() {
    let mut buf: Vec<u8> = Vec::new();
    let err = write_compact_bytes(&mut buf, None, false).expect_err("null refused");
    assert_eq!(err, EncodeError::NullValue);
    assert!(buf.is_empty());

    let err = write_classic_bytes(&mut buf, None, false).expect_err("null refused");
    assert_eq!(err, EncodeError::NullValue);
    let err = write_classic_string(&mut buf, None, false).expect_err("null refused");
    assert_eq!(err, EncodeError::NullValue);
    let err = write_compact_string(&mut buf, None, false).expect_err("null refused");
    assert_eq!(err, EncodeError::NullValue);
}

#[test]
fn classic_zero_length_is_empty_not_null() {
    let wire = vec![0x00, 0x00];
    let (value, end) = read_classic_string(&wire, 0, true).unwrap();
    assert_eq!(value, Some(String::new()));
    assert_eq!(end, 2);
    let (bytes, _) = read_classic_bytes(&wire, 0, true).unwrap();
    assert_eq!(bytes, Some(vec![]));
}

#[test]
fn compact_zero_in_non_nullable_mode_is_malformed() {
    let wire = vec![0x00];
    let err = read_compact_string(&wire, 0, false).expect_err("null refused");
    assert_eq!(err, DecodeError::Malformed);
    let err = read_compact_bytes(&wire, 0, false).expect_err("null refused");
    assert_eq!(err, DecodeError::Malformed);
}

#[test]
fn classic_negative_length_in_non_nullable_mode_is_malformed() {
    let wire = vec![0xFF, 0xFF];
    let err = read_classic_string(&wire, 0, false).expect_err("null refused");
    assert_eq!(err, DecodeError::Malformed);
}

#[test]
fn classic_string_round_trip() {
    let mut buf: Vec<u8> = Vec::new();
    write_classic_string(&mut buf, Some("hello"), false).unwrap();
    assert_eq!(buf, vec![0x00, 0x05, b'h', b'e', b'l', b'l', b'o']);
    let (value, end) = read_classic_string(&buf, 0, false).unwrap();
    assert_eq!(value, Some(String::from("hello")));
    assert_eq!(end, 7);
}

#[test]
fn compact_string_round_trip() {
    let mut buf: Vec<u8> = Vec::new();
    write_compact_string(&mut buf, Some("kafka"), true).unwrap();
    assert_eq!(buf, vec![0x06, b'k', b'a', b'f', b'k', b'a']);
    let (value, end) = read_compact_string(&buf, 0, true).unwrap();
    assert_eq!(value, Some(String::from("kafka")));
    assert_eq!(end, 6);
}

#[test]
fn compact_bytes_round_trip() {
    let data = vec![1u8, 2, 3, 255];
    let mut buf: Vec<u8> = Vec::new();
    write_compact_bytes(&mut buf, Some(&data), false).unwrap();
    assert_eq!(buf, vec![0x05, 1, 2, 3, 255]);
    let (value, end) = read_compact_bytes(&buf, 0, false).unwrap();
    assert_eq!(value, Some(data));
    assert_eq!(end, 5);
}

#[test]
fn invalid_utf8_is_invalid_value() {
    let wire = vec![0x00, 0x01, 0xFF];
    let err = read_classic_string(&wire, 0, true).expect_err("bad utf8");
    assert_eq!(err, DecodeError::InvalidValue);

    let wire = vec![0x02, 0xC0];
    let err = read_compact_string(&wire, 0, true).expect_err("bad utf8");
    assert_eq!(err, DecodeError::InvalidValue);
}

#[test]
fn truncated_payload_is_eof() {
    let wire = vec![0x00, 0x05, b'h', b'i'];
    let err = read_classic_string(&wire, 0, true).expect_err("truncated");
    assert_eq!(err, DecodeError::UnexpectedEof);
}
