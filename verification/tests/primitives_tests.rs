use kafka_proto::errors::DecodeError;
use kafka_proto::primitives::{
    read_bool, read_i16, read_i32, read_i64, read_i8, read_u16, read_u32, read_u64, read_uuid,
    write_bool, write_i16, write_i32, write_i64, write_i8, write_u16, write_u32, write_u64,
    write_uuid,
};

#[test]
fn fixed_width_big_endian_bytes() {
    let mut buf: Vec<u8> = Vec::new();
    write_u16(&mut buf, 0x0102);
    assert_eq!(buf, vec![0x01, 0x02]);
    buf.clear();
    write_u32(&mut buf, 0x01020304);
    assert_eq!(buf, vec![0x01, 0x02, 0x03, 0x04]);
    buf.clear();
    write_u64(&mut buf, 0x0102030405060708);
    assert_eq!(buf, vec![0x01, 0x02, 0x03, 0x04, 0x05, 0x06, 0x07, 0x08]);
    buf.clear();
    write_i16(&mut buf, -1);
    assert_eq!(buf, vec![0xFF, 0xFF]);
    buf.clear();
    write_i32(&mut buf, -2);
    assert_eq!(buf, vec![0xFF, 0xFF, 0xFF, 0xFE]);
    buf.clear();
    write_i8(&mut buf, -128);
    assert_eq!(buf, vec![0x80]);
    buf.clear();
    write_bool(&mut buf, true);
    write_bool(&mut buf, false);
    assert_eq!(buf, vec![0x01, 0x00]);
}

#[test]
fn fixed_width_round_trips() {
    for value in [i8::MIN, -1, 0, 1, i8::MAX] {
        let mut b: Vec<u8> = Vec::new();
        write_i8(&mut b, value);
        assert_eq!(read_i8(&b, 0).unwrap(), (value, 1));
    }
    for value in [i16::MIN, -1, 0, 1, i16::MAX] {
        let mut b: Vec<u8> = Vec::new();
        write_i16(&mut b, value);
        assert_eq!(read_i16(&b, 0).unwrap(), (value, 2));
    }
    for value in [i32::MIN, -1, 0, 1, i32::MAX] {
        let mut b: Vec<u8> = Vec::new();
        write_i32(&mut b, value);
        assert_eq!(read_i32(&b, 0).unwrap(), (value, 4));
    }
    for value in [i64::MIN, -1, 0, 1, i64::MAX] {
        let mut b: Vec<u8> = Vec::new();
        write_i64(&mut b, value);
        assert_eq!(read_i64(&b, 0).unwrap(), (value, 8));
    }
    for value in [0u16, 1, u16::MAX] {
        let mut b: Vec<u8> = Vec::new();
        write_u16(&mut b, value);
        assert_eq!(read_u16(&b, 0).unwrap(), (value, 2));
    }
    for value in [0u32, 1, u32::MAX] {
        let mut b: Vec<u8> = Vec::new();
        write_u32(&mut b, value);
        assert_eq!(read_u32(&b, 0).unwrap(), (value, 4));
    }
    for value in [0u64, 1, u64::MAX] {
        let mut b: Vec<u8> = Vec::new();
        write_u64(&mut b, value);
        assert_eq!(read_u64(&b, 0).unwrap(), (value, 8));
    }
}

#[test]
fn uuid_sixteen_bytes_big_endian() {
    let value: u128 = 0x0102030405060708090A0B0C0D0E0F10;
    let mut buf: Vec<u8> = Vec::new();
    write_uuid(&mut buf, value);
    assert_eq!(
        buf,
        vec![1, 2, 3, 4, 5, 6, 7, 8, 9, 0x0A, 0x0B, 0x0C, 0x0D, 0x0E, 0x0F, 0x10]
    );
    assert_eq!(read_uuid(&buf, 0).unwrap(), (value, 16));
}

#[test]
fn short_reads_report_eof() {
    let three = vec![0u8, 0, 0];
    assert_eq!(read_u32(&three, 0).unwrap_err(), DecodeError::UnexpectedEof);
    assert_eq!(read_i32(&three, 0).unwrap_err(), DecodeError::UnexpectedEof);
    assert_eq!(read_i64(&three, 0).unwrap_err(), DecodeError::UnexpectedEof);
    assert_eq!(read_uuid(&three, 0).unwrap_err(), DecodeError::UnexpectedEof);
    let empty: Vec<u8> = vec![];
    assert_eq!(read_bool(&empty, 0).unwrap_err(), DecodeError::UnexpectedEof);
    assert_eq!(read_u16(&empty, 0).unwrap_err(), DecodeError::UnexpectedEof);
    assert_eq!(read_u64(&empty, 0).unwrap_err(), DecodeError::UnexpectedEof);
}

#[test]
fn bool_reads_any_nonzero_as_true() {
    let wire = vec![0x02];
    assert_eq!(read_bool(&wire, 0).unwrap(), (true, 1));
}
