use kafka_proto::errors::DecodeError;
use kafka_proto::framing::{begin_frame, patch_frame_length, read_frame};
use kafka_proto::headers::RequestHeaderV1;

#[test]
fn frame_length_patching_over_23_bytes() {
    let mut buf: Vec<u8> = vec![0, 0, 0, 0];
    for i in 0..23u8 {
        buf.push(i);
    }
    patch_frame_length(&mut buf);
    assert_eq!(&buf[0..4], &[0x00, 0x00, 0x00, 0x17]);
    for i in 0..23u8 {
        assert_eq!(buf[4 + i as usize], i);
    }
}

#[test]
fn begin_frame_writes_placeholder() {
    let mut buf: Vec<u8> = Vec::new();
    begin_frame(&mut buf);
    assert_eq!(buf, vec![0, 0, 0, 0]);
}

#[test]
fn framed_header_round_trip() {
    let header = RequestHeaderV1::new(18, 1, 12, Some(String::from("test_client")));
    let mut buf: Vec<u8> = Vec::new();
    begin_frame(&mut buf);
    header.write(&mut buf);
    patch_frame_length(&mut buf);

    let (body, end) = read_frame(&buf, 0).unwrap();
    assert_eq!(end, buf.len());
    assert_eq!(body.len(), buf.len() - 4);
    let (back, _) = RequestHeaderV1::read(&body, 0).unwrap();
    assert_eq!(back.correlation_id, 12);
    assert_eq!(back.client_id, Some(String::from("test_client")));
}

#[test]
fn negative_frame_length_is_malformed() {
    let wire = vec![0xFF, 0xFF, 0xFF, 0xFF, 0x01];
    let err = read_frame(&wire, 0).expect_err("negative length");
    assert_eq!(err, DecodeError::Malformed);
}

#[test]
fn short_frame_is_eof() {
    let wire = vec![0x00, 0x00, 0x00, 0x05, 0x01];
    let err = read_frame(&wire, 0).expect_err("short frame");
    assert_eq!(err, DecodeError::UnexpectedEof);
}
