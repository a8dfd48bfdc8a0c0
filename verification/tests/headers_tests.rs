use kafka_proto::api_versions::{ApiVersion, ApiVersionV3, ApiVersionsRequest, ApiVersionsResponse, ApiVersionsResponseV3};
use kafka_proto::errors::DecodeError;
use kafka_proto::headers::{
    RequestHeaderV0, RequestHeaderV1, RequestHeaderV2, ResponseHeaderV0, ResponseHeaderV1,
};
use kafka_proto::tagged_fields::RawTaggedField;

#[test]
fn request_header_v1_with_client_id_exact_bytes() {
    let header = RequestHeaderV1::new(18, 0, 0, Some(String::from("test_client")));
    let mut buf: Vec<u8> = Vec::new();
    header.write(&mut buf);

    let mut expected: Vec<u8> = vec![
        0x00, 0x12, // api_key
        0x00, 0x00, // api_version
        0x00, 0x00, 0x00, 0x00, // correlation_id
        0x00, 0x0B, // clientId length
    ];
    expected.extend_from_slice(b"test_client");
    assert_eq!(buf, expected);

    let (back, end) = RequestHeaderV1::read(&buf, 0).unwrap();
    assert_eq!(end, buf.len());
    assert_eq!(back.api_key, 18);
    assert_eq!(back.api_version, 0);
    assert_eq!(back.correlation_id, 0);
    assert_eq!(back.client_id, Some(String::from("test_client")));
}

#[test]
fn request_header_v0_round_trip() {
    let header = RequestHeaderV0::new(19, 2, 77);
    let mut buf: Vec<u8> = Vec::new();
    header.write(&mut buf);
    assert_eq!(buf, vec![0x00, 0x13, 0x00, 0x02, 0x00, 0x00, 0x00, 0x4D]);
    let (back, end) = RequestHeaderV0::read(&buf, 0).unwrap();
    assert_eq!(back, header);
    assert_eq!(end, 8);
}

#[test]
fn request_header_v1_null_client_id() {
    let header = RequestHeaderV1::new(3, 1, 5, None);
    let mut buf: Vec<u8> = Vec::new();
    header.write(&mut buf);
    assert_eq!(buf, vec![0x00, 0x03, 0x00, 0x01, 0x00, 0x00, 0x00, 0x05, 0xFF, 0xFF]);
    let (back, _) = RequestHeaderV1::read(&buf, 0).unwrap();
    assert_eq!(back.client_id, None);
}

#[test]
fn request_header_v2_round_trip_with_tagged_fields() {
    let mut header = RequestHeaderV2::new(18, 3, 9, Some(String::from("c1")));
    header.unknown_tagged_fields = vec![
        RawTaggedField { tag: 0, data: vec![1, 2] },
        RawTaggedField { tag: 7, data: vec![] },
    ];
    let mut buf: Vec<u8> = Vec::new();
    header.write(&mut buf).unwrap();

    let (back, end) = RequestHeaderV2::read(&buf, 0).unwrap();
    assert_eq!(end, buf.len());
    assert_eq!(back.api_key, 18);
    assert_eq!(back.api_version, 3);
    assert_eq!(back.correlation_id, 9);
    assert_eq!(back.client_id, Some(String::from("c1")));
    assert_eq!(back.unknown_tagged_fields, header.unknown_tagged_fields);

    // re-encoding the decoded copy yields identical bytes
    let mut again: Vec<u8> = Vec::new();
    back.write(&mut again).unwrap();
    assert_eq!(again, buf);
}

#[test]
fn request_header_v2_refuses_unordered_tags() {
    let mut header = RequestHeaderV2::new(18, 3, 9, None);
    header.unknown_tagged_fields = vec![
        RawTaggedField { tag: 5, data: vec![] },
        RawTaggedField { tag: 5, data: vec![] },
    ];
    let mut buf: Vec<u8> = Vec::new();
    let err = header.write(&mut buf).expect_err("order violated");
    assert_eq!(
        err.message(),
        "Invalid raw tag field list: tag 5 comes after tag 5, but is not higher than it."
    );
}

#[test]
fn response_header_v0_of_seven_is_four_bytes() {
    let header = ResponseHeaderV0::new(7);
    let mut buf: Vec<u8> = Vec::new();
    header.write(&mut buf);
    assert_eq!(buf, vec![0x00, 0x00, 0x00, 0x07]);
    let (back, end) = ResponseHeaderV0::read(&buf, 0).unwrap();
    assert_eq!(back.correlation_id, 7);
    assert_eq!(end, 4);
}

#[test]
fn response_header_v1_round_trip() {
    let mut header = ResponseHeaderV1::new(42);
    header.unknown_tagged_fields = vec![RawTaggedField { tag: 1, data: vec![9] }];
    let mut buf: Vec<u8> = Vec::new();
    header.write(&mut buf).unwrap();
    let (back, end) = ResponseHeaderV1::read(&buf, 0).unwrap();
    assert_eq!(end, buf.len());
    assert_eq!(back.correlation_id, 42);
    assert_eq!(back.unknown_tagged_fields, header.unknown_tagged_fields);
}

#[test]
fn api_versions_request_v0_encodes_to_nothing() {
    let request = ApiVersionsRequest::new();
    let mut buf: Vec<u8> = Vec::new();
    request.write(&mut buf);
    assert_eq!(buf.len(), 0);
    let (back, end) = ApiVersionsRequest::read(&buf, 0).unwrap();
    assert_eq!(back, request);
    assert_eq!(end, 0);
}

#[test]
fn api_versions_response_v0_round_trip() {
    let response = ApiVersionsResponse::new(
        0,
        vec![ApiVersion::new(0, 0, 9), ApiVersion::new(18, 0, 3)],
    );
    let mut buf: Vec<u8> = Vec::new();
    response.write(&mut buf);
    assert_eq!(
        buf,
        vec![
            0x00, 0x00, // error_code
            0x00, 0x00, 0x00, 0x02, // array count
            0x00, 0x00, 0x00, 0x00, 0x00, 0x09, // Produce 0..9
            0x00, 0x12, 0x00, 0x00, 0x00, 0x03, // ApiVersions 0..3
        ]
    );
    let (back, end) = ApiVersionsResponse::read(&buf, 0).unwrap();
    assert_eq!(back, response);
    assert_eq!(end, buf.len());
}

#[test]
fn api_versions_response_negative_count_is_malformed() {
    let wire = vec![0x00, 0x00, 0xFF, 0xFF, 0xFF, 0xFF];
    let err = ApiVersionsResponse::read(&wire, 0).expect_err("negative count");
    assert_eq!(err, DecodeError::Malformed);
}

#[test]
fn api_versions_response_v3_round_trip() {
    let mut record = ApiVersionV3::new(18, 0, 3);
    record.unknown_tagged_fields = vec![RawTaggedField { tag: 2, data: vec![7] }];
    let response = ApiVersionsResponseV3::new(0, vec![ApiVersionV3::new(0, 0, 9), record], 100);
    let mut buf: Vec<u8> = Vec::new();
    response.write(&mut buf).unwrap();

    let (back, end) = ApiVersionsResponseV3::read(&buf, 0).unwrap();
    assert_eq!(back, response);
    assert_eq!(end, buf.len());

    let mut again: Vec<u8> = Vec::new();
    back.write(&mut again).unwrap();
    assert_eq!(again, buf);
}

#[test]
fn api_versions_response_v3_exact_bytes() {
    let response = ApiVersionsResponseV3::new(0, vec![ApiVersionV3::new(1, 4, 13)], 0);
    let mut buf: Vec<u8> = Vec::new();
    response.write(&mut buf).unwrap();
    assert_eq!(
        buf,
        vec![
            0x00, 0x00, // error_code
            0x02, // compact array count: one record
            0x00, 0x01, 0x00, 0x04, 0x00, 0x0D, // Fetch 4..13
            0x00, // record's empty tagged-fields section
            0x00, 0x00, 0x00, 0x00, // throttle_time_ms
            0x00, // response's empty tagged-fields section
        ]
    );
}

#[test]
fn api_versions_response_v3_null_array_is_malformed() {
    let wire = vec![0x00, 0x00, 0x00];
    let err = ApiVersionsResponseV3::read(&wire, 0).expect_err("null array");
    assert_eq!(err, DecodeError::Malformed);
}

#[test]
fn api_versions_response_v3_bad_tag_order_is_refused() {
    let mut record = ApiVersionV3::new(18, 0, 3);
    record.unknown_tagged_fields = vec![
        RawTaggedField { tag: 9, data: vec![] },
        RawTaggedField { tag: 4, data: vec![] },
    ];
    let response = ApiVersionsResponseV3::new(0, vec![record], 0);
    let mut buf: Vec<u8> = Vec::new();
    let err = response.write(&mut buf).expect_err("order violated");
    assert_eq!(
        err.message(),
        "Invalid raw tag field list: tag 4 comes after tag 9, but is not higher than it."
    );
}
