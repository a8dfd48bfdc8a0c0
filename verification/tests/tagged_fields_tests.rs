use kafka_proto::tagged_fields::{
    k_read_unknown_tagged_fields, k_write_unknown_tagged_fields, RawTaggedField,
};
use kafka_proto::errors::DecodeError;

#[test]
fn test_serde_multiple_fields() {
    let original_fields = vec![
        RawTaggedField { tag: 0, data: vec![0, 1, 2, 3] },
        RawTaggedField { tag: 1, data: vec![0, 1] },
        RawTaggedField { tag: 4, data: vec![0, 1, 2, 3, 4, 5] },
    ];

    let mut buf: Vec<u8> = Vec::new();
    k_write_unknown_tagged_fields(&mut buf, &original_fields).unwrap();

    let (read_fields, end) = k_read_unknown_tagged_fields(&buf, 0).unwrap();

    assert_eq!(read_fields, original_fields);
    assert_eq!(end, buf.len());
}

#[test]
fn test_serde_multiple_fields_wrong_order() {
    let original_fields = vec![
        RawTaggedField { tag: 1, data: vec![0, 1] },
        RawTaggedField { tag: 0, data: vec![0, 1, 2, 3] },
        RawTaggedField { tag: 4, data: vec![0, 1, 2, 3, 4, 5] },
    ];

    let mut buf: Vec<u8> = Vec::new();
    let error = k_write_unknown_tagged_fields(&mut buf, &original_fields)
        .expect_err("must_be_error");
    assert_eq!(
        error.message(),
        "Invalid raw tag field list: tag 0 comes after tag 1, but is not higher than it."
    );
}

#[test]
fn test_serde_multiple_fields_empty() {
    let original_fields: Vec<RawTaggedField> = vec![];

    let mut buf: Vec<u8> = Vec::new();
    k_write_unknown_tagged_fields(&mut buf, &original_fields).unwrap();

    let (read_fields, _) = k_read_unknown_tagged_fields(&buf, 0).unwrap();

    assert_eq!(read_fields, original_fields);
}

#[test]
fn empty_tagged_fields_encode_to_one_zero_byte() {
    let mut buf: Vec<u8> = Vec::new();
    k_write_unknown_tagged_fields(&mut buf, &[]).unwrap();
    assert_eq!(buf, vec![0x00]);
    let (read_fields, end) = k_read_unknown_tagged_fields(&buf, 0).unwrap();
    assert!(read_fields.is_empty());
    assert_eq!(end, 1);
}

#[test]
fn three_ordered_fields_round_trip_and_permutation_fails() {
    let fields = vec![
        RawTaggedField { tag: 0, data: vec![0, 1, 2, 3] },
        RawTaggedField { tag: 1, data: vec![0, 1] },
        RawTaggedField { tag: 4, data: vec![0, 1, 2, 3, 4, 5] },
    ];
    let mut buf: Vec<u8> = Vec::new();
    k_write_unknown_tagged_fields(&mut buf, &fields).unwrap();
    let (back, _) = k_read_unknown_tagged_fields(&buf, 0).unwrap();
    assert_eq!(back, fields);

    let permuted = vec![fields[0].clone(), fields[2].clone(), fields[1].clone()];
    let mut out: Vec<u8> = Vec::new();
    let err = k_write_unknown_tagged_fields(&mut out, &permuted).expect_err("order broken");
    assert_eq!(
        err.message(),
        "Invalid raw tag field list: tag 1 comes after tag 4, but is not higher than it."
    );
    assert!(out.is_empty());
}

#[test]
fn equal_adjacent_tags_are_refused_by_the_writer() {
    let fields = vec![
        RawTaggedField { tag: 3, data: vec![] },
        RawTaggedField { tag: 3, data: vec![1] },
    ];
    let mut out: Vec<u8> = Vec::new();
    let err = k_write_unknown_tagged_fields(&mut out, &fields).expect_err("equal tags");
    assert_eq!(
        err.message(),
        "Invalid raw tag field list: tag 3 comes after tag 3, but is not higher than it."
    );
}

#[test]
fn duplicate_tags_are_refused_by_the_reader() {
    // count 2, then twice: tag 1 (varint), empty data (compact length 1).
    let wire = vec![0x02, 0x01, 0x01, 0x01, 0x01];
    let err = k_read_unknown_tagged_fields(&wire, 0).expect_err("duplicate tags");
    assert_eq!(err, DecodeError::Malformed);
}

#[test]
fn reader_accepts_unsorted_distinct_tags() {
    // count 2: tag 5 with empty data, then tag 2 with empty data.
    let wire = vec![0x02, 0x05, 0x01, 0x02, 0x01];
    let (fields, end) = k_read_unknown_tagged_fields(&wire, 0).unwrap();
    assert_eq!(end, 5);
    assert_eq!(fields.len(), 2);
    assert_eq!(fields[0].tag, 5);
    assert_eq!(fields[1].tag, 2);
}

#[test]
fn truncated_section_reports_eof() {
    let fields = vec![RawTaggedField { tag: 0, data: vec![7, 8, 9] }];
    let mut buf: Vec<u8> = Vec::new();
    k_write_unknown_tagged_fields(&mut buf, &fields).unwrap();
    buf.pop();
    let err = k_read_unknown_tagged_fields(&buf, 0).expect_err("truncated");
    assert_eq!(err, DecodeError::UnexpectedEof);
}
