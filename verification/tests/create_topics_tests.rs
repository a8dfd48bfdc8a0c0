use kafka_proto::create_topics::{
    read_i32_array, write_i32_array, CreatableReplicaAssignment, CreatableTopic,
    CreateTopicsRequest, CreateableTopicConfig,
};
use kafka_proto::errors::DecodeError;

#[test]
fn i32_array_round_trip_and_bytes() {
    let values = vec![1i32, -1, 0x01020304];
    let mut buf: Vec<u8> = Vec::new();
    write_i32_array(&mut buf, &values);
    assert_eq!(
        buf,
        vec![
            0x00, 0x00, 0x00, 0x03, // count
            0x00, 0x00, 0x00, 0x01, 0xFF, 0xFF, 0xFF, 0xFF, 0x01, 0x02, 0x03, 0x04,
        ]
    );
    let (back, end) = read_i32_array(&buf, 0).unwrap();
    assert_eq!(back, values);
    assert_eq!(end, buf.len());
}

#[test]
fn i32_array_negative_count_is_malformed() {
    let wire = vec![0xFF, 0xFF, 0xFF, 0xFF];
    let err = read_i32_array(&wire, 0).expect_err("negative count");
    assert_eq!(err, DecodeError::Malformed);
}

#[test]
fn create_topics_request_round_trip() {
    let request = CreateTopicsRequest::new(
        vec![CreatableTopic::new(
            String::from("topic0"),
            1,
            1,
            vec![CreatableReplicaAssignment::new(0, vec![1])],
            vec![],
        )],
        10_000,
    );
    let mut buf: Vec<u8> = Vec::new();
    request.write(&mut buf);

    let (back, end) = CreateTopicsRequest::read(&buf, 0).unwrap();
    assert_eq!(back, request);
    assert_eq!(end, buf.len());

    let mut again: Vec<u8> = Vec::new();
    back.write(&mut again);
    assert_eq!(again, buf);
}

#[test]
fn create_topics_request_exact_bytes() {
    let request = CreateTopicsRequest::new(
        vec![CreatableTopic::new(String::from("t"), 2, 3, vec![], vec![])],
        500,
    );
    let mut buf: Vec<u8> = Vec::new();
    request.write(&mut buf);
    assert_eq!(
        buf,
        vec![
            0x00, 0x00, 0x00, 0x01, // one topic
            0x00, 0x01, b't', // name
            0x00, 0x00, 0x00, 0x02, // num_partitions
            0x00, 0x03, // replication_factor
            0x00, 0x00, 0x00, 0x00, // no assignments
            0x00, 0x00, 0x00, 0x00, // no configs
            0x00, 0x00, 0x01, 0xF4, // timeout_ms
        ]
    );
}

#[test]
fn topic_with_configs_round_trip() {
    let topic = CreatableTopic::new(
        String::from("logs"),
        4,
        2,
        vec![
            CreatableReplicaAssignment::new(0, vec![1, 2]),
            CreatableReplicaAssignment::new(1, vec![2, 3]),
        ],
        vec![
            CreateableTopicConfig::new(String::from("cleanup.policy"), Some(String::from("compact"))),
            CreateableTopicConfig::new(String::from("rack"), None),
        ],
    );
    let mut buf: Vec<u8> = Vec::new();
    topic.write(&mut buf);
    let (back, end) = CreatableTopic::read(&buf, 0).unwrap();
    assert_eq!(back, topic);
    assert_eq!(end, buf.len());
}

#[test]
fn truncated_topic_is_eof() {
    let topic = CreatableTopic::new(String::from("a"), 1, 1, vec![], vec![]);
    let mut buf: Vec<u8> = Vec::new();
    topic.write(&mut buf);
    buf.pop();
    let err = CreatableTopic::read(&buf, 0).expect_err("truncated");
    assert_eq!(err, DecodeError::UnexpectedEof);
}
