use kafka_proto::registry::{
    lookup, ApiMessageType, API_KEY_API_VERSIONS, API_KEY_CONTROLLED_SHUTDOWN,
    API_KEY_CREATE_TOPICS,
};

#[test]
fn api_versions_response_header_stays_v0() {
    let t = ApiMessageType::api_versions();
    for v in 0..=3i16 {
        assert_eq!(t.response_header_version(v), 0);
    }
    assert_eq!(t.request_header_version(0), 1);
    assert_eq!(t.request_header_version(2), 1);
    assert_eq!(t.request_header_version(3), 2);
}

#[test]
fn create_topics_header_versions_flip_at_flexible() {
    let t = ApiMessageType::create_topics();
    assert_eq!(t.request_header_version(0), 1);
    assert_eq!(t.request_header_version(4), 1);
    assert_eq!(t.request_header_version(5), 2);
    assert_eq!(t.response_header_version(4), 0);
    assert_eq!(t.response_header_version(5), 1);
    assert!(t.supports_version(0));
    assert!(t.supports_version(7));
    assert!(!t.supports_version(8));
    assert!(!t.is_flexible(4));
    assert!(t.is_flexible(5));
}

#[test]
fn controlled_shutdown_v0_uses_bare_header() {
    let t = ApiMessageType::controlled_shutdown();
    assert_eq!(t.request_header_version(0), 0);
    assert_eq!(t.request_header_version(1), 1);
    assert_eq!(t.request_header_version(3), 2);
}

#[test]
fn lookup_finds_known_keys_and_rejects_others() {
    assert_eq!(lookup(API_KEY_API_VERSIONS).unwrap().api_key, 18);
    assert_eq!(lookup(API_KEY_CREATE_TOPICS).unwrap().api_key, 19);
    assert_eq!(lookup(API_KEY_CONTROLLED_SHUTDOWN).unwrap().api_key, 7);
    assert!(lookup(9999).is_none());
    assert!(lookup(-1).is_none());
}
