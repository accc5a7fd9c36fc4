//! The sink key format, decimal rendering, and the identity strings the
//! nodes contribute for deduplication.

use sqs_executor::{
    build_key, i64_to_dec_string, time_based_key_fn, u64_to_dec_string, DynamicNode, IpConnection,
    IpConnectionState, NodeProperty, ProcessInboundConnection, ProcessInboundConnectionState,
};

#[test]
fn decimal_rendering_is_exact() {
    assert_eq!(u64_to_dec_string(0), "0");
    assert_eq!(u64_to_dec_string(7), "7");
    assert_eq!(u64_to_dec_string(86400), "86400");
    assert_eq!(u64_to_dec_string(18446744073709551615), "18446744073709551615");
    assert_eq!(i64_to_dec_string(-42), "-42");
    assert_eq!(i64_to_dec_string(42), "42");
    assert_eq!(i64_to_dec_string(i64::MIN), "-9223372036854775808");
}

#[test]
fn build_key_exact_value() {
    // The day bucket is the clock reading rounded down by 86 400.
    assert_eq!(build_key(86400123, "abc"), "86400000/86400123-abc");
    assert_eq!(build_key(123, "u"), "0/123-u");
}

#[test]
fn time_based_key_matches_format() {
    // `^\d+/\d+-[0-9a-f-]{36}$`, leading integer divisible by 86 400.
    let key = time_based_key_fn(b"payload");
    let slash = key.find('/').expect("key must hold a slash");
    let (day_part, rest) = key.split_at(slash);
    let rest = &rest[1..];
    let dash = rest.find('-').expect("key must hold a dash");
    let (ms_part, uuid_part) = rest.split_at(dash);
    let uuid_part = &uuid_part[1..];

    assert!(!day_part.is_empty());
    assert!(day_part.chars().all(|c| c.is_ascii_digit()));
    assert!(!ms_part.is_empty());
    assert!(ms_part.chars().all(|c| c.is_ascii_digit()));
    assert_eq!(uuid_part.len(), 36);
    assert!(uuid_part
        .chars()
        .all(|c| c == '-' || c.is_ascii_digit() || ('a'..='f').contains(&c)));

    let day: u64 = day_part.parse().unwrap();
    assert_eq!(day % 86400, 0);
    let ms: u64 = ms_part.parse().unwrap();
    assert_eq!(ms - ms % 86400, day);
}

#[test]
fn two_keys_differ_in_their_identifier() {
    let a = time_based_key_fn(b"x");
    let b = time_based_key_fn(b"x");
    assert_ne!(a, b);
}

#[test]
fn ip_connection_identity_strings() {
    let mut c = IpConnection::new(
        "10.0.0.1".to_string(),
        "10.0.0.2".to_string(),
        "tcp".to_string(),
        IpConnectionState::Created,
        5,
        0,
        9,
    );
    c.set_node_key("key-1".to_string());
    let identities = c.get_cache_identities_for_predicates();
    assert_eq!(
        identities,
        vec![
            "key-1:src_ip_address:10.0.0.1".to_string(),
            "key-1:dst_ip_address:10.0.0.2".to_string(),
            "key-1:protocol:tcp".to_string(),
            "key-1:created_timestamp:5".to_string(),
            "key-1:last_seen_timestamp:9".to_string(),
        ]
    );
}

#[test]
fn process_inbound_connection_identity_strings() {
    let mut c = ProcessInboundConnection::new(
        Some("asset".to_string()),
        None,
        ProcessInboundConnectionState::Bound,
        443,
        "10.1.1.1".to_string(),
        "tcp".to_string(),
        0,
        0,
        0,
    );
    c.set_node_key("key-2".to_string());
    let identities = c.get_cache_identities_for_predicates();
    assert_eq!(
        identities,
        vec![
            "key-2:protocol:tcp".to_string(),
            "key-2:port:443".to_string(),
        ]
    );
}

#[test]
fn dynamic_node_identity_strings() {
    let mut n = DynamicNode::new("dk".to_string(), "t".to_string(), 0, Vec::new());
    n.set_property("count".to_string(), NodeProperty::UintProp(12));
    n.set_property("delta".to_string(), NodeProperty::IntProp(-3));
    n.set_property("name".to_string(), NodeProperty::StrProp("svc".to_string()));
    let identities = n.get_cache_identities_for_predicates();
    assert_eq!(
        identities,
        vec![
            "dk:count:12".to_string(),
            "dk:delta:-3".to_string(),
            "dk:name:svc".to_string(),
        ]
    );
}

#[test]
fn file_identity_strings_skip_absent_fields() {
    let mut f = sqs_executor::File {
        node_key: "fk".to_string(),
        asset_id: Some("a".to_string()),
        hostname: None,
        state: 1,
        created_timestamp: 100,
        deleted_timestamp: 0,
        last_seen_timestamp: 0,
        file_name: "evil.exe".to_string(),
        file_path: String::new(),
        file_extension: String::new(),
        file_mime_type: String::new(),
        file_size: 2048,
        file_version: String::new(),
        file_description: String::new(),
        file_product: String::new(),
        file_company: String::new(),
        file_directory: String::new(),
        file_inode: 0,
        file_hard_links: 0,
        md5_hash: String::new(),
        sha1_hash: String::new(),
        sha256_hash: "beef".to_string(),
    };
    f.set_node_key("fk".to_string());
    let identities = f.get_cache_identities_for_predicates();
    assert_eq!(
        identities,
        vec![
            "fk:file_name:evil.exe".to_string(),
            "fk:file_size:2048".to_string(),
            "fk:sha256_hash:beef".to_string(),
            "fk:created_timestamp:100".to_string(),
        ]
    );
}
