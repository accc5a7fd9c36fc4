//! Node-level merge behaviour: fill rules, timestamp min/max, refusal on
//! mismatched identities, and the dynamic node's overwrite rule.

use sqs_executor::{
    DynamicNode, Error, File, FileState, IdStrategy, IpConnection, IpConnectionState,
    NodeProperty, ProcessInboundConnection, ProcessInboundConnectionState,
};

fn sample_file(node_key: &str) -> File {
    File {
        node_key: node_key.to_string(),
        asset_id: Some("asset-1".to_string()),
        hostname: None,
        state: 1,
        created_timestamp: 0,
        deleted_timestamp: 0,
        last_seen_timestamp: 0,
        file_name: String::new(),
        file_path: String::new(),
        file_extension: String::new(),
        file_mime_type: String::new(),
        file_size: 0,
        file_version: String::new(),
        file_description: String::new(),
        file_product: String::new(),
        file_company: String::new(),
        file_directory: String::new(),
        file_inode: 0,
        file_hard_links: 0,
        md5_hash: String::new(),
        sha1_hash: String::new(),
        sha256_hash: String::new(),
    }
}

#[test]
fn file_merge_fills_empty_fields() {
    let mut a = sample_file("k1");
    a.file_name = "cmd.exe".to_string();
    let mut b = sample_file("k1");
    b.hostname = Some("host-9".to_string());
    b.file_name = "other.exe".to_string();
    b.file_path = "C:/Windows".to_string();
    b.file_inode = 77;

    let merged = a.merge(&b);
    assert!(merged);
    // A non-empty field is never overwritten.
    assert_eq!(a.file_name, "cmd.exe");
    // Empty fields are filled from the other side.
    assert_eq!(a.hostname.as_deref(), Some("host-9"));
    assert_eq!(a.file_path, "C:/Windows");
    assert_eq!(a.file_inode, 77);
    // The asset id was already present on both: first wins.
    assert_eq!(a.asset_id.as_deref(), Some("asset-1"));
}

#[test]
fn file_merge_refuses_different_keys() {
    let mut a = sample_file("k1");
    a.file_name = "left".to_string();
    let mut b = sample_file("k2");
    b.file_name = "right".to_string();
    let before = a.clone();

    let merged = a.merge(&b);
    assert!(!merged);
    // Both operands untouched.
    assert_eq!(a.file_name, before.file_name);
    assert_eq!(a.node_key, before.node_key);
    assert_eq!(b.file_name, "right");
}

#[test]
fn file_merge_identical_reports_no_change() {
    let mut a = sample_file("k1");
    a.file_name = "same".to_string();
    a.created_timestamp = 5;
    let b = a.clone();
    let merged = a.merge(&b);
    assert!(!merged);
}

#[test]
fn file_timestamps_min_and_max() {
    let mut a = sample_file("k1");
    a.created_timestamp = 9;
    a.deleted_timestamp = 3;
    a.last_seen_timestamp = 10;
    let mut b = sample_file("k1");
    b.created_timestamp = 5;
    b.deleted_timestamp = 8;
    b.last_seen_timestamp = 7;

    assert!(a.merge(&b));
    assert_eq!(a.created_timestamp, 5);
    assert_eq!(a.deleted_timestamp, 8);
    assert_eq!(a.last_seen_timestamp, 10);
}

#[test]
fn created_zero_means_absent() {
    // Created-family timestamps take the minimum of the non-zero inputs.
    let mut a = IpConnection::new(
        "10.0.0.1".to_string(),
        "10.0.0.2".to_string(),
        "tcp".to_string(),
        IpConnectionState::Created,
        0,
        0,
        10,
    );
    let mut b = a.clone();
    b.created_timestamp = 5;
    b.last_seen_timestamp = 7;

    assert!(a.merge(&b));
    assert_eq!(a.created_timestamp, 5);
    assert_eq!(a.last_seen_timestamp, 10);
}

#[test]
fn ip_connection_merge_is_commutative_on_timestamps() {
    let base = IpConnection::new(
        "10.0.0.1".to_string(),
        "10.0.0.2".to_string(),
        "tcp".to_string(),
        IpConnectionState::Created,
        4,
        9,
        11,
    );
    let mut other = base.clone();
    other.created_timestamp = 6;
    other.terminated_timestamp = 2;
    other.last_seen_timestamp = 20;

    let mut left = base.clone();
    left.merge(&other);
    let mut right = other.clone();
    right.merge(&base);
    assert_eq!(left.created_timestamp, right.created_timestamp);
    assert_eq!(left.terminated_timestamp, right.terminated_timestamp);
    assert_eq!(left.last_seen_timestamp, right.last_seen_timestamp);
}

#[test]
fn ip_connection_refuses_mismatched_endpoints() {
    let mut a = IpConnection::new(
        "10.0.0.1".to_string(),
        "10.0.0.2".to_string(),
        "tcp".to_string(),
        IpConnectionState::Created,
        4,
        0,
        0,
    );
    let mut b = a.clone();
    b.protocol = "udp".to_string();
    b.created_timestamp = 1;
    let merged = a.merge(&b);
    assert!(!merged);
    assert_eq!(a.created_timestamp, 4);
}

#[test]
fn ip_connection_state_codes_round_trip() {
    for code in 1u32..=3 {
        let state = IpConnectionState::try_from(code).unwrap();
        assert_eq!(state.into_u32(), code);
    }
    assert_eq!(
        IpConnectionState::try_from(9),
        Err(Error::InvalidIpConnectionState(9))
    );
}

#[test]
fn file_state_codes_round_trip() {
    assert_eq!(FileState::try_from(1).unwrap(), FileState::Created);
    assert_eq!(FileState::try_from(2).unwrap(), FileState::Deleted);
    assert_eq!(FileState::try_from(3).unwrap(), FileState::Existing);
    assert_eq!(FileState::try_from(0), Err(Error::InvalidProcessState(0)));
    assert_eq!(FileState::Existing.into_u32(), 3);
}

#[test]
fn file_new_places_timestamp_by_state() {
    let f = File::new(
        Some("asset".to_string()),
        None,
        FileState::Deleted,
        42,
        String::new(),
        String::new(),
        String::new(),
        String::new(),
        0,
        String::new(),
        String::new(),
        String::new(),
        String::new(),
        String::new(),
        0,
        0,
        String::new(),
        String::new(),
        String::new(),
    );
    assert_eq!(f.deleted_timestamp, 42);
    assert_eq!(f.created_timestamp, 0);
    assert_eq!(f.last_seen_timestamp, 0);
    assert_eq!(f.node_key.len(), 36);
    assert_eq!(f.timestamp(), 42);
}

#[test]
fn process_inbound_connection_merge_rules() {
    let mut a = ProcessInboundConnection::new(
        Some("asset".to_string()),
        None,
        ProcessInboundConnectionState::Bound,
        443,
        "10.1.1.1".to_string(),
        "tcp".to_string(),
        9,
        0,
        4,
    );
    let mut b = a.clone();
    b.asset_id = None;
    b.hostname = Some("h".to_string());
    b.created_timestamp = 3;
    b.terminated_timestamp = 6;
    b.last_seen_timestamp = 2;

    assert!(a.merge(&b));
    assert_eq!(a.created_timestamp, 3);
    assert_eq!(a.terminated_timestamp, 6);
    assert_eq!(a.last_seen_timestamp, 4);
    // The owner fields fill silently.
    assert_eq!(a.hostname.as_deref(), Some("h"));
    assert_eq!(a.asset_id.as_deref(), Some("asset"));

    // A differing address refuses the merge.
    let mut c = a.clone();
    c.ip_address = "10.9.9.9".to_string();
    c.created_timestamp = 1;
    assert!(!a.merge(&c));
    assert_eq!(a.created_timestamp, 3);
}

#[test]
fn process_inbound_connection_state_codes() {
    assert_eq!(
        ProcessInboundConnectionState::try_from(2).unwrap(),
        ProcessInboundConnectionState::Closed
    );
    assert_eq!(
        ProcessInboundConnectionState::try_from(7),
        Err(Error::InvalidProcessInboundConnectionState(7))
    );
    assert_eq!(ProcessInboundConnectionState::Bound.into_u32(), 1);
}

#[test]
fn dynamic_node_incoming_value_overwrites() {
    let mut a = DynamicNode::new("dk".to_string(), "plugin_node".to_string(), 1, Vec::new());
    a.set_property("color".to_string(), NodeProperty::StrProp("red".to_string()));
    a.set_property("count".to_string(), NodeProperty::UintProp(3));

    let mut b = DynamicNode::new("dk".to_string(), "plugin_node".to_string(), 1, Vec::new());
    b.set_property("color".to_string(), NodeProperty::StrProp("blue".to_string()));
    b.set_property("size".to_string(), NodeProperty::IntProp(-2));

    let merged = a.merge(&b);
    assert!(merged);
    match a.get_property("color") {
        Some(NodeProperty::StrProp(v)) => assert_eq!(v, "blue"),
        other => panic!("unexpected property: {:?}", other),
    }
    match a.get_property("count") {
        Some(NodeProperty::UintProp(v)) => assert_eq!(*v, 3),
        other => panic!("unexpected property: {:?}", other),
    }
    match a.get_property("size") {
        Some(NodeProperty::IntProp(v)) => assert_eq!(*v, -2),
        other => panic!("unexpected property: {:?}", other),
    }
}

#[test]
fn dynamic_node_merge_flag_needs_overlap() {
    let mut a = DynamicNode::new("dk".to_string(), "t".to_string(), 1, Vec::new());
    a.set_property("left".to_string(), NodeProperty::UintProp(1));
    let mut b = DynamicNode::new("dk".to_string(), "t".to_string(), 1, Vec::new());
    b.set_property("right".to_string(), NodeProperty::UintProp(2));
    assert!(!a.merge(&b));
    assert!(a.get_property("right").is_some());

    let mut c = DynamicNode::new("other".to_string(), "t".to_string(), 1, Vec::new());
    c.set_property("left".to_string(), NodeProperty::UintProp(9));
    assert!(!a.merge(&c));
    match a.get_property("left") {
        Some(NodeProperty::UintProp(v)) => assert_eq!(*v, 1),
        other => panic!("unexpected property: {:?}", other),
    }
}

#[test]
fn dynamic_node_asset_identification() {
    let strategies = vec![
        IdStrategy::Session {
            primary_key_requires_asset_id: false,
        },
        IdStrategy::Static {
            primary_key_requires_asset_id: true,
        },
    ];
    let n = DynamicNode::new("dk".to_string(), "t".to_string(), 0, strategies);
    assert!(n.requires_asset_identification());
    assert_eq!(n.get_id_strategies().len(), 2);

    let quiet = DynamicNode::new(
        "dk".to_string(),
        "t".to_string(),
        0,
        vec![IdStrategy::Session {
            primary_key_requires_asset_id: false,
        }],
    );
    assert!(!quiet.requires_asset_identification());
}

#[test]
fn dynamic_node_set_key_and_asset() {
    let mut n = DynamicNode::new("dk".to_string(), "t".to_string(), 0, Vec::new());
    n.set_key("new-key".to_string());
    assert_eq!(n.get_node_key().as_str(), "new-key");
    n.set_asset_id("a-7".to_string());
    assert_eq!(n.get_asset_id().map(String::as_str), Some("a-7"));
}
