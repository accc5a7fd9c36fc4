//! Predicate attachment: the nodes materialise themselves into the graph
//! store's mutation units, absent fields omitted.

use sqs_executor::{
    new_mutation_unit, DynamicNode, File, IpConnection, IpConnectionState, NodeProperty,
};

fn unit_as_json(unit: &dgraph_query_lib::mutation::MutationUnit) -> serde_json::Value {
    serde_json::to_value(unit).expect("a mutation unit serializes")
}

#[test]
fn file_attachment_sets_predicates() {
    let mut f = File {
        node_key: "fk".to_string(),
        asset_id: Some("a".to_string()),
        hostname: None,
        state: 1,
        created_timestamp: 100,
        deleted_timestamp: 0,
        last_seen_timestamp: 0,
        file_name: "evil.exe".to_string(),
        file_path: String::new(),
        file_extension: String::new(),
        file_mime_type: String::new(),
        file_size: 2048,
        file_version: String::new(),
        file_description: String::new(),
        file_product: String::new(),
        file_company: String::new(),
        file_directory: String::new(),
        file_inode: 0,
        file_hard_links: 0,
        md5_hash: String::new(),
        sha1_hash: String::new(),
        sha256_hash: "beef".to_string(),
    };
    f.set_node_key("fk".to_string());

    let mut unit = new_mutation_unit();
    f.attach_predicates_to_mutation_unit(&mut unit);
    let v = unit_as_json(&unit);

    assert_eq!(v["node_key"], serde_json::Value::String("fk".to_string()));
    assert_eq!(
        v["dgraph.type"],
        serde_json::Value::String("File".to_string())
    );
    assert_eq!(
        v["file_name"],
        serde_json::Value::String("evil.exe".to_string())
    );
    assert_eq!(v["file_size"], serde_json::Value::from(2048i64));
    assert_eq!(v["created_time"], serde_json::Value::from(100i64));
    assert_eq!(
        v["sha256_hash"],
        serde_json::Value::String("beef".to_string())
    );
    // Absent fields are omitted.
    assert!(v.get("file_path").is_none());
    assert!(v.get("deleted_timestamp").is_none());
    assert!(v.get("file_inode").is_none());
}

#[test]
fn ip_connection_attachment_sets_predicates() {
    let mut c = IpConnection::new(
        "10.0.0.1".to_string(),
        "10.0.0.2".to_string(),
        "tcp".to_string(),
        IpConnectionState::Created,
        5,
        0,
        9,
    );
    c.set_node_key("ck".to_string());

    let mut unit = new_mutation_unit();
    c.attach_predicates_to_mutation_unit(&mut unit);
    let v = unit_as_json(&unit);

    assert_eq!(
        v["dgraph.type"],
        serde_json::Value::String("IpConnection".to_string())
    );
    assert_eq!(
        v["src_ip_address"],
        serde_json::Value::String("10.0.0.1".to_string())
    );
    assert_eq!(
        v["dst_ip_address"],
        serde_json::Value::String("10.0.0.2".to_string())
    );
    assert_eq!(v["protocol"], serde_json::Value::String("tcp".to_string()));
    assert_eq!(v["created_timestamp"], serde_json::Value::from(5i64));
    assert_eq!(v["last_seen_timestamp"], serde_json::Value::from(9i64));
    assert!(v.get("terminated_timestamp").is_none());
}

#[test]
fn dynamic_node_attachment_sets_typed_predicates() {
    let mut n = DynamicNode::new("dk".to_string(), "plugin_node".to_string(), 33, Vec::new());
    n.set_asset_id("asset-5".to_string());
    n.set_property("count".to_string(), NodeProperty::UintProp(12));
    n.set_property("delta".to_string(), NodeProperty::IntProp(-3));
    n.set_property("name".to_string(), NodeProperty::StrProp("svc".to_string()));

    let mut unit = new_mutation_unit();
    n.attach_predicates_to_mutation_unit(&mut unit);
    let v = unit_as_json(&unit);

    assert_eq!(v["node_key"], serde_json::Value::String("dk".to_string()));
    assert_eq!(v["seen_at"], serde_json::Value::from(33i64));
    assert_eq!(
        v["dgraph.type"],
        serde_json::Value::String("plugin_node".to_string())
    );
    assert_eq!(
        v["asset_id"],
        serde_json::Value::String("asset-5".to_string())
    );
    assert_eq!(v["count"], serde_json::Value::from(12i64));
    assert_eq!(v["delta"], serde_json::Value::from(-3i64));
    assert_eq!(v["name"], serde_json::Value::String("svc".to_string()));
}

#[test]
fn attachment_overwrites_same_name() {
    let mut n = DynamicNode::new("dk".to_string(), "t".to_string(), 0, Vec::new());
    n.set_property("flip".to_string(), NodeProperty::StrProp("text".to_string()));

    let mut unit = new_mutation_unit();
    n.attach_predicates_to_mutation_unit(&mut unit);

    // Attaching a numeric value under the same name replaces the string.
    let mut m = DynamicNode::new("dk".to_string(), "t".to_string(), 0, Vec::new());
    m.set_property("flip".to_string(), NodeProperty::UintProp(4));
    m.attach_predicates_to_mutation_unit(&mut unit);

    let v = unit_as_json(&unit);
    assert_eq!(v["flip"], serde_json::Value::from(4i64));
}
