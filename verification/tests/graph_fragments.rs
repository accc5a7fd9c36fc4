//! Fragment-level merging: held keys merge node-wise, fresh keys are
//! appended, edges stay a set. And the deployment route's status mapping.

use sqs_executor::{
    deploy_response_status, CustomError, DynamicNode, Edge, Graph, Node, NodeProperty,
};

fn dynamic(key: &str, prop: &str, value: u64) -> Node {
    let mut n = DynamicNode::new(key.to_string(), "t".to_string(), 0, Vec::new());
    n.set_property(prop.to_string(), NodeProperty::UintProp(value));
    Node::Dynamic(n)
}

fn edge(from: &str, to: &str, name: &str) -> Edge {
    Edge {
        from_key: from.to_string(),
        to_key: to.to_string(),
        edge_name: name.to_string(),
    }
}

#[test]
fn graph_merge_unites_nodes_and_edges() {
    let mut a = Graph::new();
    a.add_node(dynamic("k1", "x", 1));
    a.add_edge(edge("k1", "k2", "spawned"));

    let mut b = Graph::new();
    b.add_node(dynamic("k1", "y", 2));
    b.add_node(dynamic("k3", "z", 3));
    b.add_edge(edge("k1", "k2", "spawned"));
    b.add_edge(edge("k1", "k3", "wrote"));

    a.merge(b);

    // One merged node, one appended, no duplicate edges.
    assert_eq!(a.node_count(), 2);
    assert_eq!(a.edge_count(), 2);
    match &a.nodes[0] {
        Node::Dynamic(n) => {
            assert!(n.get_property("x").is_some());
            assert!(n.get_property("y").is_some());
        }
        _ => panic!("expected a dynamic node"),
    }
    match &a.nodes[1] {
        Node::Dynamic(n) => assert_eq!(n.get_node_key().as_str(), "k3"),
        _ => panic!("expected a dynamic node"),
    }
}

#[test]
fn graph_add_edge_deduplicates() {
    let mut g = Graph::new();
    g.add_edge(edge("a", "b", "n"));
    g.add_edge(edge("a", "b", "n"));
    g.add_edge(edge("a", "b", "m"));
    assert_eq!(g.edge_count(), 2);
}

#[test]
fn graph_add_node_merges_same_key() {
    let mut g = Graph::new();
    g.add_node(dynamic("k", "a", 1));
    g.add_node(dynamic("k", "b", 2));
    assert_eq!(g.node_count(), 1);
    match &g.nodes[0] {
        Node::Dynamic(n) => {
            assert!(n.get_property("a").is_some());
            assert!(n.get_property("b").is_some());
        }
        _ => panic!("expected a dynamic node"),
    }
}

#[test]
fn deploy_status_mapping() {
    assert_eq!(deploy_response_status(&Ok(())), 200);
    assert_eq!(
        deploy_response_status(&Err(CustomError::InvalidSchema)),
        400
    );
    assert_eq!(deploy_response_status(&Err(CustomError::ReadError)), 409);
    assert_eq!(deploy_response_status(&Err(CustomError::ServerError)), 400);
    assert_eq!(deploy_response_status(&Err(CustomError::RequestError)), 500);
}

#[test]
fn deploy_request_holds_its_name() {
    let req = sqs_executor::DeployRequest {
        name: "my-plugin".to_string(),
    };
    assert_eq!(req.name, "my-plugin");
}
