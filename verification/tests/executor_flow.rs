//! Executor behaviour: failure routing, publish-before-cache ordering,
//! deduplication against the cache, and the parallelism bound.

use sqs_executor::{
    batch_in_flight, make_ten, process_message, Action, BatchItem, Cache, CacheResponse,
    CheckedError, CompletedEvents, Graph, MemCache, NopCache, Recoverable, RetrievalOutcome,
    SlotPool, SysmonGeneratorError,
};

fn fragment_with_key(key: &str) -> Graph {
    let mut g = Graph::new();
    g.add_node(sqs_executor::Node::Dynamic(sqs_executor::DynamicNode::new(
        key.to_string(),
        "unit".to_string(),
        1,
        Vec::new(),
    )));
    g
}

fn decoded(identity: &str, key: &str) -> BatchItem {
    BatchItem::Decoded {
        identity: identity.to_string(),
        derivation: Some(fragment_with_key(key)),
    }
}

fn kinds(plan: &[Action]) -> Vec<&'static str> {
    plan.iter()
        .map(|a| match a {
            Action::Publish(_) => "publish",
            Action::StoreIdentities(_) => "store",
            Action::DeadletterPublish => "deadletter",
            Action::DeleteSource => "delete",
        })
        .collect()
}

#[test]
fn persistent_retrieval_failure_deadletters_once() {
    let mut cache = MemCache::new();
    let plan = process_message(
        RetrievalOutcome::Failed(Recoverable::Persistent),
        &mut cache,
    );
    assert_eq!(kinds(&plan), vec!["deadletter", "delete"]);
}

#[test]
fn transient_retrieval_failure_leaves_queue_alone() {
    let mut cache = MemCache::new();
    let plan = process_message(
        RetrievalOutcome::Failed(Recoverable::Transient),
        &mut cache,
    );
    assert!(plan.is_empty());
}

#[test]
fn expired_payload_is_acknowledged_silently() {
    let mut cache = MemCache::new();
    let plan = process_message(RetrievalOutcome::Expired, &mut cache);
    assert_eq!(kinds(&plan), vec!["delete"]);
}

#[test]
fn complete_batch_publishes_stores_acknowledges() {
    let mut cache = MemCache::new();
    let items = vec![decoded("id-1", "k-1"), decoded("id-2", "k-2")];
    let plan = process_message(RetrievalOutcome::Batch(items), &mut cache);
    assert_eq!(kinds(&plan), vec!["publish", "store", "delete"]);
    match &plan[0] {
        Action::Publish(g) => assert_eq!(g.nodes.len(), 2),
        _ => panic!("expected a publish action"),
    }
    match &plan[1] {
        Action::StoreIdentities(ids) => assert_eq!(ids, &vec!["id-1".to_string(), "id-2".to_string()]),
        _ => panic!("expected a store action"),
    }
}

#[test]
fn partial_batch_publishes_then_deadletters() {
    // Three records; the middle one cannot be decoded.
    let mut cache = MemCache::new();
    let items = vec![
        decoded("id-1", "k-1"),
        BatchItem::Undecodable,
        decoded("id-3", "k-3"),
    ];
    let plan = process_message(RetrievalOutcome::Batch(items), &mut cache);
    assert_eq!(kinds(&plan), vec!["publish", "store", "deadletter", "delete"]);
    match &plan[0] {
        Action::Publish(g) => assert_eq!(g.nodes.len(), 2),
        _ => panic!("expected a publish action"),
    }
    match &plan[1] {
        Action::StoreIdentities(ids) => {
            assert_eq!(ids, &vec!["id-1".to_string(), "id-3".to_string()])
        }
        _ => panic!("expected a store action"),
    }
}

#[test]
fn store_comes_only_after_publish() {
    // In every plan, an identity store is preceded by a publish.
    let mut cache = MemCache::new();
    let outcomes = vec![
        RetrievalOutcome::Expired,
        RetrievalOutcome::Failed(Recoverable::Transient),
        RetrievalOutcome::Failed(Recoverable::Persistent),
        RetrievalOutcome::Batch(vec![decoded("i", "k")]),
        RetrievalOutcome::Batch(vec![BatchItem::Undecodable]),
    ];
    for outcome in outcomes {
        let plan = process_message(outcome, &mut cache);
        let ks = kinds(&plan);
        for (i, k) in ks.iter().enumerate() {
            if *k == "store" {
                assert!(ks[..i].contains(&"publish"));
            }
        }
    }
}

#[test]
fn cached_identity_is_skipped() {
    // An identity stored in the cache suppresses its item on a later call.
    let mut cache = MemCache::new();
    cache.store("id-1".to_string()).unwrap();

    let items = vec![decoded("id-1", "k-1"), decoded("id-2", "k-2")];
    let plan = process_message(RetrievalOutcome::Batch(items), &mut cache);
    assert_eq!(kinds(&plan), vec!["publish", "store", "delete"]);
    match &plan[0] {
        Action::Publish(g) => assert_eq!(g.nodes.len(), 1),
        _ => panic!("expected a publish action"),
    }
    match &plan[1] {
        Action::StoreIdentities(ids) => assert_eq!(ids, &vec!["id-2".to_string()]),
        _ => panic!("expected a store action"),
    }
}

#[test]
fn redelivered_batch_is_fully_suppressed() {
    // The same batch re-delivered with every identity cached: the handler
    // skips everything, publishes an empty aggregate, and acknowledges.
    let mut cache = MemCache::new();
    cache.store("id-1".to_string()).unwrap();
    cache.store("id-2".to_string()).unwrap();

    let items = vec![decoded("id-1", "k-1"), decoded("id-2", "k-2")];
    let plan = process_message(RetrievalOutcome::Batch(items), &mut cache);
    assert_eq!(kinds(&plan), vec!["publish", "store", "delete"]);
    match &plan[0] {
        Action::Publish(g) => assert_eq!(g.nodes.len(), 0),
        _ => panic!("expected a publish action"),
    }
    match &plan[1] {
        Action::StoreIdentities(ids) => assert!(ids.is_empty()),
        _ => panic!("expected a store action"),
    }
}

#[test]
fn derivation_failure_is_persistent() {
    let mut cache = MemCache::new();
    let items = vec![BatchItem::Decoded {
        identity: "id-1".to_string(),
        derivation: None,
    }];
    let plan = process_message(RetrievalOutcome::Batch(items), &mut cache);
    assert_eq!(kinds(&plan), vec!["publish", "store", "deadletter", "delete"]);
}

#[test]
fn error_classes() {
    assert_eq!(
        SysmonGeneratorError::DeserializeError.error_type(),
        Recoverable::Persistent
    );
    assert_eq!(SysmonGeneratorError::E.error_type(), Recoverable::Persistent);
    assert_eq!(
        SysmonGeneratorError::Unexpected.error_type(),
        Recoverable::Transient
    );
}

#[test]
fn mem_cache_hits_after_store() {
    let mut cache = MemCache::new();
    assert_eq!(cache.get(&"a".to_string()), CacheResponse::Miss);
    cache.store("a".to_string()).unwrap();
    assert_eq!(cache.get(&"a".to_string()), CacheResponse::Hit);
    assert_eq!(cache.get(&"b".to_string()), CacheResponse::Miss);
}

#[test]
fn nop_cache_never_hits() {
    let mut cache = NopCache;
    cache.store("a".to_string()).unwrap();
    assert_eq!(cache.get(&"a".to_string()), CacheResponse::Miss);
}

#[test]
fn completed_events_trail() {
    let mut completed = CompletedEvents::new();
    completed.add_identity("x".to_string());
    completed.add_identity("y".to_string());
    assert_eq!(completed.identities, vec!["x".to_string(), "y".to_string()]);
    completed.clear();
    assert!(completed.identities.is_empty());
}

#[test]
fn slot_pool_bounds_in_flight() {
    let mut pool = SlotPool::new(2);
    assert!(pool.acquire());
    assert!(pool.acquire());
    // All slots busy: a third message must wait.
    assert!(!pool.acquire());
    assert_eq!(pool.in_flight, 2);
    pool.release();
    assert!(pool.acquire());
    assert_eq!(pool.in_flight, 2);
}

#[test]
fn batch_never_exceeds_slots() {
    assert_eq!(batch_in_flight(3, 10), 3);
    assert_eq!(batch_in_flight(25, 10), 10);
    assert_eq!(batch_in_flight(0, 10), 0);
}

#[test]
fn make_ten_clones_the_prototype() {
    let copies = make_ten("stage".to_string());
    assert_eq!(copies.len(), 10);
    for c in copies.iter() {
        assert_eq!(c, "stage");
    }
}

#[test]
fn event_lines_filtered_to_wanted_ids() {
    let payload = b"<e><EventID>1</EventID></e>\n\
                    <e><EventID>2</EventID></e>\n\
                    \n\
                    <e><EventID>3</EventID></e>\n\
                    <e><EventID>11</EventID></e>";
    let lines = sqs_executor::filter_event_lines(payload);
    assert_eq!(lines.len(), 3);
    assert_eq!(lines[0], b"<e><EventID>1</EventID></e>".to_vec());
    assert_eq!(lines[1], b"<e><EventID>3</EventID></e>".to_vec());
    assert_eq!(lines[2], b"<e><EventID>11</EventID></e>".to_vec());
}

#[test]
fn event_filter_drops_empty_and_unwanted() {
    assert!(sqs_executor::filter_event_lines(b"").is_empty());
    assert!(sqs_executor::filter_event_lines(b"\n\n").is_empty());
    assert!(sqs_executor::filter_event_lines(b"<e><EventID>4</EventID></e>").is_empty());
    let kept = sqs_executor::filter_event_lines(b"x EventID>1< y");
    assert_eq!(kept.len(), 1);
}

#[test]
fn handle_event_reports_partial_with_aggregate() {
    let mut cache = MemCache::new();
    let mut completed = CompletedEvents::new();
    let items = vec![decoded("id-1", "k-1"), BatchItem::Undecodable];
    let outcome = sqs_executor::handle_event(items, &mut cache, &mut completed);
    match outcome {
        Err((partial, e)) => {
            assert_eq!(partial.nodes.len(), 1);
            assert_eq!(e, SysmonGeneratorError::DeserializeError);
        }
        Ok(_) => panic!("an undecodable record must surface a failure"),
    }
    assert_eq!(completed.identities, vec!["id-1".to_string()]);

    let mut completed_clean = CompletedEvents::new();
    let clean = sqs_executor::handle_event(
        vec![decoded("id-9", "k-9")],
        &mut cache,
        &mut completed_clean,
    );
    assert!(clean.is_ok());
}

#[test]
fn same_key_fragments_merge_in_the_aggregate() {
    // Two surviving items carry fragments under one node key: the
    // published aggregate holds their merged node, not two nodes.
    let mut cache = MemCache::new();
    let mut one = sqs_executor::DynamicNode::new(
        "shared".to_string(),
        "unit".to_string(),
        1,
        Vec::new(),
    );
    one.set_property("a".to_string(), sqs_executor::NodeProperty::UintProp(1));
    let mut two = sqs_executor::DynamicNode::new(
        "shared".to_string(),
        "unit".to_string(),
        1,
        Vec::new(),
    );
    two.set_property("b".to_string(), sqs_executor::NodeProperty::UintProp(2));

    let mut frag_one = Graph::new();
    frag_one.add_node(sqs_executor::Node::Dynamic(one));
    let mut frag_two = Graph::new();
    frag_two.add_node(sqs_executor::Node::Dynamic(two));

    let items = vec![
        BatchItem::Decoded {
            identity: "id-1".to_string(),
            derivation: Some(frag_one),
        },
        BatchItem::Decoded {
            identity: "id-2".to_string(),
            derivation: Some(frag_two),
        },
    ];
    let plan = process_message(RetrievalOutcome::Batch(items), &mut cache);
    match &plan[0] {
        Action::Publish(g) => {
            assert_eq!(g.nodes.len(), 1);
            match &g.nodes[0] {
                sqs_executor::Node::Dynamic(n) => {
                    assert!(n.get_property("a").is_some());
                    assert!(n.get_property("b").is_some());
                }
                _ => panic!("expected a dynamic node"),
            }
        }
        _ => panic!("expected a publish action"),
    }
}
