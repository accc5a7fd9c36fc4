//! The event handler: turns a batch of decoded input events into one
//! merged graph fragment, an identity trail, and at most one carried
//! failure.
//!
//! Per item: a unit that failed to decode marks a persistent failure and
//! processing continues; a decoded unit whose identity the cache already
//! holds is skipped; a unit whose graph derivation failed marks a
//! persistent failure; a derived fragment is folded into the running
//! aggregate and its identity recorded. The handler reports only the last
//! failure it saw.

use vstd::prelude::*;

use crate::cache::{Cache, CacheResponse};
use crate::errors::{CheckedError, Recoverable};
use crate::graph::{has_edge, has_node, lemma_filter_membership, node_merge_spec, Graph, Node};

verus! {

/// The failures a graph generator surfaces. Failing to read a record and
/// failing to derive its graph are persistent: retrying cannot mend the
/// record. Everything else is transient.
#[derive(Clone, Copy, Debug, PartialEq, Eq, Structural)]
pub enum SysmonGeneratorError {
    E,
    DeserializeError,
    Unexpected,
}

impl CheckedError for SysmonGeneratorError {
    open spec fn spec_error_type(&self) -> Recoverable {
        match *self {
            SysmonGeneratorError::DeserializeError => Recoverable::Persistent,
            SysmonGeneratorError::E => Recoverable::Persistent,
            SysmonGeneratorError::Unexpected => Recoverable::Transient,
        }
    }

    fn error_type(&self) -> (r: Recoverable)
        ensures
            r == self.spec_error_type(),
    {
        match self {
            SysmonGeneratorError::DeserializeError => Recoverable::Persistent,
            SysmonGeneratorError::E => Recoverable::Persistent,
            SysmonGeneratorError::Unexpected => Recoverable::Transient,
        }
    }
}

/// The identity trail a handler call accumulates: every sub-item whose
/// side effects should not be repeated on a future retry.
#[derive(Clone, Debug)]
pub struct CompletedEvents {
    pub identities: Vec<String>,
}

impl CompletedEvents {
    /// An empty trail.
    pub fn new() -> (r: CompletedEvents)
        ensures
            r.identities@.len() == 0,
    {
        CompletedEvents { identities: Vec::new() }
    }

    /// Record one identity.
    pub fn add_identity(&mut self, identity: String)
        ensures
            final(self).identities@ == old(self).identities@.push(identity),
    {
        self.identities.push(identity);
    }

    /// Forget the trail, between messages.
    pub fn clear(&mut self)
        ensures
            final(self).identities@.len() == 0,
    {
        self.identities.clear();
    }
}

/// One decoded unit of a batch, as the pluggable decode and derivation
/// stages left it.
pub enum BatchItem {
    /// The raw unit could not be decoded.
    Undecodable,
    /// The unit decoded to an identity; `derivation` holds its graph
    /// fragment, or nothing when derivation failed.
    Decoded { identity: String, derivation: Option<Graph> },
}

/// A batch item whose fragment, if any, is well-formed.
pub open spec fn item_wf(item: BatchItem) -> bool {
    match item {
        BatchItem::Decoded { derivation: Some(g), .. } => g.wf(),
        _ => true,
    }
}

/// The identities the handler records: each decoded, derivable item whose
/// identity the cache does not hold, in batch order.
pub open spec fn kept_identities(items: Seq<BatchItem>, cached: Set<Seq<char>>) -> Seq<String>
    decreases items.len(),
{
    if items.len() == 0 {
        Seq::empty()
    } else {
        let rest = kept_identities(items.drop_first(), cached);
        match items.first() {
            BatchItem::Decoded { identity, derivation } => if !cached.contains(identity@)
                && derivation is Some {
                seq![identity] + rest
            } else {
                rest
            },
            BatchItem::Undecodable => rest,
        }
    }
}

/// The node keys a fragment holds.
pub open spec fn graph_keys(g: Graph) -> Set<Seq<char>> {
    Set::new(|k: Seq<char>| has_node(g.nodes@, k))
}

/// The node keys of the fragments the handler folds into its aggregate:
/// those of each decoded, derivable item whose identity the cache does
/// not hold.
pub open spec fn kept_fragment_keys(items: Seq<BatchItem>, cached: Set<Seq<char>>) -> Set<
    Seq<char>,
>
    decreases items.len(),
{
    if items.len() == 0 {
        Set::empty()
    } else {
        let rest = kept_fragment_keys(items.drop_first(), cached);
        match items.first() {
            BatchItem::Decoded { identity, derivation } => if !cached.contains(identity@)
                && derivation is Some {
                graph_keys(derivation.unwrap()).union(rest)
            } else {
                rest
            },
            BatchItem::Undecodable => rest,
        }
    }
}

/// The edges a fragment holds, as value triples.
pub open spec fn graph_edges(g: Graph) -> Set<(Seq<char>, Seq<char>, Seq<char>)> {
    Set::new(|ev: (Seq<char>, Seq<char>, Seq<char>)| has_edge(g.edges@, ev))
}

/// The edges of the fragments the handler folds into its aggregate.
pub open spec fn kept_fragment_edges(items: Seq<BatchItem>, cached: Set<Seq<char>>) -> Set<
    (Seq<char>, Seq<char>, Seq<char>),
>
    decreases items.len(),
{
    if items.len() == 0 {
        Set::empty()
    } else {
        let rest = kept_fragment_edges(items.drop_first(), cached);
        match items.first() {
            BatchItem::Decoded { identity, derivation } => if !cached.contains(identity@)
                && derivation is Some {
                graph_edges(derivation.unwrap()).union(rest)
            } else {
                rest
            },
            BatchItem::Undecodable => rest,
        }
    }
}

/// The predicate selecting the nodes under one key.
pub open spec fn key_pred(key: Seq<char>) -> spec_fn(Node) -> bool {
    |n: Node| n.key() == key
}

/// The nodes a fragment holds under one key.
pub open spec fn nodes_under(key: Seq<char>, g: Graph) -> Seq<Node> {
    g.nodes@.filter(key_pred(key))
}

/// The nodes the surviving fragments hold under one key, in batch order.
pub open spec fn nodes_under_items(
    key: Seq<char>,
    items: Seq<BatchItem>,
    cached: Set<Seq<char>>,
) -> Seq<Node>
    decreases items.len(),
{
    if items.len() == 0 {
        Seq::empty()
    } else {
        let rest = nodes_under_items(key, items.drop_first(), cached);
        match items.first() {
            BatchItem::Decoded { identity, derivation } => if !cached.contains(identity@)
                && derivation is Some {
                nodes_under(key, derivation.unwrap()) + rest
            } else {
                rest
            },
            BatchItem::Undecodable => rest,
        }
    }
}

/// The left-fold merge relation over the nodes sharing one key: `m` is
/// the first node, with each later node merged in under
/// [`node_merge_spec`], in order. The handler's aggregate satisfies this
/// for every key it holds.
pub open spec fn node_fold_rel(nodes: Seq<Node>, m: Node) -> bool
    decreases nodes.len(),
{
    if nodes.len() == 0 {
        false
    } else if nodes.len() == 1 {
        m == nodes[0]
    } else {
        exists|mid: Node|
            node_fold_rel(nodes.drop_last(), mid) && #[trigger] node_merge_spec(
                mid,
                nodes.last(),
                m,
            )
    }
}

/// Under unique keys, a fragment holds at most one node per key, and the
/// nodes under the key are exactly that node.
proof fn lemma_filter_key_single(s: Seq<Node>, key: Seq<char>)
    requires
        forall|i: int, j: int|
            0 <= i < j < s.len() ==> (#[trigger] s[i]).key() != (#[trigger] s[j]).key(),
    ensures
        !has_node(s, key) ==> s.filter(key_pred(key)) == Seq::<Node>::empty(),
        has_node(s, key) ==> exists|w: int|
            0 <= w < s.len() && (#[trigger] s[w]).key() == key && s.filter(key_pred(key)) == seq![
                s[w],
            ],
    decreases s.len(),
{
    reveal(Seq::filter);
    let pred = key_pred(key);
    if s.len() == 0 {
        assert(s.filter(pred) =~= Seq::<Node>::empty());
        if has_node(s, key) {
            let i = choose|i: int| 0 <= i < s.len() && (#[trigger] s[i]).key() == key;
            assert(false);
        }
    } else {
        let t = s.drop_last();
        assert forall|i: int, j: int| 0 <= i < j < t.len() implies (#[trigger] t[i]).key() != (
        #[trigger] t[j]).key() by {
            assert(t[i] == s[i]);
            assert(t[j] == s[j]);
        }
        lemma_filter_key_single(t, key);
        assert(s.last() == s[s.len() - 1]);
        if s.last().key() == key {
            assert(pred(s.last()));
            if has_node(t, key) {
                let i = choose|i: int| 0 <= i < t.len() && (#[trigger] t[i]).key() == key;
                assert(t[i] == s[i]);
                assert((s[i]).key() == (s[s.len() - 1]).key());
                assert(false);
            }
            assert(t.filter(pred) == Seq::<Node>::empty());
            assert(s.filter(pred) == t.filter(pred).push(s.last()));
            assert(s.filter(pred) =~= seq![s[s.len() - 1]]);
            assert((s[s.len() - 1]).key() == key);
        } else {
            assert(!pred(s.last()));
            assert(s.filter(pred) == t.filter(pred));
            if has_node(s, key) {
                let i = choose|i: int| 0 <= i < s.len() && (#[trigger] s[i]).key() == key;
                assert(i < s.len() - 1);
                assert(t[i] == s[i]);
                assert(has_node(t, key));
                let w = choose|w: int|
                    0 <= w < t.len() && (#[trigger] t[w]).key() == key && t.filter(pred) == seq![
                        t[w],
                    ];
                assert(t[w] == s[w]);
                assert((s[w]).key() == key && s.filter(pred) == seq![s[w]]);
            } else {
                if has_node(t, key) {
                    let i = choose|i: int| 0 <= i < t.len() && (#[trigger] t[i]).key() == key;
                    assert(t[i] == s[i]);
                    assert(false);
                }
            }
        }
    }
}

/// One step of the per-key node fold: taking one more item appends the
/// nodes its fragment holds under the key exactly when the item survives.
proof fn lemma_nodes_under_items_step(
    key: Seq<char>,
    items: Seq<BatchItem>,
    k: int,
    cached: Set<Seq<char>>,
)
    requires
        0 <= k < items.len(),
    ensures
        nodes_under_items(key, items.take(k + 1), cached) == match items[k] {
            BatchItem::Decoded { identity, derivation } => if !cached.contains(identity@)
                && derivation is Some {
                nodes_under_items(key, items.take(k), cached) + nodes_under(
                    key,
                    derivation.unwrap(),
                )
            } else {
                nodes_under_items(key, items.take(k), cached)
            },
            BatchItem::Undecodable => nodes_under_items(key, items.take(k), cached),
        },
    decreases k,
{
    let t1 = items.take(k + 1);
    let t0 = items.take(k);
    if k == 0 {
        assert(t1.drop_first() =~= Seq::<BatchItem>::empty());
        assert(t1.first() == items[0]);
        assert(t0 =~= Seq::<BatchItem>::empty());
        match items[0] {
            BatchItem::Decoded { identity, derivation } => {
                if !cached.contains(identity@) && derivation is Some {
                    assert(nodes_under_items(key, t1, cached) =~= nodes_under_items(key, t0, cached)
                        + nodes_under(key, derivation.unwrap()));
                }
            },
            BatchItem::Undecodable => {},
        }
    } else {
        lemma_nodes_under_items_step(key, items.drop_first(), k - 1, cached);
        assert(t1.first() == items[0]);
        assert(t1.drop_first() =~= items.drop_first().take(k));
        assert(t0.first() == items[0]);
        assert(t0.drop_first() =~= items.drop_first().take(k - 1));
        assert(items.drop_first()[k - 1] == items[k]);
        match items[k] {
            BatchItem::Decoded { identity, derivation } => {
                if !cached.contains(identity@) && derivation is Some {
                    let tail_nodes = nodes_under(key, derivation.unwrap());
                    let rest0 = nodes_under_items(key, items.drop_first().take(k - 1), cached);
                    match items[0] {
                        BatchItem::Decoded { identity: id0, derivation: d0 } => {
                            if !cached.contains(id0@) && d0 is Some {
                                let c0 = nodes_under(key, d0.unwrap());
                                assert(c0 + (rest0 + tail_nodes) =~= (c0 + rest0) + tail_nodes);
                            }
                        },
                        BatchItem::Undecodable => {},
                    }
                }
            },
            BatchItem::Undecodable => {},
        }
    }
}

/// A key with any surviving node lies in the kept key set.
proof fn lemma_nodes_under_items_key(
    key: Seq<char>,
    items: Seq<BatchItem>,
    cached: Set<Seq<char>>,
)
    ensures
        nodes_under_items(key, items, cached).len() > 0 ==> kept_fragment_keys(
            items,
            cached,
        ).contains(key),
    decreases items.len(),
{
    if items.len() > 0 {
        lemma_nodes_under_items_key(key, items.drop_first(), cached);
        match items.first() {
            BatchItem::Decoded { identity, derivation } => {
                if !cached.contains(identity@) && derivation is Some {
                    let g = derivation.unwrap();
                    if nodes_under(key, g).len() > 0 {
                        g.nodes@.lemma_filter_pred(key_pred(key), 0);
                        lemma_filter_membership(g.nodes@, key_pred(key));
                        let q = choose|q: int|
                            0 <= q < g.nodes@.len() && g.nodes@[q] == nodes_under(key, g)[0];
                        assert((g.nodes@[q]).key() == key);
                        assert(has_node(g.nodes@, key));
                    }
                }
            },
            BatchItem::Undecodable => {},
        }
    }
}

/// The last failure a batch leaves: decode failures and failed
/// derivations of non-skipped items, later items winning.
pub open spec fn last_failure(items: Seq<BatchItem>, cached: Set<Seq<char>>) -> Option<
    SysmonGeneratorError,
>
    decreases items.len(),
{
    if items.len() == 0 {
        None
    } else {
        let here = match items.last() {
            BatchItem::Undecodable => Some(SysmonGeneratorError::DeserializeError),
            BatchItem::Decoded { identity, derivation } => if !cached.contains(identity@)
                && derivation is None {
                Some(SysmonGeneratorError::E)
            } else {
                None
            },
        };
        if here is Some {
            here
        } else {
            last_failure(items.drop_last(), cached)
        }
    }
}

/// Dedup at most once per identity: an identity the cache holds is never
/// recorded again by a handler call.
pub proof fn lemma_dedup_at_most_once(items: Seq<BatchItem>, cached: Set<Seq<char>>)
    ensures
        forall|i: int|
            0 <= i < kept_identities(items, cached).len() ==> !cached.contains(
                (#[trigger] kept_identities(items, cached)[i])@,
            ),
    decreases items.len(),
{
    if items.len() > 0 {
        lemma_dedup_at_most_once(items.drop_first(), cached);
        let whole = kept_identities(items, cached);
        let rest = kept_identities(items.drop_first(), cached);
        assert forall|i: int| 0 <= i < whole.len() implies !cached.contains(
            (#[trigger] whole[i])@,
        ) by {
            match items.first() {
                BatchItem::Decoded { identity, derivation } => {
                    if !cached.contains(identity@) && derivation is Some {
                        if i > 0 {
                            assert(whole[i] == rest[i - 1]);
                        }
                    } else {
                        assert(whole[i] == rest[i]);
                    }
                },
                BatchItem::Undecodable => {
                    assert(whole[i] == rest[i]);
                },
            }
        }
    }
}

/// Process a batch of decoded events: skip what the cache holds, fold the
/// derived fragments into one aggregate, record the identities kept, and
/// carry the last failure.
pub fn process_events<C: Cache>(
    items: Vec<BatchItem>,
    cache: &mut C,
    completed: &mut CompletedEvents,
) -> (r: (Graph, Option<SysmonGeneratorError>))
    requires
        forall|j: int| 0 <= j < items@.len() ==> item_wf(#[trigger] items@[j]),
    ensures
        final(cache).cached() == old(cache).cached(),
        final(completed).identities@ == old(completed).identities@ + kept_identities(
            items@,
            old(cache).cached(),
        ),
        r.1 == last_failure(items@, old(cache).cached()),
        r.0.wf(),
        graph_keys(r.0) == kept_fragment_keys(items@, old(cache).cached()),
        graph_edges(r.0) == kept_fragment_edges(items@, old(cache).cached()),
        forall|i: int|
            0 <= i < r.0.nodes@.len() ==> node_fold_rel(
                nodes_under_items((#[trigger] r.0.nodes@[i]).key(), items@, old(cache).cached()),
                r.0.nodes@[i],
            ),
        r.1 is Some ==> r.1.unwrap().spec_error_type() == Recoverable::Persistent,
{
    let ghost items0 = items@;
    let ghost cached0 = cache.cached();
    let ghost completed0 = completed.identities@;
    let mut aggregate = Graph::new();
    let mut failure: Option<SysmonGeneratorError> = None;
    let mut remaining = items;
    let ghost mut k: int = 0;
    proof {
        assert(remaining@ =~= items0.skip(0));
        assert(completed.identities@ =~= completed0 + kept_identities(items0.take(0), cached0));
        assert(graph_keys(aggregate) =~= kept_fragment_keys(items0.take(0), cached0));
        assert(graph_edges(aggregate) =~= kept_fragment_edges(items0.take(0), cached0));
        assert(failure == last_failure(items0.take(0), cached0));
    }
    while remaining.len() > 0
        invariant
            0 <= k <= items0.len(),
            remaining@ == items0.skip(k),
            forall|j: int| 0 <= j < items0.len() ==> item_wf(#[trigger] items0[j]),
            cache.cached() == cached0,
            aggregate.wf(),
            completed.identities@ == completed0 + kept_identities(items0.take(k), cached0),
            graph_keys(aggregate) == kept_fragment_keys(items0.take(k), cached0),
            graph_edges(aggregate) == kept_fragment_edges(items0.take(k), cached0),
            forall|i: int|
                0 <= i < aggregate.nodes@.len() ==> node_fold_rel(
                    nodes_under_items(
                        (#[trigger] aggregate.nodes@[i]).key(),
                        items0.take(k),
                        cached0,
                    ),
                    aggregate.nodes@[i],
                ),
            failure == last_failure(items0.take(k), cached0),
            failure is Some ==> failure.unwrap().spec_error_type() == Recoverable::Persistent,
        decreases remaining.len(),
    {
        let item = remaining.remove(0);
        proof {
            assert(item == items0.skip(k)[0]);
            assert(item == items0[k]);
            assert(remaining@ =~= items0.skip(k + 1));
            assert(items0.take(k + 1).drop_last() =~= items0.take(k));
            assert(items0.take(k + 1).last() == items0[k]);
        }
        match item {
            BatchItem::Undecodable => {
                failure = Some(SysmonGeneratorError::DeserializeError);
                proof {
                    lemma_kept_identities_step(items0, k, cached0);
                    lemma_kept_fragment_keys_step(items0, k, cached0);
                    lemma_kept_fragment_edges_step(items0, k, cached0);
                    assert forall|i: int| 0 <= i < aggregate.nodes@.len() implies node_fold_rel(
                        nodes_under_items(
                            (#[trigger] aggregate.nodes@[i]).key(),
                            items0.take(k + 1),
                            cached0,
                        ),
                        aggregate.nodes@[i],
                    ) by {
                        lemma_nodes_under_items_step(aggregate.nodes@[i].key(), items0, k, cached0);
                    }
                }
            },
            BatchItem::Decoded { identity, derivation } => {
                let response = cache.get(&identity);
                match response {
                    CacheResponse::Hit => {
                        proof {
                            lemma_kept_identities_step(items0, k, cached0);
                            lemma_kept_fragment_keys_step(items0, k, cached0);
                            lemma_kept_fragment_edges_step(items0, k, cached0);
                            assert forall|i: int|
                                0 <= i < aggregate.nodes@.len() implies node_fold_rel(
                                nodes_under_items(
                                    (#[trigger] aggregate.nodes@[i]).key(),
                                    items0.take(k + 1),
                                    cached0,
                                ),
                                aggregate.nodes@[i],
                            ) by {
                                lemma_nodes_under_items_step(
                                    aggregate.nodes@[i].key(),
                                    items0,
                                    k,
                                    cached0,
                                );
                            }
                        }
                    },
                    CacheResponse::Miss => {
                        match derivation {
                            Some(fragment) => {
                                let ghost agg_before = aggregate;
                                let ghost frag = fragment;
                                aggregate.merge(fragment);
                                completed.add_identity(identity);
                                proof {
                                    lemma_kept_identities_step(items0, k, cached0);
                                    lemma_kept_fragment_keys_step(items0, k, cached0);
                                    assert(completed.identities@ =~= completed0 + kept_identities(
                                        items0.take(k + 1),
                                        cached0,
                                    ));
                                    assert(graph_keys(aggregate) =~= graph_keys(
                                        agg_before,
                                    ).union(graph_keys(frag)));
                                    assert(graph_keys(aggregate) =~= kept_fragment_keys(
                                        items0.take(k + 1),
                                        cached0,
                                    ));
                                    lemma_kept_fragment_edges_step(items0, k, cached0);
                                    assert forall|ev: (Seq<char>, Seq<char>, Seq<char>)|
                                        graph_edges(aggregate).contains(ev) == graph_edges(
                                        agg_before,
                                    ).union(graph_edges(frag)).contains(ev) by {
                                        assert(has_edge(aggregate.edges@, ev) <==> has_edge(
                                            agg_before.edges@,
                                            ev,
                                        ) || has_edge(frag.edges@, ev));
                                    }
                                    assert(graph_edges(aggregate) =~= graph_edges(
                                        agg_before,
                                    ).union(graph_edges(frag)));
                                    assert(graph_edges(aggregate) =~= kept_fragment_edges(
                                        items0.take(k + 1),
                                        cached0,
                                    ));
                                    // Each held node is the fold of the
                                    // nodes under its key.
                                    assert(frag.wf());
                                    assert forall|i: int|
                                        0 <= i < aggregate.nodes@.len() implies node_fold_rel(
                                        nodes_under_items(
                                            (#[trigger] aggregate.nodes@[i]).key(),
                                            items0.take(k + 1),
                                            cached0,
                                        ),
                                        aggregate.nodes@[i],
                                    ) by {
                                        let key = aggregate.nodes@[i].key();
                                        lemma_nodes_under_items_step(key, items0, k, cached0);
                                        lemma_filter_key_single(frag.nodes@, key);
                                        let prev = nodes_under_items(
                                            key,
                                            items0.take(k),
                                            cached0,
                                        );
                                        let grown = nodes_under_items(
                                            key,
                                            items0.take(k + 1),
                                            cached0,
                                        );
                                        if i < agg_before.nodes@.len() {
                                            assert(key == agg_before.nodes@[i].key());
                                            assert(node_fold_rel(prev, agg_before.nodes@[i]));
                                            assert(prev.len() >= 1) by {
                                                if prev.len() == 0 {
                                                    assert(!node_fold_rel(
                                                        prev,
                                                        agg_before.nodes@[i],
                                                    ));
                                                }
                                            }
                                            if has_node(frag.nodes@, key) {
                                                let w = choose|w: int|
                                                    0 <= w < frag.nodes@.len() && (
                                                    #[trigger] frag.nodes@[w]).key() == key
                                                        && frag.nodes@.filter(key_pred(key))
                                                        == seq![frag.nodes@[w]];
                                                assert(node_merge_spec(
                                                    agg_before.nodes@[i],
                                                    frag.nodes@[w],
                                                    aggregate.nodes@[i],
                                                ));
                                                assert(nodes_under(key, frag) == seq![
                                                    frag.nodes@[w],
                                                ]);
                                                assert(grown =~= prev.push(frag.nodes@[w]));
                                                assert(grown.drop_last() =~= prev);
                                                assert(grown.last() == frag.nodes@[w]);
                                                assert(node_merge_spec(
                                                    agg_before.nodes@[i],
                                                    grown.last(),
                                                    aggregate.nodes@[i],
                                                ));
                                                assert(node_fold_rel(
                                                    grown,
                                                    aggregate.nodes@[i],
                                                ));
                                            } else {
                                                assert(aggregate.nodes@[i]
                                                    == agg_before.nodes@[i]);
                                                assert(nodes_under(key, frag)
                                                    == Seq::<Node>::empty());
                                                assert(grown =~= prev);
                                            }
                                        } else {
                                            // Appended: the first node under
                                            // a key no earlier fragment held.
                                            assert(!has_node(agg_before.nodes@, key));
                                            let j = choose|j: int|
                                                0 <= j < frag.nodes@.len() && aggregate.nodes@[i]
                                                    == frag.nodes@[j];
                                            assert((frag.nodes@[j]).key() == key);
                                            assert(has_node(frag.nodes@, key));
                                            let w = choose|w: int|
                                                0 <= w < frag.nodes@.len() && (
                                                #[trigger] frag.nodes@[w]).key() == key
                                                    && frag.nodes@.filter(key_pred(key)) == seq![
                                                    frag.nodes@[w],
                                                ];
                                            assert(w == j) by {
                                                if w != j {
                                                    assert((frag.nodes@[w]).key() != (
                                                    frag.nodes@[j]).key());
                                                }
                                            }
                                            assert(graph_keys(agg_before).contains(key)
                                                == has_node(agg_before.nodes@, key));
                                            assert(!kept_fragment_keys(
                                                items0.take(k),
                                                cached0,
                                            ).contains(key));
                                            lemma_nodes_under_items_key(
                                                key,
                                                items0.take(k),
                                                cached0,
                                            );
                                            assert(prev =~= Seq::<Node>::empty());
                                            assert(nodes_under(key, frag) == seq![
                                                frag.nodes@[w],
                                            ]);
                                            assert(grown =~= seq![frag.nodes@[w]]);
                                            assert(aggregate.nodes@[i] == grown[0]);
                                            assert(node_fold_rel(grown, aggregate.nodes@[i]));
                                        }
                                    }
                                }
                            },
                            None => {
                                failure = Some(SysmonGeneratorError::E);
                                proof {
                                    lemma_kept_identities_step(items0, k, cached0);
                                    lemma_kept_fragment_keys_step(items0, k, cached0);
                                    lemma_kept_fragment_edges_step(items0, k, cached0);
                                    assert forall|i: int|
                                        0 <= i < aggregate.nodes@.len() implies node_fold_rel(
                                        nodes_under_items(
                                            (#[trigger] aggregate.nodes@[i]).key(),
                                            items0.take(k + 1),
                                            cached0,
                                        ),
                                        aggregate.nodes@[i],
                                    ) by {
                                        lemma_nodes_under_items_step(
                                            aggregate.nodes@[i].key(),
                                            items0,
                                            k,
                                            cached0,
                                        );
                                    }
                                }
                            },
                        }
                    },
                }
            },
        }
        proof {
            k = k + 1;
        }
    }
    proof {
        assert(items0.take(items0.len() as int) =~= items0);
    }
    (aggregate, failure)
}

/// One step of the identity fold: taking one more item appends its
/// identity exactly when it is decoded, derivable and not cached.
proof fn lemma_kept_identities_step(items: Seq<BatchItem>, k: int, cached: Set<Seq<char>>)
    requires
        0 <= k < items.len(),
    ensures
        kept_identities(items.take(k + 1), cached) == match items[k] {
            BatchItem::Decoded { identity, derivation } => if !cached.contains(identity@)
                && derivation is Some {
                kept_identities(items.take(k), cached).push(identity)
            } else {
                kept_identities(items.take(k), cached)
            },
            BatchItem::Undecodable => kept_identities(items.take(k), cached),
        },
    decreases k,
{
    let t1 = items.take(k + 1);
    let t0 = items.take(k);
    if k == 0 {
        assert(t1.drop_first() =~= Seq::<BatchItem>::empty());
        assert(t1.first() == items[0]);
        assert(t0 =~= Seq::<BatchItem>::empty());
        match items[0] {
            BatchItem::Decoded { identity, derivation } => {
                if !cached.contains(identity@) && derivation is Some {
                    assert(kept_identities(t1, cached) =~= kept_identities(t0, cached).push(
                        identity,
                    ));
                }
            },
            BatchItem::Undecodable => {},
        }
    } else {
        lemma_kept_identities_step(items.drop_first(), k - 1, cached);
        assert(t1.first() == items[0]);
        assert(t1.drop_first() =~= items.drop_first().take(k));
        assert(t0.first() == items[0]);
        assert(t0.drop_first() =~= items.drop_first().take(k - 1));
        assert(items.drop_first()[k - 1] == items[k]);
        match items[k] {
            BatchItem::Decoded { identity, derivation } => {
                if !cached.contains(identity@) && derivation is Some {
                    match items[0] {
                        BatchItem::Decoded { identity: id0, derivation: d0 } => {
                            if !cached.contains(id0@) && d0 is Some {
                                assert(kept_identities(t1, cached) =~= kept_identities(
                                    t0,
                                    cached,
                                ).push(identity));
                            }
                        },
                        BatchItem::Undecodable => {},
                    }
                }
            },
            BatchItem::Undecodable => {},
        }
    }
}

/// One step of the fragment-key fold: taking one more item unites its
/// fragment's keys in exactly when it is decoded, derivable and not
/// cached.
proof fn lemma_kept_fragment_keys_step(items: Seq<BatchItem>, k: int, cached: Set<Seq<char>>)
    requires
        0 <= k < items.len(),
    ensures
        kept_fragment_keys(items.take(k + 1), cached) == match items[k] {
            BatchItem::Decoded { identity, derivation } => if !cached.contains(identity@)
                && derivation is Some {
                kept_fragment_keys(items.take(k), cached).union(graph_keys(derivation.unwrap()))
            } else {
                kept_fragment_keys(items.take(k), cached)
            },
            BatchItem::Undecodable => kept_fragment_keys(items.take(k), cached),
        },
    decreases k,
{
    let t1 = items.take(k + 1);
    let t0 = items.take(k);
    if k == 0 {
        assert(t1.drop_first() =~= Seq::<BatchItem>::empty());
        assert(t1.first() == items[0]);
        assert(t0 =~= Seq::<BatchItem>::empty());
        match items[0] {
            BatchItem::Decoded { identity, derivation } => {
                if !cached.contains(identity@) && derivation is Some {
                    assert(kept_fragment_keys(t1, cached) =~= kept_fragment_keys(
                        t0,
                        cached,
                    ).union(graph_keys(derivation.unwrap())));
                }
            },
            BatchItem::Undecodable => {},
        }
    } else {
        lemma_kept_fragment_keys_step(items.drop_first(), k - 1, cached);
        assert(t1.first() == items[0]);
        assert(t1.drop_first() =~= items.drop_first().take(k));
        assert(t0.first() == items[0]);
        assert(t0.drop_first() =~= items.drop_first().take(k - 1));
        assert(items.drop_first()[k - 1] == items[k]);
        match items[k] {
            BatchItem::Decoded { identity, derivation } => {
                if !cached.contains(identity@) && derivation is Some {
                    match items[0] {
                        BatchItem::Decoded { identity: id0, derivation: d0 } => {
                            if !cached.contains(id0@) && d0 is Some {
                                assert(kept_fragment_keys(t1, cached) =~= kept_fragment_keys(
                                    t0,
                                    cached,
                                ).union(graph_keys(derivation.unwrap())));
                            }
                        },
                        BatchItem::Undecodable => {},
                    }
                }
            },
            BatchItem::Undecodable => {},
        }
    }
}

/// One step of the fragment-edge fold, mirroring the key fold.
proof fn lemma_kept_fragment_edges_step(items: Seq<BatchItem>, k: int, cached: Set<Seq<char>>)
    requires
        0 <= k < items.len(),
    ensures
        kept_fragment_edges(items.take(k + 1), cached) == match items[k] {
            BatchItem::Decoded { identity, derivation } => if !cached.contains(identity@)
                && derivation is Some {
                kept_fragment_edges(items.take(k), cached).union(graph_edges(derivation.unwrap()))
            } else {
                kept_fragment_edges(items.take(k), cached)
            },
            BatchItem::Undecodable => kept_fragment_edges(items.take(k), cached),
        },
    decreases k,
{
    let t1 = items.take(k + 1);
    let t0 = items.take(k);
    if k == 0 {
        assert(t1.drop_first() =~= Seq::<BatchItem>::empty());
        assert(t1.first() == items[0]);
        assert(t0 =~= Seq::<BatchItem>::empty());
        match items[0] {
            BatchItem::Decoded { identity, derivation } => {
                if !cached.contains(identity@) && derivation is Some {
                    assert(kept_fragment_edges(t1, cached) =~= kept_fragment_edges(
                        t0,
                        cached,
                    ).union(graph_edges(derivation.unwrap())));
                }
            },
            BatchItem::Undecodable => {},
        }
    } else {
        lemma_kept_fragment_edges_step(items.drop_first(), k - 1, cached);
        assert(t1.first() == items[0]);
        assert(t1.drop_first() =~= items.drop_first().take(k));
        assert(t0.first() == items[0]);
        assert(t0.drop_first() =~= items.drop_first().take(k - 1));
        assert(items.drop_first()[k - 1] == items[k]);
        match items[k] {
            BatchItem::Decoded { identity, derivation } => {
                if !cached.contains(identity@) && derivation is Some {
                    match items[0] {
                        BatchItem::Decoded { identity: id0, derivation: d0 } => {
                            if !cached.contains(id0@) && d0 is Some {
                                assert(kept_fragment_edges(t1, cached) =~= kept_fragment_edges(
                                    t0,
                                    cached,
                                ).union(graph_edges(derivation.unwrap())));
                            }
                        },
                        BatchItem::Undecodable => {},
                    }
                }
            },
            BatchItem::Undecodable => {},
        }
    }
}

/// Handle one batch: process it, then report completion, a publishable
/// partial with its failure, or nothing.
pub fn handle_event<C: Cache>(
    items: Vec<BatchItem>,
    cache: &mut C,
    completed: &mut CompletedEvents,
) -> (r: Result<Graph, (Graph, SysmonGeneratorError)>)
    requires
        forall|j: int| 0 <= j < items@.len() ==> item_wf(#[trigger] items@[j]),
    ensures
        final(cache).cached() == old(cache).cached(),
        final(completed).identities@ == old(completed).identities@ + kept_identities(
            items@,
            old(cache).cached(),
        ),
        last_failure(items@, old(cache).cached()) is None <==> r is Ok,
        r is Ok ==> graph_keys(r->Ok_0) == kept_fragment_keys(items@, old(cache).cached()),
        r is Err ==> graph_keys(r->Err_0.0) == kept_fragment_keys(items@, old(cache).cached()),
        r is Ok ==> graph_edges(r->Ok_0) == kept_fragment_edges(items@, old(cache).cached()),
        r is Err ==> graph_edges(r->Err_0.0) == kept_fragment_edges(
            items@,
            old(cache).cached(),
        ),
        r is Ok ==> forall|i: int|
            0 <= i < r->Ok_0.nodes@.len() ==> node_fold_rel(
                nodes_under_items(
                    (#[trigger] r->Ok_0.nodes@[i]).key(),
                    items@,
                    old(cache).cached(),
                ),
                r->Ok_0.nodes@[i],
            ),
        r is Err ==> forall|i: int|
            0 <= i < r->Err_0.0.nodes@.len() ==> node_fold_rel(
                nodes_under_items(
                    (#[trigger] r->Err_0.0.nodes@[i]).key(),
                    items@,
                    old(cache).cached(),
                ),
                r->Err_0.0.nodes@[i],
            ),
        r is Err ==> r->Err_0.1 == last_failure(items@, old(cache).cached()).unwrap(),
        r is Err ==> r->Err_0.1.spec_error_type() == Recoverable::Persistent,
{
    let (aggregate, failure) = process_events(items, cache, completed);
    match failure {
        Some(e) => Err((aggregate, e)),
        None => Ok(aggregate),
    }
}

} // verus!
