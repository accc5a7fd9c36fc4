//! The graph fragment: a set of typed nodes keyed by `node_key`, plus a
//! set of directed edges labelled by predicate name.
//!
//! Merging folds another fragment in: a node whose key is already present
//! merges into the held node under the variant's own rules; a node under a
//! fresh key is appended; edges are united without duplicates.

use vstd::prelude::*;

use crate::dynamic_node::DynamicNode;
use crate::file::{file_fields_merged, file_merge_changes, File};
use crate::ip_connection::{
    ip_connection_fields_merged, ip_connection_merge_changes, ip_connection_mergeable, IpConnection,
};
use crate::process_inbound_connection::{
    process_inbound_connection_fields_merged, process_inbound_connection_merge_changes,
    process_inbound_connection_mergeable, ProcessInboundConnection,
};

verus! {

/// A typed node of a graph fragment.
#[derive(Clone, Debug)]
pub enum Node {
    File(File),
    IpConnection(IpConnection),
    ProcessInboundConnection(ProcessInboundConnection),
    Dynamic(DynamicNode),
}

impl Node {
    /// The node's stable identifier.
    pub open spec fn key(&self) -> Seq<char> {
        match *self {
            Node::File(ref n) => n.node_key@,
            Node::IpConnection(ref n) => n.node_key@,
            Node::ProcessInboundConnection(ref n) => n.node_key@,
            Node::Dynamic(ref n) => n.node_key@,
        }
    }

    /// A well-formed node: the dynamic variant keeps its keys unique.
    pub open spec fn wf(&self) -> bool {
        match *self {
            Node::Dynamic(ref n) => n.wf(),
            _ => true,
        }
    }

    /// The node's stable identifier.
    pub fn get_node_key(&self) -> (r: &String)
        ensures
            r@ == self.key(),
    {
        match self {
            Node::File(n) => n.get_node_key(),
            Node::IpConnection(n) => n.get_node_key(),
            Node::ProcessInboundConnection(n) => n.get_node_key(),
            Node::Dynamic(n) => n.get_node_key(),
        }
    }

    /// Merge `other` into `self` under the rules of the common variant.
    /// Nodes of different variants, or refusing their own merge, leave
    /// `self` untouched.
    pub fn merge(&mut self, other: &Node) -> (r: bool)
        requires
            old(self).wf(),
            other.wf(),
        ensures
            final(self).wf(),
            node_merge_spec(*old(self), *other, *final(self)),
            r == node_merge_changed(*old(self), *other),
            final(self).key() == old(self).key(),
    {
        match (self, other) {
            (Node::File(a), Node::File(b)) => a.merge(b),
            (Node::IpConnection(a), Node::IpConnection(b)) => a.merge(b),
            (Node::ProcessInboundConnection(a), Node::ProcessInboundConnection(b)) => a.merge(b),
            (Node::Dynamic(a), Node::Dynamic(b)) => a.merge(b),
            _ => false,
        }
    }
}

/// The relation a node merge establishes: `m` is `a` with `b` folded in,
/// under the rules of `a`'s variant; mismatched variants, keys or
/// identifying attributes leave `a` as it was.
pub open spec fn node_merge_spec(a: Node, b: Node, m: Node) -> bool {
    match (a, b) {
        (Node::File(fa), Node::File(fb)) => match m {
            Node::File(fm) => if fa.node_key@ == fb.node_key@ {
                file_fields_merged(fa, fb, fm)
            } else {
                fm == fa
            },
            _ => false,
        },
        (Node::IpConnection(ca), Node::IpConnection(cb)) => match m {
            Node::IpConnection(cm) => if ip_connection_mergeable(ca, cb) {
                ip_connection_fields_merged(ca, cb, cm)
            } else {
                cm == ca
            },
            _ => false,
        },
        (Node::ProcessInboundConnection(pa), Node::ProcessInboundConnection(pb)) => match m {
            Node::ProcessInboundConnection(pm) => if process_inbound_connection_mergeable(pa, pb) {
                process_inbound_connection_fields_merged(pa, pb, pm)
            } else {
                pm == pa
            },
            _ => false,
        },
        (Node::Dynamic(da), Node::Dynamic(db)) => match m {
            Node::Dynamic(dm) => if da.node_key@ == db.node_key@ {
                dm.props() == da.props().union_prefer_right(db.props()) && dm.node_key
                    == da.node_key && dm.node_type == da.node_type && dm.seen_at == da.seen_at
                    && dm.asset_id == da.asset_id && dm.id_strategy == da.id_strategy
            } else {
                dm == da
            },
            _ => false,
        },
        _ => m == a,
    }
}

/// Whether a node merge reports a change.
pub open spec fn node_merge_changed(a: Node, b: Node) -> bool {
    match (a, b) {
        (Node::File(fa), Node::File(fb)) => fa.node_key@ == fb.node_key@ && file_merge_changes(
            fa,
            fb,
        ),
        (Node::IpConnection(ca), Node::IpConnection(cb)) => ip_connection_mergeable(ca, cb)
            && ip_connection_merge_changes(ca, cb),
        (Node::ProcessInboundConnection(pa), Node::ProcessInboundConnection(pb)) =>
            process_inbound_connection_mergeable(pa, pb)
                && process_inbound_connection_merge_changes(pa, pb),
        (Node::Dynamic(da), Node::Dynamic(db)) => da.node_key@ == db.node_key@ && exists|
            k: Seq<char>,
        |
            #[trigger] da.props().dom().contains(k) && db.props().dom().contains(k),
        _ => false,
    }
}

/// A directed edge between two nodes, labelled by predicate name.
#[derive(Clone, Debug)]
pub struct Edge {
    pub from_key: String,
    pub to_key: String,
    pub edge_name: String,
}

/// The mathematical value of an edge.
pub open spec fn edge_view(e: Edge) -> (Seq<char>, Seq<char>, Seq<char>) {
    (e.from_key@, e.to_key@, e.edge_name@)
}

/// Whether the list holds an edge of this value.
pub open spec fn has_edge(s: Seq<Edge>, v: (Seq<char>, Seq<char>, Seq<char>)) -> bool {
    exists|i: int| 0 <= i < s.len() && edge_view(#[trigger] s[i]) == v
}

/// Whether the list holds a node under this key.
pub open spec fn has_node(s: Seq<Node>, k: Seq<char>) -> bool {
    exists|i: int| 0 <= i < s.len() && (#[trigger] s[i]).key() == k
}

/// A graph fragment.
#[derive(Clone, Debug)]
pub struct Graph {
    pub nodes: Vec<Node>,
    pub edges: Vec<Edge>,
}

impl Graph {
    /// A well-formed fragment: node keys are unique, every node is
    /// well-formed, and no edge repeats.
    pub open spec fn wf(&self) -> bool {
        &&& forall|i: int, j: int|
            0 <= i < j < self.nodes@.len() ==> (#[trigger] self.nodes@[i]).key() != (
            #[trigger] self.nodes@[j]).key()
        &&& forall|i: int| 0 <= i < self.nodes@.len() ==> (#[trigger] self.nodes@[i]).wf()
        &&& forall|i: int, j: int|
            0 <= i < j < self.edges@.len() ==> edge_view(#[trigger] self.edges@[i]) != edge_view(
                #[trigger] self.edges@[j],
            )
    }

    /// An empty fragment.
    pub fn new() -> (r: Graph)
        ensures
            r.nodes@.len() == 0,
            r.edges@.len() == 0,
            r.wf(),
    {
        Graph { nodes: Vec::new(), edges: Vec::new() }
    }

    /// The number of nodes held.
    pub fn node_count(&self) -> (r: usize)
        ensures
            r == self.nodes@.len(),
    {
        self.nodes.len()
    }

    /// The number of edges held.
    pub fn edge_count(&self) -> (r: usize)
        ensures
            r == self.edges@.len(),
    {
        self.edges.len()
    }

    /// Append an edge, keeping the edge set free of duplicates.
    pub fn add_edge(&mut self, edge: Edge)
        requires
            old(self).wf(),
        ensures
            final(self).wf(),
            final(self).nodes == old(self).nodes,
            has_edge(old(self).edges@, edge_view(edge)) ==> final(self).edges == old(self).edges,
            !has_edge(old(self).edges@, edge_view(edge)) ==> final(self).edges@ == old(
                self,
            ).edges@.push(edge),
    {
        let mut i: usize = 0;
        while i < self.edges.len()
            invariant
                *self == *old(self),
                old(self).wf(),
                0 <= i <= self.edges.len(),
                forall|j: int| 0 <= j < i ==> edge_view(#[trigger] self.edges@[j]) != edge_view(
                    edge,
                ),
            decreases self.edges.len() - i,
        {
            let held = &self.edges[i];
            if held.from_key == edge.from_key && held.to_key == edge.to_key && held.edge_name
                == edge.edge_name {
                proof {
                    assert(edge_view(self.edges@[i as int]) == edge_view(edge));
                    assert(has_edge(self.edges@, edge_view(edge)));
                }
                return ;
            }
            i += 1;
        }
        self.edges.push(edge);
    }

    /// Append a node under a key the fragment does not hold yet.
    fn push_fresh_node(&mut self, node: Node)
        requires
            old(self).wf(),
            node.wf(),
            !has_node(old(self).nodes@, node.key()),
        ensures
            final(self).wf(),
            final(self).nodes@ == old(self).nodes@.push(node),
            final(self).edges == old(self).edges,
    {
        self.nodes.push(node);
    }

    /// The index of the node held under this key.
    fn find_node(&self, key: &String) -> (r: Option<usize>)
        ensures
            match r {
                Some(i) => i < self.nodes@.len() && self.nodes@[i as int].key() == key@,
                None => !has_node(self.nodes@, key@),
            },
    {
        let mut i: usize = 0;
        while i < self.nodes.len()
            invariant
                0 <= i <= self.nodes.len(),
                forall|j: int| 0 <= j < i ==> (#[trigger] self.nodes@[j]).key() != key@,
            decreases self.nodes.len() - i,
        {
            let held_key = self.nodes[i].get_node_key();
            if *held_key == *key {
                return Some(i);
            }
            i += 1;
        }
        None
    }

    /// A mutable borrow of the node at `i`.
    fn node_at_mut(&mut self, i: usize) -> (element: &mut Node)
        requires
            i < old(self).nodes@.len(),
        ensures
            *element == old(self).nodes@[i as int],
            final(self).nodes@ == old(self).nodes@.update(i as int, *final(element)),
            final(self).edges == old(self).edges,
    {
        &mut self.nodes[i]
    }

    /// Add one node: a held key merges the incoming node in, a fresh key
    /// appends it.
    pub fn add_node(&mut self, node: Node)
        requires
            old(self).wf(),
            node.wf(),
        ensures
            final(self).wf(),
            final(self).edges == old(self).edges,
            has_node(final(self).nodes@, node.key()),
            !has_node(old(self).nodes@, node.key()) ==> final(self).nodes@ == old(
                self,
            ).nodes@.push(node),
            forall|i: int|
                0 <= i < old(self).nodes@.len() && (#[trigger] old(self).nodes@[i]).key()
                    == node.key() ==> node_merge_spec(old(self).nodes@[i], node, final(self).nodes@[i]),
            forall|i: int|
                0 <= i < old(self).nodes@.len() && (#[trigger] old(self).nodes@[i]).key()
                    != node.key() ==> final(self).nodes@[i] == old(self).nodes@[i],
            final(self).nodes@.len() <= old(self).nodes@.len() + 1,
    {
        let found = self.find_node(node.get_node_key());
        match found {
            Some(idx) => {
                let slot = self.node_at_mut(idx);
                let _ = slot.merge(&node);
                proof {
                    assert((final(self).nodes@[idx as int]).key() == node.key());
                    assert(has_node(final(self).nodes@, node.key()));
                }
            },
            None => {
                self.push_fresh_node(node);
                proof {
                    assert((final(self).nodes@[final(self).nodes@.len() - 1]).key()
                        == node.key());
                    assert(has_node(final(self).nodes@, node.key()));
                }
            },
        }
    }

    /// Fold `other` into `self`: held keys merge node-wise, fresh keys are
    /// appended in order, and `other`'s edges are united in without
    /// duplicates.
    #[verifier::rlimit(100)]
    #[verifier::spinoff_prover]
    pub fn merge(&mut self, other: Graph)
        requires
            old(self).wf(),
            other.wf(),
        ensures
            final(self).wf(),
            // Held nodes stay at their positions, under their keys.
            final(self).nodes@.len() >= old(self).nodes@.len(),
            forall|i: int|
                0 <= i < old(self).nodes@.len() ==> (#[trigger] final(self).nodes@[i]).key()
                    == old(self).nodes@[i].key(),
            // A held node that `other` addresses is the merge of the two.
            forall|i: int, j: int|
                0 <= i < old(self).nodes@.len() && 0 <= j < other.nodes@.len() && (
                #[trigger] other.nodes@[j]).key() == (#[trigger] old(self).nodes@[i]).key()
                    ==> node_merge_spec(old(self).nodes@[i], other.nodes@[j], final(self).nodes@[i]),
            // A held node that `other` does not address is untouched.
            forall|i: int|
                0 <= i < old(self).nodes@.len() && !has_node(
                    other.nodes@,
                    (#[trigger] old(self).nodes@[i]).key(),
                ) ==> final(self).nodes@[i] == old(self).nodes@[i],
            // Fresh keys are appended, in `other`'s order.
            final(self).nodes@.skip(old(self).nodes@.len() as int) == other.nodes@.filter(
                |n: Node| !has_node(old(self).nodes@, n.key()),
            ),
            // Edges are united without duplicates.
            final(self).edges@ == old(self).edges@ + other.edges@.filter(
                |e: Edge| !has_edge(old(self).edges@, edge_view(e)),
            ),
            // Every appended node is one of `other`'s nodes, under a key the
            // fragment did not hold.
            forall|i: int|
                old(self).nodes@.len() <= i < final(self).nodes@.len() ==> !has_node(
                    old(self).nodes@,
                    (#[trigger] final(self).nodes@[i]).key(),
                ) && exists|j: int|
                    0 <= j < other.nodes@.len() && final(self).nodes@[i] == other.nodes@[j],
            // The held keys are the union of both sides' keys.
            forall|kk: Seq<char>|
                has_node(final(self).nodes@, kk) <==> has_node(old(self).nodes@, kk) || has_node(
                    other.nodes@,
                    kk,
                ),
            // The held edges are the union of both sides' edges.
            forall|ev: (Seq<char>, Seq<char>, Seq<char>)|
                #[trigger] has_edge(final(self).edges@, ev) <==> has_edge(old(self).edges@, ev)
                    || has_edge(other.edges@, ev),
    {
        let ghost sn0 = old(self).nodes@;
        let ghost on0 = other.nodes@;
        let ghost oe0 = other.edges@;
        let Graph { nodes: mut other_nodes, edges: mut other_edges } = other;

        let ghost fresh_pred = |n: Node| !has_node(sn0, n.key());
        let ghost mut k: int = 0;
        proof {
            assert(on0.take(0) =~= Seq::<Node>::empty());
            assert(on0.take(0).filter(fresh_pred) =~= Seq::<Node>::empty()) by {
                reveal(Seq::filter);
            }
            assert(self.nodes@.skip(sn0.len() as int) =~= on0.take(0).filter(fresh_pred));
            assert(other_nodes@ =~= on0.skip(0));
        }
        while other_nodes.len() > 0
            invariant
                0 <= k <= on0.len(),
                other_nodes@ == on0.skip(k),
                fresh_pred == (|n: Node| !has_node(sn0, n.key())),
                // `other`'s own facts
                forall|i: int, j: int|
                    0 <= i < j < on0.len() ==> (#[trigger] on0[i]).key() != (
                    #[trigger] on0[j]).key(),
                forall|i: int| 0 <= i < on0.len() ==> (#[trigger] on0[i]).wf(),
                // the held prefix
                self.nodes@.len() >= sn0.len(),
                forall|i: int|
                    0 <= i < sn0.len() ==> (#[trigger] self.nodes@[i]).key() == sn0[i].key(),
                forall|i: int, j: int|
                    0 <= i < sn0.len() && 0 <= j < k && (#[trigger] on0[j]).key() == (
                    #[trigger] sn0[i]).key() ==> node_merge_spec(sn0[i], on0[j], self.nodes@[i]),
                forall|i: int|
                    0 <= i < sn0.len() && !has_node(on0.take(k), (#[trigger] sn0[i]).key())
                        ==> self.nodes@[i] == sn0[i],
                // the appended region
                self.nodes@.skip(sn0.len() as int) == on0.take(k).filter(fresh_pred),
                // global well-formedness
                forall|i: int, j: int|
                    0 <= i < j < self.nodes@.len() ==> (#[trigger] self.nodes@[i]).key() != (
                    #[trigger] self.nodes@[j]).key(),
                forall|i: int| 0 <= i < self.nodes@.len() ==> (#[trigger] self.nodes@[i]).wf(),
                self.edges@ == old(self).edges@,
                forall|i: int, j: int|
                    0 <= i < j < self.edges@.len() ==> edge_view(#[trigger] self.edges@[i])
                        != edge_view(#[trigger] self.edges@[j]),
            decreases other_nodes.len(),
        {
            let ghost self_before = self.nodes@;
            let incoming = other_nodes.remove(0);
            proof {
                assert(incoming == on0.skip(k)[0]);
                assert(incoming == on0[k]);
                assert(other_nodes@ =~= on0.skip(k + 1));
                assert(on0.take(k + 1).drop_last() =~= on0.take(k));
                assert(on0.take(k + 1).last() == on0[k]);
            }
            let found = self.find_node(incoming.get_node_key());
            match found {
                Some(idx) => {
                    proof {
                        // The match lies in the held prefix: an appended node's
                        // key comes from an earlier incoming node, and keys in
                        // `other` are unique.
                        if idx >= sn0.len() {
                            let p = idx - sn0.len();
                            let appended = on0.take(k).filter(fresh_pred);
                            assert(self.nodes@[idx as int] == appended[p as int]);
                            lemma_filter_membership(on0.take(k), fresh_pred);
                            let q = choose|q: int|
                                0 <= q < on0.take(k).len() && on0.take(k)[q] == appended[p as int];
                            assert(on0[q] == on0.take(k)[q]);
                            assert((on0[q]).key() == (on0[k]).key());
                            assert(false);
                        }
                        // And it has not been merged into before.
                        if has_node(on0.take(k), sn0[idx as int].key()) {
                            let q = choose|q: int|
                                0 <= q < on0.take(k).len() && (#[trigger] on0.take(k)[q]).key()
                                    == sn0[idx as int].key();
                            assert(on0[q] == on0.take(k)[q]);
                            assert((on0[q]).key() == (on0[k]).key());
                            assert(false);
                        }
                        assert(self.nodes@[idx as int] == sn0[idx as int]);
                        assert(!fresh_pred(on0[k]));
                        assert(on0.take(k + 1).filter(fresh_pred) =~= on0.take(k).filter(
                            fresh_pred,
                        )) by {
                            reveal(Seq::filter);
                        }
                    }
                    let slot = self.node_at_mut(idx);
                    let _ = slot.merge(&incoming);
                    proof {
                        assert(self.nodes@.skip(sn0.len() as int) =~= self_before.skip(
                            sn0.len() as int,
                        ));
                        assert forall|i: int|
                            0 <= i < sn0.len() && !has_node(
                                on0.take(k + 1),
                                (#[trigger] sn0[i]).key(),
                            ) implies self.nodes@[i] == sn0[i] by {
                            assert(!has_node(on0.take(k), sn0[i].key()));
                            assert(i != idx) by {
                                if i == idx {
                                    assert((on0.take(k + 1)[k]).key() == sn0[idx as int].key());
                                }
                            }
                        }
                        k = k + 1;
                    }
                },
                None => {
                    proof {
                        assert(fresh_pred(on0[k])) by {
                            if has_node(sn0, on0[k].key()) {
                                let q = choose|q: int|
                                    0 <= q < sn0.len() && (#[trigger] sn0[q]).key() == on0[
                                        k].key();
                                assert((self.nodes@[q]).key() == sn0[q].key());
                            }
                        }
                        assert(on0.take(k + 1).filter(fresh_pred) =~= on0.take(k).filter(
                            fresh_pred,
                        ).push(on0[k])) by {
                            reveal(Seq::filter);
                        }
                    }
                    self.push_fresh_node(incoming);
                    proof {
                        assert(self.nodes@.skip(sn0.len() as int) =~= self_before.skip(
                            sn0.len() as int,
                        ).push(on0[k]));
                        assert forall|i: int|
                            0 <= i < sn0.len() && !has_node(
                                on0.take(k + 1),
                                (#[trigger] sn0[i]).key(),
                            ) implies self.nodes@[i] == sn0[i] by {
                            assert(!has_node(on0.take(k), sn0[i].key()));
                        }
                        k = k + 1;
                    }
                },
            }
        }
        proof {
            assert(k == on0.len()) by {
                assert(on0.skip(k).len() == 0);
            }
            assert(on0.take(k) =~= on0);
            let appended = on0.filter(fresh_pred);
            assert forall|i: int|
                sn0.len() <= i < self.nodes@.len() implies !has_node(
                    sn0,
                    (#[trigger] self.nodes@[i]).key(),
                ) && exists|j: int| 0 <= j < on0.len() && self.nodes@[i] == on0[j] by {
                let p = i - sn0.len();
                assert(self.nodes@[i] == appended[p]);
                on0.lemma_filter_pred(fresh_pred, p);
                assert(fresh_pred(appended[p]));
                lemma_filter_membership(on0, fresh_pred);
                let q = choose|q: int| 0 <= q < on0.len() && on0[q] == appended[p];
                assert(self.nodes@[i] == on0[q]);
            }
            assert forall|kk: Seq<char>|
                has_node(self.nodes@, kk) implies has_node(sn0, kk) || has_node(on0, kk) by {
                let i = choose|i: int| 0 <= i < self.nodes@.len() && (#[trigger] self.nodes@[i]).key() == kk;
                if i < sn0.len() {
                    assert(sn0[i].key() == kk);
                } else {
                    let p = i - sn0.len();
                    assert(self.nodes@[i] == appended[p]);
                    lemma_filter_membership(on0, fresh_pred);
                    let q = choose|q: int| 0 <= q < on0.len() && on0[q] == appended[p];
                    assert((on0[q]).key() == kk);
                }
            }
            assert forall|kk: Seq<char>|
                has_node(sn0, kk) || has_node(on0, kk) implies has_node(self.nodes@, kk) by {
                if has_node(sn0, kk) {
                    let i = choose|i: int| 0 <= i < sn0.len() && (#[trigger] sn0[i]).key() == kk;
                    assert((self.nodes@[i]).key() == kk);
                } else {
                    let j = choose|j: int| 0 <= j < on0.len() && (#[trigger] on0[j]).key() == kk;
                    if has_node(sn0, (on0[j]).key()) {
                        assert(false);
                    }
                    on0.lemma_filter_contains(fresh_pred, j);
                    assert(appended.contains(on0[j]));
                    let p = choose|p: int| 0 <= p < appended.len() && appended[p] == on0[j];
                    assert(self.nodes@[sn0.len() + p] == appended[p]);
                    assert((self.nodes@[sn0.len() + p]).key() == kk);
                }
            }
        }

        // Unite the edges.
        let ghost se0 = old(self).edges@;
        let ghost fresh_edge = |e: Edge| !has_edge(se0, edge_view(e));
        let ghost nodes_done = self.nodes@;
        let ghost mut ke: int = 0;
        proof {
            assert(on0.take(on0.len() as int) =~= on0);
            assert(oe0.take(0).filter(fresh_edge) =~= Seq::<Edge>::empty()) by {
                reveal(Seq::filter);
            }
            assert(self.edges@ =~= se0 + oe0.take(0).filter(fresh_edge));
            assert(other_edges@ =~= oe0.skip(0));
        }
        while other_edges.len() > 0
            invariant
                0 <= ke <= oe0.len(),
                other_edges@ == oe0.skip(ke),
                fresh_edge == (|e: Edge| !has_edge(se0, edge_view(e))),
                forall|i: int, j: int|
                    0 <= i < j < oe0.len() ==> edge_view(#[trigger] oe0[i]) != edge_view(
                        #[trigger] oe0[j],
                    ),
                self.nodes@ == nodes_done,
                self.wf(),
                self.edges@ == se0 + oe0.take(ke).filter(fresh_edge),
            decreases other_edges.len(),
        {
            let ghost edges_before = self.edges@;
            let e = other_edges.remove(0);
            proof {
                assert(e == oe0.skip(ke)[0]);
                assert(e == oe0[ke]);
                assert(other_edges@ =~= oe0.skip(ke + 1));
                assert(oe0.take(ke + 1).drop_last() =~= oe0.take(ke));
                assert(oe0.take(ke + 1).last() == oe0[ke]);
            }
            let ghost ev = edge_view(e);
            self.add_edge(e);
            proof {
                if has_edge(edges_before, ev) {
                    // Already held: either from the start, or pushed from an
                    // earlier incoming edge, which the uniqueness of `other`'s
                    // edges rules out.
                    assert(!fresh_edge(oe0[ke])) by {
                        let q = choose|q: int|
                            0 <= q < edges_before.len() && edge_view(
                                #[trigger] edges_before[q],
                            ) == ev;
                        if q >= se0.len() {
                            let p = q - se0.len();
                            let pushed = oe0.take(ke).filter(fresh_edge);
                            assert(edges_before[q] == pushed[p]);
                            lemma_filter_membership(oe0.take(ke), fresh_edge);
                            let w = choose|w: int|
                                0 <= w < oe0.take(ke).len() && oe0.take(ke)[w] == pushed[p];
                            assert(oe0[w] == oe0.take(ke)[w]);
                            assert(edge_view(oe0[w]) == edge_view(oe0[ke]));
                            assert(false);
                        } else {
                            assert(edge_view(se0[q]) == ev);
                        }
                    }
                    assert(oe0.take(ke + 1).filter(fresh_edge) =~= oe0.take(ke).filter(
                        fresh_edge,
                    )) by {
                        reveal(Seq::filter);
                    }
                    assert(self.edges@ =~= se0 + oe0.take(ke + 1).filter(fresh_edge));
                } else {
                    assert(fresh_edge(oe0[ke])) by {
                        if has_edge(se0, ev) {
                            let q = choose|q: int|
                                0 <= q < se0.len() && edge_view(#[trigger] se0[q]) == ev;
                            assert(edges_before[q] == se0[q]);
                            assert(has_edge(edges_before, ev));
                        }
                    }
                    assert(oe0.take(ke + 1).filter(fresh_edge) =~= oe0.take(ke).filter(
                        fresh_edge,
                    ).push(oe0[ke])) by {
                        reveal(Seq::filter);
                    }
                    assert(self.edges@ =~= se0 + oe0.take(ke + 1).filter(fresh_edge));
                }
                ke = ke + 1;
            }
        }
        proof {
            assert(ke == oe0.len()) by {
                assert(oe0.skip(ke).len() == 0);
            }
            assert(oe0.take(ke) =~= oe0);
            let pushed = oe0.filter(fresh_edge);
            assert forall|ev: (Seq<char>, Seq<char>, Seq<char>)|
                has_edge(self.edges@, ev) implies has_edge(se0, ev) || has_edge(oe0, ev) by {
                let i = choose|i: int|
                    0 <= i < self.edges@.len() && edge_view(#[trigger] self.edges@[i]) == ev;
                if i < se0.len() {
                    assert(edge_view(se0[i]) == ev);
                } else {
                    let p = i - se0.len();
                    assert(self.edges@[i] == pushed[p]);
                    lemma_filter_membership(oe0, fresh_edge);
                    let q = choose|q: int| 0 <= q < oe0.len() && oe0[q] == pushed[p];
                    assert(edge_view(oe0[q]) == ev);
                }
            }
            assert forall|ev: (Seq<char>, Seq<char>, Seq<char>)|
                has_edge(se0, ev) || has_edge(oe0, ev) implies has_edge(self.edges@, ev) by {
                if has_edge(se0, ev) {
                    let i = choose|i: int|
                        0 <= i < se0.len() && edge_view(#[trigger] se0[i]) == ev;
                    assert(edge_view(self.edges@[i]) == ev);
                } else {
                    let j = choose|j: int|
                        0 <= j < oe0.len() && edge_view(#[trigger] oe0[j]) == ev;
                    if has_edge(se0, edge_view(oe0[j])) {
                        assert(false);
                    }
                    oe0.lemma_filter_contains(fresh_edge, j);
                    assert(pushed.contains(oe0[j]));
                    let p = choose|p: int| 0 <= p < pushed.len() && pushed[p] == oe0[j];
                    assert(self.edges@[se0.len() + p] == pushed[p]);
                    assert(edge_view(self.edges@[se0.len() + p]) == ev);
                }
            }
        }
    }
}

/// Every element of a filtered sequence is an element of the sequence.
pub proof fn lemma_filter_membership<A>(s: Seq<A>, pred: spec_fn(A) -> bool)
    ensures
        forall|p: int|
            0 <= p < s.filter(pred).len() ==> exists|q: int|
                0 <= q < s.len() && s[q] == #[trigger] s.filter(pred)[p],
    decreases s.len(),
{
    reveal(Seq::filter);
    if s.len() > 0 {
        lemma_filter_membership(s.drop_last(), pred);
        let t = s.drop_last();
        assert forall|p: int| 0 <= p < s.filter(pred).len() implies exists|q: int|
            0 <= q < s.len() && s[q] == #[trigger] s.filter(pred)[p] by {
            if p < t.filter(pred).len() {
                let q = choose|q: int| 0 <= q < t.len() && t[q] == t.filter(pred)[p];
                assert(s[q] == s.filter(pred)[p]);
            } else {
                assert(s.filter(pred)[p] == s.last());
                assert(s[s.len() - 1] == s.filter(pred)[p]);
            }
        }
    }
}

} // verus!
