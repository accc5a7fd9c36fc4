//! The dynamic node: a graph-fragment node whose attributes are an open
//! map rather than a fixed schema, carrying its own id-derivation strategy.
//!
//! The property map is kept as an insertion-ordered list of key/value
//! pairs with unique keys; its mathematical model is a `Map` from key view
//! to value view. Unlike the static nodes, merging overwrites an attribute
//! held under the same key with the incoming value.

use vstd::pervasive::VecAdditionalExecFns;
use vstd::prelude::*;

use crate::identity::{ident_of, make_identity};
use crate::mutation::{mutation_numbers, mutation_strings, set_number_predicate, set_string_predicate};
use crate::numfmt::{dec_str, dec_str_signed, i64_to_dec_string, u64_to_dec_string};

verus! {

/// A dynamic-node attribute value.
#[derive(Clone, Debug)]
pub enum NodeProperty {
    IntProp(i64),
    UintProp(u64),
    StrProp(String),
}

/// The mathematical value of an attribute.
pub enum PropValue {
    Int(i64),
    Uint(u64),
    Str(Seq<char>),
}

/// The view of an attribute value.
pub open spec fn prop_view(p: NodeProperty) -> PropValue {
    match p {
        NodeProperty::IntProp(i) => PropValue::Int(i),
        NodeProperty::UintProp(u) => PropValue::Uint(u),
        NodeProperty::StrProp(s) => PropValue::Str(s@),
    }
}

impl NodeProperty {
    /// A copy of the attribute carrying the same value.
    pub fn duplicate(&self) -> (r: NodeProperty)
        ensures
            prop_view(r) == prop_view(*self),
    {
        match self {
            NodeProperty::IntProp(i) => NodeProperty::IntProp(*i),
            NodeProperty::UintProp(u) => NodeProperty::UintProp(*u),
            NodeProperty::StrProp(s) => NodeProperty::StrProp(s.clone()),
        }
    }
}

/// How a dynamic node derives its identity: from a session window or from
/// static properties. Either way the strategy may demand that the node be
/// bound to an asset first.
#[derive(Clone, Debug)]
pub enum IdStrategy {
    Session { primary_key_requires_asset_id: bool },
    Static { primary_key_requires_asset_id: bool },
}

/// Whether a strategy demands asset identification.
pub open spec fn strategy_requires_asset_id(s: IdStrategy) -> bool {
    match s {
        IdStrategy::Session { primary_key_requires_asset_id } => primary_key_requires_asset_id,
        IdStrategy::Static { primary_key_requires_asset_id } => primary_key_requires_asset_id,
    }
}

/// The key of the pair at position `i`, as a character sequence.
pub open spec fn key_at(s: Seq<(String, NodeProperty)>, i: int) -> Seq<char> {
    s[i].0@
}

/// No two pairs share a key.
pub open spec fn unique_keys(s: Seq<(String, NodeProperty)>) -> bool {
    forall|i: int, j: int| 0 <= i < j < s.len() ==> key_at(s, i) != key_at(s, j)
}

/// The mathematical contents of a property list: the map each key/value
/// pair contributes to, later pairs winning.
pub open spec fn props_map(s: Seq<(String, NodeProperty)>) -> Map<Seq<char>, PropValue>
    decreases s.len(),
{
    if s.len() == 0 {
        Map::empty()
    } else {
        props_map(s.drop_last()).insert(s.last().0@, prop_view(s.last().1))
    }
}

/// The domain of the property map is exactly the set of keys in the list,
/// and under unique keys each key looks up the value stored beside it.
pub proof fn lemma_props_map_characterize(s: Seq<(String, NodeProperty)>)
    ensures
        forall|k: Seq<char>|
            #[trigger] props_map(s).dom().contains(k) <==> exists|i: int|
                0 <= i < s.len() && key_at(s, i) == k,
        unique_keys(s) ==> forall|i: int|
            0 <= i < s.len() ==> props_map(s).dom().contains(#[trigger] key_at(s, i))
                && props_map(s)[key_at(s, i)] == prop_view(s[i].1),
    decreases s.len(),
{
    if s.len() > 0 {
        let t = s.drop_last();
        lemma_props_map_characterize(t);
        assert(s.last() == s[s.len() - 1]);
        assert forall|k: Seq<char>| #[trigger]
            props_map(s).dom().contains(k) implies exists|i: int|
            0 <= i < s.len() && key_at(s, i) == k by {
            if k == s.last().0@ {
                assert(key_at(s, s.len() - 1) == k);
            } else {
                assert(props_map(t).dom().contains(k));
                let i = choose|i: int| 0 <= i < t.len() && key_at(t, i) == k;
                assert(t[i] == s[i]);
                assert(key_at(s, i) == k);
            }
        }
        assert forall|k: Seq<char>|
            (exists|i: int| 0 <= i < s.len() && key_at(s, i) == k) implies #[trigger]
            props_map(s).dom().contains(k) by {
            let i = choose|i: int| 0 <= i < s.len() && key_at(s, i) == k;
            if i == s.len() - 1 {
                assert(k == s.last().0@);
            } else {
                assert(t[i] == s[i]);
                assert(key_at(t, i) == k);
                assert(props_map(t).dom().contains(k));
            }
        }
        if unique_keys(s) {
            assert(unique_keys(t)) by {
                assert forall|i: int, j: int| 0 <= i < j < t.len() implies key_at(t, i) != key_at(
                    t,
                    j,
                ) by {
                    assert(t[i] == s[i]);
                    assert(t[j] == s[j]);
                    assert(key_at(s, i) != key_at(s, j));
                }
            }
            assert forall|i: int| 0 <= i < s.len() implies props_map(s).dom().contains(
                #[trigger] key_at(s, i),
            ) && props_map(s)[key_at(s, i)] == prop_view(s[i].1) by {
                if i == s.len() - 1 {
                    assert(key_at(s, i) == s.last().0@);
                } else {
                    assert(t[i] == s[i]);
                    assert(key_at(t, i) == key_at(s, i));
                    assert(props_map(t).dom().contains(key_at(t, i)) && props_map(t)[key_at(t, i)]
                        == prop_view(t[i].1));
                    assert(key_at(s, s.len() - 1) == s.last().0@);
                    assert(key_at(s, i) != s.last().0@);
                }
            }
        }
    }
}

/// Replacing the pair at a key's own position updates the map at that key.
pub proof fn lemma_props_map_update(
    s: Seq<(String, NodeProperty)>,
    i: int,
    p: (String, NodeProperty),
)
    requires
        unique_keys(s),
        0 <= i < s.len(),
        p.0@ == key_at(s, i),
    ensures
        props_map(s.update(i, p)) == props_map(s).insert(p.0@, prop_view(p.1)),
        unique_keys(s.update(i, p)),
{
    let t = s.update(i, p);
    assert forall|x: int, y: int| 0 <= x < y < t.len() implies key_at(t, x) != key_at(t, y) by {
        assert(key_at(t, x) == key_at(s, x));
        assert(key_at(t, y) == key_at(s, y));
    }
    lemma_props_map_characterize(s);
    lemma_props_map_characterize(t);
    assert(props_map(t) =~= props_map(s).insert(p.0@, prop_view(p.1))) by {
        assert forall|k: Seq<char>| #[trigger] props_map(t).dom().contains(k) implies props_map(
            s,
        ).insert(p.0@, prop_view(p.1)).dom().contains(k) by {
            let x = choose|x: int| 0 <= x < t.len() && key_at(t, x) == k;
            assert(key_at(s, x) == key_at(t, x));
        }
        assert forall|k: Seq<char>| props_map(s).insert(p.0@, prop_view(p.1)).dom().contains(
            k,
        ) implies #[trigger] props_map(t).dom().contains(k) by {
            if k == p.0@ {
                assert(key_at(t, i) == k);
            } else {
                let x = choose|x: int| 0 <= x < s.len() && key_at(s, x) == k;
                assert(key_at(t, x) == k);
            }
        }
        assert forall|k: Seq<char>| #[trigger] props_map(t).dom().contains(k) implies props_map(
            t,
        )[k] == props_map(s).insert(p.0@, prop_view(p.1))[k] by {
            let x = choose|x: int| 0 <= x < t.len() && key_at(t, x) == k;
            assert(props_map(t)[key_at(t, x)] == prop_view(t[x].1));
            if k == p.0@ {
                if x != i {
                    assert(key_at(t, i) == p.0@);
                    assert(false);
                }
                assert(props_map(t)[k] == prop_view(p.1));
            } else {
                assert(x != i);
                assert(t[x] == s[x]);
                assert(key_at(s, x) == k);
                assert(props_map(s)[key_at(s, x)] == prop_view(s[x].1));
            }
        }
    }
}

/// Appending a pair with a fresh key extends the map at that key.
pub proof fn lemma_props_map_push(s: Seq<(String, NodeProperty)>, p: (String, NodeProperty))
    ensures
        props_map(s.push(p)) == props_map(s).insert(p.0@, prop_view(p.1)),
        unique_keys(s) && !props_map(s).dom().contains(p.0@) ==> unique_keys(s.push(p)),
{
    let t = s.push(p);
    assert(t.drop_last() =~= s);
    assert(t.last() == p);
    assert(props_map(t) == props_map(s).insert(p.0@, prop_view(p.1)));
    if unique_keys(s) && !props_map(s).dom().contains(p.0@) {
        lemma_props_map_characterize(s);
        assert forall|i: int, j: int| 0 <= i < j < t.len() implies key_at(t, i) != key_at(
            t,
            j,
        ) by {
            assert(key_at(t, i) == key_at(s, i));
            if j == t.len() - 1 {
                assert(key_at(t, j) == p.0@);
                if key_at(s, i) == p.0@ {
                    assert(props_map(s).dom().contains(p.0@));
                }
            } else {
                assert(key_at(t, j) == key_at(s, j));
            }
        }
    }
}

/// A dynamic node. The attribute list must keep its keys unique
/// ([`DynamicNode::wf`]); [`DynamicNode::props`] is its mathematical
/// contents.
#[derive(Clone, Debug)]
pub struct DynamicNode {
    pub node_key: String,
    pub node_type: String,
    pub seen_at: u64,
    pub asset_id: Option<String>,
    pub properties: Vec<(String, NodeProperty)>,
    pub id_strategy: Vec<IdStrategy>,
}

impl DynamicNode {
    /// The property map this node holds.
    pub open spec fn props(&self) -> Map<Seq<char>, PropValue> {
        props_map(self.properties@)
    }

    /// Key uniqueness, established by the constructor and kept by every
    /// method.
    pub open spec fn wf(&self) -> bool {
        unique_keys(self.properties@)
    }

    /// Build a dynamic node with no properties.
    pub fn new(
        node_key: String,
        node_type: String,
        seen_at: u64,
        id_strategy: Vec<IdStrategy>,
    ) -> (r: DynamicNode)
        ensures
            r.node_key == node_key,
            r.node_type == node_type,
            r.seen_at == seen_at,
            r.asset_id is None,
            r.id_strategy == id_strategy,
            r.props() == Map::<Seq<char>, PropValue>::empty(),
            r.properties@.len() == 0,
            r.wf(),
    {
        DynamicNode {
            node_key,
            node_type,
            seen_at,
            asset_id: None,
            properties: Vec::new(),
            id_strategy,
        }
    }

    /// Store `value` under `name`, replacing in place or appending. The
    /// result reports whether the key was already present.
    fn insert_property(&mut self, name: String, value: NodeProperty) -> (had: bool)
        requires
            old(self).wf(),
        ensures
            final(self).wf(),
            had == old(self).props().dom().contains(name@),
            final(self).props() == old(self).props().insert(name@, prop_view(value)),
            final(self).node_key == old(self).node_key,
            final(self).node_type == old(self).node_type,
            final(self).seen_at == old(self).seen_at,
            final(self).asset_id == old(self).asset_id,
            final(self).id_strategy == old(self).id_strategy,
    {
        let ghost s0 = self.properties@;
        let mut i: usize = 0;
        while i < self.properties.len()
            invariant
                *self == *old(self),
                s0 == old(self).properties@,
                unique_keys(s0),
                0 <= i <= self.properties.len(),
                forall|j: int| 0 <= j < i ==> key_at(s0, j) != name@,
            decreases self.properties.len() - i,
        {
            if self.properties[i].0 == name {
                proof {
                    assert(key_at(s0, i as int) == name@);
                    lemma_props_map_characterize(s0);
                    lemma_props_map_update(s0, i as int, (name, value));
                }
                self.properties.set(i, (name, value));
                return true;
            }
            i += 1;
        }
        proof {
            lemma_props_map_characterize(s0);
            if props_map(s0).dom().contains(name@) {
                let j = choose|j: int| 0 <= j < s0.len() && key_at(s0, j) == name@;
                assert(false);
            }
            lemma_props_map_push(s0, (name, value));
        }
        self.properties.push((name, value));
        false
    }

    /// Look up a property by name.
    pub fn get_property(&self, name: &str) -> (r: Option<&NodeProperty>)
        requires
            self.wf(),
        ensures
            match r {
                Some(p) => self.props().dom().contains(name@) && prop_view(*p) == self.props()[
                    name@
                ],
                None => !self.props().dom().contains(name@),
            },
    {
        let owned: String = name.to_owned();
        let mut i: usize = 0;
        while i < self.properties.len()
            invariant
                self.wf(),
                owned@ == name@,
                0 <= i <= self.properties.len(),
                forall|j: int| 0 <= j < i ==> key_at(self.properties@, j) != name@,
            decreases self.properties.len() - i,
        {
            if self.properties[i].0 == owned {
                proof {
                    assert(key_at(self.properties@, i as int) == name@);
                    lemma_props_map_characterize(self.properties@);
                }
                return Some(&self.properties[i].1);
            }
            i += 1;
        }
        proof {
            lemma_props_map_characterize(self.properties@);
            if props_map(self.properties@).dom().contains(name@) {
                let j = choose|j: int|
                    0 <= j < self.properties@.len() && key_at(self.properties@, j) == name@;
                assert(false);
            }
        }
        None
    }

    /// Store a property, the incoming value replacing any held one.
    pub fn set_property(&mut self, name: String, value: NodeProperty)
        requires
            old(self).wf(),
        ensures
            final(self).wf(),
            final(self).props() == old(self).props().insert(name@, prop_view(value)),
            final(self).node_key == old(self).node_key,
            final(self).node_type == old(self).node_type,
            final(self).seen_at == old(self).seen_at,
            final(self).asset_id == old(self).asset_id,
            final(self).id_strategy == old(self).id_strategy,
    {
        let _ = self.insert_property(name, value);
    }

    /// Replace the node's stable identifier.
    pub fn set_key(&mut self, key: String)
        ensures
            final(self).node_key == key,
            final(self).node_type == old(self).node_type,
            final(self).seen_at == old(self).seen_at,
            final(self).asset_id == old(self).asset_id,
            final(self).properties == old(self).properties,
            final(self).id_strategy == old(self).id_strategy,
    {
        self.node_key = key;
    }

    /// The id-derivation strategies of this node.
    pub fn get_id_strategies(&self) -> (r: &Vec<IdStrategy>)
        ensures
            r == self.id_strategy,
    {
        &self.id_strategy
    }

    /// Whether any strategy demands that the node be bound to an asset
    /// before identification.
    pub fn requires_asset_identification(&self) -> (r: bool)
        ensures
            r == exists|i: int|
                0 <= i < self.id_strategy@.len() && strategy_requires_asset_id(
                    #[trigger] self.id_strategy@[i],
                ),
    {
        let mut i: usize = 0;
        while i < self.id_strategy.len()
            invariant
                0 <= i <= self.id_strategy.len(),
                forall|j: int|
                    0 <= j < i ==> !strategy_requires_asset_id(#[trigger] self.id_strategy@[j]),
            decreases self.id_strategy.len() - i,
        {
            let requires_asset = match &self.id_strategy[i] {
                IdStrategy::Session { primary_key_requires_asset_id } =>
                    *primary_key_requires_asset_id,
                IdStrategy::Static { primary_key_requires_asset_id } =>
                    *primary_key_requires_asset_id,
            };
            if requires_asset {
                return true;
            }
            i += 1;
        }
        false
    }

    /// The asset this node belongs to, when known.
    pub fn get_asset_id(&self) -> (r: Option<&String>)
        ensures
            r == match self.asset_id {
                Some(ref s) => Some::<&String>(s),
                None => None::<&String>,
            },
    {
        self.asset_id.as_ref()
    }

    /// Bind the node to an asset.
    pub fn set_asset_id(&mut self, asset_id: String)
        ensures
            final(self).asset_id == Some(asset_id),
            final(self).node_key == old(self).node_key,
            final(self).node_type == old(self).node_type,
            final(self).seen_at == old(self).seen_at,
            final(self).properties == old(self).properties,
            final(self).id_strategy == old(self).id_strategy,
    {
        self.asset_id = Some(asset_id);
    }

    /// The node's stable identifier.
    pub fn get_node_key(&self) -> (r: &String)
        ensures
            r == self.node_key,
    {
        &self.node_key
    }

    /// Replace the node's stable identifier; every other field is
    /// unchanged.
    pub fn set_node_key(&mut self, node_key: String)
        ensures
            *final(self) == (DynamicNode { node_key: node_key, ..*old(self) }),
    {
        self.node_key = node_key;
    }

    /// Merge `other` into `self`. A differing node key refuses the merge
    /// and leaves `self` untouched; otherwise every incoming attribute is
    /// stored, overwriting any value held under the same key. The result
    /// reports whether a key was already present on both sides.
    pub fn merge(&mut self, other: &DynamicNode) -> (r: bool)
        requires
            old(self).wf(),
            other.wf(),
        ensures
            final(self).wf(),
            old(self).node_key@ != other.node_key@ ==> r == false && *final(self) == *old(self),
            old(self).node_key@ == other.node_key@ ==> final(self).props() == old(
                self,
            ).props().union_prefer_right(other.props()),
            old(self).node_key@ == other.node_key@ ==> r == exists|k: Seq<char>|
                #[trigger] old(self).props().dom().contains(k) && other.props().dom().contains(k),
            final(self).node_key == old(self).node_key,
            final(self).node_type == old(self).node_type,
            final(self).seen_at == old(self).seen_at,
            final(self).asset_id == old(self).asset_id,
            final(self).id_strategy == old(self).id_strategy,
    {
        if !(self.node_key == other.node_key) {
            return false;
        }

        let ghost m0 = self.props();
        let mut merged = false;
        let mut i: usize = 0;
        proof {
            assert(other.properties@.take(0) =~= Seq::<(String, NodeProperty)>::empty());
            assert(m0.union_prefer_right(props_map(other.properties@.take(0))) =~= m0);
        }
        while i < other.properties.len()
            invariant
                other.wf(),
                0 <= i <= other.properties.len(),
                self.wf(),
                m0 == old(self).props(),
                self.props() == m0.union_prefer_right(props_map(other.properties@.take(i as int))),
                merged == exists|k: Seq<char>|
                    #[trigger] m0.dom().contains(k) && props_map(
                        other.properties@.take(i as int),
                    ).dom().contains(k),
                self.node_key == old(self).node_key,
                self.node_type == old(self).node_type,
                self.seen_at == old(self).seen_at,
                self.asset_id == old(self).asset_id,
                self.id_strategy == old(self).id_strategy,
            decreases other.properties.len() - i,
        {
            let ghost taken = other.properties@.take(i as int);
            let ghost m_before = self.props();
            let pair = &other.properties[i];
            let key = pair.0.clone();
            let value = pair.1.duplicate();
            let ghost key_view = key@;
            let ghost value_view = prop_view(value);
            let had = self.insert_property(key, value);
            proof {
                let taken1 = other.properties@.take(i as int + 1);
                assert(taken1.drop_last() =~= taken);
                assert(taken1.last() == other.properties@[i as int]);
                assert(props_map(taken1) == props_map(taken).insert(
                    other.properties@[i as int].0@,
                    prop_view(other.properties@[i as int].1),
                ));
                assert(key_view == key_at(other.properties@, i as int));
                assert(value_view == prop_view(other.properties@[i as int].1));
                // The incoming key is fresh among the keys already taken.
                lemma_props_map_characterize(taken);
                if props_map(taken).dom().contains(key_view) {
                    let j = choose|j: int| 0 <= j < taken.len() && key_at(taken, j) == key_view;
                    assert(taken[j] == other.properties@[j]);
                    assert(key_at(other.properties@, j) == key_view);
                    assert(false);
                }
                // So `had` answered about the map held at entry.
                assert(m_before.dom() =~= m0.dom().union(props_map(taken).dom()));
                assert(had == m0.dom().contains(key_view));
                assert(self.props() =~= m0.union_prefer_right(props_map(taken1))) by {
                    assert(self.props() == m_before.insert(key_view, value_view));
                }
                if had {
                    assert(m0.dom().contains(key_view) && props_map(taken1).dom().contains(
                        key_view,
                    ));
                } else {
                    assert forall|k: Seq<char>| #[trigger]
                        m0.dom().contains(k) && props_map(taken1).dom().contains(
                            k,
                        ) implies m0.dom().contains(k) && props_map(taken).dom().contains(k) by {
                        assert(props_map(taken1).dom() =~= props_map(taken).dom().insert(
                            key_view,
                        ));
                        if k == key_view {
                            assert(false);
                        }
                    }
                }
            }
            merged = merged || had;
            i += 1;
        }
        proof {
            assert(other.properties@.take(other.properties@.len() as int) =~= other.properties@);
        }
        merged
    }

    /// Merge a consumed node; the behaviour is that of
    /// [`DynamicNode::merge`].
    pub fn merge_into(&mut self, other: DynamicNode) -> (r: bool)
        requires
            old(self).wf(),
            other.wf(),
        ensures
            final(self).wf(),
            old(self).node_key@ != other.node_key@ ==> r == false && *final(self) == *old(self),
            old(self).node_key@ == other.node_key@ ==> final(self).props() == old(
                self,
            ).props().union_prefer_right(other.props()),
            old(self).node_key@ == other.node_key@ ==> r == exists|k: Seq<char>|
                #[trigger] old(self).props().dom().contains(k) && other.props().dom().contains(k),
            final(self).node_key == old(self).node_key,
            final(self).node_type == old(self).node_type,
            final(self).seen_at == old(self).seen_at,
            final(self).asset_id == old(self).asset_id,
            final(self).id_strategy == old(self).id_strategy,
    {
        self.merge(&other)
    }

    /// Materialise the node into a mutation unit: the node key, the time
    /// the node was seen, its type, its asset binding when known, and then
    /// every attribute under its own name.
    pub fn attach_predicates_to_mutation_unit(
        &self,
        mutation_unit: &mut dgraph_query_lib::mutation::MutationUnit,
    )
        ensures
            mutation_strings(*final(mutation_unit)) == dyn_props_strings(
                self.properties@,
                dyn_header_strings(*self, mutation_strings(*old(mutation_unit))),
            ),
            mutation_numbers(*final(mutation_unit)) == dyn_props_numbers(
                self.properties@,
                dyn_header_numbers(*self, mutation_numbers(*old(mutation_unit))),
            ),
    {
        set_string_predicate(mutation_unit, "node_key", self.node_key.as_str());
        set_number_predicate(
            mutation_unit,
            "seen_at",
            #[verifier::truncate]
            (self.seen_at as i64),
        );
        set_string_predicate(mutation_unit, "dgraph.type", self.node_type.as_str());
        if let Some(asset_id) = &self.asset_id {
            set_string_predicate(mutation_unit, "asset_id", asset_id.as_str());
        }

        let ghost hs = mutation_strings(*mutation_unit);
        let ghost hn = mutation_numbers(*mutation_unit);
        let mut i: usize = 0;
        proof {
            assert(self.properties@.skip(0) =~= self.properties@);
        }
        while i < self.properties.len()
            invariant
                0 <= i <= self.properties.len(),
                dyn_props_strings(self.properties@, hs) == dyn_props_strings(
                    self.properties@.skip(i as int),
                    mutation_strings(*mutation_unit),
                ),
                dyn_props_numbers(self.properties@, hn) == dyn_props_numbers(
                    self.properties@.skip(i as int),
                    mutation_numbers(*mutation_unit),
                ),
            decreases self.properties.len() - i,
        {
            let ghost remaining = self.properties@.skip(i as int);
            let pair = &self.properties[i];
            proof {
                assert(remaining.len() > 0);
                assert(remaining.first() == self.properties@[i as int]);
                assert(remaining.drop_first() =~= self.properties@.skip(i as int + 1));
            }
            match &pair.1 {
                NodeProperty::IntProp(v) => {
                    set_number_predicate(mutation_unit, pair.0.as_str(), *v);
                },
                NodeProperty::UintProp(v) => {
                    set_number_predicate(
                        mutation_unit,
                        pair.0.as_str(),
                        #[verifier::truncate]
                        (*v as i64),
                    );
                },
                NodeProperty::StrProp(v) => {
                    set_string_predicate(mutation_unit, pair.0.as_str(), v.as_str());
                },
            }
            i += 1;
        }
        proof {
            assert(self.properties@.skip(self.properties@.len() as int)
                =~= Seq::<(String, NodeProperty)>::empty());
        }
    }

    /// The identity strings of this node's attributes: one
    /// `node_key:name:value` entry per attribute, numbers rendered in
    /// decimal.
    pub fn get_cache_identities_for_predicates(&self) -> (r: Vec<String>)
        ensures
            r.deep_view() == dyn_identities(*self),
    {
        let mut out: Vec<String> = Vec::new();
        let mut i: usize = 0;
        proof {
            assert(out.deep_view() =~= dyn_identities(*self).take(0));
        }
        while i < self.properties.len()
            invariant
                0 <= i <= self.properties.len(),
                out.deep_view() == dyn_identities(*self).take(i as int),
            decreases self.properties.len() - i,
        {
            let pair = &self.properties[i];
            let rendered = match &pair.1 {
                NodeProperty::IntProp(v) => i64_to_dec_string(*v),
                NodeProperty::UintProp(v) => u64_to_dec_string(*v),
                NodeProperty::StrProp(v) => v.clone(),
            };
            out.push(make_identity(self.node_key.as_str(), pair.0.as_str(), rendered.as_str()));
            proof {
                assert(dyn_identities(*self)[i as int] == ident_of(
                    self.node_key@,
                    self.properties@[i as int].0@,
                    prop_value_str(self.properties@[i as int].1),
                ));
                assert(dyn_identities(*self).take(i as int + 1) =~= dyn_identities(*self).take(
                    i as int,
                ).push(dyn_identities(*self)[i as int]));
                assert(out.deep_view() =~= dyn_identities(*self).take(i as int + 1));
            }
            i += 1;
        }
        proof {
            assert(dyn_identities(*self).take(self.properties@.len() as int) =~= dyn_identities(
                *self,
            ));
        }
        out
    }
}

/// What one attribute does to the string map: a string attribute is
/// stored, a numeric one drops any string held under the same name.
pub open spec fn dyn_prop_strings_step(
    m: Map<Seq<char>, Seq<char>>,
    p: (String, NodeProperty),
) -> Map<Seq<char>, Seq<char>> {
    match p.1 {
        NodeProperty::StrProp(v) => m.insert(p.0@, v@),
        _ => m.remove(p.0@),
    }
}

/// What one attribute does to the number map: a numeric attribute is
/// stored as the store's signed 64-bit integer, a string one drops any
/// number held under the same name.
pub open spec fn dyn_prop_numbers_step(m: Map<Seq<char>, int>, p: (String, NodeProperty)) -> Map<
    Seq<char>,
    int,
> {
    match p.1 {
        NodeProperty::IntProp(i) => m.insert(p.0@, i as int),
        NodeProperty::UintProp(u) => m.insert(p.0@, (u as i64) as int),
        NodeProperty::StrProp(_) => m.remove(p.0@),
    }
}

/// The attribute list applied to the string map, first to last.
pub open spec fn dyn_props_strings(
    ps: Seq<(String, NodeProperty)>,
    m: Map<Seq<char>, Seq<char>>,
) -> Map<Seq<char>, Seq<char>>
    decreases ps.len(),
{
    if ps.len() == 0 {
        m
    } else {
        dyn_props_strings(ps.drop_first(), dyn_prop_strings_step(m, ps.first()))
    }
}

/// The attribute list applied to the number map, first to last.
pub open spec fn dyn_props_numbers(
    ps: Seq<(String, NodeProperty)>,
    m: Map<Seq<char>, int>,
) -> Map<Seq<char>, int>
    decreases ps.len(),
{
    if ps.len() == 0 {
        m
    } else {
        dyn_props_numbers(ps.drop_first(), dyn_prop_numbers_step(m, ps.first()))
    }
}

/// The header predicates of a dynamic node, applied to the string map:
/// the node key, the seen-at time, the node's own type as the stored
/// type, and the asset binding when known.
pub open spec fn dyn_header_strings(d: DynamicNode, m0: Map<Seq<char>, Seq<char>>) -> Map<
    Seq<char>,
    Seq<char>,
> {
    let m = m0.insert("node_key"@, d.node_key@).remove("seen_at"@).insert(
        "dgraph.type"@,
        d.node_type@,
    );
    match d.asset_id {
        Some(a) => m.insert("asset_id"@, a@),
        None => m,
    }
}

/// The header predicates of a dynamic node, applied to the number map.
pub open spec fn dyn_header_numbers(d: DynamicNode, m0: Map<Seq<char>, int>) -> Map<
    Seq<char>,
    int,
> {
    let m = m0.remove("node_key"@).insert("seen_at"@, (d.seen_at as i64) as int).remove(
        "dgraph.type"@,
    );
    match d.asset_id {
        Some(_) => m.remove("asset_id"@),
        None => m,
    }
}

/// The rendering of an attribute value inside an identity string.
pub open spec fn prop_value_str(p: NodeProperty) -> Seq<char> {
    match p {
        NodeProperty::IntProp(i) => dec_str_signed(i as int),
        NodeProperty::UintProp(u) => dec_str(u as nat),
        NodeProperty::StrProp(s) => s@,
    }
}

/// The identity strings a dynamic node contributes, one per attribute in
/// storage order.
pub open spec fn dyn_identities(d: DynamicNode) -> Seq<Seq<char>> {
    d.properties@.map_values(
        |p: (String, NodeProperty)| ident_of(d.node_key@, p.0@, prop_value_str(p.1)),
    )
}

} // verus!
