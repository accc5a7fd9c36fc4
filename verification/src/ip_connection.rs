//! The IP-connection node: a graph-fragment node describing a connection
//! between two addresses, identified by its endpoints and protocol.

use vstd::prelude::*;

use crate::errors::Error;
use crate::identity::{ident_of, make_identity};
use crate::ids;
use crate::merge_rules::{max_merge, merge_created, merge_last_seen, min_nonzero};
use crate::mutation::{mutation_numbers, mutation_strings, set_number_predicate, set_string_predicate};
use crate::numfmt::{dec_str, u64_to_dec_string};

verus! {

/// The lifecycle state an IP-connection observation reports.
#[derive(Clone, Debug, PartialEq, Eq, Structural)]
pub enum IpConnectionState {
    Created,
    Existing,
    Terminated,
}

/// The wire encoding of an IP-connection state.
pub open spec fn ip_connection_state_code(s: IpConnectionState) -> u32 {
    match s {
        IpConnectionState::Created => 1,
        IpConnectionState::Terminated => 2,
        IpConnectionState::Existing => 3,
    }
}

impl IpConnectionState {
    /// Decode a wire value; values outside 1..=3 are rejected.
    pub fn try_from(i: u32) -> (r: Result<IpConnectionState, Error>)
        ensures
            i == 1 ==> r == Ok::<IpConnectionState, Error>(IpConnectionState::Created),
            i == 2 ==> r == Ok::<IpConnectionState, Error>(IpConnectionState::Terminated),
            i == 3 ==> r == Ok::<IpConnectionState, Error>(IpConnectionState::Existing),
            !(1 <= i <= 3) ==> r == Err::<IpConnectionState, Error>(
                Error::InvalidIpConnectionState(i),
            ),
    {
        match i {
            1 => Ok(IpConnectionState::Created),
            2 => Ok(IpConnectionState::Terminated),
            3 => Ok(IpConnectionState::Existing),
            _ => Err(Error::InvalidIpConnectionState(i)),
        }
    }

    /// Encode the state for the wire.
    pub fn into_u32(self) -> (r: u32)
        ensures
            r == ip_connection_state_code(self),
    {
        match self {
            IpConnectionState::Created => 1,
            IpConnectionState::Terminated => 2,
            IpConnectionState::Existing => 3,
        }
    }
}

/// An IP-connection node. The two addresses and the protocol identify the
/// connection and are immutable under merging.
#[derive(Clone, Debug)]
pub struct IpConnection {
    pub node_key: String,
    pub src_ip_address: String,
    pub dst_ip_address: String,
    pub protocol: String,
    pub state: u32,
    pub created_timestamp: u64,
    pub terminated_timestamp: u64,
    pub last_seen_timestamp: u64,
}

/// Two IP-connection nodes may merge only when the node key and every
/// identifying attribute agree.
pub open spec fn ip_connection_mergeable(a: IpConnection, b: IpConnection) -> bool {
    &&& a.node_key@ == b.node_key@
    &&& a.src_ip_address@ == b.src_ip_address@
    &&& a.dst_ip_address@ == b.dst_ip_address@
    &&& a.protocol@ == b.protocol@
}

/// Field-wise description of an IP-connection merge: only the timestamps
/// move; `created` takes the minimum of the non-zero inputs, the others
/// take the maximum.
pub open spec fn ip_connection_fields_merged(a: IpConnection, b: IpConnection, m: IpConnection) -> bool {
    &&& m.node_key == a.node_key
    &&& m.src_ip_address == a.src_ip_address
    &&& m.dst_ip_address == a.dst_ip_address
    &&& m.protocol == a.protocol
    &&& m.state == a.state
    &&& m.created_timestamp == min_nonzero(a.created_timestamp, b.created_timestamp)
    &&& m.terminated_timestamp == max_merge(a.terminated_timestamp, b.terminated_timestamp)
    &&& m.last_seen_timestamp == max_merge(a.last_seen_timestamp, b.last_seen_timestamp)
}

/// True when merging `b` into `a` changes at least one timestamp.
pub open spec fn ip_connection_merge_changes(a: IpConnection, b: IpConnection) -> bool {
    ||| (min_nonzero(a.created_timestamp, b.created_timestamp) != a.created_timestamp)
    ||| (max_merge(a.terminated_timestamp, b.terminated_timestamp) != a.terminated_timestamp)
    ||| (max_merge(a.last_seen_timestamp, b.last_seen_timestamp) != a.last_seen_timestamp)
}

impl IpConnection {
    /// Build an IP-connection node with a fresh random node key.
    pub fn new(
        src_ip_address: String,
        dst_ip_address: String,
        protocol: String,
        state: IpConnectionState,
        created_timestamp: u64,
        terminated_timestamp: u64,
        last_seen_timestamp: u64,
    ) -> (r: IpConnection)
        ensures
            r.node_key@.len() == 36,
            forall|i: int| 0 <= i < 36 ==> ids::is_key_char(#[trigger] r.node_key@[i]),
            r.src_ip_address == src_ip_address,
            r.dst_ip_address == dst_ip_address,
            r.protocol == protocol,
            r.state == ip_connection_state_code(state),
            r.created_timestamp == created_timestamp,
            r.terminated_timestamp == terminated_timestamp,
            r.last_seen_timestamp == last_seen_timestamp,
    {
        IpConnection {
            node_key: ids::fresh_node_key(),
            src_ip_address,
            dst_ip_address,
            protocol,
            state: state.into_u32(),
            created_timestamp,
            terminated_timestamp,
            last_seen_timestamp,
        }
    }

    /// A connection is bound to no single asset.
    pub fn get_asset_id(&self) -> (r: Option<&String>)
        ensures
            r is None,
    {
        None
    }

    /// The node's stable identifier.
    pub fn get_node_key(&self) -> (r: &String)
        ensures
            r == self.node_key,
    {
        &self.node_key
    }

    /// Replace the node's stable identifier; every other field is
    /// unchanged.
    pub fn set_node_key(&mut self, node_key: String)
        ensures
            *final(self) == (IpConnection { node_key: node_key, ..*old(self) }),
    {
        self.node_key = node_key;
    }

    /// Merge `other` into `self`. A differing node key or identifying
    /// attribute refuses the merge and leaves `self` untouched; otherwise
    /// the timestamps merge under the min/max rules, and the result reports
    /// whether anything changed.
    pub fn merge(&mut self, other: &IpConnection) -> (r: bool)
        ensures
            !ip_connection_mergeable(*old(self), *other) ==> r == false && *final(self) == *old(
                self,
            ),
            ip_connection_mergeable(*old(self), *other) ==> ip_connection_fields_merged(
                *old(self),
                *other,
                *final(self),
            ),
            ip_connection_mergeable(*old(self), *other) ==> r == ip_connection_merge_changes(
                *old(self),
                *other,
            ),
    {
        if !(self.node_key == other.node_key) {
            return false;
        }
        if !(self.src_ip_address == other.src_ip_address) {
            return false;
        }
        if !(self.dst_ip_address == other.dst_ip_address) {
            return false;
        }
        if !(self.protocol == other.protocol) {
            return false;
        }

        let mut merged = false;

        let new_created = merge_created(self.created_timestamp, other.created_timestamp);
        if new_created != self.created_timestamp {
            merged = true;
            self.created_timestamp = new_created;
        }
        let new_terminated = merge_last_seen(self.terminated_timestamp, other.terminated_timestamp);
        if new_terminated != self.terminated_timestamp {
            merged = true;
            self.terminated_timestamp = new_terminated;
        }
        let new_last_seen = merge_last_seen(self.last_seen_timestamp, other.last_seen_timestamp);
        if new_last_seen != self.last_seen_timestamp {
            merged = true;
            self.last_seen_timestamp = new_last_seen;
        }

        merged
    }

    /// Merge a consumed node; the behaviour is that of
    /// [`IpConnection::merge`].
    pub fn merge_into(&mut self, other: IpConnection) -> (r: bool)
        ensures
            !ip_connection_mergeable(*old(self), other) ==> r == false && *final(self) == *old(
                self,
            ),
            ip_connection_mergeable(*old(self), other) ==> ip_connection_fields_merged(
                *old(self),
                other,
                *final(self),
            ),
            ip_connection_mergeable(*old(self), other) ==> r == ip_connection_merge_changes(
                *old(self),
                other,
            ),
    {
        self.merge(&other)
    }

    /// Materialise the node into a mutation unit: the node key, the type,
    /// the identifying attributes, and every non-zero timestamp.
    #[verifier::rlimit(60)]
    #[verifier::spinoff_prover]
    pub fn attach_predicates_to_mutation_unit(
        &self,
        mutation_unit: &mut dgraph_query_lib::mutation::MutationUnit,
    )
        ensures
            mutation_strings(*final(mutation_unit)) == ip_connection_mutation_strings(
                *self,
                mutation_strings(*old(mutation_unit)),
            ),
            mutation_numbers(*final(mutation_unit)) == ip_connection_mutation_numbers(
                *self,
                mutation_numbers(*old(mutation_unit)),
            ),
    {
        set_string_predicate(mutation_unit, "node_key", self.node_key.as_str());
        set_string_predicate(mutation_unit, "dgraph.type", "IpConnection");
        set_string_predicate(mutation_unit, "src_ip_address", self.src_ip_address.as_str());
        set_string_predicate(mutation_unit, "dst_ip_address", self.dst_ip_address.as_str());
        set_string_predicate(mutation_unit, "protocol", self.protocol.as_str());
        if self.created_timestamp != 0 {
            set_number_predicate(
                mutation_unit,
                "created_timestamp",
                #[verifier::truncate]
                (self.created_timestamp as i64),
            );
        }
        if self.terminated_timestamp != 0 {
            set_number_predicate(
                mutation_unit,
                "terminated_timestamp",
                #[verifier::truncate]
                (self.terminated_timestamp as i64),
            );
        }
        if self.last_seen_timestamp != 0 {
            set_number_predicate(
                mutation_unit,
                "last_seen_timestamp",
                #[verifier::truncate]
                (self.last_seen_timestamp as i64),
            );
        }
    }

    /// The identity strings of this node's predicates: one
    /// `node_key:name:value` entry per attached predicate.
    #[verifier::rlimit(60)]
    #[verifier::spinoff_prover]
    pub fn get_cache_identities_for_predicates(&self) -> (r: Vec<String>)
        ensures
            r.deep_view() == ip_connection_identities(*self),
    {
        let mut out: Vec<String> = Vec::new();
        out.push(
            make_identity(self.node_key.as_str(), "src_ip_address", self.src_ip_address.as_str()),
        );
        out.push(
            make_identity(self.node_key.as_str(), "dst_ip_address", self.dst_ip_address.as_str()),
        );
        out.push(make_identity(self.node_key.as_str(), "protocol", self.protocol.as_str()));
        if self.created_timestamp != 0 {
            let rendered = u64_to_dec_string(self.created_timestamp);
            out.push(
                make_identity(self.node_key.as_str(), "created_timestamp", rendered.as_str()),
            );
        }
        if self.terminated_timestamp != 0 {
            let rendered = u64_to_dec_string(self.terminated_timestamp);
            out.push(
                make_identity(self.node_key.as_str(), "terminated_timestamp", rendered.as_str()),
            );
        }
        if self.last_seen_timestamp != 0 {
            let rendered = u64_to_dec_string(self.last_seen_timestamp);
            out.push(
                make_identity(self.node_key.as_str(), "last_seen_timestamp", rendered.as_str()),
            );
        }
        proof {
            assert(out.deep_view() =~= ip_connection_identities(*self));
        }
        out
    }
}

/// The string predicates an IP-connection node attaches, applied over the
/// string map a unit already holds; a number predicate drops any string
/// held under the same name.
pub open spec fn ip_connection_mutation_strings(c: IpConnection, m0: Map<Seq<char>, Seq<char>>) -> Map<
    Seq<char>,
    Seq<char>,
> {
    let m = m0.insert("node_key"@, c.node_key@).insert("dgraph.type"@, "IpConnection"@).insert(
        "src_ip_address"@,
        c.src_ip_address@,
    ).insert("dst_ip_address"@, c.dst_ip_address@).insert("protocol"@, c.protocol@);
    let m = if c.created_timestamp != 0 {
        m.remove("created_timestamp"@)
    } else {
        m
    };
    let m = if c.terminated_timestamp != 0 {
        m.remove("terminated_timestamp"@)
    } else {
        m
    };
    let m = if c.last_seen_timestamp != 0 {
        m.remove("last_seen_timestamp"@)
    } else {
        m
    };
    m
}

/// The number predicates an IP-connection node attaches, applied over the
/// number map a unit already holds; a string predicate drops any number
/// held under the same name.
pub open spec fn ip_connection_mutation_numbers(c: IpConnection, m0: Map<Seq<char>, int>) -> Map<
    Seq<char>,
    int,
> {
    let m = m0.remove("node_key"@).remove("dgraph.type"@).remove("src_ip_address"@).remove(
        "dst_ip_address"@,
    ).remove("protocol"@);
    let m = if c.created_timestamp != 0 {
        m.insert("created_timestamp"@, (c.created_timestamp as i64) as int)
    } else {
        m
    };
    let m = if c.terminated_timestamp != 0 {
        m.insert("terminated_timestamp"@, (c.terminated_timestamp as i64) as int)
    } else {
        m
    };
    let m = if c.last_seen_timestamp != 0 {
        m.insert("last_seen_timestamp"@, (c.last_seen_timestamp as i64) as int)
    } else {
        m
    };
    m
}

/// The identity strings an IP-connection node contributes.
pub open spec fn ip_connection_identities(c: IpConnection) -> Seq<Seq<char>> {
    let s = Seq::<Seq<char>>::empty();
    let s = s.push(ident_of(c.node_key@, "src_ip_address"@, c.src_ip_address@));
    let s = s.push(ident_of(c.node_key@, "dst_ip_address"@, c.dst_ip_address@));
    let s = s.push(ident_of(c.node_key@, "protocol"@, c.protocol@));
    let s = if c.created_timestamp != 0 {
        s.push(ident_of(c.node_key@, "created_timestamp"@, dec_str(c.created_timestamp as nat)))
    } else {
        s
    };
    let s = if c.terminated_timestamp != 0 {
        s.push(
            ident_of(c.node_key@, "terminated_timestamp"@, dec_str(c.terminated_timestamp as nat)),
        )
    } else {
        s
    };
    let s = if c.last_seen_timestamp != 0 {
        s.push(
            ident_of(c.node_key@, "last_seen_timestamp"@, dec_str(c.last_seen_timestamp as nat)),
        )
    } else {
        s
    };
    s
}

} // verus!
