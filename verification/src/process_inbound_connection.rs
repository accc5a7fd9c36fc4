//! The process-inbound-connection node: a graph-fragment node describing a
//! listening process endpoint, identified by address, port and protocol.

use vstd::prelude::*;

use crate::errors::Error;
use crate::identity::{ident_of, make_identity};
use crate::ids;
use crate::merge_rules::{
    fill_opt, max_merge, merge_created, merge_last_seen, min_nonzero, opt_view,
};
use crate::mutation::{mutation_numbers, mutation_strings, set_number_predicate, set_string_predicate};
use crate::numfmt::{dec_str, u64_to_dec_string};

verus! {

/// The lifecycle state a process-inbound-connection observation reports.
#[derive(Clone, Debug, PartialEq, Eq, Structural)]
pub enum ProcessInboundConnectionState {
    Bound,
    Existing,
    Closed,
}

/// The wire encoding of a process-inbound-connection state.
pub open spec fn process_inbound_connection_state_code(s: ProcessInboundConnectionState) -> u32 {
    match s {
        ProcessInboundConnectionState::Bound => 1,
        ProcessInboundConnectionState::Closed => 2,
        ProcessInboundConnectionState::Existing => 3,
    }
}

impl ProcessInboundConnectionState {
    /// Decode a wire value; values outside 1..=3 are rejected.
    pub fn try_from(i: u32) -> (r: Result<ProcessInboundConnectionState, Error>)
        ensures
            i == 1 ==> r == Ok::<ProcessInboundConnectionState, Error>(
                ProcessInboundConnectionState::Bound,
            ),
            i == 2 ==> r == Ok::<ProcessInboundConnectionState, Error>(
                ProcessInboundConnectionState::Closed,
            ),
            i == 3 ==> r == Ok::<ProcessInboundConnectionState, Error>(
                ProcessInboundConnectionState::Existing,
            ),
            !(1 <= i <= 3) ==> r == Err::<ProcessInboundConnectionState, Error>(
                Error::InvalidProcessInboundConnectionState(i),
            ),
    {
        match i {
            1 => Ok(ProcessInboundConnectionState::Bound),
            2 => Ok(ProcessInboundConnectionState::Closed),
            3 => Ok(ProcessInboundConnectionState::Existing),
            _ => Err(Error::InvalidProcessInboundConnectionState(i)),
        }
    }

    /// Encode the state for the wire.
    pub fn into_u32(self) -> (r: u32)
        ensures
            r == process_inbound_connection_state_code(self),
    {
        match self {
            ProcessInboundConnectionState::Bound => 1,
            ProcessInboundConnectionState::Closed => 2,
            ProcessInboundConnectionState::Existing => 3,
        }
    }
}

/// A process-inbound-connection node. The address, port and protocol
/// identify the endpoint and are immutable under merging.
#[derive(Clone, Debug)]
pub struct ProcessInboundConnection {
    pub node_key: String,
    pub asset_id: Option<String>,
    pub hostname: Option<String>,
    pub ip_address: String,
    pub protocol: String,
    pub port: u32,
    pub state: u32,
    pub created_timestamp: u64,
    pub terminated_timestamp: u64,
    pub last_seen_timestamp: u64,
}

/// Two process-inbound-connection nodes may merge only when the node key
/// and every identifying attribute agree.
pub open spec fn process_inbound_connection_mergeable(
    a: ProcessInboundConnection,
    b: ProcessInboundConnection,
) -> bool {
    &&& a.node_key@ == b.node_key@
    &&& a.ip_address@ == b.ip_address@
    &&& a.protocol@ == b.protocol@
    &&& a.port == b.port
}

/// Field-wise description of a process-inbound-connection merge: the
/// optional owner fields fill if absent, `created` takes the minimum of
/// the non-zero inputs, and the other timestamps take the maximum.
pub open spec fn process_inbound_connection_fields_merged(
    a: ProcessInboundConnection,
    b: ProcessInboundConnection,
    m: ProcessInboundConnection,
) -> bool {
    &&& m.node_key == a.node_key
    &&& m.ip_address == a.ip_address
    &&& m.protocol == a.protocol
    &&& m.port == a.port
    &&& m.state == a.state
    &&& opt_view(m.asset_id) == fill_opt(opt_view(a.asset_id), opt_view(b.asset_id))
    &&& opt_view(m.hostname) == fill_opt(opt_view(a.hostname), opt_view(b.hostname))
    &&& m.created_timestamp == min_nonzero(a.created_timestamp, b.created_timestamp)
    &&& m.terminated_timestamp == max_merge(a.terminated_timestamp, b.terminated_timestamp)
    &&& m.last_seen_timestamp == max_merge(a.last_seen_timestamp, b.last_seen_timestamp)
}

/// True when merging `b` into `a` changes at least one timestamp. The
/// owner fields fill silently and do not count as a change.
pub open spec fn process_inbound_connection_merge_changes(
    a: ProcessInboundConnection,
    b: ProcessInboundConnection,
) -> bool {
    ||| (min_nonzero(a.created_timestamp, b.created_timestamp) != a.created_timestamp)
    ||| (max_merge(a.terminated_timestamp, b.terminated_timestamp) != a.terminated_timestamp)
    ||| (max_merge(a.last_seen_timestamp, b.last_seen_timestamp) != a.last_seen_timestamp)
}

impl ProcessInboundConnection {
    /// Build a process-inbound-connection node with a fresh random node
    /// key. At least one of `asset_id` and `hostname` must be given.
    pub fn new(
        asset_id: Option<String>,
        hostname: Option<String>,
        state: ProcessInboundConnectionState,
        port: u16,
        ip_address: String,
        protocol: String,
        created_timestamp: u64,
        terminated_timestamp: u64,
        last_seen_timestamp: u64,
    ) -> (r: ProcessInboundConnection)
        requires
            asset_id is Some || hostname is Some,
        ensures
            r.node_key@.len() == 36,
            forall|i: int| 0 <= i < 36 ==> ids::is_key_char(#[trigger] r.node_key@[i]),
            r.asset_id == asset_id,
            r.hostname == hostname,
            r.ip_address == ip_address,
            r.protocol == protocol,
            r.port == port as u32,
            r.state == process_inbound_connection_state_code(state),
            r.created_timestamp == created_timestamp,
            r.terminated_timestamp == terminated_timestamp,
            r.last_seen_timestamp == last_seen_timestamp,
    {
        ProcessInboundConnection {
            node_key: ids::fresh_node_key(),
            asset_id,
            hostname,
            ip_address,
            protocol,
            port: port as u32,
            state: state.into_u32(),
            created_timestamp,
            terminated_timestamp,
            last_seen_timestamp,
        }
    }

    /// The asset this endpoint belongs to, when known.
    pub fn get_asset_id(&self) -> (r: Option<&String>)
        ensures
            r == match self.asset_id {
                Some(ref s) => Some::<&String>(s),
                None => None::<&String>,
            },
    {
        self.asset_id.as_ref()
    }

    /// Bind the node to an asset; every other field is unchanged.
    pub fn set_asset_id(&mut self, asset_id: String)
        ensures
            *final(self) == (ProcessInboundConnection {
                asset_id: Some(asset_id),
                ..*old(self)
            }),
    {
        self.asset_id = Some(asset_id);
    }

    /// The node's stable identifier.
    pub fn get_node_key(&self) -> (r: &String)
        ensures
            r == self.node_key,
    {
        &self.node_key
    }

    /// Replace the node's stable identifier; every other field is
    /// unchanged.
    pub fn set_node_key(&mut self, node_key: String)
        ensures
            *final(self) == (ProcessInboundConnection { node_key: node_key, ..*old(self) }),
    {
        self.node_key = node_key;
    }

    /// Merge `other` into `self`. A differing node key or identifying
    /// attribute refuses the merge and leaves `self` untouched; otherwise
    /// the owner fields fill if absent and the timestamps merge under the
    /// min/max rules. The result reports whether a timestamp changed.
    pub fn merge(&mut self, other: &ProcessInboundConnection) -> (r: bool)
        ensures
            !process_inbound_connection_mergeable(*old(self), *other) ==> r == false && *final(self) == *old(self),
            process_inbound_connection_mergeable(*old(self), *other)
                ==> process_inbound_connection_fields_merged(*old(self), *other, *final(self)),
            process_inbound_connection_mergeable(*old(self), *other) ==> r
                == process_inbound_connection_merge_changes(*old(self), *other),
    {
        if !(self.node_key == other.node_key) {
            return false;
        }
        if !(self.ip_address == other.ip_address) {
            return false;
        }
        if !(self.protocol == other.protocol) {
            return false;
        }
        if self.port != other.port {
            return false;
        }

        let mut merged = false;

        if self.asset_id.is_none() && other.asset_id.is_some() {
            self.asset_id = other.asset_id.clone();
        }
        if self.hostname.is_none() && other.hostname.is_some() {
            self.hostname = other.hostname.clone();
        }

        let new_created = merge_created(self.created_timestamp, other.created_timestamp);
        if new_created != self.created_timestamp {
            merged = true;
            self.created_timestamp = new_created;
        }
        let new_terminated = merge_last_seen(self.terminated_timestamp, other.terminated_timestamp);
        if new_terminated != self.terminated_timestamp {
            merged = true;
            self.terminated_timestamp = new_terminated;
        }
        let new_last_seen = merge_last_seen(self.last_seen_timestamp, other.last_seen_timestamp);
        if new_last_seen != self.last_seen_timestamp {
            merged = true;
            self.last_seen_timestamp = new_last_seen;
        }

        merged
    }

    /// Merge a consumed node; the behaviour is that of
    /// [`ProcessInboundConnection::merge`].
    pub fn merge_into(&mut self, other: ProcessInboundConnection) -> (r: bool)
        ensures
            !process_inbound_connection_mergeable(*old(self), other) ==> r == false && *final(self) == *old(self),
            process_inbound_connection_mergeable(*old(self), other)
                ==> process_inbound_connection_fields_merged(*old(self), other, *final(self)),
            process_inbound_connection_mergeable(*old(self), other) ==> r
                == process_inbound_connection_merge_changes(*old(self), other),
    {
        self.merge(&other)
    }

    /// Materialise the node into a mutation unit: the node key, the type,
    /// the protocol and port, and every non-zero timestamp.
    #[verifier::rlimit(60)]
    #[verifier::spinoff_prover]
    pub fn attach_predicates_to_mutation_unit(
        &self,
        mutation_unit: &mut dgraph_query_lib::mutation::MutationUnit,
    )
        ensures
            mutation_strings(*final(mutation_unit)) == process_inbound_connection_mutation_strings(
                *self,
                mutation_strings(*old(mutation_unit)),
            ),
            mutation_numbers(*final(mutation_unit)) == process_inbound_connection_mutation_numbers(
                *self,
                mutation_numbers(*old(mutation_unit)),
            ),
    {
        set_string_predicate(mutation_unit, "node_key", self.node_key.as_str());
        set_string_predicate(mutation_unit, "dgraph.type", "ProcessInboundConnection");
        set_string_predicate(mutation_unit, "protocol", self.protocol.as_str());
        set_number_predicate(mutation_unit, "port", self.port as i64);
        if self.created_timestamp != 0 {
            set_number_predicate(
                mutation_unit,
                "created_timestamp",
                #[verifier::truncate]
                (self.created_timestamp as i64),
            );
        }
        if self.terminated_timestamp != 0 {
            set_number_predicate(
                mutation_unit,
                "terminated_timestamp",
                #[verifier::truncate]
                (self.terminated_timestamp as i64),
            );
        }
        if self.last_seen_timestamp != 0 {
            set_number_predicate(
                mutation_unit,
                "last_seen_timestamp",
                #[verifier::truncate]
                (self.last_seen_timestamp as i64),
            );
        }
    }

    /// The identity strings of this node's predicates: one
    /// `node_key:name:value` entry per attached predicate.
    #[verifier::rlimit(60)]
    #[verifier::spinoff_prover]
    pub fn get_cache_identities_for_predicates(&self) -> (r: Vec<String>)
        ensures
            r.deep_view() == process_inbound_connection_identities(*self),
    {
        let mut out: Vec<String> = Vec::new();
        out.push(make_identity(self.node_key.as_str(), "protocol", self.protocol.as_str()));
        let port_rendered = u64_to_dec_string(self.port as u64);
        out.push(make_identity(self.node_key.as_str(), "port", port_rendered.as_str()));
        if self.created_timestamp != 0 {
            let rendered = u64_to_dec_string(self.created_timestamp);
            out.push(
                make_identity(self.node_key.as_str(), "created_timestamp", rendered.as_str()),
            );
        }
        if self.terminated_timestamp != 0 {
            let rendered = u64_to_dec_string(self.terminated_timestamp);
            out.push(
                make_identity(self.node_key.as_str(), "terminated_timestamp", rendered.as_str()),
            );
        }
        if self.last_seen_timestamp != 0 {
            let rendered = u64_to_dec_string(self.last_seen_timestamp);
            out.push(
                make_identity(self.node_key.as_str(), "last_seen_timestamp", rendered.as_str()),
            );
        }
        proof {
            assert(out.deep_view() =~= process_inbound_connection_identities(*self));
        }
        out
    }
}

/// The string predicates a process-inbound-connection node attaches,
/// applied over the string map a unit already holds; a number predicate
/// drops any string held under the same name.
pub open spec fn process_inbound_connection_mutation_strings(
    c: ProcessInboundConnection,
    m0: Map<Seq<char>, Seq<char>>,
) -> Map<Seq<char>, Seq<char>> {
    let m = m0.insert("node_key"@, c.node_key@).insert(
        "dgraph.type"@,
        "ProcessInboundConnection"@,
    ).insert("protocol"@, c.protocol@).remove("port"@);
    let m = if c.created_timestamp != 0 {
        m.remove("created_timestamp"@)
    } else {
        m
    };
    let m = if c.terminated_timestamp != 0 {
        m.remove("terminated_timestamp"@)
    } else {
        m
    };
    let m = if c.last_seen_timestamp != 0 {
        m.remove("last_seen_timestamp"@)
    } else {
        m
    };
    m
}

/// The number predicates a process-inbound-connection node attaches,
/// applied over the number map a unit already holds; a string predicate
/// drops any number held under the same name.
pub open spec fn process_inbound_connection_mutation_numbers(
    c: ProcessInboundConnection,
    m0: Map<Seq<char>, int>,
) -> Map<Seq<char>, int> {
    let m = m0.remove("node_key"@).remove("dgraph.type"@).remove("protocol"@).insert(
        "port"@,
        c.port as int,
    );
    let m = if c.created_timestamp != 0 {
        m.insert("created_timestamp"@, (c.created_timestamp as i64) as int)
    } else {
        m
    };
    let m = if c.terminated_timestamp != 0 {
        m.insert("terminated_timestamp"@, (c.terminated_timestamp as i64) as int)
    } else {
        m
    };
    let m = if c.last_seen_timestamp != 0 {
        m.insert("last_seen_timestamp"@, (c.last_seen_timestamp as i64) as int)
    } else {
        m
    };
    m
}

/// The identity strings a process-inbound-connection node contributes.
pub open spec fn process_inbound_connection_identities(c: ProcessInboundConnection) -> Seq<
    Seq<char>,
> {
    let s = Seq::<Seq<char>>::empty();
    let s = s.push(ident_of(c.node_key@, "protocol"@, c.protocol@));
    let s = s.push(ident_of(c.node_key@, "port"@, dec_str(c.port as nat)));
    let s = if c.created_timestamp != 0 {
        s.push(ident_of(c.node_key@, "created_timestamp"@, dec_str(c.created_timestamp as nat)))
    } else {
        s
    };
    let s = if c.terminated_timestamp != 0 {
        s.push(
            ident_of(c.node_key@, "terminated_timestamp"@, dec_str(c.terminated_timestamp as nat)),
        )
    } else {
        s
    };
    let s = if c.last_seen_timestamp != 0 {
        s.push(
            ident_of(c.node_key@, "last_seen_timestamp"@, dec_str(c.last_seen_timestamp as nat)),
        )
    } else {
        s
    };
    s
}

} // verus!
