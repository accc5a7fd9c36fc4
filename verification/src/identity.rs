//! Identity strings for the deduplication cache.
//!
//! A node contributes one identity per attached predicate, of the form
//! `node_key:predicate_name:value`. An identity stored in the cache
//! suppresses future reprocessing of an equivalent sub-event.

use vstd::prelude::*;

verus! {

/// The identity string of one predicate triple.
pub open spec fn ident_of(key: Seq<char>, name: Seq<char>, value: Seq<char>) -> Seq<char> {
    key + seq![':'] + name + seq![':'] + value
}

/// Build the identity string of one predicate triple.
pub fn make_identity(key: &str, name: &str, value: &str) -> (r: String)
    ensures
        r@ == ident_of(key@, name@, value@),
{
    let mut r = String::new();
    r.append(key);
    proof {
        reveal_strlit(":");
    }
    r.append(":");
    r.append(name);
    r.append(":");
    r.append(value);
    proof {
        assert(r@ =~= ident_of(key@, name@, value@));
    }
    r
}

} // verus!
