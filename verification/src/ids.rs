//! Fresh node-key generation.
//!
//! Every node carries a `node_key`: a stable identifier, a random 128-bit
//! value rendered as text. The rendering is the hyphenated lowercase form,
//! so a key is 36 characters drawn from the hex digits and `-`.

use vstd::prelude::*;

verus! {

/// The characters a node key may hold: `-` and the lowercase hex digits.
pub open spec fn is_key_char(c: char) -> bool {
    c == '-' || ('0' <= c && c <= '9') || ('a' <= c && c <= 'f')
}

/// Relies on `uuid::Uuid::new_v4` and its `Display` impl: a fresh random
/// identifier rendered hyphenated and lowercase, 36 characters of hex
/// digits with hyphens at positions 8, 13, 18 and 23. The value itself is
/// random, so nothing more is promised of it.
#[verifier::external_body]
pub fn fresh_node_key() -> (r: String)
    ensures
        r@.len() == 36,
        forall|i: int| 0 <= i < 36 ==> is_key_char(#[trigger] r@[i]),
        r@[8] == '-' && r@[13] == '-' && r@[18] == '-' && r@[23] == '-',
{
    uuid::Uuid::new_v4().to_string()
}

} // verus!
